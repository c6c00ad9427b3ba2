//! The HyprSaver editor: how its settings are shown, how an edited value
//! is typed, and how the HyprCube override collection is applied.
use vstd::prelude::*;

use crate::panels::{pairs_view, FieldType, PanelError, PanelField};
use crate::display::strings_view;
use crate::text::{lossy_text, utf8_lossy, 
    all_digits, decimal, digits_value, is_ws, join_strings, join_with, lines, lines_of, parse_u64,
    push_char, push_decimal, spec_parse_u64, split_once, split_once_spec, str_eq, str_starts_with,
    chars_of, string_of, trim, trim_string, trim_start, words, words_of, contains_seq, str_contains,
};
use crate::toml_model::{
    fault_matches, get_path, set_path, spec_get_path, spec_set_path, split_on, split_str, PathFault,
    SetFault, TomlTable, TomlValue, TomlView,
};

verus! {

broadcast use {vstd::seq::group_seq_axioms, vstd::string::group_string_axioms};

// ---------------------------------------------------------------------------
// Showing values
// ---------------------------------------------------------------------------

pub open spec fn int_text(n: i64) -> Seq<char> {
    if n < 0 {
        seq!['-'] + decimal((-n) as nat)
    } else {
        decimal(n as nat)
    }
}

pub open spec fn bool_text(b: bool) -> Seq<char> {
    if b {
        "true"@
    } else {
        "false"@
    }
}

/// How a value is shown in a text field: strings as they are, arrays as
/// their items joined by `", "`, and anything else as TOML writes it
/// (tables inline, with their strings quoted).
pub open spec fn spec_display(v: TomlView) -> Seq<char>
    decreases v, 1nat,
{
    match v {
        TomlView::Str(s) => s,
        TomlView::Int(n) => int_text(n),
        TomlView::Float(t) => t,
        TomlView::Bool(b) => bool_text(b),
        TomlView::Date(t) => t,
        TomlView::Arr(items) => join_with(display_list(items), ", "@),
        TomlView::Tab(_) => crate::hyprdeck::spec_toml_text(v),
    }
}

/// Each item shown.
pub open spec fn display_list(items: Seq<TomlView>) -> Seq<Seq<char>>
    decreases items, 0nat,
{
    if items.len() == 0 {
        seq![]
    } else {
        display_list(items.drop_last()).push(spec_display(items[items.len() - 1]))
    }
}

/// The decimal text of an `i64`.
pub fn int_to_string(n: i64) -> (r: String)
    ensures
        r@ == int_text(n),
{
    let mut s = String::new();
    if n < 0 {
        push_char(&mut s, '-');
        let m: u64 = (-(n as i128)) as u64;
        push_decimal(&mut s, m);
    } else {
        push_decimal(&mut s, n as u64);
    }
    s
}

/// Shows a value as `spec_display` does.
#[verifier::loop_isolation(false)]
pub fn display_value(v: &TomlValue) -> (r: String)
    ensures
        r@ == spec_display(v.view_value()),
    decreases v,
{
    match v {
        TomlValue::String(s) => {
            let r = s.clone();
            assert(r@ == spec_display(v.view_value()));
            r
        },
        TomlValue::Integer(n) => {
            let r = int_to_string(*n);
            assert(r@ == spec_display(v.view_value()));
            r
        },
        TomlValue::Float(t) => {
            let r = t.clone();
            assert(r@ == spec_display(v.view_value()));
            r
        },
        TomlValue::Boolean(b) => {
            let r = if *b {
                "true".to_string()
            } else {
                "false".to_string()
            };
            assert(r@ == spec_display(v.view_value()));
            r
        },
        TomlValue::Datetime(t) => {
            let r = t.clone();
            assert(r@ == spec_display(v.view_value()));
            r
        },
        TomlValue::Array(items) => {
            let ghost iv = crate::toml_model::view_values(items@);
            let mut parts: Vec<String> = Vec::new();
            let mut i: usize = 0;
            assert(iv.take(0) =~= Seq::<TomlView>::empty());
            while i < items.len()
                invariant
                    i <= items@.len(),
                    iv == crate::toml_model::view_values(items@),
                    parts@.map_values(|p: String| p@) == display_list(iv.take(i as int)),
                decreases items@.len() - i,
            {
                let d = display_value(&items[i]);
                assert(iv[i as int] == items@[i as int].view_value());
                assert(iv.take(i + 1).drop_last() =~= iv.take(i as int));
                let ghost before = parts@;
                parts.push(d);
                assert(parts@.map_values(|p: String| p@) =~= before.map_values(|p: String| p@).push(d@));
                i = i + 1;
            }
            assert(iv.take(items@.len() as int) =~= iv);
            let r = join_strings(&parts, ", ");
            assert(r@ == spec_display(v.view_value()));
            r
        },
        TomlValue::Table(_) => crate::hyprdeck::toml_text(v),
    }
}

// ---------------------------------------------------------------------------
// Typing edited values
// ---------------------------------------------------------------------------

/// What `str::parse::<i64>` gives: an optional sign, then one or more
/// decimal digits whose value fits in an `i64`.
pub open spec fn spec_parse_i64(s: Seq<char>) -> Option<i64> {
    let neg = s.len() > 0 && s[0] == '-';
    let d = if s.len() > 0 && (s[0] == '-' || s[0] == '+') {
        s.drop_first()
    } else {
        s
    };
    if d.len() > 0 && all_digits(d) {
        if neg && digits_value(d) <= 0x8000_0000_0000_0000 {
            Some((-digits_value(d)) as i64)
        } else if !neg && digits_value(d) <= 0x7fff_ffff_ffff_ffff {
            Some(digits_value(d) as i64)
        } else {
            None
        }
    } else {
        None
    }
}

/// `str::parse::<i64>`.
pub fn parse_i64(s: &str) -> (r: Option<i64>)
    ensures
        r == spec_parse_i64(s@),
{
    let v = chars_of(s);
    let signed = v.len() > 0 && (v[0] == '-' || v[0] == '+');
    let neg = v.len() > 0 && v[0] == '-';
    let start: usize = if signed { 1 } else { 0 };
    let d = string_of(&v, start, v.len());
    let ghost dv = if s@.len() > 0 && (s@[0] == '-' || s@[0] == '+') { s@.drop_first() } else { s@ };
    assert(d@ =~= dv);
    let dc = chars_of(d.as_str());
    if dc.len() == 0 || dc[0] == '+' {
        proof {
            if dc@.len() > 0 {
                assert(!crate::text::is_digit(dv[0]));
            }
        }
        return None;
    }
    match parse_u64(d.as_str()) {
        Some(m) => {
            if neg && m <= 0x8000_0000_0000_0000 {
                Some((-(m as i128)) as i64)
            } else if !neg && m <= 0x7fff_ffff_ffff_ffff {
                Some(m as i64)
            } else {
                None
            }
        },
        None => None,
    }
}

pub open spec fn integer_keys() -> Seq<Seq<char>> {
    seq![
        "general.fps"@,
        "general.shader_cycle_interval"@,
        "general.palette_cycle_interval"@,
        "general.preview_width"@,
        "general.preview_height"@,
        "behavior.fade_in_ms"@,
        "behavior.fade_out_ms"@,
    ]
}

pub open spec fn boolean_keys() -> Seq<Seq<char>> {
    seq!["general.synced"@, "behavior.exclusive_keyboard"@, "hyprcube_override.enabled"@]
}

pub open spec fn float_key() -> Seq<char> {
    "general.palette_transition_duration"@
}

pub open spec fn ends_with(s: Seq<char>, p: Seq<char>) -> bool {
    s.len() >= p.len() && s.skip(s.len() - p.len()) == p
}

pub open spec fn starts_with(s: Seq<char>, p: Seq<char>) -> bool {
    s.len() >= p.len() && s.take(p.len() as int) == p
}

/// A key whose value is a comma-separated list.
pub open spec fn is_list_key(key: Seq<char>) -> bool {
    key == "behavior.dismiss_on"@ || (starts_with(key, "playlists."@) && (ends_with(key, ".shaders"@)
        || ends_with(key, ".palettes"@)))
}

/// The non-empty trimmed pieces of a comma-separated list.
pub open spec fn list_items(pieces: Seq<Seq<char>>) -> Seq<TomlView>
    decreases pieces.len(),
{
    if pieces.len() == 0 {
        seq![]
    } else if trim(pieces.last()).len() == 0 {
        list_items(pieces.drop_last())
    } else {
        list_items(pieces.drop_last()).push(TomlView::Str(trim(pieces.last())))
    }
}

/// Why a value is refused.
pub open spec fn invalid(key: Seq<char>, reason: Seq<char>, r: Result<TomlValue, PanelError>) -> bool {
    r matches Err(PanelError::InvalidValue { key: k, reason: m }) && k@ == key && m@ == reason
}

/// The TOML value an edited text becomes, by key: whole numbers, the
/// transition duration (a number, whose TOML text `float_text` gives when
/// the text is one), booleans, comma-separated lists, or plain strings.
pub open spec fn spec_field_value(key: Seq<char>, value: Seq<char>, float_text: Option<Seq<char>>) -> Result<
    TomlView,
    Seq<char>,
> {
    if integer_keys().contains(key) {
        match spec_parse_i64(value) {
            Some(n) => Ok(TomlView::Int(n)),
            None => Err("expected a whole number"@),
        }
    } else if key == float_key() {
        match float_text {
            Some(t) => Ok(TomlView::Float(t)),
            None => Err("expected a number"@),
        }
    } else if boolean_keys().contains(key) {
        if value == "true"@ {
            Ok(TomlView::Bool(true))
        } else if value == "false"@ {
            Ok(TomlView::Bool(false))
        } else {
            Err("expected true or false"@)
        }
    } else if is_list_key(key) {
        Ok(TomlView::Arr(list_items(split_on(value, ','))))
    } else {
        Ok(TomlView::Str(value))
    }
}

fn contains_str(list: &Vec<&'static str>, key: &str) -> (r: bool)
    ensures
        r == list@.map_values(|s: &'static str| s@).contains(key@),
{
    let ghost lv = list@.map_values(|s: &'static str| s@);
    let mut i: usize = 0;
    while i < list.len()
        invariant
            lv == list@.map_values(|s: &'static str| s@),
            i <= list@.len(),
            forall|j: int| 0 <= j < i ==> lv[j] != key@,
        decreases list@.len() - i,
    {
        if str_eq(list[i], key) {
            assert(lv[i as int] == key@);
            return true;
        }
        i = i + 1;
    }
    false
}

fn str_ends_with(s: &str, p: &str) -> (r: bool)
    ensures
        r == ends_with(s@, p@),
{
    let v = chars_of(s);
    let w = chars_of(p);
    if w.len() > v.len() {
        return false;
    }
    let off = v.len() - w.len();
    let mut i: usize = 0;
    while i < w.len()
        invariant
            off == v@.len() - w@.len(),
            v@.len() <= usize::MAX,
            v@ == s@,
            w@ == p@,
            i <= w@.len(),
            forall|j: int| 0 <= j < i ==> v@[off + j] == w@[j],
        decreases w@.len() - i,
    {
        if v[off + i] != w[i] {
            assert(s@.skip(s@.len() - p@.len())[i as int] != p@[i as int]);
            return false;
        }
        i = i + 1;
    }
    assert(s@.skip(s@.len() - p@.len()) =~= p@);
    true
}

fn list_value(value: &str) -> (r: TomlValue)
    ensures
        r.view_value() == TomlView::Arr(list_items(split_on(value@, ','))),
{
    let pieces = split_str(value, ',');
    let ghost pv = pieces@.map_values(|x: String| x@);
    let mut items: Vec<TomlValue> = Vec::new();
    let mut i: usize = 0;
    assert(pv.take(0) =~= Seq::<Seq<char>>::empty());
    assert(crate::toml_model::view_values(items@) =~= Seq::<TomlView>::empty());
    while i < pieces.len()
        invariant
            pv == pieces@.map_values(|x: String| x@),
            i <= pieces@.len(),
            crate::toml_model::view_values(items@) == list_items(pv.take(i as int)),
        decreases pieces@.len() - i,
    {
        proof {
            assert(pv.take(i + 1).drop_last() =~= pv.take(i as int));
            assert(pv.take(i + 1).last() == pieces@[i as int]@);
        }
        let t = trim_string(pieces[i].as_str());
        if t.as_str().unicode_len() > 0 {
            let ghost before = items@;
            let ghost tv = t@;
            items.push(TomlValue::String(t));
            assert(crate::toml_model::view_values(items@) =~= crate::toml_model::view_values(before).push(
                TomlView::Str(tv),
            ));
        }
        i = i + 1;
    }
    assert(pv.take(pieces@.len() as int) =~= pv);
    TomlValue::Array(items)
}

/// The TOML value an edited text becomes, or why it is refused.
pub fn parse_field_value(key: &str, value: &str, float_text: Option<String>) -> (r: Result<TomlValue, PanelError>)
    ensures
        match spec_field_value(key@, value@, match float_text { Some(t) => Some(t@), None => None }) {
            Ok(v) => r matches Ok(x) && x.view_value() == v,
            Err(reason) => invalid(key@, reason, r),
        },
{
    let ints = vec![
        "general.fps",
        "general.shader_cycle_interval",
        "general.palette_cycle_interval",
        "general.preview_width",
        "general.preview_height",
        "behavior.fade_in_ms",
        "behavior.fade_out_ms",
    ];
    assert(ints@.map_values(|s: &'static str| s@) =~= integer_keys());
    if contains_str(&ints, key) {
        return match parse_i64(value) {
            Some(n) => Ok(TomlValue::Integer(n)),
            None => Err(PanelError::InvalidValue { key: key.to_string(), reason: "expected a whole number".to_string() }),
        };
    }
    if str_eq(key, "general.palette_transition_duration") {
        return match float_text {
            Some(t) => Ok(TomlValue::Float(t)),
            None => Err(PanelError::InvalidValue { key: key.to_string(), reason: "expected a number".to_string() }),
        };
    }
    let bools = vec!["general.synced", "behavior.exclusive_keyboard", "hyprcube_override.enabled"];
    assert(bools@.map_values(|s: &'static str| s@) =~= boolean_keys());
    if contains_str(&bools, key) {
        return if str_eq(value, "true") {
            Ok(TomlValue::Boolean(true))
        } else if str_eq(value, "false") {
            Ok(TomlValue::Boolean(false))
        } else {
            Err(PanelError::InvalidValue { key: key.to_string(), reason: "expected true or false".to_string() })
        };
    }
    if str_eq(key, "behavior.dismiss_on") || (str_starts_with(key, "playlists.") && (str_ends_with(key, ".shaders")
        || str_ends_with(key, ".palettes"))) {
        return Ok(list_value(value));
    }
    Ok(TomlValue::String(value.to_string()))
}

// ---------------------------------------------------------------------------
// The panel
// ---------------------------------------------------------------------------

/// The settings the panel always lists: key and default.
pub open spec fn fixed_fields() -> Seq<(Seq<char>, Seq<char>)> {
    seq![
        ("_preview"@, ""@),
        ("general.fps"@, "30"@),
        ("general.shader"@, "cycle"@),
        ("general.palette"@, "cycle"@),
        ("general.shader_cycle_interval"@, "300"@),
        ("general.palette_cycle_interval"@, "60"@),
        ("general.palette_transition_duration"@, "0"@),
        ("general.shader_playlist"@, "default"@),
        ("general.palette_playlist"@, "default"@),
        ("general.cycle_order"@, "random"@),
        ("general.synced"@, "true"@),
        ("general.preview_width"@, "1280"@),
        ("general.preview_height"@, "720"@),
        ("behavior.fade_in_ms"@, "800"@),
        ("behavior.fade_out_ms"@, "400"@),
        ("behavior.dismiss_on"@, "key, mouse_move, mouse_click, touch"@),
        ("behavior.exclusive_keyboard"@, "true"@),
        ("hyprcube_override.enabled"@, "false"@),
        ("hyprcube_override.palette"@, "inherit"@),
        ("hyprcube_override.shader_playlist"@, "inherit"@),
        ("hyprcube_override.palette_playlist"@, "inherit"@),
        ("hyprcube_override.wallpaper"@, ""@),
    ]
}

fn fixed_keys() -> (r: Vec<&'static str>)
    ensures
        r@.len() == 22,
        forall|i: int| 0 <= i < 22 ==> (#[trigger] r@[i])@ == fixed_fields()[i].0,
{
    let r = vec![
        "_preview",
        "general.fps",
        "general.shader",
        "general.palette",
        "general.shader_cycle_interval",
        "general.palette_cycle_interval",
        "general.palette_transition_duration",
        "general.shader_playlist",
        "general.palette_playlist",
        "general.cycle_order",
        "general.synced",
        "general.preview_width",
        "general.preview_height",
        "behavior.fade_in_ms",
        "behavior.fade_out_ms",
        "behavior.dismiss_on",
        "behavior.exclusive_keyboard",
        "hyprcube_override.enabled",
        "hyprcube_override.palette",
        "hyprcube_override.shader_playlist",
        "hyprcube_override.palette_playlist",
        "hyprcube_override.wallpaper",
    ];
    r
}

fn fixed_defaults() -> (r: Vec<&'static str>)
    ensures
        r@.len() == 22,
        forall|i: int| 0 <= i < 22 ==> (#[trigger] r@[i])@ == fixed_fields()[i].1,
{
    vec![
        "", "30", "cycle", "cycle", "300", "60", "0", "default", "default", "random", "true", "1280",
        "720", "800", "400", "key, mouse_move, mouse_click, touch", "true", "false", "inherit",
        "inherit", "inherit", "",
    ]
}

/// The label and description of each fixed setting.
pub open spec fn fixed_texts() -> Seq<(Seq<char>, Seq<char>)> {
    seq![
        ("Live preview"@, "Opens HyprSaver's native accelerated preview window with this configuration."@),
        ("Frame rate"@, "Target render frames per second."@),
        ("Shader"@, "Built-in or user shader; cycle and random are also supported."@),
        ("Palette"@, "Built-in, user, LUT, or gradient palette."@),
        ("Shader cycle interval"@, "Seconds between shaders in cycle mode."@),
        ("Palette cycle interval"@, "Seconds between palettes in cycle mode."@),
        ("Palette transition"@, "Cross-fade duration in seconds."@),
        ("Shader playlist"@, "Named shader collection used in cycle mode."@),
        ("Palette playlist"@, "Named palette collection used in cycle mode."@),
        ("Cycle order"@, "Choose randomized or sequential playlist traversal."@),
        ("Synchronize displays"@, "Cycle every monitor together."@),
        ("Preview width"@, "Remembered native preview window width."@),
        ("Preview height"@, "Remembered native preview window height."@),
        ("Fade in"@, "Overlay fade-in duration in milliseconds."@),
        ("Fade out"@, "Overlay fade-out duration in milliseconds."@),
        ("Dismiss events"@, "Comma-separated: key, mouse_move, mouse_click, touch."@),
        ("Exclusive keyboard"@, "Allow key presses to dismiss the screensaver."@),
        ("Use HyprCube theme override"@, "Apply this snapshot-friendly collection to HyprSaver whenever it is saved."@),
        ("Override palette"@, "Palette associated with the current HyprCube theme collection."@),
        ("Override shader playlist"@, "Shader playlist associated with the current HyprCube theme collection."@),
        ("Override palette playlist"@, "Palette playlist associated with the current HyprCube theme collection."@),
        ("Override wallpaper"@, "Wallpaper path retained with this collection for the Hyprpaper integration."@),
    ]
}

fn fixed_labels() -> (r: Vec<&'static str>)
    ensures
        r@.len() == 22,
        forall|i: int| 0 <= i < 22 ==> (#[trigger] r@[i])@ == fixed_texts()[i].0,
{
    vec![
        "Live preview",
        "Frame rate",
        "Shader",
        "Palette",
        "Shader cycle interval",
        "Palette cycle interval",
        "Palette transition",
        "Shader playlist",
        "Palette playlist",
        "Cycle order",
        "Synchronize displays",
        "Preview width",
        "Preview height",
        "Fade in",
        "Fade out",
        "Dismiss events",
        "Exclusive keyboard",
        "Use HyprCube theme override",
        "Override palette",
        "Override shader playlist",
        "Override palette playlist",
        "Override wallpaper",
    ]
}

fn fixed_descriptions() -> (r: Vec<&'static str>)
    ensures
        r@.len() == 22,
        forall|i: int| 0 <= i < 22 ==> (#[trigger] r@[i])@ == fixed_texts()[i].1,
{
    vec![
        "Opens HyprSaver's native accelerated preview window with this configuration.",
        "Target render frames per second.",
        "Built-in or user shader; cycle and random are also supported.",
        "Built-in, user, LUT, or gradient palette.",
        "Seconds between shaders in cycle mode.",
        "Seconds between palettes in cycle mode.",
        "Cross-fade duration in seconds.",
        "Named shader collection used in cycle mode.",
        "Named palette collection used in cycle mode.",
        "Choose randomized or sequential playlist traversal.",
        "Cycle every monitor together.",
        "Remembered native preview window width.",
        "Remembered native preview window height.",
        "Overlay fade-in duration in milliseconds.",
        "Overlay fade-out duration in milliseconds.",
        "Comma-separated: key, mouse_move, mouse_click, touch.",
        "Allow key presses to dismiss the screensaver.",
        "Apply this snapshot-friendly collection to HyprSaver whenever it is saved.",
        "Palette associated with the current HyprCube theme collection.",
        "Shader playlist associated with the current HyprCube theme collection.",
        "Palette playlist associated with the current HyprCube theme collection.",
        "Wallpaper path retained with this collection for the Hyprpaper integration.",
    ]
}

fn clone_choices(v: &Vec<(String, String)>) -> (r: Vec<(String, String)>)
    ensures
        pairs_view(r@) == pairs_view(v@),
        r@.len() == v@.len(),
        forall|i: int| 0 <= i < v@.len() ==> (#[trigger] r@[i]).0@ == v@[i].0@ && r@[i].1@ == v@[i].1@,
{
    let mut out: Vec<(String, String)> = Vec::new();
    let mut i: usize = 0;
    while i < v.len()
        invariant
            i <= v@.len(),
            out@.len() == i,
            forall|k: int| 0 <= k < i ==> (#[trigger] out@[k]).0@ == v@[k].0@ && out@[k].1@ == v@[k].1@,
        decreases v@.len() - i,
    {
        out.push((v[i].0.clone(), v[i].1.clone()));
        i = i + 1;
    }
    assert(pairs_view(out@) =~= pairs_view(v@));
    out
}

/// `(value, label)` pairs that show each value as its own label.
pub fn choices(values: &Vec<&'static str>) -> (r: Vec<(String, String)>)
    ensures
        r@.len() == values@.len(),
        forall|i: int| 0 <= i < values@.len() ==> (#[trigger] r@[i]).0@ == values@[i]@ && r@[i].1@ == values@[i]@,
{
    let mut out: Vec<(String, String)> = Vec::new();
    let mut i: usize = 0;
    while i < values.len()
        invariant
            i <= values@.len(),
            out@.len() == i,
            forall|k: int| 0 <= k < i ==> (#[trigger] out@[k]).0@ == values@[k]@ && out@[k].1@ == values@[k]@,
        decreases values@.len() - i,
    {
        out.push((values[i].to_string(), values[i].to_string()));
        i = i + 1;
    }
    out
}

/// The options with `inherit` ("Inherit HyprSaver setting") in front.
pub fn with_inherit(options: &Vec<(String, String)>) -> (r: Vec<(String, String)>)
    ensures
        pairs_view(r@) == inherit_view(options@),
        r@.len() == options@.len() + 1,
        r@[0].0@ == "inherit"@,
        r@[0].1@ == "Inherit HyprSaver setting"@,
        forall|i: int| 0 <= i < options@.len() ==> (#[trigger] r@[i + 1]).0@ == options@[i].0@ && r@[i + 1].1@
            == options@[i].1@,
{
    let mut out = vec![("inherit".to_string(), "Inherit HyprSaver setting".to_string())];
    let rest = clone_choices(options);
    let mut i: usize = 0;
    while i < rest.len()
        invariant
            i <= rest@.len(),
            rest@.len() == options@.len(),
            forall|k: int| 0 <= k < options@.len() ==> (#[trigger] rest@[k]).0@ == options@[k].0@ && rest@[k].1@ == options@[k].1@,
            out@.len() == i + 1,
            out@[0].0@ == "inherit"@,
            out@[0].1@ == "Inherit HyprSaver setting"@,
            forall|k: int| 0 <= k < i ==> (#[trigger] out@[k + 1]).0@ == options@[k].0@ && out@[k + 1].1@ == options@[k].1@,
        decreases rest@.len() - i,
    {
        out.push((rest[i].0.clone(), rest[i].1.clone()));
        i = i + 1;
    }
    assert forall|k: int| 0 <= k < out@.len() implies #[trigger] pairs_view(out@)[k] == inherit_view(options@)[k] by {
        if k > 0 {
            assert(out@[(k - 1) + 1] == out@[k]);
        }
    }
    assert(pairs_view(out@) =~= inherit_view(options@));
    out
}

/// The options of `v` with `inherit` in front.
pub open spec fn inherit_view(v: Seq<(String, String)>) -> Seq<(Seq<char>, Seq<char>)> {
    seq![("inherit"@, "Inherit HyprSaver setting"@)] + pairs_view(v)
}

/// The widget of the fixed setting `i` of panel `p`.
pub open spec fn fixed_type_is(p: HyprsaverPanel, i: int, t: FieldType) -> bool {
    if i == 0 {
        t matches FieldType::Action { label } && label@ == "Open Preview"@
    } else if i == 1 {
        t matches FieldType::Integer { min, max } && min == Some(1i64) && max == Some(240i64)
    } else if i == 2 {
        t matches FieldType::SearchableChoice { options } && pairs_view(options@) == pairs_view(p.shaders@)
    } else if i == 3 {
        t matches FieldType::SearchableChoice { options } && pairs_view(options@) == pairs_view(p.palettes@)
    } else if i == 4 || i == 5 {
        t matches FieldType::Integer { min, max } && min == Some(1i64) && max == Some(86_400i64)
    } else if i == 6 {
        t matches FieldType::Float { min, max } && (min matches Some(lo) && lo@ == "0"@) && (max matches Some(
            hi,
        ) && hi@ == "30"@)
    } else if i == 7 {
        t matches FieldType::SearchableChoice { options } && pairs_view(options@) == pairs_view(
            p.shader_playlists@,
        )
    } else if i == 8 {
        t matches FieldType::SearchableChoice { options } && pairs_view(options@) == pairs_view(
            p.palette_playlists@,
        )
    } else if i == 9 {
        t matches FieldType::Choice { options } && strings_view(options@) == seq!["random"@, "sequential"@]
    } else if i == 10 || i == 16 || i == 17 {
        t is Boolean
    } else if i == 11 {
        t matches FieldType::Integer { min, max } && min == Some(320i64) && max == Some(7680i64)
    } else if i == 12 {
        t matches FieldType::Integer { min, max } && min == Some(240i64) && max == Some(4320i64)
    } else if i == 13 || i == 14 {
        t matches FieldType::Integer { min, max } && min == Some(0i64) && max == Some(60_000i64)
    } else if i == 18 {
        t matches FieldType::SearchableChoice { options } && pairs_view(options@) == inherit_view(p.palettes@)
    } else if i == 19 {
        t matches FieldType::SearchableChoice { options } && pairs_view(options@) == inherit_view(
            p.shader_playlists@,
        )
    } else if i == 20 {
        t matches FieldType::SearchableChoice { options } && pairs_view(options@) == inherit_view(
            p.palette_playlists@,
        )
    } else {
        t is Text
    }
}

/// What a configuration shows for `key`: the shown value at its dotted
/// path, if there is one.
pub open spec fn shown_value(cfg: Option<Seq<(Seq<char>, TomlView)>>, key: Seq<char>) -> Option<Seq<char>> {
    match cfg {
        Some(t) => match spec_get_path(t, split_on(key, '.')) {
            Some(v) => Some(spec_display(v)),
            None => None,
        },
        None => None,
    }
}

/// `f` is the field of `key` over `cfg`: its value as shown, else the
/// default.
pub open spec fn field_of(
    f: PanelField,
    cfg: Option<Seq<(Seq<char>, TomlView)>>,
    key: Seq<char>,
    default: Seq<char>,
    dirty: bool,
) -> bool {
    &&& f.key@ == key
    &&& f.section is None
    &&& f.dirty == dirty
    &&& match shown_value(cfg, key) {
        Some(v) => f.current_value@ == v && (f.original_value matches Some(o) && o@ == v),
        None => f.current_value@ == default && f.original_value is None,
    }
}

/// The HyprSaver configuration editor's state.
pub struct HyprsaverPanel {
    pub config: Option<TomlTable>,
    pub installed: bool,
    pub dirty: bool,
    pub shaders: Vec<(String, String)>,
    pub palettes: Vec<(String, String)>,
    pub shader_playlists: Vec<(String, String)>,
    pub palette_playlists: Vec<(String, String)>,
}

pub open spec fn cfg_view(c: Option<TomlTable>) -> Option<Seq<(Seq<char>, TomlView)>> {
    match c {
        Some(t) => Some(t@),
        None => None,
    }
}

pub open spec fn playlist_keys(cfg: Option<Seq<(Seq<char>, TomlView)>>) -> Seq<Seq<char>> {
    match cfg {
        Some(t) => match spec_get_path(t, seq!["playlists"@]) {
            Some(TomlView::Tab(entries)) => entries.map_values(|e: (Seq<char>, TomlView)| e.0),
            _ => seq![],
        },
        None => seq![],
    }
}

/// `shaders` and `palettes` are the two rows of the playlist `name`.
pub open spec fn playlist_rows(
    shaders: PanelField,
    palettes: PanelField,
    cfg: Option<Seq<(Seq<char>, TomlView)>>,
    name: Seq<char>,
    dirty: bool,
) -> bool {
    &&& field_of(shaders, cfg, "playlists."@ + name + ".shaders"@, "all"@, dirty)
    &&& shaders.label@ == name + " shaders"@
    &&& shaders.description@ == "Comma-separated ordered shader names."@
    &&& shaders.field_type is Text
    &&& field_of(palettes, cfg, "playlists."@ + name + ".palettes"@, "all"@, dirty)
    &&& palettes.label@ == name + " palettes"@
    &&& palettes.description@ == "Comma-separated ordered palette names."@
    &&& palettes.field_type is Text
}

impl HyprsaverPanel {
    /// A panel over the configuration loaded from `hyprsaver.toml`
    /// (`loaded`), with `missing` telling whether that file does not exist:
    /// a missing file gives an empty configuration when HyprSaver is
    /// installed, and any other failure gives none.
    pub fn new(
        loaded: Option<TomlTable>,
        missing: bool,
        installed: bool,
        shaders: Vec<(String, String)>,
        palettes: Vec<(String, String)>,
        shader_playlists: Vec<(String, String)>,
        palette_playlists: Vec<(String, String)>,
    ) -> (p: Self)
        ensures
            match loaded {
                Some(t) => p.config == Some(t),
                None => if missing && installed {
                    p.config matches Some(t) && t@.len() == 0
                } else {
                    p.config is None
                },
            },
            p.installed == installed,
            !p.dirty,
            p.shaders == shaders,
            p.palettes == palettes,
            p.shader_playlists == shader_playlists,
            p.palette_playlists == palette_playlists,
    {
        let config = match loaded {
            Some(t) => Some(t),
            None => if missing && installed {
                Some(TomlTable::new())
            } else {
                None
            },
        };
        HyprsaverPanel { config, installed, dirty: false, shaders, palettes, shader_playlists, palette_playlists }
    }

    /// A panel over `config`, as when HyprSaver is installed and offers
    /// the `plasma` shader, the `aurora` palette and a `calm` playlist.
    pub fn with_config(config: TomlTable) -> (p: Self)
        ensures
            p.config == Some(config),
            p.installed,
            !p.dirty,
    {
        HyprsaverPanel {
            config: Some(config),
            installed: true,
            dirty: false,
            shaders: choices(&vec!["cycle", "random", "plasma"]),
            palettes: choices(&vec!["cycle", "random", "aurora"]),
            shader_playlists: choices(&vec!["default", "calm"]),
            palette_playlists: choices(&vec!["default", "calm"]),
        }
    }

    /// The value at the dotted path `key`.
    pub fn value(&self, key: &str) -> (r: Option<&TomlValue>)
        ensures
            match self.config {
                Some(t) => match spec_get_path(t@, split_on(key@, '.')) {
                    Some(v) => r matches Some(x) && x.view_value() == v,
                    None => r is None,
                },
                None => r is None,
            },
    {
        match &self.config {
            Some(t) => get_path(t, key),
            None => None,
        }
    }

    /// The field of `key`, showing its value or `default`.
    pub fn field(&self, key: &str, label: &str, description: &str, field_type: FieldType, default: &str) -> (f: PanelField)
        ensures
            field_of(f, cfg_view(self.config), key@, default@, self.dirty),
            f.label@ == label@,
            f.description@ == description@,
            f.field_type == field_type,
    {
        let original = match self.value(key) {
            Some(v) => Some(display_value(v)),
            None => None,
        };
        let current = match &original {
            Some(o) => o.clone(),
            None => default.to_string(),
        };
        PanelField {
            key: key.to_string(),
            section: None,
            label: label.to_string(),
            description: description.to_string(),
            field_type,
            current_value: current,
            original_value: original,
            dirty: self.dirty,
        }
    }

    fn fixed_type(&self, i: usize) -> (t: FieldType)
        ensures
            fixed_type_is(*self, i as int, t),
    {
        if i == 0 {
            FieldType::Action { label: "Open Preview".to_string() }
        } else if i == 1 {
            FieldType::Integer { min: Some(1), max: Some(240) }
        } else if i == 2 {
            FieldType::SearchableChoice { options: clone_choices(&self.shaders) }
        } else if i == 3 {
            FieldType::SearchableChoice { options: clone_choices(&self.palettes) }
        } else if i == 4 || i == 5 {
            FieldType::Integer { min: Some(1), max: Some(86_400) }
        } else if i == 6 {
            FieldType::Float { min: Some("0".to_string()), max: Some("30".to_string()) }
        } else if i == 7 {
            FieldType::SearchableChoice { options: clone_choices(&self.shader_playlists) }
        } else if i == 8 {
            FieldType::SearchableChoice { options: clone_choices(&self.palette_playlists) }
        } else if i == 9 {
            let options = vec!["random".to_string(), "sequential".to_string()];
            assert(strings_view(options@) =~= seq!["random"@, "sequential"@]);
            FieldType::Choice { options }
        } else if i == 10 || i == 16 || i == 17 {
            FieldType::Boolean
        } else if i == 11 {
            FieldType::Integer { min: Some(320), max: Some(7680) }
        } else if i == 12 {
            FieldType::Integer { min: Some(240), max: Some(4320) }
        } else if i == 13 || i == 14 {
            FieldType::Integer { min: Some(0), max: Some(60_000) }
        } else if i == 18 {
            FieldType::SearchableChoice { options: with_inherit(&self.palettes) }
        } else if i == 19 {
            FieldType::SearchableChoice { options: with_inherit(&self.shader_playlists) }
        } else if i == 20 {
            FieldType::SearchableChoice { options: with_inherit(&self.palette_playlists) }
        } else {
            FieldType::Text
        }
    }

    /// The names of the playlists, in order.
    fn playlist_names(&self) -> (r: Vec<String>)
        ensures
            crate::text::sorted_strings(r@.map_values(|x: String| x@)),
            r@.map_values(|x: String| x@).to_multiset() == playlist_keys(cfg_view(self.config)).to_multiset(),
    {
        let mut names: Vec<String> = Vec::new();
        let ghost keys = playlist_keys(cfg_view(self.config));
        match self.value("playlists") {
            Some(TomlValue::Table(t)) => {
                proof {
                    reveal_strlit("playlists");
                    assert(split_on("playlists"@, '.') =~= seq!["playlists"@]) by {
                        crate::text::lemma_find_char_at("playlists"@, '.', 9);
                    }
                }
                let mut i: usize = 0;
                while i < t.entries.len()
                    invariant
                        i <= t.entries@.len(),
                        keys == t@.map_values(|e: (Seq<char>, TomlView)| e.0),
                        names@.map_values(|x: String| x@) == keys.take(i as int),
                    decreases t.entries@.len() - i,
                {
                    assert(t@[i as int].0 == t.entries@[i as int].0@);
                    let ghost before = names@;
                    names.push(t.entries[i].0.clone());
                    assert(names@.map_values(|x: String| x@) =~= before.map_values(|x: String| x@).push(keys[i as int]));
                    assert(names@.map_values(|x: String| x@) =~= keys.take(i + 1));
                    i = i + 1;
                }
                assert(keys.take(t.entries@.len() as int) =~= keys);
            },
            _ => {
                proof {
                    reveal_strlit("playlists");
                    assert(split_on("playlists"@, '.') =~= seq!["playlists"@]) by {
                        crate::text::lemma_find_char_at("playlists"@, '.', 9);
                    }
                }
                assert(names@.map_values(|x: String| x@) =~= keys);
            },
        }
        crate::text::sort_strings(names)
    }

    /// The fields the panel shows: a notice when the configuration could
    /// not be loaded; otherwise the fixed settings, then the shaders and
    /// palettes of each named playlist, by name.
    pub fn fields(&self) -> (r: Vec<PanelField>)
        ensures
            self.config is None ==> {
                &&& r@.len() == 1
                &&& field_of(r@[0], None, "_unavailable"@, ""@, self.dirty)
                &&& r@[0].label@ == "HyprSaver configuration could not be loaded"@
                &&& r@[0].description@ == "Check hyprsaver.toml for invalid TOML."@
                &&& r@[0].field_type is Text
            },
            self.config is Some ==> {
                let cfg = cfg_view(self.config);
                &&& r@.len() >= 22
                &&& (r@.len() - 22) % 2 == 0
                &&& forall|i: int| 0 <= i < 22 ==> {
                    &&& field_of(#[trigger] r@[i], cfg, fixed_fields()[i].0, fixed_fields()[i].1, self.dirty)
                    &&& r@[i].label@ == fixed_texts()[i].0
                    &&& r@[i].description@ == fixed_texts()[i].1
                    &&& fixed_type_is(*self, i, r@[i].field_type)
                }
                &&& exists|names: Seq<Seq<char>>| {
                    &&& names.len() * 2 == r@.len() - 22
                    &&& crate::text::sorted_strings(names)
                    &&& names.to_multiset() == playlist_keys(cfg).to_multiset()
                    &&& forall|j: int| 0 <= j < names.len() ==> playlist_rows(#[trigger] r@[22 + 2 * j], r@[22 + 2 * j + 1], cfg, names[j], self.dirty)
                }
            },
    {
        if self.config.is_none() {
            let f = self.field(
                "_unavailable",
                "HyprSaver configuration could not be loaded",
                "Check hyprsaver.toml for invalid TOML.",
                FieldType::Text,
                "",
            );
            return vec![f];
        }
        let keys = fixed_keys();
        let defaults = fixed_defaults();
        let labels = fixed_labels();
        let descs = fixed_descriptions();
        let ghost cfg = cfg_view(self.config);
        let mut fields: Vec<PanelField> = Vec::new();
        let mut i: usize = 0;
        while i < 22
            invariant
                i <= 22,
                keys@.len() == 22 && defaults@.len() == 22 && labels@.len() == 22 && descs@.len() == 22,
                forall|k: int| 0 <= k < 22 ==> (#[trigger] keys@[k])@ == fixed_fields()[k].0,
                forall|k: int| 0 <= k < 22 ==> (#[trigger] defaults@[k])@ == fixed_fields()[k].1,
                forall|k: int| 0 <= k < 22 ==> (#[trigger] labels@[k])@ == fixed_texts()[k].0,
                forall|k: int| 0 <= k < 22 ==> (#[trigger] descs@[k])@ == fixed_texts()[k].1,
                cfg == cfg_view(self.config),
                fields@.len() == i,
                forall|k: int| 0 <= k < i ==> {
                    &&& field_of(#[trigger] fields@[k], cfg, fixed_fields()[k].0, fixed_fields()[k].1, self.dirty)
                    &&& fields@[k].label@ == fixed_texts()[k].0
                    &&& fields@[k].description@ == fixed_texts()[k].1
                    &&& fixed_type_is(*self, k, fields@[k].field_type)
                },
            decreases 22 - i,
        {
            let ty = self.fixed_type(i);
            let f = self.field(keys[i], labels[i], descs[i], ty, defaults[i]);
            fields.push(f);
            i = i + 1;
        }
        let names = self.playlist_names();
        let ghost nv = names@.map_values(|x: String| x@);
        let mut j: usize = 0;
        while j < names.len()
            invariant
                j <= names@.len(),
                nv == names@.map_values(|x: String| x@),
                cfg == cfg_view(self.config),
                fields@.len() == 22 + 2 * j,
                forall|k: int| 0 <= k < 22 ==> {
                    &&& field_of(#[trigger] fields@[k], cfg, fixed_fields()[k].0, fixed_fields()[k].1, self.dirty)
                    &&& fields@[k].label@ == fixed_texts()[k].0
                    &&& fields@[k].description@ == fixed_texts()[k].1
                    &&& fixed_type_is(*self, k, fields@[k].field_type)
                },
                forall|m: int| 0 <= m < j ==> playlist_rows(#[trigger] fields@[22 + 2 * m], fields@[22 + 2 * m + 1], cfg, nv[m], self.dirty),
            decreases names@.len() - j,
        {
            let name = names[j].as_str();
            let mut k1 = "playlists.".to_string();
            k1.append(name);
            k1.append(".shaders");
            let mut l1 = name.to_string();
            l1.append(" shaders");
            let f1 = self.field(k1.as_str(), l1.as_str(), "Comma-separated ordered shader names.", FieldType::Text, "all");
            let mut k2 = "playlists.".to_string();
            k2.append(name);
            k2.append(".palettes");
            let mut l2 = name.to_string();
            l2.append(" palettes");
            let f2 = self.field(k2.as_str(), l2.as_str(), "Comma-separated ordered palette names.", FieldType::Text, "all");
            fields.push(f1);
            fields.push(f2);
            j = j + 1;
        }
        proof {
            assert(nv.len() * 2 == fields@.len() - 22);
        }
        fields
    }

    /// Whether HyprSaver is there: installed, or its configuration exists.
    pub fn available(&self, config_exists: bool) -> (r: bool)
        ensures
            r == (self.installed || config_exists),
    {
        self.installed || config_exists
    }

    /// Whether settings were changed since loading or saving.
    pub fn has_unsaved_changes(&self) -> (r: bool)
        ensures
            r == self.dirty,
    {
        self.dirty
    }

    /// Sets the setting `key` to the edited text `value`, typed as
    /// `parse_field_value` types it, and gives back the value shown before
    /// (empty when there was none).  `_preview` asks for the preview window
    /// and changes nothing; other keys starting with `_` are unknown.
    pub fn set_value(&mut self, key: &str, value: &str, float_text: Option<String>) -> (r: Result<String, PanelError>)
        ensures
            ({
                let cfg = cfg_view(old(self).config);
                let old_shown = match shown_value(cfg, key@) {
                    Some(v) => v,
                    None => Seq::<char>::empty(),
                };
                if key@ == "_preview"@ {
                    r matches Ok(s) && s@.len() == 0 && *final(self) == *old(self)
                } else if key@.len() > 0 && key@[0] == '_' {
                    (r matches Err(PanelError::UnknownKey(k)) && k@ == key@) && *final(self) == *old(self)
                } else {
                    match spec_field_value(key@, value@, match float_text { Some(t) => Some(t@), None => None }) {
                        Err(reason) => (r matches Err(PanelError::InvalidValue { key: k, reason: m }) && k@ == key@
                            && m@ == reason) && *final(self) == *old(self),
                        Ok(v) => match cfg {
                            None => (r matches Err(PanelError::Config(m)) && m@ == "HyprSaver configuration is unavailable"@)
                                && *final(self) == *old(self),
                            Some(t) => {
                                let (t2, fault) = spec_set_path(t, split_on(key@, '.'), v, false);
                                &&& cfg_view(final(self).config) == Some(t2)
                                &&& match fault {
                                    None => (r matches Ok(o) && o@ == old_shown) && final(self).dirty,
                                    Some(PathFault::NotTable(part)) => (r matches Err(PanelError::Config(m))
                                        && m@ == "`"@ + part + "` must be a table"@) && final(self).dirty == old(self).dirty,
                                    Some(_) => (r matches Err(PanelError::UnknownKey(k)) && k@ == key@)
                                        && final(self).dirty == old(self).dirty,
                                }
                            },
                        },
                    }
                }
            }),
            final(self).installed == old(self).installed,
    {
        proof {
            reveal_strlit("_preview");
        }
        if str_eq(key, "_preview") {
            return Ok(String::new());
        }
        let n = key.unicode_len();
        if n > 0 && key.get_char(0) == '_' {
            assert(key@ != "_preview"@);
            return Err(PanelError::UnknownKey(key.to_string()));
        }
        let old = match self.value(key) {
            Some(v) => display_value(v),
            None => String::new(),
        };
        let parsed = match parse_field_value(key, value, float_text) {
            Ok(v) => v,
            Err(e) => {
                return Err(e);
            },
        };
        match &mut self.config {
            None => Err(PanelError::Config("HyprSaver configuration is unavailable".to_string())),
            Some(t) => {
                let fault = set_path(t, key, parsed, false);
                match fault {
                    None => {
                        self.dirty = true;
                        Ok(old)
                    },
                    Some(SetFault::NotTable(part)) => {
                        let mut m = "`".to_string();
                        m.append(part.as_str());
                        m.append("` must be a table");
                        Err(PanelError::Config(m))
                    },
                    Some(_) => Err(PanelError::UnknownKey(key.to_string())),
                }
            },
        }
    }
}

/// The error a failed path walk reports for `key`.
pub fn fault_error(f: SetFault, key: &str) -> (e: PanelError)
    ensures
        match f {
            SetFault::NotTable(part) => e matches PanelError::Config(m) && m@ == "`"@ + part@ + "` must be a table"@,
            _ => e matches PanelError::UnknownKey(k) && k@ == key@,
        },
{
    match f {
        SetFault::NotTable(part) => {
            let mut m = "`".to_string();
            m.append(part.as_str());
            m.append("` must be a table");
            PanelError::Config(m)
        },
        _ => PanelError::UnknownKey(key.to_string()),
    }
}

// ---------------------------------------------------------------------------
// The HyprCube override collection
// ---------------------------------------------------------------------------

/// Each override key and the native key it is copied to, in order.
pub open spec fn override_pairs() -> Seq<(Seq<char>, Seq<char>)> {
    seq![
        ("hyprcube_override.palette"@, "general.palette"@),
        ("hyprcube_override.shader_playlist"@, "general.shader_playlist"@),
        ("hyprcube_override.palette_playlist"@, "general.palette_playlist"@),
    ]
}

/// The override chosen at `okey`: a non-empty string other than `inherit`.
pub open spec fn override_value(t: Seq<(Seq<char>, TomlView)>, okey: Seq<char>) -> Option<Seq<char>> {
    match spec_get_path(t, split_on(okey, '.')) {
        Some(TomlView::Str(s)) => if s.len() > 0 && s != "inherit"@ {
            Some(s)
        } else {
            None
        },
        _ => None,
    }
}

/// Whether the override collection is switched on.
pub open spec fn override_enabled(t: Seq<(Seq<char>, TomlView)>) -> bool {
    spec_get_path(t, split_on("hyprcube_override.enabled"@, '.')) == Some(TomlView::Bool(true))
}

/// Copying the overrides from pair `k` on, in order: the table afterwards,
/// and the fault that stopped the copying, if any.
pub open spec fn apply_overrides_from(t: Seq<(Seq<char>, TomlView)>, k: int) -> (Seq<(Seq<char>, TomlView)>, Option<PathFault>)
    decreases 3 - k,
{
    if k < 0 || k >= 3 {
        (t, None)
    } else {
        match override_value(t, override_pairs()[k].0) {
            Some(s) => {
                let (t2, f) = spec_set_path(t, split_on(override_pairs()[k].1, '.'), TomlView::Str(s), false);
                if f is Some {
                    (t2, f)
                } else {
                    apply_overrides_from(t2, k + 1)
                }
            },
            None => apply_overrides_from(t, k + 1),
        }
    }
}

impl HyprsaverPanel {
    /// With the override collection switched on, copies each chosen
    /// override to its native `general` key.
    pub fn apply_override(&mut self) -> (r: Result<(), PanelError>)
        ensures
            final(self).dirty == old(self).dirty,
            final(self).installed == old(self).installed,
            match cfg_view(old(self).config) {
                Some(t) => if override_enabled(t) {
                    let (t2, f) = apply_overrides_from(t, 0);
                    &&& cfg_view(final(self).config) == Some(t2)
                    &&& (r is Ok <==> f is None)
                } else {
                    r is Ok && cfg_view(final(self).config) == cfg_view(old(self).config)
                },
                None => r is Ok && cfg_view(final(self).config) == cfg_view(old(self).config),
            },
    {
        let enabled = match self.value("hyprcube_override.enabled") {
            Some(TomlValue::Boolean(b)) => *b,
            _ => false,
        };
        if !enabled {
            assert(!override_enabled(cfg_view(self.config)->0) || self.config is None);
            return Ok(());
        }
        let okeys = vec!["hyprcube_override.palette", "hyprcube_override.shader_playlist", "hyprcube_override.palette_playlist"];
        let gkeys = vec!["general.palette", "general.shader_playlist", "general.palette_playlist"];
        let mut k: usize = 0;
        let ghost t0 = cfg_view(self.config)->0;
        while k < 3
            invariant
                k <= 3,
                okeys@.len() == 3 && gkeys@.len() == 3,
                forall|i: int| 0 <= i < 3 ==> (#[trigger] okeys@[i])@ == override_pairs()[i].0,
                forall|i: int| 0 <= i < 3 ==> (#[trigger] gkeys@[i])@ == override_pairs()[i].1,
                self.config is Some,
                cfg_view(old(self).config) == Some(t0),
                override_enabled(t0),
                self.dirty == old(self).dirty,
                self.installed == old(self).installed,
                apply_overrides_from(t0, 0) == apply_overrides_from(cfg_view(self.config)->0, k as int),
            decreases 3 - k,
        {
            let chosen = match self.value(okeys[k]) {
                Some(TomlValue::String(s)) => {
                    if s.as_str().unicode_len() > 0 && !str_eq(s.as_str(), "inherit") {
                        Some(s.clone())
                    } else {
                        None
                    }
                },
                _ => None,
            };
            match chosen {
                Some(s) => {
                    let f = match &mut self.config {
                        Some(t) => set_path(t, gkeys[k], TomlValue::String(s), false),
                        None => None,
                    };
                    match f {
                        Some(fault) => {
                            assert(apply_overrides_from(t0, 0).1 is Some);
                            assert(cfg_view(self.config) == Some(apply_overrides_from(t0, 0).0));
                            return Err(fault_error(fault, gkeys[k]));
                        },
                        None => {},
                    }
                },
                None => {},
            }
            k = k + 1;
        }
        assert(apply_overrides_from(t0, 0) == (cfg_view(self.config)->0, None::<PathFault>));
        Ok(())
    }
}

// ---------------------------------------------------------------------------
// What HyprSaver lists
// ---------------------------------------------------------------------------


pub open spec fn has_value(items: Seq<(Seq<char>, Seq<char>)>, name: Seq<char>) -> bool {
    exists|i: int| 0 <= i < items.len() && #[trigger] items[i].0 == name
}

/// The item a line of `--list-shaders` or `--list-palettes` output names:
/// lines indented by two spaces, not starting with `(`, give their first
/// word and the whole trimmed line.
pub open spec fn listed_item(line: Seq<char>) -> Option<(Seq<char>, Seq<char>)> {
    if !starts_with(line, "  "@) || starts_with(trim_start(line), "("@) {
        None
    } else if words(trim(line)).len() == 0 {
        None
    } else {
        Some((words(trim(line))[0], trim(line)))
    }
}

/// Adds each listed item whose name is not yet there, in order.
pub open spec fn add_listed(items: Seq<(Seq<char>, Seq<char>)>, ls: Seq<Seq<char>>) -> Seq<(Seq<char>, Seq<char>)>
    decreases ls.len(),
{
    if ls.len() == 0 {
        items
    } else {
        let prev = add_listed(items, ls.drop_last());
        match listed_item(ls.last()) {
            Some((name, label)) => if has_value(prev, name) {
                prev
            } else {
                prev.push((name, label))
            },
            None => prev,
        }
    }
}

fn find_value(items: &Vec<(String, String)>, name: &str) -> (r: bool)
    ensures
        r == has_value(pairs_view(items@), name@),
{
    let mut i: usize = 0;
    while i < items.len()
        invariant
            i <= items@.len(),
            forall|j: int| 0 <= j < i ==> pairs_view(items@)[j].0 != name@,
        decreases items@.len() - i,
    {
        if str_eq(items[i].0.as_str(), name) {
            assert(pairs_view(items@)[i as int].0 == name@);
            return true;
        }
        i = i + 1;
    }
    false
}

/// The items HyprSaver lists: `special` first, then each named item of its
/// output once.
pub fn named_items(special: &Vec<&'static str>, stdout: &[u8]) -> (r: Vec<(String, String)>)
    ensures
        pairs_view(r@) == add_listed(special@.map_values(|s: &'static str| (s@, s@)), lines(utf8_lossy(stdout@))),
{
    let text = lossy_text(stdout);
    let stdout = text.as_str();
    let mut items = choices(special);
    let ghost base = special@.map_values(|s: &'static str| (s@, s@));
    assert(pairs_view(items@) =~= base);
    let ls = lines_of(stdout);
    let ghost gl = lines(stdout@);
    let mut i: usize = 0;
    assert(gl.take(0) =~= Seq::<Seq<char>>::empty());
    while i < ls.len()
        invariant
            ls@.len() == gl.len(),
            gl == lines(stdout@),
            forall|j: int| 0 <= j < ls@.len() ==> (#[trigger] ls@[j])@ == gl[j],
            i <= ls@.len(),
            pairs_view(items@) == add_listed(base, gl.take(i as int)),
        decreases ls@.len() - i,
    {
        proof {
            assert(gl.take(i + 1).drop_last() =~= gl.take(i as int));
            assert(gl.take(i + 1).last() == gl[i as int]);
        }
        let line = ls[i].as_str();
        let t = trim_string(line);
        let ts = crate::text::trim_start_string(line);
        if str_starts_with(line, "  ") && !str_starts_with(ts.as_str(), "(") {
            let ws = words_of(t.as_str());
            if ws.len() > 0 {
                if !find_value(&items, ws[0].as_str()) {
                    let ghost before = items@;
                    items.push((ws[0].clone(), t.clone()));
                    assert(pairs_view(items@) =~= pairs_view(before).push((ws@[0]@, t@)));
                }
            }
        }
        i = i + 1;
    }
    assert(gl.take(ls@.len() as int) =~= gl);
    items
}

/// The playlist a line of `--list-*-playlists` output names: a trimmed
/// `name: values` line whose name is non-empty and has no space.
pub open spec fn listed_playlist(line: Seq<char>) -> Option<(Seq<char>, Seq<char>)> {
    match split_once_spec(trim(line), ':') {
        Some((name, values)) => if name.len() == 0 || contains_seq(name, " "@) {
            None
        } else {
            Some((name, name + ": "@ + values))
        },
        None => None,
    }
}

pub open spec fn add_playlists(items: Seq<(Seq<char>, Seq<char>)>, ls: Seq<Seq<char>>) -> Seq<(Seq<char>, Seq<char>)>
    decreases ls.len(),
{
    if ls.len() == 0 {
        items
    } else {
        let prev = add_playlists(items, ls.drop_last());
        match listed_playlist(ls.last()) {
            Some((name, label)) => if has_value(prev, name) {
                prev
            } else {
                prev.push((name, label))
            },
            None => prev,
        }
    }
}

/// The playlists HyprSaver lists: `default` first, then each named
/// playlist of its output once.
pub fn playlist_items(stdout: &[u8]) -> (r: Vec<(String, String)>)
    ensures
        pairs_view(r@) == add_playlists(seq![("default"@, "default"@)], lines(utf8_lossy(stdout@))),
{
    let text = lossy_text(stdout);
    let stdout = text.as_str();
    let mut items = vec![("default".to_string(), "default".to_string())];
    assert(pairs_view(items@) =~= seq![("default"@, "default"@)]);
    let ls = lines_of(stdout);
    let ghost gl = lines(stdout@);
    let mut i: usize = 0;
    assert(gl.take(0) =~= Seq::<Seq<char>>::empty());
    while i < ls.len()
        invariant
            ls@.len() == gl.len(),
            gl == lines(stdout@),
            forall|j: int| 0 <= j < ls@.len() ==> (#[trigger] ls@[j])@ == gl[j],
            i <= ls@.len(),
            pairs_view(items@) == add_playlists(seq![("default"@, "default"@)], gl.take(i as int)),
        decreases ls@.len() - i,
    {
        proof {
            assert(gl.take(i + 1).drop_last() =~= gl.take(i as int));
            assert(gl.take(i + 1).last() == gl[i as int]);
        }
        let t = trim_string(ls[i].as_str());
        match split_once(t.as_str(), ':') {
            Some((name, values)) => {
                if name.as_str().unicode_len() > 0 && !str_contains(name.as_str(), " ") {
                    if !find_value(&items, name.as_str()) {
                        let mut label = name.clone();
                        label.append(": ");
                        label.append(values.as_str());
                        let ghost before = items@;
                        let ghost nv = name@;
                        let ghost lv = label@;
                        items.push((name, label));
                        assert(pairs_view(items@) =~= pairs_view(before).push((nv, lv)));
                    }
                }
            },
            None => {},
        }
        i = i + 1;
    }
    assert(gl.take(ls@.len() as int) =~= gl);
    items
}

// ---------------------------------------------------------------------------
// The theme wallpaper override
// ---------------------------------------------------------------------------

pub open spec fn theme_source() -> Seq<char> {
    "source = ~/.config/hypr/hyprpaper-hyprcube-theme.conf"@
}

pub open spec fn theme_marker() -> Seq<char> {
    "# Active HyprCube theme wallpaper override"@
}

/// The lines of the user's `hyprpaper.conf` other than the theme override's
/// own two lines.
pub open spec fn kept_lines(ls: Seq<Seq<char>>) -> Seq<Seq<char>>
    decreases ls.len(),
{
    if ls.len() == 0 {
        seq![]
    } else if trim(ls.last()) == theme_source() || trim(ls.last()) == theme_marker() {
        kept_lines(ls.drop_last())
    } else {
        kept_lines(ls.drop_last()).push(ls.last())
    }
}

pub open spec fn theme_block(monitor: Option<Seq<char>>, wallpaper: Seq<char>) -> Seq<char> {
    "\nwallpaper {\n    monitor ="@ + match monitor {
        Some(m) => " "@ + m,
        None => seq![],
    } + "\n    path = "@ + wallpaper + "\n    fit_mode = cover\n}\n"@
}

pub open spec fn theme_blocks(monitors: Seq<Seq<char>>, wallpaper: Seq<char>) -> Seq<char>
    decreases monitors.len(),
{
    if monitors.len() == 0 {
        seq![]
    } else {
        theme_blocks(monitors.drop_last(), wallpaper) + theme_block(Some(monitors.last()), wallpaper)
    }
}

/// The files to write and the live assignments to make for the theme
/// wallpaper override.
pub struct ThemePlan {
    /// The new text of the user's `hyprpaper.conf`, when it changes.
    pub root: Option<String>,
    /// The text of the theme override file.
    pub theme: String,
    /// The `monitor, path, cover` assignments to apply live.
    pub assignments: Vec<String>,
}

pub open spec fn spec_theme_plan(wallpaper: Option<Seq<char>>, root: Seq<char>, monitors: Seq<Seq<char>>) -> (
    Option<Seq<char>>,
    Seq<char>,
    Seq<Seq<char>>,
) {
    let kept = kept_lines(lines(root));
    match wallpaper {
        Some(w) => (
            Some(join_with(kept + seq![theme_marker(), theme_source()], "\n"@) + "\n"@),
            "# HyprCube theme wallpaper override\n"@ + if monitors.len() == 0 {
                theme_block(None, w)
            } else {
                theme_blocks(monitors, w)
            },
            monitors.map_values(|m: Seq<char>| m + ", "@ + w + ", cover"@),
        ),
        None => (
            if lines(root).len() != kept.len() {
                Some(join_with(kept, "\n"@) + "\n"@)
            } else {
                None
            },
            "# HyprCube theme wallpaper override disabled\n"@,
            seq![],
        ),
    }
}

fn push_theme_block(buf: &mut String, monitor: Option<&str>, wallpaper: &str)
    ensures
        final(buf)@ == old(buf)@ + theme_block(match monitor { Some(m) => Some(m@), None => None }, wallpaper@),
{
    buf.append("\nwallpaper {\n    monitor =");
    match monitor {
        Some(m) => {
            buf.append(" ");
            buf.append(m);
        },
        None => {},
    }
    buf.append("\n    path = ");
    buf.append(wallpaper);
    buf.append("\n    fit_mode = cover\n}\n");
}

/// Plans the theme wallpaper override: with a wallpaper (`Some`), a theme
/// file assigning it to every monitor (or to any monitor when none is
/// connected), the user's file sourcing it, and the live assignments;
/// without one, a disabled theme file and the user's file without the
/// override's lines.
pub fn theme_wallpaper_plan(wallpaper: Option<&str>, root: &str, monitors: &Vec<String>) -> (r: ThemePlan)
    ensures
        ({
            let (root2, theme, asg) = spec_theme_plan(
                match wallpaper { Some(w) => Some(w@), None => None },
                root@,
                monitors@.map_values(|m: String| m@),
            );
            &&& match (r.root, root2) {
                (Some(a), Some(b)) => a@ == b,
                (None, None) => true,
                _ => false,
            }
            &&& r.theme@ == theme
            &&& r.assignments@.map_values(|a: String| a@) == asg
        }),
{
    proof {
        reveal_strlit("\n");
        assert("\n"@ =~= seq!['\n']);
    }
    let ls = lines_of(root);
    let ghost gl = lines(root@);
    let mut kept: Vec<String> = Vec::new();
    let mut i: usize = 0;
    assert(gl.take(0) =~= Seq::<Seq<char>>::empty());
    assert(kept@.map_values(|x: String| x@) =~= Seq::<Seq<char>>::empty());
    while i < ls.len()
        invariant
            ls@.len() == gl.len(),
            gl == lines(root@),
            forall|j: int| 0 <= j < ls@.len() ==> (#[trigger] ls@[j])@ == gl[j],
            i <= ls@.len(),
            kept@.map_values(|x: String| x@) == kept_lines(gl.take(i as int)),
        decreases ls@.len() - i,
    {
        proof {
            assert(gl.take(i + 1).drop_last() =~= gl.take(i as int));
            assert(gl.take(i + 1).last() == gl[i as int]);
        }
        let t = trim_string(ls[i].as_str());
        if !str_eq(t.as_str(), "source = ~/.config/hypr/hyprpaper-hyprcube-theme.conf")
            && !str_eq(t.as_str(), "# Active HyprCube theme wallpaper override") {
            let ghost before = kept@;
            kept.push(ls[i].clone());
            assert(kept@.map_values(|x: String| x@) =~= before.map_values(|x: String| x@).push(gl[i as int]));
        }
        i = i + 1;
    }
    assert(gl.take(ls@.len() as int) =~= gl);
    let ghost kv = kept@.map_values(|x: String| x@);
    match wallpaper {
        Some(w) => {
            let mut theme = "# HyprCube theme wallpaper override\n".to_string();
            let ghost mv = monitors@.map_values(|m: String| m@);
            let mut asg: Vec<String> = Vec::new();
            if monitors.len() == 0 {
                push_theme_block(&mut theme, None, w);
            } else {
                let ghost head = theme@;
                let mut k: usize = 0;
                assert(mv.take(0) =~= Seq::<Seq<char>>::empty());
                while k < monitors.len()
                    invariant
                        k <= monitors@.len(),
                        mv == monitors@.map_values(|m: String| m@),
                        theme@ == head + theme_blocks(mv.take(k as int), w@),
                        asg@.map_values(|a: String| a@) == mv.take(k as int).map_values(|m: Seq<char>| m + ", "@ + w@ + ", cover"@),
                    decreases monitors@.len() - k,
                {
                    proof {
                        assert(mv.take(k + 1).drop_last() =~= mv.take(k as int));
                        assert(mv.take(k + 1).last() == monitors@[k as int]@);
                    }
                    push_theme_block(&mut theme, Some(monitors[k].as_str()), w);
                    let mut a = monitors[k].clone();
                    a.append(", ");
                    a.append(w);
                    a.append(", cover");
                    assert(a@ == mv[k as int] + ", "@ + w@ + ", cover"@);
                    let ghost before = asg@;
                    asg.push(a);
                    assert(asg@.map_values(|a: String| a@) =~= before.map_values(|a: String| a@).push(mv[k as int] + ", "@ + w@ + ", cover"@));
                    assert(asg@.map_values(|a: String| a@) =~= mv.take(k + 1).map_values(|m: Seq<char>| m + ", "@ + w@ + ", cover"@));
                    k = k + 1;
                }
                assert(mv.take(monitors@.len() as int) =~= mv);
            }
            let mut all = kept;
            all.push("# Active HyprCube theme wallpaper override".to_string());
            all.push("source = ~/.config/hypr/hyprpaper-hyprcube-theme.conf".to_string());
            assert(all@.map_values(|x: String| x@) =~= kv + seq![theme_marker(), theme_source()]);
            let mut new_root = crate::text::join_strings(&all, "\n");
            push_char(&mut new_root, '\n');
            assert(asg@.map_values(|a: String| a@) =~= monitors@.map_values(|m: String| m@).map_values(|m: Seq<char>| m + ", "@ + w@ + ", cover"@));
            if monitors.len() == 0 {
                assert(asg@.map_values(|a: String| a@) =~= Seq::<Seq<char>>::empty());
                assert(monitors@.map_values(|m: String| m@).map_values(|m: Seq<char>| m + ", "@ + w@ + ", cover"@) =~= Seq::<Seq<char>>::empty());
            }
            ThemePlan { root: Some(new_root), theme, assignments: asg }
        },
        None => {
            let root2 = if ls.len() != kept.len() {
                let mut r = crate::text::join_strings(&kept, "\n");
                push_char(&mut r, '\n');
                Some(r)
            } else {
                None
            };
            let asg: Vec<String> = Vec::new();
            assert(asg@.map_values(|a: String| a@) =~= Seq::<Seq<char>>::empty());
            ThemePlan {
                root: root2,
                theme: "# HyprCube theme wallpaper override disabled\n".to_string(),
                assignments: asg,
            }
        },
    }
}

impl HyprsaverPanel {
    /// The override wallpaper when the collection is switched on: a string
    /// at `hyprcube_override.wallpaper` that is not blank.
    pub fn override_wallpaper(&self) -> (r: Option<String>)
        ensures
            match cfg_view(self.config) {
                Some(t) => if override_enabled(t) {
                    match spec_get_path(t, split_on("hyprcube_override.wallpaper"@, '.')) {
                        Some(TomlView::Str(w)) if trim(w).len() > 0 => r matches Some(x) && x@ == w,
                        _ => r is None,
                    }
                } else {
                    r is None
                },
                None => r is None,
            },
    {
        let enabled = match self.value("hyprcube_override.enabled") {
            Some(TomlValue::Boolean(b)) => *b,
            _ => false,
        };
        if !enabled {
            return None;
        }
        match self.value("hyprcube_override.wallpaper") {
            Some(TomlValue::String(w)) => {
                if trim_string(w.as_str()).as_str().unicode_len() > 0 {
                    Some(w.clone())
                } else {
                    None
                }
            },
            _ => None,
        }
    }
}

impl HyprsaverPanel {
    /// Shown after a save.
    pub fn save_notice(&self) -> (r: &'static str)
        ensures
            r@ == "HyprSaver settings saved. Open the live preview to inspect them."@,
    {
        "HyprSaver settings saved. Open the live preview to inspect them."
    }
}

} // verus!
