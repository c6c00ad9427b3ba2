//! The settings-panel contract and the Hyprland-backed panels: which keys a
//! panel owns and how a change reaches the shared `hyprland.conf` model.
use vstd::prelude::*;

use crate::color::{
    hex_parse_is_safe, hex_parse_safe, hex_text, rgba_text, spec_from_hex, spec_from_rgba,
    HexColor,
};
use crate::display::strings_view;
use crate::hyprconf::{
    lookup_in_section, lookup_nested, path_view, spec_set_in_section, spec_set_nested,
    HyprlandConfig, ItemView,
};
use crate::hyprconf_laws::{law_get_in_section_after_set, law_set_in_section_keeps_other_sections};
use crate::text::str_eq;

verus! {

broadcast use {vstd::seq::group_seq_axioms, vstd::string::group_string_axioms};

#[verifier::external_type_specification]
#[verifier::external_body]
pub struct ExIoError(std::io::Error);

#[derive(Debug)]
pub enum PanelError {
    UnknownKey(String),
    InvalidValue { key: String, reason: String },
    Config(String),
    Io(std::io::Error),
}

/// A panel-local operation changed configuration files outside the ordinary
/// Save/Revert pipeline and the application must reload its shared state.
#[derive(Debug, Clone, PartialEq, Eq)]
pub struct ExternalConfigChange {
    pub message: String,
    pub reload_hyprland: bool,
}

/// The type of a configurable field, used to select the appropriate widget.
#[derive(Debug, Clone)]
#[allow(inconsistent_fields)]
pub enum FieldType {
    Text,
    /// A momentary action button; its label is rendered inside the control.
    Action { label: String },
    Integer { min: Option<i64>, max: Option<i64> },
    /// A number with optional bounds, each held as its decimal text.
    Float { min: Option<String>, max: Option<String> },
    Boolean,
    Choice { options: Vec<String> },
    /// Like `Choice` but searchable; each entry is `(value, display_label)`.
    SearchableChoice { options: Vec<(String, String)> },
    Color,
    KeyBind,
}

/// Runtime description of a single configurable field within a panel.
#[derive(Debug, Clone)]
pub struct PanelField {
    pub key: String,
    /// Hyprland config section for IPC keyword routing, e.g. `"general"` or
    /// `"input:touchpad"`.  `None` for fields that don't map to Hyprland IPC.
    pub section: Option<String>,
    pub label: String,
    pub description: String,
    pub field_type: FieldType,
    pub current_value: String,
    /// The value that was in the config when the panel loaded; `None` when
    /// the key did not exist there.
    pub original_value: Option<String>,
    /// Whether the user changed this field's value.
    pub dirty: bool,
}

/// What a color field shows for the raw config value `raw`: the `#rrggbb[aa]`
/// form of an `rgba(..)` or hex value, or `raw` unchanged.
pub open spec fn spec_normalize_to_hex(raw: Seq<char>) -> Seq<char> {
    match spec_from_rgba(raw) {
        Some(c) => hex_text(c),
        None => match spec_from_hex(raw) {
            Some(c) => hex_text(c),
            None => raw,
        },
    }
}

/// What is stored for a color key given the picker's `hex`: the `rgba(..)`
/// form of a hex or `rgba(..)` value, or `hex` unchanged.
pub open spec fn spec_hex_to_rgba(hex: Seq<char>) -> Seq<char> {
    match spec_from_hex(hex) {
        Some(c) => rgba_text(c),
        None => match spec_from_rgba(hex) {
            Some(c) => rgba_text(c),
            None => hex,
        },
    }
}

/// `raw` can be normalized without a panic.
pub open spec fn normalize_safe(raw: Seq<char>) -> bool {
    spec_from_rgba(raw) is None ==> hex_parse_safe(raw)
}

/// Normalize a raw config value for a Color field to a hex string the picker
/// can parse.  Handles both `rgba(rrggbbaa)` and `#rrggbb`/`#rrggbbaa`.
pub fn normalize_to_hex(raw: &str) -> (s: String)
    requires
        normalize_safe(raw@),
    ensures
        s@ == spec_normalize_to_hex(raw@),
{
    match HexColor::from_hypr_rgba(raw) {
        Some(c) => c.to_hex(),
        None => match HexColor::from_hex(raw) {
            Ok(c) => c.to_hex(),
            Err(_) => raw.to_string(),
        },
    }
}

/// Convert a hex color string back to `rgba()` format for keys that require
/// it.
pub fn hex_to_rgba(hex: &str) -> (s: String)
    requires
        hex_parse_safe(hex@),
    ensures
        s@ == spec_hex_to_rgba(hex@),
{
    match HexColor::from_hex(hex) {
        Ok(c) => c.to_hypr_rgba(),
        Err(_) => match HexColor::from_hypr_rgba(hex) {
            Some(c) => c.to_hypr_rgba(),
            None => hex.to_string(),
        },
    }
}

pub open spec fn unwrap_or_empty(o: Option<Seq<char>>) -> Seq<char> {
    match o {
        Some(v) => v,
        None => seq![],
    }
}

fn str_or_empty(o: Option<&str>) -> (s: String)
    ensures
        s@ == match o {
            Some(v) => v@,
            None => Seq::<char>::empty(),
        },
{
    match o {
        Some(v) => v.to_string(),
        None => String::new(),
    }
}

/// Whether `raw` can be normalized without a panic.
pub fn normalize_is_safe(raw: &str) -> (r: bool)
    ensures
        r == normalize_safe(raw@),
{
    match HexColor::from_hypr_rgba(raw) {
        Some(_) => true,
        None => hex_parse_is_safe(raw),
    }
}

/// `f` shows the fixed row `row` (key, label, description) of the config
/// section `section`, whose configured value is `raw`; a color row shows
/// its value in `#rrggbb[aa]` form.
pub open spec fn shows_row(
    f: PanelField,
    section: Seq<char>,
    row: (Seq<char>, Seq<char>, Seq<char>),
    raw: Option<Seq<char>>,
    color: bool,
) -> bool {
    &&& f.key@ == row.0
    &&& f.section matches Some(s) && s@ == section
    &&& f.label@ == row.1
    &&& f.description@ == row.2
    &&& !f.dirty
    &&& if color {
        &&& f.current_value@ == spec_normalize_to_hex(unwrap_or_empty(raw))
        &&& match raw {
            Some(v) => f.original_value matches Some(o) && o@ == spec_normalize_to_hex(v),
            None => f.original_value is None,
        }
    } else {
        &&& f.current_value@ == unwrap_or_empty(raw)
        &&& match raw {
            Some(v) => f.original_value matches Some(o) && o@ == v,
            None => f.original_value is None,
        }
    }
}

/// A field for the fixed row (`key`, `label`, `description`) of `section`
/// showing the configured value `raw`.
fn row_field(
    section: &str,
    key: &str,
    label: &str,
    description: &str,
    field_type: FieldType,
    raw: Option<&str>,
    color: bool,
) -> (f: PanelField)
    requires
        color ==> normalize_safe(unwrap_or_empty(opt_view(raw))),
    ensures
        shows_row(f, section@, (key@, label@, description@), opt_view(raw), color),
        f.field_type == field_type,
{
    let original = match raw {
        Some(v) => if color {
            Some(normalize_to_hex(v))
        } else {
            Some(v.to_string())
        },
        None => None,
    };
    let current = match raw {
        Some(v) => if color {
            normalize_to_hex(v)
        } else {
            v.to_string()
        },
        None => if color {
            proof {
                reveal_strlit("");
                assert(""@ =~= unwrap_or_empty(opt_view(raw)));
            }
            normalize_to_hex("")
        } else {
            String::new()
        },
    };
    PanelField {
        key: key.to_string(),
        section: Some(section.to_string()),
        label: label.to_string(),
        description: description.to_string(),
        field_type,
        current_value: current,
        original_value: original,
        dirty: false,
    }
}

pub open spec fn opt_view(o: Option<&str>) -> Option<Seq<char>> {
    match o {
        Some(v) => Some(v@),
        None => None,
    }
}

// ---------------------------------------------------------------------------
// Hyprland panel
// ---------------------------------------------------------------------------

/// Keys of the `general` section whose values are stored as typed.
pub open spec fn is_general_plain_key(key: Seq<char>) -> bool {
    key == "gaps_in"@ || key == "gaps_out"@ || key == "border_size"@ || key == "layout"@ || key
        == "resize_on_border"@
}

/// Keys of the `general` section that hold colors in `rgba()` form.
pub open spec fn is_general_color_key(key: Seq<char>) -> bool {
    key == "col.active_border"@ || key == "col.inactive_border"@
}

pub open spec fn general() -> Seq<char> {
    "general"@
}

/// The value of `key` in the first `general` section holding it, or empty.
pub open spec fn general_value(cfg: Seq<crate::hyprconf::ItemView>, key: Seq<char>) -> Seq<char> {
    unwrap_or_empty(lookup_in_section(cfg, general(), key))
}

/// A color change to `key` can be applied without a panic.
pub open spec fn hyprland_color_change_safe(
    cfg: Seq<crate::hyprconf::ItemView>,
    key: Seq<char>,
    value: Seq<char>,
) -> bool {
    is_general_color_key(key) ==> hex_parse_safe(value) && normalize_safe(general_value(cfg, key))
}

/// Sets `key` in the `general` section, returning the value it had there.
fn general_set(cfg: &mut HyprlandConfig, key: &str, value: &str) -> (old_value: String)
    ensures
        old_value@ == general_value(old(cfg)@, key@),
        final(cfg)@ == spec_set_in_section(old(cfg)@, general(), key@, value@),
{
    let old_value = str_or_empty(cfg.get_in_section("general", key));
    cfg.set_in_section("general", key, value);
    old_value
}

/// Apply a change to one of the Hyprland panel's keys in `cfg`; returns the
/// previous value for undo.
pub fn hyprland_set_value(cfg: &mut HyprlandConfig, key: &str, value: &str) -> (r: Result<
    String,
    PanelError,
>)
    requires
        hyprland_color_change_safe(old(cfg)@, key@, value@),
    ensures
        is_general_plain_key(key@) ==> (r matches Ok(old_value) && old_value@ == general_value(
            old(cfg)@,
            key@,
        ) && final(cfg)@ == spec_set_in_section(old(cfg)@, general(), key@, value@)),
        is_general_color_key(key@) ==> (r matches Ok(old_value) && old_value@
            == spec_normalize_to_hex(general_value(old(cfg)@, key@)) && final(cfg)@
            == spec_set_in_section(old(cfg)@, general(), key@, spec_hex_to_rgba(value@))),
        !is_general_plain_key(key@) && !is_general_color_key(key@) ==> (r matches Err(
            PanelError::UnknownKey(k),
        ) && k@ == key@ && final(cfg)@ == old(cfg)@),
{
    proof {
        reveal_strlit("gaps_in");
        reveal_strlit("gaps_out");
        reveal_strlit("border_size");
        reveal_strlit("layout");
        reveal_strlit("resize_on_border");
        reveal_strlit("col.active_border");
        reveal_strlit("col.inactive_border");
        assert("gaps_in"@.len() == 7);
        assert("gaps_out"@.len() == 8);
        assert("border_size"@.len() == 11);
        assert("layout"@.len() == 6);
        assert("resize_on_border"@.len() == 16);
        assert("col.active_border"@.len() == 17);
        assert("col.inactive_border"@.len() == 19);
    }
    let plain = str_eq(key, "gaps_in") || str_eq(key, "gaps_out") || str_eq(key, "border_size")
        || str_eq(key, "layout") || str_eq(key, "resize_on_border");
    let color = str_eq(key, "col.active_border") || str_eq(key, "col.inactive_border");
    if plain {
        Ok(general_set(cfg, key, value))
    } else if color {
        let config_value = hex_to_rgba(value);
        let raw_old = general_set(cfg, key, config_value.as_str());
        Ok(normalize_to_hex(raw_old.as_str()))
    } else {
        Err(PanelError::UnknownKey(key.to_string()))
    }
}

/// The rows of the Hyprland panel: key, label and description.
pub open spec fn hyprland_rows() -> Seq<(Seq<char>, Seq<char>, Seq<char>)> {
    seq![
        ("gaps_in"@, "Inner Gaps"@, "Gap size between tiled windows (px)."@),
        ("gaps_out"@, "Outer Gaps"@, "Gap size between windows and monitor edges (px)."@),
        ("border_size"@, "Border Size"@, "Window border thickness (px)."@),
        ("col.active_border"@, "Active Border Color"@, "Border color of the focused window."@),
        ("col.inactive_border"@, "Inactive Border Color"@, "Border color of unfocused windows."@),
        ("layout"@, "Layout"@, "Tiling layout algorithm."@),
        ("resize_on_border"@, "Resize on Border"@, "Allow resizing windows by dragging their border."@),
    ]
}

/// The widget of the Hyprland panel's row `i`.
pub open spec fn hyprland_type_is(i: int, t: FieldType) -> bool {
    if i == 0 || i == 1 {
        t matches FieldType::Integer { min, max } && min == Some(0i64) && max == Some(100i64)
    } else if i == 2 {
        t matches FieldType::Integer { min, max } && min == Some(0i64) && max == Some(20i64)
    } else if i == 3 || i == 4 {
        t is Color
    } else if i == 5 {
        t matches FieldType::Choice { options } && strings_view(options@) == seq!["dwindle"@, "master"@]
    } else {
        t is Boolean
    }
}

/// The Hyprland panel can show `cfg` without a panic: its border colors
/// normalize safely.
pub open spec fn hyprland_fields_safe(cfg: Seq<crate::hyprconf::ItemView>) -> bool {
    &&& normalize_safe(general_value(cfg, "col.active_border"@))
    &&& normalize_safe(general_value(cfg, "col.inactive_border"@))
}

/// A field for the `general` row (`key`, `label`, `description`).
fn general_field(
    cfg: &HyprlandConfig,
    key: &str,
    label: &str,
    description: &str,
    t: FieldType,
    color: bool,
) -> (f: PanelField)
    requires
        color ==> normalize_safe(general_value(cfg@, key@)),
    ensures
        shows_row(f, general(), (key@, label@, description@), lookup_in_section(cfg@, general(), key@), color),
        f.field_type == t,
{
    proof {
        reveal_strlit("general");
    }
    row_field("general", key, label, description, t, cfg.get_in_section("general", key), color)
}

/// The Hyprland panel's rows over the `general` section of `cfg`,
/// colors in hex form.
pub fn hyprland_fields(cfg: &HyprlandConfig) -> (r: Vec<PanelField>)
    requires
        hyprland_fields_safe(cfg@),
    ensures
        r@.len() == hyprland_rows().len(),
        forall|i: int|
            0 <= i < r@.len() ==> {
                &&& shows_row(
                    #[trigger] r@[i],
                    general(),
                    hyprland_rows()[i],
                    lookup_in_section(cfg@, general(), hyprland_rows()[i].0),
                    i == 3 || i == 4,
                )
                &&& hyprland_type_is(i, r@[i].field_type)
            },
{
    let f0 = general_field(cfg, "gaps_in", "Inner Gaps", "Gap size between tiled windows (px).", FieldType::Integer { min: Some(0), max: Some(100) }, false);
    let f1 = general_field(cfg, "gaps_out", "Outer Gaps", "Gap size between windows and monitor edges (px).", FieldType::Integer { min: Some(0), max: Some(100) }, false);
    let f2 = general_field(cfg, "border_size", "Border Size", "Window border thickness (px).", FieldType::Integer { min: Some(0), max: Some(20) }, false);
    let f3 = general_field(cfg, "col.active_border", "Active Border Color", "Border color of the focused window.", FieldType::Color, true);
    let f4 = general_field(cfg, "col.inactive_border", "Inactive Border Color", "Border color of unfocused windows.", FieldType::Color, true);
    let layouts = vec!["dwindle".to_string(), "master".to_string()];
    assert(strings_view(layouts@) =~= seq!["dwindle"@, "master"@]);
    let f5 = general_field(cfg, "layout", "Layout", "Tiling layout algorithm.", FieldType::Choice { options: layouts }, false);
    let f6 = general_field(cfg, "resize_on_border", "Resize on Border", "Allow resizing windows by dragging their border.", FieldType::Boolean, false);
    let r = vec![f0, f1, f2, f3, f4, f5, f6];
    assert forall|i: int|
        0 <= i < r@.len() implies {
            &&& shows_row(
                #[trigger] r@[i],
                general(),
                hyprland_rows()[i],
                lookup_in_section(cfg@, general(), hyprland_rows()[i].0),
                i == 3 || i == 4,
            )
            &&& hyprland_type_is(i, r@[i].field_type)
        } by {
        if i == 0 {
            assert(r@[i] == f0);
        } else if i == 1 {
            assert(r@[i] == f1);
        } else if i == 2 {
            assert(r@[i] == f2);
        } else if i == 3 {
            assert(r@[i] == f3);
        } else if i == 4 {
            assert(r@[i] == f4);
        } else if i == 5 {
            assert(r@[i] == f5);
        } else {
            assert(r@[i] == f6);
        }
    }
    r
}

/// Settings panel for core Hyprland general options, over its own copy of
/// the config.
pub struct HyprlandPanel {
    pub config: HyprlandConfig,
}

impl HyprlandPanel {
    /// A panel over the configuration loaded from `hyprland.conf`, or over
    /// an empty configuration when it could not be loaded.
    pub fn new(loaded: Option<HyprlandConfig>) -> (p: Self)
        ensures
            match loaded {
                Some(c) => p.config == c,
                None => p.config.items@.len() == 0,
            },
    {
        match loaded {
            Some(c) => Self::with_arc(c),
            None => Self::with_arc(HyprlandConfig { items: Vec::new() }),
        }
    }

    /// A panel over `config`, which it owns; the two panels edit one
    /// configuration together through `SharedConfigs`.
    pub fn with_arc(config: HyprlandConfig) -> (p: Self)
        ensures
            p.config == config,
    {
        Self { config }
    }

    /// Apply a value change. Returns the old value for undo.
    pub fn set_value(&mut self, key: &str, value: &str) -> (r: Result<String, PanelError>)
        requires
            hyprland_color_change_safe(old(self).config@, key@, value@),
        ensures
            is_general_plain_key(key@) ==> (r matches Ok(old_value) && old_value@ == general_value(
                old(self).config@,
                key@,
            ) && final(self).config@ == spec_set_in_section(
                old(self).config@,
                general(),
                key@,
                value@,
            )),
            is_general_color_key(key@) ==> (r matches Ok(old_value) && old_value@
                == spec_normalize_to_hex(general_value(old(self).config@, key@))
                && final(self).config@ == spec_set_in_section(
                old(self).config@,
                general(),
                key@,
                spec_hex_to_rgba(value@),
            )),
            !is_general_plain_key(key@) && !is_general_color_key(key@) ==> (r matches Err(
                PanelError::UnknownKey(k),
            ) && k@ == key@ && final(self).config@ == old(self).config@),
    {
        hyprland_set_value(&mut self.config, key, value)
    }

    /// Whether `fields` can show the current configuration.
    pub fn can_show(&self) -> (r: bool)
        ensures
            r == hyprland_fields_safe(self.config@),
    {
        normalize_is_safe(str_or_empty(self.config.get_in_section("general", "col.active_border")).as_str())
            && normalize_is_safe(
            str_or_empty(self.config.get_in_section("general", "col.inactive_border")).as_str(),
        )
    }

    /// The panel's rows over the `general` section, colors in hex form.
    pub fn fields(&self) -> (r: Vec<PanelField>)
        requires
            hyprland_fields_safe(self.config@),
        ensures
            r@.len() == hyprland_rows().len(),
            forall|i: int|
                0 <= i < r@.len() ==> {
                    &&& shows_row(
                        #[trigger] r@[i],
                        general(),
                        hyprland_rows()[i],
                        lookup_in_section(self.config@, general(), hyprland_rows()[i].0),
                        i == 3 || i == 4,
                    )
                    &&& hyprland_type_is(i, r@[i].field_type)
                },
    {
        hyprland_fields(&self.config)
    }
}

// ---------------------------------------------------------------------------
// Input panel
// ---------------------------------------------------------------------------

pub open spec fn is_input_key(key: Seq<char>) -> bool {
    key == "kb_layout"@ || key == "follow_mouse"@ || key == "sensitivity"@ || key
        == "accel_profile"@ || key == "scroll_method"@
}

pub open spec fn touchpad_path() -> Seq<Seq<char>> {
    seq!["input"@, "touchpad"@]
}

/// The touchpad option that a panel key stands for.
pub open spec fn touchpad_option(key: Seq<char>) -> Option<Seq<char>> {
    if key == "touchpad.natural_scroll"@ {
        Some("natural_scroll"@)
    } else if key == "touchpad.tap-to-click"@ {
        Some("tap-to-click"@)
    } else {
        None
    }
}

/// Apply a change to one of the Input panel's keys in `cfg`; returns the
/// previous value for undo.
pub fn input_set_value(cfg: &mut HyprlandConfig, key: &str, value: &str) -> (r: Result<
    String,
    PanelError,
>)
    ensures
        is_input_key(key@) ==> (r matches Ok(old_value) && old_value@ == unwrap_or_empty(
            lookup_in_section(old(cfg)@, "input"@, key@),
        ) && final(cfg)@ == spec_set_in_section(old(cfg)@, "input"@, key@, value@)),
        touchpad_option(key@) matches Some(option) ==> (r matches Ok(old_value) && old_value@
            == unwrap_or_empty(lookup_nested(old(cfg)@, touchpad_path(), option)) && final(cfg)@
            == spec_set_nested(old(cfg)@, touchpad_path(), option, value@)),
        !is_input_key(key@) && touchpad_option(key@) is None ==> (r matches Err(
            PanelError::UnknownKey(k),
        ) && k@ == key@ && final(cfg)@ == old(cfg)@),
{
    let path = vec!["input", "touchpad"];
    proof {
        reveal_strlit("kb_layout");
        reveal_strlit("follow_mouse");
        reveal_strlit("sensitivity");
        reveal_strlit("accel_profile");
        reveal_strlit("scroll_method");
        reveal_strlit("touchpad.natural_scroll");
        reveal_strlit("touchpad.tap-to-click");
        assert("kb_layout"@.len() == 9);
        assert("follow_mouse"@.len() == 12);
        assert("sensitivity"@.len() == 11);
        assert("accel_profile"@.len() == 13);
        assert("scroll_method"@.len() == 13);
        assert("touchpad.natural_scroll"@.len() == 23);
        assert("touchpad.tap-to-click"@.len() == 21);
        assert(path_view(path@) =~= touchpad_path());
    }
    let section_key = str_eq(key, "kb_layout") || str_eq(key, "follow_mouse") || str_eq(
        key,
        "sensitivity",
    ) || str_eq(key, "accel_profile") || str_eq(key, "scroll_method");
    if section_key {
        let old_value = str_or_empty(cfg.get_in_section("input", key));
        cfg.set_in_section("input", key, value);
        return Ok(old_value);
    }
    let real_key = if str_eq(key, "touchpad.natural_scroll") {
        "natural_scroll"
    } else if str_eq(key, "touchpad.tap-to-click") {
        "tap-to-click"
    } else {
        return Err(PanelError::UnknownKey(key.to_string()));
    };
    let old_value = str_or_empty(cfg.get_in_nested(path.as_slice(), real_key));
    cfg.set_in_nested(path.as_slice(), real_key, value);
    Ok(old_value)
}

/// The most common XKB keyboard layouts: code and display label.
pub open spec fn kb_layouts() -> Seq<(Seq<char>, Seq<char>)> {
    seq![
        ("us"@, "English (US)"@),
        ("gb"@, "English (UK)"@),
        ("de"@, "German"@),
        ("fr"@, "French"@),
        ("es"@, "Spanish"@),
        ("it"@, "Italian"@),
        ("pt"@, "Portuguese"@),
        ("br"@, "Portuguese (Brazil)"@),
        ("ru"@, "Russian"@),
        ("ua"@, "Ukrainian"@),
        ("pl"@, "Polish"@),
        ("cz"@, "Czech"@),
        ("sk"@, "Slovak"@),
        ("hu"@, "Hungarian"@),
        ("ro"@, "Romanian"@),
        ("bg"@, "Bulgarian"@),
        ("hr"@, "Croatian"@),
        ("rs"@, "Serbian"@),
        ("si"@, "Slovenian"@),
        ("se"@, "Swedish"@),
        ("no"@, "Norwegian"@),
        ("dk"@, "Danish"@),
        ("fi"@, "Finnish"@),
        ("nl"@, "Dutch"@),
        ("be"@, "Belgian"@),
        ("ch"@, "Swiss (German)"@),
        ("at"@, "Austrian"@),
        ("jp"@, "Japanese"@),
        ("kr"@, "Korean"@),
        ("cn"@, "Chinese"@),
        ("tw"@, "Chinese (Traditional)"@),
        ("in"@, "Indian"@),
        ("il"@, "Hebrew"@),
        ("ar"@, "Arabic"@),
        ("tr"@, "Turkish"@),
        ("gr"@, "Greek"@),
        ("th"@, "Thai"@),
        ("vn"@, "Vietnamese"@),
        ("latam"@, "Latin American"@),
        ("ca"@, "Canadian (Multilingual)"@),
        ("ie"@, "Irish"@),
        ("is"@, "Icelandic"@),
        ("ee"@, "Estonian"@),
        ("lt"@, "Lithuanian"@),
        ("lv"@, "Latvian"@),
    ]
}

pub open spec fn pairs_view(v: Seq<(String, String)>) -> Seq<(Seq<char>, Seq<char>)> {
    v.map_values(|p: (String, String)| (p.0@, p.1@))
}

/// The most common XKB keyboard layouts: `(xkb_code, display_label)`.
pub fn common_kb_layouts() -> (r: Vec<(String, String)>)
    ensures
        pairs_view(r@) == kb_layouts(),
{
    let v: Vec<(String, String)> = vec![
        ("us".to_string(), "English (US)".to_string()),
        ("gb".to_string(), "English (UK)".to_string()),
        ("de".to_string(), "German".to_string()),
        ("fr".to_string(), "French".to_string()),
        ("es".to_string(), "Spanish".to_string()),
        ("it".to_string(), "Italian".to_string()),
        ("pt".to_string(), "Portuguese".to_string()),
        ("br".to_string(), "Portuguese (Brazil)".to_string()),
        ("ru".to_string(), "Russian".to_string()),
        ("ua".to_string(), "Ukrainian".to_string()),
        ("pl".to_string(), "Polish".to_string()),
        ("cz".to_string(), "Czech".to_string()),
        ("sk".to_string(), "Slovak".to_string()),
        ("hu".to_string(), "Hungarian".to_string()),
        ("ro".to_string(), "Romanian".to_string()),
        ("bg".to_string(), "Bulgarian".to_string()),
        ("hr".to_string(), "Croatian".to_string()),
        ("rs".to_string(), "Serbian".to_string()),
        ("si".to_string(), "Slovenian".to_string()),
        ("se".to_string(), "Swedish".to_string()),
        ("no".to_string(), "Norwegian".to_string()),
        ("dk".to_string(), "Danish".to_string()),
        ("fi".to_string(), "Finnish".to_string()),
        ("nl".to_string(), "Dutch".to_string()),
        ("be".to_string(), "Belgian".to_string()),
        ("ch".to_string(), "Swiss (German)".to_string()),
        ("at".to_string(), "Austrian".to_string()),
        ("jp".to_string(), "Japanese".to_string()),
        ("kr".to_string(), "Korean".to_string()),
        ("cn".to_string(), "Chinese".to_string()),
        ("tw".to_string(), "Chinese (Traditional)".to_string()),
        ("in".to_string(), "Indian".to_string()),
        ("il".to_string(), "Hebrew".to_string()),
        ("ar".to_string(), "Arabic".to_string()),
        ("tr".to_string(), "Turkish".to_string()),
        ("gr".to_string(), "Greek".to_string()),
        ("th".to_string(), "Thai".to_string()),
        ("vn".to_string(), "Vietnamese".to_string()),
        ("latam".to_string(), "Latin American".to_string()),
        ("ca".to_string(), "Canadian (Multilingual)".to_string()),
        ("ie".to_string(), "Irish".to_string()),
        ("is".to_string(), "Icelandic".to_string()),
        ("ee".to_string(), "Estonian".to_string()),
        ("lt".to_string(), "Lithuanian".to_string()),
        ("lv".to_string(), "Latvian".to_string()),
    ];
    assert(pairs_view(v@) =~= kb_layouts());
    v
}

/// The rows of the Input panel: key, label and description.
pub open spec fn input_rows() -> Seq<(Seq<char>, Seq<char>, Seq<char>)> {
    seq![
        ("kb_layout"@, "Keyboard Layout"@, "XKB keyboard layout. Type to search or choose \"Other...\" for a custom code."@),
        ("follow_mouse"@, "Follow Mouse"@, "Focus behavior when the cursor enters a window."@),
        ("sensitivity"@, "Sensitivity"@, "Pointer sensitivity (-1.0 to 1.0)."@),
        ("accel_profile"@, "Acceleration Profile"@, "Pointer acceleration profile."@),
        ("scroll_method"@, "Scroll Method"@, "Scroll input method."@),
        ("touchpad.natural_scroll"@, "Natural Scroll"@, "Invert touchpad scroll direction."@),
        ("touchpad.tap-to-click"@, "Tap to Click"@, "Enable tap-to-click on the touchpad."@),
    ]
}

/// The config section the Input panel's row `i` lives in.
pub open spec fn input_section(i: int) -> Seq<char> {
    if i < 5 {
        "input"@
    } else {
        "input:touchpad"@
    }
}

/// The configured value the Input panel's row `i` shows.
pub open spec fn input_raw(cfg: Seq<crate::hyprconf::ItemView>, i: int) -> Option<Seq<char>> {
    if i < 5 {
        lookup_in_section(cfg, "input"@, input_rows()[i].0)
    } else if i == 5 {
        lookup_nested(cfg, touchpad_path(), "natural_scroll"@)
    } else {
        lookup_nested(cfg, touchpad_path(), "tap-to-click"@)
    }
}

/// The widget of the Input panel's row `i`.
pub open spec fn input_type_is(i: int, t: FieldType) -> bool {
    if i == 0 {
        t matches FieldType::SearchableChoice { options } && pairs_view(options@) == kb_layouts()
    } else if i == 1 {
        t matches FieldType::Choice { options } && strings_view(options@) == seq!["0"@, "1"@, "2"@, "3"@]
    } else if i == 2 {
        t matches FieldType::Float { min, max } && (min matches Some(lo) && lo@ == "-1"@) && (max matches Some(
            hi,
        ) && hi@ == "1"@)
    } else if i == 3 {
        t matches FieldType::Choice { options } && strings_view(options@) == seq!["flat"@, "adaptive"@]
    } else if i == 4 {
        t matches FieldType::Choice { options } && strings_view(options@) == seq![
            "2fg"@,
            "edge"@,
            "on_button_down"@,
            "no_scroll"@,
        ]
    } else {
        t is Boolean
    }
}

fn input_field(cfg: &HyprlandConfig, key: &str, label: &str, description: &str, t: FieldType) -> (f: PanelField)
    ensures
        shows_row(f, "input"@, (key@, label@, description@), lookup_in_section(cfg@, "input"@, key@), false),
        f.field_type == t,
{
    row_field("input", key, label, description, t, cfg.get_in_section("input", key), false)
}

fn touchpad_field(cfg: &HyprlandConfig, key: &str, real_key: &str, label: &str, description: &str) -> (f: PanelField)
    ensures
        shows_row(
            f,
            "input:touchpad"@,
            (key@, label@, description@),
            lookup_nested(cfg@, touchpad_path(), real_key@),
            false,
        ),
        f.field_type is Boolean,
{
    let path = vec!["input", "touchpad"];
    proof {
        reveal_strlit("input");
        reveal_strlit("touchpad");
        assert(path_view(path@) =~= touchpad_path());
    }
    let raw = cfg.get_in_nested(path.as_slice(), real_key);
    row_field("input:touchpad", key, label, description, FieldType::Boolean, raw, false)
}

/// The Input panel's rows over the `input` section of `cfg` and its
/// `touchpad` subsection.
pub fn input_fields(cfg: &HyprlandConfig) -> (r: Vec<PanelField>)
    ensures
        r@.len() == input_rows().len(),
        forall|i: int|
            0 <= i < r@.len() ==> {
                &&& shows_row(#[trigger] r@[i], input_section(i), input_rows()[i], input_raw(cfg@, i), false)
                &&& input_type_is(i, r@[i].field_type)
            },
{
    let f0 = input_field(cfg, "kb_layout", "Keyboard Layout", "XKB keyboard layout. Type to search or choose \"Other...\" for a custom code.", FieldType::SearchableChoice { options: common_kb_layouts() });
    let follow = vec!["0".to_string(), "1".to_string(), "2".to_string(), "3".to_string()];
    assert(strings_view(follow@) =~= seq!["0"@, "1"@, "2"@, "3"@]);
    let f1 = input_field(cfg, "follow_mouse", "Follow Mouse", "Focus behavior when the cursor enters a window.", FieldType::Choice { options: follow });
    let f2 = input_field(cfg, "sensitivity", "Sensitivity", "Pointer sensitivity (-1.0 to 1.0).", FieldType::Float { min: Some("-1".to_string()), max: Some("1".to_string()) });
    let accel = vec!["flat".to_string(), "adaptive".to_string()];
    assert(strings_view(accel@) =~= seq!["flat"@, "adaptive"@]);
    let f3 = input_field(cfg, "accel_profile", "Acceleration Profile", "Pointer acceleration profile.", FieldType::Choice { options: accel });
    let scroll = vec!["2fg".to_string(), "edge".to_string(), "on_button_down".to_string(), "no_scroll".to_string()];
    assert(strings_view(scroll@) =~= seq!["2fg"@, "edge"@, "on_button_down"@, "no_scroll"@]);
    let f4 = input_field(cfg, "scroll_method", "Scroll Method", "Scroll input method.", FieldType::Choice { options: scroll });
    let f5 = touchpad_field(cfg, "touchpad.natural_scroll", "natural_scroll", "Natural Scroll", "Invert touchpad scroll direction.");
    let f6 = touchpad_field(cfg, "touchpad.tap-to-click", "tap-to-click", "Tap to Click", "Enable tap-to-click on the touchpad.");
    let r = vec![f0, f1, f2, f3, f4, f5, f6];
    assert forall|i: int|
        0 <= i < r@.len() implies {
            &&& shows_row(#[trigger] r@[i], input_section(i), input_rows()[i], input_raw(cfg@, i), false)
            &&& input_type_is(i, r@[i].field_type)
        } by {
        if i == 0 {
            assert(r@[i] == f0);
        } else if i == 1 {
            assert(r@[i] == f1);
        } else if i == 2 {
            assert(r@[i] == f2);
        } else if i == 3 {
            assert(r@[i] == f3);
        } else if i == 4 {
            assert(r@[i] == f4);
        } else if i == 5 {
            assert(r@[i] == f5);
        } else {
            assert(r@[i] == f6);
        }
    }
    r
}

/// Settings panel for Hyprland input configuration (keyboard, mouse,
/// touchpad), over its own copy of the config.
pub struct InputPanel {
    pub config: HyprlandConfig,
}

impl InputPanel {
    /// A panel over the configuration loaded from `hyprland.conf`, or over
    /// an empty configuration when it could not be loaded.
    pub fn new(loaded: Option<HyprlandConfig>) -> (p: Self)
        ensures
            match loaded {
                Some(c) => p.config == c,
                None => p.config.items@.len() == 0,
            },
    {
        match loaded {
            Some(c) => Self::with_arc(c),
            None => Self::with_arc(HyprlandConfig { items: Vec::new() }),
        }
    }

    /// A panel over `config`, which it owns; the two panels edit one
    /// configuration together through `SharedConfigs`.
    pub fn with_arc(config: HyprlandConfig) -> (p: Self)
        ensures
            p.config == config,
    {
        Self { config }
    }

    /// Apply a value change. Returns the old value for undo.
    pub fn set_value(&mut self, key: &str, value: &str) -> (r: Result<String, PanelError>)
        ensures
            is_input_key(key@) ==> (r matches Ok(old_value) && old_value@ == unwrap_or_empty(
                lookup_in_section(old(self).config@, "input"@, key@),
            ) && final(self).config@ == spec_set_in_section(
                old(self).config@,
                "input"@,
                key@,
                value@,
            )),
            touchpad_option(key@) matches Some(option) ==> (r matches Ok(old_value) && old_value@
                == unwrap_or_empty(lookup_nested(old(self).config@, touchpad_path(), option))
                && final(self).config@ == spec_set_nested(
                old(self).config@,
                touchpad_path(),
                option,
                value@,
            )),
            !is_input_key(key@) && touchpad_option(key@) is None ==> (r matches Err(
                PanelError::UnknownKey(k),
            ) && k@ == key@ && final(self).config@ == old(self).config@),
    {
        input_set_value(&mut self.config, key, value)
    }

    /// The panel's rows over the `input` section and its `touchpad`
    /// subsection.
    pub fn fields(&self) -> (r: Vec<PanelField>)
        ensures
            r@.len() == input_rows().len(),
            forall|i: int|
                0 <= i < r@.len() ==> {
                    &&& shows_row(#[trigger] r@[i], input_section(i), input_rows()[i], input_raw(self.config@, i), false)
                    &&& input_type_is(i, r@[i].field_type)
                },
    {
        input_fields(&self.config)
    }
}


/// What an edit of `key` to `value` through the Hyprland panel does to the
/// configuration `before`, giving `after` and `r`.
pub open spec fn hyprland_edit(
    before: Seq<ItemView>,
    key: Seq<char>,
    value: Seq<char>,
    r: Result<String, PanelError>,
    after: Seq<ItemView>,
) -> bool {
    &&& is_general_plain_key(key) ==> (r matches Ok(old_value) && old_value@ == general_value(
        before,
        key,
    ) && after == spec_set_in_section(before, general(), key, value))
    &&& is_general_color_key(key) ==> (r matches Ok(old_value) && old_value@ == spec_normalize_to_hex(
        general_value(before, key),
    ) && after == spec_set_in_section(before, general(), key, spec_hex_to_rgba(value)))
    &&& !is_general_plain_key(key) && !is_general_color_key(key) ==> (r matches Err(
        PanelError::UnknownKey(k),
    ) && k@ == key && after == before)
}

/// What an edit of `key` to `value` through the Input panel does to the
/// configuration `before`, giving `after` and `r`.
pub open spec fn input_edit(
    before: Seq<ItemView>,
    key: Seq<char>,
    value: Seq<char>,
    r: Result<String, PanelError>,
    after: Seq<ItemView>,
) -> bool {
    &&& is_input_key(key) ==> (r matches Ok(old_value) && old_value@ == unwrap_or_empty(
        lookup_in_section(before, "input"@, key),
    ) && after == spec_set_in_section(before, "input"@, key, value))
    &&& touchpad_option(key) matches Some(option) ==> (r matches Ok(old_value) && old_value@
        == unwrap_or_empty(lookup_nested(before, touchpad_path(), option)) && after
        == spec_set_nested(before, touchpad_path(), option, value))
    &&& !is_input_key(key) && touchpad_option(key) is None ==> (r matches Err(
        PanelError::UnknownKey(k),
    ) && k@ == key && after == before)
}

/// The `hyprland.conf` configuration that the Hyprland and Input panels
/// edit together: both show their rows from it and write their changes to
/// it, so an edit made through one panel is what the other reads.
pub struct SharedConfigs {
    pub hyprland: HyprlandConfig,
}

impl SharedConfigs {
    /// The configuration loaded from `hyprland.conf`, or an empty one when
    /// it could not be loaded.
    pub fn new(loaded: Option<HyprlandConfig>) -> (s: Self)
        ensures
            match loaded {
                Some(c) => s.hyprland == c,
                None => s.hyprland.items@.len() == 0,
            },
    {
        match loaded {
            Some(c) => SharedConfigs { hyprland: c },
            None => SharedConfigs { hyprland: HyprlandConfig { items: Vec::new() } },
        }
    }

    /// An edit from the Hyprland panel; returns the previous value.
    pub fn set_hyprland_value(&mut self, key: &str, value: &str) -> (r: Result<String, PanelError>)
        requires
            hyprland_color_change_safe(old(self).hyprland@, key@, value@),
        ensures
            hyprland_edit(old(self).hyprland@, key@, value@, r, final(self).hyprland@),
    {
        hyprland_set_value(&mut self.hyprland, key, value)
    }

    /// An edit from the Input panel; returns the previous value.
    pub fn set_input_value(&mut self, key: &str, value: &str) -> (r: Result<String, PanelError>)
        ensures
            input_edit(old(self).hyprland@, key@, value@, r, final(self).hyprland@),
    {
        input_set_value(&mut self.hyprland, key, value)
    }

    /// The Hyprland panel's rows, read from the shared configuration.
    pub fn hyprland_fields(&self) -> (r: Vec<PanelField>)
        requires
            hyprland_fields_safe(self.hyprland@),
        ensures
            r@.len() == hyprland_rows().len(),
            forall|i: int|
                0 <= i < r@.len() ==> {
                    &&& shows_row(
                        #[trigger] r@[i],
                        general(),
                        hyprland_rows()[i],
                        lookup_in_section(self.hyprland@, general(), hyprland_rows()[i].0),
                        i == 3 || i == 4,
                    )
                    &&& hyprland_type_is(i, r@[i].field_type)
                },
    {
        hyprland_fields(&self.hyprland)
    }

    /// The Input panel's rows, read from the shared configuration.
    pub fn input_fields(&self) -> (r: Vec<PanelField>)
        ensures
            r@.len() == input_rows().len(),
            forall|i: int|
                0 <= i < r@.len() ==> {
                    &&& shows_row(#[trigger] r@[i], input_section(i), input_rows()[i], input_raw(self.hyprland@, i), false)
                    &&& input_type_is(i, r@[i].field_type)
                },
    {
        input_fields(&self.hyprland)
    }
}

/// Both panels edit the one shared configuration: after an edit through the
/// Hyprland panel and one through the Input panel (of an `input` key), in
/// either order, each reads back what it wrote.
pub proof fn law_panels_share_config(
    cfg: Seq<ItemView>,
    hkey: Seq<char>,
    hvalue: Seq<char>,
    ikey: Seq<char>,
    ivalue: Seq<char>,
    mid1: Seq<ItemView>,
    after1: Seq<ItemView>,
    mid2: Seq<ItemView>,
    after2: Seq<ItemView>,
    r1: Result<String, PanelError>,
    r2: Result<String, PanelError>,
    r3: Result<String, PanelError>,
    r4: Result<String, PanelError>,
)
    requires
        is_general_plain_key(hkey),
        is_input_key(ikey),
        hyprland_edit(cfg, hkey, hvalue, r1, mid1),
        input_edit(mid1, ikey, ivalue, r2, after1),
        input_edit(cfg, ikey, ivalue, r3, mid2),
        hyprland_edit(mid2, hkey, hvalue, r4, after2),
    ensures
        lookup_in_section(after1, general(), hkey) == Some(hvalue),
        lookup_in_section(after1, "input"@, ikey) == Some(ivalue),
        lookup_in_section(after2, general(), hkey) == Some(hvalue),
        lookup_in_section(after2, "input"@, ikey) == Some(ivalue),
{
    reveal_strlit("general");
    reveal_strlit("input");
    reveal_strlit("kb_layout");
    reveal_strlit("follow_mouse");
    reveal_strlit("sensitivity");
    reveal_strlit("accel_profile");
    reveal_strlit("scroll_method");
    reveal_strlit("touchpad.natural_scroll");
    reveal_strlit("touchpad.tap-to-click");
    assert(general() != "input"@) by {
        assert(general()[0] != "input"@[0]);
    }
    assert(touchpad_option(ikey) is None) by {
        assert("touchpad.natural_scroll"@.len() == 23);
        assert("touchpad.tap-to-click"@.len() == 21);
        assert("kb_layout"@.len() == 9);
        assert("follow_mouse"@.len() == 12);
        assert("sensitivity"@.len() == 11);
        assert("accel_profile"@.len() == 13);
        assert("scroll_method"@.len() == 13);
    }
    law_get_in_section_after_set(cfg, general(), hkey, hvalue);
    law_set_in_section_keeps_other_sections(mid1, "input"@, ikey, ivalue, general(), hkey);
    law_get_in_section_after_set(mid1, "input"@, ikey, ivalue);
    law_get_in_section_after_set(cfg, "input"@, ikey, ivalue);
    law_set_in_section_keeps_other_sections(mid2, general(), hkey, hvalue, "input"@, ikey);
    law_get_in_section_after_set(mid2, general(), hkey, hvalue);
}

} // verus!
