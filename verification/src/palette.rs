//! The palette and the Appearance panel's settings.
use vstd::prelude::*;

use crate::color::{hex_parse_safe, hex_text, spec_from_hex, HexColor};
use crate::color_picker::InlineColorPicker;
use crate::panels::{FieldType, PanelError, PanelField};
use crate::text::str_eq;
use crate::widget::{Dropdown, TextInput};

verus! {

broadcast use {vstd::seq::group_seq_axioms, vstd::string::group_string_axioms};

/// The six named colors of a palette, as hex strings.
#[derive(Debug, Clone, PartialEq, Eq)]
pub struct PaletteColors {
    pub background: String,
    pub foreground: String,
    pub accent: String,
    pub urgent: String,
    pub surface: String,
    pub overlay: String,
}

/// The colors a palette setting key names, in the order the panel lists
/// them.
pub open spec fn color_keys() -> Seq<Seq<char>> {
    seq![
        "colors.background"@,
        "colors.foreground"@,
        "colors.accent"@,
        "colors.urgent"@,
        "colors.surface"@,
        "colors.overlay"@,
    ]
}

proof fn lemma_color_keys_distinct()
    ensures
        forall|i: int, j: int| 0 <= i < 6 && 0 <= j < 6 && i != j ==> color_keys()[i] != color_keys()[j],
{
    reveal_strlit("colors.background");
    reveal_strlit("colors.foreground");
    reveal_strlit("colors.accent");
    reveal_strlit("colors.urgent");
    reveal_strlit("colors.surface");
    reveal_strlit("colors.overlay");
    let k = color_keys();
    assert(k[0].len() == 17 && k[1].len() == 17 && k[2].len() == 13 && k[3].len() == 13
        && k[4].len() == 14 && k[5].len() == 14);
    assert(k[0][7] != k[1][7]);
    assert(k[2][7] != k[3][7]);
    assert(k[4][7] != k[5][7]);
}

impl PaletteColors {
    /// The color a key names, by its position in `color_keys()`.
    pub open spec fn color_at(&self, i: int) -> Seq<char> {
        if i == 0 {
            self.background@
        } else if i == 1 {
            self.foreground@
        } else if i == 2 {
            self.accent@
        } else if i == 3 {
            self.urgent@
        } else if i == 4 {
            self.surface@
        } else {
            self.overlay@
        }
    }

    /// The color at position `i` of `color_keys()`.
    pub fn color_ref(&self, i: usize) -> (r: &String)
        requires
            i < 6,
        ensures
            r@ == self.color_at(i as int),
    {
        if i == 0 {
            &self.background
        } else if i == 1 {
            &self.foreground
        } else if i == 2 {
            &self.accent
        } else if i == 3 {
            &self.urgent
        } else if i == 4 {
            &self.surface
        } else {
            &self.overlay
        }
    }

    /// Every color can be handed to `HexColor::from_hex` without a panic.
    pub open spec fn parse_safe(&self) -> bool {
        forall|i: int| 0 <= i < 6 ==> hex_parse_safe(#[trigger] self.color_at(i))
    }

    /// The default palette's colors.
    pub fn default_colors() -> (c: PaletteColors)
        ensures
            c.background@ == "#1e1e2e"@,
            c.foreground@ == "#cdd6f4"@,
            c.accent@ == "#89b4fa"@,
            c.urgent@ == "#f38ba8"@,
            c.surface@ == "#313244"@,
            c.overlay@ == "#6c7086"@,
    {
        PaletteColors {
            background: "#1e1e2e".to_string(),
            foreground: "#cdd6f4".to_string(),
            accent: "#89b4fa".to_string(),
            urgent: "#f38ba8".to_string(),
            surface: "#313244".to_string(),
            overlay: "#6c7086".to_string(),
        }
    }

    /// Sets the color `key` names to `value` and gives back the old value;
    /// `None`, with nothing changed, for a key that names no color.
    pub fn set_color(&mut self, key: &str, value: &str) -> (r: Option<String>)
        ensures
            (exists|i: int| 0 <= i < 6 && key@ == color_keys()[i]) <==> r is Some,
            r is None ==> *final(self) == *old(self),
            forall|i: int|
                0 <= i < 6 ==> if key@ == color_keys()[i] {
                    &&& (r matches Some(o) && o@ == old(self).color_at(i))
                    &&& final(self).color_at(i) == value@
                } else {
                    final(self).color_at(i) == old(self).color_at(i)
                },
    {
        proof {
            lemma_color_keys_distinct();
            reveal_strlit("colors.background");
            reveal_strlit("colors.foreground");
            reveal_strlit("colors.accent");
            reveal_strlit("colors.urgent");
            reveal_strlit("colors.surface");
            reveal_strlit("colors.overlay");
        }
        let v = value.to_string();
        if str_eq(key, "colors.background") {
            let mut v = v;
            std::mem::swap(&mut self.background, &mut v);
            assert(key@ == color_keys()[0]);
            Some(v)
        } else if str_eq(key, "colors.foreground") {
            let mut v = v;
            std::mem::swap(&mut self.foreground, &mut v);
            assert(key@ == color_keys()[1]);
            Some(v)
        } else if str_eq(key, "colors.accent") {
            let mut v = v;
            std::mem::swap(&mut self.accent, &mut v);
            assert(key@ == color_keys()[2]);
            Some(v)
        } else if str_eq(key, "colors.urgent") {
            let mut v = v;
            std::mem::swap(&mut self.urgent, &mut v);
            assert(key@ == color_keys()[3]);
            Some(v)
        } else if str_eq(key, "colors.surface") {
            let mut v = v;
            std::mem::swap(&mut self.surface, &mut v);
            assert(key@ == color_keys()[4]);
            Some(v)
        } else if str_eq(key, "colors.overlay") {
            let mut v = v;
            std::mem::swap(&mut self.overlay, &mut v);
            assert(key@ == color_keys()[5]);
            Some(v)
        } else {
            assert forall|i: int| 0 <= i < 6 implies key@ != color_keys()[i] by {
                if i == 0 {} else if i == 1 {} else if i == 2 {} else if i == 3 {} else if i == 4 {} else {}
            }
            None
        }
    }
}

/// The palette's fonts; the size is held as its decimal text.
#[derive(Debug, Clone, PartialEq, Eq)]
pub struct PaletteFonts {
    pub family: String,
    pub mono_family: String,
    pub size: String,
}

/// The palette's shape settings, each held as its decimal text.
#[derive(Debug, Clone, PartialEq, Eq)]
pub struct PaletteStyle {
    pub border_radius: String,
    pub opacity: String,
}

/// The shared look of the desktop tools: colors, fonts and style.
#[derive(Debug, Clone, PartialEq, Eq)]
pub struct Palette {
    pub colors: PaletteColors,
    pub fonts: PaletteFonts,
    pub style: PaletteStyle,
}

impl Palette {
    pub open spec fn is_default(&self) -> bool {
        &&& self.colors.background@ == "#1e1e2e"@
        &&& self.colors.foreground@ == "#cdd6f4"@
        &&& self.colors.accent@ == "#89b4fa"@
        &&& self.colors.urgent@ == "#f38ba8"@
        &&& self.colors.surface@ == "#313244"@
        &&& self.colors.overlay@ == "#6c7086"@
        &&& self.fonts.family@ == "Inter"@
        &&& self.fonts.mono_family@ == "JetBrains Mono"@
        &&& self.fonts.size@ == "14"@
        &&& self.style.border_radius@ == "8"@
        &&& self.style.opacity@ == "0.85"@
    }

    /// The setting at position `i` of `appearance_rows()`.
    pub open spec fn value_at(&self, i: int) -> Seq<char> {
        if i < 6 {
            self.colors.color_at(i)
        } else if i == 6 {
            self.fonts.family@
        } else if i == 7 {
            self.fonts.mono_family@
        } else if i == 8 {
            self.fonts.size@
        } else if i == 9 {
            self.style.border_radius@
        } else {
            self.style.opacity@
        }
    }
}

impl Default for Palette {
    fn default() -> (p: Self)
        ensures
            p.is_default(),
    {
        Palette {
            colors: PaletteColors::default_colors(),
            fonts: PaletteFonts {
                family: "Inter".to_string(),
                mono_family: "JetBrains Mono".to_string(),
                size: "14".to_string(),
            },
            style: PaletteStyle { border_radius: "8".to_string(), opacity: "0.85".to_string() },
        }
    }
}

/// The Appearance panel's settings: key, label and description.
pub open spec fn appearance_rows() -> Seq<(Seq<char>, Seq<char>, Seq<char>)> {
    seq![
        ("colors.background"@, "Background"@, "Primary background color."@),
        ("colors.foreground"@, "Foreground"@, "Primary text color."@),
        ("colors.accent"@, "Accent"@, "Accent / highlight color."@),
        ("colors.urgent"@, "Urgent"@, "Color for urgent / error states."@),
        ("colors.surface"@, "Surface"@, "Surface / card background color."@),
        ("colors.overlay"@, "Overlay"@, "Overlay / muted text color."@),
        ("fonts.family"@, "Font Family"@, "Primary UI font family."@),
        ("fonts.mono_family"@, "Monospace Font"@, "Monospace font for code and config values."@),
        ("fonts.size"@, "Font Size"@, "Base font size (pt)."@),
        ("style.border_radius"@, "Border Radius"@, "Corner rounding for UI elements (px)."@),
        ("style.opacity"@, "Opacity"@, "Window opacity (0.0 \u{2013} 1.0)."@),
    ]
}

/// The widget of the Appearance panel's setting `i`.
pub open spec fn appearance_type_is(i: int, t: FieldType) -> bool {
    if i < 6 {
        t is Color
    } else if i < 8 {
        t is Text
    } else {
        let (lo, hi) = if i == 8 {
            ("6"@, "48"@)
        } else if i == 9 {
            ("0"@, "32"@)
        } else {
            ("0"@, "1"@)
        };
        t matches FieldType::Float { min, max } && (min matches Some(a) && a@ == lo) && (max matches Some(
            b,
        ) && b@ == hi)
    }
}

/// The position of `key` among the Appearance panel's settings.
pub open spec fn appearance_index(key: Seq<char>) -> Option<int> {
    if exists|i: int| 0 <= i < 11 && appearance_rows()[i].0 == key {
        Some(choose|i: int| 0 <= i < 11 && appearance_rows()[i].0 == key)
    } else {
        None
    }
}

proof fn lemma_appearance_keys_distinct()
    ensures
        forall|i: int, j: int|
            0 <= i < 11 && 0 <= j < 11 && i != j ==> appearance_rows()[i].0 != appearance_rows()[j].0,
{
    reveal_strlit("colors.background");
    reveal_strlit("colors.foreground");
    reveal_strlit("colors.accent");
    reveal_strlit("colors.urgent");
    reveal_strlit("colors.surface");
    reveal_strlit("colors.overlay");
    reveal_strlit("fonts.family");
    reveal_strlit("fonts.mono_family");
    reveal_strlit("fonts.size");
    reveal_strlit("style.border_radius");
    reveal_strlit("style.opacity");
    let r = appearance_rows();
    assert(r[0].0.len() == 17 && r[1].0.len() == 17 && r[2].0.len() == 13 && r[3].0.len() == 13);
    assert(r[4].0.len() == 14 && r[5].0.len() == 14 && r[6].0.len() == 12 && r[7].0.len() == 17);
    assert(r[8].0.len() == 10 && r[9].0.len() == 19 && r[10].0.len() == 13);
    assert(r[0].0[7] != r[1].0[7]);
    assert(r[0].0[0] != r[7].0[0]);
    assert(r[1].0[0] != r[7].0[0]);
    assert(r[2].0[7] != r[3].0[7]);
    assert(r[2].0[0] != r[10].0[0]);
    assert(r[3].0[0] != r[10].0[0]);
    assert(r[4].0[7] != r[5].0[7]);
}

fn appearance_field(key: &str, label: &str, description: &str, field_type: FieldType, value: &String) -> (f: PanelField)
    ensures
        f.key@ == key@,
        f.label@ == label@,
        f.description@ == description@,
        f.section is None,
        f.field_type == field_type,
        f.current_value@ == value@,
        f.original_value matches Some(o) && o@ == value@,
        !f.dirty,
{
    PanelField {
        key: key.to_string(),
        section: None,
        label: label.to_string(),
        description: description.to_string(),
        field_type,
        original_value: Some(value.clone()),
        current_value: value.clone(),
        dirty: false,
    }
}

fn float_type(lo: &str, hi: &str) -> (t: FieldType)
    ensures
        t matches FieldType::Float { min, max } && (min matches Some(a) && a@ == lo@) && (max matches Some(b) && b@
            == hi@),
{
    FieldType::Float { min: Some(lo.to_string()), max: Some(hi.to_string()) }
}

/// What a color picker shows for the palette color `hex`: that color, or
/// mid gray when the text is no hex color.
pub open spec fn picker_color(hex: Seq<char>) -> HexColor {
    match spec_from_hex(hex) {
        Some(c) => c,
        None => HexColor { r: 128, g: 128, b: 128, a: 255 },
    }
}

/// The color a picker takes for the palette color `hex`.
fn picker_color_of(hex: &String) -> (c: HexColor)
    requires
        hex_parse_safe(hex@),
    ensures
        c == picker_color(hex@),
{
    match HexColor::from_hex(hex.as_str()) {
        Ok(c) => c,
        Err(_) => HexColor { r: 128, g: 128, b: 128, a: 255 },
    }
}

/// The Appearance panel: the palette being edited, the preset list (the
/// built-in presets by name, then `Custom`), a color picker for each of
/// the six colors, the two font-family inputs, and the picker being
/// dragged.  The number sliders hold floating-point values and stay with
/// the renderer.
pub struct AppearancePanel {
    pub palette: Palette,
    pub preset_dropdown: Dropdown,
    pub color_pickers: Vec<InlineColorPicker>,
    pub font_family: TextInput,
    pub mono_family: TextInput,
    /// Index of the color picker currently being dragged (if any).
    pub dragging_picker: Option<usize>,
}

/// The pickers show the colors of `p` under their keys, and the font
/// inputs its families.
pub open spec fn widgets_show(
    pickers: Seq<InlineColorPicker>,
    font_family: TextInput,
    mono_family: TextInput,
    p: Palette,
) -> bool {
    &&& pickers.len() == 6
    &&& forall|i: int|
        0 <= i < 6 ==> {
            &&& (#[trigger] pickers[i]).key@ == color_keys()[i]
            &&& pickers[i].value == picker_color(p.colors.color_at(i))
            &&& pickers[i].hex_input@ == hex_text(pickers[i].value)
        }
    &&& font_family.value@ == p.fonts.family@
    &&& mono_family.value@ == p.fonts.mono_family@
}

/// `after` is `before` with each of its first six pickers (as many as
/// there are) showing its color of `p`: the value and hex text change,
/// the rest of each picker stays.
pub open spec fn synced(before: Seq<InlineColorPicker>, after: Seq<InlineColorPicker>, p: Palette) -> bool {
    synced_below(before, after, p, 6)
}

/// `synced`, for the pickers before position `k`.
pub open spec fn synced_below(before: Seq<InlineColorPicker>, after: Seq<InlineColorPicker>, p: Palette, k: int) -> bool {
    &&& after.len() == before.len()
    &&& forall|j: int|
        0 <= j < before.len() ==> if j < k {
            let c = picker_color(p.colors.color_at(j));
            &&& (#[trigger] after[j]).value == c
            &&& after[j].hex_input@ == hex_text(c)
            &&& after[j].key == before[j].key
            &&& after[j].expanded == before[j].expanded
            &&& after[j].hex_focused == before[j].hex_focused
            &&& after[j].dragging == before[j].dragging
        } else {
            after[j] == before[j]
        }
}

impl AppearancePanel {
    /// A panel over `palette`, offering the presets named `preset_names`
    /// and a last `Custom` entry; the first preset is selected, the pickers
    /// and font inputs show the palette, collapsed and unfocused, and
    /// nothing is dragged.
    pub fn with_arc(palette: Palette, preset_names: Vec<String>) -> (p: Self)
        requires
            palette.colors.parse_safe(),
        ensures
            p.palette == palette,
            p.preset_dropdown.key@ == "palette.preset"@,
            p.preset_dropdown.options@.map_values(|o: String| o@) == preset_names@.map_values(|o: String| o@).push(
                "Custom"@,
            ),
            p.preset_dropdown.selected == 0,
            !p.preset_dropdown.open,
            widgets_show(p.color_pickers@, p.font_family, p.mono_family, palette),
            forall|i: int|
                0 <= i < 6 ==> {
                    &&& !(#[trigger] p.color_pickers@[i]).expanded
                    &&& !p.color_pickers@[i].hex_focused
                    &&& p.color_pickers@[i].dragging is None
                },
            p.font_family.key@ == "fonts.family"@,
            p.mono_family.key@ == "fonts.mono_family"@,
            !p.font_family.focused && p.font_family.cursor_pos == 0,
            !p.mono_family.focused && p.mono_family.cursor_pos == 0,
            p.dragging_picker is None,
    {
        let mut options = preset_names;
        let ghost before = options@;
        options.push("Custom".to_string());
        assert(options@.map_values(|o: String| o@) =~= before.map_values(|o: String| o@).push("Custom"@));
        let keys = vec![
            "colors.background",
            "colors.foreground",
            "colors.accent",
            "colors.urgent",
            "colors.surface",
            "colors.overlay",
        ];
        proof {
            reveal_strlit("colors.background");
            reveal_strlit("colors.foreground");
            reveal_strlit("colors.accent");
            reveal_strlit("colors.urgent");
            reveal_strlit("colors.surface");
            reveal_strlit("colors.overlay");
            assert(keys@.map_values(|k: &str| k@) =~= color_keys());
        }
        let mut color_pickers: Vec<InlineColorPicker> = Vec::new();
        let mut i: usize = 0;
        while i < 6
            invariant
                i <= 6,
                keys@.len() == 6,
                keys@.map_values(|k: &str| k@) == color_keys(),
                palette.colors.parse_safe(),
                color_pickers@.len() == i,
                forall|j: int|
                    0 <= j < i ==> {
                        &&& (#[trigger] color_pickers@[j]).key@ == color_keys()[j]
                        &&& color_pickers@[j].value == picker_color(palette.colors.color_at(j))
                        &&& color_pickers@[j].hex_input@ == hex_text(color_pickers@[j].value)
                        &&& !color_pickers@[j].expanded
                        &&& !color_pickers@[j].hex_focused
                        &&& color_pickers@[j].dragging is None
                    },
            decreases 6 - i,
        {
            let hex = palette.colors.color_ref(i);
            assert(hex_parse_safe(palette.colors.color_at(i as int)));
            let color = picker_color_of(hex);
            assert(keys@[i as int]@ == color_keys()[i as int]);
            color_pickers.push(InlineColorPicker::new(keys[i].to_string(), color));
            i = i + 1;
        }
        let font_family = TextInput::new("fonts.family".to_string(), palette.fonts.family.clone());
        let mono_family = TextInput::new("fonts.mono_family".to_string(), palette.fonts.mono_family.clone());
        AppearancePanel {
            palette,
            preset_dropdown: Dropdown::new("palette.preset".to_string(), options, 0),
            color_pickers,
            font_family,
            mono_family,
            dragging_picker: None,
        }
    }

    /// The palette's settings as fields, each showing its current value.
    pub fn fields(&self) -> (r: Vec<PanelField>)
        ensures
            r@.len() == 11,
            forall|i: int|
                0 <= i < 11 ==> {
                    &&& (#[trigger] r@[i]).key@ == appearance_rows()[i].0
                    &&& r@[i].label@ == appearance_rows()[i].1
                    &&& r@[i].description@ == appearance_rows()[i].2
                    &&& r@[i].section is None
                    &&& appearance_type_is(i, r@[i].field_type)
                    &&& r@[i].current_value@ == self.palette.value_at(i)
                    &&& r@[i].original_value matches Some(o) && o@ == self.palette.value_at(i)
                    &&& !r@[i].dirty
                },
    {
        let p = &self.palette;
        let f0 = appearance_field("colors.background", "Background", "Primary background color.", FieldType::Color, &p.colors.background);
        let f1 = appearance_field("colors.foreground", "Foreground", "Primary text color.", FieldType::Color, &p.colors.foreground);
        let f2 = appearance_field("colors.accent", "Accent", "Accent / highlight color.", FieldType::Color, &p.colors.accent);
        let f3 = appearance_field("colors.urgent", "Urgent", "Color for urgent / error states.", FieldType::Color, &p.colors.urgent);
        let f4 = appearance_field("colors.surface", "Surface", "Surface / card background color.", FieldType::Color, &p.colors.surface);
        let f5 = appearance_field("colors.overlay", "Overlay", "Overlay / muted text color.", FieldType::Color, &p.colors.overlay);
        let f6 = appearance_field("fonts.family", "Font Family", "Primary UI font family.", FieldType::Text, &p.fonts.family);
        let f7 = appearance_field("fonts.mono_family", "Monospace Font", "Monospace font for code and config values.", FieldType::Text, &p.fonts.mono_family);
        let f8 = appearance_field("fonts.size", "Font Size", "Base font size (pt).", float_type("6", "48"), &p.fonts.size);
        let f9 = appearance_field("style.border_radius", "Border Radius", "Corner rounding for UI elements (px).", float_type("0", "32"), &p.style.border_radius);
        let f10 = appearance_field("style.opacity", "Opacity", "Window opacity (0.0 \u{2013} 1.0).", float_type("0", "1"), &p.style.opacity);
        let r = vec![f0, f1, f2, f3, f4, f5, f6, f7, f8, f9, f10];
        assert forall|i: int| 0 <= i < 11 implies {
            &&& (#[trigger] r@[i]).key@ == appearance_rows()[i].0
            &&& r@[i].label@ == appearance_rows()[i].1
            &&& r@[i].description@ == appearance_rows()[i].2
            &&& r@[i].section is None
            &&& appearance_type_is(i, r@[i].field_type)
            &&& r@[i].current_value@ == self.palette.value_at(i)
            &&& r@[i].original_value matches Some(o) && o@ == self.palette.value_at(i)
            &&& !r@[i].dirty
        } by {
            if i == 0 {
                assert(r@[i] == f0);
            } else if i == 1 {
                assert(r@[i] == f1);
            } else if i == 2 {
                assert(r@[i] == f2);
            } else if i == 3 {
                assert(r@[i] == f3);
            } else if i == 4 {
                assert(r@[i] == f4);
            } else if i == 5 {
                assert(r@[i] == f5);
            } else if i == 6 {
                assert(r@[i] == f6);
            } else if i == 7 {
                assert(r@[i] == f7);
            } else if i == 8 {
                assert(r@[i] == f8);
            } else if i == 9 {
                assert(r@[i] == f9);
            } else {
                assert(r@[i] == f10);
            }
        }
        r
    }

    /// Changes the setting `key` to the edited text `value` (a number
    /// setting takes `float_text`, the number's text when `value` is one)
    /// and gives back the value it had.
    pub fn set_value(&mut self, key: &str, value: &str, float_text: Option<String>) -> (r: Result<String, PanelError>)
        ensures
            final(self).preset_dropdown == old(self).preset_dropdown,
            final(self).color_pickers == old(self).color_pickers,
            final(self).font_family == old(self).font_family,
            final(self).mono_family == old(self).mono_family,
            final(self).dragging_picker == old(self).dragging_picker,
            match appearance_index(key@) {
                None => (r matches Err(PanelError::UnknownKey(k)) && k@ == key@) && final(self).palette
                    == old(self).palette,
                Some(i) => if i >= 8 && float_text is None {
                    &&& r matches Err(PanelError::InvalidValue { key: k, reason: m })
                    &&& k@ == key@
                    &&& m@ == "expected a number"@
                    &&& final(self).palette == old(self).palette
                } else {
                    &&& r matches Ok(o) && o@ == old(self).palette.value_at(i)
                    &&& final(self).palette.value_at(i) == (if i >= 8 {
                        float_text.unwrap()@
                    } else {
                        value@
                    })
                    &&& forall|j: int| 0 <= j < 11 && j != i ==> final(self).palette.value_at(j)
                        == old(self).palette.value_at(j)
                },
            },
    {
        proof {
            lemma_appearance_keys_distinct();
            reveal_strlit("colors.background");
            reveal_strlit("colors.foreground");
            reveal_strlit("colors.accent");
            reveal_strlit("colors.urgent");
            reveal_strlit("colors.surface");
            reveal_strlit("colors.overlay");
            reveal_strlit("fonts.family");
            reveal_strlit("fonts.mono_family");
            reveal_strlit("fonts.size");
            reveal_strlit("style.border_radius");
            reveal_strlit("style.opacity");
        }
        let ghost before = self.palette;
        match self.palette.colors.set_color(key, value) {
            Some(old_value) => {
                proof {
                    let i = choose|i: int| 0 <= i < 6 && key@ == color_keys()[i];
                    assert(appearance_rows()[i].0 == color_keys()[i]);
                    assert(appearance_index(key@) == Some(i));
                }
                return Ok(old_value);
            },
            None => {},
        }
        proof {
            assert forall|i: int| 0 <= i < 6 implies appearance_rows()[i].0 != key@ by {
                assert(appearance_rows()[i].0 == color_keys()[i]);
            }
        }
        let mut v = value.to_string();
        let index: usize = if str_eq(key, "fonts.family") {
            6
        } else if str_eq(key, "fonts.mono_family") {
            7
        } else if str_eq(key, "fonts.size") {
            8
        } else if str_eq(key, "style.border_radius") {
            9
        } else if str_eq(key, "style.opacity") {
            10
        } else {
            assert forall|i: int| 0 <= i < 11 implies appearance_rows()[i].0 != key@ by {}
            return Err(PanelError::UnknownKey(key.to_string()));
        };
        assert(appearance_rows()[index as int].0 == key@);
        assert(appearance_index(key@) == Some(index as int));
        if index >= 8 {
            match float_text {
                Some(t) => {
                    v = t;
                },
                None => {
                    return Err(PanelError::InvalidValue { key: key.to_string(), reason: "expected a number".to_string() });
                },
            }
        }
        if index == 6 {
            std::mem::swap(&mut self.palette.fonts.family, &mut v);
        } else if index == 7 {
            std::mem::swap(&mut self.palette.fonts.mono_family, &mut v);
        } else if index == 8 {
            std::mem::swap(&mut self.palette.fonts.size, &mut v);
        } else if index == 9 {
            std::mem::swap(&mut self.palette.style.border_radius, &mut v);
        } else {
            std::mem::swap(&mut self.palette.style.opacity, &mut v);
        }
        Ok(v)
    }

    /// Shows the palette's colors and font families in the pickers and
    /// font inputs (the first six pickers, as many as there are).
    fn sync_widgets_from_palette(&mut self)
        requires
            old(self).palette.colors.parse_safe(),
        ensures
            synced(old(self).color_pickers@, final(self).color_pickers@, old(self).palette),
            final(self).font_family == (TextInput { value: old(self).palette.fonts.family, ..old(self).font_family }),
            final(self).mono_family == (TextInput {
                value: old(self).palette.fonts.mono_family,
                ..old(self).mono_family
            }),
            final(self).palette == old(self).palette,
            final(self).preset_dropdown == old(self).preset_dropdown,
            final(self).dragging_picker == old(self).dragging_picker,
    {
        let n = self.color_pickers.len();
        let mut i: usize = 0;
        while i < n && i < 6
            invariant
                n == old(self).color_pickers@.len(),
                i <= n,
                i <= 6,
                self.palette == old(self).palette,
                self.palette.colors.parse_safe(),
                self.font_family == old(self).font_family,
                self.mono_family == old(self).mono_family,
                self.preset_dropdown == old(self).preset_dropdown,
                self.dragging_picker == old(self).dragging_picker,
                synced_below(old(self).color_pickers@, self.color_pickers@, old(self).palette, i as int),
            decreases n - i,
        {
            let hex = self.palette.colors.color_ref(i);
            assert(hex_parse_safe(self.palette.colors.color_at(i as int)));
            let color = picker_color_of(hex);
            let mut picker = self.color_pickers.remove(i);
            picker.set_color(color);
            self.color_pickers.insert(i, picker);
            i = i + 1;
        }
        assert(synced_below(old(self).color_pickers@, self.color_pickers@, old(self).palette, 6));
        self.font_family.value = self.palette.fonts.family.clone();
        self.mono_family.value = self.palette.fonts.mono_family.clone();
    }

    /// Switches to the preset `index` of `presets` and shows it in the
    /// pickers and font inputs (nothing happens past the end).
    pub fn apply_preset(&mut self, presets: Vec<Palette>, index: usize)
        requires
            index < presets@.len() ==> presets@[index as int].colors.parse_safe(),
        ensures
            final(self).preset_dropdown == old(self).preset_dropdown,
            final(self).dragging_picker == old(self).dragging_picker,
            index < presets@.len() ==> {
                let p = presets@[index as int];
                &&& final(self).palette == p
                &&& synced(old(self).color_pickers@, final(self).color_pickers@, p)
                &&& final(self).font_family == (TextInput { value: p.fonts.family, ..old(self).font_family })
                &&& final(self).mono_family == (TextInput { value: p.fonts.mono_family, ..old(self).mono_family })
            },
            index >= presets@.len() ==> {
                &&& final(self).palette == old(self).palette
                &&& final(self).color_pickers == old(self).color_pickers
                &&& final(self).font_family == old(self).font_family
                &&& final(self).mono_family == old(self).mono_family
            },
    {
        if index < presets.len() {
            let mut presets = presets;
            self.palette = presets.swap_remove(index);
            self.sync_widgets_from_palette();
        }
    }

    /// Marks the palette as no longer matching a preset: `Custom` is
    /// selected.
    pub fn mark_custom(&mut self)
        requires
            old(self).preset_dropdown.options@.len() > 0,
        ensures
            final(self).palette == old(self).palette,
            final(self).preset_dropdown.selected == old(self).preset_dropdown.options@.len() - 1,
            final(self).preset_dropdown.options == old(self).preset_dropdown.options,
            final(self).preset_dropdown.open == old(self).preset_dropdown.open,
            final(self).preset_dropdown.key == old(self).preset_dropdown.key,
            final(self).color_pickers == old(self).color_pickers,
            final(self).font_family == old(self).font_family,
            final(self).mono_family == old(self).mono_family,
            final(self).dragging_picker == old(self).dragging_picker,
    {
        self.preset_dropdown.selected = self.preset_dropdown.options.len() - 1;
    }
}

} // verus!
