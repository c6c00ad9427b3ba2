use hyprcube::color::HexColor;
use hyprcube::palette::{AppearancePanel, Palette};
use hyprcube::panels::{FieldType, PanelError};

fn preset_names() -> Vec<String> {
    ["Catppuccin Mocha", "Catppuccin Latte", "Nord", "Gruvbox Dark", "Tokyo Night", "Dracula"]
        .iter()
        .map(|s| s.to_string())
        .collect()
}

fn panel() -> AppearancePanel {
    AppearancePanel::with_arc(Palette::default(), preset_names())
}

/// The text of a number as the panel stores it, when `value` is one.
fn number_text(value: &str) -> Option<String> {
    value.parse::<f64>().ok().map(|n| n.to_string())
}

#[test]
fn default_palette_fields() {
    let panel = panel();
    let fields = panel.fields();
    assert_eq!(fields.len(), 11);
    let bg = fields
        .iter()
        .find(|f| f.key == "colors.background")
        .unwrap();
    assert_eq!(bg.current_value, "#1e1e2e");
}

#[test]
fn set_color_value() {
    let mut panel = panel();
    let old = panel.set_value("colors.accent", "#ff0000", number_text("#ff0000")).unwrap();
    assert_eq!(old, "#89b4fa");
    assert_eq!(panel.palette.colors.accent, "#ff0000");
}

#[test]
fn set_float_value() {
    let mut panel = panel();
    let old = panel.set_value("style.opacity", "0.95", number_text("0.95")).unwrap();
    assert_eq!(old, "0.85");
    assert!((panel.palette.style.opacity.parse::<f64>().unwrap() - 0.95).abs() < f64::EPSILON);
}

#[test]
fn set_invalid_float() {
    let mut panel = panel();
    let err = panel
        .set_value("fonts.size", "not_a_number", number_text("not_a_number"))
        .unwrap_err();
    assert!(matches!(err, PanelError::InvalidValue { .. }));
    assert_eq!(panel.palette, Palette::default());
}

#[test]
fn preset_dropdown_has_seven_options() {
    let panel = panel();
    assert_eq!(panel.preset_dropdown.options.len(), 7);
    assert_eq!(panel.preset_dropdown.options.last().unwrap(), "Custom");
}

#[test]
fn apply_nord_preset_changes_background() {
    let mut panel = panel();
    let mut presets = vec![Palette::default(); 6];
    presets[2].colors.background = "#2e3440".to_string();
    panel.apply_preset(presets, 2);
    assert_eq!(panel.palette.colors.background, "#2e3440");
}

#[test]
fn preset_past_the_end_changes_nothing() {
    let mut panel = panel();
    panel.apply_preset(vec![Palette::default()], 4);
    assert_eq!(panel.palette, Palette::default());
    panel.mark_custom();
    assert_eq!(panel.preset_dropdown.selected, 6);
}

#[test]
fn appearance_fields_show_types_and_text_values() {
    let panel = panel();
    let fields = panel.fields();
    assert!(fields[..6].iter().all(|f| matches!(f.field_type, FieldType::Color)));
    assert!(matches!(&fields[8].field_type, FieldType::Float { min: Some(lo), max: Some(hi) } if lo == "6" && hi == "48"));
    assert_eq!(fields[8].current_value, "14");
    assert_eq!(fields[10].original_value.as_deref(), Some("0.85"));
    assert_eq!(fields[7].current_value, "JetBrains Mono");
}

#[test]
fn appearance_unknown_keys_are_refused() {
    let mut panel = panel();
    assert!(matches!(panel.set_value("colors.nope", "#000", None), Err(PanelError::UnknownKey(k)) if k == "colors.nope"));
    let old = panel.set_value("fonts.family", "Fira Sans", None).unwrap();
    assert_eq!(old, "Inter");
    assert_eq!(panel.palette.fonts.family, "Fira Sans");
}

#[test]
fn six_color_pickers_created() {
    let panel = panel();
    assert_eq!(panel.color_pickers.len(), 6);
}

#[test]
fn dragging_picker_starts_none() {
    let panel = panel();
    assert!(panel.dragging_picker.is_none());
}

#[test]
fn pickers_and_font_inputs_show_the_palette() {
    let mut palette = Palette::default();
    palette.colors.urgent = "not a color".to_string();
    let panel = AppearancePanel::with_arc(palette, preset_names());
    let keys: Vec<&str> = panel.color_pickers.iter().map(|p| p.key.as_str()).collect();
    assert_eq!(
        keys,
        vec![
            "colors.background",
            "colors.foreground",
            "colors.accent",
            "colors.urgent",
            "colors.surface",
            "colors.overlay"
        ]
    );
    assert_eq!(panel.color_pickers[0].value, HexColor { r: 0x1e, g: 0x1e, b: 0x2e, a: 255 });
    assert_eq!(panel.color_pickers[0].hex_input, "#1e1e2e");
    // Text that is no color shows mid gray.
    assert_eq!(panel.color_pickers[3].hex_input, "#808080");
    assert_eq!(panel.font_family.value, "Inter");
    assert_eq!(panel.mono_family.value, "JetBrains Mono");
}

#[test]
fn preset_updates_pickers_and_font_inputs() {
    let mut panel = panel();
    panel.color_pickers[0].expanded = true;
    let mut presets = vec![Palette::default(); 6];
    presets[2].colors.background = "#2e3440".to_string();
    presets[2].fonts.family = "Noto Sans".to_string();
    panel.apply_preset(presets, 2);
    assert_eq!(panel.color_pickers[0].hex_input, "#2e3440");
    assert!(panel.color_pickers[0].expanded);
    assert_eq!(panel.font_family.value, "Noto Sans");
    // Editing a setting leaves the widgets as they are.
    panel.set_value("colors.background", "#000000", None).unwrap();
    assert_eq!(panel.color_pickers[0].hex_input, "#2e3440");
}
