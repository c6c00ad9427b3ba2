use hyprcube::hyprconf::HyprlandConfig;
use hyprcube::panels::{common_kb_layouts, normalize_is_safe, FieldType, HyprlandPanel, InputPanel, PanelError, SharedConfigs};

fn hyprland_panel_with_config(input: &str) -> HyprlandPanel {
    HyprlandPanel::with_arc(HyprlandConfig::parse(input).unwrap())
}

fn input_panel_with_config(input: &str) -> InputPanel {
    InputPanel::with_arc(HyprlandConfig::parse(input).unwrap())
}

#[test]
fn set_value_returns_old() {
    let mut panel = hyprland_panel_with_config("general {\n    gaps_in = 5\n}");
    let old = panel.set_value("gaps_in", "8").unwrap();
    assert_eq!(old, "5");
    let fields = panel.fields();
    let f = fields.iter().find(|f| f.key == "gaps_in").unwrap();
    assert_eq!(f.current_value, "8");
}

#[test]
fn fields_reflect_config() {
    let panel = hyprland_panel_with_config(
        "general {\n    gaps_in = 5\n    gaps_out = 10\n    border_size = 2\n    layout = dwindle\n}",
    );
    let fields = panel.fields();
    assert_eq!(fields.len(), 7);

    let gaps_in = fields.iter().find(|f| f.key == "gaps_in").unwrap();
    assert_eq!(gaps_in.current_value, "5");

    let layout = fields.iter().find(|f| f.key == "layout").unwrap();
    assert_eq!(layout.current_value, "dwindle");
}

#[test]
fn fields_have_section_tags() {
    let panel = hyprland_panel_with_config("general {\n    gaps_in = 5\n}");
    let fields = panel.fields();
    for f in &fields {
        assert_eq!(
            f.section.as_deref(),
            Some("general"),
            "field {} missing section",
            f.key
        );
    }
}

#[test]
fn fields_from_config() {
    let panel = input_panel_with_config(
        "input {\n    kb_layout = us\n    sensitivity = 0.5\n    touchpad {\n        natural_scroll = true\n    }\n}",
    );
    let fields = panel.fields();
    assert_eq!(fields.len(), 7);

    let kb = fields.iter().find(|f| f.key == "kb_layout").unwrap();
    assert_eq!(kb.current_value, "us");
    assert_eq!(kb.section.as_deref(), Some("input"));

    let ns = fields
        .iter()
        .find(|f| f.key == "touchpad.natural_scroll")
        .unwrap();
    assert_eq!(ns.current_value, "true");
    assert_eq!(ns.section.as_deref(), Some("input:touchpad"));
}

#[test]
fn border_colors_are_shown_in_hex() {
    let panel = hyprland_panel_with_config("general {\n    col.active_border = rgba(89b4faee)\n}");
    assert!(panel.can_show());
    let fields = panel.fields();
    let active = fields.iter().find(|f| f.key == "col.active_border").unwrap();
    assert_eq!(active.current_value, "#89b4faee");
    assert_eq!(active.original_value.as_deref(), Some("#89b4faee"));
    assert!(matches!(active.field_type, FieldType::Color));
    let inactive = fields.iter().find(|f| f.key == "col.inactive_border").unwrap();
    assert_eq!(inactive.current_value, "");
    assert_eq!(inactive.original_value, None);
}

#[test]
fn unreadable_colors_are_refused_before_showing() {
    let panel = hyprland_panel_with_config("general {\n    col.active_border = a\u{e9}bcd\n}");
    assert!(!panel.can_show());
    assert!(!normalize_is_safe("a\u{e9}bcd"));
    assert!(normalize_is_safe("\u{e9}bcdef"));
    assert!(normalize_is_safe("#12345g"));
}

#[test]
fn keyboard_layouts_offer_common_codes() {
    let layouts = common_kb_layouts();
    assert_eq!(layouts.len(), 45);
    assert_eq!(layouts[0], ("us".to_string(), "English (US)".to_string()));
    let panel = input_panel_with_config("");
    let fields = panel.fields();
    assert!(matches!(&fields[0].field_type, FieldType::SearchableChoice { options } if options.len() == 45));
    assert!(matches!(&fields[2].field_type, FieldType::Float { min: Some(lo), max: Some(hi) } if lo == "-1" && hi == "1"));
    assert_eq!(fields[5].original_value, None);
}

#[test]
fn set_value_unknown_key() {
    let mut panel = hyprland_panel_with_config("");
    let err = panel.set_value("nonexistent", "val").unwrap_err();
    assert!(matches!(err, PanelError::UnknownKey(_)));
}

#[test]
fn set_input_value() {
    let mut panel = input_panel_with_config("input {\n    sensitivity = 0.0\n}");
    let old = panel.set_value("sensitivity", "0.5").unwrap();
    assert_eq!(old, "0.0");
}

#[test]
fn set_touchpad_value() {
    let mut panel =
        input_panel_with_config("input {\n    touchpad {\n        natural_scroll = false\n    }\n}");
    let old = panel.set_value("touchpad.natural_scroll", "true").unwrap();
    assert_eq!(old, "false");
    let fields = panel.fields();
    let ns = fields
        .iter()
        .find(|f| f.key == "touchpad.natural_scroll")
        .unwrap();
    assert_eq!(ns.current_value, "true");
}

#[test]
fn new_falls_back_to_empty_config() {
    let panel = HyprlandPanel::new(None);
    assert!(panel.config.items.is_empty());
    let panel = InputPanel::new(Some(HyprlandConfig::parse("input {\n}").unwrap()));
    assert_eq!(panel.config.items.len(), 1);
}

#[test]
fn color_value_is_written_in_rgba_form() {
    let mut panel = hyprland_panel_with_config(
        "general {\n    col.active_border = rgba(89b4faee)\n}",
    );
    let old = panel.set_value("col.active_border", "#ff000080").unwrap();
    assert_eq!(old, "#89b4faee");
    assert_eq!(
        panel.config.get_in_section("general", "col.active_border"),
        Some("rgba(ff000080)")
    );
}

#[test]
fn hyprland_and_input_panels_share_one_config() {
    let mut shared = SharedConfigs::new(Some(HyprlandConfig::parse("").unwrap()));
    assert_eq!(shared.set_hyprland_value("gaps_in", "5").unwrap(), "");
    assert_eq!(shared.set_input_value("kb_layout", "de").unwrap(), "");
    assert_eq!(shared.hyprland.get_in_section("general", "gaps_in"), Some("5"));
    assert_eq!(shared.hyprland.get_in_section("input", "kb_layout"), Some("de"));
    let rows = shared.input_fields();
    let kb = rows.iter().find(|f| f.key == "kb_layout").unwrap();
    assert_eq!(kb.current_value, "de");
    let rows = shared.hyprland_fields();
    let gaps = rows.iter().find(|f| f.key == "gaps_in").unwrap();
    assert_eq!(gaps.current_value, "5");
}
