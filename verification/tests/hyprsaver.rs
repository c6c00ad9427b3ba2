use hyprcube::hyprsaver::{
    display_value, named_items, parse_field_value, playlist_items, theme_wallpaper_plan,
    HyprsaverPanel,
};
use hyprcube::panels::PanelError;
use hyprcube::toml_model::{set_path, TomlTable, TomlValue};

fn as_integer(v: Option<&TomlValue>) -> Option<i64> {
    match v {
        Some(TomlValue::Integer(n)) => Some(*n),
        _ => None,
    }
}

fn as_bool(v: Option<&TomlValue>) -> Option<bool> {
    match v {
        Some(TomlValue::Boolean(b)) => Some(*b),
        _ => None,
    }
}

fn as_str(v: Option<&TomlValue>) -> Option<&str> {
    match v {
        Some(TomlValue::String(s)) => Some(s.as_str()),
        _ => None,
    }
}

fn array_len(v: Option<&TomlValue>) -> Option<usize> {
    match v {
        Some(TomlValue::Array(items)) => Some(items.len()),
        _ => None,
    }
}

#[test]
fn exposes_native_general_and_behavior_options() {
    let mut table = TomlTable::new();
    assert!(set_path(&mut table, "general.fps", TomlValue::Integer(30), false).is_none());
    let panel = HyprsaverPanel::with_config(table);
    let fields = panel.fields();
    assert!(fields.iter().any(|field| field.key == "general.shader"));
    assert!(fields.iter().any(|field| field.key == "behavior.fade_in_ms"));
    assert!(fields.iter().any(|field| field.key == "_preview"));
    assert!(fields.iter().any(|field| field.key == "hyprcube_override.palette"));
}

#[test]
fn set_value_preserves_native_toml_types() {
    let mut panel = HyprsaverPanel::with_config(TomlTable::new());
    panel.set_value("general.fps", "60", None).unwrap();
    panel.set_value("general.synced", "false", None).unwrap();
    panel.set_value("behavior.dismiss_on", "key, mouse_click", None).unwrap();
    assert_eq!(as_integer(panel.value("general.fps")), Some(60));
    assert_eq!(as_bool(panel.value("general.synced")), Some(false));
    assert_eq!(array_len(panel.value("behavior.dismiss_on")), Some(2));
}

#[test]
fn enabled_override_updates_general_selection() {
    let mut panel = HyprsaverPanel::with_config(TomlTable::new());
    panel.set_value("hyprcube_override.enabled", "true", None).unwrap();
    panel.set_value("hyprcube_override.palette", "aurora", None).unwrap();
    panel.apply_override().unwrap();
    assert_eq!(as_str(panel.value("general.palette")), Some("aurora"));
}

#[test]
fn disabled_or_inherited_overrides_change_nothing() {
    let mut panel = HyprsaverPanel::with_config(TomlTable::new());
    panel.set_value("hyprcube_override.palette", "aurora", None).unwrap();
    panel.apply_override().unwrap();
    assert!(panel.value("general.palette").is_none());
    panel.set_value("hyprcube_override.enabled", "true", None).unwrap();
    panel.set_value("hyprcube_override.palette", "inherit", None).unwrap();
    panel.apply_override().unwrap();
    assert!(panel.value("general.palette").is_none());
}

#[test]
fn fields_show_values_or_defaults() {
    let mut panel = HyprsaverPanel::with_config(TomlTable::new());
    let fields = panel.fields();
    assert_eq!(fields.len(), 22);
    assert_eq!(fields[1].key, "general.fps");
    assert_eq!(fields[1].current_value, "30");
    assert_eq!(fields[1].original_value, None);
    let old = panel.set_value("general.fps", "45", None).unwrap();
    assert_eq!(old, "");
    let old = panel.set_value("general.fps", "50", None).unwrap();
    assert_eq!(old, "45");
    panel.set_value("playlists.zen.shaders", "a, , b", None).unwrap();
    panel.set_value("playlists.calm.palettes", "x", None).unwrap();
    let fields = panel.fields();
    assert_eq!(fields.len(), 26);
    assert_eq!(fields[1].current_value, "50");
    assert_eq!(fields[22].key, "playlists.calm.shaders");
    assert_eq!(fields[22].current_value, "all");
    assert_eq!(fields[23].current_value, "x");
    assert_eq!(fields[24].key, "playlists.zen.shaders");
    assert_eq!(fields[24].current_value, "a, b");
    assert!(fields[24].dirty);
}

#[test]
fn unavailable_configuration_is_reported() {
    let mut panel = HyprsaverPanel::new(None, false, true, Vec::new(), Vec::new(), Vec::new(), Vec::new());
    let fields = panel.fields();
    assert_eq!(fields.len(), 1);
    assert_eq!(fields[0].key, "_unavailable");
    assert!(matches!(
        panel.set_value("general.fps", "30", None),
        Err(PanelError::Config(m)) if m == "HyprSaver configuration is unavailable"
    ));
    let missing = HyprsaverPanel::new(None, true, true, Vec::new(), Vec::new(), Vec::new(), Vec::new());
    assert!(missing.config.is_some());
}

#[test]
fn invalid_values_are_refused() {
    let mut panel = HyprsaverPanel::with_config(TomlTable::new());
    assert!(matches!(
        panel.set_value("general.fps", "fast", None),
        Err(PanelError::InvalidValue { reason, .. }) if reason == "expected a whole number"
    ));
    assert!(matches!(
        panel.set_value("general.synced", "yes", None),
        Err(PanelError::InvalidValue { reason, .. }) if reason == "expected true or false"
    ));
    assert!(matches!(
        panel.set_value("general.palette_transition_duration", "slow", None),
        Err(PanelError::InvalidValue { reason, .. }) if reason == "expected a number"
    ));
    assert!(panel.set_value("general.palette_transition_duration", "2.5", Some("2.5".into())).is_ok());
    assert!(matches!(panel.set_value("_other", "x", None), Err(PanelError::UnknownKey(k)) if k == "_other"));
    assert_eq!(panel.set_value("_preview", "", None).unwrap(), "");
    assert!(!panel.has_unsaved_changes() || panel.dirty);
}

#[test]
fn nested_value_under_a_string_is_refused() {
    let mut panel = HyprsaverPanel::with_config(TomlTable::new());
    panel.set_value("general", "flat", None).unwrap();
    assert!(matches!(
        panel.set_value("general.fps", "30", None),
        Err(PanelError::Config(m)) if m == "`general` must be a table"
    ));
}

#[test]
fn values_are_shown_as_text() {
    assert_eq!(display_value(&TomlValue::Integer(-42)), "-42");
    assert_eq!(display_value(&TomlValue::Boolean(true)), "true");
    let list = TomlValue::Array(vec![TomlValue::String("key".into()), TomlValue::Integer(3)]);
    assert_eq!(display_value(&list), "key, 3");
    assert!(matches!(parse_field_value("general.fps", "-7", None), Ok(TomlValue::Integer(-7))));
    assert!(matches!(parse_field_value("general.shader", "plasma", None), Ok(TomlValue::String(s)) if s == "plasma"));
}

#[test]
fn listed_items_and_playlists() {
    let special = vec!["cycle", "random"];
    let out = "Shaders:\n  plasma   Classic plasma\n  (user shaders)\n  cycle  again\nnoindent\n";
    let items = named_items(&special, out.as_bytes());
    assert_eq!(items.len(), 3);
    assert_eq!(items[2], ("plasma".to_string(), "plasma   Classic plasma".to_string()));
    let pl = playlist_items(b"calm: a, b\nbad name: x\n: y\ncalm: again\n");
    assert_eq!(pl, vec![
        ("default".to_string(), "default".to_string()),
        ("calm".to_string(), "calm:  a, b".to_string())
    ]);
}

#[test]
fn theme_wallpaper_plan_sources_the_theme_file() {
    let monitors = vec!["DP-1".to_string()];
    let plan = theme_wallpaper_plan(Some("/w.png"), "ipc = true\n", &monitors);
    assert_eq!(
        plan.root.as_deref(),
        Some("ipc = true\n# Active HyprCube theme wallpaper override\nsource = ~/.config/hypr/hyprpaper-hyprcube-theme.conf\n")
    );
    assert_eq!(
        plan.theme,
        "# HyprCube theme wallpaper override\n\nwallpaper {\n    monitor = DP-1\n    path = /w.png\n    fit_mode = cover\n}\n"
    );
    assert_eq!(plan.assignments, vec!["DP-1, /w.png, cover".to_string()]);
    let root = plan.root.unwrap();
    let off = theme_wallpaper_plan(None, &root, &monitors);
    assert_eq!(off.root.as_deref(), Some("ipc = true\n"));
    assert_eq!(off.theme, "# HyprCube theme wallpaper override disabled\n");
    assert!(off.assignments.is_empty());
    assert_eq!(theme_wallpaper_plan(None, "ipc = true\n", &monitors).root, None);
    let any = theme_wallpaper_plan(Some("/w.png"), "", &Vec::new());
    assert!(any.theme.contains("    monitor =\n"));
}

#[test]
fn hyprsaver_is_available_when_installed_or_configured() {
    let panel = HyprsaverPanel::new(None, true, false, Vec::new(), Vec::new(), Vec::new(), Vec::new());
    assert!(!panel.available(false));
    assert!(panel.available(true));
    assert!(HyprsaverPanel::with_config(TomlTable::new()).available(false));
}

#[test]
fn save_notice_points_to_preview() {
    let panel = HyprsaverPanel::new(None, true, true, Vec::new(), Vec::new(), Vec::new(), Vec::new());
    assert_eq!(
        panel.save_notice(),
        "HyprSaver settings saved. Open the live preview to inspect them."
    );
}
