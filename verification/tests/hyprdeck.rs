use hyprcube::hyprdeck::{
    check_contract_version, interpret_validation_result, module_key, parse_module_key, toml_text,
    value_string, ConfigDiagnostic, ConfigField, ConfigFieldType, ConfigSchema, FieldSpec,
    FloatCheck, HyprdeckPanel, ModuleConfigSchema, ThemeMetadata,
};
use hyprcube::panels::{FieldType, PanelError};
use hyprcube::toml_model::{get_path, TomlTable, TomlValue};

fn field(key: &str, label: &str, description: &str, field_type: ConfigFieldType) -> ConfigField {
    ConfigField {
        key: key.to_string(),
        label: label.to_string(),
        description: description.to_string(),
        field_type,
    }
}

fn schema() -> ConfigSchema {
    ConfigSchema {
        contract_version: 1,
        fields: vec![
            field(
                "theme",
                "Theme",
                "Theme choice",
                ConfigFieldType::Choice {
                    options: vec!["win7".to_string(), "gnome_classic".to_string()],
                    default: "win7".to_string(),
                },
            ),
            field(
                "theme_overrides.bar_opacity",
                "Bar opacity",
                "Theme override",
                ConfigFieldType::Float {
                    default: "1.0".to_string(),
                    min: Some("0.0".to_string()),
                    max: Some("1.0".to_string()),
                },
            ),
        ],
        themes: vec![
            ThemeMetadata {
                id: "win7".to_string(),
                name: "Windows 7".to_string(),
                description: String::new(),
                modules: vec!["clock".to_string()],
            },
            ThemeMetadata {
                id: "gnome_classic".to_string(),
                name: "Classic GNOME".to_string(),
                description: String::new(),
                modules: vec!["clock".to_string()],
            },
        ],
        modules: vec![ModuleConfigSchema {
            module_id: "clock".to_string(),
            fields: vec![
                field(
                    "format",
                    "Format",
                    "Clock format",
                    ConfigFieldType::Text { default: "%H:%M".to_string() },
                ),
                field(
                    "show_seconds",
                    "Seconds",
                    "Show seconds",
                    ConfigFieldType::Boolean { default: false },
                ),
                field(
                    "commands.refresh",
                    "Refresh command",
                    "Nested module field",
                    ConfigFieldType::Text { default: "true".to_string() },
                ),
            ],
        }],
    }
}

fn panel() -> HyprdeckPanel {
    let mut config = TomlTable::new();
    config.insert("theme".to_string(), TomlValue::String("win7".to_string()));
    HyprdeckPanel::with_parts(config, schema())
}

/// What the application reports of an edited number against the bounds
/// 0.0 ..= 1.0, as it does before handing the text to the panel.
fn unit_check(value: &str) -> FloatCheck {
    match value.trim().parse::<f64>() {
        Ok(n) if n.is_finite() && (0.0..=1.0).contains(&n) => FloatCheck::Number(format!("{n:?}")),
        Ok(n) if n.is_finite() => FloatCheck::OutOfRange,
        _ => FloatCheck::NotANumber,
    }
}

fn as_str(v: Option<&TomlValue>) -> Option<&str> {
    match v {
        Some(TomlValue::String(s)) => Some(s.as_str()),
        _ => None,
    }
}

fn as_bool(v: Option<&TomlValue>) -> Option<bool> {
    match v {
        Some(TomlValue::Boolean(b)) => Some(*b),
        _ => None,
    }
}

fn as_float_text(v: Option<&TomlValue>) -> Option<&str> {
    match v {
        Some(TomlValue::Float(s)) => Some(s.as_str()),
        _ => None,
    }
}

fn config_message(e: PanelError) -> String {
    match e {
        PanelError::Config(m) => m,
        other => panic!("unexpected error {other:?}"),
    }
}

#[test]
fn exposes_contract_module_fields_with_defaults() {
    let fields = panel().fields();
    let theme = fields.iter().find(|field| field.key == "theme").unwrap();
    assert!(matches!(&theme.field_type, FieldType::Choice { options }
        if options.iter().map(String::as_str).eq(["win7", "gnome_classic"])));
    let format = fields
        .iter()
        .find(|field| field.key == "module:clock:format")
        .unwrap();
    assert_eq!(format.current_value, "%H:%M");
    assert_eq!(format.original_value, None);
    assert!(fields
        .iter()
        .any(|field| field.key == "theme_overrides.bar_opacity"));
}

#[test]
fn writes_values_with_toml_types() {
    let mut panel = panel();
    panel.set_value("theme", "gnome_classic", unit_check("gnome_classic")).unwrap();
    panel
        .set_value("module:clock:show_seconds", "true", unit_check("true"))
        .unwrap();
    panel
        .set_value("theme_overrides.bar_opacity", "0.75", unit_check("0.75"))
        .unwrap();
    panel
        .set_value("module:clock:commands.refresh", "hyprctl reload", unit_check("hyprctl reload"))
        .unwrap();
    let config = panel.config.as_ref().unwrap();
    assert_eq!(as_str(get_path(config, "theme")), Some("gnome_classic"));
    assert_eq!(as_bool(get_path(config, "modules.clock.show_seconds")), Some(true));
    assert_eq!(
        as_float_text(get_path(config, "theme_overrides.bar_opacity"))
            .map(|t| t.parse::<f64>().unwrap()),
        Some(0.75)
    );
    assert_eq!(
        as_str(get_path(config, "modules.clock.commands.refresh")),
        Some("hyprctl reload")
    );
}

#[test]
fn rejects_invalid_schema_typed_values() {
    let mut panel = panel();
    assert!(panel
        .set_value("module:clock:show_seconds", "yes", unit_check("yes"))
        .is_err());
    assert!(panel
        .set_value("theme_overrides.bar_opacity", "1.5", unit_check("1.5"))
        .is_err());
}

#[test]
fn validation_reports_structured_stdout_diagnostics_on_failure() {
    let diagnostics = vec![ConfigDiagnostic {
        severity: "error".to_string(),
        path: "theme".to_string(),
        message: "unknown theme".to_string(),
    }];
    let error = interpret_validation_result(false, Some(diagnostics), b"").unwrap_err();
    assert!(config_message(error).contains("theme: unknown theme"));
}

#[test]
fn malformed_config_remains_visible_as_an_error() {
    let panel = HyprdeckPanel::new(
        None,
        Some("TOML parse error at line 1, column 9".to_string()),
        Ok(schema()),
    );
    assert!(panel.available());
    assert_eq!(panel.fields()[0].key, "_config_invalid");
}

#[test]
fn module_keys_round_trip() {
    let key = module_key("clock", "commands.refresh");
    assert_eq!(key, "module:clock:commands.refresh");
    assert_eq!(
        parse_module_key(&key),
        Some(("clock".to_string(), "commands.refresh".to_string()))
    );
    assert_eq!(parse_module_key("theme"), None);
    assert_eq!(parse_module_key("module:clock"), None);
}

#[test]
fn setting_a_value_returns_the_previous_display_and_marks_dirty() {
    let mut panel = panel();
    assert!(!panel.has_unsaved_changes());
    let old = panel.set_value("theme", "gnome_classic", FloatCheck::NotANumber).unwrap();
    assert_eq!(old, "win7");
    assert!(panel.has_unsaved_changes());
    let old = panel
        .set_value("module:clock:format", "%H", FloatCheck::NotANumber)
        .unwrap();
    assert_eq!(old, "%H:%M");
}

#[test]
fn unknown_keys_and_choices_are_refused() {
    let mut panel = panel();
    assert!(matches!(
        panel.set_value("no_such_key", "1", FloatCheck::NotANumber),
        Err(PanelError::UnknownKey(_))
    ));
    assert!(matches!(
        panel.set_value("theme", "plasma", FloatCheck::NotANumber),
        Err(PanelError::InvalidValue { .. })
    ));
    assert!(matches!(
        panel.set_value("theme_overrides.bar_opacity", "abc", FloatCheck::NotANumber),
        Err(PanelError::InvalidValue { .. })
    ));
    assert!(!panel.has_unsaved_changes());
}

#[test]
fn status_rows_when_parts_are_missing() {
    let missing = HyprdeckPanel::new(None, None, Ok(schema()));
    assert!(!missing.available());
    assert_eq!(missing.fields()[0].key, "_not_installed");
    let no_schema = HyprdeckPanel::new(
        Some(TomlTable::new()),
        None,
        Err("hyprdeck not found".to_string()),
    );
    let fields = no_schema.fields();
    assert_eq!(fields.len(), 1);
    assert_eq!(fields[0].key, "_schema_unavailable");
    assert_eq!(
        fields[0].label,
        "Could not load HyprDeck configuration schema: hyprdeck not found"
    );
}

#[test]
fn validation_outcomes_without_diagnostics() {
    assert!(interpret_validation_result(true, Some(Vec::new()), b"").is_ok());
    assert_eq!(
        config_message(interpret_validation_result(true, None, b"").unwrap_err()),
        "HyprDeck returned invalid validation JSON"
    );
    assert_eq!(
        config_message(interpret_validation_result(false, None, b"  boom \n").unwrap_err()),
        "HyprDeck validation failed: boom"
    );
    assert_eq!(
        config_message(interpret_validation_result(false, Some(Vec::new()), b"").unwrap_err()),
        "HyprDeck validation failed without error diagnostics"
    );
}

#[test]
fn contract_version_is_checked() {
    assert!(check_contract_version(1).is_ok());
    assert!(check_contract_version(2).is_err());
}

#[test]
fn values_render_as_toml() {
    assert_eq!(toml_text(&TomlValue::String("gnome".to_string())), "\"gnome\"");
    assert_eq!(
        toml_text(&TomlValue::Array(vec![TomlValue::Integer(1), TomlValue::Boolean(false)])),
        "[1, false]"
    );
    assert_eq!(value_string(&TomlValue::String("plain".to_string())), "plain");
    assert_eq!(value_string(&TomlValue::Integer(-3)), "-3");
    assert_eq!(value_string(&TomlValue::Boolean(true)), "true");
}

#[test]
fn field_specs_follow_the_schema() {
    let spec = FieldSpec::from_schema(&ConfigFieldType::Integer { default: 4, min: Some(1), max: Some(9) });
    assert_eq!(spec.default_string(), "4");
    assert!(spec.parse("12", "k", FloatCheck::NotANumber).is_err());
    assert!(matches!(spec.parse("7", "k", FloatCheck::NotANumber), Ok(TomlValue::Integer(7))));
}

#[test]
fn save_notice_asks_for_restart() {
    let panel = HyprdeckPanel::new(None, None, Ok(schema()));
    assert_eq!(panel.save_notice(), "Restart HyprDeck to apply these settings.");
}
