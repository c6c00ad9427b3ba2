use hyprcube::cli::{parse, CliArgs, CliOutcome};
use hyprcube::config::AppConfig;
use hyprcube::ipc::{config_errors_message, dispatch_request, get_option_request, json_request, keyword_request, missing_socket_variable, IpcError};
use hyprcube::palette::PaletteColors;
use hyprcube::preview::{PreviewEngine, PreviewError};
use hyprcube::registry::{find_by_title, PanelRegistry};
use hyprcube::wayland::{is_escape, keysym_name};

fn args(v: &[&str]) -> Vec<String> {
    v.iter().map(|s| s.to_string()).collect()
}

#[test]
fn cli_reads_options() {
    assert_eq!(
        parse(&args(&["--panel", "Display", "--daemon"])),
        CliOutcome::Run(CliArgs { panel: Some("Display".into()), daemon: true, reset_config: false })
    );
    assert_eq!(parse(&args(&["-V"])), CliOutcome::Version("hyprcube 0.1.0".into()));
    assert_eq!(parse(&args(&["--version", "--bogus"])), CliOutcome::Version("hyprcube 0.1.0".into()));
    match parse(&args(&["--help"])) {
        CliOutcome::Help(h) => assert!(h.starts_with("hyprcube 0.1.0")),
        other => panic!("unexpected {other:?}"),
    }
    assert_eq!(
        parse(&args(&["--panel"])),
        CliOutcome::Error(vec!["error: --panel requires a panel name".into()])
    );
    assert_eq!(
        parse(&args(&["--reset-config", "--what"])),
        CliOutcome::Error(vec![
            "error: unknown argument: --what".into(),
            "try 'hyprcube --help' for usage".into()
        ])
    );
}

#[test]
fn app_config_defaults() {
    let c = AppConfig::load(None);
    assert_eq!(c.palette, "default");
    assert_eq!((c.window_width, c.window_height, c.last_panel, c.live_preview), (900, 640, 0, true));
    let mut d = AppConfig::default();
    d.last_panel = 3;
    assert_eq!(AppConfig::load(Some(d.clone())), d);
}

#[test]
fn ipc_requests() {
    assert_eq!(keyword_request("general:gaps_in", "5"), "keyword general:gaps_in 5");
    assert_eq!(json_request("monitors"), "j/monitors");
    assert_eq!(get_option_request("general:gaps_in"), "j/getoption general:gaps_in");
    assert_eq!(dispatch_request("exit"), "dispatch exit");
    assert!(matches!(missing_socket_variable(false, true), Some(IpcError::EnvMissing(v)) if v == "XDG_RUNTIME_DIR"));
    assert!(matches!(missing_socket_variable(true, false), Some(IpcError::EnvMissing(v)) if v == "HYPRLAND_INSTANCE_SIGNATURE"));
    assert!(missing_socket_variable(true, true).is_none());
    assert_eq!(
        config_errors_message(Some(vec![Some("a".into()), None, Some("b".into())])),
        Some("a; b".to_string())
    );
    assert_eq!(config_errors_message(Some(Vec::new())), None);
    assert_eq!(config_errors_message(None), None);
}

#[test]
fn preview_records_and_reverts_newest_first() {
    let mut p = PreviewEngine::new(true);
    assert_eq!(
        p.apply_preview(Some("general"), "gaps_in", "8", "5"),
        Some(("general:gaps_in".to_string(), "8".to_string()))
    );
    assert_eq!(p.apply_preview(None, "colors.accent", "#fff", "#000"), None);
    p.apply_preview(Some("input:touchpad"), "natural_scroll", "true", "false");
    assert!(p.is_dirty());
    assert_eq!(
        p.revert_all(),
        vec![
            ("input:touchpad:natural_scroll".to_string(), "false".to_string()),
            ("general:gaps_in".to_string(), "5".to_string())
        ]
    );
    assert!(!p.is_dirty());
    assert!(p.reload_hyprland().is_ok());
}

#[test]
fn preview_without_socket_still_records() {
    let mut p = PreviewEngine::new(false);
    assert_eq!(p.apply_preview(Some("general"), "gaps_in", "8", "5"), None);
    assert!(p.is_dirty());
    assert!(matches!(p.reload_hyprland(), Err(PreviewError::NotConnected)));
    assert!(p.revert_all().is_empty());
    assert!(!p.is_dirty());
    p.apply_preview(Some("general"), "gaps_in", "8", "5");
    p.commit();
    assert!(!p.is_dirty());
}

#[test]
fn keysym_names() {
    assert_eq!(keysym_name(0xff08), "BackSpace");
    assert_eq!(keysym_name(0xff8d), "Return");
    assert_eq!(keysym_name(0x61), "0x00000061");
}

#[test]
fn palette_color_setting() {
    let mut c = PaletteColors::default_colors();
    assert_eq!(c.accent, "#89b4fa");
    assert_eq!(c.set_color("colors.accent", "#ffffff"), Some("#89b4fa".to_string()));
    assert_eq!(c.accent, "#ffffff");
    assert_eq!(c.set_color("fonts.size", "12"), None);
}

#[test]
fn panels_found_by_title_ignoring_case() {
    let titles = vec!["Appearance".to_string(), "Hyprland".to_string(), "Display".to_string()];
    assert_eq!(find_by_title(&titles, "display"), Some(2));
    assert_eq!(find_by_title(&titles, "HYPRLAND"), Some(1));
    assert_eq!(find_by_title(&titles, "Missing"), None);
}

#[test]
fn escape_is_recognised_by_keysym() {
    assert!(is_escape(0xff1b));
    assert!(!is_escape(0xff0d));
}

#[test]
fn registry_lists_optional_panels_when_available() {
    let full = PanelRegistry::new(true, true, true);
    assert_eq!(full.len(), 9);
    let none = PanelRegistry::new(false, false, false);
    let panels = none.available_panels();
    let titles: Vec<&str> = panels.iter().map(|(_, t, _)| t.as_str()).collect();
    assert_eq!(titles, vec!["Appearance", "Hyprland", "Input", "Display", "History", "About"]);
    assert_eq!(panels[5], (5, "About".to_string(), "help-about".to_string()));
    let deck_only = PanelRegistry::new(false, true, false);
    assert_eq!(deck_only.find_by_title("hyprdeck"), Some(4));
    assert_eq!(deck_only.find_by_title("HyprSaver"), None);
}

#[test]
fn registry_switches_the_active_panel() {
    let mut registry = PanelRegistry::new(true, false, true);
    assert_eq!(registry.active_index(), 0);
    registry.set_active(3);
    assert_eq!(registry.active_index(), 3);
}

#[test]
fn registry_start_panel_by_name_or_last_session() {
    let mut registry = PanelRegistry::new(false, false, false);
    let mut last = 2;
    assert!(registry.show_at_start(Some("history"), &mut last));
    assert_eq!((registry.active_index(), last), (4, 4));

    let mut registry = PanelRegistry::new(false, false, false);
    let mut last = 2;
    assert!(!registry.show_at_start(Some("HyprDeck"), &mut last));
    assert_eq!((registry.active_index(), last), (0, 2));

    let mut registry = PanelRegistry::new(false, false, false);
    let mut last = 3;
    assert!(registry.show_at_start(None, &mut last));
    assert_eq!((registry.active_index(), last), (3, 3));

    let mut registry = PanelRegistry::new(false, false, false);
    let mut last = 7;
    assert!(registry.show_at_start(None, &mut last));
    assert_eq!((registry.active_index(), last), (0, 7));
}
