use hyprcube::hyprpaper::{
    assign_wallpaper, managed_config_text, parse_active_wallpapers, parse_bool_setting,
    parse_wallpaper_assignments, root_with_source_line, live_request, live_status, LiveOutcome,
    HyprpaperPanel, WallpaperMonitor,
};

fn monitor(name: &str, path: &str, mode: &str) -> WallpaperMonitor {
    WallpaperMonitor {
        name: name.into(),
        description: String::new(),
        x: 0,
        y: 0,
        width: 1920,
        height: 1080,
        path: path.into(),
        fit_mode: mode.into(),
    }
}

#[test]
fn parses_modern_per_monitor_blocks() {
    let source = "wallpaper {\n monitor = DP-1\n path = /tmp/a.jpg\n fit_mode = contain\n}\n";
    assert_eq!(
        parse_wallpaper_assignments(source),
        vec![("DP-1".into(), "/tmp/a.jpg".into(), "contain".into())]
    );
}

#[test]
fn parses_boolean_settings_using_last_value() {
    assert!(!parse_bool_setting(
        "splash = true\nsplash = false",
        "splash",
        true
    ));
}

#[test]
fn legacy_wallpaper_lines_use_cover() {
    let source = "preload = /a.png\nwallpaper = HDMI-A-1, /a.png\nwallpaper = bad\n";
    assert_eq!(
        parse_wallpaper_assignments(source),
        vec![("HDMI-A-1".into(), "/a.png".into(), "cover".into())]
    );
}

#[test]
fn blocks_without_a_path_are_dropped() {
    let source = "wallpaper {\n monitor = DP-1\n}\nwallpaper {\n path = /b.png\n}\n";
    assert!(parse_wallpaper_assignments(source).is_empty());
}

#[test]
fn boolean_setting_defaults_and_ignores_bad_values() {
    assert!(parse_bool_setting("ipc = maybe\n", "ipc", true));
    assert!(!parse_bool_setting("", "splash", false));
    assert!(parse_bool_setting("  splash =  true  \r\nother = false", "splash", false));
}

#[test]
fn managed_file_reads_back_its_assignments() {
    let monitors = vec![
        monitor("DP-1", "/w/a.png", "contain"),
        monitor("HDMI-A-1", "", "cover"),
        monitor("eDP-1", "/w/b.png", "tile"),
    ];
    let text = managed_config_text(true, false, &monitors);
    assert!(text.starts_with("# Managed by HyprCube."));
    assert!(text.contains("ipc = true\nsplash = false\n"));
    assert_eq!(
        parse_wallpaper_assignments(&text),
        vec![
            ("DP-1".into(), "/w/a.png".into(), "contain".into()),
            ("eDP-1".into(), "/w/b.png".into(), "tile".into()),
        ]
    );
    assert!(parse_bool_setting(&text, "ipc", false));
    assert!(!parse_bool_setting(&text, "splash", true));
}

#[test]
fn source_line_is_added_once() {
    let added = root_with_source_line("splash = false").unwrap();
    assert_eq!(
        added,
        "splash = false\n\n# HyprCube-managed dynamic wallpaper assignments\nsource = ~/.config/hypr/hyprpaper-hyprcube.conf\n"
    );
    assert_eq!(root_with_source_line(&added), None);
    assert_eq!(
        root_with_source_line("").unwrap(),
        "\n# HyprCube-managed dynamic wallpaper assignments\nsource = ~/.config/hypr/hyprpaper-hyprcube.conf\n"
    );
}

#[test]
fn active_wallpapers_are_read_per_monitor() {
    let out = "DP-1: /w/a.png\nnothing here\n eDP-1 :/w/b.png \n";
    assert_eq!(
        parse_active_wallpapers(out.as_bytes()),
        vec![
            ("DP-1".to_string(), "/w/a.png".to_string()),
            ("eDP-1".to_string(), "/w/b.png".to_string())
        ]
    );
}

#[test]
fn configured_assignment_wins_over_active_wallpaper() {
    let assignments = vec![
        ("DP-1".to_string(), "/old.png".to_string(), "cover".to_string()),
        ("DP-1".to_string(), "/new.png".to_string(), "fill".to_string()),
    ];
    let active = vec![("DP-1".to_string(), "/live.png".to_string())];
    let mut m = monitor("DP-1", "", "cover");
    assign_wallpaper(&mut m, &assignments, &active);
    assert_eq!(m.path, "/new.png");
    assert_eq!(m.fit_mode, "fill");

    let mut other = monitor("eDP-1", "", "contain");
    assign_wallpaper(&mut other, &assignments, &vec![("eDP-1".to_string(), "/live.png".to_string())]);
    assert_eq!(other.path, "/live.png");
    assert_eq!(other.fit_mode, "contain");
}

#[test]
fn live_apply_needs_an_image() {
    assert_eq!(
        live_request(&monitor("DP-1", "", "cover")),
        Err("Choose an image before applying it.".to_string())
    );
    assert_eq!(
        live_request(&monitor("DP-1", "/w/a.png", "contain")),
        Ok("DP-1, /w/a.png, contain".to_string())
    );
}

#[test]
fn live_apply_reports_what_hyprctl_said() {
    let ran = |success: bool, stderr: &[u8], stdout: &[u8]| LiveOutcome::Ran {
        success,
        stderr: stderr.to_vec(),
        stdout: stdout.to_vec(),
    };
    assert_eq!(live_status("DP-1", ran(true, b"", b"ok")), "Applied wallpaper to DP-1");
    assert_eq!(live_status("DP-1", ran(false, b"  no such monitor\n", b"x")), "no such monitor");
    assert_eq!(live_status("DP-1", ran(false, b" \n", b" wallpaper failed ")), "wallpaper failed");
    assert_eq!(
        live_status("DP-1", LiveOutcome::NotRun("not found".to_string())),
        "Could not run hyprctl: not found"
    );
}

fn wallpaper_panel() -> HyprpaperPanel {
    let source = "splash = true\nwallpaper {\n monitor = DP-1\n path = /w/a.png\n fit_mode = contain\n}\n";
    HyprpaperPanel::new(
        true,
        vec![monitor("DP-1", "", "cover"), monitor("HDMI-A-1", "", "cover")],
        source,
        &vec![("HDMI-A-1".to_string(), "/w/live.png".to_string())],
    )
}

#[test]
fn wallpaper_panel_loads_assignments_and_switches() {
    let panel = wallpaper_panel();
    assert_eq!(panel.monitors[0].path, "/w/a.png");
    assert_eq!(panel.monitors[0].fit_mode, "contain");
    assert_eq!(panel.monitors[1].path, "/w/live.png");
    assert_eq!(panel.monitors[1].fit_mode, "cover");
    assert_eq!(panel.selected, Some(0));
    assert!(panel.splash_toggle.value);
    assert!(panel.ipc_toggle.value);
    assert_eq!(panel.path_input.value, "/w/a.png");
    assert_eq!(panel.path_input.cursor_pos, 8);
    assert_eq!(panel.fit_dropdown.selected, 1);
    assert!(!panel.has_unsaved_changes());
    assert!(panel.fields().is_empty());
    assert!(panel.available(false));
}

#[test]
fn wallpaper_panel_edits_the_selected_monitor() {
    let mut panel = wallpaper_panel();
    panel.select_monitor(1);
    assert_eq!(panel.path_input.value, "/w/live.png");
    assert_eq!(panel.fit_dropdown.selected, 0);
    panel.path_input.value = "/w/b.jpg".to_string();
    panel.path_edited();
    panel.fit_dropdown.selected = 3;
    panel.fit_chosen();
    assert_eq!(panel.monitors[1].path, "/w/b.jpg");
    assert_eq!(panel.monitors[1].fit_mode, "tile");
    assert_eq!(panel.monitors[0].path, "/w/a.png");
    assert!(panel.has_unsaved_changes());
    assert_eq!(panel.apply_live_request(), Some(Ok("HDMI-A-1, /w/b.jpg, tile".to_string())));
    assert!(panel.managed_text().contains("monitor = HDMI-A-1\n    path = /w/b.jpg\n    fit_mode = tile"));
    panel.saved();
    assert!(!panel.has_unsaved_changes());
    assert!(panel.set_value("x", "y").is_err());
}

#[test]
fn wallpaper_panel_without_monitors() {
    let panel = HyprpaperPanel::new(false, Vec::new(), "", &Vec::new());
    assert_eq!(panel.selected, None);
    assert_eq!(panel.apply_live_request(), None);
    assert!(!panel.splash_toggle.value);
    assert!(!panel.available(false));
    assert!(panel.available(true));
}
