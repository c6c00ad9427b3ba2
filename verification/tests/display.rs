use hyprcube::display::{
    parse_resolution, refresh_options, resolution_options, selection_after, snap, transform_index,
    DisplayPanel, MonitorBox, MonitorInfo, MonitorMode,
};
use hyprcube::panels::PanelError;

fn monitor(name: &str, w: u32, h: u32, x: i32, y: i32) -> MonitorInfo {
    MonitorInfo {
        name: name.to_string(),
        description: String::new(),
        make: String::new(),
        model: String::new(),
        serial: String::new(),
        width: w,
        height: h,
        refresh: format!("{}", 60.0f32),
        x,
        y,
        scale: format!("{}", 1.0f32),
        transform: 0,
        enabled: true,
        current_format: "XRGB8888".to_string(),
        vrr: false,
        available_modes: Vec::new(),
    }
}

fn mode(width: u32, height: u32, hz: f32) -> MonitorMode {
    MonitorMode { width, height, refresh_mhz: (hz * 1000.0) as u32 }
}

fn mon(w: u32, h: u32, x: i32, y: i32) -> MonitorBox {
    MonitorBox { x, y, width: w, height: h }
}

#[test]
fn parse_resolution_ok() {
    assert_eq!(parse_resolution("1920x1080"), Some((1920, 1080)));
    assert_eq!(parse_resolution("3840x2160"), Some((3840, 2160)));
    assert_eq!(parse_resolution("bad"), None);
}

#[test]
fn new_has_no_fields() {
    let panel = DisplayPanel::new(Vec::new());
    assert!(panel.fields().is_empty());
}

#[test]
fn set_monitors_selects_first() {
    let mut panel = DisplayPanel::new(Vec::new());
    panel.set_monitors(vec![monitor("DP-1", 1920, 1080, 0, 0)]);
    assert_eq!(panel.monitors.len(), 1);
    assert_eq!(panel.selected, Some(0));
}

#[test]
fn set_monitors_clears_out_of_range_selection() {
    let mut panel = DisplayPanel::new(Vec::new());
    panel.set_monitors(vec![
        monitor("A", 1920, 1080, 0, 0),
        monitor("B", 1920, 1080, 1920, 0),
    ]);
    panel.selected = Some(1);
    panel.set_monitors(vec![monitor("A", 1920, 1080, 0, 0)]);
    assert_eq!(panel.selected, None);
}

#[test]
fn selection_rules_on_plain_counts() {
    assert_eq!(selection_after(Some(1), 1), None);
    assert_eq!(selection_after(Some(0), 1), Some(0));
    assert_eq!(selection_after(None, 0), None);
}

#[test]
fn config_line_normal() {
    let m = monitor("DP-1", 1920, 1080, 0, 0);
    let line = m.config_line();
    assert!(line.starts_with("monitor = DP-1,"));
    assert!(line.contains("1920x1080"));
    assert_eq!(line, "monitor = DP-1,1920x1080@60,0x0,1");
}

#[test]
fn config_line_disabled() {
    let m = MonitorInfo {
        enabled: false,
        ..monitor("DP-1", 1920, 1080, 0, 0)
    };
    assert_eq!(m.config_line(), "monitor = DP-1, disable");
    assert_eq!(m.keyword_value(), "DP-1, disable");
}

#[test]
fn config_line_transform() {
    let m = MonitorInfo {
        transform: 1,
        ..monitor("DP-1", 1920, 1080, 0, 0)
    };
    assert!(m.config_line().contains("transform, 1"));
    assert_eq!(m.keyword_value(), "DP-1,1920x1080@60,0x0,1,transform,1");
}

#[test]
fn config_line_with_negative_position_and_fractional_values() {
    let m = MonitorInfo {
        refresh: format!("{}", 143.99f32),
        scale: format!("{}", 1.25f32),
        ..monitor("HDMI-A-1", 2560, 1440, -2560, -120)
    };
    assert_eq!(m.config_line(), "monitor = HDMI-A-1,2560x1440@143.99,-2560x-120,1.25");
}

#[test]
fn display_set_value_always_errors() {
    let mut panel = DisplayPanel::new(Vec::new());
    assert!(panel.set_value("monitor.resolution", "1920x1080").is_err());
    assert!(matches!(panel.set_value("k", "v"), Err(PanelError::UnknownKey(k)) if k == "k"));
}

#[test]
fn refresh_options_filtered_by_resolution() {
    let modes = vec![mode(2560, 1440, 165.0), mode(2560, 1440, 60.0), mode(1920, 1080, 144.0)];
    let opts = refresh_options(&modes, "2560x1440");
    assert_eq!(opts.len(), 2);
    assert!(!opts.contains(&"144".to_string()));
    assert_eq!(opts, vec!["60".to_string(), "165".to_string()]);
}

#[test]
fn refresh_options_fall_back_to_common_rates() {
    let common: Vec<String> = ["30", "60", "75", "120", "144", "165", "240"].iter().map(|s| s.to_string()).collect();
    assert_eq!(refresh_options(&Vec::new(), "1920x1080"), common);
    let modes = vec![mode(2560, 1440, 165.0)];
    assert_eq!(refresh_options(&modes, "bad"), common);
    assert_eq!(refresh_options(&modes, "1920x1080"), common);
    let repeated = vec![mode(1920, 1080, 60.0), mode(1920, 1080, 60.0), mode(1920, 1080, 59.951)];
    assert_eq!(refresh_options(&repeated, "1920x1080"), vec!["59".to_string(), "60".to_string()]);
}

#[test]
fn panel_snaps_against_its_monitors() {
    let panel = DisplayPanel::new(vec![
        monitor("A", 1920, 1080, 0, 0),
        monitor("B", 1920, 1080, 1920, 0),
    ]);
    assert_eq!(panel.snap(1, 1914, 0), (1920, 0));
    assert_eq!(panel.snap(1, 2000, 0), (2000, 0));
}

#[test]
fn snap_aligns_right_edge_to_neighbour() {
    let mut panel = DisplayPanel::new(Vec::new());
    panel.set_monitors(vec![
        monitor("A", 1920, 1080, 0, 0),
        monitor("B", 1920, 1080, 1920, 0),
    ]);
    let (sx, _) = panel.snap(1, 1914, 0);
    assert_eq!(sx, 1920);
}

#[test]
fn snap_does_not_fire_beyond_threshold() {
    let mut panel = DisplayPanel::new(Vec::new());
    panel.set_monitors(vec![
        monitor("A", 1920, 1080, 0, 0),
        monitor("B", 1920, 1080, 1920, 0),
    ]);
    let (sx, _) = panel.snap(1, 2000, 0);
    assert_eq!(sx, 2000);
}

#[test]
fn snap_aligns_top_edges() {
    let monitors = vec![mon(1920, 1080, 0, 0), mon(1280, 720, 1920, 30)];
    assert_eq!(snap(&monitors, 1, 1925, 12), (1920, 0));
}

#[test]
fn resolution_options_fallback_when_no_modes() {
    let opts = resolution_options(&Vec::new());
    assert!(!opts.is_empty());
    assert!(opts.iter().any(|o| o.contains("1920")));
}

#[test]
fn resolution_options_from_modes() {
    let opts = resolution_options(&vec![(2560, 1440), (1920, 1080), (2560, 1440)]);
    assert_eq!(opts.len(), 2);
    assert!(opts.contains(&"2560x1440".to_string()));
    assert_eq!(opts, vec!["2560x1440".to_string(), "1920x1080".to_string()]);
}

#[test]
fn transform_rows_are_clamped() {
    assert_eq!(transform_index(3), 3);
    assert_eq!(transform_index(12), 7);
}

#[test]
fn snap_far_from_the_origin() {
    let monitors = vec![
        MonitorBox { x: 2_000_000_000, y: -2_000_000_000, width: 1000, height: 500 },
        MonitorBox { x: 2_000_001_000, y: -2_000_000_000, width: 1000, height: 500 },
    ];
    assert_eq!(snap(&monitors, 1, 2_000_001_010, -1_999_999_990), (2_000_001_000, -2_000_000_000));
}
