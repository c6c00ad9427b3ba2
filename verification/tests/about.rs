use hyprcube::about::{
    cpu_model, ecosystem_status, format_uptime, gpu_summary, hostname, hyprland_version,
    is_card_node, kernel_version, memory_kb, session_type, uevent_driver, AboutPanel, AppStatus,
    SystemInfo, SystemSources,
};
use hyprcube::panels::PanelError;

fn empty_sources() -> SystemSources {
    SystemSources {
        hyprland_tag: None,
        proc_version: None,
        etc_hostname: None,
        uptime_secs: None,
        cpuinfo: None,
        memory: None,
        gpu_drivers: Vec::new(),
        session_type: None,
        wayland_display: false,
    }
}

#[test]
fn system_info_has_version() {
    let info = SystemInfo::collect(&empty_sources());
    assert_eq!(info.hyprcube_version, "0.1.0");
}

#[test]
fn app_status_strings() {
    assert_eq!(AppStatus::Installed.as_str(), "installed");
    assert_eq!(AppStatus::NotFound.as_str(), "not found");
}

#[test]
fn fields_empty_for_custom_panel() {
    let panel = AboutPanel::new(SystemInfo::collect(&empty_sources()), false, false);
    assert!(panel.fields().is_empty());
}

#[test]
fn about_set_value_always_errors() {
    let mut panel = AboutPanel::new(SystemInfo::collect(&empty_sources()), false, true);
    assert!(panel.set_value("anything", "val").is_err());
    assert!(matches!(panel.set_value("x", "y"), Err(PanelError::UnknownKey(k)) if k == "x"));
    assert_eq!(panel.hyprdeck_status, AppStatus::NotFound);
    assert_eq!(panel.hyprsaver_status, AppStatus::Installed);
}

#[test]
fn format_uptime_with_days() {
    let s = format_uptime(93_780);
    assert!(s.contains('d'), "expected days in '{s}'");
    assert!(s.contains('h'), "expected hours in '{s}'");
    assert_eq!(s, "1d 2h 3m");
}

#[test]
fn format_uptime_hours_only() {
    let s = format_uptime(7_500);
    assert!(!s.contains('d'), "unexpected days in '{s}'");
    assert!(s.contains('h'), "expected hours in '{s}'");
    assert_eq!(s, "2h 5m");
}

#[test]
fn kernel_version_not_empty() {
    let k = kernel_version(Some("Linux version 6.8.0-arch1 (builder@host) (gcc) #1 SMP"));
    assert!(!k.is_empty());
    assert_eq!(k, "6.8.0-arch1");
    assert_eq!(kernel_version(Some("Linux version")), "unknown");
    assert_eq!(kernel_version(None), "unknown");
}

#[test]
fn hostname_is_trimmed() {
    assert_eq!(hostname(Some("  cube\n")), "cube");
    assert_eq!(hostname(Some("   \n")), "unknown");
}

#[test]
fn cpu_model_from_first_model_name_line() {
    let info = "processor\t: 0\nmodel name\t: AMD Ryzen 7 7840U  \nmodel name\t: Other\n";
    assert_eq!(cpu_model(Some(info)), "AMD Ryzen 7 7840U");
    assert_eq!(cpu_model(Some("processor : 0\n")), "unknown");
}

#[test]
fn memory_from_meminfo() {
    let info = "MemTotal:       16000000 kB\nMemFree: 1 kB\nMemAvailable:    4000000 kB\n";
    assert_eq!(memory_kb(Some(info)), Some((12_000_000, 16_000_000)));
    assert_eq!(memory_kb(Some("MemAvailable: 5 kB\n")), None);
    assert_eq!(memory_kb(Some("MemTotal: 5 kB\nMemAvailable: 9 kB\n")), Some((0, 5)));
}

#[test]
fn gpu_drivers_are_deduplicated_and_joined() {
    assert!(is_card_node("card0"));
    assert!(!is_card_node("card0-DP-1"));
    assert!(!is_card_node("renderD128"));
    assert_eq!(uevent_driver("MAJOR=226\nDRIVER=amdgpu\n"), Some("amdgpu".to_string()));
    assert_eq!(uevent_driver("MAJOR=226\n"), None);
    let names = vec!["amdgpu".to_string(), "amdgpu".to_string(), "i915".to_string()];
    assert_eq!(gpu_summary(&names), "amdgpu, i915");
    assert_eq!(gpu_summary(&Vec::new()), "unknown");
}

#[test]
fn session_and_hyprland_version() {
    assert_eq!(session_type(Some("wayland"), false), "wayland");
    assert_eq!(session_type(Some(""), true), "Wayland");
    assert_eq!(session_type(None, false), "unknown");
    assert_eq!(hyprland_version(Some("v0.42.0")), Some("0.42.0".to_string()));
    assert_eq!(hyprland_version(None), None);
    assert_eq!(ecosystem_status(true), AppStatus::Installed);
}

#[test]
fn collect_fills_unknowns() {
    let mut src = empty_sources();
    src.uptime_secs = Some(59);
    src.memory = Some(("1.0 GB".into(), "2.0 GB".into()));
    let info = SystemInfo::collect(&src);
    assert_eq!(info.kernel, "unknown");
    assert_eq!(info.uptime, "0h 0m");
    assert_eq!(info.memory_used, "1.0 GB");
    assert_eq!(info.gpu, "unknown");
    assert_eq!(info.hyprland_version, None);
}

#[test]
fn about_panel_keeps_the_collected_info() {
    let mut sources = empty_sources();
    sources.hyprland_tag = Some("v0.42.0".to_string());
    let panel = AboutPanel::new(SystemInfo::collect(&sources), true, false);
    assert_eq!(panel.system_info().hyprland_version.as_deref(), Some("0.42.0"));
    assert_eq!(panel.system_info().hyprcube_version, "0.1.0");
}

fn info() -> SystemInfo {
    SystemInfo {
        hyprcube_version: "0.1.0".to_string(),
        hyprland_version: None,
        kernel: "6.9.1".to_string(),
        hostname: "unknown".to_string(),
        uptime: "3h 2m".to_string(),
        cpu: "unknown".to_string(),
        memory_used: "3.2 GB".to_string(),
        memory_total: "15.5 GB".to_string(),
        gpu: "amdgpu".to_string(),
        session_type: "wayland".to_string(),
    }
}

fn rows(v: Vec<(String, String)>) -> Vec<(String, String)> {
    v
}

#[test]
fn system_rows_skip_unknown_values() {
    let panel = AboutPanel::new(info(), true, false);
    let want: Vec<(String, String)> = [
        ("Hyprland", "not connected"),
        ("Kernel", "6.9.1"),
        ("Uptime", "3h 2m"),
        ("Memory", "3.2 GB / 15.5 GB"),
        ("GPU", "amdgpu"),
        ("Session", "wayland"),
    ]
    .iter()
    .map(|(a, b)| (a.to_string(), b.to_string()))
    .collect();
    assert_eq!(rows(panel.system_rows()), want);
    assert_eq!(
        panel.ecosystem_rows(),
        vec![
            ("HyprDeck".to_string(), "installed".to_string()),
            ("HyprSaver".to_string(), "not found".to_string())
        ]
    );
}

#[test]
fn system_rows_drop_unknown_memory() {
    let mut i = info();
    i.hyprland_version = Some("v0.45.0".to_string());
    i.memory_used = "unknown".to_string();
    let panel = AboutPanel::new(i, false, false);
    let r = panel.system_rows();
    assert_eq!(r[0], ("Hyprland".to_string(), "v0.45.0".to_string()));
    assert!(r.iter().all(|(label, _)| label != "Memory"));
}
