use cometty::settings::{
    AppStartup, SettingsPanel, SettingsSection, is_known_theme, normalize_min_max,
    repair_min_u32, repair_min_u64, repair_min_usize, sanitize_cursor_shape, sanitize_key_label,
    cursor_shape_from_trimmed,
};

/// Where the per-user configuration lives on a typical Unix host.
fn default_config_path() -> Option<String> {
    Some("/home/user/.config/cometty/config.toml".to_string())
}

#[test]
fn sanitize_helpers() {
    assert_eq!(sanitize_key_label("C", "c"), "c");
    assert_eq!(sanitize_key_label("", "c"), "c");
    assert_eq!(sanitize_key_label(",,t", "c"), "t");
    assert_eq!(sanitize_cursor_shape("Bar"), ("bar".to_string(), false));
    assert_eq!(sanitize_cursor_shape("beam"), ("block".to_string(), true));
    assert!(is_known_theme("vscode"));
    assert!(!is_known_theme("nope"));
}

#[test]
fn banner_and_path_label() {
    let p = SettingsPanel::new(AppStartup {
        config_path_override: None,
        cli_theme: Some("vscode".to_string()),
        config_corrupt: false,
    });
    assert!(p.cli_banner().unwrap().contains("--theme vscode"));
    assert!(p.config_path_label(default_config_path()).contains("cometty"));
    let q = SettingsPanel::new(AppStartup {
        config_path_override: Some("/tmp/x.toml".to_string()),
        cli_theme: None,
        config_corrupt: false,
    });
    assert!(q.cli_banner().is_none());
    assert_eq!(q.config_path_label(default_config_path()), "/tmp/x.toml");
}

#[test]
fn repair_min_helpers() {
    assert_eq!(repair_min_usize(5, 1, 8), (5, false));
    assert_eq!(repair_min_usize(0, 1, 8), (8, true));
    assert_eq!(repair_min_u32(800, 1, 800), (800, false));
    assert_eq!(repair_min_u32(0, 1, 800), (800, true));
    assert_eq!(repair_min_u64(530, 1, 530), (530, false));
    assert_eq!(repair_min_u64(0, 1, 530), (530, true));
    assert_eq!(normalize_min_max(1, 1024, 1, 1024), (1, 1024, false));
    assert_eq!(normalize_min_max(0, 0, 1, 1024), (1, 1024, true));
    assert_eq!(normalize_min_max(9999, 10, 1, 1024), (10, 9999, true));
}

#[test]
fn cursor_shape_trims_and_lowercases() {
    assert_eq!(sanitize_cursor_shape("  UNDERLINE \t"), ("underline".to_string(), false));
    assert_eq!(sanitize_cursor_shape(""), ("block".to_string(), true));
    assert_eq!(sanitize_key_label("--9x", "f"), "9");
}

#[test]
fn toggle_close_and_error_reporting() {
    let mut p = SettingsPanel::new(AppStartup {
        config_path_override: None,
        cli_theme: None,
        config_corrupt: true,
    });
    assert!(!p.open && p.corrupt_at_startup && p.section == SettingsSection::Theme);
    p.notice = Some("font size reset to default".to_string());
    p.toggle();
    assert!(p.open && p.notice.is_none());
    p.report_error("disk full".to_string());
    assert_eq!(p.last_error.as_deref(), Some("disk full"));
    p.report_saved();
    assert!(p.last_error.is_none());
    p.close();
    assert!(!p.open);
    assert_eq!(p.config_path_label(None), "<no HOME; cannot save>");
    assert_eq!(p.effective_save_path(None), None);
    assert_eq!(SettingsSection::Tabbar.title(), "Tab bar");
    assert_eq!(SettingsSection::Logs.title(), "Logs");
}

#[test]
fn cursor_shape_from_trimmed_value() {
    assert_eq!(cursor_shape_from_trimmed("BAR"), ("bar".to_string(), false));
    assert_eq!(cursor_shape_from_trimmed("underline"), ("underline".to_string(), false));
    assert_eq!(cursor_shape_from_trimmed("beam"), ("block".to_string(), true));
    assert_eq!(cursor_shape_from_trimmed(" bar"), ("block".to_string(), true));
}
