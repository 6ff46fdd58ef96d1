use git_nexus::config::{default_ignore_dirs, default_scan_depth, default_true, Config, DisplayConfig, ExportConfig};

#[test]
fn test_config_default() {
    let config = Config::default();
    assert_eq!(config.scan_depth, 3);
    assert!(config.ignore_dirs.contains(&"node_modules".to_string()));
    assert!(config.display.show_branch);
    assert!(config.display.show_colors);
    assert!(!config.display.default_verbose);
}

#[test]
fn test_display_config_default() {
    let display = DisplayConfig::default();
    assert!(display.show_branch);
    assert!(display.show_colors);
    assert!(!display.default_verbose);
}

#[test]
fn test_export_config_default() {
    let export = ExportConfig::default();
    assert!(export.default_format.is_none());
    assert!(export.html_template.is_none());
}

#[test]
fn default_values() {
    assert_eq!(default_scan_depth(), 3);
    assert!(default_true());
    assert_eq!(
        default_ignore_dirs(),
        vec!["node_modules", "target", "venv", ".build", "build", "dist", ".next"]
    );
    assert!(Config::default().github.is_none());
}
