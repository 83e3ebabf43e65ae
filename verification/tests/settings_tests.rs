use voxelruler::settings::{AppSettings, SortMode};

#[test]
fn test_settings_default_is_empty() {
    let s = AppSettings::default();
    assert!(s.java_mode.is_empty());
    assert!(s.java_path.is_empty());
    assert!(!s.is_custom_java());
}

#[test]
fn test_sort_mode_defaults_to_created_at() {
    let s = AppSettings::default();
    assert_eq!(s.sort_mode, SortMode::CreatedAt);
    assert!(!s.sort_ascending);
}

#[test]
fn custom_java_mode_is_recognised() {
    let s = AppSettings {
        java_mode: "custom".into(),
        java_path: "/usr/bin/java".into(),
        ..Default::default()
    };
    assert!(s.is_custom_java());
    let s = AppSettings {
        java_mode: "auto".into(),
        ..Default::default()
    };
    assert!(!s.is_custom_java());
}
