//! Path components and the config base directory.
use cli_engine::fs::{config_base_dir, is_safe_path_component, join_path};

#[test]
fn safe_path_component_basic() {
    assert!(is_safe_path_component("godaddy"));
    assert!(!is_safe_path_component(".."));
    assert!(!is_safe_path_component(""));
    assert!(!is_safe_path_component("a/b"));
    assert!(!is_safe_path_component("NUL"));
}

#[test]
fn safe_path_component_rejects_windows_reserved_names() {
    for name in &["CON", "con", "NUL", "nul", "COM1", "LPT9", "CON.txt", "NUL.json"] {
        assert!(
            !is_safe_path_component(name),
            "{name:?} should be rejected as a Windows reserved name"
        );
    }
}

#[test]
fn safe_path_component_rejects_control_and_space_edges() {
    assert!(!is_safe_path_component(" prod"), "leading space");
    assert!(!is_safe_path_component("prod\x7f"), "DEL byte");
    assert!(!is_safe_path_component("prod."), "trailing dot");
    assert!(!is_safe_path_component("prod "), "trailing space");
}

#[test]
fn safe_path_component_accepts_normal_values() {
    for name in &["dev", "prod", "staging", "my-app", "my_app", "app.v2"] {
        assert!(is_safe_path_component(name), "{name:?} should be accepted");
    }
}

#[test]
fn config_base_dir_rejects_relative_xdg() {
    assert!(
        config_base_dir(Some("."), None, None, false).is_none(),
        "relative XDG_CONFIG_HOME should be rejected"
    );
}

#[test]
fn config_base_dir_honors_xdg() {
    let dir = "/tmp/cli-engine-fs-base-test";
    assert_eq!(config_base_dir(Some(dir), None, None, false), Some(dir.to_owned()));
}

#[test]
fn config_base_dir_falls_back_to_home() {
    assert_eq!(
        config_base_dir(None, Some("/home/u"), None, false),
        Some("/home/u/.config".to_owned())
    );
    assert_eq!(config_base_dir(None, None, None, false), None);
}

#[test]
fn paths_are_joined_with_one_separator() {
    assert_eq!(join_path("/a", "b"), "/a/b");
    assert_eq!(join_path("/a/", "b"), "/a/b");
}

#[test]
fn a_device_name_is_refused_whatever_its_extensions() {
    for name in ["NUL.tar.gz", "com1.a.b", "Aux.", "LPT0.x.y.z"] {
        assert!(!is_safe_path_component(name), "{name:?}");
    }
    for name in ["app.NUL", "NULL.txt", "com10.x", ".nul"] {
        assert!(is_safe_path_component(name), "{name:?}");
    }
}

#[test]
fn base_directories_of_windows_name_a_drive_or_a_share() {
    let base = |app_data: &str| config_base_dir(None, Some("/home/u"), Some(app_data), true);
    for path in ["C:\\Users\\me\\AppData", "d:/data", "\\\\server\\share"] {
        assert_eq!(base(path), Some(path.to_owned()));
    }
    for path in ["C:", "C:data", "\\data", "/data", "data"] {
        assert_eq!(base(path), None, "{path}");
    }
    assert_eq!(config_base_dir(None, Some("C:\\u"), None, false), None);
}
