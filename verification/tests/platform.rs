use voicecode::utils::platform::{check_paste_dependencies, is_linux, is_wayland};

#[test]
fn wayland_on_linux_warns_once() {
    let warnings = check_paste_dependencies("linux", Some("wayland"));
    assert_eq!(warnings.len(), 1);
    assert!(warnings[0].contains("ydotool"));
}

#[test]
fn other_sessions_do_not_warn() {
    assert!(check_paste_dependencies("linux", Some("x11")).is_empty());
    assert!(check_paste_dependencies("linux", None).is_empty());
    assert!(check_paste_dependencies("windows", Some("wayland")).is_empty());
}

#[test]
fn platform_detection() {
    assert!(is_linux("linux"));
    assert!(!is_linux("macos"));
    assert!(is_wayland("linux", Some("wayland")));
    assert!(!is_wayland("linux", Some("Wayland")));
}
