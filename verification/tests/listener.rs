use voicecode::domain::models::{KeyEvent, KeyEventKind};
use voicecode::pipeline::listener::{parse_key, KeyPlatform, ListenerError, PttKey, PttListener};

#[test]
fn listener_parses_known_keys_case_insensitively() {
    assert_eq!(parse_key("f12", KeyPlatform::Linux), Some(PttKey::F12));
    assert_eq!(parse_key("F9", KeyPlatform::Linux), Some(PttKey::F9));
    assert_eq!(parse_key("space", KeyPlatform::Linux), Some(PttKey::Space));
}

#[test]
fn parses_extended_function_keys_via_windows_vk_codes() {
    assert_eq!(parse_key("f13", KeyPlatform::Windows), Some(PttKey::Unknown(0x7C)));
    assert_eq!(parse_key("F13", KeyPlatform::Windows), Some(PttKey::Unknown(0x7C)));
    assert_eq!(parse_key("f24", KeyPlatform::Windows), Some(PttKey::Unknown(0x87)));
}

#[test]
fn parses_extended_function_keys_via_linux_x11_keycodes() {
    assert_eq!(parse_key("f13", KeyPlatform::Linux), Some(PttKey::Unknown(191)));
    assert_eq!(parse_key("F13", KeyPlatform::Linux), Some(PttKey::Unknown(191)));
    assert_eq!(parse_key("f24", KeyPlatform::Linux), Some(PttKey::Unknown(202)));
}

#[test]
fn listener_rejects_unknown_key() {
    assert!(parse_key("banana", KeyPlatform::Linux).is_none());
    assert!(PttListener::new("banana", KeyPlatform::Linux).is_err());
}

#[test]
fn extended_function_keys_need_a_known_platform() {
    assert_eq!(parse_key("f13", KeyPlatform::Other), None);
    assert_eq!(parse_key("F12", KeyPlatform::Other), Some(PttKey::F12));
}

#[test]
fn right_modifiers_have_aliases() {
    assert_eq!(parse_key("ctrl_r", KeyPlatform::Linux), Some(PttKey::ControlRight));
    assert_eq!(parse_key("CONTROL_R", KeyPlatform::Windows), Some(PttKey::ControlRight));
    assert_eq!(parse_key("Alt_R", KeyPlatform::Other), Some(PttKey::AltGr));
}

#[test]
fn listener_keeps_the_configured_name() {
    let listener = PttListener::new("F8", KeyPlatform::Linux).unwrap();
    assert_eq!(listener.key_name(), "F8");
    assert_eq!(listener.target(), PttKey::F8);
    assert_eq!(
        PttListener::new("f25", KeyPlatform::Windows).err(),
        Some(ListenerError::UnsupportedKey("f25".to_string()))
    );
}

#[test]
fn only_the_watched_key_makes_events() {
    let listener = PttListener::new("F13", KeyPlatform::Linux).unwrap();
    assert_eq!(
        listener.event_for(true, PttKey::Unknown(191)),
        Some(KeyEvent {
            kind: KeyEventKind::Down,
            key: "F13".to_string()
        })
    );
    assert_eq!(
        listener.event_for(false, PttKey::Unknown(191)),
        Some(KeyEvent {
            kind: KeyEventKind::Up,
            key: "F13".to_string()
        })
    );
    assert_eq!(listener.event_for(true, PttKey::Unknown(192)), None);
    assert_eq!(listener.event_for(false, PttKey::F12), None);
}
