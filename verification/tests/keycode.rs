use lurk::models::keycode::{Key, KeyCode};

#[test]
fn test_keycode_to_name_letters() {
    assert_eq!(KeyCode(0x00).to_name(), "A");
    assert_eq!(KeyCode(0x01).to_name(), "S");
    assert_eq!(KeyCode(0x02).to_name(), "D");
    assert_eq!(KeyCode(0x03).to_name(), "F");
}

#[test]
fn test_keycode_to_name_special() {
    assert_eq!(KeyCode(0x24).to_name(), "Return");
    assert_eq!(KeyCode(0x31).to_name(), "Space");
    assert_eq!(KeyCode(0x33).to_name(), "Backspace");
    assert_eq!(KeyCode(0x35).to_name(), "Escape");
    assert_eq!(KeyCode(0x30).to_name(), "Tab");
}

#[test]
fn test_keycode_to_name_modifiers() {
    assert_eq!(KeyCode(0x38).to_name(), "LeftShift");
    assert_eq!(KeyCode(0x3C).to_name(), "RightShift");
    assert_eq!(KeyCode(0x37).to_name(), "LeftCommand");
    assert_eq!(KeyCode(0x3B).to_name(), "LeftControl");
    assert_eq!(KeyCode(0x3A).to_name(), "LeftAlt");
}

#[test]
fn test_keycode_to_name_unknown() {
    let name = KeyCode(0xFF).to_name();
    assert!(name.starts_with("Unknown"));
}

#[test]
fn test_keycode_unknown_is_hexadecimal() {
    assert_eq!(KeyCode(0xFF).to_name(), "Unknown(0xFF)");
    assert_eq!(KeyCode(0x0A).to_name(), "Unknown(0x0A)");
    assert_eq!(KeyCode(0x34).to_name(), "Unknown(0x34)");
    assert_eq!(KeyCode(0x1AB).to_name(), "Unknown(0x1AB)");
    assert_eq!(KeyCode(u32::MAX).to_name(), "Unknown(0xFFFFFFFF)");
}

#[test]
fn test_keycode_display() {
    assert_eq!(KeyCode(0x00).to_string(), "A");
    assert_eq!(KeyCode(0x31).to_string(), "Space");
}

#[test]
fn test_keycode_from_rdev_key() {
    assert_eq!(KeyCode::from_rdev_key(&Key::KeyA).0, 0x00);
    assert_eq!(KeyCode::from_rdev_key(&Key::Space).0, 0x31);
    assert_eq!(KeyCode::from_rdev_key(&Key::Return).0, 0x24);
    assert_eq!(KeyCode::from_rdev_key(&Key::ShiftLeft).0, 0x38);
}

#[test]
fn test_keycode_from_unknown_key() {
    assert_eq!(KeyCode::from_rdev_key(&Key::Unknown(0x1234)).0, 0x1234);
    assert_eq!(KeyCode::from_rdev_key(&Key::Unknown(0)).0, 0);
    assert_eq!(KeyCode::from_rdev_key(&Key::IntlBackslash).0, 0x0A);
    assert_eq!(KeyCode::from_rdev_key(&Key::KpDelete).0, 0x41);
}

#[test]
fn test_named_keys_round_trip_to_labels() {
    assert_eq!(KeyCode::from_rdev_key(&Key::KeyQ).to_name(), "Q");
    assert_eq!(KeyCode::from_rdev_key(&Key::F12).to_name(), "F12");
    assert_eq!(KeyCode::from_rdev_key(&Key::MetaRight).to_name(), "RightCommand");
    assert_eq!(KeyCode::from_rdev_key(&Key::UpArrow).to_name(), "UpArrow");
    assert_eq!(KeyCode::from_rdev_key(&Key::Kp0).to_name(), "Unknown(0x52)");
}
