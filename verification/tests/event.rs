use lurk::models::clock::{millis_of, now_millis};
use lurk::models::event::{EventType, KeystrokeEvent, Modifier};

#[test]
fn test_keystroke_event_creation() {
    let event = KeystrokeEvent::new(
        0x00,
        EventType::Press,
        vec![Modifier::Shift],
        "com.test.app".to_string(),
    );

    assert_eq!(event.key_code, 0x00);
    assert_eq!(event.event_type, EventType::Press);
    assert_eq!(event.modifiers, vec![Modifier::Shift]);
    assert_eq!(event.application, "com.test.app");
    assert!(event.timestamp > 0);
}

#[test]
fn test_keystroke_event_at() {
    let event = KeystrokeEvent::at(
        -5,
        0x31,
        EventType::Release,
        vec![Modifier::Alt, Modifier::Function],
        "app".to_string(),
    );
    assert_eq!(event.timestamp, -5);
    assert_eq!(event.key_code, 0x31);
    assert_eq!(event.event_type, EventType::Release);
    assert_eq!(event.modifiers, vec![Modifier::Alt, Modifier::Function]);
    assert_eq!(event.application, "app");
}

#[test]
fn test_event_type_as_str() {
    assert_eq!(EventType::Press.as_str(), "press");
    assert_eq!(EventType::Release.as_str(), "release");
}

#[test]
fn test_event_type_display() {
    assert_eq!(EventType::Press.to_string(), "press");
    assert_eq!(EventType::Release.to_string(), "release");
}

#[test]
fn test_modifier_display() {
    assert_eq!(Modifier::Shift.to_string(), "shift");
    assert_eq!(Modifier::Control.to_string(), "control");
    assert_eq!(Modifier::Alt.to_string(), "alt");
    assert_eq!(Modifier::Command.to_string(), "command");
}

#[test]
fn test_modifier_names() {
    assert_eq!(Modifier::CapsLock.to_string(), "capslock");
    assert_eq!(Modifier::Function.to_string(), "function");
    assert_eq!(Modifier::CapsLock.as_str(), "capslock");
    assert_eq!(Modifier::Shift.as_str(), "shift");
}

#[test]
fn test_millis_of() {
    assert_eq!(millis_of(0), 0);
    assert_eq!(millis_of(999_999), 0);
    assert_eq!(millis_of(1_000_000), 1);
    assert_eq!(millis_of(1_700_000_000_123_456_789), 1_700_000_000_123);
    assert_eq!(millis_of(u128::MAX), i64::MAX);
    assert!(now_millis() > 1_600_000_000_000);
}
