use lurk::analysis::report::analyze;
use lurk::analysis::FilterConfig;
use lurk::daemon::event_monitor::{extract_modifiers, is_sensitive_app, process_event, InputEvent};
use lurk::models::keycode::Key;
use lurk::models::{EventType, KeystrokeEvent, Modifier};
use lurk::storage::key::{generate_random_key, key_from_seed, KEY_LENGTH};
use lurk::storage::range::range_start;

#[test]
fn test_is_sensitive_app() {
    assert!(is_sensitive_app("com.1password.1password"));
    assert!(is_sensitive_app("com.apple.Terminal"));
    assert!(is_sensitive_app("com.apple.terminal"));
    assert!(is_sensitive_app("COM.EXPRESSVPN.EXPRESSVPN"));
    assert!(is_sensitive_app("com.microsoft.vscode"));
    assert!(!is_sensitive_app("com.apple.Safari"));
    assert!(!is_sensitive_app("com.apple.Terminal2"));
    assert!(!is_sensitive_app("com.apple.Termina"));
    assert!(!is_sensitive_app(""));
    assert!(!is_sensitive_app("Unknown"));
}

#[test]
fn test_extract_modifiers() {
    assert_eq!(extract_modifiers(&Key::ShiftLeft), vec![Modifier::Shift]);
    assert_eq!(extract_modifiers(&Key::ShiftRight), vec![Modifier::Shift]);
    assert_eq!(extract_modifiers(&Key::ControlLeft), vec![Modifier::Control]);
    assert_eq!(extract_modifiers(&Key::ControlRight), vec![Modifier::Control]);
    assert_eq!(extract_modifiers(&Key::Alt), vec![Modifier::Alt]);
    assert_eq!(extract_modifiers(&Key::AltGr), vec![Modifier::Alt]);
    assert_eq!(extract_modifiers(&Key::MetaLeft), vec![Modifier::Command]);
    assert_eq!(extract_modifiers(&Key::MetaRight), vec![Modifier::Command]);
    assert_eq!(extract_modifiers(&Key::CapsLock), vec![Modifier::CapsLock]);
    assert_eq!(extract_modifiers(&Key::Function), vec![Modifier::Function]);
    assert_eq!(extract_modifiers(&Key::KeyA), vec![]);
    assert_eq!(extract_modifiers(&Key::Unknown(0x38)), vec![]);
}

#[test]
fn test_process_event_records_key_transitions() {
    let recorded =
        process_event(&InputEvent::KeyPress(Key::ShiftLeft), "com.apple.Safari".to_string())
            .unwrap();
    assert_eq!(recorded.key_code, 0x38);
    assert_eq!(recorded.event_type, EventType::Press);
    assert_eq!(recorded.modifiers, vec![Modifier::Shift]);
    assert_eq!(recorded.application, "com.apple.Safari");
    assert!(recorded.timestamp > 0);
    let recorded =
        process_event(&InputEvent::KeyRelease(Key::KeyA), "com.apple.Safari".to_string()).unwrap();
    assert_eq!(recorded.key_code, 0x00);
    assert_eq!(recorded.event_type, EventType::Release);
    assert!(recorded.modifiers.is_empty());
}

#[test]
fn test_process_event_skips_sensitive_apps_and_other_input() {
    assert!(process_event(&InputEvent::KeyPress(Key::KeyA), "com.bitwarden.desktop".to_string())
        .is_none());
    assert!(process_event(&InputEvent::KeyRelease(Key::KeyA), "COM.LEDGER.LIVE".to_string())
        .is_none());
    assert!(process_event(&InputEvent::Other, "com.apple.Safari".to_string()).is_none());
}

#[test]
fn test_key_from_seed() {
    let key = key_from_seed(0);
    assert_eq!(key.len(), KEY_LENGTH);
    let charset: Vec<char> =
        "abcdefghijklmnopqrstuvwxyzABCDEFGHIJKLMNOPQRSTUVWXYZ0123456789".chars().collect();
    let mut state: u128 = 0;
    let mut expected = String::new();
    for _ in 0..32 {
        state = state.wrapping_mul(6364136223846793005).wrapping_add(1);
        expected.push(charset[((state >> 33) as usize) % 62]);
    }
    assert_eq!(key, expected);
    assert_eq!(&key[..1], "a");
    assert_eq!(key_from_seed(12345), key_from_seed(12345));
    assert_ne!(key_from_seed(1 << 40), key_from_seed(2 << 40));
    assert!(key_from_seed(u128::MAX).chars().all(|c| c.is_ascii_alphanumeric()));
}

#[test]
fn test_generate_random_key() {
    let key = generate_random_key();
    assert_eq!(key.chars().count(), KEY_LENGTH);
    assert!(key.chars().all(|c| c.is_ascii_alphanumeric()));
}

#[test]
fn test_range_start() {
    assert_eq!(range_start(1_000_000_000_000, 7), Some(1_000_000_000_000 - 7 * 86_400_000));
    assert_eq!(range_start(0, 1), Some(-86_400_000));
    assert_eq!(range_start(5, 0), Some(5));
    assert_eq!(range_start(i64::MIN, 1), None);
    assert_eq!(range_start(i64::MIN, 0), Some(i64::MIN));
    assert_eq!(range_start(i64::MIN + 86_400_000, 1), Some(i64::MIN));
}

fn press(timestamp: i64, key_code: u32) -> KeystrokeEvent {
    KeystrokeEvent {
        timestamp,
        key_code,
        event_type: EventType::Press,
        modifiers: vec![],
        application: "test".to_string(),
    }
}

#[test]
fn test_analyze_report() {
    let events = vec![press(100, 0), press(200, 1), press(10000, 0), press(10100, 1)];
    let report = analyze(&events, FilterConfig::default());
    assert_eq!(report.total_events, 4);
    assert_eq!(report.segment_count, 2);
    assert_eq!(report.analyzed_events, 4);
    assert_eq!(report.frequency.total_presses, 4);
    assert_eq!(report.frequency.key_frequencies.len(), 2);
    assert_eq!(report.timing.overall_inter_key.count, 2);
    assert_eq!(report.timing.filter_config.max_gap_ms, 5000);
    let empty = analyze(&[], FilterConfig::default());
    assert_eq!(empty.total_events, 0);
    assert_eq!(empty.segment_count, 0);
    assert_eq!(empty.analyzed_events, 0);
    assert_eq!(empty.frequency.total_presses, 0);
}
