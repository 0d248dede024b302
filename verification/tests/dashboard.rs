use lurk::models::{EventType, KeystrokeEvent};
use lurk::tui::app::{consistency_label, App, DashboardKey, TimeRange, View};
use lurk::tui::keyboard_layout::{finger_name, Finger, Hand, QwertyLayout};
use lurk::tui::trends::{count_days, daily_lines, get_daily_counts, truncate_app_name};

fn press(timestamp: i64, key_code: u32) -> KeystrokeEvent {
    KeystrokeEvent {
        timestamp,
        key_code,
        event_type: EventType::Press,
        modifiers: vec![],
        application: "test".to_string(),
    }
}

fn release(timestamp: i64, key_code: u32) -> KeystrokeEvent {
    KeystrokeEvent {
        timestamp,
        key_code,
        event_type: EventType::Release,
        modifiers: vec![],
        application: "test".to_string(),
    }
}

#[test]
fn test_view_titles_and_indices() {
    let views = [View::Overview, View::Trends, View::Fingers, View::Timing];
    let titles = ["Overview", "Trends", "Fingers", "Timing"];
    for (i, view) in views.iter().enumerate() {
        assert_eq!(view.title(), titles[i]);
        assert_eq!(view.index(), i);
        assert_eq!(View::from_index(i), *view);
    }
    assert_eq!(View::from_index(4), View::Timing);
    assert_eq!(View::from_index(usize::MAX), View::Timing);
}

#[test]
fn test_time_range_labels_and_days() {
    assert_eq!(TimeRange::Days7.label(), "7 days");
    assert_eq!(TimeRange::Days30.label(), "30 days");
    assert_eq!(TimeRange::Days90.label(), "90 days");
    assert_eq!(TimeRange::AllTime.label(), "All time");
    assert_eq!(TimeRange::Days7.days(), Some(7));
    assert_eq!(TimeRange::Days30.days(), Some(30));
    assert_eq!(TimeRange::Days90.days(), Some(90));
    assert_eq!(TimeRange::AllTime.days(), None);
}

#[test]
fn test_time_range_cycles() {
    let ranges = [TimeRange::Days7, TimeRange::Days30, TimeRange::Days90, TimeRange::AllTime];
    for (i, range) in ranges.iter().enumerate() {
        assert_eq!(range.next(), ranges[(i + 1) % 4]);
        assert_eq!(range.prev(), ranges[(i + 3) % 4]);
        assert_eq!(range.next().prev(), *range);
        assert_eq!(range.prev().next(), *range);
    }
}

#[test]
fn test_app_starts_on_overview() {
    let app = App::new();
    assert_eq!(app.current_view, View::Overview);
    assert_eq!(app.time_range, TimeRange::Days7);
    assert!(!app.should_quit);
    assert!(app.events_cache.is_none());
    assert!(app.cache_time_range.is_none());
    assert!(app.needs_reload());
    assert!(app.events().is_empty());
}

#[test]
fn test_handle_key_quits() {
    let mut app = App::new();
    app.handle_key(DashboardKey::Char('q'));
    assert!(app.should_quit);
    let mut app = App::new();
    app.handle_key(DashboardKey::Esc);
    assert!(app.should_quit);
    app.handle_key(DashboardKey::Other);
    assert!(app.should_quit);
}

#[test]
fn test_handle_key_picks_views() {
    let mut app = App::new();
    app.handle_key(DashboardKey::Char('3'));
    assert_eq!(app.current_view, View::Fingers);
    app.handle_key(DashboardKey::Char('4'));
    assert_eq!(app.current_view, View::Timing);
    app.handle_key(DashboardKey::Tab);
    assert_eq!(app.current_view, View::Overview);
    app.handle_key(DashboardKey::Tab);
    assert_eq!(app.current_view, View::Trends);
    app.handle_key(DashboardKey::BackTab);
    assert_eq!(app.current_view, View::Overview);
    app.handle_key(DashboardKey::BackTab);
    assert_eq!(app.current_view, View::Timing);
    app.handle_key(DashboardKey::Char('2'));
    assert_eq!(app.current_view, View::Trends);
    app.handle_key(DashboardKey::Char('1'));
    assert_eq!(app.current_view, View::Overview);
    app.handle_key(DashboardKey::Char('x'));
    app.handle_key(DashboardKey::Other);
    assert_eq!(app.current_view, View::Overview);
    assert!(!app.should_quit);
}

#[test]
fn test_handle_key_changes_time_range_and_cache() {
    let mut app = App::new();
    app.store_events(vec![press(1, 0), press(2, 1)]);
    assert!(!app.needs_reload());
    assert_eq!(app.events().len(), 2);
    app.handle_key(DashboardKey::Right);
    assert_eq!(app.time_range, TimeRange::Days30);
    assert!(app.needs_reload());
    assert_eq!(app.events().len(), 2);
    app.handle_key(DashboardKey::Left);
    assert_eq!(app.time_range, TimeRange::Days7);
    assert!(!app.needs_reload());
    app.handle_key(DashboardKey::Left);
    assert_eq!(app.time_range, TimeRange::AllTime);
    app.handle_key(DashboardKey::Char('r'));
    assert!(app.events_cache.is_none());
    assert!(app.cache_time_range.is_none());
    assert!(app.events().is_empty());
    assert_eq!(app.time_range, TimeRange::AllTime);
}

#[test]
fn test_get_stats() {
    let mut app = App::new();
    let mut events = Vec::new();
    for i in 0..70 {
        events.push(press(i * 100, 0x00));
        events.push(release(i * 100 + 50, 0x00));
    }
    app.store_events(events);
    let stats = app.get_stats(120);
    assert_eq!(stats.total_presses, 70);
    assert_eq!(stats.days_active, 7);
    assert_eq!(stats.daily_average, 10);
    assert_eq!(stats.median_delay_ms, 100);
    assert_eq!(stats.estimated_wpm, 120);
    app.handle_key(DashboardKey::Left);
    let stats = app.get_stats(0);
    assert_eq!(stats.days_active, 365);
    assert_eq!(stats.daily_average, 0);
    let empty = App::new().get_stats(0);
    assert_eq!(empty.total_presses, 0);
    assert_eq!(empty.median_delay_ms, 0);
}

#[test]
fn test_consistency_label() {
    assert_eq!(consistency_label(100, 199), "Excellent");
    assert_eq!(consistency_label(100, 200), "Good");
    assert_eq!(consistency_label(100, 299), "Good");
    assert_eq!(consistency_label(100, 300), "Fair");
    assert_eq!(consistency_label(100, 399), "Fair");
    assert_eq!(consistency_label(100, 400), "Variable");
    assert_eq!(consistency_label(0, 0), "Variable");
    assert_eq!(consistency_label(i64::MAX, i64::MAX), "Excellent");
}

#[test]
fn test_finger_hands_and_names() {
    assert_eq!(Finger::LeftPinky.hand(), Hand::Left);
    assert_eq!(Finger::LeftRing.hand(), Hand::Left);
    assert_eq!(Finger::LeftMiddle.hand(), Hand::Left);
    assert_eq!(Finger::LeftIndex.hand(), Hand::Left);
    assert_eq!(Finger::RightIndex.hand(), Hand::Right);
    assert_eq!(Finger::RightMiddle.hand(), Hand::Right);
    assert_eq!(Finger::RightRing.hand(), Hand::Right);
    assert_eq!(Finger::RightPinky.hand(), Hand::Right);
    assert_eq!(Finger::Thumb.hand(), Hand::Right);
    assert_eq!(Finger::LeftPinky.short_name(), "L4");
    assert_eq!(Finger::LeftIndex.short_name(), "L1");
    assert_eq!(Finger::RightRing.short_name(), "R3");
    assert_eq!(Finger::Thumb.short_name(), "Th");
    assert_eq!(finger_name(&Finger::LeftMiddle), "Left Middle");
    assert_eq!(finger_name(&Finger::RightPinky), "Right Pinky");
    assert_eq!(finger_name(&Finger::Thumb), "Thumb");
}

#[test]
fn test_qwerty_layout() {
    let layout = QwertyLayout::new();
    assert_eq!(layout.rows.len(), 5);
    let lengths: Vec<usize> = layout.rows.iter().map(|row| row.len()).collect();
    assert_eq!(lengths, vec![14, 14, 13, 12, 1]);
    assert_eq!(layout.rows[0][0].keycode, 0x32);
    assert_eq!(layout.rows[0][0].label, "`");
    assert_eq!(layout.rows[4][0].width, 20);
    assert_eq!(layout.total_width(), 30);
    assert_eq!(layout.get_finger(0x31), Some(Finger::Thumb));
    assert_eq!(layout.get_finger(0x00), Some(Finger::LeftPinky));
    assert_eq!(layout.get_finger(0x03), Some(Finger::LeftIndex));
    assert_eq!(layout.get_finger(0x26), Some(Finger::RightIndex));
    assert_eq!(layout.get_finger(0x2C), Some(Finger::RightPinky));
    assert_eq!(layout.get_finger(0x7A), None);
    assert_eq!(layout.get_finger(u32::MAX), None);
    for row in &layout.rows {
        for key in row {
            assert_eq!(layout.get_finger(key.keycode), Some(key.finger));
        }
    }
    assert_eq!(QwertyLayout::default().total_width(), 30);
}

#[test]
fn test_daily_lines() {
    let day = 86_400_000;
    let events = vec![
        press(947_638_923_004, 0),
        press(0, 1),
        release(1, 1),
        press(day - 1, 2),
        press(day, 3),
        press(947_638_923_004 + 1000, 4),
        press(-1, 5),
        release(3 * day, 5),
    ];
    let lines = daily_lines(&events);
    let got: Vec<(String, u64)> = lines.iter().map(|l| (l.date.clone(), l.count)).collect();
    assert_eq!(
        got,
        vec![
            ("1969-12-31".to_string(), 1),
            ("1970-01-01".to_string(), 2),
            ("1970-01-02".to_string(), 1),
            ("2000-01-12".to_string(), 2),
        ]
    );
    assert_eq!(get_daily_counts(&events), vec![1, 2, 1, 2]);
    assert!(daily_lines(&[]).is_empty());
    assert!(get_daily_counts(&[]).is_empty());
}

#[test]
fn test_daily_lines_out_of_range_timestamps() {
    let events = vec![press(i64::MAX, 0), press(0, 1), press(i64::MIN, 2)];
    let lines = daily_lines(&events);
    let got: Vec<(String, u64)> = lines.iter().map(|l| (l.date.clone(), l.count)).collect();
    assert_eq!(got, vec![("".to_string(), 2), ("1970-01-01".to_string(), 1)]);
}

#[test]
fn test_sample_pairs_and_gray_levels() {
    let app = App::new();
    let fastest = app.get_fastest_pairs();
    assert_eq!(fastest.len(), 8);
    assert_eq!(fastest[0], ("TH".to_string(), 42, 12845));
    assert_eq!(fastest[7], ("ES".to_string(), 56, 7456));
    let slowest = app.get_slowest_pairs();
    assert_eq!(slowest.len(), 8);
    assert_eq!(slowest[0], ("QU".to_string(), 185, 1234));
    assert_eq!(slowest[7], ("BN".to_string(), 125, 2345));
    assert_eq!(Finger::LeftPinky.gray_level(), 80);
    assert_eq!(Finger::RightRing.gray_level(), 120);
    assert_eq!(Finger::LeftMiddle.gray_level(), 160);
    assert_eq!(Finger::RightIndex.gray_level(), 200);
    assert_eq!(Finger::Thumb.gray_level(), 220);
}

#[test]
fn test_count_days() {
    let labels = vec![
        "2024-03-02".to_string(),
        "2024-03-01".to_string(),
        "".to_string(),
        "2024-03-02".to_string(),
        "2023-12-31".to_string(),
        "2024-03-02".to_string(),
    ];
    let table = count_days(labels);
    let got: Vec<(&str, u64)> = table.iter().map(|l| (l.date.as_str(), l.count)).collect();
    assert_eq!(got, vec![("", 1), ("2023-12-31", 1), ("2024-03-01", 1), ("2024-03-02", 3)]);
    assert!(count_days(Vec::new()).is_empty());
}

#[test]
fn test_truncate_app_name() {
    assert_eq!(truncate_app_name("com.apple.Safari"), "Safari");
    assert_eq!(truncate_app_name("Safari"), "Safari");
    assert_eq!(truncate_app_name(""), "");
    assert_eq!(truncate_app_name("com.apple."), "");
    assert_eq!(truncate_app_name("com.example.ABCDEFGHIJKLMNOPQR"), "ABCDEFGHIJKLMNOPQR");
    assert_eq!(truncate_app_name("com.example.ABCDEFGHIJKLMNOPQRS"), "ABCDEFGHIJKLMNOPQ…");
    assert_eq!(
        truncate_app_name("org.example.AnApplicationWithAVeryLongName"),
        "AnApplicationWith…"
    );
}
