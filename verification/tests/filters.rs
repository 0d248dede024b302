use lurk::analysis::filters::{calculate_percentile_sorted, calculate_percentiles, select_presses};
use lurk::analysis::FilterConfig;
use lurk::models::{EventType, KeystrokeEvent};

fn make_event(timestamp: i64) -> KeystrokeEvent {
    KeystrokeEvent {
        timestamp,
        key_code: 0x00,
        event_type: EventType::Press,
        modifiers: vec![],
        application: "test".to_string(),
    }
}

fn make_release(timestamp: i64) -> KeystrokeEvent {
    KeystrokeEvent {
        timestamp,
        key_code: 0x00,
        event_type: EventType::Release,
        modifiers: vec![],
        application: "test".to_string(),
    }
}

#[test]
fn test_filter_config_default() {
    let config = FilterConfig::default();
    assert_eq!(config.max_gap_ms, 5000);
    assert_eq!(config.min_hold_ms, 10);
    assert_eq!(config.max_hold_ms, 2000);
}

#[test]
fn test_is_valid_interval() {
    let config = FilterConfig::default();

    assert!(config.is_valid_interval(100));
    assert!(config.is_valid_interval(4999));
    assert!(!config.is_valid_interval(5000));
    assert!(!config.is_valid_interval(10000));
    assert!(!config.is_valid_interval(0));
    assert!(!config.is_valid_interval(-1));
}

#[test]
fn test_is_valid_hold_duration() {
    let config = FilterConfig::default();

    assert!(config.is_valid_hold_duration(50));
    assert!(config.is_valid_hold_duration(100));
    assert!(config.is_valid_hold_duration(2000));
    assert!(!config.is_valid_hold_duration(5));
    assert!(!config.is_valid_hold_duration(2001));
}

#[test]
fn test_hold_duration_bounds_are_inclusive() {
    let config = FilterConfig::default();
    assert!(config.is_valid_hold_duration(10));
    assert!(!config.is_valid_hold_duration(9));
    assert!(!config.is_valid_hold_duration(-10));
}

#[test]
fn test_interval_between() {
    let config = FilterConfig::default();
    assert_eq!(config.interval_between(100, 200), Some(100));
    assert_eq!(config.interval_between(100, 5099), Some(4999));
    assert_eq!(config.interval_between(100, 5100), None);
    assert_eq!(config.interval_between(100, 100), None);
    assert_eq!(config.interval_between(200, 100), None);
    assert_eq!(config.interval_between(i64::MIN, i64::MAX), None);
    assert_eq!(config.interval_between(i64::MAX, i64::MIN), None);
}

#[test]
fn test_hold_between() {
    let config = FilterConfig::default();
    assert_eq!(config.hold_between(100, 200), Some(100));
    assert_eq!(config.hold_between(100, 110), Some(10));
    assert_eq!(config.hold_between(100, 2100), Some(2000));
    assert_eq!(config.hold_between(100, 109), None);
    assert_eq!(config.hold_between(100, 2101), None);
    assert_eq!(config.hold_between(i64::MAX, i64::MIN), None);
    assert_eq!(config.hold_between(i64::MIN, i64::MAX), None);
}

#[test]
fn test_filter_events_by_gap_empty() {
    let config = FilterConfig::default();
    let events: Vec<KeystrokeEvent> = vec![];
    let segments = config.filter_events_by_gap(&events);
    assert!(segments.is_empty());
}

#[test]
fn test_filter_events_by_gap_single() {
    let config = FilterConfig::default();
    let events = vec![make_event(100)];
    let segments = config.filter_events_by_gap(&events);
    assert_eq!(segments.len(), 1);
    assert_eq!(segments[0].len(), 1);
}

#[test]
fn test_filter_events_by_gap_continuous() {
    let config = FilterConfig::default();
    let events = vec![make_event(100), make_event(200), make_event(300)];

    let segments = config.filter_events_by_gap(&events);
    assert_eq!(segments.len(), 1);
    assert_eq!(segments[0].len(), 3);
}

#[test]
fn test_filter_events_by_gap_with_break() {
    let config = FilterConfig::default();
    let events = vec![
        make_event(100),
        make_event(200),
        make_event(10000),
        make_event(10100),
    ];

    let segments = config.filter_events_by_gap(&events);
    assert_eq!(segments.len(), 2);
    assert_eq!(segments[0].len(), 2);
    assert_eq!(segments[1].len(), 2);
}

#[test]
fn test_segments_keep_order_and_cover_input() {
    let config = FilterConfig::default();
    let stamps = [0i64, 10, 6000, 6001, 6002, 20000, 40000, 40001];
    let events: Vec<KeystrokeEvent> = stamps.iter().map(|t| make_event(*t)).collect();
    let segments = config.filter_events_by_gap(&events);
    let lengths: Vec<usize> = segments.iter().map(|s| s.len()).collect();
    assert_eq!(lengths, vec![2, 3, 1, 2]);
    let joined: Vec<i64> = segments.iter().flat_map(|s| s.iter().map(|e| e.timestamp)).collect();
    assert_eq!(joined, stamps.to_vec());
}

#[test]
fn test_gap_equal_to_threshold_does_not_break() {
    let config = FilterConfig::default();
    let events = vec![make_event(0), make_event(5000), make_event(10001)];
    let segments = config.filter_events_by_gap(&events);
    assert_eq!(segments.len(), 2);
    assert_eq!(segments[0].len(), 2);
    assert_eq!(segments[1].len(), 1);
}

#[test]
fn test_segments_with_extreme_timestamps() {
    let config = FilterConfig::default();
    let events = vec![make_event(i64::MIN), make_event(i64::MAX), make_event(i64::MIN)];
    let segments = config.filter_events_by_gap(&events);
    assert_eq!(segments.len(), 2);
    assert_eq!(segments[0].len(), 1);
    assert_eq!(segments[1].len(), 2);
}

#[test]
fn test_calculate_percentiles() {
    let mut values: Vec<i64> = (1..=100).collect();

    let (p50, p90, p95, p99) = calculate_percentiles(&mut values).unwrap();

    assert!(p50 >= 49 && p50 <= 51);
    assert!(p90 >= 89 && p90 <= 91);
    assert!(p95 >= 94 && p95 <= 96);
    assert!(p99 >= 98 && p99 <= 100);
}

#[test]
fn test_calculate_percentiles_exact_ranks() {
    let mut values: Vec<i64> = (1..=100).rev().collect();
    assert_eq!(calculate_percentiles(&mut values), Some((50, 90, 95, 99)));
    let sorted: Vec<i64> = (1..=100).collect();
    assert_eq!(values, sorted);
}

#[test]
fn test_calculate_percentiles_sorts_in_place() {
    let mut values: Vec<i64> = vec![30, -5, 20, 20, 10];
    let result = calculate_percentiles(&mut values);
    assert_eq!(values, vec![-5, 10, 20, 20, 30]);
    assert_eq!(result, Some((20, 20, 20, 20)));
}

#[test]
fn test_calculate_percentiles_empty() {
    let mut values: Vec<i64> = vec![];
    assert!(calculate_percentiles(&mut values).is_none());
}

#[test]
fn test_calculate_percentiles_single() {
    let mut values = vec![42];
    let (p50, p90, p95, p99) = calculate_percentiles(&mut values).unwrap();
    assert_eq!(p50, 42);
    assert_eq!(p90, 42);
    assert_eq!(p95, 42);
    assert_eq!(p99, 42);
}

#[test]
fn test_calculate_percentiles_zero_is_not_no_data() {
    let mut values: Vec<i64> = vec![0];
    assert_eq!(calculate_percentiles(&mut values), Some((0, 0, 0, 0)));
}

#[test]
fn test_percentiles_are_ordered() {
    let mut values: Vec<i64> = vec![7, -3, 900, 12, 12, 0, 45, 1_000_000, -80, 5, 6];
    let (p50, p90, p95, p99) = calculate_percentiles(&mut values).unwrap();
    assert!(p50 <= p90 && p90 <= p95 && p95 <= p99);
    assert_eq!((p50, p90, p95, p99), (7, 900, 900, 900));
}

#[test]
fn test_calculate_percentile_sorted() {
    let sorted: Vec<i64> = vec![10, 20, 30, 40, 50];
    assert_eq!(calculate_percentile_sorted(&sorted, 0), Some(10));
    assert_eq!(calculate_percentile_sorted(&sorted, 50), Some(30));
    assert_eq!(calculate_percentile_sorted(&sorted, 90), Some(40));
    assert_eq!(calculate_percentile_sorted(&sorted, 100), Some(50));
    assert_eq!(calculate_percentile_sorted(&sorted, 400), Some(50));
    assert_eq!(calculate_percentile_sorted(&[], 50), None);
}

#[test]
fn test_select_presses() {
    let events = vec![make_event(1), make_release(2), make_event(3), make_release(4)];
    let selected = select_presses(&events);
    let stamps: Vec<i64> = selected.iter().map(|e| e.timestamp).collect();
    assert_eq!(stamps, vec![1, 3]);
}
