use lurk::analysis::timing::TimingAnalysis;
use lurk::analysis::FilterConfig;
use lurk::models::{EventType, KeystrokeEvent};

fn make_press(timestamp: i64, key_code: u32) -> KeystrokeEvent {
    KeystrokeEvent {
        timestamp,
        key_code,
        event_type: EventType::Press,
        modifiers: vec![],
        application: "test".to_string(),
    }
}

fn make_release(timestamp: i64, key_code: u32) -> KeystrokeEvent {
    KeystrokeEvent {
        timestamp,
        key_code,
        event_type: EventType::Release,
        modifiers: vec![],
        application: "test".to_string(),
    }
}

fn mean(total_ms: i128, count: usize) -> f64 {
    if count > 0 {
        total_ms as f64 / count as f64
    } else {
        0.0
    }
}

#[test]
fn timing_test_empty_events() {
    let analysis = TimingAnalysis::from_events(&[], FilterConfig::default());
    assert_eq!(analysis.overall_inter_key.count, 0);
    assert_eq!(analysis.overall_inter_key.total_ms, 0);
    assert_eq!(analysis.overall_inter_key.median_ms, 0);
    assert_eq!(analysis.overall_inter_key.p90_ms, 0);
    assert_eq!(analysis.overall_inter_key.p95_ms, 0);
    assert_eq!(analysis.overall_inter_key.p99_ms, 0);
    assert!(analysis.per_key_inter_key.is_empty());
    assert!(analysis.hold_durations.is_empty());
    assert!(analysis.top_hold_durations(3).is_empty());
    assert!(analysis.top_inter_key_pairs(3).is_empty());
}

#[test]
fn test_single_event_yields_empty_aggregate() {
    let events = vec![make_press(100, 0x00)];
    let analysis = TimingAnalysis::from_events(&events, FilterConfig::default());
    assert_eq!(analysis.overall_inter_key.count, 0);
    assert!(analysis.per_key_inter_key.is_empty());
    assert!(analysis.hold_durations.is_empty());
}

#[test]
fn test_inter_key_interval() {
    let events = vec![make_press(100, 0x00), make_press(200, 0x01), make_press(300, 0x02)];

    let analysis = TimingAnalysis::from_events(&events, FilterConfig::default());
    assert_eq!(analysis.overall_inter_key.count, 2);
    let stats = analysis.overall_inter_key;
    assert!((mean(stats.total_ms, stats.count) - 100.0).abs() < 0.01);
}

#[test]
fn test_overall_statistics_exact() {
    let events = vec![
        make_press(0, 0x00),
        make_press(300, 0x01),
        make_press(400, 0x02),
        make_press(600, 0x03),
        make_press(600, 0x04),
        make_press(500, 0x05),
        make_press(6000, 0x06),
    ];
    let analysis = TimingAnalysis::from_events(&events, FilterConfig::default());
    let stats = analysis.overall_inter_key;
    assert_eq!(stats.count, 3);
    assert_eq!(stats.total_ms, 600);
    assert_eq!(stats.median_ms, 200);
    assert_eq!(stats.p90_ms, 200);
    assert_eq!(stats.p95_ms, 200);
    assert_eq!(stats.p99_ms, 200);
}

#[test]
fn test_inter_key_filters_large_gaps() {
    let events = vec![make_press(100, 0x00), make_press(10000, 0x01)];

    let analysis = TimingAnalysis::from_events(&events, FilterConfig::default());
    assert_eq!(analysis.overall_inter_key.count, 0);
}

#[test]
fn test_config_is_carried() {
    let config = FilterConfig { max_gap_ms: 123, min_hold_ms: 4, max_hold_ms: 56 };
    let analysis = TimingAnalysis::from_events(&[], config);
    assert_eq!(analysis.filter_config.max_gap_ms, 123);
    assert_eq!(analysis.filter_config.min_hold_ms, 4);
    assert_eq!(analysis.filter_config.max_hold_ms, 56);
}

#[test]
fn test_hold_duration_calculation() {
    let events = vec![
        make_press(100, 0x00),
        make_release(200, 0x00),
        make_press(300, 0x00),
        make_release(400, 0x00),
    ];

    let analysis = TimingAnalysis::from_events(&events, FilterConfig::default());
    let hold = &analysis.hold_durations[0];

    assert_eq!(hold.key_code, 0x00);
    assert_eq!(hold.sample_count, 2);
    assert!((mean(hold.total_ms, hold.sample_count) - 100.0).abs() < 0.01);
    assert_eq!(analysis.hold_durations.len(), 1);
    assert_eq!(hold.key_name, "A");
    assert_eq!(hold.durations_ms, vec![100, 100]);
    assert_eq!(hold.median_ms, 100);
    assert_eq!(hold.p95_ms, 100);
}

#[test]
fn test_hold_duration_filters_invalid() {
    let config = FilterConfig { max_gap_ms: 5000, min_hold_ms: 50, max_hold_ms: 500 };

    let events = vec![
        make_press(100, 0x00),
        make_release(110, 0x00),
        make_press(200, 0x01),
        make_release(1000, 0x01),
    ];

    let analysis = TimingAnalysis::from_events(&events, config);
    assert!(analysis.hold_durations.is_empty());
}

#[test]
fn test_hold_pairing_is_last_in_first_out() {
    let events = vec![
        make_press(0, 0x00),
        make_press(100, 0x00),
        make_release(150, 0x00),
        make_release(1000, 0x00),
        make_release(1100, 0x00),
        make_press(1200, 0x00),
    ];
    let analysis = TimingAnalysis::from_events(&events, FilterConfig::default());
    assert_eq!(analysis.hold_durations.len(), 1);
    let hold = &analysis.hold_durations[0];
    assert_eq!(hold.sample_count, 2);
    assert_eq!(hold.durations_ms, vec![50, 1000]);
    assert_eq!(hold.total_ms, 1050);
    assert_eq!(hold.median_ms, 50);
    assert_eq!(hold.p95_ms, 50);
}

#[test]
fn test_release_without_press_is_discarded() {
    let events = vec![make_release(100, 0x00), make_press(200, 0x01)];
    let analysis = TimingAnalysis::from_events(&events, FilterConfig::default());
    assert!(analysis.hold_durations.is_empty());
}

#[test]
fn test_percentiles() {
    let events: Vec<KeystrokeEvent> = (0..100).map(|i| make_press(i * 100, 0x00)).collect();

    let analysis = TimingAnalysis::from_events(&events, FilterConfig::default());
    assert!(analysis.overall_inter_key.median_ms > 0);
    assert!(analysis.overall_inter_key.p95_ms >= analysis.overall_inter_key.median_ms);
    let stats = analysis.overall_inter_key;
    assert!(stats.median_ms <= stats.p90_ms);
    assert!(stats.p90_ms <= stats.p95_ms);
    assert!(stats.p95_ms <= stats.p99_ms);
}

#[test]
fn test_multiple_keys_hold_duration() {
    let events = vec![
        make_press(100, 0x00),
        make_release(200, 0x00),
        make_press(100, 0x01),
        make_release(250, 0x01),
        make_press(100, 0x01),
        make_release(250, 0x01),
    ];

    let analysis = TimingAnalysis::from_events(&events, FilterConfig::default());
    assert_eq!(analysis.hold_durations.len(), 2);

    let key_01 = analysis.hold_durations.iter().find(|h| h.key_code == 0x01).unwrap();
    assert_eq!(key_01.sample_count, 2);
    assert_eq!(analysis.hold_durations[0].key_code, 0x01);
    assert_eq!(analysis.hold_durations[1].key_code, 0x00);
    assert_eq!(analysis.top_hold_durations(1).len(), 1);
    assert_eq!(analysis.top_hold_durations(1)[0].key_code, 0x01);
    assert_eq!(analysis.top_hold_durations(9).len(), 2);
}

#[test]
fn test_pair_with_two_intervals_is_not_reported() {
    let events = vec![
        make_press(0, 0x00),
        make_press(100, 0x01),
        make_press(200, 0x00),
        make_press(300, 0x01),
    ];
    let analysis = TimingAnalysis::from_events(&events, FilterConfig::default());
    assert_eq!(analysis.overall_inter_key.count, 3);
    assert!(analysis.per_key_inter_key.is_empty());
}

#[test]
fn test_pair_with_three_intervals_is_reported() {
    let events = vec![
        make_press(0, 0x00),
        make_press(100, 0x01),
        make_press(200, 0x00),
        make_press(350, 0x01),
        make_press(400, 0x00),
        make_press(520, 0x01),
    ];
    let analysis = TimingAnalysis::from_events(&events, FilterConfig::default());
    assert_eq!(analysis.per_key_inter_key.len(), 1);
    let pair = &analysis.per_key_inter_key[0];
    assert_eq!((pair.from_key, pair.to_key), (0x00, 0x01));
    assert_eq!(pair.intervals_ms, vec![100, 120, 150]);
    assert_eq!(pair.total_ms, 370);
    assert_eq!(pair.median_ms, 120);
    assert_eq!(pair.p95_ms, 120);
    assert!((mean(pair.total_ms, pair.intervals_ms.len()) - 123.33).abs() < 0.01);
    assert_eq!(analysis.top_inter_key_pairs(5).len(), 1);
    assert_eq!(analysis.top_inter_key_pairs(0).len(), 0);
}

#[test]
fn test_pairs_are_ranked_by_sample_count() {
    let mut events = Vec::new();
    let mut now = 0;
    for _ in 0..3 {
        events.push(make_press(now, 0x05));
        events.push(make_press(now + 10, 0x06));
        now += 10_000;
    }
    for _ in 0..4 {
        events.push(make_press(now, 0x08));
        events.push(make_press(now + 20, 0x09));
        now += 10_000;
    }
    for _ in 0..3 {
        events.push(make_press(now, 0x02));
        events.push(make_press(now + 30, 0x03));
        now += 10_000;
    }
    let analysis = TimingAnalysis::from_events(&events, FilterConfig::default());
    let order: Vec<(u32, u32, usize)> = analysis
        .per_key_inter_key
        .iter()
        .map(|p| (p.from_key, p.to_key, p.intervals_ms.len()))
        .collect();
    assert_eq!(order, vec![(0x08, 0x09, 4), (0x02, 0x03, 3), (0x05, 0x06, 3)]);
}

#[test]
fn test_timing_with_extreme_timestamps() {
    let events = vec![
        make_press(i64::MIN, 0x00),
        make_release(i64::MAX, 0x00),
        make_press(i64::MAX, 0x01),
        make_release(i64::MIN, 0x01),
    ];
    let analysis = TimingAnalysis::from_events(&events, FilterConfig::default());
    assert_eq!(analysis.overall_inter_key.count, 0);
    assert!(analysis.hold_durations.is_empty());
}
