use lurk::analysis::frequency::FrequencyAnalysis;
use lurk::models::{EventType, KeystrokeEvent};

fn make_press(timestamp: i64, key_code: u32) -> KeystrokeEvent {
    KeystrokeEvent {
        timestamp,
        key_code,
        event_type: EventType::Press,
        modifiers: vec![],
        application: "test".to_string(),
    }
}

fn make_release(timestamp: i64, key_code: u32) -> KeystrokeEvent {
    KeystrokeEvent {
        timestamp,
        key_code,
        event_type: EventType::Release,
        modifiers: vec![],
        application: "test".to_string(),
    }
}

fn percentage(count: u64, total: u64) -> f64 {
    if total > 0 {
        (count as f64 / total as f64) * 100.0
    } else {
        0.0
    }
}

#[test]
fn frequency_test_empty_events() {
    let analysis = FrequencyAnalysis::from_events(&[]);
    assert_eq!(analysis.total_presses, 0);
    assert!(analysis.key_frequencies.is_empty());
    assert!(analysis.bigram_frequencies.is_empty());
    assert!(analysis.trigram_frequencies.is_empty());
    assert!(analysis.top_keys(5).is_empty());
    assert!(analysis.top_bigrams(5).is_empty());
    assert!(analysis.top_trigrams(5).is_empty());
}

#[test]
fn test_key_frequency_count() {
    let events = vec![make_press(100, 0x00), make_press(200, 0x00), make_press(300, 0x01)];

    let analysis = FrequencyAnalysis::from_events(&events);
    assert_eq!(analysis.total_presses, 3);

    let top = analysis.top_keys(10);
    assert_eq!(top[0].key_code, 0x00);
    assert_eq!(top[0].count, 2);
    assert_eq!(top[1].key_code, 0x01);
    assert_eq!(top[1].count, 1);
}

#[test]
fn test_key_frequency_percentages() {
    let events = vec![make_press(100, 0x00), make_press(200, 0x00), make_press(300, 0x01)];
    let analysis = FrequencyAnalysis::from_events(&events);
    let top = analysis.top_keys(10);
    assert_eq!(top.len(), 2);
    assert_eq!(top[0].key_name, "A");
    assert_eq!(top[1].key_name, "S");
    assert_eq!(top[0].total, 3);
    assert_eq!(top[1].total, 3);
    assert!((percentage(top[0].count, top[0].total) - 66.7).abs() < 0.05);
    assert!((percentage(top[1].count, top[1].total) - 33.3).abs() < 0.05);
}

#[test]
fn test_only_counts_presses() {
    let events = vec![
        make_press(100, 0x00),
        make_release(150, 0x00),
        make_press(200, 0x01),
        make_release(250, 0x01),
    ];

    let analysis = FrequencyAnalysis::from_events(&events);
    assert_eq!(analysis.total_presses, 2);
}

#[test]
fn test_bigram_detection() {
    let events = vec![
        make_press(100, 0x00),
        make_press(200, 0x01),
        make_press(300, 0x00),
        make_press(400, 0x01),
    ];

    let analysis = FrequencyAnalysis::from_events(&events);
    let bigrams = analysis.top_bigrams(10);

    assert!(!bigrams.is_empty());
    let ab_bigram = bigrams.iter().find(|b| b.first_key == 0x00 && b.second_key == 0x01);
    assert!(ab_bigram.is_some());
    assert_eq!(ab_bigram.unwrap().count, 2);
}

#[test]
fn test_bigram_table_is_ranked() {
    let events = vec![
        make_press(100, 0x00),
        make_press(200, 0x01),
        make_press(300, 0x00),
        make_press(400, 0x01),
    ];
    let analysis = FrequencyAnalysis::from_events(&events);
    let bigrams = &analysis.bigram_frequencies;
    assert_eq!(bigrams.len(), 2);
    assert_eq!((bigrams[0].first_key, bigrams[0].second_key, bigrams[0].count), (0x00, 0x01, 2));
    assert_eq!((bigrams[1].first_key, bigrams[1].second_key, bigrams[1].count), (0x01, 0x00, 1));
    assert_eq!(bigrams[0].display, "A -> S");
    assert_eq!(bigrams[1].display, "S -> A");
    assert_eq!(bigrams[0].total, 3);
    assert!((percentage(bigrams[0].count, bigrams[0].total) - 66.67).abs() < 0.01);
    assert!((percentage(bigrams[1].count, bigrams[1].total) - 33.33).abs() < 0.01);
}

#[test]
fn test_bigram_filters_large_gaps() {
    let events = vec![make_press(100, 0x00), make_press(10000, 0x01)];

    let analysis = FrequencyAnalysis::from_events(&events);
    assert!(analysis.bigram_frequencies.is_empty());
}

#[test]
fn test_bigram_window_is_exclusive() {
    let at_window = vec![make_press(0, 0x00), make_press(5000, 0x01)];
    assert!(FrequencyAnalysis::from_events(&at_window).bigram_frequencies.is_empty());
    let below_window = vec![make_press(0, 0x00), make_press(4999, 0x01)];
    assert_eq!(FrequencyAnalysis::from_events(&below_window).bigram_frequencies.len(), 1);
}

#[test]
fn test_bigram_skips_releases_between_presses() {
    let events = vec![
        make_press(100, 0x00),
        make_release(150, 0x00),
        make_press(200, 0x01),
        make_release(250, 0x01),
    ];
    let analysis = FrequencyAnalysis::from_events(&events);
    assert_eq!(analysis.bigram_frequencies.len(), 1);
    assert_eq!(analysis.bigram_frequencies[0].first_key, 0x00);
    assert_eq!(analysis.bigram_frequencies[0].second_key, 0x01);
}

#[test]
fn test_trigram_detection() {
    let events = vec![make_press(100, 0x00), make_press(200, 0x01), make_press(300, 0x02)];

    let analysis = FrequencyAnalysis::from_events(&events);
    let trigrams = analysis.top_trigrams(10);

    assert_eq!(trigrams.len(), 1);
    assert_eq!(trigrams[0].keys, (0x00, 0x01, 0x02));
}

#[test]
fn test_trigram_entry_fields() {
    let events = vec![
        make_press(100, 0x00),
        make_press(200, 0x01),
        make_press(300, 0x02),
        make_press(400, 0x00),
        make_press(500, 0x01),
        make_press(600, 0x02),
    ];
    let analysis = FrequencyAnalysis::from_events(&events);
    let trigrams = analysis.top_trigrams(10);
    assert_eq!(trigrams.len(), 3);
    assert_eq!(trigrams[0].keys, (0x00, 0x01, 0x02));
    assert_eq!(trigrams[0].count, 2);
    assert_eq!(trigrams[0].total, 4);
    assert_eq!(trigrams[0].display, "A -> S -> D");
    assert_eq!(trigrams[1].keys, (0x01, 0x02, 0x00));
    assert_eq!(trigrams[2].keys, (0x02, 0x00, 0x01));
    let copy = trigrams[0].clone();
    assert_eq!(copy.keys, trigrams[0].keys);
    assert_eq!(copy.display, trigrams[0].display);
    assert_eq!(copy.count, 2);
}

#[test]
fn test_trigram_needs_both_gaps_in_window() {
    let events = vec![make_press(0, 0x00), make_press(100, 0x01), make_press(6000, 0x02)];
    let analysis = FrequencyAnalysis::from_events(&events);
    assert!(analysis.trigram_frequencies.is_empty());
    assert_eq!(analysis.bigram_frequencies.len(), 1);
}

#[test]
fn test_large_key_codes_round_trip() {
    let events = vec![
        make_press(0, u32::MAX),
        make_press(10, 0x1_0000),
        make_press(20, u32::MAX),
        make_press(30, 0x1_0000),
    ];
    let analysis = FrequencyAnalysis::from_events(&events);
    assert_eq!(analysis.key_frequencies[0].key_code, 0x1_0000);
    assert_eq!(analysis.key_frequencies[1].key_code, u32::MAX);
    let bigrams = &analysis.bigram_frequencies;
    assert_eq!((bigrams[0].first_key, bigrams[0].second_key, bigrams[0].count), (u32::MAX, 0x1_0000, 2));
    assert_eq!((bigrams[1].first_key, bigrams[1].second_key, bigrams[1].count), (0x1_0000, u32::MAX, 1));
    let trigrams = &analysis.trigram_frequencies;
    assert_eq!(trigrams[0].keys, (0x1_0000, u32::MAX, 0x1_0000));
    assert_eq!(trigrams[1].keys, (u32::MAX, 0x1_0000, u32::MAX));
}

#[test]
fn test_percentage_calculation() {
    let events = vec![
        make_press(100, 0x00),
        make_press(200, 0x00),
        make_press(300, 0x01),
        make_press(400, 0x02),
    ];

    let analysis = FrequencyAnalysis::from_events(&events);
    let top = analysis.top_keys(10);

    assert!((percentage(top[0].count, top[0].total) - 50.0).abs() < 0.01);
    assert!((percentage(top[1].count, top[1].total) - 25.0).abs() < 0.01);
}

#[test]
fn test_ties_are_broken_by_key_code() {
    let events = vec![
        make_press(100, 0x09),
        make_press(200, 0x03),
        make_press(300, 0x07),
        make_press(400, 0x03),
        make_press(500, 0x01),
    ];
    let analysis = FrequencyAnalysis::from_events(&events);
    let order: Vec<(u32, u64)> =
        analysis.key_frequencies.iter().map(|k| (k.key_code, k.count)).collect();
    assert_eq!(order, vec![(0x03, 2), (0x01, 1), (0x07, 1), (0x09, 1)]);
}

#[test]
fn test_top_keys_limit() {
    let events = vec![
        make_press(100, 0x00),
        make_press(200, 0x01),
        make_press(300, 0x02),
        make_press(400, 0x03),
        make_press(500, 0x04),
    ];

    let analysis = FrequencyAnalysis::from_events(&events);
    let top2 = analysis.top_keys(2);
    assert_eq!(top2.len(), 2);
    assert_eq!(analysis.top_keys(0).len(), 0);
    assert_eq!(analysis.top_keys(5).len(), 5);
    assert_eq!(analysis.top_keys(usize::MAX).len(), 5);
    assert_eq!(analysis.top_bigrams(3).len(), 3);
    assert_eq!(analysis.top_trigrams(100).len(), 3);
}
