use crate::analysis::filters::{
    lemma_segments_concatenate, presses, segment_views, split_by_gap,
    FilterConfig,
};
use crate::analysis::frequency::{
    is_bigram_table, is_key_table, is_trigram_table, FrequencyAnalysis,
};
use crate::analysis::timing::{
    intervals, is_hold_table, is_pair_table, is_summary, TimingAnalysis,
};
use crate::models::KeystrokeEvent;
use vstd::prelude::*;

verus! {

/// What one analysis run yields: how the events fell into typing segments,
/// and the frequency and timing statistics of the events of those segments.
#[derive(Debug)]
pub struct AnalysisReport {
    pub total_events: usize,
    pub segment_count: usize,
    pub analyzed_events: usize,
    pub frequency: FrequencyAnalysis,
    pub timing: TimingAnalysis,
}

/// Splits `events` into typing segments and analyses the events of all
/// segments, in their order. The segments cover the events exactly, so that
/// every event is analysed.
pub fn analyze(events: &[KeystrokeEvent], config: FilterConfig) -> (report: AnalysisReport)
    ensures
        report.total_events == events@.len(),
        report.segment_count == split_by_gap(config.max_gap_ms, events@).len(),
        report.analyzed_events == events@.len(),
        report.frequency.total_presses == presses(events@).len(),
        is_key_table(presses(events@), report.frequency.key_frequencies@),
        is_bigram_table(presses(events@), report.frequency.bigram_frequencies@),
        is_trigram_table(presses(events@), report.frequency.trigram_frequencies@),
        is_summary(intervals(presses(events@), config), report.timing.overall_inter_key),
        is_pair_table(presses(events@), config, report.timing.per_key_inter_key@),
        is_hold_table(events@, config, report.timing.hold_durations@),
        report.timing.filter_config == config,
{
    let segments = config.filter_events_by_gap(events);
    let segment_count = segments.len();
    let total_events = events.len();
    let mut analyzed_events: usize = 0;
    let mut k: usize = 0;
    let ghost parts = segment_views(segments@);
    proof {
        lemma_segments_concatenate(config.max_gap_ms, events@);
        parts.lemma_flatten_and_flatten_alt_are_equivalent();
        assert(parts.take(0) =~= Seq::<Seq<KeystrokeEvent>>::empty());
    }
    while k < segments.len()
        invariant
            k <= segments@.len(),
            parts == segment_views(segments@),
            parts.flatten_alt() == events@,
            events@.len() == total_events,
            analyzed_events == parts.take(k as int).flatten_alt().len(),
        decreases segments@.len() - k,
    {
        proof {
            assert(parts.take(k as int + 1).drop_last() =~= parts.take(k as int));
            assert(parts.take(k as int + 1).last() == segments@[k as int]@);
            lemma_flatten_prefix_length(parts, k as int + 1);
            assert(parts.take(k as int + 1).flatten_alt().len() == analyzed_events
                + segments@[k as int]@.len());
        }
        analyzed_events = analyzed_events + segments[k].len();
        k += 1;
    }
    assert(parts.take(k as int) =~= parts);
    let frequency = FrequencyAnalysis::from_events(events);
    let timing = TimingAnalysis::from_events(events, config);
    AnalysisReport { total_events, segment_count, analyzed_events, frequency, timing }
}

/// The first `n` parts laid end to end are no longer than all parts.
proof fn lemma_flatten_prefix_length(parts: Seq<Seq<KeystrokeEvent>>, n: int)
    requires
        0 <= n <= parts.len(),
    ensures
        parts.take(n).flatten_alt().len() <= parts.flatten_alt().len(),
    decreases parts.len() - n,
{
    if n < parts.len() {
        lemma_flatten_prefix_length(parts, n + 1);
        assert(parts.take(n + 1).drop_last() =~= parts.take(n));
    } else {
        assert(parts.take(n) =~= parts);
    }
}

} // verus!
