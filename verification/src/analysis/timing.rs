use crate::analysis::filters::{
    borrowed, calculate_percentiles, gap_before, lemma_sorted_samples, percentiles_of, presses,
    select_presses, sorted_samples, FilterConfig,
};
use crate::analysis::frequency::pair_id;
use crate::analysis::groups::SampleGroups;
use crate::analysis::tally::ranks_before;
use crate::models::keycode::{key_name, KeyCode};
use crate::models::{EventType, KeystrokeEvent};
use vstd::prelude::*;

verus! {

/// A pair of keys is reported only with at least this many intervals.
pub const MIN_PAIR_SAMPLES: usize = 3;

/// Statistics of the intervals from one key to another.
#[derive(Debug, Clone)]
pub struct InterKeyInterval {
    pub from_key: u32,
    pub to_key: u32,
    /// The intervals, in ascending order.
    pub intervals_ms: Vec<i64>,
    /// The sum of the intervals: the mean is this over their number.
    pub total_ms: i128,
    pub median_ms: i64,
    pub p95_ms: i64,
}

/// Statistics of how long one key was held.
#[derive(Debug, Clone)]
pub struct HoldDuration {
    pub key_code: u32,
    pub key_name: String,
    /// The durations, in ascending order.
    pub durations_ms: Vec<i64>,
    /// The sum of the durations: the mean is this over `sample_count`.
    pub total_ms: i128,
    pub median_ms: i64,
    pub p95_ms: i64,
    pub sample_count: usize,
}

/// Statistics of all intervals between neighbouring presses.
#[derive(Debug, Clone, Copy)]
pub struct InterKeyStats {
    pub count: usize,
    /// The sum of the intervals: the mean is this over `count`.
    pub total_ms: i128,
    pub median_ms: i64,
    pub p90_ms: i64,
    pub p95_ms: i64,
    pub p99_ms: i64,
}

/// Inter-key and hold-duration statistics of one batch of events.
#[derive(Debug)]
pub struct TimingAnalysis {
    pub overall_inter_key: InterKeyStats,
    pub per_key_inter_key: Vec<InterKeyInterval>,
    pub hold_durations: Vec<HoldDuration>,
    pub filter_config: FilterConfig,
}

/// The sum of the samples.
pub open spec fn sum_of(values: Seq<i64>) -> int
    decreases values.len(),
{
    if values.len() == 0 {
        0
    } else {
        sum_of(values.drop_last()) + values.last()
    }
}

/// The valid intervals between neighbouring presses, in their order.
pub open spec fn intervals(presses: Seq<KeystrokeEvent>, config: FilterConfig) -> Seq<i64>
    decreases presses.len(),
{
    if presses.len() < 2 {
        Seq::empty()
    } else {
        let n = presses.len() as int;
        let head = intervals(presses.drop_last(), config);
        let gap = gap_before(presses, n - 1);
        if config.valid_interval(gap) {
            head.push(gap as i64)
        } else {
            head
        }
    }
}

/// The valid intervals from a press of `pair.0` to a directly following
/// press of `pair.1`, in their order.
pub open spec fn pair_intervals(
    presses: Seq<KeystrokeEvent>,
    config: FilterConfig,
    pair: (u32, u32),
) -> Seq<i64>
    decreases presses.len(),
{
    if presses.len() < 2 {
        Seq::empty()
    } else {
        let n = presses.len() as int;
        let head = pair_intervals(presses.drop_last(), config, pair);
        let gap = gap_before(presses, n - 1);
        if config.valid_interval(gap) && presses[n - 2].key_code == pair.0 && presses[n
            - 1].key_code == pair.1 {
            head.push(gap as i64)
        } else {
            head
        }
    }
}

/// True when `stats` summarises `samples`: their number, their sum, and the
/// percentiles of their sorted order; all zero where there is no sample.
pub open spec fn is_summary(samples: Seq<i64>, stats: InterKeyStats) -> bool {
    &&& stats.count == samples.len()
    &&& stats.total_ms == sum_of(samples)
    &&& match percentiles_of(sorted_samples(samples)) {
        Some((p50, p90, p95, p99)) => {
            &&& stats.median_ms == p50
            &&& stats.p90_ms == p90
            &&& stats.p95_ms == p95
            &&& stats.p99_ms == p99
        },
        None => {
            &&& stats.median_ms == 0
            &&& stats.p90_ms == 0
            &&& stats.p95_ms == 0
            &&& stats.p99_ms == 0
        },
    }
}

/// True when `entry` summarises `samples`: it holds them in ascending order,
/// with their sum, their median and their 95th percentile.
pub open spec fn is_pair_entry(samples: Seq<i64>, entry: InterKeyInterval) -> bool {
    &&& entry.intervals_ms@ == sorted_samples(samples)
    &&& entry.total_ms == sum_of(samples)
    &&& percentiles_of(entry.intervals_ms@) matches Some((p50, _, p95, _)) && entry.median_ms
        == p50 && entry.p95_ms == p95
}

/// True when `table` lists every pair of keys with at least
/// `MIN_PAIR_SAMPLES` valid intervals exactly once, and no other pair, each
/// with the statistics of its intervals, the pair with the most intervals
/// first and the lower pair first among equals.
pub open spec fn is_pair_table(
    presses: Seq<KeystrokeEvent>,
    config: FilterConfig,
    table: Seq<InterKeyInterval>,
) -> bool {
    &&& forall|i: int|
        0 <= i < table.len() ==> {
            let samples = pair_intervals(
                presses,
                config,
                ((#[trigger] table[i]).from_key, table[i].to_key),
            );
            samples.len() >= MIN_PAIR_SAMPLES && is_pair_entry(samples, table[i])
        }
    &&& forall|i: int, j: int|
        0 <= i < j < table.len() ==> ranks_before(
            (#[trigger] table[i]).intervals_ms@.len() as int,
            pair_id((table[i].from_key, table[i].to_key)),
            (#[trigger] table[j]).intervals_ms@.len() as int,
            pair_id((table[j].from_key, table[j].to_key)),
        )
    &&& forall|pair: (u32, u32)|
        pair_intervals(presses, config, pair).len() >= MIN_PAIR_SAMPLES ==> exists|i: int|
            0 <= i < table.len() && (#[trigger] table[i]).from_key == pair.0 && table[i].to_key
                == pair.1
}

/// The press times of `key` that still wait for a release after `events`,
/// the oldest first. A press is put on top; a release takes the newest off.
pub open spec fn pending(events: Seq<KeystrokeEvent>, key: u32) -> Seq<i64>
    decreases events.len(),
{
    if events.len() == 0 {
        Seq::empty()
    } else {
        let head = pending(events.drop_last(), key);
        let event = events.last();
        if event.key_code != key {
            head
        } else if event.is_press() {
            head.push(event.timestamp)
        } else if head.len() > 0 {
            head.drop_last()
        } else {
            head
        }
    }
}

/// The valid hold durations of `key`, in the order of its releases: each
/// release is paired with the newest press of the key that still waits, and
/// the time between the two is kept where it is a valid hold duration.
pub open spec fn hold_samples(events: Seq<KeystrokeEvent>, config: FilterConfig, key: u32) -> Seq<
    i64,
>
    decreases events.len(),
{
    if events.len() == 0 {
        Seq::empty()
    } else {
        let head = hold_samples(events.drop_last(), config, key);
        let waiting = pending(events.drop_last(), key);
        let event = events.last();
        if event.key_code == key && !event.is_press() && waiting.len() > 0
            && config.valid_hold_duration(event.timestamp - waiting.last()) {
            head.push((event.timestamp - waiting.last()) as i64)
        } else {
            head
        }
    }
}

/// True when `entry` summarises `samples`: it holds them in ascending order,
/// with their number, their sum, their median and their 95th percentile,
/// under the label of its key.
pub open spec fn is_hold_entry(samples: Seq<i64>, entry: HoldDuration) -> bool {
    &&& entry.durations_ms@ == sorted_samples(samples)
    &&& entry.sample_count == samples.len()
    &&& entry.total_ms == sum_of(samples)
    &&& percentiles_of(entry.durations_ms@) matches Some((p50, _, p95, _)) && entry.median_ms
        == p50 && entry.p95_ms == p95
    &&& entry.key_name@ == key_name(entry.key_code)
}

/// True when `table` lists every key with a valid hold duration exactly
/// once, and no other key, each with the statistics of its durations, the
/// key with the most durations first and the lower key code first among
/// equals.
pub open spec fn is_hold_table(
    events: Seq<KeystrokeEvent>,
    config: FilterConfig,
    table: Seq<HoldDuration>,
) -> bool {
    &&& forall|i: int|
        0 <= i < table.len() ==> {
            let samples = hold_samples(events, config, (#[trigger] table[i]).key_code);
            samples.len() > 0 && is_hold_entry(samples, table[i])
        }
    &&& forall|i: int, j: int|
        0 <= i < j < table.len() ==> ranks_before(
            (#[trigger] table[i]).sample_count as int,
            table[i].key_code as int,
            (#[trigger] table[j]).sample_count as int,
            table[j].key_code as int,
        )
    &&& forall|key: u32|
        hold_samples(events, config, key).len() > 0 ==> exists|i: int|
            0 <= i < table.len() && (#[trigger] table[i]).key_code == key
}

/// Without events the summary is all zero and the two tables are empty.
pub proof fn lemma_empty_timing(
    events: Seq<KeystrokeEvent>,
    config: FilterConfig,
    stats: InterKeyStats,
    pairs: Seq<InterKeyInterval>,
    holds: Seq<HoldDuration>,
)
    requires
        events.len() == 0,
        is_summary(intervals(presses(events), config), stats),
        is_pair_table(presses(events), config, pairs),
        is_hold_table(events, config, holds),
    ensures
        stats.count == 0,
        stats.total_ms == 0,
        stats.median_ms == 0,
        stats.p90_ms == 0,
        stats.p95_ms == 0,
        stats.p99_ms == 0,
        pairs.len() == 0,
        holds.len() == 0,
{
    reveal(Seq::filter);
    assert(presses(events).len() == 0);
    lemma_sorted_samples(intervals(presses(events), config));
    if pairs.len() > 0 {
        assert(pair_intervals(presses(events), config, (pairs[0].from_key, pairs[0].to_key)).len()
            >= MIN_PAIR_SAMPLES);
    }
    if holds.len() > 0 {
        assert(hold_samples(events, config, holds[0].key_code).len() > 0);
    }
}

/// A pair of keys is in the table exactly when it has at least
/// `MIN_PAIR_SAMPLES` valid intervals: with one fewer it is left out.
pub proof fn lemma_pair_reported_iff(
    presses: Seq<KeystrokeEvent>,
    config: FilterConfig,
    table: Seq<InterKeyInterval>,
    pair: (u32, u32),
)
    requires
        is_pair_table(presses, config, table),
    ensures
        (exists|i: int|
            0 <= i < table.len() && (#[trigger] table[i]).from_key == pair.0 && table[i].to_key
                == pair.1) <==> pair_intervals(presses, config, pair).len() >= MIN_PAIR_SAMPLES,
{
    if exists|i: int|
        0 <= i < table.len() && (#[trigger] table[i]).from_key == pair.0 && table[i].to_key
            == pair.1 {
        let i = choose|i: int|
            0 <= i < table.len() && (#[trigger] table[i]).from_key == pair.0 && table[i].to_key
                == pair.1;
        assert((table[i].from_key, table[i].to_key) == pair);
    }
}

/// The number of release events of `key`.
pub open spec fn release_count(events: Seq<KeystrokeEvent>, key: u32) -> nat
    decreases events.len(),
{
    if events.len() == 0 {
        0
    } else {
        release_count(events.drop_last(), key) + if events.last().key_code == key
            && !events.last().is_press() {
            1nat
        } else {
            0nat
        }
    }
}

/// A key has no more hold durations than release events.
pub proof fn lemma_holds_bounded_by_releases(
    events: Seq<KeystrokeEvent>,
    config: FilterConfig,
    key: u32,
)
    ensures
        hold_samples(events, config, key).len() <= release_count(events, key),
    decreases events.len(),
{
    if events.len() > 0 {
        lemma_holds_bounded_by_releases(events.drop_last(), config, key);
    }
}

/// A sum of `n` 64-bit samples lies within `n` times the 64-bit range.
pub proof fn lemma_sum_bounded(values: Seq<i64>)
    ensures
        values.len() * (-0x8000_0000_0000_0000) <= sum_of(values) <= values.len()
            * 0x7fff_ffff_ffff_ffff,
    decreases values.len(),
{
    if values.len() > 0 {
        lemma_sum_bounded(values.drop_last());
    }
}

/// The sum of the samples.
fn sum_samples(values: &[i64]) -> (total: i128)
    ensures
        total == sum_of(values@),
{
    let mut total: i128 = 0;
    let mut i: usize = 0;
    assert(values@.take(0) =~= Seq::<i64>::empty());
    while i < values.len()
        invariant
            i <= values@.len(),
            total == sum_of(values@.take(i as int)),
        decreases values@.len() - i,
    {
        proof {
            assert(values@.take(i as int + 1).drop_last() =~= values@.take(i as int));
            lemma_sum_bounded(values@.take(i as int));
        }
        total = total + values[i] as i128;
        i += 1;
    }
    assert(values@.take(i as int) =~= values@);
    total
}

impl TimingAnalysis {
    fn calculate_overall_inter_key(events: &[KeystrokeEvent], config: &FilterConfig) -> (stats:
        InterKeyStats)
        ensures
            is_summary(intervals(presses(events@), *config), stats),
    {
        let press_events = select_presses(events);
        let ghost all = borrowed(press_events@);
        let mut samples: Vec<i64> = Vec::new();
        if press_events.len() >= 2 {
            let mut i: usize = 1;
            while i < press_events.len()
                invariant
                    all == borrowed(press_events@),
                    1 <= i <= all.len(),
                    samples@ == intervals(all.take(i as int), *config),
                decreases press_events@.len() - i,
            {
                let ghost prefix = all.take(i as int + 1);
                proof {
                    assert(prefix.drop_last() =~= all.take(i as int));
                }
                match config.interval_between(
                    press_events[i - 1].timestamp,
                    press_events[i].timestamp,
                ) {
                    Some(interval) => samples.push(interval),
                    None => {},
                }
                i += 1;
            }
            assert(all.take(i as int) =~= all);
        }
        let count = samples.len();
        let total_ms = sum_samples(samples.as_slice());
        match calculate_percentiles(samples.as_mut_slice()) {
            Some((median_ms, p90_ms, p95_ms, p99_ms)) => InterKeyStats {
                count,
                total_ms,
                median_ms,
                p90_ms,
                p95_ms,
                p99_ms,
            },
            None => InterKeyStats {
                count: 0,
                total_ms: 0,
                median_ms: 0,
                p90_ms: 0,
                p95_ms: 0,
                p99_ms: 0,
            },
        }
    }

    fn calculate_per_key_inter_key(events: &[KeystrokeEvent], config: &FilterConfig) -> (table:
        Vec<InterKeyInterval>)
        ensures
            is_pair_table(presses(events@), *config, table@),
    {
        let press_events = select_presses(events);
        let ghost all = borrowed(press_events@);
        let mut groups = SampleGroups::new();
        if press_events.len() >= 2 {
            let mut i: usize = 1;
            while i < press_events.len()
                invariant
                    all == borrowed(press_events@),
                    1 <= i <= all.len(),
                    groups.wf(),
                    forall|id: u128|
                        (#[trigger] groups.samples_of(id)).len() > 0 ==> id <= u64::MAX,
                    forall|pair: (u32, u32)|
                        groups.samples_of(pair_id(pair) as u128) == #[trigger] pair_intervals(
                            all.take(i as int),
                            *config,
                            pair,
                        ),
                decreases press_events@.len() - i,
            {
                let ghost prefix = all.take(i as int + 1);
                let ghost before = groups;
                let from_key = press_events[i - 1].key_code;
                let to_key = press_events[i].key_code;
                proof {
                    assert(prefix.drop_last() =~= all.take(i as int));
                }
                match config.interval_between(
                    press_events[i - 1].timestamp,
                    press_events[i].timestamp,
                ) {
                    Some(interval) => {
                        let id = from_key as u128 * 0x1_0000_0000 + to_key as u128;
                        groups.push(id, interval);
                        proof {
                            assert(interval == gap_before(prefix, i as int));
                            assert forall|pair: (u32, u32)|
                                groups.samples_of(pair_id(pair) as u128)
                                == #[trigger] pair_intervals(prefix, *config, pair) by {
                                let head = pair_intervals(all.take(i as int), *config, pair);
                                assert(before.samples_of(pair_id(pair) as u128) == head);
                                if pair_id(pair) as u128 != id {
                                    assert(groups.samples_of(pair_id(pair) as u128)
                                        == before.samples_of(pair_id(pair) as u128));
                                    assert(pair != (from_key, to_key));
                                    assert(pair_intervals(prefix, *config, pair) == head);
                                } else {
                                    assert(pair == (from_key, to_key));
                                    assert(pair_intervals(prefix, *config, pair) == head.push(
                                        interval,
                                    ));
                                }
                            }
                            assert forall|other: u128|
                                (#[trigger] groups.samples_of(other)).len() > 0 implies other
                                <= u64::MAX by {
                                if other != id {
                                    assert(groups.samples_of(other) == before.samples_of(other));
                                }
                            }
                        }
                    },
                    None => {
                        assert forall|pair: (u32, u32)|
                            groups.samples_of(pair_id(pair) as u128) == #[trigger] pair_intervals(
                                prefix,
                                *config,
                                pair,
                            ) by {
                            let head = pair_intervals(all.take(i as int), *config, pair);
                            assert(before.samples_of(pair_id(pair) as u128) == head);
                            assert(!config.valid_interval(gap_before(prefix, i as int)));
                            assert(pair_intervals(prefix, *config, pair) == head);
                        }
                    },
                }
                i += 1;
            }
            assert(all.take(i as int) =~= all);
        }
        let ranked = groups.into_ranked(MIN_PAIR_SAMPLES);
        let mut table: Vec<InterKeyInterval> = Vec::new();
        let mut r: usize = 0;
        while r < ranked.len()
            invariant
                r <= ranked@.len(),
                table@.len() == r,
                forall|k: int|
                    0 <= k < ranked@.len() ==> {
                        &&& (#[trigger] ranked@[k]).id <= u64::MAX
                        &&& ranked@[k].samples@.len() >= MIN_PAIR_SAMPLES
                    },
                forall|k: int|
                    0 <= k < r ==> {
                        &&& pair_id(((#[trigger] table@[k]).from_key, table@[k].to_key))
                            == ranked@[k].id
                        &&& is_pair_entry(ranked@[k].samples@, table@[k])
                        &&& table@[k].intervals_ms@.len() == ranked@[k].samples@.len()
                    },
            decreases ranked@.len() - r,
        {
            proof {
                lemma_sorted_samples(ranked@[r as int].samples@);
            }
            let id = ranked[r].id;
            let from_key = (id / 0x1_0000_0000) as u32;
            let to_key = (id % 0x1_0000_0000) as u32;
            let mut intervals_ms = ranked[r].samples.clone();
            let total_ms = sum_samples(intervals_ms.as_slice());
            let (median_ms, p95_ms) = match calculate_percentiles(intervals_ms.as_mut_slice()) {
                Some((p50, _, p95, _)) => (p50, p95),
                None => (0, 0),
            };
            table.push(
                InterKeyInterval { from_key, to_key, intervals_ms, total_ms, median_ms, p95_ms },
            );
            r += 1;
        }
        proof {
            assert forall|i: int| 0 <= i < table@.len() implies is_pair_entry(
                pair_intervals(
                    presses(events@),
                    *config,
                    ((#[trigger] table@[i]).from_key, table@[i].to_key),
                ),
                table@[i],
            ) by {
                assert(ranked@[i].samples@ == groups.samples_of(ranked@[i].id));
            }
            assert forall|i: int, j: int| 0 <= i < j < table@.len() implies ranks_before(
                (#[trigger] table@[i]).intervals_ms@.len() as int,
                pair_id((table@[i].from_key, table@[i].to_key)),
                (#[trigger] table@[j]).intervals_ms@.len() as int,
                pair_id((table@[j].from_key, table@[j].to_key)),
            ) by {
                assert(ranks_before(
                    ranked@[i].samples@.len() as int,
                    ranked@[i].id as int,
                    ranked@[j].samples@.len() as int,
                    ranked@[j].id as int,
                ));
            }
            assert forall|pair: (u32, u32)|
                pair_intervals(presses(events@), *config, pair).len()
                    >= MIN_PAIR_SAMPLES implies exists|i: int|
                0 <= i < table@.len() && (#[trigger] table@[i]).from_key == pair.0
                    && table@[i].to_key == pair.1 by {
                assert(groups.samples_of(pair_id(pair) as u128).len() >= MIN_PAIR_SAMPLES);
                let i = choose|i: int|
                    0 <= i < ranked@.len() && (#[trigger] ranked@[i]).id == pair_id(pair) as u128;
                assert(pair_id((table@[i].from_key, table@[i].to_key)) == pair_id(pair));
            }
        }
        table
    }

    fn calculate_hold_durations(events: &[KeystrokeEvent], config: &FilterConfig) -> (table: Vec<
        HoldDuration,
    >)
        ensures
            is_hold_table(events@, *config, table@),
    {
        let mut press_times = SampleGroups::new();
        let mut hold_data = SampleGroups::new();
        let mut i: usize = 0;
        assert(events@.take(0) =~= Seq::<KeystrokeEvent>::empty());
        while i < events.len()
            invariant
                i <= events@.len(),
                press_times.wf(),
                hold_data.wf(),
                forall|key: u32|
                    press_times.samples_of(key as u128) == #[trigger] pending(
                        events@.take(i as int),
                        key,
                    ),
                forall|key: u32|
                    hold_data.samples_of(key as u128) == #[trigger] hold_samples(
                        events@.take(i as int),
                        *config,
                        key,
                    ),
                forall|id: u128|
                    (#[trigger] hold_data.samples_of(id)).len() > 0 ==> id <= u32::MAX,
            decreases events@.len() - i,
        {
            let ghost done = events@.take(i as int);
            let ghost prefix = events@.take(i as int + 1);
            let ghost waiting_before = press_times;
            let ghost held_before = hold_data;
            let key = events[i].key_code;
            let id = key as u128;
            let timestamp = events[i].timestamp;
            proof {
                assert(prefix.drop_last() =~= done);
                assert(prefix.last() == events@[i as int]);
            }
            match events[i].event_type {
                EventType::Press => {
                    press_times.push(id, timestamp);
                },
                EventType::Release => {
                    match press_times.pop(id) {
                        Some(press_time) => {
                            match config.hold_between(press_time, timestamp) {
                                Some(duration) => {
                                    hold_data.push(id, duration);
                                },
                                None => {},
                            }
                        },
                        None => {},
                    }
                },
            }
            proof {
                assert forall|other: u32|
                    press_times.samples_of(other as u128) == #[trigger] pending(
                        prefix,
                        other,
                    ) by {
                    assert(waiting_before.samples_of(other as u128) == pending(done, other));
                    if other != key {
                        assert(other as u128 != id);
                        assert(press_times.samples_of(other as u128)
                            == waiting_before.samples_of(other as u128));
                    }
                }
                assert forall|other: u32|
                    hold_data.samples_of(other as u128) == #[trigger] hold_samples(
                        prefix,
                        *config,
                        other,
                    ) by {
                    assert(held_before.samples_of(other as u128) == hold_samples(
                        done,
                        *config,
                        other,
                    ));
                    assert(waiting_before.samples_of(other as u128) == pending(done, other));
                    if other != key {
                        assert(other as u128 != id);
                        assert(hold_data.samples_of(other as u128) == held_before.samples_of(
                            other as u128,
                        ));
                    }
                }
                assert forall|other: u128|
                    (#[trigger] hold_data.samples_of(other)).len() > 0 implies other
                    <= u32::MAX by {
                    if other != id {
                        assert(hold_data.samples_of(other) == held_before.samples_of(other));
                    }
                }
            }
            i += 1;
        }
        assert(events@.take(i as int) =~= events@);
        let ranked = hold_data.into_ranked(1);
        let mut table: Vec<HoldDuration> = Vec::new();
        let mut r: usize = 0;
        while r < ranked.len()
            invariant
                r <= ranked@.len(),
                table@.len() == r,
                forall|k: int|
                    0 <= k < ranked@.len() ==> {
                        &&& (#[trigger] ranked@[k]).id <= u32::MAX
                        &&& ranked@[k].samples@.len() >= 1
                    },
                forall|k: int|
                    0 <= k < r ==> {
                        &&& (#[trigger] table@[k]).key_code == ranked@[k].id
                        &&& is_hold_entry(ranked@[k].samples@, table@[k])
                    },
            decreases ranked@.len() - r,
        {
            proof {
                lemma_sorted_samples(ranked@[r as int].samples@);
            }
            let key_code = ranked[r].id as u32;
            let mut durations_ms = ranked[r].samples.clone();
            let sample_count = durations_ms.len();
            let total_ms = sum_samples(durations_ms.as_slice());
            let (median_ms, p95_ms) = match calculate_percentiles(durations_ms.as_mut_slice()) {
                Some((p50, _, p95, _)) => (p50, p95),
                None => (0, 0),
            };
            table.push(
                HoldDuration {
                    key_code,
                    key_name: KeyCode(key_code).to_name(),
                    durations_ms,
                    total_ms,
                    median_ms,
                    p95_ms,
                    sample_count,
                },
            );
            r += 1;
        }
        proof {
            assert forall|i: int| 0 <= i < table@.len() implies ({
                let samples = hold_samples(events@, *config, (#[trigger] table@[i]).key_code);
                samples.len() > 0 && is_hold_entry(samples, table@[i])
            }) by {
                assert(ranked@[i].samples@ == hold_data.samples_of(ranked@[i].id));
            }
            assert forall|i: int, j: int| 0 <= i < j < table@.len() implies ranks_before(
                (#[trigger] table@[i]).sample_count as int,
                table@[i].key_code as int,
                (#[trigger] table@[j]).sample_count as int,
                table@[j].key_code as int,
            ) by {
                assert(ranks_before(
                    ranked@[i].samples@.len() as int,
                    ranked@[i].id as int,
                    ranked@[j].samples@.len() as int,
                    ranked@[j].id as int,
                ));
            }
            assert forall|key: u32| hold_samples(events@, *config, key).len() > 0 implies exists|
                i: int,
            |
                0 <= i < table@.len() && (#[trigger] table@[i]).key_code == key by {
                assert(hold_data.samples_of(key as u128).len() >= 1);
                let i = choose|i: int|
                    0 <= i < ranked@.len() && (#[trigger] ranked@[i]).id == key as u128;
                assert(table@[i].key_code == key);
            }
        }
        table
    }

    /// Computes the timing statistics of `events` under `config`: of all
    /// valid intervals between neighbouring presses, of the intervals of
    /// each pair of keys, and of the hold durations of each key.
    pub fn from_events(events: &[KeystrokeEvent], config: FilterConfig) -> (analysis: Self)
        ensures
            is_summary(intervals(presses(events@), config), analysis.overall_inter_key),
            is_pair_table(presses(events@), config, analysis.per_key_inter_key@),
            is_hold_table(events@, config, analysis.hold_durations@),
            analysis.filter_config == config,
            events@.len() == 0 ==> {
                &&& analysis.overall_inter_key.count == 0
                &&& analysis.overall_inter_key.total_ms == 0
                &&& analysis.overall_inter_key.median_ms == 0
                &&& analysis.overall_inter_key.p90_ms == 0
                &&& analysis.overall_inter_key.p95_ms == 0
                &&& analysis.overall_inter_key.p99_ms == 0
                &&& analysis.per_key_inter_key@.len() == 0
                &&& analysis.hold_durations@.len() == 0
            },
    {
        let overall_inter_key = Self::calculate_overall_inter_key(events, &config);
        let per_key_inter_key = Self::calculate_per_key_inter_key(events, &config);
        let hold_durations = Self::calculate_hold_durations(events, &config);
        proof {
            if events@.len() == 0 {
                lemma_empty_timing(
                    events@,
                    config,
                    overall_inter_key,
                    per_key_inter_key@,
                    hold_durations@,
                );
            }
        }
        TimingAnalysis { overall_inter_key, per_key_inter_key, hold_durations, filter_config: config }
    }

    /// The first `n` lines of the hold-duration table, or all of them where
    /// it has fewer.
    pub fn top_hold_durations(&self, n: usize) -> (top: &[HoldDuration])
        ensures
            top@ == self.hold_durations@.take(
                if n <= self.hold_durations@.len() {
                    n as int
                } else {
                    self.hold_durations@.len() as int
                },
            ),
    {
        let len = self.hold_durations.len();
        let end = if n < len {
            n
        } else {
            len
        };
        let all = self.hold_durations.as_slice();
        &all[0..end]
    }

    /// The first `n` lines of the table of key pairs, or all of them where
    /// it has fewer.
    pub fn top_inter_key_pairs(&self, n: usize) -> (top: &[InterKeyInterval])
        ensures
            top@ == self.per_key_inter_key@.take(
                if n <= self.per_key_inter_key@.len() {
                    n as int
                } else {
                    self.per_key_inter_key@.len() as int
                },
            ),
    {
        let len = self.per_key_inter_key.len();
        let end = if n < len {
            n
        } else {
            len
        };
        let all = self.per_key_inter_key.as_slice();
        &all[0..end]
    }
}

} // verus!
