use crate::models::{EventType, KeystrokeEvent};
use vstd::prelude::*;
use vstd::relations::{sorted_by, total_ordering};
use vstd::seq_lib::lemma_sorted_unique;

verus! {

/// Thresholds that decide which gaps and hold durations count as typing.
#[derive(Debug, Clone, Copy)]
pub struct FilterConfig {
    /// Gaps above this split typing sessions; intervals at or above it are noise.
    pub max_gap_ms: i64,
    /// Shortest press-to-release duration that is kept.
    pub min_hold_ms: i64,
    /// Longest press-to-release duration that is kept.
    pub max_hold_ms: i64,
}

impl Default for FilterConfig {
    /// A maximum gap of five seconds and hold durations from ten
    /// milliseconds to two seconds.
    fn default() -> (config: Self)
        ensures
            config.max_gap_ms == 5000,
            config.min_hold_ms == 10,
            config.max_hold_ms == 2000,
    {
        FilterConfig { max_gap_ms: 5000, min_hold_ms: 10, max_hold_ms: 2000 }
    }
}

/// The press events of `events`, in their order.
pub open spec fn presses(events: Seq<KeystrokeEvent>) -> Seq<KeystrokeEvent> {
    events.filter(|event: KeystrokeEvent| event.is_press())
}

/// The time from event `i - 1` to event `i`.
pub open spec fn gap_before(events: Seq<KeystrokeEvent>, i: int) -> int
    recommends
        0 < i < events.len(),
{
    events[i].timestamp - events[i - 1].timestamp
}

/// True where a new segment starts at index `i`: the gap before it is
/// strictly greater than `max_gap_ms`.
pub open spec fn breaks_before(max_gap_ms: i64, events: Seq<KeystrokeEvent>, i: int) -> bool {
    0 < i < events.len() && gap_before(events, i) > max_gap_ms
}

/// The segments of `events`, in order: a scan from the left that starts a new
/// segment at every break and extends the last segment otherwise.
pub open spec fn split_by_gap(max_gap_ms: i64, events: Seq<KeystrokeEvent>) -> Seq<
    Seq<KeystrokeEvent>,
>
    decreases events.len(),
{
    if events.len() == 0 {
        Seq::empty()
    } else {
        let head = split_by_gap(max_gap_ms, events.drop_last());
        if head.len() == 0 || breaks_before(max_gap_ms, events, events.len() - 1) {
            head.push(seq![events.last()])
        } else {
            head.drop_last().push(head.last().push(events.last()))
        }
    }
}

/// What each borrowed segment holds.
pub open spec fn segment_views(segments: Seq<&[KeystrokeEvent]>) -> Seq<Seq<KeystrokeEvent>> {
    Seq::new(segments.len(), |k: int| segments[k]@)
}

impl FilterConfig {
    /// An inter-key interval is kept when it is positive and below the
    /// maximum gap.
    pub open spec fn valid_interval(&self, interval_ms: int) -> bool {
        0 < interval_ms < self.max_gap_ms
    }

    /// A hold duration is kept when it lies within the two bounds, ends
    /// included.
    pub open spec fn valid_hold_duration(&self, duration_ms: int) -> bool {
        self.min_hold_ms <= duration_ms <= self.max_hold_ms
    }

    /// True when `interval_ms` is a valid inter-key interval.
    pub fn is_valid_interval(&self, interval_ms: i64) -> (valid: bool)
        ensures
            valid == self.valid_interval(interval_ms as int),
    {
        interval_ms > 0 && interval_ms < self.max_gap_ms
    }

    /// True when `duration_ms` is a valid hold duration.
    pub fn is_valid_hold_duration(&self, duration_ms: i64) -> (valid: bool)
        ensures
            valid == self.valid_hold_duration(duration_ms as int),
    {
        duration_ms >= self.min_hold_ms && duration_ms <= self.max_hold_ms
    }

    /// The time from `earlier` to `later`, where it is a valid interval.
    pub fn interval_between(&self, earlier: i64, later: i64) -> (interval: Option<i64>)
        ensures
            interval == if self.valid_interval(later - earlier) {
                Some((later - earlier) as i64)
            } else {
                None
            },
    {
        let gap = later as i128 - earlier as i128;
        if gap >= i64::MIN as i128 && gap <= i64::MAX as i128 && self.is_valid_interval(
            gap as i64,
        ) {
            Some(gap as i64)
        } else {
            None
        }
    }

    /// The time from a press to its release, where it is a valid hold
    /// duration.
    pub fn hold_between(&self, pressed: i64, released: i64) -> (duration: Option<i64>)
        ensures
            duration == if self.valid_hold_duration(released - pressed) {
                Some((released - pressed) as i64)
            } else {
                None
            },
    {
        let held = released as i128 - pressed as i128;
        if held >= i64::MIN as i128 && held <= i64::MAX as i128 && self.is_valid_hold_duration(
            held as i64,
        ) {
            Some(held as i64)
        } else {
            None
        }
    }

    /// Splits `events` into typing segments: maximal runs in which no gap
    /// between neighbours exceeds the maximum gap. The segments borrow from
    /// `events` and cover it exactly, in order.
    pub fn filter_events_by_gap<'a>(&self, events: &'a [KeystrokeEvent]) -> (segments: Vec<
        &'a [KeystrokeEvent],
    >)
        ensures
            segment_views(segments@) == split_by_gap(self.max_gap_ms, events@),
    {
        let mut segments: Vec<&'a [KeystrokeEvent]> = Vec::new();
        if events.len() == 0 {
            return segments;
        }
        let mut start_idx: usize = 0;
        let mut i: usize = 1;
        assert(split_by_gap(self.max_gap_ms, events@.take(1)) == segment_views(segments@).push(
            events@.subrange(0, 1),
        )) by {
            let first = events@.take(1);
            assert(first.drop_last() =~= Seq::<KeystrokeEvent>::empty());
            assert(split_by_gap(self.max_gap_ms, first.drop_last()).len() == 0);
            assert(seq![first.last()] =~= events@.subrange(0, 1));
            assert(segment_views(segments@) =~= Seq::empty());
            assert(split_by_gap(self.max_gap_ms, first) =~= Seq::empty().push(
                seq![first.last()],
            ));
        }
        while i < events.len()
            invariant
                1 <= i <= events@.len(),
                start_idx < i,
                split_by_gap(self.max_gap_ms, events@.take(i as int)) == segment_views(
                    segments@,
                ).push(events@.subrange(start_idx as int, i as int)),
            decreases events@.len() - i,
        {
            let ghost closed = segment_views(segments@);
            let ghost open = events@.subrange(start_idx as int, i as int);
            let ghost prefix = events@.take(i as int + 1);
            assert(prefix.drop_last() =~= events@.take(i as int));
            assert(breaks_before(self.max_gap_ms, prefix, i as int) == breaks_before(
                self.max_gap_ms,
                events@,
                i as int,
            ));
            let gap = events[i].timestamp as i128 - events[i - 1].timestamp as i128;
            if gap > self.max_gap_ms as i128 {
                segments.push(&events[start_idx..i]);
                start_idx = i;
                assert(segment_views(segments@) =~= closed.push(open));
                assert(events@.subrange(i as int, i as int + 1) =~= seq![events@[i as int]]);
            } else {
                assert(closed.push(open).drop_last() =~= closed);
                assert(open.push(events@[i as int]) =~= events@.subrange(
                    start_idx as int,
                    i as int + 1,
                ));
            }
            i += 1;
        }
        assert(events@.take(i as int) =~= events@);
        let ghost closed = segment_views(segments@);
        segments.push(&events[start_idx..events.len()]);
        assert(segment_views(segments@) =~= closed.push(
            events@.subrange(start_idx as int, events@.len() as int),
        ));
        segments
    }
}

/// The number of events in the first `k` segments: where segment `k`
/// starts in the sequence that was split.
#[verifier::opaque]
pub open spec fn segment_start(segments: Seq<Seq<KeystrokeEvent>>, k: int) -> int
    decreases k,
{
    if k <= 0 {
        0
    } else {
        segment_start(segments, k - 1) + segments[k - 1].len()
    }
}

/// The first segment starts at 0, and each other segment where the one
/// before it ends.
pub proof fn lemma_segment_start_step(segments: Seq<Seq<KeystrokeEvent>>, k: int)
    requires
        0 <= k,
    ensures
        segment_start(segments, 0) == 0,
        segment_start(segments, k + 1) == segment_start(segments, k) + segments[k].len(),
{
    reveal(segment_start);
}

proof fn lemma_segment_start_agrees(
    a: Seq<Seq<KeystrokeEvent>>,
    b: Seq<Seq<KeystrokeEvent>>,
    k: int,
)
    requires
        0 <= k <= a.len(),
        k <= b.len(),
        forall|j: int| 0 <= j < k ==> a[j] == b[j],
    ensures
        segment_start(a, k) == segment_start(b, k),
    decreases k,
{
    reveal(segment_start);
    if k > 0 {
        lemma_segment_start_agrees(a, b, k - 1);
    }
}

proof fn lemma_segment_start_increases(segments: Seq<Seq<KeystrokeEvent>>, j: int, k: int)
    requires
        0 <= j <= k <= segments.len(),
        forall|m: int| 0 <= m < segments.len() ==> (#[trigger] segments[m]).len() > 0,
    ensures
        segment_start(segments, j) <= segment_start(segments, k),
        j < k ==> segment_start(segments, j) < segment_start(segments, k),
    decreases k - j,
{
    if j < k {
        lemma_segment_start_increases(segments, j, k - 1);
        lemma_segment_start_step(segments, k - 1);
        assert(segments[k - 1].len() > 0);
    }
}

/// True when `segments` partition `events` exactly. No segment is empty;
/// each is the run of events from its start to the start of the next, so
/// that the lengths add up to the number of events; and a segment starts at
/// an index, other than the first, exactly where the gap before that index
/// exceeds `max_gap_ms`.
pub open spec fn is_partition(
    max_gap_ms: i64,
    events: Seq<KeystrokeEvent>,
    segments: Seq<Seq<KeystrokeEvent>>,
) -> bool {
    &&& segments.len() == 0 <==> events.len() == 0
    &&& forall|k: int| 0 <= k < segments.len() ==> (#[trigger] segments[k]).len() > 0
    &&& segment_start(segments, segments.len() as int) == events.len()
    &&& forall|k: int|
        0 <= k < segments.len() ==> #[trigger] segments[k] == events.subrange(
            segment_start(segments, k),
            segment_start(segments, k + 1),
        )
    &&& forall|i: int|
        0 < i < events.len() ==> (#[trigger] breaks_before(max_gap_ms, events, i) <==> exists|
            k: int,
        |
            0 < k < segments.len() && #[trigger] segment_start(segments, k) == i)
}

proof fn lemma_partition_push(
    max_gap_ms: i64,
    events: Seq<KeystrokeEvent>,
    head: Seq<Seq<KeystrokeEvent>>,
)
    requires
        events.len() > 0,
        is_partition(max_gap_ms, events.drop_last(), head),
        head.len() == 0 || breaks_before(max_gap_ms, events, events.len() - 1),
    ensures
        is_partition(max_gap_ms, events, head.push(seq![events.last()])),
{
    let n = events.len() as int;
    let m = head.len() as int;
    let prefix = events.drop_last();
    let segments = head.push(seq![events.last()]);
    assert forall|k: int| 0 <= k <= m implies segment_start(segments, k) == segment_start(
        head,
        k,
    ) by {
        lemma_segment_start_agrees(segments, head, k);
    }
    lemma_segment_start_step(segments, m);
    assert(segment_start(segments, m + 1) == n);
    assert forall|k: int| 0 <= k < segments.len() implies #[trigger] segments[k]
        == events.subrange(segment_start(segments, k), segment_start(segments, k + 1)) by {
        lemma_segment_start_step(head, 0);
        lemma_segment_start_increases(head, 0, if k < m { k } else { m });
        if k < m {
            assert(segments[k] == head[k]);
            lemma_segment_start_increases(head, k + 1, m);
            lemma_segment_start_increases(head, k, k + 1);
            assert(head[k] == prefix.subrange(segment_start(head, k), segment_start(head, k + 1)));
            assert(head[k] =~= events.subrange(
                segment_start(head, k),
                segment_start(head, k + 1),
            ));
        } else {
            assert(segments[k] =~= events.subrange(n - 1, n));
        }
    }
    assert forall|i: int| 0 < i < n implies (#[trigger] breaks_before(max_gap_ms, events, i)
        <==> exists|k: int|
        0 < k < segments.len() && #[trigger] segment_start(segments, k) == i) by {
        if i < n - 1 {
            assert(breaks_before(max_gap_ms, events, i) == breaks_before(max_gap_ms, prefix, i));
            if breaks_before(max_gap_ms, prefix, i) {
                let k = choose|k: int| 0 < k < m && #[trigger] segment_start(head, k) == i;
                assert(segment_start(segments, k) == i);
            }
            if exists|k: int|
                0 < k < segments.len() && #[trigger] segment_start(segments, k) == i {
                let k = choose|k: int|
                    0 < k < segments.len() && #[trigger] segment_start(segments, k) == i;
                assert(k < m);
                assert(segment_start(head, k) == i);
            }
        } else {
            assert(m > 0);
            assert(segment_start(segments, m) == i);
        }
    }
}

proof fn lemma_partition_extend(
    max_gap_ms: i64,
    events: Seq<KeystrokeEvent>,
    head: Seq<Seq<KeystrokeEvent>>,
)
    requires
        events.len() > 0,
        is_partition(max_gap_ms, events.drop_last(), head),
        head.len() > 0,
        !breaks_before(max_gap_ms, events, events.len() - 1),
    ensures
        is_partition(
            max_gap_ms,
            events,
            head.drop_last().push(head.last().push(events.last())),
        ),
{
    let n = events.len() as int;
    let m = head.len() as int;
    let prefix = events.drop_last();
    let segments = head.drop_last().push(head.last().push(events.last()));
    assert forall|k: int| 0 <= k < m implies segment_start(segments, k) == segment_start(
        head,
        k,
    ) by {
        lemma_segment_start_agrees(segments, head, k);
    }
    lemma_segment_start_step(segments, m - 1);
    lemma_segment_start_step(head, m - 1);
    assert(segment_start(segments, m) == n);
    assert forall|k: int| 0 <= k < segments.len() implies #[trigger] segments[k]
        == events.subrange(segment_start(segments, k), segment_start(segments, k + 1)) by {
        lemma_segment_start_step(head, 0);
        lemma_segment_start_increases(head, 0, k);
        lemma_segment_start_increases(head, k, k + 1);
        assert(head[k] == prefix.subrange(segment_start(head, k), segment_start(head, k + 1)));
        if k < m - 1 {
            assert(segments[k] == head[k]);
            lemma_segment_start_increases(head, k + 1, m);
            assert(head[k] =~= events.subrange(
                segment_start(head, k),
                segment_start(head, k + 1),
            ));
        } else {
            assert(head[k] == prefix.subrange(segment_start(head, k), n - 1));
            assert(segments[k] =~= events.subrange(segment_start(head, k), n));
        }
    }
    assert forall|i: int| 0 < i < n implies (#[trigger] breaks_before(max_gap_ms, events, i)
        <==> exists|k: int|
        0 < k < segments.len() && #[trigger] segment_start(segments, k) == i) by {
        if i < n - 1 {
            assert(breaks_before(max_gap_ms, events, i) == breaks_before(max_gap_ms, prefix, i));
            if breaks_before(max_gap_ms, prefix, i) {
                let k = choose|k: int| 0 < k < m && #[trigger] segment_start(head, k) == i;
                assert(segment_start(segments, k) == i);
            }
            if exists|k: int|
                0 < k < segments.len() && #[trigger] segment_start(segments, k) == i {
                let k = choose|k: int|
                    0 < k < segments.len() && #[trigger] segment_start(segments, k) == i;
                assert(segment_start(head, k) == i);
            }
        } else {
            assert forall|k: int| 0 < k < segments.len() implies #[trigger] segment_start(
                segments,
                k,
            ) != i by {
                lemma_segment_start_increases(head, k, m);
            }
        }
    }
}

/// The segments partition the events exactly: see [`is_partition`].
pub proof fn lemma_segments_partition(max_gap_ms: i64, events: Seq<KeystrokeEvent>)
    ensures
        is_partition(max_gap_ms, events, split_by_gap(max_gap_ms, events)),
    decreases events.len(),
{
    lemma_segment_start_step(split_by_gap(max_gap_ms, events), 0);
    if events.len() > 0 {
        let head = split_by_gap(max_gap_ms, events.drop_last());
        lemma_segments_partition(max_gap_ms, events.drop_last());
        if head.len() == 0 || breaks_before(max_gap_ms, events, events.len() - 1) {
            lemma_partition_push(max_gap_ms, events, head);
        } else {
            lemma_partition_extend(max_gap_ms, events, head);
        }
    }
}

/// The segments laid end to end are the events, in their order.
pub proof fn lemma_segments_concatenate(max_gap_ms: i64, events: Seq<KeystrokeEvent>)
    ensures
        split_by_gap(max_gap_ms, events).flatten() == events,
    decreases events.len(),
{
    let segments = split_by_gap(max_gap_ms, events);
    if events.len() == 0 {
        assert(segments.flatten() =~= events);
    } else {
        let prefix = events.drop_last();
        let head = split_by_gap(max_gap_ms, prefix);
        let last = events.last();
        lemma_segments_concatenate(max_gap_ms, prefix);
        segments.lemma_flatten_and_flatten_alt_are_equivalent();
        head.lemma_flatten_and_flatten_alt_are_equivalent();
        if head.len() == 0 || breaks_before(max_gap_ms, events, events.len() - 1) {
            assert(segments.drop_last() =~= head);
            assert(segments.flatten_alt() =~= head.flatten_alt() + seq![last]);
            assert(prefix + seq![last] =~= events);
        } else {
            let grown = head.last().push(last);
            head.drop_last().lemma_flatten_and_flatten_alt_are_equivalent();
            assert(segments.drop_last() =~= head.drop_last());
            assert(segments.flatten_alt() =~= head.drop_last().flatten_alt() + grown);
            assert(head.flatten_alt() =~= head.drop_last().flatten_alt() + head.last());
            assert(head.drop_last().flatten_alt() + grown =~= (head.drop_last().flatten_alt()
                + head.last()).push(last));
            assert(prefix.push(last) =~= events);
        }
    }
}

/// True when no sample is greater than a later one.
pub open spec fn ascending(values: Seq<i64>) -> bool {
    forall|i: int, j: int| 0 <= i <= j < values.len() ==> values[i] <= values[j]
}

/// The samples of `values` in ascending order.
pub open spec fn sorted_samples(values: Seq<i64>) -> Seq<i64> {
    values.sort_by(|a: i64, b: i64| a <= b)
}

/// Nearest-rank index of a percentile among `n` sorted samples: the whole
/// part of `(n - 1) * percent / 100`, held at the last index.
pub open spec fn rank_index(n: nat, percent: nat) -> int
    recommends
        n > 0,
{
    let raw = ((n - 1) * percent) / 100;
    if raw > n - 1 {
        n - 1
    } else {
        raw
    }
}

/// The sample at the nearest rank of `percent` in sorted samples, if there is
/// any sample.
pub open spec fn percentile_of(sorted: Seq<i64>, percent: nat) -> Option<i64> {
    if sorted.len() == 0 {
        None
    } else {
        Some(sorted[rank_index(sorted.len(), percent)])
    }
}

/// The 50th, 90th, 95th and 99th percentile of sorted samples, if there is
/// any sample.
pub open spec fn percentiles_of(sorted: Seq<i64>) -> Option<(i64, i64, i64, i64)> {
    if sorted.len() == 0 {
        None
    } else {
        Some(
            (
                sorted[rank_index(sorted.len(), 50)],
                sorted[rank_index(sorted.len(), 90)],
                sorted[rank_index(sorted.len(), 95)],
                sorted[rank_index(sorted.len(), 99)],
            ),
        )
    }
}

/// An ascending rearrangement of `values` is `sorted_samples(values)`: there
/// is only one.
pub proof fn lemma_ascending_is_sorted_samples(values: Seq<i64>, sorted: Seq<i64>)
    requires
        ascending(sorted),
        sorted.to_multiset() == values.to_multiset(),
    ensures
        sorted == sorted_samples(values),
{
    let leq = |a: i64, b: i64| a <= b;
    assert(total_ordering(leq));
    values.lemma_sort_by_ensures(leq);
    assert(sorted_by(sorted, leq));
    lemma_sorted_unique(sorted, values.sort_by(leq), leq);
}

/// The sorted samples are ascending and hold exactly the samples of `values`.
pub proof fn lemma_sorted_samples(values: Seq<i64>)
    ensures
        ascending(sorted_samples(values)),
        sorted_samples(values).to_multiset() == values.to_multiset(),
        sorted_samples(values).len() == values.len(),
{
    let leq = |a: i64, b: i64| a <= b;
    assert(total_ordering(leq));
    values.lemma_sort_by_ensures(leq);
    let sorted = values.sort_by(leq);
    assert(ascending(sorted)) by {
        assert forall|i: int, j: int| 0 <= i <= j < sorted.len() implies sorted[i] <= sorted[j] by {
            if i < j {
                assert(leq(sorted[i], sorted[j]));
            }
        }
    }
    values.to_multiset_ensures();
    sorted.to_multiset_ensures();
}

/// Rank indices lie within the samples and do not decrease with the
/// percentile.
pub proof fn lemma_rank_index_monotonic(n: nat, lower: nat, upper: nat)
    requires
        n > 0,
        lower <= upper,
    ensures
        0 <= rank_index(n, lower) <= rank_index(n, upper) < n,
{
    assert((n - 1) * lower <= (n - 1) * upper) by (nonlinear_arith)
        requires
            n > 0,
            lower <= upper,
    ;
    assert(0 <= (n - 1) * lower) by (nonlinear_arith)
        requires
            n > 0,
    ;
}

/// For any non-empty sample set, no percentile is above a higher one.
pub proof fn lemma_percentiles_ordered(sorted: Seq<i64>, lower: nat, upper: nat)
    requires
        ascending(sorted),
        sorted.len() > 0,
        lower <= upper,
    ensures
        percentile_of(sorted, lower).unwrap() <= percentile_of(sorted, upper).unwrap(),
{
    lemma_rank_index_monotonic(sorted.len(), lower, upper);
}

/// Sorts with `<[i64]>::sort_unstable`: afterwards the slice holds the same
/// samples as before, each as often as before, in ascending order.
#[verifier::external_body]
fn sort_samples(values: &mut [i64])
    ensures
        ascending(final(values)@),
        final(values)@.to_multiset() == old(values)@.to_multiset(),
{
    values.sort_unstable();
}

/// The sample at the nearest rank of `percent` in samples that the caller
/// has sorted; `None` when there is no sample.
pub fn calculate_percentile_sorted(sorted_values: &[i64], percent: u32) -> (value: Option<i64>)
    ensures
        value == percentile_of(sorted_values@, percent as nat),
{
    let n = sorted_values.len();
    if n == 0 {
        return None;
    }
    let last = n - 1;
    assert(0 <= last * percent <= 0xffff_ffff_ffff_ffff * 0xffff_ffff) by (nonlinear_arith)
        requires
            0 <= last <= 0xffff_ffff_ffff_ffff,
            0 <= percent <= 0xffff_ffff,
    ;
    let raw: u128 = (last as u128 * percent as u128) / 100;
    let idx: usize = if raw > last as u128 {
        last
    } else {
        raw as usize
    };
    Some(sorted_values[idx])
}

/// Sorts `values` in place and returns their 50th, 90th, 95th and 99th
/// percentile, or `None` when there is no sample to rank.
pub fn calculate_percentiles(values: &mut [i64]) -> (result: Option<(i64, i64, i64, i64)>)
    ensures
        final(values)@ == sorted_samples(old(values)@),
        result == percentiles_of(final(values)@),
        result is None <==> old(values)@.len() == 0,
        match result {
            Some((p50, p90, p95, p99)) => p50 <= p90 <= p95 <= p99,
            None => true,
        },
{
    if values.len() == 0 {
        proof {
            lemma_sorted_samples(values@);
            assert(values@ =~= sorted_samples(values@));
        }
        return None;
    }
    sort_samples(values);
    proof {
        lemma_ascending_is_sorted_samples(old(values)@, values@);
        lemma_sorted_samples(old(values)@);
        lemma_rank_index_monotonic(values@.len(), 50, 90);
        lemma_rank_index_monotonic(values@.len(), 90, 95);
        lemma_rank_index_monotonic(values@.len(), 95, 99);
    }
    let p50 = calculate_percentile_sorted(values, 50);
    let p90 = calculate_percentile_sorted(values, 90);
    let p95 = calculate_percentile_sorted(values, 95);
    let p99 = calculate_percentile_sorted(values, 99);
    match (p50, p90, p95, p99) {
        (Some(p50), Some(p90), Some(p95), Some(p99)) => Some((p50, p90, p95, p99)),
        _ => None,
    }
}


/// The events that a sequence of borrows points at.
pub open spec fn borrowed(refs: Seq<&KeystrokeEvent>) -> Seq<KeystrokeEvent> {
    Seq::new(refs.len(), |i: int| *refs[i])
}

/// Borrows the press events of `events`, in their order.
pub fn select_presses<'a>(events: &'a [KeystrokeEvent]) -> (selected: Vec<&'a KeystrokeEvent>)
    ensures
        borrowed(selected@) == presses(events@),
{
    let mut selected: Vec<&'a KeystrokeEvent> = Vec::new();
    let mut i: usize = 0;
    proof {
        reveal(Seq::filter);
        assert(events@.take(0) =~= Seq::<KeystrokeEvent>::empty());
        assert(borrowed(selected@) =~= Seq::<KeystrokeEvent>::empty());
    }
    while i < events.len()
        invariant
            i <= events@.len(),
            borrowed(selected@) == presses(events@.take(i as int)),
        decreases events@.len() - i,
    {
        proof {
            reveal(Seq::filter);
            assert(events@.take(i as int + 1).drop_last() =~= events@.take(i as int));
        }
        let ghost before = borrowed(selected@);
        if matches!(events[i].event_type, EventType::Press) {
            selected.push(&events[i]);
            assert(borrowed(selected@) =~= before.push(events@[i as int]));
        }
        i += 1;
    }
    proof {
        assert(events@.take(i as int) =~= events@);
    }
    selected
}

} // verus!
