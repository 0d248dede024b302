use crate::analysis::filters::{borrowed, presses, select_presses};
use crate::analysis::tally::{lemma_occurrences_bounded, lemma_occurrences_push, occurrences};
use crate::models::KeystrokeEvent;
use vstd::prelude::*;
use vstd::string::{StrSliceExecFns, StringExecFns};

verus! {

/// The calendar date of a timestamp in UTC as `chrono` writes it with
/// `%Y-%m-%d`; the empty text for a timestamp that `chrono` cannot hold.
pub uninterp spec fn utc_date(timestamp: i64) -> Seq<char>;

/// The UTC calendar date of `timestamp`, made with
/// `chrono::DateTime::from_timestamp_millis` and formatted with `%Y-%m-%d`;
/// empty where the timestamp is out of the range of `chrono`. The text
/// depends on the timestamp alone.
#[verifier::external_body]
fn date_label(timestamp: i64) -> (label: String)
    ensures
        label@ == utc_date(timestamp),
{
    chrono::DateTime::from_timestamp_millis(timestamp)
        .map(|dt| dt.format("%Y-%m-%d").to_string())
        .unwrap_or_default()
}

/// The order of texts: character by character by code point, a text before
/// each text that it begins.
pub open spec fn text_leq(a: Seq<char>, b: Seq<char>) -> bool
    decreases a.len(),
{
    if a.len() == 0 {
        true
    } else if b.len() == 0 {
        false
    } else if a[0] != b[0] {
        (a[0] as u32) < (b[0] as u32)
    } else {
        text_leq(a.drop_first(), b.drop_first())
    }
}

/// Two texts that are each no later than the other are the same text.
pub proof fn lemma_text_leq_antisymmetric(a: Seq<char>, b: Seq<char>)
    requires
        text_leq(a, b),
        text_leq(b, a),
    ensures
        a == b,
    decreases a.len(),
{
    if a.len() == 0 || b.len() == 0 {
        assert(a =~= b);
    } else {
        lemma_text_leq_antisymmetric(a.drop_first(), b.drop_first());
        assert(a =~= seq![a[0]] + a.drop_first());
        assert(b =~= seq![b[0]] + b.drop_first());
    }
}

/// What each string holds.
pub open spec fn texts(strings: Seq<String>) -> Seq<Seq<char>> {
    Seq::new(strings.len(), |i: int| strings[i]@)
}

/// Sorts with `<[String]>::sort_unstable`, which orders strings by their
/// bytes and so by their code points: afterwards the vector holds the same
/// texts as before, each as often as before, in ascending order.
#[verifier::external_body]
fn sort_labels(labels: &mut Vec<String>)
    ensures
        texts(final(labels)@).to_multiset() == texts(old(labels)@).to_multiset(),
        forall|i: int, j: int|
            0 <= i <= j < final(labels)@.len() ==> text_leq(
                #[trigger] final(labels)@[i]@,
                #[trigger] final(labels)@[j]@,
            ),
{
    labels.sort_unstable();
}

/// The number of presses of one day.
#[derive(Debug, Clone)]
pub struct DayCount {
    pub date: String,
    pub count: u64,
}

/// The UTC dates of the events, in their order.
pub open spec fn dates_of(events: Seq<KeystrokeEvent>) -> Seq<Seq<char>> {
    Seq::new(events.len(), |i: int| utc_date(events[i].timestamp))
}

/// True when `table` lists every date of `dates` exactly once, with the
/// number of its occurrences, the earliest text first.
pub open spec fn is_day_table(dates: Seq<Seq<char>>, table: Seq<DayCount>) -> bool {
    &&& forall|i: int|
        0 <= i < table.len() ==> 0 < (#[trigger] table[i]).count == occurrences(
            dates,
            table[i].date@,
        )
    &&& forall|i: int, j: int|
        0 <= i < j < table.len() ==> text_leq(
            (#[trigger] table[i]).date@,
            (#[trigger] table[j]).date@,
        ) && table[i].date@ != table[j].date@
    &&& forall|date: Seq<char>|
        occurrences(dates, date) > 0 ==> exists|i: int|
            0 <= i < table.len() && (#[trigger] table[i]).date@ == date
}

/// The counts of a day table, in its order.
pub open spec fn counts_of(table: Seq<DayCount>) -> Seq<u64> {
    Seq::new(table.len(), |i: int| table[i].count)
}

/// A value occurs as often as its multiset says.
pub proof fn lemma_occurrences_is_count<T>(items: Seq<T>, x: T)
    ensures
        occurrences(items, x) == items.to_multiset().count(x),
    decreases items.len(),
{
    broadcast use vstd::seq_lib::group_to_multiset_ensures;

    if items.len() == 0 {
        assert(items.to_multiset().count(x) == 0);
    } else {
        lemma_occurrences_is_count(items.drop_last(), x);
        assert(items.drop_last().push(items.last()) =~= items);
    }
}

/// A value that occurs has a place.
pub proof fn lemma_occurring_has_index<T>(items: Seq<T>, x: T)
    requires
        occurrences(items, x) > 0,
    ensures
        exists|k: int| 0 <= k < items.len() && #[trigger] items[k] == x,
    decreases items.len(),
{
    if items.last() == x {
        assert(items[items.len() - 1] == x);
    } else {
        lemma_occurring_has_index(items.drop_last(), x);
        let k = choose|k: int| 0 <= k < items.len() - 1 && #[trigger] items.drop_last()[k] == x;
        assert(items[k] == x);
    }
}

/// The dates of the presses of `events`, in their order.
fn press_dates(events: &[KeystrokeEvent]) -> (labels: Vec<String>)
    ensures
        texts(labels@) == dates_of(presses(events@)),
{
    let press_events = select_presses(events);
    let ghost all = dates_of(presses(events@));
    let mut labels: Vec<String> = Vec::new();
    let mut p: usize = 0;
    while p < press_events.len()
        invariant
            p <= press_events@.len(),
            borrowed(press_events@) == presses(events@),
            all == dates_of(presses(events@)),
            texts(labels@) =~= all.take(p as int),
        decreases press_events@.len() - p,
    {
        proof {
            assert(borrowed(press_events@)[p as int] == *press_events@[p as int]);
        }
        let ghost before = texts(labels@);
        labels.push(date_label(press_events[p].timestamp));
        proof {
            assert(texts(labels@) =~= before.push(utc_date(press_events@[p as int].timestamp)));
            assert(all.take(p as int + 1) =~= all.take(p as int).push(all[p as int]));
        }
        p += 1;
    }
    assert(all.take(p as int) =~= all);
    labels
}

/// Counts how often each date occurs in `labels`, the earliest text first.
pub fn count_days(labels: Vec<String>) -> (table: Vec<DayCount>)
    ensures
        is_day_table(texts(labels@), table@),
{
    let ghost all = texts(labels@);
    let mut labels = labels;
    sort_labels(&mut labels);
    let ghost sorted = texts(labels@);
    proof {
        assert forall|x: Seq<char>| occurrences(sorted, x) == #[trigger] occurrences(all, x) by {
            lemma_occurrences_is_count(sorted, x);
            lemma_occurrences_is_count(all, x);
        }
        assert(sorted.take(0) =~= Seq::<Seq<char>>::empty());
    }
    let mut table: Vec<DayCount> = Vec::new();
    let mut i: usize = 0;
    while i < labels.len()
        invariant
            i <= labels@.len(),
            sorted == texts(labels@),
            forall|a: int, b: int|
                0 <= a <= b < labels@.len() ==> text_leq(
                    #[trigger] labels@[a]@,
                    #[trigger] labels@[b]@,
                ),
            i > 0 ==> table@.len() > 0 && table@[table@.len() - 1].date@ == sorted[i - 1],
            forall|k: int|
                0 <= k < table@.len() ==> 0 < (#[trigger] table@[k]).count == occurrences(
                    sorted.take(i as int),
                    table@[k].date@,
                ),
            forall|a: int, b: int|
                0 <= a < b < table@.len() ==> text_leq(
                    (#[trigger] table@[a]).date@,
                    (#[trigger] table@[b]).date@,
                ) && table@[a].date@ != table@[b].date@,
            forall|date: Seq<char>|
                occurrences(sorted.take(i as int), date) > 0 ==> exists|k: int|
                    0 <= k < table@.len() && (#[trigger] table@[k]).date@ == date,
        decreases labels@.len() - i,
    {
        let ghost done = sorted.take(i as int);
        let ghost grown = sorted.take(i as int + 1);
        let ghost label = sorted[i as int];
        let ghost before = table@;
        proof {
            assert(grown =~= done.push(label));
            assert forall|x: Seq<char>| #[trigger]
                occurrences(grown, x) == occurrences(done, x) + if label == x {
                    1nat
                } else {
                    0nat
                } by {
                lemma_occurrences_push(done, label, x);
            }
            lemma_occurrences_bounded(done, label);
        }
        let n = table.len();
        let same = n > 0 && table[n - 1].date == labels[i];
        if same {
            let count = table[n - 1].count;
            table[n - 1].count = count + 1;
            proof {
                assert forall|k: int| 0 <= k < table@.len() implies table@[k].date@
                    == before[k].date@ by {}
                assert forall|date: Seq<char>| occurrences(grown, date) > 0 implies exists|k: int|
                    0 <= k < table@.len() && (#[trigger] table@[k]).date@ == date by {
                    if date == label {
                        assert(table@[n - 1].date@ == date);
                    } else {
                        let k = choose|k: int|
                            0 <= k < before.len() && (#[trigger] before[k]).date@ == date;
                        assert(table@[k].date@ == date);
                    }
                }
                assert forall|k: int| 0 <= k < table@.len() implies 0 < (
                #[trigger] table@[k]).count == occurrences(grown, table@[k].date@) by {
                    assert(before[k].count == occurrences(done, before[k].date@));
                    if k < n - 1 {
                        assert(before[k].date@ != before[n - 1].date@);
                    }
                }
            }
        } else {
            proof {
                assert forall|k: int| 0 <= k < before.len() implies text_leq(
                    (#[trigger] before[k]).date@,
                    label,
                ) && before[k].date@ != label by {
                    assert(occurrences(done, before[k].date@) > 0);
                    lemma_occurring_has_index(done, before[k].date@);
                    let at = choose|at: int| 0 <= at < done.len() && #[trigger] done[at] == before[k].date@;
                    assert(labels@[at]@ == before[k].date@);
                    assert(text_leq(labels@[at]@, labels@[i as int]@));
                    if before[k].date@ == label {
                        assert(text_leq(labels@[at]@, labels@[i as int - 1]@));
                        assert(text_leq(labels@[i as int - 1]@, labels@[i as int]@));
                        lemma_text_leq_antisymmetric(labels@[i as int - 1]@, label);
                    }
                }
                if occurrences(done, label) > 0 {
                    let k = choose|k: int|
                        0 <= k < before.len() && (#[trigger] before[k]).date@ == label;
                    assert(before[k].date@ != label);
                }
            }
            table.push(DayCount { date: labels[i].clone(), count: 1 });
            proof {
                assert forall|date: Seq<char>| occurrences(grown, date) > 0 implies exists|k: int|
                    0 <= k < table@.len() && (#[trigger] table@[k]).date@ == date by {
                    if date == label {
                        assert(table@[n as int].date@ == date);
                    } else {
                        let k = choose|k: int|
                            0 <= k < before.len() && (#[trigger] before[k]).date@ == date;
                        assert(table@[k].date@ == date);
                    }
                }
                assert forall|k: int| 0 <= k < table@.len() implies 0 < (
                #[trigger] table@[k]).count == occurrences(grown, table@[k].date@) by {
                    if k < n {
                        assert(table@[k] == before[k]);
                        assert(before[k].date@ != label);
                    }
                }
                assert forall|a: int, b: int| 0 <= a < b < table@.len() implies text_leq(
                    (#[trigger] table@[a]).date@,
                    (#[trigger] table@[b]).date@,
                ) && table@[a].date@ != table@[b].date@ by {
                    assert(table@[a] == before[a]);
                    if b < n {
                        assert(table@[b] == before[b]);
                    }
                }
            }
        }
        i += 1;
    }
    assert(sorted.take(i as int) =~= sorted);
    table
}

/// The presses of `events` by UTC calendar day, the earliest day first.
pub fn daily_lines(events: &[KeystrokeEvent]) -> (table: Vec<DayCount>)
    ensures
        is_day_table(dates_of(presses(events@)), table@),
{
    count_days(press_dates(events))
}

/// The number of presses of each UTC calendar day with presses, the
/// earliest day first.
pub fn get_daily_counts(events: &[KeystrokeEvent]) -> (counts: Vec<u64>)
    ensures
        exists|table: Seq<DayCount>| #[trigger]
            is_day_table(dates_of(presses(events@)), table) && counts@ == counts_of(table),
{
    let table = daily_lines(events);
    let mut counts: Vec<u64> = Vec::new();
    let mut i: usize = 0;
    while i < table.len()
        invariant
            i <= table@.len(),
            counts@ =~= counts_of(table@).take(i as int),
        decreases table@.len() - i,
    {
        counts.push(table[i].count);
        i += 1;
    }
    assert(counts_of(table@).take(i as int) =~= counts_of(table@));
    assert(is_day_table(dates_of(presses(events@)), table@) && counts@ == counts_of(table@));
    counts
}

/// Where the last part of a dotted name starts: behind its last dot, or at
/// the front of a name without dots.
pub open spec fn last_part_start(name: Seq<char>) -> int
    decreases name.len(),
{
    if name.len() == 0 {
        0
    } else if name.last() == '.' {
        name.len() as int
    } else {
        last_part_start(name.drop_last())
    }
}

/// The last part of a dotted name, cut to 17 characters and an ellipsis
/// where it has more than 18.
pub open spec fn short_app_name(name: Seq<char>) -> Seq<char> {
    let part = name.subrange(last_part_start(name), name.len() as int);
    if part.len() > 18 {
        part.take(17) + "…"@
    } else {
        part
    }
}

/// The start of the last part lies within the name.
pub proof fn lemma_last_part_start_bounds(name: Seq<char>)
    ensures
        0 <= last_part_start(name) <= name.len(),
    decreases name.len(),
{
    if name.len() > 0 && name.last() != '.' {
        lemma_last_part_start_bounds(name.drop_last());
    }
}

/// The name of an application as the trends page shows it: the last part of
/// its dotted identifier, cut to 17 characters and an ellipsis where it has
/// more than 18.
pub fn truncate_app_name(name: &str) -> (short: String)
    ensures
        short@ == short_app_name(name@),
{
    let n = name.unicode_len();
    let mut start: usize = 0;
    let mut i: usize = 0;
    assert(name@.take(0) =~= Seq::<char>::empty());
    while i < n
        invariant
            i <= n,
            n == name@.len(),
            start == last_part_start(name@.take(i as int)),
            start <= i,
        decreases n - i,
    {
        proof {
            assert(name@.take(i as int + 1).drop_last() =~= name@.take(i as int));
        }
        if name.get_char(i) == '.' {
            start = i + 1;
        }
        i += 1;
    }
    assert(name@.take(i as int) =~= name@);
    let part = name.substring_char(start, n);
    if n - start > 18 {
        let mut short = String::from_str(part.substring_char(0, 17));
        short.append("…");
        assert(part@.subrange(0, 17) =~= part@.take(17));
        short
    } else {
        String::from_str(part)
    }
}

} // verus!
