use crate::analysis::filters::{borrowed, gap_before, presses, select_presses};
use crate::analysis::tally::{
    distinct_lines, lemma_counts_sum, lemma_occurrences_push, lists, occurrences, ranks_before,
    total_count, Tally,
};
use crate::models::keycode::{key_name, KeyCode};
use crate::models::KeystrokeEvent;
use vstd::prelude::*;
use vstd::string::StringExecFns;

verus! {

/// Two presses form a bigram only when the gap between them is below this
/// many milliseconds. The window is fixed: it does not follow the
/// configured maximum gap.
pub const ADJACENCY_WINDOW_MS: i64 = 5000;

/// How often one key was pressed.
#[derive(Debug, Clone)]
pub struct KeyCount {
    pub key_code: u32,
    pub key_name: String,
    pub count: u64,
    /// The number of presses that `count` is a share of.
    pub total: u64,
}

/// How often one key was pressed directly after another.
#[derive(Debug, Clone)]
pub struct BigramCount {
    pub first_key: u32,
    pub second_key: u32,
    pub display: String,
    pub count: u64,
    /// The number of bigrams that `count` is a share of.
    pub total: u64,
}

/// How often three keys were pressed in a row.
#[derive(Debug)]
pub struct TrigramCount {
    pub keys: (u32, u32, u32),
    pub display: String,
    pub count: u64,
    /// The number of trigrams that `count` is a share of.
    pub total: u64,
}

impl Clone for TrigramCount {
    fn clone(&self) -> (copy: Self)
        ensures
            copy.keys == self.keys,
            copy.display@ == self.display@,
            copy.count == self.count,
            copy.total == self.total,
    {
        TrigramCount {
            keys: (self.keys.0, self.keys.1, self.keys.2),
            display: self.display.clone(),
            count: self.count,
            total: self.total,
        }
    }
}

/// Ranked tables of keys, bigrams and trigrams.
#[derive(Debug)]
pub struct FrequencyAnalysis {
    pub total_presses: u64,
    pub key_frequencies: Vec<KeyCount>,
    pub bigram_frequencies: Vec<BigramCount>,
    pub trigram_frequencies: Vec<TrigramCount>,
}

/// The key codes of `presses`, in their order.
pub open spec fn pressed_keys(presses: Seq<KeystrokeEvent>) -> Seq<u32> {
    Seq::new(presses.len(), |i: int| presses[i].key_code)
}

/// True when `table` lists every key of `presses` exactly once, with the
/// number of its presses, its label and the number of all presses, the most
/// pressed key first and the lower key code first among equals.
pub open spec fn is_key_table(presses: Seq<KeystrokeEvent>, table: Seq<KeyCount>) -> bool {
    let keys = pressed_keys(presses);
    &&& forall|i: int|
        0 <= i < table.len() ==> {
            &&& 0 < (#[trigger] table[i]).count == occurrences(keys, table[i].key_code)
            &&& table[i].key_name@ == key_name(table[i].key_code)
            &&& table[i].total == keys.len()
        }
    &&& forall|i: int, j: int|
        0 <= i < j < table.len() ==> ranks_before(
            (#[trigger] table[i]).count as int,
            table[i].key_code as int,
            (#[trigger] table[j]).count as int,
            table[j].key_code as int,
        )
    &&& forall|key: u32|
        occurrences(keys, key) > 0 ==> exists|i: int|
            0 <= i < table.len() && (#[trigger] table[i]).key_code == key
}

/// The bigrams of `presses`, in their order: each pair of neighbouring
/// presses whose gap is below the adjacency window.
pub open spec fn bigrams(presses: Seq<KeystrokeEvent>) -> Seq<(u32, u32)>
    decreases presses.len(),
{
    if presses.len() < 2 {
        Seq::empty()
    } else {
        let n = presses.len() as int;
        let head = bigrams(presses.drop_last());
        if gap_before(presses, n - 1) < ADJACENCY_WINDOW_MS {
            head.push((presses[n - 2].key_code, presses[n - 1].key_code))
        } else {
            head
        }
    }
}

/// The trigrams of `presses`, in their order: each run of three neighbouring
/// presses whose two gaps are both below the adjacency window.
pub open spec fn trigrams(presses: Seq<KeystrokeEvent>) -> Seq<(u32, u32, u32)>
    decreases presses.len(),
{
    if presses.len() < 3 {
        Seq::empty()
    } else {
        let n = presses.len() as int;
        let head = trigrams(presses.drop_last());
        if gap_before(presses, n - 2) < ADJACENCY_WINDOW_MS && gap_before(presses, n - 1)
            < ADJACENCY_WINDOW_MS {
            head.push((presses[n - 3].key_code, presses[n - 2].key_code, presses[n - 1].key_code))
        } else {
            head
        }
    }
}

/// The place of a pair of keys in the order by first key, then second key.
pub open spec fn pair_id(pair: (u32, u32)) -> int {
    pair.0 * 0x1_0000_0000 + pair.1
}

/// The place of three keys in the order by first, then second, then third
/// key.
pub open spec fn triple_id(keys: (u32, u32, u32)) -> int {
    keys.0 * 0x1_0000_0000_0000_0000 + keys.1 * 0x1_0000_0000 + keys.2
}

/// The label of a bigram: the two key labels with an arrow between them.
pub open spec fn bigram_label(pair: (u32, u32)) -> Seq<char> {
    key_name(pair.0) + " -> "@ + key_name(pair.1)
}

/// The label of a trigram: the three key labels with arrows between them.
pub open spec fn trigram_label(keys: (u32, u32, u32)) -> Seq<char> {
    key_name(keys.0) + " -> "@ + key_name(keys.1) + " -> "@ + key_name(keys.2)
}

/// True when `table` lists every bigram of `presses` exactly once, with the
/// number of its occurrences, its label and the number of all bigrams, the
/// most frequent first and the lower pair first among equals.
pub open spec fn is_bigram_table(presses: Seq<KeystrokeEvent>, table: Seq<BigramCount>) -> bool {
    let pairs = bigrams(presses);
    &&& forall|i: int|
        0 <= i < table.len() ==> {
            &&& 0 < (#[trigger] table[i]).count == occurrences(
                pairs,
                (table[i].first_key, table[i].second_key),
            )
            &&& table[i].display@ == bigram_label((table[i].first_key, table[i].second_key))
            &&& table[i].total == pairs.len()
        }
    &&& forall|i: int, j: int|
        0 <= i < j < table.len() ==> ranks_before(
            (#[trigger] table[i]).count as int,
            pair_id((table[i].first_key, table[i].second_key)),
            (#[trigger] table[j]).count as int,
            pair_id((table[j].first_key, table[j].second_key)),
        )
    &&& forall|pair: (u32, u32)|
        occurrences(pairs, pair) > 0 ==> exists|i: int|
            0 <= i < table.len() && (#[trigger] table[i]).first_key == pair.0
                && table[i].second_key == pair.1
}

/// True when `table` lists every trigram of `presses` exactly once, with the
/// number of its occurrences, its label and the number of all trigrams, the
/// most frequent first and the lower triple first among equals.
pub open spec fn is_trigram_table(presses: Seq<KeystrokeEvent>, table: Seq<TrigramCount>) -> bool {
    let triples = trigrams(presses);
    &&& forall|i: int|
        0 <= i < table.len() ==> {
            &&& 0 < (#[trigger] table[i]).count == occurrences(triples, table[i].keys)
            &&& table[i].display@ == trigram_label(table[i].keys)
            &&& table[i].total == triples.len()
        }
    &&& forall|i: int, j: int|
        0 <= i < j < table.len() ==> ranks_before(
            (#[trigger] table[i]).count as int,
            triple_id(table[i].keys),
            (#[trigger] table[j]).count as int,
            triple_id(table[j].keys),
        )
    &&& forall|keys: (u32, u32, u32)|
        occurrences(triples, keys) > 0 ==> exists|i: int|
            0 <= i < table.len() && (#[trigger] table[i]).keys == keys
}

/// Without presses the three tables are empty, and with fewer than two or
/// three presses the bigram or trigram table is.
pub proof fn lemma_empty_tables(
    presses: Seq<KeystrokeEvent>,
    keys: Seq<KeyCount>,
    pairs: Seq<BigramCount>,
    triples: Seq<TrigramCount>,
)
    requires
        is_key_table(presses, keys),
        is_bigram_table(presses, pairs),
        is_trigram_table(presses, triples),
    ensures
        presses.len() == 0 ==> keys.len() == 0,
        presses.len() < 2 ==> pairs.len() == 0,
        presses.len() < 3 ==> triples.len() == 0,
{
    if presses.len() == 0 && keys.len() > 0 {
        assert(keys[0].count > 0);
    }
    if presses.len() < 2 && pairs.len() > 0 {
        assert(pairs[0].count > 0);
    }
    if presses.len() < 3 && triples.len() > 0 {
        assert(triples[0].count > 0);
    }
}

/// The keys of a key table with their counts.
pub open spec fn key_lines(table: Seq<KeyCount>) -> Seq<(u32, nat)> {
    Seq::new(table.len(), |i: int| (table[i].key_code, table[i].count as nat))
}

/// The pairs of a bigram table with their counts.
pub open spec fn bigram_lines(table: Seq<BigramCount>) -> Seq<((u32, u32), nat)> {
    Seq::new(table.len(), |i: int| ((table[i].first_key, table[i].second_key), table[i].count as nat))
}

/// The triples of a trigram table with their counts.
pub open spec fn trigram_lines(table: Seq<TrigramCount>) -> Seq<((u32, u32, u32), nat)> {
    Seq::new(table.len(), |i: int| (table[i].keys, table[i].count as nat))
}

/// The counts of a table add up to the total that each line is a share of:
/// the key counts to the number of presses, the bigram counts to the number
/// of bigrams, the trigram counts to the number of trigrams. The shares of a
/// table with lines therefore add up to the whole.
pub proof fn lemma_counts_add_up(
    presses: Seq<KeystrokeEvent>,
    keys: Seq<KeyCount>,
    pairs: Seq<BigramCount>,
    triples: Seq<TrigramCount>,
)
    requires
        is_key_table(presses, keys),
        is_bigram_table(presses, pairs),
        is_trigram_table(presses, triples),
    ensures
        total_count(key_lines(keys)) == presses.len(),
        total_count(bigram_lines(pairs)) == bigrams(presses).len(),
        total_count(trigram_lines(triples)) == trigrams(presses).len(),
{
    let key_items = pressed_keys(presses);
    let k = key_lines(keys);
    assert forall|x: u32| occurrences(key_items, x) > 0 implies lists(k, x) by {
        let i = choose|i: int| 0 <= i < keys.len() && (#[trigger] keys[i]).key_code == x;
        assert(k[i].0 == x);
    }
    assert(distinct_lines(k)) by {
        assert forall|i: int, j: int| 0 <= i < j < k.len() implies (#[trigger] k[i]).0 != (
        #[trigger] k[j]).0 by {
            assert(ranks_before(
                keys[i].count as int,
                keys[i].key_code as int,
                keys[j].count as int,
                keys[j].key_code as int,
            ));
        }
    }
    lemma_counts_sum(key_items, k);
    let p = bigram_lines(pairs);
    assert forall|x: (u32, u32)| occurrences(bigrams(presses), x) > 0 implies lists(p, x) by {
        let i = choose|i: int|
            0 <= i < pairs.len() && (#[trigger] pairs[i]).first_key == x.0 && pairs[i].second_key
                == x.1;
        assert(p[i].0 == x);
    }
    assert(distinct_lines(p)) by {
        assert forall|i: int, j: int| 0 <= i < j < p.len() implies (#[trigger] p[i]).0 != (
        #[trigger] p[j]).0 by {
            assert(ranks_before(
                pairs[i].count as int,
                pair_id((pairs[i].first_key, pairs[i].second_key)),
                pairs[j].count as int,
                pair_id((pairs[j].first_key, pairs[j].second_key)),
            ));
        }
    }
    lemma_counts_sum(bigrams(presses), p);
    let t = trigram_lines(triples);
    assert forall|x: (u32, u32, u32)| occurrences(trigrams(presses), x) > 0 implies lists(
        t,
        x,
    ) by {
        let i = choose|i: int| 0 <= i < triples.len() && (#[trigger] triples[i]).keys == x;
        assert(t[i].0 == x);
    }
    assert(distinct_lines(t)) by {
        assert forall|i: int, j: int| 0 <= i < j < t.len() implies (#[trigger] t[i]).0 != (
        #[trigger] t[j]).0 by {
            assert(ranks_before(
                triples[i].count as int,
                triple_id(triples[i].keys),
                triples[j].count as int,
                triple_id(triples[j].keys),
            ));
        }
    }
    lemma_counts_sum(trigrams(presses), t);
}

/// The bigram label of two keys.
fn bigram_display(first: u32, second: u32) -> (display: String)
    ensures
        display@ == bigram_label((first, second)),
{
    let mut display = KeyCode(first).to_name();
    display.append(" -> ");
    let second_name = KeyCode(second).to_name();
    display.append(second_name.as_str());
    display
}

/// The trigram label of three keys.
fn trigram_display(keys: (u32, u32, u32)) -> (display: String)
    ensures
        display@ == trigram_label(keys),
{
    let mut display = bigram_display(keys.0, keys.1);
    display.append(" -> ");
    let third_name = KeyCode(keys.2).to_name();
    display.append(third_name.as_str());
    display
}

impl FrequencyAnalysis {
    fn calculate_key_frequencies(events: &[&KeystrokeEvent], total: u64) -> (table: Vec<KeyCount>)
        requires
            total == events@.len(),
        ensures
            is_key_table(borrowed(events@), table@),
    {
        let ghost all = pressed_keys(borrowed(events@));
        let mut tally = Tally::new();
        let mut i: usize = 0;
        while i < events.len()
            invariant
                i <= events@.len(),
                all == pressed_keys(borrowed(events@)),
                tally.wf(),
                tally@.len() == i,
                forall|id: u128| #[trigger]
                    occurrences(tally@, id) == if id <= u32::MAX {
                        occurrences(all.take(i as int), id as u32)
                    } else {
                        0
                    },
            decreases events@.len() - i,
        {
            let key = events[i].key_code;
            proof {
                assert(all.take(i as int + 1) =~= all.take(i as int).push(key));
                assert forall|id: u128| #[trigger]
                    occurrences(tally@.push(key as u128), id) == if id <= u32::MAX {
                        occurrences(all.take(i as int + 1), id as u32)
                    } else {
                        0
                    } by {
                    lemma_occurrences_push(tally@, key as u128, id);
                    if id <= u32::MAX {
                        lemma_occurrences_push(all.take(i as int), key, id as u32);
                    }
                }
            }
            tally.add(key as u128);
            i += 1;
        }
        assert(all.take(i as int) =~= all);
        let ranking = tally.into_ranking();
        let mut table: Vec<KeyCount> = Vec::new();
        let mut r: usize = 0;
        while r < ranking.len()
            invariant
                r <= ranking@.len(),
                table@.len() == r,
                forall|k: int| 0 <= k < ranking@.len() ==> (#[trigger] ranking@[k]).id <= u32::MAX,
                forall|k: int|
                    0 <= k < r ==> {
                        &&& (#[trigger] table@[k]).key_code == ranking@[k].id
                        &&& table@[k].count == ranking@[k].count
                        &&& table@[k].key_name@ == key_name(table@[k].key_code)
                        &&& table@[k].total == total
                    },
            decreases ranking@.len() - r,
        {
            let line = ranking[r];
            let key_code = line.id as u32;
            table.push(
                KeyCount { key_code, key_name: KeyCode(key_code).to_name(), count: line.count, total },
            );
            r += 1;
        }
        proof {
            assert forall|key: u32| occurrences(all, key) > 0 implies exists|i: int|
                0 <= i < table@.len() && (#[trigger] table@[i]).key_code == key by {
                assert(occurrences(tally@, key as u128) > 0);
                let i = choose|i: int|
                    0 <= i < ranking@.len() && (#[trigger] ranking@[i]).id == key as u128;
                assert(table@[i].key_code == key);
            }
        }
        table
    }

    fn calculate_bigram_frequencies(events: &[&KeystrokeEvent]) -> (table: Vec<BigramCount>)
        ensures
            is_bigram_table(borrowed(events@), table@),
    {
        let ghost all = borrowed(events@);
        if events.len() < 2 {
            return Vec::new();
        }
        let mut tally = Tally::new();
        let mut total: u64 = 0;
        let mut i: usize = 1;
        while i < events.len()
            invariant
                all == borrowed(events@),
                1 <= i <= all.len(),
                tally.wf(),
                tally@.len() == total <= i - 1,
                total == bigrams(all.take(i as int)).len(),
                forall|id: u128|
                    #[trigger] occurrences(tally@, id) > 0 ==> id <= u64::MAX,
                forall|pair: (u32, u32)|
                    occurrences(tally@, pair_id(pair) as u128) == #[trigger] occurrences(
                        bigrams(all.take(i as int)),
                        pair,
                    ),
            decreases events@.len() - i,
        {
            let ghost found = bigrams(all.take(i as int));
            let ghost prefix = all.take(i as int + 1);
            let first = events[i - 1].key_code;
            let second = events[i].key_code;
            let gap = events[i].timestamp as i128 - events[i - 1].timestamp as i128;
            proof {
                assert(prefix.drop_last() =~= all.take(i as int));
                assert(gap == gap_before(prefix, i as int));
            }
            if gap < ADJACENCY_WINDOW_MS as i128 {
                let id = first as u128 * 0x1_0000_0000 + second as u128;
                proof {
                    assert(bigrams(prefix) == found.push((first, second)));
                    assert forall|pair: (u32, u32)|
                        occurrences(tally@.push(id), pair_id(pair) as u128)
                        == #[trigger] occurrences(bigrams(prefix), pair) by {
                        lemma_occurrences_push(tally@, id, pair_id(pair) as u128);
                        lemma_occurrences_push(found, (first, second), pair);
                    }
                    assert forall|other: u128| #[trigger]
                        occurrences(tally@.push(id), other) > 0 implies other <= u64::MAX by {
                        lemma_occurrences_push(tally@, id, other);
                    }
                }
                tally.add(id);
                total += 1;
            } else {
                assert(bigrams(prefix) == found);
            }
            i += 1;
        }
        assert(all.take(i as int) =~= all);
        let ranking = tally.into_ranking();
        let mut table: Vec<BigramCount> = Vec::new();
        let mut r: usize = 0;
        while r < ranking.len()
            invariant
                r <= ranking@.len(),
                table@.len() == r,
                forall|k: int| 0 <= k < ranking@.len() ==> (#[trigger] ranking@[k]).id <= u64::MAX,
                forall|k: int|
                    0 <= k < r ==> {
                        &&& pair_id(((#[trigger] table@[k]).first_key, table@[k].second_key))
                            == ranking@[k].id
                        &&& table@[k].count == ranking@[k].count
                        &&& table@[k].display@ == bigram_label(
                            (table@[k].first_key, table@[k].second_key),
                        )
                        &&& table@[k].total == total
                    },
            decreases ranking@.len() - r,
        {
            let line = ranking[r];
            let first_key = (line.id / 0x1_0000_0000) as u32;
            let second_key = (line.id % 0x1_0000_0000) as u32;
            table.push(
                BigramCount {
                    first_key,
                    second_key,
                    display: bigram_display(first_key, second_key),
                    count: line.count,
                    total,
                },
            );
            r += 1;
        }
        proof {
            assert forall|pair: (u32, u32)| occurrences(bigrams(all), pair) > 0 implies exists|
                i: int,
            |
                0 <= i < table@.len() && (#[trigger] table@[i]).first_key == pair.0
                    && table@[i].second_key == pair.1 by {
                assert(occurrences(tally@, pair_id(pair) as u128) > 0);
                let i = choose|i: int|
                    0 <= i < ranking@.len() && (#[trigger] ranking@[i]).id == pair_id(pair) as u128;
                assert(pair_id((table@[i].first_key, table@[i].second_key)) == pair_id(pair));
            }
        }
        table
    }

    fn calculate_trigram_frequencies(events: &[&KeystrokeEvent]) -> (table: Vec<TrigramCount>)
        ensures
            is_trigram_table(borrowed(events@), table@),
    {
        let ghost all = borrowed(events@);
        if events.len() < 3 {
            return Vec::new();
        }
        let mut tally = Tally::new();
        let mut total: u64 = 0;
        let mut i: usize = 2;
        while i < events.len()
            invariant
                all == borrowed(events@),
                2 <= i <= all.len(),
                tally.wf(),
                tally@.len() == total <= i - 2,
                total == trigrams(all.take(i as int)).len(),
                forall|id: u128|
                    #[trigger] occurrences(tally@, id) > 0 ==> id < 0x1_0000_0000_0000_0000_0000_0000,
                forall|keys: (u32, u32, u32)|
                    occurrences(tally@, triple_id(keys) as u128) == #[trigger] occurrences(
                        trigrams(all.take(i as int)),
                        keys,
                    ),
            decreases events@.len() - i,
        {
            let ghost found = trigrams(all.take(i as int));
            let ghost prefix = all.take(i as int + 1);
            let keys = (events[i - 2].key_code, events[i - 1].key_code, events[i].key_code);
            let gap1 = events[i - 1].timestamp as i128 - events[i - 2].timestamp as i128;
            let gap2 = events[i].timestamp as i128 - events[i - 1].timestamp as i128;
            proof {
                assert(prefix.drop_last() =~= all.take(i as int));
                assert(gap1 == gap_before(prefix, i as int - 1));
                assert(gap2 == gap_before(prefix, i as int));
            }
            if gap1 < ADJACENCY_WINDOW_MS as i128 && gap2 < ADJACENCY_WINDOW_MS as i128 {
                let id = keys.0 as u128 * 0x1_0000_0000_0000_0000 + keys.1 as u128 * 0x1_0000_0000
                    + keys.2 as u128;
                proof {
                    assert(trigrams(prefix) == found.push(keys));
                    assert forall|other: (u32, u32, u32)|
                        occurrences(tally@.push(id), triple_id(other) as u128)
                        == #[trigger] occurrences(trigrams(prefix), other) by {
                        lemma_occurrences_push(tally@, id, triple_id(other) as u128);
                        lemma_occurrences_push(found, keys, other);
                    }
                    assert forall|other: u128| #[trigger]
                        occurrences(tally@.push(id), other) > 0 implies other
                        < 0x1_0000_0000_0000_0000_0000_0000 by {
                        lemma_occurrences_push(tally@, id, other);
                    }
                }
                tally.add(id);
                total += 1;
            } else {
                assert(trigrams(prefix) == found);
            }
            i += 1;
        }
        assert(all.take(i as int) =~= all);
        let ranking = tally.into_ranking();
        let mut table: Vec<TrigramCount> = Vec::new();
        let mut r: usize = 0;
        while r < ranking.len()
            invariant
                r <= ranking@.len(),
                table@.len() == r,
                forall|k: int|
                    0 <= k < ranking@.len() ==> (#[trigger] ranking@[k]).id
                        < 0x1_0000_0000_0000_0000_0000_0000,
                forall|k: int|
                    0 <= k < r ==> {
                        &&& triple_id((#[trigger] table@[k]).keys) == ranking@[k].id
                        &&& table@[k].count == ranking@[k].count
                        &&& table@[k].display@ == trigram_label(table@[k].keys)
                        &&& table@[k].total == total
                    },
            decreases ranking@.len() - r,
        {
            let line = ranking[r];
            let keys = (
                (line.id / 0x1_0000_0000_0000_0000) as u32,
                ((line.id / 0x1_0000_0000) % 0x1_0000_0000) as u32,
                (line.id % 0x1_0000_0000) as u32,
            );
            table.push(
                TrigramCount { keys, display: trigram_display(keys), count: line.count, total },
            );
            r += 1;
        }
        proof {
            assert forall|keys: (u32, u32, u32)| occurrences(trigrams(all), keys) > 0 implies exists|
                i: int,
            |
                0 <= i < table@.len() && (#[trigger] table@[i]).keys == keys by {
                assert(occurrences(tally@, triple_id(keys) as u128) > 0);
                let i = choose|i: int|
                    0 <= i < ranking@.len() && (#[trigger] ranking@[i]).id == triple_id(
                        keys,
                    ) as u128;
                assert(triple_id(table@[i].keys) == triple_id(keys));
            }
        }
        table
    }

    /// Counts the presses of `events` by key, by bigram and by trigram.
    /// Release events are passed over.
    pub fn from_events(events: &[KeystrokeEvent]) -> (analysis: Self)
        ensures
            analysis.total_presses == presses(events@).len(),
            is_key_table(presses(events@), analysis.key_frequencies@),
            is_bigram_table(presses(events@), analysis.bigram_frequencies@),
            is_trigram_table(presses(events@), analysis.trigram_frequencies@),
            events@.len() == 0 ==> {
                &&& analysis.total_presses == 0
                &&& analysis.key_frequencies@.len() == 0
                &&& analysis.bigram_frequencies@.len() == 0
                &&& analysis.trigram_frequencies@.len() == 0
            },
    {
        let press_events = select_presses(events);
        let total_presses = press_events.len() as u64;
        let key_frequencies = Self::calculate_key_frequencies(
            press_events.as_slice(),
            total_presses,
        );
        let bigram_frequencies = Self::calculate_bigram_frequencies(press_events.as_slice());
        let trigram_frequencies = Self::calculate_trigram_frequencies(press_events.as_slice());
        proof {
            lemma_empty_tables(
                presses(events@),
                key_frequencies@,
                bigram_frequencies@,
                trigram_frequencies@,
            );
        }
        FrequencyAnalysis {
            total_presses,
            key_frequencies,
            bigram_frequencies,
            trigram_frequencies,
        }
    }

    /// The first `n` lines of the key table, or all of them where it has
    /// fewer.
    pub fn top_keys(&self, n: usize) -> (top: &[KeyCount])
        ensures
            top@ == self.key_frequencies@.take(
                if n <= self.key_frequencies@.len() {
                    n as int
                } else {
                    self.key_frequencies@.len() as int
                },
            ),
    {
        let len = self.key_frequencies.len();
        let end = if n < len {
            n
        } else {
            len
        };
        let all = self.key_frequencies.as_slice();
        &all[0..end]
    }

    /// The first `n` lines of the bigram table, or all of them where it has
    /// fewer.
    pub fn top_bigrams(&self, n: usize) -> (top: &[BigramCount])
        ensures
            top@ == self.bigram_frequencies@.take(
                if n <= self.bigram_frequencies@.len() {
                    n as int
                } else {
                    self.bigram_frequencies@.len() as int
                },
            ),
    {
        let len = self.bigram_frequencies.len();
        let end = if n < len {
            n
        } else {
            len
        };
        let all = self.bigram_frequencies.as_slice();
        &all[0..end]
    }

    /// The first `n` lines of the trigram table, or all of them where it has
    /// fewer.
    pub fn top_trigrams(&self, n: usize) -> (top: &[TrigramCount])
        ensures
            top@ == self.trigram_frequencies@.take(
                if n <= self.trigram_frequencies@.len() {
                    n as int
                } else {
                    self.trigram_frequencies@.len() as int
                },
            ),
    {
        let len = self.trigram_frequencies.len();
        let end = if n < len {
            n
        } else {
            len
        };
        let all = self.trigram_frequencies.as_slice();
        &all[0..end]
    }
}

} // verus!
