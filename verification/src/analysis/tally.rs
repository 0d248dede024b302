use std::collections::HashMap;
use vstd::prelude::*;

verus! {

/// How often `x` occurs in `items`.
pub open spec fn occurrences<T>(items: Seq<T>, x: T) -> nat
    decreases items.len(),
{
    if items.len() == 0 {
        0
    } else {
        occurrences(items.drop_last(), x) + if items.last() == x {
            1nat
        } else {
            0nat
        }
    }
}

/// The order of a ranking: the higher count first, and among equal counts
/// the lower id first.
pub open spec fn ranks_before(count_a: int, id_a: int, count_b: int, id_b: int) -> bool {
    count_a > count_b || (count_a == count_b && id_a < id_b)
}

/// One line of a ranking: an id and how often it was counted.
#[derive(Debug, Clone, Copy)]
pub struct Ranked {
    pub id: u128,
    pub count: u64,
}

/// True when `ranking` lists every id that occurs in `items` exactly once,
/// with the number of its occurrences, in ranking order.
pub open spec fn is_ranking(items: Seq<u128>, ranking: Seq<Ranked>) -> bool {
    &&& forall|i: int|
        0 <= i < ranking.len() ==> 0 < (#[trigger] ranking[i]).count == occurrences(
            items,
            ranking[i].id,
        )
    &&& forall|i: int, j: int|
        0 <= i < j < ranking.len() ==> ranks_before(
            (#[trigger] ranking[i]).count as int,
            ranking[i].id as int,
            (#[trigger] ranking[j]).count as int,
            ranking[j].id as int,
        )
    &&& forall|id: u128|
        occurrences(items, id) > 0 ==> exists|i: int|
            0 <= i < ranking.len() && (#[trigger] ranking[i]).id == id
}

/// Nothing occurs more often than there are items.
pub proof fn lemma_occurrences_bounded<T>(items: Seq<T>, x: T)
    ensures
        occurrences(items, x) <= items.len(),
    decreases items.len(),
{
    if items.len() > 0 {
        lemma_occurrences_bounded(items.drop_last(), x);
    }
}

/// Pushing an item raises its own number of occurrences by one and leaves
/// the others alone.
pub proof fn lemma_occurrences_push<T>(items: Seq<T>, added: T, x: T)
    ensures
        occurrences(items.push(added), x) == occurrences(items, x) + if added == x {
            1nat
        } else {
            0nat
        },
{
    assert(items.push(added).drop_last() =~= items);
}

/// The sum of the counts of the lines.
pub open spec fn total_count<T>(lines: Seq<(T, nat)>) -> nat
    decreases lines.len(),
{
    if lines.len() == 0 {
        0
    } else {
        total_count(lines.drop_last()) + lines.last().1
    }
}

/// The sum, over the values of the lines, of their occurrences in `items`.
pub open spec fn listed_total<T>(items: Seq<T>, lines: Seq<(T, nat)>) -> nat
    decreases lines.len(),
{
    if lines.len() == 0 {
        0
    } else {
        listed_total(items, lines.drop_last()) + occurrences(items, lines.last().0)
    }
}

/// True when some line is about `x`.
pub open spec fn lists<T>(lines: Seq<(T, nat)>, x: T) -> bool {
    exists|i: int| 0 <= i < lines.len() && (#[trigger] lines[i]).0 == x
}

/// True when no two lines are about the same value.
pub open spec fn distinct_lines<T>(lines: Seq<(T, nat)>) -> bool {
    forall|i: int, j: int|
        0 <= i < j < lines.len() ==> (#[trigger] lines[i]).0 != (#[trigger] lines[j]).0
}

proof fn lemma_listed_total_push<T>(rest: Seq<T>, added: T, lines: Seq<(T, nat)>)
    requires
        distinct_lines(lines),
    ensures
        listed_total(rest.push(added), lines) == listed_total(rest, lines) + if lists(
            lines,
            added,
        ) {
            1nat
        } else {
            0nat
        },
    decreases lines.len(),
{
    if lines.len() > 0 {
        let head = lines.drop_last();
        let last = lines.last();
        assert(distinct_lines(head)) by {
            assert forall|i: int, j: int| 0 <= i < j < head.len() implies (#[trigger] head[i]).0
                != (#[trigger] head[j]).0 by {
                assert(head[i] == lines[i] && head[j] == lines[j]);
            }
        }
        lemma_listed_total_push(rest, added, head);
        lemma_occurrences_push(rest, added, last.0);
        if lists(head, added) {
            let i = choose|i: int| 0 <= i < head.len() && (#[trigger] head[i]).0 == added;
            assert(lines[i] == head[i]);
            assert(lines[i].0 != lines[lines.len() - 1].0);
            assert(lists(lines, added));
        } else if last.0 == added {
            assert(lines[lines.len() - 1].0 == added);
            assert(lists(lines, added));
        } else {
            if lists(lines, added) {
                let i = choose|i: int| 0 <= i < lines.len() && (#[trigger] lines[i]).0 == added;
                assert(i < head.len());
                assert(head[i].0 == added);
            }
        }
    }
}

proof fn lemma_listed_total_is_length<T>(items: Seq<T>, lines: Seq<(T, nat)>)
    requires
        distinct_lines(lines),
        forall|x: T| occurrences(items, x) > 0 ==> lists(lines, x),
    ensures
        listed_total(items, lines) == items.len(),
    decreases items.len(),
{
    if items.len() == 0 {
        lemma_listed_total_of_nothing(items, lines);
    } else {
        let rest = items.drop_last();
        let added = items.last();
        assert(rest.push(added) =~= items);
        assert forall|x: T| occurrences(rest, x) > 0 implies lists(lines, x) by {
            lemma_occurrences_push(rest, added, x);
        }
        lemma_listed_total_is_length(rest, lines);
        lemma_listed_total_push(rest, added, lines);
        lemma_occurrences_push(rest, added, added);
    }
}

proof fn lemma_listed_total_of_nothing<T>(items: Seq<T>, lines: Seq<(T, nat)>)
    requires
        items.len() == 0,
    ensures
        listed_total(items, lines) == 0,
    decreases lines.len(),
{
    if lines.len() > 0 {
        lemma_listed_total_of_nothing(items, lines.drop_last());
    }
}

/// Where the lines list each value of `items` once, with the number of its
/// occurrences, their counts add up to the number of items.
pub proof fn lemma_counts_sum<T>(items: Seq<T>, lines: Seq<(T, nat)>)
    requires
        distinct_lines(lines),
        forall|i: int| 0 <= i < lines.len() ==> (#[trigger] lines[i]).1 == occurrences(
            items,
            lines[i].0,
        ),
        forall|x: T| occurrences(items, x) > 0 ==> lists(lines, x),
    ensures
        total_count(lines) == items.len(),
{
    lemma_listed_total_is_length(items, lines);
    lemma_total_is_listed(items, lines);
}

proof fn lemma_total_is_listed<T>(items: Seq<T>, lines: Seq<(T, nat)>)
    requires
        forall|i: int| 0 <= i < lines.len() ==> (#[trigger] lines[i]).1 == occurrences(
            items,
            lines[i].0,
        ),
    ensures
        total_count(lines) == listed_total(items, lines),
    decreases lines.len(),
{
    if lines.len() > 0 {
        let head = lines.drop_last();
        assert forall|i: int| 0 <= i < head.len() implies (#[trigger] head[i]).1 == occurrences(
            items,
            head[i].0,
        ) by {
            assert(head[i] == lines[i]);
        }
        lemma_total_is_listed(items, head);
        assert(lines[lines.len() - 1].1 == occurrences(items, lines[lines.len() - 1].0));
    }
}

/// The sort key of a ranking line: counts are turned round so that the
/// ascending order of keys is the ranking order.
pub open spec fn sort_key(line: Ranked) -> (u64, u128) {
    ((u64::MAX - line.count) as u64, line.id)
}

/// The ascending order of sort keys: by the first part, then by the second.
pub open spec fn key_leq(a: (u64, u128), b: (u64, u128)) -> bool {
    a.0 < b.0 || (a.0 == b.0 && a.1 <= b.1)
}

/// Sorts with `<[(u64, u128)]>::sort_unstable`, which orders tuples by their
/// first part and then by their second: afterwards the vector holds the same
/// keys as before, each as often as before, in ascending order.
#[verifier::external_body]
pub(crate) fn sort_keys(keys: &mut Vec<(u64, u128)>)
    ensures
        forall|i: int, j: int|
            0 <= i <= j < final(keys)@.len() ==> key_leq(
                #[trigger] final(keys)@[i],
                #[trigger] final(keys)@[j],
            ),
        final(keys)@.to_multiset() == old(keys)@.to_multiset(),
{
    keys.sort_unstable();
}

/// Counts how often each id is added.
pub struct Tally {
    slots: HashMap<u128, usize>,
    ids: Vec<u128>,
    counts: Vec<u64>,
    seen: Ghost<Seq<u128>>,
}

impl View for Tally {
    type V = Seq<u128>;

    /// The ids added so far, in the order of their adding.
    closed spec fn view(&self) -> Seq<u128> {
        self.seen@
    }
}

impl Tally {
    /// Each id that was added has one slot, which holds its count.
    pub closed spec fn wf(&self) -> bool {
        &&& self.ids@.len() == self.counts@.len()
        &&& forall|j: int|
            0 <= j < self.ids@.len() ==> {
                &&& self.slots@.contains_key(#[trigger] self.ids@[j])
                &&& self.slots@[self.ids@[j]] == j
                &&& 0 < self.counts@[j] == occurrences(self.seen@, self.ids@[j])
            }
        &&& forall|id: u128| #[trigger]
            self.slots@.contains_key(id) ==> self.slots@[id] < self.ids@.len()
                && self.ids@[self.slots@[id] as int] == id
        &&& forall|id: u128|
            occurrences(self.seen@, id) > 0 ==> #[trigger] self.slots@.contains_key(id)
    }

    /// A tally with nothing counted.
    pub fn new() -> (tally: Self)
        ensures
            tally.wf(),
            tally@ == Seq::<u128>::empty(),
    {
        Tally { slots: HashMap::new(), ids: Vec::new(), counts: Vec::new(), seen: Ghost(Seq::empty()) }
    }

    /// Counts one more occurrence of `id`.
    pub fn add(&mut self, id: u128)
        requires
            old(self).wf(),
            old(self)@.len() < u64::MAX,
        ensures
            final(self).wf(),
            final(self)@ == old(self)@.push(id),
    {
        let ghost before = self.seen@;
        proof {
            lemma_occurrences_bounded(before, id);
            assert forall|x: u128| #[trigger]
                occurrences(before.push(id), x) == occurrences(before, x) + if id == x {
                    1nat
                } else {
                    0nat
                } by {
                lemma_occurrences_push(before, id, x);
            }
        }
        let slot = match self.slots.get(&id) {
            Some(slot) => Some(*slot),
            None => None,
        };
        match slot {
            Some(j) => {
                let count = self.counts[j];
                self.counts.set(j, count + 1);
            },
            None => {
                self.slots.insert(id, self.ids.len());
                self.ids.push(id);
                self.counts.push(1);
            },
        }
        self.seen = Ghost(before.push(id));
    }

    /// The ranking of the ids that were added.
    pub fn into_ranking(self) -> (ranking: Vec<Ranked>)
        requires
            self.wf(),
        ensures
            is_ranking(self@, ranking@),
    {
        let mut keys: Vec<(u64, u128)> = Vec::new();
        let mut j: usize = 0;
        while j < self.ids.len()
            invariant
                self.wf(),
                j <= self.ids@.len(),
                keys@.len() == j,
                forall|k: int|
                    0 <= k < j ==> #[trigger] keys@[k] == (
                        (u64::MAX - self.counts@[k]) as u64,
                        self.ids@[k],
                    ),
            decreases self.ids@.len() - j,
        {
            keys.push((u64::MAX - self.counts[j], self.ids[j]));
            j += 1;
        }
        let ghost unsorted = keys@;
        sort_keys(&mut keys);
        proof {
            assert(unsorted.no_duplicates()) by {
                assert forall|a: int, b: int|
                    0 <= a < unsorted.len() && 0 <= b < unsorted.len() && a != b implies unsorted[a]
                    != unsorted[b] by {
                    assert(self.slots@[self.ids@[a]] == a);
                    assert(self.slots@[self.ids@[b]] == b);
                }
            }
            unsorted.lemma_multiset_has_no_duplicates();
            keys@.lemma_multiset_has_no_duplicates_conv();
            unsorted.to_multiset_ensures();
            keys@.to_multiset_ensures();
        }
        let mut ranking: Vec<Ranked> = Vec::new();
        let mut i: usize = 0;
        while i < keys.len()
            invariant
                i <= keys@.len(),
                ranking@.len() == i,
                forall|k: int|
                    0 <= k < i ==> (#[trigger] ranking@[k]).id == keys@[k].1 && ranking@[k].count
                        == u64::MAX - keys@[k].0,
            decreases keys@.len() - i,
        {
            ranking.push(Ranked { id: keys[i].1, count: u64::MAX - keys[i].0 });
            i += 1;
        }
        proof {
            assert forall|i: int| 0 <= i < ranking@.len() implies 0 < (
            #[trigger] ranking@[i]).count == occurrences(self@, ranking@[i].id) by {
                assert(keys@.contains(keys@[i]));
                assert(keys@.to_multiset().count(keys@[i]) > 0);
                assert(unsorted.to_multiset().count(keys@[i]) > 0);
                assert(unsorted.contains(keys@[i]));
                let k = choose|k: int| 0 <= k < unsorted.len() && unsorted[k] == keys@[i];
                assert(unsorted[k] == keys@[i]);
            }
            assert forall|i: int, j: int| 0 <= i < j < ranking@.len() implies ranks_before(
                (#[trigger] ranking@[i]).count as int,
                ranking@[i].id as int,
                (#[trigger] ranking@[j]).count as int,
                ranking@[j].id as int,
            ) by {
                assert(key_leq(keys@[i], keys@[j]));
                assert(keys@[i] != keys@[j]);
            }
            assert forall|id: u128| occurrences(self@, id) > 0 implies exists|i: int|
                0 <= i < ranking@.len() && (#[trigger] ranking@[i]).id == id by {
                assert(self.slots@.contains_key(id));
                let k = self.slots@[id] as int;
                assert(unsorted[k].1 == id);
                assert(unsorted.contains(unsorted[k]));
                assert(unsorted.to_multiset().count(unsorted[k]) > 0);
                assert(keys@.to_multiset().count(unsorted[k]) > 0);
                assert(keys@.contains(unsorted[k]));
                let i = choose|i: int| 0 <= i < keys@.len() && keys@[i] == unsorted[k];
                assert(ranking@[i].id == id);
            }
        }
        ranking
    }
}

} // verus!
