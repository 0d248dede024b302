use crate::analysis::tally::{key_leq, ranks_before, sort_keys};
use std::collections::HashMap;
use vstd::prelude::*;

verus! {

/// The samples that were collected under one id.
#[derive(Debug)]
pub struct Group {
    pub id: u128,
    pub samples: Vec<i64>,
}

/// Samples collected under ids: each id has a stack of its own.
pub struct SampleGroups {
    slots: HashMap<u128, usize>,
    ids: Vec<u128>,
    samples: Vec<Vec<i64>>,
}

impl SampleGroups {
    /// Each id that was ever pushed to has one slot.
    pub closed spec fn wf(&self) -> bool {
        &&& self.ids@.len() == self.samples@.len()
        &&& forall|j: int|
            0 <= j < self.ids@.len() ==> {
                &&& self.slots@.contains_key(#[trigger] self.ids@[j])
                &&& self.slots@[self.ids@[j]] == j
            }
        &&& forall|id: u128| #[trigger]
            self.slots@.contains_key(id) ==> self.slots@[id] < self.ids@.len()
                && self.ids@[self.slots@[id] as int] == id
    }

    /// The samples held under `id`, the oldest first; empty for an id that
    /// holds none.
    pub closed spec fn samples_of(&self, id: u128) -> Seq<i64> {
        if self.slots@.contains_key(id) {
            self.samples@[self.slots@[id] as int]@
        } else {
            Seq::empty()
        }
    }

    /// Groups without samples.
    pub fn new() -> (groups: Self)
        ensures
            groups.wf(),
            forall|id: u128| #[trigger] groups.samples_of(id) == Seq::<i64>::empty(),
    {
        SampleGroups { slots: HashMap::new(), ids: Vec::new(), samples: Vec::new() }
    }

    /// Puts `value` on top of the samples of `id`.
    pub fn push(&mut self, id: u128, value: i64)
        requires
            old(self).wf(),
        ensures
            final(self).wf(),
            final(self).samples_of(id) == old(self).samples_of(id).push(value),
            forall|other: u128|
                other != id ==> #[trigger] final(self).samples_of(other) == old(self).samples_of(
                    other,
                ),
    {
        let slot = match self.slots.get(&id) {
            Some(slot) => Some(*slot),
            None => None,
        };
        match slot {
            Some(j) => {
                self.samples[j].push(value);
            },
            None => {
                let mut fresh: Vec<i64> = Vec::new();
                fresh.push(value);
                self.slots.insert(id, self.ids.len());
                self.ids.push(id);
                self.samples.push(fresh);
                assert(self.samples_of(id) =~= old(self).samples_of(id).push(value));
            },
        }
    }

    /// Takes the newest sample of `id` off, if it holds any.
    pub fn pop(&mut self, id: u128) -> (top: Option<i64>)
        requires
            old(self).wf(),
        ensures
            final(self).wf(),
            match top {
                Some(value) => old(self).samples_of(id).len() > 0 && value == old(self).samples_of(
                    id,
                ).last() && final(self).samples_of(id) == old(self).samples_of(id).drop_last(),
                None => old(self).samples_of(id).len() == 0 && final(self).samples_of(id) == old(
                    self,
                ).samples_of(id),
            },
            forall|other: u128|
                other != id ==> #[trigger] final(self).samples_of(other) == old(self).samples_of(
                    other,
                ),
    {
        let slot = match self.slots.get(&id) {
            Some(slot) => Some(*slot),
            None => None,
        };
        match slot {
            Some(j) => self.samples[j].pop(),
            None => None,
        }
    }

    /// The groups that hold at least `min_samples` samples, the one with the
    /// most samples first and the lower id first among equals.
    pub fn into_ranked(self, min_samples: usize) -> (ranked: Vec<Group>)
        requires
            self.wf(),
            min_samples >= 1,
        ensures
            forall|i: int|
                0 <= i < ranked@.len() ==> {
                    &&& (#[trigger] ranked@[i]).samples@ == self.samples_of(ranked@[i].id)
                    &&& ranked@[i].samples@.len() >= min_samples
                },
            forall|i: int, j: int|
                0 <= i < j < ranked@.len() ==> ranks_before(
                    (#[trigger] ranked@[i]).samples@.len() as int,
                    ranked@[i].id as int,
                    (#[trigger] ranked@[j]).samples@.len() as int,
                    ranked@[j].id as int,
                ),
            forall|id: u128|
                self.samples_of(id).len() >= min_samples ==> exists|i: int|
                    0 <= i < ranked@.len() && (#[trigger] ranked@[i]).id == id,
    {
        let mut keys: Vec<(u64, u128)> = Vec::new();
        let ghost mut origin: Seq<int> = Seq::empty();
        let mut j: usize = 0;
        while j < self.ids.len()
            invariant
                self.wf(),
                j <= self.ids@.len(),
                keys@.len() == origin.len(),
                forall|k: int|
                    0 <= k < origin.len() ==> {
                        &&& 0 <= #[trigger] origin[k] < j
                        &&& keys@[k].1 == self.ids@[origin[k]]
                        &&& keys@[k].0 == u64::MAX - self.samples@[origin[k]]@.len()
                        &&& self.samples@[origin[k]]@.len() >= min_samples
                    },
                forall|a: int, b: int|
                    0 <= a < b < origin.len() ==> #[trigger] origin[a] < #[trigger] origin[b],
                forall|slot: int|
                    0 <= slot < j && (#[trigger] self.samples@[slot])@.len() >= min_samples
                        ==> exists|k: int| 0 <= k < origin.len() && #[trigger] origin[k] == slot,
            decreases self.ids@.len() - j,
        {
            let n = self.samples[j].len();
            if n >= min_samples {
                let ghost before = origin;
                keys.push((u64::MAX - n as u64, self.ids[j]));
                proof {
                    origin = origin.push(j as int);
                    assert forall|slot: int|
                        0 <= slot < j + 1 && (#[trigger] self.samples@[slot])@.len()
                            >= min_samples implies exists|k: int|
                        0 <= k < origin.len() && #[trigger] origin[k] == slot by {
                        if slot < j {
                            let k = choose|k: int|
                                0 <= k < before.len() && #[trigger] before[k] == slot;
                            assert(origin[k] == slot);
                        } else {
                            assert(origin[origin.len() - 1] == slot);
                        }
                    }
                }
            }
            j += 1;
        }
        let ghost unsorted = keys@;
        sort_keys(&mut keys);
        proof {
            assert(unsorted.no_duplicates()) by {
                assert forall|a: int, b: int|
                    0 <= a < unsorted.len() && 0 <= b < unsorted.len() && a != b implies unsorted[a]
                    != unsorted[b] by {
                    assert(origin[a] != origin[b]);
                    assert(self.slots@[self.ids@[origin[a]]] == origin[a]);
                    assert(self.slots@[self.ids@[origin[b]]] == origin[b]);
                }
            }
            unsorted.lemma_multiset_has_no_duplicates();
            keys@.lemma_multiset_has_no_duplicates_conv();
            unsorted.to_multiset_ensures();
            keys@.to_multiset_ensures();
            assert forall|i: int| 0 <= i < keys@.len() implies {
                &&& self.slots@.contains_key((#[trigger] keys@[i]).1)
                &&& keys@[i].0 == u64::MAX - self.samples_of(keys@[i].1).len()
                &&& self.samples_of(keys@[i].1).len() >= min_samples
            } by {
                assert(keys@.contains(keys@[i]));
                assert(keys@.to_multiset().count(keys@[i]) > 0);
                assert(unsorted.to_multiset().count(keys@[i]) > 0);
                assert(unsorted.contains(keys@[i]));
                let k = choose|k: int| 0 <= k < unsorted.len() && unsorted[k] == keys@[i];
                assert(self.slots@[self.ids@[origin[k]]] == origin[k]);
            }
        }
        let mut ranked: Vec<Group> = Vec::new();
        let mut i: usize = 0;
        while i < keys.len()
            invariant
                self.wf(),
                i <= keys@.len(),
                ranked@.len() == i,
                forall|k: int|
                    0 <= k < keys@.len() ==> {
                        &&& self.slots@.contains_key((#[trigger] keys@[k]).1)
                        &&& keys@[k].0 == u64::MAX - self.samples_of(keys@[k].1).len()
                        &&& self.samples_of(keys@[k].1).len() >= min_samples
                    },
                forall|k: int|
                    0 <= k < i ==> {
                        &&& (#[trigger] ranked@[k]).id == keys@[k].1
                        &&& ranked@[k].samples@ == self.samples_of(keys@[k].1)
                    },
            decreases keys@.len() - i,
        {
            let id = keys[i].1;
            let slot = match self.slots.get(&id) {
                Some(slot) => *slot,
                None => 0,
            };
            let samples = self.samples[slot].clone();
            ranked.push(Group { id, samples });
            i += 1;
        }
        proof {
            assert forall|i: int, j: int| 0 <= i < j < ranked@.len() implies ranks_before(
                (#[trigger] ranked@[i]).samples@.len() as int,
                ranked@[i].id as int,
                (#[trigger] ranked@[j]).samples@.len() as int,
                ranked@[j].id as int,
            ) by {
                assert(key_leq(keys@[i], keys@[j]));
                assert(keys@[i] != keys@[j]);
            }
            assert forall|id: u128| self.samples_of(id).len() >= min_samples implies exists|i: int|
                0 <= i < ranked@.len() && (#[trigger] ranked@[i]).id == id by {
                let slot = self.slots@[id] as int;
                assert(self.samples@[slot]@.len() >= min_samples);
                let k = choose|k: int| 0 <= k < origin.len() && #[trigger] origin[k] == slot;
                assert(unsorted[k].1 == id);
                assert(unsorted.contains(unsorted[k]));
                assert(unsorted.to_multiset().count(unsorted[k]) > 0);
                assert(keys@.to_multiset().count(unsorted[k]) > 0);
                assert(keys@.contains(unsorted[k]));
                let i = choose|i: int| 0 <= i < keys@.len() && keys@[i] == unsorted[k];
                assert(ranked@[i].id == id);
            }
        }
        ranked
    }
}

} // verus!
