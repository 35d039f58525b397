//! The per-worker batching of inference requests.
//!
//! Coroutines submit `(network, state)` pairs while they are suspended; at
//! each flush the worker takes the pending requests grouped per network,
//! runs each group as one batch, and answers the requesters in submission
//! order. Networks are named here by small integer handles; the worker maps
//! its champion identifiers onto them.

use vstd::prelude::*;
use crate::logic::State;

verus! {

/// The states submitted under one network handle, in submission order.
pub open spec fn spec_bucket(entries: Seq<(u64, State)>, id: u64) -> Seq<State>
    decreases entries.len(),
{
    if entries.len() == 0 {
        Seq::empty()
    } else {
        let prefix = spec_bucket(entries.drop_last(), id);
        if entries.last().0 == id {
            prefix.push(entries.last().1)
        } else {
            prefix
        }
    }
}

proof fn lemma_bucket_take_step(entries: Seq<(u64, State)>, id: u64, i: int)
    requires
        0 <= i < entries.len(),
    ensures
        spec_bucket(entries.take(i + 1), id) == (
            if entries[i].0 == id {
                spec_bucket(entries.take(i), id).push(entries[i].1)
            } else {
                spec_bucket(entries.take(i), id)
            }),
{
    assert(entries.take(i + 1).drop_last() =~= entries.take(i));
    assert(entries.take(i + 1).last() == entries[i]);
}

/// Whether some entry carries the handle `id`.
pub open spec fn spec_has_id(entries: Seq<(u64, State)>, id: u64) -> bool {
    exists|i2: int| 0 <= i2 < entries.len() && (#[trigger] entries[i2]).0 == id
}

/// Whether some batch carries the handle `id`.
pub open spec fn spec_batch_has(batches: Seq<(u64, Vec<State>)>, id: u64) -> bool {
    exists|j: int| 0 <= j < batches.len() && (#[trigger] batches[j]).0 == id
}

/// The queue of pending inference requests of one worker.
pub struct PredictQueue {
    pub entries: Vec<(u64, State)>,
}

impl PredictQueue {
    pub open spec fn spec_entries(self) -> Seq<(u64, State)> {
        self.entries@
    }

    /// An empty queue.
    pub fn new() -> (r: PredictQueue)
        ensures
            r.spec_entries() =~= Seq::<(u64, State)>::empty(),
    {
        PredictQueue { entries: Vec::new() }
    }

    /// Queue one state for evaluation by the network `network_id`.
    pub fn submit(&mut self, network_id: u64, state: State)
        ensures
            final(self).spec_entries() == old(self).spec_entries().push((network_id, state)),
    {
        self.entries.push((network_id, state));
    }

    /// Take everything pending as one batch per network: each handle that
    /// was submitted to appears exactly once, with exactly its submitted
    /// states in submission order. The queue is empty afterwards.
    pub fn take_batches(&mut self) -> (r: Vec<(u64, Vec<State>)>)
        ensures
            final(self).spec_entries() =~= Seq::<(u64, State)>::empty(),
            forall|j1: int, j2: int| 0 <= j1 < j2 < r@.len() ==> (#[trigger] r@[j1]).0 != (#[trigger] r@[j2]).0,
            forall|j: int| 0 <= j < r@.len() ==> (#[trigger] r@[j]).1@ == spec_bucket(old(self).spec_entries(), r@[j].0),
            forall|i: int| 0 <= i < old(self).spec_entries().len() ==> spec_batch_has(r@, (#[trigger] old(self).spec_entries()[i]).0),
            forall|j: int| 0 <= j < r@.len() ==> (#[trigger] r@[j]).1@.len() >= 1,
    {
        let ghost all = self.entries@;
        let ids = collect_ids(&self.entries);
        let mut r: Vec<(u64, Vec<State>)> = Vec::new();
        let mut g: usize = 0;
        while g < ids.len()
            invariant
                g <= ids@.len(),
                self.entries@ == all,
                forall|j1: int, j2: int| 0 <= j1 < j2 < ids@.len() ==> ids@[j1] != ids@[j2],
                forall|j: int| 0 <= j < ids@.len() ==> spec_has_id(all, #[trigger] ids@[j]),
                forall|i2: int| 0 <= i2 < all.len() ==> ids@.contains((#[trigger] all[i2]).0),
                r@.len() == g,
                forall|j: int| 0 <= j < g ==> (#[trigger] r@[j]).0 == ids@[j],
                forall|j: int| 0 <= j < g ==> (#[trigger] r@[j]).1@ == spec_bucket(all, ids@[j]),
            decreases ids@.len() - g,
        {
            let id = ids[g];
            let mut states: Vec<State> = Vec::new();
            let mut k: usize = 0;
            while k < self.entries.len()
                invariant
                    k <= self.entries@.len(),
                    self.entries@ == all,
                    states@ == spec_bucket(all.take(k as int), id),
                decreases self.entries@.len() - k,
            {
                proof {
                    lemma_bucket_take_step(all, id, k as int);
                }
                if self.entries[k].0 == id {
                    states.push(self.entries[k].1);
                }
                k += 1;
            }
            proof {
                assert(all.take(all.len() as int) =~= all);
            }
            r.push((id, states));
            g += 1;
        }
        self.entries = Vec::new();
        proof {
            assert forall|j: int| 0 <= j < r@.len() implies (#[trigger] r@[j]).1@.len() >= 1 by {
                assert(spec_has_id(all, ids@[j]));
                let i2 = choose|i2: int| 0 <= i2 < all.len() && (#[trigger] all[i2]).0 == ids@[j];
                lemma_bucket_member(all, ids@[j], i2);
            }
            assert forall|i2: int| 0 <= i2 < old(self).spec_entries().len() implies spec_batch_has(r@, (#[trigger] old(self).spec_entries()[i2]).0) by {
                assert(old(self).spec_entries()[i2] == all[i2]);
                assert(ids@.contains(all[i2].0));
                let j = choose|j: int| 0 <= j < ids@.len() && ids@[j] == all[i2].0;
                assert(0 <= j < r@.len());
                assert(r@[j].0 == old(self).spec_entries()[i2].0);
            }
        }
        r
    }
}

proof fn lemma_bucket_member(entries: Seq<(u64, State)>, id: u64, i: int)
    requires
        0 <= i < entries.len(),
        entries[i].0 == id,
    ensures
        spec_bucket(entries, id).len() >= 1,
    decreases entries.len(),
{
    if i == entries.len() - 1 {
    } else {
        assert(entries.drop_last()[i] == entries[i]);
        lemma_bucket_member(entries.drop_last(), id, i);
    }
}

/// Whether `id` is already among `ids`.
fn contains_id(ids: &Vec<u64>, id: u64) -> (r: bool)
    ensures
        r == ids@.contains(id),
{
    let mut j: usize = 0;
    while j < ids.len()
        invariant
            j <= ids@.len(),
            forall|j2: int| 0 <= j2 < j ==> ids@[j2] != id,
        decreases ids@.len() - j,
    {
        if ids[j] == id {
            proof {
                assert(ids@[j as int] == id);
            }
            return true;
        }
        j += 1;
    }
    proof {
        assert(!ids@.contains(id)) by {
            if ids@.contains(id) {
                let j2 = choose|j2: int| 0 <= j2 < ids@.len() && ids@[j2] == id;
                assert(false);
            }
        }
    }
    false
}

/// The distinct network handles among the entries, in first-appearance
/// order.
fn collect_ids(entries: &Vec<(u64, State)>) -> (ids: Vec<u64>)
    ensures
        forall|j1: int, j2: int| 0 <= j1 < j2 < ids@.len() ==> ids@[j1] != ids@[j2],
        forall|j: int| 0 <= j < ids@.len() ==> spec_has_id(entries@, #[trigger] ids@[j]),
        forall|i2: int| 0 <= i2 < entries@.len() ==> ids@.contains((#[trigger] entries@[i2]).0),
{
    let mut ids: Vec<u64> = Vec::new();
    let mut i: usize = 0;
    while i < entries.len()
        invariant
            i <= entries@.len(),
            forall|j1: int, j2: int| 0 <= j1 < j2 < ids@.len() ==> ids@[j1] != ids@[j2],
            forall|j: int| 0 <= j < ids@.len() ==> spec_has_id(entries@, #[trigger] ids@[j]),
            forall|i2: int| 0 <= i2 < i ==> ids@.contains((#[trigger] entries@[i2]).0),
        decreases entries@.len() - i,
    {
        let id = entries[i].0;
        let seen = contains_id(&ids, id);
        if !seen {
            let ghost old_ids = ids@;
            ids.push(id);
            proof {
                assert(ids@[ids@.len() - 1] == id);
                assert(spec_has_id(entries@, id)) by {
                    assert(entries@[i as int].0 == id);
                }
                assert forall|j: int| 0 <= j < ids@.len() implies spec_has_id(entries@, #[trigger] ids@[j]) by {
                    if j < ids@.len() - 1 {
                        assert(ids@[j] == old_ids[j]);
                    }
                }
                assert forall|i2: int| 0 <= i2 < i + 1 implies ids@.contains((#[trigger] entries@[i2]).0) by {
                    if i2 == i {
                        assert(ids@[ids@.len() - 1] == entries@[i2].0);
                    } else {
                        let j = choose|j: int| 0 <= j < old_ids.len() && old_ids[j] == (#[trigger] entries@[i2]).0;
                        assert(ids@[j] == entries@[i2].0);
                    }
                }
            }
        } else {
            proof {
                assert forall|i2: int| 0 <= i2 < i + 1 implies ids@.contains((#[trigger] entries@[i2]).0) by {
                    if i2 == i {
                        assert(ids@.contains(id));
                    }
                }
            }
        }
        i += 1;
    }
    ids
}

} // verus!
