//! The table of requests that await their response, keyed by request id.
use std::collections::HashMap;

use vstd::prelude::*;

verus! {

broadcast use vstd::std_specs::hash::group_hash_axioms;

/// Outstanding requests: each id is mapped to the slot through which its
/// caller is completed. An id is completed, failed or dropped at most once.
pub struct PendingTable<S> {
    slots: HashMap<u64, S>,
    /// The ids of `slots`, each once, so that all can be handed back.
    ids: Vec<u64>,
}

impl<S> View for PendingTable<S> {
    type V = Map<u64, S>;

    closed spec fn view(&self) -> Map<u64, S> {
        self.slots@
    }
}

fn position(ids: &Vec<u64>, id: u64) -> (r: Option<usize>)
    ensures
        match r {
            Some(i) => i < ids@.len() && ids@[i as int] == id,
            None => forall|k: int| 0 <= k < ids@.len() ==> ids@[k] != id,
        },
{
    let mut i: usize = 0;
    while i < ids.len()
        invariant
            i <= ids@.len(),
            forall|k: int| 0 <= k < i ==> ids@[k] != id,
        decreases ids@.len() - i,
    {
        if ids[i] == id {
            return Some(i);
        }
        i = i + 1;
    }
    None
}

impl<S> PendingTable<S> {
    /// The id list names each outstanding id once.
    pub closed spec fn wf(&self) -> bool {
        self.ids@.no_duplicates() && self.ids@.to_set() == self.slots@.dom()
    }

    pub fn new() -> (r: Self)
        ensures
            r.wf(),
            r@ == Map::<u64, S>::empty(),
    {
        let r = PendingTable { slots: HashMap::new(), ids: Vec::new() };
        assert(r.ids@.to_set() =~= r.slots@.dom());
        r
    }

    /// Whether `id` awaits a response.
    pub fn contains(&self, id: u64) -> (r: bool)
        requires
            self.wf(),
        ensures
            r == self@.contains_key(id),
    {
        self.slots.contains_key(&id)
    }

    /// The number of outstanding requests.
    pub fn len(&self) -> (r: usize)
        requires
            self.wf(),
        ensures
            r == self@.dom().len(),
    {
        proof {
            self.ids@.unique_seq_to_set();
        }
        self.ids.len()
    }

    /// Registers `slot` for `id`; a slot already registered for `id` is
    /// returned and replaced.
    pub fn insert(&mut self, id: u64, slot: S) -> (r: Option<S>)
        requires
            old(self).wf(),
        ensures
            final(self).wf(),
            final(self)@ == old(self)@.insert(id, slot),
            r == (if old(self)@.contains_key(id) {
                Some(old(self)@[id])
            } else {
                None
            }),
    {
        let prev = self.slots.insert(id, slot);
        if prev.is_none() {
            let ghost before = self.ids@;
            self.ids.push(id);
            assert(!before.contains(id)) by {
                assert(!before.to_set().contains(id));
            }
            assert(self.ids@.to_set() =~= self.slots@.dom()) by {
                assert forall|k: u64| self.ids@.contains(k) <==> before.contains(k) || k == id by {
                    if self.ids@.contains(k) && k != id {
                        let i = choose|i: int| 0 <= i < self.ids@.len() && self.ids@[i] == k;
                        assert(before[i] == k);
                    }
                    if before.contains(k) {
                        let i = choose|i: int| 0 <= i < before.len() && before[i] == k;
                        assert(self.ids@[i] == k);
                    }
                    if k == id {
                        assert(self.ids@[before.len() as int] == k);
                    }
                }
            }
        } else {
            assert(self.slots@.dom() =~= old(self).slots@.dom());
        }
        prev
    }

    /// Removes `id` and hands back its slot, if it was outstanding.
    pub fn take(&mut self, id: u64) -> (r: Option<S>)
        requires
            old(self).wf(),
        ensures
            final(self).wf(),
            final(self)@ == old(self)@.remove(id),
            r == (if old(self)@.contains_key(id) {
                Some(old(self)@[id])
            } else {
                None
            }),
    {
        let r = self.slots.remove(&id);
        if r.is_some() {
            assert(old(self).ids@.to_set().contains(id));
            let i = match position(&self.ids, id) {
                Some(i) => i,
                None => {
                    proof {
                        let k = choose|k: int| 0 <= k < self.ids@.len() && self.ids@[k] == id;
                        assert(self.ids@[k] != id);
                    }
                    return r;
                },
            };
            let ghost before = self.ids@;
            self.ids.remove(i);
            assert(self.ids@.no_duplicates()) by {
                assert forall|a: int, b: int|
                    0 <= a < self.ids@.len() && 0 <= b < self.ids@.len() && a != b implies self.ids@[a]
                    != self.ids@[b] by {
                    let a2 = if a < i { a } else { a + 1 };
                    let b2 = if b < i { b } else { b + 1 };
                    assert(self.ids@[a] == before[a2]);
                    assert(self.ids@[b] == before[b2]);
                }
            }
            assert(self.ids@.to_set() =~= self.slots@.dom()) by {
                assert forall|k: u64| self.ids@.contains(k) <==> before.contains(k) && k != id by {
                    if self.ids@.contains(k) {
                        let j = choose|j: int| 0 <= j < self.ids@.len() && self.ids@[j] == k;
                        let j2 = if j < i { j } else { j + 1 };
                        assert(before[j2] == k);
                        assert(j2 != i);
                    }
                    if before.contains(k) && k != id {
                        let j = choose|j: int| 0 <= j < before.len() && before[j] == k;
                        assert(before[i as int] == id);
                        if j < i {
                            assert(self.ids@[j] == k);
                        } else {
                            assert(j != i);
                            assert(self.ids@[j - 1] == k);
                        }
                    }
                }
            }
        } else {
            assert(self.slots@ =~= old(self).slots@);
            assert(old(self)@.remove(id) =~= old(self)@);
        }
        r
    }

    /// Removes every entry and hands back the slots with their ids.
    pub fn drain(&mut self) -> (r: Vec<(u64, S)>)
        requires
            old(self).wf(),
        ensures
            final(self).wf(),
            final(self)@ == Map::<u64, S>::empty(),
            r@.len() == old(self)@.dom().len(),
            forall|i: int|
                #![auto]
                0 <= i < r@.len() ==> old(self)@.contains_key(r@[i].0) && old(self)@[r@[i].0]
                    == r@[i].1,
            forall|id: u64|
                old(self)@.contains_key(id) ==> exists|i: int|
                    0 <= i < r@.len() && #[trigger] r@[i].0 == id,
    {
        proof {
            self.ids@.unique_seq_to_set();
            vstd::seq_lib::seq_to_set_is_finite(self.ids@);
        }
        let ghost orig = self.slots@;
        let ghost n = self.ids@.len();
        let mut out: Vec<(u64, S)> = Vec::new();
        while self.ids.len() > 0
            invariant
                self.wf(),
                out@.len() + self.slots@.dom().len() == n,
                self.slots@.dom().finite(),
                forall|k: u64| #[trigger] self.slots@.contains_key(k) ==> orig.contains_key(k) && self.slots@[k] == orig[k],
                forall|i: int|
                    #![auto]
                    0 <= i < out@.len() ==> orig.contains_key(out@[i].0) && orig[out@[i].0] == out@[i].1,
                forall|id: u64|
                    orig.contains_key(id) ==> self.slots@.contains_key(id) || exists|i: int|
                        0 <= i < out@.len() && #[trigger] out@[i].0 == id,
            decreases self.slots@.dom().len(),
        {
            proof {
                self.ids@.unique_seq_to_set();
            }
            let id = self.ids[self.ids.len() - 1];
            assert(self.ids@.contains(id));
            assert(self.ids@.to_set().contains(id));
            let slot = self.take(id);
            match slot {
                Some(s) => {
                    let ghost before = out@;
                    out.push((id, s));
                    assert forall|k: u64| orig.contains_key(k) implies self.slots@.contains_key(k) || exists|i: int|
                        0 <= i < out@.len() && #[trigger] out@[i].0 == k by {
                        if k == id {
                            assert(out@[before.len() as int].0 == k);
                        } else if !self.slots@.contains_key(k) {
                            let i = choose|i: int| 0 <= i < before.len() && #[trigger] before[i].0 == k;
                            assert(out@[i].0 == k);
                        }
                    }
                },
                None => {},
            }
            proof {
                vstd::seq_lib::seq_to_set_is_finite(self.ids@);
            }
        }
        proof {
            self.ids@.unique_seq_to_set();
            assert(self.slots@.dom() =~= Set::<u64>::empty());
            assert(self.slots@ =~= Map::<u64, S>::empty());
        }
        out
    }
}

/// A request is completed at most once: once its slot has been taken, a
/// later response with the same id finds nothing and is ignored.
pub proof fn lemma_completed_once<S>(m: Map<u64, S>, id: u64)
    ensures
        !m.remove(id).contains_key(id),
        m.remove(id).remove(id) == m.remove(id),
{
    assert(m.remove(id).remove(id) =~= m.remove(id));
}

} // verus!
