//! The connection registry: the peers that a relayed frame goes to.

use vstd::prelude::*;

verus! {

/// One frame bound for one registered peer.
#[derive(Debug)]
pub struct Delivery {
    pub peer: u64,
    pub frame: String,
}

/// The registered connections, by connection id, in order of registration.
pub struct Registry {
    ids: Vec<u64>,
    next_id: u64,
}

impl Registry {
    /// The ids of the registered connections, oldest first.
    pub closed spec fn peers(&self) -> Seq<u64> {
        self.ids@
    }

    /// The id that the next registration receives.
    pub closed spec fn next(&self) -> u64 {
        self.next_id
    }

    /// Ids are distinct, and every id handed out is below `next`.
    pub closed spec fn wf(&self) -> bool {
        &&& self.ids@.no_duplicates()
        &&& forall|i: int| 0 <= i < self.ids@.len() ==> #[trigger] self.ids@[i] < self.next_id
    }

    pub fn new() -> (r: Registry)
        ensures
            r.wf(),
            r.peers() == Seq::<u64>::empty(),
            r.next() == 0,
    {
        Registry { ids: Vec::new(), next_id: 0 }
    }

    /// Whether another connection can still be given a fresh id.
    pub fn has_room(&self) -> (r: bool)
        ensures
            r == (self.next() < u64::MAX),
    {
        self.next_id < u64::MAX
    }

    pub fn len(&self) -> (r: usize)
        ensures
            r == self.peers().len(),
    {
        self.ids.len()
    }

    pub fn contains(&self, id: u64) -> (r: bool)
        ensures
            r == self.peers().contains(id),
    {
        let mut i: usize = 0;
        while i < self.ids.len()
            invariant
                i <= self.ids@.len(),
                forall|j: int| 0 <= j < i ==> self.ids@[j] != id,
            decreases self.ids@.len() - i,
        {
            if self.ids[i] == id {
                return true;
            }
            i += 1;
        }
        false
    }

    /// Registers a new connection and returns its id. Every connection
    /// registered before stays, in its place; the new one comes last.
    pub fn register(&mut self) -> (id: u64)
        requires
            old(self).wf(),
            old(self).next() < u64::MAX,
        ensures
            final(self).wf(),
            final(self).peers() == old(self).peers().push(id),
            !old(self).peers().contains(id),
            id == old(self).next(),
            final(self).next() == old(self).next() + 1,
    {
        let id = self.next_id;
        proof {
            assert(!self.ids@.contains(id)) by {
                if self.ids@.contains(id) {
                    let k = choose|k: int| 0 <= k < self.ids@.len() && self.ids@[k] == id;
                    assert(self.ids@[k] < self.next_id);
                }
            }
        }
        self.ids.push(id);
        self.next_id = id + 1;
        proof {
            assert forall|i: int| 0 <= i < self.ids@.len() implies #[trigger] self.ids@[i] < self.next_id by {
                if i < self.ids@.len() - 1 {
                    assert(self.ids@[i] == old(self).ids@[i]);
                }
            }
        }
        id
    }

    /// Removes the connection `id`, if registered; the others keep their
    /// order. Returns whether it was registered.
    pub fn unregister(&mut self, id: u64) -> (r: bool)
        requires
            old(self).wf(),
        ensures
            final(self).wf(),
            final(self).next() == old(self).next(),
            r == old(self).peers().contains(id),
            !final(self).peers().contains(id),
            r ==> exists|k: int|
                0 <= k < old(self).peers().len() && old(self).peers()[k] == id
                    && final(self).peers() == old(self).peers().remove(k),
            !r ==> final(self).peers() == old(self).peers(),
    {
        let mut i: usize = 0;
        while i < self.ids.len()
            invariant
                i <= self.ids@.len(),
                self.ids@ == old(self).ids@,
                self.next_id == old(self).next_id,
                old(self).wf(),
                forall|j: int| 0 <= j < i ==> self.ids@[j] != id,
            decreases self.ids@.len() - i,
        {
            if self.ids[i] == id {
                let ghost before = self.ids@;
                self.ids.remove(i);
                proof {
                    assert(self.ids@ == before.remove(i as int));
                    assert forall|a: int, b: int|
                        0 <= a < self.ids@.len() && 0 <= b < self.ids@.len() && a != b
                        implies self.ids@[a] != self.ids@[b] by {
                        let a0 = if a < i { a } else { a + 1 };
                        let b0 = if b < i { b } else { b + 1 };
                        assert(self.ids@[a] == before[a0]);
                        assert(self.ids@[b] == before[b0]);
                    }
                    assert forall|j: int| 0 <= j < self.ids@.len() implies #[trigger] self.ids@[j] < self.next_id by {
                        let j0 = if j < i { j } else { j + 1 };
                        assert(self.ids@[j] == before[j0]);
                    }
                    assert(!self.ids@.contains(id)) by {
                        if self.ids@.contains(id) {
                            let k = choose|k: int| 0 <= k < self.ids@.len() && self.ids@[k] == id;
                            let k0 = if k < i { k } else { k + 1 };
                            assert(self.ids@[k] == before[k0]);
                        }
                    }
                }
                return true;
            }
            i += 1;
        }
        proof {
            assert(!self.ids@.contains(id));
        }
        false
    }

    /// One copy of `frame` for every registered connection, the sender's own
    /// included, in order of registration.
    pub fn broadcast(&self, frame: &String) -> (r: Vec<Delivery>)
        ensures
            r@.len() == self.peers().len(),
            forall|i: int| 0 <= i < r@.len() ==> (#[trigger] r@[i]).peer == self.peers()[i] && r@[i].frame@ == frame@,
    {
        let mut out: Vec<Delivery> = Vec::new();
        let mut i: usize = 0;
        while i < self.ids.len()
            invariant
                i <= self.ids@.len(),
                out@.len() == i,
                forall|j: int| 0 <= j < i ==> (#[trigger] out@[j]).peer == self.ids@[j] && out@[j].frame@ == frame@,
            decreases self.ids@.len() - i,
        {
            out.push(Delivery { peer: self.ids[i], frame: frame.clone() });
            i += 1;
        }
        out
    }
}

/// A run of registrations loses no entry: if each state follows the one
/// before by one registration (`register`'s postcondition), the last state
/// holds the first state's connections followed by every id handed out, in
/// order, all distinct.
pub proof fn lemma_registrations_accumulate(states: Seq<Seq<u64>>, ids: Seq<u64>)
    requires
        states.len() == ids.len() + 1,
        states[0].no_duplicates(),
        forall|i: int|
            0 <= i < ids.len() ==> #[trigger] states[i + 1] == states[i].push(ids[i]) && !states[i].contains(ids[i]),
    ensures
        states.last() == states[0] + ids,
        states.last().no_duplicates(),
        forall|i: int| 0 <= i < ids.len() ==> states.last().contains(#[trigger] ids[i]),
    decreases ids.len(),
{
    if ids.len() == 0 {
        assert(states[0] + ids =~= states[0]);
    } else {
        let n = ids.len() - 1;
        let sp = states.drop_last();
        let ip = ids.drop_last();
        assert forall|i: int| 0 <= i < ip.len() implies #[trigger] sp[i + 1] == sp[i].push(ip[i]) && !sp[i].contains(ip[i]) by {
            assert(states[i + 1] == states[i].push(ids[i]));
        }
        lemma_registrations_accumulate(sp, ip);
        assert(states[n + 1] == states[n].push(ids[n]));
        assert(states.last() =~= states[0] + ids);
        let last = states.last();
        assert(last.no_duplicates()) by {
            assert forall|a: int, b: int| 0 <= a < last.len() && 0 <= b < last.len() && a != b implies last[a] != last[b] by {
                if a == last.len() - 1 {
                    assert(states[n][b] == last[b]);
                } else if b == last.len() - 1 {
                    assert(states[n][a] == last[a]);
                } else {
                    assert(states[n][a] == last[a]);
                    assert(states[n][b] == last[b]);
                }
            }
        }
        assert forall|i: int| 0 <= i < ids.len() implies last.contains(#[trigger] ids[i]) by {
            assert(last[states[0].len() + i] == ids[i]);
        }
    }
}

} // verus!
