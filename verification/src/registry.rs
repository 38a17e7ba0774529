//! The subscription registry: which sink receives the messages of which subscription id.

use vstd::prelude::*;
use crate::text::bytes_eq;

verus! {

/// Whether `k` is one of the ids in `sids`.
pub open spec fn holds(sids: Seq<Vec<u8>>, k: Seq<u8>) -> bool {
    exists|i: int| 0 <= i < sids.len() && (#[trigger] sids[i])@ == k
}

/// A map from subscription id to the handle of a delivery sink, with at most one entry
/// for an id.
pub struct Registry {
    sids: Vec<Vec<u8>>,
    sinks: Vec<u64>,
    model: Ghost<Map<Seq<u8>, u64>>,
}

impl View for Registry {
    type V = Map<Seq<u8>, u64>;

    closed spec fn view(&self) -> Map<Seq<u8>, u64> {
        self.model@
    }
}

impl Registry {
    /// The entries are well formed: no id stands twice, and the model holds what the
    /// entries hold.
    pub closed spec fn wf(&self) -> bool {
        &&& self.sids@.len() == self.sinks@.len()
        &&& forall|i: int, j: int|
            0 <= i < j < self.sids@.len() ==> (#[trigger] self.sids@[i])@ != (
            #[trigger] self.sids@[j])@
        &&& forall|i: int|
            0 <= i < self.sids@.len() ==> self.model@.dom().contains((#[trigger] self.sids@[i])@)
                && self.model@[self.sids@[i]@] == self.sinks@[i]
        &&& forall|k: Seq<u8>| #[trigger] self.model@.dom().contains(k) ==> holds(self.sids@, k)
    }

    /// An empty registry.
    pub fn new() -> (r: Self)
        ensures
            r.wf(),
            r@ == Map::<Seq<u8>, u64>::empty(),
    {
        Registry { sids: Vec::new(), sinks: Vec::new(), model: Ghost(Map::empty()) }
    }

    fn find(&self, sid: &[u8]) -> (r: Option<usize>)
        requires
            self.wf(),
        ensures
            match r {
                Some(i) => i < self.sids@.len() && self.sids@[i as int]@ == sid@,
                None => !holds(self.sids@, sid@),
            },
    {
        let mut i: usize = 0;
        while i < self.sids.len()
            invariant
                i <= self.sids@.len(),
                forall|j: int| 0 <= j < i ==> (#[trigger] self.sids@[j])@ != sid@,
            decreases self.sids@.len() - i,
        {
            if bytes_eq(self.sids[i].as_slice(), sid) {
                return Some(i);
            }
            i += 1;
        }
        None
    }


    /// Puts `sink` under `sid`; an entry that stood under `sid` is replaced.
    pub fn register(&mut self, sid: Vec<u8>, sink: u64)
        requires
            old(self).wf(),
        ensures
            final(self).wf(),
            final(self)@ == old(self)@.insert(sid@, sink),
    {
        match self.find(sid.as_slice()) {
            Some(i) => {
                self.sinks[i] = sink;
                proof {
                    self.model = Ghost(self.model@.insert(sid@, sink));
                    assert forall|k: Seq<u8>| #[trigger]
                        self.model@.dom().contains(k) implies holds(self.sids@, k) by {
                        if k == sid@ {
                            assert(self.sids@[i as int]@ == k);
                        } else {
                            assert(old(self).model@.dom().contains(k));
                        }
                    }
                }
            },
            None => {
                let ghost n = self.sids@.len() as int;
                self.sids.push(sid);
                self.sinks.push(sink);
                proof {
                    self.model = Ghost(self.model@.insert(sid@, sink));
                    assert forall|i: int, j: int| 0 <= i < j < self.sids@.len() implies (
                    #[trigger] self.sids@[i])@ != (#[trigger] self.sids@[j])@ by {
                        if j == n {
                            assert(old(self).sids@[i]@ != sid@);
                        } else {
                            assert(old(self).sids@[i]@ != old(self).sids@[j]@);
                        }
                    }
                    assert forall|i: int| 0 <= i < self.sids@.len() implies self.model@.dom().contains(
                        (#[trigger] self.sids@[i])@,
                    ) && self.model@[self.sids@[i]@] == self.sinks@[i] by {
                        if i < n {
                            assert(old(self).sids@[i]@ != sid@);
                        }
                    }
                    assert forall|k: Seq<u8>| #[trigger]
                        self.model@.dom().contains(k) implies holds(self.sids@, k) by {
                        if k == sid@ {
                            assert(self.sids@[n]@ == k);
                        } else {
                            assert(old(self).model@.dom().contains(k));
                            let w = choose|w: int|
                                0 <= w < old(self).sids@.len()
                                    && (#[trigger] old(self).sids@[w])@ == k;
                            assert(self.sids@[w]@ == k);
                        }
                    }
                }
            },
        }
    }

    /// The sink under `sid`, if there is one.
    pub fn lookup(&self, sid: &[u8]) -> (r: Option<u64>)
        requires
            self.wf(),
        ensures
            r == (if self@.dom().contains(sid@) {
                Some(self@[sid@])
            } else {
                None
            }),
    {
        match self.find(sid) {
            Some(i) => Some(self.sinks[i]),
            None => None,
        }
    }

    /// Takes the entry under `sid` away; where there is none, nothing changes.
    pub fn remove(&mut self, sid: &[u8])
        requires
            old(self).wf(),
        ensures
            final(self).wf(),
            final(self)@ == old(self)@.remove(sid@),
    {
        match self.find(sid) {
            Some(i) => {
                self.sids.remove(i);
                self.sinks.remove(i);
                proof {
                    self.model = Ghost(self.model@.remove(sid@));
                    let olds = old(self).sids@;
                    assert forall|a: int| 0 <= a < self.sids@.len() implies (#[trigger] self.sids@[a])@
                        == olds[if a < i { a } else { a + 1 }]@ by {}
                    assert forall|a: int, b: int| 0 <= a < b < self.sids@.len() implies (
                    #[trigger] self.sids@[a])@ != (#[trigger] self.sids@[b])@ by {
                        let a0 = if a < i { a } else { a + 1 };
                        let b0 = if b < i { b } else { b + 1 };
                        assert(olds[a0]@ != olds[b0]@);
                    }
                    assert forall|a: int| 0 <= a < self.sids@.len() implies self.model@.dom().contains(
                        (#[trigger] self.sids@[a])@,
                    ) && self.model@[self.sids@[a]@] == self.sinks@[a] by {
                        let a0 = if a < i { a } else { a + 1 };
                        assert(olds[a0]@ != olds[i as int]@);
                        assert(old(self).model@.dom().contains(olds[a0]@));
                    }
                    assert forall|k: Seq<u8>| #[trigger]
                        self.model@.dom().contains(k) implies holds(self.sids@, k) by {
                        assert(old(self).model@.dom().contains(k));
                        let w = choose|w: int| 0 <= w < olds.len() && (#[trigger] olds[w])@ == k;
                        let w1 = if w < i { w } else { w - 1 };
                        assert(self.sids@[w1]@ == k);
                    }
                }
            },
            None => {
                proof {
                    if self.model@.dom().contains(sid@) {
                        assert(holds(self.sids@, sid@));
                    }
                    assert(self.model@.remove(sid@) =~= self.model@);
                }
            },
        }
    }
}

/// Removing an id that has no entry changes nothing.
pub proof fn lemma_remove_absent(m: Map<Seq<u8>, u64>, sid: Seq<u8>)
    requires
        !m.dom().contains(sid),
    ensures
        m.remove(sid) == m,
{
    assert(m.remove(sid) =~= m);
}

/// Removing twice is removing once.
pub proof fn lemma_remove_twice(m: Map<Seq<u8>, u64>, sid: Seq<u8>)
    ensures
        m.remove(sid).remove(sid) == m.remove(sid),
{
    assert(m.remove(sid).remove(sid) =~= m.remove(sid));
}

/// Registering an id twice leaves the second sink alone under it.
pub proof fn lemma_register_twice(m: Map<Seq<u8>, u64>, sid: Seq<u8>, first: u64, second: u64)
    ensures
        m.insert(sid, first).insert(sid, second) == m.insert(sid, second),
        m.insert(sid, first).insert(sid, second)[sid] == second,
{
    assert(m.insert(sid, first).insert(sid, second) =~= m.insert(sid, second));
}

} // verus!
