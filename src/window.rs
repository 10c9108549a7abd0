//! The mutation window: the entities whose watched state was written during
//! one tick, each kept once, in the order of their first write.
use vstd::prelude::*;
use crate::lists::{holds, lemma_push_contains};
use crate::dispatch::{Notice, Subscriber, batch_resolution, resolve};

verus! {

/// The subjects that a sequence of writes leaves in a window: each written
/// entity once, at the place of its first write.
pub open spec fn coalesce(writes: Seq<u64>) -> Seq<u64>
    decreases writes.len(),
{
    if writes.len() == 0 {
        Seq::empty()
    } else {
        let before = coalesce(writes.drop_last());
        if before.contains(writes.last()) {
            before
        } else {
            before.push(writes.last())
        }
    }
}

/// A coalesced window holds no entity twice and exactly the written ones.
pub proof fn lemma_coalesce(writes: Seq<u64>)
    ensures
        coalesce(writes).no_duplicates(),
        forall|e: u64| #[trigger] coalesce(writes).contains(e) <==> writes.contains(e),
    decreases writes.len(),
{
    if writes.len() > 0 {
        let w = writes.drop_last();
        lemma_coalesce(w);
        assert forall|e: u64| #[trigger] writes.contains(e) <==> (w.contains(e) || e == writes.last()) by {
            if writes.contains(e) {
                let k = choose|k: int| 0 <= k < writes.len() && writes[k] == e;
                if k < writes.len() - 1 {
                    assert(w[k] == e);
                }
            }
            if w.contains(e) {
                let k = choose|k: int| 0 <= k < w.len() && w[k] == e;
                assert(writes[k] == e);
            }
            if e == writes.last() {
                assert(writes[writes.len() - 1] == e);
            }
        }
        let c = coalesce(w);
        if !c.contains(writes.last()) {
            assert forall|e: u64| #[trigger] c.push(writes.last()).contains(e) <==> (c.contains(e) || e == writes.last()) by {
                if c.push(writes.last()).contains(e) {
                    let k = choose|k: int| 0 <= k < c.len() + 1 && c.push(writes.last())[k] == e;
                    if k < c.len() {
                        assert(c[k] == e);
                    }
                }
                if c.contains(e) {
                    let k = choose|k: int| 0 <= k < c.len() && c[k] == e;
                    assert(c.push(writes.last())[k] == e);
                }
                if e == writes.last() {
                    assert(c.push(writes.last())[c.len() as int] == e);
                }
            }
        }
    }
}

/// The entities written during one tick.
pub struct ChangeSet {
    subjects: Vec<u64>,
}

impl View for ChangeSet {
    type V = Seq<u64>;

    closed spec fn view(&self) -> Seq<u64> {
        self.subjects@
    }
}

impl ChangeSet {
    /// An empty window.
    pub fn new() -> (r: ChangeSet)
        ensures
            r@ == Seq::<u64>::empty(),
    {
        ChangeSet { subjects: Vec::new() }
    }

    /// Whether `e` was written in this window.
    pub fn contains(&self, e: u64) -> (r: bool)
        ensures
            r == self@.contains(e),
    {
        holds(&self.subjects, e)
    }

    /// Records a write of the watched state on `e`; a second write in the
    /// same window changes nothing.
    pub fn record(&mut self, e: u64)
        ensures
            final(self)@ == (if old(self)@.contains(e) {
                old(self)@
            } else {
                old(self)@.push(e)
            }),
            old(self)@.no_duplicates() ==> final(self)@.no_duplicates(),
    {
        if !self.contains(e) {
            proof {
                lemma_push_contains(self.subjects@, e);
            }
            self.subjects.push(e);
        }
    }

    /// The window that a sequence of writes leaves.
    pub fn from_writes(writes: &Vec<u64>) -> (r: ChangeSet)
        ensures
            r@ == coalesce(writes@),
    {
        let mut r = ChangeSet::new();
        let mut i: usize = 0;
        while i < writes.len()
            invariant
                i <= writes@.len(),
                r@ == coalesce(writes@.subrange(0, i as int)),
            decreases writes@.len() - i,
        {
            assert(writes@.subrange(0, i + 1).drop_last() =~= writes@.subrange(0, i as int));
            r.record(writes[i]);
            i = i + 1;
        }
        assert(writes@.subrange(0, i as int) =~= writes@);
        r
    }

    /// The number of distinct entities written.
    pub fn len(&self) -> (r: usize)
        ensures
            r == self@.len(),
    {
        self.subjects.len()
    }

    /// The written entities, in the order of their first write.
    pub fn subjects(&self) -> (r: Vec<u64>)
        ensures
            r@ == self@,
    {
        self.subjects.clone()
    }

    /// Empties the window at the end of a tick.
    pub fn clear(&mut self)
        ensures
            final(self)@ == Seq::<u64>::empty(),
    {
        self.subjects.clear();
    }
}

/// Resolves the mutate channel for one tick: one pass of the three tiers for
/// each entity in the window.
pub fn resolve_batch(window: &ChangeSet, subs: &Vec<Subscriber>) -> (r: Vec<Notice>)
    ensures
        r@ == batch_resolution(window@, subs@),
{
    let mut r: Vec<Notice> = Vec::new();
    let mut i: usize = 0;
    while i < window.subjects.len()
        invariant
            i <= window@.len(),
            r@ == batch_resolution(window@.subrange(0, i as int), subs@),
        decreases window@.len() - i,
    {
        let mut one = resolve(window.subjects[i], subs);
        assert(window@.subrange(0, i + 1).drop_last() =~= window@.subrange(0, i as int));
        r.append(&mut one);
        i = i + 1;
    }
    assert(window@.subrange(0, i as int) =~= window@);
    r
}

} // verus!
