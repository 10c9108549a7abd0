//! The subscription hub: relationships and registrations together, and the
//! three detection channels that resolve lifecycle signals against them.
use vstd::prelude::*;
use crate::dispatch::{Notice, Subscriber, batch_resolution, resolution, resolve};
use crate::registry::{LifecycleError, Registry, Step};
use crate::relation::{RelationError, Relations};
use crate::window::{ChangeSet, resolve_batch};

verus! {

/// How the relationship model describes `e` as a subscriber.
pub open spec fn subscriber_of(rel: Relations, e: u64) -> Subscriber {
    Subscriber {
        entity: e,
        watches_self: rel.self_watchers().contains(e),
        target: if rel.targets().contains_key(e) {
            Some(rel.targets()[e])
        } else {
            None
        },
    }
}

/// Distinct subscribers, none of which names itself as its target.
pub open spec fn valid_snapshot(subs: Seq<Subscriber>) -> bool {
    &&& forall|i: int, j: int|
        0 <= i < j < subs.len() ==> #[trigger] subs[i].entity != #[trigger] subs[j].entity
    &&& forall|i: int| 0 <= i < subs.len() ==> #[trigger] subs[i].target != Some(subs[i].entity)
}

/// Monitoring edges, self-watch flags and subscription markers.
pub struct Hub {
    relations: Relations,
    registry: Registry,
}

impl Hub {
    /// The relationship model.
    pub closed spec fn rel(&self) -> Relations {
        self.relations
    }

    /// The registrations of markers.
    pub closed spec fn reg(&self) -> Registry {
        self.registry
    }

    /// Both parts are well formed; every operation keeps it so.
    pub open spec fn wf(&self) -> bool {
        self.rel().wf() && self.reg().wf()
    }

    /// The carriers of the marker `key`, each with its targeting.
    pub open spec fn snapshot(&self, key: u64) -> Seq<Subscriber> {
        self.reg().carriers_of(key).map_values(|e: u64| subscriber_of(self.rel(), e))
    }

    /// The subscribers that a well-formed hub hands to resolution are
    /// distinct and never target themselves; a marker without a detector
    /// has none.
    pub proof fn lemma_snapshot(&self, key: u64)
        requires
            self.wf(),
        ensures
            valid_snapshot(self.snapshot(key)),
            !self.reg().installed(key) ==> self.snapshot(key).len() == 0,
    {
        self.reg().lemma_record_iff_carried(key);
        let c = self.reg().carriers_of(key);
        let s = self.snapshot(key);
        assert forall|i: int, j: int| 0 <= i < j < s.len() implies #[trigger] s[i].entity != #[trigger] s[j].entity by {
            assert(c[i] != c[j]);
        }
        assert forall|i: int| 0 <= i < s.len() implies #[trigger] s[i].target != Some(s[i].entity) by {
            if self.rel().targets().contains_key(c[i]) {
                self.rel().lemma_irreflexive(c[i]);
            }
        }
    }

    /// A hub with no edge, no flag and no marker.
    pub fn new() -> (r: Hub)
        ensures
            r.wf(),
            r.rel().targets() == Map::<u64, u64>::empty(),
            r.rel().self_watchers() == Set::<u64>::empty(),
            r.reg().records() == Map::<u64, Option<u64>>::empty(),
            forall|k: u64| #[trigger] r.reg().carriers_of(k) == Seq::<u64>::empty(),
    {
        Hub { relations: Relations::new(), registry: Registry::new() }
    }

    /// Points `monitor`'s monitoring edge at `target`, replacing any edge
    /// it had.
    pub fn set_target(&mut self, monitor: u64, target: u64) -> (r: Result<(), RelationError>)
        requires
            old(self).wf(),
        ensures
            final(self).wf(),
            final(self).reg() == old(self).reg(),
            final(self).rel().self_watchers() == old(self).rel().self_watchers(),
            monitor == target ==> r == Err::<(), RelationError>(RelationError::SelfTarget)
                && final(self).rel().targets() == old(self).rel().targets(),
            monitor != target ==> r is Ok && final(self).rel().targets() == old(
                self,
            ).rel().targets().insert(monitor, target),
    {
        self.relations.set_target(monitor, target)
    }

    /// Removes `monitor`'s monitoring edge, if it has one.
    pub fn clear_target(&mut self, monitor: u64)
        requires
            old(self).wf(),
        ensures
            final(self).wf(),
            final(self).reg() == old(self).reg(),
            final(self).rel().self_watchers() == old(self).rel().self_watchers(),
            final(self).rel().targets() == old(self).rel().targets().remove(monitor),
    {
        self.relations.clear_target(monitor)
    }

    /// Sets or clears the self-watch flag of `e`.
    pub fn set_watching_self(&mut self, e: u64, on: bool)
        requires
            old(self).wf(),
        ensures
            final(self).wf(),
            final(self).reg() == old(self).reg(),
            final(self).rel().targets() == old(self).rel().targets(),
            final(self).rel().self_watchers() == (if on {
                old(self).rel().self_watchers().insert(e)
            } else {
                old(self).rel().self_watchers().remove(e)
            }),
    {
        self.relations.set_watching_self(e, on)
    }

    /// The target of `monitor`'s monitoring edge, if it has one.
    pub fn target_of(&self, monitor: u64) -> (r: Option<u64>)
        ensures
            r == subscriber_of(self.rel(), monitor).target,
    {
        self.relations.target_of(monitor)
    }

    /// Whether `e` carries the self-watch flag.
    pub fn watches_self(&self, e: u64) -> (r: bool)
        ensures
            r == self.rel().self_watchers().contains(e),
    {
        self.relations.watches_self(e)
    }

    /// The monitors whose edge names `target`.
    pub fn monitors_of(&self, target: u64) -> (r: Vec<u64>)
        requires
            self.wf(),
        ensures
            r@.no_duplicates(),
            forall|m: u64| #[trigger] r@.contains(m)
                <==> (self.rel().targets().contains_key(m) && self.rel().targets()[m] == target),
    {
        self.relations.monitors_of(target)
    }

    /// Attaches the marker `key` to `monitor`; see [`Registry::subscribe`].
    pub fn subscribe(&mut self, key: u64, monitor: u64) -> (r: Step)
        requires
            old(self).wf(),
        ensures
            final(self).wf(),
            final(self).rel() == old(self).rel(),
            forall|k: u64| k != key ==> #[trigger] final(self).reg().carriers_of(k) == old(
                self,
            ).reg().carriers_of(k),
            old(self).reg().carriers_of(key).contains(monitor) ==> final(self).reg().carriers_of(key)
                == old(self).reg().carriers_of(key),
            !old(self).reg().carriers_of(key).contains(monitor) ==> final(self).reg().carriers_of(
                key,
            ) == old(self).reg().carriers_of(key).push(monitor),
            old(self).reg().installed(key) ==> r == Step::Keep && final(self).reg().records()
                == old(self).reg().records(),
            !old(self).reg().installed(key) ==> r == Step::Install && final(self).reg().records()
                == old(self).reg().records().insert(key, None),
    {
        self.registry.subscribe(key, monitor)
    }

    /// Binds the handle of the detector installed for `key`; see
    /// [`Registry::bind`].
    pub fn bind(&mut self, key: u64, handle: u64) -> (r: Result<(), LifecycleError>)
        requires
            old(self).wf(),
        ensures
            final(self).wf(),
            final(self).rel() == old(self).rel(),
            forall|k: u64| #[trigger] final(self).reg().carriers_of(k) == old(self).reg().carriers_of(
                k,
            ),
            !old(self).reg().installed(key) ==> r == Err::<(), LifecycleError>(
                LifecycleError::NotInstalled,
            ) && final(self).reg().records() == old(self).reg().records(),
            old(self).reg().installed(key) && old(self).reg().records()[key] is Some ==> r
                == Err::<(), LifecycleError>(LifecycleError::AlreadyBound)
                && final(self).reg().records() == old(self).reg().records(),
            old(self).reg().installed(key) && old(self).reg().records()[key] is None ==> r is Ok
                && final(self).reg().records() == old(self).reg().records().insert(
                key,
                Some(handle),
            ),
    {
        self.registry.bind(key, handle)
    }

    /// Removes the marker `key` from `monitor`; see
    /// [`Registry::unsubscribe`]. Once the last carrier is gone, no channel
    /// of `key` raises a notice until a new carrier subscribes.
    pub fn unsubscribe(&mut self, key: u64, monitor: u64) -> (r: Step)
        requires
            old(self).wf(),
        ensures
            final(self).wf(),
            final(self).rel() == old(self).rel(),
            forall|k: u64| k != key ==> #[trigger] final(self).reg().carriers_of(k) == old(
                self,
            ).reg().carriers_of(k),
            final(self).reg().carriers_of(key) == crate::lists::omit(
                old(self).reg().carriers_of(key),
                monitor,
            ),
            final(self).reg().carriers_of(key).len() == 0 && old(self).reg().installed(key) ==> r
                == Step::Teardown(old(self).reg().records()[key]) && final(self).reg().records()
                == old(self).reg().records().remove(key),
            !(final(self).reg().carriers_of(key).len() == 0 && old(self).reg().installed(key))
                ==> r == Step::Keep && final(self).reg().records() == old(self).reg().records(),
            final(self).reg().carriers_of(key).len() == 0 ==> !final(self).reg().installed(key)
                && final(self).snapshot(key).len() == 0,
    {
        let r = self.registry.unsubscribe(key, monitor);
        proof {
            self.registry.lemma_record_iff_carried(key);
        }
        r
    }

    /// The carriers of the marker `key`.
    pub fn carriers(&self, key: u64) -> (r: Vec<u64>)
        ensures
            r@ == self.reg().carriers_of(key),
    {
        self.registry.carriers(key)
    }

    /// Whether a detector is installed for the marker `key`.
    pub fn is_installed(&self, key: u64) -> (r: bool)
        ensures
            r == self.reg().installed(key),
    {
        self.registry.is_installed(key)
    }

    /// The carriers of `key` with their targeting, ready for resolution.
    pub fn subscribers(&self, key: u64) -> (r: Vec<Subscriber>)
        ensures
            r@ == self.snapshot(key),
    {
        let carriers = self.registry.carriers(key);
        let mut r: Vec<Subscriber> = Vec::new();
        let mut i: usize = 0;
        while i < carriers.len()
            invariant
                i <= carriers@.len(),
                carriers@ == self.reg().carriers_of(key),
                r@ == carriers@.subrange(0, i as int).map_values(|e: u64| subscriber_of(self.rel(), e)),
            decreases carriers@.len() - i,
        {
            let e = carriers[i];
            let s = Subscriber {
                entity: e,
                watches_self: self.relations.watches_self(e),
                target: self.relations.target_of(e),
            };
            r.push(s);
            assert(r@ =~= carriers@.subrange(0, i + 1).map_values(|e: u64| subscriber_of(self.rel(), e)));
            i = i + 1;
        }
        assert(carriers@.subrange(0, i as int) =~= carriers@);
        r
    }

    /// The attach channel: the watched state was attached to `subject`.
    pub fn on_added(&self, key: u64, subject: u64) -> (r: Vec<Notice>)
        ensures
            r@ == resolution(self.snapshot(key), subject),
    {
        let subs = self.subscribers(key);
        resolve(subject, &subs)
    }

    /// The mutate channel: the watched state was written, during the tick
    /// that `window` covers, on each entity of the window.
    pub fn on_mutated(&self, key: u64, window: &ChangeSet) -> (r: Vec<Notice>)
        ensures
            r@ == batch_resolution(window@, self.snapshot(key)),
    {
        let subs = self.subscribers(key);
        resolve_batch(window, &subs)
    }

    /// The detach channel: the watched state is being detached from
    /// `subject`, observed while `subject`'s own flags and markers stand.
    pub fn on_removed(&self, key: u64, subject: u64) -> (r: Vec<Notice>)
        ensures
            r@ == resolution(self.snapshot(key), subject),
    {
        let subs = self.subscribers(key);
        resolve(subject, &subs)
    }
}

} // verus!
