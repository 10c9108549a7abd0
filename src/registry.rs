//! Registration bookkeeping and the lifecycle of per-marker detectors.
//!
//! Each subscription marker (one per channel and state type) is named by a
//! 64-bit key. The registry lists the entities that carry each marker and
//! keeps one installation record per marker that has at least one carrier.
//! The record is created with the first carrier and dropped with the last;
//! it holds the handle of the installed detector once the caller binds it.
use vstd::prelude::*;
use std::collections::HashMap;
use crate::lists::{holds, lemma_omit, lemma_push_contains, omit, without};

verus! {

broadcast use vstd::std_specs::hash::group_hash_axioms;

/// A breach of the lifecycle's own bookkeeping.
#[derive(Clone, Copy, Debug, PartialEq, Eq)]
pub enum LifecycleError {
    /// No installation record exists for the marker.
    NotInstalled,
    /// The record already holds the handle of a detector.
    AlreadyBound,
}

/// What the caller must do with a marker's detector after a change of its
/// carriers.
#[derive(Clone, Copy, Debug, PartialEq, Eq)]
pub enum Step {
    /// The detector stays as it is.
    Keep,
    /// The marker gained its first carrier: install its detector and bind
    /// the detector's handle to the record.
    Install,
    /// The marker lost its last carrier: its record is gone, and the
    /// detector with this handle (if one was bound) is to be removed.
    Teardown(Option<u64>),
}

/// The carriers of each marker and the installation records.
pub struct Registry {
    carriers: HashMap<u64, Vec<u64>>,
    records: HashMap<u64, Option<u64>>,
}

impl Registry {
    /// The entities that carry the marker `key`, in the order they got it.
    pub closed spec fn carriers_of(&self, key: u64) -> Seq<u64> {
        if self.carriers@.contains_key(key) {
            self.carriers@[key]@
        } else {
            Seq::empty()
        }
    }

    /// The installation records: the marker key, and the bound handle.
    pub closed spec fn records(&self) -> Map<u64, Option<u64>> {
        self.records@
    }

    /// Whether a detector is installed for the marker `key`.
    pub open spec fn installed(&self, key: u64) -> bool {
        self.records().contains_key(key)
    }

    /// A record exists exactly for the markers with a carrier, and no
    /// entity is listed twice as a carrier of one marker.
    pub closed spec fn wf(&self) -> bool {
        &&& self.carriers@.dom() == self.records@.dom()
        &&& forall|k: u64| #[trigger] self.carriers@.contains_key(k)
            ==> self.carriers@[k]@.len() > 0 && self.carriers@[k]@.no_duplicates()
    }

    /// In a well-formed registry a marker has a record exactly when it has a
    /// carrier, and its carriers are listed once each.
    pub proof fn lemma_record_iff_carried(&self, key: u64)
        requires
            self.wf(),
        ensures
            self.installed(key) <==> self.carriers_of(key).len() > 0,
            self.carriers_of(key).no_duplicates(),
    {
        if !self.carriers@.contains_key(key) {
            assert(!self.records@.contains_key(key));
        }
    }

    /// A registry with no carrier and no record.
    pub fn new() -> (r: Registry)
        ensures
            r.wf(),
            r.records() == Map::<u64, Option<u64>>::empty(),
            forall|k: u64| #[trigger] r.carriers_of(k) == Seq::<u64>::empty(),
    {
        let r = Registry { carriers: HashMap::new(), records: HashMap::new() };
        assert(r.carriers@.dom() =~= r.records@.dom());
        r
    }

    /// The carriers of the marker `key`.
    pub fn carriers(&self, key: u64) -> (r: Vec<u64>)
        ensures
            r@ == self.carriers_of(key),
    {
        match self.carriers.get(&key) {
            Some(v) => v.clone(),
            None => Vec::new(),
        }
    }

    /// Whether a detector is installed for the marker `key`.
    pub fn is_installed(&self, key: u64) -> (r: bool)
        ensures
            r == self.installed(key),
    {
        self.records.contains_key(&key)
    }

    /// The marker `key` was attached to `monitor`. A detector is asked for
    /// only when the marker had no record; a marker that already has one
    /// keeps it as it is.
    pub fn subscribe(&mut self, key: u64, monitor: u64) -> (r: Step)
        requires
            old(self).wf(),
        ensures
            final(self).wf(),
            forall|k: u64| k != key ==> #[trigger] final(self).carriers_of(k) == old(self).carriers_of(k),
            old(self).carriers_of(key).contains(monitor) ==> final(self).carriers_of(key) == old(
                self,
            ).carriers_of(key),
            !old(self).carriers_of(key).contains(monitor) ==> final(self).carriers_of(key) == old(
                self,
            ).carriers_of(key).push(monitor),
            old(self).installed(key) ==> r == Step::Keep && final(self).records() == old(
                self,
            ).records(),
            !old(self).installed(key) ==> r == Step::Install && final(self).records() == old(
                self,
            ).records().insert(key, None),
    {
        let ghost c0 = self.carriers@;
        let ghost r0 = self.records@;
        proof {
            self.lemma_record_iff_carried(key);
        }
        let mut list = match self.carriers.remove(&key) {
            Some(v) => v,
            None => Vec::new(),
        };
        let ghost before = list@;
        assert(before == old(self).carriers_of(key));
        if !holds(&list, monitor) {
            list.push(monitor);
            proof {
                lemma_push_contains(before, monitor);
            }
        }
        self.carriers.insert(key, list);
        let step = if self.records.contains_key(&key) {
            Step::Keep
        } else {
            self.records.insert(key, None);
            Step::Install
        };
        assert(self.carriers@.dom() =~= self.records@.dom());
        assert forall|k: u64| k != key implies #[trigger] self.carriers_of(k) == old(self).carriers_of(k) by {
            if c0.contains_key(k) {
                assert(self.carriers@[k] == c0[k]);
            }
        }
        step
    }

    /// Binds the handle of the detector just installed for `key`.
    pub fn bind(&mut self, key: u64, handle: u64) -> (r: Result<(), LifecycleError>)
        requires
            old(self).wf(),
        ensures
            final(self).wf(),
            forall|k: u64| #[trigger] final(self).carriers_of(k) == old(self).carriers_of(k),
            !old(self).installed(key) ==> r == Err::<(), LifecycleError>(LifecycleError::NotInstalled)
                && final(self).records() == old(self).records(),
            old(self).installed(key) && old(self).records()[key] is Some ==> r == Err::<
                (),
                LifecycleError,
            >(LifecycleError::AlreadyBound) && final(self).records() == old(self).records(),
            old(self).installed(key) && old(self).records()[key] is None ==> r is Ok
                && final(self).records() == old(self).records().insert(key, Some(handle)),
    {
        match self.records.get(&key) {
            None => Err(LifecycleError::NotInstalled),
            Some(Some(_)) => Err(LifecycleError::AlreadyBound),
            Some(None) => {
                self.records.insert(key, Some(handle));
                assert(self.carriers@.dom() =~= self.records@.dom());
                Ok(())
            },
        }
    }

    /// The marker `key` was removed from `monitor`. The carriers are counted
    /// after that removal; the record goes, and the detector is torn down,
    /// only when none is left.
    pub fn unsubscribe(&mut self, key: u64, monitor: u64) -> (r: Step)
        requires
            old(self).wf(),
        ensures
            final(self).wf(),
            forall|k: u64| k != key ==> #[trigger] final(self).carriers_of(k) == old(self).carriers_of(k),
            final(self).carriers_of(key) == omit(old(self).carriers_of(key), monitor),
            final(self).carriers_of(key).len() == 0 && old(self).installed(key) ==> r
                == Step::Teardown(old(self).records()[key]) && final(self).records() == old(
                self,
            ).records().remove(key),
            !(final(self).carriers_of(key).len() == 0 && old(self).installed(key)) ==> r
                == Step::Keep && final(self).records() == old(self).records(),
    {
        let ghost c0 = self.carriers@;
        proof {
            self.lemma_record_iff_carried(key);
        }
        let step = match self.carriers.remove(&key) {
            None => {
                assert(omit(Seq::<u64>::empty(), monitor) =~= Seq::<u64>::empty());
                Step::Keep
            },
            Some(list) => {
                let rest = without(&list, monitor);
                proof {
                    lemma_omit(list@, monitor);
                }
                if rest.len() > 0 {
                    self.carriers.insert(key, rest);
                    Step::Keep
                } else {
                    let handle = match self.records.remove(&key) {
                        Some(h) => h,
                        None => None,
                    };
                    Step::Teardown(handle)
                }
            },
        };
        assert(self.carriers@.dom() =~= self.records@.dom());
        assert forall|k: u64| k != key implies #[trigger] self.carriers_of(k) == old(self).carriers_of(k) by {
            if c0.contains_key(k) {
                assert(self.carriers@[k] == c0[k]);
            }
        }
        step
    }
}

} // verus!
