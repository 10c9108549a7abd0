//! The relationship model: each monitor names at most one target through its
//! monitoring edge, a back-index lists the monitors of each target, and a
//! separate flag marks the monitors that watch themselves.
use vstd::prelude::*;
use std::collections::{HashMap, HashSet};
use crate::lists::{lemma_omit, without};

verus! {

broadcast use vstd::std_specs::hash::group_hash_axioms;

/// Why an edge was refused.
#[derive(Clone, Copy, Debug, PartialEq, Eq)]
pub enum RelationError {
    /// A monitor cannot name itself as its target; it sets the self-watch
    /// flag instead.
    SelfTarget,
}

/// Monitoring edges with their back-index, and the self-watch flags.
pub struct Relations {
    targets: HashMap<u64, u64>,
    monitored_by: HashMap<u64, Vec<u64>>,
    watching_self: HashSet<u64>,
}

impl Relations {
    /// The target that each monitor names.
    pub closed spec fn targets(&self) -> Map<u64, u64> {
        self.targets@
    }

    /// The entities that carry the self-watch flag.
    pub closed spec fn self_watchers(&self) -> Set<u64> {
        self.watching_self@
    }

    /// No edge is reflexive, and the back-index lists, without repeats,
    /// exactly the monitors whose edge names each target.
    pub closed spec fn wf(&self) -> bool {
        &&& forall|m: u64| #[trigger] self.targets@.contains_key(m) ==> self.targets@[m] != m
        &&& forall|t: u64| #[trigger] self.monitored_by@.contains_key(t)
            ==> self.monitored_by@[t]@.no_duplicates() && self.monitored_by@[t]@.len() > 0
        &&& forall|t: u64, m: u64|
            self.monitored_by@.contains_key(t) && #[trigger] self.monitored_by@[t]@.contains(m)
            ==> self.targets@.contains_key(m) && self.targets@[m] == t
        &&& forall|m: u64| #[trigger] self.targets@.contains_key(m)
            ==> self.monitored_by@.contains_key(self.targets@[m])
                && self.monitored_by@[self.targets@[m]]@.contains(m)
    }

    /// Edges of a well-formed model are never reflexive.
    pub proof fn lemma_irreflexive(&self, m: u64)
        requires
            self.wf(),
            self.targets().contains_key(m),
        ensures
            self.targets()[m] != m,
    {
    }

    /// A model with no edge and no flag.
    pub fn new() -> (r: Relations)
        ensures
            r.wf(),
            r.targets() == Map::<u64, u64>::empty(),
            r.self_watchers() == Set::<u64>::empty(),
    {
        Relations { targets: HashMap::new(), monitored_by: HashMap::new(), watching_self: HashSet::new() }
    }

    /// The target of `monitor`'s edge, if it has one.
    pub fn target_of(&self, monitor: u64) -> (r: Option<u64>)
        ensures
            r == (if self.targets().contains_key(monitor) {
                Some(self.targets()[monitor])
            } else {
                None
            }),
    {
        match self.targets.get(&monitor) {
            Some(t) => Some(*t),
            None => None,
        }
    }

    /// Whether `e` carries the self-watch flag.
    pub fn watches_self(&self, e: u64) -> (r: bool)
        ensures
            r == self.self_watchers().contains(e),
    {
        self.watching_self.contains(&e)
    }

    /// Sets or clears the self-watch flag of `e`.
    pub fn set_watching_self(&mut self, e: u64, on: bool)
        requires
            old(self).wf(),
        ensures
            final(self).wf(),
            final(self).targets() == old(self).targets(),
            final(self).self_watchers() == (if on {
                old(self).self_watchers().insert(e)
            } else {
                old(self).self_watchers().remove(e)
            }),
    {
        if on {
            self.watching_self.insert(e);
        } else {
            self.watching_self.remove(&e);
        }
    }

    /// The monitors whose edge names `target`, read from the back-index.
    pub fn monitors_of(&self, target: u64) -> (r: Vec<u64>)
        requires
            self.wf(),
        ensures
            r@.no_duplicates(),
            forall|m: u64| #[trigger] r@.contains(m)
                <==> (self.targets().contains_key(m) && self.targets()[m] == target),
    {
        match self.monitored_by.get(&target) {
            Some(v) => v.clone(),
            None => Vec::new(),
        }
    }

    /// Removes `monitor`'s edge, if it has one.
    pub fn clear_target(&mut self, monitor: u64)
        requires
            old(self).wf(),
        ensures
            final(self).wf(),
            final(self).targets() == old(self).targets().remove(monitor),
            final(self).self_watchers() == old(self).self_watchers(),
    {
        let ghost t0 = self.targets@;
        let ghost b0 = self.monitored_by@;
        match self.targets.remove(&monitor) {
            None => {
                assert(self.targets@ =~= t0.remove(monitor));
            },
            Some(t) => {
                assert(b0.contains_key(t) && b0[t]@.contains(monitor));
                match self.monitored_by.remove(&t) {
                    None => {},
                    Some(list) => {
                        let rest = without(&list, monitor);
                        proof {
                            lemma_omit(list@, monitor);
                        }
                        if rest.len() > 0 {
                            self.monitored_by.insert(t, rest);
                        }
                        proof {
                            let t1 = self.targets@;
                            let b1 = self.monitored_by@;
                            assert forall|u: u64, m: u64|
                                b1.contains_key(u) && #[trigger] b1[u]@.contains(m)
                                implies t1.contains_key(m) && t1[m] == u by {
                                if u != t {
                                    assert(b0[u]@.contains(m));
                                }
                                else {
                                    assert(list@.contains(m));
                                }
                            }
                            assert forall|m: u64| #[trigger] t1.contains_key(m)
                                implies b1.contains_key(t1[m]) && b1[t1[m]]@.contains(m) by {
                                assert(t0.contains_key(m));
                                assert(b0[t0[m]]@.contains(m));
                                if t0[m] == t {
                                    assert(rest@.contains(m));
                                }
                            }
                        }
                    },
                }
            },
        }
    }

    /// Replaces `monitor`'s edge by one to `target`.
    pub fn set_target(&mut self, monitor: u64, target: u64) -> (r: Result<(), RelationError>)
        requires
            old(self).wf(),
        ensures
            final(self).wf(),
            final(self).self_watchers() == old(self).self_watchers(),
            monitor == target ==> r == Err::<(), RelationError>(RelationError::SelfTarget)
                && final(self).targets() == old(self).targets(),
            monitor != target ==> r is Ok
                && final(self).targets() == old(self).targets().insert(monitor, target),
    {
        if monitor == target {
            return Err(RelationError::SelfTarget);
        }
        self.clear_target(monitor);
        let ghost t0 = self.targets@;
        let ghost b0 = self.monitored_by@;
        let mut list = match self.monitored_by.remove(&target) {
            Some(v) => v,
            None => Vec::new(),
        };
        let ghost before = list@;
        assert(!before.contains(monitor)) by {
            if before.contains(monitor) {
                assert(b0[target]@.contains(monitor));
            }
        }
        list.push(monitor);
        proof {
            assert forall|z: u64| #[trigger] list@.contains(z) <==> (before.contains(z) || z == monitor) by {
                if list@.contains(z) {
                    let k = choose|k: int| 0 <= k < list@.len() && list@[k] == z;
                    if k < before.len() {
                        assert(before[k] == z);
                    }
                }
                if before.contains(z) {
                    let k = choose|k: int| 0 <= k < before.len() && before[k] == z;
                    assert(list@[k] == z);
                }
                if z == monitor {
                    assert(list@[before.len() as int] == z);
                }
            }
            assert(list@.no_duplicates()) by {
                assert forall|a: int, b: int| 0 <= a < b < list@.len() implies list@[a] != list@[b] by {
                    if b == before.len() {
                        assert(before[a] == list@[a]);
                    } else {
                        assert(before[a] == list@[a] && before[b] == list@[b]);
                    }
                }
            }
        }
        self.monitored_by.insert(target, list);
        self.targets.insert(monitor, target);
        proof {
            let t1 = self.targets@;
            let b1 = self.monitored_by@;
            assert forall|u: u64, m: u64|
                b1.contains_key(u) && #[trigger] b1[u]@.contains(m)
                implies t1.contains_key(m) && t1[m] == u by {
                if u != target {
                    assert(b0[u]@.contains(m));
                } else if m != monitor {
                    assert(before.contains(m));
                    assert(b0[target]@.contains(m));
                }
            }
            assert forall|m: u64| #[trigger] t1.contains_key(m)
                implies b1.contains_key(t1[m]) && b1[t1[m]]@.contains(m) by {
                if m != monitor {
                    assert(t0.contains_key(m));
                    assert(b0[t0[m]]@.contains(m));
                    if t0[m] == target {
                        assert(before.contains(m));
                    }
                }
            }
        }
        assert(self.targets@ =~= old(self).targets@.insert(monitor, target));
        Ok(())
    }
}

} // verus!
