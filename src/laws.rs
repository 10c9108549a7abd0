//! What the resolution engine and the lifecycle guarantee, stated over the
//! models of `dispatch`, `window`, `registry` and `hub`, and proved.
use vstd::prelude::*;
use crate::dispatch::{
    Notice, Subscriber, batch_resolution, in_global_tier, in_related_tier, in_self_tier,
    notices_for, resolution,
};
use crate::hub::{Hub, valid_snapshot};
use crate::window::{coalesce, lemma_coalesce};

verus! {

/// How many times `n` occurs in `s`.
pub open spec fn occurrences(s: Seq<Notice>, n: Notice) -> nat
    decreases s.len(),
{
    if s.len() == 0 {
        0
    } else {
        occurrences(s.drop_last(), n) + if s.last() == n {
            1nat
        } else {
            0nat
        }
    }
}

proof fn lemma_occurrences_concat(a: Seq<Notice>, b: Seq<Notice>, n: Notice)
    ensures
        occurrences(a + b, n) == occurrences(a, n) + occurrences(b, n),
    decreases b.len(),
{
    if b.len() == 0 {
        assert(a + b =~= a);
    } else {
        assert((a + b).drop_last() =~= a + b.drop_last());
        lemma_occurrences_concat(a, b.drop_last(), n);
    }
}

proof fn lemma_occurrences_single(x: Notice, n: Notice)
    ensures
        occurrences(seq![x], n) == (if x == n { 1nat } else { 0nat }),
{
    assert(seq![x].drop_last() =~= Seq::<Notice>::empty());
    assert(occurrences(Seq::<Notice>::empty(), n) == 0);
    assert(seq![x].last() == x);
}

/// How often one subscriber's notices for one subject hold `n`.
proof fn lemma_occurrences_notices_for(s: Subscriber, subject: u64, n: Notice)
    ensures
        occurrences(notices_for(s, subject), n) == (if in_self_tier(s, subject) && n == (Notice {
            observer: s.entity,
            subject: s.entity,
        }) {
            1nat
        } else {
            0nat
        }) + (if (in_related_tier(s, subject) || in_global_tier(s)) && n == (Notice {
            observer: s.entity,
            subject,
        }) {
            1nat
        } else {
            0nat
        }),
{
    let a = if in_self_tier(s, subject) {
        seq![Notice { observer: s.entity, subject: s.entity }]
    } else {
        Seq::empty()
    };
    let b = if in_related_tier(s, subject) || in_global_tier(s) {
        seq![Notice { observer: s.entity, subject }]
    } else {
        Seq::empty()
    };
    lemma_occurrences_concat(a, b, n);
    lemma_occurrences_single(Notice { observer: s.entity, subject: s.entity }, n);
    lemma_occurrences_single(Notice { observer: s.entity, subject }, n);
}

/// Where at most the subscriber at `i` contributes `n`, the resolution
/// holds `n` as often as that subscriber's own notices do.
proof fn lemma_resolution_single(subs: Seq<Subscriber>, subject: u64, n: Notice, i: int)
    requires
        forall|j: int| 0 <= j < subs.len() && j != i ==> occurrences(#[trigger] notices_for(subs[j], subject), n) == 0,
    ensures
        occurrences(resolution(subs, subject), n) == (if 0 <= i < subs.len() {
            occurrences(notices_for(subs[i], subject), n)
        } else {
            0
        }),
    decreases subs.len(),
{
    if subs.len() > 0 {
        let d = subs.drop_last();
        assert forall|j: int| 0 <= j < d.len() && j != i implies occurrences(#[trigger] notices_for(d[j], subject), n) == 0 by {
            assert(d[j] == subs[j]);
        }
        lemma_resolution_single(d, subject, n, i);
        lemma_occurrences_concat(resolution(d, subject), notices_for(subs.last(), subject), n);
        if 0 <= i < d.len() {
            assert(d[i] == subs[i]);
        }
    }
}

/// Where no subject but `e` contributes `n`, the batch holds `n` as often
/// as the resolution for `e`, if `e` is in the batch (once).
proof fn lemma_batch_single(subjects: Seq<u64>, subs: Seq<Subscriber>, n: Notice, e: u64)
    requires
        subjects.no_duplicates(),
        forall|k: int| 0 <= k < subjects.len() && subjects[k] != e ==> occurrences(#[trigger] resolution(subs, subjects[k]), n) == 0,
    ensures
        occurrences(batch_resolution(subjects, subs), n) == (if subjects.contains(e) {
            occurrences(resolution(subs, e), n)
        } else {
            0
        }),
    decreases subjects.len(),
{
    if subjects.len() > 0 {
        let d = subjects.drop_last();
        crate::lists::lemma_drop_last_contains(subjects);
        assert forall|k: int| 0 <= k < d.len() && d[k] != e implies occurrences(#[trigger] resolution(subs, d[k]), n) == 0 by {
            assert(d[k] == subjects[k]);
        }
        lemma_batch_single(d, subs, n, e);
        lemma_occurrences_concat(batch_resolution(d, subs), resolution(subs, subjects.last()), n);
    }
}

/// A subscriber that watches itself, and whose watched state was written
/// any number of times during one tick, receives from the mutate channel
/// exactly one notice naming itself as observer and subject.
pub proof fn law_self_mutation_once(subs: Seq<Subscriber>, i: int, writes: Seq<u64>)
    requires
        valid_snapshot(subs),
        0 <= i < subs.len(),
        subs[i].watches_self,
        writes.contains(subs[i].entity),
    ensures
        occurrences(
            batch_resolution(coalesce(writes), subs),
            Notice { observer: subs[i].entity, subject: subs[i].entity },
        ) == 1,
{
    let m = subs[i].entity;
    let n = Notice { observer: m, subject: m };
    lemma_coalesce(writes);
    let w = coalesce(writes);
    assert forall|j: int| 0 <= j < subs.len() && j != i implies occurrences(#[trigger] notices_for(subs[j], m), n) == 0 by {
        lemma_occurrences_notices_for(subs[j], m, n);
        if i < j {
            assert(subs[i].entity != subs[j].entity);
        } else {
            assert(subs[j].entity != subs[i].entity);
        }
    }
    lemma_resolution_single(subs, m, n, i);
    lemma_occurrences_notices_for(subs[i], m, n);
    assert forall|k: int| 0 <= k < w.len() && w[k] != m implies occurrences(#[trigger] resolution(subs, w[k]), n) == 0 by {
        let e = w[k];
        assert forall|j: int| 0 <= j < subs.len() && j != -1 implies occurrences(#[trigger] notices_for(subs[j], e), n) == 0 by {
            lemma_occurrences_notices_for(subs[j], e, n);
        }
        lemma_resolution_single(subs, e, n, -1);
    }
    lemma_batch_single(w, subs, n, m);
}

/// A subscriber whose monitoring edge names `t` receives exactly one notice
/// about `t` when the watched state is attached to `t`, and none when it is
/// attached to another entity `e` (unless `e` is the subscriber itself and
/// it also watches itself: that is the self tier's notice).
pub proof fn law_related_addition(subs: Seq<Subscriber>, i: int, t: u64, e: u64)
    requires
        valid_snapshot(subs),
        0 <= i < subs.len(),
        subs[i].target == Some(t),
    ensures
        occurrences(resolution(subs, t), Notice { observer: subs[i].entity, subject: t }) == 1,
        e != t && !(subs[i].watches_self && e == subs[i].entity) ==> forall|n: Notice|
            n.observer == subs[i].entity ==> occurrences(#[trigger] resolution(subs, e), n) == 0,
{
    let m = subs[i].entity;
    let n = Notice { observer: m, subject: t };
    assert forall|j: int| 0 <= j < subs.len() && j != i implies occurrences(#[trigger] notices_for(subs[j], t), n) == 0 by {
        lemma_occurrences_notices_for(subs[j], t, n);
        if i < j {
            assert(subs[i].entity != subs[j].entity);
        } else {
            assert(subs[j].entity != subs[i].entity);
        }
    }
    lemma_resolution_single(subs, t, n, i);
    lemma_occurrences_notices_for(subs[i], t, n);
    if e != t && !(subs[i].watches_self && e == m) {
        assert forall|n2: Notice| n2.observer == m implies occurrences(#[trigger] resolution(subs, e), n2) == 0 by {
            assert forall|j: int| 0 <= j < subs.len() && j != -1 implies occurrences(#[trigger] notices_for(subs[j], e), n2) == 0 by {
                lemma_occurrences_notices_for(subs[j], e, n2);
                if j != i {
                    if i < j {
                        assert(subs[i].entity != subs[j].entity);
                    } else {
                        assert(subs[j].entity != subs[i].entity);
                    }
                }
            }
            lemma_resolution_single(subs, e, n2, -1);
        }
    }
}

/// A subscriber with neither a self-watch flag nor an edge is told of every
/// attach or detach of the watched state, on any entity `e`, exactly once;
/// and of every mutation, once per tick for each entity written.
pub proof fn law_global_subscriber(subs: Seq<Subscriber>, i: int, e: u64, writes: Seq<u64>)
    requires
        valid_snapshot(subs),
        0 <= i < subs.len(),
        !subs[i].watches_self,
        subs[i].target is None,
    ensures
        occurrences(resolution(subs, e), Notice { observer: subs[i].entity, subject: e }) == 1,
        writes.contains(e) ==> occurrences(
            batch_resolution(coalesce(writes), subs),
            Notice { observer: subs[i].entity, subject: e },
        ) == 1,
{
    let m = subs[i].entity;
    let n = Notice { observer: m, subject: e };
    assert forall|j: int| 0 <= j < subs.len() && j != i implies occurrences(#[trigger] notices_for(subs[j], e), n) == 0 by {
        lemma_occurrences_notices_for(subs[j], e, n);
        if i < j {
            assert(subs[i].entity != subs[j].entity);
        } else {
            assert(subs[j].entity != subs[i].entity);
        }
    }
    lemma_resolution_single(subs, e, n, i);
    lemma_occurrences_notices_for(subs[i], e, n);
    lemma_coalesce(writes);
    let w = coalesce(writes);
    assert forall|k: int| 0 <= k < w.len() && w[k] != e implies occurrences(#[trigger] resolution(subs, w[k]), n) == 0 by {
        let e2 = w[k];
        assert forall|j: int| 0 <= j < subs.len() && j != -1 implies occurrences(#[trigger] notices_for(subs[j], e2), n) == 0 by {
            lemma_occurrences_notices_for(subs[j], e2, n);
        }
        lemma_resolution_single(subs, e2, n, -1);
    }
    lemma_batch_single(w, subs, n, e);
}

/// A marker without carriers has no detector, and none of its channels
/// raises a notice, whatever the subject or the mutation window.
pub proof fn law_no_carrier_no_notice(h: Hub, key: u64, subject: u64, window: Seq<u64>)
    requires
        h.wf(),
        h.reg().carriers_of(key).len() == 0,
    ensures
        !h.reg().installed(key),
        resolution(h.snapshot(key), subject).len() == 0,
        batch_resolution(window, h.snapshot(key)).len() == 0,
    decreases window.len(),
{
    h.reg().lemma_record_iff_carried(key);
    h.lemma_snapshot(key);
    assert(resolution(h.snapshot(key), subject) =~= Seq::<Notice>::empty());
    if window.len() > 0 {
        law_no_carrier_no_notice(h, key, subject, window.drop_last());
        assert(resolution(h.snapshot(key), window.last()) =~= Seq::<Notice>::empty());
    }
}

} // verus!
