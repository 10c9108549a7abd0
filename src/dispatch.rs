//! Resolution of one lifecycle signal into the notices that subscribers receive.
//!
//! Three tiers apply side by side to every subscriber of a state type:
//! the self tier (the subscriber watches itself and is the subject), the
//! related tier (the subscriber's monitoring edge names the subject) and the
//! global tier (the subscriber has neither a self-watch flag nor an edge).
use vstd::prelude::*;

verus! {

/// What an entity carrying a subscription marker declares about its targeting.
#[derive(Clone, Copy, Debug, PartialEq, Eq)]
pub struct Subscriber {
    /// The monitor entity.
    pub entity: u64,
    /// Whether the monitor carries the self-watch flag.
    pub watches_self: bool,
    /// The target of the monitor's monitoring edge, if it has one.
    pub target: Option<u64>,
}

/// One notification: `observer` is told that the state of `subject` changed.
#[derive(Clone, Copy, Debug, PartialEq, Eq)]
pub struct Notice {
    pub observer: u64,
    pub subject: u64,
}

pub open spec fn in_self_tier(s: Subscriber, subject: u64) -> bool {
    s.watches_self && s.entity == subject
}

pub open spec fn in_related_tier(s: Subscriber, subject: u64) -> bool {
    s.target == Some(subject)
}

pub open spec fn in_global_tier(s: Subscriber) -> bool {
    !s.watches_self && s.target is None
}

/// The notices that one subscriber receives for one subject: the self-tier
/// notice first, then the related- or global-tier notice.
pub open spec fn notices_for(s: Subscriber, subject: u64) -> Seq<Notice> {
    (if in_self_tier(s, subject) {
        seq![Notice { observer: s.entity, subject: s.entity }]
    } else {
        Seq::empty()
    }) + (if in_related_tier(s, subject) || in_global_tier(s) {
        seq![Notice { observer: s.entity, subject }]
    } else {
        Seq::empty()
    })
}

/// The notices raised for a signal on `subject`, subscriber by subscriber.
pub open spec fn resolution(subs: Seq<Subscriber>, subject: u64) -> Seq<Notice>
    decreases subs.len(),
{
    if subs.len() == 0 {
        Seq::empty()
    } else {
        resolution(subs.drop_last(), subject) + notices_for(subs.last(), subject)
    }
}

/// The notices raised for a batch of subjects, subject by subject.
pub open spec fn batch_resolution(subjects: Seq<u64>, subs: Seq<Subscriber>) -> Seq<Notice>
    decreases subjects.len(),
{
    if subjects.len() == 0 {
        Seq::empty()
    } else {
        batch_resolution(subjects.drop_last(), subs) + resolution(subs, subjects.last())
    }
}

/// Computes the notices for one subscriber and one subject.
fn notify_one(s: &Subscriber, subject: u64, out: &mut Vec<Notice>)
    ensures
        final(out)@ == old(out)@ + notices_for(*s, subject),
{
    let ghost start = out@;
    if s.watches_self && s.entity == subject {
        out.push(Notice { observer: s.entity, subject: s.entity });
    }
    let related = match s.target {
        Some(t) => t == subject,
        None => !s.watches_self,
    };
    if related {
        out.push(Notice { observer: s.entity, subject });
    }
    assert(out@ =~= start + notices_for(*s, subject));
}

/// Resolves a signal of the attach or detach channel: the state changed on
/// `subject`, and `subs` are the entities carrying the subscription marker.
pub fn resolve(subject: u64, subs: &Vec<Subscriber>) -> (r: Vec<Notice>)
    ensures
        r@ == resolution(subs@, subject),
{
    let mut r: Vec<Notice> = Vec::new();
    let mut i: usize = 0;
    while i < subs.len()
        invariant
            i <= subs@.len(),
            r@ == resolution(subs@.subrange(0, i as int), subject),
        decreases subs@.len() - i,
    {
        notify_one(&subs[i], subject, &mut r);
        assert(subs@.subrange(0, i + 1).drop_last() =~= subs@.subrange(0, i as int));
        i = i + 1;
    }
    assert(subs@.subrange(0, i as int) =~= subs@);
    r
}

} // verus!
