//! Entity lists kept without repeats: removing one entity, and membership.
use vstd::prelude::*;

verus! {

/// The list `s` without the entity `x`, in the same order.
pub open spec fn omit(s: Seq<u64>, x: u64) -> Seq<u64>
    decreases s.len(),
{
    if s.len() == 0 {
        Seq::empty()
    } else if s.last() == x {
        omit(s.drop_last(), x)
    } else {
        omit(s.drop_last(), x).push(s.last())
    }
}

/// Membership of a list with one more entity at its end.
pub proof fn lemma_push_contains(s: Seq<u64>, y: u64)
    ensures
        forall|z: u64| #[trigger] s.push(y).contains(z) <==> (s.contains(z) || z == y),
        s.no_duplicates() && !s.contains(y) ==> s.push(y).no_duplicates(),
{
    assert forall|z: u64| #[trigger] s.push(y).contains(z) <==> (s.contains(z) || z == y) by {
        if s.push(y).contains(z) {
            let k = choose|k: int| 0 <= k < s.len() + 1 && s.push(y)[k] == z;
            if k < s.len() {
                assert(s[k] == z);
            }
        }
        if s.contains(z) {
            let k = choose|k: int| 0 <= k < s.len() && s[k] == z;
            assert(s.push(y)[k] == z);
        }
        if z == y {
            assert(s.push(y)[s.len() as int] == z);
        }
    }
    if s.no_duplicates() && !s.contains(y) {
        assert forall|a: int, b: int| 0 <= a < b < s.len() + 1 implies s.push(y)[a] != s.push(y)[b] by {
            if b == s.len() {
                assert(s.contains(s[a]));
            }
        }
    }
}

/// Membership of a list without its last entity.
pub proof fn lemma_drop_last_contains(s: Seq<u64>)
    requires
        s.len() > 0,
    ensures
        forall|z: u64| #[trigger] s.contains(z) <==> (s.drop_last().contains(z) || z == s.last()),
        s.no_duplicates() ==> s.drop_last().no_duplicates() && !s.drop_last().contains(s.last()),
{
    assert(s.drop_last().push(s.last()) =~= s);
    lemma_push_contains(s.drop_last(), s.last());
    if s.no_duplicates() {
        assert(s.drop_last().no_duplicates()) by {
            assert forall|a: int, b: int| 0 <= a < b < s.len() - 1 implies s.drop_last()[a] != s.drop_last()[b] by {
                assert(s[a] != s[b]);
            }
        }
        if s.drop_last().contains(s.last()) {
            let k = choose|k: int| 0 <= k < s.len() - 1 && s.drop_last()[k] == s.last();
            assert(s[k] == s[s.len() - 1]);
        }
    }
}

/// `omit` removes exactly `x`, and keeps a list without repeats so.
pub proof fn lemma_omit(s: Seq<u64>, x: u64)
    ensures
        forall|y: u64| #[trigger] omit(s, x).contains(y) <==> (s.contains(y) && y != x),
        s.no_duplicates() ==> omit(s, x).no_duplicates(),
        !s.contains(x) ==> omit(s, x) == s,
        s.no_duplicates() && s.contains(x) ==> omit(s, x).len() == s.len() - 1,
    decreases s.len(),
{
    if s.len() > 0 {
        let d = s.drop_last();
        lemma_omit(d, x);
        lemma_drop_last_contains(s);
        if s.last() != x {
            lemma_push_contains(omit(d, x), s.last());
            assert(d.push(s.last()) =~= s);
        }
    } else {
        assert(omit(s, x) =~= s);
    }
}

/// The list `v` without the entity `x`, in the same order.
pub fn without(v: &Vec<u64>, x: u64) -> (r: Vec<u64>)
    ensures
        r@ == omit(v@, x),
{
    let mut r: Vec<u64> = Vec::new();
    let mut i: usize = 0;
    while i < v.len()
        invariant
            i <= v@.len(),
            r@ == omit(v@.subrange(0, i as int), x),
        decreases v@.len() - i,
    {
        assert(v@.subrange(0, i + 1).drop_last() =~= v@.subrange(0, i as int));
        if v[i] != x {
            r.push(v[i]);
        }
        i = i + 1;
    }
    assert(v@.subrange(0, i as int) =~= v@);
    r
}

/// Whether `x` is in `v`.
pub fn holds(v: &Vec<u64>, x: u64) -> (r: bool)
    ensures
        r == v@.contains(x),
{
    let mut i: usize = 0;
    while i < v.len()
        invariant
            i <= v@.len(),
            forall|k: int| 0 <= k < i ==> v@[k] != x,
        decreases v@.len() - i,
    {
        if v[i] == x {
            return true;
        }
        i = i + 1;
    }
    false
}

} // verus!
