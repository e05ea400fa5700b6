//! The first element of a sequence that satisfies a predicate.
use vstd::prelude::*;

verus! {

pub open spec fn is_first<A>(s: Seq<A>, p: spec_fn(A) -> bool, k: int) -> bool {
    &&& 0 <= k < s.len()
    &&& p(s[k])
    &&& forall|j: int| 0 <= j < k ==> !p(#[trigger] s[j])
}

/// The index of the first element of `s` satisfying `p`, or -1.
pub open spec fn first_match<A>(s: Seq<A>, p: spec_fn(A) -> bool) -> int {
    if exists|k: int| is_first(s, p, k) {
        choose|k: int| is_first(s, p, k)
    } else {
        -1
    }
}

proof fn lemma_some_first<A>(s: Seq<A>, p: spec_fn(A) -> bool, j: int)
    requires
        0 <= j < s.len(),
        p(s[j]),
    ensures
        exists|k: int| is_first(s, p, k),
    decreases j,
{
    if exists|i: int| 0 <= i < j && p(#[trigger] s[i]) {
        let i = choose|i: int| 0 <= i < j && p(#[trigger] s[i]);
        lemma_some_first(s, p, i);
    } else {
        assert(is_first(s, p, j));
    }
}

/// What `first_match` gives: an index in range that is the first match, or
/// -1 when nothing matches.
pub proof fn lemma_first_match<A>(s: Seq<A>, p: spec_fn(A) -> bool)
    ensures
        -1 <= first_match(s, p) < s.len(),
        first_match(s, p) >= 0 ==> is_first(s, p, first_match(s, p)),
        first_match(s, p) < 0 ==> forall|j: int| 0 <= j < s.len() ==> !p(#[trigger] s[j]),
        forall|k: int| #[trigger] is_first(s, p, k) ==> first_match(s, p) == k,
{
    if exists|k: int| is_first(s, p, k) {
        let k = choose|k: int| is_first(s, p, k);
        assert forall|k2: int| #[trigger] is_first(s, p, k2) implies k2 == k by {
            if k2 < k {
                assert(!p(s[k2]));
            } else if k < k2 {
                assert(!p(s[k]));
            }
        }
    } else {
        assert forall|j: int| 0 <= j < s.len() implies !p(#[trigger] s[j]) by {
            if p(s[j]) {
                lemma_some_first(s, p, j);
            }
        }
    }
}

/// Removing an element that does not satisfy `p` keeps the first element
/// that does.
pub proof fn lemma_first_after_remove<A>(s: Seq<A>, p: spec_fn(A) -> bool, i: int)
    requires
        0 <= i < s.len(),
        !p(s[i]),
    ensures
        (first_match(s.remove(i), p) >= 0) == (first_match(s, p) >= 0),
        first_match(s, p) >= 0 ==> s.remove(i)[first_match(s.remove(i), p)] == s[first_match(
            s,
            p,
        )],
{
    let t = s.remove(i);
    lemma_first_match(s, p);
    lemma_first_match(t, p);
    let k = first_match(s, p);
    if k >= 0 {
        if k < i {
            assert forall|j: int| 0 <= j < k implies !p(#[trigger] t[j]) by {
                assert(t[j] == s[j]);
            }
            assert(t[k] == s[k]);
            assert(is_first(t, p, k));
        } else {
            assert(k > i);
            assert forall|j: int| 0 <= j < k - 1 implies !p(#[trigger] t[j]) by {
                if j < i {
                    assert(t[j] == s[j]);
                } else {
                    assert(t[j] == s[j + 1]);
                }
            }
            assert(t[k - 1] == s[k]);
            assert(is_first(t, p, k - 1));
        }
    } else {
        if first_match(t, p) >= 0 {
            let k2 = first_match(t, p);
            if k2 < i {
                assert(t[k2] == s[k2]);
            } else {
                assert(t[k2] == s[k2 + 1]);
            }
        }
    }
}

} // verus!
