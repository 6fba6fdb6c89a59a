//! Position of the first element of a sequence satisfying a predicate, as the
//! index lookups of the three entity indices use it.

use vstd::prelude::*;

verus! {

/// `i` is the position of the first element of `s` satisfying `p`.
pub open spec fn is_first_match<A>(s: Seq<A>, p: spec_fn(A) -> bool, i: int) -> bool {
    &&& 0 <= i < s.len()
    &&& p(s[i])
    &&& forall|j: int| 0 <= j < i ==> !(#[trigger] p(s[j]))
}

/// The position of the first element of `s` satisfying `p`, if any.
pub open spec fn first_match<A>(s: Seq<A>, p: spec_fn(A) -> bool) -> Option<int> {
    if exists|i: int| is_first_match(s, p, i) {
        Some(choose|i: int| is_first_match(s, p, i))
    } else {
        None
    }
}

/// A witness pins `first_match` down: first positions are unique.
pub proof fn lemma_first_match_at<A>(s: Seq<A>, p: spec_fn(A) -> bool, i: int)
    requires
        is_first_match(s, p, i),
    ensures
        first_match(s, p) == Some(i),
{
    let c = choose|k: int| is_first_match(s, p, k);
    assert(is_first_match(s, p, c));
    if c < i {
        assert(p(s[c]));
        assert(!p(s[c]));
    }
    if c > i {
        assert(p(s[i]));
        assert(!p(s[i]));
    }
}

/// Two sequences on which `p` agrees pointwise have the same first match.
pub proof fn lemma_first_match_same<A>(s1: Seq<A>, s2: Seq<A>, p: spec_fn(A) -> bool)
    requires
        s1.len() == s2.len(),
        forall|j: int|
            #![trigger p(s1[j])]
            #![trigger p(s2[j])]
            0 <= j < s1.len() ==> (p(s1[j]) <==> p(s2[j])),
    ensures
        first_match(s1, p) == first_match(s2, p),
{
    if exists|i: int| is_first_match(s1, p, i) {
        let i = choose|i: int| is_first_match(s1, p, i);
        assert(is_first_match(s2, p, i));
        lemma_first_match_at(s1, p, i);
        lemma_first_match_at(s2, p, i);
    } else {
        if exists|i: int| is_first_match(s2, p, i) {
            let i = choose|i: int| is_first_match(s2, p, i);
            assert(is_first_match(s1, p, i));
        }
    }
}

/// Any match guarantees a first match, at or before it.
pub proof fn lemma_first_match_exists<A>(s: Seq<A>, p: spec_fn(A) -> bool, i: int)
    requires
        0 <= i < s.len(),
        p(s[i]),
    ensures
        first_match(s, p) is Some,
        is_first_match(s, p, first_match(s, p)->0),
        first_match(s, p)->0 <= i,
    decreases i,
{
    if exists|k: int| 0 <= k < i && #[trigger] p(s[k]) {
        let k = choose|k: int| 0 <= k < i && #[trigger] p(s[k]);
        lemma_first_match_exists(s, p, k);
    } else {
        assert(is_first_match(s, p, i));
        lemma_first_match_at(s, p, i);
    }
}

/// When nothing satisfies `p`, there is no first match.
pub proof fn lemma_first_match_none<A>(s: Seq<A>, p: spec_fn(A) -> bool)
    requires
        forall|j: int| 0 <= j < s.len() ==> !(#[trigger] p(s[j])),
    ensures
        first_match(s, p) is None,
{
}

} // verus!
