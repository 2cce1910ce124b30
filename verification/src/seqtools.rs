//! Sequence helpers shared by the stores: first-match lookup and
//! offset/count windows over listings.

use vstd::prelude::*;

verus! {

/// The first element of `s` satisfying `p`, scanning left to right.
pub open spec fn spec_find<A>(s: Seq<A>, p: spec_fn(A) -> bool) -> Option<A>
    decreases s.len(),
{
    if s.len() == 0 {
        None
    } else if p(s[0]) {
        Some(s[0])
    } else {
        spec_find(s.drop_first(), p)
    }
}

/// Passing over a non-match leaves the search over the remainder unchanged.
pub proof fn lemma_find_step<A>(s: Seq<A>, p: spec_fn(A) -> bool, i: int)
    requires
        0 <= i < s.len(),
        !p(s[i]),
    ensures
        spec_find(s.skip(i), p) == spec_find(s.skip(i + 1), p),
{
    assert(s.skip(i).drop_first() =~= s.skip(i + 1));
}

/// A match at position `i` settles the search over the remainder from `i`.
pub proof fn lemma_find_hit<A>(s: Seq<A>, p: spec_fn(A) -> bool, i: int)
    requires
        0 <= i < s.len(),
        p(s[i]),
    ensures
        spec_find(s.skip(i), p) == Some(s[i]),
{
    assert(s.skip(i)[0] == s[i]);
}

/// A successful search returns a member of `s` satisfying `p`.
pub proof fn lemma_find_some<A>(s: Seq<A>, p: spec_fn(A) -> bool)
    requires
        spec_find(s, p) is Some,
    ensures
        p(spec_find(s, p)->0),
        exists|i: int| 0 <= i < s.len() && s[i] == spec_find(s, p)->0,
    decreases s.len(),
{
    if s.len() != 0 && !p(s[0]) {
        lemma_find_some(s.drop_first(), p);
        let j = choose|j: int|
            0 <= j < s.drop_first().len() && s.drop_first()[j] == spec_find(s.drop_first(), p)->0;
        assert(s[j + 1] == spec_find(s, p)->0);
    }
}

/// A failed search means no member satisfies `p`.
pub proof fn lemma_find_none<A>(s: Seq<A>, p: spec_fn(A) -> bool)
    requires
        spec_find(s, p) is None,
    ensures
        forall|i: int| 0 <= i < s.len() ==> !p(#[trigger] s[i]),
    decreases s.len(),
{
    if s.len() != 0 {
        lemma_find_none(s.drop_first(), p);
        assert forall|i: int| 0 <= i < s.len() implies !p(s[i]) by {
            if i > 0 {
                assert(s.drop_first()[i - 1] == s[i]);
            }
        }
    }
}

/// Appending an element is only seen by a search that failed on the prefix.
pub proof fn lemma_find_push<A>(s: Seq<A>, p: spec_fn(A) -> bool, x: A)
    ensures
        spec_find(s.push(x), p) == (match spec_find(s, p) {
            Some(u) => Some(u),
            None => if p(x) {
                Some(x)
            } else {
                None
            },
        }),
    decreases s.len(),
{
    if s.len() == 0 {
        assert(s.push(x)[0] == x);
        if p(x) {
            assert(spec_find(s.push(x), p) == Some(x));
        } else {
            assert(s.push(x).drop_first() =~= Seq::<A>::empty());
            assert(spec_find(s.push(x), p) == spec_find(s.push(x).drop_first(), p));
            assert(spec_find(Seq::<A>::empty(), p) is None);
        }
    } else {
        assert(s.push(x)[0] == s[0]);
        assert(s.push(x).drop_first() =~= s.drop_first().push(x));
        lemma_find_push(s.drop_first(), p, x);
        if p(s[0]) {
            assert(spec_find(s.push(x), p) == Some(s[0]));
            assert(spec_find(s, p) == Some(s[0]));
        } else {
            assert(spec_find(s.push(x), p) == spec_find(s.drop_first().push(x), p));
            assert(spec_find(s, p) == spec_find(s.drop_first(), p));
        }
    }
}

/// The offset/count window over a listing: skip the first `offset` elements,
/// then keep at most `count`.
pub open spec fn spec_window<A>(s: Seq<A>, offset: int, count: int) -> Seq<A> {
    if offset < 0 || count < 0 || offset >= s.len() {
        Seq::empty()
    } else if offset + count > s.len() {
        s.subrange(offset, s.len() as int)
    } else {
        s.subrange(offset, offset + count)
    }
}

} // verus!

verus! {

/// A match at `k` with no match before it is what the search returns.
pub proof fn lemma_find_first_match<A>(s: Seq<A>, p: spec_fn(A) -> bool, k: int)
    requires
        0 <= k < s.len(),
        p(s[k]),
        forall|j: int| 0 <= j < k ==> !p(#[trigger] s[j]),
    ensures
        spec_find(s, p) == Some(s[k]),
    decreases k,
{
    if k == 0 {
    } else {
        assert forall|j: int| 0 <= j < k - 1 implies !p(#[trigger] s.drop_first()[j]) by {
            assert(s.drop_first()[j] == s[j + 1]);
        }
        assert(s.drop_first()[k - 1] == s[k]);
        lemma_find_first_match(s.drop_first(), p, k - 1);
    }
}

/// Replacing a non-matching element with another non-matching one leaves
/// the search unchanged.
pub proof fn lemma_find_update_nomatch<A>(s: Seq<A>, p: spec_fn(A) -> bool, k: int, v: A)
    requires
        0 <= k < s.len(),
        !p(s[k]),
        !p(v),
    ensures
        spec_find(s.update(k, v), p) == spec_find(s, p),
    decreases s.len(),
{
    let u = s.update(k, v);
    if k == 0 {
        assert(u[0] == v);
        assert(u.drop_first() =~= s.drop_first());
    } else {
        assert(u[0] == s[0]);
        assert(u.drop_first() =~= s.drop_first().update(k - 1, v));
        if !p(s[0]) {
            assert(s.drop_first()[k - 1] == s[k]);
            lemma_find_update_nomatch(s.drop_first(), p, k - 1, v);
        }
    }
}

} // verus!
