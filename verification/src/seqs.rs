//! The first position in a sequence whose element satisfies a predicate,
//! the lookup rule that every search of the journal follows.
use vstd::prelude::*;

verus! {

/// `i` is the first position of `s` whose element satisfies `p`.
pub open spec fn is_first<A>(s: Seq<A>, p: spec_fn(A) -> bool, i: int) -> bool {
    &&& 0 <= i < s.len()
    &&& p(s[i])
    &&& forall|j: int| 0 <= j < i ==> !p(#[trigger] s[j])
}

/// The first position of `s` whose element satisfies `p`, if any.
pub open spec fn first_pos<A>(s: Seq<A>, p: spec_fn(A) -> bool) -> Option<int> {
    if exists|i: int| is_first(s, p, i) {
        Some(choose|i: int| is_first(s, p, i))
    } else {
        None
    }
}

/// The first matching element of `s`, if any.
pub open spec fn first_match<A>(s: Seq<A>, p: spec_fn(A) -> bool) -> Option<A> {
    match first_pos(s, p) {
        Some(i) => Some(s[i]),
        None => None,
    }
}

/// A first match found at `i` is the first position.
pub proof fn lemma_first_pos_found<A>(s: Seq<A>, p: spec_fn(A) -> bool, i: int)
    requires
        is_first(s, p, i),
    ensures
        first_pos(s, p) == Some(i),
{
    let k = choose|k: int| is_first(s, p, k);
    assert(is_first(s, p, k));
    if k < i {
        assert(!p(s[k]));
    } else if i < k {
        assert(!p(s[i]));
    }
}

/// With no match there is no first position.
pub proof fn lemma_first_pos_none<A>(s: Seq<A>, p: spec_fn(A) -> bool)
    requires
        forall|j: int| 0 <= j < s.len() ==> !p(#[trigger] s[j]),
    ensures
        first_pos(s, p) is None,
{
    if exists|i: int| is_first(s, p, i) {
        let k = choose|k: int| is_first(s, p, k);
        assert(p(s[k]));
    }
}

/// If some element matches, the first match exists and is no later than it.
pub proof fn lemma_some_first<A>(s: Seq<A>, p: spec_fn(A) -> bool, j: int)
    requires
        0 <= j < s.len(),
        p(s[j]),
    ensures
        first_pos(s, p) matches Some(i) && i <= j,
    decreases j,
{
    if forall|k: int| 0 <= k < j ==> !p(#[trigger] s[k]) {
        lemma_first_pos_found(s, p, j);
    } else {
        let k = choose|k: int| 0 <= k < j && !!p(#[trigger] s[k]);
        lemma_some_first(s, p, k);
    }
}

/// The elements of `s` that satisfy `p`, in order.
pub open spec fn filt<A>(s: Seq<A>, p: spec_fn(A) -> bool) -> Seq<A>
    decreases s.len(),
{
    if s.len() == 0 {
        Seq::empty()
    } else if p(s.last()) {
        filt(s.drop_last(), p).push(s.last())
    } else {
        filt(s.drop_last(), p)
    }
}

/// Filtering a prefix one element longer adds that element when it satisfies `p`.
pub proof fn lemma_filt_take_step<A>(s: Seq<A>, p: spec_fn(A) -> bool, i: int)
    requires
        0 <= i < s.len(),
    ensures
        filt(s.take(i + 1), p) == if p(s[i]) { filt(s.take(i), p).push(s[i]) } else { filt(s.take(i), p) },
{
    assert(s.take(i + 1).drop_last() =~= s.take(i));
    assert(s.take(i + 1).last() == s[i]);
}

/// Every element of a filtered sequence satisfies the filter and comes from `s`.
pub proof fn lemma_filt_sound<A>(s: Seq<A>, p: spec_fn(A) -> bool)
    ensures
        filt(s, p).len() <= s.len(),
        forall|k: int| 0 <= k < filt(s, p).len() ==> p(#[trigger] filt(s, p)[k]) && s.contains(filt(s, p)[k]),
    decreases s.len(),
{
    if s.len() > 0 {
        lemma_filt_sound(s.drop_last(), p);
        let r = filt(s.drop_last(), p);
        assert forall|k: int| 0 <= k < filt(s, p).len() implies p(#[trigger] filt(s, p)[k]) && s.contains(
            filt(s, p)[k],
        ) by {
            if k < r.len() {
                let x = r[k];
                assert(s.drop_last().contains(x));
                let j = choose|j: int| 0 <= j < s.drop_last().len() && s.drop_last()[j] == x;
                assert(s[j] == x);
            } else {
                assert(s[s.len() - 1] == s.last());
            }
        }
    }
}

/// Every element of `s` that satisfies `p` is kept by the filter.
pub proof fn lemma_filt_complete<A>(s: Seq<A>, p: spec_fn(A) -> bool, j: int)
    requires
        0 <= j < s.len(),
        p(s[j]),
    ensures
        filt(s, p).contains(s[j]),
    decreases s.len(),
{
    if j == s.len() - 1 {
        assert(s.last() == s[j]);
        assert(filt(s, p)[filt(s, p).len() - 1] == s[j]);
    } else {
        assert(s.drop_last()[j] == s[j]);
        lemma_filt_complete(s.drop_last(), p, j);
        let r = filt(s.drop_last(), p);
        let k = choose|k: int| 0 <= k < r.len() && r[k] == s[j];
        if p(s.last()) {
            assert(filt(s, p)[k] == s[j]);
        }
    }
}

/// A filter that every element satisfies keeps the whole sequence.
pub proof fn lemma_filt_all<A>(s: Seq<A>, p: spec_fn(A) -> bool)
    requires
        forall|k: int| 0 <= k < s.len() ==> p(#[trigger] s[k]),
    ensures
        filt(s, p) == s,
    decreases s.len(),
{
    if s.len() > 0 {
        assert forall|k: int| 0 <= k < s.drop_last().len() implies p(#[trigger] s.drop_last()[k]) by {
            assert(s.drop_last()[k] == s[k]);
        }
        lemma_filt_all(s.drop_last(), p);
        assert(p(s[s.len() - 1]));
        assert(s.drop_last().push(s.last()) =~= s);
    }
}

/// Filtering distributes over concatenation.
pub proof fn lemma_filt_concat<A>(a: Seq<A>, b: Seq<A>, p: spec_fn(A) -> bool)
    ensures
        filt(a + b, p) == filt(a, p) + filt(b, p),
    decreases b.len(),
{
    if b.len() == 0 {
        assert(a + b =~= a);
        assert(filt(a, p) + filt(b, p) =~= filt(a, p));
    } else {
        lemma_filt_concat(a, b.drop_last(), p);
        assert((a + b).drop_last() =~= a + b.drop_last());
        assert((a + b).last() == b.last());
        assert(filt(a, p) + filt(b.drop_last(), p).push(b.last()) =~= (filt(a, p) + filt(b.drop_last(), p)).push(
            b.last(),
        ));
    }
}

/// Filtering keeps nothing when no element satisfies `p`.
pub proof fn lemma_filt_none<A>(s: Seq<A>, p: spec_fn(A) -> bool)
    requires
        forall|k: int| 0 <= k < s.len() ==> !p(#[trigger] s[k]),
    ensures
        filt(s, p) == Seq::<A>::empty(),
    decreases s.len(),
{
    if s.len() > 0 {
        assert(!p(s[s.len() - 1]));
        lemma_filt_none(s.drop_last(), p);
    }
}

/// `i` is the last position of `s` whose element satisfies `p`.
pub open spec fn is_last<A>(s: Seq<A>, p: spec_fn(A) -> bool, i: int) -> bool {
    &&& 0 <= i < s.len()
    &&& p(s[i])
    &&& forall|j: int| i < j < s.len() ==> !p(#[trigger] s[j])
}

/// The last position of `s` whose element satisfies `p`, if any.
pub open spec fn last_pos<A>(s: Seq<A>, p: spec_fn(A) -> bool) -> Option<int> {
    if exists|i: int| is_last(s, p, i) {
        Some(choose|i: int| is_last(s, p, i))
    } else {
        None
    }
}

/// A last match found at `i` is the last position.
pub proof fn lemma_last_pos_found<A>(s: Seq<A>, p: spec_fn(A) -> bool, i: int)
    requires
        is_last(s, p, i),
    ensures
        last_pos(s, p) == Some(i),
{
    let k = choose|k: int| is_last(s, p, k);
    assert(is_last(s, p, k));
    if k < i {
        assert(!p(s[i]));
    } else if i < k {
        assert(!p(s[k]));
    }
}

/// With no match there is no last position.
pub proof fn lemma_last_pos_none<A>(s: Seq<A>, p: spec_fn(A) -> bool)
    requires
        forall|j: int| 0 <= j < s.len() ==> !p(#[trigger] s[j]),
    ensures
        last_pos(s, p) is None,
{
    if exists|i: int| is_last(s, p, i) {
        let k = choose|k: int| is_last(s, p, k);
        assert(p(s[k]));
    }
}

} // verus!
