//! The first element of a sequence that satisfies a condition.

use vstd::prelude::*;

verus! {

/// The index of the first element of `s` that satisfies `p`, if any.
pub open spec fn first_where<T>(s: Seq<T>, p: spec_fn(T) -> bool) -> Option<int> {
    if exists|i: int| 0 <= i < s.len() && p(s[i]) {
        Some(choose|i: int| 0 <= i < s.len() && p(s[i]) && forall|j: int| 0 <= j < i ==> !p(s[j]))
    } else {
        None
    }
}

/// Index `k` is the first element satisfying `p`.
pub proof fn lemma_first_where<T>(s: Seq<T>, p: spec_fn(T) -> bool, k: int)
    requires
        0 <= k < s.len(),
        p(s[k]),
        forall|j: int| 0 <= j < k ==> !p(s[j]),
    ensures
        first_where(s, p) == Some(k),
{
    let c = choose|i: int| 0 <= i < s.len() && p(s[i]) && forall|j: int| 0 <= j < i ==> !p(s[j]);
    assert(0 <= c < s.len() && p(s[c]) && forall|j: int| 0 <= j < c ==> !p(s[j]));
    if c < k {
        assert(!p(s[c]));
    }
    if k < c {
        assert(!p(s[k]));
    }
}

/// Conditions that agree on every element find the same first element.
pub proof fn lemma_first_where_agree<T>(s: Seq<T>, p: spec_fn(T) -> bool, q: spec_fn(T) -> bool)
    requires
        forall|i: int| 0 <= i < s.len() ==> p(#[trigger] s[i]) == q(s[i]),
    ensures
        first_where(s, p) == first_where(s, q),
{
    if exists|i: int| 0 <= i < s.len() && p(s[i]) {
        let w = choose|i: int| 0 <= i < s.len() && p(s[i]);
        let m = lemma_least_where(s, p, w);
        assert forall|j: int| 0 <= j < m implies !q(#[trigger] s[j]) by {
            assert(!p(s[j]));
        }
        lemma_first_where(s, p, m);
        lemma_first_where(s, q, m);
    } else {
        assert forall|i: int| 0 <= i < s.len() implies !q(#[trigger] s[i]) by {
            assert(!p(s[i]));
        }
    }
}

/// An element satisfying `p` at `k` means a first one, at or before `k`.
pub proof fn lemma_least_where<T>(s: Seq<T>, p: spec_fn(T) -> bool, k: int) -> (m: int)
    requires
        0 <= k < s.len(),
        p(s[k]),
    ensures
        0 <= m <= k,
        p(s[m]),
        forall|j: int| 0 <= j < m ==> !p(#[trigger] s[j]),
    decreases k,
{
    if exists|j: int| 0 <= j < k && p(s[j]) {
        let j = choose|j: int| 0 <= j < k && p(s[j]);
        lemma_least_where(s, p, j)
    } else {
        k
    }
}

/// The first index below `n` that satisfies `p`, if any.
pub open spec fn first_index(n: nat, p: spec_fn(int) -> bool) -> Option<int> {
    if exists|i: int| 0 <= i < n && #[trigger] p(i) {
        Some(choose|i: int| 0 <= i < n && #[trigger] p(i) && forall|j: int| 0 <= j < i ==> !#[trigger] p(j))
    } else {
        None
    }
}

/// Index `k` is the first index satisfying `p`.
pub proof fn lemma_first_index(n: nat, p: spec_fn(int) -> bool, k: int)
    requires
        0 <= k < n,
        p(k),
        forall|j: int| 0 <= j < k ==> !#[trigger] p(j),
    ensures
        first_index(n, p) == Some(k),
{
    let c = choose|i: int| 0 <= i < n && #[trigger] p(i) && forall|j: int| 0 <= j < i ==> !#[trigger] p(j);
    assert(0 <= c < n && p(c) && forall|j: int| 0 <= j < c ==> !#[trigger] p(j));
    if c < k {
        assert(!p(c));
    }
    if k < c {
        assert(!p(k));
    }
}

/// The outcome of a search that walks a table in order, stops at its first
/// match and fails at the first entry it cannot read: given what the search
/// found among the entries before the first fault, and that fault, the
/// match if there was one, else the fault, else nothing.
pub fn found_or_fault<T, E>(found: Option<T>, fault: Option<E>) -> (r: Result<Option<T>, E>)
    ensures
        found is Some ==> r == Ok::<Option<T>, E>(found),
        found is None ==> r == match fault {
            Some(e) => Err::<Option<T>, E>(e),
            None => Ok::<Option<T>, E>(None),
        },
{
    match found {
        Some(x) => Ok(Some(x)),
        None => match fault {
            Some(e) => Err(e),
            None => Ok(None),
        },
    }
}

} // verus!
