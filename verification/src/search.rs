//! First matching element of a sequence.

use std::collections::VecDeque;
use vstd::prelude::*;

verus! {

/// `i` is the lowest index of `s` whose element satisfies `p`.
pub open spec fn is_first<T>(s: Seq<T>, p: spec_fn(T) -> bool, i: int) -> bool {
    &&& 0 <= i < s.len()
    &&& p(s[i])
    &&& forall|j: int| 0 <= j < i ==> !p(#[trigger] s[j])
}

/// The lowest index of `s` whose element satisfies `p`, if there is one.
pub open spec fn first_where<T>(s: Seq<T>, p: spec_fn(T) -> bool) -> Option<int> {
    if exists|i: int| is_first(s, p, i) {
        Some(choose|i: int| is_first(s, p, i))
    } else {
        None
    }
}

/// `s` without the element at the index, where one is given.
pub open spec fn without<T>(s: Seq<T>, at: Option<int>) -> Seq<T> {
    match at {
        Some(i) => s.remove(i),
        None => s,
    }
}

/// A lowest matching index is what [`first_where`] finds.
pub proof fn lemma_first_where_is<T>(s: Seq<T>, p: spec_fn(T) -> bool, i: int)
    requires
        is_first(s, p, i),
    ensures
        first_where(s, p) == Some(i),
{
    let k = choose|k: int| is_first(s, p, k);
    assert(is_first(s, p, k));
    if k < i {
        assert(!p(s[k]));
    }
    if i < k {
        assert(!p(s[i]));
    }
}

proof fn lemma_first_exists<T>(s: Seq<T>, p: spec_fn(T) -> bool, n: int)
    requires
        0 <= n < s.len(),
        p(s[n]),
    ensures
        exists|i: int| is_first(s, p, i),
    decreases n,
{
    if exists|j: int| 0 <= j < n && p(#[trigger] s[j]) {
        let j = choose|j: int| 0 <= j < n && p(#[trigger] s[j]);
        lemma_first_exists(s, p, j);
    } else {
        assert(is_first(s, p, n));
    }
}

/// [`first_where`] finds an index exactly when some element satisfies the predicate, and then the
/// lowest one.
pub proof fn lemma_first_where<T>(s: Seq<T>, p: spec_fn(T) -> bool)
    ensures
        match first_where(s, p) {
            Some(i) => is_first(s, p, i),
            None => forall|j: int| 0 <= j < s.len() ==> !p(#[trigger] s[j]),
        },
{
    if first_where(s, p) is None {
        assert forall|j: int| 0 <= j < s.len() implies !p(#[trigger] s[j]) by {
            if p(s[j]) {
                lemma_first_exists(s, p, j);
            }
        }
    }
}

/// Mapping the elements of a sequence moves no first match, where the predicates agree through the
/// mapping.
pub proof fn lemma_first_where_map<T, U>(
    s: Seq<T>,
    f: spec_fn(T) -> U,
    q: spec_fn(T) -> bool,
    p: spec_fn(U) -> bool,
)
    requires
        forall|t: T| #[trigger] q(t) == p(f(t)),
    ensures
        first_where(s.map_values(f), p) == first_where(s, q),
{
    let m = s.map_values(f);
    lemma_first_where(s, q);
    lemma_first_where(m, p);
    match first_where(s, q) {
        Some(i) => {
            assert(q(s[i]));
            assert forall|j: int| 0 <= j < i implies !p(#[trigger] m[j]) by {
                assert(!q(s[j]));
            }
            lemma_first_where_is(m, p, i);
        },
        None => {
            match first_where(m, p) {
                Some(i) => {
                    assert(q(s[i]) == p(m[i]));
                },
                None => {},
            }
        },
    }
}

/// Taking an element out and putting another in its place is an update.
pub proof fn lemma_replace<T>(s: Seq<T>, i: int, t: T)
    requires
        0 <= i < s.len(),
    ensures
        s.remove(i).insert(i, t) == s.update(i, t),
{
    assert(s.remove(i).insert(i, t) =~= s.update(i, t));
}

/// The position of the first element that the test accepts, where the test decides `p`.
pub(crate) fn position<T, F: Fn(&T) -> bool>(
    items: &VecDeque<T>,
    test: F,
    Ghost(p): Ghost<spec_fn(T) -> bool>,
) -> (r: Option<usize>)
    requires
        forall|t: &T| call_requires(test, (t,)),
        forall|t: &T, b: bool| call_ensures(test, (t,), b) ==> b == p(*t),
    ensures
        match r {
            Some(i) => first_where(items@, p) == Some(i as int) && is_first(items@, p, i as int),
            None => first_where(items@, p) is None && forall|j: int|
                0 <= j < items@.len() ==> !p(#[trigger] items@[j]),
        },
{
    let mut i: usize = 0;
    while i < items.len()
        invariant
            0 <= i <= items@.len(),
            forall|t: &T| call_requires(test, (t,)),
            forall|t: &T, b: bool| call_ensures(test, (t,), b) ==> b == p(*t),
            forall|j: int| 0 <= j < i ==> !p(#[trigger] items@[j]),
        decreases items@.len() - i,
    {
        if test(&items[i]) {
            proof {
                assert(p(items@[i as int]));
                lemma_first_where_is(items@, p, i as int);
            }
            return Some(i);
        }
        i += 1;
    }
    proof {
        lemma_first_where(items@, p);
    }
    None
}

} // verus!
