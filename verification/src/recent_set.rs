//! A bounded set that remembers what was seen most recently.

use std::collections::VecDeque;
use vstd::laws_eq;
use vstd::prelude::*;

verus! {

/// The values held by a recent set, the one seen longest ago first, after `value` was seen.
pub open spec fn seen<T>(entries: Seq<T>, capacity: nat, value: T) -> Seq<T> {
    if capacity == 0 {
        entries
    } else if entries.contains(value) {
        entries.remove(entries.index_of_first(value)->0).push(value)
    } else if entries.len() >= capacity {
        entries.skip(1).push(value)
    } else {
        entries.push(value)
    }
}

/// The values held after the given ones were seen in turn.
pub open spec fn seen_all<T>(entries: Seq<T>, capacity: nat, values: Seq<T>) -> Seq<T>
    decreases values.len(),
{
    if values.len() == 0 {
        entries
    } else {
        seen(seen_all(entries, capacity, values.drop_last()), capacity, values.last())
    }
}

/// A set of at most `capacity` values. Where it is full, a new value displaces the one that was
/// seen longest ago.
pub struct BoundedRecentSet<T> {
    capacity: usize,
    entries: VecDeque<T>,
}

impl<T> BoundedRecentSet<T> {
    /// The values held, the one seen longest ago first.
    pub closed spec fn entries(&self) -> Seq<T> {
        self.entries@
    }

    /// The most values that are held.
    pub closed spec fn capacity(&self) -> nat {
        self.capacity as nat
    }

    /// The capacity is kept and no value is held twice.
    pub open spec fn wf(&self) -> bool {
        &&& self.entries().len() <= self.capacity()
        &&& self.entries().no_duplicates()
    }

    /// An empty set.
    pub fn new(capacity: usize) -> (r: Self)
        ensures
            r.wf(),
            r.capacity() == capacity,
            r.entries() == Seq::<T>::empty(),
    {
        BoundedRecentSet { capacity, entries: VecDeque::new() }
    }
}

impl<T: Eq> BoundedRecentSet<T> {
    /// Returns true for a newly retained value. Existing values refresh their position but are not
    /// reported again; after eviction a later observation is intentionally new again.
    pub fn insert(&mut self, value: T) -> (r: bool)
        requires
            old(self).wf(),
            laws_eq::obeys_concrete_eq::<T>(),
        ensures
            final(self).wf(),
            final(self).capacity() == old(self).capacity(),
            final(self).entries() == seen(old(self).entries(), old(self).capacity(), value),
            r == (old(self).capacity() > 0 && !old(self).entries().contains(value)),
    {
        proof {
            lemma_seen(self.entries@, self.capacity as nat, value);
        }
        if self.capacity == 0 {
            return false;
        }
        match self.position(&value) {
            Some(i) => {
                self.entries.remove(i);
                self.entries.push_back(value);
                false
            },
            None => {
                if self.entries.len() >= self.capacity {
                    self.entries.pop_front();
                    assert(self.entries@ =~= old(self).entries@.skip(1));
                }
                self.entries.push_back(value);
                true
            },
        }
    }

    fn position(&self, value: &T) -> (r: Option<usize>)
        requires
            laws_eq::obeys_concrete_eq::<T>(),
        ensures
            match r {
                Some(i) => self.entries@.contains(*value) && self.entries@.index_of_first(*value)
                    == Some(i as int) && i < self.entries@.len(),
                None => !self.entries@.contains(*value),
            },
    {
        reveal(laws_eq::obeys_concrete_eq);
        let mut i: usize = 0;
        while i < self.entries.len()
            invariant
                0 <= i <= self.entries@.len(),
                laws_eq::obeys_concrete_eq::<T>(),
                forall|j: int| 0 <= j < i ==> self.entries@[j] != *value,
            decreases self.entries@.len() - i,
        {
            reveal(laws_eq::obeys_concrete_eq);
            if self.entries[i] == *value {
                proof {
                    assert(self.entries@[i as int] == *value);
                    self.entries@.index_of_first_ensures(*value);
                }
                return Some(i);
            }
            i += 1;
        }
        None
    }
}

impl<T> BoundedRecentSet<T> {
    /// Takes out the value that was seen longest ago.
    pub fn pop_front(&mut self) -> (r: Option<T>)
        requires
            old(self).wf(),
        ensures
            final(self).wf(),
            final(self).capacity() == old(self).capacity(),
            match r {
                Some(value) => old(self).entries().len() > 0 && value == old(self).entries()[0]
                    && final(self).entries() == old(self).entries().skip(1),
                None => old(self).entries().len() == 0 && final(self).entries() == old(
                    self,
                ).entries(),
            },
    {
        let r = self.entries.pop_front();
        proof {
            if r is Some {
                assert(self.entries@ =~= old(self).entries@.skip(1));
            }
        }
        r
    }

    /// Forgets every value.
    pub fn clear(&mut self)
        ensures
            final(self).wf(),
            final(self).capacity() == old(self).capacity(),
            final(self).entries() == Seq::<T>::empty(),
    {
        self.entries.clear();
    }

    /// The number of values held.
    pub fn len(&self) -> (r: usize)
        ensures
            r == self.entries().len(),
    {
        self.entries.len()
    }
}

/// Seeing a value keeps the bound and holds no value twice.
proof fn lemma_seen<T>(entries: Seq<T>, capacity: nat, value: T)
    requires
        entries.len() <= capacity,
        entries.no_duplicates(),
    ensures
        seen(entries, capacity, value).len() <= capacity,
        seen(entries, capacity, value).no_duplicates(),
        capacity > 0 ==> seen(entries, capacity, value).last() == value && seen(
            entries,
            capacity,
            value,
        ).len() > 0,
{
    if entries.contains(value) {
        entries.index_of_first_ensures(value);
        let i = entries.index_of_first(value)->0;
        let rest = entries.remove(i);
        assert forall|j: int| 0 <= j < rest.len() implies rest[j] != value by {
            if j < i {
                assert(rest[j] == entries[j]);
            } else {
                assert(rest[j] == entries[j + 1]);
            }
        }
    }
}

/// The values seen since a given one push it out no sooner than the capacity allows: a value just
/// seen is still held after fewer than `capacity` further values were seen.
pub proof fn law_recent_values_stay<T>(entries: Seq<T>, capacity: nat, value: T, later: Seq<T>)
    requires
        entries.len() <= capacity,
        entries.no_duplicates(),
        later.len() < capacity,
    ensures
        seen_all(seen(entries, capacity, value), capacity, later).contains(value),
{
    lemma_recent_position(entries, capacity, value, later);
}

proof fn lemma_recent_position<T>(entries: Seq<T>, capacity: nat, value: T, later: Seq<T>)
    requires
        entries.len() <= capacity,
        entries.no_duplicates(),
        later.len() < capacity,
    ensures
        ({
            let held = seen_all(seen(entries, capacity, value), capacity, later);
            &&& held.len() <= capacity
            &&& held.no_duplicates()
            &&& exists|k: int|
                0 <= k < held.len() && #[trigger] held[k] == value && held.len() - 1 - k
                    <= later.len()
        }),
    decreases later.len(),
{
    let start = seen(entries, capacity, value);
    if later.len() == 0 {
        lemma_seen(entries, capacity, value);
        assert(start[start.len() - 1] == value);
    } else {
        let before = seen_all(start, capacity, later.drop_last());
        let next = later.last();
        lemma_recent_position(entries, capacity, value, later.drop_last());
        let k = choose|k: int|
            0 <= k < before.len() && #[trigger] before[k] == value && before.len() - 1 - k
                <= later.drop_last().len();
        lemma_seen(before, capacity, next);
        let held = seen(before, capacity, next);
        if before.contains(next) {
            before.index_of_first_ensures(next);
            let i = before.index_of_first(next)->0;
            if i == k {
                assert(held[held.len() - 1] == value);
            } else if i < k {
                assert(held[k - 1] == value);
            } else {
                assert(held[k] == value);
            }
        } else if before.len() >= capacity {
            assert(held[k - 1] == value);
        } else {
            assert(held[k] == value);
        }
    }
}

} // verus!
