//! A history that keeps only its newest entries.
use vstd::prelude::*;
use std::collections::VecDeque;

verus! {

/// The last `max` entries of `s`, or all of them when there are fewer.
pub open spec fn keep_last<T>(s: Seq<T>, max: nat) -> Seq<T> {
    if s.len() <= max {
        s
    } else {
        s.subrange(s.len() - max, s.len() as int)
    }
}

/// Entries in arrival order, of which only the newest `max_len` are kept
/// when entries are added.
pub struct BoundedHistory<T> {
    items: VecDeque<T>,
    max_len: usize,
}

impl<T> BoundedHistory<T> {
    /// The entries held, oldest first.
    pub closed spec fn items(&self) -> Seq<T> {
        self.items@
    }

    /// How many entries adding keeps.
    pub closed spec fn max(&self) -> nat {
        self.max_len as nat
    }

    /// Creates an empty history keeping at most `max_len` entries.
    pub fn new(max_len: usize) -> (h: Self)
        ensures
            h.items() == Seq::<T>::empty(),
            h.max() == max_len,
    {
        BoundedHistory { items: VecDeque::new(), max_len }
    }

    /// Drops the oldest entries beyond the limit.
    fn trim(&mut self)
        ensures
            final(self).items() == keep_last(old(self).items(), old(self).max()),
            final(self).max() == old(self).max(),
    {
        let ghost s = self.items@;
        let ghost start: int = 0;
        while self.items.len() > self.max_len
            invariant
                0 <= start <= s.len(),
                self.items@ == s.subrange(start, s.len() as int),
                self.max_len == old(self).max_len,
                s == old(self).items@,
                s.len() <= self.max_len ==> start == 0,
                s.len() > self.max_len ==> start <= s.len() - self.max_len,
            decreases self.items@.len(),
        {
            self.items.pop_front();
            proof {
                start = start + 1;
            }
            assert(self.items@ =~= s.subrange(start, s.len() as int));
        }
        assert(keep_last(s, self.max_len as nat) =~= self.items@);
    }

    /// Adds an entry as the newest, then keeps only the newest entries.
    pub fn push(&mut self, entry: T)
        ensures
            final(self).items() == keep_last(old(self).items().push(entry), old(self).max()),
            final(self).max() == old(self).max(),
    {
        self.items.push_back(entry);
        self.trim();
    }

    /// Number of entries held.
    pub fn len(&self) -> (n: usize)
        ensures
            n == self.items().len(),
    {
        self.items.len()
    }

    /// Whether no entry is held.
    pub fn is_empty(&self) -> (b: bool)
        ensures
            b == (self.items().len() == 0),
    {
        self.items.len() == 0
    }

    /// Entry `i`, counting from the oldest.
    pub fn get(&self, i: usize) -> (e: &T)
        requires
            i < self.items().len(),
        ensures
            *e == self.items()[i as int],
    {
        &self.items[i]
    }

    /// Changes the limit; entries beyond it go when the next entry is
    /// added.
    pub fn set_max_len(&mut self, max_len: usize)
        ensures
            final(self).items() == old(self).items(),
            final(self).max() == max_len,
    {
        self.max_len = max_len;
    }
}

impl<T: Copy> BoundedHistory<T> {
    /// Adds entries in order as the newest, then keeps only the newest
    /// entries.
    pub fn extend(&mut self, entries: &[T])
        ensures
            final(self).items() == keep_last(old(self).items() + entries@, old(self).max()),
            final(self).max() == old(self).max(),
    {
        let n = entries.len();
        let mut i: usize = 0;
        while i < n
            invariant
                i <= n,
                n == entries@.len(),
                self.items@ == old(self).items@ + entries@.subrange(0, i as int),
                self.max_len == old(self).max_len,
            decreases n - i,
        {
            self.items.push_back(entries[i]);
            i = i + 1;
            assert(entries@.subrange(0, i as int) =~= entries@.subrange(0, i - 1).push(
                entries@[i - 1],
            ));
        }
        assert(entries@.subrange(0, n as int) =~= entries@);
        self.trim();
    }
}

/// A history never holds more entries than its limit right after an entry
/// was added, and the newest entry is the one added last.
pub proof fn lemma_keep_last_bounds<T>(s: Seq<T>, max: nat)
    ensures
        keep_last(s, max).len() <= max || keep_last(s, max) == s,
        keep_last(s, max).len() == if s.len() <= max {
            s.len()
        } else {
            max
        },
        max > 0 && s.len() > 0 ==> keep_last(s, max).last() == s.last(),
{
}

} // verus!
