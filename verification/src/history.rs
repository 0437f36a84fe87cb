//! Bounded histories: the newest entries up to a maximum count.

use vstd::prelude::*;

verus! {

/// The last `max` items of `s` (all of them when there are fewer).
pub open spec fn last_n<T>(s: Seq<T>, max: nat) -> Seq<T> {
    if s.len() > max {
        s.subrange(s.len() - max, s.len() as int)
    } else {
        s
    }
}

/// A history that keeps the newest `max` entries, oldest first.
#[derive(Debug)]
pub struct BoundedLog<T> {
    items: Vec<T>,
    max: usize,
}

impl<T> BoundedLog<T> {
    /// The entries kept, oldest first.
    pub closed spec fn entries(&self) -> Seq<T> {
        self.items@
    }

    /// How many entries are kept at most.
    pub closed spec fn bound(&self) -> nat {
        self.max as nat
    }

    /// The log's invariant: it is within its bound.
    pub closed spec fn wf(&self) -> bool {
        self.items@.len() <= self.max
    }

    /// An empty log keeping at most `max` entries.
    pub fn new(max: usize) -> (l: Self)
        ensures
            l.wf(),
            l.entries().len() == 0,
            l.bound() == max,
    {
        BoundedLog { items: Vec::new(), max }
    }

    /// Appends an entry; the oldest goes when more than `max` are held.
    pub fn push(&mut self, item: T)
        requires
            old(self).wf(),
        ensures
            final(self).wf(),
            final(self).bound() == old(self).bound(),
            final(self).entries() == last_n(old(self).entries().push(item), old(self).bound()),
    {
        let ghost before = self.items@.push(item);
        self.items.push(item);
        if self.items.len() > self.max {
            self.items.remove(0);
            assert(self.items@ =~= before.subrange(before.len() - self.max, before.len() as int));
        }
    }

    /// The entries, oldest first.
    pub fn as_slice(&self) -> (s: &[T])
        ensures
            s@ == self.entries(),
    {
        self.items.as_slice()
    }

    /// Number of entries held.
    pub fn len(&self) -> (n: usize)
        ensures
            n == self.entries().len(),
    {
        self.items.len()
    }
}

/// Whatever is appended, a bounded log never holds more than its bound, and
/// its newest entry is the last one appended (when the bound is not zero).
pub proof fn law_bounded_log_keeps_newest<T>(s: Seq<T>, max: nat, item: T)
    requires
        s.len() <= max,
    ensures
        last_n(s.push(item), max).len() <= max,
        max > 0 ==> last_n(s.push(item), max).last() == item,
        max > 0 ==> last_n(s.push(item), max).len() == if s.len() < max {
            s.len() + 1
        } else {
            max
        },
{
}

} // verus!
