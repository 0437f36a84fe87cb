//! The two-layer memory: a short-term ring buffer that drops its oldest
//! item when full, and a long-term store that keeps one item per content
//! hash.

use vstd::prelude::*;
use vstd::string::*;
use vstd::utf8::encode_utf8;

use crate::existential::{hex_encode, hex_text, sha256, sha256_of};

verus! {

/// The short-term buffer after pushing `x`: when it holds `capacity` or
/// more items its oldest (if any) goes first.
pub open spec fn ring_after<T>(s: Seq<T>, capacity: nat, x: T) -> Seq<T> {
    if s.len() >= capacity && s.len() > 0 {
        s.drop_first().push(x)
    } else {
        s.push(x)
    }
}

/// Short-term memory: a ring buffer of fixed capacity.
#[derive(Debug)]
pub struct ShortTermMemory<T> {
    capacity: usize,
    buffer: Vec<T>,
}

impl<T> ShortTermMemory<T> {
    /// The items held, oldest first.
    pub closed spec fn items_view(&self) -> Seq<T> {
        self.buffer@
    }

    /// The capacity.
    pub closed spec fn cap(&self) -> nat {
        self.capacity as nat
    }

    /// The buffer's invariant: it holds at most its capacity (at most one
    /// item when the capacity is zero).
    pub closed spec fn wf(&self) -> bool {
        self.buffer@.len() <= if self.capacity > 0 {
            self.capacity as nat
        } else {
            1
        }
    }

    /// An empty buffer of `capacity` items.
    pub fn new(capacity: usize) -> (m: Self)
        ensures
            m.wf(),
            m.items_view().len() == 0,
            m.cap() == capacity,
    {
        ShortTermMemory { capacity, buffer: Vec::new() }
    }

    /// Pushes an item, dropping the oldest when the buffer is full.
    pub fn push(&mut self, item: T)
        requires
            old(self).wf(),
        ensures
            final(self).wf(),
            final(self).cap() == old(self).cap(),
            final(self).items_view() == ring_after(old(self).items_view(), old(self).cap(), item),
    {
        let ghost before = self.buffer@;
        if self.buffer.len() >= self.capacity && self.buffer.len() > 0 {
            self.buffer.remove(0);
            assert(self.buffer@ =~= before.drop_first());
        }
        self.buffer.push(item);
    }

    /// The items, oldest first.
    pub fn items(&self) -> (s: &[T])
        ensures
            s@ == self.items_view(),
    {
        self.buffer.as_slice()
    }

    /// Number of items held.
    pub fn len(&self) -> (n: usize)
        ensures
            n == self.items_view().len(),
    {
        self.buffer.len()
    }

    /// Whether no item is held.
    pub fn is_empty(&self) -> (b: bool)
        ensures
            b == (self.items_view().len() == 0),
    {
        self.buffer.len() == 0
    }

    /// The capacity.
    pub fn capacity(&self) -> (c: usize)
        ensures
            c == self.cap(),
    {
        self.capacity
    }
}

/// Long-term memory: one item per content hash.
#[derive(Debug)]
pub struct LongTermMemory<T> {
    hashes: Vec<String>,
    items: Vec<T>,
}

impl<T> LongTermMemory<T> {
    /// The stored hashes, in order of insertion.
    pub closed spec fn hash_list(&self) -> Seq<Seq<char>> {
        self.hashes@.map_values(|h: String| h@)
    }

    /// The stored items, parallel to the hashes.
    pub closed spec fn item_list(&self) -> Seq<T> {
        self.items@
    }

    /// The store's invariant: one item per hash, hashes distinct.
    pub closed spec fn wf(&self) -> bool {
        &&& self.hashes@.len() == self.items@.len()
        &&& self.hash_list().no_duplicates()
    }

    /// An empty store.
    pub fn new() -> (m: Self)
        ensures
            m.wf(),
            m.hash_list().len() == 0,
            m.item_list().len() == 0,
    {
        let m = LongTermMemory { hashes: Vec::new(), items: Vec::new() };
        assert(m.hash_list() =~= Seq::empty());
        m
    }

    fn find(&self, hash: &str) -> (r: Option<usize>)
        requires
            self.wf(),
        ensures
            match r {
                Some(i) => i < self.hash_list().len() && self.hash_list()[i as int] == hash@,
                None => !self.hash_list().contains(hash@),
            },
    {
        let mut i: usize = 0;
        while i < self.hashes.len()
            invariant
                i <= self.hashes@.len(),
                forall|k: int| 0 <= k < i ==> self.hashes@[k]@ != hash@,
            decreases self.hashes@.len() - i,
        {
            if crate::text::str_eq(self.hashes[i].as_str(), hash) {
                return Some(i);
            }
            i = i + 1;
        }
        proof {
            if self.hash_list().contains(hash@) {
                let t = choose|t: int| 0 <= t < self.hash_list().len() && self.hash_list()[t] == hash@;
                assert(self.hashes@[t]@ == hash@);
            }
        }
        None
    }

    /// Stores `item` under `hash` unless an item with that hash is stored;
    /// returns whether it was stored.
    pub fn insert(&mut self, hash: String, item: T) -> (stored: bool)
        requires
            old(self).wf(),
        ensures
            final(self).wf(),
            stored == !old(self).hash_list().contains(hash@),
            stored ==> final(self).hash_list() == old(self).hash_list().push(hash@)
                && final(self).item_list() == old(self).item_list().push(item),
            !stored ==> final(self).hash_list() == old(self).hash_list() && final(self).item_list()
                == old(self).item_list(),
    {
        match self.find(hash.as_str()) {
            Some(_) => false,
            None => {
                let ghost before = self.hash_list();
                let ghost hv = hash@;
                self.hashes.push(hash);
                self.items.push(item);
                assert(self.hash_list() =~= before.push(hv));
                true
            },
        }
    }

    /// The item stored under `hash`, if any.
    pub fn get(&self, hash: &str) -> (r: Option<&T>)
        requires
            self.wf(),
        ensures
            match r {
                Some(x) => exists|i: int|
                    0 <= i < self.hash_list().len() && self.hash_list()[i] == hash@ && self.item_list()[i] == *x,
                None => !self.hash_list().contains(hash@),
            },
    {
        match self.find(hash) {
            Some(i) => Some(&self.items[i]),
            None => None,
        }
    }

    /// Number of items stored.
    pub fn len(&self) -> (n: usize)
        requires
            self.wf(),
        ensures
            n == self.item_list().len(),
    {
        self.items.len()
    }

    /// The items, in order of insertion.
    pub fn items(&self) -> (s: &[T])
        ensures
            s@ == self.item_list(),
    {
        self.items.as_slice()
    }
}

/// What a read gives back of a write: after an item is stored under a new
/// hash, the only position holding that hash holds that item, so `get`
/// returns it.
pub proof fn law_read_back<T>(hashes: Seq<Seq<char>>, items: Seq<T>, h: Seq<char>, x: T)
    requires
        hashes.len() == items.len(),
        hashes.no_duplicates(),
        !hashes.contains(h),
    ensures
        hashes.push(h).no_duplicates(),
        forall|i: int| 0 <= i < hashes.len() + 1 && #[trigger] hashes.push(h)[i] == h ==> items.push(x)[i] == x,
{
    assert forall|i: int| 0 <= i < hashes.len() + 1 && #[trigger] hashes.push(h)[i] == h implies items.push(x)[i]
        == x by {
        if i < hashes.len() {
            assert(hashes[i] == h);
            assert(hashes.contains(h));
        }
    }
    assert forall|a: int, b: int| 0 <= a < b < hashes.push(h).len() implies hashes.push(h)[a] != hashes.push(h)[b] by {
        if b == hashes.len() {
            assert(hashes.push(h)[a] == hashes[a]);
            if hashes[a] == h {
                assert(hashes.contains(h));
            }
        }
    }
}

/// The content hash of a canonical text: the lowercase hex SHA-256 digest
/// of its UTF-8 bytes.
pub fn content_hash(canonical: &str) -> (h: String)
    ensures
        h@ == hex_text(sha256_of(encode_utf8(canonical@))),
{
    let digest = sha256(canonical.as_bytes());
    hex_encode(digest.as_slice())
}

} // verus!
