//! Indexes from text keys to lists of ids.

use vstd::prelude::*;

use crate::text::str_eq;

verus! {

/// Keys that occur once each.
pub open spec fn distinct_keys(ts: Seq<Seq<char>>) -> bool {
    forall|i: int, j: int| 0 <= i < j < ts.len() ==> #[trigger] ts[i] != #[trigger] ts[j]
}

/// The list paired with key `t` (the last such pair), or the empty list.
pub open spec fn lookup(ts: Seq<Seq<char>>, ls: Seq<Seq<u64>>, t: Seq<char>) -> Seq<u64>
    decreases ts.len(),
{
    if ts.len() == 0 {
        Seq::empty()
    } else if ts.last() == t {
        ls[ts.len() - 1]
    } else {
        lookup(ts.drop_last(), ls, t)
    }
}

pub proof fn lemma_lookup_at(ts: Seq<Seq<char>>, ls: Seq<Seq<u64>>, i: int)
    requires
        distinct_keys(ts),
        0 <= i < ts.len(),
    ensures
        lookup(ts, ls, ts[i]) == ls[i],
    decreases ts.len(),
{
    if i < ts.len() - 1 {
        assert(ts[i] != ts[ts.len() - 1]);
        assert(ts.drop_last()[i] == ts[i]);
        lemma_lookup_at(ts.drop_last(), ls, i);
    }
}

pub proof fn lemma_lookup_absent(ts: Seq<Seq<char>>, ls: Seq<Seq<u64>>, t: Seq<char>)
    requires
        forall|i: int| 0 <= i < ts.len() ==> #[trigger] ts[i] != t,
    ensures
        lookup(ts, ls, t) == Seq::<u64>::empty(),
    decreases ts.len(),
{
    if ts.len() > 0 {
        assert(ts[ts.len() - 1] != t);
        assert forall|i: int| 0 <= i < ts.drop_last().len() implies #[trigger] ts.drop_last()[i] != t by {
            assert(ts[i] != t);
        }
        lemma_lookup_absent(ts.drop_last(), ls, t);
    }
}

/// An index from text keys to the ids filed under them, in filing order.
#[derive(Debug)]
pub struct IdIndex {
    keys: Vec<String>,
    lists: Vec<Vec<u64>>,
}

impl IdIndex {
    /// The keys, each once, in order of first filing.
    pub closed spec fn key_list(&self) -> Seq<Seq<char>> {
        self.keys@.map_values(|k: String| k@)
    }

    /// The id lists, parallel to the keys.
    pub closed spec fn id_lists(&self) -> Seq<Seq<u64>> {
        self.lists@.map_values(|l: Vec<u64>| l@)
    }

    /// The ids filed under `k`, in filing order (empty if none).
    pub open spec fn ids(&self, k: Seq<char>) -> Seq<u64> {
        lookup(self.key_list(), self.id_lists(), k)
    }

    /// The index's invariant: keys are distinct, each with its list.
    pub closed spec fn wf(&self) -> bool {
        &&& self.keys@.len() == self.lists@.len()
        &&& distinct_keys(self.key_list())
    }

    /// An empty index.
    pub fn new() -> (x: Self)
        ensures
            x.wf(),
            x.key_list().len() == 0,
            forall|k: Seq<char>| #[trigger] x.ids(k) == Seq::<u64>::empty(),
    {
        let x = IdIndex { keys: Vec::new(), lists: Vec::new() };
        assert(x.key_list() =~= Seq::empty());
        x
    }

    /// Empties the index.
    pub fn clear(&mut self)
        ensures
            final(self).wf(),
            final(self).key_list().len() == 0,
            forall|k: Seq<char>| #[trigger] final(self).ids(k) == Seq::<u64>::empty(),
    {
        self.keys = Vec::new();
        self.lists = Vec::new();
        assert(self.key_list() =~= Seq::empty());
    }

    fn find(&self, key: &str) -> (r: Option<usize>)
        requires
            self.wf(),
        ensures
            match r {
                Some(i) => i < self.keys@.len() && self.keys@[i as int]@ == key@,
                None => forall|i: int| 0 <= i < self.keys@.len() ==> self.keys@[i]@ != key@,
            },
    {
        let mut i: usize = 0;
        while i < self.keys.len()
            invariant
                i <= self.keys@.len(),
                forall|k: int| 0 <= k < i ==> self.keys@[k]@ != key@,
            decreases self.keys@.len() - i,
        {
            if str_eq(self.keys[i].as_str(), key) {
                return Some(i);
            }
            i = i + 1;
        }
        None
    }

    /// Files `id` under `key`, after the ids already there.
    pub fn add(&mut self, key: &str, id: u64)
        requires
            old(self).wf(),
        ensures
            final(self).wf(),
            forall|k: Seq<char>| #[trigger]
                final(self).ids(k) == if k == key@ {
                    old(self).ids(k).push(id)
                } else {
                    old(self).ids(k)
                },
    {
        let ghost ok = self.key_list();
        let ghost ol = self.id_lists();
        match self.find(key) {
            Some(i) => {
                let mut l = self.lists[i].clone();
                l.push(id);
                self.lists.set(i, l);
                proof {
                    assert(self.key_list() == ok);
                    assert(ok[i as int] == key@);
                    assert(self.id_lists() =~= ol.update(i as int, ol[i as int].push(id)));
                    assert forall|k: Seq<char>| #[trigger]
                        self.ids(k) == if k == key@ {
                            lookup(ok, ol, k).push(id)
                        } else {
                            lookup(ok, ol, k)
                        } by {
                        lemma_lookup_update(ok, ol, i as int, ol[i as int].push(id), k);
                        lemma_lookup_at(ok, ol, i as int);
                    }
                }
            },
            None => {
                self.keys.push(key.to_string());
                let mut l: Vec<u64> = Vec::new();
                l.push(id);
                self.lists.push(l);
                proof {
                    assert(self.key_list() =~= ok.push(key@));
                    assert(self.id_lists() =~= ol.push(seq![id]));
                    assert forall|a: int| 0 <= a < ok.len() implies #[trigger] ok[a] != key@ by {
                        assert(ok[a] == self.keys@[a]@);
                    }
                    assert forall|a: int, b: int| 0 <= a < b < ok.push(key@).len() implies #[trigger] ok.push(key@)[a]
                        != #[trigger] ok.push(key@)[b] by {
                        if b == ok.len() {
                            assert(ok[a] != key@);
                        }
                    }
                    lemma_lookup_absent(ok, ol, key@);
                    assert forall|k: Seq<char>| #[trigger]
                        self.ids(k) == if k == key@ {
                            lookup(ok, ol, k).push(id)
                        } else {
                            lookup(ok, ol, k)
                        } by {
                        lemma_lookup_push(ok, ol, key@, seq![id], k);
                        if k == key@ {
                            assert(seq![id] =~= Seq::<u64>::empty().push(id));
                        }
                    }
                }
            },
        }
    }

    /// The ids filed under `key`, in filing order.
    pub fn get(&self, key: &str) -> (r: Vec<u64>)
        requires
            self.wf(),
        ensures
            r@ == self.ids(key@),
    {
        match self.find(key) {
            Some(i) => {
                proof {
                    lemma_lookup_at(self.key_list(), self.id_lists(), i as int);
                }
                self.lists[i].clone()
            },
            None => {
                proof {
                    assert forall|a: int| 0 <= a < self.key_list().len() implies #[trigger] self.key_list()[a]
                        != key@ by {
                        assert(self.key_list()[a] == self.keys@[a]@);
                    }
                    lemma_lookup_absent(self.key_list(), self.id_lists(), key@);
                }
                Vec::new()
            },
        }
    }

    /// Number of keys.
    pub fn len(&self) -> (n: usize)
        ensures
            n == self.key_list().len(),
    {
        self.keys.len()
    }
}

/// Updating the list at a key's position changes only that key's lookup.
pub proof fn lemma_lookup_update(
    ts: Seq<Seq<char>>,
    ls: Seq<Seq<u64>>,
    i: int,
    x: Seq<u64>,
    k: Seq<char>,
)
    requires
        distinct_keys(ts),
        0 <= i < ts.len(),
        ts.len() == ls.len(),
    ensures
        lookup(ts, ls.update(i, x), k) == if k == ts[i] {
            x
        } else {
            lookup(ts, ls, k)
        },
    decreases ts.len(),
{
    if ts.len() > 0 {
        if ts.last() == k {
        } else if i < ts.len() - 1 {
            let p = ts.drop_last();
            assert forall|a: int, b: int| 0 <= a < b < p.len() implies #[trigger] p[a] != #[trigger] p[b] by {
                assert(ts[a] != ts[b]);
            }
            assert(p[i] == ts[i]);
            lemma_lookup_update_prefix(p, ls, i, x, k);
        } else {
            lemma_lookup_ignores_later(ts.drop_last(), ls, i, x, k);
        }
    }
}

proof fn lemma_lookup_update_prefix(
    ts: Seq<Seq<char>>,
    ls: Seq<Seq<u64>>,
    i: int,
    x: Seq<u64>,
    k: Seq<char>,
)
    requires
        distinct_keys(ts),
        0 <= i < ts.len(),
        ts.len() <= ls.len(),
    ensures
        lookup(ts, ls.update(i, x), k) == if k == ts[i] {
            x
        } else {
            lookup(ts, ls, k)
        },
    decreases ts.len(),
{
    if ts.len() > 0 {
        if ts.last() == k {
            if i == ts.len() - 1 {
            } else {
                assert(ts[i] != ts[ts.len() - 1]);
            }
        } else if i < ts.len() - 1 {
            let p = ts.drop_last();
            assert forall|a: int, b: int| 0 <= a < b < p.len() implies #[trigger] p[a] != #[trigger] p[b] by {
                assert(ts[a] != ts[b]);
            }
            assert(p[i] == ts[i]);
            lemma_lookup_update_prefix(p, ls, i, x, k);
        } else {
            lemma_lookup_ignores_later(ts.drop_last(), ls, i, x, k);
        }
    }
}

/// A lookup among the first `i` keys ignores the list at position `i`.
proof fn lemma_lookup_ignores_later(ts: Seq<Seq<char>>, ls: Seq<Seq<u64>>, i: int, x: Seq<u64>, k: Seq<char>)
    requires
        ts.len() <= i < ls.len(),
    ensures
        lookup(ts, ls.update(i, x), k) == lookup(ts, ls, k),
    decreases ts.len(),
{
    if ts.len() > 0 {
        lemma_lookup_ignores_later(ts.drop_last(), ls, i, x, k);
    }
}

/// Adding a new key at the end adds its list and leaves the others.
pub proof fn lemma_lookup_push(ts: Seq<Seq<char>>, ls: Seq<Seq<u64>>, t: Seq<char>, l: Seq<u64>, k: Seq<char>)
    requires
        ts.len() == ls.len(),
    ensures
        lookup(ts.push(t), ls.push(l), k) == if k == t {
            l
        } else {
            lookup(ts, ls, k)
        },
{
    assert(ts.push(t).drop_last() =~= ts);
    if k != t {
        lemma_lookup_prefix_list(ts, ls, l, k);
    }
}

proof fn lemma_lookup_prefix_list(ts: Seq<Seq<char>>, ls: Seq<Seq<u64>>, l: Seq<u64>, k: Seq<char>)
    requires
        ts.len() <= ls.len(),
    ensures
        lookup(ts, ls.push(l), k) == lookup(ts, ls, k),
    decreases ts.len(),
{
    if ts.len() > 0 {
        lemma_lookup_prefix_list(ts.drop_last(), ls, l, k);
    }
}

} // verus!
