//! Generations and evidence bookkeeping of the genuine emergence engine.
//!
//! Concepts must hold over several generations to count as emerged: a
//! generation is a window of ticks that records which candidate concepts
//! were seen in it.  Evidence scores are floating-point sums kept by the
//! caller; the bookkeeping of generations and the evidence summary are here.

use std::collections::HashMap;
use vstd::prelude::*;
use vstd::string::*;

use crate::text::{decimal, push_decimal};

verus! {

broadcast use vstd::std_specs::hash::group_hash_axioms;

/// The kinds of evidence for a concept.
#[derive(Debug, Clone, Copy, PartialEq, Eq, Hash, Structural)]
pub enum EvidenceKind {
    /// Samples fit a cluster.
    ClusterFit,
    /// A linear fit with high R².
    LinearFit,
    /// A causal dependence.
    CausalEdge,
    /// A conservation law holds.
    Conservation,
    /// A counterfactual experiment agrees.
    Counterfactual,
    /// A conflicting sample (a false positive).
    Conflict,
}

/// The name of an evidence kind, as `{:?}` prints it.
pub open spec fn kind_name(k: EvidenceKind) -> Seq<char> {
    match k {
        EvidenceKind::ClusterFit => "ClusterFit"@,
        EvidenceKind::LinearFit => "LinearFit"@,
        EvidenceKind::CausalEdge => "CausalEdge"@,
        EvidenceKind::Conservation => "Conservation"@,
        EvidenceKind::Counterfactual => "Counterfactual"@,
        EvidenceKind::Conflict => "Conflict"@,
    }
}

impl EvidenceKind {
    /// Whether this evidence speaks against the concept.
    pub fn is_conflict(&self) -> (b: bool)
        ensures
            b == (*self == EvidenceKind::Conflict),
    {
        match self {
            EvidenceKind::Conflict => true,
            _ => false,
        }
    }

    /// The kind's name, as `{:?}` prints it.
    pub fn name(&self) -> (s: &'static str)
        ensures
            s@ == kind_name(*self),
    {
        match self {
            EvidenceKind::ClusterFit => "ClusterFit",
            EvidenceKind::LinearFit => "LinearFit",
            EvidenceKind::CausalEdge => "CausalEdge",
            EvidenceKind::Conservation => "Conservation",
            EvidenceKind::Counterfactual => "Counterfactual",
            EvidenceKind::Conflict => "Conflict",
        }
    }
}

/// A generation: a window of ticks and the candidates seen in it.
#[derive(Debug, Clone)]
pub struct Generation {
    /// Its number.
    pub id: u32,
    /// The tick it began at.
    pub start_tick: u64,
    /// The last tick it covered.
    pub end_tick: u64,
    /// Whether a candidate (by id) was seen in it.
    pub seen: HashMap<u64, bool>,
}

impl Generation {
    /// Generation `id` beginning at `start_tick`, with nothing seen yet.
    pub fn new(id: u32, start_tick: u64) -> (g: Self)
        ensures
            g.id == id,
            g.start_tick == start_tick,
            g.end_tick == start_tick,
            g.seen@ == Map::<u64, bool>::empty(),
    {
        Generation { id, start_tick, end_tick: start_tick, seen: HashMap::new() }
    }

    /// Records that candidate `id` was seen in this generation.
    pub fn mark_seen(&mut self, id: u64)
        ensures
            final(self).seen@ == old(self).seen@.insert(id, true),
            final(self).id == old(self).id,
            final(self).start_tick == old(self).start_tick,
            final(self).end_tick == old(self).end_tick,
    {
        self.seen.insert(id, true);
    }

    /// Whether candidate `id` was seen in this generation.
    pub fn was_seen(&self, id: u64) -> (b: bool)
        ensures
            b == (self.seen@.contains_key(id) && self.seen@[id]),
    {
        match self.seen.get(&id) {
            Some(v) => *v,
            None => false,
        }
    }

    /// Whether the generation is over at `tick`: `length` or more ticks have
    /// passed since it began.
    pub fn is_over(&self, tick: u64, length: u64) -> (b: bool)
        requires
            tick >= self.start_tick,
        ensures
            b == (tick - self.start_tick >= length),
    {
        tick - self.start_tick >= length
    }

    /// The next generation, beginning at `tick`.
    pub fn successor(&self, tick: u64) -> (g: Self)
        requires
            self.id < u32::MAX,
        ensures
            g.id == self.id + 1,
            g.start_tick == tick,
            g.end_tick == tick,
            g.seen@ == Map::<u64, bool>::empty(),
    {
        Generation::new(self.id + 1, tick)
    }
}

/// How many items of `s` are `k`.
pub open spec fn kind_count(s: Seq<EvidenceKind>, k: EvidenceKind) -> nat
    decreases s.len(),
{
    if s.len() == 0 {
        0
    } else {
        kind_count(s.drop_last(), k) + if s.last() == k {
            1nat
        } else {
            0nat
        }
    }
}

/// The kinds of `s`, each once, in order of first occurrence.
pub open spec fn distinct_kinds(s: Seq<EvidenceKind>) -> Seq<EvidenceKind>
    decreases s.len(),
{
    if s.len() == 0 {
        Seq::empty()
    } else {
        let prev = distinct_kinds(s.drop_last());
        if prev.contains(s.last()) {
            prev
        } else {
            prev.push(s.last())
        }
    }
}

/// One part of the summary: "Kind:count".
pub open spec fn summary_part(s: Seq<EvidenceKind>, k: EvidenceKind) -> Seq<char> {
    kind_name(k) + ":"@ + decimal(kind_count(s, k))
}

/// The parts for the kinds `ks`, joined with ", ".
pub open spec fn summary_of(s: Seq<EvidenceKind>, ks: Seq<EvidenceKind>) -> Seq<char>
    decreases ks.len(),
{
    if ks.len() == 0 {
        Seq::empty()
    } else if ks.len() == 1 {
        summary_part(s, ks[0])
    } else {
        summary_of(s, ks.drop_last()) + ", "@ + summary_part(s, ks.last())
    }
}

fn count_kind(s: &[EvidenceKind], k: EvidenceKind) -> (n: u64)
    requires
        s@.len() <= u64::MAX,
    ensures
        n == kind_count(s@, k),
{
    let mut n: u64 = 0;
    let mut i: usize = 0;
    while i < s.len()
        invariant
            i <= s@.len(),
            s@.len() <= u64::MAX,
            n == kind_count(s@.take(i as int), k),
            n <= i,
        decreases s@.len() - i,
    {
        proof {
            assert(s@.take(i + 1).drop_last() =~= s@.take(i as int));
        }
        if s[i] == k {
            n = n + 1;
        }
        i = i + 1;
    }
    assert(s@.take(s@.len() as int) =~= s@);
    n
}

/// The evidence summary of a history of evidence kinds: for each kind that
/// occurs, in order of first occurrence, its name, ":" and its count,
/// joined with ", ".
pub fn summarize_kinds(s: &[EvidenceKind]) -> (text: String)
    requires
        s@.len() <= u64::MAX,
    ensures
        text@ == summary_of(s@, distinct_kinds(s@)),
{
    let mut ks: Vec<EvidenceKind> = Vec::new();
    let mut i: usize = 0;
    while i < s.len()
        invariant
            i <= s@.len(),
            ks@ == distinct_kinds(s@.take(i as int)),
        decreases s@.len() - i,
    {
        let x = s[i];
        proof {
            let t1 = s@.take(i + 1);
            assert(t1.drop_last() =~= s@.take(i as int));
            assert(t1.last() == x);
        }
        let mut seen = false;
        let mut j: usize = 0;
        while j < ks.len()
            invariant
                j <= ks@.len(),
                seen == (exists|t: int| 0 <= t < j && ks@[t] == x),
            decreases ks@.len() - j,
        {
            if ks[j] == x {
                seen = true;
            }
            j = j + 1;
        }
        proof {
            if seen {
                let t = choose|t: int| 0 <= t < ks@.len() && ks@[t] == x;
                assert(ks@.contains(x));
            } else {
                assert(!ks@.contains(x));
            }
        }
        if !seen {
            ks.push(x);
        }
        i = i + 1;
    }
    assert(s@.take(s@.len() as int) =~= s@);
    let mut text = String::new();
    let mut k: usize = 0;
    assert(text@ =~= summary_of(s@, ks@.take(0)));
    while k < ks.len()
        invariant
            k <= ks@.len(),
            s@.len() <= u64::MAX,
            text@ == summary_of(s@, ks@.take(k as int)),
        decreases ks@.len() - k,
    {
        let kind = ks[k];
        let ghost before = text@;
        if k > 0 {
            text.append(", ");
        }
        text.append(kind.name());
        text.append(":");
        let c = count_kind(s, kind);
        push_decimal(&mut text, c);
        proof {
            reveal_strlit(", ");
            reveal_strlit(":");
            let t1 = ks@.take(k + 1);
            assert(t1.drop_last() =~= ks@.take(k as int));
            assert(t1.last() == kind);
            if k == 0 {
                assert(t1.len() == 1);
                assert(t1[0] == kind);
                assert(text@ =~= summary_part(s@, kind));
            } else {
                assert(text@ =~= before + ", "@ + summary_part(s@, kind));
            }
        }
        k = k + 1;
    }
    assert(ks@.take(ks@.len() as int) =~= ks@);
    text
}

} // verus!
