//! Self reflection: the log of learning episodes, its statistics, the
//! domain with the lowest success rate, and the advice drawn from them.
//!
//! Satisfaction and confidence changes are floating-point averages kept by
//! the caller, who hands their verdicts in as booleans.

use vstd::prelude::*;
use vstd::string::*;

use crate::text::str_eq;

verus! {

/// One learning episode.
#[derive(Debug, Clone)]
pub struct LearningEpisode {
    /// Its id.
    pub id: u64,
    /// The domain it belongs to.
    pub domain: String,
    /// What was tried.
    pub attempt: String,
    /// What came of it.
    pub outcome: String,
    /// Whether it succeeded.
    pub success: bool,
    /// The error, if any.
    pub error: Option<String>,
    /// The correction made, if any.
    pub correction: Option<String>,
    /// How long it took, in ticks.
    pub duration_ticks: u64,
}

/// Counters over the episodes.
#[derive(Debug, Clone, Copy, PartialEq, Eq, Structural)]
pub struct ReflectionStats {
    /// Episodes recorded.
    pub total_attempts: u32,
    /// Episodes that succeeded.
    pub successes: u32,
    /// Episodes that came with a correction.
    pub self_corrections: u32,
}

/// An episode as (domain, success).
pub open spec fn outcome_of(e: LearningEpisode) -> (Seq<char>, bool) {
    (e.domain@, e.success)
}

/// Episodes of domain `d` in `es`.
pub open spec fn dom_total(es: Seq<(Seq<char>, bool)>, d: Seq<char>) -> nat
    decreases es.len(),
{
    if es.len() == 0 {
        0
    } else {
        dom_total(es.drop_last(), d) + if es.last().0 == d {
            1nat
        } else {
            0nat
        }
    }
}

/// Successful episodes of domain `d` in `es`.
pub open spec fn dom_succ(es: Seq<(Seq<char>, bool)>, d: Seq<char>) -> nat
    decreases es.len(),
{
    if es.len() == 0 {
        0
    } else {
        dom_succ(es.drop_last(), d) + if es.last().0 == d && es.last().1 {
            1nat
        } else {
            0nat
        }
    }
}

/// The domains of `es`, each once, in order of first occurrence.
pub open spec fn dom_order(es: Seq<(Seq<char>, bool)>) -> Seq<Seq<char>>
    decreases es.len(),
{
    if es.len() == 0 {
        Seq::empty()
    } else {
        let prev = dom_order(es.drop_last());
        if prev.contains(es.last().0) {
            prev
        } else {
            prev.push(es.last().0)
        }
    }
}

/// Domain `a` has a strictly lower success rate than domain `b`.
pub open spec fn lower_rate(es: Seq<(Seq<char>, bool)>, a: Seq<char>, b: Seq<char>) -> bool {
    dom_succ(es, a) * dom_total(es, b) < dom_succ(es, b) * dom_total(es, a)
}

/// Among the domains `ks` with at least two episodes, the one with the
/// lowest success rate; among equal rates, the first.
pub open spec fn worst_among(es: Seq<(Seq<char>, bool)>, ks: Seq<Seq<char>>) -> Option<Seq<char>>
    decreases ks.len(),
{
    if ks.len() == 0 {
        None
    } else {
        let prev = worst_among(es, ks.drop_last());
        let k = ks.last();
        if dom_total(es, k) < 2 {
            prev
        } else {
            match prev {
                None => Some(k),
                Some(b) => if lower_rate(es, k, b) {
                    Some(k)
                } else {
                    Some(b)
                },
            }
        }
    }
}

/// The domain with the lowest success rate among those with at least two
/// episodes (the first such in order of first occurrence).
pub open spec fn worst_domain_of(es: Seq<(Seq<char>, bool)>) -> Option<Seq<char>> {
    worst_among(es, dom_order(es))
}

/// The advice given on the reflection's findings.
pub open spec fn advice_text(
    low_satisfaction: bool,
    falling_confidence: bool,
    worst: Option<Seq<char>>,
    learned: u32,
) -> Seq<char> {
    if low_satisfaction {
        "我最近表现不好,需要重新评估策略."@
    } else if falling_confidence {
        "我的置信度在下降,可能遇到了新问题,需要更多数据."@
    } else if worst is Some {
        "我在「"@ + worst->0 + "」领域表现最差,应该重点改进."@
    } else if learned < 3 {
        "我学到的东西太少,需要更多探索."@
    } else {
        "我表现正常,继续."@
    }
}

/// The advice: when satisfaction is low (average below -0.3), re-evaluate;
/// when confidence falls (average change below -0.1), gather data; when a
/// domain does worst, improve it; when fewer than three lessons were
/// learned, explore; otherwise go on.
pub fn advice(low_satisfaction: bool, falling_confidence: bool, worst: Option<&str>, learned: u32) -> (s:
    String)
    ensures
        s@ == advice_text(
            low_satisfaction,
            falling_confidence,
            match worst {
                Some(w) => Some(w@),
                None => None,
            },
            learned,
        ),
{
    if low_satisfaction {
        return String::from_str("我最近表现不好,需要重新评估策略.");
    }
    if falling_confidence {
        return String::from_str("我的置信度在下降,可能遇到了新问题,需要更多数据.");
    }
    match worst {
        Some(d) => {
            let mut s = String::from_str("我在「");
            s.append(d);
            s.append("」领域表现最差,应该重点改进.");
            proof {
                reveal_strlit("我在「");
                reveal_strlit("」领域表现最差,应该重点改进.");
            }
            s
        },
        None => {
            if learned < 3 {
                String::from_str("我学到的东西太少,需要更多探索.")
            } else {
                String::from_str("我表现正常,继续.")
            }
        },
    }
}

/// How many times `a` occurs in `s`.
pub open spec fn occurrences(s: Seq<Seq<char>>, a: Seq<char>) -> nat
    decreases s.len(),
{
    if s.len() == 0 {
        0
    } else {
        occurrences(s.drop_last(), a) + if s.last() == a {
            1nat
        } else {
            0nat
        }
    }
}

/// Among the first `k` items of `s`, the position of the first one that
/// occurs most often in all of `s` (-1 when `k` is 0).
pub open spec fn most_common_upto(s: Seq<Seq<char>>, k: int) -> int
    decreases k,
{
    if k <= 0 {
        -1
    } else {
        let b = most_common_upto(s, k - 1);
        if b < 0 || occurrences(s, s[k - 1]) > occurrences(s, s[b]) {
            k - 1
        } else {
            b
        }
    }
}

proof fn lemma_most_common_upto(s: Seq<Seq<char>>, k: int)
    requires
        0 <= k <= s.len(),
    ensures
        k == 0 ==> most_common_upto(s, k) == -1,
        k > 0 ==> 0 <= most_common_upto(s, k) < k,
        forall|i: int| 0 <= i < k ==> occurrences(s, #[trigger] s[i]) <= occurrences(s, s[most_common_upto(s, k)]),
    decreases k,
{
    if k > 0 {
        lemma_most_common_upto(s, k - 1);
    }
}

fn count_action(actions: &[String], a: &str) -> (n: usize)
    ensures
        n == occurrences(actions@.map_values(|x: String| x@), a@),
{
    let ghost v = actions@.map_values(|x: String| x@);
    let mut n: usize = 0;
    let mut j: usize = 0;
    while j < actions.len()
        invariant
            j <= actions@.len(),
            v == actions@.map_values(|x: String| x@),
            n == occurrences(v.take(j as int), a@),
            n <= j,
        decreases actions@.len() - j,
    {
        proof {
            assert(v.take(j + 1).drop_last() =~= v.take(j as int));
            assert(v.take(j + 1).last() == actions@[j as int]@);
        }
        if str_eq(actions[j].as_str(), a) {
            n = n + 1;
        }
        j = j + 1;
    }
    assert(v.take(v.len() as int) =~= v);
    n
}

/// The action done most often, `None` when there is none; among actions
/// done equally often, the one met first.
pub fn most_common(actions: &[String]) -> (r: Option<String>)
    ensures
        match r {
            None => actions@.len() == 0,
            Some(a) => {
                let v = actions@.map_values(|x: String| x@);
                &&& actions@.len() > 0
                &&& a@ == v[most_common_upto(v, v.len() as int)]
                &&& forall|i: int| 0 <= i < v.len() ==> occurrences(v, #[trigger] v[i]) <= occurrences(v, a@)
            },
        },
{
    let ghost v = actions@.map_values(|x: String| x@);
    if actions.len() == 0 {
        return None;
    }
    let mut best: usize = 0;
    let mut best_count: usize = count_action(actions, actions[0].as_str());
    let mut k: usize = 1;
    proof {
        assert(v[0] == actions@[0]@);
        reveal_with_fuel(most_common_upto, 2);
    }
    while k < actions.len()
        invariant
            1 <= k <= actions@.len(),
            v == actions@.map_values(|x: String| x@),
            best < k,
            best as int == most_common_upto(v, k as int),
            best_count == occurrences(v, v[best as int]),
        decreases actions@.len() - k,
    {
        let c = count_action(actions, actions[k].as_str());
        proof {
            assert(v[k as int] == actions@[k as int]@);
        }
        if c > best_count {
            best = k;
            best_count = c;
        }
        k = k + 1;
    }
    proof {
        lemma_most_common_upto(v, v.len() as int);
        assert(v[best as int] == actions@[best as int]@);
    }
    Some(actions[best].clone())
}

/// The log of learning episodes.
pub struct EpisodeLog {
    episodes: Vec<LearningEpisode>,
    next_episode_id: u64,
    stats: ReflectionStats,
}

impl EpisodeLog {
    /// The episodes as (domain, success), oldest first.
    pub closed spec fn outcomes(&self) -> Seq<(Seq<char>, bool)> {
        self.episodes@.map_values(|e: LearningEpisode| outcome_of(e))
    }

    /// The episodes, oldest first.
    pub closed spec fn episode_list(&self) -> Seq<LearningEpisode> {
        self.episodes@
    }

    /// The id the next episode will get.
    pub closed spec fn next(&self) -> u64 {
        self.next_episode_id
    }

    /// The counters.
    pub closed spec fn counters(&self) -> ReflectionStats {
        self.stats
    }

    /// An empty log; the first episode gets id 1.
    pub fn new() -> (l: Self)
        ensures
            l.outcomes().len() == 0,
            l.next() == 1,
            l.counters() == (ReflectionStats { total_attempts: 0, successes: 0, self_corrections: 0 }),
    {
        let l = EpisodeLog {
            episodes: Vec::new(),
            next_episode_id: 1,
            stats: ReflectionStats { total_attempts: 0, successes: 0, self_corrections: 0 },
        };
        assert(l.outcomes() =~= Seq::empty());
        l
    }

    /// Records an episode and returns its id; the attempt count grows by
    /// one, the success count on success, the correction count when a
    /// correction is given.
    pub fn record_episode(
        &mut self,
        domain: String,
        attempt: String,
        outcome: String,
        success: bool,
        error: Option<String>,
        correction: Option<String>,
        duration_ticks: u64,
    ) -> (id: u64)
        requires
            old(self).next() < u64::MAX,
            old(self).counters().total_attempts < u32::MAX,
            old(self).counters().successes < u32::MAX,
            old(self).counters().self_corrections < u32::MAX,
        ensures
            id == old(self).next(),
            final(self).next() == old(self).next() + 1,
            final(self).episode_list() == old(self).episode_list().push(
                LearningEpisode { id, domain, attempt, outcome, success, error, correction, duration_ticks },
            ),
            final(self).outcomes() == old(self).outcomes().push((domain@, success)),
            final(self).counters().total_attempts == old(self).counters().total_attempts + 1,
            final(self).counters().successes == old(self).counters().successes + if success {
                1int
            } else {
                0int
            },
            final(self).counters().self_corrections == old(self).counters().self_corrections + if correction
                is Some {
                1int
            } else {
                0int
            },
    {
        let id = self.next_episode_id;
        self.next_episode_id = self.next_episode_id + 1;
        let has_correction = correction.is_some();
        let ghost before = self.episodes@;
        let ghost dv = domain@;
        self.episodes.push(
            LearningEpisode { id, domain, attempt, outcome, success, error, correction, duration_ticks },
        );
        assert(self.outcomes() =~= before.map_values(|e: LearningEpisode| outcome_of(e)).push(
            (dv, success),
        ));
        self.stats.total_attempts = self.stats.total_attempts + 1;
        if success {
            self.stats.successes = self.stats.successes + 1;
        }
        if has_correction {
            self.stats.self_corrections = self.stats.self_corrections + 1;
        }
        id
    }

    /// The id the next episode will get.
    pub fn next_id(&self) -> (n: u64)
        ensures
            n == self.next(),
    {
        self.next_episode_id
    }

    /// The counters.
    pub fn stats(&self) -> (s: ReflectionStats)
        ensures
            s == self.counters(),
    {
        self.stats
    }

    /// Number of episodes.
    pub fn episode_count(&self) -> (n: usize)
        ensures
            n == self.outcomes().len(),
    {
        self.episodes.len()
    }

    /// The episodes, oldest first.
    pub fn episodes(&self) -> (es: &[LearningEpisode])
        ensures
            es@ == self.episode_list(),
            es@.map_values(|e: LearningEpisode| outcome_of(e)) == self.outcomes(),
    {
        self.episodes.as_slice()
    }

    /// The domain with the lowest success rate among those with at least two
    /// episodes, the first such in order of first occurrence; `None` when no
    /// domain has two episodes.
    ///
    /// So the result is `None` exactly when no domain has two episodes, and
    /// otherwise a domain with two episodes whose success rate no domain
    /// with two episodes undercuts.
    pub fn worst_domain(&self) -> (r: Option<String>)
        ensures
            match r {
                Some(d) => worst_domain_of(self.outcomes()) == Some(d@),
                None => worst_domain_of(self.outcomes()) is None,
            },
            r is None <==> (forall|d: Seq<char>| #[trigger] dom_total(self.outcomes(), d) < 2),
            r matches Some(w) ==> dom_total(self.outcomes(), w@) >= 2 && (forall|d: Seq<char>|
                #[trigger] dom_total(self.outcomes(), d) >= 2 ==> !lower_rate(self.outcomes(), d, w@)),
    {
        proof {
            law_worst_domain_minimal(self.outcomes());
        }
        let ghost es = self.outcomes();
        let mut names: Vec<String> = Vec::new();
        let mut totals: Vec<u64> = Vec::new();
        let mut succs: Vec<u64> = Vec::new();
        let mut i: usize = 0;
        while i < self.episodes.len()
            invariant
                i <= self.episodes@.len(),
                es == self.outcomes(),
                es.len() == self.episodes@.len(),
                names@.len() == totals@.len(),
                names@.len() == succs@.len(),
                names@.map_values(|s: String| s@) == dom_order(es.take(i as int)),
                forall|j: int|
                    0 <= j < names@.len() ==> #[trigger] totals@[j] == dom_total(
                        es.take(i as int),
                        names@[j]@,
                    ),
                forall|j: int|
                    0 <= j < names@.len() ==> #[trigger] succs@[j] == dom_succ(
                        es.take(i as int),
                        names@[j]@,
                    ),
                forall|j: int| 0 <= j < names@.len() ==> #[trigger] totals@[j] <= i,
                forall|j: int| 0 <= j < names@.len() ==> #[trigger] succs@[j] <= totals@[j],
            decreases self.episodes@.len() - i,
        {
            let e = &self.episodes[i];
            let ghost t0 = es.take(i as int);
            let ghost t1 = es.take(i + 1);
            proof {
                assert(t1.drop_last() =~= t0);
                assert(t1.last() == es[i as int]);
                assert(es[i as int] == outcome_of(self.episodes@[i as int]));
            }
            let mut found: Option<usize> = None;
            let mut j: usize = 0;
            while j < names.len()
                invariant
                    j <= names@.len(),
                    found matches Some(k) ==> k < names@.len() && names@[k as int]@ == e.domain@,
                    found is None ==> forall|t: int| 0 <= t < j ==> names@[t]@ != e.domain@,
                decreases names@.len() - j,
            {
                if found.is_none() && str_eq(names[j].as_str(), e.domain.as_str()) {
                    found = Some(j);
                }
                j = j + 1;
            }
            let ghost old_names = names@;
            let ghost old_totals = totals@;
            let ghost old_succs = succs@;
            match found {
                Some(k) => {
                    let t = totals[k] + 1;
                    totals.set(k, t);
                    if e.success {
                        let s = succs[k] + 1;
                        succs.set(k, s);
                    }
                    proof {
                        assert(old_names.map_values(|s: String| s@)[k as int] == e.domain@);
                        assert(dom_order(t0).contains(e.domain@));
                        lemma_dom_order_distinct(t0);
                        assert forall|a: int| 0 <= a < names@.len() && a != k implies #[trigger] names@[a]@
                            != e.domain@ by {
                            assert(old_names.map_values(|s: String| s@)[a] == old_names[a]@);
                            assert(dom_order(t0)[a] != dom_order(t0)[k as int]);
                        }
                        assert forall|a: int| 0 <= a < names@.len() implies #[trigger] totals@[a] == dom_total(
                            t1,
                            names@[a]@,
                        ) by {
                            if a != k {
                                assert(names@[a]@ != e.domain@);
                            }
                        }
                        assert forall|a: int| 0 <= a < names@.len() implies #[trigger] succs@[a] == dom_succ(
                            t1,
                            names@[a]@,
                        ) by {
                            if a != k {
                                assert(names@[a]@ != e.domain@);
                            }
                        }
                    }
                },
                None => {
                    let name = e.domain.clone();
                    names.push(name);
                    totals.push(1);
                    succs.push(if e.success {
                        1
                    } else {
                        0
                    });
                    proof {
                        assert(!dom_order(t0).contains(e.domain@)) by {
                            if dom_order(t0).contains(e.domain@) {
                                let t = choose|t: int| 0 <= t < dom_order(t0).len() && dom_order(t0)[t] == e.domain@;
                                assert(old_names.map_values(|s: String| s@)[t] == old_names[t]@);
                            }
                        }
                        assert(names@.map_values(|s: String| s@) =~= old_names.map_values(|s: String| s@).push(
                            e.domain@,
                        ));
                        lemma_dom_absent(t0, e.domain@);
                        assert forall|a: int| 0 <= a < names@.len() implies #[trigger] totals@[a] == dom_total(
                            t1,
                            names@[a]@,
                        ) by {
                            if a < old_names.len() {
                                assert(old_names[a]@ != e.domain@);
                            }
                        }
                        assert forall|a: int| 0 <= a < names@.len() implies #[trigger] succs@[a] == dom_succ(
                            t1,
                            names@[a]@,
                        ) by {
                            if a < old_names.len() {
                                assert(old_names[a]@ != e.domain@);
                            }
                        }
                    }
                },
            }
            i = i + 1;
        }
        assert(es.take(es.len() as int) =~= es);
        let ghost ks = dom_order(es);
        let mut best: Option<usize> = None;
        let mut k: usize = 0;
        while k < names.len()
            invariant
                k <= names@.len(),
                names@.len() == totals@.len(),
                names@.len() == succs@.len(),
                names@.map_values(|s: String| s@) == ks,
                forall|j: int| 0 <= j < names@.len() ==> #[trigger] totals@[j] == dom_total(es, names@[j]@),
                forall|j: int| 0 <= j < names@.len() ==> #[trigger] succs@[j] == dom_succ(es, names@[j]@),
                forall|j: int| 0 <= j < names@.len() ==> #[trigger] totals@[j] <= es.len(),
                forall|j: int| 0 <= j < names@.len() ==> #[trigger] succs@[j] <= totals@[j],
                match best {
                    Some(b) => b < names@.len() && worst_among(es, ks.take(k as int)) == Some(names@[b as int]@),
                    None => worst_among(es, ks.take(k as int)) is None,
                },
            decreases names@.len() - k,
        {
            proof {
                assert(ks.take(k + 1).drop_last() =~= ks.take(k as int));
                assert(ks.take(k + 1).last() == names@[k as int]@);
            }
            if totals[k] >= 2 {
                match best {
                    None => {
                        best = Some(k);
                    },
                    Some(b) => {
                        let sk = succs[k] as u128;
                        let tb = totals[b] as u128;
                        let sb = succs[b] as u128;
                        let tk = totals[k] as u128;
                        assert(sk * tb <= 0xffff_ffff_ffff_ffffu128 * 0xffff_ffff_ffff_ffffu128) by (nonlinear_arith)
                            requires
                                sk <= 0xffff_ffff_ffff_ffffu128,
                                tb <= 0xffff_ffff_ffff_ffffu128,
                        ;
                        assert(sb * tk <= 0xffff_ffff_ffff_ffffu128 * 0xffff_ffff_ffff_ffffu128) by (nonlinear_arith)
                            requires
                                sb <= 0xffff_ffff_ffff_ffffu128,
                                tk <= 0xffff_ffff_ffff_ffffu128,
                        ;
                        let lhs: u128 = sk * tb;
                        let rhs: u128 = sb * tk;
                        if lhs < rhs {
                            best = Some(k);
                        }
                    },
                }
            }
            k = k + 1;
        }
        assert(ks.take(ks.len() as int) =~= ks);
        match best {
            Some(b) => Some(names[b].clone()),
            None => None,
        }
    }
}

/// The worst domain is a true minimum: it is `None` exactly when no domain
/// has two episodes, and otherwise it has two episodes and no domain with
/// two episodes has a strictly lower success rate.
pub proof fn law_worst_domain_minimal(es: Seq<(Seq<char>, bool)>)
    ensures
        worst_domain_of(es) is None <==> (forall|d: Seq<char>| #[trigger] dom_total(es, d) < 2),
        worst_domain_of(es) matches Some(w) ==> dom_total(es, w) >= 2 && (forall|d: Seq<char>|
            #[trigger] dom_total(es, d) >= 2 ==> !lower_rate(es, d, w)),
{
    let ks = dom_order(es);
    lemma_worst_among(es, ks);
    if worst_domain_of(es) is None {
        assert forall|d: Seq<char>| #[trigger] dom_total(es, d) < 2 by {
            if dom_total(es, d) >= 2 {
                if !ks.contains(d) {
                    lemma_dom_absent(es, d);
                }
                let i = choose|i: int| 0 <= i < ks.len() && ks[i] == d;
                assert(dom_total(es, ks[i]) < 2);
            }
        }
    } else {
        let w = worst_domain_of(es)->0;
        assert forall|d: Seq<char>| #[trigger] dom_total(es, d) >= 2 implies !lower_rate(es, d, w) by {
            if !ks.contains(d) {
                lemma_dom_absent(es, d);
            }
            let i = choose|i: int| 0 <= i < ks.len() && ks[i] == d;
            assert(dom_total(es, ks[i]) >= 2);
        }
    }
}

/// The fold over `ks` finds `None` exactly when no domain of `ks` has two
/// episodes, and otherwise a domain of `ks` with two episodes whose rate no
/// such domain of `ks` undercuts.
proof fn lemma_worst_among(es: Seq<(Seq<char>, bool)>, ks: Seq<Seq<char>>)
    ensures
        worst_among(es, ks) is None <==> (forall|i: int| 0 <= i < ks.len() ==> dom_total(es, #[trigger] ks[i]) < 2),
        worst_among(es, ks) matches Some(b) ==> ks.contains(b) && dom_total(es, b) >= 2 && (forall|i: int|
            0 <= i < ks.len() && dom_total(es, #[trigger] ks[i]) >= 2 ==> !lower_rate(es, ks[i], b)),
    decreases ks.len(),
{
    if ks.len() > 0 {
        let pk = ks.drop_last();
        let k = ks.last();
        lemma_worst_among(es, pk);
        assert forall|i: int| 0 <= i < pk.len() implies #[trigger] pk[i] == ks[i] by {}
        if dom_total(es, k) >= 2 {
            match worst_among(es, pk) {
                None => {
                    assert forall|i: int| 0 <= i < ks.len() && dom_total(es, #[trigger] ks[i]) >= 2 implies !lower_rate(
                        es,
                        ks[i],
                        k,
                    ) by {
                        if i < pk.len() {
                            assert(dom_total(es, pk[i]) < 2);
                        }
                    }
                    assert(ks[ks.len() - 1] == k);
                },
                Some(b) => {
                    let pi = choose|i: int| 0 <= i < pk.len() && pk[i] == b;
                    assert(ks[pi] == b);
                    if lower_rate(es, k, b) {
                        assert forall|i: int|
                            0 <= i < ks.len() && dom_total(es, #[trigger] ks[i]) >= 2 implies !lower_rate(
                            es,
                            ks[i],
                            k,
                        ) by {
                            if i < pk.len() {
                                assert(!lower_rate(es, pk[i], b));
                                lemma_rate_trans(
                                    dom_succ(es, ks[i]) as int,
                                    dom_total(es, ks[i]) as int,
                                    dom_succ(es, b) as int,
                                    dom_total(es, b) as int,
                                    dom_succ(es, k) as int,
                                    dom_total(es, k) as int,
                                );
                            }
                        }
                        assert(ks[ks.len() - 1] == k);
                    } else {
                        assert forall|i: int|
                            0 <= i < ks.len() && dom_total(es, #[trigger] ks[i]) >= 2 implies !lower_rate(
                            es,
                            ks[i],
                            b,
                        ) by {
                            if i < pk.len() {
                                assert(!lower_rate(es, pk[i], b));
                            }
                        }
                    }
                },
            }
        } else {
            match worst_among(es, pk) {
                None => {
                    assert forall|i: int| 0 <= i < ks.len() implies dom_total(es, #[trigger] ks[i]) < 2 by {
                        if i < pk.len() {
                            assert(dom_total(es, pk[i]) < 2);
                        }
                    }
                },
                Some(b) => {
                    let pi = choose|i: int| 0 <= i < pk.len() && pk[i] == b;
                    assert(ks[pi] == b);
                    assert forall|i: int|
                        0 <= i < ks.len() && dom_total(es, #[trigger] ks[i]) >= 2 implies !lower_rate(
                        es,
                        ks[i],
                        b,
                    ) by {
                        if i < pk.len() {
                            assert(!lower_rate(es, pk[i], b));
                        }
                    }
                },
            }
        }
    }
}

/// Success rates compare transitively: if `x` is no lower than `b` and `k`
/// is strictly lower than `b`, then `x` is no lower than `k`.
proof fn lemma_rate_trans(sx: int, tx: int, sb: int, tb: int, sk: int, tk: int)
    by (nonlinear_arith)
    requires
        tx > 0,
        tb > 0,
        tk > 0,
        sx * tb >= sb * tx,
        sk * tb < sb * tk,
    ensures
        sx * tk >= sk * tx,
{
    assert(sx * tb * tk >= sb * tx * tk);
    assert(sk * tb * tx < sb * tk * tx);
}

proof fn lemma_dom_order_distinct(es: Seq<(Seq<char>, bool)>)
    ensures
        dom_order(es).no_duplicates(),
    decreases es.len(),
{
    if es.len() > 0 {
        lemma_dom_order_distinct(es.drop_last());
    }
}

proof fn lemma_dom_absent(es: Seq<(Seq<char>, bool)>, d: Seq<char>)
    requires
        !dom_order(es).contains(d),
    ensures
        dom_total(es, d) == 0,
        dom_succ(es, d) == 0,
    decreases es.len(),
{
    if es.len() > 0 {
        let prev = dom_order(es.drop_last());
        if prev.contains(d) {
            let t = choose|t: int| 0 <= t < prev.len() && prev[t] == d;
            assert(dom_order(es).contains(d)) by {
                if !prev.contains(es.last().0) {
                    assert(dom_order(es)[t] == d);
                } else {
                    assert(dom_order(es)[t] == d);
                }
            }
        }
        if es.last().0 == d {
            assert(dom_order(es).contains(d)) by {
                if prev.contains(d) {
                } else {
                    assert(dom_order(es)[prev.len() as int] == d);
                }
            }
        }
        lemma_dom_absent(es.drop_last(), d);
    }
}

} // verus!
