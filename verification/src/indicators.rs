//! Emergence indicators and emergence windows.
//!
//! Five emergence signals are watched; three or more at once is a sign of
//! emergence.  A window opens when three or more signals are present and
//! closes when they fall below three; a closed window counts as one
//! emergence only if it lasted at least the minimum duration.
//!
//! The two signals read from the KL-divergence history are computed from
//! floating-point statistics by the caller and handed in as booleans.

use vstd::prelude::*;

verus! {

/// The five emergence signals.
#[derive(Debug, Clone, Copy, PartialEq, Eq, Hash, Structural)]
pub enum EmergenceSignal {
    /// The KL divergence spikes or keeps rising.
    KLDivergenceSpike,
    /// A concept cluster stays stable.
    ConceptClusterStable,
    /// The causal graph loses edges.
    CausalGraphSimplified,
    /// The weight distribution becomes bimodal.
    WeightBimodalization,
    /// New behaviour patterns pile up.
    BehaviorDiversityPeak,
}

/// The display name of a signal.
pub open spec fn signal_label(s: EmergenceSignal) -> Seq<char> {
    match s {
        EmergenceSignal::KLDivergenceSpike => "KL散度突变"@,
        EmergenceSignal::ConceptClusterStable => "概念簇稳定"@,
        EmergenceSignal::CausalGraphSimplified => "因果图简化"@,
        EmergenceSignal::WeightBimodalization => "权重二值化"@,
        EmergenceSignal::BehaviorDiversityPeak => "行为多样性峰值"@,
    }
}

impl EmergenceSignal {
    /// The display name of the signal.
    pub fn as_str(&self) -> (s: &'static str)
        ensures
            s@ == signal_label(*self),
    {
        match self {
            EmergenceSignal::KLDivergenceSpike => "KL散度突变",
            EmergenceSignal::ConceptClusterStable => "概念簇稳定",
            EmergenceSignal::CausalGraphSimplified => "因果图简化",
            EmergenceSignal::WeightBimodalization => "权重二值化",
            EmergenceSignal::BehaviorDiversityPeak => "行为多样性峰值",
        }
    }
}

/// `s` with every repeated signal removed, first occurrences kept in order.
pub open spec fn dedup_signals(s: Seq<EmergenceSignal>) -> Seq<EmergenceSignal>
    decreases s.len(),
{
    if s.len() == 0 {
        Seq::empty()
    } else {
        let prev = dedup_signals(s.drop_last());
        if prev.contains(s.last()) {
            prev
        } else {
            prev.push(s.last())
        }
    }
}

/// Sum of a sequence of counts.
pub open spec fn sum_usize(s: Seq<usize>) -> int
    decreases s.len(),
{
    if s.len() == 0 {
        0
    } else {
        sum_usize(s.drop_last()) + s.last()
    }
}

/// Sum of a sequence of bin counts.
pub open spec fn sum_u32(s: Seq<u32>) -> int
    decreases s.len(),
{
    if s.len() == 0 {
        0
    } else {
        sum_u32(s.drop_last()) + s.last()
    }
}

/// The causal graph was simplified: with at least 50 recorded edge counts,
/// the mean of the first 20 is at least one and the mean of the last 20 lies
/// more than 30% below it.
pub open spec fn causal_simplified(h: Seq<usize>) -> bool {
    let early = sum_usize(h.take(20));
    let late = sum_usize(h.subrange(h.len() - 20, h.len() as int));
    h.len() >= 50 && early >= 20 && 7 * early > 10 * late
}

/// The weight distribution is bimodal: with at least 100 weights, bins 2
/// and 7 each hold more than a fifth of them and bins 4 and 5 together less
/// than an eighth.
pub open spec fn weights_bimodal(bins: Seq<u32>) -> bool {
    let total = sum_u32(bins);
    total >= 100 && bins[2] > total / 5 && bins[7] > total / 5 && bins[4] + bins[5] < total / 8
}

/// The number of weights whose bin index, capped at 9, is `k`.
pub open spec fn bin_count(idx: Seq<usize>, k: int) -> nat
    decreases idx.len(),
{
    if idx.len() == 0 {
        0
    } else {
        bin_count(idx.drop_last(), k) + if (if idx.last() < 9 { idx.last() as int } else { 9 }) == k {
            1nat
        } else {
            0nat
        }
    }
}

/// An emergence window.
#[derive(Debug, Clone)]
pub struct EmergenceWindow {
    /// The tick it opened at.
    pub start_tick: u64,
    /// The tick it closed at, once closed.
    pub end_tick: Option<u64>,
    /// The signals present when it opened, each once.
    pub signals: Vec<EmergenceSignal>,
    /// Products counted during the window.
    pub product_count: u32,
}

impl EmergenceWindow {
    /// Ticks since the window opened (zero if `current_tick` is earlier).
    pub fn duration(&self, current_tick: u64) -> (d: u64)
        ensures
            d == if current_tick >= self.start_tick {
                current_tick - self.start_tick
            } else {
                0
            },
    {
        current_tick.saturating_sub(self.start_tick)
    }
}

/// What a window check reports.
#[derive(Debug, Clone)]
pub enum WindowEvent {
    /// No window, and none opened.
    NoEvent,
    /// A window opened at `tick` on these signals.
    Start { tick: u64, signals: Vec<EmergenceSignal> },
    /// The open window goes on.
    Continue,
    /// The open window closed after lasting long enough: one emergence.
    End { start_tick: u64, end_tick: u64, duration: u64, signals: Vec<EmergenceSignal> },
    /// The open window closed too early and does not count.
    Cancel,
}

/// Each of the five signals is reported at most once, so "three or more
/// signals" means three or more distinct signals.
pub proof fn law_signals_distinct(
    kl_spike: bool,
    kl_rising: bool,
    concept: u32,
    edges: Seq<usize>,
    bins: Seq<u32>,
    behavior: u32,
)
    ensures
        signals_of(kl_spike, kl_rising, concept, edges, bins, behavior).no_duplicates(),
        signals_of(kl_spike, kl_rising, concept, edges, bins, behavior).len() <= 5,
{
    let s = signals_of(kl_spike, kl_rising, concept, edges, bins, behavior);
    assert forall|i: int, j: int| 0 <= i < j < s.len() implies s[i] != s[j] by {
        if s[i] == s[j] {
            assert(signal_rank(s[i]) == signal_rank(s[j]));
            lemma_signals_rank_increasing(kl_spike, kl_rising, concept, edges, bins, behavior, i, j);
        }
    }
}

/// The weight signal is reported exactly when the weights are bimodal: it
/// needs at least 100 weights, both peak bins (2 and 7) above a fifth of
/// them, and a sparse middle (bins 4 and 5 together below an eighth).
/// Whenever any one of these fails, the signal is not reported; when all
/// hold, it is.
pub proof fn law_weight_bimodal_signal(
    kl_spike: bool,
    kl_rising: bool,
    concept: u32,
    edges: Seq<usize>,
    bins: Seq<u32>,
    behavior: u32,
)
    requires
        bins.len() == 10,
    ensures
        ({
            let total = sum_u32(bins);
            let reported = signals_of(kl_spike, kl_rising, concept, edges, bins, behavior).contains(
                EmergenceSignal::WeightBimodalization,
            );
            &&& total < 100 ==> !reported
            &&& bins[2] <= total / 5 ==> !reported
            &&& bins[7] <= total / 5 ==> !reported
            &&& bins[4] + bins[5] >= total / 8 ==> !reported
            &&& (total >= 100 && bins[2] > total / 5 && bins[7] > total / 5 && bins[4] + bins[5] < total / 8)
                ==> reported
        }),
{
    let a: Seq<EmergenceSignal> = if kl_spike || kl_rising { seq![EmergenceSignal::KLDivergenceSpike] } else { Seq::empty() };
    let b: Seq<EmergenceSignal> = if concept > 30 { seq![EmergenceSignal::ConceptClusterStable] } else { Seq::empty() };
    let c: Seq<EmergenceSignal> = if causal_simplified(edges) { seq![EmergenceSignal::CausalGraphSimplified] } else { Seq::empty() };
    let d: Seq<EmergenceSignal> = if weights_bimodal(bins) { seq![EmergenceSignal::WeightBimodalization] } else { Seq::empty() };
    let e: Seq<EmergenceSignal> = if behavior > 5 { seq![EmergenceSignal::BehaviorDiversityPeak] } else { Seq::empty() };
    let s = a + b + c + d + e;
    assert(s =~= signals_of(kl_spike, kl_rising, concept, edges, bins, behavior));
    let w = EmergenceSignal::WeightBimodalization;
    if weights_bimodal(bins) {
        assert(s[(a.len() + b.len() + c.len()) as int] == w);
    } else {
        assert forall|k: int| 0 <= k < s.len() implies s[k] != w by {
            if k < a.len() {
                assert(s[k] == a[k]);
            } else if k < a.len() + b.len() {
                assert(s[k] == b[k - a.len()]);
            } else if k < a.len() + b.len() + c.len() {
                assert(s[k] == c[k - a.len() - b.len()]);
            } else {
                assert(s[k] == e[k - a.len() - b.len() - c.len()]);
            }
        }
    }
}

/// Each of the other four signals is reported exactly under its own
/// condition: the KL signal when a spike or a rising mean was found, the
/// concept signal when a cluster was stable more than 30 times, the
/// behaviour signal when more than 5 behaviours were seen, and the causal
/// signal when at least 50 edge counts were recorded, the first 20 sum to at
/// least 20 (a mean of at least one) and the last 20 lie more than 30% below
/// them.
pub proof fn law_signals_reported(
    kl_spike: bool,
    kl_rising: bool,
    concept: u32,
    edges: Seq<usize>,
    bins: Seq<u32>,
    behavior: u32,
)
    ensures
        ({
            let s = signals_of(kl_spike, kl_rising, concept, edges, bins, behavior);
            let early = sum_usize(edges.take(20));
            let late = sum_usize(edges.subrange(edges.len() - 20, edges.len() as int));
            &&& s.contains(EmergenceSignal::KLDivergenceSpike) <==> (kl_spike || kl_rising)
            &&& s.contains(EmergenceSignal::ConceptClusterStable) <==> concept > 30
            &&& s.contains(EmergenceSignal::BehaviorDiversityPeak) <==> behavior > 5
            &&& edges.len() < 50 ==> !s.contains(EmergenceSignal::CausalGraphSimplified)
            &&& (edges.len() >= 50 && early < 20) ==> !s.contains(EmergenceSignal::CausalGraphSimplified)
            &&& (edges.len() >= 50 && 10 * late >= 7 * early) ==> !s.contains(
                EmergenceSignal::CausalGraphSimplified,
            )
            &&& (edges.len() >= 50 && early >= 20 && 10 * late < 7 * early) ==> s.contains(
                EmergenceSignal::CausalGraphSimplified,
            )
        }),
{
    let a: Seq<EmergenceSignal> = if kl_spike || kl_rising { seq![EmergenceSignal::KLDivergenceSpike] } else { Seq::empty() };
    let b: Seq<EmergenceSignal> = if concept > 30 { seq![EmergenceSignal::ConceptClusterStable] } else { Seq::empty() };
    let c: Seq<EmergenceSignal> = if causal_simplified(edges) { seq![EmergenceSignal::CausalGraphSimplified] } else { Seq::empty() };
    let d: Seq<EmergenceSignal> = if weights_bimodal(bins) { seq![EmergenceSignal::WeightBimodalization] } else { Seq::empty() };
    let e: Seq<EmergenceSignal> = if behavior > 5 { seq![EmergenceSignal::BehaviorDiversityPeak] } else { Seq::empty() };
    let s = a + b + c + d + e;
    assert(s =~= signals_of(kl_spike, kl_rising, concept, edges, bins, behavior));
    assert forall|k: int| 0 <= k < s.len() implies (s[k] is KLDivergenceSpike ==> a.len() > 0) && (
    s[k] is ConceptClusterStable ==> b.len() > 0) && (s[k] is CausalGraphSimplified ==> c.len() > 0) && (
    s[k] is BehaviorDiversityPeak ==> e.len() > 0) by {
        if k < a.len() {
            assert(s[k] == a[k]);
        } else if k < a.len() + b.len() {
            assert(s[k] == b[k - a.len()]);
        } else if k < a.len() + b.len() + c.len() {
            assert(s[k] == c[k - a.len() - b.len()]);
        } else if k < a.len() + b.len() + c.len() + d.len() {
            assert(s[k] == d[k - a.len() - b.len() - c.len()]);
        } else {
            assert(s[k] == e[k - a.len() - b.len() - c.len() - d.len()]);
        }
    }
    if a.len() > 0 {
        assert(s[0] == EmergenceSignal::KLDivergenceSpike);
    }
    if b.len() > 0 {
        assert(s[a.len() as int] == EmergenceSignal::ConceptClusterStable);
    }
    if c.len() > 0 {
        assert(s[(a.len() + b.len()) as int] == EmergenceSignal::CausalGraphSimplified);
    }
    if e.len() > 0 {
        assert(s[(a.len() + b.len() + c.len() + d.len()) as int] == EmergenceSignal::BehaviorDiversityPeak);
    }
}

/// The position of a signal in checking order.
pub open spec fn signal_rank(s: EmergenceSignal) -> int {
    match s {
        EmergenceSignal::KLDivergenceSpike => 0,
        EmergenceSignal::ConceptClusterStable => 1,
        EmergenceSignal::CausalGraphSimplified => 2,
        EmergenceSignal::WeightBimodalization => 3,
        EmergenceSignal::BehaviorDiversityPeak => 4,
    }
}

proof fn lemma_signals_rank_increasing(
    kl_spike: bool,
    kl_rising: bool,
    concept: u32,
    edges: Seq<usize>,
    bins: Seq<u32>,
    behavior: u32,
    i: int,
    j: int,
)
    requires
        0 <= i < j < signals_of(kl_spike, kl_rising, concept, edges, bins, behavior).len(),
    ensures
        signal_rank(signals_of(kl_spike, kl_rising, concept, edges, bins, behavior)[i]) < signal_rank(
            signals_of(kl_spike, kl_rising, concept, edges, bins, behavior)[j],
        ),
{
    let a: Seq<EmergenceSignal> = if kl_spike || kl_rising { seq![EmergenceSignal::KLDivergenceSpike] } else { Seq::empty() };
    let b: Seq<EmergenceSignal> = if concept > 30 { seq![EmergenceSignal::ConceptClusterStable] } else { Seq::empty() };
    let c: Seq<EmergenceSignal> = if causal_simplified(edges) { seq![EmergenceSignal::CausalGraphSimplified] } else { Seq::empty() };
    let d: Seq<EmergenceSignal> = if weights_bimodal(bins) { seq![EmergenceSignal::WeightBimodalization] } else { Seq::empty() };
    let e: Seq<EmergenceSignal> = if behavior > 5 { seq![EmergenceSignal::BehaviorDiversityPeak] } else { Seq::empty() };
    let s = a + b + c + d + e;
    assert(s =~= signals_of(kl_spike, kl_rising, concept, edges, bins, behavior));
    assert forall|k: int| 0 <= k < s.len() implies signal_rank(#[trigger] s[k]) == (if k < a.len() {
        0int
    } else if k < a.len() + b.len() {
        1
    } else if k < a.len() + b.len() + c.len() {
        2
    } else if k < a.len() + b.len() + c.len() + d.len() {
        3
    } else {
        4
    }) by {
    }
}

/// The shape of a window event, with its numbers and signals.
pub open spec fn event_view(e: WindowEvent) -> (int, u64, u64, u64, Seq<EmergenceSignal>) {
    match e {
        WindowEvent::NoEvent => (0, 0, 0, 0, Seq::empty()),
        WindowEvent::Start { tick, signals } => (1, tick, 0, 0, signals@),
        WindowEvent::Continue => (2, 0, 0, 0, Seq::empty()),
        WindowEvent::End { start_tick, end_tick, duration, signals } => (
            3,
            start_tick,
            end_tick,
            duration,
            signals@,
        ),
        WindowEvent::Cancel => (4, 0, 0, 0, Seq::empty()),
    }
}

/// The open window as (start tick, signals).
pub open spec fn window_view(w: Option<EmergenceWindow>) -> Option<(u64, Seq<EmergenceSignal>)> {
    match w {
        Some(x) => Some((x.start_tick, x.signals@)),
        None => None,
    }
}

/// Emergence indicator monitor.
pub struct EmergenceIndicators {
    concept_stability_count: u32,
    causal_edge_history: Vec<usize>,
    causal_edge_capacity: usize,
    weight_bins: Vec<u32>,
    behavior_diversity: u32,
    active_signals: Vec<EmergenceSignal>,
    current_window: Option<EmergenceWindow>,
    completed_windows: Vec<EmergenceWindow>,
    emergence_count: u32,
    min_window_duration: u64,
    decay_counter: u32,
    decay_threshold: u32,
}

/// The signals present, in the order they are checked, each at most once:
/// the KL signal when the KL divergence spikes or keeps rising.
pub open spec fn signals_of(
    kl_spike: bool,
    kl_rising: bool,
    concept: u32,
    edges: Seq<usize>,
    bins: Seq<u32>,
    behavior: u32,
) -> Seq<EmergenceSignal> {
    (if kl_spike || kl_rising { seq![EmergenceSignal::KLDivergenceSpike] } else { Seq::empty() })
    + (if concept > 30 { seq![EmergenceSignal::ConceptClusterStable] } else { Seq::empty() })
    + (if causal_simplified(edges) { seq![EmergenceSignal::CausalGraphSimplified] } else { Seq::empty() })
    + (if weights_bimodal(bins) { seq![EmergenceSignal::WeightBimodalization] } else { Seq::empty() })
    + (if behavior > 5 { seq![EmergenceSignal::BehaviorDiversityPeak] } else { Seq::empty() })
}

impl EmergenceIndicators {
    /// Consecutive ticks a concept cluster was seen stable.
    pub closed spec fn concept_count(&self) -> u32 {
        self.concept_stability_count
    }

    /// New behaviour patterns seen.
    pub closed spec fn behavior_count(&self) -> u32 {
        self.behavior_diversity
    }

    /// The recorded causal edge counts, oldest first (at most 100).
    pub closed spec fn edge_history(&self) -> Seq<usize> {
        self.causal_edge_history@
    }

    /// The ten weight bins.
    pub closed spec fn bins(&self) -> Seq<u32> {
        self.weight_bins@
    }

    /// The open window, if any.
    pub closed spec fn window(&self) -> Option<(u64, Seq<EmergenceSignal>)> {
        window_view(self.current_window)
    }

    /// The completed windows, oldest first.
    pub closed spec fn completed(&self) -> Seq<EmergenceWindow> {
        self.completed_windows@
    }

    /// Number of emergences so far.
    pub closed spec fn total(&self) -> u32 {
        self.emergence_count
    }

    /// Window checks since the last decay.
    pub closed spec fn decay(&self) -> u32 {
        self.decay_counter
    }

    /// The signals present for the given KL findings.
    pub open spec fn signals_now(&self, kl_spike: bool, kl_rising: bool) -> Seq<EmergenceSignal> {
        signals_of(
            kl_spike,
            kl_rising,
            self.concept_count(),
            self.edge_history(),
            self.bins(),
            self.behavior_count(),
        )
    }

    /// The monitor's invariant: ten bins holding at most `u32::MAX` weights,
    /// at most 100 edge counts, a decay counter below 30, the open window's
    /// signals distinct, and one completed window per emergence, each closed
    /// at least 10 ticks after it opened.
    pub closed spec fn wf(&self) -> bool {
        &&& self.weight_bins@.len() == 10
        &&& sum_u32(self.weight_bins@) <= u32::MAX
        &&& self.causal_edge_capacity == 100
        &&& self.causal_edge_history@.len() <= 100
        &&& self.decay_threshold == 30
        &&& self.decay_counter < 30
        &&& self.min_window_duration == 10
        &&& self.emergence_count == self.completed_windows@.len()
        &&& (self.current_window matches Some(w) ==> w.signals@.no_duplicates() && w.end_tick is None
            && w.product_count == 0)
        &&& forall|i: int|
            0 <= i < self.completed_windows@.len() ==> window_closed_properly(
                #[trigger] self.completed_windows@[i],
            )
    }

    /// A monitor with no history, no window and no emergence.
    pub fn new() -> (m: Self)
        ensures
            m.wf(),
            m.concept_count() == 0,
            m.behavior_count() == 0,
            m.edge_history().len() == 0,
            m.bins() == Seq::new(10, |i: int| 0u32),
            m.window() is None,
            m.completed().len() == 0,
            m.total() == 0,
            m.decay() == 0,
    {
        let mut bins: Vec<u32> = Vec::new();
        let mut i: usize = 0;
        while i < 10
            invariant
                i <= 10,
                bins@ == Seq::new(i as nat, |k: int| 0u32),
            decreases 10 - i,
        {
            bins.push(0);
            i = i + 1;
            assert(bins@ =~= Seq::new(i as nat, |k: int| 0u32));
        }
        proof {
            lemma_sum_zero(bins@);
        }
        EmergenceIndicators {
            concept_stability_count: 0,
            causal_edge_history: Vec::new(),
            causal_edge_capacity: 100,
            weight_bins: bins,
            behavior_diversity: 0,
            active_signals: Vec::new(),
            current_window: None,
            completed_windows: Vec::new(),
            emergence_count: 0,
            min_window_duration: 10,
            decay_counter: 0,
            decay_threshold: 30,
        }
    }

    /// Records the current number of causal edges; the oldest record goes
    /// when more than 100 are kept.
    pub fn record_causal_edges(&mut self, edges: usize)
        requires
            old(self).wf(),
        ensures
            final(self).wf(),
            final(self).edge_history() == if old(self).edge_history().len() + 1 > 100 {
                old(self).edge_history().push(edges).drop_first()
            } else {
                old(self).edge_history().push(edges)
            },
            final(self).concept_count() == old(self).concept_count(),
            final(self).behavior_count() == old(self).behavior_count(),
            final(self).bins() == old(self).bins(),
            final(self).window() == old(self).window(),
            final(self).completed() == old(self).completed(),
            final(self).total() == old(self).total(),
            final(self).decay() == old(self).decay(),
    {
        let ghost before = self.causal_edge_history@;
        self.causal_edge_history.push(edges);
        if self.causal_edge_history.len() > self.causal_edge_capacity {
            self.causal_edge_history.remove(0);
            assert(self.causal_edge_history@ =~= before.push(edges).drop_first());
        }
    }

    /// Records the weight distribution: `bin_of` holds, for each weight, its
    /// bin index in [-1, 1] scaled to 0..10; indices above 9 count in bin 9.
    pub fn record_weight_bins(&mut self, bin_of: &[usize])
        requires
            old(self).wf(),
            bin_of@.len() <= u32::MAX,
        ensures
            final(self).wf(),
            final(self).bins() == Seq::new(10, |k: int| bin_count(bin_of@, k) as u32),
            final(self).concept_count() == old(self).concept_count(),
            final(self).behavior_count() == old(self).behavior_count(),
            final(self).edge_history() == old(self).edge_history(),
            final(self).window() == old(self).window(),
            final(self).completed() == old(self).completed(),
            final(self).total() == old(self).total(),
            final(self).decay() == old(self).decay(),
    {
        let mut bins: Vec<u32> = Vec::new();
        let mut i: usize = 0;
        while i < 10
            invariant
                i <= 10,
                bins@ == Seq::new(i as nat, |k: int| 0u32),
            decreases 10 - i,
        {
            bins.push(0);
            i = i + 1;
            assert(bins@ =~= Seq::new(i as nat, |k: int| 0u32));
        }
        proof {
            lemma_sum_zero(bins@);
            assert forall|k: int| 0 <= k < 10 implies bins@[k] == bin_count(bin_of@.take(0), k) by {
                assert(bin_of@.take(0).len() == 0);
            }
        }
        let mut j: usize = 0;
        while j < bin_of.len()
            invariant
                j <= bin_of@.len(),
                bin_of@.len() <= u32::MAX,
                bins@.len() == 10,
                forall|k: int| 0 <= k < 10 ==> #[trigger] bins@[k] == bin_count(bin_of@.take(j as int), k),
                sum_u32(bins@) == j,
            decreases bin_of@.len() - j,
        {
            let b = if bin_of[j] < 9 {
                bin_of[j]
            } else {
                9
            };
            proof {
                let t1 = bin_of@.take(j + 1);
                assert(t1.drop_last() =~= bin_of@.take(j as int));
                assert(t1.last() == bin_of@[j as int]);
                lemma_bin_count_le(bin_of@.take(j as int), b as int);
                lemma_sum_update(bins@, b as int, (bins@[b as int] + 1) as u32);
            }
            let v = bins[b] + 1;
            bins.set(b, v);
            j = j + 1;
        }
        assert(bin_of@.take(bin_of@.len() as int) =~= bin_of@);
        assert(bins@ =~= Seq::new(10, |k: int| bin_count(bin_of@, k) as u32));
        self.weight_bins = bins;
    }

    /// Marks one more tick of a stable concept cluster (saturating).
    pub fn mark_concept_stable(&mut self)
        requires
            old(self).wf(),
        ensures
            final(self).wf(),
            final(self).concept_count() == if old(self).concept_count() < u32::MAX {
                (old(self).concept_count() + 1) as u32
            } else {
                u32::MAX
            },
            final(self).behavior_count() == old(self).behavior_count(),
            final(self).edge_history() == old(self).edge_history(),
            final(self).bins() == old(self).bins(),
            final(self).window() == old(self).window(),
            final(self).completed() == old(self).completed(),
            final(self).total() == old(self).total(),
            final(self).decay() == old(self).decay(),
    {
        self.concept_stability_count = self.concept_stability_count.saturating_add(1);
    }

    /// Marks one more new behaviour pattern (saturating).
    pub fn mark_new_behavior(&mut self)
        requires
            old(self).wf(),
        ensures
            final(self).wf(),
            final(self).behavior_count() == if old(self).behavior_count() < u32::MAX {
                (old(self).behavior_count() + 1) as u32
            } else {
                u32::MAX
            },
            final(self).concept_count() == old(self).concept_count(),
            final(self).edge_history() == old(self).edge_history(),
            final(self).bins() == old(self).bins(),
            final(self).window() == old(self).window(),
            final(self).completed() == old(self).completed(),
            final(self).total() == old(self).total(),
            final(self).decay() == old(self).decay(),
    {
        self.behavior_diversity = self.behavior_diversity.saturating_add(1);
    }

    fn causal_simplification(&self) -> (b: bool)
        requires
            self.wf(),
        ensures
            b == causal_simplified(self.edge_history()),
    {
        let h = &self.causal_edge_history;
        let n = h.len();
        if n < 50 {
            return false;
        }
        let mut early: u128 = 0;
        let mut i: usize = 0;
        while i < 20
            invariant
                i <= 20,
                n == h@.len(),
                n >= 50,
                early == sum_usize(h@.take(i as int)),
                early <= i * 0x1_0000_0000_0000_0000,
            decreases 20 - i,
        {
            proof {
                assert(h@.take(i + 1).drop_last() =~= h@.take(i as int));
            }
            early = early + h[i] as u128;
            i = i + 1;
        }
        let mut late: u128 = 0;
        let mut k: usize = n - 20;
        proof {
            assert(h@.subrange(n - 20, n - 20) =~= Seq::<usize>::empty());
        }
        while k < n
            invariant
                n - 20 <= k <= n,
                n == h@.len(),
                n >= 50,
                late == sum_usize(h@.subrange(n - 20, k as int)),
                late <= (k - (n - 20)) * 0x1_0000_0000_0000_0000,
            decreases n - k,
        {
            proof {
                assert(h@.subrange(n - 20, k + 1).drop_last() =~= h@.subrange(n - 20, k as int));
            }
            late = late + h[k] as u128;
            k = k + 1;
        }
        early >= 20 && 7 * early > 10 * late
    }

    fn weight_bimodal(&self) -> (b: bool)
        requires
            self.wf(),
        ensures
            b == weights_bimodal(self.bins()),
    {
        let bins = &self.weight_bins;
        let mut total: u32 = 0;
        let mut i: usize = 0;
        while i < 10
            invariant
                i <= 10,
                bins@.len() == 10,
                sum_u32(bins@) <= u32::MAX,
                total == sum_u32(bins@.take(i as int)),
            decreases 10 - i,
        {
            proof {
                assert(bins@.take(i + 1).drop_last() =~= bins@.take(i as int));
                lemma_sum_prefix_le(bins@, i + 1);
            }
            total = total + bins[i];
            i = i + 1;
        }
        assert(bins@.take(10) =~= bins@);
        if total < 100 {
            return false;
        }
        proof {
            lemma_sum_two_le(bins@, 4, 5);
        }
        bins[2] > total / 5 && bins[7] > total / 5 && bins[4] + bins[5] < total / 8
    }

    /// The emergence signals present now, each once, in the order they are
    /// checked: the KL signal (on a KL spike or a rising KL mean), a concept
    /// cluster stable for more than 30 ticks, a simplified causal graph,
    /// bimodal weights, and more than 5 behaviour patterns.
    pub fn detect(&mut self, kl_spike: bool, kl_rising: bool) -> (r: Vec<EmergenceSignal>)
        requires
            old(self).wf(),
        ensures
            final(self).wf(),
            r@ == old(self).signals_now(kl_spike, kl_rising),
            r@.no_duplicates(),
            final(self).concept_count() == old(self).concept_count(),
            final(self).behavior_count() == old(self).behavior_count(),
            final(self).edge_history() == old(self).edge_history(),
            final(self).bins() == old(self).bins(),
            final(self).window() == old(self).window(),
            final(self).completed() == old(self).completed(),
            final(self).total() == old(self).total(),
            final(self).decay() == old(self).decay(),
    {
        let mut r: Vec<EmergenceSignal> = Vec::new();
        if kl_spike || kl_rising {
            r.push(EmergenceSignal::KLDivergenceSpike);
        }
        if self.concept_stability_count > 30 {
            r.push(EmergenceSignal::ConceptClusterStable);
        }
        if self.causal_simplification() {
            r.push(EmergenceSignal::CausalGraphSimplified);
        }
        if self.weight_bimodal() {
            r.push(EmergenceSignal::WeightBimodalization);
        }
        if self.behavior_diversity > 5 {
            r.push(EmergenceSignal::BehaviorDiversityPeak);
        }
        assert(r@ =~= self.signals_now(kl_spike, kl_rising));
        proof {
            law_signals_distinct(
                kl_spike,
                kl_rising,
                self.concept_count(),
                self.edge_history(),
                self.bins(),
                self.behavior_count(),
            );
        }
        self.active_signals = copy_signals(&r);
        r
    }

    /// Whether three or more of the five signals are present now.
    pub fn is_emerging(&mut self, kl_spike: bool, kl_rising: bool) -> (b: bool)
        requires
            old(self).wf(),
        ensures
            final(self).wf(),
            b == (old(self).signals_now(kl_spike, kl_rising).len() >= 3),
            final(self).concept_count() == old(self).concept_count(),
            final(self).behavior_count() == old(self).behavior_count(),
            final(self).edge_history() == old(self).edge_history(),
            final(self).bins() == old(self).bins(),
            final(self).window() == old(self).window(),
            final(self).completed() == old(self).completed(),
            final(self).total() == old(self).total(),
            final(self).decay() == old(self).decay(),
    {
        let s = self.detect(kl_spike, kl_rising);
        s.len() >= 3
    }

    /// One window check at `current_tick`.
    ///
    /// Every 30 checks the fresh signals decay: the behaviour count drops by
    /// 2 and the concept count by 10 (not below zero).  Then, with three or
    /// more signals present, a window opens (`Start`) unless one is open
    /// (`Continue`).  With fewer, an open window closes: after at least 10
    /// ticks it is completed and counted (`End`), otherwise dropped
    /// (`Cancel`); with no window open nothing happens (`None`).
    pub fn detect_window(&mut self, current_tick: u64, kl_spike: bool, kl_rising: bool) -> (ev:
        WindowEvent)
        requires
            old(self).wf(),
            old(self).total() < u32::MAX,
        ensures
            final(self).wf(),
            ({
                let decayed = old(self).decay() + 1 >= 30;
                let concept = if decayed {
                    if old(self).concept_count() >= 10 {
                        (old(self).concept_count() - 10) as u32
                    } else {
                        0u32
                    }
                } else {
                    old(self).concept_count()
                };
                let behavior = if decayed {
                    if old(self).behavior_count() >= 2 {
                        (old(self).behavior_count() - 2) as u32
                    } else {
                        0u32
                    }
                } else {
                    old(self).behavior_count()
                };
                let active = signals_of(
                    kl_spike,
                    kl_rising,
                    concept,
                    old(self).edge_history(),
                    old(self).bins(),
                    behavior,
                );
                &&& final(self).decay() == if decayed { 0 } else { old(self).decay() + 1 }
                &&& final(self).concept_count() == concept
                &&& final(self).behavior_count() == behavior
                &&& final(self).edge_history() == old(self).edge_history()
                &&& final(self).bins() == old(self).bins()
                &&& if active.len() >= 3 {
                    match old(self).window() {
                        None => {
                            &&& event_view(ev) == (1int, current_tick, 0u64, 0u64, active)
                            &&& final(self).window() == Some((current_tick, dedup_signals(active)))
                            &&& final(self).completed() == old(self).completed()
                            &&& final(self).total() == old(self).total()
                        },
                        Some(w) => {
                            &&& event_view(ev) == (2int, 0u64, 0u64, 0u64, Seq::<EmergenceSignal>::empty())
                            &&& final(self).window() == old(self).window()
                            &&& final(self).completed() == old(self).completed()
                            &&& final(self).total() == old(self).total()
                        },
                    }
                } else {
                    &&& final(self).window() is None
                    &&& match old(self).window() {
                        None => {
                            &&& event_view(ev) == (0int, 0u64, 0u64, 0u64, Seq::<EmergenceSignal>::empty())
                            &&& final(self).completed() == old(self).completed()
                            &&& final(self).total() == old(self).total()
                        },
                        Some((start, sigs)) => {
                            let duration = if current_tick >= start {
                                (current_tick - start) as u64
                            } else {
                                0u64
                            };
                            if duration >= 10 {
                                &&& event_view(ev) == (3int, start, current_tick, duration, sigs)
                                &&& final(self).completed().len() == old(self).completed().len() + 1
                                &&& final(self).completed().drop_last() == old(self).completed()
                                &&& final(self).completed().last().start_tick == start
                                &&& final(self).completed().last().end_tick == Some(current_tick)
                                &&& final(self).completed().last().signals@ == sigs
                                &&& final(self).completed().last().product_count == 0
                                &&& final(self).total() == old(self).total() + 1
                            } else {
                                &&& event_view(ev) == (4int, 0u64, 0u64, 0u64, Seq::<EmergenceSignal>::empty())
                                &&& final(self).completed() == old(self).completed()
                                &&& final(self).total() == old(self).total()
                            }
                        },
                    }
                }
            }),
    {
        self.decay_counter = self.decay_counter + 1;
        if self.decay_counter >= self.decay_threshold {
            self.decay_counter = 0;
            self.behavior_diversity = self.behavior_diversity.saturating_sub(2);
            self.concept_stability_count = self.concept_stability_count.saturating_sub(10);
        }
        let active = self.detect(kl_spike, kl_rising);
        if active.len() >= 3 {
            if self.current_window.is_none() {
                let signals = distinct_signals(&active);
                self.current_window = Some(
                    EmergenceWindow {
                        start_tick: current_tick,
                        end_tick: None,
                        signals,
                        product_count: 0,
                    },
                );
                WindowEvent::Start { tick: current_tick, signals: active }
            } else {
                WindowEvent::Continue
            }
        } else {
            let taken = self.current_window.take();
            match taken {
                Some(w) => {
                    let duration = current_tick.saturating_sub(w.start_tick);
                    if duration >= self.min_window_duration {
                        let start_tick = w.start_tick;
                        let event_signals = copy_signals(&w.signals);
                        let final_window = EmergenceWindow {
                            start_tick,
                            end_tick: Some(current_tick),
                            signals: w.signals,
                            product_count: w.product_count,
                        };
                        self.completed_windows.push(final_window);
                        self.emergence_count = self.emergence_count + 1;
                        proof {
                            assert forall|i: int| 0 <= i < self.completed_windows@.len() implies window_closed_properly(
                                #[trigger] self.completed_windows@[i],
                            ) by {
                                if i < self.completed_windows@.len() - 1 {
                                    assert(self.completed_windows@[i] == old(self).completed_windows@[i]);
                                }
                            }
                        }
                        WindowEvent::End {
                            start_tick,
                            end_tick: current_tick,
                            duration,
                            signals: event_signals,
                        }
                    } else {
                        WindowEvent::Cancel
                    }
                },
                None => WindowEvent::NoEvent,
            }
        }
    }

    /// Number of emergences so far.
    pub fn emergence_count(&self) -> (n: u32)
        ensures
            n == self.total(),
    {
        self.emergence_count
    }

    /// Number of emergences so far.
    pub fn total_emergences(&self) -> (n: u32)
        ensures
            n == self.total(),
    {
        self.emergence_count
    }

    /// The completed windows, oldest first; each lasted at least 10 ticks.
    pub fn completed_windows(&self) -> (ws: &[EmergenceWindow])
        requires
            self.wf(),
        ensures
            ws@ == self.completed(),
            ws@.len() == self.total(),
            forall|i: int| 0 <= i < ws@.len() ==> window_closed_properly(#[trigger] ws@[i]),
    {
        self.completed_windows.as_slice()
    }

    /// Whether a window is open.
    pub fn in_window(&self) -> (b: bool)
        ensures
            b == (self.window() is Some),
    {
        self.current_window.is_some()
    }

    /// Whether a window is open.
    pub fn has_window(&self) -> (b: bool)
        ensures
            b == (self.window() is Some),
    {
        self.current_window.is_some()
    }
}

/// A completed window closed at least 10 ticks after it opened.
pub open spec fn window_closed_properly(w: EmergenceWindow) -> bool {
    match w.end_tick {
        Some(e) => e >= w.start_tick + 10,
        None => false,
    }
}

fn copy_signals(s: &Vec<EmergenceSignal>) -> (r: Vec<EmergenceSignal>)
    ensures
        r@ == s@,
{
    let mut r: Vec<EmergenceSignal> = Vec::new();
    let mut i: usize = 0;
    while i < s.len()
        invariant
            i <= s@.len(),
            r@ == s@.take(i as int),
        decreases s@.len() - i,
    {
        r.push(s[i]);
        i = i + 1;
        assert(r@ =~= s@.take(i as int));
    }
    assert(s@.take(s@.len() as int) =~= s@);
    r
}

proof fn lemma_dedup_distinct(s: Seq<EmergenceSignal>)
    ensures
        dedup_signals(s).no_duplicates(),
    decreases s.len(),
{
    if s.len() > 0 {
        lemma_dedup_distinct(s.drop_last());
    }
}

fn distinct_signals(s: &Vec<EmergenceSignal>) -> (r: Vec<EmergenceSignal>)
    ensures
        r@ == dedup_signals(s@),
        r@.no_duplicates(),
{
    let mut r: Vec<EmergenceSignal> = Vec::new();
    let mut i: usize = 0;
    while i < s.len()
        invariant
            i <= s@.len(),
            r@ == dedup_signals(s@.take(i as int)),
        decreases s@.len() - i,
    {
        let x = s[i];
        let mut seen = false;
        let mut j: usize = 0;
        while j < r.len()
            invariant
                j <= r@.len(),
                seen == (exists|t: int| 0 <= t < j && r@[t] == x),
            decreases r@.len() - j,
        {
            if r[j] == x {
                seen = true;
            }
            j = j + 1;
        }
        proof {
            let t1 = s@.take(i + 1);
            assert(t1.drop_last() =~= s@.take(i as int));
            assert(t1.last() == x);
            if seen {
                let t = choose|t: int| 0 <= t < r@.len() && r@[t] == x;
                assert(r@.contains(x));
            } else {
                assert(!r@.contains(x));
            }
        }
        if !seen {
            r.push(x);
        }
        i = i + 1;
    }
    assert(s@.take(s@.len() as int) =~= s@);
    proof {
        lemma_dedup_distinct(s@);
    }
    r
}

proof fn lemma_sum_zero(s: Seq<u32>)
    requires
        forall|i: int| 0 <= i < s.len() ==> s[i] == 0,
    ensures
        sum_u32(s) == 0,
    decreases s.len(),
{
    if s.len() > 0 {
        lemma_sum_zero(s.drop_last());
    }
}

proof fn lemma_sum_update(s: Seq<u32>, k: int, v: u32)
    requires
        0 <= k < s.len(),
    ensures
        sum_u32(s.update(k, v)) == sum_u32(s) - s[k] + v,
    decreases s.len(),
{
    if k < s.len() - 1 {
        assert(s.update(k, v).drop_last() =~= s.drop_last().update(k, v));
        lemma_sum_update(s.drop_last(), k, v);
    } else {
        assert(s.update(k, v).drop_last() =~= s.drop_last());
    }
}

proof fn lemma_sum_prefix_le(s: Seq<u32>, i: int)
    requires
        0 <= i <= s.len(),
    ensures
        sum_u32(s.take(i)) <= sum_u32(s),
    decreases s.len() - i,
{
    if i < s.len() {
        lemma_sum_prefix_le(s, i + 1);
        assert(s.take(i + 1).drop_last() =~= s.take(i));
    } else {
        assert(s.take(i) =~= s);
    }
}

proof fn lemma_sum_elem_le(s: Seq<u32>, k: int)
    requires
        0 <= k < s.len(),
    ensures
        s[k] <= sum_u32(s),
    decreases s.len(),
{
    if k < s.len() - 1 {
        lemma_sum_elem_le(s.drop_last(), k);
    } else {
        lemma_sum_nonneg(s.drop_last());
    }
}

proof fn lemma_sum_nonneg(s: Seq<u32>)
    ensures
        sum_u32(s) >= 0,
    decreases s.len(),
{
    if s.len() > 0 {
        lemma_sum_nonneg(s.drop_last());
    }
}

proof fn lemma_sum_two_le(s: Seq<u32>, a: int, b: int)
    requires
        0 <= a < b < s.len(),
    ensures
        s[a] + s[b] <= sum_u32(s),
    decreases s.len(),
{
    if b < s.len() - 1 {
        lemma_sum_two_le(s.drop_last(), a, b);
    } else {
        lemma_sum_elem_le(s.drop_last(), a);
    }
}

proof fn lemma_bin_count_le(idx: Seq<usize>, k: int)
    ensures
        bin_count(idx, k) <= idx.len(),
    decreases idx.len(),
{
    if idx.len() > 0 {
        lemma_bin_count_le(idx.drop_last(), k);
    }
}

} // verus!
