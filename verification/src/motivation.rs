//! Growth stages of the intrinsic motivation engine.
//!
//! The drive is a weighted sum of curiosity (prediction error), reward and
//! penalty; the weights depend on the growth stage.  The weights are kept
//! here in hundredths (so 80 stands for 0.80); the drive itself, a
//! floating-point sum, is computed by the caller from them.

use vstd::prelude::*;

verus! {

/// The growth stages, in order.
#[derive(Debug, Clone, Copy, PartialEq, Eq, Structural)]
pub enum GrowthStage {
    /// Curiosity first.
    Infant,
    /// Balanced.
    Juvenile,
    /// Reward first.
    Adult,
    /// Integrating.
    Sage,
}

/// The position of a stage: 0 for `Infant` up to 3 for `Sage`.
pub open spec fn stage_rank(s: GrowthStage) -> nat {
    match s {
        GrowthStage::Infant => 0,
        GrowthStage::Juvenile => 1,
        GrowthStage::Adult => 2,
        GrowthStage::Sage => 3,
    }
}

/// The stage after `s`; `Sage` is the last and stays.
pub open spec fn next_stage(s: GrowthStage) -> GrowthStage {
    match s {
        GrowthStage::Infant => GrowthStage::Juvenile,
        GrowthStage::Juvenile => GrowthStage::Adult,
        GrowthStage::Adult => GrowthStage::Sage,
        GrowthStage::Sage => GrowthStage::Sage,
    }
}

/// The (curiosity, reward, penalty) weights of a stage, in hundredths.
pub open spec fn stage_weights(s: GrowthStage) -> (u32, u32, u32) {
    match s {
        GrowthStage::Infant => (80, 15, 5),
        GrowthStage::Juvenile => (50, 40, 10),
        GrowthStage::Adult => (30, 60, 10),
        GrowthStage::Sage => (20, 50, 30),
    }
}

/// `n` stages on from `s`.
pub open spec fn stage_after(s: GrowthStage, n: nat) -> GrowthStage
    decreases n,
{
    if n == 0 {
        s
    } else {
        next_stage(stage_after(s, (n - 1) as nat))
    }
}

/// The stage after `stage`.
pub fn advance_stage(stage: GrowthStage) -> (s: GrowthStage)
    ensures
        s == next_stage(stage),
{
    match stage {
        GrowthStage::Infant => GrowthStage::Juvenile,
        GrowthStage::Juvenile => GrowthStage::Adult,
        GrowthStage::Adult => GrowthStage::Sage,
        GrowthStage::Sage => GrowthStage::Sage,
    }
}

/// The (curiosity, reward, penalty) weights of `stage`, in hundredths.
pub fn weights_of(stage: GrowthStage) -> (w: (u32, u32, u32))
    ensures
        w == stage_weights(stage),
{
    match stage {
        GrowthStage::Infant => (80, 15, 5),
        GrowthStage::Juvenile => (50, 40, 10),
        GrowthStage::Adult => (30, 60, 10),
        GrowthStage::Sage => (20, 50, 30),
    }
}

/// The stage-dependent part of the intrinsic motivation engine.
pub struct IntrinsicMotivation {
    stage: GrowthStage,
    curiosity_weight: u32,
    reward_weight: u32,
    penalty_weight: u32,
}

impl IntrinsicMotivation {
    /// The stage the engine is at.
    pub closed spec fn current(&self) -> GrowthStage {
        self.stage
    }

    /// The engine's invariant: its weights are those of its stage.
    pub closed spec fn wf(&self) -> bool {
        (self.curiosity_weight, self.reward_weight, self.penalty_weight) == stage_weights(self.stage)
    }

    /// An engine at `stage`.
    pub fn with_stage(stage: GrowthStage) -> (m: Self)
        ensures
            m.wf(),
            m.current() == stage,
    {
        let (cw, rw, pw) = weights_of(stage);
        IntrinsicMotivation { stage, curiosity_weight: cw, reward_weight: rw, penalty_weight: pw }
    }

    /// An engine at the juvenile stage.
    pub fn new() -> (m: Self)
        ensures
            m.wf(),
            m.current() == GrowthStage::Juvenile,
    {
        Self::with_stage(GrowthStage::Juvenile)
    }

    /// The stage.
    pub fn stage(&self) -> (s: GrowthStage)
        ensures
            s == self.current(),
    {
        self.stage
    }

    /// The (curiosity, reward, penalty) weights, in hundredths; each stage's
    /// weights sum to 100.
    pub fn weights(&self) -> (w: (u32, u32, u32))
        requires
            self.wf(),
        ensures
            w == stage_weights(self.current()),
            w.0 + w.1 + w.2 == 100,
    {
        (self.curiosity_weight, self.reward_weight, self.penalty_weight)
    }

    /// Moves to the next growth stage (the sage stage stays) and takes its
    /// weights.
    pub fn advance(&mut self)
        requires
            old(self).wf(),
        ensures
            final(self).wf(),
            final(self).current() == next_stage(old(self).current()),
    {
        self.stage = advance_stage(self.stage);
        let (cw, rw, pw) = weights_of(self.stage);
        self.curiosity_weight = cw;
        self.reward_weight = rw;
        self.penalty_weight = pw;
    }
}

/// Growing up never goes back, and moves on unless at the sage stage.
pub proof fn law_advance_moves_forward(s: GrowthStage)
    ensures
        stage_rank(next_stage(s)) >= stage_rank(s),
        s != GrowthStage::Sage ==> stage_rank(next_stage(s)) == stage_rank(s) + 1,
        s == GrowthStage::Sage ==> next_stage(s) == GrowthStage::Sage,
{
}

/// Three advances reach the sage stage from any stage, and it is kept from
/// then on.
pub proof fn law_sage_reached_and_kept(s: GrowthStage, n: nat)
    requires
        n >= 3,
    ensures
        stage_after(s, n) == GrowthStage::Sage,
    decreases n,
{
    if n == 3 {
        reveal_with_fuel(stage_after, 4);
    } else {
        law_sage_reached_and_kept(s, (n - 1) as nat);
    }
}

/// Curiosity weighs most for an infant, reward most for an adult, and each
/// stage's weights sum to one.
pub proof fn law_stage_weights(s: GrowthStage)
    ensures
        stage_weights(s).0 + stage_weights(s).1 + stage_weights(s).2 == 100,
        stage_weights(GrowthStage::Infant).0 > stage_weights(GrowthStage::Infant).1,
        stage_weights(GrowthStage::Adult).1 > stage_weights(GrowthStage::Adult).0,
{
}

} // verus!
