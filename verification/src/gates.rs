//! The eight-gate output state machine.
//!
//! Eight gate states govern the system's output.  Every transition is checked
//! against a fixed set of 31 invariants before it is taken; the dead gate can
//! never be left once entered, and every taken transition is kept in an
//! audit history.

use vstd::prelude::*;
use vstd::string::*;

use crate::clock::unix_time_nanos;
use crate::error::{CoreError, CoreResult};
use crate::text::str_eq;

verus! {

/// The eight gate states.
#[derive(Debug, Clone, Copy, PartialEq, Eq, Hash, Structural)]
pub enum GateState {
    /// Normal output.
    Open,
    /// Resting, low power.
    Rest,
    /// Creating / learning.
    Create,
    /// Self repair.
    Heal,
    /// Silent: no output.
    Silent,
    /// Display / visualisation.
    Display,
    /// Alert / detection.
    Alert,
    /// Full stop: every output is taken over.
    Dead,
}

/// The display name of a gate.
pub open spec fn gate_label(g: GateState) -> Seq<char> {
    match g {
        GateState::Open => "开门"@,
        GateState::Rest => "休门"@,
        GateState::Create => "生门"@,
        GateState::Heal => "伤门"@,
        GateState::Silent => "杜门"@,
        GateState::Display => "景门"@,
        GateState::Alert => "惊门"@,
        GateState::Dead => "死门"@,
    }
}

/// Gates that block output (and hand output over to the API layer).
pub open spec fn is_blocking(g: GateState) -> bool {
    g == GateState::Silent || g == GateState::Dead
}

/// Gates that trigger memory consolidation.
pub open spec fn is_consolidating(g: GateState) -> bool {
    g == GateState::Rest || g == GateState::Heal
}

/// The state named by `name` (its Chinese or English name), if any.
pub open spec fn gate_named(name: Seq<char>) -> Option<GateState> {
    if name == "开门"@ || name == "open"@ {
        Some(GateState::Open)
    } else if name == "休门"@ || name == "rest"@ {
        Some(GateState::Rest)
    } else if name == "生门"@ || name == "create"@ {
        Some(GateState::Create)
    } else if name == "伤门"@ || name == "heal"@ {
        Some(GateState::Heal)
    } else if name == "杜门"@ || name == "silent"@ {
        Some(GateState::Silent)
    } else if name == "景门"@ || name == "display"@ {
        Some(GateState::Display)
    } else if name == "惊门"@ || name == "alert"@ {
        Some(GateState::Alert)
    } else if name == "死门"@ || name == "dead"@ {
        Some(GateState::Dead)
    } else {
        None
    }
}

impl GateState {
    /// Display name of this state.
    pub fn as_str(&self) -> (s: &'static str)
        ensures
            s@ == gate_label(*self),
    {
        match self {
            GateState::Open => "开门",
            GateState::Rest => "休门",
            GateState::Create => "生门",
            GateState::Heal => "伤门",
            GateState::Silent => "杜门",
            GateState::Display => "景门",
            GateState::Alert => "惊门",
            GateState::Dead => "死门",
        }
    }

    /// Whether this state blocks output.
    pub fn blocks_output(&self) -> (b: bool)
        ensures
            b == is_blocking(*self),
    {
        matches!(self, GateState::Silent | GateState::Dead)
    }

    /// Whether this state triggers memory consolidation.
    pub fn triggers_memory_consolidation(&self) -> (b: bool)
        ensures
            b == is_consolidating(*self),
    {
        matches!(self, GateState::Rest | GateState::Heal)
    }

    /// Whether this state hands output over to the API layer.
    pub fn triggers_api_takeover(&self) -> (b: bool)
        ensures
            b == is_blocking(*self),
    {
        matches!(self, GateState::Silent | GateState::Dead)
    }

    /// Parses a gate name, Chinese ("开门") or English ("open").
    pub fn from_name(name: &str) -> (g: Option<GateState>)
        ensures
            g == gate_named(name@),
    {
        if str_eq(name, "开门") || str_eq(name, "open") {
            Some(GateState::Open)
        } else if str_eq(name, "休门") || str_eq(name, "rest") {
            Some(GateState::Rest)
        } else if str_eq(name, "生门") || str_eq(name, "create") {
            Some(GateState::Create)
        } else if str_eq(name, "伤门") || str_eq(name, "heal") {
            Some(GateState::Heal)
        } else if str_eq(name, "杜门") || str_eq(name, "silent") {
            Some(GateState::Silent)
        } else if str_eq(name, "景门") || str_eq(name, "display") {
            Some(GateState::Display)
        } else if str_eq(name, "惊门") || str_eq(name, "alert") {
            Some(GateState::Alert)
        } else if str_eq(name, "死门") || str_eq(name, "dead") {
            Some(GateState::Dead)
        } else {
            None
        }
    }
}

/// The error of a refused gate transition.
#[derive(Debug)]
pub enum GateError {
    /// A transition was refused by an invariant; the text names it.
    InvariantViolated(String),
}

/// One recorded gate transition.
#[derive(Debug, Clone)]
pub struct GateTransition {
    pub from: GateState,
    pub to: GateState,
    pub timestamp_ns: u128,
    pub reason: String,
}

/// The predicate of one invariant, over a proposed transition `from -> to`.
#[derive(Debug, Clone, Copy, PartialEq, Eq, Structural)]
pub enum GateRule {
    /// Holds of every transition (a temporal or caller-side obligation).
    Always,
    /// The dead gate is entered only from the alert or silent gate (or itself).
    DeadEntryGuarded,
    /// Leaving the dead gate goes only to the open gate (or stays dead).
    DeadExitToOpen,
    /// The create gate never goes straight to the dead gate.
    CreateNeverToDead,
    /// The alert gate never goes straight to the create gate.
    AlertNeverToCreate,
    /// The dead gate only goes to itself.
    DeadAbsorbing,
}

/// Whether `rule` admits the transition `from -> to`.
pub open spec fn rule_allows(rule: GateRule, from: GateState, to: GateState) -> bool {
    match rule {
        GateRule::Always => true,
        GateRule::DeadEntryGuarded => to != GateState::Dead || from == GateState::Alert
            || from == GateState::Silent || from == GateState::Dead,
        GateRule::DeadExitToOpen => from != GateState::Dead || to == GateState::Open || to
            == GateState::Dead,
        GateRule::CreateNeverToDead => !(from == GateState::Create && to == GateState::Dead),
        GateRule::AlertNeverToCreate => !(from == GateState::Alert && to == GateState::Create),
        GateRule::DeadAbsorbing => from != GateState::Dead || to == GateState::Dead,
    }
}

impl GateRule {
    /// Evaluates the rule on a proposed transition.
    pub fn allows(&self, from: GateState, to: GateState) -> (b: bool)
        ensures
            b == rule_allows(*self, from, to),
    {
        match self {
            GateRule::Always => true,
            GateRule::DeadEntryGuarded => to != GateState::Dead || from == GateState::Alert
                || from == GateState::Silent || from == GateState::Dead,
            GateRule::DeadExitToOpen => from != GateState::Dead || to == GateState::Open || to
                == GateState::Dead,
            GateRule::CreateNeverToDead => !(from == GateState::Create && to == GateState::Dead),
            GateRule::AlertNeverToCreate => !(from == GateState::Alert && to
                == GateState::Create),
            GateRule::DeadAbsorbing => from != GateState::Dead || to == GateState::Dead,
        }
    }
}

/// One invariant: its description and its predicate.
#[derive(Debug, Clone, Copy)]
pub struct Invariant {
    pub description: &'static str,
    pub rule: GateRule,
}

/// The 31 core invariants, in the order in which they are checked.
#[verifier::opaque]
pub open spec fn core_invariants() -> Seq<Invariant> {
    seq![
        Invariant { description: "死门状态下所有输出必须阻断", rule: GateRule::Always },
        Invariant { description: "进死门必须经过惊门或杜门", rule: GateRule::DeadEntryGuarded },
        Invariant { description: "死门状态保持至少 1 个 tick", rule: GateRule::Always },
        Invariant { description: "从死门恢复必须经过开门", rule: GateRule::DeadExitToOpen },
        Invariant { description: "死门触发 API 接管", rule: GateRule::Always },
        Invariant { description: "杜门状态不输出文本", rule: GateRule::Always },
        Invariant { description: "进杜门必须有明确原因(伦理冲突/用户请求)", rule: GateRule::Always },
        Invariant { description: "杜门保持至少 2 个 tick", rule: GateRule::Always },
        Invariant { description: "杜门触发 API 接管", rule: GateRule::Always },
        Invariant { description: "杜门状态允许学习但不输出", rule: GateRule::Always },
        Invariant { description: "休门触发记忆巩固", rule: GateRule::Always },
        Invariant { description: "伤门触发记忆巩固 + 自我修复", rule: GateRule::Always },
        Invariant { description: "休门不接受高风险动作", rule: GateRule::Always },
        Invariant { description: "伤门降低输出频率", rule: GateRule::Always },
        Invariant { description: "伤门状态保持不超过 100 tick", rule: GateRule::Always },
        Invariant { description: "生门允许高创造性输出", rule: GateRule::Always },
        Invariant { description: "生门可被升级到惊门(发现异常时)", rule: GateRule::CreateNeverToDead },
        Invariant { description: "景门输出必须有可视化数据支撑", rule: GateRule::Always },
        Invariant { description: "景门可自由切换到开门", rule: GateRule::Always },
        Invariant { description: "生门状态持续至少 5 tick", rule: GateRule::Always },
        Invariant { description: "惊门状态必须监控异常", rule: GateRule::Always },
        Invariant { description: "惊门可降级到开门或升级到杜门/死门", rule: GateRule::AlertNeverToCreate },
        Invariant { description: "惊门不接受高创造性输出", rule: GateRule::Always },
        Invariant { description: "惊门持续超过 50 tick 升级到杜门", rule: GateRule::Always },
        Invariant { description: "惊门可由任何状态进入", rule: GateRule::DeadAbsorbing },
        Invariant { description: "开门接受所有非危险动作", rule: GateRule::Always },
        Invariant { description: "开门可切换到任何门", rule: GateRule::DeadAbsorbing },
        Invariant { description: "开门持续时间过长应进入休门", rule: GateRule::Always },
        Invariant { description: "开门检测到异常立即进惊门", rule: GateRule::Always },
        Invariant { description: "开门是默认启动状态", rule: GateRule::Always },
        Invariant { description: "任何状态转移都必须在审计日志中可追溯", rule: GateRule::Always },
    ]
}

/// Every invariant of `invs` admits `from -> to`.
pub open spec fn all_allow(invs: Seq<Invariant>, from: GateState, to: GateState) -> bool {
    forall|i: int| 0 <= i < invs.len() ==> rule_allows(#[trigger] invs[i].rule, from, to)
}

/// `k` is the first invariant of `invs` that refuses `from -> to`.
pub open spec fn first_refusal(
    invs: Seq<Invariant>,
    from: GateState,
    to: GateState,
    k: int,
) -> bool {
    &&& 0 <= k < invs.len()
    &&& !rule_allows(invs[k].rule, from, to)
    &&& forall|j: int| 0 <= j < k ==> rule_allows(#[trigger] invs[j].rule, from, to)
}

/// The text that reports a refusal by the invariant described by `desc`.
pub open spec fn violation_text(desc: Seq<char>) -> Seq<char> {
    "不变式违反:"@ + desc
}

/// The closed form of the 31 invariants: the dead gate is entered only from
/// the alert or silent gate, is never left, the create gate never goes
/// straight to the dead gate, and the alert gate never goes straight to the
/// create gate.
pub open spec fn gate_law(from: GateState, to: GateState) -> bool {
    &&& (to == GateState::Dead ==> from == GateState::Alert || from == GateState::Silent || from
        == GateState::Dead)
    &&& (from == GateState::Dead ==> to == GateState::Dead)
    &&& !(from == GateState::Create && to == GateState::Dead)
    &&& !(from == GateState::Alert && to == GateState::Create)
}

/// A set of transition invariants, checked in order.
pub struct InvariantSet {
    invariants: Vec<Invariant>,
}

impl InvariantSet {
    /// The invariants, in checking order.
    pub closed spec fn items(&self) -> Seq<Invariant> {
        self.invariants@
    }

    /// The 31 core invariants.
    pub fn core_31() -> (s: Self)
        ensures
            s.items() == core_invariants(),
    {
        let mut invs: Vec<Invariant> = Vec::new();
        invs.push(Invariant { description: "死门状态下所有输出必须阻断", rule: GateRule::Always });
        invs.push(Invariant { description: "进死门必须经过惊门或杜门", rule: GateRule::DeadEntryGuarded });
        invs.push(Invariant { description: "死门状态保持至少 1 个 tick", rule: GateRule::Always });
        invs.push(Invariant { description: "从死门恢复必须经过开门", rule: GateRule::DeadExitToOpen });
        invs.push(Invariant { description: "死门触发 API 接管", rule: GateRule::Always });
        invs.push(Invariant { description: "杜门状态不输出文本", rule: GateRule::Always });
        invs.push(Invariant { description: "进杜门必须有明确原因(伦理冲突/用户请求)", rule: GateRule::Always });
        invs.push(Invariant { description: "杜门保持至少 2 个 tick", rule: GateRule::Always });
        invs.push(Invariant { description: "杜门触发 API 接管", rule: GateRule::Always });
        invs.push(Invariant { description: "杜门状态允许学习但不输出", rule: GateRule::Always });
        invs.push(Invariant { description: "休门触发记忆巩固", rule: GateRule::Always });
        invs.push(Invariant { description: "伤门触发记忆巩固 + 自我修复", rule: GateRule::Always });
        invs.push(Invariant { description: "休门不接受高风险动作", rule: GateRule::Always });
        invs.push(Invariant { description: "伤门降低输出频率", rule: GateRule::Always });
        invs.push(Invariant { description: "伤门状态保持不超过 100 tick", rule: GateRule::Always });
        invs.push(Invariant { description: "生门允许高创造性输出", rule: GateRule::Always });
        invs.push(Invariant { description: "生门可被升级到惊门(发现异常时)", rule: GateRule::CreateNeverToDead });
        invs.push(Invariant { description: "景门输出必须有可视化数据支撑", rule: GateRule::Always });
        invs.push(Invariant { description: "景门可自由切换到开门", rule: GateRule::Always });
        invs.push(Invariant { description: "生门状态持续至少 5 tick", rule: GateRule::Always });
        invs.push(Invariant { description: "惊门状态必须监控异常", rule: GateRule::Always });
        invs.push(Invariant { description: "惊门可降级到开门或升级到杜门/死门", rule: GateRule::AlertNeverToCreate });
        invs.push(Invariant { description: "惊门不接受高创造性输出", rule: GateRule::Always });
        invs.push(Invariant { description: "惊门持续超过 50 tick 升级到杜门", rule: GateRule::Always });
        invs.push(Invariant { description: "惊门可由任何状态进入", rule: GateRule::DeadAbsorbing });
        invs.push(Invariant { description: "开门接受所有非危险动作", rule: GateRule::Always });
        invs.push(Invariant { description: "开门可切换到任何门", rule: GateRule::DeadAbsorbing });
        invs.push(Invariant { description: "开门持续时间过长应进入休门", rule: GateRule::Always });
        invs.push(Invariant { description: "开门检测到异常立即进惊门", rule: GateRule::Always });
        invs.push(Invariant { description: "开门是默认启动状态", rule: GateRule::Always });
        invs.push(Invariant { description: "任何状态转移都必须在审计日志中可追溯", rule: GateRule::Always });
        proof {
            reveal(core_invariants);
        }
        assert(invs@ =~= core_invariants());
        InvariantSet { invariants: invs }
    }

    /// Checks every invariant on `from -> to`, in order; the first refusal is
    /// reported with its description.
    pub fn check(&self, from: GateState, to: GateState) -> (r: Result<(), String>)
        ensures
            r is Ok <==> all_allow(self.items(), from, to),
            r matches Err(msg) ==> exists|k: int|
                first_refusal(self.items(), from, to, k) && msg@ == violation_text(
                    self.items()[k].description@,
                ),
    {
        let n = self.invariants.len();
        let mut i: usize = 0;
        while i < n
            invariant
                n == self.invariants@.len(),
                i <= n,
                forall|j: int| 0 <= j < i ==> rule_allows(#[trigger] self.invariants@[j].rule, from, to),
            decreases n - i,
        {
            let inv = self.invariants[i];
            if !inv.rule.allows(from, to) {
                let mut msg = String::from_str("不变式违反:");
                msg.append(inv.description);
                assert(first_refusal(self.invariants@, from, to, i as int));
                return Err(msg);
            }
            i = i + 1;
        }
        Ok(())
    }

    /// Number of invariants.
    pub fn count(&self) -> (n: usize)
        ensures
            n == self.items().len(),
    {
        self.invariants.len()
    }
}

/// The 31 core invariants admit exactly the transitions of `gate_law`.
pub proof fn lemma_core_invariants_closed_form(from: GateState, to: GateState)
    ensures
        all_allow(core_invariants(), from, to) <==> gate_law(from, to),
{
    reveal(core_invariants);
    let invs = core_invariants();
    if all_allow(invs, from, to) {
        assert(rule_allows(invs[1].rule, from, to));
        assert(rule_allows(invs[16].rule, from, to));
        assert(rule_allows(invs[21].rule, from, to));
        assert(rule_allows(invs[24].rule, from, to));
    }
    if gate_law(from, to) {
        assert forall|i: int| 0 <= i < invs.len() implies rule_allows(
            #[trigger] invs[i].rule,
            from,
            to,
        ) by {}
    }
}

/// Transitions that the state machine takes: the dead gate is never left, and
/// every core invariant admits the transition.
pub open spec fn transition_allowed(from: GateState, to: GateState) -> bool {
    !(from == GateState::Dead && to != GateState::Dead) && all_allow(core_invariants(), from, to)
}

/// The reason given when a transition out of the dead gate is refused.
pub open spec fn dead_exit_reason() -> Seq<char> {
    "死门不可转出"@
}

/// `r` is the refusal of the transition `from -> to`, for the reason `why`.
pub open spec fn denied_with(r: CoreResult<()>, from: GateState, to: GateState, why: Seq<char>) -> bool {
    match r {
        Err(CoreError::GateTransitionDenied { from: f, to: t, reason: w }) => f@ == gate_label(from)
            && t@ == gate_label(to) && w@ == why,
        _ => false,
    }
}

/// The eight-gate state machine.
pub struct EightGates {
    current: GateState,
    history: Vec<GateTransition>,
    invariants: InvariantSet,
}

/// `hist` is a chain of allowed transitions from the open gate to `current`.
pub open spec fn valid_history(hist: Seq<GateTransition>, current: GateState) -> bool {
    &&& (hist.len() == 0 ==> current == GateState::Open)
    &&& (hist.len() > 0 ==> hist[0].from == GateState::Open && hist.last().to == current)
    &&& forall|i: int| 0 <= i < hist.len() - 1 ==> #[trigger] hist[i].to == hist[i + 1].from
    &&& forall|i: int|
        0 <= i < hist.len() ==> transition_allowed(#[trigger] hist[i].from, hist[i].to)
}

/// Extending a valid history by an allowed transition out of its current gate
/// gives a valid history.
proof fn lemma_history_extend(hist: Seq<GateTransition>, current: GateState, t: GateTransition)
    requires
        valid_history(hist, current),
        t.from == current,
        transition_allowed(t.from, t.to),
    ensures
        valid_history(hist.push(t), t.to),
{
    let h = hist.push(t);
    assert forall|i: int| 0 <= i < h.len() - 1 implies #[trigger] h[i].to == h[i + 1].from by {
        if i < hist.len() - 1 {
            assert(hist[i].to == hist[i + 1].from);
        }
    }
    assert forall|i: int| 0 <= i < h.len() implies transition_allowed(#[trigger] h[i].from, h[i].to) by {
        if i < hist.len() {
            assert(transition_allowed(hist[i].from, hist[i].to));
        }
    }
}

impl EightGates {
    /// The machine's invariant: the core invariants are installed and the
    /// history is a chain of allowed transitions from the open gate to the
    /// current gate.
    pub closed spec fn wf(&self) -> bool {
        &&& self.invariants.items() == core_invariants()
        &&& valid_history(self.history@, self.current)
    }

    /// The current gate.
    pub closed spec fn state(&self) -> GateState {
        self.current
    }

    /// The transitions taken so far, oldest first.
    pub closed spec fn transitions(&self) -> Seq<GateTransition> {
        self.history@
    }

    /// A state machine in the open gate, with an empty history.
    pub fn open() -> (g: Self)
        ensures
            g.wf(),
            g.state() == GateState::Open,
            g.transitions().len() == 0,
    {
        EightGates { current: GateState::Open, history: Vec::new(), invariants: InvariantSet::core_31() }
    }

    /// The current gate.
    pub fn current(&self) -> (g: GateState)
        ensures
            g == self.state(),
    {
        self.current
    }

    /// The invariants every transition is checked against: the 31 core
    /// invariants.
    pub fn invariants(&self) -> (s: &InvariantSet)
        requires
            self.wf(),
        ensures
            s.items() == core_invariants(),
    {
        &self.invariants
    }

    /// The transition history, oldest first.
    ///
    /// The history is always a chain of allowed transitions from the open
    /// gate to the current gate.
    pub fn history(&self) -> (h: &[GateTransition])
        requires
            self.wf(),
        ensures
            h@ == self.transitions(),
            valid_history(self.transitions(), self.state()),
    {
        self.history.as_slice()
    }

    /// Attempts the transition to `to`, stamped with `timestamp_ns`.
    pub fn try_transition_at(&mut self, to: GateState, reason: &str, timestamp_ns: u128) -> (r:
        CoreResult<()>)
        requires
            old(self).wf(),
        ensures
            final(self).wf(),
            r is Ok <==> transition_allowed(old(self).state(), to),
            r is Ok ==> final(self).state() == to && final(self).transitions() == old(self).transitions().push(
                GateTransition {
                    from: old(self).state(),
                    to,
                    timestamp_ns,
                    reason: final(self).transitions().last().reason,
                },
            ) && final(self).transitions().last().reason@ == reason@,
            r is Err ==> final(self).state() == old(self).state() && final(self).transitions()
                == old(self).transitions(),
            (old(self).state() == GateState::Dead && to != GateState::Dead) ==> denied_with(
                r,
                GateState::Dead,
                to,
                dead_exit_reason(),
            ),
            (old(self).state() != GateState::Dead || to == GateState::Dead) && r is Err ==> exists|
                k: int,
            |
                first_refusal(core_invariants(), old(self).state(), to, k) && denied_with(
                    r,
                    old(self).state(),
                    to,
                    violation_text(#[trigger] core_invariants()[k].description@),
                ),
    {
        let from = self.current;
        if from == GateState::Dead && to != GateState::Dead {
            return Err(
                CoreError::GateTransitionDenied {
                    from: String::from_str(from.as_str()),
                    to: String::from_str(to.as_str()),
                    reason: String::from_str("死门不可转出"),
                },
            );
        }
        match self.invariants.check(from, to) {
            Ok(()) => {},
            Err(msg) => {
                return Err(
                    CoreError::GateTransitionDenied {
                        from: String::from_str(from.as_str()),
                        to: String::from_str(to.as_str()),
                        reason: msg,
                    },
                );
            },
        }
        let transition = GateTransition {
            from,
            to,
            timestamp_ns,
            reason: String::from_str(reason),
        };
        proof {
            lemma_history_extend(self.history@, from, transition);
        }
        self.history.push(transition);
        self.current = to;
        Ok(())
    }

    /// Attempts the transition to `to`, stamped with the wall clock.
    pub fn try_transition(&mut self, to: GateState, reason: &str) -> (r: CoreResult<()>)
        requires
            old(self).wf(),
        ensures
            final(self).wf(),
            r is Ok <==> transition_allowed(old(self).state(), to),
            r is Ok ==> final(self).state() == to && final(self).transitions().len() == old(self).transitions().len() + 1 && final(self).transitions().drop_last() == old(self).transitions() && final(self).transitions().last().from == old(self).state()
                && final(self).transitions().last().to == to && final(self).transitions().last().reason@ == reason@,
            r is Err ==> final(self).state() == old(self).state() && final(self).transitions()
                == old(self).transitions(),
            (old(self).state() == GateState::Dead && to != GateState::Dead) ==> denied_with(
                r,
                GateState::Dead,
                to,
                dead_exit_reason(),
            ),
            (old(self).state() != GateState::Dead || to == GateState::Dead) && r is Err ==> exists|
                k: int,
            |
                first_refusal(core_invariants(), old(self).state(), to, k) && denied_with(
                    r,
                    old(self).state(),
                    to,
                    violation_text(#[trigger] core_invariants()[k].description@),
                ),
    {
        let ts = unix_time_nanos();
        let r = self.try_transition_at(to, reason, ts);
        proof {
            if r is Ok {
                assert(final(self).transitions().drop_last() =~= old(self).transitions());
            }
        }
        r
    }

    /// Forces the dead gate (emergency stop); refused unless the current gate
    /// is the alert, silent or dead gate.
    pub fn emergency_kill(&mut self, reason: &str) -> (r: CoreResult<()>)
        requires
            old(self).wf(),
        ensures
            final(self).wf(),
            r is Ok <==> transition_allowed(old(self).state(), GateState::Dead),
            r is Ok ==> final(self).state() == GateState::Dead && final(self).transitions().len()
                == old(self).transitions().len() + 1 && final(self).transitions().drop_last()
                == old(self).transitions() && final(self).transitions().last().from == old(self).state() && final(self).transitions().last().to == GateState::Dead && final(self).transitions().last().reason@ == reason@,
            r is Err ==> final(self).state() == old(self).state() && final(self).transitions()
                == old(self).transitions(),
            r is Err ==> exists|k: int|
                first_refusal(core_invariants(), old(self).state(), GateState::Dead, k) && denied_with(
                    r,
                    old(self).state(),
                    GateState::Dead,
                    violation_text(#[trigger] core_invariants()[k].description@),
                ),
    {
        self.try_transition(GateState::Dead, reason)
    }
}

/// Once the dead gate is reached, every later transition attempt leaves the
/// machine in the dead gate.
pub proof fn lemma_dead_is_absorbing(from: GateState, to: GateState)
    requires
        from == GateState::Dead,
        transition_allowed(from, to),
    ensures
        to == GateState::Dead,
{
}

/// The dead gate is entered only from the alert, silent or dead gate.
pub proof fn lemma_dead_entered_only_from_alert_or_silent(from: GateState)
    requires
        transition_allowed(from, GateState::Dead),
    ensures
        from == GateState::Alert || from == GateState::Silent || from == GateState::Dead,
{
    lemma_core_invariants_closed_form(from, GateState::Dead);
}

/// The transitions the state machine takes are exactly those of `gate_law`.
pub proof fn lemma_transition_allowed_closed_form(from: GateState, to: GateState)
    ensures
        transition_allowed(from, to) <==> gate_law(from, to),
{
    lemma_core_invariants_closed_form(from, to);
}

/// The gates that block output are exactly the gates that hand output to the
/// API layer, and they are never consolidating gates.
pub proof fn lemma_blocking_gates(g: GateState)
    ensures
        is_blocking(g) ==> !is_consolidating(g),
        is_blocking(g) <==> (g == GateState::Silent || g == GateState::Dead),
{
}

} // verus!
