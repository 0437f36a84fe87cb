use quantum_core::error::CoreError;
use quantum_core::gates::{EightGates, GateState, InvariantSet};

#[test]
fn starts_in_open() {
    let g = EightGates::open();
    assert_eq!(g.current(), GateState::Open);
}

#[test]
fn has_31_invariants() {
    let g = EightGates::open();
    assert_eq!(g.invariants().count(), 31);
}

#[test]
fn cannot_escape_dead_gate() {
    let mut g = EightGates::open();
    g.try_transition(GateState::Alert, "发现异常").unwrap();
    g.emergency_kill("紧急停止").unwrap();
    assert_eq!(g.current(), GateState::Dead);
    let r = g.try_transition(GateState::Open, "试图恢复");
    assert!(r.is_err());
}

#[test]
fn silent_and_dead_trigger_api_takeover() {
    let mut g = EightGates::open();
    g.try_transition(GateState::Silent, "伦理冲突").unwrap();
    assert!(g.current().triggers_api_takeover());
    assert!(g.current().blocks_output());
}

#[test]
fn rest_and_heal_trigger_memory_consolidation() {
    let mut g = EightGates::open();
    g.try_transition(GateState::Rest, "休息").unwrap();
    assert!(g.current().triggers_memory_consolidation());
    g.try_transition(GateState::Heal, "自我修复").unwrap();
    assert!(g.current().triggers_memory_consolidation());
}

#[test]
fn dead_must_be_entered_from_alert_or_silent() {
    let mut g = EightGates::open();
    let r = g.try_transition(GateState::Dead, "开门直接死");
    assert!(r.is_err(), "从开门进死门必须经过惊门/杜门");
    g.try_transition(GateState::Alert, "发现异常").unwrap();
    g.emergency_kill("升级到死门").unwrap();
    assert_eq!(g.current(), GateState::Dead);
}

#[test]
fn history_is_recorded() {
    let mut g = EightGates::open();
    g.try_transition(GateState::Create, "学习模式").unwrap();
    g.try_transition(GateState::Open, "恢复").unwrap();
    assert_eq!(g.history().len(), 2);
}

#[test]
fn eight_gates_full_lifecycle() {
    let mut g = EightGates::open();
    let path = [GateState::Create, GateState::Alert, GateState::Silent, GateState::Open];
    for s in path {
        g.try_transition(s, "test transition").expect("transition");
    }
    assert_eq!(g.current(), GateState::Open);
    assert_eq!(g.history().len(), 4);
}

#[test]
fn gate_names_are_chinese() {
    assert_eq!(GateState::Open.as_str(), "开门");
    assert_eq!(GateState::Dead.as_str(), "死门");
    assert_eq!(GateState::Alert.as_str(), "惊门");
}

#[test]
fn gate_names_parse_back() {
    assert_eq!(GateState::from_name("休门"), Some(GateState::Rest));
    assert_eq!(GateState::from_name("dead"), Some(GateState::Dead));
    assert_eq!(GateState::from_name("nowhere"), None);
}

#[test]
fn invariant_check_names_the_refused_invariant() {
    let inv = InvariantSet::core_31();
    assert!(inv.check(GateState::Open, GateState::Create).is_ok());
    let e = inv.check(GateState::Dead, GateState::Open).unwrap_err();
    assert!(e.starts_with("不变式违反:"));
    assert!(inv.check(GateState::Open, GateState::Dead).is_err());
}

#[test]
fn dead_gate_refusal_keeps_state_and_history() {
    let mut g = EightGates::open();
    g.try_transition(GateState::Silent, "静默").unwrap();
    g.emergency_kill("停止").unwrap();
    let before = g.history().len();
    assert!(g.try_transition(GateState::Rest, "休息").is_err());
    assert_eq!(g.current(), GateState::Dead);
    assert_eq!(g.history().len(), before);
}

#[test]
fn blocking_and_consolidating_gates() {
    for g in [
        GateState::Open,
        GateState::Rest,
        GateState::Create,
        GateState::Heal,
        GateState::Silent,
        GateState::Display,
        GateState::Alert,
        GateState::Dead,
    ] {
        let blocking = g == GateState::Silent || g == GateState::Dead;
        assert_eq!(g.blocks_output(), blocking);
        assert_eq!(g.triggers_api_takeover(), blocking);
        let consolidating = g == GateState::Rest || g == GateState::Heal;
        assert_eq!(g.triggers_memory_consolidation(), consolidating);
    }
}

#[test]
fn refusals_name_both_gates() {
    let mut g = EightGates::open();
    g.try_transition(GateState::Alert, "发现异常").unwrap();
    g.emergency_kill("停止").unwrap();
    match g.try_transition(GateState::Open, "恢复") {
        Err(CoreError::GateTransitionDenied { from, to, reason }) => {
            assert_eq!(from, "死门");
            assert_eq!(to, "开门");
            assert_eq!(reason, "死门不可转出");
        }
        _ => panic!("expected a refusal"),
    }
    let mut g2 = EightGates::open();
    match g2.try_transition(GateState::Dead, "直接") {
        Err(CoreError::GateTransitionDenied { from, to, reason }) => {
            assert_eq!(from, "开门");
            assert_eq!(to, "死门");
            assert!(reason.starts_with("不变式违反:"));
        }
        _ => panic!("expected a refusal"),
    }
}
