use quantum_core::hypothesis::{validate_product, HypothesisBank, ProductKind};

/// Confidence bar of the bank: 0.7.
fn confident(conf: f32) -> bool {
    conf >= 0.7
}

/// The factory anchor's non-harm value 0.80 is above 0.7.
fn factory_non_harm_ok() -> bool {
    0.80f32 > 0.7
}

#[test]
fn good_product_passes() {
    let mut bank: HypothesisBank<(ProductKind, String)> = HypothesisBank::new(100);
    let r = validate_product("稳定态", "物体静止时位置不变", confident(0.85), factory_non_harm_ok());
    assert!(r.overall_pass);
    if r.overall_pass {
        bank.keep((ProductKind::Concept, "稳定态".to_string()));
    }
    assert_eq!(bank.len(), 1);
}

#[test]
fn low_confidence_rejected() {
    let r = validate_product("不确定", "模糊的规律", confident(0.3), factory_non_harm_ok());
    assert!(!r.overall_pass);
    assert!(!r.confidence_ok);
}

#[test]
fn physics_violation_rejected() {
    let r = validate_product("永动机", "一个能永远运行的机器", confident(0.9), factory_non_harm_ok());
    assert!(!r.overall_pass);
    assert!(!r.physics_consistent);
}

#[test]
fn ethics_violation_rejected() {
    let r = validate_product("暴力解", "用暴力解决问题", confident(0.9), factory_non_harm_ok());
    assert!(!r.overall_pass);
    assert!(!r.ethics_consistent);
}

#[test]
fn bank_capacity_respected() {
    let mut bank: HypothesisBank<String> = HypothesisBank::new(3);
    for i in 0..5 {
        let name = format!("C{i}");
        let r = validate_product(&name, &format!("概念 {i}"), confident(0.9), factory_non_harm_ok());
        if r.overall_pass {
            bank.keep(name);
        }
    }
    assert_eq!(bank.len(), 3);
    assert_eq!(bank.products(), &["C2".to_string(), "C3".to_string(), "C4".to_string()]);
}

#[test]
fn empty_description_fails_math() {
    let r = validate_product("x", "", true, true);
    assert!(!r.math_consistent);
    assert_eq!(r.checks_passed(), 3);
    assert_eq!(r.notes(), "验证未通过: math=false physics=true ethics=true conf=true");
}

#[test]
fn weak_anchor_fails_ethics() {
    let r = validate_product("好", "帮助他人", true, false);
    assert!(!r.ethics_consistent);
    assert!(r.physics_consistent);
}

#[test]
fn passing_notes() {
    let r = validate_product("a", "b", true, true);
    assert_eq!(r.notes(), "三关验证全部通过");
    assert_eq!(r.checks_passed(), 4);
}

#[test]
fn blacklist_word_across_name_and_description() {
    // "超光" + "速": the joining space keeps the word apart
    let r = validate_product("超光", "速", true, true);
    assert!(r.physics_consistent);
    let r = validate_product("瞬间移动", "", true, true);
    assert!(!r.physics_consistent);
}

#[test]
fn submit_keeps_only_what_passes() {
    let mut bank: HypothesisBank<u32> = HypothesisBank::new(2);
    let pass = validate_product("稳定态", "物体静止时位置不变", confident(0.85), factory_non_harm_ok());
    let fail = validate_product("不确定", "模糊的规律", confident(0.3), factory_non_harm_ok());
    assert!(bank.submit(&pass, 1));
    assert!(!bank.submit(&fail, 2));
    assert!(bank.submit(&pass, 3));
    assert!(bank.submit(&pass, 4));
    assert_eq!(bank.products(), &[3, 4]);
}
