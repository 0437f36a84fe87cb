use quantum_core::motivation::{advance_stage, weights_of, GrowthStage, IntrinsicMotivation};

#[test]
fn advance_progresses_through_stages() {
    let mut m = IntrinsicMotivation::with_stage(GrowthStage::Infant);
    assert_eq!(m.stage(), GrowthStage::Infant);
    m.advance();
    assert_eq!(m.stage(), GrowthStage::Juvenile);
    m.advance();
    m.advance();
    m.advance();
    assert_eq!(m.stage(), GrowthStage::Sage);
}

#[test]
fn default_engine_is_juvenile() {
    let m = IntrinsicMotivation::new();
    assert_eq!(m.stage(), GrowthStage::Juvenile);
    assert_eq!(m.weights(), (50, 40, 10));
}

#[test]
fn weights_follow_the_stage() {
    let mut m = IntrinsicMotivation::with_stage(GrowthStage::Infant);
    assert_eq!(m.weights(), (80, 15, 5));
    m.advance();
    m.advance();
    assert_eq!(m.weights(), (30, 60, 10));
    m.advance();
    assert_eq!(m.weights(), (20, 50, 30));
}

#[test]
fn sage_is_the_last_stage() {
    assert_eq!(advance_stage(GrowthStage::Sage), GrowthStage::Sage);
    assert_eq!(advance_stage(GrowthStage::Adult), GrowthStage::Sage);
    for s in [GrowthStage::Infant, GrowthStage::Juvenile, GrowthStage::Adult, GrowthStage::Sage] {
        let (c, r, p) = weights_of(s);
        assert_eq!(c + r + p, 100);
    }
}
