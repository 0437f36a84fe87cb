use quantum_core::indicators::{EmergenceIndicators, EmergenceSignal, WindowEvent};

/// Raises the concept, behaviour and causal-simplification signals.
fn three_signals(ind: &mut EmergenceIndicators) {
    for _ in 0..100 {
        ind.mark_concept_stable();
        ind.mark_new_behavior();
    }
    for _ in 0..20 {
        ind.record_causal_edges(30);
    }
    for _ in 0..30 {
        ind.record_causal_edges(10);
    }
}

/// Raises the concept and behaviour signals only.
fn two_signals(ind: &mut EmergenceIndicators) {
    for _ in 0..100 {
        ind.mark_concept_stable();
        ind.mark_new_behavior();
    }
}

#[test]
fn no_signals_at_start() {
    let mut ind = EmergenceIndicators::new();
    let signals = ind.detect(false, false);
    assert_eq!(signals.len(), 0);
}

#[test]
fn concept_stability_counted() {
    let mut ind = EmergenceIndicators::new();
    for _ in 0..100 {
        ind.mark_concept_stable();
    }
    let signals = ind.detect(false, false);
    assert!(signals.contains(&EmergenceSignal::ConceptClusterStable));
}

#[test]
fn causal_simplification_detected() {
    let mut ind = EmergenceIndicators::new();
    for _ in 0..20 {
        ind.record_causal_edges(30);
    }
    for _ in 0..30 {
        ind.record_causal_edges(15);
    }
    for _ in 0..20 {
        ind.record_causal_edges(10);
    }
    assert!(ind.detect(false, false).contains(&EmergenceSignal::CausalGraphSimplified));
}

#[test]
fn emergence_threshold() {
    let mut ind = EmergenceIndicators::new();
    for _ in 0..100 {
        ind.mark_concept_stable();
    }
    for _ in 0..100 {
        ind.mark_new_behavior();
    }
    assert!(ind.is_emerging(false, false) || ind.detect(false, false).len() >= 1);
}

#[test]
fn window_starts_on_three_signals() {
    let mut ind = EmergenceIndicators::new();
    three_signals(&mut ind);
    // the KL history of 30 values of 0.1 then 10 of 5.0 is a spike
    let ev = ind.detect_window(0, true, false);
    assert!(matches!(ev, WindowEvent::Start { .. }));
    assert!(ind.has_window());
}

#[test]
fn window_continues_then_cancels_when_short() {
    let mut ind = EmergenceIndicators::new();
    two_signals(&mut ind);
    assert!(matches!(ind.detect_window(0, true, false), WindowEvent::Start { tick: 0, .. }));
    assert!(matches!(ind.detect_window(1, true, false), WindowEvent::Continue));
    // without the KL spike only two signals are left: the window closes early
    assert!(matches!(ind.detect_window(5, false, false), WindowEvent::Cancel));
    assert_eq!(ind.total_emergences(), 0);
    assert!(!ind.has_window());
    assert!(matches!(ind.detect_window(6, false, false), WindowEvent::NoEvent));
}

#[test]
fn window_ends_after_ten_ticks() {
    let mut ind = EmergenceIndicators::new();
    two_signals(&mut ind);
    ind.detect_window(0, true, false);
    match ind.detect_window(15, false, false) {
        WindowEvent::End { start_tick, end_tick, duration, signals } => {
            assert_eq!((start_tick, end_tick, duration), (0, 15, 15));
            assert_eq!(
                signals,
                vec![
                    EmergenceSignal::KLDivergenceSpike,
                    EmergenceSignal::ConceptClusterStable,
                    EmergenceSignal::BehaviorDiversityPeak,
                ]
            );
        }
        _ => panic!("expected the window to end"),
    }
    assert_eq!(ind.total_emergences(), 1);
    assert_eq!(ind.completed_windows().len(), 1);
    assert_eq!(ind.completed_windows()[0].end_tick, Some(15));
}

#[test]
fn start_event_reports_kl_once() {
    let mut ind = EmergenceIndicators::new();
    three_signals(&mut ind);
    match ind.detect_window(3, true, true) {
        WindowEvent::Start { tick, signals } => {
            assert_eq!(tick, 3);
            assert_eq!(
                signals,
                vec![
                    EmergenceSignal::KLDivergenceSpike,
                    EmergenceSignal::ConceptClusterStable,
                    EmergenceSignal::CausalGraphSimplified,
                    EmergenceSignal::BehaviorDiversityPeak,
                ]
            );
        }
        _ => panic!("expected a start"),
    }
}

#[test]
fn two_distinct_signals_are_not_emergence() {
    let mut ind = EmergenceIndicators::new();
    for _ in 0..31 {
        ind.mark_concept_stable();
    }
    // 40 KL values of 0.1 then 10 of 5.0 both spike and rise: still one signal
    assert!(!ind.is_emerging(true, true));
    assert_eq!(ind.detect(true, true).len(), 2);
}

#[test]
fn decay_every_thirty_checks() {
    let mut ind = EmergenceIndicators::new();
    for _ in 0..35 {
        ind.mark_concept_stable();
    }
    for _ in 0..29 {
        ind.detect_window(0, false, false);
    }
    assert!(ind.detect(false, false).contains(&EmergenceSignal::ConceptClusterStable));
    // the thirtieth check takes 10 off the concept count: 25 is not above 30
    ind.detect_window(0, false, false);
    assert!(!ind.detect(false, false).contains(&EmergenceSignal::ConceptClusterStable));
}

#[test]
fn bimodal_weights_signal() {
    let mut ind = EmergenceIndicators::new();
    let mut bins = Vec::new();
    for _ in 0..50 {
        bins.push(2usize);
        bins.push(7usize);
    }
    ind.record_weight_bins(&bins);
    assert!(ind.detect(false, false).contains(&EmergenceSignal::WeightBimodalization));
    let flat: Vec<usize> = (0..100).map(|i| i % 10).collect();
    ind.record_weight_bins(&flat);
    assert!(!ind.detect(false, false).contains(&EmergenceSignal::WeightBimodalization));
}

#[test]
fn signal_names() {
    assert_eq!(EmergenceSignal::KLDivergenceSpike.as_str(), "KL散度突变");
    assert_eq!(EmergenceSignal::BehaviorDiversityPeak.as_str(), "行为多样性峰值");
}
