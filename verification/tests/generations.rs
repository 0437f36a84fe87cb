use quantum_core::genuine::{summarize_kinds, EvidenceKind, Generation};
use quantum_core::history::BoundedLog;

#[test]
fn generation_starts_empty() {
    let g = Generation::new(3, 40);
    assert_eq!((g.id, g.start_tick, g.end_tick), (3, 40, 40));
    assert!(g.seen.is_empty());
    assert!(!g.was_seen(1));
}

#[test]
fn generation_marks_seen() {
    let mut g = Generation::new(0, 0);
    g.mark_seen(7);
    assert!(g.was_seen(7));
    assert!(!g.was_seen(8));
    assert!(g.is_over(10, 10));
    assert!(!g.is_over(9, 10));
    let n = g.successor(10);
    assert_eq!((n.id, n.start_tick), (1, 10));
    assert!(!n.was_seen(7));
}

#[test]
fn evidence_summary_counts_kinds() {
    let kinds = [
        EvidenceKind::Conservation,
        EvidenceKind::LinearFit,
        EvidenceKind::Conservation,
        EvidenceKind::Conflict,
    ];
    assert_eq!(summarize_kinds(&kinds), "Conservation:2, LinearFit:1, Conflict:1");
    assert_eq!(summarize_kinds(&[]), "");
    assert!(EvidenceKind::Conflict.is_conflict());
    assert!(!EvidenceKind::ClusterFit.is_conflict());
}

#[test]
fn history_caps_at_max() {
    let mut log = BoundedLog::new(100);
    for i in 0..150 {
        log.push(i);
    }
    assert!(log.len() <= 100);
    assert_eq!(log.as_slice()[0], 50);
    assert_eq!(log.as_slice()[99], 149);
}
