use quantum_core::causal::{CausalGraph, FailureAnalyzer, FailureKind, NodeId};
use quantum_core::dag::{discover_edges, has_cycle, remove_cycles, settle_edges, upper_pairs};
use quantum_core::history::BoundedLog;

#[test]
fn test_topological_order() {
    let mut g = CausalGraph::new();
    g.add_node(NodeId(0), "a");
    g.add_node(NodeId(1), "b");
    g.add_node(NodeId(2), "c");
    g.add_edge(NodeId(0), NodeId(1));
    g.add_edge(NodeId(1), NodeId(2));
    let order = g.topological_order();
    let pos0 = order.iter().position(|&n| n == NodeId(0)).unwrap();
    let pos1 = order.iter().position(|&n| n == NodeId(1)).unwrap();
    let pos2 = order.iter().position(|&n| n == NodeId(2)).unwrap();
    assert!(pos0 < pos1);
    assert!(pos1 < pos2);
}

#[test]
fn test_failure_most_common() {
    let mut a = FailureAnalyzer::new();
    a.report(1, "a".into(), FailureKind::SensorNoise, "x".into());
    a.report(2, "b".into(), FailureKind::SensorNoise, "x".into());
    a.report(3, "c".into(), FailureKind::WrongModel, "x".into());
    assert_eq!(a.most_common_kind(), Some(FailureKind::SensorNoise));
}

#[test]
fn topological_order_leaves_out_cycles() {
    let mut g = CausalGraph::new();
    g.add_node(NodeId(0), "a");
    g.add_node(NodeId(1), "b");
    g.add_node(NodeId(2), "c");
    g.add_edge(NodeId(1), NodeId(2));
    g.add_edge(NodeId(2), NodeId(1));
    let order = g.topological_order();
    assert_eq!(order, vec![NodeId(0)]);
}

#[test]
fn add_node_renames_existing() {
    let mut g = CausalGraph::new();
    g.add_node(NodeId(7), "old");
    g.add_node(NodeId(7), "new");
    assert_eq!(g.nodes(), vec![NodeId(7)]);
    assert_eq!(g.name_of(NodeId(7)), Some("new"));
    assert_eq!(g.name_of(NodeId(8)), None);
}

#[test]
fn failure_report_counts_and_suggests() {
    let mut a = FailureAnalyzer::new();
    a.report(1, "test".into(), FailureKind::SensorNoise, FailureAnalyzer::suggest(FailureKind::SensorNoise));
    assert_eq!(a.total_failures(), 1);
    assert_eq!(a.count_of(FailureKind::SensorNoise), 1);
    assert_eq!(a.count_of(FailureKind::WrongModel), 0);
    assert_eq!(a.records()[0].suggestion, "考虑加卡尔曼滤波或多传感器平均");
    assert_eq!(a.records()[0].count, 1);
}

#[test]
fn most_common_ties_go_to_declaration_order() {
    let mut a = FailureAnalyzer::new();
    assert_eq!(a.most_common_kind(), None);
    a.report(1, "a".into(), FailureKind::SparseData, "x".into());
    a.report(2, "b".into(), FailureKind::WrongModel, "x".into());
    assert_eq!(a.most_common_kind(), Some(FailureKind::WrongModel));
}

#[test]
fn failure_kind_names() {
    assert_eq!(FailureKind::SensorNoise.as_str(), "sensor_noise");
    assert_eq!(FailureKind::ExternalDisturbance.as_str(), "external_disturbance");
}

#[test]
fn no_cycle_in_result() {
    // a triangle 0 -> 1 -> 2 -> 0 loses its closing edge
    let edges = [(0usize, 1usize), (1, 2), (2, 0), (0, 2)];
    let kept = remove_cycles(3, &edges);
    assert_eq!(kept, vec![0, 1, 3]);
    let chosen: Vec<(usize, usize)> = kept.iter().map(|&i| edges[i]).collect();
    assert!(!has_cycle(3, &chosen));
}

#[test]
fn cycles_are_detected() {
    assert!(!has_cycle(3, &[(0, 1), (1, 2)]));
    assert!(has_cycle(3, &[(0, 1), (1, 2), (2, 0)]));
    assert!(has_cycle(1, &[(0, 0)]));
    assert!(!has_cycle(0, &[]));
    assert!(has_cycle(4, &[(0, 1), (2, 3), (3, 2)]));
}

#[test]
fn remove_cycles_keeps_a_dag_whole() {
    let edges = [(0usize, 1usize), (0, 2), (1, 2), (2, 3)];
    assert_eq!(remove_cycles(4, &edges), vec![0, 1, 2, 3]);
    let back = [(1usize, 0usize), (0, 1)];
    assert_eq!(remove_cycles(2, &back), vec![0]);
}

#[test]
fn upper_pairs_lists_each_pair_once() {
    assert_eq!(upper_pairs(3), vec![(0, 1), (0, 2), (1, 2)]);
    assert_eq!(upper_pairs(1), vec![]);
    assert_eq!(upper_pairs(0), vec![]);
}

#[test]
fn settle_edges_drops_cycle_edges_and_logs_count() {
    let mut history: BoundedLog<usize> = BoundedLog::new(2);
    let kept = settle_edges(3, &[(0, 1), (1, 2), (2, 0)], &mut history);
    assert_eq!(kept, vec![0, 1]);
    let kept = settle_edges(3, &[(0, 1)], &mut history);
    assert_eq!(kept, vec![0]);
    let kept = settle_edges(3, &[], &mut history);
    assert_eq!(kept, Vec::<usize>::new());
    assert_eq!(history.as_slice(), &[1, 0]);
}

#[test]
fn discover_edges_orients_strong_pairs() {
    let mut history: BoundedLog<usize> = BoundedLog::new(100);
    let found = discover_edges(3, &[true, true, true], &[true, true, false], &mut history);
    assert_eq!(found, vec![(0, 0, 1), (1, 0, 2), (2, 2, 1)]);
    let found = discover_edges(3, &[true, false, true], &[true, true, true], &mut history);
    assert_eq!(found, vec![(0, 0, 1), (2, 1, 2)]);
    assert_eq!(history.as_slice(), &[3, 2]);
}

#[test]
fn discover_edges_drops_the_closing_edge() {
    let mut history: BoundedLog<usize> = BoundedLog::new(100);
    let found = discover_edges(3, &[true, true, true], &[true, false, true], &mut history);
    assert_eq!(found, vec![(0, 0, 1), (1, 2, 0)]);
    assert_eq!(history.as_slice(), &[2]);
}
