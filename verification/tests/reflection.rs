use quantum_core::reflection::{advice, most_common, EpisodeLog};

#[test]
fn test_record_episode() {
    let mut r = EpisodeLog::new();
    let id = r.record_episode(
        "动量守恒".into(),
        "猜测 p=mv".into(),
        "R²=0.99".into(),
        true,
        None,
        None,
        10,
    );
    assert_eq!(id, 1);
    assert_eq!(r.stats().successes, 1);
    assert_eq!(r.stats().total_attempts, 1);
}

#[test]
fn test_reflect_finds_worst_domain() {
    let mut r = EpisodeLog::new();
    for i in 0..5 {
        r.record_episode("动量".into(), format!("a{}", i), "ok".into(), true, None, None, 1);
    }
    for i in 0..5 {
        r.record_episode(
            "能量".into(),
            format!("b{}", i),
            "fail".into(),
            false,
            Some("wrong formula".into()),
            Some("fix".into()),
            2,
        );
    }
    assert_eq!(r.worst_domain(), Some("能量".into()));
    assert_eq!(r.stats().successes, 5);
}

#[test]
fn test_reflection_stats() {
    let mut r = EpisodeLog::new();
    assert_eq!(r.stats().total_attempts, 0);
    r.record_episode("a".into(), "a1".into(), "ok".into(), true, None, None, 1);
    r.record_episode("a".into(), "a2".into(), "fail".into(), false, Some("err".into()), Some("fix".into()), 1);
    assert_eq!(r.stats().total_attempts, 2);
    assert_eq!(r.stats().successes, 1);
    assert_eq!(r.stats().self_corrections, 1);
}

#[test]
fn worst_domain_needs_two_episodes() {
    let mut r = EpisodeLog::new();
    r.record_episode("a".into(), "x".into(), "fail".into(), false, None, None, 1);
    assert_eq!(r.worst_domain(), None);
    r.record_episode("b".into(), "y".into(), "ok".into(), true, None, None, 1);
    r.record_episode("b".into(), "z".into(), "fail".into(), false, None, None, 1);
    assert_eq!(r.worst_domain(), Some("b".into()));
}

#[test]
fn worst_domain_ties_go_to_the_first() {
    let mut r = EpisodeLog::new();
    for d in ["x", "y", "x", "y"] {
        r.record_episode(d.into(), "t".into(), "o".into(), false, None, None, 1);
    }
    assert_eq!(r.worst_domain(), Some("x".into()));
}

#[test]
fn worst_domain_compares_rates() {
    let mut r = EpisodeLog::new();
    // x: 2 of 3 succeed; y: 1 of 2 succeeds
    for (d, ok) in [("x", true), ("x", true), ("x", false), ("y", true), ("y", false)] {
        r.record_episode(d.into(), "t".into(), "o".into(), ok, None, None, 1);
    }
    assert_eq!(r.worst_domain(), Some("y".into()));
    assert_eq!(r.episode_count(), 5);
}

#[test]
fn advice_in_priority_order() {
    assert_eq!(advice(true, true, Some("x"), 0), "我最近表现不好,需要重新评估策略.");
    assert_eq!(advice(false, true, Some("x"), 0), "我的置信度在下降,可能遇到了新问题,需要更多数据.");
    assert_eq!(advice(false, false, Some("能量"), 0), "我在「能量」领域表现最差,应该重点改进.");
    assert_eq!(advice(false, false, None, 2), "我学到的东西太少,需要更多探索.");
    assert_eq!(advice(false, false, None, 3), "我表现正常,继续.");
}

#[test]
fn most_common_action_first_among_ties() {
    let acts: Vec<String> = ["look", "move", "move", "look", "rest"].iter().map(|s| s.to_string()).collect();
    assert_eq!(most_common(&acts), Some("look".to_string()));
    let acts: Vec<String> = ["rest", "move", "move"].iter().map(|s| s.to_string()).collect();
    assert_eq!(most_common(&acts), Some("move".to_string()));
    assert_eq!(most_common(&[]), None);
}
