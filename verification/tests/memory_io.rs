use quantum_core::memory::{
    extract_keywords, infer_topic, match_features, FileMemoryInjector, InjectError, LayeredRetriever, MemoryEntry,
};
use quantum_core::memory::{keywords_from_lowered, paragraph_chunks, topic_from_lowered};

#[test]
fn test_inject_text() {
    let mut inj = FileMemoryInjector::new(100);
    let id = inj.inject_text("test".into(), "这是一段测试文字内容,讲的是物理学的力学原理".into());
    assert!(id > 0);
    assert_eq!(inj.len(), 1);
    let e = &inj.all_entries()[0];
    assert_eq!(e.topic, "physics");
    assert!(!e.keywords.is_empty());
}

#[test]
fn test_max_entries_eviction() {
    let mut inj = FileMemoryInjector::new(3);
    inj.inject_text("a".into(), "第一段内容足够长才能进".into());
    inj.inject_text("b".into(), "第二段内容足够长才能进".into());
    inj.inject_text("c".into(), "第三段内容足够长才能进".into());
    inj.inject_text("d".into(), "第四段内容足够长才能进".into());
    assert_eq!(inj.len(), 3);
    assert_eq!(inj.all_entries()[0].source, "b");
}

#[test]
fn test_extract_keywords_chinese() {
    let kws = extract_keywords("物理学的力学原理");
    assert!(!kws.is_empty());
    assert!(kws.iter().any(|k| k.chars().count() == 2 && k.chars().all(|c| c > '\u{007f}')));
}

#[test]
fn test_infer_topic() {
    assert_eq!(infer_topic("用 Rust 写代码"), "code");
    assert_eq!(infer_topic("重力和加速度"), "physics");
    assert_eq!(infer_topic("大脑意识"), "cognition");
}

#[test]
fn keywords_pairs_and_english_words() {
    let kws = extract_keywords("Rust is a systems language 物理学");
    // CJK characters are alphanumeric, so "物理学" is also a word of its own
    assert_eq!(kws, vec!["language", "rust", "systems", "物理", "物理学", "理学"]);
}

#[test]
fn chinese_keywords_slide_two_characters() {
    let kws = extract_keywords("物理学的力学原理");
    for w in ["物理", "理学", "学的", "的力", "力学", "学原", "原理"] {
        assert!(kws.contains(&w.to_string()), "missing {w}");
    }
    assert_eq!(extract_keywords("字"), Vec::<String>::new());
}

#[test]
fn keywords_sorted_without_repeats() {
    let kws = extract_keywords("code CODE Code abc ab");
    assert_eq!(kws, vec!["abc", "code"]);
}

#[test]
fn topic_rules_in_order() {
    assert_eq!(infer_topic("记忆与代码"), "code");
    assert_eq!(infer_topic("memory palace"), "memory");
    assert_eq!(infer_topic("伦理学"), "ethics");
    assert_eq!(infer_topic("一个人"), "human");
    assert_eq!(infer_topic("天气不错"), "general");
}

#[test]
fn inject_content_splits_paragraphs() {
    let mut inj = FileMemoryInjector::new(100);
    let n = inj.inject_content(
        "doc.txt".into(),
        "第一段:这是关于记忆的文字。\n\n第二段:Rust 是一门系统级编程语言。\n\n太短忽略",
    );
    // "太短忽略" is 12 bytes in UTF-8, so it is kept too
    assert_eq!(n, 3);
    let entries = inj.all_entries();
    assert!(entries.iter().any(|e| e.topic == "memory"));
    assert!(entries.iter().any(|e| e.topic == "code"));
    assert!(entries.iter().all(|e| e.source == "doc.txt"));
}

#[test]
fn inject_content_skips_short_and_blank() {
    let mut inj = FileMemoryInjector::new(100);
    let n = inj.inject_content("s".into(), "short\n\n   \n\nthis paragraph is long enough");
    assert_eq!(n, 1);
    assert_eq!(inj.all_entries()[0].content, "this paragraph is long enough");
}

#[test]
fn inject_content_cuts_long_paragraphs() {
    let mut inj = FileMemoryInjector::new(100);
    let long: String = std::iter::repeat('字').take(2500).collect();
    let n = inj.inject_content("s".into(), &long);
    assert_eq!(n, 1);
    let c = &inj.all_entries()[0].content;
    assert_eq!(c.chars().count(), 2003);
    assert!(c.ends_with("..."));
}

#[test]
fn file_size_limit_refuses_large_files() {
    let inj = FileMemoryInjector::new(100).with_max_file_size(10);
    assert!(inj.admit_file_size(10).is_ok());
    match inj.admit_file_size(11) {
        Err(InjectError::TooLarge(got, max)) => {
            assert_eq!(got, 11);
            assert_eq!(max, 10);
        }
        _ => panic!("expected TooLarge"),
    }
}

#[test]
fn entry_ids_count_up() {
    let mut inj = FileMemoryInjector::new(2);
    assert_eq!(inj.inject_text("a".into(), "x".into()), 1);
    assert_eq!(inj.inject_text("b".into(), "y".into()), 2);
    assert_eq!(inj.inject_text("c".into(), "z".into()), 3);
    let ids: Vec<u64> = inj.all_entries().iter().map(|e| e.id).collect();
    assert_eq!(ids, vec![2, 3]);
}

#[test]
fn importance_inputs_counted() {
    let mut inj = FileMemoryInjector::new(10);
    inj.inject_text("a".into(), "这是重要的核心原理".into());
    let e = &inj.all_entries()[0];
    assert_eq!(e.important_words, 3);
    assert_eq!(e.content_chars, 9);
}

#[test]
fn index_files_ids_under_keywords_and_topics() {
    let mut inj = FileMemoryInjector::new(100);
    inj.inject_text("a".into(), "物理学的力学原理和质量".into());
    inj.inject_text("b".into(), "化学的分子结构".into());
    let mut ret = LayeredRetriever::new();
    ret.build_index(inj.all_entries());
    assert_eq!(ret.ids_for_keyword("物理"), vec![1]);
    assert_eq!(ret.ids_for_topic("physics"), vec![1]);
    assert_eq!(ret.ids_for_topic("general"), vec![2]);
    assert!(ret.ids_for_keyword("不存在").is_empty());
}

#[test]
fn match_features_exact_and_overlap() {
    let mut inj = FileMemoryInjector::new(100);
    inj.inject_text("a".into(), "今天学到了脉冲神经网络的原理".into());
    let e = &inj.all_entries()[0];
    let q = "脉冲神经网络";
    let qk = extract_keywords(q);
    let qt = infer_topic(q);
    let f = match_features(q, &qk, &qt, e);
    assert!(f.exact);
    assert_eq!(f.query_chars, 6);
    assert_eq!(f.content_chars, 14);
    // the query's windows 脉冲 冲神 神经 经网 网络 all occur in the entry
    assert_eq!(f.shared_keywords, 5);
    assert_eq!(f.all_keywords, qk.len() + e.keywords.len() - 5);
    assert_eq!(qt, "general");
    assert!(f.same_topic);
}

#[test]
fn upper_case_words_are_lowered() {
    assert_eq!(infer_topic("RUST"), "code");
    assert_eq!(extract_keywords("RUST Systems"), vec!["rust", "systems"]);
}

#[test]
fn stamped_entry_keeps_its_stamp() {
    let e = MemoryEntry::new_at(7, "src".to_string(), "物理学".to_string(), 99);
    assert_eq!(e.id, 7);
    assert_eq!(e.source, "src");
    assert_eq!(e.content, "物理学");
    assert_eq!(e.injected_at_ns, 99);
}

#[test]
fn topic_of_lowered_text() {
    assert_eq!(topic_from_lowered("rust"), "code");
    assert_eq!(topic_from_lowered("RUST"), "general");
    assert_eq!(topic_from_lowered("记忆"), "memory");
}

#[test]
fn keywords_from_given_lowered_words() {
    let words: Vec<String> = ["rust", "is", "systems", "ab1"].iter().map(|s| s.to_string()).collect();
    assert_eq!(keywords_from_lowered(&words, "物理学"), vec!["ab1", "rust", "systems", "物理", "理学"]);
}

#[test]
fn paragraph_chunks_skip_short_ones() {
    assert_eq!(paragraph_chunks("short\n\n   \n\nthis paragraph is long enough"), vec!["this paragraph is long enough"]);
    assert_eq!(paragraph_chunks(""), Vec::<String>::new());
}
