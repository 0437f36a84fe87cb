use quantum_core::nlp::{
    extract_command_verb, extract_question_subject, CotOrchestrator, CotResponseLinker, CotStepType, Intent,
    NlgEngine, NluEngine,
};

#[test]
fn test_nlu_greeting() {
    let nlu = NluEngine::new();
    let r = nlu.understand("你好");
    assert_eq!(r.intent, Intent::Greeting);
    // the confidence is min(intent_score, 3) / 3, positive exactly when the score is
    assert!(r.intent_score > 0);
}

#[test]
fn test_nlu_question() {
    let nlu = NluEngine::new();
    let r = nlu.understand("什么是动量守恒?");
    assert_eq!(r.intent, Intent::Question);
    assert!(r.slots.iter().any(|(k, _)| k == "subject"));
}

#[test]
fn test_nlu_command() {
    let nlu = NluEngine::new();
    let r = nlu.understand("请运行测试");
    assert_eq!(r.intent, Intent::Command);
    assert!(r.slots.iter().any(|(k, _)| k == "verb"));
}

#[test]
fn test_nlu_thanks() {
    let nlu = NluEngine::new();
    let r = nlu.understand("谢谢你");
    assert_eq!(r.intent, Intent::Thanks);
}

#[test]
fn test_nlu_sentiment() {
    let nlu = NluEngine::new();
    let pos = nlu.understand("我好开心,这件事真好");
    let neg = nlu.understand("我好难过,真糟糕");
    // the sentiment is (pos - neg) / (pos + neg)
    assert!(pos.positive_hits > pos.negative_hits);
    assert!(neg.negative_hits > neg.positive_hits);
}

#[test]
fn test_nlu_unknown_fallback() {
    let nlu = NluEngine::new();
    let r = nlu.understand("xxxxxxxx");
    assert_eq!(r.intent, Intent::Statement);
}

#[test]
fn test_nlg_responses() {
    let nlg = NlgEngine::new();
    assert!(nlg.generate_response(&Intent::Greeting, &Vec::new()).contains("你好"));
    assert!(nlg.generate_response(&Intent::Thanks, &Vec::new()).contains("不客气"));
}

#[test]
fn test_cot_builds_chain() {
    let mut cot = CotOrchestrator::new();
    let nlu = NluEngine::new();
    let r = nlu.understand("什么是动量?");
    let chain = cot.build_chain(&r);
    assert!(chain.len() >= 4);
    let types: Vec<&CotStepType> = chain.steps.iter().map(|s| &s.step_type).collect();
    assert!(types.contains(&&CotStepType::Observation));
    assert!(types.contains(&&CotStepType::Hypothesis));
}

#[test]
fn test_linker_end_to_end() {
    let mut linker = CotResponseLinker::new();
    let r = linker.process("你好,请问什么是动量守恒?");
    assert!(!r.response.is_empty());
    assert!(!r.explanation.is_empty());
    assert!(r.chain.len() >= 4);
}

#[test]
fn test_nlu_intro() {
    let nlu = NluEngine::new();
    let r = nlu.understand("我是小明");
    assert_eq!(r.intent, Intent::SelfIntro);
}

#[test]
fn test_nlu_ask_state() {
    let nlu = NluEngine::new();
    let r = nlu.understand("现在几点?");
    assert_eq!(r.intent, Intent::AskState);
}

#[test]
fn question_subject_follows_marker() {
    assert_eq!(extract_question_subject("什么是动量守恒?"), Some("是动量守恒?".to_string()));
    assert_eq!(extract_question_subject("随便说说"), None);
}

#[test]
fn command_verb_first_in_table_order() {
    assert_eq!(extract_command_verb("请运行测试"), Some("运行".to_string()));
    assert_eq!(extract_command_verb("开始执行"), Some("执行".to_string()));
    assert_eq!(extract_command_verb("休息一下"), None);
}

#[test]
fn cot_step_ids_count_up() {
    let mut cot = CotOrchestrator::new();
    assert_eq!(cot.next_id(), 1);
    assert_eq!(cot.next_id(), 2);
    let nlu = NluEngine::new();
    let chain = cot.build_chain(&nlu.understand("你好"));
    let ids: Vec<u64> = chain.steps.iter().map(|s| s.id).collect();
    assert_eq!(ids, vec![3, 4, 5, 6]);
}

#[test]
fn explanation_lists_steps() {
    let nlg = NlgEngine::new();
    let e = nlg.generate_explanation(&["a".to_string(), "b".to_string()]);
    assert_eq!(e, "我的推理过程:\n  步骤 1: a\n  步骤 2: b\n");
    assert_eq!(nlg.generate_explanation(&[]), "没有可解释的步骤.");
}

#[test]
fn command_response_names_the_verb() {
    let nlu = NluEngine::new();
    let nlg = NlgEngine::new();
    let r = nlu.understand("请运行测试");
    assert_eq!(nlg.generate_response(&r.intent, &r.slots), "好的,我会运行这件事.");
}

#[test]
fn intent_names() {
    assert!(!Intent::Greeting.as_str().is_empty());
    assert_ne!(Intent::Greeting.as_str(), Intent::Thanks.as_str());
}

#[test]
fn understanding_scores_the_given_lowercase_text() {
    let nlu = NluEngine::new();
    assert_eq!(nlu.understand("HELLO").intent, Intent::Greeting);
    assert_eq!(nlu.understand_lowered("HELLO", "hello").intent, Intent::Greeting);
    assert_eq!(nlu.understand_lowered("HELLO", "HELLO").intent, Intent::Statement);
}
