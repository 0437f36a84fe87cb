use quantum_core::bus::{message_id_from, BusRegistry, CognitiveMessage, EthicalSignature};
use quantum_core::error::CoreError;

fn make_sig() -> EthicalSignature {
    EthicalSignature::new("test", "abc123", true)
}

fn empty_object() -> serde_json::Value {
    serde_json::Value::Object(serde_json::Map::new())
}

#[test]
fn message_validation_rejects_empty_source() {
    let msg = CognitiveMessage::new("", "target", "topic", empty_object(), make_sig());
    assert!(msg.validate().is_err());
}

#[test]
fn validation_reports_first_fault() {
    let msg = CognitiveMessage::new("", "", "topic", empty_object(), make_sig());
    assert_eq!(msg.validate(), Err("source_layer 不能为空".to_string()));
    let msg = CognitiveMessage::new("a", "", "topic", empty_object(), make_sig());
    assert_eq!(msg.validate(), Err("target_layer 不能为空".to_string()));
    let msg = CognitiveMessage::new("a", "b", "topic", empty_object(), EthicalSignature::new("", "h", true));
    assert_eq!(msg.validate(), Err("ethical_signature.issuer 不能为空".to_string()));
    let msg = CognitiveMessage::new("a", "b", "topic", empty_object(), EthicalSignature::new("i", "", true));
    assert_eq!(msg.validate(), Err("ethical_signature.anchor_hash 不能为空".to_string()));
    let msg = CognitiveMessage::new("a", "b", "", empty_object(), make_sig());
    assert_eq!(msg.validate(), Ok(()));
}

#[test]
fn message_ids_are_hex() {
    assert_eq!(message_id_from(0), "msg_0000000000000000");
    assert_eq!(message_id_from(0xdead_beef), "msg_00000000deadbeef");
    assert_eq!(message_id_from(u64::MAX), "msg_ffffffffffffffff");
    let m = CognitiveMessage::new("a", "b", "t", empty_object(), make_sig());
    assert_eq!(m.id.len(), 20);
    assert!(m.id.starts_with("msg_"));
}

#[test]
fn signature_keeps_its_fields() {
    let s = EthicalSignature::new("module7", "ff00", false);
    assert_eq!(s.issuer, "module7");
    assert_eq!(s.anchor_hash, "ff00");
    assert!(!s.ethics_approved);
}

#[test]
fn subscribers_get_messages_of_their_topic() {
    let mut reg = BusRegistry::new();
    let a = reg.subscribe("multi".to_string());
    let b = reg.subscribe("multi".to_string());
    let c = reg.subscribe("other".to_string());
    assert_eq!((a, b, c), (1, 2, 3));
    let msg = CognitiveMessage::new("p", "b", "multi", empty_object(), make_sig());
    assert_eq!(reg.dispatch(&msg), Some(vec![1, 2]));
    let stats = reg.stats();
    assert_eq!(stats.delivered, 2);
    assert_eq!(stats.subscribers, 3);
}

#[test]
fn unsubscribed_get_nothing() {
    let mut reg = BusRegistry::new();
    let a = reg.subscribe("t".to_string());
    let b = reg.subscribe("t".to_string());
    reg.unsubscribe(a);
    let msg = CognitiveMessage::new("p", "b", "t", empty_object(), make_sig());
    assert_eq!(reg.dispatch(&msg), Some(vec![b]));
    assert_eq!(reg.stats().subscribers, 1);
    assert_eq!(reg.stats().delivered, 1);
}

#[test]
fn malformed_messages_are_dropped_and_refused() {
    let mut reg = BusRegistry::new();
    reg.subscribe("t".to_string());
    let bad = CognitiveMessage::new("", "b", "t", empty_object(), make_sig());
    assert_eq!(reg.dispatch(&bad), None);
    assert_eq!(reg.stats().delivered, 0);
    match reg.check_publish(&bad) {
        Err(CoreError::BusError(e)) => assert_eq!(e, "source_layer 不能为空"),
        _ => panic!("expected a bus error"),
    }
    let good = CognitiveMessage::new("a", "b", "t", empty_object(), make_sig());
    assert!(reg.check_publish(&good).is_ok());
    reg.record_published();
    assert_eq!(reg.stats().published, 1);
}

#[test]
fn messages_without_subscribers_go_nowhere() {
    let mut reg = BusRegistry::new();
    let msg = CognitiveMessage::new("a", "b", "nobody", empty_object(), make_sig());
    assert_eq!(reg.dispatch(&msg), Some(vec![]));
    assert_eq!(reg.stats().delivered, 0);
}

#[test]
fn stamped_signature_keeps_its_stamp() {
    let s = EthicalSignature::new_at("core", "beef", true, 1_700_000_000_000_000_000);
    assert_eq!(s.issuer, "core");
    assert_eq!(s.anchor_hash, "beef");
    assert!(s.ethics_approved);
    assert_eq!(s.timestamp_ns, 1_700_000_000_000_000_000);
}

#[test]
fn stamped_message_takes_id_and_stamp_given() {
    let m = CognitiveMessage::new_at("a", "b", "t", empty_object(), make_sig(), 0xabc, 42);
    assert_eq!(m.id, "msg_0000000000000abc");
    assert_eq!(m.timestamp_ns, 42);
    assert_eq!(m.source_layer, "a");
    assert_eq!(m.target_layer, "b");
    assert_eq!(m.topic, "t");
}
