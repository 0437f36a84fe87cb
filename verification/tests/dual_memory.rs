use quantum_core::dual::{content_hash, LongTermMemory, ShortTermMemory};

fn object_with_i(i: i64) -> serde_json::Value {
    let mut m = serde_json::Map::new();
    m.insert("i".to_string(), serde_json::Value::from(i));
    serde_json::Value::Object(m)
}

#[test]
fn stm_evicts_oldest() {
    let mut stm = ShortTermMemory::new(3);
    for i in 0..5 {
        stm.push(object_with_i(i));
    }
    assert_eq!(stm.len(), 3);
    let first = &stm.items()[0]["i"];
    assert_eq!(first.as_i64().unwrap(), 2);
}

#[test]
fn ltm_dedupes_by_content_hash() {
    let mut ltm = LongTermMemory::new();
    let mut m = serde_json::Map::new();
    m.insert("text".to_string(), serde_json::Value::from("hello"));
    let content = serde_json::Value::Object(m);
    let canonical = serde_json::to_string(&content).unwrap();
    let h1 = content_hash(&canonical);
    let h2 = content_hash(&canonical);
    assert!(ltm.insert(h1, content.clone()));
    assert!(!ltm.insert(h2, content), "相同内容应被去重");
    assert_eq!(ltm.len(), 1);
}

#[test]
fn stm_with_zero_capacity_keeps_the_last() {
    let mut stm = ShortTermMemory::new(0);
    stm.push(1);
    stm.push(2);
    assert_eq!(stm.items(), &[2]);
    assert_eq!(stm.capacity(), 0);
}

#[test]
fn ltm_get_by_hash() {
    let mut ltm = LongTermMemory::new();
    assert!(ltm.insert("h1".to_string(), 10));
    assert!(ltm.insert("h2".to_string(), 20));
    assert_eq!(ltm.get("h2"), Some(&20));
    assert_eq!(ltm.get("h3"), None);
    assert_eq!(ltm.items(), &[10, 20]);
}

#[test]
fn content_hash_is_hex_sha256() {
    assert_eq!(content_hash("abc"), "ba7816bf8f01cfea414140de5dae2223b00361a396177a9cb410ff61f20015ad");
    assert_eq!(content_hash("").len(), 64);
}
