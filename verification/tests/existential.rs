use quantum_core::error::CoreError;
use quantum_core::existential::{
    anchor_hash, anchor_hash_hex, check_anchor_digest, AuditTrail, EthicsDimension, ValueAnchorError,
};

/// The factory anchor (0.80, 0.80, 0.70, 0.60) as little-endian bytes.
fn factory_bytes() -> Vec<u8> {
    let mut b = Vec::new();
    for v in [0.80f32, 0.80, 0.70, 0.60] {
        b.extend_from_slice(&v.to_le_bytes());
    }
    b
}

#[test]
fn factory_anchor_hash_is_stable() {
    let h1 = anchor_hash_hex(&factory_bytes());
    let h2 = anchor_hash_hex(&factory_bytes());
    assert_eq!(h1, h2);
    println!("FACTORY 锚 SHA-256: {h1}");
}

#[test]
fn sha256_of_known_input() {
    assert_eq!(
        anchor_hash_hex(b"abc"),
        "ba7816bf8f01cfea414140de5dae2223b00361a396177a9cb410ff61f20015ad"
    );
    assert_eq!(anchor_hash(b"").len(), 32);
}

#[test]
fn digest_check_passes_on_match() {
    let h = anchor_hash(&factory_bytes());
    assert!(check_anchor_digest(&h, &h).is_ok());
}

#[test]
fn digest_check_refuses_mismatch() {
    let good = anchor_hash(&factory_bytes());
    let mut bytes = factory_bytes();
    bytes[0] ^= 1;
    let bad = anchor_hash(&bytes);
    match check_anchor_digest(&bad, &good) {
        Err(CoreError::ExistentialViolation(m)) => {
            assert!(m.starts_with("元价值锚哈希不匹配:文件可能被篡改\nexpected="));
            assert!(m.contains(&anchor_hash_hex(&factory_bytes())));
            assert!(m.ends_with(&anchor_hash_hex(&bytes)));
        }
        _ => panic!("expected a violation"),
    }
}

#[test]
fn audit_trail_records_and_counts() {
    let mut t = AuditTrail::new();
    t.record("good", "modification_attempt", false, "ok");
    t.reject("rogue", "modification_attempt", "尝试修改 non_harm");
    let log = t.audit_log();
    assert_eq!(log.len(), 2);
    assert!(log.iter().any(|e| e.rejected && e.module == "rogue"));
    assert!(!log[0].rejected);
    assert_eq!(t.rejection_count(), 1);
}

#[test]
fn anchor_error_messages() {
    assert_eq!(ValueAnchorError::NonHarmImmutable.message(), "禁止修改元价值锚 non_harm(基线 0.80 不可变)");
    assert_eq!(ValueAnchorError::IntegrityImmutable.message(), "禁止修改元价值锚 integrity(哈希锁定不可变)");
    let e = ValueAnchorError::HashMismatch { expected: "aa".into(), actual: "bb".into() };
    assert_eq!(e.message(), "元价值锚哈希校验失败:期望 aa,实际 bb");
}

#[test]
fn sealed_dimensions() {
    assert!(EthicsDimension::NonHarm.is_sealed());
    assert!(EthicsDimension::Integrity.is_sealed());
    assert!(!EthicsDimension::Humility.is_sealed());
    assert!(!EthicsDimension::Gratitude.is_sealed());
}

#[test]
fn audit_entries_carry_the_given_stamp() {
    let mut t = AuditTrail::new();
    t.record_at("gate", "check", false, "ok", 1234);
    t.reject_at("gate", "modification_attempt", "no", 5678);
    let log = t.audit_log();
    assert_eq!(log.len(), 2);
    assert_eq!(log[0].timestamp, 1234);
    assert_eq!(log[0].event, "check");
    assert_eq!(log[0].module, "gate");
    assert!(!log[0].rejected);
    assert_eq!(log[1].timestamp, 5678);
    assert!(log[1].rejected);
    assert_eq!(log[1].details, "no");
    assert_eq!(t.rejection_count(), 1);
}
