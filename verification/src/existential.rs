//! The value-anchor verifier's hash seal and audit trail.
//!
//! The meta-value anchor is sealed by the SHA-256 digest of its bytes: at
//! start-up the digest of the factory anchor is checked against the known
//! good one, and a mismatch refuses start-up.  Every attempt to modify the
//! anchor and every refused action is written to an append-only audit
//! trail, and each refusal is counted.
//!
//! The anchor's values are floating-point numbers; their byte encoding and
//! the comparisons on them are made by the caller, who hands in bytes and
//! verdicts.

use sha2::Digest;
use vstd::prelude::*;
use vstd::string::*;

use crate::error::{CoreError, CoreResult};
use crate::text::hex_digit;

verus! {

/// The SHA-256 digest of a byte sequence.
pub uninterp spec fn sha256_of(data: Seq<u8>) -> Seq<u8>;

/// SHA-256 of `data` (`sha2::Sha256::digest`): the result is the named
/// digest of the input, 32 bytes long.
#[verifier::external_body]
pub(crate) fn sha256(data: &[u8]) -> (r: Vec<u8>)
    ensures
        r@ == sha256_of(data@),
        r@.len() == 32,
{
    sha2::Sha256::digest(data).to_vec()
}

/// The lowercase hexadecimal text of bytes, two digits per byte, high
/// nibble first.
pub open spec fn hex_text(b: Seq<u8>) -> Seq<char>
    decreases b.len(),
{
    if b.len() == 0 {
        Seq::empty()
    } else {
        hex_text(b.drop_last()).push(hex_digit((b.last() / 16) as nat)).push(
            hex_digit((b.last() % 16) as nat),
        )
    }
}

/// Lowercase hexadecimal text of `data` (`hex::encode`): two digits per
/// byte, high nibble first, from the table "0123456789abcdef".
#[verifier::external_body]
pub(crate) fn hex_encode(data: &[u8]) -> (s: String)
    ensures
        s@ == hex_text(data@),
{
    hex::encode(data)
}

/// Seconds since the Unix epoch, UTC: the system clock converted by
/// chrono's `From<SystemTime> for DateTime<Utc>`, then `timestamp()`.  The
/// conversion takes a clock before the epoch to a negative count rather than
/// failing.  Nothing is promised of the value: it reads the machine's clock.
#[verifier::external_body]
fn utc_timestamp() -> i64 {
    chrono::DateTime::<chrono::Utc>::from(std::time::SystemTime::now()).timestamp()
}

/// The SHA-256 digest of an anchor's byte encoding.
pub fn anchor_hash(bytes: &[u8]) -> (h: Vec<u8>)
    ensures
        h@ == sha256_of(bytes@),
        h@.len() == 32,
{
    sha256(bytes)
}

/// The SHA-256 digest of an anchor's byte encoding, in lowercase hex.
pub fn anchor_hash_hex(bytes: &[u8]) -> (s: String)
    ensures
        s@ == hex_text(sha256_of(bytes@)),
        s@.len() == 64,
{
    let h = sha256(bytes);
    proof {
        lemma_hex_text_len(h@);
    }
    hex_encode(h.as_slice())
}

proof fn lemma_hex_text_len(b: Seq<u8>)
    ensures
        hex_text(b).len() == 2 * b.len(),
    decreases b.len(),
{
    if b.len() > 0 {
        lemma_hex_text_len(b.drop_last());
    }
}

/// The start-up refusal for a digest `actual` that differs from the known
/// good `expected`.
pub open spec fn mismatch_text(expected: Seq<u8>, actual: Seq<u8>) -> Seq<char> {
    "元价值锚哈希不匹配:文件可能被篡改\nexpected="@ + hex_text(expected) + "\nactual="@ + hex_text(
        actual,
    )
}

fn bytes_eq(a: &[u8], b: &[u8]) -> (r: bool)
    ensures
        r == (a@ == b@),
{
    if a.len() != b.len() {
        return false;
    }
    let mut i: usize = 0;
    while i < a.len()
        invariant
            i <= a@.len(),
            a@.len() == b@.len(),
            forall|k: int| 0 <= k < i ==> a@[k] == b@[k],
        decreases a@.len() - i,
    {
        if a[i] != b[i] {
            return false;
        }
        i = i + 1;
    }
    assert(a@ =~= b@);
    true
}

/// The start-up self check: `Ok` exactly when the anchor's digest equals
/// the known good one; otherwise an existential violation naming both
/// digests in hex.
pub fn check_anchor_digest(actual: &[u8], expected: &[u8]) -> (r: CoreResult<()>)
    ensures
        actual@ == expected@ ==> r is Ok,
        actual@ != expected@ ==> (r matches Err(CoreError::ExistentialViolation(m)) && m@
            == mismatch_text(expected@, actual@)),
{
    if bytes_eq(actual, expected) {
        return Ok(());
    }
    let mut m = String::from_str("元价值锚哈希不匹配:文件可能被篡改\nexpected=");
    m.append(hex_encode(expected).as_str());
    m.append("\nactual=");
    m.append(hex_encode(actual).as_str());
    proof {
        reveal_strlit("元价值锚哈希不匹配:文件可能被篡改\nexpected=");
        reveal_strlit("\nactual=");
    }
    Err(CoreError::ExistentialViolation(m))
}

/// The four dimensions of the meta-value anchor.
#[derive(Debug, Clone, Copy, PartialEq, Eq, Hash, Structural)]
pub enum EthicsDimension {
    /// Do no harm (baseline 0.80, sealed).
    NonHarm,
    /// Honesty and consistency (baseline 0.80, sealed by the hash).
    Integrity,
    /// Humility, openness to correction (baseline 0.70).
    Humility,
    /// Gratitude, acknowledging sources (baseline 0.60).
    Gratitude,
}

/// The dimensions no module may ever modify.
pub open spec fn sealed(d: EthicsDimension) -> bool {
    d == EthicsDimension::NonHarm || d == EthicsDimension::Integrity
}

impl EthicsDimension {
    /// Whether the dimension is sealed: `non_harm` and `integrity` may never
    /// be modified; `humility` and `gratitude` may, though never below zero.
    pub fn is_sealed(&self) -> (b: bool)
        ensures
            b == sealed(*self),
    {
        match self {
            EthicsDimension::NonHarm => true,
            EthicsDimension::Integrity => true,
            EthicsDimension::Humility => false,
            EthicsDimension::Gratitude => false,
        }
    }
}

/// Refusals of the value anchor.
#[derive(Debug)]
pub enum ValueAnchorError {
    /// The anchor's digest is not the known good one.
    HashMismatch { expected: String, actual: String },
    /// `non_harm` may not be modified.
    NonHarmImmutable,
    /// `integrity` may not be modified.
    IntegrityImmutable,
}

/// The message of a value-anchor refusal.
pub open spec fn anchor_error_text(e: ValueAnchorError) -> Seq<char> {
    match e {
        ValueAnchorError::HashMismatch { expected, actual } => "元价值锚哈希校验失败:期望 "@ + expected@
            + ",实际 "@ + actual@,
        ValueAnchorError::NonHarmImmutable => "禁止修改元价值锚 non_harm(基线 0.80 不可变)"@,
        ValueAnchorError::IntegrityImmutable => "禁止修改元价值锚 integrity(哈希锁定不可变)"@,
    }
}

impl ValueAnchorError {
    /// The refusal's message.
    pub fn message(&self) -> (s: String)
        ensures
            s@ == anchor_error_text(*self),
    {
        match self {
            ValueAnchorError::HashMismatch { expected, actual } => {
                let mut s = String::from_str("元价值锚哈希校验失败:期望 ");
                s.append(expected.as_str());
                s.append(",实际 ");
                s.append(actual.as_str());
                proof {
                    reveal_strlit("元价值锚哈希校验失败:期望 ");
                    reveal_strlit(",实际 ");
                }
                s
            },
            ValueAnchorError::NonHarmImmutable => String::from_str(
                "禁止修改元价值锚 non_harm(基线 0.80 不可变)",
            ),
            ValueAnchorError::IntegrityImmutable => String::from_str(
                "禁止修改元价值锚 integrity(哈希锁定不可变)",
            ),
        }
    }
}

/// One entry of the audit trail.
#[derive(Debug, Clone)]
pub struct AuditEntry {
    /// When, in seconds since the Unix epoch (UTC).
    pub timestamp: i64,
    /// What happened ("modification_attempt", "action_validation", ...).
    pub event: String,
    /// The module that asked.
    pub module: String,
    /// Whether the request was refused.
    pub rejected: bool,
    /// Free text.
    pub details: String,
}

/// An audit entry as (timestamp, event, module, rejected, details).
pub open spec fn entry_fields(e: AuditEntry) -> (i64, Seq<char>, Seq<char>, bool, Seq<char>) {
    (e.timestamp, e.event@, e.module@, e.rejected, e.details@)
}

/// The append-only audit trail and the refusal counter.
pub struct AuditTrail {
    log: Vec<AuditEntry>,
    rejection_count: u64,
}

impl AuditTrail {
    /// The entries, oldest first, as (timestamp, event, module, rejected,
    /// details).
    pub closed spec fn entries(&self) -> Seq<(i64, Seq<char>, Seq<char>, bool, Seq<char>)> {
        self.log@.map_values(|e: AuditEntry| entry_fields(e))
    }

    /// Refusals counted.
    pub closed spec fn rejections(&self) -> u64 {
        self.rejection_count
    }

    /// An empty trail.
    pub fn new() -> (t: Self)
        ensures
            t.entries().len() == 0,
            t.rejections() == 0,
    {
        let t = AuditTrail { log: Vec::new(), rejection_count: 0 };
        assert(t.entries() =~= Seq::empty());
        t
    }

    /// Appends an entry stamped with `timestamp` (seconds since the Unix
    /// epoch, UTC).
    pub fn record_at(&mut self, module: &str, event: &str, rejected: bool, details: &str, timestamp: i64)
        ensures
            final(self).entries() == old(self).entries().push((timestamp, event@, module@, rejected, details@)),
            final(self).rejections() == old(self).rejections(),
    {
        let entry = AuditEntry {
            timestamp,
            event: event.to_string(),
            module: module.to_string(),
            rejected,
            details: details.to_string(),
        };
        let ghost before = self.log@;
        self.log.push(entry);
        assert(self.entries() =~= before.map_values(|e: AuditEntry| entry_fields(e)).push(
            (timestamp, event@, module@, rejected, details@),
        ));
    }

    /// Appends an entry, stamped with the UTC clock (the reading of
    /// `utc_timestamp`).
    pub fn record(&mut self, module: &str, event: &str, rejected: bool, details: &str)
        ensures
            final(self).entries().len() == old(self).entries().len() + 1,
            final(self).entries().drop_last() == old(self).entries(),
            final(self).entries().last().1 == event@,
            final(self).entries().last().2 == module@,
            final(self).entries().last().3 == rejected,
            final(self).entries().last().4 == details@,
            final(self).rejections() == old(self).rejections(),
    {
        let t = utc_timestamp();
        self.record_at(module, event, rejected, details, t);
        assert(self.entries().drop_last() =~= old(self).entries());
    }

    /// Records a refused request stamped with `timestamp`, and counts it.
    pub fn reject_at(&mut self, module: &str, event: &str, details: &str, timestamp: i64)
        requires
            old(self).rejections() < u64::MAX,
        ensures
            final(self).entries() == old(self).entries().push((timestamp, event@, module@, true, details@)),
            final(self).rejections() == old(self).rejections() + 1,
    {
        self.record_at(module, event, true, details, timestamp);
        self.rejection_count = self.rejection_count + 1;
    }

    /// Records a refused request, stamped with the UTC clock, and counts it.
    pub fn reject(&mut self, module: &str, event: &str, details: &str)
        requires
            old(self).rejections() < u64::MAX,
        ensures
            final(self).entries().len() == old(self).entries().len() + 1,
            final(self).entries().drop_last() == old(self).entries(),
            final(self).entries().last().1 == event@,
            final(self).entries().last().2 == module@,
            final(self).entries().last().3,
            final(self).entries().last().4 == details@,
            final(self).rejections() == old(self).rejections() + 1,
    {
        self.record(module, event, true, details);
        self.rejection_count = self.rejection_count + 1;
    }

    /// The entries, oldest first.
    pub fn audit_log(&self) -> (es: &[AuditEntry])
        ensures
            es@.map_values(|e: AuditEntry| entry_fields(e)) == self.entries(),
    {
        self.log.as_slice()
    }

    /// Refusals counted.
    pub fn rejection_count(&self) -> (n: u64)
        ensures
            n == self.rejections(),
    {
        self.rejection_count
    }
}

} // verus!
