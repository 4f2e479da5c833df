//! A tamper-evident audit log: each entry carries the hash of the chain
//! so far, and the head advances by hashing the previous head with the
//! entry's action, resource and timestamp.

use vstd::prelude::*;
use vstd::string::StringSliceAdditionalSpecFns;

verus! {

/// One link of the audit chain.
#[derive(Debug, Clone)]
pub struct AuditEntry {
    /// Head of the chain before this entry.
    pub prev_hash: String,
    /// Seconds since the Unix epoch when the entry was appended.
    pub timestamp: i64,
    /// What was done.
    pub action: String,
    /// Who did it.
    pub user_id: String,
    /// What it was done to.
    pub resource_id: String,
}

/// The log itself: only the running head is kept.
pub struct AuditLog {
    /// Hex digest of the whole chain so far.
    pub last_hash: String,
}

/// The lowercase hex digest of a byte string under the BLAKE3 hash.
/// Deterministic; its value is established only by the hash itself.
pub uninterp spec fn spec_blake3_hex(data: Seq<u8>) -> Seq<char>;

/// The little-endian bytes of a timestamp.
pub open spec fn spec_i64_le_bytes(v: i64) -> Seq<u8> {
    Seq::new(8, |i: int| (((v as u64) >> ((8 * i) as u64)) & 0xFF) as u8)
}

/// The bytes an appended entry feeds into the hash: previous head,
/// action, resource, then the timestamp little-endian.
pub open spec fn spec_audit_input(
    prev: Seq<char>,
    action: Seq<char>,
    resource: Seq<char>,
    ts: i64,
) -> Seq<u8> {
    vstd::utf8::encode_utf8(prev) + vstd::utf8::encode_utf8(action)
        + vstd::utf8::encode_utf8(resource) + spec_i64_le_bytes(ts)
}

/// Relies on `blake3::hash` and `blake3::Hash::to_hex`: the digest of a
/// byte string, deterministic, rendered as 64 lowercase hex characters.
/// Hashing one concatenated buffer equals feeding the pieces to a
/// `blake3::Hasher` one `update` at a time, which is what the chain
/// semantics call for.
#[verifier::external_body]
fn blake3_hex(data: &Vec<u8>) -> (r: String)
    ensures
        r@ == spec_blake3_hex(data@),
        r@.len() == 64,
{
    let digest = blake3::hash(data.as_slice());
    digest.to_hex().as_str().to_owned()
}

/// Relies on `chrono::Utc::now`: the current Unix timestamp in seconds.
/// Nothing is assumed of the clock's reading.
#[verifier::external_body]
fn now_unix_seconds() -> i64 {
    chrono::Utc::now().timestamp()
}

/// Append the little-endian bytes of a timestamp.
fn push_i64_le(buf: &mut Vec<u8>, v: i64)
    ensures
        final(buf)@ == old(buf)@ + spec_i64_le_bytes(v),
{
    let ghost base = buf@;
    let mut i: usize = 0;
    while i < 8
        invariant
            i <= 8,
            buf@ == base + spec_i64_le_bytes(v).take(i as int),
        decreases 8 - i,
    {
        let byte: u8 = (((v as u64) >> ((8 * i) as u64)) & 0xFF) as u8;
        buf.push(byte);
        proof {
            assert(spec_i64_le_bytes(v).take(i + 1) =~= spec_i64_le_bytes(v).take(
                i as int,
            ).push(byte));
        }
        i = i + 1;
    }
    proof {
        assert(spec_i64_le_bytes(v).take(8) =~= spec_i64_le_bytes(v));
    }
}

impl AuditLog {
    /// A fresh log, anchored at the fixed genesis head.
    pub fn new() -> (r: AuditLog)
        ensures
            r.last_hash@ == "00000000000000000000000000000000"@,
    {
        AuditLog { last_hash: "00000000000000000000000000000000".to_owned() }
    }

    /// Append an action: the returned entry records the old head, and the
    /// new head is the hash of old head, action, resource and the entry's
    /// timestamp. The timestamp is whatever the clock said.
    pub fn append(&mut self, action: &str, resource: &str) -> (entry: AuditEntry)
        ensures
            entry.prev_hash@ == old(self).last_hash@,
            entry.action@ == action@,
            entry.user_id@ == "system"@,
            entry.resource_id@ == resource@,
            final(self).last_hash@ == spec_blake3_hex(
                spec_audit_input(old(self).last_hash@, action@, resource@, entry.timestamp),
            ),
    {
        let ghost prev_view = self.last_hash@;
        let timestamp: i64 = now_unix_seconds();
        let entry = AuditEntry {
            prev_hash: self.last_hash.clone(),
            timestamp,
            action: action.to_owned(),
            user_id: "system".to_owned(),
            resource_id: resource.to_owned(),
        };
        let mut input: Vec<u8> = Vec::new();
        input.extend_from_slice(self.last_hash.as_str().as_bytes());
        input.extend_from_slice(action.as_bytes());
        input.extend_from_slice(resource.as_bytes());
        push_i64_le(&mut input, timestamp);
        proof {
            assert(input@ =~= spec_audit_input(prev_view, action@, resource@, timestamp));
        }
        self.last_hash = blake3_hex(&input);
        entry
    }

    /// The current head of the chain.
    pub fn get_head(&self) -> (r: &str)
        ensures
            r@ == self.last_hash@,
    {
        self.last_hash.as_str()
    }
}

} // verus!
