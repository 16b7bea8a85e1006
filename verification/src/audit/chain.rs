//! The audit chain: `record_hash = BLAKE3(prev_hash || canonical(record))`.
//! Segments are signed over their tip at close; `verify_chain` walks a run of
//! records and reports the exact index of the first break.

use vstd::prelude::*;
use vstd::string::StringSliceAdditionalSpecFns;
use vstd::utf8::{encode_utf8, encode_utf8_decode_utf8};
use crate::bytes::{be_u32, be_u64, push_bytes, push_be_u32, push_be_u64, lemma_be_u32_roundtrip};
use crate::audit::crypto::{blake3_digest, blake3_hash, ed25519_verifies, ed25519_verify, ed25519_public_key, ed25519_signature, ed25519_public_key_of, ed25519_sign};

verus! {

pub const HASH_LEN: usize = 32;

/// The all-zero anchor of the very first record.
pub open spec fn genesis() -> Seq<u8> {
    Seq::new(32, |i: int| 0u8)
}

/// One record of the chain. The chain commits to the payload commitment, not
/// the payload, so redacting a payload elsewhere leaves the chain intact.
#[derive(Debug, Clone, PartialEq, Eq)]
pub struct AuditRecord {
    pub seq: u64,
    pub timestamp_us: i64,
    pub tenant_id: String,
    pub kind: String,
    pub payload_commitment: [u8; 32],
    pub redacted: bool,
}

/// A record placed in the chain, with the hash it committed to and its own.
#[derive(Debug, Clone, PartialEq, Eq)]
pub struct ChainedRecord {
    pub record: AuditRecord,
    pub prev_hash: [u8; 32],
    pub record_hash: [u8; 32],
}

/// A closed segment: a run of chained records and an Ed25519 signature over the tip.
#[derive(Debug, Clone, PartialEq, Eq)]
pub struct Segment {
    pub segment_id: u64,
    pub records: Vec<ChainedRecord>,
    pub tip_signature: [u8; 64],
    pub signer_pubkey: [u8; 32],
}

/// A break in a chain; `index` is the exact position of the offending record.
#[derive(Debug, Clone, Copy, PartialEq, Eq, Structural)]
pub enum VerifyError {
    SeqBroken { index: usize, expected: u64, got: u64 },
    ChainBroken { index: usize },
    RecordHashMismatch { index: usize },
    BadSignature,
    EmptySegment,
}

/// A length-prefixed UTF-8 string: its byte length as a big-endian `u32`
/// (truncated to 32 bits), then its bytes.
pub open spec fn prefixed(s: Seq<char>) -> Seq<u8> {
    be_u32(encode_utf8(s).len() as u32) + encode_utf8(s)
}

/// The canonical encoding: fixed field order and widths, so hashing never
/// depends on a serializer's key ordering.
pub open spec fn spec_canonical_bytes(r: AuditRecord) -> Seq<u8> {
    be_u64(r.seq) + be_u64(r.timestamp_us as u64) + prefixed(r.tenant_id@) + prefixed(r.kind@)
        + r.payload_commitment@ + seq![if r.redacted { 1u8 } else { 0u8 }]
}

/// The hash a record must carry when it follows `prev`.
pub open spec fn spec_record_hash(prev: Seq<u8>, r: AuditRecord) -> Seq<u8> {
    blake3_digest(prev + spec_canonical_bytes(r))
}

/// Sequence number `start + i`, wrapping at 2^64.
pub open spec fn wrap_seq(start: u64, i: int) -> u64 {
    ((start as int + i) % 0x1_0000_0000_0000_0000int) as u64
}

/// Advancing a wrapped sequence number by one is what `wrapping_add(1)` does.
pub proof fn lemma_wrap_one(x: u64)
    ensures
        wrap_seq(x, 1) == (if x == u64::MAX { 0u64 } else { (x + 1) as u64 }),
{
}

/// Wrapping twice composes: `start + j`, then one more, is `start + (j + 1)`.
pub proof fn lemma_wrap_step(start: u64, j: int)
    requires
        j >= 0,
    ensures
        wrap_seq(wrap_seq(start, j), 1) == wrap_seq(start, j + 1),
{
    let m = 0x1_0000_0000_0000_0000int;
    let a = start as int + j;
    assert((a % m + 1) % m == (a + 1) % m) by {
        vstd::arithmetic::div_mod::lemma_add_mod_noop(a, 1, m);
        assert(1int % m == 1);
    }
}

/// What a walk of `records` from position `index` answers, given the hash the
/// record at `index` must link to and the sequence number it must carry.
pub open spec fn spec_verify_from(records: Seq<ChainedRecord>, prev: Seq<u8>, expected: u64, index: int) -> Result<Seq<u8>, VerifyError>
    decreases records.len() - index,
{
    if index < 0 || index >= records.len() {
        Ok(prev)
    } else {
        let cr = records[index];
        if cr.record.seq != expected {
            Err(VerifyError::SeqBroken { index: index as usize, expected, got: cr.record.seq })
        } else if cr.prev_hash@ != prev {
            Err(VerifyError::ChainBroken { index: index as usize })
        } else if cr.record_hash@ != spec_record_hash(cr.prev_hash@, cr.record) {
            Err(VerifyError::RecordHashMismatch { index: index as usize })
        } else {
            spec_verify_from(records, cr.record_hash@, wrap_seq(expected, 1), index + 1)
        }
    }
}

/// What `verify_chain` answers: an empty run is an error, otherwise the walk
/// from the anchor gives the tip hash or the first break.
pub open spec fn spec_verify_chain(records: Seq<ChainedRecord>, anchor: Seq<u8>, start: u64) -> Result<Seq<u8>, VerifyError> {
    if records.len() == 0 {
        Err(VerifyError::EmptySegment)
    } else {
        spec_verify_from(records, anchor, start, 0)
    }
}

/// The hash record `j` must link to: the anchor for the first, else the
/// previous record's hash.
pub open spec fn expected_prev(records: Seq<ChainedRecord>, anchor: Seq<u8>, j: int) -> Seq<u8> {
    if j == 0 { anchor } else { records[j - 1].record_hash@ }
}

/// Record `j` is intact: right sequence number, right link, right hash.
pub open spec fn record_ok(records: Seq<ChainedRecord>, anchor: Seq<u8>, start: u64, j: int) -> bool {
    &&& records[j].record.seq == wrap_seq(start, j)
    &&& records[j].prev_hash@ == expected_prev(records, anchor, j)
    &&& records[j].record_hash@ == spec_record_hash(records[j].prev_hash@, records[j].record)
}

/// The error reported for a broken record `j`: the first of the three checks
/// that fails, in the order sequence, link, hash.
pub open spec fn break_at(records: Seq<ChainedRecord>, anchor: Seq<u8>, start: u64, j: int) -> VerifyError {
    if records[j].record.seq != wrap_seq(start, j) {
        VerifyError::SeqBroken { index: j as usize, expected: wrap_seq(start, j), got: records[j].record.seq }
    } else if records[j].prev_hash@ != expected_prev(records, anchor, j) {
        VerifyError::ChainBroken { index: j as usize }
    } else {
        VerifyError::RecordHashMismatch { index: j as usize }
    }
}

/// Byte-wise equality of two byte strings.
pub fn bytes_eq(a: &[u8], b: &[u8]) -> (r: bool)
    ensures
        r == (a@ == b@),
{
    if a.len() != b.len() {
        return false;
    }
    let n = a.len();
    let mut i: usize = 0;
    while i < n
        invariant
            n == a@.len(),
            n == b@.len(),
            i <= n,
            forall|j: int| 0 <= j < i ==> a@[j] == b@[j],
        decreases n - i,
    {
        if a[i] != b[i] {
            return false;
        }
        i = i + 1;
    }
    assert(a@ =~= b@);
    true
}

fn push_prefixed(out: &mut Vec<u8>, s: &String)
    ensures
        final(out)@ == old(out)@ + prefixed(s@),
{
    let b = s.as_str().as_bytes();
    push_be_u32(out, b.len() as u32);
    push_bytes(out, b);
    assert(out@ =~= old(out)@ + prefixed(s@));
}

/// Canonical byte encoding of a record.
pub fn canonical_bytes(r: &AuditRecord) -> (out: Vec<u8>)
    ensures
        out@ == spec_canonical_bytes(*r),
{
    let mut out: Vec<u8> = Vec::new();
    push_be_u64(&mut out, r.seq);
    push_be_u64(&mut out, r.timestamp_us as u64);
    push_prefixed(&mut out, &r.tenant_id);
    push_prefixed(&mut out, &r.kind);
    push_bytes(&mut out, &r.payload_commitment);
    out.push(if r.redacted { 1u8 } else { 0u8 });
    assert(out@ =~= spec_canonical_bytes(*r));
    out
}

proof fn lemma_split_left(x1: Seq<u8>, y1: Seq<u8>, x2: Seq<u8>, y2: Seq<u8>)
    requires
        x1 + y1 == x2 + y2,
        x1.len() == x2.len(),
    ensures
        x1 == x2,
        y1 == y2,
{
    assert(x1 =~= (x1 + y1).subrange(0, x1.len() as int));
    assert(x2 =~= (x2 + y2).subrange(0, x2.len() as int));
    assert(y1 =~= (x1 + y1).subrange(x1.len() as int, (x1 + y1).len() as int));
    assert(y2 =~= (x2 + y2).subrange(x2.len() as int, (x2 + y2).len() as int));
}

proof fn lemma_be_u64_injective(x: u64, y: u64)
    requires
        be_u64(x) == be_u64(y),
    ensures
        x == y,
{
    assert(be_u64(x)[0] == be_u64(y)[0] && be_u64(x)[1] == be_u64(y)[1] && be_u64(x)[2] == be_u64(y)[2]
        && be_u64(x)[3] == be_u64(y)[3] && be_u64(x)[4] == be_u64(y)[4] && be_u64(x)[5] == be_u64(y)[5]
        && be_u64(x)[6] == be_u64(y)[6] && be_u64(x)[7] == be_u64(y)[7]);
    assert(x == y) by (bit_vector)
        requires
            (x >> 56u64) as u8 == (y >> 56u64) as u8,
            (x >> 48u64) as u8 == (y >> 48u64) as u8,
            (x >> 40u64) as u8 == (y >> 40u64) as u8,
            (x >> 32u64) as u8 == (y >> 32u64) as u8,
            (x >> 24u64) as u8 == (y >> 24u64) as u8,
            (x >> 16u64) as u8 == (y >> 16u64) as u8,
            (x >> 8u64) as u8 == (y >> 8u64) as u8,
            x as u8 == y as u8,
    ;
}

proof fn lemma_prefixed_parts(a: Seq<char>, ra: Seq<u8>, b: Seq<char>, rb: Seq<u8>)
    requires
        encode_utf8(a).len() < 0x1_0000_0000,
        encode_utf8(b).len() < 0x1_0000_0000,
        prefixed(a) + ra == prefixed(b) + rb,
    ensures
        a == b,
        ra == rb,
{
    let la = encode_utf8(a).len();
    let lb = encode_utf8(b).len();
    assert(prefixed(a) + ra =~= be_u32(la as u32) + (encode_utf8(a) + ra));
    assert(prefixed(b) + rb =~= be_u32(lb as u32) + (encode_utf8(b) + rb));
    lemma_split_left(be_u32(la as u32), encode_utf8(a) + ra, be_u32(lb as u32), encode_utf8(b) + rb);
    lemma_be_u32_roundtrip(la as u32);
    lemma_be_u32_roundtrip(lb as u32);
    lemma_split_left(encode_utf8(a), ra, encode_utf8(b), rb);
    encode_utf8_decode_utf8(a);
    encode_utf8_decode_utf8(b);
}

/// The canonical encoding of a record has a fixed layout: 57 bytes of
/// fixed-width fields plus the UTF-8 bytes of the tenant and the kind. It
/// is injective: records with the same encoding agree in every field.
pub proof fn lemma_canonical_bytes_layout(a: AuditRecord, b: AuditRecord)
    requires
        encode_utf8(a.tenant_id@).len() < 0x1_0000_0000,
        encode_utf8(a.kind@).len() < 0x1_0000_0000,
        encode_utf8(b.tenant_id@).len() < 0x1_0000_0000,
        encode_utf8(b.kind@).len() < 0x1_0000_0000,
    ensures
        spec_canonical_bytes(a).len() == 57 + encode_utf8(a.tenant_id@).len() + encode_utf8(a.kind@).len(),
        spec_canonical_bytes(a) == spec_canonical_bytes(b) <==> {
            &&& a.seq == b.seq
            &&& a.timestamp_us == b.timestamp_us
            &&& a.tenant_id@ == b.tenant_id@
            &&& a.kind@ == b.kind@
            &&& a.payload_commitment@ == b.payload_commitment@
            &&& a.redacted == b.redacted
        },
{
    let ea = spec_canonical_bytes(a);
    let eb = spec_canonical_bytes(b);
    if ea == eb {
        let ta = prefixed(a.tenant_id@) + prefixed(a.kind@) + (a.payload_commitment@ + seq![if a.redacted { 1u8 } else { 0u8 }]);
        let tb = prefixed(b.tenant_id@) + prefixed(b.kind@) + (b.payload_commitment@ + seq![if b.redacted { 1u8 } else { 0u8 }]);
        assert(ea =~= be_u64(a.seq) + (be_u64(a.timestamp_us as u64) + ta));
        assert(eb =~= be_u64(b.seq) + (be_u64(b.timestamp_us as u64) + tb));
        lemma_split_left(be_u64(a.seq), be_u64(a.timestamp_us as u64) + ta, be_u64(b.seq), be_u64(b.timestamp_us as u64) + tb);
        lemma_split_left(be_u64(a.timestamp_us as u64), ta, be_u64(b.timestamp_us as u64), tb);
        lemma_be_u64_injective(a.seq, b.seq);
        lemma_be_u64_injective(a.timestamp_us as u64, b.timestamp_us as u64);
        let (x, y) = (a.timestamp_us, b.timestamp_us);
        assert(x == y) by (bit_vector)
            requires
                x as u64 == y as u64,
        ;
        let ka = prefixed(a.kind@) + (a.payload_commitment@ + seq![if a.redacted { 1u8 } else { 0u8 }]);
        let kb = prefixed(b.kind@) + (b.payload_commitment@ + seq![if b.redacted { 1u8 } else { 0u8 }]);
        assert(ta =~= prefixed(a.tenant_id@) + ka);
        assert(tb =~= prefixed(b.tenant_id@) + kb);
        lemma_prefixed_parts(a.tenant_id@, ka, b.tenant_id@, kb);
        lemma_prefixed_parts(a.kind@, a.payload_commitment@ + seq![if a.redacted { 1u8 } else { 0u8 }],
            b.kind@, b.payload_commitment@ + seq![if b.redacted { 1u8 } else { 0u8 }]);
        lemma_split_left(a.payload_commitment@, seq![if a.redacted { 1u8 } else { 0u8 }],
            b.payload_commitment@, seq![if b.redacted { 1u8 } else { 0u8 }]);
        assert(seq![if a.redacted { 1u8 } else { 0u8 }][0] == seq![if b.redacted { 1u8 } else { 0u8 }][0]);
    }
    if a.seq == b.seq && a.timestamp_us == b.timestamp_us && a.tenant_id@ == b.tenant_id@ && a.kind@ == b.kind@
        && a.payload_commitment@ == b.payload_commitment@ && a.redacted == b.redacted {
        assert(ea =~= eb);
    }
}

/// The hash a record carries when appended after `prev_hash`.
pub fn record_hash(prev_hash: &[u8; 32], record: &AuditRecord) -> (h: [u8; 32])
    ensures
        h@ == spec_record_hash(prev_hash@, *record),
{
    let mut input: Vec<u8> = Vec::new();
    push_bytes(&mut input, prev_hash);
    let canon = canonical_bytes(record);
    push_bytes(&mut input, canon.as_slice());
    assert(input@ =~= prev_hash@ + spec_canonical_bytes(*record));
    blake3_hash(input.as_slice())
}

/// The BLAKE3 commitment to a payload.
pub fn payload_commitment(payload: &[u8]) -> (h: [u8; 32])
    ensures
        h@ == blake3_digest(payload@),
{
    blake3_hash(payload)
}

/// Verifies a run of chained records from `anchor_prev_hash` and
/// `starting_seq`; returns the tip hash or the first break with its index.
pub fn verify_chain(records: &[ChainedRecord], anchor_prev_hash: [u8; 32], starting_seq: u64) -> (r: Result<[u8; 32], VerifyError>)
    ensures
        match spec_verify_chain(records@, anchor_prev_hash@, starting_seq) {
            Ok(tip) => r matches Ok(h) && h@ == tip,
            Err(e) => r == Err::<[u8; 32], VerifyError>(e),
        },
{
    let n = records.len();
    if n == 0 {
        return Err(VerifyError::EmptySegment);
    }
    let mut prev_hash = anchor_prev_hash;
    let mut expected_seq = starting_seq;
    let mut index: usize = 0;
    while index < n
        invariant
            n == records@.len(),
            index <= n,
            spec_verify_from(records@, anchor_prev_hash@, starting_seq, 0)
                == spec_verify_from(records@, prev_hash@, expected_seq, index as int),
        decreases n - index,
    {
        let cr = &records[index];
        if cr.record.seq != expected_seq {
            return Err(VerifyError::SeqBroken { index, expected: expected_seq, got: cr.record.seq });
        }
        if !bytes_eq(&cr.prev_hash, &prev_hash) {
            proof {
                assert(cr.prev_hash@ != prev_hash@);
            }
            return Err(VerifyError::ChainBroken { index });
        }
        let recomputed = record_hash(&cr.prev_hash, &cr.record);
        if !bytes_eq(&recomputed, &cr.record_hash) {
            proof {
                assert(recomputed@ != cr.record_hash@);
            }
            return Err(VerifyError::RecordHashMismatch { index });
        }
        proof {
            assert(cr.prev_hash@ == prev_hash@);
            assert(recomputed@ == cr.record_hash@);
        }
        prev_hash = cr.record_hash;
        let ghost old_expected = expected_seq;
        expected_seq = expected_seq.wrapping_add(1);
        proof {
            lemma_wrap_one(old_expected);
        }
        index = index + 1;
    }
    Ok(prev_hash)
}


/// What the walk from position `k` answers, in closed form: the first broken
/// record at or after `k` is reported, or, if none is, the last hash.
proof fn lemma_walk(records: Seq<ChainedRecord>, anchor: Seq<u8>, start: u64, k: int)
    requires
        0 <= k <= records.len(),
    ensures
        (forall|j: int| k <= j < records.len() ==> record_ok(records, anchor, start, j))
            ==> spec_verify_from(records, expected_prev(records, anchor, k), wrap_seq(start, k), k)
                == Ok::<Seq<u8>, VerifyError>(expected_prev(records, anchor, records.len() as int)),
        forall|i: int| #![trigger record_ok(records, anchor, start, i)]
            k <= i < records.len() && !record_ok(records, anchor, start, i)
            && (forall|j: int| k <= j < i ==> record_ok(records, anchor, start, j))
            ==> spec_verify_from(records, expected_prev(records, anchor, k), wrap_seq(start, k), k)
                == Err::<Seq<u8>, VerifyError>(break_at(records, anchor, start, i)),
    decreases records.len() - k,
{
    if k < records.len() {
        lemma_walk(records, anchor, start, k + 1);
        lemma_wrap_step(start, k);
        assert(expected_prev(records, anchor, k + 1) == records[k].record_hash@);
        if record_ok(records, anchor, start, k) {
            assert(spec_verify_from(records, expected_prev(records, anchor, k), wrap_seq(start, k), k)
                == spec_verify_from(records, expected_prev(records, anchor, k + 1), wrap_seq(start, k + 1), k + 1));
            assert forall|i: int| #![trigger record_ok(records, anchor, start, i)]
                k <= i < records.len() && !record_ok(records, anchor, start, i)
                && (forall|j: int| k <= j < i ==> record_ok(records, anchor, start, j))
                implies spec_verify_from(records, expected_prev(records, anchor, k), wrap_seq(start, k), k)
                    == Err::<Seq<u8>, VerifyError>(break_at(records, anchor, start, i)) by {
                assert(i != k);
                assert forall|j: int| k + 1 <= j < i implies record_ok(records, anchor, start, j) by {
                    assert(k <= j < i);
                }
            }
            if forall|j: int| k <= j < records.len() ==> record_ok(records, anchor, start, j) {
                assert forall|j: int| k + 1 <= j < records.len() implies record_ok(records, anchor, start, j) by {
                    assert(k <= j);
                }
            }
        } else {
            assert forall|i: int| #![trigger record_ok(records, anchor, start, i)]
                k <= i < records.len() && !record_ok(records, anchor, start, i)
                && (forall|j: int| k <= j < i ==> record_ok(records, anchor, start, j))
                implies spec_verify_from(records, expected_prev(records, anchor, k), wrap_seq(start, k), k)
                    == Err::<Seq<u8>, VerifyError>(break_at(records, anchor, start, i)) by {
                if i > k {
                    assert(record_ok(records, anchor, start, k));
                }
            }
        }
    }
}

/// Verification reports exactly the first break: the answer is the tip hash
/// when every record is intact, and otherwise names the first broken record
/// with the first check it fails (sequence, then link, then hash).
pub proof fn lemma_verify_chain_reports_first_break(records: Seq<ChainedRecord>, anchor: Seq<u8>, start: u64)
    requires
        records.len() > 0,
    ensures
        (forall|j: int| 0 <= j < records.len() ==> record_ok(records, anchor, start, j))
            ==> spec_verify_chain(records, anchor, start)
                == Ok::<Seq<u8>, VerifyError>(records.last().record_hash@),
        forall|i: int| #![trigger record_ok(records, anchor, start, i)]
            0 <= i < records.len() && !record_ok(records, anchor, start, i)
            && (forall|j: int| 0 <= j < i ==> record_ok(records, anchor, start, j))
            ==> spec_verify_chain(records, anchor, start)
                == Err::<Seq<u8>, VerifyError>(break_at(records, anchor, start, i)),
{
    assert(wrap_seq(start, 0) == start);
    assert(expected_prev(records, anchor, 0) == anchor);
    assert(expected_prev(records, anchor, records.len() as int) == records.last().record_hash@);
    lemma_walk(records, anchor, start, 0);
}

/// Something that signs messages and exposes its public key. Implementations
/// choose where the key lives (in memory, an OS keystore, a token).
pub trait Signer {
    /// The public key this signer exposes.
    spec fn spec_public_key(&self) -> Seq<u8>;

    /// The signature this signer produces for `msg`.
    spec fn spec_signature(&self, msg: Seq<u8>) -> Seq<u8>;

    fn public_key(&self) -> (pk: [u8; 32])
        ensures
            pk@ == self.spec_public_key();

    /// Signs `msg`; the signature verifies for it under the public key.
    fn sign(&self, msg: &[u8]) -> (sig: [u8; 64])
        ensures
            sig@ == self.spec_signature(msg@),
            ed25519_verifies(self.spec_public_key(), msg@, sig@);
}

/// In-memory Ed25519 signer built from a 32-byte seed, for development and tests.
pub struct SoftwareSigner {
    seed: [u8; 32],
}

impl SoftwareSigner {
    /// The seed this signer was built from.
    pub closed spec fn spec_seed(&self) -> Seq<u8> {
        self.seed@
    }

    pub fn from_seed(seed: [u8; 32]) -> (s: Self)
        ensures
            s.spec_seed() == seed@,
    {
        SoftwareSigner { seed }
    }
}

impl Signer for SoftwareSigner {
    closed spec fn spec_public_key(&self) -> Seq<u8> {
        ed25519_public_key(self.seed@)
    }

    closed spec fn spec_signature(&self, msg: Seq<u8>) -> Seq<u8> {
        ed25519_signature(self.seed@, msg)
    }

    fn public_key(&self) -> (pk: [u8; 32]) {
        ed25519_public_key_of(&self.seed)
    }

    fn sign(&self, msg: &[u8]) -> (sig: [u8; 64]) {
        ed25519_sign(&self.seed, msg)
    }
}

/// The Ed25519 key and signature of a software signer are those of its seed.
pub proof fn lemma_software_signer_is_ed25519(s: SoftwareSigner, msg: Seq<u8>)
    ensures
        s.spec_public_key() == ed25519_public_key(s.spec_seed()),
        s.spec_signature(msg) == ed25519_signature(s.spec_seed(), msg),
{
}

/// A well-formed run of chained records: each record is intact relative to the
/// first record's link and sequence number, the tip is the last hash, and the
/// next sequence number follows the last.
pub open spec fn chain_wf(records: Seq<ChainedRecord>, tip: Seq<u8>, next_seq: u64) -> bool {
    records.len() > 0 ==> {
        &&& forall|j: int| 0 <= j < records.len()
            ==> record_ok(records, records[0].prev_hash@, records[0].record.seq, j)
        &&& tip == records.last().record_hash@
        &&& next_seq == wrap_seq(records[0].record.seq, records.len() as int)
    }
}

/// Appends records, tracks the tip, and closes signed segments.
pub struct ChainWriter {
    records: Vec<ChainedRecord>,
    tip_hash: [u8; 32],
    next_seq: u64,
}

impl ChainWriter {
    pub closed spec fn spec_records(&self) -> Seq<ChainedRecord> {
        self.records@
    }

    pub closed spec fn spec_tip(&self) -> [u8; 32] {
        self.tip_hash
    }

    pub closed spec fn spec_next_seq(&self) -> u64 {
        self.next_seq
    }

    /// The writer's records chain correctly and its tip and counter follow them.
    pub open spec fn wf(&self) -> bool {
        chain_wf(self.spec_records(), self.spec_tip()@, self.spec_next_seq())
    }

    /// A writer anchored at the all-zero genesis hash, starting at sequence 0.
    pub fn new() -> (w: Self)
        ensures
            w.wf(),
            w.spec_records().len() == 0,
            w.spec_tip()@ == genesis(),
            w.spec_next_seq() == 0,
    {
        let w = Self::from_tip([0u8; 32], 0);
        assert(w.spec_tip()@ =~= genesis());
        w
    }

    /// A writer that continues a chain whose tip and next sequence number are given.
    pub fn from_tip(tip_hash: [u8; 32], next_seq: u64) -> (w: Self)
        ensures
            w.wf(),
            w.spec_records().len() == 0,
            w.spec_tip() == tip_hash,
            w.spec_next_seq() == next_seq,
    {
        ChainWriter { records: Vec::new(), tip_hash, next_seq }
    }

    pub fn len(&self) -> (n: usize)
        ensures
            n == self.spec_records().len(),
    {
        self.records.len()
    }

    pub fn is_empty(&self) -> (b: bool)
        ensures
            b == (self.spec_records().len() == 0),
    {
        self.records.len() == 0
    }

    pub fn tip_hash(&self) -> (t: [u8; 32])
        ensures
            t == self.spec_tip(),
    {
        self.tip_hash
    }

    pub fn next_seq(&self) -> (s: u64)
        ensures
            s == self.spec_next_seq(),
    {
        self.next_seq
    }

    /// Appends `record` after the tip, assigning it the next sequence number
    /// (which wraps at 2^64), and returns its position in the current run.
    pub fn append(&mut self, record: AuditRecord) -> (pos: usize)
        requires
            old(self).wf(),
        ensures
            final(self).wf(),
            pos == old(self).spec_records().len(),
            final(self).spec_records().len() == old(self).spec_records().len() + 1,
            final(self).spec_records().subrange(0, pos as int) == old(self).spec_records(),
            ({
                let cr = final(self).spec_records()[pos as int];
                &&& cr.record == (AuditRecord { seq: old(self).spec_next_seq(), ..record })
                &&& cr.prev_hash == old(self).spec_tip()
                &&& cr.record_hash@ == spec_record_hash(old(self).spec_tip()@, cr.record)
            }),
            final(self).spec_tip() == final(self).spec_records()[pos as int].record_hash,
            final(self).spec_next_seq() == wrap_seq(old(self).spec_next_seq(), 1),
    {
        let mut record = record;
        record.seq = self.next_seq;
        let prev_hash = self.tip_hash;
        let this_hash = record_hash(&prev_hash, &record);
        let ghost old_records = self.records@;
        let ghost old_next = self.next_seq;
        self.records.push(ChainedRecord { record, prev_hash, record_hash: this_hash });
        self.tip_hash = this_hash;
        self.next_seq = self.next_seq.wrapping_add(1);
        proof {
            lemma_wrap_one(old_next);
            let rs = self.records@;
            let n = old_records.len() as int;
            assert(rs.subrange(0, n) =~= old_records);
            if n == 0 {
                assert(wrap_seq(rs[0].record.seq, 0) == rs[0].record.seq);
                assert(record_ok(rs, rs[0].prev_hash@, rs[0].record.seq, 0));
                assert(wrap_seq(old_next, 1) == wrap_seq(rs[0].record.seq, 1));
            } else {
                let anchor = rs[0].prev_hash@;
                let start = rs[0].record.seq;
                assert(old_records[0] == rs[0]);
                assert forall|j: int| 0 <= j < rs.len() implies record_ok(rs, anchor, start, j) by {
                    if j < n {
                        assert(record_ok(old_records, anchor, start, j));
                        assert(rs[j] == old_records[j]);
                        if j > 0 {
                            assert(rs[j - 1] == old_records[j - 1]);
                        }
                    } else {
                        assert(rs[j - 1] == old_records[n - 1]);
                    }
                }
                lemma_wrap_step(start, n);
            }
        }
        self.records.len() - 1
    }

    /// Closes the current run into a segment signed over the tip. The writer
    /// keeps its tip and next sequence number, so later appends extend the chain.
    pub fn close_segment<S: Signer>(&mut self, segment_id: u64, signer: &S) -> (seg: Segment)
        requires
            old(self).wf(),
        ensures
            final(self).wf(),
            seg.segment_id == segment_id,
            seg.records@ == old(self).spec_records(),
            seg.tip_signature@ == signer.spec_signature(old(self).spec_tip()@),
            seg.signer_pubkey@ == signer.spec_public_key(),
            ed25519_verifies(seg.signer_pubkey@, old(self).spec_tip()@, seg.tip_signature@),
            final(self).spec_records().len() == 0,
            final(self).spec_tip() == old(self).spec_tip(),
            final(self).spec_next_seq() == old(self).spec_next_seq(),
    {
        let sig = signer.sign(&self.tip_hash);
        let pubkey = signer.public_key();
        let mut records: Vec<ChainedRecord> = Vec::new();
        std::mem::swap(&mut records, &mut self.records);
        Segment { segment_id, records, tip_signature: sig, signer_pubkey: pubkey }
    }
}

/// A chain produced by the writer verifies from its own anchor to its tip.
pub proof fn lemma_written_chain_verifies(w: ChainWriter)
    requires
        w.wf(),
        w.spec_records().len() > 0,
    ensures
        spec_verify_chain(w.spec_records(), w.spec_records()[0].prev_hash@, w.spec_records()[0].record.seq)
            == Ok::<Seq<u8>, VerifyError>(w.spec_tip()@),
{
    let rs = w.spec_records();
    lemma_verify_chain_reports_first_break(rs, rs[0].prev_hash@, rs[0].record.seq);
}

/// What `verify_segment` answers: an empty segment is an error; otherwise the
/// chain is walked from its first record's link and sequence number, and the
/// signature must verify over the tip.
pub open spec fn spec_verify_segment(seg: Segment) -> Result<(), VerifyError> {
    if seg.records@.len() == 0 {
        Err(VerifyError::EmptySegment)
    } else {
        match spec_verify_chain(seg.records@, seg.records@[0].prev_hash@, seg.records@[0].record.seq) {
            Err(e) => Err(e),
            Ok(tip) => if ed25519_verifies(seg.signer_pubkey@, tip, seg.tip_signature@) {
                Ok(())
            } else {
                Err(VerifyError::BadSignature)
            },
        }
    }
}

/// Verifies a segment in isolation: its chain from its own anchor, then the
/// tip signature.
pub fn verify_segment(segment: &Segment) -> (r: Result<(), VerifyError>)
    ensures
        r == spec_verify_segment(*segment),
{
    if segment.records.len() == 0 {
        return Err(VerifyError::EmptySegment);
    }
    let anchor = segment.records[0].prev_hash;
    let starting_seq = segment.records[0].record.seq;
    let tip = match verify_chain(segment.records.as_slice(), anchor, starting_seq) {
        Ok(t) => t,
        Err(e) => return Err(e),
    };
    if ed25519_verify(&segment.signer_pubkey, &tip, &segment.tip_signature) {
        Ok(())
    } else {
        Err(VerifyError::BadSignature)
    }
}

/// Marks a record redacted. Only the visible flag changes: the stored hashes
/// and commitment stay as they were.
pub fn mark_redacted(chained: &mut ChainedRecord)
    ensures
        final(chained).record == (AuditRecord { redacted: true, ..old(chained).record }),
        final(chained).prev_hash == old(chained).prev_hash,
        final(chained).record_hash == old(chained).record_hash,
{
    chained.record.redacted = true;
}

} // verus!
