//! The audit chain writer used by the daemon: a chain writer, a signer and a
//! segment store behind one API. It closes a segment when the record count
//! reaches the per-segment limit and resumes from the last persisted tip, so
//! all segments form one continuous chain. Writing a closed segment to disk is
//! the caller's side: every operation that closes one hands it back.

use vstd::prelude::*;
use vstd::string::StringExecFns;
use crate::audit::chain::{
    AuditRecord, ChainWriter, Segment, Signer, VerifyError, genesis, wrap_seq, lemma_wrap_one, lemma_written_chain_verifies,
    payload_commitment, spec_record_hash, spec_verify_segment,
};
use crate::audit::crypto::blake3_digest;
use crate::audit::persistence::SegmentStore;

verus! {

/// Microseconds since the Unix epoch from the system clock
/// (`SystemTime::now().duration_since(UNIX_EPOCH)`, zero if the clock is
/// before the epoch, truncated to `i64`). Nothing is claimed of the value.
#[verifier::external_body]
pub(crate) fn now_micros() -> (t: i64) {
    std::time::SystemTime::now().duration_since(std::time::UNIX_EPOCH).unwrap_or_default().as_micros() as i64
}

pub struct AuditChainWriter<S: Signer> {
    inner: ChainWriter,
    store: SegmentStore,
    signer: S,
    tenant_id: String,
    tip: [u8; 32],
    next_seq: u64,
    next_segment_id: u64,
    max_records_per_segment: u64,
}

impl<S: Signer> AuditChainWriter<S> {
    pub closed spec fn spec_inner(&self) -> ChainWriter {
        self.inner
    }

    pub closed spec fn spec_signer(&self) -> S {
        self.signer
    }

    pub closed spec fn spec_tenant(&self) -> Seq<char> {
        self.tenant_id@
    }

    pub closed spec fn spec_tip(&self) -> [u8; 32] {
        self.tip
    }

    pub closed spec fn spec_next_seq(&self) -> u64 {
        self.next_seq
    }

    pub closed spec fn spec_next_segment_id(&self) -> u64 {
        self.next_segment_id
    }

    pub closed spec fn spec_max_records(&self) -> u64 {
        self.max_records_per_segment
    }

    pub closed spec fn spec_store_root(&self) -> Seq<char> {
        self.store.spec_root()
    }

    /// The pending run continues the persisted chain: it starts at the
    /// persisted tip and sequence number (or, when empty, the inner writer is
    /// positioned exactly there), and the limit is at least one.
    pub open spec fn inv(&self) -> bool {
        let w = self.spec_inner();
        &&& w.wf()
        &&& self.spec_max_records() >= 1
        &&& w.spec_records().len() < self.spec_max_records()
        &&& if w.spec_records().len() == 0 {
            w.spec_tip() == self.spec_tip() && w.spec_next_seq() == self.spec_next_seq()
        } else {
            w.spec_records()[0].prev_hash == self.spec_tip()
                && w.spec_records()[0].record.seq == self.spec_next_seq()
        }
    }

    /// Opens a writer over `store`, resuming after the last persisted segment
    /// (its id and contents), or at genesis when there is none. The limit is
    /// 1000 records per segment.
    pub fn open(store: SegmentStore, tenant_id: String, signer: S, last: Option<(u64, Segment)>) -> (w: Self)
        ensures
            w.inv(),
            w.spec_inner().spec_records().len() == 0,
            w.spec_tenant() == tenant_id@,
            w.spec_signer() == signer,
            w.spec_max_records() == 1000,
            w.spec_store_root() == store.spec_root(),
            match last {
                None => w.spec_tip()@ == genesis() && w.spec_next_seq() == 0 && w.spec_next_segment_id() == 0,
                Some((id, seg)) => {
                    &&& w.spec_next_segment_id() == wrap_seq(id, 1)
                    &&& if seg.records@.len() == 0 {
                        w.spec_tip()@ == genesis() && w.spec_next_seq() == 0
                    } else {
                        w.spec_tip() == seg.records@.last().record_hash
                            && w.spec_next_seq() == wrap_seq(seg.records@.last().record.seq, 1)
                    }
                },
            },
    {
        let zero: [u8; 32] = [0u8; 32];
        assert(zero@ =~= genesis());
        let (tip, next_seq, next_segment_id) = match last {
            Some((last_id, seg)) => {
                proof {
                    lemma_wrap_one(last_id);
                }
                let n = seg.records.len();
                if n == 0 {
                    (zero, 0u64, last_id.wrapping_add(1))
                } else {
                    let s = seg.records[n - 1].record.seq;
                    proof {
                        lemma_wrap_one(s);
                    }
                    (seg.records[n - 1].record_hash, s.wrapping_add(1), last_id.wrapping_add(1))
                }
            },
            None => (zero, 0u64, 0u64),
        };
        AuditChainWriter {
            inner: ChainWriter::from_tip(tip, next_seq),
            store,
            signer,
            tenant_id,
            tip,
            next_seq,
            next_segment_id,
            max_records_per_segment: 1000,
        }
    }

    /// Sets the per-segment limit (at least one).
    pub fn with_max_records_per_segment(self, n: u64) -> (w: Self)
        requires
            self.inv(),
            self.spec_inner().spec_records().len() == 0,
        ensures
            w.inv(),
            w.spec_max_records() == if n >= 1 { n } else { 1 },
            w.spec_inner() == self.spec_inner(),
            w.spec_tip() == self.spec_tip(),
            w.spec_next_seq() == self.spec_next_seq(),
            w.spec_next_segment_id() == self.spec_next_segment_id(),
            w.spec_tenant() == self.spec_tenant(),
            w.spec_signer() == self.spec_signer(),
            w.spec_store_root() == self.spec_store_root(),
    {
        let mut w = self;
        w.max_records_per_segment = if n >= 1 { n } else { 1 };
        w
    }

    pub fn store(&self) -> (s: &SegmentStore)
        ensures
            s.spec_root() == self.spec_store_root(),
    {
        &self.store
    }

    /// The tip of the last closed segment.
    pub fn tip(&self) -> (t: [u8; 32])
        ensures
            t == self.spec_tip(),
    {
        self.tip
    }

    pub fn pending_records(&self) -> (n: usize)
        ensures
            n == self.spec_inner().spec_records().len(),
    {
        self.inner.len()
    }

    pub fn next_segment_id(&self) -> (id: u64)
        ensures
            id == self.spec_next_segment_id(),
    {
        self.next_segment_id
    }

    /// What one observation does: the record of `kind` committing to
    /// `payload`, stamped `now`, is appended to the pending run, which is
    /// closed into `closed` when it reaches the limit.
    pub open spec fn observed(self, next: Self, kind: Seq<char>, payload: Seq<u8>, now: i64, closed: Option<Segment>) -> bool {
        let before = self.spec_inner().spec_records();
        let n = before.len();
        &&& match closed {
            Some(seg) => {
                &&& n + 1 == self.spec_max_records()
                &&& seg.records@.len() == n + 1
                &&& seg.records@.subrange(0, n as int) == before
                &&& seg.segment_id == self.spec_next_segment_id()
                &&& seg.records@[n as int].record == (AuditRecord {
                    seq: self.spec_inner().spec_next_seq(),
                    timestamp_us: now,
                    tenant_id: seg.records@[n as int].record.tenant_id,
                    kind: seg.records@[n as int].record.kind,
                    payload_commitment: seg.records@[n as int].record.payload_commitment,
                    redacted: false,
                })
                &&& seg.records@[n as int].record.tenant_id@ == self.spec_tenant()
                &&& seg.records@[n as int].record.kind@ == kind
                &&& seg.records@[n as int].record.payload_commitment@ == blake3_digest(payload)
                &&& seg.records@[0].prev_hash == self.spec_tip()
                &&& seg.tip_signature@ == self.spec_signer().spec_signature(seg.records@.last().record_hash@)
                &&& seg.signer_pubkey@ == self.spec_signer().spec_public_key()
                &&& spec_verify_segment(seg) == Ok::<(), VerifyError>(())
                &&& next.spec_tip() == seg.records@.last().record_hash
                &&& next.spec_next_segment_id() == wrap_seq(self.spec_next_segment_id(), 1)
                &&& next.spec_inner().spec_records().len() == 0
            },
            None => {
                &&& n + 1 < self.spec_max_records()
                &&& next.spec_inner().spec_records().len() == n + 1
                &&& next.spec_inner().spec_records().subrange(0, n as int) == before
                &&& next.spec_inner().spec_records()[n as int].record.seq == self.spec_inner().spec_next_seq()
                &&& next.spec_inner().spec_records()[n as int].record.timestamp_us == now
                &&& next.spec_inner().spec_records()[n as int].record.tenant_id@ == self.spec_tenant()
                &&& next.spec_inner().spec_records()[n as int].record.kind@ == kind
                &&& next.spec_inner().spec_records()[n as int].record.payload_commitment@ == blake3_digest(payload)
                &&& !next.spec_inner().spec_records()[n as int].record.redacted
                &&& next.spec_tip() == self.spec_tip()
                &&& next.spec_next_segment_id() == self.spec_next_segment_id()
            },
        }
    }

    /// What closing the pending run does: nothing when it is empty;
    /// otherwise it is handed back as the next segment, signed and verifying,
    /// and the chain continues from its last record.
    pub open spec fn closed_run(self, next: Self, closed: Option<Segment>) -> bool {
        match closed {
            None => {
                &&& self.spec_inner().spec_records().len() == 0
                &&& next.spec_tip() == self.spec_tip()
                &&& next.spec_next_seq() == self.spec_next_seq()
                &&& next.spec_next_segment_id() == self.spec_next_segment_id()
            },
            Some(seg) => {
                &&& seg.records@ == self.spec_inner().spec_records()
                &&& seg.records@.len() > 0
                &&& seg.segment_id == self.spec_next_segment_id()
                &&& seg.records@[0].prev_hash == self.spec_tip()
                &&& seg.tip_signature@ == self.spec_signer().spec_signature(seg.records@.last().record_hash@)
                &&& seg.signer_pubkey@ == self.spec_signer().spec_public_key()
                &&& spec_verify_segment(seg) == Ok::<(), VerifyError>(())
                &&& next.spec_tip() == seg.records@.last().record_hash
                &&& next.spec_next_seq() == wrap_seq(seg.records@.last().record.seq, 1)
                &&& next.spec_next_segment_id() == wrap_seq(self.spec_next_segment_id(), 1)
            },
        }
    }

    /// Commits to a payload at time `now_us`: a record of `kind` carrying the
    /// BLAKE3 commitment of the payload is appended; when the pending run
    /// reaches the limit it is closed and handed back for persisting.
    pub fn observe_at(&mut self, kind: &str, canonical_payload: &[u8], now_us: i64) -> (closed: Option<Segment>)
        requires
            old(self).inv(),
        ensures
            final(self).inv(),
            old(self).observed(*final(self), kind@, canonical_payload@, now_us, closed),
            final(self).spec_max_records() == old(self).spec_max_records(),
            final(self).spec_tenant() == old(self).spec_tenant(),
            final(self).spec_signer() == old(self).spec_signer(),
            final(self).spec_store_root() == old(self).spec_store_root(),
    {
        let record = AuditRecord {
            seq: 0,
            timestamp_us: now_us,
            tenant_id: self.tenant_id.clone(),
            kind: kind.to_owned(),
            payload_commitment: payload_commitment(canonical_payload),
            redacted: false,
        };
        self.inner.append(record);
        if self.inner.len() as u64 >= self.max_records_per_segment {
            self.close_segment()
        } else {
            None
        }
    }

    /// Commits to a payload stamped with the system clock; see `observe_at`.
    pub fn observe(&mut self, kind: &str, canonical_payload: &[u8]) -> (closed: Option<Segment>)
        requires
            old(self).inv(),
        ensures
            final(self).inv(),
            final(self).spec_max_records() == old(self).spec_max_records(),
            final(self).spec_tenant() == old(self).spec_tenant(),
            final(self).spec_signer() == old(self).spec_signer(),
            final(self).spec_store_root() == old(self).spec_store_root(),
            closed is Some <==> old(self).spec_inner().spec_records().len() + 1 == old(self).spec_max_records(),
            exists|now: i64| #[trigger] old(self).observed(*final(self), kind@, canonical_payload@, now, closed),
    {
        let now = now_micros();
        self.observe_at(kind, canonical_payload, now)
    }

    /// Closes the pending run (if any) into a signed segment to persist. The
    /// chain continues from its tip.
    pub fn close_segment(&mut self) -> (closed: Option<Segment>)
        requires
            old(self).spec_inner().wf(),
            old(self).spec_max_records() >= 1,
            old(self).spec_inner().spec_records().len() <= old(self).spec_max_records(),
            if old(self).spec_inner().spec_records().len() == 0 {
                old(self).spec_inner().spec_tip() == old(self).spec_tip()
                    && old(self).spec_inner().spec_next_seq() == old(self).spec_next_seq()
            } else {
                old(self).spec_inner().spec_records()[0].prev_hash == old(self).spec_tip()
                    && old(self).spec_inner().spec_records()[0].record.seq == old(self).spec_next_seq()
            },
        ensures
            final(self).inv(),
            final(self).spec_inner().spec_records().len() == 0,
            final(self).spec_max_records() == old(self).spec_max_records(),
            final(self).spec_tenant() == old(self).spec_tenant(),
            final(self).spec_signer() == old(self).spec_signer(),
            final(self).spec_store_root() == old(self).spec_store_root(),
            old(self).closed_run(*final(self), closed),
    {
        if self.inner.is_empty() {
            return None;
        }
        let id = self.next_segment_id;
        proof {
            lemma_written_chain_verifies(self.inner);
        }
        let seg = self.inner.close_segment(id, &self.signer);
        let n = seg.records.len();
        let last_hash = seg.records[n - 1].record_hash;
        let last_seq = seg.records[n - 1].record.seq;
        proof {
            lemma_wrap_one(last_seq);
            lemma_wrap_one(id);
        }
        self.tip = last_hash;
        self.next_seq = last_seq.wrapping_add(1);
        self.inner = ChainWriter::from_tip(self.tip, self.next_seq);
        self.next_segment_id = self.next_segment_id.wrapping_add(1);
        Some(seg)
    }

    /// Closes any pending records; call on shutdown.
    pub fn flush(&mut self) -> (closed: Option<Segment>)
        requires
            old(self).inv(),
        ensures
            final(self).inv(),
            final(self).spec_inner().spec_records().len() == 0,
            closed is Some <==> old(self).spec_inner().spec_records().len() > 0,
            final(self).spec_max_records() == old(self).spec_max_records(),
            final(self).spec_tenant() == old(self).spec_tenant(),
            final(self).spec_signer() == old(self).spec_signer(),
            final(self).spec_store_root() == old(self).spec_store_root(),
            old(self).closed_run(*final(self), closed),
    {
        self.close_segment()
    }
}

} // verus!
