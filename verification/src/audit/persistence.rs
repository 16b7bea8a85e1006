//! The audit segment store's own logic: segment file names, and verification
//! of the persisted segments as one continuous chain. Reading and writing the
//! files is the caller's side.

use vstd::prelude::*;
use vstd::string::StringExecFns;
use vstd::string::StringSliceAdditionalSpecFns;
use crate::audit::chain::{Segment, VerifyError, spec_verify_segment, verify_segment, bytes_eq};
use vstd::utf8::{encode_utf8, is_ascii_chars, is_ascii_chars_encode_utf8};
use crate::text::{hex_fixed, push_hex_fixed, spec_parse_hex_u64, parse_hex_u64, lemma_hex16_round_trip, lemma_hex_fixed_digits};

verus! {

/// Counts of what a full verification walked.
#[derive(Debug, Default, Clone, Copy, PartialEq, Eq, Structural)]
pub struct VerifyReport {
    pub segments_verified: usize,
    pub records_verified: usize,
}

/// The bytes of the `.audit.json` suffix.
pub open spec fn audit_suffix() -> Seq<u8> {
    seq![46u8, 97u8, 117u8, 100u8, 105u8, 116u8, 46u8, 106u8, 115u8, 111u8, 110u8]
}

/// The characters of the `.audit.json` suffix.
pub open spec fn audit_suffix_chars() -> Seq<char> {
    seq!['.', 'a', 'u', 'd', 'i', 't', '.', 'j', 's', 'o', 'n']
}

/// File name of segment `id`: 16 zero-padded lowercase hex digits, then `.audit.json`.
pub open spec fn spec_segment_file_name(id: u64) -> Seq<char> {
    hex_fixed(id as nat, 16) + audit_suffix_chars()
}

/// The segment id a directory entry names: the name must end in
/// `.audit.json` and the rest must parse as a base-16 `u64`.
pub open spec fn spec_parse_segment_file_name(name: Seq<u8>) -> Option<u64> {
    if name.len() >= 11 && name.subrange(name.len() - 11, name.len() as int) == audit_suffix() {
        spec_parse_hex_u64(name.subrange(0, name.len() - 11))
    } else {
        None
    }
}

/// Sum of the record counts of a run of segments.
pub open spec fn total_records(segs: Seq<Segment>) -> nat
    decreases segs.len(),
{
    if segs.len() == 0 {
        0
    } else {
        total_records(segs.drop_last()) + segs.last().records@.len()
    }
}

/// What a walk over persisted segments (in id order) answers from position
/// `i`: each segment must verify on its own, and each must anchor to the
/// previous segment's tip (a mismatch is a break at record 0). On success the
/// counts of segments and records walked.
pub open spec fn spec_verify_all_from(segs: Seq<Segment>, i: int, prev_tip: Option<Seq<u8>>, n_seg: nat, n_rec: nat) -> Result<(nat, nat), VerifyError>
    decreases segs.len() - i,
{
    if i < 0 || i >= segs.len() {
        Ok((n_seg, n_rec))
    } else {
        match spec_verify_segment(segs[i]) {
            Err(e) => Err(e),
            Ok(()) => {
                if prev_tip matches Some(a) && segs[i].records@[0].prev_hash@ != a {
                    Err(VerifyError::ChainBroken { index: 0 })
                } else {
                    spec_verify_all_from(
                        segs,
                        i + 1,
                        Some(segs[i].records@.last().record_hash@),
                        n_seg + 1,
                        n_rec + segs[i].records@.len(),
                    )
                }
            },
        }
    }
}

/// An on-disk store of audit segments rooted at a directory.
pub struct SegmentStore {
    root: String,
}

impl SegmentStore {
    pub closed spec fn spec_root(&self) -> Seq<char> {
        self.root@
    }

    /// A store rooted at `root` (creating the directory is the caller's side).
    pub fn new(root: String) -> (s: Self)
        ensures
            s.spec_root() == root@,
    {
        SegmentStore { root }
    }

    pub fn root(&self) -> (r: &str)
        ensures
            r@ == self.spec_root(),
    {
        self.root.as_str()
    }

    /// The file name that holds segment `id`.
    pub fn file_name_for(&self, id: u64) -> (name: String)
        ensures
            name@ == spec_segment_file_name(id),
    {
        segment_file_name(id)
    }

    /// Verifies every persisted segment, given in id order: each on its own,
    /// and each anchored to the previous one's tip.
    pub fn verify_all(&self, segments: &[Segment]) -> (r: Result<VerifyReport, VerifyError>)
        requires
            total_records(segments@) <= usize::MAX,
        ensures
            match spec_verify_all_from(segments@, 0, None, 0, 0) {
                Ok((s, n)) => r == Ok::<VerifyReport, VerifyError>(
                    VerifyReport { segments_verified: s as usize, records_verified: n as usize }),
                Err(e) => r == Err::<VerifyReport, VerifyError>(e),
            },
    {
        verify_segments(segments)
    }
}

/// File name of segment `id`.
pub fn segment_file_name(id: u64) -> (name: String)
    ensures
        name@ == spec_segment_file_name(id),
{
    let mut s = String::new();
    push_hex_fixed(&mut s, id, 16);
    let suffix = ".audit.json";
    proof {
        reveal_strlit(".audit.json");
    }
    s.append(suffix);
    assert(s@ =~= spec_segment_file_name(id));
    s
}

/// The file written for segment `id` is read back as segment `id`.
pub proof fn lemma_segment_file_name_round_trip(id: u64)
    ensures
        spec_parse_segment_file_name(encode_utf8(spec_segment_file_name(id))) == Some(id),
{
    let h = hex_fixed(id as nat, 16);
    let name = spec_segment_file_name(id);
    lemma_hex16_round_trip(id);
    lemma_hex_fixed_digits(id as nat, 16);
    assert(name.len() == 27);
    assert(is_ascii_chars(name)) by {
        assert forall|i: int| 0 <= i < name.len() implies '\0' <= #[trigger] name[i] <= '\u{7f}' by {
            if i < 16 {
                assert(name[i] == h[i]);
            }
        }
    }
    is_ascii_chars_encode_utf8(name);
    is_ascii_chars_encode_utf8(h);
    let b = encode_utf8(name);
    assert(b.len() == 27);
    assert(b.subrange(16, 27) =~= audit_suffix()) by {
        assert forall|i: int| 0 <= i < 11 implies b.subrange(16, 27)[i] == audit_suffix()[i] by {
            assert(b[16 + i] == name[16 + i] as u8);
            assert(name[16 + i] == audit_suffix_chars()[i]);
        }
    }
    assert(b.subrange(0, 16) =~= encode_utf8(h)) by {
        assert forall|i: int| 0 <= i < 16 implies b.subrange(0, 16)[i] == encode_utf8(h)[i] by {
            assert(name[i] == h[i]);
        }
    }
}

/// The segment id named by a directory entry, if it is an audit segment file.
pub fn parse_segment_file_name(name: &str) -> (r: Option<u64>)
    ensures
        r == spec_parse_segment_file_name(name.spec_bytes()),
{
    let b = name.as_bytes();
    let n = b.len();
    if n < 11 {
        return None;
    }
    let suffix: [u8; 11] = [46u8, 97u8, 117u8, 100u8, 105u8, 116u8, 46u8, 106u8, 115u8, 111u8, 110u8];
    let mut i: usize = 0;
    while i < 11
        invariant
            n == b@.len(),
            b@ == name.spec_bytes(),
            n >= 11,
            i <= 11,
            suffix@ == audit_suffix(),
            forall|j: int| 0 <= j < i ==> b@[n - 11 + j] == audit_suffix()[j],
        decreases 11 - i,
    {
        if b[n - 11 + i] != suffix[i] {
            proof {
                assert(b@.subrange(n - 11, n as int)[i as int] == b@[n - 11 + i]);
                assert(b@.subrange(n - 11, n as int)[i as int] != audit_suffix()[i as int]);
                assert(b@.subrange(n - 11, n as int) != audit_suffix());
            }
            return None;
        }
        i = i + 1;
    }
    assert(b@.subrange(n - 11, n as int) =~= audit_suffix());
    let stem = &b[0..n - 11];
    parse_hex_u64(stem)
}

/// Verifies persisted segments (in id order) as one continuous chain.
pub fn verify_segments(segments: &[Segment]) -> (r: Result<VerifyReport, VerifyError>)
    requires
        total_records(segments@) <= usize::MAX,
    ensures
        match spec_verify_all_from(segments@, 0, None, 0, 0) {
            Ok((s, n)) => r == Ok::<VerifyReport, VerifyError>(
                VerifyReport { segments_verified: s as usize, records_verified: n as usize }),
            Err(e) => r == Err::<VerifyReport, VerifyError>(e),
        },
{
    let n = segments.len();
    let mut prev_tip: Option<[u8; 32]> = None;
    let mut segs_done: usize = 0;
    let mut recs_done: usize = 0;
    let mut i: usize = 0;
    while i < n
        invariant
            n == segments@.len(),
            i <= n,
            segs_done == i,
            recs_done == total_records(segments@.subrange(0, i as int)),
            total_records(segments@) <= usize::MAX,
            spec_verify_all_from(segments@, 0, None, 0, 0) == spec_verify_all_from(
                segments@, i as int, match prev_tip { Some(t) => Some(t@), None => None }, segs_done as nat, recs_done as nat),
        decreases n - i,
    {
        let seg = &segments[i];
        match verify_segment(seg) {
            Ok(()) => {},
            Err(e) => return Err(e),
        }
        match prev_tip {
            Some(anchor) => {
                if !bytes_eq(&seg.records[0].prev_hash, &anchor) {
                    return Err(VerifyError::ChainBroken { index: 0 });
                }
            },
            None => {},
        }
        let len = seg.records.len();
        proof {
            lemma_total_records_prefix(segments@, i as int);
        }
        prev_tip = Some(seg.records[len - 1].record_hash);
        segs_done = segs_done + 1;
        recs_done = recs_done + len;
        i = i + 1;
    }
    Ok(VerifyReport { segments_verified: segs_done, records_verified: recs_done })
}

proof fn lemma_total_records_prefix(segs: Seq<Segment>, i: int)
    requires
        0 <= i < segs.len(),
    ensures
        total_records(segs.subrange(0, i + 1)) == total_records(segs.subrange(0, i)) + segs[i].records@.len(),
        total_records(segs.subrange(0, i + 1)) <= total_records(segs),
    decreases segs.len() - i,
{
    assert(segs.subrange(0, i + 1).drop_last() =~= segs.subrange(0, i));
    if i + 1 < segs.len() {
        lemma_total_records_prefix(segs, i + 1);
    } else {
        assert(segs.subrange(0, i + 1) =~= segs);
    }
}

/// Segments that each verify on their own and each anchor to the previous
/// segment's tip verify together, counting every segment and every record.
pub proof fn lemma_linked_segments_verify(segs: Seq<Segment>, i: int, prev_tip: Option<Seq<u8>>, n_seg: nat, n_rec: nat)
    requires
        0 <= i <= segs.len(),
        forall|j: int| i <= j < segs.len() ==> spec_verify_segment(#[trigger] segs[j]) == Ok::<(), VerifyError>(()),
        forall|j: int| i < j < segs.len()
            ==> (#[trigger] segs[j]).records@[0].prev_hash@ == segs[j - 1].records@.last().record_hash@,
        i < segs.len() && prev_tip is Some ==> segs[i].records@[0].prev_hash@ == prev_tip.unwrap(),
    ensures
        spec_verify_all_from(segs, i, prev_tip, n_seg, n_rec)
            == Ok::<(nat, nat), VerifyError>((n_seg + (segs.len() - i) as nat, n_rec + total_records(segs.subrange(i, segs.len() as int)))),
    decreases segs.len() - i,
{
    if i < segs.len() {
        let tip = Some(segs[i].records@.last().record_hash@);
        lemma_linked_segments_verify(segs, i + 1, tip, n_seg + 1, n_rec + segs[i].records@.len());
        lemma_total_records_suffix(segs, i);
    } else {
        assert(segs.subrange(i, segs.len() as int).len() == 0);
    }
}

proof fn lemma_total_records_suffix(segs: Seq<Segment>, i: int)
    requires
        0 <= i < segs.len(),
    ensures
        total_records(segs.subrange(i, segs.len() as int))
            == segs[i].records@.len() + total_records(segs.subrange(i + 1, segs.len() as int)),
    decreases segs.len() - i,
{
    let s = segs.subrange(i, segs.len() as int);
    let t = segs.subrange(i + 1, segs.len() as int);
    if i + 1 == segs.len() {
        assert(s.drop_last().len() == 0);
        assert(total_records(s.drop_last()) == 0);
        assert(s.last() == segs[i]);
        assert(t.len() == 0);
        assert(total_records(t) == 0);
    } else {
        assert(total_records(s) == total_records(s.drop_last()) + s.last().records@.len());
        assert(total_records(t) == total_records(t.drop_last()) + t.last().records@.len());
        lemma_total_records_suffix(segs.drop_last(), i);
        assert(segs.drop_last().subrange(i, segs.len() - 1) =~= s.drop_last());
        assert(segs.drop_last().subrange(i + 1, segs.len() - 1) =~= t.drop_last());
        assert(s.last() == t.last());
        assert(segs.drop_last()[i] == segs[i]);
    }
}

} // verus!
