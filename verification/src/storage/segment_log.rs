//! The append-only segmented evidence log, as bookkeeping: segment naming,
//! crash recovery, the append and rotation decisions, the segment listing and
//! eviction. The files themselves are written, renamed and read by the
//! caller, which hands the log plain values (names, sizes, bytes).
//!
//! Segment files are named `NNNNNNNNNNNNNNNN.seg.wip` while active (16
//! zero-padded hex digits of the segment id); a rotation renames the active
//! file with extension `seg`, recovery renames a leftover active file with
//! extension `seg.quarantine`. Nothing ever rewrites a record.

use vstd::prelude::*;
use vstd::string::StringExecFns;
use vstd::string::{StringSliceAdditionalSpecFns, StrSliceExecFns};
use vstd::utf8::{encode_utf8, is_ascii_chars, is_ascii_chars_encode_utf8};
use crate::storage::error::StorageError;
use crate::storage::framing::{decode_records, spec_decode};
use crate::storage::quota::{Fits, Quota, spec_check};
use crate::text::{hex_fixed, push_char, push_hex_fixed, spec_parse_hex_u64, parse_hex_u64, lemma_hex16_round_trip, lemma_hex_fixed_digits};

verus! {

/// Log settings. `root` is the directory holding the segment files.
#[derive(Debug, Clone, PartialEq, Eq)]
pub struct Config {
    pub root: String,
    /// Rotate the active segment when it would pass this many bytes.
    pub max_segment_bytes: u64,
    /// Largest single record.
    pub max_record_bytes: usize,
    /// Limit over the whole log.
    pub quota: Quota,
}

impl Config {
    /// 64 MiB segments, 8 MiB records, a 2 GiB quota.
    pub fn defaults(root: String) -> (c: Config)
        ensures
            c.root@ == root@,
            c.max_segment_bytes == 64 * 1024 * 1024,
            c.max_record_bytes == 8 * 1024 * 1024,
            c.quota.limit_bytes == 2 * 1024 * 1024 * 1024,
    {
        Config {
            root,
            max_segment_bytes: 64 * 1024 * 1024,
            max_record_bytes: 8 * 1024 * 1024,
            quota: Quota::new(2 * 1024 * 1024 * 1024),
        }
    }
}

/// Where an appended record landed.
#[derive(Debug, Clone, Copy, PartialEq, Eq, Structural)]
pub struct AppendReceipt {
    pub segment_id: u64,
    pub record_index: u64,
    pub offset_in_segment: u64,
    pub bytes_written: u64,
}

#[derive(Debug, Clone, Copy, PartialEq, Eq, Structural)]
pub enum SegmentState {
    Closed,
    Active,
    Quarantined,
}

/// One segment file of the log.
#[derive(Debug, Clone, PartialEq, Eq)]
pub struct SegmentInfo {
    pub id: u64,
    pub path: String,
    pub size_bytes: u64,
    pub record_count: u64,
    pub state: SegmentState,
}

/// The segment currently written to.
#[derive(Debug, Clone, PartialEq, Eq)]
pub struct ActiveSegment {
    pub id: u64,
    pub path: String,
    pub written_bytes: u64,
    pub record_count: u64,
}

/// A directory entry of the log's root: file name and size in bytes.
#[derive(Debug, Clone, PartialEq, Eq)]
pub struct DirEntry {
    pub name: String,
    pub size: u64,
}

/// A segment file as listed by the caller: name, size, and for a closed
/// segment the number of complete records read from it.
#[derive(Debug, Clone, PartialEq, Eq)]
pub struct ListedSegment {
    pub name: String,
    pub size: u64,
    pub closed_record_count: u64,
}

/// The file operations a rotation asks for: rename the segment just closed
/// (if there was one) from `.0` to `.1`, then create the new active file.
#[derive(Debug, Clone, PartialEq, Eq)]
pub struct RotateStep {
    pub closed: Option<(String, String)>,
    pub opened_id: u64,
    pub opened_path: String,
}

/// The log's bookkeeping.
pub struct SegmentLog {
    config: Config,
    active: Option<ActiveSegment>,
    total_bytes: u64,
    next_seg_id: u64,
    quarantined_at_open: u64,
}

// ---------------------------------------------------------------------------
// Names

pub open spec fn seg_ext() -> Seq<char> { seq!['s', 'e', 'g'] }

pub open spec fn wip_ext() -> Seq<char> { seq!['s', 'e', 'g', '.', 'w', 'i', 'p'] }

pub open spec fn quarantine_ext() -> Seq<char> {
    seq!['s', 'e', 'g', '.', 'q', 'u', 'a', 'r', 'a', 'n', 't', 'i', 'n', 'e']
}

/// `.seg`, `.seg.wip` and `.seg.quarantine` as bytes.
pub open spec fn seg_suffix() -> Seq<u8> { seq![46u8, 115u8, 101u8, 103u8] }

pub open spec fn wip_suffix() -> Seq<u8> { seq![46u8, 115u8, 101u8, 103u8, 46u8, 119u8, 105u8, 112u8] }

pub open spec fn quarantine_suffix() -> Seq<u8> {
    seq![46u8, 115u8, 101u8, 103u8, 46u8, 113u8, 117u8, 97u8, 114u8, 97u8, 110u8, 116u8, 105u8, 110u8, 101u8]
}

pub open spec fn ends_with(s: Seq<u8>, suffix: Seq<u8>) -> bool {
    s.len() >= suffix.len() && s.subrange(s.len() - suffix.len(), s.len() as int) == suffix
}

/// The state a file name marks, if it names a segment file at all.
pub open spec fn spec_classify_name(name: Seq<u8>) -> Option<SegmentState> {
    if ends_with(name, seg_suffix()) {
        Some(SegmentState::Closed)
    } else if ends_with(name, wip_suffix()) {
        Some(SegmentState::Active)
    } else if ends_with(name, quarantine_suffix()) {
        Some(SegmentState::Quarantined)
    } else {
        None
    }
}

/// Position of the first `.`, or the length when there is none.
pub open spec fn first_dot(name: Seq<u8>) -> int
    decreases name.len(),
{
    if name.len() == 0 {
        0
    } else if name[0] == 46u8 {
        0
    } else {
        1 + first_dot(name.drop_first())
    }
}

/// The segment id a file name carries: the part before the first `.`, read
/// as base-16.
pub open spec fn spec_parse_segment_id(name: Seq<u8>) -> Option<u64> {
    spec_parse_hex_u64(name.subrange(0, first_dot(name)))
}

/// A file name has an extension when it holds a `.` past its first character.
pub open spec fn has_extension(name: Seq<char>) -> bool {
    exists|i: int| 0 < i < name.len() && name[i] == '.'
}

/// Position of the last `.` of a name that has one past its first character.
pub open spec fn last_dot(name: Seq<char>) -> int
    decreases name.len(),
{
    if name.len() == 0 {
        -1
    } else if name.last() == '.' {
        name.len() - 1
    } else {
        last_dot(name.drop_last())
    }
}

/// A file name with its extension replaced by `ext` (added when it has none).
pub open spec fn spec_with_extension(name: Seq<char>, ext: Seq<char>) -> Seq<char> {
    if last_dot(name) > 0 {
        name.subrange(0, last_dot(name)) + seq!['.'] + ext
    } else {
        name + seq!['.'] + ext
    }
}

/// A name joined under a directory with `/`.
pub open spec fn spec_join(root: Seq<char>, name: Seq<char>) -> Seq<char> {
    if root.len() == 0 {
        name
    } else if root.last() == '/' {
        root + name
    } else {
        root + seq!['/'] + name
    }
}

/// The active file name of segment `id`.
pub open spec fn spec_wip_name(id: u64) -> Seq<char> {
    hex_fixed(id as nat, 16) + seq!['.'] + wip_ext()
}

fn bytes_end_with(b: &[u8], suffix: &[u8]) -> (r: bool)
    ensures
        r == ends_with(b@, suffix@),
{
    let n = b.len();
    let m = suffix.len();
    if n < m {
        return false;
    }
    let mut i: usize = 0;
    while i < m
        invariant
            n == b@.len(),
            m == suffix@.len(),
            m <= n,
            i <= m,
            forall|j: int| 0 <= j < i ==> b@[n - m + j] == suffix@[j],
        decreases m - i,
    {
        if b[n - m + i] != suffix[i] {
            assert(b@.subrange(n - m, n as int)[i as int] != suffix@[i as int]);
            return false;
        }
        i = i + 1;
    }
    assert(b@.subrange(n - m, n as int) =~= suffix@);
    true
}

/// Which kind of segment file a name marks, if any.
pub fn classify_name(name: &str) -> (r: Option<SegmentState>)
    ensures
        r == spec_classify_name(name.spec_bytes()),
{
    let b = name.as_bytes();
    let seg: [u8; 4] = [46u8, 115u8, 101u8, 103u8];
    let wip: [u8; 8] = [46u8, 115u8, 101u8, 103u8, 46u8, 119u8, 105u8, 112u8];
    let quarantine: [u8; 15] = [46u8, 115u8, 101u8, 103u8, 46u8, 113u8, 117u8, 97u8, 114u8, 97u8, 110u8, 116u8, 105u8, 110u8, 101u8];
    assert(seg@ == seg_suffix());
    assert(wip@ == wip_suffix());
    assert(quarantine@ == quarantine_suffix());
    if bytes_end_with(b, &seg) {
        Some(SegmentState::Closed)
    } else if bytes_end_with(b, &wip) {
        Some(SegmentState::Active)
    } else if bytes_end_with(b, &quarantine) {
        Some(SegmentState::Quarantined)
    } else {
        None
    }
}

proof fn lemma_first_dot(name: Seq<u8>, i: int)
    requires
        0 <= i <= name.len(),
        forall|j: int| 0 <= j < i ==> name[j] != 46u8,
        i == name.len() || name[i] == 46u8,
    ensures
        first_dot(name) == i,
    decreases i,
{
    if i > 0 {
        let t = name.drop_first();
        assert forall|j: int| 0 <= j < i - 1 implies t[j] != 46u8 by {
            assert(t[j] == name[j + 1]);
        }
        lemma_first_dot(t, i - 1);
    }
}

/// The bytes of a run of ASCII characters, one each.
pub open spec fn ascii_bytes(cs: Seq<char>) -> Seq<u8> {
    cs.map_values(|c: char| c as u8)
}

/// A name made of the sixteen hex digits of `id` and then `tail`, ASCII
/// characters starting with `.`: its bytes, and the id it carries.
proof fn lemma_hex_stem_name(id: u64, tail: Seq<char>)
    requires
        tail.len() > 0,
        tail[0] == '.',
        is_ascii_chars(tail),
    ensures
        encode_utf8(hex_fixed(id as nat, 16) + tail) == encode_utf8(hex_fixed(id as nat, 16)) + ascii_bytes(tail),
        encode_utf8(hex_fixed(id as nat, 16)).len() == 16,
        spec_parse_segment_id(encode_utf8(hex_fixed(id as nat, 16) + tail)) == Some(id),
{
    let h = hex_fixed(id as nat, 16);
    let name = h + tail;
    lemma_hex_fixed_digits(id as nat, 16);
    lemma_hex16_round_trip(id);
    assert(is_ascii_chars(name)) by {
        assert forall|i: int| 0 <= i < name.len() implies '\0' <= #[trigger] name[i] <= '\u{7f}' by {
            if i < 16 {
                assert(name[i] == h[i]);
            } else {
                assert(name[i] == tail[i - 16]);
            }
        }
    }
    is_ascii_chars_encode_utf8(name);
    is_ascii_chars_encode_utf8(h);
    let b = encode_utf8(name);
    assert(b =~= encode_utf8(h) + ascii_bytes(tail)) by {
        assert forall|i: int| 0 <= i < b.len() implies b[i] == (encode_utf8(h) + ascii_bytes(tail))[i] by {
            if i < 16 {
                assert(name[i] == h[i]);
            } else {
                assert(name[i] == tail[i - 16]);
            }
        }
    }
    assert forall|j: int| 0 <= j < 16 implies b[j] != 46u8 by {
        assert(name[j] == h[j]);
        assert('0' <= h[j] <= '9' || 'a' <= h[j] <= 'f');
    }
    assert(b[16] == 46u8);
    lemma_first_dot(b, 16);
    assert(b.subrange(0, 16) =~= encode_utf8(h));
}

/// The active file of segment `id` is listed as the active segment `id`;
/// renamed on rotation (extension replaced by `seg`) it is listed as the
/// closed segment `id`, and quarantined after a crash as the quarantined
/// segment `id`.
pub proof fn lemma_segment_names_round_trip(id: u64)
    ensures
        spec_classify_name(encode_utf8(spec_wip_name(id))) == Some(SegmentState::Active),
        spec_parse_segment_id(encode_utf8(spec_wip_name(id))) == Some(id),
        spec_classify_name(encode_utf8(spec_with_extension(spec_wip_name(id), seg_ext())))
            == Some(SegmentState::Closed),
        spec_parse_segment_id(encode_utf8(spec_with_extension(spec_wip_name(id), seg_ext()))) == Some(id),
        spec_classify_name(encode_utf8(spec_with_extension(spec_wip_name(id), quarantine_ext())))
            == Some(SegmentState::Quarantined),
        spec_parse_segment_id(encode_utf8(spec_with_extension(spec_wip_name(id), quarantine_ext()))) == Some(id),
{
    let h = hex_fixed(id as nat, 16);
    lemma_hex_fixed_digits(id as nat, 16);
    let wip = spec_wip_name(id);
    let tw = seq!['.', 's', 'e', 'g', '.', 'w', 'i', 'p'];
    let tc = seq!['.', 's', 'e', 'g', '.', 's', 'e', 'g'];
    let tq = seq!['.', 's', 'e', 'g', '.', 's', 'e', 'g', '.', 'q', 'u', 'a', 'r', 'a', 'n', 't', 'i', 'n', 'e'];
    assert(wip =~= h + tw);
    // The last `.` of the active name is the one before `wip`.
    assert forall|j: int| 20 < j < wip.len() implies wip[j] != '.' by {}
    lemma_last_dot(wip, 20);
    assert(wip.subrange(0, 20) =~= h + seq!['.', 's', 'e', 'g']);
    assert(spec_with_extension(wip, seg_ext()) =~= h + tc);
    assert(spec_with_extension(wip, quarantine_ext()) =~= h + tq);
    lemma_hex_stem_name(id, tw);
    lemma_hex_stem_name(id, tc);
    lemma_hex_stem_name(id, tq);
    let e = encode_utf8(h);
    let bw = e + ascii_bytes(tw);
    let bc = e + ascii_bytes(tc);
    let bq = e + ascii_bytes(tq);
    assert(bw.subrange(20, 24) != seg_suffix()) by {
        assert(bw.subrange(20, 24)[1] == 119u8);
    }
    assert(bw.subrange(16, 24) =~= wip_suffix());
    assert(bc.subrange(20, 24) =~= seg_suffix());
    assert(bq.subrange(31, 35) != seg_suffix()) by {
        assert(bq.subrange(31, 35)[0] == 116u8);
    }
    assert(bq.subrange(27, 35) != wip_suffix()) by {
        assert(bq.subrange(27, 35)[0] == 97u8);
    }
    assert(bq.subrange(20, 35) =~= quarantine_suffix());
}

/// The segment id a file name carries, if its stem is base-16.
pub fn parse_segment_id(name: &str) -> (r: Option<u64>)
    ensures
        r == spec_parse_segment_id(name.spec_bytes()),
{
    let b = name.as_bytes();
    let n = b.len();
    let mut i: usize = 0;
    while i < n && b[i] != 46u8
        invariant
            n == b@.len(),
            i <= n,
            forall|j: int| 0 <= j < i ==> b@[j] != 46u8,
        decreases n - i,
    {
        i = i + 1;
    }
    proof {
        lemma_first_dot(b@, i as int);
    }
    parse_hex_u64(&b[0..i])
}

proof fn lemma_last_dot(name: Seq<char>, i: int)
    requires
        -1 <= i < name.len(),
        forall|j: int| i < j < name.len() ==> name[j] != '.',
        i == -1 || name[i] == '.',
    ensures
        last_dot(name) == i,
    decreases name.len(),
{
    if name.len() > 0 && i < name.len() - 1 {
        let p = name.drop_last();
        lemma_last_dot(p, i);
    }
}

/// A file name with its extension replaced, as `Path::with_extension` does
/// for a plain file name.
pub fn with_extension(name: &str, ext: &str) -> (r: String)
    ensures
        r@ == spec_with_extension(name@, ext@),
{
    let n = name.unicode_len();
    let mut k: usize = n;
    while k > 0 && name.get_char(k - 1) != '.'
        invariant
            n == name@.len(),
            k <= n,
            forall|j: int| k <= j < n ==> name@[j] != '.',
        decreases k,
    {
        k = k - 1;
    }
    let found = k > 0;
    let mut out = String::new();
    proof {
        if found {
            lemma_last_dot(name@, k - 1);
        } else {
            lemma_last_dot(name@, -1);
        }
    }
    if found && k - 1 > 0 {
        let mut i: usize = 0;
        while i < k - 1
            invariant
                n == name@.len(),
                1 <= k <= n,
                i <= k - 1,
                out@ == name@.subrange(0, i as int),
            decreases k - 1 - i,
        {
            push_char(&mut out, name.get_char(i));
            i = i + 1;
            assert(out@ =~= name@.subrange(0, i as int));
        }
    } else {
        out.append(name);
    }
    push_char(&mut out, '.');
    out.append(ext);
    assert(out@ =~= spec_with_extension(name@, ext@));
    out
}

/// A file name placed under a directory.
pub fn join_path(root: &str, name: &str) -> (r: String)
    ensures
        r@ == spec_join(root@, name@),
{
    let n = root.unicode_len();
    let mut out = String::new();
    out.append(root);
    if n > 0 && root.get_char(n - 1) != '/' {
        push_char(&mut out, '/');
    }
    out.append(name);
    assert(out@ =~= spec_join(root@, name@));
    out
}

/// The active file name of segment `id`.
pub fn wip_name(id: u64) -> (r: String)
    ensures
        r@ == spec_wip_name(id),
{
    let mut s = String::new();
    push_hex_fixed(&mut s, id, 16);
    s.append(".seg.wip");
    proof {
        reveal_strlit(".seg.wip");
    }
    assert(s@ =~= spec_wip_name(id));
    s
}


// ---------------------------------------------------------------------------
// Recovery at open

/// A segment file as plain values.
pub struct SegmentInfoView {
    pub id: u64,
    pub path: Seq<char>,
    pub size_bytes: u64,
    pub record_count: u64,
    pub state: SegmentState,
}

impl View for SegmentInfo {
    type V = SegmentInfoView;

    open spec fn view(&self) -> SegmentInfoView {
        SegmentInfoView {
            id: self.id,
            path: self.path@,
            size_bytes: self.size_bytes,
            record_count: self.record_count,
            state: self.state,
        }
    }
}

/// A leftover active file from a crash: it has an extension and ends in `.seg.wip`.
pub open spec fn is_leftover_wip(name: Seq<char>) -> bool {
    has_extension(name) && ends_with(encode_utf8(name), wip_suffix())
}

/// A directory entry's name once recovery has quarantined leftover active files.
pub open spec fn recovered_name(name: Seq<char>) -> Seq<char> {
    if is_leftover_wip(name) { spec_with_extension(name, quarantine_ext()) } else { name }
}

/// Closed and quarantined segment files count toward the log's size.
pub open spec fn counted(name: Seq<char>) -> bool {
    spec_classify_name(encode_utf8(name)) == Some(SegmentState::Closed)
        || spec_classify_name(encode_utf8(name)) == Some(SegmentState::Quarantined)
}

/// Bytes of the leftover active files.
pub open spec fn quarantined_sum(es: Seq<DirEntry>) -> nat
    decreases es.len(),
{
    if es.len() == 0 {
        0
    } else {
        quarantined_sum(es.drop_last()) + if is_leftover_wip(es.last().name@) { es.last().size as nat } else { 0 }
    }
}

/// Bytes of the counted files after recovery.
pub open spec fn counted_sum(es: Seq<DirEntry>) -> nat
    decreases es.len(),
{
    if es.len() == 0 {
        0
    } else {
        counted_sum(es.drop_last()) + if counted(recovered_name(es.last().name@)) { es.last().size as nat } else { 0 }
    }
}

/// The highest segment id among the counted files after recovery.
pub open spec fn highest_id(es: Seq<DirEntry>) -> Option<u64>
    decreases es.len(),
{
    if es.len() == 0 {
        None
    } else {
        let n = recovered_name(es.last().name@);
        let prev = highest_id(es.drop_last());
        if counted(n) && spec_parse_segment_id(encode_utf8(n)) is Some {
            let id = spec_parse_segment_id(encode_utf8(n))->0;
            match prev {
                Some(h) => Some(if h >= id { h } else { id }),
                None => Some(id),
            }
        } else {
            prev
        }
    }
}

/// The renames recovery asks for: each leftover active file to its quarantine name.
pub open spec fn recovery_renames(root: Seq<char>, es: Seq<DirEntry>) -> Seq<(Seq<char>, Seq<char>)>
    decreases es.len(),
{
    if es.len() == 0 {
        Seq::empty()
    } else {
        let prev = recovery_renames(root, es.drop_last());
        let name = es.last().name@;
        if is_leftover_wip(name) {
            prev.push((spec_join(root, name), spec_join(root, recovered_name(name))))
        } else {
            prev
        }
    }
}

fn name_has_extension(name: &str) -> (r: bool)
    ensures
        r == has_extension(name@),
{
    let n = name.unicode_len();
    let mut i: usize = 1;
    while i < n
        invariant
            n == name@.len(),
            1 <= i,
            forall|j: int| 0 < j < i && j < n ==> name@[j] != '.',
        decreases n - i,
    {
        if name.get_char(i) == '.' {
            return true;
        }
        i = i + 1;
    }
    false
}

impl SegmentLog {
    pub closed spec fn spec_config(&self) -> Config {
        self.config
    }

    pub closed spec fn spec_active(&self) -> Option<ActiveSegment> {
        self.active
    }

    pub closed spec fn spec_total(&self) -> u64 {
        self.total_bytes
    }

    pub closed spec fn spec_next_id(&self) -> u64 {
        self.next_seg_id
    }

    pub closed spec fn spec_quarantined(&self) -> u64 {
        self.quarantined_at_open
    }

    /// The active segment's bytes are part of the total, and each of its
    /// records takes at least one byte.
    pub closed spec fn wf(&self) -> bool {
        self.active matches Some(a) ==> a.written_bytes <= self.total_bytes && a.record_count <= a.written_bytes
    }

    /// Opens the log over a listing of its root directory: leftover active
    /// files are quarantined (never truncated), the size of the closed and
    /// quarantined files is the log's total, and ids continue after the
    /// highest one found. Returns the renames the caller must perform, in order.
    pub fn open(config: Config, listing: &Vec<DirEntry>) -> (r: (SegmentLog, Vec<(String, String)>))
        requires
            quarantined_sum(listing@) <= u64::MAX,
            counted_sum(listing@) <= u64::MAX,
            highest_id(listing@) != Some(u64::MAX),
        ensures
            r.0.wf(),
            r.0.spec_config() == config,
            r.0.spec_active() is None,
            r.0.spec_quarantined() == quarantined_sum(listing@),
            r.0.spec_total() == counted_sum(listing@),
            r.0.spec_next_id() == match highest_id(listing@) { Some(h) => (h + 1) as u64, None => 0 },
            r.1@.len() == recovery_renames(config.root@, listing@).len(),
            forall|i: int| 0 <= i < r.1@.len() ==> (#[trigger] r.1@[i]).0@ == recovery_renames(config.root@, listing@)[i].0
                && r.1@[i].1@ == recovery_renames(config.root@, listing@)[i].1,
    {
        let ghost es = listing@;
        let n = listing.len();
        let mut quarantined: u64 = 0;
        let mut total: u64 = 0;
        let mut highest: Option<u64> = None;
        let mut renames: Vec<(String, String)> = Vec::new();
        let mut i: usize = 0;
        proof {
            reveal_strlit("seg.quarantine");
        }
        assert("seg.quarantine"@ =~= quarantine_ext());
        while i < n
            invariant
                n == es.len(),
                es == listing@,
                i <= n,
                quarantined_sum(es) <= u64::MAX,
                counted_sum(es) <= u64::MAX,
                "seg.quarantine"@ == quarantine_ext(),
                quarantined == quarantined_sum(es.subrange(0, i as int)),
                total == counted_sum(es.subrange(0, i as int)),
                highest == highest_id(es.subrange(0, i as int)),
                renames@.len() == recovery_renames(config.root@, es.subrange(0, i as int)).len(),
                forall|j: int| 0 <= j < renames@.len() ==> (#[trigger] renames@[j]).0@ == recovery_renames(config.root@, es.subrange(0, i as int))[j].0
                    && renames@[j].1@ == recovery_renames(config.root@, es.subrange(0, i as int))[j].1,
            decreases n - i,
        {
            proof {
                let pre = es.subrange(0, i + 1);
                assert(pre.drop_last() =~= es.subrange(0, i as int));
                assert(pre.last() == es[i as int]);
                lemma_prefix_sums(es, i as int + 1);
            }
            let e = &listing[i];
            let name = e.name.as_str();
            let wip = name_has_extension(name) && classify_name(name) == Some(SegmentState::Active);
            assert(wip == is_leftover_wip(e.name@)) by {
                assert(ends_with(encode_utf8(e.name@), wip_suffix()) ==> !ends_with(encode_utf8(e.name@), seg_suffix())) by {
                    lemma_wip_not_seg(encode_utf8(e.name@));
                }
            }
            let after = if wip {
                let q = with_extension(name, "seg.quarantine");
                quarantined = quarantined + e.size;
                let from = join_path(config.root.as_str(), name);
                let to = join_path(config.root.as_str(), q.as_str());
                let ghost before = renames@;
                renames.push((from, to));
                proof {
                    let rr = recovery_renames(config.root@, es.subrange(0, i + 1));
                    assert forall|j: int| 0 <= j < renames@.len() implies (#[trigger] renames@[j]).0@ == rr[j].0
                        && renames@[j].1@ == rr[j].1 by {
                        if j < before.len() {
                            assert(renames@[j] == before[j]);
                        }
                    }
                }
                q
            } else {
                e.name.clone()
            };
            let kind = classify_name(after.as_str());
            let ghost after_name = after@;
            assert(after_name == recovered_name(e.name@));
            if kind == Some(SegmentState::Closed) || kind == Some(SegmentState::Quarantined) {
                total = total + e.size;
                match parse_segment_id(after.as_str()) {
                    Some(id) => {
                        highest = match highest {
                            Some(h) => Some(if h >= id { h } else { id }),
                            None => Some(id),
                        };
                    },
                    None => {},
                }
            }
            i = i + 1;
        }
        assert(es.subrange(0, n as int) =~= es);
        let next_seg_id = match highest {
            Some(h) => h + 1,
            None => 0,
        };
        (SegmentLog { config, active: None, total_bytes: total, next_seg_id, quarantined_at_open: quarantined }, renames)
    }
}

proof fn lemma_wip_not_seg(b: Seq<u8>)
    ensures
        ends_with(b, wip_suffix()) ==> !ends_with(b, seg_suffix()),
{
    if ends_with(b, wip_suffix()) && ends_with(b, seg_suffix()) {
        let n = b.len();
        assert(b.subrange(n - 8, n as int)[7] == 112u8);
        assert(b.subrange(n - 4, n as int)[3] == 103u8);
    }
}

proof fn lemma_prefix_sums(es: Seq<DirEntry>, k: int)
    requires
        0 <= k <= es.len(),
    ensures
        quarantined_sum(es.subrange(0, k)) <= quarantined_sum(es),
        counted_sum(es.subrange(0, k)) <= counted_sum(es),
    decreases es.len() - k,
{
    if k < es.len() {
        lemma_prefix_sums(es, k + 1);
        assert(es.subrange(0, k + 1).drop_last() =~= es.subrange(0, k));
    } else {
        assert(es.subrange(0, k) =~= es);
    }
}

// ---------------------------------------------------------------------------
// Appending and rotating

/// What `plan_append` answers for a record of `len` bytes: too large, over
/// quota, or accepted, saying whether the active segment must be rotated
/// first (there is none, or the record would take it past its size).
pub open spec fn spec_plan_append(log: SegmentLog, len: usize) -> Result<bool, StorageError> {
    let c = log.spec_config();
    let rec = (len + 4) as u64;
    if len > c.max_record_bytes {
        Err(StorageError::RecordTooLarge { size: len, max: c.max_record_bytes })
    } else if spec_check(c.quota.limit_bytes, log.spec_total(), rec) != Fits::Yes {
        Err(StorageError::QuotaExceeded { total: log.spec_total(), record: rec, limit: c.quota.limit_bytes })
    } else {
        Ok(match log.spec_active() {
            None => true,
            Some(a) => a.written_bytes + rec > c.max_segment_bytes,
        })
    }
}

/// The active segment a rotation opens.
pub open spec fn fresh_active(a: ActiveSegment, root: Seq<char>, id: u64) -> bool {
    &&& a.id == id
    &&& a.path@ == spec_join(root, spec_wip_name(id))
    &&& a.written_bytes == 0
    &&& a.record_count == 0
}

impl SegmentLog {
    /// Bytes quarantined by the recovery at open; callers report them as a coverage gap.
    pub fn quarantined_bytes_at_open(&self) -> (r: u64)
        ensures
            r == self.spec_quarantined(),
    {
        self.quarantined_at_open
    }

    /// Bytes of closed, quarantined and active segments.
    pub fn total_bytes(&self) -> (r: u64)
        ensures
            r == self.spec_total(),
    {
        self.total_bytes
    }

    pub fn quota(&self) -> (q: Quota)
        ensures
            q == self.spec_config().quota,
    {
        self.config.quota
    }

    pub fn config(&self) -> (c: &Config)
        ensures
            *c == self.spec_config(),
    {
        &self.config
    }

    /// The segment being written, if any.
    pub fn active(&self) -> (a: Option<&ActiveSegment>)
        ensures
            match self.spec_active() {
                Some(x) => a == Some(&x),
                None => a is None,
            },
    {
        match &self.active {
            Some(x) => Some(x),
            None => None,
        }
    }

    /// The id the next rotation will hand out.
    pub fn next_segment_id(&self) -> (r: u64)
        ensures
            r == self.spec_next_id(),
    {
        self.next_seg_id
    }

    /// Decides on a record of `len` bytes before anything is written: it is
    /// refused when larger than a record may be or when it would take the log
    /// past its quota; otherwise the answer says whether to rotate first.
    pub fn plan_append(&self, len: usize) -> (r: Result<bool, StorageError>)
        requires
            self.wf(),
            len + 4 <= usize::MAX,
        ensures
            r == spec_plan_append(*self, len),
            r is Ok ==> self.spec_total() + len + 4 <= self.spec_config().quota.limit_bytes,
    {
        if len > self.config.max_record_bytes {
            return Err(StorageError::RecordTooLarge { size: len, max: self.config.max_record_bytes });
        }
        let rec = (4 + len) as u64;
        match self.config.quota.check(self.total_bytes, rec) {
            Fits::Yes => {},
            Fits::No { .. } => {
                return Err(StorageError::QuotaExceeded {
                    total: self.total_bytes,
                    record: rec,
                    limit: self.config.quota.limit_bytes,
                });
            },
        }
        let must_rotate = match &self.active {
            None => true,
            Some(a) => a.written_bytes + rec > self.config.max_segment_bytes,
        };
        Ok(must_rotate)
    }

    /// Closes the active segment (if any) and opens the next one. Returns the
    /// file operations to perform: rename the closed file to its `seg`
    /// extension, create the new active file.
    pub fn rotate(&mut self) -> (step: RotateStep)
        requires
            old(self).wf(),
            old(self).spec_next_id() < u64::MAX,
        ensures
            final(self).wf(),
            final(self).spec_config() == old(self).spec_config(),
            final(self).spec_total() == old(self).spec_total(),
            final(self).spec_quarantined() == old(self).spec_quarantined(),
            final(self).spec_next_id() == old(self).spec_next_id() + 1,
            final(self).spec_active() matches Some(a)
                && fresh_active(a, old(self).spec_config().root@, old(self).spec_next_id()),
            step.opened_id == old(self).spec_next_id(),
            step.opened_path@ == spec_join(old(self).spec_config().root@, spec_wip_name(old(self).spec_next_id())),
            match old(self).spec_active() {
                None => step.closed is None,
                Some(a) => step.closed matches Some((from, to))
                    && from@ == a.path@ && to@ == spec_with_extension(a.path@, seg_ext()),
            },
    {
        let closed = match &self.active {
            Some(a) => {
                proof {
                    reveal_strlit("seg");
                }
                assert("seg"@ =~= seg_ext());
                Some((a.path.clone(), with_extension(a.path.as_str(), "seg")))
            },
            None => None,
        };
        let id = self.next_seg_id;
        self.next_seg_id = self.next_seg_id + 1;
        let name = wip_name(id);
        let path = join_path(self.config.root.as_str(), name.as_str());
        self.active = Some(ActiveSegment { id, path: path.clone(), written_bytes: 0, record_count: 0 });
        RotateStep { closed, opened_id: id, opened_path: path }
    }

    /// Books a record of `len` bytes written to the active segment.
    pub fn record_appended(&mut self, len: usize) -> (r: AppendReceipt)
        requires
            old(self).wf(),
            old(self).spec_active() is Some,
            len + 4 <= usize::MAX,
            old(self).spec_total() + len + 4 <= u64::MAX,
        ensures
            final(self).wf(),
            final(self).spec_config() == old(self).spec_config(),
            final(self).spec_next_id() == old(self).spec_next_id(),
            final(self).spec_quarantined() == old(self).spec_quarantined(),
            final(self).spec_total() == old(self).spec_total() + len + 4,
            ({
                let a = old(self).spec_active()->0;
                &&& final(self).spec_active() matches Some(b) && b.id == a.id && b.path == a.path
                    && b.written_bytes == a.written_bytes + len + 4 && b.record_count == a.record_count + 1
                &&& r == AppendReceipt {
                    segment_id: a.id,
                    record_index: a.record_count,
                    offset_in_segment: a.written_bytes,
                    bytes_written: (len + 4) as u64,
                }
            }),
    {
        let rec = (4 + len) as u64;
        let mut a = self.active.take().unwrap();
        let receipt = AppendReceipt {
            segment_id: a.id,
            record_index: a.record_count,
            offset_in_segment: a.written_bytes,
            bytes_written: rec,
        };
        a.written_bytes = a.written_bytes + rec;
        a.record_count = a.record_count + 1;
        self.active = Some(a);
        self.total_bytes = self.total_bytes + rec;
        receipt
    }

    /// Shutdown: when a segment is active, rotates (so it is closed under
    /// its final name) and hands back the fresh, empty active segment, whose
    /// file the caller removes.
    pub fn close(self) -> (r: Option<(RotateStep, ActiveSegment)>)
        requires
            self.wf(),
            self.spec_active() is Some ==> self.spec_next_id() < u64::MAX,
        ensures
            self.spec_active() is None ==> r is None,
            self.spec_active() matches Some(a) ==> (r matches Some((step, fresh))
                && fresh_active(fresh, self.spec_config().root@, self.spec_next_id())
                && step.opened_id == self.spec_next_id()
                && (step.closed matches Some((from, to))
                && from@ == a.path@ && to@ == spec_with_extension(a.path@, seg_ext()))),
    {
        let mut log = self;
        if log.active.is_some() {
            let step = log.rotate();
            let fresh = log.active.take().unwrap();
            Some((step, fresh))
        } else {
            None
        }
    }

    /// Books the removal of an evicted segment of `size_bytes` bytes.
    pub fn note_evicted(&mut self, size_bytes: u64)
        requires
            old(self).wf(),
            old(self).spec_active() matches Some(a) ==> a.written_bytes + size_bytes <= old(self).spec_total(),
        ensures
            final(self).wf(),
            final(self).spec_total() == (if old(self).spec_total() >= size_bytes { old(self).spec_total() - size_bytes } else { 0 }),
            final(self).spec_active() == old(self).spec_active(),
            final(self).spec_config() == old(self).spec_config(),
            final(self).spec_next_id() == old(self).spec_next_id(),
            final(self).spec_quarantined() == old(self).spec_quarantined(),
    {
        self.total_bytes = self.total_bytes.saturating_sub(size_bytes);
    }
}

/// An accepted append never takes the log past its quota, and its receipt
/// says where the record went: the active segment, after all its earlier
/// records.
pub proof fn lemma_accepted_append_stays_within_quota(log: SegmentLog, len: usize)
    requires
        len + 4 <= usize::MAX,
        spec_plan_append(log, len) is Ok,
    ensures
        log.spec_total() + len + 4 <= log.spec_config().quota.limit_bytes,
{
}

/// Reads back the records of a closed segment file's bytes; a record whose
/// body is cut short is reported with its offset.
pub fn read_segment_records(path: &str, bytes: &[u8]) -> (r: Result<Vec<Vec<u8>>, StorageError>)
    ensures
        match spec_decode(bytes@, 0) {
            Ok(rs) => r matches Ok(v) && v@.len() == rs.len()
                && forall|i: int| 0 <= i < rs.len() ==> #[trigger] v@[i]@ == rs[i],
            Err(o) => r matches Err(StorageError::SegmentCorrupt { path: p, offset, reason })
                && p@ == path@ && offset == o && reason@ == "truncated record body"@,
        },
{
    match decode_records(bytes) {
        Ok(v) => Ok(v),
        Err(o) => {
            let reason = "truncated record body";
            Err(StorageError::SegmentCorrupt { path: path.to_owned(), offset: o, reason })
        },
    }
}

// ---------------------------------------------------------------------------
// Listing and eviction

/// What a listed file contributes to the segment list, if it is a segment file.
pub open spec fn listed_info(root: Seq<char>, active: Option<ActiveSegment>, e: ListedSegment) -> Option<SegmentInfoView> {
    let b = encode_utf8(e.name@);
    match spec_classify_name(b) {
        None => None,
        Some(state) => match spec_parse_segment_id(b) {
            None => None,
            Some(id) => Some(SegmentInfoView {
                id,
                path: spec_join(root, e.name@),
                size_bytes: e.size,
                record_count: if state == SegmentState::Closed {
                    e.closed_record_count
                } else {
                    match active {
                        Some(a) => if a.id == id { a.record_count } else { 0 },
                        None => 0,
                    }
                },
                state,
            }),
        },
    }
}

/// The segment files of a listing, in listing order.
pub open spec fn listed_infos(root: Seq<char>, active: Option<ActiveSegment>, es: Seq<ListedSegment>) -> Seq<SegmentInfoView>
    decreases es.len(),
{
    if es.len() == 0 {
        Seq::empty()
    } else {
        let prev = listed_infos(root, active, es.drop_last());
        match listed_info(root, active, es.last()) {
            Some(x) => prev.push(x),
            None => prev,
        }
    }
}

/// Inserts `x` into a list sorted by id, after every entry with an id not above its own.
pub open spec fn insert_by_id(sorted: Seq<SegmentInfoView>, x: SegmentInfoView) -> Seq<SegmentInfoView>
    decreases sorted.len(),
{
    if sorted.len() == 0 {
        seq![x]
    } else if sorted.last().id <= x.id {
        sorted.push(x)
    } else {
        insert_by_id(sorted.drop_last(), x).push(sorted.last())
    }
}

/// A stable sort by id (equal ids keep their listing order).
pub open spec fn sort_by_id(s: Seq<SegmentInfoView>) -> Seq<SegmentInfoView>
    decreases s.len(),
{
    if s.len() == 0 {
        Seq::empty()
    } else {
        insert_by_id(sort_by_id(s.drop_last()), s.last())
    }
}

proof fn lemma_insert_at(s: Seq<SegmentInfoView>, x: SegmentInfoView, p: int)
    requires
        0 <= p <= s.len(),
        forall|j: int| p <= j < s.len() ==> #[trigger] s[j].id > x.id,
        p == 0 || s[p - 1].id <= x.id,
    ensures
        insert_by_id(s, x) == s.subrange(0, p).push(x) + s.subrange(p, s.len() as int),
    decreases s.len(),
{
    if s.len() == 0 {
        assert(s.subrange(0, p).push(x) + s.subrange(p, s.len() as int) =~= seq![x]);
    } else if p == s.len() {
        assert(s.subrange(0, p) =~= s);
        assert(s.subrange(0, p).push(x) + s.subrange(p, s.len() as int) =~= s.push(x));
    } else {
        let d = s.drop_last();
        lemma_insert_at(d, x, p);
        assert(d.subrange(0, p) =~= s.subrange(0, p));
        assert((s.subrange(0, p).push(x) + d.subrange(p, d.len() as int)).push(s.last())
            =~= s.subrange(0, p).push(x) + s.subrange(p, s.len() as int));
    }
}

fn info_of(root: &str, active: &Option<ActiveSegment>, e: &ListedSegment) -> (r: Option<SegmentInfo>)
    ensures
        match listed_info(root@, *active, *e) {
            Some(v) => r matches Some(x) && x@ == v,
            None => r is None,
        },
{
    let name = e.name.as_str();
    let state = match classify_name(name) {
        Some(st) => st,
        None => {
            return None;
        },
    };
    let id = match parse_segment_id(name) {
        Some(id) => id,
        None => {
            return None;
        },
    };
    let record_count = if state == SegmentState::Closed {
        e.closed_record_count
    } else {
        match active {
            Some(a) => if a.id == id { a.record_count } else { 0 },
            None => 0,
        }
    };
    Some(SegmentInfo { id, path: join_path(root, name), size_bytes: e.size, record_count, state })
}

impl SegmentLog {
    /// Every segment file of a listing of the root, sorted by id. The caller
    /// gives, for each closed file, the count of complete records read from
    /// it; an active file reports the active segment's count.
    pub fn segments(&self, listing: &Vec<ListedSegment>) -> (r: Vec<SegmentInfo>)
        ensures
            r@.map_values(|x: SegmentInfo| x@) == sort_by_id(listed_infos(self.spec_config().root@, self.spec_active(), listing@)),
    {
        let ghost es = listing@;
        let ghost root = self.config.root@;
        let mut out: Vec<SegmentInfo> = Vec::new();
        let n = listing.len();
        let mut i: usize = 0;
        assert(out@.map_values(|x: SegmentInfo| x@) =~= Seq::<SegmentInfoView>::empty());
        while i < n
            invariant
                n == es.len(),
                es == listing@,
                root == self.config.root@,
                i <= n,
                out@.map_values(|x: SegmentInfo| x@) == sort_by_id(listed_infos(root, self.active, es.subrange(0, i as int))),
            decreases n - i,
        {
            proof {
                assert(es.subrange(0, i + 1).drop_last() =~= es.subrange(0, i as int));
                assert(es.subrange(0, i + 1).last() == es[i as int]);
            }
            match info_of(self.config.root.as_str(), &self.active, &listing[i]) {
                Some(x) => {
                    let ghost before = out@.map_values(|y: SegmentInfo| y@);
                    let mut p: usize = out.len();
                    while p > 0 && out[p - 1].id > x.id
                        invariant
                            p <= out@.len(),
                            before == out@.map_values(|y: SegmentInfo| y@),
                            forall|j: int| p <= j < out@.len() ==> #[trigger] out@[j].id > x.id,
                        decreases p,
                    {
                        p = p - 1;
                    }
                    proof {
                        assert forall|j: int| p <= j < before.len() implies #[trigger] before[j].id > x@.id by {
                            assert(before[j] == out@[j]@);
                        }
                        if p > 0 {
                            assert(before[p - 1] == out@[p - 1]@);
                        }
                        lemma_insert_at(before, x@, p as int);
                    }
                    let ghost xv = x@;
                    out.insert(p, x);
                    proof {
                        assert(out@.map_values(|y: SegmentInfo| y@)
                            =~= before.subrange(0, p as int).push(xv) + before.subrange(p as int, before.len() as int));
                        let l = listed_infos(root, self.active, es.subrange(0, i as int));
                        assert(listed_infos(root, self.active, es.subrange(0, i + 1)) == l.push(xv));
                        assert(l.push(xv).drop_last() =~= l);
                        assert(sort_by_id(l.push(xv)) == insert_by_id(sort_by_id(l), xv));
                    }
                },
                None => {},
            }
            i = i + 1;
        }
        assert(es.subrange(0, n as int) =~= es);
        out
    }
}

/// The position of the first closed segment, the oldest when the list is sorted by id.
pub fn oldest_closed(segs: &Vec<SegmentInfo>) -> (r: Option<usize>)
    ensures
        match r {
            Some(i) => i < segs@.len() && segs@[i as int].state == SegmentState::Closed
                && forall|j: int| 0 <= j < i ==> segs@[j].state != SegmentState::Closed,
            None => forall|j: int| 0 <= j < segs@.len() ==> segs@[j].state != SegmentState::Closed,
        },
{
    let mut i: usize = 0;
    while i < segs.len()
        invariant
            i <= segs@.len(),
            forall|j: int| 0 <= j < i ==> segs@[j].state != SegmentState::Closed,
        decreases segs@.len() - i,
    {
        if segs[i].state == SegmentState::Closed {
            return Some(i);
        }
        i = i + 1;
    }
    None
}

/// A reopened log never hands out an id already on disk: every closed or
/// quarantined file's id is at most the highest one, from which the next id
/// continues.
pub proof fn lemma_reopen_never_reuses_an_id(es: Seq<DirEntry>, i: int)
    requires
        0 <= i < es.len(),
        counted(recovered_name(es[i].name@)),
        spec_parse_segment_id(encode_utf8(recovered_name(es[i].name@))) is Some,
    ensures
        highest_id(es) matches Some(h)
            && spec_parse_segment_id(encode_utf8(recovered_name(es[i].name@)))->0 <= h,
    decreases es.len(),
{
    if i < es.len() - 1 {
        lemma_reopen_never_reuses_an_id(es.drop_last(), i);
        assert(es.drop_last()[i] == es[i]);
    }
}
} // verus!
