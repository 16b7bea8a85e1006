//! Record framing inside a segment file: each record is its length as a
//! big-endian `u32`, then its bytes.

use vstd::prelude::*;
use crate::bytes::{be_u32, be_u32_value, push_be_u32, push_bytes, read_be_u32, lemma_be_u32_roundtrip};

verus! {

/// Bytes of the length header in front of each record.
pub const RECORD_HEADER_BYTES: usize = 4;

/// One framed record.
pub open spec fn frame(r: Seq<u8>) -> Seq<u8> {
    be_u32(r.len() as u32) + r
}

/// A run of framed records, in order.
pub open spec fn frames(rs: Seq<Seq<u8>>) -> Seq<u8>
    decreases rs.len(),
{
    if rs.len() == 0 {
        Seq::empty()
    } else {
        frames(rs.drop_last()) + frame(rs.last())
    }
}

/// Reading a segment's bytes starting at file offset `offset`: records until
/// fewer than four bytes remain (a partial header at the end is ignored),
/// or the offset of the first record whose body is cut short.
pub open spec fn spec_decode(b: Seq<u8>, offset: nat) -> Result<Seq<Seq<u8>>, nat>
    decreases b.len(),
{
    if b.len() < 4 {
        Ok(Seq::empty())
    } else {
        let n = be_u32_value(b.subrange(0, 4)) as int;
        if b.len() - 4 < n {
            Err(offset)
        } else {
            match spec_decode(b.subrange(4 + n, b.len() as int), offset + 4 + n as nat) {
                Ok(rest) => Ok(seq![b.subrange(4, 4 + n)] + rest),
                Err(o) => Err(o),
            }
        }
    }
}

/// How many complete records a segment holds, reading until the end or the
/// first damaged record.
pub open spec fn spec_count(b: Seq<u8>) -> nat
    decreases b.len(),
{
    if b.len() < 4 {
        0
    } else {
        let n = be_u32_value(b.subrange(0, 4)) as int;
        if b.len() - 4 < n {
            0
        } else {
            1 + spec_count(b.subrange(4 + n, b.len() as int))
        }
    }
}

/// Frames one record.
pub fn encode_record(data: &[u8]) -> (out: Vec<u8>)
    requires
        data@.len() <= u32::MAX,
    ensures
        out@ == frame(data@),
{
    let mut out: Vec<u8> = Vec::new();
    push_be_u32(&mut out, data.len() as u32);
    push_bytes(&mut out, data);
    assert(out@ =~= frame(data@));
    out
}

/// Prefixing a result with records read before it.
pub open spec fn after(done: Seq<Seq<u8>>, r: Result<Seq<Seq<u8>>, nat>) -> Result<Seq<Seq<u8>>, nat> {
    match r {
        Ok(rest) => Ok(done + rest),
        Err(o) => Err(o),
    }
}

/// Reads back the records of a segment's bytes. Fails with the offset of the
/// first record whose body is cut short.
pub fn decode_records(b: &[u8]) -> (r: Result<Vec<Vec<u8>>, u64>)
    ensures
        match spec_decode(b@, 0) {
            Ok(rs) => r matches Ok(v) && v@.len() == rs.len()
                && forall|i: int| 0 <= i < rs.len() ==> #[trigger] v@[i]@ == rs[i],
            Err(o) => r matches Err(x) && x == o,
        },
{
    let n = b.len();
    let mut out: Vec<Vec<u8>> = Vec::new();
    let ghost mut done: Seq<Seq<u8>> = Seq::empty();
    let mut pos: usize = 0;
    assert(b@.subrange(0, n as int) =~= b@);
    while n - pos >= 4
        invariant
            n == b@.len(),
            pos <= n,
            out@.len() == done.len(),
            forall|i: int| 0 <= i < done.len() ==> #[trigger] out@[i]@ == done[i],
            spec_decode(b@, 0) == after(done, spec_decode(b@.subrange(pos as int, n as int), pos as nat)),
        decreases n - pos,
    {
        let ghost rest = b@.subrange(pos as int, n as int);
        assert(rest.subrange(0, 4) =~= b@.subrange(pos as int, pos + 4));
        let len = read_be_u32(b, pos);
        let len = len as usize;
        if n - pos - 4 < len {
            return Err(pos as u64);
        }
        let start = pos + 4;
        let end = start + len;
        let mut rec: Vec<u8> = Vec::new();
        push_bytes(&mut rec, &b[start..end]);
        assert(rest.subrange(4, 4 + len as int) =~= b@.subrange(start as int, end as int));
        assert(rest.subrange(4 + len as int, rest.len() as int) =~= b@.subrange(end as int, n as int));
        proof {
            let r0 = b@.subrange(start as int, end as int);
            match spec_decode(b@.subrange(end as int, n as int), end as nat) {
                Ok(tail) => {
                    assert(done.push(r0) + tail =~= done + (seq![r0] + tail));
                },
                Err(o) => {},
            }
            done = done.push(r0);
        }
        out.push(rec);
        pos = end;
    }
    proof {
        let rest = b@.subrange(pos as int, n as int);
        assert(rest.len() < 4);
        assert(done + Seq::<Seq<u8>>::empty() =~= done);
    }
    Ok(out)
}

/// Counts the complete records of a segment's bytes, stopping at the end or
/// at the first record whose body is cut short.
pub fn count_records(b: &[u8]) -> (c: u64)
    ensures
        c == spec_count(b@),
{
    let n = b.len();
    let mut c: u64 = 0;
    let mut pos: usize = 0;
    assert(b@.subrange(0, n as int) =~= b@);
    while n - pos >= 4
        invariant
            n == b@.len(),
            pos <= n,
            c <= pos,
            spec_count(b@) == c + spec_count(b@.subrange(pos as int, n as int)),
        decreases n - pos,
    {
        let ghost rest = b@.subrange(pos as int, n as int);
        assert(rest.subrange(0, 4) =~= b@.subrange(pos as int, pos + 4));
        let len = read_be_u32(b, pos) as usize;
        if n - pos - 4 < len {
            return c;
        }
        let end = pos + 4 + len;
        assert(rest.subrange(4 + len as int, rest.len() as int) =~= b@.subrange(end as int, n as int));
        c = c + 1;
        pos = end;
    }
    c
}

proof fn lemma_decode_prefix(rs: Seq<Seq<u8>>, tail: Seq<u8>, offset: nat)
    requires
        forall|i: int| 0 <= i < rs.len() ==> #[trigger] rs[i].len() <= u32::MAX,
    ensures
        spec_decode(frames(rs) + tail, offset) == after(rs, spec_decode(tail, offset + frames(rs).len())),
    decreases rs.len(),
{
    if rs.len() == 0 {
        assert(frames(rs) + tail =~= tail);
        match spec_decode(tail, offset) {
            Ok(t) => { assert(rs + t =~= t); },
            Err(_) => {},
        }
    } else {
        let first = rs[0];
        let more = rs.drop_first();
        assert forall|i: int| 0 <= i < more.len() implies #[trigger] more[i].len() <= u32::MAX by {
            assert(more[i] == rs[i + 1]);
        }
        lemma_frames_first(rs);
        let whole = frames(rs) + tail;
        let inner = frames(more) + tail;
        assert(whole =~= frame(first) + inner);
        lemma_be_u32_roundtrip(first.len() as u32);
        assert(whole.subrange(0, 4) =~= be_u32(first.len() as u32));
        let n = first.len() as int;
        assert(whole.subrange(4, 4 + n) =~= first);
        assert(whole.subrange(4 + n, whole.len() as int) =~= inner);
        lemma_decode_prefix(more, tail, offset + 4 + n as nat);
        match spec_decode(tail, offset + frames(rs).len()) {
            Ok(t) => { assert(seq![first] + (more + t) =~= rs + t); },
            Err(_) => {},
        }
    }
}

proof fn lemma_frames_first(rs: Seq<Seq<u8>>)
    requires
        rs.len() > 0,
    ensures
        frames(rs) == frame(rs[0]) + frames(rs.drop_first()),
    decreases rs.len(),
{
    if rs.len() == 1 {
        assert(rs.drop_last() =~= Seq::<Seq<u8>>::empty());
        assert(rs.drop_first() =~= Seq::<Seq<u8>>::empty());
        assert(frames(rs) =~= frame(rs[0]) + frames(rs.drop_first()));
    } else {
        let p = rs.drop_last();
        lemma_frames_first(p);
        assert(p.drop_first() =~= rs.drop_first().drop_last());
        assert(rs.drop_first().last() == rs.last());
        assert(frames(rs) =~= frame(rs[0]) + frames(rs.drop_first()));
    }
}

/// Framing records one after another and reading the bytes back gives the
/// same records, in the same order.
pub proof fn lemma_frames_read_back(rs: Seq<Seq<u8>>)
    requires
        forall|i: int| 0 <= i < rs.len() ==> #[trigger] rs[i].len() <= u32::MAX,
    ensures
        spec_decode(frames(rs), 0) == Ok::<Seq<Seq<u8>>, nat>(rs),
{
    lemma_decode_prefix(rs, Seq::empty(), 0);
    assert(frames(rs) + Seq::<u8>::empty() =~= frames(rs));
    assert(rs + Seq::<Seq<u8>>::empty() =~= rs);
}

} // verus!
