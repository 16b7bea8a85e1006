//! Lowercase hex encoding for hashes and signatures, and the hex file-name
//! stems of persisted audit segments.

use vstd::prelude::*;
use crate::text::push_char;
use vstd::string::StringSliceAdditionalSpecFns;
use vstd::utf8::{encode_utf8, is_ascii_chars, is_ascii_chars_encode_utf8};

verus! {

/// The lowercase hex digit for a nibble `v < 16`.
pub open spec fn hex_char(v: nat) -> char {
    if v < 10 { (('0' as nat) + v) as char } else { (('a' as nat) + v - 10) as char }
}

/// Two lowercase hex characters per byte, high nibble first.
pub open spec fn spec_hex_encode(bytes: Seq<u8>) -> Seq<char>
    decreases bytes.len(),
{
    if bytes.len() == 0 {
        Seq::empty()
    } else {
        seq![hex_char((bytes[0] / 16) as nat), hex_char((bytes[0] % 16) as nat)]
            + spec_hex_encode(bytes.drop_first())
    }
}

/// The value of one ASCII hex digit byte (either case), if it is one.
pub open spec fn spec_from_hex(b: u8) -> Option<u8> {
    if 48 <= b <= 57 {
        Some((b - 48) as u8)
    } else if 97 <= b <= 102 {
        Some((b - 97 + 10) as u8)
    } else if 65 <= b <= 70 {
        Some((b - 65 + 10) as u8)
    } else {
        None
    }
}

/// Decoding errors.
#[derive(Debug, Clone, Copy, PartialEq, Eq, Structural)]
pub enum HexError {
    OddLength,
    InvalidDigit,
}

impl HexError {
    /// The error's text.
    pub fn message(&self) -> (m: &'static str)
        ensures
            m@ == match self {
                HexError::OddLength => "odd-length hex string"@,
                HexError::InvalidDigit => "invalid hex digit"@,
            },
    {
        match self {
            HexError::OddLength => "odd-length hex string",
            HexError::InvalidDigit => "invalid hex digit",
        }
    }
}

/// Decoding of a byte string holding hex digit pairs; `None` marks the first
/// non-digit (the length is checked separately).
pub open spec fn spec_hex_pairs(s: Seq<u8>) -> Option<Seq<u8>>
    decreases s.len(),
{
    if s.len() < 2 {
        Some(Seq::empty())
    } else {
        match (spec_from_hex(s[0]), spec_from_hex(s[1]), spec_hex_pairs(s.subrange(2, s.len() as int))) {
            (Some(hi), Some(lo), Some(rest)) => Some(seq![(hi * 16 + lo) as u8] + rest),
            _ => None,
        }
    }
}

/// What `hex_decode` returns for the UTF-8 bytes `s`.
pub open spec fn spec_hex_decode(s: Seq<u8>) -> Result<Seq<u8>, HexError> {
    if s.len() % 2 != 0 {
        Err(HexError::OddLength)
    } else {
        match spec_hex_pairs(s) {
            Some(v) => Ok(v),
            None => Err(HexError::InvalidDigit),
        }
    }
}

fn hex_digit(v: u8) -> (c: char)
    requires
        v < 16,
    ensures
        c == hex_char(v as nat),
{
    if v < 10 { (48 + v) as char } else { (97 + v - 10) as char }
}

/// Lowercase hex encoding of `bytes`.
pub fn hex_encode(bytes: &[u8]) -> (r: String)
    ensures
        r@ == spec_hex_encode(bytes@),
{
    let mut out = String::new();
    let n = bytes.len();
    let mut i: usize = 0;
    assert(bytes@.subrange(0, n as int) =~= bytes@);
    assert(out@ + spec_hex_encode(bytes@) =~= spec_hex_encode(bytes@));
    while i < n
        invariant
            n == bytes@.len(),
            i <= n,
            spec_hex_encode(bytes@) =~= out@ + spec_hex_encode(bytes@.subrange(i as int, n as int)),
        decreases n - i,
    {
        let b = bytes[i];
        push_char(&mut out, hex_digit(b / 16));
        push_char(&mut out, hex_digit(b % 16));
        assert(bytes@.subrange(i as int, n as int).drop_first() =~= bytes@.subrange(i + 1, n as int));
        i = i + 1;
    }
    assert(bytes@.subrange(n as int, n as int) =~= Seq::<u8>::empty());
    out
}

/// The value of a hex digit byte, accepting either case.
pub fn from_hex(b: u8) -> (r: Result<u8, HexError>)
    ensures
        match spec_from_hex(b) {
            Some(v) => r == Ok::<u8, HexError>(v),
            None => r == Err::<u8, HexError>(HexError::InvalidDigit),
        },
{
    if 48 <= b && b <= 57 {
        Ok(b - 48)
    } else if 97 <= b && b <= 102 {
        Ok(b - 97 + 10)
    } else if 65 <= b && b <= 70 {
        Ok(b - 65 + 10)
    } else {
        Err(HexError::InvalidDigit)
    }
}

proof fn lemma_pairs_split(s: Seq<u8>, i: int)
    requires
        0 <= i <= s.len(),
        i % 2 == 0,
    ensures
        spec_hex_pairs(s) == match (spec_hex_pairs(s.subrange(0, i)), spec_hex_pairs(s.subrange(i, s.len() as int))) {
            (Some(a), Some(b)) => Some(a + b),
            _ => None::<Seq<u8>>,
        },
    decreases i,
{
    if i == 0 {
        assert(s.subrange(0, 0).len() == 0);
        assert(s.subrange(0, s.len() as int) =~= s);
        match spec_hex_pairs(s) {
            Some(v) => { assert(Seq::<u8>::empty() + v =~= v); },
            None => {},
        }
    } else {
        let t = s.subrange(2, s.len() as int);
        lemma_pairs_split(t, i - 2);
        assert(t.subrange(0, i - 2) =~= s.subrange(0, i).subrange(2, i));
        assert(t.subrange(i - 2, t.len() as int) =~= s.subrange(i, s.len() as int));
        let p = s.subrange(0, i);
        assert(p[0] == s[0] && p[1] == s[1]);
        match (spec_from_hex(s[0]), spec_from_hex(s[1]), spec_hex_pairs(t.subrange(0, i - 2)), spec_hex_pairs(s.subrange(i, s.len() as int))) {
            (Some(hi), Some(lo), Some(a), Some(b)) => {
                assert(seq![(hi * 16 + lo) as u8] + (a + b) =~= (seq![(hi * 16 + lo) as u8] + a) + b);
            },
            _ => {},
        }
    }
}

/// Decodes pairs of hex digits (either case) into bytes.
pub fn hex_decode(s: &str) -> (r: Result<Vec<u8>, HexError>)
    ensures
        match spec_hex_decode(s.spec_bytes()) {
            Ok(v) => r matches Ok(w) && w@ == v,
            Err(e) => r == Err::<Vec<u8>, HexError>(e),
        },
{
    let bytes = s.as_bytes();
    let n = bytes.len();
    if n % 2 != 0 {
        return Err(HexError::OddLength);
    }
    let mut out: Vec<u8> = Vec::new();
    let mut i: usize = 0;
    while i < n
        invariant
            n == bytes@.len(),
            bytes@ == s.spec_bytes(),
            n % 2 == 0,
            i % 2 == 0,
            i <= n,
            spec_hex_pairs(bytes@.subrange(0, i as int)) == Some(out@),
        decreases n - i,
    {
        let hi = match from_hex(bytes[i]) {
            Ok(v) => v,
            Err(e) => {
                proof {
                    lemma_pairs_split(bytes@, i as int);
                    assert(spec_hex_pairs(bytes@.subrange(i as int, n as int)) is None);
                }
                return Err(e);
            },
        };
        let lo = match from_hex(bytes[i + 1]) {
            Ok(v) => v,
            Err(e) => {
                proof {
                    lemma_pairs_split(bytes@, i as int);
                    assert(spec_hex_pairs(bytes@.subrange(i as int, n as int)) is None);
                }
                return Err(e);
            },
        };
        let ghost before = out@;
        out.push(hi * 16 + lo);
        proof {
            let p = bytes@.subrange(0, i + 2);
            lemma_pairs_split(p, i as int);
            assert(p.subrange(0, i as int) =~= bytes@.subrange(0, i as int));
            let q = p.subrange(i as int, i + 2);
            assert(q.subrange(2, 2).len() == 0);
            assert(spec_hex_pairs(q.subrange(2, q.len() as int)) == Some(Seq::<u8>::empty()));
            assert(seq![(hi * 16 + lo) as u8] + Seq::<u8>::empty() =~= seq![(hi * 16 + lo) as u8]);
            assert(before + seq![(hi * 16 + lo) as u8] =~= out@);
        }
        i = i + 2;
    }
    assert(bytes@.subrange(0, n as int) =~= bytes@);
    Ok(out)
}

/// The encoding of `bytes` as the bytes of its characters (all ASCII).
proof fn lemma_encode_ascii(bytes: Seq<u8>)
    ensures
        is_ascii_chars(spec_hex_encode(bytes)),
        spec_hex_encode(bytes).len() == 2 * bytes.len(),
        forall|i: int| 0 <= i < bytes.len() ==> spec_hex_encode(bytes)[2 * i] == hex_char((bytes[i] / 16) as nat)
            && spec_hex_encode(bytes)[2 * i + 1] == hex_char((bytes[i] % 16) as nat),
    decreases bytes.len(),
{
    if bytes.len() > 0 {
        let t = bytes.drop_first();
        lemma_encode_ascii(t);
        let e = spec_hex_encode(bytes);
        let h = seq![hex_char((bytes[0] / 16) as nat), hex_char((bytes[0] % 16) as nat)];
        assert(e == h + spec_hex_encode(t));
        assert forall|i: int| 0 <= i < bytes.len() implies e[2 * i] == hex_char((bytes[i] / 16) as nat)
            && e[2 * i + 1] == hex_char((bytes[i] % 16) as nat) by {
            if i > 0 {
                assert(t[i - 1] == bytes[i]);
                assert(e[2 * i] == spec_hex_encode(t)[2 * (i - 1)]);
                assert(e[2 * i + 1] == spec_hex_encode(t)[2 * (i - 1) + 1]);
            }
        }
        assert forall|i: int| 0 <= i < e.len() implies '\0' <= #[trigger] e[i] <= '\u{7f}' by {
            if i >= 2 {
                assert(e[i] == spec_hex_encode(t)[i - 2]);
            }
        }
    }
}

proof fn lemma_pairs_of_encoding(bytes: Seq<u8>, enc: Seq<u8>)
    requires
        enc.len() == 2 * bytes.len(),
        forall|i: int| 0 <= i < bytes.len() ==> enc[2 * i] == hex_char((bytes[i] / 16) as nat) as u8
            && enc[2 * i + 1] == hex_char((bytes[i] % 16) as nat) as u8,
    ensures
        spec_hex_pairs(enc) == Some(bytes),
    decreases bytes.len(),
{
    if bytes.len() > 0 {
        let t = bytes.drop_first();
        let rest = enc.subrange(2, enc.len() as int);
        assert forall|i: int| 0 <= i < t.len() implies rest[2 * i] == hex_char((t[i] / 16) as nat) as u8
            && rest[2 * i + 1] == hex_char((t[i] % 16) as nat) as u8 by {
            assert(t[i] == bytes[i + 1]);
            assert(rest[2 * i] == enc[2 * (i + 1)]);
            assert(rest[2 * i + 1] == enc[2 * (i + 1) + 1]);
        }
        lemma_pairs_of_encoding(t, rest);
        let b = bytes[0];
        let hi = b / 16;
        let lo = b % 16;
        assert(enc[0] == hex_char(hi as nat) as u8);
        assert(enc[1] == hex_char(lo as nat) as u8);
        assert(spec_from_hex(enc[0]) == Some(hi));
        assert(spec_from_hex(enc[1]) == Some(lo));
        assert((hi * 16 + lo) as u8 == b);
        assert(seq![b] + t =~= bytes);
    } else {
        assert(bytes =~= Seq::<u8>::empty());
    }
}

proof fn lemma_hex_pairs_digits(s: Seq<u8>)
    requires
        s.len() % 2 == 0,
    ensures
        spec_hex_pairs(s) is Some <==> forall|i: int| 0 <= i < s.len() ==> #[trigger] spec_from_hex(s[i]) is Some,
    decreases s.len(),
{
    if s.len() >= 2 {
        let rest = s.subrange(2, s.len() as int);
        lemma_hex_pairs_digits(rest);
        assert forall|i: int| 2 <= i < s.len() implies s[i] == rest[i - 2] by {}
        if forall|i: int| 0 <= i < s.len() ==> #[trigger] spec_from_hex(s[i]) is Some {
            assert forall|j: int| 0 <= j < rest.len() implies #[trigger] spec_from_hex(rest[j]) is Some by {
                assert(rest[j] == s[j + 2]);
            }
        }
        if spec_hex_pairs(s) is Some {
            assert forall|i: int| 0 <= i < s.len() implies #[trigger] spec_from_hex(s[i]) is Some by {
                if i >= 2 {
                    assert(spec_from_hex(rest[i - 2]) is Some);
                }
            }
        }
    }
}

/// The encoding of `n` bytes is `2 n` lowercase hex digits. Decoding an
/// even-length string succeeds exactly when every byte is a hex digit of
/// either case, and fails with `InvalidDigit` otherwise.
pub proof fn lemma_hex_shape(bytes: Seq<u8>, s: Seq<u8>)
    ensures
        spec_hex_encode(bytes).len() == 2 * bytes.len(),
        forall|i: int| 0 <= i < spec_hex_encode(bytes).len()
            ==> ('0' <= #[trigger] spec_hex_encode(bytes)[i] <= '9' || 'a' <= spec_hex_encode(bytes)[i] <= 'f'),
        s.len() % 2 == 0 ==> (spec_hex_decode(s) is Ok
            <==> forall|i: int| 0 <= i < s.len() ==> #[trigger] spec_from_hex(s[i]) is Some),
        s.len() % 2 == 0 && (exists|i: int| 0 <= i < s.len() && #[trigger] spec_from_hex(s[i]) is None)
            ==> spec_hex_decode(s) == Err::<Seq<u8>, HexError>(HexError::InvalidDigit),
{
    lemma_encode_ascii(bytes);
    let e = spec_hex_encode(bytes);
    assert forall|i: int| 0 <= i < e.len() implies ('0' <= #[trigger] e[i] <= '9' || 'a' <= e[i] <= 'f') by {
        let k = i / 2;
        if i % 2 == 0 {
            assert(i == 2 * k);
            assert(e[2 * k] == hex_char((bytes[k] / 16) as nat));
        } else {
            assert(i == 2 * k + 1);
            assert(e[2 * k + 1] == hex_char((bytes[k] % 16) as nat));
        }
    }
    if s.len() % 2 == 0 {
        lemma_hex_pairs_digits(s);
    }
}

/// Decoding the UTF-8 bytes of an encoding gives back the encoded bytes.
pub proof fn lemma_hex_round_trip(bytes: Seq<u8>)
    ensures
        spec_hex_decode(encode_utf8(spec_hex_encode(bytes))) == Ok::<Seq<u8>, HexError>(bytes),
{
    let e = spec_hex_encode(bytes);
    lemma_encode_ascii(bytes);
    is_ascii_chars_encode_utf8(e);
    let enc = encode_utf8(e);
    assert forall|i: int| 0 <= i < bytes.len() implies enc[2 * i] == hex_char((bytes[i] / 16) as nat) as u8
        && enc[2 * i + 1] == hex_char((bytes[i] % 16) as nat) as u8 by {
        assert(e[2 * i] as u8 == enc[2 * i]);
        assert(e[2 * i + 1] as u8 == enc[2 * i + 1]);
    }
    lemma_pairs_of_encoding(bytes, enc);
    assert(enc.len() % 2 == 0);
}

} // verus!
