//! Small text-building helpers shared by the modules that render identifiers,
//! file names and human-readable explanations.

use vstd::prelude::*;
use vstd::utf8::{encode_utf8, is_ascii_chars, is_ascii_chars_encode_utf8};

verus! {

/// Appends one character to a string (std's `String::push`): the string
/// afterwards is the old one followed by `c`.
#[verifier::external_body]
pub(crate) fn push_char(s: &mut String, c: char)
    ensures
        final(s)@ == old(s)@.push(c),
{
    s.push(c);
}

/// Whether two string slices hold the same characters.
pub(crate) fn str_eq(a: &str, b: &str) -> (r: bool)
    ensures
        r == (a@ == b@),
{
    let x = a.to_owned();
    let y = b.to_owned();
    x == y
}

/// The decimal digit character for `d < 10`.
pub open spec fn digit_char(d: nat) -> char {
    if d == 0 { '0' }
    else if d == 1 { '1' }
    else if d == 2 { '2' }
    else if d == 3 { '3' }
    else if d == 4 { '4' }
    else if d == 5 { '5' }
    else if d == 6 { '6' }
    else if d == 7 { '7' }
    else if d == 8 { '8' }
    else { '9' }
}

/// The shortest decimal rendering of `n`, as `Display` prints an unsigned integer.
pub open spec fn decimal(n: nat) -> Seq<char>
    decreases n,
{
    if n < 10 {
        seq![digit_char(n)]
    } else {
        decimal(n / 10).push(digit_char(n % 10))
    }
}

fn digit(d: u64) -> (c: char)
    requires
        d < 10,
    ensures
        c == digit_char(d as nat),
{
    if d == 0 { '0' }
    else if d == 1 { '1' }
    else if d == 2 { '2' }
    else if d == 3 { '3' }
    else if d == 4 { '4' }
    else if d == 5 { '5' }
    else if d == 6 { '6' }
    else if d == 7 { '7' }
    else if d == 8 { '8' }
    else { '9' }
}

/// Appends the decimal rendering of `n`.
pub fn push_decimal(s: &mut String, n: u64)
    ensures
        final(s)@ == old(s)@ + decimal(n as nat),
    decreases n,
{
    if n >= 10 {
        push_decimal(s, n / 10);
    }
    push_char(s, digit(n % 10));
    proof {
        if n >= 10 {
            assert(old(s)@ + decimal(n as nat) =~= (old(s)@ + decimal((n / 10) as nat)).push(digit_char((n % 10) as nat)));
        } else {
            assert(old(s)@ + decimal(n as nat) =~= old(s)@.push(digit_char((n % 10) as nat)));
        }
    }
}

/// The decimal rendering of `n` as a fresh string.
pub fn decimal_string(n: u64) -> (r: String)
    ensures
        r@ == decimal(n as nat),
{
    let mut s = String::new();
    push_decimal(&mut s, n);
    assert(s@ =~= decimal(n as nat));
    s
}


/// The value of an ASCII hex digit byte (either case), if it is one.
pub open spec fn hex_digit_value(b: u8) -> Option<nat> {
    if 48 <= b <= 57 {
        Some((b - 48) as nat)
    } else if 97 <= b <= 102 {
        Some((b - 87) as nat)
    } else if 65 <= b <= 70 {
        Some((b - 55) as nat)
    } else {
        None
    }
}

/// The value of a run of hex digit bytes read most significant first, or
/// `None` if a byte is not a hex digit.
pub open spec fn hex_digits_value(ds: Seq<u8>) -> Option<nat>
    decreases ds.len(),
{
    if ds.len() == 0 {
        Some(0)
    } else {
        match (hex_digits_value(ds.drop_last()), hex_digit_value(ds.last())) {
            (Some(v), Some(d)) => Some(v * 16 + d),
            _ => None,
        }
    }
}

/// Base-16 parsing of an unsigned 64-bit integer as std's
/// `u64::from_str_radix(_, 16)` does it: an optional leading `+`, then at
/// least one hex digit of either case, and a value that fits in 64 bits.
pub open spec fn spec_parse_hex_u64(s: Seq<u8>) -> Option<u64> {
    let digits = if s.len() > 0 && s[0] == 43u8 { s.drop_first() } else { s };
    if digits.len() == 0 {
        None
    } else {
        match hex_digits_value(digits) {
            Some(v) => if v <= u64::MAX { Some(v as u64) } else { None },
            None => None,
        }
    }
}

proof fn lemma_hex_value_prefix_monotone(ds: Seq<u8>, i: int)
    requires
        0 <= i <= ds.len(),
        hex_digits_value(ds) is Some,
    ensures
        hex_digits_value(ds.subrange(0, i)) is Some,
        hex_digits_value(ds.subrange(0, i)).unwrap() <= hex_digits_value(ds).unwrap(),
    decreases ds.len() - i,
{
    if i < ds.len() {
        assert(ds.drop_last() =~= ds.subrange(0, ds.len() - 1));
        lemma_hex_value_prefix_monotone(ds.drop_last(), i);
        assert(ds.drop_last().subrange(0, i) =~= ds.subrange(0, i));
    } else {
        assert(ds.subrange(0, i) =~= ds);
    }
}

/// Parses hex digits as `u64::from_str_radix(_, 16)` does.
pub fn parse_hex_u64(s: &[u8]) -> (r: Option<u64>)
    ensures
        r == spec_parse_hex_u64(s@),
{
    let n = s.len();
    let start: usize = if n > 0 && s[0] == 43u8 { 1 } else { 0 };
    let ghost digits = if s@.len() > 0 && s@[0] == 43u8 { s@.drop_first() } else { s@ };
    assert(digits =~= s@.subrange(start as int, n as int));
    if start == n {
        return None;
    }
    let mut acc: u64 = 0;
    let mut i: usize = start;
    assert(digits.subrange(0, 0) =~= Seq::<u8>::empty());
    while i < n
        invariant
            start <= i <= n,
            n == s@.len(),
            digits =~= s@.subrange(start as int, n as int),
            digits == (if s@.len() > 0 && s@[0] == 43u8 { s@.drop_first() } else { s@ }),
            hex_digits_value(digits.subrange(0, i - start)) == Some(acc as nat),
        decreases n - i,
    {
        let b = s[i];
        let d: u64 = if 48 <= b && b <= 57 {
            (b - 48) as u64
        } else if 97 <= b && b <= 102 {
            (b - 87) as u64
        } else if 65 <= b && b <= 70 {
            (b - 55) as u64
        } else {
            proof {
                let k = i - start;
                let p = digits.subrange(0, k + 1);
                assert(p.drop_last() =~= digits.subrange(0, k));
                assert(p.last() == b);
                assert(hex_digit_value(b) is None);
                assert(hex_digits_value(p) is None);
                if hex_digits_value(digits) is Some {
                    lemma_hex_value_prefix_monotone(digits, k + 1);
                    assert(false);
                }
                assert(digits.len() > 0);
                assert(!(hex_digits_value(digits) matches Some(v) && v <= u64::MAX));
                assert(spec_parse_hex_u64(s@) is None);
            }
            return None;
        };
        proof {
            let k = i - start;
            let p = digits.subrange(0, k + 1);
            assert(p.drop_last() =~= digits.subrange(0, k));
            assert(p.last() == b);
            assert(hex_digits_value(p) == Some(acc as nat * 16 + d as nat));
        }
        if acc > (u64::MAX - d) / 16 {
            proof {
                let k = i - start;
                assert(acc as nat * 16 + d as nat > u64::MAX) by (nonlinear_arith)
                    requires acc > (u64::MAX - d) / 16, d < 16;
                let p = digits.subrange(0, k + 1);
                assert(hex_digits_value(p) == Some(acc as nat * 16 + d as nat));
                if hex_digits_value(digits) is Some {
                    lemma_hex_value_prefix_monotone(digits, k + 1);
                    assert(hex_digits_value(digits).unwrap() > u64::MAX);
                }
                assert(digits.len() > 0);
                assert(!(hex_digits_value(digits) matches Some(v) && v <= u64::MAX));
                assert(spec_parse_hex_u64(s@) is None);
            }
            return None;
        }
        proof {
            assert(acc as nat * 16 + d as nat <= u64::MAX) by (nonlinear_arith)
                requires acc <= (u64::MAX - d) / 16, d < 16;
        }
        acc = acc * 16 + d;
        i = i + 1;
    }
    assert(digits.subrange(0, n - start) =~= digits);
    Some(acc)
}

/// The lowest `n` hex digits of `x`, most significant first, lowercase.
pub open spec fn hex_fixed(x: nat, n: nat) -> Seq<char>
    decreases n,
{
    if n == 0 {
        Seq::empty()
    } else {
        hex_fixed(x / 16, (n - 1) as nat).push(hex_char_lower(x % 16))
    }
}

/// The lowercase hex digit for a nibble `v < 16`.
pub open spec fn hex_char_lower(v: nat) -> char {
    if v < 10 { (('0' as nat) + v) as char } else { (('a' as nat) + v - 10) as char }
}

fn hex_char_exec(v: u64) -> (c: char)
    requires
        v < 16,
    ensures
        c == hex_char_lower(v as nat),
{
    if v < 10 { ((48 + v) as u8) as char } else { ((97 + v - 10) as u8) as char }
}

/// Appends the lowest `n` hex digits of `x` (zero-padded, lowercase).
pub fn push_hex_fixed(s: &mut String, x: u64, n: u32)
    ensures
        final(s)@ == old(s)@ + hex_fixed(x as nat, n as nat),
    decreases n,
{
    if n > 0 {
        push_hex_fixed(s, x / 16, n - 1);
        push_char(s, hex_char_exec(x % 16));
        assert(old(s)@ + hex_fixed(x as nat, n as nat)
            =~= (old(s)@ + hex_fixed((x / 16) as nat, (n - 1) as nat)).push(hex_char_lower((x % 16) as nat)));
    } else {
        assert(old(s)@ + hex_fixed(x as nat, n as nat) =~= old(s)@);
    }
}

/// Sixteen to the power `n`.
pub open spec fn pow16(n: nat) -> nat
    decreases n,
{
    if n == 0 { 1 } else { 16 * pow16((n - 1) as nat) }
}

proof fn lemma_pow16_positive(n: nat)
    ensures
        pow16(n) > 0,
    decreases n,
{
    if n > 0 {
        lemma_pow16_positive((n - 1) as nat);
    }
}

/// The characters of `hex_fixed(x, n)` are `n` lowercase hex digits.
pub proof fn lemma_hex_fixed_digits(x: nat, n: nat)
    ensures
        hex_fixed(x, n).len() == n,
        is_ascii_chars(hex_fixed(x, n)),
        forall|i: int| 0 <= i < n
            ==> ('0' <= #[trigger] hex_fixed(x, n)[i] <= '9' || 'a' <= hex_fixed(x, n)[i] <= 'f'),
    decreases n,
{
    if n > 0 {
        lemma_hex_fixed_digits(x / 16, (n - 1) as nat);
        let h = hex_fixed(x, n);
        let p = hex_fixed(x / 16, (n - 1) as nat);
        assert forall|i: int| 0 <= i < n implies ('0' <= #[trigger] h[i] <= '9' || 'a' <= h[i] <= 'f') by {
            if i < n - 1 {
                assert(h[i] == p[i]);
            }
        }
        assert forall|i: int| 0 <= i < h.len() implies '\0' <= #[trigger] h[i] <= '\u{7f}' by {
            assert('0' <= h[i] <= '9' || 'a' <= h[i] <= 'f');
        }
    }
}

/// Read back most significant first, the bytes of `hex_fixed(x, n)` give `x`
/// modulo 16 to the `n`.
pub proof fn lemma_hex_fixed_value(x: nat, n: nat)
    ensures
        hex_digits_value(encode_utf8(hex_fixed(x, n))) == Some(x % pow16(n)),
    decreases n,
{
    let h = hex_fixed(x, n);
    lemma_hex_fixed_digits(x, n);
    is_ascii_chars_encode_utf8(h);
    let b = encode_utf8(h);
    if n == 0 {
        assert(b.len() == 0);
    } else {
        let p = hex_fixed(x / 16, (n - 1) as nat);
        lemma_hex_fixed_value(x / 16, (n - 1) as nat);
        lemma_hex_fixed_digits(x / 16, (n - 1) as nat);
        is_ascii_chars_encode_utf8(p);
        assert(b.drop_last() =~= encode_utf8(p)) by {
            assert forall|i: int| 0 <= i < b.len() - 1 implies b.drop_last()[i] == encode_utf8(p)[i] by {
                assert(h[i] == p[i]);
            }
        }
        let d = x % 16;
        assert(b.last() == hex_char_lower(d) as u8);
        assert(hex_digit_value(b.last()) == Some(d));
        lemma_pow16_positive((n - 1) as nat);
        vstd::arithmetic::div_mod::lemma_breakdown(x as int, 16, pow16((n - 1) as nat) as int);
        assert(x % pow16(n) == ((x / 16) % pow16((n - 1) as nat)) * 16 + d) by (nonlinear_arith)
            requires
                pow16(n) == 16 * pow16((n - 1) as nat),
                (x % (16 * pow16((n - 1) as nat))) == 16 * ((x / 16) % pow16((n - 1) as nat)) + x % 16,
                d == x % 16,
        ;
    }
}

/// The sixteen hex digits of a `u64` parse back to it.
pub proof fn lemma_hex16_round_trip(x: u64)
    ensures
        is_ascii_chars(hex_fixed(x as nat, 16)),
        spec_parse_hex_u64(encode_utf8(hex_fixed(x as nat, 16))) == Some(x),
{
    let h = hex_fixed(x as nat, 16);
    lemma_hex_fixed_digits(x as nat, 16);
    lemma_hex_fixed_value(x as nat, 16);
    is_ascii_chars_encode_utf8(h);
    let b = encode_utf8(h);
    assert(pow16(16) == 0x1_0000_0000_0000_0000) by {
        reveal_with_fuel(pow16, 17);
    }
    assert(b[0] == h[0] as u8);
    assert(b[0] != 43u8);
}

} // verus!
