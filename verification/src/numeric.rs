//! Conversions between unsigned integers and their byte renderings: the
//! big-endian forms used by the bin codec and the decimal digit strings
//! used by the text codecs.

use vstd::prelude::*;

verus! {

/// The eight bytes of `x`, most significant first.
pub open spec fn u64_to_be(x: u64) -> Seq<u8> {
    seq![
        (x >> 56) as u8,
        (x >> 48) as u8,
        (x >> 40) as u8,
        (x >> 32) as u8,
        (x >> 24) as u8,
        (x >> 16) as u8,
        (x >> 8) as u8,
        x as u8,
    ]
}

/// The value of eight big-endian bytes.
pub open spec fn u64_from_be(s: Seq<u8>) -> u64
    recommends
        s.len() == 8,
{
    ((s[0] as u64) << 56) | ((s[1] as u64) << 48) | ((s[2] as u64) << 40) | ((s[3] as u64) << 32)
        | ((s[4] as u64) << 24) | ((s[5] as u64) << 16) | ((s[6] as u64) << 8) | (s[7] as u64)
}

/// The four bytes of `x`, most significant first.
pub open spec fn u32_to_be(x: u32) -> Seq<u8> {
    seq![(x >> 24) as u8, (x >> 16) as u8, (x >> 8) as u8, x as u8]
}

/// The value of four big-endian bytes.
pub open spec fn u32_from_be(s: Seq<u8>) -> u32
    recommends
        s.len() == 4,
{
    ((s[0] as u32) << 24) | ((s[1] as u32) << 16) | ((s[2] as u32) << 8) | (s[3] as u32)
}

/// Reading back the big-endian bytes of a `u64` yields the value again.
pub proof fn lemma_u64_be_round_trip(x: u64)
    ensures
        u64_from_be(u64_to_be(x)) == x,
{
    assert((((x >> 56) as u8 as u64) << 56 | ((x >> 48) as u8 as u64) << 48 | ((x >> 40) as u8
        as u64) << 40 | ((x >> 32) as u8 as u64) << 32 | ((x >> 24) as u8 as u64) << 24 | ((x >> 16)
        as u8 as u64) << 16 | ((x >> 8) as u8 as u64) << 8 | (x as u8 as u64)) == x)
        by (bit_vector);
}

/// Reading back the big-endian bytes of a `u32` yields the value again.
pub proof fn lemma_u32_be_round_trip(x: u32)
    ensures
        u32_from_be(u32_to_be(x)) == x,
{
    assert((((x >> 24) as u8 as u32) << 24 | ((x >> 16) as u8 as u32) << 16 | ((x >> 8) as u8
        as u32) << 8 | (x as u8 as u32)) == x) by (bit_vector);
}

/// Serializes `x` as eight big-endian bytes.
pub fn u64_to_be_bytes(x: u64) -> (r: Vec<u8>)
    ensures
        r@ == u64_to_be(x),
        r@.len() == 8,
{
    let mut v: Vec<u8> = Vec::new();
    v.push(#[verifier::truncate] ((x >> 56) as u8));
    v.push(#[verifier::truncate] ((x >> 48) as u8));
    v.push(#[verifier::truncate] ((x >> 40) as u8));
    v.push(#[verifier::truncate] ((x >> 32) as u8));
    v.push(#[verifier::truncate] ((x >> 24) as u8));
    v.push(#[verifier::truncate] ((x >> 16) as u8));
    v.push(#[verifier::truncate] ((x >> 8) as u8));
    v.push(#[verifier::truncate] (x as u8));
    proof {
        assert(v@ =~= u64_to_be(x));
    }
    v
}

/// Serializes `x` as four big-endian bytes.
pub fn u32_to_be_bytes(x: u32) -> (r: Vec<u8>)
    ensures
        r@ == u32_to_be(x),
        r@.len() == 4,
{
    let mut v: Vec<u8> = Vec::new();
    v.push(#[verifier::truncate] ((x >> 24) as u8));
    v.push(#[verifier::truncate] ((x >> 16) as u8));
    v.push(#[verifier::truncate] ((x >> 8) as u8));
    v.push(#[verifier::truncate] (x as u8));
    proof {
        assert(v@ =~= u32_to_be(x));
    }
    v
}

/// Reads a `u64` from eight big-endian bytes.
pub fn u64_be_value(s: &[u8]) -> (r: u64)
    requires
        s@.len() == 8,
    ensures
        r == u64_from_be(s@),
{
    ((s[0] as u64) << 56) | ((s[1] as u64) << 48) | ((s[2] as u64) << 40) | ((s[3] as u64) << 32)
        | ((s[4] as u64) << 24) | ((s[5] as u64) << 16) | ((s[6] as u64) << 8) | (s[7] as u64)
}

/// Reads a `u32` from four big-endian bytes.
pub fn u32_be_value(s: &[u8]) -> (r: u32)
    requires
        s@.len() == 4,
    ensures
        r == u32_from_be(s@),
{
    ((s[0] as u32) << 24) | ((s[1] as u32) << 16) | ((s[2] as u32) << 8) | (s[3] as u32)
}

/// An ASCII decimal digit.
pub open spec fn is_digit(b: u8) -> bool {
    0x30 <= b && b <= 0x39
}

/// Every byte of `s` is a decimal digit.
pub open spec fn all_digits(s: Seq<u8>) -> bool {
    forall|i: int| 0 <= i < s.len() ==> is_digit(s[i])
}

/// The number denoted by a string of decimal digits, most significant first.
pub open spec fn dec_value(s: Seq<u8>) -> nat
    decreases s.len(),
{
    if s.len() == 0 {
        0
    } else {
        dec_value(s.drop_last()) * 10 + ((s.last() - 0x30) as nat)
    }
}

/// The digit part of a decimal rendering: one optional leading plus
/// sign is dropped.
pub open spec fn dec_digits(s: Seq<u8>) -> Seq<u8> {
    if s.len() > 0 && s[0] == 0x2b {
        s.drop_first()
    } else {
        s
    }
}

/// `s` is a decimal rendering that fits in a `u64`: an optional leading
/// plus sign, then digits only, at least one, value at most `u64::MAX`.
pub open spec fn is_u64_decimal(s: Seq<u8>) -> bool {
    let d = dec_digits(s);
    d.len() > 0 && all_digits(d) && dec_value(d) <= u64::MAX
}

/// Extending a digit string by one digit multiplies its value by ten.
proof fn lemma_dec_value_step(s: Seq<u8>, i: int)
    requires
        0 <= i < s.len(),
        is_digit(s[i]),
    ensures
        dec_value(s.take(i + 1)) == dec_value(s.take(i)) * 10 + ((s[i] - 0x30) as nat),
{
    assert(s.take(i + 1).drop_last() =~= s.take(i));
    assert(s.take(i + 1).last() == s[i]);
    assert(s.take(i + 1).len() == i + 1);
}

/// The value of a prefix of a digit string never exceeds the whole value.
pub proof fn lemma_dec_value_prefix(s: Seq<u8>, i: int)
    requires
        0 <= i <= s.len(),
        all_digits(s),
    ensures
        dec_value(s.take(i)) <= dec_value(s),
    decreases s.len() - i,
{
    if i == s.len() {
        assert(s.take(i) =~= s);
    } else {
        lemma_dec_value_step(s, i);
        lemma_dec_value_prefix(s, i + 1);
    }
}

/// Parses a decimal `u64`: an optional leading plus sign, then digits
/// only, and the value must fit.
pub fn parse_u64_decimal(s: &[u8]) -> (r: Option<u64>)
    ensures
        match r {
            Some(v) => is_u64_decimal(s@) && v as nat == dec_value(dec_digits(s@)),
            None => !is_u64_decimal(s@),
        },
{
    if s.len() == 0 {
        return None;
    }
    let start: usize = if s[0] == 0x2b {
        1
    } else {
        0
    };
    if s.len() == start {
        return None;
    }
    let ghost digits = dec_digits(s@);
    proof {
        assert(digits =~= s@.skip(start as int));
    }
    let mut i: usize = start;
    let mut acc: u64 = 0;
    while i < s.len()
        invariant
            digits == dec_digits(s@),
            digits == s@.skip(start as int),
            start <= i <= s@.len(),
            start < s@.len(),
            start <= 1,
            forall|j: int| start <= j < i ==> is_digit(s@[j]),
            acc as nat == dec_value(digits.take(i - start)),
        decreases s@.len() - i,
    {
        proof {
            assert(forall|j: int| 0 <= j < digits.len() ==> digits[j] == s@[j + start]);
        }
        let b = s[i];
        if b < 0x30 || b > 0x39 {
            proof {
                assert(digits[i - start] == s@[i as int]);
                assert(!is_digit(digits[i - start]));
            }
            return None;
        }
        let d = (b - 0x30) as u64;
        proof {
            lemma_dec_value_step(digits, i - start);
        }
        if acc > (u64::MAX - d) / 10 {
            // The digits seen so far already overflow a u64; by prefix
            // monotonicity the whole string does too.
            proof {
                assert(acc * 10 + d > u64::MAX) by {
                    assert(acc >= (u64::MAX - d) / 10 + 1);
                    assert(((u64::MAX - d) / 10 + 1) * 10 == ((u64::MAX - d) / 10) * 10 + 10);
                    assert(acc * 10 >= ((u64::MAX - d) / 10 + 1) * 10) by (nonlinear_arith)
                        requires
                            acc >= (u64::MAX - d) / 10 + 1,
                    ;
                    assert(((u64::MAX - d) / 10) * 10 + 10 > u64::MAX - d) by (nonlinear_arith);
                };
                if all_digits(digits) {
                    lemma_dec_value_prefix(digits, i + 1 - start);
                }
            }
            return None;
        }
        proof {
            assert(acc * 10 + d <= u64::MAX) by {
                assert(acc * 10 <= ((u64::MAX - d) / 10) * 10) by (nonlinear_arith)
                    requires
                        acc <= (u64::MAX - d) / 10,
                ;
                assert(((u64::MAX - d) / 10) * 10 <= u64::MAX - d) by (nonlinear_arith);
            };
        }
        acc = acc * 10 + d;
        i += 1;
    }
    proof {
        assert(digits.take(i - start) =~= digits);
    }
    Some(acc)
}

/// The decimal rendering of `v`, most significant digit first, no sign and
/// no leading zeros (a lone zero for zero).
pub open spec fn u64_decimal(v: nat) -> Seq<u8>
    decreases v,
{
    if v < 10 {
        seq![(0x30 + v) as u8]
    } else {
        u64_decimal(v / 10).push((0x30 + v % 10) as u8)
    }
}

/// The decimal rendering is made of digits and denotes the value it was
/// made from.
pub proof fn lemma_u64_decimal_props(v: nat)
    ensures
        u64_decimal(v).len() > 0,
        all_digits(u64_decimal(v)),
        dec_value(u64_decimal(v)) == v,
    decreases v,
{
    if v < 10 {
        let s = u64_decimal(v);
        assert(s.len() == 1);
        assert(s.last() == (0x30 + v) as u8);
        assert(s.last() == 0x30 + v);
        assert(s.drop_last() =~= Seq::<u8>::empty());
        assert(dec_value(s.drop_last()) == 0);
        assert(dec_value(s) == v);
    } else {
        lemma_u64_decimal_props(v / 10);
        let s = u64_decimal(v / 10);
        let d = (0x30 + v % 10) as u8;
        assert(s.push(d).drop_last() =~= s);
        assert(s.push(d).last() == d);
        assert(dec_value(s.push(d)) == (v / 10) * 10 + v % 10);
        assert((v / 10) * 10 + v % 10 == v) by (nonlinear_arith);
        assert(forall|i: int|
            0 <= i < s.push(d).len() ==> is_digit(#[trigger] s.push(d)[i]));
    }
}

/// A decimal rendering holds digit bytes only, so no other byte occurs
/// in it.
pub proof fn lemma_decimal_byte_free(v: nat, b: u8)
    requires
        !is_digit(b),
    ensures
        crate::bytestr::byte_free(u64_decimal(v), b),
{
    lemma_u64_decimal_props(v);
    assert forall|j: int| 0 <= j < u64_decimal(v).len() implies u64_decimal(v)[j] != b by {
        assert(is_digit(u64_decimal(v)[j]));
    }
}

/// Renders `x` in decimal, most significant digit first.
pub fn u64_to_decimal(x: u64) -> (r: Vec<u8>)
    ensures
        r@ == u64_decimal(x as nat),
{
    let mut rev: Vec<u8> = Vec::new();
    let mut v: u64 = x;
    while v >= 10
        invariant
            u64_decimal(x as nat) == u64_decimal(v as nat) + rev@.reverse(),
        decreases v,
    {
        let d = ((v % 10) as u8) + 0x30;
        rev.push(d);
        proof {
            assert(u64_decimal(v as nat) == u64_decimal((v as nat) / 10).push(d));
            assert((v / 10) as nat == (v as nat) / 10);
            assert(u64_decimal((v as nat) / 10) + rev@.reverse() =~= u64_decimal(x as nat)) by {
                assert(rev@.reverse() =~= seq![d] + rev@.drop_last().reverse());
                assert(u64_decimal((v as nat) / 10).push(d) + rev@.drop_last().reverse()
                    =~= u64_decimal((v as nat) / 10) + (seq![d] + rev@.drop_last().reverse()));
            };
        }
        v = v / 10;
    }
    let d = (v as u8) + 0x30;
    rev.push(d);
    proof {
        assert(u64_decimal(v as nat) == seq![d]);
        assert(rev@.reverse() =~= seq![d] + rev@.drop_last().reverse());
        assert(u64_decimal(x as nat) =~= rev@.reverse());
    }
    let n = rev.len();
    let mut out: Vec<u8> = Vec::new();
    let mut i: usize = 0;
    while i < n
        invariant
            n == rev@.len(),
            0 <= i <= n,
            out@.len() == i,
            forall|j: int| 0 <= j < i ==> out@[j] == rev@[n - 1 - j],
        decreases n - i,
    {
        out.push(rev[n - 1 - i]);
        i += 1;
    }
    proof {
        assert(out@ =~= rev@.reverse());
    }
    out
}

} // verus!
