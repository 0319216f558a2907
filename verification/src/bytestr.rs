//! Small helpers over byte strings: equality, searching, and the
//! line/field splitting and joining shared by the text codecs.

use vstd::prelude::*;
use vstd::slice::slice_to_vec;
use vstd::string::StringSliceAdditionalSpecFns;
use vstd::utf8::{
    decode_first_codepoint, encode_utf8, encode_utf8_decode_utf8, length_of_first_codepoint,
    pop_first_scalar, valid_first_scalar, valid_leading_and_continuation_bytes_first_codepoint,
    valid_utf8,
};

verus! {

/// True when the two byte slices hold the same bytes.
pub fn bytes_eq(a: &[u8], b: &[u8]) -> (r: bool)
    ensures
        r == (a@ == b@),
{
    if a.len() != b.len() {
        return false;
    }
    let mut i: usize = 0;
    while i < a.len()
        invariant
            0 <= i <= a@.len(),
            a@.len() == b@.len(),
            forall|j: int| 0 <= j < i ==> a@[j] == b@[j],
        decreases a@.len() - i,
    {
        if a[i] != b[i] {
            return false;
        }
        i += 1;
    }
    proof {
        assert(a@ =~= b@);
    }
    true
}

/// True when the two strings hold the same characters.
pub fn str_eq(a: &str, b: &str) -> (r: bool)
    ensures
        r == (a@ == b@),
{
    let r = bytes_eq(a.as_bytes(), b.as_bytes());
    proof {
        if a.spec_bytes() == b.spec_bytes() {
            vstd::utf8::encode_utf8_decode_utf8(a@);
            vstd::utf8::encode_utf8_decode_utf8(b@);
        }
    }
    r
}

/// Two character sequences are equal exactly when their UTF-8 byte
/// renderings are.
pub proof fn lemma_encode_utf8_injective(a: Seq<char>, b: Seq<char>)
    ensures
        (encode_utf8(a) == encode_utf8(b)) == (a == b),
{
    if encode_utf8(a) == encode_utf8(b) {
        encode_utf8_decode_utf8(a);
        encode_utf8_decode_utf8(b);
    }
}

/// Checks whether the bytes are a valid UTF-8 encoding.
pub fn is_valid_utf8(s: &[u8]) -> (r: bool)
    ensures
        r == valid_utf8(s@),
{
    let mut pos: usize = 0;
    proof {
        assert(s@.skip(0) =~= s@);
    }
    while pos < s.len()
        invariant
            pos <= s@.len(),
            valid_utf8(s@) == valid_utf8(s@.skip(pos as int)),
        decreases s@.len() - pos,
    {
        let ghost t = s@.skip(pos as int);
        proof {
            assert(forall|k: int| 0 <= k < t.len() ==> t[k] == s@[pos + k]);
        }
        let b0 = s[pos];
        let width: usize = if b0 <= 0x7f {
            1
        } else if 0xc0 <= b0 && b0 <= 0xdf {
            2
        } else if 0xe0 <= b0 && b0 <= 0xef {
            3
        } else if 0xf0 <= b0 && b0 <= 0xf7 {
            4
        } else {
            proof {
                assert(!valid_leading_and_continuation_bytes_first_codepoint(t));
            }
            return false;
        };
        if s.len() - pos < width {
            proof {
                assert(!valid_leading_and_continuation_bytes_first_codepoint(t));
            }
            return false;
        }
        if width >= 2 {
            let b1 = s[pos + 1];
            if !(0x80 <= b1 && b1 <= 0xbf) {
                proof {
                    assert(!valid_leading_and_continuation_bytes_first_codepoint(t));
                }
                return false;
            }
        }
        if width >= 3 {
            let b2 = s[pos + 2];
            if !(0x80 <= b2 && b2 <= 0xbf) {
                proof {
                    assert(!valid_leading_and_continuation_bytes_first_codepoint(t));
                }
                return false;
            }
        }
        if width >= 4 {
            let b3 = s[pos + 3];
            if !(0x80 <= b3 && b3 <= 0xbf) {
                proof {
                    assert(!valid_leading_and_continuation_bytes_first_codepoint(t));
                }
                return false;
            }
        }
        let cp: u32 = if width == 1 {
            (b0 & 0x7f) as u32
        } else if width == 2 {
            (((b0 & 0x1f) as u32) << 6) | ((s[pos + 1] & 0x3f) as u32)
        } else if width == 3 {
            (((b0 & 0x0f) as u32) << 12) | (((s[pos + 1] & 0x3f) as u32) << 6) | ((s[pos + 2]
                & 0x3f) as u32)
        } else {
            (((b0 & 0x07) as u32) << 18) | (((s[pos + 1] & 0x3f) as u32) << 12) | (((s[pos + 2]
                & 0x3f) as u32) << 6) | ((s[pos + 3] & 0x3f) as u32)
        };
        proof {
            assert(valid_leading_and_continuation_bytes_first_codepoint(t));
            assert(length_of_first_codepoint(t) == width);
            assert(cp == decode_first_codepoint(t));
        }
        if width == 2 && cp < 0x80 {
            return false;
        }
        if width == 3 && cp < 0x800 {
            return false;
        }
        if width == 4 && !(0x10000 <= cp && cp <= 0x10ffff) {
            return false;
        }
        if 0xd800 <= cp && cp <= 0xdfff {
            return false;
        }
        proof {
            assert(valid_first_scalar(t));
            assert(pop_first_scalar(t) =~= s@.skip(pos + width as int));
        }
        pos = pos + width;
    }
    proof {
        assert(s@.skip(pos as int).len() == 0);
    }
    true
}

/// The offset of the first occurrence of `b` in `s`, or `s.len()` when
/// `b` does not occur.
pub open spec fn find_byte(s: Seq<u8>, b: u8) -> nat
    decreases s.len(),
{
    if s.len() == 0 {
        0
    } else if s[0] == b {
        0
    } else {
        1 + find_byte(s.drop_first(), b)
    }
}

/// `find_byte` points at the first occurrence of its byte, or past the end.
pub proof fn lemma_find_byte(s: Seq<u8>, b: u8)
    ensures
        find_byte(s, b) <= s.len(),
        find_byte(s, b) < s.len() ==> s[find_byte(s, b) as int] == b,
        forall|j: int| 0 <= j < find_byte(s, b) ==> s[j] != b,
    decreases s.len(),
{
    if s.len() == 0 || s[0] == b {
    } else {
        lemma_find_byte(s.drop_first(), b);
        assert(forall|j: int| 1 <= j < find_byte(s, b) ==> s[j] == s.drop_first()[j - 1]);
    }
}

/// Any offset with the first-occurrence property is `find_byte`.
pub proof fn lemma_find_byte_unique(s: Seq<u8>, b: u8, m: nat)
    requires
        m <= s.len(),
        m < s.len() ==> s[m as int] == b,
        forall|j: int| 0 <= j < m ==> s[j] != b,
    ensures
        find_byte(s, b) == m,
{
    lemma_find_byte(s, b);
    let f = find_byte(s, b);
    if f < m {
        assert(s[f as int] == b);
        assert(s[f as int] != b);
    } else if m < f {
        assert(s[m as int] != b);
        assert(s[m as int] == b);
    }
}

/// The fields of `s` split on the separator: n separators give n + 1
/// fields, so a trailing separator yields a trailing empty field and an
/// empty input yields one empty field.
pub open spec fn split_on(s: Seq<u8>, sep: u8) -> Seq<Seq<u8>>
    decreases s.len(),
{
    let i = find_byte(s, sep);
    if i < s.len() {
        seq![s.take(i as int)] + split_on(s.skip(i + 1 as int), sep)
    } else {
        seq![s]
    }
}

/// The lines of `s`: each newline terminates a line, and a final fragment
/// without a newline is a line of its own, so a trailing newline does not
/// add an empty line and an empty input has no lines.
pub open spec fn split_lines(s: Seq<u8>) -> Seq<Seq<u8>>
    decreases s.len(),
{
    if s.len() == 0 {
        seq![]
    } else {
        let i = find_byte(s, 0x0a);
        if i < s.len() {
            seq![s.take(i as int)] + split_lines(s.skip(i + 1 as int))
        } else {
            seq![s]
        }
    }
}

/// The parts joined with the separator between consecutive parts.
pub open spec fn join_with(parts: Seq<Seq<u8>>, sep: Seq<u8>) -> Seq<u8>
    decreases parts.len(),
{
    if parts.len() == 0 {
        Seq::empty()
    } else if parts.len() == 1 {
        parts[0]
    } else {
        parts[0] + sep + join_with(parts.drop_first(), sep)
    }
}

/// Joining one more part appends a separator and the part.
pub proof fn lemma_join_push(parts: Seq<Seq<u8>>, x: Seq<u8>, sep: Seq<u8>)
    ensures
        join_with(parts.push(x), sep) == if parts.len() == 0 {
            x
        } else {
            join_with(parts, sep) + sep + x
        },
    decreases parts.len(),
{
    if parts.len() == 0 {
        assert(parts.push(x) =~= seq![x]);
    } else if parts.len() == 1 {
        assert(parts.push(x)[0] == parts[0]);
        assert(parts.push(x).drop_first() =~= seq![x]);
        assert(join_with(seq![x], sep) == x);
        assert(join_with(parts.push(x), sep) == parts[0] + sep + join_with(
            parts.push(x).drop_first(),
            sep,
        ));
        assert(join_with(parts, sep) == parts[0]);
    } else {
        lemma_join_push(parts.drop_first(), x, sep);
        assert(parts.push(x).drop_first() =~= parts.drop_first().push(x));
        assert(parts.push(x)[0] == parts[0]);
        assert(parts[0] + sep + (join_with(parts.drop_first(), sep) + sep + x) =~= (parts[0] + sep
            + join_with(parts.drop_first(), sep)) + sep + x);
    }
}

/// The byte `b` does not occur in `s`.
pub open spec fn byte_free(s: Seq<u8>, b: u8) -> bool {
    forall|j: int| 0 <= j < s.len() ==> s[j] != b
}

/// Joining parts free of a byte with a separator free of it stays free
/// of it.
pub proof fn lemma_join_byte_free(parts: Seq<Seq<u8>>, sep: Seq<u8>, b: u8)
    requires
        forall|i: int| 0 <= i < parts.len() ==> byte_free(#[trigger] parts[i], b),
        byte_free(sep, b),
    ensures
        byte_free(join_with(parts, sep), b),
    decreases parts.len(),
{
    if parts.len() == 0 {
    } else if parts.len() == 1 {
    } else {
        assert(forall|i: int|
            0 <= i < parts.drop_first().len() ==> byte_free(
                #[trigger] parts.drop_first()[i],
                b,
            ));
        lemma_join_byte_free(parts.drop_first(), sep, b);
    }
}

/// Splitting a joined sequence on the separator byte recovers the parts,
/// as long as no part holds the separator.
pub proof fn lemma_split_join(parts: Seq<Seq<u8>>, sep: u8)
    requires
        parts.len() > 0,
        forall|i: int| 0 <= i < parts.len() ==> byte_free(#[trigger] parts[i], sep),
    ensures
        split_on(join_with(parts, seq![sep]), sep) == parts,
    decreases parts.len(),
{
    let j = join_with(parts, seq![sep]);
    if parts.len() == 1 {
        assert(j == parts[0]);
        lemma_find_byte_unique(j, sep, j.len() as nat);
        assert(split_on(j, sep) == seq![j]);
        assert(seq![j] =~= parts);
    } else {
        let p0 = parts[0];
        let rest = join_with(parts.drop_first(), seq![sep]);
        assert(j == p0 + seq![sep] + rest);
        assert(j.len() == p0.len() + 1 + rest.len());
        assert(j[p0.len() as int] == sep);
        assert(forall|k: int| 0 <= k < p0.len() ==> j[k] == p0[k] && j[k] != sep);
        lemma_find_byte_unique(j, sep, p0.len() as nat);
        assert(j.take(p0.len() as int) =~= p0);
        assert(j.skip(p0.len() + 1 as int) =~= rest);
        assert(forall|i: int|
            0 <= i < parts.drop_first().len() ==> byte_free(
                #[trigger] parts.drop_first()[i],
                sep,
            ));
        lemma_split_join(parts.drop_first(), sep);
        assert(split_on(j, sep) == seq![p0] + parts.drop_first());
        assert(seq![p0] + parts.drop_first() =~= parts);
    }
}

/// A newline-free line followed by a newline and more bytes splits into
/// that line and the lines of the rest.
pub proof fn lemma_split_lines_cons(l: Seq<u8>, rest: Seq<u8>)
    requires
        byte_free(l, 0x0a),
    ensures
        split_lines(l + seq![0x0au8] + rest) == seq![l] + split_lines(rest),
{
    let s = l + seq![0x0au8] + rest;
    assert(s.len() == l.len() + 1 + rest.len());
    assert(s[l.len() as int] == 0x0a);
    assert(forall|k: int| 0 <= k < l.len() ==> s[k] == l[k] && s[k] != 0x0a);
    lemma_find_byte_unique(s, 0x0a, l.len() as nat);
    assert(s.take(l.len() as int) =~= l);
    assert(s.skip(l.len() + 1 as int) =~= rest);
    assert(split_lines(s) == seq![l] + split_lines(rest));
}

/// The index of the first occurrence of `b` in `data` at or after `from`,
/// or the length when there is none.
pub fn find_from(data: &[u8], from: usize, b: u8) -> (r: usize)
    requires
        from <= data@.len(),
    ensures
        from <= r <= data@.len(),
        r < data@.len() ==> data@[r as int] == b,
        forall|j: int| from <= j < r ==> data@[j] != b,
        r - from == find_byte(data@.skip(from as int), b),
{
    let mut i: usize = from;
    while i < data.len()
        invariant
            from <= i <= data@.len(),
            forall|j: int| from <= j < i ==> data@[j] != b,
        decreases data@.len() - i,
    {
        if data[i] == b {
            proof {
                let s = data@.skip(from as int);
                assert(forall|j: int|
                    0 <= j < s.len() ==> s[j] == data@[j + from]);
                lemma_find_byte_unique(s, b, (i - from) as nat);
            }
            return i;
        }
        i += 1;
    }
    proof {
        let s = data@.skip(from as int);
        assert(forall|j: int| 0 <= j < s.len() ==> s[j] == data@[j + from]);
        lemma_find_byte_unique(s, b, (data@.len() - from) as nat);
    }
    data.len()
}

/// Splits `data` into its fields on the separator.
pub fn split_on_vec(data: &[u8], sep: u8) -> (r: Vec<Vec<u8>>)
    ensures
        r.deep_view() == split_on(data@, sep),
    decreases data@.len(),
{
    let mut out: Vec<Vec<u8>> = Vec::new();
    let mut pos: usize = 0;
    proof {
        assert(data@.skip(0) =~= data@);
        assert(out.deep_view() =~= Seq::<Seq<u8>>::empty());
        assert(Seq::<Seq<u8>>::empty() + split_on(data@, sep) =~= split_on(data@, sep));
    }
    loop
        invariant
            pos <= data@.len(),
            split_on(data@, sep) == out.deep_view() + split_on(data@.skip(pos as int), sep),
        decreases data@.len() - pos,
    {
        let nl = find_from(data, pos, sep);
        let seg = slice_to_vec(&data[pos..nl]);
        proof {
            let s = data@.skip(pos as int);
            assert(s.take((nl - pos) as int) =~= data@.subrange(pos as int, nl as int));
            assert(seg.deep_view() =~= data@.subrange(pos as int, nl as int));
        }
        let ghost old_dv = out.deep_view();
        out.push(seg);
        proof {
            assert(out.deep_view() =~= old_dv.push(data@.subrange(pos as int, nl as int)));
        }
        if nl == data.len() {
            proof {
                let s = data@.skip(pos as int);
                assert(split_on(s, sep) == seq![s]);
                assert(s =~= data@.subrange(pos as int, nl as int));
                assert(old_dv + seq![s] =~= out.deep_view());
            }
            return out;
        }
        proof {
            let s = data@.skip(pos as int);
            assert(split_on(s, sep) == seq![s.take((nl - pos) as int)] + split_on(
                s.skip((nl - pos) + 1),
                sep,
            ));
            assert(s.skip((nl - pos) + 1) =~= data@.skip(nl + 1 as int));
            assert(out.deep_view() + split_on(data@.skip(nl + 1 as int), sep) =~= (old_dv + seq![
                s.take((nl - pos) as int),
            ]) + split_on(s.skip((nl - pos) + 1), sep));
            assert((old_dv + seq![s.take((nl - pos) as int)]) + split_on(
                s.skip((nl - pos) + 1),
                sep,
            ) =~= old_dv + (seq![s.take((nl - pos) as int)] + split_on(s.skip((nl - pos) + 1), sep)));
        }
        pos = nl + 1;
    }
}

/// Splits `data` into its lines.
pub fn split_lines_vec(data: &[u8]) -> (r: Vec<Vec<u8>>)
    ensures
        r.deep_view() == split_lines(data@),
{
    let mut out: Vec<Vec<u8>> = Vec::new();
    let mut pos: usize = 0;
    proof {
        assert(data@.skip(0) =~= data@);
        assert(out.deep_view() =~= Seq::<Seq<u8>>::empty());
        assert(Seq::<Seq<u8>>::empty() + split_lines(data@) =~= split_lines(data@));
    }
    while pos < data.len()
        invariant
            pos <= data@.len(),
            split_lines(data@) == out.deep_view() + split_lines(data@.skip(pos as int)),
        decreases data@.len() - pos,
    {
        let nl = find_from(data, pos, 0x0a);
        let seg = slice_to_vec(&data[pos..nl]);
        proof {
            let s = data@.skip(pos as int);
            assert(s.take((nl - pos) as int) =~= data@.subrange(pos as int, nl as int));
            assert(seg.deep_view() =~= data@.subrange(pos as int, nl as int));
        }
        let ghost old_dv = out.deep_view();
        out.push(seg);
        proof {
            assert(out.deep_view() =~= old_dv.push(data@.subrange(pos as int, nl as int)));
        }
        if nl == data.len() {
            proof {
                let s = data@.skip(pos as int);
                assert(split_lines(s) == seq![s]);
                assert(s =~= data@.subrange(pos as int, nl as int));
                assert(old_dv + seq![s] =~= out.deep_view());
                assert(data@.skip(nl as int).len() == 0);
                assert(out.deep_view() + split_lines(data@.skip(nl as int)) =~= out.deep_view());
            }
            pos = nl;
        } else {
            proof {
                let s = data@.skip(pos as int);
                assert(split_lines(s) == seq![s.take((nl - pos) as int)] + split_lines(
                    s.skip((nl - pos) + 1),
                ));
                assert(s.skip((nl - pos) + 1) =~= data@.skip(nl + 1 as int));
                assert(out.deep_view() + split_lines(data@.skip(nl + 1 as int)) =~= (old_dv + seq![
                    s.take((nl - pos) as int),
                ]) + split_lines(s.skip((nl - pos) + 1)));
                assert((old_dv + seq![s.take((nl - pos) as int)]) + split_lines(
                    s.skip((nl - pos) + 1),
                ) =~= old_dv + (seq![s.take((nl - pos) as int)] + split_lines(
                    s.skip((nl - pos) + 1),
                )));
            }
            pos = nl + 1;
        }
    }
    proof {
        assert(split_lines(data@.skip(pos as int)) =~= Seq::<Seq<u8>>::empty());
        assert(out.deep_view() + split_lines(data@.skip(pos as int)) =~= out.deep_view());
    }
    out
}

/// Joins the parts with the separator between consecutive parts.
pub fn join_vec(parts: &Vec<Vec<u8>>, sep: &[u8]) -> (r: Vec<u8>)
    ensures
        r@ == join_with(parts.deep_view(), sep@),
{
    let mut out: Vec<u8> = Vec::new();
    let mut i: usize = 0;
    while i < parts.len()
        invariant
            0 <= i <= parts@.len(),
            out@ == join_with(parts.deep_view().take(i as int), sep@),
        decreases parts@.len() - i,
    {
        if i > 0 {
            out.extend_from_slice(sep);
            proof {
                assert(out@ =~= join_with(parts.deep_view().take(i as int), sep@) + sep@);
            }
        }
        out.extend_from_slice(parts[i].as_slice());
        proof {
            let dv = parts.deep_view();
            assert(dv.take(i as int).push(dv[i as int]) =~= dv.take(i + 1));
            lemma_join_push(dv.take(i as int), dv[i as int], sep@);
            assert(dv[i as int] == parts@[i as int]@);
            if i > 0 {
                assert(out@ =~= join_with(dv.take(i as int), sep@) + sep@ + dv[i as int]);
            } else {
                assert(out@ =~= dv[i as int]);
            }
        }
        i += 1;
    }
    proof {
        assert(parts.deep_view().take(parts@.len() as int) =~= parts.deep_view());
    }
    out
}

} // verus!
