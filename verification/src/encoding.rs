//! UTF-8 keeps the order of text: comparing two texts code point by code
//! point gives the same answer as comparing their encodings byte by byte.
use crate::bytes::{agree_before, lemma_lex_asymmetric, lex_less};
use vstd::prelude::*;
use vstd::utf8::{
    char_is_scalar, char_u32_cast, encode_scalar, encode_utf8, has_width_1_encoding,
    has_width_2_encoding, has_width_3_encoding, has_width_4_encoding, is_scalar,
    last_continuation_byte, leading_byte_width_1, leading_byte_width_2, leading_byte_width_3,
    leading_byte_width_4, second_last_continuation_byte, third_last_continuation_byte,
};

verus! {

/// `a` comes before `b` in the lexicographic order of code points: at the
/// first position where they differ, `a` has ended and `b` has not, or `a`
/// holds the smaller code point.
pub open spec fn text_less(a: Seq<char>, b: Seq<char>) -> bool {
    exists|k: int| #[trigger]
        agree_before(a, b, k) && k < b.len() && (k == a.len() || (a[k] as u32) < (b[k] as u32))
}

/// The first byte of an encoding tells its width: the first bytes of longer
/// encodings are larger.
proof fn lemma_leading_bytes(u: u32)
    by (bit_vector)
    ensures
        leading_byte_width_1(u) <= 0x7f,
        0xc0 <= leading_byte_width_2(u) <= 0xdf,
        0xe0 <= leading_byte_width_3(u) <= 0xef,
        0xf0 <= leading_byte_width_4(u) <= 0xf7,
{
}

/// Among one-byte encodings the smaller value has the smaller byte.
proof fn lemma_ordered_width_1(u: u32, v: u32)
    by (bit_vector)
    requires
        u < v,
        has_width_1_encoding(v),
    ensures
        leading_byte_width_1(u) < leading_byte_width_1(v),
{
}

/// The bytes of a two-byte encoding, read from the first, order the values
/// up to `0x7ff`.
proof fn lemma_ordered_width_2(u: u32, v: u32)
    by (bit_vector)
    requires
        u < v,
        has_width_2_encoding(v),
    ensures
        leading_byte_width_2(u) < leading_byte_width_2(v) || (leading_byte_width_2(u)
            == leading_byte_width_2(v) && last_continuation_byte(u) < last_continuation_byte(v)),
{
}

/// The bytes of a three-byte encoding, read from the first, order the values
/// up to `0xffff`.
proof fn lemma_ordered_width_3(u: u32, v: u32)
    by (bit_vector)
    requires
        u < v,
        v <= 0xffff,
    ensures
        leading_byte_width_3(u) < leading_byte_width_3(v) || (leading_byte_width_3(u)
            == leading_byte_width_3(v) && (second_last_continuation_byte(u)
            < second_last_continuation_byte(v) || (second_last_continuation_byte(u)
            == second_last_continuation_byte(v) && last_continuation_byte(u)
            < last_continuation_byte(v)))),
{
}

/// The bytes of a four-byte encoding, read from the first, order the values
/// up to `0x10ffff`.
proof fn lemma_ordered_width_4(u: u32, v: u32)
    by (bit_vector)
    requires
        u < v,
        v <= 0x10ffff,
    ensures
        leading_byte_width_4(u) < leading_byte_width_4(v) || (leading_byte_width_4(u)
            == leading_byte_width_4(v) && (third_last_continuation_byte(u)
            < third_last_continuation_byte(v) || (third_last_continuation_byte(u)
            == third_last_continuation_byte(v) && (second_last_continuation_byte(u)
            < second_last_continuation_byte(v) || (second_last_continuation_byte(u)
            == second_last_continuation_byte(v) && last_continuation_byte(u)
            < last_continuation_byte(v)))))),
{
}

/// The encodings of two scalar values differ at some position that both of
/// them have, and there the smaller value has the smaller byte.
pub proof fn lemma_scalars_in_order(u: u32, v: u32) -> (at: int)
    requires
        is_scalar(u),
        is_scalar(v),
        u < v,
    ensures
        agree_before(encode_scalar(u), encode_scalar(v), at),
        at < encode_scalar(u).len(),
        at < encode_scalar(v).len(),
        encode_scalar(u)[at] < encode_scalar(v)[at],
{
    lemma_leading_bytes(u);
    lemma_leading_bytes(v);
    let x = encode_scalar(u);
    let y = encode_scalar(v);
    if has_width_1_encoding(v) {
        lemma_ordered_width_1(u, v);
        0
    } else if has_width_2_encoding(v) {
        if has_width_2_encoding(u) {
            lemma_ordered_width_2(u, v);
            if x[0] < y[0] {
                0
            } else {
                1
            }
        } else {
            0
        }
    } else if has_width_3_encoding(v) {
        if has_width_3_encoding(u) {
            lemma_ordered_width_3(u, v);
            if x[0] < y[0] {
                0
            } else if x[1] < y[1] {
                1
            } else {
                2
            }
        } else {
            0
        }
    } else {
        if has_width_4_encoding(u) {
            lemma_ordered_width_4(u, v);
            if x[0] < y[0] {
                0
            } else if x[1] < y[1] {
                1
            } else if x[2] < y[2] {
                2
            } else {
                3
            }
        } else {
            0
        }
    }
}

/// A common prefix does not change which of two byte strings comes first.
pub proof fn lemma_lex_less_after_prefix(p: Seq<u8>, x: Seq<u8>, y: Seq<u8>)
    ensures
        lex_less(p + x, p + y) <==> lex_less(x, y),
{
    let n = p.len() as int;
    if lex_less(x, y) {
        let k = choose|k: int| #[trigger]
            agree_before(x, y, k) && k < y.len() && (k == x.len() || x[k] < y[k]);
        assert forall|i: int| 0 <= i < n + k implies (p + x)[i] == (p + y)[i] by {
            if i >= n {
                assert(x[i - n] == y[i - n]);
            }
        }
        assert(agree_before(p + x, p + y, n + k));
    }
    if lex_less(p + x, p + y) {
        let k = choose|k: int| #[trigger]
            agree_before(p + x, p + y, k) && k < (p + y).len() && (k == (p + x).len() || (p
                + x)[k] < (p + y)[k]);
        if k < n {
            assert((p + x)[k] == p[k]);
            assert((p + y)[k] == p[k]);
        }
        assert forall|i: int| 0 <= i < k - n implies x[i] == y[i] by {
            assert((p + x)[i + n] == (p + y)[i + n]);
        }
        assert(agree_before(x, y, k - n));
        if k != (p + x).len() {
            assert((p + x)[k] == x[k - n]);
            assert((p + y)[k] == y[k - n]);
        }
    }
}

/// Two texts that both have a first code point are ordered by it, or, where
/// it is the same, by what follows it.
proof fn lemma_text_less_step(a: Seq<char>, b: Seq<char>)
    requires
        a.len() > 0,
        b.len() > 0,
    ensures
        text_less(a, b) <==> (a[0] as u32) < (b[0] as u32) || (a[0] == b[0] && text_less(
            a.drop_first(),
            b.drop_first(),
        )),
{
    let x = a.drop_first();
    let y = b.drop_first();
    if text_less(a, b) {
        let k = choose|k: int| #[trigger]
            agree_before(a, b, k) && k < b.len() && (k == a.len() || (a[k] as u32) < (
            b[k] as u32));
        if k > 0 {
            assert(a[0] == b[0]);
            assert forall|i: int| 0 <= i < k - 1 implies x[i] == y[i] by {
                assert(a[i + 1] == b[i + 1]);
            }
            assert(agree_before(x, y, k - 1));
        }
    }
    if (a[0] as u32) < (b[0] as u32) {
        assert(agree_before(a, b, 0));
    } else if a[0] == b[0] && text_less(x, y) {
        let k = choose|k: int| #[trigger]
            agree_before(x, y, k) && k < y.len() && (k == x.len() || (x[k] as u32) < (
            y[k] as u32));
        assert forall|i: int| 0 <= i < k + 1 implies a[i] == b[i] by {
            if i > 0 {
                assert(x[i - 1] == y[i - 1]);
            }
        }
        assert(agree_before(a, b, k + 1));
    }
}

/// UTF-8 keeps the order of text: one text comes before another by its code
/// points exactly when its encoding comes before the other's by its bytes.
pub proof fn lemma_text_order_is_byte_order(a: Seq<char>, b: Seq<char>)
    ensures
        text_less(a, b) <==> lex_less(encode_utf8(a), encode_utf8(b)),
    decreases a.len(),
{
    let x = encode_utf8(a);
    let y = encode_utf8(b);
    if b.len() == 0 {
        assert(y.len() == 0);
    } else if a.len() == 0 {
        assert(x.len() == 0);
        assert(y.len() > 0);
        assert(agree_before(a, b, 0));
        assert(agree_before(x, y, 0));
    } else {
        let u = a[0] as u32;
        let v = b[0] as u32;
        let head_a = encode_scalar(u);
        let head_b = encode_scalar(v);
        let rest_a = encode_utf8(a.drop_first());
        let rest_b = encode_utf8(b.drop_first());
        char_is_scalar(a[0]);
        char_is_scalar(b[0]);
        lemma_text_less_step(a, b);
        if u == v {
            char_u32_cast(a[0], u);
            char_u32_cast(b[0], v);
            lemma_lex_less_after_prefix(head_a, rest_a, rest_b);
            lemma_text_order_is_byte_order(a.drop_first(), b.drop_first());
        } else if u < v {
            let at = lemma_scalars_in_order(u, v);
            assert(agree_before(x, y, at));
        } else {
            let at = lemma_scalars_in_order(v, u);
            assert(agree_before(y, x, at));
            lemma_lex_asymmetric(y, x);
        }
    }
}

} // verus!
