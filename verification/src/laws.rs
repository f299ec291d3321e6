//! Laws that relate the operations of the library to one another.
use crate::normalize::{is_canonical, nfc_of};
use crate::bytes::{lemma_lex_asymmetric, lemma_lex_total, lemma_lex_transitive, lex_less};
use crate::encoding::lemma_text_order_is_byte_order;
use crate::separator::slashed;
use crate::text::Nfc;
use core::cmp::Ordering;
use vstd::prelude::*;
use vstd::std_specs::cmp::{PartialEqSpec, PartialOrdSpec};
use vstd::utf8::{encode_utf8, encode_utf8_decode_utf8};

verus! {

/// Normalizing is idempotent: the text of a canonical string is left as it is
/// by normalization, so building a string from it gives the same string again.
pub proof fn lemma_normalize_idempotent(a: Nfc)
    requires
        a.wf(),
    ensures
        nfc_of(a@) == a@,
{
}

/// The fast path changes nothing: for a text that is canonical already, the
/// string that holds a plain copy of it equals the string that holds its
/// normalization.
pub proof fn lemma_fast_path_equivalence(s: Seq<char>, copied: Nfc, normalized: Nfc)
    requires
        is_canonical(s),
        copied@ == s,
        normalized@ == nfc_of(s),
    ensures
        copied@ == normalized@,
        copied.eq_spec(&normalized),
{
}

/// A text without a backslash is its own separator rewrite, so as a path it
/// gives the string that it gives as plain text.
pub proof fn lemma_path_without_backslash(s: Seq<char>)
    requires
        !s.contains('\\'),
    ensures
        slashed(s) == s,
        nfc_of(slashed(s)) == nfc_of(s),
{
    assert(slashed(s) =~= s);
}

/// Two strings are equal exactly when the UTF-8 bytes of their canonical
/// texts are the same.
pub proof fn lemma_equal_iff_same_bytes(a: Nfc, b: Nfc)
    ensures
        a.eq_spec(&b) <==> encode_utf8(a@) == encode_utf8(b@),
{
    encode_utf8_decode_utf8(a@);
    encode_utf8_decode_utf8(b@);
}

/// Order and equality agree: equal strings compare as equal, and neither of
/// them is less than the other.
pub proof fn lemma_equal_is_not_less(a: Nfc, b: Nfc)
    requires
        a.eq_spec(&b),
    ensures
        a.partial_cmp_spec(&b) == Some(Ordering::Equal),
        !(a.partial_cmp_spec(&b) == Some(Ordering::Less)),
        !(b.partial_cmp_spec(&a) == Some(Ordering::Less)),
{
}

/// The order of two strings is the byte order of their canonical texts in
/// UTF-8.
pub proof fn lemma_order_is_byte_order(a: Nfc, b: Nfc)
    ensures
        a.partial_cmp_spec(&b) == Some(Ordering::Less) <==> lex_less(
            encode_utf8(a@),
            encode_utf8(b@),
        ),
{
    let x = encode_utf8(a@);
    let y = encode_utf8(b@);
    lemma_text_order_is_byte_order(a@, b@);
    if lex_less(x, y) {
        lemma_lex_asymmetric(x, y);
    }
}

/// The order is total and agrees with equality: two strings compare as equal
/// exactly when they are equal, and one is greater than the other exactly when
/// the other is less than it.
pub proof fn lemma_order_total(a: Nfc, b: Nfc)
    ensures
        a.partial_cmp_spec(&b) == Some(Ordering::Equal) <==> a.eq_spec(&b),
        a.partial_cmp_spec(&b) == Some(Ordering::Greater) <==> b.partial_cmp_spec(&a) == Some(
            Ordering::Less,
        ),
{
    let x = encode_utf8(a@);
    let y = encode_utf8(b@);
    lemma_equal_iff_same_bytes(a, b);
    lemma_order_is_byte_order(a, b);
    lemma_order_is_byte_order(b, a);
    lemma_lex_total(x, y);
    if lex_less(x, y) {
        lemma_lex_asymmetric(x, y);
    }
}

/// The order is transitive.
pub proof fn lemma_order_transitive(a: Nfc, b: Nfc, c: Nfc)
    requires
        a.partial_cmp_spec(&b) == Some(Ordering::Less),
        b.partial_cmp_spec(&c) == Some(Ordering::Less),
    ensures
        a.partial_cmp_spec(&c) == Some(Ordering::Less),
{
    lemma_order_is_byte_order(a, b);
    lemma_order_is_byte_order(b, c);
    lemma_order_is_byte_order(a, c);
    lemma_lex_transitive(encode_utf8(a@), encode_utf8(b@), encode_utf8(c@));
}

} // verus!
