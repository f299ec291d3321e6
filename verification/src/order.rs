//! The order of canonical strings: the order of their canonical texts, code
//! point by code point.
//!
//! This is the order of `String`. It is total and agrees with equality, but
//! it is not a linguistic collation.
use crate::bytes::first_difference;
use crate::encoding::{lemma_text_order_is_byte_order, text_less};
use crate::text::Nfc;
use core::cmp::Ordering;
use vstd::prelude::*;
use vstd::std_specs::cmp::PartialOrdSpecImpl;
use vstd::utf8::encode_utf8_decode_utf8;

verus! {

/// The lexicographic order of two texts by their code points.
pub open spec fn text_order(a: Seq<char>, b: Seq<char>) -> Ordering {
    if a == b {
        Ordering::Equal
    } else if text_less(a, b) {
        Ordering::Less
    } else {
        Ordering::Greater
    }
}

impl PartialOrd for Nfc {
    /// Compares the UTF-8 bytes of the two texts, which are ordered as the
    /// texts are.
    fn partial_cmp(&self, other: &Nfc) -> (r: Option<Ordering>) {
        let a: &[u8] = self.as_ref();
        let b: &[u8] = other.as_ref();
        proof {
            encode_utf8_decode_utf8(self@);
            encode_utf8_decode_utf8(other@);
            lemma_text_order_is_byte_order(self@, other@);
        }
        let at = first_difference(a, b);
        if at == a.len() && at == b.len() {
            Some(Ordering::Equal)
        } else if at < b.len() && (at == a.len() || a[at] < b[at]) {
            Some(Ordering::Less)
        } else {
            Some(Ordering::Greater)
        }
    }
}

impl PartialOrdSpecImpl for Nfc {
    open spec fn obeys_partial_cmp_spec() -> bool {
        true
    }

    /// Values are ordered as their canonical texts are.
    open spec fn partial_cmp_spec(&self, other: &Nfc) -> Option<Ordering> {
        Some(text_order(self@, other@))
    }
}

} // verus!
