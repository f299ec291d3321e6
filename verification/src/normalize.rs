//! The two Unicode transforms this library builds on, and what is taken on
//! trust about them.
//!
//! Canonical composition comes from the `unicode-normalization` crate and
//! default case folding from the `caseless` crate. Neither is verified here:
//! each transform gets a name in specifications, and the few items below say
//! how the executable calls relate to those names.
use caseless::Caseless;
use unicode_normalization::UnicodeNormalization;
use vstd::prelude::*;

verus! {

/// The canonical composed form (NFC) of a sequence of code points.
pub uninterp spec fn nfc_of(text: Seq<char>) -> Seq<char>;

/// The default, locale-independent case folding of a sequence of code points.
pub uninterp spec fn case_fold_of(text: Seq<char>) -> Seq<char>;

/// A text is canonical when composing it again leaves it unchanged.
pub open spec fn is_canonical(text: Seq<char>) -> bool {
    nfc_of(text) == text
}

/// The caseless canonical form: compose, fold, and compose once more, since
/// folding may leave a text that is no longer composed.
pub open spec fn caseless_of(text: Seq<char>) -> Seq<char> {
    nfc_of(case_fold_of(nfc_of(text)))
}

/// Trusted: `unicode_normalization::is_nfc` answers whether the text is
/// already in NFC, that is, whether composing it would give the same text back.
pub assume_specification[ unicode_normalization::is_nfc ](s: &str) -> (b: bool)
    ensures
        b == is_canonical(s@),
;

/// Trusted: collecting `Caseless::default_case_fold` over the characters of
/// `s` yields the default case folding of `s`.
#[verifier::external_body]
pub(crate) fn fold_case(s: &str) -> (folded: String)
    ensures
        folded@ == case_fold_of(s@),
{
    s.chars().default_case_fold().collect()
}

/// Trusted: collecting `UnicodeNormalization::nfc` over the characters of `s`
/// yields the NFC form of `s`, and what it yields is in NFC: composing the
/// result again changes nothing.
#[verifier::external_body]
pub(crate) fn compose(s: &str) -> (composed: String)
    ensures
        composed@ == nfc_of(s@),
        is_canonical(composed@),
{
    s.chars().nfc().collect()
}

} // verus!
