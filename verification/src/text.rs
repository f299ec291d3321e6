//! The canonical string type, its constructors and its conversions.
use crate::normalize::{caseless_of, compose, fold_case, is_canonical, nfc_of};
use crate::separator::{forward_slashes, has_backslash, slashed};
use vstd::prelude::*;
use vstd::std_specs::cmp::PartialEqSpecImpl;
use vstd::std_specs::convert::{FromSpecImpl, IntoSpecImpl};
use vstd::std_specs::ops::AddSpecImpl;
use vstd::string::StringExecFns;
use vstd::utf8::encode_utf8;

verus! {

/// A Unicode string normalized with NFC.
///
/// Can be used transparently as a `&str`.
/// The inner `String` is private to ensure it remains normalized.
/// Values are compared, hashed and ordered by their canonical text. The order
/// goes by code points, as the order of `String` does; it is not a linguistic
/// collation.
#[derive(Debug, Hash, Ord)]
pub struct Nfc {
    inner: String,
}

impl View for Nfc {
    type V = Seq<char>;

    /// The canonical text, as a sequence of code points.
    closed spec fn view(&self) -> Seq<char> {
        self.inner@
    }
}

impl Nfc {
    /// The invariant of every value: its text is canonical.
    #[verifier::type_invariant]
    pub open spec fn wf(&self) -> bool {
        is_canonical(self@)
    }

    /// Creates a normalized string.
    ///
    /// A text that is canonical already is copied as it is.
    pub fn from_str(s: &str) -> (r: Nfc)
        ensures
            r@ == nfc_of(s@),
            is_canonical(r@),
    {
        Nfc::from_str_given(s, unicode_normalization::is_nfc(s))
    }

    /// Creates a normalized string, given whether `s` is already known to be
    /// canonical. With `composed` the text is copied as it is; without it the
    /// text is normalized. Both ways give the same string.
    pub fn from_str_given(s: &str, composed: bool) -> (r: Nfc)
        requires
            composed ==> is_canonical(s@),
        ensures
            r@ == nfc_of(s@),
            is_canonical(r@),
    {
        if composed {
            Nfc { inner: s.to_owned() }
        } else {
            Nfc { inner: compose(s) }
        }
    }

    /// Creates a normalized caseless string.
    ///
    /// The text is normalized, case folded, and normalized again.
    pub fn caseless(s: &str) -> (r: Nfc)
        ensures
            r@ == caseless_of(s@),
            is_canonical(r@),
    {
        let composed = compose(s);
        let folded = fold_case(composed.as_str());
        Nfc { inner: compose(folded.as_str()) }
    }

    /// Creates a normalized path string.
    /// Converts '\\' to '/'.
    ///
    /// A text that is canonical already and holds no backslash is copied as
    /// it is.
    pub fn path(s: &str) -> (r: Nfc)
        ensures
            r@ == nfc_of(slashed(s@)),
            is_canonical(r@),
    {
        if unicode_normalization::is_nfc(s) && !has_backslash(s) {
            assert(slashed(s@) =~= s@);
            Nfc::from_str_given(s, true)
        } else {
            let rewritten = forward_slashes(s);
            Nfc::from_str_given(rewritten.as_str(), false)
        }
    }

    /// Creates a normalized caseless path string.
    /// Converts '\\' to '/'.
    pub fn caseless_path(s: &str) -> (r: Nfc)
        ensures
            r@ == caseless_of(slashed(s@)),
            is_canonical(r@),
    {
        let rewritten = forward_slashes(s);
        Nfc::caseless(rewritten.as_str())
    }

    /// Match `String::as_str()`.
    pub fn as_str(&self) -> (s: &str)
        ensures
            s@ == self@,
            is_canonical(s@),
    {
        proof {
            use_type_invariant(self);
        }
        self.inner.as_str()
    }

    /// The canonical text as an owned `String`, as `Display` would render it.
    pub fn to_string(&self) -> (s: String)
        ensures
            s@ == self@,
            is_canonical(s@),
    {
        proof {
            use_type_invariant(self);
        }
        self.inner.clone()
    }
}

/// A clone holds the same text.
impl Clone for Nfc {
    fn clone(&self) -> (r: Nfc)
        ensures
            r@ == self@,
    {
        proof {
            use_type_invariant(self);
        }
        Nfc { inner: self.inner.clone() }
    }
}

/// Equality of the canonical texts: canonically equivalent inputs give equal
/// values.
impl PartialEq for Nfc {
    fn eq(&self, other: &Nfc) -> (r: bool) {
        self.inner == other.inner
    }
}

impl PartialEqSpecImpl for Nfc {
    open spec fn obeys_eq_spec() -> bool {
        true
    }

    /// Two values are equal exactly when their canonical texts are.
    open spec fn eq_spec(&self, other: &Nfc) -> bool {
        self@ == other@
    }
}

impl Eq for Nfc {

}

/// The bytes of the canonical text, in UTF-8.
impl core::convert::AsRef<[u8]> for Nfc {
    fn as_ref(&self) -> (bytes: &[u8])
        ensures
            <[u8] as View>::view(bytes) == encode_utf8(self@),
    {
        self.inner.as_str().as_bytes()
    }
}

/// The canonical text.
impl core::convert::AsRef<str> for Nfc {
    fn as_ref(&self) -> (s: &str)
        ensures
            <str as View>::view(s) == self@,
    {
        self.inner.as_str()
    }
}

/// Converts to a normalized string.
impl<'a> core::convert::From<&'a str> for Nfc {
    fn from(s: &'a str) -> (r: Nfc)
        ensures
            r@ == nfc_of(s@),
            is_canonical(r@),
    {
        Nfc::from_str(s)
    }
}

/// The conversion is described by the contract of `from` itself, which speaks
/// of the text of its result.
impl<'a> FromSpecImpl<&'a str> for Nfc {
    open spec fn obeys_from_spec() -> bool {
        false
    }

    open spec fn from_spec(s: &'a str) -> Nfc {
        arbitrary()
    }
}

/// Converts to a normalized string.
/// Consumes the given string, and keeps it where it is canonical already.
impl core::convert::From<String> for Nfc {
    fn from(string: String) -> (r: Nfc)
        ensures
            r@ == nfc_of(string@),
            is_canonical(r@),
    {
        if unicode_normalization::is_nfc(string.as_str()) {
            Nfc { inner: string }
        } else {
            Nfc { inner: compose(string.as_str()) }
        }
    }
}

/// The conversion is described by the contract of `from` itself, which speaks
/// of the text of its result.
impl FromSpecImpl<String> for Nfc {
    open spec fn obeys_from_spec() -> bool {
        false
    }

    open spec fn from_spec(string: String) -> Nfc {
        arbitrary()
    }
}

/// Unwraps the inner string.
impl core::convert::Into<String> for Nfc {
    fn into(self) -> (s: String)
        ensures
            <String as View>::view(&s) == self@,
            is_canonical(<String as View>::view(&s)),
    {
        proof {
            use_type_invariant(&self);
        }
        self.inner
    }
}

impl IntoSpecImpl<String> for Nfc {
    open spec fn obeys_into_spec() -> bool {
        true
    }

    closed spec fn into_spec(self) -> String {
        self.inner
    }
}

/// Inherits all the methods of `str`.
impl core::ops::Deref for Nfc {
    type Target = str;

    fn deref(&self) -> (s: &str)
        ensures
            s@ == self@,
    {
        self.inner.as_str()
    }
}

/// Adds a string.
///
/// The two texts are joined first and normalized as one, so that a mark at
/// the start of `other` composes with the end of `self`.
impl<'a> core::ops::Add<&'a str> for Nfc {
    type Output = Nfc;

    fn add(self, other: &'a str) -> (r: Nfc)
        ensures
            r@ == nfc_of(self@ + other@),
            is_canonical(r@),
    {
        let joined = self.inner.concat(other);
        Nfc { inner: compose(joined.as_str()) }
    }
}

/// Any text can be added; the sum is described by the contract of `add`
/// itself, which speaks of the text of its result.
impl<'a> AddSpecImpl<&'a str> for Nfc {
    open spec fn obeys_add_spec() -> bool {
        false
    }

    open spec fn add_req(self, other: &'a str) -> bool {
        true
    }

    open spec fn add_spec(self, other: &'a str) -> Nfc {
        arbitrary()
    }
}

} // verus!
