//! Path separators: every backslash of a path-like text becomes a slash.
use vstd::prelude::*;

verus! {

/// The separator rewrite of one code point.
pub open spec fn slash(c: char) -> char {
    if c == '\\' {
        '/'
    } else {
        c
    }
}

/// The text with every backslash replaced by a slash.
pub open spec fn slashed(text: Seq<char>) -> Seq<char> {
    Seq::new(text.len(), |i: int| slash(text[i]))
}

/// Trusted: `String::push` appends the given character to the end of the
/// string.
pub assume_specification[ String::push ](s: &mut String, c: char)
    ensures
        final(s)@ == old(s)@.push(c),
;

/// Rewrites one code point: a backslash becomes a slash, anything else stays.
pub fn to_slash(c: char) -> (r: char)
    ensures
        r == slash(c),
{
    if c == '\\' {
        '/'
    } else {
        c
    }
}

/// Whether the text holds a backslash anywhere.
pub fn has_backslash(s: &str) -> (found: bool)
    ensures
        found == s@.contains('\\'),
{
    for c in it: s.chars()
        invariant
            it.seq() == s@,
            forall|i: int| 0 <= i < it.index() ==> s@[i] != '\\',
    {
        if c == '\\' {
            return true;
        }
    }
    false
}

/// Copies the text with every backslash replaced by a slash.
pub fn forward_slashes(s: &str) -> (r: String)
    ensures
        r@ == slashed(s@),
{
    let mut out = String::new();
    for c in it: s.chars()
        invariant
            it.seq() == s@,
            out@ == slashed(s@.take(it.index())),
    {
        out.push(to_slash(c));
    }
    out
}

} // verus!
