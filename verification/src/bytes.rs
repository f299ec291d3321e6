//! The lexicographic order of byte strings.
use vstd::prelude::*;

verus! {

/// `a` and `b` hold the same items before position `k`.
pub open spec fn agree_before<T>(a: Seq<T>, b: Seq<T>, k: int) -> bool {
    &&& 0 <= k <= a.len()
    &&& k <= b.len()
    &&& forall|i: int| 0 <= i < k ==> a[i] == b[i]
}

/// `a` comes before `b` in lexicographic order: at the first position where
/// they differ, `a` has ended and `b` has not, or `a` holds the smaller byte.
pub open spec fn lex_less(a: Seq<u8>, b: Seq<u8>) -> bool {
    exists|k: int| #[trigger]
        agree_before(a, b, k) && k < b.len() && (k == a.len() || a[k] < b[k])
}

/// Two byte strings that agree before `k` have a first difference at or after
/// `k`: a position where one of them ends or where their bytes are unlike.
pub proof fn lemma_first_difference_exists(a: Seq<u8>, b: Seq<u8>, k: int)
    requires
        agree_before(a, b, k),
    ensures
        exists|d: int| #[trigger]
            agree_before(a, b, d) && (d == a.len() || d == b.len() || a[d] != b[d]),
    decreases a.len() - k,
{
    if k == a.len() || k == b.len() || a[k] != b[k] {
        assert(agree_before(a, b, k));
    } else {
        assert(agree_before(a, b, k + 1));
        lemma_first_difference_exists(a, b, k + 1);
    }
}

/// Any two byte strings are equal, or one of them comes before the other.
pub proof fn lemma_lex_total(a: Seq<u8>, b: Seq<u8>)
    ensures
        a == b || lex_less(a, b) || lex_less(b, a),
{
    assert(agree_before(a, b, 0));
    lemma_first_difference_exists(a, b, 0);
    let d = choose|d: int| #[trigger]
        agree_before(a, b, d) && (d == a.len() || d == b.len() || a[d] != b[d]);
    assert(agree_before(b, a, d));
    if d == a.len() && d == b.len() {
        assert(a =~= b);
    }
}

/// No byte string comes before itself, and of two byte strings at most one
/// comes before the other.
pub proof fn lemma_lex_asymmetric(a: Seq<u8>, b: Seq<u8>)
    requires
        lex_less(a, b),
    ensures
        a != b,
        !lex_less(b, a),
{
    let k = choose|k: int| #[trigger]
        agree_before(a, b, k) && k < b.len() && (k == a.len() || a[k] < b[k]);
    if lex_less(b, a) {
        let m = choose|m: int| #[trigger]
            agree_before(b, a, m) && m < a.len() && (m == b.len() || b[m] < a[m]);
        assert(k == m);
    }
}

/// Coming before is transitive.
pub proof fn lemma_lex_transitive(a: Seq<u8>, b: Seq<u8>, c: Seq<u8>)
    requires
        lex_less(a, b),
        lex_less(b, c),
    ensures
        lex_less(a, c),
{
    let k = choose|k: int| #[trigger]
        agree_before(a, b, k) && k < b.len() && (k == a.len() || a[k] < b[k]);
    let m = choose|m: int| #[trigger]
        agree_before(b, c, m) && m < c.len() && (m == b.len() || b[m] < c[m]);
    let least = if k <= m {
        k
    } else {
        m
    };
    assert(agree_before(a, c, least));
}

/// The first position at which two byte strings differ, or the length of the
/// shorter one where it is a prefix of the other. That position decides both
/// whether the two are equal and which of them comes first.
pub fn first_difference(a: &[u8], b: &[u8]) -> (at: usize)
    ensures
        agree_before(a@, b@, at as int),
        at == a.len() || at == b.len() || a@[at as int] != b@[at as int],
        a@ == b@ <==> at == a.len() && at == b.len(),
        lex_less(a@, b@) <==> at < b.len() && (at == a.len() || a@[at as int] < b@[at as int]),
{
    let mut i: usize = 0;
    while i < a.len() && i < b.len() && a[i] == b[i]
        invariant
            agree_before(a@, b@, i as int),
        decreases a.len() - i,
    {
        i += 1;
    }
    proof {
        if i == a.len() && i == b.len() {
            assert(a@ =~= b@);
        }
        if lex_less(a@, b@) {
            let k = choose|k: int| #[trigger]
                agree_before(a@, b@, k) && k < b@.len() && (k == a@.len() || a@[k] < b@[k]);
            assert(k == i);
        }
    }
    i
}

} // verus!
