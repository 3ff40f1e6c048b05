//! Byte-level text helpers: whitespace trimming, ASCII case folding, and
//! case-insensitive suffix and filename matching.

use vstd::prelude::*;

use crate::tokens;

verus! {

/// ASCII whitespace: space, tab, line feed, vertical tab, form feed,
/// carriage return.
pub open spec fn is_ws(b: u8) -> bool {
    b == 32 || (9 <= b <= 13)
}

/// `s` with its leading whitespace removed.
pub open spec fn trim_front(s: Seq<u8>) -> Seq<u8>
    decreases s.len(),
{
    if s.len() > 0 && is_ws(s[0]) {
        trim_front(s.subrange(1, s.len() as int))
    } else {
        s
    }
}

/// `s` with its trailing whitespace removed.
pub open spec fn trim_back(s: Seq<u8>) -> Seq<u8>
    decreases s.len(),
{
    if s.len() > 0 && is_ws(s[s.len() - 1]) {
        trim_back(s.subrange(0, s.len() - 1))
    } else {
        s
    }
}

/// `s` with whitespace removed on both ends.
pub open spec fn trim_spec(s: Seq<u8>) -> Seq<u8> {
    trim_back(trim_front(s))
}

/// Dropping leading whitespace keeps the suffix that starts at the first
/// non-whitespace byte.
proof fn lemma_trim_front_range(s: Seq<u8>, k: int)
    requires
        0 <= k <= s.len(),
        forall|j: int| 0 <= j < k ==> is_ws(s[j]),
        k == s.len() || !is_ws(s[k]),
    ensures
        trim_front(s) == s.subrange(k, s.len() as int),
    decreases k,
{
    if k == 0 {
        assert(s.subrange(0, s.len() as int) =~= s);
    } else {
        let s1 = s.subrange(1, s.len() as int);
        lemma_trim_front_range(s1, k - 1);
        assert(s1.subrange(k - 1, s1.len() as int) =~= s.subrange(k, s.len() as int));
    }
}

/// Dropping trailing whitespace keeps the prefix that ends after the last
/// non-whitespace byte.
proof fn lemma_trim_back_range(s: Seq<u8>, m: int)
    requires
        0 <= m <= s.len(),
        forall|j: int| m <= j < s.len() ==> is_ws(s[j]),
        m == 0 || !is_ws(s[m - 1]),
    ensures
        trim_back(s) == s.subrange(0, m),
    decreases s.len() - m,
{
    if m == s.len() {
        assert(s.subrange(0, m) =~= s);
    } else {
        let s1 = s.subrange(0, s.len() - 1);
        lemma_trim_back_range(s1, m);
        assert(s1.subrange(0, m) =~= s.subrange(0, m));
    }
}

/// ASCII whitespace test on one byte.
pub(crate) fn is_ws_byte(b: u8) -> (r: bool)
    ensures
        r == is_ws(b),
{
    b == 32 || (9 <= b && b <= 13)
}

/// The whitespace-trimmed copy of `bytes[lo..hi]`.
pub(crate) fn trim_range(bytes: &[u8], lo: usize, hi: usize) -> (r: Vec<u8>)
    requires
        lo <= hi <= bytes@.len(),
    ensures
        r@ == trim_spec(bytes@.subrange(lo as int, hi as int)),
{
    let ghost sub = bytes@.subrange(lo as int, hi as int);
    let mut a: usize = lo;
    while a < hi && is_ws_byte(bytes[a])
        invariant
            lo <= a <= hi <= bytes@.len(),
            forall|j: int| lo <= j < a ==> is_ws(bytes@[j]),
        decreases hi - a,
    {
        a = a + 1;
    }
    let mut b: usize = hi;
    while b > a && is_ws_byte(bytes[b - 1])
        invariant
            a <= b <= hi <= bytes@.len(),
            forall|j: int| b <= j < hi ==> is_ws(bytes@[j]),
        decreases b,
    {
        b = b - 1;
    }
    proof {
        lemma_trim_front_range(sub, a - lo);
        assert(sub.subrange(a - lo, sub.len() as int) =~= bytes@.subrange(a as int, hi as int));
        lemma_trim_back_range(bytes@.subrange(a as int, hi as int), b - a);
        assert(bytes@.subrange(a as int, hi as int).subrange(0, b - a) =~= bytes@.subrange(
            a as int,
            b as int,
        ));
    }
    vstd::slice::slice_to_vec(&bytes[a..b])
}

/// ASCII case folding of one byte.
pub open spec fn lower(b: u8) -> u8 {
    if 'A' as u8 <= b <= 'Z' as u8 {
        (b + 32) as u8
    } else {
        b
    }
}

/// ASCII case folding of a byte sequence.
pub open spec fn lower_seq(s: Seq<u8>) -> Seq<u8> {
    s.map_values(|b: u8| lower(b))
}

/// `name` ends with ".xml", compared without regard to ASCII case.
pub open spec fn ends_with_xml_ci(name: Seq<u8>) -> bool {
    &&& name.len() >= 4
    &&& lower_seq(name.subrange(name.len() - 4, name.len() as int)) == tokens::xml_suffix_pat()
}

/// `name` is the canonical attachment filename, compared without regard to
/// ASCII case.
pub open spec fn is_canonical_name(name: Seq<u8>) -> bool {
    lower_seq(name) == tokens::canonical_name_pat()
}

/// Two byte sequences are equal once ASCII case is folded.
pub(crate) fn eq_ignore_case(a: &[u8], b: &[u8]) -> (r: bool)
    ensures
        r == (lower_seq(a@) == lower_seq(b@)),
{
    if a.len() != b.len() {
        proof {
            assert(lower_seq(a@).len() != lower_seq(b@).len());
        }
        return false;
    }
    let n = a.len();
    let mut i: usize = 0;
    while i < n
        invariant
            i <= n,
            n == a@.len() == b@.len(),
            forall|k: int| 0 <= k < i ==> lower(a@[k]) == lower(b@[k]),
        decreases n - i,
    {
        let ca = a[i];
        let cb = b[i];
        let la = if ca >= 'A' as u8 && ca <= 'Z' as u8 {
            ca + 32
        } else {
            ca
        };
        let lb = if cb >= 'A' as u8 && cb <= 'Z' as u8 {
            cb + 32
        } else {
            cb
        };
        if la != lb {
            proof {
                assert(lower_seq(a@)[i as int] != lower_seq(b@)[i as int]);
            }
            return false;
        }
        i = i + 1;
    }
    proof {
        assert(lower_seq(a@) =~= lower_seq(b@));
    }
    true
}

/// `name` ends with ".xml" in any ASCII case.
pub(crate) fn name_ends_with_xml(name: &[u8]) -> (r: bool)
    ensures
        r == ends_with_xml_ci(name@),
{
    if name.len() < 4 {
        return false;
    }
    let suffix = tokens::xml_suffix_vec();
    let n = name.len();
    let r = eq_ignore_case(&name[n - 4..n], suffix.as_slice());
    proof {
        assert(lower_seq(tokens::xml_suffix_pat()) =~= tokens::xml_suffix_pat());
    }
    r
}

/// `name` equals the canonical attachment filename in any ASCII case.
pub(crate) fn name_is_canonical(name: &[u8]) -> (r: bool)
    ensures
        r == is_canonical_name(name@),
{
    let canonical = tokens::canonical_name_vec();
    let r = eq_ignore_case(name, canonical.as_slice());
    proof {
        assert(lower_seq(tokens::canonical_name_pat()) =~= tokens::canonical_name_pat());
    }
    r
}

/// Suffix and canonical-filename matching are insensitive to ASCII case:
/// two names that agree once case is folded are matched alike.
pub proof fn lemma_matching_case_insensitive(a: Seq<u8>, b: Seq<u8>)
    requires
        lower_seq(a) == lower_seq(b),
    ensures
        ends_with_xml_ci(a) == ends_with_xml_ci(b),
        is_canonical_name(a) == is_canonical_name(b),
{
    assert(lower_seq(a).len() == a.len());
    assert(lower_seq(b).len() == b.len());
    if a.len() >= 4 {
        let la = lower_seq(a.subrange(a.len() - 4, a.len() as int));
        let lb = lower_seq(b.subrange(b.len() - 4, b.len() as int));
        assert forall|k: int| 0 <= k < 4 implies la[k] == lb[k] by {
            assert(lower_seq(a)[a.len() - 4 + k] == lower_seq(b)[b.len() - 4 + k]);
        }
        assert(la =~= lb);
    }
}

} // verus!
