//! Raw byte-pattern search over an immutable buffer: the first byte-exact
//! occurrence of a needle at or after a given offset, in one forward pass.

use vstd::prelude::*;

verus! {

/// The needle `pat` occurs in `s` exactly at index `i`.
pub open spec fn match_at(s: Seq<u8>, pat: Seq<u8>, i: int) -> bool {
    &&& 0 <= i
    &&& i + pat.len() <= s.len()
    &&& s.subrange(i, i + pat.len() as int) == pat
}

/// The index of the first occurrence of `pat` in `s` at or after `from`,
/// if any. An empty needle never counts as found.
pub open spec fn find_idx(s: Seq<u8>, pat: Seq<u8>, from: int) -> Option<int>
    recommends
        0 <= from,
        pat.len() >= 1,
    decreases s.len() - from,
{
    if from < 0 || pat.len() == 0 || from + pat.len() > s.len() {
        None
    } else if match_at(s, pat, from) {
        Some(from)
    } else {
        find_idx(s, pat, from + 1)
    }
}

/// The needle occurs somewhere in `s`.
pub open spec fn contains_pat(s: Seq<u8>, pat: Seq<u8>) -> bool {
    exists|i: int| match_at(s, pat, i)
}

/// `find_idx` returns the first occurrence: a hit matches and nothing earlier
/// does; a miss means nothing at or after `from` matches.
pub proof fn lemma_find_idx_props(s: Seq<u8>, pat: Seq<u8>, from: int)
    requires
        0 <= from,
        pat.len() >= 1,
    ensures
        match find_idx(s, pat, from) {
            Some(i) => from <= i && match_at(s, pat, i) && forall|j: int|
                from <= j < i ==> !match_at(s, pat, j),
            None => forall|j: int| from <= j ==> !match_at(s, pat, j),
        },
    decreases s.len() - from,
{
    if from + pat.len() > s.len() {
        assert forall|j: int| from <= j implies !match_at(s, pat, j) by {
            if match_at(s, pat, j) {
                assert(j + pat.len() <= s.len());
                assert(s.subrange(j, j + pat.len() as int).len() == pat.len());
            }
        }
    } else if match_at(s, pat, from) {
    } else {
        lemma_find_idx_props(s, pat, from + 1);
    }
}

/// Compares `pat` against the bytes of `s` starting at `i`.
pub(crate) fn eq_at(s: &[u8], pat: &[u8], i: usize) -> (r: bool)
    requires
        i + pat@.len() <= s@.len(),
    ensures
        r == match_at(s@, pat@, i as int),
{
    let n = pat.len();
    let slen = s.len();
    let mut j: usize = 0;
    while j < n
        invariant
            j <= n,
            n == pat@.len(),
            slen == s@.len(),
            i + n <= slen,
            forall|k: int| 0 <= k < j ==> s@[i + k] == pat@[k],
        decreases n - j,
    {
        if s[i + j] != pat[j] {
            proof {
                assert(s@.subrange(i as int, i + pat@.len() as int)[j as int] != pat@[j as int]);
            }
            return false;
        }
        j = j + 1;
    }
    proof {
        assert(s@.subrange(i as int, i + pat@.len() as int) =~= pat@);
    }
    true
}

/// First occurrence of `pat` in `s` at or after `from`.
pub(crate) fn find_from(s: &[u8], pat: &[u8], from: usize) -> (r: Option<usize>)
    requires
        pat@.len() >= 1,
    ensures
        match r {
            Some(i) => find_idx(s@, pat@, from as int) == Some(i as int),
            None => find_idx(s@, pat@, from as int) is None,
        },
{
    if from > s.len() {
        return None;
    }
    let slen = s.len();
    let mut i: usize = from;
    while pat.len() <= slen - i
        invariant
            from <= i <= slen,
            slen == s@.len(),
            pat@.len() >= 1,
            find_idx(s@, pat@, from as int) == find_idx(s@, pat@, i as int),
        decreases slen - i,
    {
        if eq_at(s, pat, i) {
            return Some(i);
        }
        i = i + 1;
    }
    None
}

/// True exactly when `pat` occurs somewhere in `s`.
pub(crate) fn contains_bytes(s: &[u8], pat: &[u8]) -> (r: bool)
    requires
        pat@.len() >= 1,
    ensures
        r == contains_pat(s@, pat@),
{
    let r = find_from(s, pat, 0);
    proof {
        lemma_find_idx_props(s@, pat@, 0);
    }
    r.is_some()
}

} // verus!
