//! Low-level PDF parsing utilities: byte-pattern lookup and balanced-token
//! scanning that recovers a dictionary region `<<...>>` from a byte offset.

use vstd::prelude::*;

use crate::scan;

verus! {

/// One step at a time, the balanced scan tracks the nesting depth of `<<` and
/// `>>` tokens from `i` on, remembering in `start` where the outermost
/// dictionary opened; the first region whose depth returns to zero after a
/// dictionary has opened is the result. Overlapping tokens count once per
/// position, exactly as the single forward pass sees them.
pub open spec fn scan_dict(s: Seq<u8>, i: int, depth: int, in_dict: bool, start: int) -> Option<
    (int, int),
>
    decreases s.len() - i,
{
    if i < 0 || i + 1 >= s.len() {
        None
    } else if s[i] == '<' as u8 && s[i + 1] == '<' as u8 {
        scan_dict(s, i + 1, depth + 1, true, if in_dict { start } else { i })
    } else if s[i] == '>' as u8 && s[i + 1] == '>' as u8 {
        if depth - 1 == 0 && in_dict {
            Some((start, i + 2))
        } else {
            scan_dict(s, i + 1, depth - 1, in_dict, start)
        }
    } else {
        scan_dict(s, i + 1, depth, in_dict, start)
    }
}

/// The dictionary region that `extract_object` recovers from `start_pos`.
pub open spec fn extract_object_spec(s: Seq<u8>, start_pos: int) -> Option<Seq<u8>> {
    match scan_dict(s, start_pos, 0, false, 0) {
        Some((a, b)) => Some(s.subrange(a, b)),
        None => None,
    }
}

/// A scan that ends in a region stays within the buffer, so the region can be
/// copied out.
proof fn lemma_scan_dict_bounds(s: Seq<u8>, i: int, depth: int, in_dict: bool, start: int)
    requires
        0 <= start,
        in_dict ==> start <= i,
    ensures
        match scan_dict(s, i, depth, in_dict, start) {
            Some((a, b)) => 0 <= a <= b <= s.len(),
            None => true,
        },
    decreases s.len() - i,
{
    if i < 0 || i + 1 >= s.len() {
    } else if s[i] == '<' as u8 && s[i + 1] == '<' as u8 {
        lemma_scan_dict_bounds(s, i + 1, depth + 1, true, if in_dict { start } else { i });
    } else if s[i] == '>' as u8 && s[i + 1] == '>' as u8 {
        if depth - 1 == 0 && in_dict {
        } else {
            lemma_scan_dict_bounds(s, i + 1, depth - 1, in_dict, start);
        }
    } else {
        lemma_scan_dict_bounds(s, i + 1, depth, in_dict, start);
    }
}

/// Low-level PDF parsing utilities.
pub struct PDFParser;

impl PDFParser {
    /// The position of the first occurrence of `pattern` in `bytes`, if any.
    pub fn find_pattern(bytes: &[u8], pattern: &[u8]) -> (r: Option<usize>)
        requires
            pattern@.len() >= 1,
        ensures
            match r {
                Some(i) => scan::find_idx(bytes@, pattern@, 0) == Some(i as int)
                    && scan::match_at(bytes@, pattern@, i as int) && forall|j: int|
                    0 <= j < i ==> !scan::match_at(bytes@, pattern@, j),
                None => scan::find_idx(bytes@, pattern@, 0) is None && !scan::contains_pat(
                    bytes@,
                    pattern@,
                ),
            },
    {
        let r = scan::find_from(bytes, pattern, 0);
        proof {
            scan::lemma_find_idx_props(bytes@, pattern@, 0);
            if r is None {
                assert forall|i: int| !scan::match_at(bytes@, pattern@, i) by {
                    if scan::match_at(bytes@, pattern@, i) {
                        assert(0 <= i);
                    }
                }
            }
        }
        r
    }

    /// Recovers the first balanced dictionary `<<...>>` found scanning forward
    /// from `start_pos`, as the single forward pass of `scan_dict` sees it.
    pub fn extract_object(bytes: &[u8], start_pos: usize) -> (r: Option<Vec<u8>>)
        ensures
            match extract_object_spec(bytes@, start_pos as int) {
                Some(region) => r matches Some(v) && v@ == region,
                None => r is None,
            },
    {
        let slen = bytes.len();
        if slen == 0 || start_pos >= slen - 1 {
            return None;
        }
        let mut i: usize = start_pos;
        let mut depth: i128 = 0;
        let mut in_dict: bool = false;
        let mut start: usize = 0;
        while i < slen - 1
            invariant
                slen == bytes@.len(),
                slen >= 1,
                i <= slen,
                start <= slen,
                in_dict ==> start <= i,
                -(i as int) - 1 <= depth <= i as int + 1,
                scan_dict(bytes@, start_pos as int, 0, false, 0) == scan_dict(
                    bytes@,
                    i as int,
                    depth as int,
                    in_dict,
                    start as int,
                ),
            decreases slen - i,
        {
            let ghost gi = i as int;
            let ghost gd = depth as int;
            let ghost gin = in_dict;
            let ghost gst = start as int;
            let lt = '<' as u8;
            let gt = '>' as u8;
            if bytes[i] == lt && bytes[i + 1] == lt {
                if !in_dict {
                    start = i;
                }
                in_dict = true;
                depth = depth + 1;
            } else if bytes[i] == gt && bytes[i + 1] == gt {
                depth = depth - 1;
                if depth == 0 && in_dict {
                    proof {
                        lemma_scan_dict_bounds(bytes@, start_pos as int, 0, false, 0);
                    }
                    let v = vstd::slice::slice_to_vec(&bytes[start..i + 2]);
                    return Some(v);
                }
            }
            i = i + 1;
            proof {
                assert(scan_dict(bytes@, gi, gd, gin, gst) == scan_dict(
                    bytes@,
                    i as int,
                    depth as int,
                    in_dict,
                    start as int,
                ));
            }
        }
        None
    }
}

} // verus!
