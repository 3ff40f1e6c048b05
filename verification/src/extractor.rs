//! Structural location of the catalog dictionary and of the embedded-file
//! name tree, by forward and bounded backward byte scanning.

use vstd::prelude::*;

use crate::ascii;
use crate::parser;
use crate::parser::PDFParser;
use crate::scan;
use crate::tokens;

verus! {

/// The nearest position at or before `j` where the `obj` keyword starts,
/// stopping (as the bounded backward scan does) once `j` reaches 2.
pub open spec fn back_obj(s: Seq<u8>, j: int) -> int
    decreases j,
{
    if j <= 2 {
        j
    } else if scan::match_at(s, tokens::obj_kw_pat(), j) {
        j
    } else {
        back_obj(s, j - 1)
    }
}

/// The catalog dictionary region: from the first `/Type /Catalog` marker, scan
/// backward to the nearest preceding `obj` token, then recover the balanced
/// dictionary that follows it.
pub open spec fn find_catalog_spec(s: Seq<u8>) -> Option<Seq<u8>> {
    match scan::find_idx(s, tokens::catalog_pat(), 0) {
        None => None,
        Some(cp) => parser::extract_object_spec(s, back_obj(s, cp)),
    }
}

/// The literal-string scan over the bytes of a names array: a name is captured
/// only while inside an unterminated parenthesis pair, and an empty name is
/// dropped rather than surfaced.
pub open spec fn parse_names(
    c: Seq<u8>,
    i: int,
    in_str: bool,
    cur: Seq<u8>,
    acc: Seq<Seq<u8>>,
) -> Seq<Seq<u8>>
    decreases c.len() - i,
{
    if i < 0 || i >= c.len() {
        acc
    } else if c[i] == '(' as u8 {
        parse_names(c, i + 1, true, Seq::empty(), acc)
    } else if c[i] == ')' as u8 {
        parse_names(
            c,
            i + 1,
            false,
            cur,
            if in_str && cur.len() > 0 {
                acc.push(cur)
            } else {
                acc
            },
        )
    } else {
        parse_names(
            c,
            i + 1,
            in_str,
            if in_str {
                cur.push(c[i])
            } else {
                cur
            },
            acc,
        )
    }
}

/// The embedded file names of the buffer, in document order: nothing without
/// an `/EmbeddedFiles` key; otherwise the literal strings of the first `[...]`
/// array at or after the first `/Names` key (or the buffer start when that key
/// is absent).
pub open spec fn embedded_files_spec(s: Seq<u8>) -> Seq<Seq<u8>> {
    if !scan::contains_pat(s, tokens::embedded_files_pat()) {
        Seq::empty()
    } else {
        let ns = match scan::find_idx(s, tokens::names_kw_pat(), 0) {
            Some(p) => p,
            None => 0,
        };
        match scan::find_idx(s, tokens::lbracket_pat(), ns) {
            None => Seq::empty(),
            Some(a) => match scan::find_idx(s, tokens::rbracket_pat(), a) {
                None => Seq::empty(),
                Some(e) => parse_names(s.subrange(a + 1, e), 0, false, Seq::empty(), Seq::empty()),
            },
        }
    }
}

/// Names already collected stay collected, and only non-empty names are ever
/// added: the guard on the closing parenthesis drops empty captures.
proof fn lemma_parse_names_non_empty(c: Seq<u8>, i: int, in_str: bool, cur: Seq<u8>, acc: Seq<Seq<u8>>)
    requires
        forall|k: int| 0 <= k < acc.len() ==> acc[k].len() > 0,
    ensures
        forall|k: int|
            0 <= k < parse_names(c, i, in_str, cur, acc).len() ==> parse_names(
                c,
                i,
                in_str,
                cur,
                acc,
            )[k].len() > 0,
    decreases c.len() - i,
{
    if i < 0 || i >= c.len() {
    } else if c[i] == '(' as u8 {
        lemma_parse_names_non_empty(c, i + 1, true, Seq::empty(), acc);
        assert(parse_names(c, i, in_str, cur, acc) == parse_names(c, i + 1, true, Seq::empty(), acc));
    } else if c[i] == ')' as u8 {
        let acc2 = if in_str && cur.len() > 0 {
            acc.push(cur)
        } else {
            acc
        };
        assert forall|k: int| 0 <= k < acc2.len() implies acc2[k].len() > 0 by {
            if k < acc.len() {
                assert(acc2[k] == acc[k]);
            }
        }
        lemma_parse_names_non_empty(c, i + 1, false, cur, acc2);
        assert(parse_names(c, i, in_str, cur, acc) == parse_names(c, i + 1, false, cur, acc2));
    } else {
        let cur2 = if in_str {
            cur.push(c[i])
        } else {
            cur
        };
        lemma_parse_names_non_empty(c, i + 1, in_str, cur2, acc);
        assert(parse_names(c, i, in_str, cur, acc) == parse_names(c, i + 1, in_str, cur2, acc));
    }
}

/// Every surfaced embedded-file name is non-empty: a malformed or empty name
/// is dropped during traversal, never returned as an entry.
pub proof fn lemma_embedded_names_non_empty(s: Seq<u8>)
    ensures
        forall|k: int|
            0 <= k < embedded_files_spec(s).len() ==> embedded_files_spec(s)[k].len() > 0,
{
    if scan::contains_pat(s, tokens::embedded_files_pat()) {
        let ns = match scan::find_idx(s, tokens::names_kw_pat(), 0) {
            Some(p) => p,
            None => 0,
        };
        match scan::find_idx(s, tokens::lbracket_pat(), ns) {
            None => {},
            Some(a) => match scan::find_idx(s, tokens::rbracket_pat(), a) {
                None => {},
                Some(e) => {
                    lemma_parse_names_non_empty(
                        s.subrange(a + 1, e),
                        0,
                        false,
                        Seq::empty(),
                        Seq::empty(),
                    );
                },
            },
        }
    }
}

/// The sequence of byte views of a sequence of byte vectors.
pub open spec fn names_view(v: Seq<Vec<u8>>) -> Seq<Seq<u8>> {
    Seq::new(v.len(), |i: int| v[i]@)
}

/// Extracts embedded files from PDF documents.
pub struct EmbeddedFilesExtractor;

impl EmbeddedFilesExtractor {
    /// Finds the PDF catalog dictionary, or nothing when no `/Type /Catalog`
    /// marker exists or no balanced dictionary follows the backward-located
    /// `obj` token.
    pub fn find_catalog(pdf_bytes: &[u8]) -> (r: Option<Vec<u8>>)
        ensures
            match find_catalog_spec(pdf_bytes@) {
                Some(region) => r matches Some(v) && v@ == region,
                None => r is None,
            },
    {
        let pat = tokens::catalog_vec();
        let cp = match PDFParser::find_pattern(pdf_bytes, pat.as_slice()) {
            Some(p) => p,
            None => {
                return None;
            },
        };
        let obj = tokens::obj_kw_vec();
        let mut j: usize = cp;
        while j > 2 && !scan::eq_at(pdf_bytes, obj.as_slice(), j)
            invariant
                j <= cp,
                obj@ == tokens::obj_kw_pat(),
                scan::match_at(pdf_bytes@, tokens::catalog_pat(), cp as int),
                back_obj(pdf_bytes@, cp as int) == back_obj(pdf_bytes@, j as int),
            decreases j,
        {
            j = j - 1;
        }
        proof {
            assert(back_obj(pdf_bytes@, j as int) == j as int);
        }
        PDFParser::extract_object(pdf_bytes, j)
    }

    /// Lists every embedded file name in the buffer, in document order.
    pub fn find_embedded_files(pdf_bytes: &[u8]) -> (r: Vec<Vec<u8>>)
        ensures
            names_view(r@) == embedded_files_spec(pdf_bytes@),
    {
        let ghost s = pdf_bytes@;
        let empty: Vec<Vec<u8>> = Vec::new();
        proof {
            assert(names_view(empty@) =~= Seq::<Seq<u8>>::empty());
        }
        if !scan::contains_bytes(pdf_bytes, tokens::embedded_files_vec().as_slice()) {
            return empty;
        }
        let ns = match scan::find_from(pdf_bytes, tokens::names_kw_vec().as_slice(), 0) {
            Some(p) => p,
            None => 0,
        };
        let a = match scan::find_from(pdf_bytes, tokens::lbracket_vec().as_slice(), ns) {
            Some(p) => p,
            None => {
                return empty;
            },
        };
        let e = match scan::find_from(pdf_bytes, tokens::rbracket_vec().as_slice(), a) {
            Some(p) => p,
            None => {
                return empty;
            },
        };
        proof {
            scan::lemma_find_idx_props(s, tokens::lbracket_pat(), ns as int);
            scan::lemma_find_idx_props(s, tokens::rbracket_pat(), a as int);
            assert(s.subrange(a as int, a + 1)[0] == s[a as int]);
            assert(s.subrange(e as int, e + 1)[0] == s[e as int]);
            assert(s[a as int] == '[' as u8 && s[e as int] == ']' as u8);
            assert(a < e);
        }
        let ghost content = s.subrange(a + 1, e as int);
        let mut in_str: bool = false;
        let mut cur: Vec<u8> = Vec::new();
        let mut acc: Vec<Vec<u8>> = Vec::new();
        let mut i: usize = a + 1;
        while i < e
            invariant
                a + 1 <= i <= e,
                e < s.len(),
                s == pdf_bytes@,
                content == s.subrange(a + 1, e as int),
                parse_names(content, 0, false, Seq::empty(), Seq::empty()) == parse_names(
                    content,
                    i - (a + 1),
                    in_str,
                    cur@,
                    names_view(acc@),
                ),
            decreases e - i,
        {
            let ghost gi = i - (a + 1);
            let ghost gin = in_str;
            let ghost gcur = cur@;
            let ghost gacc = names_view(acc@);
            proof {
                assert(content[gi] == s[i as int]);
            }
            let lp = '(' as u8;
            let rp = ')' as u8;
            let b = pdf_bytes[i];
            if b == lp {
                in_str = true;
                cur = Vec::new();
            } else if b == rp {
                if in_str && cur.len() > 0 {
                    let ghost before = names_view(acc@);
                    let item = vstd::slice::slice_to_vec(cur.as_slice());
                    acc.push(item);
                    proof {
                        assert(names_view(acc@) =~= before.push(gcur));
                    }
                }
                in_str = false;
            } else {
                if in_str {
                    cur.push(b);
                }
            }
            i = i + 1;
            proof {
                assert(parse_names(content, gi, gin, gcur, gacc) == parse_names(
                    content,
                    i - (a + 1),
                    in_str,
                    cur@,
                    names_view(acc@),
                ));
            }
        }
        acc
    }
}

} // verus!
