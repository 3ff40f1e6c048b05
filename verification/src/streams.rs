//! Stream content extraction: recovering the whitespace-trimmed bytes between
//! a `stream` keyword and the nearest following `endstream`, by three lookup
//! strategies — a bounded window around the canonical filename token, a scan
//! of every stream region in document order, and a subtype-marker anchor.

use vstd::prelude::*;

use crate::ascii;
use crate::classifier;
use crate::extractor::EmbeddedFilesExtractor;
use crate::scan;
use crate::tokens;

verus! {

/// Scanning from `pos`, the trimmed content of the first `stream...endstream`
/// region that classifies as invoice XML, skipping past regions that do not.
pub open spec fn scan_streams(s: Seq<u8>, pos: int) -> Option<Seq<u8>>
    decreases s.len() - pos,
    via scan_streams_dec
{
    if pos < 0 {
        None
    } else {
        match scan::find_idx(s, tokens::stream_kw_pat(), pos) {
            None => None,
            Some(p) => match scan::find_idx(s, tokens::endstream_kw_pat(), p + 6) {
                None => None,
                Some(e) => if classifier::is_xml_spec(s.subrange(p + 6, e)) {
                    Some(ascii::trim_spec(s.subrange(p + 6, e)))
                } else {
                    scan_streams(s, e)
                },
            },
        }
    }
}

#[via_fn]
proof fn scan_streams_dec(s: Seq<u8>, pos: int) {
    if pos >= 0 {
        match scan::find_idx(s, tokens::stream_kw_pat(), pos) {
            None => {},
            Some(p) => {
                scan::lemma_find_idx_props(s, tokens::stream_kw_pat(), pos);
                match scan::find_idx(s, tokens::endstream_kw_pat(), p + 6) {
                    None => {},
                    Some(e) => {
                        scan::lemma_find_idx_props(s, tokens::endstream_kw_pat(), p + 6);
                    },
                }
            },
        }
    }
}

/// The bounded-window strategy: around the first canonical filename token,
/// within 2000 bytes on either side, the first `stream` keyword opens the
/// region; its trimmed content is the result if it classifies as invoice XML.
pub open spec fn window_extract_spec(s: Seq<u8>) -> Option<Seq<u8>> {
    match scan::find_idx(s, tokens::canonical_name_pat(), 0) {
        None => None,
        Some(fp) => {
            let lo = if fp > 2000 {
                fp - 2000
            } else {
                0
            };
            let hi = if fp + 2000 < s.len() {
                fp + 2000
            } else {
                s.len() as int
            };
            match scan::find_idx(s.subrange(lo, hi), tokens::stream_kw_pat(), 0) {
                None => None,
                Some(q) => match scan::find_idx(s, tokens::endstream_kw_pat(), lo + q + 6) {
                    None => None,
                    Some(e) => if classifier::is_xml_spec(s.subrange(lo + q + 6, e)) {
                        Some(ascii::trim_spec(s.subrange(lo + q + 6, e)))
                    } else {
                        None
                    },
                },
            }
        },
    }
}

/// The position of the first XML subtype marker, trying the spaced form, the
/// compact form, then the plain media type.
pub open spec fn subtype_pos_spec(s: Seq<u8>) -> Option<int> {
    match scan::find_idx(s, tokens::subtype_a_pat(), 0) {
        Some(p) => Some(p),
        None => match scan::find_idx(s, tokens::subtype_b_pat(), 0) {
            Some(p) => Some(p),
            None => scan::find_idx(s, tokens::subtype_c_pat(), 0),
        },
    }
}

/// The subtype-driven strategy: from the first XML subtype marker, the first
/// following stream region, if its trimmed content classifies as invoice XML.
pub open spec fn subtype_extract_spec(s: Seq<u8>) -> Option<Seq<u8>> {
    match subtype_pos_spec(s) {
        None => None,
        Some(m) => match scan::find_idx(s, tokens::stream_kw_pat(), m) {
            None => None,
            Some(p) => match scan::find_idx(s, tokens::endstream_kw_pat(), p + 6) {
                None => None,
                Some(e) => if classifier::is_xml_spec(s.subrange(p + 6, e)) {
                    Some(ascii::trim_spec(s.subrange(p + 6, e)))
                } else {
                    None
                },
            },
        },
    }
}

/// The invoice XML content of the buffer, if any: the bounded-window strategy
/// first, then the whole-buffer stream scan, then the subtype anchor.
pub open spec fn xml_content_spec(s: Seq<u8>) -> Option<Seq<u8>> {
    match window_extract_spec(s) {
        Some(c) => Some(c),
        None => match scan_streams(s, 0) {
            Some(c) => Some(c),
            None => subtype_extract_spec(s),
        },
    }
}

/// The bounded-window strategy, executable.
fn window_candidate(bytes: &[u8]) -> (r: Option<Vec<u8>>)
    ensures
        match window_extract_spec(bytes@) {
            Some(c) => r matches Some(v) && v@ == c,
            None => r is None,
        },
{
    let ghost s = bytes@;
    let canon = tokens::canonical_name_vec();
    let fp = match scan::find_from(bytes, canon.as_slice(), 0) {
        Some(p) => p,
        None => {
            return None;
        },
    };
    proof {
        scan::lemma_find_idx_props(s, tokens::canonical_name_pat(), 0);
    }
    let len = bytes.len();
    let lo = if fp > 2000 {
        fp - 2000
    } else {
        0
    };
    let hi = if len - fp > 2000 {
        fp + 2000
    } else {
        len
    };
    let window = &bytes[lo..hi];
    let q = match scan::find_from(window, tokens::stream_kw_vec().as_slice(), 0) {
        Some(q) => q,
        None => {
            return None;
        },
    };
    proof {
        scan::lemma_find_idx_props(s.subrange(lo as int, hi as int), tokens::stream_kw_pat(), 0);
    }
    let p = lo + q;
    let es = match scan::find_from(bytes, tokens::endstream_kw_vec().as_slice(), p + 6) {
        Some(e) => e,
        None => {
            return None;
        },
    };
    proof {
        scan::lemma_find_idx_props(s, tokens::endstream_kw_pat(), p + 6);
    }
    if classifier::is_xml_content(&bytes[p + 6..es]) {
        Some(ascii::trim_range(bytes, p + 6, es))
    } else {
        None
    }
}

/// The whole-buffer stream scan, executable.
fn scan_candidate(bytes: &[u8]) -> (r: Option<Vec<u8>>)
    ensures
        match scan_streams(bytes@, 0) {
            Some(c) => r matches Some(v) && v@ == c,
            None => r is None,
        },
{
    let ghost s = bytes@;
    let blen = bytes.len();
    let stream_kw = tokens::stream_kw_vec();
    let endstream_kw = tokens::endstream_kw_vec();
    let mut pos: usize = 0;
    loop
        invariant
            pos <= s.len(),
            s == bytes@,
            blen == s.len(),
            stream_kw@ == tokens::stream_kw_pat(),
            endstream_kw@ == tokens::endstream_kw_pat(),
            scan_streams(s, 0) == scan_streams(s, pos as int),
        decreases s.len() - pos,
    {
        let p = match scan::find_from(bytes, stream_kw.as_slice(), pos) {
            Some(p) => p,
            None => {
                return None;
            },
        };
        proof {
            scan::lemma_find_idx_props(s, tokens::stream_kw_pat(), pos as int);
            assert(p + 6 <= blen);
        }
        let es = match scan::find_from(bytes, endstream_kw.as_slice(), p + 6) {
            Some(e) => e,
            None => {
                return None;
            },
        };
        proof {
            scan::lemma_find_idx_props(s, tokens::endstream_kw_pat(), p + 6);
        }
        if classifier::is_xml_content(&bytes[p + 6..es]) {
            return Some(ascii::trim_range(bytes, p + 6, es));
        }
        pos = es;
    }
}

/// The subtype-driven strategy, executable.
fn subtype_candidate(bytes: &[u8]) -> (r: Option<Vec<u8>>)
    ensures
        match subtype_extract_spec(bytes@) {
            Some(c) => r matches Some(v) && v@ == c,
            None => r is None,
        },
{
    let ghost s = bytes@;
    let m = match scan::find_from(bytes, tokens::subtype_a_vec().as_slice(), 0) {
        Some(p) => p,
        None => {
            match scan::find_from(bytes, tokens::subtype_b_vec().as_slice(), 0) {
                Some(p) => p,
                None => {
                    match scan::find_from(bytes, tokens::subtype_c_vec().as_slice(), 0) {
                        Some(p) => p,
                        None => {
                            return None;
                        },
                    }
                },
            }
        },
    };
    let blen = bytes.len();
    let p = match scan::find_from(bytes, tokens::stream_kw_vec().as_slice(), m) {
        Some(p) => p,
        None => {
            return None;
        },
    };
    proof {
        scan::lemma_find_idx_props(s, tokens::stream_kw_pat(), m as int);
        assert(p + 6 <= blen);
    }
    let es = match scan::find_from(bytes, tokens::endstream_kw_vec().as_slice(), p + 6) {
        Some(e) => e,
        None => {
            return None;
        },
    };
    proof {
        scan::lemma_find_idx_props(s, tokens::endstream_kw_pat(), p + 6);
    }
    if classifier::is_xml_content(&bytes[p + 6..es]) {
        Some(ascii::trim_range(bytes, p + 6, es))
    } else {
        None
    }
}

impl EmbeddedFilesExtractor {
    /// Extracts the invoice XML content of the buffer, trying the bounded
    /// window around the canonical filename, then every stream region in
    /// document order, then the subtype anchor; nothing if no stream content
    /// classifies as invoice XML.
    pub fn extract_xml_content(pdf_bytes: &[u8]) -> (r: Option<Vec<u8>>)
        ensures
            match xml_content_spec(pdf_bytes@) {
                Some(c) => r matches Some(v) && v@ == c,
                None => r is None,
            },
    {
        match window_candidate(pdf_bytes) {
            Some(v) => Some(v),
            None => match scan_candidate(pdf_bytes) {
                Some(v) => Some(v),
                None => subtype_candidate(pdf_bytes),
            },
        }
    }
}

} // verus!
