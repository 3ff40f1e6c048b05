//! Content classification: whether decoded bytes look like invoice XML.

use vstd::prelude::*;

use crate::ascii;
use crate::scan;
use crate::tokens;

verus! {

/// After trimming, the content starts with an XML declaration or with a known
/// invoice root-element prefix.
pub open spec fn is_xml_spec(content: Seq<u8>) -> bool {
    let t = ascii::trim_spec(content);
    ||| scan::match_at(t, tokens::xml_decl_pat(), 0)
    ||| scan::match_at(t, tokens::root_rsm_pat(), 0)
    ||| scan::match_at(t, tokens::root_ubl_pat(), 0)
    ||| scan::match_at(t, tokens::root_invoice_pat(), 0)
    ||| scan::match_at(t, tokens::root_rdf_pat(), 0)
}

/// `s` starts with `pat`.
pub(crate) fn starts_with(s: &[u8], pat: &[u8]) -> (r: bool)
    ensures
        r == scan::match_at(s@, pat@, 0),
{
    if pat.len() > s.len() {
        return false;
    }
    scan::eq_at(s, pat, 0)
}

/// Decides whether `content` is invoice XML: after trimming whitespace it must
/// start with an XML declaration or a known invoice root-element prefix.
pub fn is_xml_content(content: &[u8]) -> (r: bool)
    ensures
        r == is_xml_spec(content@),
{
    let t = ascii::trim_range(content, 0, content.len());
    proof {
        assert(content@.subrange(0, content@.len() as int) =~= content@);
    }
    let ts = t.as_slice();
    starts_with(ts, tokens::xml_decl_vec().as_slice()) || starts_with(
        ts,
        tokens::root_rsm_vec().as_slice(),
    ) || starts_with(ts, tokens::root_ubl_vec().as_slice()) || starts_with(
        ts,
        tokens::root_invoice_vec().as_slice(),
    ) || starts_with(ts, tokens::root_rdf_vec().as_slice())
}

} // verus!
