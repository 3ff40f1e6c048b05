//! PDF/A-3 conformance identification. Marker matching is a whole-buffer
//! substring search, not XML-schema-aware: a matching string anywhere in the
//! buffer counts. This permissiveness is kept deliberately for compatibility.

use vstd::prelude::*;

use crate::classifier;
use crate::errors::PDFError;
use crate::scan;
use crate::tokens;

verus! {

/// The buffer begins with the five signature bytes `%PDF-`.
pub open spec fn has_pdf_signature(s: Seq<u8>) -> bool {
    scan::match_at(s, tokens::sig_pat(), 0)
}

/// Some recognized PDF/A-3 identification marker occurs in the buffer: the
/// literal conformance string, an XMP part field equal to 3 in either spelling,
/// or an XMP conformance field.
pub open spec fn has_conformance_marker(s: Seq<u8>) -> bool {
    ||| scan::contains_pat(s, tokens::marker_pdfa3_pat())
    ||| scan::contains_pat(s, tokens::marker_part_a_pat())
    ||| scan::contains_pat(s, tokens::marker_part_b_pat())
    ||| scan::contains_pat(s, tokens::marker_conf_pat())
}

/// Validates PDF/A-3 format.
pub struct PDFA3Validator;

impl PDFA3Validator {
    /// Accepts exactly the buffers that carry the PDF signature and some
    /// PDF/A-3 marker; the error tells which of the two is missing.
    pub fn validate(pdf_bytes: &[u8]) -> (r: Result<(), PDFError>)
        ensures
            r is Ok <==> has_pdf_signature(pdf_bytes@) && has_conformance_marker(pdf_bytes@),
            r matches Err(PDFError::InvalidInput) <==> !has_pdf_signature(pdf_bytes@),
            r matches Err(PDFError::NotConformant) <==> has_pdf_signature(pdf_bytes@)
                && !has_conformance_marker(pdf_bytes@),
    {
        let sig = tokens::sig_vec();
        if !classifier::starts_with(pdf_bytes, sig.as_slice()) {
            return Err(PDFError::InvalidInput);
        }
        let is_pdfa3 = scan::contains_bytes(pdf_bytes, tokens::marker_pdfa3_vec().as_slice())
            || scan::contains_bytes(pdf_bytes, tokens::marker_part_a_vec().as_slice())
            || scan::contains_bytes(pdf_bytes, tokens::marker_part_b_vec().as_slice())
            || scan::contains_bytes(pdf_bytes, tokens::marker_conf_vec().as_slice());
        if !is_pdfa3 {
            return Err(PDFError::NotConformant);
        }
        Ok(())
    }
}

} // verus!
