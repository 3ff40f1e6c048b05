//! The error taxonomy of the extraction pipeline: input-format errors,
//! structural-absence errors carrying the discovered names, and extraction
//! errors for streams that were located but unreadable.

use vstd::prelude::*;

verus! {

/// Why an extraction ended without an invoice.
#[derive(Debug, PartialEq, Eq)]
pub enum PDFError {
    /// The buffer does not begin with the PDF signature.
    InvalidInput,
    /// The buffer carries no PDF/A-3 identification marker.
    NotConformant,
    /// No catalog dictionary could be recovered.
    NoCatalog,
    /// No embedded file name ending in ".xml" was found; carries every name
    /// that was discovered.
    NoEmbeddedXml(Vec<Vec<u8>>),
    /// An XML attachment was named but no stream with invoice content could
    /// be read; carries every name that was discovered.
    ExtractionFailed(Vec<Vec<u8>>),
}

impl PDFError {
    /// A human-readable description of the error.
    pub fn message(&self) -> (r: String)
        ensures
            match self {
                PDFError::InvalidInput => r@ == "Not a valid PDF file"@,
                PDFError::NotConformant => r@ == "PDF is not in PDF/A-3 format"@,
                PDFError::NoCatalog => r@ == "No catalog object found"@,
                PDFError::NoEmbeddedXml(_) => r@ == "No embedded XML-file"@,
                PDFError::ExtractionFailed(_) => r@
                    == "XML file found but could not extract content"@,
            },
    {
        match self {
            PDFError::InvalidInput => "Not a valid PDF file".to_owned(),
            PDFError::NotConformant => "PDF is not in PDF/A-3 format".to_owned(),
            PDFError::NoCatalog => "No catalog object found".to_owned(),
            PDFError::NoEmbeddedXml(_) => "No embedded XML-file".to_owned(),
            PDFError::ExtractionFailed(_) => "XML file found but could not extract content".to_owned(),
        }
    }
}

} // verus!
