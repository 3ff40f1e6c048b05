//! The data carried across the pipeline boundary: the extracted invoice and
//! the response shapes that the surrounding transport layer serializes.

use vstd::prelude::*;

verus! {

/// The terminal output of a successful extraction; ownership transfers to the
/// caller.
#[derive(Debug, PartialEq, Eq)]
pub struct ExtractedInvoice {
    /// The embedded file name that was selected.
    pub filename: Vec<u8>,
    /// The whitespace-trimmed bytes of the located stream.
    pub xml_content: Vec<u8>,
    /// Whether the selected name equals the canonical attachment filename,
    /// compared without regard to ASCII case.
    pub is_canonical_name: bool,
}

/// The error envelope of the transport layer: a status message and, when
/// names were discovered, their comma-joined listing.
#[derive(Debug)]
pub struct ErrorResponse {
    pub file_status: String,
    pub embedded_files: Option<String>,
}

/// The success envelope of the transport layer.
#[derive(Debug)]
pub struct SuccessResponse {
    pub file_status: String,
    pub embedded_files: String,
    pub xml_content: String,
    pub xml_filename: String,
}

} // verus!
