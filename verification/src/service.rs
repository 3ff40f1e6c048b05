//! The extraction pipeline: one call that validates conformance, gates on the
//! catalog, lists the embedded file names, selects the XML attachment and
//! recovers its stream content — or ends with a specific error. Linear stages,
//! no stage re-entered, no retries.

use vstd::prelude::*;

use crate::ascii;
use crate::errors::PDFError;
use crate::extractor;
use crate::extractor::EmbeddedFilesExtractor;
use crate::models::ExtractedInvoice;
use crate::streams;
use crate::validator;
use crate::validator::PDFA3Validator;

verus! {

/// The index of the first name that equals the canonical attachment filename,
/// compared without regard to ASCII case.
pub open spec fn first_canonical_from(names: Seq<Seq<u8>>, i: int) -> Option<int>
    decreases names.len() - i,
{
    if i < 0 || i >= names.len() {
        None
    } else if ascii::is_canonical_name(names[i]) {
        Some(i)
    } else {
        first_canonical_from(names, i + 1)
    }
}

/// The index of the first name ending in ".xml", compared without regard to
/// ASCII case.
pub open spec fn first_xml_from(names: Seq<Seq<u8>>, i: int) -> Option<int>
    decreases names.len() - i,
{
    if i < 0 || i >= names.len() {
        None
    } else if ascii::ends_with_xml_ci(names[i]) {
        Some(i)
    } else {
        first_xml_from(names, i + 1)
    }
}

/// The selected attachment entry: an exact case-insensitive match on the
/// canonical filename outranks any other ".xml"-suffixed name; remaining ties
/// resolve to the first name in document order.
pub open spec fn selected_idx(names: Seq<Seq<u8>>) -> Option<int> {
    match first_canonical_from(names, 0) {
        Some(k) => Some(k),
        None => first_xml_from(names, 0),
    }
}

/// Everything one extraction can end in.
pub enum ExtractOutcome {
    /// The buffer does not carry the PDF signature.
    InvalidInput,
    /// No PDF/A-3 marker occurs in the buffer.
    NotConformant,
    /// No catalog dictionary could be recovered.
    NoCatalog,
    /// No ".xml"-suffixed embedded name exists; carries all discovered names.
    NoEmbeddedXml(Seq<Seq<u8>>),
    /// No stream content classified as invoice XML; carries all names.
    ExtractionFailed(Seq<Seq<u8>>),
    /// The selected filename, the trimmed stream content, and whether the
    /// name is the canonical one.
    Extracted(Seq<u8>, Seq<u8>, bool),
}

/// What one extraction of `s` yields. The outcome is a function of the buffer
/// content alone: no state survives a call and nothing else is consulted.
pub open spec fn process_spec(s: Seq<u8>) -> ExtractOutcome {
    if !validator::has_pdf_signature(s) {
        ExtractOutcome::InvalidInput
    } else if !validator::has_conformance_marker(s) {
        ExtractOutcome::NotConformant
    } else if extractor::find_catalog_spec(s) is None {
        ExtractOutcome::NoCatalog
    } else {
        let names = extractor::embedded_files_spec(s);
        match selected_idx(names) {
            None => ExtractOutcome::NoEmbeddedXml(names),
            Some(k) => match streams::xml_content_spec(s) {
                None => ExtractOutcome::ExtractionFailed(names),
                Some(c) => ExtractOutcome::Extracted(
                    names[k],
                    c,
                    ascii::is_canonical_name(names[k]),
                ),
            },
        }
    }
}

/// Selects the attachment entry among `names`, canonical name first, then the
/// first ".xml"-suffixed name.
fn select_xml_entry(names: &Vec<Vec<u8>>) -> (r: Option<usize>)
    ensures
        match selected_idx(extractor::names_view(names@)) {
            Some(k) => r matches Some(u) && u as int == k && u < names@.len(),
            None => r is None,
        },
{
    let ghost nv = extractor::names_view(names@);
    let n = names.len();
    let mut i: usize = 0;
    while i < n
        invariant
            i <= n,
            n == names@.len(),
            nv == extractor::names_view(names@),
            first_canonical_from(nv, 0) == first_canonical_from(nv, i as int),
        decreases n - i,
    {
        if ascii::name_is_canonical(names[i].as_slice()) {
            return Some(i);
        }
        i = i + 1;
    }
    let mut j: usize = 0;
    while j < n
        invariant
            j <= n,
            n == names@.len(),
            nv == extractor::names_view(names@),
            first_canonical_from(nv, 0) is None,
            first_xml_from(nv, 0) == first_xml_from(nv, j as int),
        decreases n - j,
    {
        if ascii::name_ends_with_xml(names[j].as_slice()) {
            return Some(j);
        }
        j = j + 1;
    }
    None
}

/// Main business logic for invoice processing.
pub struct ERechnungService;

impl ERechnungService {
    /// Processes a PDF buffer into its embedded invoice: conformance first,
    /// then the catalog gate, then name listing, selection and stream
    /// extraction; each stage either advances or ends the call with the
    /// specific error of `process_spec`.
    pub fn process_pdf(pdf_bytes: Vec<u8>) -> (r: Result<ExtractedInvoice, PDFError>)
        ensures
            match process_spec(pdf_bytes@) {
                ExtractOutcome::InvalidInput => r matches Err(PDFError::InvalidInput),
                ExtractOutcome::NotConformant => r matches Err(PDFError::NotConformant),
                ExtractOutcome::NoCatalog => r matches Err(PDFError::NoCatalog),
                ExtractOutcome::NoEmbeddedXml(ns) => r matches Err(PDFError::NoEmbeddedXml(v))
                    && extractor::names_view(v@) == ns,
                ExtractOutcome::ExtractionFailed(ns) => r matches Err(PDFError::ExtractionFailed(v))
                    && extractor::names_view(v@) == ns,
                ExtractOutcome::Extracted(name, content, canonical) => r matches Ok(inv)
                    && inv.filename@ == name && inv.xml_content@ == content
                    && inv.is_canonical_name == canonical,
            },
    {
        let bytes = pdf_bytes.as_slice();
        match PDFA3Validator::validate(bytes) {
            Err(e) => {
                return Err(e);
            },
            Ok(()) => {},
        }
        match EmbeddedFilesExtractor::find_catalog(bytes) {
            None => {
                return Err(PDFError::NoCatalog);
            },
            Some(_) => {},
        }
        let names = EmbeddedFilesExtractor::find_embedded_files(bytes);
        let k = match select_xml_entry(&names) {
            Some(k) => k,
            None => {
                return Err(PDFError::NoEmbeddedXml(names));
            },
        };
        let content = match EmbeddedFilesExtractor::extract_xml_content(bytes) {
            Some(c) => c,
            None => {
                return Err(PDFError::ExtractionFailed(names));
            },
        };
        let filename = vstd::slice::slice_to_vec(names[k].as_slice());
        let is_canonical = ascii::name_is_canonical(filename.as_slice());
        Ok(ExtractedInvoice { filename, xml_content: content, is_canonical_name: is_canonical })
    }
}

/// A buffer under five bytes, or one that does not begin with the PDF
/// signature, always yields `InvalidInput`.
pub proof fn lemma_unsigned_buffer_is_invalid(s: Seq<u8>)
    requires
        s.len() < 5 || !validator::has_pdf_signature(s),
    ensures
        process_spec(s) == ExtractOutcome::InvalidInput,
{
    if s.len() < 5 {
        assert(!validator::has_pdf_signature(s));
    }
}

/// A buffer with the signature but no PDF/A-3 marker always yields
/// `NotConformant`.
pub proof fn lemma_unmarked_buffer_is_not_conformant(s: Seq<u8>)
    requires
        validator::has_pdf_signature(s),
        !validator::has_conformance_marker(s),
    ensures
        process_spec(s) == ExtractOutcome::NotConformant,
{
}

/// A conformant buffer that passes the catalog gate and yields no embedded
/// names ends in `NoEmbeddedXml` with an empty listing.
pub proof fn lemma_no_names_is_no_embedded_xml(s: Seq<u8>)
    requires
        validator::has_pdf_signature(s),
        validator::has_conformance_marker(s),
        extractor::find_catalog_spec(s) is Some,
        extractor::embedded_files_spec(s).len() == 0,
    ensures
        process_spec(s) == ExtractOutcome::NoEmbeddedXml(Seq::<Seq<u8>>::empty()),
{
    let names = extractor::embedded_files_spec(s);
    assert(names =~= Seq::<Seq<u8>>::empty());
}

/// A conformant buffer that passes the catalog gate, carries exactly one
/// embedded name, ".xml"-suffixed, and whose streams yield invoice content,
/// succeeds with that name and that content.
pub proof fn lemma_single_xml_name_succeeds(s: Seq<u8>, name: Seq<u8>, content: Seq<u8>)
    requires
        validator::has_pdf_signature(s),
        validator::has_conformance_marker(s),
        extractor::find_catalog_spec(s) is Some,
        extractor::embedded_files_spec(s) == seq![name],
        ascii::ends_with_xml_ci(name),
        streams::xml_content_spec(s) == Some(content),
    ensures
        process_spec(s) == ExtractOutcome::Extracted(
            name,
            content,
            ascii::is_canonical_name(name),
        ),
{
    let names = extractor::embedded_files_spec(s);
    assert(names[0] == name);
    assert(names.len() == 1);
    if ascii::is_canonical_name(name) {
        assert(selected_idx(names) == Some(0int));
    } else {
        assert(first_canonical_from(names, 1) is None);
        assert(first_canonical_from(names, 0) is None);
        assert(first_xml_from(names, 0) == Some(0int));
    }
}

/// Repeated extraction of identical buffers yields identical outcomes: the
/// outcome is a function of the buffer content alone, so no call can differ
/// from another on the same bytes.
pub proof fn lemma_extraction_deterministic(s1: Seq<u8>, s2: Seq<u8>)
    requires
        s1 == s2,
    ensures
        process_spec(s1) == process_spec(s2),
{
}

} // verus!
