//! The byte tokens that the scanner, the validator and the locator look for,
//! each as a specification-level sequence beside the executable bytes.

use vstd::prelude::*;

verus! {

/// `"%PDF-"`: the PDF file signature.
pub open spec fn sig_pat() -> Seq<u8> {
    seq!['%' as u8, 'P' as u8, 'D' as u8, 'F' as u8, '-' as u8]
}

pub(crate) fn sig_vec() -> (r: Vec<u8>)
    ensures
        r@ == sig_pat(),
{
    let r: Vec<u8> = vec!['%' as u8, 'P' as u8, 'D' as u8, 'F' as u8, '-' as u8];
    proof {
        assert(r@ =~= sig_pat());
    }
    r
}

/// `"PDF/A-3"`: literal conformance marker.
pub open spec fn marker_pdfa3_pat() -> Seq<u8> {
    seq!['P' as u8, 'D' as u8, 'F' as u8, '/' as u8, 'A' as u8, '-' as u8, '3' as u8]
}

pub(crate) fn marker_pdfa3_vec() -> (r: Vec<u8>)
    ensures
        r@ == marker_pdfa3_pat(),
{
    let r: Vec<u8> = vec!['P' as u8, 'D' as u8, 'F' as u8, '/' as u8, 'A' as u8, '-' as u8, '3' as u8];
    proof {
        assert(r@ =~= marker_pdfa3_pat());
    }
    r
}

/// `"pdfa:part>3"`: XMP part field, short form.
pub open spec fn marker_part_a_pat() -> Seq<u8> {
    seq!['p' as u8, 'd' as u8, 'f' as u8, 'a' as u8, ':' as u8, 'p' as u8, 'a' as u8, 'r' as u8, 't' as u8, '>' as u8, '3' as u8]
}

pub(crate) fn marker_part_a_vec() -> (r: Vec<u8>)
    ensures
        r@ == marker_part_a_pat(),
{
    let r: Vec<u8> = vec!['p' as u8, 'd' as u8, 'f' as u8, 'a' as u8, ':' as u8, 'p' as u8, 'a' as u8, 'r' as u8, 't' as u8, '>' as u8, '3' as u8];
    proof {
        assert(r@ =~= marker_part_a_pat());
    }
    r
}

/// `"pdfaid:part>3"`: XMP part field.
pub open spec fn marker_part_b_pat() -> Seq<u8> {
    seq!['p' as u8, 'd' as u8, 'f' as u8, 'a' as u8, 'i' as u8, 'd' as u8, ':' as u8, 'p' as u8, 'a' as u8, 'r' as u8, 't' as u8, '>' as u8, '3' as u8]
}

pub(crate) fn marker_part_b_vec() -> (r: Vec<u8>)
    ensures
        r@ == marker_part_b_pat(),
{
    let r: Vec<u8> = vec!['p' as u8, 'd' as u8, 'f' as u8, 'a' as u8, 'i' as u8, 'd' as u8, ':' as u8, 'p' as u8, 'a' as u8, 'r' as u8, 't' as u8, '>' as u8, '3' as u8];
    proof {
        assert(r@ =~= marker_part_b_pat());
    }
    r
}

/// `"pdfaid:conformance"`: XMP conformance field.
pub open spec fn marker_conf_pat() -> Seq<u8> {
    seq!['p' as u8, 'd' as u8, 'f' as u8, 'a' as u8, 'i' as u8, 'd' as u8, ':' as u8, 'c' as u8, 'o' as u8, 'n' as u8, 'f' as u8, 'o' as u8, 'r' as u8, 'm' as u8, 'a' as u8, 'n' as u8, 'c' as u8, 'e' as u8]
}

pub(crate) fn marker_conf_vec() -> (r: Vec<u8>)
    ensures
        r@ == marker_conf_pat(),
{
    let r: Vec<u8> = vec!['p' as u8, 'd' as u8, 'f' as u8, 'a' as u8, 'i' as u8, 'd' as u8, ':' as u8, 'c' as u8, 'o' as u8, 'n' as u8, 'f' as u8, 'o' as u8, 'r' as u8, 'm' as u8, 'a' as u8, 'n' as u8, 'c' as u8, 'e' as u8];
    proof {
        assert(r@ =~= marker_conf_pat());
    }
    r
}

/// `"/Type /Catalog"`: the catalog dictionary marker.
pub open spec fn catalog_pat() -> Seq<u8> {
    seq!['/' as u8, 'T' as u8, 'y' as u8, 'p' as u8, 'e' as u8, ' ' as u8, '/' as u8, 'C' as u8, 'a' as u8, 't' as u8, 'a' as u8, 'l' as u8, 'o' as u8, 'g' as u8]
}

pub(crate) fn catalog_vec() -> (r: Vec<u8>)
    ensures
        r@ == catalog_pat(),
{
    let r: Vec<u8> = vec!['/' as u8, 'T' as u8, 'y' as u8, 'p' as u8, 'e' as u8, ' ' as u8, '/' as u8, 'C' as u8, 'a' as u8, 't' as u8, 'a' as u8, 'l' as u8, 'o' as u8, 'g' as u8];
    proof {
        assert(r@ =~= catalog_pat());
    }
    r
}

/// `"obj"`: the object keyword.
pub open spec fn obj_kw_pat() -> Seq<u8> {
    seq!['o' as u8, 'b' as u8, 'j' as u8]
}

pub(crate) fn obj_kw_vec() -> (r: Vec<u8>)
    ensures
        r@ == obj_kw_pat(),
{
    let r: Vec<u8> = vec!['o' as u8, 'b' as u8, 'j' as u8];
    proof {
        assert(r@ =~= obj_kw_pat());
    }
    r
}

/// `"/EmbeddedFiles"`: the embedded-file name tree key.
pub open spec fn embedded_files_pat() -> Seq<u8> {
    seq!['/' as u8, 'E' as u8, 'm' as u8, 'b' as u8, 'e' as u8, 'd' as u8, 'd' as u8, 'e' as u8, 'd' as u8, 'F' as u8, 'i' as u8, 'l' as u8, 'e' as u8, 's' as u8]
}

pub(crate) fn embedded_files_vec() -> (r: Vec<u8>)
    ensures
        r@ == embedded_files_pat(),
{
    let r: Vec<u8> = vec!['/' as u8, 'E' as u8, 'm' as u8, 'b' as u8, 'e' as u8, 'd' as u8, 'd' as u8, 'e' as u8, 'd' as u8, 'F' as u8, 'i' as u8, 'l' as u8, 'e' as u8, 's' as u8];
    proof {
        assert(r@ =~= embedded_files_pat());
    }
    r
}

/// `"/Names"`: the names-array key.
pub open spec fn names_kw_pat() -> Seq<u8> {
    seq!['/' as u8, 'N' as u8, 'a' as u8, 'm' as u8, 'e' as u8, 's' as u8]
}

pub(crate) fn names_kw_vec() -> (r: Vec<u8>)
    ensures
        r@ == names_kw_pat(),
{
    let r: Vec<u8> = vec!['/' as u8, 'N' as u8, 'a' as u8, 'm' as u8, 'e' as u8, 's' as u8];
    proof {
        assert(r@ =~= names_kw_pat());
    }
    r
}

/// `"stream"`: the stream keyword.
pub open spec fn stream_kw_pat() -> Seq<u8> {
    seq!['s' as u8, 't' as u8, 'r' as u8, 'e' as u8, 'a' as u8, 'm' as u8]
}

pub(crate) fn stream_kw_vec() -> (r: Vec<u8>)
    ensures
        r@ == stream_kw_pat(),
{
    let r: Vec<u8> = vec!['s' as u8, 't' as u8, 'r' as u8, 'e' as u8, 'a' as u8, 'm' as u8];
    proof {
        assert(r@ =~= stream_kw_pat());
    }
    r
}

/// `"endstream"`: the endstream keyword.
pub open spec fn endstream_kw_pat() -> Seq<u8> {
    seq!['e' as u8, 'n' as u8, 'd' as u8, 's' as u8, 't' as u8, 'r' as u8, 'e' as u8, 'a' as u8, 'm' as u8]
}

pub(crate) fn endstream_kw_vec() -> (r: Vec<u8>)
    ensures
        r@ == endstream_kw_pat(),
{
    let r: Vec<u8> = vec!['e' as u8, 'n' as u8, 'd' as u8, 's' as u8, 't' as u8, 'r' as u8, 'e' as u8, 'a' as u8, 'm' as u8];
    proof {
        assert(r@ =~= endstream_kw_pat());
    }
    r
}

/// `"/Subtype /text#2Fxml"`: XML subtype marker, spaced form.
pub open spec fn subtype_a_pat() -> Seq<u8> {
    seq!['/' as u8, 'S' as u8, 'u' as u8, 'b' as u8, 't' as u8, 'y' as u8, 'p' as u8, 'e' as u8, ' ' as u8, '/' as u8, 't' as u8, 'e' as u8, 'x' as u8, 't' as u8, '#' as u8, '2' as u8, 'F' as u8, 'x' as u8, 'm' as u8, 'l' as u8]
}

pub(crate) fn subtype_a_vec() -> (r: Vec<u8>)
    ensures
        r@ == subtype_a_pat(),
{
    let r: Vec<u8> = vec!['/' as u8, 'S' as u8, 'u' as u8, 'b' as u8, 't' as u8, 'y' as u8, 'p' as u8, 'e' as u8, ' ' as u8, '/' as u8, 't' as u8, 'e' as u8, 'x' as u8, 't' as u8, '#' as u8, '2' as u8, 'F' as u8, 'x' as u8, 'm' as u8, 'l' as u8];
    proof {
        assert(r@ =~= subtype_a_pat());
    }
    r
}

/// `"/Subtype/text#2Fxml"`: XML subtype marker, compact form.
pub open spec fn subtype_b_pat() -> Seq<u8> {
    seq!['/' as u8, 'S' as u8, 'u' as u8, 'b' as u8, 't' as u8, 'y' as u8, 'p' as u8, 'e' as u8, '/' as u8, 't' as u8, 'e' as u8, 'x' as u8, 't' as u8, '#' as u8, '2' as u8, 'F' as u8, 'x' as u8, 'm' as u8, 'l' as u8]
}

pub(crate) fn subtype_b_vec() -> (r: Vec<u8>)
    ensures
        r@ == subtype_b_pat(),
{
    let r: Vec<u8> = vec!['/' as u8, 'S' as u8, 'u' as u8, 'b' as u8, 't' as u8, 'y' as u8, 'p' as u8, 'e' as u8, '/' as u8, 't' as u8, 'e' as u8, 'x' as u8, 't' as u8, '#' as u8, '2' as u8, 'F' as u8, 'x' as u8, 'm' as u8, 'l' as u8];
    proof {
        assert(r@ =~= subtype_b_pat());
    }
    r
}

/// `"text/xml"`: plain XML media type.
pub open spec fn subtype_c_pat() -> Seq<u8> {
    seq!['t' as u8, 'e' as u8, 'x' as u8, 't' as u8, '/' as u8, 'x' as u8, 'm' as u8, 'l' as u8]
}

pub(crate) fn subtype_c_vec() -> (r: Vec<u8>)
    ensures
        r@ == subtype_c_pat(),
{
    let r: Vec<u8> = vec!['t' as u8, 'e' as u8, 'x' as u8, 't' as u8, '/' as u8, 'x' as u8, 'm' as u8, 'l' as u8];
    proof {
        assert(r@ =~= subtype_c_pat());
    }
    r
}

/// `"factur-x.xml"`: the canonical attachment filename.
pub open spec fn canonical_name_pat() -> Seq<u8> {
    seq!['f' as u8, 'a' as u8, 'c' as u8, 't' as u8, 'u' as u8, 'r' as u8, '-' as u8, 'x' as u8, '.' as u8, 'x' as u8, 'm' as u8, 'l' as u8]
}

pub(crate) fn canonical_name_vec() -> (r: Vec<u8>)
    ensures
        r@ == canonical_name_pat(),
{
    let r: Vec<u8> = vec!['f' as u8, 'a' as u8, 'c' as u8, 't' as u8, 'u' as u8, 'r' as u8, '-' as u8, 'x' as u8, '.' as u8, 'x' as u8, 'm' as u8, 'l' as u8];
    proof {
        assert(r@ =~= canonical_name_pat());
    }
    r
}

/// `".xml"`: the XML filename suffix, lower case.
pub open spec fn xml_suffix_pat() -> Seq<u8> {
    seq!['.' as u8, 'x' as u8, 'm' as u8, 'l' as u8]
}

pub(crate) fn xml_suffix_vec() -> (r: Vec<u8>)
    ensures
        r@ == xml_suffix_pat(),
{
    let r: Vec<u8> = vec!['.' as u8, 'x' as u8, 'm' as u8, 'l' as u8];
    proof {
        assert(r@ =~= xml_suffix_pat());
    }
    r
}

/// `"<?xml"`: an XML declaration.
pub open spec fn xml_decl_pat() -> Seq<u8> {
    seq!['<' as u8, '?' as u8, 'x' as u8, 'm' as u8, 'l' as u8]
}

pub(crate) fn xml_decl_vec() -> (r: Vec<u8>)
    ensures
        r@ == xml_decl_pat(),
{
    let r: Vec<u8> = vec!['<' as u8, '?' as u8, 'x' as u8, 'm' as u8, 'l' as u8];
    proof {
        assert(r@ =~= xml_decl_pat());
    }
    r
}

/// `"<rsm:"`: a CrossIndustryInvoice root prefix.
pub open spec fn root_rsm_pat() -> Seq<u8> {
    seq!['<' as u8, 'r' as u8, 's' as u8, 'm' as u8, ':' as u8]
}

pub(crate) fn root_rsm_vec() -> (r: Vec<u8>)
    ensures
        r@ == root_rsm_pat(),
{
    let r: Vec<u8> = vec!['<' as u8, 'r' as u8, 's' as u8, 'm' as u8, ':' as u8];
    proof {
        assert(r@ =~= root_rsm_pat());
    }
    r
}

/// `"<ubl:"`: a UBL invoice root prefix.
pub open spec fn root_ubl_pat() -> Seq<u8> {
    seq!['<' as u8, 'u' as u8, 'b' as u8, 'l' as u8, ':' as u8]
}

pub(crate) fn root_ubl_vec() -> (r: Vec<u8>)
    ensures
        r@ == root_ubl_pat(),
{
    let r: Vec<u8> = vec!['<' as u8, 'u' as u8, 'b' as u8, 'l' as u8, ':' as u8];
    proof {
        assert(r@ =~= root_ubl_pat());
    }
    r
}

/// `"<Invoice"`: a bare invoice root prefix.
pub open spec fn root_invoice_pat() -> Seq<u8> {
    seq!['<' as u8, 'I' as u8, 'n' as u8, 'v' as u8, 'o' as u8, 'i' as u8, 'c' as u8, 'e' as u8]
}

pub(crate) fn root_invoice_vec() -> (r: Vec<u8>)
    ensures
        r@ == root_invoice_pat(),
{
    let r: Vec<u8> = vec!['<' as u8, 'I' as u8, 'n' as u8, 'v' as u8, 'o' as u8, 'i' as u8, 'c' as u8, 'e' as u8];
    proof {
        assert(r@ =~= root_invoice_pat());
    }
    r
}

/// `"<rdf:RDF"`: an RDF metadata root prefix.
pub open spec fn root_rdf_pat() -> Seq<u8> {
    seq!['<' as u8, 'r' as u8, 'd' as u8, 'f' as u8, ':' as u8, 'R' as u8, 'D' as u8, 'F' as u8]
}

pub(crate) fn root_rdf_vec() -> (r: Vec<u8>)
    ensures
        r@ == root_rdf_pat(),
{
    let r: Vec<u8> = vec!['<' as u8, 'r' as u8, 'd' as u8, 'f' as u8, ':' as u8, 'R' as u8, 'D' as u8, 'F' as u8];
    proof {
        assert(r@ =~= root_rdf_pat());
    }
    r
}

/// `"["`: the array opener.
pub open spec fn lbracket_pat() -> Seq<u8> {
    seq!['[' as u8]
}

pub(crate) fn lbracket_vec() -> (r: Vec<u8>)
    ensures
        r@ == lbracket_pat(),
{
    let r: Vec<u8> = vec!['[' as u8];
    proof {
        assert(r@ =~= lbracket_pat());
    }
    r
}

/// `"]"`: the array closer.
pub open spec fn rbracket_pat() -> Seq<u8> {
    seq![']' as u8]
}

pub(crate) fn rbracket_vec() -> (r: Vec<u8>)
    ensures
        r@ == rbracket_pat(),
{
    let r: Vec<u8> = vec![']' as u8];
    proof {
        assert(r@ =~= rbracket_pat());
    }
    r
}
} // verus!
