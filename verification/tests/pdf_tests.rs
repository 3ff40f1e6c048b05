//! Tests of the byte scanner, the validator, the locator and the classifier.

use extract_xml_rechnung::{EmbeddedFilesExtractor, PDFA3Validator, PDFParser};
use extract_xml_rechnung::is_xml_content;

#[test]
fn test_pdf_parser_find_pattern() {
    let data = b"Hello World";
    assert_eq!(PDFParser::find_pattern(data, b"World"), Some(6));
    assert_eq!(PDFParser::find_pattern(data, b"Rust"), None);
}

#[test]
fn test_validator_invalid_pdf() {
    let invalid = b"Not a PDF";
    assert!(PDFA3Validator::validate(invalid).is_err());
}

#[test]
fn test_embedded_files_extractor_empty() {
    let data = b"%PDF-1.7\nNo embedded files here";
    let files = EmbeddedFilesExtractor::find_embedded_files(data);
    assert!(files.is_empty());
}

#[test]
fn test_find_pattern_first_occurrence() {
    let data = b"abcabcabc";
    assert_eq!(PDFParser::find_pattern(data, b"abc"), Some(0));
    assert_eq!(PDFParser::find_pattern(data, b"cab"), Some(2));
    assert_eq!(PDFParser::find_pattern(data, b"abcabcabc"), Some(0));
    assert_eq!(PDFParser::find_pattern(data, b"abcabcabca"), None);
}

#[test]
fn test_extract_object_flat_dictionary() {
    let data = b"1 0 obj << /Type /Catalog >> endobj";
    let region = PDFParser::extract_object(data, 0).expect("dictionary expected");
    assert_eq!(region, b"<< /Type /Catalog >>".to_vec());
}

#[test]
fn test_extract_object_nested_dictionary() {
    let data = b"<< /A << /B 1 >> /C 2 >> trailing";
    let region = PDFParser::extract_object(data, 0).expect("dictionary expected");
    assert_eq!(region, b"<< /A << /B 1 >> /C 2 >>".to_vec());
}

#[test]
fn test_extract_object_absent_or_unbalanced() {
    assert_eq!(PDFParser::extract_object(b"no dictionary here", 0), None);
    assert_eq!(PDFParser::extract_object(b"<< /Unbalanced 1", 0), None);
    assert_eq!(PDFParser::extract_object(b"", 0), None);
}

#[test]
fn test_validate_accepts_each_marker() {
    assert!(PDFA3Validator::validate(b"%PDF-1.7 PDF/A-3").is_ok());
    assert!(PDFA3Validator::validate(b"%PDF-1.7 <pdfa:part>3</pdfa:part>").is_ok());
    assert!(PDFA3Validator::validate(b"%PDF-1.7 <pdfaid:part>3</pdfaid:part>").is_ok());
    assert!(PDFA3Validator::validate(b"%PDF-1.7 pdfaid:conformance=\"B\"").is_ok());
}

#[test]
fn test_validate_rejects_missing_marker() {
    let r = PDFA3Validator::validate(b"%PDF-1.4 plain document");
    assert!(r.is_err());
    assert_eq!(r.unwrap_err().message(), "PDF is not in PDF/A-3 format");
}

#[test]
fn test_validate_rejects_short_or_unsigned() {
    assert!(PDFA3Validator::validate(b"").is_err());
    assert!(PDFA3Validator::validate(b"%PDF").is_err());
    assert!(PDFA3Validator::validate(b"XPDF-1.7 PDF/A-3").is_err());
}

#[test]
fn test_find_catalog_recovers_dictionary() {
    let data = b"%PDF-1.7\n1 0 obj\n<< /Type /Catalog /Pages 2 0 R >>\nendobj\n";
    let region = EmbeddedFilesExtractor::find_catalog(data).expect("catalog expected");
    assert_eq!(region, b"<< /Type /Catalog /Pages 2 0 R >>".to_vec());
}

#[test]
fn test_find_catalog_absent() {
    assert_eq!(EmbeddedFilesExtractor::find_catalog(b"%PDF-1.7 no catalog"), None);
}

#[test]
fn test_find_embedded_files_lists_names_in_order() {
    let data = b"%PDF-1.7 /EmbeddedFiles /Names [(factur-x.xml) 2 0 R (report.txt) 3 0 R]";
    let files = EmbeddedFilesExtractor::find_embedded_files(data);
    assert_eq!(files, vec![b"factur-x.xml".to_vec(), b"report.txt".to_vec()]);
}

#[test]
fn test_find_embedded_files_drops_empty_names() {
    let data = b"%PDF-1.7 /EmbeddedFiles /Names [() (a.xml)]";
    let files = EmbeddedFilesExtractor::find_embedded_files(data);
    assert_eq!(files, vec![b"a.xml".to_vec()]);
}

#[test]
fn test_extract_xml_content_from_stream() {
    let data = b"%PDF-1.7\nstream\n  <?xml version=\"1.0\"?><Invoice/>  \nendstream\n";
    let content = EmbeddedFilesExtractor::extract_xml_content(data).expect("content expected");
    assert_eq!(content, b"<?xml version=\"1.0\"?><Invoice/>".to_vec());
}

#[test]
fn test_extract_xml_content_subtype_anchor_reaches_later_stream() {
    let data = b"%PDF-1.7\nstream\nbinary junk\nendstream\n<< /Subtype /text#2Fxml >>\nstream\n<rsm:CrossIndustryInvoice/>\nendstream\n";
    let content = EmbeddedFilesExtractor::extract_xml_content(data).expect("content expected");
    assert_eq!(content, b"<rsm:CrossIndustryInvoice/>".to_vec());
}

#[test]
fn test_extract_xml_content_none_without_xml() {
    assert_eq!(EmbeddedFilesExtractor::extract_xml_content(b"%PDF-1.7 nothing"), None);
    assert_eq!(
        EmbeddedFilesExtractor::extract_xml_content(b"stream\nHello World\nendstream"),
        None
    );
}

#[test]
fn test_is_xml_content_prefixes() {
    assert!(is_xml_content(b"<?xml version=\"1.0\"?>"));
    assert!(is_xml_content(b"   \n<?xml version=\"1.0\"?>"));
    assert!(is_xml_content(b"<rsm:CrossIndustryInvoice>"));
    assert!(is_xml_content(b"<ubl:Invoice>"));
    assert!(is_xml_content(b"<Invoice>"));
    assert!(is_xml_content(b"<rdf:RDF>"));
    assert!(!is_xml_content(b"Hello World"));
    assert!(!is_xml_content(b""));
    assert!(!is_xml_content(b"xml without bracket"));
}
