//! Tests of the whole extraction pipeline: each error with an input that
//! yields it, the success scenarios, idempotence, and case-insensitive
//! matching.

use extract_xml_rechnung::{ERechnungService, PDFError};

/// A small PDF/A-3 container with one embedded name and one stream region.
fn container(name: &str, stream_body: &str) -> Vec<u8> {
    let mut s = String::new();
    s.push_str("%PDF-1.7\n");
    s.push_str("<pdfaid:part>3</pdfaid:part>\n");
    s.push_str("1 0 obj\n<< /Type /Catalog /Names << /EmbeddedFiles << /Names [(");
    s.push_str(name);
    s.push_str(") 2 0 R] >> >> >>\nendobj\n");
    s.push_str("2 0 obj\n<< /Type /EmbeddedFile /Subtype /text#2Fxml >>\nstream\n");
    s.push_str(stream_body);
    s.push_str("\nendstream\nendobj\n");
    s.into_bytes()
}

const INVOICE_XML: &str =
    "<?xml version=\"1.0\"?><rsm:CrossIndustryInvoice></rsm:CrossIndustryInvoice>";

#[test]
fn test_scenario_canonical_name_succeeds() {
    let buffer = container("factur-x.xml", INVOICE_XML);
    let invoice = ERechnungService::process_pdf(buffer).expect("extraction expected");
    assert_eq!(invoice.filename, b"factur-x.xml".to_vec());
    assert_eq!(invoice.xml_content, INVOICE_XML.as_bytes().to_vec());
    assert!(invoice.is_canonical_name);
}

#[test]
fn test_scenario_plain_text_stream_fails_extraction() {
    let buffer = container("factur-x.xml", "Hello World");
    let err = ERechnungService::process_pdf(buffer).unwrap_err();
    assert_eq!(err, PDFError::ExtractionFailed(vec![b"factur-x.xml".to_vec()]));
}

#[test]
fn test_scenario_four_arbitrary_bytes_are_invalid() {
    let err = ERechnungService::process_pdf(vec![0x12, 0x34, 0x56, 0x78]).unwrap_err();
    assert_eq!(err, PDFError::InvalidInput);
}

#[test]
fn test_short_or_unsigned_buffers_are_invalid() {
    assert_eq!(ERechnungService::process_pdf(Vec::new()).unwrap_err(), PDFError::InvalidInput);
    assert_eq!(
        ERechnungService::process_pdf(b"%PDF".to_vec()).unwrap_err(),
        PDFError::InvalidInput
    );
    assert_eq!(
        ERechnungService::process_pdf(b"not a pdf at all".to_vec()).unwrap_err(),
        PDFError::InvalidInput
    );
}

#[test]
fn test_signature_without_marker_is_not_conformant() {
    let err = ERechnungService::process_pdf(b"%PDF-1.4 ordinary document".to_vec()).unwrap_err();
    assert_eq!(err, PDFError::NotConformant);
}

#[test]
fn test_conformant_buffer_without_catalog() {
    let err = ERechnungService::process_pdf(b"%PDF-1.7 PDF/A-3 but no catalog".to_vec())
        .unwrap_err();
    assert_eq!(err, PDFError::NoCatalog);
}

#[test]
fn test_conformant_buffer_without_names() {
    let data = b"%PDF-1.7\npdfaid:conformance\n1 0 obj\n<< /Type /Catalog >>\nendobj\n".to_vec();
    let err = ERechnungService::process_pdf(data).unwrap_err();
    assert_eq!(err, PDFError::NoEmbeddedXml(Vec::new()));
}

#[test]
fn test_names_without_xml_suffix() {
    let buffer = container("readme.txt", INVOICE_XML);
    let err = ERechnungService::process_pdf(buffer).unwrap_err();
    assert_eq!(err, PDFError::NoEmbeddedXml(vec![b"readme.txt".to_vec()]));
}

#[test]
fn test_repeated_calls_yield_identical_results() {
    let buffer = container("factur-x.xml", INVOICE_XML);
    let first = ERechnungService::process_pdf(buffer.clone());
    let second = ERechnungService::process_pdf(buffer);
    assert_eq!(first, second);

    let bad = b"%PDF-1.4 nothing".to_vec();
    let first_err = ERechnungService::process_pdf(bad.clone());
    let second_err = ERechnungService::process_pdf(bad);
    assert_eq!(first_err, second_err);
}

#[test]
fn test_canonical_name_matching_is_case_insensitive() {
    let buffer = container("FACTUR-X.XML", INVOICE_XML);
    let invoice = ERechnungService::process_pdf(buffer).expect("extraction expected");
    assert_eq!(invoice.filename, b"FACTUR-X.XML".to_vec());
    assert!(invoice.is_canonical_name);
}

#[test]
fn test_xml_suffix_matching_is_case_insensitive() {
    let buffer = container("Report.XML", INVOICE_XML);
    let invoice = ERechnungService::process_pdf(buffer).expect("extraction expected");
    assert_eq!(invoice.filename, b"Report.XML".to_vec());
    assert!(!invoice.is_canonical_name);
}

#[test]
fn test_canonical_name_outranks_other_xml_names() {
    let mut s = String::new();
    s.push_str("%PDF-1.7\n<pdfaid:part>3</pdfaid:part>\n");
    s.push_str("1 0 obj\n<< /Type /Catalog /Names << /EmbeddedFiles ");
    s.push_str("<< /Names [(other.xml) 2 0 R (factur-x.xml) 3 0 R] >> >> >>\nendobj\n");
    s.push_str("2 0 obj\n<< /Subtype /text#2Fxml >>\nstream\n");
    s.push_str(INVOICE_XML);
    s.push_str("\nendstream\nendobj\n");
    let invoice = ERechnungService::process_pdf(s.into_bytes()).expect("extraction expected");
    assert_eq!(invoice.filename, b"factur-x.xml".to_vec());
    assert!(invoice.is_canonical_name);
}

#[test]
fn test_pdf_error_display() {
    let error = PDFError::InvalidInput;
    assert_eq!(error.message(), "Not a valid PDF file");

    let error = PDFError::NotConformant;
    assert_eq!(error.message(), "PDF is not in PDF/A-3 format");

    let error = PDFError::NoEmbeddedXml(Vec::new());
    assert_eq!(error.message(), "No embedded XML-file");
}

#[test]
fn test_remaining_error_messages() {
    assert_eq!(PDFError::NoCatalog.message(), "No catalog object found");
    assert_eq!(
        PDFError::ExtractionFailed(Vec::new()).message(),
        "XML file found but could not extract content"
    );
}

#[test]
fn test_erechnung_service_with_invalid_data() {
    let invalid_data = vec![0x00, 0x01, 0x02, 0x03];
    let result = ERechnungService::process_pdf(invalid_data);

    assert!(result.is_err());
    let error = result.unwrap_err();
    assert_eq!(error.message(), "Not a valid PDF file");
}
