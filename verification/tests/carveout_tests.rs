//! Tests of the object-model-based extractor: documents are built and saved
//! with lopdf itself, so the decoded stream listing is checked against real
//! parser output, raw and filter-encoded alike.

use extract_xml_rechnung::carveout_xml_from_pdf;
use lopdf::{Dictionary, Document, Object, Stream};

fn saved(doc: &mut Document) -> Vec<u8> {
    let mut buffer: Vec<u8> = Vec::new();
    doc.save_to(&mut buffer).expect("document must save");
    buffer
}

#[test]
fn test_carveout_finds_raw_xml_stream() {
    let mut doc = Document::with_version("1.5");
    let xml = b"<?xml version=\"1.0\"?><Invoice/>".to_vec();
    doc.add_object(Object::Stream(Stream::new(Dictionary::new(), xml.clone())));
    let bytes = saved(&mut doc);
    let found = carveout_xml_from_pdf(&bytes).expect("document must parse");
    assert_eq!(found, vec![xml]);
}

#[test]
fn test_carveout_filters_non_xml_streams() {
    let mut doc = Document::with_version("1.5");
    doc.add_object(Object::Stream(Stream::new(Dictionary::new(), b"just bytes".to_vec())));
    let xml = b"<?xml version=\"1.0\"?><Invoice/>".to_vec();
    doc.add_object(Object::Stream(Stream::new(Dictionary::new(), xml.clone())));
    let bytes = saved(&mut doc);
    let found = carveout_xml_from_pdf(&bytes).expect("document must parse");
    assert_eq!(found, vec![xml]);
}

#[test]
fn test_carveout_decompresses_encoded_stream() {
    let mut doc = Document::with_version("1.5");
    let mut xml = String::from("<?xml version=\"1.0\"?><Invoice>");
    for _ in 0..64 {
        xml.push_str("<Line>repetitive invoice content</Line>");
    }
    xml.push_str("</Invoice>");
    let xml = xml.into_bytes();
    let mut stream = Stream::new(Dictionary::new(), xml.clone());
    stream.compress().expect("compression must succeed");
    assert!(stream.dict.get(b"Filter").is_ok(), "stream must be filter-encoded");
    doc.add_object(Object::Stream(stream));
    let bytes = saved(&mut doc);
    let found = carveout_xml_from_pdf(&bytes).expect("document must parse");
    assert_eq!(found, vec![xml]);
}

#[test]
fn test_carveout_rejects_unparsable_buffer() {
    assert_eq!(carveout_xml_from_pdf(b"not a pdf"), None);
}
