//! Extraction of machine-readable invoice XML (Factur-X / ZUGFeRD) embedded
//! in a PDF/A-3 container.
//!
//! The core is a structural byte scanner: a conformance validator, an
//! embedded-file locator and a stream content extractor that together recover
//! the raw XML payload from a byte buffer without building a full PDF object
//! model. An object-model-based alternative backed by `lopdf` stands beside
//! it behind a contract of the same shape.

pub mod ascii;
pub mod carveout;
pub mod classifier;
pub mod errors;
pub mod extractor;
pub mod models;
pub mod parser;
pub mod scan;
pub mod service;
pub mod streams;
pub mod tokens;
pub mod validator;

pub use carveout::carveout_xml_from_pdf;
pub use classifier::is_xml_content;
pub use errors::PDFError;
pub use extractor::EmbeddedFilesExtractor;
pub use models::ErrorResponse;
pub use models::ExtractedInvoice;
pub use models::SuccessResponse;
pub use parser::PDFParser;
pub use service::ERechnungService;
pub use validator::PDFA3Validator;
