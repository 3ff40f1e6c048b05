//! The object-model-based alternative extractor: `lopdf` parses the whole
//! document, every stream object is decoded (filter-encoded streams are
//! decompressed, raw streams pass through), and the decoded contents are
//! filtered here to those that classify as invoice XML.

use vstd::prelude::*;

use crate::classifier;
use crate::extractor;

verus! {

/// The decoded contents of every stream object of the buffer, in the order
/// the document model lists them; nothing when the buffer does not parse as
/// a PDF. A name for what `lopdf` computes: the result is a function of the
/// buffer alone.
pub uninterp spec fn lopdf_stream_contents(bytes: Seq<u8>) -> Option<Seq<Seq<u8>>>;

/// Relies on lopdf: `Document::load_from` parses the buffer into a document
/// whose objects sit in an ordered map, and `Stream::decompressed_content`
/// applies each stream's filters in order, passing raw content through
/// unchanged; a stream that fails to decode is skipped. All of it depends on
/// the buffer alone, here named `lopdf_stream_contents`.
#[verifier::external_body]
fn lopdf_streams(bytes: &[u8]) -> (r: Option<Vec<Vec<u8>>>)
    ensures
        match r {
            Some(v) => lopdf_stream_contents(bytes@) == Some(extractor::names_view(v@)),
            None => lopdf_stream_contents(bytes@) is None,
        },
{
    let doc = match lopdf::Document::load_from(std::io::Cursor::new(bytes)) {
        Ok(d) => d,
        Err(_) => return None,
    };
    let mut out: Vec<Vec<u8>> = Vec::new();
    for (_, object) in doc.objects.iter() {
        if let Ok(stream) = object.as_stream() {
            if let Ok(decoded) = stream.decompressed_content() {
                out.push(decoded);
            }
        }
    }
    Some(out)
}

/// Of the stream contents from `i` on, those that classify as invoice XML,
/// in order.
pub open spec fn xml_only(ss: Seq<Seq<u8>>, i: int) -> Seq<Seq<u8>>
    decreases ss.len() - i,
{
    if i < 0 || i >= ss.len() {
        Seq::empty()
    } else if classifier::is_xml_spec(ss[i]) {
        seq![ss[i]] + xml_only(ss, i + 1)
    } else {
        xml_only(ss, i + 1)
    }
}

/// Carves every invoice XML stream out of the buffer through the document
/// model: the decoded stream contents, kept in order and filtered to those
/// that classify as invoice XML; nothing when the buffer does not parse.
pub fn carveout_xml_from_pdf(pdf_bytes: &[u8]) -> (r: Option<Vec<Vec<u8>>>)
    ensures
        match lopdf_stream_contents(pdf_bytes@) {
            Some(all) => r matches Some(v) && extractor::names_view(v@) == xml_only(all, 0),
            None => r is None,
        },
{
    let streams = match lopdf_streams(pdf_bytes) {
        Some(v) => v,
        None => {
            return None;
        },
    };
    let ghost all = extractor::names_view(streams@);
    let n = streams.len();
    let mut out: Vec<Vec<u8>> = Vec::new();
    let mut i: usize = 0;
    while i < n
        invariant
            i <= n,
            n == streams@.len(),
            all == extractor::names_view(streams@),
            xml_only(all, 0) == extractor::names_view(out@) + xml_only(all, i as int),
        decreases n - i,
    {
        let ghost before = extractor::names_view(out@);
        if classifier::is_xml_content(streams[i].as_slice()) {
            let item = vstd::slice::slice_to_vec(streams[i].as_slice());
            out.push(item);
            proof {
                assert(extractor::names_view(out@) =~= before.push(all[i as int]));
                assert(before.push(all[i as int]) =~= before + seq![all[i as int]]);
                assert((before + seq![all[i as int]]) + xml_only(all, i + 1) =~= before + (seq![
                    all[i as int],
                ] + xml_only(all, i + 1)));
            }
        }
        i = i + 1;
    }
    proof {
        assert(extractor::names_view(out@) + xml_only(all, n as int) =~= extractor::names_view(
            out@,
        ));
    }
    Some(out)
}

} // verus!
