//! The content resolver: mapping a request URI to a file path under a
//! document root, and classifying file bytes into a MIME type and a
//! text-or-binary payload.
//!
//! Classification itself is the content-sniffing collaborator's work; its
//! result is a function of the bytes alone and is only named here, never
//! restated.  Everything around the call — the choice of payload variant,
//! the UTF-8 validation of text, the byte-for-byte preservation of binary
//! content — is verified.

use vstd::prelude::*;
use vstd::utf8::{decode_utf8, valid_utf8};
use crate::response::{spec_payload_bytes, PayloadType, PayloadView};
use crate::scan::{bytes_as_str, str_eq};

verus! {

/// What the content sniffer says of a byte sequence: `None` when the
/// content is of no known type, otherwise the MIME type string and
/// whether the content is textual.
pub uninterp spec fn sniff_of(data: Seq<u8>) -> Option<(Seq<char>, bool)>;

/// The sniffer knows the content's type.
pub open spec fn known_content(data: Seq<u8>) -> bool {
    sniff_of(data) is Some
}

/// The MIME type the sniffer reports (meaningful only for known content).
pub open spec fn content_mime(data: Seq<u8>) -> Seq<char> {
    sniff_of(data)->Some_0.0
}

/// The sniffer classifies the content as textual (meaningful only for
/// known content).
pub open spec fn text_content(data: Seq<u8>) -> bool {
    sniff_of(data)->Some_0.1
}

/// Relies on `infer::get`: its default matcher set is fixed, so the
/// reported type — MIME string, and whether the matcher is the text kind —
/// is a function of the buffer bytes alone; `None` means no matcher
/// recognized the buffer.
#[verifier::external_body]
fn sniff(data: &[u8]) -> (r: Option<(String, bool)>)
    ensures
        r is Some <==> sniff_of(data@) is Some,
        r matches Some(p) ==> p.0@ == content_mime(data@) && p.1 == text_content(data@),
{
    match infer::get(data) {
        Some(t) => Some((
            t.mime_type().to_string(),
            t.matcher_type() == infer::MatcherType::Text,
        )),
        None => None,
    }
}

/// Why a file's bytes could not be served.
#[derive(Debug, Clone, Copy, PartialEq, Eq, Structural)]
pub enum ContentError {
    /// No known content type matched the bytes.
    UnknownType,
    /// The bytes were classified as text but do not decode as UTF-8.
    ConversionFailed,
}

/// Resolved content: the MIME type, the byte count, and the payload.
#[derive(Debug)]
pub struct ResolvedContent {
    pub mime: String,
    pub length: usize,
    pub payload: PayloadType,
}

/// The mathematical shape of a [`ResolvedContent`].
#[verifier::ext_equal]
pub struct ContentView {
    pub mime: Seq<char>,
    pub length: int,
    pub payload: PayloadView,
}

impl View for ResolvedContent {
    type V = ContentView;

    open spec fn view(&self) -> ContentView {
        ContentView { mime: self.mime@, length: self.length as int, payload: self.payload@ }
    }
}

/// Classify file bytes.  Content of no known type is rejected; textual
/// content must decode as UTF-8 and becomes a text payload of exactly
/// those characters; anything else becomes a binary payload of exactly
/// those bytes.  The reported length is always the byte count.
pub open spec fn spec_classify(data: Seq<u8>) -> Result<ContentView, ContentError> {
    if !known_content(data) {
        Err(ContentError::UnknownType)
    } else if text_content(data) {
        if valid_utf8(data) {
            Ok(
                ContentView {
                    mime: content_mime(data),
                    length: data.len() as int,
                    payload: PayloadView::Text(decode_utf8(data)),
                },
            )
        } else {
            Err(ContentError::ConversionFailed)
        }
    } else {
        Ok(
            ContentView {
                mime: content_mime(data),
                length: data.len() as int,
                payload: PayloadView::Binary(data),
            },
        )
    }
}

/// Classify file bytes, exactly as [`spec_classify`] describes it.
pub fn classify_content(data: Vec<u8>) -> (r: Result<ResolvedContent, ContentError>)
    ensures
        match spec_classify(data@) {
            Ok(c) => r matches Ok(rc) && rc@ == c,
            Err(e) => r matches Err(e2) && e2 == e,
        },
{
    let length = data.len();
    match sniff(data.as_slice()) {
        None => Err(ContentError::UnknownType),
        Some((mime, is_text)) => {
            if is_text {
                match bytes_as_str(data.as_slice()) {
                    Some(s) => {
                        let text = s.to_owned();
                        let rc = ResolvedContent {
                            mime,
                            length,
                            payload: PayloadType::Text(text),
                        };
                        proof {
                            assert(rc@ =~~= spec_classify(data@)->Ok_0);
                        }
                        Ok(rc)
                    },
                    None => Err(ContentError::ConversionFailed),
                }
            } else {
                let ghost d = data@;
                let rc = ResolvedContent { mime, length, payload: PayloadType::Binary(data) };
                proof {
                    assert(rc@ =~~= spec_classify(d)->Ok_0);
                }
                Ok(rc)
            }
        },
    }
}

/// Map a request URI to a file path under the document root: the root URI
/// `/` maps to the default document `index.html`, any other URI is
/// appended to the root as it stands.
pub open spec fn spec_resolve_path(root: Seq<char>, uri: Seq<char>) -> Seq<char> {
    if uri == "/"@ {
        root + "/index.html"@
    } else {
        root + uri
    }
}

/// Resolve a request URI against the document root.
pub fn resolve_path(root: &str, uri: &str) -> (r: String)
    ensures
        r@ == spec_resolve_path(root@, uri@),
{
    if str_eq(uri, "/") {
        String::from_str(root).concat("/index.html")
    } else {
        String::from_str(root).concat(uri)
    }
}

/// Binary content never takes the text path: bytes of a known,
/// non-textual type classify as a binary payload holding exactly the
/// source bytes, and that payload contributes exactly those bytes to the
/// wire.
pub proof fn lemma_binary_payload_verbatim(data: Seq<u8>)
    requires
        known_content(data),
        !text_content(data),
    ensures
        spec_classify(data) matches Ok(c) && c.payload == PayloadView::Binary(data)
            && spec_payload_bytes(c.payload) == data,
{
}

/// Textual content that decodes as UTF-8 is also served byte-for-byte:
/// re-encoding the decoded characters restores the source bytes.
pub proof fn lemma_text_payload_verbatim(data: Seq<u8>)
    requires
        known_content(data),
        text_content(data),
        valid_utf8(data),
    ensures
        spec_classify(data) matches Ok(c) && spec_payload_bytes(c.payload) == data,
{
    vstd::utf8::decode_utf8_encode_utf8(data);
}

} // verus!
