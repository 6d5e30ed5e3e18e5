//! The connection session's decisions, as pure functions the transport
//! loop drives: when an accumulating buffer holds one complete framed
//! request, what response a request and its resolved content produce, and
//! whether the connection stays open afterwards.
//!
//! The session's I/O — reading bytes, the file read, writing the response,
//! shutting the stream down — stays with the caller; every decision
//! between reads and writes is verified here.

use vstd::prelude::*;
use crate::content::{spec_classify, classify_content, ContentView, ContentError, ResolvedContent};
use crate::header::{spec_get, HttpHeader};
use crate::request::{HttpRequest, HttpVersion, RequestView};
use crate::response::{spec_serialize, HttpResponse, PayloadView, ResponseView};
use crate::scan::{dec_string, spec_dec_chars, str_eq};

verus! {

/// The buffer ends with the four-byte terminator `\r\n\r\n` that frames
/// one complete request message.
pub open spec fn spec_terminated(buf: Seq<u8>) -> bool {
    buf.len() >= 4 && buf[buf.len() - 4] == 13 && buf[buf.len() - 3] == 10 && buf[buf.len() - 2]
        == 13 && buf[buf.len() - 1] == 10
}

/// Decide whether an accumulating buffer holds one complete request.
pub fn is_complete_request(buf: &[u8]) -> (b: bool)
    ensures
        b == spec_terminated(buf@),
{
    let n = buf.len();
    n >= 4 && buf[n - 4] == 13 && buf[n - 3] == 10 && buf[n - 2] == 13 && buf[n - 1] == 10
}

/// The request asks to keep the connection open: its `Connection` header
/// is present with exactly the value `keep-alive`.  Any other value, and
/// an absent header, close the connection.
pub open spec fn spec_keep_alive(req: RequestView) -> bool {
    spec_get(req.headers, "Connection"@) == Some("keep-alive"@)
}

/// Decide the keep-alive policy for a request.
pub fn keep_alive(req: &HttpRequest) -> (b: bool)
    ensures
        b == spec_keep_alive(req@),
{
    match req.get_header().get("Connection") {
        Some(v) => str_eq(v.as_str(), "keep-alive"),
        None => false,
    }
}

/// The `Connection` header echoed into the response: `keep-alive` when the
/// request asked for it, `close` for any other present value, nothing when
/// the request sent no `Connection` header.
pub open spec fn spec_connection_echo(req: RequestView) -> Option<Seq<char>> {
    match spec_get(req.headers, "Connection"@) {
        Some(v) => if v == "keep-alive"@ {
            Some("keep-alive"@)
        } else {
            Some("close"@)
        },
        None => None,
    }
}

/// Compute the echoed `Connection` header value, if any.
pub fn connection_echo(req: &HttpRequest) -> (r: Option<String>)
    ensures
        match spec_connection_echo(req@) {
            Some(v) => r matches Some(s) && s@ == v,
            None => r is None,
        },
{
    match req.get_header().get("Connection") {
        Some(v) => {
            if str_eq(v.as_str(), "keep-alive") {
                Some("keep-alive".to_owned())
            } else {
                Some("close".to_owned())
            }
        },
        None => None,
    }
}

/// The response for a request and its resolved content.  Resolved content
/// is served as 200 `OK` with its MIME type as `Content-Type` and its byte
/// count as `Content-Length`; missing content is a 404 with no payload and
/// no content headers.  Either way the response is HTTP/1.1 and echoes the
/// request's `Connection` header per [`spec_connection_echo`].
pub open spec fn spec_build_response(req: RequestView, content: Option<ContentView>) -> ResponseView {
    let base = match content {
        Some(c) => seq![
            ("Content-Type"@, c.mime),
            ("Content-Length"@, spec_dec_chars(c.length as nat)),
        ],
        None => Seq::<(Seq<char>, Seq<char>)>::empty(),
    };
    let headers = match spec_connection_echo(req) {
        Some(v) => base.push(("Connection"@, v)),
        None => base,
    };
    ResponseView {
        status_code: if content is Some {
            200
        } else {
            404
        },
        version: HttpVersion { major: 1, minor: 1 },
        reason: if content is Some {
            "OK"@
        } else {
            "File not found."@
        },
        headers,
        payload: match content {
            Some(c) => c.payload,
            None => PayloadView::Empty,
        },
    }
}

/// Build the response for a request, exactly as [`spec_build_response`]
/// describes it.
pub fn build_response(req: &HttpRequest, content: Option<ResolvedContent>) -> (r: HttpResponse)
    ensures
        r@ == spec_build_response(
            req@,
            match content {
                Some(c) => Some(c@),
                None => None,
            },
        ),
{
    proof {
        reveal_strlit("Content-Type");
        reveal_strlit("Content-Length");
        reveal_strlit("Connection");
        assert("Content-Type"@.len() == 12);
        assert("Content-Length"@.len() == 14);
        assert("Connection"@.len() == 10);
    }
    let mut resp = HttpResponse::new();
    resp.version(HttpVersion { major: 1, minor: 1 });
    let mut hmap = HttpHeader::new();
    match content {
        Some(c) => {
            resp.status_code(200);
            resp.reason("OK");
            hmap.insert("Content-Type".to_owned(), c.mime);
            proof {
                assert(hmap@ =~~= seq![("Content-Type"@, c.mime@)]);
            }
            let ghost ct_only = hmap@;
            hmap.insert("Content-Length".to_owned(), dec_string(c.length as u64));
            proof {
                crate::header::lemma_insert_fresh(
                    ct_only,
                    "Content-Length"@,
                    spec_dec_chars(c.length as nat),
                );
                assert(hmap@ =~~= seq![
                    ("Content-Type"@, c.mime@),
                    ("Content-Length"@, spec_dec_chars(c.length as nat)),
                ]);
            }
            resp.payload(c.payload);
        },
        None => {
            resp.status_code(404);
            resp.reason("File not found.");
        },
    }
    proof {
        assert(forall|j: int| 0 <= j < hmap@.len() ==> hmap@[j].0 != "Connection"@);
    }
    match connection_echo(req) {
        Some(v) => {
            let ghost before = hmap@;
            hmap.insert("Connection".to_owned(), v);
            proof {
                crate::header::lemma_insert_fresh(before, "Connection"@, v@);
                assert(hmap@ =~~= before.push(("Connection"@, v@)));
            }
        },
        None => {},
    }
    resp.header(hmap);
    proof {
        assert(resp@ =~~= spec_build_response(
            req@,
            match content {
                Some(c) => Some(c@),
                None => None,
            },
        ));
    }
    resp
}

/// One full request/response step of the session, after the request has
/// been parsed and the file bytes read (or found missing): classify the
/// content, build and serialize the response, and report the keep-alive
/// decision.  A classification failure produces no response and is fatal
/// to the session.
pub open spec fn spec_respond(req: RequestView, file: Option<Seq<u8>>) -> Result<
    (Seq<u8>, bool),
    ContentError,
> {
    match file {
        None => Ok(
            (spec_serialize(spec_build_response(req, None)), spec_keep_alive(req)),
        ),
        Some(data) => match spec_classify(data) {
            Ok(c) => Ok(
                (spec_serialize(spec_build_response(req, Some(c))), spec_keep_alive(req)),
            ),
            Err(e) => Err(e),
        },
    }
}

/// Serve one request, exactly as [`spec_respond`] describes it: the wire
/// bytes to write back, and whether to keep the connection open.
pub fn respond(req: &HttpRequest, file: Option<Vec<u8>>) -> (r: Result<
    (Vec<u8>, bool),
    ContentError,
>)
    ensures
        match spec_respond(
            req@,
            match file {
                Some(d) => Some(d@),
                None => None,
            },
        ) {
            Ok(p) => r matches Ok(q) && q.0@ == p.0 && q.1 == p.1,
            Err(e) => r matches Err(e2) && e2 == e,
        },
{
    let ka = keep_alive(req);
    match file {
        None => {
            let resp = build_response(req, None);
            Ok((resp.as_bytes(), ka))
        },
        Some(data) => match classify_content(data) {
            Ok(c) => {
                let resp = build_response(req, Some(c));
                Ok((resp.as_bytes(), ka))
            },
            Err(e) => Err(e),
        },
    }
}

/// A request whose content is missing is answered with a 404 response:
/// status 404, reason `File not found.`, no payload, no content headers,
/// and the session still follows the request's keep-alive wish.
pub proof fn lemma_not_found_serves_404(req: RequestView)
    ensures
        spec_build_response(req, None).status_code == 404,
        spec_build_response(req, None).reason == "File not found."@,
        spec_build_response(req, None).payload is Empty,
        spec_respond(req, None) matches Ok(p) && p.0 == spec_serialize(
            spec_build_response(req, None),
        ) && p.1 == spec_keep_alive(req),
{
}

/// The session stays open exactly when the request's `Connection` header
/// holds `keep-alive`; the flag that [`spec_respond`] reports is exactly
/// that decision, whatever the content was.
pub proof fn lemma_keep_alive_decision(req: RequestView, file: Option<Seq<u8>>)
    ensures
        spec_keep_alive(req) <==> spec_get(req.headers, "Connection"@) == Some("keep-alive"@),
        spec_respond(req, file) matches Ok(p) ==> p.1 == spec_keep_alive(req),
{
}

/// Binary content reaches the wire verbatim: for bytes of a known,
/// non-textual type, the served response carries a binary payload of
/// exactly the source bytes, and its serialization ends with exactly
/// those bytes.
pub proof fn lemma_binary_served_verbatim(req: RequestView, data: Seq<u8>)
    requires
        crate::content::known_content(data),
        !crate::content::text_content(data),
    ensures
        spec_classify(data) matches Ok(c) && c.payload == PayloadView::Binary(data),
        spec_respond(req, Some(data)) matches Ok(p) && p.0 == spec_serialize(
            spec_build_response(req, Some(spec_classify(data)->Ok_0)),
        ),
        ({
            let resp = spec_build_response(req, Some(spec_classify(data)->Ok_0));
            spec_serialize(resp) == spec_serialize(ResponseView { payload: PayloadView::Empty, ..resp })
                + data
        }),
{
    crate::content::lemma_binary_payload_verbatim(data);
    let c = spec_classify(data)->Ok_0;
    let resp = spec_build_response(req, Some(c));
    let head = ResponseView { payload: PayloadView::Empty, ..resp };
    assert(crate::response::spec_status_line(head) == crate::response::spec_status_line(resp));
    assert(spec_serialize(resp) =~= spec_serialize(head) + data);
}

} // verus!
