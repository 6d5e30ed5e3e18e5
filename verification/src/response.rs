//! The response builder and its byte-exact serialization.
//!
//! Wire format, preserved for compatibility with the existing behaviour
//! (note the bare `\n` line terminator, not `\r\n`):
//! a status line `HTTP/<major>.<minor> <status> <reason>`, one line
//! `<name>: <value>` per header entry, a blank line, then the payload
//! bytes verbatim.

use vstd::prelude::*;
use vstd::utf8::encode_utf8;
use crate::header::HttpHeader;
use crate::request::HttpVersion;
use crate::scan::{dec_string, spec_dec_chars};

verus! {

/// A response body: textual, raw bytes, or absent.
#[derive(Debug, Clone)]
pub enum PayloadType {
    Text(String),
    Binary(Vec<u8>),
    Empty,
}

/// The mathematical shape of a [`PayloadType`].
pub enum PayloadView {
    Text(Seq<char>),
    Binary(Seq<u8>),
    Empty,
}

impl View for PayloadType {
    type V = PayloadView;

    open spec fn view(&self) -> PayloadView {
        match self {
            PayloadType::Text(t) => PayloadView::Text(t@),
            PayloadType::Binary(b) => PayloadView::Binary(b@),
            PayloadType::Empty => PayloadView::Empty,
        }
    }
}

/// The mathematical shape of a response.
#[verifier::ext_equal]
pub struct ResponseView {
    pub status_code: u16,
    pub version: HttpVersion,
    pub reason: Seq<char>,
    pub headers: Seq<(Seq<char>, Seq<char>)>,
    pub payload: PayloadView,
}

/// The bytes a payload contributes after the blank line: text is encoded
/// as UTF-8, raw bytes go out verbatim, an absent payload contributes
/// nothing.
pub open spec fn spec_payload_bytes(p: PayloadView) -> Seq<u8> {
    match p {
        PayloadView::Text(t) => encode_utf8(t),
        PayloadView::Binary(b) => b,
        PayloadView::Empty => Seq::empty(),
    }
}

/// The status line `HTTP/<major>.<minor> <status> <reason>` with its bare
/// `\n` terminator.
pub open spec fn spec_status_line(r: ResponseView) -> Seq<u8> {
    encode_utf8("HTTP/"@) + encode_utf8(spec_dec_chars(r.version.major as nat)) + encode_utf8(
        "."@,
    ) + encode_utf8(spec_dec_chars(r.version.minor as nat)) + encode_utf8(" "@) + encode_utf8(
        spec_dec_chars(r.status_code as nat),
    ) + encode_utf8(" "@) + encode_utf8(r.reason) + encode_utf8("\n"@)
}

/// One `<name>: <value>` line per header entry, in entry order, each with
/// its bare `\n` terminator.
pub open spec fn spec_header_lines(hs: Seq<(Seq<char>, Seq<char>)>) -> Seq<u8>
    decreases hs.len(),
{
    if hs.len() == 0 {
        Seq::empty()
    } else {
        encode_utf8(hs[0].0) + encode_utf8(": "@) + encode_utf8(hs[0].1) + encode_utf8("\n"@)
            + spec_header_lines(hs.drop_first())
    }
}

/// The full wire bytes of a response: status line, header lines, a blank
/// line, then the payload verbatim.
pub open spec fn spec_serialize(r: ResponseView) -> Seq<u8> {
    spec_status_line(r) + spec_header_lines(r.headers) + encode_utf8("\n"@) + spec_payload_bytes(
        r.payload,
    )
}

/// Appending one entry extends the header lines by that entry's line.
proof fn lemma_header_lines_snoc(hs: Seq<(Seq<char>, Seq<char>)>, i: int)
    requires
        0 <= i < hs.len(),
    ensures
        spec_header_lines(hs.take(i + 1)) == spec_header_lines(hs.take(i)) + (encode_utf8(
            hs[i].0,
        ) + encode_utf8(": "@) + encode_utf8(hs[i].1) + encode_utf8("\n"@)),
    decreases i,
{
    if i == 0 {
        assert(hs.take(1)[0] == hs[0]);
        assert(hs.take(1).drop_first() =~= Seq::<(Seq<char>, Seq<char>)>::empty());
        assert(hs.take(0) =~= Seq::<(Seq<char>, Seq<char>)>::empty());
        assert(spec_header_lines(hs.take(0)) + (encode_utf8(hs[0].0) + encode_utf8(": "@)
            + encode_utf8(hs[0].1) + encode_utf8("\n"@)) =~= encode_utf8(hs[0].0) + encode_utf8(
            ": "@,
        ) + encode_utf8(hs[0].1) + encode_utf8("\n"@));
        assert(spec_header_lines(hs.take(1)) =~= encode_utf8(hs[0].0) + encode_utf8(": "@)
            + encode_utf8(hs[0].1) + encode_utf8("\n"@) + Seq::<u8>::empty());
    } else {
        lemma_header_lines_snoc(hs.drop_first(), i - 1);
        assert(hs.take(i + 1)[0] == hs[0]);
        assert(hs.take(i + 1).drop_first() =~= hs.drop_first().take(i));
        assert(hs.take(i)[0] == hs[0]);
        assert(hs.take(i).drop_first() =~= hs.drop_first().take(i - 1));
        assert(hs.drop_first()[i - 1] == hs[i]);
        let line0 = encode_utf8(hs[0].0) + encode_utf8(": "@) + encode_utf8(hs[0].1) + encode_utf8(
            "\n"@,
        );
        let linei = encode_utf8(hs[i].0) + encode_utf8(": "@) + encode_utf8(hs[i].1) + encode_utf8(
            "\n"@,
        );
        assert(spec_header_lines(hs.take(i + 1)) == line0 + spec_header_lines(
            hs.drop_first().take(i),
        ));
        assert(spec_header_lines(hs.take(i)) == line0 + spec_header_lines(
            hs.drop_first().take(i - 1),
        ));
        assert(line0 + (spec_header_lines(hs.drop_first().take(i - 1)) + linei) =~= (line0
            + spec_header_lines(hs.drop_first().take(i - 1))) + linei);
    }
}

/// A response under construction: status, version, reason, headers and
/// payload accumulate through the setters; [`HttpResponse::as_bytes`] is
/// the terminal, side-effect-free serialization.
#[derive(Debug)]
pub struct HttpResponse {
    status_code: u16,
    version: HttpVersion,
    reason: String,
    header: HttpHeader,
    payload: PayloadType,
}

impl View for HttpResponse {
    type V = ResponseView;

    closed spec fn view(&self) -> ResponseView {
        ResponseView {
            status_code: self.status_code,
            version: self.version,
            reason: self.reason@,
            headers: self.header@,
            payload: self.payload@,
        }
    }
}

impl HttpResponse {
    /// A blank response: status zero, version zero, empty reason, no
    /// headers, no payload.
    pub fn new() -> (r: Self)
        ensures
            r@ == (ResponseView {
                status_code: 0,
                version: HttpVersion { major: 0, minor: 0 },
                reason: Seq::<char>::empty(),
                headers: Seq::<(Seq<char>, Seq<char>)>::empty(),
                payload: PayloadView::Empty,
            }),
    {
        let r = HttpResponse {
            status_code: 0,
            version: HttpVersion { major: 0, minor: 0 },
            reason: String::new(),
            header: HttpHeader::new(),
            payload: PayloadType::Empty,
        };
        proof {
            assert(r@ =~~= (ResponseView {
                status_code: 0,
                version: HttpVersion { major: 0, minor: 0 },
                reason: Seq::<char>::empty(),
                headers: Seq::<(Seq<char>, Seq<char>)>::empty(),
                payload: PayloadView::Empty,
            }));
        }
        r
    }

    /// Set the status code.
    pub fn status_code(&mut self, code: u16)
        ensures
            final(self)@ == (ResponseView { status_code: code, ..old(self)@ }),
    {
        self.status_code = code;
    }

    /// Set the protocol version.
    pub fn version(&mut self, version: HttpVersion)
        ensures
            final(self)@ == (ResponseView { version: version, ..old(self)@ }),
    {
        self.version = version;
    }

    /// Set the reason phrase.
    pub fn reason(&mut self, reason: &str)
        ensures
            final(self)@ == (ResponseView { reason: reason@, ..old(self)@ }),
    {
        self.reason = reason.to_owned();
    }

    /// Replace the header map.
    pub fn header(&mut self, header: HttpHeader)
        ensures
            final(self)@ == (ResponseView { headers: header@, ..old(self)@ }),
    {
        self.header = header;
    }

    /// Replace the payload.
    pub fn payload(&mut self, payload: PayloadType)
        ensures
            final(self)@ == (ResponseView { payload: payload@, ..old(self)@ }),
    {
        self.payload = payload;
    }

    /// Serialize to wire bytes, exactly as [`spec_serialize`] describes it.
    #[verifier::loop_isolation(false)]
    pub fn as_bytes(&self) -> (r: Vec<u8>)
        ensures
            r@ == spec_serialize(self@),
    {
        let mut out: Vec<u8> = Vec::new();
        out.extend_from_slice("HTTP/".as_bytes());
        let maj = dec_string(self.version.major as u64);
        out.extend_from_slice(maj.as_str().as_bytes());
        out.extend_from_slice(".".as_bytes());
        let min = dec_string(self.version.minor as u64);
        out.extend_from_slice(min.as_str().as_bytes());
        out.extend_from_slice(" ".as_bytes());
        let code = dec_string(self.status_code as u64);
        out.extend_from_slice(code.as_str().as_bytes());
        out.extend_from_slice(" ".as_bytes());
        out.extend_from_slice(self.reason.as_str().as_bytes());
        out.extend_from_slice("\n".as_bytes());
        proof {
            assert(out@ =~= spec_status_line(self@));
        }
        let hn = self.header.len();
        let mut i: usize = 0;
        while i < hn
            invariant
                0 <= i <= hn,
                out@ == spec_status_line(self@) + spec_header_lines(self@.headers.take(i as int)),
            decreases hn - i,
        {
            let entry = self.header.entry(i);
            out.extend_from_slice(entry.0.as_str().as_bytes());
            out.extend_from_slice(": ".as_bytes());
            out.extend_from_slice(entry.1.as_str().as_bytes());
            out.extend_from_slice("\n".as_bytes());
            proof {
                lemma_header_lines_snoc(self@.headers, i as int);
                assert(out@ =~= spec_status_line(self@) + spec_header_lines(
                    self@.headers.take(i as int + 1),
                ));
            }
            i = i + 1;
        }
        proof {
            assert(self@.headers.take(hn as int) =~= self@.headers);
        }
        out.extend_from_slice("\n".as_bytes());
        match &self.payload {
            PayloadType::Text(t) => {
                out.extend_from_slice(t.as_str().as_bytes());
            },
            PayloadType::Binary(b) => {
                out.extend_from_slice(b.as_slice());
            },
            PayloadType::Empty => {},
        }
        proof {
            assert(out@ =~= spec_serialize(self@));
        }
        out
    }
}

} // verus!
