//! Parsing one complete, framed request message into a structured request:
//! request line (method, URI, protocol version) and header section.
//!
//! The input buffer is ASCII lines separated by `\r\n` and terminated by an
//! empty line; the framing itself is the session's concern.  Malformed input
//! is an explicit failure, never a silently coerced value.

use vstd::prelude::*;
use vstd::slice::slice_to_vec;
use vstd::utf8::{decode_utf8, valid_utf8};
use crate::header::{spec_insert, HttpHeader};
use crate::method::{spec_parse_method, RequestMethod};
use crate::scan::{
    find_pair, parse_u16, spec_find_pair, spec_parse_u16, spec_split_byte, spec_split_pair,
    spec_trim_tail, split_byte, split_pair, trim_tail,
};

verus! {

/// A two-component protocol version, as in `HTTP/1.1`.
#[derive(Clone, Copy, Debug, PartialEq, Eq, Structural)]
pub struct HttpVersion {
    pub major: u16,
    pub minor: u16,
}

/// Why a request buffer was rejected.  The payload of `UnknownMethod` is
/// the offending method token; the payload of `MalformedHeader` is the
/// offending header line, both as raw bytes.
#[derive(Debug, Clone, PartialEq, Eq)]
pub enum ParseError {
    UnknownMethod(Vec<u8>),
    MalformedRequestLine,
    MalformedVersion,
    MalformedHeader(Vec<u8>),
}

/// The mathematical shape of a [`ParseError`].
pub enum ParseFailure {
    UnknownMethod(Seq<u8>),
    MalformedRequestLine,
    MalformedVersion,
    MalformedHeader(Seq<u8>),
}

impl View for ParseError {
    type V = ParseFailure;

    open spec fn view(&self) -> ParseFailure {
        match self {
            ParseError::UnknownMethod(t) => ParseFailure::UnknownMethod(t@),
            ParseError::MalformedRequestLine => ParseFailure::MalformedRequestLine,
            ParseError::MalformedVersion => ParseFailure::MalformedVersion,
            ParseError::MalformedHeader(l) => ParseFailure::MalformedHeader(l@),
        }
    }
}

/// The mathematical shape of a parsed request.
#[verifier::ext_equal]
pub struct RequestView {
    pub method: RequestMethod,
    pub version: HttpVersion,
    pub uri: Seq<char>,
    pub headers: Seq<(Seq<char>, Seq<char>)>,
}

/// Parse `HTTP/<major>.<minor>`: split on `/`, take the second component,
/// and read it as one or two decimal numbers separated by `.`; a single
/// number stands for a zero minor version.
pub open spec fn spec_parse_version(proto: Seq<u8>) -> Option<HttpVersion> {
    let comps = spec_split_byte(proto, 47);
    if comps.len() < 2 {
        None
    } else {
        let parts = spec_split_byte(comps[1], 46);
        if parts.len() == 1 {
            match spec_parse_u16(parts[0]) {
                Some(ma) => Some(HttpVersion { major: ma, minor: 0 }),
                None => None,
            }
        } else if parts.len() == 2 {
            match (spec_parse_u16(parts[0]), spec_parse_u16(parts[1])) {
                (Some(ma), Some(mi)) => Some(HttpVersion { major: ma, minor: mi }),
                _ => None,
            }
        } else {
            None
        }
    }
}

/// Parse the header section line by line, in order.  Each line splits on
/// its first `": "` into a name and a value, both of which must decode as
/// UTF-8; the first offending line wins and is named in the failure.
pub open spec fn spec_parse_headers(lines: Seq<Seq<u8>>) -> Result<
    Seq<(Seq<char>, Seq<char>)>,
    ParseFailure,
>
    decreases lines.len(),
{
    if lines.len() == 0 {
        Ok(Seq::empty())
    } else {
        let line = lines[0];
        match spec_find_pair(line, 58, 32) {
            None => Err(ParseFailure::MalformedHeader(line)),
            Some(i) => {
                let name = line.take(i);
                let value = line.skip(i + 2);
                if valid_utf8(name) && valid_utf8(value) {
                    match spec_parse_headers(lines.drop_first()) {
                        Ok(rest) => Ok(
                            seq![(decode_utf8(name), decode_utf8(value))] + rest,
                        ),
                        Err(e) => Err(e),
                    }
                } else {
                    Err(ParseFailure::MalformedHeader(line))
                }
            },
        }
    }
}

/// Fold the parsed header lines into a map, in order, last write winning.
pub open spec fn spec_insert_all(
    acc: Seq<(Seq<char>, Seq<char>)>,
    entries: Seq<(Seq<char>, Seq<char>)>,
) -> Seq<(Seq<char>, Seq<char>)>
    decreases entries.len(),
{
    if entries.len() == 0 {
        acc
    } else {
        spec_insert_all(spec_insert(acc, entries[0].0, entries[0].1), entries.drop_first())
    }
}

/// Parse one framed request buffer.  The buffer splits on `\r\n` with the
/// empty trailing lines of the terminator dropped; the first line splits on
/// single spaces into at least method token, URI and protocol identifier
/// (later fields are ignored); the remaining lines are the header section.
/// Failures, in the order the stages run: a missing request line, fewer
/// than three fields, or a URI that does not decode as UTF-8 make a
/// malformed request line; then an unparseable protocol version; then the
/// first bad header line; and last a method token outside the closed set.
pub open spec fn spec_parse_request(buf: Seq<u8>) -> Result<RequestView, ParseFailure> {
    let lines = spec_trim_tail(spec_split_pair(buf, 13, 10));
    if lines.len() == 0 {
        Err(ParseFailure::MalformedRequestLine)
    } else {
        let fields = spec_split_byte(lines[0], 32);
        if fields.len() < 3 {
            Err(ParseFailure::MalformedRequestLine)
        } else if !valid_utf8(fields[1]) {
            Err(ParseFailure::MalformedRequestLine)
        } else {
            match spec_parse_version(fields[2]) {
                None => Err(ParseFailure::MalformedVersion),
                Some(ver) => match spec_parse_headers(lines.drop_first()) {
                    Err(e) => Err(e),
                    Ok(hdrs) => {
                        if valid_utf8(fields[0]) && spec_parse_method(decode_utf8(fields[0]))
                            is Some {
                            Ok(
                                RequestView {
                                    method: spec_parse_method(decode_utf8(fields[0]))->Some_0,
                                    version: ver,
                                    uri: decode_utf8(fields[1]),
                                    headers: spec_insert_all(Seq::empty(), hdrs),
                                },
                            )
                        } else {
                            Err(ParseFailure::UnknownMethod(fields[0]))
                        }
                    },
                },
            }
        }
    }
}

/// A structured request: method, URI, protocol version and header map.
#[derive(Debug)]
pub struct HttpRequest {
    method: RequestMethod,
    version: HttpVersion,
    uri: String,
    header: HttpHeader,
}

impl View for HttpRequest {
    type V = RequestView;

    closed spec fn view(&self) -> RequestView {
        RequestView {
            method: self.method,
            version: self.version,
            uri: self.uri@,
            headers: self.header@,
        }
    }
}

impl HttpRequest {
    /// A fresh request: GET, version zero, empty URI, no headers.
    pub fn new() -> (r: Self)
        ensures
            r@ == (RequestView {
                method: RequestMethod::GET,
                version: HttpVersion { major: 0, minor: 0 },
                uri: Seq::<char>::empty(),
                headers: Seq::<(Seq<char>, Seq<char>)>::empty(),
            }),
    {
        let r = HttpRequest {
            method: RequestMethod::GET,
            version: HttpVersion { major: 0, minor: 0 },
            uri: String::new(),
            header: HttpHeader::new(),
        };
        proof {
            assert(r@ =~~= (RequestView {
                method: RequestMethod::GET,
                version: HttpVersion { major: 0, minor: 0 },
                uri: Seq::<char>::empty(),
                headers: Seq::<(Seq<char>, Seq<char>)>::empty(),
            }));
        }
        r
    }

    /// Replace the header map.
    pub fn header(&mut self, header: HttpHeader)
        ensures
            final(self)@ == (RequestView { headers: header@, ..old(self)@ }),
    {
        self.header = header;
    }

    /// The header map.
    pub fn get_header(&self) -> (r: &HttpHeader)
        ensures
            r@ == self@.headers,
    {
        &self.header
    }

    /// Replace the URI.
    pub fn uri(&mut self, uri: &str)
        ensures
            final(self)@ == (RequestView { uri: uri@, ..old(self)@ }),
    {
        self.uri = uri.to_owned();
    }

    /// The URI as received on the request line.
    pub fn get_uri(&self) -> (r: &String)
        ensures
            r@ == self@.uri,
    {
        &self.uri
    }

    /// Replace the protocol version.
    pub fn version(&mut self, version: HttpVersion)
        ensures
            final(self)@ == (RequestView { version: version, ..old(self)@ }),
    {
        self.version = version;
    }

    /// The protocol version.
    pub fn get_version(&self) -> (r: HttpVersion)
        ensures
            r == self@.version,
    {
        self.version
    }

    /// Set the method from its wire token, which must be canonical.
    pub fn method(&mut self, method: &str)
        requires
            spec_parse_method(method@) is Some,
        ensures
            final(self)@ == (RequestView {
                method: spec_parse_method(method@)->Some_0,
                ..old(self)@
            }),
    {
        match RequestMethod::from_str(method) {
            Ok(m) => {
                self.method = m;
            },
            Err(_) => {
                proof {
                    assert(false);
                }
            },
        }
    }

    /// The request method.
    pub fn get_method(&self) -> (r: RequestMethod)
        ensures
            r == self@.method,
    {
        self.method
    }

    /// Parse one framed request buffer, exactly as [`spec_parse_request`]
    /// describes it.
    #[verifier::loop_isolation(false)]
    pub fn from_buffer(buf: &[u8]) -> (r: Result<HttpRequest, ParseError>)
        ensures
            match spec_parse_request(buf@) {
                Ok(m) => r matches Ok(req) && req@ == m,
                Err(e) => r matches Err(pe) && pe@ == e,
            },
    {
        let mut lines = split_pair(buf, 13, 10);
        trim_tail(&mut lines);
        let ghost gl = lines.deep_view();
        if lines.len() == 0 {
            return Err(ParseError::MalformedRequestLine);
        }
        let fields = split_byte(lines[0].as_slice(), 32);
        let ghost gf = fields.deep_view();
        proof {
            assert(lines@[0].deep_view() =~= lines@[0]@);
            assert(gl[0] == lines@[0]@);
        }
        if fields.len() < 3 {
            return Err(ParseError::MalformedRequestLine);
        }
        proof {
            assert(fields@[0].deep_view() =~= fields@[0]@);
            assert(fields@[1].deep_view() =~= fields@[1]@);
            assert(fields@[2].deep_view() =~= fields@[2]@);
            assert(gf[0] == fields@[0]@);
            assert(gf[1] == fields@[1]@);
            assert(gf[2] == fields@[2]@);
        }
        let uri: String = match crate::scan::bytes_as_str(fields[1].as_slice()) {
            Some(s) => s.to_owned(),
            None => {
                return Err(ParseError::MalformedRequestLine);
            },
        };
        let ver: HttpVersion = match parse_version(fields[2].as_slice()) {
            Some(v) => v,
            None => {
                return Err(ParseError::MalformedVersion);
            },
        };
        let mut hmap = HttpHeader::new();
        let ghost hl = gl.drop_first();
        let ghost mut done: Seq<(Seq<char>, Seq<char>)> = Seq::empty();
        let len = lines.len();
        let mut i: usize = 1;
        proof {
            assert(hl.skip(0) =~= hl);
            lemma_headers_invariant_init(hl);
        }
        while i < len
            invariant
                1 <= i <= len,
                len == gl.len(),
                gl == lines.deep_view(),
                hl == gl.drop_first(),
                hmap.wf(),
                hmap@ == spec_insert_all(Seq::empty(), done),
                headers_invariant(hl, i - 1, done),
            decreases len - i,
        {
            let line = lines[i].as_slice();
            proof {
                assert(lines@[i as int].deep_view() =~= lines@[i as int]@);
                assert(hl[i - 1] == gl[i as int]);
                assert(line@ == hl[i - 1]);
                assert(hl.skip(i - 1)[0] == hl[i - 1]);
                assert(hl.skip(i - 1).drop_first() =~= hl.skip(i as int));
            }
            let sep = match find_pair(line, 58, 32) {
                Some(p) => p,
                None => {
                    proof {
                        assert(spec_parse_headers(hl.skip(i - 1)) == Err::<
                            Seq<(Seq<char>, Seq<char>)>,
                            ParseFailure,
                        >(ParseFailure::MalformedHeader(line@)));
                        assert(spec_parse_headers(hl) == Err::<
                            Seq<(Seq<char>, Seq<char>)>,
                            ParseFailure,
                        >(ParseFailure::MalformedHeader(line@)));
                        assert(spec_parse_headers(hl) == Err::<
                            Seq<(Seq<char>, Seq<char>)>,
                            ParseFailure,
                        >(ParseFailure::MalformedHeader(line@)));
                    }
                    return Err(ParseError::MalformedHeader(slice_to_vec(line)));
                },
            };
            proof {
                crate::scan::lemma_find_pair(line@, 58, 32);
                assert(sep + 2 <= line@.len());
            }
            let name_b = vstd::slice::slice_subrange(line, 0, sep);
            let value_b = vstd::slice::slice_subrange(line, sep + 2, line.len());
            proof {
                assert(name_b@ =~= line@.take(sep as int));
                assert(value_b@ =~= line@.skip(sep + 2));
            }
            let name: String = match crate::scan::bytes_as_str(name_b) {
                Some(s) => s.to_owned(),
                None => {
                    proof {
                        assert(spec_parse_headers(hl.skip(i - 1)) == Err::<
                            Seq<(Seq<char>, Seq<char>)>,
                            ParseFailure,
                        >(ParseFailure::MalformedHeader(line@)));
                        assert(spec_parse_headers(hl) == Err::<
                            Seq<(Seq<char>, Seq<char>)>,
                            ParseFailure,
                        >(ParseFailure::MalformedHeader(line@)));
                    }
                    return Err(ParseError::MalformedHeader(slice_to_vec(line)));
                },
            };
            let value: String = match crate::scan::bytes_as_str(value_b) {
                Some(s) => s.to_owned(),
                None => {
                    proof {
                        assert(spec_parse_headers(hl.skip(i - 1)) == Err::<
                            Seq<(Seq<char>, Seq<char>)>,
                            ParseFailure,
                        >(ParseFailure::MalformedHeader(line@)));
                        assert(spec_parse_headers(hl) == Err::<
                            Seq<(Seq<char>, Seq<char>)>,
                            ParseFailure,
                        >(ParseFailure::MalformedHeader(line@)));
                    }
                    return Err(ParseError::MalformedHeader(slice_to_vec(line)));
                },
            };
            let ghost entry = (name@, value@);
            hmap.insert(name, value);
            proof {
                lemma_insert_all_snoc(Seq::empty(), done, entry);
                lemma_headers_invariant_step(hl, i - 1, done, entry);
                done = done.push(entry);
            }
            i = i + 1;
        }
        proof {
            assert(hl.skip(len - 1) =~= Seq::<Seq<u8>>::empty());
            assert(spec_parse_headers(hl) == Ok::<_, ParseFailure>(done + Seq::empty()));
            assert(done + Seq::empty() =~= done);
        }
        let method_tok = fields[0].as_slice();
        let m: RequestMethod = match crate::scan::bytes_as_str(method_tok) {
            Some(s) => match RequestMethod::from_str(s) {
                Ok(m) => m,
                Err(_) => {
                    return Err(ParseError::UnknownMethod(slice_to_vec(method_tok)));
                },
            },
            None => {
                return Err(ParseError::UnknownMethod(slice_to_vec(method_tok)));
            },
        };
        let req = HttpRequest { method: m, version: ver, uri, header: hmap };
        proof {
            assert(req@ =~~= spec_parse_request(buf@)->Ok_0);
        }
        Ok(req)
    }
}

/// The header lines before position `k` have parsed into `done`: the whole
/// header section parses to `done` followed by whatever the rest yields,
/// or fails exactly as the rest fails.
pub open spec fn headers_invariant(
    hl: Seq<Seq<u8>>,
    k: int,
    done: Seq<(Seq<char>, Seq<char>)>,
) -> bool {
    0 <= k <= hl.len() && spec_parse_headers(hl) == (match spec_parse_headers(hl.skip(k)) {
        Ok(rest) => Ok::<_, ParseFailure>(done + rest),
        Err(e) => Err::<Seq<(Seq<char>, Seq<char>)>, _>(e),
    })
}

proof fn lemma_headers_invariant_init(hl: Seq<Seq<u8>>)
    ensures
        headers_invariant(hl, 0, Seq::empty()),
{
    assert(hl.skip(0) =~= hl);
    match spec_parse_headers(hl) {
        Ok(rest) => {
            assert(Seq::<(Seq<char>, Seq<char>)>::empty() + rest =~= rest);
        },
        Err(_) => {},
    }
}

proof fn lemma_headers_invariant_step(
    hl: Seq<Seq<u8>>,
    k: int,
    done: Seq<(Seq<char>, Seq<char>)>,
    entry: (Seq<char>, Seq<char>),
)
    requires
        headers_invariant(hl, k, done),
        k < hl.len(),
        spec_find_pair(hl[k], 58, 32) is Some,
        valid_utf8(hl[k].take(spec_find_pair(hl[k], 58, 32)->Some_0)),
        valid_utf8(hl[k].skip(spec_find_pair(hl[k], 58, 32)->Some_0 + 2)),
        entry == (
            decode_utf8(hl[k].take(spec_find_pair(hl[k], 58, 32)->Some_0)),
            decode_utf8(hl[k].skip(spec_find_pair(hl[k], 58, 32)->Some_0 + 2)),
        ),
    ensures
        headers_invariant(hl, k + 1, done.push(entry)),
{
    let tail = hl.skip(k);
    assert(tail[0] == hl[k]);
    assert(tail.drop_first() =~= hl.skip(k + 1));
    match spec_parse_headers(hl.skip(k + 1)) {
        Ok(rest) => {
            assert(spec_parse_headers(tail) == Ok::<_, ParseFailure>(seq![entry] + rest));
            assert(done + (seq![entry] + rest) =~= done.push(entry) + rest);
        },
        Err(_) => {},
    }
}

/// Inserting the entries of `es` and then `e` is inserting `es.push(e)`.
proof fn lemma_insert_all_snoc(
    acc: Seq<(Seq<char>, Seq<char>)>,
    es: Seq<(Seq<char>, Seq<char>)>,
    e: (Seq<char>, Seq<char>),
)
    ensures
        spec_insert_all(acc, es.push(e)) == spec_insert(spec_insert_all(acc, es), e.0, e.1),
    decreases es.len(),
{
    reveal_with_fuel(spec_insert_all, 3);
    if es.len() == 0 {
        assert(es.push(e)[0] == e);
        assert(es.push(e).drop_first() =~= Seq::<(Seq<char>, Seq<char>)>::empty());
    } else {
        lemma_insert_all_snoc(spec_insert(acc, es[0].0, es[0].1), es.drop_first(), e);
        assert(es.push(e)[0] == es[0]);
        assert(es.push(e).drop_first() =~= es.drop_first().push(e));
    }
}

/// A header line without the `": "` separator makes the header section
/// fail with the header-specific failure, never a generic one.
pub proof fn lemma_missing_separator_is_header_error(lines: Seq<Seq<u8>>)
    requires
        exists|i: int| 0 <= i < lines.len() && spec_find_pair(#[trigger] lines[i], 58, 32) is None,
    ensures
        spec_parse_headers(lines) matches Err(ParseFailure::MalformedHeader(_)),
    decreases lines.len(),
{
    let i = choose|i: int|
        0 <= i < lines.len() && spec_find_pair(#[trigger] lines[i], 58, 32) is None;
    let line = lines[0];
    match spec_find_pair(line, 58, 32) {
        None => {},
        Some(p) => {
            assert(i >= 1);
            if valid_utf8(line.take(p)) && valid_utf8(line.skip(p + 2)) {
                assert(lines.drop_first()[i - 1] == lines[i]);
                assert(spec_find_pair(lines.drop_first()[i - 1], 58, 32) is None);
                lemma_missing_separator_is_header_error(lines.drop_first());
            }
        },
    }
}

/// A request whose request line is in order but whose header section has
/// a line lacking `": "` fails with the header-specific error, not a
/// generic one.
pub proof fn lemma_missing_separator_fails_request(buf: Seq<u8>)
    requires
        ({
            let lines = spec_trim_tail(spec_split_pair(buf, 13, 10));
            &&& lines.len() > 0
            &&& spec_split_byte(lines[0], 32).len() >= 3
            &&& valid_utf8(spec_split_byte(lines[0], 32)[1])
            &&& spec_parse_version(spec_split_byte(lines[0], 32)[2]) is Some
            &&& exists|i: int|
                1 <= i < lines.len() && spec_find_pair(#[trigger] lines[i], 58, 32) is None
        }),
    ensures
        spec_parse_request(buf) matches Err(ParseFailure::MalformedHeader(_)),
{
    let lines = spec_trim_tail(spec_split_pair(buf, 13, 10));
    let i = choose|i: int|
        1 <= i < lines.len() && spec_find_pair(#[trigger] lines[i], 58, 32) is None;
    assert(lines.drop_first()[i - 1] == lines[i]);
    assert(spec_find_pair(lines.drop_first()[i - 1], 58, 32) is None);
    lemma_missing_separator_is_header_error(lines.drop_first());
}

/// Parse a protocol identifier, exactly as [`spec_parse_version`]
/// describes it.
fn parse_version(proto: &[u8]) -> (r: Option<HttpVersion>)
    ensures
        r == spec_parse_version(proto@),
{
    let comps = split_byte(proto, 47);
    if comps.len() < 2 {
        return None;
    }
    proof {
        assert(comps@[1].deep_view() =~= comps@[1]@);
        assert(comps.deep_view()[1] == comps@[1]@);
    }
    let parts = split_byte(comps[1].as_slice(), 46);
    proof {
        assert(parts@[0].deep_view() =~= parts@[0]@);
        assert(parts.deep_view()[0] == parts@[0]@);
    }
    if parts.len() == 1 {
        match parse_u16(parts[0].as_slice()) {
            Some(ma) => Some(HttpVersion { major: ma, minor: 0 }),
            None => None,
        }
    } else if parts.len() == 2 {
        proof {
            assert(parts@[1].deep_view() =~= parts@[1]@);
            assert(parts.deep_view()[1] == parts@[1]@);
        }
        let ma = match parse_u16(parts[0].as_slice()) {
            Some(ma) => ma,
            None => {
                return None;
            },
        };
        match parse_u16(parts[1].as_slice()) {
            Some(mi) => Some(HttpVersion { major: ma, minor: mi }),
            None => None,
        }
    } else {
        None
    }
}

} // verus!
