//! The closed set of HTTP request methods with its exact wire mapping.
//! A token outside the set is a parse failure, never silently coerced.

use vstd::prelude::*;
use crate::scan::str_eq;

verus! {

/// One of the eight HTTP verbs.
#[derive(Clone, Copy, Debug, PartialEq, Eq, Structural)]
pub enum RequestMethod {
    GET,
    HEAD,
    POST,
    PUT,
    DELETE,
    CONNECT,
    OPTIONS,
    TRACE,
}

/// The canonical wire token of a method.
pub open spec fn method_token(m: RequestMethod) -> Seq<char> {
    match m {
        RequestMethod::GET => "GET"@,
        RequestMethod::HEAD => "HEAD"@,
        RequestMethod::POST => "POST"@,
        RequestMethod::PUT => "PUT"@,
        RequestMethod::DELETE => "DELETE"@,
        RequestMethod::CONNECT => "CONNECT"@,
        RequestMethod::OPTIONS => "OPTIONS"@,
        RequestMethod::TRACE => "TRACE"@,
    }
}

/// Exact, case-sensitive match of a token against the eight canonical ones.
pub open spec fn spec_parse_method(s: Seq<char>) -> Option<RequestMethod> {
    if s == "GET"@ {
        Some(RequestMethod::GET)
    } else if s == "HEAD"@ {
        Some(RequestMethod::HEAD)
    } else if s == "POST"@ {
        Some(RequestMethod::POST)
    } else if s == "PUT"@ {
        Some(RequestMethod::PUT)
    } else if s == "DELETE"@ {
        Some(RequestMethod::DELETE)
    } else if s == "CONNECT"@ {
        Some(RequestMethod::CONNECT)
    } else if s == "OPTIONS"@ {
        Some(RequestMethod::OPTIONS)
    } else if s == "TRACE"@ {
        Some(RequestMethod::TRACE)
    } else {
        None
    }
}

/// Parsing a canonical token yields its method, rendering that method
/// yields the token back, and every other token fails to parse.
pub proof fn lemma_method_round_trip()
    ensures
        forall|m: RequestMethod| spec_parse_method(#[trigger] method_token(m)) == Some(m),
        forall|s: Seq<char>|
            #[trigger] spec_parse_method(s) is Some ==> method_token(spec_parse_method(s)->Some_0)
                == s,
{
    reveal_strlit("GET");
    reveal_strlit("HEAD");
    reveal_strlit("POST");
    reveal_strlit("PUT");
    reveal_strlit("DELETE");
    reveal_strlit("CONNECT");
    reveal_strlit("OPTIONS");
    reveal_strlit("TRACE");
    assert("GET"@.len() == 3 && "GET"@[0] == 'G');
    assert("HEAD"@.len() == 4 && "HEAD"@[0] == 'H');
    assert("POST"@.len() == 4 && "POST"@[0] == 'P');
    assert("PUT"@.len() == 3 && "PUT"@[0] == 'P');
    assert("DELETE"@.len() == 6 && "DELETE"@[0] == 'D');
    assert("CONNECT"@.len() == 7 && "CONNECT"@[0] == 'C');
    assert("OPTIONS"@.len() == 7 && "OPTIONS"@[0] == 'O');
    assert("TRACE"@.len() == 5 && "TRACE"@[0] == 'T');
    assert forall|m: RequestMethod| spec_parse_method(#[trigger] method_token(m)) == Some(m) by {
        match m {
            RequestMethod::GET => assert(spec_parse_method("GET"@) == Some(RequestMethod::GET)),
            RequestMethod::HEAD => assert(spec_parse_method("HEAD"@) == Some(RequestMethod::HEAD)),
            RequestMethod::POST => assert(spec_parse_method("POST"@) == Some(RequestMethod::POST)),
            RequestMethod::PUT => assert(spec_parse_method("PUT"@) == Some(RequestMethod::PUT)),
            RequestMethod::DELETE => assert(spec_parse_method("DELETE"@) == Some(
                RequestMethod::DELETE,
            )),
            RequestMethod::CONNECT => assert(spec_parse_method("CONNECT"@) == Some(
                RequestMethod::CONNECT,
            )),
            RequestMethod::OPTIONS => assert(spec_parse_method("OPTIONS"@) == Some(
                RequestMethod::OPTIONS,
            )),
            RequestMethod::TRACE => assert(spec_parse_method("TRACE"@) == Some(
                RequestMethod::TRACE,
            )),
        }
    }
}

impl RequestMethod {
    /// Resolve a wire token to its method; any other token is rejected.
    pub fn from_str<'a>(method: &'a str) -> (r: Result<RequestMethod, &'a str>)
        ensures
            match spec_parse_method(method@) {
                Some(m) => r matches Ok(got) && got == m,
                None => r is Err,
            },
    {
        if str_eq(method, "GET") {
            Ok(RequestMethod::GET)
        } else if str_eq(method, "HEAD") {
            Ok(RequestMethod::HEAD)
        } else if str_eq(method, "POST") {
            Ok(RequestMethod::POST)
        } else if str_eq(method, "PUT") {
            Ok(RequestMethod::PUT)
        } else if str_eq(method, "DELETE") {
            Ok(RequestMethod::DELETE)
        } else if str_eq(method, "CONNECT") {
            Ok(RequestMethod::CONNECT)
        } else if str_eq(method, "OPTIONS") {
            Ok(RequestMethod::OPTIONS)
        } else if str_eq(method, "TRACE") {
            Ok(RequestMethod::TRACE)
        } else {
            Err("Selected method is not found in enum.")
        }
    }

    /// The canonical wire token of this method.
    pub fn to_string(&self) -> (r: &'static str)
        ensures
            r@ == method_token(*self),
    {
        match self {
            RequestMethod::GET => "GET",
            RequestMethod::HEAD => "HEAD",
            RequestMethod::POST => "POST",
            RequestMethod::PUT => "PUT",
            RequestMethod::DELETE => "DELETE",
            RequestMethod::CONNECT => "CONNECT",
            RequestMethod::OPTIONS => "OPTIONS",
            RequestMethod::TRACE => "TRACE",
        }
    }
}

impl Default for RequestMethod {
    /// The default method is GET, as for a freshly built request.
    fn default() -> (r: Self)
        ensures
            r == RequestMethod::GET,
    {
        RequestMethod::GET
    }
}

} // verus!
