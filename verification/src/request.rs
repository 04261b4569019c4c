//! The structured request value a wire buffer parses into.
use vstd::prelude::*;

verus! {

use crate::error::ParseErrorKind;
use crate::error::ParseSteamError;
use crate::error::ParseErrorView;
use crate::headers::hview;
use crate::headers::unique_keys;
use crate::text::ascii;
use crate::text::bytes_eq;

/// A request method. Only these two are recognized on the wire.
#[derive(Clone, Copy, Debug, PartialEq, Eq, Structural)]
pub enum Method {
    GET,
    POST,
}

/// The method a token names, matched case-sensitively, if any.
pub open spec fn method_of(token: Seq<u8>) -> Option<Method> {
    if token == ascii("GET"@) {
        Some(Method::GET)
    } else if token == ascii("POST"@) {
        Some(Method::POST)
    } else {
        None
    }
}

impl Method {
    /// Matches a method token; an unrecognized token is a failure carrying it.
    pub fn from_str(token: &[u8]) -> (r: Result<Method, ParseSteamError>)
        ensures
            match r {
                Ok(m) => method_of(token@) == Some(m),
                Err(e) => method_of(token@) is None && e@ == (ParseErrorView {
                    kind: ParseErrorKind::UnknownMethod,
                    token: token@,
                }),
            },
    {
        proof {
            reveal_strlit("GET");
            reveal_strlit("POST");
        }
        let get = crate::text::lit("GET");
        let post = crate::text::lit("POST");
        if bytes_eq(token, get.as_slice()) {
            Ok(Method::GET)
        } else if bytes_eq(token, post.as_slice()) {
            Ok(Method::POST)
        } else {
            Err(ParseSteamError::unknown_method(vstd::slice::slice_to_vec(token)))
        }
    }
}

/// The mathematical reading of a request.
pub ghost struct RequestView {
    pub method: Method,
    pub path: Seq<u8>,
    pub headers: Seq<(Seq<u8>, Seq<u8>)>,
    pub body: Seq<u8>,
}

/// A parsed request: method, path as given on the wire, the header mapping,
/// and the body bytes.
#[derive(Debug)]
pub struct Request {
    pub method: Method,
    pub path: Vec<u8>,
    pub header: Vec<(Vec<u8>, Vec<u8>)>,
    pub body: Vec<u8>,
}

impl View for Request {
    type V = RequestView;

    open spec fn view(&self) -> RequestView {
        RequestView {
            method: self.method,
            path: self.path@,
            headers: hview(self.header@),
            body: self.body@,
        }
    }
}

impl Request {
    /// Well-formed: no two header pairs share a name.
    pub open spec fn wf(&self) -> bool {
        unique_keys(self@.headers)
    }
}

} // verus!
