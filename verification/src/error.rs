//! The parser's failure value, with a distinguishable reason for each way a
//! request buffer can be rejected and a human-readable message.
use vstd::prelude::*;

verus! {

use crate::text::ascii;

/// Why a request buffer was rejected.
#[derive(Clone, Copy, Debug, PartialEq, Eq, Structural)]
pub enum ParseErrorKind {
    /// No header line at all was found before the blank line.
    EmptyInput,
    /// The start line did not split into exactly three space-separated tokens.
    MalformedStartLine,
    /// The method token matched no known method; the token is carried along.
    UnknownMethod,
    /// Fewer body bytes were available than `Content-Length` declared.
    BodyTruncated,
}

/// The mathematical reading of a parse failure.
pub ghost struct ParseErrorView {
    pub kind: ParseErrorKind,
    pub token: Seq<u8>,
}

/// A failure to parse a request buffer. Carries the reason and, for an
/// unknown method, the offending token.
#[derive(Debug, PartialEq, Eq)]
pub struct ParseSteamError {
    kind: ParseErrorKind,
    token: Vec<u8>,
}

impl View for ParseSteamError {
    type V = ParseErrorView;

    closed spec fn view(&self) -> ParseErrorView {
        ParseErrorView { kind: self.kind, token: self.token@ }
    }
}

/// The message text belonging to a parse failure.
pub open spec fn spec_message(e: ParseErrorView) -> Seq<u8> {
    match e.kind {
        ParseErrorKind::EmptyInput => ascii("Invalid request"@),
        ParseErrorKind::MalformedStartLine => ascii("Invalid request"@),
        ParseErrorKind::UnknownMethod => ascii("Invalid Http Method "@) + e.token,
        ParseErrorKind::BodyTruncated => ascii("failed to fill whole buffer"@),
    }
}

impl ParseSteamError {
    /// A failure with the given reason and no offending token.
    pub fn new(kind: ParseErrorKind) -> (r: ParseSteamError)
        ensures
            r@ == (ParseErrorView { kind, token: Seq::<u8>::empty() }),
    {
        let token: Vec<u8> = Vec::new();
        ParseSteamError { kind, token }
    }

    /// The failure for a method token that matched no known method.
    pub fn unknown_method(token: Vec<u8>) -> (r: ParseSteamError)
        ensures
            r@ == (ParseErrorView { kind: ParseErrorKind::UnknownMethod, token: token@ }),
    {
        ParseSteamError { kind: ParseErrorKind::UnknownMethod, token }
    }

    /// The reason this parse failed.
    pub fn kind(&self) -> (r: ParseErrorKind)
        ensures
            r == self@.kind,
    {
        self.kind
    }

    /// The offending token, empty unless the method was unknown.
    pub fn token(&self) -> (r: &Vec<u8>)
        ensures
            r@ == self@.token,
    {
        &self.token
    }

    /// The message text of this failure; it is never empty.
    pub fn message(&self) -> (r: Vec<u8>)
        ensures
            r@ == spec_message(self@),
            r@.len() > 0,
    {
        match self.kind {
            ParseErrorKind::EmptyInput | ParseErrorKind::MalformedStartLine => {
                proof {
                    reveal_strlit("Invalid request");
                }
                crate::text::lit("Invalid request")
            },
            ParseErrorKind::UnknownMethod => {
                proof {
                    reveal_strlit("Invalid Http Method ");
                }
                let mut m = crate::text::lit("Invalid Http Method ");
                crate::text::push_bytes(&mut m, self.token.as_slice());
                m
            },
            ParseErrorKind::BodyTruncated => {
                proof {
                    reveal_strlit("failed to fill whole buffer");
                }
                crate::text::lit("failed to fill whole buffer")
            },
        }
    }
}

} // verus!
