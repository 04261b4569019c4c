//! The closed set of status codes this core can put on the wire.
use vstd::prelude::*;

verus! {

use crate::text::ascii;

/// A response status. The wire vocabulary is closed: 200, 201 and 404.
#[derive(Clone, Copy, Debug, PartialEq, Eq, Structural)]
pub enum StatusCode {
    OK,
    Created,
    NotFound,
}

/// The status line text put on the wire for each status.
pub open spec fn status_bytes(c: StatusCode) -> Seq<u8> {
    match c {
        StatusCode::OK => ascii("200 OK"@),
        StatusCode::Created => ascii("201 Created"@),
        StatusCode::NotFound => ascii("404 Not Found"@),
    }
}

impl StatusCode {
    /// The numeric code and reason phrase of this status, as wire bytes.
    pub fn status_text(&self) -> (r: Vec<u8>)
        ensures
            r@ == status_bytes(*self),
    {
        match self {
            StatusCode::OK => {
                proof {
                    reveal_strlit("200 OK");
                }
                crate::text::lit("200 OK")
            },
            StatusCode::Created => {
                proof {
                    reveal_strlit("201 Created");
                }
                crate::text::lit("201 Created")
            },
            StatusCode::NotFound => {
                proof {
                    reveal_strlit("404 Not Found");
                }
                crate::text::lit("404 Not Found")
            },
        }
    }
}

impl Default for StatusCode {
    /// The default status is 200 OK.
    fn default() -> (r: StatusCode)
        ensures
            r == StatusCode::OK,
    {
        StatusCode::OK
    }
}

} // verus!
