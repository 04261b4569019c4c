//! The structured response value and its wire serialization.
use vstd::prelude::*;

verus! {

use crate::headers::header_get;
use crate::headers::header_insert;
use crate::headers::hview;
use crate::headers::spec_insert;
use crate::headers::spec_lookup;
use crate::headers::unique_keys;
use crate::headers::lemma_lookup_push;
use crate::num::dec_bytes;
use crate::num::dec_digits;
use crate::num::dec_val;
use crate::num::is_dec;
use crate::num::lemma_dec_bytes_val;
use crate::status::status_bytes;
use crate::status::StatusCode;
use crate::text::ascii;
use crate::text::lit;

/// The mathematical reading of a response.
pub ghost struct ResponseView {
    pub status: StatusCode,
    pub headers: Seq<(Seq<u8>, Seq<u8>)>,
    pub body: Seq<u8>,
}

/// A response under construction: status, headers in insertion order, body.
#[derive(Debug)]
pub struct Response {
    status: StatusCode,
    header: Vec<(Vec<u8>, Vec<u8>)>,
    body: Vec<u8>,
}

impl View for Response {
    type V = ResponseView;

    closed spec fn view(&self) -> ResponseView {
        ResponseView { status: self.status, headers: hview(self.header@), body: self.body@ }
    }
}

/// The wire bytes of one `name: value` line per header, in stored order.
pub open spec fn header_block(hs: Seq<(Seq<u8>, Seq<u8>)>) -> Seq<u8>
    decreases hs.len(),
{
    if hs.len() == 0 {
        Seq::empty()
    } else {
        header_block(hs.drop_last()) + hs.last().0 + ascii(": "@) + hs.last().1 + ascii("\r\n"@)
    }
}

/// The headers actually serialized: as stored, with a `Content-Length` pair
/// holding the body's byte length appended when none was set explicitly.
pub open spec fn out_headers(hs: Seq<(Seq<u8>, Seq<u8>)>, body_len: int) -> Seq<
    (Seq<u8>, Seq<u8>),
> {
    if spec_lookup(hs, ascii("Content-Length"@)) is Some {
        hs
    } else {
        hs.push((ascii("Content-Length"@), dec_bytes(body_len)))
    }
}

/// The full wire form of a response: status line, header block, blank line,
/// then the body bytes verbatim.
pub open spec fn serial(r: ResponseView) -> Seq<u8> {
    ascii("HTTP/1.1 "@) + status_bytes(r.status) + ascii("\r\n"@) + header_block(
        out_headers(r.headers, r.body.len() as int),
    ) + ascii("\r\n"@) + r.body
}

/// When no `Content-Length` was set explicitly, the serialized headers carry
/// one whose value reads back as exactly the body's byte length.
pub proof fn lemma_auto_content_length(r: ResponseView)
    requires
        spec_lookup(r.headers, ascii("Content-Length"@)) is None,
    ensures
        spec_lookup(out_headers(r.headers, r.body.len() as int), ascii("Content-Length"@))
            == Some(dec_bytes(r.body.len() as int)),
        is_dec(dec_bytes(r.body.len() as int)),
        dec_val(dec_bytes(r.body.len() as int)) == r.body.len(),
{
    let cl = ascii("Content-Length"@);
    let n = r.body.len() as int;
    lemma_lookup_push(r.headers, cl, dec_bytes(n), cl);
    lemma_dec_bytes_val(n);
}

impl Response {
    /// Well-formed: no two header pairs share a name.
    pub open spec fn wf(&self) -> bool {
        unique_keys(self@.headers)
    }

    /// A response with the given status, no headers and an empty body.
    fn with_status(status: StatusCode) -> (r: Response)
        ensures
            r@.status == status,
            r@.headers == Seq::<(Seq<u8>, Seq<u8>)>::empty(),
            r@.body == Seq::<u8>::empty(),
            r.wf(),
    {
        let header: Vec<(Vec<u8>, Vec<u8>)> = Vec::new();
        let body: Vec<u8> = Vec::new();
        let r = Response { status, header, body };
        proof {
            assert(hview(r.header@) =~= Seq::<(Seq<u8>, Seq<u8>)>::empty());
        }
        r
    }

    /// A 200 OK response with no headers and an empty body.
    pub fn ok() -> (r: Response)
        ensures
            r@.status == StatusCode::OK,
            r@.headers == Seq::<(Seq<u8>, Seq<u8>)>::empty(),
            r@.body == Seq::<u8>::empty(),
            r.wf(),
    {
        Response::with_status(StatusCode::OK)
    }

    /// A 404 Not Found response with no headers and an empty body.
    pub fn not_found() -> (r: Response)
        ensures
            r@.status == StatusCode::NotFound,
            r@.headers == Seq::<(Seq<u8>, Seq<u8>)>::empty(),
            r@.body == Seq::<u8>::empty(),
            r.wf(),
    {
        Response::with_status(StatusCode::NotFound)
    }

    /// A 201 Created response with no headers and an empty body.
    pub fn created() -> (r: Response)
        ensures
            r@.status == StatusCode::Created,
            r@.headers == Seq::<(Seq<u8>, Seq<u8>)>::empty(),
            r@.body == Seq::<u8>::empty(),
            r.wf(),
    {
        Response::with_status(StatusCode::Created)
    }

    /// Stores `value` under `key`, replacing an equal name's value.
    pub fn set_header(self, key: &[u8], value: &[u8]) -> (r: Response)
        ensures
            r@.status == self@.status,
            r@.headers == spec_insert(self@.headers, key@, value@),
            r@.body == self@.body,
            self.wf() ==> r.wf(),
    {
        let mut this = self;
        header_insert(
            &mut this.header,
            vstd::slice::slice_to_vec(key),
            vstd::slice::slice_to_vec(value),
        );
        this
    }

    /// Appends `body` to the stored body bytes.
    pub fn set_body(self, body: &[u8]) -> (r: Response)
        ensures
            r@.status == self@.status,
            r@.headers == self@.headers,
            r@.body == self@.body + body@,
            self.wf() ==> r.wf(),
    {
        let mut this = self;
        this.body.extend_from_slice(body);
        this
    }

    /// The status of this response.
    pub fn status(&self) -> (r: StatusCode)
        ensures
            r == self@.status,
    {
        self.status
    }

    /// The stored value under `key`, if any.
    pub fn header<'a>(&'a self, key: &[u8]) -> (r: Option<&'a Vec<u8>>)
        ensures
            match r {
                Some(v) => spec_lookup(self@.headers, key@) == Some(v@),
                None => spec_lookup(self@.headers, key@) is None,
            },
    {
        header_get(&self.header, key)
    }

    /// The stored body bytes.
    pub fn body(&self) -> (r: &Vec<u8>)
        ensures
            r@ == self@.body,
    {
        &self.body
    }

    /// Serializes this response onto `out`: status line, each header line,
    /// an auto-computed `Content-Length` when none was set, a blank line,
    /// then the body bytes.
    pub fn write(self, out: &mut Vec<u8>)
        ensures
            final(out)@ == old(out)@ + serial(self@),
    {
        let ghost orig = self@;
        proof {
            reveal_strlit("HTTP/1.1 ");
            reveal_strlit("\r\n");
            reveal_strlit(": ");
            reveal_strlit("Content-Length");
        }
        let crlf = lit("\r\n");
        let colon_sp = lit(": ");
        let cl_key = lit("Content-Length");

        crate::text::push_bytes(out, lit("HTTP/1.1 ").as_slice());
        let status_text = self.status.status_text();
        crate::text::push_bytes(out, status_text.as_slice());
        crate::text::push_bytes(out, crlf.as_slice());
        let ghost start = old(out)@ + ascii("HTTP/1.1 "@) + status_bytes(orig.status) + ascii(
            "\r\n"@,
        );
        assert(out@ =~= start);

        let mut this = self;
        if header_get(&this.header, cl_key.as_slice()).is_none() {
            let n = dec_digits(this.body.len());
            this.header.push((cl_key, n));
            proof {
                assert(hview(this.header@) =~= out_headers(orig.headers, orig.body.len() as int));
            }
        }
        let ghost hs = hview(this.header@);
        proof {
            assert(hs =~= out_headers(orig.headers, orig.body.len() as int));
        }

        let mut i: usize = 0;
        while i < this.header.len()
            invariant
                0 <= i <= this.header@.len(),
                hs == hview(this.header@),
                hs.len() == this.header@.len(),
                colon_sp@ == ascii(": "@),
                crlf@ == ascii("\r\n"@),
                out@ == start + header_block(hs.subrange(0, i as int)),
            decreases this.header@.len() - i,
        {
            proof {
                assert(hs[i as int] == (this.header@[i as int].0@, this.header@[i as int].1@));
            }
            let ghost o0 = out@;
            crate::text::push_bytes(out, this.header[i].0.as_slice());
            crate::text::push_bytes(out, colon_sp.as_slice());
            crate::text::push_bytes(out, this.header[i].1.as_slice());
            crate::text::push_bytes(out, crlf.as_slice());
            proof {
                let sub0 = hs.subrange(0, i as int);
                let sub1 = hs.subrange(0, i + 1);
                assert(sub1.drop_last() =~= sub0);
                assert(sub1.last() == hs[i as int]);
                assert(hs[i as int].0 == this.header@[i as int].0@);
                assert(hs[i as int].1 == this.header@[i as int].1@);
                let kk = hs[i as int].0;
                let vv = hs[i as int].1;
                assert(out@ == o0 + kk + ascii(": "@) + vv + ascii("\r\n"@));
                assert(o0 == start + header_block(sub0));
                assert(header_block(sub1) == header_block(sub0) + kk + ascii(": "@) + vv + ascii(
                    "\r\n"@,
                ));
                assert(out@ == start + header_block(sub0) + kk + ascii(": "@) + vv + ascii(
                    "\r\n"@,
                ));
                assert(start + (header_block(sub0) + kk + ascii(": "@) + vv + ascii("\r\n"@))
                    =~= start + header_block(sub0) + kk + ascii(": "@) + vv + ascii("\r\n"@));
                assert(out@ =~= start + header_block(sub1));
            }
            i += 1;
        }
        proof {
            assert(hs.subrange(0, hs.len() as int) =~= hs);
        }
        crate::text::push_bytes(out, crlf.as_slice());
        crate::text::push_bytes(out, this.body.as_slice());
        proof {
            assert(this.body@ == orig.body);
            assert(out@ =~= old(out)@ + serial(orig));
        }
    }
}

impl Default for Response {
    /// The default response: status 200 OK, no headers, empty body.
    fn default() -> (r: Response)
        ensures
            r@.status == StatusCode::OK,
            r@.headers == Seq::<(Seq<u8>, Seq<u8>)>::empty(),
            r@.body == Seq::<u8>::empty(),
            r.wf(),
    {
        Response::ok()
    }
}

} // verus!
