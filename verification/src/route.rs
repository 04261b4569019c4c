//! The routing decisions of the server: which response, or which file
//! operation, a parsed request calls for. File reads and writes themselves
//! are the caller's to perform; their outcomes come back through
//! [`file_read_reply`] and [`file_write_reply`].
use vstd::prelude::*;

verus! {

use crate::headers::key_at;
use crate::headers::spec_lookup;
use crate::num::dec_bytes;
use crate::num::dec_digits;
use crate::request::Method;
use crate::request::Request;
use crate::response::Response;
use crate::response::ResponseView;
use crate::status::StatusCode;
use crate::text::ascii;
use crate::text::contains_bytes;
use crate::text::lit;
use crate::text::spec_contains;
use crate::text::spec_starts_with;
use crate::text::starts_with;
use crate::text::bytes_eq;

/// Relies on flate2's `GzEncoder` writing into a `Vec` sink: `write_all` and
/// `finish` return the complete gzip stream for the input, and cannot fail
/// because writes to a `Vec` cannot fail.
#[verifier::external_body]
fn gzip(data: &[u8]) -> (r: Vec<u8>) {
    let mut encoder = flate2::write::GzEncoder::new(Vec::new(), flate2::Compression::default());
    std::io::Write::write_all(&mut encoder, data).unwrap();
    encoder.finish().unwrap()
}

/// What handling a request calls for: a ready response, or a file operation
/// the caller must perform before a response can be built.
pub enum HandleStep {
    /// Send this response.
    Reply(Response),
    /// Read the named file, then build the response with [`file_read_reply`].
    FileRead(Vec<u8>),
    /// Write these bytes to the named file, then build the response with
    /// [`file_write_reply`].
    FileWrite(Vec<u8>, Vec<u8>),
}

/// The response for the bare `/` path: 200 OK, no headers, no body.
pub open spec fn root_reply_view() -> ResponseView {
    ResponseView {
        status: StatusCode::OK,
        headers: Seq::empty(),
        body: Seq::empty(),
    }
}

/// The response when no route matches: 404 Not Found, no headers, no body.
pub open spec fn not_found_view() -> ResponseView {
    ResponseView {
        status: StatusCode::NotFound,
        headers: Seq::empty(),
        body: Seq::empty(),
    }
}

/// The uncompressed echo response: the text after `/echo/` as a plain-text
/// body with an explicit length header.
pub open spec fn echo_plain_view(content: Seq<u8>) -> ResponseView {
    ResponseView {
        status: StatusCode::OK,
        headers: seq![
            (ascii("Content-Type"@), ascii("text/plain"@)),
            (ascii("Content-Length"@), dec_bytes(content.len() as int)),
        ],
        body: content,
    }
}

/// The headers the compressed echo response carries for a body `b`: plain
/// text content, the compressed body's own length, and the encoding mark.
pub open spec fn echo_gzip_headers(b: Seq<u8>) -> Seq<(Seq<u8>, Seq<u8>)> {
    seq![
        (ascii("Content-Type"@), ascii("text/plain"@)),
        (ascii("Content-Length"@), dec_bytes(b.len() as int)),
        (ascii("Content-Encoding"@), ascii("gzip"@)),
    ]
}

/// The shape of the compressed echo response: its body is the compressed
/// stream, whatever bytes the compressor produced, and the length header
/// matches that body.
pub open spec fn echo_gzip_shape(r: ResponseView) -> bool {
    &&& r.status == StatusCode::OK
    &&& r.headers == echo_gzip_headers(r.body)
}

/// The reflected `User-Agent` response. This route writes its content-type
/// header name with a lower-case `t`, and the wire keeps names as given.
pub open spec fn user_agent_view(ua: Seq<u8>) -> ResponseView {
    ResponseView {
        status: StatusCode::OK,
        headers: seq![
            (ascii("Content-type"@), ascii("text/plain"@)),
            (ascii("Content-Length"@), dec_bytes(ua.len() as int)),
        ],
        body: ua,
    }
}

/// The `User-Agent` value a request reflects: the header's value, or empty.
pub open spec fn user_agent_of(hs: Seq<(Seq<u8>, Seq<u8>)>) -> Seq<u8> {
    match spec_lookup(hs, ascii("User-Agent"@)) {
        Some(v) => v,
        None => Seq::empty(),
    }
}

/// Whether the request's `Accept-Encoding` value mentions `gzip`.
pub open spec fn accepts_gzip(hs: Seq<(Seq<u8>, Seq<u8>)>) -> bool {
    match spec_lookup(hs, ascii("Accept-Encoding"@)) {
        Some(v) => spec_contains(v, ascii("gzip"@)),
        None => false,
    }
}

/// Whether the path names the echo route.
pub open spec fn is_echo(path: Seq<u8>) -> bool {
    spec_starts_with(path, ascii("/echo/"@))
}

/// Whether the path names the files route.
pub open spec fn is_files(path: Seq<u8>) -> bool {
    spec_starts_with(path, ascii("/files/"@))
}

/// The text after `/echo/`.
pub open spec fn echo_content(path: Seq<u8>) -> Seq<u8>
    recommends
        is_echo(path),
{
    path.skip(6)
}

/// The file name after `/files/`.
pub open spec fn file_name_of(path: Seq<u8>) -> Seq<u8>
    recommends
        is_files(path),
{
    path.skip(7)
}

/// Decides what a request calls for, route by route: `/` answers 200; an
/// `/echo/` path reflects its suffix, compressed when the request accepts
/// gzip; `/user-agent` reflects that header; a `/files/` path becomes a file
/// read (GET) or write (POST) for the caller; anything else answers 404.
pub fn handle_request(req: &Request) -> (r: HandleStep)
    ensures
        req@.path == ascii("/"@) ==> (r matches HandleStep::Reply(resp) && resp@
            == root_reply_view()),
        req@.path != ascii("/"@) && is_echo(req@.path) && !accepts_gzip(req@.headers) ==> (
        r matches HandleStep::Reply(resp) && resp@ == echo_plain_view(echo_content(req@.path))),
        req@.path != ascii("/"@) && is_echo(req@.path) && accepts_gzip(req@.headers) ==> (
        r matches HandleStep::Reply(resp) && echo_gzip_shape(resp@)),
        req@.path != ascii("/"@) && !is_echo(req@.path) && req@.path == ascii("/user-agent"@) ==> (
        r matches HandleStep::Reply(resp) && resp@ == user_agent_view(
            user_agent_of(req@.headers),
        )),
        req@.path != ascii("/"@) && !is_echo(req@.path) && req@.path != ascii("/user-agent"@)
            && is_files(req@.path) && req@.method == Method::GET ==> (r matches
        HandleStep::FileRead(name) && name@ == file_name_of(req@.path)),
        req@.path != ascii("/"@) && !is_echo(req@.path) && req@.path != ascii("/user-agent"@)
            && is_files(req@.path) && req@.method == Method::POST ==> (r matches
        HandleStep::FileWrite(name, data) && name@ == file_name_of(req@.path) && data@
            == req@.body),
        req@.path != ascii("/"@) && !is_echo(req@.path) && req@.path != ascii("/user-agent"@)
            && !is_files(req@.path) ==> (r matches HandleStep::Reply(resp) && resp@
            == not_found_view()),
{
    proof {
        reveal_strlit("/");
        reveal_strlit("/echo/");
        reveal_strlit("/user-agent");
        reveal_strlit("/files/");
        reveal_strlit("Accept-Encoding");
        reveal_strlit("gzip");
        reveal_strlit("User-Agent");
        reveal_strlit("Content-Type");
        reveal_strlit("Content-Length");
        reveal_strlit("Content-Encoding");
        reveal_strlit("Content-type");
        reveal_strlit("text/plain");
    }
    let path = req.path.as_slice();
    let root = lit("/");
    let echo_prefix = lit("/echo/");
    let files_prefix = lit("/files/");
    if bytes_eq(path, root.as_slice()) {
        HandleStep::Reply(Response::ok())
    } else if starts_with(path, echo_prefix.as_slice()) {
        let content = vstd::slice::slice_to_vec(&path[6..path.len()]);
        proof {
            assert(content@ =~= echo_content(req@.path));
        }
        let wants_gzip = match crate::headers::header_get(&req.header, lit(
            "Accept-Encoding",
        ).as_slice()) {
            Some(v) => contains_bytes(v.as_slice(), lit("gzip").as_slice()),
            None => false,
        };
        if wants_gzip {
            let zipped = gzip(content.as_slice());
            let n = dec_digits(zipped.len());
            let resp = Response::ok().set_header(
                lit("Content-Type").as_slice(),
                lit("text/plain").as_slice(),
            ).set_header(lit("Content-Length").as_slice(), n.as_slice()).set_header(
                lit("Content-Encoding").as_slice(),
                lit("gzip").as_slice(),
            ).set_body(zipped.as_slice());
            proof {
                reveal_with_fuel(key_at, 8);
                reveal_strlit("Content-Type");
                reveal_strlit("Content-Length");
                reveal_strlit("Content-Encoding");
                assert(ascii("Content-Type"@).len() == 12);
                assert(ascii("Content-Length"@).len() == 14);
                assert(ascii("Content-Encoding"@).len() == 16);
                assert(ascii("Content-Type"@) != ascii("Content-Length"@));
                assert(ascii("Content-Type"@) != ascii("Content-Encoding"@));
                assert(ascii("Content-Length"@) != ascii("Content-Encoding"@));
                assert(resp@.headers =~= echo_gzip_headers(zipped@));
                assert(resp@.body =~= zipped@);
            }
            HandleStep::Reply(resp)
        } else {
            let n = dec_digits(content.len());
            let resp = Response::ok().set_header(
                lit("Content-Type").as_slice(),
                lit("text/plain").as_slice(),
            ).set_header(lit("Content-Length").as_slice(), n.as_slice()).set_body(
                content.as_slice(),
            );
            proof {
                reveal_with_fuel(key_at, 8);
                reveal_strlit("Content-Type");
                reveal_strlit("Content-Length");
                assert(ascii("Content-Type"@).len() == 12);
                assert(ascii("Content-Length"@).len() == 14);
                assert(ascii("Content-Type"@) != ascii("Content-Length"@));
                assert(resp@.headers =~= echo_plain_view(content@).headers);
                assert(resp@.body =~= content@);
            }
            HandleStep::Reply(resp)
        }
    } else if bytes_eq(path, lit("/user-agent").as_slice()) {
        let ua = match crate::headers::header_get(&req.header, lit("User-Agent").as_slice()) {
            Some(v) => v.clone(),
            None => Vec::new(),
        };
        proof {
            assert(ua@ == user_agent_of(req@.headers));
        }
        let n = dec_digits(ua.len());
        let resp = Response::ok().set_header(
            lit("Content-type").as_slice(),
            lit("text/plain").as_slice(),
        ).set_header(lit("Content-Length").as_slice(), n.as_slice()).set_body(ua.as_slice());
        proof {
            reveal_with_fuel(key_at, 8);
            reveal_strlit("Content-type");
            reveal_strlit("Content-Length");
            assert(ascii("Content-type"@).len() == 12);
            assert(ascii("Content-Length"@).len() == 14);
            assert(ascii("Content-type"@) != ascii("Content-Length"@));
            assert(resp@.headers =~= user_agent_view(ua@).headers);
            assert(resp@.body =~= ua@);
        }
        HandleStep::Reply(resp)
    } else if starts_with(path, files_prefix.as_slice()) {
        let name = vstd::slice::slice_to_vec(&path[7..path.len()]);
        proof {
            assert(name@ =~= file_name_of(req@.path));
        }
        match req.method {
            Method::GET => HandleStep::FileRead(name),
            Method::POST => HandleStep::FileWrite(name, req.body.clone()),
        }
    } else {
        HandleStep::Reply(Response::not_found())
    }
}

/// The response after reading the named file: its bytes as an octet stream
/// with an explicit length, or 404 when the read yielded nothing.
pub fn file_read_reply(content: Option<Vec<u8>>) -> (r: Response)
    ensures
        match content {
            Some(text) => r@ == (ResponseView {
                status: StatusCode::OK,
                headers: seq![
                    (ascii("Content-Type"@), ascii("application/octet-stream"@)),
                    (ascii("Content-Length"@), dec_bytes(text@.len() as int)),
                ],
                body: text@,
            }),
            None => r@ == not_found_view(),
        },
{
    proof {
        reveal_strlit("Content-Type");
        reveal_strlit("Content-Length");
        reveal_strlit("application/octet-stream");
    }
    match content {
        Some(text) => {
            let n = dec_digits(text.len());
            let resp = Response::ok().set_header(
                lit("Content-Type").as_slice(),
                lit("application/octet-stream").as_slice(),
            ).set_header(lit("Content-Length").as_slice(), n.as_slice()).set_body(text.as_slice());
            proof {
                reveal_with_fuel(key_at, 8);
                reveal_strlit("Content-Type");
                reveal_strlit("Content-Length");
                assert(ascii("Content-Type"@).len() == 12);
                assert(ascii("Content-Length"@).len() == 14);
                assert(ascii("Content-Type"@) != ascii("Content-Length"@));
                assert(resp@.headers =~= seq![
                    (ascii("Content-Type"@), ascii("application/octet-stream"@)),
                    (ascii("Content-Length"@), dec_bytes(text@.len() as int)),
                ]);
                assert(resp@.body =~= text@);
            }
            resp
        },
        None => Response::not_found(),
    }
}

/// The response after writing the posted file: 201 when the write succeeded,
/// else 404.
pub fn file_write_reply(ok: bool) -> (r: Response)
    ensures
        ok ==> r@ == (ResponseView {
            status: StatusCode::Created,
            headers: Seq::empty(),
            body: Seq::empty(),
        }),
        !ok ==> r@ == not_found_view(),
{
    if ok {
        Response::created()
    } else {
        Response::not_found()
    }
}

/// The path of a file inside a directory: `dir`, a slash, then the name.
pub fn file_path(dir: &[u8], name: &[u8]) -> (r: Vec<u8>)
    ensures
        r@ == dir@ + ascii("/"@) + name@,
{
    proof {
        reveal_strlit("/");
    }
    let mut r = vstd::slice::slice_to_vec(dir);
    crate::text::push_bytes(&mut r, lit("/").as_slice());
    crate::text::push_bytes(&mut r, name);
    r
}

} // verus!
