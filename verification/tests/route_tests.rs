use std::io::Read;

use http_core::file_path;
use http_core::file_read_reply;
use http_core::file_write_reply;
use http_core::handle_request;
use http_core::parse_request;
use http_core::HandleStep;
use http_core::Method;
use http_core::Request;
use http_core::Response;
use http_core::StatusCode;

fn serialized(r: Response) -> Vec<u8> {
    let mut out = Vec::new();
    r.write(&mut out);
    out
}

fn request(method: Method, path: &[u8], header: Vec<(Vec<u8>, Vec<u8>)>, body: &[u8]) -> Request {
    Request {
        method,
        path: path.to_vec(),
        header,
        body: body.to_vec(),
    }
}

#[test]
fn root_path_answers_ok() {
    let req = request(Method::GET, b"/", vec![], b"");
    match handle_request(&req) {
        HandleStep::Reply(resp) => {
            assert_eq!(
                serialized(resp),
                b"HTTP/1.1 200 OK\r\nContent-Length: 0\r\n\r\n".to_vec()
            );
        }
        _ => panic!("expected a ready reply"),
    }
}

#[test]
fn echo_without_gzip_reflects_suffix() {
    let req = request(Method::GET, b"/echo/hello", vec![], b"");
    match handle_request(&req) {
        HandleStep::Reply(resp) => {
            assert_eq!(
                serialized(resp),
                b"HTTP/1.1 200 OK\r\nContent-Type: text/plain\r\nContent-Length: 5\r\n\r\nhello"
                    .to_vec()
            );
        }
        _ => panic!("expected a ready reply"),
    }
}

#[test]
fn echo_with_gzip_compresses_the_suffix() {
    let header = vec![(b"Accept-Encoding".to_vec(), b"gzip".to_vec())];
    let req = request(Method::GET, b"/echo/hello", header, b"");
    match handle_request(&req) {
        HandleStep::Reply(resp) => {
            assert_eq!(resp.status(), StatusCode::OK);
            assert_eq!(resp.header(b"Content-Encoding").unwrap(), &b"gzip".to_vec());
            assert_eq!(
                resp.header(b"Content-Type").unwrap(),
                &b"text/plain".to_vec()
            );
            let body = resp.body().clone();
            assert_eq!(
                resp.header(b"Content-Length").unwrap(),
                &body.len().to_string().into_bytes()
            );
            let mut decoder = flate2::read::GzDecoder::new(&body[..]);
            let mut plain = Vec::new();
            decoder.read_to_end(&mut plain).unwrap();
            assert_eq!(plain, b"hello".to_vec());
        }
        _ => panic!("expected a ready reply"),
    }
}

#[test]
fn echo_accept_encoding_without_gzip_stays_plain() {
    let header = vec![(b"Accept-Encoding".to_vec(), b"deflate, br".to_vec())];
    let req = request(Method::GET, b"/echo/hi", header, b"");
    match handle_request(&req) {
        HandleStep::Reply(resp) => {
            assert!(resp.header(b"Content-Encoding").is_none());
            assert_eq!(resp.body(), &b"hi".to_vec());
        }
        _ => panic!("expected a ready reply"),
    }
}

#[test]
fn user_agent_route_reflects_the_header() {
    let input = b"GET /user-agent HTTP/1.1\r\nHost: x\r\nUser-Agent: testclient\r\n\r\n";
    let req = parse_request(input).unwrap();
    match handle_request(&req) {
        HandleStep::Reply(resp) => {
            assert_eq!(
                serialized(resp),
                b"HTTP/1.1 200 OK\r\nContent-type: text/plain\r\nContent-Length: 10\r\n\r\ntestclient"
                    .to_vec()
            );
        }
        _ => panic!("expected a ready reply"),
    }
}

#[test]
fn user_agent_route_with_no_header_reflects_empty() {
    let req = request(Method::GET, b"/user-agent", vec![], b"");
    match handle_request(&req) {
        HandleStep::Reply(resp) => {
            assert_eq!(resp.body().len(), 0);
            assert_eq!(resp.header(b"Content-Length").unwrap(), &b"0".to_vec());
        }
        _ => panic!("expected a ready reply"),
    }
}

#[test]
fn files_get_becomes_a_read() {
    let req = request(Method::GET, b"/files/foo.txt", vec![], b"");
    match handle_request(&req) {
        HandleStep::FileRead(name) => assert_eq!(name, b"foo.txt".to_vec()),
        _ => panic!("expected a file read"),
    }
}

#[test]
fn files_post_becomes_a_write_of_the_body() {
    let req = request(Method::POST, b"/files/foo.txt", vec![], b"hello");
    match handle_request(&req) {
        HandleStep::FileWrite(name, data) => {
            assert_eq!(name, b"foo.txt".to_vec());
            assert_eq!(data, b"hello".to_vec());
        }
        _ => panic!("expected a file write"),
    }
}

#[test]
fn unknown_path_answers_not_found() {
    let req = request(Method::GET, b"/missing", vec![], b"");
    match handle_request(&req) {
        HandleStep::Reply(resp) => {
            assert_eq!(
                serialized(resp),
                b"HTTP/1.1 404 Not Found\r\nContent-Length: 0\r\n\r\n".to_vec()
            );
        }
        _ => panic!("expected a ready reply"),
    }
}

#[test]
fn file_read_reply_serves_bytes_or_not_found() {
    let ok = file_read_reply(Some(b"data".to_vec()));
    assert_eq!(
        serialized(ok),
        b"HTTP/1.1 200 OK\r\nContent-Type: application/octet-stream\r\nContent-Length: 4\r\n\r\ndata"
            .to_vec()
    );
    let missing = file_read_reply(None);
    assert_eq!(missing.status(), StatusCode::NotFound);
}

#[test]
fn file_write_reply_reports_created_or_not_found() {
    assert_eq!(file_write_reply(true).status(), StatusCode::Created);
    assert_eq!(file_write_reply(false).status(), StatusCode::NotFound);
}

#[test]
fn file_path_joins_with_a_slash() {
    assert_eq!(file_path(b"/tmp/dir", b"a.txt"), b"/tmp/dir/a.txt".to_vec());
}
