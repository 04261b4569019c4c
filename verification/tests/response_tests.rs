use http_core::Response;
use http_core::StatusCode;

fn serialized(r: Response) -> Vec<u8> {
    let mut out = Vec::new();
    r.write(&mut out);
    out
}

#[test]
fn builder_chain_serializes_exactly() {
    let out = serialized(
        Response::ok()
            .set_header(b"Content-Type", b"text/plain")
            .set_body(b"abc"),
    );
    assert_eq!(
        out,
        b"HTTP/1.1 200 OK\r\nContent-Type: text/plain\r\nContent-Length: 3\r\n\r\nabc".to_vec()
    );
}

#[test]
fn auto_content_length_counts_bytes_not_characters() {
    let out = serialized(Response::ok().set_body("\u{20ac}".as_bytes()));
    assert_eq!(out, b"HTTP/1.1 200 OK\r\nContent-Length: 3\r\n\r\n\xe2\x82\xac".to_vec());
}

#[test]
fn explicit_content_length_is_kept() {
    let out = serialized(
        Response::ok()
            .set_header(b"Content-Length", b"99")
            .set_body(b"abc"),
    );
    assert_eq!(out, b"HTTP/1.1 200 OK\r\nContent-Length: 99\r\n\r\nabc".to_vec());
}

#[test]
fn not_found_serializes_with_zero_length() {
    let out = serialized(Response::not_found());
    assert_eq!(out, b"HTTP/1.1 404 Not Found\r\nContent-Length: 0\r\n\r\n".to_vec());
}

#[test]
fn created_serializes_with_zero_length() {
    let out = serialized(Response::created());
    assert_eq!(out, b"HTTP/1.1 201 Created\r\nContent-Length: 0\r\n\r\n".to_vec());
}

#[test]
fn set_body_appends_and_length_is_of_final_body() {
    let out = serialized(Response::ok().set_body(b"ab").set_body(b"c"));
    assert_eq!(out, b"HTTP/1.1 200 OK\r\nContent-Length: 3\r\n\r\nabc".to_vec());
}

#[test]
fn set_header_replaces_existing_name() {
    let out = serialized(
        Response::ok()
            .set_header(b"A", b"1")
            .set_header(b"A", b"2"),
    );
    assert_eq!(out, b"HTTP/1.1 200 OK\r\nA: 2\r\nContent-Length: 0\r\n\r\n".to_vec());
}

#[test]
fn longer_body_length_is_printed_in_decimal() {
    let body = vec![b'x'; 1234];
    let resp = Response::ok().set_body(&body);
    let out = serialized(resp);
    let head = b"HTTP/1.1 200 OK\r\nContent-Length: 1234\r\n\r\n";
    assert_eq!(&out[..head.len()], &head[..]);
    assert_eq!(out.len(), head.len() + 1234);
}

#[test]
fn status_getters_report_what_was_built() {
    assert_eq!(Response::ok().status(), StatusCode::OK);
    assert_eq!(Response::created().status(), StatusCode::Created);
    assert_eq!(Response::not_found().status(), StatusCode::NotFound);
    let r = Response::ok().set_header(b"K", b"v").set_body(b"zz");
    assert_eq!(r.header(b"K").unwrap(), &b"v".to_vec());
    assert!(r.header(b"Missing").is_none());
    assert_eq!(r.body(), &b"zz".to_vec());
}

#[test]
fn status_text_matches_fixed_mapping() {
    assert_eq!(StatusCode::OK.status_text(), b"200 OK".to_vec());
    assert_eq!(StatusCode::Created.status_text(), b"201 Created".to_vec());
    assert_eq!(StatusCode::NotFound.status_text(), b"404 Not Found".to_vec());
}

#[test]
fn default_response_is_ok_and_empty() {
    let out = serialized(Response::default());
    assert_eq!(out, b"HTTP/1.1 200 OK\r\nContent-Length: 0\r\n\r\n".to_vec());
}
