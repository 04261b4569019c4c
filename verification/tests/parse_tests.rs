use http_core::headers::header_get;
use http_core::parse_request;
use http_core::Method;
use http_core::ParseErrorKind;

#[test]
fn parses_user_agent_request() {
    let input = b"GET /user-agent HTTP/1.1\r\nHost: x\r\nUser-Agent: testclient\r\n\r\n";
    let req = parse_request(input).unwrap();
    assert_eq!(req.method, Method::GET);
    assert_eq!(req.path, b"/user-agent".to_vec());
    assert_eq!(req.header.len(), 2);
    assert_eq!(
        header_get(&req.header, b"Host").unwrap(),
        &b"x".to_vec()
    );
    assert_eq!(
        header_get(&req.header, b"User-Agent").unwrap(),
        &b"testclient".to_vec()
    );
    assert!(req.body.is_empty());
}

#[test]
fn parses_post_body_of_declared_length() {
    let input = b"POST /files/foo.txt HTTP/1.1\r\nContent-Length: 5\r\n\r\nhello";
    let req = parse_request(input).unwrap();
    assert_eq!(req.method, Method::POST);
    assert_eq!(req.path, b"/files/foo.txt".to_vec());
    assert_eq!(req.body, b"hello".to_vec());
}

#[test]
fn body_length_matches_declared_length_and_trailing_bytes() {
    let input = b"POST /x HTTP/1.1\r\nContent-Length: 3\r\n\r\nabc";
    let req = parse_request(input).unwrap();
    assert_eq!(req.body.len(), 3);
    assert_eq!(&req.body[..], &input[input.len() - 3..]);
}

#[test]
fn blank_line_only_fails_with_nonempty_message() {
    let req = parse_request(b"\r\n");
    let err = req.unwrap_err();
    assert!(!err.message().is_empty());
    assert_eq!(err.kind(), ParseErrorKind::EmptyInput);
}

#[test]
fn empty_input_fails() {
    let err = parse_request(b"").unwrap_err();
    assert_eq!(err.kind(), ParseErrorKind::EmptyInput);
    assert_eq!(err.message(), b"Invalid request".to_vec());
}

#[test]
fn start_line_with_two_tokens_fails() {
    let err = parse_request(b"GET /\r\n\r\n").unwrap_err();
    assert_eq!(err.kind(), ParseErrorKind::MalformedStartLine);
    assert_eq!(err.message(), b"Invalid request".to_vec());
}

#[test]
fn start_line_with_four_tokens_fails() {
    let err = parse_request(b"GET / HTTP/1.1 extra\r\n\r\n").unwrap_err();
    assert_eq!(err.kind(), ParseErrorKind::MalformedStartLine);
}

#[test]
fn unknown_method_fails_with_token_in_message() {
    let err = parse_request(b"PATCH / HTTP/1.1\r\n\r\n").unwrap_err();
    assert_eq!(err.kind(), ParseErrorKind::UnknownMethod);
    assert_eq!(err.token(), &b"PATCH".to_vec());
    assert_eq!(err.message(), b"Invalid Http Method PATCH".to_vec());
}

#[test]
fn truncated_body_fails() {
    let err = parse_request(b"POST / HTTP/1.1\r\nContent-Length: 10\r\n\r\nabc").unwrap_err();
    assert_eq!(err.kind(), ParseErrorKind::BodyTruncated);
    assert!(!err.message().is_empty());
}

#[test]
fn unparseable_content_length_means_empty_body() {
    let req = parse_request(b"POST / HTTP/1.1\r\nContent-Length: x5\r\n\r\nhello").unwrap();
    assert!(req.body.is_empty());
}

#[test]
fn oversized_content_length_means_empty_body() {
    let input = b"POST / HTTP/1.1\r\nContent-Length: 99999999999999999999999999\r\n\r\nhello";
    let req = parse_request(input).unwrap();
    assert!(req.body.is_empty());
}

#[test]
fn content_length_with_leading_zeros_is_read() {
    let req = parse_request(b"POST / HTTP/1.1\r\nContent-Length: 05\r\n\r\nhello").unwrap();
    assert_eq!(req.body, b"hello".to_vec());
}

#[test]
fn separatorless_header_line_is_dropped_not_an_error() {
    let input = b"GET / HTTP/1.1\r\nGood: yes\r\nbad-line-without-separator\r\n\r\n";
    let req = parse_request(input).unwrap();
    assert_eq!(req.header.len(), 1);
    assert_eq!(header_get(&req.header, b"Good").unwrap(), &b"yes".to_vec());
    assert!(header_get(&req.header, b"bad-line-without-separator").is_none());
}

#[test]
fn colon_without_space_is_no_separator() {
    let req = parse_request(b"GET / HTTP/1.1\r\nName:value\r\n\r\n").unwrap();
    assert!(req.header.is_empty());
}

#[test]
fn duplicate_header_keeps_last_value_once() {
    let req = parse_request(b"GET / HTTP/1.1\r\nA: 1\r\nA: 2\r\n\r\n").unwrap();
    assert_eq!(req.header.len(), 1);
    assert_eq!(header_get(&req.header, b"A").unwrap(), &b"2".to_vec());
}

#[test]
fn missing_blank_line_still_parses_with_empty_body() {
    let req = parse_request(b"GET / HTTP/1.1\r\nHost: x").unwrap();
    assert_eq!(req.method, Method::GET);
    assert_eq!(header_get(&req.header, b"Host").unwrap(), &b"x".to_vec());
    assert!(req.body.is_empty());
}

#[test]
fn bytes_after_headers_without_content_length_are_ignored() {
    let req = parse_request(b"GET / HTTP/1.1\r\n\r\ntrailing bytes").unwrap();
    assert!(req.body.is_empty());
}

#[test]
fn bare_newline_line_endings_are_accepted() {
    let req = parse_request(b"GET /p HTTP/1.1\nHost: y\n\n").unwrap();
    assert_eq!(req.path, b"/p".to_vec());
    assert_eq!(header_get(&req.header, b"Host").unwrap(), &b"y".to_vec());
}

#[test]
fn method_tokens_match_case_sensitively() {
    assert_eq!(Method::from_str(b"GET").unwrap(), Method::GET);
    assert_eq!(Method::from_str(b"POST").unwrap(), Method::POST);
    let err = Method::from_str(b"get").unwrap_err();
    assert_eq!(err.kind(), ParseErrorKind::UnknownMethod);
    assert_eq!(err.message(), b"Invalid Http Method get".to_vec());
}
