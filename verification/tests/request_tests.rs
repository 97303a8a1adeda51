use forge_watch::http::http_text;
use forge_watch::request::{
    accept_head, classify, eq_ignoring_case, is_ws_upgrade, names_host, ConnectionStep, Header,
    ParsedRequest, ReadStep, RequestHead, RequestReader, MAX_HEADERS, READ_TIMEOUT_SECONDS,
    REQUEST_LIMIT,
};
use forge_watch::text::is_text;

fn dispatched(step: ConnectionStep) -> (String, String) {
    match step {
        ConnectionStep::Dispatch { method, path } => (method, path),
        ConnectionStep::Upgrade => panic!("upgrade"),
        ConnectionStep::Close => panic!("close"),
        ConnectionStep::Reply(bytes) => panic!("{}", String::from_utf8_lossy(&bytes)),
    }
}

fn is_bad_request(step: ConnectionStep) -> bool {
    matches!(step, ConnectionStep::Reply(bytes) if bytes == http_text(400, "Bad Request"))
}

fn head(method: Option<&str>, path: Option<&str>, headers: &[(&str, &[u8])]) -> ParsedRequest {
    ParsedRequest::Complete(RequestHead {
        method: method.map(str::to_string),
        path: path.map(str::to_string),
        headers: headers
            .iter()
            .map(|(name, value)| Header { name: name.to_string(), value: value.to_vec() })
            .collect(),
    })
}

#[test]
fn whole_request_is_read_at_once() {
    let mut reader = RequestReader::new();
    let bytes = b"GET / HTTP/1.1\r\nHost: x\r\n\r\nbody";
    match reader.on_bytes(bytes) {
        ReadStep::Complete { end } => assert_eq!(reader.head(end), &bytes[..bytes.len() - 4]),
        _ => panic!("not complete"),
    }
}

#[test]
fn fragments_give_the_same_head() {
    let bytes = b"GET /ws HTTP/1.1\r\nUpgrade: websocket\r\n\r\n";
    for size in 1..bytes.len() {
        let mut reader = RequestReader::new();
        let mut ended = false;
        for chunk in bytes.chunks(size) {
            assert!(!ended);
            match reader.on_bytes(chunk) {
                ReadStep::Complete { end } => {
                    assert_eq!(reader.head(end), &bytes[..]);
                    ended = true;
                }
                ReadStep::ReadMore { room } => assert!(room < REQUEST_LIMIT),
                _ => panic!("closed or too large"),
            }
        }
        assert!(ended);
    }
}

#[test]
fn room_shrinks_by_what_has_come() {
    let mut reader = RequestReader::new();
    assert!(matches!(reader.on_bytes(&[b'a'; 100]), ReadStep::ReadMore { room: 8092 }));
    assert!(matches!(reader.on_bytes(&[b'a'; 8091]), ReadStep::ReadMore { room: 1 }));
    match reader.on_bytes(b"a") {
        ReadStep::TooLarge { reply } => {
            assert_eq!(reply, http_text(400, "Bad Request"))
        }
        _ => panic!("not refused"),
    }
}

#[test]
fn head_that_ends_with_the_last_byte_is_complete() {
    let mut bytes = vec![b'a'; REQUEST_LIMIT - 4];
    bytes.extend_from_slice(b"\r\n\r\n");
    let mut reader = RequestReader::new();
    assert!(matches!(reader.on_bytes(&bytes), ReadStep::Complete { end } if end == REQUEST_LIMIT));
}

#[test]
fn empty_read_means_closed() {
    let mut reader = RequestReader::new();
    assert!(matches!(reader.on_bytes(b""), ReadStep::Closed));
    let mut reader = RequestReader::new();
    assert!(matches!(reader.on_bytes(b"GET"), ReadStep::ReadMore { .. }));
    assert!(matches!(reader.on_bytes(b""), ReadStep::Closed));
}

#[test]
fn valid_head_is_dispatched_without_its_query() {
    let step = accept_head(b"GET /api/status?x=1?y HTTP/1.1\r\nHost: localhost\r\n\r\n");
    assert_eq!(dispatched(step), ("GET".to_string(), "/api/status".to_string()));
    let step = accept_head(b"POST /api/control/stop HTTP/1.1\r\nhOST: x\r\n\r\n");
    assert_eq!(dispatched(step), ("POST".to_string(), "/api/control/stop".to_string()));
}

#[test]
fn upgrade_of_ws_is_recognised_in_any_case() {
    let step = accept_head(b"GET /ws HTTP/1.1\r\nHost: x\r\nuPGRADE: WebSocket\r\n\r\n");
    assert!(matches!(step, ConnectionStep::Upgrade));
    let step = accept_head(b"GET /ws?token=1 HTTP/1.1\r\nHost: x\r\nUpgrade: websocket\r\n\r\n");
    assert!(matches!(step, ConnectionStep::Upgrade));
}

#[test]
fn only_a_get_of_ws_with_the_header_is_upgraded() {
    let step = accept_head(b"POST /ws HTTP/1.1\r\nHost: x\r\nUpgrade: websocket\r\n\r\n");
    assert_eq!(dispatched(step), ("POST".to_string(), "/ws".to_string()));
    let step = accept_head(b"GET /other HTTP/1.1\r\nHost: x\r\nUpgrade: websocket\r\n\r\n");
    assert_eq!(dispatched(step), ("GET".to_string(), "/other".to_string()));
    let step = accept_head(b"GET /ws HTTP/1.1\r\nHost: x\r\nUpgrade: h2c\r\n\r\n");
    assert_eq!(dispatched(step), ("GET".to_string(), "/ws".to_string()));
    let step = accept_head(b"GET /ws HTTP/1.1\r\nHost: x\r\n\r\n");
    assert_eq!(dispatched(step), ("GET".to_string(), "/ws".to_string()));
}

#[test]
fn garbage_closes_the_connection() {
    for head in [&b"\x00\x01\x02\xff\r\n\r\n"[..], b"\x01\x02\r\n\r\n", b"\x80\x80 x\r\n\r\n"] {
        assert!(matches!(accept_head(head), ConnectionStep::Close));
    }
}

#[test]
fn text_that_does_not_parse_is_a_bad_request() {
    assert!(is_bad_request(accept_head(b"GET\r\n\r\n")));
    assert!(is_bad_request(accept_head(b"POST /x\r\nHost: x\r\n\r\n")));
    assert!(is_bad_request(accept_head(b"GET / HTTP/9.9\r\nHost: x\r\n\r\n")));
    assert!(is_bad_request(accept_head(b"GET / HTTP/1.1\r\nBad Name: x\r\n\r\n")));
    assert!(is_bad_request(accept_head("\u{e9}\u{4e2d}\r\n\r\n".as_bytes())));
}

#[test]
fn text_is_told_from_binary() {
    assert!(is_text(b"") && is_text(b"a\tb\r\n~ ") && is_text("\u{e9}\u{1f600}".as_bytes()));
    for bytes in [&b"\x00"[..], b"a\x1b", b"\x7f", b"\xff", b"\xc0\x80", b"\xed\xa0\x80", b"\xe4\xb8"] {
        assert!(!is_text(bytes));
    }
}

#[test]
fn request_without_a_host_is_a_bad_request() {
    assert!(is_bad_request(accept_head(b"GET / HTTP/1.1\r\n\r\n")));
    assert!(is_bad_request(accept_head(b"GET / HTTP/1.1\r\nX-Host: x\r\n\r\n")));
    let head = b"GET /ws HTTP/1.1\r\nUpgrade: websocket\r\n\r\n";
    assert!(is_bad_request(accept_head(head)));
    assert_eq!(dispatched(accept_head(b"GET / HTTP/1.1\r\nHost:\r\n\r\n")).1, "/");
    assert!(names_host(&vec![Header { name: "HOST".to_string(), value: Vec::new() }]));
    assert!(!names_host(&Vec::new()));
}

#[test]
fn silent_client_is_dropped() {
    let mut reader = RequestReader::new();
    assert!(matches!(reader.on_timeout(), ReadStep::Closed));
    assert!(matches!(reader.on_bytes(b"GET / HT"), ReadStep::ReadMore { .. }));
    assert!(matches!(reader.on_timeout(), ReadStep::Closed));
    assert_eq!(READ_TIMEOUT_SECONDS, 5);
}

#[test]
fn partial_head_is_a_bad_request() {
    assert!(is_bad_request(accept_head(b"GET / HTTP/1.1\r\nHost: x\r\n")));
    assert!(is_bad_request(accept_head(b"")));
}

#[test]
fn more_than_the_allowed_headers_is_a_bad_request() {
    let with = |n: usize| {
        let mut text = String::from("GET / HTTP/1.1\r\n");
        text.push_str("Host: x\r\n");
        for i in 1..n {
            text.push_str(&format!("X-{i}: v\r\n"));
        }
        text.push_str("\r\n");
        text
    };
    assert_eq!(MAX_HEADERS, 32);
    assert_eq!(dispatched(accept_head(with(32).as_bytes())).1, "/");
    assert!(is_bad_request(accept_head(with(33).as_bytes())));
}

#[test]
fn missing_parts_get_their_defaults() {
    let step = classify(b"", head(None, None, &[("Host", b"x")]));
    assert_eq!(dispatched(step), (String::new(), "/".to_string()));
    assert!(is_bad_request(classify(b"", head(None, None, &[]))));
    assert!(is_bad_request(classify(b"", ParsedRequest::Partial)));
    assert!(is_bad_request(classify(b"", ParsedRequest::TooManyHeaders)));
    assert!(is_bad_request(classify(b"GET", ParsedRequest::Invalid)));
    assert!(matches!(classify(b"\0", ParsedRequest::Invalid), ConnectionStep::Close));
}

#[test]
fn any_header_may_ask_for_the_upgrade() {
    let headers: &[(&str, &[u8])] = &[("Host", b"x"), ("Upgrade", b"h2c"), ("upgrade", b"WEBSOCKET")];
    let step = classify(b"", head(Some("GET"), Some("/ws"), headers));
    assert!(matches!(step, ConnectionStep::Upgrade));
    assert!(!is_ws_upgrade(&vec![
        Header { name: "Upgrade".to_string(), value: b"\xff\xfe".to_vec() },
        Header { name: "Connection".to_string(), value: b"websocket".to_vec() },
    ]));
    assert!(!is_ws_upgrade(&Vec::new()));
}

#[test]
fn case_is_ignored_for_ascii_letters_only() {
    assert!(eq_ignoring_case(b"WebSocket", b"wEBsOCKET"));
    assert!(!eq_ignoring_case(b"[", b"{"));
    assert!(!eq_ignoring_case(b"@", b"`"));
    assert!(eq_ignoring_case(b"AZaz", b"azAZ"));
    assert!(!eq_ignoring_case(b"a", b"ab"));
    assert!(!eq_ignoring_case(&[0xc4], &[0xe4]));
}
