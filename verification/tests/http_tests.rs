use forge_watch::http::{find_header_end, http_response, http_text, json_response};
use forge_watch::text::{
    before_char, bytes_eq, contains_text, find_char, has_prefix, push_decimal, str_eq,
};

#[test]
fn response_bytes_are_exact() {
    let expected = b"HTTP/1.1 200 OK\r\nContent-Type: text/html; charset=utf-8\r\nContent-Length: 5\r\nConnection: close\r\nAccess-Control-Allow-Origin: *\r\n\r\nhello";
    assert_eq!(http_response(200, "text/html; charset=utf-8", b"hello"), expected.to_vec());
}

#[test]
fn every_status_has_its_reason() {
    for (status, reason) in [
        (200u16, "OK"),
        (400, "Bad Request"),
        (404, "Not Found"),
        (405, "Method Not Allowed"),
        (409, "Conflict"),
        (413, "Request Entity Too Large"),
        (0, "Unknown"),
        (500, "Unknown"),
        (65535, "Unknown"),
    ] {
        let reply = String::from_utf8(http_response(status, "text/plain", b"")).unwrap();
        let line = format!("HTTP/1.1 {status} {reason}\r\n");
        assert!(reply.starts_with(&line), "{reply}");
        assert!(reply.contains("\r\nContent-Length: 0\r\n"));
        assert!(reply.ends_with("\r\n\r\n"));
    }
}

#[test]
fn text_reply_carries_its_message() {
    let expected = b"HTTP/1.1 413 Request Entity Too Large\r\nContent-Type: text/plain\r\nContent-Length: 24\r\nConnection: close\r\nAccess-Control-Allow-Origin: *\r\n\r\nRequest Entity Too Large";
    assert_eq!(http_text(413, "Request Entity Too Large"), expected.to_vec());
}

#[test]
fn text_reply_counts_bytes_not_characters() {
    let reply = http_text(200, "\u{e9}\u{4e2d}");
    assert!(String::from_utf8(reply).unwrap().contains("\r\nContent-Length: 5\r\n"));
}

#[test]
fn json_reply_carries_the_document() {
    let reply = String::from_utf8(json_response(&Some(b"{\"a\":1}".to_vec()))).unwrap();
    assert!(reply.contains("\r\nContent-Type: application/json\r\n"));
    assert!(reply.contains("\r\nContent-Length: 7\r\n"));
    assert!(reply.ends_with("\r\n\r\n{\"a\":1}"));
}

#[test]
fn json_reply_without_a_document_is_empty() {
    assert_eq!(json_response(&None), http_response(200, "application/json", b""));
}

#[test]
fn reply_splits_where_its_body_starts() {
    let body: &[u8] = b"\r\n\r\nbody with \r\n\r\n inside";
    let reply = http_response(404, "text/plain; charset=utf-8", body);
    let end = find_header_end(&reply).unwrap();
    assert_eq!(&reply[end..], body);
}

#[test]
fn header_end_is_behind_the_first_empty_line() {
    assert_eq!(find_header_end(b"GET / HTTP/1.1\r\n\r\n"), Some(18));
    assert_eq!(find_header_end(b"\r\n\r\n"), Some(4));
    assert_eq!(find_header_end(b"a\r\n\r\nb\r\n\r\n"), Some(5));
    assert_eq!(find_header_end(b"\r\r\n\r\n"), Some(5));
}

#[test]
fn header_end_is_absent_without_an_empty_line() {
    assert_eq!(find_header_end(b""), None);
    assert_eq!(find_header_end(b"\r\n\r"), None);
    assert_eq!(find_header_end(b"\n\n"), None);
    assert_eq!(find_header_end(b"GET / HTTP/1.1\r\nHost: x\r\n"), None);
}

#[test]
fn more_bytes_do_not_move_the_header_end() {
    let mut buf = b"A: b\r\n\r\n".to_vec();
    let end = find_header_end(&buf);
    buf.extend_from_slice(b"rest\r\n\r\n");
    assert_eq!(find_header_end(&buf), end);
}

#[test]
fn decimals_are_shortest() {
    for (n, text) in [
        (0u64, "0"),
        (7, "7"),
        (10, "10"),
        (1024, "1024"),
        (90807, "90807"),
        (u64::MAX, "18446744073709551615"),
    ] {
        let mut out = String::from("n=");
        push_decimal(&mut out, n);
        assert_eq!(out, format!("n={text}"));
    }
}

#[test]
fn texts_are_compared_and_searched() {
    assert!(str_eq("abc", "abc") && !str_eq("abc", "abd") && !str_eq("abc", "ab"));
    assert!(bytes_eq(b"\x00\xff", b"\x00\xff") && !bytes_eq(b"a", b""));
    assert!(contains_text("was stopped by user", "stopped by user"));
    assert!(contains_text("x", "") && contains_text("", ""));
    assert!(!contains_text("stopped by use", "stopped by user"));
    assert!(!contains_text("a.b.c", ".."));
    assert!(has_prefix("/api/x", "/api/") && !has_prefix("/api", "/api/"));
    assert_eq!(before_char("/a?b?c", '?'), "/a");
    assert_eq!(before_char("/a", '?'), "/a");
    assert_eq!(before_char("?", '?'), "");
    assert_eq!(find_char(&vec!['a', 'b', 'b'], 'b'), 1);
    assert_eq!(find_char(&vec!['a'], 'z'), 1);
}
