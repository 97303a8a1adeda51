//! HTTP requests and replies as bytes.
use crate::text::{cut, decimal, digit_char, lemma_cut, push_decimal};
use vstd::prelude::*;
use vstd::string::*;
use vstd::utf8::*;

verus! {

/// The reason phrase that goes with a status code.
pub open spec fn reason_phrase(status: u16) -> Seq<char> {
    if status == 200 {
        "OK"@
    } else if status == 400 {
        "Bad Request"@
    } else if status == 404 {
        "Not Found"@
    } else if status == 405 {
        "Method Not Allowed"@
    } else if status == 409 {
        "Conflict"@
    } else if status == 413 {
        "Request Entity Too Large"@
    } else {
        "Unknown"@
    }
}

/// The head of a reply: the status line and the headers, up to and with the empty line.
pub open spec fn response_head(status: u16, content_type: Seq<char>, body_len: nat) -> Seq<char> {
    "HTTP/1.1 "@ + decimal(status as nat) + " "@ + reason_phrase(status) + "\r\nContent-Type: "@
        + content_type + "\r\nContent-Length: "@ + decimal(body_len)
        + "\r\nConnection: close\r\nAccess-Control-Allow-Origin: *\r\n\r\n"@
}

/// A reply: its head in UTF-8, then its body.
pub open spec fn response(status: u16, content_type: Seq<char>, body: Seq<u8>) -> Seq<u8> {
    encode_utf8(response_head(status, content_type, body.len())) + body
}

/// The reply with the given status, content type and body.
pub fn http_response(status: u16, content_type: &str, body: &[u8]) -> (r: Vec<u8>)
    ensures
        r@ == response(status, content_type@, body@),
{
    let reason = match status {
        200 => "OK",
        400 => "Bad Request",
        404 => "Not Found",
        405 => "Method Not Allowed",
        409 => "Conflict",
        413 => "Request Entity Too Large",
        _ => "Unknown",
    };
    let mut head = String::new();
    head.append("HTTP/1.1 ");
    assert(head@ =~= "HTTP/1.1 "@);
    push_decimal(&mut head, status as u64);
    head.append(" ");
    head.append(reason);
    head.append("\r\nContent-Type: ");
    head.append(content_type);
    head.append("\r\nContent-Length: ");
    push_decimal(&mut head, body.len() as u64);
    head.append("\r\nConnection: close\r\nAccess-Control-Allow-Origin: *\r\n\r\n");
    let mut r: Vec<u8> = Vec::new();
    r.extend_from_slice(head.as_str().as_bytes());
    r.extend_from_slice(body);
    assert(r@ =~= response(status, content_type@, body@));
    r
}

/// The reply with an encoded JSON document as its body. Where the document could not be
/// encoded, the body is empty.
pub open spec fn json_reply(encoded: Option<Seq<u8>>) -> Seq<u8> {
    response(
        200,
        "application/json"@,
        match encoded {
            Some(bytes) => bytes,
            None => Seq::empty(),
        },
    )
}

/// The reply with an encoded JSON document as its body; `None` stands for a document that could
/// not be encoded.
pub fn json_response(encoded: &Option<Vec<u8>>) -> (r: Vec<u8>)
    ensures
        r@ == json_reply(
            match encoded {
                Some(bytes) => Some(bytes@),
                None => None,
            },
        ),
{
    match encoded {
        Some(bytes) => http_response(200, "application/json", bytes.as_slice()),
        None => {
            let empty: Vec<u8> = Vec::new();
            http_response(200, "application/json", empty.as_slice())
        },
    }
}

/// A reply whose body is a plain text.
pub open spec fn text_reply(status: u16, message: Seq<char>) -> Seq<u8> {
    response(status, "text/plain"@, encode_utf8(message))
}

/// The reply with a plain text as its body.
pub fn http_text(status: u16, message: &str) -> (r: Vec<u8>)
    ensures
        r@ == text_reply(status, message@),
{
    http_response(status, "text/plain", message.as_bytes())
}

/// Whether an empty line, that is CR LF CR LF, starts at position `i`.
pub open spec fn empty_line_at(buf: Seq<u8>, i: int) -> bool {
    &&& 0 <= i <= buf.len() - 4
    &&& buf[i] == 13
    &&& buf[i + 1] == 10
    &&& buf[i + 2] == 13
    &&& buf[i + 3] == 10
}

/// Whether the head of a message in `buf` ends at `end`: just behind the first empty line.
pub open spec fn head_ends_at(buf: Seq<u8>, end: int) -> bool {
    &&& empty_line_at(buf, end - 4)
    &&& forall|i: int| i < end - 4 ==> !#[trigger] empty_line_at(buf, i)
}

/// A head has one end, and it lies within the bytes.
pub proof fn lemma_head_end(buf: Seq<u8>, end: int)
    requires
        head_ends_at(buf, end),
    ensures
        head_end(buf) == Some(end),
        4 <= end <= buf.len(),
{
    let other = choose|e: int| head_ends_at(buf, e);
    assert(head_ends_at(buf, other));
    assert(!(other < end)) by {
        assert(empty_line_at(buf, other - 4));
    }
    assert(!(end < other)) by {
        assert(empty_line_at(buf, end - 4));
    }
}

/// Where the head of a message in `buf` ends, if it is all there.
pub open spec fn head_end(buf: Seq<u8>) -> Option<int> {
    if exists|end: int| head_ends_at(buf, end) {
        Some(choose|end: int| head_ends_at(buf, end))
    } else {
        None
    }
}

/// Finds the end of the head of a message: the position just behind its first empty line.
pub fn find_header_end(buf: &[u8]) -> (r: Option<usize>)
    ensures
        match r {
            Some(end) => head_end(buf@) == Some(end as int) && head_ends_at(buf@, end as int) && 4
                <= end <= buf@.len(),
            None => head_end(buf@) is None && forall|i: int| !#[trigger] empty_line_at(buf@, i),
        },
{
    if buf.len() < 4 {
        return None;
    }
    let last: usize = buf.len() - 4;
    let mut i: usize = 0;
    while i <= last
        invariant
            i <= last + 1,
            last == buf.len() - 4,
            forall|j: int| j < i ==> !#[trigger] empty_line_at(buf@, j),
        decreases last + 1 - i,
    {
        if buf[i] == 13 && buf[i + 1] == 10 && buf[i + 2] == 13 && buf[i + 3] == 10 {
            assert(empty_line_at(buf@, i as int));
            proof {
                lemma_head_end(buf@, i + 4);
            }
            return Some(i + 4);
        }
        i += 1;
    }
    None
}

/// The encoding of a text is that of its parts.
proof fn lemma_encode_concat(a: Seq<char>, b: Seq<char>)
    ensures
        encode_utf8(a + b) == encode_utf8(a) + encode_utf8(b),
    decreases a.len(),
{
    if a.len() == 0 {
        assert(a + b =~= b);
        assert(encode_utf8(a) + encode_utf8(b) =~= encode_utf8(b));
    } else {
        assert((a + b).drop_first() =~= a.drop_first() + b);
        lemma_encode_concat(a.drop_first(), b);
        assert(encode_utf8(a + b) =~= encode_utf8(a) + encode_utf8(b));
    }
}

/// Whether a text has no carriage return.
pub open spec fn one_line(s: Seq<char>) -> bool {
    !s.contains('\r')
}

proof fn lemma_scalar_bytes(c: u32)
    requires
        c != 13,
        is_scalar(c),
    ensures
        encode_scalar(c).len() > 0,
        forall|i: int| 0 <= i < encode_scalar(c).len() ==> #[trigger] encode_scalar(c)[i] != 13,
{
    assert(c <= 0x7f && c != 13 ==> (c & 0x7f) as u8 != 13) by (bit_vector);
    let x: u8 = ((c >> 6) & 0x1F) as u8;
    let y: u8 = ((c >> 12) & 0x0F) as u8;
    let z: u8 = ((c >> 18) & 0x7) as u8;
    let a: u8 = (c & 0x3F) as u8;
    let b: u8 = ((c >> 6) & 0x3F) as u8;
    let d: u8 = ((c >> 12) & 0x3F) as u8;
    assert(0xC0u8 | x != 13) by (bit_vector);
    assert(0xE0u8 | y != 13) by (bit_vector);
    assert(0xF0u8 | z != 13) by (bit_vector);
    assert(0x80u8 | a != 13) by (bit_vector);
    assert(0x80u8 | b != 13) by (bit_vector);
    assert(0x80u8 | d != 13) by (bit_vector);
}

proof fn lemma_char_bytes(c: char)
    requires
        c != '\r',
    ensures
        encode_scalar(c as u32).len() > 0,
        forall|i: int|
            0 <= i < encode_scalar(c as u32).len() ==> #[trigger] encode_scalar(c as u32)[i] != 13,
{
    char_is_scalar(c);
    lemma_scalar_bytes(c as u32);
}

/// A text without a carriage return has none in its encoding.
proof fn lemma_one_line_bytes(s: Seq<char>)
    requires
        one_line(s),
    ensures
        encode_utf8(s).len() >= s.len(),
        forall|i: int| 0 <= i < encode_utf8(s).len() ==> #[trigger] encode_utf8(s)[i] != 13,
    decreases s.len(),
{
    if s.len() > 0 {
        let t = s.drop_first();
        assert(s.contains(s[0]));
        assert(one_line(t)) by {
            if t.contains('\r') {
                let i = choose|i: int| 0 <= i < t.len() && t[i] == '\r';
                assert(s[i + 1] == '\r');
            }
        }
        lemma_one_line_bytes(t);
        lemma_char_bytes(s[0]);
    }
}

/// More bytes do not move the end of a head that is all there.
pub proof fn law_head_end_is_stable(buf: Seq<u8>, more: Seq<u8>)
    requires
        head_end(buf) is Some,
    ensures
        head_end(buf + more) == head_end(buf),
{
    let end = choose|e: int| head_ends_at(buf, e);
    let all = buf + more;
    lemma_head_end(buf, end);
    assert(empty_line_at(all, end - 4)) by {
        assert(empty_line_at(buf, end - 4));
    }
    assert forall|i: int| i < end - 4 implies !#[trigger] empty_line_at(all, i) by {
        assert(!empty_line_at(buf, i));
    }
    lemma_head_end(all, end);
}

proof fn lemma_bytes_in_front(front: Seq<u8>, tail: Seq<u8>)
    requires
        forall|i: int| 0 <= i < front.len() ==> #[trigger] front[i] != 13,
        head_ends_at(tail, tail.len() as int),
    ensures
        head_ends_at(front + tail, (front + tail).len() as int),
{
    let all = front + tail;
    assert(empty_line_at(tail, tail.len() - 4));
    assert(empty_line_at(all, all.len() - 4));
    assert forall|i: int| i < all.len() - 4 implies !#[trigger] empty_line_at(all, i) by {
        if i >= front.len() {
            assert(!empty_line_at(tail, i - front.len()));
        } else if i >= 0 {
            assert(all[i] == front[i]);
        }
    }
}

/// The end of a line, then a line of its own, in front of what ends with an empty line.
proof fn lemma_line_in_front(line: Seq<char>, tail: Seq<char>)
    requires
        one_line(line),
        line.len() > 0,
        head_ends_at(encode_utf8(tail), encode_utf8(tail).len() as int),
    ensures
        ({
            let all = encode_utf8("\r\n"@ + line + tail);
            head_ends_at(all, all.len() as int)
        }),
{
    let all = encode_utf8("\r\n"@ + line + tail);
    let l = encode_utf8(line);
    let t = encode_utf8(tail);
    lemma_encode_concat("\r\n"@ + line, tail);
    lemma_encode_concat("\r\n"@, line);
    lemma_one_line_bytes(line);
    lemma_line_end();
    assert(all =~= seq![13u8, 10u8] + l + t);
    assert(empty_line_at(t, t.len() - 4));
    assert(empty_line_at(all, all.len() - 4));
    assert forall|i: int| i < all.len() - 4 implies !#[trigger] empty_line_at(all, i) by {
        if i >= 2 + l.len() {
            assert(!empty_line_at(t, i - 2 - l.len()));
        } else if i >= 2 {
            assert(all[i] == l[i - 2]);
        } else if i == 0 {
            assert(all[2] == l[0]);
        }
    }
}

proof fn lemma_line_end()
    ensures
        encode_utf8("\r\n"@) == seq![13u8, 10u8],
{
    reveal_strlit("\r\n");
    let s = "\r\n"@;
    reveal_with_fuel(encode_utf8, 3);
    assert(13u32 & 0x7f == 13 && 10u32 & 0x7f == 10) by (bit_vector);
    assert(s.drop_first()[0] == '\n');
    assert(s.drop_first().drop_first().len() == 0);
    assert(encode_utf8(s) =~= seq![13u8, 10u8]);
}

proof fn lemma_decimal_one_line(n: nat)
    ensures
        one_line(decimal(n)),
        decimal(n).len() > 0,
    decreases n,
{
    if n >= 10 {
        lemma_decimal_one_line(n / 10);
        let s = decimal(n / 10);
        let d = digit_char(n % 10);
        assert forall|i: int| 0 <= i < s.len() + 1 implies s.push(d)[i] != '\r' by {
            if i < s.len() {
                assert(s.contains(s[i]));
            }
        }
    }
}

proof fn lemma_one_line_concat(a: Seq<char>, b: Seq<char>)
    requires
        one_line(a),
        one_line(b),
    ensures
        one_line(a + b),
{
    assert forall|i: int| 0 <= i < a.len() + b.len() implies (a + b)[i] != '\r' by {
        if i < a.len() {
            assert(a.contains(a[i]));
        } else {
            assert(b.contains(b[i - a.len()]));
        }
    }
}

spec fn one_line_from(s: Seq<char>, i: int) -> bool
    decreases s.len() - i,
{
    i >= s.len() || s[i] != '\r' && one_line_from(s, i + 1)
}

proof fn lemma_one_line_from(s: Seq<char>, i: int)
    requires
        0 <= i,
        one_line_from(s, i),
    ensures
        forall|j: int| i <= j < s.len() ==> #[trigger] s[j] != '\r',
    decreases s.len() - i,
{
    if i < s.len() {
        lemma_one_line_from(s, i + 1);
    }
}

proof fn lemma_fixed_lines(status: u16)
    ensures
        one_line("HTTP/1.1 "@),
        one_line(" "@),
        one_line(reason_phrase(status)),
        one_line("Content-Type: "@),
        one_line("Content-Length: "@),
        one_line("Connection: close"@),
        one_line("Access-Control-Allow-Origin: *"@),
{
    reveal_strlit("HTTP/1.1 ");
    reveal_strlit(" ");
    reveal_strlit("OK");
    reveal_strlit("Bad Request");
    reveal_strlit("Not Found");
    reveal_strlit("Method Not Allowed");
    reveal_strlit("Conflict");
    reveal_strlit("Request Entity Too Large");
    reveal_strlit("Unknown");
    reveal_strlit("Content-Type: ");
    reveal_strlit("Content-Length: ");
    reveal_strlit("Connection: close");
    reveal_strlit("Access-Control-Allow-Origin: *");
    reveal_with_fuel(one_line_from, 32);
    lemma_one_line_from("HTTP/1.1 "@, 0);
    lemma_one_line_from(" "@, 0);
    lemma_one_line_from(reason_phrase(status), 0);
    lemma_one_line_from("Content-Type: "@, 0);
    lemma_one_line_from("Content-Length: "@, 0);
    lemma_one_line_from("Connection: close"@, 0);
    lemma_one_line_from("Access-Control-Allow-Origin: *"@, 0);
}

/// The end of a reply's head is where its body starts, whatever the body holds.
pub proof fn law_reply_splits_into_head_and_body(
    status: u16,
    content_type: Seq<char>,
    body: Seq<u8>,
)
    requires
        one_line(content_type),
    ensures
        ({
            let head = encode_utf8(response_head(status, content_type, body.len()));
            &&& head_end(response(status, content_type, body)) == Some(head.len() as int)
            &&& response(status, content_type, body).skip(head.len() as int) == body
        }),
{
    let head = encode_utf8(response_head(status, content_type, body.len()));
    let first = "HTTP/1.1 "@ + decimal(status as nat) + " "@ + reason_phrase(status);
    let kind = "Content-Type: "@ + content_type;
    let length = "Content-Length: "@ + decimal(body.len());
    let close = "Connection: close"@;
    let origin = "Access-Control-Allow-Origin: *"@;
    let from_end = "\r\n"@ + "\r\n"@;
    let from_origin = "\r\n"@ + origin + from_end;
    let from_close = "\r\n"@ + close + from_origin;
    let from_length = "\r\n"@ + length + from_close;
    let from_kind = "\r\n"@ + kind + from_length;
    lemma_fixed_lines(status);
    lemma_decimal_one_line(status as nat);
    lemma_decimal_one_line(body.len());
    lemma_one_line_concat("HTTP/1.1 "@, decimal(status as nat));
    lemma_one_line_concat("HTTP/1.1 "@ + decimal(status as nat), " "@);
    lemma_one_line_concat("HTTP/1.1 "@ + decimal(status as nat) + " "@, reason_phrase(status));
    lemma_one_line_concat("Content-Type: "@, content_type);
    lemma_one_line_concat("Content-Length: "@, decimal(body.len()));
    assert(response_head(status, content_type, body.len()) == first + from_kind && close.len() > 0
        && origin.len() > 0 && kind.len() > 0) by {
        reveal_strlit("\r\n");
        reveal_strlit("\r\nContent-Type: ");
        reveal_strlit("Content-Type: ");
        reveal_strlit("\r\nContent-Length: ");
        reveal_strlit("Content-Length: ");
        reveal_strlit("\r\nConnection: close\r\nAccess-Control-Allow-Origin: *\r\n\r\n");
        reveal_strlit("Connection: close");
        reveal_strlit("Access-Control-Allow-Origin: *");
        assert(response_head(status, content_type, body.len()) =~= first + from_kind);
    }
    lemma_line_end();
    lemma_encode_concat("\r\n"@, "\r\n"@);
    assert(head_ends_at(encode_utf8(from_end), 4));
    lemma_line_in_front(origin, from_end);
    lemma_line_in_front(close, from_origin);
    lemma_line_in_front(length, from_close);
    lemma_line_in_front(kind, from_length);
    lemma_one_line_bytes(first);
    lemma_encode_concat(first, from_kind);
    lemma_bytes_in_front(encode_utf8(first), encode_utf8(from_kind));
    lemma_head_end(head, head.len() as int);
    law_head_end_is_stable(head, body);
    assert(response(status, content_type, body).skip(head.len() as int) =~= body);
}

/// Line `k` of a text whose lines end with CR LF, counted from 0.
pub open spec fn line_at(s: Seq<char>, k: nat) -> Seq<char>
    decreases k,
{
    let end = cut(s, '\r') as int;
    if k == 0 {
        s.take(end)
    } else {
        line_at(s.skip(end + 2), (k - 1) as nat)
    }
}

/// The text of the head that a receiver finds in the bytes of a reply.
pub open spec fn received_head(reply: Seq<u8>) -> Seq<char> {
    decode_utf8(reply.take(head_end(reply)->0))
}

/// The body that a receiver finds in the bytes of a reply.
pub open spec fn received_body(reply: Seq<u8>) -> Seq<u8> {
    reply.skip(head_end(reply)->0)
}

/// The line of a reply's head that a receiver finds at position `k`.
pub open spec fn received_line(reply: Seq<u8>, k: nat) -> Seq<char> {
    line_at(received_head(reply), k)
}

proof fn lemma_first_line(line: Seq<char>, rest: Seq<char>)
    requires
        one_line(line),
    ensures
        ({
            let s = line + "\r\n"@ + rest;
            &&& s.take(cut(s, '\r') as int) == line
            &&& s.skip(cut(s, '\r') as int + 2) == rest
        }),
{
    reveal_strlit("\r\n");
    let s = line + "\r\n"@ + rest;
    assert forall|i: int| 0 <= i < line.len() implies s[i] != '\r' by {
        assert(line.contains(line[i]));
    }
    lemma_cut(s, '\r', line.len() as int);
    assert(s.take(line.len() as int) =~= line);
    assert(s.skip(line.len() as int + 2) =~= rest);
}

/// What a receiver reads out of a reply is what was put into it: the status with its phrase, the
/// content type, the length of the body, the two fixed headers, an empty line and the body.
pub proof fn law_reply_reads_back(status: u16, content_type: Seq<char>, body: Seq<u8>)
    requires
        one_line(content_type),
    ensures
        ({
            let reply = response(status, content_type, body);
            &&& received_line(reply, 0) == "HTTP/1.1 "@ + decimal(status as nat) + " "@
                + reason_phrase(status)
            &&& received_line(reply, 1) == "Content-Type: "@ + content_type
            &&& received_line(reply, 2) == "Content-Length: "@ + decimal(body.len())
            &&& received_line(reply, 3) == "Connection: close"@
            &&& received_line(reply, 4) == "Access-Control-Allow-Origin: *"@
            &&& received_line(reply, 5) == ""@
            &&& received_body(reply) == body
        }),
{
    let reply = response(status, content_type, body);
    let text = response_head(status, content_type, body.len());
    let head = encode_utf8(text);
    law_reply_splits_into_head_and_body(status, content_type, body);
    assert(reply.take(head.len() as int) =~= head);
    encode_utf8_decode_utf8(text);
    assert(received_head(reply) == text);

    let first = "HTTP/1.1 "@ + decimal(status as nat) + " "@ + reason_phrase(status);
    let kind = "Content-Type: "@ + content_type;
    let length = "Content-Length: "@ + decimal(body.len());
    let close = "Connection: close"@;
    let origin = "Access-Control-Allow-Origin: *"@;
    let empty = ""@;
    let none = Seq::<char>::empty();
    let t5 = empty + "\r\n"@ + none;
    let t4 = origin + "\r\n"@ + t5;
    let t3 = close + "\r\n"@ + t4;
    let t2 = length + "\r\n"@ + t3;
    let t1 = kind + "\r\n"@ + t2;
    let t0 = first + "\r\n"@ + t1;
    lemma_fixed_lines(status);
    lemma_decimal_one_line(status as nat);
    lemma_decimal_one_line(body.len());
    lemma_one_line_concat("HTTP/1.1 "@, decimal(status as nat));
    lemma_one_line_concat("HTTP/1.1 "@ + decimal(status as nat), " "@);
    lemma_one_line_concat("HTTP/1.1 "@ + decimal(status as nat) + " "@, reason_phrase(status));
    lemma_one_line_concat("Content-Type: "@, content_type);
    lemma_one_line_concat("Content-Length: "@, decimal(body.len()));
    assert(text == t0 && one_line(empty)) by {
        reveal_strlit("");
        reveal_strlit("\r\n");
        reveal_strlit("\r\nContent-Type: ");
        reveal_strlit("Content-Type: ");
        reveal_strlit("\r\nContent-Length: ");
        reveal_strlit("Content-Length: ");
        reveal_strlit("\r\nConnection: close\r\nAccess-Control-Allow-Origin: *\r\n\r\n");
        reveal_strlit("Connection: close");
        reveal_strlit("Access-Control-Allow-Origin: *");
        assert(text =~= t0);
    }
    lemma_first_line(first, t1);
    lemma_first_line(kind, t2);
    lemma_first_line(length, t3);
    lemma_first_line(close, t4);
    lemma_first_line(origin, t5);
    lemma_first_line(empty, none);
    assert(line_at(t5, 0) == empty);
    assert(line_at(t4, 0) == origin && line_at(t4, 1) == empty);
    assert(line_at(t3, 0) == close && line_at(t3, 1) == origin && line_at(t3, 2) == empty);
    assert(line_at(t2, 0) == length && line_at(t2, 1) == close && line_at(t2, 2) == origin
        && line_at(t2, 3) == empty);
    assert(line_at(t1, 0) == kind && line_at(t1, 1) == length && line_at(t1, 2) == close
        && line_at(t1, 3) == origin && line_at(t1, 4) == empty);
    assert(line_at(t0, 0) == first && line_at(t0, 1) == kind && line_at(t0, 2) == length
        && line_at(t0, 3) == close && line_at(t0, 4) == origin && line_at(t0, 5) == empty);
}

/// A content type and a body stand in a reply as they are, whatever they hold: but for them, two
/// replies with the same status and bodies of the same length are the same.
pub proof fn law_content_stands_as_is(
    status: u16,
    a: Seq<char>,
    x: Seq<u8>,
    b: Seq<char>,
    y: Seq<u8>,
)
    requires
        x.len() == y.len(),
    ensures
        exists|front: Seq<char>, back: Seq<char>|
            response(status, a, x) == encode_utf8(#[trigger] (front + a + back)) + x && response(
                status,
                b,
                y,
            ) == encode_utf8(front + b + back) + y,
{
    let front = "HTTP/1.1 "@ + decimal(status as nat) + " "@ + reason_phrase(status)
        + "\r\nContent-Type: "@;
    let back = "\r\nContent-Length: "@ + decimal(x.len())
        + "\r\nConnection: close\r\nAccess-Control-Allow-Origin: *\r\n\r\n"@;
    assert(response_head(status, a, x.len()) =~= front + a + back);
    assert(response_head(status, b, y.len()) =~= front + b + back);
}

/// Each known status has its phrase, and no other status has it.
pub proof fn law_phrases_tell_statuses_apart(status: u16)
    ensures
        reason_phrase(status) == "OK"@ <==> status == 200,
        reason_phrase(status) == "Bad Request"@ <==> status == 400,
        reason_phrase(status) == "Not Found"@ <==> status == 404,
        reason_phrase(status) == "Method Not Allowed"@ <==> status == 405,
        reason_phrase(status) == "Conflict"@ <==> status == 409,
        reason_phrase(status) == "Request Entity Too Large"@ <==> status == 413,
        reason_phrase(status) == "Unknown"@ <==> !(status == 200 || status == 400 || status == 404
            || status == 405 || status == 409 || status == 413),
{
    reveal_strlit("OK");
    reveal_strlit("Bad Request");
    reveal_strlit("Not Found");
    reveal_strlit("Method Not Allowed");
    reveal_strlit("Conflict");
    reveal_strlit("Request Entity Too Large");
    reveal_strlit("Unknown");
    assert("OK"@.len() == 2);
    assert("Bad Request"@.len() == 11);
    assert("Not Found"@.len() == 9);
    assert("Method Not Allowed"@.len() == 18);
    assert("Conflict"@.len() == 8);
    assert("Request Entity Too Large"@.len() == 24);
    assert("Unknown"@.len() == 7);
}

/// The lines with which replies of the statuses that the server sends begin.
pub proof fn lemma_status_lines()
    ensures
        "HTTP/1.1 "@ + decimal(200) + " "@ + "OK"@ == "HTTP/1.1 200 OK"@,
        "HTTP/1.1 "@ + decimal(400) + " "@ + "Bad Request"@ == "HTTP/1.1 400 Bad Request"@,
        "HTTP/1.1 "@ + decimal(404) + " "@ + "Not Found"@ == "HTTP/1.1 404 Not Found"@,
        "HTTP/1.1 "@ + decimal(405) + " "@ + "Method Not Allowed"@
            == "HTTP/1.1 405 Method Not Allowed"@,
        "HTTP/1.1 "@ + decimal(409) + " "@ + "Conflict"@ == "HTTP/1.1 409 Conflict"@,
{
    reveal_with_fuel(decimal, 4);
    reveal_strlit("HTTP/1.1 ");
    reveal_strlit(" ");
    reveal_strlit("OK");
    reveal_strlit("Bad Request");
    reveal_strlit("Not Found");
    reveal_strlit("Method Not Allowed");
    reveal_strlit("Conflict");
    reveal_strlit("HTTP/1.1 200 OK");
    reveal_strlit("HTTP/1.1 400 Bad Request");
    reveal_strlit("HTTP/1.1 404 Not Found");
    reveal_strlit("HTTP/1.1 405 Method Not Allowed");
    reveal_strlit("HTTP/1.1 409 Conflict");
    assert(decimal(200) =~= seq!['2', '0', '0']);
    assert(decimal(400) =~= seq!['4', '0', '0']);
    assert(decimal(404) =~= seq!['4', '0', '4']);
    assert(decimal(405) =~= seq!['4', '0', '5']);
    assert(decimal(409) =~= seq!['4', '0', '9']);
    assert("HTTP/1.1 "@ + decimal(200) + " "@ + "OK"@ =~= "HTTP/1.1 200 OK"@);
    assert("HTTP/1.1 "@ + decimal(400) + " "@ + "Bad Request"@ =~= "HTTP/1.1 400 Bad Request"@);
    assert("HTTP/1.1 "@ + decimal(404) + " "@ + "Not Found"@ =~= "HTTP/1.1 404 Not Found"@);
    assert("HTTP/1.1 "@ + decimal(405) + " "@ + "Method Not Allowed"@
        =~= "HTTP/1.1 405 Method Not Allowed"@);
    assert("HTTP/1.1 "@ + decimal(409) + " "@ + "Conflict"@ =~= "HTTP/1.1 409 Conflict"@);
}

/// A text is received as it was sent, as plain text under its status.
pub proof fn law_text_reply_reads_back(status: u16, message: Seq<char>)
    ensures
        ({
            let reply = text_reply(status, message);
            &&& received_line(reply, 0) == "HTTP/1.1 "@ + decimal(status as nat) + " "@
                + reason_phrase(status)
            &&& received_line(reply, 1) == "Content-Type: text/plain"@
            &&& decode_utf8(received_body(reply)) == message
            &&& received_body(reply) == encode_utf8(message)
        }),
{
    lemma_content_types();
    law_reply_reads_back(status, "text/plain"@, encode_utf8(message));
    encode_utf8_decode_utf8(message);
}

/// An encoded document is received as it was sent, as JSON under status 200; one that could not
/// be encoded is received as nothing.
pub proof fn law_json_reply_reads_back(encoded: Option<Seq<u8>>)
    ensures
        ({
            let reply = json_reply(encoded);
            &&& received_line(reply, 0) == "HTTP/1.1 200 OK"@
            &&& received_line(reply, 1) == "Content-Type: application/json"@
            &&& encoded is Some ==> received_body(reply) == encoded->0
            &&& encoded is None ==> received_body(reply).len() == 0
        }),
{
    lemma_content_types();
    lemma_status_lines();
    let body = match encoded {
        Some(bytes) => bytes,
        None => Seq::empty(),
    };
    law_reply_reads_back(200, "application/json"@, body);
}

/// The content types that the server sends are each one line.
pub proof fn lemma_content_types()
    ensures
        one_line("text/plain"@),
        one_line("text/plain; charset=utf-8"@),
        one_line("text/html; charset=utf-8"@),
        one_line("application/json"@),
        "Content-Type: "@ + "text/plain"@ == "Content-Type: text/plain"@,
        "Content-Type: "@ + "text/plain; charset=utf-8"@
            == "Content-Type: text/plain; charset=utf-8"@,
        "Content-Type: "@ + "text/html; charset=utf-8"@
            == "Content-Type: text/html; charset=utf-8"@,
        "Content-Type: "@ + "application/json"@ == "Content-Type: application/json"@,
{
    reveal_strlit("Content-Type: ");
    reveal_strlit("text/plain");
    reveal_strlit("text/plain; charset=utf-8");
    reveal_strlit("text/html; charset=utf-8");
    reveal_strlit("application/json");
    reveal_strlit("Content-Type: text/plain");
    reveal_strlit("Content-Type: text/plain; charset=utf-8");
    reveal_strlit("Content-Type: text/html; charset=utf-8");
    reveal_strlit("Content-Type: application/json");
    reveal_with_fuel(one_line_from, 27);
    lemma_one_line_from("text/plain"@, 0);
    lemma_one_line_from("text/plain; charset=utf-8"@, 0);
    lemma_one_line_from("text/html; charset=utf-8"@, 0);
    lemma_one_line_from("application/json"@, 0);
    assert("Content-Type: "@ + "text/plain"@ =~= "Content-Type: text/plain"@);
    assert("Content-Type: "@ + "text/plain; charset=utf-8"@
        =~= "Content-Type: text/plain; charset=utf-8"@);
    assert("Content-Type: "@ + "text/html; charset=utf-8"@
        =~= "Content-Type: text/html; charset=utf-8"@);
    assert("Content-Type: "@ + "application/json"@ =~= "Content-Type: application/json"@);
}

/// The head of a message ends just behind its first CR LF CR LF, whatever stands in front of that
/// and behind it, and a message without one has no whole head.
pub proof fn law_head_ends_behind_first_empty_line(buf: Seq<u8>)
    ensures
        match head_end(buf) {
            Some(end) => {
                &&& 4 <= end <= buf.len()
                &&& buf.subrange(end - 4, end) == seq![13u8, 10u8, 13u8, 10u8]
                &&& forall|i: int|
                    4 <= i < end ==> #[trigger] buf.subrange(i - 4, i) != seq![13u8, 10u8, 13u8, 10u8]
            },
            None => forall|i: int|
                4 <= i <= buf.len() ==> #[trigger] buf.subrange(i - 4, i) != seq![
                    13u8,
                    10u8,
                    13u8,
                    10u8,
                ],
        },
{
    let mark = seq![13u8, 10u8, 13u8, 10u8];
    match head_end(buf) {
        Some(end) => {
            assert(head_ends_at(buf, end));
            lemma_head_end(buf, end);
            assert(buf.subrange(end - 4, end) =~= mark);
            assert forall|i: int| 4 <= i < end implies #[trigger] buf.subrange(i - 4, i) != mark by {
                assert(!empty_line_at(buf, i - 4));
                lemma_mark(buf, i);
            }
        },
        None => {
            assert forall|i: int| 4 <= i <= buf.len() implies #[trigger] buf.subrange(i - 4, i)
                != mark by {
                if buf.subrange(i - 4, i) == mark {
                    lemma_mark(buf, i);
                    lemma_some_head_end(buf, i - 4);
                }
            }
        },
    }
}

proof fn lemma_mark(buf: Seq<u8>, i: int)
    requires
        4 <= i <= buf.len(),
    ensures
        empty_line_at(buf, i - 4) <==> buf.subrange(i - 4, i) == seq![13u8, 10u8, 13u8, 10u8],
{
    let part = buf.subrange(i - 4, i);
    assert(part[0] == buf[i - 4] && part[1] == buf[i - 3] && part[2] == buf[i - 2] && part[3]
        == buf[i - 1]);
    if empty_line_at(buf, i - 4) {
        assert(part =~= seq![13u8, 10u8, 13u8, 10u8]);
    }
}

proof fn lemma_some_head_end(buf: Seq<u8>, i: int)
    requires
        empty_line_at(buf, i),
    ensures
        head_end(buf) is Some,
    decreases i,
{
    if exists|j: int| j < i && empty_line_at(buf, j) {
        let j = choose|j: int| j < i && empty_line_at(buf, j);
        lemma_some_head_end(buf, j);
    } else {
        assert(head_ends_at(buf, i + 4));
    }
}

} // verus!
