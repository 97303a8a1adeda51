//! Reading a request off a connection and deciding what it asks for.
use crate::http::{
    find_header_end, head_end, head_ends_at, http_text, law_head_end_is_stable,
    law_text_reply_reads_back, lemma_head_end, lemma_status_lines, received_body, received_line,
    text_reply,
};
use crate::text::{
    before_char, cut, is_text, law_cut_finds_the_first, lemma_cut, lemma_cut_bounds, opt_text,
    reads_as_text, str_eq,
};
use vstd::prelude::*;
use vstd::string::*;
use vstd::utf8::*;

verus! {

/// The most bytes that a request's head may take.
pub const REQUEST_LIMIT: usize = 8192;

/// How many seconds a client may be silent before its request is all there.
pub const READ_TIMEOUT_SECONDS: u64 = 5;

/// The most headers that a request may have.
pub const MAX_HEADERS: u16 = 32;

/// The bytes of a request that have come so far.
pub struct RequestReader {
    buf: Vec<u8>,
}

/// What follows from a read on the connection.
pub enum ReadStep {
    /// The client has gone, or was silent for too long: drop the connection.
    Closed,
    /// The head is all there; it ends at `end`.
    Complete { end: usize },
    /// The head is too large: send this reply.
    TooLarge { reply: Vec<u8> },
    /// Read on, at most this many bytes and for at most `READ_TIMEOUT_SECONDS`.
    ReadMore { room: usize },
}

/// What a `ReadStep` says.
pub enum ReadStepView {
    Closed,
    Complete { end: int },
    TooLarge { reply: Seq<u8> },
    ReadMore { room: int },
}

impl View for ReadStep {
    type V = ReadStepView;

    open spec fn view(&self) -> ReadStepView {
        match self {
            ReadStep::Closed => ReadStepView::Closed,
            ReadStep::Complete { end } => ReadStepView::Complete { end: *end as int },
            ReadStep::TooLarge { reply } => ReadStepView::TooLarge { reply: reply@ },
            ReadStep::ReadMore { room } => ReadStepView::ReadMore { room: *room as int },
        }
    }
}

/// What follows when a read gave `chunk_len` bytes and all bytes so far are `buf`.
pub open spec fn read_step(buf: Seq<u8>, chunk_len: nat) -> ReadStepView {
    if chunk_len == 0 {
        ReadStepView::Closed
    } else {
        match head_end(buf) {
            Some(end) => ReadStepView::Complete { end },
            None => if buf.len() >= REQUEST_LIMIT {
                ReadStepView::TooLarge { reply: text_reply(400, "Bad Request"@) }
            } else {
                ReadStepView::ReadMore { room: REQUEST_LIMIT - buf.len() }
            },
        }
    }
}

impl View for RequestReader {
    type V = Seq<u8>;

    closed spec fn view(&self) -> Seq<u8> {
        self.buf@
    }
}

impl RequestReader {
    /// A reader that has no bytes yet and has room for `REQUEST_LIMIT`.
    pub fn new() -> (r: RequestReader)
        ensures
            r@ == Seq::<u8>::empty(),
    {
        RequestReader { buf: Vec::new() }
    }

    /// Takes what a read gave, which is no more than there was room for.
    pub fn on_bytes(&mut self, chunk: &[u8]) -> (r: ReadStep)
        requires
            old(self)@.len() + chunk@.len() <= REQUEST_LIMIT,
        ensures
            final(self)@ == old(self)@ + chunk@,
            r@ == read_step(final(self)@, chunk@.len()),
    {
        self.buf.extend_from_slice(chunk);
        assert(self@ =~= old(self)@ + chunk@);
        if chunk.len() == 0 {
            return ReadStep::Closed;
        }
        match find_header_end(self.buf.as_slice()) {
            Some(end) => ReadStep::Complete { end },
            None => {
                if self.buf.len() >= REQUEST_LIMIT {
                    ReadStep::TooLarge { reply: http_text(400, "Bad Request") }
                } else {
                    ReadStep::ReadMore { room: REQUEST_LIMIT - self.buf.len() }
                }
            },
        }
    }

    /// Takes that a read gave nothing for `READ_TIMEOUT_SECONDS`: the connection is dropped with
    /// nothing sent.
    pub fn on_timeout(&self) -> (r: ReadStep)
        ensures
            r@ is Closed,
    {
        ReadStep::Closed
    }

    /// The first `end` bytes.
    pub fn head(&self, end: usize) -> (r: &[u8])
        requires
            end <= self@.len(),
        ensures
            r@ == self@.take(end as int),
    {
        vstd::slice::slice_subrange(self.buf.as_slice(), 0, end)
    }
}

/// One header of a request.
#[derive(Clone, Debug, PartialEq, Eq)]
pub struct Header {
    pub name: String,
    pub value: Vec<u8>,
}

/// The parsed head of a request.
#[derive(Clone, Debug, PartialEq, Eq)]
pub struct RequestHead {
    pub method: Option<String>,
    pub path: Option<String>,
    pub headers: Vec<Header>,
}

/// What parsing the head of a request gave.
#[derive(Clone, Debug, PartialEq, Eq)]
pub enum ParsedRequest {
    /// A whole, valid head.
    Complete(RequestHead),
    /// The beginning of a valid head.
    Partial,
    /// More headers than there is room for.
    TooManyHeaders,
    /// No valid head.
    Invalid,
}

/// What a `RequestHead` says.
pub struct RequestHeadView {
    pub method: Option<Seq<char>>,
    pub path: Option<Seq<char>>,
    pub headers: Seq<(Seq<char>, Seq<u8>)>,
}

/// What a `ParsedRequest` says.
pub enum ParsedRequestView {
    Complete(RequestHeadView),
    Partial,
    TooManyHeaders,
    Invalid,
}

/// The names and values of a list of headers.
pub open spec fn header_pairs(v: Seq<Header>) -> Seq<(Seq<char>, Seq<u8>)> {
    v.map_values(|h: Header| (h.name@, h.value@))
}

impl View for RequestHead {
    type V = RequestHeadView;

    open spec fn view(&self) -> RequestHeadView {
        RequestHeadView {
            method: opt_text(self.method),
            path: opt_text(self.path),
            headers: header_pairs(self.headers@),
        }
    }
}

impl View for ParsedRequest {
    type V = ParsedRequestView;

    open spec fn view(&self) -> ParsedRequestView {
        match self {
            ParsedRequest::Complete(head) => ParsedRequestView::Complete(head@),
            ParsedRequest::Partial => ParsedRequestView::Partial,
            ParsedRequest::TooManyHeaders => ParsedRequestView::TooManyHeaders,
            ParsedRequest::Invalid => ParsedRequestView::Invalid,
        }
    }
}

/// What `httparse::Request::parse` makes of the bytes of a request's head when it is given room
/// for `max_headers` headers.
pub uninterp spec fn parsed_request(head: Seq<u8>, max_headers: u16) -> ParsedRequestView;

/// Parses the head of a request by `httparse::Request::parse`, with room for `max_headers`
/// headers. Claimed of it: what it reports (complete, partial, too many headers or another error)
/// and, where it is complete, the method, the path and the headers in their order, depend on the
/// bytes and on that room alone.
#[verifier::external_body]
fn parse_request(head: &[u8], max_headers: u16) -> (r: ParsedRequest)
    ensures
        r@ == parsed_request(head@, max_headers),
{
    let mut room = vec![httparse::EMPTY_HEADER; usize::from(max_headers)];
    let mut req = httparse::Request::new(&mut room);
    match req.parse(head) {
        Ok(httparse::Status::Complete(_)) => ParsedRequest::Complete(RequestHead {
            method: req.method.map(str::to_string),
            path: req.path.map(str::to_string),
            headers: req.headers.iter().map(|h| Header {
                name: h.name.to_string(),
                value: h.value.to_vec(),
            }).collect(),
        }),
        Ok(httparse::Status::Partial) => ParsedRequest::Partial,
        Err(httparse::Error::TooManyHeaders) => ParsedRequest::TooManyHeaders,
        Err(_) => ParsedRequest::Invalid,
    }
}

/// A byte with an ASCII capital letter made small.
pub open spec fn ascii_lower(b: u8) -> u8 {
    if 65 <= b <= 90 {
        (b + 32) as u8
    } else {
        b
    }
}

/// Whether two byte strings are equal but for the case of ASCII letters.
pub open spec fn same_ignoring_case(a: Seq<u8>, b: Seq<u8>) -> bool {
    &&& a.len() == b.len()
    &&& forall|i: int| 0 <= i < a.len() ==> ascii_lower(#[trigger] a[i]) == ascii_lower(b[i])
}

fn to_lower(b: u8) -> (r: u8)
    ensures
        r == ascii_lower(b),
{
    if 65 <= b && b <= 90 {
        b + 32
    } else {
        b
    }
}

/// Whether two byte strings are equal but for the case of ASCII letters.
pub fn eq_ignoring_case(a: &[u8], b: &[u8]) -> (r: bool)
    ensures
        r == same_ignoring_case(a@, b@),
{
    if a.len() != b.len() {
        return false;
    }
    let mut i: usize = 0;
    while i < a.len()
        invariant
            i <= a.len(),
            a.len() == b.len(),
            forall|j: int| 0 <= j < i ==> ascii_lower(#[trigger] a@[j]) == ascii_lower(b@[j]),
        decreases a.len() - i,
    {
        if to_lower(a[i]) != to_lower(b[i]) {
            return false;
        }
        i += 1;
    }
    true
}

/// Whether a header asks to upgrade the connection to a WebSocket.
pub open spec fn is_upgrade_header(h: (Seq<char>, Seq<u8>)) -> bool {
    &&& same_ignoring_case(encode_utf8(h.0), encode_utf8("Upgrade"@))
    &&& same_ignoring_case(h.1, encode_utf8("websocket"@))
}

/// Whether one of the headers asks to upgrade the connection to a WebSocket.
pub open spec fn asks_upgrade(headers: Seq<(Seq<char>, Seq<u8>)>) -> bool {
    exists|i: int| 0 <= i < headers.len() && is_upgrade_header(#[trigger] headers[i])
}

/// Whether one of the headers asks to upgrade the connection to a WebSocket.
pub fn is_ws_upgrade(headers: &Vec<Header>) -> (r: bool)
    ensures
        r == asks_upgrade(header_pairs(headers@)),
{
    let ghost pairs = header_pairs(headers@);
    let mut i: usize = 0;
    while i < headers.len()
        invariant
            i <= headers.len(),
            pairs == header_pairs(headers@),
            forall|j: int| 0 <= j < i ==> !is_upgrade_header(#[trigger] pairs[j]),
        decreases headers.len() - i,
    {
        let h = &headers[i];
        if eq_ignoring_case(h.name.as_str().as_bytes(), "Upgrade".as_bytes())
            && eq_ignoring_case(h.value.as_slice(), "websocket".as_bytes()) {
            assert(is_upgrade_header(pairs[i as int]));
            return true;
        }
        assert(!is_upgrade_header(pairs[i as int]));
        i += 1;
    }
    false
}

/// Whether one of the headers names the host.
pub open spec fn has_host(headers: Seq<(Seq<char>, Seq<u8>)>) -> bool {
    exists|i: int|
        0 <= i < headers.len() && same_ignoring_case(
            encode_utf8((#[trigger] headers[i]).0),
            encode_utf8("Host"@),
        )
}

/// Whether one of the headers names the host.
pub fn names_host(headers: &Vec<Header>) -> (r: bool)
    ensures
        r == has_host(header_pairs(headers@)),
{
    let ghost pairs = header_pairs(headers@);
    let mut i: usize = 0;
    while i < headers.len()
        invariant
            i <= headers.len(),
            pairs == header_pairs(headers@),
            forall|j: int|
                0 <= j < i ==> !same_ignoring_case(
                    encode_utf8((#[trigger] pairs[j]).0),
                    encode_utf8("Host"@),
                ),
        decreases headers.len() - i,
    {
        let host = eq_ignoring_case(headers[i].name.as_str().as_bytes(), "Host".as_bytes());
        assert(host == same_ignoring_case(encode_utf8(pairs[i as int].0), encode_utf8("Host"@)));
        if host {
            return true;
        }
        i += 1;
    }
    false
}

/// What to do with a connection whose request has come.
pub enum ConnectionStep {
    /// Send this reply.
    Reply(Vec<u8>),
    /// Drop the connection with nothing sent.
    Close,
    /// Hand the connection to a WebSocket client.
    Upgrade,
    /// Serve a request of this method for this path.
    Dispatch { method: String, path: String },
}

/// What a `ConnectionStep` says.
pub enum ConnectionStepView {
    Reply(Seq<u8>),
    Close,
    Upgrade,
    Dispatch { method: Seq<char>, path: Seq<char> },
}

impl View for ConnectionStep {
    type V = ConnectionStepView;

    open spec fn view(&self) -> ConnectionStepView {
        match self {
            ConnectionStep::Reply(bytes) => ConnectionStepView::Reply(bytes@),
            ConnectionStep::Close => ConnectionStepView::Close,
            ConnectionStep::Upgrade => ConnectionStepView::Upgrade,
            ConnectionStep::Dispatch { method, path } => ConnectionStepView::Dispatch {
                method: method@,
                path: path@,
            },
        }
    }
}

/// A path without its query.
pub open spec fn without_query(path: Seq<char>) -> Seq<char> {
    path.take(cut(path, '?') as int)
}

/// What the bytes of a head ask for, given what parsing them gave. Binary garbage, that is bytes
/// that neither parse nor read as text, closes the connection. Any other head that is not whole
/// and valid is refused, and so is one that has too many headers or names no host. A `GET` of
/// `/ws` that asks for an upgrade is upgraded; anything else is dispatched, its query dropped.
pub open spec fn connection_step(head: Seq<u8>, parsed: ParsedRequestView) -> ConnectionStepView {
    match parsed {
        ParsedRequestView::Complete(request) => {
            let method = match request.method {
                Some(m) => m,
                None => Seq::empty(),
            };
            let path = without_query(
                match request.path {
                    Some(p) => p,
                    None => "/"@,
                },
            );
            if !has_host(request.headers) {
                ConnectionStepView::Reply(text_reply(400, "Bad Request"@))
            } else if method == "GET"@ && path == "/ws"@ && asks_upgrade(request.headers) {
                ConnectionStepView::Upgrade
            } else {
                ConnectionStepView::Dispatch { method, path }
            }
        },
        ParsedRequestView::Partial => ConnectionStepView::Reply(text_reply(400, "Bad Request"@)),
        ParsedRequestView::TooManyHeaders => ConnectionStepView::Reply(
            text_reply(400, "Bad Request"@),
        ),
        ParsedRequestView::Invalid => if reads_as_text(head) {
            ConnectionStepView::Reply(text_reply(400, "Bad Request"@))
        } else {
            ConnectionStepView::Close
        },
    }
}

/// Decides what the bytes of a head ask for, given what parsing them gave.
pub fn classify(head: &[u8], parsed: ParsedRequest) -> (r: ConnectionStep)
    ensures
        r@ == connection_step(head@, parsed@),
{
    match parsed {
        ParsedRequest::Complete(request) => {
            if !names_host(&request.headers) {
                return ConnectionStep::Reply(http_text(400, "Bad Request"));
            }
            let method = match request.method {
                Some(m) => m,
                None => String::new(),
            };
            let full_path = match request.path {
                Some(p) => p,
                None => String::from("/"),
            };
            let path = before_char(full_path.as_str(), '?').to_owned();
            assert(path@ =~= without_query(full_path@));
            if str_eq(method.as_str(), "GET") && str_eq(path.as_str(), "/ws") && is_ws_upgrade(
                &request.headers,
            ) {
                ConnectionStep::Upgrade
            } else {
                ConnectionStep::Dispatch { method, path }
            }
        },
        ParsedRequest::Partial => ConnectionStep::Reply(http_text(400, "Bad Request")),
        ParsedRequest::TooManyHeaders => ConnectionStep::Reply(http_text(400, "Bad Request")),
        ParsedRequest::Invalid => {
            if is_text(head) {
                ConnectionStep::Reply(http_text(400, "Bad Request"))
            } else {
                ConnectionStep::Close
            }
        },
    }
}

/// Parses the head of a request and decides what it asks for.
pub fn accept_head(head: &[u8]) -> (r: ConnectionStep)
    ensures
        r@ == connection_step(head@, parsed_request(head@, MAX_HEADERS)),
{
    classify(head, parse_request(head, MAX_HEADERS))
}

/// All bytes of a series of reads, in order.
pub open spec fn joined(chunks: Seq<Seq<u8>>) -> Seq<u8>
    decreases chunks.len(),
{
    if chunks.len() == 0 {
        Seq::empty()
    } else {
        chunks[0] + joined(chunks.drop_first())
    }
}

/// The bytes and the step with which a reader that holds `buf` ends a series of reads: where a
/// step other than reading on comes, that one, and else the last.
pub open spec fn reading(buf: Seq<u8>, chunks: Seq<Seq<u8>>) -> (Seq<u8>, ReadStepView)
    decreases chunks.len(),
{
    if chunks.len() == 0 {
        (buf, ReadStepView::ReadMore { room: REQUEST_LIMIT - buf.len() })
    } else {
        let now = buf + chunks[0];
        match read_step(now, chunks[0].len()) {
            ReadStepView::ReadMore { .. } => reading(now, chunks.drop_first()),
            step => (now, step),
        }
    }
}

/// However the network cuts a request into reads, the same head is read: where the bytes have a
/// whole head and fit the buffer, any series of non-empty reads of them ends with exactly that
/// head.
pub proof fn law_fragmentation_does_not_matter(data: Seq<u8>, buf: Seq<u8>, chunks: Seq<Seq<u8>>)
    requires
        data == buf + joined(chunks),
        data.len() <= REQUEST_LIMIT,
        head_end(data) is Some,
        head_end(buf) is None,
        forall|i: int| 0 <= i < chunks.len() ==> (#[trigger] chunks[i]).len() > 0,
    ensures
        reading(buf, chunks).1 == (ReadStepView::Complete { end: head_end(data)->0 }),
        reading(buf, chunks).0.take(head_end(data)->0) == data.take(head_end(data)->0),
    decreases chunks.len(),
{
    if chunks.len() == 0 {
        assert(data =~= buf);
    } else {
        let now = buf + chunks[0];
        let rest = chunks.drop_first();
        assert(data =~= now + joined(rest));
        if head_end(now) is Some {
            law_head_end_is_stable(now, joined(rest));
            let end = choose|e: int| head_ends_at(now, e);
            lemma_head_end(now, end);
            assert(now.take(end) =~= data.take(end));
        } else {
            assert(now.len() < data.len()) by {
                if joined(rest).len() == 0 {
                    assert(data =~= now);
                }
            }
            lemma_rest_not_empty(chunks);
            law_fragmentation_does_not_matter(data, now, rest);
        }
    }
}

/// A head that does not end within `REQUEST_LIMIT` bytes is answered that it is a bad request,
/// however the network cuts it into reads.
pub proof fn law_oversized_head_is_refused(data: Seq<u8>, buf: Seq<u8>, chunks: Seq<Seq<u8>>)
    requires
        data == buf + joined(chunks),
        data.len() == REQUEST_LIMIT,
        head_end(data) is None,
        buf.len() < REQUEST_LIMIT,
        forall|i: int| 0 <= i < chunks.len() ==> (#[trigger] chunks[i]).len() > 0,
    ensures
        reading(buf, chunks) == (
            data,
            ReadStepView::TooLarge { reply: text_reply(400, "Bad Request"@) },
        ),
    decreases chunks.len(),
{
    if chunks.len() == 0 {
        assert(data =~= buf);
    } else {
        let now = buf + chunks[0];
        let rest = chunks.drop_first();
        assert(data =~= now + joined(rest));
        if head_end(now) is Some {
            law_head_end_is_stable(now, joined(rest));
        }
        if now.len() == REQUEST_LIMIT {
            assert(data =~= now);
        } else {
            lemma_rest_not_empty(chunks);
            law_oversized_head_is_refused(data, now, rest);
        }
    }
}

proof fn lemma_rest_not_empty(chunks: Seq<Seq<u8>>)
    requires
        chunks.len() > 0,
        forall|i: int| 0 <= i < chunks.len() ==> (#[trigger] chunks[i]).len() > 0,
    ensures
        forall|i: int|
            0 <= i < chunks.drop_first().len() ==> (#[trigger] chunks.drop_first()[i]).len() > 0,
{
    assert forall|i: int| 0 <= i < chunks.drop_first().len() implies (
    #[trigger] chunks.drop_first()[i]).len() > 0 by {
        assert(chunks.drop_first()[i] == chunks[i + 1]);
    }
}

/// The limits of a request: its head, its headers, and the silence of its client.
pub proof fn law_request_limits()
    ensures
        REQUEST_LIMIT == 8 * 1024,
        MAX_HEADERS == 32,
        READ_TIMEOUT_SECONDS == 5,
{
}

/// A read that gave nothing closes the connection, and nothing else does. Else a head that is all
/// there is complete, where it ends; one that is not is read on, for as many bytes as are left of
/// the limit, and is refused as a bad request exactly when none are left.
pub proof fn law_read_ends_when_it_should(buf: Seq<u8>, chunk_len: nat)
    requires
        buf.len() <= REQUEST_LIMIT,
    ensures
        read_step(buf, chunk_len) is Closed <==> chunk_len == 0,
        chunk_len > 0 ==> match read_step(buf, chunk_len) {
            ReadStepView::Closed => false,
            ReadStepView::Complete { end } => head_end(buf) == Some(end),
            ReadStepView::TooLarge { reply } => {
                &&& head_end(buf) is None
                &&& buf.len() == REQUEST_LIMIT
                &&& received_line(reply, 0) == "HTTP/1.1 400 Bad Request"@
                &&& received_body(reply) == encode_utf8("Bad Request"@)
            },
            ReadStepView::ReadMore { room } => {
                &&& head_end(buf) is None
                &&& room > 0
                &&& buf.len() + room == REQUEST_LIMIT
            },
        },
{
    lemma_bad_request();
}

/// A request whose head has not ended is read on while bytes are left of the limit, however the
/// network cuts it into reads; when the client then closes, so does the connection.
pub proof fn law_unfinished_head_is_read_on(data: Seq<u8>, buf: Seq<u8>, chunks: Seq<Seq<u8>>)
    requires
        data == buf + joined(chunks),
        data.len() < REQUEST_LIMIT,
        head_end(data) is None,
        forall|i: int| 0 <= i < chunks.len() ==> (#[trigger] chunks[i]).len() > 0,
    ensures
        reading(buf, chunks) == (
            data,
            ReadStepView::ReadMore { room: REQUEST_LIMIT - data.len() },
        ),
        read_step(data, 0) is Closed,
    decreases chunks.len(),
{
    if chunks.len() == 0 {
        assert(data =~= buf);
    } else {
        let now = buf + chunks[0];
        let rest = chunks.drop_first();
        assert(data =~= now + joined(rest));
        if head_end(now) is Some {
            law_head_end_is_stable(now, joined(rest));
        }
        lemma_rest_not_empty(chunks);
        law_unfinished_head_is_read_on(data, now, rest);
    }
}

/// Two byte strings are equal but for case exactly if they are equally long and at each place
/// either the same byte stands or the two cases of one ASCII letter.
pub proof fn law_only_letters_have_case(a: Seq<u8>, b: Seq<u8>)
    ensures
        same_ignoring_case(a, b) <==> a.len() == b.len() && forall|i: int|
            0 <= i < a.len() ==> #[trigger] a[i] == b[i] || (65 <= a[i] <= 90 && b[i] == a[i] + 32)
                || (65 <= b[i] <= 90 && a[i] == b[i] + 32),
        same_ignoring_case(a, a),
        same_ignoring_case(a, b) == same_ignoring_case(b, a),
{
    if same_ignoring_case(a, b) {
        assert forall|i: int| 0 <= i < a.len() implies #[trigger] a[i] == b[i] || (65 <= a[i] <= 90
            && b[i] == a[i] + 32) || (65 <= b[i] <= 90 && a[i] == b[i] + 32) by {
            assert(ascii_lower(a[i]) == ascii_lower(b[i]));
        }
        assert forall|i: int| 0 <= i < b.len() implies ascii_lower(#[trigger] b[i]) == ascii_lower(
            a[i],
        ) by {
            assert(ascii_lower(a[i]) == ascii_lower(b[i]));
        }
    }
    if same_ignoring_case(b, a) {
        assert forall|i: int| 0 <= i < a.len() implies ascii_lower(#[trigger] a[i]) == ascii_lower(
            b[i],
        ) by {
            assert(ascii_lower(b[i]) == ascii_lower(a[i]));
        }
    }
}

/// The pairs of a list of headers are their names and values, one for one and in their order.
pub proof fn law_header_pairs(headers: Seq<Header>)
    ensures
        header_pairs(headers).len() == headers.len(),
        forall|i: int|
            0 <= i < headers.len() ==> (#[trigger] header_pairs(headers)[i]).0 == headers[i].name@
                && header_pairs(headers)[i].1 == headers[i].value@,
{
}

/// A parsed request is shown as it is: whether it is complete, and its method, path and headers.
pub proof fn law_parsed_request_is_shown(parsed: ParsedRequest)
    ensures
        parsed is Partial <==> parsed@ is Partial,
        parsed is TooManyHeaders <==> parsed@ is TooManyHeaders,
        parsed is Invalid <==> parsed@ is Invalid,
        parsed matches ParsedRequest::Complete(head) ==> {
            &&& parsed@ is Complete
            &&& parsed@->Complete_0.method is Some <==> head.method is Some
            &&& head.method is Some ==> parsed@->Complete_0.method->0 == head.method->0@
            &&& parsed@->Complete_0.path is Some <==> head.path is Some
            &&& head.path is Some ==> parsed@->Complete_0.path->0 == head.path->0@
            &&& parsed@->Complete_0.headers == header_pairs(head.headers@)
        },
{
}

/// A step is shown as it is.
pub proof fn law_steps_are_shown(step: ConnectionStep, read: ReadStep)
    ensures
        step is Close <==> step@ is Close,
        step is Upgrade <==> step@ is Upgrade,
        step matches ConnectionStep::Reply(bytes) ==> step@ is Reply && step@->Reply_0 == bytes@,
        step matches ConnectionStep::Dispatch { method, path } ==> step@ is Dispatch
            && step@->method == method@ && step@->path == path@,
        read is Closed <==> read@ is Closed,
        read matches ReadStep::Complete { end } ==> read@ is Complete && read@->end == end,
        read matches ReadStep::TooLarge { reply } ==> read@ is TooLarge && read@->reply == reply@,
        read matches ReadStep::ReadMore { room } ==> read@ is ReadMore && read@->room == room,
{
}

/// It does not matter where among the headers one stands: a list asks for an upgrade exactly if
/// one of its two parts does, however it is parted, and the same holds of naming a host.
pub proof fn law_headers_may_stand_anywhere(
    front: Seq<(Seq<char>, Seq<u8>)>,
    back: Seq<(Seq<char>, Seq<u8>)>,
)
    ensures
        asks_upgrade(front + back) <==> asks_upgrade(front) || asks_upgrade(back),
        asks_upgrade(front + back) == asks_upgrade(back + front),
        has_host(front + back) <==> has_host(front) || has_host(back),
        has_host(front + back) == has_host(back + front),
{
    lemma_headers_concat(front, back);
    lemma_headers_concat(back, front);
}

proof fn lemma_headers_concat(
    front: Seq<(Seq<char>, Seq<u8>)>,
    back: Seq<(Seq<char>, Seq<u8>)>,
)
    ensures
        asks_upgrade(front + back) <==> asks_upgrade(front) || asks_upgrade(back),
        has_host(front + back) <==> has_host(front) || has_host(back),
{
    let all = front + back;
    if asks_upgrade(front) {
        let i = choose|i: int| 0 <= i < front.len() && is_upgrade_header(#[trigger] front[i]);
        assert(is_upgrade_header(all[i]));
    }
    if asks_upgrade(back) {
        let i = choose|i: int| 0 <= i < back.len() && is_upgrade_header(#[trigger] back[i]);
        assert(is_upgrade_header(all[front.len() + i]));
    }
    if asks_upgrade(all) {
        let i = choose|i: int| 0 <= i < all.len() && is_upgrade_header(#[trigger] all[i]);
        if i < front.len() {
            assert(is_upgrade_header(front[i]));
        } else {
            assert(is_upgrade_header(back[i - front.len()]));
        }
    }
    let host = encode_utf8("Host"@);
    if has_host(front) {
        let i = choose|i: int|
            0 <= i < front.len() && same_ignoring_case(encode_utf8((#[trigger] front[i]).0), host);
        assert(same_ignoring_case(encode_utf8(all[i].0), host));
    }
    if has_host(back) {
        let i = choose|i: int|
            0 <= i < back.len() && same_ignoring_case(encode_utf8((#[trigger] back[i]).0), host);
        assert(same_ignoring_case(encode_utf8(all[front.len() + i].0), host));
    }
    if has_host(all) {
        let i = choose|i: int|
            0 <= i < all.len() && same_ignoring_case(encode_utf8((#[trigger] all[i]).0), host);
        if i < front.len() {
            assert(same_ignoring_case(encode_utf8(front[i].0), host));
        } else {
            assert(same_ignoring_case(encode_utf8(back[i - front.len()].0), host));
        }
    }
}

/// A request becomes a WebSocket exactly if it is a `GET` of `/ws`, with or without a query, some
/// header of it is `Upgrade: websocket`, and some header names a host, wherever the two stand and
/// in whatever case they are written.
pub proof fn law_upgrade_is_what_it_takes(head: Seq<u8>, request: RequestHeadView)
    ensures
        connection_step(head, ParsedRequestView::Complete(request)) is Upgrade <==> {
            &&& request.method == Some("GET"@)
            &&& request.path is Some
            &&& request.path->0 == "/ws"@ || (request.path->0.len() >= 4 && request.path->0.take(4)
                == "/ws?"@)
            &&& exists|i: int|
                0 <= i < request.headers.len() && same_ignoring_case(
                    encode_utf8((#[trigger] request.headers[i]).0),
                    encode_utf8("Upgrade"@),
                ) && same_ignoring_case(request.headers[i].1, encode_utf8("websocket"@))
            &&& exists|i: int|
                0 <= i < request.headers.len() && same_ignoring_case(
                    encode_utf8((#[trigger] request.headers[i]).0),
                    encode_utf8("Host"@),
                )
        },
{
    reveal_strlit("GET");
    reveal_strlit("/ws");
    reveal_strlit("/ws?");
    reveal_strlit("/");
    assert("GET"@.len() == 3);
    assert("/ws"@.len() == 3);
    assert("/"@.len() == 1);
    let asked = request.path;
    if asked is Some {
        let p = asked->0;
        lemma_cut_bounds(p, '?');
        if without_query(p) == "/ws"@ {
            assert(cut(p, '?') == 3);
            assert(p.take(3) == "/ws"@);
            if p.len() == 3 {
                assert(p =~= p.take(3));
            } else {
                assert(p[3] == '?');
                assert(p.take(3)[0] == p[0] && p.take(3)[1] == p[1] && p.take(3)[2] == p[2]);
                assert(p.take(4) =~= "/ws?"@);
            }
        }
        if p == "/ws"@ {
            lemma_cut(p, '?', 3);
            assert(without_query(p) =~= "/ws"@);
        }
        if p.len() >= 4 && p.take(4) == "/ws?"@ {
            assert(p.take(4)[0] == p[0] && p.take(4)[1] == p[1] && p.take(4)[2] == p[2]
                && p.take(4)[3] == p[3]);
            lemma_cut(p, '?', 3);
            assert(without_query(p) =~= "/ws"@);
        }
    } else {
        lemma_cut_bounds("/"@, '?');
        assert(without_query("/"@).len() <= 1);
    }
    lemma_asks_upgrade(request.headers);
}

proof fn lemma_asks_upgrade(headers: Seq<(Seq<char>, Seq<u8>)>)
    ensures
        asks_upgrade(headers) <==> exists|i: int|
            0 <= i < headers.len() && same_ignoring_case(
                encode_utf8((#[trigger] headers[i]).0),
                encode_utf8("Upgrade"@),
            ) && same_ignoring_case(headers[i].1, encode_utf8("websocket"@)),
{
    if asks_upgrade(headers) {
        let i = choose|i: int| 0 <= i < headers.len() && is_upgrade_header(#[trigger] headers[i]);
        assert(same_ignoring_case(encode_utf8(headers[i].0), encode_utf8("Upgrade"@)));
    }
    if exists|i: int|
        0 <= i < headers.len() && same_ignoring_case(
            encode_utf8((#[trigger] headers[i]).0),
            encode_utf8("Upgrade"@),
        ) && same_ignoring_case(headers[i].1, encode_utf8("websocket"@)) {
        let i = choose|i: int|
            0 <= i < headers.len() && same_ignoring_case(
                encode_utf8((#[trigger] headers[i]).0),
                encode_utf8("Upgrade"@),
            ) && same_ignoring_case(headers[i].1, encode_utf8("websocket"@));
        assert(is_upgrade_header(headers[i]));
    }
}

/// A request that names a host and is not upgraded is served under its own method, for its path
/// up to the first question mark, whatever the query is; one without a method has the empty one,
/// and one without a path is for `/`.
pub proof fn law_request_is_served_as_asked(
    head: Seq<u8>,
    request: RequestHeadView,
    path: Seq<char>,
    query: Seq<char>,
)
    requires
        !path.contains('?'),
        request.path == Some(path) || request.path == Some(path + seq!['?'] + query)
            || request.path is None && path == "/"@,
        !(connection_step(head, ParsedRequestView::Complete(request)) is Upgrade),
        exists|i: int|
            0 <= i < request.headers.len() && same_ignoring_case(
                encode_utf8((#[trigger] request.headers[i]).0),
                encode_utf8("Host"@),
            ),
    ensures
        connection_step(head, ParsedRequestView::Complete(request)) is Dispatch,
        connection_step(head, ParsedRequestView::Complete(request))->path == path,
        request.method is Some ==> connection_step(
            head,
            ParsedRequestView::Complete(request),
        )->method == request.method->0,
        request.method is None ==> connection_step(
            head,
            ParsedRequestView::Complete(request),
        )->method.len() == 0,
{
    law_cut_finds_the_first(path, '?', query);
    assert(path.take(path.len() as int) =~= path);
    assert((path + seq!['?'] + query).take(path.len() as int) =~= path);
}

proof fn lemma_bad_request()
    ensures
        received_line(text_reply(400, "Bad Request"@), 0) == "HTTP/1.1 400 Bad Request"@,
        received_body(text_reply(400, "Bad Request"@)) == encode_utf8("Bad Request"@),
{
    law_text_reply_reads_back(400, "Bad Request"@);
    lemma_status_lines();
}

/// A head that names no host, is not whole, has too many headers, or is text but does not parse is
/// answered 400 Bad Request; what neither parses nor reads as text closes the connection, and
/// nothing else does.
pub proof fn law_only_whole_requests_are_served(head: Seq<u8>, parsed: ParsedRequestView)
    ensures
        connection_step(head, parsed) is Close <==> parsed is Invalid && !reads_as_text(head),
        connection_step(head, parsed) is Reply <==> {
            ||| parsed is Partial
            ||| parsed is TooManyHeaders
            ||| parsed is Invalid && reads_as_text(head)
            ||| parsed is Complete && forall|i: int|
                0 <= i < parsed->Complete_0.headers.len() ==> !same_ignoring_case(
                    encode_utf8((#[trigger] parsed->Complete_0.headers[i]).0),
                    encode_utf8("Host"@),
                )
        },
        connection_step(head, parsed) matches ConnectionStepView::Reply(bytes) ==> received_line(
            bytes,
            0,
        ) == "HTTP/1.1 400 Bad Request"@ && received_body(bytes) == encode_utf8("Bad Request"@),
{
    lemma_bad_request();
}

} // verus!
