//! The state of the watch server and how requests and events move it.
use crate::artifacts::{
    artifact_named, locate_artifact, refusal_reply, refusal_response, ArtifactName, ArtifactRequest,
};
use crate::control::{
    flags_after, wait_result, wakeups_after, ControlFlags, ControlSignal, PipelineControl,
};
use crate::event_log::{
    in_order, law_push_keeps_newest, law_push_loses_nothing_early,
    law_up_to_date_reader_gets_new_event, newer, pushed, Entry, EventLog,
};
use crate::events::{RuntimeEvent, RuntimeEventKind};
use crate::http::{
    http_response, http_text, json_reply, json_response, law_json_reply_reads_back,
    law_reply_reads_back, law_text_reply_reads_back, lemma_content_types, lemma_status_lines,
    received_body, received_line, response, text_reply,
};
use crate::pipeline::initial_status;
use crate::request::{
    accept_head, connection_step, has_host, parsed_request, ConnectionStep, ConnectionStepView,
    ParsedRequestView, MAX_HEADERS,
};
use crate::status::{next_status, resume_status, resumed, update_status, StatusView, WatchStatus};
use crate::text::{
    decimal, has_prefix, law_starts_with_means_in_front, push_decimal, reads_as_text, starts_with,
    str_eq,
};
use vstd::prelude::*;
use vstd::string::*;
use vstd::utf8::*;

verus! {

/// What the server's connections, its pipeline and its event bridge share.
pub struct AppState {
    /// The page that viewers load.
    pub page: Vec<u8>,
    /// The pipeline's graph in JSON; `None` where it could not be encoded.
    pub graph_json: Option<Vec<u8>>,
    /// The source of the graph.
    pub dot_source: String,
    /// The status that viewers see.
    pub status: WatchStatus,
    /// The control of the pipeline.
    pub control: PipelineControl,
    /// Whether the pipeline still waits for its start signal.
    pub start_pending: bool,
    /// The events so far.
    pub event_log: EventLog,
    /// Whether the server is shutting down.
    pub shutdown: bool,
}

/// What an `AppState` holds.
#[verifier::ext_equal]
pub struct AppView {
    pub page: Seq<u8>,
    pub graph_json: Option<Seq<u8>>,
    pub dot_source: Seq<char>,
    pub status: StatusView,
    pub control: ControlFlags,
    pub wakeups: nat,
    pub start_pending: bool,
    pub log: Seq<Entry>,
    pub next_seq: u64,
    pub shutdown: bool,
}

/// The bytes of an optional byte string.
pub open spec fn opt_bytes(b: Option<Vec<u8>>) -> Option<Seq<u8>> {
    match b {
        Some(bytes) => Some(bytes@),
        None => None,
    }
}

impl View for AppState {
    type V = AppView;

    open spec fn view(&self) -> AppView {
        AppView {
            page: self.page@,
            graph_json: opt_bytes(self.graph_json),
            dot_source: self.dot_source@,
            status: self.status@,
            control: self.control@,
            wakeups: self.control.wakeups(),
            start_pending: self.start_pending,
            log: self.event_log@,
            next_seq: self.event_log.next(),
            shutdown: self.shutdown,
        }
    }
}

/// What the server answers.
pub enum Reply {
    /// Send these bytes.
    Send(Vec<u8>),
    /// Give the pipeline its start signal, then send these bytes.
    StartThenSend(Vec<u8>),
    /// Encode the status as JSON and send it.
    EncodeStatus,
    /// Read this file and send it.
    ReadArtifact(ArtifactRequest),
    /// Send nothing and drop the connection.
    Close,
}

/// What a `Reply` says.
pub enum ReplyView {
    Send(Seq<u8>),
    StartThenSend(Seq<u8>),
    EncodeStatus,
    ReadArtifact(ArtifactName),
    Close,
}

impl View for Reply {
    type V = ReplyView;

    open spec fn view(&self) -> ReplyView {
        match self {
            Reply::Send(bytes) => ReplyView::Send(bytes@),
            Reply::StartThenSend(bytes) => ReplyView::StartThenSend(bytes@),
            Reply::EncodeStatus => ReplyView::EncodeStatus,
            Reply::ReadArtifact(request) => ReplyView::ReadArtifact(request@),
            Reply::Close => ReplyView::Close,
        }
    }
}

/// What a request is for.
#[derive(Clone, Copy, Debug, PartialEq, Eq, Structural)]
pub enum Route {
    Page,
    Graph,
    Dot,
    Status,
    Artifact,
    Start,
    Pause,
    Resume,
    Stop,
    /// A path that is there, but not for this method.
    WrongMethod,
    Unknown,
}

/// What a request of this method for this path is for.
pub open spec fn route_of(method: Seq<char>, path: Seq<char>) -> Route {
    if method == "GET"@ {
        if path == "/"@ {
            Route::Page
        } else if path == "/api/graph"@ {
            Route::Graph
        } else if path == "/api/dot"@ {
            Route::Dot
        } else if path == "/api/status"@ {
            Route::Status
        } else if starts_with(path, "/api/artifacts/"@) {
            Route::Artifact
        } else {
            Route::Unknown
        }
    } else if method == "POST"@ {
        if path == "/api/control/start"@ {
            Route::Start
        } else if path == "/api/control/pause"@ {
            Route::Pause
        } else if path == "/api/control/resume"@ {
            Route::Resume
        } else if path == "/api/control/stop"@ {
            Route::Stop
        } else if path == "/ws"@ {
            Route::WrongMethod
        } else {
            Route::Unknown
        }
    } else {
        Route::Unknown
    }
}

/// Finds what a request is for.
pub fn route(method: &str, path: &str) -> (r: Route)
    ensures
        r == route_of(method@, path@),
{
    if str_eq(method, "GET") {
        if str_eq(path, "/") {
            Route::Page
        } else if str_eq(path, "/api/graph") {
            Route::Graph
        } else if str_eq(path, "/api/dot") {
            Route::Dot
        } else if str_eq(path, "/api/status") {
            Route::Status
        } else if has_prefix(path, "/api/artifacts/") {
            Route::Artifact
        } else {
            Route::Unknown
        }
    } else if str_eq(method, "POST") {
        if str_eq(path, "/api/control/start") {
            Route::Start
        } else if str_eq(path, "/api/control/pause") {
            Route::Pause
        } else if str_eq(path, "/api/control/resume") {
            Route::Resume
        } else if str_eq(path, "/api/control/stop") {
            Route::Stop
        } else if str_eq(path, "/ws") {
            Route::WrongMethod
        } else {
            Route::Unknown
        }
    } else {
        Route::Unknown
    }
}

/// The state after a request to the control of the pipeline, which may wake the runner.
pub open spec fn signalled(s: AppView, signal: ControlSignal) -> AppView {
    AppView {
        control: flags_after(s.control, signal),
        wakeups: wakeups_after(s.wakeups, signal),
        ..s
    }
}

/// The state after a request on this route. Requests for the page and for documents change
/// nothing.
pub open spec fn state_after(s: AppView, route: Route) -> AppView {
    match route {
        Route::Start => AppView { start_pending: false, ..s },
        Route::Pause => signalled(s, ControlSignal::Pause),
        Route::Resume => AppView {
            status: resumed(s.status),
            ..signalled(s, ControlSignal::Resume)
        },
        Route::Stop => AppView { start_pending: false, ..signalled(s, ControlSignal::Cancel) },
        _ => s,
    }
}

/// The state once the server is shutting down: the pipeline is cancelled and gets no start signal
/// any more.
pub open spec fn state_at_shutdown(s: AppView) -> AppView {
    AppView { shutdown: true, start_pending: false, ..signalled(s, ControlSignal::Cancel) }
}

/// The answer to a request on this route.
pub open spec fn answer(s: AppView, route: Route, path: Seq<char>) -> ReplyView {
    match route {
        Route::Page => ReplyView::Send(response(200, "text/html; charset=utf-8"@, s.page)),
        Route::Graph => ReplyView::Send(json_reply(s.graph_json)),
        Route::Dot => ReplyView::Send(
            response(200, "text/plain; charset=utf-8"@, encode_utf8(s.dot_source)),
        ),
        Route::Status => ReplyView::EncodeStatus,
        Route::Artifact => match artifact_named(path) {
            Ok(name) => ReplyView::ReadArtifact(name),
            Err(refusal) => ReplyView::Send(refusal_reply(refusal)),
        },
        Route::Start => if s.start_pending {
            ReplyView::StartThenSend(text_reply(200, ""@))
        } else {
            ReplyView::Send(text_reply(409, "already started"@))
        },
        Route::Pause => ReplyView::Send(text_reply(200, ""@)),
        Route::Resume => ReplyView::Send(text_reply(200, ""@)),
        Route::Stop => if s.start_pending {
            ReplyView::StartThenSend(text_reply(200, ""@))
        } else {
            ReplyView::Send(text_reply(200, ""@))
        },
        Route::WrongMethod => ReplyView::Send(text_reply(405, "Method Not Allowed"@)),
        Route::Unknown => ReplyView::Send(text_reply(404, "Not Found"@)),
    }
}

impl AppState {
    /// The status lists no active node twice, and the event log is in order.
    pub open spec fn wf(&self) -> bool {
        self.status.wf() && self.event_log.wf()
    }

    /// The state of a server that has just started, of a pipeline that waits for a start signal
    /// or does not.
    pub fn new(
        page: Vec<u8>,
        graph_json: Option<Vec<u8>>,
        dot_source: String,
        wait_for_start: bool,
    ) -> (r: AppState)
        ensures
            r@ == (AppView {
                page: page@,
                graph_json: opt_bytes(graph_json),
                dot_source: dot_source@,
                status: if wait_for_start {
                    StatusView::WaitingForStart
                } else {
                    StatusView::NotStarted
                },
                control: ControlFlags { cancelled: false, paused: false },
                wakeups: 0,
                start_pending: wait_for_start,
                log: Seq::empty(),
                next_seq: 1,
                shutdown: false,
            }),
            r.wf(),
    {
        AppState {
            page,
            graph_json,
            dot_source,
            status: initial_status(wait_for_start),
            control: PipelineControl::new(),
            start_pending: wait_for_start,
            event_log: EventLog::new(),
            shutdown: false,
        }
    }

    /// Answers a request to start the pipeline: it is started if it still waits for that.
    pub fn control_start(&mut self) -> (r: Reply)
        ensures
            final(self)@ == state_after(old(self)@, Route::Start),
            r@ == answer(old(self)@, Route::Start, Seq::empty()),
            final(self).control.notify() == old(self).control.notify(),
            old(self).wf() ==> final(self).wf(),
    {
        if self.start_pending {
            self.start_pending = false;
            Reply::StartThenSend(http_text(200, ""))
        } else {
            Reply::Send(http_text(409, "already started"))
        }
    }

    /// Answers a request to pause the pipeline.
    pub fn control_pause(&mut self) -> (r: Reply)
        ensures
            final(self)@ == state_after(old(self)@, Route::Pause),
            r@ == answer(old(self)@, Route::Pause, Seq::empty()),
            final(self).control.notify() == old(self).control.notify(),
            old(self).wf() ==> final(self).wf(),
    {
        self.control.pause();
        Reply::Send(http_text(200, ""))
    }

    /// Answers a request to resume the pipeline. The status shows it at once.
    pub fn control_resume(&mut self) -> (r: Reply)
        ensures
            final(self)@ == state_after(old(self)@, Route::Resume),
            r@ == answer(old(self)@, Route::Resume, Seq::empty()),
            final(self).control.notify() == old(self).control.notify(),
            old(self).wf() ==> final(self).wf(),
    {
        self.control.resume();
        let mut status = WatchStatus::NotStarted;
        core::mem::swap(&mut self.status, &mut status);
        self.status = resume_status(status);
        Reply::Send(http_text(200, ""))
    }

    /// Answers a request to stop the pipeline. One that still waits for its start signal gets it,
    /// so that it can end.
    pub fn control_stop(&mut self) -> (r: Reply)
        ensures
            final(self)@ == state_after(old(self)@, Route::Stop),
            r@ == answer(old(self)@, Route::Stop, Seq::empty()),
            final(self).control.notify() == old(self).control.notify(),
            old(self).wf() ==> final(self).wf(),
    {
        self.control.cancel();
        if self.start_pending {
            self.start_pending = false;
            Reply::StartThenSend(http_text(200, ""))
        } else {
            Reply::Send(http_text(200, ""))
        }
    }

    /// Answers a request of this method for this path.
    pub fn dispatch_http(&mut self, method: &str, path: &str) -> (r: Reply)
        ensures
            final(self)@ == state_after(old(self)@, route_of(method@, path@)),
            r@ == answer(old(self)@, route_of(method@, path@), path@),
            final(self).control.notify() == old(self).control.notify(),
            old(self).wf() ==> final(self).wf(),
    {
        match route(method, path) {
            Route::Page => Reply::Send(
                http_response(200, "text/html; charset=utf-8", self.page.as_slice()),
            ),
            Route::Graph => Reply::Send(json_response(&self.graph_json)),
            Route::Dot => Reply::Send(
                http_response(
                    200,
                    "text/plain; charset=utf-8",
                    self.dot_source.as_str().as_bytes(),
                ),
            ),
            Route::Status => Reply::EncodeStatus,
            Route::Artifact => match locate_artifact(path) {
                Ok(request) => Reply::ReadArtifact(request),
                Err(refusal) => Reply::Send(refusal_response(refusal)),
            },
            Route::Start => self.control_start(),
            Route::Pause => self.control_pause(),
            Route::Resume => self.control_resume(),
            Route::Stop => self.control_stop(),
            Route::WrongMethod => Reply::Send(http_text(405, "Method Not Allowed")),
            Route::Unknown => Reply::Send(http_text(404, "Not Found")),
        }
    }

    /// Takes an event of the pipeline: moves the status and logs the event, with its JSON text;
    /// `None` stands for an event that could not be encoded, which is logged with no text.
    /// Returns the event's number in the log.
    pub fn record_event(&mut self, event: &RuntimeEvent, json: Option<String>) -> (seq: u64)
        requires
            old(self).wf(),
            old(self).event_log.next() < u64::MAX,
        ensures
            seq == old(self)@.next_seq,
            final(self)@ == event_recorded(
                old(self)@,
                event.kind,
                match json {
                    Some(text) => text@,
                    None => Seq::empty(),
                },
            ),
            final(self).control.notify() == old(self).control.notify(),
            final(self).wf(),
    {
        update_status(&mut self.status, event);
        let text = match json {
            Some(text) => text,
            None => String::new(),
        };
        self.event_log.push(text)
    }

    /// Answers a request whose head has been read, or says that its connection is to become a
    /// WebSocket (`None`).
    pub fn handle_request(&mut self, head: &[u8]) -> (r: Option<Reply>)
        ensures
            final(self)@ == state_after_request(old(self)@, connection_step(
                head@,
                parsed_request(head@, MAX_HEADERS),
            )),
            match r {
                Some(reply) => request_answer(old(self)@, connection_step(
                    head@,
                    parsed_request(head@, MAX_HEADERS),
                )) == Some(reply@),
                None => request_answer(old(self)@, connection_step(
                    head@,
                    parsed_request(head@, MAX_HEADERS),
                )) is None,
            },
            final(self).control.notify() == old(self).control.notify(),
            old(self).wf() ==> final(self).wf(),
    {
        self.take_step(accept_head(head))
    }

    /// Begins the shutdown of the server: the pipeline is cancelled, and a runner that waits is
    /// woken to see it. Says whether the pipeline still waited for its start signal: it is then to
    /// be told that none will come, so that it can end.
    pub fn shut_down(&mut self) -> (waited: bool)
        ensures
            final(self)@ == state_at_shutdown(old(self)@),
            waited == old(self)@.start_pending,
            final(self).control.notify() == old(self).control.notify(),
            old(self).wf() ==> final(self).wf(),
    {
        let waited = self.start_pending;
        self.start_pending = false;
        self.shutdown = true;
        self.control.cancel();
        waited
    }

    /// Does what a request asks for once it is known.
    pub fn take_step(&mut self, step: ConnectionStep) -> (r: Option<Reply>)
        ensures
            final(self)@ == state_after_request(old(self)@, step@),
            match r {
                Some(reply) => request_answer(old(self)@, step@) == Some(reply@),
                None => request_answer(old(self)@, step@) is None,
            },
            final(self).control.notify() == old(self).control.notify(),
            old(self).wf() ==> final(self).wf(),
    {
        match step {
            ConnectionStep::Reply(bytes) => Some(Reply::Send(bytes)),
            ConnectionStep::Close => Some(Reply::Close),
            ConnectionStep::Upgrade => None,
            ConnectionStep::Dispatch { method, path } => Some(
                self.dispatch_http(method.as_str(), path.as_str()),
            ),
        }
    }
}

/// The state after an event of the pipeline.
pub open spec fn event_recorded(s: AppView, kind: RuntimeEventKind, json: Seq<char>) -> AppView {
    AppView {
        status: next_status(s.status, kind),
        log: pushed(s.log, s.next_seq, json),
        next_seq: (s.next_seq + 1) as u64,
        ..s
    }
}

/// The state after what a request asks for is done.
pub open spec fn state_after_request(s: AppView, step: ConnectionStepView) -> AppView {
    match step {
        ConnectionStepView::Dispatch { method, path } => state_after(s, route_of(method, path)),
        _ => s,
    }
}

/// The answer to a request; `None` where the connection is to become a WebSocket.
pub open spec fn request_answer(s: AppView, step: ConnectionStepView) -> Option<ReplyView> {
    match step {
        ConnectionStepView::Reply(bytes) => Some(ReplyView::Send(bytes)),
        ConnectionStepView::Close => Some(ReplyView::Close),
        ConnectionStepView::Upgrade => None,
        ConnectionStepView::Dispatch { method, path } => Some(
            answer(s, route_of(method, path), path),
        ),
    }
}

/// The address that the server binds.
pub fn bind_address(host: &str, port: u16) -> (r: String)
    ensures
        r@ == host@ + ":"@ + decimal(port as nat),
{
    let mut r = String::from(host);
    r.append(":");
    push_decimal(&mut r, port as u64);
    r
}

/// The address of the page for a browser.
pub fn page_url(address: &str) -> (r: String)
    ensures
        r@ == "http://"@ + address@,
{
    let mut r = String::from("http://");
    r.append(address);
    r
}

/// The log directory of a server that was told none, by the seconds since the epoch.
pub fn default_logs_root(seconds: u64) -> (r: String)
    ensures
        r@ == ".forge-watch-"@ + decimal(seconds as nat),
{
    let mut r = String::from(".forge-watch-");
    push_decimal(&mut r, seconds);
    r
}

/// A request that is not a `POST` changes nothing.
pub proof fn law_only_posts_change_state(s: AppView, method: Seq<char>, path: Seq<char>)
    requires
        method != "POST"@,
    ensures
        state_after(s, route_of(method, path)) == s,
{
    reveal_strlit("GET");
    reveal_strlit("POST");
    assert("GET"@.len() != "POST"@.len());
}

/// A request for anything but the known endpoints is answered that it was not found, and changes
/// nothing; so is every request that is neither a `GET` nor a `POST`.
pub proof fn law_unknown_is_not_found(s: AppView, method: Seq<char>, path: Seq<char>)
    requires
        route_of(method, path) is Unknown || (method != "GET"@ && method != "POST"@),
    ensures
        answer(s, route_of(method, path), path) == ReplyView::Send(text_reply(404, "Not Found"@)),
        state_after(s, route_of(method, path)) == s,
{
}

/// A `POST` to the WebSocket's path is answered that the method is not allowed, and changes
/// nothing.
pub proof fn law_post_to_ws_is_not_allowed(s: AppView)
    ensures
        answer(s, route_of("POST"@, "/ws"@), "/ws"@) == ReplyView::Send(
            text_reply(405, "Method Not Allowed"@),
        ),
        state_after(s, route_of("POST"@, "/ws"@)) == s,
{
    reveal_strlit("GET");
    reveal_strlit("POST");
    reveal_strlit("/ws");
    reveal_strlit("/api/control/start");
    reveal_strlit("/api/control/pause");
    reveal_strlit("/api/control/resume");
    reveal_strlit("/api/control/stop");
    assert("GET"@.len() != "POST"@.len());
    assert("/ws"@.len() == 3);
    assert("/api/control/start"@.len() == 18);
    assert("/api/control/pause"@.len() == 18);
    assert("/api/control/resume"@.len() == 19);
    assert("/api/control/stop"@.len() == 17);
}

/// Binary garbage closes the connection with nothing sent, and changes nothing.
pub proof fn law_garbage_is_dropped(s: AppView, head: Seq<u8>)
    requires
        !reads_as_text(head),
    ensures
        request_answer(s, connection_step(head, ParsedRequestView::Invalid)) == Some(
            ReplyView::Close,
        ),
        state_after_request(s, connection_step(head, ParsedRequestView::Invalid)) == s,
{
}

/// A text that is no valid head, and a head that is not whole, has too many headers or names no
/// host, is answered that it is a bad request, and changes nothing.
pub proof fn law_malformed_head_is_refused(s: AppView, head: Seq<u8>, parsed: ParsedRequestView)
    requires
        match parsed {
            ParsedRequestView::Complete(request) => !has_host(request.headers),
            ParsedRequestView::Partial => true,
            ParsedRequestView::TooManyHeaders => true,
            ParsedRequestView::Invalid => reads_as_text(head),
        },
    ensures
        request_answer(s, connection_step(head, parsed)) == Some(
            ReplyView::Send(text_reply(400, "Bad Request"@)),
        ),
        state_after_request(s, connection_step(head, parsed)) == s,
{
}

/// The state after a series of requests.
pub open spec fn state_after_all(s: AppView, requests: Seq<ConnectionStepView>) -> AppView
    decreases requests.len(),
{
    if requests.len() == 0 {
        s
    } else {
        state_after_request(state_after_all(s, requests.drop_last()), requests.last())
    }
}

/// How many requests of a series give the pipeline its start signal.
pub open spec fn start_signals(s: AppView, requests: Seq<ConnectionStepView>) -> nat
    decreases requests.len(),
{
    if requests.len() == 0 {
        0
    } else {
        let before = requests.drop_last();
        let given: nat = match request_answer(state_after_all(s, before), requests.last()) {
            Some(ReplyView::StartThenSend(_)) => 1,
            _ => 0,
        };
        start_signals(s, before) + given
    }
}

/// Whatever requests come, the pipeline gets its start signal at most once, and only if it waits
/// for one; and it waits for one no longer once it has got it.
pub proof fn law_started_at_most_once(s: AppView, requests: Seq<ConnectionStepView>)
    ensures
        start_signals(s, requests) <= 1,
        !s.start_pending ==> start_signals(s, requests) == 0,
        state_after_all(s, requests).start_pending ==> s.start_pending && start_signals(s, requests)
            == 0,
        s.start_pending && !state_after_all(s, requests).start_pending ==> start_signals(
            s,
            requests,
        ) == 1,
    decreases requests.len(),
{
    if requests.len() > 0 {
        law_started_at_most_once(s, requests.drop_last());
    }
}

/// A start that comes after a start or a stop is answered that the pipeline has already started.
pub proof fn law_second_start_conflicts(s: AppView, route: Route, path: Seq<char>)
    requires
        route is Start || route is Stop,
    ensures
        answer(state_after(s, route), Route::Start, path) == ReplyView::Send(
            text_reply(409, "already started"@),
        ),
{
}

/// A stop cancels the pipeline, and no later request takes that back.
pub proof fn law_stop_is_final(s: AppView, requests: Seq<ConnectionStepView>)
    ensures
        state_after(s, Route::Stop).control.cancelled,
        state_after_all(state_after(s, Route::Stop), requests).control.cancelled,
    decreases requests.len(),
{
    if requests.len() > 0 {
        law_stop_is_final(s, requests.drop_last());
    }
}

/// A runner that was to wait is not left asleep: whatever requests came since it looked, it has
/// been given a wake-up since unless it would still have to wait; and a single request to resume
/// or to stop is enough.
pub proof fn law_waiting_runner_is_woken(s: AppView, requests: Seq<ConnectionStepView>)
    requires
        wait_result(s.control) is None,
    ensures
        state_after_all(s, requests).wakeups >= s.wakeups,
        wait_result(state_after_all(s, requests).control) is Some ==> state_after_all(
            s,
            requests,
        ).wakeups > s.wakeups,
        wait_result(state_after(s, Route::Resume).control) == Some(false),
        wait_result(state_after(s, Route::Stop).control) == Some(true),
        state_after(s, Route::Resume).wakeups == s.wakeups + 1,
        state_after(s, Route::Stop).wakeups == s.wakeups + 1,
    decreases requests.len(),
{
    if requests.len() > 0 {
        law_waiting_runner_is_woken(s, requests.drop_last());
    }
}

/// A shutdown ends the pipeline whatever requests follow: its runner gives up at its next look,
/// one that waits has been given a wake-up to take that look, and no start signal is given.
pub proof fn law_shutdown_ends_the_pipeline(s: AppView, requests: Seq<ConnectionStepView>)
    ensures
        wait_result(state_after_all(state_at_shutdown(s), requests).control) == Some(true),
        state_at_shutdown(s).wakeups == s.wakeups + 1,
        start_signals(state_at_shutdown(s), requests) == 0,
        state_after_all(state_at_shutdown(s), requests).shutdown,
    decreases requests.len(),
{
    law_started_at_most_once(state_at_shutdown(s), requests);
    if requests.len() > 0 {
        law_shutdown_ends_the_pipeline(s, requests.drop_last());
    }
}

/// A request to resume shows in the status at once, just as the event of the resumed pipeline
/// does; that event then changes nothing more.
pub proof fn law_resume_shows_at_once(s: AppView, resume: RuntimeEventKind)
    requires
        resume matches RuntimeEventKind::Pipeline(e) && e is Resumed,
    ensures
        state_after(s, Route::Resume).status == next_status(s.status, resume),
        next_status(state_after(s, Route::Resume).status, resume) == state_after(
            s,
            Route::Resume,
        ).status,
        !(state_after(s, Route::Resume).status is Paused),
        !state_after(s, Route::Resume).control.paused,
{
}

/// No request touches the event log, the page, the graph or its source, and the status is moved
/// by none but a resume.
pub proof fn law_requests_keep_documents(s: AppView, requests: Seq<ConnectionStepView>)
    ensures
        state_after_all(s, requests).log == s.log,
        state_after_all(s, requests).next_seq == s.next_seq,
        state_after_all(s, requests).page == s.page,
        state_after_all(s, requests).graph_json == s.graph_json,
        state_after_all(s, requests).dot_source == s.dot_source,
        state_after_all(s, requests).shutdown == s.shutdown,
        state_after_all(s, requests).status == s.status || state_after_all(s, requests).status
            == resumed(s.status),
    decreases requests.len(),
{
    if requests.len() > 0 {
        law_requests_keep_documents(s, requests.drop_last());
    }
}

/// An event that is recorded is exactly what a reader that was up to date gets next, under the
/// number that recording it gave.
pub proof fn law_recorded_event_reaches_readers(
    s: AppView,
    kind: RuntimeEventKind,
    json: Seq<char>,
)
    requires
        in_order(s.log, s.next_seq),
        s.next_seq < u64::MAX,
    ensures
        newer(event_recorded(s, kind, json).log, (s.next_seq - 1) as u64) == seq![
            (s.next_seq, json),
        ],
        in_order(event_recorded(s, kind, json).log, event_recorded(s, kind, json).next_seq),
{
    law_up_to_date_reader_gets_new_event(s.log, s.next_seq, json);
    law_push_keeps_newest(s.log, s.next_seq, json);
}

proof fn lemma_literals()
    ensures
        "GET"@ != "POST"@,
        "/"@ != "/api/graph"@,
        "/"@ != "/api/dot"@,
        "/"@ != "/api/status"@,
        "/api/graph"@ != "/api/dot"@,
        "/api/graph"@ != "/api/status"@,
        "/api/dot"@ != "/api/status"@,
        "/api/control/start"@ != "/api/control/pause"@,
        "/api/control/start"@ != "/api/control/resume"@,
        "/api/control/start"@ != "/api/control/stop"@,
        "/api/control/pause"@ != "/api/control/resume"@,
        "/api/control/pause"@ != "/api/control/stop"@,
        "/api/control/resume"@ != "/api/control/stop"@,
        "/ws"@ != "/api/control/start"@,
        "/ws"@ != "/api/control/pause"@,
        "/ws"@ != "/api/control/resume"@,
        "/ws"@ != "/api/control/stop"@,
        "/"@.len() == 1,
        "/api/graph"@.len() == 10,
        "/api/dot"@.len() == 8,
        "/api/status"@.len() == 11,
        "/api/artifacts/"@.len() == 15,
{
    reveal_strlit("GET");
    reveal_strlit("POST");
    reveal_strlit("/");
    reveal_strlit("/ws");
    reveal_strlit("/api/graph");
    reveal_strlit("/api/dot");
    reveal_strlit("/api/status");
    reveal_strlit("/api/artifacts/");
    reveal_strlit("/api/control/start");
    reveal_strlit("/api/control/pause");
    reveal_strlit("/api/control/resume");
    reveal_strlit("/api/control/stop");
    assert("GET"@.len() == 3 && "POST"@.len() == 4);
    assert("/"@.len() == 1);
    assert("/ws"@.len() == 3);
    assert("/api/graph"@.len() == 10);
    assert("/api/dot"@.len() == 8);
    assert("/api/status"@.len() == 11);
    assert("/api/artifacts/"@.len() == 15);
    assert("/api/control/start"@.len() == 18);
    assert("/api/control/pause"@.len() == 18);
    assert("/api/control/resume"@.len() == 19);
    assert("/api/control/stop"@.len() == 17);
    assert("/api/control/start"@[13] == 's');
    assert("/api/control/pause"@[13] == 'p');
}

/// Which request is for what: each endpoint has its method and its path, every path behind
/// `/api/artifacts/` is for a file, and every other request is for nothing.
pub proof fn law_endpoints(method: Seq<char>, path: Seq<char>)
    ensures
        route_of(method, path) is Page <==> method == "GET"@ && path == "/"@,
        route_of(method, path) is Graph <==> method == "GET"@ && path == "/api/graph"@,
        route_of(method, path) is Dot <==> method == "GET"@ && path == "/api/dot"@,
        route_of(method, path) is Status <==> method == "GET"@ && path == "/api/status"@,
        route_of(method, path) is Artifact <==> method == "GET"@ && exists|rest: Seq<char>|
            path == #[trigger] ("/api/artifacts/"@ + rest),
        route_of(method, path) is Start <==> method == "POST"@ && path == "/api/control/start"@,
        route_of(method, path) is Pause <==> method == "POST"@ && path == "/api/control/pause"@,
        route_of(method, path) is Resume <==> method == "POST"@ && path == "/api/control/resume"@,
        route_of(method, path) is Stop <==> method == "POST"@ && path == "/api/control/stop"@,
        route_of(method, path) is WrongMethod <==> method == "POST"@ && path == "/ws"@,
{
    lemma_literals();
    law_starts_with_means_in_front(path, "/api/artifacts/"@);
}

/// A viewer is sent the page, the graph and its source as the server holds them, each under its
/// content type, and the status as it is now; asking for them changes nothing.
pub proof fn law_documents_are_sent_as_held(s: AppView, path: Seq<char>)
    ensures
        answer(s, Route::Page, path) matches ReplyView::Send(bytes) && received_line(bytes, 0)
            == "HTTP/1.1 200 OK"@ && received_line(bytes, 1)
            == "Content-Type: text/html; charset=utf-8"@ && received_body(bytes) == s.page,
        answer(s, Route::Graph, path) matches ReplyView::Send(bytes) && received_line(bytes, 0)
            == "HTTP/1.1 200 OK"@ && received_line(bytes, 1) == "Content-Type: application/json"@
            && (s.graph_json is Some ==> received_body(bytes) == s.graph_json->0)
            && (s.graph_json is None ==> received_body(bytes).len() == 0),
        answer(s, Route::Dot, path) matches ReplyView::Send(bytes) && received_line(bytes, 0)
            == "HTTP/1.1 200 OK"@ && received_line(bytes, 1)
            == "Content-Type: text/plain; charset=utf-8"@ && decode_utf8(received_body(bytes))
            == s.dot_source && received_body(bytes) == encode_utf8(s.dot_source),
        answer(s, Route::Status, path) is EncodeStatus,
        state_after(s, Route::Page) == s,
        state_after(s, Route::Graph) == s,
        state_after(s, Route::Dot) == s,
        state_after(s, Route::Status) == s,
        state_after(s, Route::Artifact) == s,
{
    lemma_status_lines();
    lemma_content_types();
    law_reply_reads_back(200, "text/html; charset=utf-8"@, s.page);
    law_reply_reads_back(200, "text/plain; charset=utf-8"@, encode_utf8(s.dot_source));
    law_json_reply_reads_back(s.graph_json);
    encode_utf8_decode_utf8(s.dot_source);
}

/// A request for a file is for the file that the path names, or is answered why it names none.
pub proof fn law_files_are_asked_for_by_path(s: AppView, path: Seq<char>)
    ensures
        artifact_named(path) is Ok ==> answer(s, Route::Artifact, path) is ReadArtifact && answer(
            s,
            Route::Artifact,
            path,
        )->ReadArtifact_0 == artifact_named(path)->Ok_0,
        artifact_named(path) is Err ==> answer(s, Route::Artifact, path) is Send && answer(
            s,
            Route::Artifact,
            path,
        )->Send_0 == refusal_reply(artifact_named(path)->Err_0),
{
}

/// Whether two states differ at most in the control of the pipeline, its wake-ups, the start signal
/// and the status.
pub open spec fn same_but_for_the_run(a: AppView, b: AppView) -> bool {
    &&& a.page == b.page
    &&& a.graph_json == b.graph_json
    &&& a.dot_source == b.dot_source
    &&& a.log == b.log
    &&& a.next_seq == b.next_seq
    &&& a.shutdown == b.shutdown
}

/// Whether bytes are a reply that is all well and says nothing more.
pub open spec fn is_bare_ok(bytes: Seq<u8>) -> bool {
    &&& received_line(bytes, 0) == "HTTP/1.1 200 OK"@
    &&& received_line(bytes, 1) == "Content-Type: text/plain"@
    &&& received_body(bytes).len() == 0
}

proof fn lemma_bare_ok()
    ensures
        is_bare_ok(text_reply(200, ""@)),
{
    lemma_status_lines();
    law_text_reply_reads_back(200, ""@);
    reveal_strlit("");
    assert(""@ =~= Seq::<char>::empty());
    assert(encode_utf8(""@).len() == 0);
}

/// A request to pause pauses the pipeline in whatever state it is: unless it is cancelled, a
/// runner that looks then is to wait. It wakes none, and changes nothing else.
pub proof fn law_pause_pauses(s: AppView, path: Seq<char>)
    ensures
        state_after(s, Route::Pause).control.paused,
        state_after(s, Route::Pause).control.cancelled == s.control.cancelled,
        !s.control.cancelled ==> wait_result(state_after(s, Route::Pause).control) is None,
        state_after(s, Route::Pause).wakeups == s.wakeups,
        state_after(s, Route::Pause).status == s.status,
        state_after(s, Route::Pause).start_pending == s.start_pending,
        same_but_for_the_run(state_after(s, Route::Pause), s),
        answer(s, Route::Pause, path) matches ReplyView::Send(bytes) && is_bare_ok(bytes),
{
    lemma_bare_ok();
}

/// A request to resume ends the pause in whatever state the pipeline is, wakes its runner once,
/// takes a pause off the status and nothing else off it, and changes nothing else.
pub proof fn law_resume_resumes(s: AppView, path: Seq<char>)
    ensures
        !state_after(s, Route::Resume).control.paused,
        state_after(s, Route::Resume).control.cancelled == s.control.cancelled,
        state_after(s, Route::Resume).wakeups == s.wakeups + 1,
        s.status matches StatusView::Paused { progress, at } ==> state_after(
            s,
            Route::Resume,
        ).status is Running && state_after(s, Route::Resume).status->Running_progress == progress,
        !(s.status is Paused) ==> state_after(s, Route::Resume).status == s.status,
        state_after(s, Route::Resume).start_pending == s.start_pending,
        same_but_for_the_run(state_after(s, Route::Resume), s),
        answer(s, Route::Resume, path) matches ReplyView::Send(bytes) && is_bare_ok(bytes),
{
    lemma_bare_ok();
}

/// A request to stop cancels the pipeline in whatever state it is and wakes its runner once; one
/// that still waits for its start signal is given it, and waits no longer. Nothing else changes.
pub proof fn law_stop_stops(s: AppView, path: Seq<char>)
    ensures
        state_after(s, Route::Stop).control.cancelled,
        state_after(s, Route::Stop).control.paused == s.control.paused,
        state_after(s, Route::Stop).wakeups == s.wakeups + 1,
        state_after(s, Route::Stop).status == s.status,
        !state_after(s, Route::Stop).start_pending,
        same_but_for_the_run(state_after(s, Route::Stop), s),
        s.start_pending ==> answer(s, Route::Stop, path) is StartThenSend && is_bare_ok(
            answer(s, Route::Stop, path)->StartThenSend_0,
        ),
        !s.start_pending ==> answer(s, Route::Stop, path) is Send && is_bare_ok(
            answer(s, Route::Stop, path)->Send_0,
        ),
{
    lemma_bare_ok();
}

/// A request to start gives the start signal to a pipeline that waits for one, which waits no
/// longer, and is answered 409 by any other; it changes nothing else.
pub proof fn law_start_starts(s: AppView, path: Seq<char>)
    ensures
        !state_after(s, Route::Start).start_pending,
        state_after(s, Route::Start).control == s.control,
        state_after(s, Route::Start).wakeups == s.wakeups,
        state_after(s, Route::Start).status == s.status,
        same_but_for_the_run(state_after(s, Route::Start), s),
        s.start_pending ==> answer(s, Route::Start, path) is StartThenSend && is_bare_ok(
            answer(s, Route::Start, path)->StartThenSend_0,
        ),
        !s.start_pending ==> answer(s, Route::Start, path) is Send && received_line(
            answer(s, Route::Start, path)->Send_0,
            0,
        ) == "HTTP/1.1 409 Conflict"@ && decode_utf8(
            received_body(answer(s, Route::Start, path)->Send_0),
        ) == "already started"@,
{
    lemma_bare_ok();
    lemma_status_lines();
    law_text_reply_reads_back(409, "already started"@);
}

/// A request that is for nothing is answered 404 Not Found, and a `POST` to the WebSocket's path
/// 405 Method Not Allowed; neither changes anything.
pub proof fn law_refused_requests_say_why(s: AppView, path: Seq<char>)
    ensures
        answer(s, Route::Unknown, path) matches ReplyView::Send(bytes) && received_line(bytes, 0)
            == "HTTP/1.1 404 Not Found"@ && decode_utf8(received_body(bytes)) == "Not Found"@,
        answer(s, Route::WrongMethod, path) matches ReplyView::Send(bytes) && received_line(
            bytes,
            0,
        ) == "HTTP/1.1 405 Method Not Allowed"@ && decode_utf8(received_body(bytes))
            == "Method Not Allowed"@,
        state_after(s, Route::Unknown) == s,
        state_after(s, Route::WrongMethod) == s,
{
    lemma_status_lines();
    law_text_reply_reads_back(404, "Not Found"@);
    law_text_reply_reads_back(405, "Method Not Allowed"@);
}

/// What a request asks for is done once it is known: a reply is sent as it is, a closed connection
/// stays without one, an upgrade has none, and what is dispatched is answered by its endpoint.
/// Only what is dispatched can change anything.
pub proof fn law_steps_are_taken(s: AppView, step: ConnectionStepView)
    ensures
        request_answer(s, step) is None <==> step is Upgrade,
        step matches ConnectionStepView::Reply(bytes) ==> request_answer(s, step) == Some(
            ReplyView::Send(bytes),
        ),
        request_answer(s, step) == Some(ReplyView::Close) <==> step is Close,
        step matches ConnectionStepView::Dispatch { method, path } ==> request_answer(s, step)
            == Some(answer(s, route_of(method, path), path)) && state_after_request(s, step)
            == state_after(s, route_of(method, path)),
        !(step is Dispatch) ==> state_after_request(s, step) == s,
{
}

/// An event that is recorded stands last in the log with its text, under the next number; it moves
/// the status as events do; and it changes nothing else.
pub proof fn law_recording_keeps_the_rest(s: AppView, kind: RuntimeEventKind, json: Seq<char>)
    requires
        in_order(s.log, s.next_seq),
        s.next_seq < u64::MAX,
    ensures
        event_recorded(s, kind, json).log.last() == (s.next_seq, json),
        s.log.len() < 10_000 ==> event_recorded(s, kind, json).log.drop_last() == s.log,
        event_recorded(s, kind, json).next_seq == s.next_seq + 1,
        event_recorded(s, kind, json).status == next_status(s.status, kind),
        event_recorded(s, kind, json).control == s.control,
        event_recorded(s, kind, json).wakeups == s.wakeups,
        event_recorded(s, kind, json).start_pending == s.start_pending,
        event_recorded(s, kind, json).page == s.page,
        event_recorded(s, kind, json).graph_json == s.graph_json,
        event_recorded(s, kind, json).dot_source == s.dot_source,
        event_recorded(s, kind, json).shutdown == s.shutdown,
{
    law_push_loses_nothing_early(s.log, s.next_seq, json);
}

/// A shutdown cancels the pipeline, wakes its runner once, gives up on its start signal, and keeps
/// everything that viewers see.
pub proof fn law_shutdown_keeps_the_rest(s: AppView)
    ensures
        state_at_shutdown(s).shutdown,
        state_at_shutdown(s).control.cancelled,
        state_at_shutdown(s).control.paused == s.control.paused,
        state_at_shutdown(s).wakeups == s.wakeups + 1,
        !state_at_shutdown(s).start_pending,
        state_at_shutdown(s).status == s.status,
        state_at_shutdown(s).log == s.log,
        state_at_shutdown(s).next_seq == s.next_seq,
        state_at_shutdown(s).page == s.page,
        state_at_shutdown(s).graph_json == s.graph_json,
        state_at_shutdown(s).dot_source == s.dot_source,
{
}

/// A state and a reply are shown as they are.
pub proof fn law_state_is_shown(state: AppState, reply: Reply)
    ensures
        state@.page == state.page@,
        state@.graph_json is Some <==> state.graph_json is Some,
        state.graph_json is Some ==> state@.graph_json->0 == state.graph_json->0@,
        state@.dot_source == state.dot_source@,
        state@.status == state.status@,
        state@.control == state.control@,
        state@.wakeups == state.control.wakeups(),
        state@.start_pending == state.start_pending,
        state@.log == state.event_log@,
        state@.next_seq == state.event_log.next(),
        state@.shutdown == state.shutdown,
        state.wf() <==> state.status.wf() && in_order(state.event_log@, state.event_log.next()),
        reply is EncodeStatus <==> reply@ is EncodeStatus,
        reply is Close <==> reply@ is Close,
        reply matches Reply::Send(bytes) ==> reply@ is Send && reply@->Send_0 == bytes@,
        reply matches Reply::StartThenSend(bytes) ==> reply@ is StartThenSend
            && reply@->StartThenSend_0 == bytes@,
        reply matches Reply::ReadArtifact(request) ==> reply@ is ReadArtifact
            && reply@->ReadArtifact_0 == (request.node_id@, request.filename@),
{
}

} // verus!
