use forge_watch::artifacts::ArtifactRequest;
use forge_watch::events::{PipelineEvent, RuntimeEvent, RuntimeEventKind, StageEvent};
use forge_watch::http::{http_response, http_text, json_response};
use forge_watch::pipeline::started_status;
use forge_watch::request::ConnectionStep;
use forge_watch::server::{bind_address, default_logs_root, page_url, route, AppState, Reply, Route};
use forge_watch::status::WatchStatus;

fn state(wait_for_start: bool) -> AppState {
    AppState::new(
        b"<html></html>".to_vec(),
        Some(b"{\"nodes\":[]}".to_vec()),
        "digraph g {}".to_string(),
        wait_for_start,
    )
}

fn sent(reply: Reply) -> Vec<u8> {
    match reply {
        Reply::Send(bytes) => bytes,
        Reply::StartThenSend(_) => panic!("start"),
        Reply::EncodeStatus => panic!("status"),
        Reply::ReadArtifact(_) => panic!("artifact"),
        Reply::Close => panic!("close"),
    }
}

fn event(kind: RuntimeEventKind) -> RuntimeEvent {
    RuntimeEvent { kind }
}

fn ok() -> Vec<u8> {
    http_text(200, "")
}

#[test]
fn new_state_depends_on_the_start_signal() {
    let waiting = state(true);
    assert!(waiting.start_pending);
    assert_eq!(waiting.status, WatchStatus::WaitingForStart);
    let running = state(false);
    assert!(!running.start_pending);
    assert_eq!(running.status, WatchStatus::NotStarted);
    assert!(!running.shutdown);
    assert_eq!(running.event_log.next_seq(), 1);
}

#[test]
fn routes_are_found() {
    for (method, path, expected) in [
        ("GET", "/", Route::Page),
        ("GET", "/api/graph", Route::Graph),
        ("GET", "/api/dot", Route::Dot),
        ("GET", "/api/status", Route::Status),
        ("GET", "/api/artifacts/a/b", Route::Artifact),
        ("GET", "/api/artifacts/", Route::Artifact),
        ("POST", "/api/control/start", Route::Start),
        ("POST", "/api/control/pause", Route::Pause),
        ("POST", "/api/control/resume", Route::Resume),
        ("POST", "/api/control/stop", Route::Stop),
        ("GET", "/api/artifacts", Route::Unknown),
        ("POST", "/ws", Route::WrongMethod),
        ("GET", "/ws", Route::Unknown),
        ("PUT", "/ws", Route::Unknown),
        ("GET", "/api/control/start", Route::Unknown),
        ("POST", "/", Route::Unknown),
        ("get", "/", Route::Unknown),
        ("DELETE", "/api/graph", Route::Unknown),
        ("", "", Route::Unknown),
    ] {
        assert_eq!(route(method, path), expected, "{method} {path}");
    }
}

#[test]
fn documents_are_served() {
    let mut state = state(false);
    assert_eq!(
        sent(state.dispatch_http("GET", "/")),
        http_response(200, "text/html; charset=utf-8", b"<html></html>")
    );
    assert_eq!(
        sent(state.dispatch_http("GET", "/api/graph")),
        json_response(&Some(b"{\"nodes\":[]}".to_vec()))
    );
    assert_eq!(
        sent(state.dispatch_http("GET", "/api/dot")),
        http_response(200, "text/plain; charset=utf-8", b"digraph g {}")
    );
    assert!(matches!(state.dispatch_http("GET", "/api/status"), Reply::EncodeStatus));
    assert_eq!(state.status, WatchStatus::NotStarted);
    assert!(!state.control.is_paused() && !state.control.is_cancelled());
}

#[test]
fn graph_that_could_not_be_encoded_is_empty() {
    let mut state = AppState::new(Vec::new(), None, String::new(), false);
    assert_eq!(
        sent(state.dispatch_http("GET", "/api/graph")),
        http_response(200, "application/json", b"")
    );
}

#[test]
fn artifacts_are_located_or_refused() {
    let mut state = state(false);
    let wanted = ArtifactRequest { node_id: "n".to_string(), filename: "prompt.md".to_string() };
    assert!(matches!(
        state.dispatch_http("GET", "/api/artifacts/n/prompt.md"),
        Reply::ReadArtifact(request) if request == wanted
    ));
    assert_eq!(
        sent(state.dispatch_http("GET", "/api/artifacts/n")),
        http_text(400, "missing filename")
    );
    assert_eq!(
        sent(state.dispatch_http("GET", "/api/artifacts/n/x")),
        http_text(400, "invalid filename")
    );
    assert_eq!(
        sent(state.dispatch_http("GET", "/api/artifacts/../prompt.md")),
        http_text(400, "invalid node_id")
    );
}

#[test]
fn unknown_requests_are_not_found() {
    let mut state = state(true);
    for (method, path) in [("GET", "/nowhere"), ("PUT", "/"), ("POST", "/ws/")] {
        assert_eq!(sent(state.dispatch_http(method, path)), http_text(404, "Not Found"));
    }
    assert!(state.start_pending);
}

#[test]
fn start_is_given_once() {
    let mut state = state(true);
    assert!(matches!(
        state.dispatch_http("POST", "/api/control/start"),
        Reply::StartThenSend(bytes) if bytes == ok()
    ));
    assert!(!state.start_pending);
    assert_eq!(
        sent(state.dispatch_http("POST", "/api/control/start")),
        http_text(409, "already started")
    );
}

#[test]
fn start_conflicts_where_none_is_waited_for() {
    let mut state = state(false);
    assert_eq!(sent(state.control_start()), http_text(409, "already started"));
}

#[test]
fn stop_cancels_and_releases_the_start() {
    let mut waiting = state(true);
    assert!(matches!(
        waiting.dispatch_http("POST", "/api/control/stop"),
        Reply::StartThenSend(bytes) if bytes == ok()
    ));
    assert!(waiting.control.is_cancelled());
    assert!(!waiting.start_pending);
    assert_eq!(sent(waiting.control_start()), http_text(409, "already started"));
    assert_eq!(sent(waiting.control_stop()), ok());
    assert_eq!(sent(waiting.control_resume()), ok());
    assert!(waiting.control.is_cancelled());
}

#[test]
fn pause_and_resume_move_the_control() {
    let mut state = state(false);
    assert_eq!(sent(state.dispatch_http("POST", "/api/control/pause")), ok());
    assert!(state.control.is_paused());
    assert_eq!(state.status, WatchStatus::NotStarted);
    assert_eq!(sent(state.dispatch_http("POST", "/api/control/resume")), ok());
    assert!(!state.control.is_paused());
    assert_eq!(state.status, WatchStatus::NotStarted);
}

#[test]
fn resume_shows_in_the_status_at_once() {
    let mut state = state(false);
    state.status = started_status();
    let pause = PipelineEvent::Paused { node_id: "n".to_string() };
    state.record_event(&event(RuntimeEventKind::Pipeline(pause)), Some("{}".to_string()));
    assert!(matches!(state.status, WatchStatus::Paused { .. }));
    sent(state.control_resume());
    assert_eq!(state.status, started_status());
    let resumed = event(RuntimeEventKind::Pipeline(PipelineEvent::Resumed));
    state.record_event(&resumed, Some("{}".to_string()));
    assert_eq!(state.status, started_status());
}

#[test]
fn recorded_event_moves_the_status_and_the_log() {
    let mut state = state(false);
    state.status = started_status();
    let started = RuntimeEventKind::Stage(StageEvent::Started { node_id: "a".to_string() });
    assert_eq!(state.record_event(&event(started), Some("{\"n\":1}".to_string())), 1);
    assert_eq!(state.record_event(&event(RuntimeEventKind::Other), None), 2);
    assert_eq!(state.event_log.since(0), vec![(1, "{\"n\":1}"), (2, "")]);
    assert!(matches!(
        &state.status,
        WatchStatus::Running { active_nodes, .. } if *active_nodes == vec!["a".to_string()]
    ));
}

#[test]
fn requests_leave_the_log_alone() {
    let mut state = state(true);
    state.record_event(&event(RuntimeEventKind::Other), Some("x".to_string()));
    for action in ["start", "pause", "resume", "stop"] {
        state.dispatch_http("POST", &format!("/api/control/{action}"));
    }
    assert_eq!(state.event_log.since(0), vec![(1, "x")]);
    assert_eq!(state.dot_source, "digraph g {}");
}

#[test]
fn raw_requests_are_answered() {
    let mut state = state(true);
    let reply = state.handle_request(b"GET /api/dot?raw HTTP/1.1\r\nHost: x\r\n\r\n").unwrap();
    assert_eq!(
        sent(reply),
        http_response(200, "text/plain; charset=utf-8", b"digraph g {}")
    );
    let reply = state.handle_request(b"POST /api/control/start HTTP/1.1\r\nHost: x\r\n\r\n").unwrap();
    assert!(matches!(reply, Reply::StartThenSend(bytes) if bytes == ok()));
    assert!(!state.start_pending);
    let reply = state.handle_request(b"HEAD / HTTP/1.1\r\nHost: x\r\n\r\n").unwrap();
    assert_eq!(sent(reply), http_text(404, "Not Found"));
}

#[test]
fn garbage_is_dropped_and_changes_nothing() {
    let mut state = state(true);
    let reply = state.handle_request(b"\xff\xfe\x00\r\n\r\n").unwrap();
    assert!(matches!(reply, Reply::Close));
    assert!(state.start_pending);
}

#[test]
fn invalid_raw_request_is_refused_and_changes_nothing() {
    let mut state = state(true);
    let reply = state.handle_request(b"POST /api/control/start\r\n\r\n").unwrap();
    assert_eq!(sent(reply), http_text(400, "Bad Request"));
    assert!(state.start_pending);
}

#[test]
fn raw_request_without_a_host_is_refused_and_changes_nothing() {
    let mut state = state(true);
    let reply = state.handle_request(b"POST /api/control/start HTTP/1.1\r\n\r\n").unwrap();
    assert_eq!(sent(reply), http_text(400, "Bad Request"));
    assert!(state.start_pending);
}

#[test]
fn post_to_ws_is_not_allowed() {
    let mut state = state(true);
    assert_eq!(sent(state.dispatch_http("POST", "/ws")), http_text(405, "Method Not Allowed"));
    let reply = state.handle_request(b"POST /ws HTTP/1.1\r\nHost: x\r\n\r\n").unwrap();
    assert_eq!(sent(reply), http_text(405, "Method Not Allowed"));
    assert!(state.start_pending);
}

#[test]
fn requests_keep_what_the_runner_sleeps_on() {
    let mut state = state(true);
    let before = state.control.resume_signal().clone();
    for action in ["start", "pause", "resume", "stop"] {
        state.dispatch_http("POST", &format!("/api/control/{action}"));
    }
    state.record_event(&event(RuntimeEventKind::Other), None);
    assert!(std::sync::Arc::ptr_eq(&before, state.control.resume_signal()));
}

#[test]
fn shutdown_releases_a_pipeline_that_waits() {
    let mut waiting = state(true);
    assert!(waiting.shut_down());
    assert!(waiting.shutdown && !waiting.start_pending);
    assert_eq!(waiting.status, WatchStatus::WaitingForStart);
    assert!(waiting.control.is_cancelled());
    assert!(!waiting.shut_down());
    assert_eq!(sent(waiting.control_start()), http_text(409, "already started"));
}

#[test]
fn shutdown_ends_a_paused_pipeline() {
    let mut running = state(false);
    running.control_pause();
    assert_eq!(running.control.wait_for_resume(), None);
    assert!(!running.shut_down());
    assert_eq!(running.control.wait_for_resume(), Some(true));
    running.control_pause();
    assert_eq!(running.control.wait_for_resume(), Some(true));
}

#[test]
fn upgrade_request_has_no_reply() {
    let mut state = state(false);
    let head = b"GET /ws HTTP/1.1\r\nHost: x\r\nUpgrade: websocket\r\n\r\n";
    assert!(state.handle_request(head).is_none());
    assert!(state.take_step(ConnectionStep::Upgrade).is_none());
    let reply = state.take_step(ConnectionStep::Reply(b"x".to_vec())).unwrap();
    assert_eq!(sent(reply), b"x".to_vec());
}

#[test]
fn addresses_and_directories_are_composed() {
    assert_eq!(bind_address("127.0.0.1", 8080), "127.0.0.1:8080");
    assert_eq!(bind_address("0.0.0.0", 0), "0.0.0.0:0");
    assert_eq!(page_url("127.0.0.1:8080"), "http://127.0.0.1:8080");
    assert_eq!(default_logs_root(1700000000), ".forge-watch-1700000000");
    assert_eq!(default_logs_root(0), ".forge-watch-0");
}
