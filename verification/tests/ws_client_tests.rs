use forge_watch::event_log::EventLog;
use forge_watch::ws_client::{
    event_message, init_message, ClientAction, ClientEvent, WsClient, PING_AFTER_SECONDS,
};

fn log(n: usize) -> EventLog {
    let mut log = EventLog::new();
    for i in 1..=n {
        log.push(format!("{i}0"));
    }
    log
}

fn connected() -> WsClient {
    WsClient::connect("{}", "{}").0
}

fn event_of(action: ClientAction) -> (u64, String) {
    match action {
        ClientAction::SendEvent { seq, message } => (seq, message),
        _ => panic!("no event"),
    }
}

#[test]
fn event_message_is_exact() {
    assert_eq!(
        event_message(42, "{\"kind\":\"x\"}"),
        "{\"type\":\"event\",\"seq\":42,\"data\":{\"kind\":\"x\"}}"
    );
    assert_eq!(event_message(1, ""), "{\"type\":\"event\",\"seq\":1,\"data\":}");
}

#[test]
fn init_message_is_the_encoding_of_its_object() {
    let graph: serde_json::Value = serde_json::from_str("{\"nodes\":[1,2]}").unwrap();
    let status: serde_json::Value = serde_json::from_str("{\"state\":\"not_started\"}").unwrap();
    let mut object = serde_json::Map::new();
    object.insert("type".to_string(), serde_json::Value::from("init"));
    object.insert("graph".to_string(), graph.clone());
    object.insert("status".to_string(), status.clone());
    assert_eq!(
        init_message(&graph.to_string(), &status.to_string()),
        serde_json::Value::Object(object).to_string()
    );
}

#[test]
fn first_message_carries_graph_and_status() {
    let (client, action) = WsClient::connect("{\"g\":1}", "{\"s\":2}");
    assert_eq!(client.last_seq(), 0);
    assert!(matches!(
        action,
        ClientAction::SendInit { message }
            if message == "{\"graph\":{\"g\":1},\"status\":{\"s\":2},\"type\":\"init\"}"
    ));
}

#[test]
fn connecting_client_gets_the_whole_log() {
    let log = log(3);
    let mut client = connected();
    for i in 1..=3u64 {
        let (seq, message) = event_of(client.step(ClientEvent::Sent, &log, false));
        assert_eq!(seq, i);
        assert_eq!(message, event_message(i, &format!("{i}0")));
        assert_eq!(client.last_seq(), i - 1);
    }
    assert!(matches!(client.step(ClientEvent::Sent, &log, false), ClientAction::Wait));
    assert_eq!(client.last_seq(), 3);
}

#[test]
fn client_of_an_empty_log_waits() {
    let mut client = connected();
    assert!(matches!(client.step(ClientEvent::Sent, &log(0), false), ClientAction::Wait));
}

#[test]
fn waiting_client_gets_new_events() {
    let mut log = log(1);
    let mut client = connected();
    event_of(client.step(ClientEvent::Sent, &log, false));
    assert!(matches!(client.step(ClientEvent::Sent, &log, false), ClientAction::Wait));
    assert!(matches!(client.step(ClientEvent::Notified, &log, false), ClientAction::Wait));
    log.push("new".to_string());
    let (seq, message) = event_of(client.step(ClientEvent::Notified, &log, false));
    assert_eq!((seq, message), (2, event_message(2, "new")));
}

#[test]
fn events_that_come_during_a_batch_follow_it() {
    let mut log = log(2);
    let mut client = connected();
    let mut seen = vec![event_of(client.step(ClientEvent::Sent, &log, false)).0];
    log.push("late".to_string());
    for _ in 0..2 {
        seen.push(event_of(client.step(ClientEvent::Sent, &log, false)).0);
    }
    assert_eq!(seen, vec![1, 2, 3]);
    assert!(matches!(client.step(ClientEvent::Sent, &log, false), ClientAction::Wait));
}

#[test]
fn idle_client_is_pinged() {
    assert_eq!(PING_AFTER_SECONDS, 15);
    let mut log = log(0);
    let mut client = connected();
    assert!(matches!(client.step(ClientEvent::Sent, &log, false), ClientAction::Wait));
    assert!(matches!(client.step(ClientEvent::TimedOut, &log, false), ClientAction::Ping));
    assert!(matches!(client.step(ClientEvent::Sent, &log, false), ClientAction::Wait));
    assert!(matches!(client.step(ClientEvent::TimedOut, &log, false), ClientAction::Ping));
    log.push("x".to_string());
    assert_eq!(event_of(client.step(ClientEvent::Sent, &log, false)).0, 1);
}

#[test]
fn failure_to_send_ends_the_client() {
    let log = log(2);
    let mut client = connected();
    assert!(matches!(client.step(ClientEvent::SendFailed, &log, false), ClientAction::Stop));
    let mut client = connected();
    event_of(client.step(ClientEvent::Sent, &log, false));
    assert!(matches!(client.step(ClientEvent::SendFailed, &log, false), ClientAction::Stop));
    assert_eq!(client.last_seq(), 0);
    let mut client = connected();
    client.step(ClientEvent::Sent, &EventLog::new(), false);
    client.step(ClientEvent::TimedOut, &EventLog::new(), false);
    assert!(matches!(client.step(ClientEvent::SendFailed, &log, false), ClientAction::Stop));
}

#[test]
fn shutdown_closes_after_the_replay() {
    let log = log(2);
    let mut client = connected();
    assert_eq!(event_of(client.step(ClientEvent::Sent, &log, true)).0, 1);
    assert_eq!(event_of(client.step(ClientEvent::Sent, &log, true)).0, 2);
    assert!(matches!(client.step(ClientEvent::Sent, &log, true), ClientAction::Close));
}

#[test]
fn shutdown_closes_a_waiting_client() {
    let log = log(0);
    let mut client = connected();
    assert!(matches!(client.step(ClientEvent::Sent, &log, false), ClientAction::Wait));
    assert!(matches!(client.step(ClientEvent::Notified, &log, true), ClientAction::Close));
    let mut client = connected();
    client.step(ClientEvent::Sent, &log, false);
    assert!(matches!(client.step(ClientEvent::TimedOut, &log, true), ClientAction::Ping));
    assert!(matches!(client.step(ClientEvent::Sent, &log, true), ClientAction::Close));
}

#[test]
fn client_that_falls_behind_goes_on_with_the_oldest() {
    let mut log = log(1);
    let mut client = connected();
    event_of(client.step(ClientEvent::Sent, &log, false));
    assert!(matches!(client.step(ClientEvent::Sent, &log, false), ClientAction::Wait));
    for _ in 0..10_000 {
        log.push("x".to_string());
    }
    assert_eq!(event_of(client.step(ClientEvent::Notified, &log, false)).0, 5_001);
    assert_eq!(event_of(client.step(ClientEvent::Sent, &log, false)).0, 5_002);
}
