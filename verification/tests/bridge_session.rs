use worker_bridge::bridge::Bridge;
use worker_bridge::errors::HandshakeError;
use worker_bridge::errors::SendError;
use worker_bridge::events::WorkerEvent;

#[test]
fn full_session_routes_in_arrival_order() {
    let mut bridge = Bridge::new();
    let caps = bridge.subscribe(Some("capabilities".to_string()));
    let all = bridge.subscribe(None);

    assert!(bridge.confirm_ready(Some("READY\n")).is_ok());

    let line_one = "{\"type\":\"capabilities\",\"items\":[\"a\",\"b\"]}".to_string();
    let line_two = "{\"type\":\"answer\",\"text\":\"42\"}".to_string();
    bridge.accept_line(line_one.clone());
    bridge.accept_line(line_two.clone());

    assert_eq!(bridge.inbox_len(caps), 1);
    match bridge.event_at(caps, 0) {
        WorkerEvent::Typed { topic, line } => {
            assert_eq!(topic, "capabilities");
            let parsed: serde_json::Value = serde_json::from_str(line).unwrap();
            let items: Vec<&str> = parsed
                .get("items")
                .unwrap()
                .as_array()
                .unwrap()
                .iter()
                .map(|v| v.as_str().unwrap())
                .collect();
            assert_eq!(items, vec!["a", "b"]);
        },
        _ => panic!("the capabilities subscriber expects a typed event"),
    }

    assert_eq!(bridge.inbox_len(all), 2);
    match bridge.event_at(all, 0) {
        WorkerEvent::Typed { topic, line } => {
            assert_eq!(topic, "capabilities");
            assert_eq!(*line, line_one);
        },
        _ => panic!("first event out of order"),
    }
    match bridge.event_at(all, 1) {
        WorkerEvent::Typed { topic, line } => {
            assert_eq!(topic, "answer");
            let parsed: serde_json::Value = serde_json::from_str(line).unwrap();
            assert_eq!(parsed.get("text").unwrap().as_str().unwrap(), "42");
        },
        _ => panic!("second event out of order"),
    }

    bridge.accept_end(None);
    assert_eq!(bridge.inbox_len(caps), 1);
    assert_eq!(bridge.inbox_len(all), 3);
    assert!(matches!(bridge.event_at(all, 2), WorkerEvent::Exited));
}

#[test]
fn other_topics_reach_only_the_catch_all() {
    let mut bridge = Bridge::new();
    let caps = bridge.subscribe(Some("capabilities".to_string()));
    let all = bridge.subscribe(None);
    assert!(bridge.confirm_ready(Some("READY")).is_ok());

    bridge.accept_line("{\"type\":\"answer\",\"text\":\"x\"}".to_string());
    bridge.accept_line("{\"payload\":1}".to_string());
    bridge.accept_line("not json at all".to_string());

    assert_eq!(bridge.inbox_len(caps), 0);
    assert_eq!(bridge.inbox_len(all), 3);
    assert!(matches!(bridge.event_at(all, 0), WorkerEvent::Typed { .. }));
    assert!(matches!(bridge.event_at(all, 1), WorkerEvent::Untyped { .. }));
    match bridge.event_at(all, 2) {
        WorkerEvent::Raw { line } => assert_eq!(line, "not json at all"),
        _ => panic!("a malformed line must be surfaced, not dropped"),
    }
}

#[test]
fn handshake_rejects_a_wrong_first_line() {
    let mut bridge = Bridge::new();
    match bridge.confirm_ready(Some("hello\n")) {
        Err(HandshakeError::UnexpectedLine { line }) => assert_eq!(line, "hello\n"),
        _ => panic!("a wrong first line must fail the handshake"),
    }
    assert!(matches!(
        bridge.prepare_command("q"),
        Err(SendError::NotReady)
    ));
}

#[test]
fn handshake_rejects_end_of_stream() {
    let mut bridge = Bridge::new();
    assert!(matches!(
        bridge.confirm_ready(None),
        Err(HandshakeError::StreamClosed)
    ));
}

#[test]
fn commands_are_gated_on_the_handshake() {
    let mut bridge = Bridge::new();
    assert!(matches!(
        bridge.prepare_command("early"),
        Err(SendError::NotReady)
    ));
    assert!(bridge.confirm_ready(Some("READY")).is_ok());
    let line = bridge.prepare_command("say \"hi\"").unwrap();
    assert_eq!(line, b"{\"query\":\"say \\\"hi\\\"\"}\n".to_vec());
}

#[test]
fn read_failure_is_a_distinct_terminal_event() {
    let mut bridge = Bridge::new();
    let all = bridge.subscribe(None);
    assert!(bridge.confirm_ready(Some("READY")).is_ok());
    bridge.accept_end(Some("broken pipe".to_string()));
    assert_eq!(bridge.inbox_len(all), 1);
    match bridge.event_at(all, 0) {
        WorkerEvent::ReadFailed { message } => assert_eq!(message, "broken pipe"),
        _ => panic!("a read failure must not look like a clean exit"),
    }
}

#[test]
fn late_subscriber_sees_only_later_events() {
    let mut bridge = Bridge::new();
    assert!(bridge.confirm_ready(Some("READY")).is_ok());
    bridge.accept_line("{\"type\":\"answer\",\"text\":\"1\"}".to_string());
    let late = bridge.subscribe(None);
    bridge.accept_line("{\"type\":\"answer\",\"text\":\"2\"}".to_string());
    assert_eq!(bridge.inbox_len(late), 1);
    match bridge.event_at(late, 0) {
        WorkerEvent::Typed { line, .. } => {
            assert_eq!(line, "{\"type\":\"answer\",\"text\":\"2\"}")
        },
        _ => panic!("expected the later event"),
    }
}
