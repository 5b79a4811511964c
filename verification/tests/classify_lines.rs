use worker_bridge::events::WorkerEvent;
use worker_bridge::events::classify_line;
use worker_bridge::events::end_event;

#[test]
fn typed_line_is_classified_by_its_discriminant() {
    let line = "{\"type\":\"capabilities\",\"items\":[\"a\",\"b\"]}".to_string();
    match classify_line(line.clone()) {
        WorkerEvent::Typed { topic, line: kept } => {
            assert_eq!(topic, "capabilities");
            assert_eq!(kept, line);
        },
        _ => panic!("expected a typed event"),
    }
}

#[test]
fn record_without_discriminant_is_generic() {
    match classify_line("{\"items\":[1,2]}".to_string()) {
        WorkerEvent::Untyped { line } => assert_eq!(line, "{\"items\":[1,2]}"),
        _ => panic!("expected a generic event"),
    }
}

#[test]
fn non_string_discriminant_is_generic() {
    assert!(matches!(
        classify_line("{\"type\":5}".to_string()),
        WorkerEvent::Untyped { .. }
    ));
    assert!(matches!(
        classify_line("{\"type\":null}".to_string()),
        WorkerEvent::Untyped { .. }
    ));
}

#[test]
fn non_parsing_line_is_surfaced_raw() {
    match classify_line("plain progress text".to_string()) {
        WorkerEvent::Raw { line } => assert_eq!(line, "plain progress text"),
        _ => panic!("a malformed line must stay observable"),
    }
}

#[test]
fn truncated_json_is_surfaced_raw() {
    assert!(matches!(
        classify_line("{\"type\":\"answer\"".to_string()),
        WorkerEvent::Raw { .. }
    ));
}

#[test]
fn end_of_stream_events_are_distinguishable() {
    assert!(matches!(end_event(None), WorkerEvent::Exited));
    match end_event(Some("pipe broke".to_string())) {
        WorkerEvent::ReadFailed { message } => assert_eq!(message, "pipe broke"),
        _ => panic!("a read failure must not look like a clean exit"),
    }
}
