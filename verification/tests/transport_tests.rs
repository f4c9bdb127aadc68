use openagent_tui::codec::{decode_line, encode_request, CallOutcome, Incoming};
use openagent_tui::errors::BackendError;
use openagent_tui::rpc::{
    await_verdict, outcome_to_result, stream_events, ReaderOutcome, RpcCore, StreamEvent,
};

fn running_core() -> RpcCore<u32, u32> {
    let mut core: RpcCore<u32, u32> = RpcCore::new();
    core.mark_started();
    core
}

#[test]
fn test_call_before_start_is_not_started() {
    // A call attempted before start() fails fast and registers nothing.
    let mut core: RpcCore<u32, u32> = RpcCore::new();
    assert!(!core.is_running());
    match core.begin_call(1) {
        Err(BackendError::NotStarted) => {}
        _ => panic!("expected NotStarted"),
    }
}

#[test]
fn test_call_after_stop_is_not_started() {
    let mut core = running_core();
    core.mark_stopped();
    match core.begin_call(1) {
        Err(BackendError::NotStarted) => {}
        _ => panic!("expected NotStarted"),
    }
}

#[test]
fn test_ids_are_monotonic_and_distinct() {
    let mut core = running_core();
    let a = core.begin_call(10).unwrap();
    let b = core.begin_call(20).unwrap();
    let c = core.begin_call(30).unwrap();
    assert_eq!(a, 1);
    assert_eq!(b, 2);
    assert_eq!(c, 3);
}

#[test]
fn test_concurrent_calls_resolve_to_their_own_callers() {
    // Two in-flight calls; the responses arrive in the opposite order, and
    // each caller still receives exactly the handle registered for its id.
    let mut core = running_core();
    let id_a = core.begin_call(111).unwrap();
    let id_b = core.begin_call(222).unwrap();

    let line_b = format!(r#"{{"jsonrpc":"2.0","id":{},"result":"for b"}}"#, id_b);
    match core.handle_incoming(decode_line(&line_b)) {
        ReaderOutcome::Deliver { handle, verdict } => {
            assert_eq!(handle, 222);
            assert_eq!(verdict.unwrap(), serde_json::Value::String("for b".to_string()));
        }
        _ => panic!("expected delivery for id_b"),
    }

    let line_a = format!(r#"{{"jsonrpc":"2.0","id":{},"result":"for a"}}"#, id_a);
    match core.handle_incoming(decode_line(&line_a)) {
        ReaderOutcome::Deliver { handle, verdict } => {
            assert_eq!(handle, 111);
            assert_eq!(verdict.unwrap(), serde_json::Value::String("for a".to_string()));
        }
        _ => panic!("expected delivery for id_a"),
    }
}

#[test]
fn test_stale_id_is_silent_noop() {
    // A response with an unknown id resolves nothing and disturbs no other
    // pending call.
    let mut core = running_core();
    let id = core.begin_call(5).unwrap();
    let stale = decode_line(r#"{"jsonrpc":"2.0","id":999,"result":null}"#);
    match core.handle_incoming(stale) {
        ReaderOutcome::Ignore => {}
        _ => panic!("expected the stale response to be ignored"),
    }
    // The real call still resolves.
    let line = format!(r#"{{"jsonrpc":"2.0","id":{},"result":42}}"#, id);
    match core.handle_incoming(decode_line(&line)) {
        ReaderOutcome::Deliver { handle, .. } => assert_eq!(handle, 5),
        _ => panic!("expected delivery"),
    }
}

#[test]
fn test_request_round_trip() {
    // Encoding a request and decoding the same bytes on the server side
    // yields identical method, params and id.
    let params: serde_json::Value = serde_json::from_str(r#"{"message":"hi","stream":false}"#).unwrap();
    let line = encode_request("chat.send", &params, 7);
    assert!(!line.contains('\n'));
    let back: serde_json::Value = serde_json::from_str(&line).unwrap();
    assert_eq!(back["jsonrpc"], serde_json::Value::String("2.0".to_string()));
    assert_eq!(back["method"], serde_json::Value::String("chat.send".to_string()));
    assert_eq!(back["params"], params);
    assert_eq!(back["id"], serde_json::Value::from(7u64));
}

#[test]
fn test_response_round_trip_to_ok() {
    // A response carrying result = X reaches the dispatcher as Ok(X).
    let line = r#"{"jsonrpc":"2.0","id":3,"result":{"answer":41}}"#;
    match decode_line(line) {
        Incoming::Response { id, outcome } => {
            assert_eq!(id, 3);
            let verdict = outcome_to_result(outcome);
            let expected: serde_json::Value = serde_json::from_str(r#"{"answer":41}"#).unwrap();
            assert_eq!(verdict.unwrap(), expected);
        }
        _ => panic!("expected a response"),
    }
}

#[test]
fn test_error_response_becomes_rpc_error() {
    // The child reports an application-level error; the matching call
    // returns RpcError with the same code and message.
    let mut core = running_core();
    let id = core.begin_call(7).unwrap();
    assert_eq!(id, 1);
    let line = r#"{"jsonrpc":"2.0","id":1,"error":{"code":-32601,"message":"method not found"}}"#;
    match core.handle_incoming(decode_line(line)) {
        ReaderOutcome::Deliver { handle, verdict } => {
            assert_eq!(handle, 7);
            match verdict {
                Err(BackendError::RpcError { code, message }) => {
                    assert_eq!(code, -32601);
                    assert_eq!(message, "method not found");
                }
                other => panic!("expected RpcError, got {:?}", other),
            }
        }
        _ => panic!("expected delivery"),
    }
}

#[test]
fn test_timeout_is_process_died() {
    // A call whose wait produced nothing within the timeout returns
    // ProcessDied.
    match await_verdict(None) {
        Err(BackendError::ProcessDied) => {}
        _ => panic!("expected ProcessDied"),
    }
    // A delivered verdict is passed through unchanged.
    let v = await_verdict(Some(Ok(serde_json::Value::Null)));
    assert_eq!(v.unwrap(), serde_json::Value::Null);
}

#[test]
fn test_timed_out_call_leaves_no_table_entry() {
    // After a timeout the caller abandons its registration; taking the
    // pending entry out removes it, and a later response for it is a no-op.
    let mut core = running_core();
    let id = core.begin_call(5).unwrap();
    assert_eq!(core.take_pending(id), Some(5));
    assert_eq!(core.take_pending(id), None);
    let late = format!(r#"{{"jsonrpc":"2.0","id":{},"result":1}}"#, id);
    match core.handle_incoming(decode_line(&late)) {
        ReaderOutcome::Ignore => {}
        _ => panic!("late response must be ignored"),
    }
}

#[test]
fn test_stray_line_between_valid_responses() {
    // A stray non-JSON line between two valid responses disturbs neither.
    let mut core = running_core();
    let id_a = core.begin_call(1).unwrap();
    let id_b = core.begin_call(2).unwrap();

    let line_a = format!(r#"{{"jsonrpc":"2.0","id":{},"result":"a"}}"#, id_a);
    match core.handle_incoming(decode_line(&line_a)) {
        ReaderOutcome::Deliver { handle, .. } => assert_eq!(handle, 1),
        _ => panic!("first response must deliver"),
    }

    match core.handle_incoming(decode_line("this is not json at all {{{")) {
        ReaderOutcome::Ignore => {}
        _ => panic!("stray line must be ignored"),
    }

    let line_b = format!(r#"{{"jsonrpc":"2.0","id":{},"result":"b"}}"#, id_b);
    match core.handle_incoming(decode_line(&line_b)) {
        ReaderOutcome::Deliver { handle, .. } => assert_eq!(handle, 2),
        _ => panic!("second response must deliver"),
    }
}

#[test]
fn test_streaming_events_in_order_and_nothing_after_done() {
    // Chunks arrive in wire order, then one Done with the final payload,
    // and nothing is forwarded after the terminal event.
    let mut core = running_core();
    let _id = core.begin_stream_call(9, 77).unwrap();
    assert!(core.stream_handle().is_some());

    let n1 = decode_line(r#"{"jsonrpc":"2.0","method":"chat.stream","params":{"chunk":"a"}}"#);
    let n2 = decode_line(r#"{"jsonrpc":"2.0","method":"chat.stream","params":{"chunk":"b"}}"#);
    let n3 = decode_line(
        r#"{"jsonrpc":"2.0","method":"chat.stream","params":{"done":true,"tokens":{"total_tokens":150}}}"#,
    );

    let mut observed: Vec<StreamEvent> = Vec::new();
    for inc in [n1, n2, n3] {
        if let ReaderOutcome::StreamOut { events } = core.handle_incoming(inc) {
            observed.extend(events);
        }
    }
    assert_eq!(observed.len(), 3);
    assert!(matches!(&observed[0], StreamEvent::Chunk(c) if c == "a"));
    assert!(matches!(&observed[1], StreamEvent::Chunk(c) if c == "b"));
    match &observed[2] {
        StreamEvent::Done { tokens: Some(t) } => {
            assert_eq!(t["total_tokens"], serde_json::Value::from(150u64));
        }
        other => panic!("expected Done with tokens, got {:?}", other),
    }

    // A trailing chunk after Done is dropped.
    let n4 = decode_line(r#"{"jsonrpc":"2.0","method":"chat.stream","params":{"chunk":"late"}}"#);
    match core.handle_incoming(n4) {
        ReaderOutcome::Ignore => {}
        _ => panic!("no events may follow Done"),
    }
}

#[test]
fn test_stream_dropped_without_destination() {
    // A streaming notification with no installed destination is dropped.
    let mut core = running_core();
    let n = decode_line(r#"{"jsonrpc":"2.0","method":"chat.stream","params":{"chunk":"x"}}"#);
    match core.handle_incoming(n) {
        ReaderOutcome::Ignore => {}
        _ => panic!("expected the event to be dropped"),
    }
}

#[test]
fn test_second_stream_replaces_the_first() {
    let mut core = running_core();
    core.begin_stream_call(1, 10).unwrap();
    let prev = core.install_stream(20);
    assert_eq!(prev, Some(10));
    assert_eq!(core.clear_stream(), Some(20));
    assert!(core.stream_handle().is_none());
}

#[test]
fn test_other_notifications_are_ignored() {
    let mut core = running_core();
    core.begin_stream_call(1, 10).unwrap();
    let n = decode_line(r#"{"jsonrpc":"2.0","method":"other.event","params":{"chunk":"x"}}"#);
    match core.handle_incoming(n) {
        ReaderOutcome::Ignore => {}
        _ => panic!("unknown notification methods are ignored"),
    }
}

#[test]
fn test_decode_classifies_shapes() {
    // A response needs a string jsonrpc and an unsigned id.
    assert!(matches!(
        decode_line(r#"{"jsonrpc":"2.0","id":1,"result":null}"#),
        Incoming::Response { .. }
    ));
    // Without an id it is a notification.
    assert!(matches!(
        decode_line(r#"{"jsonrpc":"2.0","method":"m"}"#),
        Incoming::Notification { .. }
    ));
    // A malformed error member disqualifies the response shape; with a
    // method it still reads as a notification.
    assert!(matches!(
        decode_line(r#"{"jsonrpc":"2.0","id":1,"method":"m","error":{"code":"oops"}}"#),
        Incoming::Notification { .. }
    ));
    // Neither shape.
    assert!(matches!(decode_line(r#"{"id":1}"#), Incoming::Unrecognized));
    assert!(matches!(decode_line(""), Incoming::Unrecognized));
    assert!(matches!(decode_line("[1,2,3]"), Incoming::Unrecognized));
}

#[test]
fn test_response_without_result_resolves_to_null() {
    let line = r#"{"jsonrpc":"2.0","id":4}"#;
    match decode_line(line) {
        Incoming::Response { id, outcome } => {
            assert_eq!(id, 4);
            match outcome {
                CallOutcome::Success(v) => assert!(v.is_null()),
                _ => panic!("expected success"),
            }
        }
        _ => panic!("expected a response"),
    }
}

#[test]
fn test_connection_states() {
    let mut core: RpcCore<u32, u32> = RpcCore::new();
    assert!(!core.is_running());
    core.mark_started();
    assert!(core.is_running());
    core.mark_stopped();
    assert!(!core.is_running());
    // stop is idempotent
    core.mark_stopped();
    assert!(!core.is_running());
}

#[test]
fn test_stream_notification_chunk_parsing() {
    let json = r#"{"chunk": "Hello world"}"#;
    let params: serde_json::Value = serde_json::from_str(json).unwrap();

    let events = stream_events(&params);
    assert_eq!(events.len(), 1);
    assert!(matches!(&events[0], StreamEvent::Chunk(c) if c == "Hello world"));
}

#[test]
fn test_stream_notification_done_with_tokens() {
    let json = r#"{
        "done": true,
        "tokens": {
            "total_input": 50,
            "total_output": 100,
            "total_tokens": 150,
            "total_cost": 0.002,
            "request_count": 1
        }
    }"#;

    let params: serde_json::Value = serde_json::from_str(json).unwrap();

    let events = stream_events(&params);
    assert_eq!(events.len(), 1);
    match &events[0] {
        StreamEvent::Done { tokens: Some(stats) } => {
            assert_eq!(stats["total_tokens"], serde_json::Value::from(150u64));
            assert_eq!(stats["total_input"], serde_json::Value::from(50u64));
            assert_eq!(stats["total_output"], serde_json::Value::from(100u64));
        }
        other => panic!("expected Done with tokens, got {:?}", other),
    }
}

#[test]
fn test_stream_notification_done_without_tokens() {
    let json = r#"{"done": true}"#;
    let params: serde_json::Value = serde_json::from_str(json).unwrap();

    let events = stream_events(&params);
    assert_eq!(events.len(), 1);
    assert!(matches!(&events[0], StreamEvent::Done { tokens: None }));
}
