//! Tests of the relay connection lifecycle: event ordering, terminal
//! events, and the exact wording of every error and disconnect reason.

use relay_core::relay::RelayConnection;
use relay_core::relay::SseEvent;

fn expect_message(ev: &SseEvent, want: &[u8]) {
    match ev {
        SseEvent::Message { raw } => assert_eq!(raw.as_slice(), want),
        other => panic!("expected Message, got {other:?}"),
    }
}

fn expect_disconnected(ev: &SseEvent, want: &str) {
    match ev {
        SseEvent::Disconnected { reason } => assert_eq!(reason, want),
        other => panic!("expected Disconnected, got {other:?}"),
    }
}

fn expect_error(ev: &SseEvent, want: &str) {
    match ev {
        SseEvent::Error { message } => assert_eq!(message, want),
        other => panic!("expected Error, got {other:?}"),
    }
}

#[test]
fn connected_then_messages_then_stream_end() {
    let mut c = RelayConnection::new();
    let ev = c.on_status(200).expect("2xx opens the stream");
    assert!(matches!(ev, SseEvent::Connected));
    let evs = c.on_chunk(b"data: a\n\ndata: b\n\n");
    assert_eq!(evs.len(), 2);
    expect_message(&evs[0], b"a");
    expect_message(&evs[1], b"b");
    let evs = c.on_stream_end();
    assert_eq!(evs.len(), 1);
    expect_disconnected(&evs[0], "Stream ended");
}

#[test]
fn stream_end_flushes_pending_record_first() {
    let mut c = RelayConnection::new();
    c.on_status(204).expect("2xx opens the stream");
    let evs = c.on_chunk(b"data: tail\n");
    assert_eq!(evs.len(), 0);
    let evs = c.on_stream_end();
    assert_eq!(evs.len(), 2);
    expect_message(&evs[0], b"tail");
    expect_disconnected(&evs[1], "Stream ended");
}

#[test]
fn bad_status_fails_with_one_error() {
    let mut c = RelayConnection::new();
    let (ev, msg) = c.on_status(404).expect_err("non-2xx must fail");
    expect_error(&ev, "SSE server returned 404");
    assert_eq!(msg, "SSE server returned 404");
}

#[test]
fn connect_failure_fails_with_one_error() {
    let mut c = RelayConnection::new();
    let (ev, msg) = c.on_connect_failure(&String::from("connection refused"));
    expect_error(&ev, "SSE connection failed: connection refused");
    assert_eq!(msg, "SSE connection failed: connection refused");
}

#[test]
fn transport_error_fails_with_one_error() {
    let mut c = RelayConnection::new();
    c.on_status(200).expect("2xx opens the stream");
    let (ev, msg) = c.on_transport_error(&String::from("connection reset"));
    expect_error(&ev, "SSE stream error: connection reset");
    assert_eq!(msg, "SSE stream error: connection reset");
}

#[test]
fn read_timeout_fails_with_one_distinguished_error() {
    let mut c = RelayConnection::new();
    c.on_status(200).expect("2xx opens the stream");
    let evs = c.on_chunk(b"data: heartbeat\n\n");
    assert_eq!(evs.len(), 1);
    let (ev, msg) = c.on_read_timeout();
    expect_error(&ev, "SSE read timeout (90s without data)");
    assert_eq!(msg, "SSE read timeout (90s without data)");
}

#[test]
fn superseded_connection_reports_client_disconnect() {
    let mut c = RelayConnection::new();
    c.on_status(200).expect("2xx opens the stream");
    assert!(c.on_activity_check(true).is_none());
    let ev = c.on_activity_check(false).expect("losing active status closes");
    expect_disconnected(&ev, "Disconnected by client");
}

#[test]
fn messages_cross_chunk_boundaries() {
    let mut c = RelayConnection::new();
    c.on_status(200).expect("2xx opens the stream");
    let mut evs = Vec::new();
    evs.extend(c.on_chunk(b"data: sp"));
    evs.extend(c.on_chunk(b"lit\n"));
    evs.extend(c.on_chunk(b"\ndata: more\n\n"));
    assert_eq!(evs.len(), 2);
    expect_message(&evs[0], b"split");
    expect_message(&evs[1], b"more");
}
