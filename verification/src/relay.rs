//! Lifecycle of one streaming connection: the typed events delivered to the
//! requesting surface, and the state machine that decides, for every outcome
//! of the surrounding I/O, which events are emitted and whether the relay
//! stays open.
//!
//! The machine enforces the documented ordering for each connection: an
//! optional `Connected`, zero or more `Message`s, then exactly one terminal
//! event (`Disconnected` or `Error`) — once closed, nothing further can be
//! emitted.

use vstd::prelude::*;
use vstd::string::StringExecFns;

use crate::decimal::dec_digits;
use crate::decimal::u64_to_decimal;
use crate::sse::ParserModel;
use crate::sse::SseParser;
use crate::sse::init_model;
use crate::sse::run;

verus! {

/// Seconds allowed for the initial TCP/TLS setup of the streaming request.
pub const CONNECT_TIMEOUT_SECS: u64 = 15;

/// Seconds between TCP keep-alive probes on the streaming connection.
pub const TCP_KEEPALIVE_SECS: u64 = 30;

/// Seconds of inter-chunk silence after which the peer is presumed dead.
/// Well-behaved SSE servers send heartbeats well inside this window; the
/// bound exists for dead-peer detection only, not for flow control.
pub const READ_TIMEOUT_SECS: u64 = 90;

/// A lifecycle or data event delivered, in order, to the surface that
/// requested the connection.
#[derive(Debug)]
pub enum SseEvent {
    /// The stream responded successfully and is now open.
    Connected,
    /// One complete SSE record: the accumulated `data:` payload bytes.
    Message { raw: Vec<u8> },
    /// The connection ended normally, with the reason.
    Disconnected { reason: String },
    /// The connection failed, with a human-readable message.
    Error { message: String },
}

pub open spec fn is_connected(e: SseEvent) -> bool {
    e is Connected
}

pub open spec fn is_message(e: SseEvent, data: Seq<u8>) -> bool {
    e matches SseEvent::Message { raw } && raw@ == data
}

pub open spec fn is_disconnected(e: SseEvent, reason: Seq<char>) -> bool {
    e matches SseEvent::Disconnected { reason: r } && r@ == reason
}

pub open spec fn is_error(e: SseEvent, message: Seq<char>) -> bool {
    e matches SseEvent::Error { message: m } && m@ == message
}

/// Message reported when the initial HTTP request itself failed.
pub open spec fn connect_failure_text(err: Seq<char>) -> Seq<char> {
    "SSE connection failed: "@ + err
}

/// Message reported when the server answered with a non-success status.
pub open spec fn bad_status_text(status: u16) -> Seq<char> {
    "SSE server returned "@ + dec_digits(status as nat)
}

/// Message reported when reading the open stream failed.
pub open spec fn stream_error_text(err: Seq<char>) -> Seq<char> {
    "SSE stream error: "@ + err
}

/// Message reported when the read-timeout window expired with no data:
/// silent death of the peer, distinguished from explicit transport errors.
pub open spec fn read_timeout_text() -> Seq<char> {
    "SSE read timeout (90s without data)"@
}

/// Reason reported when a disconnect or a newer connect for the same
/// surface ended this connection.
pub open spec fn client_disconnect_reason() -> Seq<char> {
    "Disconnected by client"@
}

/// Reason reported when the peer closed the stream cleanly.
pub open spec fn stream_ended_reason() -> Seq<char> {
    "Stream ended"@
}

/// Where a connection stands in its lifecycle.
pub enum RelayPhase {
    /// The request was issued; no response has been judged yet.
    AwaitingResponse,
    /// The stream is open and records are being parsed.
    Streaming,
    /// A terminal event has been emitted; nothing further may be.
    Closed,
}

/// A terminal event: exactly one of these ends every connection's trace.
pub open spec fn is_terminal_event(e: SseEvent) -> bool {
    e is Disconnected || e is Error
}

/// The relay-side state of one streaming connection.  The surrounding I/O
/// loop reports each outcome (response, chunk, end, error, timeout,
/// activity check) and forwards the returned events to the surface in
/// order.  A ghost trace records every event handed out, so the documented
/// per-connection ordering is itself proved.
pub struct RelayConnection {
    parser: SseParser,
    phase: RelayPhase,
    events: Ghost<Seq<SseEvent>>,
}

impl RelayConnection {
    pub closed spec fn is_awaiting(&self) -> bool {
        self.phase is AwaitingResponse
    }

    pub closed spec fn is_streaming(&self) -> bool {
        self.phase is Streaming
    }

    pub closed spec fn is_closed(&self) -> bool {
        self.phase is Closed
    }

    /// The abstract state of the connection's SSE parser.
    pub closed spec fn parser_model(&self) -> ParserModel {
        self.parser@
    }

    /// Every event this connection has emitted, in delivery order.
    pub closed spec fn trace(&self) -> Seq<SseEvent> {
        self.events@
    }

    /// The documented per-connection event ordering, maintained by every
    /// operation: `Connected` can stand only first, a terminal event only
    /// last, and the relay is closed exactly when a terminal event has been
    /// delivered — so there is never a second one, and nothing follows it.
    pub open spec fn trace_wf(&self) -> bool {
        let t = self.trace();
        &&& (forall|i: int| 0 <= i < t.len() ==> ((#[trigger] t[i]) is Connected ==> i == 0))
        &&& (forall|i: int|
            0 <= i < t.len() ==> (is_terminal_event(#[trigger] t[i]) ==> i == t.len() - 1))
        &&& (self.is_closed() <==> (t.len() > 0 && is_terminal_event(t.last())))
        &&& (self.is_awaiting() ==> t.len() == 0)
    }

    /// A fresh connection, before its HTTP response has been judged.
    pub fn new() -> (c: Self)
        ensures
            c.is_awaiting(),
            !c.is_streaming(),
            !c.is_closed(),
            c.parser_model() == init_model(),
            c.trace() == Seq::<SseEvent>::empty(),
            c.trace_wf(),
    {
        RelayConnection {
            parser: SseParser::new(),
            phase: RelayPhase::AwaitingResponse,
            events: Ghost(Seq::empty()),
        }
    }

    /// The HTTP request failed before any response arrived: exactly one
    /// `Error` event carrying the transport error, and the connect call
    /// fails with the same message.
    pub fn on_connect_failure(&mut self, err: &String) -> (r: (SseEvent, String))
        requires
            old(self).is_awaiting(),
        ensures
            final(self).is_closed(),
            !final(self).is_streaming(),
            !final(self).is_awaiting(),
            is_error(r.0, connect_failure_text(err@)),
            r.1@ == connect_failure_text(err@),
            final(self).trace() == old(self).trace().push(r.0),
            old(self).trace_wf() ==> final(self).trace_wf(),
    {
        self.phase = RelayPhase::Closed;
        let mut m = String::from_str("SSE connection failed: ");
        m.append(err.as_str());
        let m2 = m.clone();
        let ev = SseEvent::Error { message: m };
        self.events = Ghost(self.events@.push(ev));
        (ev, m2)
    }

    /// The response arrived: a success status opens the stream with a single
    /// `Connected` event; any other status closes the relay with exactly one
    /// `Error` event and fails the connect call with the same message.
    pub fn on_status(&mut self, status: u16) -> (r: Result<SseEvent, (SseEvent, String)>)
        requires
            old(self).is_awaiting(),
        ensures
            200 <= status < 300 ==> (r matches Ok(ev) && is_connected(ev))
                && final(self).is_streaming()
                && !final(self).is_closed()
                && final(self).parser_model() == old(self).parser_model(),
            !(200 <= status < 300) ==> (r matches Err(p) && is_error(p.0, bad_status_text(status))
                && p.1@ == bad_status_text(status))
                && final(self).is_closed()
                && !final(self).is_streaming(),
            final(self).trace() == old(self).trace().push(
                match r {
                    Ok(ev) => ev,
                    Err(p) => p.0,
                },
            ),
            old(self).trace_wf() ==> final(self).trace_wf(),
    {
        if 200 <= status && status < 300 {
            self.phase = RelayPhase::Streaming;
            let ev = SseEvent::Connected;
            self.events = Ghost(self.events@.push(ev));
            Ok(ev)
        } else {
            self.phase = RelayPhase::Closed;
            let mut m = String::from_str("SSE server returned ");
            let d = u64_to_decimal(status as u64);
            m.append(d.as_str());
            let m2 = m.clone();
            let ev = SseEvent::Error { message: m };
            self.events = Ghost(self.events@.push(ev));
            Err((ev, m2))
        }
    }

    /// Pre-read activity gate: when this connection is no longer the active
    /// one for its surface — an explicit disconnect, or supersession by a
    /// newer connect — the relay closes with exactly one `Disconnected`
    /// event and the connect call succeeds; a still-active connection emits
    /// nothing and reads on.
    pub fn on_activity_check(&mut self, still_active: bool) -> (r: Option<SseEvent>)
        requires
            old(self).is_streaming(),
        ensures
            still_active ==> r is None && final(self).is_streaming() && !final(self).is_closed()
                && final(self).parser_model() == old(self).parser_model(),
            !still_active ==> (r matches Some(ev) && is_disconnected(
                ev,
                client_disconnect_reason(),
            )) && final(self).is_closed() && !final(self).is_streaming(),
            final(self).trace() == (match r {
                Some(ev) => old(self).trace().push(ev),
                None => old(self).trace(),
            }),
            old(self).trace_wf() ==> final(self).trace_wf(),
    {
        if still_active {
            None
        } else {
            self.phase = RelayPhase::Closed;
            let ev = SseEvent::Disconnected {
                reason: String::from_str("Disconnected by client"),
            };
            self.events = Ghost(self.events@.push(ev));
            Some(ev)
        }
    }

    /// A chunk of stream bytes arrived: parses it and returns one `Message`
    /// event per record the chunk completed, in order.  The relay stays
    /// open, and the result does not depend on where the transport cut the
    /// stream into chunks.
    pub fn on_chunk(&mut self, chunk: &[u8]) -> (evs: Vec<SseEvent>)
        requires
            old(self).is_streaming(),
        ensures
            final(self).is_streaming(),
            !final(self).is_closed(),
            ({
                let (m, out) = run(old(self).parser_model(), chunk@);
                &&& final(self).parser_model() == m
                &&& evs@.len() == out.len()
                &&& forall|i: int| 0 <= i < out.len() ==> is_message(#[trigger] evs@[i], out[i])
            }),
            final(self).trace() == old(self).trace() + evs@,
            old(self).trace_wf() ==> final(self).trace_wf(),
    {
        let ghost out = run(self.parser@, chunk@).1;
        let mut msgs = self.parser.feed(chunk);
        let mut evs: Vec<SseEvent> = Vec::new();
        proof {
            assert(msgs.deep_view() == out);
        }
        let ghost total = out.len();
        while msgs.len() > 0
            invariant
                evs@.len() + msgs@.len() == total,
                total == out.len(),
                forall|i: int| 0 <= i < evs@.len() ==> is_message(#[trigger] evs@[i], out[i]),
                forall|j: int|
                    0 <= j < msgs@.len() ==> msgs@[j]@ == out[evs@.len() + j],
            decreases msgs@.len(),
        {
            let ghost msgs0 = msgs@;
            let v = msgs.remove(0);
            evs.push(SseEvent::Message { raw: v });
            proof {
                assert(forall|j: int|
                    0 <= j < msgs@.len() ==> msgs@[j] == msgs0[j + 1]);
            }
        }
        proof {
            assert(forall|j: int|
                0 <= j < msgs.deep_view().len() ==> msgs.deep_view()[j] == msgs@[j]@);
        }
        self.events = Ghost(self.events@ + evs@);
        proof {
            let t0 = old(self).trace();
            let t2 = self.trace();
            assert(forall|i: int| 0 <= i < t0.len() ==> t2[i] == t0[i]);
            assert(forall|i: int|
                t0.len() <= i < t2.len() ==> t2[i] == evs@[i - t0.len()]);
            assert(forall|i: int|
                t0.len() <= i < t2.len() ==> (#[trigger] t2[i]) is Message);
        }
        evs
    }

    /// The peer closed the stream cleanly: any pending partial record is
    /// flushed as one final `Message`, then exactly one terminal
    /// `Disconnected` event ends the relay; the connect call succeeds.
    pub fn on_stream_end(&mut self) -> (evs: Vec<SseEvent>)
        requires
            old(self).is_streaming(),
        ensures
            final(self).is_closed(),
            !final(self).is_streaming(),
            ({
                let pend = old(self).parser_model().pending;
                if pend.len() > 0 {
                    evs@.len() == 2 && is_message(evs@[0], pend) && is_disconnected(
                        evs@[1],
                        stream_ended_reason(),
                    )
                } else {
                    evs@.len() == 1 && is_disconnected(evs@[0], stream_ended_reason())
                }
            }),
            final(self).trace() == old(self).trace() + evs@,
            old(self).trace_wf() ==> final(self).trace_wf(),
    {
        self.phase = RelayPhase::Closed;
        let mut evs: Vec<SseEvent> = Vec::new();
        match self.parser.take_final() {
            Some(v) => {
                evs.push(SseEvent::Message { raw: v });
            },
            None => {},
        }
        evs.push(SseEvent::Disconnected { reason: String::from_str("Stream ended") });
        self.events = Ghost(self.events@ + evs@);
        proof {
            let t0 = old(self).trace();
            let t2 = self.trace();
            assert(forall|i: int| 0 <= i < t0.len() ==> t2[i] == t0[i]);
            assert(forall|i: int|
                t0.len() <= i < t2.len() ==> t2[i] == evs@[i - t0.len()]);
            assert(t2.last() == evs@.last());
        }
        evs
    }

    /// Reading the open stream failed: exactly one `Error` event carrying
    /// the transport error, and the connect call fails with the same
    /// message.
    pub fn on_transport_error(&mut self, err: &String) -> (r: (SseEvent, String))
        requires
            old(self).is_streaming(),
        ensures
            final(self).is_closed(),
            !final(self).is_streaming(),
            is_error(r.0, stream_error_text(err@)),
            r.1@ == stream_error_text(err@),
            final(self).trace() == old(self).trace().push(r.0),
            old(self).trace_wf() ==> final(self).trace_wf(),
    {
        self.phase = RelayPhase::Closed;
        let mut m = String::from_str("SSE stream error: ");
        m.append(err.as_str());
        let m2 = m.clone();
        let ev = SseEvent::Error { message: m };
        self.events = Ghost(self.events@.push(ev));
        (ev, m2)
    }

    /// The read-timeout window expired with no data at all: the connection
    /// is presumed silently dead.  Exactly one `Error` event — worded so
    /// callers can tell presumed death from an explicit transport error —
    /// and the connect call fails with the same message.
    pub fn on_read_timeout(&mut self) -> (r: (SseEvent, String))
        requires
            old(self).is_streaming(),
        ensures
            final(self).is_closed(),
            !final(self).is_streaming(),
            is_error(r.0, read_timeout_text()),
            r.1@ == read_timeout_text(),
            final(self).trace() == old(self).trace().push(r.0),
            old(self).trace_wf() ==> final(self).trace_wf(),
    {
        self.phase = RelayPhase::Closed;
        let m = String::from_str("SSE read timeout (90s without data)");
        let m2 = m.clone();
        let ev = SseEvent::Error { message: m };
        self.events = Ghost(self.events@.push(ev));
        (ev, m2)
    }
}

/// The delivered event ordering for one connection: `Connected` can only
/// open the trace; while the relay is open no terminal event has been
/// delivered; once it is closed the trace ends in exactly one terminal
/// event, everything between the optional leading `Connected` and the
/// terminal event is a `Message`, and nothing can follow, since every
/// emitting operation requires an open relay.
pub proof fn lemma_event_ordering(c: RelayConnection)
    requires
        c.trace_wf(),
    ensures
        forall|i: int| 1 <= i < c.trace().len() ==> !((#[trigger] c.trace()[i]) is Connected),
        !c.is_closed() ==> forall|i: int|
            0 <= i < c.trace().len() ==> !is_terminal_event(#[trigger] c.trace()[i]),
        c.is_closed() ==> c.trace().len() > 0 && is_terminal_event(c.trace().last())
            && (forall|i: int|
                0 <= i < c.trace().len() - 1 ==> !is_terminal_event(#[trigger] c.trace()[i]))
            && (forall|i: int|
                1 <= i < c.trace().len() - 1 ==> (#[trigger] c.trace()[i]) is Message),
{
    let t = c.trace();
    if !c.is_closed() {
        assert forall|i: int| 0 <= i < t.len() implies !is_terminal_event(t[i]) by {
            if is_terminal_event(t[i]) {
                assert(i == t.len() - 1);
                assert(t.last() == t[i]);
            }
        }
    } else {
        assert forall|i: int| 1 <= i < t.len() - 1 implies t[i] is Message by {
            assert(!(t[i] is Connected));
            assert(!is_terminal_event(t[i]));
        }
    }
}

} // verus!
