//! One bridge session.  The session object owns the handshake gate and the
//! routing layer, and makes the bridge's decisions: whether the first line
//! confirms readiness, what may be sent and in what encoded form, and how
//! each worker output line is classified and delivered.  The process layer
//! around it spawns the worker, reads its output and writes its input, and
//! hands this object plain values.

use vstd::prelude::*;

use crate::codec;
use crate::dispatch::Dispatcher;
use crate::dispatch::delivered_to;
use crate::errors::HandshakeError;
use crate::errors::SendError;
use crate::events::WorkerEvent;
use crate::events::WorkerEventValue;
use crate::events::classify_line;
use crate::events::classify_view;
use crate::events::end_event;
use crate::events::end_event_view;
use crate::events::opt_text_value;
use crate::handshake;
use vstd::utf8::encode_utf8;

verus! {

/// Where the startup gate stands.  It moves from pending exactly once and
/// never reverts.
enum GateState {
    /// No first line has been judged yet.
    Pending,
    /// The worker signalled readiness; commands are accepted.
    Confirmed,
    /// The handshake failed; the bridge never becomes ready.
    Failed,
}

/// A bridge session: the handshake gate, the routing layer, and whether
/// the worker's output has reached its terminal event.
pub struct Bridge {
    gate: GateState,
    dispatcher: Dispatcher,
    ended: bool,
}

impl Bridge {
    /// The handshake has not been judged yet.
    pub closed spec fn gate_pending(&self) -> bool {
        self.gate is Pending
    }

    /// The handshake succeeded: commands are accepted.
    pub closed spec fn ready(&self) -> bool {
        self.gate is Confirmed
    }

    /// The worker's output has delivered its terminal event.
    pub closed spec fn stopped(&self) -> bool {
        self.ended
    }

    /// Every event dispatched so far, in arrival order.
    pub closed spec fn log(&self) -> Seq<WorkerEventValue> {
        self.dispatcher.log()
    }

    pub closed spec fn sub_count(&self) -> nat {
        self.dispatcher.sub_count()
    }

    pub closed spec fn sub_filter(&self, i: int) -> Option<Seq<char>> {
        self.dispatcher.sub_filter(i)
    }

    pub closed spec fn sub_inbox(&self, i: int) -> Seq<WorkerEventValue> {
        self.dispatcher.sub_inbox(i)
    }

    /// The delivery law holds of the routing layer: every subscriber's
    /// inbox is the source log since it joined, filtered by its interest,
    /// in arrival order.
    pub closed spec fn wf(&self) -> bool {
        self.dispatcher.wf()
    }

    /// A new bridge session: handshake pending, no subscribers, nothing
    /// dispatched.
    pub fn new() -> (b: Bridge)
        ensures
            b.wf(),
            b.gate_pending(),
            !b.ready(),
            !b.stopped(),
            b.sub_count() == 0,
            b.log() == Seq::<WorkerEventValue>::empty(),
    {
        Bridge { gate: GateState::Pending, dispatcher: Dispatcher::new(), ended: false }
    }

    /// Judge the worker's first output line, or its absence when the
    /// stream closed before one arrived.  Succeeds exactly when that line,
    /// after trimming trailing whitespace, equals the token `READY`.
    /// Anything else fails, and failure is final for the session: only
    /// success makes the bridge ready.
    pub fn confirm_ready(&mut self, first_line: Option<&str>) -> (r: Result<(), HandshakeError>)
        requires
            old(self).wf(),
            old(self).gate_pending(),
        ensures
            final(self).wf(),
            !final(self).gate_pending(),
            (r is Ok) <==> (first_line matches Some(l) && handshake::signals_ready(
                encode_utf8(l@),
            )),
            final(self).ready() <==> r is Ok,
            first_line is None ==> r == Err::<(), HandshakeError>(HandshakeError::StreamClosed),
            first_line matches Some(l) ==> (r is Ok || (r matches Err(
                HandshakeError::UnexpectedLine { line },
            ) && line@ == l@)),
            final(self).stopped() == old(self).stopped(),
            final(self).log() == old(self).log(),
            final(self).sub_count() == old(self).sub_count(),
            forall|i: int|
                0 <= i < old(self).sub_count() ==> #[trigger] final(self).sub_filter(i) == old(
                    self,
                ).sub_filter(i) && final(self).sub_inbox(i) == old(self).sub_inbox(i),
    {
        match first_line {
            None => {
                self.gate = GateState::Failed;
                Err(HandshakeError::StreamClosed)
            },
            Some(l) => {
                if handshake::line_signals_ready(l) {
                    self.gate = GateState::Confirmed;
                    Ok(())
                } else {
                    self.gate = GateState::Failed;
                    Err(HandshakeError::UnexpectedLine { line: l.to_owned() })
                }
            },
        }
    }

    /// Encode a command if commands are accepted.  On a ready bridge the
    /// result is the whole encoded line — payload escaped, closed,
    /// newline-terminated — ready to be written and flushed as one piece;
    /// no byte but the final one is a newline.  Before the handshake is
    /// confirmed, and after it failed, nothing is accepted.
    pub fn prepare_command(&self, text: &str) -> (r: Result<Vec<u8>, SendError>)
        ensures
            self.ready() ==> (r matches Ok(v) && v@ == codec::encoded_line(encode_utf8(text@))),
            !self.ready() ==> r == Err::<Vec<u8>, SendError>(SendError::NotReady),
            r matches Ok(v) ==> v@.len() >= 1 && v@[v@.len() - 1] == 0x0a && (forall|i: int|
                0 <= i < v@.len() - 1 ==> v@[i] != 0x0a),
    {
        match &self.gate {
            GateState::Confirmed => Ok(codec::encode_command_line(text.as_bytes())),
            _ => Err(SendError::NotReady),
        }
    }

    /// Register a subscriber: on a topic when a filter is given, on every
    /// event otherwise.  Returns its handle.
    pub fn subscribe(&mut self, filter: Option<String>) -> (id: usize)
        requires
            old(self).wf(),
        ensures
            final(self).wf(),
            id == old(self).sub_count(),
            final(self).sub_count() == old(self).sub_count() + 1,
            final(self).sub_filter(id as int) == crate::dispatch::filter_value(filter),
            final(self).sub_inbox(id as int) == Seq::<WorkerEventValue>::empty(),
            final(self).log() == old(self).log(),
            final(self).ready() == old(self).ready(),
            final(self).gate_pending() == old(self).gate_pending(),
            final(self).stopped() == old(self).stopped(),
            forall|i: int|
                0 <= i < old(self).sub_count() ==> #[trigger] final(self).sub_filter(i) == old(
                    self,
                ).sub_filter(i) && final(self).sub_inbox(i) == old(self).sub_inbox(i),
    {
        self.dispatcher.subscribe(filter)
    }

    /// Accept one worker output line read by the background loop: classify
    /// it and deliver the event.  Callers run this only between a
    /// confirmed handshake and the terminal event, as the background
    /// reader does.
    pub fn accept_line(&mut self, line: String)
        requires
            old(self).wf(),
            old(self).ready(),
            !old(self).stopped(),
        ensures
            final(self).wf(),
            final(self).ready(),
            !final(self).stopped(),
            final(self).gate_pending() == old(self).gate_pending(),
            final(self).log() == old(self).log().push(classify_view(line@)),
            final(self).sub_count() == old(self).sub_count(),
            forall|i: int|
                0 <= i < old(self).sub_count() ==> #[trigger] final(self).sub_filter(i) == old(
                    self,
                ).sub_filter(i),
            forall|i: int|
                0 <= i < old(self).sub_count() ==> #[trigger] final(self).sub_inbox(i) == (
                if delivered_to(old(self).sub_filter(i), classify_view(line@)) {
                    old(self).sub_inbox(i).push(classify_view(line@))
                } else {
                    old(self).sub_inbox(i)
                }),
    {
        let ev = classify_line(line);
        self.dispatcher.dispatch(ev);
    }

    /// The worker's output ended: deliver the terminal event — the worker
    /// exited on a clean end of stream, a read failure otherwise, the two
    /// kept distinguishable — and stop.  Exactly one terminal event is
    /// ever delivered: afterwards the stream accepts nothing more.
    pub fn accept_end(&mut self, read_failure: Option<String>)
        requires
            old(self).wf(),
            old(self).ready(),
            !old(self).stopped(),
        ensures
            final(self).wf(),
            final(self).ready(),
            final(self).stopped(),
            final(self).log() == old(self).log().push(
                end_event_view(opt_text_value(read_failure)),
            ),
            final(self).sub_count() == old(self).sub_count(),
            forall|i: int|
                0 <= i < old(self).sub_count() ==> #[trigger] final(self).sub_filter(i) == old(
                    self,
                ).sub_filter(i),
            forall|i: int|
                0 <= i < old(self).sub_count() ==> #[trigger] final(self).sub_inbox(i) == (
                if delivered_to(
                    old(self).sub_filter(i),
                    end_event_view(opt_text_value(read_failure)),
                ) {
                    old(self).sub_inbox(i).push(end_event_view(opt_text_value(read_failure)))
                } else {
                    old(self).sub_inbox(i)
                }),
    {
        let ev = end_event(read_failure);
        self.dispatcher.dispatch(ev);
        self.ended = true;
    }

    /// Whether the handshake is still unjudged.
    pub fn is_pending(&self) -> (r: bool)
        ensures
            r == self.gate_pending(),
    {
        match &self.gate {
            GateState::Pending => true,
            _ => false,
        }
    }

    /// Whether commands are accepted: the handshake has been confirmed.
    pub fn is_ready(&self) -> (r: bool)
        ensures
            r == self.ready(),
    {
        match &self.gate {
            GateState::Confirmed => true,
            _ => false,
        }
    }

    /// Whether the worker's output has delivered its terminal event.
    pub fn has_stopped(&self) -> (r: bool)
        ensures
            r == self.stopped(),
    {
        self.ended
    }

    /// How many subscribers are registered.
    pub fn subscriber_count(&self) -> (n: usize)
        ensures
            n == self.sub_count(),
    {
        self.dispatcher.subscriber_count()
    }

    /// How many events subscriber `id` has received.
    pub fn inbox_len(&self, id: usize) -> (n: usize)
        requires
            id < self.sub_count(),
        ensures
            n == self.sub_inbox(id as int).len(),
    {
        self.dispatcher.inbox_len(id)
    }

    /// The `k`-th event delivered to subscriber `id`, oldest first.
    pub fn event_at(&self, id: usize, k: usize) -> (ev: &WorkerEvent)
        requires
            id < self.sub_count(),
            k < self.sub_inbox(id as int).len(),
        ensures
            ev@ == self.sub_inbox(id as int)[k as int],
    {
        self.dispatcher.event_at(id, k)
    }
}

} // verus!
