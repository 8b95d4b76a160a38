//! The substream session as a transition system over plain values.
//!
//! A session is driven in invocations. An invocation starts with
//! [`poll`], which either answers at once or names a stream operation to
//! attempt. Each outcome of such an operation is fed to [`on_stream`], which
//! again answers or names the next operation. Between invocations the
//! session takes commands and lifecycle events.

use crate::types::MessageView;
use vstd::prelude::*;

verus! {

/// The inbound substream, while one is held.
#[derive(Clone, Copy, Debug, PartialEq, Eq, Structural)]
pub enum InboundSubstreamState {
    /// Listening for the next message.
    WaitingInput,
    /// Closing this side of the substream.
    Closing,
}

/// The outbound substream, while one is held.
pub enum OutboundState {
    /// Nothing to send.
    WaitingOutput,
    /// A message is due to be written.
    PendingSend(MessageView),
    /// A written message is due to be flushed.
    PendingFlush,
}

/// Which part of an invocation is waiting for the outcome of a stream
/// operation.
#[derive(Clone, Copy, Debug, PartialEq, Eq, Structural)]
pub enum Stage {
    /// No invocation is in progress.
    Idle,
    /// The inbound substream is being driven.
    Inbound,
    /// The outbound substream is being driven.
    Outbound,
}

/// The whole state of a session.
pub struct SessionState {
    pub inbound: Option<InboundSubstreamState>,
    pub outbound: Option<OutboundState>,
    /// Set when an outbound substream has been requested; never cleared.
    pub establishing: bool,
    /// The messages waiting to be sent, oldest first.
    pub pending: Seq<MessageView>,
    pub stage: Stage,
}

/// An event for the component above the session.
pub enum Event {
    /// A message arrived from the remote.
    Rx(MessageView),
    /// A message was sent.
    Tx,
}

/// How an invocation ends.
pub enum Output {
    /// The transport is asked to negotiate a new outbound substream.
    OutboundSubstreamRequest,
    /// An event is handed to the component above.
    NotifyBehaviour(Event),
    /// Nothing more can be done until a stream is ready again.
    Pending,
}

/// A stream operation that the session asks for.
pub enum Request {
    /// Read the next message from the inbound substream.
    Read,
    /// Close the inbound substream.
    Close,
    /// Wait until the outbound substream takes a message, then write this one.
    Send(MessageView),
    /// Flush the outbound substream.
    Flush,
}

/// What the session says after each call within an invocation.
pub enum Step {
    /// Attempt this operation and report its outcome.
    Io(Request),
    /// The invocation is over.
    Done(Output),
}

/// How far a close, a write or a flush got.
#[derive(Clone, Copy, Debug, PartialEq, Eq, Structural)]
pub enum Completion {
    /// It succeeded.
    Done,
    /// It failed.
    Failed,
    /// It cannot complete yet.
    Pending,
}

/// What a read found.
pub enum Read {
    /// A whole message.
    Message(MessageView),
    /// Bytes that are no frame or no message, or a failing stream.
    Failed,
    /// The remote closed the substream.
    Closed,
    /// No whole message yet.
    Pending,
}

/// The outcome of a stream operation.
pub enum Outcome {
    Read(Read),
    Close(Completion),
    Send(Completion),
    Flush(Completion),
}

/// The state of a session on a fresh connection.
pub open spec fn initial() -> SessionState {
    SessionState {
        inbound: None,
        outbound: None,
        establishing: false,
        pending: Seq::empty(),
        stage: Stage::Idle,
    }
}

/// The messages that are still to be written, in the order in which they
/// will be: the one in flight, if any, then the queue.
pub open spec fn outbox(s: SessionState) -> Seq<MessageView> {
    match s.outbound {
        Some(OutboundState::PendingSend(message)) => seq![message] + s.pending,
        _ => s.pending,
    }
}

/// Whether an invocation on `s` starts by asking for an outbound substream.
pub open spec fn must_establish(s: SessionState) -> bool {
    s.pending.len() > 0 && s.outbound is None && !s.establishing
}

/// The operation whose outcome the session is waiting for, if any.
pub open spec fn awaited(s: SessionState) -> Option<Request> {
    match s.stage {
        Stage::Idle => None,
        Stage::Inbound => match s.inbound {
            Some(InboundSubstreamState::WaitingInput) => Some(Request::Read),
            Some(InboundSubstreamState::Closing) => Some(Request::Close),
            None => None,
        },
        Stage::Outbound => match s.outbound {
            Some(OutboundState::PendingSend(message)) => Some(Request::Send(message)),
            Some(OutboundState::PendingFlush) => Some(Request::Flush),
            _ => None,
        },
    }
}

/// The invocation ends with nothing more to do.
pub open spec fn suspend(s: SessionState) -> (SessionState, Step) {
    (SessionState { stage: Stage::Idle, ..s }, Step::Done(Output::Pending))
}

/// Drives the outbound substream: an idle substream takes the oldest queued
/// message; a message due is written, a written one flushed.
pub open spec fn drive_outbound(s: SessionState) -> (SessionState, Step) {
    match s.outbound {
        Some(OutboundState::WaitingOutput) => if s.pending.len() > 0 {
            (
                SessionState {
                    outbound: Some(OutboundState::PendingSend(s.pending[0])),
                    pending: s.pending.skip(1),
                    stage: Stage::Outbound,
                    ..s
                },
                Step::Io(Request::Send(s.pending[0])),
            )
        } else {
            suspend(s)
        },
        Some(OutboundState::PendingSend(message)) => (
            SessionState { stage: Stage::Outbound, ..s },
            Step::Io(Request::Send(message)),
        ),
        Some(OutboundState::PendingFlush) => (
            SessionState { stage: Stage::Outbound, ..s },
            Step::Io(Request::Flush),
        ),
        None => suspend(s),
    }
}

/// Drives the inbound substream, and the outbound one where none is held.
pub open spec fn drive_inbound(s: SessionState) -> (SessionState, Step) {
    match s.inbound {
        Some(InboundSubstreamState::WaitingInput) => (
            SessionState { stage: Stage::Inbound, ..s },
            Step::Io(Request::Read),
        ),
        Some(InboundSubstreamState::Closing) => (
            SessionState { stage: Stage::Inbound, ..s },
            Step::Io(Request::Close),
        ),
        None => drive_outbound(s),
    }
}

/// Starts an invocation.
pub open spec fn poll(s: SessionState) -> (SessionState, Step) {
    if must_establish(s) {
        (
            SessionState { establishing: true, stage: Stage::Idle, ..s },
            Step::Done(Output::OutboundSubstreamRequest),
        )
    } else {
        drive_inbound(s)
    }
}

/// Whether `outcome` reports on the operation that `s` is waiting for.
pub open spec fn answers(s: SessionState, outcome: Outcome) -> bool {
    match (awaited(s), outcome) {
        (Some(Request::Read), Outcome::Read(_)) => true,
        (Some(Request::Close), Outcome::Close(_)) => true,
        (Some(Request::Send(_)), Outcome::Send(_)) => true,
        (Some(Request::Flush), Outcome::Flush(_)) => true,
        _ => false,
    }
}

/// Asks again for the operation that `s` is waiting for; where it waits for
/// none, the invocation ends.
pub open spec fn repeat(s: SessionState) -> (SessionState, Step) {
    match awaited(s) {
        Some(request) => (s, Step::Io(request)),
        None => suspend(s),
    }
}

/// Continues an invocation with the outcome of a stream operation. An
/// outcome that does not report on the awaited operation changes nothing.
pub open spec fn on_stream(s: SessionState, outcome: Outcome) -> (SessionState, Step) {
    if !answers(s, outcome) {
        repeat(s)
    } else {
        match outcome {
            Outcome::Read(Read::Message(message)) => (
                SessionState { stage: Stage::Idle, ..s },
                Step::Done(Output::NotifyBehaviour(Event::Rx(message))),
            ),
            Outcome::Read(Read::Failed) => drive_outbound(
                SessionState { inbound: Some(InboundSubstreamState::Closing), ..s },
            ),
            Outcome::Read(Read::Closed) => (
                SessionState { inbound: Some(InboundSubstreamState::Closing), ..s },
                Step::Io(Request::Close),
            ),
            Outcome::Read(Read::Pending) => drive_outbound(s),
            Outcome::Close(Completion::Pending) => drive_outbound(s),
            Outcome::Close(_) => drive_outbound(SessionState { inbound: None, ..s }),
            Outcome::Send(Completion::Done) => (
                SessionState { outbound: Some(OutboundState::PendingFlush), ..s },
                Step::Io(Request::Flush),
            ),
            Outcome::Send(Completion::Failed) => suspend(SessionState { outbound: None, ..s }),
            Outcome::Send(Completion::Pending) => suspend(s),
            Outcome::Flush(Completion::Done) => drive_outbound(
                SessionState { outbound: Some(OutboundState::WaitingOutput), ..s },
            ),
            Outcome::Flush(Completion::Failed) => suspend(SessionState { outbound: None, ..s }),
            Outcome::Flush(Completion::Pending) => suspend(s),
        }
    }
}

/// The command to send a message: it joins the queue at the end.
pub open spec fn send(s: SessionState, message: MessageView) -> SessionState {
    SessionState { pending: s.pending.push(message), ..s }
}

/// A freshly negotiated inbound substream replaces the one held, if any.
pub open spec fn inbound_negotiated(s: SessionState) -> SessionState {
    SessionState { inbound: Some(InboundSubstreamState::WaitingInput), ..s }
}

/// A freshly negotiated outbound substream is installed.
pub open spec fn outbound_negotiated(s: SessionState) -> SessionState {
    SessionState { outbound: Some(OutboundState::WaitingOutput), ..s }
}

/// The negotiation of an outbound substream failed: the queue is dropped.
pub open spec fn dial_failed(s: SessionState) -> SessionState {
    SessionState { pending: Seq::empty(), ..s }
}

/// What the transport reports about the connection's substreams.
#[derive(Clone, Copy, Debug, PartialEq, Eq, Structural)]
pub enum ConnectionEvent {
    /// An inbound substream was negotiated.
    FullyNegotiatedInbound,
    /// The outbound substream that was asked for was negotiated.
    FullyNegotiatedOutbound,
    /// The negotiation of the outbound substream failed.
    DialUpgradeError,
    /// Anything else: the session takes no notice.
    Other,
}

/// The state after a report of the transport.
pub open spec fn on_connection_event(s: SessionState, event: ConnectionEvent) -> SessionState {
    match event {
        ConnectionEvent::FullyNegotiatedInbound => inbound_negotiated(s),
        ConnectionEvent::FullyNegotiatedOutbound => outbound_negotiated(s),
        ConnectionEvent::DialUpgradeError => dial_failed(s),
        ConnectionEvent::Other => s,
    }
}

} // verus!
