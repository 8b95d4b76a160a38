//! The substream session of one connection.
//!
//! [`Handler`] holds what the session decides on: which substreams are held
//! and in what state, the queue of messages to send, and whether an outbound
//! substream was asked for. It performs no stream operation itself. Its
//! owner calls [`Handler::poll`], attempts the operation that comes back,
//! and reports the outcome with [`Handler::on_stream_outcome`], until the
//! session says that the invocation is over.
//!
//! The queue has no bound: while the outbound substream stalls, every
//! message sent adds to it.

pub mod laws;
pub mod model;

use crate::codec::LengthPrefixedCodec;
use crate::config::Config;
use crate::handler::model::{Event, OutboundState, Outcome, Output, Read, Request, SessionState, Step};
pub use crate::handler::model::{Completion, ConnectionEvent, InboundSubstreamState, Stage};
use crate::protocol::Protocol;
use crate::types::{Message, MessageView};
use std::collections::VecDeque;
use vstd::prelude::*;

verus! {

/// An event for the component above the session.
#[derive(Debug)]
pub enum HandlerEvent {
    /// We received a `Message` from a remote.
    Rx(Message),
    /// We successfully sent a `Message`. The session does not emit it: a
    /// flush that succeeds goes straight on to the next queued message.
    Tx,
}

impl View for HandlerEvent {
    type V = Event;

    open spec fn view(&self) -> Event {
        match *self {
            HandlerEvent::Rx(message) => Event::Rx(message@),
            HandlerEvent::Tx => Event::Tx,
        }
    }
}

/// The outbound substream, while one is held.
#[derive(Debug)]
pub enum OutboundSubstreamState {
    /// Waiting for an outbound message to be sent: the idle state.
    WaitingOutput,
    /// Waiting to send an outbound message.
    PendingSend(Message),
    /// Waiting to flush the substream.
    PendingFlush,
}

impl View for OutboundSubstreamState {
    type V = OutboundState;

    open spec fn view(&self) -> OutboundState {
        match *self {
            OutboundSubstreamState::WaitingOutput => OutboundState::WaitingOutput,
            OutboundSubstreamState::PendingSend(message) => OutboundState::PendingSend(message@),
            OutboundSubstreamState::PendingFlush => OutboundState::PendingFlush,
        }
    }
}

/// How an invocation ends.
#[derive(Debug)]
pub enum PollOutput {
    /// Ask the transport to negotiate a new outbound substream.
    OutboundSubstreamRequest,
    /// Hand an event to the component above.
    NotifyBehaviour(HandlerEvent),
    /// Nothing more can be done until a stream is ready again.
    Pending,
}

impl View for PollOutput {
    type V = Output;

    open spec fn view(&self) -> Output {
        match *self {
            PollOutput::OutboundSubstreamRequest => Output::OutboundSubstreamRequest,
            PollOutput::NotifyBehaviour(event) => Output::NotifyBehaviour(event@),
            PollOutput::Pending => Output::Pending,
        }
    }
}

/// A stream operation that the session asks its owner to attempt.
#[derive(Debug)]
pub enum StreamRequest {
    /// Read the next message from the inbound substream.
    Read,
    /// Close the inbound substream.
    Close,
    /// Wait until the outbound substream takes a message, then write this one.
    Send(Message),
    /// Flush the outbound substream.
    Flush,
}

impl View for StreamRequest {
    type V = Request;

    open spec fn view(&self) -> Request {
        match *self {
            StreamRequest::Read => Request::Read,
            StreamRequest::Close => Request::Close,
            StreamRequest::Send(message) => Request::Send(message@),
            StreamRequest::Flush => Request::Flush,
        }
    }
}

/// What the session says after each call within an invocation.
#[derive(Debug)]
pub enum PollStep {
    /// Attempt this operation and report its outcome.
    Io(StreamRequest),
    /// The invocation is over.
    Done(PollOutput),
}

impl View for PollStep {
    type V = Step;

    open spec fn view(&self) -> Step {
        match *self {
            PollStep::Io(request) => Step::Io(request@),
            PollStep::Done(output) => Step::Done(output@),
        }
    }
}

/// What a read of the inbound substream found.
#[derive(Debug)]
pub enum ReadOutcome {
    /// A whole message.
    Message(Message),
    /// Bytes that are no frame or no message, or a failing stream.
    Failed,
    /// The remote closed the substream.
    Closed,
    /// No whole message yet.
    Pending,
}

impl View for ReadOutcome {
    type V = Read;

    open spec fn view(&self) -> Read {
        match *self {
            ReadOutcome::Message(message) => Read::Message(message@),
            ReadOutcome::Failed => Read::Failed,
            ReadOutcome::Closed => Read::Closed,
            ReadOutcome::Pending => Read::Pending,
        }
    }
}

/// The outcome of a stream operation.
#[derive(Debug)]
pub enum StreamOutcome {
    Read(ReadOutcome),
    Close(Completion),
    Send(Completion),
    Flush(Completion),
}

impl View for StreamOutcome {
    type V = Outcome;

    open spec fn view(&self) -> Outcome {
        match *self {
            StreamOutcome::Read(read) => Outcome::Read(read@),
            StreamOutcome::Close(completion) => Outcome::Close(completion),
            StreamOutcome::Send(completion) => Outcome::Send(completion),
            StreamOutcome::Flush(completion) => Outcome::Flush(completion),
        }
    }
}

/// What the session's owner does after a report of the transport.
pub enum ConnectionAction {
    /// Frame the new inbound stream with this codec and read from it.
    FrameInbound(LengthPrefixedCodec),
    /// Frame the new outbound stream with this codec and write to it.
    FrameOutbound(LengthPrefixedCodec),
    /// Record that this many queued messages were dropped.
    Dropped(usize),
    /// Nothing.
    Ignore,
}

/// The views of the messages of a queue, in the queue's order.
pub open spec fn message_views(messages: Seq<Message>) -> Seq<MessageView> {
    messages.map_values(|message: Message| message@)
}

/// The session of one connection.
pub struct Handler {
    config: Config,
    /// The single long-lived inbound substream.
    inbound_substream: Option<InboundSubstreamState>,
    /// The single long-lived outbound substream.
    outbound_substream: Option<OutboundSubstreamState>,
    /// Set when an outbound substream is asked for, so that no second one is
    /// asked for meanwhile. Nothing clears it.
    establishing_outbound_substream: bool,
    /// Queue of messages that are pending to be sent.
    pending_messages: VecDeque<Message>,
    /// Which substream the invocation in progress is driving.
    stage: Stage,
}

impl View for Handler {
    type V = SessionState;

    closed spec fn view(&self) -> SessionState {
        SessionState {
            inbound: self.inbound_substream,
            outbound: match self.outbound_substream {
                Some(state) => Some(state@),
                None => None,
            },
            establishing: self.establishing_outbound_substream,
            pending: message_views(self.pending_messages@),
            stage: self.stage,
        }
    }
}

impl Handler {
    /// The largest frame that the codecs of this session's substreams accept.
    pub closed spec fn max_buf_size(&self) -> usize {
        self.config.max_buf_size
    }

    /// The session of a fresh connection: no substream, nothing queued.
    pub fn new(config: Config) -> (handler: Self)
        ensures
            handler@ == model::initial(),
            handler.max_buf_size() == config.max_buf_size,
    {
        let handler = Handler {
            config,
            inbound_substream: None,
            outbound_substream: None,
            establishing_outbound_substream: false,
            pending_messages: VecDeque::new(),
            stage: Stage::Idle,
        };
        assert(handler@.pending =~= Seq::empty());
        handler
    }

    /// The upgrade for inbound substreams.
    pub fn listen_protocol(&self) -> (protocol: Protocol)
        ensures
            protocol == (Protocol {  }),
    {
        Protocol {  }
    }

    /// Whether an inbound substream is held.
    pub fn has_inbound_substream(&self) -> (held: bool)
        ensures
            held == self@.inbound is Some,
    {
        self.inbound_substream.is_some()
    }

    /// Whether an outbound substream is held.
    pub fn has_outbound_substream(&self) -> (held: bool)
        ensures
            held == self@.outbound is Some,
    {
        self.outbound_substream.is_some()
    }

    /// Takes a message to send: it joins the queue at the end.
    pub fn on_behaviour_event(&mut self, msg: Message)
        ensures
            final(self)@ == model::send(old(self)@, msg@),
            final(self).max_buf_size() == old(self).max_buf_size(),
    {
        self.pending_messages.push_back(msg);
        assert(self@.pending =~= old(self)@.pending.push(msg@));
    }

    /// Ends the invocation with nothing more to do.
    fn suspend(&mut self) -> (step: PollStep)
        ensures
            (final(self)@, step@) == model::suspend(old(self)@),
            final(self).max_buf_size() == old(self).max_buf_size(),
    {
        self.stage = Stage::Idle;
        PollStep::Done(PollOutput::Pending)
    }

    /// Drives the outbound substream.
    fn drive_outbound(&mut self) -> (step: PollStep)
        ensures
            (final(self)@, step@) == model::drive_outbound(old(self)@),
            final(self).max_buf_size() == old(self).max_buf_size(),
    {
        match &self.outbound_substream {
            Some(OutboundSubstreamState::WaitingOutput) => {
                match self.pending_messages.pop_front() {
                    Some(message) => {
                        let copy = message.duplicate();
                        self.outbound_substream = Some(OutboundSubstreamState::PendingSend(message));
                        self.stage = Stage::Outbound;
                        assert(self@.pending =~= old(self)@.pending.skip(1));
                        PollStep::Io(StreamRequest::Send(copy))
                    },
                    None => self.suspend(),
                }
            },
            Some(OutboundSubstreamState::PendingSend(message)) => {
                let copy = message.duplicate();
                self.stage = Stage::Outbound;
                PollStep::Io(StreamRequest::Send(copy))
            },
            Some(OutboundSubstreamState::PendingFlush) => {
                self.stage = Stage::Outbound;
                PollStep::Io(StreamRequest::Flush)
            },
            None => self.suspend(),
        }
    }

    /// Drives the inbound substream, and the outbound one where none is held.
    fn drive_inbound(&mut self) -> (step: PollStep)
        ensures
            (final(self)@, step@) == model::drive_inbound(old(self)@),
            final(self).max_buf_size() == old(self).max_buf_size(),
    {
        match self.inbound_substream {
            Some(InboundSubstreamState::WaitingInput) => {
                self.stage = Stage::Inbound;
                PollStep::Io(StreamRequest::Read)
            },
            Some(InboundSubstreamState::Closing) => {
                self.stage = Stage::Inbound;
                PollStep::Io(StreamRequest::Close)
            },
            None => self.drive_outbound(),
        }
    }

    /// Starts an invocation. With messages queued, no outbound substream
    /// held and none asked for yet, it asks for one. Otherwise it drives the
    /// inbound substream first, then the outbound one.
    pub fn poll(&mut self) -> (step: PollStep)
        ensures
            (final(self)@, step@) == model::poll(old(self)@),
            final(self).max_buf_size() == old(self).max_buf_size(),
    {
        if self.pending_messages.len() > 0 && self.outbound_substream.is_none()
            && !self.establishing_outbound_substream {
            self.establishing_outbound_substream = true;
            self.stage = Stage::Idle;
            PollStep::Done(PollOutput::OutboundSubstreamRequest)
        } else {
            self.drive_inbound()
        }
    }

    /// The operation whose outcome the session is waiting for, if any.
    fn awaited(&self) -> (request: Option<StreamRequest>)
        ensures
            match request {
                Some(r) => model::awaited(self@) == Some(r@),
                None => model::awaited(self@) is None,
            },
    {
        match self.stage {
            Stage::Idle => None,
            Stage::Inbound => match self.inbound_substream {
                Some(InboundSubstreamState::WaitingInput) => Some(StreamRequest::Read),
                Some(InboundSubstreamState::Closing) => Some(StreamRequest::Close),
                None => None,
            },
            Stage::Outbound => match &self.outbound_substream {
                Some(OutboundSubstreamState::PendingSend(message)) => Some(
                    StreamRequest::Send(message.duplicate()),
                ),
                Some(OutboundSubstreamState::PendingFlush) => Some(StreamRequest::Flush),
                _ => None,
            },
        }
    }

    /// Continues the invocation with the outcome of the operation that the
    /// session asked for. An outcome of another operation changes nothing,
    /// and the session asks again.
    ///
    /// A read that fails or finds the substream closed starts closing it; a
    /// close that completes, well or badly, gives the substream up. A write
    /// or flush that fails gives the outbound substream up, and with it the
    /// message in flight. A flush that succeeds frees the substream for the
    /// next queued message, within the same invocation.
    pub fn on_stream_outcome(&mut self, outcome: StreamOutcome) -> (step: PollStep)
        ensures
            (final(self)@, step@) == model::on_stream(old(self)@, outcome@),
            final(self).max_buf_size() == old(self).max_buf_size(),
    {
        let awaited = self.awaited();
        match (awaited, outcome) {
            (Some(StreamRequest::Read), StreamOutcome::Read(read)) => match read {
                ReadOutcome::Message(message) => {
                    self.stage = Stage::Idle;
                    PollStep::Done(PollOutput::NotifyBehaviour(HandlerEvent::Rx(message)))
                },
                ReadOutcome::Failed => {
                    self.inbound_substream = Some(InboundSubstreamState::Closing);
                    self.drive_outbound()
                },
                ReadOutcome::Closed => {
                    self.inbound_substream = Some(InboundSubstreamState::Closing);
                    PollStep::Io(StreamRequest::Close)
                },
                ReadOutcome::Pending => self.drive_outbound(),
            },
            (Some(StreamRequest::Close), StreamOutcome::Close(completion)) => match completion {
                Completion::Pending => self.drive_outbound(),
                _ => {
                    self.inbound_substream = None;
                    self.drive_outbound()
                },
            },
            (Some(StreamRequest::Send(_)), StreamOutcome::Send(completion)) => match completion {
                Completion::Done => {
                    self.outbound_substream = Some(OutboundSubstreamState::PendingFlush);
                    PollStep::Io(StreamRequest::Flush)
                },
                Completion::Failed => {
                    self.outbound_substream = None;
                    self.suspend()
                },
                Completion::Pending => self.suspend(),
            },
            (Some(StreamRequest::Flush), StreamOutcome::Flush(completion)) => match completion {
                Completion::Done => {
                    self.outbound_substream = Some(OutboundSubstreamState::WaitingOutput);
                    self.drive_outbound()
                },
                Completion::Failed => {
                    self.outbound_substream = None;
                    self.suspend()
                },
                Completion::Pending => self.suspend(),
            },
            (Some(request), _) => PollStep::Io(request),
            (None, _) => self.suspend(),
        }
    }

    /// Installs a freshly negotiated inbound substream, in place of the one
    /// held, if any. Returns the codec for it.
    pub fn on_fully_negotiated_inbound(&mut self) -> (codec: LengthPrefixedCodec)
        ensures
            final(self)@ == model::inbound_negotiated(old(self)@),
            final(self).max_buf_size() == old(self).max_buf_size(),
            codec.max_size() == old(self).max_buf_size(),
    {
        self.inbound_substream = Some(InboundSubstreamState::WaitingInput);
        LengthPrefixedCodec::new(self.config.max_buf_size)
    }

    /// Installs a freshly negotiated outbound substream, and returns the
    /// codec for it. None may be held: only one is ever asked for at a time.
    pub fn on_fully_negotiated_outbound(&mut self) -> (codec: LengthPrefixedCodec)
        requires
            old(self)@.outbound is None,
        ensures
            final(self)@ == model::outbound_negotiated(old(self)@),
            final(self).max_buf_size() == old(self).max_buf_size(),
            codec.max_size() == old(self).max_buf_size(),
    {
        self.outbound_substream = Some(OutboundSubstreamState::WaitingOutput);
        LengthPrefixedCodec::new(self.config.max_buf_size)
    }

    /// The negotiation of an outbound substream failed: every queued message
    /// is dropped. Returns how many were.
    pub fn on_dial_upgrade_error(&mut self) -> (dropped: usize)
        ensures
            final(self)@ == model::dial_failed(old(self)@),
            dropped == old(self)@.pending.len(),
            final(self).max_buf_size() == old(self).max_buf_size(),
    {
        let dropped = self.pending_messages.len();
        self.pending_messages.clear();
        assert(self@.pending =~= Seq::empty());
        dropped
    }

    /// Takes a report of the transport and says what its owner has to do.
    pub fn on_connection_event(&mut self, event: ConnectionEvent) -> (action: ConnectionAction)
        requires
            event is FullyNegotiatedOutbound ==> old(self)@.outbound is None,
        ensures
            final(self)@ == model::on_connection_event(old(self)@, event),
            final(self).max_buf_size() == old(self).max_buf_size(),
            match event {
                ConnectionEvent::FullyNegotiatedInbound => action matches ConnectionAction::FrameInbound(
                    codec,
                ) && codec.max_size() == old(self).max_buf_size(),
                ConnectionEvent::FullyNegotiatedOutbound => action matches ConnectionAction::FrameOutbound(
                    codec,
                ) && codec.max_size() == old(self).max_buf_size(),
                ConnectionEvent::DialUpgradeError => action == ConnectionAction::Dropped(
                    old(self)@.pending.len() as usize,
                ),
                ConnectionEvent::Other => action is Ignore,
            },
    {
        match event {
            ConnectionEvent::FullyNegotiatedInbound => ConnectionAction::FrameInbound(
                self.on_fully_negotiated_inbound(),
            ),
            ConnectionEvent::FullyNegotiatedOutbound => ConnectionAction::FrameOutbound(
                self.on_fully_negotiated_outbound(),
            ),
            ConnectionEvent::DialUpgradeError => ConnectionAction::Dropped(
                self.on_dial_upgrade_error(),
            ),
            ConnectionEvent::Other => ConnectionAction::Ignore,
        }
    }
}

} // verus!
