use bytes::Bytes;
use topic_broadcast::config::Config;
use topic_broadcast::handler::{
    Completion, ConnectionAction, ConnectionEvent, Handler, HandlerEvent, PollOutput, PollStep,
    ReadOutcome, StreamOutcome, StreamRequest,
};
use topic_broadcast::types::{Message, Topic};

fn msg(name: &[u8]) -> Message {
    Message::Broadcast(Topic::new(name), Bytes::from(name.to_vec()))
}

fn is_pending(step: &PollStep) -> bool {
    matches!(step, PollStep::Done(PollOutput::Pending))
}

fn is_request(step: &PollStep) -> bool {
    matches!(step, PollStep::Done(PollOutput::OutboundSubstreamRequest))
}

fn is_send_of(step: &PollStep, expected: &Message) -> bool {
    match step {
        PollStep::Io(StreamRequest::Send(m)) => m == expected,
        _ => false,
    }
}

fn is_flush(step: &PollStep) -> bool {
    matches!(step, PollStep::Io(StreamRequest::Flush))
}

fn is_read(step: &PollStep) -> bool {
    matches!(step, PollStep::Io(StreamRequest::Read))
}

fn is_close(step: &PollStep) -> bool {
    matches!(step, PollStep::Io(StreamRequest::Close))
}

fn with_outbound(messages: &[Message]) -> Handler {
    let mut h = Handler::new(Config::default());
    for m in messages {
        h.on_behaviour_event(m.clone());
    }
    if !messages.is_empty() {
        assert!(is_request(&h.poll()));
    }
    assert!(matches!(
        h.on_connection_event(ConnectionEvent::FullyNegotiatedOutbound),
        ConnectionAction::FrameOutbound(_)
    ));
    h
}

#[test]
fn fresh_session_has_nothing_to_do() {
    let mut h = Handler::new(Config::default());
    assert!(!h.has_inbound_substream());
    assert!(!h.has_outbound_substream());
    assert!(is_pending(&h.poll()));
    assert!(is_pending(&h.poll()));
}

#[test]
fn two_sends_make_one_request_and_go_out_in_order() {
    let a = msg(b"A");
    let b = msg(b"B");
    let mut h = Handler::new(Config::default());
    h.on_behaviour_event(a.clone());
    h.on_behaviour_event(b.clone());
    assert!(is_request(&h.poll()));
    // The request is outstanding: no second one.
    assert!(is_pending(&h.poll()));
    h.on_behaviour_event(msg(b"C"));
    assert!(is_pending(&h.poll()));
    assert!(!h.has_outbound_substream());
    h.on_fully_negotiated_outbound();
    assert!(h.has_outbound_substream());
    // A is written and flushed before B is attempted.
    assert!(is_send_of(&h.poll(), &a));
    assert!(is_flush(&h.on_stream_outcome(StreamOutcome::Send(Completion::Done))));
    assert!(is_send_of(&h.on_stream_outcome(StreamOutcome::Flush(Completion::Done)), &b));
    assert!(is_flush(&h.on_stream_outcome(StreamOutcome::Send(Completion::Done))));
    assert!(is_send_of(&h.on_stream_outcome(StreamOutcome::Flush(Completion::Done)), &msg(b"C")));
    assert!(is_flush(&h.on_stream_outcome(StreamOutcome::Send(Completion::Done))));
    assert!(is_pending(&h.on_stream_outcome(StreamOutcome::Flush(Completion::Done))));
    assert!(is_pending(&h.poll()));
}

#[test]
fn three_messages_are_written_in_the_order_sent() {
    let sent = [msg(b"m1"), msg(b"m2"), msg(b"m3")];
    let mut h = with_outbound(&sent);
    let mut written = Vec::new();
    let mut step = h.poll();
    loop {
        step = match step {
            PollStep::Io(StreamRequest::Send(m)) => {
                written.push(m);
                h.on_stream_outcome(StreamOutcome::Send(Completion::Done))
            }
            PollStep::Io(StreamRequest::Flush) => {
                h.on_stream_outcome(StreamOutcome::Flush(Completion::Done))
            }
            PollStep::Done(PollOutput::Pending) => break,
            other => panic!("unexpected step {:?}", other),
        };
    }
    assert_eq!(written, sent);
}

#[test]
fn a_stalled_write_keeps_the_message_and_its_place() {
    let a = msg(b"A");
    let b = msg(b"B");
    let mut h = with_outbound(&[a.clone(), b.clone()]);
    assert!(is_send_of(&h.poll(), &a));
    assert!(is_pending(&h.on_stream_outcome(StreamOutcome::Send(Completion::Pending))));
    // The next invocation tries the same message again.
    assert!(is_send_of(&h.poll(), &a));
    assert!(is_flush(&h.on_stream_outcome(StreamOutcome::Send(Completion::Done))));
    assert!(is_pending(&h.on_stream_outcome(StreamOutcome::Flush(Completion::Pending))));
    assert!(is_flush(&h.poll()));
    assert!(is_send_of(&h.on_stream_outcome(StreamOutcome::Flush(Completion::Done)), &b));
}

#[test]
fn a_failed_write_drops_the_substream_and_the_message_in_flight() {
    let a = msg(b"A");
    let b = msg(b"B");
    let mut h = with_outbound(&[a.clone(), b.clone()]);
    assert!(is_send_of(&h.poll(), &a));
    assert!(is_pending(&h.on_stream_outcome(StreamOutcome::Send(Completion::Failed))));
    assert!(!h.has_outbound_substream());
    // A substream was asked for once; none is asked for again, though B waits.
    assert!(is_pending(&h.poll()));
    assert!(is_pending(&h.poll()));
    // Should the transport bring one all the same, B is next: A is lost.
    h.on_fully_negotiated_outbound();
    assert!(is_send_of(&h.poll(), &b));
}

#[test]
fn a_failed_flush_drops_the_substream() {
    let a = msg(b"A");
    let mut h = with_outbound(&[a.clone()]);
    assert!(is_send_of(&h.poll(), &a));
    assert!(is_flush(&h.on_stream_outcome(StreamOutcome::Send(Completion::Done))));
    assert!(is_pending(&h.on_stream_outcome(StreamOutcome::Flush(Completion::Failed))));
    assert!(!h.has_outbound_substream());
    h.on_behaviour_event(msg(b"B"));
    assert!(is_pending(&h.poll()));
}

#[test]
fn the_establishing_mark_is_never_cleared() {
    let mut h = Handler::new(Config::default());
    h.on_behaviour_event(msg(b"A"));
    assert!(is_request(&h.poll()));
    // The negotiation fails: the queue is dropped, the mark stays.
    assert!(matches!(
        h.on_connection_event(ConnectionEvent::DialUpgradeError),
        ConnectionAction::Dropped(1)
    ));
    h.on_behaviour_event(msg(b"B"));
    assert!(is_pending(&h.poll()));
    assert!(is_pending(&h.poll()));
}

#[test]
fn dial_upgrade_error_drops_the_whole_queue() {
    let mut h = Handler::new(Config::default());
    assert_eq!(h.on_dial_upgrade_error(), 0);
    h.on_behaviour_event(msg(b"A"));
    h.on_behaviour_event(msg(b"B"));
    h.on_behaviour_event(msg(b"C"));
    assert!(is_request(&h.poll()));
    assert_eq!(h.on_dial_upgrade_error(), 3);
    assert_eq!(h.on_dial_upgrade_error(), 0);
    h.on_fully_negotiated_outbound();
    assert!(is_pending(&h.poll()));
}

#[test]
fn inbound_message_is_handed_up_one_per_invocation() {
    let mut h = Handler::new(Config::default());
    h.on_fully_negotiated_inbound();
    assert!(h.has_inbound_substream());
    assert!(is_read(&h.poll()));
    let step = h.on_stream_outcome(StreamOutcome::Read(ReadOutcome::Message(msg(b"in"))));
    match step {
        PollStep::Done(PollOutput::NotifyBehaviour(HandlerEvent::Rx(m))) => assert_eq!(m, msg(b"in")),
        other => panic!("unexpected step {:?}", other),
    }
    assert!(h.has_inbound_substream());
    assert!(is_read(&h.poll()));
    assert!(is_pending(&h.on_stream_outcome(StreamOutcome::Read(ReadOutcome::Pending))));
    assert!(h.has_inbound_substream());
}

#[test]
fn inbound_end_of_stream_closes_at_once() {
    let mut h = Handler::new(Config::default());
    h.on_fully_negotiated_inbound();
    assert!(is_read(&h.poll()));
    assert!(is_close(&h.on_stream_outcome(StreamOutcome::Read(ReadOutcome::Closed))));
    assert!(is_pending(&h.on_stream_outcome(StreamOutcome::Close(Completion::Pending))));
    assert!(h.has_inbound_substream());
    assert!(is_close(&h.poll()));
    assert!(is_pending(&h.on_stream_outcome(StreamOutcome::Close(Completion::Done))));
    assert!(!h.has_inbound_substream());
    assert!(is_pending(&h.poll()));
}

#[test]
fn inbound_error_closes_on_the_next_invocation() {
    let mut h = Handler::new(Config::default());
    h.on_fully_negotiated_inbound();
    assert!(is_read(&h.poll()));
    assert!(is_pending(&h.on_stream_outcome(StreamOutcome::Read(ReadOutcome::Failed))));
    assert!(h.has_inbound_substream());
    assert!(is_close(&h.poll()));
    // A close that fails gives the substream up like one that succeeds.
    assert!(is_pending(&h.on_stream_outcome(StreamOutcome::Close(Completion::Failed))));
    assert!(!h.has_inbound_substream());
}

#[test]
fn a_new_inbound_substream_replaces_a_closing_one() {
    let mut h = Handler::new(Config::default());
    h.on_fully_negotiated_inbound();
    assert!(is_read(&h.poll()));
    assert!(is_pending(&h.on_stream_outcome(StreamOutcome::Read(ReadOutcome::Failed))));
    assert!(matches!(
        h.on_connection_event(ConnectionEvent::FullyNegotiatedInbound),
        ConnectionAction::FrameInbound(_)
    ));
    assert!(is_read(&h.poll()));
}

#[test]
fn inbound_is_driven_before_outbound_in_one_invocation() {
    let a = msg(b"A");
    let mut h = with_outbound(&[a.clone()]);
    h.on_fully_negotiated_inbound();
    assert!(is_read(&h.poll()));
    assert!(is_send_of(&h.on_stream_outcome(StreamOutcome::Read(ReadOutcome::Pending)), &a));
    assert!(is_flush(&h.on_stream_outcome(StreamOutcome::Send(Completion::Done))));
    assert!(is_pending(&h.on_stream_outcome(StreamOutcome::Flush(Completion::Done))));
}

#[test]
fn an_outcome_that_was_not_asked_for_changes_nothing() {
    let a = msg(b"A");
    let mut h = with_outbound(&[a.clone()]);
    // No invocation in progress.
    assert!(is_pending(&h.on_stream_outcome(StreamOutcome::Send(Completion::Done))));
    assert!(is_send_of(&h.poll(), &a));
    // A flush was not asked for: the session asks for the write again.
    assert!(is_send_of(&h.on_stream_outcome(StreamOutcome::Flush(Completion::Done)), &a));
    assert!(is_send_of(
        &h.on_stream_outcome(StreamOutcome::Read(ReadOutcome::Message(msg(b"x")))),
        &a
    ));
    assert!(is_flush(&h.on_stream_outcome(StreamOutcome::Send(Completion::Done))));
}

#[test]
fn other_connection_events_are_ignored() {
    let mut h = Handler::new(Config::default());
    h.on_behaviour_event(msg(b"A"));
    assert!(matches!(h.on_connection_event(ConnectionEvent::Other), ConnectionAction::Ignore));
    assert!(!h.has_inbound_substream());
    assert!(!h.has_outbound_substream());
    assert!(is_request(&h.poll()));
}

#[test]
fn substream_codecs_take_the_configured_limit() {
    let mut h = Handler::new(Config::default().with_max_buf_size(8));
    let mut codec = h.on_fully_negotiated_inbound();
    let mut src = bytes::BytesMut::from(&[9u8][..]);
    assert_eq!(
        codec.decode(&mut src),
        Err(topic_broadcast::codec::CodecError::OversizeFrame { len: 9, max: 8 })
    );
    let mut codec = h.on_fully_negotiated_outbound();
    let mut src = bytes::BytesMut::from(&[8u8][..]);
    assert_eq!(codec.decode(&mut src), Ok(None));
}

#[test]
fn listen_protocol_is_the_broadcast_protocol() {
    let h = Handler::new(Config::default());
    assert_eq!(h.listen_protocol().protocol_info(), "/ax/broadcast/1.0.0");
}
