//! What holds of a session over any course of events.

use crate::handler::model::{
    answers, awaited, dial_failed, inbound_negotiated, on_stream, outbound_negotiated, outbox,
    poll, send, Completion, Event, OutboundState, Outcome, Output, Request, SessionState, Step,
};
use crate::types::MessageView;
use vstd::prelude::*;

verus! {

/// One thing that happens to a session.
pub enum Op {
    /// The command to send a message.
    Send(MessageView),
    /// The start of an invocation.
    Poll,
    /// The outcome of a stream operation, within an invocation.
    Stream(Outcome),
    /// An inbound substream was negotiated.
    InboundNegotiated,
    /// An outbound substream was negotiated.
    OutboundNegotiated,
    /// The negotiation of an outbound substream failed.
    DialFailed,
}

/// The state after `op`.
pub open spec fn apply(s: SessionState, op: Op) -> SessionState {
    match op {
        Op::Send(message) => send(s, message),
        Op::Poll => poll(s).0,
        Op::Stream(outcome) => on_stream(s, outcome).0,
        Op::InboundNegotiated => inbound_negotiated(s),
        Op::OutboundNegotiated => outbound_negotiated(s),
        Op::DialFailed => dial_failed(s),
    }
}

/// The state after `ops`, in their order.
pub open spec fn run(s: SessionState, ops: Seq<Op>) -> SessionState
    decreases ops.len(),
{
    if ops.len() == 0 {
        s
    } else {
        apply(run(s, ops.drop_last()), ops.last())
    }
}

/// Whether `op` may happen in `s`: an outbound substream is only installed
/// where none is held.
pub open spec fn allowed(s: SessionState, op: Op) -> bool {
    op is OutboundNegotiated ==> s.outbound is None
}

/// Whether each of `ops` may happen in the state that it meets.
pub open spec fn all_allowed(s: SessionState, ops: Seq<Op>) -> bool
    decreases ops.len(),
{
    ops.len() > 0 ==> all_allowed(s, ops.drop_last()) && allowed(
        run(s, ops.drop_last()),
        ops.last(),
    )
}

/// Whether `op` makes `s` ask for an outbound substream.
pub open spec fn asks_for_outbound(s: SessionState, op: Op) -> bool {
    match op {
        Op::Poll => poll(s).1 == Step::Done(Output::OutboundSubstreamRequest),
        Op::Stream(outcome) => on_stream(s, outcome).1 == Step::Done(
            Output::OutboundSubstreamRequest,
        ),
        _ => false,
    }
}

/// How often the session asks for an outbound substream in the course of
/// `ops`.
pub open spec fn requests(s: SessionState, ops: Seq<Op>) -> nat
    decreases ops.len(),
{
    if ops.len() == 0 {
        0
    } else {
        requests(s, ops.drop_last()) + if asks_for_outbound(run(s, ops.drop_last()), ops.last()) {
            1nat
        } else {
            0nat
        }
    }
}

/// The messages that the commands among `ops` hand to the session, in their
/// order.
pub open spec fn accepted(ops: Seq<Op>) -> Seq<MessageView>
    decreases ops.len(),
{
    if ops.len() == 0 {
        Seq::empty()
    } else {
        match ops.last() {
            Op::Send(message) => accepted(ops.drop_last()).push(message),
            _ => accepted(ops.drop_last()),
        }
    }
}

/// The message that `op` reports as written to the outbound substream, if
/// it reports one: the one in flight, where a write was awaited and
/// succeeded.
pub open spec fn wrote(s: SessionState, op: Op) -> Option<MessageView> {
    match (op, s.outbound) {
        (
            Op::Stream(Outcome::Send(Completion::Done)),
            Some(OutboundState::PendingSend(message)),
        ) => if answers(s, Outcome::Send(Completion::Done)) {
            Some(message)
        } else {
            None
        },
        _ => None,
    }
}

/// The messages written to the outbound substream in the course of `ops`,
/// in the order in which they were.
pub open spec fn written(s: SessionState, ops: Seq<Op>) -> Seq<MessageView>
    decreases ops.len(),
{
    if ops.len() == 0 {
        Seq::empty()
    } else {
        match wrote(run(s, ops.drop_last()), ops.last()) {
            Some(message) => written(s, ops.drop_last()).push(message),
            None => written(s, ops.drop_last()),
        }
    }
}

/// Whether `op` loses a message: a failed negotiation drops the queue, a
/// failed write the message in flight.
pub open spec fn loses(s: SessionState, op: Op) -> bool {
    match op {
        Op::DialFailed => s.pending.len() > 0,
        Op::Stream(Outcome::Send(Completion::Failed)) => answers(
            s,
            Outcome::Send(Completion::Failed),
        ),
        _ => false,
    }
}

/// Whether none of `ops` loses a message.
pub open spec fn lossless(s: SessionState, ops: Seq<Op>) -> bool
    decreases ops.len(),
{
    ops.len() > 0 ==> lossless(s, ops.drop_last()) && !loses(run(s, ops.drop_last()), ops.last())
}

/// Once an outbound substream was asked for, nothing takes the mark back.
pub proof fn lemma_establishing_stays(s: SessionState, ops: Seq<Op>)
    requires
        s.establishing,
    ensures
        run(s, ops).establishing,
    decreases ops.len(),
{
    if ops.len() > 0 {
        lemma_establishing_stays(s, ops.drop_last());
    }
}

/// While a request for an outbound substream is outstanding, and ever
/// after, the session asks for no other, whatever is sent meanwhile. On a
/// connection as a whole it asks at most once.
pub proof fn lemma_single_establishment(s: SessionState, ops: Seq<Op>)
    ensures
        s.establishing ==> requests(s, ops) == 0,
        requests(s, ops) <= 1,
        requests(s, ops) == 1 ==> run(s, ops).establishing,
    decreases ops.len(),
{
    if ops.len() > 0 {
        lemma_single_establishment(s, ops.drop_last());
        if s.establishing {
            lemma_establishing_stays(s, ops.drop_last());
        }
    }
}

/// One step keeps the order: what was written before, then what is still to
/// be written, is what it was, with a message sent now at the end.
proof fn lemma_step_keeps_order(s: SessionState, op: Op)
    requires
        allowed(s, op),
        !loses(s, op),
    ensures
        match wrote(s, op) {
            Some(message) => seq![message] + outbox(apply(s, op)) == outbox(s),
            None => match op {
                Op::Send(message) => outbox(apply(s, op)) == outbox(s).push(message),
                _ => outbox(apply(s, op)) == outbox(s),
            },
        },
{
    let t = apply(s, op);
    match op {
        Op::Send(message) => {
            assert(outbox(t) =~= outbox(s).push(message));
        },
        Op::DialFailed => {
            assert(outbox(t) =~= outbox(s));
        },
        _ => {
            match wrote(s, op) {
                Some(message) => {
                    assert(seq![message] + outbox(t) =~= outbox(s));
                },
                None => {
                    assert(outbox(t) =~= outbox(s));
                },
            }
        },
    }
}

/// Messages are written in the order in which they were sent. As long as no
/// message is lost, the messages written so far, followed by those still to
/// be written, are exactly those that were to be written at the start
/// followed by those sent since, in the order of sending.
pub proof fn lemma_fifo(s: SessionState, ops: Seq<Op>)
    requires
        all_allowed(s, ops),
        lossless(s, ops),
    ensures
        written(s, ops) + outbox(run(s, ops)) == outbox(s) + accepted(ops),
        written(s, ops).is_prefix_of(outbox(s) + accepted(ops)),
    decreases ops.len(),
{
    if ops.len() > 0 {
        let before = ops.drop_last();
        let mid = run(s, before);
        lemma_fifo(s, before);
        lemma_step_keeps_order(mid, ops.last());
        let after = run(s, ops);
        match wrote(mid, ops.last()) {
            Some(message) => {
                assert(written(s, ops) + outbox(after) =~= written(s, before) + (seq![message]
                    + outbox(after)));
            },
            None => {
                match ops.last() {
                    Op::Send(message) => {
                        assert(written(s, ops) + outbox(after) =~= (written(s, before) + outbox(
                            mid,
                        )).push(message));
                        assert(outbox(s) + accepted(ops) =~= (outbox(s) + accepted(before)).push(
                            message,
                        ));
                    },
                    _ => {},
                }
            },
        }
    } else {
        assert(written(s, ops) + outbox(s) =~= outbox(s) + accepted(ops));
    }
    assert((outbox(s) + accepted(ops)).subrange(0, written(s, ops).len() as int) =~= written(
        s,
        ops,
    ));
}

/// Whether `a` can be had from `b` by leaving elements out: the elements of
/// `a` occur in `b`, in the same order.
pub open spec fn is_subsequence<T>(a: Seq<T>, b: Seq<T>) -> bool
    decreases b.len(),
{
    if a.len() == 0 {
        true
    } else if b.len() == 0 {
        false
    } else {
        (a.last() == b.last() && is_subsequence(a.drop_last(), b.drop_last())) || is_subsequence(
            a,
            b.drop_last(),
        )
    }
}

/// Leaving one more element out keeps a subsequence.
proof fn lemma_subsequence_remove<T>(a: Seq<T>, b: Seq<T>, i: int)
    requires
        is_subsequence(a, b),
        0 <= i < a.len(),
    ensures
        is_subsequence(a.remove(i), b),
    decreases b.len(),
{
    let shorter = a.remove(i);
    if shorter.len() > 0 {
        if a.last() == b.last() && is_subsequence(a.drop_last(), b.drop_last()) {
            if i == a.len() - 1 {
                assert(shorter == a.drop_last());
            } else {
                lemma_subsequence_remove(a.drop_last(), b.drop_last(), i);
                assert(shorter.drop_last() == a.drop_last().remove(i));
                assert(shorter.last() == a.last());
            }
        } else {
            lemma_subsequence_remove(a, b.drop_last(), i);
        }
    }
}

/// The start of a subsequence is a subsequence.
proof fn lemma_subsequence_take<T>(a: Seq<T>, b: Seq<T>, k: int)
    requires
        is_subsequence(a, b),
        0 <= k <= a.len(),
    ensures
        is_subsequence(a.take(k), b),
    decreases a.len() - k,
{
    if k == a.len() {
        assert(a.take(k) == a);
    } else {
        lemma_subsequence_take(a, b, k + 1);
        lemma_subsequence_remove(a.take(k + 1), b, k);
        assert(a.take(k + 1).remove(k) == a.take(k));
    }
}

/// A sequence is a subsequence of itself.
proof fn lemma_subsequence_self<T>(a: Seq<T>)
    ensures
        is_subsequence(a, a),
    decreases a.len(),
{
    if a.len() > 0 {
        lemma_subsequence_self(a.drop_last());
    }
}

/// One step keeps the order, whatever it loses: what was written, then what
/// is still to be written, stays a subsequence of what was to be written
/// and what was sent.
proof fn lemma_step_keeps_subsequence(
    s: SessionState,
    op: Op,
    done: Seq<MessageView>,
    all: Seq<MessageView>,
)
    requires
        is_subsequence(done + outbox(s), all),
    ensures
        is_subsequence(
            match wrote(s, op) {
                Some(message) => done.push(message),
                None => done,
            } + outbox(apply(s, op)),
            match op {
                Op::Send(message) => all.push(message),
                _ => all,
            },
        ),
{
    let t = apply(s, op);
    let before = done + outbox(s);
    match op {
        Op::Send(message) => {
            let after = done + outbox(t);
            assert(after == before.push(message));
            assert(after.drop_last() == before);
            assert(all.push(message).drop_last() == all);
        },
        _ => {
            match wrote(s, op) {
                Some(message) => {
                    assert(done.push(message) + outbox(t) == before);
                },
                None => {
                    let after = done + outbox(t);
                    let at = done.len() as int;
                    if op is DialFailed {
                        let kept = outbox(t).len() as int;
                        assert(outbox(t) =~= outbox(s).take(kept));
                        lemma_subsequence_take(before, all, at + kept);
                        assert(before.take(at + kept) == after);
                    } else if outbox(s).len() > 0 && outbox(t) =~= outbox(s).skip(1) {
                        lemma_subsequence_remove(before, all, at);
                        assert(before.remove(at) == after);
                    } else {
                        assert(outbox(t) =~= outbox(s));
                    }
                },
            }
        },
    }
}

/// Whatever is lost on the way, the messages that are written are written
/// in the order in which they were sent: they are a subsequence of those
/// that were to be written at the start followed by those sent since.
pub proof fn lemma_order_kept(s: SessionState, ops: Seq<Op>)
    ensures
        is_subsequence(written(s, ops) + outbox(run(s, ops)), outbox(s) + accepted(ops)),
        is_subsequence(written(s, ops), outbox(s) + accepted(ops)),
    decreases ops.len(),
{
    let all = outbox(s) + accepted(ops);
    if ops.len() > 0 {
        let before = ops.drop_last();
        lemma_order_kept(s, before);
        lemma_step_keeps_subsequence(
            run(s, before),
            ops.last(),
            written(s, before),
            outbox(s) + accepted(before),
        );
        match ops.last() {
            Op::Send(message) => {
                assert(all == (outbox(s) + accepted(before)).push(message));
            },
            _ => {},
        }
    } else {
        assert(written(s, ops) + outbox(s) == all);
        lemma_subsequence_self(all);
    }
    let whole = written(s, ops) + outbox(run(s, ops));
    lemma_subsequence_take(whole, all, written(s, ops).len() as int);
    assert(whole.take(written(s, ops).len() as int) == written(s, ops));
}

/// The most stream operations that the outbound substream can still call
/// for within one invocation: a write and a flush for each message.
pub open spec fn outbound_budget(s: SessionState) -> nat {
    match s.outbound {
        Some(OutboundState::WaitingOutput) => 2 * s.pending.len(),
        Some(OutboundState::PendingSend(_)) => 2 + 2 * s.pending.len(),
        Some(OutboundState::PendingFlush) => 1 + 2 * s.pending.len(),
        None => 0,
    }
}

/// The most stream operations that the invocation in progress can still
/// call for, the awaited one included.
pub open spec fn budget(s: SessionState) -> nat {
    match awaited(s) {
        Some(Request::Read) => 2 + outbound_budget(s),
        Some(Request::Close) => 1 + outbound_budget(s),
        Some(_) => outbound_budget(s),
        None => 0,
    }
}

/// An invocation ends: each outcome that the session asked for either ends
/// it or leaves fewer stream operations to call for.
pub proof fn lemma_invocation_ends(s: SessionState, outcome: Outcome)
    requires
        answers(s, outcome),
    ensures
        on_stream(s, outcome).1 is Io ==> budget(on_stream(s, outcome).0) < budget(s),
{
    let t = on_stream(s, outcome).0;
    if t.pending.len() < s.pending.len() {
        assert(t.pending == s.pending.skip(1));
    }
}

/// The operation that the session asks for is the one whose outcome it then
/// waits for; and where it asks for none, it waits for none.
pub proof fn lemma_asked_is_awaited(s: SessionState, outcome: Outcome)
    ensures
        match poll(s).1 {
            Step::Io(request) => awaited(poll(s).0) == Some(request),
            Step::Done(_) => awaited(poll(s).0) is None,
        },
        match on_stream(s, outcome).1 {
            Step::Io(request) => awaited(on_stream(s, outcome).0) == Some(request),
            Step::Done(_) => awaited(on_stream(s, outcome).0) is None,
        },
{
}

/// No step of an invocation reports a message as sent.
pub proof fn lemma_no_acknowledgement(s: SessionState, outcome: Outcome)
    ensures
        poll(s).1 != Step::Done(Output::NotifyBehaviour(Event::Tx)),
        on_stream(s, outcome).1 != Step::Done(Output::NotifyBehaviour(Event::Tx)),
{
}

} // verus!
