//! What holds between the parts of the library: between the two ends of a
//! connection, and over the life of a call.

use crate::bytes::{byte_range, le_bytes, le_bytes_len, le_value_of_le_bytes};
use crate::call::{
    close_view, ends_with_one_close, failure_status, message_view, send_refusal, stream_status,
    unary_answer,
};
use crate::client::{
    after_notice, call_view, cancel_view, disconnect_status, id_after, notice_of, start_outcome,
    ClientView, EventView, MailboxView, Notice, ReceivedView,
};
use crate::context::{expiry, has_expired, wire_deadline};
use crate::frame::{
    frames_are_atomic, frames_wire, parse_frames, prologue_round_trips, with_length, CallPrologue,
    Frame, FrameHeader, FrameKind, CALL_PROLOGUE_LEN, MAX_FRAME_LEN,
};
use crate::limit::Permits;
use crate::outlet::accepted;
use crate::pending::{settled, Settled};
use crate::server::{
    after_request, call_starts_are_consistent, cancel_reaches_its_call_only,
    finished_calls_leave_no_trace, pong_view, replies_to, request_of, ConnectionView, Request,
    Running,
};
use crate::status::{Code, Status};
use crate::stream::{accepted_frames, contents, message_frames, taken};
use crate::text::text_survives_utf8;
use vstd::prelude::*;

verus! {

/// What a client looks like after some frames, in order.
pub open spec fn after_notices(client: ClientView, frames: Seq<(FrameHeader, Seq<u8>)>) -> ClientView
    decreases frames.len(),
{
    if frames.len() == 0 {
        client
    } else {
        after_notice(
            after_notices(client, frames.drop_last()),
            frames.last().0,
            frames.last().1,
        )
    }
}

/// Frames as their reader gets them: with their lengths filled in.
pub open spec fn as_read(frames: Seq<(FrameHeader, Seq<u8>)>) -> Seq<(FrameHeader, Seq<u8>)> {
    frames.map_values(
        |frame: (FrameHeader, Seq<u8>)| (with_length(frame.0, frame.1.len()), frame.1),
    )
}

/// The status that a caller sees of one that the server closed with: a
/// success carries no detail.
pub open spec fn received_status(status: (u16, Seq<char>)) -> (u16, Seq<char>) {
    if status.0 == Code::OK {
        (Code::OK, Seq::empty())
    } else {
        status
    }
}

proof fn lengths_make_no_difference(client: ClientView, frames: Seq<(FrameHeader, Seq<u8>)>)
    ensures
        after_notices(client, as_read(frames)) == after_notices(client, frames),
    decreases frames.len(),
{
    if frames.len() > 0 {
        lengths_make_no_difference(client, frames.drop_last());
        assert(as_read(frames).drop_last() =~= as_read(frames.drop_last()));
    }
}

/// A call is read by the server as it was made: same method, same deadline,
/// same request.
pub proof fn calls_are_understood(call_id: u32, method: u64, patience: Option<u128>, body: Seq<u8>)
    ensures
        ({
            let (header, payload) = call_view(call_id, method, patience, body);
            &&& header.call_id == call_id
            &&& request_of(with_length(header, payload.len()), payload) == (Request::Open {
                prologue: CallPrologue { method, deadline_ms: wire_deadline(patience) },
                body,
            })
        }),
{
    let prologue = CallPrologue { method, deadline_ms: wire_deadline(patience) };
    let payload = call_view(call_id, method, patience, body).1;
    prologue_round_trips(prologue);
    assert(payload.take(CALL_PROLOGUE_LEN as int) =~= prologue.wire());
    assert(payload.skip(CALL_PROLOGUE_LEN as int) =~= body);
}

/// A client's CANCEL is read as such, for the call that it was meant for.
pub proof fn cancels_are_understood(call_id: u32)
    ensures
        cancel_view(call_id).0.call_id == call_id,
        request_of(with_length(cancel_view(call_id).0, 0), cancel_view(call_id).1)
            == Request::Cancel,
{
}

/// What is against the protocol is told apart on both sides: any flag, any
/// unknown kind, and a frame that only the other side sends.
pub proof fn violations_are_recognised(header: FrameHeader, payload: Seq<u8>)
    ensures
        header.flags != 0 || header.kind.0 > FrameKind::PONG ==> request_of(header, payload)
            == Request::Violation && notice_of(header, payload) == Notice::Violation,
        header.kind.0 == FrameKind::MESSAGE || header.kind.0 == FrameKind::CLOSE ==> request_of(
            header,
            payload,
        ) == Request::Violation,
        header.kind.0 == FrameKind::CALL || header.kind.0 == FrameKind::CANCEL ==> notice_of(
            header,
            payload,
        ) == Notice::Violation,
{
}

/// A successful unary call succeeds end to end: the bytes that answer it,
/// read off the connection, give the caller the handler's response, and
/// nothing of the call is left behind.
pub proof fn responses_reach_the_caller(
    client: ClientView,
    call_id: u32,
    bytes: Seq<u8>,
    expires: Option<u128>,
    now: u128,
    rest: Seq<u8>,
    max_len: u32,
)
    requires
        client.listens(call_id),
        client.calls[call_id].events.len() == 0,
        bytes.len() <= max_len,
    ensures
        ({
            let answer = unary_answer(call_id, Ok(bytes));
            &&& parse_frames(frames_wire(answer) + rest, answer.len(), max_len) matches Some(frames)
            &&& settled(after_notices(client, frames), call_id, expires, None, now) == (
                client.forgotten(call_id),
                Settled::Done(bytes),
            )
        }),
{
    let answer = unary_answer(call_id, Ok(bytes));
    frames_are_atomic(answer, rest, max_len);
    lengths_make_no_difference(client, answer);
    reveal_with_fuel(after_notices, 3);
    assert(answer.drop_last().drop_last() =~= Seq::empty());
    assert(answer.drop_last() =~= seq![message_view(call_id, bytes)]);
    text_survives_utf8(Seq::empty());
    let first = client.delivered(call_id, EventView::Message(bytes));
    let both = after_notices(client, answer);
    assert(both.calls[call_id].events.len() == 2);
    assert(both.calls[call_id].events[0] == EventView::Message(bytes));
    reveal_with_fuel(settled, 3);
    assert(both.taken(call_id).calls[call_id].events[0] == both.calls[call_id].events[1]);
    assert(both.taken(call_id).taken(call_id).forgotten(call_id) =~= client.forgotten(call_id));
}

/// A failed unary call fails end to end with the status its handler ended
/// with: every code that tells of a failure, known or not, and the whole detail
/// survive the wire. A failure that names no code reaches the caller as unknown.
pub proof fn failures_reach_the_caller(
    client: ClientView,
    call_id: u32,
    status: (u16, Seq<char>),
    expires: Option<u128>,
    now: u128,
    rest: Seq<u8>,
    max_len: u32,
)
    requires
        client.listens(call_id),
        client.calls[call_id].events.len() == 0,
        vstd::utf8::encode_utf8(status.1).len() <= max_len,
    ensures
        ({
            let answer = unary_answer(call_id, Err(status));
            &&& parse_frames(frames_wire(answer) + rest, answer.len(), max_len) matches Some(frames)
            &&& settled(after_notices(client, frames), call_id, expires, None, now) == (
                client.forgotten(call_id),
                Settled::Status { status: failure_status(status), cancels: false },
            )
            &&& status.0 != 0 ==> settled(
                after_notices(client, frames),
                call_id,
                expires,
                None,
                now,
            ).1 == (Settled::Status { status, cancels: false })
            &&& status.0 == 0 ==> settled(
                after_notices(client, frames),
                call_id,
                expires,
                None,
                now,
            ).1 == (Settled::Status { status: (2u16, status.1), cancels: false })
        }),
{
    let answer = unary_answer(call_id, Err(status));
    frames_are_atomic(answer, rest, max_len);
    lengths_make_no_difference(client, answer);
    reveal_with_fuel(after_notices, 2);
    assert(answer.drop_last() =~= Seq::empty());
    text_survives_utf8(status.1);
    let after = after_notices(client, answer);
    assert(after.calls[call_id].events[0] == EventView::Close(failure_status(status)));
    reveal_with_fuel(settled, 2);
    assert(after.taken(call_id).forgotten(call_id) =~= client.forgotten(call_id));
}

/// A CLOSE that claims success without a response is a protocol violation to
/// the caller.
pub proof fn success_needs_a_response(
    client: ClientView,
    call_id: u32,
    expires: Option<u128>,
    now: u128,
)
    requires
        client.listens(call_id),
        client.calls[call_id].events.len() == 0,
    ensures
        ({
            let (header, payload) = close_view(call_id, (Code::OK, Seq::empty()));
            settled(after_notice(client, header, payload), call_id, expires, None, now).1
                == (Settled::Protocol {
                what: "CLOSE(ok) without a response message"@,
                cancels: false,
            })
        }),
{
    reveal_with_fuel(settled, 2);
}

/// The frames of a stream: its messages, then its CLOSE.
pub open spec fn stream_answer(
    call_id: u32,
    messages: Seq<Seq<u8>>,
    status: (u16, Seq<char>),
) -> Seq<(FrameHeader, Seq<u8>)> {
    message_frames(call_id, messages).push(close_view(call_id, status))
}

/// Messages as the events they are delivered as.
pub open spec fn message_events(messages: Seq<Seq<u8>>) -> Seq<EventView> {
    messages.map_values(|bytes: Seq<u8>| EventView::Message(bytes))
}

proof fn messages_arrive_in_order(client: ClientView, call_id: u32, messages: Seq<Seq<u8>>)
    requires
        client.listens(call_id),
    ensures
        ({
            let after = after_notices(client, message_frames(call_id, messages));
            &&& after.listens(call_id)
            &&& after.calls[call_id].events == client.calls[call_id].events + message_events(
                messages,
            )
        }),
    decreases messages.len(),
{
    let frames = message_frames(call_id, messages);
    if messages.len() == 0 {
        assert(client.calls[call_id].events + message_events(messages)
            =~= client.calls[call_id].events);
    } else {
        let before = messages.drop_last();
        messages_arrive_in_order(client, call_id, before);
        assert(frames.drop_last() =~= message_frames(call_id, before));
        let middle = after_notices(client, message_frames(call_id, before));
        assert(after_notices(client, frames).calls[call_id].events
            =~= client.calls[call_id].events + message_events(messages));
    }
}

/// A stream arrives whole and in order: read off the connection, the call
/// finds its messages as they were sent, then how it ended, and nothing after
/// that.
pub proof fn streams_arrive_in_order(
    client: ClientView,
    call_id: u32,
    messages: Seq<Seq<u8>>,
    status: (u16, Seq<char>),
    rest: Seq<u8>,
    max_len: u32,
)
    requires
        client.listens(call_id),
        forall|i: int| 0 <= i < messages.len() ==> (#[trigger] messages[i]).len() <= max_len,
        vstd::utf8::encode_utf8(status.1).len() <= max_len,
    ensures
        ({
            let answer = stream_answer(call_id, messages, status);
            &&& ends_with_one_close(answer, call_id)
            &&& parse_frames(frames_wire(answer) + rest, answer.len(), max_len) matches Some(frames)
            &&& after_notices(client, frames).calls[call_id].events
                == client.calls[call_id].events + message_events(messages).push(
                EventView::Close(received_status(status)),
            )
            &&& !after_notices(client, frames).listens(call_id)
        }),
{
    let answer = stream_answer(call_id, messages, status);
    assert forall|i: int| 0 <= i < answer.len() implies (#[trigger] answer[i]).1.len()
        <= max_len by {
        if i < messages.len() {
            assert(answer[i].1 == messages[i]);
        }
    }
    frames_are_atomic(answer, rest, max_len);
    lengths_make_no_difference(client, answer);
    messages_arrive_in_order(client, call_id, messages);
    assert(answer.drop_last() =~= message_frames(call_id, messages));
    text_survives_utf8(status.1);
    text_survives_utf8(Seq::empty());
    assert(vstd::utf8::encode_utf8(Seq::<char>::empty()) =~= Seq::<u8>::empty());
    assert(after_notices(client, answer).calls[call_id].events =~= client.calls[call_id].events
        + message_events(messages).push(EventView::Close(received_status(status))));
}

/// A stream reaches its caller from the handler on: what its sink accepted is
/// what the connection's writer took, in order; with the CLOSE after it, it is
/// read off the connection as it was sent, whatever else was refused on the
/// way. `log` and `record` are those of a call's outlet and its writer.
pub proof fn streams_reach_the_caller(
    client: ClientView,
    call_id: u32,
    log: Seq<(Vec<u8>, Result<(), Status>)>,
    record: Seq<(Frame, bool)>,
    status: (u16, Seq<char>),
    rest: Seq<u8>,
    max_len: u32,
)
    requires
        client.listens(call_id),
        taken(record) == accepted_frames(call_id, log),
        forall|i: int|
            0 <= i < accepted(log).len() ==> (#[trigger] accepted(log)[i])@.len() <= max_len,
        vstd::utf8::encode_utf8(status.1).len() <= max_len,
    ensures
        ({
            let messages = contents(accepted(log));
            let sent = taken(record).push(close_view(call_id, status));
            &&& sent == stream_answer(call_id, messages, status)
            &&& parse_frames(frames_wire(sent) + rest, sent.len(), max_len) matches Some(frames)
            &&& after_notices(client, frames).calls[call_id].events
                == client.calls[call_id].events + message_events(messages).push(
                EventView::Close(received_status(status)),
            )
        }),
{
    let messages = contents(accepted(log));
    assert forall|i: int| 0 <= i < messages.len() implies (#[trigger] messages[i]).len()
        <= max_len by {
        assert(messages[i] == accepted(log)[i]@);
    }
    streams_arrive_in_order(client, call_id, messages, status, rest, max_len);
}

/// A stream ends for its caller as it ended for its handler: after the messages
/// that its sink accepted, in order, comes exactly the code and detail that the
/// handler failed with, or a success if it did not fail.
pub proof fn streams_end_as_their_handlers_do(
    client: ClientView,
    call_id: u32,
    log: Seq<(Vec<u8>, Result<(), Status>)>,
    record: Seq<(Frame, bool)>,
    outcome: Result<(), Status>,
    rest: Seq<u8>,
    max_len: u32,
    i: int,
)
    requires
        client.listens(call_id),
        client.calls[call_id].events.len() == 0,
        taken(record) == accepted_frames(call_id, log),
        forall|j: int|
            0 <= j < accepted(log).len() ==> (#[trigger] accepted(log)[j])@.len() <= max_len,
        outcome matches Err(status) ==> vstd::utf8::encode_utf8(status.message@).len() <= max_len,
    ensures
        ({
            let sent = taken(record).push(close_view(call_id, stream_status(outcome)));
            &&& parse_frames(frames_wire(sent) + rest, sent.len(), max_len) matches Some(frames)
            &&& ({
                let events = after_notices(client, frames).calls[call_id].events;
                &&& events.len() == accepted(log).len() + 1
                &&& 0 <= i < accepted(log).len() ==> events[i] == EventView::Message(
                    accepted(log)[i]@,
                )
                &&& outcome is Ok ==> (events.last() matches EventView::Close(seen) && seen.0 == 0)
                &&& outcome matches Err(status) ==> {
                    &&& events.last() matches EventView::Close(seen)
                    &&& seen.0 == status.code.0
                    &&& status.code.0 != 0 ==> seen.1 == status.message@
                }
            })
        }),
{
    assert(vstd::utf8::encode_utf8(Seq::<char>::empty()) =~= Seq::<u8>::empty());
    let status = stream_status(outcome);
    streams_reach_the_caller(client, call_id, log, record, status, rest, max_len);
    let messages = contents(accepted(log));
    assert(client.calls[call_id].events + message_events(messages).push(
        EventView::Close(received_status(status)),
    ) =~= message_events(messages).push(EventView::Close(received_status(status))));
}

/// What arrives for one call is nobody else's business: frames of different
/// calls interleave freely.
pub proof fn calls_do_not_interfere(
    client: ClientView,
    other: u32,
    header: FrameHeader,
    payload: Seq<u8>,
)
    requires
        header.call_id != other,
    ensures
        after_notice(client, header, payload).calls.contains_key(other)
            == client.calls.contains_key(other),
        client.calls.contains_key(other) ==> after_notice(client, header, payload).calls[other]
            == client.calls[other],
{
}

/// The frames, in order, that are for one call.
pub open spec fn frames_of(frames: Seq<(FrameHeader, Seq<u8>)>, call_id: u32) -> Seq<
    (FrameHeader, Seq<u8>),
>
    decreases frames.len(),
{
    if frames.len() == 0 {
        Seq::empty()
    } else if frames.last().0.call_id == call_id {
        frames_of(frames.drop_last(), call_id).push(frames.last())
    } else {
        frames_of(frames.drop_last(), call_id)
    }
}

/// However the frames of many calls are interleaved on the connection, each
/// call finds what it would have found alone.
pub proof fn calls_are_multiplexed(
    client: ClientView,
    call_id: u32,
    frames: Seq<(FrameHeader, Seq<u8>)>,
)
    requires
        client.calls.contains_key(call_id),
    ensures
        ({
            let mixed = after_notices(client, frames);
            let alone = after_notices(client, frames_of(frames, call_id));
            &&& mixed.calls.contains_key(call_id)
            &&& alone.calls.contains_key(call_id)
            &&& mixed.calls[call_id] == alone.calls[call_id]
            &&& mixed.closed == client.closed
            &&& alone.closed == client.closed
        }),
    decreases frames.len(),
{
    if frames.len() > 0 {
        let before = frames.drop_last();
        let last = frames.last();
        calls_are_multiplexed(client, call_id, before);
        if last.0.call_id == call_id {
            let own = frames_of(before, call_id);
            assert(own.push(last).drop_last() =~= own);
        } else {
            calls_do_not_interfere(after_notices(client, before), call_id, last.0, last.1);
        }
    }
}

/// Frames for an id that the client no longer waits on change nothing.
pub proof fn late_frames_are_ignored(client: ClientView, header: FrameHeader, payload: Seq<u8>)
    requires
        !client.listens(header.call_id),
        header.kind.0 == FrameKind::MESSAGE || header.kind.0 == FrameKind::CLOSE,
    ensures
        after_notice(client, header, payload) == client,
{
}

/// A cancelled call and a closed one are no longer waited on.
pub proof fn ended_calls_hear_no_more(client: ClientView, call_id: u32, status: (u16, Seq<char>))
    ensures
        !client.forgotten(call_id).listens(call_id),
        !client.delivered(call_id, EventView::Close(status)).listens(call_id),
{
}

/// Whether a CLOSE, if there is one among a call's events, is the last of
/// them, with nothing more to come.
pub open spec fn close_comes_last(mailbox: MailboxView) -> bool {
    forall|i: int|
        0 <= i < mailbox.events.len() && #[trigger] mailbox.events[i] is Close ==> i
            == mailbox.events.len() - 1 && !mailbox.open
}

/// Whether that is so of every call of a client.
pub open spec fn closes_come_last(client: ClientView) -> bool {
    forall|call_id: u32| #[trigger]
        client.calls.contains_key(call_id) ==> close_comes_last(client.calls[call_id])
}

/// A call hears at most one CLOSE, and nothing after it: so it is on a fresh
/// connection, and whatever the server sends and the caller does keeps it so.
pub proof fn calls_hear_one_close(
    client: ClientView,
    call_id: u32,
    header: FrameHeader,
    payload: Seq<u8>,
)
    requires
        closes_come_last(client),
    ensures
        closes_come_last(ClientView::fresh()),
        closes_come_last(client.started(call_id)),
        closes_come_last(after_notice(client, header, payload)),
        closes_come_last(client.taken(call_id)),
        closes_come_last(client.forgotten(call_id)),
        closes_come_last(ClientView { closed: true, ..client }),
{
    let taken = client.taken(call_id);
    assert forall|id: u32| #[trigger] taken.calls.contains_key(id) implies close_comes_last(
        taken.calls[id],
    ) by {
        assert(close_comes_last(client.calls[id]));
        if taken != client && id == call_id {
            assert forall|i: int|
                0 <= i < taken.calls[id].events.len()
                    && #[trigger] taken.calls[id].events[i] is Close implies i
                == taken.calls[id].events.len() - 1 && !taken.calls[id].open by {
                assert(client.calls[id].events[i + 1] is Close);
            }
        }
    }
    let after = after_notice(client, header, payload);
    assert forall|id: u32| #[trigger] after.calls.contains_key(id) implies close_comes_last(
        after.calls[id],
    ) by {
        assert(close_comes_last(client.calls[id]));
    }
}

/// Once the connection is over, every call learns of it as soon as it took
/// what had arrived, whatever its deadline.
pub proof fn disconnection_reaches_every_call(
    client: ClientView,
    call_id: u32,
    expires: Option<u128>,
    now: u128,
)
    requires
        client.closed,
        client.calls.contains_key(call_id) ==> client.calls[call_id].events.len() == 0,
    ensures
        client.received(call_id, expires, now) == ReceivedView::Disconnected,
        settled(client, call_id, expires, None, now) == (
            client.forgotten(call_id),
            Settled::Status { status: disconnect_status(), cancels: true },
        ),
{
    reveal_with_fuel(settled, 2);
}

/// A call that nothing arrived for ends when its time is up, and not before.
pub proof fn deadlines_cut_the_wait(
    client: ClientView,
    call_id: u32,
    expires: Option<u128>,
    now: u128,
)
    requires
        client.listens(call_id),
        client.calls[call_id].events.len() == 0,
    ensures
        client.received(call_id, expires, now) == if has_expired(expires, now) {
            ReceivedView::TimedOut
        } else {
            ReceivedView::Wait
        },
{
}

/// A call begun at `now` with some patience waits at every moment before `now`
/// plus its patience, and is given up as late, with a CANCEL, at every moment
/// from then on; one without a deadline waits at every moment.
pub proof fn calls_wait_as_long_as_asked(
    client: ClientView,
    call_id: u32,
    response: Option<Seq<u8>>,
    now: u128,
    patience: u128,
    moment: u128,
)
    requires
        client.listens(call_id),
        client.calls[call_id].events.len() == 0,
        now + patience <= u128::MAX,
    ensures
        moment < now + patience ==> settled(
            client,
            call_id,
            expiry(now, Some(patience)),
            response,
            moment,
        ) == (client, Settled::Waiting(response)),
        moment >= now + patience ==> settled(
            client,
            call_id,
            expiry(now, Some(patience)),
            response,
            moment,
        ) == (
            client.forgotten(call_id),
            Settled::Status { status: (4u16, "deadline exceeded"@), cancels: true },
        ),
        settled(client, call_id, expiry(now, None), response, moment) == (
            client,
            Settled::Waiting(response),
        ),
        client.received(call_id, expiry(now, Some(patience)), moment) is TimedOut <==> moment
            >= now + patience,
{
    reveal_with_fuel(settled, 2);
}

/// A call's id is nonzero and unlike that of any other call in flight, and
/// there is one choice for it.
pub proof fn call_ids_are_unique(client: ClientView, a: u32, b: u32)
    requires
        client.is_next(a),
        client.is_next(b),
    ensures
        a != 0,
        !client.calls.contains_key(a),
        a == b,
{
    let i = choose|steps: nat| #[trigger] client.is_next_after(a, steps);
    let j = choose|steps: nat| #[trigger] client.is_next_after(b, steps);
    if i < j {
        assert(!client.is_free(id_after(client.next_call, i)));
    } else if j < i {
        assert(!client.is_free(id_after(client.next_call, j)));
    }
}

/// Ids count up from one: the first call of a connection gets one, and the
/// next id is free unless it came round to a call still in flight.
pub proof fn call_ids_count_up(client: ClientView, call_id: u32)
    requires
        0 < call_id < u32::MAX,
        !client.calls.contains_key((call_id + 1) as u32),
    ensures
        ClientView::fresh().is_next(1),
        client.started(call_id).is_next((call_id + 1) as u32),
{
    assert(ClientView::fresh().is_next_after(1, 0));
    assert(client.started(call_id).is_next_after((call_id + 1) as u32, 0));
}

/// No client sends a CALL frame that is against the protocol for its length.
pub proof fn requests_fit_a_frame(
    before: ClientView,
    after: ClientView,
    method: u64,
    body: Seq<u8>,
    patience: Option<u128>,
    call_id: u32,
    frame: Frame,
)
    requires
        start_outcome(before, after, method, body, patience, Ok((call_id, frame))),
    ensures
        frame@.1.len() <= MAX_FRAME_LEN,
        after.listens(call_id) || after.closed,
{
    prologue_round_trips(CallPrologue { method, deadline_ms: wire_deadline(patience) });
}

/// A probe comes back: the server answers a PING with a PONG of the same
/// payload, and that marks the probe which sent it as answered.
pub proof fn probes_are_answered(client: ClientView)
    requires
        !client.closed,
    ensures
        ({
            let payload = le_bytes(client.next_ping as nat, 8);
            let ping = FrameHeader::outgoing_spec(FrameKind::PING, 0, 0);
            let pong = FrameHeader::outgoing_spec(FrameKind::PONG, 0, 0);
            &&& request_of(with_length(ping, 8), payload) == Request::Probe
            &&& after_notice(client.probed(), with_length(pong, 8), payload)
                == client.probed().answered(client.next_ping)
            &&& client.probed().answered(client.next_ping).pings[client.next_ping]
        }),
{
    reveal_with_fuel(byte_range, 9);
    le_bytes_len(client.next_ping as nat, 8);
    le_value_of_le_bytes(client.next_ping as nat, 8);
}

/// Something that happens on a server's connection.
pub ghost enum Turn {
    /// A frame is read, with these permits at that moment.
    Read { header: FrameHeader, payload: Seq<u8>, permits: Permits },
    /// A call that runs sends a frame.
    Send { header: FrameHeader, payload: Seq<u8> },
}

/// The frames that a server writes over some turns, in order.
pub open spec fn written(turns: Seq<Turn>) -> Seq<(FrameHeader, Seq<u8>)>
    decreases turns.len(),
{
    if turns.len() == 0 {
        Seq::empty()
    } else {
        written(turns.drop_last()) + match turns.last() {
            Turn::Read { header, payload, permits } => replies_to(permits, header, payload),
            Turn::Send { header, payload } => seq![(header, payload)],
        }
    }
}

/// The PONG frames among some frames, in order.
pub open spec fn pongs(frames: Seq<(FrameHeader, Seq<u8>)>) -> Seq<(FrameHeader, Seq<u8>)>
    decreases frames.len(),
{
    if frames.len() == 0 {
        Seq::empty()
    } else if frames.last().0.kind.0 == FrameKind::PONG {
        pongs(frames.drop_last()).push(frames.last())
    } else {
        pongs(frames.drop_last())
    }
}

/// The payloads of the PING frames that are read over some turns, in order.
pub open spec fn probes(turns: Seq<Turn>) -> Seq<Seq<u8>>
    decreases turns.len(),
{
    if turns.len() == 0 {
        Seq::empty()
    } else {
        match turns.last() {
            Turn::Read { header, payload, .. } if header.kind.0 == FrameKind::PING => probes(
                turns.drop_last(),
            ).push(payload),
            _ => probes(turns.drop_last()),
        }
    }
}

/// Whether some turns are those of a connection that goes on: what is read
/// breaks no rule, and calls send nothing but messages and CLOSEs.
pub open spec fn goes_on(turns: Seq<Turn>) -> bool {
    forall|i: int|
        0 <= i < turns.len() ==> match #[trigger] turns[i] {
            Turn::Read { header, payload, .. } => !(request_of(header, payload) is Violation),
            Turn::Send { header, .. } => header.kind.0 == FrameKind::MESSAGE || header.kind.0
                == FrameKind::CLOSE,
        }
}

/// Whatever else happens on a connection, the server's PONGs are exactly the
/// client's PINGs: as many, in the same order, each with its payload. No other
/// frame causes one.
pub proof fn every_probe_is_answered_once(turns: Seq<Turn>)
    requires
        goes_on(turns),
    ensures
        pongs(written(turns)) == probes(turns).map_values(|payload: Seq<u8>| pong_view(payload)),
    decreases turns.len(),
{
    let answer = |payload: Seq<u8>| pong_view(payload);
    if turns.len() == 0 {
        assert(probes(turns).map_values(answer) =~= Seq::empty());
    } else {
        let before = turns.drop_last();
        assert(goes_on(before)) by {
            assert(forall|i: int| 0 <= i < before.len() ==> #[trigger] before[i] == turns[i]);
        }
        every_probe_is_answered_once(before);
        let added = match turns.last() {
            Turn::Read { header, payload, permits } => replies_to(permits, header, payload),
            Turn::Send { header, payload } => seq![(header, payload)],
        };
        assert(turns[turns.len() - 1] == turns.last());
        if added.len() == 0 {
            assert(written(before) + added =~= written(before));
        } else {
            assert(added.len() == 1);
            assert((written(before) + added).drop_last() =~= written(before));
            assert((written(before) + added).last() == added[0]);
        }
        match turns.last() {
            Turn::Read { header, payload, .. } if header.kind.0 == FrameKind::PING => {
                assert(probes(turns).map_values(answer) =~= probes(before).map_values(answer).push(
                    pong_view(payload),
                ));
            },
            _ => {},
        }
    }
}

/// A PONG, and a CANCEL for an id that is not in flight, change nothing.
pub proof fn idle_frames_change_nothing(
    connection: ConnectionView,
    permits: Permits,
    header: FrameHeader,
    payload: Seq<u8>,
)
    requires
        header.kind.0 == FrameKind::PONG || (header.kind.0 == FrameKind::CANCEL
            && !connection.cancels.contains_key(header.call_id)),
    ensures
        after_request(connection, permits, header, payload) == (connection, permits),
        replies_to(permits, header, payload).len() == 0,
{
}

/// A CANCEL stops a stream: from then on the call's messages are refused as
/// cancelled, deadline or not.
pub proof fn cancelled_streams_stop(connection: ConnectionView, call_id: u32, expired: bool)
    requires
        connection.consistent(),
        connection.cancels.contains_key(call_id),
    ensures
        ({
            let slot = connection.cancels[call_id] as int;
            let running = connection.cancelled(call_id).slots[slot]->Some_0;
            send_refusal(running.cancelled, expired) == Some((Code::CANCELLED, "client cancelled"@))
        }),
{
}

/// A unary call is answered by a message and a successful CLOSE, or by a CLOSE
/// with a failure and nothing else; a successful CLOSE carries no detail.
pub proof fn unary_answers_are_whole(call_id: u32, outcome: Result<Seq<u8>, (u16, Seq<char>)>)
    ensures
        ({
            let answer = unary_answer(call_id, outcome);
            &&& ends_with_one_close(answer, call_id)
            &&& answer.last().0.status == Code::OK <==> outcome is Ok
            &&& outcome is Ok ==> answer.len() == 2 && answer[0].0.kind.0 == FrameKind::MESSAGE
                && answer[0].1 == outcome->Ok_0 && answer[1].1.len() == 0
            &&& outcome is Err ==> answer.len() == 1 && answer[0].0.status == failure_status(
                outcome->Err_0,
            ).0
        }),
{
}

/// How many calls run in some slots.
pub open spec fn running_count(slots: Seq<Option<Running>>) -> nat
    decreases slots.len(),
{
    if slots.len() == 0 {
        0
    } else {
        running_count(slots.drop_last()) + if slots.last() is Some {
            1nat
        } else {
            0nat
        }
    }
}

proof fn count_after_update(slots: Seq<Option<Running>>, slot: int, value: Option<Running>)
    requires
        0 <= slot < slots.len(),
    ensures
        running_count(slots.update(slot, value)) + (if slots[slot] is Some {
            1nat
        } else {
            0nat
        }) == running_count(slots) + (if value is Some {
            1nat
        } else {
            0nat
        }),
    decreases slots.len(),
{
    let after = slots.update(slot, value);
    if slot == slots.len() - 1 {
        assert(after.drop_last() =~= slots.drop_last());
    } else {
        count_after_update(slots.drop_last(), slot, value);
        assert(after.drop_last() =~= slots.drop_last().update(slot, value));
    }
}

/// Every running call holds a permit of its own: starting one takes a permit,
/// ending one returns it, and cancelling one does neither.
pub proof fn running_calls_hold_permits(
    connection: ConnectionView,
    permits: Permits,
    slot: usize,
    call_id: u32,
)
    requires
        connection.consistent(),
    ensures
        connection.is_lowest_free(slot as int) && permits.free > 0 ==> running_count(
            connection.started(slot, call_id).slots,
        ) - permits.taken().in_use() == running_count(connection.slots) - permits.in_use(),
        connection.runs(slot as int) && permits.in_use() > 0 ==> running_count(
            connection.finished(slot as int).slots,
        ) - permits.returned().in_use() == running_count(connection.slots) - permits.in_use(),
        running_count(connection.cancelled(call_id).slots) == running_count(connection.slots),
{
    let running = Some(Running { call_id, cancelled: false });
    if connection.is_lowest_free(slot as int) {
        if slot < connection.slots.len() {
            count_after_update(connection.slots, slot as int, running);
        } else {
            assert(connection.slots.push(running).drop_last() =~= connection.slots);
        }
    }
    if connection.runs(slot as int) {
        count_after_update(connection.slots, slot as int, None);
    }
    if connection.cancels.contains_key(call_id) {
        count_after_update(
            connection.slots,
            connection.cancels[call_id] as int,
            Some(Running { call_id, cancelled: true }),
        );
    }
}

/// How many calls run on all of some connections.
pub open spec fn total_running(connections: Seq<ConnectionView>) -> nat
    decreases connections.len(),
{
    if connections.len() == 0 {
        0
    } else {
        total_running(connections.drop_last()) + running_count(connections.last().slots)
    }
}

/// Whether as many calls run on a server's connections as permits are out.
pub open spec fn within_cap(connections: Seq<ConnectionView>, permits: Permits) -> bool {
    &&& permits.free <= permits.total
    &&& total_running(connections) == permits.in_use()
    &&& forall|i: int| 0 <= i < connections.len() ==> (#[trigger] connections[i]).consistent()
}

proof fn total_after_update(connections: Seq<ConnectionView>, i: int, after: ConnectionView)
    requires
        0 <= i < connections.len(),
    ensures
        total_running(connections.update(i, after)) + running_count(connections[i].slots)
            == total_running(connections) + running_count(after.slots),
        total_running(connections) >= running_count(connections[i].slots),
    decreases connections.len(),
{
    let updated = connections.update(i, after);
    if i == connections.len() - 1 {
        assert(updated.drop_last() =~= connections.drop_last());
    } else {
        total_after_update(connections.drop_last(), i, after);
        assert(updated.drop_last() =~= connections.drop_last().update(i, after));
    }
}

/// A server never runs more calls than its cap: nothing that happens on any of
/// its connections makes the calls that run outnumber the permits that are
/// out, and a call that ends always finds its permit to be out.
pub proof fn calls_stay_within_the_cap(
    connections: Seq<ConnectionView>,
    permits: Permits,
    i: int,
    slot: usize,
    call_id: u32,
)
    requires
        within_cap(connections, permits),
        0 <= i < connections.len(),
    ensures
        total_running(connections) <= permits.total,
        within_cap(
            connections.push(ConnectionView { slots: Seq::empty(), cancels: Map::empty() }),
            permits,
        ),
        connections[i].is_lowest_free(slot as int) && permits.free > 0 ==> within_cap(
            connections.update(i, connections[i].started(slot, call_id)),
            permits.taken(),
        ),
        within_cap(connections.update(i, connections[i].cancelled(call_id)), permits),
        connections[i].runs(slot as int) ==> permits.in_use() > 0 && within_cap(
            connections.update(i, connections[i].finished(slot as int)),
            permits.returned(),
        ),
{
    let connection = connections[i];
    let opened = ConnectionView { slots: Seq::empty(), cancels: Map::empty() };
    assert(connections.push(opened).drop_last() =~= connections);
    running_calls_hold_permits(connection, permits, slot, call_id);
    total_after_update(connections, i, connection.started(slot, call_id));
    total_after_update(connections, i, connection.cancelled(call_id));
    total_after_update(connections, i, connection.finished(slot as int));
    if connection.is_lowest_free(slot as int) {
        call_starts_are_consistent(connection, slot, call_id);
    }
    cancel_reaches_its_call_only(connection, call_id);
    if connection.runs(slot as int) {
        finished_calls_leave_no_trace(connection, slot as int);
        count_after_update(connection.slots, slot as int, None);
    }
}

/// A unary call that ended, however it ended, leaves nothing behind; and
/// looking after one call touches nothing of the others.
pub proof fn settled_calls_are_forgotten(
    client: ClientView,
    call_id: u32,
    expires: Option<u128>,
    response: Option<Seq<u8>>,
    now: u128,
)
    ensures
        ({
            let (after, outcome) = settled(client, call_id, expires, response, now);
            &&& !(outcome is Waiting) ==> after == client.forgotten(call_id)
            &&& after.forgotten(call_id) == client.forgotten(call_id)
        }),
    decreases
            if client.calls.contains_key(call_id) {
                client.calls[call_id].events.len()
            } else {
                0
            },
{
    assert(client.taken(call_id).forgotten(call_id) =~= client.forgotten(call_id));
    assert(client.forgotten(call_id).forgotten(call_id) =~= client.forgotten(call_id));
    if let ReceivedView::Event(EventView::Message(bytes)) = client.received(
        call_id,
        expires,
        now,
    ) {
        if response is None {
            settled_calls_are_forgotten(
                client.taken(call_id),
                call_id,
                expires,
                Some(bytes),
                now,
            );
        }
    }
}

} // verus!
