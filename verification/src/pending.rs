//! Calls in flight on the client: what a unary call and a stream make of the
//! events that reach them.

use crate::client::{
    cancel_view, disconnect_status, start_outcome, timeout_status, Client, ClientView, Event,
    EventView, Received, ReceivedView,
};
use crate::context::{expires_at, expiry};
use crate::error::{is_protocol, is_status, RpcError};
use crate::frame::Frame;
use crate::method::{DecodeError, Message, Method, StreamMethod};
use crate::status::Code;
use std::marker::PhantomData;
use vstd::prelude::*;

verus! {

/// A unary call that waits for its response.
#[derive(Debug)]
pub struct UnaryCall {
    pub call_id: u32,
    /// When the caller gives up.
    pub expires: Option<u128>,
    /// The response, once it arrived.
    pub response: Option<Vec<u8>>,
}

/// How far a unary call came.
#[derive(Debug)]
pub enum CallStep {
    /// Nothing arrived: look again after a while.
    Wait(UnaryCall),
    /// Something arrived, but not the end: look again now.
    More(UnaryCall),
    /// The call succeeded with this response.
    Done(Vec<u8>),
    /// The call failed. The frame, if any, tells the server to stop.
    Failed(RpcError, Option<Frame>),
}

/// Whether `step` reports the failure `status`, and whether it also tells the
/// server to stop.
pub open spec fn fails_with(step: CallStep, status: (u16, Seq<char>), cancels: Option<u32>) -> bool {
    &&& step matches CallStep::Failed(err, frame)
    &&& is_status(err, status.0, status.1)
    &&& sends_cancel(frame, cancels)
}

/// Whether `frame` is the CANCEL frame of the given call, or absent for none.
pub open spec fn sends_cancel(frame: Option<Frame>, call_id: Option<u32>) -> bool {
    match call_id {
        Some(call_id) => frame matches Some(frame) && frame@ == cancel_view(call_id),
        None => frame is None,
    }
}

/// The response bytes a unary call holds so far.
pub open spec fn response_bytes(response: Option<Vec<u8>>) -> Option<Seq<u8>> {
    match response {
        None => None,
        Some(bytes) => Some(bytes@),
    }
}

/// Where a unary call stands once it took everything that had arrived.
pub ghost enum Settled {
    /// It goes on, with this response so far.
    Waiting(Option<Seq<u8>>),
    /// It succeeded.
    Done(Seq<u8>),
    /// It failed with a status; `cancels` says whether the server is told.
    Status { status: (u16, Seq<char>), cancels: bool },
    /// The server broke the protocol; `cancels` says whether it is told.
    Protocol { what: Seq<char>, cancels: bool },
}

/// Where a unary call stands at `now` once it took everything that had
/// arrived, and what that leaves of the client.
pub open spec fn settled(
    client: ClientView,
    call_id: u32,
    expires: Option<u128>,
    response: Option<Seq<u8>>,
    now: u128,
) -> (ClientView, Settled)
    decreases
            if client.calls.contains_key(call_id) {
                client.calls[call_id].events.len()
            } else {
                0
            },
{
    match client.received(call_id, expires, now) {
        ReceivedView::Wait => (client, Settled::Waiting(response)),
        ReceivedView::Event(EventView::Message(bytes)) => if response is None {
            settled(client.taken(call_id), call_id, expires, Some(bytes), now)
        } else {
            (
                client.taken(call_id).forgotten(call_id),
                Settled::Protocol { what: "second message on a unary call"@, cancels: true },
            )
        },
        ReceivedView::Event(EventView::Close(status)) => (
            client.taken(call_id).forgotten(call_id),
            if status.0 != Code::OK {
                Settled::Status { status, cancels: false }
            } else {
                match response {
                    None => Settled::Protocol {
                        what: "CLOSE(ok) without a response message"@,
                        cancels: false,
                    },
                    Some(bytes) => Settled::Done(bytes),
                }
            },
        ),
        ReceivedView::Disconnected => (
            client.forgotten(call_id),
            Settled::Status { status: disconnect_status(), cancels: true },
        ),
        ReceivedView::TimedOut => (
            client.forgotten(call_id),
            Settled::Status { status: timeout_status(), cancels: true },
        ),
    }
}

/// Whether `step` says what `outcome` says of the call.
pub open spec fn reports(step: CallStep, call: UnaryCall, outcome: Settled) -> bool {
    match outcome {
        Settled::Waiting(response) => {
            &&& step matches CallStep::Wait(waiting)
            &&& waiting.call_id == call.call_id
            &&& waiting.expires == call.expires
            &&& response_bytes(waiting.response) == response
        },
        Settled::Done(bytes) => step matches CallStep::Done(response) && response@ == bytes,
        Settled::Status { status, cancels } => fails_with(
            step,
            status,
            if cancels {
                Some(call.call_id)
            } else {
                None
            },
        ),
        Settled::Protocol { what, cancels } => {
            &&& step matches CallStep::Failed(err, frame)
            &&& is_protocol(err, what)
            &&& sends_cancel(
                frame,
                if cancels {
                    Some(call.call_id)
                } else {
                    None
                },
            )
        },
    }
}

impl UnaryCall {
    /// Takes everything that arrived for the call by `now`, up to its end.
    pub fn settle(self, client: &mut Client, now: u128) -> (step: CallStep)
        ensures
            ({
                let (after, outcome) = settled(
                    old(client)@,
                    self.call_id,
                    self.expires,
                    response_bytes(self.response),
                    now,
                );
                reports(step, self, outcome) && final(client)@ == after
            }),
    {
        proof {
            reveal_with_fuel(settled, 3);
        }
        match self.step(client, now) {
            CallStep::More(call) => match call.step(client, now) {
                CallStep::More(call) => {
                    // The response is in: whatever comes next ends the call.
                    assert(false);
                    CallStep::Wait(call)
                },
                step => step,
            },
            step => step,
        }
    }

    /// Looks after the call at `now`.
    ///
    /// The first message is the response and a second one breaks the protocol;
    /// a CLOSE ends the call, with the response if all went well. Expiry and
    /// disconnection end it from this side.
    pub fn step(self, client: &mut Client, now: u128) -> (step: CallStep)
        ensures
            match old(client)@.received(self.call_id, self.expires, now) {
                ReceivedView::Wait => {
                    &&& step == CallStep::Wait(self)
                    &&& final(client)@ == old(client)@
                },
                ReceivedView::Event(EventView::Message(bytes)) => if self.response is None {
                    &&& step matches CallStep::More(call)
                    &&& call.call_id == self.call_id
                    &&& call.expires == self.expires
                    &&& response_bytes(call.response) == Some(bytes)
                    &&& final(client)@ == old(client)@.taken(self.call_id)
                } else {
                    &&& step matches CallStep::Failed(err, frame)
                    &&& is_protocol(err, "second message on a unary call"@)
                    &&& sends_cancel(frame, Some(self.call_id))
                    &&& final(client)@ == old(client)@.taken(self.call_id).forgotten(self.call_id)
                },
                ReceivedView::Event(EventView::Close(status)) => {
                    &&& final(client)@ == old(client)@.taken(self.call_id).forgotten(self.call_id)
                    &&& if status.0 != Code::OK {
                        fails_with(step, status, None)
                    } else {
                        match self.response {
                            None => {
                                &&& step matches CallStep::Failed(err, frame)
                                &&& is_protocol(err, "CLOSE(ok) without a response message"@)
                                &&& frame is None
                            },
                            Some(bytes) => step == CallStep::Done(bytes),
                        }
                    }
                },
                ReceivedView::Disconnected => {
                    &&& fails_with(step, disconnect_status(), Some(self.call_id))
                    &&& final(client)@ == old(client)@.forgotten(self.call_id)
                },
                ReceivedView::TimedOut => {
                    &&& fails_with(step, timeout_status(), Some(self.call_id))
                    &&& final(client)@ == old(client)@.forgotten(self.call_id)
                },
            },
    {
        match client.recv(self.call_id, self.expires, now) {
            Received::Wait => CallStep::Wait(self),
            Received::Failed(err) => {
                let frame = client.cancel(self.call_id);
                CallStep::Failed(err, Some(frame))
            },
            Received::Event(Event::Message(bytes)) => {
                if self.response.is_some() {
                    let frame = client.cancel(self.call_id);
                    return CallStep::Failed(
                        RpcError::Protocol(String::from_str("second message on a unary call")),
                        Some(frame),
                    );
                }
                CallStep::More(
                    UnaryCall {
                        call_id: self.call_id,
                        expires: self.expires,
                        response: Some(bytes),
                    },
                )
            },
            Received::Event(Event::Close(status)) => {
                client.forget(self.call_id);
                if !status.is_ok() {
                    return CallStep::Failed(RpcError::Status(status), None);
                }
                match self.response {
                    None => CallStep::Failed(
                        RpcError::Protocol(
                            String::from_str("CLOSE(ok) without a response message"),
                        ),
                        None,
                    ),
                    Some(bytes) => CallStep::Done(bytes),
                }
            },
        }
    }
}

/// Turns what decoding a response gave into the call's result.
pub fn decoded_response<Res>(decoded: Result<Res, DecodeError>) -> (out: Result<Res, RpcError>)
    ensures
        out == match decoded {
            Ok(response) => Ok::<Res, RpcError>(response),
            Err(err) => Err::<Res, RpcError>(RpcError::Decode(err)),
        },
{
    match decoded {
        Ok(response) => Ok(response),
        Err(err) => Err(RpcError::Decode(err)),
    }
}

/// Decodes a response.
pub fn decode_response<Res: Message>(bytes: &[u8]) -> (out: Result<Res, RpcError>)
    ensures
        exists|decoded: Result<Res, DecodeError>|
            {
                &&& #[trigger] call_ensures(Res::from_bytes, (bytes,), decoded)
                &&& out == match decoded {
                    Ok(response) => Ok::<Res, RpcError>(response),
                    Err(err) => Err::<Res, RpcError>(RpcError::Decode(err)),
                }
            },
{
    decoded_response(Res::from_bytes(bytes))
}

/// Messages of one server-streaming call, in arrival order.
pub struct Streaming<Res> {
    pub call_id: u32,
    /// When the caller gives up.
    pub expires: Option<u128>,
    /// Whether the stream is over.
    pub finished: bool,
    pub types: PhantomData<Res>,
}

/// What a stream yields.
#[derive(Debug)]
pub enum StreamStep<Res> {
    /// Nothing arrived: look again after a while.
    Wait,
    /// The next message.
    Item(Res),
    /// The stream is over.
    End,
    /// The stream failed. The frame, if any, tells the server to stop.
    Failed(RpcError, Option<Frame>),
}

/// Whether `step` reports the failure `status`, and whether it also tells the
/// server to stop.
pub open spec fn stream_fails_with<Res>(
    step: StreamStep<Res>,
    status: (u16, Seq<char>),
    cancels: Option<u32>,
) -> bool {
    &&& step matches StreamStep::Failed(err, frame)
    &&& is_status(err, status.0, status.1)
    &&& sends_cancel(frame, cancels)
}

/// What a stream does about a message, by what decoding it gave.
pub open spec fn item_outcome<Res>(
    before: (Streaming<Res>, ClientView),
    after: (Streaming<Res>, ClientView),
    decoded: Result<Res, DecodeError>,
    step: StreamStep<Res>,
) -> bool {
    match decoded {
        Ok(item) => {
            &&& step == StreamStep::Item(item)
            &&& after == before
        },
        Err(err) => {
            &&& step matches StreamStep::Failed(failure, frame)
            &&& failure == RpcError::Decode(err)
            &&& after.0 == (Streaming { finished: true, ..before.0 })
            &&& if before.0.finished {
                frame is None && after.1 == before.1
            } else {
                sends_cancel(frame, Some(before.0.call_id)) && after.1 == before.1.forgotten(
                    before.0.call_id,
                )
            }
        },
    }
}

impl<Res: Message> Streaming<Res> {
    /// Stops the stream early; the server sees a CANCEL frame, unless the
    /// stream is over already.
    pub fn cancel(self, client: &mut Client) -> (frame: Option<Frame>)
        ensures
            if self.finished {
                frame is None && final(client)@ == old(client)@
            } else {
                sends_cancel(frame, Some(self.call_id)) && final(client)@ == old(client)@.forgotten(
                    self.call_id,
                )
            },
    {
        let mut stream = self;
        stream.finish_early(client)
    }

    /// Ends the stream from this side, if it is not over.
    pub fn finish_early(&mut self, client: &mut Client) -> (frame: Option<Frame>)
        ensures
            *final(self) == (Streaming { finished: true, ..*old(self) }),
            if old(self).finished {
                frame is None && final(client)@ == old(client)@
            } else {
                sends_cancel(frame, Some(old(self).call_id)) && final(client)@ == old(
                    client,
                )@.forgotten(old(self).call_id)
            },
    {
        if self.finished {
            return None;
        }
        self.finished = true;
        Some(client.cancel(self.call_id))
    }

    /// Yields a message, or ends the stream over one that did not decode.
    pub fn on_item(&mut self, client: &mut Client, decoded: Result<Res, DecodeError>) -> (step:
        StreamStep<Res>)
        ensures
            item_outcome(
                (*old(self), old(client)@),
                (*final(self), final(client)@),
                decoded,
                step,
            ),
    {
        match decoded {
            Ok(item) => StreamStep::Item(item),
            Err(err) => {
                let frame = self.finish_early(client);
                StreamStep::Failed(RpcError::Decode(err), frame)
            },
        }
    }

    /// The next of the stream at `now`. Once the stream is over it stays so.
    pub fn next(&mut self, client: &mut Client, now: u128) -> (step: StreamStep<Res>)
        ensures
            if old(self).finished {
                &&& step is End
                &&& *final(self) == *old(self)
                &&& final(client)@ == old(client)@
            } else {
                match old(client)@.received(old(self).call_id, old(self).expires, now) {
                    ReceivedView::Wait => {
                        &&& step is Wait
                        &&& *final(self) == *old(self)
                        &&& final(client)@ == old(client)@
                    },
                    ReceivedView::Event(EventView::Message(bytes)) => exists|
                        data: &[u8],
                        decoded: Result<Res, DecodeError>,
                    |
                        {
                            &&& data@ == bytes
                            &&& #[trigger] call_ensures(Res::from_bytes, (data,), decoded)
                            &&& item_outcome(
                                (*old(self), old(client)@.taken(old(self).call_id)),
                                (*final(self), final(client)@),
                                decoded,
                                step,
                            )
                        },
                    ReceivedView::Event(EventView::Close(status)) => {
                        &&& *final(self) == (Streaming { finished: true, ..*old(self) })
                        &&& final(client)@ == old(client)@.taken(old(self).call_id).forgotten(
                            old(self).call_id,
                        )
                        &&& if status.0 == Code::OK {
                            step is End
                        } else {
                            stream_fails_with(step, status, None)
                        }
                    },
                    ReceivedView::Disconnected => {
                        &&& *final(self) == (Streaming { finished: true, ..*old(self) })
                        &&& final(client)@ == old(client)@.forgotten(old(self).call_id)
                        &&& stream_fails_with(step, disconnect_status(), Some(old(self).call_id))
                    },
                    ReceivedView::TimedOut => {
                        &&& *final(self) == (Streaming { finished: true, ..*old(self) })
                        &&& final(client)@ == old(client)@.forgotten(old(self).call_id)
                        &&& stream_fails_with(step, timeout_status(), Some(old(self).call_id))
                    },
                }
            },
    {
        if self.finished {
            return StreamStep::End;
        }
        match client.recv(self.call_id, self.expires, now) {
            Received::Wait => StreamStep::Wait,
            Received::Failed(err) => {
                let frame = self.finish_early(client);
                StreamStep::Failed(err, frame)
            },
            Received::Event(Event::Message(bytes)) => {
                let decoded = Res::from_bytes(bytes.as_slice());
                self.on_item(client, decoded)
            },
            Received::Event(Event::Close(status)) => {
                self.finished = true;
                client.forget(self.call_id);
                if status.is_ok() {
                    StreamStep::End
                } else {
                    StreamStep::Failed(RpcError::Status(status), None)
                }
            },
        }
    }
}

impl Client {
    /// Begins a unary call at `now`. `patience` bounds the wait locally *and*
    /// travels in the CALL frame, so the server stops working on a call nobody
    /// is waiting for.
    pub fn call<Req: Message, Res: Message>(
        &mut self,
        method: Method<Req, Res>,
        request: &Req,
        patience: Option<u128>,
        now: u128,
    ) -> (out: Result<(UnaryCall, Frame), RpcError>)
        requires
            patience matches Some(nanos) ==> now + nanos <= u128::MAX,
        ensures
            exists|body: Vec<u8>|
                {
                    &&& #[trigger] call_ensures(Req::to_bytes, (request,), body)
                    &&& start_outcome(
                        old(self)@,
                        final(self)@,
                        method.id,
                        body@,
                        patience,
                        match out {
                            Ok((call, frame)) => Ok((call.call_id, frame)),
                            Err(err) => Err(err),
                        },
                    )
                },
            out matches Ok((call, _)) ==> call.expires == expiry(now, patience) && call.response is None,
    {
        let body = request.to_bytes();
        let expires = expires_at(now, patience);
        match self.start(method.id, body.as_slice(), patience) {
            Err(err) => Err(err),
            Ok((call_id, frame)) => Ok((UnaryCall { call_id, expires, response: None }, frame)),
        }
    }

    /// Begins a server-streaming call at `now`. The returned [`Streaming`]
    /// yields messages as they arrive and reports how the call ended.
    pub fn server_stream<Req: Message, Res: Message>(
        &mut self,
        method: StreamMethod<Req, Res>,
        request: &Req,
        patience: Option<u128>,
        now: u128,
    ) -> (out: Result<(Streaming<Res>, Frame), RpcError>)
        requires
            patience matches Some(nanos) ==> now + nanos <= u128::MAX,
        ensures
            exists|body: Vec<u8>|
                {
                    &&& #[trigger] call_ensures(Req::to_bytes, (request,), body)
                    &&& start_outcome(
                        old(self)@,
                        final(self)@,
                        method.id,
                        body@,
                        patience,
                        match out {
                            Ok((stream, frame)) => Ok((stream.call_id, frame)),
                            Err(err) => Err(err),
                        },
                    )
                },
            out matches Ok((stream, _)) ==> stream.expires == expiry(now, patience)
                && !stream.finished,
    {
        let body = request.to_bytes();
        let expires = expires_at(now, patience);
        match self.start(method.id, body.as_slice(), patience) {
            Err(err) => Err(err),
            Ok((call_id, frame)) => Ok(
                (Streaming { call_id, expires, finished: false, types: PhantomData }, frame),
            ),
        }
    }
}

/// How a unary call ends, by what comes next for it. The first message is its
/// response; a CLOSE ends it with the response, or with the failure that it
/// carries; a second message, a success without a response, a lost connection
/// and a deadline that passed end it as failures. Otherwise it waits.
pub proof fn unary_calls_end_by_what_comes(
    client: ClientView,
    call_id: u32,
    expires: Option<u128>,
    response: Option<Seq<u8>>,
    now: u128,
)
    ensures
        ({
            let known = client.calls.contains_key(call_id);
            let events = client.calls[call_id].events;
            let waiting = known && events.len() > 0;
            let gone = client.closed || !known || !client.calls[call_id].open;
            let late = expires matches Some(at) && now >= at;
            let outcome = settled(client, call_id, expires, response, now).1;
            &&& waiting && response is Some ==> (events[0] matches EventView::Message(_)
                ==> outcome == (Settled::Protocol {
                what: "second message on a unary call"@,
                cancels: true,
            }))
            &&& waiting && response is None ==> (events[0] matches EventView::Message(bytes)
                ==> settled(client, call_id, expires, response, now) == settled(
                client.taken(call_id),
                call_id,
                expires,
                Some(bytes),
                now,
            ))
            &&& waiting ==> (events[0] matches EventView::Close(status) ==> {
                &&& status.0 != 0 ==> outcome == (Settled::Status { status, cancels: false })
                &&& status.0 == 0 && response is Some ==> outcome == Settled::Done(
                    response->Some_0,
                )
                &&& status.0 == 0 && response is None ==> outcome == (Settled::Protocol {
                    what: "CLOSE(ok) without a response message"@,
                    cancels: false,
                })
            })
            &&& !waiting && gone ==> outcome == (Settled::Status {
                status: (14u16, "connection closed mid-call"@),
                cancels: true,
            })
            &&& !waiting && !gone && late ==> outcome == (Settled::Status {
                status: (4u16, "deadline exceeded"@),
                cancels: true,
            })
            &&& !waiting && !gone && !late ==> settled(client, call_id, expires, response, now)
                == (client, Settled::Waiting(response))
        }),
{
    reveal_with_fuel(settled, 2);
}

/// What a unary call reports is what became of it: the response as it came,
/// the failure's own status, the violation by its name. The server is told with
/// a CANCEL where it may still be at work, and not otherwise.
pub proof fn reports_say_what_happened(step: CallStep, call: UnaryCall, outcome: Settled)
    requires
        reports(step, call, outcome),
    ensures
        outcome matches Settled::Done(bytes) ==> (step matches CallStep::Done(response)
            && response@ == bytes),
        outcome matches Settled::Waiting(response) ==> {
            &&& step matches CallStep::Wait(waiting)
            &&& waiting.call_id == call.call_id
            &&& waiting.expires == call.expires
            &&& response is None <==> waiting.response is None
            &&& response matches Some(bytes) ==> waiting.response->Some_0@ == bytes
        },
        outcome matches Settled::Status { status, cancels } ==> {
            &&& step matches CallStep::Failed(RpcError::Status(seen), frame)
            &&& seen.code.0 == status.0
            &&& seen.message@ == status.1
            &&& frame is Some <==> cancels
            &&& frame matches Some(cancel) ==> cancel.header.kind.0 == 3
                && cancel.header.call_id == call.call_id && cancel.header.flags == 0
                && cancel.payload@.len() == 0
        },
        outcome matches Settled::Protocol { what, cancels } ==> {
            &&& step matches CallStep::Failed(RpcError::Protocol(seen), frame)
            &&& seen@ == what
            &&& frame is Some <==> cancels
            &&& frame matches Some(cancel) ==> cancel.header.kind.0 == 3
                && cancel.header.call_id == call.call_id && cancel.header.flags == 0
                && cancel.payload@.len() == 0
        },
{
}

/// A response so far is the bytes that came, or nothing.
pub proof fn responses_are_their_bytes(bytes: Vec<u8>)
    ensures
        response_bytes(None) is None,
        response_bytes(Some(bytes)) == Some(bytes@),
{
}

/// A failure that is reported has the given status, and a CANCEL for the given
/// call beside it, or none.
pub proof fn failed_steps_say_why<Res>(
    step: CallStep,
    stream: StreamStep<Res>,
    status: (u16, Seq<char>),
    cancels: Option<u32>,
)
    ensures
        fails_with(step, status, cancels) ==> {
            &&& step matches CallStep::Failed(RpcError::Status(seen), frame)
            &&& seen.code.0 == status.0 && seen.message@ == status.1
            &&& sends_cancel(frame, cancels)
        },
        stream_fails_with(stream, status, cancels) ==> {
            &&& stream matches StreamStep::Failed(RpcError::Status(seen), frame)
            &&& seen.code.0 == status.0 && seen.message@ == status.1
            &&& sends_cancel(frame, cancels)
        },
{
}

/// A CANCEL is sent for exactly the call that is given up, if one is.
pub proof fn cancels_are_sent_for_one_call(frame: Option<Frame>, call_id: Option<u32>)
    requires
        sends_cancel(frame, call_id),
    ensures
        frame is Some <==> call_id is Some,
        frame matches Some(cancel) ==> cancel.header.kind.0 == 3 && cancel.header.call_id
            == call_id->Some_0 && cancel.header.flags == 0 && cancel.header.status == 0
            && cancel.payload@.len() == 0,
{
}

/// A message of a stream is yielded as it decoded and the stream goes on; one
/// that did not decode ends the stream, which the server is told.
pub proof fn items_are_yielded_or_end_the_stream<Res>(
    before: (Streaming<Res>, ClientView),
    after: (Streaming<Res>, ClientView),
    decoded: Result<Res, DecodeError>,
    step: StreamStep<Res>,
)
    requires
        item_outcome(before, after, decoded, step),
    ensures
        decoded matches Ok(item) ==> step == StreamStep::Item(item) && after == before,
        decoded matches Err(err) ==> {
            &&& step matches StreamStep::Failed(RpcError::Decode(seen), frame)
            &&& seen == err
            &&& after.0.finished
            &&& after.0.call_id == before.0.call_id
            &&& frame is Some <==> !before.0.finished
            &&& !before.0.finished ==> !after.1.calls.contains_key(before.0.call_id)
            &&& before.0.finished ==> after.1 == before.1
        },
{
}

} // verus!
