//! One call on the server: from the request bytes to the frames that answer
//! it.

use crate::frame::{Frame, FrameHeader, FrameKind};
use crate::method::{DecodeError, Message};
use crate::outlet::Outlet;
use crate::status::{Code, Status};
use crate::text::utf8_bytes;
use std::marker::PhantomData;
use vstd::prelude::*;
use vstd::utf8::encode_utf8;

verus! {

/// The CLOSE frame of a call. A successful one carries no detail.
pub open spec fn close_view(call_id: u32, status: (u16, Seq<char>)) -> (FrameHeader, Seq<u8>) {
    (
        FrameHeader::outgoing_spec(FrameKind::CLOSE, status.0, call_id),
        if status.0 == Code::OK {
            Seq::empty()
        } else {
            encode_utf8(status.1)
        },
    )
}

/// The MESSAGE frame that carries `bytes`.
pub open spec fn message_view(call_id: u32, bytes: Seq<u8>) -> (FrameHeader, Seq<u8>) {
    (FrameHeader::outgoing_spec(FrameKind::MESSAGE, 0, call_id), bytes)
}

/// The frame that ends a call with `status`.
pub fn close_frame(call_id: u32, status: &Status) -> (frame: Frame)
    ensures
        frame@ == close_view(call_id, status@),
{
    let payload: Vec<u8> = if status.is_ok() {
        Vec::new()
    } else {
        utf8_bytes(status.message.as_str())
    };
    Frame::new(FrameKind::CLOSE, status.code.0, call_id, payload)
}

/// The frame that carries one response message.
pub fn message_frame(call_id: u32, bytes: Vec<u8>) -> (frame: Frame)
    ensures
        frame@ == message_view(call_id, bytes@),
{
    Frame::new(FrameKind::MESSAGE, 0, call_id, bytes)
}

/// The status that a failed unary call is closed with. Only a call with a
/// response succeeds, so a failure that calls itself a success is reported as
/// unknown.
pub open spec fn failure_status(status: (u16, Seq<char>)) -> (u16, Seq<char>) {
    if status.0 == Code::OK {
        (Code::UNKNOWN, status.1)
    } else {
        status
    }
}

/// The frames that answer a unary call, by how its handler ended: the
/// response and a successful CLOSE, or a CLOSE with the failure.
pub open spec fn unary_answer(call_id: u32, outcome: Result<Seq<u8>, (u16, Seq<char>)>) -> Seq<
    (FrameHeader, Seq<u8>),
> {
    match outcome {
        Ok(bytes) => seq![
            message_view(call_id, bytes),
            close_view(call_id, (Code::OK, Seq::empty())),
        ],
        Err(status) => seq![close_view(call_id, failure_status(status))],
    }
}

/// The views of some frames, in order.
pub open spec fn frame_views(frames: Seq<Frame>) -> Seq<(FrameHeader, Seq<u8>)> {
    frames.map_values(|frame: Frame| frame@)
}

/// The frames, in sending order, that answer a unary call whose handler ended
/// with `outcome`.
pub fn finish_unary(call_id: u32, outcome: Result<Vec<u8>, Status>) -> (frames: Vec<Frame>)
    ensures
        frame_views(frames@) == unary_answer(
            call_id,
            match outcome {
                Ok(bytes) => Ok(bytes@),
                Err(status) => Err(status@),
            },
        ),
{
    let mut frames: Vec<Frame> = Vec::new();
    match outcome {
        Ok(bytes) => {
            frames.push(message_frame(call_id, bytes));
            frames.push(close_frame(call_id, &Status::ok()));
        },
        Err(status) => {
            let failure = if status.is_ok() {
                Status { code: Code(Code::UNKNOWN), message: status.message }
            } else {
                status
            };
            frames.push(close_frame(call_id, &failure));
        },
    }
    frames
}

/// Whether `frames` are a whole answer to a call as far as they go: any number
/// of messages, then exactly one CLOSE, all for that call.
pub open spec fn ends_with_one_close(frames: Seq<(FrameHeader, Seq<u8>)>, call_id: u32) -> bool {
    &&& frames.len() > 0
    &&& frames.last().0.kind.0 == FrameKind::CLOSE
    &&& forall|i: int|
        0 <= i < frames.len() - 1 ==> (#[trigger] frames[i]).0.kind.0 == FrameKind::MESSAGE
    &&& forall|i: int|
        0 <= i < frames.len() ==> (#[trigger] frames[i]).0.call_id == call_id
            && frames[i].0.flags == 0
}

/// Whether a stream may send another message: the status that stops it, or
/// `None`. A cancelled call is reported as such even past its deadline.
pub open spec fn send_refusal(cancelled: bool, expired: bool) -> Option<(u16, Seq<char>)> {
    if cancelled {
        Some((Code::CANCELLED, "client cancelled"@))
    } else if expired {
        Some((Code::DEADLINE_EXCEEDED, "deadline expired"@))
    } else {
        None
    }
}

/// The frame for one message of a stream, unless the client cancelled or the
/// deadline passed.
pub fn stream_message(call_id: u32, bytes: Vec<u8>, cancelled: bool, expired: bool) -> (out: Result<
    Frame,
    Status,
>)
    ensures
        match send_refusal(cancelled, expired) {
            None => out matches Ok(frame) && frame@ == message_view(call_id, bytes@),
            Some(status) => out matches Err(refusal) && refusal@ == status,
        },
{
    if cancelled {
        return Err(Status::new(Code(Code::CANCELLED), "client cancelled"));
    }
    if expired {
        return Err(Status::new(Code(Code::DEADLINE_EXCEEDED), "deadline expired"));
    }
    Ok(message_frame(call_id, bytes))
}

/// What a stream's handler is told when its message could not be written.
pub fn connection_lost() -> (status: Status)
    ensures
        status@ == (Code::UNAVAILABLE, "client connection lost"@),
{
    Status::new(Code(Code::UNAVAILABLE), "client connection lost")
}

/// The status that ends a stream, by how its handler ended.
pub open spec fn stream_status(outcome: Result<(), Status>) -> (u16, Seq<char>) {
    match outcome {
        Ok(_) => (Code::OK, Seq::empty()),
        Err(status) => status@,
    }
}

/// The frame that ends a stream whose handler ended with `outcome`.
pub fn finish_stream(call_id: u32, outcome: Result<(), Status>) -> (frame: Frame)
    ensures
        frame@ == close_view(call_id, stream_status(outcome)),
{
    match outcome {
        Ok(_) => close_frame(call_id, &Status::ok()),
        Err(status) => close_frame(call_id, &status),
    }
}

/// The frame that ends a call whose handler panicked.
pub fn finish_panicked(call_id: u32) -> (frame: Frame)
    ensures
        frame@ == close_view(call_id, (Code::INTERNAL, "handler panicked"@)),
{
    close_frame(call_id, &Status::new(Code(Code::INTERNAL), "handler panicked"))
}

/// Turns what decoding a request gave into the request, or into the status
/// that refuses it.
pub fn decoded_request<Req>(decoded: Result<Req, DecodeError>) -> (out: Result<Req, Status>)
    ensures
        match decoded {
            Ok(request) => out == Ok::<Req, Status>(request),
            Err(_) => out matches Err(status) && status@ == (
                Code::INVALID_ARGUMENT,
                "request did not decode"@,
            ),
        },
{
    match decoded {
        Ok(request) => Ok(request),
        Err(_) => Err(Status::new(Code(Code::INVALID_ARGUMENT), "request did not decode")),
    }
}

/// Serves one unary request: decodes it, runs the handler on what it decoded
/// to and encodes the response.
pub fn serve_unary<C, Req: Message, Res: Message, H: Fn(&C, Req) -> Result<Res, Status>>(
    handler: &H,
    ctx: &C,
    bytes: &[u8],
) -> (out: Result<Vec<u8>, Status>)
    requires
        forall|request: Req|
            call_ensures(Req::from_bytes, (bytes,), Ok::<Req, DecodeError>(request))
                ==> #[trigger] call_requires(*handler, (ctx, request)),
    ensures
        exists|decoded: Result<Req, DecodeError>|
            {
                &&& #[trigger] call_ensures(Req::from_bytes, (bytes,), decoded)
                &&& match decoded {
                    Err(_) => out matches Err(status) && status@ == (
                        Code::INVALID_ARGUMENT,
                        "request did not decode"@,
                    ),
                    Ok(request) => exists|answer: Result<Res, Status>|
                        {
                            &&& #[trigger] call_ensures(*handler, (ctx, request), answer)
                            &&& match answer {
                                Ok(response) => out matches Ok(reply) && call_ensures(
                                    Res::to_bytes,
                                    (&response,),
                                    reply,
                                ),
                                Err(status) => out == Err::<Vec<u8>, Status>(status),
                            }
                        },
                }
            },
{
    let decoded = Req::from_bytes(bytes);
    match decoded_request(decoded) {
        Err(status) => Err(status),
        Ok(request) => {
            let answer = handler(ctx, request);
            match answer {
                Err(status) => Err(status),
                Ok(response) => Ok(response.to_bytes()),
            }
        },
    }
}

/// Typed outgoing message stream handed to server-streaming handlers.
pub struct Sink<T: Outlet<Vec<u8>>, Res> {
    outlet: T,
    types: PhantomData<Res>,
}

impl<T: Outlet<Vec<u8>>, Res: Message> Sink<T, Res> {
    /// Where the encoded messages go.
    pub closed spec fn outlet_spec(self) -> T {
        self.outlet
    }

    /// A sink that sends what it is given through `outlet`.
    pub fn new(outlet: T) -> (sink: Self)
        ensures
            sink.outlet_spec() == outlet,
    {
        Sink { outlet, types: PhantomData }
    }

    /// The outlet, once nothing more is to be sent.
    pub fn into_outlet(self) -> (outlet: T)
        ensures
            outlet == self.outlet_spec(),
    {
        self.outlet
    }

    /// Sends one message. Fails once the client cancelled or went away;
    /// handlers should return the error as-is.
    pub fn send(&mut self, item: &Res) -> (out: Result<(), Status>)
        ensures
            exists|bytes: Vec<u8>|
                {
                    &&& #[trigger] call_ensures(Res::to_bytes, (item,), bytes)
                    &&& final(self).outlet_spec().log() == old(self).outlet_spec().log().push(
                        (bytes, out),
                    )
                },
    {
        self.outlet.offer(item.to_bytes())
    }
}

/// Serves one streaming request: decodes it and runs the handler on what it
/// decoded to, with a sink for the messages. Gives `raw` back as the handler
/// left it; a request that did not decode sends nothing.
pub fn serve_stream<
    C,
    Req: Message,
    Res: Message,
    T: Outlet<Vec<u8>>,
    H: Fn(&C, Req, &mut Sink<T, Res>) -> Result<(), Status>,
>(handler: &H, ctx: &C, bytes: &[u8], raw: T) -> (ended: (Result<(), Status>, T))
    requires
        forall|request: Req, sink: &mut Sink<T, Res>|
            call_ensures(Req::from_bytes, (bytes,), Ok::<Req, DecodeError>(request))
                && sink.outlet_spec() == raw ==> #[trigger] call_requires(
                *handler,
                (ctx, request, sink),
            ),
    ensures
        exists|decoded: Result<Req, DecodeError>|
            {
                &&& #[trigger] call_ensures(Req::from_bytes, (bytes,), decoded)
                &&& match decoded {
                    Err(_) => {
                        &&& ended.0 matches Err(status)
                        &&& status@ == (Code::INVALID_ARGUMENT, "request did not decode"@)
                        &&& ended.1 == raw
                    },
                    Ok(request) => exists|sink: &mut Sink<T, Res>|
                        {
                            &&& #[trigger] call_ensures(*handler, (ctx, request, sink), ended.0)
                            &&& sink.outlet_spec() == raw
                            &&& final(sink).outlet_spec() == ended.1
                        },
                }
            },
{
    let decoded = Req::from_bytes(bytes);
    match decoded_request(decoded) {
        Err(status) => (Err(status), raw),
        Ok(request) => {
            let mut sink = Sink::<T, Res>::new(raw);
            let out = handler(ctx, request, &mut sink);
            (out, sink.into_outlet())
        },
    }
}

/// A CLOSE says which call it ends and with which code; the detail is its
/// payload, unless the call succeeded. A MESSAGE carries its bytes as they are.
pub proof fn answers_say_what_they_mean(
    call_id: u32,
    code: u16,
    detail: Seq<char>,
    bytes: Seq<u8>,
)
    ensures
        ({
            let (header, payload) = close_view(call_id, (code, detail));
            &&& header.kind.0 == 2
            &&& header.flags == 0
            &&& header.status == code
            &&& header.call_id == call_id
            &&& code == 0 ==> payload.len() == 0
            &&& code != 0 ==> payload == encode_utf8(detail)
        }),
        ({
            let (header, payload) = message_view(call_id, bytes);
            &&& header.kind.0 == 1
            &&& header.flags == 0
            &&& header.status == 0
            &&& header.call_id == call_id
            &&& payload == bytes
        }),
{
}

/// A failed unary call is closed with exactly the code and detail that its
/// handler failed with; one that names no failure is closed as unknown, with
/// its detail.
pub proof fn failures_keep_their_status(call_id: u32, code: u16, detail: Seq<char>)
    ensures
        ({
            let answer = unary_answer(call_id, Err((code, detail)));
            &&& answer.len() == 1
            &&& answer[0].0.kind.0 == 2
            &&& answer[0].0.call_id == call_id
            &&& code != 0 ==> answer[0].0.status == code
            &&& code == 0 ==> answer[0].0.status == 2
            &&& answer[0].1 == encode_utf8(detail)
        }),
        code != 0 ==> failure_status((code, detail)) == (code, detail),
{
}

/// A stream is closed with exactly the status that its handler failed with,
/// and as a success where it did not fail.
pub proof fn streams_keep_their_status(outcome: Result<(), Status>)
    ensures
        outcome is Ok ==> stream_status(outcome).0 == 0,
        outcome matches Err(status) ==> stream_status(outcome).0 == status.code.0
            && stream_status(outcome).1 == status.message@,
        stream_status(outcome).0 == 0 ==> (outcome matches Err(status) ==> status.code.0 == 0),
{
}

/// A stream's message is refused exactly when the client cancelled or the
/// deadline passed, and each refusal says which of them it was.
pub proof fn refusals_have_a_reason(cancelled: bool, expired: bool)
    ensures
        send_refusal(cancelled, expired) is None <==> !cancelled && !expired,
        cancelled ==> send_refusal(cancelled, expired) == Some((1u16, "client cancelled"@)),
        !cancelled && expired ==> send_refusal(cancelled, expired) == Some(
            (4u16, "deadline expired"@),
        ),
{
}

/// Of a whole answer the last frame is a CLOSE and every other is a MESSAGE,
/// all of the same call.
pub proof fn whole_answers_close_once(frames: Seq<(FrameHeader, Seq<u8>)>, call_id: u32, i: int)
    requires
        ends_with_one_close(frames, call_id),
        0 <= i < frames.len(),
    ensures
        frames[i].0.kind.0 == 2 <==> i == frames.len() - 1,
        frames[i].0.kind.0 == 1 <==> i < frames.len() - 1,
        frames[i].0.call_id == call_id,
{
}

/// The views of frames are those of each frame, in order.
pub proof fn views_keep_their_order(frames: Seq<Frame>, i: int)
    ensures
        frame_views(frames).len() == frames.len(),
        0 <= i < frames.len() ==> frame_views(frames)[i] == (frames[i].header, frames[i].payload@),
{
}

} // verus!
