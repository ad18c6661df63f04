//! The server's decisions on concrete values: routing, answers, connections
//! and caps.

use std::cell::{Cell, RefCell};

use nanorpc::call::{
    close_frame, connection_lost, decoded_request, finish_panicked, finish_stream, finish_unary,
    message_frame, serve_stream, serve_unary, stream_message,
};
use nanorpc::frame::{Frame, FrameHeader, FrameKind, MAX_FRAME_LEN, PREFACE};
use nanorpc::limit::Semaphore;
use nanorpc::method::{method_id, DecodeError};
use nanorpc::router::{Conflict, Dispatch, Handler};
use nanorpc::server::{
    run_call, Call, Connection, ServerAction, DEFAULT_MAX_CALLS, DEFAULT_MAX_CONNECTIONS,
};
use nanorpc::{
    CallOutlet, Code, Message, Method, Outbox, Outlet, Router, Server, Sink, Status, StreamMethod,
};

struct Raw(Vec<u8>);

impl Message for Raw {
    fn to_bytes(&self) -> Vec<u8> {
        self.0.clone()
    }
    fn from_bytes(data: &[u8]) -> Result<Self, DecodeError> {
        Ok(Raw(data.to_vec()))
    }
}

type Sender = fn(Vec<u8>) -> Result<(), Status>;
type Unary = fn(&u8, &[u8]) -> Result<Vec<u8>, Status>;
type Outgoing = Outbox<Vec<u8>, Result<(), Status>, Sender>;
type Streamed = fn(&u8, &[u8], Outgoing) -> (Result<(), Status>, Outgoing);

fn reversed(_ctx: &u8, bytes: &[u8]) -> Result<Vec<u8>, Status> {
    Ok(bytes.iter().rev().copied().collect())
}

fn denied(_ctx: &u8, _bytes: &[u8]) -> Result<Vec<u8>, Status> {
    Err(Status::new(Code(Code::PERMISSION_DENIED), "no"))
}

fn pretended(_ctx: &u8, _bytes: &[u8]) -> Result<Vec<u8>, Status> {
    Err(Status::new(Code(Code::OK), "x"))
}

fn forwarded(_ctx: &u8, bytes: &[u8], mut raw: Outgoing) -> (Result<(), Status>, Outgoing) {
    (raw.offer(bytes.to_vec()), raw)
}

fn accept(_bytes: Vec<u8>) -> Result<(), Status> {
    Ok(())
}

fn lose(_bytes: Vec<u8>) -> Result<(), Status> {
    Err(connection_lost())
}

fn router() -> Router<Unary, Streamed> {
    Router::new()
        .unary(Method::<Raw, Raw>::new("t/reversed"), reversed as Unary)
        .unary(Method::<Raw, Raw>::new("t/denied"), denied as Unary)
        .unary(Method::<Raw, Raw>::new("t/pretended"), pretended as Unary)
        .stream(StreamMethod::<Raw, Raw>::new("t/forwarded"), forwarded as Streamed)
}

fn run(path: &str, cancelled: bool, raw: Sender) -> Vec<Frame> {
    let raw = Outbox::new(raw);
    run_call(&router(), &0, 6, method_id(path), cancelled, &[1, 2, 3], raw).0
}

fn close(code: u16, detail: &str) -> Frame {
    Frame::new(FrameKind::CLOSE, code, 6, detail.as_bytes().to_vec())
}

#[test]
fn unary_calls_end_with_one_close() {
    assert_eq!(
        run("t/reversed", false, accept),
        vec![Frame::new(FrameKind::MESSAGE, 0, 6, vec![3, 2, 1]), close(0, "")]
    );
    assert_eq!(run("t/denied", false, accept), vec![close(7, "no")]);
}

#[test]
fn successful_closes_are_empty() {
    assert_eq!(run("t/reversed", false, accept)[1], close(0, ""));
    assert_eq!(close_frame(6, &Status::new(Code(0), "detail")), close(0, ""));
    assert_eq!(close_frame(6, &Status::new(Code(99), "d\u{e9}tail")), close(99, "d\u{e9}tail"));
}

#[test]
fn unary_calls_succeed_only_with_a_response() {
    assert_eq!(run("t/pretended", false, accept), vec![close(2, "x")]);
    assert_eq!(
        finish_unary(6, Err(Status::new(Code(Code::OK), ""))),
        vec![close(2, "")]
    );
}

#[test]
fn streams_end_with_one_close() {
    assert_eq!(run("t/forwarded", false, accept), vec![close(0, "")]);
    assert_eq!(run("t/forwarded", false, lose), vec![close(14, "client connection lost")]);
    assert_eq!(finish_stream(6, Ok(())), close(0, ""));
    assert_eq!(
        finish_stream(6, Err(Status::new(Code(Code::ABORTED), "enough"))),
        close(10, "enough")
    );
}

#[test]
fn unknown_methods_are_closed() {
    assert_eq!(
        run_call(&router(), &0, 6, 0x1f, false, &[], Outbox::new(accept as Sender)).0,
        vec![close(12, "unknown method 0x000000000000001f")]
    );
    // Unknown comes before cancelled.
    assert_eq!(
        run_call(&router(), &0, 6, 0x1f, true, &[], Outbox::new(accept as Sender)).0,
        vec![close(12, "unknown method 0x000000000000001f")]
    );
}

#[test]
fn cancelled_calls_are_closed() {
    assert_eq!(
        run("t/reversed", true, accept),
        vec![close(4, "deadline expired before dispatch")]
    );
    assert_eq!(
        run("t/forwarded", true, lose),
        vec![close(4, "deadline expired before dispatch")]
    );
}

type Recorder = fn(&Cell<u32>, &[u8]) -> Result<Vec<u8>, Status>;
type StreamRecorder = fn(&Cell<u32>, &[u8], u8) -> (Result<(), Status>, u8);

fn record(runs: &Cell<u32>, _bytes: &[u8]) -> Result<Vec<u8>, Status> {
    runs.set(runs.get() + 1);
    Ok(vec![])
}

fn record_stream(runs: &Cell<u32>, _bytes: &[u8], raw: u8) -> (Result<(), Status>, u8) {
    runs.set(runs.get() + 1);
    (Ok(()), raw + 1)
}

#[test]
fn handlers_of_cancelled_calls_leave_no_trace() {
    let router: Router<Recorder, StreamRecorder> = Router::new()
        .unary(Method::<Raw, Raw>::new("t/unary"), record as Recorder)
        .stream(StreamMethod::<Raw, Raw>::new("t/stream"), record_stream as StreamRecorder);
    let runs = Cell::new(0);
    for path in ["t/unary", "t/stream", "t/unknown"] {
        assert_eq!(run_call(&router, &runs, 6, method_id(path), true, &[], 40).1, 40);
    }
    assert_eq!(runs.get(), 0);
    for (path, raw) in [("t/unary", 40), ("t/stream", 41), ("t/unknown", 40)] {
        assert_eq!(run_call(&router, &runs, 6, method_id(path), false, &[], 40).1, raw);
    }
    assert_eq!(runs.get(), 2);
}

struct Never;

impl Message for Never {
    fn to_bytes(&self) -> Vec<u8> {
        vec![]
    }
    fn from_bytes(_data: &[u8]) -> Result<Self, DecodeError> {
        Err(DecodeError { detail: String::from("never") })
    }
}

#[test]
fn handlers_do_not_see_what_did_not_decode() {
    let runs = Cell::new(0);
    let invalid = Status::new(Code(Code::INVALID_ARGUMENT), "request did not decode");
    let unary = |runs: &Cell<u32>, _request: Never| -> Result<Raw, Status> {
        runs.set(runs.get() + 1);
        Ok(Raw(vec![]))
    };
    assert_eq!(serve_unary(&unary, &runs, b"bytes"), Err(invalid.clone()));
    let stream = |runs: &Cell<u32>, _request: Never, _sink: &mut Sink<Outgoing, Raw>| {
        runs.set(runs.get() + 1);
        Ok(())
    };
    let ended = serve_stream(&stream, &runs, b"bytes", Outbox::new(accept as Sender));
    assert_eq!(ended.0, Err(invalid));
    assert_eq!(runs.get(), 0);
    let decoding = |runs: &Cell<u32>, request: Raw| -> Result<Raw, Status> {
        runs.set(runs.get() + 1);
        Ok(request)
    };
    assert_eq!(serve_unary(&decoding, &runs, b"bytes"), Ok(b"bytes".to_vec()));
    assert_eq!(runs.get(), 1);
}

#[test]
fn unary_answers_have_a_fixed_order() {
    assert_eq!(
        finish_unary(6, Ok(vec![9])),
        vec![message_frame(6, vec![9]), close_frame(6, &Status::ok())]
    );
    let status = Status::new(Code(Code::INTERNAL), "oops");
    assert_eq!(finish_unary(6, Err(status)), vec![close(13, "oops")]);
}

#[test]
fn stream_messages_stop_at_cancellation_and_deadline() {
    assert_eq!(
        stream_message(6, vec![1], false, false),
        Ok(Frame::new(FrameKind::MESSAGE, 0, 6, vec![1]))
    );
    let cancelled = Status::new(Code(Code::CANCELLED), "client cancelled");
    assert_eq!(stream_message(6, vec![1], true, false), Err(cancelled.clone()));
    assert_eq!(stream_message(6, vec![1], true, true), Err(cancelled));
    assert_eq!(
        stream_message(6, vec![1], false, true),
        Err(Status::new(Code(Code::DEADLINE_EXCEEDED), "deadline expired"))
    );
}

#[test]
fn undecodable_requests_are_invalid() {
    assert_eq!(decoded_request(Ok(5)), Ok(5));
    let decoded: Result<u8, DecodeError> = Err(DecodeError { detail: String::new() });
    assert_eq!(
        decoded_request(decoded),
        Err(Status::new(Code(Code::INVALID_ARGUMENT), "request did not decode"))
    );
}

#[test]
fn methods_register_once() {
    let mut router: Router<u8, u16> = Router::new();
    assert!(router.conflict(5, "a/b").is_none());
    assert!(router.insert(5, "a/b", Handler::Unary(1)).is_ok());
    assert!(router.insert(6, "a/c", Handler::Stream(2)).is_ok());
    let twice = router.insert(5, "a/b", Handler::Unary(3)).unwrap_err();
    assert!(matches!(twice, Conflict::Twice { path: "a/b" }));
    assert_eq!(twice.to_string(), "method `a/b` registered twice");
    let collision = router.insert(5, "a/d", Handler::Stream(4)).unwrap_err();
    assert!(matches!(collision, Conflict::Collision { path: "a/d", existing: "a/b", id: 5 }));
    assert_eq!(
        collision.to_string(),
        "method id collision: `a/d` and `a/b` share 0x0000000000000005"
    );
    // What was registered first still serves.
    assert!(matches!(router.dispatch(1, 5, false), Dispatch::Run(Handler::Unary(1))));
    assert!(matches!(router.dispatch(1, 6, false), Dispatch::Run(Handler::Stream(2))));
    assert!(matches!(router.dispatch(1, 7, false), Dispatch::Close(_)));
    assert!(matches!(router.dispatch(1, 5, true), Dispatch::Close(_)));
}

#[test]
fn descriptors_carry_path_and_id() {
    let unary = Method::<Raw, Raw>::new("interop.Echo/say");
    let copy = unary;
    assert_eq!((copy.path, copy.id), ("interop.Echo/say", 0x2144_947f_5c60_b34d));
    assert_eq!(unary.clone().id, unary.id);
    let stream = StreamMethod::<Raw, Raw>::new("interop.Echo/count");
    assert_eq!((stream.path, stream.clone().id), ("interop.Echo/count", 0x69d7_638c_d9f3_a3e9));
}

#[test]
fn servers_have_limits() {
    let server = Server::new(router());
    assert_eq!(server.message_limit(), MAX_FRAME_LEN);
    assert_eq!(DEFAULT_MAX_CALLS, 1024);
    assert_eq!(DEFAULT_MAX_CONNECTIONS, 1024);
    let mut permits = server.call_permits();
    for _ in 0..1024 {
        assert!(permits.try_acquire().is_some());
    }
    assert!(permits.try_acquire().is_none());

    let server = server.max_message(100).max_concurrent_calls(3).max_connections(2);
    assert_eq!(server.message_limit(), 100);
    let mut permits = server.connection_permits();
    assert!(permits.try_acquire().is_some());
    assert!(permits.try_acquire().is_some());
    assert!(permits.try_acquire().is_none());
    assert!(matches!(server.router().dispatch(1, method_id("t/denied"), false), Dispatch::Run(_)));

    // The limit is lowered, never raised.
    assert_eq!(server.max_message(u32::MAX).message_limit(), MAX_FRAME_LEN);
}

fn call_payload(method: u64, deadline_ms: u32, body: &[u8]) -> Vec<u8> {
    let mut payload = method.to_le_bytes().to_vec();
    payload.extend_from_slice(&deadline_ms.to_le_bytes());
    payload.extend_from_slice(body);
    payload
}

fn header(kind: u8, call_id: u32) -> FrameHeader {
    FrameHeader::outgoing(kind, 0, call_id)
}

fn start(connection: &mut Connection, permits: &mut Semaphore, call_id: u32) -> Call {
    let payload = call_payload(77, 5, b"body");
    match connection.on_frame(header(FrameKind::CALL, call_id), payload, permits) {
        ServerAction::Run(call) => call,
        _ => panic!("expected a call"),
    }
}

#[test]
fn connections_need_the_preface() {
    assert!(Connection::open(&PREFACE).is_some());
    assert!(Connection::open(b"nanorpc\x02").is_none());
}

#[test]
fn calls_are_read_as_made() {
    let mut connection = Connection::open(&PREFACE).unwrap();
    let mut permits = Semaphore::new(4);
    let call = start(&mut connection, &mut permits, 3);
    assert_eq!((call.slot, call.call_id, call.method, call.deadline_ms), (0, 3, 77, 5));
    assert_eq!(call.request, b"body");
    assert!(connection.is_running(0));
    assert!(!connection.is_cancelled(0));
    assert_eq!(permits.in_use(), 1);
    connection.finish(call.slot, call.permit, &mut permits);
    assert!(!connection.is_running(0));
    assert_eq!(permits.in_use(), 0);
}

#[test]
fn cancels_reach_their_call_only() {
    let mut connection = Connection::open(&PREFACE).unwrap();
    let mut permits = Semaphore::new(4);
    let first = start(&mut connection, &mut permits, 3);
    let second = start(&mut connection, &mut permits, 4);
    for call_id in [9, 4] {
        let action = connection.on_frame(header(FrameKind::CANCEL, call_id), vec![], &mut permits);
        assert!(matches!(action, ServerAction::Continue));
    }
    assert!(!connection.is_cancelled(first.slot));
    assert!(connection.is_cancelled(second.slot));
    assert_eq!(permits.in_use(), 2);

    // A finished call's slot and id start afresh.
    connection.finish(second.slot, second.permit, &mut permits);
    let late = connection.on_frame(header(FrameKind::CANCEL, 4), vec![], &mut permits);
    assert!(matches!(late, ServerAction::Continue));
    let third = start(&mut connection, &mut permits, 4);
    assert_eq!(third.slot, second.slot);
    assert!(!connection.is_cancelled(third.slot));
}

#[test]
fn calls_past_the_permits_are_closed() {
    let mut connection = Connection::open(&PREFACE).unwrap();
    let mut permits = Semaphore::new(1);
    let held = start(&mut connection, &mut permits, 1);
    let payload = call_payload(77, 0, &[]);
    match connection.on_frame(header(FrameKind::CALL, 2), payload, &mut permits) {
        ServerAction::Reply(frame) => {
            assert_eq!(
                frame,
                Frame::new(FrameKind::CLOSE, 8, 2, b"too many concurrent calls".to_vec())
            );
        }
        _ => panic!("expected a refusal"),
    }
    assert!(!connection.is_running(1));
    connection.finish(held.slot, held.permit, &mut permits);
    start(&mut connection, &mut permits, 2);
}

#[test]
fn caps_are_shared_between_connections() {
    let mut a = Connection::open(&PREFACE).unwrap();
    let mut b = Connection::open(&PREFACE).unwrap();
    let mut permits = Semaphore::new(2);
    let first = start(&mut a, &mut permits, 1);
    start(&mut b, &mut permits, 1);
    assert!(permits.is_exhausted());
    let refused = b.on_frame(header(FrameKind::CALL, 2), call_payload(1, 0, &[]), &mut permits);
    assert!(matches!(refused, ServerAction::Reply(_)));
    a.finish(first.slot, first.permit, &mut permits);
    start(&mut b, &mut permits, 2);
    assert_eq!(permits.in_use(), 2);
}

#[test]
fn probes_are_echoed() {
    let mut connection = Connection::open(&PREFACE).unwrap();
    let mut permits = Semaphore::new(1);
    match connection.on_frame(header(FrameKind::PING, 0), vec![8, 7, 6], &mut permits) {
        ServerAction::Reply(frame) => {
            assert_eq!(frame, Frame::new(FrameKind::PONG, 0, 0, vec![8, 7, 6]));
        }
        _ => panic!("expected a PONG"),
    }
    let action = connection.on_frame(header(FrameKind::PONG, 0), vec![], &mut permits);
    assert!(matches!(action, ServerAction::Continue));
}

#[test]
fn pongs_are_the_pings_in_order() {
    let mut connection = Connection::open(&PREFACE).unwrap();
    let mut permits = Semaphore::new(1);
    let frames = [
        (FrameKind::PING, 0, vec![1]),
        (FrameKind::CALL, 1, call_payload(77, 0, &[])),
        (FrameKind::PING, 0, vec![]),
        (FrameKind::CALL, 2, call_payload(77, 0, &[])),
        (FrameKind::CANCEL, 9, vec![]),
        (FrameKind::PONG, 0, vec![7; 8]),
        (FrameKind::PING, 0, vec![3, 3]),
    ];
    let mut replies = Vec::new();
    for (kind, call_id, payload) in frames {
        let action = connection.on_frame(header(kind, call_id), payload, &mut permits);
        if let ServerAction::Reply(frame) = action {
            replies.push(frame);
        }
    }
    assert_eq!(
        replies,
        vec![
            Frame::new(FrameKind::PONG, 0, 0, vec![1]),
            Frame::new(FrameKind::PONG, 0, 0, vec![]),
            Frame::new(FrameKind::CLOSE, 8, 2, b"too many concurrent calls".to_vec()),
            Frame::new(FrameKind::PONG, 0, 0, vec![3, 3]),
        ]
    );
    assert!(!connection.is_cancelled(0));
}

#[test]
fn messages_leave_a_sink_once() {
    let seen = RefCell::new(Vec::new());
    let mut sink = Sink::new(Outbox::new(|bytes: Vec<u8>| {
        seen.borrow_mut().push(bytes.clone());
        if bytes.is_empty() {
            Err(connection_lost())
        } else {
            Ok(())
        }
    }));
    assert_eq!(sink.send(&Raw(vec![1, 2])), Ok(()));
    assert_eq!(sink.send(&Raw(vec![])), Err(connection_lost()));
    assert_eq!(sink.send(&Raw(vec![3])), Ok(()));
    assert_eq!(*seen.borrow(), vec![vec![1, 2], vec![], vec![3]]);
}

#[test]
fn call_outlets_write_what_they_accept() {
    let gate = Cell::new((false, false));
    let alive = Cell::new(true);
    let seen = RefCell::new(Vec::new());
    let mut outlet = CallOutlet::new(
        6,
        || gate.get(),
        |frame: Frame| {
            seen.borrow_mut().push(frame);
            alive.get()
        },
    );
    let mut offer = |bytes: &[u8]| outlet.offer(bytes.to_vec());
    assert_eq!(offer(&[1]), Ok(()));
    gate.set((false, true));
    assert_eq!(
        offer(&[2]),
        Err(Status::new(Code(Code::DEADLINE_EXCEEDED), "deadline expired"))
    );
    gate.set((true, true));
    assert_eq!(offer(&[3]), Err(Status::new(Code(Code::CANCELLED), "client cancelled")));
    gate.set((false, false));
    alive.set(false);
    assert_eq!(offer(&[4]), Err(connection_lost()));
    alive.set(true);
    assert_eq!(offer(&[5]), Ok(()));
    let mut writer = outlet.into_writer().unwrap();
    assert!(writer.hand(close(0, "")));
    assert_eq!(
        *seen.borrow(),
        vec![
            message_frame(6, vec![1]),
            message_frame(6, vec![4]),
            message_frame(6, vec![5]),
            close(0, ""),
        ]
    );
}

#[test]
fn sinks_give_their_outlet_back() {
    let raw: Outgoing = Outbox::new(accept as Sender);
    let stream = |_: &u8, request: Raw, sink: &mut Sink<Outgoing, Raw>| sink.send(&request);
    let (out, mut raw) = serve_stream(&stream, &0, b"bytes", raw);
    assert_eq!(out, Ok(()));
    assert_eq!(raw.offer(vec![]), Ok(()));
    let mut outlet = Sink::<Outgoing, Raw>::new(raw).into_outlet();
    assert_eq!(outlet.offer(vec![1]), Ok(()));
}

#[test]
fn panicked_calls_are_closed() {
    assert_eq!(finish_panicked(6), close(13, "handler panicked"));
}

#[test]
fn violations_close_the_connection() {
    let mut connection = Connection::open(&PREFACE).unwrap();
    let mut permits = Semaphore::new(1);
    for kind in [FrameKind::MESSAGE, FrameKind::CLOSE, 6, 255] {
        let action = connection.on_frame(header(kind, 1), vec![], &mut permits);
        assert!(matches!(action, ServerAction::HangUp));
    }
    let short = connection.on_frame(header(FrameKind::CALL, 1), vec![0; 11], &mut permits);
    assert!(matches!(short, ServerAction::HangUp));
    for kind in 0..6 {
        let mut flagged = header(kind, 1);
        flagged.flags = 1;
        let action = connection.on_frame(flagged, call_payload(1, 0, &[]), &mut permits);
        assert!(matches!(action, ServerAction::HangUp));
    }
    assert_eq!(permits.in_use(), 0);
}
