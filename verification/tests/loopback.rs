//! The client against the reference server, over bytes in memory.

use std::cell::RefCell;
use std::rc::Rc;

use nanorpc::call::{serve_stream, serve_unary, stream_message};
use nanorpc::client::ClientAction;
use nanorpc::echo::{
    self, count_step, sleep_step, CountRequest, CountResponse, CountStep, EchoRequest, FailRequest,
    SleepStep,
};
use nanorpc::frame::{read_frame, write_frame, Frame, MAX_FRAME_LEN, PREFACE};
use nanorpc::limit::Semaphore;
use nanorpc::method::DecodeError;
use nanorpc::pending::{decode_response, CallStep, StreamStep};
use nanorpc::server::{run_call, Call, Connection, ServerAction};
use nanorpc::{
    CallOutlet, Client, Code, Context, Message, Method, Outbox, Router, RpcError, Server, Sink,
    Status, StreamMethod, Streaming,
};

const MILLI: u128 = 1_000_000;
const SECOND: u128 = 1_000 * MILLI;

fn bad() -> DecodeError {
    DecodeError { detail: String::from("malformed") }
}

fn text_of(data: &[u8]) -> Result<String, DecodeError> {
    String::from_utf8(data.to_vec()).map_err(|_| bad())
}

fn number_of(data: &[u8]) -> Result<u32, DecodeError> {
    let bytes: [u8; 4] = data.try_into().map_err(|_| bad())?;
    Ok(u32::from_le_bytes(bytes))
}

#[derive(Debug)]
struct Say(EchoRequest);
#[derive(Debug)]
struct Said(String);
#[derive(Debug)]
struct Count(CountRequest);
#[derive(Debug)]
struct Counted(u32);
#[derive(Debug)]
struct Fail(FailRequest);
#[derive(Debug)]
struct Sleep(u32);
#[derive(Debug)]
struct Nothing;

impl Message for Say {
    fn to_bytes(&self) -> Vec<u8> {
        let mut bytes = vec![self.0.shout as u8];
        bytes.extend_from_slice(self.0.text.as_bytes());
        bytes
    }
    fn from_bytes(data: &[u8]) -> Result<Self, DecodeError> {
        let (first, text) = data.split_first().ok_or_else(bad)?;
        Ok(Say(EchoRequest { text: text_of(text)?, shout: *first == 1 }))
    }
}

impl Message for Said {
    fn to_bytes(&self) -> Vec<u8> {
        self.0.as_bytes().to_vec()
    }
    fn from_bytes(data: &[u8]) -> Result<Self, DecodeError> {
        Ok(Said(text_of(data)?))
    }
}

impl Message for Count {
    fn to_bytes(&self) -> Vec<u8> {
        let mut bytes = self.0.up_to.to_le_bytes().to_vec();
        if let Some(value) = self.0.fail_after {
            bytes.extend_from_slice(&value.to_le_bytes());
        }
        bytes
    }
    fn from_bytes(data: &[u8]) -> Result<Self, DecodeError> {
        if data.len() < 4 {
            return Err(bad());
        }
        let fail_after = if data.len() > 4 { Some(number_of(&data[4..])?) } else { None };
        Ok(Count(CountRequest { up_to: number_of(&data[..4])?, fail_after }))
    }
}

impl Message for Counted {
    fn to_bytes(&self) -> Vec<u8> {
        self.0.to_le_bytes().to_vec()
    }
    fn from_bytes(data: &[u8]) -> Result<Self, DecodeError> {
        Ok(Counted(number_of(data)?))
    }
}

impl Message for Fail {
    fn to_bytes(&self) -> Vec<u8> {
        let mut bytes = self.0.code.to_le_bytes().to_vec();
        bytes.extend_from_slice(self.0.detail.as_bytes());
        bytes
    }
    fn from_bytes(data: &[u8]) -> Result<Self, DecodeError> {
        if data.len() < 2 {
            return Err(bad());
        }
        Ok(Fail(FailRequest {
            code: u16::from_le_bytes([data[0], data[1]]),
            detail: text_of(&data[2..])?,
        }))
    }
}

impl Message for Sleep {
    fn to_bytes(&self) -> Vec<u8> {
        self.0.to_le_bytes().to_vec()
    }
    fn from_bytes(data: &[u8]) -> Result<Self, DecodeError> {
        Ok(Sleep(number_of(data)?))
    }
}

impl Message for Nothing {
    fn to_bytes(&self) -> Vec<u8> {
        Vec::new()
    }
    fn from_bytes(data: &[u8]) -> Result<Self, DecodeError> {
        if data.is_empty() {
            Ok(Nothing)
        } else {
            Err(bad())
        }
    }
}

fn say() -> Method<Say, Said> {
    Method::new("interop.Echo/say")
}
fn count() -> StreamMethod<Count, Counted> {
    StreamMethod::new("interop.Echo/count")
}
fn fail() -> Method<Fail, Nothing> {
    Method::new("interop.Echo/fail")
}
fn sleep() -> Method<Sleep, Nothing> {
    Method::new("interop.Echo/sleep")
}

/// What handlers see: the verified context, and a clock that naps advance.
struct Ctx {
    context: Context<&'static str>,
    cancelled: bool,
    clock: Rc<RefCell<u128>>,
}

type Unary = Box<dyn Fn(&Ctx, &[u8]) -> Result<Vec<u8>, Status>>;
type Outgoing = CallOutlet<Box<dyn Fn() -> (bool, bool)>, Box<dyn Fn(Frame) -> bool>>;
type Streamed = Box<dyn Fn(&Ctx, &[u8], Outgoing) -> (Result<(), Status>, Outgoing)>;

fn count_handler(
    _ctx: &Ctx,
    request: Count,
    sink: &mut Sink<Outgoing, Counted>,
) -> Result<(), Status> {
    let sink = RefCell::new(sink);
    let mut outbox = Outbox::new(|response: CountResponse| {
        sink.borrow_mut().send(&Counted(response.value))
    });
    echo::count(request.0, &mut outbox)
}

fn router() -> Router<Unary, Streamed> {
    let say: Unary = Box::new(|ctx: &Ctx, bytes: &[u8]| {
        serve_unary(
            &|_: &Ctx, request: Say| Ok(Said(echo::serve_say(request.0)?.text)),
            ctx,
            bytes,
        )
    });
    let count: Streamed = Box::new(|ctx: &Ctx, bytes: &[u8], raw: Outgoing| {
        serve_stream(&count_handler, ctx, bytes, raw)
    });
    let fail: Unary = Box::new(|ctx: &Ctx, bytes: &[u8]| {
        serve_unary(
            &|_: &Ctx, request: Fail| echo::serve_fail(request.0).map(|_| Nothing),
            ctx,
            bytes,
        )
    });
    let sleep: Unary = Box::new(|ctx: &Ctx, bytes: &[u8]| {
        serve_unary(
            &|ctx: &Ctx, request: Sleep| {
                let mut left = u64::from(request.0);
                loop {
                    let now = *ctx.clock.borrow();
                    match sleep_step(left, ctx.context.is_cancelled(ctx.cancelled, now)) {
                        SleepStep::Nap { ms, left: rest } => {
                            *ctx.clock.borrow_mut() += u128::from(ms) * MILLI;
                            left = rest;
                        }
                        SleepStep::Woken(status) => return Err(status),
                        SleepStep::Done => return Ok(Nothing),
                    }
                }
            },
            ctx,
            bytes,
        )
    });
    echo::router(say, count, fail, sleep)
}

/// Both ends of one connection, and the bytes between them.
struct Loopback {
    server: Server<Unary, Streamed>,
    connection: Rc<RefCell<Connection>>,
    permits: Semaphore,
    client: Client,
    up: Vec<u8>,
    down: Rc<RefCell<Vec<u8>>>,
    waiting: Vec<Call>,
    clock: Rc<RefCell<u128>>,
}

fn connect_to(server: Server<Unary, Streamed>) -> Loopback {
    Loopback {
        permits: server.call_permits(),
        server,
        connection: Rc::new(RefCell::new(Connection::open(&PREFACE).unwrap())),
        client: Client::connect(&PREFACE).unwrap(),
        up: Vec::new(),
        down: Rc::new(RefCell::new(Vec::new())),
        waiting: Vec::new(),
        clock: Rc::new(RefCell::new(1_000)),
    }
}

fn connect() -> Loopback {
    connect_to(Server::new(router()))
}

impl Loopback {
    fn now(&self) -> u128 {
        *self.clock.borrow()
    }

    fn send_up(&mut self, frame: Frame) {
        write_frame(&mut self.up, frame.header, &frame.payload);
    }

    /// Lets the server read what the client sent. Calls wait to be run.
    fn server_reads(&mut self) {
        let bytes = std::mem::take(&mut self.up);
        let mut reader = bytes.as_slice();
        while !reader.is_empty() {
            let (header, payload) = read_frame(&mut reader, self.server.message_limit()).unwrap();
            let action = self.connection.borrow_mut().on_frame(header, payload, &mut self.permits);
            match action {
                ServerAction::Continue => {}
                ServerAction::Reply(frame) => {
                    write_frame(&mut self.down.borrow_mut(), frame.header, &frame.payload);
                }
                ServerAction::Run(call) => self.waiting.push(call),
                ServerAction::HangUp => panic!("the server hung up"),
            }
        }
    }

    /// Lets the server run the calls that wait.
    fn server_runs(&mut self) {
        for call in std::mem::take(&mut self.waiting) {
            let context = Context::new(call.deadline_ms, self.now(), "memory");
            let cancelled = self.connection.borrow().is_cancelled(call.slot);
            let stop = context.is_cancelled(cancelled, self.now());
            let ctx = Ctx { context, cancelled, clock: Rc::clone(&self.clock) };
            let (connection, down, slot, call_id) =
                (Rc::clone(&self.connection), Rc::clone(&self.down), call.slot, call.call_id);
            let deadline = ctx.context.deadline();
            let clock = Rc::clone(&self.clock);
            let raw: Outgoing = CallOutlet::new(
                call_id,
                Box::new(move || {
                    let cancelled = connection.borrow().is_cancelled(slot);
                    (cancelled, nanorpc::context::expired(deadline, *clock.borrow()))
                }),
                Box::new(move |frame: Frame| {
                    write_frame(&mut down.borrow_mut(), frame.header, &frame.payload);
                    true
                }),
            );
            let (frames, outlet) =
                run_call(self.server.router(), &ctx, call_id, call.method, stop, &call.request, raw);
            let mut writer = outlet.into_writer().unwrap();
            for frame in frames {
                assert!(writer.hand(frame));
            }
            self.connection.borrow_mut().finish(call.slot, call.permit, &mut self.permits);
        }
    }

    /// Lets the client read what the server sent.
    fn client_reads(&mut self) {
        let bytes = std::mem::take(&mut *self.down.borrow_mut());
        let mut reader = bytes.as_slice();
        while !reader.is_empty() {
            let (header, payload) = read_frame(&mut reader, MAX_FRAME_LEN).unwrap();
            match self.client.on_frame(header, payload) {
                ClientAction::Continue => {}
                ClientAction::Reply(frame) => self.send_up(frame),
                ClientAction::Stop => panic!("the client stopped"),
            }
        }
    }

    fn pump(&mut self) {
        self.server_reads();
        self.server_runs();
        self.client_reads();
    }

    fn call<Req: Message, Res: Message>(
        &mut self,
        method: Method<Req, Res>,
        request: &Req,
        patience: Option<u128>,
    ) -> Result<Res, RpcError> {
        let now = self.now();
        let (call, frame) = self.client.call(method, request, patience, now)?;
        self.send_up(frame);
        self.pump();
        let now = self.now();
        match call.settle(&mut self.client, now) {
            CallStep::Done(bytes) => decode_response(&bytes),
            CallStep::Failed(err, frame) => {
                if let Some(frame) = frame {
                    self.send_up(frame);
                }
                Err(err)
            }
            other => panic!("still going: {other:?}"),
        }
    }

    fn stream(&mut self, request: CountRequest) -> Streaming<Counted> {
        let now = self.now();
        let (stream, frame) = self
            .client
            .server_stream(count(), &Count(request), Some(5 * SECOND), now)
            .unwrap();
        self.send_up(frame);
        stream
    }

    fn next(&mut self, stream: &mut Streaming<Counted>) -> Option<Result<u32, RpcError>> {
        let now = self.now();
        match stream.next(&mut self.client, now) {
            StreamStep::Wait => panic!("nothing arrived"),
            StreamStep::Item(item) => Some(Ok(item.0)),
            StreamStep::End => None,
            StreamStep::Failed(err, frame) => {
                if let Some(frame) = frame {
                    self.send_up(frame);
                }
                Some(Err(err))
            }
        }
    }
}

fn request(text: &str, shout: bool) -> Say {
    Say(EchoRequest { text: text.to_string(), shout })
}

#[test]
fn unary_round_trip() {
    let mut loopback = connect();
    let reply = loopback.call(say(), &request("hello, wire", false), None).unwrap();
    assert_eq!(reply.0, "hello, wire");

    let loud = loopback.call(say(), &request("hello", true), None).unwrap();
    assert_eq!(loud.0, "HELLO");
}

#[test]
fn concurrent_calls_share_one_connection() {
    let mut loopback = connect();
    let mut calls = Vec::new();
    for i in 0..16 {
        let text = format!("call {i}");
        let now = loopback.now();
        let (call, frame) =
            loopback.client.call(say(), &request(&text, false), Some(5 * SECOND), now).unwrap();
        assert_eq!(call.call_id, i + 1);
        loopback.send_up(frame);
        calls.push((call, text));
    }
    loopback.server_reads();
    loopback.waiting.reverse();
    loopback.server_runs();
    loopback.client_reads();
    for (call, text) in calls {
        let now = loopback.now();
        match call.settle(&mut loopback.client, now) {
            CallStep::Done(bytes) => {
                assert_eq!(decode_response::<Said>(&bytes).unwrap().0, text);
            }
            other => panic!("expected a response, got {other:?}"),
        }
    }
}

#[test]
fn server_stream_delivers_in_order() {
    let mut loopback = connect();
    let mut stream = loopback.stream(CountRequest { up_to: 100, fail_after: None });
    loopback.pump();
    let mut values = Vec::new();
    while let Some(item) = loopback.next(&mut stream) {
        values.push(item.unwrap());
    }
    assert_eq!(values, (1..=100).collect::<Vec<u32>>());
}

#[test]
fn mid_stream_failure_carries_the_status() {
    let mut loopback = connect();
    let mut stream = loopback.stream(CountRequest { up_to: 10, fail_after: Some(3) });
    loopback.pump();
    for expected in 1..=3 {
        assert_eq!(loopback.next(&mut stream).unwrap().unwrap(), expected);
    }
    match loopback.next(&mut stream).unwrap() {
        Err(RpcError::Status(status)) => {
            assert_eq!(status.code, Code(Code::ABORTED));
            assert_eq!(status.message, "failed mid-stream as requested");
        }
        other => panic!("expected ABORTED, got {other:?}"),
    }
    assert!(loopback.next(&mut stream).is_none());
}

#[test]
fn error_statuses_survive_the_wire() {
    let mut loopback = connect();
    let err = loopback
        .call(
            fail(),
            &Fail(FailRequest {
                code: Code::PERMISSION_DENIED,
                detail: "no such key".to_string(),
            }),
            None,
        )
        .unwrap_err();
    match err {
        RpcError::Status(status) => {
            assert_eq!(status.code, Code(Code::PERMISSION_DENIED));
            assert_eq!(status.message, "no such key");
        }
        other => panic!("expected a status, got {other:?}"),
    }
}

#[test]
fn failures_that_claim_success_are_unknown() {
    let mut loopback = connect();
    let request = Fail(FailRequest { code: Code::OK, detail: "as asked".to_string() });
    match loopback.call(fail(), &request, None).unwrap_err() {
        RpcError::Status(status) => {
            assert_eq!(status, Status::new(Code(Code::UNKNOWN), "as asked"));
        }
        other => panic!("expected a status, got {other:?}"),
    }
}

#[test]
fn unknown_methods_are_unimplemented() {
    let missing: Method<Say, Said> = Method::new("interop.Echo/no_such");
    let mut loopback = connect();
    let err = loopback.call(missing, &request("", false), Some(5 * SECOND)).unwrap_err();
    assert_eq!(err.code(), Some(Code(Code::UNIMPLEMENTED)));
    assert_eq!(
        err.to_string(),
        format!("call failed: unimplemented: unknown method {:#018x}", missing.id)
    );
}

#[test]
fn deadlines_cut_calls_short() {
    let mut loopback = connect();
    let started = loopback.now();
    let (call, frame) = loopback
        .client
        .call(sleep(), &Sleep(5_000), Some(80 * MILLI), started)
        .unwrap();
    loopback.send_up(frame);
    loopback.server_reads();
    let call = match call.settle(&mut loopback.client, started + 80 * MILLI - 1) {
        CallStep::Wait(call) => call,
        other => panic!("gave up too early: {other:?}"),
    };
    let err = match call.settle(&mut loopback.client, started + 80 * MILLI) {
        CallStep::Failed(err, Some(frame)) => {
            loopback.send_up(frame);
            err
        }
        other => panic!("expected a timeout, got {other:?}"),
    };
    assert_eq!(err.code(), Some(Code(Code::DEADLINE_EXCEEDED)));

    // The server stops as well, and the connection is still healthy.
    loopback.server_runs();
    assert!(loopback.now() - started < 2 * SECOND, "deadline did not cut the wait");
    let reply = loopback.call(say(), &request("still alive", false), Some(5 * SECOND)).unwrap();
    assert_eq!(reply.0, "still alive");
}

#[test]
fn dropping_a_stream_cancels_it() {
    let mut loopback = connect();
    let mut stream = loopback.stream(CountRequest {
        up_to: u32::MAX, // would stream forever
        fail_after: None,
    });
    loopback.server_reads();
    let call = loopback.waiting.pop().unwrap();
    let mut sent = 0;
    let mut send = |loopback: &mut Loopback| -> Result<(), Status> {
        let step = count_step(CountRequest { up_to: u32::MAX, fail_after: None }, sent);
        let value = match step {
            CountStep::Send(CountResponse { value }) => value,
            other => panic!("ended early: {other:?}"),
        };
        let cancelled = loopback.connection.borrow().is_cancelled(call.slot);
        let frame = stream_message(call.call_id, Counted(value).to_bytes(), cancelled, false)?;
        write_frame(&mut loopback.down.borrow_mut(), frame.header, &frame.payload);
        sent = value;
        Ok(())
    };
    send(&mut loopback).unwrap();
    loopback.client_reads();
    assert_eq!(loopback.next(&mut stream).unwrap().unwrap(), 1);
    let frame = stream.cancel(&mut loopback.client).unwrap(); // sends CANCEL
    loopback.send_up(frame);
    send(&mut loopback).unwrap(); // already under way: ignored by the client
    loopback.server_reads();
    let refusal = send(&mut loopback).unwrap_err();
    assert_eq!(refusal.code, Code(Code::CANCELLED));
    let close = nanorpc::call::finish_stream(call.call_id, Err(refusal));
    write_frame(&mut loopback.down.borrow_mut(), close.header, &close.payload);
    loopback.connection.borrow_mut().finish(call.slot, call.permit, &mut loopback.permits);

    // The connection keeps working after the cancelled call.
    let reply = loopback.call(say(), &request("after cancel", false), Some(5 * SECOND)).unwrap();
    assert_eq!(reply.0, "after cancel");
}

#[test]
fn large_payloads_round_trip() {
    let mut loopback = connect();
    let text = "x".repeat(1 << 20);
    let reply = loopback.call(say(), &request(&text, false), Some(10 * SECOND)).unwrap();
    assert_eq!(reply.0.len(), text.len());
}

#[test]
fn ping_measures_the_connection() {
    let mut loopback = connect();
    let started = loopback.now();
    let (nonce, frame) = loopback.client.ping();
    loopback.send_up(frame);
    let expires = started + 5 * SECOND;
    assert!(loopback.client.ping_result(nonce, started, expires, started).is_none());
    loopback.pump();
    let rtt = loopback
        .client
        .ping_result(nonce, started, expires, started + 7)
        .unwrap()
        .unwrap();
    assert_eq!(rtt, 7);
    assert!(rtt < SECOND);
}

#[test]
fn calls_past_the_cap_are_refused() {
    let mut loopback = connect_to(Server::new(router()).max_concurrent_calls(1));

    // Hold the one call slot with a request that sleeps.
    let now = loopback.now();
    let (held, frame) =
        loopback.client.call(sleep(), &Sleep(500), Some(5 * SECOND), now).unwrap();
    loopback.send_up(frame);
    loopback.server_reads();

    let (refused, frame) = loopback
        .client
        .call(say(), &request("overflow", false), Some(5 * SECOND), now)
        .unwrap();
    loopback.send_up(frame);
    loopback.server_reads();
    loopback.client_reads();
    match refused.settle(&mut loopback.client, now + 100 * MILLI) {
        CallStep::Failed(err, None) => {
            assert_eq!(err.code(), Some(Code(Code::RESOURCE_EXHAUSTED)));
        }
        other => panic!("expected a refusal, got {other:?}"),
    }

    // The slow call still completes, and the freed slot serves the next one.
    loopback.server_runs();
    loopback.client_reads();
    let now = loopback.now();
    match held.settle(&mut loopback.client, now) {
        CallStep::Done(bytes) => assert!(decode_response::<Nothing>(&bytes).is_ok()),
        other => panic!("expected completion, got {other:?}"),
    }
    let reply = loopback.call(say(), &request("slot freed", false), Some(5 * SECOND)).unwrap();
    assert_eq!(reply.0, "slot freed");
}

#[test]
fn requests_that_do_not_decode_are_invalid() {
    let odd: Method<Nothing, Said> = Method::new("interop.Echo/say");
    let mut loopback = connect();
    let err = loopback.call(odd, &Nothing, None).unwrap_err();
    match err {
        RpcError::Status(status) => {
            assert_eq!(status, Status::new(Code(Code::INVALID_ARGUMENT), "request did not decode"));
        }
        other => panic!("expected a status, got {other:?}"),
    }
}

#[test]
fn responses_that_do_not_decode_are_reported() {
    let odd: Method<Say, Nothing> = Method::new("interop.Echo/say");
    let mut loopback = connect();
    let err = loopback.call(odd, &request("text", false), None).unwrap_err();
    assert_eq!(err.to_string(), "response did not decode: malformed");
    assert_eq!(err.code(), None);
}

#[test]
fn items_that_do_not_decode_end_the_stream() {
    let mut loopback = connect();
    let odd: StreamMethod<Count, Nothing> = StreamMethod::new("interop.Echo/count");
    let now = loopback.now();
    let (mut stream, frame) = loopback
        .client
        .server_stream(odd, &Count(CountRequest { up_to: 2, fail_after: None }), None, now)
        .unwrap();
    loopback.send_up(frame);
    loopback.pump();
    match stream.next(&mut loopback.client, now) {
        StreamStep::Failed(RpcError::Decode(_), Some(frame)) => {
            assert_eq!(frame.header.call_id, stream.call_id);
        }
        other => panic!("expected a decode failure, got {other:?}"),
    }
    assert!(matches!(stream.next(&mut loopback.client, now), StreamStep::End));
    assert!(stream.cancel(&mut loopback.client).is_none());
}

#[test]
fn spent_budgets_are_not_dispatched() {
    let mut loopback = connect();
    let now = loopback.now();
    let (call, frame) = loopback.client.call(say(), &request("late", false), None, now).unwrap();
    loopback.send_up(frame);
    let cancel = loopback.client.cancel(call.call_id + 1);
    loopback.send_up(cancel); // nobody's: ignored
    let mut own = Vec::new();
    write_frame(
        &mut own,
        nanorpc::frame::FrameHeader::outgoing(nanorpc::frame::FrameKind::CANCEL, 0, call.call_id),
        &[],
    );
    loopback.up.extend_from_slice(&own);
    loopback.pump();
    match call.settle(&mut loopback.client, now) {
        CallStep::Failed(RpcError::Status(status), None) => {
            assert_eq!(
                status,
                Status::new(Code(Code::DEADLINE_EXCEEDED), "deadline expired before dispatch")
            );
        }
        other => panic!("expected a refusal, got {other:?}"),
    }
}
