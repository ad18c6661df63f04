//! The client's decisions on concrete values: ids, mailboxes, timeouts and
//! probes.

use nanorpc::client::{ClientAction, Event, Received};
use nanorpc::frame::{Frame, FrameHeader, FrameKind, MAX_FRAME_LEN, PREFACE};
use nanorpc::method::DecodeError;
use nanorpc::pending::{decoded_response, CallStep, StreamStep, UnaryCall};
use nanorpc::{Client, Code, Message, Method, RpcError, Status, StreamMethod, Streaming};

#[derive(Debug)]
struct Raw(Vec<u8>);

impl Message for Raw {
    fn to_bytes(&self) -> Vec<u8> {
        self.0.clone()
    }
    fn from_bytes(data: &[u8]) -> Result<Self, DecodeError> {
        if data == b"bad" {
            return Err(DecodeError { detail: String::from("bad") });
        }
        Ok(Raw(data.to_vec()))
    }
}

fn client() -> Client {
    Client::connect(&PREFACE).unwrap()
}

fn begin(client: &mut Client, expires: Option<u128>) -> UnaryCall {
    let (call_id, _) = client.start(1, b"", None).unwrap();
    UnaryCall { call_id, expires, response: None }
}

fn arrive(client: &mut Client, kind: u8, status: u16, call_id: u32, payload: &[u8]) {
    let action = client.on_frame(FrameHeader::outgoing(kind, status, call_id), payload.to_vec());
    assert!(matches!(action, ClientAction::Continue));
}

fn status_of(err: RpcError) -> Status {
    match err {
        RpcError::Status(status) => status,
        other => panic!("expected a status, got {other:?}"),
    }
}

fn cancel_of(call_id: u32) -> Frame {
    Frame::new(FrameKind::CANCEL, 0, call_id, vec![])
}

#[test]
fn peers_must_speak_the_protocol() {
    assert!(Client::connect(&PREFACE).is_ok());
    let why = Client::connect(b"nanorpc\x02").err();
    assert_eq!(why, Some("peer is not a nanorpc/1 server"));
}

#[test]
fn calls_are_framed() {
    let mut client = client();
    let (call_id, frame) = client.start(0x0102, b"hi", Some(1_500_000_000)).unwrap();
    assert_eq!(call_id, 1);
    let mut payload = vec![2, 1, 0, 0, 0, 0, 0, 0, 0xdc, 0x05, 0, 0];
    payload.extend_from_slice(b"hi");
    assert_eq!(frame, Frame::new(FrameKind::CALL, 0, 1, payload));
}

#[test]
fn call_ids_count_up_from_one() {
    let mut client = client();
    for expected in 1..=5 {
        assert_eq!(client.start(1, b"", None).unwrap().0, expected);
    }
    // An id that was given back is not reused before the others.
    client.forget(2);
    assert_eq!(client.start(1, b"", None).unwrap().0, 6);
}

#[test]
fn requests_must_fit_a_frame() {
    let mut client = client();
    let limit = MAX_FRAME_LEN as usize - 12;
    let (call_id, frame) = client.start(1, &vec![0; limit], None).unwrap();
    assert_eq!((call_id, frame.payload.len()), (1, MAX_FRAME_LEN as usize));
    let status = status_of(client.start(1, &vec![0; limit + 1], None).unwrap_err());
    assert_eq!(
        status,
        Status::new(
            Code(Code::RESOURCE_EXHAUSTED),
            "request of 67108865 bytes exceeds the frame limit"
        )
    );
    // A refused request uses no id.
    assert_eq!(client.start(1, b"", None).unwrap().0, 2);
}

#[test]
fn responses_complete_the_call() {
    let mut client = client();
    let call = begin(&mut client, None);
    let call = match call.settle(&mut client, 0) {
        CallStep::Wait(call) => call,
        other => panic!("expected to wait, got {other:?}"),
    };
    arrive(&mut client, FrameKind::MESSAGE, 0, 1, b"reply");
    let call = match call.settle(&mut client, 0) {
        CallStep::Wait(call) => call,
        other => panic!("expected to wait, got {other:?}"),
    };
    assert_eq!(call.response.as_deref(), Some(b"reply".as_slice()));
    arrive(&mut client, FrameKind::CLOSE, 0, 1, b"");
    match call.settle(&mut client, 0) {
        CallStep::Done(bytes) => assert_eq!(bytes, b"reply"),
        other => panic!("expected the response, got {other:?}"),
    }
}

#[test]
fn single_steps_report_progress() {
    let mut client = client();
    let call = begin(&mut client, None);
    arrive(&mut client, FrameKind::MESSAGE, 0, 1, b"reply");
    arrive(&mut client, FrameKind::CLOSE, 0, 1, b"");
    let call = match call.step(&mut client, 0) {
        CallStep::More(call) => call,
        other => panic!("expected more, got {other:?}"),
    };
    assert!(matches!(call.step(&mut client, 0), CallStep::Done(bytes) if bytes == b"reply"));
}

#[test]
fn failures_carry_their_status() {
    let mut client = client();
    let call = begin(&mut client, None);
    arrive(&mut client, FrameKind::CLOSE, 99, 1, "d\u{e9}tail".as_bytes());
    match call.settle(&mut client, 0) {
        CallStep::Failed(err, None) => {
            assert_eq!(status_of(err), Status::new(Code(99), "d\u{e9}tail"));
        }
        other => panic!("expected a failure, got {other:?}"),
    }
}

#[test]
fn details_that_are_not_utf8_are_repaired() {
    let mut client = client();
    let call = begin(&mut client, None);
    arrive(&mut client, FrameKind::CLOSE, 2, 1, b"a\xffb");
    match call.settle(&mut client, 0) {
        CallStep::Failed(err, None) => {
            assert_eq!(status_of(err), Status::new(Code(Code::UNKNOWN), "a\u{fffd}b"));
        }
        other => panic!("expected a failure, got {other:?}"),
    }
}

#[test]
fn second_messages_break_the_protocol() {
    let mut client = client();
    let call = begin(&mut client, None);
    arrive(&mut client, FrameKind::MESSAGE, 0, 1, b"one");
    arrive(&mut client, FrameKind::MESSAGE, 0, 1, b"two");
    match call.settle(&mut client, 0) {
        CallStep::Failed(RpcError::Protocol(what), Some(frame)) => {
            assert_eq!(what, "second message on a unary call");
            assert_eq!(frame, cancel_of(1));
        }
        other => panic!("expected a violation, got {other:?}"),
    }
}

#[test]
fn success_without_a_response_breaks_the_protocol() {
    let mut client = client();
    let call = begin(&mut client, None);
    arrive(&mut client, FrameKind::CLOSE, 0, 1, b"");
    match call.settle(&mut client, 0) {
        CallStep::Failed(RpcError::Protocol(what), None) => {
            assert_eq!(what, "CLOSE(ok) without a response message");
        }
        other => panic!("expected a violation, got {other:?}"),
    }
}

#[test]
fn expiry_ends_the_wait() {
    let mut client = client();
    let call = begin(&mut client, Some(100));
    let call = match call.settle(&mut client, 99) {
        CallStep::Wait(call) => call,
        other => panic!("expected to wait, got {other:?}"),
    };
    match call.settle(&mut client, 100) {
        CallStep::Failed(err, Some(frame)) => {
            assert_eq!(
                status_of(err),
                Status::new(Code(Code::DEADLINE_EXCEEDED), "deadline exceeded")
            );
            assert_eq!(frame, cancel_of(1));
        }
        other => panic!("expected a timeout, got {other:?}"),
    }
}

#[test]
fn what_arrived_in_time_is_taken_late() {
    let mut client = client();
    let call = begin(&mut client, Some(100));
    arrive(&mut client, FrameKind::MESSAGE, 0, 1, b"reply");
    arrive(&mut client, FrameKind::CLOSE, 0, 1, b"");
    assert!(matches!(call.settle(&mut client, 1_000), CallStep::Done(_)));
}

#[test]
fn disconnection_reaches_waiting_calls() {
    let mut client = client();
    let first = begin(&mut client, Some(100));
    let second = begin(&mut client, None);
    arrive(&mut client, FrameKind::MESSAGE, 0, 2, b"reply");
    arrive(&mut client, FrameKind::CLOSE, 0, 2, b"");
    client.close();
    let gone = Status::new(Code(Code::UNAVAILABLE), "connection closed mid-call");
    match first.settle(&mut client, 1_000) {
        CallStep::Failed(err, Some(_)) => assert_eq!(status_of(err), gone),
        other => panic!("expected a failure, got {other:?}"),
    }
    // What had arrived before is still delivered.
    assert!(matches!(second.settle(&mut client, 0), CallStep::Done(bytes) if bytes == b"reply"));
    // A call begun afterwards learns at once.
    let third = begin(&mut client, None);
    match third.settle(&mut client, 0) {
        CallStep::Failed(err, _) => assert_eq!(status_of(err), gone),
        other => panic!("expected a failure, got {other:?}"),
    }
    let header = FrameHeader::outgoing(FrameKind::PING, 0, 0);
    assert!(matches!(client.on_frame(header, vec![]), ClientAction::Stop));
}

#[test]
fn frames_of_different_calls_interleave() {
    let mut client = client();
    let first = begin(&mut client, None);
    let second = begin(&mut client, None);
    arrive(&mut client, FrameKind::MESSAGE, 0, 2, b"two");
    arrive(&mut client, FrameKind::MESSAGE, 0, 1, b"one");
    arrive(&mut client, FrameKind::CLOSE, 0, 1, b"");
    arrive(&mut client, FrameKind::CLOSE, 0, 2, b"");
    assert!(matches!(first.settle(&mut client, 0), CallStep::Done(bytes) if bytes == b"one"));
    assert!(matches!(second.settle(&mut client, 0), CallStep::Done(bytes) if bytes == b"two"));
}

#[test]
fn frames_for_calls_that_ended_are_ignored() {
    let mut client = client();
    let call = begin(&mut client, None);
    arrive(&mut client, FrameKind::CLOSE, 5, 1, b"first");
    arrive(&mut client, FrameKind::CLOSE, 6, 1, b"second");
    arrive(&mut client, FrameKind::MESSAGE, 0, 1, b"late");
    arrive(&mut client, FrameKind::MESSAGE, 0, 42, b"nobody's");
    match call.settle(&mut client, 0) {
        CallStep::Failed(err, None) => assert_eq!(status_of(err).message, "first"),
        other => panic!("expected a failure, got {other:?}"),
    }
    assert!(matches!(client.recv(1, None, 0), Received::Failed(_)));
    assert!(matches!(client.recv(42, None, 0), Received::Failed(_)));
}

#[test]
fn events_come_oldest_first() {
    let mut client = client();
    begin(&mut client, None);
    arrive(&mut client, FrameKind::MESSAGE, 0, 1, b"one");
    arrive(&mut client, FrameKind::MESSAGE, 0, 1, b"two");
    for expected in [b"one", b"two"] {
        match client.recv(1, None, 0) {
            Received::Event(Event::Message(bytes)) => assert_eq!(bytes, expected),
            other => panic!("expected a message, got {other:?}"),
        }
    }
    assert!(matches!(client.recv(1, None, 0), Received::Wait));
}

#[test]
fn cancelled_calls_are_forgotten() {
    let mut client = client();
    begin(&mut client, None);
    assert_eq!(client.cancel(1), cancel_of(1));
    arrive(&mut client, FrameKind::MESSAGE, 0, 1, b"late");
    assert!(matches!(client.recv(1, None, 0), Received::Failed(_)));
}

#[test]
fn calls_that_cannot_be_sent_fail() {
    let mut client = client();
    begin(&mut client, None);
    let err = client.send_failed(1, std::io::Error::new(std::io::ErrorKind::BrokenPipe, "gone"));
    assert_eq!(err.to_string(), "transport: gone");
    assert!(matches!(client.recv(1, None, 0), Received::Failed(_)));
}

#[test]
fn violations_stop_the_client() {
    for kind in [FrameKind::CALL, FrameKind::CANCEL, 6, 255] {
        let action = client().on_frame(FrameHeader::outgoing(kind, 0, 1), vec![]);
        assert!(matches!(action, ClientAction::Stop));
    }
    for kind in 0..6 {
        let mut flagged = FrameHeader::outgoing(kind, 0, 1);
        flagged.flags = 0x80;
        assert!(matches!(client().on_frame(flagged, vec![]), ClientAction::Stop));
    }
}

#[test]
fn probes_of_the_server_are_echoed() {
    let header = FrameHeader::outgoing(FrameKind::PING, 0, 0);
    match client().on_frame(header, vec![1, 2, 3]) {
        ClientAction::Reply(frame) => {
            assert_eq!(frame, Frame::new(FrameKind::PONG, 0, 0, vec![1, 2, 3]));
        }
        other => panic!("expected a PONG, got {other:?}"),
    }
}

#[test]
fn probes_are_matched_by_nonce() {
    let mut client = client();
    let (first, frame) = client.ping();
    assert_eq!(first, 1);
    assert_eq!(frame, Frame::new(FrameKind::PING, 0, 0, vec![1, 0, 0, 0, 0, 0, 0, 0]));
    let (second, _) = client.ping();
    assert_eq!(second, 2);
    arrive(&mut client, FrameKind::PONG, 0, 0, &9u64.to_le_bytes());
    arrive(&mut client, FrameKind::PONG, 0, 0, b"odd");
    arrive(&mut client, FrameKind::PONG, 0, 0, &second.to_le_bytes());
    assert!(client.ping_result(first, 10, 100, 30).is_none());
    assert_eq!(client.ping_result(second, 10, 100, 30).unwrap().unwrap(), 20);
    let late = client.ping_result(first, 10, 100, 100).unwrap().unwrap_err();
    assert_eq!(
        status_of(late),
        Status::new(Code(Code::DEADLINE_EXCEEDED), "ping timed out")
    );
}

#[test]
fn probes_fail_with_the_connection() {
    let mut client = client();
    let (nonce, _) = client.ping();
    client.close();
    let err = client.ping_result(nonce, 0, 100, 1).unwrap().unwrap_err();
    assert_eq!(err.code(), Some(Code(Code::DEADLINE_EXCEEDED)));
    let (nonce, _) = client.ping();
    let io = std::io::Error::new(std::io::ErrorKind::BrokenPipe, "gone");
    assert_eq!(client.ping_failed(nonce, io).to_string(), "transport: gone");
}

#[test]
fn responses_decode_or_fail() {
    assert_eq!(decoded_response(Ok(3)).unwrap(), 3);
    let decoded: Result<u8, DecodeError> = Err(DecodeError { detail: String::from("short") });
    assert_eq!(
        decoded_response(decoded).unwrap_err().to_string(),
        "response did not decode: short"
    );
}

fn stream(client: &mut Client, patience: Option<u128>) -> Streaming<Raw> {
    let method: StreamMethod<Raw, Raw> = StreamMethod::new("t/s");
    client.server_stream(method, &Raw(vec![]), patience, 1_000).unwrap().0
}

#[test]
fn calls_expire_after_their_patience() {
    let mut client = client();
    let method: Method<Raw, Raw> = Method::new("t/u");
    let (call, frame) = client.call(method, &Raw(vec![5]), Some(2_000_000), 1_000).unwrap();
    assert_eq!((call.call_id, call.expires, call.response), (1, Some(2_001_000), None));
    assert_eq!(frame.payload[..8], method.id.to_le_bytes());
    assert_eq!(frame.payload[8..], [2, 0, 0, 0, 5]);
    assert_eq!(stream(&mut client, None).expires, None);
    assert_eq!(stream(&mut client, Some(7)).expires, Some(1_007));
}

#[test]
fn streams_yield_until_they_end() {
    let mut client = client();
    let mut items = stream(&mut client, None);
    assert!(matches!(items.next(&mut client, 0), StreamStep::Wait));
    arrive(&mut client, FrameKind::MESSAGE, 0, 1, b"one");
    arrive(&mut client, FrameKind::MESSAGE, 0, 1, b"two");
    arrive(&mut client, FrameKind::CLOSE, 0, 1, b"");
    assert!(matches!(items.next(&mut client, 0), StreamStep::Item(Raw(b)) if b == b"one"));
    assert!(matches!(items.next(&mut client, 0), StreamStep::Item(Raw(b)) if b == b"two"));
    assert!(matches!(items.next(&mut client, 0), StreamStep::End));
    assert!(matches!(items.next(&mut client, 0), StreamStep::End));
    assert!(items.cancel(&mut client).is_none());
}

#[test]
fn streams_that_fail_end() {
    let mut client = client();
    let mut items = stream(&mut client, None);
    arrive(&mut client, FrameKind::CLOSE, 10, 1, b"enough");
    match items.next(&mut client, 0) {
        StreamStep::Failed(err, None) => {
            assert_eq!(status_of(err), Status::new(Code(Code::ABORTED), "enough"));
        }
        other => panic!("expected a failure, got {other:?}"),
    }
    assert!(matches!(items.next(&mut client, 0), StreamStep::End));
}

#[test]
fn streams_time_out() {
    let mut client = client();
    let mut items = stream(&mut client, Some(7));
    assert!(matches!(items.next(&mut client, 1_006), StreamStep::Wait));
    match items.next(&mut client, 1_007) {
        StreamStep::Failed(err, Some(frame)) => {
            assert_eq!(err.code(), Some(Code(Code::DEADLINE_EXCEEDED)));
            assert_eq!(frame, cancel_of(1));
        }
        other => panic!("expected a timeout, got {other:?}"),
    }
    assert!(items.finished);
}

#[test]
fn streams_learn_of_disconnection() {
    let mut client = client();
    let mut items = stream(&mut client, None);
    arrive(&mut client, FrameKind::MESSAGE, 0, 1, b"one");
    client.close();
    assert!(matches!(items.next(&mut client, 0), StreamStep::Item(_)));
    match items.next(&mut client, 0) {
        StreamStep::Failed(err, Some(_)) => {
            assert_eq!(err.code(), Some(Code(Code::UNAVAILABLE)));
        }
        other => panic!("expected a failure, got {other:?}"),
    }
}

#[test]
fn undecodable_items_end_the_stream() {
    let mut client = client();
    let mut items = stream(&mut client, None);
    arrive(&mut client, FrameKind::MESSAGE, 0, 1, b"bad");
    match items.next(&mut client, 0) {
        StreamStep::Failed(RpcError::Decode(err), Some(frame)) => {
            assert_eq!(err.detail, "bad");
            assert_eq!(frame, cancel_of(1));
        }
        other => panic!("expected a decode failure, got {other:?}"),
    }
    assert!(matches!(items.next(&mut client, 0), StreamStep::End));
    assert!(items.finish_early(&mut client).is_none());
}

#[test]
fn items_are_passed_on_as_decoded() {
    let mut client = client();
    let mut items = stream(&mut client, None);
    let step = items.on_item(&mut client, Ok(Raw(vec![4])));
    assert!(matches!(step, StreamStep::Item(Raw(bytes)) if bytes == vec![4]));
    assert!(!items.finished);
}
