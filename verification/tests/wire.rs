//! The frame layer.

use nanorpc::frame::{
    read_frame, write_frame, CallPrologue, FrameError, FrameHeader, FrameKind, MAX_FRAME_LEN,
};
use nanorpc::method::method_id;
use nanorpc::status::Code;

#[test]
fn header_round_trips() {
    let header = FrameHeader {
        kind: FrameKind(FrameKind::CLOSE),
        flags: 0,
        status: Code::NOT_FOUND,
        call_id: 7,
        length: 1234,
    };
    assert_eq!(FrameHeader::decode(&header.encode()), header);
}

#[test]
fn method_ids_are_stable() {
    // Pinned: a change here is a wire format break.
    assert_eq!(method_id(""), 0xcbf2_9ce4_8422_2325);
    assert_eq!(method_id("interop.Echo/say"), 0x2144_947f_5c60_b34d);
}

#[test]
fn frame_io_round_trips() {
    let mut buf = Vec::new();
    let header = FrameHeader {
        kind: FrameKind(FrameKind::MESSAGE),
        flags: 0,
        status: 0,
        call_id: 3,
        length: 0, // overwritten by write_frame
    };
    write_frame(&mut buf, header, b"hello");
    let (read_header, payload) = read_frame(&mut buf.as_slice(), MAX_FRAME_LEN).unwrap();
    assert_eq!(read_header.kind, FrameKind(FrameKind::MESSAGE));
    assert_eq!(read_header.length, 5);
    assert_eq!(payload, b"hello");
}

#[test]
fn prologue_round_trips() {
    let prologue = CallPrologue {
        method: method_id("interop.Echo/say"),
        deadline_ms: 1500,
    };
    assert_eq!(CallPrologue::decode(&prologue.encode()), prologue);
}

#[test]
fn oversized_frames_are_rejected() {
    let header = FrameHeader {
        kind: FrameKind(FrameKind::MESSAGE),
        flags: 0,
        status: 0,
        call_id: 1,
        length: MAX_FRAME_LEN + 1,
    };
    let bytes = header.encode();
    let err = read_frame(&mut bytes.as_slice(), MAX_FRAME_LEN).unwrap_err();
    assert_eq!(
        err,
        FrameError::TooLong { length: MAX_FRAME_LEN + 1, limit: MAX_FRAME_LEN }
    );
}

#[test]
fn codes_match_grpc_numbering() {
    assert_eq!(Code::OK, 0);
    assert_eq!(Code::DEADLINE_EXCEEDED, 4);
    assert_eq!(Code::UNIMPLEMENTED, 12);
    assert_eq!(Code::UNAUTHENTICATED, 16);
    assert_eq!(Code(99).name(), None);
}
