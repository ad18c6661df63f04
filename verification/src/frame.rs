//! Frame layer: the connection preface, frame headers, the call prologue, and
//! whole frames on a byte stream.
//!
//! Everything on a connection after the preface is a 16-byte little-endian
//! frame header followed by `length` payload bytes.

use crate::bytes::{
    byte_range, le_bytes, le_bytes_len, le_bytes_of_le_value, le_value, le_value_of_le_bytes,
    u16_from_le, u16_to_le, u32_from_le, u32_to_le, u64_from_le, u64_to_le,
};
use crate::text::{decimal, decimal_text};
use vstd::prelude::*;
use vstd::slice::slice_subrange;

verus! {

/// Sent by both peers immediately after connecting: the protocol name and
/// a version byte. A peer that reads anything else hangs up.
pub const PREFACE: [u8; 8] = [0x6e, 0x61, 0x6e, 0x6f, 0x72, 0x70, 0x63, 0x01];

/// Frames larger than this are a protocol violation. Large payloads are an
/// application decision; runtimes may lower the limit, never raise it.
pub const MAX_FRAME_LEN: u32 = 64 * 1024 * 1024;

pub const FRAME_HEADER_LEN: usize = 16;

pub const CALL_PROLOGUE_LEN: usize = 12;

/// Whether `bytes` are the preface of this protocol version.
pub fn is_preface(bytes: &[u8; 8]) -> (same: bool)
    ensures
        same == (bytes@ == PREFACE@),
{
    let mut i: usize = 0;
    while i < 8
        invariant
            i <= 8,
            forall|j: int| 0 <= j < i ==> bytes@[j] == PREFACE@[j],
        decreases 8 - i,
    {
        if bytes[i] != PREFACE[i] {
            return false;
        }
        i += 1;
    }
    assert(bytes@ =~= PREFACE@);
    true
}

/// Frame type. Open: unknown kinds are a connection error, which is how
/// the protocol stays extensible without version sniffing.
#[derive(Clone, Copy, PartialEq, Eq, Debug, Structural)]
pub struct FrameKind(pub u8);

/// The name of a known frame kind.
pub open spec fn kind_name(kind: u8) -> Option<Seq<char>> {
    if kind == FrameKind::CALL {
        Some("CALL"@)
    } else if kind == FrameKind::MESSAGE {
        Some("MESSAGE"@)
    } else if kind == FrameKind::CLOSE {
        Some("CLOSE"@)
    } else if kind == FrameKind::CANCEL {
        Some("CANCEL"@)
    } else if kind == FrameKind::PING {
        Some("PING"@)
    } else if kind == FrameKind::PONG {
        Some("PONG"@)
    } else {
        None
    }
}

impl FrameKind {
    /// Opens a call. Payload: 12-byte prologue, then the request message.
    pub const CALL: u8 = 0;

    /// One message on an open call.
    pub const MESSAGE: u8 = 1;

    /// Ends a call. `status` is the outcome; payload is a UTF-8 detail
    /// string. Every call ends with exactly one CLOSE from the server.
    pub const CLOSE: u8 = 2;

    /// Client no longer wants the call. Best-effort; the server still
    /// sends CLOSE.
    pub const CANCEL: u8 = 3;

    /// Keepalive probe carrying 8 opaque bytes, answered with PONG.
    pub const PING: u8 = 4;

    pub const PONG: u8 = 5;

    /// The name of a known kind, `None` for any other.
    pub fn name(self) -> (name: Option<&'static str>)
        ensures
            match name {
                Some(text) => kind_name(self.0) == Some(text@),
                None => kind_name(self.0) is None,
            },
    {
        Some(
            match self.0 {
                0 => "CALL",
                1 => "MESSAGE",
                2 => "CLOSE",
                3 => "CANCEL",
                4 => "PING",
                5 => "PONG",
                _ => return None,
            },
        )
    }
}

/// The 16-byte header preceding every payload.
#[derive(Clone, Copy, PartialEq, Eq, Debug, Structural)]
pub struct FrameHeader {
    pub kind: FrameKind,
    /// Reserved, must be zero in version 1.
    pub flags: u8,
    /// Status code; meaningful only on CLOSE, zero elsewhere.
    pub status: u16,
    /// Client-assigned call id; zero on connection-level frames.
    pub call_id: u32,
    /// Payload length in bytes.
    pub length: u32,
}

/// The header that a header's sixteen bytes hold.
pub open spec fn parse_header(bytes: Seq<u8>) -> FrameHeader {
    FrameHeader {
        kind: FrameKind(bytes[0]),
        flags: bytes[1],
        status: le_value(bytes.subrange(2, 4)) as u16,
        call_id: le_value(bytes.subrange(4, 8)) as u32,
        length: le_value(bytes.subrange(8, 12)) as u32,
    }
}

impl FrameHeader {
    /// The header on the wire: kind, flags, status, call id, length and four
    /// reserved zero bytes.
    pub open spec fn wire(self) -> Seq<u8> {
        seq![self.kind.0, self.flags] + le_bytes(self.status as nat, 2) + le_bytes(
            self.call_id as nat,
            4,
        ) + le_bytes(self.length as nat, 4) + le_bytes(0, 4)
    }

    /// A header as this runtime sends it: no flags, and the length left for
    /// [`write_frame`] to fill in.
    pub open spec fn outgoing_spec(kind: u8, status: u16, call_id: u32) -> FrameHeader {
        FrameHeader { kind: FrameKind(kind), flags: 0, status, call_id, length: 0 }
    }

    pub fn outgoing(kind: u8, status: u16, call_id: u32) -> (header: FrameHeader)
        ensures
            header == FrameHeader::outgoing_spec(kind, status, call_id),
    {
        FrameHeader { kind: FrameKind(kind), flags: 0, status, call_id, length: 0 }
    }

    pub fn encode(&self) -> (bytes: [u8; FRAME_HEADER_LEN])
        ensures
            bytes@ == self.wire(),
    {
        let status = u16_to_le(self.status);
        let call_id = u32_to_le(self.call_id);
        let length = u32_to_le(self.length);
        let bytes = [
            self.kind.0,
            self.flags,
            status[0],
            status[1],
            call_id[0],
            call_id[1],
            call_id[2],
            call_id[3],
            length[0],
            length[1],
            length[2],
            length[3],
            0,
            0,
            0,
            0,
        ];
        proof {
            le_bytes_len(0, 4);
            reveal_with_fuel(le_bytes, 5);
            assert(bytes@ =~= self.wire());
        }
        bytes
    }

    pub fn decode(bytes: &[u8; FRAME_HEADER_LEN]) -> (header: FrameHeader)
        ensures
            header == parse_header(bytes@),
    {
        let status = [bytes[2], bytes[3]];
        let call_id = [bytes[4], bytes[5], bytes[6], bytes[7]];
        let length = [bytes[8], bytes[9], bytes[10], bytes[11]];
        proof {
            assert(status@ =~= bytes@.subrange(2, 4));
            assert(call_id@ =~= bytes@.subrange(4, 8));
            assert(length@ =~= bytes@.subrange(8, 12));
        }
        FrameHeader {
            kind: FrameKind(bytes[0]),
            flags: bytes[1],
            status: u16_from_le(status),
            call_id: u32_from_le(call_id),
            length: u32_from_le(length),
        }
    }
}

/// A header's bytes are sixteen, and decode to the header: no field is lost,
/// whatever it holds.
pub proof fn header_round_trips(header: FrameHeader)
    ensures
        header.wire().len() == FRAME_HEADER_LEN,
        parse_header(header.wire()) == header,
{
    let status = le_bytes(header.status as nat, 2);
    let call_id = le_bytes(header.call_id as nat, 4);
    let length = le_bytes(header.length as nat, 4);
    reveal_with_fuel(byte_range, 5);
    le_bytes_len(header.status as nat, 2);
    le_bytes_len(header.call_id as nat, 4);
    le_bytes_len(header.length as nat, 4);
    le_bytes_len(0, 4);
    le_value_of_le_bytes(header.status as nat, 2);
    le_value_of_le_bytes(header.call_id as nat, 4);
    le_value_of_le_bytes(header.length as nat, 4);
    let wire = header.wire();
    assert(wire.subrange(2, 4) =~= status);
    assert(wire.subrange(4, 8) =~= call_id);
    assert(wire.subrange(8, 12) =~= length);
}

/// The reserved bytes of every header sent are zero.
pub proof fn reserved_bytes_are_zero(header: FrameHeader)
    ensures
        header.wire().subrange(12, 16) == seq![0u8, 0u8, 0u8, 0u8],
{
    header_round_trips(header);
    le_bytes_len(header.status as nat, 2);
    le_bytes_len(header.call_id as nat, 4);
    le_bytes_len(header.length as nat, 4);
    reveal_with_fuel(le_bytes, 5);
    assert(header.wire().subrange(12, 16) =~= seq![0u8, 0u8, 0u8, 0u8]);
}

/// Sixteen bytes whose reserved part is zero encode back to themselves, so
/// equal headers have equal bytes and the other way round.
pub proof fn header_bytes_round_trip(bytes: Seq<u8>)
    requires
        bytes.len() == FRAME_HEADER_LEN,
        bytes.subrange(12, 16) == seq![0u8, 0u8, 0u8, 0u8],
    ensures
        parse_header(bytes).wire() == bytes,
{
    let header = parse_header(bytes);
    reveal_with_fuel(byte_range, 5);
    le_bytes_of_le_value(bytes.subrange(2, 4));
    le_bytes_of_le_value(bytes.subrange(4, 8));
    le_bytes_of_le_value(bytes.subrange(8, 12));
    le_bytes_of_le_value(bytes.subrange(12, 16));
    assert(le_value(bytes.subrange(12, 16)) == 0) by {
        reveal_with_fuel(le_value, 5);
    }
    assert(header.wire() =~= seq![bytes[0], bytes[1]] + bytes.subrange(2, 4) + bytes.subrange(
        4,
        8,
    ) + bytes.subrange(8, 12) + bytes.subrange(12, 16));
    assert(header.wire() =~= bytes);
}

/// First 12 payload bytes of every CALL frame.
#[derive(Clone, Copy, PartialEq, Eq, Debug, Structural)]
pub struct CallPrologue {
    /// FNV-1a of the method path.
    pub method: u64,
    /// Milliseconds the caller is still willing to wait; zero means
    /// unbounded. Relative, so peers never need synchronized clocks.
    pub deadline_ms: u32,
}

/// The prologue that its twelve bytes hold.
pub open spec fn parse_prologue(bytes: Seq<u8>) -> CallPrologue {
    CallPrologue {
        method: le_value(bytes.subrange(0, 8)) as u64,
        deadline_ms: le_value(bytes.subrange(8, 12)) as u32,
    }
}

impl CallPrologue {
    /// The prologue on the wire: method id, then deadline.
    pub open spec fn wire(self) -> Seq<u8> {
        le_bytes(self.method as nat, 8) + le_bytes(self.deadline_ms as nat, 4)
    }

    pub fn encode(&self) -> (bytes: [u8; CALL_PROLOGUE_LEN])
        ensures
            bytes@ == self.wire(),
    {
        let m = u64_to_le(self.method);
        let d = u32_to_le(self.deadline_ms);
        let bytes = [m[0], m[1], m[2], m[3], m[4], m[5], m[6], m[7], d[0], d[1], d[2], d[3]];
        assert(bytes@ =~= self.wire());
        bytes
    }

    pub fn decode(bytes: &[u8; CALL_PROLOGUE_LEN]) -> (prologue: CallPrologue)
        ensures
            prologue == parse_prologue(bytes@),
    {
        let m = [
            bytes[0],
            bytes[1],
            bytes[2],
            bytes[3],
            bytes[4],
            bytes[5],
            bytes[6],
            bytes[7],
        ];
        let d = [bytes[8], bytes[9], bytes[10], bytes[11]];
        proof {
            assert(m@ =~= bytes@.subrange(0, 8));
            assert(d@ =~= bytes@.subrange(8, 12));
        }
        CallPrologue { method: u64_from_le(m), deadline_ms: u32_from_le(d) }
    }
}

/// A prologue's bytes are twelve, and decode to the prologue.
pub proof fn prologue_round_trips(prologue: CallPrologue)
    ensures
        prologue.wire().len() == CALL_PROLOGUE_LEN,
        parse_prologue(prologue.wire()) == prologue,
{
    reveal_with_fuel(byte_range, 9);
    le_bytes_len(prologue.method as nat, 8);
    le_bytes_len(prologue.deadline_ms as nat, 4);
    le_value_of_le_bytes(prologue.method as nat, 8);
    le_value_of_le_bytes(prologue.deadline_ms as nat, 4);
    assert(prologue.wire().subrange(0, 8) =~= le_bytes(prologue.method as nat, 8));
    assert(prologue.wire().subrange(8, 12) =~= le_bytes(prologue.deadline_ms as nat, 4));
}

/// Any twelve bytes are the bytes of the prologue that they decode to.
pub proof fn prologue_bytes_round_trip(bytes: Seq<u8>)
    requires
        bytes.len() == CALL_PROLOGUE_LEN,
    ensures
        parse_prologue(bytes).wire() == bytes,
{
    reveal_with_fuel(byte_range, 9);
    le_bytes_of_le_value(bytes.subrange(0, 8));
    le_bytes_of_le_value(bytes.subrange(8, 12));
    assert(parse_prologue(bytes).wire() =~= bytes);
}

/// A frame to be sent: a header whose length is still to be filled in, and
/// the payload.
#[derive(Clone, PartialEq, Eq, Debug)]
pub struct Frame {
    pub header: FrameHeader,
    pub payload: Vec<u8>,
}

impl View for Frame {
    type V = (FrameHeader, Seq<u8>);

    open spec fn view(&self) -> (FrameHeader, Seq<u8>) {
        (self.header, self.payload@)
    }
}

impl Frame {
    /// An outgoing frame.
    pub fn new(kind: u8, status: u16, call_id: u32, payload: Vec<u8>) -> (frame: Frame)
        ensures
            frame@ == (FrameHeader::outgoing_spec(kind, status, call_id), payload@),
    {
        Frame { header: FrameHeader::outgoing(kind, status, call_id), payload }
    }
}

/// Why no frame could be read.
#[derive(Clone, Copy, PartialEq, Eq, Debug, Structural)]
pub enum FrameError {
    /// The stream ended inside a frame.
    Truncated,
    /// The header announces more payload than the limit allows.
    TooLong { length: u32, limit: u32 },
}

impl FrameError {
    /// The error as text.
    pub fn to_string(&self) -> (text: String)
        ensures
            text@ == match *self {
                FrameError::Truncated => "stream ended inside a frame"@,
                FrameError::TooLong { length, limit } => "frame of "@ + decimal_text(length as nat)
                    + " bytes exceeds limit "@ + decimal_text(limit as nat),
            },
    {
        match *self {
            FrameError::Truncated => String::from_str("stream ended inside a frame"),
            FrameError::TooLong { length, limit } => {
                let mut text = String::from_str("frame of ");
                text.append(decimal(length as u64).as_str());
                text.append(" bytes exceeds limit ");
                text.append(decimal(limit as u64).as_str());
                text
            },
        }
    }
}

/// The header once the length of `len` payload bytes is filled in.
pub open spec fn with_length(header: FrameHeader, len: nat) -> FrameHeader {
    FrameHeader { length: (len % 0x1_0000_0000) as u32, ..header }
}

/// A whole frame on the wire: the header with the payload's length, then the
/// payload.
pub open spec fn frame_wire(header: FrameHeader, payload: Seq<u8>) -> Seq<u8> {
    with_length(header, payload.len()).wire() + payload
}

/// The frame at the front of a stream, under a limit on its payload.
pub open spec fn parse_frame(stream: Seq<u8>, max_len: u32) -> Result<
    (FrameHeader, Seq<u8>),
    FrameError,
> {
    let header = parse_header(stream.take(FRAME_HEADER_LEN as int));
    if stream.len() < FRAME_HEADER_LEN {
        Err(FrameError::Truncated)
    } else if header.length > max_len {
        Err(FrameError::TooLong { length: header.length, limit: max_len })
    } else if stream.len() < FRAME_HEADER_LEN + header.length {
        Err(FrameError::Truncated)
    } else {
        Ok((header, stream.subrange(FRAME_HEADER_LEN as int, FRAME_HEADER_LEN + header.length)))
    }
}

/// What reading a frame leaves of a stream: on success what follows the
/// frame, on an overlong frame what follows its header, and nothing when the
/// stream ended too early.
pub open spec fn after_frame(stream: Seq<u8>, max_len: u32) -> Seq<u8> {
    match parse_frame(stream, max_len) {
        Ok((header, _)) => stream.skip(FRAME_HEADER_LEN + header.length),
        Err(FrameError::TooLong { .. }) => stream.skip(FRAME_HEADER_LEN as int),
        Err(FrameError::Truncated) => Seq::empty(),
    }
}

/// Decodes a header and holds its payload length to `max_len`: the part of
/// reading a frame that decides whether the payload is read at all.
pub fn accept_header(bytes: &[u8; FRAME_HEADER_LEN], max_len: u32) -> (out: Result<
    FrameHeader,
    FrameError,
>)
    ensures
        out == if parse_header(bytes@).length > max_len {
            Err(FrameError::TooLong { length: parse_header(bytes@).length, limit: max_len })
        } else {
            Ok::<FrameHeader, FrameError>(parse_header(bytes@))
        },
{
    let header = FrameHeader::decode(bytes);
    if header.length > max_len {
        return Err(FrameError::TooLong { length: header.length, limit: max_len });
    }
    Ok(header)
}

/// Reads one frame off the front of `reader`, enforcing `max_len` on the
/// payload.
pub fn read_frame(reader: &mut &[u8], max_len: u32) -> (out: Result<
    (FrameHeader, Vec<u8>),
    FrameError,
>)
    ensures
        match parse_frame(old(reader)@, max_len) {
            Ok((header, payload)) => {
                &&& out matches Ok((h, p))
                &&& h == header
                &&& p@ == payload
            },
            Err(err) => out == Err::<(FrameHeader, Vec<u8>), FrameError>(err),
        },
        final(reader)@ == after_frame(old(reader)@, max_len),
{
    let stream: &[u8] = *reader;
    let len: usize = stream.len();
    if len < FRAME_HEADER_LEN {
        *reader = slice_subrange(stream, len, len);
        assert(reader@ =~= Seq::<u8>::empty());
        return Err(FrameError::Truncated);
    }
    let bytes = [
        stream[0],
        stream[1],
        stream[2],
        stream[3],
        stream[4],
        stream[5],
        stream[6],
        stream[7],
        stream[8],
        stream[9],
        stream[10],
        stream[11],
        stream[12],
        stream[13],
        stream[14],
        stream[15],
    ];
    assert(bytes@ =~= stream@.take(FRAME_HEADER_LEN as int));
    let body = slice_subrange(stream, FRAME_HEADER_LEN, len);
    match accept_header(&bytes, max_len) {
        Err(err) => {
            *reader = body;
            assert(reader@ =~= stream@.skip(FRAME_HEADER_LEN as int));
            Err(err)
        },
        Ok(header) => {
            if body.len() < header.length as usize {
                *reader = slice_subrange(stream, len, len);
                assert(reader@ =~= Seq::<u8>::empty());
                return Err(FrameError::Truncated);
            }
            let payload_len: usize = header.length as usize;
            let mut payload: Vec<u8> = Vec::new();
            payload.extend_from_slice(slice_subrange(body, 0, payload_len));
            *reader = slice_subrange(body, payload_len, body.len());
            proof {
                assert(payload@ =~= stream@.subrange(
                    FRAME_HEADER_LEN as int,
                    FRAME_HEADER_LEN + header.length,
                ));
                assert(reader@ =~= stream@.skip(FRAME_HEADER_LEN + header.length));
            }
            Ok((header, payload))
        },
    }
}

/// Writes one frame after what `writer` holds, with the payload's length
/// filled into the header.
pub fn write_frame(writer: &mut Vec<u8>, header: FrameHeader, payload: &[u8])
    ensures
        final(writer)@ == old(writer)@ + frame_wire(header, payload@),
{
    let length: u32 = (payload.len() as u64 % 0x1_0000_0000) as u32;
    let filled = FrameHeader { length, ..header };
    assert(filled == with_length(header, payload@.len()));
    writer.extend_from_slice(&filled.encode());
    writer.extend_from_slice(payload);
    assert(writer@ =~= old(writer)@ + frame_wire(header, payload@));
}

/// What was written as one frame is read back as that frame, with its length
/// filled in, and whatever follows it on the stream is left in place.
///
/// It holds of every payload within the reader's limit; a longer one is
/// refused.
pub proof fn frame_round_trips(header: FrameHeader, payload: Seq<u8>, rest: Seq<u8>, max_len: u32)
    requires
        payload.len() <= max_len,
    ensures
        parse_frame(frame_wire(header, payload) + rest, max_len) == Ok::<_, FrameError>(
            (with_length(header, payload.len()), payload),
        ),
        after_frame(frame_wire(header, payload) + rest, max_len) == rest,
{
    let filled = with_length(header, payload.len());
    let stream = frame_wire(header, payload) + rest;
    header_round_trips(filled);
    assert(stream.take(FRAME_HEADER_LEN as int) =~= filled.wire());
    assert(stream.subrange(FRAME_HEADER_LEN as int, FRAME_HEADER_LEN + payload.len())
        =~= payload);
    assert(stream.skip(FRAME_HEADER_LEN + payload.len() as int) =~= rest);
}

/// A payload longer than the reader's limit is refused from the header alone,
/// whatever follows.
pub proof fn oversized_frames_are_refused(
    header: FrameHeader,
    payload: Seq<u8>,
    rest: Seq<u8>,
    max_len: u32,
)
    requires
        max_len < payload.len() <= u32::MAX,
    ensures
        parse_frame(frame_wire(header, payload) + rest, max_len) == Err::<
            (FrameHeader, Seq<u8>),
            FrameError,
        >(FrameError::TooLong { length: payload.len() as u32, limit: max_len }),
{
    let filled = with_length(header, payload.len());
    let stream = frame_wire(header, payload) + rest;
    header_round_trips(filled);
    assert(stream.take(FRAME_HEADER_LEN as int) =~= filled.wire());
}

/// No frame that is read holds more payload than the limit, and its payload
/// is as long as its header says.
pub proof fn frames_respect_the_limit(stream: Seq<u8>, max_len: u32)
    ensures
        parse_frame(stream, max_len) matches Ok((header, payload)) ==> payload.len()
            == header.length <= max_len,
{
}

/// A run of frames on the wire, one after the other.
pub open spec fn frames_wire(frames: Seq<(FrameHeader, Seq<u8>)>) -> Seq<u8>
    decreases frames.len(),
{
    if frames.len() == 0 {
        Seq::empty()
    } else {
        frame_wire(frames[0].0, frames[0].1) + frames_wire(frames.drop_first())
    }
}

/// The first `n` frames of a stream, or `None` if fewer can be read.
pub open spec fn parse_frames(stream: Seq<u8>, n: nat, max_len: u32) -> Option<
    Seq<(FrameHeader, Seq<u8>)>,
>
    decreases n,
{
    if n == 0 {
        Some(Seq::empty())
    } else {
        match (parse_frame(stream, max_len), parse_frames(
            after_frame(stream, max_len),
            (n - 1) as nat,
            max_len,
        )) {
            (Ok(first), Some(others)) => Some(seq![first] + others),
            _ => None,
        }
    }
}

/// Frames written back to back are read back one by one, in order and
/// unmixed: each is an atomic unit of the stream.
pub proof fn frames_are_atomic(frames: Seq<(FrameHeader, Seq<u8>)>, rest: Seq<u8>, max_len: u32)
    requires
        forall|i: int| 0 <= i < frames.len() ==> (#[trigger] frames[i]).1.len() <= max_len,
    ensures
        parse_frames(frames_wire(frames) + rest, frames.len(), max_len) == Some(
            frames.map_values(
                |frame: (FrameHeader, Seq<u8>)| (with_length(frame.0, frame.1.len()), frame.1),
            ),
        ),
    decreases frames.len(),
{
    let read = |frame: (FrameHeader, Seq<u8>)| (with_length(frame.0, frame.1.len()), frame.1);
    if frames.len() == 0 {
        assert(frames.map_values(read) =~= Seq::empty());
    } else {
        let tail = frames.drop_first();
        let after = frames_wire(tail) + rest;
        frame_round_trips(frames[0].0, frames[0].1, after, max_len);
        assert(frames_wire(frames) + rest =~= frame_wire(frames[0].0, frames[0].1) + after);
        assert forall|i: int| 0 <= i < tail.len() implies (#[trigger] tail[i]).1.len()
            <= max_len by {
            assert(tail[i] == frames[i + 1]);
        }
        frames_are_atomic(tail, rest, max_len);
        assert(frames.map_values(read) =~= seq![read(frames[0])] + tail.map_values(read));
    }
}

/// Where each field of a header stands on the wire, low byte first.
pub proof fn headers_have_a_layout(header: FrameHeader)
    ensures
        ({
            let wire = header.wire();
            &&& wire.len() == 16
            &&& wire[0] == header.kind.0
            &&& wire[1] == header.flags
            &&& wire[2] == header.status % 256
            &&& wire[3] == header.status / 256
            &&& wire[4] == header.call_id % 256
            &&& wire[5] == header.call_id / 256 % 256
            &&& wire[6] == header.call_id / 65536 % 256
            &&& wire[7] == header.call_id / 16777216
            &&& wire[8] == header.length % 256
            &&& wire[9] == header.length / 256 % 256
            &&& wire[10] == header.length / 65536 % 256
            &&& wire[11] == header.length / 16777216
            &&& wire[12] == 0 && wire[13] == 0 && wire[14] == 0 && wire[15] == 0
        }),
{
    header_round_trips(header);
    reveal_with_fuel(le_bytes, 5);
}

/// What each byte of a header is read as; the reserved bytes are not looked at.
pub proof fn headers_are_read_by_layout(bytes: Seq<u8>)
    requires
        bytes.len() == 16,
    ensures
        ({
            let header = parse_header(bytes);
            &&& header.kind.0 == bytes[0]
            &&& header.flags == bytes[1]
            &&& header.status == bytes[2] + 256 * bytes[3]
            &&& header.call_id == bytes[4] + 256 * bytes[5] + 65536 * bytes[6] + 16777216
                * bytes[7]
            &&& header.length == bytes[8] + 256 * bytes[9] + 65536 * bytes[10] + 16777216
                * bytes[11]
        }),
{
    reveal_with_fuel(le_value, 5);
}

/// Where each field of a prologue stands on the wire, low byte first.
pub proof fn prologues_have_a_layout(prologue: CallPrologue)
    ensures
        ({
            let wire = prologue.wire();
            &&& wire.len() == 12
            &&& wire[0] == prologue.method % 256
            &&& wire[1] == prologue.method / 0x100 % 256
            &&& wire[2] == prologue.method / 0x1_0000 % 256
            &&& wire[3] == prologue.method / 0x100_0000 % 256
            &&& wire[4] == prologue.method / 0x1_0000_0000 % 256
            &&& wire[5] == prologue.method / 0x100_0000_0000 % 256
            &&& wire[6] == prologue.method / 0x1_0000_0000_0000 % 256
            &&& wire[7] == prologue.method / 0x100_0000_0000_0000
            &&& wire[8] == prologue.deadline_ms % 256
            &&& wire[9] == prologue.deadline_ms / 0x100 % 256
            &&& wire[10] == prologue.deadline_ms / 0x1_0000 % 256
            &&& wire[11] == prologue.deadline_ms / 0x100_0000
        }),
{
    prologue_round_trips(prologue);
    reveal_with_fuel(le_bytes, 9);
}

/// A frame that is sent has the given kind, status and call, and no flags; its
/// view is its header and its payload.
pub proof fn outgoing_headers_are_plain(kind: u8, status: u16, call_id: u32, frame: Frame)
    ensures
        ({
            let header = FrameHeader::outgoing_spec(kind, status, call_id);
            &&& header.kind.0 == kind
            &&& header.flags == 0
            &&& header.status == status
            &&& header.call_id == call_id
        }),
        frame@.0 == frame.header,
        frame@.1 == frame.payload@,
{
}

/// A frame on the wire is its header, with the payload's length in it, and
/// then the payload as it is.
pub proof fn frames_have_a_layout(header: FrameHeader, payload: Seq<u8>)
    requires
        payload.len() <= u32::MAX,
    ensures
        ({
            let wire = frame_wire(header, payload);
            &&& wire.len() == 16 + payload.len()
            &&& wire.take(16) == FrameHeader { length: payload.len() as u32, ..header }.wire()
            &&& wire.skip(16) == payload
        }),
{
    let filled = FrameHeader { length: payload.len() as u32, ..header };
    header_round_trips(filled);
    assert(frame_wire(header, payload).take(16) =~= filled.wire());
    assert(frame_wire(header, payload).skip(16) =~= payload);
}

/// How a stream is cut: sixteen bytes of header say how much payload follows.
/// Too much of it is refused, too little is a truncated stream, and otherwise
/// the frame is taken off and the rest of the stream stays.
pub proof fn streams_are_cut_into_frames(stream: Seq<u8>, max_len: u32)
    ensures
        stream.len() < 16 ==> parse_frame(stream, max_len) == Err::<(FrameHeader, Seq<u8>), FrameError>(
            FrameError::Truncated,
        ),
        stream.len() >= 16 ==> ({
            let header = parse_header(stream.take(16));
            let end = 16 + header.length;
            &&& header.length > max_len ==> parse_frame(stream, max_len) == Err::<(FrameHeader, Seq<u8>), FrameError>(
                FrameError::TooLong { length: header.length, limit: max_len },
            ) && after_frame(stream, max_len) == stream.skip(16)
            &&& header.length <= max_len && stream.len() < end ==> parse_frame(stream, max_len)
                == Err::<(FrameHeader, Seq<u8>), FrameError>(FrameError::Truncated)
            &&& header.length <= max_len && stream.len() >= end ==> parse_frame(stream, max_len)
                == Ok::<(FrameHeader, Seq<u8>), FrameError>((header, stream.subrange(16, end))) && after_frame(
                stream,
                max_len,
            ) == stream.skip(end)
        }),
{
}

/// The kinds from 0 to 5 have a name, and no other has.
pub proof fn kinds_are_named(kind: u8)
    ensures
        kind_name(kind) is Some <==> kind <= 5,
        kind_name(0) == Some("CALL"@) && kind_name(1) == Some("MESSAGE"@) && kind_name(2) == Some(
            "CLOSE"@,
        ) && kind_name(3) == Some("CANCEL"@) && kind_name(4) == Some("PING"@) && kind_name(5)
            == Some("PONG"@),
{
}

} // verus!
