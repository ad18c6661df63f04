//! Server half of the runtime: limits, and what a connection does with each
//! frame it reads.

use crate::call::{
    close_frame, close_view, ends_with_one_close, finish_stream, finish_unary, frame_views,
    stream_status, unary_answer,
};
use crate::frame::{
    is_preface, parse_prologue, CallPrologue, Frame, FrameHeader, FrameKind, CALL_PROLOGUE_LEN,
    MAX_FRAME_LEN, PREFACE,
};
use crate::limit::{Permit, Permits, Semaphore};
use crate::router::{Dispatch, Handler, Router};
use crate::status::{Code, Status};
use crate::text::hex_id_text;
use std::collections::HashMap;
use vstd::prelude::*;
use vstd::slice::slice_subrange;

verus! {

broadcast use vstd::std_specs::hash::group_hash_axioms;

/// How many calls a server runs at once unless told otherwise.
pub const DEFAULT_MAX_CALLS: usize = 1024;

/// How many connections a server keeps at once unless told otherwise.
pub const DEFAULT_MAX_CONNECTIONS: usize = 1024;

/// What a server serves, and within which limits.
pub struct Server<U, S> {
    router: Router<U, S>,
    max_message: u32,
    max_calls: usize,
    max_connections: usize,
}

impl<U, S> Server<U, S> {
    #[verifier::type_invariant]
    spec fn frame_limit_is_not_raised(self) -> bool {
        self.max_message <= MAX_FRAME_LEN
    }

    /// The methods that are served.
    pub closed spec fn routes(self) -> Map<u64, (&'static str, Handler<U, S>)> {
        self.router@
    }

    /// The most payload that a frame may carry.
    pub closed spec fn frame_limit(self) -> u32 {
        self.max_message
    }

    /// The most calls that run at once.
    pub closed spec fn call_limit(self) -> usize {
        self.max_calls
    }

    /// The most connections that are kept at once.
    pub closed spec fn connection_limit(self) -> usize {
        self.max_connections
    }

    pub fn new(router: Router<U, S>) -> (server: Server<U, S>)
        ensures
            server.routes() == router@,
            server.frame_limit() == MAX_FRAME_LEN,
            server.call_limit() == DEFAULT_MAX_CALLS,
            server.connection_limit() == DEFAULT_MAX_CONNECTIONS,
    {
        Server {
            router,
            max_message: MAX_FRAME_LEN,
            max_calls: DEFAULT_MAX_CALLS,
            max_connections: DEFAULT_MAX_CONNECTIONS,
        }
    }

    /// Lowers the per-frame payload limit (default 64 MiB).
    pub fn max_message(self, bytes: u32) -> (server: Server<U, S>)
        ensures
            server.routes() == self.routes(),
            server.frame_limit() == if bytes < MAX_FRAME_LEN {
                bytes
            } else {
                MAX_FRAME_LEN
            },
            server.call_limit() == self.call_limit(),
            server.connection_limit() == self.connection_limit(),
    {
        let max_message: u32 = if bytes < MAX_FRAME_LEN {
            bytes
        } else {
            MAX_FRAME_LEN
        };
        Server {
            router: self.router,
            max_message,
            max_calls: self.max_calls,
            max_connections: self.max_connections,
        }
    }

    /// Sets how many calls run at once; a call past that is refused.
    pub fn max_concurrent_calls(self, calls: usize) -> (server: Server<U, S>)
        ensures
            server.routes() == self.routes(),
            server.frame_limit() == self.frame_limit(),
            server.call_limit() == calls,
            server.connection_limit() == self.connection_limit(),
    {
        proof {
            use_type_invariant(&self);
        }
        Server {
            router: self.router,
            max_message: self.max_message,
            max_calls: calls,
            max_connections: self.max_connections,
        }
    }

    /// Sets how many connections are kept at once; one past that is refused.
    pub fn max_connections(self, connections: usize) -> (server: Server<U, S>)
        ensures
            server.routes() == self.routes(),
            server.frame_limit() == self.frame_limit(),
            server.call_limit() == self.call_limit(),
            server.connection_limit() == connections,
    {
        proof {
            use_type_invariant(&self);
        }
        Server {
            router: self.router,
            max_message: self.max_message,
            max_calls: self.max_calls,
            max_connections: connections,
        }
    }

    /// The methods that are served.
    pub fn router(&self) -> (router: &Router<U, S>)
        ensures
            router@ == self.routes(),
    {
        &self.router
    }

    /// The most payload that a frame may carry, which is never more than the
    /// protocol allows.
    pub fn message_limit(&self) -> (bytes: u32)
        ensures
            bytes == self.frame_limit(),
            bytes <= MAX_FRAME_LEN,
    {
        proof {
            use_type_invariant(self);
        }
        self.max_message
    }

    /// The permits that calls run on, shared by all connections.
    pub fn call_permits(&self) -> (permits: Semaphore)
        ensures
            permits@ == (Permits {
                total: self.call_limit() as nat,
                free: self.call_limit() as nat,
            }),
    {
        Semaphore::new(self.max_calls)
    }

    /// The permits that connections are kept on.
    pub fn connection_permits(&self) -> (permits: Semaphore)
        ensures
            permits@ == (Permits {
                total: self.connection_limit() as nat,
                free: self.connection_limit() as nat,
            }),
    {
        Semaphore::new(self.max_connections)
    }
}

/// Runs one call: looks its method up, runs the handler unless the call's
/// budget is spent already (then nothing is asked of the handler), and returns
/// the frames that end it, in sending order. Messages of a stream go out
/// through `raw` while the handler runs; `raw` comes back as the handler left
/// it, and untouched from any other call.
///
/// Whatever happens, the last frame is the call's one CLOSE.
pub fn run_call<
    C,
    T,
    U: Fn(&C, &[u8]) -> Result<Vec<u8>, Status>,
    S: Fn(&C, &[u8], T) -> (Result<(), Status>, T),
>(
    router: &Router<U, S>,
    ctx: &C,
    call_id: u32,
    method: u64,
    cancelled: bool,
    request: &[u8],
    raw: T,
) -> (ended: (Vec<Frame>, T))
    requires
        router@.contains_key(method) && !cancelled ==> match router@[method].1 {
            Handler::Unary(handler) => call_requires(handler, (ctx, request)),
            Handler::Stream(handler) => call_requires(handler, (ctx, request, raw)),
        },
    ensures
        ends_with_one_close(frame_views(ended.0@), call_id),
        if !router@.contains_key(method) {
            &&& ended.1 == raw
            &&& frame_views(ended.0@) == seq![
                close_view(
                    call_id,
                    (Code::UNIMPLEMENTED, "unknown method "@ + hex_id_text(method)),
                ),
            ]
        } else if cancelled {
            &&& ended.1 == raw
            &&& frame_views(ended.0@) == seq![
                close_view(
                    call_id,
                    (Code::DEADLINE_EXCEEDED, "deadline expired before dispatch"@),
                ),
            ]
        } else {
            match router@[method].1 {
                Handler::Unary(handler) => {
                    &&& ended.1 == raw
                    &&& exists|outcome: Result<Vec<u8>, Status>|
                        {
                            &&& #[trigger] call_ensures(handler, (ctx, request), outcome)
                            &&& frame_views(ended.0@) == unary_answer(
                                call_id,
                                match outcome {
                                    Ok(bytes) => Ok(bytes@),
                                    Err(status) => Err(status@),
                                },
                            )
                        }
                },
                Handler::Stream(handler) => exists|after: (Result<(), Status>, T)|
                    {
                        &&& #[trigger] call_ensures(handler, (ctx, request, raw), after)
                        &&& ended.1 == after.1
                        &&& frame_views(ended.0@) == seq![
                            close_view(call_id, stream_status(after.0)),
                        ]
                    },
            }
        },
{
    match router.dispatch(call_id, method, cancelled) {
        Dispatch::Close(frame) => {
            let mut frames: Vec<Frame> = Vec::new();
            frames.push(frame);
            assert(frame_views(frames@) =~= seq![frame@]);
            (frames, raw)
        },
        Dispatch::Run(Handler::Unary(handler)) => {
            let outcome = handler(ctx, request);
            (finish_unary(call_id, outcome), raw)
        },
        Dispatch::Run(Handler::Stream(handler)) => {
            let after = handler(ctx, request, raw);
            let ghost ran = after;
            let (outcome, raw) = after;
            assert(ran == (outcome, raw));
            let frame = finish_stream(call_id, outcome);
            let mut frames: Vec<Frame> = Vec::new();
            frames.push(frame);
            assert(frame_views(frames@) =~= seq![frame@]);
            (frames, raw)
        },
    }
}

/// A call that is running on a connection.
#[derive(Clone, Copy, PartialEq, Eq, Debug, Structural)]
pub struct Running {
    pub call_id: u32,
    /// Set once the client cancelled the call.
    pub cancelled: bool,
}

/// The calls of a connection: who runs in which slot, and which slot a CANCEL
/// for an id goes to.
#[verifier::ext_equal]
pub ghost struct ConnectionView {
    pub slots: Seq<Option<Running>>,
    pub cancels: Map<u32, usize>,
}

impl ConnectionView {
    /// Whether a call runs in `slot`.
    pub open spec fn runs(self, slot: int) -> bool {
        0 <= slot < self.slots.len() && self.slots[slot] is Some
    }

    /// Whether `slot` is the lowest one in which no call runs.
    pub open spec fn is_lowest_free(self, slot: int) -> bool {
        &&& 0 <= slot <= self.slots.len()
        &&& !self.runs(slot)
        &&& forall|other: int| 0 <= other < slot ==> #[trigger] self.runs(other)
    }

    /// A call with this id started in `slot`. From here on a CANCEL for the id
    /// goes to this call.
    pub open spec fn started(self, slot: usize, call_id: u32) -> ConnectionView {
        let running = Some(Running { call_id, cancelled: false });
        ConnectionView {
            slots: if slot < self.slots.len() {
                self.slots.update(slot as int, running)
            } else {
                self.slots.push(running)
            },
            cancels: self.cancels.insert(call_id, slot),
        }
    }

    /// The client cancelled `call_id`. An id that is not tracked is ignored.
    pub open spec fn cancelled(self, call_id: u32) -> ConnectionView {
        if self.cancels.contains_key(call_id) {
            ConnectionView {
                slots: self.slots.update(
                    self.cancels[call_id] as int,
                    Some(Running { call_id, cancelled: true }),
                ),
                cancels: self.cancels,
            }
        } else {
            self
        }
    }

    /// The call in `slot` ended, and its id is no longer tracked.
    pub open spec fn finished(self, slot: int) -> ConnectionView {
        ConnectionView {
            slots: self.slots.update(slot, None),
            cancels: self.cancels.remove(self.slots[slot]->Some_0.call_id),
        }
    }

    /// Every tracked id leads to a running call with that id.
    pub open spec fn consistent(self) -> bool {
        forall|call_id: u32| #[trigger]
            self.cancels.contains_key(call_id) ==> self.runs(self.cancels[call_id] as int)
                && self.slots[self.cancels[call_id] as int]->Some_0.call_id == call_id
    }
}

/// What a frame from a client asks for.
pub ghost enum Request {
    /// The frame breaks the protocol.
    Violation,
    /// It opens a call.
    Open { prologue: CallPrologue, body: Seq<u8> },
    /// It cancels a call.
    Cancel,
    /// It probes the connection.
    Probe,
    /// It answers a probe.
    Answer,
}

/// How a server reads a frame. An unknown kind, a nonzero flag, a frame that
/// only a server sends and a CALL without a whole prologue are violations.
pub open spec fn request_of(header: FrameHeader, payload: Seq<u8>) -> Request {
    if header.flags != 0 {
        Request::Violation
    } else if header.kind.0 == FrameKind::CALL {
        if payload.len() < CALL_PROLOGUE_LEN {
            Request::Violation
        } else {
            Request::Open {
                prologue: parse_prologue(payload.take(CALL_PROLOGUE_LEN as int)),
                body: payload.skip(CALL_PROLOGUE_LEN as int),
            }
        }
    } else if header.kind.0 == FrameKind::CANCEL {
        Request::Cancel
    } else if header.kind.0 == FrameKind::PING {
        Request::Probe
    } else if header.kind.0 == FrameKind::PONG {
        Request::Answer
    } else {
        Request::Violation
    }
}

/// A call that is to be run.
pub struct Call {
    /// Where the connection keeps track of it.
    pub slot: usize,
    pub call_id: u32,
    pub method: u64,
    /// The deadline of the prologue; zero means unbounded.
    pub deadline_ms: u32,
    pub request: Vec<u8>,
    /// What allows it to run.
    pub permit: Permit,
}

/// What a server does about a frame it read.
pub enum ServerAction {
    /// Read the next frame.
    Continue,
    /// Send this frame, then read on.
    Reply(Frame),
    /// Run this call while reading on.
    Run(Call),
    /// Close the connection.
    HangUp,
}

/// What a connection and the permits look like after a frame. A call starts in
/// the lowest free slot.
pub open spec fn after_request(
    connection: ConnectionView,
    permits: Permits,
    header: FrameHeader,
    payload: Seq<u8>,
) -> (ConnectionView, Permits) {
    match request_of(header, payload) {
        Request::Open { .. } => if permits.free > 0 {
            let slot = choose|slot: usize| #[trigger] connection.is_lowest_free(slot as int);
            (connection.started(slot, header.call_id), permits.taken())
        } else {
            (connection, permits)
        },
        Request::Cancel => (connection.cancelled(header.call_id), permits),
        Request::Violation | Request::Probe | Request::Answer => (connection, permits),
    }
}

/// The PONG frame that answers a probe.
pub open spec fn pong_view(payload: Seq<u8>) -> (FrameHeader, Seq<u8>) {
    (FrameHeader::outgoing_spec(FrameKind::PONG, 0, 0), payload)
}

/// The frames that a frame is answered with on the spot: a probe with a PONG,
/// and a call that came while all permits were out with a CLOSE.
pub open spec fn replies_to(permits: Permits, header: FrameHeader, payload: Seq<u8>) -> Seq<
    (FrameHeader, Seq<u8>),
> {
    match request_of(header, payload) {
        Request::Open { .. } => if permits.free > 0 {
            Seq::empty()
        } else {
            seq![close_view(header.call_id, overload_status())]
        },
        Request::Probe => seq![pong_view(payload)],
        _ => Seq::empty(),
    }
}

/// The frames that an action sends on the spot.
pub open spec fn replies_of(action: ServerAction) -> Seq<(FrameHeader, Seq<u8>)> {
    match action {
        ServerAction::Reply(frame) => seq![frame@],
        _ => Seq::empty(),
    }
}

/// One client's connection, from the preface on.
pub struct Connection {
    slots: Vec<Option<Running>>,
    cancels: HashMap<u32, usize>,
}

impl View for Connection {
    type V = ConnectionView;

    closed spec fn view(&self) -> ConnectionView {
        ConnectionView { slots: self.slots@, cancels: self.cancels@ }
    }
}

/// The status of a call that came while all permits were out.
pub open spec fn overload_status() -> (u16, Seq<char>) {
    (Code::RESOURCE_EXHAUSTED, "too many concurrent calls"@)
}

impl Connection {
    /// Opens the connection of a client that sent `preface`; `None` if it does
    /// not speak this protocol and is to be hung up on.
    pub fn open(preface: &[u8; 8]) -> (connection: Option<Connection>)
        ensures
            connection is Some <==> preface@ == PREFACE@,
            connection matches Some(connection) ==> connection@ == (ConnectionView {
                slots: Seq::empty(),
                cancels: Map::empty(),
            }) && connection@.consistent(),
    {
        if is_preface(preface) {
            Some(Connection { slots: Vec::new(), cancels: HashMap::new() })
        } else {
            None
        }
    }

    fn free_slot(&self) -> (slot: usize)
        ensures
            self@.is_lowest_free(slot as int),
    {
        let mut slot: usize = 0;
        while slot < self.slots.len() && self.slots[slot].is_some()
            invariant
                slot <= self.slots@.len(),
                forall|other: int| 0 <= other < slot ==> #[trigger] self@.runs(other),
            decreases self.slots@.len() - slot,
        {
            assert(self@.runs(slot as int));
            slot += 1;
        }
        slot
    }

    /// Takes a frame off the connection and decides what to do about it.
    ///
    /// A call needs a permit: while none is free it is refused on the spot,
    /// without a trace on the connection.
    pub fn on_frame(
        &mut self,
        header: FrameHeader,
        payload: Vec<u8>,
        permits: &mut Semaphore,
    ) -> (action: ServerAction)
        requires
            old(self)@.consistent(),
        ensures
            final(self)@.consistent(),
            final(permits).id() == old(permits).id(),
            (final(self)@, final(permits)@) == after_request(
                old(self)@,
                old(permits)@,
                header,
                payload@,
            ),
            replies_of(action) == replies_to(old(permits)@, header, payload@),
            match request_of(header, payload@) {
                Request::Violation => {
                    &&& action is HangUp
                    &&& final(self)@ == old(self)@
                    &&& final(permits)@ == old(permits)@
                },
                Request::Open { prologue, body } => if old(permits)@.free > 0 {
                    &&& action matches ServerAction::Run(call)
                    &&& old(self)@.is_lowest_free(call.slot as int)
                    &&& call.call_id == header.call_id
                    &&& call.method == prologue.method
                    &&& call.deadline_ms == prologue.deadline_ms
                    &&& call.request@ == body
                    &&& call.permit.owner() == old(permits).id()
                    &&& final(self)@ == old(self)@.started(call.slot, header.call_id)
                    &&& final(permits)@ == old(permits)@.taken()
                } else {
                    &&& action matches ServerAction::Reply(frame)
                    &&& frame@ == close_view(header.call_id, overload_status())
                    &&& final(self)@ == old(self)@
                    &&& final(permits)@ == old(permits)@
                },
                Request::Cancel => {
                    &&& action is Continue
                    &&& final(self)@ == old(self)@.cancelled(header.call_id)
                    &&& final(permits)@ == old(permits)@
                },
                Request::Probe => {
                    &&& action matches ServerAction::Reply(frame)
                    &&& frame@ == pong_view(payload@)
                    &&& final(self)@ == old(self)@
                    &&& final(permits)@ == old(permits)@
                },
                Request::Answer => {
                    &&& action is Continue
                    &&& final(self)@ == old(self)@
                    &&& final(permits)@ == old(permits)@
                },
            },
    {
        if header.flags != 0 {
            return ServerAction::HangUp;
        }
        let kind: u8 = header.kind.0;
        if kind == FrameKind::CALL {
            if payload.len() < CALL_PROLOGUE_LEN {
                return ServerAction::HangUp;
            }
            let action = self.on_call(header.call_id, payload, permits);
            proof {
                if old(permits)@.free > 0 {
                    let slot = choose|slot: usize| #[trigger]
                        old(self)@.is_lowest_free(slot as int);
                    assert(old(self)@.is_lowest_free(slot as int));
                    lowest_free_is_unique(
                        old(self)@,
                        action->Run_0.slot as int,
                        slot as int,
                    );
                }
            }
            action
        } else if kind == FrameKind::CANCEL {
            let target: Option<usize> = match self.cancels.get(&header.call_id) {
                None => None,
                Some(slot) => Some(*slot),
            };
            if let Some(slot) = target {
                self.slots.set(slot, Some(Running { call_id: header.call_id, cancelled: true }));
            }
            ServerAction::Continue
        } else if kind == FrameKind::PING {
            ServerAction::Reply(Frame::new(FrameKind::PONG, 0, 0, payload))
        } else if kind == FrameKind::PONG {
            ServerAction::Continue
        } else {
            ServerAction::HangUp
        }
    }

    fn on_call(&mut self, call_id: u32, payload: Vec<u8>, permits: &mut Semaphore) -> (action:
        ServerAction)
        requires
            old(self)@.consistent(),
            payload@.len() >= CALL_PROLOGUE_LEN,
        ensures
            final(self)@.consistent(),
            final(permits).id() == old(permits).id(),
            ({
                let prologue = parse_prologue(payload@.take(CALL_PROLOGUE_LEN as int));
                if old(permits)@.free > 0 {
                    &&& action matches ServerAction::Run(call)
                    &&& old(self)@.is_lowest_free(call.slot as int)
                    &&& call.call_id == call_id
                    &&& call.method == prologue.method
                    &&& call.deadline_ms == prologue.deadline_ms
                    &&& call.request@ == payload@.skip(CALL_PROLOGUE_LEN as int)
                    &&& call.permit.owner() == old(permits).id()
                    &&& final(self)@ == old(self)@.started(call.slot, call_id)
                    &&& final(permits)@ == old(permits)@.taken()
                } else {
                    &&& action matches ServerAction::Reply(frame)
                    &&& frame@ == close_view(call_id, overload_status())
                    &&& final(self)@ == old(self)@
                    &&& final(permits)@ == old(permits)@
                }
            }),
    {
        let permit = match permits.try_acquire() {
            Some(permit) => permit,
            None => {
                return ServerAction::Reply(
                    close_frame(
                        call_id,
                        &Status::new(Code(Code::RESOURCE_EXHAUSTED), "too many concurrent calls"),
                    ),
                );
            },
        };
        let head = [
            payload[0],
            payload[1],
            payload[2],
            payload[3],
            payload[4],
            payload[5],
            payload[6],
            payload[7],
            payload[8],
            payload[9],
            payload[10],
            payload[11],
        ];
        assert(head@ =~= payload@.take(CALL_PROLOGUE_LEN as int));
        let prologue = CallPrologue::decode(&head);
        let mut request: Vec<u8> = Vec::new();
        request.extend_from_slice(
            slice_subrange(payload.as_slice(), CALL_PROLOGUE_LEN, payload.len()),
        );
        assert(request@ =~= payload@.skip(CALL_PROLOGUE_LEN as int));
        let slot = self.free_slot();
        let running: Option<Running> = Some(Running { call_id, cancelled: false });
        if slot < self.slots.len() {
            self.slots.set(slot, running);
        } else {
            self.slots.push(running);
        }
        self.cancels.insert(call_id, slot);
        proof {
            assert(self@ =~= old(self)@.started(slot, call_id));
            call_starts_are_consistent(old(self)@, slot, call_id);
        }
        ServerAction::Run(
            Call {
                slot,
                call_id,
                method: prologue.method,
                deadline_ms: prologue.deadline_ms,
                request,
                permit,
            },
        )
    }

    /// Whether a call runs in `slot`.
    pub fn is_running(&self, slot: usize) -> (running: bool)
        ensures
            running == self@.runs(slot as int),
    {
        slot < self.slots.len() && self.slots[slot].is_some()
    }

    /// Whether the client cancelled the call that runs in `slot`.
    pub fn is_cancelled(&self, slot: usize) -> (cancelled: bool)
        requires
            self@.runs(slot as int),
        ensures
            cancelled == self@.slots[slot as int]->Some_0.cancelled,
    {
        match self.slots[slot] {
            Some(running) => running.cancelled,
            None => false,
        }
    }

    /// Ends the call that runs in `slot` and gives its permit back.
    pub fn finish(&mut self, slot: usize, permit: Permit, permits: &mut Semaphore)
        requires
            old(self)@.consistent(),
            old(self)@.runs(slot as int),
            permit.owner() == old(permits).id(),
            old(permits)@.in_use() > 0,
        ensures
            final(self)@.consistent(),
            final(permits).id() == old(permits).id(),
            final(self)@ == old(self)@.finished(slot as int),
            final(permits)@ == old(permits)@.returned(),
    {
        if let Some(running) = self.slots[slot] {
            self.cancels.remove(&running.call_id);
            self.slots.set(slot, None);
        }
        permits.release(permit);
        assert(self@ =~= old(self)@.finished(slot as int));
    }
}

proof fn lowest_free_is_unique(connection: ConnectionView, a: int, b: int)
    requires
        connection.is_lowest_free(a),
        connection.is_lowest_free(b),
    ensures
        a == b,
{
    if a < b {
        assert(connection.runs(a));
    } else if b < a {
        assert(connection.runs(b));
    }
}

/// Starting a call in the lowest free slot keeps every tracked id leading to
/// its call.
pub proof fn call_starts_are_consistent(connection: ConnectionView, slot: usize, call_id: u32)
    requires
        connection.consistent(),
        connection.is_lowest_free(slot as int),
    ensures
        connection.started(slot, call_id).consistent(),
{
    let after = connection.started(slot, call_id);
    assert forall|id: u32| #[trigger] after.cancels.contains_key(id) implies after.runs(
        after.cancels[id] as int,
    ) && after.slots[after.cancels[id] as int]->Some_0.call_id == id by {
        if id != call_id {
            assert(connection.cancels.contains_key(id));
            assert(connection.runs(connection.cancels[id] as int));
            assert(connection.cancels[id] != slot);
        }
    }
}

/// A CANCEL marks exactly the call that its id is tracked for; every other
/// call goes on as before, and an id that is not tracked changes nothing.
pub proof fn cancel_reaches_its_call_only(connection: ConnectionView, call_id: u32)
    requires
        connection.consistent(),
    ensures
        connection.cancels.contains_key(call_id) ==> connection.cancelled(
            call_id,
        ).slots[connection.cancels[call_id] as int] == Some(Running { call_id, cancelled: true }),
        forall|slot: int|
            0 <= slot < connection.slots.len() && !(connection.cancels.contains_key(call_id)
                && connection.cancels[call_id] == slot) ==> connection.cancelled(
                call_id,
            ).slots[slot] == #[trigger] connection.slots[slot],
        !connection.cancels.contains_key(call_id) ==> connection.cancelled(call_id) == connection,
        connection.cancelled(call_id).consistent(),
{
}

/// A slot whose call ended is free for the next call, and a CANCEL that comes
/// too late is ignored.
pub proof fn finished_calls_leave_no_trace(connection: ConnectionView, slot: int)
    requires
        connection.consistent(),
        connection.runs(slot),
    ensures
        !connection.finished(slot).runs(slot),
        connection.finished(slot).cancelled(connection.slots[slot]->Some_0.call_id)
            == connection.finished(slot),
        connection.finished(slot).consistent(),
{
    let after = connection.finished(slot);
    assert forall|id: u32| #[trigger] after.cancels.contains_key(id) implies after.runs(
        after.cancels[id] as int,
    ) && after.slots[after.cancels[id] as int]->Some_0.call_id == id by {
        assert(connection.cancels.contains_key(id));
    }
}

/// Ending the call in one slot touches nothing of the others: every other slot
/// is as it was, every other tracked id is tracked for the same slot, and a
/// CANCEL for it still marks its call. The ended call's slot is empty and its
/// id no longer tracked.
pub proof fn ended_calls_leave_the_others(
    connection: ConnectionView,
    slot: int,
    other_slot: int,
    other: u32,
)
    requires
        connection.consistent(),
        connection.runs(slot),
        other_slot != slot,
        other != connection.slots[slot]->Some_0.call_id,
    ensures
        ({
            let after = connection.finished(slot);
            &&& after.slots.len() == connection.slots.len()
            &&& after.slots[slot] is None
            &&& 0 <= other_slot < connection.slots.len() ==> after.slots[other_slot]
                == connection.slots[other_slot]
            &&& !after.cancels.contains_key(connection.slots[slot]->Some_0.call_id)
            &&& after.cancels.contains_key(other) <==> connection.cancels.contains_key(other)
            &&& connection.cancels.contains_key(other) ==> {
                &&& after.cancels[other] == connection.cancels[other]
                &&& connection.cancels[other] != slot
                &&& after.cancelled(other).slots[connection.cancels[other] as int] == Some(
                    Running { call_id: other, cancelled: true },
                )
            }
        }),
{
    if connection.cancels.contains_key(other) {
        assert(connection.runs(connection.cancels[other] as int));
    }
}

/// A call that starts takes the lowest slot in which none runs, uncancelled,
/// and a CANCEL for its id goes there; every other call is as it was.
pub proof fn started_calls_leave_the_others(
    connection: ConnectionView,
    slot: usize,
    call_id: u32,
    other_slot: int,
    other: u32,
)
    requires
        connection.is_lowest_free(slot as int),
        other_slot != slot,
        other != call_id,
    ensures
        slot <= connection.slots.len(),
        slot < connection.slots.len() ==> connection.slots[slot as int] is None,
        0 <= other_slot < slot ==> connection.slots[other_slot] is Some,
        ({
            let after = connection.started(slot, call_id);
            &&& after.slots[slot as int] == Some(Running { call_id, cancelled: false })
            &&& 0 <= other_slot < connection.slots.len() ==> after.slots[other_slot]
                == connection.slots[other_slot]
            &&& after.slots.len() == if slot < connection.slots.len() {
                connection.slots.len()
            } else {
                connection.slots.len() + 1
            }
            &&& after.cancels.contains_key(call_id) && after.cancels[call_id] == slot
            &&& after.cancels.contains_key(other) <==> connection.cancels.contains_key(other)
            &&& connection.cancels.contains_key(other) ==> after.cancels[other]
                == connection.cancels[other]
        }),
{
    if 0 <= other_slot < slot {
        assert(connection.runs(other_slot));
    }
}

/// A call that started can be cancelled at once, and stays marked whatever
/// other calls start or are cancelled after it.
pub proof fn cancels_last(
    connection: ConnectionView,
    slot: usize,
    call_id: u32,
    other_slot: usize,
    other: u32,
)
    requires
        connection.consistent(),
        connection.is_lowest_free(slot as int),
        connection.started(slot, call_id).is_lowest_free(other_slot as int),
        other != call_id,
    ensures
        ({
            let marked = Some(Running { call_id, cancelled: true });
            let started = connection.started(slot, call_id);
            &&& started.cancelled(call_id).slots[slot as int] == marked
            &&& started.cancelled(call_id).started(other_slot, other).slots[slot as int] == marked
            &&& started.cancelled(call_id).cancelled(other).slots[slot as int] == marked
            &&& started.started(other_slot, other).cancelled(call_id).slots[slot as int] == marked
        }),
{
    let started = connection.started(slot, call_id);
    call_starts_are_consistent(connection, slot, call_id);
    assert(started.runs(slot as int));
    assert(other_slot != slot);
    if started.cancels.contains_key(other) {
        assert(started.runs(started.cancels[other] as int));
    }
}

/// A slot runs a call exactly when it holds one, and a tracked id leads to a
/// running call with that id.
pub proof fn slots_hold_what_runs(connection: ConnectionView, slot: int, call_id: u32)
    ensures
        connection.runs(slot) <==> 0 <= slot < connection.slots.len()
            && connection.slots[slot] is Some,
        connection.consistent() && connection.cancels.contains_key(call_id)
            ==> connection.cancels[call_id] < connection.slots.len()
            && (connection.slots[connection.cancels[call_id] as int] matches Some(running)
            && running.call_id == call_id),
{
    if connection.consistent() && connection.cancels.contains_key(call_id) {
        assert(connection.runs(connection.cancels[call_id] as int));
    }
}

/// What a server takes each frame for, by its kind. A CALL's request is all
/// that follows the twelve bytes of its prologue.
pub proof fn requests_are_told_apart(header: FrameHeader, payload: Seq<u8>)
    ensures
        header.flags != 0 ==> request_of(header, payload) is Violation,
        header.flags == 0 ==> {
            &&& header.kind.0 == 0 && payload.len() < 12 ==> request_of(header, payload)
                is Violation
            &&& header.kind.0 == 0 && payload.len() >= 12 ==> request_of(header, payload)
                == (Request::Open {
                prologue: parse_prologue(payload.take(12)),
                body: payload.skip(12),
            })
            &&& header.kind.0 == 3 ==> request_of(header, payload) is Cancel
            &&& header.kind.0 == 4 ==> request_of(header, payload) is Probe
            &&& header.kind.0 == 5 ==> request_of(header, payload) is Answer
            &&& header.kind.0 == 1 || header.kind.0 == 2 || header.kind.0 > 5 ==> request_of(
                header,
                payload,
            ) is Violation
        },
{
}

/// What each frame leads to. A CALL takes a permit and a slot while there is a
/// permit, and is closed as too many where there is none; a PING is echoed; a
/// CANCEL marks its call; nothing else is answered or changes anything.
pub proof fn frames_lead_to_one_thing(
    connection: ConnectionView,
    permits: Permits,
    header: FrameHeader,
    payload: Seq<u8>,
    slot: usize,
)
    requires
        header.flags == 0,
        connection.is_lowest_free(slot as int),
    ensures
        ({
            let after = after_request(connection, permits, header, payload);
            let replies = replies_to(permits, header, payload);
            &&& header.kind.0 == 0 && payload.len() >= 12 && permits.free > 0 ==> after == (
                connection.started(slot, header.call_id),
                permits.taken(),
            ) && replies.len() == 0
            &&& header.kind.0 == 0 && payload.len() >= 12 && permits.free == 0 ==> {
                &&& after == (connection, permits)
                &&& replies.len() == 1
                &&& replies[0].0.kind.0 == 2
                &&& replies[0].0.flags == 0
                &&& replies[0].0.status == 8
                &&& replies[0].0.call_id == header.call_id
                &&& replies[0].1 == vstd::utf8::encode_utf8("too many concurrent calls"@)
            }
            &&& header.kind.0 == 3 ==> after == (connection.cancelled(header.call_id), permits)
                && replies.len() == 0
            &&& header.kind.0 == 4 ==> {
                &&& after == (connection, permits)
                &&& replies.len() == 1
                &&& replies[0].0.kind.0 == 5
                &&& replies[0].0.flags == 0
                &&& replies[0].0.call_id == 0
                &&& replies[0].1 == payload
            }
            &&& header.kind.0 != 0 && header.kind.0 != 3 && header.kind.0 != 4 ==> after == (
                connection,
                permits,
            ) && replies.len() == 0
        }),
{
    let chosen = choose|slot: usize| #[trigger] connection.is_lowest_free(slot as int);
    lowest_free_is_unique(connection, slot as int, chosen as int);
}

/// An action sends its one frame if it is a reply, and nothing otherwise.
pub proof fn actions_send_their_reply(action: ServerAction)
    ensures
        action matches ServerAction::Reply(frame) ==> replies_of(action) == seq![
            (frame.header, frame.payload@),
        ],
        !(action is Reply) ==> replies_of(action).len() == 0,
{
}

} // verus!
