//! Client half of the runtime: any number of concurrent calls multiplexed
//! over one connection. Frames that arrive are routed to the waiting calls by
//! id; what the calls do about them is decided here as well.

use crate::bytes::{le_bytes, le_value, u64_from_le, u64_to_le};
use crate::context::{deadline_millis, expired, has_expired, wire_deadline};
use crate::error::{is_status, RpcError};
use crate::frame::{
    is_preface, CallPrologue, Frame, FrameHeader, FrameKind, CALL_PROLOGUE_LEN, MAX_FRAME_LEN,
    PREFACE,
};
use crate::status::{Code, Status};
use crate::text::{decimal, decimal_text, lossy_text, utf8_lossy};
use std::collections::{HashMap, VecDeque};
use vstd::prelude::*;

verus! {

broadcast use vstd::std_specs::hash::group_hash_axioms;

/// What a call waits for.
#[derive(Debug)]
pub enum Event {
    Message(Vec<u8>),
    Close(Status),
}

/// An event by its contents.
pub ghost enum EventView {
    Message(Seq<u8>),
    Close((u16, Seq<char>)),
}

impl View for Event {
    type V = EventView;

    open spec fn view(&self) -> EventView {
        match *self {
            Event::Message(bytes) => EventView::Message(bytes@),
            Event::Close(status) => EventView::Close(status@),
        }
    }
}

/// The events of one call that nobody took yet, and whether more may come.
#[derive(Debug)]
struct Mailbox {
    events: VecDeque<Event>,
    open: bool,
}

/// A call's mailbox: the events nobody took yet, oldest first, and whether
/// more may come.
#[verifier::ext_equal]
pub ghost struct MailboxView {
    pub events: Seq<EventView>,
    pub open: bool,
}

impl View for Mailbox {
    type V = MailboxView;

    closed spec fn view(&self) -> MailboxView {
        MailboxView { events: self.events@.map_values(|event: Event| event@), open: self.open }
    }
}

/// What a waiting call learns.
pub ghost enum ReceivedView {
    Event(EventView),
    Wait,
    Disconnected,
    TimedOut,
}

/// A client's connection: the mailboxes of its calls, its probes and whether
/// each is answered, and its counters.
#[verifier::ext_equal]
pub ghost struct ClientView {
    pub calls: Map<u32, MailboxView>,
    pub pings: Map<u64, bool>,
    pub next_call: u32,
    pub next_ping: u64,
    pub closed: bool,
}

/// The id that comes `steps` after `id`, counting round.
pub open spec fn id_after(id: u32, steps: nat) -> u32 {
    ((id as nat + steps) % 0x1_0000_0000) as u32
}

impl ClientView {
    /// A connection on which nothing happened yet.
    pub open spec fn fresh() -> ClientView {
        ClientView {
            calls: Map::empty(),
            pings: Map::empty(),
            next_call: 1,
            next_ping: 1,
            closed: false,
        }
    }

    /// Whether a call may have this id.
    pub open spec fn is_free(self, call_id: u32) -> bool {
        call_id != 0 && !self.calls.contains_key(call_id)
    }

    /// Whether `call_id` is the next call's id: the first free one, counting
    /// up from the last one given out.
    pub open spec fn is_next(self, call_id: u32) -> bool {
        exists|steps: nat| #[trigger] self.is_next_after(call_id, steps)
    }

    /// Whether the next call's id is `call_id`, and is found after `steps`.
    pub open spec fn is_next_after(self, call_id: u32, steps: nat) -> bool {
        &&& call_id == id_after(self.next_call, steps)
        &&& self.is_free(call_id)
        &&& forall|skipped: nat|
            skipped < steps ==> !self.is_free(#[trigger] id_after(self.next_call, skipped))
    }

    /// A call with this id began.
    pub open spec fn started(self, call_id: u32) -> ClientView {
        ClientView {
            calls: self.calls.insert(call_id, MailboxView { events: Seq::empty(), open: true }),
            next_call: id_after(call_id, 1),
            ..self
        }
    }

    /// The call is over for the client: what still comes for it is ignored.
    pub open spec fn forgotten(self, call_id: u32) -> ClientView {
        ClientView { calls: self.calls.remove(call_id), ..self }
    }

    /// Whether frames for `call_id` still reach anyone.
    pub open spec fn listens(self, call_id: u32) -> bool {
        !self.closed && self.calls.contains_key(call_id) && self.calls[call_id].open
    }

    /// An event arrived for `call_id`. A CLOSE is the last to be delivered.
    pub open spec fn delivered(self, call_id: u32, event: EventView) -> ClientView {
        if self.listens(call_id) {
            ClientView {
                calls: self.calls.insert(
                    call_id,
                    MailboxView {
                        events: self.calls[call_id].events.push(event),
                        open: event is Message,
                    },
                ),
                ..self
            }
        } else {
            self
        }
    }

    /// What `call_id` learns when it looks at `now`: its oldest event; or that
    /// there will be none; or that its time is up.
    pub open spec fn received(self, call_id: u32, expires: Option<u128>, now: u128) -> ReceivedView {
        if self.calls.contains_key(call_id) && self.calls[call_id].events.len() > 0 {
            ReceivedView::Event(self.calls[call_id].events[0])
        } else if !self.listens(call_id) {
            ReceivedView::Disconnected
        } else if has_expired(expires, now) {
            ReceivedView::TimedOut
        } else {
            ReceivedView::Wait
        }
    }

    /// `call_id` took its oldest event, if it had one.
    pub open spec fn taken(self, call_id: u32) -> ClientView {
        if self.calls.contains_key(call_id) && self.calls[call_id].events.len() > 0 {
            ClientView {
                calls: self.calls.insert(
                    call_id,
                    MailboxView {
                        events: self.calls[call_id].events.drop_first(),
                        open: self.calls[call_id].open,
                    },
                ),
                ..self
            }
        } else {
            self
        }
    }

    /// A probe was sent.
    pub open spec fn probed(self) -> ClientView {
        ClientView {
            pings: self.pings.insert(self.next_ping, false),
            next_ping: ((self.next_ping + 1) % 0x1_0000_0000_0000_0000) as u64,
            ..self
        }
    }

    /// The probe `nonce` was answered. A nonce nobody waits for is ignored.
    pub open spec fn answered(self, nonce: u64) -> ClientView {
        if self.pings.contains_key(nonce) {
            ClientView { pings: self.pings.insert(nonce, true), ..self }
        } else {
            self
        }
    }

    /// The probe `nonce` is over.
    pub open spec fn unprobed(self, nonce: u64) -> ClientView {
        ClientView { pings: self.pings.remove(nonce), ..self }
    }
}

/// What a frame from a server brings.
pub ghost enum Notice {
    /// The frame breaks the protocol.
    Violation,
    /// Something for a call.
    Deliver(EventView),
    /// A probe.
    Probe,
    /// An answer to a probe, by its nonce; an answer of another size than a
    /// nonce is ignored.
    Answer(Option<u64>),
}

/// How a client reads a frame. An unknown kind, a nonzero flag and a frame
/// that only a client sends are violations.
pub open spec fn notice_of(header: FrameHeader, payload: Seq<u8>) -> Notice {
    if header.flags != 0 {
        Notice::Violation
    } else if header.kind.0 == FrameKind::MESSAGE {
        Notice::Deliver(EventView::Message(payload))
    } else if header.kind.0 == FrameKind::CLOSE {
        Notice::Deliver(EventView::Close((header.status, lossy_text(payload))))
    } else if header.kind.0 == FrameKind::PING {
        Notice::Probe
    } else if header.kind.0 == FrameKind::PONG {
        if payload.len() == 8 {
            Notice::Answer(Some(le_value(payload) as u64))
        } else {
            Notice::Answer(None)
        }
    } else {
        Notice::Violation
    }
}

/// What a connection looks like after a frame.
pub open spec fn after_notice(client: ClientView, header: FrameHeader, payload: Seq<u8>) -> ClientView {
    if client.closed {
        client
    } else {
        match notice_of(header, payload) {
            Notice::Deliver(event) => client.delivered(header.call_id, event),
            Notice::Answer(Some(nonce)) => client.answered(nonce),
            _ => client,
        }
    }
}

/// The CALL frame of a request.
pub open spec fn call_view(call_id: u32, method: u64, patience: Option<u128>, body: Seq<u8>) -> (
    FrameHeader,
    Seq<u8>,
) {
    (
        FrameHeader::outgoing_spec(FrameKind::CALL, 0, call_id),
        CallPrologue { method, deadline_ms: wire_deadline(patience) }.wire() + body,
    )
}

/// How beginning a call turns out. A request that does not fit a frame is
/// refused, and so is one for which no id is free; any other gets the next
/// id, a mailbox and a CALL frame.
pub open spec fn start_outcome(
    before: ClientView,
    after: ClientView,
    method: u64,
    body: Seq<u8>,
    patience: Option<u128>,
    out: Result<(u32, Frame), RpcError>,
) -> bool {
    if CALL_PROLOGUE_LEN + body.len() > MAX_FRAME_LEN {
        &&& out matches Err(err)
        &&& is_status(
            err,
            Code::RESOURCE_EXHAUSTED,
            "request of "@ + decimal_text(CALL_PROLOGUE_LEN as nat + body.len())
                + " bytes exceeds the frame limit"@,
        )
        &&& after == before
    } else if forall|id: u32| !(#[trigger] before.is_free(id)) {
        &&& out matches Err(err)
        &&& is_status(err, Code::RESOURCE_EXHAUSTED, "no call id is free"@)
        &&& after == before
    } else {
        &&& out matches Ok((call_id, frame))
        &&& before.is_next(call_id)
        &&& frame@ == call_view(call_id, method, patience, body)
        &&& after == before.started(call_id)
    }
}

/// The CANCEL frame of a call.
pub open spec fn cancel_view(call_id: u32) -> (FrameHeader, Seq<u8>) {
    (FrameHeader::outgoing_spec(FrameKind::CANCEL, 0, call_id), Seq::empty())
}

/// What a client does about a frame it read.
#[derive(Debug)]
pub enum ClientAction {
    /// Read the next frame.
    Continue,
    /// Send this frame, then read on; stop if it cannot be sent.
    Reply(Frame),
    /// Stop reading: the connection is over.
    Stop,
}

/// What a waiting call learns.
#[derive(Debug)]
pub enum Received {
    Event(Event),
    /// Nothing yet.
    Wait,
    Failed(RpcError),
}

/// The status of a call whose time is up.
pub open spec fn timeout_status() -> (u16, Seq<char>) {
    (Code::DEADLINE_EXCEEDED, "deadline exceeded"@)
}

/// The status of a call whose connection went away.
pub open spec fn disconnect_status() -> (u16, Seq<char>) {
    (Code::UNAVAILABLE, "connection closed mid-call"@)
}

/// A connection to one server. Calls share the connection and complete
/// independently.
pub struct Client {
    calls: HashMap<u32, Mailbox>,
    pings: HashMap<u64, bool>,
    next_call: u32,
    next_ping: u64,
    closed: bool,
}

spec fn mailboxes(calls: Map<u32, Mailbox>) -> Map<u32, MailboxView> {
    calls.map_values(|mailbox: Mailbox| mailbox@)
}

impl View for Client {
    type V = ClientView;

    closed spec fn view(&self) -> ClientView {
        ClientView {
            calls: mailboxes(self.calls@),
            pings: self.pings@,
            next_call: self.next_call,
            next_ping: self.next_ping,
            closed: self.closed,
        }
    }
}

impl Client {
    /// The client of a connection whose peer sent `preface`, unless that is not
    /// a server of this protocol.
    pub fn connect(preface: &[u8; 8]) -> (out: Result<Client, &'static str>)
        ensures
            if preface@ == PREFACE@ {
                out matches Ok(client) && client@ == ClientView::fresh()
            } else {
                out matches Err(why) && why@ == "peer is not a nanorpc/1 server"@
            },
    {
        if !is_preface(preface) {
            return Err("peer is not a nanorpc/1 server");
        }
        let client = Client {
            calls: HashMap::new(),
            pings: HashMap::new(),
            next_call: 1,
            next_ping: 1,
            closed: false,
        };
        assert(client@ =~= ClientView::fresh());
        Ok(client)
    }

    /// The id for the next call, `None` while every id is in use.
    fn fresh_id(&self) -> (id: Option<u32>)
        ensures
            match id {
                Some(id) => self@.is_next(id),
                None => forall|id: u32| !(#[trigger] self@.is_free(id)),
            },
    {
        let mut candidate: u32 = self.next_call;
        let mut steps: u64 = 0;
        while steps < 0x1_0000_0000
            invariant
                steps <= 0x1_0000_0000,
                candidate == id_after(self@.next_call, steps as nat),
                forall|skipped: nat|
                    skipped < steps ==> !self@.is_free(
                        #[trigger] id_after(self@.next_call, skipped),
                    ),
            decreases 0x1_0000_0000 - steps,
        {
            if candidate != 0 && !self.calls.contains_key(&candidate) {
                assert(self@.is_next_after(candidate, steps as nat));
                return Some(candidate);
            }
            candidate = if candidate == u32::MAX {
                0
            } else {
                candidate + 1
            };
            steps += 1;
        }
        assert forall|id: u32| !(#[trigger] self@.is_free(id)) by {
            let start = self@.next_call;
            let skipped: nat = if id >= start {
                (id - start) as nat
            } else {
                (id + 0x1_0000_0000 - start) as nat
            };
            assert(id_after(start, skipped) == id);
        }
        None
    }

    /// Begins a call: picks its id, opens its mailbox and builds its CALL
    /// frame. A request that does not fit a frame is refused here.
    pub fn start(&mut self, method: u64, body: &[u8], patience: Option<u128>) -> (out: Result<
        (u32, Frame),
        RpcError,
    >)
        ensures
            start_outcome(old(self)@, final(self)@, method, body@, patience, out),
    {
        let prologue = CallPrologue { method, deadline_ms: deadline_millis(patience) };
        let mut payload: Vec<u8> = Vec::new();
        payload.extend_from_slice(&prologue.encode());
        payload.extend_from_slice(body);
        proof {
            crate::frame::prologue_round_trips(prologue);
            assert(payload@ =~= prologue.wire() + body@);
        }
        if payload.len() > MAX_FRAME_LEN as usize {
            let mut detail = String::from_str("request of ");
            detail.append(decimal(payload.len() as u64).as_str());
            detail.append(" bytes exceeds the frame limit");
            return Err(
                RpcError::Status(
                    Status::new(Code(Code::RESOURCE_EXHAUSTED), detail.as_str()),
                ),
            );
        }
        match self.fresh_id() {
            None => Err(
                RpcError::Status(
                    Status::new(Code(Code::RESOURCE_EXHAUSTED), "no call id is free"),
                ),
            ),
            Some(call_id) => {
                let mailbox = Mailbox { events: VecDeque::new(), open: true };
                assert(mailbox@ =~= (MailboxView { events: Seq::empty(), open: true }));
                self.calls.insert(call_id, mailbox);
                self.next_call = if call_id == u32::MAX {
                    0
                } else {
                    call_id + 1
                };
                assert(self@ =~= old(self)@.started(call_id));
                assert(old(self)@.is_free(call_id));
                Ok((call_id, Frame::new(FrameKind::CALL, 0, call_id, payload)))
            },
        }
    }

    /// Drops a call from the table.
    pub fn forget(&mut self, call_id: u32)
        ensures
            final(self)@ == old(self)@.forgotten(call_id),
    {
        self.calls.remove(&call_id);
        assert(self@ =~= old(self)@.forgotten(call_id));
    }

    /// Ends a call whose CALL frame could not be sent.
    pub fn send_failed(&mut self, call_id: u32, err: std::io::Error) -> (failure: RpcError)
        ensures
            failure == RpcError::Transport(err),
            final(self)@ == old(self)@.forgotten(call_id),
    {
        self.forget(call_id);
        RpcError::Transport(err)
    }

    /// Gives a call up: forgets it, and builds the frame that tells the
    /// server.
    pub fn cancel(&mut self, call_id: u32) -> (frame: Frame)
        ensures
            frame@ == cancel_view(call_id),
            final(self)@ == old(self)@.forgotten(call_id),
    {
        self.forget(call_id);
        Frame::new(FrameKind::CANCEL, 0, call_id, Vec::new())
    }

    fn deliver(&mut self, call_id: u32, event: Event)
        ensures
            final(self)@ == old(self)@.delivered(call_id, event@),
    {
        if self.closed {
            return;
        }
        let last: bool = match &event {
            Event::Message(_) => false,
            Event::Close(_) => true,
        };
        match self.calls.remove(&call_id) {
            None => {
                assert(self@ =~= old(self)@);
            },
            Some(mailbox) => {
                let mut mailbox = mailbox;
                let ghost before = mailbox;
                if mailbox.open {
                    mailbox.events.push_back(event);
                    mailbox.open = !last;
                    assert(mailbox@ =~= (MailboxView {
                        events: before@.events.push(event@),
                        open: event@ is Message,
                    }));
                }
                self.calls.insert(call_id, mailbox);
                assert(self@ =~= old(self)@.delivered(call_id, event@));
            },
        }
    }

    /// Takes a frame off the connection, routes it to whom it concerns and
    /// decides what to do next.
    pub fn on_frame(&mut self, header: FrameHeader, payload: Vec<u8>) -> (action: ClientAction)
        ensures
            final(self)@ == after_notice(old(self)@, header, payload@),
            if old(self)@.closed {
                action is Stop
            } else {
                match notice_of(header, payload@) {
                    Notice::Violation => action is Stop,
                    Notice::Probe => action matches ClientAction::Reply(frame) && frame@ == (
                        FrameHeader::outgoing_spec(FrameKind::PONG, 0, 0),
                        payload@,
                    ),
                    Notice::Deliver(_) | Notice::Answer(_) => action is Continue,
                }
            },
    {
        if self.closed || header.flags != 0 {
            return ClientAction::Stop;
        }
        let kind: u8 = header.kind.0;
        if kind == FrameKind::MESSAGE {
            self.deliver(header.call_id, Event::Message(payload));
            ClientAction::Continue
        } else if kind == FrameKind::CLOSE {
            let detail = utf8_lossy(payload.as_slice());
            self.deliver(
                header.call_id,
                Event::Close(Status { code: Code(header.status), message: detail }),
            );
            ClientAction::Continue
        } else if kind == FrameKind::PING {
            ClientAction::Reply(Frame::new(FrameKind::PONG, 0, 0, payload))
        } else if kind == FrameKind::PONG {
            if payload.len() == 8 {
                let bytes = [
                    payload[0],
                    payload[1],
                    payload[2],
                    payload[3],
                    payload[4],
                    payload[5],
                    payload[6],
                    payload[7],
                ];
                assert(bytes@ =~= payload@);
                let nonce = u64_from_le(bytes);
                if self.pings.contains_key(&nonce) {
                    self.pings.insert(nonce, true);
                }
                assert(self@ =~= old(self)@.answered(nonce));
            }
            ClientAction::Continue
        } else {
            ClientAction::Stop
        }
    }

    /// The connection is over: every waiting call learns as soon as it took
    /// what had already arrived for it, and so does any call begun later.
    pub fn close(&mut self)
        ensures
            final(self)@ == (ClientView { closed: true, ..old(self)@ }),
    {
        self.closed = true;
    }

    /// The next event of a call, honoring an absolute expiry. Disconnection
    /// and expiry both surface as [`RpcError`].
    pub fn recv(&mut self, call_id: u32, expires: Option<u128>, now: u128) -> (received: Received)
        ensures
            match old(self)@.received(call_id, expires, now) {
                ReceivedView::Event(event) => received matches Received::Event(e) && e@ == event,
                ReceivedView::Wait => received is Wait,
                ReceivedView::Disconnected => received matches Received::Failed(err) && is_status(
                    err,
                    disconnect_status().0,
                    disconnect_status().1,
                ),
                ReceivedView::TimedOut => received matches Received::Failed(err) && is_status(
                    err,
                    timeout_status().0,
                    timeout_status().1,
                ),
            },
            final(self)@ == old(self)@.taken(call_id),
    {
        let mut open: bool = false;
        match self.calls.remove(&call_id) {
            None => {
                assert(self@ =~= old(self)@);
            },
            Some(mailbox) => {
                let mut mailbox = mailbox;
                let ghost before = mailbox;
                open = mailbox.open;
                let first = mailbox.events.pop_front();
                proof {
                    if before@.events.len() > 0 {
                        assert(mailbox@ =~= (MailboxView {
                            events: before@.events.drop_first(),
                            open: before@.open,
                        }));
                    } else {
                        assert(mailbox@ =~= before@);
                    }
                }
                self.calls.insert(call_id, mailbox);
                assert(self@ =~= old(self)@.taken(call_id));
                if let Some(event) = first {
                    return Received::Event(event);
                }
            },
        }
        if self.closed || !open {
            return Received::Failed(
                RpcError::Status(
                    Status::new(Code(Code::UNAVAILABLE), "connection closed mid-call"),
                ),
            );
        }
        if expired(expires, now) {
            return Received::Failed(
                RpcError::Status(
                    Status::new(Code(Code::DEADLINE_EXCEEDED), "deadline exceeded"),
                ),
            );
        }
        Received::Wait
    }

    /// Begins a probe of the connection: its nonce, and the PING frame.
    pub fn ping(&mut self) -> (out: (u64, Frame))
        ensures
            out.0 == old(self)@.next_ping,
            out.1@ == (
                FrameHeader::outgoing_spec(FrameKind::PING, 0, 0),
                le_bytes(old(self)@.next_ping as nat, 8),
            ),
            final(self)@ == old(self)@.probed(),
    {
        let nonce: u64 = self.next_ping;
        self.pings.insert(nonce, false);
        self.next_ping = if nonce == u64::MAX {
            0
        } else {
            nonce + 1
        };
        assert(self@ =~= old(self)@.probed());
        let mut payload: Vec<u8> = Vec::new();
        payload.extend_from_slice(&u64_to_le(nonce));
        (nonce, Frame::new(FrameKind::PING, 0, 0, payload))
    }

    /// Looks after a probe begun at `started`: the round trip if it was
    /// answered, the failure if the time is up or the connection gone, `None`
    /// if it is still worth waiting. A probe that is over is forgotten.
    pub fn ping_result(&mut self, nonce: u64, started: u128, expires: u128, now: u128) -> (out:
        Option<Result<u128, RpcError>>)
        requires
            started <= now,
        ensures
            ({
                let answer = old(self)@.pings.contains_key(nonce) && old(self)@.pings[nonce];
                let waiting = old(self)@.pings.contains_key(nonce) && !old(self)@.closed && now
                    < expires;
                if answer {
                    &&& out matches Some(Ok(trip))
                    &&& trip == now - started
                    &&& final(self)@ == old(self)@.unprobed(nonce)
                } else if waiting {
                    &&& out is None
                    &&& final(self)@ == old(self)@
                } else {
                    &&& out matches Some(Err(err))
                    &&& is_status(err, Code::DEADLINE_EXCEEDED, "ping timed out"@)
                    &&& final(self)@ == old(self)@.unprobed(nonce)
                }
            }),
    {
        let known: Option<bool> = match self.pings.get(&nonce) {
            None => None,
            Some(answered) => Some(*answered),
        };
        if let Some(answered) = known {
            if !answered && !self.closed && now < expires {
                return None;
            }
            self.pings.remove(&nonce);
            assert(self@ =~= old(self)@.unprobed(nonce));
            if answered {
                return Some(Ok(now - started));
            }
        }
        assert(self@ =~= old(self)@.unprobed(nonce));
        Some(
            Err(
                RpcError::Status(Status::new(Code(Code::DEADLINE_EXCEEDED), "ping timed out")),
            ),
        )
    }

    /// Ends a probe whose PING frame could not be sent.
    pub fn ping_failed(&mut self, nonce: u64, err: std::io::Error) -> (failure: RpcError)
        ensures
            failure == RpcError::Transport(err),
            final(self)@ == old(self)@.unprobed(nonce),
    {
        self.pings.remove(&nonce);
        assert(self@ =~= old(self)@.unprobed(nonce));
        RpcError::Transport(err)
    }
}

/// A fresh connection has no calls and no probes, and both are counted from
/// one.
pub proof fn connections_start_empty(call_id: u32, nonce: u64)
    ensures
        ({
            let fresh = ClientView::fresh();
            &&& !fresh.calls.contains_key(call_id)
            &&& !fresh.pings.contains_key(nonce)
            &&& fresh.next_call == 1
            &&& fresh.next_ping == 1
            &&& !fresh.closed
        }),
{
}

/// A call begins with an empty, open mailbox; nothing else changes but the
/// count, which comes round after the last id.
pub proof fn started_calls_listen(client: ClientView, call_id: u32, other: u32)
    requires
        other != call_id,
    ensures
        ({
            let after = client.started(call_id);
            &&& after.calls.contains_key(call_id)
            &&& after.calls[call_id].events.len() == 0
            &&& after.calls[call_id].open
            &&& after.calls.contains_key(other) <==> client.calls.contains_key(other)
            &&& client.calls.contains_key(other) ==> after.calls[other] == client.calls[other]
            &&& after.next_call == if call_id == 0xffff_ffff {
                0
            } else {
                call_id + 1
            }
            &&& after.pings == client.pings
            &&& after.next_ping == client.next_ping
            &&& after.closed == client.closed
        }),
{
}

/// A call that is forgotten is gone, and nothing else is.
pub proof fn forgotten_calls_are_gone(client: ClientView, call_id: u32, other: u32)
    requires
        other != call_id,
    ensures
        ({
            let after = client.forgotten(call_id);
            &&& !after.calls.contains_key(call_id)
            &&& after.calls.contains_key(other) <==> client.calls.contains_key(other)
            &&& client.calls.contains_key(other) ==> after.calls[other] == client.calls[other]
            &&& after == ClientView { calls: after.calls, ..client }
        }),
{
}

/// What arrives for a call joins the end of its mailbox, a CLOSE as the last;
/// what arrives for a call that is gone, was closed or lost its connection is
/// dropped. Nothing else changes.
pub proof fn deliveries_join_the_queue(
    client: ClientView,
    call_id: u32,
    event: EventView,
    other: u32,
)
    requires
        other != call_id,
    ensures
        client.listens(call_id) <==> !client.closed && client.calls.contains_key(call_id)
            && client.calls[call_id].open,
        ({
            let after = client.delivered(call_id, event);
            &&& !client.listens(call_id) ==> after == client
            &&& client.listens(call_id) ==> {
                &&& after.calls.contains_key(call_id)
                &&& after.calls[call_id].events == client.calls[call_id].events.push(event)
                &&& after.calls[call_id].open <==> event is Message
            }
            &&& after.calls.contains_key(other) <==> client.calls.contains_key(other)
            &&& client.calls.contains_key(other) ==> after.calls[other] == client.calls[other]
            &&& after == ClientView { calls: after.calls, ..client }
        }),
{
}

/// What a call learns when it looks: the oldest thing that arrived for it, as
/// long as there is one; then that its connection or its CLOSE is behind it;
/// then that its time is up; and otherwise that it has to wait.
pub proof fn calls_learn_what_arrived_first(
    client: ClientView,
    call_id: u32,
    expires: Option<u128>,
    now: u128,
)
    ensures
        ({
            let known = client.calls.contains_key(call_id);
            let waiting = known && client.calls[call_id].events.len() > 0;
            let late = expires matches Some(at) && now >= at;
            let gone = client.closed || !known || !client.calls[call_id].open;
            &&& waiting ==> client.received(call_id, expires, now) == ReceivedView::Event(
                client.calls[call_id].events[0],
            )
            &&& !waiting && gone ==> client.received(call_id, expires, now) is Disconnected
            &&& !waiting && !gone && late ==> client.received(call_id, expires, now) is TimedOut
            &&& !waiting && !gone && !late ==> client.received(call_id, expires, now) is Wait
        }),
{
}

/// Looking takes the oldest event and leaves the others in their order;
/// nothing else changes.
pub proof fn events_are_taken_from_the_front(client: ClientView, call_id: u32, other: u32)
    requires
        other != call_id,
    ensures
        ({
            let after = client.taken(call_id);
            let waiting = client.calls.contains_key(call_id)
                && client.calls[call_id].events.len() > 0;
            &&& !waiting ==> after == client
            &&& waiting ==> {
                &&& after.calls.contains_key(call_id)
                &&& seq![client.calls[call_id].events[0]] + after.calls[call_id].events
                    == client.calls[call_id].events
                &&& after.calls[call_id].open == client.calls[call_id].open
            }
            &&& after.calls.contains_key(other) <==> client.calls.contains_key(other)
            &&& client.calls.contains_key(other) ==> after.calls[other] == client.calls[other]
            &&& after == ClientView { calls: after.calls, ..client }
        }),
{
    if client.calls.contains_key(call_id) && client.calls[call_id].events.len() > 0 {
        let events = client.calls[call_id].events;
        assert(seq![events[0]] + events.drop_first() =~= events);
    }
}

/// A probe waits under the next nonce, is answered by that nonce alone, and is
/// forgotten when it is over; no other probe and no call is touched.
pub proof fn probes_are_kept_apart(client: ClientView, nonce: u64, other: u64)
    requires
        other != nonce,
    ensures
        ({
            let after = client.probed();
            let mine = client.next_ping;
            &&& after.pings.contains_key(mine) && !after.pings[mine]
            &&& other != mine ==> (after.pings.contains_key(other)
                <==> client.pings.contains_key(other))
            &&& other != mine && client.pings.contains_key(other) ==> after.pings[other]
                == client.pings[other]
            &&& after.next_ping == if mine == 0xffff_ffff_ffff_ffff {
                0
            } else {
                mine + 1
            }
            &&& after.calls == client.calls && after.next_call == client.next_call && after.closed
                == client.closed
        }),
        ({
            let after = client.answered(nonce);
            &&& after.pings.contains_key(nonce) <==> client.pings.contains_key(nonce)
            &&& client.pings.contains_key(nonce) ==> after.pings[nonce]
            &&& after.pings.contains_key(other) <==> client.pings.contains_key(other)
            &&& client.pings.contains_key(other) ==> after.pings[other] == client.pings[other]
            &&& after == ClientView { pings: after.pings, ..client }
        }),
        ({
            let after = client.unprobed(nonce);
            &&& !after.pings.contains_key(nonce)
            &&& after.pings.contains_key(other) <==> client.pings.contains_key(other)
            &&& client.pings.contains_key(other) ==> after.pings[other] == client.pings[other]
            &&& after == ClientView { pings: after.pings, ..client }
        }),
{
    assert(!client.pings.contains_key(nonce) ==> client.answered(nonce) == client);
}

/// The next call's id is the first one from the count on, coming round after
/// the last, that is not zero and not in use.
pub proof fn next_ids_are_the_first_free(client: ClientView, id: u32, between: u32)
    ensures
        client.is_free(between) <==> between != 0 && !client.calls.contains_key(between),
        client.is_next(id) ==> id != 0 && !client.calls.contains_key(id),
        client.is_next(id) && client.next_call <= id && client.next_call <= between < id
            ==> between == 0 || client.calls.contains_key(between),
        client.is_next(id) && id < client.next_call && (between >= client.next_call || between
            < id) ==> between == 0 || client.calls.contains_key(between),
{
    if client.is_next(id) {
        let steps = choose|steps: nat| #[trigger] client.is_next_after(id, steps);
        let start = client.next_call as nat;
        let own: nat = if id >= start {
            (id - start) as nat
        } else {
            (id + 0x1_0000_0000 - start) as nat
        };
        let skipped: nat = if between >= start {
            (between - start) as nat
        } else {
            (between + 0x1_0000_0000 - start) as nat
        };
        assert(id_after(client.next_call, own) == id);
        assert(id_after(client.next_call, skipped) == between);
        if own < steps {
            assert(!client.is_free(id));
        }
        if skipped < steps {
            assert(!client.is_free(between));
        }
    }
}

/// What a client takes each frame for, by its kind.
pub proof fn notices_are_told_apart(header: FrameHeader, payload: Seq<u8>)
    ensures
        header.flags != 0 ==> notice_of(header, payload) is Violation,
        header.flags == 0 ==> {
            &&& header.kind.0 == 1 ==> notice_of(header, payload) == Notice::Deliver(
                EventView::Message(payload),
            )
            &&& header.kind.0 == 2 ==> notice_of(header, payload) == Notice::Deliver(
                EventView::Close((header.status, lossy_text(payload))),
            )
            &&& header.kind.0 == 4 ==> notice_of(header, payload) is Probe
            &&& header.kind.0 == 5 && payload.len() == 8 ==> notice_of(header, payload)
                == Notice::Answer(Some(le_value(payload) as u64))
            &&& header.kind.0 == 5 && payload.len() != 8 ==> notice_of(header, payload)
                == Notice::Answer(None)
            &&& header.kind.0 == 0 || header.kind.0 == 3 || header.kind.0 > 5 ==> notice_of(
                header,
                payload,
            ) is Violation
        },
{
}

/// What each frame changes: a MESSAGE and a CLOSE are delivered to their call, a
/// PONG answers its probe, and nothing else changes anything; nor does any
/// frame once the connection is over.
pub proof fn notices_change_what_they_concern(
    client: ClientView,
    header: FrameHeader,
    payload: Seq<u8>,
)
    ensures
        client.closed || header.flags != 0 ==> after_notice(client, header, payload) == client,
        !client.closed && header.flags == 0 ==> {
            let after = after_notice(client, header, payload);
            &&& header.kind.0 == 1 ==> after == client.delivered(
                header.call_id,
                EventView::Message(payload),
            )
            &&& header.kind.0 == 2 ==> after == client.delivered(
                header.call_id,
                EventView::Close((header.status, lossy_text(payload))),
            )
            &&& header.kind.0 == 5 && payload.len() == 8 ==> after == client.answered(
                le_value(payload) as u64,
            )
            &&& header.kind.0 == 5 && payload.len() != 8 ==> after == client
            &&& header.kind.0 != 1 && header.kind.0 != 2 && header.kind.0 != 5 ==> after == client
        },
{
}

/// A request begins a call exactly when it fits a frame together with its
/// prologue and an id is free; the CALL frame carries the request as it is. One
/// that does not fit is refused with its size, and neither refusal leaves a
/// trace.
pub proof fn requests_begin_or_are_refused(
    before: ClientView,
    after: ClientView,
    method: u64,
    body: Seq<u8>,
    patience: Option<u128>,
    out: Result<(u32, Frame), RpcError>,
    free: u32,
)
    requires
        start_outcome(before, after, method, body, patience, out),
    ensures
        body.len() > 67_108_852 ==> after == before && (out matches Err(RpcError::Status(status))
            && status.code.0 == 8 && status.message@ == "request of "@ + decimal_text(
            12 + body.len(),
        ) + " bytes exceeds the frame limit"@),
        body.len() <= 67_108_852 && free != 0 && !before.calls.contains_key(free) ==> out is Ok,
        out is Err ==> after == before,
        out matches Ok((call_id, frame)) ==> {
            &&& before.is_next(call_id)
            &&& after == before.started(call_id)
            &&& frame.header.kind.0 == 0
            &&& frame.header.flags == 0
            &&& frame.header.status == 0
            &&& frame.header.call_id == call_id
            &&& frame.payload@.len() == 12 + body.len()
            &&& frame.payload@.skip(12) == body
            &&& frame.payload@.take(12) == CallPrologue {
                method,
                deadline_ms: wire_deadline(patience),
            }.wire()
        },
{
    let prologue = CallPrologue { method, deadline_ms: wire_deadline(patience) };
    crate::frame::prologue_round_trips(prologue);
    assert(before.is_free(free) <==> free != 0 && !before.calls.contains_key(free));
    assert((prologue.wire() + body).skip(12) =~= body);
    assert((prologue.wire() + body).take(12) =~= prologue.wire());
}

/// A CANCEL frame is empty and names its call.
pub proof fn cancels_name_their_call(call_id: u32)
    ensures
        cancel_view(call_id).0.kind.0 == 3,
        cancel_view(call_id).0.flags == 0,
        cancel_view(call_id).0.status == 0,
        cancel_view(call_id).0.call_id == call_id,
        cancel_view(call_id).1.len() == 0,
{
}

/// A call whose time is up fails with the code that the server would use, and
/// one whose connection went away as unavailable.
pub proof fn local_failures_have_codes()
    ensures
        timeout_status() == (4u16, "deadline exceeded"@),
        disconnect_status() == (14u16, "connection closed mid-call"@),
{
}

/// An event is its message's bytes or its status.
pub proof fn events_are_what_they_hold(bytes: Vec<u8>, status: Status)
    ensures
        Event::Message(bytes)@ == EventView::Message(bytes@),
        Event::Close(status)@ == EventView::Close((status.code.0, status.message@)),
{
}

} // verus!
