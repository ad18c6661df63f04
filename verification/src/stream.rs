//! The way of a stream's messages from its sink to the connection.

use crate::call::{connection_lost, message_view, send_refusal, stream_message};
use crate::frame::{Frame, FrameHeader};
use crate::outlet::{accepted, Outbox, Outlet};
use crate::status::{Code, Status};
use vstd::prelude::*;

verus! {

/// The frames that a writer took, in order.
pub open spec fn taken(record: Seq<(Frame, bool)>) -> Seq<(FrameHeader, Seq<u8>)>
    decreases record.len(),
{
    if record.len() == 0 {
        Seq::empty()
    } else if record.last().1 {
        taken(record.drop_last()).push(record.last().0@)
    } else {
        taken(record.drop_last())
    }
}

/// Some encoded messages by their bytes.
pub open spec fn contents(messages: Seq<Vec<u8>>) -> Seq<Seq<u8>> {
    messages.map_values(|bytes: Vec<u8>| bytes@)
}

/// The frames of some messages of a call.
pub open spec fn message_frames(call_id: u32, messages: Seq<Seq<u8>>) -> Seq<
    (FrameHeader, Seq<u8>),
> {
    messages.map_values(|bytes: Seq<u8>| message_view(call_id, bytes))
}

/// The frames that the messages of a record make: those that were accepted.
pub open spec fn accepted_frames(call_id: u32, log: Seq<(Vec<u8>, Result<(), Status>)>) -> Seq<
    (FrameHeader, Seq<u8>),
> {
    message_frames(call_id, contents(accepted(log)))
}

/// The outlet of one call: asks `gate` before each message whether the client
/// cancelled and whether the deadline passed, and hands the message's frame to
/// a writer, which says whether it could be written.
pub struct CallOutlet<G: Fn() -> (bool, bool), W: Fn(Frame) -> bool> {
    call_id: u32,
    gate: G,
    /// `None` only while a frame is being written, and for good if the writer
    /// panicked over one.
    writer: Option<Outbox<Frame, bool, W>>,
    log: Ghost<Seq<(Vec<u8>, Result<(), Status>)>>,
}

impl<G: Fn() -> (bool, bool), W: Fn(Frame) -> bool> CallOutlet<G, W> {
    #[verifier::type_invariant]
    spec fn writes_what_it_accepts(self) -> bool {
        &&& call_requires(self.gate, ())
        &&& self.writer matches Some(writer) ==> taken(writer.record()) == accepted_frames(
            self.call_id,
            self.log@,
        )
    }

    /// The call whose messages these are.
    pub closed spec fn call_id_spec(self) -> u32 {
        self.call_id
    }

    /// What is asked before each message.
    pub closed spec fn gate_spec(self) -> G {
        self.gate
    }

    /// The writer, unless it panicked.
    pub closed spec fn writer_spec(self) -> Option<Outbox<Frame, bool, W>> {
        self.writer
    }

    /// The outlet of a call that sent nothing yet.
    pub fn new(call_id: u32, gate: G, writer: W) -> (outlet: Self)
        requires
            call_requires(gate, ()),
            forall|frame: Frame| #[trigger] call_requires(writer, (frame,)),
        ensures
            outlet.call_id_spec() == call_id,
            outlet.gate_spec() == gate,
            outlet.log() == Seq::<(Vec<u8>, Result<(), Status>)>::empty(),
            outlet.writer_spec() matches Some(outbox) && outbox.raw_spec() == writer
                && outbox.record() == Seq::<(Frame, bool)>::empty(),
    {
        let outbox = Outbox::new(writer);
        assert(taken(outbox.record()) =~= accepted_frames(call_id, Seq::empty()));
        CallOutlet { call_id, gate, writer: Some(outbox), log: Ghost(Seq::empty()) }
    }

    /// The writer, once the stream is over, for the frame that ends the call.
    /// What it took so far are the frames of the accepted messages, in order.
    pub fn into_writer(self) -> (writer: Option<Outbox<Frame, bool, W>>)
        ensures
            writer == self.writer_spec(),
            writer matches Some(writer) ==> taken(writer.record()) == accepted_frames(
                self.call_id_spec(),
                self.log(),
            ),
    {
        proof {
            use_type_invariant(&self);
        }
        self.writer
    }
}

/// How an outlet whose writer holds `record` deals with a message: what it
/// answers, and what it hands to the writer.
pub open spec fn offer_outcome<G: Fn() -> (bool, bool), W: Fn(Frame) -> bool>(
    outlet: CallOutlet<G, W>,
    writer: Outbox<Frame, bool, W>,
    item: Seq<u8>,
    gate: (bool, bool),
    out: Result<(), Status>,
    after: Outbox<Frame, bool, W>,
) -> bool {
    match send_refusal(gate.0, gate.1) {
        Some(status) => {
            &&& out matches Err(refusal)
            &&& refusal@ == status
            &&& after == writer
        },
        None => exists|frame: Frame, written: bool|
            {
                &&& #[trigger] call_ensures(writer.raw_spec(), (frame,), written)
                &&& frame@ == message_view(outlet.call_id_spec(), item)
                &&& after.raw_spec() == writer.raw_spec()
                &&& after.record() == writer.record().push((frame, written))
                &&& if written {
                    out is Ok
                } else {
                    out matches Err(lost) && lost@ == (
                        Code::UNAVAILABLE,
                        "client connection lost"@,
                    )
                }
            },
    }
}

impl<G: Fn() -> (bool, bool), W: Fn(Frame) -> bool> Outlet<Vec<u8>> for CallOutlet<G, W> {
    closed spec fn log(&self) -> Seq<(Vec<u8>, Result<(), Status>)> {
        self.log@
    }

    /// Sends one message, unless the client cancelled, the deadline passed or
    /// the connection is lost.
    fn offer(&mut self, item: Vec<u8>) -> (out: Result<(), Status>)
        ensures
            final(self).call_id_spec() == old(self).call_id_spec(),
            final(self).gate_spec() == old(self).gate_spec(),
            match old(self).writer_spec() {
                None => {
                    &&& final(self).writer_spec() is None
                    &&& out matches Err(lost)
                    &&& lost@ == (Code::UNAVAILABLE, "client connection lost"@)
                },
                Some(writer) => exists|gate: (bool, bool)|
                    {
                        &&& #[trigger] call_ensures(old(self).gate_spec(), (), gate)
                        &&& final(self).writer_spec() matches Some(after)
                        &&& offer_outcome(*old(self), writer, item@, gate, out, after)
                    },
            },
    {
        proof {
            use_type_invariant(&*self);
        }
        let ghost offered = item;
        let ghost log = self.log@;
        let mut slot: Option<Outbox<Frame, bool, W>> = None;
        std::mem::swap(&mut slot, &mut self.writer);
        match slot {
            None => {
                let out = Err(connection_lost());
                self.log = Ghost(log.push((offered, out)));
                out
            },
            Some(writer) => {
                let mut writer = writer;
                let ghost untouched = writer;
                let ghost before = writer.record();
                let state: (bool, bool) = (self.gate)();
                let out = match stream_message(self.call_id, item, state.0, state.1) {
                    Err(refusal) => Err(refusal),
                    Ok(frame) => {
                        if writer.hand(frame) {
                            Ok(())
                        } else {
                            Err(connection_lost())
                        }
                    },
                };
                self.log = Ghost(log.push((offered, out)));
                proof {
                    assert(self.log@.drop_last() =~= log);
                    if writer.record() != before {
                        assert(writer.record().drop_last() =~= before);
                    }
                    assert(taken(writer.record()) =~= accepted_frames(self.call_id, self.log@));
                }
                assert(old(self).writer_spec() == Some(untouched));
                assert(call_ensures(old(self).gate_spec(), (), state));
                assert(offer_outcome(*old(self), untouched, item@, state, out, writer));
                self.writer = Some(writer);
                out
            },
        }
    }
}

/// What a writer took is every frame it said yes to, and no other, in the order
/// in which it got them.
pub proof fn taken_frames_keep_their_order(record: Seq<(Frame, bool)>, frame: Frame)
    ensures
        taken(Seq::empty()).len() == 0,
        taken(record.push((frame, true))) == taken(record).push((frame.header, frame.payload@)),
        taken(record.push((frame, false))) == taken(record),
{
    assert(record.push((frame, true)).drop_last() =~= record);
    assert(record.push((frame, false)).drop_last() =~= record);
}

/// The frames of the accepted messages are MESSAGE frames of the call, one for
/// each message and in their order, with the message's bytes.
pub proof fn accepted_messages_are_framed(
    call_id: u32,
    log: Seq<(Vec<u8>, Result<(), Status>)>,
    i: int,
)
    ensures
        accepted_frames(call_id, log).len() == accepted(log).len(),
        0 <= i < accepted(log).len() ==> ({
            let (header, payload) = accepted_frames(call_id, log)[i];
            &&& header.kind.0 == 1
            &&& header.flags == 0
            &&& header.call_id == call_id
            &&& payload == accepted(log)[i]@
        }),
{
}

/// What becomes of a message: one that is refused reaches no writer, one that
/// is not reaches it once, as it is, and the answer says whether it was
/// written.
pub proof fn offers_are_answered<G: Fn() -> (bool, bool), W: Fn(Frame) -> bool>(
    outlet: CallOutlet<G, W>,
    writer: Outbox<Frame, bool, W>,
    item: Seq<u8>,
    gate: (bool, bool),
    out: Result<(), Status>,
    after: Outbox<Frame, bool, W>,
)
    requires
        offer_outcome(outlet, writer, item, gate, out, after),
    ensures
        gate.0 || gate.1 ==> after == writer && (out matches Err(status) && status.code.0 == (
        if gate.0 {
            1u16
        } else {
            4u16
        })),
        !gate.0 && !gate.1 ==> {
            &&& after.record().len() == writer.record().len() + 1
            &&& after.record().drop_last() == writer.record()
            &&& after.record().last().0.payload@ == item
            &&& after.record().last().0.header.kind.0 == 1
            &&& after.record().last().0.header.call_id == outlet.call_id_spec()
            &&& after.record().last().1 <==> out is Ok
            &&& out matches Err(status) ==> status.code.0 == 14
        },
{
    if !gate.0 && !gate.1 {
        assert(after.record().drop_last() =~= writer.record());
    }
}

} // verus!
