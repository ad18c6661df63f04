//! Deadlines, and what a handler knows about its call.
//!
//! Times are nanoseconds on a monotonic clock with an arbitrary origin. Only
//! durations cross the wire, in milliseconds.

use vstd::prelude::*;

verus! {

/// Nanoseconds in a millisecond.
pub const NANOS_PER_MILLI: u128 = 1_000_000;

/// The deadline of a CALL frame: the patience in whole milliseconds, as far
/// as 32 bits go, and zero for no deadline. A patience under a millisecond
/// travels as one, since zero would read as unbounded.
pub open spec fn wire_deadline(patience: Option<u128>) -> u32 {
    match patience {
        None => 0,
        Some(nanos) => if nanos / NANOS_PER_MILLI == 0 {
            1
        } else if nanos / NANOS_PER_MILLI > u32::MAX {
            u32::MAX
        } else {
            (nanos / NANOS_PER_MILLI) as u32
        },
    }
}

/// The moment until which `patience` lasts from `now` on.
pub open spec fn expiry(now: u128, patience: Option<u128>) -> Option<u128> {
    match patience {
        None => None,
        Some(nanos) => Some((now + nanos) as u128),
    }
}

/// Whether `deadline` has passed by `now`.
pub open spec fn has_expired(deadline: Option<u128>, now: u128) -> bool {
    deadline matches Some(at) && now >= at
}

/// The moment at which a call expires that arrived at `now` with this deadline
/// in its prologue.
pub open spec fn call_expiry(deadline_ms: u32, now: u128) -> Option<u128> {
    if deadline_ms == 0 {
        None
    } else {
        Some((now + deadline_ms * NANOS_PER_MILLI) as u128)
    }
}

/// How much of the time until `deadline` is left at `now`.
pub open spec fn time_left(deadline: Option<u128>, now: u128) -> Option<u128> {
    match deadline {
        None => None,
        Some(at) => if at > now {
            Some((at - now) as u128)
        } else {
            Some(0u128)
        },
    }
}

/// The deadline that a CALL frame carries for a caller with this patience.
pub fn deadline_millis(patience: Option<u128>) -> (millis: u32)
    ensures
        millis == wire_deadline(patience),
{
    match patience {
        None => 0,
        Some(nanos) => {
            let millis: u128 = nanos / NANOS_PER_MILLI;
            if millis == 0 {
                1
            } else if millis > u32::MAX as u128 {
                u32::MAX
            } else {
                millis as u32
            }
        },
    }
}

/// The moment at which a caller with this patience gives up.
pub fn expires_at(now: u128, patience: Option<u128>) -> (at: Option<u128>)
    requires
        patience matches Some(nanos) ==> now + nanos <= u128::MAX,
    ensures
        at == expiry(now, patience),
{
    match patience {
        None => None,
        Some(nanos) => Some(now + nanos),
    }
}

/// Whether `deadline` has passed by `now`.
pub fn expired(deadline: Option<u128>, now: u128) -> (passed: bool)
    ensures
        passed == has_expired(deadline, now),
{
    match deadline {
        None => false,
        Some(at) => now >= at,
    }
}

/// A deadline is sent exactly when there is one: only a caller without a
/// deadline asks for an unbounded call.
pub proof fn deadlines_travel(patience: Option<u128>)
    ensures
        wire_deadline(patience) == 0 <==> patience is None,
{
}

/// The deadline sent is never longer than the caller's patience, rounded up
/// to one millisecond; below the 32-bit limit it is short by less than one.
pub proof fn deadlines_are_not_extended(nanos: u128)
    ensures
        nanos >= NANOS_PER_MILLI ==> wire_deadline(Some(nanos)) * NANOS_PER_MILLI <= nanos,
        wire_deadline(Some(nanos)) < u32::MAX ==> nanos < (wire_deadline(Some(nanos)) + 1)
            * NANOS_PER_MILLI,
{
}

/// A service that calls onward with the time it has left asks for no more than
/// it was given itself, and for an unbounded call only if its own was. As long
/// as it asks for more than the least, what it asks for and what it spent fit
/// into what it was given.
pub proof fn forwarded_deadlines_shrink(deadline_ms: u32, arrived: u128, now: u128)
    requires
        arrived <= now,
        arrived + deadline_ms * NANOS_PER_MILLI <= u128::MAX,
    ensures
        ({
            let onward = wire_deadline(time_left(call_expiry(deadline_ms, arrived), now));
            &&& onward <= deadline_ms
            &&& onward == 0 <==> deadline_ms == 0
            &&& onward > 1 ==> onward * NANOS_PER_MILLI + (now - arrived) <= deadline_ms
                * NANOS_PER_MILLI
        }),
{
}

/// What a handler knows about its call beyond the request itself.
pub struct Context<Peer> {
    deadline: Option<u128>,
    peer: Peer,
}

impl<Peer> Context<Peer> {
    /// The instant after which the client has given up.
    pub closed spec fn deadline_spec(self) -> Option<u128> {
        self.deadline
    }

    /// Who sent the call.
    pub closed spec fn peer_spec(self) -> Peer {
        self.peer
    }

    /// The context of a call that arrived at `now` with this deadline in its
    /// prologue.
    pub fn new(deadline_ms: u32, now: u128, peer: Peer) -> (context: Self)
        requires
            now + deadline_ms * NANOS_PER_MILLI <= u128::MAX,
        ensures
            context.deadline_spec() == call_expiry(deadline_ms, now),
            context.peer_spec() == peer,
    {
        let deadline: Option<u128> = if deadline_ms == 0 {
            None
        } else {
            Some(now + (deadline_ms as u128) * NANOS_PER_MILLI)
        };
        Context { deadline, peer }
    }

    /// Instant after which the client has given up. Derived from the
    /// hop-relative deadline in the CALL frame.
    pub fn deadline(&self) -> (deadline: Option<u128>)
        ensures
            deadline == self.deadline_spec(),
    {
        self.deadline
    }

    /// Time left at `now` to produce an answer; `None` means unbounded.
    pub fn remaining(&self, now: u128) -> (left: Option<u128>)
        ensures
            left == time_left(self.deadline_spec(), now),
    {
        match self.deadline {
            None => None,
            Some(at) => if at > now {
                Some(at - now)
            } else {
                Some(0)
            },
        }
    }

    /// True once the client cancelled or the deadline passed. Long
    /// handlers and streams should poll this and bail out.
    pub fn is_cancelled(&self, cancelled: bool, now: u128) -> (stop: bool)
        ensures
            stop == (cancelled || has_expired(self.deadline_spec(), now)),
    {
        cancelled || expired(self.deadline, now)
    }

    pub fn peer(&self) -> (peer: &Peer)
        ensures
            *peer == self.peer_spec(),
    {
        &self.peer
    }
}

/// A call begun at `now` gives up from `now` plus its patience on and at no
/// moment before; without a deadline it never does.
pub proof fn patience_lasts_as_given(now: u128, patience: u128, moment: u128)
    requires
        now + patience <= u128::MAX,
    ensures
        has_expired(expiry(now, Some(patience)), moment) <==> moment >= now + patience,
        !has_expired(expiry(now, None), moment),
{
}

/// The deadline that travels is the patience in whole milliseconds: at least
/// one, at most what 32 bits hold, and zero only where there is none.
pub proof fn patience_travels_in_milliseconds(nanos: u128)
    ensures
        wire_deadline(None) == 0,
        nanos < 2_000_000 ==> wire_deadline(Some(nanos)) == 1,
        1_000_000 <= nanos <= 4_294_967_295_000_000 ==> wire_deadline(Some(nanos)) * 1_000_000
            <= nanos < (wire_deadline(Some(nanos)) + 1) * 1_000_000,
        nanos >= 4_294_967_295_000_000 ==> wire_deadline(Some(nanos)) == 0xffff_ffff,
{
}

/// A server's call expires as many milliseconds after it arrived as its
/// prologue says, and never if that says zero; what is left until then is the
/// difference, and nothing once it passed.
pub proof fn calls_expire_as_told(deadline_ms: u32, arrived: u128, moment: u128)
    requires
        arrived + deadline_ms * 1_000_000 <= u128::MAX,
    ensures
        ({
            let deadline = call_expiry(deadline_ms, arrived);
            &&& has_expired(deadline, moment) <==> deadline_ms > 0 && moment >= arrived
                + deadline_ms * 1_000_000
            &&& deadline_ms == 0 ==> time_left(deadline, moment) is None
            &&& deadline_ms > 0 ==> (time_left(deadline, moment) matches Some(left) && left
                == if moment < arrived + deadline_ms * 1_000_000 {
                arrived + deadline_ms * 1_000_000 - moment
            } else {
                0
            })
        }),
{
}

} // verus!
