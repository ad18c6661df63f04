//! A counting semaphore, used to bound how many connections and in-flight
//! calls a server runs at once. `acquire` is for a caller that waited for a
//! free permit; `try_acquire` returns `None` instead of waiting, which lets a
//! busy server shed load rather than stall the calls it is already serving.
//!
//! The semaphore is a plain value. Whoever shares it between threads puts it
//! behind a lock and does the waiting. A permit belongs to the semaphore that
//! gave it out, and goes back to no other.

use vstd::prelude::*;

verus! {

/// A semaphore's permits: how many there are, and how many are free.
pub ghost struct Permits {
    pub total: nat,
    pub free: nat,
}

impl Permits {
    /// One permit fewer is free.
    pub open spec fn taken(self) -> Permits {
        Permits { total: self.total, free: (self.free - 1) as nat }
    }

    /// One permit more is free.
    pub open spec fn returned(self) -> Permits {
        Permits { total: self.total, free: self.free + 1 }
    }

    /// How many permits are out.
    pub open spec fn in_use(self) -> int {
        self.total - self.free
    }
}

pub struct Semaphore {
    total: usize,
    free: usize,
    id: Ghost<int>,
}

impl View for Semaphore {
    type V = Permits;

    closed spec fn view(&self) -> Permits {
        Permits { total: self.total as nat, free: self.free as nat }
    }
}

impl Semaphore {
    #[verifier::type_invariant]
    spec fn no_more_free_than_there_are(self) -> bool {
        self.free <= self.total
    }

    /// Which semaphore this is. Nothing is known of it but that it stays the
    /// same, so only a permit that came from here is known to belong here.
    pub closed spec fn id(self) -> int {
        self.id@
    }

    /// A semaphore with `permits` permits, all free.
    pub fn new(permits: usize) -> (semaphore: Semaphore)
        ensures
            semaphore@ == (Permits { total: permits as nat, free: permits as nat }),
    {
        Semaphore { total: permits, free: permits, id: Ghost(arbitrary()) }
    }

    /// Whether a caller of `acquire` has to wait first.
    pub fn is_exhausted(&self) -> (exhausted: bool)
        ensures
            exhausted == (self@.free == 0),
    {
        self.free == 0
    }

    /// How many permits are out.
    pub fn in_use(&self) -> (count: usize)
        ensures
            count == self@.in_use(),
            self@.free <= self@.total,
    {
        proof {
            use_type_invariant(self);
        }
        self.total - self.free
    }

    /// Takes a permit, once the wait for a free one is over.
    pub fn acquire(&mut self) -> (permit: Permit)
        requires
            old(self)@.free > 0,
        ensures
            final(self)@ == old(self)@.taken(),
            final(self).id() == old(self).id(),
            permit.owner() == old(self).id(),
    {
        proof {
            use_type_invariant(&*self);
        }
        self.free = self.free - 1;
        Permit { owner: self.id }
    }

    /// Takes a permit if one is free, otherwise returns `None`.
    pub fn try_acquire(&mut self) -> (permit: Option<Permit>)
        ensures
            permit is Some <==> old(self)@.free > 0,
            final(self)@ == if old(self)@.free > 0 {
                old(self)@.taken()
            } else {
                old(self)@
            },
            final(self).id() == old(self).id(),
            permit matches Some(permit) ==> permit.owner() == old(self).id(),
    {
        if self.free == 0 {
            return None;
        }
        Some(self.acquire())
    }

    /// Gives a permit back to the semaphore that it belongs to.
    pub fn release(&mut self, permit: Permit)
        requires
            permit.owner() == old(self).id(),
            old(self)@.in_use() > 0,
        ensures
            final(self)@ == old(self)@.returned(),
            final(self).id() == old(self).id(),
    {
        self.free = self.free + 1;
    }
}

/// Holds one permit, to be given back to the semaphore it came from.
pub struct Permit {
    owner: Ghost<int>,
}

impl Permit {
    /// The semaphore that the permit belongs to.
    pub closed spec fn owner(self) -> int {
        self.owner@
    }
}

/// A use of a semaphore.
pub ghost enum PermitUse {
    TryAcquire,
    Release,
}

/// The permits after one use: taking one fails when none is free, and only a
/// permit that is out comes back.
pub open spec fn after_use(permits: Permits, step: PermitUse) -> Permits {
    match step {
        PermitUse::TryAcquire => if permits.free > 0 {
            permits.taken()
        } else {
            permits
        },
        PermitUse::Release => if permits.in_use() > 0 {
            permits.returned()
        } else {
            permits
        },
    }
}

/// The permits after a run of uses.
pub open spec fn after_uses(permits: Permits, steps: Seq<PermitUse>) -> Permits
    decreases steps.len(),
{
    if steps.len() == 0 {
        permits
    } else {
        after_use(after_uses(permits, steps.drop_last()), steps.last())
    }
}

/// How many of a run of uses took a permit.
pub open spec fn acquisitions(permits: Permits, steps: Seq<PermitUse>) -> nat
    decreases steps.len(),
{
    if steps.len() == 0 {
        0
    } else {
        acquisitions(permits, steps.drop_last()) + if steps.last() is TryAcquire && after_uses(
            permits,
            steps.drop_last(),
        ).free > 0 {
            1nat
        } else {
            0nat
        }
    }
}

/// How many of a run of uses brought a permit back.
pub open spec fn give_backs(permits: Permits, steps: Seq<PermitUse>) -> nat
    decreases steps.len(),
{
    if steps.len() == 0 {
        0
    } else {
        give_backs(permits, steps.drop_last()) + if steps.last() is Release && after_uses(
            permits,
            steps.drop_last(),
        ).in_use() > 0 {
            1nat
        } else {
            0nat
        }
    }
}

/// However a semaphore is used, no more permits are out than it was made
/// with, and none is ever lost or made up: those that were taken and did not
/// come back are exactly those that are not free.
pub proof fn permits_bound_use(count: nat, steps: Seq<PermitUse>)
    ensures
        ({
            let fresh = Permits { total: count, free: count };
            let permits = after_uses(fresh, steps);
            &&& permits.total == count
            &&& 0 <= permits.in_use() <= count
            &&& permits.free + acquisitions(fresh, steps) - give_backs(fresh, steps) == count
        }),
    decreases steps.len(),
{
    if steps.len() > 0 {
        permits_bound_use(count, steps.drop_last());
    }
}

/// A permit that is taken and given back leaves the semaphore as it was.
pub proof fn released_permits_are_free_again(permits: Permits)
    requires
        permits.free > 0,
    ensures
        permits.taken().returned() == permits,
{
}

/// Taking a permit leaves one fewer free, giving one back one more, and what is
/// not free is out.
pub proof fn permits_move_one_by_one(permits: Permits)
    ensures
        permits.free > 0 ==> permits.taken().free == permits.free - 1,
        permits.taken().total == permits.total,
        permits.returned().free == permits.free + 1,
        permits.returned().total == permits.total,
        permits.in_use() == permits.total - permits.free,
{
}

} // verus!
