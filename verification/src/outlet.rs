//! Where a stream's messages go, with a record of each that was offered.

use crate::status::Status;
use vstd::prelude::*;

verus! {

/// The items of a record that were accepted, in order.
pub open spec fn accepted<Item>(log: Seq<(Item, Result<(), Status>)>) -> Seq<Item>
    decreases log.len(),
{
    if log.len() == 0 {
        Seq::empty()
    } else if log.last().1 is Ok {
        accepted(log.drop_last()).push(log.last().0)
    } else {
        accepted(log.drop_last())
    }
}

/// Takes items one by one, and answers each.
pub trait Outlet<Item> {
    /// Every item that was offered so far, in order, with its answer.
    spec fn log(&self) -> Seq<(Item, Result<(), Status>)>;

    /// Offers one item.
    fn offer(&mut self, item: Item) -> (out: Result<(), Status>)
        ensures
            final(self).log() == old(self).log().push((item, out)),
    ;
}

/// Hands items to `raw` one by one, and records each with its answer.
#[verifier::reject_recursive_types(A)]
pub struct Outbox<Item, A, F: Fn(Item) -> A> {
    raw: F,
    record: Ghost<Seq<(Item, A)>>,
}

impl<Item, A, F: Fn(Item) -> A> Outbox<Item, A, F> {
    #[verifier::type_invariant]
    spec fn takes_any_item(self) -> bool {
        forall|item: Item| #[trigger] call_requires(self.raw, (item,))
    }

    /// What the items are handed to.
    pub closed spec fn raw_spec(self) -> F {
        self.raw
    }

    /// Every item that was handed over so far, in order, with its answer.
    pub closed spec fn record(self) -> Seq<(Item, A)> {
        self.record@
    }

    /// An outbox to `raw`, which nothing was handed to yet.
    pub fn new(raw: F) -> (outbox: Self)
        requires
            forall|item: Item| #[trigger] call_requires(raw, (item,)),
        ensures
            outbox.raw_spec() == raw,
            outbox.record() == Seq::<(Item, A)>::empty(),
    {
        Outbox { raw, record: Ghost(Seq::empty()) }
    }

    /// Hands one item to `raw`, and answers as that does. The item moves into
    /// `raw` and cannot be copied here, so `raw` runs once for it.
    pub fn hand(&mut self, item: Item) -> (answer: A)
        ensures
            final(self).raw_spec() == old(self).raw_spec(),
            call_ensures(old(self).raw_spec(), (item,), answer),
            final(self).record() == old(self).record().push((item, answer)),
    {
        proof {
            use_type_invariant(&*self);
        }
        let ghost handed = item;
        let answer = (self.raw)(item);
        self.record = Ghost(self.record@.push((handed, answer)));
        answer
    }
}

impl<Item, F: Fn(Item) -> Result<(), Status>> Outlet<Item> for Outbox<Item, Result<(), Status>, F> {
    open spec fn log(&self) -> Seq<(Item, Result<(), Status>)> {
        self.record()
    }

    fn offer(&mut self, item: Item) -> (out: Result<(), Status>)
        ensures
            final(self).raw_spec() == old(self).raw_spec(),
            call_ensures(old(self).raw_spec(), (item,), out),
    {
        self.hand(item)
    }
}

/// What was accepted is every item with a good answer, and no other, in the
/// order in which they were offered.
pub proof fn accepted_items_keep_their_order<Item>(
    log: Seq<(Item, Result<(), Status>)>,
    item: Item,
    answer: Result<(), Status>,
)
    ensures
        accepted(Seq::<(Item, Result<(), Status>)>::empty()).len() == 0,
        answer is Ok ==> accepted(log.push((item, answer))) == accepted(log).push(item),
        answer is Err ==> accepted(log.push((item, answer))) == accepted(log),
{
    assert(log.push((item, answer)).drop_last() =~= log);
}

} // verus!
