//! Method ids and the handlers they route to.

use crate::call::{close_frame, close_view};
use crate::frame::Frame;
use crate::method::{Message, Method, StreamMethod};
use crate::status::{Code, Status};
use crate::text::{hex_id, hex_id_text, same_text};
use std::collections::HashMap;
use vstd::prelude::*;

verus! {

broadcast use vstd::std_specs::hash::group_hash_axioms;

/// What serves a method: one response, or a stream of them.
pub enum Handler<U, S> {
    Unary(U),
    Stream(S),
}

/// Maps method ids to handlers. Built once, then shared by every
/// connection; registration is the only place paths exist, so a hash
/// collision between two registered methods is found here instead of
/// misrouting calls at runtime.
pub struct Router<U, S> {
    handlers: HashMap<u64, (&'static str, Handler<U, S>)>,
}

impl<U, S> View for Router<U, S> {
    type V = Map<u64, (&'static str, Handler<U, S>)>;

    closed spec fn view(&self) -> Map<u64, (&'static str, Handler<U, S>)> {
        self.handlers@
    }
}

/// Why a method cannot be registered.
#[derive(Clone, Copy, Debug)]
pub enum Conflict {
    /// The same path is registered already.
    Twice { path: &'static str },
    /// Another path is registered under the same id.
    Collision { path: &'static str, existing: &'static str, id: u64 },
}

impl Conflict {
    /// The conflict as text.
    pub fn to_string(&self) -> (text: String)
        ensures
            text@ == match *self {
                Conflict::Twice { path } => "method `"@ + path@ + "` registered twice"@,
                Conflict::Collision { path, existing, id } => "method id collision: `"@ + path@
                    + "` and `"@ + existing@ + "` share "@ + hex_id_text(id),
            },
    {
        match *self {
            Conflict::Twice { path } => {
                let mut text = String::from_str("method `");
                text.append(path);
                text.append("` registered twice");
                text
            },
            Conflict::Collision { path, existing, id } => {
                let mut text = String::from_str("method id collision: `");
                text.append(path);
                text.append("` and `");
                text.append(existing);
                text.append("` share ");
                text.append(hex_id(id).as_str());
                text
            },
        }
    }
}

/// What stands in the way of registering `path` under `id`: anything that is
/// registered under that id already.
pub open spec fn conflict_spec<U, S>(
    routes: Map<u64, (&'static str, Handler<U, S>)>,
    id: u64,
    path: &'static str,
) -> Option<Conflict> {
    if !routes.contains_key(id) {
        None
    } else if routes[id].0@ == path@ {
        Some(Conflict::Twice { path })
    } else {
        Some(Conflict::Collision { path, existing: routes[id].0, id })
    }
}

/// What becomes of a call before its handler runs.
pub enum Dispatch<'a, U, S> {
    /// It ends here: the CLOSE frame to send.
    Close(Frame),
    /// The handler to run.
    Run(&'a Handler<U, S>),
}

impl<U, S> Router<U, S> {
    pub fn new() -> (router: Router<U, S>)
        ensures
            router@ == Map::<u64, (&'static str, Handler<U, S>)>::empty(),
    {
        Router { handlers: HashMap::new() }
    }

    /// What stands in the way of registering `path` under `id`, if anything.
    pub fn conflict(&self, id: u64, path: &'static str) -> (conflict: Option<Conflict>)
        ensures
            conflict == conflict_spec(self@, id, path),
    {
        match self.handlers.get(&id) {
            None => None,
            Some(entry) => {
                if same_text(entry.0, path) {
                    Some(Conflict::Twice { path })
                } else {
                    Some(Conflict::Collision { path, existing: entry.0, id })
                }
            },
        }
    }

    /// Registers a handler, unless the id is taken.
    pub fn insert(&mut self, id: u64, path: &'static str, handler: Handler<U, S>) -> (out: Result<
        (),
        Conflict,
    >)
        ensures
            match conflict_spec(old(self)@, id, path) {
                None => out is Ok && final(self)@ == old(self)@.insert(id, (path, handler)),
                Some(conflict) => out == Err::<(), Conflict>(conflict) && final(self)@ == old(
                    self,
                )@,
            },
    {
        match self.conflict(id, path) {
            Some(conflict) => Err(conflict),
            None => {
                self.handlers.insert(id, (path, handler));
                Ok(())
            },
        }
    }

    /// Registers the handler of a unary method whose id is not taken.
    pub fn unary<Req: Message, Res: Message>(self, method: Method<Req, Res>, handler: U) -> (router:
        Router<U, S>)
        requires
            !self@.contains_key(method.id),
        ensures
            router@ == self@.insert(method.id, (method.path, Handler::Unary(handler))),
    {
        let mut router = self;
        router.handlers.insert(method.id, (method.path, Handler::Unary(handler)));
        router
    }

    /// Registers the handler of a server-streaming method whose id is not
    /// taken.
    pub fn stream<Req: Message, Res: Message>(
        self,
        method: StreamMethod<Req, Res>,
        handler: S,
    ) -> (router: Router<U, S>)
        requires
            !self@.contains_key(method.id),
        ensures
            router@ == self@.insert(method.id, (method.path, Handler::Stream(handler))),
    {
        let mut router = self;
        router.handlers.insert(method.id, (method.path, Handler::Stream(handler)));
        router
    }

    /// Decides how a call starts: an unknown method is closed as
    /// unimplemented, a call whose budget is spent already is closed without
    /// running the handler, and any other runs.
    pub fn dispatch(&self, call_id: u32, method: u64, cancelled: bool) -> (start: Dispatch<
        '_,
        U,
        S,
    >)
        ensures
            if !self@.contains_key(method) {
                start matches Dispatch::Close(frame) && frame@ == close_view(
                    call_id,
                    (Code::UNIMPLEMENTED, "unknown method "@ + hex_id_text(method)),
                )
            } else if cancelled {
                start matches Dispatch::Close(frame) && frame@ == close_view(
                    call_id,
                    (Code::DEADLINE_EXCEEDED, "deadline expired before dispatch"@),
                )
            } else {
                start matches Dispatch::Run(handler) && *handler == self@[method].1
            },
    {
        match self.handlers.get(&method) {
            None => {
                let mut detail = String::from_str("unknown method ");
                detail.append(hex_id(method).as_str());
                Dispatch::Close(
                    close_frame(
                        call_id,
                        &Status::new(Code(Code::UNIMPLEMENTED), detail.as_str()),
                    ),
                )
            },
            Some(entry) => {
                if cancelled {
                    Dispatch::Close(
                        close_frame(
                            call_id,
                            &Status::new(
                                Code(Code::DEADLINE_EXCEEDED),
                                "deadline expired before dispatch",
                            ),
                        ),
                    )
                } else {
                    Dispatch::Run(&entry.1)
                }
            },
        }
    }
}

/// A registered method is routed to its own handler and to no other, whatever
/// is registered beside it, and nothing else can be registered under its id.
pub proof fn registrations_do_not_mix<U, S>(
    routes: Map<u64, (&'static str, Handler<U, S>)>,
    id: u64,
    path: &'static str,
    handler: Handler<U, S>,
    other: u64,
    other_path: &'static str,
)
    requires
        conflict_spec(routes, id, path) is None,
    ensures
        ({
            let after = routes.insert(id, (path, handler));
            &&& after[id].1 == handler
            &&& other != id ==> after.contains_key(other) == routes.contains_key(other)
                && after[other] == routes[other]
            &&& conflict_spec(after, id, other_path) == Some(
                if other_path@ == path@ {
                    Conflict::Twice { path: other_path }
                } else {
                    Conflict::Collision { path: other_path, existing: path, id }
                },
            )
        }),
{
}

/// A method is in the way of another exactly when it has the same id; whether
/// it is the same method is told by the path.
pub proof fn conflicts_are_shared_ids<U, S>(
    routes: Map<u64, (&'static str, Handler<U, S>)>,
    id: u64,
    path: &'static str,
)
    ensures
        conflict_spec(routes, id, path) is None <==> !routes.contains_key(id),
        conflict_spec(routes, id, path) is Some ==> (conflict_spec(routes, id, path)->Some_0 is Twice
            <==> routes[id].0@ == path@),
        conflict_spec(routes, id, path) matches Some(Conflict::Twice { path: same }) ==> same
            == path,
        conflict_spec(routes, id, path) matches Some(
            Conflict::Collision { path: new, existing, id: shared },
        ) ==> new == path && existing == routes[id].0 && shared == id,
{
}

} // verus!
