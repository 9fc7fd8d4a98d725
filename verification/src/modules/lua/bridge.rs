//! The bridge between guest code and the work that runs beside it: which
//! operations are under way, and how their results reach the guest.

use crate::table::Slots;
use crate::text::{string_of, to_chars};
use vstd::prelude::*;

verus! {

/// Why an operation could not be started.
#[derive(Clone, Debug)]
pub enum AsyncError {
    /// The time to wait is negative or no number.
    InvalidDuration,
    /// The guest's side of the operation could not be made; with the
    /// reason.
    FutureError(String),
}

/// The words of an error.
pub open spec fn async_error_message(e: AsyncError) -> Seq<char> {
    match e {
        AsyncError::InvalidDuration => "invalid duration"@,
        AsyncError::FutureError(reason) => reason@,
    }
}

impl AsyncError {
    /// The error in words.
    pub fn message(&self) -> (r: String)
        ensures
            r@ == async_error_message(*self),
    {
        match self {
            AsyncError::InvalidDuration => string_of(&to_chars("invalid duration")),
            AsyncError::FutureError(reason) => reason.clone(),
        }
    }
}

/// Which of the two engines a registry belongs to.
#[derive(Copy, Clone, Debug, PartialEq, Eq, Structural)]
pub enum EngineRole {
    /// The engine of the bot's own scripts.
    Host,
    /// The engine of guest code.
    Sandbox,
}

/// What becomes of a result that came back.
pub enum Delivery<V> {
    /// Nothing: no operation of that handle is under way, so the guest
    /// has had its answer or never asked.
    Stale,
    /// The guest's future of this handle is resolved with the values, or
    /// rejected with the message.
    Direct(u64, Result<V, String>),
    /// The dispatcher of this session resolves or rejects the guest's
    /// future of this handle, so that what follows is counted against
    /// the session.
    ViaSession(u64, u64, Result<V, String>),
}

/// A result that came back: the handle of the operation, and the values
/// for the guest or the message of the error.
pub struct Completion<V> {
    pub handle: u64,
    pub outcome: Result<V, String>,
}

/// What becomes of one result, given the operations under way. A result
/// for a handle that is not live reaches nobody. Every other result
/// resolves or rejects the guest's future of its handle: through the
/// dispatcher of its session where the operation ran in the sandbox on a
/// session's behalf, and directly everywhere else.
pub open spec fn delivery_of<V>(
    role: EngineRole,
    live: Map<u64, Option<u64>>,
    handle: u64,
    outcome: Result<V, String>,
) -> Delivery<V> {
    if !live.dom().contains(handle) {
        Delivery::Stale
    } else {
        match role {
            EngineRole::Host => Delivery::Direct(handle, outcome),
            EngineRole::Sandbox => match live[handle] {
                Some(session) => Delivery::ViaSession(session, handle, outcome),
                None => Delivery::Direct(handle, outcome),
            },
        }
    }
}

/// What becomes of a queue of results, first come first served, and the
/// operations that are under way after it.
pub open spec fn drained<V>(
    role: EngineRole,
    live: Map<u64, Option<u64>>,
    queue: Seq<Completion<V>>,
) -> (Map<u64, Option<u64>>, Seq<Delivery<V>>)
    decreases queue.len(),
{
    if queue.len() == 0 {
        (live, Seq::empty())
    } else {
        let (before, deliveries) = drained(role, live, queue.drop_last());
        let last = queue.last();
        (
            before.remove(last.handle),
            deliveries.push(delivery_of(role, before, last.handle, last.outcome)),
        )
    }
}

/// The operations that are under way in one engine.
pub struct AsyncRegistry {
    role: EngineRole,
    ops: Slots<Option<u64>>,
}

impl AsyncRegistry {
    /// The engine that the registry belongs to.
    pub closed spec fn role(&self) -> EngineRole {
        self.role
    }

    /// Each live handle with the session on whose behalf it runs.
    pub closed spec fn live(&self) -> Map<u64, Option<u64>> {
        self.ops@
    }

    /// A registry with nothing under way.
    pub fn new(role: EngineRole) -> (r: AsyncRegistry)
        ensures
            r.role() == role,
            r.live() == Map::<u64, Option<u64>>::empty(),
    {
        AsyncRegistry { role, ops: Slots::new() }
    }

    /// The engine that the registry belongs to.
    pub fn kind(&self) -> (r: EngineRole)
        ensures
            r == self.role(),
    {
        self.role
    }

    /// Whether an operation of this handle is under way.
    pub fn is_live(&self, handle: u64) -> (r: bool)
        ensures
            r == self.live().dom().contains(handle),
    {
        self.ops.get(handle).is_some()
    }

    /// The session on whose behalf the operation of this handle runs, if
    /// the handle is live.
    pub fn session_of(&self, handle: u64) -> (r: Option<Option<u64>>)
        ensures
            r is Some == self.live().dom().contains(handle),
            r matches Some(session) ==> session == self.live()[handle],
    {
        self.ops.get(handle)
    }

    /// Puts an operation under way, on behalf of `session` if there is
    /// one, and hands out its handle: one that no operation under way
    /// has. Fails exactly when the handles have run out, which is when
    /// the largest number there is is a live handle; nothing changes
    /// then.
    pub fn start(&mut self, session: Option<u64>) -> (r: Result<u64, AsyncError>)
        ensures
            final(self).role() == old(self).role(),
            r is Err == old(self).live().dom().contains(u64::MAX),
            r matches Ok(handle) ==> !old(self).live().dom().contains(handle),
            r matches Ok(handle) ==> final(self).live() == old(self).live().insert(
                handle,
                session,
            ),
            r is Err ==> final(self).live() == old(self).live(),
            r matches Err(e) ==> async_error_message(e) == "no handle is left"@,
    {
        match self.ops.fresh_key() {
            None => Err(AsyncError::FutureError(string_of(&to_chars("no handle is left")))),
            Some(handle) => {
                self.ops.insert(handle, session);
                Ok(handle)
            },
        }
    }

    /// Lets a handle go, and says whether it was live. To let go of a
    /// handle that is not live changes nothing.
    pub fn release(&mut self, handle: u64) -> (r: bool)
        ensures
            final(self).role() == old(self).role(),
            r == old(self).live().dom().contains(handle),
            final(self).live() == old(self).live().remove(handle),
    {
        self.ops.remove(handle).is_some()
    }

    /// Takes one result that came back and says what becomes of it. The
    /// handle is let go, so that a second result for the same handle
    /// reaches nobody.
    pub fn complete<V>(&mut self, completion: Completion<V>) -> (r: Delivery<V>)
        ensures
            final(self).role() == old(self).role(),
            r == delivery_of(
                old(self).role(),
                old(self).live(),
                completion.handle,
                completion.outcome,
            ),
            final(self).live() == old(self).live().remove(completion.handle),
    {
        let role = self.role;
        match self.ops.remove(completion.handle) {
            None => Delivery::Stale,
            Some(session) => match role {
                EngineRole::Host => Delivery::Direct(completion.handle, completion.outcome),
                EngineRole::Sandbox => match session {
                    Some(id) => Delivery::ViaSession(id, completion.handle, completion.outcome),
                    None => Delivery::Direct(completion.handle, completion.outcome),
                },
            },
        }
    }

    /// Takes the results that have come back, in the order in which they
    /// came, and says what becomes of each.
    pub fn drain_completed<V>(&mut self, queue: Vec<Completion<V>>) -> (r: Vec<Delivery<V>>)
        ensures
            final(self).role() == old(self).role(),
            (final(self).live(), r@) == drained(old(self).role(), old(self).live(), queue@),
    {
        let mut rest = queue;
        let mut out: Vec<Delivery<V>> = Vec::new();
        let ghost mut taken: int = 0;
        assert(queue@.take(0) =~= Seq::<Completion<V>>::empty());
        while rest.len() > 0
            invariant
                0 <= taken <= queue@.len(),
                rest@ == queue@.skip(taken),
                self.role() == old(self).role(),
                (self.live(), out@) == drained(old(self).role(), old(self).live(), queue@.take(taken)),
            decreases rest.len(),
        {
            let completion = rest.remove(0);
            proof {
                assert(completion == queue@[taken]);
                assert(queue@.take(taken + 1).drop_last() =~= queue@.take(taken));
                assert(queue@.take(taken + 1).last() == completion);
                assert(rest@ =~= queue@.skip(taken + 1));
                taken = taken + 1;
            }
            let delivery = self.complete(completion);
            out.push(delivery);
        }
        assert(queue@.take(queue@.len() as int) =~= queue@);
        out
    }
}

/// The handle and the outcome that a delivery hands to the guest's
/// future, if it hands it any.
pub open spec fn served<V>(delivery: Delivery<V>) -> Option<(u64, Result<V, String>)> {
    match delivery {
        Delivery::Stale => None,
        Delivery::Direct(handle, outcome) => Some((handle, outcome)),
        Delivery::ViaSession(_, handle, outcome) => Some((handle, outcome)),
    }
}

/// The result of an operation that is under way always reaches the
/// guest's future of its handle, with the outcome as it came back; the
/// result of any other reaches nobody.
pub proof fn law_every_result_is_served<V>(
    role: EngineRole,
    live: Map<u64, Option<u64>>,
    handle: u64,
    outcome: Result<V, String>,
)
    ensures
        served(delivery_of(role, live, handle, outcome)) == if live.dom().contains(handle) {
            Some((handle, outcome))
        } else {
            None
        },
{
}

/// To let a handle go twice is to let it go once: after the first time
/// the handle is not live, the second time changes nothing, and a result
/// that still comes back for it reaches nobody.
pub proof fn law_release_once<V>(
    role: EngineRole,
    live: Map<u64, Option<u64>>,
    handle: u64,
    outcome: Result<V, String>,
)
    ensures
        !live.remove(handle).dom().contains(handle),
        live.remove(handle).remove(handle) == live.remove(handle),
        delivery_of(role, live.remove(handle), handle, outcome) == Delivery::<V>::Stale,
{
    assert(live.remove(handle).remove(handle) =~= live.remove(handle));
}

/// Two operations that are under way may come back in either order.
/// Whichever result is first in the queue is served first, each is served
/// as it would be alone, and in both orders the same operations are under
/// way afterwards.
pub proof fn law_completion_order<V>(
    role: EngineRole,
    live: Map<u64, Option<u64>>,
    a: Completion<V>,
    b: Completion<V>,
)
    requires
        a.handle != b.handle,
    ensures
        drained(role, live, seq![a, b]).1 == seq![
            delivery_of(role, live, a.handle, a.outcome),
            delivery_of(role, live, b.handle, b.outcome),
        ],
        drained(role, live, seq![b, a]).1 == seq![
            delivery_of(role, live, b.handle, b.outcome),
            delivery_of(role, live, a.handle, a.outcome),
        ],
        drained(role, live, seq![a, b]).0 == drained(role, live, seq![b, a]).0,
        drained(role, live, seq![a, b]).0 == live.remove(a.handle).remove(b.handle),
{
    lemma_drained_pair(role, live, a, b);
    lemma_drained_pair(role, live, b, a);
    assert(live.remove(a.handle).remove(b.handle) =~= live.remove(b.handle).remove(a.handle));
}

proof fn lemma_drained_pair<V>(
    role: EngineRole,
    live: Map<u64, Option<u64>>,
    a: Completion<V>,
    b: Completion<V>,
)
    requires
        a.handle != b.handle,
    ensures
        drained(role, live, seq![a, b]).1 == seq![
            delivery_of(role, live, a.handle, a.outcome),
            delivery_of(role, live, b.handle, b.outcome),
        ],
        drained(role, live, seq![a, b]).0 == live.remove(a.handle).remove(b.handle),
{
    let both = seq![a, b];
    let one = seq![a];
    let none = Seq::<Completion<V>>::empty();
    assert(both.drop_last() =~= one);
    assert(one.drop_last() =~= none);
    assert(both.last() == b);
    assert(one.last() == a);
    assert(drained(role, live, none) == (live, Seq::<Delivery<V>>::empty()));
    let first = delivery_of(role, live, a.handle, a.outcome);
    assert(drained(role, live, one).0 == live.remove(a.handle));
    assert(drained(role, live, one).1 =~= seq![first]);
    assert(seq![first].push(delivery_of(role, live.remove(a.handle), b.handle, b.outcome))
        =~= seq![first, delivery_of(role, live, b.handle, b.outcome)]);
}

} // verus!
