//! One engine: an interpreter with the operations that are under way in
//! it, the session that is running in it, and, in the bot's own engine,
//! the threads that wait.

use crate::modules::lua::bridge::{
    async_error_message, drained, AsyncError, AsyncRegistry, Completion, Delivery, EngineRole,
};
use crate::modules::lua::scheduler::{
    number_after, tick_plan, tick_steps, EventKind, ThreadRegistry, ThreadReport,
    TickStep,
};
use crate::modules::lua::state::{SandboxLimits, SandboxSession};
use crate::services::ChannelId;
use vstd::prelude::*;

verus! {

/// The most memory that an engine may take, in bytes: 256 mebibytes. An
/// engine that needs more is at its end and has to be made anew.
pub const MEMORY_LIMIT: usize = 268435456;

/// How long the engines rest between two ticks, in milliseconds.
pub const TICK_MS: u64 = 50;

/// How many requests all sessions together may send in a second.
pub const HTTP_CALLS_PER_SECOND: u32 = 2;

/// An engine.
pub struct EngineInstance {
    registry: AsyncRegistry,
    threads: ThreadRegistry,
    current: Option<u64>,
    next_session: u64,
}

impl EngineInstance {
    /// Which of the two engines this is.
    pub closed spec fn role(&self) -> EngineRole {
        self.registry.role()
    }

    /// Each operation that is under way, by its handle, with the session
    /// on whose behalf it runs.
    pub closed spec fn pending(&self) -> Map<u64, Option<u64>> {
        self.registry.live()
    }

    /// Each thread that waits, by its number, with the channel that it
    /// answers to.
    pub closed spec fn threads(&self) -> Map<u64, Option<ChannelId>> {
        self.threads.threads()
    }

    /// The number that the next thread gets.
    pub closed spec fn next_thread(&self) -> u64 {
        self.threads.next_id()
    }

    /// The session that what guest code does is counted against.
    pub closed spec fn current(&self) -> Option<u64> {
        self.current
    }

    /// The number that the next session gets.
    pub closed spec fn next_session(&self) -> u64 {
        self.next_session
    }

    /// An engine in which nothing runs.
    pub fn new(role: EngineRole) -> (r: EngineInstance)
        ensures
            r.role() == role,
            r.pending() == Map::<u64, Option<u64>>::empty(),
            r.threads() == Map::<u64, Option<ChannelId>>::empty(),
            r.current() is None,
            r.next_session() == 0,
            r.next_thread() == 0,
    {
        EngineInstance {
            registry: AsyncRegistry::new(role),
            threads: ThreadRegistry::new(),
            current: None,
            next_session: 0,
        }
    }

    /// Throws the engine away and begins anew: nothing is under way, no
    /// thread waits and no session runs. What was under way is never
    /// handed out, and the streams of the sessions that ran are
    /// abandoned. The numbers of sessions go on, so that an old session is
    /// not taken for a new one.
    pub fn restart(&mut self)
        ensures
            final(self).role() == old(self).role(),
            final(self).pending() == Map::<u64, Option<u64>>::empty(),
            final(self).threads() == Map::<u64, Option<ChannelId>>::empty(),
            final(self).current() is None,
            final(self).next_session() == old(self).next_session(),
            final(self).next_thread() == 0,
    {
        self.registry = AsyncRegistry::new(self.registry.kind());
        self.threads = ThreadRegistry::new();
        self.current = None;
    }

    /// Which of the two engines this is.
    pub fn kind(&self) -> (r: EngineRole)
        ensures
            r == self.role(),
    {
        self.registry.kind()
    }

    /// Begins a session with the default quotas and makes it the one
    /// that guest code is counted against. The session gets the next
    /// number, and the count goes on, so that no two sessions of an engine
    /// share a number. Only the sandbox runs sessions; in the bot's own
    /// engine nothing changes.
    pub fn run(&mut self) -> (r: Option<(u64, SandboxSession)>)
        ensures
            final(self).role() == old(self).role(),
            final(self).pending() == old(self).pending(),
            final(self).threads() == old(self).threads(),
            final(self).next_thread() == old(self).next_thread(),
            old(self).role() == EngineRole::Host ==> r is None,
            old(self).role() == EngineRole::Host ==> final(self).current() == old(self).current(),
            old(self).role() == EngineRole::Host ==> final(self).next_session()
                == old(self).next_session(),
            old(self).role() == EngineRole::Sandbox ==> final(self).current() == Some(
                old(self).next_session(),
            ),
            old(self).role() == EngineRole::Sandbox ==> final(self).next_session() == number_after(
                old(self).next_session(),
            ),
            old(self).role() == EngineRole::Sandbox ==> (r matches Some((id, session)) && id
                == old(self).next_session() && session@.limits == SandboxLimits::defaults()
                && session@.live() && session@.instructions_run == 0 && session@.errors),
    {
        match self.registry.kind() {
            EngineRole::Host => None,
            EngineRole::Sandbox => {
                let id = self.next_session;
                self.next_session = if id == u64::MAX {
                    0
                } else {
                    id + 1
                };
                self.current = Some(id);
                Some((id, SandboxSession::new()))
            },
        }
    }

    /// Makes a session the one that guest code is counted against, as
    /// its dispatcher does before it hands a result to guest code.
    pub fn set_state(&mut self, session: u64)
        ensures
            final(self).role() == old(self).role(),
            final(self).pending() == old(self).pending(),
            final(self).threads() == old(self).threads(),
            final(self).next_session() == old(self).next_session(),
            final(self).next_thread() == old(self).next_thread(),
            final(self).current() == Some(session),
    {
        self.current = Some(session);
    }

    /// The session that guest code is counted against.
    pub fn current_session(&self) -> (r: Option<u64>)
        ensures
            r == self.current(),
    {
        self.current
    }

    /// Puts an operation under way on behalf of the current session, and
    /// hands out its handle: one that no operation under way has. Fails
    /// exactly when the handles have run out, which is when the largest
    /// number there is is the handle of an operation under way; nothing
    /// changes then.
    pub fn start_async(&mut self) -> (r: Result<u64, AsyncError>)
        ensures
            final(self).role() == old(self).role(),
            final(self).current() == old(self).current(),
            final(self).threads() == old(self).threads(),
            final(self).next_session() == old(self).next_session(),
            final(self).next_thread() == old(self).next_thread(),
            r is Err == old(self).pending().dom().contains(u64::MAX),
            r matches Ok(handle) ==> !old(self).pending().dom().contains(handle),
            r matches Ok(handle) ==> final(self).pending() == old(self).pending().insert(
                handle,
                old(self).current(),
            ),
            r is Err ==> final(self).pending() == old(self).pending(),
            r matches Err(e) ==> async_error_message(e) == "no handle is left"@,
    {
        self.registry.start(self.current)
    }

    /// Takes the results that have come back, first come first served,
    /// and says what becomes of each.
    pub fn drain_completed<V>(&mut self, queue: Vec<Completion<V>>) -> (r: Vec<Delivery<V>>)
        ensures
            final(self).role() == old(self).role(),
            final(self).current() == old(self).current(),
            final(self).threads() == old(self).threads(),
            final(self).next_session() == old(self).next_session(),
            final(self).next_thread() == old(self).next_thread(),
            (final(self).pending(), r@) == drained(old(self).role(), old(self).pending(), queue@),
    {
        self.registry.drain_completed(queue)
    }

    /// What a tick of this engine does, in order.
    pub fn think(&self) -> (r: Vec<TickStep>)
        ensures
            r@ == tick_steps(self.role()),
    {
        tick_plan(self.registry.kind())
    }

    /// Takes in the thread that an event started, if it waits for
    /// something: it gets the next number, and the count goes on. Only
    /// the bot's own engine keeps threads.
    pub fn dispatch_event(
        &mut self,
        kind: EventKind,
        channel: Option<ChannelId>,
        resumable: bool,
    ) -> (r: Option<u64>)
        ensures
            final(self).role() == old(self).role(),
            final(self).pending() == old(self).pending(),
            final(self).current() == old(self).current(),
            final(self).next_session() == old(self).next_session(),
            !(resumable && old(self).role() == EngineRole::Host) ==> r is None,
            !(resumable && old(self).role() == EngineRole::Host) ==> final(self).threads()
                == old(self).threads(),
            !(resumable && old(self).role() == EngineRole::Host) ==> final(self).next_thread()
                == old(self).next_thread(),
            resumable && old(self).role() == EngineRole::Host ==> final(self).next_thread()
                == number_after(old(self).next_thread()),
            resumable && old(self).role() == EngineRole::Host ==> r == Some(
                old(self).next_thread(),
            ),
            resumable && old(self).role() == EngineRole::Host ==> final(self).threads()
                == old(self).threads().insert(old(self).next_thread(), kind.destination(channel)),
    {
        match self.registry.kind() {
            EngineRole::Sandbox => None,
            EngineRole::Host => self.threads.dispatch_event(kind, channel, resumable),
        }
    }

    /// Hands out the next number for a thread, as the scripts ask for
    /// one.
    pub fn gen_thread_id(&mut self) -> (r: u64)
        ensures
            r == old(self).next_thread(),
            final(self).next_thread() == number_after(old(self).next_thread()),
            final(self).next_session() == old(self).next_session(),
            final(self).role() == old(self).role(),
            final(self).pending() == old(self).pending(),
            final(self).current() == old(self).current(),
            final(self).threads() == old(self).threads(),
    {
        self.threads.gen_thread_id()
    }

    /// The threads to resume in this tick: each waiting thread, once.
    pub fn waiting(&self) -> (r: Vec<u64>)
        ensures
            r@.no_duplicates(),
            forall|id: u64| r@.contains(id) <==> self.threads().dom().contains(id),
    {
        self.threads.waiting()
    }

    /// Takes note of how resuming a thread went.
    pub fn after_resume(&mut self, id: u64, error: Option<String>, resumable: bool) -> (r:
        ThreadReport)
        ensures
            final(self).role() == old(self).role(),
            final(self).pending() == old(self).pending(),
            final(self).current() == old(self).current(),
            final(self).next_session() == old(self).next_session(),
            final(self).next_thread() == old(self).next_thread(),
            r@ == crate::modules::lua::scheduler::report_of(
                old(self).threads(),
                id,
                match error {
                    Some(text) => Some(text@),
                    None => None,
                },
            ),
            final(self).threads() == crate::modules::lua::scheduler::threads_after(
                old(self).threads(),
                id,
                error is Some,
                resumable,
            ),
    {
        self.threads.after_resume(id, error, resumable)
    }
}

} // verus!
