//! The scheduler of the bot's own engine: the script threads that wait
//! for a result, what a tick does with them, and how the engine shuts
//! down.

use crate::modules::lua::bridge::EngineRole;
use crate::services::ChannelId;
use crate::table::Slots;
use crate::text::{string_of, to_chars};
use crate::utils::{escape_chars, escaped};
use vstd::prelude::*;

verus! {

/// What the scripts are told of.
#[derive(Copy, Clone, Debug, PartialEq, Eq, Structural)]
pub enum EventKind {
    /// The scripts were loaded.
    Loaded,
    /// A command came in.
    Command,
    /// A message came in.
    Message,
    /// Somebody reacted to a message.
    Reaction,
}

/// The name of the script function that handles a kind of event.
pub open spec fn handler_of(kind: EventKind) -> Seq<char> {
    match kind {
        EventKind::Loaded => "on_loaded"@,
        EventKind::Command => "on_command"@,
        EventKind::Message => "on_message"@,
        EventKind::Reaction => "on_reaction"@,
    }
}

impl EventKind {
    /// The name of the script function that handles this kind of event.
    pub fn handler(&self) -> (r: &'static str)
        ensures
            r@ == handler_of(*self),
    {
        match self {
            EventKind::Loaded => "on_loaded",
            EventKind::Command => "on_command",
            EventKind::Message => "on_message",
            EventKind::Reaction => "on_reaction",
        }
    }

    /// Where errors of a thread that this kind of event started are
    /// posted: the channel of the event, and nowhere for the loading of
    /// the scripts.
    pub open spec fn destination(self, channel: Option<ChannelId>) -> Option<ChannelId> {
        match self {
            EventKind::Loaded => None,
            _ => channel,
        }
    }
}

/// What the engine does with the error of a thread.
#[derive(Clone, Debug)]
pub enum ThreadReport {
    /// The thread raised nothing.
    Quiet,
    /// The text is posted to the channel that the thread answers to.
    Post(ChannelId, String),
    /// The text goes to the log: the thread answers to nobody.
    Log(String),
}

/// A report with its text as a sequence of characters.
pub enum ThreadReportView {
    Quiet,
    Post(ChannelId, Seq<char>),
    Log(Seq<char>),
}

impl View for ThreadReport {
    type V = ThreadReportView;

    open spec fn view(&self) -> ThreadReportView {
        match self {
            ThreadReport::Quiet => ThreadReportView::Quiet,
            ThreadReport::Post(c, s) => ThreadReportView::Post(*c, s@),
            ThreadReport::Log(s) => ThreadReportView::Log(s@),
        }
    }
}

/// What is done with what a thread raised when it was resumed: nothing
/// if it raised nothing; else the error, made safe to post, goes to the
/// channel that the thread answers to, and to the log if it answers to
/// nobody.
pub open spec fn report_of(
    threads: Map<u64, Option<ChannelId>>,
    id: u64,
    error: Option<Seq<char>>,
) -> ThreadReportView {
    match error {
        None => ThreadReportView::Quiet,
        Some(text) => {
            if threads.dom().contains(id) && threads[id] is Some {
                let channel = threads[id].unwrap();
                ThreadReportView::Post(channel, escaped(channel.kind(), text))
            } else {
                ThreadReportView::Log(text)
            }
        },
    }
}

/// The threads that wait after one of them was resumed: a thread that
/// raised an error or cannot be resumed again is gone.
pub open spec fn threads_after(
    threads: Map<u64, Option<ChannelId>>,
    id: u64,
    failed: bool,
    resumable: bool,
) -> Map<u64, Option<ChannelId>> {
    if failed || !resumable {
        threads.remove(id)
    } else {
        threads
    }
}

/// A thread that raised an error or ran to its end is gone after it was
/// resumed, and so is never resumed again; a thread that can be resumed
/// again stays; and no other thread is touched.
pub proof fn law_thread_leaves(
    threads: Map<u64, Option<ChannelId>>,
    id: u64,
    failed: bool,
    resumable: bool,
    other: u64,
)
    requires
        other != id,
    ensures
        failed || !resumable ==> !threads_after(threads, id, failed, resumable).dom().contains(id),
        !failed && resumable ==> threads_after(threads, id, failed, resumable) == threads,
        threads_after(threads, id, failed, resumable).dom().contains(other)
            == threads.dom().contains(other),
        threads.dom().contains(other) ==> threads_after(threads, id, failed, resumable)[other]
            == threads[other],
{
}

/// The number behind a number: one more, and zero behind the largest
/// number there is.
pub open spec fn number_after(n: u64) -> u64 {
    if n == u64::MAX {
        0
    } else {
        (n + 1) as u64
    }
}

/// The script threads of the bot's own engine that wait to be resumed.
pub struct ThreadRegistry {
    next_id: u64,
    threads: Slots<Option<ChannelId>>,
}

impl ThreadRegistry {
    /// The number that the next thread gets.
    pub closed spec fn next_id(&self) -> u64 {
        self.next_id
    }

    /// Each waiting thread with the channel that it answers to, if any.
    pub closed spec fn threads(&self) -> Map<u64, Option<ChannelId>> {
        self.threads@
    }

    /// A registry without threads.
    pub fn new() -> (r: ThreadRegistry)
        ensures
            r.next_id() == 0,
            r.threads() == Map::<u64, Option<ChannelId>>::empty(),
    {
        ThreadRegistry { next_id: 0, threads: Slots::new() }
    }

    /// Hands out the next number. After the largest number the count
    /// starts over.
    pub fn gen_thread_id(&mut self) -> (r: u64)
        ensures
            r == old(self).next_id(),
            final(self).next_id() == number_after(old(self).next_id()),
            final(self).threads() == old(self).threads(),
    {
        let id = self.next_id;
        self.next_id = if id == u64::MAX {
            0
        } else {
            id + 1
        };
        id
    }

    /// Takes in a thread that was resumed for the first time. Only a
    /// thread that can be resumed again is kept; it gets the next number
    /// and answers to `reply_to`, and the count goes on. For any other
    /// thread nothing changes.
    pub fn register(&mut self, resumable: bool, reply_to: Option<ChannelId>) -> (r: Option<u64>)
        ensures
            !resumable ==> r is None,
            !resumable ==> final(self).threads() == old(self).threads(),
            !resumable ==> final(self).next_id() == old(self).next_id(),
            resumable ==> r == Some(old(self).next_id()),
            resumable ==> final(self).next_id() == number_after(old(self).next_id()),
            resumable ==> final(self).threads() == old(self).threads().insert(
                old(self).next_id(),
                reply_to,
            ),
    {
        if resumable {
            let id = self.gen_thread_id();
            self.threads.insert(id, reply_to);
            Some(id)
        } else {
            None
        }
    }

    /// Takes in the thread that an event started, if it waits for
    /// something: it gets the next number and answers to where the event
    /// came from, and the count goes on.
    pub fn dispatch_event(
        &mut self,
        kind: EventKind,
        channel: Option<ChannelId>,
        resumable: bool,
    ) -> (r: Option<u64>)
        ensures
            !resumable ==> r is None,
            !resumable ==> final(self).threads() == old(self).threads(),
            !resumable ==> final(self).next_id() == old(self).next_id(),
            resumable ==> r == Some(old(self).next_id()),
            resumable ==> final(self).next_id() == number_after(old(self).next_id()),
            resumable ==> final(self).threads() == old(self).threads().insert(
                old(self).next_id(),
                kind.destination(channel),
            ),
    {
        let reply_to = match kind {
            EventKind::Loaded => None,
            _ => channel,
        };
        self.register(resumable, reply_to)
    }

    /// The threads to resume in this tick: each waiting thread, once.
    pub fn waiting(&self) -> (r: Vec<u64>)
        ensures
            r@.no_duplicates(),
            forall|id: u64| r@.contains(id) <==> self.threads().dom().contains(id),
    {
        self.threads.keys()
    }

    /// The channel that a thread answers to.
    pub fn reply_to(&self, id: u64) -> (r: Option<ChannelId>)
        ensures
            r == if self.threads().dom().contains(id) {
                self.threads()[id]
            } else {
                None
            },
    {
        match self.threads.get(id) {
            Some(channel) => channel,
            None => None,
        }
    }

    /// Takes note of how resuming a thread went: with the error that it
    /// raised, if any, and whether it can be resumed again.
    pub fn after_resume(&mut self, id: u64, error: Option<String>, resumable: bool) -> (r:
        ThreadReport)
        ensures
            r@ == report_of(
                old(self).threads(),
                id,
                match error {
                    Some(text) => Some(text@),
                    None => None,
                },
            ),
            final(self).threads() == threads_after(
                old(self).threads(),
                id,
                error is Some,
                resumable,
            ),
            final(self).next_id() == old(self).next_id(),
    {
        let report = match error {
            None => ThreadReport::Quiet,
            Some(text) => match self.reply_to(id) {
                Some(channel) => {
                    let safe = escape_chars(channel.service_kind(), &to_chars(text.as_str()));
                    ThreadReport::Post(channel, string_of(&safe))
                },
                None => ThreadReport::Log(text),
            },
        };
        let failed = match report {
            ThreadReport::Quiet => false,
            _ => true,
        };
        if failed || !resumable {
            self.threads.remove(id);
        }
        report
    }
}

/// One thing that a tick does.
#[derive(Copy, Clone, Debug, PartialEq, Eq, Structural)]
pub enum TickStep {
    /// Call the scripts' own hook.
    CallHook,
    /// Resume every waiting thread, and drop those that are through.
    ResumeThreads,
    /// Hand out the results that have come back.
    DrainCompleted,
}

/// What a tick does, in order. Only the bot's own engine has threads.
pub open spec fn tick_steps(role: EngineRole) -> Seq<TickStep> {
    match role {
        EngineRole::Host => seq![TickStep::CallHook, TickStep::ResumeThreads, TickStep::DrainCompleted],
        EngineRole::Sandbox => seq![TickStep::CallHook, TickStep::DrainCompleted],
    }
}

/// What a tick does, in order.
pub fn tick_plan(role: EngineRole) -> (r: Vec<TickStep>)
    ensures
        r@ == tick_steps(role),
{
    let mut plan: Vec<TickStep> = Vec::new();
    plan.push(TickStep::CallHook);
    match role {
        EngineRole::Host => {
            plan.push(TickStep::ResumeThreads);
        },
        EngineRole::Sandbox => {},
    }
    plan.push(TickStep::DrainCompleted);
    assert(plan@ =~= tick_steps(role));
    plan
}

/// What the engine does when it is asked to shut down.
#[derive(Copy, Clone, Debug, PartialEq, Eq, Structural)]
pub enum ShutdownStep {
    /// Nothing is left to do: the shutdown is complete.
    Complete,
    /// Start the scripts' shutdown hook as a thread of its own, and ask
    /// again.
    StartHook,
    /// Hand out the results that have come back, then say whether the
    /// hook's thread can be resumed.
    DrainThenCheck,
    /// Resume the hook's thread, and ask again.
    ResumeHook,
}

/// How far a shutdown has come.
pub struct Shutdown {
    role: EngineRole,
    started: bool,
}

impl Shutdown {
    /// The engine that shuts down.
    pub closed spec fn role(&self) -> EngineRole {
        self.role
    }

    /// Whether the hook has been started.
    pub closed spec fn started(&self) -> bool {
        self.started
    }

    /// An engine that has not been asked to shut down.
    pub fn new(role: EngineRole) -> (r: Shutdown)
        ensures
            r.role() == role,
            !r.started(),
    {
        Shutdown { role, started: false }
    }

    /// The engine is asked to shut down. The sandbox has nothing to shut
    /// down. The bot's own engine starts the hook when asked for the
    /// first time; every later time the results that have come back are
    /// handed out first.
    pub fn request(&mut self) -> (r: ShutdownStep)
        ensures
            final(self).role() == old(self).role(),
            old(self).role() == EngineRole::Sandbox ==> r == ShutdownStep::Complete,
            old(self).role() == EngineRole::Sandbox ==> final(self).started() == old(self).started(),
            old(self).role() == EngineRole::Host ==> final(self).started(),
            old(self).role() == EngineRole::Host && old(self).started() ==> r
                == ShutdownStep::DrainThenCheck,
            old(self).role() == EngineRole::Host && !old(self).started() ==> r
                == ShutdownStep::StartHook,
    {
        match self.role {
            EngineRole::Sandbox => ShutdownStep::Complete,
            EngineRole::Host => {
                if self.started {
                    ShutdownStep::DrainThenCheck
                } else {
                    self.started = true;
                    ShutdownStep::StartHook
                }
            },
        }
    }

    /// The results were handed out: the hook's thread is resumed once
    /// more if it can be, and the shutdown is complete if it cannot.
    pub fn after_drain(&self, hook_resumable: bool) -> (r: ShutdownStep)
        ensures
            r == if hook_resumable {
                ShutdownStep::ResumeHook
            } else {
                ShutdownStep::Complete
            },
    {
        if hook_resumable {
            ShutdownStep::ResumeHook
        } else {
            ShutdownStep::Complete
        }
    }
}

/// Whether the caller of a shutdown has to ask again.
pub fn shutdown_pending(step: ShutdownStep) -> (r: bool)
    ensures
        r == (step != ShutdownStep::Complete),
{
    match step {
        ShutdownStep::Complete => false,
        _ => true,
    }
}

} // verus!
