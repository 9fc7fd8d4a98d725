//! One bounded run of guest code: its quotas, what it emits, and how it
//! ends.

use crate::text::{extend_chars, str_eq, string_of, to_chars};
use vstd::prelude::*;

verus! {

/// How many emissions a session may make.
pub const DEFAULT_LINES: u64 = 10;

/// How many bytes of output a session may make.
pub const DEFAULT_CHARACTERS: u64 = 2000;

/// How many requests a session may send.
pub const DEFAULT_HTTP_CALLS: u64 = 2;

/// How many instructions a session may run.
pub const DEFAULT_INSTRUCTIONS: u64 = 262144;

/// Why a session ended.
#[derive(Copy, Clone, Debug, PartialEq, Eq, Structural)]
pub enum SandboxTerminationReason {
    /// The guest code ran to its end.
    Done,
    /// The guest code ran more instructions than it may.
    ExecutionQuota,
    /// The guest code ran longer than it may.
    TimeLimit,
}

/// What a session hands to whoever reads its output.
#[derive(Clone, Debug)]
pub enum SandboxMsg {
    /// Text that the guest code printed.
    Out(String),
    /// An error that the guest code raised.
    Error(String),
    /// The end of the session. Nothing follows it.
    Terminated(SandboxTerminationReason),
}

/// A message with its text as a sequence of characters.
pub enum SandboxMsgView {
    Out(Seq<char>),
    Error(Seq<char>),
    Terminated(SandboxTerminationReason),
}

impl View for SandboxMsg {
    type V = SandboxMsgView;

    open spec fn view(&self) -> SandboxMsgView {
        match self {
            SandboxMsg::Out(s) => SandboxMsgView::Out(s@),
            SandboxMsg::Error(s) => SandboxMsgView::Error(s@),
            SandboxMsg::Terminated(r) => SandboxMsgView::Terminated(*r),
        }
    }
}

/// What is left of a session's quotas. Within a session no counter ever
/// grows.
#[derive(Clone, Copy, Debug, PartialEq, Eq, Structural)]
pub struct SandboxLimits {
    pub lines_left: u64,
    pub characters_left: u64,
    pub http_calls_left: u64,
    pub instructions: u64,
}

impl SandboxLimits {
    /// The quotas that every session starts with.
    pub open spec fn defaults() -> SandboxLimits {
        SandboxLimits {
            lines_left: DEFAULT_LINES,
            characters_left: DEFAULT_CHARACTERS,
            http_calls_left: DEFAULT_HTTP_CALLS,
            instructions: DEFAULT_INSTRUCTIONS,
        }
    }

    /// The quotas that every session starts with.
    pub fn new() -> (r: SandboxLimits)
        ensures
            r == SandboxLimits::defaults(),
    {
        SandboxLimits {
            lines_left: DEFAULT_LINES,
            characters_left: DEFAULT_CHARACTERS,
            http_calls_left: DEFAULT_HTTP_CALLS,
            instructions: DEFAULT_INSTRUCTIONS,
        }
    }

    /// No counter of `self` is above that of `before`, and the budget of
    /// instructions is the same.
    pub open spec fn within(self, before: SandboxLimits) -> bool {
        &&& self.lines_left <= before.lines_left
        &&& self.characters_left <= before.characters_left
        &&& self.http_calls_left <= before.http_calls_left
        &&& self.instructions == before.instructions
    }

    pub fn set_lines_left(&mut self, value: u64)
        ensures
            *final(self) == (SandboxLimits { lines_left: value, ..*old(self) }),
    {
        self.lines_left = value;
    }

    pub fn lines_left(&self) -> (r: u64)
        ensures
            r == self.lines_left,
    {
        self.lines_left
    }

    pub fn set_characters_left(&mut self, value: u64)
        ensures
            *final(self) == (SandboxLimits { characters_left: value, ..*old(self) }),
    {
        self.characters_left = value;
    }

    pub fn characters_left(&self) -> (r: u64)
        ensures
            r == self.characters_left,
    {
        self.characters_left
    }
}

/// The reason that a word names: `done`, `exec` or `time`.
pub open spec fn reason_named(word: Seq<char>) -> Option<SandboxTerminationReason> {
    if word == "done"@ {
        Some(SandboxTerminationReason::Done)
    } else if word == "exec"@ {
        Some(SandboxTerminationReason::ExecutionQuota)
    } else if word == "time"@ {
        Some(SandboxTerminationReason::TimeLimit)
    } else {
        None
    }
}

/// The reason that a word names.
pub fn parse_reason(word: &str) -> (r: Option<SandboxTerminationReason>)
    ensures
        r == reason_named(word@),
{
    if str_eq(word, "done") {
        Some(SandboxTerminationReason::Done)
    } else if str_eq(word, "exec") {
        Some(SandboxTerminationReason::ExecutionQuota)
    } else if str_eq(word, "time") {
        Some(SandboxTerminationReason::TimeLimit)
    } else {
        None
    }
}

/// What the guest is told when it ends a session with a word that names
/// no reason.
pub open spec fn unknown_reason_message(word: Seq<char>) -> Seq<char> {
    ("unknown termination reason: \""@ + word).push('"')
}

/// What a guest program can do to its session.
pub enum GuestOp {
    /// Print a text.
    Print(Seq<char>),
    /// Report an error.
    Error(Seq<char>),
    /// Report how many instructions have run.
    SetInstructionsRun(u64),
    /// Compare the instructions run with the budget.
    CheckQuota,
    /// End the session, for the reason that the word names.
    Terminate(Seq<char>),
}

/// A session as the contracts see it.
pub struct SessionModel {
    pub limits: SandboxLimits,
    pub instructions_run: u64,
    pub reason: Option<SandboxTerminationReason>,
    /// Whether whoever started the session asked for the guest's errors.
    pub errors: bool,
}

impl SessionModel {
    /// Whether the session has not ended.
    pub open spec fn live(self) -> bool {
        self.reason is None
    }

    /// Whether the guest has run as many instructions as it may, or more.
    pub open spec fn quota_exceeded(self) -> bool {
        self.instructions_run >= self.limits.instructions
    }

    /// The session after it ended for `reason`; an ended session stays as
    /// it is.
    pub open spec fn ended(self, reason: SandboxTerminationReason) -> SessionModel {
        if self.live() {
            SessionModel { reason: Some(reason), ..self }
        } else {
            self
        }
    }

    /// The session after `op`.
    pub open spec fn after(self, op: GuestOp) -> SessionModel {
        match op {
            GuestOp::Print(_) => self,
            GuestOp::Error(_) => self,
            GuestOp::SetInstructionsRun(n) => SessionModel { instructions_run: n, ..self },
            GuestOp::CheckQuota => if self.quota_exceeded() {
                self.ended(SandboxTerminationReason::ExecutionQuota)
            } else {
                self
            },
            GuestOp::Terminate(word) => match reason_named(word) {
                Some(reason) => self.ended(reason),
                None => self,
            },
        }
    }

    /// What `op` puts on the output stream: nothing once the session has
    /// ended, the end itself once only, and errors only where they were
    /// asked for.
    pub open spec fn emits(self, op: GuestOp) -> Option<SandboxMsgView> {
        if !self.live() {
            None
        } else {
            match op {
                GuestOp::Print(text) => Some(SandboxMsgView::Out(text)),
                GuestOp::Error(text) => if self.errors {
                    Some(SandboxMsgView::Error(text))
                } else {
                    None
                },
                GuestOp::SetInstructionsRun(_) => None,
                GuestOp::CheckQuota => if self.quota_exceeded() {
                    Some(SandboxMsgView::Terminated(SandboxTerminationReason::ExecutionQuota))
                } else {
                    None
                },
                GuestOp::Terminate(word) => match reason_named(word) {
                    Some(reason) => Some(SandboxMsgView::Terminated(reason)),
                    None => None,
                },
            }
        }
    }

    /// The session after a whole program.
    pub open spec fn after_all(self, ops: Seq<GuestOp>) -> SessionModel
        decreases ops.len(),
    {
        if ops.len() == 0 {
            self
        } else {
            self.after(ops[0]).after_all(ops.drop_first())
        }
    }

    /// What a whole program puts on the output stream.
    pub open spec fn emits_all(self, ops: Seq<GuestOp>) -> Seq<SandboxMsgView>
        decreases ops.len(),
    {
        if ops.len() == 0 {
            Seq::empty()
        } else {
            let rest = self.after(ops[0]).emits_all(ops.drop_first());
            match self.emits(ops[0]) {
                Some(msg) => seq![msg] + rest,
                None => rest,
            }
        }
    }
}

/// A word that names no reason to end a session.
#[derive(Clone, Debug)]
pub struct UnknownReason {
    pub word: String,
}

impl UnknownReason {
    /// The error in words.
    pub fn message(&self) -> (r: String)
        ensures
            r@ == unknown_reason_message(self.word@),
    {
        let mut out = to_chars("unknown termination reason: \"");
        let word = to_chars(self.word.as_str());
        extend_chars(&mut out, &word);
        out.push('"');
        string_of(&out)
    }
}

/// One bounded run of guest code.
pub struct SandboxSession {
    limits: SandboxLimits,
    instructions_run: u64,
    reason: Option<SandboxTerminationReason>,
    errors: bool,
}

impl View for SandboxSession {
    type V = SessionModel;

    closed spec fn view(&self) -> SessionModel {
        SessionModel {
            limits: self.limits,
            instructions_run: self.instructions_run,
            reason: self.reason,
            errors: self.errors,
        }
    }
}

/// Whether `r` is the message `m`, or both are none.
pub open spec fn is_emitted(r: Option<SandboxMsg>, m: Option<SandboxMsgView>) -> bool {
    match r {
        Some(msg) => m == Some(msg@),
        None => m is None,
    }
}

impl SandboxSession {
    /// A session with the default quotas, in which nothing has run and
    /// whose errors are asked for.
    pub fn new() -> (r: SandboxSession)
        ensures
            r@.limits == SandboxLimits::defaults(),
            r@.instructions_run == 0,
            r@.live(),
            r@.errors,
    {
        SandboxSession {
            limits: SandboxLimits::new(),
            instructions_run: 0,
            reason: None,
            errors: true,
        }
    }

    /// A session with quotas of the caller's choice.
    pub fn with_limits(limits: SandboxLimits) -> (r: SandboxSession)
        ensures
            r@.limits == limits,
            r@.instructions_run == 0,
            r@.live(),
            r@.errors,
    {
        SandboxSession { limits, instructions_run: 0, reason: None, errors: true }
    }

    /// Says whether the guest's errors are asked for. Errors that nobody
    /// asked for are not put on the output stream.
    pub fn report_errors(&mut self, on: bool)
        ensures
            final(self)@ == (SessionModel { errors: on, ..old(self)@ }),
    {
        self.errors = on;
    }

    /// What is left of the quotas.
    pub fn limits(&self) -> (r: SandboxLimits)
        ensures
            r == self@.limits,
    {
        self.limits
    }

    /// Takes over what a reader of the output or a request has left of
    /// the quotas. Quotas are never filled up again: counters that would
    /// grow are refused, and the session stays as it is.
    pub fn update_limits(&mut self, limits: SandboxLimits) -> (r: bool)
        ensures
            r == limits.within(old(self)@.limits),
            r ==> final(self)@ == (SessionModel { limits, ..old(self)@ }),
            !r ==> final(self)@ == old(self)@,
    {
        if limits.lines_left <= self.limits.lines_left && limits.characters_left
            <= self.limits.characters_left && limits.http_calls_left
            <= self.limits.http_calls_left && limits.instructions == self.limits.instructions {
            self.limits = limits;
            true
        } else {
            false
        }
    }

    /// The guest prints `value`.
    pub fn print(&self, value: String) -> (r: Option<SandboxMsg>)
        ensures
            is_emitted(r, self@.emits(GuestOp::Print(value@))),
    {
        match self.reason {
            None => Some(SandboxMsg::Out(value)),
            Some(_) => None,
        }
    }

    /// The guest reports the error `value`.
    pub fn error(&self, value: String) -> (r: Option<SandboxMsg>)
        ensures
            is_emitted(r, self@.emits(GuestOp::Error(value@))),
    {
        match self.reason {
            None => if self.errors {
                Some(SandboxMsg::Error(value))
            } else {
                None
            },
            Some(_) => None,
        }
    }

    /// The guest reports how many instructions it has run.
    pub fn set_instructions_run(&mut self, value: u64)
        ensures
            final(self)@ == old(self)@.after(GuestOp::SetInstructionsRun(value)),
    {
        self.instructions_run = value;
    }

    /// How many instructions the guest has reported.
    pub fn get_instructions_run(&self) -> (r: u64)
        ensures
            r == self@.instructions_run,
    {
        self.instructions_run
    }

    /// How many instructions the guest may run.
    pub fn get_instruction_limit(&self) -> (r: u64)
        ensures
            r == self@.limits.instructions,
    {
        self.limits.instructions
    }

    /// Why the session ended, if it has.
    pub fn termination(&self) -> (r: Option<SandboxTerminationReason>)
        ensures
            r == self@.reason,
    {
        self.reason
    }

    /// Whether the guest has run as many instructions as it may.
    pub fn quota_exceeded(&self) -> (r: bool)
        ensures
            r == self@.quota_exceeded(),
    {
        self.instructions_run >= self.limits.instructions
    }

    /// What the guest's wrapper asks between instructions: a live session
    /// that has used up its budget ends.
    pub fn check_quota(&mut self) -> (r: Option<SandboxMsg>)
        ensures
            final(self)@ == old(self)@.after(GuestOp::CheckQuota),
            is_emitted(r, old(self)@.emits(GuestOp::CheckQuota)),
    {
        if self.instructions_run >= self.limits.instructions {
            match self.reason {
                None => {
                    self.reason = Some(SandboxTerminationReason::ExecutionQuota);
                    Some(SandboxMsg::Terminated(SandboxTerminationReason::ExecutionQuota))
                },
                Some(_) => None,
            }
        } else {
            None
        }
    }

    /// The guest ends the session. A word that names no reason is an
    /// error and changes nothing; the first end counts, later ones are
    /// passed over in silence.
    pub fn terminate(&mut self, value: &str) -> (r: Result<Option<SandboxMsg>, UnknownReason>)
        ensures
            final(self)@ == old(self)@.after(GuestOp::Terminate(value@)),
            r is Err <==> reason_named(value@) is None,
            r matches Ok(msg) ==> is_emitted(msg, old(self)@.emits(GuestOp::Terminate(value@))),
            r matches Err(e) ==> e.word@ == value@,
    {
        match parse_reason(value) {
            None => Err(UnknownReason { word: string_of(&to_chars(value)) }),
            Some(reason) => match self.reason {
                None => {
                    self.reason = Some(reason);
                    Ok(Some(SandboxMsg::Terminated(reason)))
                },
                Some(_) => Ok(None),
            },
        }
    }
}

/// Once a session has ended, no program changes why, and none puts
/// anything on its output stream.
pub proof fn lemma_ended_is_final(s: SessionModel, ops: Seq<GuestOp>)
    requires
        !s.live(),
    ensures
        s.after_all(ops).reason == s.reason,
        s.emits_all(ops) == Seq::<SandboxMsgView>::empty(),
    decreases ops.len(),
{
    if ops.len() > 0 {
        lemma_ended_is_final(s.after(ops[0]), ops.drop_first());
    }
}

/// A live session whose guest reports that it has run `count`
/// instructions, with `count` at or above the budget, ends at the next
/// check for having used up its quota: the end is put on the output
/// stream, and whatever the program does after that, the reason stays
/// and nothing more is put out.
pub proof fn law_quota_ends_session(s: SessionModel, count: u64, rest: Seq<GuestOp>)
    requires
        s.live(),
        count >= s.limits.instructions,
    ensures
        ({
            let reported = s.after(GuestOp::SetInstructionsRun(count));
            let checked = reported.after(GuestOp::CheckQuota);
            &&& reported.emits(GuestOp::CheckQuota) == Some(
                SandboxMsgView::Terminated(SandboxTerminationReason::ExecutionQuota),
            )
            &&& checked.reason == Some(SandboxTerminationReason::ExecutionQuota)
            &&& checked.after_all(rest).reason == Some(SandboxTerminationReason::ExecutionQuota)
            &&& checked.emits_all(rest) == Seq::<SandboxMsgView>::empty()
        }),
{
    let checked = s.after(GuestOp::SetInstructionsRun(count)).after(GuestOp::CheckQuota);
    lemma_ended_is_final(checked, rest);
}

/// Whatever a program does, the quotas of its session do not grow.
pub proof fn law_session_keeps_quotas(s: SessionModel, ops: Seq<GuestOp>)
    ensures
        s.after_all(ops).limits == s.limits,
    decreases ops.len(),
{
    if ops.len() > 0 {
        law_session_keeps_quotas(s.after(ops[0]), ops.drop_first());
    }
}

/// Whether a message is the end of a session.
pub open spec fn is_end(msg: SandboxMsgView) -> bool {
    msg is Terminated
}

/// Whether a stream holds no end of a session.
pub open spec fn no_end(stream: Seq<SandboxMsgView>) -> bool {
    forall|i: int| 0 <= i < stream.len() ==> !is_end(#[trigger] stream[i])
}

/// Whether a stream holds the end of a session nowhere but at its end.
pub open spec fn end_is_last(stream: Seq<SandboxMsgView>) -> bool {
    forall|i: int| 0 <= i < stream.len() && is_end(#[trigger] stream[i]) ==> i == stream.len() - 1
}

/// Whatever a program does, the output stream of its session holds the
/// end of the session at most once, and nothing behind it; and it holds
/// the end exactly if the session has ended.
pub proof fn law_end_comes_last(s: SessionModel, ops: Seq<GuestOp>)
    requires
        s.live(),
    ensures
        end_is_last(s.emits_all(ops)),
        s.after_all(ops).live() == no_end(s.emits_all(ops)),
    decreases ops.len(),
{
    if ops.len() == 0 {
        assert(no_end(s.emits_all(ops)));
    } else {
        let next = s.after(ops[0]);
        let rest = next.emits_all(ops.drop_first());
        let all = s.emits_all(ops);
        if next.live() {
            law_end_comes_last(next, ops.drop_first());
            match s.emits(ops[0]) {
                Some(msg) => {
                    assert(!is_end(msg));
                    assert(all == seq![msg] + rest);
                    assert(all[0] == msg);
                    assert forall|i: int| 1 <= i < all.len() implies all[i] == rest[i - 1] by {}
                    assert(end_is_last(all)) by {
                        assert forall|i: int| 0 <= i < all.len() && is_end(
                            #[trigger] all[i],
                        ) implies i == all.len() - 1 by {
                            assert(all[i] == rest[i - 1]);
                        }
                    }
                    if no_end(rest) {
                        assert forall|i: int| 0 <= i < all.len() implies !is_end(
                            #[trigger] all[i],
                        ) by {
                            if i > 0 {
                                assert(all[i] == rest[i - 1]);
                            }
                        }
                    } else {
                        let k = choose|k: int| 0 <= k < rest.len() && is_end(#[trigger] rest[k]);
                        assert(all[k + 1] == rest[k]);
                        assert(!no_end(all));
                    }
                },
                None => {
                    assert(all == rest);
                },
            }
        } else {
            lemma_ended_is_final(next, ops.drop_first());
            let msg = s.emits(ops[0]).unwrap();
            assert(is_end(msg));
            assert(all =~= seq![msg]);
            assert(is_end(all[0]));
            assert(!no_end(all));
            assert(!s.after_all(ops).live());
        }
    }
}

} // verus!
