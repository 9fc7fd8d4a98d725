//! The scripting module: a privileged engine that runs the bot's own
//! scripts and a restricted one that runs what guests submit. Here: what
//! becomes of a message, and how the output of a guest's run is gathered
//! into replies.

pub mod bot;
pub mod bridge;
pub mod engine;
pub mod http;
pub mod image;
pub mod replies;
pub mod scheduler;
pub mod scripts;
pub mod state;
pub mod tags;
pub mod trust;

use crate::modules::lua::state::{
    SandboxLimits, SandboxMsg, SandboxMsgView, SandboxTerminationReason,
};
use crate::services::{ServiceFeatures, ServiceKind, FEATURE_MARKDOWN};
use crate::text::{
    byte_len, ends_with, extend_chars, from_chars, join, joined, slice, split,
    split_chars, starts_with, string_of, strip_prefix, strip_suffix, to_chars, trim_range,
    trimmed,
};
use crate::utils::shell_parser::{parse_args, parse_shell_args};
use crate::utils::{escape_chars, escaped};
use vstd::prelude::*;

verus! {

/// An emission longer than this, in characters, counts as no line when it
/// comes into an empty buffer; and a first reply longer than this goes out
/// whole.
pub const LARGE_OUTPUT: usize = 2000;

/// How long the first reply is held back for more output, in
/// milliseconds.
pub const FIRST_WAIT_MS: u64 = 100;

/// How long every later reply is held back, in milliseconds.
pub const LATER_WAIT_MS: u64 = 500;

/// How long the reader rests when the stream has nothing for it, in
/// milliseconds.
pub const IDLE_WAIT_MS: u64 = 50;

/// Why the reader of a session's output gave up.
#[derive(Copy, Clone, Debug, PartialEq, Eq, Structural)]
pub enum AbortReason {
    TooManyLines,
    TooManyCharacters,
}

/// What the requester is told when the reader gives up.
pub open spec fn abort_notice(reason: AbortReason) -> Seq<char> {
    match reason {
        AbortReason::TooManyLines => "error: too many lines has been output, aborting"@,
        AbortReason::TooManyCharacters => "error: too many characters has been output, aborting"@,
    }
}

/// What the requester is told when a session ends for a reason other
/// than having run to its end.
pub open spec fn termination_notice(reason: SandboxTerminationReason) -> Option<Seq<char>> {
    match reason {
        SandboxTerminationReason::Done => None,
        SandboxTerminationReason::ExecutionQuota => Some(
            "Execution quota exceeded, terminated execution"@,
        ),
        SandboxTerminationReason::TimeLimit => Some(
            "Execution time limit reached, terminated execution"@,
        ),
    }
}

impl AbortReason {
    /// What the requester is told.
    pub fn notice(&self) -> (r: &'static str)
        ensures
            r@ == abort_notice(*self),
    {
        match self {
            AbortReason::TooManyLines => "error: too many lines has been output, aborting",
            AbortReason::TooManyCharacters => "error: too many characters has been output, aborting",
        }
    }
}

/// What the reader finds when it looks at the stream.
#[derive(Clone, Debug)]
pub enum StreamEvent {
    /// The next message.
    Message(SandboxMsg),
    /// Nothing at the moment.
    Empty,
    /// Nothing ever again: the session is gone.
    Disconnected,
}

/// An event with its texts as sequences of characters.
pub enum StreamEventView {
    Message(SandboxMsgView),
    Empty,
    Disconnected,
}

impl View for StreamEvent {
    type V = StreamEventView;

    open spec fn view(&self) -> StreamEventView {
        match self {
            StreamEvent::Message(m) => StreamEventView::Message(m@),
            StreamEvent::Empty => StreamEventView::Empty,
            StreamEvent::Disconnected => StreamEventView::Disconnected,
        }
    }
}

/// What the reader's caller is to do after an event.
#[derive(Clone, Debug)]
pub enum Reaction {
    /// Nothing.
    Nothing,
    /// Post this text to the requester.
    Post(String),
    /// Rest for so many milliseconds.
    Wait(u64),
}

/// A reaction with its text as a sequence of characters.
pub enum ReactionView {
    Nothing,
    Post(Seq<char>),
    Wait(u64),
}

impl View for Reaction {
    type V = ReactionView;

    open spec fn view(&self) -> ReactionView {
        match self {
            Reaction::Nothing => ReactionView::Nothing,
            Reaction::Post(s) => ReactionView::Post(s@),
            Reaction::Wait(ms) => ReactionView::Wait(*ms),
        }
    }
}

/// The lines from `i` on that still fit into what is `left` of the
/// characters, as one text; what is left after them; and whether all of
/// them fitted. A line fits while more is left than it takes. Each line
/// is made safe to post, and a newline stands in front of every line but
/// the first of the buffer: so the text holds the lines that fit, with
/// newlines between them and none at its end.
pub open spec fn fill(service: ServiceKind, lines: Seq<Seq<char>>, i: int, left: u64) -> (
    Seq<char>,
    u64,
    bool,
)
    decreases lines.len() - i,
{
    if i < 0 || i >= lines.len() {
        (Seq::empty(), left, true)
    } else if left > byte_len(lines[i]) {
        let rest = fill(service, lines, i + 1, (left - byte_len(lines[i])) as u64);
        let gap: Seq<char> = if i > 0 {
            seq!['\n']
        } else {
            Seq::empty()
        };
        (gap + escaped(service, lines[i]) + rest.0, rest.1, rest.2)
    } else {
        (Seq::empty(), left, false)
    }
}

/// How many lines from `i` on fit into what is `left` of the characters,
/// one behind the other.
pub open spec fn fitting(lines: Seq<Seq<char>>, i: int, left: u64) -> int
    decreases lines.len() - i,
{
    if i < 0 || i >= lines.len() {
        0
    } else if left > byte_len(lines[i]) {
        1 + fitting(lines, i + 1, (left - byte_len(lines[i])) as u64)
    } else {
        0
    }
}

/// The first `n` lines, each made safe to post.
pub open spec fn safe_lines(service: ServiceKind, lines: Seq<Seq<char>>, n: int) -> Seq<
    Seq<char>,
> {
    Seq::new(n as nat, |j: int| escaped(service, lines[j]))
}

/// The lines `from..to`, each made safe to post, a newline in front of
/// every one but the first of the buffer.
pub open spec fn spread(service: ServiceKind, lines: Seq<Seq<char>>, from: int, to: int) -> Seq<
    char,
>
    decreases to - from,
{
    if to <= from {
        Seq::empty()
    } else {
        let gap: Seq<char> = if to - 1 > 0 {
            seq!['\n']
        } else {
            Seq::empty()
        };
        spread(service, lines, from, to - 1) + gap + escaped(service, lines[to - 1])
    }
}

proof fn lemma_spread_front(service: ServiceKind, lines: Seq<Seq<char>>, from: int, to: int)
    requires
        0 <= from < to,
    ensures
        spread(service, lines, from, to) == (if from > 0 {
            seq!['\n']
        } else {
            Seq::<char>::empty()
        }) + escaped(service, lines[from]) + spread(service, lines, from + 1, to),
    decreases to - from,
{
    let gap: Seq<char> = if from > 0 {
        seq!['\n']
    } else {
        Seq::<char>::empty()
    };
    if to == from + 1 {
        assert(spread(service, lines, from, from) =~= Seq::<char>::empty());
        assert(spread(service, lines, from + 1, to) =~= Seq::<char>::empty());
        assert(spread(service, lines, from, to) =~= gap + escaped(service, lines[from])
            + Seq::<char>::empty());
    } else {
        lemma_spread_front(service, lines, from, to - 1);
        assert(spread(service, lines, from, to) =~= spread(service, lines, from, to - 1)
            + seq!['\n'] + escaped(service, lines[to - 1]));
        assert(spread(service, lines, from + 1, to) =~= spread(service, lines, from + 1, to - 1)
            + seq!['\n'] + escaped(service, lines[to - 1]));
        assert(spread(service, lines, from, to) =~= gap + escaped(service, lines[from]) + spread(
            service,
            lines,
            from + 1,
            to,
        ));
    }
}

proof fn lemma_fill_spreads(service: ServiceKind, lines: Seq<Seq<char>>, i: int, left: u64)
    requires
        0 <= i <= lines.len(),
    ensures
        i + fitting(lines, i, left) <= lines.len(),
        fitting(lines, i, left) >= 0,
        fill(service, lines, i, left).0 == spread(
            service,
            lines,
            i,
            i + fitting(lines, i, left),
        ),
        fill(service, lines, i, left).2 == (i + fitting(lines, i, left) == lines.len()),
    decreases lines.len() - i,
{
    if i < lines.len() && left > byte_len(lines[i]) {
        let rest = (left - byte_len(lines[i])) as u64;
        lemma_fill_spreads(service, lines, i + 1, rest);
        lemma_spread_front(service, lines, i, i + fitting(lines, i, left));
    } else {
        assert(spread(service, lines, i, i) =~= Seq::<char>::empty());
    }
}

proof fn lemma_joined_spreads(service: ServiceKind, lines: Seq<Seq<char>>, n: int)
    requires
        0 <= n <= lines.len(),
    ensures
        joined(safe_lines(service, lines, n), seq!['\n']) == spread(service, lines, 0, n),
    decreases n,
{
    let parts = safe_lines(service, lines, n);
    if n == 0 {
        assert(spread(service, lines, 0, 0) =~= Seq::<char>::empty());
    } else if n == 1 {
        assert(spread(service, lines, 0, 0) =~= Seq::<char>::empty());
        assert(spread(service, lines, 0, 1) =~= escaped(service, lines[0]));
    } else {
        lemma_joined_spreads(service, lines, n - 1);
        assert(parts.drop_last() =~= safe_lines(service, lines, n - 1));
        assert(parts.last() == escaped(service, lines[n - 1]));
    }
}

/// The text that goes out holds exactly the lines that fit into the
/// characters that are left, from the first line on, each made safe to
/// post, with a newline between each two and none at the end; and all
/// lines fitted exactly if it holds them all.
pub proof fn law_batch_is_what_fits(service: ServiceKind, lines: Seq<Seq<char>>, left: u64)
    ensures
        0 <= fitting(lines, 0, left) <= lines.len(),
        fill(service, lines, 0, left).0 == joined(
            safe_lines(service, lines, fitting(lines, 0, left)),
            seq!['\n'],
        ),
        fill(service, lines, 0, left).2 == (fitting(lines, 0, left) == lines.len()),
{
    lemma_fill_spreads(service, lines, 0, left);
    lemma_joined_spreads(service, lines, fitting(lines, 0, left));
}

/// The reader of a session's output as the contracts see it.
pub struct AccumulatorModel {
    /// The service that the replies go to.
    pub service: ServiceKind,
    /// Whether the requester wants the guest's errors.
    pub errors: bool,
    /// The lines that wait for the next reply.
    pub buffer: Seq<Seq<char>>,
    /// Whether a reply has gone out.
    pub has_messaged: bool,
    /// Why the reader gave up, if it did.
    pub aborting: Option<AbortReason>,
    /// Whether the session ran to its end and only the buffer is left.
    pub ended: bool,
    /// Whether the reader is through.
    pub finished: bool,
}

impl AccumulatorModel {
    /// Whether the reader takes no more events.
    pub open spec fn closed(self) -> bool {
        self.finished || self.ended || self.aborting is Some
    }

    /// Whether the caller is to stop asking.
    pub open spec fn done(self) -> bool {
        self.finished || self.aborting is Some
    }

    /// How long a reply is held back.
    pub open spec fn wait(self) -> u64 {
        if self.has_messaged {
            LATER_WAIT_MS
        } else {
            FIRST_WAIT_MS
        }
    }

    /// The reader after an emission of the guest. An empty one changes
    /// nothing. A large one that comes into an empty buffer counts as no
    /// line. Any other takes one of the lines that are left, and with
    /// none left the reader gives up. However many newlines an emission
    /// holds, it counts once.
    pub open spec fn take_out(self, limits: SandboxLimits, text: Seq<char>) -> (
        AccumulatorModel,
        SandboxLimits,
    ) {
        if text.len() == 0 {
            (self, limits)
        } else if text.len() > LARGE_OUTPUT && self.buffer.len() == 0 {
            (AccumulatorModel { buffer: self.buffer + split(text, '\n'), ..self }, limits)
        } else if limits.lines_left > 0 {
            (
                AccumulatorModel { buffer: self.buffer + split(text, '\n'), ..self },
                SandboxLimits { lines_left: (limits.lines_left - 1) as u64, ..limits },
            )
        } else {
            (AccumulatorModel { aborting: Some(AbortReason::TooManyLines), ..self }, limits)
        }
    }

    /// The reader, the quotas and what the caller is to do after an
    /// event. A reader that takes no more events passes over it. An error
    /// of the guest is posted only where the requester wants errors. The
    /// end of the session closes the stream: after a run to the end the
    /// buffer still goes out, after any other end the requester is told
    /// why and the buffer is dropped, as it is when the session is gone.
    pub open spec fn receive(self, limits: SandboxLimits, event: StreamEventView) -> (
        AccumulatorModel,
        SandboxLimits,
        ReactionView,
    ) {
        if self.closed() {
            (self, limits, ReactionView::Nothing)
        } else {
            match event {
                StreamEventView::Message(SandboxMsgView::Out(text)) => {
                    let (next, left) = self.take_out(limits, text);
                    (next, left, ReactionView::Nothing)
                },
                StreamEventView::Message(SandboxMsgView::Error(text)) => {
                    if self.errors && text.len() > 0 {
                        (self, limits, ReactionView::Post(escaped(self.service, "error: "@ + text)))
                    } else {
                        (self, limits, ReactionView::Nothing)
                    }
                },
                StreamEventView::Message(SandboxMsgView::Terminated(reason)) => {
                    match termination_notice(reason) {
                        None => (
                            AccumulatorModel {
                                ended: true,
                                finished: self.buffer.len() == 0,
                                ..self
                            },
                            limits,
                            ReactionView::Nothing,
                        ),
                        Some(notice) => (
                            AccumulatorModel { finished: true, ..self },
                            limits,
                            ReactionView::Post(notice),
                        ),
                    }
                },
                StreamEventView::Empty => (self, limits, ReactionView::Wait(IDLE_WAIT_MS)),
                StreamEventView::Disconnected => (
                    AccumulatorModel { finished: true, ..self },
                    limits,
                    ReactionView::Nothing,
                ),
            }
        }
    }

    /// Whether the buffer goes out now, `elapsed` milliseconds after the
    /// last reply: when it holds something and has been held back long
    /// enough, or the reader has given up, or the session has ended.
    pub open spec fn flush_due(self, elapsed: u64) -> bool {
        &&& !self.finished
        &&& self.buffer.len() > 0
        &&& (elapsed > self.wait() || self.aborting is Some || self.ended)
    }

    /// The reader, the quotas and the reply, if one goes out. A first
    /// reply that is large goes out whole and costs nothing. Otherwise
    /// the lines go out as far as the characters left allow; if not all
    /// of them do, the reader gives up and the rest, from the first line
    /// that does not fit, is in no reply.
    pub open spec fn flush(self, limits: SandboxLimits, elapsed: u64) -> (
        AccumulatorModel,
        SandboxLimits,
        Option<Seq<char>>,
    ) {
        if !self.flush_due(elapsed) {
            (self, limits, None)
        } else {
            let whole = joined(self.buffer, seq!['\n']);
            let after = AccumulatorModel {
                buffer: Seq::empty(),
                has_messaged: true,
                finished: self.ended,
                ..self
            };
            if !self.has_messaged && whole.len() > LARGE_OUTPUT {
                (after, limits, Some(escaped(self.service, whole)))
            } else {
                let (out, left, fits) = fill(self.service, self.buffer, 0, limits.characters_left);
                (
                    AccumulatorModel {
                        aborting: if fits {
                            self.aborting
                        } else {
                            Some(AbortReason::TooManyCharacters)
                        },
                        ..after
                    },
                    SandboxLimits { characters_left: left, ..limits },
                    Some(out),
                )
            }
        }
    }

    /// The reader after a row of emissions, with nothing going out in
    /// between.
    pub open spec fn take_all(self, limits: SandboxLimits, texts: Seq<Seq<char>>) -> (
        AccumulatorModel,
        SandboxLimits,
    )
        decreases texts.len(),
    {
        if texts.len() == 0 {
            (self, limits)
        } else {
            let (before, left) = self.take_all(limits, texts.drop_last());
            let (next, left, _) = before.receive(
                left,
                StreamEventView::Message(SandboxMsgView::Out(texts.last())),
            );
            (next, left)
        }
    }
}

/// The lines of a row of emissions, in order.
pub open spec fn lines_of(texts: Seq<Seq<char>>) -> Seq<Seq<char>>
    decreases texts.len(),
{
    if texts.len() == 0 {
        Seq::empty()
    } else {
        lines_of(texts.drop_last()) + split(texts.last(), '\n')
    }
}

/// Whether every emission of `texts` holds something and none is large.
pub open spec fn plain_emissions(texts: Seq<Seq<char>>) -> bool {
    forall|i: int| 0 <= i < texts.len() ==> 0 < (#[trigger] texts[i]).len() <= LARGE_OUTPUT
}

/// As many emissions as there are lines left all reach the buffer, and
/// use the lines up one by one.
pub proof fn lemma_emissions_within_quota(
    m: AccumulatorModel,
    limits: SandboxLimits,
    texts: Seq<Seq<char>>,
)
    requires
        !m.closed(),
        plain_emissions(texts),
        texts.len() <= limits.lines_left,
    ensures
        m.take_all(limits, texts).0 == (AccumulatorModel {
            buffer: m.buffer + lines_of(texts),
            ..m
        }),
        m.take_all(limits, texts).1 == (SandboxLimits {
            lines_left: (limits.lines_left - texts.len()) as u64,
            ..limits
        }),
    decreases texts.len(),
{
    if texts.len() == 0 {
        assert(m.buffer + lines_of(texts) =~= m.buffer);
    } else {
        let head = texts.drop_last();
        assert(plain_emissions(head)) by {
            assert forall|i: int| 0 <= i < head.len() implies 0 < (#[trigger] head[i]).len()
                <= LARGE_OUTPUT by {
                assert(head[i] == texts[i]);
            }
        }
        lemma_emissions_within_quota(m, limits, head);
        let last = texts.last();
        assert(last == texts[texts.len() - 1]);
        assert((m.buffer + lines_of(head)) + split(last, '\n') =~= m.buffer + lines_of(texts));
    }
}

/// Of a row of emissions that is longer by one than there are lines
/// left, each holding something and none large, all but the last reach
/// the buffer and use the lines up; the last makes the reader give up
/// for too many lines, and adds nothing.
pub proof fn law_line_quota(m: AccumulatorModel, limits: SandboxLimits, texts: Seq<Seq<char>>)
    requires
        !m.closed(),
        plain_emissions(texts),
        texts.len() == limits.lines_left + 1,
    ensures
        ({
            let (before, left) = m.take_all(limits, texts.drop_last());
            let (after, end) = m.take_all(limits, texts);
            &&& before.aborting is None
            &&& before.buffer == m.buffer + lines_of(texts.drop_last())
            &&& left.lines_left == 0
            &&& after.aborting == Some(AbortReason::TooManyLines)
            &&& after.buffer == before.buffer
            &&& end == left
        }),
{
    let head = texts.drop_last();
    assert(plain_emissions(head)) by {
        assert forall|i: int| 0 <= i < head.len() implies 0 < (#[trigger] head[i]).len()
            <= LARGE_OUTPUT by {
            assert(head[i] == texts[i]);
        }
    }
    lemma_emissions_within_quota(m, limits, head);
    assert(texts.last() == texts[texts.len() - 1]);
}

/// Whatever the reader is shown, the quotas do not grow.
pub proof fn law_reader_keeps_quotas(
    m: AccumulatorModel,
    limits: SandboxLimits,
    event: StreamEventView,
    elapsed: u64,
)
    ensures
        m.receive(limits, event).1.within(limits),
        m.flush(limits, elapsed).1.within(limits),
{
    lemma_fill_within(m.service, m.buffer, 0, limits.characters_left);
}

/// What is left after the lines went out is no more than was left.
pub proof fn lemma_fill_within(service: ServiceKind, lines: Seq<Seq<char>>, i: int, left: u64)
    ensures
        fill(service, lines, i, left).1 <= left,
    decreases lines.len() - i,
{
    if 0 <= i < lines.len() && left > byte_len(lines[i]) {
        lemma_fill_within(service, lines, i + 1, (left - byte_len(lines[i])) as u64);
    }
}

/// Once the reader has been told that the session ended, whatever the
/// stream still holds changes nothing and reaches nobody.
pub proof fn law_nothing_after_end(
    m: AccumulatorModel,
    limits: SandboxLimits,
    reason: SandboxTerminationReason,
    later: StreamEventView,
)
    ensures
        ({
            let (ended, left, _) = m.receive(
                limits,
                StreamEventView::Message(SandboxMsgView::Terminated(reason)),
            );
            ended.receive(left, later) == (ended, left, ReactionView::Nothing)
        }),
{
}

/// The reader of a session's output: it gathers what the guest prints
/// into replies and gives up when the guest prints too much.
pub struct OutputAccumulator {
    service: ServiceKind,
    errors: bool,
    buffer: Vec<String>,
    has_messaged: bool,
    aborting: Option<AbortReason>,
    ended: bool,
    finished: bool,
}

impl View for OutputAccumulator {
    type V = AccumulatorModel;

    closed spec fn view(&self) -> AccumulatorModel {
        AccumulatorModel {
            service: self.service,
            errors: self.errors,
            buffer: self.buffer.deep_view(),
            has_messaged: self.has_messaged,
            aborting: self.aborting,
            ended: self.ended,
            finished: self.finished,
        }
    }
}

fn append_lines(buffer: &mut Vec<String>, text: &Vec<char>)
    ensures
        final(buffer).deep_view() == old(buffer).deep_view() + split(text@, '\n'),
{
    let mut lines = split_chars(text, '\n');
    let ghost added = lines.deep_view();
    buffer.append(&mut lines);
    assert(buffer.deep_view() =~= old(buffer).deep_view() + added);
}

impl OutputAccumulator {
    /// A reader that has seen nothing. `errors` says whether the
    /// requester wants the guest's errors.
    pub fn new(service: ServiceKind, errors: bool) -> (r: OutputAccumulator)
        ensures
            r@ == (AccumulatorModel {
                service,
                errors,
                buffer: Seq::empty(),
                has_messaged: false,
                aborting: None,
                ended: false,
                finished: false,
            }),
    {
        let r = OutputAccumulator {
            service,
            errors,
            buffer: Vec::new(),
            has_messaged: false,
            aborting: None,
            ended: false,
            finished: false,
        };
        assert(r.buffer.deep_view() =~= Seq::<Seq<char>>::empty());
        r
    }

    /// Whether the caller is to stop asking.
    pub fn is_done(&self) -> (r: bool)
        ensures
            r == self@.done(),
    {
        self.finished || self.aborting.is_some()
    }

    /// Why the reader gave up, if it did. The caller posts the notice
    /// once it has stopped asking.
    pub fn aborted(&self) -> (r: Option<AbortReason>)
        ensures
            r == self@.aborting,
    {
        self.aborting
    }

    /// How many lines wait for the next reply.
    pub fn buffered(&self) -> (r: usize)
        ensures
            r == self@.buffer.len(),
    {
        self.buffer.len()
    }

    /// The requester took the request back: the reader is through, and
    /// nothing more goes out.
    pub fn cancel(&mut self)
        ensures
            final(self)@ == (AccumulatorModel { finished: true, ..old(self)@ }),
    {
        self.finished = true;
    }

    /// Takes what the stream holds next, and says what the caller is to
    /// do about it.
    pub fn on_event(&mut self, limits: &mut SandboxLimits, event: StreamEvent) -> (r: Reaction)
        ensures
            (final(self)@, *final(limits), r@) == old(self)@.receive(*old(limits), event@),
            final(limits).within(*old(limits)),
    {
        if self.finished || self.ended || self.aborting.is_some() {
            return Reaction::Nothing;
        }
        match event {
            StreamEvent::Message(SandboxMsg::Out(text)) => {
                let chars = to_chars(text.as_str());
                if chars.len() == 0 {
                } else if chars.len() > LARGE_OUTPUT && self.buffer.len() == 0 {
                    append_lines(&mut self.buffer, &chars);
                } else if limits.lines_left > 0 {
                    append_lines(&mut self.buffer, &chars);
                    limits.lines_left = limits.lines_left - 1;
                } else {
                    self.aborting = Some(AbortReason::TooManyLines);
                }
                Reaction::Nothing
            },
            StreamEvent::Message(SandboxMsg::Error(text)) => {
                if self.errors && text.as_str().unicode_len() > 0 {
                    let mut line = to_chars("error: ");
                    let tail = to_chars(text.as_str());
                    extend_chars(&mut line, &tail);
                    Reaction::Post(string_of(&escape_chars(self.service, &line)))
                } else {
                    Reaction::Nothing
                }
            },
            StreamEvent::Message(SandboxMsg::Terminated(reason)) => {
                match reason {
                    SandboxTerminationReason::Done => {
                        self.ended = true;
                        self.finished = self.buffer.len() == 0;
                        Reaction::Nothing
                    },
                    SandboxTerminationReason::ExecutionQuota => {
                        self.finished = true;
                        Reaction::Post(
                            string_of(&to_chars("Execution quota exceeded, terminated execution")),
                        )
                    },
                    SandboxTerminationReason::TimeLimit => {
                        self.finished = true;
                        Reaction::Post(
                            string_of(
                                &to_chars("Execution time limit reached, terminated execution"),
                            ),
                        )
                    },
                }
            },
            StreamEvent::Empty => Reaction::Wait(IDLE_WAIT_MS),
            StreamEvent::Disconnected => {
                self.finished = true;
                Reaction::Nothing
            },
        }
    }

    /// Sends the buffer out if it is due, `elapsed_ms` milliseconds after
    /// the last reply, and hands back the reply to post.
    pub fn on_tick(&mut self, limits: &mut SandboxLimits, elapsed_ms: u64) -> (r: Option<String>)
        ensures
            final(self)@ == old(self)@.flush(*old(limits), elapsed_ms).0,
            *final(limits) == old(self)@.flush(*old(limits), elapsed_ms).1,
            r is Some == old(self)@.flush(*old(limits), elapsed_ms).2 is Some,
            r matches Some(text) ==> Some(text@) == old(self)@.flush(*old(limits), elapsed_ms).2,
            final(limits).within(*old(limits)),
    {
        let wait = if self.has_messaged {
            LATER_WAIT_MS
        } else {
            FIRST_WAIT_MS
        };
        if self.finished || self.buffer.len() == 0 || !(elapsed_ms > wait
            || self.aborting.is_some() || self.ended) {
            return None;
        }
        proof {
            lemma_fill_within(self.service, self.buffer.deep_view(), 0, limits.characters_left);
        }
        let mut lines: Vec<String> = Vec::new();
        core::mem::swap(&mut lines, &mut self.buffer);
        assert(self.buffer.deep_view() =~= Seq::<Seq<char>>::empty());
        let first = !self.has_messaged;
        self.has_messaged = true;
        self.finished = self.ended;
        let mut newline: Vec<char> = Vec::new();
        newline.push('\n');
        assert(newline@ =~= seq!['\n']);
        if first {
            let whole = join(&lines, &newline);
            if whole.len() > LARGE_OUTPUT {
                return Some(string_of(&escape_chars(self.service, &whole)));
            }
        }
        let ghost all = lines.deep_view();
        let ghost start = limits.characters_left;
        let mut out: Vec<char> = Vec::new();
        let mut left: u64 = limits.characters_left;
        let mut fits = true;
        let mut i: usize = 0;
        assert(out@ + fill(self.service, all, 0, left).0 =~= fill(self.service, all, 0, start).0);
        while i < lines.len()
            invariant_except_break
                fits,
                out@ + fill(self.service, all, i as int, left).0 == fill(
                    self.service,
                    all,
                    0,
                    start,
                ).0,
                fill(self.service, all, i as int, left).1 == fill(self.service, all, 0, start).1,
                fill(self.service, all, i as int, left).2 == fill(self.service, all, 0, start).2,
            invariant
                i <= lines.len(),
                all == lines.deep_view(),
                newline@ == seq!['\n'],
            ensures
                out@ == fill(self.service, all, 0, start).0,
                left == fill(self.service, all, 0, start).1,
                fits == fill(self.service, all, 0, start).2,
            decreases lines.len() - i,
        {
            let line = &lines[i];
            assert(all[i as int] == line@);
            let len: u64 = line.as_str().as_bytes().len() as u64;
            assert(len == byte_len(line@));
            if left > len {
                let ghost before = out@;
                let ghost rest = fill(self.service, all, i + 1, (left - len) as u64).0;
                left = left - len;
                let safe = escape_chars(self.service, &to_chars(line.as_str()));
                if i > 0 {
                    out.push('\n');
                    extend_chars(&mut out, &safe);
                    assert(out@ + rest =~= before + (seq!['\n'] + escaped(self.service, line@)
                        + rest));
                } else {
                    extend_chars(&mut out, &safe);
                    assert(out@ + rest =~= before + (Seq::<char>::empty() + escaped(
                        self.service,
                        line@,
                    ) + rest));
                }
                i += 1;
            } else {
                assert(out@ + Seq::<char>::empty() =~= out@);
                fits = false;
                break;
            }
        }
        proof {
            if fits {
                assert(out@ + Seq::<char>::empty() =~= out@);
            }
        }
        if !fits {
            self.aborting = Some(AbortReason::TooManyCharacters);
        }
        limits.characters_left = left;
        Some(string_of(&out))
    }
}

/// How long the output of a run on behalf of the bot's own scripts is
/// waited for, in milliseconds.
pub const COLLECT_LIMIT_MS: u64 = 2000;

/// What became of a run whose output was gathered into one text.
pub enum CollectedView {
    /// The run is still going.
    Running,
    /// The run ended, and this is what it printed.
    Output(Seq<char>),
    /// The run failed, for this reason.
    Failed(Seq<char>),
}

/// The gatherer of a run's output as the contracts see it.
pub struct CollectorModel {
    /// What the guest has printed, a newline between each two emissions.
    pub out: Seq<char>,
    /// What became of the run.
    pub state: CollectedView,
}

impl CollectorModel {
    /// The gatherer and what the caller is to do after an event that
    /// comes `elapsed` milliseconds into the run. A gatherer that is
    /// through passes over it. A run that takes too long counts as ended
    /// for its time limit, whatever the stream holds. The first error of
    /// the guest fails the run, and so does an end for a quota or for the
    /// time; a run to the end, or a session that is gone, hands out what
    /// was printed.
    pub open spec fn collect(self, elapsed: u64, event: StreamEventView) -> (
        CollectorModel,
        ReactionView,
    ) {
        if !(self.state is Running) {
            (self, ReactionView::Nothing)
        } else if elapsed > COLLECT_LIMIT_MS {
            (
                CollectorModel {
                    state: CollectedView::Failed(
                        termination_notice(SandboxTerminationReason::TimeLimit).unwrap(),
                    ),
                    ..self
                },
                ReactionView::Nothing,
            )
        } else {
            match event {
                StreamEventView::Message(SandboxMsgView::Out(text)) => {
                    let out = if self.out.len() > 0 {
                        self.out + seq!['\n'] + text
                    } else {
                        text
                    };
                    (CollectorModel { out, ..self }, ReactionView::Nothing)
                },
                StreamEventView::Message(SandboxMsgView::Error(text)) => (
                    CollectorModel { state: CollectedView::Failed(text), ..self },
                    ReactionView::Nothing,
                ),
                StreamEventView::Message(SandboxMsgView::Terminated(reason)) => {
                    match termination_notice(reason) {
                        None => (
                            CollectorModel { state: CollectedView::Output(self.out), ..self },
                            ReactionView::Nothing,
                        ),
                        Some(notice) => (
                            CollectorModel { state: CollectedView::Failed(notice), ..self },
                            ReactionView::Nothing,
                        ),
                    }
                },
                StreamEventView::Empty => (self, ReactionView::Wait(IDLE_WAIT_MS)),
                StreamEventView::Disconnected => (
                    CollectorModel { state: CollectedView::Output(self.out), ..self },
                    ReactionView::Nothing,
                ),
            }
        }
    }
}

/// What became of a run whose output was gathered into one text.
#[derive(Clone, Debug)]
pub enum Collected {
    Running,
    Output(String),
    Failed(String),
}

impl View for Collected {
    type V = CollectedView;

    open spec fn view(&self) -> CollectedView {
        match self {
            Collected::Running => CollectedView::Running,
            Collected::Output(s) => CollectedView::Output(s@),
            Collected::Failed(s) => CollectedView::Failed(s@),
        }
    }
}

/// Gathers the output of a run into one text, for the bot's own scripts.
pub struct OutputCollector {
    out: Vec<char>,
    state: Collected,
}

impl View for OutputCollector {
    type V = CollectorModel;

    closed spec fn view(&self) -> CollectorModel {
        CollectorModel { out: self.out@, state: self.state@ }
    }
}

impl OutputCollector {
    /// A gatherer that has seen nothing.
    pub fn new() -> (r: OutputCollector)
        ensures
            r@.out == Seq::<char>::empty(),
            r@.state is Running,
    {
        OutputCollector { out: Vec::new(), state: Collected::Running }
    }

    /// Takes what the stream holds next, `elapsed_ms` milliseconds into
    /// the run, and says what the caller is to do about it.
    pub fn on_event(&mut self, elapsed_ms: u64, event: StreamEvent) -> (r: Reaction)
        ensures
            (final(self)@, r@) == old(self)@.collect(elapsed_ms, event@),
    {
        match self.state {
            Collected::Running => {},
            _ => {
                return Reaction::Nothing;
            },
        }
        if elapsed_ms > COLLECT_LIMIT_MS {
            self.state = Collected::Failed(
                string_of(&to_chars("Execution time limit reached, terminated execution")),
            );
            return Reaction::Nothing;
        }
        match event {
            StreamEvent::Message(SandboxMsg::Out(text)) => {
                let chars = to_chars(text.as_str());
                if self.out.len() > 0 {
                    self.out.push('\n');
                    extend_chars(&mut self.out, &chars);
                    assert(self.out@ =~= old(self).out@ + seq!['\n'] + text@);
                } else {
                    extend_chars(&mut self.out, &chars);
                    assert(self.out@ =~= text@);
                }
                Reaction::Nothing
            },
            StreamEvent::Message(SandboxMsg::Error(text)) => {
                self.state = Collected::Failed(text);
                Reaction::Nothing
            },
            StreamEvent::Message(SandboxMsg::Terminated(reason)) => {
                match reason {
                    SandboxTerminationReason::Done => {
                        self.state = Collected::Output(string_of(&self.out));
                    },
                    SandboxTerminationReason::ExecutionQuota => {
                        self.state = Collected::Failed(
                            string_of(&to_chars("Execution quota exceeded, terminated execution")),
                        );
                    },
                    SandboxTerminationReason::TimeLimit => {
                        self.state = Collected::Failed(
                            string_of(
                                &to_chars("Execution time limit reached, terminated execution"),
                            ),
                        );
                    },
                }
                Reaction::Nothing
            },
            StreamEvent::Empty => Reaction::Wait(IDLE_WAIT_MS),
            StreamEvent::Disconnected => {
                self.state = Collected::Output(string_of(&self.out));
                Reaction::Nothing
            },
        }
    }

    /// What became of the run so far.
    pub fn state(&self) -> (r: &Collected)
        ensures
            r@ == self@.state,
    {
        &self.state
    }
}

/// The code that a text holds. On Discord a text that, without the white
/// space around it, opens with a fence (with or without the word `lua`
/// and a newline behind it) and closes with a fence stands for what is
/// between the two, again without the white space around it. Any other
/// text stands for itself.
pub open spec fn code_of(service: ServiceKind, text: Seq<char>) -> Seq<char> {
    match service {
        ServiceKind::Discord => {
            let bare = trimmed(text);
            let opened = match strip_prefix(bare, "```lua\n"@) {
                Some(rest) => Some(rest),
                None => strip_prefix(bare, "```"@),
            };
            match opened {
                None => text,
                Some(rest) => match strip_suffix(rest, "```"@) {
                    None => text,
                    Some(inside) => trimmed(inside),
                },
            }
        },
    }
}

/// Takes the fences of a code block off the code that a guest submits.
pub fn trim_codeblocks(service: ServiceKind, text: String) -> (r: String)
    ensures
        r@ == code_of(service, text@),
{
    match service {
        ServiceKind::Discord => {
            let chars = to_chars(text.as_str());
            let (lo, hi) = trim_range(&chars);
            let bare = slice(&chars, lo, hi);
            let long = to_chars("```lua\n");
            let short = to_chars("```");
            let rest = if starts_with(&bare, &long) {
                slice(&bare, long.len(), bare.len())
            } else if starts_with(&bare, &short) {
                slice(&bare, short.len(), bare.len())
            } else {
                return text;
            };
            if !ends_with(&rest, &short) {
                return text;
            }
            let inside = slice(&rest, 0, rest.len() - short.len());
            let (a, b) = trim_range(&inside);
            from_chars(&inside, a, b)
        },
    }
}

/// What is known of a message when it comes in.
pub struct IncomingMessage<'a> {
    /// Whether the bot itself or another bot wrote it.
    pub from_bot: bool,
    /// Whether its author is barred from the bot.
    pub restricted: bool,
    /// Whether it is an older message that was changed.
    pub edited: bool,
    /// Its text.
    pub content: &'a str,
    /// What a command begins with in this channel.
    pub prefix: &'a str,
    /// What code for the sandbox begins with in this channel.
    pub lua_prefix: &'a str,
    /// Whether every message of this channel is run in the sandbox.
    pub always_eval: bool,
}

/// What becomes of a message.
#[derive(Clone, Debug)]
pub enum MessageRoute {
    /// Nothing.
    Ignore,
    /// The bot's scripts get it as a command, with what follows the
    /// prefix.
    Command(String),
    /// The bot's scripts get it as a message.
    Hook,
    /// The bot's scripts get it as a message, and this code is then run in
    /// the sandbox; the requester is shown its errors or not.
    HookThenEval(String, bool),
}

/// A route with its texts as sequences of characters.
pub enum MessageRouteView {
    Ignore,
    Command(Seq<char>),
    Hook,
    HookThenEval(Seq<char>, bool),
}

impl View for MessageRoute {
    type V = MessageRouteView;

    open spec fn view(&self) -> MessageRouteView {
        match self {
            MessageRoute::Ignore => MessageRouteView::Ignore,
            MessageRoute::Command(s) => MessageRouteView::Command(s@),
            MessageRoute::Hook => MessageRouteView::Hook,
            MessageRoute::HookThenEval(s, e) => MessageRouteView::HookThenEval(s@, *e),
        }
    }
}

/// What becomes of a message. One of a bot or of a barred author is
/// passed over. One that opens with the command prefix is a command. Any
/// other new message goes to the scripts, and on to the sandbox if it
/// opens with the sandbox prefix (errors are then shown) or if the channel
/// runs everything (errors are then not shown). A changed message is
/// looked at for a command only.
pub open spec fn routed(
    from_bot: bool,
    restricted: bool,
    edited: bool,
    content: Seq<char>,
    prefix: Seq<char>,
    lua_prefix: Seq<char>,
    always_eval: bool,
) -> MessageRouteView {
    if from_bot || restricted {
        MessageRouteView::Ignore
    } else {
        match strip_prefix(content, prefix) {
            Some(rest) => MessageRouteView::Command(rest),
            None => if edited {
                MessageRouteView::Ignore
            } else {
                match strip_prefix(content, lua_prefix) {
                    Some(rest) => MessageRouteView::HookThenEval(rest, true),
                    None => if always_eval {
                        MessageRouteView::HookThenEval(content, false)
                    } else {
                        MessageRouteView::Hook
                    },
                }
            },
        }
    }
}

/// Decides what becomes of a message.
pub fn route_message(msg: &IncomingMessage) -> (r: MessageRoute)
    ensures
        r@ == routed(
            msg.from_bot,
            msg.restricted,
            msg.edited,
            msg.content@,
            msg.prefix@,
            msg.lua_prefix@,
            msg.always_eval,
        ),
{
    if msg.from_bot || msg.restricted {
        return MessageRoute::Ignore;
    }
    let content = to_chars(msg.content);
    let prefix = to_chars(msg.prefix);
    if starts_with(&content, &prefix) {
        return MessageRoute::Command(from_chars(&content, prefix.len(), content.len()));
    }
    if msg.edited {
        return MessageRoute::Ignore;
    }
    let lua_prefix = to_chars(msg.lua_prefix);
    if starts_with(&content, &lua_prefix) {
        return MessageRoute::HookThenEval(
            from_chars(&content, lua_prefix.len(), content.len()),
            true,
        );
    }
    if msg.always_eval {
        MessageRoute::HookThenEval(string_of(&content), false)
    } else {
        MessageRoute::Hook
    }
}

/// The arguments of a command on a service: code blocks count where the
/// service renders markdown.
pub fn command_args(service: ServiceKind, rest: &str) -> (r: Vec<String>)
    ensures
        r.deep_view() == parse_args(
            service.features().has(ServiceFeatures { bits: FEATURE_MARKDOWN }),
            rest@,
        ),
{
    parse_shell_args(service.supports_feature(ServiceFeatures { bits: FEATURE_MARKDOWN }), rest)
}

} // verus!
