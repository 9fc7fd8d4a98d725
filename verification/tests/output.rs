use kaito::modules::lua::state::{SandboxLimits, SandboxMsg, SandboxTerminationReason};
use kaito::modules::lua::{
    command_args, route_message, trim_codeblocks, AbortReason, Collected, IncomingMessage,
    MessageRoute, OutputAccumulator, OutputCollector, Reaction, StreamEvent,
};
use kaito::services::ServiceKind;

fn out(s: &str) -> StreamEvent {
    StreamEvent::Message(SandboxMsg::Out(s.to_string()))
}

fn new_acc(errors: bool) -> OutputAccumulator {
    OutputAccumulator::new(ServiceKind::Discord, errors)
}

#[test]
fn too_many_characters() {
    let mut limits = SandboxLimits::new();
    limits.set_characters_left(10);
    let mut acc = new_acc(false);
    assert!(matches!(acc.on_event(&mut limits, out("hello")), Reaction::Nothing));
    assert!(matches!(acc.on_event(&mut limits, out("world!")), Reaction::Nothing));
    assert_eq!(acc.buffered(), 2);
    assert!(acc.on_tick(&mut limits, 100).is_none());
    let reply = acc.on_tick(&mut limits, 101).unwrap();
    assert_eq!(reply, "hello");
    assert!(!reply.contains("world!"));
    assert_eq!(acc.aborted(), Some(AbortReason::TooManyCharacters));
    assert!(acc.is_done());
    assert_eq!(limits.characters_left(), 5);
    assert_eq!(
        acc.aborted().unwrap().notice(),
        "error: too many characters has been output, aborting"
    );
    assert_eq!(acc.buffered(), 0);
}

#[test]
fn a_line_fits_only_if_more_is_left_than_it_takes() {
    let mut limits = SandboxLimits::new();
    limits.set_characters_left(5);
    let mut acc = new_acc(false);
    acc.on_event(&mut limits, out("hello"));
    assert_eq!(acc.on_tick(&mut limits, 1000).unwrap(), "");
    assert_eq!(acc.aborted(), Some(AbortReason::TooManyCharacters));
    assert_eq!(limits.characters_left(), 5);
}

#[test]
fn newlines_stand_between_the_lines_that_fit() {
    let mut limits = SandboxLimits::new();
    limits.set_characters_left(4);
    let mut acc = new_acc(false);
    acc.on_event(&mut limits, out("a\nb\nc\ndd\ne"));
    assert_eq!(acc.on_tick(&mut limits, 1000).unwrap(), "a\nb\nc");
    assert_eq!(acc.aborted(), Some(AbortReason::TooManyCharacters));
    assert_eq!(limits.characters_left(), 1);

    let mut limits = SandboxLimits::new();
    let mut acc = new_acc(false);
    acc.on_event(&mut limits, out("a\n\nb"));
    assert_eq!(acc.on_tick(&mut limits, 1000).unwrap(), "a\n\nb");
    assert_eq!(acc.aborted(), None);
}

#[test]
fn characters_are_counted_in_bytes() {
    let mut limits = SandboxLimits::new();
    limits.set_characters_left(3);
    let mut acc = new_acc(false);
    acc.on_event(&mut limits, out("é"));
    assert_eq!(acc.on_tick(&mut limits, 1000).unwrap(), "é");
    assert_eq!(limits.characters_left(), 1);
}

#[test]
fn too_many_lines() {
    let mut limits = SandboxLimits::new();
    limits.set_lines_left(2);
    let mut acc = new_acc(false);
    acc.on_event(&mut limits, out("a"));
    acc.on_event(&mut limits, out("b\nc"));
    assert_eq!(limits.lines_left(), 0);
    assert_eq!(acc.aborted(), None);
    assert_eq!(acc.buffered(), 3);
    acc.on_event(&mut limits, out("d"));
    assert_eq!(acc.aborted(), Some(AbortReason::TooManyLines));
    assert_eq!(acc.buffered(), 3);
    // the buffer still goes out, at once
    assert_eq!(acc.on_tick(&mut limits, 0).unwrap(), "a\nb\nc");
    assert!(acc.is_done());
    assert_eq!(
        acc.aborted().unwrap().notice(),
        "error: too many lines has been output, aborting"
    );
    // and nothing is taken after that
    assert!(matches!(acc.on_event(&mut limits, out("e")), Reaction::Nothing));
    assert_eq!(acc.buffered(), 0);
}

#[test]
fn empty_emission_costs_nothing() {
    let mut limits = SandboxLimits::new();
    let mut acc = new_acc(false);
    acc.on_event(&mut limits, out(""));
    assert_eq!(limits.lines_left(), 10);
    assert_eq!(acc.buffered(), 0);
    assert!(acc.on_tick(&mut limits, 10_000).is_none());
}

#[test]
fn large_emission_into_empty_buffer_is_no_line() {
    let mut limits = SandboxLimits::new();
    limits.set_lines_left(0);
    let mut acc = new_acc(false);
    let big = "x".repeat(2001);
    acc.on_event(&mut limits, out(&big));
    assert_eq!(acc.aborted(), None);
    assert_eq!(limits.lines_left(), 0);
    // a first reply that is large goes out whole and costs no characters
    let reply = acc.on_tick(&mut limits, 101).unwrap();
    assert_eq!(reply, big);
    assert_eq!(limits.characters_left(), 2000);
    assert_eq!(acc.aborted(), None);
    // the next large emission finds the buffer empty again
    acc.on_event(&mut limits, out(&big));
    assert_eq!(acc.aborted(), None);
    // but a later reply is measured
    let reply = acc.on_tick(&mut limits, 501).unwrap();
    assert_eq!(reply, "");
    assert_eq!(acc.aborted(), Some(AbortReason::TooManyCharacters));
}

#[test]
fn large_emission_into_filled_buffer_is_a_line() {
    let mut limits = SandboxLimits::new();
    limits.set_lines_left(1);
    let mut acc = new_acc(false);
    acc.on_event(&mut limits, out("a"));
    acc.on_event(&mut limits, out(&"x".repeat(2001)));
    assert_eq!(acc.aborted(), Some(AbortReason::TooManyLines));
}

#[test]
fn exactly_two_thousand_characters_is_not_large() {
    let mut limits = SandboxLimits::new();
    limits.set_lines_left(0);
    let mut acc = new_acc(false);
    acc.on_event(&mut limits, out(&"x".repeat(2000)));
    assert_eq!(acc.aborted(), Some(AbortReason::TooManyLines));
}

#[test]
fn replies_wait() {
    let mut limits = SandboxLimits::new();
    let mut acc = new_acc(false);
    acc.on_event(&mut limits, out("a"));
    assert!(acc.on_tick(&mut limits, 100).is_none());
    assert_eq!(acc.on_tick(&mut limits, 101).unwrap(), "a");
    acc.on_event(&mut limits, out("b"));
    assert!(acc.on_tick(&mut limits, 500).is_none());
    assert_eq!(acc.on_tick(&mut limits, 501).unwrap(), "b");
    assert_eq!(limits.characters_left(), 1998);
    assert_eq!(limits.lines_left(), 8);
}

#[test]
fn output_is_made_safe() {
    let mut limits = SandboxLimits::new();
    let mut acc = new_acc(false);
    acc.on_event(&mut limits, out("hi @everyone"));
    assert_eq!(
        acc.on_tick(&mut limits, 101).unwrap(),
        "hi @\u{200B}everyone"
    );
    // what is counted is the line as the guest printed it
    assert_eq!(limits.characters_left(), 2000 - 12);
}

#[test]
fn errors_only_on_request() {
    let mut limits = SandboxLimits::new();
    let err = || StreamEvent::Message(SandboxMsg::Error("boom @here".to_string()));
    let mut acc = new_acc(false);
    assert!(matches!(acc.on_event(&mut limits, err()), Reaction::Nothing));
    let mut acc = new_acc(true);
    match acc.on_event(&mut limits, err()) {
        Reaction::Post(t) => assert_eq!(t, "error: boom @\u{200B}here"),
        other => panic!("{:?}", other),
    }
    let empty = StreamEvent::Message(SandboxMsg::Error(String::new()));
    assert!(matches!(acc.on_event(&mut limits, empty), Reaction::Nothing));
    assert!(!acc.is_done());
}

#[test]
fn quota_termination_is_told_and_ends_the_reading() {
    let mut limits = SandboxLimits::new();
    let mut acc = new_acc(false);
    acc.on_event(&mut limits, out("a"));
    let end = StreamEvent::Message(SandboxMsg::Terminated(
        SandboxTerminationReason::ExecutionQuota,
    ));
    match acc.on_event(&mut limits, end) {
        Reaction::Post(t) => assert_eq!(t, "Execution quota exceeded, terminated execution"),
        other => panic!("{:?}", other),
    }
    assert!(acc.is_done());
    assert_eq!(acc.aborted(), None);
    // the buffer is dropped, and nothing that follows is taken
    assert!(acc.on_tick(&mut limits, 10_000).is_none());
    assert!(matches!(acc.on_event(&mut limits, out("late")), Reaction::Nothing));
    assert_eq!(acc.buffered(), 1);
    assert_eq!(limits.lines_left(), 9);
}

#[test]
fn time_limit_is_told() {
    let mut limits = SandboxLimits::new();
    let mut acc = new_acc(false);
    let end = StreamEvent::Message(SandboxMsg::Terminated(SandboxTerminationReason::TimeLimit));
    match acc.on_event(&mut limits, end) {
        Reaction::Post(t) => assert_eq!(t, "Execution time limit reached, terminated execution"),
        other => panic!("{:?}", other),
    }
    assert!(acc.is_done());
}

#[test]
fn run_to_the_end_sends_the_buffer_out() {
    let mut limits = SandboxLimits::new();
    let mut acc = new_acc(false);
    acc.on_event(&mut limits, out("a"));
    let end = StreamEvent::Message(SandboxMsg::Terminated(SandboxTerminationReason::Done));
    assert!(matches!(acc.on_event(&mut limits, end), Reaction::Nothing));
    assert!(!acc.is_done());
    assert!(matches!(acc.on_event(&mut limits, out("late")), Reaction::Nothing));
    assert_eq!(acc.on_tick(&mut limits, 0).unwrap(), "a");
    assert!(acc.is_done());

    let mut acc = new_acc(false);
    let end = StreamEvent::Message(SandboxMsg::Terminated(SandboxTerminationReason::Done));
    acc.on_event(&mut limits, end);
    assert!(acc.is_done());
}

#[test]
fn idle_and_gone() {
    let mut limits = SandboxLimits::new();
    let mut acc = new_acc(false);
    assert!(matches!(acc.on_event(&mut limits, StreamEvent::Empty), Reaction::Wait(50)));
    assert!(!acc.is_done());
    acc.on_event(&mut limits, out("a"));
    assert!(matches!(
        acc.on_event(&mut limits, StreamEvent::Disconnected),
        Reaction::Nothing
    ));
    assert!(acc.is_done());
    assert!(acc.on_tick(&mut limits, 10_000).is_none());
}

#[test]
fn cancelled_reader_is_through() {
    let mut limits = SandboxLimits::new();
    let mut acc = new_acc(false);
    acc.on_event(&mut limits, out("a"));
    acc.cancel();
    assert!(acc.is_done());
    assert_eq!(acc.aborted(), None);
    assert!(acc.on_tick(&mut limits, 10_000).is_none());
}

#[test]
fn collector_joins_output() {
    let mut c = OutputCollector::new();
    assert!(matches!(c.on_event(0, out("a")), Reaction::Nothing));
    assert!(matches!(c.on_event(10, StreamEvent::Empty), Reaction::Wait(50)));
    c.on_event(60, out("b"));
    assert!(matches!(c.state(), Collected::Running));
    c.on_event(
        70,
        StreamEvent::Message(SandboxMsg::Terminated(SandboxTerminationReason::Done)),
    );
    assert!(matches!(c.state(), Collected::Output(t) if t == "a\nb"));
    c.on_event(80, out("late"));
    assert!(matches!(c.state(), Collected::Output(t) if t == "a\nb"));
}

#[test]
fn collector_fails_on_error_and_on_quota() {
    let mut c = OutputCollector::new();
    c.on_event(0, out("a"));
    c.on_event(1, StreamEvent::Message(SandboxMsg::Error("bad".into())));
    assert!(matches!(c.state(), Collected::Failed(t) if t == "bad"));

    let mut c = OutputCollector::new();
    c.on_event(
        0,
        StreamEvent::Message(SandboxMsg::Terminated(SandboxTerminationReason::ExecutionQuota)),
    );
    assert!(matches!(c.state(),
        Collected::Failed(t) if t == "Execution quota exceeded, terminated execution"));
}

#[test]
fn collector_time_limit() {
    let mut c = OutputCollector::new();
    c.on_event(2000, out("a"));
    assert!(matches!(c.state(), Collected::Running));
    c.on_event(2001, out("b"));
    assert!(matches!(c.state(),
        Collected::Failed(t) if t == "Execution time limit reached, terminated execution"));

    let mut c = OutputCollector::new();
    c.on_event(5, out("a"));
    c.on_event(6, StreamEvent::Disconnected);
    assert!(matches!(c.state(), Collected::Output(t) if t == "a"));
}

#[test]
fn code_blocks_are_unwrapped() {
    let d = ServiceKind::Discord;
    assert_eq!(trim_codeblocks(d, "```lua\nprint(1)\n```".into()), "print(1)");
    assert_eq!(trim_codeblocks(d, "  ```print(1)```  ".into()), "print(1)");
    assert_eq!(trim_codeblocks(d, "```lua print(1)```".into()), "lua print(1)");
    assert_eq!(trim_codeblocks(d, "print(1)".into()), "print(1)");
    assert_eq!(trim_codeblocks(d, " print(1) ".into()), " print(1) ");
    assert_eq!(trim_codeblocks(d, "```print(1)".into()), "```print(1)");
    assert_eq!(trim_codeblocks(d, "```".into()), "```");
    assert_eq!(trim_codeblocks(d, "``````".into()), "");
    assert_eq!(trim_codeblocks(d, "```lua\n```".into()), "");
    assert_eq!(trim_codeblocks(d, "\u{3000}```\u{a0}x\t```\n".into()), "x");
}

fn msg<'a>(content: &'a str) -> IncomingMessage<'a> {
    IncomingMessage {
        from_bot: false,
        restricted: false,
        edited: false,
        content,
        prefix: "&",
        lua_prefix: "]",
        always_eval: false,
    }
}

#[test]
fn routing() {
    assert!(matches!(route_message(&msg("&help me")), MessageRoute::Command(r) if r == "help me"));
    assert!(matches!(route_message(&msg("hello")), MessageRoute::Hook));
    assert!(matches!(route_message(&msg("]print(1)")),
        MessageRoute::HookThenEval(c, true) if c == "print(1)"));
    let mut m = msg("hello");
    m.always_eval = true;
    assert!(matches!(route_message(&m), MessageRoute::HookThenEval(c, false) if c == "hello"));
    let mut m = msg("&x");
    m.from_bot = true;
    assert!(matches!(route_message(&m), MessageRoute::Ignore));
    let mut m = msg("&x");
    m.restricted = true;
    assert!(matches!(route_message(&m), MessageRoute::Ignore));
    let mut m = msg("&x");
    m.edited = true;
    assert!(matches!(route_message(&m), MessageRoute::Command(r) if r == "x"));
    let mut m = msg("]x");
    m.edited = true;
    assert!(matches!(route_message(&m), MessageRoute::Ignore));
}

#[test]
fn command_arguments_know_code_blocks() {
    assert_eq!(
        command_args(ServiceKind::Discord, "run ``` a b ```"),
        vec!["run".to_string(), " a b ".to_string()]
    );
}
