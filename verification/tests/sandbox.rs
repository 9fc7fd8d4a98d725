use kaito::modules::lua::bridge::EngineRole;
use kaito::modules::lua::engine::{EngineInstance, HTTP_CALLS_PER_SECOND, MEMORY_LIMIT, TICK_MS};
use kaito::modules::lua::scheduler::{EventKind, ThreadReport, TickStep};
use kaito::modules::lua::state::{
    parse_reason, SandboxLimits, SandboxMsg, SandboxSession, SandboxTerminationReason,
};

#[test]
fn default_limits() {
    let l = SandboxLimits::new();
    assert_eq!(l.lines_left(), 10);
    assert_eq!(l.characters_left(), 2000);
    assert_eq!(l.http_calls_left, 2);
    assert_eq!(l.instructions, 262144);
}

#[test]
fn limit_setters() {
    let mut l = SandboxLimits::new();
    l.set_lines_left(3);
    l.set_characters_left(7);
    assert_eq!(l.lines_left(), 3);
    assert_eq!(l.characters_left(), 7);
    assert_eq!(l.http_calls_left, 2);
}

#[test]
fn reasons_by_name() {
    assert_eq!(parse_reason("done"), Some(SandboxTerminationReason::Done));
    assert_eq!(parse_reason("exec"), Some(SandboxTerminationReason::ExecutionQuota));
    assert_eq!(parse_reason("time"), Some(SandboxTerminationReason::TimeLimit));
    assert_eq!(parse_reason("Done"), None);
    assert_eq!(parse_reason(""), None);
}

#[test]
fn live_session_emits() {
    let s = SandboxSession::new();
    assert!(matches!(s.print("hi".to_string()), Some(SandboxMsg::Out(t)) if t == "hi"));
    assert!(matches!(s.error("bad".to_string()), Some(SandboxMsg::Error(t)) if t == "bad"));
    assert_eq!(s.termination(), None);
}

#[test]
fn errors_are_put_out_only_where_they_were_asked_for() {
    let mut s = SandboxSession::new();
    s.report_errors(false);
    assert!(s.error("bad".to_string()).is_none());
    assert!(s.print("hi".to_string()).is_some());
    s.report_errors(true);
    assert!(s.error("bad".to_string()).is_some());
}

#[test]
fn unknown_reason_is_an_error_and_changes_nothing() {
    let mut s = SandboxSession::new();
    let e = s.terminate("boom").unwrap_err();
    assert_eq!(e.message(), "unknown termination reason: \"boom\"");
    assert_eq!(s.termination(), None);
    assert!(s.print("x".to_string()).is_some());
}

#[test]
fn first_termination_counts() {
    let mut s = SandboxSession::new();
    let first = s.terminate("done").unwrap();
    assert!(matches!(
        first,
        Some(SandboxMsg::Terminated(SandboxTerminationReason::Done))
    ));
    let second = s.terminate("time").unwrap();
    assert!(second.is_none());
    assert_eq!(s.termination(), Some(SandboxTerminationReason::Done));
}

#[test]
fn quota_reached_ends_the_session_and_silences_it() {
    let mut s = SandboxSession::new();
    s.set_instructions_run(262143);
    assert!(!s.quota_exceeded());
    assert!(s.check_quota().is_none());
    s.set_instructions_run(262144);
    assert!(s.quota_exceeded());
    let msg = s.check_quota();
    assert!(matches!(
        msg,
        Some(SandboxMsg::Terminated(SandboxTerminationReason::ExecutionQuota))
    ));
    assert_eq!(s.termination(), Some(SandboxTerminationReason::ExecutionQuota));
    assert!(s.print("late".to_string()).is_none());
    assert!(s.error("late".to_string()).is_none());
    assert!(s.check_quota().is_none());
    assert!(s.terminate("done").unwrap().is_none());
    assert_eq!(s.termination(), Some(SandboxTerminationReason::ExecutionQuota));
}

#[test]
fn quota_of_any_budget() {
    let mut limits = SandboxLimits::new();
    limits.instructions = 5;
    let mut s = SandboxSession::with_limits(limits);
    assert_eq!(s.get_instruction_limit(), 5);
    s.set_instructions_run(9);
    assert_eq!(s.get_instructions_run(), 9);
    assert!(s.check_quota().is_some());
}

#[test]
fn quotas_are_never_filled_up() {
    let mut s = SandboxSession::new();
    let mut l = s.limits();
    l.lines_left = 4;
    assert!(s.update_limits(l));
    assert_eq!(s.limits().lines_left, 4);
    l.lines_left = 5;
    assert!(!s.update_limits(l));
    assert_eq!(s.limits().lines_left, 4);
    l.lines_left = 4;
    l.instructions = 1;
    assert!(!s.update_limits(l));
}

#[test]
fn engine_constants() {
    assert_eq!(MEMORY_LIMIT, 256 * 1024 * 1024);
    assert_eq!(TICK_MS, 50);
    assert_eq!(HTTP_CALLS_PER_SECOND, 2);
}

#[test]
fn only_the_sandbox_runs_sessions() {
    let mut host = EngineInstance::new(EngineRole::Host);
    assert!(host.run().is_none());
    assert_eq!(host.current_session(), None);
    assert_eq!(host.kind(), EngineRole::Host);

    let mut sandbox = EngineInstance::new(EngineRole::Sandbox);
    let (first, session) = sandbox.run().unwrap();
    assert_eq!(session.limits(), SandboxLimits::new());
    assert_eq!(sandbox.current_session(), Some(first));
    let (second, _) = sandbox.run().unwrap();
    assert_eq!((first, second), (0, 1));
    assert_eq!(sandbox.current_session(), Some(second));
    sandbox.set_state(first);
    assert_eq!(sandbox.current_session(), Some(first));
}

#[test]
fn operations_run_on_behalf_of_the_current_session() {
    let mut sandbox = EngineInstance::new(EngineRole::Sandbox);
    let free = sandbox.start_async().unwrap();
    let (id, _) = sandbox.run().unwrap();
    let owned = sandbox.start_async().unwrap();
    assert!(free != owned);
    let out = sandbox.drain_completed(vec![
        kaito::modules::lua::bridge::Completion { handle: owned, outcome: Ok(1u8) },
        kaito::modules::lua::bridge::Completion { handle: free, outcome: Ok(2u8) },
    ]);
    assert!(matches!(
        &out[..],
        [
            kaito::modules::lua::bridge::Delivery::ViaSession(s, h, Ok(1)),
            kaito::modules::lua::bridge::Delivery::Direct(f, Ok(2))
        ] if *s == id && *h == owned && *f == free
    ));
}

#[test]
fn only_the_host_keeps_threads() {
    let mut sandbox = EngineInstance::new(EngineRole::Sandbox);
    assert_eq!(sandbox.dispatch_event(EventKind::Message, None, true), None);
    assert!(sandbox.waiting().is_empty());
    assert_eq!(sandbox.think(), vec![TickStep::CallHook, TickStep::DrainCompleted]);

    let mut host = EngineInstance::new(EngineRole::Host);
    assert_eq!(host.gen_thread_id(), 0);
    let id = host.dispatch_event(EventKind::Message, None, true).unwrap();
    assert_eq!(id, 1);
    // a thread that does not wait takes no number, one that waits does
    assert_eq!(host.dispatch_event(EventKind::Message, None, false), None);
    assert_eq!(host.dispatch_event(EventKind::Message, None, true), Some(2));
    assert_eq!(host.gen_thread_id(), 3);
    assert!(matches!(host.after_resume(2, None, false), ThreadReport::Quiet));
    assert_eq!(host.waiting(), vec![id]);
    assert!(matches!(host.after_resume(id, None, false), ThreadReport::Quiet));
    assert!(host.waiting().is_empty());
}

#[test]
fn a_restarted_engine_is_empty() {
    let mut sandbox = EngineInstance::new(EngineRole::Sandbox);
    let (first, _) = sandbox.run().unwrap();
    let handle = sandbox.start_async().unwrap();
    sandbox.restart();
    assert_eq!(sandbox.current_session(), None);
    assert_eq!(sandbox.kind(), EngineRole::Sandbox);
    // what was under way reaches nobody
    let out = sandbox.drain_completed(vec![kaito::modules::lua::bridge::Completion {
        handle,
        outcome: Ok(0u8),
    }]);
    assert!(matches!(&out[..], [kaito::modules::lua::bridge::Delivery::Stale]));
    let (second, _) = sandbox.run().unwrap();
    assert!(second != first);
}
