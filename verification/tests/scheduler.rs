use kaito::modules::lua::bridge::EngineRole;
use kaito::modules::lua::scheduler::{
    shutdown_pending, tick_plan, EventKind, Shutdown, ShutdownStep, ThreadRegistry, ThreadReport,
    TickStep,
};
use kaito::services::ChannelId;

#[test]
fn raising_thread_with_destination_posts_once_and_leaves() {
    let mut r = ThreadRegistry::new();
    let ch = ChannelId::Discord(5);
    let id = r.register(true, Some(ch)).unwrap();
    assert_eq!(r.waiting(), vec![id]);
    match r.after_resume(id, Some("boom @everyone".into()), false) {
        ThreadReport::Post(c, text) => {
            assert_eq!(c, ch);
            assert_eq!(text, "boom @\u{200B}everyone");
        }
        other => panic!("{:?}", other),
    }
    assert!(r.waiting().is_empty());
    assert_eq!(r.reply_to(id), None);
}

#[test]
fn raising_thread_without_destination_is_logged() {
    let mut r = ThreadRegistry::new();
    let id = r.register(true, None).unwrap();
    match r.after_resume(id, Some("boom".into()), false) {
        ThreadReport::Log(text) => assert_eq!(text, "boom"),
        other => panic!("{:?}", other),
    }
    assert!(r.waiting().is_empty());
}

#[test]
fn a_thread_that_raised_is_never_resumed_again() {
    let mut r = ThreadRegistry::new();
    let id = r.register(true, None).unwrap();
    r.after_resume(id, Some("boom".into()), true);
    assert!(r.waiting().is_empty());
}

#[test]
fn suspended_threads_stay_and_finished_ones_leave() {
    let mut r = ThreadRegistry::new();
    let a = r.register(true, None).unwrap();
    let b = r.register(true, Some(ChannelId::Discord(1))).unwrap();
    assert_eq!((a, b), (0, 1));
    assert_eq!(r.reply_to(a), None);
    assert!(matches!(r.after_resume(a, None, true), ThreadReport::Quiet));
    assert_eq!(r.waiting(), vec![a, b]);
    assert!(matches!(r.after_resume(a, None, false), ThreadReport::Quiet));
    assert_eq!(r.waiting(), vec![b]);
    assert_eq!(r.reply_to(b), Some(ChannelId::Discord(1)));
}

#[test]
fn a_thread_that_ran_to_its_end_is_not_kept() {
    let mut r = ThreadRegistry::new();
    assert_eq!(r.register(false, Some(ChannelId::Discord(1))), None);
    assert!(r.waiting().is_empty());
    // and takes no number
    assert_eq!(r.register(true, None), Some(0));
}

#[test]
fn numbers_are_shared_with_the_scripts() {
    let mut r = ThreadRegistry::new();
    assert_eq!(r.gen_thread_id(), 0);
    assert_eq!(r.gen_thread_id(), 1);
    assert_eq!(r.register(true, None), Some(2));
}

#[test]
fn events_and_their_handlers() {
    assert_eq!(EventKind::Loaded.handler(), "on_loaded");
    assert_eq!(EventKind::Command.handler(), "on_command");
    assert_eq!(EventKind::Message.handler(), "on_message");
    assert_eq!(EventKind::Reaction.handler(), "on_reaction");
    let ch = ChannelId::Discord(3);
    let mut r = ThreadRegistry::new();
    let a = r.dispatch_event(EventKind::Message, Some(ch), true).unwrap();
    let b = r.dispatch_event(EventKind::Loaded, Some(ch), true).unwrap();
    assert_eq!(r.reply_to(a), Some(ch));
    assert_eq!(r.reply_to(b), None);
    assert_eq!(r.dispatch_event(EventKind::Command, Some(ch), false), None);
}

#[test]
fn what_a_tick_does() {
    assert_eq!(
        tick_plan(EngineRole::Host),
        vec![TickStep::CallHook, TickStep::ResumeThreads, TickStep::DrainCompleted]
    );
    assert_eq!(
        tick_plan(EngineRole::Sandbox),
        vec![TickStep::CallHook, TickStep::DrainCompleted]
    );
}

#[test]
fn shutting_down() {
    let mut s = Shutdown::new(EngineRole::Host);
    assert_eq!(s.request(), ShutdownStep::StartHook);
    assert!(shutdown_pending(ShutdownStep::StartHook));
    assert_eq!(s.request(), ShutdownStep::DrainThenCheck);
    assert_eq!(s.after_drain(true), ShutdownStep::ResumeHook);
    assert!(shutdown_pending(ShutdownStep::ResumeHook));
    assert_eq!(s.request(), ShutdownStep::DrainThenCheck);
    assert_eq!(s.after_drain(false), ShutdownStep::Complete);
    assert!(!shutdown_pending(ShutdownStep::Complete));

    let mut s = Shutdown::new(EngineRole::Sandbox);
    assert_eq!(s.request(), ShutdownStep::Complete);
    assert_eq!(s.request(), ShutdownStep::Complete);
}
