use kaito::modules::lua::bridge::{
    AsyncError, AsyncRegistry, Completion, Delivery, EngineRole,
};
use kaito::table::Slots;

fn ok(handle: u64, v: &str) -> Completion<String> {
    Completion { handle, outcome: Ok(v.to_string()) }
}

#[test]
fn handles_are_unique_among_live_ones() {
    let mut r = AsyncRegistry::new(EngineRole::Host);
    let a = r.start(None).unwrap();
    let b = r.start(None).unwrap();
    let c = r.start(Some(7)).unwrap();
    assert!(a != b && b != c && a != c);
    assert!(r.is_live(a) && r.is_live(b) && r.is_live(c));
    assert_eq!(r.session_of(c), Some(Some(7)));
    assert_eq!(r.session_of(a), Some(None));
    assert_eq!(r.session_of(99), None);
}

#[test]
fn released_handles_can_be_used_again() {
    let mut r = AsyncRegistry::new(EngineRole::Host);
    let a = r.start(None).unwrap();
    assert!(r.release(a));
    let b = r.start(None).unwrap();
    assert_eq!(a, b);
}

#[test]
fn releasing_twice_is_releasing_once() {
    let mut r = AsyncRegistry::new(EngineRole::Host);
    let a = r.start(None).unwrap();
    let b = r.start(None).unwrap();
    assert!(r.release(a));
    assert!(!r.release(a));
    assert!(!r.is_live(a));
    assert!(r.is_live(b));
    // a result for the released handle reaches nobody
    assert!(matches!(r.complete(ok(a, "x")), Delivery::Stale));
    assert!(r.is_live(b));
}

#[test]
fn a_result_is_delivered_once() {
    let mut r = AsyncRegistry::new(EngineRole::Host);
    let a = r.start(None).unwrap();
    match r.complete(ok(a, "v")) {
        Delivery::Direct(h, Ok(v)) => {
            assert_eq!(h, a);
            assert_eq!(v, "v");
        }
        _ => panic!(),
    }
    assert!(!r.is_live(a));
    assert!(matches!(r.complete(ok(a, "again")), Delivery::Stale));
}

#[test]
fn errors_arrive_as_text() {
    let mut r = AsyncRegistry::new(EngineRole::Host);
    let a = r.start(None).unwrap();
    let c: Completion<String> = Completion { handle: a, outcome: Err("boom".into()) };
    assert!(matches!(r.complete(c), Delivery::Direct(_, Err(e)) if e == "boom"));
}

#[test]
fn sandbox_results_go_through_their_session() {
    let mut r = AsyncRegistry::new(EngineRole::Sandbox);
    let a = r.start(Some(5)).unwrap();
    let b = r.start(None).unwrap();
    assert!(matches!(r.complete(ok(a, "v")), Delivery::ViaSession(5, h, Ok(_)) if h == a));
    // on nobody's behalf the future is reached directly
    assert!(matches!(r.complete(ok(b, "v")), Delivery::Direct(h, Ok(_)) if h == b));
    assert!(!r.is_live(a) && !r.is_live(b));
}

#[test]
fn every_result_of_a_live_operation_reaches_its_future() {
    for role in [EngineRole::Host, EngineRole::Sandbox] {
        for session in [None, Some(3)] {
            let mut r = AsyncRegistry::new(role);
            let a = r.start(session).unwrap();
            let good = r.complete(ok(a, "v"));
            assert!(matches!(
                good,
                Delivery::Direct(h, Ok(_)) | Delivery::ViaSession(_, h, Ok(_)) if h == a
            ));
            let b = r.start(session).unwrap();
            let bad = r.complete(Completion::<String> { handle: b, outcome: Err("no".into()) });
            assert!(matches!(
                bad,
                Delivery::Direct(h, Err(_)) | Delivery::ViaSession(_, h, Err(_)) if h == b
            ));
        }
    }
}

#[test]
fn results_are_served_in_the_order_of_the_queue() {
    for flip in [false, true] {
        let mut r = AsyncRegistry::new(EngineRole::Host);
        let a = r.start(None).unwrap();
        let b = r.start(None).unwrap();
        let queue = if flip {
            vec![ok(b, "b"), ok(a, "a")]
        } else {
            vec![ok(a, "a"), ok(b, "b")]
        };
        let order: Vec<u64> = queue.iter().map(|c| c.handle).collect();
        let out = r.drain_completed(queue);
        assert_eq!(out.len(), 2);
        for (d, h) in out.iter().zip(order) {
            assert!(matches!(d, Delivery::Direct(x, Ok(_)) if *x == h));
        }
        assert!(!r.is_live(a) && !r.is_live(b));
    }
}

#[test]
fn one_result_does_not_wait_for_another() {
    let mut r = AsyncRegistry::new(EngineRole::Host);
    let a = r.start(None).unwrap();
    let b = r.start(None).unwrap();
    let out = r.drain_completed(vec![ok(b, "b")]);
    assert!(matches!(&out[..], [Delivery::Direct(h, Ok(_))] if *h == b));
    assert!(r.is_live(a));
    let out = r.drain_completed(Vec::<Completion<String>>::new());
    assert!(out.is_empty());
}

#[test]
fn a_second_result_in_one_queue_is_stale() {
    let mut r = AsyncRegistry::new(EngineRole::Host);
    let a = r.start(None).unwrap();
    let out = r.drain_completed(vec![ok(a, "1"), ok(a, "2")]);
    assert!(matches!(&out[..], [Delivery::Direct(_, _), Delivery::Stale]));
}

#[test]
fn error_words() {
    assert_eq!(AsyncError::InvalidDuration.message(), "invalid duration");
    assert_eq!(AsyncError::FutureError("why".into()).message(), "why");
}

#[test]
fn table_holds_each_key_once() {
    let mut t: Slots<u8> = Slots::new();
    assert_eq!(t.fresh_key(), Some(0));
    t.insert(3, 1);
    t.insert(1, 2);
    t.insert(3, 9);
    assert_eq!(t.len(), 2);
    assert_eq!(t.get(3), Some(9));
    assert_eq!(t.get(1), Some(2));
    assert_eq!(t.get(2), None);
    assert_eq!(t.keys(), vec![1, 3]);
    assert_eq!(t.fresh_key(), Some(4));
    assert_eq!(t.remove(1), Some(2));
    assert_eq!(t.remove(1), None);
    assert_eq!(t.keys(), vec![3]);
    t.insert(u64::MAX, 0);
    assert_eq!(t.fresh_key(), None);
}
