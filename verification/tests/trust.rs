use kaito::bot::db::{check_role, u64_from_le, u64_to_le, user_from_row, Tag, User};
use kaito::bot::{is_role, is_trusted_role, roles, DEFAULT_ROLE};
use kaito::modules::lua::trust::{PendingTrustCtx, Trust, TrustCtx, TrustScope};
use kaito::services::UserId;

fn user(role: &str) -> User {
    User { uid: 1, role: role.to_string(), discord_id: Some(2) }
}

#[test]
fn roles_in_order() {
    assert_eq!(roles(), vec!["guest", "trusted", "admin", "root"]);
    assert_eq!(DEFAULT_ROLE, "guest");
    for r in roles() {
        assert!(is_role(r));
    }
    assert!(!is_role("Guest"));
    assert!(!is_role(""));
    assert!(!is_trusted_role("guest"));
    assert!(is_trusted_role("trusted"));
    assert!(is_trusted_role("admin"));
    assert!(is_trusted_role("root"));
    assert!(!is_trusted_role("owner"));
}

#[test]
fn own_code_runs_with_the_trust_in_the_author() {
    let ctx = PendingTrustCtx::new(&user("admin"), None);
    assert_eq!(ctx.needs_owner(), None);
    assert!(ctx.resolve(None).trusted);
    let ctx = PendingTrustCtx::new(&user("guest"), None);
    assert!(!ctx.resolve(None).trusted);
    // what the store knows of anybody else does not matter
    assert!(!ctx.resolve(Some(&user("root"))).trusted);
}

#[test]
fn code_of_somebody_else_runs_with_the_trust_in_its_owner() {
    let ctx = PendingTrustCtx::new(&user("root"), Some(9));
    assert_eq!(ctx.needs_owner(), Some(9));
    assert!(!ctx.resolve(Some(&user("guest"))).trusted);
    assert!(ctx.resolve(Some(&user("trusted"))).trusted);
    // an owner of whom the store knows nothing is not trusted
    assert!(!ctx.resolve(None).trusted);
    let ctx = PendingTrustCtx::new(&user("guest"), Some(9));
    assert!(ctx.resolve(Some(&user("admin"))).trusted);
}

#[test]
fn the_innermost_call_counts() {
    let mut scope = TrustScope::new();
    assert_eq!(scope.find_trust_context(), None);
    assert!(!scope.is_in_trusted_context());
    scope.enter(TrustCtx { trusted: true });
    assert!(scope.is_in_trusted_context());
    scope.enter(TrustCtx { trusted: false });
    assert!(!scope.is_in_trusted_context());
    assert_eq!(scope.find_trust_context(), Some(TrustCtx { trusted: false }));
    assert_eq!(scope.leave(), Some(TrustCtx { trusted: false }));
    assert!(scope.is_in_trusted_context());
    assert_eq!(scope.leave(), Some(TrustCtx { trusted: true }));
    assert_eq!(scope.leave(), None);
    assert!(!TrustCtx::default().trusted);
}

#[test]
fn rows_become_users() {
    let u = user_from_row(5, Some("admin".into()), Some(vec![1, 0, 0, 0, 0, 0, 0, 0]));
    assert_eq!(u.uid, 5);
    assert_eq!(u.role, "admin");
    assert_eq!(u.discord_id, Some(1));
    assert_eq!(u.service_user_id(), UserId::Discord(1));
    let u = user_from_row(5, Some("king".into()), None);
    assert_eq!(u.role, "guest");
    assert_eq!(u.discord_id, None);
    let u = user_from_row(-5, None, Some(vec![0xff; 9]));
    assert_eq!(u.role, "guest");
    assert_eq!(u.discord_id, Some(u64::MAX));
}

#[test]
fn numbers_in_eight_bytes() {
    for n in [0u64, 1, 255, 256, 0x0102030405060708, u64::MAX, 1 << 63] {
        assert_eq!(u64_to_le(n), n.to_le_bytes().to_vec());
        assert_eq!(u64_from_le(&n.to_le_bytes().to_vec()), n);
    }
    assert_eq!(u64_from_le(&vec![1, 2, 3, 4, 5, 6, 7, 8, 9, 10]), 0x0807060504030201);
}

#[test]
fn only_roles_that_exist_are_given() {
    assert!(check_role("root").is_ok());
    let e = check_role("king").unwrap_err();
    assert_eq!(e.message(), "unknown role \"king\"");
}

#[test]
fn a_tag_is_what_it_holds() {
    let t = Tag { key: "k".into(), uid: 1, sid: 2, transfer_uid: None, value: "v".into() };
    assert_eq!((t.key.as_str(), t.uid, t.sid, t.transfer_uid, t.value.as_str()),
        ("k", 1, 2, None, "v"));
}
