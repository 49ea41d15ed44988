use deepwell::error::AuthError;
use deepwell::session::SessionManager;

fn s(v: &str) -> String {
    v.to_string()
}

fn add(m: &mut SessionManager, token: &str, user: i64, restricted: bool, now: i64) {
    m.create(s(token), user, s("127.0.0.1"), s("agent"), restricted, now).unwrap();
}

#[test]
fn create_then_verify() {
    let mut m = SessionManager::new();
    let t = m.create(s("abc"), 1, s("1.2.3.4"), s("curl"), false, 50).unwrap();
    assert_eq!(t, "abc");
    assert_eq!(m.verify(&s("abc"), None), Ok(false));
    assert_eq!(m.verify(&s("abc"), Some(1)), Ok(false));
    assert_eq!(m.verify(&s("abc"), Some(2)), Err(AuthError::SessionInvalid));
    assert_eq!(m.verify(&s("zzz"), None), Err(AuthError::SessionInvalid));
    let all = m.get_all(1);
    assert_eq!(all.len(), 1);
    assert_eq!(all[0].ip_address, "1.2.3.4");
    assert_eq!(all[0].user_agent, "curl");
    assert_eq!(all[0].created_at, 50);
    assert_eq!(all[0].revoked_at, None);
}

#[test]
fn create_refuses_known_token() {
    let mut m = SessionManager::new();
    add(&mut m, "abc", 1, false, 1);
    m.invalidate(&s("abc"), 2);
    let r = m.create(s("abc"), 2, s("ip"), s("ua"), false, 3);
    assert_eq!(r, Err(AuthError::ServerError));
    assert_eq!(m.len(), 1);
}

#[test]
fn renew_rotates_token() {
    let mut m = SessionManager::new();
    add(&mut m, "old", 4, true, 10);
    let new = m.renew(&s("old"), 4, s("9.9.9.9"), s("new-agent"), s("new"), 20).unwrap();
    assert_eq!(new, "new");
    assert_eq!(m.verify(&s("old"), None), Err(AuthError::SessionInvalid));
    assert_eq!(m.verify(&s("old"), Some(4)), Err(AuthError::SessionInvalid));
    assert_eq!(m.verify(&s("new"), Some(4)), Ok(false));
    let all = m.get_all(4);
    assert_eq!(all.len(), 2);
    assert_eq!(all[0].session_token, "new");
    assert_eq!(all[0].ip_address, "9.9.9.9");
    assert!(!all[0].restricted);
    assert_eq!(all[1].session_token, "old");
    assert_eq!(all[1].revoked_at, Some(20));
}

#[test]
fn renew_failures_change_nothing() {
    let mut m = SessionManager::new();
    add(&mut m, "a", 1, false, 1);
    add(&mut m, "b", 1, false, 2);
    assert_eq!(
        m.renew(&s("a"), 2, s("ip"), s("ua"), s("c"), 3),
        Err(AuthError::SessionInvalid)
    );
    assert_eq!(
        m.renew(&s("missing"), 1, s("ip"), s("ua"), s("c"), 3),
        Err(AuthError::SessionInvalid)
    );
    assert_eq!(
        m.renew(&s("a"), 1, s("ip"), s("ua"), s("b"), 3),
        Err(AuthError::ServerError)
    );
    assert_eq!(m.verify(&s("a"), Some(1)), Ok(false));
    assert_eq!(m.len(), 2);
    m.invalidate(&s("a"), 4);
    assert_eq!(
        m.renew(&s("a"), 1, s("ip"), s("ua"), s("c"), 5),
        Err(AuthError::SessionInvalid)
    );
}

#[test]
fn invalidate_is_idempotent() {
    let mut m = SessionManager::new();
    add(&mut m, "a", 1, false, 1);
    m.invalidate(&s("a"), 5);
    m.invalidate(&s("a"), 9);
    m.invalidate(&s("never-issued"), 9);
    assert_eq!(m.verify(&s("a"), None), Err(AuthError::SessionInvalid));
    let all = m.get_all(1);
    assert_eq!(all.len(), 1);
    assert_eq!(all[0].revoked_at, Some(5));
}

#[test]
fn invalidate_others_counts_live_sessions() {
    let mut m = SessionManager::new();
    add(&mut m, "keep", 1, false, 1);
    add(&mut m, "o1", 1, false, 2);
    add(&mut m, "o2", 1, true, 3);
    add(&mut m, "o3", 1, false, 4);
    add(&mut m, "other-user", 2, false, 5);
    m.invalidate(&s("o3"), 6);
    assert_eq!(m.invalidate_others(&s("keep"), 1, 7), Ok(2));
    assert_eq!(m.verify(&s("keep"), Some(1)), Ok(false));
    assert_eq!(m.verify(&s("o1"), None), Err(AuthError::SessionInvalid));
    assert_eq!(m.verify(&s("o2"), None), Err(AuthError::SessionInvalid));
    assert_eq!(m.verify(&s("other-user"), Some(2)), Ok(false));
    // o3 keeps its first revocation time.
    let all = m.get_all(1);
    assert_eq!(all[0].session_token, "o3");
    assert_eq!(all[0].revoked_at, Some(6));
    assert_eq!(m.invalidate_others(&s("keep"), 1, 8), Ok(0));
}

#[test]
fn invalidate_others_needs_own_live_token() {
    let mut m = SessionManager::new();
    add(&mut m, "a", 1, false, 1);
    add(&mut m, "b", 2, false, 2);
    assert_eq!(m.invalidate_others(&s("b"), 1, 3), Err(AuthError::SessionInvalid));
    assert_eq!(m.invalidate_others(&s("x"), 1, 3), Err(AuthError::SessionInvalid));
    assert_eq!(m.verify(&s("a"), Some(1)), Ok(false));
}

#[test]
fn get_all_is_newest_first_and_keeps_revoked() {
    let mut m = SessionManager::new();
    add(&mut m, "first", 3, false, 100);
    add(&mut m, "x", 4, false, 150);
    add(&mut m, "second", 3, false, 200);
    // A clock reading from the past is raised to the newest creation time.
    add(&mut m, "third", 3, false, 120);
    m.invalidate(&s("first"), 300);
    let all = m.get_all(3);
    let tokens: Vec<&str> = all.iter().map(|x| x.session_token.as_str()).collect();
    assert_eq!(tokens, vec!["third", "second", "first"]);
    assert_eq!(all[0].created_at, 200);
    assert_eq!(all[2].revoked_at, Some(300));
    assert!(m.get_all(99).is_empty());
}

#[test]
fn get_user_respects_restriction() {
    let mut m = SessionManager::new();
    add(&mut m, "r", 8, true, 1);
    assert_eq!(m.get_user(&s("r"), false), Err(AuthError::SessionInvalid));
    assert_eq!(m.get_user(&s("r"), true), Ok(8));
    assert_eq!(m.get_user(&s("none"), true), Err(AuthError::SessionInvalid));
}
