use deepwell::auth::AuthService;
use deepwell::credential::CredentialRecord;
use deepwell::error::AuthError;
use deepwell::mfa::MfaManager;
use deepwell::session::SessionManager;

fn s(v: &str) -> String {
    v.to_string()
}

#[test]
fn setup_returns_what_it_stores() {
    let mut m = MfaManager::new();
    assert!(!m.is_enrolled(1));
    let out = m.setup(1, s("SEED"), vec![s("a"), s("b")]);
    assert_eq!(out.totp_secret, "SEED");
    assert_eq!(out.recovery_codes, vec![s("a"), s("b")]);
    assert!(m.is_enrolled(1));
}

#[test]
fn disable_is_idempotent() {
    let mut m = MfaManager::new();
    m.setup(1, s("SEED"), vec![s("a")]);
    m.disable(1);
    assert!(!m.is_enrolled(1));
    m.disable(1);
    assert!(!m.is_enrolled(1));
}

#[test]
fn reset_without_enrollment_is_not_found() {
    let mut m = MfaManager::new();
    assert_eq!(m.reset_recovery_codes(4, vec![s("x")]), Err(AuthError::NotFound));
}

#[test]
fn recovery_code_cannot_be_used_twice() {
    let mut sessions = SessionManager::new();
    sessions.create(s("r"), 1, s("ip"), s("ua"), true, 1).unwrap();
    let mut m = MfaManager::new();
    m.setup(1, s("SEED"), vec![s("code-a"), s("code-b")]);
    assert_eq!(m.verify(&sessions, &s("r"), &s("code-a"), false), Ok(1));
    assert_eq!(m.verify(&sessions, &s("r"), &s("code-a"), false), Err(AuthError::MfaInvalid));
    assert_eq!(m.verify(&sessions, &s("r"), &s("code-b"), false), Ok(1));
    assert_eq!(m.verify(&sessions, &s("r"), &s("code-b"), false), Err(AuthError::MfaInvalid));
    // A valid time-based code still works.
    assert_eq!(m.verify(&sessions, &s("r"), &s("123456"), true), Ok(1));
}

#[test]
fn reset_voids_earlier_codes() {
    let mut sessions = SessionManager::new();
    sessions.create(s("r"), 1, s("ip"), s("ua"), true, 1).unwrap();
    let mut m = MfaManager::new();
    m.setup(1, s("SEED"), vec![s("old-1"), s("old-2")]);
    let fresh = m.reset_recovery_codes(1, vec![s("new-1")]).unwrap();
    assert_eq!(fresh, vec![s("new-1")]);
    assert_eq!(m.verify(&sessions, &s("r"), &s("old-1"), false), Err(AuthError::MfaInvalid));
    assert_eq!(m.verify(&sessions, &s("r"), &s("old-2"), false), Err(AuthError::MfaInvalid));
    assert_eq!(m.verify(&sessions, &s("r"), &s("new-1"), false), Ok(1));
    // The seed is kept.
    assert_eq!(m.pending_secret(&sessions, &s("r")), Ok(s("SEED")));
}

#[test]
fn facade_disable_and_reset() {
    let mut auth = AuthService::new();
    auth.mfa.setup(2, s("SEED"), vec![s("c1")]);
    let rec = Some(CredentialRecord { user_id: 2, password_digest: s("d"), mfa_enabled: false });
    auth.login(&rec, &s("pw"), true, s("ip"), s("ua"), s("full"), 1).unwrap();
    assert_eq!(auth.mfa_reset_recovery(&s("full"), vec![s("c2")]), Ok(vec![s("c2")]));
    assert_eq!(auth.mfa_reset_recovery(&s("bogus"), vec![s("c3")]), Err(AuthError::SessionInvalid));
    assert_eq!(auth.mfa_disable(&s("full")), Ok(()));
    assert!(!auth.mfa.is_enrolled(2));
    assert_eq!(auth.mfa_reset_recovery(&s("full"), vec![s("c4")]), Err(AuthError::NotFound));
    assert_eq!(auth.mfa_disable(&s("full")), Ok(()));
}
