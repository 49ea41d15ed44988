use deepwell::auth::AuthService;
use deepwell::credential::{
    authenticate_password, digest_for_check, login_error, AuthenticateUserOutput,
    CredentialRecord, DUMMY_PASSWORD_DIGEST,
};
use deepwell::error::AuthError;

fn s(v: &str) -> String {
    v.to_string()
}

fn record(user_id: i64, mfa_enabled: bool) -> Option<CredentialRecord> {
    Some(CredentialRecord {
        user_id,
        password_digest: s("digest-of-user"),
        mfa_enabled,
    })
}

#[test]
fn empty_password_is_invalid_authentication() {
    let mut auth = AuthService::new();
    let r = auth.login(&record(1, false), &s(""), true, s("10.0.0.1"), s("ua"), s("tok-1"), 100);
    assert_eq!(r.err(), Some(AuthError::InvalidAuthentication));
    assert_eq!(auth.sessions.len(), 0);
    assert_eq!(
        digest_for_check(&record(1, false), &s("")),
        Err(AuthError::InvalidAuthentication)
    );
}

#[test]
fn login_without_mfa_gives_full_session() {
    let mut auth = AuthService::new();
    let out = auth
        .login(&record(7, false), &s("hunter2"), true, s("10.0.0.1"), s("ua"), s("tok-full"), 100)
        .unwrap();
    assert_eq!(out.session_token, "tok-full");
    assert!(!out.needs_mfa);
    assert_eq!(auth.sessions.verify(&s("tok-full"), Some(7)), Ok(false));
    assert_eq!(auth.sessions.get_user(&s("tok-full"), false), Ok(7));
}

#[test]
fn unknown_login_and_wrong_password_fail_alike() {
    let mut auth = AuthService::new();
    let pw = s("guess");
    // Both paths are handed a digest to compare.
    assert_eq!(digest_for_check(&None, &pw), Ok(s(DUMMY_PASSWORD_DIGEST)));
    assert_eq!(digest_for_check(&record(3, false), &pw), Ok(s("digest-of-user")));
    let absent = auth.login(&None, &pw, false, s("ip"), s("ua"), s("t1"), 1);
    let wrong = auth.login(&record(3, false), &pw, false, s("ip"), s("ua"), s("t2"), 1);
    assert_eq!(absent.err(), Some(AuthError::InvalidAuthentication));
    assert_eq!(wrong.err(), Some(AuthError::InvalidAuthentication));
    // Even a digest "match" against the dummy digest never logs anyone in.
    let absent_match = auth.login(&None, &pw, true, s("ip"), s("ua"), s("t3"), 1);
    assert_eq!(absent_match.err(), Some(AuthError::InvalidAuthentication));
    assert_eq!(auth.sessions.len(), 0);
}

#[test]
fn authenticate_password_reports_mfa_flag() {
    assert_eq!(
        authenticate_password(&record(9, true), &s("pw"), true),
        Ok(AuthenticateUserOutput { needs_mfa: true, user_id: 9 })
    );
    assert_eq!(
        authenticate_password(&record(9, false), &s("pw"), true),
        Ok(AuthenticateUserOutput { needs_mfa: false, user_id: 9 })
    );
    assert_eq!(
        authenticate_password(&record(9, true), &s(""), true),
        Err(AuthError::InvalidAuthentication)
    );
}

#[test]
fn login_errors_collapse_to_two_kinds() {
    assert_eq!(login_error(AuthError::InvalidAuthentication), AuthError::InvalidAuthentication);
    assert_eq!(login_error(AuthError::NotFound), AuthError::ServerError);
    assert_eq!(login_error(AuthError::SessionInvalid), AuthError::ServerError);
    assert_eq!(login_error(AuthError::MfaInvalid), AuthError::ServerError);
    assert_eq!(login_error(AuthError::ServerError), AuthError::ServerError);
}

#[test]
fn login_with_reused_token_is_server_error() {
    let mut auth = AuthService::new();
    auth.login(&record(1, false), &s("pw"), true, s("ip"), s("ua"), s("same"), 1).unwrap();
    let r = auth.login(&record(2, false), &s("pw"), true, s("ip"), s("ua"), s("same"), 2);
    assert_eq!(r.err(), Some(AuthError::ServerError));
    assert_eq!(auth.sessions.len(), 1);
}

#[test]
fn mfa_login_flow() {
    let mut auth = AuthService::new();
    auth.mfa.setup(5, s("SEED"), vec![s("rc-1"), s("rc-2")]);
    let out = auth
        .login(&record(5, true), &s("pw"), true, s("ip"), s("ua"), s("t-restricted"), 10)
        .unwrap();
    assert!(out.needs_mfa);
    assert_eq!(out.session_token, "t-restricted");
    // A restricted session is refused for ordinary access.
    assert_eq!(auth.sessions.verify(&s("t-restricted"), Some(5)), Ok(true));
    assert_eq!(
        auth.sessions.get_user(&s("t-restricted"), false),
        Err(AuthError::SessionInvalid)
    );
    assert_eq!(
        auth.mfa_disable(&s("t-restricted")),
        Err(AuthError::SessionInvalid)
    );
    assert_eq!(auth.mfa.pending_secret(&auth.sessions, &s("t-restricted")), Ok(s("SEED")));
    // Wrong code.
    let bad = auth.mfa_verify(&s("t-restricted"), &s("000000"), false, s("ip"), s("ua"), s("t-full"), 11);
    assert_eq!(bad, Err(AuthError::MfaInvalid));
    assert_eq!(auth.sessions.verify(&s("t-restricted"), Some(5)), Ok(true));
    assert!(!auth.sessions.contains_token(&s("t-full")));
    // Correct time-based code.
    let full = auth
        .mfa_verify(&s("t-restricted"), &s("123456"), true, s("ip2"), s("ua2"), s("t-full"), 12)
        .unwrap();
    assert_eq!(full, "t-full");
    assert_eq!(
        auth.sessions.verify(&s("t-restricted"), None),
        Err(AuthError::SessionInvalid)
    );
    assert_eq!(auth.sessions.verify(&s("t-full"), Some(5)), Ok(false));
    assert_eq!(auth.sessions.get_user(&s("t-full"), false), Ok(5));
}

#[test]
fn mfa_verify_with_recovery_code_consumes_it() {
    let mut auth = AuthService::new();
    auth.mfa.setup(5, s("SEED"), vec![s("rc-1"), s("rc-2")]);
    auth.login(&record(5, true), &s("pw"), true, s("ip"), s("ua"), s("r1"), 1).unwrap();
    auth.login(&record(5, true), &s("pw"), true, s("ip"), s("ua"), s("r2"), 2).unwrap();
    let t = auth.mfa_verify(&s("r1"), &s("rc-1"), false, s("ip"), s("ua"), s("f1"), 3);
    assert_eq!(t, Ok(s("f1")));
    let again = auth.mfa_verify(&s("r2"), &s("rc-1"), false, s("ip"), s("ua"), s("f2"), 4);
    assert_eq!(again, Err(AuthError::MfaInvalid));
    assert_eq!(auth.sessions.verify(&s("r2"), Some(5)), Ok(true));
    let other = auth.mfa_verify(&s("r2"), &s("rc-2"), false, s("ip"), s("ua"), s("f2"), 5);
    assert_eq!(other, Ok(s("f2")));
}

#[test]
fn mfa_verify_on_full_session_is_session_invalid() {
    let mut auth = AuthService::new();
    auth.mfa.setup(5, s("SEED"), vec![s("rc-1")]);
    auth.login(&record(5, false), &s("pw"), true, s("ip"), s("ua"), s("full"), 1).unwrap();
    let r = auth.mfa_verify(&s("full"), &s("rc-1"), false, s("ip"), s("ua"), s("x"), 2);
    assert_eq!(r, Err(AuthError::SessionInvalid));
    let r = auth.mfa_verify(&s("nope"), &s("rc-1"), true, s("ip"), s("ua"), s("x"), 2);
    assert_eq!(r, Err(AuthError::SessionInvalid));
}

#[test]
fn mfa_verify_without_enrollment_is_not_found() {
    let mut auth = AuthService::new();
    auth.login(&record(6, true), &s("pw"), true, s("ip"), s("ua"), s("r"), 1).unwrap();
    let r = auth.mfa_verify(&s("r"), &s("123456"), true, s("ip"), s("ua"), s("x"), 2);
    assert_eq!(r, Err(AuthError::NotFound));
    assert_eq!(auth.mfa.pending_secret(&auth.sessions, &s("r")), Err(AuthError::NotFound));
}

#[test]
fn mfa_verify_with_used_new_token_changes_nothing() {
    let mut auth = AuthService::new();
    auth.mfa.setup(5, s("SEED"), vec![s("rc-1")]);
    auth.login(&record(5, true), &s("pw"), true, s("ip"), s("ua"), s("r"), 1).unwrap();
    let r = auth.mfa_verify(&s("r"), &s("rc-1"), false, s("ip"), s("ua"), s("r"), 2);
    assert_eq!(r, Err(AuthError::ServerError));
    // The recovery code was not used up and the session is still restricted.
    let r = auth.mfa_verify(&s("r"), &s("rc-1"), false, s("ip"), s("ua"), s("f"), 3);
    assert_eq!(r, Ok(s("f")));
}

#[test]
fn restricted_session_cannot_renew_or_revoke_others() {
    let mut auth = AuthService::new();
    auth.mfa.setup(5, s("SEED"), vec![s("rc-1")]);
    auth.login(&record(5, false), &s("pw"), true, s("ip"), s("ua"), s("full"), 1).unwrap();
    auth.login(&record(5, true), &s("pw"), true, s("ip"), s("ua"), s("r"), 2).unwrap();
    let renewed = auth.session_renew(&s("r"), 5, s("ip"), s("ua"), s("x"), 3);
    assert_eq!(renewed, Err(AuthError::SessionInvalid));
    assert_eq!(auth.session_invalidate_others(&s("r"), 5, 3), Err(AuthError::SessionInvalid));
    assert_eq!(auth.sessions.verify(&s("full"), Some(5)), Ok(false));
    assert_eq!(auth.sessions.verify(&s("r"), Some(5)), Ok(true));
    // Logout still works on a restricted session.
    auth.sessions.invalidate(&s("r"), 4);
    assert_eq!(auth.sessions.verify(&s("r"), None), Err(AuthError::SessionInvalid));
    // A full session renews and revokes the others.
    let t = auth.session_renew(&s("full"), 5, s("ip"), s("ua"), s("full2"), 5);
    assert_eq!(t, Ok(s("full2")));
    auth.login(&record(5, false), &s("pw"), true, s("ip"), s("ua"), s("full3"), 6).unwrap();
    assert_eq!(auth.session_invalidate_others(&s("full2"), 5, 7), Ok(1));
    assert_eq!(auth.sessions.verify(&s("full3"), None), Err(AuthError::SessionInvalid));
}
