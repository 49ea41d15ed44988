use crate::credential::{
    auth_password_spec, authenticate_password, login_error, login_error_spec, CredentialRecord,
};
use crate::error::{outcome, AuthError};
use crate::mfa::{codes_view, mfa_after, mfa_check, EnrollmentView, MfaManager};
use crate::session::{
    create_log, create_outcome, has_token, invalidate_others_log, lemma_lookup_at, log_wf,
    others_live, renew_log, renew_outcome, user_of_spec, verify_spec, SessionManager, SessionView,
};
use vstd::prelude::*;

verus! {

/// A successful login.
#[derive(Debug)]
pub struct LoginUserOutput {
    pub session_token: String,
    pub needs_mfa: bool,
}

/// Outcome of a login: success, a bad login, or a server error, and
/// nothing else.
pub open spec fn login_outcome(
    log: Seq<SessionView>,
    record: Option<CredentialRecord>,
    password: Seq<char>,
    digest_matches: bool,
    t: Seq<char>,
) -> Result<(), AuthError> {
    match auth_password_spec(record, password, digest_matches) {
        Err(e) => Err(login_error_spec(e)),
        Ok(_) => match create_outcome(log, t) {
            Err(e) => Err(login_error_spec(e)),
            Ok(_) => Ok(()),
        },
    }
}

/// The session log after a login: one new session, restricted exactly when
/// the user still owes a second factor.
pub open spec fn login_log(
    log: Seq<SessionView>,
    record: Option<CredentialRecord>,
    password: Seq<char>,
    digest_matches: bool,
    ip: Seq<char>,
    ua: Seq<char>,
    t: Seq<char>,
    now: i64,
) -> Seq<SessionView> {
    match auth_password_spec(record, password, digest_matches) {
        Err(_) => log,
        Ok(a) => create_log(log, t, a.user_id, ip, ua, a.needs_mfa, now),
    }
}

/// Outcome of completing a second factor: the new token must be unused,
/// then the factor must check out.
pub open spec fn mfa_verify_outcome(
    log: Seq<SessionView>,
    enrolled: Map<i64, EnrollmentView>,
    t: Seq<char>,
    code: Seq<char>,
    totp_matches: bool,
    new_t: Seq<char>,
) -> Result<(), AuthError> {
    if has_token(log, new_t) {
        Err(AuthError::ServerError)
    } else {
        outcome(mfa_check(log, enrolled, t, code, totp_matches))
    }
}

/// An unknown login and a known login with a wrong password cannot be told
/// apart: both fail with `InvalidAuthentication` and neither writes a
/// session. (`digest_for_check` gives both a digest to compare, so neither
/// skips the comparison.)
pub proof fn lemma_login_failures_uniform(
    log: Seq<SessionView>,
    record: CredentialRecord,
    password: Seq<char>,
    digest_matches: bool,
    ip: Seq<char>,
    ua: Seq<char>,
    t: Seq<char>,
    now: i64,
)
    ensures
        login_outcome(log, None, password, digest_matches, t) == Err::<(), AuthError>(
            AuthError::InvalidAuthentication,
        ),
        login_outcome(log, Some(record), password, false, t) == Err::<(), AuthError>(
            AuthError::InvalidAuthentication,
        ),
        login_log(log, None, password, digest_matches, ip, ua, t, now) == log,
        login_log(log, Some(record), password, false, ip, ua, t, now) == log,
{
}

/// A session created restricted is refused wherever an unrestricted session
/// is required, yet completes the second factor when the user is enrolled
/// and the code is correct.
pub proof fn lemma_restricted_session(
    log: Seq<SessionView>,
    enrolled: Map<i64, EnrollmentView>,
    t: Seq<char>,
    user_id: i64,
    ip: Seq<char>,
    ua: Seq<char>,
    now: i64,
    code: Seq<char>,
    totp_matches: bool,
    new_t: Seq<char>,
)
    requires
        log_wf(log),
        create_outcome(log, t) is Ok,
    ensures
        user_of_spec(create_log(log, t, user_id, ip, ua, true, now), t, false) == Err::<
            i64,
            AuthError,
        >(AuthError::SessionInvalid),
        enrolled.contains_key(user_id) && (totp_matches || enrolled[user_id].recovery_codes.contains(
            code,
        )) && !has_token(create_log(log, t, user_id, ip, ua, true, now), new_t)
            ==> mfa_verify_outcome(
            create_log(log, t, user_id, ip, ua, true, now),
            enrolled,
            t,
            code,
            totp_matches,
            new_t,
        ) == Ok::<(), AuthError>(()),
{
    let after = create_log(log, t, user_id, ip, ua, true, now);
    let n = log.len() as int;
    assert(!has_token(log, t));
    assert forall|i: int, j: int|
        0 <= i < after.len() && 0 <= j < after.len() && i != j implies #[trigger] after[i].token
        != #[trigger] after[j].token by {
        if i < n && j < n {
        } else if i < n {
            assert(after[i] == log[i]);
        } else {
            assert(after[j] == log[j]);
        }
    }
    lemma_lookup_at(after, t, n);
}

/// The core's whole state: the session log and the MFA enrollments.
pub struct AuthService {
    pub sessions: SessionManager,
    pub mfa: MfaManager,
}

impl AuthService {
    pub open spec fn wf(&self) -> bool {
        self.sessions.wf()
    }

    pub fn new() -> (r: AuthService)
        ensures
            r.wf(),
            r.sessions@ == Seq::<SessionView>::empty(),
            r.mfa@ == Map::<i64, EnrollmentView>::empty(),
    {
        AuthService { sessions: SessionManager::new(), mfa: MfaManager::new() }
    }

    /// Logs a user in. `record` is what the credential store holds for the
    /// login, and `digest_matches` whether the password matched the digest
    /// that `digest_for_check` gave. On success a session is created under
    /// `session_token`, restricted when the user has MFA enabled. Every
    /// failure is `InvalidAuthentication` or `ServerError`, and changes
    /// nothing.
    pub fn login(
        &mut self,
        record: &Option<CredentialRecord>,
        password: &String,
        digest_matches: bool,
        ip_address: String,
        user_agent: String,
        session_token: String,
        now: i64,
    ) -> (r: Result<LoginUserOutput, AuthError>)
        requires
            old(self).wf(),
        ensures
            final(self).wf(),
            final(self).mfa@ == old(self).mfa@,
            outcome(r) == login_outcome(
                old(self).sessions@,
                *record,
                password@,
                digest_matches,
                session_token@,
            ),
            final(self).sessions@ == login_log(
                old(self).sessions@,
                *record,
                password@,
                digest_matches,
                ip_address@,
                user_agent@,
                session_token@,
                now,
            ),
            r matches Ok(o) ==> o.session_token@ == session_token@ && o.needs_mfa
                == record->0.mfa_enabled,
    {
        if password.as_str().is_empty() {
            return Err(AuthError::InvalidAuthentication);
        }
        let a = match authenticate_password(record, password, digest_matches) {
            Err(e) => {
                return Err(login_error(e));
            },
            Ok(a) => a,
        };
        match self.sessions.create(
            session_token,
            a.user_id,
            ip_address,
            user_agent,
            a.needs_mfa,
            now,
        ) {
            Err(e) => Err(login_error(e)),
            Ok(t) => Ok(LoginUserOutput { session_token: t, needs_mfa: a.needs_mfa }),
        }
    }

    /// Completes a second factor for the restricted session `session_token`
    /// and rotates it into an unrestricted session under `new_token`. Both
    /// steps happen or neither: on failure the session stays restricted and
    /// no recovery code is used up.
    pub fn mfa_verify(
        &mut self,
        session_token: &String,
        code: &String,
        totp_matches: bool,
        ip_address: String,
        user_agent: String,
        new_token: String,
        now: i64,
    ) -> (r: Result<String, AuthError>)
        requires
            old(self).wf(),
        ensures
            final(self).wf(),
            outcome(r) == mfa_verify_outcome(
                old(self).sessions@,
                old(self).mfa@,
                session_token@,
                code@,
                totp_matches,
                new_token@,
            ),
            r is Ok ==> {
                let u = mfa_check(
                    old(self).sessions@,
                    old(self).mfa@,
                    session_token@,
                    code@,
                    totp_matches,
                )->Ok_0;
                &&& final(self).mfa@ == mfa_after(
                    old(self).sessions@,
                    old(self).mfa@,
                    session_token@,
                    code@,
                    totp_matches,
                )
                &&& final(self).sessions@ == renew_log(
                    old(self).sessions@,
                    session_token@,
                    u,
                    ip_address@,
                    user_agent@,
                    new_token@,
                    now,
                )
            },
            r matches Ok(t) ==> t@ == new_token@,
            r is Err ==> final(self).mfa@ == old(self).mfa@ && final(self).sessions@ == old(
                self,
            ).sessions@,
    {
        if self.sessions.contains_token(&new_token) {
            return Err(AuthError::ServerError);
        }
        let u = match self.mfa.verify(&self.sessions, session_token, code, totp_matches) {
            Err(e) => {
                return Err(e);
            },
            Ok(u) => u,
        };
        self.sessions.renew(session_token, u, ip_address, user_agent, new_token, now)
    }

    /// Renewal as offered to clients: a restricted session cannot renew
    /// itself out of its restriction (`SessionInvalid`); only `mfa_verify`
    /// does that.
    pub fn session_renew(
        &mut self,
        old_token: &String,
        user_id: i64,
        ip_address: String,
        user_agent: String,
        new_token: String,
        now: i64,
    ) -> (r: Result<String, AuthError>)
        requires
            old(self).wf(),
        ensures
            final(self).wf(),
            final(self).mfa@ == old(self).mfa@,
            verify_spec(old(self).sessions@, old_token@, Some(user_id)) == Ok::<bool, AuthError>(
                true,
            ) ==> r == Err::<String, AuthError>(AuthError::SessionInvalid) && final(self).sessions@
                == old(self).sessions@,
            verify_spec(old(self).sessions@, old_token@, Some(user_id)) != Ok::<bool, AuthError>(
                true,
            ) ==> {
                &&& outcome(r) == renew_outcome(old(self).sessions@, old_token@, user_id, new_token@)
                &&& final(self).sessions@ == renew_log(
                    old(self).sessions@,
                    old_token@,
                    user_id,
                    ip_address@,
                    user_agent@,
                    new_token@,
                    now,
                )
                &&& (r matches Ok(t) ==> t@ == new_token@)
            },
    {
        match self.sessions.verify(old_token, Some(user_id)) {
            Ok(true) => Err(AuthError::SessionInvalid),
            _ => self.sessions.renew(old_token, user_id, ip_address, user_agent, new_token, now),
        }
    }

    /// Revoking one's other sessions, as offered to clients: not from a
    /// restricted session (`SessionInvalid`).
    pub fn session_invalidate_others(&mut self, token: &String, user_id: i64, now: i64) -> (r:
        Result<u64, AuthError>)
        requires
            old(self).wf(),
        ensures
            final(self).wf(),
            final(self).mfa@ == old(self).mfa@,
            verify_spec(old(self).sessions@, token@, Some(user_id)) == Ok::<bool, AuthError>(true)
                ==> r == Err::<u64, AuthError>(AuthError::SessionInvalid) && final(self).sessions@
                == old(self).sessions@,
            verify_spec(old(self).sessions@, token@, Some(user_id)) != Ok::<bool, AuthError>(true)
                ==> {
                &&& outcome(r) == outcome(verify_spec(old(self).sessions@, token@, Some(user_id)))
                &&& final(self).sessions@ == invalidate_others_log(
                    old(self).sessions@,
                    token@,
                    user_id,
                    now,
                )
                &&& (r matches Ok(n) ==> n == others_live(old(self).sessions@, token@, user_id))
            },
    {
        match self.sessions.verify(token, Some(user_id)) {
            Ok(true) => Err(AuthError::SessionInvalid),
            _ => self.sessions.invalidate_others(token, user_id, now),
        }
    }

    /// Removes the MFA enrollment of the owner of an unrestricted session.
    pub fn mfa_disable(&mut self, session_token: &String) -> (r: Result<(), AuthError>)
        requires
            old(self).wf(),
        ensures
            final(self).wf(),
            final(self).sessions@ == old(self).sessions@,
            outcome(r) == outcome(user_of_spec(old(self).sessions@, session_token@, false)),
            final(self).mfa@ == match user_of_spec(old(self).sessions@, session_token@, false) {
                Ok(u) => old(self).mfa@.remove(u),
                Err(_) => old(self).mfa@,
            },
    {
        let u = match self.sessions.get_user(session_token, false) {
            Err(e) => {
                return Err(e);
            },
            Ok(u) => u,
        };
        self.mfa.disable(u);
        Ok(())
    }

    /// Issues a new set of recovery codes for the owner of an unrestricted
    /// session, voiding all earlier ones.
    pub fn mfa_reset_recovery(&mut self, session_token: &String, recovery_codes: Vec<String>) -> (r:
        Result<Vec<String>, AuthError>)
        requires
            old(self).wf(),
        ensures
            final(self).wf(),
            final(self).sessions@ == old(self).sessions@,
            match user_of_spec(old(self).sessions@, session_token@, false) {
                Err(e) => r == Err::<Vec<String>, AuthError>(e) && final(self).mfa@ == old(
                    self,
                ).mfa@,
                Ok(u) => if old(self).mfa@.contains_key(u) {
                    &&& final(self).mfa@ == old(self).mfa@.insert(
                        u,
                        EnrollmentView {
                            recovery_codes: codes_view(recovery_codes@),
                            ..old(self).mfa@[u]
                        },
                    )
                    &&& r matches Ok(c) && codes_view(c@) == codes_view(recovery_codes@)
                } else {
                    &&& r == Err::<Vec<String>, AuthError>(AuthError::NotFound)
                    &&& final(self).mfa@ == old(self).mfa@
                },
            },
    {
        let u = match self.sessions.get_user(session_token, false) {
            Err(e) => {
                return Err(e);
            },
            Ok(u) => u,
        };
        self.mfa.reset_recovery_codes(u, recovery_codes)
    }
}

} // verus!
