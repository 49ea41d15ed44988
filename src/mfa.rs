use crate::error::AuthError;
use crate::session::{lookup, verify_spec, SessionManager, SessionView};
use std::collections::HashMap;
use vstd::prelude::*;

verus! {

broadcast use vstd::std_specs::hash::group_hash_axioms;

/// What an enrollment holds, as plain values.
pub ghost struct EnrollmentView {
    pub totp_secret: Seq<char>,
    pub recovery_codes: Seq<Seq<char>>,
}

pub open spec fn codes_view(v: Seq<String>) -> Seq<Seq<char>> {
    v.map_values(|c: String| c@)
}

/// One user's second factor: the seed of the time-based codes and the
/// recovery codes not used yet.
#[derive(Debug)]
pub struct MfaEnrollment {
    pub totp_secret: String,
    pub recovery_codes: Vec<String>,
}

impl View for MfaEnrollment {
    type V = EnrollmentView;

    open spec fn view(&self) -> EnrollmentView {
        EnrollmentView { totp_secret: self.totp_secret@, recovery_codes: codes_view(self.recovery_codes@) }
    }
}

/// What `setup` hands back, to be shown to the user once.
#[derive(Debug)]
pub struct MultiFactorSetupOutput {
    pub totp_secret: String,
    pub recovery_codes: Vec<String>,
}

/// `codes` with every copy of `c` taken out.
pub open spec fn remove_code(codes: Seq<Seq<char>>, c: Seq<char>) -> Seq<Seq<char>>
    decreases codes.len(),
{
    if codes.len() == 0 {
        codes
    } else {
        let rest = remove_code(codes.drop_last(), c);
        if codes.last() == c {
            rest
        } else {
            rest.push(codes.last())
        }
    }
}

/// The owner of `t` where `t` is a live restricted session, the only kind
/// that can complete a second factor.
pub open spec fn pending_user(log: Seq<SessionView>, t: Seq<char>) -> Result<i64, AuthError> {
    match verify_spec(log, t, None) {
        Err(e) => Err(e),
        Ok(restricted) => {
            if restricted {
                Ok(lookup(log, t)->0.user_id)
            } else {
                Err(AuthError::SessionInvalid)
            }
        },
    }
}

/// Outcome of a second-factor check: `totp_matches` tells whether `code` is
/// a valid time-based code for the user's seed at this moment.
pub open spec fn mfa_check(
    log: Seq<SessionView>,
    enrolled: Map<i64, EnrollmentView>,
    t: Seq<char>,
    code: Seq<char>,
    totp_matches: bool,
) -> Result<i64, AuthError> {
    match pending_user(log, t) {
        Err(e) => Err(e),
        Ok(u) => {
            if !enrolled.contains_key(u) {
                Err(AuthError::NotFound)
            } else if totp_matches || enrolled[u].recovery_codes.contains(code) {
                Ok(u)
            } else {
                Err(AuthError::MfaInvalid)
            }
        },
    }
}

/// Enrollments after a second-factor check: a recovery code that was
/// accepted is used up.
pub open spec fn mfa_after(
    log: Seq<SessionView>,
    enrolled: Map<i64, EnrollmentView>,
    t: Seq<char>,
    code: Seq<char>,
    totp_matches: bool,
) -> Map<i64, EnrollmentView> {
    match mfa_check(log, enrolled, t, code, totp_matches) {
        Ok(u) => {
            if totp_matches {
                enrolled
            } else {
                enrolled.insert(
                    u,
                    EnrollmentView {
                        recovery_codes: remove_code(enrolled[u].recovery_codes, code),
                        ..enrolled[u]
                    },
                )
            }
        },
        Err(_) => enrolled,
    }
}

/// The seed handed out for `t`, so that the caller can compute the current
/// time-based code.
pub open spec fn pending_secret_spec(
    log: Seq<SessionView>,
    enrolled: Map<i64, EnrollmentView>,
    t: Seq<char>,
) -> Result<Seq<char>, AuthError> {
    match pending_user(log, t) {
        Err(e) => Err(e),
        Ok(u) => {
            if enrolled.contains_key(u) {
                Ok(enrolled[u].totp_secret)
            } else {
                Err(AuthError::NotFound)
            }
        },
    }
}

fn copy_codes(v: &Vec<String>) -> (r: Vec<String>)
    ensures
        codes_view(r@) == codes_view(v@),
{
    let mut r: Vec<String> = Vec::new();
    let mut i: usize = 0;
    while i < v.len()
        invariant
            i <= v@.len(),
            codes_view(r@) == codes_view(v@.take(i as int)),
        decreases v@.len() - i,
    {
        let ghost prev = r@;
        r.push(v[i].clone());
        assert(codes_view(r@) =~= codes_view(prev).push(v@[i as int]@));
        assert(codes_view(v@.take(i as int + 1)) =~= codes_view(v@.take(i as int)).push(
            v@[i as int]@,
        ));
        i += 1;
    }
    assert(v@.take(v@.len() as int) =~= v@);
    r
}

/// Copy of `v` without the codes equal to `c`.
fn without_code(v: &Vec<String>, c: &String) -> (r: Vec<String>)
    ensures
        codes_view(r@) == remove_code(codes_view(v@), c@),
{
    let mut r: Vec<String> = Vec::new();
    let mut i: usize = 0;
    while i < v.len()
        invariant
            i <= v@.len(),
            codes_view(r@) == remove_code(codes_view(v@.take(i as int)), c@),
        decreases v@.len() - i,
    {
        assert(codes_view(v@.take(i as int + 1)).drop_last() =~= codes_view(v@.take(i as int)));
        if !(v[i] == *c) {
            r.push(v[i].clone());
            assert(codes_view(r@) =~= remove_code(codes_view(v@.take(i as int)), c@).push(v@[i as int]@));
        }
        i += 1;
    }
    assert(v@.take(v@.len() as int) =~= v@);
    r
}

fn contains_code(v: &Vec<String>, c: &String) -> (r: bool)
    ensures
        r == codes_view(v@).contains(c@),
{
    let mut i: usize = 0;
    while i < v.len()
        invariant
            i <= v@.len(),
            forall|j: int| 0 <= j < i ==> v@[j]@ != c@,
        decreases v@.len() - i,
    {
        if v[i] == *c {
            assert(codes_view(v@)[i as int] == c@);
            return true;
        }
        i += 1;
    }
    assert(!codes_view(v@).contains(c@)) by {
        if codes_view(v@).contains(c@) {
            let k = choose|k: int| 0 <= k < codes_view(v@).len() && codes_view(v@)[k] == c@;
            assert(v@[k]@ == c@);
        }
    }
    false
}

proof fn lemma_remove_code_gone(codes: Seq<Seq<char>>, c: Seq<char>)
    ensures
        !remove_code(codes, c).contains(c),
    decreases codes.len(),
{
    if codes.len() > 0 {
        let rest = remove_code(codes.drop_last(), c);
        lemma_remove_code_gone(codes.drop_last(), c);
        if codes.last() != c {
            let r = rest.push(codes.last());
            if r.contains(c) {
                let k = choose|k: int| 0 <= k < r.len() && r[k] == c;
                if k < rest.len() {
                    assert(rest[k] == c);
                }
            }
        }
    }
}

/// A recovery code is good once: after it has been accepted as a recovery
/// code, presenting it again (as no valid time-based code) fails.
pub proof fn lemma_recovery_code_single_use(
    log: Seq<SessionView>,
    enrolled: Map<i64, EnrollmentView>,
    t: Seq<char>,
    code: Seq<char>,
)
    requires
        mfa_check(log, enrolled, t, code, false) is Ok,
    ensures
        mfa_check(log, mfa_after(log, enrolled, t, code, false), t, code, false) == Err::<
            i64,
            AuthError,
        >(AuthError::MfaInvalid),
{
    let u = mfa_check(log, enrolled, t, code, false)->Ok_0;
    lemma_remove_code_gone(enrolled[u].recovery_codes, code);
}

/// Once the recovery codes of a user are replaced, a code that is not in
/// the new set is refused (short of a valid time-based code).
pub proof fn lemma_reset_voids_old_codes(
    log: Seq<SessionView>,
    enrolled: Map<i64, EnrollmentView>,
    user_id: i64,
    t: Seq<char>,
    code: Seq<char>,
    new_codes: Seq<Seq<char>>,
)
    requires
        enrolled.contains_key(user_id),
        pending_user(log, t) == Ok::<i64, AuthError>(user_id),
        !new_codes.contains(code),
    ensures
        mfa_check(
            log,
            enrolled.insert(
                user_id,
                EnrollmentView { recovery_codes: new_codes, ..enrolled[user_id] },
            ),
            t,
            code,
            false,
        ) == Err::<i64, AuthError>(AuthError::MfaInvalid),
{
}

/// The enrollments of all users, keyed by user id.
pub struct MfaManager {
    enrollments: HashMap<i64, MfaEnrollment>,
}

impl View for MfaManager {
    type V = Map<i64, EnrollmentView>;

    closed spec fn view(&self) -> Map<i64, EnrollmentView> {
        self.enrollments@.map_values(|e: MfaEnrollment| e@)
    }
}

impl MfaManager {
    pub fn new() -> (r: MfaManager)
        ensures
            r@ == Map::<i64, EnrollmentView>::empty(),
    {
        let r = MfaManager { enrollments: HashMap::new() };
        assert(r@ =~= Map::<i64, EnrollmentView>::empty());
        r
    }

    /// Whether `user_id` has an enrollment.
    pub fn is_enrolled(&self, user_id: i64) -> (r: bool)
        ensures
            r == self@.contains_key(user_id),
    {
        self.enrollments.contains_key(&user_id)
    }

    /// Enrolls `user_id` with a freshly drawn seed and recovery codes,
    /// replacing any earlier enrollment, and returns both.
    pub fn setup(&mut self, user_id: i64, totp_secret: String, recovery_codes: Vec<String>) -> (r:
        MultiFactorSetupOutput)
        ensures
            final(self)@ == old(self)@.insert(
                user_id,
                EnrollmentView {
                    totp_secret: totp_secret@,
                    recovery_codes: codes_view(recovery_codes@),
                },
            ),
            r.totp_secret@ == totp_secret@,
            codes_view(r.recovery_codes@) == codes_view(recovery_codes@),
    {
        let out = MultiFactorSetupOutput {
            totp_secret: totp_secret.clone(),
            recovery_codes: copy_codes(&recovery_codes),
        };
        let ghost before = self.enrollments@;
        self.enrollments.insert(user_id, MfaEnrollment { totp_secret, recovery_codes });
        assert(self@ =~= before.map_values(|e: MfaEnrollment| e@).insert(
            user_id,
            EnrollmentView {
                totp_secret: out.totp_secret@,
                recovery_codes: codes_view(out.recovery_codes@),
            },
        ));
        out
    }

    /// Removes the enrollment of `user_id`; nothing happens where there is
    /// none.
    pub fn disable(&mut self, user_id: i64)
        ensures
            final(self)@ == old(self)@.remove(user_id),
    {
        let ghost before = self.enrollments@;
        self.enrollments.remove(&user_id);
        assert(self@ =~= before.map_values(|e: MfaEnrollment| e@).remove(user_id));
    }

    /// Replaces every recovery code of `user_id` by `recovery_codes`, so
    /// that none issued before is accepted again. Fails with `NotFound`,
    /// changing nothing, where `user_id` has no enrollment.
    pub fn reset_recovery_codes(&mut self, user_id: i64, recovery_codes: Vec<String>) -> (r:
        Result<Vec<String>, AuthError>)
        ensures
            old(self)@.contains_key(user_id) ==> {
                &&& final(self)@ == old(self)@.insert(
                    user_id,
                    EnrollmentView {
                        recovery_codes: codes_view(recovery_codes@),
                        ..old(self)@[user_id]
                    },
                )
                &&& r matches Ok(c) && codes_view(c@) == codes_view(recovery_codes@)
            },
            !old(self)@.contains_key(user_id) ==> {
                &&& final(self)@ == old(self)@
                &&& r == Err::<Vec<String>, AuthError>(AuthError::NotFound)
            },
    {
        let ghost before = self.enrollments@;
        match self.enrollments.remove(&user_id) {
            None => {
                assert(self.enrollments@ =~= before);
                Err(AuthError::NotFound)
            },
            Some(e) => {
                let out = copy_codes(&recovery_codes);
                let ghost secret = e.totp_secret@;
                self.enrollments.insert(
                    user_id,
                    MfaEnrollment { totp_secret: e.totp_secret, recovery_codes },
                );
                assert(self@ =~= before.map_values(|e: MfaEnrollment| e@).insert(
                    user_id,
                    EnrollmentView { totp_secret: secret, recovery_codes: codes_view(out@) },
                ));
                Ok(out)
            },
        }
    }

    fn pending(&self, sessions: &SessionManager, session_token: &String) -> (r: Result<
        i64,
        AuthError,
    >)
        requires
            sessions.wf(),
        ensures
            r == pending_user(sessions@, session_token@),
    {
        match sessions.verify(session_token, None) {
            Err(e) => Err(e),
            Ok(restricted) => {
                if !restricted {
                    return Err(AuthError::SessionInvalid);
                }
                sessions.get_user(session_token, true)
            },
        }
    }

    /// The seed of the user waiting on a second factor under
    /// `session_token`, from which the current time-based code is computed.
    pub fn pending_secret(&self, sessions: &SessionManager, session_token: &String) -> (r: Result<
        String,
        AuthError,
    >)
        requires
            sessions.wf(),
        ensures
            outcome_of_secret(r) == pending_secret_spec(sessions@, self@, session_token@),
    {
        let u = match self.pending(sessions, session_token) {
            Err(e) => {
                return Err(e);
            },
            Ok(u) => u,
        };
        match self.enrollments.get(&u) {
            None => Err(AuthError::NotFound),
            Some(e) => Ok(e.totp_secret.clone()),
        }
    }

    /// Checks the second factor for the restricted session `session_token`.
    /// `totp_matches` says whether `code` is the user's valid time-based
    /// code; otherwise `code` must be one of the unused recovery codes,
    /// which is then used up. Returns the user id; on failure nothing
    /// changes.
    pub fn verify(
        &mut self,
        sessions: &SessionManager,
        session_token: &String,
        code: &String,
        totp_matches: bool,
    ) -> (r: Result<i64, AuthError>)
        requires
            sessions.wf(),
        ensures
            r == mfa_check(sessions@, old(self)@, session_token@, code@, totp_matches),
            final(self)@ == mfa_after(sessions@, old(self)@, session_token@, code@, totp_matches),
    {
        let u = match self.pending(sessions, session_token) {
            Err(e) => {
                return Err(e);
            },
            Ok(u) => u,
        };
        let ghost before = self.enrollments@;
        let found = match self.enrollments.get(&u) {
            None => {
                return Err(AuthError::NotFound);
            },
            Some(e) => contains_code(&e.recovery_codes, code),
        };
        if totp_matches {
            return Ok(u);
        }
        if !found {
            return Err(AuthError::MfaInvalid);
        }
        let e = self.enrollments.remove(&u).unwrap();
        let kept = without_code(&e.recovery_codes, code);
        let ghost secret = e.totp_secret@;
        self.enrollments.insert(u, MfaEnrollment { totp_secret: e.totp_secret, recovery_codes: kept });
        assert(self@ =~= before.map_values(|e: MfaEnrollment| e@).insert(
            u,
            EnrollmentView { totp_secret: secret, recovery_codes: codes_view(kept@) },
        ));
        Ok(u)
    }
}

/// A seed lookup, with the seed as plain characters.
pub open spec fn outcome_of_secret(r: Result<String, AuthError>) -> Result<Seq<char>, AuthError> {
    match r {
        Ok(s) => Ok(s@),
        Err(e) => Err(e),
    }
}

} // verus!
