use crate::error::{outcome, AuthError};
use vstd::prelude::*;

verus! {

/// What a session record holds, as plain mathematical values.
pub ghost struct SessionView {
    pub token: Seq<char>,
    pub user_id: i64,
    pub created_at: i64,
    pub ip_address: Seq<char>,
    pub user_agent: Seq<char>,
    pub restricted: bool,
    pub revoked_at: Option<i64>,
}

/// One row of the session log. Rows are never removed: revocation only
/// stamps `revoked_at`.
#[derive(Debug)]
pub struct Session {
    pub session_token: String,
    pub user_id: i64,
    pub created_at: i64,
    pub ip_address: String,
    pub user_agent: String,
    pub restricted: bool,
    pub revoked_at: Option<i64>,
}

impl View for Session {
    type V = SessionView;

    open spec fn view(&self) -> SessionView {
        SessionView {
            token: self.session_token@,
            user_id: self.user_id,
            created_at: self.created_at,
            ip_address: self.ip_address@,
            user_agent: self.user_agent@,
            restricted: self.restricted,
            revoked_at: self.revoked_at,
        }
    }
}

impl Session {
    /// A copy of this row, field by field.
    pub fn duplicate(&self) -> (r: Session)
        ensures
            r@ == self@,
    {
        Session {
            session_token: self.session_token.clone(),
            user_id: self.user_id,
            created_at: self.created_at,
            ip_address: self.ip_address.clone(),
            user_agent: self.user_agent.clone(),
            restricted: self.restricted,
            revoked_at: self.revoked_at,
        }
    }
}

/// No two rows of the log carry the same token.
pub open spec fn tokens_unique(log: Seq<SessionView>) -> bool {
    forall|i: int, j: int|
        0 <= i < log.len() && 0 <= j < log.len() && i != j ==> #[trigger] log[i].token
            != #[trigger] log[j].token
}

/// Rows stand in the order of their creation times.
pub open spec fn created_in_order(log: Seq<SessionView>) -> bool {
    forall|i: int, j: int|
        0 <= i <= j < log.len() ==> #[trigger] log[i].created_at <= #[trigger] log[j].created_at
}

/// The invariant of the session log.
pub open spec fn log_wf(log: Seq<SessionView>) -> bool {
    tokens_unique(log) && created_in_order(log)
}

/// Whether some row, live or revoked, carries token `t`.
pub open spec fn has_token(log: Seq<SessionView>, t: Seq<char>) -> bool {
    exists|i: int| 0 <= i < log.len() && #[trigger] log[i].token == t
}

pub open spec fn token_index(log: Seq<SessionView>, t: Seq<char>) -> int {
    choose|i: int| 0 <= i < log.len() && #[trigger] log[i].token == t
}

/// The row that carries token `t`, if any.
pub open spec fn lookup(log: Seq<SessionView>, t: Seq<char>) -> Option<SessionView> {
    if has_token(log, t) {
        Some(log[token_index(log, t)])
    } else {
        None
    }
}

/// The row `s`, revoked at time `now`.
pub open spec fn revoked(s: SessionView, now: i64) -> SessionView {
    SessionView { revoked_at: Some(now), ..s }
}

/// A live row as it is first written.
pub open spec fn fresh_session(
    t: Seq<char>,
    user_id: i64,
    ip: Seq<char>,
    ua: Seq<char>,
    restricted: bool,
    created_at: i64,
) -> SessionView {
    SessionView {
        token: t,
        user_id,
        created_at,
        ip_address: ip,
        user_agent: ua,
        restricted,
        revoked_at: None,
    }
}

/// Creation time given to a new row: the clock never runs backwards, so a
/// `now` earlier than the newest row is raised to that row's time.
pub open spec fn stamp(log: Seq<SessionView>, now: i64) -> i64 {
    if log.len() > 0 && now < log.last().created_at {
        log.last().created_at
    } else {
        now
    }
}

/// Result of checking token `t`: the session's restricted flag, or
/// `SessionInvalid` when it is absent, revoked, or not owned by `expected`.
pub open spec fn verify_spec(log: Seq<SessionView>, t: Seq<char>, expected: Option<i64>) -> Result<
    bool,
    AuthError,
> {
    match lookup(log, t) {
        None => Err(AuthError::SessionInvalid),
        Some(s) => {
            if s.revoked_at is Some {
                Err(AuthError::SessionInvalid)
            } else if expected is Some && s.user_id != expected->0 {
                Err(AuthError::SessionInvalid)
            } else {
                Ok(s.restricted)
            }
        },
    }
}

/// Owner of a live session; a restricted one only where `allow_restricted`.
pub open spec fn user_of_spec(log: Seq<SessionView>, t: Seq<char>, allow_restricted: bool) -> Result<
    i64,
    AuthError,
> {
    match verify_spec(log, t, None) {
        Err(e) => Err(e),
        Ok(restricted) => {
            if restricted && !allow_restricted {
                Err(AuthError::SessionInvalid)
            } else {
                Ok(lookup(log, t)->0.user_id)
            }
        },
    }
}

pub open spec fn create_outcome(log: Seq<SessionView>, t: Seq<char>) -> Result<(), AuthError> {
    if has_token(log, t) {
        Err(AuthError::ServerError)
    } else {
        Ok(())
    }
}

pub open spec fn create_log(
    log: Seq<SessionView>,
    t: Seq<char>,
    user_id: i64,
    ip: Seq<char>,
    ua: Seq<char>,
    restricted: bool,
    now: i64,
) -> Seq<SessionView> {
    if has_token(log, t) {
        log
    } else {
        log.push(fresh_session(t, user_id, ip, ua, restricted, stamp(log, now)))
    }
}

pub open spec fn renew_outcome(
    log: Seq<SessionView>,
    old_t: Seq<char>,
    user_id: i64,
    new_t: Seq<char>,
) -> Result<(), AuthError> {
    match verify_spec(log, old_t, Some(user_id)) {
        Err(e) => Err(e),
        Ok(_) => create_outcome(log, new_t),
    }
}

pub open spec fn renew_log(
    log: Seq<SessionView>,
    old_t: Seq<char>,
    user_id: i64,
    ip: Seq<char>,
    ua: Seq<char>,
    new_t: Seq<char>,
    now: i64,
) -> Seq<SessionView> {
    if renew_outcome(log, old_t, user_id, new_t) is Ok {
        let k = token_index(log, old_t);
        log.update(k, revoked(log[k], now)).push(
            fresh_session(new_t, user_id, ip, ua, false, stamp(log, now)),
        )
    } else {
        log
    }
}

pub open spec fn invalidate_log(log: Seq<SessionView>, t: Seq<char>, now: i64) -> Seq<SessionView> {
    if has_token(log, t) && log[token_index(log, t)].revoked_at is None {
        let k = token_index(log, t);
        log.update(k, revoked(log[k], now))
    } else {
        log
    }
}

/// A row that `invalidate_others(t, user_id)` revokes.
pub open spec fn revokes_other(s: SessionView, t: Seq<char>, user_id: i64) -> bool {
    s.user_id == user_id && s.token != t && s.revoked_at is None
}

/// Number of live rows of `user_id` other than the one with token `t`.
pub open spec fn others_live(log: Seq<SessionView>, t: Seq<char>, user_id: i64) -> nat
    decreases log.len(),
{
    if log.len() == 0 {
        0
    } else {
        others_live(log.drop_last(), t, user_id) + if revokes_other(log.last(), t, user_id) {
            1nat
        } else {
            0nat
        }
    }
}

pub open spec fn invalidate_others_log(
    log: Seq<SessionView>,
    t: Seq<char>,
    user_id: i64,
    now: i64,
) -> Seq<SessionView> {
    if verify_spec(log, t, Some(user_id)) is Ok {
        Seq::new(
            log.len(),
            |i: int|
                if revokes_other(log[i], t, user_id) {
                    revoked(log[i], now)
                } else {
                    log[i]
                },
        )
    } else {
        log
    }
}

/// The rows of `user_id`, newest first.
pub open spec fn newest_first(log: Seq<SessionView>, user_id: i64) -> Seq<SessionView>
    decreases log.len(),
{
    if log.len() == 0 {
        Seq::empty()
    } else {
        let rest = newest_first(log.drop_last(), user_id);
        if log.last().user_id == user_id {
            seq![log.last()] + rest
        } else {
            rest
        }
    }
}

/// `after` keeps every row of `before` where it stood, with its token and
/// owner, and a revoked row exactly as it was.
pub open spec fn keeps_history(before: Seq<SessionView>, after: Seq<SessionView>) -> bool {
    &&& before.len() <= after.len()
    &&& forall|i: int|
        0 <= i < before.len() ==> {
            &&& (#[trigger] after[i]).token == before[i].token
            &&& after[i].user_id == before[i].user_id
            &&& (before[i].revoked_at is Some ==> after[i] == before[i])
        }
}

/// The row at `k` is the one that `lookup` finds for its token.
pub proof fn lemma_lookup_at(log: Seq<SessionView>, t: Seq<char>, k: int)
    requires
        tokens_unique(log),
        0 <= k < log.len(),
        log[k].token == t,
    ensures
        has_token(log, t),
        token_index(log, t) == k,
        lookup(log, t) == Some(log[k]),
{
    assert(has_token(log, t));
    let j = token_index(log, t);
    assert(log[j].token == t);
}

/// After a successful renewal the old token fails verification, whatever
/// owner is expected, and the new token verifies as an unrestricted session
/// of the same user.
pub proof fn lemma_renew_rotates(
    log: Seq<SessionView>,
    old_t: Seq<char>,
    user_id: i64,
    ip: Seq<char>,
    ua: Seq<char>,
    new_t: Seq<char>,
    now: i64,
    expected: Option<i64>,
)
    requires
        log_wf(log),
        renew_outcome(log, old_t, user_id, new_t) is Ok,
    ensures
        verify_spec(renew_log(log, old_t, user_id, ip, ua, new_t, now), old_t, expected) == Err::<
            bool,
            AuthError,
        >(AuthError::SessionInvalid),
        verify_spec(renew_log(log, old_t, user_id, ip, ua, new_t, now), new_t, Some(user_id))
            == Ok::<bool, AuthError>(false),
{
    let k = token_index(log, old_t);
    assert(has_token(log, old_t));
    assert(log[k].token == old_t);
    assert(!has_token(log, new_t));
    let after = renew_log(log, old_t, user_id, ip, ua, new_t, now);
    let n = log.len() as int;
    assert(after.len() == n + 1);
    assert forall|i: int, j: int|
        0 <= i < after.len() && 0 <= j < after.len() && i != j implies #[trigger] after[i].token
        != #[trigger] after[j].token by {
        if i < n && j < n {
            assert(after[i].token == log[i].token);
            assert(after[j].token == log[j].token);
        } else if i < n {
            assert(after[i].token == log[i].token);
        } else {
            assert(after[j].token == log[j].token);
        }
    }
    lemma_lookup_at(after, old_t, k);
    lemma_lookup_at(after, new_t, n);
}

proof fn lemma_none_live(log: Seq<SessionView>, t: Seq<char>, user_id: i64)
    requires
        forall|i: int| 0 <= i < log.len() ==> !revokes_other(#[trigger] log[i], t, user_id),
    ensures
        others_live(log, t, user_id) == 0,
    decreases log.len(),
{
    if log.len() > 0 {
        let rest = log.drop_last();
        assert forall|i: int| 0 <= i < rest.len() implies !revokes_other(
            #[trigger] rest[i],
            t,
            user_id,
        ) by {
            assert(rest[i] == log[i]);
        }
        lemma_none_live(rest, t, user_id);
    }
}

/// Revoking a user's other sessions spares the session it was asked from,
/// leaves that user no other live session, and changes exactly the rows
/// that `others_live` counts.
pub proof fn lemma_invalidate_others_spares_caller(
    log: Seq<SessionView>,
    t: Seq<char>,
    user_id: i64,
    now: i64,
)
    requires
        log_wf(log),
        verify_spec(log, t, Some(user_id)) is Ok,
    ensures
        verify_spec(invalidate_others_log(log, t, user_id, now), t, Some(user_id)) == verify_spec(
            log,
            t,
            Some(user_id),
        ),
        others_live(invalidate_others_log(log, t, user_id, now), t, user_id) == 0,
        forall|i: int|
            0 <= i < log.len() ==> (#[trigger] invalidate_others_log(log, t, user_id, now)[i]
                != log[i] <==> revokes_other(log[i], t, user_id)),
{
    let after = invalidate_others_log(log, t, user_id, now);
    let k = token_index(log, t);
    assert(has_token(log, t));
    assert(log[k].token == t);
    assert forall|i: int| 0 <= i < log.len() implies #[trigger] after[i].token == log[i].token by {}
    assert forall|i: int, j: int|
        0 <= i < after.len() && 0 <= j < after.len() && i != j implies #[trigger] after[i].token
        != #[trigger] after[j].token by {
        assert(after[i].token == log[i].token);
        assert(after[j].token == log[j].token);
    }
    lemma_lookup_at(after, t, k);
    lemma_lookup_at(log, t, k);
    assert forall|i: int| 0 <= i < after.len() implies !revokes_other(
        #[trigger] after[i],
        t,
        user_id,
    ) by {}
    lemma_none_live(after, t, user_id);
}

proof fn lemma_newest_first_from_log(log: Seq<SessionView>, user_id: i64)
    ensures
        forall|k: int|
            0 <= k < newest_first(log, user_id).len() ==> exists|j: int|
                0 <= j < log.len() && #[trigger] newest_first(log, user_id)[k] == log[j],
    decreases log.len(),
{
    if log.len() > 0 {
        let rest = newest_first(log.drop_last(), user_id);
        lemma_newest_first_from_log(log.drop_last(), user_id);
        let nf = newest_first(log, user_id);
        assert forall|k: int| 0 <= k < nf.len() implies exists|j: int|
            0 <= j < log.len() && #[trigger] nf[k] == log[j] by {
            if log.last().user_id == user_id {
                if k == 0 {
                    assert(nf[k] == log[log.len() - 1]);
                } else {
                    assert(nf[k] == rest[k - 1]);
                    let j = choose|j: int|
                        0 <= j < log.drop_last().len() && #[trigger] rest[k - 1]
                            == log.drop_last()[j];
                    assert(nf[k] == log[j]);
                }
            } else {
                let j = choose|j: int|
                    0 <= j < log.drop_last().len() && #[trigger] rest[k] == log.drop_last()[j];
                assert(nf[k] == log[j]);
            }
        }
    }
}

/// In a well-formed log, `newest_first` lists sessions by creation time,
/// newest first.
pub proof fn lemma_newest_first_sorted(log: Seq<SessionView>, user_id: i64)
    requires
        created_in_order(log),
    ensures
        forall|a: int, b: int|
            0 <= a < b < newest_first(log, user_id).len() ==> #[trigger] newest_first(
                log,
                user_id,
            )[a].created_at >= #[trigger] newest_first(log, user_id)[b].created_at,
    decreases log.len(),
{
    if log.len() > 0 {
        let prefix = log.drop_last();
        assert(created_in_order(prefix)) by {
            assert forall|i: int, j: int| 0 <= i <= j < prefix.len() implies #[trigger] prefix[i].created_at
                <= #[trigger] prefix[j].created_at by {
                assert(prefix[i] == log[i] && prefix[j] == log[j]);
            }
        }
        lemma_newest_first_sorted(prefix, user_id);
        lemma_newest_first_from_log(prefix, user_id);
        let rest = newest_first(prefix, user_id);
        let nf = newest_first(log, user_id);
        if log.last().user_id == user_id {
            assert forall|a: int, b: int| 0 <= a < b < nf.len() implies #[trigger] nf[a].created_at
                >= #[trigger] nf[b].created_at by {
                if a == 0 {
                    assert(nf[b] == rest[b - 1]);
                    let j = choose|j: int|
                        0 <= j < prefix.len() && #[trigger] rest[b - 1] == prefix[j];
                    assert(prefix[j] == log[j]);
                    assert(log[j].created_at <= log[log.len() - 1].created_at);
                } else {
                    assert(nf[a] == rest[a - 1] && nf[b] == rest[b - 1]);
                }
            }
        }
    }
}

/// The session log: every session ever created, in creation order.
pub struct SessionManager {
    sessions: Vec<Session>,
}

impl View for SessionManager {
    type V = Seq<SessionView>;

    closed spec fn view(&self) -> Seq<SessionView> {
        self.sessions@.map_values(|s: Session| s@)
    }
}

impl SessionManager {
    pub open spec fn wf(&self) -> bool {
        log_wf(self@)
    }

    pub fn new() -> (r: SessionManager)
        ensures
            r.wf(),
            r@ == Seq::<SessionView>::empty(),
    {
        let r = SessionManager { sessions: Vec::new() };
        assert(r@ =~= Seq::<SessionView>::empty());
        r
    }

    pub fn len(&self) -> (r: usize)
        ensures
            r == self@.len(),
    {
        self.sessions.len()
    }

    /// Whether any row, live or revoked, carries `token`.
    pub fn contains_token(&self, token: &String) -> (r: bool)
        requires
            self.wf(),
        ensures
            r == has_token(self@, token@),
    {
        self.find(token).is_some()
    }

    /// Index of the row with this token.
    fn find(&self, token: &String) -> (r: Option<usize>)
        requires
            self.wf(),
        ensures
            match r {
                Some(i) => i < self@.len() && self@[i as int].token == token@ && lookup(self@, token@)
                    == Some(self@[i as int]) && token_index(self@, token@) == i,
                None => !has_token(self@, token@) && lookup(self@, token@) is None,
            },
    {
        let mut i: usize = 0;
        while i < self.sessions.len()
            invariant
                self.wf(),
                i <= self@.len(),
                self@.len() == self.sessions@.len(),
                forall|j: int| 0 <= j < i ==> #[trigger] self@[j].token != token@,
            decreases self.sessions@.len() - i,
        {
            if self.sessions[i].session_token == *token {
                proof {
                    lemma_lookup_at(self@, token@, i as int);
                }
                return Some(i);
            }
            i += 1;
        }
        None
    }

    /// Checks that `token` names a live session, owned by `expected_user`
    /// where one is given. Returns the session's restricted flag, which the
    /// caller uses to apply the restricted-session policy.
    pub fn verify(&self, token: &String, expected_user: Option<i64>) -> (r: Result<bool, AuthError>)
        requires
            self.wf(),
        ensures
            r == verify_spec(self@, token@, expected_user),
    {
        match self.find(token) {
            None => Err(AuthError::SessionInvalid),
            Some(i) => {
                let s = &self.sessions[i];
                if s.revoked_at.is_some() {
                    return Err(AuthError::SessionInvalid);
                }
                match expected_user {
                    Some(u) => {
                        if s.user_id != u {
                            return Err(AuthError::SessionInvalid);
                        }
                    },
                    None => {},
                }
                Ok(s.restricted)
            },
        }
    }

    /// The owner of a live session. A restricted session is refused unless
    /// `allow_restricted` is set.
    pub fn get_user(&self, token: &String, allow_restricted: bool) -> (r: Result<i64, AuthError>)
        requires
            self.wf(),
        ensures
            r == user_of_spec(self@, token@, allow_restricted),
    {
        match self.verify(token, None) {
            Err(e) => Err(e),
            Ok(restricted) => {
                if restricted && !allow_restricted {
                    return Err(AuthError::SessionInvalid);
                }
                let i = self.find(token).unwrap();
                Ok(self.sessions[i].user_id)
            },
        }
    }

    fn next_stamp(&self, now: i64) -> (r: i64)
        ensures
            r == stamp(self@, now),
    {
        let n = self.sessions.len();
        if n > 0 && now < self.sessions[n - 1].created_at {
            self.sessions[n - 1].created_at
        } else {
            now
        }
    }

    /// Appends a live session under the freshly drawn `token`. A token that
    /// is already in the log, live or revoked, is never reused: the call then
    /// fails with `ServerError` and changes nothing.
    pub fn create(
        &mut self,
        token: String,
        user_id: i64,
        ip_address: String,
        user_agent: String,
        restricted: bool,
        now: i64,
    ) -> (r: Result<String, AuthError>)
        requires
            old(self).wf(),
        ensures
            final(self).wf(),
            final(self)@ == create_log(
                old(self)@,
                token@,
                user_id,
                ip_address@,
                user_agent@,
                restricted,
                now,
            ),
            outcome(r) == create_outcome(old(self)@, token@),
            r matches Ok(t) ==> t@ == token@,
            keeps_history(old(self)@, final(self)@),
    {
        if self.find(&token).is_some() {
            return Err(AuthError::ServerError);
        }
        let created_at = self.next_stamp(now);
        let ghost before = self@;
        let row = Session {
            session_token: token.clone(),
            user_id,
            created_at,
            ip_address,
            user_agent,
            restricted,
            revoked_at: None,
        };
        self.sessions.push(row);
        assert(self@ =~= before.push(
            fresh_session(token@, user_id, ip_address@, user_agent@, restricted, created_at),
        ));
        Ok(token)
    }

    /// Rotates `old_token`: in one step it is revoked and an unrestricted
    /// session of the same user is appended under `new_token`. Fails with
    /// `SessionInvalid`, changing nothing, where `old_token` is absent,
    /// revoked or not owned by `user_id`; with `ServerError` where
    /// `new_token` is already in the log.
    pub fn renew(
        &mut self,
        old_token: &String,
        user_id: i64,
        ip_address: String,
        user_agent: String,
        new_token: String,
        now: i64,
    ) -> (r: Result<String, AuthError>)
        requires
            old(self).wf(),
        ensures
            final(self).wf(),
            final(self)@ == renew_log(
                old(self)@,
                old_token@,
                user_id,
                ip_address@,
                user_agent@,
                new_token@,
                now,
            ),
            outcome(r) == renew_outcome(old(self)@, old_token@, user_id, new_token@),
            r matches Ok(t) ==> t@ == new_token@,
            keeps_history(old(self)@, final(self)@),
    {
        match self.verify(old_token, Some(user_id)) {
            Err(e) => {
                return Err(e);
            },
            Ok(_) => {},
        }
        if self.find(&new_token).is_some() {
            return Err(AuthError::ServerError);
        }
        let k = self.find(old_token).unwrap();
        let created_at = self.next_stamp(now);
        let ghost before = self@;
        self.sessions[k].revoked_at = Some(now);
        assert(self@ =~= before.update(k as int, revoked(before[k as int], now)));
        let ghost mid = self@;
        let row = Session {
            session_token: new_token.clone(),
            user_id,
            created_at,
            ip_address,
            user_agent,
            restricted: false,
            revoked_at: None,
        };
        self.sessions.push(row);
        assert(self@ =~= mid.push(
            fresh_session(new_token@, user_id, ip_address@, user_agent@, false, created_at),
        ));
        Ok(new_token)
    }

    /// Revokes the session of `token`. Revoking a revoked or unknown token
    /// does nothing, so a logout can be retried safely.
    pub fn invalidate(&mut self, token: &String, now: i64)
        requires
            old(self).wf(),
        ensures
            final(self).wf(),
            final(self)@ == invalidate_log(old(self)@, token@, now),
            keeps_history(old(self)@, final(self)@),
    {
        match self.find(token) {
            None => {},
            Some(k) => {
                if self.sessions[k].revoked_at.is_none() {
                    let ghost before = self@;
                    self.sessions[k].revoked_at = Some(now);
                    assert(self@ =~= before.update(k as int, revoked(before[k as int], now)));
                }
            },
        }
    }

    /// Revokes every live session of `user_id` but the one of `token`, and
    /// returns how many were revoked. Fails with `SessionInvalid`, changing
    /// nothing, where `token` is not a live session of `user_id`.
    pub fn invalidate_others(&mut self, token: &String, user_id: i64, now: i64) -> (r: Result<
        u64,
        AuthError,
    >)
        requires
            old(self).wf(),
        ensures
            final(self).wf(),
            final(self)@ == invalidate_others_log(old(self)@, token@, user_id, now),
            outcome(r) == outcome(verify_spec(old(self)@, token@, Some(user_id))),
            r matches Ok(n) ==> n == others_live(old(self)@, token@, user_id),
            keeps_history(old(self)@, final(self)@),
    {
        match self.verify(token, Some(user_id)) {
            Err(e) => {
                return Err(e);
            },
            Ok(_) => {},
        }
        let ghost log0 = self@;
        let mut count: u64 = 0;
        let mut i: usize = 0;
        while i < self.sessions.len()
            invariant
                self@.len() == log0.len(),
                self.sessions@.len() == log0.len(),
                i <= log0.len(),
                count <= i,
                count == others_live(log0.take(i as int), token@, user_id),
                forall|j: int|
                    0 <= j < i ==> #[trigger] self@[j] == (if revokes_other(
                        log0[j],
                        token@,
                        user_id,
                    ) {
                        revoked(log0[j], now)
                    } else {
                        log0[j]
                    }),
                forall|j: int| i <= j < log0.len() ==> #[trigger] self@[j] == log0[j],
            decreases log0.len() - i,
        {
            assert(log0.take(i as int + 1).drop_last() =~= log0.take(i as int));
            let s = &self.sessions[i];
            if s.user_id == user_id && !(s.session_token == *token) && s.revoked_at.is_none() {
                let ghost before = self@;
                self.sessions[i].revoked_at = Some(now);
                assert(self@ =~= before.update(i as int, revoked(before[i as int], now)));
                count = count + 1;
            }
            i += 1;
        }
        assert(log0.take(log0.len() as int) =~= log0);
        assert(self@ =~= invalidate_others_log(log0, token@, user_id, now));
        Ok(count)
    }

    /// Every session of `user_id`, revoked ones included, newest first.
    pub fn get_all(&self, user_id: i64) -> (r: Vec<Session>)
        requires
            self.wf(),
        ensures
            r@.map_values(|s: Session| s@) == newest_first(self@, user_id),
            forall|a: int, b: int|
                0 <= a < b < r@.len() ==> #[trigger] r@[a].created_at >= #[trigger] r@[b].created_at,
    {
        let mut out: Vec<Session> = Vec::new();
        let mut i: usize = 0;
        while i < self.sessions.len()
            invariant
                i <= self@.len(),
                self@.len() == self.sessions@.len(),
                out@.map_values(|s: Session| s@) == newest_first(self@.take(i as int), user_id),
            decreases self.sessions@.len() - i,
        {
            assert(self@.take(i as int + 1).drop_last() =~= self@.take(i as int));
            if self.sessions[i].user_id == user_id {
                let ghost prev = out@;
                let row = self.sessions[i].duplicate();
                out.insert(0, row);
                assert(out@.map_values(|s: Session| s@) =~= seq![self@[i as int]]
                    + prev.map_values(|s: Session| s@));
            }
            i += 1;
        }
        assert(self@.take(self@.len() as int) =~= self@);
        proof {
            lemma_newest_first_sorted(self@, user_id);
            assert forall|a: int, b: int| 0 <= a < b < out@.len() implies #[trigger] out@[a].created_at
                >= #[trigger] out@[b].created_at by {
                let nf = newest_first(self@, user_id);
                assert(out@.map_values(|s: Session| s@)[a] == out@[a]@);
                assert(out@.map_values(|s: Session| s@)[b] == out@[b]@);
                assert(nf[a].created_at >= nf[b].created_at);
            }
        }
        out
    }
}

} // verus!
