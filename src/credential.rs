use crate::error::AuthError;
use vstd::prelude::*;

verus! {

/// A digest that matches no password. An unknown login is checked against
/// it, so that the code path and its timing match those of a wrong password.
pub const DUMMY_PASSWORD_DIGEST: &'static str =
    "$argon2id$v=19$m=19456,t=2,p=1$ZHVtbXlkdW1teWR1bW15$2M1ZbGx6cmRvbm90bWF0Y2hhbnl0aGluZw";

/// What the credential store holds for one login, as far as this core
/// reads it.
#[derive(Debug)]
pub struct CredentialRecord {
    pub user_id: i64,
    pub password_digest: String,
    pub mfa_enabled: bool,
}

/// A successful password check.
#[derive(Clone, Copy, Debug, PartialEq, Eq, Structural)]
pub struct AuthenticateUserOutput {
    pub needs_mfa: bool,
    pub user_id: i64,
}

/// The digest that the password is compared with: the user's own, or the
/// dummy one when the login is unknown.
pub open spec fn digest_to_compare(record: Option<CredentialRecord>) -> Seq<char> {
    match record {
        Some(c) => c.password_digest@,
        None => DUMMY_PASSWORD_DIGEST@,
    }
}

/// Outcome of a password check, given whether the password matched the
/// digest of `digest_to_compare`. The three failures (unknown login, empty
/// password, wrong password) are one and the same error.
pub open spec fn auth_password_spec(
    record: Option<CredentialRecord>,
    password: Seq<char>,
    digest_matches: bool,
) -> Result<AuthenticateUserOutput, AuthError> {
    match record {
        Some(c) => {
            if password.len() > 0 && digest_matches {
                Ok(AuthenticateUserOutput { needs_mfa: c.mfa_enabled, user_id: c.user_id })
            } else {
                Err(AuthError::InvalidAuthentication)
            }
        },
        None => Err(AuthError::InvalidAuthentication),
    }
}

/// The digest against which `password` must be checked before
/// `authenticate_password` is called. An empty password is refused at once;
/// any other is always given a digest, whether or not the login exists.
pub fn digest_for_check(record: &Option<CredentialRecord>, password: &String) -> (r: Result<
    String,
    AuthError,
>)
    ensures
        password@.len() == 0 ==> r == Err::<String, AuthError>(AuthError::InvalidAuthentication),
        password@.len() > 0 ==> (r matches Ok(d) && d@ == digest_to_compare(*record)),
{
    if password.as_str().is_empty() {
        return Err(AuthError::InvalidAuthentication);
    }
    match record {
        Some(c) => Ok(c.password_digest.clone()),
        None => Ok(DUMMY_PASSWORD_DIGEST.to_owned()),
    }
}

/// Decides a login attempt from the looked-up record and the result of the
/// digest comparison.
pub fn authenticate_password(
    record: &Option<CredentialRecord>,
    password: &String,
    digest_matches: bool,
) -> (r: Result<AuthenticateUserOutput, AuthError>)
    ensures
        r == auth_password_spec(*record, password@, digest_matches),
{
    match record {
        Some(c) => {
            if !password.as_str().is_empty() && digest_matches {
                Ok(AuthenticateUserOutput { needs_mfa: c.mfa_enabled, user_id: c.user_id })
            } else {
                Err(AuthError::InvalidAuthentication)
            }
        },
        None => Err(AuthError::InvalidAuthentication),
    }
}

/// The error a login caller may see: a bad login stays a bad login, every
/// other failure becomes a server error.
pub open spec fn login_error_spec(e: AuthError) -> AuthError {
    match e {
        AuthError::InvalidAuthentication => AuthError::InvalidAuthentication,
        _ => AuthError::ServerError,
    }
}

pub fn login_error(e: AuthError) -> (r: AuthError)
    ensures
        r == login_error_spec(e),
{
    match e {
        AuthError::InvalidAuthentication => AuthError::InvalidAuthentication,
        _ => AuthError::ServerError,
    }
}

} // verus!
