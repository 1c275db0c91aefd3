//! Signing in.

use crate::authentication::password::credentials_verdict;
use crate::authentication::password::validate_credentials;
use crate::authentication::password::AuthError;
use crate::authentication::password::AuthFault;
use crate::authentication::password::Credentials;
use crate::authentication::password::CredentialsFault;
use crate::authentication::password::StoredCredentials;
use crate::idempotency::persistence::Response;
use crate::utils::see_other;
use crate::utils::see_other_view;
use vstd::prelude::*;
use vstd::string::*;

verus! {

/// The fields of a request to sign in.
#[derive(Debug)]
pub struct FormData {
    pub username: String,
    pub password: String,
}

/// What went wrong at signing in apart from the credentials.
#[derive(Clone, Copy, Debug, PartialEq, Eq, Structural)]
pub enum LoginFault {
    /// The credentials could not be checked.
    Authentication(AuthFault),
    /// The session could not take the user's identifier.
    Session,
}

/// Why a request to sign in failed.
#[derive(Clone, Copy, Debug, PartialEq, Eq, Structural)]
pub enum LoginError {
    AuthError(CredentialsFault),
    UnexpectedError(LoginFault),
}

impl LoginError {
    /// The text that the user is shown.
    pub open spec fn message_text(self) -> Seq<char> {
        match self {
            LoginError::AuthError(_) => "Authentication failed"@,
            LoginError::UnexpectedError(_) => "Something went wrong"@,
        }
    }

    pub fn message(&self) -> (text: String)
        ensures
            text@ == self.message_text(),
    {
        match self {
            LoginError::AuthError(_) => String::from_str("Authentication failed"),
            LoginError::UnexpectedError(_) => String::from_str("Something went wrong"),
        }
    }

    /// The error that a failure to check credentials is reported as.
    pub open spec fn of(e: AuthError) -> LoginError {
        match e {
            AuthError::InvalidCredentials(fault) => LoginError::AuthError(fault),
            AuthError::UnexpectedError(fault) => LoginError::UnexpectedError(
                LoginFault::Authentication(fault),
            ),
        }
    }
}

/// A failed attempt to sign in: the error, the message to show on the next
/// page, and the response that sends the client back to the form.
#[derive(Debug)]
pub struct LoginFailure {
    pub error: LoginError,
    pub flash_message: String,
    pub response: Response,
}

impl LoginFailure {
    /// The failure is the one that `e` leads to.
    pub open spec fn is_for(self, e: LoginError) -> bool {
        &&& self.error == e
        &&& self.flash_message@ == e.message_text()
        &&& self.response@ == see_other_view("/login"@)
    }
}

/// Sends the client back to the form, with the error's text to show there.
pub fn login_failure_redirect(e: LoginError) -> (failure: LoginFailure)
    ensures
        failure.is_for(e),
{
    LoginFailure { error: e, flash_message: e.message(), response: see_other("/login") }
}

/// Decides a request to sign in, given what is stored under its username:
/// the user for whom a session is to be started, or the failure.
pub fn login(form: FormData, stored: Option<StoredCredentials>) -> (r: Result<u128, LoginFailure>)
    ensures
        match r {
            Ok(user_id) => credentials_verdict(
                form.password@,
                match stored {
                    Some(s) => Some((s.user_id, s.password_hash@)),
                    None => None,
                },
            ) == Ok::<u128, AuthError>(user_id),
            Err(failure) => {
                let verdict = credentials_verdict(
                    form.password@,
                    match stored {
                        Some(s) => Some((s.user_id, s.password_hash@)),
                        None => None,
                    },
                );
                verdict is Err && failure.is_for(LoginError::of(verdict->Err_0))
            },
        },
{
    let credentials = Credentials { username: form.username, password: form.password };
    match validate_credentials(credentials, stored) {
        Ok(user_id) => Ok(user_id),
        Err(e) => {
            let e = match e {
                AuthError::InvalidCredentials(fault) => LoginError::AuthError(fault),
                AuthError::UnexpectedError(fault) => LoginError::UnexpectedError(
                    LoginFault::Authentication(fault),
                ),
            };
            Err(login_failure_redirect(e))
        },
    }
}

/// Ends a request to sign in once the session was asked to take the user's
/// identifier: on to the dashboard where it did, back to the form where it
/// did not.
pub fn session_started(stored_in_session: bool) -> (r: Result<Response, LoginFailure>)
    ensures
        match r {
            Ok(response) => stored_in_session && response@ == see_other_view("/admin/dashboard"@),
            Err(failure) => !stored_in_session && failure.is_for(
                LoginError::UnexpectedError(LoginFault::Session),
            ),
        },
{
    if stored_in_session {
        Ok(see_other("/admin/dashboard"))
    } else {
        Err(login_failure_redirect(LoginError::UnexpectedError(LoginFault::Session)))
    }
}

} // verus!
