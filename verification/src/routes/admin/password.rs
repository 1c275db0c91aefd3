//! Changing the administrator's password.

use crate::authentication::password::credentials_verdict;
use crate::authentication::password::validate_credentials;
use crate::authentication::password::AuthError;
use crate::authentication::password::AuthFault;
use crate::authentication::password::Credentials;
use crate::authentication::password::StoredCredentials;
use vstd::prelude::*;
use vstd::string::*;
use vstd::utf8::encode_utf8;

verus! {

/// The fields of a request to change the password.
#[derive(Debug)]
pub struct FormData {
    pub old_password: String,
    pub new_password: String,
    pub new_password_confirm: String,
}

/// The shortest new password that is accepted, in bytes.
pub const MIN_PASSWORD_LENGTH: usize = 13;

/// The longest new password that is accepted, in bytes.
pub const MAX_PASSWORD_LENGTH: usize = 128;

/// Why a request to change the password was turned down.
#[derive(Clone, Copy, Debug, PartialEq, Eq, Structural)]
pub enum PasswordRejection {
    /// The new password is shorter than 13 bytes or longer than 128.
    Length,
    /// The new password and its confirmation differ.
    Mismatch,
    /// The current password is not the user's.
    WrongCurrentPassword,
}

impl PasswordRejection {
    /// The text that the user is shown.
    pub open spec fn message_text(self) -> Seq<char> {
        match self {
            PasswordRejection::Length => "New password must be longer than 12 characters and shorter than 129 characters"@,
            PasswordRejection::Mismatch => "You entered two different new passwords - the field values must match."@,
            PasswordRejection::WrongCurrentPassword => "The current password is incorrect"@,
        }
    }

    pub fn message(&self) -> (text: String)
        ensures
            text@ == self.message_text(),
    {
        match self {
            PasswordRejection::Length => String::from_str(
                "New password must be longer than 12 characters and shorter than 129 characters",
            ),
            PasswordRejection::Mismatch => String::from_str(
                "You entered two different new passwords - the field values must match.",
            ),
            PasswordRejection::WrongCurrentPassword => String::from_str(
                "The current password is incorrect",
            ),
        }
    }
}

/// What is wrong with a new password and its confirmation, if anything: the
/// length is judged first, in bytes of UTF-8, then the match.
pub open spec fn new_password_rejection(new_password: Seq<char>, confirmation: Seq<char>) -> Option<
    PasswordRejection,
> {
    let length = encode_utf8(new_password).len();
    if length < MIN_PASSWORD_LENGTH || length > MAX_PASSWORD_LENGTH {
        Some(PasswordRejection::Length)
    } else if new_password != confirmation {
        Some(PasswordRejection::Mismatch)
    } else {
        None
    }
}

/// Judges the new password and its confirmation.
pub fn check_new_password(form: &FormData) -> (r: Result<(), PasswordRejection>)
    ensures
        match r {
            Ok(_) => new_password_rejection(form.new_password@, form.new_password_confirm@)
                is None,
            Err(e) => new_password_rejection(form.new_password@, form.new_password_confirm@)
                == Some(e),
        },
{
    let length = form.new_password.as_str().as_bytes().len();
    if length < MIN_PASSWORD_LENGTH || length > MAX_PASSWORD_LENGTH {
        return Err(PasswordRejection::Length);
    }
    if !(form.new_password == form.new_password_confirm) {
        return Err(PasswordRejection::Mismatch);
    }
    Ok(())
}

/// What a request to change the password comes to.
#[derive(Debug)]
pub enum PasswordChange {
    /// The user is to be stored with this hash of the new password.
    Accepted { user_id: u128, password_hash: String },
    /// The request is turned down, and the user is told why.
    Rejected(PasswordRejection),
    /// The request failed for a reason that is not the user's.
    Failed(AuthFault),
}

/// What a request to change the password comes to, but for the hash, which
/// is salted at random: `None` where the request is accepted.
pub open spec fn password_change_refusal(
    form: FormData,
    stored: Option<(u128, Seq<char>)>,
) -> Option<PasswordChange> {
    match new_password_rejection(form.new_password@, form.new_password_confirm@) {
        Some(rejection) => Some(PasswordChange::Rejected(rejection)),
        None => match credentials_verdict(form.old_password@, stored) {
            Err(AuthError::InvalidCredentials(_)) => Some(
                PasswordChange::Rejected(PasswordRejection::WrongCurrentPassword),
            ),
            Err(AuthError::UnexpectedError(fault)) => Some(PasswordChange::Failed(fault)),
            Ok(_) => None,
        },
    }
}

/// Decides a request of the user `username` to change the password, given
/// what is stored under that name.
///
/// The new password is judged first, then the current one. Where both pass,
/// the new password is hashed for the user that the current one belongs to.
pub fn change_password(form: FormData, username: String, stored: Option<StoredCredentials>) -> (r:
    PasswordChange)
    ensures
        match r {
            PasswordChange::Accepted { user_id, password_hash } => {
                let stored_view = match stored {
                    Some(s) => Some((s.user_id, s.password_hash@)),
                    None => None,
                };
                &&& password_change_refusal(form, stored_view) is None
                &&& credentials_verdict(form.old_password@, stored_view) == Ok::<u128, AuthError>(
                    user_id,
                )
            },
            refusal => {
                let stored_view = match stored {
                    Some(s) => Some((s.user_id, s.password_hash@)),
                    None => None,
                };
                password_change_refusal(form, stored_view) == Some(refusal)
                    || (password_change_refusal(form, stored_view) is None && refusal
                    == PasswordChange::Failed(AuthFault::HashingFailed))
            },
        },
{
    if let Err(rejection) = check_new_password(&form) {
        return PasswordChange::Rejected(rejection);
    }
    let FormData { old_password, new_password, new_password_confirm: _ } = form;
    let credentials = Credentials { username, password: old_password };
    let user_id = match validate_credentials(credentials, stored) {
        Ok(user_id) => user_id,
        Err(AuthError::InvalidCredentials(_)) => {
            return PasswordChange::Rejected(PasswordRejection::WrongCurrentPassword);
        },
        Err(AuthError::UnexpectedError(fault)) => {
            return PasswordChange::Failed(fault);
        },
    };
    match crate::authentication::password::change_password(user_id, new_password.as_str()) {
        Ok(stored) => PasswordChange::Accepted {
            user_id: stored.user_id,
            password_hash: stored.password_hash,
        },
        Err(_) => PasswordChange::Failed(AuthFault::HashingFailed),
    }
}

} // verus!
