//! Failures of a publish request and how they are answered, and the
//! subscribers an issue goes to.

use crate::authentication::basic::basic_auth_error;
use crate::authentication::basic::base64_decoded;
use crate::authentication::basic::basic_authentication;
use crate::authentication::basic::is_split_of;
use crate::authentication::basic::AuthorizationHeader;
use crate::authentication::basic::BasicAuthError;
use crate::authentication::password::credentials_verdict;
use crate::authentication::password::validate_credentials;
use crate::authentication::password::Credentials;
use crate::authentication::password::StoredCredentials;
use crate::authentication::password::AuthError;
use crate::authentication::password::AuthFault;
use crate::authentication::password::CredentialsFault;
use crate::domain::subscriber_email::is_valid_email;
use crate::domain::subscriber_email::rejection_message;
use crate::domain::subscriber_email::SubscriberEmail;
use crate::idempotency::key::KeyError;
use crate::idempotency::persistence::HeaderPairRecord;
use crate::idempotency::persistence::IdempotencyError;
use crate::idempotency::persistence::Response;
use crate::idempotency::persistence::ResponseView;
use vstd::prelude::*;
use vstd::string::*;
use vstd::utf8::decode_utf8;
use vstd::utf8::encode_utf8;

verus! {

/// The body of a publish request that carries the issue as JSON.
#[derive(Debug)]
pub struct BodyData {
    pub title: String,
    pub content: Content,
}

/// The two bodies of an issue.
#[derive(Debug)]
pub struct Content {
    pub html: String,
    pub text: String,
}

impl BodyData {
    /// The fields of the publish request that carries this issue under the
    /// given idempotency key.
    pub fn into_form(self, idempotency_key: String) -> (form: crate::routes::admin::newsletters::FormData)
        ensures
            form.title@ == self.title@,
            form.html_content@ == self.content.html@,
            form.text_content@ == self.content.text@,
            form.idempotency_key@ == idempotency_key@,
    {
        crate::routes::admin::newsletters::FormData {
            title: self.title,
            html_content: self.content.html,
            text_content: self.content.text,
            idempotency_key,
        }
    }
}

/// Why the sender of a publish request was not recognised.
#[derive(Clone, Copy, Debug, PartialEq, Eq, Structural)]
pub enum AuthRejection {
    /// The `Authorization` header gave no credentials.
    Header(BasicAuthError),
    /// The credentials are not those of a user.
    Credentials(CredentialsFault),
}

/// What failed a publish request for a reason that is not the client's.
#[derive(Clone, Copy, Debug, PartialEq, Eq, Structural)]
pub enum PublishFault {
    /// The idempotency table or the commit failed the request.
    Idempotency(IdempotencyError),
    /// The credentials could not be checked.
    Authentication(AuthFault),
    /// The storage failed, or refused a write.
    Storage,
}

/// Why a publish request failed.
#[derive(Clone, Copy, Debug, PartialEq, Eq, Structural)]
pub enum PublishError {
    /// The idempotency key is malformed. Nothing was read or written.
    ValidationError(KeyError),
    /// The sender is not a user.
    AuthError(AuthRejection),
    UnexpectedError(PublishFault),
}

impl PublishError {
    /// The error that a failure to check credentials is reported as.
    pub open spec fn of(e: AuthError) -> PublishError {
        match e {
            AuthError::InvalidCredentials(fault) => PublishError::AuthError(
                AuthRejection::Credentials(fault),
            ),
            AuthError::UnexpectedError(fault) => PublishError::UnexpectedError(
                PublishFault::Authentication(fault),
            ),
        }
    }

    /// Reports a failure to check credentials as a failure to publish.
    pub fn from_auth_error(e: AuthError) -> (error: PublishError)
        ensures
            error == PublishError::of(e),
    {
        match e {
            AuthError::InvalidCredentials(fault) => PublishError::AuthError(
                AuthRejection::Credentials(fault),
            ),
            AuthError::UnexpectedError(fault) => PublishError::UnexpectedError(
                PublishFault::Authentication(fault),
            ),
        }
    }

    /// The status that the error is answered with.
    pub open spec fn status(self) -> u16 {
        match self {
            PublishError::ValidationError(_) => 400,
            PublishError::AuthError(_) => 401,
            PublishError::UnexpectedError(_) => 500,
        }
    }

    /// The response that the error is answered with: a malformed key with
    /// status 400 and the reason as its body, an unknown sender with status
    /// 401 and a challenge for the realm `publish`, anything else with
    /// status 500.
    pub open spec fn response_view(self) -> ResponseView {
        match self {
            PublishError::ValidationError(e) => ResponseView {
                status_code: 400,
                headers: Seq::empty(),
                body: encode_utf8(e.message_text()),
            },
            PublishError::AuthError(_) => ResponseView {
                status_code: 401,
                headers: seq![("www-authenticate"@, encode_utf8("Basic realm=\"publish\""@))],
                body: Seq::empty(),
            },
            PublishError::UnexpectedError(_) => ResponseView {
                status_code: 500,
                headers: Seq::empty(),
                body: Seq::empty(),
            },
        }
    }

    pub fn status_code(&self) -> (code: u16)
        ensures
            code == self.status(),
    {
        match self {
            PublishError::ValidationError(_) => 400,
            PublishError::AuthError(_) => 401,
            PublishError::UnexpectedError(_) => 500,
        }
    }

    pub fn error_response(&self) -> (response: Response)
        ensures
            response@ == self.response_view(),
    {
        let mut headers: Vec<HeaderPairRecord> = Vec::new();
        let mut body: Vec<u8> = Vec::new();
        match self {
            PublishError::ValidationError(e) => {
                body = e.message().as_str().as_bytes_vec();
            },
            PublishError::AuthError(_) => {
                headers.push(
                    HeaderPairRecord {
                        name: String::from_str("www-authenticate"),
                        value: "Basic realm=\"publish\"".as_bytes_vec(),
                    },
                );
            },
            PublishError::UnexpectedError(_) => {},
        }
        let response = Response::build(self.status_code(), headers, body).unwrap();
        proof {
            assert(response@.headers =~= self.response_view().headers);
            assert(response@.body =~= self.response_view().body);
        }
        response
    }
}

/// A subscriber whose subscription is confirmed.
#[derive(Debug)]
pub struct ConfirmedSubscriber {
    pub email: SubscriberEmail,
}

/// Reads the stored addresses of the confirmed subscribers: each becomes a
/// subscriber where it is a valid address, and the reason of its rejection
/// where it is not. Nothing is dropped and the order is kept.
pub fn get_confirmed_subscribers(rows: Vec<String>) -> (subscribers: Vec<
    Result<ConfirmedSubscriber, String>,
>)
    ensures
        subscribers@.len() == rows@.len(),
        forall|i: int|
            0 <= i < rows@.len() ==> (match #[trigger] subscribers@[i] {
                Ok(subscriber) => is_valid_email(rows@[i]@) && subscriber.email@ == rows@[i]@,
                Err(message) => !is_valid_email(rows@[i]@) && message@ == rejection_message(
                    rows@[i]@,
                ),
            }),
{
    let mut subscribers: Vec<Result<ConfirmedSubscriber, String>> = Vec::new();
    let mut i: usize = 0;
    while i < rows.len()
        invariant
            i <= rows@.len(),
            subscribers@.len() == i,
            forall|j: int|
                0 <= j < i ==> (match #[trigger] subscribers@[j] {
                    Ok(subscriber) => is_valid_email(rows@[j]@) && subscriber.email@ == rows@[j]@,
                    Err(message) => !is_valid_email(rows@[j]@) && message@ == rejection_message(
                        rows@[j]@,
                    ),
                }),
        decreases rows@.len() - i,
    {
        let parsed = match SubscriberEmail::parse(rows[i].clone()) {
            Ok(email) => Ok(ConfirmedSubscriber { email }),
            Err(message) => Err(message),
        };
        subscribers.push(parsed);
        i = i + 1;
    }
    subscribers
}

/// Reads the credentials of the sender of a publish request from its
/// `Authorization` header; a header that gives none is an unknown sender.
pub fn sender_credentials(header: AuthorizationHeader) -> (r: Result<Credentials, PublishError>)
    ensures
        match r {
            Ok(credentials) => {
                &&& basic_auth_error(header) is None
                &&& header matches AuthorizationHeader::Text(value) && is_split_of(
                    decode_utf8(base64_decoded(value@.subrange(6, value@.len() as int))->0),
                    credentials.username@,
                    credentials.password@,
                )
            },
            Err(e) => basic_auth_error(header) is Some && e == PublishError::AuthError(
                AuthRejection::Header(basic_auth_error(header)->0),
            ),
        },
{
    match basic_authentication(header) {
        Ok(credentials) => Ok(credentials),
        Err(e) => Err(PublishError::AuthError(AuthRejection::Header(e))),
    }
}

/// The user who sends a publish request, given the credentials of the
/// request and what is stored under their username.
pub fn sender(credentials: Credentials, stored: Option<StoredCredentials>) -> (r: Result<
    u128,
    PublishError,
>)
    ensures
        r == match credentials_verdict(
            credentials.password@,
            match stored {
                Some(s) => Some((s.user_id, s.password_hash@)),
                None => None,
            },
        ) {
            Ok(user_id) => Ok::<u128, PublishError>(user_id),
            Err(e) => Err(PublishError::of(e)),
        },
{
    match validate_credentials(credentials, stored) {
        Ok(user_id) => Ok(user_id),
        Err(e) => Err(PublishError::from_auth_error(e)),
    }
}

} // verus!
