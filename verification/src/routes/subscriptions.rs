//! Subscribing: the token of a new subscription and the email that asks
//! for its confirmation.

use crate::domain::subscriber_email::is_valid_email;
use crate::domain::subscriber_email::rejection_message;
use crate::domain::subscriber_email::SubscriberEmail;
use crate::email_client::Email;
use crate::email_client::EmailView;
use crate::store::IssueView;
use vstd::prelude::*;
use vstd::string::*;

verus! {

/// The fields of a request to subscribe.
#[derive(Debug)]
pub struct FormData {
    pub email: String,
    pub name: String,
}

/// The step at which subscribing failed for a reason that is not the
/// subscriber's.
#[derive(Clone, Copy, Debug, PartialEq, Eq, Structural)]
pub enum SubscribeFault {
    AcquireConnection,
    InsertSubscriber,
    StoreToken,
    Commit,
    SendEmail,
}

impl SubscribeFault {
    /// The text that the failure is reported with.
    pub open spec fn message_text(self) -> Seq<char> {
        match self {
            SubscribeFault::AcquireConnection => "Failed to acquire a Postgres connection from the pool"@,
            SubscribeFault::InsertSubscriber => "Failed to insert new subscriber in the database."@,
            SubscribeFault::StoreToken => "Failed to store the confirmation token for a new subscriber."@,
            SubscribeFault::Commit => "Failed to commit SQL transaction to store a new subscriber."@,
            SubscribeFault::SendEmail => "Failed to send a confirmation email."@,
        }
    }

    pub fn message(&self) -> (text: String)
        ensures
            text@ == self.message_text(),
    {
        match self {
            SubscribeFault::AcquireConnection => String::from_str(
                "Failed to acquire a Postgres connection from the pool",
            ),
            SubscribeFault::InsertSubscriber => String::from_str(
                "Failed to insert new subscriber in the database.",
            ),
            SubscribeFault::StoreToken => String::from_str(
                "Failed to store the confirmation token for a new subscriber.",
            ),
            SubscribeFault::Commit => String::from_str(
                "Failed to commit SQL transaction to store a new subscriber.",
            ),
            SubscribeFault::SendEmail => String::from_str("Failed to send a confirmation email."),
        }
    }
}

/// The token of a subscription could not be stored.
#[derive(Clone, Copy, Debug, PartialEq, Eq, Structural)]
pub struct StoreTokenError;

impl StoreTokenError {
    pub fn message(&self) -> (text: String)
        ensures
            text@ == "A database error occurred while trying to store a subscription token"@,
    {
        String::from_str("A database error occurred while trying to store a subscription token")
    }
}

/// Why a request to subscribe failed.
#[derive(Debug)]
pub enum SubscribeError {
    /// A field of the request is not acceptable; the text says why.
    ValidationError(String),
    UnexpectedError(SubscribeFault),
}

impl SubscribeError {
    /// The status that the error is answered with.
    pub open spec fn status(self) -> u16 {
        match self {
            SubscribeError::ValidationError(_) => 400,
            SubscribeError::UnexpectedError(_) => 500,
        }
    }

    /// The text that the error is reported with.
    pub open spec fn message_text(self) -> Seq<char> {
        match self {
            SubscribeError::ValidationError(text) => text@,
            SubscribeError::UnexpectedError(fault) => fault.message_text(),
        }
    }

    pub fn status_code(&self) -> (code: u16)
        ensures
            code == self.status(),
    {
        match self {
            SubscribeError::ValidationError(_) => 400,
            SubscribeError::UnexpectedError(_) => 500,
        }
    }

    pub fn message(&self) -> (text: String)
        ensures
            text@ == self.message_text(),
    {
        match self {
            SubscribeError::ValidationError(text) => text.clone(),
            SubscribeError::UnexpectedError(fault) => fault.message(),
        }
    }
}

/// The address of a request to subscribe, validated.
pub fn subscriber_email(form: &FormData) -> (r: Result<SubscriberEmail, SubscribeError>)
    ensures
        match r {
            Ok(address) => is_valid_email(form.email@) && address@ == form.email@,
            Err(SubscribeError::ValidationError(text)) => !is_valid_email(form.email@) && text@
                == rejection_message(form.email@),
            Err(_) => false,
        },
{
    match SubscriberEmail::parse(form.email.clone()) {
        Ok(address) => Ok(address),
        Err(text) => Err(SubscribeError::ValidationError(text)),
    }
}

/// The characters of a token: ASCII letters and digits.
pub open spec fn is_alphanumeric(c: char) -> bool {
    ||| ('a' <= c && c <= 'z')
    ||| ('A' <= c && c <= 'Z')
    ||| ('0' <= c && c <= '9')
}

/// The number of characters of a subscription token.
pub const TOKEN_LENGTH: usize = 25;

/// Calls `rand::Rng::sample` on `rand::thread_rng()` with the distribution
/// `Alphanumeric`, which draws one of the ASCII letters and digits, and gives
/// it as a string of that one character.
#[verifier::external_body]
fn sample_alphanumeric() -> (s: String)
    ensures
        s@.len() == 1,
        is_alphanumeric(s@[0]),
{
    String::from(
        char::from(rand::Rng::sample(&mut rand::thread_rng(), rand::distributions::Alphanumeric)),
    )
}

/// A fresh random token for a subscription: 25 ASCII letters and digits.
pub fn generate_subscription_token() -> (token: String)
    ensures
        token@.len() == TOKEN_LENGTH,
        forall|i: int| 0 <= i < token@.len() ==> is_alphanumeric(#[trigger] token@[i]),
{
    let mut token = String::new();
    let mut i: usize = 0;
    while i < TOKEN_LENGTH
        invariant
            i <= TOKEN_LENGTH,
            token@.len() == i,
            forall|j: int| 0 <= j < token@.len() ==> is_alphanumeric(#[trigger] token@[j]),
        decreases TOKEN_LENGTH - i,
    {
        let c = sample_alphanumeric();
        token.append(c.as_str());
        i = i + 1;
    }
    token
}

/// The link that confirms the subscription with the given token.
pub open spec fn confirmation_link(base_url: Seq<char>, token: Seq<char>) -> Seq<char> {
    base_url + "/subscriptions/confirm?subscription_token="@ + token
}

/// The HTML body of the email that asks for confirmation.
pub open spec fn confirmation_html(link: Seq<char>) -> Seq<char> {
    "Welcome to our newsletter!<br/>Click <a href=\""@ + link
        + "\">here</a> to confirm your subscription."@
}

/// The plain body of the email that asks for confirmation.
pub open spec fn confirmation_text(link: Seq<char>) -> Seq<char> {
    "Welcome to our newsletter!\nVisit "@ + link + " to confirm your subscription."@
}

/// The email that asks a new subscriber to confirm, with the link to do so.
pub fn confirmation_email(recipient: &SubscriberEmail, base_url: &str, subscription_token: &str) -> (email:
    Email)
    ensures
        email@ == (EmailView {
            recipient: recipient@,
            content: IssueView {
                title: "Welcome!"@,
                html_content: confirmation_html(confirmation_link(base_url@, subscription_token@)),
                text_content: confirmation_text(confirmation_link(base_url@, subscription_token@)),
            },
        }),
{
    let mut link = String::from_str(base_url);
    link.append("/subscriptions/confirm?subscription_token=");
    link.append(subscription_token);
    let mut html_content = String::from_str("Welcome to our newsletter!<br/>Click <a href=\"");
    html_content.append(link.as_str());
    html_content.append("\">here</a> to confirm your subscription.");
    let mut text_content = String::from_str("Welcome to our newsletter!\nVisit ");
    text_content.append(link.as_str());
    text_content.append(" to confirm your subscription.");
    Email {
        recipient: String::from_str(recipient.as_ref()),
        subject: String::from_str("Welcome!"),
        html_content,
        text_content,
    }
}

} // verus!
