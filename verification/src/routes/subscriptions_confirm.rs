//! Confirming a subscription by its token.

use vstd::prelude::*;
use vstd::string::*;

verus! {

/// The parameters of a request to confirm.
#[derive(Debug)]
pub struct Params {
    pub subscription_token: String,
}

/// The step at which confirming failed for a reason that is not the
/// subscriber's.
#[derive(Clone, Copy, Debug, PartialEq, Eq, Structural)]
pub enum ConfirmFault {
    FindSubscriber,
    ConfirmSubscriber,
}

impl ConfirmFault {
    /// The text that the failure is reported with.
    pub open spec fn message_text(self) -> Seq<char> {
        match self {
            ConfirmFault::FindSubscriber => "Failed to retrieve the subscriber id associated with the provided token."@,
            ConfirmFault::ConfirmSubscriber => "Failed to confirm new subscriber"@,
        }
    }
}

/// Why a request to confirm failed.
#[derive(Clone, Copy, Debug, PartialEq, Eq, Structural)]
pub enum ConfirmSubscriberError {
    /// No subscriber belongs to the token.
    UnauthorizedError,
    UnexpectedError(ConfirmFault),
}

impl ConfirmSubscriberError {
    /// The status that the error is answered with.
    pub open spec fn status(self) -> u16 {
        match self {
            ConfirmSubscriberError::UnauthorizedError => 401,
            ConfirmSubscriberError::UnexpectedError(_) => 500,
        }
    }

    /// The text that the error is reported with.
    pub open spec fn message_text(self) -> Seq<char> {
        match self {
            ConfirmSubscriberError::UnauthorizedError => "There is no subscriber associated with the provided token."@,
            ConfirmSubscriberError::UnexpectedError(fault) => fault.message_text(),
        }
    }

    pub fn status_code(&self) -> (code: u16)
        ensures
            code == self.status(),
    {
        match self {
            ConfirmSubscriberError::UnauthorizedError => 401,
            ConfirmSubscriberError::UnexpectedError(_) => 500,
        }
    }

    pub fn message(&self) -> (text: String)
        ensures
            text@ == self.message_text(),
    {
        match self {
            ConfirmSubscriberError::UnauthorizedError => String::from_str(
                "There is no subscriber associated with the provided token.",
            ),
            ConfirmSubscriberError::UnexpectedError(ConfirmFault::FindSubscriber) => String::from_str(
                "Failed to retrieve the subscriber id associated with the provided token.",
            ),
            ConfirmSubscriberError::UnexpectedError(ConfirmFault::ConfirmSubscriber) => String::from_str(
                "Failed to confirm new subscriber",
            ),
        }
    }
}

/// What the search for a token's subscriber came to.
#[derive(Clone, Copy, Debug, PartialEq, Eq, Structural)]
pub enum TokenLookup {
    /// The token belongs to the subscriber with this identifier.
    Found(u128),
    /// The token belongs to no subscriber.
    Unknown,
    /// The storage failed.
    Failed,
}

/// The subscriber to confirm, given what the search for the token came to.
pub fn subscriber_to_confirm(lookup: TokenLookup) -> (r: Result<u128, ConfirmSubscriberError>)
    ensures
        r == match lookup {
            TokenLookup::Found(subscriber_id) => Ok::<u128, ConfirmSubscriberError>(subscriber_id),
            TokenLookup::Unknown => Err(ConfirmSubscriberError::UnauthorizedError),
            TokenLookup::Failed => Err(
                ConfirmSubscriberError::UnexpectedError(ConfirmFault::FindSubscriber),
            ),
        },
{
    match lookup {
        TokenLookup::Found(subscriber_id) => Ok(subscriber_id),
        TokenLookup::Unknown => Err(ConfirmSubscriberError::UnauthorizedError),
        TokenLookup::Failed => Err(
            ConfirmSubscriberError::UnexpectedError(ConfirmFault::FindSubscriber),
        ),
    }
}

/// The status that a request to confirm is answered with once the
/// subscriber was marked as confirmed, or could not be.
pub fn confirm(marked_as_confirmed: bool) -> (r: Result<u16, ConfirmSubscriberError>)
    ensures
        r == if marked_as_confirmed {
            Ok::<u16, ConfirmSubscriberError>(200)
        } else {
            Err(ConfirmSubscriberError::UnexpectedError(ConfirmFault::ConfirmSubscriber))
        },
{
    if marked_as_confirmed {
        Ok(200)
    } else {
        Err(ConfirmSubscriberError::UnexpectedError(ConfirmFault::ConfirmSubscriber))
    }
}

} // verus!
