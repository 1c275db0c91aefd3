//! Email addresses that passed syntactic validation.

use vstd::prelude::*;
use vstd::string::*;

verus! {

/// Whether `validator::validate_email` accepts the address.
pub uninterp spec fn is_valid_email(address: Seq<char>) -> bool;

/// Calls `validator::validate_email`, which checks the address against the
/// HTML5 rules for an email address. Its answer depends on the text alone and
/// is taken on trust under the name `is_valid_email`.
#[verifier::external_body]
fn validate_email(address: &str) -> (ok: bool)
    ensures
        ok == is_valid_email(address@),
{
    validator::validate_email(address)
}

/// The text that a rejected address is reported with.
pub open spec fn rejection_message(address: Seq<char>) -> Seq<char> {
    address + " is not a valid subscriber email."@
}

/// An email address that `is_valid_email` accepts.
#[derive(Debug)]
pub struct SubscriberEmail(String);

impl View for SubscriberEmail {
    type V = Seq<char>;

    closed spec fn view(&self) -> Seq<char> {
        self.0@
    }
}

impl SubscriberEmail {
    #[verifier::type_invariant]
    closed spec fn valid(self) -> bool {
        is_valid_email(self.0@)
    }

    /// Accepts exactly the addresses that are valid; a rejected one comes back
    /// inside the message.
    pub fn parse(email: String) -> (r: Result<SubscriberEmail, String>)
        ensures
            match r {
                Ok(address) => is_valid_email(email@) && address@ == email@,
                Err(message) => !is_valid_email(email@) && message@ == rejection_message(email@),
            },
    {
        if !validate_email(email.as_str()) {
            let mut message = email;
            message.append(" is not a valid subscriber email.");
            Err(message)
        } else {
            Ok(SubscriberEmail(email))
        }
    }

    /// The address as text.
    pub fn as_ref(&self) -> (s: &str)
        ensures
            s@ == self@,
            is_valid_email(s@),
    {
        proof {
            use_type_invariant(self);
        }
        self.0.as_str()
    }
}

impl Clone for SubscriberEmail {
    fn clone(&self) -> (copy: Self)
        ensures
            copy@ == self@,
    {
        proof {
            use_type_invariant(self);
        }
        SubscriberEmail(self.0.clone())
    }
}

} // verus!
