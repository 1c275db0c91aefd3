//! The mail service: a mailer held in memory that keeps every email it is
//! handed, the request that carries an email to the service, and the
//! verdict on what the service answers.

use crate::domain::subscriber_email::SubscriberEmail;
use crate::store::IssueView;
use vstd::prelude::*;
use vstd::string::*;

verus! {

/// The mailer did not accept an email.
#[derive(Clone, Copy, Debug, PartialEq, Eq, Structural)]
pub enum SendError {
    /// No answer came: the mail service could not be reached, or it took
    /// longer than the timeout.
    Transport,
    /// The mail service answered with this status, a client or server error.
    Status(u16),
}

/// One email as it was handed to a mailer.
#[derive(Debug)]
pub struct Email {
    pub recipient: String,
    pub subject: String,
    pub html_content: String,
    pub text_content: String,
}

/// An email as plain values: the recipient, and subject and bodies as the
/// content of an issue.
pub struct EmailView {
    pub recipient: Seq<char>,
    pub content: IssueView,
}

impl View for Email {
    type V = EmailView;

    open spec fn view(&self) -> EmailView {
        EmailView {
            recipient: self.recipient@,
            content: IssueView {
                title: self.subject@,
                html_content: self.html_content@,
                text_content: self.text_content@,
            },
        }
    }
}

/// The emails of a list, in order, as plain values.
pub open spec fn emails_view(emails: Seq<Email>) -> Seq<EmailView> {
    Seq::new(emails.len(), |i: int| emails[i]@)
}

/// A mailer that sends nothing and keeps every email it is handed. It
/// refuses the emails to the addresses it was told to refuse, as a mail
/// service that cannot be reached would, and accepts the others.
#[derive(Debug)]
pub struct Outbox {
    attempts: Vec<Email>,
    refused: Vec<String>,
}

impl Outbox {
    /// The emails handed to this outbox so far, oldest first.
    pub closed spec fn attempts(&self) -> Seq<EmailView> {
        emails_view(self.attempts@)
    }

    /// The addresses that this outbox refuses.
    pub closed spec fn refused(self) -> Seq<Seq<char>> {
        crate::store::texts(self.refused@)
    }

    /// An outbox without attempts that refuses the given addresses.
    pub fn new(refused: Vec<String>) -> (outbox: Outbox)
        ensures
            outbox.attempts() == Seq::<EmailView>::empty(),
            outbox.refused() == crate::store::texts(refused@),
    {
        let outbox = Outbox { attempts: Vec::new(), refused };
        proof {
            assert(outbox.attempts() =~= Seq::<EmailView>::empty());
        }
        outbox
    }

    /// The number of emails handed to this outbox.
    pub fn len(&self) -> (n: usize)
        ensures
            n == self.attempts().len(),
    {
        self.attempts.len()
    }

    /// The `i`-th email handed to this outbox, counting from 0, if there
    /// were that many.
    pub fn get(&self, i: usize) -> (r: Option<&Email>)
        ensures
            match r {
                Some(email) => i < self.attempts().len() && email@ == self.attempts()[i as int],
                None => i >= self.attempts().len(),
            },
    {
        if i < self.attempts.len() {
            Some(&self.attempts[i])
        } else {
            None
        }
    }

    fn refuses(&self, address: &String) -> (b: bool)
        ensures
            b == self.refused().contains(address@),
    {
        let mut i: usize = 0;
        while i < self.refused.len()
            invariant
                i <= self.refused@.len(),
                forall|j: int| 0 <= j < i ==> self.refused()[j] != address@,
            decreases self.refused@.len() - i,
        {
            if self.refused[i] == *address {
                assert(self.refused()[i as int] == address@);
                return true;
            }
            i = i + 1;
        }
        false
    }

    /// Keeps the email, and accepts it unless its recipient is to be refused.
    pub fn send_email(
        &mut self,
        recipient: &SubscriberEmail,
        subject: &str,
        html_content: &str,
        text_content: &str,
    ) -> (r: Result<(), SendError>)
        ensures
            final(self).attempts() == old(self).attempts().push(
                EmailView {
                    recipient: recipient@,
                    content: IssueView {
                        title: subject@,
                        html_content: html_content@,
                        text_content: text_content@,
                    },
                },
            ),
            final(self).refused() == old(self).refused(),
            r == if old(self).refused().contains(recipient@) {
                Err::<(), SendError>(SendError::Transport)
            } else {
                Ok::<(), SendError>(())
            },
    {
        let address = String::from_str(recipient.as_ref());
        let refuse = self.refuses(&address);
        let ghost before = self.attempts();
        self.attempts.push(
            Email {
                recipient: address,
                subject: String::from_str(subject),
                html_content: String::from_str(html_content),
                text_content: String::from_str(text_content),
            },
        );
        proof {
            assert(self.attempts() =~= before.push(
                EmailView {
                    recipient: recipient@,
                    content: IssueView {
                        title: subject@,
                        html_content: html_content@,
                        text_content: text_content@,
                    },
                },
            ));
        }
        if refuse {
            Err(SendError::Transport)
        } else {
            Ok(())
        }
    }
}

/// The body of a request to the mail service.
#[derive(Debug)]
pub struct SendEmailRequest {
    pub from: String,
    pub to: String,
    pub subject: String,
    pub html_body: String,
    pub text_body: String,
}

/// A request to the mail service: where it is posted, the token that
/// authorises it, its body, and how long it may take.
#[derive(Debug)]
pub struct PostRequest {
    pub url: String,
    pub token: String,
    pub body: SendEmailRequest,
    pub timeout_milliseconds: u64,
}

/// The name of the header that carries the token.
pub const TOKEN_HEADER: &'static str = "X-Postmark-Server-Token";

/// What is needed to reach the mail service.
#[derive(Debug)]
pub struct EmailClient {
    base_url: String,
    sender_email: SubscriberEmail,
    authorization_token: String,
    timeout_milliseconds: u64,
}

/// What an email client holds.
pub struct EmailClientView {
    pub base_url: Seq<char>,
    pub sender_email: Seq<char>,
    pub authorization_token: Seq<char>,
    pub timeout_milliseconds: u64,
}

impl View for EmailClient {
    type V = EmailClientView;

    closed spec fn view(&self) -> EmailClientView {
        EmailClientView {
            base_url: self.base_url@,
            sender_email: self.sender_email@,
            authorization_token: self.authorization_token@,
            timeout_milliseconds: self.timeout_milliseconds,
        }
    }
}

impl EmailClient {
    pub fn new(
        base_url: String,
        sender_email: SubscriberEmail,
        authorization_token: String,
        timeout_milliseconds: u64,
    ) -> (client: EmailClient)
        ensures
            client@ == (EmailClientView {
                base_url: base_url@,
                sender_email: sender_email@,
                authorization_token: authorization_token@,
                timeout_milliseconds,
            }),
    {
        EmailClient { base_url, sender_email, authorization_token, timeout_milliseconds }
    }

    /// The request that sends the email: posted to `/email` under the base
    /// address, from the client's sender to the recipient.
    pub fn send_email_request(
        &self,
        recipient: &SubscriberEmail,
        subject: &str,
        html_content: &str,
        text_content: &str,
    ) -> (request: PostRequest)
        ensures
            request.url@ == self@.base_url + "/email"@,
            request.token@ == self@.authorization_token,
            request.timeout_milliseconds == self@.timeout_milliseconds,
            request.body.from@ == self@.sender_email,
            request.body.to@ == recipient@,
            request.body.subject@ == subject@,
            request.body.html_body@ == html_content@,
            request.body.text_body@ == text_content@,
    {
        let mut url = self.base_url.clone();
        url.append("/email");
        PostRequest {
            url,
            token: self.authorization_token.clone(),
            body: SendEmailRequest {
                from: String::from_str(self.sender_email.as_ref()),
                to: String::from_str(recipient.as_ref()),
                subject: String::from_str(subject),
                html_body: String::from_str(html_content),
                text_body: String::from_str(text_content),
            },
            timeout_milliseconds: self.timeout_milliseconds,
        }
    }
}

/// The statuses that count as a failed delivery: the client and the server
/// errors.
pub open spec fn is_error_status(code: u16) -> bool {
    400 <= code < 600
}

/// What a delivery came to, given the status that the mail service answered
/// with, `None` where no answer came.
pub open spec fn delivery_verdict(status: Option<u16>) -> Result<(), SendError> {
    match status {
        None => Err(SendError::Transport),
        Some(code) => if is_error_status(code) {
            Err(SendError::Status(code))
        } else {
            Ok(())
        },
    }
}

/// Judges a delivery by the status that the mail service answered with.
pub fn delivery_result(status: Option<u16>) -> (r: Result<(), SendError>)
    ensures
        r == delivery_verdict(status),
{
    match status {
        None => Err(SendError::Transport),
        Some(code) => if 400 <= code && code < 600 {
            Err(SendError::Status(code))
        } else {
            Ok(())
        },
    }
}

} // verus!
