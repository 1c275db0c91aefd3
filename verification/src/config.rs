//! The settings of the service, and the environment it runs in.

use crate::domain::subscriber_email::is_valid_email;
use crate::domain::subscriber_email::rejection_message;
use crate::domain::subscriber_email::SubscriberEmail;
use vstd::prelude::*;
use vstd::string::*;

verus! {

/// All settings.
#[derive(Debug)]
pub struct Settings {
    pub database: DatabaseSettings,
    pub application: ApplicationSettings,
    pub email_client: EmailClientSettings,
}

/// How the database is reached.
#[derive(Debug)]
pub struct DatabaseSettings {
    pub username: String,
    pub password: String,
    pub host: String,
    pub port: u16,
    pub database_name: String,
    pub require_ssl: bool,
}

/// Where the application listens.
#[derive(Debug)]
pub struct ApplicationSettings {
    pub port: u16,
    pub host: String,
}

/// How the mail service is reached.
#[derive(Debug)]
pub struct EmailClientSettings {
    pub base_url: String,
    pub sender_email: String,
    pub auth_token: String,
    pub timeout_milliseconds: u64,
}

/// Whether a connection to the database must be encrypted or merely should be.
#[derive(Clone, Copy, Debug, PartialEq, Eq, Structural)]
pub enum SslMode {
    Require,
    Prefer,
}

impl DatabaseSettings {
    /// Encryption is required where the settings ask for it and preferred
    /// where they do not.
    pub fn ssl_mode(&self) -> (mode: SslMode)
        ensures
            mode == if self.require_ssl {
                SslMode::Require
            } else {
                SslMode::Prefer
            },
    {
        if self.require_ssl {
            SslMode::Require
        } else {
            SslMode::Prefer
        }
    }
}

impl EmailClientSettings {
    /// The sender's address, validated.
    pub fn sender_email(&self) -> (r: Result<SubscriberEmail, String>)
        ensures
            match r {
                Ok(address) => is_valid_email(self.sender_email@) && address@
                    == self.sender_email@,
                Err(message) => !is_valid_email(self.sender_email@) && message@
                    == rejection_message(self.sender_email@),
            },
    {
        SubscriberEmail::parse(self.sender_email.clone())
    }

    /// The longest that a request to the mail service may take, in milliseconds.
    pub fn timeout(&self) -> (milliseconds: u64)
        ensures
            milliseconds == self.timeout_milliseconds,
    {
        self.timeout_milliseconds
    }
}

/// The environment the service runs in.
#[derive(Clone, Copy, Debug, PartialEq, Eq, Structural)]
pub enum Environment {
    LOCAL,
    PROD,
}

/// What `str::to_lowercase` gives for the text.
pub uninterp spec fn lowercase(text: Seq<char>) -> Seq<char>;

/// Calls `str::to_lowercase`, which gives the lowercase equivalent of the
/// text as a new string. What it gives depends on the text alone and is
/// taken on trust under the name `lowercase`.
#[verifier::external_body]
fn to_lowercase(text: &str) -> (lower: String)
    ensures
        lower@ == lowercase(text@),
{
    text.to_lowercase()
}

/// The text that an unknown environment is reported with.
pub open spec fn unsupported_environment(name: Seq<char>) -> Seq<char> {
    name + " is not a supported environment. Use either 'local' or 'prod'"@
}

/// The environment that a name stands for, whatever its case.
pub open spec fn environment_named(value: Seq<char>) -> Result<Environment, Seq<char>> {
    if lowercase(value) == "local"@ {
        Ok(Environment::LOCAL)
    } else if lowercase(value) == "prod"@ {
        Ok(Environment::PROD)
    } else {
        Err(unsupported_environment(lowercase(value)))
    }
}

impl Environment {
    /// The lower-case name of the environment, as used in the names of
    /// configuration files.
    pub open spec fn name(self) -> Seq<char> {
        match self {
            Environment::LOCAL => "local"@,
            Environment::PROD => "prod"@,
        }
    }

    pub fn as_str(&self) -> (s: &'static str)
        ensures
            s@ == self.name(),
    {
        match self {
            Environment::LOCAL => "local",
            Environment::PROD => "prod",
        }
    }

    /// Reads the name of an environment, whatever its case.
    pub fn try_from(value: String) -> (r: Result<Environment, String>)
        ensures
            match r {
                Ok(environment) => environment_named(value@) == Ok::<Environment, Seq<char>>(
                    environment,
                ),
                Err(message) => environment_named(value@) == Err::<Environment, Seq<char>>(
                    message@,
                ),
            },
    {
        let lower = to_lowercase(value.as_str());
        if lower == String::from_str("local") {
            Ok(Environment::LOCAL)
        } else if lower == String::from_str("prod") {
            Ok(Environment::PROD)
        } else {
            let mut message = lower;
            message.append(" is not a supported environment. Use either 'local' or 'prod'");
            Err(message)
        }
    }
}

} // verus!
