//! Checking a password against the stored hash of a user.

use vstd::prelude::*;
use vstd::string::*;

verus! {

/// Whether `argon2::PasswordHash::new` accepts the text as a hash in the PHC
/// string format.
pub uninterp spec fn is_phc_string(hash: Seq<char>) -> bool;

/// Whether `argon2::Argon2::default().verify_password` accepts the password
/// for the hash, a well-formed PHC string.
pub uninterp spec fn password_matches(hash: Seq<char>, password: Seq<char>) -> bool;

/// Calls `argon2::PasswordHash::new`, which parses a hash in the PHC string
/// format. Whether it succeeds depends on the text alone and is taken on
/// trust under the name `is_phc_string`.
#[verifier::external_body]
fn parses_as_phc_string(hash: &str) -> (ok: bool)
    ensures
        ok == is_phc_string(hash@),
{
    argon2::PasswordHash::new(hash).is_ok()
}

/// Calls `argon2::PasswordVerifier::verify_password` on `Argon2::default()`
/// with the parsed hash. It hashes the password with the parameters and the
/// salt of the hash and compares; the answer depends on the two texts alone
/// and is taken on trust under the name `password_matches`.
#[verifier::external_body]
fn hash_accepts(hash: &str, password: &str) -> (ok: bool)
    requires
        is_phc_string(hash@),
    ensures
        ok == password_matches(hash@, password@),
{
    match argon2::PasswordHash::new(hash) {
        Ok(parsed) => argon2::PasswordVerifier::verify_password(
            &argon2::Argon2::default(),
            password.as_bytes(),
            &parsed,
        ).is_ok(),
        Err(_) => false,
    }
}

/// Calls `argon2::PasswordHasher::hash_password` on an Argon2id hasher of
/// version 0x13 with the given costs, and with a salt from
/// `SaltString::generate` on `rand::thread_rng()`, and gives the hash in the
/// PHC string format.
///
/// The salt is random, so the text differs from call to call, and the hasher
/// may fail. Taken on trust of a hash that it gives: the text is one that
/// `PasswordHash::new` parses, since it is what `PasswordHash` writes of
/// itself; and `verify_password` accepts the password for it, since it
/// hashes the password anew with the algorithm, the version, the costs and
/// the salt that the text carries, which are those of this call, and
/// compares the two outputs.
#[verifier::external_body]
fn argon2id_hash(password: &str, m_cost: u32, t_cost: u32, p_cost: u32) -> (hash: Option<String>)
    ensures
        hash matches Some(text) ==> is_phc_string(text@) && password_matches(text@, password@),
{
    let params = argon2::Params::new(m_cost, t_cost, p_cost, None).ok()?;
    let salt = argon2::password_hash::SaltString::generate(rand::thread_rng());
    let hasher = argon2::Argon2::new(
        argon2::Algorithm::Argon2id,
        argon2::Version::V0x13,
        params,
    );
    match argon2::PasswordHasher::hash_password(&hasher, password.as_bytes(), &salt) {
        Ok(hash) => Some(hash.to_string()),
        Err(_) => None,
    }
}

/// Why credentials were not accepted.
#[derive(Clone, Copy, Debug, PartialEq, Eq, Structural)]
pub enum CredentialsFault {
    UnknownUsername,
    InvalidPassword,
}

/// What went wrong apart from the credentials.
#[derive(Clone, Copy, Debug, PartialEq, Eq, Structural)]
pub enum AuthFault {
    /// The stored hash is not in the PHC string format.
    MalformedHash,
    /// The password could not be hashed.
    HashingFailed,
}

/// Why authentication failed.
#[derive(Clone, Copy, Debug, PartialEq, Eq, Structural)]
pub enum AuthError {
    InvalidCredentials(CredentialsFault),
    UnexpectedError(AuthFault),
}

impl AuthError {
    /// The text that the error is reported with.
    pub open spec fn message_text(self) -> Seq<char> {
        match self {
            AuthError::InvalidCredentials(_) => "Invalid credentials"@,
            AuthError::UnexpectedError(AuthFault::MalformedHash) => "Failed to parse hash in PHC string format."@,
            AuthError::UnexpectedError(AuthFault::HashingFailed) => "Failed to hash password"@,
        }
    }

    pub fn message(&self) -> (text: String)
        ensures
            text@ == self.message_text(),
    {
        match self {
            AuthError::InvalidCredentials(_) => String::from_str("Invalid credentials"),
            AuthError::UnexpectedError(AuthFault::MalformedHash) => String::from_str(
                "Failed to parse hash in PHC string format.",
            ),
            AuthError::UnexpectedError(AuthFault::HashingFailed) => String::from_str(
                "Failed to hash password",
            ),
        }
    }
}

/// A username and a password as a client gave them.
#[derive(Debug)]
pub struct Credentials {
    pub username: String,
    pub password: String,
}

/// What is stored of a user: the identifier, and the hash of the password.
#[derive(Debug)]
pub struct StoredCredentials {
    pub user_id: u128,
    pub password_hash: String,
}

/// The hash that a password is checked against where the username is
/// unknown, so that an unknown username takes as long as a wrong password.
pub open spec fn fallback_hash() -> Seq<char> {
    "$argon2id$v=19$m=15000,t=2,p=1$gZiV/M1gPc22ElAH/Jh1Hw$CWOrkoo7oJBQ/iyh7uJ0LO2aLEfrHwTWllSAxT0zRno"@
}

/// The verdict on a password and a hash.
pub open spec fn hash_verdict(hash: Seq<char>, password: Seq<char>) -> Result<(), AuthError> {
    if !is_phc_string(hash) {
        Err(AuthError::UnexpectedError(AuthFault::MalformedHash))
    } else if !password_matches(hash, password) {
        Err(AuthError::InvalidCredentials(CredentialsFault::InvalidPassword))
    } else {
        Ok(())
    }
}

/// Checks the password against the hash.
pub fn verify_password_hash(expected_password_hash: &str, password: &str) -> (r: Result<
    (),
    AuthError,
>)
    ensures
        r == hash_verdict(expected_password_hash@, password@),
{
    if !parses_as_phc_string(expected_password_hash) {
        return Err(AuthError::UnexpectedError(AuthFault::MalformedHash));
    }
    if !hash_accepts(expected_password_hash, password) {
        return Err(AuthError::InvalidCredentials(CredentialsFault::InvalidPassword));
    }
    Ok(())
}

/// The verdict on credentials, given what is stored under their username.
///
/// The password is checked even where the username is unknown, against
/// `fallback_hash`; a failure of that check is reported first.
pub open spec fn credentials_verdict(
    password: Seq<char>,
    stored: Option<(u128, Seq<char>)>,
) -> Result<u128, AuthError> {
    let hash = match stored {
        Some((_, hash)) => hash,
        None => fallback_hash(),
    };
    match hash_verdict(hash, password) {
        Err(e) => Err(e),
        Ok(_) => match stored {
            Some((user_id, _)) => Ok(user_id),
            None => Err(AuthError::InvalidCredentials(CredentialsFault::UnknownUsername)),
        },
    }
}

/// Checks credentials against what is stored under their username, `None`
/// where the username is unknown, and gives the user's identifier.
pub fn validate_credentials(credentials: Credentials, stored: Option<StoredCredentials>) -> (r:
    Result<u128, AuthError>)
    ensures
        r == credentials_verdict(
            credentials.password@,
            match stored {
                Some(s) => Some((s.user_id, s.password_hash@)),
                None => None,
            },
        ),
{
    let mut user_id: Option<u128> = None;
    let mut expected_password_hash = String::from_str(
        "$argon2id$v=19$m=15000,t=2,p=1$gZiV/M1gPc22ElAH/Jh1Hw$CWOrkoo7oJBQ/iyh7uJ0LO2aLEfrHwTWllSAxT0zRno",
    );
    if let Some(s) = stored {
        user_id = Some(s.user_id);
        expected_password_hash = s.password_hash;
    }
    match verify_password_hash(expected_password_hash.as_str(), credentials.password.as_str()) {
        Err(e) => Err(e),
        Ok(_) => match user_id {
            Some(id) => Ok(id),
            None => Err(AuthError::InvalidCredentials(CredentialsFault::UnknownUsername)),
        },
    }
}

/// The memory cost of a new hash, in KiB.
pub const HASH_MEMORY_COST: u32 = 15000;

/// The number of passes of a new hash.
pub const HASH_TIME_COST: u32 = 2;

/// The degree of parallelism of a new hash.
pub const HASH_PARALLELISM: u32 = 1;

/// Hashes a new password with a fresh random salt. The hash differs from
/// call to call, and each of them is one that the password is accepted for:
/// a user stored with it signs in with this password. It fails only where
/// the hasher does.
pub fn compute_password_hash(password: &str) -> (r: Result<String, AuthError>)
    ensures
        match r {
            Ok(hash) => hash_verdict(hash@, password@) == Ok::<(), AuthError>(()),
            Err(e) => e == AuthError::UnexpectedError(AuthFault::HashingFailed),
        },
{
    match argon2id_hash(password, HASH_MEMORY_COST, HASH_TIME_COST, HASH_PARALLELISM) {
        Some(hash) => Ok(hash),
        None => Err(AuthError::UnexpectedError(AuthFault::HashingFailed)),
    }
}

/// Prepares a change of the password of the user `user_id`: what is to be
/// stored of the user from now on, with a fresh hash of the new password.
pub fn change_password(user_id: u128, new_password: &str) -> (r: Result<
    StoredCredentials,
    AuthError,
>)
    ensures
        match r {
            Ok(stored) => stored.user_id == user_id,
            Err(e) => e == AuthError::UnexpectedError(AuthFault::HashingFailed),
        },
{
    match compute_password_hash(new_password) {
        Ok(password_hash) => Ok(StoredCredentials { user_id, password_hash }),
        Err(e) => Err(e),
    }
}

} // verus!
