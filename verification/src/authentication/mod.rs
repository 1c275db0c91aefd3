//! Who is asking: credentials, and how they are checked.

pub mod basic;
pub mod password;

pub use password::AuthError;
pub use password::Credentials;
