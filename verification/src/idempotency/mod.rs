//! Safe retries of a request: keys, saved responses and the idempotency table.

pub mod key;
pub mod persistence;

pub use key::IdempotencyKey;
pub use key::KeyError;
