//! What each request decides, apart from the transport that carries it.

pub mod admin;
pub mod login;
pub mod newsletters;
pub mod subscriptions;
pub mod subscriptions_confirm;
