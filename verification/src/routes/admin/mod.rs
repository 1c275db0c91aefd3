//! Requests of the signed-in administrator.

pub mod newsletters;
pub mod password;
