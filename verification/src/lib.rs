//! Newsletter delivery core: idempotent publishing and a crash-safe delivery queue.

pub mod authentication;
pub mod config;
pub mod domain;
pub mod email_client;
pub mod idempotency;
pub mod issue_delivery_worker;
pub mod publish_race;
pub mod routes;
pub mod startup;
pub mod store;
mod table;
pub mod utils;
pub mod worker_fleet;
