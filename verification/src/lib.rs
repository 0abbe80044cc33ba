//! Verified core of the team breakfast ordering service: request validation,
//! access-control decisions, authentication bookkeeping, error mapping and the
//! repair of migration history records.

pub mod text;
pub mod health;
pub mod rfc3339;
pub mod history;
pub mod from_row;
pub mod errors;
pub mod validate;
pub mod models;
pub mod auth;
pub mod rbac;
pub mod config;
pub mod server;
