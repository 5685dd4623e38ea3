//! Domain core of a question/voting backend.
//!
//! Users register and authenticate, post questions, and cast per-question
//! votes on a 0..5 scale; aggregate statistics (average, per-value histogram)
//! are computed on read. This crate holds the business logic — input
//! validation, uniqueness and authorization rules, vote upsert semantics,
//! cursor pagination by popularity, and uniform result envelopes — verified
//! against the record store model in [`store`]. Transport and persistence
//! are collaborators that sit outside this crate.

pub mod context;
pub mod crypto;
pub mod decimal;
pub mod graphql;
pub mod ids;
pub mod models;
pub mod services;
pub mod store;
pub mod validation;

pub use models::field_error::FieldError;
