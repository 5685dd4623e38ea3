//! Data model: entities, input records, and response envelopes.

pub mod field_error;
pub mod question;
pub mod user;
pub mod vote;
