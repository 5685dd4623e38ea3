//! Store-facing services: user, question and vote operations.

pub mod question;
pub mod user;
pub mod vote;
