//! Votes, vote input, and the vote result envelope.

use vstd::prelude::*;

use crate::models::field_error::{errors_view, FieldError};

verus! {

/// A vote: an integer value in 0..=5 cast by one user on one question.
/// At most one vote exists per (user, question) pair; a second vote by the
/// same user on the same question updates the value in place.
pub struct Vote {
    /// The vote's id.
    pub id: u64,
    /// The vote's value, in 0..=5.
    pub value: i32,
    /// When the vote was created.
    pub created_at: u64,
    /// When the vote was last updated.
    pub updated_at: u64,
    /// The user who cast the vote.
    pub user_id: u64,
    /// The question the vote is for.
    pub question_id: u64,
}

impl Clone for Vote {
    fn clone(&self) -> (r: Self)
        ensures
            r == *self,
    {
        Vote {
            id: self.id,
            value: self.value,
            created_at: self.created_at,
            updated_at: self.updated_at,
            user_id: self.user_id,
            question_id: self.question_id,
        }
    }
}

/// What a vote creation carries: the value, the voter and the question.
pub struct VoteInput {
    /// The vote's value.
    pub value: i32,
    /// The user who casts the vote.
    pub user_id: u64,
    /// The question the vote is for.
    pub question_id: u64,
}

/// Result envelope for vote operations.
pub struct VoteResponse {
    pub vote: Option<Vote>,
    pub errors: Option<Vec<FieldError>>,
}

/// Envelope invariant: exactly one side populated, errors non-empty.
pub open spec fn vote_response_wf(r: VoteResponse) -> bool {
    &&& (r.vote is Some <==> r.errors is None)
    &&& (r.errors is Some ==> r.errors.unwrap()@.len() > 0)
}

/// The response carries no payload and exactly one field error, on this
/// field with this message.
pub open spec fn vote_single_error(r: VoteResponse, field: Seq<char>, message: Seq<char>) -> bool {
    &&& r.vote is None
    &&& r.errors is Some
    &&& errors_view(r.errors.unwrap()@) == seq![(field, message)]
}

impl VoteResponse {
    pub fn from_vote(vote: Vote) -> (r: Self)
        ensures
            r.vote == Some(vote),
            r.errors is None,
    {
        Self { vote: Some(vote), errors: None }
    }

    pub fn from_error(field: String, message: String) -> (r: Self)
        ensures
            r.vote is None,
            r.errors is Some,
            r.errors.unwrap()@.len() == 1,
            r.errors.unwrap()@[0].field@ == field@,
            r.errors.unwrap()@[0].message@ == message@,
    {
        let mut errors: Vec<FieldError> = Vec::new();
        errors.push(FieldError::new(field, message));
        Self { vote: None, errors: Some(errors) }
    }

    pub fn from_errors(errors: Vec<FieldError>) -> (r: Self)
        requires
            errors@.len() > 0,
        ensures
            r.vote is None,
            r.errors == Some(errors),
    {
        Self { vote: None, errors: Some(errors) }
    }
}

} // verus!
