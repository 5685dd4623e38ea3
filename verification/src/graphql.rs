//! The operation roots the transport dispatches into: queries and
//! mutations, grouped per entity.

use vstd::prelude::*;

pub mod question_resolver;
pub mod user_resolver;
pub mod vote_resolver;

use question_resolver::{QuestionMutation, QuestionQuery};
use user_resolver::{UserMutation, UserQuery};
use vote_resolver::{VoteMutation, VoteQuery};

verus! {

/// The root of all read operations.
pub struct QueryRoot;

impl QueryRoot {
    /// The API version the transport reports.
    pub fn api_version() -> (r: &'static str)
        ensures
            r@ == "1.0"@,
    {
        "1.0"
    }

    /// The user queries.
    pub fn users(&self) -> UserQuery {
        UserQuery
    }

    /// The question queries.
    pub fn questions(&self) -> QuestionQuery {
        QuestionQuery
    }

    /// The vote queries.
    pub fn votes(&self) -> VoteQuery {
        VoteQuery
    }
}

/// The root of all write operations.
pub struct MutationRoot;

impl MutationRoot {
    /// The user mutations.
    pub fn users(&self) -> UserMutation {
        UserMutation
    }

    /// The question mutations.
    pub fn questions(&self) -> QuestionMutation {
        QuestionMutation
    }

    /// The vote mutations.
    pub fn votes(&self) -> VoteMutation {
        VoteMutation
    }
}

} // verus!
