//! Users, registration input, and the user result envelope.

use vstd::prelude::*;

use crate::models::field_error::{errors_view, FieldError};

verus! {

/// A user. Identity is a store-assigned unique id; timestamps are ticks
/// supplied by the caller's context. The password field holds only the
/// salted, encoded hash and is never shown by the transport.
pub struct User {
    /// The user's id.
    pub id: u64,
    /// The user's username.
    pub username: String,
    /// The user's email.
    pub email: String,
    /// The salted, encoded password hash.
    pub password: String,
    /// When the user was created.
    pub created_at: u64,
    /// When the user was last updated.
    pub updated_at: u64,
    /// When the user last logged in.
    pub last_login: Option<u64>,
}

impl Clone for User {
    fn clone(&self) -> (r: Self)
        ensures
            r == *self,
    {
        User {
            id: self.id,
            username: self.username.clone(),
            email: self.email.clone(),
            password: self.password.clone(),
            created_at: self.created_at,
            updated_at: self.updated_at,
            last_login: self.last_login,
        }
    }
}

/// What a registration submits: username, email and plain password.
pub struct RegisterUserInput {
    /// The user's username.
    pub username: String,
    /// The user's email.
    pub email: String,
    /// The user's password.
    pub password: String,
}

/// Result envelope for user operations: either a user or a non-empty list
/// of field errors, never both.
pub struct UserResponse {
    pub user: Option<User>,
    pub errors: Option<Vec<FieldError>>,
}

/// Envelope invariant: exactly one side is populated, and a populated error
/// side is non-empty.
pub open spec fn user_response_wf(r: UserResponse) -> bool {
    &&& (r.user is Some <==> r.errors is None)
    &&& (r.errors is Some ==> r.errors.unwrap()@.len() > 0)
}

/// The response carries no payload and exactly one field error, on this
/// field with this message.
pub open spec fn user_single_error(r: UserResponse, field: Seq<char>, message: Seq<char>) -> bool {
    &&& r.user is None
    &&& r.errors is Some
    &&& errors_view(r.errors.unwrap()@) == seq![(field, message)]
}

impl UserResponse {
    pub fn from_user(user: User) -> (r: Self)
        ensures
            r.user == Some(user),
            r.errors is None,
    {
        Self { user: Some(user), errors: None }
    }

    pub fn from_error(field: String, message: String) -> (r: Self)
        ensures
            r.user is None,
            r.errors is Some,
            r.errors.unwrap()@.len() == 1,
            r.errors.unwrap()@[0].field@ == field@,
            r.errors.unwrap()@[0].message@ == message@,
    {
        let mut errors: Vec<FieldError> = Vec::new();
        errors.push(FieldError::new(field, message));
        Self { user: None, errors: Some(errors) }
    }

    pub fn from_errors(errors: Vec<FieldError>) -> (r: Self)
        requires
            errors@.len() > 0,
        ensures
            r.user is None,
            r.errors == Some(errors),
    {
        Self { user: None, errors: Some(errors) }
    }
}

} // verus!
