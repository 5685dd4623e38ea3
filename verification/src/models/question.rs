//! Questions, question input, and the question result envelopes.

use vstd::prelude::*;

use crate::models::field_error::{errors_view, FieldError};

verus! {

/// A question. Text is stored normalized (trimmed, single internal spaces)
/// and is unique across all questions.
pub struct Question {
    /// The question's id.
    pub id: u64,
    /// The question's text.
    pub text: String,
    /// When the question was created.
    pub created_at: u64,
    /// When the question was last updated.
    pub updated_at: u64,
    /// The user who created the question.
    pub user_id: u64,
}

impl Clone for Question {
    fn clone(&self) -> (r: Self)
        ensures
            r == *self,
    {
        Question {
            id: self.id,
            text: self.text.clone(),
            created_at: self.created_at,
            updated_at: self.updated_at,
            user_id: self.user_id,
        }
    }
}

/// What a question creation carries: the normalized text and the owner.
pub struct QuestionInput {
    /// The question's text.
    pub text: String,
    /// The user who creates the question.
    pub user_id: u64,
}

/// Result envelope for single-question operations.
pub struct QuestionResponse {
    pub question: Option<Question>,
    pub errors: Option<Vec<FieldError>>,
}

/// Envelope invariant: exactly one side populated, errors non-empty.
pub open spec fn question_response_wf(r: QuestionResponse) -> bool {
    &&& (r.question is Some <==> r.errors is None)
    &&& (r.errors is Some ==> r.errors.unwrap()@.len() > 0)
}

/// The response carries no payload and exactly one field error, on this
/// field with this message.
pub open spec fn question_single_error(
    r: QuestionResponse,
    field: Seq<char>,
    message: Seq<char>,
) -> bool {
    &&& r.question is None
    &&& r.errors is Some
    &&& errors_view(r.errors.unwrap()@) == seq![(field, message)]
}

impl QuestionResponse {
    pub fn from_question(question: Question) -> (r: Self)
        ensures
            r.question == Some(question),
            r.errors is None,
    {
        Self { question: Some(question), errors: None }
    }

    pub fn from_error(field: String, message: String) -> (r: Self)
        ensures
            r.question is None,
            r.errors is Some,
            r.errors.unwrap()@.len() == 1,
            r.errors.unwrap()@[0].field@ == field@,
            r.errors.unwrap()@[0].message@ == message@,
    {
        let mut errors: Vec<FieldError> = Vec::new();
        errors.push(FieldError::new(field, message));
        Self { question: None, errors: Some(errors) }
    }

    pub fn from_errors(errors: Vec<FieldError>) -> (r: Self)
        requires
            errors@.len() > 0,
        ensures
            r.question is None,
            r.errors == Some(errors),
    {
        Self { question: None, errors: Some(errors) }
    }
}

/// Result envelope for question list operations.
pub struct QuestionsResponse {
    pub questions: Option<Vec<Question>>,
    pub errors: Option<Vec<FieldError>>,
}

/// Envelope invariant: exactly one side populated, errors non-empty.
pub open spec fn questions_response_wf(r: QuestionsResponse) -> bool {
    &&& (r.questions is Some <==> r.errors is None)
    &&& (r.errors is Some ==> r.errors.unwrap()@.len() > 0)
}

/// The list response carries no payload and exactly one field error, on
/// this field with this message.
pub open spec fn questions_single_error(
    r: QuestionsResponse,
    field: Seq<char>,
    message: Seq<char>,
) -> bool {
    &&& r.questions is None
    &&& r.errors is Some
    &&& errors_view(r.errors.unwrap()@) == seq![(field, message)]
}

impl QuestionsResponse {
    pub fn from_questions(questions: Vec<Question>) -> (r: Self)
        ensures
            r.questions == Some(questions),
            r.errors is None,
    {
        Self { questions: Some(questions), errors: None }
    }

    pub fn from_error(field: String, message: String) -> (r: Self)
        ensures
            r.questions is None,
            r.errors is Some,
            r.errors.unwrap()@.len() == 1,
            r.errors.unwrap()@[0].field@ == field@,
            r.errors.unwrap()@[0].message@ == message@,
    {
        let mut errors: Vec<FieldError> = Vec::new();
        errors.push(FieldError::new(field, message));
        Self { questions: None, errors: Some(errors) }
    }

    pub fn from_errors(errors: Vec<FieldError>) -> (r: Self)
        requires
            errors@.len() > 0,
        ensures
            r.questions is None,
            r.errors == Some(errors),
    {
        Self { questions: None, errors: Some(errors) }
    }
}

} // verus!
