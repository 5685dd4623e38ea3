//! Question queries and mutations: lookup, cursor pagination, creation
//! with de-duplication, and owner-scoped deletion.

use vstd::prelude::*;
use vstd::string::StrSliceExecFns;

use crate::context::Context;
use crate::ids::{parse_id, parse_id_spec};
use crate::models::field_error::{errors_view, FieldError};
use crate::models::question::{question_response_wf, question_single_error,
    questions_response_wf, questions_single_error, Question, QuestionInput, QuestionResponse,
    QuestionsResponse};
use crate::services;
use crate::services::question::{has_question_id, has_question_text, question_by_id, spec_page};
use crate::services::user::has_user_id;
use crate::store::store_wf;
pub use crate::validation::trim_whitespace;
use crate::validation::{check_question_chars, normalized_text, question_chars_ok,
    question_len_ok};

verus! {

/// The question read operations.
pub struct QuestionQuery;

/// The question write operations.
pub struct QuestionMutation;

/// The page size a request gets: the given limit, 20 when none is given,
/// clamped into 1..=100 — client input is not trusted with the bounds.
pub open spec fn effective_limit(limit: Option<i32>) -> int {
    let l: int = if limit is Some {
        limit.unwrap() as int
    } else {
        20
    };
    if l < 1 {
        1
    } else if l > 100 {
        100
    } else {
        l
    }
}

impl QuestionQuery {
    /// A question by id token. A malformed token or an unknown id is a
    /// field error on "questionId", not a hard failure.
    pub fn get_by_id(ctx: &Context, question_id: String) -> (r: QuestionResponse)
        requires
            store_wf(ctx.store),
        ensures
            question_response_wf(r),
            match parse_id_spec(question_id@) {
                Option::None => question_single_error(r, "questionId"@, "Invalid id."@),
                Option::Some(id) => if has_question_id(ctx.store.questions@, id) {
                    r.question == Some(question_by_id(ctx.store.questions@, id))
                        && r.errors is None
                } else {
                    question_single_error(r, "questionId"@, "Question not found."@)
                },
            },
    {
        match parse_id(question_id.as_str()) {
            Option::None => {
                let r = QuestionResponse::from_error(
                    "questionId".to_owned(),
                    "Invalid id.".to_owned(),
                );
                proof {
                    assert(errors_view(r.errors.unwrap()@) =~= seq![
                        ("questionId"@, "Invalid id."@),
                    ]);
                }
                r
            },
            Option::Some(id) => match services::question::get_by_id(&ctx.store, id) {
                Option::Some(question) => QuestionResponse::from_question(question),
                Option::None => {
                    let r = QuestionResponse::from_error(
                        "questionId".to_owned(),
                        "Question not found.".to_owned(),
                    );
                    proof {
                        assert(errors_view(r.errors.unwrap()@) =~= seq![
                            ("questionId"@, "Question not found."@),
                        ]);
                    }
                    r
                },
            },
        }
    }

    /// One page of questions, ordered by descending popularity with ties
    /// to the higher id. The cursor, when given, must be the id of an
    /// existing question; the page then starts strictly after it in the
    /// same order. A malformed or unknown cursor is a field error on
    /// "cursor".
    pub fn get_paginated(ctx: &Context, limit: Option<i32>, cursor: Option<String>) -> (r:
        QuestionsResponse)
        requires
            store_wf(ctx.store),
        ensures
            questions_response_wf(r),
            match cursor {
                Option::None => {
                    &&& r.errors is None
                    &&& r.questions is Some
                    &&& r.questions.unwrap()@ == spec_page(
                        ctx.store.votes@,
                        ctx.store.questions@,
                        Option::None,
                        effective_limit(limit),
                    )
                },
                Option::Some(ctext) => match parse_id_spec(ctext@) {
                    Option::None => questions_single_error(r, "cursor"@, "Invalid id."@),
                    Option::Some(cid) => if !has_question_id(ctx.store.questions@, cid) {
                        questions_single_error(
                            r,
                            "cursor"@,
                            "No question found with corresponding Id."@,
                        )
                    } else {
                        &&& r.errors is None
                        &&& r.questions is Some
                        &&& r.questions.unwrap()@ == spec_page(
                            ctx.store.votes@,
                            ctx.store.questions@,
                            Option::Some(cid),
                            effective_limit(limit),
                        )
                    },
                },
            },
    {
        let lim_raw: i32 = match limit {
            Option::Some(l) => l,
            Option::None => 20,
        };
        let lim: i32 = if lim_raw < 1 {
            1
        } else if lim_raw > 100 {
            100
        } else {
            lim_raw
        };

        let cursor_id: Option<u64>;
        match cursor {
            Option::Some(ctext) => {
                match parse_id(ctext.as_str()) {
                    Option::None => {
                        let r = QuestionsResponse::from_error(
                            "cursor".to_owned(),
                            "Invalid id.".to_owned(),
                        );
                        proof {
                            assert(errors_view(r.errors.unwrap()@) =~= seq![
                                ("cursor"@, "Invalid id."@),
                            ]);
                        }
                        return r;
                    },
                    Option::Some(cid) => {
                        if services::question::get_by_id(&ctx.store, cid).is_none() {
                            let r = QuestionsResponse::from_error(
                                "cursor".to_owned(),
                                "No question found with corresponding Id.".to_owned(),
                            );
                            proof {
                                assert(errors_view(r.errors.unwrap()@) =~= seq![
                                    ("cursor"@, "No question found with corresponding Id."@),
                                ]);
                            }
                            return r;
                        }
                        cursor_id = Some(cid);
                    },
                }
            },
            Option::None => {
                cursor_id = None;
            },
        }

        let questions = services::question::get_paginated(&ctx.store, lim, cursor_id);
        QuestionsResponse::from_questions(questions)
    }
}

impl QuestionMutation {
    /// Creates a question from its text, normalized first. The caller must
    /// be authenticated and still exist; the normalized text must be long
    /// enough, of the allowed characters, and not a duplicate of an
    /// existing question. Each failure is one field error.
    pub fn create(ctx: &mut Context, text: String) -> (r: QuestionResponse)
        requires
            store_wf(old(ctx).store),
            old(ctx).store.next_id < u64::MAX,
        ensures
            store_wf(final(ctx).store),
            final(ctx).session == old(ctx).session,
            final(ctx).now == old(ctx).now,
            final(ctx).store.users@ == old(ctx).store.users@,
            final(ctx).store.votes@ == old(ctx).store.votes@,
            question_response_wf(r),
            ({
                let t = normalized_text(text@);
                let users = old(ctx).store.users@;
                let questions = old(ctx).store.questions@;
                match old(ctx).session.user_id {
                    Option::None => *final(ctx) == *old(ctx) && question_single_error(
                        r,
                        "userId"@,
                        "User not logged in."@,
                    ),
                    Option::Some(uid) => if !has_user_id(users, uid) {
                        &&& *final(ctx) == *old(ctx)
                        &&& question_single_error(
                            r,
                            "userId"@,
                            "User not logged in. (Please logout and login again)"@,
                        )
                    } else if !question_len_ok(t) {
                        &&& *final(ctx) == *old(ctx)
                        &&& question_single_error(
                            r,
                            "question"@,
                            "Question must be at least 4 characters long."@,
                        )
                    } else if !question_chars_ok(t) {
                        &&& *final(ctx) == *old(ctx)
                        &&& question_single_error(
                            r,
                            "question"@,
                            "Question contains invalid characters."@,
                        )
                    } else if has_question_text(questions, t) {
                        &&& *final(ctx) == *old(ctx)
                        &&& question_single_error(r, "question"@, "Question already exists."@)
                    } else {
                        &&& r.errors is None
                        &&& r.question is Some
                        &&& ({
                            let q = r.question.unwrap();
                            &&& q.id == old(ctx).store.next_id
                            &&& q.text@ == t
                            &&& q.user_id == uid
                            &&& q.created_at == old(ctx).now
                            &&& q.updated_at == old(ctx).now
                            &&& final(ctx).store.questions@ == questions.push(q)
                            &&& final(ctx).store.next_id == old(ctx).store.next_id + 1
                        })
                    },
                }
            }),
    {
        let text_n = trim_whitespace(text.as_str());

        match ctx.session.user_id {
            Option::None => {
                let r = QuestionResponse::from_error(
                    "userId".to_owned(),
                    "User not logged in.".to_owned(),
                );
                proof {
                    assert(errors_view(r.errors.unwrap()@) =~= seq![
                        ("userId"@, "User not logged in."@),
                    ]);
                }
                r
            },
            Option::Some(uid) => {
                if services::user::get_by_id(&ctx.store, uid).is_none() {
                    let r = QuestionResponse::from_error(
                        "userId".to_owned(),
                        "User not logged in. (Please logout and login again)".to_owned(),
                    );
                    proof {
                        assert(errors_view(r.errors.unwrap()@) =~= seq![
                            ("userId"@, "User not logged in. (Please logout and login again)"@),
                        ]);
                    }
                    return r;
                }
                if text_n.as_str().unicode_len() < 4 {
                    let r = QuestionResponse::from_error(
                        "question".to_owned(),
                        "Question must be at least 4 characters long.".to_owned(),
                    );
                    proof {
                        assert(errors_view(r.errors.unwrap()@) =~= seq![
                            ("question"@, "Question must be at least 4 characters long."@),
                        ]);
                    }
                    return r;
                }
                if !check_question_chars(text_n.as_str()) {
                    let r = QuestionResponse::from_error(
                        "question".to_owned(),
                        "Question contains invalid characters.".to_owned(),
                    );
                    proof {
                        assert(errors_view(r.errors.unwrap()@) =~= seq![
                            ("question"@, "Question contains invalid characters."@),
                        ]);
                    }
                    return r;
                }
                if services::question::get_by_text(&ctx.store, &text_n).is_some() {
                    let r = QuestionResponse::from_error(
                        "question".to_owned(),
                        "Question already exists.".to_owned(),
                    );
                    proof {
                        assert(errors_view(r.errors.unwrap()@) =~= seq![
                            ("question"@, "Question already exists."@),
                        ]);
                    }
                    return r;
                }
                let now = ctx.now;
                let question = services::question::create(
                    &mut ctx.store,
                    QuestionInput { text: text_n, user_id: uid },
                    now,
                );
                QuestionResponse::from_question(question)
            },
        }
    }

    /// Removes every question owned by the session's user. An absent or
    /// stale session is the error; otherwise the deletion reports true.
    pub fn delete_all_by_user(ctx: &mut Context) -> (r: Result<bool, FieldError>)
        requires
            store_wf(old(ctx).store),
        ensures
            store_wf(final(ctx).store),
            final(ctx).session == old(ctx).session,
            final(ctx).now == old(ctx).now,
            final(ctx).store.users@ == old(ctx).store.users@,
            final(ctx).store.votes@ == old(ctx).store.votes@,
            final(ctx).store.next_id == old(ctx).store.next_id,
            ({
                let users = old(ctx).store.users@;
                match old(ctx).session.user_id {
                    Option::None => {
                        &&& *final(ctx) == *old(ctx)
                        &&& r matches Err(e) && e.field@ == "userId"@ && e.message@
                            == "User not logged in."@
                    },
                    Option::Some(uid) => if !has_user_id(users, uid) {
                        &&& *final(ctx) == *old(ctx)
                        &&& r matches Err(e) && e.field@ == "userId"@ && e.message@
                            == "User not logged in. (Please logout and login again)"@
                    } else {
                        &&& r matches Ok(b) && b == true
                        &&& final(ctx).store.questions@ == old(ctx).store.questions@.filter(
                            |q: Question| q.user_id != uid,
                        )
                    },
                }
            }),
    {
        match ctx.session.user_id {
            Option::None => Err(
                FieldError::new("userId".to_owned(), "User not logged in.".to_owned()),
            ),
            Option::Some(uid) => {
                if services::user::get_by_id(&ctx.store, uid).is_none() {
                    return Err(
                        FieldError::new(
                            "userId".to_owned(),
                            "User not logged in. (Please logout and login again)".to_owned(),
                        ),
                    );
                }
                services::question::delete_all_by_user_id(&mut ctx.store, uid);
                Ok(true)
            },
        }
    }
}

} // verus!
