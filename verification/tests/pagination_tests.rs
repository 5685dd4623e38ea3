use votodroid::context::{Context, Session};
use votodroid::graphql::question_resolver::{QuestionMutation, QuestionQuery};
use votodroid::graphql::user_resolver::UserMutation;
use votodroid::graphql::vote_resolver::VoteMutation;
use votodroid::models::user::RegisterUserInput;
use votodroid::store::Store;

fn fresh_ctx() -> Context {
    Context { store: Store::new(), session: Session::new(), now: 1000 }
}

fn sign_up_and_in(ctx: &mut Context, name: &str, email: &str) {
    let r = UserMutation::register(
        ctx,
        RegisterUserInput {
            username: name.to_string(),
            email: email.to_string(),
            password: "password1".to_string(),
        },
    );
    assert!(r.errors.is_none());
    let l = UserMutation::login(ctx, name.to_string(), "password1".to_string());
    assert!(l.errors.is_none());
}

/// Four questions with 3, 2, 1 and 0 votes, created in mixed order.
/// Returns their ids in expected popularity order (most voted first).
fn seed_questions(ctx: &mut Context) -> Vec<u64> {
    sign_up_and_in(ctx, "alice", "alice@x.com");
    let q_none = QuestionMutation::create(ctx, "Is silence golden?".to_string())
        .question
        .unwrap()
        .id;
    let q_three = QuestionMutation::create(ctx, "Is Rust fun?".to_string()).question.unwrap().id;
    let q_one = QuestionMutation::create(ctx, "Is tea better?".to_string()).question.unwrap().id;
    let q_two = QuestionMutation::create(ctx, "Is coffee good?".to_string())
        .question
        .unwrap()
        .id;

    let voters = ["alice", "bob", "carol"];
    for (i, name) in voters.iter().enumerate() {
        if *name != "alice" {
            sign_up_and_in(ctx, name, &format!("{}@x.com", name));
        } else {
            let l = UserMutation::login(ctx, "alice".to_string(), "password1".to_string());
            assert!(l.errors.is_none());
        }
        VoteMutation::create(ctx, q_three.to_string(), 3);
        if i < 2 {
            VoteMutation::create(ctx, q_two.to_string(), 4);
        }
        if i < 1 {
            VoteMutation::create(ctx, q_one.to_string(), 5);
        }
    }
    vec![q_three, q_two, q_one, q_none]
}

#[test]
fn paginated_orders_by_descending_popularity() {
    let mut ctx = fresh_ctx();
    let expected = seed_questions(&mut ctx);
    let all = QuestionQuery::get_paginated(&ctx, None, None);
    assert!(all.errors.is_none());
    let qs = all.questions.unwrap();
    let ids: Vec<u64> = qs.iter().map(|q| q.id).collect();
    assert_eq!(ids, expected);
}

#[test]
fn two_pages_are_disjoint_and_cover_the_whole_order() {
    let mut ctx = fresh_ctx();
    let expected = seed_questions(&mut ctx);

    let page1 = QuestionQuery::get_paginated(&ctx, Some(2), None).questions.unwrap();
    assert_eq!(page1.len(), 2);
    let cursor = page1.last().unwrap().id;

    let page2 = QuestionQuery::get_paginated(&ctx, Some(2), Some(cursor.to_string()))
        .questions
        .unwrap();
    assert_eq!(page2.len(), 2);

    let ids1: Vec<u64> = page1.iter().map(|q| q.id).collect();
    let ids2: Vec<u64> = page2.iter().map(|q| q.id).collect();
    for id in &ids1 {
        assert!(!ids2.contains(id), "pages must not overlap");
    }
    let mut union: Vec<u64> = ids1.clone();
    union.extend(&ids2);
    assert_eq!(union, expected, "the two pages cover the order with no gaps");
}

#[test]
fn ties_fall_back_to_higher_id_first() {
    let mut ctx = fresh_ctx();
    sign_up_and_in(&mut ctx, "dave", "dave@x.com");
    let a = QuestionMutation::create(&mut ctx, "First of two?".to_string())
        .question
        .unwrap()
        .id;
    let b = QuestionMutation::create(&mut ctx, "Second of two?".to_string())
        .question
        .unwrap()
        .id;
    assert!(b > a);
    let qs = QuestionQuery::get_paginated(&ctx, None, None).questions.unwrap();
    let ids: Vec<u64> = qs.iter().map(|q| q.id).collect();
    assert_eq!(ids, vec![b, a]);
}

#[test]
fn empty_store_pages_are_empty() {
    let ctx = fresh_ctx();
    let r = QuestionQuery::get_paginated(&ctx, None, None);
    assert!(r.errors.is_none());
    assert!(r.questions.unwrap().is_empty());
}

#[test]
fn malformed_cursor_is_a_field_error() {
    let ctx = fresh_ctx();
    let r = QuestionQuery::get_paginated(&ctx, Some(2), Some("garbage".to_string()));
    assert!(r.questions.is_none());
    let errs = r.errors.unwrap();
    assert_eq!(errs[0].field, "cursor");
}

#[test]
fn unknown_cursor_is_a_field_error() {
    let ctx = fresh_ctx();
    let r = QuestionQuery::get_paginated(&ctx, Some(2), Some("424242".to_string()));
    assert!(r.questions.is_none());
    let errs = r.errors.unwrap();
    assert_eq!(errs[0].field, "cursor");
    assert_eq!(errs[0].message, "No question found with corresponding Id.");
}

#[test]
fn limit_is_clamped_to_a_sane_range() {
    let mut ctx = fresh_ctx();
    seed_questions(&mut ctx);

    let zero = QuestionQuery::get_paginated(&ctx, Some(0), None).questions.unwrap();
    assert_eq!(zero.len(), 1, "a non-positive limit is clamped up to 1");

    let negative = QuestionQuery::get_paginated(&ctx, Some(-7), None).questions.unwrap();
    assert_eq!(negative.len(), 1);

    let huge = QuestionQuery::get_paginated(&ctx, Some(100000), None).questions.unwrap();
    assert_eq!(huge.len(), 4, "an oversized limit is clamped and returns everything");
}
