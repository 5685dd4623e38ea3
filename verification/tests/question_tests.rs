use votodroid::context::{Context, Session};
use votodroid::graphql::question_resolver::{QuestionMutation, QuestionQuery};
use votodroid::graphql::user_resolver::UserMutation;
use votodroid::models::user::RegisterUserInput;
use votodroid::store::Store;
use votodroid::validation::trim_whitespace;

fn fresh_ctx() -> Context {
    Context { store: Store::new(), session: Session::new(), now: 1000 }
}

fn sign_up_and_in(ctx: &mut Context, name: &str, email: &str) {
    let r = UserMutation::register(
        ctx,
        RegisterUserInput {
            username: name.to_string(),
            email: email.to_string(),
            password: "password1".to_string(),
        },
    );
    assert!(r.errors.is_none());
    let l = UserMutation::login(ctx, name.to_string(), "password1".to_string());
    assert!(l.errors.is_none());
}

#[test]
fn create_question_unauthenticated_errors_on_user_id() {
    let mut ctx = fresh_ctx();
    let r = QuestionMutation::create(&mut ctx, "Is Rust fun?".to_string());
    assert!(r.question.is_none());
    let errs = r.errors.unwrap();
    assert_eq!(errs[0].field, "userId");
    assert_eq!(errs[0].message, "User not logged in.");
}

#[test]
fn create_same_question_twice_reports_duplicate() {
    let mut ctx = fresh_ctx();
    sign_up_and_in(&mut ctx, "alice", "alice@x.com");
    let first = QuestionMutation::create(&mut ctx, "Is Rust fun?".to_string());
    assert!(first.errors.is_none());
    assert_eq!(first.question.unwrap().text, "Is Rust fun?");

    let second = QuestionMutation::create(&mut ctx, "Is Rust fun?".to_string());
    assert!(second.question.is_none());
    let errs = second.errors.unwrap();
    assert_eq!(errs[0].field, "question");
    assert_eq!(errs[0].message, "Question already exists.");
    assert_eq!(ctx.store.questions.len(), 1);
}

#[test]
fn create_question_normalizes_whitespace() {
    let mut ctx = fresh_ctx();
    sign_up_and_in(&mut ctx, "bob", "bob@x.com");
    let r = QuestionMutation::create(&mut ctx, "  Is   Rust\tfun?  ".to_string());
    assert_eq!(r.question.unwrap().text, "Is Rust fun?");

    // A differently spaced copy normalizes to the same text and is a duplicate.
    let again = QuestionMutation::create(&mut ctx, "Is Rust  fun?".to_string());
    assert_eq!(again.errors.unwrap()[0].message, "Question already exists.");
}

#[test]
fn create_question_too_short_errors() {
    let mut ctx = fresh_ctx();
    sign_up_and_in(&mut ctx, "carol", "carol@x.com");
    let r = QuestionMutation::create(&mut ctx, " ab ".to_string());
    let errs = r.errors.unwrap();
    assert_eq!(errs[0].field, "question");
    assert_eq!(errs[0].message, "Question must be at least 4 characters long.");
}

#[test]
fn create_question_with_digits_errors() {
    let mut ctx = fresh_ctx();
    sign_up_and_in(&mut ctx, "dave", "dave@x.com");
    let r = QuestionMutation::create(&mut ctx, "What is 42?".to_string());
    let errs = r.errors.unwrap();
    assert_eq!(errs[0].field, "question");
    assert_eq!(errs[0].message, "Question contains invalid characters.");
}

#[test]
fn create_question_with_stale_session_errors() {
    let mut ctx = fresh_ctx();
    ctx.session.user_id = Some(424242);
    let r = QuestionMutation::create(&mut ctx, "Is Rust fun?".to_string());
    let errs = r.errors.unwrap();
    assert_eq!(errs[0].field, "userId");
    assert_eq!(errs[0].message, "User not logged in. (Please logout and login again)");
}

#[test]
fn question_get_by_id_paths() {
    let mut ctx = fresh_ctx();
    sign_up_and_in(&mut ctx, "erin", "erin@x.com");
    let created = QuestionMutation::create(&mut ctx, "Is Rust fun?".to_string());
    let qid = created.question.unwrap().id;

    let bad = QuestionQuery::get_by_id(&ctx, "xx".to_string());
    assert_eq!(bad.errors.unwrap()[0].field, "questionId");

    let missing = QuestionQuery::get_by_id(&ctx, "424242".to_string());
    let errs = missing.errors.unwrap();
    assert_eq!(errs[0].field, "questionId");
    assert_eq!(errs[0].message, "Question not found.");

    let found = QuestionQuery::get_by_id(&ctx, qid.to_string());
    assert!(found.errors.is_none());
    assert_eq!(found.question.unwrap().text, "Is Rust fun?");
}

#[test]
fn delete_all_by_user_requires_login() {
    let mut ctx = fresh_ctx();
    let r = QuestionMutation::delete_all_by_user(&mut ctx);
    let e = r.expect_err("an unauthenticated deletion must fail");
    assert_eq!(e.field, "userId");
    assert_eq!(e.message, "User not logged in.");
}

#[test]
fn delete_all_by_user_removes_only_own_questions() {
    let mut ctx = fresh_ctx();
    sign_up_and_in(&mut ctx, "frank", "frank@x.com");
    QuestionMutation::create(&mut ctx, "Is Rust fun?".to_string());
    QuestionMutation::create(&mut ctx, "Is coffee good?".to_string());

    sign_up_and_in(&mut ctx, "gina", "gina@x.com");
    let kept = QuestionMutation::create(&mut ctx, "Is tea better?".to_string());
    let kept_id = kept.question.unwrap().id;

    // Back to frank, who deletes everything he owns.
    let l = UserMutation::login(&mut ctx, "frank".to_string(), "password1".to_string());
    assert!(l.errors.is_none());
    let r = QuestionMutation::delete_all_by_user(&mut ctx);
    assert_eq!(r.unwrap(), true);

    assert_eq!(ctx.store.questions.len(), 1);
    let remaining = QuestionQuery::get_by_id(&ctx, kept_id.to_string());
    assert_eq!(remaining.question.unwrap().text, "Is tea better?");
}

#[test]
fn delete_all_by_user_with_stale_session_errors() {
    let mut ctx = fresh_ctx();
    ctx.session.user_id = Some(424242);
    let r = QuestionMutation::delete_all_by_user(&mut ctx);
    let e = r.expect_err("a stale session must not delete anything");
    assert_eq!(e.field, "userId");
    assert_eq!(e.message, "User not logged in. (Please logout and login again)");
}

#[test]
fn trim_whitespace_collapses_runs_and_trims_ends() {
    assert_eq!(trim_whitespace("  a   b\t c "), "a b c");
    assert_eq!(trim_whitespace(""), "");
    assert_eq!(trim_whitespace(" \t\n"), "");
    assert_eq!(trim_whitespace("solo"), "solo");
}
