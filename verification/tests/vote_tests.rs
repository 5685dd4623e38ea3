use votodroid::context::{Context, Session};
use votodroid::graphql::question_resolver::QuestionMutation;
use votodroid::graphql::user_resolver::UserMutation;
use votodroid::graphql::vote_resolver::{VoteMutation, VoteQuery};
use votodroid::models::user::RegisterUserInput;
use votodroid::store::Store;

fn fresh_ctx() -> Context {
    Context { store: Store::new(), session: Session::new(), now: 1000 }
}

fn sign_up_and_in(ctx: &mut Context, name: &str, email: &str) {
    let r = UserMutation::register(
        ctx,
        RegisterUserInput {
            username: name.to_string(),
            email: email.to_string(),
            password: "password1".to_string(),
        },
    );
    assert!(r.errors.is_none());
    let l = UserMutation::login(ctx, name.to_string(), "password1".to_string());
    assert!(l.errors.is_none());
}

fn make_question(ctx: &mut Context, text: &str) -> u64 {
    let r = QuestionMutation::create(ctx, text.to_string());
    r.question.expect("question creation should succeed").id
}

#[test]
fn vote_value_out_of_range_errors_whatever_the_session() {
    // Unauthenticated: the value check comes before the session check.
    let mut ctx = fresh_ctx();
    let r = VoteMutation::create(&mut ctx, "1".to_string(), 7);
    let errs = r.errors.unwrap();
    assert_eq!(errs[0].field, "value");
    assert_eq!(errs[0].message, "Value must be from 0 to 5");

    // Authenticated: the same error.
    sign_up_and_in(&mut ctx, "alice", "alice@x.com");
    let qid = make_question(&mut ctx, "Is Rust fun?");
    let r2 = VoteMutation::create(&mut ctx, qid.to_string(), 7);
    let errs2 = r2.errors.unwrap();
    assert_eq!(errs2[0].field, "value");
    assert_eq!(errs2[0].message, "Value must be from 0 to 5");

    let r3 = VoteMutation::create(&mut ctx, qid.to_string(), -1);
    assert_eq!(r3.errors.unwrap()[0].field, "value");
}

#[test]
fn vote_malformed_question_id_errors() {
    let mut ctx = fresh_ctx();
    let r = VoteMutation::create(&mut ctx, "zzz".to_string(), 3);
    assert_eq!(r.errors.unwrap()[0].field, "questionId");
}

#[test]
fn vote_unauthenticated_errors_on_user_id() {
    let mut ctx = fresh_ctx();
    let r = VoteMutation::create(&mut ctx, "1".to_string(), 3);
    let errs = r.errors.unwrap();
    assert_eq!(errs[0].field, "userId");
    assert_eq!(errs[0].message, "User not logged in");
}

#[test]
fn second_vote_updates_in_place_and_keeps_one_row() {
    let mut ctx = fresh_ctx();
    sign_up_and_in(&mut ctx, "alice", "alice@x.com");
    let qid = make_question(&mut ctx, "Is Rust fun?");

    let first = VoteMutation::create(&mut ctx, qid.to_string(), 3);
    let v1 = first.vote.unwrap();
    assert_eq!(v1.value, 3);

    ctx.now = 2000;
    let second = VoteMutation::create(&mut ctx, qid.to_string(), 5);
    let v2 = second.vote.unwrap();
    assert_eq!(v2.id, v1.id, "the same row is updated, not a new one");
    assert_eq!(v2.value, 5);
    assert_eq!(v2.created_at, 1000);
    assert_eq!(v2.updated_at, 2000);

    let rows = VoteQuery::get_all_for_question(&ctx, qid.to_string());
    assert_eq!(rows.len(), 1, "exactly one vote row per (user, question)");
    assert_eq!(rows[0].value, 5);
}

#[test]
fn votes_by_different_users_are_separate_rows() {
    let mut ctx = fresh_ctx();
    sign_up_and_in(&mut ctx, "alice", "alice@x.com");
    let qid = make_question(&mut ctx, "Is Rust fun?");
    VoteMutation::create(&mut ctx, qid.to_string(), 4);

    sign_up_and_in(&mut ctx, "bob", "bob@x.com");
    VoteMutation::create(&mut ctx, qid.to_string(), 2);

    let rows = VoteQuery::get_all_for_question(&ctx, qid.to_string());
    assert_eq!(rows.len(), 2);
}

#[test]
fn average_and_histogram_of_question_without_votes() {
    let mut ctx = fresh_ctx();
    sign_up_and_in(&mut ctx, "alice", "alice@x.com");
    let qid = make_question(&mut ctx, "Is Rust fun?");

    assert_eq!(VoteQuery::get_avg_for_question(&ctx, qid.to_string()), "0.00");
    let stats = VoteQuery::get_stats_for_question(&ctx, qid.to_string());
    assert_eq!(stats, vec![0, 0, 0, 0, 0, 0]);
}

#[test]
fn average_and_histogram_swallow_malformed_ids() {
    let ctx = fresh_ctx();
    assert_eq!(VoteQuery::get_avg_for_question(&ctx, "oops".to_string()), "0.00");
    let stats = VoteQuery::get_stats_for_question(&ctx, "oops".to_string());
    assert_eq!(stats, vec![0, 0, 0, 0, 0, 0]);
    let rows = VoteQuery::get_all_for_question(&ctx, "oops".to_string());
    assert!(rows.is_empty());
}

#[test]
fn average_has_exactly_two_decimal_places() {
    let mut ctx = fresh_ctx();
    sign_up_and_in(&mut ctx, "alice", "alice@x.com");
    let qid = make_question(&mut ctx, "Is Rust fun?");
    VoteMutation::create(&mut ctx, qid.to_string(), 1);

    sign_up_and_in(&mut ctx, "bob", "bob@x.com");
    VoteMutation::create(&mut ctx, qid.to_string(), 2);

    // (1 + 2) / 2 = 1.5
    assert_eq!(VoteQuery::get_avg_for_question(&ctx, qid.to_string()), "1.50");
}

#[test]
fn average_rounds_half_up_to_two_places() {
    let mut ctx = fresh_ctx();
    sign_up_and_in(&mut ctx, "alice", "alice@x.com");
    let qid = make_question(&mut ctx, "Is Rust fun?");
    VoteMutation::create(&mut ctx, qid.to_string(), 1);
    sign_up_and_in(&mut ctx, "bob", "bob@x.com");
    VoteMutation::create(&mut ctx, qid.to_string(), 1);
    sign_up_and_in(&mut ctx, "carol", "carol@x.com");
    VoteMutation::create(&mut ctx, qid.to_string(), 0);

    // 2/3 = 0.666... rounds to 0.67.
    assert_eq!(VoteQuery::get_avg_for_question(&ctx, qid.to_string()), "0.67");
}

#[test]
fn histogram_counts_each_value() {
    let mut ctx = fresh_ctx();
    sign_up_and_in(&mut ctx, "alice", "alice@x.com");
    let qid = make_question(&mut ctx, "Is Rust fun?");
    let other = make_question(&mut ctx, "Is coffee good?");
    VoteMutation::create(&mut ctx, qid.to_string(), 5);
    VoteMutation::create(&mut ctx, other.to_string(), 2);

    sign_up_and_in(&mut ctx, "bob", "bob@x.com");
    VoteMutation::create(&mut ctx, qid.to_string(), 5);

    sign_up_and_in(&mut ctx, "carol", "carol@x.com");
    VoteMutation::create(&mut ctx, qid.to_string(), 0);

    let stats = VoteQuery::get_stats_for_question(&ctx, qid.to_string());
    assert_eq!(stats, vec![1, 0, 0, 0, 0, 2]);

    let rows = VoteQuery::get_all_for_question(&ctx, qid.to_string());
    assert_eq!(rows.len(), 3);
    assert!(rows.iter().all(|v| v.question_id == qid));
}
