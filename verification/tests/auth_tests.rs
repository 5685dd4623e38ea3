use votodroid::context::{Context, Session};
use votodroid::graphql::user_resolver::{UserMutation, UserQuery};
use votodroid::models::user::RegisterUserInput;
use votodroid::store::Store;

fn fresh_ctx() -> Context {
    Context { store: Store::new(), session: Session::new(), now: 1000 }
}

fn input(username: &str, email: &str, password: &str) -> RegisterUserInput {
    RegisterUserInput {
        username: username.to_string(),
        email: email.to_string(),
        password: password.to_string(),
    }
}

#[test]
fn register_alice_succeeds() {
    let mut ctx = fresh_ctx();
    let r = UserMutation::register(&mut ctx, input("alice", "alice@x.com", "password1"));
    assert!(r.errors.is_none());
    let u = r.user.expect("registration should persist a user");
    assert_eq!(u.username, "alice");
    assert_eq!(u.email, "alice@x.com");
    assert_eq!(u.id, 1);
    assert!(u.last_login.is_none());
    assert_eq!(u.created_at, 1000);
    // The stored password is a salted hash, never the plain text.
    assert_ne!(u.password, "password1");
    assert_eq!(ctx.store.users.len(), 1);
}

#[test]
fn register_short_username_reports_field_error() {
    let mut ctx = fresh_ctx();
    let ok = UserMutation::register(&mut ctx, input("alice", "alice@x.com", "password1"));
    assert!(ok.errors.is_none());

    let r = UserMutation::register(&mut ctx, input("al", "al@x.com", "password1"));
    assert!(r.user.is_none());
    let errs = r.errors.expect("a short username must be rejected");
    assert_eq!(errs.len(), 1);
    assert_eq!(errs[0].field, "username");
    assert_eq!(errs[0].message, "Username must be between 3 and 20 characters.");
    assert!(errs[0].message.contains("between 3 and 20"));
    // No user was persisted on the failed attempt.
    assert_eq!(ctx.store.users.len(), 1);
}

#[test]
fn register_duplicate_email_errors_and_adds_no_row() {
    let mut ctx = fresh_ctx();
    let first = UserMutation::register(&mut ctx, input("bob", "bob@x.com", "password1"));
    assert!(first.errors.is_none());

    let second = UserMutation::register(&mut ctx, input("robert", "bob@x.com", "password2"));
    assert!(second.user.is_none());
    let errs = second.errors.expect("a taken email must be rejected");
    assert_eq!(errs.len(), 1);
    assert_eq!(errs[0].field, "email");
    assert_eq!(errs[0].message, "Email already exists.");
    assert_eq!(ctx.store.users.len(), 1);
}

#[test]
fn register_duplicate_username_errors() {
    let mut ctx = fresh_ctx();
    UserMutation::register(&mut ctx, input("carol", "carol@x.com", "password1"));
    let r = UserMutation::register(&mut ctx, input("carol", "carol2@x.com", "password1"));
    let errs = r.errors.unwrap();
    assert_eq!(errs.len(), 1);
    assert_eq!(errs[0].field, "username");
    assert_eq!(errs[0].message, "Username already exists.");
}

#[test]
fn register_nonalphanumeric_username_errors() {
    let mut ctx = fresh_ctx();
    let r = UserMutation::register(&mut ctx, input("bad user!", "ok@x.com", "password1"));
    let errs = r.errors.unwrap();
    assert_eq!(errs.len(), 1);
    assert_eq!(errs[0].field, "username");
    assert_eq!(errs[0].message, "Username must be alphanumeric.");
}

#[test]
fn register_invalid_email_errors() {
    let mut ctx = fresh_ctx();
    let r = UserMutation::register(&mut ctx, input("dave", "not-an-email", "password1"));
    let errs = r.errors.unwrap();
    assert_eq!(errs.len(), 1);
    assert_eq!(errs[0].field, "email");
    assert_eq!(errs[0].message, "Email must be valid.");
}

#[test]
fn register_short_password_errors() {
    let mut ctx = fresh_ctx();
    let r = UserMutation::register(&mut ctx, input("erin", "erin@x.com", "short"));
    let errs = r.errors.unwrap();
    assert_eq!(errs.len(), 1);
    assert_eq!(errs[0].field, "password");
    assert_eq!(errs[0].message, "Password must be at least 8 characters.");
}

#[test]
fn register_collects_all_errors_in_order() {
    let mut ctx = fresh_ctx();
    let r = UserMutation::register(&mut ctx, input("xy", "nonsense", "tiny"));
    assert!(r.user.is_none());
    let errs = r.errors.unwrap();
    assert_eq!(errs.len(), 3);
    assert_eq!(errs[0].field, "username");
    assert_eq!(errs[1].field, "email");
    assert_eq!(errs[2].field, "password");
    assert_eq!(ctx.store.users.len(), 0);
}

#[test]
fn login_unknown_identifier_errors() {
    let mut ctx = fresh_ctx();
    let r = UserMutation::login(&mut ctx, "ghost".to_string(), "password1".to_string());
    assert!(r.user.is_none());
    let errs = r.errors.unwrap();
    assert_eq!(errs[0].field, "usernameOrEmail");
    assert_eq!(errs[0].message, "Username or email does not exist.");
    assert!(ctx.session.user_id.is_none());
}

#[test]
fn login_wrong_password_errors() {
    let mut ctx = fresh_ctx();
    UserMutation::register(&mut ctx, input("frank", "frank@x.com", "password1"));
    let r = UserMutation::login(&mut ctx, "frank".to_string(), "password2".to_string());
    assert!(r.user.is_none());
    let errs = r.errors.unwrap();
    assert_eq!(errs[0].field, "password");
    assert_eq!(errs[0].message, "Password is incorrect.");
    assert!(ctx.session.user_id.is_none());
}

#[test]
fn login_by_username_binds_session_and_stamps_last_login() {
    let mut ctx = fresh_ctx();
    UserMutation::register(&mut ctx, input("gina", "gina@x.com", "password1"));
    ctx.now = 2000;
    let r = UserMutation::login(&mut ctx, "gina".to_string(), "password1".to_string());
    assert!(r.errors.is_none());
    let u = r.user.unwrap();
    assert_eq!(ctx.session.user_id, Some(u.id));
    // The login stamp lands in the store and shows on the next read.
    let me = UserQuery::me(&ctx);
    let me_user = me.user.unwrap();
    assert_eq!(me_user.last_login, Some(2000));
}

#[test]
fn login_by_email_works() {
    let mut ctx = fresh_ctx();
    UserMutation::register(&mut ctx, input("hank", "hank@x.com", "password1"));
    let r = UserMutation::login(&mut ctx, "hank@x.com".to_string(), "password1".to_string());
    assert!(r.errors.is_none());
    assert_eq!(r.user.unwrap().username, "hank");
    assert!(ctx.session.user_id.is_some());
}

#[test]
fn logout_clears_session_and_is_idempotent() {
    let mut ctx = fresh_ctx();
    UserMutation::register(&mut ctx, input("ivan", "ivan@x.com", "password1"));
    UserMutation::login(&mut ctx, "ivan".to_string(), "password1".to_string());
    assert!(ctx.session.user_id.is_some());
    assert!(UserMutation::logout(&mut ctx));
    assert!(ctx.session.user_id.is_none());
    assert!(UserMutation::logout(&mut ctx));
    assert!(ctx.session.user_id.is_none());
}

#[test]
fn me_without_login_errors() {
    let ctx = fresh_ctx();
    let r = UserQuery::me(&ctx);
    assert!(r.user.is_none());
    let errs = r.errors.unwrap();
    assert_eq!(errs[0].field, "userId");
    assert_eq!(errs[0].message, "User is not logged in.");
}

#[test]
fn me_with_stale_session_errors() {
    let mut ctx = fresh_ctx();
    ctx.session.user_id = Some(424242);
    let r = UserQuery::me(&ctx);
    assert!(r.user.is_none());
    let errs = r.errors.unwrap();
    assert_eq!(errs[0].field, "userId");
    assert_eq!(errs[0].message, "User not found.");
}

#[test]
fn register_empty_username_reports_length_error() {
    let mut ctx = fresh_ctx();
    let r = UserMutation::register(&mut ctx, input("", "empty@x.com", "password1"));
    let errs = r.errors.unwrap();
    assert_eq!(errs[0].field, "username");
    assert_eq!(errs[0].message, "Username must be between 3 and 20 characters.");
}

#[test]
fn user_get_by_id_paths() {
    let mut ctx = fresh_ctx();
    let reg = UserMutation::register(&mut ctx, input("judy", "judy@x.com", "password1"));
    let id = reg.user.unwrap().id;

    let bad = UserQuery::get_by_id(&ctx, "not-a-number".to_string());
    assert_eq!(bad.errors.unwrap()[0].field, "userId");

    let missing = UserQuery::get_by_id(&ctx, "424242".to_string());
    let errs = missing.errors.unwrap();
    assert_eq!(errs[0].field, "userId");
    assert_eq!(errs[0].message, "User not found.");

    let found = UserQuery::get_by_id(&ctx, id.to_string());
    assert!(found.errors.is_none());
    assert_eq!(found.user.unwrap().username, "judy");
}

#[test]
fn get_all_lists_users_in_store_order() {
    let mut ctx = fresh_ctx();
    UserMutation::register(&mut ctx, input("kate", "kate@x.com", "password1"));
    UserMutation::register(&mut ctx, input("liam", "liam@x.com", "password1"));
    let all = UserQuery::get_all(&ctx);
    assert_eq!(all.len(), 2);
    assert_eq!(all[0].username, "kate");
    assert_eq!(all[1].username, "liam");
}
