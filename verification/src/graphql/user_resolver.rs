//! User queries and mutations: lookups, the session's own user,
//! registration, login and logout.

use vstd::prelude::*;
use vstd::string::StrSliceExecFns;

use crate::context::Context;
use crate::crypto::argon2_matches;
use crate::ids::{parse_id, parse_id_spec};
use crate::models::field_error::{errors_view, FieldError};
use crate::models::user::{user_response_wf, user_single_error, RegisterUserInput, User,
    UserResponse};
use crate::services;
use crate::services::user::{has_email, has_user_id, has_username, user_by_email, user_by_id,
    user_by_username, user_index_of};
use crate::store::store_wf;
use crate::validation::{check_contains_char, check_username_chars, contains_char,
    email_regex_match, email_shape_matches, password_len_ok, username_chars_ok, username_len_ok};

verus! {

/// The user read operations.
pub struct UserQuery;

/// The user write operations.
pub struct UserMutation;

/// The field errors registration reports, in the order they are checked:
/// username shape, else uniqueness, else charset; email shape, else
/// uniqueness; password length. All found errors are collected in one
/// pass, none short-circuits another field's checks.
pub open spec fn register_errors(
    users: Seq<User>,
    username: Seq<char>,
    email: Seq<char>,
    password: Seq<char>,
) -> Seq<(Seq<char>, Seq<char>)> {
    let u_errs = if !username_len_ok(username) {
        seq![("username"@, "Username must be between 3 and 20 characters."@)]
    } else if has_username(users, username) {
        seq![("username"@, "Username already exists."@)]
    } else if !username_chars_ok(username) {
        seq![("username"@, "Username must be alphanumeric."@)]
    } else {
        Seq::<(Seq<char>, Seq<char>)>::empty()
    };
    let e_errs = if !email_regex_match(email) {
        seq![("email"@, "Email must be valid."@)]
    } else if has_email(users, email) {
        seq![("email"@, "Email already exists."@)]
    } else {
        Seq::<(Seq<char>, Seq<char>)>::empty()
    };
    let p_errs = if !password_len_ok(password) {
        seq![("password"@, "Password must be at least 8 characters."@)]
    } else {
        Seq::<(Seq<char>, Seq<char>)>::empty()
    };
    u_errs + e_errs + p_errs
}

/// A registration whose username length is out of 3..=20 always reports a
/// field error on "username" — whatever the other fields hold, so no such
/// registration is ever persisted.
pub proof fn lemma_register_rejects_bad_username_len(
    users: Seq<User>,
    username: Seq<char>,
    email: Seq<char>,
    password: Seq<char>,
)
    requires
        !username_len_ok(username),
    ensures
        register_errors(users, username, email, password).len() > 0,
        register_errors(users, username, email, password)[0] == (
            "username"@,
            "Username must be between 3 and 20 characters."@,
        ),
{
}

/// A registration under an email some user already has — one that passed
/// the shape check when that user registered — always reports the field
/// error "Email already exists.", so no second row with that email is ever
/// persisted.
pub proof fn lemma_register_rejects_taken_email(
    users: Seq<User>,
    username: Seq<char>,
    email: Seq<char>,
    password: Seq<char>,
)
    requires
        has_email(users, email),
        email_regex_match(email),
    ensures
        register_errors(users, username, email, password).contains(
            ("email"@, "Email already exists."@),
        ),
{
    let errs = register_errors(users, username, email, password);
    let u_errs = if !username_len_ok(username) {
        seq![("username"@, "Username must be between 3 and 20 characters."@)]
    } else if has_username(users, username) {
        seq![("username"@, "Username already exists."@)]
    } else if !username_chars_ok(username) {
        seq![("username"@, "Username must be alphanumeric."@)]
    } else {
        Seq::<(Seq<char>, Seq<char>)>::empty()
    };
    let e = ("email"@, "Email already exists."@);
    assert(errs[u_errs.len() as int] == e);
    assert(errs.contains(e));
}

impl UserQuery {
    /// A user by id token. A malformed token or an unknown id is a field
    /// error on "userId", not a hard failure.
    pub fn get_by_id(ctx: &Context, user_id: String) -> (r: UserResponse)
        requires
            store_wf(ctx.store),
        ensures
            user_response_wf(r),
            match parse_id_spec(user_id@) {
                Option::None => user_single_error(r, "userId"@, "Invalid id."@),
                Option::Some(id) => if has_user_id(ctx.store.users@, id) {
                    r.user == Some(user_by_id(ctx.store.users@, id)) && r.errors is None
                } else {
                    user_single_error(r, "userId"@, "User not found."@)
                },
            },
    {
        match parse_id(user_id.as_str()) {
            Option::None => {
                let r = UserResponse::from_error(
                    "userId".to_owned(),
                    "Invalid id.".to_owned(),
                );
                proof {
                    assert(errors_view(r.errors.unwrap()@) =~= seq![
                        ("userId"@, "Invalid id."@),
                    ]);
                }
                r
            },
            Option::Some(id) => match services::user::get_by_id(&ctx.store, id) {
                Option::Some(user) => UserResponse::from_user(user),
                Option::None => {
                    let r = UserResponse::from_error(
                        "userId".to_owned(),
                        "User not found.".to_owned(),
                    );
                    proof {
                        assert(errors_view(r.errors.unwrap()@) =~= seq![
                            ("userId"@, "User not found."@),
                        ]);
                    }
                    r
                },
            },
        }
    }

    /// All users, in store order.
    pub fn get_all(ctx: &Context) -> (r: Vec<User>)
        ensures
            r@ == ctx.store.users@,
    {
        services::user::get_all(&ctx.store)
    }

    /// The user the session speaks for. No binding, or a binding to a user
    /// that no longer exists, is a field error on "userId".
    pub fn me(ctx: &Context) -> (r: UserResponse)
        requires
            store_wf(ctx.store),
        ensures
            user_response_wf(r),
            match ctx.session.user_id {
                Option::None => user_single_error(r, "userId"@, "User is not logged in."@),
                Option::Some(uid) => if has_user_id(ctx.store.users@, uid) {
                    r.user == Some(user_by_id(ctx.store.users@, uid)) && r.errors is None
                } else {
                    user_single_error(r, "userId"@, "User not found."@)
                },
            },
    {
        match ctx.session.user_id {
            Option::None => {
                let r = UserResponse::from_error(
                    "userId".to_owned(),
                    "User is not logged in.".to_owned(),
                );
                proof {
                    assert(errors_view(r.errors.unwrap()@) =~= seq![
                        ("userId"@, "User is not logged in."@),
                    ]);
                }
                r
            },
            Option::Some(uid) => match services::user::get_by_id(&ctx.store, uid) {
                Option::Some(user) => UserResponse::from_user(user),
                Option::None => {
                    let r = UserResponse::from_error(
                        "userId".to_owned(),
                        "User not found.".to_owned(),
                    );
                    proof {
                        assert(errors_view(r.errors.unwrap()@) =~= seq![
                            ("userId"@, "User not found."@),
                        ]);
                    }
                    r
                },
            },
        }
    }
}

impl UserMutation {
    /// Registers a new user. Every failed rule contributes its own field
    /// error and all are reported together; only a registration with no
    /// errors is persisted, with the password stored as a salted hash.
    /// The password length bound is the hash primitive's 32-bit input
    /// limit, far above anything a transport hands over.
    pub fn register(ctx: &mut Context, new_user: RegisterUserInput) -> (r: UserResponse)
        requires
            store_wf(old(ctx).store),
            old(ctx).store.next_id < u64::MAX,
            new_user.password@.len() <= 0x3FFF_FFFF,
        ensures
            store_wf(final(ctx).store),
            final(ctx).session == old(ctx).session,
            final(ctx).now == old(ctx).now,
            final(ctx).store.questions@ == old(ctx).store.questions@,
            final(ctx).store.votes@ == old(ctx).store.votes@,
            user_response_wf(r),
            ({
                let errs = register_errors(
                    old(ctx).store.users@,
                    new_user.username@,
                    new_user.email@,
                    new_user.password@,
                );
                if errs.len() > 0 {
                    &&& final(ctx).store == old(ctx).store
                    &&& r.user is None
                    &&& r.errors is Some
                    &&& errors_view(r.errors.unwrap()@) == errs
                } else {
                    &&& r.errors is None
                    &&& r.user is Some
                    &&& ({
                        let u = r.user.unwrap();
                        &&& final(ctx).store.users@ == old(ctx).store.users@.push(u)
                        &&& final(ctx).store.next_id == old(ctx).store.next_id + 1
                        &&& u.id == old(ctx).store.next_id
                        &&& u.username@ == new_user.username@
                        &&& u.email@ == new_user.email@
                        &&& u.created_at == old(ctx).now
                        &&& u.updated_at == old(ctx).now
                        &&& u.last_login is None
                        &&& argon2_matches(u.password@, new_user.password@)
                        &&& exists|salt: Seq<char>|
                            salt.len() == 16 && u.password@ == crate::crypto::argon2_encoded(
                                new_user.password@,
                                salt,
                            )
                    })
                }
            }),
    {
        let ghost errs = register_errors(
            ctx.store.users@,
            new_user.username@,
            new_user.email@,
            new_user.password@,
        );
        let mut errors: Vec<FieldError> = Vec::new();

        let ulen = new_user.username.as_str().unicode_len();
        if ulen < 3 || ulen > 20 {
            errors.push(FieldError::new(
                "username".to_owned(),
                "Username must be between 3 and 20 characters.".to_owned(),
            ));
        } else if services::user::get_by_username(&ctx.store, &new_user.username).is_some() {
            errors.push(FieldError::new(
                "username".to_owned(),
                "Username already exists.".to_owned(),
            ));
        } else if !check_username_chars(new_user.username.as_str()) {
            errors.push(FieldError::new(
                "username".to_owned(),
                "Username must be alphanumeric.".to_owned(),
            ));
        }

        if !email_shape_matches(new_user.email.as_str()) {
            errors.push(FieldError::new(
                "email".to_owned(),
                "Email must be valid.".to_owned(),
            ));
        } else if services::user::get_by_email(&ctx.store, &new_user.email).is_some() {
            errors.push(FieldError::new(
                "email".to_owned(),
                "Email already exists.".to_owned(),
            ));
        }

        if new_user.password.as_str().unicode_len() < 8 {
            errors.push(FieldError::new(
                "password".to_owned(),
                "Password must be at least 8 characters.".to_owned(),
            ));
        }
        proof {
            assert(errors_view(errors@) =~= errs);
        }

        if !errors.is_empty() {
            return UserResponse::from_errors(errors);
        }

        let now = ctx.now;
        let user = services::user::create_user(&mut ctx.store, new_user, now);
        UserResponse::from_user(user)
    }

    /// Logs a user in. The identifier is tried as an email when it holds an
    /// "@", as a username otherwise. A failed lookup and a failed password
    /// check each yield one generic field error; success stamps the last
    /// login and binds the session to the user.
    pub fn login(ctx: &mut Context, username_or_email: String, password: String) -> (r:
        UserResponse)
        requires
            store_wf(old(ctx).store),
        ensures
            store_wf(final(ctx).store),
            final(ctx).now == old(ctx).now,
            final(ctx).store.questions@ == old(ctx).store.questions@,
            final(ctx).store.votes@ == old(ctx).store.votes@,
            final(ctx).store.next_id == old(ctx).store.next_id,
            user_response_wf(r),
            ({
                let users = old(ctx).store.users@;
                let s = username_or_email@;
                let by_email = contains_char(s, '@');
                let found = if by_email {
                    has_email(users, s)
                } else {
                    has_username(users, s)
                };
                if !found {
                    &&& *final(ctx) == *old(ctx)
                    &&& user_single_error(
                        r,
                        "usernameOrEmail"@,
                        "Username or email does not exist."@,
                    )
                } else {
                    let u = if by_email {
                        user_by_email(users, s)
                    } else {
                        user_by_username(users, s)
                    };
                    if !argon2_matches(u.password@, password@) {
                        &&& *final(ctx) == *old(ctx)
                        &&& user_single_error(r, "password"@, "Password is incorrect."@)
                    } else {
                        &&& r.user == Some(u)
                        &&& r.errors is None
                        &&& final(ctx).store.users@ == users.update(
                            user_index_of(users, u.id),
                            (User { last_login: Some(old(ctx).now), ..u }),
                        )
                        &&& final(ctx).session.user_id == Some(u.id)
                    }
                }
            }),
    {
        let by_email = check_contains_char(username_or_email.as_str(), '@');
        let user_opt = if by_email {
            services::user::get_by_email(&ctx.store, &username_or_email)
        } else {
            services::user::get_by_username(&ctx.store, &username_or_email)
        };

        match user_opt {
            Option::None => {
                let r = UserResponse::from_error(
                    "usernameOrEmail".to_owned(),
                    "Username or email does not exist.".to_owned(),
                );
                proof {
                    assert(errors_view(r.errors.unwrap()@) =~= seq![
                        ("usernameOrEmail"@, "Username or email does not exist."@),
                    ]);
                }
                r
            },
            Option::Some(user) => {
                if !crate::crypto::verify_password(user.password.as_str(), password.as_str()) {
                    let r = UserResponse::from_error(
                        "password".to_owned(),
                        "Password is incorrect.".to_owned(),
                    );
                    proof {
                        assert(errors_view(r.errors.unwrap()@) =~= seq![
                            ("password"@, "Password is incorrect."@),
                        ]);
                    }
                    r
                } else {
                    proof {
                        let users = old(ctx).store.users@;
                        let s = username_or_email@;
                        if contains_char(s, '@') {
                            let j = choose|i: int|
                                0 <= i < users.len() && (#[trigger] users[i]).email@ == s;
                            assert(user == users[j]);
                            assert(users[j].id == user.id);
                            assert(has_user_id(users, user.id));
                        } else {
                            let j = choose|i: int|
                                0 <= i < users.len() && (#[trigger] users[i]).username@ == s;
                            assert(user == users[j]);
                            assert(users[j].id == user.id);
                            assert(has_user_id(users, user.id));
                        }
                    }
                    let now = ctx.now;
                    let updated = services::user::update_last_login(
                        &mut ctx.store,
                        user.id,
                        now,
                    );
                    proof {
                        let users = old(ctx).store.users@;
                        let k = user_index_of(users, user.id);
                        let s = username_or_email@;
                        if contains_char(s, '@') {
                            let j = choose|i: int|
                                0 <= i < users.len() && (#[trigger] users[i]).email@ == s;
                            assert(users[k].id == users[j].id);
                            assert(k == j);
                            assert(users[k] == user);
                        } else {
                            let j = choose|i: int|
                                0 <= i < users.len() && (#[trigger] users[i]).username@ == s;
                            assert(users[k].id == users[j].id);
                            assert(k == j);
                            assert(users[k] == user);
                        }
                    }
                    ctx.session.user_id = Some(user.id);
                    UserResponse::from_user(user)
                }
            },
        }
    }

    /// Clears the session binding. Always succeeds, logged in or not.
    pub fn logout(ctx: &mut Context) -> (r: bool)
        ensures
            final(ctx).store == old(ctx).store,
            final(ctx).now == old(ctx).now,
            final(ctx).session.user_id is None,
            r == true,
    {
        ctx.session.user_id = None;
        true
    }
}

} // verus!
