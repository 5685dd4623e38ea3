//! User records: creation with salted hashing, lookups, and the last-login
//! stamp.

use vstd::prelude::*;

use crate::crypto::{argon2_encoded, argon2_matches, generate_salt, hash_password,
    lemma_alnum_is_ascii};
use crate::models::user::{RegisterUserInput, User};
use crate::store::{store_wf, Store};

verus! {

/// Whether some user has this id.
pub open spec fn has_user_id(users: Seq<User>, id: u64) -> bool {
    exists|i: int| 0 <= i < users.len() && (#[trigger] users[i]).id == id
}

/// The position of the user with this id (unique in a well-formed store).
pub open spec fn user_index_of(users: Seq<User>, id: u64) -> int {
    choose|i: int| 0 <= i < users.len() && (#[trigger] users[i]).id == id
}

/// The user with this id (unique in a well-formed store).
pub open spec fn user_by_id(users: Seq<User>, id: u64) -> User {
    users[choose|i: int| 0 <= i < users.len() && (#[trigger] users[i]).id == id]
}

/// Whether some user has this username.
pub open spec fn has_username(users: Seq<User>, name: Seq<char>) -> bool {
    exists|i: int| 0 <= i < users.len() && (#[trigger] users[i]).username@ == name
}

/// The user with this username (unique in a well-formed store).
pub open spec fn user_by_username(users: Seq<User>, name: Seq<char>) -> User {
    users[choose|i: int| 0 <= i < users.len() && (#[trigger] users[i]).username@ == name]
}

/// Whether some user has this email.
pub open spec fn has_email(users: Seq<User>, email: Seq<char>) -> bool {
    exists|i: int| 0 <= i < users.len() && (#[trigger] users[i]).email@ == email
}

/// The user with this email (unique in a well-formed store).
pub open spec fn user_by_email(users: Seq<User>, email: Seq<char>) -> User {
    users[choose|i: int| 0 <= i < users.len() && (#[trigger] users[i]).email@ == email]
}

/// Persists a new user: hashes the password with a fresh 16-character
/// alphanumeric salt and appends the record. Uniqueness of username and
/// email is the caller's check; this function requires it so the store
/// invariant is preserved.
pub fn create_user(store: &mut Store, new_user: RegisterUserInput, now: u64) -> (r: User)
    requires
        store_wf(*old(store)),
        old(store).next_id < u64::MAX,
        !has_username(old(store).users@, new_user.username@),
        !has_email(old(store).users@, new_user.email@),
        new_user.password@.len() <= 0x3FFF_FFFF,
    ensures
        store_wf(*final(store)),
        final(store).users@ == old(store).users@.push(r),
        final(store).questions@ == old(store).questions@,
        final(store).votes@ == old(store).votes@,
        final(store).next_id == old(store).next_id + 1,
        r.id == old(store).next_id,
        r.username@ == new_user.username@,
        r.email@ == new_user.email@,
        r.created_at == now,
        r.updated_at == now,
        r.last_login is None,
        argon2_matches(r.password@, new_user.password@),
        exists|salt: Seq<char>|
            salt.len() == 16 && r.password@ == argon2_encoded(new_user.password@, salt),
    {
        let salt = generate_salt();
        proof {
            lemma_alnum_is_ascii(salt@);
        }
        let hashed = hash_password(new_user.password.as_str(), salt.as_str());
        proof {
            assert(hashed@ == argon2_encoded(new_user.password@, salt@));
        }
        let user = User {
            id: store.next_id,
            username: new_user.username,
            email: new_user.email,
            password: hashed,
            created_at: now,
            updated_at: now,
            last_login: None,
        };
        let r = user.clone();
        store.users.push(user);
        store.next_id = store.next_id + 1;
        r
    }

/// Looks a user up by id.
pub fn get_by_id(store: &Store, user_id: u64) -> (r: Option<User>)
    requires
        store_wf(*store),
    ensures
        r is Some <==> has_user_id(store.users@, user_id),
        r is Some ==> r.unwrap() == user_by_id(store.users@, user_id),
{
    let n = store.users.len();
    let mut i: usize = 0;
    while i < n
        invariant
            store_wf(*store),
            n == store.users@.len(),
            i <= n,
            forall|j: int| 0 <= j < i ==> (#[trigger] store.users@[j]).id != user_id,
        decreases n - i,
    {
        if store.users[i].id == user_id {
            let r = store.users[i].clone();
            proof {
                let k = choose|k: int|
                    0 <= k < store.users@.len() && (#[trigger] store.users@[k]).id == user_id;
                assert(store.users@[k].id == store.users@[i as int].id);
                assert(k == i as int);
            }
            return Some(r);
        }
        i = i + 1;
    }
    None
}

/// Looks a user up by username.
pub fn get_by_username(store: &Store, name: &String) -> (r: Option<User>)
    requires
        store_wf(*store),
    ensures
        r is Some <==> has_username(store.users@, name@),
        r is Some ==> r.unwrap() == user_by_username(store.users@, name@),
{
    let n = store.users.len();
    let mut i: usize = 0;
    while i < n
        invariant
            store_wf(*store),
            n == store.users@.len(),
            i <= n,
            forall|j: int| 0 <= j < i ==> (#[trigger] store.users@[j]).username@ != name@,
        decreases n - i,
    {
        if name.eq(&store.users[i].username) {
            let r = store.users[i].clone();
            proof {
                let k = choose|k: int|
                    0 <= k < store.users@.len() && (#[trigger] store.users@[k]).username@
                        == name@;
                assert(store.users@[k].username@ == store.users@[i as int].username@);
                assert(k == i as int);
            }
            return Some(r);
        }
        i = i + 1;
    }
    None
}

/// Looks a user up by email.
pub fn get_by_email(store: &Store, user_email: &String) -> (r: Option<User>)
    requires
        store_wf(*store),
    ensures
        r is Some <==> has_email(store.users@, user_email@),
        r is Some ==> r.unwrap() == user_by_email(store.users@, user_email@),
{
    let n = store.users.len();
    let mut i: usize = 0;
    while i < n
        invariant
            store_wf(*store),
            n == store.users@.len(),
            i <= n,
            forall|j: int| 0 <= j < i ==> (#[trigger] store.users@[j]).email@ != user_email@,
        decreases n - i,
    {
        if user_email.eq(&store.users[i].email) {
            let r = store.users[i].clone();
            proof {
                let k = choose|k: int|
                    0 <= k < store.users@.len() && (#[trigger] store.users@[k]).email@
                        == user_email@;
                assert(store.users@[k].email@ == store.users@[i as int].email@);
                assert(k == i as int);
            }
            return Some(r);
        }
        i = i + 1;
    }
    None
}

/// All users, in store order.
pub fn get_all(store: &Store) -> (r: Vec<User>)
    ensures
        r@ == store.users@,
{
    let n = store.users.len();
    let mut r: Vec<User> = Vec::new();
    let mut i: usize = 0;
    while i < n
        invariant
            n == store.users@.len(),
            i <= n,
            r@ == store.users@.take(i as int),
        decreases n - i,
    {
        r.push(store.users[i].clone());
        proof {
            assert(r@ =~= store.users@.take(i + 1));
        }
        i = i + 1;
    }
    proof {
        assert(store.users@.take(n as int) =~= store.users@);
    }
    r
}

/// Stamps the user's last login with the request time. Only the
/// `last_login` field changes.
pub fn update_last_login(store: &mut Store, user_id: u64, now: u64) -> (r: Option<User>)
    requires
        store_wf(*old(store)),
    ensures
        store_wf(*final(store)),
        final(store).questions@ == old(store).questions@,
        final(store).votes@ == old(store).votes@,
        final(store).next_id == old(store).next_id,
        !has_user_id(old(store).users@, user_id) ==> r is None && *final(store) == *old(store),
        has_user_id(old(store).users@, user_id) ==> {
            let i = user_index_of(old(store).users@, user_id);
            &&& 0 <= i < old(store).users@.len()
            &&& old(store).users@[i].id == user_id
            &&& r == Some((User { last_login: Some(now), ..old(store).users@[i] }))
            &&& final(store).users@ == old(store).users@.update(i, r.unwrap())
        },
{
    let n = store.users.len();
    let mut i: usize = 0;
    while i < n
        invariant
            store_wf(*store),
            *store == *old(store),
            n == store.users@.len(),
            i <= n,
            forall|j: int| 0 <= j < i ==> (#[trigger] store.users@[j]).id != user_id,
        decreases n - i,
    {
        if store.users[i].id == user_id {
            let mut u = store.users[i].clone();
            u.last_login = Some(now);
            let r = u.clone();
            store.users[i] = u;
            proof {
                assert(final(store).users@ == old(store).users@.update(i as int, r));
                let k = user_index_of(old(store).users@, user_id);
                assert(old(store).users@[i as int].id == user_id);
                assert(has_user_id(old(store).users@, user_id));
                assert(old(store).users@[k].id == old(store).users@[i as int].id);
                assert(k == i as int);
            }
            return Some(r);
        }
        i = i + 1;
    }
    None
}

} // verus!
