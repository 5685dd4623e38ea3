//! Password hashing and salt generation, through the outside hashing
//! primitives. The hash itself is opaque to the logic: contracts speak of
//! it only through the two names below.

use rand::Rng;
use vstd::prelude::*;

use crate::validation::is_alnum_char;

verus! {

/// The encoded hash that the memory-hard hash function produces for a
/// password and a salt. A function of the two alone.
pub uninterp spec fn argon2_encoded(password: Seq<char>, salt: Seq<char>) -> Seq<char>;

/// Whether an encoded hash matches a password: what hash verification
/// returns. A function of the two alone; false for an undecodable hash.
pub uninterp spec fn argon2_matches(encoded: Seq<char>, password: Seq<char>) -> bool;

/// Relies on `argon2::hash_encoded` (with the default configuration): it
/// returns the encoded hash of the password under the salt, and
/// `argon2::verify_encoded` accepts that hash for the same password. It
/// fails only on a salt shorter than 8 bytes or inputs beyond the 32-bit
/// length limits, which the bounds below rule out.
#[verifier::external_body]
pub(crate) fn hash_password(password: &str, salt: &str) -> (r: String)
    requires
        vstd::utf8::is_ascii_chars(salt@),
        8 <= salt@.len() <= 0xFFFF_FFFF,
        password@.len() <= 0x3FFF_FFFF,
    ensures
        r@ == argon2_encoded(password@, salt@),
        argon2_matches(r@, password@),
{
    argon2::hash_encoded(password.as_bytes(), salt.as_bytes(), &argon2::Config::default())
        .unwrap()
}

/// Relies on `argon2::verify_encoded`: it decodes the hash, recomputes and
/// compares, a function of the hash and password alone. An undecodable
/// hash yields an error, reported here as no match.
#[verifier::external_body]
pub(crate) fn verify_password(encoded: &str, password: &str) -> (r: bool)
    ensures
        r == argon2_matches(encoded@, password@),
{
    argon2::verify_encoded(encoded, password.as_bytes()).unwrap_or(false)
}

/// Relies on `rand::distributions::Alphanumeric` sampled from the
/// thread-local generator: every drawn byte is an ASCII letter or digit.
/// The result varies from call to call; nothing more is assumed of it.
#[verifier::external_body]
pub(crate) fn generate_salt() -> (r: String)
    ensures
        r@.len() == 16,
        forall|i: int| 0 <= i < r@.len() ==> is_alnum_char(#[trigger] r@[i]),
{
    rand::thread_rng()
        .sample_iter(&rand::distributions::Alphanumeric)
        .take(16)
        .map(char::from)
        .collect()
}

/// An alphanumeric character is ASCII.
proof fn lemma_alnum_char_ascii(c: char)
    requires
        is_alnum_char(c),
    ensures
        '\0' <= c <= '\u{7f}',
{
}

/// Alphanumeric characters are ASCII, so an alphanumeric salt is as long in
/// bytes as in characters.
pub proof fn lemma_alnum_is_ascii(s: Seq<char>)
    requires
        forall|i: int| 0 <= i < s.len() ==> is_alnum_char(#[trigger] s[i]),
    ensures
        vstd::utf8::is_ascii_chars(s),
{
    assert forall|i: int| 0 <= i < s.len() implies '\0' <= #[trigger] s[i] <= '\u{7f}' by {
        lemma_alnum_char_ascii(s[i]);
    }
}

} // verus!
