//! Validation rules: pure predicates on usernames, emails, passwords and
//! question text, plus whitespace normalization for question text.
//!
//! Character classes are ASCII: usernames are ASCII alphanumeric, question
//! text is ASCII letters, spaces and ASCII punctuation (digits and non-ASCII
//! letters are rejected). Email shape is decided by a practical pattern, not
//! full RFC validation.

use vstd::prelude::*;
use vstd::string::StrSliceExecFns;

verus! {

/// ASCII decimal digit.
pub open spec fn is_digit_char(c: char) -> bool {
    48 <= c as u32 <= 57
}

/// ASCII letter.
pub open spec fn is_letter_char(c: char) -> bool {
    (65 <= c as u32 <= 90) || (97 <= c as u32 <= 122)
}

/// ASCII alphanumeric: letter or digit.
pub open spec fn is_alnum_char(c: char) -> bool {
    is_letter_char(c) || is_digit_char(c)
}

/// Whitespace collapsed by question-text normalization: the ASCII
/// whitespace characters.
pub open spec fn is_space_char(c: char) -> bool {
    c == ' ' || c == '\t' || c == '\n' || c == '\r' || c == '\u{c}'
}

/// A character a question may contain: an ASCII letter, a space, or ASCII
/// punctuation. Equivalently, printable ASCII that is not a digit.
pub open spec fn is_question_char(c: char) -> bool {
    32 <= c as u32 <= 126 && !is_digit_char(c)
}

/// Username length rule: between 3 and 20 characters.
pub open spec fn username_len_ok(s: Seq<char>) -> bool {
    3 <= s.len() <= 20
}

/// Username charset rule: every character alphanumeric.
pub open spec fn username_chars_ok(s: Seq<char>) -> bool {
    forall|i: int| 0 <= i < s.len() ==> is_alnum_char(#[trigger] s[i])
}

/// Password rule: at least 8 characters, no upper bound.
pub open spec fn password_len_ok(s: Seq<char>) -> bool {
    s.len() >= 8
}

/// Question charset rule: every character a letter, space or punctuation.
pub open spec fn question_chars_ok(s: Seq<char>) -> bool {
    forall|i: int| 0 <= i < s.len() ==> is_question_char(#[trigger] s[i])
}

/// Question length rule, applied to normalized text: at least 4 characters.
pub open spec fn question_len_ok(s: Seq<char>) -> bool {
    s.len() >= 4
}

/// What the email pattern says of a text. The pattern accepts a lower-case
/// local part of letters, digits, `_` and `+` (dots only between such
/// characters), an `@`, and a domain of dot- or dash-separated labels ending
/// in a 2-6 letter top-level domain.
pub uninterp spec fn email_regex_match(s: Seq<char>) -> bool;

/// Relies on `regex::Regex::is_match` with the fixed pattern in the body:
/// whether the text starts with an email-shaped prefix. The result is a
/// function of the text alone.
#[verifier::external_body]
pub(crate) fn email_shape_matches(s: &str) -> (r: bool)
    ensures
        r == email_regex_match(s@),
{
    let re = regex::Regex::new(
        r"^([a-z0-9_+]([a-z0-9_+.]*[a-z0-9_+])?)@([a-z0-9]+([\-\.]{1}[a-z0-9]+)*\.[a-z]{2,6})",
    )
    .unwrap();
    re.is_match(s)
}

/// Relies on `String::push`: appends exactly one character.
#[verifier::external_body]
fn push_char(s: &mut String, c: char)
    ensures
        final(s)@ == old(s)@.push(c),
{
    s.push(c);
}

fn is_alnum(c: char) -> (r: bool)
    ensures
        r == is_alnum_char(c),
{
    let u = c as u32;
    (48 <= u && u <= 57) || (65 <= u && u <= 90) || (97 <= u && u <= 122)
}

fn is_space(c: char) -> (r: bool)
    ensures
        r == is_space_char(c),
{
    c == ' ' || c == '\t' || c == '\n' || c == '\r' || c == '\u{c}'
}

fn is_question_ch(c: char) -> (r: bool)
    ensures
        r == is_question_char(c),
{
    let u = c as u32;
    32 <= u && u <= 126 && !(48 <= u && u <= 57)
}

/// Whether the username consists of alphanumeric characters only.
pub fn check_username_chars(s: &str) -> (r: bool)
    ensures
        r == username_chars_ok(s@),
{
    let n = s.unicode_len();
    let mut i: usize = 0;
    while i < n
        invariant
            n == s@.len(),
            i <= n,
            forall|j: int| 0 <= j < i ==> is_alnum_char(#[trigger] s@[j]),
        decreases n - i,
    {
        if !is_alnum(s.get_char(i)) {
            return false;
        }
        i = i + 1;
    }
    true
}

/// Whether the question text consists of letters, spaces and punctuation only.
pub fn check_question_chars(s: &str) -> (r: bool)
    ensures
        r == question_chars_ok(s@),
{
    let n = s.unicode_len();
    let mut i: usize = 0;
    while i < n
        invariant
            n == s@.len(),
            i <= n,
            forall|j: int| 0 <= j < i ==> is_question_char(#[trigger] s@[j]),
        decreases n - i,
    {
        if !is_question_ch(s.get_char(i)) {
            return false;
        }
        i = i + 1;
    }
    true
}

/// Whether the text contains this character anywhere.
pub open spec fn contains_char(s: Seq<char>, c: char) -> bool {
    exists|i: int| 0 <= i < s.len() && s[i] == c
}

/// Whether the text contains this character anywhere.
pub fn check_contains_char(s: &str, c: char) -> (r: bool)
    ensures
        r == contains_char(s@, c),
{
    let n = s.unicode_len();
    let mut i: usize = 0;
    while i < n
        invariant
            n == s@.len(),
            i <= n,
            forall|j: int| 0 <= j < i ==> s@[j] != c,
        decreases n - i,
    {
        if s.get_char(i) == c {
            return true;
        }
        i = i + 1;
    }
    false
}

/// Normalization state after reading a prefix of the text: the output built
/// so far, and whether a separating space is owed before the next word
/// character (whitespace was read after at least one emitted character).
pub open spec fn norm_state(s: Seq<char>) -> (Seq<char>, bool)
    decreases s.len(),
{
    if s.len() == 0 {
        (Seq::<char>::empty(), false)
    } else {
        let prev = norm_state(s.drop_last());
        let c = s.last();
        if is_space_char(c) {
            (prev.0, prev.0.len() > 0)
        } else if prev.1 {
            (prev.0.push(' ').push(c), false)
        } else {
            (prev.0.push(c), false)
        }
    }
}

/// Question text normalized: leading, trailing and duplicate internal
/// whitespace removed, each internal run replaced by a single space.
pub open spec fn normalized_text(s: Seq<char>) -> Seq<char> {
    norm_state(s).0
}

/// Trims leading and trailing whitespace and collapses each internal run of
/// whitespace to a single space.
pub fn trim_whitespace(s: &str) -> (r: String)
    ensures
        r@ == normalized_text(s@),
{
    let n = s.unicode_len();
    let mut out = String::new();
    let mut pending = false;
    let mut started = false;
    let mut i: usize = 0;
    while i < n
        invariant
            n == s@.len(),
            i <= n,
            (out@, pending) == norm_state(s@.take(i as int)),
            started == (out@.len() > 0),
        decreases n - i,
    {
        let c = s.get_char(i);
        proof {
            assert(s@.take(i + 1).drop_last() =~= s@.take(i as int));
            assert(s@.take(i + 1).last() == s@[i as int]);
        }
        if is_space(c) {
            pending = started;
        } else if pending {
            push_char(&mut out, ' ');
            push_char(&mut out, c);
            pending = false;
            started = true;
        } else {
            push_char(&mut out, c);
            started = true;
        }
        i = i + 1;
    }
    proof {
        assert(s@.take(n as int) =~= s@);
    }
    out
}

} // verus!
