//! Identity tokens. At the boundary every record id travels as an opaque
//! string; internally it is the store-assigned number, written in decimal.
//! A malformed token parses to nothing and becomes a field error at the
//! caller, never a hard failure.

use vstd::prelude::*;
use vstd::string::StrSliceExecFns;

use crate::validation::is_digit_char;

verus! {

/// A non-empty, all-digits token.
pub open spec fn is_digit_seq(s: Seq<char>) -> bool {
    s.len() > 0 && forall|i: int| 0 <= i < s.len() ==> is_digit_char(#[trigger] s[i])
}

/// The numeric value of one digit character.
pub open spec fn digit_val(c: char) -> int {
    c as u32 - 48
}

/// The value of a digit string read in decimal.
pub open spec fn dec_value(s: Seq<char>) -> int
    decreases s.len(),
{
    if s.len() == 0 {
        0
    } else {
        dec_value(s.drop_last()) * 10 + digit_val(s.last())
    }
}

/// What a token parses to: its decimal value, if it is a non-empty digit
/// string whose value fits; nothing otherwise.
pub open spec fn parse_id_spec(s: Seq<char>) -> Option<u64> {
    if is_digit_seq(s) && dec_value(s) <= u64::MAX {
        Some(dec_value(s) as u64)
    } else {
        None
    }
}

/// Reading further digits never shrinks the value.
proof fn lemma_dec_value_grows(s: Seq<char>, k: int)
    requires
        0 <= k <= s.len(),
        dec_value(s.take(k)) >= 0,
        forall|j: int| k <= j < s.len() ==> is_digit_char(#[trigger] s[j]),
    ensures
        dec_value(s) >= dec_value(s.take(k)),
    decreases s.len() - k,
{
    if k == s.len() {
        assert(s.take(k) =~= s);
    } else {
        assert(s.take(k + 1).drop_last() =~= s.take(k));
        assert(s.take(k + 1).last() == s[k]);
        assert(is_digit_char(s[k]));
        assert(digit_val(s[k]) >= 0);
        assert(dec_value(s.take(k + 1)) >= dec_value(s.take(k)));
        lemma_dec_value_grows(s, k + 1);
    }
}

/// Parses an id token: the decimal value of a non-empty digit string.
/// Anything else — empty, a stray character, a value past the id range —
/// parses to nothing.
pub fn parse_id(s: &str) -> (r: Option<u64>)
    ensures
        r == parse_id_spec(s@),
{
    let n = s.unicode_len();
    if n == 0 {
        return None;
    }
    let mut v: u64 = 0;
    let mut i: usize = 0;
    while i < n
        invariant
            n == s@.len(),
            0 < n,
            i <= n,
            forall|j: int| 0 <= j < i ==> is_digit_char(#[trigger] s@[j]),
            v == dec_value(s@.take(i as int)),
        decreases n - i,
    {
        let c = s.get_char(i);
        let u = c as u32;
        if !(48 <= u && u <= 57) {
            return None;
        }
        let d = (u - 48) as u64;
        proof {
            assert(s@.take(i + 1).drop_last() =~= s@.take(i as int));
            assert(s@.take(i + 1).last() == s@[i as int]);
        }
        if v > (u64::MAX - d) / 10 {
            proof {
                assert(dec_value(s@.take(i + 1)) > u64::MAX);
                if is_digit_seq(s@) {
                    lemma_dec_value_grows(s@, i + 1);
                }
            }
            return None;
        }
        v = v * 10 + d;
        i = i + 1;
    }
    proof {
        assert(s@.take(n as int) =~= s@);
    }
    Some(v)
}

} // verus!
