//! Fixed-point decimal strings: a value in hundredths written with exactly
//! two decimal places, as the vote average is reported.

use vstd::prelude::*;
use vstd::string::StringExecFns;

verus! {

/// The character for one decimal digit.
pub open spec fn digit_char(d: int) -> char {
    if d == 0 {
        '0'
    } else if d == 1 {
        '1'
    } else if d == 2 {
        '2'
    } else if d == 3 {
        '3'
    } else if d == 4 {
        '4'
    } else if d == 5 {
        '5'
    } else if d == 6 {
        '6'
    } else if d == 7 {
        '7'
    } else if d == 8 {
        '8'
    } else {
        '9'
    }
}

/// A value in hundredths written with two decimal places: units, a dot,
/// tenths, hundredths.
pub open spec fn two_decimals(h: int) -> Seq<char> {
    seq![digit_char(h / 100), '.', digit_char((h / 10) % 10), digit_char(h % 10)]
}

fn digit_str(d: u64) -> (r: &'static str)
    requires
        d <= 9,
    ensures
        r@ == seq![digit_char(d as int)],
{
    match d {
        0 => {
            proof {
                reveal_strlit("0");
            }
            "0"
        },
        1 => {
            proof {
                reveal_strlit("1");
            }
            "1"
        },
        2 => {
            proof {
                reveal_strlit("2");
            }
            "2"
        },
        3 => {
            proof {
                reveal_strlit("3");
            }
            "3"
        },
        4 => {
            proof {
                reveal_strlit("4");
            }
            "4"
        },
        5 => {
            proof {
                reveal_strlit("5");
            }
            "5"
        },
        6 => {
            proof {
                reveal_strlit("6");
            }
            "6"
        },
        7 => {
            proof {
                reveal_strlit("7");
            }
            "7"
        },
        8 => {
            proof {
                reveal_strlit("8");
            }
            "8"
        },
        _ => {
            proof {
                reveal_strlit("9");
            }
            "9"
        },
    }
}

/// Writes a value in hundredths with exactly two decimal places.
pub fn format_hundredths(h: u64) -> (r: String)
    requires
        h <= 999,
    ensures
        r@ == two_decimals(h as int),
{
    let mut s = String::new();
    s.append(digit_str(h / 100));
    proof {
        reveal_strlit(".");
    }
    s.append(".");
    s.append(digit_str((h / 10) % 10));
    s.append(digit_str(h % 10));
    proof {
        assert(s@ =~= two_decimals(h as int));
    }
    s
}

/// "0.00" is what zero hundredths is written as.
pub proof fn lemma_zero_two_decimals()
    ensures
        two_decimals(0) == "0.00"@,
{
    reveal_strlit("0.00");
    assert(two_decimals(0) =~= "0.00"@);
}

} // verus!
