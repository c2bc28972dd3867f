//! Decimal rendering of the numbers that appear in filter graphs, encoder
//! arguments and log lines: unsigned and signed integers, and millisecond
//! counts printed as seconds with three decimal places.

use vstd::prelude::*;

verus! {

use vstd::string::StringExecFns;

/// The character for one decimal digit.
pub open spec fn dec_digit_char(d: int) -> char {
    if d == 0 {
        '0'
    } else if d == 1 {
        '1'
    } else if d == 2 {
        '2'
    } else if d == 3 {
        '3'
    } else if d == 4 {
        '4'
    } else if d == 5 {
        '5'
    } else if d == 6 {
        '6'
    } else if d == 7 {
        '7'
    } else if d == 8 {
        '8'
    } else {
        '9'
    }
}

/// Decimal digits of a non-negative integer, most significant first.
pub open spec fn dec_str(n: int) -> Seq<char>
    decreases n,
{
    if n < 10 {
        seq![dec_digit_char(n)]
    } else {
        dec_str(n / 10).push(dec_digit_char(n % 10))
    }
}

/// Decimal digits of an integer, with a leading minus sign when negative.
pub open spec fn dec_int_str(n: int) -> Seq<char> {
    if n < 0 {
        seq!['-'] + dec_str(-n)
    } else {
        dec_str(n)
    }
}

/// A millisecond count printed as seconds with three decimal places.
pub open spec fn secs_str(ms: int) -> Seq<char> {
    dec_str(ms / 1000) + seq![
        '.',
        dec_digit_char((ms % 1000) / 100),
        dec_digit_char((ms % 1000) / 10 % 10),
        dec_digit_char(ms % 10),
    ]
}

fn digit_str(d: u64) -> (s: &'static str)
    requires
        d < 10,
    ensures
        s@ == seq![dec_digit_char(d as int)],
{
    if d == 0 {
        proof {
            reveal_strlit("0");
            assert("0"@ =~= seq![dec_digit_char(0)]);
        }
        "0"
    } else if d == 1 {
        proof {
            reveal_strlit("1");
            assert("1"@ =~= seq![dec_digit_char(1)]);
        }
        "1"
    } else if d == 2 {
        proof {
            reveal_strlit("2");
            assert("2"@ =~= seq![dec_digit_char(2)]);
        }
        "2"
    } else if d == 3 {
        proof {
            reveal_strlit("3");
            assert("3"@ =~= seq![dec_digit_char(3)]);
        }
        "3"
    } else if d == 4 {
        proof {
            reveal_strlit("4");
            assert("4"@ =~= seq![dec_digit_char(4)]);
        }
        "4"
    } else if d == 5 {
        proof {
            reveal_strlit("5");
            assert("5"@ =~= seq![dec_digit_char(5)]);
        }
        "5"
    } else if d == 6 {
        proof {
            reveal_strlit("6");
            assert("6"@ =~= seq![dec_digit_char(6)]);
        }
        "6"
    } else if d == 7 {
        proof {
            reveal_strlit("7");
            assert("7"@ =~= seq![dec_digit_char(7)]);
        }
        "7"
    } else if d == 8 {
        proof {
            reveal_strlit("8");
            assert("8"@ =~= seq![dec_digit_char(8)]);
        }
        "8"
    } else {
        proof {
            reveal_strlit("9");
            assert("9"@ =~= seq![dec_digit_char(9)]);
        }
        "9"
    }
}

/// Render an unsigned integer in decimal.
pub fn u64_to_dec(n: u64) -> (s: String)
    ensures
        s@ == dec_str(n as int),
    decreases n,
{
    if n < 10 {
        let mut s = String::new();
        s.append(digit_str(n));
        proof {
            assert(s@ =~= dec_str(n as int));
        }
        s
    } else {
        let mut s = u64_to_dec(n / 10);
        s.append(digit_str(n % 10));
        proof {
            assert(s@ =~= dec_str(n as int / 10).push(dec_digit_char(n as int % 10)));
        }
        s
    }
}

/// Render a signed integer in decimal.
pub fn i64_to_dec(n: i64) -> (s: String)
    ensures
        s@ == dec_int_str(n as int),
{
    if n >= 0 {
        u64_to_dec(n as u64)
    } else {
        let magnitude: u64 = ((-(n as i128)) as u64);
        let mut s = String::new();
        proof {
            reveal_strlit("-");
            assert("-"@ =~= seq!['-']);
        }
        s.append("-");
        let digits = u64_to_dec(magnitude);
        s.append(digits.as_str());
        proof {
            assert(s@ =~= dec_int_str(n as int));
        }
        s
    }
}

/// Render a millisecond count as seconds with three decimal places.
pub fn ms_to_secs(ms: u64) -> (s: String)
    ensures
        s@ == secs_str(ms as int),
{
    let mut s = u64_to_dec(ms / 1000);
    proof {
        reveal_strlit(".");
        assert("."@ =~= seq!['.']);
    }
    s.append(".");
    let frac = ms % 1000;
    s.append(digit_str(frac / 100));
    s.append(digit_str(frac / 10 % 10));
    s.append(digit_str(ms % 10));
    proof {
        assert(s@ =~= secs_str(ms as int));
    }
    s
}

} // verus!
