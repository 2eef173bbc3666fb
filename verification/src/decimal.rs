//! Decimal rendering of integers, used for the token storage keys and for
//! the expiry timestamp carried in an issued grant. The renderings are
//! defined by spec functions and the executable code is verified against
//! them.

use vstd::prelude::*;

verus! {

/// The character for a single decimal digit.
pub open spec fn dec_digit_char(d: nat) -> char {
    if d == 0 {
        '0'
    } else if d == 1 {
        '1'
    } else if d == 2 {
        '2'
    } else if d == 3 {
        '3'
    } else if d == 4 {
        '4'
    } else if d == 5 {
        '5'
    } else if d == 6 {
        '6'
    } else if d == 7 {
        '7'
    } else if d == 8 {
        '8'
    } else {
        '9'
    }
}

/// Whether a character is a decimal digit.
pub open spec fn is_dec_digit(c: char) -> bool {
    c == '0' || c == '1' || c == '2' || c == '3' || c == '4' || c == '5' || c == '6' || c == '7'
        || c == '8' || c == '9'
}

/// The decimal rendering of a natural number, most significant digit first,
/// with no leading zeros (a single `'0'` for zero).
pub open spec fn dec_seq_of(n: nat) -> Seq<char>
    decreases n,
{
    if n < 10 {
        seq![dec_digit_char(n)]
    } else {
        dec_seq_of(n / 10).push(dec_digit_char(n % 10))
    }
}

/// The decimal rendering of an integer: the magnitude's rendering, preceded
/// by a minus sign when the integer is negative.
pub open spec fn i64_dec_seq(n: int) -> Seq<char> {
    if n >= 0 {
        dec_seq_of(n as nat)
    } else {
        seq!['-'] + dec_seq_of((-n) as nat)
    }
}

/// Every character of a decimal rendering of a natural number is a decimal
/// digit.
pub proof fn lemma_dec_seq_digits(n: nat)
    ensures
        forall|i: int| 0 <= i < dec_seq_of(n).len() ==> is_dec_digit(#[trigger] dec_seq_of(n)[i]),
    decreases n,
{
    if n < 10 {
        assert(dec_seq_of(n)[0] == dec_digit_char(n));
        assert(is_dec_digit(dec_digit_char(n)));
    } else {
        lemma_dec_seq_digits(n / 10);
        assert forall|i: int| 0 <= i < dec_seq_of(n).len() implies is_dec_digit(
            #[trigger] dec_seq_of(n)[i],
        ) by {
            if i < dec_seq_of(n).len() - 1 {
                assert(dec_seq_of(n)[i] == dec_seq_of(n / 10)[i]);
            } else {
                assert(dec_seq_of(n)[i] == dec_digit_char(n % 10));
                assert(is_dec_digit(dec_digit_char(n % 10)));
            }
        }
    }
}

/// A one-character string slice for a decimal digit.
fn digit_str(d: u64) -> (r: &'static str)
    requires
        d < 10,
    ensures
        r@ =~= seq![dec_digit_char(d as nat)],
{
    if d == 0 {
        proof {
            reveal_strlit("0");
        }
        "0"
    } else if d == 1 {
        proof {
            reveal_strlit("1");
        }
        "1"
    } else if d == 2 {
        proof {
            reveal_strlit("2");
        }
        "2"
    } else if d == 3 {
        proof {
            reveal_strlit("3");
        }
        "3"
    } else if d == 4 {
        proof {
            reveal_strlit("4");
        }
        "4"
    } else if d == 5 {
        proof {
            reveal_strlit("5");
        }
        "5"
    } else if d == 6 {
        proof {
            reveal_strlit("6");
        }
        "6"
    } else if d == 7 {
        proof {
            reveal_strlit("7");
        }
        "7"
    } else if d == 8 {
        proof {
            reveal_strlit("8");
        }
        "8"
    } else {
        proof {
            reveal_strlit("9");
        }
        "9"
    }
}

/// Render a natural number in decimal, most significant digit first.
pub fn u64_to_dec_string(n: u64) -> (s: String)
    ensures
        s@ == dec_seq_of(n as nat),
    decreases n,
{
    let d: u64 = n % 10;
    let c = digit_str(d);
    if n < 10 {
        let s = String::from_str(c);
        proof {
            assert(s@ =~= dec_seq_of(n as nat));
        }
        s
    } else {
        let mut s = u64_to_dec_string(n / 10);
        s.append(c);
        proof {
            assert(s@ =~= dec_seq_of(n as nat));
        }
        s
    }
}

/// Render a signed integer in decimal.
pub fn i64_to_dec_string(n: i64) -> (s: String)
    ensures
        s@ == i64_dec_seq(n as int),
{
    if n >= 0 {
        u64_to_dec_string(n as u64)
    } else {
        let mag: u64 = ((-(n + 1)) as u64) + 1;
        proof {
            assert(mag as int == -(n as int));
        }
        let mut s = String::from_str("-");
        let tail = u64_to_dec_string(mag);
        s.append(tail.as_str());
        proof {
            reveal_strlit("-");
            assert(s@ =~= i64_dec_seq(n as int));
        }
        s
    }
}

} // verus!
