//! Links back to the story source: building the canonical submission url
//! for a story id, including a verified decimal rendering of the id.

use vstd::prelude::*;
use vstd::string::StringExecFns;

use crate::models::StoryId;

verus! {

/// The character for one decimal digit.
pub open spec fn digit_char(d: int) -> char {
    if d == 0 {
        '0'
    } else if d == 1 {
        '1'
    } else if d == 2 {
        '2'
    } else if d == 3 {
        '3'
    } else if d == 4 {
        '4'
    } else if d == 5 {
        '5'
    } else if d == 6 {
        '6'
    } else if d == 7 {
        '7'
    } else if d == 8 {
        '8'
    } else {
        '9'
    }
}

/// Decimal digits of a non-negative number, most significant first.
pub open spec fn dec_digits(n: int) -> Seq<char>
    decreases n,
{
    if n < 10 {
        seq![digit_char(n)]
    } else {
        dec_digits(n / 10) + seq![digit_char(n % 10)]
    }
}

/// Decimal rendering of a story id, with a leading minus sign when the id
/// is negative.
pub open spec fn dec_id(id: int) -> Seq<char> {
    if id < 0 {
        seq!['-'] + dec_digits(-id)
    } else {
        dec_digits(id)
    }
}

/// The single character spelling a decimal digit.
fn digit_str(d: u64) -> (r: &'static str)
    requires
        d < 10,
    ensures
        r@ == seq![digit_char(d as int)],
{
    proof {
        reveal_strlit("0");
        reveal_strlit("1");
        reveal_strlit("2");
        reveal_strlit("3");
        reveal_strlit("4");
        reveal_strlit("5");
        reveal_strlit("6");
        reveal_strlit("7");
        reveal_strlit("8");
        reveal_strlit("9");
    }
    match d {
        0 => "0",
        1 => "1",
        2 => "2",
        3 => "3",
        4 => "4",
        5 => "5",
        6 => "6",
        7 => "7",
        8 => "8",
        _ => "9",
    }
}

/// Appends the decimal digits of `n` to `out`.
fn push_dec_digits(n: u64, out: &mut String)
    ensures
        final(out)@ == old(out)@ + dec_digits(n as int),
    decreases n,
{
    if n < 10 {
        out.append(digit_str(n));
    } else {
        push_dec_digits(n / 10, out);
        out.append(digit_str(n % 10));
        proof {
            assert(out@ =~= old(out)@ + dec_digits(n as int));
        }
    }
}

/// Given an id, returns the url where the submission can be viewed at the
/// story source.
pub fn submission_url(id: StoryId) -> (r: String)
    ensures
        r@ == "https://news.ycombinator.com/item?id="@ + dec_id(id as int),
{
    let mut url = String::new();
    url.append("https://news.ycombinator.com/item?id=");
    let magnitude: u64;
    if id < 0 {
        url.append("-");
        proof {
            reveal_strlit("-");
        }
        let wide: i128 = id as i128;
        let neg: i128 = -wide;
        proof {
            assert(0 < neg <= 0x8000_0000_0000_0000i128);
        }
        magnitude = neg as u64;
        proof {
            assert(magnitude == -(id as int));
        }
    } else {
        magnitude = id as u64;
    }
    push_dec_digits(magnitude, &mut url);
    proof {
        assert(url@ =~= "https://news.ycombinator.com/item?id="@ + dec_id(id as int));
    }
    url
}

} // verus!
