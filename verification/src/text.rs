//! Small verified text utilities: character-wise string equality and the
//! decimal rendering of a 64-bit integer, proved against a recursive
//! specification of decimal digit sequences.

use vstd::prelude::*;
use vstd::string::StrSliceExecFns;
use vstd::string::StringExecFns;

verus! {

/// The character for one decimal digit.
pub open spec fn digit_char(d: nat) -> char
    recommends
        d < 10,
{
    if d == 0 {
        '0'
    } else if d == 1 {
        '1'
    } else if d == 2 {
        '2'
    } else if d == 3 {
        '3'
    } else if d == 4 {
        '4'
    } else if d == 5 {
        '5'
    } else if d == 6 {
        '6'
    } else if d == 7 {
        '7'
    } else if d == 8 {
        '8'
    } else {
        '9'
    }
}

/// The decimal digits of a natural number, most significant first, with no
/// leading zeroes (except for zero itself).
pub open spec fn dec_digits(n: nat) -> Seq<char>
    decreases n,
{
    if n < 10 {
        seq![digit_char(n)]
    } else {
        dec_digits(n / 10).push(digit_char(n % 10))
    }
}

/// The decimal rendering of an integer: a minus sign for negative values,
/// then the digits of the magnitude.
pub open spec fn spec_decimal(v: int) -> Seq<char> {
    if v < 0 {
        seq!['-'] + dec_digits((-v) as nat)
    } else {
        dec_digits(v as nat)
    }
}

/// Whether two strings hold the same characters.
pub fn str_eq(a: &str, b: &str) -> (r: bool)
    ensures
        r == (a@ == b@),
{
    let an: usize = a.unicode_len();
    let bn: usize = b.unicode_len();
    if an != bn {
        assert(a@ != b@) by {
            assert(a@.len() != b@.len());
        }
        return false;
    }
    let mut i: usize = 0;
    while i < an
        invariant
            an == a@.len(),
            an == b@.len(),
            i <= an,
            forall|j: int| 0 <= j < i ==> a@[j] == b@[j],
        decreases an - i,
    {
        if a.get_char(i) != b.get_char(i) {
            return false;
        }
        i += 1;
    }
    proof {
        assert(a@ =~= b@);
    }
    true
}

fn digit_str(d: u64) -> (r: &'static str)
    requires
        d < 10,
    ensures
        r@ == seq![digit_char(d as nat)],
{
    proof {
        reveal_strlit("0");
        reveal_strlit("1");
        reveal_strlit("2");
        reveal_strlit("3");
        reveal_strlit("4");
        reveal_strlit("5");
        reveal_strlit("6");
        reveal_strlit("7");
        reveal_strlit("8");
        reveal_strlit("9");
    }
    if d == 0 {
        "0"
    } else if d == 1 {
        "1"
    } else if d == 2 {
        "2"
    } else if d == 3 {
        "3"
    } else if d == 4 {
        "4"
    } else if d == 5 {
        "5"
    } else if d == 6 {
        "6"
    } else if d == 7 {
        "7"
    } else if d == 8 {
        "8"
    } else {
        "9"
    }
}

fn u64_to_string(m: u64) -> (r: String)
    ensures
        r@ == dec_digits(m as nat),
{
    if m < 10 {
        let s = digit_str(m);
        let r = String::from_str(s);
        return r;
    }
    let ghost m0: u64 = m;
    let mut rest: u64 = m;
    let mut acc = String::new();
    while rest >= 10
        invariant
            rest > 0,
            dec_digits(m0 as nat) == dec_digits(rest as nat) + acc@,
        decreases rest,
    {
        let d: u64 = rest % 10;
        let next: u64 = rest / 10;
        let piece = digit_str(d);
        proof {
            assert(dec_digits(rest as nat) == dec_digits(next as nat).push(digit_char(d as nat)));
            assert(dec_digits(next as nat).push(digit_char(d as nat)) + acc@ =~= dec_digits(
                next as nat,
            ) + (piece@ + acc@));
        }
        acc = String::from_str(piece).concat(acc.as_str());
        rest = next;
    }
    let first = digit_str(rest);
    let r = String::from_str(first).concat(acc.as_str());
    proof {
        assert(dec_digits(rest as nat) == seq![digit_char(rest as nat)]);
        assert(first@ + acc@ =~= dec_digits(rest as nat) + acc@);
    }
    r
}

/// The decimal rendering of a 64-bit integer, as used when a value is
/// printed or concatenated with a string.
pub fn i64_to_string(v: i64) -> (r: String)
    ensures
        r@ == spec_decimal(v as int),
{
    if v >= 0 {
        u64_to_string(v as u64)
    } else {
        let mag: u64 = ((-(v + 1)) as u64) + 1;
        proof {
            assert(mag as int == -(v as int));
            reveal_strlit("-");
        }
        let digits = u64_to_string(mag);
        let r = String::from_str("-").concat(digits.as_str());
        proof {
            assert(r@ =~= seq!['-'] + dec_digits(mag as nat));
        }
        r
    }
}

} // verus!
