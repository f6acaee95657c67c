//! Decimal numbers as text.
//!
//! Tick labels and bar annotations print a decimal value the canonical
//! way: no sign for zero, no trailing zeros, and a leading zero before
//! the point (`42`, `12.5`, `0.2`).

use crate::num::{lemma_pow10_pos, pow10, pow10_u64, Dec};
use vstd::prelude::*;
use vstd::string::StringExecFns;

verus! {

/// The character of one decimal digit.
pub open spec fn spec_digit_char(d: nat) -> char {
    if d == 0 {
        '0'
    } else if d == 1 {
        '1'
    } else if d == 2 {
        '2'
    } else if d == 3 {
        '3'
    } else if d == 4 {
        '4'
    } else if d == 5 {
        '5'
    } else if d == 6 {
        '6'
    } else if d == 7 {
        '7'
    } else if d == 8 {
        '8'
    } else {
        '9'
    }
}

/// The digits of `n`, most significant first.
pub open spec fn spec_digits(n: nat) -> Seq<char>
    decreases n,
{
    if n < 10 {
        seq![spec_digit_char(n)]
    } else {
        spec_digits(n / 10) + seq![spec_digit_char(n % 10)]
    }
}

/// The lowest `w` digits of `n`, left-padded with zeros to width `w`.
pub open spec fn spec_padded_digits(n: nat, w: nat) -> Seq<char>
    decreases w,
{
    if w == 0 {
        Seq::empty()
    } else {
        spec_padded_digits(n / 10, (w - 1) as nat) + seq![spec_digit_char(n % 10)]
    }
}

/// The canonical text of a decimal: optional sign, integer part, and for
/// a fractional value a point followed by exactly `e` fraction digits.
pub open spec fn spec_dec_chars(d: Dec) -> Seq<char> {
    let p = pow10(d.e as nat);
    let digits = if d.e == 0 {
        spec_digits(d.m as nat)
    } else {
        spec_digits(((d.m as int) / p) as nat) + seq!['.'] + spec_padded_digits(
            ((d.m as int) % p) as nat,
            d.e as nat,
        )
    };
    if d.neg {
        seq!['-'] + digits
    } else {
        digits
    }
}

/// One digit as text.
fn digit_str(d: u64) -> (r: &'static str)
    requires
        d < 10,
    ensures
        r@ == seq![spec_digit_char(d as nat)],
{
    proof {
        reveal_strlit("0");
        reveal_strlit("1");
        reveal_strlit("2");
        reveal_strlit("3");
        reveal_strlit("4");
        reveal_strlit("5");
        reveal_strlit("6");
        reveal_strlit("7");
        reveal_strlit("8");
        reveal_strlit("9");
    }
    let r = if d == 0 {
        "0"
    } else if d == 1 {
        "1"
    } else if d == 2 {
        "2"
    } else if d == 3 {
        "3"
    } else if d == 4 {
        "4"
    } else if d == 5 {
        "5"
    } else if d == 6 {
        "6"
    } else if d == 7 {
        "7"
    } else if d == 8 {
        "8"
    } else {
        "9"
    };
    proof {
        assert(r@ =~= seq![spec_digit_char(d as nat)]);
    }
    r
}

/// The decimal digits of an unsigned number.
pub fn u64_to_string(n: u64) -> (s: String)
    ensures
        s@ == spec_digits(n as nat),
    decreases n,
{
    if n < 10 {
        digit_str(n).to_owned()
    } else {
        let mut s = u64_to_string(n / 10);
        s.append(digit_str(n % 10));
        proof {
            assert(s@ =~= spec_digits(n as nat));
        }
        s
    }
}

/// The lowest `w` digits of a number, zero-padded to width `w`.
fn padded_digits_string(n: u64, w: u32) -> (s: String)
    ensures
        s@ == spec_padded_digits(n as nat, w as nat),
    decreases w,
{
    if w == 0 {
        let s = String::new();
        proof {
            assert(s@ =~= spec_padded_digits(n as nat, 0));
        }
        s
    } else {
        let mut s = padded_digits_string(n / 10, w - 1);
        s.append(digit_str(n % 10));
        proof {
            assert(s@ =~= spec_padded_digits(n as nat, w as nat));
        }
        s
    }
}

/// A decimal value printed the canonical way.
pub fn dec_to_string(d: &Dec) -> (s: String)
    requires
        d.wf(),
    ensures
        s@ == spec_dec_chars(*d),
{
    proof {
        reveal_strlit("-");
        reveal_strlit(".");
    }
    let mut s = if d.neg {
        "-".to_owned()
    } else {
        String::new()
    };
    if d.e == 0 {
        let digits = u64_to_string(d.m);
        s.append(digits.as_str());
    } else {
        let p = pow10_u64(d.e);
        let int_part = u64_to_string(d.m / p);
        s.append(int_part.as_str());
        s.append(".");
        let frac = padded_digits_string(d.m % p, d.e);
        s.append(frac.as_str());
        proof {
            lemma_pow10_pos(d.e as nat);
        }
    }
    proof {
        assert(s@ =~= spec_dec_chars(*d));
    }
    s
}

} // verus!
