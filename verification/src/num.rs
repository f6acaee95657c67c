//! Exact decimal numbers.
//!
//! Chart values, the axis ceiling and tick values are decimals
//! `(-1)^neg * m / 10^e` with a `u64` mantissa.  All arithmetic on them
//! is exact, so every contract in the engine can speak of the true
//! rational value of a number.

use vstd::arithmetic::power::*;
use vstd::prelude::*;

verus! {

/// Largest mantissa a well-formed decimal may carry.
pub const DEC_MAX_M: u64 = 100_000_000_000_000;

/// Largest exponent (count of decimal places) of a well-formed decimal.
pub const DEC_MAX_E: u32 = 17;

/// Mantissa cap for values that enter the engine from outside.
pub const DEC_IN_M: u64 = 1_000_000_000_000;

/// Exponent cap for values that enter the engine from outside.
pub const DEC_IN_E: u32 = 12;

/// An exact decimal number with value `(-1)^neg * m / 10^e`.
#[derive(Clone, Copy, Debug, PartialEq, Eq)]
pub struct Dec {
    pub neg: bool,
    pub m: u64,
    pub e: u32,
}

/// `10^e` as a mathematical integer.
pub open spec fn pow10(e: nat) -> int {
    pow(10, e)
}

/// Sign factor of a decimal.
pub open spec fn sgn(d: Dec) -> int {
    if d.neg {
        -1
    } else {
        1
    }
}

/// The two decimals denote the same rational number.
pub open spec fn dec_eq_val(a: Dec, b: Dec) -> bool {
    sgn(a) * a.m * pow10(b.e as nat) == sgn(b) * b.m * pow10(a.e as nat)
}

/// `a` denotes a rational no greater than `b`.
pub open spec fn dec_le(a: Dec, b: Dec) -> bool {
    sgn(a) * a.m * pow10(b.e as nat) <= sgn(b) * b.m * pow10(a.e as nat)
}

/// `a` denotes a rational strictly below `b`.
pub open spec fn dec_lt(a: Dec, b: Dec) -> bool {
    sgn(a) * a.m * pow10(b.e as nat) < sgn(b) * b.m * pow10(a.e as nat)
}

/// Strip trailing zeros of the mantissa into the exponent; the canonical
/// representation of a decimal value.
pub open spec fn spec_strip(m: nat, e: nat) -> (nat, nat)
    decreases e,
{
    if m == 0 {
        (0, 0)
    } else if e > 0 && m % 10 == 0 {
        spec_strip(m / 10, (e - 1) as nat)
    } else {
        (m, e)
    }
}

impl Dec {
    /// Bounded and in canonical form: no trailing zeros in the mantissa,
    /// and zero is `+0/10^0`.
    pub open spec fn wf(self) -> bool {
        &&& self.m <= DEC_MAX_M
        &&& self.e <= DEC_MAX_E
        &&& (self.e > 0 ==> self.m % 10 != 0)
        &&& (self.m == 0 ==> self.e == 0 && !self.neg)
    }

    /// Well formed and within the caps for values supplied by callers.
    pub open spec fn in_range(self) -> bool {
        &&& self.wf()
        &&& self.m <= DEC_IN_M
        &&& self.e <= DEC_IN_E
    }

    /// Strictly positive.
    pub open spec fn is_pos(self) -> bool {
        !self.neg && self.m > 0
    }

    /// The decimal zero.
    pub fn zero() -> (r: Dec)
        ensures
            r == (Dec { neg: false, m: 0, e: 0 }),
            r.wf(),
            r.in_range(),
    {
        Dec { neg: false, m: 0, e: 0 }
    }

    /// Canonicalize `(-1)^neg * m / 10^e`; `None` when the value does not
    /// fit the caps for caller-supplied decimals.
    pub fn new(neg: bool, m: u64, e: u32) -> (r: Option<Dec>)
        ensures
            match r {
                Some(d) => {
                    &&& d.in_range()
                    &&& dec_eq_val(d, Dec { neg, m, e })
                    &&& (d.m as nat, d.e as nat) == spec_strip(m as nat, e as nat)
                    &&& d.neg == (neg && m > 0)
                },
                None => {
                    let (sm, se) = spec_strip(m as nat, e as nat);
                    sm > DEC_IN_M || se > DEC_IN_E
                },
            },
    {
        let mut m2: u64 = m;
        let mut e2: u32 = e;
        while m2 != 0 && e2 > 0 && m2 % 10 == 0
            invariant
                spec_strip(m2 as nat, e2 as nat) == spec_strip(m as nat, e as nat),
                m2 <= m,
            decreases e2,
        {
            m2 = m2 / 10;
            e2 = e2 - 1;
        }
        if m2 == 0 {
            e2 = 0;
        }
        if m2 > DEC_IN_M || e2 > DEC_IN_E {
            return None;
        }
        let d = Dec { neg: neg && m2 > 0, m: m2, e: e2 };
        proof {
            lemma_strip_keeps_value(m as nat, e as nat);
            lemma_pow10_pos(d.e as nat);
            lemma_pow10_pos(e as nat);
            lemma_sign_factor(d, pow10(e as nat));
            lemma_sign_factor(Dec { neg, m, e }, pow10(d.e as nat));
        }
        Some(d)
    }

    /// Exact comparison of the denoted rationals.
    pub fn le(&self, other: &Dec) -> (r: bool)
        requires
            self.wf(),
            other.wf(),
        ensures
            r == dec_le(*self, *other),
    {
        if self.neg != other.neg {
            // One side is negative (hence nonzero), the other is not.
            proof {
                if self.neg {
                    lemma_mixed_sign(*self, *other);
                } else {
                    lemma_mixed_sign(*other, *self);
                }
            }
            return self.neg;
        }
        let pa = pow10_u64(other.e);
        let pb = pow10_u64(self.e);
        proof {
            lemma_cross_product_fits(*self, *other, pa, pb);
            lemma_sign_factor(*self, pow10(other.e as nat));
            lemma_sign_factor(*other, pow10(self.e as nat));
        }
        let lhs: u128 = (self.m as u128) * (pa as u128);
        let rhs: u128 = (other.m as u128) * (pb as u128);
        if self.neg {
            rhs <= lhs
        } else {
            lhs <= rhs
        }
    }

    /// Exact strict comparison of the denoted rationals.
    pub fn lt(&self, other: &Dec) -> (r: bool)
        requires
            self.wf(),
            other.wf(),
        ensures
            r == dec_lt(*self, *other),
    {
        if self.neg != other.neg {
            proof {
                if self.neg {
                    lemma_mixed_sign(*self, *other);
                } else {
                    lemma_mixed_sign(*other, *self);
                }
            }
            return self.neg;
        }
        let pa = pow10_u64(other.e);
        let pb = pow10_u64(self.e);
        proof {
            lemma_cross_product_fits(*self, *other, pa, pb);
            lemma_sign_factor(*self, pow10(other.e as nat));
            lemma_sign_factor(*other, pow10(self.e as nat));
        }
        let lhs: u128 = (self.m as u128) * (pa as u128);
        let rhs: u128 = (other.m as u128) * (pb as u128);
        if self.neg {
            rhs < lhs
        } else {
            lhs < rhs
        }
    }

    /// Check `in_range` at run time, for callers outside verified code.
    pub fn check_in_range(&self) -> (r: bool)
        ensures
            r == self.in_range(),
    {
        self.m <= DEC_IN_M && self.e <= DEC_IN_E && (self.e == 0 || self.m % 10 != 0) && (self.m
            != 0 || (self.e == 0 && !self.neg))
    }

    /// Whether the decimal is strictly positive.
    pub fn positive(&self) -> (r: bool)
        ensures
            r == self.is_pos(),
    {
        !self.neg && self.m > 0
    }
}

/// Strip trailing zeros of a positive mantissa into the exponent.
pub(crate) fn strip_u64(m: u64, e: u32) -> (r: (u64, u32))
    requires
        m >= 1,
    ensures
        (r.0 as nat, r.1 as nat) == spec_strip(m as nat, e as nat),
        1 <= r.0 <= m,
        r.1 <= e,
        r.1 > 0 ==> r.0 % 10 != 0,
        r.0 * pow10(r.1 as nat) <= m * pow10(e as nat),
{
    let mut m2: u64 = m;
    let mut e2: u32 = e;
    while m2 % 10 == 0 && e2 > 0
        invariant
            spec_strip(m2 as nat, e2 as nat) == spec_strip(m as nat, e as nat),
            1 <= m2 <= m,
            e2 <= e,
        decreases e2,
    {
        m2 = m2 / 10;
        e2 = e2 - 1;
    }
    proof {
        lemma_strip_keeps_value(m as nat, e as nat);
        lemma_pow10_le(e2 as nat, e as nat);
        lemma_pow10_pos(e2 as nat);
        assert(m2 * pow10(e2 as nat) <= m * pow10(e as nat)) by (nonlinear_arith)
            requires
                m2 <= m,
                0 < pow10(e2 as nat) <= pow10(e as nat),
                m >= 0,
        ;
    }
    (m2, e2)
}

/// Pull the sign factor out of the three-way product in the comparison
/// predicates.
proof fn lemma_sign_factor(a: Dec, p: int)
    ensures
        sgn(a) * a.m * p == if a.neg {
            -((a.m as int) * p)
        } else {
            (a.m as int) * p
        },
{
    if a.neg {
        assert((-1) * a.m * p == -((a.m as int) * p)) by (nonlinear_arith);
    } else {
        assert(1 * a.m * p == (a.m as int) * p) by (nonlinear_arith);
    }
}

/// A negative decimal is strictly below a non-negative one.
proof fn lemma_mixed_sign(a: Dec, b: Dec)
    requires
        a.wf(),
        b.wf(),
        a.neg,
        !b.neg,
    ensures
        dec_lt(a, b),
        dec_le(a, b),
        !dec_le(b, a),
        !dec_lt(b, a),
{
    lemma_pow10_pos(a.e as nat);
    lemma_pow10_pos(b.e as nat);
    assert(sgn(a) * a.m * pow10(b.e as nat) < 0) by (nonlinear_arith)
        requires
            a.m > 0,
            pow10(b.e as nat) > 0,
            sgn(a) == -1,
    ;
    assert(sgn(b) * b.m * pow10(a.e as nat) >= 0) by (nonlinear_arith)
        requires
            b.m >= 0,
            pow10(a.e as nat) > 0,
            sgn(b) == 1,
    ;
}

/// Cross-multiplied mantissas of two well-formed decimals fit `u128`.
proof fn lemma_cross_product_fits(a: Dec, b: Dec, pa: u64, pb: u64)
    requires
        a.wf(),
        b.wf(),
        pa == pow10(b.e as nat),
        pb == pow10(a.e as nat),
    ensures
        a.m * pa <= u128::MAX,
        b.m * pb <= u128::MAX,
{
    lemma_pow10_table();
    lemma_pow10_le(a.e as nat, 17);
    lemma_pow10_le(b.e as nat, 17);
    assert(a.m * pa <= 100_000_000_000_000 * 100_000_000_000_000_000) by (nonlinear_arith)
        requires
            a.m <= 100_000_000_000_000,
            0 <= pa <= 100_000_000_000_000_000,
    ;
    assert(b.m * pb <= 100_000_000_000_000 * 100_000_000_000_000_000) by (nonlinear_arith)
        requires
            b.m <= 100_000_000_000_000,
            0 <= pb <= 100_000_000_000_000_000,
    ;
}

/// `10^e` is strictly positive.
pub proof fn lemma_pow10_pos(e: nat)
    ensures
        pow10(e) > 0,
{
    lemma_pow_positive(10, e);
}

/// `10^e` grows with `e`.
pub proof fn lemma_pow10_le(e1: nat, e2: nat)
    requires
        e1 <= e2,
    ensures
        pow10(e1) <= pow10(e2),
{
    lemma_pow_increases(10, e1, e2);
}

/// Splitting an exponent splits the power.
pub proof fn lemma_pow10_adds(e1: nat, e2: nat)
    ensures
        pow10((e1 + e2) as nat) == pow10(e1) * pow10(e2),
{
    lemma_pow_adds(10, e1, e2);
}

/// The concrete values of the small powers of ten that the engine uses.
pub proof fn lemma_pow10_table()
    ensures
        pow10(0) == 1,
        pow10(1) == 10,
        pow10(2) == 100,
        pow10(3) == 1000,
        pow10(4) == 10_000,
        pow10(5) == 100_000,
        pow10(9) == 1_000_000_000,
        pow10(10) == 10_000_000_000,
        pow10(12) == 1_000_000_000_000,
        pow10(13) == 10_000_000_000_000,
        pow10(14) == 100_000_000_000_000,
        pow10(15) == 1_000_000_000_000_000,
        pow10(17) == 100_000_000_000_000_000,
        pow10(18) == 1_000_000_000_000_000_000,
        pow10(19) == 10_000_000_000_000_000_000,
{
    reveal_with_fuel(pow, 21);
}

/// `10^e` for `e <= 19`, the largest power of ten a `u64` holds.  The
/// conditional bounds save the callers the monotonicity argument.
pub fn pow10_u64(e: u32) -> (r: u64)
    requires
        e <= 19,
    ensures
        r == pow10(e as nat),
        r >= 1,
        e <= 12 ==> r <= 1_000_000_000_000,
        e <= 13 ==> r <= 10_000_000_000_000,
        e <= 15 ==> r <= 1_000_000_000_000_000,
        e <= 17 ==> r <= 100_000_000_000_000_000,
{
    proof {
        lemma_pow10_table();
        lemma_pow10_pos(e as nat);
        if e <= 12 {
            lemma_pow10_le(e as nat, 12);
        }
        if e <= 13 {
            lemma_pow10_le(e as nat, 13);
        }
        if e <= 15 {
            lemma_pow10_le(e as nat, 15);
        }
        if e <= 17 {
            lemma_pow10_le(e as nat, 17);
        }
    }
    let mut r: u64 = 1;
    let mut i: u32 = 0;
    while i < e
        invariant
            i <= e <= 19,
            r == pow10(i as nat),
        decreases e - i,
    {
        proof {
            lemma_pow10_table();
            lemma_pow10_le(i as nat, 18);
            lemma_pow10_adds(i as nat, 1);
        }
        r = r * 10;
        i = i + 1;
    }
    r
}

/// Stripping trailing zeros keeps the denoted value: writing the stripped
/// pair `(sm, se)`, we have `m * 10^se == sm * 10^e`.
pub proof fn lemma_strip_keeps_value(m: nat, e: nat)
    ensures
        ({
            let (sm, se) = spec_strip(m, e);
            &&& m * pow10(se) == sm * pow10(e)
            &&& se <= e
            &&& sm <= m
            &&& (se > 0 ==> sm % 10 != 0)
            &&& (sm == 0 <==> m == 0)
        }),
    decreases e,
{
    if m == 0 {
        assert(0 * pow10(0) == 0 * pow10(e));
    } else if e > 0 && m % 10 == 0 {
        lemma_strip_keeps_value(m / 10, (e - 1) as nat);
        let (sm, se) = spec_strip(m / 10, (e - 1) as nat);
        lemma_pow10_pos(se);
        lemma_pow10_adds((e - 1) as nat, 1);
        lemma_pow10_table();
        assert(m == 10 * (m / 10));
        assert((m / 10) * pow10(se) == sm * pow10((e - 1) as nat));
        assert(m * pow10(se) == 10 * ((m / 10) * pow10(se))) by (nonlinear_arith)
            requires
                m == 10 * (m / 10),
        ;
        assert(10 * (sm * pow10((e - 1) as nat)) == sm * (10 * pow10((e - 1) as nat)))
            by (nonlinear_arith);
        assert(pow10(e) == pow10((e - 1) as nat) * pow10(1));
    } else {
    }
}

/// A well-formed representation of a rational value is unique.
pub proof fn lemma_normal_unique(a: Dec, b: Dec)
    requires
        a.wf(),
        b.wf(),
        dec_eq_val(a, b),
    ensures
        a == b,
{
    lemma_pow10_pos(a.e as nat);
    lemma_pow10_pos(b.e as nat);
    if a.m == 0 || b.m == 0 {
        assert(sgn(a) * a.m * pow10(b.e as nat) == 0 <==> a.m == 0) by (nonlinear_arith)
            requires
                pow10(b.e as nat) > 0,
                sgn(a) == 1 || sgn(a) == -1,
        ;
        assert(sgn(b) * b.m * pow10(a.e as nat) == 0 <==> b.m == 0) by (nonlinear_arith)
            requires
                pow10(a.e as nat) > 0,
                sgn(b) == 1 || sgn(b) == -1,
        ;
        assert(a.m == 0 && b.m == 0);
    } else {
        // Signs must agree on nonzero values.
        if a.neg != b.neg {
            assert(false) by (nonlinear_arith)
                requires
                    sgn(a) * a.m * pow10(b.e as nat) == sgn(b) * b.m * pow10(a.e as nat),
                    a.m > 0,
                    b.m > 0,
                    pow10(a.e as nat) > 0,
                    pow10(b.e as nat) > 0,
                    (sgn(a) == 1 && sgn(b) == -1) || (sgn(a) == -1 && sgn(b) == 1),
            ;
        }
        assert(a.m * pow10(b.e as nat) == b.m * pow10(a.e as nat)) by (nonlinear_arith)
            requires
                sgn(a) * a.m * pow10(b.e as nat) == sgn(b) * b.m * pow10(a.e as nat),
                sgn(a) == sgn(b),
                sgn(a) == 1 || sgn(a) == -1,
        ;
        lemma_canonical_exponent_le(a, b);
        lemma_canonical_exponent_le(b, a);
        assert(a.m == b.m) by (nonlinear_arith)
            requires
                a.m * pow10(b.e as nat) == b.m * pow10(a.e as nat),
                a.e == b.e,
                pow10(a.e as nat) > 0,
        ;
    }
}

/// Helper: among canonical nonzero decimals of equal value, the exponent
/// of the first is no larger than that of the second.
proof fn lemma_canonical_exponent_le(a: Dec, b: Dec)
    requires
        a.wf(),
        b.wf(),
        a.m > 0,
        b.m > 0,
        a.m * pow10(b.e as nat) == b.m * pow10(a.e as nat),
    ensures
        a.e <= b.e,
{
    if a.e > b.e {
        let d = (a.e - b.e) as nat;
        lemma_pow10_pos(b.e as nat);
        lemma_pow10_pos((d - 1) as nat);
        lemma_pow10_adds(b.e as nat, d);
        // a.m * 10^b.e == b.m * 10^b.e * 10^d  ==>  a.m == b.m * 10^d
        assert(a.m * pow10(b.e as nat) == (b.m * pow10(d)) * pow10(b.e as nat)) by (nonlinear_arith)
            requires
                a.m * pow10(b.e as nat) == b.m * pow10(a.e as nat),
                pow10(a.e as nat) == pow10(b.e as nat) * pow10(d),
        ;
        assert(a.m == b.m * pow10(d)) by (nonlinear_arith)
            requires
                a.m * pow10(b.e as nat) == (b.m * pow10(d)) * pow10(b.e as nat),
                pow10(b.e as nat) > 0,
        ;
        lemma_pow10_adds((d - 1) as nat, 1);
        lemma_pow10_table();
        assert(a.m == (b.m * pow10((d - 1) as nat)) * 10) by (nonlinear_arith)
            requires
                a.m == b.m * pow10(d),
                pow10(d) == pow10((d - 1) as nat) * 10,
        ;
        assert(a.m % 10 == 0) by (nonlinear_arith)
            requires
                a.m == (b.m * pow10((d - 1) as nat)) * 10,
                b.m * pow10((d - 1) as nat) >= 0,
        ;
        // contradicts canonical form: a.e > 0 yet the mantissa ends in zero
        assert(false);
    }
}

} // verus!
