//! The value-axis scale: the "nice maximum" ceiling.
//!
//! Given the largest item value, the engine picks a visually round axis
//! ceiling: the value is normalized into `[100, 1000)` by powers of ten,
//! rounded to an integer, mapped onto a fixed candidate ladder, and the
//! normalization is undone.  Everything here is exact decimal
//! arithmetic; the model functions below are the reference the
//! executable code is proved against.

use crate::num::{
    lemma_normal_unique, lemma_pow10_adds, lemma_pow10_le, lemma_pow10_pos, lemma_pow10_table,
    lemma_strip_keeps_value, pow10, pow10_u64, sgn, spec_strip, strip_u64, Dec, DEC_IN_E,
    DEC_IN_M, DEC_MAX_M,
};
use vstd::arithmetic::power::lemma_pow_strictly_increases;
use vstd::prelude::*;

verus! {

/// Normalization, upward phase: while the value `m / 10^e` is at most
/// 100, multiply it by ten.  Returns the final mantissa and exponent and
/// the number of steps taken.
pub open spec fn spec_norm_up(m: nat, e: nat) -> (nat, nat, nat)
    decreases e, (if m <= 1000 { (1000 - m) as nat } else { 0nat }),
    via spec_norm_up_decreases
{
    if m == 0 {
        (0, 0, 0)
    } else if m <= 100 * pow10(e) {
        if e > 0 {
            let (m1, e1, u) = spec_norm_up(m, (e - 1) as nat);
            (m1, e1, (u + 1) as nat)
        } else {
            let (m1, e1, u) = spec_norm_up(10 * m, 0);
            (m1, e1, (u + 1) as nat)
        }
    } else {
        (m, e, 0)
    }
}

#[via_fn]
proof fn spec_norm_up_decreases(m: nat, e: nat) {
    lemma_pow10_table();
}

/// Normalization, downward phase: while the value `m / 10^e` is at least
/// 1000, divide it by ten.  Returns the final mantissa and exponent and
/// the number of steps taken.
pub open spec fn spec_norm_down(m: nat, e: nat) -> (nat, nat, nat)
    decreases m - pow10(e),
    via spec_norm_down_decreases
{
    if m >= 1000 * pow10(e) {
        let (m2, e2, d) = spec_norm_down(m, (e + 1) as nat);
        (m2, e2, (d + 1) as nat)
    } else {
        (m, e, 0)
    }
}

#[via_fn]
proof fn spec_norm_down_decreases(m: nat, e: nat) {
    lemma_pow10_pos(e);
    lemma_pow10_adds(e, 1);
    lemma_pow10_table();
}

/// The fixed candidate ladder: the smallest round value whose bracket
/// holds the normalized, rounded input.
pub open spec fn spec_ladder(v: nat) -> nat {
    if v <= 100 {
        100
    } else if v <= 119 {
        120
    } else if v <= 149 {
        160
    } else if v <= 200 {
        200
    } else if v <= 240 {
        240
    } else if v <= 299 {
        300
    } else if v <= 400 {
        400
    } else if v <= 449 {
        500
    } else if v <= 599 {
        600
    } else if v <= 749 {
        800
    } else {
        1000
    }
}

/// Round `m / 10^e` (given `p == 10^e`) to the nearest integer, halves
/// away from zero.
pub open spec fn spec_round_half_up(m: nat, p: int) -> nat {
    (((m + p / 2) as int) / p) as nat
}

/// Mantissa and exponent of the nice ceiling of the positive value
/// `m / 10^e`.
pub open spec fn spec_nice_parts(m: nat, e: nat) -> (nat, nat) {
    let (m1, e1, up) = spec_norm_up(m, e);
    let (m2, e2, down) = spec_norm_down(m1, e1);
    let v1 = spec_round_half_up(m2, pow10(e2));
    let lad = spec_ladder(v1);
    if up >= down {
        // the value was scaled up; scale the ladder pick back down
        let (sm, se) = spec_strip(lad, (up - down) as nat);
        if sm > pow10(se) {
            // a result above one is rounded to the nearest integer
            (spec_round_half_up(sm, pow10(se)), 0)
        } else {
            (sm, se)
        }
    } else {
        // the value was scaled down; the ceiling is an integer
        ((lad * pow10((down - up) as nat)) as nat, 0)
    }
}

/// Powers of ten with matching exponents compare like the exponents.
pub proof fn lemma_pow10_exp_le(a: nat, b: nat)
    requires
        pow10(a) <= pow10(b),
    ensures
        a <= b,
{
    if a > b {
        lemma_pow_strictly_increases(10, b, a);
    }
}

/// The executable ladder step.
fn ladder_value(v: u64) -> (r: u64)
    ensures
        r == spec_ladder(v as nat),
        100 <= r <= 1000,
        r % 10 == 0,
{
    if v <= 100 {
        100
    } else if v <= 119 {
        120
    } else if v <= 149 {
        160
    } else if v <= 200 {
        200
    } else if v <= 240 {
        240
    } else if v <= 299 {
        300
    } else if v <= 400 {
        400
    } else if v <= 449 {
        500
    } else if v <= 599 {
        600
    } else if v <= 749 {
        800
    } else {
        1000
    }
}

/// The nice ceiling of a positive value: normalize into `[100, 1000)` by
/// powers of ten, round, pick the ladder bracket, and undo the
/// normalization.
pub fn calc_max_value(value: &Dec) -> (r: Dec)
    requires
        value.in_range(),
        value.is_pos(),
    ensures
        r.wf(),
        r.is_pos(),
        (r.m as nat, r.e as nat) == spec_nice_parts(value.m as nat, value.e as nat),
        r.e <= 15,
        r.m <= 1000 || r.m % 100 == 0,
{
    let ghost (fm1, fe1, fup) = spec_norm_up(value.m as nat, value.e as nat);

    let mut m: u64 = value.m;
    let mut e: u32 = value.e;
    let mut up: u32 = 0;
    let ghost mut mc: nat = 0;

    proof {
        lemma_pow10_table();
    }

    // upward phase: small values are multiplied by ten
    while m <= 100 * pow10_u64(e)
        invariant
            1 <= m,
            1 <= value.m,
            m as int == value.m * pow10(mc),
            e <= value.e,
            up == value.e - e + mc,
            value.m <= DEC_IN_M,
            value.e <= DEC_IN_E,
            mc <= 3,
            m <= 1_000_000_000_000,
            spec_norm_up(m as nat, e as nat) == (fm1, fe1, (fup - up) as nat),
            up <= fup,
        decreases e, (if m <= 1000 { (1000 - m) as nat } else { 0nat }),
    {
        if e > 0 {
            e = e - 1;
        } else {
            proof {
                // a multiplication step only happens below 100, so there
                // are at most three of them
                lemma_pow10_table();
                if mc >= 3 {
                    lemma_pow10_le(3, mc);
                    assert(value.m * pow10(mc) >= 1 * 1000) by (nonlinear_arith)
                        requires
                            value.m >= 1,
                            pow10(mc) >= 1000,
                    ;
                }
                assert(value.m * pow10(mc) * 10 == value.m * (pow10(mc) * 10)) by (nonlinear_arith);
                lemma_pow10_adds(mc, 1);
                lemma_pow10_table();
            }
            m = m * 10;
            proof {
                mc = mc + 1;
            }
        }
        up = up + 1;
    }

    let ghost e1g = e as nat;
    let ghost (fm2, fe2, fdown) = spec_norm_down(m as nat, e as nat);

    // downward phase: large values are divided by ten
    let mut down: u32 = 0;
    while m >= 1000 * pow10_u64(e)
        invariant
            1 <= m <= 1_000_000_000_000,
            e <= 13,
            down == e - e1g,
            e1g <= e,
            100 * pow10(e as nat) <= m,
            spec_norm_down(m as nat, e as nat) == (fm2, fe2, (fdown - down) as nat),
            down <= fdown,
        decreases 14 - e,
    {
        proof {
            // the loop condition bounds the exponent well below 13
            lemma_pow10_table();
            if e >= 10 {
                lemma_pow10_le(10, e as nat);
                assert(1000 * pow10(e as nat) > 1_000_000_000_000int) by (nonlinear_arith)
                    requires
                        pow10(e as nat) >= 10_000_000_000int,
                ;
            }
            lemma_pow10_adds(e as nat, 1);
        }
        e = e + 1;
        down = down + 1;
    }

    proof {
        // after both phases the normalized value sits in [100, 1000)
        assert(fm2 == m as nat && fe2 == e as nat && fdown == down as nat);
    }

    // round the normalized value to the nearest integer
    let p: u64 = pow10_u64(e);
    let v1: u64 = (m + p / 2) / p;
    let lad: u64 = ladder_value(v1);

    if up >= down {
        let k: u32 = up - down;
        // scale the ladder pick back down: strip what divides evenly
        let mut sm: u64 = lad;
        let mut se: u32 = k;
        while sm % 10 == 0 && se > 0
            invariant
                spec_strip(sm as nat, se as nat) == spec_strip(lad as nat, k as nat),
                1 <= sm <= lad,
                se <= k,
            decreases se,
        {
            sm = sm / 10;
            se = se - 1;
        }
        let ps: u64 = pow10_u64(se);
        if sm > ps {
            // fractional result above one: round it to an integer
            let rm: u64 = (sm + ps / 2) / ps;
            proof {
                lemma_round_le(sm as nat, ps as int);
            }
            Dec { neg: false, m: rm, e: 0 }
        } else {
            Dec { neg: false, m: sm, e: se }
        }
    } else {
        let j: u32 = down - up;
        proof {
            // 100 * 10^e <= m <= 10^12 bounds the final exponent by ten,
            // and with it the count of downward steps
            lemma_pow10_table();
            lemma_pow10_pos(e as nat);
            lemma_pow10_exp_le(e as nat, 10);
            lemma_pow10_le(j as nat, 10);
        }
        let pj: u64 = pow10_u64(j);
        let rm: u64 = lad * pj;
        proof {
            assert(1 * 1 <= lad * pj <= 1000 * pow10(10)) by (nonlinear_arith)
                requires
                    1 <= lad <= 1000,
                    1 <= pj <= pow10(10),
            ;
            lemma_mantissa_mod(lad as nat, j as nat);
        }
        Dec { neg: false, m: rm, e: 0 }
    }
}

/// Rounding a positive fraction `m / p` to the nearest integer does not
/// raise it above `m`, and keeps it positive when `m` exceeds `p`.
pub(crate) proof fn lemma_round_le(m: nat, p: int)
    requires
        p >= 1,
        m > p,
    ensures
        1 <= spec_round_half_up(m, p) <= m,
{
    if p == 1 {
        assert(m + p / 2 == m);
        assert((m as int) / 1 == m);
    } else {
        vstd::arithmetic::div_mod::lemma_div_is_ordered(p + 1, m + p / 2, p);
        vstd::arithmetic::div_mod::lemma_div_is_ordered(m + p / 2, 2 * (m as int), p);
        assert((p + 1) / p >= 1) by (nonlinear_arith)
            requires
                p >= 1,
        ;
        assert((2 * m) as int / p <= m) by (nonlinear_arith)
            requires
                p >= 2,
                m >= 0,
        ;
    }
}

/// A ladder value scaled up by at least one power of ten is divisible by
/// one hundred.
proof fn lemma_mantissa_mod(lad: nat, j: nat)
    requires
        lad % 10 == 0,
        lad <= 1000,
    ensures
        j >= 1 ==> (lad * pow10(j)) % 100 == 0,
{
    if j >= 1 {
        lemma_pow10_pos((j - 1) as nat);
        lemma_pow10_adds((j - 1) as nat, 1);
        lemma_pow10_table();
        let q = lad / 10;
        assert(lad == 10 * q);
        assert(lad * pow10(j) == (q * pow10((j - 1) as nat)) * 100) by (nonlinear_arith)
            requires
                lad == 10 * q,
                pow10(j) == pow10((j - 1) as nat) * 10,
        ;
        assert((q * pow10((j - 1) as nat) * 100) % 100 == 0) by (nonlinear_arith)
            requires
                q * pow10((j - 1) as nat) >= 0,
        ;
    }
}

/// A decimal the tick generator accepts as an axis ceiling: either a
/// caller-supplied value in range, or a nice ceiling, whose mantissa is
/// small or a multiple of one hundred.
pub open spec fn ceiling_ok(c: Dec) -> bool {
    &&& c.wf()
    &&& c.is_pos()
    &&& c.e <= 15
    &&& (c.m <= DEC_IN_M || c.m <= 1000 || c.m % 100 == 0)
}

/// The canonical quarter of a decimal: mantissa times 25, exponent up
/// by two, trailing zeros stripped.
pub open spec fn spec_quarter(c: Dec) -> Dec {
    let (sm, se) = spec_strip((25 * c.m) as nat, (c.e + 2) as nat);
    Dec { neg: false, m: sm as u64, e: se as u32 }
}

/// The canonical small multiple of a decimal.
pub open spec fn spec_times(d: Dec, k: nat) -> Dec {
    let (sm, se) = spec_strip((k * d.m) as nat, d.e as nat);
    Dec { neg: false, m: sm as u64, e: se as u32 }
}

/// The five generated tick values: zero to the ceiling in quarter steps.
pub open spec fn spec_gen_ticks(c: Dec) -> Seq<Dec> {
    seq![
        Dec { neg: false, m: 0, e: 0 },
        spec_times(spec_quarter(c), 1),
        spec_times(spec_quarter(c), 2),
        spec_times(spec_quarter(c), 3),
        spec_times(spec_quarter(c), 4),
    ]
}

/// A quarter of a nice ceiling, exactly: the default tick spacing.
pub fn quarter(c: &Dec) -> (r: Dec)
    requires
        ceiling_ok(*c),
    ensures
        r.wf(),
        r.is_pos(),
        r.e <= c.e + 2,
        4 * r.m <= 100 * c.m,
        c.m % 100 == 0 ==> 4 * r.m <= c.m,
        4 * r.m * pow10(c.e as nat) == c.m * pow10(r.e as nat),
        r == spec_quarter(*c),
{
    let t: u64 = c.m * 25;
    let e2: u32 = c.e + 2;
    let (sm, se) = strip_u64(t, e2);
    proof {
        lemma_strip_keeps_value(t as nat, e2 as nat);
        lemma_pow10_adds(c.e as nat, 2);
        lemma_pow10_table();
        let pse = pow10(se as nat);
        let pce = pow10(c.e as nat);
        // t * 10^se == sm * 10^(c.e + 2)  ==>  c.m * 10^se == 4 * sm * 10^c.e
        assert((c.m * pse) * 25 == (4 * sm * pce) * 25) by (nonlinear_arith)
            requires
                (25 * c.m) * pse == sm * (pce * 100),
        ;
        assert(c.m * pse == 4 * sm * pce) by (nonlinear_arith)
            requires
                (c.m * pse) * 25 == (4 * sm * pce) * 25,
        ;
        if c.m % 100 == 0 {
            // c.m is a multiple of 100, so 25 * c.m strips at least twice
            let q = c.m / 100;
            assert(c.m == 100 * q);
            assert(t == 10 * (250 * q) && t / 10 == 250 * q) by (nonlinear_arith)
                requires
                    t == 25 * (100 * q),
            ;
            assert(spec_strip(t as nat, e2 as nat) == spec_strip((250 * q) as nat, (e2 - 1) as nat));
            assert(250 * q == 10 * (25 * q) && (250 * q) / 10 == 25 * q) by (nonlinear_arith);
            assert(spec_strip((250 * q) as nat, (e2 - 1) as nat) == spec_strip(
                (25 * q) as nat,
                (e2 - 2) as nat,
            ));
            lemma_strip_keeps_value((25 * q) as nat, (e2 - 2) as nat);
            assert(4 * sm <= 4 * (25 * q)) by (nonlinear_arith)
                requires
                    sm <= 25 * q,
            ;
        }
    }
    Dec { neg: false, m: sm, e: se }
}

/// An exact small multiple of a non-negative decimal.
pub fn times(d: &Dec, k: u64) -> (r: Dec)
    requires
        d.wf(),
        !d.neg,
        1 <= k <= 4,
        k * d.m <= DEC_MAX_M,
        d.m >= 1,
    ensures
        r.wf(),
        r.is_pos(),
        r.e <= d.e,
        r.m <= k * d.m,
        r.m * pow10(d.e as nat) == k * d.m * pow10(r.e as nat),
        r == spec_times(*d, k as nat),
{
    proof {
        assert(d.m * k == k * d.m && d.m * k >= 1 * 1) by (nonlinear_arith)
            requires
                d.m >= 1,
                k >= 1,
        ;
    }
    let t: u64 = d.m * k;
    let (sm, se) = strip_u64(t, d.e);
    proof {
        lemma_strip_keeps_value(t as nat, d.e as nat);
    }
    Dec { neg: false, m: sm, e: se }
}

/// Composing the quarter step with a small multiple: tick `i` is exactly
/// `i` quarters of the ceiling.
proof fn lemma_tick_value(c: Dec, s: Dec, t: Dec, i: nat)
    requires
        4 * s.m * pow10(c.e as nat) == c.m * pow10(s.e as nat),
        t.m * pow10(s.e as nat) == i * s.m * pow10(t.e as nat),
    ensures
        4 * t.m * pow10(c.e as nat) == i * c.m * pow10(t.e as nat),
{
    let ps = pow10(s.e as nat);
    let pc = pow10(c.e as nat);
    let pt = pow10(t.e as nat);
    lemma_pow10_pos(s.e as nat);
    assert((4 * t.m * pc) * ps == (i * c.m * pt) * ps) by (nonlinear_arith)
        requires
            4 * s.m * pc == c.m * ps,
            t.m * ps == i * s.m * pt,
    ;
    assert(4 * t.m * pc == i * c.m * pt) by (nonlinear_arith)
        requires
            (4 * t.m * pc) * ps == (i * c.m * pt) * ps,
            ps > 0,
    ;
}

/// The generated tick values: exactly five of them, evenly spaced from
/// zero to the ceiling inclusive.
pub fn gen_ticks_list(max_value: &Dec) -> (r: Vec<Dec>)
    requires
        ceiling_ok(*max_value),
    ensures
        r@.len() == 5,
        forall|i: int| 0 <= i < 5 ==> (#[trigger] r@[i]).wf(),
        forall|i: int| 0 <= i < 5 ==> !r@[i].neg,
        forall|i: int|
            0 <= i < 5 ==> 4 * (#[trigger] r@[i]).m * pow10(max_value.e as nat) == i
                * max_value.m * pow10(r@[i].e as nat),
        r@[0] == (Dec { neg: false, m: 0, e: 0 }),
        r@[4] == *max_value,
        r@ == spec_gen_ticks(*max_value),
{
    let step = quarter(max_value);
    proof {
        // the quarter is small enough that four of it stays in range
        if max_value.m % 100 == 0 {
            assert(4 * step.m <= DEC_MAX_M);
        } else {
            assert(4 * step.m <= 100 * max_value.m);
        }
    }
    let mut v: Vec<Dec> = Vec::new();
    v.push(Dec::zero());
    let t1 = times(&step, 1);
    proof {
        lemma_tick_value(*max_value, step, t1, 1);
    }
    v.push(t1);
    let t2 = times(&step, 2);
    proof {
        lemma_tick_value(*max_value, step, t2, 2);
    }
    v.push(t2);
    let t3 = times(&step, 3);
    proof {
        lemma_tick_value(*max_value, step, t3, 3);
    }
    v.push(t3);
    let t4 = times(&step, 4);
    proof {
        lemma_tick_value(*max_value, step, t4, 4);
        // four quarters give back the ceiling itself, canonically
        lemma_pow10_pos(max_value.e as nat);
        lemma_pow10_pos(t4.e as nat);
        assert(sgn(t4) * t4.m * pow10(max_value.e as nat) == sgn(*max_value) * max_value.m * pow10(
            t4.e as nat,
        )) by (nonlinear_arith)
            requires
                4 * t4.m * pow10(max_value.e as nat) == 4 * max_value.m * pow10(t4.e as nat),
                sgn(t4) == 1,
                sgn(*max_value) == 1,
        ;
        lemma_normal_unique(t4, *max_value);
    }
    v.push(t4);
    proof {
        let pc = pow10(max_value.e as nat);
        assert forall|i: int| 0 <= i < 5 implies 4 * (#[trigger] v@[i]).m * pc == i * max_value.m
            * pow10(v@[i].e as nat) by {
            if i == 0 {
                assert(v@[0] == (Dec { neg: false, m: 0, e: 0 }));
                assert(4 * v@[i].m * pc == i * max_value.m * pow10(v@[i].e as nat))
                    by (nonlinear_arith)
                    requires
                        i == 0,
                        v@[i].m == 0,
                ;
            } else if i == 1 {
                assert(v@[1] == t1);
                assert(4 * t1.m * pc == 1 * max_value.m * pow10(t1.e as nat));
            } else if i == 2 {
                assert(v@[2] == t2);
                assert(4 * t2.m * pc == 2 * max_value.m * pow10(t2.e as nat));
            } else if i == 3 {
                assert(v@[3] == t3);
                assert(4 * t3.m * pc == 3 * max_value.m * pow10(t3.e as nat));
            } else {
                assert(v@[4] == t4);
                assert(4 * t4.m * pc == 4 * max_value.m * pow10(t4.e as nat));
            }
        }
        assert(v@ =~= spec_gen_ticks(*max_value));
    }
    v
}

/// Where a value lands on the drawable width, scaled against the axis
/// ceiling: `floor(v * w / c)`, clamped so every coordinate stays small,
/// and zero for negative values.
pub open spec fn spec_scale_pos(v: Dec, c: Dec, w: nat) -> nat {
    if v.neg {
        0
    } else {
        let q = (v.m * w * pow10(c.e as nat)) / (c.m * pow10(v.e as nat));
        if q < 0 {
            0
        } else if q > 0x4000_0000 {
            0x4000_0000 as nat
        } else {
            q as nat
        }
    }
}

/// The pixel offset of a value along the axis.
pub fn scale_pos(v: &Dec, c: &Dec, w: u64) -> (r: u64)
    requires
        v.wf(),
        c.wf(),
        c.is_pos(),
        c.e <= 15,
        w <= 0x4000_0000,
    ensures
        r == spec_scale_pos(*v, *c, w as nat),
        r <= 0x4000_0000,
{
    if v.neg {
        return 0;
    }
    let pc = pow10_u64(c.e);
    let pv = pow10_u64(v.e);
    proof {
        assert(v.m * w <= 100_000_000_000_000 * 0x4000_0000u64) by (nonlinear_arith)
            requires
                v.m <= 100_000_000_000_000,
                w <= 0x4000_0000,
        ;
        assert(v.m * w * pc <= (100_000_000_000_000 * 0x4000_0000u64)
            * 1_000_000_000_000_000u64) by (nonlinear_arith)
            requires
                0 <= v.m * w <= 100_000_000_000_000 * 0x4000_0000u64,
                0 <= pc <= 1_000_000_000_000_000u64,
        ;
        assert(c.m * pv <= 100_000_000_000_000 * 100_000_000_000_000_000u64) by (nonlinear_arith)
            requires
                c.m <= 100_000_000_000_000,
                0 <= pv <= 100_000_000_000_000_000u64,
        ;
        assert(c.m * pv >= 1) by (nonlinear_arith)
            requires
                c.m >= 1,
                pv >= 1,
        ;
    }
    let num: u128 = (v.m as u128) * (w as u128) * (pc as u128);
    let den: u128 = (c.m as u128) * (pv as u128);
    let q: u128 = num / den;
    if q > 0x4000_0000 {
        0x4000_0000
    } else {
        q as u64
    }
}


} // verus!
