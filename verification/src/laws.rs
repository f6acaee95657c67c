//! The engine's stated laws.
//!
//! The public proof functions here pin down what the nice-maximum scale
//! and the render pass promise beyond their own contracts: the scale is
//! monotone over all positive values, the ceiling covers every
//! whole-number input up to a thousand, and rendering is a function of
//! the measured state alone.

use crate::bars::{
    spec_ann_bbox, spec_bar_cmds, spec_bar_rect, spec_bar_w, spec_bars_cmds, spec_bars_draw,
    spec_border, spec_handle_w, spec_item_height, spec_tick_cmds, spec_ticks_cmds, BarsLayout,
};
use crate::boxes::ChartBoxes;
use crate::config::Config;
use crate::font::FontMetrics;
use crate::main_layout::{spec_main_draw, MainLayout};
use crate::num::{
    lemma_pow10_adds, lemma_pow10_le, lemma_pow10_pos, lemma_pow10_table, pow10, spec_strip, Dec,
};
use crate::num::{lemma_strip_keeps_value, sgn};
use crate::scale::{
    spec_ladder, spec_nice_parts, spec_norm_down, spec_norm_up, spec_round_half_up,
};
use crate::vaxis::{spec_name_cmds, spec_names_cmds, spec_vaxis_draw, VAxisLayout};
use vstd::prelude::*;

verus! {

/// The candidate ladder never reorders two inputs.
pub proof fn lemma_ladder_monotone(v1: nat, v2: nat)
    requires
        v1 <= v2,
    ensures
        spec_ladder(v1) <= spec_ladder(v2),
{
}

/// The candidate ladder never falls below an input in its range.
pub proof fn lemma_ladder_covers(v: nat)
    requires
        100 <= v <= 1000,
    ensures
        spec_ladder(v) >= v,
        100 <= spec_ladder(v) <= 1000,
{
}

/// The closed form of the nice ceiling on whole numbers up to a
/// thousand: the ladder applied at the input's own scale.
pub open spec fn spec_small_ceiling(m: nat) -> nat {
    if m == 1 {
        1
    } else if m <= 9 {
        (spec_ladder(100 * m) / 100) as nat
    } else if m == 10 {
        10
    } else if m <= 99 {
        (spec_ladder(10 * m) / 10) as nat
    } else if m == 100 {
        100
    } else if m <= 999 {
        spec_ladder(m)
    } else {
        1000
    }
}

/// On whole numbers up to a thousand the nice ceiling is whole and
/// takes its closed form.
pub proof fn lemma_nice_parts_integer_form(v: Dec)
    requires
        v.wf(),
        v.is_pos(),
        v.e == 0,
        v.m <= 1000,
    ensures
        spec_nice_parts(v.m as nat, v.e as nat) == (spec_small_ceiling(v.m as nat), 0nat),
{
    reveal_with_fuel(spec_norm_up, 6);
    reveal_with_fuel(spec_norm_down, 4);
    reveal_with_fuel(crate::num::spec_strip, 5);
    lemma_pow10_table();
    let m = v.m as nat;
    if m == 1 {
        // 1 -> 1000 after three scalings, back down once: ceiling 1
        assert(spec_norm_up(1nat, 0nat) == (1000nat, 0nat, 3nat));
        assert(spec_norm_down(1000nat, 0nat) == (1000nat, 1nat, 1nat));
        assert(spec_round_half_up(1000nat, pow10(1)) == 100);
        assert(spec_ladder(100nat) == 100);
        assert(crate::num::spec_strip(100nat, 2nat) == (1nat, 0nat));
    } else if 2 <= m <= 9 {
        // two scalings: the normalized value is the exact hundred 100*m
        assert(spec_norm_up(m, 0) == (100 * m, 0nat, 2nat));
        assert(spec_norm_down(100 * m, 0) == (100 * m, 0nat, 0nat));
        assert(spec_round_half_up(100 * m, pow10(0)) == 100 * m);
        let lad = spec_ladder(100 * m);
        assert(lad >= 100 * m && lad % 100 == 0 && lad >= 200);
        let q = lad / 100;
        assert(lad == 100 * q && q >= m && q >= 2);
        assert(lad % 10 == 0 && lad / 10 == 10 * q && (10 * q) % 10 == 0 && (10 * q) / 10 == q)
            by (nonlinear_arith)
            requires
                lad == 100 * q,
                q >= 2,
        ;
        assert(crate::num::spec_strip(lad, 2) == (q, 0nat));
        assert(spec_round_half_up(q, pow10(0)) == q);
    } else if m == 10 {
        assert(spec_norm_up(10nat, 0nat) == (1000nat, 0nat, 2nat));
        assert(spec_norm_down(1000nat, 0nat) == (1000nat, 1nat, 1nat));
        assert(spec_round_half_up(1000nat, pow10(1)) == 100);
        assert(crate::num::spec_strip(100nat, 1nat) == (10nat, 0nat));
        assert(spec_round_half_up(10nat, pow10(0)) == 10);
    } else if 11 <= m <= 99 {
        // one scaling: the normalized value is the exact ten 10*m
        assert(spec_norm_up(m, 0) == (10 * m, 0nat, 1nat));
        assert(spec_norm_down(10 * m, 0) == (10 * m, 0nat, 0nat));
        assert(spec_round_half_up(10 * m, pow10(0)) == 10 * m);
        let lad = spec_ladder(10 * m);
        assert(lad >= 10 * m && lad % 10 == 0);
        let q = lad / 10;
        assert(lad == 10 * q && q >= m);
        assert(crate::num::spec_strip(lad, 1) == (q, 0nat));
        assert(spec_round_half_up(q, pow10(0)) == q);
    } else if m == 100 {
        assert(spec_norm_up(100nat, 0nat) == (1000nat, 0nat, 1nat));
        assert(spec_norm_down(1000nat, 0nat) == (1000nat, 1nat, 1nat));
        assert(spec_round_half_up(1000nat, pow10(1)) == 100);
        assert(crate::num::spec_strip(100nat, 0nat) == (100nat, 0nat));
        assert(spec_round_half_up(100nat, pow10(0)) == 100);
    } else if m <= 999 {
        // already normalized: the ladder acts on the value itself
        assert(spec_norm_up(m, 0) == (m, 0nat, 0nat));
        assert(spec_norm_down(m, 0) == (m, 0nat, 0nat));
        assert(spec_round_half_up(m, pow10(0)) == m);
        let lad = spec_ladder(m);
        lemma_ladder_covers(m);
        assert(crate::num::spec_strip(lad, 0) == (lad, 0nat));
        assert(spec_round_half_up(lad, pow10(0)) == lad);
    } else {
        // exactly one thousand: one downward scaling, undone at the end
        assert(spec_norm_up(1000nat, 0nat) == (1000nat, 0nat, 0nat));
        assert(spec_norm_down(1000nat, 0nat) == (1000nat, 1nat, 1nat));
        assert(spec_round_half_up(1000nat, pow10(1)) == 100);
        assert(spec_ladder(100nat) * pow10(1) == 1000);
    }
}

/// The nice ceiling covers the input: for every whole-number value from
/// one to a thousand, the computed ceiling is a whole number at least
/// as large.  (Fractional inputs can fall below their ceiling's
/// rounding: 1.1 maps to 1, and 100.4 to 100.)
pub proof fn lemma_nice_max_covers(v: Dec)
    requires
        v.wf(),
        v.is_pos(),
        v.e == 0,
        v.m <= 1000,
    ensures
        ({
            let (pm, pe) = spec_nice_parts(v.m as nat, v.e as nat);
            pe == 0 && pm >= v.m
        }),
{
    lemma_nice_parts_integer_form(v);
    lemma_small_ceiling_bounds(v.m as nat);
}

/// Helper: the closed-form ceiling stays within its input's band.
proof fn lemma_small_ceiling_bounds(m: nat)
    requires
        1 <= m <= 1000,
    ensures
        spec_small_ceiling(m) >= m,
        m == 1 ==> spec_small_ceiling(m) == 1,
        2 <= m <= 9 ==> 2 <= spec_small_ceiling(m) <= 10,
        11 <= m <= 99 ==> 12 <= spec_small_ceiling(m) <= 100,
        101 <= m <= 999 ==> 120 <= spec_small_ceiling(m) <= 1000,
{
    if 2 <= m <= 9 {
        lemma_ladder_covers(100 * m);
        vstd::arithmetic::div_mod::lemma_div_is_ordered((100 * m) as int, spec_ladder(100 * m) as int, 100);
        vstd::arithmetic::div_mod::lemma_div_multiples_vanish(m as int, 100);
        vstd::arithmetic::div_mod::lemma_div_is_ordered(spec_ladder(100 * m) as int, 1000, 100);
        vstd::arithmetic::div_mod::lemma_div_is_ordered(200, spec_ladder(100 * m) as int, 100);
    } else if 11 <= m <= 99 {
        lemma_ladder_covers(10 * m);
        vstd::arithmetic::div_mod::lemma_div_is_ordered((10 * m) as int, spec_ladder(10 * m) as int, 10);
        vstd::arithmetic::div_mod::lemma_div_multiples_vanish(m as int, 10);
        vstd::arithmetic::div_mod::lemma_div_is_ordered(spec_ladder(10 * m) as int, 1000, 10);
        vstd::arithmetic::div_mod::lemma_div_is_ordered(120, spec_ladder(10 * m) as int, 10);
    } else if 101 <= m <= 999 {
        lemma_ladder_covers(m);
    }
}

/// An annotation is inside its bar exactly when it fits: with room for
/// the text and an inset on both sides, its box ends strictly before
/// the bar's right edge; otherwise it starts past the bar's edge, where
/// the connecting handle is drawn.
pub proof fn lemma_annotation_placement(
    b: BarsLayout,
    c: Config,
    fm: FontMetrics,
    boxes: ChartBoxes,
    i: int,
)
    requires
        c.wf(),
        fm.wf(),
        boxes.wf(),
        boxes.matches(c),
        b.measured(c, fm, boxes),
        0 <= i < b.bars@.len(),
    ensures
        ({
            let bar = b.bars@[i];
            let tw = boxes.annotation_boxes@[i].w;
            let fits = tw + 2 * spec_border(fm) < spec_bar_w(c, fm, boxes, i);
            &&& (fits ==> bar.annotation_bbox.x + bar.annotation_bbox.w < bar.r.x + bar.r.w)
            &&& (!fits ==> bar.annotation_bbox.x >= bar.r.x + bar.r.w + 2)
        }),
{
    let bar = b.bars@[i];
    let tw = boxes.annotation_boxes@[i].w as nat;
    let bw = spec_bar_w(c, fm, boxes, i);
    let border = spec_border(fm);
    let left = (boxes.zero_box.w / 2) as nat;
    assert(bar.annotation_bbox == spec_ann_bbox(c, fm, boxes, i));
    assert(bar.r == spec_bar_rect(c, fm, boxes, i));
    // the inset is at least one pixel, and every coordinate fits `i32`
    assert(spec_item_height(fm) >= 5);
    assert(border >= 1);
    assert(bw <= 0x4000_0000);
    assert(left <= 0x7FFF);
    assert(tw <= 0xFFFF);
    assert(spec_handle_w(fm) <= 255);
    if tw + 2 * border < bw {
        assert(bar.annotation_bbox.x == left + bw - tw - border);
        assert(bar.annotation_bbox.w == tw);
        assert(bar.r.x == left && bar.r.w == bw);
    } else {
        assert(bar.annotation_bbox.x == left + bw + spec_handle_w(fm) + 2);
        assert(bar.r.x == left && bar.r.w == bw);
    }
}

/// Rendering is a function of the measured state: two bars blocks that
/// measured to the same state draw, at the same offsets, the same
/// command sequence.  With the render contracts, which pin each output
/// to this model sequence, re-running measure and render twice on one
/// description gives byte-identical command lists.
pub proof fn lemma_render_deterministic(
    a: BarsLayout,
    b: BarsLayout,
    c: Config,
    fm: FontMetrics,
    boxes: ChartBoxes,
    x: int,
    y: int,
)
    requires
        a.measured(c, fm, boxes),
        b.measured(c, fm, boxes),
        a.lay.debug == b.lay.debug,
    ensures
        spec_bars_draw(a, c, fm, x, y) == spec_bars_draw(b, c, fm, x, y),
{
    lemma_ticks_cmds_agree(a, b, c, fm, boxes, x, y, a.ticks@.len() as int);
    lemma_bars_cmds_agree(a, b, c, fm, boxes, x, y, a.bars@.len() as int);
}

/// Helper: the tick command prefixes agree between two equally measured
/// blocks.
proof fn lemma_ticks_cmds_agree(
    a: BarsLayout,
    b: BarsLayout,
    c: Config,
    fm: FontMetrics,
    boxes: ChartBoxes,
    x: int,
    y: int,
    n: int,
)
    requires
        a.measured(c, fm, boxes),
        b.measured(c, fm, boxes),
        a.lay.debug == b.lay.debug,
        n <= a.ticks@.len(),
    ensures
        spec_ticks_cmds(a, fm, x, y, n) == spec_ticks_cmds(b, fm, x, y, n),
    decreases n,
{
    if n > 0 {
        lemma_ticks_cmds_agree(a, b, c, fm, boxes, x, y, n - 1);
        let i = n - 1;
        assert(a.ticks@[i].value == b.ticks@[i].value);
        assert(a.ticks@[i].pos == b.ticks@[i].pos);
        assert(a.ticks@[i].title@ == b.ticks@[i].title@);
        assert(a.ticks@[i].bbox == b.ticks@[i].bbox);
        assert(spec_tick_cmds(a, fm, x, y, i) =~= spec_tick_cmds(b, fm, x, y, i));
    }
}

/// Helper: the bar command prefixes agree between two equally measured
/// blocks.
proof fn lemma_bars_cmds_agree(
    a: BarsLayout,
    b: BarsLayout,
    c: Config,
    fm: FontMetrics,
    boxes: ChartBoxes,
    x: int,
    y: int,
    n: int,
)
    requires
        a.measured(c, fm, boxes),
        b.measured(c, fm, boxes),
        n <= a.bars@.len(),
    ensures
        spec_bars_cmds(a, c, fm, x, y, n) == spec_bars_cmds(b, c, fm, x, y, n),
    decreases n,
{
    if n > 0 {
        lemma_bars_cmds_agree(a, b, c, fm, boxes, x, y, n - 1);
        let i = n - 1;
        assert(a.bars@[i].r == b.bars@[i].r);
        assert(a.bars@[i].annotation@ == b.bars@[i].annotation@);
        assert(a.bars@[i].annotation_bbox == b.bars@[i].annotation_bbox);
        assert(a.item_height == b.item_height);
        assert(spec_bar_cmds(a, c, fm, x, y, i) =~= spec_bar_cmds(b, c, fm, x, y, i));
    }
}

/// Helper: the name command prefixes agree between two equally measured
/// name columns.
proof fn lemma_names_cmds_agree(
    a: VAxisLayout,
    b: VAxisLayout,
    c: Config,
    fm: FontMetrics,
    x: int,
    y: int,
    n: int,
)
    requires
        a.lay.size.w == b.lay.size.w,
        a.lay.debug == b.lay.debug,
        a.name_boxes@ == b.name_boxes@,
        a.ticks@ == b.ticks@,
        n <= a.name_boxes@.len(),
        n <= a.ticks@.len(),
    ensures
        spec_names_cmds(a, c, fm, x, y, n) == spec_names_cmds(b, c, fm, x, y, n),
    decreases n,
{
    if n > 0 {
        lemma_names_cmds_agree(a, b, c, fm, x, y, n - 1);
        assert(spec_name_cmds(a, c, fm, x, y, n - 1) =~= spec_name_cmds(b, c, fm, x, y, n - 1));
    }
}

/// Re-running the whole chart is deterministic: two charts of one
/// description and one diagnostic setting that measured against the
/// same metrics and boxes render, at the same offsets, byte-identical
/// command sequences.
pub proof fn lemma_chart_render_deterministic(
    a: MainLayout,
    b: MainLayout,
    fm: FontMetrics,
    boxes: ChartBoxes,
    x: int,
    y: int,
)
    requires
        a.chart_measured(fm, boxes),
        b.chart_measured(fm, boxes),
        a.config == b.config,
        a.bars_lay.lay.debug == b.bars_lay.lay.debug,
        a.vaxis_lay.lay.debug == b.vaxis_lay.lay.debug,
        match (a.title_lay, b.title_lay) {
            (Some(la), Some(lb)) => la.lay.debug == lb.lay.debug,
            _ => true,
        },
        match (a.haxis_lay, b.haxis_lay) {
            (Some(la), Some(lb)) => la.lay.debug == lb.lay.debug,
            _ => true,
        },
    ensures
        spec_main_draw(a, fm, x, y) == spec_main_draw(b, fm, x, y),
{
    let tx = x + a.vaxis_lay.lay.size.w;
    let ty = y + match a.title_lay {
        Some(l) => l.lay.size.h as int,
        None => 0,
    };
    match (a.title_lay, b.title_lay) {
        (Some(la), Some(lb)) => {
            assert(la.title@ == lb.title@);
            assert(crate::title::spec_title_draw(la, fm, tx + a.bars_lay.lay.margins.left, y)
                =~= crate::title::spec_title_draw(lb, fm, tx + b.bars_lay.lay.margins.left, y));
        },
        _ => {},
    }
    assert(a.vaxis_lay.ticks@ =~= b.vaxis_lay.ticks@);
    lemma_names_cmds_agree(
        a.vaxis_lay,
        b.vaxis_lay,
        a.config,
        fm,
        x,
        ty,
        a.vaxis_lay.name_boxes@.len() as int,
    );
    assert(spec_vaxis_draw(a.vaxis_lay, a.config, fm, x, ty) =~= spec_vaxis_draw(
        b.vaxis_lay,
        b.config,
        fm,
        x,
        ty,
    ));
    lemma_render_deterministic(a.bars_lay, b.bars_lay, a.config, fm, boxes, tx, ty);
    match (a.haxis_lay, b.haxis_lay) {
        (Some(la), Some(lb)) => {
            assert(la.title@ == lb.title@);
            assert(crate::haxis::spec_haxis_draw(la, fm, tx, ty + a.bars_lay.lay.size.h)
                =~= crate::haxis::spec_haxis_draw(lb, fm, tx, ty + b.bars_lay.lay.size.h));
        },
        _ => {},
    }
}

/// Helper: the upward phase scales the value by tens, exactly, until it
/// exceeds one hundred.
proof fn lemma_norm_up_props(m: nat, e: nat)
    requires
        m >= 1,
    ensures
        ({
            let (m1, e1, u) = spec_norm_up(m, e);
            &&& m1 >= 1
            &&& m1 > 100 * pow10(e1)
            &&& m1 * pow10(e) == m * pow10((e1 + u) as nat)
            &&& e1 <= e
        }),
    decreases e, (if m <= 1000 { (1000 - m) as nat } else { 0nat }),
{
    lemma_pow10_table();
    if m <= 100 * pow10(e) {
        if e > 0 {
            lemma_norm_up_props(m, (e - 1) as nat);
            let (m1, e1, u) = spec_norm_up(m, (e - 1) as nat);
            lemma_pow10_adds((e - 1) as nat, 1);
            lemma_pow10_adds((e1 + u) as nat, 1);
            assert(m1 * pow10(e) == (m1 * pow10((e - 1) as nat)) * 10) by (nonlinear_arith)
                requires
                    pow10(e) == pow10((e - 1) as nat) * 10,
            ;
            assert((m * pow10((e1 + u) as nat)) * 10 == m * pow10((e1 + u + 1) as nat))
                by (nonlinear_arith)
                requires
                    pow10((e1 + u + 1) as nat) == pow10((e1 + u) as nat) * 10,
            ;
        } else {
            lemma_norm_up_props(10 * m, 0);
            let (m1, e1, u) = spec_norm_up(10 * m, 0);
            lemma_pow10_adds((e1 + u) as nat, 1);
            assert((10 * m) * pow10((e1 + u) as nat) == m * pow10((e1 + u + 1) as nat))
                by (nonlinear_arith)
                requires
                    pow10((e1 + u + 1) as nat) == pow10((e1 + u) as nat) * 10,
            ;
        }
    }
}

/// Helper: the downward phase raises only the exponent, until the value
/// drops below a thousand, staying at or above one hundred.
proof fn lemma_norm_down_props(m: nat, e: nat)
    requires
        m >= 1,
    ensures
        ({
            let (m2, e2, d) = spec_norm_down(m, e);
            &&& m2 == m
            &&& e2 == e + d
            &&& m < 1000 * pow10(e2)
            &&& (m >= 100 * pow10(e) ==> m >= 100 * pow10(e2))
        }),
    decreases m - pow10(e),
{
    lemma_pow10_pos(e);
    lemma_pow10_adds(e, 1);
    lemma_pow10_table();
    if m >= 1000 * pow10(e) {
        assert(1000 * pow10(e) == 100 * pow10((e + 1) as nat)) by (nonlinear_arith)
            requires
                pow10((e + 1) as nat) == pow10(e) * 10,
        ;
        lemma_norm_down_props(m, (e + 1) as nat);
    }
}

/// Helper: both phases together scale the value exactly into the
/// normalized band.
proof fn lemma_norm_rel(m: nat, e: nat)
    requires
        m >= 1,
    ensures
        ({
            let (m1, e1, u) = spec_norm_up(m, e);
            let (m2, e2, d) = spec_norm_down(m1, e1);
            &&& m2 >= 1
            &&& m2 * pow10((e + d) as nat) == m * pow10((e2 + u) as nat)
            &&& 100 * pow10(e2) <= m2 < 1000 * pow10(e2)
        }),
{
    lemma_norm_up_props(m, e);
    let (m1, e1, u) = spec_norm_up(m, e);
    lemma_norm_down_props(m1, e1);
    let (m2, e2, d) = spec_norm_down(m1, e1);
    lemma_pow10_adds(e, d);
    lemma_pow10_adds((e1 + u) as nat, d);
    assert(m2 * pow10((e + d) as nat) == (m1 * pow10(e)) * pow10(d)) by (nonlinear_arith)
        requires
            m2 == m1,
            pow10((e + d) as nat) == pow10(e) * pow10(d),
    ;
    assert((m * pow10((e1 + u) as nat)) * pow10(d) == m * pow10((e1 + u + d) as nat))
        by (nonlinear_arith)
        requires
            pow10((e1 + u + d) as nat) == pow10((e1 + u) as nat) * pow10(d),
    ;
    assert(e2 + u == e1 + u + d);
}

/// Helper: a power of ten above one splits into twice its exact half.
proof fn lemma_pow10_half(e: nat)
    requires
        e >= 1,
    ensures
        pow10(e) == 2 * (pow10(e) / 2),
        pow10(e) / 2 == 5 * pow10((e - 1) as nat),
{
    lemma_pow10_adds((e - 1) as nat, 1);
    lemma_pow10_table();
    lemma_pow10_pos((e - 1) as nat);
    let q = pow10((e - 1) as nat);
    assert(pow10(e) == 2 * (5 * q)) by (nonlinear_arith)
        requires
            pow10(e) == q * 10,
    ;
    assert((2 * (5 * q)) / 2 == 5 * q) by (nonlinear_arith)
        requires
            q >= 1,
    ;
}

/// Helper: rounding half-up is monotone over fractions, whatever their
/// denominators.
proof fn lemma_round_monotone(an: nat, ae: nat, bn: nat, be: nat)
    requires
        an * pow10(be) <= bn * pow10(ae),
    ensures
        spec_round_half_up(an, pow10(ae)) <= spec_round_half_up(bn, pow10(be)),
{
    lemma_pow10_pos(ae);
    lemma_pow10_pos(be);
    let pa = pow10(ae);
    let pb = pow10(be);
    let va = spec_round_half_up(an, pa);
    let vb = spec_round_half_up(bn, pb);
    vstd::arithmetic::div_mod::lemma_fundamental_div_mod(an + pa / 2, pa);
    vstd::arithmetic::div_mod::lemma_fundamental_div_mod(bn + pb / 2, pb);
    let ra = (an + pa / 2) % pa;
    let rb = (bn + pb / 2) % pb;
    vstd::arithmetic::div_mod::lemma_mod_division_less_than_divisor(an + pa / 2, pa);
    vstd::arithmetic::div_mod::lemma_mod_division_less_than_divisor(bn + pb / 2, pb);
    vstd::arithmetic::div_mod::lemma_div_pos_is_pos(an + pa / 2, pa);
    vstd::arithmetic::div_mod::lemma_div_pos_is_pos(bn + pb / 2, pb);
    if va > vb {
        // the two remainders bound the mantissas tightly enough that the
        // cross product flips, whatever the parities of the halves
        assert(an + pa / 2 == va * pa + ra);
        assert(bn + pb / 2 == vb * pb + rb);
        lemma_pow10_table();
        if ae >= 1 {
            lemma_pow10_half(ae);
        } else {
            assert(pa == 1);
        }
        if be >= 1 {
            lemma_pow10_half(be);
        } else {
            assert(pb == 1);
        }
        assert(false) by (nonlinear_arith)
            requires
                an * pb <= bn * pa,
                an + pa / 2 == va * pa + ra,
                bn + pb / 2 == vb * pb + rb,
                0 <= ra < pa,
                0 <= rb < pb,
                va >= vb + 1,
                va >= 0,
                vb >= 0,
                pa >= 1,
                pb >= 1,
                pa == 1 || pa == 2 * (pa / 2),
                pb == 1 || pb == 2 * (pb / 2),
        ;
    }
}

/// Helper: scaling both sides of an inequality by a power of ten.
proof fn lemma_le_scale_pow(x: int, y: int, t: nat)
    requires
        x <= y,
    ensures
        x * pow10(t) <= y * pow10(t),
{
    lemma_pow10_pos(t);
    assert(x * pow10(t) <= y * pow10(t)) by (nonlinear_arith)
        requires
            x <= y,
            pow10(t) >= 0,
    ;
}

/// Helper: cancelling a power of ten from both sides of an inequality.
proof fn lemma_le_cancel_pow(x: int, y: int, t: nat)
    requires
        x * pow10(t) <= y * pow10(t),
    ensures
        x <= y,
{
    lemma_pow10_pos(t);
    assert(x <= y) by (nonlinear_arith)
        requires
            x * pow10(t) <= y * pow10(t),
            pow10(t) > 0,
    ;
}

/// Helper: the master comparison of two normalized values.  Ordering of
/// the inputs survives normalization, with each side carrying the
/// other's scaling steps.
proof fn lemma_cross_scale(ma: nat, ea: nat, mb: nat, eb: nat)
    requires
        ma >= 1,
        mb >= 1,
        ma * pow10(eb) <= mb * pow10(ea),
    ensures
        ({
            let (m1a, e1a, ua) = spec_norm_up(ma, ea);
            let (m2a, e2a, da) = spec_norm_down(m1a, e1a);
            let (m1b, e1b, ub) = spec_norm_up(mb, eb);
            let (m2b, e2b, db) = spec_norm_down(m1b, e1b);
            m2a * pow10((e2b + ub + da) as nat) <= m2b * pow10((e2a + ua + db) as nat)
        }),
{
    lemma_norm_rel(ma, ea);
    lemma_norm_rel(mb, eb);
    let (m1a, e1a, ua) = spec_norm_up(ma, ea);
    let (m2a, e2a, da) = spec_norm_down(m1a, e1a);
    let (m1b, e1b, ub) = spec_norm_up(mb, eb);
    let (m2b, e2b, db) = spec_norm_down(m1b, e1b);
    // scale the input ordering so both normalization relations apply
    lemma_le_scale_pow(ma * pow10(eb), mb * pow10(ea), (e2a + ua + e2b + ub) as nat);
    lemma_pow10_adds((e2a + ua) as nat, (e2b + ub) as nat);
    lemma_pow10_adds(eb, (e2b + ub) as nat);
    lemma_pow10_adds(ea, (e2a + ua) as nat);
    assert((ma * pow10(eb)) * pow10((e2a + ua + e2b + ub) as nat) == (ma * pow10(
        (e2a + ua) as nat,
    )) * pow10((eb + e2b + ub) as nat)) by (nonlinear_arith)
        requires
            pow10((e2a + ua + e2b + ub) as nat) == pow10((e2a + ua) as nat) * pow10(
                (e2b + ub) as nat,
            ),
            pow10((eb + e2b + ub) as nat) == pow10(eb) * pow10((e2b + ub) as nat),
    ;
    assert((mb * pow10(ea)) * pow10((e2a + ua + e2b + ub) as nat) == (mb * pow10(
        (e2b + ub) as nat,
    )) * pow10((ea + e2a + ua) as nat)) by (nonlinear_arith)
        requires
            pow10((e2a + ua + e2b + ub) as nat) == pow10((e2a + ua) as nat) * pow10(
                (e2b + ub) as nat,
            ),
            pow10((ea + e2a + ua) as nat) == pow10(ea) * pow10((e2a + ua) as nat),
    ;
    // substitute the two normalization relations
    assert((m2a * pow10((ea + da) as nat)) * pow10((eb + e2b + ub) as nat) <= (m2b * pow10(
        (eb + db) as nat,
    )) * pow10((ea + e2a + ua) as nat));
    // pull the shared input exponents out and cancel them
    lemma_pow10_adds(ea, da);
    lemma_pow10_adds(eb, (e2b + ub) as nat);
    lemma_pow10_adds(eb, db);
    lemma_pow10_adds(ea, (e2a + ua) as nat);
    lemma_pow10_adds((e2b + ub + da) as nat, (ea + eb) as nat);
    lemma_pow10_adds((e2a + ua + db) as nat, (ea + eb) as nat);
    lemma_pow10_adds((e2b + ub) as nat, da);
    lemma_pow10_adds((e2a + ua) as nat, db);
    lemma_pow10_adds(ea, eb);
    assert((m2a * pow10((ea + da) as nat)) * pow10((eb + e2b + ub) as nat) == (m2a * pow10(
        (e2b + ub + da) as nat,
    )) * pow10((ea + eb) as nat)) by (nonlinear_arith)
        requires
            pow10((ea + da) as nat) == pow10(ea) * pow10(da),
            pow10((eb + e2b + ub) as nat) == pow10(eb) * pow10((e2b + ub) as nat),
            pow10((e2b + ub + da) as nat) == pow10((e2b + ub) as nat) * pow10(da),
            pow10((ea + eb) as nat) == pow10(ea) * pow10(eb),
    ;
    assert((m2b * pow10((eb + db) as nat)) * pow10((ea + e2a + ua) as nat) == (m2b * pow10(
        (e2a + ua + db) as nat,
    )) * pow10((ea + eb) as nat)) by (nonlinear_arith)
        requires
            pow10((eb + db) as nat) == pow10(eb) * pow10(db),
            pow10((ea + e2a + ua) as nat) == pow10(ea) * pow10((e2a + ua) as nat),
            pow10((e2a + ua + db) as nat) == pow10((e2a + ua) as nat) * pow10(db),
            pow10((ea + eb) as nat) == pow10(ea) * pow10(eb),
    ;
    lemma_le_cancel_pow(
        m2a * pow10((e2b + ub + da) as nat),
        m2b * pow10((e2a + ua + db) as nat),
        (ea + eb) as nat,
    );
}

/// The ceiling before its final rounding, as a fraction: the ladder
/// pick carried back across the net normalization scaling.
pub open spec fn spec_w(lad: nat, u: nat, d: nat) -> (nat, nat) {
    if u >= d {
        (lad, (u - d) as nat)
    } else {
        ((lad * pow10((d - u) as nat)) as nat, 0)
    }
}

/// The final step of the ceiling: canonicalize, and round a value above
/// one to a whole number.
pub open spec fn spec_finish(n: nat, e: nat) -> (nat, nat) {
    let (sn, se) = spec_strip(n, e);
    if sn > pow10(se) {
        (spec_round_half_up(sn, pow10(se)), 0)
    } else {
        (sn, se)
    }
}

/// Helper: the ceiling is the final step applied to the scaled-back
/// ladder pick.
proof fn lemma_parts_via_w(m: nat, e: nat)
    requires
        m >= 1,
    ensures
        ({
            let (m1, e1, u) = spec_norm_up(m, e);
            let (m2, e2, d) = spec_norm_down(m1, e1);
            let lad = spec_ladder(spec_round_half_up(m2, pow10(e2)));
            let (wn, we) = spec_w(lad, u, d);
            spec_nice_parts(m, e) == spec_finish(wn, we)
        }),
{
    let (m1, e1, u) = spec_norm_up(m, e);
    let (m2, e2, d) = spec_norm_down(m1, e1);
    let lad = spec_ladder(spec_round_half_up(m2, pow10(e2)));
    lemma_pow10_table();
    if u >= d {
    } else {
        let j = (d - u) as nat;
        lemma_pow10_pos(j);
        lemma_pow10_le(1, j);
        assert(lad * pow10(j) >= 100 * 10) by (nonlinear_arith)
            requires
                lad >= 100,
                pow10(j) >= 10,
        ;
        let wn = (lad * pow10(j)) as nat;
        assert(spec_strip(wn, 0) == (wn, 0nat));
        assert(spec_round_half_up(wn, pow10(0)) == wn);
    }
}

/// Helper: canonicalizing two ordered fractions keeps them ordered.
proof fn lemma_strip_le(an: nat, ae: nat, bn: nat, be: nat)
    requires
        an >= 1,
        bn >= 1,
        an * pow10(be) <= bn * pow10(ae),
    ensures
        ({
            let (sa, sae) = spec_strip(an, ae);
            let (sb, sbe) = spec_strip(bn, be);
            sa * pow10(sbe) <= sb * pow10(sae)
        }),
{
    lemma_strip_keeps_value(an, ae);
    lemma_strip_keeps_value(bn, be);
    let (sa, sae) = spec_strip(an, ae);
    let (sb, sbe) = spec_strip(bn, be);
    lemma_le_scale_pow(an * pow10(be), bn * pow10(ae), (sae + sbe) as nat);
    lemma_pow10_adds(sae, sbe);
    lemma_pow10_adds(ae, be);
    assert((an * pow10(be)) * pow10((sae + sbe) as nat) == ((an * pow10(sae)) * pow10(sbe))
        * pow10(be)) by (nonlinear_arith)
        requires
            pow10((sae + sbe) as nat) == pow10(sae) * pow10(sbe),
    ;
    assert(((an * pow10(sae)) * pow10(sbe)) * pow10(be) == ((sa * pow10(ae)) * pow10(sbe)) * pow10(
        be,
    )) by (nonlinear_arith)
        requires
            an * pow10(sae) == sa * pow10(ae),
    ;
    assert(((sa * pow10(ae)) * pow10(sbe)) * pow10(be) == (sa * pow10(sbe)) * pow10(
        (ae + be) as nat,
    )) by (nonlinear_arith)
        requires
            pow10((ae + be) as nat) == pow10(ae) * pow10(be),
    ;
    assert((bn * pow10(ae)) * pow10((sae + sbe) as nat) == ((bn * pow10(sbe)) * pow10(sae))
        * pow10(ae)) by (nonlinear_arith)
        requires
            pow10((sae + sbe) as nat) == pow10(sae) * pow10(sbe),
    ;
    assert(((bn * pow10(sbe)) * pow10(sae)) * pow10(ae) == ((sb * pow10(be)) * pow10(sae)) * pow10(
        ae,
    )) by (nonlinear_arith)
        requires
            bn * pow10(sbe) == sb * pow10(be),
    ;
    assert(((sb * pow10(be)) * pow10(sae)) * pow10(ae) == (sb * pow10(sae)) * pow10(
        (ae + be) as nat,
    )) by (nonlinear_arith)
        requires
            pow10((ae + be) as nat) == pow10(ae) * pow10(be),
    ;
    lemma_le_cancel_pow(sa * pow10(sbe), sb * pow10(sae), (ae + be) as nat);
}

/// Helper: the final step keeps two ordered fractions ordered.
proof fn lemma_finish_monotone(an: nat, ae: nat, bn: nat, be: nat)
    requires
        an >= 1,
        bn >= 1,
        an * pow10(be) <= bn * pow10(ae),
    ensures
        ({
            let (ra, rae) = spec_finish(an, ae);
            let (rb, rbe) = spec_finish(bn, be);
            ra * pow10(rbe) <= rb * pow10(rae)
        }),
{
    lemma_pow10_table();
    lemma_strip_le(an, ae, bn, be);
    lemma_strip_keeps_value(an, ae);
    lemma_strip_keeps_value(bn, be);
    let (sa, sae) = spec_strip(an, ae);
    let (sb, sbe) = spec_strip(bn, be);
    lemma_pow10_pos(sae);
    lemma_pow10_pos(sbe);
    if sa > pow10(sae) && sb > pow10(sbe) {
        lemma_round_monotone(sa, sae, sb, sbe);
        crate::scale::lemma_round_le(sa, pow10(sae));
        crate::scale::lemma_round_le(sb, pow10(sbe));
    } else if sa > pow10(sae) {
        // impossible: a above one yet at most b, which is at most one
        assert(sa * pow10(sbe) <= sb * pow10(sae));
        assert(sb * pow10(sae) <= pow10(sbe) * pow10(sae)) by (nonlinear_arith)
            requires
                sb <= pow10(sbe),
                pow10(sae) >= 0,
        ;
        assert(sa <= pow10(sae)) by (nonlinear_arith)
            requires
                sa * pow10(sbe) <= pow10(sbe) * pow10(sae),
                pow10(sbe) > 0,
        ;
    } else if sb > pow10(sbe) {
        // a stays a fraction at most one; b rounds to a whole number
        crate::scale::lemma_round_le(sb, pow10(sbe));
        let rb = spec_round_half_up(sb, pow10(sbe));
        assert(sa * pow10(0) <= rb * pow10(sae)) by (nonlinear_arith)
            requires
                sa <= pow10(sae),
                rb >= 1,
                pow10(0) == 1,
                pow10(sae) > 0,
        ;
    } else {
    }
}

/// Helper: ordering survives normalization, rounding and the ladder:
/// the scaled-back ladder picks are ordered like the inputs.
proof fn lemma_w_monotone(ma: nat, ea: nat, mb: nat, eb: nat)
    requires
        ma >= 1,
        mb >= 1,
        ma * pow10(eb) <= mb * pow10(ea),
    ensures
        ({
            let (m1a, e1a, ua) = spec_norm_up(ma, ea);
            let (m2a, e2a, da) = spec_norm_down(m1a, e1a);
            let (m1b, e1b, ub) = spec_norm_up(mb, eb);
            let (m2b, e2b, db) = spec_norm_down(m1b, e1b);
            let la = spec_ladder(spec_round_half_up(m2a, pow10(e2a)));
            let lb = spec_ladder(spec_round_half_up(m2b, pow10(e2b)));
            let (wan, wae) = spec_w(la, ua, da);
            let (wbn, wbe) = spec_w(lb, ub, db);
            wan * pow10(wbe) <= wbn * pow10(wae)
        }),
{
    lemma_cross_scale(ma, ea, mb, eb);
    lemma_norm_rel(ma, ea);
    lemma_norm_rel(mb, eb);
    lemma_pow10_table();
    let (m1a, e1a, ua) = spec_norm_up(ma, ea);
    let (m2a, e2a, da) = spec_norm_down(m1a, e1a);
    let (m1b, e1b, ub) = spec_norm_up(mb, eb);
    let (m2b, e2b, db) = spec_norm_down(m1b, e1b);
    let la = spec_ladder(spec_round_half_up(m2a, pow10(e2a)));
    let lb = spec_ladder(spec_round_half_up(m2b, pow10(e2b)));
    let alpha = (ua + db) as nat;
    let beta = (ub + da) as nat;
    let (wan, wae) = spec_w(la, ua, da);
    let (wbn, wbe) = spec_w(lb, ub, db);
    assert(100 <= la <= 1000);
    assert(100 <= lb <= 1000);
    lemma_pow10_adds(e2b, beta);
    lemma_pow10_adds(e2a, alpha);
    if beta > alpha {
        // impossible: the smaller value cannot sit at a larger scale
        lemma_pow10_adds((e2a + e2b + alpha) as nat, (beta - alpha) as nat);
        lemma_pow10_le(1, (beta - alpha) as nat);
        lemma_pow10_pos((e2a + e2b + alpha) as nat);
        lemma_pow10_pos((e2b + beta) as nat);
        lemma_pow10_pos((e2a + alpha) as nat);
        lemma_pow10_adds(e2a, (e2b + beta) as nat);
        lemma_pow10_adds(e2b, (e2a + alpha) as nat);
        lemma_pow10_adds((e2a + alpha) as nat, e2b);
        lemma_pow10_adds(e2a, e2b);
        lemma_pow10_adds((e2a + e2b) as nat, beta);
        lemma_pow10_adds((e2a + e2b) as nat, alpha);
        assert(m2a * pow10((e2b + beta) as nat) >= (100 * pow10(e2a)) * pow10(
            (e2b + beta) as nat,
        )) by (nonlinear_arith)
            requires
                m2a >= 100 * pow10(e2a),
                pow10((e2b + beta) as nat) >= 0,
        ;
        assert((100 * pow10(e2a)) * pow10((e2b + beta) as nat) == 100 * (pow10(
            (e2a + e2b + alpha) as nat,
        ) * pow10((beta - alpha) as nat))) by (nonlinear_arith)
            requires
                pow10((e2b + beta) as nat) == pow10(e2b) * pow10(beta),
                pow10((e2a + e2b + alpha) as nat) * pow10((beta - alpha) as nat) == pow10(
                    (e2a + e2b + beta) as nat,
                ),
                pow10((e2a + e2b + beta) as nat) == pow10(e2a) * (pow10(e2b) * pow10(beta)),
        ;
        assert(100 * (pow10((e2a + e2b + alpha) as nat) * pow10((beta - alpha) as nat)) >= 1000
            * pow10((e2a + e2b + alpha) as nat)) by (nonlinear_arith)
            requires
                pow10((beta - alpha) as nat) >= 10,
                pow10((e2a + e2b + alpha) as nat) > 0,
        ;
        assert(m2b * pow10((e2a + alpha) as nat) < (1000 * pow10(e2b)) * pow10(
            (e2a + alpha) as nat,
        )) by (nonlinear_arith)
            requires
                m2b < 1000 * pow10(e2b),
                pow10((e2a + alpha) as nat) > 0,
        ;
        assert((1000 * pow10(e2b)) * pow10((e2a + alpha) as nat) == 1000 * pow10(
            (e2a + e2b + alpha) as nat,
        )) by (nonlinear_arith)
            requires
                pow10((e2a + alpha) as nat) == pow10(e2a) * pow10(alpha),
                pow10((e2a + e2b + alpha) as nat) == pow10(e2b) * (pow10(e2a) * pow10(alpha)),
        ;
        assert(false);
    } else if beta == alpha {
        // same scale: the normalized values, hence the ladder picks,
        // are ordered
        assert((m2a * pow10(e2b)) * pow10(beta) == m2a * pow10((e2b + beta) as nat))
            by (nonlinear_arith)
            requires
                pow10((e2b + beta) as nat) == pow10(e2b) * pow10(beta),
        ;
        assert((m2b * pow10(e2a)) * pow10(alpha) == m2b * pow10((e2a + alpha) as nat))
            by (nonlinear_arith)
            requires
                pow10((e2a + alpha) as nat) == pow10(e2a) * pow10(alpha),
        ;
        lemma_le_cancel_pow(m2a * pow10(e2b), m2b * pow10(e2a), beta);
        lemma_round_monotone(m2a, e2a, m2b, e2b);
        lemma_ladder_monotone(
            spec_round_half_up(m2a, pow10(e2a)),
            spec_round_half_up(m2b, pow10(e2b)),
        );
        if ua >= da {
            let k = (ua - da) as nat;
            assert((ub - db) as nat == k);
            lemma_le_scale_pow(la as int, lb as int, k);
            assert(wan * pow10(wbe) <= wbn * pow10(wae));
        } else {
            let j = (da - ua) as nat;
            assert(db > ub && (db - ub) as nat == j);
            lemma_le_scale_pow(la as int, lb as int, j);
            lemma_pow10_pos(j);
            assert(la * pow10(j) >= 0 && lb * pow10(j) >= 0) by (nonlinear_arith)
                requires
                    pow10(j) >= 0,
                    la >= 0,
                    lb >= 0,
            ;
            assert(((la * pow10(j)) as nat) * pow10(0) <= ((lb * pow10(j)) as nat) * pow10(0))
                by (nonlinear_arith)
                requires
                    la * pow10(j) <= lb * pow10(j),
                    la * pow10(j) >= 0,
                    lb * pow10(j) >= 0,
                    pow10(0) == 1,
            ;
            assert(wan * pow10(wbe) <= wbn * pow10(wae));
        }
    } else {
        // the larger value sits at a strictly larger scale: a whole
        // band separates the two scaled-back picks
        let t = (alpha - beta) as nat;
        lemma_pow10_le(1, t);
        if ua >= da && ub >= db {
            let ka = (ua - da) as nat;
            let kb = (ub - db) as nat;
            assert(ka == kb + t);
            lemma_pow10_adds(kb, 1);
            lemma_pow10_le((kb + 1) as nat, ka);
            lemma_pow10_pos(kb);
            lemma_pow10_pos(ka);
            lemma_pow10_pos((kb + 1) as nat);
            assert(la * pow10(kb) <= 1000 * pow10(kb)) by (nonlinear_arith)
                requires
                    la <= 1000,
                    pow10(kb) >= 0,
            ;
            assert(1000 * pow10(kb) == 100 * pow10((kb + 1) as nat)) by (nonlinear_arith)
                requires
                    pow10((kb + 1) as nat) == pow10(kb) * 10,
            ;
            assert(100 * pow10((kb + 1) as nat) <= lb * pow10(ka)) by (nonlinear_arith)
                requires
                    pow10((kb + 1) as nat) <= pow10(ka),
                    lb >= 100,
                    pow10(ka) >= 0,
                    pow10((kb + 1) as nat) >= 0,
            ;
        } else if ua >= da && ub < db {
            let ka = (ua - da) as nat;
            let jb = (db - ub) as nat;
            lemma_pow10_le(1, jb);
            lemma_pow10_pos(ka);
            assert(lb * pow10(jb) >= 0) by (nonlinear_arith)
                requires
                    pow10(jb) >= 0,
                    lb >= 0,
            ;
            assert(la * pow10(0) <= ((lb * pow10(jb)) as nat) * pow10(ka)) by (nonlinear_arith)
                requires
                    la <= 1000,
                    lb >= 100,
                    pow10(jb) >= 10,
                    pow10(ka) >= 1,
                    pow10(0) == 1,
                    (lb * pow10(jb)) as nat == lb * pow10(jb),
            ;
        } else if ua < da && ub < db {
            let ja = (da - ua) as nat;
            let jb = (db - ub) as nat;
            assert(jb == ja + t);
            lemma_pow10_adds(ja, 1);
            lemma_pow10_le((ja + 1) as nat, jb);
            lemma_pow10_pos(ja);
            lemma_pow10_pos(jb);
            lemma_pow10_pos((ja + 1) as nat);
            assert(la * pow10(ja) <= 1000 * pow10(ja)) by (nonlinear_arith)
                requires
                    la <= 1000,
                    pow10(ja) >= 0,
            ;
            assert(1000 * pow10(ja) == 100 * pow10((ja + 1) as nat)) by (nonlinear_arith)
                requires
                    pow10((ja + 1) as nat) == pow10(ja) * 10,
            ;
            assert(100 * pow10((ja + 1) as nat) <= lb * pow10(jb)) by (nonlinear_arith)
                requires
                    pow10((ja + 1) as nat) <= pow10(jb),
                    lb >= 100,
                    pow10(jb) >= 0,
                    pow10((ja + 1) as nat) >= 0,
            ;
            assert(la * pow10(ja) >= 0 && lb * pow10(jb) >= 0) by (nonlinear_arith)
                requires
                    pow10(ja) >= 0,
                    pow10(jb) >= 0,
                    la >= 0,
                    lb >= 0,
            ;
            assert(((la * pow10(ja)) as nat) * pow10(0) <= ((lb * pow10(jb)) as nat) * pow10(0))
                by (nonlinear_arith)
                requires
                    la * pow10(ja) <= lb * pow10(jb),
                    la * pow10(ja) >= 0,
                    lb * pow10(jb) >= 0,
                    pow10(0) == 1,
            ;
        } else {
            // a scaled down while b scaled up would order the scales
            // the other way
            assert(false);
        }
    }
}

/// The nice ceiling never reorders two positive values: the scale is
/// monotone.
pub proof fn lemma_nice_max_monotone(a: Dec, b: Dec)
    requires
        a.wf(),
        b.wf(),
        a.is_pos(),
        b.is_pos(),
        crate::num::dec_le(a, b),
    ensures
        ({
            let (am, ae) = spec_nice_parts(a.m as nat, a.e as nat);
            let (bm, be) = spec_nice_parts(b.m as nat, b.e as nat);
            am * pow10(be) <= bm * pow10(ae)
        }),
{
    assert(a.m * pow10(b.e as nat) <= b.m * pow10(a.e as nat)) by (nonlinear_arith)
        requires
            sgn(a) * a.m * pow10(b.e as nat) <= sgn(b) * b.m * pow10(a.e as nat),
            sgn(a) == 1,
            sgn(b) == 1,
    ;
    lemma_w_monotone(a.m as nat, a.e as nat, b.m as nat, b.e as nat);
    lemma_parts_via_w(a.m as nat, a.e as nat);
    lemma_parts_via_w(b.m as nat, b.e as nat);
    let (m1a, e1a, ua) = spec_norm_up(a.m as nat, a.e as nat);
    let (m2a, e2a, da) = spec_norm_down(m1a, e1a);
    let (m1b, e1b, ub) = spec_norm_up(b.m as nat, b.e as nat);
    let (m2b, e2b, db) = spec_norm_down(m1b, e1b);
    let la = spec_ladder(spec_round_half_up(m2a, pow10(e2a)));
    let lb = spec_ladder(spec_round_half_up(m2b, pow10(e2b)));
    let (wan, wae) = spec_w(la, ua, da);
    let (wbn, wbe) = spec_w(lb, ub, db);
    lemma_pow10_table();
    lemma_pow10_pos((da - ua) as nat);
    lemma_pow10_pos((db - ub) as nat);
    assert(wan >= 1 && wbn >= 1) by (nonlinear_arith)
        requires
            la >= 100,
            lb >= 100,
            wan == la || wan == (la * pow10((da - ua) as nat)) as nat,
            wbn == lb || wbn == (lb * pow10((db - ub) as nat)) as nat,
            pow10((da - ua) as nat) >= 1,
            pow10((db - ub) as nat) >= 1,
    ;
    lemma_finish_monotone(wan, wae, wbn, wbe);
}

} // verus!
