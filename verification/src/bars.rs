//! The bars block: axis scale, tick placement, bar geometry and
//! numeric annotations.
//!
//! The measure pass turns a chart description, the font metrics and the
//! measured label boxes into ticks and bars with exact pixel geometry.
//! Every computed quantity is pinned by a model function, so the
//! contracts state the whole layout.

use crate::boxes::{copy_vec, spec_tick_count, ChartBoxes};
use crate::cmd::{cmds_view, lemma_cmds_view_push, owned_str, CmdView, DrawCmd};
use crate::config::{Config, Error, Item};
use crate::font::{spec_font_height, FontMetrics};
use crate::geom::{spec_sat_sub, Layout, Margins, Rect};
use crate::num::{dec_lt, Dec};
use crate::scale::{
    calc_max_value, ceiling_ok, gen_ticks_list, scale_pos, spec_nice_parts, spec_scale_pos,
};
use crate::text::{dec_to_string, spec_dec_chars};
use vstd::prelude::*;
use vstd::string::StringExecFns;

verus! {

/// One labeled reference point on the value axis.
#[derive(Clone, Debug, PartialEq, Eq)]
pub struct Tick {
    pub pos: u32,
    pub value: Dec,
    pub title: String,
    pub bbox: Rect,
}

/// One bar with its printed value and where that text goes.
#[derive(Clone, Debug, PartialEq, Eq)]
pub struct Bar {
    pub r: Rect,
    pub annotation: String,
    pub annotation_bbox: Rect,
}

/// The bars block and everything its measure pass computed.
#[derive(Clone, Debug, PartialEq, Eq)]
pub struct BarsLayout {
    pub lay: Layout,
    pub max_value: Dec,
    pub item_height: u32,
    pub bars: Vec<Bar>,
    pub ticks: Vec<Tick>,
}

/// The suffix appended to every printed tick number.
pub open spec fn spec_suffix(c: Config) -> Seq<char> {
    match c.hor_axis {
        Some(ha) => match ha.suffix {
            Some(s) => s@,
            None => Seq::empty(),
        },
        None => Seq::empty(),
    }
}

/// Some item value is negative.
pub open spec fn spec_has_negative(items: Seq<Item>) -> bool {
    exists|i: int| 0 <= i < items.len() && (#[trigger] items[i]).value.neg
}

/// The largest value among the first `n` items, keeping the earlier one
/// on ties.
pub open spec fn spec_max_item(items: Seq<Item>, n: int) -> Dec
    decreases n,
{
    if n <= 1 {
        items[0].value
    } else {
        let p = spec_max_item(items, n - 1);
        if dec_lt(p, items[n - 1].value) {
            items[n - 1].value
        } else {
            p
        }
    }
}

/// The nice ceiling computed from the items.
pub open spec fn spec_auto_ceiling(c: Config) -> Dec {
    let mv = spec_max_item(c.items@, c.items@.len() as int);
    let (pm, pe) = spec_nice_parts(mv.m as nat, mv.e as nat);
    Dec { neg: false, m: pm as u64, e: pe as u32 }
}

/// The axis ceiling: the configured override, or the nice ceiling.
pub open spec fn spec_ceiling(c: Config) -> Dec {
    match c.hor_axis {
        Some(ha) => match ha.max_value {
            Some(mv) => mv,
            None => spec_auto_ceiling(c),
        },
        None => spec_auto_ceiling(c),
    }
}

/// What makes the description itself unusable: no items, a negative
/// value, or a ceiling that is not positive.
pub open spec fn spec_input_error(c: Config) -> Option<Error> {
    if c.items@.len() == 0 {
        Some(Error::ItemsIsNotSet)
    } else if spec_has_negative(c.items@) {
        Some(Error::VelueMustBePositive)
    } else {
        let src = match c.hor_axis {
            Some(ha) => match ha.max_value {
                Some(mv) => mv,
                None => spec_max_item(c.items@, c.items@.len() as int),
            },
            None => spec_max_item(c.items@, c.items@.len() as int),
        };
        if !src.is_pos() {
            Some(Error::ZeroMaxValue)
        } else {
            None
        }
    }
}

/// The bar height: the font height with a fifth of padding above and
/// below.
pub open spec fn spec_item_height(fm: FontMetrics) -> nat {
    spec_font_height(fm.size as nat) * 7 / 5
}

/// The plot height before margins: a bar per item with half-height gaps
/// above, below and between.
pub open spec fn spec_base_height(c: Config, fm: FontMetrics) -> nat {
    let n = c.items@.len();
    let ih = spec_item_height(fm);
    (n * ih + (n + 1) * (ih / 2)) as nat
}

/// The tick values: an explicit list verbatim, or five generated ones.
pub open spec fn spec_tick_values(c: Config) -> Seq<Dec> {
    match c.hor_axis {
        Some(ha) => match ha.ticks {
            Some(ts) => ts@,
            None => crate::scale::spec_gen_ticks(spec_ceiling(c)),
        },
        None => crate::scale::spec_gen_ticks(spec_ceiling(c)),
    }
}

/// The widest width among the first `n` label boxes.
pub open spec fn spec_fold_max_w(s: Seq<Rect>, n: int) -> nat
    decreases n,
{
    if n <= 0 {
        0
    } else {
        let p = spec_fold_max_w(s, n - 1);
        if s[n - 1].w > p {
            s[n - 1].w as nat
        } else {
            p
        }
    }
}

/// The widest tick label, the ceiling label included.
pub open spec fn spec_max_text_w(boxes: ChartBoxes) -> nat {
    let f = spec_fold_max_w(boxes.tick_boxes@, boxes.tick_boxes@.len() as int);
    if boxes.max_box.w > f {
        boxes.max_box.w as nat
    } else {
        f
    }
}

/// The plot width: the configured override, or room for every tick
/// label with the spacing factor of three.
pub open spec fn spec_plot_w(c: Config, boxes: ChartBoxes) -> nat {
    let auto = spec_max_text_w(boxes) * (spec_tick_count(c) * 3);
    match c.hor_axis {
        Some(ha) => match ha.width {
            Some(w) => w as nat,
            None => auto,
        },
        None => auto,
    }
}

/// The margins reserved for the axis labels.
pub open spec fn spec_margins(fm: FontMetrics, boxes: ChartBoxes) -> Margins {
    Margins {
        left: (boxes.zero_box.w / 2) as u32,
        top: (fm.full_height / 2) as u32,
        right: (spec_max_text_w(boxes) / 2) as u32,
        bottom: fm.full_height,
    }
}

/// Everything the measure pass can reject, in the order it checks.
pub open spec fn spec_bars_error(c: Config, fm: FontMetrics, boxes: ChartBoxes) -> Option<Error> {
    match spec_input_error(c) {
        Some(e) => Some(e),
        None => {
            let m = spec_margins(fm, boxes);
            if spec_plot_w(c, boxes) < m.left + m.right {
                Some(Error::PlotTooNarrow)
            } else {
                None
            }
        },
    }
}

/// The width of the drawable area between the margins.
pub open spec fn spec_drawable_w(c: Config, fm: FontMetrics, boxes: ChartBoxes) -> nat {
    let m = spec_margins(fm, boxes);
    (spec_plot_w(c, boxes) - m.left - m.right) as nat
}

/// The block height: the plot plus the vertical margins.
pub open spec fn spec_lay_height(c: Config, fm: FontMetrics, boxes: ChartBoxes) -> nat {
    (spec_base_height(c, fm) + (fm.full_height / 2) + fm.full_height) as nat
}

/// The pixel position of tick `i` within the block.
pub open spec fn spec_tick_pos(c: Config, fm: FontMetrics, boxes: ChartBoxes, i: int) -> nat {
    ((boxes.zero_box.w / 2) + spec_scale_pos(
        spec_tick_values(c)[i],
        spec_ceiling(c),
        spec_drawable_w(c, fm, boxes),
    )) as nat
}

/// The inset between a bar edge and its annotation.
pub open spec fn spec_border(fm: FontMetrics) -> nat {
    spec_item_height(fm) / 5
}

/// The length of the handle that joins a bar to an outside annotation.
pub open spec fn spec_handle_w(fm: FontMetrics) -> nat {
    spec_font_height(fm.size as nat) * 3 / 4
}

/// The top edge of bar `i` within the block.
pub open spec fn spec_bar_y(fm: FontMetrics, i: int) -> int {
    let ih = spec_item_height(fm);
    (fm.full_height / 2) + ih / 2 + i * ((3 * ih) / 2)
}

/// The pixel width of bar `i`.
pub open spec fn spec_bar_w(c: Config, fm: FontMetrics, boxes: ChartBoxes, i: int) -> nat {
    spec_scale_pos(c.items@[i].value, spec_ceiling(c), spec_drawable_w(c, fm, boxes))
}

/// The rectangle of bar `i`.
pub open spec fn spec_bar_rect(c: Config, fm: FontMetrics, boxes: ChartBoxes, i: int) -> Rect {
    Rect {
        x: (boxes.zero_box.w / 2) as i32,
        y: spec_bar_y(fm, i) as i32,
        w: spec_bar_w(c, fm, boxes, i) as u32,
        h: spec_item_height(fm) as u32,
    }
}

/// Where the annotation of bar `i` goes: right-aligned inside the bar
/// when it fits with its inset on both sides, else to the right of the
/// bar past the handle.
pub open spec fn spec_ann_bbox(c: Config, fm: FontMetrics, boxes: ChartBoxes, i: int) -> Rect {
    let tw = boxes.annotation_boxes@[i].w as nat;
    let th = boxes.annotation_boxes@[i].h as nat;
    let bw = spec_bar_w(c, fm, boxes, i);
    let border = spec_border(fm);
    let left = (boxes.zero_box.w / 2) as nat;
    let ty = spec_bar_y(fm, i) + th + border;
    if tw + 2 * border < bw {
        Rect {
            x: (left + bw - tw - border) as i32,
            y: ty as i32,
            w: tw as u32,
            h: th as u32,
        }
    } else {
        Rect {
            x: (left + bw + spec_handle_w(fm) + 2) as i32,
            y: ty as i32,
            w: tw as u32,
            h: th as u32,
        }
    }
}

impl BarsLayout {
    /// An unmeasured bars block.
    pub fn new() -> (r: BarsLayout)
        ensures
            r.lay == (Layout {
                size: crate::geom::Size { w: 0, h: 0 },
                margins: Margins { left: 0, top: 0, right: 0, bottom: 0 },
                debug: false,
            }),
            r.max_value == (Dec { neg: false, m: 0, e: 0 }),
            r.item_height == 0,
            r.bars@.len() == 0,
            r.ticks@.len() == 0,
    {
        BarsLayout {
            lay: Layout {
                size: crate::geom::Size { w: 0, h: 0 },
                margins: Margins { left: 0, top: 0, right: 0, bottom: 0 },
                debug: false,
            },
            max_value: Dec { neg: false, m: 0, e: 0 },
            item_height: 0,
            bars: Vec::new(),
            ticks: Vec::new(),
        }
    }

    /// The measure pass computed exactly what the model says.
    pub open spec fn measured(self, c: Config, fm: FontMetrics, boxes: ChartBoxes) -> bool {
        &&& self.max_value == spec_ceiling(c)
        &&& self.item_height == spec_item_height(fm)
        &&& self.lay.size.w == spec_plot_w(c, boxes)
        &&& self.lay.size.h == spec_lay_height(c, fm, boxes)
        &&& self.lay.margins == spec_margins(fm, boxes)
        &&& self.ticks@.len() == spec_tick_count(c)
        &&& forall|i: int|
            0 <= i < self.ticks@.len() ==> {
                let t = #[trigger] self.ticks@[i];
                &&& t.value == spec_tick_values(c)[i]
                &&& t.pos == spec_tick_pos(c, fm, boxes, i)
                &&& t.title@ == spec_dec_chars(spec_tick_values(c)[i]) + spec_suffix(c)
                &&& t.bbox == boxes.tick_boxes@[i]
            }
        &&& self.bars@.len() == c.items@.len()
        &&& forall|i: int|
            0 <= i < self.bars@.len() ==> {
                let b = #[trigger] self.bars@[i];
                &&& b.r == spec_bar_rect(c, fm, boxes, i)
                &&& b.annotation@ == spec_dec_chars(c.items@[i].value)
                &&& b.annotation_bbox == spec_ann_bbox(c, fm, boxes, i)
            }
    }

    /// The bounds the render pass needs so that no coordinate sum can
    /// leave the 32-bit range, and the annotation placement is
    /// two-sided: clearly inside the bar or clearly past its edge.
    pub open spec fn draw_ready(self, n_items: nat) -> bool {
        &&& self.bars@.len() == n_items
        &&& self.lay.margins.left <= 0x8000
        &&& self.lay.margins.right <= 0x8000
        &&& self.lay.margins.top <= 0x8000
        &&& self.lay.margins.bottom <= 0x10000
        &&& self.lay.margins.left + self.lay.margins.right <= self.lay.size.w
        &&& self.lay.margins.top + self.lay.margins.bottom <= self.lay.size.h
        &&& self.lay.size.w <= 0x4000_0000
        &&& self.lay.size.h <= 0x6000_0000
        &&& 5 <= self.item_height <= 477
        &&& forall|i: int|
            0 <= i < self.ticks@.len() ==> {
                let t = #[trigger] self.ticks@[i];
                &&& t.pos <= 0x4000_8000
                &&& t.bbox.w <= 0xFFFF
                &&& t.bbox.h <= 0xFFFF
            }
        &&& forall|i: int|
            0 <= i < self.bars@.len() ==> {
                let b = #[trigger] self.bars@[i];
                &&& 0 <= b.r.x <= 0x8000
                &&& 0 <= b.r.y <= 0x6000_0000
                &&& b.r.w <= 0x4000_0000
                &&& b.r.h <= 477
                &&& 0 <= b.annotation_bbox.x <= 0x4200_0000
                &&& 0 <= b.annotation_bbox.y <= 0x6100_0000
                &&& b.annotation_bbox.w <= 0xFFFF
                &&& b.annotation_bbox.h <= 0xFFFF
                &&& (b.r.x + b.r.w > b.annotation_bbox.x + b.annotation_bbox.w
                    || b.annotation_bbox.x >= b.r.x + b.r.w + 2)
            }
    }

}

/// The axis scale of a chart: the ceiling and the tick values, or the
/// reason the description is unusable.
pub fn compute_scale(c: &Config) -> (r: Result<(Dec, Vec<Dec>), Error>)
    requires
        c.wf(),
    ensures
        match r {
            Err(e) => Some(e) == spec_input_error(*c),
            Ok((ceiling, values)) => {
                &&& spec_input_error(*c) is None
                &&& ceiling == spec_ceiling(*c)
                &&& ceiling_ok(ceiling)
                &&& values@ == spec_tick_values(*c)
                &&& values@.len() == spec_tick_count(*c)
                &&& forall|i: int| 0 <= i < values@.len() ==> (#[trigger] values@[i]).wf()
            },
        },
{
    let n: usize = c.items.len();
    if n == 0 {
        return Err(Error::ItemsIsNotSet);
    }
    // reject negative values before any geometry
    let mut i: usize = 0;
    while i < n
        invariant
            n == c.items@.len(),
            i <= n,
            c.wf(),
            forall|j: int| 0 <= j < i ==> !(#[trigger] c.items@[j]).value.neg,
        decreases n - i,
    {
        if c.items[i].value.neg {
            return Err(Error::VelueMustBePositive);
        }
        i = i + 1;
    }
    assert(!spec_has_negative(c.items@));

    // the largest item value
    let mut maxv: Dec = c.items[0].value;
    let mut i: usize = 1;
    while i < n
        invariant
            n == c.items@.len(),
            1 <= i <= n,
            c.wf(),
            n >= 1,
            maxv == spec_max_item(c.items@, i as int),
            maxv.in_range(),
        decreases n - i,
    {
        if maxv.lt(&c.items[i].value) {
            maxv = c.items[i].value;
        }
        i = i + 1;
    }

    // the axis ceiling: override or computed
    let has_override: bool = match &c.hor_axis {
        Some(ha) => ha.max_value.is_some(),
        None => false,
    };
    let ceiling: Dec;
    if has_override {
        let mv: Dec = match &c.hor_axis {
            Some(ha) => match &ha.max_value {
                Some(mv) => *mv,
                None => Dec { neg: false, m: 0, e: 0 },
            },
            None => Dec { neg: false, m: 0, e: 0 },
        };
        if !mv.positive() {
            return Err(Error::ZeroMaxValue);
        }
        ceiling = mv;
    } else {
        if !maxv.positive() {
            return Err(Error::ZeroMaxValue);
        }
        ceiling = calc_max_value(&maxv);
    }
    proof {
        assert(ceiling == spec_ceiling(*c));
        assert(ceiling_ok(ceiling));
    }

    // tick values
    let values: Vec<Dec> = match &c.hor_axis {
        Some(ha) => match &ha.ticks {
            Some(ts) => copy_vec(ts),
            None => gen_ticks_list(&ceiling),
        },
        None => gen_ticks_list(&ceiling),
    };
    proof {
        assert(values@ == spec_tick_values(*c));
        assert(values@.len() == spec_tick_count(*c));
    }
    Ok((ceiling, values))
}

impl BarsLayout {
    /// The measure pass: compute the ceiling, the ticks, the margins and
    /// every bar with its annotation, or report why the input is
    /// unusable.  On an error nothing changes.
    pub fn calc_layout(&mut self, c: &Config, fm: &FontMetrics, boxes: &ChartBoxes) -> (r: Result<
        (),
        Error,
    >)
        requires
            c.wf(),
            fm.wf(),
            boxes.wf(),
            boxes.matches(*c),
        ensures
            match r {
                Ok(()) => {
                    &&& spec_bars_error(*c, *fm, *boxes) is None
                    &&& (*final(self)).measured(*c, *fm, *boxes)
                    &&& (*final(self)).draw_ready(c.items@.len())
                    &&& final(self).lay.debug == old(self).lay.debug
                },
                Err(e) => {
                    &&& Some(e) == spec_bars_error(*c, *fm, *boxes)
                    &&& *final(self) == *old(self)
                },
            },
    {
        let n: usize = c.items.len();
        let scale = match compute_scale(c) {
            Ok(s) => s,
            Err(e) => {
                return Err(e);
            },
        };
        let ceiling: Dec = scale.0;
        let values: Vec<Dec> = scale.1;

        // bar height and plot height
        let ih: u32 = fm.height() * 7 / 5;
        proof {
            assert((n as u64) * (ih as u64) <= 0x20_0000u64 * 477 && (n as u64 + 1) * ((ih
                as u64) / 2) <= (0x20_0000u64 + 1) * 238) by (nonlinear_arith)
                requires
                    n <= 0x20_0000,
                    ih <= 477,
                    (ih as u64) / 2 <= 238,
            ;
        }
        let base_h: u64 = (n as u64) * (ih as u64) + (n as u64 + 1) * ((ih as u64) / 2);
        let count: usize = values.len();

        // tick labels and the widest label
        let suffix: &str = match &c.hor_axis {
            Some(ha) => match &ha.suffix {
                Some(s) => s.as_str(),
                None => "",
            },
            None => "",
        };
        proof {
            reveal_strlit("");
            assert(suffix@ == spec_suffix(*c));
        }

        let mut max_text_w: u32 = 0;
        let mut i: usize = 0;
        while i < count
            invariant
                count == boxes.tick_boxes@.len(),
                i <= count,
                boxes.wf(),
                max_text_w as nat == spec_fold_max_w(boxes.tick_boxes@, i as int),
                max_text_w <= 0xFFFF,
            decreases count - i,
        {
            if boxes.tick_boxes[i].w > max_text_w {
                max_text_w = boxes.tick_boxes[i].w;
            }
            i = i + 1;
        }
        if boxes.max_box.w > max_text_w {
            max_text_w = boxes.max_box.w;
        }
        proof {
            assert(max_text_w as nat == spec_max_text_w(*boxes));
        }

        // plot width: override or labels times the spacing factor
        let width_override: Option<u32> = match &c.hor_axis {
            Some(ha) => ha.width,
            None => None,
        };
        let plot_w: u32 = match width_override {
            Some(w) => w,
            None => {
                proof {
                    assert((max_text_w as u64) * ((count as u64) * 3) <= 0xFFFFu64 * (1024
                        * 3)) by (nonlinear_arith)
                        requires
                            max_text_w <= 0xFFFF,
                            count <= 1024,
                    ;
                }
                let auto: u64 = (max_text_w as u64) * ((count as u64) * 3);
                auto as u32
            },
        };
        proof {
            assert(plot_w as nat == spec_plot_w(*c, *boxes));
        }

        // margins
        let left: u32 = boxes.zero_box.w / 2;
        let top: u32 = fm.full_height / 2;
        let right: u32 = max_text_w / 2;
        let bottom: u32 = fm.full_height;
        if plot_w < left + right {
            return Err(Error::PlotTooNarrow);
        }
        let lay_h: u64 = base_h + (top as u64) + (bottom as u64);
        let dw: u64 = (plot_w - left - right) as u64;
        proof {
            assert(dw == spec_drawable_w(*c, *fm, *boxes));
            assert(lay_h == spec_lay_height(*c, *fm, *boxes));
        }

        // ticks: position each value on the drawable width
        let mut ticks: Vec<Tick> = Vec::new();
        let mut i: usize = 0;
        while i < count
            invariant
                c.wf(),
                fm.wf(),
                boxes.wf(),
                boxes.matches(*c),
                count == values@.len(),
                count == boxes.tick_boxes@.len(),
                i <= count,
                values@ == spec_tick_values(*c),
                ceiling == spec_ceiling(*c),
                ceiling_ok(ceiling),
                left == boxes.zero_box.w / 2,
                left <= 0x8000,
                dw == spec_drawable_w(*c, *fm, *boxes),
                dw <= 0x4000_0000,
                suffix@ == spec_suffix(*c),
                forall|j: int| 0 <= j < count ==> (#[trigger] values@[j]).wf(),
                ticks@.len() == i,
                forall|j: int|
                    0 <= j < i ==> {
                        let t = #[trigger] ticks@[j];
                        &&& t.value == spec_tick_values(*c)[j]
                        &&& t.pos == spec_tick_pos(*c, *fm, *boxes, j)
                        &&& t.pos <= 0x4000_8000
                        &&& t.title@ == spec_dec_chars(spec_tick_values(*c)[j]) + spec_suffix(*c)
                        &&& t.bbox == boxes.tick_boxes@[j]
                    },
            decreases count - i,
        {
            let value: Dec = values[i];
            let mut title: String = dec_to_string(&value);
            title.append(suffix);
            let sp: u64 = scale_pos(&value, &ceiling, dw);
            let pos: u32 = left + (sp as u32);
            let t = Tick { pos, value, title, bbox: boxes.tick_boxes[i] };
            ticks.push(t);
            i = i + 1;
        }

        // bars: geometry and annotation placement
        let border: u32 = ih / 5;
        let handle_w: u32 = fm.height() * 3 / 4;
        let mut bars: Vec<Bar> = Vec::new();
        let mut i: usize = 0;
        while i < n
            invariant
                c.wf(),
                fm.wf(),
                boxes.wf(),
                boxes.matches(*c),
                n == c.items@.len(),
                n <= 0x20_0000,
                i <= n,
                ceiling == spec_ceiling(*c),
                ceiling_ok(ceiling),
                left == boxes.zero_box.w / 2,
                left <= 0x8000,
                top == fm.full_height / 2,
                top <= 0x8000,
                dw == spec_drawable_w(*c, *fm, *boxes),
                dw <= 0x4000_0000,
                ih as nat == spec_item_height(*fm),
                5 <= ih <= 477,
                border as nat == spec_border(*fm),
                1 <= border <= 95,
                handle_w as nat == spec_handle_w(*fm),
                handle_w <= 255,
                forall|j: int| 0 <= j < n ==> !(#[trigger] c.items@[j]).value.neg,
                bars@.len() == i,
                forall|j: int|
                    0 <= j < i ==> {
                        let b = #[trigger] bars@[j];
                        &&& b.r == spec_bar_rect(*c, *fm, *boxes, j)
                        &&& b.annotation@ == spec_dec_chars(c.items@[j].value)
                        &&& b.annotation_bbox == spec_ann_bbox(*c, *fm, *boxes, j)
                        &&& 0 <= b.r.y <= 0x6000_0000
                        &&& b.r.w <= 0x4000_0000
                        &&& 0 <= b.annotation_bbox.x <= 0x4200_0000
                        &&& 0 <= b.annotation_bbox.y <= 0x6100_0000
                        &&& b.annotation_bbox.w <= 0xFFFF
                        &&& b.annotation_bbox.h <= 0xFFFF
                        &&& (b.r.x + b.r.w > b.annotation_bbox.x + b.annotation_bbox.w
                            || b.annotation_bbox.x >= b.r.x + b.r.w + 2)
                    },
            decreases n - i,
        {
            let item_value: Dec = c.items[i].value;
            let w: u64 = scale_pos(&item_value, &ceiling, dw);
            let annotation: String = dec_to_string(&item_value);
            let tb: Rect = boxes.annotation_boxes[i];
            proof {
                assert((i as u64) * ((3 * (ih as u64)) / 2) <= 0x20_0000u64 * 715)
                    by (nonlinear_arith)
                    requires
                        i < 0x20_0000 + 1,
                        (3 * (ih as u64)) / 2 <= 715,
                ;
                assert((i as u64) * ((3 * (ih as u64)) / 2) == i * ((3 * spec_item_height(*fm))
                    / 2)) by (nonlinear_arith)
                    requires
                        ih as nat == spec_item_height(*fm),
                        (3 * (ih as u64)) / 2 == (3 * spec_item_height(*fm)) / 2,
                ;
            }
            let y: u64 = (top as u64) + ((ih as u64) / 2) + (i as u64) * ((3 * (ih as u64)) / 2);
            let ty: u64 = y + (tb.h as u64) + (border as u64);
            let ann_bbox: Rect;
            if (tb.w as u64) + 2 * (border as u64) < w {
                let tx: u64 = (left as u64) + w - (tb.w as u64) - (border as u64);
                ann_bbox = Rect { x: tx as i32, y: ty as i32, w: tb.w, h: tb.h };
            } else {
                let tx: u64 = (left as u64) + w + (handle_w as u64) + 2;
                ann_bbox = Rect { x: tx as i32, y: ty as i32, w: tb.w, h: tb.h };
            }
            let b = Bar {
                r: Rect { x: left as i32, y: y as i32, w: w as u32, h: ih },
                annotation,
                annotation_bbox: ann_bbox,
            };
            bars.push(b);
            i = i + 1;
        }

        // commit the measured state
        self.max_value = ceiling;
        self.item_height = ih;
        self.lay.size.w = plot_w;
        self.lay.size.h = lay_h as u32;
        self.lay.margins.left = left;
        self.lay.margins.top = top;
        self.lay.margins.right = right;
        self.lay.margins.bottom = bottom;
        self.ticks = ticks;
        self.bars = bars;
        Ok(())
    }
}

/// The commands of tick `i`: its guide line, its label, and in debug
/// mode the label's outline.
pub open spec fn spec_tick_cmds(b: BarsLayout, fm: FontMetrics, x: int, y: int, i: int) -> Seq<
    CmdView,
> {
    let t = b.ticks@[i];
    let fh = spec_font_height(fm.size as nat);
    let r2y = y + b.lay.margins.top;
    let r2h = b.lay.size.h - b.lay.margins.top - b.lay.margins.bottom;
    let ty = r2y + r2h + fh - 2;
    let tx = spec_sat_sub(x + t.pos, (t.bbox.w / 2) as int);
    let base = seq![
        CmdView::VLine { x: (x + t.pos) as u32, y: r2y as u32, len: r2h as u32, fill: Some("#ccc"@) },
        CmdView::Text {
            text: t.title@,
            x: tx as u32,
            y: ty as u32,
            family: fm.family@,
            size: fh as u32,
            fill: Some("#000"@),
            bold: false,
            italic: false,
        },
    ];
    if b.lay.debug {
        base + seq![
            CmdView::Rect {
                x: tx as u32,
                y: spec_sat_sub(ty, t.bbox.h as int) as u32,
                w: t.bbox.w,
                h: t.bbox.h,
                fill: None,
                stroke: Some("red"@),
            },
        ]
    } else {
        base
    }
}

/// The commands of the first `n` ticks, in order.
pub open spec fn spec_ticks_cmds(b: BarsLayout, fm: FontMetrics, x: int, y: int, n: int) -> Seq<
    CmdView,
>
    decreases n,
{
    if n <= 0 {
        Seq::empty()
    } else {
        spec_ticks_cmds(b, fm, x, y, n - 1) + spec_tick_cmds(b, fm, x, y, n - 1)
    }
}

/// The commands of bar `i`: its rectangle, for an outside annotation the
/// connecting handle, and the annotation text.
pub open spec fn spec_bar_cmds(b: BarsLayout, c: Config, fm: FontMetrics, x: int, y: int, i: int) -> Seq<
    CmdView,
> {
    let bar = b.bars@[i];
    let fh = spec_font_height(fm.size as nat);
    let rect = CmdView::Rect {
        x: (bar.r.x + x) as u32,
        y: (bar.r.y + y) as u32,
        w: bar.r.w,
        h: bar.r.h,
        fill: Some(c.items@[i].color@),
        stroke: None,
    };
    let inside = bar.r.x + bar.r.w > bar.annotation_bbox.x + bar.annotation_bbox.w;
    let text = CmdView::Text {
        text: bar.annotation@,
        x: (x + bar.annotation_bbox.x) as u32,
        y: (y + bar.annotation_bbox.y) as u32,
        family: fm.family@,
        size: fh as u32,
        fill: Some(if inside { "#fff"@ } else { "#000"@ }),
        bold: false,
        italic: false,
    };
    if inside {
        seq![rect, text]
    } else {
        let handle = CmdView::HLine {
            x: (x + bar.r.x + bar.r.w) as u32,
            y: (y + bar.r.y + b.item_height / 2) as u32,
            len: (bar.annotation_bbox.x - (bar.r.x + bar.r.w) - 2) as u32,
            fill: Some("#999"@),
        };
        seq![rect, handle, text]
    }
}

/// The commands of the first `n` bars, in order.
pub open spec fn spec_bars_cmds(b: BarsLayout, c: Config, fm: FontMetrics, x: int, y: int, n: int) -> Seq<
    CmdView,
>
    decreases n,
{
    if n <= 0 {
        Seq::empty()
    } else {
        spec_bars_cmds(b, c, fm, x, y, n - 1) + spec_bar_cmds(b, c, fm, x, y, n - 1)
    }
}

/// Everything the bars block draws, in order: diagnostic outlines, the
/// tick guides and labels, the bars with their annotations, and last
/// the zero guide line so it sits above the bars.
pub open spec fn spec_bars_draw(b: BarsLayout, c: Config, fm: FontMetrics, x: int, y: int) -> Seq<
    CmdView,
> {
    let r2x = x + b.lay.margins.left;
    let r2y = y + b.lay.margins.top;
    let r2w = b.lay.size.w - b.lay.margins.left - b.lay.margins.right;
    let r2h = b.lay.size.h - b.lay.margins.top - b.lay.margins.bottom;
    let dbg = if b.lay.debug {
        seq![
            CmdView::Rect {
                x: x as u32,
                y: y as u32,
                w: b.lay.size.w,
                h: b.lay.size.h,
                fill: None,
                stroke: Some("red"@),
            },
            CmdView::Rect {
                x: r2x as u32,
                y: r2y as u32,
                w: r2w as u32,
                h: r2h as u32,
                fill: None,
                stroke: Some("green"@),
            },
        ]
    } else {
        Seq::empty()
    };
    dbg + spec_ticks_cmds(b, fm, x, y, b.ticks@.len() as int) + spec_bars_cmds(
        b,
        c,
        fm,
        x,
        y,
        b.bars@.len() as int,
    ) + seq![
        CmdView::VLine { x: r2x as u32, y: r2y as u32, len: r2h as u32, fill: Some("#333"@) },
    ]
}

impl BarsLayout {
    /// The render pass: append the block's drawing commands, exactly the
    /// model sequence.
    pub fn draw_layout(&self, c: &Config, fm: &FontMetrics, x: u32, y: u32, out: &mut Vec<DrawCmd>) 
        requires
            self.draw_ready(c.items@.len()),
            fm.wf(),
            x <= 0x4000_0000,
            y <= 0x4000_0000,
        ensures
            cmds_view(final(out)@) == cmds_view(old(out)@) + spec_bars_draw(
                *self,
                *c,
                *fm,
                x as int,
                y as int,
            ),
    {
        let ghost base = cmds_view(out@);
        let r2x: u32 = x + self.lay.margins.left;
        let r2y: u32 = y + self.lay.margins.top;
        let r2w: u32 = self.lay.size.w - self.lay.margins.left - self.lay.margins.right;
        let r2h: u32 = self.lay.size.h - self.lay.margins.top - self.lay.margins.bottom;
        if self.lay.debug {
            let cmd1 = DrawCmd::Rect {
                x,
                y,
                w: self.lay.size.w,
                h: self.lay.size.h,
                fill: None,
                stroke: Some(owned_str("red")),
            };
            proof {
                lemma_cmds_view_push(out@, cmd1);
            }
            out.push(cmd1);
            let cmd2 = DrawCmd::Rect {
                x: r2x,
                y: r2y,
                w: r2w,
                h: r2h,
                fill: None,
                stroke: Some(owned_str("green")),
            };
            proof {
                lemma_cmds_view_push(out@, cmd2);
            }
            out.push(cmd2);
        }
        let ghost dbg_done = cmds_view(out@);
        let fh: u32 = fm.height();

        let mut i: usize = 0;
        while i < self.ticks.len()
            invariant
                self.draw_ready(c.items@.len()),
                fm.wf(),
                x <= 0x4000_0000,
                y <= 0x4000_0000,
                fh == spec_font_height(fm.size as nat),
                4 <= fh <= 341,
                r2y == y + self.lay.margins.top,
                r2h == self.lay.size.h - self.lay.margins.top - self.lay.margins.bottom,
                i <= self.ticks@.len(),
                cmds_view(out@) == dbg_done + spec_ticks_cmds(
                    *self,
                    *fm,
                    x as int,
                    y as int,
                    i as int,
                ),
            decreases self.ticks@.len() - i,
        {
            let t = &self.ticks[i];
            let vline = DrawCmd::VLine {
                x: x + t.pos,
                y: r2y,
                len: r2h,
                fill: Some(owned_str("#ccc")),
            };
            proof {
                lemma_cmds_view_push(out@, vline);
            }
            out.push(vline);
            let ty: u32 = r2y + r2h + fh - 2;
            let reach: u32 = x + t.pos;
            let half: u32 = t.bbox.w / 2;
            let tx: u32 = if reach >= half {
                reach - half
            } else {
                0
            };
            let label = DrawCmd::Text {
                text: t.title.clone(),
                x: tx,
                y: ty,
                family: owned_str(fm.family()),
                size: fh,
                fill: Some(owned_str("#000")),
                bold: false,
                italic: false,
            };
            proof {
                lemma_cmds_view_push(out@, label);
            }
            out.push(label);
            if self.lay.debug {
                let dy: u32 = if ty >= t.bbox.h {
                    ty - t.bbox.h
                } else {
                    0
                };
                let dbg = DrawCmd::Rect {
                    x: tx,
                    y: dy,
                    w: t.bbox.w,
                    h: t.bbox.h,
                    fill: None,
                    stroke: Some(owned_str("red")),
                };
                proof {
                    lemma_cmds_view_push(out@, dbg);
                }
                out.push(dbg);
            }
            proof {
                assert(cmds_view(out@) =~= dbg_done + spec_ticks_cmds(
                    *self,
                    *fm,
                    x as int,
                    y as int,
                    i + 1,
                ));
            }
            i = i + 1;
        }
        let ghost ticks_done = cmds_view(out@);

        let mut i: usize = 0;
        while i < self.bars.len()
            invariant
                self.draw_ready(c.items@.len()),
                fm.wf(),
                x <= 0x4000_0000,
                y <= 0x4000_0000,
                fh == spec_font_height(fm.size as nat),
                4 <= fh <= 341,
                i <= self.bars@.len(),
                cmds_view(out@) == ticks_done + spec_bars_cmds(
                    *self,
                    *c,
                    *fm,
                    x as int,
                    y as int,
                    i as int,
                ),
            decreases self.bars@.len() - i,
        {
            let bar = &self.bars[i];
            let rect = DrawCmd::Rect {
                x: (bar.r.x as u32) + x,
                y: (bar.r.y as u32) + y,
                w: bar.r.w,
                h: bar.r.h,
                fill: Some(c.items[i].color.clone()),
                stroke: None,
            };
            proof {
                lemma_cmds_view_push(out@, rect);
            }
            out.push(rect);
            let inside: bool = bar.r.right() > bar.annotation_bbox.right();
            if !inside {
                // the annotation sits outside: join it to the bar
                let hx: u32 = x + bar.r.right();
                let hy: u32 = y + (bar.r.y as u32) + self.item_height / 2;
                let hw: u32 = (bar.annotation_bbox.x as u32) - bar.r.right() - 2;
                let handle = DrawCmd::HLine { x: hx, y: hy, len: hw, fill: Some(owned_str("#999")) };
                proof {
                    lemma_cmds_view_push(out@, handle);
                }
                out.push(handle);
            }
            let text = DrawCmd::Text {
                text: bar.annotation.clone(),
                x: x + (bar.annotation_bbox.x as u32),
                y: y + (bar.annotation_bbox.y as u32),
                family: owned_str(fm.family()),
                size: fh,
                fill: Some(owned_str(if inside {
                    "#fff"
                } else {
                    "#000"
                })),
                bold: false,
                italic: false,
            };
            proof {
                lemma_cmds_view_push(out@, text);
            }
            out.push(text);
            proof {
                assert(cmds_view(out@) =~= ticks_done + spec_bars_cmds(
                    *self,
                    *c,
                    *fm,
                    x as int,
                    y as int,
                    i + 1,
                ));
            }
            i = i + 1;
        }

        let zero_line = DrawCmd::VLine { x: r2x, y: r2y, len: r2h, fill: Some(owned_str("#333")) };
        proof {
            lemma_cmds_view_push(out@, zero_line);
        }
        out.push(zero_line);
        proof {
            assert(cmds_view(out@) =~= base + spec_bars_draw(*self, *c, *fm, x as int, y as int));
        }
    }
}

} // verus!
