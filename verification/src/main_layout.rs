//! The orchestrator: measures the blocks in dependency order and
//! renders them into one canvas.
//!
//! The bars must be measured first; the name column needs their
//! per-bar offsets and their height, and the axis caption is stretched
//! to their width.  Rendering is a pure function of the measured state,
//! so running it twice gives the same commands.

use crate::bars::{
    compute_scale, spec_ann_bbox, spec_bars_draw, spec_bars_error, spec_ceiling,
    spec_input_error, spec_suffix, spec_tick_values, BarsLayout,
};
use crate::boxes::{spec_tick_count, ChartBoxes, ChartTexts};
use crate::cmd::{cmds_view, CmdView, DrawCmd};
use crate::config::{Config, Error};
use crate::num::Dec;
use crate::text::{dec_to_string, spec_dec_chars};
use crate::font::FontMetrics;
use crate::geom::{Layout, Margins, Size};
use crate::haxis::{spec_haxis_draw, HAxisLayout};
use crate::title::{spec_title_draw, TitleLayout};
use crate::vaxis::{spec_vaxis_draw, spec_vaxis_w, VAxisLayout};
use vstd::prelude::*;
use vstd::string::StringExecFns;

verus! {

/// The whole chart: the four blocks and the final canvas size.
#[derive(Clone, Debug, PartialEq, Eq)]
pub struct MainLayout {
    pub size: Size,
    pub config: Config,
    pub bars_lay: BarsLayout,
    pub title_lay: Option<TitleLayout>,
    pub haxis_lay: Option<HAxisLayout>,
    pub vaxis_lay: VAxisLayout,
    pub measured: bool,
}

/// Everything the finished drawing holds, in paint order: the title,
/// the name column, the bars, and the axis caption, each at its
/// computed offset.
pub open spec fn spec_main_draw(m: MainLayout, fm: FontMetrics, x: int, y: int) -> Seq<CmdView> {
    let tx = x + m.vaxis_lay.lay.size.w;
    let title_part = match m.title_lay {
        Some(l) => spec_title_draw(l, fm, tx + m.bars_lay.lay.margins.left, y),
        None => Seq::empty(),
    };
    let ty = y + match m.title_lay {
        Some(l) => l.lay.size.h as int,
        None => 0,
    };
    let haxis_part = match m.haxis_lay {
        Some(l) => spec_haxis_draw(l, fm, tx, ty + m.bars_lay.lay.size.h),
        None => Seq::empty(),
    };
    title_part + spec_vaxis_draw(m.vaxis_lay, m.config, fm, x, ty) + spec_bars_draw(
        m.bars_lay,
        m.config,
        fm,
        tx,
        ty,
    ) + haxis_part
}

impl MainLayout {
    /// The blocks exist exactly where the description asks for them.
    pub open spec fn blocks_consistent(self) -> bool {
        &&& self.title_lay.is_some() <==> self.config.title.is_some()
        &&& match (self.title_lay, self.config.title) {
            (Some(l), Some(t)) => l.title@ == t@,
            _ => true,
        }
        &&& self.haxis_lay.is_some() <==> match self.config.hor_axis {
            Some(ha) => ha.title.is_some(),
            None => false,
        }
        &&& match self.haxis_lay {
            Some(l) => match self.config.hor_axis {
                Some(ha) => match ha.title {
                    Some(t) => l.title@ == t@,
                    None => true,
                },
                None => true,
            },
            None => true,
        }
    }

    /// The bounds the render pass needs of every block.
    pub open spec fn ready(self) -> bool {
        &&& self.measured
        &&& self.blocks_consistent()
        &&& self.bars_lay.draw_ready(self.config.items@.len())
        &&& self.vaxis_lay.name_boxes@.len() == self.config.items@.len()
        &&& self.vaxis_lay.ticks@.len() == self.config.items@.len()
        &&& self.vaxis_lay.lay.size.w <= 0x1_0003
        &&& self.vaxis_lay.lay.size.h <= 0x6100_0000
        &&& forall|i: int|
            0 <= i < self.vaxis_lay.name_boxes@.len() ==> (
            #[trigger] self.vaxis_lay.name_boxes@[i]).w <= self.vaxis_lay.lay.size.w
        &&& forall|i: int|
            0 <= i < self.vaxis_lay.ticks@.len() ==> (#[trigger] self.vaxis_lay.ticks@[i])
                <= 0x6100_0000
        &&& match self.title_lay {
            Some(l) => l.lay.size.w <= 0xFFFF && l.lay.size.h <= 0xFFFF,
            None => true,
        }
        &&& match self.haxis_lay {
            Some(l) => l.lay.size.w <= 0x4000_0000 && l.lay.size.h <= 0xFFFF,
            None => true,
        }
    }

    /// The whole measure pass computed exactly what the models say:
    /// the bars as their block states, the name column from the bars'
    /// offsets, and the caption stretched to the bars' width.
    pub open spec fn chart_measured(self, fm: FontMetrics, boxes: ChartBoxes) -> bool {
        &&& self.blocks_consistent()
        &&& self.bars_lay.measured(self.config, fm, boxes)
        &&& self.vaxis_lay.lay.size.w == spec_vaxis_w(boxes.name_boxes@)
        &&& self.vaxis_lay.lay.size.h == self.bars_lay.lay.size.h
        &&& self.vaxis_lay.name_boxes@ == boxes.name_boxes@
        &&& self.vaxis_lay.name_boxes@.len() == self.config.items@.len()
        &&& self.vaxis_lay.ticks@.len() == self.config.items@.len()
        &&& forall|i: int|
            0 <= i < self.vaxis_lay.ticks@.len() ==> (#[trigger] self.vaxis_lay.ticks@[i]) as int
                == spec_ann_bbox(self.config, fm, boxes, i).y
        &&& match self.title_lay {
            Some(l) => l.lay.size.h == fm.full_height && l.lay.size.w
                == boxes.title_box->Some_0.w,
            None => true,
        }
        &&& match self.haxis_lay {
            Some(l) => l.lay.size.h == fm.full_height && l.lay.size.w
                == self.bars_lay.lay.size.w && l.title_width == boxes.haxis_title_box->Some_0.w,
            None => true,
        }
    }

    /// A fresh, unmeasured chart for a description.
    pub fn new(config: Config) -> (r: MainLayout)
        ensures
            r.config == config,
            r.blocks_consistent(),
            !r.measured,
            r.size == (Size { w: 0, h: 0 }),
            r.bars_lay.lay == (Layout {
                size: Size { w: 0, h: 0 },
                margins: Margins { left: 0, top: 0, right: 0, bottom: 0 },
                debug: false,
            }),
            r.bars_lay.max_value == (Dec { neg: false, m: 0, e: 0 }),
            r.bars_lay.item_height == 0,
            r.bars_lay.bars@.len() == 0,
            r.bars_lay.ticks@.len() == 0,
            r.vaxis_lay.lay == (Layout {
                size: Size { w: 0, h: 0 },
                margins: Margins { left: 0, top: 0, right: 0, bottom: 0 },
                debug: false,
            }),
            r.vaxis_lay.ticks@.len() == 0,
            r.vaxis_lay.name_boxes@.len() == 0,
            match r.title_lay {
                Some(l) => l.lay == (Layout {
                    size: Size { w: 0, h: 0 },
                    margins: Margins { left: 0, top: 0, right: 0, bottom: 0 },
                    debug: false,
                }),
                None => true,
            },
            match r.haxis_lay {
                Some(l) => l.lay == (Layout {
                    size: Size { w: 0, h: 0 },
                    margins: Margins { left: 0, top: 0, right: 0, bottom: 0 },
                    debug: false,
                }) && l.title_width == 0,
                None => true,
            },
    {
        let title_lay: Option<TitleLayout> = match &config.title {
            Some(t) => Some(TitleLayout::new(t.as_str())),
            None => None,
        };
        let haxis_lay: Option<HAxisLayout> = match &config.hor_axis {
            Some(ha) => match &ha.title {
                Some(t) => Some(HAxisLayout::new(t.as_str())),
                None => None,
            },
            None => None,
        };
        MainLayout {
            size: Size { w: 0, h: 0 },
            config,
            bars_lay: BarsLayout::new(),
            title_lay,
            haxis_lay,
            vaxis_lay: VAxisLayout::new(),
            measured: false,
        }
    }

    /// Cascade the diagnostic flag into every block, changing nothing
    /// else.  Call it before the passes run.
    pub fn set_enable_debug(&mut self, flag: bool)
        ensures
            final(self).bars_lay.lay.debug == flag,
            final(self).vaxis_lay.lay.debug == flag,
            match final(self).title_lay {
                Some(l) => l.lay.debug == flag,
                None => true,
            },
            match final(self).haxis_lay {
                Some(l) => l.lay.debug == flag,
                None => true,
            },
            final(self).config == old(self).config,
            final(self).size == old(self).size,
            final(self).measured == old(self).measured,
            final(self).bars_lay.lay.size == old(self).bars_lay.lay.size,
            final(self).bars_lay.lay.margins == old(self).bars_lay.lay.margins,
            final(self).bars_lay.max_value == old(self).bars_lay.max_value,
            final(self).bars_lay.item_height == old(self).bars_lay.item_height,
            final(self).bars_lay.bars == old(self).bars_lay.bars,
            final(self).bars_lay.ticks == old(self).bars_lay.ticks,
            final(self).vaxis_lay.lay.size == old(self).vaxis_lay.lay.size,
            final(self).vaxis_lay.lay.margins == old(self).vaxis_lay.lay.margins,
            final(self).vaxis_lay.ticks == old(self).vaxis_lay.ticks,
            final(self).vaxis_lay.name_boxes == old(self).vaxis_lay.name_boxes,
            final(self).title_lay.is_some() == old(self).title_lay.is_some(),
            match (final(self).title_lay, old(self).title_lay) {
                (Some(a), Some(b)) => a.title == b.title && a.lay.size == b.lay.size
                    && a.lay.margins == b.lay.margins,
                _ => true,
            },
            final(self).haxis_lay.is_some() == old(self).haxis_lay.is_some(),
            match (final(self).haxis_lay, old(self).haxis_lay) {
                (Some(a), Some(b)) => a.title == b.title && a.title_width == b.title_width
                    && a.lay.size == b.lay.size && a.lay.margins == b.lay.margins,
                _ => true,
            },
            final(self).blocks_consistent() == old(self).blocks_consistent(),
    {
        self.bars_lay.lay.debug = flag;
        self.vaxis_lay.lay.debug = flag;
        match &mut self.title_lay {
            Some(l) => {
                l.lay.debug = flag;
            },
            None => {},
        }
        match &mut self.haxis_lay {
            Some(l) => {
                l.lay.debug = flag;
            },
            None => {},
        }
    }

    /// The canvas width, available once measured.
    pub fn width(&self) -> (r: u32)
        ensures
            r == self.size.w,
    {
        self.size.w
    }

    /// The canvas height, available once measured.
    pub fn height(&self) -> (r: u32)
        ensures
            r == self.size.h,
    {
        self.size.h
    }

    /// Whether the measure pass has run.
    pub fn is_measured(&self) -> (r: bool)
        ensures
            r == self.measured,
    {
        self.measured
    }

    /// The strings the layout will need measured, grouped the way the
    /// boxes must come back: tick labels, the zero and ceiling labels,
    /// one annotation and one name per item, and the optional titles.
    pub fn required_texts(&self) -> (r: Result<ChartTexts, Error>)
        requires
            self.config.wf(),
        ensures
            match r {
                Err(e) => Some(e) == spec_input_error(self.config),
                Ok(t) => {
                    &&& spec_input_error(self.config) is None
                    &&& t.tick_labels@.len() == spec_tick_count(self.config)
                    &&& forall|i: int|
                        0 <= i < t.tick_labels@.len() ==> (#[trigger] t.tick_labels@[i])@
                            == spec_dec_chars(spec_tick_values(self.config)[i]) + spec_suffix(
                            self.config,
                        )
                    &&& t.zero_label@ == spec_dec_chars(Dec { neg: false, m: 0, e: 0 })
                        + spec_suffix(self.config)
                    &&& t.max_label@ == spec_dec_chars(spec_ceiling(self.config)) + spec_suffix(
                        self.config,
                    )
                    &&& t.annotations@.len() == self.config.items@.len()
                    &&& forall|i: int|
                        0 <= i < t.annotations@.len() ==> (#[trigger] t.annotations@[i])@
                            == spec_dec_chars(self.config.items@[i].value)
                    &&& t.names@.len() == self.config.items@.len()
                    &&& forall|i: int|
                        0 <= i < t.names@.len() ==> (#[trigger] t.names@[i])@
                            == self.config.items@[i].name@
                    &&& (t.title.is_some() <==> self.config.title.is_some())
                    &&& match (t.title, self.config.title) {
                        (Some(a), Some(b)) => a@ == b@,
                        _ => true,
                    }
                    &&& (t.haxis_title.is_some() <==> match self.config.hor_axis {
                        Some(ha) => ha.title.is_some(),
                        None => false,
                    })
                    &&& match (t.haxis_title, self.config.hor_axis) {
                        (Some(a), Some(ha)) => match ha.title {
                            Some(b) => a@ == b@,
                            None => true,
                        },
                        _ => true,
                    }
                },
            },
    {
        let scale = match compute_scale(&self.config) {
            Ok(s) => s,
            Err(e) => {
                return Err(e);
            },
        };
        let ceiling: Dec = scale.0;
        let values: Vec<Dec> = scale.1;
        let suffix: &str = match &self.config.hor_axis {
            Some(ha) => match &ha.suffix {
                Some(s) => s.as_str(),
                None => "",
            },
            None => "",
        };
        proof {
            reveal_strlit("");
            assert(suffix@ == spec_suffix(self.config));
        }
        let mut tick_labels: Vec<String> = Vec::new();
        let mut i: usize = 0;
        while i < values.len()
            invariant
                self.config.wf(),
                values@ == spec_tick_values(self.config),
                forall|j: int| 0 <= j < values@.len() ==> (#[trigger] values@[j]).wf(),
                suffix@ == spec_suffix(self.config),
                i <= values@.len(),
                tick_labels@.len() == i,
                forall|j: int|
                    0 <= j < i ==> (#[trigger] tick_labels@[j])@ == spec_dec_chars(
                        spec_tick_values(self.config)[j],
                    ) + spec_suffix(self.config),
            decreases values@.len() - i,
        {
            let mut label: String = dec_to_string(&values[i]);
            label.append(suffix);
            tick_labels.push(label);
            i = i + 1;
        }
        let zero = Dec { neg: false, m: 0, e: 0 };
        let mut zero_label: String = dec_to_string(&zero);
        zero_label.append(suffix);
        let mut max_label: String = dec_to_string(&ceiling);
        max_label.append(suffix);
        let mut annotations: Vec<String> = Vec::new();
        let mut names: Vec<String> = Vec::new();
        let mut i: usize = 0;
        while i < self.config.items.len()
            invariant
                self.config.wf(),
                i <= self.config.items@.len(),
                annotations@.len() == i,
                names@.len() == i,
                forall|j: int|
                    0 <= j < i ==> (#[trigger] annotations@[j])@ == spec_dec_chars(
                        self.config.items@[j].value,
                    ),
                forall|j: int|
                    0 <= j < i ==> (#[trigger] names@[j])@ == self.config.items@[j].name@,
            decreases self.config.items@.len() - i,
        {
            annotations.push(dec_to_string(&self.config.items[i].value));
            names.push(self.config.items[i].name.clone());
            i = i + 1;
        }
        let title: Option<String> = match &self.config.title {
            Some(t) => Some(t.clone()),
            None => None,
        };
        let haxis_title: Option<String> = match &self.config.hor_axis {
            Some(ha) => match &ha.title {
                Some(t) => Some(t.clone()),
                None => None,
            },
            None => None,
        };
        Ok(ChartTexts { tick_labels, zero_label, max_label, annotations, names, title, haxis_title })
    }

    /// The measure pass over every block, in dependency order: bars
    /// first, then the title, the stretched axis caption, and the name
    /// column fed with the bars' offsets.  The final canvas is exactly
    /// as wide as the bars and the name column together, and exactly as
    /// high as the measured blocks stacked up.
    pub fn calc_layout(&mut self, fm: &FontMetrics, boxes: &ChartBoxes) -> (r: Result<(), Error>)
        requires
            old(self).config.wf(),
            old(self).blocks_consistent(),
            fm.wf(),
            boxes.wf(),
            boxes.matches(old(self).config),
        ensures
            final(self).config == old(self).config,
            match r {
                Ok(()) => {
                    &&& spec_bars_error(old(self).config, *fm, *boxes) is None
                    &&& final(self).ready()
                    &&& final(self).chart_measured(*fm, *boxes)
                    &&& final(self).bars_lay.measured(old(self).config, *fm, *boxes)
                    &&& final(self).vaxis_lay.lay.size.w == spec_vaxis_w(boxes.name_boxes@)
                    &&& final(self).vaxis_lay.lay.size.h == final(self).bars_lay.lay.size.h
                    &&& forall|i: int|
                        0 <= i < final(self).vaxis_lay.ticks@.len() ==> (
                        #[trigger] final(self).vaxis_lay.ticks@[i]) as int == spec_ann_bbox(
                            old(self).config,
                            *fm,
                            *boxes,
                            i,
                        ).y
                    &&& final(self).size.w == final(self).bars_lay.lay.size.w
                        + final(self).vaxis_lay.lay.size.w
                    &&& final(self).size.h == (match final(self).title_lay {
                        Some(l) => l.lay.size.h as int,
                        None => 0,
                    }) + final(self).bars_lay.lay.size.h + (match final(self).haxis_lay {
                        Some(l) => l.lay.size.h as int,
                        None => 0,
                    })
                    &&& match final(self).title_lay {
                        Some(l) => l.lay.size.h == fm.full_height && l.lay.size.w
                            == boxes.title_box->Some_0.w,
                        None => true,
                    }
                    &&& match final(self).haxis_lay {
                        Some(l) => l.lay.size.h == fm.full_height && l.lay.size.w
                            == final(self).bars_lay.lay.size.w,
                        None => true,
                    }
                    &&& final(self).bars_lay.lay.debug == old(self).bars_lay.lay.debug
                    &&& final(self).vaxis_lay.lay.debug == old(self).vaxis_lay.lay.debug
                    &&& final(self).title_lay.is_some() == old(self).title_lay.is_some()
                    &&& match (final(self).title_lay, old(self).title_lay) {
                        (Some(a), Some(b)) => a.lay.debug == b.lay.debug,
                        _ => true,
                    }
                    &&& final(self).haxis_lay.is_some() == old(self).haxis_lay.is_some()
                    &&& match (final(self).haxis_lay, old(self).haxis_lay) {
                        (Some(a), Some(b)) => a.lay.debug == b.lay.debug,
                        _ => true,
                    }
                },
                Err(e) => {
                    &&& Some(e) == spec_bars_error(old(self).config, *fm, *boxes)
                    &&& *final(self) == *old(self)
                },
            },
    {
        let bars_result = {
            let c = &self.config;
            self.bars_lay.calc_layout(c, fm, boxes)
        };
        match bars_result {
            Ok(()) => {},
            Err(e) => {
                return Err(e);
            },
        }

        let mut h: u32 = 0;
        let title_lay: Option<TitleLayout> = match &self.title_lay {
            Some(l) => {
                let bbox: crate::geom::Rect = match &boxes.title_box {
                    Some(b) => *b,
                    None => crate::geom::Rect { x: 0, y: 0, w: 0, h: 0 },
                };
                let mut l2 = TitleLayout { lay: l.lay, title: l.title.clone() };
                l2.calc_layout(fm, &bbox);
                h = h + l2.lay.size.h;
                Some(l2)
            },
            None => None,
        };
        proof {
            match (&title_lay, &self.title_lay) {
                (Some(a), Some(b)) => {
                    assert(a.title@ == b.title@);
                },
                _ => {},
            }
        }
        self.title_lay = title_lay;

        h = h + self.bars_lay.lay.size.h;

        let haxis_lay: Option<HAxisLayout> = match &self.haxis_lay {
            Some(l) => {
                let bbox: crate::geom::Rect = match &boxes.haxis_title_box {
                    Some(b) => *b,
                    None => crate::geom::Rect { x: 0, y: 0, w: 0, h: 0 },
                };
                let mut l2 = HAxisLayout {
                    lay: l.lay,
                    title: l.title.clone(),
                    title_width: l.title_width,
                };
                l2.calc_layout(fm, &bbox);
                l2.lay.size.w = self.bars_lay.lay.size.w;
                h = h + l2.lay.size.h;
                Some(l2)
            },
            None => None,
        };
        self.haxis_lay = haxis_lay;

        // the name column needs the bars' per-item offsets
        let mut ticks: Vec<u32> = Vec::new();
        let mut i: usize = 0;
        while i < self.bars_lay.bars.len()
            invariant
                self.bars_lay.draw_ready(self.config.items@.len()),
                self.bars_lay.measured(self.config, *fm, *boxes),
                i <= self.bars_lay.bars@.len(),
                ticks@.len() == i,
                forall|j: int|
                    0 <= j < i ==> (#[trigger] ticks@[j]) as int == self.bars_lay.bars@[j].annotation_bbox.y,
                forall|j: int| 0 <= j < i ==> (#[trigger] ticks@[j]) <= 0x6100_0000,
            decreases self.bars_lay.bars@.len() - i,
        {
            ticks.push(self.bars_lay.bars[i].annotation_bbox.y as u32);
            i = i + 1;
        }
        self.vaxis_lay.ticks = ticks;
        {
            let boxes_ref = &boxes.name_boxes;
            self.vaxis_lay.calc_layout(fm, boxes_ref);
        }
        self.vaxis_lay.lay.size.h = self.bars_lay.lay.size.h;

        self.size.w = self.bars_lay.lay.size.w + self.vaxis_lay.lay.size.w;
        self.size.h = h;
        self.measured = true;
        Ok(())
    }

    /// The render pass: the commands of the whole chart, in paint
    /// order, exactly the model sequence.  It reads only measured
    /// state, so repeated calls give the same commands.
    pub fn draw_layout(&self, fm: &FontMetrics, x: u32, y: u32) -> (out: Vec<DrawCmd>)
        requires
            self.ready(),
            fm.wf(),
            x <= 0x3F00_0000,
            y <= 0x3F00_0000,
        ensures
            cmds_view(out@) == spec_main_draw(*self, *fm, x as int, y as int),
    {
        let mut out: Vec<DrawCmd> = Vec::new();
        let tx: u32 = x + self.vaxis_lay.lay.size.w;
        let mut ty: u32 = y;
        match &self.title_lay {
            Some(l) => {
                l.draw_layout(fm, tx + self.bars_lay.lay.margins.left, ty, &mut out);
                ty = ty + l.lay.size.h;
            },
            None => {},
        }
        self.vaxis_lay.draw_layout(&self.config, fm, x, ty, &mut out);
        self.bars_lay.draw_layout(&self.config, fm, tx, ty, &mut out);
        match &self.haxis_lay {
            Some(l) => {
                l.draw_layout(fm, tx, ty + self.bars_lay.lay.size.h, &mut out);
            },
            None => {},
        }
        proof {
            assert(cmds_view(out@) =~= spec_main_draw(*self, *fm, x as int, y as int));
        }
        out
    }
}

} // verus!
