//! The vertical axis: the item-name column to the left of the bars.
//!
//! Its height and its per-item vertical offsets exist only after the
//! bars are measured; the orchestrator hands them in before this block
//! is rendered.

use crate::boxes::{box_wf, copy_vec};
use crate::cmd::{cmds_view, lemma_cmds_view_push, owned_str, CmdView, DrawCmd};
use crate::config::Config;
use crate::font::{spec_font_height, FontMetrics};
use crate::geom::{spec_sat_sub, Layout, Margins, Rect, Size};
use vstd::prelude::*;

verus! {

/// The item-name column.
#[derive(Clone, Debug, PartialEq, Eq)]
pub struct VAxisLayout {
    pub lay: Layout,
    /// The vertical offset of each item's label, one per item, supplied
    /// by the orchestrator from the bars' annotation baselines.
    pub ticks: Vec<u32>,
    /// The measured bounding box of each item's name, one per item.
    pub name_boxes: Vec<Rect>,
}

/// The widest width among the first `n` name boxes.
pub open spec fn spec_fold_max_name_w(s: Seq<Rect>, n: int) -> nat
    decreases n,
{
    if n <= 0 {
        0
    } else {
        let p = spec_fold_max_name_w(s, n - 1);
        if s[n - 1].w > p {
            s[n - 1].w as nat
        } else {
            p
        }
    }
}

/// The column width: the widest name plus a small fixed padding.
pub open spec fn spec_vaxis_w(s: Seq<Rect>) -> nat {
    spec_fold_max_name_w(s, s.len() as int) + 4
}

/// The commands of name `i`: the right-aligned label, and in debug mode
/// its outline.
pub open spec fn spec_name_cmds(v: VAxisLayout, c: Config, fm: FontMetrics, x: int, y: int, i: int) -> Seq<
    CmdView,
> {
    let fh = spec_font_height(fm.size as nat);
    let bbox = v.name_boxes@[i];
    let tx = x + v.lay.size.w - bbox.w;
    let base = seq![
        CmdView::Text {
            text: c.items@[i].name@,
            x: tx as u32,
            y: (y + v.ticks@[i]) as u32,
            family: fm.family@,
            size: fh as u32,
            fill: None,
            bold: false,
            italic: false,
        },
    ];
    if v.lay.debug {
        base + seq![
            CmdView::Rect {
                x: tx as u32,
                y: spec_sat_sub(y + v.ticks@[i], fh as int) as u32,
                w: bbox.w,
                h: fm.full_height,
                fill: None,
                stroke: Some("red"@),
            },
        ]
    } else {
        base
    }
}

/// The commands of the first `n` names, in order.
pub open spec fn spec_names_cmds(v: VAxisLayout, c: Config, fm: FontMetrics, x: int, y: int, n: int) -> Seq<
    CmdView,
>
    decreases n,
{
    if n <= 0 {
        Seq::empty()
    } else {
        spec_names_cmds(v, c, fm, x, y, n - 1) + spec_name_cmds(v, c, fm, x, y, n - 1)
    }
}

/// What the column draws: every name, and in debug mode the column's
/// outline last.
pub open spec fn spec_vaxis_draw(v: VAxisLayout, c: Config, fm: FontMetrics, x: int, y: int) -> Seq<
    CmdView,
> {
    let names = spec_names_cmds(v, c, fm, x, y, v.name_boxes@.len() as int);
    if v.lay.debug {
        names + seq![
            CmdView::Rect {
                x: x as u32,
                y: y as u32,
                w: v.lay.size.w,
                h: v.lay.size.h,
                fill: None,
                stroke: Some("blue"@),
            },
        ]
    } else {
        names
    }
}

impl VAxisLayout {
    /// An unmeasured name column.
    pub fn new() -> (r: VAxisLayout)
        ensures
            r.ticks@.len() == 0,
            r.name_boxes@.len() == 0,
            r.lay == (Layout {
                size: Size { w: 0, h: 0 },
                margins: Margins { left: 0, top: 0, right: 0, bottom: 0 },
                debug: false,
            }),
    {
        VAxisLayout {
            lay: Layout {
                size: Size { w: 0, h: 0 },
                margins: Margins { left: 0, top: 0, right: 0, bottom: 0 },
                debug: false,
            },
            ticks: Vec::new(),
            name_boxes: Vec::new(),
        }
    }

    /// Measure: wide enough for the widest name.  The height comes later
    /// from the orchestrator.
    pub fn calc_layout(&mut self, fm: &FontMetrics, name_boxes: &Vec<Rect>)
        requires
            fm.wf(),
            forall|i: int| 0 <= i < name_boxes@.len() ==> box_wf(#[trigger] name_boxes@[i]),
        ensures
            final(self).lay.size.w == spec_vaxis_w(name_boxes@),
            final(self).lay.size.w <= 0x1_0003,
            final(self).lay.size.h == old(self).lay.size.h,
            final(self).lay.margins == old(self).lay.margins,
            final(self).lay.debug == old(self).lay.debug,
            final(self).ticks == old(self).ticks,
            final(self).name_boxes@ == name_boxes@,
            forall|i: int|
                0 <= i < name_boxes@.len() ==> (#[trigger] name_boxes@[i]).w
                    <= final(self).lay.size.w,
    {
        let mut max_w: u32 = 0;
        let mut i: usize = 0;
        while i < name_boxes.len()
            invariant
                i <= name_boxes@.len(),
                forall|j: int| 0 <= j < name_boxes@.len() ==> box_wf(#[trigger] name_boxes@[j]),
                max_w as nat == spec_fold_max_name_w(name_boxes@, i as int),
                max_w <= 0xFFFF,
                forall|j: int| 0 <= j < i ==> (#[trigger] name_boxes@[j]).w <= max_w,
            decreases name_boxes@.len() - i,
        {
            if name_boxes[i].w > max_w {
                max_w = name_boxes[i].w;
            }
            i = i + 1;
        }
        self.lay.size.w = max_w + 4;
        self.name_boxes = copy_vec(name_boxes);
    }

    /// Render: append the column's commands, exactly the model sequence.
    pub fn draw_layout(&self, c: &Config, fm: &FontMetrics, x: u32, y: u32, out: &mut Vec<DrawCmd>)
        requires
            fm.wf(),
            x <= 0x4100_0000,
            y <= 0x4100_0000,
            self.name_boxes@.len() == c.items@.len(),
            self.ticks@.len() == c.items@.len(),
            self.lay.size.w <= 0x1_0003,
            self.lay.size.h <= 0x6100_0000,
            forall|i: int|
                0 <= i < self.name_boxes@.len() ==> (#[trigger] self.name_boxes@[i]).w
                    <= self.lay.size.w,
            forall|i: int| 0 <= i < self.ticks@.len() ==> (#[trigger] self.ticks@[i]) <= 0x6100_0000,
        ensures
            cmds_view(final(out)@) == cmds_view(old(out)@) + spec_vaxis_draw(
                *self,
                *c,
                *fm,
                x as int,
                y as int,
            ),
    {
        let ghost base = cmds_view(out@);
        let fh: u32 = fm.height();
        let mut i: usize = 0;
        while i < self.name_boxes.len()
            invariant
                fm.wf(),
                x <= 0x4100_0000,
                y <= 0x4100_0000,
                fh == spec_font_height(fm.size as nat),
                4 <= fh <= 341,
                i <= self.name_boxes@.len(),
                self.name_boxes@.len() == c.items@.len(),
                self.ticks@.len() == c.items@.len(),
                self.lay.size.w <= 0x1_0003,
                forall|j: int|
                    0 <= j < self.name_boxes@.len() ==> (#[trigger] self.name_boxes@[j]).w
                        <= self.lay.size.w,
                forall|j: int|
                    0 <= j < self.ticks@.len() ==> (#[trigger] self.ticks@[j]) <= 0x6100_0000,
                cmds_view(out@) == base + spec_names_cmds(
                    *self,
                    *c,
                    *fm,
                    x as int,
                    y as int,
                    i as int,
                ),
            decreases self.name_boxes@.len() - i,
        {
            let bbox = self.name_boxes[i];
            let tx: u32 = x + self.lay.size.w - bbox.w;
            let ty: u32 = y + self.ticks[i];
            let text = DrawCmd::Text {
                text: c.items[i].name.clone(),
                x: tx,
                y: ty,
                family: owned_str(fm.family()),
                size: fh,
                fill: None,
                bold: false,
                italic: false,
            };
            proof {
                lemma_cmds_view_push(out@, text);
            }
            out.push(text);
            if self.lay.debug {
                let dy: u32 = if ty >= fh {
                    ty - fh
                } else {
                    0
                };
                let dbg = DrawCmd::Rect {
                    x: tx,
                    y: dy,
                    w: bbox.w,
                    h: fm.full_height,
                    fill: None,
                    stroke: Some(owned_str("red")),
                };
                proof {
                    lemma_cmds_view_push(out@, dbg);
                }
                out.push(dbg);
            }
            proof {
                assert(cmds_view(out@) =~= base + spec_names_cmds(
                    *self,
                    *c,
                    *fm,
                    x as int,
                    y as int,
                    i + 1,
                ));
            }
            i = i + 1;
        }
        if self.lay.debug {
            let dbg = DrawCmd::Rect {
                x,
                y,
                w: self.lay.size.w,
                h: self.lay.size.h,
                fill: None,
                stroke: Some(owned_str("blue")),
            };
            proof {
                lemma_cmds_view_push(out@, dbg);
            }
            out.push(dbg);
        }
        proof {
            assert(cmds_view(out@) =~= base + spec_vaxis_draw(*self, *c, *fm, x as int, y as int));
        }
    }
}

} // verus!
