//! The horizontal (value) axis caption: one italic line under the bars,
//! centered on the plot width.

use crate::boxes::box_wf;
use crate::cmd::{cmds_view, lemma_cmds_view_push, owned_str, CmdView, DrawCmd};
use crate::font::{spec_font_height, FontMetrics};
use crate::geom::{spec_sat_sub, Layout, Margins, Rect, Size};
use vstd::prelude::*;

verus! {

/// The value-axis caption block.  Its width is forced by the
/// orchestrator to the plot width after the bars are measured.
#[derive(Clone, Debug, PartialEq, Eq)]
pub struct HAxisLayout {
    pub lay: Layout,
    pub title: String,
    pub title_width: u32,
}

/// What the caption block draws: the text in italics centered on the
/// block, and in debug mode the block's outline.
pub open spec fn spec_haxis_draw(h: HAxisLayout, fm: FontMetrics, x: int, y: int) -> Seq<CmdView> {
    let fh = spec_font_height(fm.size as nat);
    let tx = x + spec_sat_sub(h.lay.size.w as int, h.title_width as int) / 2;
    let base = seq![
        CmdView::Text {
            text: h.title@,
            x: tx as u32,
            y: (y + fh) as u32,
            family: fm.family@,
            size: fh as u32,
            fill: None,
            bold: false,
            italic: true,
        },
    ];
    if h.lay.debug {
        base + seq![
            CmdView::Rect {
                x: x as u32,
                y: y as u32,
                w: h.lay.size.w,
                h: h.lay.size.h,
                fill: None,
                stroke: Some("green"@),
            },
        ]
    } else {
        base
    }
}

impl HAxisLayout {
    /// An unmeasured caption block.
    pub fn new(title: &str) -> (r: HAxisLayout)
        ensures
            r.title@ == title@,
            r.title_width == 0,
            r.lay == (Layout {
                size: Size { w: 0, h: 0 },
                margins: Margins { left: 0, top: 0, right: 0, bottom: 0 },
                debug: false,
            }),
    {
        HAxisLayout {
            lay: Layout {
                size: Size { w: 0, h: 0 },
                margins: Margins { left: 0, top: 0, right: 0, bottom: 0 },
                debug: false,
            },
            title: owned_str(title),
            title_width: 0,
        }
    }

    /// Measure: one line of height; the width comes later from the
    /// orchestrator.
    pub fn calc_layout(&mut self, fm: &FontMetrics, bbox: &Rect)
        requires
            fm.wf(),
            box_wf(*bbox),
        ensures
            final(self).lay.size.h == fm.full_height,
            final(self).lay.size.w == old(self).lay.size.w,
            final(self).title_width == bbox.w,
            final(self).title_width <= 0xFFFF,
            final(self).lay.margins == old(self).lay.margins,
            final(self).lay.debug == old(self).lay.debug,
            final(self).title == old(self).title,
            final(self).lay.size.h <= 0xFFFF,
    {
        self.lay.size.h = fm.full_height;
        self.title_width = bbox.w;
    }

    /// Render: append the caption's commands, exactly the model
    /// sequence.
    pub fn draw_layout(&self, fm: &FontMetrics, x: u32, y: u32, out: &mut Vec<DrawCmd>)
        requires
            fm.wf(),
            x <= 0x4100_0000,
            y <= 0xA100_0000,
            self.lay.size.w <= 0x4000_0000,
            self.lay.size.h <= 0xFFFF,
        ensures
            cmds_view(final(out)@) == cmds_view(old(out)@) + spec_haxis_draw(
                *self,
                *fm,
                x as int,
                y as int,
            ),
    {
        let ghost base = cmds_view(out@);
        let fh: u32 = fm.height();
        let spread: u32 = if self.lay.size.w >= self.title_width {
            self.lay.size.w - self.title_width
        } else {
            0
        };
        let tx: u32 = x + spread / 2;
        let text = DrawCmd::Text {
            text: self.title.clone(),
            x: tx,
            y: y + fh,
            family: owned_str(fm.family()),
            size: fh,
            fill: None,
            bold: false,
            italic: true,
        };
        proof {
            lemma_cmds_view_push(out@, text);
        }
        out.push(text);
        if self.lay.debug {
            let dbg = DrawCmd::Rect {
                x,
                y,
                w: self.lay.size.w,
                h: self.lay.size.h,
                fill: None,
                stroke: Some(owned_str("green")),
            };
            proof {
                lemma_cmds_view_push(out@, dbg);
            }
            out.push(dbg);
        }
        proof {
            assert(cmds_view(out@) =~= base + spec_haxis_draw(*self, *fm, x as int, y as int));
        }
    }
}

} // verus!
