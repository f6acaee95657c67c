//! The chart title block: one bold line of text above the bars.

use crate::boxes::box_wf;
use crate::cmd::{cmds_view, lemma_cmds_view_push, owned_str, CmdView, DrawCmd};
use crate::font::{spec_font_height, FontMetrics};
use crate::geom::{Layout, Margins, Rect, Size};
use vstd::prelude::*;

verus! {

/// The title block.
#[derive(Clone, Debug, PartialEq, Eq)]
pub struct TitleLayout {
    pub lay: Layout,
    pub title: String,
}

/// What the title block draws: the text in bold, and in debug mode the
/// block's outline.
pub open spec fn spec_title_draw(t: TitleLayout, fm: FontMetrics, x: int, y: int) -> Seq<CmdView> {
    let fh = spec_font_height(fm.size as nat);
    let base = seq![
        CmdView::Text {
            text: t.title@,
            x: x as u32,
            y: (y + fh) as u32,
            family: fm.family@,
            size: fh as u32,
            fill: None,
            bold: true,
            italic: false,
        },
    ];
    if t.lay.debug {
        base + seq![
            CmdView::Rect {
                x: x as u32,
                y: y as u32,
                w: t.lay.size.w,
                h: t.lay.size.h,
                fill: None,
                stroke: Some("green"@),
            },
        ]
    } else {
        base
    }
}

impl TitleLayout {
    /// An unmeasured title block.
    pub fn new(title: &str) -> (r: TitleLayout)
        ensures
            r.title@ == title@,
            r.lay == (Layout {
                size: Size { w: 0, h: 0 },
                margins: Margins { left: 0, top: 0, right: 0, bottom: 0 },
                debug: false,
            }),
    {
        TitleLayout {
            lay: Layout {
                size: Size { w: 0, h: 0 },
                margins: Margins { left: 0, top: 0, right: 0, bottom: 0 },
                debug: false,
            },
            title: owned_str(title),
        }
    }

    /// Measure: the title's own width, one full line of height.
    pub fn calc_layout(&mut self, fm: &FontMetrics, bbox: &Rect)
        requires
            fm.wf(),
            box_wf(*bbox),
        ensures
            final(self).lay.size.w == bbox.w,
            final(self).lay.size.h == fm.full_height,
            final(self).lay.margins == old(self).lay.margins,
            final(self).lay.debug == old(self).lay.debug,
            final(self).title == old(self).title,
            final(self).lay.size.w <= 0xFFFF,
            final(self).lay.size.h <= 0xFFFF,
    {
        self.lay.size.w = bbox.w;
        self.lay.size.h = fm.full_height;
    }

    /// Render: append the title's commands, exactly the model sequence.
    pub fn draw_layout(&self, fm: &FontMetrics, x: u32, y: u32, out: &mut Vec<DrawCmd>)
        requires
            fm.wf(),
            x <= 0x4100_0000,
            y <= 0x4100_0000,
            self.lay.size.w <= 0xFFFF,
            self.lay.size.h <= 0xFFFF,
        ensures
            cmds_view(final(out)@) == cmds_view(old(out)@) + spec_title_draw(
                *self,
                *fm,
                x as int,
                y as int,
            ),
    {
        let ghost base = cmds_view(out@);
        let fh: u32 = fm.height();
        let text = DrawCmd::Text {
            text: self.title.clone(),
            x,
            y: y + fh,
            family: owned_str(fm.family()),
            size: fh,
            fill: None,
            bold: true,
            italic: false,
        };
        proof {
            lemma_cmds_view_push(out@, text);
        }
        out.push(text);
        if self.lay.debug {
            let dbg = DrawCmd::Rect {
                x,
                y,
                w: self.lay.size.w,
                h: self.lay.size.h,
                fill: None,
                stroke: Some(owned_str("green")),
            };
            proof {
                lemma_cmds_view_push(out@, dbg);
            }
            out.push(dbg);
        }
        proof {
            assert(cmds_view(out@) =~= base + spec_title_draw(*self, *fm, x as int, y as int));
        }
    }
}

} // verus!
