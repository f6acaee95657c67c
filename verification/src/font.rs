//! Font metrics as data.
//!
//! The engine does not shape text itself: a caller measures strings with
//! a real font and hands the resulting bounding boxes in.  What lives
//! here is the numeric part: the pixel height derived from the point
//! size, and the fold that turns per-glyph pixel boxes into one text
//! bounding box.

use crate::geom::Rect;
use vstd::math::{max, min};
use vstd::prelude::*;

verus! {

/// A font resolved on the system: family, point size, file path.
#[derive(Clone, Debug, PartialEq, Eq)]
pub struct FontData {
    pub family: String,
    pub size: u8,
    pub path: String,
}

/// The pixel height of a font of the given point size, at 90 dpi.
pub open spec fn spec_font_height(size: nat) -> nat {
    (size * 13333 + 5000) / 10000
}

/// The metrics the layout engine reads: the font's family name, its
/// point size, and the full line height measured from the font file.
#[derive(Clone, Debug, PartialEq, Eq)]
pub struct FontMetrics {
    pub family: String,
    pub size: u8,
    pub full_height: u32,
}

impl FontMetrics {
    /// Sizes small enough that every derived coordinate stays in range,
    /// and large enough that annotation insets are at least one pixel.
    pub open spec fn wf(self) -> bool {
        &&& self.size >= 3
        &&& self.full_height <= 0xFFFF
    }

    /// Metrics from a family name, a point size and a measured line
    /// height; `None` when they are out of the engine's range.
    pub fn new(family: String, size: u8, full_height: u32) -> (r: Option<FontMetrics>)
        ensures
            match r {
                Some(fm) => {
                    &&& fm.wf()
                    &&& fm == (FontMetrics { family: fm.family, size, full_height })
                    &&& fm.family@ == family@
                },
                None => size < 3 || full_height > 0xFFFF,
            },
    {
        if size < 3 || full_height > 0xFFFF {
            None
        } else {
            Some(FontMetrics { family, size, full_height })
        }
    }

    /// The font's family name.
    pub fn family(&self) -> (r: &str)
        ensures
            r@ == self.family@,
    {
        self.family.as_str()
    }

    /// The full line height of the font.
    pub fn full_height(&self) -> (r: u32)
        ensures
            r == self.full_height,
    {
        self.full_height
    }

    /// The pixel height of the font at 90 dpi.
    pub fn height(&self) -> (r: u32)
        ensures
            r == spec_font_height(self.size as nat),
            r <= 341,
            self.size >= 3 ==> r >= 4,
    {
        (self.size as u32 * 13333 + 5000) / 10000
    }

    /// The point size.
    pub fn font_size(&self) -> (r: u8)
        ensures
            r == self.size,
    {
        self.size
    }
}

/// The pixel bounding box of one laid-out glyph; `min` is the top-left
/// corner, `max` the bottom-right.
#[derive(Clone, Copy, Debug, PartialEq, Eq, Structural)]
pub struct GlyphBox {
    pub min_x: i32,
    pub min_y: i32,
    pub max_x: i32,
    pub max_y: i32,
}

/// Every coordinate of every box is within a sane pixel range.
pub open spec fn glyphs_wf(s: Seq<Option<GlyphBox>>) -> bool {
    forall|i: int|
        0 <= i < s.len() ==> match #[trigger] s[i] {
            Some(b) => {
                &&& -1_000_000 <= b.min_x <= 1_000_000
                &&& -1_000_000 <= b.min_y <= 1_000_000
                &&& -1_000_000 <= b.max_x <= 1_000_000
                &&& -1_000_000 <= b.max_y <= 1_000_000
            },
            None => true,
        }
}

/// The fold over glyph boxes: the running `(w, h, min_y, last_w)` state,
/// where glyphs without a box are skipped.
pub open spec fn spec_glyph_fold(s: Seq<Option<GlyphBox>>) -> (int, int, int, int)
    decreases s.len(),
{
    if s.len() == 0 {
        (0, 0, 0, 0)
    } else {
        let (w, h, my, lw) = spec_glyph_fold(s.drop_last());
        match s.last() {
            Some(b) => (
                b.min_x as int,
                max(h, b.max_y + (b.max_y - b.min_y)),
                min(my, -(b.max_y as int)),
                b.max_x - b.min_x,
            ),
            None => (w, h, my, lw),
        }
    }
}

/// The width grown by the hinting allowance, clamped into `u32`.
pub open spec fn spec_hinted_width(t: int) -> int {
    if t <= 0 {
        0
    } else if t * 28 / 25 > u32::MAX {
        u32::MAX as int
    } else {
        t * 28 / 25
    }
}

/// The text bounding box from the glyph boxes of one laid-out string:
/// the fold above, with the width widened by the hinting allowance.
pub open spec fn spec_bbox_from_glyphs(s: Seq<Option<GlyphBox>>) -> Rect {
    let (w, h, my, lw) = spec_glyph_fold(s);
    Rect { x: 0, y: my as i32, w: spec_hinted_width(w + lw) as u32, h: h as u32 }
}

/// Fold the glyph boxes of one string into its text bounding box.
pub fn bbox_from_glyphs(glyphs: &Vec<Option<GlyphBox>>) -> (r: Rect)
    requires
        glyphs_wf(glyphs@),
    ensures
        r == spec_bbox_from_glyphs(glyphs@),
{
    let mut w: i64 = 0;
    let mut h: i64 = 0;
    let mut my: i64 = 0;
    let mut lw: i64 = 0;
    let mut i: usize = 0;
    while i < glyphs.len()
        invariant
            glyphs_wf(glyphs@),
            i <= glyphs@.len(),
            (w as int, h as int, my as int, lw as int) == spec_glyph_fold(
                glyphs@.subrange(0, i as int),
            ),
            -1_000_000 <= w <= 1_000_000,
            0 <= h <= 4_000_000,
            -1_000_000 <= my <= 0,
            -2_000_000 <= lw <= 2_000_000,
        decreases glyphs@.len() - i,
    {
        proof {
            assert(glyphs@.subrange(0, i + 1).drop_last() =~= glyphs@.subrange(0, i as int));
            assert(glyphs@.subrange(0, i + 1).last() == glyphs@[i as int]);
        }
        match glyphs[i] {
            Some(b) => {
                lw = b.max_x as i64 - b.min_x as i64;
                let reach: i64 = b.max_y as i64 + (b.max_y as i64 - b.min_y as i64);
                if reach > h {
                    h = reach;
                }
                let neg_max: i64 = -(b.max_y as i64);
                if neg_max < my {
                    my = neg_max;
                }
                w = b.min_x as i64;
            },
            None => {},
        }
        i = i + 1;
    }
    proof {
        assert(glyphs@.subrange(0, glyphs@.len() as int) =~= glyphs@);
    }
    let t: i64 = w + lw;
    let wide: u32 = if t <= 0 {
        0u32
    } else {
        // the hinted width always fits: t is at most three million
        ((t * 28) / 25) as u32
    };
    Rect { x: 0, y: my as i32, w: wide, h: h as u32 }
}

} // verus!
