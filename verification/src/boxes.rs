//! The measured text boxes the engine consumes.
//!
//! The engine itself never shapes text.  It first lists the strings a
//! chart needs measured (`ChartTexts`); the caller measures each with
//! its font and returns the bounding boxes in the same shape
//! (`ChartBoxes`); the layout passes then work from those boxes alone.

use crate::config::Config;
use crate::geom::Rect;
use vstd::prelude::*;

verus! {

/// The strings whose bounding boxes the layout needs, grouped the way
/// the layout reads them.
#[derive(Clone, Debug, PartialEq, Eq)]
pub struct ChartTexts {
    /// One label per tick, suffix included.
    pub tick_labels: Vec<String>,
    /// The label of the zero tick, suffix included.
    pub zero_label: String,
    /// The label of the axis ceiling, suffix included.
    pub max_label: String,
    /// One printed value per item.
    pub annotations: Vec<String>,
    /// One name per item.
    pub names: Vec<String>,
    /// The chart title, when there is one.
    pub title: Option<String>,
    /// The value-axis caption, when there is one.
    pub haxis_title: Option<String>,
}

/// How many ticks a chart has: an explicit list's length, else five.
pub open spec fn spec_tick_count(c: Config) -> nat {
    match c.hor_axis {
        Some(ha) => match ha.ticks {
            Some(ts) => ts@.len(),
            None => 5,
        },
        None => 5,
    }
}

/// A box small enough for the layout arithmetic.
pub open spec fn box_wf(r: Rect) -> bool {
    r.w <= 0xFFFF && r.h <= 0xFFFF
}

/// The bounding boxes of the strings in `ChartTexts`, one for one.
#[derive(Clone, Debug, PartialEq, Eq)]
pub struct ChartBoxes {
    pub tick_boxes: Vec<Rect>,
    pub zero_box: Rect,
    pub max_box: Rect,
    pub annotation_boxes: Vec<Rect>,
    pub name_boxes: Vec<Rect>,
    pub title_box: Option<Rect>,
    pub haxis_title_box: Option<Rect>,
}

impl ChartBoxes {
    /// Every box is within the range the layout arithmetic needs.
    pub open spec fn wf(self) -> bool {
        &&& forall|i: int| 0 <= i < self.tick_boxes@.len() ==> box_wf(#[trigger] self.tick_boxes@[i])
        &&& box_wf(self.zero_box)
        &&& box_wf(self.max_box)
        &&& forall|i: int|
            0 <= i < self.annotation_boxes@.len() ==> box_wf(#[trigger] self.annotation_boxes@[i])
        &&& forall|i: int| 0 <= i < self.name_boxes@.len() ==> box_wf(#[trigger] self.name_boxes@[i])
        &&& match self.title_box {
            Some(b) => box_wf(b),
            None => true,
        }
        &&& match self.haxis_title_box {
            Some(b) => box_wf(b),
            None => true,
        }
    }

    /// The boxes line up with the chart: one per tick, one per item, and
    /// a title box exactly where there is a title.
    pub open spec fn matches(self, c: Config) -> bool {
        &&& self.tick_boxes@.len() == spec_tick_count(c)
        &&& self.annotation_boxes@.len() == c.items@.len()
        &&& self.name_boxes@.len() == c.items@.len()
        &&& self.title_box.is_some() <==> c.title.is_some()
        &&& self.haxis_title_box.is_some() <==> match c.hor_axis {
            Some(ha) => ha.title.is_some(),
            None => false,
        }
    }

    /// Check `wf` and `matches` at run time, for callers outside
    /// verified code.
    pub fn valid(&self, c: &Config) -> (r: bool)
        ensures
            r == (self.wf() && self.matches(*c)),
    {
        if !(box_wf_exec(&self.zero_box) && box_wf_exec(&self.max_box)) {
            return false;
        }
        if !all_boxes_wf(&self.tick_boxes) || !all_boxes_wf(&self.annotation_boxes)
            || !all_boxes_wf(&self.name_boxes) {
            return false;
        }
        match &self.title_box {
            Some(b) => {
                if !box_wf_exec(b) {
                    return false;
                }
            },
            None => {},
        }
        match &self.haxis_title_box {
            Some(b) => {
                if !box_wf_exec(b) {
                    return false;
                }
            },
            None => {},
        }
        let tick_count: usize = match &c.hor_axis {
            Some(ha) => match &ha.ticks {
                Some(ts) => ts.len(),
                None => 5,
            },
            None => 5,
        };
        if self.tick_boxes.len() != tick_count {
            return false;
        }
        if self.annotation_boxes.len() != c.items.len() || self.name_boxes.len() != c.items.len() {
            return false;
        }
        if self.title_box.is_some() != c.title.is_some() {
            return false;
        }
        let has_haxis_title: bool = match &c.hor_axis {
            Some(ha) => ha.title.is_some(),
            None => false,
        };
        if self.haxis_title_box.is_some() != has_haxis_title {
            return false;
        }
        true
    }
}

/// Check one box's bounds at run time.
fn box_wf_exec(r: &Rect) -> (b: bool)
    ensures
        b == box_wf(*r),
{
    r.w <= 0xFFFF && r.h <= 0xFFFF
}

/// Check every box of a list at run time.
fn all_boxes_wf(v: &Vec<Rect>) -> (b: bool)
    ensures
        b == (forall|i: int| 0 <= i < v@.len() ==> box_wf(#[trigger] v@[i])),
{
    let mut i: usize = 0;
    while i < v.len()
        invariant
            i <= v@.len(),
            forall|j: int| 0 <= j < i ==> box_wf(#[trigger] v@[j]),
        decreases v@.len() - i,
    {
        if !box_wf_exec(&v[i]) {
            return false;
        }
        i = i + 1;
    }
    true
}

/// An element-by-element copy of a list of plain values.
pub(crate) fn copy_vec<T: Copy>(v: &Vec<T>) -> (r: Vec<T>)
    ensures
        r@ == v@,
{
    let mut out: Vec<T> = Vec::new();
    let mut i: usize = 0;
    while i < v.len()
        invariant
            i <= v@.len(),
            out@ == v@.subrange(0, i as int),
        decreases v@.len() - i,
    {
        out.push(v[i]);
        proof {
            assert(out@ =~= v@.subrange(0, i + 1));
        }
        i = i + 1;
    }
    proof {
        assert(out@ =~= v@);
    }
    out
}

} // verus!
