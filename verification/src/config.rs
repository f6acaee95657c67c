//! The chart description the engine consumes, and the errors it reports.
//!
//! A `Config` arrives fully parsed: items with a name, a non-negative
//! decimal value and a color, plus optional title and axis options.  The
//! engine itself re-checks the invariants it depends on and reports a
//! distinct error for each way an input is unusable.

use crate::font::FontData;
use crate::num::Dec;
use vstd::prelude::*;

verus! {

/// Most entries a chart may have.
pub const MAX_ITEMS: usize = 0x20_0000;

/// Longest explicit tick list an axis may carry.
pub const MAX_TICKS: usize = 1024;

/// Widest plot area, in pixels, an axis may ask for.
pub const MAX_PLOT_W: u32 = 0x4000_0000;

/// One bar: its label, its value and its fill color.
#[derive(Clone, Debug, PartialEq, Eq)]
pub struct Item {
    pub name: String,
    pub value: Dec,
    pub color: String,
}

/// Options for the horizontal (value) axis.
#[derive(Clone, Debug, PartialEq, Eq)]
pub struct HorAxis {
    pub title: Option<String>,
    pub suffix: Option<String>,
    pub max_value: Option<Dec>,
    pub ticks: Option<Vec<Dec>>,
    pub width: Option<u32>,
}

impl Default for HorAxis {
    /// No axis options at all.
    fn default() -> (r: HorAxis)
        ensures
            r.title.is_none(),
            r.suffix.is_none(),
            r.max_value.is_none(),
            r.ticks.is_none(),
            r.width.is_none(),
    {
        HorAxis { title: None, suffix: None, max_value: None, ticks: None, width: None }
    }
}

impl HorAxis {
    /// Every numeric option is within the engine's range.
    pub open spec fn wf(self) -> bool {
        &&& match self.max_value {
            Some(mv) => mv.in_range(),
            None => true,
        }
        &&& match self.ticks {
            Some(ts) => ts@.len() <= MAX_TICKS && forall|i: int|
                0 <= i < ts@.len() ==> (#[trigger] ts@[i]).in_range(),
            None => true,
        }
        &&& match self.width {
            Some(w) => w <= MAX_PLOT_W,
            None => true,
        }
    }
}

/// A full chart description.
#[derive(Clone, Debug, PartialEq, Eq)]
pub struct Config {
    pub title: Option<String>,
    pub items: Vec<Item>,
    pub debug: bool,
    pub items_font: FontData,
    pub hor_axis: Option<HorAxis>,
}

impl Config {
    /// Every value is within the engine's range and the collection sizes
    /// fit the machine limits the geometry needs.
    pub open spec fn wf(self) -> bool {
        &&& self.items@.len() <= MAX_ITEMS
        &&& forall|i: int| 0 <= i < self.items@.len() ==> (#[trigger] self.items@[i]).value.in_range()
        &&& match self.hor_axis {
            Some(ha) => ha.wf(),
            None => true,
        }
    }

    /// Check `wf` at run time, for callers outside verified code.
    pub fn valid(&self) -> (r: bool)
        ensures
            r == self.wf(),
    {
        if self.items.len() > MAX_ITEMS {
            return false;
        }
        let mut i: usize = 0;
        while i < self.items.len()
            invariant
                i <= self.items@.len(),
                forall|j: int| 0 <= j < i ==> (#[trigger] self.items@[j]).value.in_range(),
            decreases self.items@.len() - i,
        {
            if !self.items[i].value.check_in_range() {
                return false;
            }
            i = i + 1;
        }
        match &self.hor_axis {
            None => true,
            Some(ha) => {
                match &ha.max_value {
                    Some(mv) => {
                        if !mv.check_in_range() {
                            return false;
                        }
                    },
                    None => {},
                }
                match &ha.ticks {
                    Some(ts) => {
                        if ts.len() > MAX_TICKS {
                            return false;
                        }
                        let mut i: usize = 0;
                        while i < ts.len()
                            invariant
                                self.hor_axis == Some(*ha),
                                ha.ticks == Some(*ts),
                                i <= ts@.len(),
                                forall|j: int| 0 <= j < i ==> (#[trigger] ts@[j]).in_range(),
                            decreases ts@.len() - i,
                        {
                            if !ts[i].check_in_range() {
                                proof {
                                    assert(!ha.wf());
                                }
                                return false;
                            }
                            i = i + 1;
                        }
                    },
                    None => {},
                }
                match &ha.width {
                    Some(w) => *w <= MAX_PLOT_W,
                    None => true,
                }
            },
        }
    }
}

/// What can be wrong with a chart description.
#[derive(Clone, Copy, Debug, PartialEq, Eq)]
pub enum Error {
    /// The item list is missing or empty.
    ItemsIsNotSet,
    /// An item has no name.
    ItemNameIsNotSet,
    /// An item has no value.
    ItemValueIsNotSet,
    /// An item value is negative.
    VelueMustBePositive,
    /// The configured font family cannot be resolved to a file.
    CouldNotResolveFontPath,
    /// A field has the wrong type: value path, expected type.
    InvalidValueType(&'static str, &'static str),
    /// The axis ceiling is zero or negative, so no scale can be
    /// computed.
    ZeroMaxValue,
    /// The requested plot width leaves no room for the axis labels.
    PlotTooNarrow,
}

} // verus!
