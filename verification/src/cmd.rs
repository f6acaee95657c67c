//! Drawing commands.
//!
//! The render pass emits a flat list of primitives; a backend serializes
//! them into a vector-graphics file.  Commands carry their final
//! attributes, so a command list fully determines the picture.

use vstd::prelude::*;

verus! {

/// One drawing primitive with its attributes.
#[derive(Clone, Debug, PartialEq, Eq)]
pub enum DrawCmd {
    /// A rectangle; without a fill it is drawn hollow ("none").
    Rect { x: u32, y: u32, w: u32, h: u32, fill: Option<String>, stroke: Option<String> },
    /// A run of text in the given family and pixel size.
    Text {
        text: String,
        x: u32,
        y: u32,
        family: String,
        size: u32,
        fill: Option<String>,
        bold: bool,
        italic: bool,
    },
    /// A one-pixel-high horizontal line of the given length.
    HLine { x: u32, y: u32, len: u32, fill: Option<String> },
    /// A one-pixel-wide vertical line of the given length.
    VLine { x: u32, y: u32, len: u32, fill: Option<String> },
}

/// The mathematical value of a command: the same shape with every string
/// replaced by its character sequence.
pub enum CmdView {
    Rect { x: u32, y: u32, w: u32, h: u32, fill: Option<Seq<char>>, stroke: Option<Seq<char>> },
    Text {
        text: Seq<char>,
        x: u32,
        y: u32,
        family: Seq<char>,
        size: u32,
        fill: Option<Seq<char>>,
        bold: bool,
        italic: bool,
    },
    HLine { x: u32, y: u32, len: u32, fill: Option<Seq<char>> },
    VLine { x: u32, y: u32, len: u32, fill: Option<Seq<char>> },
}

/// The character sequence of an optional string.
pub open spec fn opt_chars(o: Option<String>) -> Option<Seq<char>> {
    match o {
        Some(s) => Some(s@),
        None => None,
    }
}

impl View for DrawCmd {
    type V = CmdView;

    open spec fn view(&self) -> CmdView {
        match *self {
            DrawCmd::Rect { x, y, w, h, fill, stroke } => CmdView::Rect {
                x,
                y,
                w,
                h,
                fill: opt_chars(fill),
                stroke: opt_chars(stroke),
            },
            DrawCmd::Text { text, x, y, family, size, fill, bold, italic } => CmdView::Text {
                text: text@,
                x,
                y,
                family: family@,
                size,
                fill: opt_chars(fill),
                bold,
                italic,
            },
            DrawCmd::HLine { x, y, len, fill } => CmdView::HLine { x, y, len, fill: opt_chars(fill) },
            DrawCmd::VLine { x, y, len, fill } => CmdView::VLine { x, y, len, fill: opt_chars(fill) },
        }
    }
}

/// The values of a command list, in order.
pub open spec fn cmds_view(s: Seq<DrawCmd>) -> Seq<CmdView> {
    s.map_values(|c: DrawCmd| c@)
}

/// The values of a list grow by one value per pushed command.
pub proof fn lemma_cmds_view_push(s: Seq<DrawCmd>, c: DrawCmd)
    ensures
        cmds_view(s.push(c)) == cmds_view(s).push(c@),
{
    assert(cmds_view(s.push(c)) =~= cmds_view(s).push(c@));
}

/// An owned copy of a string slice.
pub(crate) fn owned_str(s: &str) -> (r: String)
    ensures
        r@ == s@,
{
    s.to_owned()
}

} // verus!
