//! A horizontal bar chart layout engine.
//!
//! The engine turns a chart description (items with names, values and
//! colors, plus optional axis options) into a flat list of drawing
//! commands for a vector-graphics backend.  Values are exact decimal
//! numbers, geometry is integral, and every computation is specified
//! and proved: the nice-maximum axis ceiling, tick generation, bar and
//! annotation placement, and the composition of the title, axis and
//! plot blocks into one canvas.
//!
//! Text measurement and the final serialization are capabilities of the
//! caller: the engine reports which strings it needs measured, consumes
//! the resulting bounding boxes, and emits plain drawing commands.

pub mod bars;
pub mod boxes;
pub mod cmd;
pub mod config;
pub mod font;
pub mod geom;
pub mod haxis;
pub mod laws;
pub mod num;
pub mod main_layout;
pub mod scale;
pub mod text;
pub mod title;
pub mod vaxis;
