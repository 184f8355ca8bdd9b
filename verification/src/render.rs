//! Render operations: the atomic instructions a frame is made of, and the
//! window geometry they are laid out against.

use vstd::prelude::*;

use crate::separator::RenderSeparator;
use crate::style::{Colors, Line, Text};
use crate::theme::Alignment;

verus! {

/// The size of the terminal window, in character cells.
#[derive(Clone, Copy, Debug, PartialEq, Eq, Structural)]
pub struct WindowSize {
    pub rows: u16,
    pub columns: u16,
}

/// A line drawn inside an aligned block, with an optional prefix that is
/// not part of the block's background.
#[derive(Clone, Debug, PartialEq, Eq)]
pub struct BlockLine {
    pub prefix: Text,
    pub right_padding_length: u16,
    pub repeat_prefix_on_wrap: bool,
    pub text: Line,
    pub block_length: u16,
    pub alignment: Alignment,
    pub block_color: Option<crate::style::Color>,
}

/// One atomic instruction describing part of a rendered frame.
///
/// The set of operation kinds is closed: dynamic content re-renders through
/// the [`RenderSeparator`] variant and the operation state machines of the
/// execution module, which recompute their operations per frame.
#[derive(Clone, Debug, PartialEq, Eq)]
pub enum RenderOperation {
    /// Advance to the next line.
    RenderLineBreak,
    /// Draw a line of text with an alignment.
    RenderText { line: Line, alignment: Alignment },
    /// Draw a line inside an aligned block.
    RenderBlockLine(BlockLine),
    /// Set the colors used from here on.
    SetColors(Colors),
    /// Draw content that is recomputed against the window size per frame.
    RenderDynamic(RenderSeparator),
}

/// The length available to a centered block of the given width: the block
/// shrinks to the window when the window is narrower.
pub fn centered_max_line_length(dimensions: &WindowSize, width: u16) -> (r: u16)
    ensures
        r == if width <= dimensions.columns {
            width as int
        } else {
            dimensions.columns as int
        },
{
    if width <= dimensions.columns {
        width
    } else {
        dimensions.columns
    }
}

} // verus!
