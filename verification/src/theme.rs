//! Presentation theme values that the content pipeline reads: block
//! alignment, margins, code block padding, and the color sets used by
//! execution output blocks.

use vstd::prelude::*;

use crate::style::Colors;

verus! {

/// A horizontal margin.
#[derive(Clone, Copy, Debug, PartialEq, Eq, Structural)]
pub enum Margin {
    /// A fixed number of columns.
    Fixed(u16),
    /// A percentage of the window width.
    Percent(u16),
}

impl Margin {
    /// True when the margin adds no space.
    pub fn is_empty(&self) -> (r: bool)
        ensures
            r == self.is_empty_spec(),
    {
        match self {
            Margin::Fixed(n) => *n == 0,
            Margin::Percent(n) => *n == 0,
        }
    }

    /// True when the margin adds no space.
    pub open spec fn is_empty_spec(self) -> bool {
        match self {
            Margin::Fixed(n) => n == 0,
            Margin::Percent(n) => n == 0,
        }
    }
}

/// How a block is aligned inside the window.
#[derive(Clone, Copy, Debug, PartialEq, Eq, Structural)]
pub enum Alignment {
    Left { margin: Margin },
    Right { margin: Margin },
    Center { minimum_margin: Margin, minimum_size: u16 },
}

impl Alignment {
    /// True when the alignment reserves space around the block.
    pub fn has_margin(&self) -> (r: bool)
        ensures
            r == self.has_margin_spec(),
    {
        match self {
            Alignment::Left { margin } => !margin.is_empty(),
            Alignment::Right { margin } => !margin.is_empty(),
            Alignment::Center { minimum_margin, minimum_size } => !minimum_margin.is_empty()
                || *minimum_size != 0,
        }
    }

    /// True when the alignment reserves space around the block.
    pub open spec fn has_margin_spec(self) -> bool {
        match self {
            Alignment::Left { margin } => !margin.is_empty_spec(),
            Alignment::Right { margin } => !margin.is_empty_spec(),
            Alignment::Center { minimum_margin, minimum_size } => !minimum_margin.is_empty_spec()
                || minimum_size != 0,
        }
    }
}

impl Default for Alignment {
    /// Left alignment without a margin.
    fn default() -> (r: Self)
        ensures
            r == (Alignment::Left { margin: Margin::Fixed(0) }),
    {
        Alignment::Left { margin: Margin::Fixed(0) }
    }
}

/// Padding around the lines of a code block.
#[derive(Clone, Copy, Debug, PartialEq, Eq, Structural)]
pub struct PaddingRect {
    pub horizontal: Option<u8>,
    pub vertical: Option<u8>,
}

/// How code blocks are drawn.
#[derive(Clone, Copy, Debug, PartialEq, Eq, Structural)]
pub struct CodeBlockStyle {
    pub padding: PaddingRect,
}

/// The parts of a presentation theme that code block preparation reads.
#[derive(Clone, Copy, Debug, PartialEq, Eq, Structural)]
pub struct PresentationTheme {
    pub code: CodeBlockStyle,
}

impl Default for PresentationTheme {
    /// A theme without padding around code blocks.
    fn default() -> (r: Self)
        ensures
            r == (PresentationTheme {
                code: CodeBlockStyle { padding: PaddingRect { horizontal: None, vertical: None } },
            }),
    {
        PresentationTheme {
            code: CodeBlockStyle { padding: PaddingRect { horizontal: None, vertical: None } },
        }
    }
}

/// The colors of the status line of an execution block, one per status.
#[derive(Clone, Copy, Debug, PartialEq, Eq, Structural)]
pub struct ExecutionStatusBlockStyle {
    pub not_started: Colors,
    pub running: Colors,
    pub success: Colors,
    pub failure: Colors,
}

/// How the output block of an executed snippet is drawn.
#[derive(Clone, Copy, Debug, PartialEq, Eq, Structural)]
pub struct ExecutionOutputBlockStyle {
    pub colors: Colors,
    pub status: ExecutionStatusBlockStyle,
}

} // verus!
