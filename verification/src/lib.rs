//! Core of a terminal presentation renderer: the asynchronous content
//! pipeline by which a slide can contain content that is produced over time,
//! principally the output of an executed code snippet.
//!
//! The crate models snippets and their attributes, parses code block info
//! strings, splits incrementally captured process output into styled lines
//! while carrying open ANSI styles across chunk boundaries, and drives the
//! render-operation state machines that fold that output into the render
//! stream without blocking the interactive loop.

use vstd::prelude::*;

pub mod ansi;
pub mod code;
pub mod execute;
pub mod execution;
pub mod input;
pub mod render;
pub mod separator;
pub mod strutil;
pub mod style;
pub mod theme;

verus! {

/// The lifecycle of a render operation whose content arrives over time.
///
/// The ordering is `NotStarted < Rendering < JustFinishedRendering <
/// Rendered`; a poll never moves backwards in this order, the only
/// transition out of `JustFinishedRendering` is into `Rendered`, and no
/// transition leaves `Rendered`.
#[derive(Clone, Copy, Debug, PartialEq, Eq, Structural)]
pub enum RenderAsyncState {
    /// `start` has not been called yet.
    NotStarted,
    /// Output is still being produced; `modified` says whether new content
    /// arrived since the previous poll.
    Rendering { modified: bool },
    /// The underlying producer was just observed finished; the next poll
    /// settles to `Rendered`.
    JustFinishedRendering,
    /// Terminal state: all content has been captured.
    Rendered,
}

impl RenderAsyncState {
    /// Position of a state in the lifecycle order.
    pub open spec fn rank(self) -> int {
        match self {
            RenderAsyncState::NotStarted => 0,
            RenderAsyncState::Rendering { .. } => 1,
            RenderAsyncState::JustFinishedRendering => 2,
            RenderAsyncState::Rendered => 3,
        }
    }
}

} // verus!
