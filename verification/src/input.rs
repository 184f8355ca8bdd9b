//! Commands driving the presentation, and the multiplexer decision that
//! merges the external navigation channel with local input.

use vstd::prelude::*;

verus! {

/// A command: a single directive driving presentation state transitions.
#[derive(Clone, Copy, Debug, PartialEq, Eq, Structural)]
pub enum Command {
    /// Redraw the presentation, for example on terminal resize.
    Redraw,
    /// Move forward in the presentation.
    Next,
    /// Move to the next slide fast.
    NextFast,
    /// Move backwards in the presentation.
    Previous,
    /// Move to the previous slide fast.
    PreviousFast,
    /// Go to the first slide.
    FirstSlide,
    /// Go to the last slide.
    LastSlide,
    /// Go to one particular slide.
    GoToSlide(u32),
    /// Render any async render operations in the current slide.
    RenderAsyncOperations,
    /// Exit the presentation.
    Exit,
    /// Suspend the presentation.
    Suspend,
    /// The presentation has changed and needs to be reloaded.
    Reload,
    /// Like `Reload`, but also reloads external resources.
    HardReload,
    /// Toggle the slide index view.
    ToggleSlideIndex,
    /// Toggle the key bindings config view.
    ToggleKeyBindingsConfig,
    /// Hide the currently open modal, if any.
    CloseModal,
}

/// A directive received over the external speaker notes channel.
#[derive(Clone, Copy, Debug, PartialEq, Eq, Structural)]
pub enum SpeakerNotesCommand {
    /// Jump to the slide with the given index.
    GoToSlide(u32),
}

/// A failure of the local input source; fatal to the driving loop.
#[derive(Clone, Debug, PartialEq, Eq)]
pub struct InputError {
    /// What the input source reported.
    pub message: String,
}

/// The decision at the heart of the command source: exactly two origins,
/// checked in fixed priority. An external event, when present, is
/// translated and returned without consulting local input — whether the
/// latter produced a command, nothing, or even an error. Otherwise the
/// local outcome passes through unchanged: a command, `None` on timeout,
/// or the input failure.
pub fn select_command(
    external: Option<SpeakerNotesCommand>,
    local: Result<Option<Command>, InputError>,
) -> (r: Result<Option<Command>, InputError>)
    ensures
        match external {
            Some(SpeakerNotesCommand::GoToSlide(index)) => r == Ok::<Option<Command>, InputError>(
                Some(Command::GoToSlide(index)),
            ),
            None => r == local,
        },
{
    match external {
        Some(SpeakerNotesCommand::GoToSlide(index)) => Ok(Some(Command::GoToSlide(index))),
        None => local,
    }
}

} // verus!
