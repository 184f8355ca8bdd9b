//! The render operations behind executed snippets: the asynchronous
//! execution block that accumulates process output poll by poll, the
//! placeholder shown when execution is disabled, and the terminal-acquiring
//! variant that runs synchronously.

use vstd::prelude::*;

use crate::RenderAsyncState;
use crate::ansi::{AnsiSplitter, SpanView, line_spans_view, process_text, spans_width};
use crate::code::Snippet;
use crate::execute::{ExecutionError, ExecutionHandle, ProcessStatus, execution_error_message};
use crate::render::{BlockLine, RenderOperation, WindowSize};
use crate::separator::{RenderSeparator, SeparatorWidth};
use crate::strutil::{spec_lines, split_str_lines};
use crate::style::{Colors, Line, Text, TextStyle};
use crate::theme::{Alignment, ExecutionStatusBlockStyle, ExecutionOutputBlockStyle, Margin};

verus! {

/// Below this, a centered separator would word-wrap and look bad.
pub const MINIMUM_SEPARATOR_WIDTH: u16 = 32;

/// Whether an execution block draws a separator above its output.
#[derive(Clone, Copy, Debug, PartialEq, Eq, Structural)]
pub enum DisplaySeparator {
    On,
    Off,
}

/// The separator width an execution block uses for its alignment.
pub open spec fn spec_separator_width(alignment: Alignment, block_length: u16) -> SeparatorWidth {
    match alignment {
        Alignment::Left { .. } => SeparatorWidth::FitToWindow,
        Alignment::Right { .. } => SeparatorWidth::FitToWindow,
        Alignment::Center { .. } => SeparatorWidth::Fixed(
            if block_length >= MINIMUM_SEPARATOR_WIDTH {
                block_length
            } else {
                MINIMUM_SEPARATOR_WIDTH
            },
        ),
    }
}

/// True when `s` is a status separator with the given heading text and
/// width.
pub open spec fn is_status_separator(
    s: RenderSeparator,
    description: Text,
    width: SeparatorWidth,
) -> bool {
    s.heading.0@.len() == 3 && s.heading.0@[0].content@ == " ["@ && s.heading.0@[1] == description
        && s.heading.0@[2].content@ == "] "@ && s.width == width
}

/// Builds the status separator heading `[ description ]`.
fn status_separator(description: &Text, width: SeparatorWidth) -> (r: RenderSeparator)
    ensures
        is_status_separator(r, *description, width),
{
    let heading = Line(
        vec![
            Text::new(" [", TextStyle::plain()),
            description.clone(),
            Text::new("] ", TextStyle::plain()),
        ],
    );
    RenderSeparator::new(heading, width)
}

/// A slide-visible block that runs a snippet and folds its output into
/// the render stream, poll by poll.
#[derive(Debug)]
pub struct RunSnippetOperation {
    /// The snippet being run.
    pub code: Snippet,
    /// The colors restored after the block.
    pub default_colors: Colors,
    /// The colors of the output block.
    pub block_colors: Colors,
    /// The status line colors.
    pub status_colors: ExecutionStatusBlockStyle,
    /// The width of the code block above, already adjusted for centered
    /// alignment.
    pub block_length: u16,
    /// How the block is aligned.
    pub alignment: Alignment,
    /// Whether a separator is drawn above the output.
    pub separator: DisplaySeparator,
    /// Where the operation stands in its lifecycle.
    pub state: RenderAsyncState,
    /// The live execution, owned until completion is observed.
    pub handle: Option<ExecutionHandle>,
    /// The styled output lines accumulated so far.
    pub output_lines: Vec<Line>,
    /// The widest output line seen, for sizing the block.
    pub max_line_length: u16,
    /// Splits drained output into lines, carrying open styles.
    pub splitter: AnsiSplitter,
    /// The status line text.
    pub state_description: Text,
}

impl RunSnippetOperation {
    /// The invariant the operation keeps: a live handle exists only while
    /// rendering.
    pub open spec fn wf(self) -> bool {
        self.handle is Some ==> self.state matches RenderAsyncState::Rendering { .. }
    }

    /// A new, not yet started operation for a snippet.
    pub fn new(
        code: Snippet,
        default_colors: Colors,
        execution_output_style: ExecutionOutputBlockStyle,
        block_length: u16,
        separator: DisplaySeparator,
        alignment: Alignment,
    ) -> (r: Self)
        ensures
            r.code == code,
            r.default_colors == default_colors,
            r.block_colors == execution_output_style.colors,
            r.status_colors == execution_output_style.status,
            r.block_length == (match alignment {
                Alignment::Center { minimum_size, .. } => if block_length >= minimum_size {
                    block_length
                } else {
                    minimum_size
                },
                _ => block_length,
            }),
            r.alignment == alignment,
            r.separator == separator,
            r.state is NotStarted,
            r.handle is None,
            r.output_lines@.len() == 0,
            r.max_line_length == 0,
            r.splitter.style == TextStyle::plain_spec(),
            r.splitter.buffer@.len() == 0,
            r.state_description.content@ == "not started"@,
            r.state_description.style == TextStyle::colored(
                execution_output_style.status.not_started,
            ),
            r.wf(),
    {
        let block_length = match alignment {
            Alignment::Left { .. } => block_length,
            Alignment::Right { .. } => block_length,
            Alignment::Center { minimum_size, .. } => {
                if block_length >= minimum_size {
                    block_length
                } else {
                    minimum_size
                }
            },
        };
        RunSnippetOperation {
            code,
            default_colors,
            block_colors: execution_output_style.colors,
            status_colors: execution_output_style.status,
            block_length,
            alignment,
            separator,
            state: RenderAsyncState::NotStarted,
            handle: None,
            output_lines: Vec::new(),
            max_line_length: 0,
            splitter: AnsiSplitter::new(TextStyle::plain()),
            state_description: Text::new(
                "not started",
                TextStyle::colored(execution_output_style.status.not_started),
            ),
        }
    }

    /// Starts the execution, handing over the outcome of the spawn.
    ///
    /// Returns true exactly on the first call: later calls change nothing
    /// and return false. A successful spawn attaches the handle and moves
    /// to `Rendering`; a failed one renders the error text as content and
    /// settles directly to `Rendered`, with no `Rendering` phase.
    pub fn start_render(&mut self, spawn: Result<ExecutionHandle, ExecutionError>) -> (r: bool)
        requires
            old(self).wf(),
        ensures
            final(self).wf(),
            r == (old(self).state is NotStarted),
            !r ==> *final(self) == *old(self),
            r ==> match spawn {
                Ok(_) => final(self).state == (RenderAsyncState::Rendering { modified: false })
                    && final(self).handle is Some && final(self).output_lines
                    == old(self).output_lines,
                Err(e) => final(self).state is Rendered && final(self).handle is None && final(self).output_lines@.len() == 1 && final(self).output_lines@[0].0@.len() == 1 && final(self).output_lines@[0].0@[0].content@ == execution_error_message(e),
            },
            r ==> final(self).code == old(self).code && final(self).state_description == old(self).state_description && final(self).max_line_length == old(self).max_line_length,
            r ==> final(self).splitter == old(self).splitter && final(self).default_colors == old(self).default_colors && final(self).block_colors == old(self).block_colors && final(self).status_colors == old(self).status_colors && final(self).block_length == old(self).block_length && final(self).alignment == old(self).alignment && final(self).separator
                == old(self).separator,
    {
        match self.state {
            RenderAsyncState::NotStarted => {},
            _ => {
                return false;
            },
        }
        match spawn {
            Ok(handle) => {
                self.handle = Some(handle);
                self.state = RenderAsyncState::Rendering { modified: false };
            },
            Err(e) => {
                let message = e.message();
                let line = Line(vec![Text { content: message, style: TextStyle::plain() }]);
                let mut output: Vec<Line> = Vec::new();
                output.push(line);
                self.output_lines = output;
                self.state = RenderAsyncState::Rendered;
            },
        }
        true
    }

    /// The block's render operations: the status separator when enabled;
    /// nothing else before the execution starts; afterwards the
    /// accumulated output lines, one aligned block line each, between the
    /// block colors and the restored default colors.
    pub fn as_render_operations(&self, _dimensions: &WindowSize) -> (r: Vec<RenderOperation>)
        ensures
            ({
                let sep: int = if self.separator is On {
                    3
                } else {
                    0
                };
                let with_colors = self.block_colors.background is Some;
                let head: int = sep + 1 + if with_colors {
                    1int
                } else {
                    0int
                };
                let n = self.output_lines@.len();
                let block_len = if self.alignment.has_margin_spec() {
                    if self.block_length >= self.max_line_length {
                        self.block_length as int
                    } else {
                        self.max_line_length as int
                    }
                } else {
                    self.max_line_length as int
                };
                (self.separator is On ==> r@.len() >= 3 && r@[0]
                    == RenderOperation::RenderLineBreak && r@[2]
                    == RenderOperation::RenderLineBreak && (r@[1] matches
                RenderOperation::RenderDynamic(s) && is_status_separator(
                    s,
                    self.state_description,
                    spec_separator_width(self.alignment, self.block_length),
                ))) && (self.state is NotStarted ==> r@.len() == sep) && (!(self.state
                    is NotStarted) ==> r@.len() == head + 2 * n + 1 && r@[sep]
                    == RenderOperation::RenderLineBreak && (with_colors ==> r@[sep + 1]
                    == RenderOperation::SetColors(self.block_colors)) && (forall|k: int|
                    0 <= k < n ==> (#[trigger] r@[head + 2 * k] matches
                        RenderOperation::RenderBlockLine(b) && b.text.0@
                        == self.output_lines@[k].0@ && b.alignment == self.alignment
                        && b.block_color == self.block_colors.background && b.block_length
                        == block_len && b.prefix.content@.len() == 0 && b.right_padding_length == 0
                        && !b.repeat_prefix_on_wrap) && r@[head + 2 * k + 1]
                        == RenderOperation::RenderLineBreak) && r@[head + 2 * n]
                    == RenderOperation::SetColors(self.default_colors))
            }),
    {
        proof {
            reveal_strlit("");
        }
        let mut ops: Vec<RenderOperation> = Vec::new();
        match self.separator {
            DisplaySeparator::On => {
                let separator = status_separator(
                    &self.state_description,
                    match self.alignment {
                        Alignment::Left { .. } => SeparatorWidth::FitToWindow,
                        Alignment::Right { .. } => SeparatorWidth::FitToWindow,
                        Alignment::Center { .. } => SeparatorWidth::Fixed(
                            if self.block_length >= MINIMUM_SEPARATOR_WIDTH {
                                self.block_length
                            } else {
                                MINIMUM_SEPARATOR_WIDTH
                            },
                        ),
                    },
                );
                ops.push(RenderOperation::RenderLineBreak);
                ops.push(RenderOperation::RenderDynamic(separator));
                ops.push(RenderOperation::RenderLineBreak);
            },
            DisplaySeparator::Off => {},
        }
        let ghost sep = ops@.len() as int;
        if matches!(self.state, RenderAsyncState::NotStarted) {
            return ops;
        }
        ops.push(RenderOperation::RenderLineBreak);
        let with_colors = match self.block_colors.background {
            Some(_) => true,
            None => false,
        };
        if with_colors {
            ops.push(RenderOperation::SetColors(self.block_colors));
        }
        let ghost head = ops@.len() as int;
        let block_length = if self.alignment.has_margin() {
            if self.block_length >= self.max_line_length {
                self.block_length
            } else {
                self.max_line_length
            }
        } else {
            self.max_line_length
        };
        let mut k: usize = 0;
        while k < self.output_lines.len()
            invariant
                k <= self.output_lines@.len(),
                ops@.len() == head + 2 * k,
                head == sep + 1 + if self.block_colors.background is Some {
                    1int
                } else {
                    0int
                },
                sep == if self.separator is On {
                    3int
                } else {
                    0int
                },
                block_length == (if self.alignment.has_margin_spec() {
                    if self.block_length >= self.max_line_length {
                        self.block_length as int
                    } else {
                        self.max_line_length as int
                    }
                } else {
                    self.max_line_length as int
                }),
                self.separator is On ==> ops@.len() >= 3 && ops@[0]
                    == RenderOperation::RenderLineBreak && ops@[2]
                    == RenderOperation::RenderLineBreak && (ops@[1] matches
                RenderOperation::RenderDynamic(s) && is_status_separator(
                    s,
                    self.state_description,
                    spec_separator_width(self.alignment, self.block_length),
                )),
                ops@[sep] == RenderOperation::RenderLineBreak,
                self.block_colors.background is Some ==> ops@[sep + 1]
                    == RenderOperation::SetColors(self.block_colors),
                forall|m: int|
                    0 <= m < k ==> (#[trigger] ops@[head + 2 * m] matches
                        RenderOperation::RenderBlockLine(b) && b.text.0@
                        == self.output_lines@[m].0@ && b.alignment == self.alignment
                        && b.block_color == self.block_colors.background && b.block_length
                        == block_length && b.prefix.content@.len() == 0 && b.right_padding_length
                        == 0 && !b.repeat_prefix_on_wrap) && ops@[head + 2 * m + 1]
                        == RenderOperation::RenderLineBreak,
            decreases self.output_lines@.len() - k,
        {
            proof {
                reveal_strlit("");
            }
            let line = self.output_lines[k].clone();
            ops.push(
                RenderOperation::RenderBlockLine(
                    BlockLine {
                        prefix: Text::new("", TextStyle::plain()),
                        right_padding_length: 0,
                        repeat_prefix_on_wrap: false,
                        text: line,
                        block_length,
                        alignment: self.alignment,
                        block_color: self.block_colors.background,
                    },
                ),
            );
            ops.push(RenderOperation::RenderLineBreak);
            k += 1;
        }
        ops.push(RenderOperation::SetColors(self.default_colors));
        ops
    }

    /// Drains the execution and folds newly produced output into the
    /// block.
    ///
    /// The lifecycle never moves backwards; `JustFinishedRendering`
    /// settles to `Rendered` and `Rendered` stays. While a handle is
    /// live, the state remains `Rendering` until the process is observed
    /// finished, at which point the handle is released — exactly then —
    /// and one `JustFinishedRendering` is reported. Already accumulated
    /// output lines are never changed, only extended.
    pub fn poll_state(&mut self) -> (r: RenderAsyncState)
        requires
            old(self).wf(),
        ensures
            final(self).wf(),
            r == final(self).state,
            final(self).state.rank() >= old(self).state.rank(),
            old(self).state is JustFinishedRendering ==> final(self).state is Rendered,
            old(self).state is Rendered ==> final(self).state is Rendered,
            final(self).output_lines@.len() >= old(self).output_lines@.len(),
            final(self).output_lines@.take(old(self).output_lines@.len() as int) == old(self).output_lines@,
            final(self).max_line_length >= old(self).max_line_length,
            old(self).handle is None ==> *final(self) == (RunSnippetOperation {
                state: if old(self).state is JustFinishedRendering {
                    RenderAsyncState::Rendered
                } else {
                    old(self).state
                },
                ..*old(self)
            }),
            old(self).handle is Some ==> (final(self).state matches RenderAsyncState::Rendering {
                ..
            } || final(self).state is JustFinishedRendering) && ((final(self).handle is None)
                <==> final(self).state is JustFinishedRendering),
    {
        let (chunks, status) = match &self.handle {
            None => {
                if matches!(self.state, RenderAsyncState::JustFinishedRendering) {
                    self.state = RenderAsyncState::Rendered;
                }
                proof {
                    assert(self.output_lines@.take(self.output_lines@.len() as int)
                        =~= self.output_lines@);
                }
                return self.state;
            },
            Some(handle) => handle.drain(),
        };
        self.ingest(chunks, status);
        self.state
    }

    /// Folds one drained batch of output and the observed status into the
    /// block: the chunks run through the ANSI splitter, completed lines
    /// extend the output, the widest line seen becomes the new running
    /// maximum, and the status decides the next state and the status-line
    /// text. This holds for every batch, whatever the process produced.
    pub fn ingest(&mut self, chunks: Vec<String>, status: ProcessStatus)
        requires
            old(self).wf(),
            old(self).state matches RenderAsyncState::Rendering { .. },
            old(self).handle is Some,
        ensures
            final(self).wf(),
            ({
                let fed = process_text(
                    old(self).splitter.style,
                    old(self).splitter.buffer@ + concat_chunks(chunks@),
                );
                final(self).output_lines@.map_values(|l: Line| line_spans_view(l)) == old(self).output_lines@.map_values(|l: Line| line_spans_view(l)) + fed.lines && final(self).splitter.style == fed.style && final(self).splitter.buffer@ == fed.rest && final(self).state == (if status is Running {
                    RenderAsyncState::Rendering { modified: fed.lines.len() > 0 }
                } else {
                    RenderAsyncState::JustFinishedRendering
                }) && (final(self).handle is None <==> !(status is Running)) && final(self).max_line_length == max_width_after(fed.lines, old(self).max_line_length as int)
            }),
            final(self).output_lines@.len() >= old(self).output_lines@.len(),
            final(self).output_lines@.take(old(self).output_lines@.len() as int) == old(self).output_lines@,
            final(self).max_line_length >= old(self).max_line_length,
            final(self).state_description.content@ == (match status {
                ProcessStatus::Running => "running"@,
                ProcessStatus::Success => "finished"@,
                ProcessStatus::Failure => "finished with error"@,
            }),
    {
        self.state_description = match status {
            ProcessStatus::Running => Text::new(
                "running",
                TextStyle::colored(self.status_colors.running),
            ),
            ProcessStatus::Success => Text::new(
                "finished",
                TextStyle::colored(self.status_colors.success),
            ),
            ProcessStatus::Failure => Text::new(
                "finished with error",
                TextStyle::colored(self.status_colors.failure),
            ),
        };
        let mut joined = String::new();
        let mut i: usize = 0;
        proof {
            assert(joined@ =~= concat_chunks(chunks@.take(0)));
        }
        while i < chunks.len()
            invariant
                i <= chunks@.len(),
                joined@ == concat_chunks(chunks@.take(i as int)),
            decreases chunks@.len() - i,
        {
            joined.append(chunks[i].as_str());
            proof {
                assert(chunks@.take(i + 1).drop_last() =~= chunks@.take(i as int));
                assert(chunks@.take(i + 1).last() == chunks@[i as int]);
            }
            i += 1;
        }
        proof {
            assert(chunks@.take(chunks@.len() as int) =~= chunks@);
        }
        let new_lines = self.splitter.feed(joined.as_str());
        let modified = new_lines.len() > 0;
        let ghost old_views = self.output_lines@.map_values(|l: Line| line_spans_view(l));
        let ghost fed_lines = new_lines@.map_values(|l: Line| line_spans_view(l));
        let mut j: usize = 0;
        let mut incoming = new_lines;
        proof {
            assert(fed_lines.take(0) =~= Seq::<Seq<crate::ansi::SpanView>>::empty());
            assert(max_width_after(fed_lines.take(0), old(self).max_line_length as int) == old(self).max_line_length as int);
            assert(old_views + fed_lines.take(0) =~= old_views);
            assert(self.output_lines@.map_values(|l: Line| line_spans_view(l)) =~= old_views
                + fed_lines.take(0));
            assert(self.output_lines@.take(self.output_lines@.len() as int)
                =~= self.output_lines@);
        }
        let ghost base_len = self.output_lines@.len();
        let ghost base_lines = self.output_lines@;
        while j < incoming.len()
            invariant
                j <= incoming@.len(),
                fed_lines == incoming@.map_values(|l: Line| line_spans_view(l)),
                self.output_lines@.map_values(|l: Line| line_spans_view(l)) == old_views
                    + fed_lines.take(j as int),
                old_views == old(self).output_lines@.map_values(|l: Line| line_spans_view(l)),
                self.output_lines@.len() == base_len + j,
                base_len == old(self).output_lines@.len(),
                self.output_lines@.take(base_len as int) == base_lines,
                base_lines == old(self).output_lines@,
                self.max_line_length >= old(self).max_line_length,
                self.max_line_length == max_width_after(
                    fed_lines.take(j as int),
                    old(self).max_line_length as int,
                ),
                self.state_description.content@ == (match status {
                    ProcessStatus::Running => "running"@,
                    ProcessStatus::Success => "finished"@,
                    ProcessStatus::Failure => "finished with error"@,
                }),
                ({
                    let fed = process_text(
                        old(self).splitter.style,
                        old(self).splitter.buffer@ + concat_chunks(chunks@),
                    );
                    fed_lines == fed.lines && self.splitter.style == fed.style
                        && self.splitter.buffer@ == fed.rest
                }),
                self.handle == old(self).handle,
                self.state == old(self).state,
                modified == (fed_lines.len() > 0),
            decreases incoming@.len() - j,
        {
            let width = incoming[j].width();
            proof {
                crate::ansi::lemma_spans_width(incoming[j as int].0@);
                assert(fed_lines[j as int] == line_spans_view(incoming[j as int]));
                assert(width == crate::ansi::spans_width(fed_lines[j as int]));
                assert(fed_lines.take(j + 1).drop_last() =~= fed_lines.take(j as int));
                assert(fed_lines.take(j + 1).last() == fed_lines[j as int]);
            }
            let clamped: u16 = if width > 65535 {
                65535
            } else {
                width as u16
            };
            if clamped > self.max_line_length {
                self.max_line_length = clamped;
            }
            let line = incoming[j].clone();
            proof {
                assert(line_spans_view(line) == fed_lines[j as int]);
            }
            let ghost previous = self.output_lines@.map_values(|l: Line| line_spans_view(l));
            let ghost previous_lines = self.output_lines@;
            self.output_lines.push(line);
            proof {
                assert(self.output_lines@.map_values(|l: Line| line_spans_view(l)) =~= previous.push(
                    fed_lines[j as int],
                ));
                assert(fed_lines.take(j + 1) =~= fed_lines.take(j as int).push(fed_lines[j as int]));
                assert(previous.push(fed_lines[j as int]) =~= old_views + fed_lines.take(j + 1));
                assert(self.output_lines@.take(base_len as int) =~= previous_lines.take(
                    base_len as int,
                ));
            }
            j += 1;
        }
        proof {
            assert(fed_lines.take(incoming@.len() as int) =~= fed_lines);
        }
        if status.is_finished() {
            self.handle = None;
            self.state = RenderAsyncState::JustFinishedRendering;
        } else {
            self.state = RenderAsyncState::Rendering { modified };
        }
    }
}

/// The widest among `base` and the widths of `lines`, each line's width
/// clamped to what fits in `u16`.
pub open spec fn max_width_after(lines: Seq<Seq<SpanView>>, base: int) -> int
    decreases lines.len(),
{
    if lines.len() == 0 {
        base
    } else {
        let rest = max_width_after(lines.drop_last(), base);
        let full = spans_width(lines.last());
        let clamped = if full > 65535 {
            65535int
        } else {
            full
        };
        if clamped > rest {
            clamped
        } else {
            rest
        }
    }
}

/// All chunks of a drained batch, in order, as one text.
pub open spec fn concat_chunks(chunks: Seq<String>) -> Seq<char>
    decreases chunks.len(),
{
    if chunks.len() == 0 {
        Seq::empty()
    } else {
        concat_chunks(chunks.drop_last()) + chunks.last()@
    }
}

/// The placeholder block shown where a snippet would run but execution is
/// disabled.
#[derive(Clone, Debug)]
pub struct SnippetExecutionDisabledOperation {
    /// The colors of the notice.
    pub colors: Colors,
    /// How the notice is aligned.
    pub alignment: Alignment,
    /// Whether the notice has been triggered.
    pub started: bool,
}

impl SnippetExecutionDisabledOperation {
    /// A not yet triggered notice.
    pub fn new(colors: Colors, alignment: Alignment) -> (r: Self)
        ensures
            r.colors == colors,
            r.alignment == alignment,
            !r.started,
    {
        SnippetExecutionDisabledOperation { colors, alignment, started: false }
    }

    /// Triggers the notice. Returns true exactly on the first call.
    pub fn start_render(&mut self) -> (r: bool)
        ensures
            r == !old(self).started,
            final(self).started,
            final(self).colors == old(self).colors,
            final(self).alignment == old(self).alignment,
    {
        let was_started = self.started;
        self.started = true;
        !was_started
    }

    /// The notice needs no polling: it is rendered from the start.
    pub fn poll_state(&self) -> (r: RenderAsyncState)
        ensures
            r is Rendered,
    {
        RenderAsyncState::Rendered
    }

    /// The notice's render operations: nothing until triggered, then the
    /// disabled-execution text between two line breaks.
    pub fn as_render_operations(&self, _dimensions: &WindowSize) -> (r: Vec<RenderOperation>)
        ensures
            !self.started ==> r@.len() == 0,
            self.started ==> r@.len() == 3 && r@[0] == RenderOperation::RenderLineBreak && r@[2]
                == RenderOperation::RenderLineBreak && (r@[1] matches RenderOperation::RenderText {
                line,
                alignment,
            } && alignment == self.alignment && line.0@.len() == 1 && line.0@[0].content@
                == "snippet execution is disabled"@ && line.0@[0].style == TextStyle::colored(
                self.colors,
            )),
    {
        if !self.started {
            return Vec::new();
        }
        vec![
            RenderOperation::RenderLineBreak,
            RenderOperation::RenderText {
                line: Line(
                    vec![
                        Text::new(
                            "snippet execution is disabled",
                            TextStyle::colored(self.colors),
                        ),
                    ],
                ),
                alignment: self.alignment,
            },
            RenderOperation::RenderLineBreak,
        ]
    }
}

/// Where a terminal-acquiring execution stands: terminal once it has left
/// `NotStarted`.
#[derive(Clone, Debug)]
pub enum AcquireTerminalSnippetState {
    /// The snippet has not been invoked.
    NotStarted,
    /// The invocation and the terminal restoration succeeded.
    Success,
    /// The invocation or the restoration failed; holds the failure lines.
    Failure(Vec<String>),
}

/// Combines the snippet invocation's own outcome with the outcome of
/// restoring the terminal session afterwards: a restoration failure
/// supersedes and is reported instead of the invocation's result.
pub fn combine_invocation_result(run: Result<(), String>, restore: Result<(), String>) -> (r:
    Result<(), String>)
    ensures
        restore is Err ==> r == Err::<(), String>(restore->Err_0),
        restore is Ok ==> r == run,
{
    match restore {
        Err(e) => Err(e),
        Ok(()) => run,
    }
}

/// A snippet run synchronously with exclusive control of the real
/// terminal.
#[derive(Clone, Debug)]
pub struct RunAcquireTerminalSnippet {
    /// The snippet to run.
    pub snippet: Snippet,
    /// The width of the code block above.
    pub block_length: u16,
    /// The status line colors.
    pub colors: ExecutionStatusBlockStyle,
    /// Where the invocation stands.
    pub state: AcquireTerminalSnippetState,
}

impl RunAcquireTerminalSnippet {
    /// A not yet invoked operation.
    pub fn new(snippet: Snippet, colors: ExecutionStatusBlockStyle, block_length: u16) -> (r: Self)
        ensures
            r.snippet == snippet,
            r.colors == colors,
            r.block_length == block_length,
            r.state is NotStarted,
    {
        RunAcquireTerminalSnippet { snippet, block_length, colors, state: AcquireTerminalSnippetState::NotStarted }
    }

    /// Records the outcome of the blocking invocation. Returns true
    /// exactly on the first call; the state is terminal afterwards, and
    /// later calls change nothing. A failure is rendered as content: its
    /// text split into lines.
    pub fn start_render(&mut self, invocation: Result<(), String>) -> (r: bool)
        ensures
            r == (old(self).state is NotStarted),
            !r ==> *final(self) == *old(self),
            final(self).snippet == old(self).snippet,
            final(self).colors == old(self).colors,
            final(self).block_length == old(self).block_length,
            r ==> match invocation {
                Ok(_) => final(self).state is Success,
                Err(e) => final(self).state matches AcquireTerminalSnippetState::Failure(lines)
                    && lines@.map_values(|s: String| s@) == spec_lines(e@),
            },
    {
        match self.state {
            AcquireTerminalSnippetState::NotStarted => {},
            _ => {
                return false;
            },
        }
        match invocation {
            Ok(()) => {
                self.state = AcquireTerminalSnippetState::Success;
            },
            Err(e) => {
                let lines = split_str_lines(e.as_str());
                self.state = AcquireTerminalSnippetState::Failure(lines);
            },
        }
        true
    }

    /// The operation blocks during `start_render`, so polling always
    /// finds it rendered.
    pub fn poll_state(&self) -> (r: RenderAsyncState)
        ensures
            r is Rendered,
    {
        RenderAsyncState::Rendered
    }

    /// The render operations: a status separator between line breaks,
    /// and, after a failure, the failure lines.
    pub fn as_render_operations(&self, _dimensions: &WindowSize) -> (r: Vec<RenderOperation>)
        ensures
            r@.len() >= 3,
            r@[0] == RenderOperation::RenderLineBreak,
            r@[2] == RenderOperation::RenderLineBreak,
            ({
                match self.state {
                    AcquireTerminalSnippetState::Failure(lines) => r@.len() == 4 + 2 * lines@.len()
                        && r@[3] == RenderOperation::RenderLineBreak && forall|k: int|
                        0 <= k < lines@.len() ==> (#[trigger] r@[4 + 2 * k] matches
                            RenderOperation::RenderText { line, alignment } && line.0@.len() == 1
                            && line.0@[0].content@ == lines@[k]@ && line.0@[0].style
                            == TextStyle::colored(self.colors.failure) && alignment == (
                        Alignment::Left { margin: Margin::Percent(25) })) && r@[4 + 2 * k + 1]
                            == RenderOperation::RenderLineBreak,
                    _ => r@.len() == 3,
                }
            }),
            r@[1] matches RenderOperation::RenderDynamic(s) && s.width == SeparatorWidth::Fixed(
                if self.block_length >= MINIMUM_SEPARATOR_WIDTH {
                    self.block_length
                } else {
                    MINIMUM_SEPARATOR_WIDTH
                },
            ) && s.heading.0@.len() == 3 && s.heading.0@[1].content@ == (match self.state {
                AcquireTerminalSnippetState::NotStarted => "not started"@,
                AcquireTerminalSnippetState::Success => "finished"@,
                AcquireTerminalSnippetState::Failure(_) => "finished with error"@,
            }),
    {
        let separator_text = match &self.state {
            AcquireTerminalSnippetState::NotStarted => Text::new(
                "not started",
                TextStyle::colored(self.colors.not_started),
            ),
            AcquireTerminalSnippetState::Success => Text::new(
                "finished",
                TextStyle::colored(self.colors.success),
            ),
            AcquireTerminalSnippetState::Failure(_) => Text::new(
                "finished with error",
                TextStyle::colored(self.colors.failure),
            ),
        };
        let width = if self.block_length >= MINIMUM_SEPARATOR_WIDTH {
            self.block_length
        } else {
            MINIMUM_SEPARATOR_WIDTH
        };
        let separator = status_separator(&separator_text, SeparatorWidth::Fixed(width));
        let mut ops = vec![
            RenderOperation::RenderLineBreak,
            RenderOperation::RenderDynamic(separator),
            RenderOperation::RenderLineBreak,
        ];
        if let AcquireTerminalSnippetState::Failure(lines) = &self.state {
            ops.push(RenderOperation::RenderLineBreak);
            let mut k: usize = 0;
            while k < lines.len()
                invariant
                    k <= lines@.len(),
                    ops@.len() == 4 + 2 * k,
                    ops@[0] == RenderOperation::RenderLineBreak,
                    ops@[2] == RenderOperation::RenderLineBreak,
                    ops@[3] == RenderOperation::RenderLineBreak,
                    ops@[1] matches RenderOperation::RenderDynamic(s) && s.width
                        == SeparatorWidth::Fixed(
                        if self.block_length >= MINIMUM_SEPARATOR_WIDTH {
                            self.block_length
                        } else {
                            MINIMUM_SEPARATOR_WIDTH
                        },
                    ) && s.heading.0@.len() == 3 && s.heading.0@[1].content@
                        == "finished with error"@,
                    self.state matches AcquireTerminalSnippetState::Failure(l2) && l2@ == lines@,
                    forall|m: int|
                        0 <= m < k ==> (#[trigger] ops@[4 + 2 * m] matches
                            RenderOperation::RenderText { line, alignment } && line.0@.len() == 1
                            && line.0@[0].content@ == lines@[m]@ && line.0@[0].style
                            == TextStyle::colored(self.colors.failure) && alignment == (
                        Alignment::Left { margin: Margin::Percent(25) })) && ops@[4 + 2 * m + 1]
                            == RenderOperation::RenderLineBreak,
                decreases lines@.len() - k,
            {
                ops.push(
                    RenderOperation::RenderText {
                        line: Line(
                            vec![
                                Text::new(
                                    lines[k].as_str(),
                                    TextStyle::colored(self.colors.failure),
                                ),
                            ],
                        ),
                        alignment: Alignment::Left { margin: Margin::Percent(25) },
                    },
                );
                ops.push(RenderOperation::RenderLineBreak);
                k += 1;
            }
        }
        ops
    }
}

} // verus!
