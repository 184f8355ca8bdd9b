use std::sync::Arc;

use presenterm::RenderAsyncState;
use presenterm::ansi::AnsiSplitter;
use presenterm::code::{
    HighlightContext, HighlightGroup, HighlightMutator, Snippet, SnippetAttributes,
    SnippetLanguage,
};
use presenterm::code::Highlight::All;
use presenterm::execute::{
    ExecutionError, ExecutionHandle, ProcessStatus, SnippetExecutor,
    new_shared_execution_state,
};
use presenterm::execution::{
    AcquireTerminalSnippetState, DisplaySeparator, RunAcquireTerminalSnippet, RunSnippetOperation,
    SnippetExecutionDisabledOperation, combine_invocation_result,
};
use presenterm::input::{Command, InputError, SpeakerNotesCommand, select_command};
use presenterm::render::{RenderOperation, WindowSize};
use presenterm::separator::{RenderSeparator, SeparatorWidth};
use presenterm::style::{Color, Colors, Line, Text, TextStyle};
use presenterm::theme::{Alignment, ExecutionOutputBlockStyle, ExecutionStatusBlockStyle};

fn no_colors() -> Colors {
    Colors { foreground: None, background: None }
}

fn output_style() -> ExecutionOutputBlockStyle {
    ExecutionOutputBlockStyle {
        colors: no_colors(),
        status: ExecutionStatusBlockStyle {
            not_started: no_colors(),
            running: no_colors(),
            success: no_colors(),
            failure: no_colors(),
        },
    }
}

fn exec_snippet(language: SnippetLanguage, contents: &str) -> Snippet {
    Snippet {
        contents: contents.to_string(),
        language,
        attributes: SnippetAttributes { execute: true, ..Default::default() },
    }
}

#[test]
fn ansi_round_trip() {
    let mut chunked = AnsiSplitter::new(TextStyle::plain());
    let first = chunked.feed("\x1b[31mfoo");
    assert!(first.is_empty());
    let second = chunked.feed("bar\x1b[0m\n");

    let mut whole = AnsiSplitter::new(TextStyle::plain());
    let all_at_once = whole.feed("\x1b[31mfoobar\x1b[0m\n");

    assert_eq!(second, all_at_once);
    assert_eq!(chunked.style, whole.style);
    assert_eq!(chunked.buffer, whole.buffer);

    assert_eq!(all_at_once.len(), 1);
    let spans = &all_at_once[0].0;
    assert_eq!(spans.len(), 1);
    assert_eq!(spans[0].content, "foobar");
    assert_eq!(spans[0].style.colors.foreground, Some(Color::Red));
}

#[test]
fn ansi_carries_style_across_lines() {
    let mut splitter = AnsiSplitter::new(TextStyle::plain());
    let lines = splitter.feed("\x1b[1mbold\nstill\x1b[0m\n");
    assert_eq!(lines.len(), 2);
    assert!(lines[0].0[0].style.bold);
    assert!(lines[1].0[0].style.bold);
    assert!(!splitter.style.bold);
}

#[test]
fn execution_scenario() {
    let executor = SnippetExecutor::new();
    let snippet = exec_snippet(SnippetLanguage::Bash, "echo hi");
    let request = executor.resolve(&snippet).expect("resolve failed");
    assert_eq!(request.program, "bash");
    assert_eq!(request.contents, "echo hi\n");

    let shared = Arc::new(new_shared_execution_state());
    let producer = shared.clone();
    let mut operation = RunSnippetOperation::new(
        snippet,
        no_colors(),
        output_style(),
        0,
        DisplaySeparator::On,
        Alignment::default(),
    );
    assert_eq!(operation.poll_state(), RenderAsyncState::NotStarted);
    assert!(operation.start_render(Ok(ExecutionHandle::new(shared))));
    assert!(!operation.start_render(Err(ExecutionError::NotExecutable)));

    // Nothing produced yet: still running, nothing new.
    assert_eq!(operation.poll_state(), RenderAsyncState::Rendering { modified: false });

    // The producer appends output and reports a clean exit.
    {
        let mut state = producer.lock().unwrap();
        state.push_output("hi\n".to_string());
        state.set_status(ProcessStatus::Success);
    }
    assert_eq!(operation.poll_state(), RenderAsyncState::JustFinishedRendering);
    assert_eq!(operation.output_lines.len(), 1);
    assert_eq!(operation.output_lines[0].0.len(), 1);
    assert_eq!(operation.output_lines[0].0[0].content, "hi");
    assert_eq!(operation.poll_state(), RenderAsyncState::Rendered);
    assert_eq!(operation.poll_state(), RenderAsyncState::Rendered);
}

#[test]
fn spawn_failure_renders_as_content() {
    let snippet = exec_snippet(SnippetLanguage::Bash, "echo hi");
    let mut operation = RunSnippetOperation::new(
        snippet,
        no_colors(),
        output_style(),
        0,
        DisplaySeparator::Off,
        Alignment::default(),
    );
    assert!(operation.start_render(Err(ExecutionError::SpawnFailed("no such file".to_string()))));
    assert_eq!(operation.poll_state(), RenderAsyncState::Rendered);
    assert_eq!(operation.output_lines.len(), 1);
    assert_eq!(operation.output_lines[0].0[0].content, "no such file");
}

#[test]
fn unresolvable_interpreter_fails_before_execution() {
    let executor = SnippetExecutor::new();
    let snippet = exec_snippet(SnippetLanguage::Unknown("potato".to_string()), "boom");
    assert_eq!(executor.resolve(&snippet).unwrap_err(), ExecutionError::UnsupportedExecution);

    let plain = Snippet {
        contents: "echo hi".to_string(),
        language: SnippetLanguage::Bash,
        attributes: Default::default(),
    };
    assert_eq!(executor.resolve(&plain).unwrap_err(), ExecutionError::NotExecutable);
}

#[test]
fn disabled_operation_starts_once() {
    let mut operation = SnippetExecutionDisabledOperation::new(no_colors(), Alignment::default());
    let before = operation.as_render_operations(&WindowSize { rows: 24, columns: 80 });
    assert!(before.is_empty());
    assert!(operation.start_render());
    assert!(!operation.start_render());
    assert!(!operation.start_render());
    assert_eq!(operation.poll_state(), RenderAsyncState::Rendered);
    let after = operation.as_render_operations(&WindowSize { rows: 24, columns: 80 });
    assert_eq!(after.len(), 3);
    match &after[1] {
        RenderOperation::RenderText { line, .. } => {
            assert_eq!(line.0[0].content, "snippet execution is disabled");
        }
        other => panic!("unexpected operation: {other:?}"),
    }
}

#[test]
fn acquire_terminal_failure_keeps_lines() {
    let snippet = exec_snippet(SnippetLanguage::Bash, "vim");
    let mut operation = RunAcquireTerminalSnippet::new(
        snippet,
        output_style().status,
        20,
    );
    assert!(operation.start_render(Err("failed to run snippet: boom\nsecond".to_string())));
    match &operation.state {
        AcquireTerminalSnippetState::Failure(lines) => {
            assert_eq!(lines, &vec!["failed to run snippet: boom".to_string(), "second".to_string()]);
        }
        other => panic!("unexpected state: {other:?}"),
    }
    assert!(!operation.start_render(Ok(())));
    assert_eq!(operation.poll_state(), RenderAsyncState::Rendered);
    let ops = operation.as_render_operations(&WindowSize { rows: 24, columns: 80 });
    assert_eq!(ops.len(), 4 + 2 * 2);
}

#[test]
fn restore_failure_supersedes_invocation_result() {
    let run: Result<(), String> = Ok(());
    let restore: Result<(), String> = Err("failed to reinit terminal".to_string());
    assert_eq!(combine_invocation_result(run, restore), Err("failed to reinit terminal".to_string()));

    let run: Result<(), String> = Err("failed to run snippet".to_string());
    assert_eq!(combine_invocation_result(run.clone(), Ok(())), run);
}

#[test]
fn highlight_cycling() {
    let groups = vec![
        HighlightGroup::new(vec![All]),
        HighlightGroup::new(vec![All]),
        HighlightGroup::new(vec![All]),
    ];
    let context = HighlightContext {
        groups,
        current: 0,
        block_length: 10,
        alignment: Alignment::default(),
    };
    let mut mutator = HighlightMutator::new(context);
    assert!(!mutator.mutate_previous());
    assert!(mutator.mutate_next());
    assert!(mutator.mutate_next());
    assert_eq!(mutator.mutations(), (2, 3));
    assert!(!mutator.mutate_next());
    assert_eq!(mutator.mutations(), (2, 3));
    mutator.reset_mutations();
    assert_eq!(mutator.mutations(), (0, 3));
    mutator.apply_all_mutations();
    assert_eq!(mutator.mutations(), (2, 3));
}

#[test]
fn external_event_takes_priority() {
    let external = Some(SpeakerNotesCommand::GoToSlide(4));
    let local: Result<Option<Command>, InputError> = Ok(Some(Command::Next));
    assert_eq!(select_command(external, local), Ok(Some(Command::GoToSlide(4))));

    let local: Result<Option<Command>, InputError> = Ok(Some(Command::Next));
    assert_eq!(select_command(None, local), Ok(Some(Command::Next)));

    let timeout: Result<Option<Command>, InputError> = Ok(None);
    assert_eq!(select_command(None, timeout), Ok(None));

    let failure: Result<Option<Command>, InputError> =
        Err(InputError { message: "broken pipe".to_string() });
    assert_eq!(select_command(None, failure.clone()), failure);
}

#[test]
fn separator_renders_dashes() {
    let separator = RenderSeparator::new(Line(Vec::new()), SeparatorWidth::Fixed(10));
    let ops = separator.as_render_operations(&WindowSize { rows: 24, columns: 80 });
    assert_eq!(ops.len(), 1);
    match &ops[0] {
        RenderOperation::RenderBlockLine(block) => {
            assert_eq!(block.block_length, 10);
            assert_eq!(block.text.0.len(), 1);
            assert_eq!(block.text.0[0].content, "—".repeat(10));
        }
        other => panic!("unexpected operation: {other:?}"),
    }
}

#[test]
fn display_width_counts_columns() {
    assert_eq!(Text::new("hi", TextStyle::plain()).width(), 2);
    // Wide characters take two columns each; a pass-through would report
    // their char count instead.
    assert_eq!(Text::new("日本", TextStyle::plain()).width(), 4);
}
