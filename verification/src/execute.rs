//! The snippet execution engine's verifiable core: the shared execution
//! state a background producer fills and a poller drains, the command
//! resolution that decides whether and how a snippet can run, and the
//! trusted mutex wrappers that guard the shared state.
//!
//! Spawning the process and reading its output happen outside the
//! library; both sides meet in an [`ExecutionState`] behind a mutex.

use vstd::prelude::*;

use std::sync::{Arc, Mutex};
use crate::code::{Snippet, SnippetLanguage};

verus! {

/// The status of a snippet execution.
#[derive(Clone, Copy, Debug, PartialEq, Eq, Structural)]
pub enum ProcessStatus {
    /// The process is still running.
    Running,
    /// The process exited with a zero status.
    Success,
    /// The process exited with a non-zero status.
    Failure,
}

impl ProcessStatus {
    /// True once the process has exited, either way.
    pub fn is_finished(&self) -> (r: bool)
        ensures
            r == (self is Success || self is Failure),
    {
        match self {
            ProcessStatus::Running => false,
            ProcessStatus::Success => true,
            ProcessStatus::Failure => true,
        }
    }
}

/// The state shared between a running execution and its poller: a queue
/// of newly produced output chunks, and the process status. The producer
/// appends and sets the status on exit; the poller drains.
#[derive(Debug)]
pub struct ExecutionState {
    /// Output produced since the last drain, in arrival order.
    pub output: Vec<String>,
    /// Where the process stands.
    pub status: ProcessStatus,
}

impl ExecutionState {
    /// A fresh state: no output, process running.
    pub fn new() -> (r: Self)
        ensures
            r.output@.len() == 0,
            r.status is Running,
    {
        ExecutionState { output: Vec::new(), status: ProcessStatus::Running }
    }

    /// Appends one chunk of produced output.
    pub fn push_output(&mut self, chunk: String)
        ensures
            final(self).output@ == old(self).output@.push(chunk),
            final(self).status == old(self).status,
    {
        self.output.push(chunk);
    }

    /// Records the process exit status.
    pub fn set_status(&mut self, status: ProcessStatus)
        ensures
            final(self).output@ == old(self).output@,
            final(self).status == status,
    {
        self.status = status;
    }

    /// Drains the queued output, leaving the status in place.
    pub fn take_output(&mut self) -> (r: Vec<String>)
        ensures
            r@ == old(self).output@,
            final(self).output@.len() == 0,
            final(self).status == old(self).status,
    {
        let mut drained: Vec<String> = Vec::new();
        core::mem::swap(&mut drained, &mut self.output);
        drained
    }
}

#[verifier::external_type_specification]
#[verifier::external_body]
#[verifier::reject_recursive_types(T)]
pub struct ExMutex<T: ?Sized>(Mutex<T>);

/// Relies on `std::sync::Mutex::new`: a mutex holding the given state.
/// The contents are shared with a producer thread afterwards, so nothing
/// is promised about later reads.
#[verifier::external_body]
pub fn new_state_mutex(state: ExecutionState) -> Mutex<ExecutionState> {
    Mutex::new(state)
}

/// Relies on `std::sync::Mutex::lock` for exclusive access while the
/// producer thread appends: drains the queued output and reads the
/// status. What comes back depends on the producer's progress, so nothing
/// is promised about the values.
#[verifier::external_body]
pub fn drain_state_mutex(state: &Mutex<ExecutionState>) -> (Vec<String>, ProcessStatus) {
    let mut guard = match state.lock() {
        Ok(guard) => guard,
        Err(poisoned) => poisoned.into_inner(),
    };
    let output = core::mem::take(&mut guard.output);
    (output, guard.status)
}

/// A fresh shared execution state — no output, process running — behind
/// its mutex, ready to be shared between a producer and a poller.
pub fn new_shared_execution_state() -> Mutex<ExecutionState> {
    new_state_mutex(ExecutionState::new())
}

/// The live resource representing an in-progress snippet execution: the
/// poller's handle on the shared state. The process and the reader thread
/// live outside the library; they hold their own clone of the state.
#[derive(Debug)]
pub struct ExecutionHandle {
    /// The shared execution state.
    pub state: Arc<Mutex<ExecutionState>>,
}

impl ExecutionHandle {
    /// A handle over the given shared state.
    pub fn new(state: Arc<Mutex<ExecutionState>>) -> (r: Self)
        ensures
            r.state == state,
    {
        ExecutionHandle { state }
    }

    /// Drains the shared state: the output chunks produced since the last
    /// poll, and the status. The values depend on the producer's
    /// progress.
    pub fn drain(&self) -> (Vec<String>, ProcessStatus) {
        drain_state_mutex(&self.state)
    }
}

/// Why a snippet cannot be executed.
#[derive(Clone, Debug, PartialEq, Eq)]
pub enum ExecutionError {
    /// The snippet carries no executable attribute.
    NotExecutable,
    /// No interpreter is known for the snippet's language.
    UnsupportedExecution,
    /// The process could not be spawned; holds the description.
    SpawnFailed(String),
}

/// The text an execution error renders as.
pub open spec fn execution_error_message(e: ExecutionError) -> Seq<char> {
    match e {
        ExecutionError::NotExecutable => "snippet is not marked as executable"@,
        ExecutionError::UnsupportedExecution => "executing this language is not supported"@,
        ExecutionError::SpawnFailed(s) => s@,
    }
}

impl ExecutionError {
    /// The text this error renders as.
    pub fn message(&self) -> (r: String)
        ensures
            r@ == execution_error_message(*self),
    {
        match self {
            ExecutionError::NotExecutable => "snippet is not marked as executable".to_owned(),
            ExecutionError::UnsupportedExecution => {
                "executing this language is not supported".to_owned()
            },
            ExecutionError::SpawnFailed(s) => s.clone(),
        }
    }
}

/// The interpreter that runs snippets of a language, for the languages
/// executions are supported for.
pub open spec fn spec_interpreter(lang: SnippetLanguage) -> Option<Seq<char>> {
    match lang {
        SnippetLanguage::Bash => Some("bash"@),
        SnippetLanguage::Shell => Some("sh"@),
        SnippetLanguage::Zsh => Some("zsh"@),
        SnippetLanguage::Fish => Some("fish"@),
        SnippetLanguage::Python => Some("python3"@),
        SnippetLanguage::Ruby => Some("ruby"@),
        SnippetLanguage::Perl => Some("perl"@),
        SnippetLanguage::Lua => Some("lua"@),
        SnippetLanguage::JavaScript => Some("node"@),
        SnippetLanguage::Nushell => Some("nu"@),
        _ => None,
    }
}

/// The prefix marking a snippet line as hidden: stripped from executed
/// contents, and such lines are not displayed.
pub open spec fn hidden_line_prefix() -> Seq<char> {
    "# "@
}

/// An executable command resolved from a snippet: the interpreter to
/// spawn, and the contents to hand it.
#[derive(Clone, Debug, PartialEq, Eq)]
pub struct ExecutionRequest {
    /// The interpreter program.
    pub program: String,
    /// The snippet body, hidden-line prefixes stripped.
    pub contents: String,
}

/// Resolves snippets into executable commands against the built-in
/// interpreter table.
#[derive(Clone, Copy, Debug, PartialEq, Eq, Structural)]
pub struct SnippetExecutor;

impl SnippetExecutor {
    /// An executor over the built-in interpreter table.
    pub fn new() -> (r: Self)
        ensures
            r == SnippetExecutor,
    {
        SnippetExecutor
    }

    /// Resolves the command for a snippet.
    ///
    /// Fails with `NotExecutable` exactly when the snippet carries no
    /// executable attribute, and with `UnsupportedExecution` exactly when
    /// it does but no interpreter is known for its language — in that
    /// case before anything else happens. On success the request names
    /// the language's interpreter and carries the snippet's executable
    /// contents.
    pub fn resolve(&self, snippet: &Snippet) -> (r: Result<ExecutionRequest, ExecutionError>)
        ensures
            ({
                let executable = snippet.attributes.execute || snippet.attributes.execute_replace
                    || snippet.attributes.acquire_terminal;
                match r {
                    Ok(req) => executable && spec_interpreter(snippet.language) == Some(
                        req.program@,
                    ) && req.contents@ == crate::code::joined_stripped(
                        crate::strutil::spec_lines(snippet.contents@),
                        hidden_line_prefix(),
                    ),
                    Err(e) => (e == ExecutionError::NotExecutable && !executable) || (e
                        == ExecutionError::UnsupportedExecution && executable && spec_interpreter(
                        snippet.language,
                    ) is None),
                }
            }),
    {
        let executable = snippet.attributes.execute || snippet.attributes.execute_replace
            || snippet.attributes.acquire_terminal;
        if !executable {
            return Err(ExecutionError::NotExecutable);
        }
        let program = match Self::interpreter(&snippet.language) {
            None => {
                return Err(ExecutionError::UnsupportedExecution);
            },
            Some(p) => p,
        };
        let contents = snippet.executable_contents(Some("# "));
        Ok(ExecutionRequest { program, contents })
    }

    /// The interpreter for a language, from the built-in table.
    fn interpreter(lang: &SnippetLanguage) -> (r: Option<String>)
        ensures
            match r {
                Some(p) => spec_interpreter(*lang) == Some(p@),
                None => spec_interpreter(*lang) is None,
            },
    {
        match lang {
            SnippetLanguage::Bash => Some("bash".to_owned()),
            SnippetLanguage::Shell => Some("sh".to_owned()),
            SnippetLanguage::Zsh => Some("zsh".to_owned()),
            SnippetLanguage::Fish => Some("fish".to_owned()),
            SnippetLanguage::Python => Some("python3".to_owned()),
            SnippetLanguage::Ruby => Some("ruby".to_owned()),
            SnippetLanguage::Perl => Some("perl".to_owned()),
            SnippetLanguage::Lua => Some("lua".to_owned()),
            SnippetLanguage::JavaScript => Some("node".to_owned()),
            SnippetLanguage::Nushell => Some("nu".to_owned()),
            _ => None,
        }
    }
}

} // verus!
