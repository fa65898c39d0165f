//! A shader source on disk and the state machine that follows its changes.
//!
//! The library never touches the file. The frame loop reports what it saw
//! (a reference, a modification, the outcome of a compilation, the
//! invalidation of the dependent pipelines) and is told what to do next.

use vstd::prelude::*;

verus! {

/// Where the watcher of a shader source stands.
#[derive(Clone, Copy, Debug, PartialEq, Eq, Structural)]
pub enum WatchState {
    /// No material refers to the source yet.
    Unwatched,
    /// The file is watched and the compiled module is current.
    Watching,
    /// The file changed; the new content waits to be compiled.
    ChangedPending,
    /// The new content went through the compiler.
    Reloaded,
}

/// What the frame loop has to do after an event.
#[derive(Clone, Copy, Debug, PartialEq, Eq, Structural)]
pub enum WatchAction {
    Nothing,
    /// Start watching the file for modifications.
    StartWatching,
    /// Drop the pipelines built from earlier revisions, then report
    /// `PipelinesInvalidated`.
    InvalidatePipelines,
    /// Hand the recorded compile error to the diagnostics sink.
    ReportError,
}

/// The views of a list of names, in order.
pub open spec fn names_of(names: Seq<String>) -> Seq<Seq<char>> {
    Seq::new(names.len(), |i: int| names[i]@)
}

/// What the shader compiler said of a source text.
#[derive(Debug)]
pub enum CompileOutcome {
    /// The text compiled; these are the entry points it declares.
    Compiled { entry_points: Vec<String> },
    /// The text was refused, or could not be read.
    Failed { message: String },
}

/// Mathematical model of a [`CompileOutcome`].
pub enum CompileOutcomeSpec {
    Compiled { entry_points: Seq<Seq<char>> },
    Failed { message: Seq<char> },
}

impl View for CompileOutcome {
    type V = CompileOutcomeSpec;

    open spec fn view(&self) -> CompileOutcomeSpec {
        match self {
            CompileOutcome::Compiled { entry_points } => CompileOutcomeSpec::Compiled {
                entry_points: names_of(entry_points@),
            },
            CompileOutcome::Failed { message } => CompileOutcomeSpec::Failed { message: message@ },
        }
    }
}

/// Something the frame loop observed.
#[derive(Debug)]
pub enum WatchEvent {
    /// A material refers to the source.
    Referenced,
    /// The modification signal of the file fired.
    FileChanged,
    /// The pending content was handed to the compiler.
    Reload(CompileOutcome),
    /// The pipelines built from earlier revisions are gone.
    PipelinesInvalidated,
}

/// Mathematical model of a [`WatchEvent`].
pub enum WatchEventSpec {
    Referenced,
    FileChanged,
    Reload(CompileOutcomeSpec),
    PipelinesInvalidated,
}

impl View for WatchEvent {
    type V = WatchEventSpec;

    open spec fn view(&self) -> WatchEventSpec {
        match self {
            WatchEvent::Referenced => WatchEventSpec::Referenced,
            WatchEvent::FileChanged => WatchEventSpec::FileChanged,
            WatchEvent::Reload(outcome) => WatchEventSpec::Reload(outcome@),
            WatchEvent::PipelinesInvalidated => WatchEventSpec::PipelinesInvalidated,
        }
    }
}

/// Mathematical model of a [`ShaderSource`].
pub struct ShaderSourceSpec {
    pub path: Seq<char>,
    /// Counts the modifications of the file seen so far.
    pub revision: u64,
    pub state: WatchState,
    /// Revision of the content that the compiled module was built from.
    pub compiled_revision: u64,
    /// Entry points that the compiled module declares.
    pub entry_points: Seq<Seq<char>>,
    /// The error of the last compilation, if it failed.
    pub error: Option<Seq<char>>,
}

/// `revision + 1`, or `revision` where that cannot be represented.
pub open spec fn bump(revision: u64) -> u64 {
    if revision < u64::MAX {
        (revision + 1) as u64
    } else {
        revision
    }
}

/// The transition function of the watcher: the source after `event`.
pub open spec fn next_source(source: ShaderSourceSpec, event: WatchEventSpec) -> ShaderSourceSpec {
    match event {
        WatchEventSpec::Referenced => match source.state {
            WatchState::Unwatched => ShaderSourceSpec { state: WatchState::Watching, ..source },
            _ => source,
        },
        WatchEventSpec::FileChanged => match source.state {
            WatchState::Unwatched => source,
            _ => ShaderSourceSpec {
                state: WatchState::ChangedPending,
                revision: bump(source.revision),
                ..source
            },
        },
        WatchEventSpec::Reload(outcome) => match source.state {
            WatchState::ChangedPending => match outcome {
                CompileOutcomeSpec::Compiled { entry_points } => ShaderSourceSpec {
                    state: WatchState::Reloaded,
                    compiled_revision: source.revision,
                    entry_points,
                    error: None,
                    ..source
                },
                CompileOutcomeSpec::Failed { message } => ShaderSourceSpec {
                    state: WatchState::Reloaded,
                    error: Some(message),
                    ..source
                },
            },
            _ => source,
        },
        WatchEventSpec::PipelinesInvalidated => match source.state {
            WatchState::Reloaded => if source.error is None {
                ShaderSourceSpec { state: WatchState::Watching, ..source }
            } else {
                source
            },
            _ => source,
        },
    }
}

/// What the frame loop has to do after `event` arrived at `source`.
pub open spec fn next_action(source: ShaderSourceSpec, event: WatchEventSpec) -> WatchAction {
    match event {
        WatchEventSpec::Referenced => match source.state {
            WatchState::Unwatched => WatchAction::StartWatching,
            _ => WatchAction::Nothing,
        },
        WatchEventSpec::FileChanged => WatchAction::Nothing,
        WatchEventSpec::Reload(outcome) => match source.state {
            WatchState::ChangedPending => match outcome {
                CompileOutcomeSpec::Compiled { .. } => WatchAction::InvalidatePipelines,
                CompileOutcomeSpec::Failed { .. } => WatchAction::ReportError,
            },
            _ => WatchAction::Nothing,
        },
        WatchEventSpec::PipelinesInvalidated => WatchAction::Nothing,
    }
}

/// The compiled module never runs ahead of the file.
pub open spec fn source_wf(source: ShaderSourceSpec) -> bool {
    source.compiled_revision <= source.revision
}

/// No event makes the revision counter go back, and every event keeps the
/// compiled module at or behind the file.
pub proof fn law_revision_monotonic(source: ShaderSourceSpec, event: WatchEventSpec)
    requires
        source_wf(source),
    ensures
        source.revision <= next_source(source, event).revision,
        source.compiled_revision <= next_source(source, event).compiled_revision,
        source_wf(next_source(source, event)),
{
}

/// A reload that fails leaves the watcher in `Reloaded` with the error
/// recorded and the compiled module untouched: the revision that pipelines
/// are keyed by and the entry points stay those of the last good
/// compilation, whatever is invalidated afterwards.
pub proof fn law_failed_reload_keeps_module(source: ShaderSourceSpec, message: Seq<char>)
    requires
        source.state == WatchState::ChangedPending,
    ensures
        ({
            let failed = next_source(
                source,
                WatchEventSpec::Reload(CompileOutcomeSpec::Failed { message }),
            );
            &&& failed.state == WatchState::Reloaded
            &&& failed.error == Some(message)
            &&& failed.compiled_revision == source.compiled_revision
            &&& failed.entry_points == source.entry_points
            &&& failed.revision == source.revision
            &&& next_source(failed, WatchEventSpec::PipelinesInvalidated) == failed
            &&& next_source(failed, WatchEventSpec::Referenced) == failed
        }),
{
}

/// Why a shader source could not be set up.
#[derive(Debug)]
pub enum ShaderError {
    /// The first compilation failed: there is nothing to render with.
    Unavailable { message: String },
}

impl ShaderError {
    /// The diagnostic that came with the error.
    pub open spec fn reason(self) -> Seq<char> {
        match self {
            ShaderError::Unavailable { message } => message@,
        }
    }

    /// The diagnostic that came with the error.
    pub fn message(&self) -> (m: &String)
        ensures
            m@ == self.reason(),
    {
        match self {
            ShaderError::Unavailable { message } => message,
        }
    }
}

/// A shader source file and its watcher.
#[derive(Debug)]
pub struct ShaderSource {
    path: String,
    revision: u64,
    state: WatchState,
    compiled_revision: u64,
    entry_points: Vec<String>,
    error: Option<String>,
}

impl View for ShaderSource {
    type V = ShaderSourceSpec;

    closed spec fn view(&self) -> ShaderSourceSpec {
        ShaderSourceSpec {
            path: self.path@,
            revision: self.revision,
            state: self.state,
            compiled_revision: self.compiled_revision,
            entry_points: names_of(self.entry_points@),
            error: match self.error {
                Some(message) => Some(message@),
                None => None,
            },
        }
    }
}

impl ShaderSource {
    /// Sets up the source at `path` from the outcome of its first
    /// compilation. A failure at this point is fatal for the caller.
    pub fn load(path: String, outcome: CompileOutcome) -> (r: Result<ShaderSource, ShaderError>)
        ensures
            match outcome@ {
                CompileOutcomeSpec::Compiled { entry_points } => r is Ok && r->Ok_0@
                    == (ShaderSourceSpec {
                    path: path@,
                    revision: 0,
                    state: WatchState::Unwatched,
                    compiled_revision: 0,
                    entry_points,
                    error: None,
                }),
                CompileOutcomeSpec::Failed { message } => r is Err && r->Err_0.reason() == message,
            },
    {
        match outcome {
            CompileOutcome::Compiled { entry_points } => Ok(
                ShaderSource {
                    path,
                    revision: 0,
                    state: WatchState::Unwatched,
                    compiled_revision: 0,
                    entry_points,
                    error: None,
                },
            ),
            CompileOutcome::Failed { message } => Err(ShaderError::Unavailable { message }),
        }
    }

    /// Feeds one event to the watcher and says what to do next.
    pub fn handle(&mut self, event: WatchEvent) -> (action: WatchAction)
        ensures
            final(self)@ == next_source(old(self)@, event@),
            action == next_action(old(self)@, event@),
            source_wf(old(self)@) ==> source_wf(final(self)@),
    {
        match event {
            WatchEvent::Referenced => match self.state {
                WatchState::Unwatched => {
                    self.state = WatchState::Watching;
                    WatchAction::StartWatching
                },
                _ => WatchAction::Nothing,
            },
            WatchEvent::FileChanged => {
                match self.state {
                    WatchState::Unwatched => {},
                    _ => {
                        self.state = WatchState::ChangedPending;
                        if self.revision < u64::MAX {
                            self.revision = self.revision + 1;
                        }
                    },
                }
                WatchAction::Nothing
            },
            WatchEvent::Reload(outcome) => match self.state {
                WatchState::ChangedPending => match outcome {
                    CompileOutcome::Compiled { entry_points } => {
                        self.state = WatchState::Reloaded;
                        self.compiled_revision = self.revision;
                        self.entry_points = entry_points;
                        self.error = None;
                        WatchAction::InvalidatePipelines
                    },
                    CompileOutcome::Failed { message } => {
                        self.state = WatchState::Reloaded;
                        self.error = Some(message);
                        WatchAction::ReportError
                    },
                },
                _ => WatchAction::Nothing,
            },
            WatchEvent::PipelinesInvalidated => {
                match self.state {
                    WatchState::Reloaded => {
                        if self.error.is_none() {
                            self.state = WatchState::Watching;
                        }
                    },
                    _ => {},
                }
                WatchAction::Nothing
            },
        }
    }

    /// Where the watcher stands.
    pub fn state(&self) -> (s: WatchState)
        ensures
            s == self@.state,
    {
        self.state
    }

    /// True when changed content waits to be compiled.
    pub fn reload_pending(&self) -> (b: bool)
        ensures
            b == (self@.state == WatchState::ChangedPending),
    {
        match self.state {
            WatchState::ChangedPending => true,
            _ => false,
        }
    }

    /// Number of modifications seen so far.
    pub fn revision(&self) -> (r: u64)
        ensures
            r == self@.revision,
    {
        self.revision
    }

    /// Revision of the content that the current module was compiled from.
    /// Pipelines are keyed by this revision.
    pub fn compiled_revision(&self) -> (r: u64)
        ensures
            r == self@.compiled_revision,
    {
        self.compiled_revision
    }

    /// The entry points that the current module declares.
    pub fn entry_points(&self) -> (names: &Vec<String>)
        ensures
            names_of(names@) == self@.entry_points,
    {
        &self.entry_points
    }

    /// The error of the last compilation, if it failed.
    pub fn error(&self) -> (e: Option<&String>)
        ensures
            match e {
                Some(message) => self@.error == Some(message@),
                None => self@.error is None,
            },
    {
        match &self.error {
            Some(message) => Some(message),
            None => None,
        }
    }

    /// The path of the file, relative to the asset directory.
    pub fn path(&self) -> (p: &String)
        ensures
            p@ == self@.path,
    {
        &self.path
    }
}

} // verus!
