//! Setting a project up: the files that a new project starts with, and the order
//! in which they are checked for and written.
use vstd::prelude::*;
use vstd::string::*;

use crate::file_error::FileError;

verus! {

/// The configuration a new project starts with.
pub const DEFAULT_MEMORY_TOML: &'static str = "ram = { origin = \"0x20000000\", length = \"128K\" }\n\n[sections]\nflash = { origin = \"0x00000000\", length = \"1M\", priority = 1 }\n\n[crates]\n";

/// The build script a new project starts with.
pub const DEFAULT_BUILD_RS: &'static str = "    fn main() {\n    if let Err(err) = crateplace::CratePlacer::new().buildscript() {\n        crateplace::report(&err);\n        std::process::exit(1);\n    }\n}";

/// Errors when setting a project up.
#[derive(Debug)]
pub enum InitError {
    InvalidManifestPath,
    ManifestNotFound,
    MemoryFileExists,
    BuildRsExists,
    FileError(FileError),
}

/// The files that setting a project up writes, beside its manifest.
#[derive(Debug, Clone, Copy, PartialEq, Eq, Structural)]
pub enum InitFile {
    /// The configuration, `Memory.toml`.
    Config,
    /// The ignore list.
    IgnoreList,
    /// The build script, `build.rs`.
    BuildRs,
}

/// How far setting a project up has come.
#[derive(Debug, Clone, Copy, PartialEq, Eq, Structural)]
pub enum InitState {
    /// Nothing done yet.
    Start,
    /// Waiting to hear whether the configuration exists.
    CheckingConfig,
    /// Waiting for the configuration to be written.
    WritingConfig,
    /// Waiting for the ignore list to be written.
    WritingIgnoreList,
    /// Waiting to hear whether the build script exists.
    CheckingBuildRs,
    /// Waiting for the build script to be written.
    WritingBuildRs,
    /// Finished.
    Done,
}

/// What the surroundings report back.
#[derive(Debug)]
pub enum InitEvent {
    /// Nothing yet: the first step.
    Begin,
    /// Whether the file asked about exists.
    Exists(bool),
    /// How writing the file went.
    Written(Result<(), FileError>),
}

/// What is to be done next.
#[derive(Debug)]
pub enum InitAction {
    /// Find out whether the file exists.
    CheckExists(InitFile),
    /// Create the file, which must not exist, with this text.
    Write(InitFile, String),
    /// Stop, with this outcome.
    Finish(Result<(), InitError>),
}

/// The step that setting a project up takes from `state` on `event`, with the
/// action that follows: the configuration must not exist and is written, then the
/// empty ignore list, then the build script, which must not exist either. A write
/// that fails ends the setup with its error; an event that does not answer the
/// pending action changes nothing and asks again.
pub open spec fn init_step_spec(state: InitState, event: InitEvent, r: (InitState, InitAction)) -> bool {
    match (state, event) {
        (InitState::Start, _) => r.0 == InitState::CheckingConfig && r.1 == InitAction::CheckExists(
            InitFile::Config,
        ),
        (InitState::CheckingConfig, InitEvent::Exists(true)) => r.0 == InitState::Done && r.1
            == InitAction::Finish(Err(InitError::MemoryFileExists)),
        (InitState::CheckingConfig, InitEvent::Exists(false)) => r.0 == InitState::WritingConfig
            && pending_action(InitState::WritingConfig, r.1),
        (InitState::WritingConfig, InitEvent::Written(Err(e))) => r.0 == InitState::Done && r.1
            == InitAction::Finish(Err(InitError::FileError(e))),
        (InitState::WritingConfig, InitEvent::Written(Ok(()))) => r.0 == InitState::WritingIgnoreList
            && pending_action(InitState::WritingIgnoreList, r.1),
        (InitState::WritingIgnoreList, InitEvent::Written(Err(e))) => r.0 == InitState::Done && r.1
            == InitAction::Finish(Err(InitError::FileError(e))),
        (InitState::WritingIgnoreList, InitEvent::Written(Ok(()))) => r.0 == InitState::CheckingBuildRs
            && r.1 == InitAction::CheckExists(InitFile::BuildRs),
        (InitState::CheckingBuildRs, InitEvent::Exists(true)) => r.0 == InitState::Done && r.1
            == InitAction::Finish(Err(InitError::BuildRsExists)),
        (InitState::CheckingBuildRs, InitEvent::Exists(false)) => r.0 == InitState::WritingBuildRs
            && pending_action(InitState::WritingBuildRs, r.1),
        (InitState::WritingBuildRs, InitEvent::Written(Err(e))) => r.0 == InitState::Done && r.1
            == InitAction::Finish(Err(InitError::FileError(e))),
        (InitState::WritingBuildRs, InitEvent::Written(Ok(()))) => r.0 == InitState::Done && r.1
            == InitAction::Finish(Ok(())),
        (InitState::Done, _) => r.0 == InitState::Done && r.1 == InitAction::Finish(Ok(())),
        _ => r.0 == state && pending_action(state, r.1),
    }
}

/// The action that `state` waits on.
pub open spec fn pending_action(state: InitState, a: InitAction) -> bool {
    match state {
        InitState::CheckingConfig => a == InitAction::CheckExists(InitFile::Config),
        InitState::WritingConfig => (a matches InitAction::Write(f, t) && f == InitFile::Config && t@
            == DEFAULT_MEMORY_TOML@),
        InitState::WritingIgnoreList => (a matches InitAction::Write(f, t) && f == InitFile::IgnoreList
            && t@ == Seq::<char>::empty()),
        InitState::CheckingBuildRs => a == InitAction::CheckExists(InitFile::BuildRs),
        InitState::WritingBuildRs => (a matches InitAction::Write(f, t) && f == InitFile::BuildRs && t@
            == DEFAULT_BUILD_RS@),
        _ => a == InitAction::Finish(Ok(())),
    }
}

/// The action that `state` waits on.
fn pending(state: InitState) -> (a: InitAction)
    ensures
        pending_action(state, a),
{
    match state {
        InitState::CheckingConfig => InitAction::CheckExists(InitFile::Config),
        InitState::WritingConfig => InitAction::Write(InitFile::Config, String::from_str(DEFAULT_MEMORY_TOML)),
        InitState::WritingIgnoreList => InitAction::Write(InitFile::IgnoreList, String::new()),
        InitState::CheckingBuildRs => InitAction::CheckExists(InitFile::BuildRs),
        InitState::WritingBuildRs => InitAction::Write(InitFile::BuildRs, String::from_str(DEFAULT_BUILD_RS)),
        _ => InitAction::Finish(Ok(())),
    }
}

/// One step of setting a project up: from how far it has come and what was
/// reported back, how far it comes and what is to be done next.
pub fn init_step(state: InitState, event: InitEvent) -> (r: (InitState, InitAction))
    ensures
        init_step_spec(state, event, r),
{
    match (state, event) {
        (InitState::Start, _) => (InitState::CheckingConfig, InitAction::CheckExists(InitFile::Config)),
        (InitState::CheckingConfig, InitEvent::Exists(true)) => (
            InitState::Done,
            InitAction::Finish(Err(InitError::MemoryFileExists)),
        ),
        (InitState::CheckingConfig, InitEvent::Exists(false)) => (
            InitState::WritingConfig,
            InitAction::Write(InitFile::Config, String::from_str(DEFAULT_MEMORY_TOML)),
        ),
        (InitState::WritingConfig, InitEvent::Written(Err(e))) => (
            InitState::Done,
            InitAction::Finish(Err(InitError::FileError(e))),
        ),
        (InitState::WritingConfig, InitEvent::Written(Ok(()))) => (
            InitState::WritingIgnoreList,
            InitAction::Write(InitFile::IgnoreList, String::new()),
        ),
        (InitState::WritingIgnoreList, InitEvent::Written(Err(e))) => (
            InitState::Done,
            InitAction::Finish(Err(InitError::FileError(e))),
        ),
        (InitState::WritingIgnoreList, InitEvent::Written(Ok(()))) => (
            InitState::CheckingBuildRs,
            InitAction::CheckExists(InitFile::BuildRs),
        ),
        (InitState::CheckingBuildRs, InitEvent::Exists(true)) => (
            InitState::Done,
            InitAction::Finish(Err(InitError::BuildRsExists)),
        ),
        (InitState::CheckingBuildRs, InitEvent::Exists(false)) => (
            InitState::WritingBuildRs,
            InitAction::Write(InitFile::BuildRs, String::from_str(DEFAULT_BUILD_RS)),
        ),
        (InitState::WritingBuildRs, InitEvent::Written(Err(e))) => (
            InitState::Done,
            InitAction::Finish(Err(InitError::FileError(e))),
        ),
        (InitState::WritingBuildRs, InitEvent::Written(Ok(()))) => (
            InitState::Done,
            InitAction::Finish(Ok(())),
        ),
        (InitState::Done, _) => (InitState::Done, InitAction::Finish(Ok(()))),
        (s, _) => (s, pending(s)),
    }
}

} // verus!
