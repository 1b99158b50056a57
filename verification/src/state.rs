//! Versioned runtime state that terminal sessions share.
//!
//! Runtime state is deliberately separate from user configuration. Every
//! mutation reloads the latest state under a lock, decides here what to store,
//! and replaces the state file before the lock is released. This module holds
//! the decisions; reading, locking and writing belong to the caller.

use vstd::prelude::*;
use vstd::string::*;
use vstd::utf8::*;

use crate::paths::{deduplicate_paths, distinct_paths, join, joined};
use crate::text::{
    append_bytes, append_decimal, append_number, byte_strings, copy_bytes, decimal_chars,
    decimal_digits, lemma_decimal_digits_shape, utf8_text,
};
use crate::timestamps::{parse_rfc3339_millis, parsed_moment};
use crate::updater::{
    law_merging_never_rolls_back, lemma_at_least_chain, lemma_at_least_itself, optional_text, text_version, update_debug_chars, UpdateState, UpdateView};
use crate::version::lemma_versions_start_with_a_digit;

verus! {

/// Current on-disk runtime-state schema.
pub const CURRENT_STATE_VERSION: u32 = 2;

/// Maximum state or legacy-state input size: 256 KiB.
pub const MAX_STATE_BYTES: usize = 256 * 1024;

/// Most backups that may share one timestamp.
pub const MAX_BACKUP_COLLISIONS: u8 = 100;

/// Last interactive completion mode selected by the user.
#[derive(Clone, Copy, Debug, PartialEq, Eq, Structural)]
pub enum LastMode {
    /// Specification completion mode.
    Spec,
    /// Shell-history search mode.
    History,
}

/// Runtime state as a value.
#[verifier::ext_equal]
pub struct RuntimeView {
    pub last_mode: Option<LastMode>,
    pub updater: UpdateView,
}

impl RuntimeView {
    /// State of which nothing was ever stored.
    pub open spec fn fresh() -> Self {
        RuntimeView { last_mode: None, updater: UpdateView::fresh() }
    }
}

/// Small runtime state shared by terminal sessions.
pub struct RuntimeState {
    last_mode: Option<LastMode>,
    updater: UpdateState,
}

impl View for RuntimeState {
    type V = RuntimeView;

    closed spec fn view(&self) -> RuntimeView {
        RuntimeView { last_mode: self.last_mode, updater: self.updater@ }
    }
}

impl Clone for RuntimeState {
    fn clone(&self) -> (copy: Self)
        ensures
            copy@ == self@,
    {
        RuntimeState { last_mode: self.last_mode, updater: self.updater.clone() }
    }
}

impl Default for RuntimeState {
    fn default() -> (state: Self)
        ensures
            state@ == RuntimeView::fresh(),
    {
        RuntimeState { last_mode: None, updater: UpdateState::default() }
    }
}

/// A mode in a diagnostic summary.
pub open spec fn mode_chars(mode: Option<LastMode>) -> Seq<char> {
    match mode {
        Some(LastMode::Spec) => "Some(Spec)"@,
        Some(LastMode::History) => "Some(History)"@,
        None => "None"@,
    }
}

/// Text of [`RuntimeState::debug_text`].
pub open spec fn runtime_debug_chars(state: RuntimeView) -> Seq<char> {
    "RuntimeState { last_mode: "@ + mode_chars(state.last_mode) + ", updater: "@ + update_debug_chars(
        state.updater,
    ) + " }"@
}

impl RuntimeState {
    /// Builds runtime state from validated components.
    pub fn new(last_mode: Option<LastMode>, updater: UpdateState) -> (state: Self)
        ensures
            state@ == (RuntimeView { last_mode, updater: updater@ }),
    {
        RuntimeState { last_mode, updater }
    }

    /// Last selected mode, or none when no selection has been persisted.
    pub fn last_mode(&self) -> (mode: Option<LastMode>)
        ensures
            mode == self@.last_mode,
    {
        self.last_mode
    }

    /// Validated automatic-updater state.
    pub fn updater(&self) -> (updater: &UpdateState)
        ensures
            updater@ == self@.updater,
    {
        &self.updater
    }

    /// Diagnostic summary, which never shows the notified version.
    pub fn debug_text(&self) -> (summary: String)
        ensures
            summary@ == runtime_debug_chars(self@),
    {
        let mut summary = "RuntimeState { last_mode: ".to_owned();
        summary.append(
            match self.last_mode {
                Some(LastMode::Spec) => "Some(Spec)",
                Some(LastMode::History) => "Some(History)",
                None => "None",
            },
        );
        summary.append(", updater: ");
        summary.append(self.updater.debug_text().as_str());
        summary.append(" }");
        summary
    }
}

/// Directories that the platform gives a user.
pub struct StateDirectories {
    /// Data directory of this program.
    pub project_data: Vec<u8>,
    /// Configuration directory of this program.
    pub project_config: Vec<u8>,
    /// Data directory under the program's former name.
    pub iris_data: Vec<u8>,
    /// Configuration directory under the program's former name.
    pub iris_config: Vec<u8>,
    /// Configuration directory of the user.
    pub base_config: Vec<u8>,
    /// Home directory of the user.
    pub home: Vec<u8>,
    /// Data directory that the environment names.
    pub xdg_data: Option<Vec<u8>>,
}

/// State locations as a value.
#[verifier::ext_equal]
pub struct StatePathsView {
    pub current: Seq<u8>,
    pub legacy_toml: Seq<Seq<u8>>,
    pub legacy_state_json: Seq<Seq<u8>>,
    pub legacy_update_json: Seq<Seq<u8>>,
}

/// State locations, each listed once and none of them the current one.
pub open spec fn state_paths(
    current: Seq<u8>,
    legacy_toml: Seq<Seq<u8>>,
    legacy_state_json: Seq<Seq<u8>>,
    legacy_update_json: Seq<Seq<u8>>,
) -> StatePathsView {
    StatePathsView {
        current,
        legacy_toml: distinct_paths(legacy_toml, current),
        legacy_state_json: distinct_paths(legacy_state_json, current),
        legacy_update_json: distinct_paths(legacy_update_json, current),
    }
}

/// ASCII text as bytes.
pub open spec fn ascii(text: &str) -> Seq<u8> {
    encode_utf8(text@)
}

/// Places where older versions kept TOML state, most specific first.
pub open spec fn legacy_candidates(directories: StateDirectories) -> Seq<Seq<u8>> {
    let named = match directories.xdg_data {
        Some(xdg) => if xdg@.len() > 0 && xdg@[0] == 47 {
            seq![
                joined(joined(xdg@, ascii("argmax")), ascii("state.toml")),
                joined(joined(xdg@, ascii("iris")), ascii("state.toml")),
            ]
        } else {
            Seq::empty()
        },
        None => Seq::empty(),
    };
    named + seq![
        joined(directories.project_config@, ascii("state.toml")),
        joined(joined(directories.base_config@, ascii("argmax")), ascii("state.toml")),
        joined(joined(directories.home@, ascii(".local/share/argmax")), ascii("state.toml")),
        joined(joined(directories.home@, ascii(".argmax")), ascii("state.toml")),
        joined(directories.iris_data@, ascii("state.toml")),
        joined(directories.iris_config@, ascii("state.toml")),
        joined(joined(directories.home@, ascii(".local/share/iris")), ascii("state.toml")),
    ]
}

/// State locations below a user's directories.
pub open spec fn discovered_paths(directories: StateDirectories) -> StatePathsView {
    let argmax = joined(directories.home@, ascii(".argmax"));
    let iris = joined(directories.home@, ascii(".iris"));
    state_paths(
        joined(directories.project_data@, ascii("state.toml")),
        legacy_candidates(directories),
        seq![joined(argmax, ascii("state.json")), joined(iris, ascii("state.json"))],
        seq![joined(argmax, ascii("update_state.json")), joined(iris, ascii("update_state.json"))],
    )
}

/// Platform and legacy state locations.
pub struct StatePaths {
    current: Vec<u8>,
    legacy_toml: Vec<Vec<u8>>,
    legacy_state_json: Vec<Vec<u8>>,
    legacy_update_json: Vec<Vec<u8>>,
}

impl View for StatePaths {
    type V = StatePathsView;

    closed spec fn view(&self) -> StatePathsView {
        StatePathsView {
            current: self.current@,
            legacy_toml: byte_strings(self.legacy_toml@),
            legacy_state_json: byte_strings(self.legacy_state_json@),
            legacy_update_json: byte_strings(self.legacy_update_json@),
        }
    }
}

fn below(base: &[u8], directory: &str, file: &str) -> (path: Vec<u8>)
    ensures
        path@ == joined(joined(base@, ascii(directory)), ascii(file)),
{
    join(join(base, directory.as_bytes()).as_slice(), file.as_bytes())
}

fn legacy_toml_candidates(directories: &StateDirectories) -> (candidates: Vec<Vec<u8>>)
    ensures
        byte_strings(candidates@) == legacy_candidates(*directories),
{
    let mut candidates: Vec<Vec<u8>> = Vec::new();
    if let Some(xdg) = &directories.xdg_data {
        if xdg.len() > 0 && xdg[0] == 47 {
            candidates.push(below(xdg.as_slice(), "argmax", "state.toml"));
            candidates.push(below(xdg.as_slice(), "iris", "state.toml"));
        }
    }
    let file: &[u8] = "state.toml".as_bytes();
    candidates.push(join(directories.project_config.as_slice(), file));
    candidates.push(below(directories.base_config.as_slice(), "argmax", "state.toml"));
    candidates.push(below(directories.home.as_slice(), ".local/share/argmax", "state.toml"));
    candidates.push(below(directories.home.as_slice(), ".argmax", "state.toml"));
    candidates.push(join(directories.iris_data.as_slice(), file));
    candidates.push(join(directories.iris_config.as_slice(), file));
    candidates.push(below(directories.home.as_slice(), ".local/share/iris", "state.toml"));
    assert(byte_strings(candidates@) =~= legacy_candidates(*directories));
    candidates
}

/// Text of [`StatePaths::debug_text`].
pub open spec fn paths_debug_chars(paths: StatePathsView) -> Seq<char> {
    "StatePaths { current_path_bytes: "@ + decimal_chars(paths.current.len())
        + ", legacy_toml_count: "@ + decimal_chars(paths.legacy_toml.len())
        + ", legacy_state_json_count: "@ + decimal_chars(paths.legacy_state_json.len())
        + ", legacy_update_json_count: "@ + decimal_chars(paths.legacy_update_json.len()) + " }"@
}

impl StatePaths {
    /// Finds the platform data file and the documented legacy locations below
    /// the user's directories, where the platform has any.
    pub fn discover(directories: Option<StateDirectories>) -> (result: Result<Self, StateStoreError>)
        ensures
            match directories {
                Some(directories) => result matches Ok(paths) && paths@ == discovered_paths(directories),
                None => result matches Err(error) && error is NoPlatformDirectory,
            },
    {
        match directories {
            None => Err(StateStoreError::NoPlatformDirectory),
            Some(directories) => {
                let home: &[u8] = directories.home.as_slice();
                let mut state_json: Vec<Vec<u8>> = Vec::new();
                state_json.push(below(home, ".argmax", "state.json"));
                state_json.push(below(home, ".iris", "state.json"));
                let mut update_json: Vec<Vec<u8>> = Vec::new();
                update_json.push(below(home, ".argmax", "update_state.json"));
                update_json.push(below(home, ".iris", "update_state.json"));
                let current: Vec<u8> = join(
                    directories.project_data.as_slice(),
                    "state.toml".as_bytes(),
                );
                proof {
                    let argmax = joined(directories.home@, ascii(".argmax"));
                    let iris = joined(directories.home@, ascii(".iris"));
                    assert(byte_strings(state_json@) =~= seq![
                        joined(argmax, ascii("state.json")),
                        joined(iris, ascii("state.json")),
                    ]);
                    assert(byte_strings(update_json@) =~= seq![
                        joined(argmax, ascii("update_state.json")),
                        joined(iris, ascii("update_state.json")),
                    ]);
                }
                Ok(
                    StatePaths::with_legacy_json_candidates(
                        current,
                        legacy_toml_candidates(&directories),
                        state_json,
                        update_json,
                    ),
                )
            },
        }
    }

    /// Builds explicit paths with at most one source of each legacy JSON kind.
    pub fn new(
        current: Vec<u8>,
        legacy_toml: Vec<Vec<u8>>,
        legacy_state_json: Option<Vec<u8>>,
        legacy_update_json: Option<Vec<u8>>,
    ) -> (paths: Self)
        ensures
            paths@ == state_paths(
                current@,
                byte_strings(legacy_toml@),
                optional_path(legacy_state_json),
                optional_path(legacy_update_json),
            ),
    {
        StatePaths::with_legacy_json_candidates(
            current,
            legacy_toml,
            path_list(legacy_state_json),
            path_list(legacy_update_json),
        )
    }

    /// Builds explicit paths with ordered candidate lists for each legacy JSON
    /// source. At most the first existing state and updater source is imported.
    pub fn with_legacy_json_candidates(
        current: Vec<u8>,
        legacy_toml: Vec<Vec<u8>>,
        legacy_state_json: Vec<Vec<u8>>,
        legacy_update_json: Vec<Vec<u8>>,
    ) -> (paths: Self)
        ensures
            paths@ == state_paths(
                current@,
                byte_strings(legacy_toml@),
                byte_strings(legacy_state_json@),
                byte_strings(legacy_update_json@),
            ),
    {
        let legacy_toml: Vec<Vec<u8>> = deduplicate_paths(legacy_toml, current.as_slice());
        let legacy_state_json: Vec<Vec<u8>> = deduplicate_paths(
            legacy_state_json,
            current.as_slice(),
        );
        let legacy_update_json: Vec<Vec<u8>> = deduplicate_paths(
            legacy_update_json,
            current.as_slice(),
        );
        StatePaths { current, legacy_toml, legacy_state_json, legacy_update_json }
    }

    /// Current state path.
    pub fn current(&self) -> (path: &[u8])
        ensures
            path@ == self@.current,
    {
        self.current.as_slice()
    }

    /// Candidates for a legacy source of this format, in order.
    pub fn candidates(&self, format: LegacyFormat) -> (paths: &Vec<Vec<u8>>)
        ensures
            byte_strings(paths@) == self@.candidates(format),
    {
        match format {
            LegacyFormat::Toml => &self.legacy_toml,
            LegacyFormat::StateJson => &self.legacy_state_json,
            LegacyFormat::UpdateJson => &self.legacy_update_json,
        }
    }

    /// Diagnostic summary, which never shows a path.
    pub fn debug_text(&self) -> (summary: String)
        ensures
            summary@ == paths_debug_chars(self@),
    {
        let mut summary = "StatePaths { current_path_bytes: ".to_owned();
        append_number(&mut summary, self.current.len() as u128);
        summary.append(", legacy_toml_count: ");
        append_number(&mut summary, self.legacy_toml.len() as u128);
        summary.append(", legacy_state_json_count: ");
        append_number(&mut summary, self.legacy_state_json.len() as u128);
        summary.append(", legacy_update_json_count: ");
        append_number(&mut summary, self.legacy_update_json.len() as u128);
        summary.append(" }");
        summary
    }
}

impl StatePathsView {
    /// Candidates for a legacy source of this format, in order.
    pub open spec fn candidates(self, format: LegacyFormat) -> Seq<Seq<u8>> {
        match format {
            LegacyFormat::Toml => self.legacy_toml,
            LegacyFormat::StateJson => self.legacy_state_json,
            LegacyFormat::UpdateJson => self.legacy_update_json,
        }
    }
}

/// A path, where there is one, as a list.
pub open spec fn optional_path(path: Option<Vec<u8>>) -> Seq<Seq<u8>> {
    match path {
        Some(path) => seq![path@],
        None => Seq::empty(),
    }
}

fn path_list(path: Option<Vec<u8>>) -> (paths: Vec<Vec<u8>>)
    ensures
        byte_strings(paths@) == optional_path(path),
{
    let mut paths: Vec<Vec<u8>> = Vec::new();
    match path {
        Some(path) => {
            paths.push(path);
        },
        None => {},
    }
    assert(byte_strings(paths@) =~= optional_path(path));
    paths
}

/// Format of a legacy source.
#[derive(Clone, Copy, Debug, PartialEq, Eq, Structural)]
pub enum LegacyFormat {
    /// TOML state of an older version.
    Toml,
    /// JSON state of an older version.
    StateJson,
    /// JSON updater state of an older version.
    UpdateJson,
}

impl LegacyFormat {
    /// Whether such a source says which mode was selected.
    pub fn is_state_source(self) -> (is: bool)
        ensures
            is == !(self is UpdateJson),
    {
        match self {
            LegacyFormat::Toml | LegacyFormat::StateJson => true,
            LegacyFormat::UpdateJson => false,
        }
    }
}

/// Content-free state corruption category.
#[derive(Clone, Copy, Debug, PartialEq, Eq, Structural)]
pub enum StateCorruption {
    /// Input exceeded [`MAX_STATE_BYTES`].
    TooLarge,
    /// Input was not valid UTF-8.
    InvalidUtf8,
    /// TOML or JSON syntax/schema was invalid.
    InvalidDocument,
    /// A newer binary wrote an unsupported schema.
    UnsupportedVersion,
    /// Stored updater fields failed validation.
    InvalidUpdater,
}

impl StateCorruption {
    /// Name of the category.
    pub open spec fn text(self) -> Seq<char> {
        match self {
            StateCorruption::TooLarge => "TooLarge"@,
            StateCorruption::InvalidUtf8 => "InvalidUtf8"@,
            StateCorruption::InvalidDocument => "InvalidDocument"@,
            StateCorruption::UnsupportedVersion => "UnsupportedVersion"@,
            StateCorruption::InvalidUpdater => "InvalidUpdater"@,
        }
    }

    /// Name of the category.
    pub fn name(self) -> (name: &'static str)
        ensures
            name@ == self.text(),
    {
        match self {
            StateCorruption::TooLarge => "TooLarge",
            StateCorruption::InvalidUtf8 => "InvalidUtf8",
            StateCorruption::InvalidDocument => "InvalidDocument",
            StateCorruption::UnsupportedVersion => "UnsupportedVersion",
            StateCorruption::InvalidUpdater => "InvalidUpdater",
        }
    }
}

/// Kind of a filesystem failure.
#[derive(Clone, Copy, Debug, PartialEq, Eq, Structural)]
pub enum IoKind {
    /// Something does not exist.
    NotFound,
    /// The caller may not do this.
    PermissionDenied,
    /// The other end was closed.
    BrokenPipe,
    /// Something exists already.
    AlreadyExists,
    /// The call would have to wait.
    WouldBlock,
    /// A directory was needed.
    NotADirectory,
    /// A directory was not wanted.
    IsADirectory,
    /// A directory still has entries.
    DirectoryNotEmpty,
    /// The filesystem cannot be written.
    ReadOnlyFilesystem,
    /// A file on another machine is gone.
    StaleNetworkFileHandle,
    /// An argument was refused.
    InvalidInput,
    /// Some data was refused.
    InvalidData,
    /// The call took too long.
    TimedOut,
    /// Nothing could be written.
    WriteZero,
    /// No space is left.
    StorageFull,
    /// There is no position to go to.
    NotSeekable,
    /// The user's share of the space is used up.
    QuotaExceeded,
    /// A file would become too large.
    FileTooLarge,
    /// Something is in use.
    ResourceBusy,
    /// A program is being run.
    ExecutableFileBusy,
    /// The call would never end.
    Deadlock,
    /// A file has too many names.
    TooManyLinks,
    /// The arguments take too much space.
    ArgumentListTooLong,
    /// The call was interrupted.
    Interrupted,
    /// The platform cannot do this.
    Unsupported,
    /// A file ended too early.
    UnexpectedEof,
    /// No memory is left.
    OutOfMemory,
    /// A failure outside the filesystem.
    Other,
    /// Any other failure.
    Uncategorized,
}

impl IoKind {
    /// Name of the kind.
    pub open spec fn text(self) -> Seq<char> {
        match self {
            IoKind::NotFound => "NotFound"@,
            IoKind::PermissionDenied => "PermissionDenied"@,
            IoKind::BrokenPipe => "BrokenPipe"@,
            IoKind::AlreadyExists => "AlreadyExists"@,
            IoKind::WouldBlock => "WouldBlock"@,
            IoKind::NotADirectory => "NotADirectory"@,
            IoKind::IsADirectory => "IsADirectory"@,
            IoKind::DirectoryNotEmpty => "DirectoryNotEmpty"@,
            IoKind::ReadOnlyFilesystem => "ReadOnlyFilesystem"@,
            IoKind::StaleNetworkFileHandle => "StaleNetworkFileHandle"@,
            IoKind::InvalidInput => "InvalidInput"@,
            IoKind::InvalidData => "InvalidData"@,
            IoKind::TimedOut => "TimedOut"@,
            IoKind::WriteZero => "WriteZero"@,
            IoKind::StorageFull => "StorageFull"@,
            IoKind::NotSeekable => "NotSeekable"@,
            IoKind::QuotaExceeded => "QuotaExceeded"@,
            IoKind::FileTooLarge => "FileTooLarge"@,
            IoKind::ResourceBusy => "ResourceBusy"@,
            IoKind::ExecutableFileBusy => "ExecutableFileBusy"@,
            IoKind::Deadlock => "Deadlock"@,
            IoKind::TooManyLinks => "TooManyLinks"@,
            IoKind::ArgumentListTooLong => "ArgumentListTooLong"@,
            IoKind::Interrupted => "Interrupted"@,
            IoKind::Unsupported => "Unsupported"@,
            IoKind::UnexpectedEof => "UnexpectedEof"@,
            IoKind::OutOfMemory => "OutOfMemory"@,
            IoKind::Other => "Other"@,
            IoKind::Uncategorized => "Uncategorized"@,
        }
    }

    /// Name of the kind.
    pub fn name(self) -> (name: &'static str)
        ensures
            name@ == self.text(),
    {
        match self {
            IoKind::NotFound => "NotFound",
            IoKind::PermissionDenied => "PermissionDenied",
            IoKind::BrokenPipe => "BrokenPipe",
            IoKind::AlreadyExists => "AlreadyExists",
            IoKind::WouldBlock => "WouldBlock",
            IoKind::NotADirectory => "NotADirectory",
            IoKind::IsADirectory => "IsADirectory",
            IoKind::DirectoryNotEmpty => "DirectoryNotEmpty",
            IoKind::ReadOnlyFilesystem => "ReadOnlyFilesystem",
            IoKind::StaleNetworkFileHandle => "StaleNetworkFileHandle",
            IoKind::InvalidInput => "InvalidInput",
            IoKind::InvalidData => "InvalidData",
            IoKind::TimedOut => "TimedOut",
            IoKind::WriteZero => "WriteZero",
            IoKind::StorageFull => "StorageFull",
            IoKind::NotSeekable => "NotSeekable",
            IoKind::QuotaExceeded => "QuotaExceeded",
            IoKind::FileTooLarge => "FileTooLarge",
            IoKind::ResourceBusy => "ResourceBusy",
            IoKind::ExecutableFileBusy => "ExecutableFileBusy",
            IoKind::Deadlock => "Deadlock",
            IoKind::TooManyLinks => "TooManyLinks",
            IoKind::ArgumentListTooLong => "ArgumentListTooLong",
            IoKind::Interrupted => "Interrupted",
            IoKind::Unsupported => "Unsupported",
            IoKind::UnexpectedEof => "UnexpectedEof",
            IoKind::OutOfMemory => "OutOfMemory",
            IoKind::Other => "Other",
            IoKind::Uncategorized => "Uncategorized",
        }
    }
}

/// Redacted runtime-state storage failure.
#[derive(Clone, Copy, Debug)]
pub enum StateStoreError {
    /// No standard user data/home directory is available.
    NoPlatformDirectory,
    /// A configured state path has no usable parent.
    MissingParent,
    /// A state, backup, or lock path is unsafe.
    UnsafeFileType,
    /// A state directory is a symlink or non-directory.
    UnsafeDirectoryType,
    /// Existing state must be migrated before a mutation.
    NeedsMigration,
    /// Existing state is corrupt and was preserved.
    InvalidSource(StateCorruption),
    /// No unique backup name remained.
    BackupNameExhausted,
    /// A migration source changed after it was backed up and was preserved.
    MigrationSourceChanged,
    /// The process-wide lock pathname no longer names the locked inode.
    LockReplaced,
    /// Filesystem failure classified without retaining a path.
    Io {
        /// What was attempted.
        operation: &'static str,
        /// How it failed.
        kind: IoKind,
    },
}

impl StateStoreError {
    /// Text of [`Self::message`].
    pub open spec fn text(self) -> Seq<char> {
        match self {
            StateStoreError::NoPlatformDirectory => "no standard user data directory is available"@,
            StateStoreError::MissingParent => "runtime state path has no parent"@,
            StateStoreError::UnsafeFileType => "runtime state path is not a safe regular file"@,
            StateStoreError::UnsafeDirectoryType => "runtime state directory is not a safe directory"@,
            StateStoreError::NeedsMigration => "runtime state requires migration before it can be written"@,
            StateStoreError::InvalidSource(corruption) => "runtime state is invalid: "@
                + corruption.text(),
            StateStoreError::BackupNameExhausted => "no unused runtime-state backup name is available"@,
            StateStoreError::MigrationSourceChanged => "runtime state changed during migration and was preserved"@,
            StateStoreError::LockReplaced => "runtime state lock was replaced; write was preserved"@,
            StateStoreError::Io { operation, kind } => operation@ + ": "@ + kind.text(),
        }
    }

    /// Human-readable description, which never shows a path.
    pub fn message(&self) -> (message: String)
        ensures
            message@ == self.text(),
    {
        match *self {
            StateStoreError::NoPlatformDirectory => {
                "no standard user data directory is available".to_owned()
            },
            StateStoreError::MissingParent => "runtime state path has no parent".to_owned(),
            StateStoreError::UnsafeFileType => {
                "runtime state path is not a safe regular file".to_owned()
            },
            StateStoreError::UnsafeDirectoryType => {
                "runtime state directory is not a safe directory".to_owned()
            },
            StateStoreError::NeedsMigration => {
                "runtime state requires migration before it can be written".to_owned()
            },
            StateStoreError::InvalidSource(corruption) => {
                let mut message = "runtime state is invalid: ".to_owned();
                message.append(corruption.name());
                message
            },
            StateStoreError::BackupNameExhausted => {
                "no unused runtime-state backup name is available".to_owned()
            },
            StateStoreError::MigrationSourceChanged => {
                "runtime state changed during migration and was preserved".to_owned()
            },
            StateStoreError::LockReplaced => {
                "runtime state lock was replaced; write was preserved".to_owned()
            },
            StateStoreError::Io { operation, kind } => {
                let mut message = operation.to_owned();
                message.append(": ");
                message.append(kind.name());
                message
            },
        }
    }
}

/// Updater fields as a document holds them, old spellings included.
pub struct RawUpdater {
    /// When a check was last reserved, in milliseconds.
    pub reserved_check_ms: Option<u64>,
    /// When a check was last completed, in milliseconds.
    pub completed_check_ms: Option<u64>,
    /// When a check was last made, in milliseconds.
    pub check_ms: Option<u64>,
    /// When a check was last made, in seconds; zero for never.
    pub check_seconds: Option<u64>,
    /// Version that was last announced, with or without its tag prefix.
    pub notified_version: Option<String>,
}

/// A state document.
pub struct RawState {
    /// Schema number.
    pub version: Option<u32>,
    /// Mode at the root of the document.
    pub last_mode: Option<LastMode>,
    /// Mode in the document's core table.
    pub core_last_mode: Option<LastMode>,
    /// Updater fields in a table of their own.
    pub updater: RawUpdater,
    /// Updater fields at the root of the document.
    pub root_update: RawUpdater,
}

/// What an old document says of the time of the last check.
pub enum LegacyCheckTime {
    /// Nothing.
    Absent,
    /// A timestamp, as text.
    Text(String),
    /// Something that is no timestamp.
    Other,
}

/// A first choice, or a second one where there is none.
pub open spec fn or_else<T>(first: Option<T>, second: Option<T>) -> Option<T> {
    if first is Some {
        first
    } else {
        second
    }
}

/// Version text without its tag prefix; none where it is empty.
pub open spec fn untagged(version: Option<Seq<char>>) -> Option<Seq<char>> {
    match version {
        Some(text) => if text.len() == 0 {
            None
        } else if text[0] == 'v' {
            Some(text.subrange(1, text.len() as int))
        } else {
            Some(text)
        },
        None => None,
    }
}

impl RawUpdater {
    /// Milliseconds of the last check, by either old spelling.
    pub open spec fn legacy_check(self) -> Option<u64> {
        or_else(
            self.check_ms,
            match self.check_seconds {
                Some(seconds) => if seconds == 0 {
                    None
                } else {
                    Some((seconds * 1_000) as u64)
                },
                None => None,
            },
        )
    }

    /// Update state that the fields say, or that they cannot be used: a time is
    /// too large or the version is no version.
    pub open spec fn reading(self) -> Result<UpdateView, StateCorruption> {
        let notified = untagged(optional_text(self.notified_version));
        if (self.check_seconds matches Some(seconds) && seconds * 1_000 > u64::MAX) || (notified matches Some(
            version,
        ) && text_version(version) is None) {
            Err(StateCorruption::InvalidUpdater)
        } else {
            Ok(
                UpdateView {
                    reserved: or_else(self.reserved_check_ms, self.legacy_check()),
                    completed: or_else(self.completed_check_ms, self.legacy_check()),
                    notified,
                },
            )
        }
    }

    /// Update state that the fields say.
    pub fn into_update(self) -> (result: Result<UpdateState, StateCorruption>)
        ensures
            match result {
                Ok(state) => self.reading() == Ok::<UpdateView, StateCorruption>(state@),
                Err(error) => self.reading() == Err::<UpdateView, StateCorruption>(error),
            },
    {
        let legacy_seconds: Option<u64> = match self.check_seconds {
            Some(seconds) => if seconds == 0 {
                None
            } else {
                match seconds.checked_mul(1_000) {
                    Some(millis) => Some(millis),
                    None => {
                        return Err(StateCorruption::InvalidUpdater);
                    },
                }
            },
            None => None,
        };
        let legacy_check: Option<u64> = if self.check_ms.is_some() {
            self.check_ms
        } else {
            legacy_seconds
        };
        let reserved: Option<u64> = if self.reserved_check_ms.is_some() {
            self.reserved_check_ms
        } else {
            legacy_check
        };
        let completed: Option<u64> = if self.completed_check_ms.is_some() {
            self.completed_check_ms
        } else {
            legacy_check
        };
        let built: Result<UpdateState, crate::updater::UpdateStateError> = match &self.notified_version {
            None => UpdateState::new(reserved, completed, None),
            Some(version) => {
                let text: &str = version.as_str();
                if text.is_empty() {
                    UpdateState::new(reserved, completed, None)
                } else if text.get_char(0) == 'v' {
                    UpdateState::new(
                        reserved,
                        completed,
                        Some(text.substring_char(1, text.unicode_len())),
                    )
                } else {
                    UpdateState::new(reserved, completed, Some(text))
                }
            },
        };
        match built {
            Ok(state) => Ok(state),
            Err(_) => Err(StateCorruption::InvalidUpdater),
        }
    }
}

/// State of a document, with its schema number.
pub struct ParsedState {
    /// Schema number.
    pub version: u32,
    /// State that the document says.
    pub state: RuntimeState,
}

/// Outcome of reading a document, as a value.
pub type Reading = Result<(u32, RuntimeView), StateCorruption>;

/// Outcome of reading a document, as a value.
pub open spec fn reading_of(parsed: Result<ParsedState, StateCorruption>) -> Reading {
    match parsed {
        Ok(parsed) => Ok((parsed.version, parsed.state@)),
        Err(error) => Err(error),
    }
}

impl RawState {
    /// State that a document says. A missing schema number means the first
    /// schema, and a newer one than this is refused.
    pub open spec fn reading(self) -> Reading {
        let version = match self.version {
            Some(version) => version,
            None => 1,
        };
        if version > CURRENT_STATE_VERSION {
            Err(StateCorruption::UnsupportedVersion)
        } else {
            match (self.updater.reading(), self.root_update.reading()) {
                (Ok(nested), Ok(root)) => Ok(
                    (
                        version,
                        RuntimeView {
                            last_mode: or_else(self.last_mode, self.core_last_mode),
                            updater: nested.merged(root),
                        },
                    ),
                ),
                (Err(error), _) => Err(error),
                (_, Err(error)) => Err(error),
            }
        }
    }

    /// State that a document says.
    pub fn into_parsed(self) -> (result: Result<ParsedState, StateCorruption>)
        ensures
            reading_of(result) == self.reading(),
    {
        let version: u32 = match self.version {
            Some(version) => version,
            None => 1,
        };
        if version > CURRENT_STATE_VERSION {
            return Err(StateCorruption::UnsupportedVersion);
        }
        let last_mode: Option<LastMode> = if self.last_mode.is_some() {
            self.last_mode
        } else {
            self.core_last_mode
        };
        match (self.updater.into_update(), self.root_update.into_update()) {
            (Ok(nested), Ok(root)) => Ok(
                ParsedState {
                    version,
                    state: RuntimeState::new(last_mode, nested.merged_for_persistence(&root)),
                },
            ),
            (Err(error), _) => Err(error),
            (_, Err(error)) => Err(error),
        }
    }
}

impl RawUpdater {
    /// Whether no field is there.
    pub open spec fn empty(self) -> bool {
        &&& self.reserved_check_ms is None
        &&& self.completed_check_ms is None
        &&& self.check_ms is None
        &&& self.check_seconds is None
        &&& self.notified_version is None
    }

    /// Whether these are the fields under which this state is stored.
    pub open spec fn stores(self, state: UpdateView) -> bool {
        &&& self.reserved_check_ms == state.reserved
        &&& self.completed_check_ms == state.completed
        &&& self.check_ms is None
        &&& self.check_seconds is None
        &&& optional_text(self.notified_version) == state.notified
    }
}

impl RawState {
    /// Whether this is the document as which this state is stored: in the current
    /// schema, without old spellings.
    pub open spec fn stores(self, state: RuntimeView) -> bool {
        &&& self.version == Some(CURRENT_STATE_VERSION)
        &&& self.last_mode == state.last_mode
        &&& self.core_last_mode is None
        &&& self.updater.stores(state.updater)
        &&& self.root_update.empty()
    }
}

impl RuntimeState {
    /// Document as which this state is stored.
    pub fn stored_fields(&self) -> (raw: RawState)
        ensures
            raw.stores(self@),
    {
        RawState {
            version: Some(CURRENT_STATE_VERSION),
            last_mode: self.last_mode,
            core_last_mode: None,
            updater: RawUpdater {
                reserved_check_ms: self.updater.last_reserved_check_ms(),
                completed_check_ms: self.updater.last_completed_check_ms(),
                check_ms: None,
                check_seconds: None,
                notified_version: match self.updater.last_notified_version() {
                    Some(version) => Some(version.to_owned()),
                    None => None,
                },
            },
            root_update: RawUpdater {
                reserved_check_ms: None,
                completed_check_ms: None,
                check_ms: None,
                check_seconds: None,
                notified_version: None,
            },
        }
    }
}

/// A stored document says the state that was stored, in the current schema.
pub proof fn law_stored_states_read_back(raw: RawState, state: RuntimeView)
    requires
        state.updater.inv(),
        raw.stores(state),
    ensures
        raw.reading() == Ok::<_, StateCorruption>((CURRENT_STATE_VERSION, state)),
{
    if let Some(version) = state.updater.notified {
        lemma_versions_start_with_a_digit(encode_utf8(version));
        if version[0] == 'v' {
            assert(leading_byte_width_1(118u32) == 118) by (bit_vector);
            assert(encode_utf8(version)[0] == 118);
        }
        assert(untagged(Some(version)) == Some(version));
    }
    assert(raw.updater.reading() == Ok::<_, StateCorruption>(state.updater));
    assert(raw.root_update.reading() == Ok::<_, StateCorruption>(UpdateView::fresh()));
    assert(state.updater.merged(UpdateView::fresh()) =~= state.updater);
}

/// Milliseconds of the last check that an old document says: none where it says
/// nothing or a time before 1970.
pub open spec fn check_time_reading(time: LegacyCheckTime) -> Result<Option<u64>, StateCorruption> {
    match time {
        LegacyCheckTime::Absent => Ok(None),
        LegacyCheckTime::Other => Err(StateCorruption::InvalidUpdater),
        LegacyCheckTime::Text(text) => text_check_time(text@),
    }
}

/// Milliseconds that a timestamp text says: none for a time before 1970.
pub open spec fn text_check_time(text: Seq<char>) -> Result<Option<u64>, StateCorruption> {
    match parsed_moment(encode_utf8(text)) {
        None => Err(StateCorruption::InvalidUpdater),
        Some(moment) => if moment.seconds() < 0 {
            Ok(None)
        } else {
            Ok(Some(moment.unix_millis() as u64))
        },
    }
}

/// Milliseconds of the last check that an old document says.
pub fn legacy_check_ms(time: &LegacyCheckTime) -> (result: Result<Option<u64>, StateCorruption>)
    ensures
        result == check_time_reading(*time),
{
    match time {
        LegacyCheckTime::Absent => Ok(None),
        LegacyCheckTime::Other => Err(StateCorruption::InvalidUpdater),
        LegacyCheckTime::Text(text) => match parse_rfc3339_millis(text.as_str().as_bytes()) {
            Some(millis) => Ok(millis),
            None => Err(StateCorruption::InvalidUpdater),
        },
    }
}

/// State that a document says: `raw` is none where the document does not have
/// the expected shape.
pub open spec fn document_reading(time: LegacyCheckTime, raw: Option<RawState>) -> Reading {
    checked_reading(check_time_reading(time), raw)
}

/// State that a document says, given when it says a check was last made.
pub open spec fn checked_reading(
    time: Result<Option<u64>, StateCorruption>,
    raw: Option<RawState>,
) -> Reading {
    match (time, raw) {
        (Err(error), _) => Err(error),
        (_, None) => Err(StateCorruption::InvalidDocument),
        (Ok(checked), Some(raw)) => match raw.reading() {
            Err(error) => Err(error),
            Ok((version, state)) => Ok(
                (
                    version,
                    RuntimeView {
                        updater: match checked {
                            Some(millis) => state.updater.merged(
                                UpdateView {
                                    reserved: Some(millis),
                                    completed: Some(millis),
                                    notified: None,
                                },
                            ),
                            None => state.updater,
                        },
                        ..state
                    },
                ),
            ),
        },
    }
}

/// State that a document says.
pub fn parse_document(time: LegacyCheckTime, raw: Option<RawState>) -> (result: Result<
    ParsedState,
    StateCorruption,
>)
    ensures
        reading_of(result) == document_reading(time, raw),
{
    let checked: Option<u64> = match legacy_check_ms(&time) {
        Ok(checked) => checked,
        Err(error) => {
            return Err(error);
        },
    };
    match raw {
        None => Err(StateCorruption::InvalidDocument),
        Some(raw) => match raw.into_parsed() {
            Err(error) => Err(error),
            Ok(parsed) => match checked {
                None => Ok(parsed),
                Some(millis) => match UpdateState::new(Some(millis), Some(millis), None) {
                    Err(_) => Err(StateCorruption::InvalidUpdater),
                    Ok(legacy) => {
                        let ghost view = parsed.state@;
                        let updater = parsed.state.updater.merged_for_persistence(&legacy);
                        assert(legacy@ =~= (UpdateView {
                            reserved: Some(millis),
                            completed: Some(millis),
                            notified: None,
                        }));
                        Ok(
                            ParsedState {
                                version: parsed.version,
                                state: RuntimeState::new(parsed.state.last_mode, updater),
                            },
                        )
                    },
                },
            },
        },
    }
}

/// One entry of a TOML table, as a value.
pub enum TomlEntryView {
    /// There is no such table or no such entry.
    Absent,
    /// A date and time, as text.
    Datetime(Seq<char>),
    /// A string.
    Text(Seq<char>),
    /// Anything else.
    Other,
}

/// One entry of a TOML table.
pub enum TomlEntry {
    /// There is no such table or no such entry.
    Absent,
    /// A date and time, as text.
    Datetime(String),
    /// A string.
    Text(String),
    /// Anything else.
    Other,
}

impl View for TomlEntry {
    type V = TomlEntryView;

    open spec fn view(&self) -> TomlEntryView {
        match *self {
            TomlEntry::Absent => TomlEntryView::Absent,
            TomlEntry::Datetime(text) => TomlEntryView::Datetime(text@),
            TomlEntry::Text(text) => TomlEntryView::Text(text@),
            TomlEntry::Other => TomlEntryView::Other,
        }
    }
}

/// What [`toml::from_str`] finds under a key of a top-level table: none where
/// the text is no TOML document.
pub uninterp spec fn toml_entry_of(
    text: Seq<char>,
    table: Seq<char>,
    key: Seq<char>,
) -> Option<TomlEntryView>;

/// Calls [`toml::from_str`] and looks up one key of one top-level table. The
/// entry depends on the three texts alone; the grammar of TOML is not stated.
#[verifier::external_body]
fn toml_entry(text: &str, table: &str, key: &str) -> (entry: Option<TomlEntry>)
    ensures
        match entry {
            Some(entry) => toml_entry_of(text@, table@, key@) == Some(entry@),
            None => toml_entry_of(text@, table@, key@) is None,
        },
{
    let document: toml::Value = toml::from_str(text).ok()?;
    let found = document.get(table).and_then(toml::Value::as_table).and_then(|entries| entries.get(key));
    Some(match found {
        None => TomlEntry::Absent,
        Some(toml::Value::Datetime(moment)) => TomlEntry::Datetime(moment.to_string()),
        Some(toml::Value::String(text)) => TomlEntry::Text(text.clone()),
        Some(_) => TomlEntry::Other,
    })
}

/// What an entry says of the time of the last check.
pub open spec fn entry_check_time(entry: TomlEntryView) -> Result<Option<u64>, StateCorruption> {
    match entry {
        TomlEntryView::Absent => Ok(None),
        TomlEntryView::Datetime(text) => text_check_time(text),
        TomlEntryView::Text(text) => text_check_time(text),
        TomlEntryView::Other => Err(StateCorruption::InvalidUpdater),
    }
}

/// State that a TOML document says, given the entry for the last check and the
/// document's fields; `entry` is none where the text is no document.
pub open spec fn toml_reading(entry: Option<TomlEntryView>, raw: Option<RawState>) -> Reading {
    match entry {
        None => Err(StateCorruption::InvalidDocument),
        Some(entry) => checked_reading(entry_check_time(entry), raw),
    }
}

/// State that a TOML state file says. `raw` holds the fields of its document,
/// where that has the expected shape.
pub fn parse_toml(bytes: &[u8], raw: Option<RawState>) -> (result: Result<ParsedState, StateCorruption>)
    ensures
        if valid_utf8(bytes@) {
            reading_of(result) == toml_reading(
                toml_entry_of(decode_utf8(bytes@), "updater"@, "last-check-time"@),
                raw,
            )
        } else {
            reading_of(result) == Err::<(u32, RuntimeView), _>(StateCorruption::InvalidUtf8)
        },
{
    let text: String = match utf8_text(bytes) {
        Some(text) => text,
        None => {
            return Err(StateCorruption::InvalidUtf8);
        },
    };
    proof {
        encode_utf8_decode_utf8(text@);
    }
    let time: LegacyCheckTime = match toml_entry(text.as_str(), "updater", "last-check-time") {
        None => {
            return Err(StateCorruption::InvalidDocument);
        },
        Some(TomlEntry::Absent) => LegacyCheckTime::Absent,
        Some(TomlEntry::Datetime(text)) => LegacyCheckTime::Text(text),
        Some(TomlEntry::Text(text)) => LegacyCheckTime::Text(text),
        Some(TomlEntry::Other) => LegacyCheckTime::Other,
    };
    parse_document(time, raw)
}

/// Text to write for a state: `rendered` is the document, where there is one, and
/// `raw` the fields that it has when it is read again. What does not read as a
/// state is never written.
pub fn render_state(rendered: Option<String>, raw: Option<RawState>) -> (result: Result<
    String,
    StateStoreError,
>)
    ensures
        match rendered {
            None => result matches Err(error) && error == StateStoreError::InvalidSource(
                StateCorruption::InvalidDocument,
            ),
            Some(text) => match toml_reading(
                toml_entry_of(text@, "updater"@, "last-check-time"@),
                raw,
            ) {
                Ok(_) => result matches Ok(written) && written@ == text@,
                Err(corruption) => result matches Err(error) && error
                    == StateStoreError::InvalidSource(corruption),
            },
        },
{
    let text: String = match rendered {
        Some(text) => text,
        None => {
            return Err(StateStoreError::InvalidSource(StateCorruption::InvalidDocument));
        },
    };
    proof {
        encode_utf8_valid_utf8(text@);
        encode_utf8_decode_utf8(text@);
    }
    match parse_toml(text.as_str().as_bytes(), raw) {
        Ok(_) => Ok(text),
        Err(corruption) => Err(StateStoreError::InvalidSource(corruption)),
    }
}

/// State that a JSON state file says. `raw` holds the fields of its document,
/// where that has the expected shape.
pub fn parse_json(bytes: &[u8], raw: Option<RawState>) -> (result: Result<ParsedState, StateCorruption>)
    ensures
        reading_of(result) == if valid_utf8(bytes@) {
            document_reading(LegacyCheckTime::Absent, raw)
        } else {
            Err(StateCorruption::InvalidUtf8)
        },
{
    if utf8_text(bytes).is_none() {
        return Err(StateCorruption::InvalidUtf8);
    }
    parse_document(LegacyCheckTime::Absent, raw)
}

/// Text of a state file that is neither too large nor broken.
pub fn source_text(bytes: &[u8]) -> (result: Result<String, StateCorruption>)
    ensures
        match result {
            Ok(text) => bytes@.len() <= MAX_STATE_BYTES && encode_utf8(text@) == bytes@,
            Err(StateCorruption::TooLarge) => bytes@.len() > MAX_STATE_BYTES,
            Err(error) => bytes@.len() <= MAX_STATE_BYTES && !valid_utf8(bytes@) && error
                == StateCorruption::InvalidUtf8,
        },
{
    if bytes.len() > MAX_STATE_BYTES {
        return Err(StateCorruption::TooLarge);
    }
    match utf8_text(bytes) {
        Some(text) => Ok(text),
        None => Err(StateCorruption::InvalidUtf8),
    }
}

/// State-file disposition from a load.
#[derive(Clone, Copy, Debug, PartialEq, Eq, Structural)]
pub enum StateLoadStatus {
    /// No current state file exists.
    Missing,
    /// Current schema loaded successfully.
    Current,
    /// A readable older schema requires explicit migration.
    Legacy {
        /// Schema number found, with a missing version treated as version 1.
        version: u32,
    },
    /// Contents were ignored and defaults returned.
    Corrupt(StateCorruption),
}

/// Result of a bounded state load.
pub struct LoadedState {
    /// Valid state, or defaults when the source was missing/corrupt.
    pub state: RuntimeState,
    /// Inspectable source disposition.
    pub status: StateLoadStatus,
}

/// What was found where the state file should be.
pub enum StateSource {
    /// No file.
    Missing,
    /// A file with these contents.
    Document(Result<ParsedState, StateCorruption>),
    /// A file that could not be read.
    Failed(StateStoreError),
}

/// State and disposition that a reading gives: a missing or corrupt file gives
/// defaults.
pub open spec fn loading(source: StateSource) -> Result<(RuntimeView, StateLoadStatus), StateStoreError> {
    match source {
        StateSource::Missing => Ok((RuntimeView::fresh(), StateLoadStatus::Missing)),
        StateSource::Failed(StateStoreError::InvalidSource(corruption)) => Ok(
            (RuntimeView::fresh(), StateLoadStatus::Corrupt(corruption)),
        ),
        StateSource::Failed(error) => Err(error),
        StateSource::Document(parsed) => match reading_of(parsed) {
            Ok((version, state)) => Ok(
                (
                    state,
                    if version == CURRENT_STATE_VERSION {
                        StateLoadStatus::Current
                    } else {
                        StateLoadStatus::Legacy { version }
                    },
                ),
            ),
            Err(corruption) => Ok((RuntimeView::fresh(), StateLoadStatus::Corrupt(corruption))),
        },
    }
}

/// Why state with this disposition must not be overwritten.
pub open spec fn write_refusal(status: StateLoadStatus) -> Option<StateStoreError> {
    match status {
        StateLoadStatus::Missing => None,
        StateLoadStatus::Current => None,
        StateLoadStatus::Legacy { .. } => Some(StateStoreError::NeedsMigration),
        StateLoadStatus::Corrupt(corruption) => Some(StateStoreError::InvalidSource(corruption)),
    }
}

/// Refuses to overwrite state that has to be migrated or repaired first.
pub fn ensure_writable_status(status: StateLoadStatus) -> (result: Result<(), StateStoreError>)
    ensures
        match result {
            Ok(()) => write_refusal(status) is None,
            Err(error) => write_refusal(status) == Some(error),
        },
{
    match status {
        StateLoadStatus::Missing | StateLoadStatus::Current => Ok(()),
        StateLoadStatus::Legacy { .. } => Err(StateStoreError::NeedsMigration),
        StateLoadStatus::Corrupt(corruption) => Err(StateStoreError::InvalidSource(corruption)),
    }
}

/// Outcome of an updater compare-and-store transaction.
pub enum UpdateStoreOutcome {
    /// The proposal is to be installed, and counts once it is.
    Persisted(RuntimeState),
    /// Another writer changed updater state first. The winner is returned.
    Superseded(UpdateState),
}

/// A legacy source that was read.
pub struct LegacySource {
    /// Its format.
    pub format: LegacyFormat,
    /// What it says.
    pub parsed: Result<ParsedState, StateCorruption>,
}

/// What a migration has to install, once every source is backed up and none
/// has changed since it was read.
pub enum MigrationPlan {
    /// Nothing.
    Unneeded,
    /// This state in place of the current file.
    Replace(RuntimeState),
    /// This state, from so many sources, unless a current file has come up.
    Create {
        /// State to install.
        state: RuntimeState,
        /// Number of source files.
        source_count: usize,
    },
}

/// Outcome of state migration/import.
pub enum StateMigrationOutcome {
    /// No source existed or current state already used the current schema.
    Unneeded,
    /// Current state was installed after all sources were backed up.
    Migrated {
        /// Number of source files represented by the migration.
        source_count: usize,
        /// Timestamped backups retained beside their sources.
        backups: Vec<Vec<u8>>,
    },
}

/// What a migration has to install, as a value.
#[verifier::ext_equal]
pub enum PlanView {
    Unneeded,
    Replace(RuntimeView),
    Create { state: RuntimeView, source_count: usize },
}

impl View for MigrationPlan {
    type V = PlanView;

    open spec fn view(&self) -> PlanView {
        match *self {
            MigrationPlan::Unneeded => PlanView::Unneeded,
            MigrationPlan::Replace(state) => PlanView::Replace(state@),
            MigrationPlan::Create { state, source_count } => PlanView::Create {
                state: state@,
                source_count,
            },
        }
    }
}

/// Outcome of a migration, as a value.
#[verifier::ext_equal]
pub enum MigrationOutcomeView {
    Unneeded,
    Migrated { source_count: usize, backups: Seq<Seq<u8>> },
}

impl View for StateMigrationOutcome {
    type V = MigrationOutcomeView;

    open spec fn view(&self) -> MigrationOutcomeView {
        match *self {
            StateMigrationOutcome::Unneeded => MigrationOutcomeView::Unneeded,
            StateMigrationOutcome::Migrated { source_count, backups } => MigrationOutcomeView::Migrated {
                source_count,
                backups: byte_strings(backups@),
            },
        }
    }
}

impl PlanView {
    /// Number of source files to back up.
    pub open spec fn sources(self) -> usize {
        match self {
            PlanView::Unneeded => 0,
            PlanView::Replace(_) => 1,
            PlanView::Create { source_count, .. } => source_count,
        }
    }

    /// State to install.
    pub open spec fn state(self) -> Option<RuntimeView> {
        match self {
            PlanView::Unneeded => None,
            PlanView::Replace(state) => Some(state),
            PlanView::Create { state, .. } => Some(state),
        }
    }

    /// Outcome of a migration whose state was written, or could not be. A
    /// current file that came up meanwhile leaves nothing to migrate.
    pub open spec fn finished(self, backups: Seq<Seq<u8>>, written: Result<(), StateStoreError>) -> Result<
        MigrationOutcomeView,
        StateStoreError,
    > {
        match (self, written) {
            (PlanView::Unneeded, _) => Ok(MigrationOutcomeView::Unneeded),
            (_, Ok(())) => Ok(
                MigrationOutcomeView::Migrated { source_count: self.sources(), backups },
            ),
            (
                PlanView::Create { .. },
                Err(StateStoreError::Io { kind: IoKind::AlreadyExists, .. }),
            ) => Ok(MigrationOutcomeView::Unneeded),
            (_, Err(failure)) => Err(failure),
        }
    }
}

/// What a migration has to install: an older current file in the current
/// schema, or, only where there is no current file, the legacy sources.
pub open spec fn migration_plan(
    current: Option<Result<(u32, RuntimeView), StateCorruption>>,
    sources: Seq<LegacySource>,
) -> Result<PlanView, StateStoreError> {
    match current {
        Some(Err(corruption)) => Err(StateStoreError::InvalidSource(corruption)),
        Some(Ok((version, state))) => if version == CURRENT_STATE_VERSION {
            Ok(PlanView::Unneeded)
        } else {
            Ok(PlanView::Replace(state))
        },
        None => if sources.len() == 0 {
            Ok(PlanView::Unneeded)
        } else {
            match merged_sources(sources) {
                Err(corruption) => Err(StateStoreError::InvalidSource(corruption)),
                Ok(state) => Ok(PlanView::Create { state, source_count: sources.len() as usize }),
            }
        },
    }
}

/// Several legacy sources as one state: a later source goes before an earlier
/// one, as far as it says a mode, and no updater field goes back.
pub open spec fn merged_sources(sources: Seq<LegacySource>) -> Result<RuntimeView, StateCorruption>
    decreases sources.len(),
{
    if sources.len() == 0 {
        Ok(RuntimeView::fresh())
    } else {
        match (merged_sources(sources.drop_last()), reading_of(sources.last().parsed)) {
            (Err(error), _) => Err(error),
            (_, Err(error)) => Err(error),
            (Ok(merged), Ok((_, state))) => Ok(
                RuntimeView {
                    last_mode: if sources.last().format is UpdateJson {
                        merged.last_mode
                    } else {
                        or_else(state.last_mode, merged.last_mode)
                    },
                    updater: state.updater.merged(merged.updater),
                },
            ),
        }
    }
}

proof fn lemma_merged_error(sources: Seq<LegacySource>, count: int, error: StateCorruption)
    requires
        0 <= count <= sources.len(),
        merged_sources(sources.subrange(0, count)) == Err::<RuntimeView, _>(error),
    ensures
        merged_sources(sources) == Err::<RuntimeView, _>(error),
    decreases sources.len() - count,
{
    if count < sources.len() {
        assert(sources.subrange(0, count + 1).drop_last() =~= sources.subrange(0, count));
        lemma_merged_error(sources, count + 1, error);
    } else {
        assert(sources.subrange(0, count) =~= sources);
    }
}

/// Several legacy sources as one state.
pub fn merge_legacy_sources(sources: &Vec<LegacySource>) -> (result: Result<
    RuntimeState,
    StateCorruption,
>)
    ensures
        match result {
            Ok(state) => merged_sources(sources@) == Ok::<RuntimeView, StateCorruption>(state@),
            Err(error) => merged_sources(sources@) == Err::<RuntimeView, StateCorruption>(error),
        },
{
    let mut merged = RuntimeState::default();
    let mut i: usize = 0;
    assert(sources@.subrange(0, 0).len() == 0);
    while i < sources.len()
        invariant
            0 <= i <= sources@.len(),
            merged_sources(sources@.subrange(0, i as int)) == Ok::<RuntimeView, StateCorruption>(
                merged@,
            ),
        decreases sources@.len() - i,
    {
        proof {
            assert(sources@.subrange(0, i + 1).drop_last() =~= sources@.subrange(0, i as int));
        }
        match &sources[i].parsed {
            Err(error) => {
                proof {
                    lemma_merged_error(sources@, i + 1, *error);
                }
                return Err(*error);
            },
            Ok(parsed) => {
                let last_mode: Option<LastMode> = if sources[i].format.is_state_source()
                    && parsed.state.last_mode.is_some() {
                    parsed.state.last_mode
                } else {
                    merged.last_mode
                };
                let updater = parsed.state.updater.merged_for_persistence(&merged.updater);
                merged = RuntimeState::new(last_mode, updater);
            },
        }
        i = i + 1;
    }
    assert(sources@.subrange(0, i as int) =~= sources@);
    Ok(merged)
}

/// One runtime-state store.
pub struct RuntimeStateStore {
    paths: StatePaths,
}

impl View for RuntimeStateStore {
    type V = StatePathsView;

    closed spec fn view(&self) -> StatePathsView {
        self.paths@
    }
}

impl RuntimeStateStore {
    /// Uses one explicit current path without legacy discovery.
    pub fn new(path: Vec<u8>) -> (store: Self)
        ensures
            store@ == state_paths(path@, Seq::empty(), Seq::empty(), Seq::empty()),
    {
        let none: Vec<Vec<u8>> = Vec::new();
        assert(byte_strings(none@) =~= Seq::<Seq<u8>>::empty());
        RuntimeStateStore { paths: StatePaths::new(path, none, None, None) }
    }

    /// Uses the platform and legacy paths below the user's directories.
    pub fn discover(directories: Option<StateDirectories>) -> (result: Result<Self, StateStoreError>)
        ensures
            match directories {
                Some(directories) => result matches Ok(store) && store@ == discovered_paths(directories),
                None => result matches Err(error) && error is NoPlatformDirectory,
            },
    {
        match StatePaths::discover(directories) {
            Ok(paths) => Ok(RuntimeStateStore { paths }),
            Err(error) => Err(error),
        }
    }

    /// Uses an explicit path set.
    pub fn from_paths(paths: StatePaths) -> (store: Self)
        ensures
            store@ == paths@,
    {
        RuntimeStateStore { paths }
    }

    /// Current state path.
    pub fn path(&self) -> (path: &[u8])
        ensures
            path@ == self@.current,
    {
        self.paths.current()
    }

    /// State locations.
    pub fn paths(&self) -> (paths: &StatePaths)
        ensures
            paths@ == self@,
    {
        &self.paths
    }

    /// State that was read. Missing or corrupt contents give defaults with an
    /// inspectable status; only failures of the filesystem are errors.
    pub fn load(&self, source: StateSource) -> (result: Result<LoadedState, StateStoreError>)
        ensures
            match result {
                Ok(loaded) => loading(source) == Ok::<_, StateStoreError>(
                    (loaded.state@, loaded.status),
                ),
                Err(error) => loading(source) == Err::<(RuntimeView, StateLoadStatus), _>(error),
            },
    {
        match source {
            StateSource::Missing => Ok(
                LoadedState { state: RuntimeState::default(), status: StateLoadStatus::Missing },
            ),
            StateSource::Failed(StateStoreError::InvalidSource(corruption)) => Ok(
                LoadedState {
                    state: RuntimeState::default(),
                    status: StateLoadStatus::Corrupt(corruption),
                },
            ),
            StateSource::Failed(error) => Err(error),
            StateSource::Document(Ok(parsed)) => {
                let status = if parsed.version == CURRENT_STATE_VERSION {
                    StateLoadStatus::Current
                } else {
                    StateLoadStatus::Legacy { version: parsed.version }
                };
                Ok(LoadedState { state: parsed.state, status })
            },
            StateSource::Document(Err(corruption)) => Ok(
                LoadedState {
                    state: RuntimeState::default(),
                    status: StateLoadStatus::Corrupt(corruption),
                },
            ),
        }
    }

    /// State to store for a selected mode: every updater field is kept.
    pub fn store_mode(&self, loaded: LoadedState, mode: LastMode) -> (result: Result<
        RuntimeState,
        StateStoreError,
    >)
        ensures
            match result {
                Ok(state) => write_refusal(loaded.status) is None && state@ == (RuntimeView {
                    last_mode: Some(mode),
                    ..loaded.state@
                }),
                Err(error) => write_refusal(loaded.status) == Some(error),
            },
    {
        match ensure_writable_status(loaded.status) {
            Err(error) => Err(error),
            Ok(()) => Ok(RuntimeState::new(Some(mode), loaded.state.updater)),
        }
    }

    /// State to store for proposed updater state: neither a timestamp nor the
    /// notified version goes back, and the last selected mode is kept.
    pub fn store_updater(&self, loaded: LoadedState, proposed: &UpdateState) -> (result: Result<
        RuntimeState,
        StateStoreError,
    >)
        ensures
            match result {
                Ok(state) => write_refusal(loaded.status) is None && state@ == (RuntimeView {
                    updater: proposed@.merged(loaded.state@.updater),
                    ..loaded.state@
                }),
                Err(error) => write_refusal(loaded.status) == Some(error),
            },
    {
        match ensure_writable_status(loaded.status) {
            Err(error) => Err(error),
            Ok(()) => {
                let updater = proposed.merged_for_persistence(&loaded.state.updater);
                Ok(RuntimeState::new(loaded.state.last_mode, updater))
            },
        }
    }

    /// State to store for a two-phase updater proposal, only if the stored
    /// updater state still equals `expected`.
    ///
    /// This is the persistence boundary for check reservations and notification
    /// claims. A superseded proposal stores nothing.
    pub fn compare_and_store_updater(
        &self,
        loaded: LoadedState,
        expected: &UpdateState,
        proposed: &UpdateState,
    ) -> (result: Result<UpdateStoreOutcome, StateStoreError>)
        ensures
            match result {
                Ok(UpdateStoreOutcome::Persisted(state)) => {
                    &&& write_refusal(loaded.status) is None
                    &&& loaded.state@.updater == expected@
                    &&& state@ == (RuntimeView {
                        updater: proposed@.merged(loaded.state@.updater),
                        ..loaded.state@
                    })
                },
                Ok(UpdateStoreOutcome::Superseded(winner)) => {
                    &&& write_refusal(loaded.status) is None
                    &&& loaded.state@.updater != expected@
                    &&& winner@ == loaded.state@.updater
                },
                Err(error) => write_refusal(loaded.status) == Some(error),
            },
    {
        match ensure_writable_status(loaded.status) {
            Err(error) => Err(error),
            Ok(()) => {
                if !loaded.state.updater.same_as(expected) {
                    return Ok(UpdateStoreOutcome::Superseded(loaded.state.updater));
                }
                let updater = proposed.merged_for_persistence(&loaded.state.updater);
                Ok(UpdateStoreOutcome::Persisted(RuntimeState::new(loaded.state.last_mode, updater)))
            },
        }
    }

    /// What a migration has to install: an older current file in the current
    /// schema, or, only where there is no current file, the legacy sources.
    pub fn migrate_if_needed(
        &self,
        current: Option<Result<ParsedState, StateCorruption>>,
        sources: &Vec<LegacySource>,
    ) -> (result: Result<MigrationPlan, StateStoreError>)
        ensures
            ({
                let plan = migration_plan(
                    match current {
                        Some(parsed) => Some(reading_of(parsed)),
                        None => None,
                    },
                    sources@,
                );
                match result {
                    Ok(found) => plan == Ok::<PlanView, StateStoreError>(found@),
                    Err(error) => plan == Err::<PlanView, StateStoreError>(error),
                }
            }),
    {
        match current {
            Some(Err(corruption)) => Err(StateStoreError::InvalidSource(corruption)),
            Some(Ok(parsed)) => {
                if parsed.version == CURRENT_STATE_VERSION {
                    Ok(MigrationPlan::Unneeded)
                } else {
                    Ok(MigrationPlan::Replace(parsed.state))
                }
            },
            None => {
                if sources.len() == 0 {
                    return Ok(MigrationPlan::Unneeded);
                }
                match merge_legacy_sources(sources) {
                    Err(corruption) => Err(StateStoreError::InvalidSource(corruption)),
                    Ok(state) => Ok(MigrationPlan::Create { state, source_count: sources.len() }),
                }
            },
        }
    }
}

impl MigrationPlan {
    fn sources(&self) -> (count: usize)
        ensures
            count == self@.sources(),
    {
        match self {
            MigrationPlan::Unneeded => 0,
            MigrationPlan::Replace(_) => 1,
            MigrationPlan::Create { source_count, .. } => *source_count,
        }
    }
}

/// Next thing to do in a migration.
#[derive(Clone, Copy, Debug, PartialEq, Eq, Structural)]
pub enum MigrationStep {
    /// Back up the source with this number.
    BackUp(usize),
    /// Check that the source with this number is still what was read.
    Recheck(usize),
    /// Install the state.
    Write,
}

/// A migration under way, as a value.
#[verifier::ext_equal]
pub struct MigrationView {
    /// What is to be installed.
    pub plan: PlanView,
    /// Paths of the backups written so far.
    pub backups: Seq<Seq<u8>>,
    /// Number of sources that were found unchanged.
    pub rechecked: usize,
}

impl MigrationView {
    /// Next thing to do: every source is backed up, then every source is checked,
    /// and only then the state is installed.
    pub open spec fn step(self) -> Option<MigrationStep> {
        if self.plan is Unneeded {
            None
        } else if self.backups.len() < self.plan.sources() {
            Some(MigrationStep::BackUp(self.backups.len() as usize))
        } else if self.rechecked < self.plan.sources() {
            Some(MigrationStep::Recheck(self.rechecked))
        } else {
            Some(MigrationStep::Write)
        }
    }
}

/// A migration under way.
pub struct Migration {
    plan: MigrationPlan,
    backups: Vec<Vec<u8>>,
    rechecked: usize,
}

impl View for Migration {
    type V = MigrationView;

    closed spec fn view(&self) -> MigrationView {
        MigrationView {
            plan: self.plan@,
            backups: byte_strings(self.backups@),
            rechecked: self.rechecked,
        }
    }
}

impl Migration {
    /// Starts a migration.
    pub fn begin(plan: MigrationPlan) -> (migration: Self)
        ensures
            migration@ == (MigrationView { plan: plan@, backups: Seq::empty(), rechecked: 0 }),
    {
        let migration = Migration { plan, backups: Vec::new(), rechecked: 0 };
        assert(migration@.backups =~= Seq::<Seq<u8>>::empty());
        migration
    }

    /// What is to be installed.
    pub fn plan(&self) -> (plan: &MigrationPlan)
        ensures
            plan@ == self@.plan,
    {
        &self.plan
    }

    /// Next thing to do, unless no migration is needed.
    pub fn step(&self) -> (step: Option<MigrationStep>)
        ensures
            step == self@.step(),
    {
        let sources: usize = self.plan.sources();
        match &self.plan {
            MigrationPlan::Unneeded => None,
            _ => if self.backups.len() < sources {
                Some(MigrationStep::BackUp(self.backups.len()))
            } else if self.rechecked < sources {
                Some(MigrationStep::Recheck(self.rechecked))
            } else {
                Some(MigrationStep::Write)
            },
        }
    }

    /// Notes the path of one more backup.
    pub fn backed_up(&mut self, path: Vec<u8>)
        requires
            old(self)@.step() matches Some(step) && step is BackUp,
        ensures
            final(self)@ == (MigrationView { backups: old(self)@.backups.push(path@), ..old(self)@ }),
    {
        let ghost before = self.backups@;
        self.backups.push(path);
        assert(byte_strings(self.backups@) =~= byte_strings(before).push(path@));
    }

    /// Notes whether one more source was found unchanged. One that was not stops
    /// the migration.
    pub fn rechecked(&mut self, unchanged: bool) -> (result: Result<(), StateStoreError>)
        requires
            old(self)@.step() matches Some(step) && step is Recheck,
        ensures
            if unchanged {
                result is Ok && final(self)@ == (MigrationView {
                    rechecked: (old(self)@.rechecked + 1) as usize,
                    ..old(self)@
                })
            } else {
                result matches Err(error) && error is MigrationSourceChanged && final(self)@ == old(self)@
            },
    {
        if !unchanged {
            return Err(StateStoreError::MigrationSourceChanged);
        }
        self.rechecked = self.rechecked + 1;
        Ok(())
    }

    /// Outcome of a migration whose state was written, or could not be. A
    /// current file that came up meanwhile leaves nothing to migrate.
    pub fn finish(self, written: Result<(), StateStoreError>) -> (result: Result<
        StateMigrationOutcome,
        StateStoreError,
    >)
        requires
            self@.step() is None || self@.step() == Some(MigrationStep::Write),
        ensures
            match result {
                Ok(outcome) => self@.plan.finished(self@.backups, written) == Ok::<
                    MigrationOutcomeView,
                    StateStoreError,
                >(outcome@),
                Err(error) => self@.plan.finished(self@.backups, written) == Err::<
                    MigrationOutcomeView,
                    StateStoreError,
                >(error),
            },
    {
        let source_count: usize = self.plan.sources();
        match (&self.plan, written) {
            (MigrationPlan::Unneeded, _) => Ok(StateMigrationOutcome::Unneeded),
            (_, Ok(())) => Ok(
                StateMigrationOutcome::Migrated { source_count, backups: self.backups },
            ),
            (
                MigrationPlan::Create { .. },
                Err(StateStoreError::Io { kind: IoKind::AlreadyExists, .. }),
            ) => Ok(StateMigrationOutcome::Unneeded),
            (_, Err(error)) => Err(error),
        }
    }
}

/// Contents of the files of one migration, as long as nobody else writes.
#[verifier::ext_equal]
pub struct MigrationFiles {
    /// Bytes of the sources.
    pub sources: Seq<Seq<u8>>,
    /// Bytes of the backups.
    pub copies: Seq<Seq<u8>>,
    /// Bytes of the current file, where there is one.
    pub current: Option<Seq<u8>>,
}

impl MigrationFiles {
    /// Files after one step was done: a backup copies its source, a check changes
    /// nothing, and the state is installed, as `content`. Where the current file is
    /// replaced, it is itself the one source.
    pub open spec fn worked(self, plan: PlanView, step: MigrationStep, content: Seq<u8>) -> Self {
        match step {
            MigrationStep::BackUp(at) => MigrationFiles {
                copies: self.copies.push(self.sources[at as int]),
                ..self
            },
            MigrationStep::Recheck(_) => self,
            MigrationStep::Write => MigrationFiles {
                sources: if plan is Replace {
                    seq![content]
                } else {
                    self.sources
                },
                current: Some(content),
                ..self
            },
        }
    }
}

impl MigrationView {
    /// Migration after its next step was done; `path` is where a backup went.
    pub open spec fn stepped(self, path: Seq<u8>) -> Self {
        match self.step() {
            Some(MigrationStep::BackUp(_)) => MigrationView {
                backups: self.backups.push(path),
                ..self
            },
            Some(MigrationStep::Recheck(_)) => MigrationView {
                rechecked: (self.rechecked + 1) as usize,
                ..self
            },
            _ => self,
        }
    }
}

/// Migration and files after so many steps that were done; `paths` says where
/// the backups go.
pub open spec fn migrated_after(
    migration: MigrationView,
    files: MigrationFiles,
    paths: Seq<Seq<u8>>,
    content: Seq<u8>,
    steps: nat,
) -> (MigrationView, MigrationFiles)
    decreases steps,
{
    if steps == 0 {
        (migration, files)
    } else {
        let (before, kept) = migrated_after(migration, files, paths, content, (steps - 1) as nat);
        match before.step() {
            Some(step) => (
                before.stepped(paths[before.backups.len() as int]),
                kept.worked(before.plan, step, content),
            ),
            None => (before, kept),
        }
    }
}

proof fn lemma_migration_steps(
    plan: PlanView,
    sources: Seq<Seq<u8>>,
    current: Option<Seq<u8>>,
    paths: Seq<Seq<u8>>,
    content: Seq<u8>,
    steps: nat,
)
    requires
        !(plan is Unneeded),
        sources.len() == plan.sources(),
        paths.len() == plan.sources(),
        steps <= 2 * plan.sources(),
    ensures
        ({
            let count = plan.sources();
            let (migration, files) = migrated_after(
                MigrationView { plan, backups: Seq::empty(), rechecked: 0 },
                MigrationFiles { sources, copies: Seq::empty(), current },
                paths,
                content,
                steps,
            );
            let copied: int = if steps <= count {
                steps as int
            } else {
                count as int
            };
            &&& migration.plan == plan
            &&& migration.backups == paths.subrange(0, copied)
            &&& migration.rechecked == steps - copied
            &&& files.sources == sources
            &&& files.copies == sources.subrange(0, copied)
            &&& files.current == current
        }),
    decreases steps,
{
    if steps == 0 {
        assert(paths.subrange(0, 0) =~= Seq::<Seq<u8>>::empty());
        assert(sources.subrange(0, 0) =~= Seq::<Seq<u8>>::empty());
    } else {
        lemma_migration_steps(plan, sources, current, paths, content, (steps - 1) as nat);
        if steps <= plan.sources() {
            let at = steps - 1;
            assert(paths.subrange(0, at).push(paths[at]) =~= paths.subrange(0, steps as int));
            assert(sources.subrange(0, at).push(sources[at]) =~= sources.subrange(0, steps as int));
        }
    }
}

/// A migration that nothing disturbs has one backup of each source with its exact
/// bytes before anything is installed. Imported files stay as they are; an older
/// current file is the one that is replaced. What is installed is the state of
/// the plan: where the document that was written has, read again, the fields that
/// were stored, the current file loads as such, and a second migration is
/// unneeded and backs up nothing.
pub proof fn law_second_migration_is_unneeded(
    plan: PlanView,
    sources: Seq<Seq<u8>>,
    current: Option<Seq<u8>>,
    paths: Seq<Seq<u8>>,
    document: Seq<char>,
    raw: RawState,
    parsed: Result<ParsedState, StateCorruption>,
    legacy: Seq<LegacySource>,
)
    requires
        !(plan is Unneeded),
        plan.state()->0.updater.inv(),
        sources.len() == plan.sources(),
        paths.len() == plan.sources(),
        raw.stores(plan.state()->0),
        toml_entry_of(document, "updater"@, "last-check-time"@) == Some(TomlEntryView::Absent),
        reading_of(parsed) == toml_reading(
            toml_entry_of(document, "updater"@, "last-check-time"@),
            Some(raw),
        ),
    ensures
        ({
            let content = encode_utf8(document);
            let state = plan.state()->0;
            let start = MigrationView { plan, backups: Seq::empty(), rechecked: 0 };
            let unmigrated = MigrationFiles { sources, copies: Seq::empty(), current };
            let steps = 2 * plan.sources() as nat;
            let (migration, files) = migrated_after(start, unmigrated, paths, content, steps);
            let written = files.worked(plan, MigrationStep::Write, content);
            let again = MigrationView { plan: PlanView::Unneeded, backups: Seq::empty(), rechecked: 0 };
            &&& migration.step() == Some(MigrationStep::Write)
            &&& files.current == current
            &&& files.copies == sources
            &&& files.sources == sources
            &&& plan is Create ==> written.sources == sources
            &&& written.copies == sources
            &&& written.current == Some(content)
            &&& plan.finished(migration.backups, Ok(())) == Ok::<_, StateStoreError>(
                MigrationOutcomeView::Migrated { source_count: plan.sources(), backups: paths },
            )
            &&& loading(StateSource::Document(parsed)) == Ok::<_, StateStoreError>(
                (state, StateLoadStatus::Current),
            )
            &&& migration_plan(Some(reading_of(parsed)), legacy) == Ok::<_, StateStoreError>(
                PlanView::Unneeded,
            )
            &&& again.step() is None
            &&& again.plan.finished(again.backups, Ok(())) == Ok::<_, StateStoreError>(
                MigrationOutcomeView::Unneeded,
            )
        }),
{
    lemma_migration_steps(
        plan,
        sources,
        current,
        paths,
        encode_utf8(document),
        2 * plan.sources() as nat,
    );
    assert(paths.subrange(0, paths.len() as int) =~= paths);
    assert(sources.subrange(0, sources.len() as int) =~= sources);
    law_stored_states_read_back(raw, plan.state()->0);
}

/// A disposition in a diagnostic summary.
pub open spec fn status_chars(status: StateLoadStatus) -> Seq<char> {
    match status {
        StateLoadStatus::Missing => "Missing"@,
        StateLoadStatus::Current => "Current"@,
        StateLoadStatus::Legacy { version } => "Legacy { version: "@ + decimal_chars(version as nat)
            + " }"@,
        StateLoadStatus::Corrupt(corruption) => "Corrupt("@ + corruption.text() + ")"@,
    }
}

impl LoadedState {
    /// Diagnostic summary, which never shows the notified version.
    pub fn debug_text(&self) -> (summary: String)
        ensures
            summary@ == "LoadedState { state: "@ + runtime_debug_chars(self.state@) + ", status: "@
                + status_chars(self.status) + " }"@,
    {
        let mut summary = "LoadedState { state: ".to_owned();
        summary.append(self.state.debug_text().as_str());
        summary.append(", status: ");
        match self.status {
            StateLoadStatus::Missing => {
                summary.append("Missing");
            },
            StateLoadStatus::Current => {
                summary.append("Current");
            },
            StateLoadStatus::Legacy { version } => {
                summary.append("Legacy { version: ");
                append_number(&mut summary, version as u128);
                summary.append(" }");
            },
            StateLoadStatus::Corrupt(corruption) => {
                summary.append("Corrupt(");
                summary.append(corruption.name());
                summary.append(")");
            },
        }
        summary.append(" }");
        assert(summary@ =~= "LoadedState { state: "@ + runtime_debug_chars(self.state@) + ", status: "@
            + status_chars(self.status) + " }"@);
        summary
    }
}

impl RuntimeStateStore {
    /// Diagnostic summary, which never shows a path.
    pub fn debug_text(&self) -> (summary: String)
        ensures
            summary@ == "RuntimeStateStore { paths: "@ + paths_debug_chars(self@) + " }"@,
    {
        let mut summary = "RuntimeStateStore { paths: ".to_owned();
        summary.append(self.paths.debug_text().as_str());
        summary.append(" }");
        summary
    }
}

impl UpdateStoreOutcome {
    /// Diagnostic summary, which never shows the notified version.
    pub fn debug_text(&self) -> (summary: String)
        ensures
            summary@ == match *self {
                UpdateStoreOutcome::Persisted(state) => "Persisted("@ + runtime_debug_chars(state@)
                    + ")"@,
                UpdateStoreOutcome::Superseded(state) => "Superseded("@ + update_debug_chars(state@)
                    + ")"@,
            },
    {
        match self {
            UpdateStoreOutcome::Persisted(state) => {
                let mut summary = "Persisted(".to_owned();
                summary.append(state.debug_text().as_str());
                summary.append(")");
                summary
            },
            UpdateStoreOutcome::Superseded(state) => {
                let mut summary = "Superseded(".to_owned();
                summary.append(state.debug_text().as_str());
                summary.append(")");
                summary
            },
        }
    }
}

/// Sizes of paths in a diagnostic summary.
pub open spec fn path_sizes(paths: Seq<Seq<u8>>) -> Seq<char>
    decreases paths.len(),
{
    if paths.len() == 0 {
        Seq::empty()
    } else if paths.len() == 1 {
        decimal_chars(paths[0].len())
    } else {
        path_sizes(paths.drop_last()) + ", "@ + decimal_chars(paths.last().len())
    }
}

impl StateMigrationOutcome {
    /// Diagnostic summary, which shows the sizes of paths and never a path.
    pub fn debug_text(&self) -> (summary: String)
        ensures
            summary@ == match *self {
                StateMigrationOutcome::Unneeded => "Unneeded"@,
                StateMigrationOutcome::Migrated { source_count, backups } => "Migrated { source_count: "@
                    + decimal_chars(source_count as nat) + ", backup_path_bytes: ["@ + path_sizes(
                    byte_strings(backups@),
                ) + "] }"@,
            },
    {
        match self {
            StateMigrationOutcome::Unneeded => "Unneeded".to_owned(),
            StateMigrationOutcome::Migrated { source_count, backups } => {
                let mut summary = "Migrated { source_count: ".to_owned();
                append_number(&mut summary, *source_count as u128);
                summary.append(", backup_path_bytes: [");
                append_path_sizes(&mut summary, backups);
                summary.append("] }");
                assert(summary@ =~= "Migrated { source_count: "@ + decimal_chars(*source_count as nat)
                    + ", backup_path_bytes: ["@ + path_sizes(byte_strings(backups@)) + "] }"@);
                summary
            },
        }
    }
}

fn append_path_sizes(summary: &mut String, paths: &Vec<Vec<u8>>)
    ensures
        final(summary)@ == old(summary)@ + path_sizes(byte_strings(paths@)),
{
    let ghost all = byte_strings(paths@);
    let ghost before = summary@;
    let mut i: usize = 0;
    assert(before + path_sizes(all.subrange(0, 0)) =~= before);
    while i < paths.len()
        invariant
            0 <= i <= paths@.len(),
            all == byte_strings(paths@),
            summary@ == before + path_sizes(all.subrange(0, i as int)),
        decreases paths@.len() - i,
    {
        proof {
            assert(all.subrange(0, i + 1).drop_last() =~= all.subrange(0, i as int));
            assert(all.subrange(0, i + 1).last() == paths@[i as int]@);
        }
        if i > 0 {
            summary.append(", ");
        }
        append_number(summary, paths[i].len() as u128);
        assert(summary@ =~= before + path_sizes(all.subrange(0, i + 1)));
        i = i + 1;
    }
    assert(all.subrange(0, i as int) =~= all);
}

/// What the filesystem says of one name.
#[derive(Clone, Copy, Debug, PartialEq, Eq, Structural)]
pub struct FileFacts {
    /// Whether the name is a symbolic link.
    pub symlink: bool,
    /// Whether it is a regular file.
    pub regular: bool,
    /// Whether it is a directory.
    pub directory: bool,
    /// How many names the file has.
    pub links: u64,
    /// Device of the file.
    pub device: u64,
    /// Number of the file on its device.
    pub inode: u64,
}

impl FileFacts {
    /// Whether state may be kept in such a file: a regular one with one name.
    pub open spec fn private_file(self) -> bool {
        !self.symlink && self.regular && self.links == 1
    }

    /// Refuses a file in which state must not be kept.
    pub fn validate_file(&self) -> (result: Result<(), StateStoreError>)
        ensures
            match result {
                Ok(()) => self.private_file(),
                Err(error) => !self.private_file() && error is UnsafeFileType,
            },
    {
        if self.symlink || !self.regular || self.links != 1 {
            Err(StateStoreError::UnsafeFileType)
        } else {
            Ok(())
        }
    }

    /// Refuses a directory in which state must not be kept.
    pub fn validate_directory(&self) -> (result: Result<(), StateStoreError>)
        ensures
            match result {
                Ok(()) => !self.symlink && self.directory,
                Err(error) => (self.symlink || !self.directory) && error is UnsafeDirectoryType,
            },
    {
        if self.symlink || !self.directory {
            Err(StateStoreError::UnsafeDirectoryType)
        } else {
            Ok(())
        }
    }

    /// Whether both are the same file.
    pub open spec fn same_file(self, other: Self) -> bool {
        self.device == other.device && self.inode == other.inode
    }

    /// Whether both are the same file.
    pub fn is_same_file(&self, other: &FileFacts) -> (same: bool)
        ensures
            same == self.same_file(*other),
    {
        self.device == other.device && self.inode == other.inode
    }
}

/// Checks that a lock just taken is the file that its name stands for.
pub fn validate_new_lock(opened: &FileFacts, named: &FileFacts) -> (result: Result<(), StateStoreError>)
    ensures
        match result {
            Ok(()) => named.private_file() && named.same_file(*opened),
            Err(error) => !(named.private_file() && named.same_file(*opened)) && error is UnsafeFileType,
        },
{
    if named.symlink || !named.regular || named.links != 1 || !named.is_same_file(opened) {
        Err(StateStoreError::UnsafeFileType)
    } else {
        Ok(())
    }
}

/// Checks that a held lock still is the file that its name stands for.
/// `named` is none where nothing has that name any more.
pub fn validate_anchor(locked: &FileFacts, opened: &FileFacts, named: Option<FileFacts>) -> (result: Result<
    (),
    StateStoreError,
>)
    ensures
        ({
            let anchored = named matches Some(named) && opened.regular && opened.links == 1
                && opened.same_file(*locked) && named.private_file() && named.same_file(*locked);
            match result {
                Ok(()) => anchored,
                Err(error) => !anchored && error is LockReplaced,
            }
        }),
{
    match named {
        None => Err(StateStoreError::LockReplaced),
        Some(named) => {
            if named.symlink || !named.regular || !opened.regular || opened.links != 1 || named.links != 1
                || !opened.is_same_file(locked) || !named.is_same_file(locked) {
                Err(StateStoreError::LockReplaced)
            } else {
                Ok(())
            }
        },
    }
}

/// Name of the lock beside a file.
pub fn lock_name(file_name: &[u8]) -> (name: Vec<u8>)
    ensures
        name@ == seq![46u8] + file_name@ + ascii(".lock"),
{
    let mut name: Vec<u8> = Vec::new();
    name.push(46);
    append_bytes(&mut name, file_name);
    append_bytes(&mut name, ".lock".as_bytes());
    assert(name@ =~= seq![46u8] + file_name@ + ascii(".lock"));
    name
}

/// Name of a backup beside a file; later ones of one timestamp are numbered.
pub open spec fn backup_file_name(file_name: Seq<u8>, timestamp: u64, collision: u8) -> Seq<u8> {
    let first = file_name + ascii(".backup.") + decimal_digits(timestamp as nat);
    if collision == 0 {
        first
    } else {
        first.push(46) + decimal_digits(collision as nat)
    }
}

/// Name of a backup beside a file.
pub fn backup_name(file_name: &[u8], timestamp: u64, collision: u8) -> (name: Vec<u8>)
    ensures
        name@ == backup_file_name(file_name@, timestamp, collision),
{
    let mut name: Vec<u8> = copy_bytes(file_name);
    append_bytes(&mut name, ".backup.".as_bytes());
    append_decimal(&mut name, timestamp);
    if collision != 0 {
        name.push(46);
        append_decimal(&mut name, collision as u64);
    }
    name
}

/// What to do after an attempt to write a backup.
#[derive(Clone, Copy, Debug)]
pub enum BackupStep {
    /// The backup is written.
    Done,
    /// The name is taken: try the one with this number.
    Retry(u8),
    /// Give up.
    Fail(StateStoreError),
}

/// What to do after an attempt to write the backup with this number.
pub fn after_backup(collision: u8, written: Result<(), IoKind>) -> (step: BackupStep)
    ensures
        match written {
            Ok(()) => step is Done,
            Err(IoKind::AlreadyExists) => if collision + 1 < MAX_BACKUP_COLLISIONS {
                step == BackupStep::Retry((collision + 1) as u8)
            } else {
                step == BackupStep::Fail(StateStoreError::BackupNameExhausted)
            },
            Err(kind) => step matches BackupStep::Fail(StateStoreError::Io { operation, kind: shown })
                && operation@ == "write runtime state backup"@ && shown == kind,
        },
{
    match written {
        Ok(()) => BackupStep::Done,
        Err(IoKind::AlreadyExists) => {
            if collision < MAX_BACKUP_COLLISIONS - 1 {
                BackupStep::Retry(collision + 1)
            } else {
                BackupStep::Fail(StateStoreError::BackupNameExhausted)
            }
        },
        Err(kind) => BackupStep::Fail(
            StateStoreError::Io { operation: "write runtime state backup", kind },
        ),
    }
}

/// Where a search for legacy sources stands.
#[derive(Clone, Copy, Debug)]
pub struct LegacySearch {
    /// Candidate to look at, by its format and its index among that format.
    pub next: Option<(LegacyFormat, usize)>,
}

impl LegacySearch {
    /// First candidate of this format or a later one.
    pub open spec fn first_from(paths: StatePathsView, format: LegacyFormat) -> Self {
        if paths.candidates(format).len() > 0 {
            LegacySearch { next: Some((format, 0)) }
        } else {
            match format {
                LegacyFormat::Toml => if paths.legacy_state_json.len() > 0 {
                    LegacySearch { next: Some((LegacyFormat::StateJson, 0)) }
                } else if paths.legacy_update_json.len() > 0 {
                    LegacySearch { next: Some((LegacyFormat::UpdateJson, 0)) }
                } else {
                    LegacySearch { next: None }
                },
                LegacyFormat::StateJson => if paths.legacy_update_json.len() > 0 {
                    LegacySearch { next: Some((LegacyFormat::UpdateJson, 0)) }
                } else {
                    LegacySearch { next: None }
                },
                LegacyFormat::UpdateJson => LegacySearch { next: None },
            }
        }
    }

    /// Search after the candidate was looked at. A TOML source ends it; of each
    /// JSON format one source is enough.
    pub open spec fn after(self, paths: StatePathsView, found: bool) -> Self {
        match self.next {
            None => self,
            Some((format, index)) => if !found && index + 1 < paths.candidates(format).len() {
                LegacySearch { next: Some((format, (index + 1) as usize)) }
            } else {
                match format {
                    LegacyFormat::Toml => if found {
                        LegacySearch { next: None }
                    } else {
                        LegacySearch::first_from(paths, LegacyFormat::StateJson)
                    },
                    LegacyFormat::StateJson => LegacySearch::first_from(
                        paths,
                        LegacyFormat::UpdateJson,
                    ),
                    LegacyFormat::UpdateJson => LegacySearch { next: None },
                }
            },
        }
    }

    fn from(paths: &StatePaths, format: LegacyFormat) -> (search: Self)
        ensures
            search == LegacySearch::first_from(paths@, format),
    {
        if paths.candidates(format).len() > 0 {
            return LegacySearch { next: Some((format, 0)) };
        }
        match format {
            LegacyFormat::Toml => {
                if paths.legacy_state_json.len() > 0 {
                    LegacySearch { next: Some((LegacyFormat::StateJson, 0)) }
                } else if paths.legacy_update_json.len() > 0 {
                    LegacySearch { next: Some((LegacyFormat::UpdateJson, 0)) }
                } else {
                    LegacySearch { next: None }
                }
            },
            LegacyFormat::StateJson => {
                if paths.legacy_update_json.len() > 0 {
                    LegacySearch { next: Some((LegacyFormat::UpdateJson, 0)) }
                } else {
                    LegacySearch { next: None }
                }
            },
            LegacyFormat::UpdateJson => LegacySearch { next: None },
        }
    }

    /// Starts a search.
    pub fn start(paths: &StatePaths) -> (search: Self)
        ensures
            search == LegacySearch::first_from(paths@, LegacyFormat::Toml),
    {
        LegacySearch::from(paths, LegacyFormat::Toml)
    }

    /// Goes on after the candidate was looked at.
    pub fn advance(self, paths: &StatePaths, found: bool) -> (search: Self)
        ensures
            search == self.after(paths@, found),
    {
        match self.next {
            None => self,
            Some((format, index)) => {
                let count: usize = paths.candidates(format).len();
                if !found && count > 0 && index < count - 1 {
                    return LegacySearch { next: Some((format, index + 1)) };
                }
                match format {
                    LegacyFormat::Toml => {
                        if found {
                            LegacySearch { next: None }
                        } else {
                            LegacySearch::from(paths, LegacyFormat::StateJson)
                        }
                    },
                    LegacyFormat::StateJson => LegacySearch::from(paths, LegacyFormat::UpdateJson),
                    LegacyFormat::UpdateJson => LegacySearch { next: None },
                }
            },
        }
    }
}

/// Updater state that is stored after a run of proposals.
pub open spec fn stored_after(stored: UpdateView, proposals: Seq<UpdateView>) -> UpdateView
    decreases proposals.len(),
{
    if proposals.len() == 0 {
        stored
    } else {
        proposals.last().merged(stored_after(stored, proposals.drop_last()))
    }
}

/// However many proposals are stored, in whatever order: no timestamp and no
/// notified version is ever rolled back behind what was stored or proposed.
pub proof fn law_stored_state_never_rolls_back(stored: UpdateView, proposals: Seq<UpdateView>)
    requires
        stored.inv(),
        forall|i: int| 0 <= i < proposals.len() ==> (#[trigger] proposals[i]).inv(),
    ensures
        ({
            let after = stored_after(stored, proposals);
            &&& after.inv()
            &&& after.at_least(stored)
            &&& forall|i: int| 0 <= i < proposals.len() ==> after.at_least(#[trigger] proposals[i])
        }),
    decreases proposals.len(),
{
    if proposals.len() == 0 {
        law_merging_never_rolls_back(stored, stored);
        lemma_at_least_itself(stored);
    } else {
        let front = proposals.drop_last();
        let before = stored_after(stored, front);
        let after = stored_after(stored, proposals);
        assert forall|i: int| 0 <= i < front.len() implies (#[trigger] front[i]).inv() by {
            assert(front[i] == proposals[i]);
        }
        law_stored_state_never_rolls_back(stored, front);
        assert(proposals[proposals.len() - 1].inv());
        law_merging_never_rolls_back(proposals.last(), before);
        lemma_at_least_chain(after, before, stored);
        assert forall|i: int| 0 <= i < proposals.len() implies after.at_least(
            #[trigger] proposals[i],
        ) by {
            if i < front.len() {
                assert(front[i] == proposals[i]);
                lemma_at_least_chain(after, before, front[i]);
            }
        }
    }
}

/// What is loaded is what the file says; without a file, or where it cannot be
/// used, it is the defaults, and the disposition says which. Any other failure is
/// passed on.
pub proof fn law_loading_says_what_was_found(
    state: RuntimeState,
    version: u32,
    corruption: StateCorruption,
    failure: StateStoreError,
)
    requires
        !(failure is InvalidSource),
    ensures
        loading(StateSource::Missing) == Ok::<_, StateStoreError>(
            (RuntimeView { last_mode: None, updater: UpdateView::fresh() }, StateLoadStatus::Missing),
        ),
        loading(StateSource::Document(Ok(ParsedState { version: CURRENT_STATE_VERSION, state })))
            == Ok::<_, StateStoreError>((state@, StateLoadStatus::Current)),
        version != CURRENT_STATE_VERSION ==> loading(
            StateSource::Document(Ok(ParsedState { version, state })),
        ) == Ok::<_, StateStoreError>((state@, StateLoadStatus::Legacy { version })),
        loading(StateSource::Document(Err(corruption))) == Ok::<_, StateStoreError>(
            (
                RuntimeView { last_mode: None, updater: UpdateView::fresh() },
                StateLoadStatus::Corrupt(corruption),
            ),
        ),
        loading(StateSource::Failed(StateStoreError::InvalidSource(corruption))) == Ok::<
            _,
            StateStoreError,
        >(
            (
                RuntimeView { last_mode: None, updater: UpdateView::fresh() },
                StateLoadStatus::Corrupt(corruption),
            ),
        ),
        loading(StateSource::Failed(failure)) == Err::<(RuntimeView, StateLoadStatus), _>(failure),
{
}

/// Only a missing or a current file may be overwritten: an older one has to be
/// migrated first, and a broken one is left alone.
pub proof fn law_only_current_state_is_overwritten(version: u32, corruption: StateCorruption)
    ensures
        write_refusal(StateLoadStatus::Missing) is None,
        write_refusal(StateLoadStatus::Current) is None,
        write_refusal(StateLoadStatus::Legacy { version }) == Some(StateStoreError::NeedsMigration),
        write_refusal(StateLoadStatus::Corrupt(corruption)) == Some(
            StateStoreError::InvalidSource(corruption),
        ),
{
}

/// A current file decides alone: one in the current schema needs nothing, an older
/// one is replaced by what it says, a broken one stops the migration. Only where
/// there is none are legacy files imported, all of them together.
pub proof fn law_migrations_prefer_the_current_file(
    version: u32,
    state: RuntimeView,
    corruption: StateCorruption,
    sources: Seq<LegacySource>,
)
    ensures
        migration_plan(Some(Ok((CURRENT_STATE_VERSION, state))), sources) == Ok::<_, StateStoreError>(
            PlanView::Unneeded,
        ),
        version != CURRENT_STATE_VERSION ==> migration_plan(Some(Ok((version, state))), sources) == Ok::<
            _,
            StateStoreError,
        >(PlanView::Replace(state)),
        migration_plan(Some(Err(corruption)), sources) == Err::<PlanView, _>(
            StateStoreError::InvalidSource(corruption),
        ),
        migration_plan(None, Seq::empty()) == Ok::<_, StateStoreError>(PlanView::Unneeded),
        sources.len() > 0 && merged_sources(sources) is Ok ==> migration_plan(None, sources) == Ok::<
            _,
            StateStoreError,
        >(
            PlanView::Create {
                state: merged_sources(sources)->Ok_0,
                source_count: sources.len() as usize,
            },
        ),
        sources.len() > 0 && merged_sources(sources) is Err ==> migration_plan(None, sources) == Err::<
            PlanView,
            _,
        >(StateStoreError::InvalidSource(merged_sources(sources)->Err_0)),
{
}

/// A further legacy source adds what it says: its mode counts before that of the
/// others, unless it is about updates alone, and of its updater fields the newest
/// count. One that cannot be read stops the import.
pub proof fn law_legacy_sources_add_up(sources: Seq<LegacySource>, source: LegacySource)
    ensures
        merged_sources(Seq::empty()) == Ok::<_, StateCorruption>(
            RuntimeView { last_mode: None, updater: UpdateView::fresh() },
        ),
        merged_sources(sources) matches Ok(before) ==> match source.parsed {
            Ok(parsed) => {
                &&& merged_sources(sources.push(source)) matches Ok(after)
                &&& after.updater == parsed.state@.updater.merged(before.updater)
                &&& source.format is UpdateJson ==> after.last_mode == before.last_mode
                &&& !(source.format is UpdateJson) && parsed.state@.last_mode is Some ==> after.last_mode
                    == parsed.state@.last_mode
                &&& !(source.format is UpdateJson) && parsed.state@.last_mode is None ==> after.last_mode
                    == before.last_mode
            },
            Err(error) => merged_sources(sources.push(source)) == Err::<RuntimeView, _>(error),
        },
        merged_sources(sources) matches Err(error) ==> merged_sources(sources.push(source)) == Err::<
            RuntimeView,
            _,
        >(error),
{
    assert(sources.push(source).drop_last() =~= sources);
}

/// Old spellings count only where the newer ones are missing: milliseconds before
/// seconds, which count a thousandfold and, where they are zero, not at all.
pub proof fn law_old_spellings_fill_in(raw: RawUpdater, tag: Seq<char>)
    requires
        raw.notified_version is None,
        raw.check_seconds matches Some(seconds) ==> seconds <= u64::MAX / 1_000,
    ensures
        raw.reading() matches Ok(state) && {
            let old = if raw.check_ms is Some {
                raw.check_ms
            } else if raw.check_seconds is Some && raw.check_seconds->0 > 0 {
                Some((raw.check_seconds->0 * 1_000) as u64)
            } else {
                None
            };
            &&& raw.reserved_check_ms is Some ==> state.reserved == raw.reserved_check_ms
            &&& raw.reserved_check_ms is None ==> state.reserved == old
            &&& raw.completed_check_ms is Some ==> state.completed == raw.completed_check_ms
            &&& raw.completed_check_ms is None ==> state.completed == old
            &&& state.notified is None
        },
        untagged(Some(seq!['v'] + tag)) == Some(tag),
        tag.len() > 0 && tag[0] != 'v' ==> untagged(Some(tag)) == Some(tag),
        untagged(Some(Seq::empty())) is None,
{
    assert((seq!['v'] + tag).subrange(1, tag.len() as int + 1) =~= tag);
    assert((seq!['v'] + tag)[0] == 'v');
}

/// The mode at the root of a document counts before that in its core table, a
/// document without a schema number is of the first schema, and one of a newer
/// schema than this is refused.
pub proof fn law_documents_are_read_by_their_schema(raw: RawState)
    ensures
        raw.version matches Some(version) && version > CURRENT_STATE_VERSION ==> raw.reading() == Err::<
            (u32, RuntimeView),
            _,
        >(StateCorruption::UnsupportedVersion),
        raw.reading() matches Ok((version, state)) ==> {
            &&& raw.version is None ==> version == 1
            &&& raw.version is Some ==> version == raw.version->0
            &&& raw.last_mode is Some ==> state.last_mode == raw.last_mode
            &&& raw.last_mode is None ==> state.last_mode == raw.core_last_mode
            &&& raw.updater.reading() is Ok && raw.root_update.reading() is Ok
            &&& state.updater == raw.updater.reading()->Ok_0.merged(raw.root_update.reading()->Ok_0)
        },
        (raw.version matches Some(version) ==> version <= CURRENT_STATE_VERSION) && raw.updater.reading()
            is Ok && raw.root_update.reading() is Ok ==> raw.reading() is Ok,
{
}

/// An old moment of the last check counts for both the reservation and the
/// completion, as far as it is later than what else is said.
pub proof fn law_old_check_times_count_for_both(raw: RawState, millis: u64)
    requires
        raw.reading() is Ok,
    ensures
        checked_reading(Ok(None), Some(raw)) == raw.reading(),
        checked_reading(Ok(Some(millis)), Some(raw)) matches Ok((version, state)) && {
            &&& raw.reading() matches Ok((given, said))
            &&& version == given
            &&& state.last_mode == said.last_mode
            &&& state.updater.reserved matches Some(reserved) && reserved >= millis
            &&& state.updater.completed matches Some(completed) && completed >= millis
            &&& state.updater.notified == said.updater.notified
        },
        checked_reading(Ok(None), None) == Err::<(u32, RuntimeView), _>(StateCorruption::InvalidDocument),
        checked_reading(Err(StateCorruption::InvalidUpdater), Some(raw)) == Err::<(u32, RuntimeView), _>(
            StateCorruption::InvalidUpdater,
        ),
{
    if let Ok((version, said)) = raw.reading() {
        assert(RuntimeView { updater: said.updater, ..said } =~= said);
    }
}

/// Backups of one file never share a name: neither at two moments nor at two
/// numbers of one moment.
pub proof fn law_backups_have_names_of_their_own(
    file_name: Seq<u8>,
    timestamp: u64,
    collision: u8,
    other: u8,
)
    ensures
        backup_file_name(file_name, timestamp, collision).len() > file_name.len(),
        forall|i: int|
            0 <= i < file_name.len() ==> #[trigger] backup_file_name(
                file_name,
                timestamp,
                collision,
            )[i] == file_name[i],
        collision != other ==> backup_file_name(file_name, timestamp, collision) != backup_file_name(
            file_name,
            timestamp,
            other,
        ),
{
    let first = file_name + ascii(".backup.") + decimal_digits(timestamp as nat);
    lemma_decimal_digits_shape(timestamp as nat);
    lemma_decimal_digits_shape(collision as nat);
    lemma_decimal_digits_shape(other as nat);
    let a = backup_file_name(file_name, timestamp, collision);
    let b = backup_file_name(file_name, timestamp, other);
    if a == b && collision != other {
        if collision == 0 {
            assert(a.len() == first.len());
            assert(b.len() > first.len());
        } else if other == 0 {
            assert(b.len() == first.len());
            assert(a.len() > first.len());
        } else {
            assert(a.subrange(first.len() as int + 1, a.len() as int) =~= decimal_digits(
                collision as nat,
            ));
            assert(b.subrange(first.len() as int + 1, b.len() as int) =~= decimal_digits(other as nat));
        }
    }
}

/// Legacy files are looked for in order: a TOML file ends the search, and else
/// one file of each JSON format is taken.
pub proof fn law_legacy_files_are_found_in_order(paths: StatePathsView, index: usize)
    requires
        paths.legacy_toml.len() <= usize::MAX,
        paths.legacy_state_json.len() <= usize::MAX,
        paths.legacy_update_json.len() <= usize::MAX,
    ensures
        ({
            let toml = LegacySearch { next: Some((LegacyFormat::Toml, index)) };
            let state = LegacySearch { next: Some((LegacyFormat::StateJson, index)) };
            let update = LegacySearch { next: Some((LegacyFormat::UpdateJson, index)) };
            let first = LegacySearch::first_from(paths, LegacyFormat::Toml);
            &&& paths.legacy_toml.len() > 0 ==> first.next == Some((LegacyFormat::Toml, 0usize))
            &&& toml.after(paths, true).next is None
            &&& index + 1 < paths.legacy_toml.len() ==> toml.after(paths, false).next == Some(
                (LegacyFormat::Toml, (index + 1) as usize),
            )
            &&& index + 1 >= paths.legacy_toml.len() && paths.legacy_state_json.len() > 0 ==> toml.after(
                paths,
                false,
            ).next == Some((LegacyFormat::StateJson, 0usize))
            &&& index + 1 < paths.legacy_state_json.len() ==> state.after(paths, false).next == Some(
                (LegacyFormat::StateJson, (index + 1) as usize),
            )
            &&& paths.legacy_update_json.len() > 0 ==> state.after(paths, true).next == Some(
                (LegacyFormat::UpdateJson, 0usize),
            )
            &&& paths.legacy_update_json.len() == 0 ==> state.after(paths, true).next is None
            &&& update.after(paths, true).next is None
            &&& index + 1 < paths.legacy_update_json.len() ==> update.after(paths, false).next == Some(
                (LegacyFormat::UpdateJson, (index + 1) as usize),
            )
            &&& paths.legacy_toml.len() == 0 && paths.legacy_state_json.len() == 0
                && paths.legacy_update_json.len() == 0 ==> first.next is None
        }),
{
}

/// State is kept only in a regular file of one name that is no link, and two
/// facts are of one file exactly where device and number agree.
pub proof fn law_state_files_are_private(facts: FileFacts, other: FileFacts)
    ensures
        facts.symlink || !facts.regular || facts.links != 1 ==> !facts.private_file(),
        !facts.symlink && facts.regular && facts.links == 1 ==> facts.private_file(),
        facts.same_file(other) ==> facts.device == other.device && facts.inode == other.inode,
        facts.device == other.device && facts.inode == other.inode ==> facts.same_file(other),
{
}

/// A data directory that the environment names is looked into first, where it is
/// absolute, and otherwise makes no difference.
pub proof fn law_named_data_directories_come_first(with: StateDirectories, without: StateDirectories)
    requires
        without == (StateDirectories { xdg_data: None, ..with }),
    ensures
        with.xdg_data matches Some(xdg) ==> {
            &&& xdg@.len() > 0 && xdg@[0] == 47 ==> legacy_candidates(with) == seq![
                joined(joined(xdg@, ascii("argmax")), ascii("state.toml")),
                joined(joined(xdg@, ascii("iris")), ascii("state.toml")),
            ] + legacy_candidates(without)
            &&& xdg@.len() == 0 || xdg@[0] != 47 ==> legacy_candidates(with) == legacy_candidates(
                without,
            )
        },
        discovered_paths(with).current == joined(with.project_data@, ascii("state.toml")),
        discovered_paths(with).current == discovered_paths(without).current,
{
    let rest = legacy_candidates(without);
    assert(Seq::<Seq<u8>>::empty() + rest =~= rest);
    if let Some(xdg) = with.xdg_data {
        if xdg@.len() > 0 && xdg@[0] == 47 {
            assert(legacy_candidates(with) =~= seq![
                joined(joined(xdg@, ascii("argmax")), ascii("state.toml")),
                joined(joined(xdg@, ascii("iris")), ascii("state.toml")),
            ] + rest);
        } else {
            assert(legacy_candidates(with) =~= rest);
        }
    }
}

/// The old moment of the last check may stand in a document as a date or as
/// text, which read alike; anything else in its place makes the document
/// unusable, and what is no document at all says nothing.
pub proof fn law_old_check_times_are_dates_or_texts(text: Seq<char>, raw: RawState)
    ensures
        entry_check_time(TomlEntryView::Absent) == Ok::<Option<u64>, StateCorruption>(None),
        entry_check_time(TomlEntryView::Datetime(text)) == entry_check_time(TomlEntryView::Text(text)),
        entry_check_time(TomlEntryView::Other) == Err::<Option<u64>, _>(StateCorruption::InvalidUpdater),
        parsed_moment(encode_utf8(text)) is None ==> entry_check_time(TomlEntryView::Text(text)) is Err,
        parsed_moment(encode_utf8(text)) matches Some(moment) ==> {
            &&& moment.seconds() < 0 ==> entry_check_time(TomlEntryView::Text(text)) == Ok::<
                Option<u64>,
                StateCorruption,
            >(None)
            &&& moment.seconds() >= 0 ==> entry_check_time(TomlEntryView::Text(text)) == Ok::<
                Option<u64>,
                StateCorruption,
            >(Some(moment.unix_millis() as u64))
        },
        toml_reading(None, Some(raw)) == Err::<(u32, RuntimeView), _>(StateCorruption::InvalidDocument),
        toml_reading(Some(TomlEntryView::Absent), Some(raw)) == raw.reading(),
{
    if let Ok((version, said)) = raw.reading() {
        assert(RuntimeView { updater: said.updater, ..said } =~= said);
    }
}

} // verus!
