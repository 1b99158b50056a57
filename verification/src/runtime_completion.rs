//! Orchestration of local completion providers.
//!
//! The dispatcher feeds exactly one worker. Query submissions replace pending
//! work during a short debounce window, and completed-command events use a
//! separate bounded queue, so that the interactive runtime can submit work and
//! drain inert provider batches without any I/O of its own. This module holds
//! the queues, their bounds and the decisions; threads and providers belong to
//! the caller.
//!
//! Durations and moments are in nanoseconds of the caller's monotonic clock.

use vstd::prelude::*;
use vstd::string::*;
use vstd::utf8::*;

use crate::completion::{
    CompletionQuery, InsertionBehavior, ProviderBatch, QueryView, Suggestion, SuggestionSource,
    TextEdit,
};
use crate::coordinator::{QueryWork, MAX_BATCH_BYTES, MAX_BATCH_CANDIDATES, MAX_CANDIDATE_BYTES};
use crate::session::{SessionEffect, SessionMode};

use crate::sorted::{
    increasing, insert_sorted, law_stable_orders_follow_the_ranks, listed, order_by_rank,
    stable_order, Rank,
};
use crate::text::{
    append_number, bool_chars, bool_text, decimal_chars, text_before, text_equal, text_len,
};
use crate::words::{
    blank, characters, contains_text, control, first_word, first_word_of, is_blank, is_control,
    is_subsequence, is_white_space, law_plain_first_words, starts_with_text, subsequence, text_contains, text_starts,
    white_space,
};

verus! {

/// Provider identity under which local batches are sent.
pub const LOCAL_COMPLETION_PROVIDER: &'static str = "local";

/// Provider identities to register with the coordinator.
pub const LOCAL_COMPLETION_PROVIDERS: [&'static str; 1] = ["local"];

/// Maximum batches returned by one nonblocking drain.
pub const MAX_COMPLETION_DRAIN_BATCHES: usize = 8;

/// Maximum alias edits returned by one nonblocking drain.
pub const MAX_ALIAS_EXPANSION_DRAIN: usize = 8;

/// Maximum completed commands awaiting asynchronous learning.
pub const MAX_PENDING_COMMAND_EVENTS: usize = 64;

/// Maximum bytes of a command that is learned from.
pub const MAX_LEARNING_COMMAND_BYTES: usize = 16 * 1024;

/// How long a query waits for a newer one.
pub const QUERY_DEBOUNCE: u128 = 20_000_000;

/// Maximum environment names that are completed.
pub const MAX_ENVIRONMENT_NAMES: usize = 4_096;

/// Maximum bytes of an environment name.
pub const MAX_ENVIRONMENT_NAME_BYTES: usize = 1_024;

/// Maximum bytes of commands that a session remembers by itself.
pub const MAX_SESSION_HISTORY_BYTES: usize = 4 * 1024 * 1024;

/// Maximum commands that a session remembers by itself.
pub const MAX_SESSION_HISTORY_ENTRIES: usize = 16 * 1024;

/// Maximum bytes of a ranking skeleton.
pub const MAX_RANKING_SKELETON_BYTES: usize = 8 * 1024;

/// Maximum words of a ranking skeleton.
pub const MAX_RANKING_SKELETON_TOKENS: usize = 64;

/// Skeleton of a command of which nothing may be kept.
pub const UNKNOWN_SKELETON: &'static str = "command";

/// Syntax of a history file.
#[derive(Clone, Copy, Debug, PartialEq, Eq, Structural)]
pub enum HistoryFormat {
    /// Bash history.
    Bash,
    /// Zsh history.
    Zsh,
    /// Fish history.
    Fish,
}

impl HistoryFormat {
    /// Name of the format.
    pub open spec fn text(self) -> Seq<char> {
        match self {
            HistoryFormat::Bash => "Bash"@,
            HistoryFormat::Zsh => "Zsh"@,
            HistoryFormat::Fish => "Fish"@,
        }
    }

    /// Name of the format.
    pub fn name(self) -> (name: &'static str)
        ensures
            name@ == self.text(),
    {
        match self {
            HistoryFormat::Bash => "Bash",
            HistoryFormat::Zsh => "Zsh",
            HistoryFormat::Fish => "Fish",
        }
    }
}

/// One persistent shell-history source.
pub struct HistorySource {
    path: Vec<u8>,
    format: HistoryFormat,
}

impl View for HistorySource {
    type V = (Seq<u8>, HistoryFormat);

    closed spec fn view(&self) -> (Seq<u8>, HistoryFormat) {
        (self.path@, self.format)
    }
}

impl HistorySource {
    /// Creates an explicit history source.
    pub fn new(path: Vec<u8>, format: HistoryFormat) -> (source: Self)
        ensures
            source@ == (path@, format),
    {
        HistorySource { path, format }
    }

    /// History-file path.
    pub fn path(&self) -> (path: &[u8])
        ensures
            path@ == self@.0,
    {
        self.path.as_slice()
    }

    /// History-file syntax.
    pub fn format(&self) -> (format: HistoryFormat)
        ensures
            format == self@.1,
    {
        self.format
    }

    /// Diagnostic summary, which shows the size of the path.
    pub fn debug_text(&self) -> (summary: String)
        ensures
            summary@ == "HistorySource { path_bytes: "@ + decimal_chars(self@.0.len()) + ", format: "@
                + self@.1.text() + " }"@,
    {
        let mut summary = "HistorySource { path_bytes: ".to_owned();
        append_number(&mut summary, self.path.len() as u128);
        summary.append(", format: ");
        summary.append(self.format.name());
        summary.append(" }");
        summary
    }
}

/// Shell whose syntax is completed.
#[derive(Clone, Copy, Debug, PartialEq, Eq, Structural)]
pub enum ShellKind {
    /// Bash.
    Bash,
    /// Zsh.
    Zsh,
    /// Fish.
    Fish,
}

impl ShellKind {
    /// Name of the shell.
    pub open spec fn text(self) -> Seq<char> {
        match self {
            ShellKind::Bash => "Bash"@,
            ShellKind::Zsh => "Zsh"@,
            ShellKind::Fish => "Fish"@,
        }
    }

    /// Name of the shell.
    pub fn name(self) -> (name: &'static str)
        ensures
            name@ == self.text(),
    {
        match self {
            ShellKind::Bash => "Bash",
            ShellKind::Zsh => "Zsh",
            ShellKind::Fish => "Fish",
        }
    }
}

/// Settings that local completion reads.
#[derive(Clone, Copy, Debug, PartialEq, Eq, Structural)]
pub struct LocalSettings {
    /// Most suggestions to show.
    pub max_suggestions: u16,
    /// Whether hidden files are completed.
    pub hidden_files: bool,
    /// Whether a typed space expands an alias.
    pub expand_alias: bool,
    /// Whether unknown commands are asked for completions.
    pub infer_completions: bool,
    /// Whether the branch in use is left out.
    pub filter_active_branch: bool,
    /// Whether a branch is shown once.
    pub deduplicate_branches: bool,
}

/// What generators of suggestions may rely on.
pub struct GeneratorExecutionContext<'a> {
    /// Shell whose syntax is completed.
    pub shell: ShellKind,
    /// Where commands are found.
    pub path: &'a [u8],
    /// Home directory, where it is known.
    pub home_directory: Option<&'a [u8]>,
    /// Names of environment variables.
    pub environment_names: &'a Vec<String>,
    /// Names of environment variables that hold credentials.
    pub credential_environment: &'a Vec<Vec<u8>>,
    /// Whether hidden files are completed.
    pub include_hidden_files: bool,
    /// Whether the branch in use is left out.
    pub filter_active_branch: bool,
    /// Whether a branch is shown once.
    pub deduplicate_branches: bool,
    /// Whether unknown commands are asked for completions.
    pub infer_completions: bool,
}

/// Whether a name of an environment variable is completed.
pub open spec fn completed_name(name: Seq<char>) -> bool {
    &&& name.len() > 0
    &&& encode_utf8(name).len() <= MAX_ENVIRONMENT_NAME_BYTES
    &&& forall|i: int|
        0 <= i < name.len() ==> !control(#[trigger] name[i]) && name[i] != '=' && !white_space(name[i])
}

/// Number of names that are completed.
pub open spec fn completed_count(names: Seq<String>) -> int
    decreases names.len(),
{
    if names.len() == 0 {
        0
    } else {
        completed_count(names.drop_last()) + if completed_name(names.last()@) {
            1int
        } else {
            0int
        }
    }
}

/// Whether a name is one of the first names that are completed.
pub open spec fn taken_name(names: Seq<String>, name: Seq<char>) -> bool {
    exists|i: int|
        0 <= i < names.len() && (#[trigger] names[i])@ == name && completed_name(name)
            && completed_count(names.subrange(0, i)) < MAX_ENVIRONMENT_NAMES
}

fn is_completed_name(name: &str) -> (completed: bool)
    ensures
        completed == completed_name(name@),
{
    if name.is_empty() || text_len(name) > MAX_ENVIRONMENT_NAME_BYTES {
        return false;
    }
    let list: Vec<char> = characters(name);
    let mut i: usize = 0;
    while i < list.len()
        invariant
            0 <= i <= list@.len(),
            list@ == name@,
            forall|j: int|
                0 <= j < i ==> !control(#[trigger] name@[j]) && name@[j] != '=' && !white_space(
                    name@[j],
                ),
        decreases list@.len() - i,
    {
        let c: char = list[i];
        if is_control(c) || c == '=' || is_white_space(c) {
            assert(!(!control(name@[i as int]) && name@[i as int] != '=' && !white_space(name@[i as int])));
            return false;
        }
        i = i + 1;
    }
    true
}

/// The first usable names, sorted and each once.
pub fn bounded_environment_names(names: Vec<String>) -> (kept: Vec<String>)
    ensures
        increasing(kept@),
        kept@.len() <= MAX_ENVIRONMENT_NAMES,
        forall|name: Seq<char>| #[trigger] listed(kept@, name) <==> taken_name(names@, name),
{
    let mut kept: Vec<String> = Vec::new();
    let mut taken: usize = 0;
    let mut i: usize = 0;
    assert(names@.subrange(0, 0).len() == 0);
    while i < names.len()
        invariant
            0 <= i <= names@.len(),
            0 <= taken <= MAX_ENVIRONMENT_NAMES,
            kept@.len() <= taken,
            increasing(kept@),
            taken < MAX_ENVIRONMENT_NAMES ==> taken == completed_count(names@.subrange(0, i as int)),
            taken == MAX_ENVIRONMENT_NAMES ==> completed_count(names@.subrange(0, i as int))
                >= MAX_ENVIRONMENT_NAMES,
            forall|name: Seq<char>|
                #[trigger] listed(kept@, name) <==> taken_name(names@.subrange(0, i as int), name),
        decreases names@.len() - i,
    {
        let ghost before = kept@;
        let ghost front = names@.subrange(0, i as int);
        let ghost longer = names@.subrange(0, i + 1);
        proof {
            assert(longer.drop_last() =~= front);
            assert(longer.last() == names@[i as int]);
        }
        let usable: bool = is_completed_name(names[i].as_str());
        if usable && taken < MAX_ENVIRONMENT_NAMES {
            insert_sorted(&mut kept, names[i].as_str().to_owned());
            taken = taken + 1;
        }
        assert forall|name: Seq<char>| #[trigger] listed(kept@, name) <==> taken_name(longer, name) by {
            if taken_name(longer, name) {
                let k = choose|k: int|
                    0 <= k < longer.len() && (#[trigger] longer[k])@ == name && completed_name(name)
                        && completed_count(longer.subrange(0, k)) < MAX_ENVIRONMENT_NAMES;
                assert(longer.subrange(0, k) =~= names@.subrange(0, k));
                if k < i {
                    assert(front[k]@ == name);
                    assert(front.subrange(0, k) =~= names@.subrange(0, k));
                    assert(taken_name(front, name));
                    assert(listed(before, name));
                }
            }
            if taken_name(front, name) {
                let k = choose|k: int|
                    0 <= k < front.len() && (#[trigger] front[k])@ == name && completed_name(name)
                        && completed_count(front.subrange(0, k)) < MAX_ENVIRONMENT_NAMES;
                assert(longer[k]@ == name);
                assert(longer.subrange(0, k) =~= front.subrange(0, k));
                assert(taken_name(longer, name));
            }
            if usable && name == names@[i as int]@ && completed_count(front) < MAX_ENVIRONMENT_NAMES {
                assert(longer[i as int]@ == name);
                assert(longer.subrange(0, i as int) =~= front);
                assert(taken_name(longer, name));
            }
            if listed(kept@, name) && !listed(before, name) {
                assert(name == names@[i as int]@);
            }
            if listed(before, name) {
                assert(taken_name(front, name));
            }
        }
        i = i + 1;
    }
    assert(names@.subrange(0, i as int) =~= names@);
    kept
}

/// Startup inputs as a value.
#[verifier::ext_equal]
pub struct LocalOptionsView {
    pub shell: ShellKind,
    pub settings: LocalSettings,
    pub shared_settings: bool,
    pub path: Seq<u8>,
    pub home_directory: Option<Seq<u8>>,
    pub environment_names: Seq<String>,
    pub alias_paths: Seq<Vec<u8>>,
    pub history: Option<(Seq<u8>, HistoryFormat)>,
    pub learning_store: bool,
}

/// Startup inputs for one session-local completion worker.
pub struct LocalCompletionOptions {
    shell: ShellKind,
    settings: LocalSettings,
    shared_settings: bool,
    path: Vec<u8>,
    home_directory: Option<Vec<u8>>,
    environment_names: Vec<String>,
    alias_paths: Vec<Vec<u8>>,
    history: Option<HistorySource>,
    learning_store: bool,
}

impl View for LocalCompletionOptions {
    type V = LocalOptionsView;

    closed spec fn view(&self) -> LocalOptionsView {
        LocalOptionsView {
            shell: self.shell,
            settings: self.settings,
            shared_settings: self.shared_settings,
            path: self.path@,
            home_directory: match self.home_directory {
                Some(home) => Some(home@),
                None => None,
            },
            environment_names: self.environment_names@,
            alias_paths: self.alias_paths@,
            history: match self.history {
                Some(history) => Some(history@),
                None => None,
            },
            learning_store: self.learning_store,
        }
    }
}

impl LocalCompletionOptions {
    /// Creates local-provider options with fixed settings and a captured `PATH`.
    pub fn new(shell: ShellKind, settings: LocalSettings, path: Vec<u8>) -> (options: Self)
        ensures
            options@ == (LocalOptionsView {
                shell,
                settings,
                shared_settings: false,
                path: path@,
                home_directory: None,
                environment_names: Seq::empty(),
                alias_paths: Seq::empty(),
                history: None,
                learning_store: false,
            }),
    {
        LocalCompletionOptions {
            shell,
            settings,
            shared_settings: false,
            path,
            home_directory: None,
            environment_names: Vec::new(),
            alias_paths: Vec::new(),
            history: None,
            learning_store: false,
        }
    }

    /// Reads complete settings generations published by the config reloader.
    pub fn with_shared_settings(self) -> (options: Self)
        ensures
            options@ == (LocalOptionsView { shared_settings: true, ..self@ }),
    {
        LocalCompletionOptions { shared_settings: true, ..self }
    }

    /// Supplies the home directory used for home-relative completion.
    pub fn with_home_directory(self, home: Vec<u8>) -> (options: Self)
        ensures
            options@ == (LocalOptionsView { home_directory: Some(home@), ..self@ }),
    {
        LocalCompletionOptions { home_directory: Some(home), ..self }
    }

    /// Supplies conventional alias-bearing files in shell load order.
    pub fn with_alias_paths(self, paths: Vec<Vec<u8>>) -> (options: Self)
        ensures
            options@ == (LocalOptionsView { alias_paths: paths@, ..self@ }),
    {
        LocalCompletionOptions { alias_paths: paths, ..self }
    }

    /// Supplies structured environment names without retaining their values.
    pub fn with_environment_names(self, names: Vec<String>) -> (options: Self)
        ensures
            options@ == (LocalOptionsView {
                environment_names: options@.environment_names,
                ..self@
            }),
            increasing(options@.environment_names),
            forall|name: Seq<char>| #[trigger]
                listed(options@.environment_names, name) <==> taken_name(names@, name),
    {
        LocalCompletionOptions { environment_names: bounded_environment_names(names), ..self }
    }

    /// Supplies one lazy persistent-history source.
    pub fn with_history(self, history: HistorySource) -> (options: Self)
        ensures
            options@ == (LocalOptionsView { history: Some(history@), ..self@ }),
    {
        LocalCompletionOptions { history: Some(history), ..self }
    }

    /// Enables asynchronous persistent command learning.
    pub fn with_learning_store(self) -> (options: Self)
        ensures
            options@ == (LocalOptionsView { learning_store: true, ..self@ }),
    {
        LocalCompletionOptions { learning_store: true, ..self }
    }

    /// Shell whose syntax is completed.
    pub fn shell(&self) -> (shell: ShellKind)
        ensures
            shell == self@.shell,
    {
        self.shell
    }

    /// Settings in force: those of the reloader, where it is read.
    pub fn settings_snapshot(&self, shared: Option<LocalSettings>) -> (settings: LocalSettings)
        ensures
            settings == match shared {
                Some(current) => if self@.shared_settings {
                    current
                } else {
                    self@.settings
                },
                None => self@.settings,
            },
    {
        match shared {
            Some(current) => if self.shared_settings {
                current
            } else {
                self.settings
            },
            None => self.settings,
        }
    }

    /// Replaces the settings; the reloader is no longer read.
    pub fn replace_settings(&mut self, settings: LocalSettings)
        ensures
            final(self)@ == (LocalOptionsView { settings, shared_settings: false, ..old(self)@ }),
    {
        self.settings = settings;
        self.shared_settings = false;
    }

    /// Persistent-history source, if there is one.
    pub fn history(&self) -> (history: Option<&HistorySource>)
        ensures
            match history {
                Some(history) => self@.history == Some(history@),
                None => self@.history is None,
            },
    {
        match &self.history {
            Some(history) => Some(history),
            None => None,
        }
    }

    /// Whether commands are learned from persistently.
    pub fn has_learning_store(&self) -> (has: bool)
        ensures
            has == self@.learning_store,
    {
        self.learning_store
    }

    /// Alias-bearing files in shell load order.
    pub fn alias_paths(&self) -> (paths: &Vec<Vec<u8>>)
        ensures
            paths@ == self@.alias_paths,
    {
        &self.alias_paths
    }

    /// What generators of suggestions may rely on. `credential_environment` names
    /// the variables that hold credentials of the configured AI providers.
    pub fn execution_context<'a>(
        &'a self,
        settings: LocalSettings,
        credential_environment: &'a Vec<Vec<u8>>,
    ) -> (context: GeneratorExecutionContext<'a>)
        ensures
            context.shell == self@.shell,
            context.path@ == self@.path,
            match context.home_directory {
                Some(home) => self@.home_directory == Some(home@),
                None => self@.home_directory is None,
            },
            context.environment_names@ == self@.environment_names,
            context.credential_environment@ == credential_environment@,
            context.include_hidden_files == settings.hidden_files,
            context.filter_active_branch == settings.filter_active_branch,
            context.deduplicate_branches == settings.deduplicate_branches,
            context.infer_completions == settings.infer_completions,
    {
        GeneratorExecutionContext {
            shell: self.shell,
            path: self.path.as_slice(),
            home_directory: match &self.home_directory {
                Some(home) => Some(home.as_slice()),
                None => None,
            },
            environment_names: &self.environment_names,
            credential_environment,
            include_hidden_files: settings.hidden_files,
            filter_active_branch: settings.filter_active_branch,
            deduplicate_branches: settings.deduplicate_branches,
            infer_completions: settings.infer_completions,
        }
    }

    /// Diagnostic summary, which shows sizes and counts only.
    pub fn debug_text(&self) -> (summary: String)
        ensures
            summary@ == "LocalCompletionOptions { shell: "@ + self@.shell.text()
                + ", has_shared_settings: "@ + bool_chars(self@.shared_settings) + ", path_bytes: "@
                + decimal_chars(self@.path.len()) + ", home_bytes: "@ + decimal_chars(
                match self@.home_directory {
                    Some(home) => home.len(),
                    None => 0,
                },
            ) + ", environment_name_count: "@ + decimal_chars(self@.environment_names.len())
                + ", alias_path_count: "@ + decimal_chars(self@.alias_paths.len()) + ", has_history: "@
                + bool_chars(self@.history is Some) + ", has_learning_store: "@ + bool_chars(
                self@.learning_store,
            ) + ", .. }"@,
    {
        let mut summary = "LocalCompletionOptions { shell: ".to_owned();
        summary.append(self.shell.name());
        summary.append(", has_shared_settings: ");
        summary.append(bool_text(self.shared_settings));
        summary.append(", path_bytes: ");
        append_number(&mut summary, self.path.len() as u128);
        summary.append(", home_bytes: ");
        let home_bytes: usize = match &self.home_directory {
            Some(home) => home.len(),
            None => 0,
        };
        append_number(&mut summary, home_bytes as u128);
        summary.append(", environment_name_count: ");
        append_number(&mut summary, self.environment_names.len() as u128);
        summary.append(", alias_path_count: ");
        append_number(&mut summary, self.alias_paths.len() as u128);
        summary.append(", has_history: ");
        summary.append(bool_text(self.history.is_some()));
        summary.append(", has_learning_store: ");
        summary.append(bool_text(self.learning_store));
        summary.append(", .. }");
        summary
    }
}

/// Disposition of one coalescing query submission.
#[derive(Clone, Copy, Debug, PartialEq, Eq, Structural)]
pub enum QueryAdmission {
    /// Work became the pending query.
    Queued,
    /// Older pending work was replaced before execution.
    Coalesced,
    /// Work was already cancelled and was ignored.
    Cancelled,
    /// The worker is shutting down or has exited.
    Closed,
}

/// Disposition of a completed-command event.
#[derive(Clone, Copy, Debug, PartialEq, Eq, Structural)]
pub enum CommandEventAdmission {
    /// The event will be applied asynchronously.
    Queued,
    /// A blank command was intentionally ignored.
    Ignored,
    /// The bounded event queue was full.
    Full,
    /// The worker is shutting down or has exited.
    Closed,
}

/// Invalid completed-command or working-directory input.
#[derive(Clone, Copy, Debug, PartialEq, Eq, Structural)]
pub enum CompletionEventError {
    /// Command text exceeded the learning-store input bound.
    CommandTooLarge {
        /// Observed UTF-8 bytes.
        bytes: usize,
        /// Hard byte limit.
        limit: usize,
    },
    /// Working directory was empty or relative.
    CwdNotAbsolute,
    /// Working directory exceeded the strictest consumer bound.
    CwdTooLarge {
        /// Observed encoded bytes.
        bytes: usize,
        /// Hard byte limit.
        limit: usize,
    },
}

impl CompletionEventError {
    /// Text of [`Self::message`].
    pub open spec fn text(self) -> Seq<char> {
        match self {
            CompletionEventError::CommandTooLarge { bytes, limit } => "completed command is "@
                + decimal_chars(bytes as nat) + " bytes; limit is "@ + decimal_chars(limit as nat),
            CompletionEventError::CwdNotAbsolute => "working directory must be absolute"@,
            CompletionEventError::CwdTooLarge { bytes, limit } => "working directory is "@
                + decimal_chars(bytes as nat) + " bytes; limit is "@ + decimal_chars(limit as nat),
        }
    }

    /// Human-readable description.
    pub fn message(&self) -> (message: String)
        ensures
            message@ == self.text(),
    {
        match *self {
            CompletionEventError::CommandTooLarge { bytes, limit } => {
                let mut message = "completed command is ".to_owned();
                append_number(&mut message, bytes as u128);
                message.append(" bytes; limit is ");
                append_number(&mut message, limit as u128);
                message
            },
            CompletionEventError::CwdNotAbsolute => "working directory must be absolute".to_owned(),
            CompletionEventError::CwdTooLarge { bytes, limit } => {
                let mut message = "working directory is ".to_owned();
                append_number(&mut message, bytes as u128);
                message.append(" bytes; limit is ");
                append_number(&mut message, limit as u128);
                message
            },
        }
    }
}

/// Most bytes of a working directory that queries and learning take.
pub const MAX_EVENT_CWD_BYTES: usize = 16 * 1024;

/// Why a working directory cannot be used.
pub open spec fn event_cwd_error(cwd: Seq<u8>) -> Option<CompletionEventError> {
    if cwd.len() == 0 || cwd[0] != 47 {
        Some(CompletionEventError::CwdNotAbsolute)
    } else if cwd.len() > MAX_EVENT_CWD_BYTES {
        Some(
            CompletionEventError::CwdTooLarge {
                bytes: cwd.len() as usize,
                limit: MAX_EVENT_CWD_BYTES,
            },
        )
    } else {
        None
    }
}

fn validate_cwd(cwd: &[u8]) -> (error: Option<CompletionEventError>)
    ensures
        error == event_cwd_error(cwd@),
{
    if cwd.len() == 0 || cwd[0] != 47 {
        return Some(CompletionEventError::CwdNotAbsolute);
    }
    if cwd.len() > MAX_EVENT_CWD_BYTES {
        return Some(
            CompletionEventError::CwdTooLarge { bytes: cwd.len(), limit: MAX_EVENT_CWD_BYTES },
        );
    }
    None
}

/// Non-sensitive worker health and queue counters.
#[derive(Clone, Copy, Debug, PartialEq, Eq, Structural)]
pub struct CompletionDispatcherStatus {
    /// Whether the worker has not exited.
    pub alive: bool,
    /// Pending completed-command count.
    pub pending_commands: usize,
    /// Number of accepted state events processed by the worker.
    pub processed_events: u64,
    /// Number of learning load or persistence failures isolated from the session.
    pub learning_failures: u64,
    /// Most recently submitted query generation.
    pub latest_generation: u64,
}

/// One background-validated inert alias edit for an exact query generation.
pub struct AliasExpansion {
    generation: u64,
    edit: TextEdit,
}

impl View for AliasExpansion {
    type V = (u64, TextEdit);

    closed spec fn view(&self) -> (u64, TextEdit) {
        (self.generation, self.edit)
    }
}

impl AliasExpansion {
    /// Exact query generation against which the edit was derived.
    pub fn generation(&self) -> (generation: u64)
        ensures
            generation == self@.0,
    {
        self.generation
    }

    /// Takes the generation and inert text edit for reducer validation.
    pub fn into_parts(self) -> (parts: (u64, TextEdit))
        ensures
            parts == self@,
    {
        (self.generation, self.edit)
    }
}

/// How a completed command ended.
#[derive(Clone, Copy, Debug, PartialEq, Eq, Structural)]
pub enum CommandOutcome {
    /// It succeeded.
    Success,
    /// It failed.
    Failure,
}

/// A completed command as a value.
#[verifier::ext_equal]
pub struct CommandView {
    pub command: Seq<char>,
    pub cwd: Seq<u8>,
    pub timestamp: u64,
    pub outcome: CommandOutcome,
}

/// A command that completed.
pub struct CompletedCommand {
    /// Text of the command.
    pub command: String,
    /// Directory in which it ran.
    pub cwd: Vec<u8>,
    /// When it completed, in seconds since 1970.
    pub timestamp: u64,
    /// How it ended.
    pub outcome: CommandOutcome,
}

impl View for CompletedCommand {
    type V = CommandView;

    open spec fn view(&self) -> CommandView {
        CommandView {
            command: self.command@,
            cwd: self.cwd@,
            timestamp: self.timestamp,
            outcome: self.outcome,
        }
    }
}

/// Commands as values.
pub open spec fn command_views(commands: Seq<CompletedCommand>) -> Seq<CommandView> {
    Seq::new(commands.len(), |i: int| commands[i]@)
}

/// A query that waits, as a value.
#[verifier::ext_equal]
pub struct PendingView {
    pub mode: SessionMode,
    pub alias_expansion: bool,
    pub query: QueryView,
    pub submitted_at: u128,
}

/// A query that waits for the worker.
pub struct PendingQuery {
    /// Completion mode.
    pub mode: SessionMode,
    /// Whether the query follows an exact, non-pasted typed space.
    pub alias_expansion: bool,
    /// The query.
    pub work: QueryWork,
    /// When it was submitted.
    pub submitted_at: u128,
}

impl View for PendingQuery {
    type V = PendingView;

    open spec fn view(&self) -> PendingView {
        PendingView {
            mode: self.mode,
            alias_expansion: self.alias_expansion,
            query: self.work@,
            submitted_at: self.submitted_at,
        }
    }
}

/// A batch as a value.
#[verifier::ext_equal]
pub struct BatchView {
    pub provider: Seq<char>,
    pub generation: u64,
    pub suggestions: Seq<Suggestion>,
    pub error: Option<Seq<char>>,
}

/// A batch as a value.
pub open spec fn batch_view(batch: ProviderBatch) -> BatchView {
    BatchView {
        provider: batch.provider@,
        generation: batch.generation,
        suggestions: batch.suggestions@,
        error: crate::updater::optional_text(batch.error),
    }
}

/// Batches as values.
pub open spec fn batch_views(batches: Seq<ProviderBatch>) -> Seq<BatchView> {
    Seq::new(batches.len(), |i: int| batch_view(batches[i]))
}

/// Alias edits as values.
pub open spec fn alias_views(edits: Seq<AliasExpansion>) -> Seq<(u64, TextEdit)> {
    Seq::new(edits.len(), |i: int| edits[i]@)
}

/// Batches of later generations.
pub open spec fn newer_batches(batches: Seq<BatchView>, generation: u64) -> Seq<BatchView>
    decreases batches.len(),
{
    if batches.len() == 0 {
        Seq::empty()
    } else {
        let rest = newer_batches(batches.drop_last(), generation);
        if batches.last().generation > generation {
            rest.push(batches.last())
        } else {
            rest
        }
    }
}

/// Alias edits of later generations.
pub open spec fn newer_edits(edits: Seq<(u64, TextEdit)>, generation: u64) -> Seq<(u64, TextEdit)>
    decreases edits.len(),
{
    if edits.len() == 0 {
        Seq::empty()
    } else {
        let rest = newer_edits(edits.drop_last(), generation);
        if edits.last().0 > generation {
            rest.push(edits.last())
        } else {
            rest
        }
    }
}

/// The last items of a list, so many at most.
pub open spec fn last_items<T>(items: Seq<T>, most: nat) -> Seq<T> {
    if items.len() > most {
        items.subrange(items.len() - most, items.len() as int)
    } else {
        items
    }
}

/// How many items one drain takes.
pub open spec fn drain_count(available: nat, limit: usize, most: usize) -> nat {
    let bound = if limit < most {
        limit as nat
    } else {
        most as nat
    };
    if available < bound {
        available
    } else {
        bound
    }
}

/// Dispatcher state as a value.
#[verifier::ext_equal]
pub struct DispatcherView {
    pub pending_query: Option<PendingView>,
    pub pending_cwd: Option<Seq<u8>>,
    pub pending_settings: Option<LocalSettings>,
    pub commands: Seq<CommandView>,
    pub shutdown: bool,
    pub alive: bool,
    pub output: Seq<BatchView>,
    pub alias_output: Seq<(u64, TextEdit)>,
    pub latest_generation: u64,
    pub processed_events: u64,
    pub learning_failures: u64,
}

/// What the worker has to do next, as a value.
pub enum ItemView {
    Shutdown,
    Settings(LocalSettings),
    Cwd(Seq<u8>),
    Command(CommandView),
    Query(PendingView),
    Wait(Option<u128>),
}

impl DispatcherView {
    /// Bounded queues.
    pub open spec fn inv(self) -> bool {
        &&& self.commands.len() <= MAX_PENDING_COMMAND_EVENTS
        &&& self.output.len() <= MAX_COMPLETION_DRAIN_BATCHES
        &&& self.alias_output.len() <= MAX_ALIAS_EXPANSION_DRAIN
    }

    /// Whether nothing is taken in any more.
    pub open spec fn closed(self) -> bool {
        !self.alive || self.shutdown
    }

    /// Whether work on a query is void.
    pub open spec fn aborted(self, cancelled: bool, generation: u64) -> bool {
        cancelled || self.latest_generation != generation || self.shutdown
    }

    /// State after a query was submitted.
    pub open spec fn after_query(self, cancelled: bool, pending: PendingView) -> Self {
        if cancelled || !self.alive {
            self
        } else {
            let noted = DispatcherView { latest_generation: pending.query.generation, ..self };
            if self.shutdown {
                noted
            } else {
                DispatcherView { pending_query: Some(pending), ..noted }
            }
        }
    }

    /// What became of a submitted query.
    pub open spec fn query_admission(self, cancelled: bool) -> QueryAdmission {
        if cancelled {
            QueryAdmission::Cancelled
        } else if self.closed() {
            QueryAdmission::Closed
        } else if self.pending_query is Some {
            QueryAdmission::Coalesced
        } else {
            QueryAdmission::Queued
        }
    }

    /// What became of a completed command.
    pub open spec fn command_admission(self, command: CommandView) -> Result<
        CommandEventAdmission,
        CompletionEventError,
    > {
        let bytes = encode_utf8(command.command).len();
        if blank(command.command) {
            Ok(CommandEventAdmission::Ignored)
        } else if bytes > MAX_LEARNING_COMMAND_BYTES {
            Err(
                CompletionEventError::CommandTooLarge {
                    bytes: bytes as usize,
                    limit: MAX_LEARNING_COMMAND_BYTES,
                },
            )
        } else {
            match event_cwd_error(command.cwd) {
                Some(error) => Err(error),
                None => if self.closed() {
                    Ok(CommandEventAdmission::Closed)
                } else if self.commands.len() == MAX_PENDING_COMMAND_EVENTS {
                    Ok(CommandEventAdmission::Full)
                } else {
                    Ok(CommandEventAdmission::Queued)
                },
            }
        }
    }

    /// Next thing to do: settings before directories, directories before
    /// commands, and all of them before a query, which waits for a newer one.
    pub open spec fn next(self, now: u128) -> (Self, ItemView) {
        if self.shutdown {
            (self, ItemView::Shutdown)
        } else if self.pending_settings is Some {
            (
                DispatcherView { pending_settings: None, ..self },
                ItemView::Settings(self.pending_settings->0),
            )
        } else if self.pending_cwd is Some {
            (DispatcherView { pending_cwd: None, ..self }, ItemView::Cwd(self.pending_cwd->0))
        } else if self.commands.len() > 0 {
            (
                DispatcherView { commands: self.commands.drop_first(), ..self },
                ItemView::Command(self.commands[0]),
            )
        } else {
            match self.pending_query {
                Some(pending) => {
                    let elapsed = if now < pending.submitted_at {
                        0
                    } else {
                        now - pending.submitted_at
                    };
                    if elapsed >= QUERY_DEBOUNCE {
                        (DispatcherView { pending_query: None, ..self }, ItemView::Query(pending))
                    } else {
                        (self, ItemView::Wait(Some((QUERY_DEBOUNCE - elapsed) as u128)))
                    }
                },
                None => (self, ItemView::Wait(None)),
            }
        }
    }

    /// State after a batch was published: it takes the place of every batch of
    /// its generation and of older ones, unless its query is no longer current.
    pub open spec fn published(self, cancelled: bool, generation: u64, suggestions: Seq<Suggestion>) -> Self {
        if self.aborted(cancelled, generation) {
            self
        } else {
            let batch = BatchView {
                provider: LOCAL_COMPLETION_PROVIDER@,
                generation,
                suggestions,
                error: None,
            };
            DispatcherView {
                output: last_items(
                    newer_batches(self.output, generation).push(batch),
                    MAX_COMPLETION_DRAIN_BATCHES as nat,
                ),
                ..self
            }
        }
    }

    /// State after an alias edit was published.
    pub open spec fn alias_published(self, cancelled: bool, generation: u64, edit: TextEdit) -> Self {
        if self.aborted(cancelled, generation) {
            self
        } else {
            DispatcherView {
                alias_output: last_items(
                    newer_edits(self.alias_output, generation).push((generation, edit)),
                    MAX_ALIAS_EXPANSION_DRAIN as nat,
                ),
                ..self
            }
        }
    }
}

/// What the worker has to do next.
pub enum WorkerItem {
    /// Exit.
    Shutdown,
    /// Use these settings.
    Settings(LocalSettings),
    /// Drop what is cached for this directory.
    Cwd(Vec<u8>),
    /// Learn from this command.
    Command(CompletedCommand),
    /// Answer this query.
    Query(PendingQuery),
    /// Wait for work, and no longer than this where it says so.
    Wait(Option<u128>),
}

impl View for WorkerItem {
    type V = ItemView;

    open spec fn view(&self) -> ItemView {
        match *self {
            WorkerItem::Shutdown => ItemView::Shutdown,
            WorkerItem::Settings(settings) => ItemView::Settings(settings),
            WorkerItem::Cwd(cwd) => ItemView::Cwd(cwd@),
            WorkerItem::Command(command) => ItemView::Command(command@),
            WorkerItem::Query(query) => ItemView::Query(query@),
            WorkerItem::Wait(timeout) => ItemView::Wait(timeout),
        }
    }
}

/// One session-local, coalescing completion and learning dispatcher.
pub struct LocalCompletionDispatcher {
    pending_query: Option<PendingQuery>,
    pending_cwd: Option<Vec<u8>>,
    pending_settings: Option<LocalSettings>,
    commands: Vec<CompletedCommand>,
    shutdown: bool,
    alive: bool,
    output: Vec<ProviderBatch>,
    alias_output: Vec<AliasExpansion>,
    latest_generation: u64,
    processed_events: u64,
    learning_failures: u64,
}

impl View for LocalCompletionDispatcher {
    type V = DispatcherView;

    closed spec fn view(&self) -> DispatcherView {
        DispatcherView {
            pending_query: match self.pending_query {
                Some(pending) => Some(pending@),
                None => None,
            },
            pending_cwd: match self.pending_cwd {
                Some(cwd) => Some(cwd@),
                None => None,
            },
            pending_settings: self.pending_settings,
            commands: command_views(self.commands@),
            shutdown: self.shutdown,
            alive: self.alive,
            output: batch_views(self.output@),
            alias_output: alias_views(self.alias_output@),
            latest_generation: self.latest_generation,
            processed_events: self.processed_events,
            learning_failures: self.learning_failures,
        }
    }
}

/// Dispatcher state before any event.
pub open spec fn fresh_dispatcher() -> DispatcherView {
    DispatcherView {
        pending_query: None,
        pending_cwd: None,
        pending_settings: None,
        commands: Seq::empty(),
        shutdown: false,
        alive: true,
        output: Seq::empty(),
        alias_output: Seq::empty(),
        latest_generation: 0,
        processed_events: 0,
        learning_failures: 0,
    }
}

fn keep_newer_batches(queue: &mut Vec<ProviderBatch>, generation: u64)
    ensures
        batch_views(final(queue)@) == newer_batches(batch_views(old(queue)@), generation),
        final(queue)@.len() <= old(queue)@.len(),
{
    let mut kept: Vec<ProviderBatch> = Vec::new();
    let ghost all = queue@;
    let ghost seen = batch_views(all);
    let mut i: usize = 0;
    let count: usize = queue.len();
    assert(batch_views(kept@) =~= newer_batches(seen.subrange(0, 0), generation));
    assert(queue@ =~= all.subrange(0, all.len() as int));
    while i < count
        invariant
            0 <= i <= count,
            count == all.len(),
            seen == batch_views(all),
            queue@ == all.subrange(i as int, all.len() as int),
            kept@.len() <= i,
            batch_views(kept@) == newer_batches(seen.subrange(0, i as int), generation),
        decreases count - i,
    {
        let ghost before = kept@;
        let item = queue.remove(0);
        assert(queue@ =~= all.subrange(i + 1, all.len() as int));
        assert(item == all[i as int]);
        assert(seen.subrange(0, i + 1).drop_last() =~= seen.subrange(0, i as int));
        assert(seen.subrange(0, i + 1).last() == batch_view(item));
        if item.generation > generation {
            kept.push(item);
            assert(batch_views(kept@) =~= batch_views(before).push(batch_view(item)));
        }
        i = i + 1;
    }
    assert(seen.subrange(0, i as int) =~= seen);
    *queue = kept;
}

fn keep_newer_edits(queue: &mut Vec<AliasExpansion>, generation: u64)
    ensures
        alias_views(final(queue)@) == newer_edits(alias_views(old(queue)@), generation),
        final(queue)@.len() <= old(queue)@.len(),
{
    let mut kept: Vec<AliasExpansion> = Vec::new();
    let ghost all = queue@;
    let ghost seen = alias_views(all);
    let mut i: usize = 0;
    let count: usize = queue.len();
    assert(alias_views(kept@) =~= newer_edits(seen.subrange(0, 0), generation));
    assert(queue@ =~= all.subrange(0, all.len() as int));
    while i < count
        invariant
            0 <= i <= count,
            count == all.len(),
            seen == alias_views(all),
            queue@ == all.subrange(i as int, all.len() as int),
            kept@.len() <= i,
            alias_views(kept@) == newer_edits(seen.subrange(0, i as int), generation),
        decreases count - i,
    {
        let ghost before = kept@;
        let item = queue.remove(0);
        assert(queue@ =~= all.subrange(i + 1, all.len() as int));
        assert(item == all[i as int]);
        assert(seen.subrange(0, i + 1).drop_last() =~= seen.subrange(0, i as int));
        assert(seen.subrange(0, i + 1).last() == item@);
        if item.generation > generation {
            kept.push(item);
            assert(alias_views(kept@) =~= alias_views(before).push(item@));
        }
        i = i + 1;
    }
    assert(seen.subrange(0, i as int) =~= seen);
    *queue = kept;
}

fn keep_last_batches(queue: &mut Vec<ProviderBatch>, most: usize)
    ensures
        batch_views(final(queue)@) == last_items(batch_views(old(queue)@), most as nat),
        final(queue)@.len() <= most,
{
    let ghost all = queue@;
    let ghost seen = batch_views(all);
    assert(queue@ =~= all.subrange(0, all.len() as int));
    while queue.len() > most
        invariant
            seen == batch_views(all),
            queue@.len() <= all.len(),
            queue@.len() == all.len() || queue@.len() >= most,
            queue@ == all.subrange(all.len() - queue@.len(), all.len() as int),
        decreases queue@.len(),
    {
        let ghost before = queue@;
        let _dropped = queue.remove(0);
        assert(queue@ =~= all.subrange(all.len() - queue@.len(), all.len() as int));
    }
    assert(batch_views(queue@) =~= last_items(seen, most as nat));
}

fn keep_last_edits(queue: &mut Vec<AliasExpansion>, most: usize)
    ensures
        alias_views(final(queue)@) == last_items(alias_views(old(queue)@), most as nat),
        final(queue)@.len() <= most,
{
    let ghost all = queue@;
    let ghost seen = alias_views(all);
    assert(queue@ =~= all.subrange(0, all.len() as int));
    while queue.len() > most
        invariant
            seen == alias_views(all),
            queue@.len() <= all.len(),
            queue@.len() == all.len() || queue@.len() >= most,
            queue@ == all.subrange(all.len() - queue@.len(), all.len() as int),
        decreases queue@.len(),
    {
        let ghost before = queue@;
        let _dropped = queue.remove(0);
        assert(queue@ =~= all.subrange(all.len() - queue@.len(), all.len() as int));
    }
    assert(alias_views(queue@) =~= last_items(seen, most as nat));
}

fn drain_front_batches(queue: &mut Vec<ProviderBatch>, limit: usize, most: usize) -> (drained: Vec<ProviderBatch>)
    ensures
        ({
            let all = batch_views(old(queue)@);
            let count = drain_count(all.len(), limit, most) as int;
            &&& batch_views(drained@) == all.subrange(0, count)
            &&& batch_views(final(queue)@) == all.subrange(count, all.len() as int)
        }),
{
    let ghost all = queue@;
    let mut drained: Vec<ProviderBatch> = Vec::new();
    assert(queue@ =~= all.subrange(0, all.len() as int));
    while drained.len() < limit && drained.len() < most && queue.len() > 0
        invariant
            drained@.len() <= limit,
            drained@.len() <= most,
            drained@.len() <= all.len(),
            drained@ == all.subrange(0, drained@.len() as int),
            queue@ == all.subrange(drained@.len() as int, all.len() as int),
        decreases queue@.len(),
    {
        let ghost before = drained@;
        let item = queue.remove(0);
        drained.push(item);
        assert(drained@ =~= all.subrange(0, drained@.len() as int));
        assert(queue@ =~= all.subrange(drained@.len() as int, all.len() as int));
    }
    assert(batch_views(drained@) =~= batch_views(all).subrange(0, drained@.len() as int));
    assert(batch_views(queue@) =~= batch_views(all).subrange(drained@.len() as int, all.len() as int));
    drained
}

fn drain_front_edits(queue: &mut Vec<AliasExpansion>, limit: usize, most: usize) -> (drained: Vec<AliasExpansion>)
    ensures
        ({
            let all = alias_views(old(queue)@);
            let count = drain_count(all.len(), limit, most) as int;
            &&& alias_views(drained@) == all.subrange(0, count)
            &&& alias_views(final(queue)@) == all.subrange(count, all.len() as int)
        }),
{
    let ghost all = queue@;
    let mut drained: Vec<AliasExpansion> = Vec::new();
    assert(queue@ =~= all.subrange(0, all.len() as int));
    while drained.len() < limit && drained.len() < most && queue.len() > 0
        invariant
            drained@.len() <= limit,
            drained@.len() <= most,
            drained@.len() <= all.len(),
            drained@ == all.subrange(0, drained@.len() as int),
            queue@ == all.subrange(drained@.len() as int, all.len() as int),
        decreases queue@.len(),
    {
        let ghost before = drained@;
        let item = queue.remove(0);
        drained.push(item);
        assert(drained@ =~= all.subrange(0, drained@.len() as int));
        assert(queue@ =~= all.subrange(drained@.len() as int, all.len() as int));
    }
    assert(alias_views(drained@) =~= alias_views(all).subrange(0, drained@.len() as int));
    assert(alias_views(queue@) =~= alias_views(all).subrange(drained@.len() as int, all.len() as int));
    drained
}

impl CompletionDispatcherStatus {
    /// Diagnostic summary of whoever has this status.
    pub open spec fn debug_chars(self) -> Seq<char> {
            "LocalCompletionDispatcher { status: CompletionDispatcherStatus { alive: "@ + bool_chars(self.alive) + ", pending_commands: "@ + decimal_chars(self.pending_commands as nat) + ", processed_events: "@ + decimal_chars(self.processed_events as nat) + ", learning_failures: "@ + decimal_chars(self.learning_failures as nat) + ", latest_generation: "@ + decimal_chars(self.latest_generation as nat) + " }, .. }"@
    }

    fn owner_text(&self) -> (summary: String)
        ensures
            summary@ == self.debug_chars(),
    {
        let mut summary = "LocalCompletionDispatcher { status: CompletionDispatcherStatus { alive: ".to_owned();
        summary.append(bool_text(self.alive));
        summary.append(", pending_commands: ");
        append_number(&mut summary, self.pending_commands as u128);
        summary.append(", processed_events: ");
        append_number(&mut summary, self.processed_events as u128);
        summary.append(", learning_failures: ");
        append_number(&mut summary, self.learning_failures as u128);
        summary.append(", latest_generation: ");
        append_number(&mut summary, self.latest_generation as u128);
        summary.append(" }, .. }");
        summary
    }
}

impl LocalCompletionDispatcher {
    /// Prepares the queues for exactly one local-provider worker.
    pub fn spawn() -> (dispatcher: Self)
        ensures
            dispatcher@ == fresh_dispatcher(),
            dispatcher@.inv(),
    {
        let dispatcher = LocalCompletionDispatcher {
            pending_query: None,
            pending_cwd: None,
            pending_settings: None,
            commands: Vec::new(),
            shutdown: false,
            alive: true,
            output: Vec::new(),
            alias_output: Vec::new(),
            latest_generation: 0,
            processed_events: 0,
            learning_failures: 0,
        };
        assert(dispatcher@ =~= fresh_dispatcher());
        dispatcher
    }

    /// Accepts a reducer effect only when it is provider query work.
    ///
    /// Other effects are returned unchanged so the caller cannot accidentally
    /// consume terminal input, rendering, or control work.
    pub fn submit_effect(&mut self, effect: SessionEffect, cancelled: bool, now: u128) -> (result: Result<
        QueryAdmission,
        SessionEffect,
    >)
        requires
            old(self)@.inv(),
        ensures
            final(self)@.inv(),
            match effect {
                SessionEffect::StartQuery { mode, alias_expansion, work } => {
                    &&& result == Ok::<QueryAdmission, SessionEffect>(
                        old(self)@.query_admission(cancelled),
                    )
                    &&& final(self)@ == old(self)@.after_query(
                        cancelled,
                        PendingView { mode, alias_expansion, query: work@, submitted_at: now },
                    )
                },
                _ => result == Err::<QueryAdmission, SessionEffect>(effect) && final(self)@ == old(self)@,
            },
    {
        match effect {
            SessionEffect::StartQuery { mode, alias_expansion, work } => Ok(
                self.submit_query_with_alias_expansion(mode, work, alias_expansion, cancelled, now),
            ),
            other => Err(other),
        }
    }

    /// Coalesces one immutable reducer query into the worker inbox.
    pub fn submit_query(&mut self, mode: SessionMode, work: QueryWork, cancelled: bool, now: u128) -> (admission:
        QueryAdmission)
        requires
            old(self)@.inv(),
        ensures
            final(self)@.inv(),
            admission == old(self)@.query_admission(cancelled),
            final(self)@ == old(self)@.after_query(
                cancelled,
                PendingView { mode, alias_expansion: false, query: work@, submitted_at: now },
            ),
    {
        self.submit_query_with_alias_expansion(mode, work, false, cancelled, now)
    }

    /// Coalesces a query and its exact typed-space provenance into the inbox.
    ///
    /// `alias_expansion` must only be true for a non-pasted typed ASCII space;
    /// `cancelled` says whether the query is no longer wanted.
    pub fn submit_query_with_alias_expansion(
        &mut self,
        mode: SessionMode,
        work: QueryWork,
        alias_expansion: bool,
        cancelled: bool,
        now: u128,
    ) -> (admission: QueryAdmission)
        requires
            old(self)@.inv(),
        ensures
            final(self)@.inv(),
            admission == old(self)@.query_admission(cancelled),
            final(self)@ == old(self)@.after_query(
                cancelled,
                PendingView { mode, alias_expansion, query: work@, submitted_at: now },
            ),
    {
        if cancelled {
            return QueryAdmission::Cancelled;
        }
        if !self.alive {
            return QueryAdmission::Closed;
        }
        self.latest_generation = work.query().generation;
        if self.shutdown {
            return QueryAdmission::Closed;
        }
        let coalesced: bool = self.pending_query.is_some();
        self.pending_query = Some(PendingQuery { mode, alias_expansion, work, submitted_at: now });
        if coalesced {
            QueryAdmission::Coalesced
        } else {
            QueryAdmission::Queued
        }
    }

    /// Queues one completed command for session history and local learning.
    /// Nothing is retained of a command or directory that is too large.
    pub fn record_completed_command(
        &mut self,
        command: String,
        cwd: Vec<u8>,
        timestamp: u64,
        outcome: CommandOutcome,
    ) -> (result: Result<CommandEventAdmission, CompletionEventError>)
        requires
            old(self)@.inv(),
        ensures
            final(self)@.inv(),
            ({
                let event = CommandView { command: command@, cwd: cwd@, timestamp, outcome };
                &&& result == old(self)@.command_admission(event)
                &&& final(self)@ == if result == Ok::<_, CompletionEventError>(
                    CommandEventAdmission::Queued,
                ) {
                    DispatcherView { commands: old(self)@.commands.push(event), ..old(self)@ }
                } else {
                    old(self)@
                }
            }),
    {
        if is_blank(command.as_str()) {
            return Ok(CommandEventAdmission::Ignored);
        }
        let bytes: usize = text_len(command.as_str());
        if bytes > MAX_LEARNING_COMMAND_BYTES {
            return Err(
                CompletionEventError::CommandTooLarge { bytes, limit: MAX_LEARNING_COMMAND_BYTES },
            );
        }
        if let Some(error) = validate_cwd(cwd.as_slice()) {
            return Err(error);
        }
        if !self.alive || self.shutdown {
            return Ok(CommandEventAdmission::Closed);
        }
        if self.commands.len() == MAX_PENDING_COMMAND_EVENTS {
            return Ok(CommandEventAdmission::Full);
        }
        let ghost before = self.commands@;
        let event = CompletedCommand { command, cwd, timestamp, outcome };
        self.commands.push(event);
        assert(command_views(self.commands@) =~= command_views(before).push(event@));
        Ok(CommandEventAdmission::Queued)
    }

    /// Coalesces a working-directory change. Says whether the worker will see it.
    pub fn update_cwd(&mut self, cwd: Vec<u8>) -> (result: Result<bool, CompletionEventError>)
        requires
            old(self)@.inv(),
        ensures
            final(self)@.inv(),
            match event_cwd_error(cwd@) {
                Some(error) => result == Err::<bool, _>(error) && final(self)@ == old(self)@,
                None => {
                    &&& result == Ok::<bool, CompletionEventError>(!old(self)@.closed())
                    &&& final(self)@ == if old(self)@.closed() {
                        old(self)@
                    } else {
                        DispatcherView { pending_cwd: Some(cwd@), ..old(self)@ }
                    }
                },
            },
    {
        if let Some(error) = validate_cwd(cwd.as_slice()) {
            return Err(error);
        }
        if !self.alive || self.shutdown {
            return Ok(false);
        }
        self.pending_cwd = Some(cwd);
        Ok(true)
    }

    /// Coalesces a complete settings replacement. Says whether the worker will
    /// see it.
    ///
    /// Callers enqueue this before the replacement query so that every behavior
    /// changes at the same boundary.
    pub fn reconfigure(&mut self, settings: LocalSettings) -> (accepted: bool)
        requires
            old(self)@.inv(),
        ensures
            final(self)@.inv(),
            accepted == !old(self)@.closed(),
            final(self)@ == if accepted {
                DispatcherView { pending_settings: Some(settings), ..old(self)@ }
            } else {
                old(self)@
            },
    {
        if !self.alive || self.shutdown {
            return false;
        }
        self.pending_settings = Some(settings);
        true
    }

    /// Takes the oldest provider replacements, at most `limit` and never more
    /// than [`MAX_COMPLETION_DRAIN_BATCHES`].
    pub fn drain_batches(&mut self, limit: usize) -> (batches: Vec<ProviderBatch>)
        requires
            old(self)@.inv(),
        ensures
            final(self)@.inv(),
            ({
                let all = old(self)@.output;
                let count = drain_count(all.len(), limit, MAX_COMPLETION_DRAIN_BATCHES) as int;
                &&& batch_views(batches@) == all.subrange(0, count)
                &&& final(self)@ == (DispatcherView {
                    output: all.subrange(count, all.len() as int),
                    ..old(self)@
                })
            }),
    {
        drain_front_batches(&mut self.output, limit, MAX_COMPLETION_DRAIN_BATCHES)
    }

    /// Takes the oldest alias edits, at most `limit` and never more than
    /// [`MAX_ALIAS_EXPANSION_DRAIN`].
    pub fn drain_alias_expansions(&mut self, limit: usize) -> (edits: Vec<AliasExpansion>)
        requires
            old(self)@.inv(),
        ensures
            final(self)@.inv(),
            ({
                let all = old(self)@.alias_output;
                let count = drain_count(all.len(), limit, MAX_ALIAS_EXPANSION_DRAIN) as int;
                &&& alias_views(edits@) == all.subrange(0, count)
                &&& final(self)@ == (DispatcherView {
                    alias_output: all.subrange(count, all.len() as int),
                    ..old(self)@
                })
            }),
    {
        drain_front_edits(&mut self.alias_output, limit, MAX_ALIAS_EXPANSION_DRAIN)
    }

    /// Diagnostic summary, which shows health and counters alone.
    pub fn debug_text(&self) -> (summary: String)
        ensures
            summary@ == (CompletionDispatcherStatus {
                alive: self@.alive,
                pending_commands: self@.commands.len() as usize,
                processed_events: self@.processed_events,
                learning_failures: self@.learning_failures,
                latest_generation: self@.latest_generation,
            }).debug_chars(),
    {
        self.status().owner_text()
    }

    /// Worker health and queue counters.
    pub fn status(&self) -> (status: CompletionDispatcherStatus)
        ensures
            status == (CompletionDispatcherStatus {
                alive: self@.alive,
                pending_commands: self@.commands.len() as usize,
                processed_events: self@.processed_events,
                learning_failures: self@.learning_failures,
                latest_generation: self@.latest_generation,
            }),
    {
        CompletionDispatcherStatus {
            alive: self.alive,
            pending_commands: self.commands.len(),
            processed_events: self.processed_events,
            learning_failures: self.learning_failures,
            latest_generation: self.latest_generation,
        }
    }

    /// Asks the worker to stop; what it has not begun is dropped.
    pub fn shut_down(&mut self)
        requires
            old(self)@.inv(),
        ensures
            final(self)@.inv(),
            final(self)@ == (DispatcherView {
                shutdown: true,
                pending_query: None,
                pending_cwd: None,
                pending_settings: None,
                commands: Seq::empty(),
                ..old(self)@
            }),
    {
        self.shutdown = true;
        self.pending_query = None;
        self.pending_cwd = None;
        self.pending_settings = None;
        self.commands = Vec::new();
        assert(command_views(self.commands@) =~= Seq::<CommandView>::empty());
    }

    /// Notes that the worker has exited.
    pub fn exited(&mut self)
        requires
            old(self)@.inv(),
        ensures
            final(self)@.inv(),
            final(self)@ == (DispatcherView { alive: false, ..old(self)@ }),
    {
        self.alive = false;
    }

    /// Next thing for the worker to do.
    pub fn next_item(&mut self, now: u128) -> (item: WorkerItem)
        requires
            old(self)@.inv(),
        ensures
            final(self)@.inv(),
            (final(self)@, item@) == old(self)@.next(now),
    {
        if self.shutdown {
            return WorkerItem::Shutdown;
        }
        if let Some(settings) = self.pending_settings {
            self.pending_settings = None;
            return WorkerItem::Settings(settings);
        }
        if let Some(cwd) = self.pending_cwd.take() {
            return WorkerItem::Cwd(cwd);
        }
        if self.commands.len() > 0 {
            let ghost before = self.commands@;
            let command = self.commands.remove(0);
            assert(command_views(self.commands@) =~= command_views(before).drop_first());
            return WorkerItem::Command(command);
        }
        let elapsed: u128 = match &self.pending_query {
            None => {
                return WorkerItem::Wait(None);
            },
            Some(pending) => now.saturating_sub(pending.submitted_at),
        };
        if elapsed < QUERY_DEBOUNCE {
            return WorkerItem::Wait(Some(QUERY_DEBOUNCE - elapsed));
        }
        match self.pending_query.take() {
            Some(pending) => WorkerItem::Query(pending),
            None => WorkerItem::Wait(None),
        }
    }

    /// Counts a state event that the worker has processed; the counter wraps.
    pub fn event_processed(&mut self)
        requires
            old(self)@.inv(),
        ensures
            final(self)@.inv(),
            final(self)@ == (DispatcherView {
                processed_events: old(self)@.processed_events.wrapping_add(1),
                ..old(self)@
            }),
    {
        self.processed_events = self.processed_events.wrapping_add(1);
    }

    /// Counts a failure to learn; the counter wraps.
    pub fn learning_failed(&mut self)
        requires
            old(self)@.inv(),
        ensures
            final(self)@.inv(),
            final(self)@ == (DispatcherView {
                learning_failures: old(self)@.learning_failures.wrapping_add(1),
                ..old(self)@
            }),
    {
        self.learning_failures = self.learning_failures.wrapping_add(1);
    }

    /// Whether work on a query is void.
    pub fn aborted(&self, cancelled: bool, generation: u64) -> (aborted: bool)
        ensures
            aborted == self@.aborted(cancelled, generation),
    {
        cancelled || self.latest_generation != generation || self.shutdown
    }

    /// Publishes a cumulative, fully ranked replacement for a query.
    pub fn publish(&mut self, generation: u64, suggestions: Vec<Suggestion>, cancelled: bool)
        requires
            old(self)@.inv(),
        ensures
            final(self)@.inv(),
            final(self)@ == old(self)@.published(cancelled, generation, suggestions@),
    {
        if self.aborted(cancelled, generation) {
            return;
        }
        keep_newer_batches(&mut self.output, generation);
        let ghost before = self.output@;
        let batch = ProviderBatch::success(LOCAL_COMPLETION_PROVIDER, generation, suggestions);
        self.output.push(batch);
        assert(batch_views(self.output@) =~= batch_views(before).push(batch_view(batch)));
        keep_last_batches(&mut self.output, MAX_COMPLETION_DRAIN_BATCHES);
    }

    /// Publishes an inert alias edit for a query.
    pub fn publish_alias_expansion(&mut self, generation: u64, edit: TextEdit, cancelled: bool)
        requires
            old(self)@.inv(),
        ensures
            final(self)@.inv(),
            final(self)@ == old(self)@.alias_published(cancelled, generation, edit),
    {
        if self.aborted(cancelled, generation) {
            return;
        }
        keep_newer_edits(&mut self.alias_output, generation);
        let ghost before = self.alias_output@;
        let expansion = AliasExpansion { generation, edit };
        self.alias_output.push(expansion);
        assert(alias_views(self.alias_output@) =~= alias_views(before).push(expansion@));
        keep_last_edits(&mut self.alias_output, MAX_ALIAS_EXPANSION_DRAIN);
    }
}

/// Words of a skeleton.
pub open spec fn skeleton_words(text: Seq<char>) -> Seq<Seq<char>>
    decreases text.len(),
{
    if text.len() == 0 {
        seq![Seq::<char>::empty()]
    } else {
        let rest = skeleton_words(text.drop_last());
        if text.last() == ' ' {
            rest.push(Seq::<char>::empty())
        } else {
            rest.update(rest.len() - 1, rest.last().push(text.last()))
        }
    }
}

/// Whether a character may stand in a word of a skeleton.
pub open spec fn skeleton_character(c: char) -> bool {
    !white_space(c) && !control(c)
}

/// Whether a text is a ranking skeleton: few, nonempty words, each parted from
/// the next by one space, without white space or control characters.
pub open spec fn skeleton(text: Seq<char>) -> bool {
    &&& encode_utf8(text).len() <= MAX_RANKING_SKELETON_BYTES
    &&& skeleton_words(text).len() <= MAX_RANKING_SKELETON_TOKENS
    &&& forall|i: int| 0 <= i < skeleton_words(text).len() ==> (#[trigger] skeleton_words(text)[i]).len() > 0
    &&& forall|i: int| 0 <= i < text.len() ==> #[trigger] text[i] == ' ' || skeleton_character(text[i])
}

/// Whether a text is a ranking skeleton.
pub fn valid_skeleton(text: &str) -> (valid: bool)
    ensures
        valid == skeleton(text@),
{
    if text_len(text) > MAX_RANKING_SKELETON_BYTES {
        return false;
    }
    let list: Vec<char> = characters(text);
    let mut words: u128 = 1;
    let mut length: usize = 0;
    let mut i: usize = 0;
    let mut empty: bool = false;
    while i < list.len()
        invariant
            0 <= i <= list@.len(),
            list@ == text@,
            length <= i,
            1 <= words <= i + 1,
            words == skeleton_words(text@.subrange(0, i as int)).len(),
            length == skeleton_words(text@.subrange(0, i as int)).last().len(),
            empty == exists|j: int|
                0 <= j < words - 1 && (#[trigger] skeleton_words(text@.subrange(0, i as int))[j]).len()
                    == 0,
            forall|j: int| 0 <= j < i ==> #[trigger] text@[j] == ' ' || skeleton_character(text@[j]),
        decreases list@.len() - i,
    {
        let ghost before = skeleton_words(text@.subrange(0, i as int));
        let ghost after = skeleton_words(text@.subrange(0, i + 1));
        proof {
            assert(text@.subrange(0, i + 1).drop_last() =~= text@.subrange(0, i as int));
        }
        let c: char = list[i];
        if c == ' ' {
            proof {
                assert(after == before.push(Seq::<char>::empty()));
                assert forall|j: int| 0 <= j < words implies (#[trigger] after[j]).len() == before[j].len() by {}
                if empty {
                    let j = choose|j: int| 0 <= j < words - 1 && (#[trigger] before[j]).len() == 0;
                    assert(after[j].len() == 0);
                }
                if length == 0 {
                    assert(after[words - 1].len() == 0);
                }
                if exists|j: int| 0 <= j < words && (#[trigger] after[j]).len() == 0 {
                    let j = choose|j: int| 0 <= j < words && (#[trigger] after[j]).len() == 0;
                    if j < words - 1 {
                        assert(before[j].len() == 0);
                    }
                }
            }
            empty = empty || length == 0;
            words = words + 1;
            length = 0;
        } else {
            if is_white_space(c) || is_control(c) {
                assert(!(text@[i as int] == ' ' || skeleton_character(text@[i as int])));
                return false;
            }
            proof {
                assert forall|j: int| 0 <= j < words - 1 implies #[trigger] after[j] == before[j] by {}
                if empty {
                    let j = choose|j: int| 0 <= j < words - 1 && (#[trigger] before[j]).len() == 0;
                    assert(after[j].len() == 0);
                }
            }
            length = length + 1;
        }
        i = i + 1;
    }
    assert(text@.subrange(0, i as int) =~= text@);
    let valid: bool = words <= MAX_RANKING_SKELETON_TOKENS as u128 && !empty && length > 0;
    proof {
        let all = skeleton_words(text@);
        if valid {
            assert forall|j: int| 0 <= j < all.len() implies (#[trigger] all[j]).len() > 0 by {
                if j == words - 1 {
                    assert(all[j] == all.last());
                }
            }
        } else if length == 0 {
            assert(all[words - 1].len() == 0);
        }
    }
    valid
}

/// First word of a command, unless it may be an assignment: its value must not
/// become a ranking key.
pub open spec fn fallback_word(command: Seq<char>) -> Option<Seq<char>> {
    match first_word_of(command) {
        Some(word) => if exists|i: int| 0 <= i < word.len() && #[trigger] word[i] == '=' {
            None
        } else {
            Some(word)
        },
        None => None,
    }
}

/// First word of a command, unless it may be an assignment.
pub fn fallback_skeleton(command: &str) -> (word: Option<String>)
    ensures
        match word {
            Some(word) => fallback_word(command@) == Some(word@),
            None => fallback_word(command@) is None,
        },
{
    let word: String = match first_word(command) {
        Some(word) => word,
        None => {
            return None;
        },
    };
    let list: Vec<char> = characters(word.as_str());
    let mut i: usize = 0;
    while i < list.len()
        invariant
            0 <= i <= list@.len(),
            list@ == word@,
            first_word_of(command@) == Some(word@),
            forall|j: int| 0 <= j < i ==> #[trigger] word@[j] != '=',
        decreases list@.len() - i,
    {
        if list[i] == '=' {
            assert(word@[i as int] == '=');
            return None;
        }
        i = i + 1;
    }
    Some(word)
}

/// Ranking skeleton of a command: what the command index says, or else its
/// first word, as far as that is a skeleton.
pub open spec fn skeleton_of(indexed: Option<Seq<char>>, command: Seq<char>) -> Seq<char> {
    let proposed = if indexed is Some {
        indexed
    } else {
        fallback_word(command)
    };
    match proposed {
        Some(text) => if skeleton(text) {
            text
        } else {
            UNKNOWN_SKELETON@
        },
        None => UNKNOWN_SKELETON@,
    }
}

/// Ranking skeleton of a command; `indexed` is what the command index says.
pub fn command_skeleton(indexed: Option<String>, command: &str) -> (text: String)
    ensures
        text@ == skeleton_of(crate::updater::optional_text(indexed), command@),
{
    let proposed: Option<String> = match indexed {
        Some(text) => Some(text),
        None => fallback_skeleton(command),
    };
    match proposed {
        Some(text) => if valid_skeleton(text.as_str()) {
            text
        } else {
            UNKNOWN_SKELETON.to_owned()
        },
        None => UNKNOWN_SKELETON.to_owned(),
    }
}

/// Ranking skeleton of the line that a suggestion gives; `indexed` is what the
/// command index says of that line.
pub fn suggestion_skeleton(line: &str, suggestion: &Suggestion, indexed: Option<String>) -> (text: String)
    ensures
        text@ == match suggestion.accepted_line(line@) {
            Some(result) => skeleton_of(crate::updater::optional_text(indexed), result),
            None => UNKNOWN_SKELETON@,
        },
{
    match suggestion.resulting_line(line) {
        Some(result) => command_skeleton(indexed, result.as_str()),
        None => UNKNOWN_SKELETON.to_owned(),
    }
}

/// Every ranking skeleton is bounded and canonical, whatever the command.
pub proof fn law_skeletons_are_valid(indexed: Option<Seq<char>>, command: Seq<char>)
    ensures
        skeleton(skeleton_of(indexed, command)),
{
    reveal_strlit("command");
    let text = UNKNOWN_SKELETON@;
    assert(text =~= seq!['c', 'o', 'm', 'm', 'a', 'n', 'd']);
    vstd::utf8::is_ascii_chars_encode_utf8(text);
    reveal_with_fuel(skeleton_words, 9);
    let t1 = text.drop_last();
    let t2 = t1.drop_last();
    let t3 = t2.drop_last();
    let t4 = t3.drop_last();
    let t5 = t4.drop_last();
    let t6 = t5.drop_last();
    let t7 = t6.drop_last();
    assert(t7.len() == 0);
    assert(skeleton_words(text).len() == 1);
    assert(skeleton_words(text)[0].len() == 7);
}

/// Specification of [`str::to_lowercase`]: lowercase text, as Unicode has it.
pub uninterp spec fn text_lowercase(text: Seq<char>) -> Seq<char>;

/// Calls [`str::to_lowercase`]. Its result depends on the text alone; how each
/// character is mapped is left to Unicode and not stated here.
#[verifier::external_body]
fn lowercase_text(text: &str) -> (lower: String)
    ensures
        lower@ == text_lowercase(text@),
{
    text.to_lowercase()
}

/// How well a suggestion fits what is being typed.
#[derive(Clone, Copy, Debug, PartialEq, Eq, Structural)]
pub enum MatchTier {
    /// Nothing is being typed.
    Untyped,
    /// It is what is typed.
    Exact,
    /// It starts with what is typed.
    Prefix,
    /// It contains what is typed.
    Contains,
    /// It has the typed characters in order.
    Subsequence,
    /// Nothing of that.
    Unrelated,
}

/// How well lowercase display text fits lowercase typed text.
pub open spec fn tier_of(active: Seq<char>, display: Seq<char>) -> MatchTier {
    if active.len() == 0 {
        MatchTier::Untyped
    } else if display == active {
        MatchTier::Exact
    } else if text_starts(display, active) {
        MatchTier::Prefix
    } else if text_contains(display, active) {
        MatchTier::Contains
    } else if subsequence(active, display) {
        MatchTier::Subsequence
    } else {
        MatchTier::Unrelated
    }
}

/// How well lowercase display text fits lowercase typed text.
pub fn lowercase_tier(active: &str, display: &str) -> (tier: MatchTier)
    ensures
        tier == tier_of(active@, display@),
{
    if active.is_empty() {
        return MatchTier::Untyped;
    }
    if text_equal(display, active) {
        return MatchTier::Exact;
    }
    let needle: Vec<char> = characters(active);
    let value: Vec<char> = characters(display);
    if starts_with_text(&value, &needle) {
        MatchTier::Prefix
    } else if contains_text(&value, &needle) {
        MatchTier::Contains
    } else if is_subsequence(&needle, &value) {
        MatchTier::Subsequence
    } else {
        MatchTier::Unrelated
    }
}

/// How well a suggestion fits what is being typed, which is lowercase already.
pub fn match_tier(active: &str, suggestion: &Suggestion) -> (tier: MatchTier)
    ensures
        tier == tier_of(active@, text_lowercase(suggestion.display@)),
{
    let display: String = lowercase_text(suggestion.display());
    lowercase_tier(active, display.as_str())
}

/// What is being typed, in lowercase.
pub fn active_query_token(cooked: &str) -> (active: String)
    ensures
        active@ == text_lowercase(cooked@),
{
    lowercase_text(cooked)
}

/// Whether files are completed: behind a command, or where the typed word looks
/// like a path. There is no typed word where the line cannot be read.
pub open spec fn completes_files(committed_words: usize, active: Option<Seq<char>>) -> bool {
    match active {
        None => false,
        Some(word) => committed_words > 0 || (word.len() > 0 && (word[0] == '.' || word[0] == '/'
            || word[0] == '~')) || exists|i: int| 0 <= i < word.len() && #[trigger] word[i] == '/',
    }
}

/// Whether files are to be completed: behind a first word, or where the word
/// that is being typed looks like a path. `active` is none where the line
/// cannot be read.
pub fn should_complete_filesystem(committed_words: usize, active: Option<&str>) -> (files: bool)
    ensures
        files == completes_files(
            committed_words,
            match active {
                Some(word) => Some(word@),
                None => None,
            },
        ),
{
    match active {
        None => false,
        Some(word) => {
            if committed_words > 0 {
                return true;
            }
            let list: Vec<char> = characters(word);
            if list.len() > 0 && (list[0] == '.' || list[0] == '/' || list[0] == '~') {
                return true;
            }
            let mut i: usize = 0;
            while i < list.len()
                invariant
                    0 <= i <= list@.len(),
                    list@ == word@,
                    active == Some(word),
                    forall|j: int| 0 <= j < i ==> #[trigger] word@[j] != '/',
                decreases list@.len() - i,
            {
                if list[i] == '/' {
                    assert(word@[i as int] == '/');
                    return true;
                }
                i = i + 1;
            }
            false
        },
    }
}

/// Sources that are asked for suggestions at hand, in this order.
#[derive(Clone, Copy, Debug, PartialEq, Eq, Structural)]
pub struct FastSources {
    /// Aliases of the shell.
    pub aliases: bool,
    /// Executables on the search path.
    pub executables: bool,
    /// Specified subcommands and options.
    pub specifications: bool,
    /// Files and directories.
    pub files: bool,
    /// Lines of history.
    pub history: bool,
}

/// Sources to ask about a line: commands only while the first word is typed,
/// files by their rule, specifications where there is an index of them, and
/// history in its mode. `active` is none where the line cannot be read.
pub fn fast_sources(mode: SessionMode, indexed: bool, committed_words: usize, active: Option<&str>) -> (sources:
    FastSources)
    ensures
        sources == (FastSources {
            aliases: active is Some && committed_words == 0,
            executables: active is Some && committed_words == 0,
            specifications: indexed,
            files: completes_files(
                committed_words,
                match active {
                    Some(word) => Some(word@),
                    None => None,
                },
            ),
            history: mode is History,
        }),
{
    let commands: bool = active.is_some() && committed_words == 0;
    FastSources {
        aliases: commands,
        executables: commands,
        specifications: indexed,
        files: should_complete_filesystem(committed_words, active),
        history: mode == SessionMode::History,
    }
}

/// Suggestions for the line behind an alias, each with its edit of the typed
/// line; those that have none are left out.
pub open spec fn remapped(suggestions: Seq<Suggestion>, edits: Seq<Option<TextEdit>>) -> Seq<Suggestion>
    decreases suggestions.len(),
{
    if suggestions.len() == 0 {
        Seq::empty()
    } else {
        let before = remapped(suggestions.drop_last(), edits);
        match edits[suggestions.len() - 1] {
            Some(edit) => before.push(Suggestion { edit, ..suggestions.last() }),
            None => before,
        }
    }
}

/// Suggestions for the line behind an alias, as suggestions for the typed line;
/// `edits` holds the edit of the typed line that each stands for, if any.
pub fn remap_alias_suggestions(suggestions: Vec<Suggestion>, edits: &Vec<Option<TextEdit>>) -> (mapped:
    Vec<Suggestion>)
    requires
        edits@.len() == suggestions@.len(),
    ensures
        mapped@ == remapped(suggestions@, edits@),
{
    let mut mapped: Vec<Suggestion> = Vec::new();
    let mut i: usize = 0;
    while i < suggestions.len()
        invariant
            0 <= i <= suggestions@.len(),
            edits@.len() == suggestions@.len(),
            mapped@ == remapped(suggestions@.subrange(0, i as int), edits@),
        decreases suggestions@.len() - i,
    {
        assert(suggestions@.subrange(0, i + 1).drop_last() =~= suggestions@.subrange(0, i as int));
        if let Some(edit) = &edits[i] {
            let mut suggestion: Suggestion = suggestions[i].clone();
            suggestion.edit = edit.clone();
            mapped.push(suggestion);
        }
        i = i + 1;
    }
    assert(suggestions@.subrange(0, i as int) =~= suggestions@);
    mapped
}

/// Text bytes of a suggestion.
pub open spec fn suggestion_bytes(suggestion: Suggestion) -> int {
    (encode_utf8(suggestion.edit.replacement@).len() + encode_utf8(suggestion.display@).len()
        + encode_utf8(suggestion.description@).len() + encode_utf8(suggestion.icon@).len()
        + encode_utf8(suggestion.identity@).len()) as int
}

/// Text bytes of a suggestion, as far as they can be counted.
pub fn candidate_bytes(suggestion: &Suggestion) -> (bytes: usize)
    ensures
        bytes == if suggestion_bytes(*suggestion) > usize::MAX {
            usize::MAX as int
        } else {
            suggestion_bytes(*suggestion)
        },
{
    text_len(suggestion.edit.replacement.as_str()).saturating_add(
        text_len(suggestion.display.as_str()),
    ).saturating_add(text_len(suggestion.description.as_str())).saturating_add(
        text_len(suggestion.icon.as_str()),
    ).saturating_add(text_len(suggestion.identity.as_str()))
}

/// Suggestions that a batch may hold, and their bytes: each of the ranked ones
/// that is not too large by itself or with those before it, until the batch has
/// `maximum` of them. A maximum of zero sets no limit on their number.
pub open spec fn bounded_batch(ranked: Seq<Suggestion>, maximum: usize) -> (Seq<Suggestion>, int)
    decreases ranked.len(),
{
    if ranked.len() == 0 {
        (Seq::empty(), 0)
    } else {
        let (kept, bytes) = bounded_batch(ranked.drop_last(), maximum);
        let more = suggestion_bytes(ranked.last());
        if (maximum > 0 && kept.len() == maximum) || more > MAX_CANDIDATE_BYTES || bytes + more
            > MAX_BATCH_BYTES {
            (kept, bytes)
        } else {
            (kept.push(ranked.last()), bytes + more)
        }
    }
}

proof fn lemma_full_batch(ranked: Seq<Suggestion>, maximum: usize, count: int)
    requires
        0 <= count <= ranked.len(),
        maximum > 0,
        bounded_batch(ranked.subrange(0, count), maximum).0.len() == maximum,
    ensures
        bounded_batch(ranked, maximum) == bounded_batch(ranked.subrange(0, count), maximum),
    decreases ranked.len() - count,
{
    if count < ranked.len() {
        assert(ranked.subrange(0, count + 1).drop_last() =~= ranked.subrange(0, count));
        lemma_full_batch(ranked, maximum, count + 1);
    } else {
        assert(ranked.subrange(0, count) =~= ranked);
    }
}

/// Bounds a ranked list for one provider batch.
pub fn bound_provider_batch(ranked: Vec<Suggestion>, maximum: usize) -> (retained: Vec<Suggestion>)
    ensures
        retained@ == bounded_batch(ranked@, maximum).0,
{
    let mut retained: Vec<Suggestion> = Vec::new();
    let mut bytes: usize = 0;
    let mut i: usize = 0;
    assert(retained@ =~= bounded_batch(ranked@.subrange(0, 0), maximum).0);
    while i < ranked.len()
        invariant
            0 <= i <= ranked@.len(),
            bytes <= MAX_BATCH_BYTES,
            maximum > 0 ==> retained@.len() < maximum,
            (retained@, bytes as int) == bounded_batch(ranked@.subrange(0, i as int), maximum),
        decreases ranked@.len() - i,
    {
        assert(ranked@.subrange(0, i + 1).drop_last() =~= ranked@.subrange(0, i as int));
        let more: usize = candidate_bytes(&ranked[i]);
        if more <= MAX_CANDIDATE_BYTES && bytes + more <= MAX_BATCH_BYTES {
            bytes = bytes + more;
            retained.push(ranked[i].clone());
            if maximum > 0 && retained.len() == maximum {
                proof {
                    lemma_full_batch(ranked@, maximum, i + 1);
                }
                return retained;
            }
        }
        i = i + 1;
    }
    assert(ranked@.subrange(0, i as int) =~= ranked@);
    retained
}

/// A batch never holds too many suggestions or too much text.
pub proof fn law_batches_are_bounded(ranked: Seq<Suggestion>, maximum: usize)
    ensures
        ({
            let (kept, bytes) = bounded_batch(ranked, maximum);
            &&& maximum > 0 ==> kept.len() <= maximum
            &&& kept.len() <= ranked.len()
            &&& 0 <= bytes <= MAX_BATCH_BYTES
            &&& forall|i: int| 0 <= i < kept.len() ==> suggestion_bytes(#[trigger] kept[i]) <= MAX_CANDIDATE_BYTES
        }),
    decreases ranked.len(),
{
    if ranked.len() > 0 {
        law_batches_are_bounded(ranked.drop_last(), maximum);
    }
}

/// Position of the last suggestion with this identity.
pub open spec fn last_with_identity(ranked: Seq<Suggestion>, identity: Seq<char>) -> int
    decreases ranked.len(),
{
    if ranked.len() == 0 {
        -1
    } else if ranked.last().identity@ == identity {
        ranked.len() - 1
    } else {
        last_with_identity(ranked.drop_last(), identity)
    }
}

/// Ranks of suggestions in history mode: those that give a line of history come
/// first, in the order of history; `positions` holds where each is found there.
pub open spec fn history_ranks(ranked: Seq<Suggestion>, positions: Seq<Option<usize>>) -> Seq<Rank> {
    Seq::new(
        ranked.len(),
        |i: int|
            match positions[i] {
                Some(position) => Rank { late: false, position },
                None => Rank {
                    late: true,
                    position: last_with_identity(ranked, ranked[i].identity@) as usize,
                },
            },
    )
}

proof fn lemma_last_with_identity(ranked: Seq<Suggestion>, i: int)
    requires
        0 <= i < ranked.len(),
    ensures
        i <= last_with_identity(ranked, ranked[i].identity@) < ranked.len(),
    decreases ranked.len(),
{
    if i < ranked.len() - 1 {
        lemma_last_with_identity(ranked.drop_last(), i);
        assert(ranked.drop_last()[i] == ranked[i]);
    }
}

fn find_last_with_identity(ranked: &Vec<Suggestion>, at: usize) -> (position: usize)
    requires
        at < ranked@.len(),
    ensures
        position == last_with_identity(ranked@, ranked@[at as int].identity@),
{
    let ghost identity = ranked@[at as int].identity@;
    let mut end: usize = ranked.len();
    assert(ranked@.subrange(0, end as int) =~= ranked@);
    while end > at + 1
        invariant
            at < end <= ranked@.len(),
            identity == ranked@[at as int].identity@,
            last_with_identity(ranked@, identity) == last_with_identity(
                ranked@.subrange(0, end as int),
                identity,
            ),
        decreases end,
    {
        assert(ranked@.subrange(0, end as int).drop_last() =~= ranked@.subrange(0, end - 1));
        assert(ranked@.subrange(0, end as int).last() == ranked@[end - 1]);
        if text_equal(ranked[end - 1].identity.as_str(), ranked[at].identity.as_str()) {
            return end - 1;
        }
        end = end - 1;
    }
    assert(ranked@.subrange(0, end as int).last() == ranked@[at as int]);
    at
}

/// Suggestions in the order of history mode.
pub fn order_for_history(ranked: Vec<Suggestion>, positions: &Vec<Option<usize>>) -> (ordered: Vec<
    Suggestion,
>)
    requires
        positions@.len() == ranked@.len(),
    ensures
        exists|order: Seq<usize>| #[trigger]
            stable_order(history_ranks(ranked@, positions@), order) && ordered@ =~= Seq::new(
                order.len(),
                |i: int| ranked@[order[i] as int],
            ),
{
    let mut ranks: Vec<Rank> = Vec::new();
    let ghost expected = history_ranks(ranked@, positions@);
    let mut i: usize = 0;
    while i < ranked.len()
        invariant
            0 <= i <= ranked@.len(),
            positions@.len() == ranked@.len(),
            expected == history_ranks(ranked@, positions@),
            ranks@ == expected.subrange(0, i as int),
        decreases ranked@.len() - i,
    {
        proof {
            lemma_last_with_identity(ranked@, i as int);
        }
        let rank = match positions[i] {
            Some(position) => Rank { late: false, position },
            None => Rank { late: true, position: find_last_with_identity(&ranked, i) },
        };
        ranks.push(rank);
        assert(ranks@ =~= expected.subrange(0, i + 1));
        i = i + 1;
    }
    assert(ranks@ =~= expected);
    let order: Vec<usize> = order_by_rank(&ranks);
    let mut ordered: Vec<Suggestion> = Vec::new();
    let mut j: usize = 0;
    let ghost all = Seq::new(order@.len(), |k: int| ranked@[order@[k] as int]);
    while j < order.len()
        invariant
            0 <= j <= order@.len(),
            stable_order(expected, order@),
            expected.len() == ranked@.len(),
            all == Seq::new(order@.len(), |k: int| ranked@[order@[k] as int]),
            ordered@ == all.subrange(0, j as int),
        decreases order@.len() - j,
    {
        ordered.push(ranked[order[j]].clone());
        assert(ordered@ =~= all.subrange(0, j + 1));
        j = j + 1;
    }
    assert(ordered@ =~= all);
    ordered
}

/// Most suggestions that a batch may hold under these settings.
pub fn batch_limit(settings: &LocalSettings) -> (limit: usize)
    ensures
        limit == if settings.max_suggestions < MAX_BATCH_CANDIDATES {
            settings.max_suggestions as int
        } else {
            MAX_BATCH_CANDIDATES as int
        },
{
    if (settings.max_suggestions as usize) < MAX_BATCH_CANDIDATES {
        settings.max_suggestions as usize
    } else {
        MAX_BATCH_CANDIDATES
    }
}

/// Orders and bounds a fully ranked list and publishes it: every candidate has
/// taken part in the ranking before the bounds apply.
pub fn rank_and_publish(
    dispatcher: &mut LocalCompletionDispatcher,
    mode: SessionMode,
    settings: &LocalSettings,
    generation: u64,
    ranked: Vec<Suggestion>,
    positions: &Vec<Option<usize>>,
    cancelled: bool,
)
    requires
        old(dispatcher)@.inv(),
        positions@.len() == ranked@.len(),
    ensures
        final(dispatcher)@.inv(),
        mode is Spec ==> final(dispatcher)@ == old(dispatcher)@.published(
            cancelled,
            generation,
            bounded_batch(ranked@, batch_maximum(*settings)).0,
        ),
        mode is History ==> exists|order: Seq<usize>| #[trigger]
            stable_order(history_ranks(ranked@, positions@), order) && final(dispatcher)@
                == old(dispatcher)@.published(
                cancelled,
                generation,
                bounded_batch(
                    Seq::new(order.len(), |i: int| ranked@[order[i] as int]),
                    batch_maximum(*settings),
                ).0,
            ),
{
    let maximum: usize = batch_limit(settings);
    let ordered: Vec<Suggestion> = match mode {
        SessionMode::Spec => ranked,
        SessionMode::History => order_for_history(ranked, positions),
    };
    let bounded: Vec<Suggestion> = bound_provider_batch(ordered, maximum);
    dispatcher.publish(generation, bounded, cancelled);
}

/// Most suggestions that a batch may hold under these settings.
pub open spec fn batch_maximum(settings: LocalSettings) -> usize {
    if settings.max_suggestions < MAX_BATCH_CANDIDATES {
        settings.max_suggestions as usize
    } else {
        MAX_BATCH_CANDIDATES
    }
}

/// What the worker asks for to answer a query, in this order.
#[derive(Clone, Copy, Debug, PartialEq, Eq, Structural)]
pub enum QueryStage {
    /// An alias edit.
    Alias,
    /// Suggestions that are at hand.
    Fast,
    /// Suggestions of curated generators.
    Dynamic,
    /// Suggestions that an unknown command gives.
    Cobra,
    /// Nothing more.
    Done,
}

/// How the worker begins with a query.
#[derive(Clone, Copy, Debug, PartialEq, Eq, Structural)]
pub enum QueryStart {
    /// The query is void.
    Void,
    /// Nothing is typed: publish an empty batch.
    Empty,
    /// Begin with this stage.
    Stage(QueryStage),
}

/// How the worker begins with a query.
pub open spec fn query_start(aborted: bool, pending: PendingView) -> QueryStart {
    if aborted {
        QueryStart::Void
    } else if pending.mode is Spec && blank(text_before(pending.query.line, pending.query.cursor)) {
        QueryStart::Empty
    } else if pending.alias_expansion {
        QueryStart::Stage(QueryStage::Alias)
    } else {
        QueryStart::Stage(QueryStage::Fast)
    }
}

/// How the worker begins with a query.
pub fn begin_query(dispatcher: &LocalCompletionDispatcher, pending: &PendingQuery, cancelled: bool) -> (start:
    QueryStart)
    requires
        is_char_boundary(encode_utf8(pending@.query.line), pending@.query.cursor),
    ensures
        start == query_start(
            dispatcher@.aborted(cancelled, pending@.query.generation),
            pending@,
        ),
{
    let query: &CompletionQuery = pending.work.query();
    if dispatcher.aborted(cancelled, query.generation) {
        return QueryStart::Void;
    }
    if pending.mode == SessionMode::Spec && is_blank(query.prefix()) {
        return QueryStart::Empty;
    }
    if pending.alias_expansion {
        QueryStart::Stage(QueryStage::Alias)
    } else {
        QueryStart::Stage(QueryStage::Fast)
    }
}

impl QueryStage {
    /// Stage behind this one, unless the query has become void.
    pub open spec fn following(self, aborted: bool) -> Self {
        if aborted {
            QueryStage::Done
        } else {
            match self {
                QueryStage::Alias => QueryStage::Fast,
                QueryStage::Fast => QueryStage::Dynamic,
                QueryStage::Dynamic => QueryStage::Cobra,
                QueryStage::Cobra => QueryStage::Done,
                QueryStage::Done => QueryStage::Done,
            }
        }
    }

    /// Stage behind this one, unless the query has become void.
    pub fn next(self, dispatcher: &LocalCompletionDispatcher, cancelled: bool, generation: u64) -> (stage:
        QueryStage)
        ensures
            stage == self.following(dispatcher@.aborted(cancelled, generation)),
    {
        if dispatcher.aborted(cancelled, generation) {
            return QueryStage::Done;
        }
        match self {
            QueryStage::Alias => QueryStage::Fast,
            QueryStage::Fast => QueryStage::Dynamic,
            QueryStage::Dynamic => QueryStage::Cobra,
            QueryStage::Cobra => QueryStage::Done,
            QueryStage::Done => QueryStage::Done,
        }
    }

    /// Whether what was found at this stage is ranked and published: what is at
    /// hand always, what comes later only where something was found.
    pub fn publishes(self, found: usize) -> (publishes: bool)
        ensures
            publishes == (self is Fast || ((self is Dynamic || self is Cobra) && found > 0)),
    {
        match self {
            QueryStage::Fast => true,
            QueryStage::Dynamic | QueryStage::Cobra => found > 0,
            QueryStage::Alias | QueryStage::Done => false,
        }
    }
}

/// Every query comes to an end, and at most four stages are asked.
pub proof fn law_queries_end(stage: QueryStage)
    ensures
        stage.following(false).following(false).following(false).following(false) is Done,
        stage.following(true) is Done,
{
}

/// A remembered command as a value.
#[verifier::ext_equal]
pub struct HistoryEntry {
    /// Text of the command.
    pub command: String,
    /// When it completed, in seconds since 1970.
    pub timestamp: u64,
}

/// Bytes of remembered commands.
pub open spec fn history_bytes(entries: Seq<HistoryEntry>) -> int
    decreases entries.len(),
{
    if entries.len() == 0 {
        0
    } else {
        encode_utf8(entries[0].command@).len() + history_bytes(entries.drop_first())
    }
}

/// Whether one more command fits behind the others.
pub open spec fn history_fits(entries: Seq<HistoryEntry>, bytes: int) -> bool {
    entries.len() < MAX_SESSION_HISTORY_ENTRIES && history_bytes(entries) + bytes
        <= MAX_SESSION_HISTORY_BYTES
}

/// Remembered commands without the oldest ones, so far as room is needed.
pub open spec fn history_with_room(entries: Seq<HistoryEntry>, bytes: int) -> Seq<HistoryEntry>
    decreases entries.len(),
{
    if entries.len() == 0 || history_fits(entries, bytes) {
        entries
    } else {
        history_with_room(entries.drop_first(), bytes)
    }
}

/// Remembered commands after one more: one that is too large by itself is not
/// remembered.
pub open spec fn history_after(entries: Seq<HistoryEntry>, entry: HistoryEntry) -> Seq<HistoryEntry> {
    let bytes = encode_utf8(entry.command@).len() as int;
    if bytes > MAX_SESSION_HISTORY_BYTES {
        entries
    } else {
        history_with_room(entries, bytes).push(entry)
    }
}

/// Commands that a session remembers by itself, oldest first.
pub struct SessionHistory {
    entries: Vec<HistoryEntry>,
    bytes: usize,
}

impl View for SessionHistory {
    type V = Seq<HistoryEntry>;

    closed spec fn view(&self) -> Seq<HistoryEntry> {
        self.entries@
    }
}

proof fn lemma_history_push(entries: Seq<HistoryEntry>, entry: HistoryEntry)
    ensures
        history_bytes(entries.push(entry)) == history_bytes(entries) + encode_utf8(entry.command@).len(),
    decreases entries.len(),
{
    let pushed = entries.push(entry);
    if entries.len() == 0 {
        assert(pushed.drop_first().len() == 0);
        reveal_with_fuel(history_bytes, 2);
    } else {
        assert(pushed.drop_first() =~= entries.drop_first().push(entry));
        lemma_history_push(entries.drop_first(), entry);
    }
}

proof fn lemma_history_bytes(entries: Seq<HistoryEntry>)
    ensures
        history_bytes(entries) >= 0,
    decreases entries.len(),
{
    if entries.len() > 0 {
        lemma_history_bytes(entries.drop_first());
    }
}

impl SessionHistory {
    /// The count of bytes is right, and both bounds hold.
    pub closed spec fn wf(&self) -> bool {
        &&& self.bytes == history_bytes(self.entries@)
        &&& self.bytes <= MAX_SESSION_HISTORY_BYTES
        &&& self.entries@.len() <= MAX_SESSION_HISTORY_ENTRIES
    }

    /// Remembers nothing.
    pub fn new() -> (history: Self)
        ensures
            history.wf(),
            history@ == Seq::<HistoryEntry>::empty(),
    {
        SessionHistory { entries: Vec::new(), bytes: 0 }
    }

    /// Remembered commands, oldest first.
    pub fn entries(&self) -> (entries: &Vec<HistoryEntry>)
        ensures
            entries@ == self@,
    {
        &self.entries
    }

    /// Remembered commands in the order in which they are searched: newest first.
    pub fn newest_first(&self) -> (entries: Vec<HistoryEntry>)
        ensures
            entries@ == self@.reverse(),
    {
        let mut entries: Vec<HistoryEntry> = Vec::new();
        let mut i: usize = self.entries.len();
        while i > 0
            invariant
                0 <= i <= self.entries@.len(),
                entries@ == self.entries@.reverse().subrange(0, self.entries@.len() - i),
            decreases i,
        {
            i = i - 1;
            let entry = HistoryEntry {
                command: self.entries[i].command.clone(),
                timestamp: self.entries[i].timestamp,
            };
            assert(entry == self.entries@[i as int]);
            entries.push(entry);
            assert(entries@ =~= self.entries@.reverse().subrange(0, self.entries@.len() - i));
        }
        assert(entries@ =~= self.entries@.reverse());
        entries
    }

    /// Remembers one more command; the oldest ones make room.
    pub fn record_session_only(&mut self, entry: HistoryEntry)
        requires
            old(self).wf(),
        ensures
            final(self).wf(),
            final(self)@ == history_after(old(self)@, entry),
            final(self)@.len() <= MAX_SESSION_HISTORY_ENTRIES,
            history_bytes(final(self)@) <= MAX_SESSION_HISTORY_BYTES,
    {
        let bytes: usize = text_len(entry.command.as_str());
        if bytes > MAX_SESSION_HISTORY_BYTES {
            return;
        }
        let ghost all = self.entries@;
        while self.entries.len() > 0 && (self.entries.len() >= MAX_SESSION_HISTORY_ENTRIES || self.bytes + bytes
            > MAX_SESSION_HISTORY_BYTES)
            invariant
                bytes <= MAX_SESSION_HISTORY_BYTES,
                self.wf(),
                history_with_room(all, bytes as int) == history_with_room(self.entries@, bytes as int),
            decreases self.entries@.len(),
        {
            let ghost before = self.entries@;
            let removed = self.entries.remove(0);
            proof {
                assert(self.entries@ =~= before.drop_first());
                lemma_history_bytes(self.entries@);
            }
            self.bytes = self.bytes - text_len(removed.command.as_str());
        }
        proof {
            lemma_history_push(self.entries@, entry);
        }
        self.entries.push(entry);
        self.bytes = self.bytes + bytes;
    }
}

/// How a command is learned from.
pub struct LearningPlan {
    /// Its ranking skeleton.
    pub skeleton: String,
    /// Skeleton of the command before it, where that counts.
    pub prior: Option<String>,
}

/// What a worker carries from command to command.
pub struct CommandLearner {
    prior_skeleton: Option<String>,
}

impl View for CommandLearner {
    type V = Option<Seq<char>>;

    closed spec fn view(&self) -> Option<Seq<char>> {
        crate::updater::optional_text(self.prior_skeleton)
    }
}

/// Whether a command is kept out of history: it starts with a blank.
pub open spec fn kept_private(command: Seq<char>) -> bool {
    command.len() > 0 && (command[0] == ' ' || command[0] == '\t')
}

impl CommandLearner {
    /// No command has been seen.
    pub fn new() -> (learner: Self)
        ensures
            learner@ is None,
    {
        CommandLearner { prior_skeleton: None }
    }

    /// Begins to learn from a command; `indexed` is its skeleton by the command
    /// index. Nothing is learned from a command that starts with a blank, and
    /// the one after it has no predecessor.
    pub fn record_command(&mut self, command: &str, indexed: Option<String>) -> (plan: Option<LearningPlan>)
        ensures
            match plan {
                None => kept_private(command@) && final(self)@ is None,
                Some(plan) => {
                    &&& !kept_private(command@)
                    &&& plan.skeleton@ == skeleton_of(crate::updater::optional_text(indexed), command@)
                    &&& crate::updater::optional_text(plan.prior) == old(self)@
                    &&& final(self)@ == old(self)@
                },
            },
    {
        let list: Vec<char> = characters(command);
        if list.len() > 0 && (list[0] == ' ' || list[0] == '\t') {
            self.prior_skeleton = None;
            return None;
        }
        let prior: Option<String> = match &self.prior_skeleton {
            Some(prior) => Some(prior.clone()),
            None => None,
        };
        Some(LearningPlan { skeleton: command_skeleton(indexed, command), prior })
    }

    /// Skeleton of the command before, where that counts.
    pub fn prior_skeleton(&self) -> (prior: Option<&str>)
        ensures
            match prior {
                Some(prior) => self@ == Some(prior@),
                None => self@ is None,
            },
    {
        match &self.prior_skeleton {
            Some(prior) => Some(prior.as_str()),
            None => None,
        }
    }

    /// Notes whether the command was learned from, and whether that was stored.
    /// Says whether a failure is to be counted.
    pub fn command_recorded(&mut self, skeleton: String, recorded: bool, stored: bool) -> (failed: bool)
        ensures
            failed == !(recorded && stored),
            final(self)@ == if recorded {
                Some(skeleton@)
            } else {
                old(self)@
            },
    {
        if !recorded {
            return true;
        }
        self.prior_skeleton = Some(skeleton);
        !stored
    }
}

/// What identifies the contents of an alias file.
#[derive(Clone, Copy, Debug, PartialEq, Eq, Structural)]
pub struct AliasFileSignature {
    /// Bytes in the file, where it can be seen.
    pub length: Option<u64>,
    /// When it was changed, where that is known.
    pub modified: Option<u128>,
}

/// Whether aliases have to be read again: some file has changed since.
pub fn aliases_changed(seen: &Vec<AliasFileSignature>, current: &Vec<AliasFileSignature>) -> (changed: bool)
    ensures
        changed == (seen@ != current@),
{
    if seen.len() != current.len() {
        return true;
    }
    let mut i: usize = 0;
    while i < seen.len()
        invariant
            0 <= i <= seen@.len(),
            seen@.len() == current@.len(),
            forall|j: int| 0 <= j < i ==> seen@[j] == #[trigger] current@[j],
        decreases seen@.len() - i,
    {
        if seen[i] != current[i] {
            return true;
        }
        i = i + 1;
    }
    assert(seen@ =~= current@);
    false
}

/// Suggestion that puts a command of history in place of the whole line.
pub fn history_suggestion(line: &str, command: &str, position: usize) -> (suggestion: Suggestion)
    ensures
        suggestion.edit.range.start == 0,
        suggestion.edit.range.end == encode_utf8(line@).len(),
        suggestion.edit.replacement@ == command@,
        suggestion.display@ == command@,
        suggestion.description@ == "shell history"@,
        suggestion.icon@ == "history"@,
        suggestion.source is History,
        suggestion.insertion is Exact,
        suggestion.identity@ == "history:"@ + decimal_chars(position as nat),
{
    let mut identity: String = "history:".to_owned();
    append_number(&mut identity, position as u128);
    Suggestion {
        edit: TextEdit {
            range: std::ops::Range { start: 0, end: text_len(line) },
            replacement: command.to_owned(),
        },
        display: command.to_owned(),
        description: "shell history".to_owned(),
        icon: "history".to_owned(),
        source: SuggestionSource::History,
        insertion: InsertionBehavior::Exact,
        identity,
    }
}

/// Whether a suggestion gives the same line as another.
pub open spec fn same_line(line: Seq<char>, a: Suggestion, b: Suggestion) -> bool {
    a.accepted_line(line) is Some && a.accepted_line(line) == b.accepted_line(line)
}

/// Whether `position` is where the line of a suggestion is found first in history.
pub open spec fn history_position(
    line: Seq<char>,
    history: Seq<Suggestion>,
    suggestion: Suggestion,
    position: Option<usize>,
) -> bool {
    match position {
        Some(at) => {
            &&& at < history.len()
            &&& same_line(line, history[at as int], suggestion)
            &&& forall|j: int| 0 <= j < at ==> !same_line(line, #[trigger] history[j], suggestion)
        },
        None => forall|j: int|
            0 <= j < history.len() ==> !same_line(line, #[trigger] history[j], suggestion),
    }
}

fn find_history_position(line: &str, history: &Vec<Suggestion>, suggestion: &Suggestion) -> (position: Option<
    usize,
>)
    ensures
        history_position(line@, history@, *suggestion, position),
{
    let wanted: String = match suggestion.resulting_line(line) {
        Some(wanted) => wanted,
        None => {
            return None;
        },
    };
    let mut i: usize = 0;
    while i < history.len()
        invariant
            0 <= i <= history@.len(),
            suggestion.accepted_line(line@) == Some(wanted@),
            forall|j: int| 0 <= j < i ==> !same_line(line@, #[trigger] history@[j], *suggestion),
        decreases history@.len() - i,
    {
        if let Some(given) = history[i].resulting_line(line) {
            if text_equal(given.as_str(), wanted.as_str()) {
                return Some(i);
            }
        }
        i = i + 1;
    }
    None
}

/// Where the line of each suggestion is found first in history.
pub fn history_positions(line: &str, history: &Vec<Suggestion>, ranked: &Vec<Suggestion>) -> (positions: Vec<
    Option<usize>,
>)
    ensures
        positions@.len() == ranked@.len(),
        forall|i: int|
            0 <= i < ranked@.len() ==> history_position(
                line@,
                history@,
                ranked@[i],
                #[trigger] positions@[i],
            ),
{
    let mut positions: Vec<Option<usize>> = Vec::new();
    let mut i: usize = 0;
    while i < ranked.len()
        invariant
            0 <= i <= ranked@.len(),
            positions@.len() == i,
            forall|j: int|
                0 <= j < i ==> history_position(line@, history@, ranked@[j], #[trigger] positions@[j]),
        decreases ranked@.len() - i,
    {
        positions.push(find_history_position(line, history, &ranked[i]));
        i = i + 1;
    }
    positions
}

/// Settings, directories and completed commands are all taken in before a
/// query, and a query waits out its debounce.
pub proof fn law_events_come_before_queries(dispatcher: DispatcherView, now: u128)
    ensures
        dispatcher.next(now).1 matches ItemView::Query(pending) ==> {
            &&& dispatcher.pending_settings is None
            &&& dispatcher.pending_cwd is None
            &&& dispatcher.commands.len() == 0
            &&& dispatcher.pending_query == Some(pending)
            &&& now >= pending.submitted_at + QUERY_DEBOUNCE
        },
        dispatcher.shutdown ==> dispatcher.next(now).1 is Shutdown,
{
}

proof fn lemma_newer_batches(batches: Seq<BatchView>, generation: u64)
    ensures
        forall|i: int|
            0 <= i < newer_batches(batches, generation).len() ==> (#[trigger] newer_batches(
                batches,
                generation,
            )[i]).generation > generation,
        newer_batches(batches, generation).len() <= batches.len(),
    decreases batches.len(),
{
    if batches.len() > 0 {
        lemma_newer_batches(batches.drop_last(), generation);
    }
}

/// A published batch is the last of the queue, and no batch of its generation
/// or an older one stays beside it; a void one changes nothing.
pub proof fn law_published_batches_replace_older(
    dispatcher: DispatcherView,
    cancelled: bool,
    generation: u64,
    suggestions: Seq<Suggestion>,
)
    requires
        dispatcher.inv(),
    ensures
        ({
            let after = dispatcher.published(cancelled, generation, suggestions);
            &&& after.inv()
            &&& dispatcher.aborted(cancelled, generation) ==> after == dispatcher
            &&& !dispatcher.aborted(cancelled, generation) ==> {
                &&& after.output.len() > 0
                &&& after.output.last().generation == generation
                &&& after.output.last().suggestions == suggestions
                &&& forall|i: int|
                    0 <= i < after.output.len() - 1 ==> (#[trigger] after.output[i]).generation > generation
            }
        }),
{
    lemma_newer_batches(dispatcher.output, generation);
}

/// A name of an environment variable is completed where it is a plain, bounded
/// word: no equals sign, white space or control character stands in it.
pub proof fn law_plain_names_are_completed(name: Seq<char>, at: int)
    ensures
        name.len() == 0 ==> !completed_name(name),
        encode_utf8(name).len() > MAX_ENVIRONMENT_NAME_BYTES ==> !completed_name(name),
        0 <= at < name.len() && (name[at] == '=' || white_space(name[at]) || control(name[at]))
            ==> !completed_name(name),
        name.len() > 0 && encode_utf8(name).len() <= MAX_ENVIRONMENT_NAME_BYTES && (forall|i: int|
            0 <= i < name.len() ==> ('a' <= #[trigger] name[i] <= 'z' || 'A' <= name[i] <= 'Z' || '0'
                <= name[i] <= '9' || name[i] == '_')) ==> completed_name(name),
{
}

/// The newest query is the one that waits and the one that counts, whatever
/// waited before it; a cancelled one, or one after the end, changes no waiting
/// query.
pub proof fn law_the_newest_query_waits(dispatcher: DispatcherView, cancelled: bool, pending: PendingView)
    ensures
        ({
            let after = dispatcher.after_query(cancelled, pending);
            &&& !cancelled && dispatcher.alive && !dispatcher.shutdown ==> {
                &&& after.pending_query == Some(pending)
                &&& after.latest_generation == pending.query.generation
                &&& dispatcher.query_admission(cancelled) is Coalesced <==> dispatcher.pending_query is Some
                &&& dispatcher.query_admission(cancelled) is Queued <==> dispatcher.pending_query is None
            }
            &&& cancelled ==> after == dispatcher && dispatcher.query_admission(cancelled) is Cancelled
            &&& !cancelled && (!dispatcher.alive || dispatcher.shutdown) ==> after.pending_query
                == dispatcher.pending_query && dispatcher.query_admission(cancelled) is Closed
            &&& after.commands == dispatcher.commands && after.output == dispatcher.output
            &&& after.pending_cwd == dispatcher.pending_cwd && after.pending_settings
                == dispatcher.pending_settings
        }),
{
}

/// A completed command is queued where it says something, is not too long, ran in
/// an absolute directory that is not too long, and there is room.
pub proof fn law_completed_commands_are_queued(dispatcher: DispatcherView, command: CommandView)
    ensures
        ({
            let admission = dispatcher.command_admission(command);
            let says = exists|i: int|
                0 <= i < command.command.len() && !white_space(#[trigger] command.command[i]);
            let fits = encode_utf8(command.command).len() <= MAX_LEARNING_COMMAND_BYTES;
            let placed = 0 < command.cwd.len() <= MAX_EVENT_CWD_BYTES && command.cwd[0] == 47;
            &&& !says ==> admission == Ok::<_, CompletionEventError>(CommandEventAdmission::Ignored)
            &&& says && !fits ==> admission is Err
            &&& says && fits && !placed ==> admission is Err
            &&& says && fits && placed && (!dispatcher.alive || dispatcher.shutdown) ==> admission
                == Ok::<_, CompletionEventError>(CommandEventAdmission::Closed)
            &&& says && fits && placed && dispatcher.alive && !dispatcher.shutdown ==> admission
                == Ok::<_, CompletionEventError>(
                if dispatcher.commands.len() == MAX_PENDING_COMMAND_EVENTS {
                    CommandEventAdmission::Full
                } else {
                    CommandEventAdmission::Queued
                },
            )
        }),
{
    let says = exists|i: int|
        0 <= i < command.command.len() && !white_space(#[trigger] command.command[i]);
    assert(blank(command.command) <==> !says);
}

/// Work is taken in this order: an end, new settings, a new directory, completed
/// commands with the oldest first, and last the query, once it has waited long
/// enough for a newer one. What is taken is gone, and nothing else.
pub proof fn law_work_is_taken_in_order(dispatcher: DispatcherView, now: u128)
    ensures
        ({
            let (after, item) = dispatcher.next(now);
            let open = !dispatcher.shutdown;
            let settled = open && dispatcher.pending_settings is None;
            let placed = settled && dispatcher.pending_cwd is None;
            let learned = placed && dispatcher.commands.len() == 0;
            &&& item is Shutdown <==> dispatcher.shutdown
            &&& open && dispatcher.pending_settings is Some ==> {
                &&& item == ItemView::Settings(dispatcher.pending_settings->0)
                &&& after == (DispatcherView { pending_settings: None, ..dispatcher })
            }
            &&& settled && dispatcher.pending_cwd is Some ==> {
                &&& item == ItemView::Cwd(dispatcher.pending_cwd->0)
                &&& after == (DispatcherView { pending_cwd: None, ..dispatcher })
            }
            &&& placed && dispatcher.commands.len() > 0 ==> {
                &&& item == ItemView::Command(dispatcher.commands[0])
                &&& seq![dispatcher.commands[0]] + after.commands == dispatcher.commands
                &&& after == (DispatcherView { commands: after.commands, ..dispatcher })
            }
            &&& learned && dispatcher.pending_query is Some ==> {
                let pending = dispatcher.pending_query->0;
                &&& now >= pending.submitted_at + QUERY_DEBOUNCE ==> item == ItemView::Query(pending)
                    && after == (DispatcherView { pending_query: None, ..dispatcher })
                &&& now < pending.submitted_at + QUERY_DEBOUNCE ==> after == dispatcher && (item matches
                    ItemView::Wait(Some(time)) && time <= QUERY_DEBOUNCE && (pending.submitted_at <= now
                    ==> now + time == pending.submitted_at + QUERY_DEBOUNCE))
            }
            &&& learned && dispatcher.pending_query is None ==> item == ItemView::Wait(None)
        }),
{
    if dispatcher.commands.len() > 0 {
        assert(seq![dispatcher.commands[0]] + dispatcher.commands.drop_first()
            =~= dispatcher.commands);
    }
}

/// Work on a query is void once it is cancelled, another query came or the end
/// did; only then is nothing published for it.
pub proof fn law_only_the_current_query_is_answered(
    dispatcher: DispatcherView,
    cancelled: bool,
    generation: u64,
    suggestions: Seq<Suggestion>,
    edit: TextEdit,
)
    requires
        dispatcher.inv(),
    ensures
        dispatcher.aborted(cancelled, generation) <==> cancelled || dispatcher.latest_generation
            != generation || dispatcher.shutdown,
        !cancelled && dispatcher.latest_generation == generation && !dispatcher.shutdown ==> {
            &&& dispatcher.published(cancelled, generation, suggestions).output.last() == (BatchView {
                provider: LOCAL_COMPLETION_PROVIDER@,
                generation,
                suggestions,
                error: None,
            })
            &&& dispatcher.alias_published(cancelled, generation, edit).alias_output.last() == (
                generation,
                edit,
            )
        },
        cancelled || dispatcher.latest_generation != generation || dispatcher.shutdown ==> {
            &&& dispatcher.published(cancelled, generation, suggestions) == dispatcher
            &&& dispatcher.alias_published(cancelled, generation, edit) == dispatcher
        },
{
}

/// One drain takes all there is, as far as both bounds allow; a queue that is
/// full keeps its newest.
pub proof fn law_drains_and_queues_are_bounded<T>(items: Seq<T>, available: nat, limit: usize, most: usize)
    ensures
        drain_count(available, limit, most) <= available,
        drain_count(available, limit, most) <= limit,
        drain_count(available, limit, most) <= most,
        drain_count(available, limit, most) == available || drain_count(available, limit, most) == limit
            || drain_count(available, limit, most) == most,
        items.len() <= most ==> last_items(items, most as nat) == items,
        items.len() > most ==> last_items(items, most as nat).len() == most && (forall|i: int|
            0 <= i < most ==> #[trigger] last_items(items, most as nat)[i] == items[items.len() - most
                + i]),
{
}

proof fn lemma_skeleton_words(text: Seq<char>)
    ensures
        skeleton_words(text).len() > 0,
        skeleton_words(text).last().len() == 0 <==> text.len() == 0 || text.last() == ' ',
        (forall|i: int|
            0 <= i < skeleton_words(text).len() - 1 ==> (#[trigger] skeleton_words(text)[i]).len() > 0)
            <==> single_spaced(text),
    decreases text.len(),
{
    if text.len() > 0 {
        let front = text.drop_last();
        let rest = skeleton_words(front);
        let words = skeleton_words(text);
        lemma_skeleton_words(front);
        if single_spaced(text) {
            assert forall|i: int| 0 <= i < front.len() && #[trigger] front[i] == ' ' implies i > 0
                && front[i - 1] != ' ' by {
                assert(text[i] == ' ');
            }
        }
        if text.last() == ' ' {
            assert(words.drop_last() =~= rest);
            if single_spaced(text) {
                assert(text[text.len() - 1] == ' ');
                assert(front.last() != ' ');
                assert forall|i: int| 0 <= i < words.len() - 1 implies (#[trigger] words[i]).len() > 0 by {
                    assert(words[i] == rest[i]);
                    if i == rest.len() - 1 {
                        assert(rest.last().len() > 0);
                    }
                }
            }
            if forall|i: int| 0 <= i < words.len() - 1 ==> (#[trigger] words[i]).len() > 0 {
                assert forall|i: int| 0 <= i < rest.len() implies (#[trigger] rest[i]).len() > 0 by {
                    assert(words[i] == rest[i]);
                }
                assert(rest.last() == rest[rest.len() - 1]);
                assert forall|i: int| 0 <= i < text.len() && #[trigger] text[i] == ' ' implies i > 0
                    && text[i - 1] != ' ' by {
                    if i < front.len() {
                        assert(front[i] == ' ');
                    } else {
                        assert(front.last() == text[i - 1]);
                    }
                }
            }
        } else {
            assert(forall|i: int| 0 <= i < rest.len() - 1 ==> words[i] == #[trigger] rest[i]);
            if single_spaced(text) {
                assert forall|i: int| 0 <= i < words.len() - 1 implies (#[trigger] words[i]).len() > 0 by {
                    assert(words[i] == rest[i]);
                }
            }
            if forall|i: int| 0 <= i < words.len() - 1 ==> (#[trigger] words[i]).len() > 0 {
                assert forall|i: int| 0 <= i < rest.len() - 1 implies (#[trigger] rest[i]).len() > 0 by {
                    assert(words[i] == rest[i]);
                }
                assert forall|i: int| 0 <= i < text.len() && #[trigger] text[i] == ' ' implies i > 0
                    && text[i - 1] != ' ' by {
                    assert(front[i] == ' ');
                }
            }
        }
    }
}

/// Whether no space stands first or behind another.
pub open spec fn single_spaced(text: Seq<char>) -> bool {
    forall|i: int| 0 <= i < text.len() && #[trigger] text[i] == ' ' ==> i > 0 && text[i - 1] != ' '
}

/// A ranking skeleton is bounded, single words with one space between two and
/// none at the ends, and nothing else that is white or controls; a text is one
/// exactly where it also has no more words than allowed.
pub proof fn law_skeletons_are_plain_words(text: Seq<char>)
    ensures
        skeleton(text) <==> {
            &&& encode_utf8(text).len() <= MAX_RANKING_SKELETON_BYTES
            &&& text.len() > 0
            &&& text.last() != ' '
            &&& single_spaced(text)
            &&& forall|i: int|
                0 <= i < text.len() ==> #[trigger] text[i] == ' ' || (!white_space(text[i]) && !control(
                    text[i],
                ))
            &&& skeleton_words(text).len() <= MAX_RANKING_SKELETON_TOKENS
        },
        skeleton_words(text).len() == 1 + text.filter(|c: char| c == ' ').len(),
    decreases text.len(),
{
    lemma_skeleton_words(text);
    let words = skeleton_words(text);
    assert(words.last() == words[words.len() - 1]);
    if skeleton(text) {
        assert(words[words.len() - 1].len() > 0);
    }
    reveal(Seq::filter);
    if text.len() > 0 {
        law_skeletons_are_plain_words(text.drop_last());
        lemma_skeleton_words(text.drop_last());
    }
}

/// The skeleton of a command is what the index says, where that is one; without
/// an index it is a plain first word, unless that holds an equals sign and may
/// hold a value.
pub proof fn law_skeletons_come_from_the_index_or_the_first_word(
    indexed: Seq<char>,
    word: Seq<char>,
    rest: Seq<char>,
)
    requires
        word.len() > 0,
        forall|i: int|
            0 <= i < word.len() ==> !white_space(#[trigger] word[i]) && word[i] != '\'' && word[i] != '"'
                && word[i] != '\\',
        rest.len() > 0 ==> white_space(rest[0]),
    ensures
        skeleton_of(Some(indexed), word + rest) == if skeleton(indexed) {
            indexed
        } else {
            UNKNOWN_SKELETON@
        },
        (exists|i: int| 0 <= i < word.len() && #[trigger] word[i] == '=') ==> skeleton_of(
            None,
            word + rest,
        ) == UNKNOWN_SKELETON@,
        (forall|i: int| 0 <= i < word.len() ==> #[trigger] word[i] != '=') ==> skeleton_of(
            None,
            word + rest,
        ) == if skeleton(word) {
            word
        } else {
            UNKNOWN_SKELETON@
        },
{
    law_plain_first_words(Seq::empty(), word, rest);
    assert(Seq::<char>::empty() + word + rest =~= word + rest);
}

/// Suggestions fit better the more they say what is typed: the whole of it, then
/// what begins with it, then what holds it, then what has its characters in
/// order, then the rest.
pub proof fn law_tiers_tell_how_well_texts_fit(active: Seq<char>, display: Seq<char>)
    ensures
        active.len() == 0 ==> tier_of(active, display) is Untyped,
        active.len() > 0 ==> {
            let tier = tier_of(active, display);
            let starts = text_starts(display, active);
            let holds = text_contains(display, active);
            &&& tier is Exact <==> display == active
            &&& tier is Prefix <==> starts && display != active
            &&& tier is Contains <==> holds && !starts
            &&& tier is Unrelated ==> !subsequence(active, display)
            &&& tier is Subsequence ==> subsequence(active, display) && !holds
            &&& !(tier is Untyped)
        },
{
    if display == active {
        assert(display.subrange(0, active.len() as int) =~= active);
    }
    if text_starts(display, active) {
        assert(display.subrange(0, display.len() as int) =~= display);
        assert(text_starts(display.subrange(0, display.len() as int), active));
    }
}

/// Files are completed behind a command whatever is typed, and in the place of a
/// command only where a path is typed.
pub proof fn law_files_are_completed_behind_commands(committed: usize, word: Seq<char>, at: int)
    ensures
        !completes_files(committed, None),
        committed > 0 ==> completes_files(committed, Some(word)),
        0 <= at < word.len() && word[at] == '/' ==> completes_files(committed, Some(word)),
        word.len() > 0 && (word[0] == '.' || word[0] == '~') ==> completes_files(committed, Some(word)),
        committed == 0 && word.len() == 0 ==> !completes_files(committed, Some(word)),
        committed == 0 && word.len() > 0 && word[0] != '.' && word[0] != '~' && (forall|i: int|
            0 <= i < word.len() ==> #[trigger] word[i] != '/') ==> !completes_files(committed, Some(word)),
{
}

/// Suggestions for the line behind an alias keep everything but their edit, keep
/// their order, and are left out exactly where they have no edit of what was
/// typed.
pub proof fn law_alias_suggestions_are_remapped(
    suggestions: Seq<Suggestion>,
    edits: Seq<Option<TextEdit>>,
    suggestion: Suggestion,
    edit: Option<TextEdit>,
)
    requires
        suggestions.len() == edits.len(),
    ensures
        ({
            let before = remapped(suggestions, edits);
            let after = remapped(suggestions.push(suggestion), edits.push(edit));
            &&& edit is None ==> after == before
            &&& edit is Some ==> {
                &&& after.len() == before.len() + 1
                &&& after.drop_last() == before
                &&& after.last().edit == edit->0
                &&& after.last().display == suggestion.display
                &&& after.last().description == suggestion.description
                &&& after.last().icon == suggestion.icon
                &&& after.last().source == suggestion.source
                &&& after.last().insertion == suggestion.insertion
                &&& after.last().identity == suggestion.identity
            }
        }),
{
    assert(suggestions.push(suggestion).drop_last() =~= suggestions);
    lemma_remapped_by_place(suggestions, edits, edits.push(edit));
    assert(remapped(suggestions.push(suggestion), edits.push(edit)).drop_last() =~= remapped(
        suggestions,
        edits,
    ) || edit is None);
}

proof fn lemma_remapped_by_place(
    suggestions: Seq<Suggestion>,
    edits: Seq<Option<TextEdit>>,
    more: Seq<Option<TextEdit>>,
)
    requires
        suggestions.len() <= edits.len(),
        suggestions.len() <= more.len(),
        forall|i: int| 0 <= i < suggestions.len() ==> #[trigger] edits[i] == more[i],
    ensures
        remapped(suggestions, edits) == remapped(suggestions, more),
    decreases suggestions.len(),
{
    if suggestions.len() > 0 {
        assert(edits[suggestions.len() - 1] == more[suggestions.len() - 1]);
        lemma_remapped_by_place(suggestions.drop_last(), edits, more);
    }
}

/// The text of a suggestion is counted whole: its replacement, display,
/// description, icon and identity.
pub proof fn law_all_text_of_a_suggestion_counts(suggestion: Suggestion)
    ensures
        suggestion_bytes(suggestion) >= encode_utf8(suggestion.edit.replacement@).len(),
        suggestion_bytes(suggestion) - encode_utf8(suggestion.edit.replacement@).len() - encode_utf8(
            suggestion.display@,
        ).len() - encode_utf8(suggestion.description@).len() - encode_utf8(suggestion.icon@).len()
            == encode_utf8(suggestion.identity@).len(),
{
}

/// A batch takes the ranked suggestions in their order: the next one always where
/// it still fits by itself, with the others and by their number, and otherwise
/// not.
pub proof fn law_batches_take_the_next_that_fits(
    ranked: Seq<Suggestion>,
    next: Suggestion,
    maximum: usize,
)
    ensures
        ({
            let (kept, bytes) = bounded_batch(ranked, maximum);
            let (after, more) = bounded_batch(ranked.push(next), maximum);
            let fits = (maximum == 0 || kept.len() < maximum) && suggestion_bytes(next)
                <= MAX_CANDIDATE_BYTES && bytes + suggestion_bytes(next) <= MAX_BATCH_BYTES;
            &&& bounded_batch(Seq::empty(), maximum).0.len() == 0
            &&& bounded_batch(Seq::empty(), maximum).1 == 0
            &&& fits ==> after == kept.push(next) && more == bytes + suggestion_bytes(next)
            &&& !fits ==> after == kept && more == bytes
        }),
{
    assert(ranked.push(next).drop_last() =~= ranked);
    law_batches_are_bounded(ranked, maximum);
}

/// In history mode what gives a line of history comes first, in the order of
/// history, and everything else behind it; nothing is lost.
pub proof fn law_history_lines_come_first(
    ranked: Seq<Suggestion>,
    positions: Seq<Option<usize>>,
    order: Seq<usize>,
    i: int,
    j: int,
)
    requires
        ranked.len() == positions.len(),
        stable_order(history_ranks(ranked, positions), order),
        0 <= i < j < order.len(),
    ensures
        order.len() == ranked.len(),
        order[i] != order[j],
        order[i] < ranked.len() && order[j] < ranked.len(),
        positions[order[j] as int] is Some ==> positions[order[i] as int] is Some,
        positions[order[i] as int] is Some && positions[order[j] as int] is Some
            ==> positions[order[i] as int]->0 <= positions[order[j] as int]->0,
        positions[order[i] as int] is Some && positions[order[i] as int] == positions[order[j] as int]
            ==> order[i] < order[j],
{
    let ranks = history_ranks(ranked, positions);
    law_stable_orders_follow_the_ranks(ranks, order, i, j);
    assert(ranks[order[i] as int] == history_ranks(ranked, positions)[order[i] as int]);
}

/// A batch holds no more than the settings say, nor than a batch may hold.
pub proof fn law_batches_obey_the_settings(settings: LocalSettings)
    ensures
        batch_maximum(settings) <= settings.max_suggestions,
        batch_maximum(settings) <= MAX_BATCH_CANDIDATES,
        batch_maximum(settings) == settings.max_suggestions || batch_maximum(settings)
            == MAX_BATCH_CANDIDATES,
{
}

/// A current query begins with nothing where nothing is typed in front of the
/// cursor, with its alias where a space was typed, and else with what is at hand;
/// then generators follow, and last unknown commands.
pub proof fn law_queries_ask_in_order(pending: PendingView, before: Seq<char>)
    requires
        before == text_before(pending.query.line, pending.query.cursor),
    ensures
        query_start(true, pending) is Void,
        pending.mode is Spec && (forall|i: int| 0 <= i < before.len() ==> white_space(#[trigger] before[i]))
            ==> query_start(false, pending) is Empty,
        pending.mode is History || (exists|i: int| 0 <= i < before.len() && !white_space(#[trigger] before[i]))
            ==> query_start(false, pending) == if pending.alias_expansion {
            QueryStart::Stage(QueryStage::Alias)
        } else {
            QueryStart::Stage(QueryStage::Fast)
        },
        QueryStage::Alias.following(false) is Fast,
        QueryStage::Fast.following(false) is Dynamic,
        QueryStage::Dynamic.following(false) is Cobra,
        QueryStage::Cobra.following(false) is Done,
{
}

/// A session remembers its newest commands: one more comes behind the others,
/// and of the oldest only so many go as room is needed.
pub proof fn law_history_keeps_the_newest(entries: Seq<HistoryEntry>, entry: HistoryEntry)
    requires
        entries.len() <= MAX_SESSION_HISTORY_ENTRIES,
    ensures
        ({
            let after = history_after(entries, entry);
            let bytes = encode_utf8(entry.command@).len();
            let dropped = entries.len() + 1 - after.len();
            &&& bytes > MAX_SESSION_HISTORY_BYTES ==> after == entries
            &&& bytes <= MAX_SESSION_HISTORY_BYTES ==> {
                &&& after.len() > 0
                &&& after.last() == entry
                &&& 0 <= dropped <= entries.len()
                &&& after.drop_last() == entries.subrange(dropped, entries.len() as int)
                &&& after.len() <= MAX_SESSION_HISTORY_ENTRIES
                &&& entries.len() < MAX_SESSION_HISTORY_ENTRIES && history_bytes(entries) + bytes
                    <= MAX_SESSION_HISTORY_BYTES ==> dropped == 0
                &&& dropped > 0 ==> {
                    let one_more = entries.subrange(dropped - 1, entries.len() as int);
                    one_more.len() >= MAX_SESSION_HISTORY_ENTRIES || history_bytes(one_more) + bytes
                        > MAX_SESSION_HISTORY_BYTES
                }
            }
        }),
{
    let bytes = encode_utf8(entry.command@).len() as int;
    lemma_room_is_made(entries, bytes);
    assert(history_after(entries, entry).drop_last() =~= history_with_room(entries, bytes)
        || bytes > MAX_SESSION_HISTORY_BYTES);
}

proof fn lemma_room_is_made(entries: Seq<HistoryEntry>, bytes: int)
    requires
        entries.len() <= MAX_SESSION_HISTORY_ENTRIES,
    ensures
        ({
            let kept = history_with_room(entries, bytes);
            let dropped = entries.len() - kept.len();
            &&& 0 <= dropped <= entries.len()
            &&& kept == entries.subrange(dropped, entries.len() as int)
            &&& kept.len() < MAX_SESSION_HISTORY_ENTRIES
            &&& dropped > 0 ==> {
                let one_more = entries.subrange(dropped - 1, entries.len() as int);
                one_more.len() >= MAX_SESSION_HISTORY_ENTRIES || history_bytes(one_more) + bytes
                    > MAX_SESSION_HISTORY_BYTES
            }
        }),
    decreases entries.len(),
{
    let kept = history_with_room(entries, bytes);
    if entries.len() == 0 || history_fits(entries, bytes) {
        assert(entries.subrange(0, entries.len() as int) =~= entries);
    } else {
        let later = entries.drop_first();
        lemma_room_is_made(later, bytes);
        let dropped = entries.len() - kept.len();
        assert(later.subrange(dropped - 1, later.len() as int) =~= entries.subrange(
            dropped,
            entries.len() as int,
        ));
        if dropped > 1 {
            assert(later.subrange(dropped - 2, later.len() as int) =~= entries.subrange(
                dropped - 1,
                entries.len() as int,
            ));
        } else {
            assert(entries.subrange(0, entries.len() as int) =~= entries);
        }
    }
}

/// A command is kept out of learning exactly where it begins with a space or a
/// tab.
pub proof fn law_blank_prefixes_keep_commands_private(command: Seq<char>)
    ensures
        kept_private(seq![' '] + command),
        kept_private(seq!['\t'] + command),
        command.len() > 0 && command[0] != ' ' && command[0] != '\t' ==> !kept_private(command),
        !kept_private(Seq::empty()),
{
    assert((seq![' '] + command)[0] == ' ');
    assert((seq!['\t'] + command)[0] == '\t');
}

/// Of what waits to be drained exactly what belongs to later queries stays, in
/// its order.
pub proof fn law_later_output_stays(
    batches: Seq<BatchView>,
    batch: BatchView,
    edits: Seq<(u64, TextEdit)>,
    given: u64,
    edit: TextEdit,
    generation: u64,
)
    ensures
        newer_batches(Seq::empty(), generation).len() == 0,
        batch.generation > generation ==> newer_batches(batches.push(batch), generation)
            == newer_batches(batches, generation).push(batch),
        batch.generation <= generation ==> newer_batches(batches.push(batch), generation)
            == newer_batches(batches, generation),
        newer_edits(Seq::empty(), generation).len() == 0,
        given > generation ==> newer_edits(edits.push((given, edit)), generation) == newer_edits(
            edits,
            generation,
        ).push((given, edit)),
        given <= generation ==> newer_edits(edits.push((given, edit)), generation) == newer_edits(
            edits,
            generation,
        ),
{
    assert(batches.push(batch).drop_last() =~= batches);
    assert(edits.push((given, edit)).drop_last() =~= edits);
}

} // verus!
