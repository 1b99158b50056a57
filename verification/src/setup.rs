//! Safe installation of one shell-integration block.
//!
//! Existing bytes are backed up before the first changed file is published,
//! publication is an atomic exchange, and whatever cannot be proven safe is
//! left as it was. This module holds the targets, names, bounds and decisions;
//! the caller performs each file operation and reports its outcome.

use vstd::prelude::*;
use vstd::string::*;
use vstd::utf8::*;

use crate::paths::{join, joined, law_paths_are_their_names, named_pieces};
use crate::state::{ascii, FileFacts, IoKind};
use crate::text::{
    append_bytes, append_decimal, append_number, append_size, bool_chars, bool_text, byte_strings,
    bytes_before, bytes_equal, bytes_precede, copy_bytes, decimal_chars, decimal_digits, has_prefix,
    law_pieces_lie_between_separators, lemma_bytes_order, lemma_bytes_transitive,
    lemma_decimal_digits_shape, size_debug_chars, skip_bytes, split_fields, split_on, starts_with,
};

verus! {

/// Maximum shell-configuration bytes excluding one bounded managed block.
pub const MAX_SHELL_CONFIG_BYTES: usize = 2 * 1024 * 1024;

/// Maximum bytes of the managed block.
///
/// Leaves room for one version-independent managed block on a configuration
/// whose unrelated bytes already reach the public bound.
pub const MAX_MANAGED_BLOCK_BYTES: usize = 16 * 1024;

/// Maximum bytes of a configuration file.
pub const MAX_SHELL_FILE_BYTES: usize = 2 * 1024 * 1024 + 16 * 1024;

/// Maximum bytes of the names of extended attributes.
pub const MAX_EXTENDED_ATTRIBUTE_LIST_BYTES: usize = 64 * 1024;

/// Maximum bytes of the value of one extended attribute.
pub const MAX_EXTENDED_ATTRIBUTE_VALUE_BYTES: usize = 128 * 1024;

/// Maximum bytes of all names and values of extended attributes.
pub const MAX_EXTENDED_ATTRIBUTE_TOTAL_BYTES: usize = 512 * 1024;

/// Most backups that may share one timestamp.
pub const MAX_BACKUP_COLLISIONS: u8 = 100;

/// Most names that are tried for a transaction.
pub const MAX_TRANSACTION_COLLISIONS: u8 = 100;

/// Supported shell.
#[derive(Clone, Copy, Debug, PartialEq, Eq, Structural)]
pub enum Shell {
    /// Bash.
    Bash,
    /// Zsh.
    Zsh,
    /// Fish.
    Fish,
}

impl Shell {
    /// Name of the shell.
    pub open spec fn text(self) -> Seq<char> {
        match self {
            Shell::Bash => "Bash"@,
            Shell::Zsh => "Zsh"@,
            Shell::Fish => "Fish"@,
        }
    }

    /// Name of the shell.
    pub fn name(self) -> (name: &'static str)
        ensures
            name@ == self.text(),
    {
        match self {
            Shell::Bash => "Bash",
            Shell::Zsh => "Zsh",
            Shell::Fish => "Fish",
        }
    }
}

/// Why integration markers in a configuration cannot be edited.
#[derive(Clone, Copy, Debug, PartialEq, Eq, Structural)]
pub enum ConfigEditError {
    /// Markers do not delimit a block.
    MalformedMarkers,
    /// There is more than one block.
    DuplicateBlock,
}

impl ConfigEditError {
    /// Text of [`Self::message`].
    pub open spec fn text(self) -> Seq<char> {
        match self {
            ConfigEditError::MalformedMarkers => "shell integration markers are malformed"@,
            ConfigEditError::DuplicateBlock => "shell integration block is duplicated"@,
        }
    }

    /// Human-readable description.
    pub fn message(&self) -> (message: &'static str)
        ensures
            message@ == self.text(),
    {
        match *self {
            ConfigEditError::MalformedMarkers => "shell integration markers are malformed",
            ConfigEditError::DuplicateBlock => "shell integration block is duplicated",
        }
    }
}

/// Closed setup failure without sensitive path contents.
#[derive(Clone, Copy, Debug)]
pub enum SetupError {
    /// No supplied environment value identified a supported shell.
    UnsupportedShell,
    /// A required setup path was relative.
    RelativePath,
    /// The target had no usable parent or filename.
    MissingPathComponent,
    /// A target, lock, or parent path had an unsafe type or link count.
    UnsafeFileType,
    /// Existing unrelated configuration exceeded [`MAX_SHELL_CONFIG_BYTES`].
    ConfigTooLarge,
    /// Stable integration markers were malformed or duplicated.
    MalformedConfig(ConfigEditError),
    /// Extended filesystem metadata could not be preserved safely.
    UnsupportedMetadata,
    /// No collision-free backup name remained.
    BackupNameExhausted,
    /// No collision-free transaction quarantine name remained.
    TransactionNameExhausted,
    /// The source changed after inspection and was preserved.
    SourceChanged,
    /// A filesystem operation failed.
    Io {
        /// Sanitized operation label.
        operation: &'static str,
        /// Content-free error kind.
        kind: IoKind,
    },
}

impl SetupError {
    /// Text of [`Self::message`].
    pub open spec fn text(self) -> Seq<char> {
        match self {
            SetupError::UnsupportedShell => "could not detect Bash, Zsh, or Fish; use `argmax setup <shell>`"@,
            SetupError::RelativePath => "shell configuration path is not absolute"@,
            SetupError::MissingPathComponent => "shell configuration path is incomplete"@,
            SetupError::UnsafeFileType => "shell configuration path is not a safe regular file"@,
            SetupError::ConfigTooLarge => "shell configuration exceeds setup limit"@,
            SetupError::MalformedConfig(error) => error.text(),
            SetupError::UnsupportedMetadata => "shell configuration metadata cannot be preserved safely"@,
            SetupError::BackupNameExhausted => "no unused shell configuration backup name is available"@,
            SetupError::TransactionNameExhausted => "no unused shell transaction name is available"@,
            SetupError::SourceChanged => "shell configuration changed during setup and was left untouched; retry setup"@,
            SetupError::Io { operation, kind } => operation@ + ": "@ + kind.text(),
        }
    }

    /// Human-readable description, which never shows a path.
    pub fn message(&self) -> (message: String)
        ensures
            message@ == self.text(),
    {
        match *self {
            SetupError::UnsupportedShell => {
                "could not detect Bash, Zsh, or Fish; use `argmax setup <shell>`".to_owned()
            },
            SetupError::RelativePath => "shell configuration path is not absolute".to_owned(),
            SetupError::MissingPathComponent => "shell configuration path is incomplete".to_owned(),
            SetupError::UnsafeFileType => {
                "shell configuration path is not a safe regular file".to_owned()
            },
            SetupError::ConfigTooLarge => "shell configuration exceeds setup limit".to_owned(),
            SetupError::MalformedConfig(error) => error.message().to_owned(),
            SetupError::UnsupportedMetadata => {
                "shell configuration metadata cannot be preserved safely".to_owned()
            },
            SetupError::BackupNameExhausted => {
                "no unused shell configuration backup name is available".to_owned()
            },
            SetupError::TransactionNameExhausted => {
                "no unused shell transaction name is available".to_owned()
            },
            SetupError::SourceChanged => {
                "shell configuration changed during setup and was left untouched; retry setup".to_owned()
            },
            SetupError::Io { operation, kind } => {
                let mut message = operation.to_owned();
                message.append(": ");
                message.append(kind.name());
                message
            },
        }
    }
}

/// Last name along a path, unless that leads upwards.
pub open spec fn file_name_of(path: Seq<u8>) -> Option<Seq<u8>> {
    let names = named_pieces(split_on(path, 47));
    if names.len() == 0 || names.last() == seq![46u8, 46u8] {
        None
    } else {
        Some(names.last())
    }
}

/// Shell of this name, or of an executable of this name.
pub open spec fn shell_named(value: Seq<u8>) -> Option<Shell> {
    match file_name_of(value) {
        Some(name) => if name == ascii("bash") {
            Some(Shell::Bash)
        } else if name == ascii("zsh") {
            Some(Shell::Zsh)
        } else if name == ascii("fish") {
            Some(Shell::Fish)
        } else {
            None
        },
        None => None,
    }
}

fn is_dots(name: &[u8]) -> (dots: bool)
    ensures
        dots == (name@ == seq![46u8, 46u8]),
{
    let dots: bool = name.len() == 2 && name[0] == 46 && name[1] == 46;
    proof {
        if dots {
            assert(name@ =~= seq![46u8, 46u8]);
        } else {
            assert(seq![46u8, 46u8].len() == 2 && seq![46u8, 46u8][0] == 46 && seq![46u8, 46u8][1] == 46);
        }
    }
    dots
}

fn path_names(path: &[u8]) -> (names: Vec<Vec<u8>>)
    ensures
        byte_strings(names@) == named_pieces(split_on(path@, 47)),
{
    let pieces: Vec<Vec<u8>> = split_fields(path, 47);
    let ghost all = split_on(path@, 47);
    assert(byte_strings(pieces@) =~= all);
    let mut names: Vec<Vec<u8>> = Vec::new();
    let mut i: usize = 0;
    assert(byte_strings(names@) =~= named_pieces(all.subrange(0, 0)));
    while i < pieces.len()
        invariant
            0 <= i <= pieces@.len(),
            all == byte_strings(pieces@),
            byte_strings(names@) == named_pieces(all.subrange(0, i as int)),
        decreases pieces@.len() - i,
    {
        let ghost before = names@;
        assert(all.subrange(0, i + 1).drop_last() =~= all.subrange(0, i as int));
        assert(all.subrange(0, i + 1).last() == pieces@[i as int]@);
        let piece: &[u8] = pieces[i].as_slice();
        let dot: bool = piece.len() == 1 && piece[0] == 46;
        proof {
            if dot {
                assert(piece@ =~= seq![46u8]);
            } else {
                assert(seq![46u8].len() == 1 && seq![46u8][0] == 46);
            }
        }
        if piece.len() != 0 && !dot {
            let name: Vec<u8> = copy_bytes(piece);
            names.push(name);
            assert(byte_strings(names@) =~= byte_strings(before).push(name@));
        }
        i = i + 1;
    }
    assert(all.subrange(0, i as int) =~= all);
    names
}

fn parse_shell_name(value: &[u8]) -> (shell: Option<Shell>)
    ensures
        shell == shell_named(value@),
{
    let names: Vec<Vec<u8>> = path_names(value);
    if names.len() == 0 {
        return None;
    }
    let name: &[u8] = names[names.len() - 1].as_slice();
    assert(name@ == named_pieces(split_on(value@, 47)).last());
    if is_dots(name) {
        return None;
    }
    if bytes_equal(name, "bash".as_bytes()) {
        Some(Shell::Bash)
    } else if bytes_equal(name, "zsh".as_bytes()) {
        Some(Shell::Zsh)
    } else if bytes_equal(name, "fish".as_bytes()) {
        Some(Shell::Fish)
    } else {
        None
    }
}

/// Detects one supported shell without starting or sourcing it.
///
/// The active-shell marker takes precedence over the shell of the environment.
/// Each value may be a basename or an absolute executable path.
pub fn detect_setup_shell(active_shell: Option<&[u8]>, shell_environment: Option<&[u8]>) -> (result: Result<
    Shell,
    SetupError,
>)
    ensures
        ({
            let detected = match active_shell {
                Some(active) => shell_named(active@),
                None => match shell_environment {
                    Some(named) => shell_named(named@),
                    None => None,
                },
            };
            match detected {
                Some(shell) => result matches Ok(found) && found == shell,
                None => result matches Err(error) && error is UnsupportedShell,
            }
        }),
{
    let detected: Option<Shell> = match active_shell {
        Some(active) => parse_shell_name(active),
        None => match shell_environment {
            Some(named) => parse_shell_name(named),
            None => None,
        },
    };
    match detected {
        Some(shell) => Ok(shell),
        None => Err(SetupError::UnsupportedShell),
    }
}

/// Whether a path starts at the root.
pub open spec fn rooted(path: Seq<u8>) -> bool {
    path.len() > 0 && path[0] == 47
}

fn is_rooted(path: &[u8]) -> (is: bool)
    ensures
        is == rooted(path@),
{
    path.len() > 0 && path[0] == 47
}

/// Optional path as a value.
pub open spec fn optional_bytes(path: Option<&[u8]>) -> Option<Seq<u8>> {
    match path {
        Some(path) => Some(path@),
        None => None,
    }
}

/// Configuration file of a shell, by the environment. An empty `ZDOTDIR` means
/// the root directory, as the shell takes it.
pub open spec fn config_path(
    shell: Shell,
    home: Seq<u8>,
    zdotdir: Option<Seq<u8>>,
    xdg_config_home: Option<Seq<u8>>,
) -> Seq<u8> {
    match shell {
        Shell::Bash => joined(home, ascii(".bashrc")),
        Shell::Zsh => match zdotdir {
            Some(directory) => if directory.len() == 0 {
                ascii("/.zshrc")
            } else {
                joined(directory, ascii(".zshrc"))
            },
            None => joined(home, ascii(".zshrc")),
        },
        Shell::Fish => match xdg_config_home {
            Some(directory) => if rooted(directory) {
                joined(directory, ascii("fish/config.fish"))
            } else {
                joined(home, ascii(".config/fish/config.fish"))
            },
            None => joined(home, ascii(".config/fish/config.fish")),
        },
    }
}

fn suggest_config_target(
    shell: Shell,
    home: &[u8],
    zdotdir: Option<&[u8]>,
    xdg_config_home: Option<&[u8]>,
) -> (path: Vec<u8>)
    ensures
        path@ == config_path(
            shell,
            home@,
            optional_bytes(zdotdir),
            optional_bytes(xdg_config_home),
        ),
{
    match shell {
        Shell::Bash => join(home, ".bashrc".as_bytes()),
        Shell::Zsh => match zdotdir {
            Some(directory) => if directory.len() == 0 {
                copy_bytes("/.zshrc".as_bytes())
            } else {
                join(directory, ".zshrc".as_bytes())
            },
            None => join(home, ".zshrc".as_bytes()),
        },
        Shell::Fish => match xdg_config_home {
            Some(directory) => if is_rooted(directory) {
                join(directory, "fish/config.fish".as_bytes())
            } else {
                join(home, ".config/fish/config.fish".as_bytes())
            },
            None => join(home, ".config/fish/config.fish".as_bytes()),
        },
    }
}

/// Whether the home directory decides where the configuration file is.
pub open spec fn needs_home(
    shell: Shell,
    zdotdir: Option<Seq<u8>>,
    xdg_config_home: Option<Seq<u8>>,
) -> bool {
    match shell {
        Shell::Bash => true,
        Shell::Zsh => zdotdir is None,
        Shell::Fish => !(xdg_config_home matches Some(directory) && rooted(directory)),
    }
}

/// Path to set up, by the environment: none where a needed directory is not
/// absolute.
pub open spec fn target_path(
    shell: Shell,
    home: Seq<u8>,
    zdotdir: Option<Seq<u8>>,
    xdg_config_home: Option<Seq<u8>>,
    current_directory: Option<Seq<u8>>,
) -> Option<Seq<u8>> {
    let suggested = config_path(shell, home, zdotdir, xdg_config_home);
    if needs_home(shell, zdotdir, xdg_config_home) && !rooted(home) {
        None
    } else if rooted(suggested) {
        Some(suggested)
    } else {
        match current_directory {
            Some(directory) => if rooted(directory) {
                Some(joined(directory, suggested))
            } else {
                None
            },
            None => None,
        }
    }
}

/// Validated shell and configuration path for setup.
pub struct SetupTarget {
    shell: Shell,
    path: Vec<u8>,
}

impl View for SetupTarget {
    type V = (Shell, Seq<u8>);

    closed spec fn view(&self) -> (Shell, Seq<u8>) {
        (self.shell, self.path@)
    }
}

impl SetupTarget {
    #[verifier::type_invariant]
    spec fn wf(self) -> bool {
        rooted(self.path@)
    }

    /// Resolves the documented Bash, Zsh, or Fish configuration path.
    /// `current_directory` is needed only for a relative `ZDOTDIR`. Overrides
    /// belonging to another shell are ignored.
    pub fn from_environment(
        shell: Shell,
        home: &[u8],
        zdotdir: Option<&[u8]>,
        xdg_config_home: Option<&[u8]>,
        current_directory: Option<&[u8]>,
    ) -> (result: Result<Self, SetupError>)
        ensures
            match target_path(
                shell,
                home@,
                optional_bytes(zdotdir),
                optional_bytes(xdg_config_home),
                optional_bytes(current_directory),
            ) {
                Some(path) => result matches Ok(target) && target@ == (shell, path),
                None => result matches Err(error) && error is RelativePath,
            },
    {
        let home_decides: bool = match shell {
            Shell::Bash => true,
            Shell::Zsh => zdotdir.is_none(),
            Shell::Fish => match xdg_config_home {
                Some(directory) => !is_rooted(directory),
                None => true,
            },
        };
        if home_decides && !is_rooted(home) {
            return Err(SetupError::RelativePath);
        }
        let suggested: Vec<u8> = suggest_config_target(shell, home, zdotdir, xdg_config_home);
        if is_rooted(suggested.as_slice()) {
            return Ok(SetupTarget { shell, path: suggested });
        }
        match current_directory {
            None => Err(SetupError::RelativePath),
            Some(directory) => {
                if !is_rooted(directory) {
                    return Err(SetupError::RelativePath);
                }
                let path: Vec<u8> = join(directory, suggested.as_slice());
                assert(path@[0] == directory@[0]);
                Ok(SetupTarget { shell, path })
            },
        }
    }

    /// Builds an explicit target; its path must be absolute.
    pub fn new(shell: Shell, path: Vec<u8>) -> (result: Result<Self, SetupError>)
        ensures
            if rooted(path@) {
                result matches Ok(target) && target@ == (shell, path@)
            } else {
                result matches Err(error) && error is RelativePath
            },
    {
        if !is_rooted(path.as_slice()) {
            return Err(SetupError::RelativePath);
        }
        Ok(SetupTarget { shell, path })
    }

    /// Selected shell.
    pub fn shell(&self) -> (shell: Shell)
        ensures
            shell == self@.0,
    {
        self.shell
    }

    /// Exact configuration path to inspect or modify; it is absolute.
    pub fn path(&self) -> (path: &[u8])
        ensures
            path@ == self@.1,
            rooted(path@),
    {
        proof {
            use_type_invariant(self);
        }
        self.path.as_slice()
    }

    /// Diagnostic summary, which shows the size of the path.
    pub fn debug_text(&self) -> (summary: String)
        ensures
            summary@ == "SetupTarget { shell: "@ + self@.0.text() + ", path_bytes: "@ + decimal_chars(
                self@.1.len(),
            ) + " }"@,
    {
        let mut summary = "SetupTarget { shell: ".to_owned();
        summary.append(self.shell.name());
        summary.append(", path_bytes: ");
        append_number(&mut summary, self.path.len() as u128);
        summary.append(" }");
        summary
    }
}

/// Setup outcome as a value.
#[verifier::ext_equal]
pub struct OutcomeView {
    pub path: Seq<u8>,
    pub backup: Option<Seq<u8>>,
    pub changed: bool,
}

/// Result of one idempotent setup attempt.
pub struct SetupOutcome {
    path: Vec<u8>,
    backup: Option<Vec<u8>>,
    changed: bool,
}

impl View for SetupOutcome {
    type V = OutcomeView;

    closed spec fn view(&self) -> OutcomeView {
        OutcomeView {
            path: self.path@,
            backup: match self.backup {
                Some(backup) => Some(backup@),
                None => None,
            },
            changed: self.changed,
        }
    }
}

/// Size of an optional path.
pub open spec fn optional_size(path: Option<Seq<u8>>) -> Option<usize> {
    match path {
        Some(path) => Some(path.len() as usize),
        None => None,
    }
}

impl SetupOutcome {
    /// Nothing was published.
    pub fn unchanged(path: Vec<u8>) -> (outcome: Self)
        ensures
            outcome@ == (OutcomeView { path: path@, backup: None, changed: false }),
    {
        SetupOutcome { path, backup: None, changed: false }
    }

    /// New bytes were published.
    pub fn installed(path: Vec<u8>, backup: Option<Vec<u8>>) -> (outcome: Self)
        ensures
            outcome@.path == path@,
            outcome@.changed,
            match backup {
                Some(backup) => outcome@.backup == Some(backup@),
                None => outcome@.backup is None,
            },
    {
        SetupOutcome { path, backup, changed: true }
    }

    /// Configuration path inspected or modified.
    pub fn path(&self) -> (path: &[u8])
        ensures
            path@ == self@.path,
    {
        self.path.as_slice()
    }

    /// Durable pre-modification backup, when an existing file changed.
    pub fn backup(&self) -> (backup: Option<&[u8]>)
        ensures
            optional_bytes(backup) == self@.backup,
    {
        match &self.backup {
            Some(backup) => Some(backup.as_slice()),
            None => None,
        }
    }

    /// Whether setup published new bytes.
    pub fn changed(&self) -> (changed: bool)
        ensures
            changed == self@.changed,
    {
        self.changed
    }

    /// Diagnostic summary, which shows the sizes of paths.
    pub fn debug_text(&self) -> (summary: String)
        ensures
            summary@ == "SetupOutcome { path_bytes: "@ + decimal_chars(self@.path.len())
                + ", backup_path_bytes: "@ + size_debug_chars(optional_size(self@.backup))
                + ", changed: "@ + bool_chars(self@.changed) + " }"@,
    {
        let mut summary = "SetupOutcome { path_bytes: ".to_owned();
        append_number(&mut summary, self.path.len() as u128);
        summary.append(", backup_path_bytes: ");
        let size: Option<usize> = match &self.backup {
            Some(backup) => Some(backup.len()),
            None => None,
        };
        append_size(&mut summary, size);
        summary.append(", changed: ");
        summary.append(bool_text(self.changed));
        summary.append(" }");
        summary
    }
}

/// Names of the directories along an absolute path.
pub open spec fn directory_chain(path: Seq<u8>) -> Seq<Seq<u8>> {
    named_pieces(split_on(path, 47))
}

/// Whether a name leads upwards.
pub open spec fn leads_up(names: Seq<Seq<u8>>) -> bool {
    exists|i: int| 0 <= i < names.len() && #[trigger] names[i] == seq![46u8, 46u8]
}

/// Names of the directories to open one below the other: none of them may lead
/// upwards.
pub fn directory_components(path: &[u8]) -> (result: Result<Vec<Vec<u8>>, SetupError>)
    ensures
        match result {
            Ok(names) => rooted(path@) && !leads_up(directory_chain(path@)) && byte_strings(names@)
                == directory_chain(path@),
            Err(error) => if !rooted(path@) {
                error is RelativePath
            } else {
                leads_up(directory_chain(path@)) && error is UnsafeFileType
            },
        },
{
    if !is_rooted(path) {
        return Err(SetupError::RelativePath);
    }
    let names: Vec<Vec<u8>> = path_names(path);
    let ghost chain = directory_chain(path@);
    let mut i: usize = 0;
    while i < names.len()
        invariant
            0 <= i <= names@.len(),
            rooted(path@),
            chain == directory_chain(path@),
            byte_strings(names@) == chain,
            forall|j: int| 0 <= j < i ==> #[trigger] chain[j] != seq![46u8, 46u8],
        decreases names@.len() - i,
    {
        assert(chain[i as int] == names@[i as int]@);
        if is_dots(names[i].as_slice()) {
            return Err(SetupError::UnsafeFileType);
        }
        i = i + 1;
    }
    Ok(names)
}

/// A path from its first name on: without separators and single dots before it.
pub open spec fn from_first_name(path: Seq<u8>) -> Seq<u8>
    decreases path.len(),
{
    if path.len() > 0 && path[0] == 47 {
        from_first_name(skip_bytes(path, 1))
    } else if path.len() > 0 && path[0] == 46 && (path.len() == 1 || path[1] == 47) {
        from_first_name(skip_bytes(path, 1))
    } else {
        path
    }
}

/// A path up to its last name: without separators and single dots behind it.
pub open spec fn to_last_name(path: Seq<u8>) -> Seq<u8>
    decreases path.len(),
{
    if path.len() > 0 && path.last() == 47 {
        to_last_name(path.drop_last())
    } else if path.len() > 1 && path.last() == 46 && path[path.len() - 2] == 47 {
        to_last_name(path.drop_last())
    } else {
        path
    }
}

/// What a path names below a directory of the root, where it leads there.
pub open spec fn below_root_directory(path: Seq<u8>, directory: Seq<u8>) -> Option<Seq<u8>> {
    let named = from_first_name(path);
    let rest = skip_bytes(named, directory.len() as int);
    if rooted(path) && has_prefix(named, directory) && (rest.len() == 0 || rest[0] == 47) {
        Some(to_last_name(from_first_name(rest)))
    } else {
        None
    }
}

/// Where a path leads on macOS, which links three directories of the root to
/// those of the same name below `/private`.
pub open spec fn macos_anchor(path: Seq<u8>) -> Seq<u8> {
    match below_root_directory(path, ascii("tmp")) {
        Some(rest) => joined(ascii("/private/tmp"), rest),
        None => match below_root_directory(path, ascii("var")) {
            Some(rest) => joined(ascii("/private/var"), rest),
            None => match below_root_directory(path, ascii("etc")) {
                Some(rest) => joined(ascii("/private/etc"), rest),
                None => path,
            },
        },
    }
}

fn first_name_start(path: &[u8], from: usize) -> (start: usize)
    requires
        from <= path@.len(),
    ensures
        from <= start <= path@.len(),
        skip_bytes(path@, start as int) == from_first_name(skip_bytes(path@, from as int)),
{
    let mut start: usize = from;
    while start < path.len() && (path[start] == 47 || (path[start] == 46 && (start + 1 == path.len()
        || path[start + 1] == 47)))
        invariant
            from <= start <= path@.len(),
            from_first_name(skip_bytes(path@, start as int)) == from_first_name(
                skip_bytes(path@, from as int),
            ),
        decreases path@.len() - start,
    {
        assert(skip_bytes(skip_bytes(path@, start as int), 1) =~= skip_bytes(path@, start + 1));
        start = start + 1;
    }
    start
}

fn last_name_end(path: &[u8]) -> (end: usize)
    ensures
        end <= path@.len(),
        path@.subrange(0, end as int) == to_last_name(path@),
{
    let mut end: usize = path.len();
    assert(path@.subrange(0, end as int) =~= path@);
    while end > 0 && (path[end - 1] == 47 || (end > 1 && path[end - 1] == 46 && path[end - 2] == 47))
        invariant
            end <= path@.len(),
            to_last_name(path@.subrange(0, end as int)) == to_last_name(path@),
        decreases end,
    {
        assert(path@.subrange(0, end as int).drop_last() =~= path@.subrange(0, end - 1));
        end = end - 1;
    }
    end
}

fn path_below(path: &[u8], directory: &[u8]) -> (rest: Option<Vec<u8>>)
    ensures
        match rest {
            Some(rest) => below_root_directory(path@, directory@) == Some(rest@),
            None => below_root_directory(path@, directory@) is None,
        },
{
    let start: usize = first_name_start(path, 0);
    assert(skip_bytes(path@, 0) =~= path@);
    let named: &[u8] = vstd::slice::slice_subrange(path, start, path.len());
    assert(named@ == from_first_name(path@));
    if !is_rooted(path) || !starts_with(named, directory) || (named.len() > directory.len()
        && named[directory.len()] != 47) {
        return None;
    }
    let rest: &[u8] = vstd::slice::slice_subrange(named, directory.len(), named.len());
    assert(rest@ == skip_bytes(named@, directory@.len() as int));
    let below: &[u8] = vstd::slice::slice_subrange(rest, first_name_start(rest, 0), rest.len());
    assert(skip_bytes(rest@, 0) =~= rest@);
    assert(below@ == from_first_name(rest@));
    let kept: &[u8] = vstd::slice::slice_subrange(below, 0, last_name_end(below));
    Some(copy_bytes(kept))
}

/// Path through which a directory is opened without following a link: on macOS
/// the links that the system itself puts into the root are resolved beforehand.
pub fn platform_anchor_path(path: &[u8], macos: bool) -> (anchored: Vec<u8>)
    ensures
        !macos ==> anchored@ == path@,
        macos ==> anchored@ == macos_anchor(path@),
{
    if macos {
        if let Some(rest) = path_below(path, "tmp".as_bytes()) {
            return join("/private/tmp".as_bytes(), rest.as_slice());
        }
        if let Some(rest) = path_below(path, "var".as_bytes()) {
            return join("/private/var".as_bytes(), rest.as_slice());
        }
        if let Some(rest) = path_below(path, "etc".as_bytes()) {
            return join("/private/etc".as_bytes(), rest.as_slice());
        }
    }
    copy_bytes(path)
}

/// Name of the lock beside a configuration file.
pub fn setup_lock_name(file_name: &[u8]) -> (name: Vec<u8>)
    ensures
        name@ == seq![46u8] + file_name@ + ascii(".argmax-setup.lock"),
{
    let mut name: Vec<u8> = Vec::new();
    name.push(46);
    append_bytes(&mut name, file_name);
    append_bytes(&mut name, ".argmax-setup.lock".as_bytes());
    assert(name@ =~= seq![46u8] + file_name@ + ascii(".argmax-setup.lock"));
    name
}

/// Name of a backup beside a configuration file; later ones of one timestamp
/// are numbered.
pub open spec fn setup_backup_file_name(file_name: Seq<u8>, timestamp: u64, collision: u8) -> Seq<u8> {
    let first = file_name + ascii(".argmax-backup.") + decimal_digits(timestamp as nat);
    if collision == 0 {
        first
    } else {
        first.push(46) + decimal_digits(collision as nat)
    }
}

/// Name of a backup beside a configuration file.
pub fn setup_backup_name(file_name: &[u8], timestamp: u64, collision: u8) -> (name: Vec<u8>)
    ensures
        name@ == setup_backup_file_name(file_name@, timestamp, collision),
{
    let mut name: Vec<u8> = copy_bytes(file_name);
    append_bytes(&mut name, ".argmax-backup.".as_bytes());
    append_decimal(&mut name, timestamp);
    if collision != 0 {
        name.push(46);
        append_decimal(&mut name, collision as u64);
    }
    name
}

/// Name under which a transaction or what it displaced is kept.
pub fn transaction_name(process: u32, sequence: u64) -> (name: Vec<u8>)
    ensures
        name@ == ascii(".argmax-setup-quarantine.") + decimal_digits(process as nat) + seq![46u8]
            + decimal_digits(sequence as nat),
{
    let mut name: Vec<u8> = copy_bytes(".argmax-setup-quarantine.".as_bytes());
    append_decimal(&mut name, process as u64);
    name.push(46);
    append_decimal(&mut name, sequence);
    assert(name@ =~= ascii(".argmax-setup-quarantine.") + decimal_digits(process as nat) + seq![46u8]
        + decimal_digits(sequence as nat));
    name
}

/// What to do after a new name was tried.
#[derive(Clone, Copy, Debug)]
pub enum NameStep {
    /// The name could be used.
    Done,
    /// The name is taken: try the one with this number.
    Retry(u8),
    /// Give up.
    Fail(SetupError),
}

/// What to do after a new name was tried: a taken one leads to the next, up to
/// some number, any other failure to an error.
pub open spec fn name_step(
    attempt: u8,
    most: u8,
    result: Result<(), IoKind>,
    exhausted: SetupError,
    failure: SetupError,
) -> NameStep {
    match result {
        Ok(()) => NameStep::Done,
        Err(IoKind::AlreadyExists) => if attempt + 1 < most {
            NameStep::Retry((attempt + 1) as u8)
        } else {
            NameStep::Fail(exhausted)
        },
        Err(_) => NameStep::Fail(failure),
    }
}

fn next_name(
    attempt: u8,
    most: u8,
    result: Result<(), IoKind>,
    exhausted: SetupError,
    failure: SetupError,
) -> (step: NameStep)
    requires
        most > 0,
    ensures
        step == name_step(attempt, most, result, exhausted, failure),
{
    match result {
        Ok(()) => NameStep::Done,
        Err(IoKind::AlreadyExists) => if attempt < most - 1 {
            NameStep::Retry(attempt + 1)
        } else {
            NameStep::Fail(exhausted)
        },
        Err(_) => NameStep::Fail(failure),
    }
}

/// What to do after an attempt to create a backup.
pub fn after_backup_attempt(collision: u8, created: Result<(), IoKind>) -> (step: NameStep)
    ensures
        step == name_step(
            collision,
            MAX_BACKUP_COLLISIONS,
            created,
            SetupError::BackupNameExhausted,
            SetupError::Io {
                operation: "create shell configuration backup",
                kind: if created is Err {
                    created->Err_0
                } else {
                    IoKind::Other
                },
            },
        ),
{
    let kind: IoKind = match created {
        Err(kind) => kind,
        Ok(()) => IoKind::Other,
    };
    next_name(
        collision,
        MAX_BACKUP_COLLISIONS,
        created,
        SetupError::BackupNameExhausted,
        SetupError::Io { operation: "create shell configuration backup", kind },
    )
}

/// What to do after an attempt to create a transaction file.
pub fn after_transaction_attempt(attempt: u8, created: Result<(), IoKind>) -> (step: NameStep)
    ensures
        step == name_step(
            attempt,
            MAX_TRANSACTION_COLLISIONS,
            created,
            SetupError::TransactionNameExhausted,
            SetupError::Io {
                operation: "create shell configuration transaction",
                kind: if created is Err {
                    created->Err_0
                } else {
                    IoKind::Other
                },
            },
        ),
{
    let kind: IoKind = match created {
        Err(kind) => kind,
        Ok(()) => IoKind::Other,
    };
    next_name(
        attempt,
        MAX_TRANSACTION_COLLISIONS,
        created,
        SetupError::TransactionNameExhausted,
        SetupError::Io { operation: "create shell configuration transaction", kind },
    )
}

/// What to do after an attempt to move a published file out of the way. Where
/// there is none any more, somebody else has changed it.
pub fn after_quarantine_attempt(attempt: u8, moved: Result<(), IoKind>) -> (step: NameStep)
    ensures
        step == name_step(
            attempt,
            MAX_TRANSACTION_COLLISIONS,
            moved,
            SetupError::TransactionNameExhausted,
            match moved {
                Err(IoKind::NotFound) => SetupError::SourceChanged,
                Err(kind) => SetupError::Io {
                    operation: "quarantine published shell configuration",
                    kind,
                },
                Ok(()) => SetupError::SourceChanged,
            },
        ),
{
    let failure: SetupError = match moved {
        Err(IoKind::NotFound) => SetupError::SourceChanged,
        Err(kind) => SetupError::Io { operation: "quarantine published shell configuration", kind },
        Ok(()) => SetupError::SourceChanged,
    };
    next_name(
        attempt,
        MAX_TRANSACTION_COLLISIONS,
        moved,
        SetupError::TransactionNameExhausted,
        failure,
    )
}

/// Checks the type of a configuration file that was opened: a regular one with
/// one name.
pub fn validate_source_type(facts: &FileFacts) -> (result: Result<(), SetupError>)
    ensures
        match result {
            Ok(()) => facts.regular && facts.links == 1,
            Err(error) => !(facts.regular && facts.links == 1) && error is UnsafeFileType,
        },
{
    if !facts.regular || facts.links != 1 {
        Err(SetupError::UnsafeFileType)
    } else {
        Ok(())
    }
}

/// Checks the size of a configuration file that was read.
pub fn validate_source_size(bytes: usize) -> (result: Result<(), SetupError>)
    ensures
        match result {
            Ok(()) => bytes <= MAX_SHELL_FILE_BYTES,
            Err(error) => bytes > MAX_SHELL_FILE_BYTES && error is ConfigTooLarge,
        },
{
    if bytes > MAX_SHELL_FILE_BYTES {
        Err(SetupError::ConfigTooLarge)
    } else {
        Ok(())
    }
}

/// Whether a name stands for an open file; `named` is none where it stands for
/// nothing or for a link.
pub open spec fn names_file(anchored: FileFacts, named: Option<FileFacts>) -> bool {
    named matches Some(found) && found.regular && !found.symlink && found.same_file(anchored)
}

/// Whether a name stands for an open file.
pub fn file_identity_matches(anchored: &FileFacts, named: Option<FileFacts>) -> (matches: bool)
    ensures
        matches == names_file(*anchored, named),
{
    match named {
        Some(found) => found.regular && !found.symlink && found.is_same_file(anchored),
        None => false,
    }
}

/// Whether a name is the only one that stands for an open regular file.
pub fn file_is_exclusively_named(anchored: &FileFacts, named: Option<FileFacts>) -> (exclusive: bool)
    ensures
        exclusive == (names_file(*anchored, named) && anchored.regular && anchored.links == 1),
{
    file_identity_matches(anchored, named) && anchored.regular && anchored.links == 1
}

/// Whether a name stands for a regular file that has no other name.
pub fn is_exclusive_regular(named: Option<FileFacts>) -> (exclusive: bool)
    ensures
        exclusive == (named matches Some(found) && found.regular && !found.symlink && found.links == 1),
{
    match named {
        Some(found) => found.regular && !found.symlink && found.links == 1,
        None => false,
    }
}

/// Whether a name stands for something that may be exchanged: anything but a
/// directory.
pub fn is_exchangeable(named: Option<FileFacts>) -> (exchangeable: bool)
    ensures
        exchangeable == (named matches Some(found) && !found.directory),
{
    match named {
        Some(found) => !found.directory,
        None => false,
    }
}

/// Checks that the directory's path still leads to the open directory: `reopened`
/// holds the facts of the open directory and of the one that the path leads to.
/// An unsafe or unreadable path means that somebody has changed it.
pub fn validate_parent(reopened: Result<(FileFacts, FileFacts), SetupError>) -> (result: Result<
    (),
    SetupError,
>)
    ensures
        match reopened {
            Ok((opened, again)) => {
                let same = opened.directory && again.directory && opened.same_file(again);
                match result {
                    Ok(()) => same,
                    Err(error) => !same && error is SourceChanged,
                }
            },
            Err(SetupError::UnsafeFileType) => result matches Err(error) && error is SourceChanged,
            Err(SetupError::Io { .. }) => result matches Err(error) && error is SourceChanged,
            Err(failure) => result matches Err(error) && error == failure,
        },
{
    match reopened {
        Ok((opened, again)) => {
            if opened.directory && again.directory && opened.is_same_file(&again) {
                Ok(())
            } else {
                Err(SetupError::SourceChanged)
            }
        },
        Err(SetupError::UnsafeFileType) => Err(SetupError::SourceChanged),
        Err(SetupError::Io { .. }) => Err(SetupError::SourceChanged),
        Err(error) => Err(error),
    }
}

/// Names in a list of extended attributes: each ends in a zero byte and none is
/// empty.
pub open spec fn attribute_list(list: Seq<u8>) -> Option<Seq<Seq<u8>>> {
    if list.len() > MAX_EXTENDED_ATTRIBUTE_LIST_BYTES {
        None
    } else if list.len() == 0 {
        Some(Seq::empty())
    } else if list.last() != 0 || has_empty(split_on(list.drop_last(), 0)) {
        None
    } else {
        Some(split_on(list.drop_last(), 0))
    }
}

/// Whether one of some byte strings is empty.
pub open spec fn has_empty(parts: Seq<Seq<u8>>) -> bool {
    exists|i: int| 0 <= i < parts.len() && (#[trigger] parts[i]).len() == 0
}

/// Names in a list of extended attributes.
pub fn attribute_names(list: &[u8]) -> (result: Result<Vec<Vec<u8>>, SetupError>)
    ensures
        match result {
            Ok(names) => attribute_list(list@) == Some(byte_strings(names@)),
            Err(error) => attribute_list(list@) is None && error is UnsupportedMetadata,
        },
{
    if list.len() > MAX_EXTENDED_ATTRIBUTE_LIST_BYTES {
        return Err(SetupError::UnsupportedMetadata);
    }
    if list.len() == 0 {
        let none: Vec<Vec<u8>> = Vec::new();
        assert(byte_strings(none@) =~= Seq::<Seq<u8>>::empty());
        return Ok(none);
    }
    if list[list.len() - 1] != 0 {
        return Err(SetupError::UnsupportedMetadata);
    }
    let front: &[u8] = vstd::slice::slice_subrange(list, 0, list.len() - 1);
    assert(front@ =~= list@.drop_last());
    let names: Vec<Vec<u8>> = split_fields(front, 0);
    let ghost parts = split_on(list@.drop_last(), 0);
    assert(byte_strings(names@) =~= parts);
    let mut i: usize = 0;
    while i < names.len()
        invariant
            0 <= i <= names@.len(),
            0 < list@.len() <= MAX_EXTENDED_ATTRIBUTE_LIST_BYTES,
            parts == split_on(list@.drop_last(), 0),
            byte_strings(names@) == parts,
            forall|j: int| 0 <= j < i ==> (#[trigger] parts[j]).len() > 0,
        decreases names@.len() - i,
    {
        assert(parts[i as int] == names@[i as int]@);
        if names[i].len() == 0 {
            assert(has_empty(parts));
            return Err(SetupError::UnsupportedMetadata);
        }
        i = i + 1;
    }
    Ok(names)
}

/// Bytes of names and values with one more value, unless that is too large by
/// itself or with the others.
pub fn add_attribute_bytes(total: usize, value: usize) -> (result: Result<usize, SetupError>)
    ensures
        match result {
            Ok(sum) => value <= MAX_EXTENDED_ATTRIBUTE_VALUE_BYTES && sum == total + value && sum
                <= MAX_EXTENDED_ATTRIBUTE_TOTAL_BYTES,
            Err(error) => (value > MAX_EXTENDED_ATTRIBUTE_VALUE_BYTES || total + value
                > MAX_EXTENDED_ATTRIBUTE_TOTAL_BYTES) && error is UnsupportedMetadata,
        },
{
    if value > MAX_EXTENDED_ATTRIBUTE_VALUE_BYTES {
        return Err(SetupError::UnsupportedMetadata);
    }
    match total.checked_add(value) {
        None => Err(SetupError::UnsupportedMetadata),
        Some(sum) => if sum > MAX_EXTENDED_ATTRIBUTE_TOTAL_BYTES {
            Err(SetupError::UnsupportedMetadata)
        } else {
            Ok(sum)
        },
    }
}

/// An extended attribute.
pub struct ExtendedAttribute {
    /// Its name.
    pub name: Vec<u8>,
    /// Its value.
    pub value: Vec<u8>,
}

impl View for ExtendedAttribute {
    type V = (Seq<u8>, Seq<u8>);

    open spec fn view(&self) -> (Seq<u8>, Seq<u8>) {
        (self.name@, self.value@)
    }
}

/// Extended attributes as values.
pub open spec fn attribute_views(attributes: Seq<ExtendedAttribute>) -> Seq<(Seq<u8>, Seq<u8>)> {
    Seq::new(attributes.len(), |i: int| attributes[i]@)
}

/// Attributes with one more, put behind those whose names do not come later.
pub open spec fn with_attribute(
    sorted: Seq<(Seq<u8>, Seq<u8>)>,
    attribute: (Seq<u8>, Seq<u8>),
) -> Seq<(Seq<u8>, Seq<u8>)>
    decreases sorted.len(),
{
    if sorted.len() == 0 {
        seq![attribute]
    } else if bytes_before(attribute.0, sorted.last().0) {
        with_attribute(sorted.drop_last(), attribute).push(sorted.last())
    } else {
        sorted.push(attribute)
    }
}

/// Attributes in the order of their names.
pub open spec fn by_name(attributes: Seq<(Seq<u8>, Seq<u8>)>) -> Seq<(Seq<u8>, Seq<u8>)>
    decreases attributes.len(),
{
    if attributes.len() == 0 {
        Seq::empty()
    } else {
        with_attribute(by_name(attributes.drop_last()), attributes.last())
    }
}

proof fn lemma_with_attribute_at(
    sorted: Seq<(Seq<u8>, Seq<u8>)>,
    attribute: (Seq<u8>, Seq<u8>),
    at: int,
)
    requires
        0 <= at <= sorted.len(),
        forall|i: int| at <= i < sorted.len() ==> bytes_before(attribute.0, (#[trigger] sorted[i]).0),
        at > 0 ==> !bytes_before(attribute.0, sorted[at - 1].0),
    ensures
        with_attribute(sorted, attribute) == sorted.insert(at, attribute),
    decreases sorted.len(),
{
    if at == sorted.len() {
        if sorted.len() == 0 {
            assert(sorted.insert(0, attribute) =~= seq![attribute]);
        } else {
            assert(sorted.insert(at, attribute) =~= sorted.push(attribute));
        }
    } else {
        let front = sorted.drop_last();
        assert(bytes_before(attribute.0, sorted[sorted.len() - 1].0));
        lemma_with_attribute_at(front, attribute, at);
        assert(front.insert(at, attribute).push(sorted.last()) =~= sorted.insert(at, attribute));
    }
}

/// Sorts extended attributes by their names.
pub fn sort_attributes(attributes: Vec<ExtendedAttribute>) -> (sorted: Vec<ExtendedAttribute>)
    ensures
        attribute_views(sorted@) == by_name(attribute_views(attributes@)),
{
    let ghost all = attribute_views(attributes@);
    let mut rest: Vec<ExtendedAttribute> = attributes;
    let mut sorted: Vec<ExtendedAttribute> = Vec::new();
    let count: usize = rest.len();
    let mut i: usize = 0;
    assert(attribute_views(sorted@) =~= by_name(all.subrange(0, 0)));
    assert(attribute_views(rest@) =~= all.subrange(0, all.len() as int));
    while i < count
        invariant
            0 <= i <= count,
            count == all.len(),
            attribute_views(rest@) == all.subrange(i as int, all.len() as int),
            attribute_views(sorted@) == by_name(all.subrange(0, i as int)),
        decreases count - i,
    {
        let ghost before = rest@;
        assert(attribute_views(rest@).len() == count - i);
        let attribute = rest.remove(0);
        proof {
            assert(attribute@ == attribute_views(before)[0]);
            assert(attribute_views(rest@) =~= attribute_views(before).drop_first());
            assert(attribute_views(before).drop_first() =~= all.subrange(i + 1, all.len() as int));
            assert(all.subrange(0, i + 1).drop_last() =~= all.subrange(0, i as int));
            assert(all.subrange(0, i + 1).last() == attribute@);
        }
        insert_attribute(&mut sorted, attribute);
        i = i + 1;
    }
    assert(all.subrange(0, i as int) =~= all);
    sorted
}

fn insert_attribute(sorted: &mut Vec<ExtendedAttribute>, attribute: ExtendedAttribute)
    ensures
        attribute_views(final(sorted)@) == with_attribute(attribute_views(old(sorted)@), attribute@),
{
    let ghost before = sorted@;
    let ghost views = attribute_views(before);
    let mut at: usize = sorted.len();
    while at > 0 && bytes_precede(attribute.name.as_slice(), sorted[at - 1].name.as_slice())
        invariant
            0 <= at <= sorted@.len(),
            sorted@ == before,
            views == attribute_views(before),
            forall|i: int| at <= i < views.len() ==> bytes_before(attribute@.0, (#[trigger] views[i]).0),
        decreases at,
    {
        assert(views[at - 1] == before[at - 1]@);
        at = at - 1;
    }
    proof {
        if at > 0 {
            assert(views[at - 1] == before[at - 1]@);
        }
        lemma_with_attribute_at(views, attribute@, at as int);
    }
    sorted.insert(at, attribute);
    assert(attribute_views(sorted@) =~= views.insert(at as int, attribute@));
}

/// Whether an attribute of this name is among some.
pub open spec fn named_among(attributes: Seq<(Seq<u8>, Seq<u8>)>, name: Seq<u8>) -> bool {
    exists|i: int| 0 <= i < attributes.len() && (#[trigger] attributes[i]).0 == name
}

/// Names of existing attributes that are not wanted.
pub open spec fn unwanted_names(
    existing: Seq<(Seq<u8>, Seq<u8>)>,
    wanted: Seq<(Seq<u8>, Seq<u8>)>,
) -> Seq<Seq<u8>>
    decreases existing.len(),
{
    if existing.len() == 0 {
        Seq::empty()
    } else {
        let rest = unwanted_names(existing.drop_last(), wanted);
        if named_among(wanted, existing.last().0) {
            rest
        } else {
            rest.push(existing.last().0)
        }
    }
}

fn is_named_among(attributes: &Vec<ExtendedAttribute>, name: &[u8]) -> (among: bool)
    ensures
        among == named_among(attribute_views(attributes@), name@),
{
    let ghost views = attribute_views(attributes@);
    let mut i: usize = 0;
    while i < attributes.len()
        invariant
            0 <= i <= attributes@.len(),
            views == attribute_views(attributes@),
            forall|j: int| 0 <= j < i ==> (#[trigger] views[j]).0 != name@,
        decreases attributes@.len() - i,
    {
        assert(views[i as int] == attributes@[i as int]@);
        if bytes_equal(attributes[i].name.as_slice(), name) {
            return true;
        }
        i = i + 1;
    }
    false
}

/// Names of existing attributes that have to be removed.
pub fn unwanted_attributes(existing: &Vec<ExtendedAttribute>, wanted: &Vec<ExtendedAttribute>) -> (names: Vec<
    Vec<u8>,
>)
    ensures
        byte_strings(names@) == unwanted_names(
            attribute_views(existing@),
            attribute_views(wanted@),
        ),
{
    let ghost all = attribute_views(existing@);
    let ghost kept = attribute_views(wanted@);
    let mut names: Vec<Vec<u8>> = Vec::new();
    let mut i: usize = 0;
    assert(byte_strings(names@) =~= unwanted_names(all.subrange(0, 0), kept));
    while i < existing.len()
        invariant
            0 <= i <= existing@.len(),
            all == attribute_views(existing@),
            kept == attribute_views(wanted@),
            byte_strings(names@) == unwanted_names(all.subrange(0, i as int), kept),
        decreases existing@.len() - i,
    {
        let ghost before = names@;
        assert(all.subrange(0, i + 1).drop_last() =~= all.subrange(0, i as int));
        assert(all.subrange(0, i + 1).last() == existing@[i as int]@);
        if !is_named_among(wanted, existing[i].name.as_slice()) {
            let name: Vec<u8> = copy_bytes(existing[i].name.as_slice());
            names.push(name);
            assert(byte_strings(names@) =~= byte_strings(before).push(name@));
        }
        i = i + 1;
    }
    assert(all.subrange(0, i as int) =~= all);
    names
}

/// Metadata that a replacement keeps, as a value.
#[verifier::ext_equal]
pub struct MetadataView {
    pub mode: u32,
    pub uid: u32,
    pub gid: u32,
    pub attributes: Seq<(Seq<u8>, Seq<u8>)>,
}

/// Metadata that a replacement keeps.
pub struct PreservedMetadata {
    /// Permission bits.
    pub mode: u32,
    /// Owner.
    pub uid: u32,
    /// Group.
    pub gid: u32,
    /// Extended attributes, sorted by name.
    pub extended_attributes: Vec<ExtendedAttribute>,
}

impl View for PreservedMetadata {
    type V = MetadataView;

    open spec fn view(&self) -> MetadataView {
        MetadataView {
            mode: self.mode,
            uid: self.uid,
            gid: self.gid,
            attributes: attribute_views(self.extended_attributes@),
        }
    }
}

impl PreservedMetadata {
    /// Whether two files have the same metadata.
    pub fn same_as(&self, other: &PreservedMetadata) -> (same: bool)
        ensures
            same == (self@ == other@),
    {
        if self.mode != other.mode || self.uid != other.uid || self.gid != other.gid
            || self.extended_attributes.len() != other.extended_attributes.len() {
            assert(self@.attributes.len() != other@.attributes.len() || self@.mode != other@.mode || self@.uid
                != other@.uid || self@.gid != other@.gid);
            return false;
        }
        let mut i: usize = 0;
        while i < self.extended_attributes.len()
            invariant
                0 <= i <= self.extended_attributes@.len(),
                self.extended_attributes@.len() == other.extended_attributes@.len(),
                self.mode == other.mode,
                self.uid == other.uid,
                self.gid == other.gid,
                forall|j: int|
                    0 <= j < i ==> self@.attributes[j] == #[trigger] other@.attributes[j],
            decreases self.extended_attributes@.len() - i,
        {
            if !bytes_equal(
                self.extended_attributes[i].name.as_slice(),
                other.extended_attributes[i].name.as_slice(),
            ) || !bytes_equal(
                self.extended_attributes[i].value.as_slice(),
                other.extended_attributes[i].value.as_slice(),
            ) {
                assert(self@.attributes[i as int] != other@.attributes[i as int]);
                return false;
            }
            i = i + 1;
        }
        assert(self@.attributes =~= other@.attributes);
        assert(self@ =~= other@);
        true
    }
}

/// What editing a configuration would give.
#[derive(Clone, Copy, Debug, PartialEq, Eq, Structural)]
pub struct EditFacts {
    /// Bytes of the edited configuration.
    pub content_bytes: usize,
    /// Bytes of the managed block that was there.
    pub managed_bytes: usize,
    /// Bytes of everything else that was there.
    pub unmanaged_bytes: usize,
    /// Whether nothing has to be changed.
    pub unchanged: bool,
}

/// Whether an edit stays within every bound.
pub open spec fn edit_fits(edit: EditFacts) -> bool {
    &&& edit.content_bytes <= MAX_SHELL_FILE_BYTES
    &&& edit.managed_bytes <= MAX_MANAGED_BLOCK_BYTES
    &&& edit.unmanaged_bytes <= MAX_SHELL_CONFIG_BYTES
}

/// Where an installation stands.
#[derive(Clone, Copy, Debug)]
pub enum InstallStage {
    /// Check that nothing has changed, as nothing has to be.
    ValidateUnchanged,
    /// Back the source up.
    WriteBackup,
    /// Write the replacement beside the target.
    PrepareReplacement,
    /// Check that the backup is what was written.
    ValidateBackup,
    /// Check that directory and lock are still the same.
    ValidateAuthority,
    /// Publish the replacement.
    Publish,
    /// Write the directory to disk; the publication failed for this reason, if
    /// for any.
    SyncPublished(Option<SetupError>),
    /// Check once more that directory and lock are the same.
    ValidatePublished,
    /// Check once more that the backup is what was written.
    RevalidateBackup,
    /// Take the publication back for this reason.
    Restore(SetupError),
    /// Write the directory to disk, then fail for this reason.
    SyncRestored(SetupError),
    /// Succeed.
    Installed,
    /// Succeed without a change.
    Unchanged,
    /// Fail for this reason.
    Failed(SetupError),
}

impl InstallStage {
    /// Stage after the work of this one was done, or failed.
    pub open spec fn after(self, has_source: bool, result: Result<(), SetupError>) -> Self {
        match (self, result) {
            (InstallStage::ValidateUnchanged, Ok(())) => InstallStage::Unchanged,
            (InstallStage::WriteBackup, Ok(())) => InstallStage::PrepareReplacement,
            (InstallStage::PrepareReplacement, Ok(())) => if has_source {
                InstallStage::ValidateBackup
            } else {
                InstallStage::ValidateAuthority
            },
            (InstallStage::ValidateBackup, Ok(())) => InstallStage::ValidateAuthority,
            (InstallStage::ValidateAuthority, Ok(())) => InstallStage::Publish,
            (InstallStage::Publish, Ok(())) => InstallStage::SyncPublished(None),
            (InstallStage::Publish, Err(error)) => InstallStage::SyncPublished(Some(error)),
            (InstallStage::SyncPublished(Some(error)), _) => InstallStage::Failed(error),
            (InstallStage::SyncPublished(None), Ok(())) => InstallStage::ValidatePublished,
            (InstallStage::ValidatePublished, Ok(())) => if has_source {
                InstallStage::RevalidateBackup
            } else {
                InstallStage::Installed
            },
            (InstallStage::ValidatePublished, Err(error)) => InstallStage::Restore(error),
            (InstallStage::RevalidateBackup, Ok(())) => InstallStage::Installed,
            (InstallStage::RevalidateBackup, Err(error)) => InstallStage::Restore(error),
            (InstallStage::Restore(reason), Ok(())) => InstallStage::SyncRestored(reason),
            (InstallStage::SyncRestored(reason), Ok(())) => InstallStage::Failed(reason),
            (InstallStage::Installed, _) => self,
            (InstallStage::Unchanged, _) => self,
            (InstallStage::Failed(_), _) => self,
            (_, Err(error)) => InstallStage::Failed(error),
        }
    }

    /// Stage after the work of this one was done, or failed.
    pub fn advance(self, has_source: bool, result: Result<(), SetupError>) -> (stage: Self)
        ensures
            stage == self.after(has_source, result),
    {
        match (self, result) {
            (InstallStage::ValidateUnchanged, Ok(())) => InstallStage::Unchanged,
            (InstallStage::WriteBackup, Ok(())) => InstallStage::PrepareReplacement,
            (InstallStage::PrepareReplacement, Ok(())) => if has_source {
                InstallStage::ValidateBackup
            } else {
                InstallStage::ValidateAuthority
            },
            (InstallStage::ValidateBackup, Ok(())) => InstallStage::ValidateAuthority,
            (InstallStage::ValidateAuthority, Ok(())) => InstallStage::Publish,
            (InstallStage::Publish, Ok(())) => InstallStage::SyncPublished(None),
            (InstallStage::Publish, Err(error)) => InstallStage::SyncPublished(Some(error)),
            (InstallStage::SyncPublished(Some(error)), _) => InstallStage::Failed(error),
            (InstallStage::SyncPublished(None), Ok(())) => InstallStage::ValidatePublished,
            (InstallStage::ValidatePublished, Ok(())) => if has_source {
                InstallStage::RevalidateBackup
            } else {
                InstallStage::Installed
            },
            (InstallStage::ValidatePublished, Err(error)) => InstallStage::Restore(error),
            (InstallStage::RevalidateBackup, Ok(())) => InstallStage::Installed,
            (InstallStage::RevalidateBackup, Err(error)) => InstallStage::Restore(error),
            (InstallStage::Restore(reason), Ok(())) => InstallStage::SyncRestored(reason),
            (InstallStage::SyncRestored(reason), Ok(())) => InstallStage::Failed(reason),
            (InstallStage::Installed, _) => self,
            (InstallStage::Unchanged, _) => self,
            (InstallStage::Failed(_), _) => self,
            (_, Err(error)) => InstallStage::Failed(error),
        }
    }

    /// Stages that are left at most.
    pub open spec fn stages_left(self) -> int {
        match self {
            InstallStage::WriteBackup => 10,
            InstallStage::PrepareReplacement => 9,
            InstallStage::ValidateBackup => 8,
            InstallStage::ValidateAuthority => 7,
            InstallStage::Publish => 6,
            InstallStage::SyncPublished(_) => 5,
            InstallStage::ValidatePublished => 4,
            InstallStage::RevalidateBackup => 3,
            InstallStage::Restore(_) => 2,
            InstallStage::SyncRestored(_) => 1,
            InstallStage::ValidateUnchanged => 1,
            InstallStage::Installed => 0,
            InstallStage::Unchanged => 0,
            InstallStage::Failed(_) => 0,
        }
    }

    /// Whether the installation has come to an end.
    pub open spec fn ended(self) -> bool {
        self is Installed || self is Unchanged || self is Failed
    }

    /// Whether the target may already be the replacement.
    pub open spec fn may_be_published(self) -> bool {
        match self {
            InstallStage::SyncPublished(_) => true,
            InstallStage::ValidatePublished => true,
            InstallStage::RevalidateBackup => true,
            InstallStage::Restore(_) => true,
            InstallStage::SyncRestored(_) => true,
            InstallStage::Installed => true,
            _ => false,
        }
    }
}

/// Stage with which an installation begins.
pub open spec fn first_stage(edit: EditFacts, has_source: bool) -> InstallStage {
    if edit.unchanged {
        InstallStage::ValidateUnchanged
    } else if has_source {
        InstallStage::WriteBackup
    } else {
        InstallStage::PrepareReplacement
    }
}

/// How an installation begins: an edit that was refused or that exceeds a bound
/// ends it before there is anything to do.
pub open spec fn installation_start(
    edit: Result<EditFacts, ConfigEditError>,
    has_source: bool,
) -> Result<InstallStage, SetupError> {
    match edit {
        Err(refusal) => Err(SetupError::MalformedConfig(refusal)),
        Ok(facts) => if edit_fits(facts) {
            Ok(first_stage(facts, has_source))
        } else {
            Err(SetupError::ConfigTooLarge)
        },
    }
}

impl SetupTarget {
    /// Begins to install one marked integration block: an edit that was refused
    /// or that exceeds a bound fails before anything is written, and one that
    /// changes nothing only has to be confirmed. `edit` says what editing the
    /// configuration gave, and `has_source` whether there is such a file.
    pub fn install(&self, edit: Result<EditFacts, ConfigEditError>, has_source: bool) -> (result: Result<
        InstallStage,
        SetupError,
    >)
        ensures
            result == installation_start(edit, has_source),
    {
        let facts: EditFacts = match edit {
            Ok(facts) => facts,
            Err(refusal) => {
                return Err(SetupError::MalformedConfig(refusal));
            },
        };
        if facts.content_bytes > MAX_SHELL_FILE_BYTES || facts.managed_bytes > MAX_MANAGED_BLOCK_BYTES
            || facts.unmanaged_bytes > MAX_SHELL_CONFIG_BYTES {
            return Err(SetupError::ConfigTooLarge);
        }
        if facts.unchanged {
            Ok(InstallStage::ValidateUnchanged)
        } else if has_source {
            Ok(InstallStage::WriteBackup)
        } else {
            Ok(InstallStage::PrepareReplacement)
        }
    }
}

/// An existing configuration is published over only after its backup was
/// written and checked, and after directory and lock were checked.
pub proof fn law_backup_comes_before_publication(stage: InstallStage, result: Result<(), SetupError>)
    ensures
        stage.after(true, result).may_be_published() && !stage.may_be_published() ==> stage is Publish,
        stage.after(true, result) is Publish ==> stage is ValidateAuthority && result is Ok,
        stage.after(true, result) is ValidateAuthority ==> stage is ValidateBackup && result is Ok,
        stage.after(true, result) is ValidateBackup ==> stage is PrepareReplacement && result is Ok,
        stage.after(true, result) is PrepareReplacement ==> stage is WriteBackup && result is Ok,
        !(stage.after(true, result) is WriteBackup),
{
}

/// A publication that cannot be confirmed is taken back before setup fails, and
/// setup fails for the reason that it could not be confirmed.
pub proof fn law_unconfirmed_publications_are_taken_back(
    stage: InstallStage,
    has_source: bool,
    error: SetupError,
)
    requires
        stage is ValidatePublished || stage is RevalidateBackup,
    ensures
        stage.after(has_source, Err(error)) == InstallStage::Restore(error),
        stage.after(has_source, Err(error)).after(has_source, Ok(())).after(has_source, Ok(()))
            == InstallStage::Failed(error),
{
}

/// Setup succeeds only after every check behind the publication.
pub proof fn law_success_is_confirmed(stage: InstallStage, has_source: bool, result: Result<(), SetupError>)
    requires
        !stage.ended(),
    ensures
        stage.after(has_source, result) is Installed ==> result is Ok && (if has_source {
            stage is RevalidateBackup
        } else {
            stage is ValidatePublished || stage is RevalidateBackup
        }),
        stage.after(has_source, result) is Unchanged ==> result is Ok && stage is ValidateUnchanged,
{
}

impl InstallStage {
    /// Whether the work of this stage writes, moves or exchanges files.
    pub open spec fn writes(self) -> bool {
        self is WriteBackup || self is PrepareReplacement || self is Publish || self is Restore
    }

    /// Stage after the work of some stages was done, or failed.
    pub open spec fn after_all(self, has_source: bool, results: Seq<Result<(), SetupError>>) -> Self
        decreases results.len(),
    {
        if results.len() == 0 {
            self
        } else {
            self.after_all(has_source, results.drop_last()).after(has_source, results.last())
        }
    }
}

/// An installation that finds nothing to change never reaches a stage that
/// writes, whatever the checks say.
pub proof fn law_unchanged_installations_write_nothing(
    edit: EditFacts,
    has_source: bool,
    results: Seq<Result<(), SetupError>>,
)
    requires
        edit.unchanged,
    ensures
        ({
            let stage = first_stage(edit, has_source).after_all(has_source, results);
            &&& !stage.writes()
            &&& !stage.may_be_published()
            &&& stage is ValidateUnchanged || stage is Unchanged || stage is Failed
        }),
    decreases results.len(),
{
    if results.len() > 0 {
        law_unchanged_installations_write_nothing(edit, has_source, results.drop_last());
    }
}

/// Contents of the files of one installation, as long as nobody else writes.
#[verifier::ext_equal]
pub struct InstallFiles {
    /// Configuration file.
    pub target: Option<Seq<u8>>,
    /// Backup of the configuration.
    pub backup: Option<Seq<u8>>,
    /// File under the name of the transaction.
    pub transaction: Option<Seq<u8>>,
}

impl InstallFiles {
    /// Files before an installation.
    pub open spec fn before(target: Option<Seq<u8>>) -> Self {
        InstallFiles { target, backup: None, transaction: None }
    }

    /// Files after the work of a stage was done; `content` is the edited
    /// configuration. A publication exchanges the names of target and
    /// transaction, and so does taking it back.
    pub open spec fn worked(self, stage: InstallStage, content: Seq<u8>) -> Self {
        match stage {
            InstallStage::WriteBackup => InstallFiles { backup: self.target, ..self },
            InstallStage::PrepareReplacement => InstallFiles { transaction: Some(content), ..self },
            InstallStage::Publish => InstallFiles {
                target: self.transaction,
                transaction: self.target,
                ..self
            },
            InstallStage::Restore(_) => InstallFiles {
                target: self.transaction,
                transaction: self.target,
                ..self
            },
            _ => self,
        }
    }
}

/// Stage and files after so many stages whose work was done.
pub open spec fn installed_after(
    stage: InstallStage,
    files: InstallFiles,
    content: Seq<u8>,
    has_source: bool,
    stages: nat,
) -> (InstallStage, InstallFiles)
    decreases stages,
{
    if stages == 0 {
        (stage, files)
    } else {
        installed_after(
            stage.after(has_source, Ok(())),
            files.worked(stage, content),
            content,
            has_source,
            (stages - 1) as nat,
        )
    }
}

/// End of an installation that nothing disturbs, and the files that it leaves.
/// `editor` says what editing a configuration gives, and a file that is not there
/// is edited as an empty one.
pub open spec fn installation(
    editor: spec_fn(Seq<u8>) -> Result<(EditFacts, Seq<u8>), ConfigEditError>,
    target: Option<Seq<u8>>,
) -> (Result<InstallStage, SetupError>, InstallFiles) {
    let source = match target {
        Some(source) => source,
        None => Seq::empty(),
    };
    let (facts, content) = match editor(source) {
        Ok((facts, content)) => (Ok(facts), content),
        Err(refusal) => (Err(refusal), Seq::empty()),
    };
    match installation_start(facts, target is Some) {
        Err(error) => (Err(error), InstallFiles::before(target)),
        Ok(stage) => {
            let (ended, files) = installed_after(
                stage,
                InstallFiles::before(target),
                content,
                target is Some,
                8,
            );
            (Ok(ended), files)
        },
    }
}

/// A refused edit ends an installation with its reason, an edit that exceeds a
/// bound as too large, and neither touches a file.
pub proof fn law_refused_edits_leave_every_file(
    editor: spec_fn(Seq<u8>) -> Result<(EditFacts, Seq<u8>), ConfigEditError>,
    source: Seq<u8>,
)
    ensures
        match editor(source) {
            Err(refusal) => installation(editor, Some(source)) == (
                Err::<InstallStage, _>(SetupError::MalformedConfig(refusal)),
                InstallFiles::before(Some(source)),
            ),
            Ok((facts, _)) => !edit_fits(facts) ==> installation(editor, Some(source)) == (
                Err::<InstallStage, _>(SetupError::ConfigTooLarge),
                InstallFiles::before(Some(source)),
            ),
        },
{
}

/// An installation that nothing disturbs ends with the edited configuration in
/// place and with what was there before under the name of its backup, or, where
/// nothing had to be changed, without a change. A second one then ends without a
/// change of any file and writes no backup, provided that the editor finds
/// nothing to change in what it wrote itself.
pub proof fn law_second_installation_changes_nothing(
    editor: spec_fn(Seq<u8>) -> Result<(EditFacts, Seq<u8>), ConfigEditError>,
    target: Option<Seq<u8>>,
)
    requires
        installation(editor, target).0 is Ok,
        installation(editor, target).0->Ok_0 is Installed ==> {
            &&& editor(installation(editor, target).1.target->0) matches Ok((facts, _))
            &&& facts.unchanged
            &&& edit_fits(facts)
        },
    ensures
        ({
            let source = match target {
                Some(source) => source,
                None => Seq::empty(),
            };
            let (ended, files) = installation(editor, target);
            &&& editor(source) matches Ok((facts, content))
            &&& facts.unchanged ==> ended->Ok_0 is Unchanged && files == InstallFiles::before(target)
            &&& !facts.unchanged ==> ended->Ok_0 is Installed && files.target == Some(content)
                && files.backup == target
            &&& installation(editor, files.target) == (
                Ok::<_, SetupError>(InstallStage::Unchanged),
                InstallFiles::before(files.target),
            )
        }),
{
    reveal_with_fuel(installed_after, 9);
}

/// A publication that cannot be confirmed leaves what was there before in place,
/// once it was taken back.
pub proof fn law_taken_back_installations_restore_the_target(
    edit: EditFacts,
    content: Seq<u8>,
    target: Option<Seq<u8>>,
    error: SetupError,
)
    requires
        !edit.unchanged,
    ensures
        ({
            let has_source = target is Some;
            let published: nat = if has_source {
                6
            } else {
                4
            };
            let (stage, files) = installed_after(
                first_stage(edit, has_source),
                InstallFiles::before(target),
                content,
                has_source,
                published,
            );
            let (ended, restored) = installed_after(
                stage.after(has_source, Err(error)),
                files,
                content,
                has_source,
                2,
            );
            &&& stage is ValidatePublished
            &&& files.target == Some(content)
            &&& ended == InstallStage::Failed(error)
            &&& restored.target == target
        }),
{
    reveal_with_fuel(installed_after, 7);
}

/// What became of an exchange of the replacement and the source.
#[derive(Clone, Copy, Debug, PartialEq, Eq, Structural)]
pub enum SettleStep {
    /// Both are where they belong: the old source stays under its new name.
    Settled,
    /// The source is safe but something else took the target's name: exchange
    /// it back, where that is no directory, then fail.
    RestoreSource,
    /// Somebody published after setup: that stays, and setup fails.
    LeaveTarget,
    /// The target is the replacement but what it displaced is not the source:
    /// exchange it back, where it is a regular file of its own, then fail.
    RestoreDisplaced,
}

/// What became of an exchange: whether the source was found intact under its
/// new name, whether the target's name stands for the replacement, and whether
/// that is intact.
pub open spec fn settle_step(source: bool, identity: bool, replacement: bool) -> SettleStep {
    if source && identity && replacement {
        SettleStep::Settled
    } else if source {
        SettleStep::RestoreSource
    } else if !identity {
        SettleStep::LeaveTarget
    } else {
        SettleStep::RestoreDisplaced
    }
}

/// Whether a check found what it looked for.
pub open spec fn confirmed(check: Result<bool, SetupError>) -> bool {
    check matches Ok(found) && found
}

/// What became of an exchange.
pub fn settle_replacement_exchange(
    source: &Result<bool, SetupError>,
    identity: bool,
    replacement: &Result<bool, SetupError>,
) -> (step: SettleStep)
    ensures
        step == settle_step(confirmed(*source), identity, confirmed(*replacement)),
{
    let source_found: bool = match source {
        Ok(found) => *found,
        Err(_) => false,
    };
    let replacement_found: bool = match replacement {
        Ok(found) => *found,
        Err(_) => false,
    };
    if source_found && identity && replacement_found {
        SettleStep::Settled
    } else if source_found {
        SettleStep::RestoreSource
    } else if !identity {
        SettleStep::LeaveTarget
    } else {
        SettleStep::RestoreDisplaced
    }
}

/// Why an exchange that did not settle fails: because a check failed, or else
/// because somebody changed something.
pub fn unsettled_error(
    step: SettleStep,
    source: Result<bool, SetupError>,
    replacement: Result<bool, SetupError>,
) -> (error: SetupError)
    ensures
        error == match source {
            Err(failure) => failure,
            Ok(_) => match replacement {
                Err(failure) => if step is LeaveTarget {
                    SetupError::SourceChanged
                } else {
                    failure
                },
                Ok(_) => SetupError::SourceChanged,
            },
        },
{
    match source {
        Err(error) => error,
        Ok(_) => match replacement {
            Err(error) => if step == SettleStep::LeaveTarget {
                SetupError::SourceChanged
            } else {
                error
            },
            Ok(_) => SetupError::SourceChanged,
        },
    }
}

/// What is wrong with a directory on the way to the target: `unsafe_type` says
/// that it is a link or no directory.
pub fn directory_component_error(unsafe_type: bool, kind: IoKind) -> (error: SetupError)
    ensures
        error == if unsafe_type {
            SetupError::UnsafeFileType
        } else {
            SetupError::Io { operation: "open shell configuration directory", kind }
        },
{
    if unsafe_type {
        SetupError::UnsafeFileType
    } else {
        SetupError::Io { operation: "open shell configuration directory", kind }
    }
}

/// Why extended attributes could not be read: `too_large` says that they exceed
/// the space for them.
pub fn extended_metadata_error(too_large: bool, kind: IoKind) -> (error: SetupError)
    ensures
        error == if too_large {
            SetupError::UnsupportedMetadata
        } else {
            SetupError::Io { operation: "inspect extended shell metadata", kind }
        },
{
    if too_large {
        SetupError::UnsupportedMetadata
    } else {
        SetupError::Io { operation: "inspect extended shell metadata", kind }
    }
}

/// Checks that a new file could be moved to the target's name. A file that came
/// up there meanwhile stays.
pub fn validate_new_publication(moved: Result<(), IoKind>) -> (result: Result<(), SetupError>)
    ensures
        result == match moved {
            Ok(()) => Ok::<(), SetupError>(()),
            Err(IoKind::AlreadyExists) => Err(SetupError::SourceChanged),
            Err(kind) => Err(SetupError::Io { operation: "install new shell configuration", kind }),
        },
{
    match moved {
        Ok(()) => Ok(()),
        Err(IoKind::AlreadyExists) => Err(SetupError::SourceChanged),
        Err(kind) => Err(SetupError::Io { operation: "install new shell configuration", kind }),
    }
}

/// What to do once a new file was moved to the target's name.
#[derive(Clone, Copy, Debug, PartialEq, Eq, Structural)]
pub enum NewFileStep {
    /// It is there intact.
    Settled,
    /// It is there but not intact: move it back, then fail.
    MoveBack,
    /// Something else is there: leave that, and fail.
    LeaveTarget,
}

/// What to do once a new file was moved: whether it was found intact under the
/// target's name, and whether that name stands for it at all.
pub fn settle_new_publication(intact: bool, identity: bool) -> (step: NewFileStep)
    ensures
        step == if intact {
            NewFileStep::Settled
        } else if identity {
            NewFileStep::MoveBack
        } else {
            NewFileStep::LeaveTarget
        },
{
    if intact {
        NewFileStep::Settled
    } else if identity {
        NewFileStep::MoveBack
    } else {
        NewFileStep::LeaveTarget
    }
}

/// What somebody published after setup is never exchanged away, and an intact
/// source is always either settled or put back.
pub proof fn law_foreign_files_are_kept(source: bool, identity: bool, replacement: bool)
    ensures
        !source && !identity ==> settle_step(source, identity, replacement) is LeaveTarget,
        source ==> settle_step(source, identity, replacement) is Settled || settle_step(
            source,
            identity,
            replacement,
        ) is RestoreSource,
        settle_step(source, identity, replacement) is Settled ==> source && identity && replacement,
{
}

/// Checks that an unchanged configuration is still what was read: `found` says
/// whether the source, or its absence, was found again.
pub fn validate_unchanged(found: Result<bool, SetupError>) -> (result: Result<(), SetupError>)
    ensures
        match found {
            Ok(true) => result is Ok,
            Ok(false) => result matches Err(error) && error is SourceChanged,
            Err(failure) => result matches Err(error) && error == failure,
        },
{
    match found {
        Ok(true) => Ok(()),
        Ok(false) => Err(SetupError::SourceChanged),
        Err(error) => Err(error),
    }
}

/// Every installation comes to an end, after ten stages at most.
pub proof fn law_installations_end(stage: InstallStage, has_source: bool, result: Result<(), SetupError>)
    ensures
        0 <= stage.stages_left() <= 10,
        stage.ended() <==> stage.stages_left() == 0,
        !stage.ended() ==> stage.after(has_source, result).stages_left() < stage.stages_left(),
{
}

/// An executable is the shell that its last name says, wherever it lies; another
/// name is no shell.
pub proof fn law_shells_are_named_by_their_executables(directory: Seq<u8>, name: Seq<u8>)
    requires
        directory.len() > 0,
        name.len() > 0,
        !name.contains(47u8),
        name != seq![46u8],
        name != seq![46u8, 46u8],
    ensures
        file_name_of(directory.push(47) + name) == Some(name),
        file_name_of(name) == Some(name),
        shell_named(directory.push(47) + name) == shell_named(name),
        name == ascii("bash") ==> shell_named(name) == Some(Shell::Bash),
        name == ascii("zsh") ==> shell_named(name) == Some(Shell::Zsh),
        name == ascii("fish") ==> shell_named(name) == Some(Shell::Fish),
        name != ascii("bash") && name != ascii("zsh") && name != ascii("fish") ==> shell_named(name)
            is None,
{
    law_paths_are_their_names(directory, name);
    law_pieces_lie_between_separators(Seq::empty(), name, 47);
    assert(seq![name].drop_last() =~= Seq::<Seq<u8>>::empty());
    assert(named_pieces(seq![name].drop_last()) =~= Seq::<Seq<u8>>::empty());
    assert(seq![name].last() == name);
    assert(named_pieces(seq![name]) =~= seq![name]);
    lemma_shell_names_differ();
}

proof fn lemma_shell_names_differ()
    ensures
        ascii("bash") != ascii("zsh"),
        ascii("bash") != ascii("fish"),
        ascii("zsh") != ascii("fish"),
{
    reveal_strlit("bash");
    reveal_strlit("zsh");
    reveal_strlit("fish");
    encode_utf8_decode_utf8("bash"@);
    encode_utf8_decode_utf8("zsh"@);
    encode_utf8_decode_utf8("fish"@);
    assert("bash"@[0] == 'b' && "zsh"@[0] == 'z' && "fish"@[0] == 'f');
}

/// The file to set up is always an absolute path: below the home directory,
/// unless the environment names a directory for the shell, which fish takes only
/// where it is absolute.
pub proof fn law_targets_are_absolute(
    shell: Shell,
    home: Seq<u8>,
    zdotdir: Option<Seq<u8>>,
    xdg_config_home: Option<Seq<u8>>,
    current_directory: Option<Seq<u8>>,
)
    ensures
        ({
            let target = target_path(shell, home, zdotdir, xdg_config_home, current_directory);
            let absolute_home = home.len() > 0 && home[0] == 47;
            &&& target matches Some(path) ==> path.len() > 0 && path[0] == 47
            &&& shell is Bash && absolute_home ==> target == Some(joined(home, ascii(".bashrc")))
            &&& shell is Bash && !absolute_home ==> target is None
            &&& shell is Zsh && zdotdir is None && absolute_home ==> target == Some(
                joined(home, ascii(".zshrc")),
            )
            &&& shell is Zsh && (zdotdir matches Some(directory) && directory.len() > 0 && directory[0]
                == 47) ==> target == Some(joined(zdotdir->0, ascii(".zshrc")))
            &&& shell is Zsh && (zdotdir matches Some(directory) && directory.len() > 0 && directory[0]
                != 47) && (current_directory matches Some(current) && current.len() > 0 && current[0]
                == 47) ==> target == Some(
                joined(current_directory->0, joined(zdotdir->0, ascii(".zshrc"))),
            )
            &&& shell is Fish && (xdg_config_home matches Some(directory) && directory.len() > 0
                && directory[0] == 47) ==> target == Some(
                joined(xdg_config_home->0, ascii("fish/config.fish")),
            )
            &&& shell is Fish && !(xdg_config_home matches Some(directory) && directory.len() > 0
                && directory[0] == 47) && absolute_home ==> target == Some(
                joined(home, ascii(".config/fish/config.fish")),
            )
        }),
{
}

/// On macOS what lies below a linked directory of the root is found below
/// `/private`, and every other path stays as it is.
pub proof fn law_linked_directories_lie_below_private(name: Seq<u8>, rest: Seq<u8>)
    requires
        name == ascii("tmp") || name == ascii("var") || name == ascii("etc"),
        rest.len() > 0,
        rest[0] != 47,
        rest[0] != 46,
        rest.last() != 47,
        rest.last() != 46,
    ensures
        macos_anchor(seq![47u8] + name + seq![47u8] + rest) == ascii("/private/") + name + seq![47u8]
            + rest,
{
    lemma_root_directory_bytes();
    let path = seq![47u8] + name + seq![47u8] + rest;
    let named = name + seq![47u8] + rest;
    assert(skip_bytes(path, 1) =~= named);
    assert(named[0] == name[0]);
    assert(from_first_name(named) == named);
    assert(from_first_name(path) == named);
    let behind = seq![47u8] + rest;
    assert(skip_bytes(named, 3) =~= behind);
    assert(skip_bytes(behind, 1) =~= rest);
    assert(from_first_name(rest) == rest);
    assert(from_first_name(behind) == rest);
    assert(to_last_name(rest) == rest);
    assert(named.subrange(0, 3) =~= name);
    assert(below_root_directory(path, name) == Some(rest));
    let tmp = ascii("/private/tmp");
    let var = ascii("/private/var");
    let etc = ascii("/private/etc");
    assert(tmp.push(47) + rest =~= ascii("/private/") + ascii("tmp") + seq![47u8] + rest);
    assert(var.push(47) + rest =~= ascii("/private/") + ascii("var") + seq![47u8] + rest);
    assert(etc.push(47) + rest =~= ascii("/private/") + ascii("etc") + seq![47u8] + rest);
}

proof fn lemma_root_directory_bytes()
    ensures
        ascii("tmp") == seq![116u8, 109, 112],
        ascii("var") == seq![118u8, 97, 114],
        ascii("etc") == seq![101u8, 116, 99],
        ascii("/private/tmp") == ascii("/private/") + seq![116u8, 109, 112],
        ascii("/private/var") == ascii("/private/") + seq![118u8, 97, 114],
        ascii("/private/etc") == ascii("/private/") + seq![101u8, 116, 99],
{
    reveal_strlit("tmp");
    reveal_strlit("var");
    reveal_strlit("etc");
    reveal_strlit("/private/");
    reveal_strlit("/private/tmp");
    reveal_strlit("/private/var");
    reveal_strlit("/private/etc");
    is_ascii_chars_encode_utf8("tmp"@);
    is_ascii_chars_encode_utf8("var"@);
    is_ascii_chars_encode_utf8("etc"@);
    assert(ascii("tmp") =~= seq![116u8, 109, 112]);
    assert(ascii("var") =~= seq![118u8, 97, 114]);
    assert(ascii("etc") =~= seq![101u8, 116, 99]);
    assert("/private/tmp"@ =~= "/private/"@ + "tmp"@);
    assert("/private/var"@ =~= "/private/"@ + "var"@);
    assert("/private/etc"@ =~= "/private/"@ + "etc"@);
    crate::text::lemma_encode_concat("/private/"@, "tmp"@);
    crate::text::lemma_encode_concat("/private/"@, "var"@);
    crate::text::lemma_encode_concat("/private/"@, "etc"@);
}

/// Backups of one configuration never share a name.
pub proof fn law_setup_backups_have_names_of_their_own(
    file_name: Seq<u8>,
    timestamp: u64,
    collision: u8,
    other: u8,
)
    ensures
        setup_backup_file_name(file_name, timestamp, collision).len() > file_name.len(),
        forall|i: int|
            0 <= i < file_name.len() ==> #[trigger] setup_backup_file_name(
                file_name,
                timestamp,
                collision,
            )[i] == file_name[i],
        collision != other ==> setup_backup_file_name(file_name, timestamp, collision)
            != setup_backup_file_name(file_name, timestamp, other),
{
    let first = file_name + ascii(".argmax-backup.") + decimal_digits(timestamp as nat);
    lemma_decimal_digits_shape(timestamp as nat);
    lemma_decimal_digits_shape(collision as nat);
    lemma_decimal_digits_shape(other as nat);
    let a = setup_backup_file_name(file_name, timestamp, collision);
    let b = setup_backup_file_name(file_name, timestamp, other);
    if a == b && collision != other {
        if collision == 0 {
            assert(a.len() == first.len());
            assert(b.len() > first.len());
        } else if other == 0 {
            assert(b.len() == first.len());
            assert(a.len() > first.len());
        } else {
            assert(a.subrange(first.len() as int + 1, a.len() as int) =~= decimal_digits(
                collision as nat,
            ));
            assert(b.subrange(first.len() as int + 1, b.len() as int) =~= decimal_digits(other as nat));
        }
    }
}

/// A name that is taken is never used: the next one is tried, up to so many, and
/// any other failure ends the attempts.
pub proof fn law_taken_names_lead_to_the_next(
    attempt: u8,
    most: u8,
    kind: IoKind,
    exhausted: SetupError,
    failure: SetupError,
)
    requires
        attempt < most,
    ensures
        name_step(attempt, most, Ok(()), exhausted, failure) is Done,
        attempt + 1 < most ==> name_step(
            attempt,
            most,
            Err(IoKind::AlreadyExists),
            exhausted,
            failure,
        ) == NameStep::Retry((attempt + 1) as u8),
        attempt + 1 == most ==> name_step(
            attempt,
            most,
            Err(IoKind::AlreadyExists),
            exhausted,
            failure,
        ) == NameStep::Fail(exhausted),
        !(kind is AlreadyExists) ==> name_step(attempt, most, Err(kind), exhausted, failure)
            == NameStep::Fail(failure),
{
}

/// A name stands for an open file only where it leads to that very file, which is
/// regular and no link.
pub proof fn law_names_stand_for_their_files(anchored: FileFacts, found: FileFacts)
    ensures
        !names_file(anchored, None),
        names_file(anchored, Some(found)) ==> found.regular && !found.symlink && found.device
            == anchored.device && found.inode == anchored.inode,
        found.regular && !found.symlink && found.device == anchored.device && found.inode
            == anchored.inode ==> names_file(anchored, Some(found)),
{
}

/// A list of attributes is its names, each with a zero byte behind it; one more is
/// one more name.
pub proof fn law_attribute_lists_are_their_names(list: Seq<u8>, name: Seq<u8>)
    requires
        attribute_list(list) is Some,
        name.len() > 0,
        !name.contains(0u8),
        list.len() + name.len() + 1 <= MAX_EXTENDED_ATTRIBUTE_LIST_BYTES,
    ensures
        attribute_list(list + name.push(0)) == Some(attribute_list(list)->0.push(name)),
        attribute_list(list + name) is None,
{
    let longer = list + name.push(0);
    let names = attribute_list(list)->0;
    assert(longer.last() == 0);
    assert((list + name).last() == name.last());
    assert(name.last() != 0) by {
        assert(name[name.len() - 1] != 0);
    }
    if list.len() == 0 {
        assert(longer.drop_last() =~= name);
        law_pieces_lie_between_separators(Seq::empty(), name, 0);
        assert(names.push(name) =~= seq![name]);
        assert(seq![name][0] == name);
    } else {
        let front = list.drop_last();
        assert(longer.drop_last() =~= front.push(0) + name);
        law_pieces_lie_between_separators(front, name, 0);
        let parts = split_on(front, 0);
        assert(!has_empty(parts.push(name))) by {
            assert forall|i: int| 0 <= i < parts.push(name).len() implies (#[trigger] parts.push(
                name,
            )[i]).len() != 0 by {
                if i < parts.len() {
                    assert(parts[i].len() != 0);
                }
            }
        }
    }
}

/// Sorting attributes loses and invents none and leaves them in the order of
/// their names.
pub proof fn law_attributes_are_sorted_by_name(attributes: Seq<(Seq<u8>, Seq<u8>)>)
    ensures
        by_name(attributes).to_multiset() == attributes.to_multiset(),
        forall|i: int, j: int|
            0 <= i < j < by_name(attributes).len() ==> !bytes_before(
                (#[trigger] by_name(attributes)[j]).0,
                (#[trigger] by_name(attributes)[i]).0,
            ),
    decreases attributes.len(),
{
    if attributes.len() > 0 {
        let front = attributes.drop_last();
        law_attributes_are_sorted_by_name(front);
        lemma_with_attribute(by_name(front), attributes.last());
        front.to_multiset_ensures();
        assert(attributes =~= front.push(attributes.last()));
    } else {
        assert(attributes =~= by_name(attributes));
    }
}

proof fn lemma_with_attribute(sorted: Seq<(Seq<u8>, Seq<u8>)>, attribute: (Seq<u8>, Seq<u8>))
    requires
        forall|i: int, j: int|
            0 <= i < j < sorted.len() ==> !bytes_before(
                (#[trigger] sorted[j]).0,
                (#[trigger] sorted[i]).0,
            ),
    ensures
        with_attribute(sorted, attribute).to_multiset() == sorted.to_multiset().insert(attribute),
        forall|i: int, j: int|
            0 <= i < j < with_attribute(sorted, attribute).len() ==> !bytes_before(
                (#[trigger] with_attribute(sorted, attribute)[j]).0,
                (#[trigger] with_attribute(sorted, attribute)[i]).0,
            ),
        forall|i: int|
            0 <= i < with_attribute(sorted, attribute).len() ==> #[trigger] with_attribute(
                sorted,
                attribute,
            )[i] == attribute || sorted.contains(with_attribute(sorted, attribute)[i]),
    decreases sorted.len(),
{
    let after = with_attribute(sorted, attribute);
    if sorted.len() == 0 {
        Seq::<(Seq<u8>, Seq<u8>)>::empty().to_multiset_ensures();
        assert(sorted =~= Seq::<(Seq<u8>, Seq<u8>)>::empty());
        assert(seq![attribute] =~= sorted.push(attribute));
        sorted.to_multiset_ensures();
    } else if bytes_before(attribute.0, sorted.last().0) {
        let front = sorted.drop_last();
        let inner = with_attribute(front, attribute);
        assert forall|i: int, j: int| 0 <= i < j < front.len() implies !bytes_before(
            (#[trigger] front[j]).0,
            (#[trigger] front[i]).0,
        ) by {
            assert(front[i] == sorted[i] && front[j] == sorted[j]);
        }
        lemma_with_attribute(front, attribute);
        inner.to_multiset_ensures();
        front.to_multiset_ensures();
        assert(sorted =~= front.push(sorted.last()));
        assert(after.to_multiset() =~= sorted.to_multiset().insert(attribute));
        assert forall|i: int, j: int| 0 <= i < j < after.len() implies !bytes_before(
            (#[trigger] after[j]).0,
            (#[trigger] after[i]).0,
        ) by {
            if j == after.len() - 1 {
                assert(after[i] == inner[i]);
                if inner[i] == attribute {
                    lemma_bytes_order(attribute.0, sorted.last().0);
                } else {
                    assert(front.contains(inner[i]));
                    let k = choose|k: int| 0 <= k < front.len() && front[k] == inner[i];
                    assert(sorted[k] == inner[i]);
                    assert(sorted[sorted.len() - 1] == sorted.last());
                }
            } else {
                assert(after[i] == inner[i] && after[j] == inner[j]);
            }
        }
        assert forall|i: int| 0 <= i < after.len() implies #[trigger] after[i] == attribute
            || sorted.contains(after[i]) by {
            if i < inner.len() {
                assert(after[i] == inner[i]);
                if inner[i] != attribute {
                    let k = choose|k: int| 0 <= k < front.len() && front[k] == inner[i];
                    assert(sorted[k] == inner[i]);
                }
            } else {
                assert(sorted[sorted.len() - 1] == after[i]);
            }
        }
    } else {
        sorted.to_multiset_ensures();
        lemma_bytes_order(attribute.0, sorted.last().0);
        assert forall|i: int, j: int| 0 <= i < j < after.len() implies !bytes_before(
            (#[trigger] after[j]).0,
            (#[trigger] after[i]).0,
        ) by {
            if j == after.len() - 1 && i < sorted.len() - 1 {
                assert(sorted[sorted.len() - 1] == sorted.last());
                assert(!bytes_before(sorted[sorted.len() - 1].0, sorted[i].0));
                if bytes_before(attribute.0, sorted[i].0) {
                    lemma_bytes_order(sorted[i].0, sorted.last().0);
                    if sorted[i].0 != sorted.last().0 {
                        lemma_bytes_transitive(attribute.0, sorted[i].0, sorted.last().0);
                    }
                }
            }
        }
        assert forall|i: int| 0 <= i < after.len() implies #[trigger] after[i] == attribute
            || sorted.contains(after[i]) by {
            if i < sorted.len() {
                assert(sorted[i] == after[i]);
            }
        }
    }
}

/// Exactly the attributes that exist and are not wanted are removed, in order.
pub proof fn law_unwanted_attributes_are_removed(
    existing: Seq<(Seq<u8>, Seq<u8>)>,
    wanted: Seq<(Seq<u8>, Seq<u8>)>,
    attribute: (Seq<u8>, Seq<u8>),
)
    ensures
        unwanted_names(Seq::empty(), wanted).len() == 0,
        (exists|i: int| 0 <= i < wanted.len() && (#[trigger] wanted[i]).0 == attribute.0)
            ==> unwanted_names(existing.push(attribute), wanted) == unwanted_names(existing, wanted),
        (forall|i: int| 0 <= i < wanted.len() ==> (#[trigger] wanted[i]).0 != attribute.0)
            ==> unwanted_names(existing.push(attribute), wanted) == unwanted_names(
            existing,
            wanted,
        ).push(attribute.0),
{
    assert(existing.push(attribute).drop_last() =~= existing);
}

/// An edit is accepted up to each bound and not one byte beyond.
pub proof fn law_edits_fit_up_to_their_bounds(edit: EditFacts)
    ensures
        edit.content_bytes <= MAX_SHELL_FILE_BYTES && edit.managed_bytes <= MAX_MANAGED_BLOCK_BYTES
            && edit.unmanaged_bytes <= MAX_SHELL_CONFIG_BYTES ==> edit_fits(edit),
        edit.content_bytes > MAX_SHELL_FILE_BYTES ==> !edit_fits(edit),
        edit.managed_bytes > MAX_MANAGED_BLOCK_BYTES ==> !edit_fits(edit),
        edit.unmanaged_bytes > MAX_SHELL_CONFIG_BYTES ==> !edit_fits(edit),
{
}

/// An installation goes through its stages in order, and a failure before it is
/// published ends it for that reason; a failed publication is still written to
/// disk as it is, and ends it too.
pub proof fn law_installations_go_in_order(has_source: bool, error: SetupError, other: Result<(), SetupError>)
    ensures
        InstallStage::ValidateUnchanged.after(has_source, Ok(())) is Unchanged,
        InstallStage::WriteBackup.after(has_source, Ok(())) is PrepareReplacement,
        InstallStage::PrepareReplacement.after(true, Ok(())) is ValidateBackup,
        InstallStage::PrepareReplacement.after(false, Ok(())) is ValidateAuthority,
        InstallStage::ValidateBackup.after(has_source, Ok(())) is ValidateAuthority,
        InstallStage::ValidateAuthority.after(has_source, Ok(())) is Publish,
        InstallStage::Publish.after(has_source, Ok(())) == InstallStage::SyncPublished(None),
        InstallStage::SyncPublished(None).after(has_source, Ok(())) is ValidatePublished,
        InstallStage::ValidatePublished.after(true, Ok(())) is RevalidateBackup,
        InstallStage::ValidatePublished.after(false, Ok(())) is Installed,
        InstallStage::RevalidateBackup.after(has_source, Ok(())) is Installed,
        InstallStage::ValidateUnchanged.after(has_source, Err(error)) == InstallStage::Failed(error),
        InstallStage::WriteBackup.after(has_source, Err(error)) == InstallStage::Failed(error),
        InstallStage::PrepareReplacement.after(has_source, Err(error)) == InstallStage::Failed(error),
        InstallStage::ValidateBackup.after(has_source, Err(error)) == InstallStage::Failed(error),
        InstallStage::ValidateAuthority.after(has_source, Err(error)) == InstallStage::Failed(error),
        InstallStage::Publish.after(has_source, Err(error)).after(has_source, other)
            == InstallStage::Failed(error),
        InstallStage::SyncPublished(None).after(has_source, Err(error)) == InstallStage::Failed(error),
        InstallStage::Restore(error).after(has_source, Ok(())).after(has_source, Ok(()))
            == InstallStage::Failed(error),
        InstallStage::Installed.after(has_source, other) is Installed,
        InstallStage::Unchanged.after(has_source, other) is Unchanged,
        InstallStage::Failed(error).after(has_source, other) == InstallStage::Failed(error),
{
}

/// A changed configuration that exists is backed up first; a new one has nothing
/// to back up, and an unchanged one nothing to do.
pub proof fn law_installations_begin_with_a_backup(edit: EditFacts, has_source: bool)
    ensures
        edit.unchanged ==> first_stage(edit, has_source) is ValidateUnchanged,
        !edit.unchanged && has_source ==> first_stage(edit, has_source) is WriteBackup,
        !edit.unchanged && !has_source ==> first_stage(edit, has_source) is PrepareReplacement,
{
}

/// What is put back after an exchange that did not settle: the source where it is
/// intact, and else what was displaced, as long as the target is still setup's
/// own.
pub proof fn law_unsettled_exchanges_are_undone(identity: bool, replacement: bool)
    ensures
        settle_step(true, true, true) is Settled,
        !(identity && replacement) ==> settle_step(true, identity, replacement) is RestoreSource,
        settle_step(false, true, replacement) is RestoreDisplaced,
        settle_step(false, false, replacement) is LeaveTarget,
{
}

/// A way that leads upwards anywhere is noticed, and one that does not is not
/// taken for such.
pub proof fn law_upward_names_are_noticed(front: Seq<Seq<u8>>, back: Seq<Seq<u8>>)
    ensures
        leads_up(front.push(seq![46u8, 46u8]) + back),
        leads_up(front + back) <==> leads_up(front) || leads_up(back),
        !leads_up(Seq::empty()),
{
    let dots = seq![46u8, 46u8];
    let through = front.push(dots) + back;
    assert(through[front.len() as int] == dots);
    let both = front + back;
    if leads_up(front) {
        let i = choose|i: int| 0 <= i < front.len() && #[trigger] front[i] == dots;
        assert(both[i] == dots);
    }
    if leads_up(back) {
        let i = choose|i: int| 0 <= i < back.len() && #[trigger] back[i] == dots;
        assert(both[front.len() + i] == dots);
    }
    if leads_up(both) {
        let i = choose|i: int| 0 <= i < both.len() && #[trigger] both[i] == dots;
        if i < front.len() {
            assert(front[i] == dots);
        } else {
            assert(back[i - front.len()] == dots);
        }
    }
}

} // verus!
