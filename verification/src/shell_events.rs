//! Bounded decoding and reduction of shell-integration events.
//!
//! Shell hooks write NUL-terminated frames on a private file descriptor. Buffer
//! payloads remain raw bytes, while authoritative editing snapshots are accepted
//! only when their UTF-8 cursor is valid. The reducer consumes every decoded
//! frame so a rejected frame cannot leave stale suggestions authoritative.

use vstd::prelude::*;
use vstd::string::*;
use vstd::utf8::*;

use crate::shell_control::{counted_up, is_canonical_decimal};
use crate::text::{
    all_digits, append_number, append_size, bool_chars, bool_text, bytes_equal, canonical_decimal,
    char_offset, copy_bytes, decimal_chars, decimal_digits, decimal_value, find_byte, first_index,
    has_prefix, is_digit, lemma_boundary_between, lemma_decimal_digits_shape, lemma_decimal_width,
    lemma_encode_concat, lemma_first_index, only_digits, parse_digits, size_debug_chars,
    skip_bytes, starts_with, utf8_str,
};

verus! {

/// Hard maximum size of one frame, excluding its NUL terminator.
pub const MAX_FRAME_BYTES: usize = 256 * 1024;

/// Reserved input sequence that asks a shell-native editor for a snapshot.
///
/// A PTY input loop may inject this only after a complete editing key has been
/// forwarded and decoded. It must never inject it during bracketed paste, while
/// a foreground command owns the terminal, or after forwarding Enter.
pub const SYNC_PROBE_SEQUENCE: &'static str = "\x1b[argmax-sync~";

const BUFFER_BYTE_PREFIX: &'static str = "buffer:b:";

const BUFFER_CHARACTER_PREFIX: &'static str = "buffer:c:";

const PROBE_BUFFER_BYTE_PREFIX: &'static str = "probe-buffer:b:";

const PROBE_BUFFER_CHARACTER_PREFIX: &'static str = "probe-buffer:c:";

const PROBE_BUFFER_FISH_PREFIX: &'static str = "probe-buffer:f:";

const CAPABILITY_NATIVE: &'static str = "capability:native-buffer";

const CAPABILITY_PROBE_PREFIX: &'static str = "capability:sync-probe:";

const CAPABILITY_UNAVAILABLE: &'static str = "capability:unavailable";

const COMMAND_START_PREFIX: &'static str = "command-start:";

const COMMAND_START_UNKNOWN: &'static str = "command-start-unknown";

const COMMAND_STOP_PREFIX: &'static str = "command-stop:";

const WORKING_DIRECTORY_PREFIX: &'static str = "cwd:";

const PROMPT_READY: &'static str = "prompt-ready";

const RELOAD_REQUEST_PREFIX: &'static str = "reload-request:";

/// Longest working directory that a shell may report.
pub const MAX_WORKING_DIRECTORY_BYTES: usize = 16 * 1024;

/// Exact submitted command bytes reported by a shell lifecycle hook.
#[derive(PartialEq, Eq)]
pub struct SubmittedCommand(Vec<u8>);

impl View for SubmittedCommand {
    type V = Seq<u8>;

    closed spec fn view(&self) -> Seq<u8> {
        self.0@
    }
}

impl Clone for SubmittedCommand {
    fn clone(&self) -> (copy: Self)
        ensures
            copy@ == self@,
    {
        SubmittedCommand(copy_bytes(self.0.as_slice()))
    }
}

impl SubmittedCommand {
    /// Command bytes without lossy decoding.
    pub fn as_bytes(&self) -> (bytes: &[u8])
        ensures
            bytes@ == self@,
    {
        self.0.as_slice()
    }

    /// Command as text, only when its bytes are valid UTF-8.
    pub fn as_str(&self) -> (text: Option<&str>)
        ensures
            text is Some <==> valid_utf8(self@),
            text matches Some(t) ==> encode_utf8(t@) == self@,
    {
        utf8_str(self.0.as_slice())
    }

    /// Command length in bytes.
    pub fn len(&self) -> (bytes: usize)
        ensures
            bytes == self@.len(),
    {
        self.0.len()
    }

    /// Whether the submitted command is empty.
    pub fn is_empty(&self) -> (empty: bool)
        ensures
            empty == (self@.len() == 0),
    {
        self.0.len() == 0
    }

    /// Diagnostic summary, which shows the size and never the bytes.
    pub fn debug_text(&self) -> (summary: String)
        ensures
            summary@ == "SubmittedCommand { byte_count: "@ + decimal_chars(self@.len()) + " }"@,
    {
        let mut summary = "SubmittedCommand { byte_count: ".to_owned();
        append_number(&mut summary, self.0.len() as u128);
        summary.append(" }");
        summary
    }
}

/// Monotonic nonce echoed by a reserved synchronization probe.
#[derive(Clone, Copy, Debug, PartialEq, Eq, PartialOrd, Ord, Hash, Structural)]
pub struct SnapshotNonce(u64);

impl View for SnapshotNonce {
    type V = u64;

    closed spec fn view(&self) -> u64 {
        self.0
    }
}

impl SnapshotNonce {
    /// Numeric nonce.
    pub fn get(self) -> (value: u64)
        ensures
            value == self@,
    {
        self.0
    }
}

/// Number of an optional nonce.
pub open spec fn nonce_value(nonce: Option<SnapshotNonce>) -> Option<u64> {
    match nonce {
        Some(n) => Some(n@),
        None => None,
    }
}

/// An editing buffer with its cursor, and the probe that it answers.
#[verifier::ext_equal]
pub struct SnapshotView {
    pub bytes: Seq<u8>,
    pub cursor: int,
    pub nonce: Option<u64>,
}

/// Whether a buffer is UTF-8 text with the cursor between two characters.
pub open spec fn valid_snapshot(snapshot: SnapshotView) -> bool {
    valid_utf8(snapshot.bytes) && 0 <= snapshot.cursor <= snapshot.bytes.len() && is_char_boundary(
        snapshot.bytes,
        snapshot.cursor,
    )
}

/// The buffer of a fresh prompt.
pub open spec fn empty_snapshot() -> SnapshotView {
    SnapshotView { bytes: Seq::empty(), cursor: 0, nonce: None }
}

/// Cursor-bearing editing snapshot reported by a shell adapter.
///
/// A decoded value becomes authoritative only after [`ShellSessionState`]
/// correlates it with the active capability and local-input generation.
#[derive(PartialEq, Eq)]
pub struct BufferSnapshot {
    bytes: Vec<u8>,
    cursor: usize,
    probe_nonce: Option<SnapshotNonce>,
}

impl View for BufferSnapshot {
    type V = SnapshotView;

    closed spec fn view(&self) -> SnapshotView {
        SnapshotView {
            bytes: self.bytes@,
            cursor: self.cursor as int,
            nonce: nonce_value(self.probe_nonce),
        }
    }
}

impl Clone for BufferSnapshot {
    fn clone(&self) -> (copy: Self)
        ensures
            copy@ == self@,
    {
        proof {
            use_type_invariant(self);
        }
        BufferSnapshot {
            bytes: copy_bytes(self.bytes.as_slice()),
            cursor: self.cursor,
            probe_nonce: self.probe_nonce,
        }
    }
}

impl BufferSnapshot {
    #[verifier::type_invariant]
    spec fn valid(self) -> bool {
        valid_snapshot(self@)
    }

    fn empty() -> (snapshot: Self)
        ensures
            snapshot@ == empty_snapshot(),
    {
        let snapshot = BufferSnapshot { bytes: Vec::new(), cursor: 0, probe_nonce: None };
        assert(snapshot@.bytes =~= Seq::<u8>::empty());
        snapshot
    }

    /// Buffer bytes without lossy decoding.
    pub fn as_bytes(&self) -> (bytes: &[u8])
        ensures
            bytes@ == self@.bytes,
            valid_snapshot(self@),
    {
        proof {
            use_type_invariant(self);
        }
        self.bytes.as_slice()
    }

    /// Buffer as text; a decoded snapshot always is text.
    pub fn as_str(&self) -> (text: Option<&str>)
        ensures
            text is Some,
            encode_utf8(text->0@) == self@.bytes,
            valid_snapshot(self@),
    {
        proof {
            use_type_invariant(self);
        }
        utf8_str(self.bytes.as_slice())
    }

    /// Validated UTF-8 byte offset of the cursor.
    pub fn cursor(&self) -> (cursor: usize)
        ensures
            cursor == self@.cursor,
            valid_snapshot(self@),
    {
        proof {
            use_type_invariant(self);
        }
        self.cursor
    }

    /// Correlated probe nonce, or `None` for a native snapshot.
    pub fn probe_nonce(&self) -> (nonce: Option<SnapshotNonce>)
        ensures
            nonce_value(nonce) == self@.nonce,
    {
        self.probe_nonce
    }

    /// Exact bytes before the cursor.
    pub fn before_cursor(&self) -> (bytes: &[u8])
        ensures
            bytes@ == self@.bytes.subrange(0, self@.cursor),
    {
        proof {
            use_type_invariant(self);
        }
        vstd::slice::slice_subrange(self.bytes.as_slice(), 0, self.cursor)
    }

    /// Exact bytes at and after the cursor.
    pub fn after_cursor(&self) -> (bytes: &[u8])
        ensures
            bytes@ == self@.bytes.subrange(self@.cursor, self@.bytes.len() as int),
    {
        proof {
            use_type_invariant(self);
        }
        vstd::slice::slice_subrange(self.bytes.as_slice(), self.cursor, self.bytes.len())
    }

    /// Buffer length in bytes.
    pub fn len(&self) -> (bytes: usize)
        ensures
            bytes == self@.bytes.len(),
    {
        self.bytes.len()
    }

    /// Whether the buffer is empty.
    pub fn is_empty(&self) -> (empty: bool)
        ensures
            empty == (self@.bytes.len() == 0),
    {
        self.bytes.len() == 0
    }

    /// Diagnostic summary, which shows sizes and never the bytes.
    pub fn debug_text(&self) -> (summary: String)
        ensures
            summary@ == snapshot_debug_chars(self@),
    {
        let mut summary = "BufferSnapshot { byte_count: ".to_owned();
        append_number(&mut summary, self.bytes.len() as u128);
        summary.append(", cursor: ");
        append_number(&mut summary, self.cursor as u128);
        summary.append(", probe_nonce: ");
        append_nonce(&mut summary, self.probe_nonce);
        summary.append(" }");
        summary
    }
}

/// Text of [`BufferSnapshot::debug_text`].
pub open spec fn snapshot_debug_chars(snapshot: SnapshotView) -> Seq<char> {
    "BufferSnapshot { byte_count: "@ + decimal_chars(snapshot.bytes.len()) + ", cursor: "@ + decimal_chars(
        snapshot.cursor as nat,
    ) + ", probe_nonce: "@ + nonce_debug_chars(snapshot.nonce) + " }"@
}

/// An optional nonce in a diagnostic summary.
pub open spec fn nonce_debug_chars(nonce: Option<u64>) -> Seq<char> {
    match nonce {
        Some(value) => "Some(SnapshotNonce("@ + decimal_chars(value as nat) + "))"@,
        None => "None"@,
    }
}

pub fn append_nonce(summary: &mut String, nonce: Option<SnapshotNonce>)
    ensures
        final(summary)@ == old(summary)@ + nonce_debug_chars(nonce_value(nonce)),
{
    match nonce {
        Some(nonce) => {
            summary.append("Some(SnapshotNonce(");
            append_number(summary, nonce.0 as u128);
            summary.append("))");
            assert(summary@ =~= old(summary)@ + nonce_debug_chars(Some(nonce@)));
        },
        None => {
            summary.append("None");
        },
    }
}

/// Validated shell exit status in the portable 8-bit range.
#[derive(Clone, Copy, Debug, PartialEq, Eq, PartialOrd, Ord, Hash, Structural)]
pub struct ShellExitStatus(u8);

impl View for ShellExitStatus {
    type V = u8;

    closed spec fn view(&self) -> u8 {
        self.0
    }
}

impl ShellExitStatus {
    /// Numeric status reported by the shell.
    pub fn get(self) -> (value: u8)
        ensures
            value == self@,
    {
        self.0
    }

    /// Whether the command completed successfully.
    pub fn success(self) -> (success: bool)
        ensures
            success == (self@ == 0),
    {
        self.0 == 0
    }
}

/// Whether `path` is a nonempty absolute Unix path.
pub open spec fn absolute_path(path: Seq<u8>) -> bool {
    path.len() > 0 && path[0] == 47
}

/// Whether a shell may report `path` as its working directory.
pub open spec fn reportable_directory(path: Seq<u8>) -> bool {
    absolute_path(path) && path.len() <= MAX_WORKING_DIRECTORY_BYTES
}

/// Validated absolute working directory reported at a shell prompt boundary.
#[derive(PartialEq, Eq)]
pub struct ShellWorkingDirectory(Vec<u8>);

impl View for ShellWorkingDirectory {
    type V = Seq<u8>;

    closed spec fn view(&self) -> Seq<u8> {
        self.0@
    }
}

impl Clone for ShellWorkingDirectory {
    fn clone(&self) -> (copy: Self)
        ensures
            copy@ == self@,
    {
        proof {
            use_type_invariant(self);
        }
        ShellWorkingDirectory(copy_bytes(self.0.as_slice()))
    }
}

impl ShellWorkingDirectory {
    #[verifier::type_invariant]
    spec fn reportable(self) -> bool {
        reportable_directory(self.0@)
    }

    /// Exact path bytes without lossy decoding.
    pub fn as_path(&self) -> (path: &[u8])
        ensures
            path@ == self@,
            reportable_directory(path@),
    {
        proof {
            use_type_invariant(self);
        }
        self.0.as_slice()
    }

    /// Consumes the event and returns its exact path bytes.
    pub fn into_path(self) -> (path: Vec<u8>)
        ensures
            path@ == self@,
            reportable_directory(path@),
    {
        proof {
            use_type_invariant(&self);
        }
        self.0
    }

    /// Diagnostic summary, which shows the size and never the path.
    pub fn debug_text(&self) -> (summary: String)
        ensures
            summary@ == "ShellWorkingDirectory { path_bytes: "@ + decimal_chars(self@.len()) + " }"@,
    {
        let mut summary = "ShellWorkingDirectory { path_bytes: ".to_owned();
        append_number(&mut summary, self.0.len() as u128);
        summary.append(" }");
        summary
    }
}

/// Correlation nonce carried by an explicit active-session reload request.
#[derive(Clone, Copy, Debug, PartialEq, Eq, Structural)]
pub struct ReloadRequest(u32);

impl View for ReloadRequest {
    type V = u32;

    closed spec fn view(&self) -> u32 {
        self.0
    }
}

impl ReloadRequest {
    /// Request nonce echoed by the wrapper acknowledgment.
    pub fn nonce(self) -> (nonce: u32)
        ensures
            nonce == self@,
    {
        self.0
    }
}

/// Runtime shell-adapter support for authoritative editing snapshots.
#[derive(Clone, Copy, Debug, PartialEq, Eq, Structural)]
pub enum BufferSyncCapability {
    /// Capability has not yet been announced.
    Unknown,
    /// The shell reports native redraw callbacks without wire correlation.
    ///
    /// Such a callback is rejected after locally forwarded input remains
    /// unacknowledged; current adapters use numbered probes for live editing.
    Native,
    /// The reserved probe is bound without replacing a user binding.
    Probe,
    /// No safe native callback or collision-free probe binding is available.
    Unavailable,
}

impl BufferSyncCapability {
    /// Whether the capability is one that gives live snapshots.
    pub open spec fn is_live(self) -> bool {
        self is Native || self is Probe
    }

    /// Whether the adapter can provide authoritative live snapshots.
    pub fn supports_live_snapshots(self) -> (live: bool)
        ensures
            live == self.is_live(),
    {
        match self {
            BufferSyncCapability::Native | BufferSyncCapability::Probe => true,
            _ => false,
        }
    }
}

/// A capability with the probe counter that came with it.
pub struct CapabilityView {
    pub capability: BufferSyncCapability,
    pub last_nonce: Option<u64>,
}

/// One fresh runtime capability handshake for a decoder epoch.
#[derive(Clone, Copy, Debug, PartialEq, Eq)]
pub struct CapabilityAnnouncement {
    capability: BufferSyncCapability,
    last_probe_nonce: Option<SnapshotNonce>,
}

impl View for CapabilityAnnouncement {
    type V = CapabilityView;

    closed spec fn view(&self) -> CapabilityView {
        CapabilityView { capability: self.capability, last_nonce: nonce_value(self.last_probe_nonce) }
    }
}

impl CapabilityAnnouncement {
    /// Announced synchronization capability.
    pub fn capability(self) -> (capability: BufferSyncCapability)
        ensures
            capability == self@.capability,
    {
        self.capability
    }

    /// Probe counter base announced by a probe adapter.
    pub fn last_probe_nonce(self) -> (nonce: Option<SnapshotNonce>)
        ensures
            nonce_value(nonce) == self@.last_nonce,
    {
        self.last_probe_nonce
    }
}

/// What one shell event says.
#[verifier::ext_equal]
pub enum EventView {
    Buffer(SnapshotView),
    PromptReady,
    CommandStart(Seq<u8>),
    CommandStartUnknown,
    CommandStop(u8),
    Capability(CapabilityView),
    WorkingDirectory(Seq<u8>),
    ReloadRequest(u32),
}

/// One syntactically and semantically validated shell event.
#[derive(Clone, PartialEq, Eq)]
pub enum ShellEvent {
    /// A cursor-bearing editing snapshot awaiting reducer correlation.
    Buffer(BufferSnapshot),
    /// The prompt is ready with an empty editing buffer.
    PromptReady,
    /// A command started, with exact submitted bytes where the shell exposes them.
    CommandStart(SubmittedCommand),
    /// A command started but this shell could not expose exact bytes at preexec.
    CommandStartUnknown,
    /// A foreground command stopped with the supplied status.
    CommandStop(ShellExitStatus),
    /// The shell adapter announced its live synchronization capability.
    Capability(CapabilityAnnouncement),
    /// The shell reported its current absolute working directory.
    WorkingDirectory(ShellWorkingDirectory),
    /// An inherited child requested a correlated live configuration reload.
    ReloadRequest(ReloadRequest),
}

impl View for ShellEvent {
    type V = EventView;

    open spec fn view(&self) -> EventView {
        match *self {
            ShellEvent::Buffer(snapshot) => EventView::Buffer(snapshot@),
            ShellEvent::PromptReady => EventView::PromptReady,
            ShellEvent::CommandStart(command) => EventView::CommandStart(command@),
            ShellEvent::CommandStartUnknown => EventView::CommandStartUnknown,
            ShellEvent::CommandStop(status) => EventView::CommandStop(status@),
            ShellEvent::Capability(announcement) => EventView::Capability(announcement@),
            ShellEvent::WorkingDirectory(directory) => EventView::WorkingDirectory(directory@),
            ShellEvent::ReloadRequest(request) => EventView::ReloadRequest(request@),
        }
    }
}

impl ShellEvent {
    /// Text of [`Self::debug_text`].
    pub open spec fn debug_chars(event: EventView) -> Seq<char> {
        match event {
            EventView::Buffer(snapshot) => "Buffer("@ + snapshot_debug_chars(snapshot) + ")"@,
            EventView::PromptReady => "PromptReady"@,
            EventView::CommandStart(command) => "CommandStart(SubmittedCommand { byte_count: "@
                + decimal_chars(command.len()) + " })"@,
            EventView::CommandStartUnknown => "CommandStartUnknown"@,
            EventView::CommandStop(status) => "CommandStop(ShellExitStatus("@ + decimal_chars(
                status as nat,
            ) + "))"@,
            EventView::Capability(announced) => "Capability(CapabilityAnnouncement { capability: "@
                + announced.capability.name_chars() + ", last_probe_nonce: "@ + nonce_debug_chars(
                announced.last_nonce,
            ) + " })"@,
            EventView::WorkingDirectory(directory) =>
                "WorkingDirectory(ShellWorkingDirectory { path_bytes: "@ + decimal_chars(directory.len())
                + " })"@,
            EventView::ReloadRequest(request) => "ReloadRequest(ReloadRequest("@ + decimal_chars(
                request as nat,
            ) + "))"@,
        }
    }

    /// Diagnostic summary, which shows sizes and never payload bytes.
    pub fn debug_text(&self) -> (summary: String)
        ensures
            summary@ == Self::debug_chars(self@),
    {
        match self {
            ShellEvent::Buffer(snapshot) => {
                let mut summary = "Buffer(".to_owned();
                summary.append(snapshot.debug_text().as_str());
                summary.append(")");
                summary
            },
            ShellEvent::PromptReady => "PromptReady".to_owned(),
            ShellEvent::CommandStart(command) => {
                let mut summary = "CommandStart(SubmittedCommand { byte_count: ".to_owned();
                append_number(&mut summary, command.len() as u128);
                summary.append(" })");
                summary
            },
            ShellEvent::CommandStartUnknown => "CommandStartUnknown".to_owned(),
            ShellEvent::CommandStop(status) => {
                let mut summary = "CommandStop(ShellExitStatus(".to_owned();
                append_number(&mut summary, status.get() as u128);
                summary.append("))");
                summary
            },
            ShellEvent::Capability(announced) => {
                let mut summary = "Capability(CapabilityAnnouncement { capability: ".to_owned();
                summary.append(announced.capability().name());
                summary.append(", last_probe_nonce: ");
                append_nonce(&mut summary, announced.last_probe_nonce());
                summary.append(" })");
                summary
            },
            ShellEvent::WorkingDirectory(directory) => {
                let mut summary = "WorkingDirectory(ShellWorkingDirectory { path_bytes: ".to_owned();
                append_number(&mut summary, directory.as_path().len() as u128);
                summary.append(" })");
                summary
            },
            ShellEvent::ReloadRequest(request) => {
                let mut summary = "ReloadRequest(ReloadRequest(".to_owned();
                append_number(&mut summary, request.nonce() as u128);
                summary.append("))");
                summary
            },
        }
    }
}

/// Monotonic identifier for one decoder stream lifetime.
#[derive(Clone, Copy, Debug, PartialEq, Eq, PartialOrd, Ord, Hash, Structural)]
pub struct StreamEpoch(u64);

impl View for StreamEpoch {
    type V = u64;

    closed spec fn view(&self) -> u64 {
        self.0
    }
}

impl StreamEpoch {
    /// Epoch for the first decoder in a session.
    pub fn initial() -> (epoch: Self)
        ensures
            epoch@ == 0,
    {
        StreamEpoch(0)
    }

    /// Numeric epoch.
    pub fn get(self) -> (value: u64)
        ensures
            value == self@,
    {
        self.0
    }

    /// Next epoch, or `None` after the numeric space is exhausted.
    pub fn next(self) -> (next: Option<Self>)
        ensures
            next is None <==> self@ == u64::MAX,
            next matches Some(epoch) ==> epoch@ == self@ + 1,
    {
        match self.0.checked_add(1) {
            Some(epoch) => Some(StreamEpoch(epoch)),
            None => None,
        }
    }
}

/// A stream epoch with a place in it.
pub struct PositionView {
    pub epoch: u64,
    pub sequence: u128,
}

/// Unique position of a frame within a session stream.
#[derive(Clone, Copy, Debug, PartialEq, Eq, PartialOrd, Ord, Hash, Structural)]
pub struct FramePosition {
    epoch: StreamEpoch,
    sequence: u128,
}

impl View for FramePosition {
    type V = PositionView;

    closed spec fn view(&self) -> PositionView {
        PositionView { epoch: self.epoch@, sequence: self.sequence }
    }
}

impl FramePosition {
    /// Stream epoch.
    pub fn epoch(self) -> (epoch: StreamEpoch)
        ensures
            epoch@ == self@.epoch,
    {
        self.epoch
    }

    /// Zero-based sequence within the epoch.
    pub fn sequence(self) -> (sequence: u128)
        ensures
            sequence == self@.sequence,
    {
        self.sequence
    }
}

/// A stream epoch with a count of local inputs.
pub struct GenerationView {
    pub epoch: u64,
    pub sequence: u64,
}

/// Authority generation advanced before each locally forwarded editing input.
#[derive(Clone, Copy, Debug, PartialEq, Eq, PartialOrd, Ord, Hash, Structural)]
pub struct InputGeneration {
    epoch: StreamEpoch,
    sequence: u64,
}

impl View for InputGeneration {
    type V = GenerationView;

    closed spec fn view(&self) -> GenerationView {
        GenerationView { epoch: self.epoch@, sequence: self.sequence }
    }
}

impl InputGeneration {
    /// Stream epoch in which this generation was issued.
    pub fn epoch(self) -> (epoch: StreamEpoch)
        ensures
            epoch@ == self@.epoch,
    {
        self.epoch
    }

    /// Local-input sequence within the epoch.
    pub fn sequence(self) -> (sequence: u64)
        ensures
            sequence == self@.sequence,
    {
        self.sequence
    }
}

/// A valid event paired with its stream position.
#[derive(Clone, PartialEq, Eq)]
pub struct SequencedShellEvent {
    position: FramePosition,
    event: ShellEvent,
}

impl View for SequencedShellEvent {
    type V = (PositionView, EventView);

    closed spec fn view(&self) -> (PositionView, EventView) {
        (self.position@, self.event@)
    }
}

impl SequencedShellEvent {
    /// This event's stream position.
    pub fn position(&self) -> (position: FramePosition)
        ensures
            position@ == self@.0,
    {
        self.position
    }

    /// Borrows the decoded event.
    pub fn event(&self) -> (event: &ShellEvent)
        ensures
            event@ == self@.1,
    {
        &self.event
    }
}

/// Reason a complete protocol frame was rejected.
#[derive(Clone, Copy, Debug, PartialEq, Eq, Structural)]
pub enum FrameError {
    /// The frame contained no bytes before its terminator.
    EmptyFrame,
    /// The frame did not have a recognized event name.
    UnknownEvent,
    /// A cursor field was absent or lacked its payload separator.
    MissingCursor,
    /// A cursor contained something other than ASCII decimal digits.
    NonDecimalCursor,
    /// A cursor was outside the reported buffer.
    CursorOutOfRange,
    /// A byte cursor split a UTF-8 code point.
    CursorNotUtf8Boundary,
    /// An authoritative editing snapshot was not valid UTF-8.
    InvalidBufferUtf8,
    /// A probe snapshot or handshake omitted its decimal nonce.
    MissingProbeNonce,
    /// A probe nonce contained something other than ASCII decimal digits.
    NonDecimalProbeNonce,
    /// A probe nonce exceeded the supported numeric range.
    ProbeNonceOutOfRange,
    /// A Fish snapshot omitted the one print terminator required by its frame.
    MissingFishPrintTerminator,
    /// `command-stop:` had no status value.
    MissingExitStatus,
    /// A command status contained something other than ASCII decimal digits.
    NonDecimalExitStatus,
    /// A decimal command status was outside the shell's 0 through 255 range.
    ExitStatusOutOfRange,
    /// A working-directory frame was empty, relative, or exceeded its bound.
    InvalidWorkingDirectory,
    /// A reload request nonce was missing or not an unsigned 32-bit integer.
    InvalidReloadRequest,
    /// A lifecycle frame claimed an empty submitted command.
    EmptySubmittedCommand,
    /// The frame exceeded the configured byte limit.
    FrameTooLarge {
        /// Number of bytes observed, saturated at the largest machine word.
        observed_bytes: usize,
        /// Configured maximum frame size.
        limit: usize,
    },
    /// End of input occurred before a frame terminator.
    TruncatedFrame {
        /// Number of bytes buffered at end of input.
        observed_bytes: usize,
    },
}

impl FrameError {
    /// Text of [`Self::message`].
    pub open spec fn text(self) -> Seq<char> {
        match self {
            FrameError::EmptyFrame => "empty shell event frame"@,
            FrameError::UnknownEvent => "unknown shell event"@,
            FrameError::MissingCursor => "shell buffer cursor is missing"@,
            FrameError::NonDecimalCursor => "shell buffer cursor is not unsigned decimal"@,
            FrameError::CursorOutOfRange => "shell buffer cursor is out of range"@,
            FrameError::CursorNotUtf8Boundary => "shell buffer cursor splits a UTF-8 code point"@,
            FrameError::InvalidBufferUtf8 => "shell buffer is not valid UTF-8"@,
            FrameError::MissingProbeNonce => "shell snapshot probe nonce is missing"@,
            FrameError::NonDecimalProbeNonce => "shell snapshot probe nonce is not unsigned decimal"@,
            FrameError::ProbeNonceOutOfRange => "shell snapshot probe nonce is out of range"@,
            FrameError::MissingFishPrintTerminator => "Fish shell snapshot print terminator is missing"@,
            FrameError::MissingExitStatus => "shell exit status is missing"@,
            FrameError::NonDecimalExitStatus => "shell exit status is not unsigned decimal"@,
            FrameError::ExitStatusOutOfRange => "shell exit status is outside 0 through 255"@,
            FrameError::InvalidWorkingDirectory => "shell working directory is not a bounded absolute path"@,
            FrameError::InvalidReloadRequest => "active-session reload request is invalid"@,
            FrameError::EmptySubmittedCommand => "submitted command is empty"@,
            FrameError::FrameTooLarge { observed_bytes, limit } => "shell event frame is "@ + decimal_chars(observed_bytes as nat) + " bytes; limit is "@ + decimal_chars(limit as nat),
            FrameError::TruncatedFrame { observed_bytes } => "shell event frame ended after "@ + decimal_chars(observed_bytes as nat) + " bytes without a terminator"@,
        }
    }

    /// Human-readable description.
    pub fn message(&self) -> (message: String)
        ensures
            message@ == self.text(),
    {
        match *self {
            FrameError::EmptyFrame => "empty shell event frame".to_owned(),
            FrameError::UnknownEvent => "unknown shell event".to_owned(),
            FrameError::MissingCursor => "shell buffer cursor is missing".to_owned(),
            FrameError::NonDecimalCursor => "shell buffer cursor is not unsigned decimal".to_owned(),
            FrameError::CursorOutOfRange => "shell buffer cursor is out of range".to_owned(),
            FrameError::CursorNotUtf8Boundary => "shell buffer cursor splits a UTF-8 code point".to_owned(),
            FrameError::InvalidBufferUtf8 => "shell buffer is not valid UTF-8".to_owned(),
            FrameError::MissingProbeNonce => "shell snapshot probe nonce is missing".to_owned(),
            FrameError::NonDecimalProbeNonce => "shell snapshot probe nonce is not unsigned decimal".to_owned(),
            FrameError::ProbeNonceOutOfRange => "shell snapshot probe nonce is out of range".to_owned(),
            FrameError::MissingFishPrintTerminator => "Fish shell snapshot print terminator is missing".to_owned(),
            FrameError::MissingExitStatus => "shell exit status is missing".to_owned(),
            FrameError::NonDecimalExitStatus => "shell exit status is not unsigned decimal".to_owned(),
            FrameError::ExitStatusOutOfRange => "shell exit status is outside 0 through 255".to_owned(),
            FrameError::InvalidWorkingDirectory => "shell working directory is not a bounded absolute path".to_owned(),
            FrameError::InvalidReloadRequest => "active-session reload request is invalid".to_owned(),
            FrameError::EmptySubmittedCommand => "submitted command is empty".to_owned(),
            FrameError::FrameTooLarge { observed_bytes, limit } => {
                let mut message = "shell event frame is ".to_owned();
                append_number(&mut message, observed_bytes as u128);
                message.append(" bytes; limit is ");
                append_number(&mut message, limit as u128);
                message
            },
            FrameError::TruncatedFrame { observed_bytes } => {
                let mut message = "shell event frame ended after ".to_owned();
                append_number(&mut message, observed_bytes as u128);
                message.append(" bytes without a terminator");
                message
            },
        }
    }
}

impl FrameError {
    /// Text of [`Self::debug_text`].
    pub open spec fn debug_chars(self) -> Seq<char> {
        match self {
            FrameError::EmptyFrame => "EmptyFrame"@,
            FrameError::UnknownEvent => "UnknownEvent"@,
            FrameError::MissingCursor => "MissingCursor"@,
            FrameError::NonDecimalCursor => "NonDecimalCursor"@,
            FrameError::CursorOutOfRange => "CursorOutOfRange"@,
            FrameError::CursorNotUtf8Boundary => "CursorNotUtf8Boundary"@,
            FrameError::InvalidBufferUtf8 => "InvalidBufferUtf8"@,
            FrameError::MissingProbeNonce => "MissingProbeNonce"@,
            FrameError::NonDecimalProbeNonce => "NonDecimalProbeNonce"@,
            FrameError::ProbeNonceOutOfRange => "ProbeNonceOutOfRange"@,
            FrameError::MissingFishPrintTerminator => "MissingFishPrintTerminator"@,
            FrameError::MissingExitStatus => "MissingExitStatus"@,
            FrameError::NonDecimalExitStatus => "NonDecimalExitStatus"@,
            FrameError::ExitStatusOutOfRange => "ExitStatusOutOfRange"@,
            FrameError::InvalidWorkingDirectory => "InvalidWorkingDirectory"@,
            FrameError::InvalidReloadRequest => "InvalidReloadRequest"@,
            FrameError::EmptySubmittedCommand => "EmptySubmittedCommand"@,
            FrameError::FrameTooLarge { observed_bytes, limit } => "FrameTooLarge { observed_bytes: "@
                + decimal_chars(observed_bytes as nat) + ", limit: "@ + decimal_chars(limit as nat)
                + " }"@,
            FrameError::TruncatedFrame { observed_bytes } => "TruncatedFrame { observed_bytes: "@
                + decimal_chars(observed_bytes as nat) + " }"@,
        }
    }

    /// Diagnostic name with its numbers.
    pub fn debug_text(&self) -> (summary: String)
        ensures
            summary@ == self.debug_chars(),
    {
        match *self {
            FrameError::EmptyFrame => "EmptyFrame".to_owned(),
            FrameError::UnknownEvent => "UnknownEvent".to_owned(),
            FrameError::MissingCursor => "MissingCursor".to_owned(),
            FrameError::NonDecimalCursor => "NonDecimalCursor".to_owned(),
            FrameError::CursorOutOfRange => "CursorOutOfRange".to_owned(),
            FrameError::CursorNotUtf8Boundary => "CursorNotUtf8Boundary".to_owned(),
            FrameError::InvalidBufferUtf8 => "InvalidBufferUtf8".to_owned(),
            FrameError::MissingProbeNonce => "MissingProbeNonce".to_owned(),
            FrameError::NonDecimalProbeNonce => "NonDecimalProbeNonce".to_owned(),
            FrameError::ProbeNonceOutOfRange => "ProbeNonceOutOfRange".to_owned(),
            FrameError::MissingFishPrintTerminator => "MissingFishPrintTerminator".to_owned(),
            FrameError::MissingExitStatus => "MissingExitStatus".to_owned(),
            FrameError::NonDecimalExitStatus => "NonDecimalExitStatus".to_owned(),
            FrameError::ExitStatusOutOfRange => "ExitStatusOutOfRange".to_owned(),
            FrameError::InvalidWorkingDirectory => "InvalidWorkingDirectory".to_owned(),
            FrameError::InvalidReloadRequest => "InvalidReloadRequest".to_owned(),
            FrameError::EmptySubmittedCommand => "EmptySubmittedCommand".to_owned(),
            FrameError::FrameTooLarge { observed_bytes, limit } => {
                let mut summary = "FrameTooLarge { observed_bytes: ".to_owned();
                append_number(&mut summary, observed_bytes as u128);
                summary.append(", limit: ");
                append_number(&mut summary, limit as u128);
                summary.append(" }");
                summary
            },
            FrameError::TruncatedFrame { observed_bytes } => {
                let mut summary = "TruncatedFrame { observed_bytes: ".to_owned();
                append_number(&mut summary, observed_bytes as u128);
                summary.append(" }");
                summary
            },
        }
    }
}

/// A rejected frame paired with its stream position.
#[derive(Clone, PartialEq, Eq, Debug)]
pub struct RejectedFrame {
    position: FramePosition,
    error: FrameError,
}

impl View for RejectedFrame {
    type V = (PositionView, FrameError);

    closed spec fn view(&self) -> (PositionView, FrameError) {
        (self.position@, self.error)
    }
}

impl RejectedFrame {
    /// This frame's stream position.
    pub fn position(&self) -> (position: FramePosition)
        ensures
            position@ == self@.0,
    {
        self.position
    }

    /// Why the frame was rejected.
    pub fn error(&self) -> (error: &FrameError)
        ensures
            *error == self@.1,
    {
        &self.error
    }
}

/// One complete result of the stream: its position, and the event or the
/// reason why there is none.
#[verifier::ext_equal]
pub struct FrameView {
    pub position: PositionView,
    pub content: Result<EventView, FrameError>,
}

/// One complete result from the framed byte stream.
#[derive(Clone, PartialEq, Eq)]
pub enum DecodedFrame {
    /// A valid event.
    Event(SequencedShellEvent),
    /// An isolated protocol error; later frames remain decodable.
    Rejected(RejectedFrame),
}

impl View for DecodedFrame {
    type V = FrameView;

    open spec fn view(&self) -> FrameView {
        match *self {
            DecodedFrame::Event(event) => FrameView { position: event@.0, content: Ok(event@.1) },
            DecodedFrame::Rejected(frame) => FrameView { position: frame@.0, content: Err(frame@.1) },
        }
    }
}

impl DecodedFrame {
    /// The frame's stream position.
    pub fn position(&self) -> (position: FramePosition)
        ensures
            position@ == self@.position,
    {
        match self {
            DecodedFrame::Event(event) => event.position(),
            DecodedFrame::Rejected(frame) => frame.position(),
        }
    }

    /// Diagnostic summary, which never shows payload bytes.
    pub fn debug_text(&self) -> (summary: String)
        ensures
            summary@ == match self@.content {
                Ok(event) => "Event(SequencedShellEvent { position: "@ + frame_position_chars(
                    self@.position,
                ) + ", event: "@ + ShellEvent::debug_chars(event) + " })"@,
                Err(error) => "Rejected(RejectedFrame { position: "@ + frame_position_chars(
                    self@.position,
                ) + ", error: "@ + error.debug_chars() + " })"@,
            },
    {
        match self {
            DecodedFrame::Event(event) => {
                let mut summary = "Event(SequencedShellEvent { position: ".to_owned();
                append_frame_position(&mut summary, event.position());
                summary.append(", event: ");
                summary.append(event.event().debug_text().as_str());
                summary.append(" })");
                summary
            },
            DecodedFrame::Rejected(frame) => {
                let mut summary = "Rejected(RejectedFrame { position: ".to_owned();
                append_frame_position(&mut summary, frame.position());
                summary.append(", error: ");
                summary.append(frame.error().debug_text().as_str());
                summary.append(" })");
                summary
            },
        }
    }
}

/// Failure to advance a decoder or reducer stream epoch.
#[derive(Clone, Copy, Debug, PartialEq, Eq, Structural)]
pub enum StreamResetError {
    /// No later numeric epoch exists.
    EpochExhausted,
    /// A reducer reset did not provide a newer epoch.
    NonIncreasingEpoch,
}

/// Failure to advance local editing authority.
#[derive(Clone, Copy, Debug, PartialEq, Eq, Structural)]
pub enum InputGenerationError {
    /// Every local-input generation in the active epoch was issued.
    Exhausted,
}

/// A reserved synchronization probe could not be issued safely.
#[derive(Clone, Copy, Debug, PartialEq, Eq, Structural)]
pub enum ProbeRequestError {
    /// The active adapter did not complete a probe-capability handshake.
    CapabilityUnavailable,
    /// The shell is not at an idle editable prompt.
    NotAtEditablePrompt,
    /// A prior probe response is still outstanding.
    AlreadyPending,
    /// The adapter's probe nonce space was exhausted.
    NonceExhausted,
}

impl StreamResetError {
    /// Text of [`Self::message`].
    pub open spec fn text(self) -> Seq<char> {
        match self {
            StreamResetError::EpochExhausted => "shell event stream epoch is exhausted"@,
            StreamResetError::NonIncreasingEpoch => "new shell event epoch must increase"@,
        }
    }

    /// Human-readable description.
    pub fn message(&self) -> (message: String)
        ensures
            message@ == self.text(),
    {
        match *self {
            StreamResetError::EpochExhausted => "shell event stream epoch is exhausted".to_owned(),
            StreamResetError::NonIncreasingEpoch => "new shell event epoch must increase".to_owned(),
        }
    }
}

impl InputGenerationError {
    /// Text of [`Self::message`].
    pub open spec fn text(self) -> Seq<char> {
        match self {
            InputGenerationError::Exhausted => "local shell-input generation is exhausted"@,
        }
    }

    /// Human-readable description.
    pub fn message(&self) -> (message: String)
        ensures
            message@ == self.text(),
    {
        match *self {
            InputGenerationError::Exhausted => "local shell-input generation is exhausted".to_owned(),
        }
    }
}

impl ProbeRequestError {
    /// Name of the variant.
    pub open spec fn name_chars(self) -> Seq<char> {
        match self {
            ProbeRequestError::CapabilityUnavailable => "CapabilityUnavailable"@,
            ProbeRequestError::NotAtEditablePrompt => "NotAtEditablePrompt"@,
            ProbeRequestError::AlreadyPending => "AlreadyPending"@,
            ProbeRequestError::NonceExhausted => "NonceExhausted"@,
        }
    }

    /// Name of the variant.
    pub fn name(self) -> (name: &'static str)
        ensures
            name@ == self.name_chars(),
    {
        match self {
            ProbeRequestError::CapabilityUnavailable => "CapabilityUnavailable",
            ProbeRequestError::NotAtEditablePrompt => "NotAtEditablePrompt",
            ProbeRequestError::AlreadyPending => "AlreadyPending",
            ProbeRequestError::NonceExhausted => "NonceExhausted",
        }
    }
}

impl ProbeRequestError {
    /// Text of [`Self::message`].
    pub open spec fn text(self) -> Seq<char> {
        match self {
            ProbeRequestError::CapabilityUnavailable => "shell snapshot probe capability is unavailable"@,
            ProbeRequestError::NotAtEditablePrompt => "shell is not at an editable prompt"@,
            ProbeRequestError::AlreadyPending => "a shell snapshot probe is already pending"@,
            ProbeRequestError::NonceExhausted => "shell snapshot probe nonce is exhausted"@,
        }
    }

    /// Human-readable description.
    pub fn message(&self) -> (message: String)
        ensures
            message@ == self.text(),
    {
        match *self {
            ProbeRequestError::CapabilityUnavailable => "shell snapshot probe capability is unavailable".to_owned(),
            ProbeRequestError::NotAtEditablePrompt => "shell is not at an editable prompt".to_owned(),
            ProbeRequestError::AlreadyPending => "a shell snapshot probe is already pending".to_owned(),
            ProbeRequestError::NonceExhausted => "shell snapshot probe nonce is exhausted".to_owned(),
        }
    }
}

/// Unit in which a frame counts its cursor.
#[derive(Clone, Copy, PartialEq, Eq, Structural)]
pub enum CursorUnit {
    /// Bytes of the UTF-8 encoding.
    Bytes,
    /// Characters.
    Characters,
    /// Characters, in a payload that ends with one printed line feed.
    FishCharacters,
}

/// Reading of a decimal field in which superfluous zeros are allowed.
pub enum Numeral {
    Missing,
    NonDecimal,
    OutOfRange,
    Number(nat),
}

/// How `bytes` read as a number that must not exceed `maximum`.
pub open spec fn numeral(bytes: Seq<u8>, maximum: nat) -> Numeral {
    if bytes.len() == 0 {
        Numeral::Missing
    } else if !all_digits(bytes) {
        Numeral::NonDecimal
    } else if decimal_value(bytes) > maximum {
        Numeral::OutOfRange
    } else {
        Numeral::Number(decimal_value(bytes))
    }
}

/// Byte offset of a cursor in a buffer that is valid UTF-8.
pub open spec fn cursor_meaning(bytes: Seq<u8>, unit: CursorUnit, cursor: nat) -> Result<int, FrameError> {
    if unit is Bytes {
        if cursor > bytes.len() {
            Err(FrameError::CursorOutOfRange)
        } else if !is_char_boundary(bytes, cursor as int) {
            Err(FrameError::CursorNotUtf8Boundary)
        } else {
            Ok(cursor as int)
        }
    } else if cursor > decode_utf8(bytes).len() {
        Err(FrameError::CursorOutOfRange)
    } else {
        Ok(encode_utf8(decode_utf8(bytes).subrange(0, cursor as int)).len() as int)
    }
}

/// What the payload of a buffer frame, behind its cursor, says.
pub open spec fn payload_meaning(
    payload: Seq<u8>,
    unit: CursorUnit,
    cursor: nat,
    nonce: Option<u64>,
) -> Result<SnapshotView, FrameError> {
    if unit is FishCharacters && (payload.len() == 0 || payload.last() != 10) {
        Err(FrameError::MissingFishPrintTerminator)
    } else {
        let bytes = if unit is FishCharacters {
            payload.drop_last()
        } else {
            payload
        };
        if !valid_utf8(bytes) {
            Err(FrameError::InvalidBufferUtf8)
        } else {
            match cursor_meaning(bytes, unit, cursor) {
                Ok(offset) => Ok(SnapshotView { bytes, cursor: offset, nonce }),
                Err(error) => Err(error),
            }
        }
    }
}

/// What a buffer frame says behind its prefix: `CURSOR:PAYLOAD`.
pub open spec fn buffer_meaning(frame: Seq<u8>, unit: CursorUnit, nonce: Option<u64>) -> Result<
    SnapshotView,
    FrameError,
> {
    let colon = first_index(frame, 58);
    if colon >= frame.len() {
        Err(FrameError::MissingCursor)
    } else {
        match numeral(frame.subrange(0, colon), usize::MAX as nat) {
            Numeral::Missing => Err(FrameError::MissingCursor),
            Numeral::NonDecimal => Err(FrameError::NonDecimalCursor),
            Numeral::OutOfRange => Err(FrameError::CursorOutOfRange),
            Numeral::Number(cursor) => payload_meaning(skip_bytes(frame, colon + 1), unit, cursor, nonce),
        }
    }
}

/// What a decimal nonce field says.
pub open spec fn nonce_meaning(bytes: Seq<u8>) -> Result<u64, FrameError> {
    match numeral(bytes, u64::MAX as nat) {
        Numeral::Missing => Err(FrameError::MissingProbeNonce),
        Numeral::NonDecimal => Err(FrameError::NonDecimalProbeNonce),
        Numeral::OutOfRange => Err(FrameError::ProbeNonceOutOfRange),
        Numeral::Number(value) => Ok(value as u64),
    }
}

/// What a probe-buffer frame says behind its prefix: `NONCE:CURSOR:PAYLOAD`.
pub open spec fn probe_buffer_meaning(frame: Seq<u8>, unit: CursorUnit) -> Result<SnapshotView, FrameError> {
    let colon = first_index(frame, 58);
    if colon >= frame.len() {
        Err(FrameError::MissingProbeNonce)
    } else {
        match nonce_meaning(frame.subrange(0, colon)) {
            Err(error) => Err(error),
            Ok(nonce) => buffer_meaning(skip_bytes(frame, colon + 1), unit, Some(nonce)),
        }
    }
}

/// What the status field of a stopped command says.
pub open spec fn status_meaning(status: Seq<u8>) -> Result<u8, FrameError> {
    match numeral(status, 255) {
        Numeral::Missing => Err(FrameError::MissingExitStatus),
        Numeral::NonDecimal => Err(FrameError::NonDecimalExitStatus),
        Numeral::OutOfRange => Err(FrameError::ExitStatusOutOfRange),
        Numeral::Number(value) => Ok(value as u8),
    }
}

/// What the nonce of a reload request says: a canonical positive 32-bit number.
pub open spec fn reload_meaning(nonce: Seq<u8>) -> Result<u32, FrameError> {
    if canonical_decimal(nonce) && nonce.len() <= 10 && 0 < decimal_value(nonce) <= u32::MAX {
        Ok(decimal_value(nonce) as u32)
    } else {
        Err(FrameError::InvalidReloadRequest)
    }
}

/// Wraps what a buffer frame says as an event.
pub open spec fn buffer_event(snapshot: Result<SnapshotView, FrameError>) -> Result<EventView, FrameError> {
    match snapshot {
        Ok(view) => Ok(EventView::Buffer(view)),
        Err(error) => Err(error),
    }
}

/// What remains of `frame` behind the literal `prefix`.
pub open spec fn behind(frame: Seq<u8>, prefix: &str) -> Seq<u8> {
    skip_bytes(frame, prefix.spec_bytes().len() as int)
}

/// What a capability frame says, or nothing for another frame.
pub open spec fn capability_meaning(frame: Seq<u8>) -> Option<Result<CapabilityView, FrameError>> {
    if frame == "capability:native-buffer".spec_bytes() {
        Some(Ok(CapabilityView { capability: BufferSyncCapability::Native, last_nonce: None }))
    } else if has_prefix(frame, "capability:sync-probe:".spec_bytes()) {
        match nonce_meaning(behind(frame, "capability:sync-probe:")) {
            Ok(nonce) => Some(
                Ok(CapabilityView { capability: BufferSyncCapability::Probe, last_nonce: Some(nonce) }),
            ),
            Err(error) => Some(Err(error)),
        }
    } else if frame == "capability:unavailable".spec_bytes() {
        Some(Ok(CapabilityView { capability: BufferSyncCapability::Unavailable, last_nonce: None }))
    } else {
        None
    }
}

/// What a frame says that reports no editing buffer.
pub open spec fn lifecycle_meaning(frame: Seq<u8>) -> Result<EventView, FrameError> {
    if frame == "prompt-ready".spec_bytes() {
        Ok(EventView::PromptReady)
    } else if has_prefix(frame, "cwd:".spec_bytes()) {
        if reportable_directory(behind(frame, "cwd:")) {
            Ok(EventView::WorkingDirectory(behind(frame, "cwd:")))
        } else {
            Err(FrameError::InvalidWorkingDirectory)
        }
    } else if has_prefix(frame, "reload-request:".spec_bytes()) {
        match reload_meaning(behind(frame, "reload-request:")) {
            Ok(nonce) => Ok(EventView::ReloadRequest(nonce)),
            Err(error) => Err(error),
        }
    } else if frame == "command-start-unknown".spec_bytes() {
        Ok(EventView::CommandStartUnknown)
    } else if has_prefix(frame, "command-start:".spec_bytes()) {
        if behind(frame, "command-start:").len() == 0 {
            Err(FrameError::EmptySubmittedCommand)
        } else {
            Ok(EventView::CommandStart(behind(frame, "command-start:")))
        }
    } else {
        match capability_meaning(frame) {
            Some(Ok(capability)) => Ok(EventView::Capability(capability)),
            Some(Err(error)) => Err(error),
            None => if has_prefix(frame, "command-stop:".spec_bytes()) {
                match status_meaning(behind(frame, "command-stop:")) {
                    Ok(status) => Ok(EventView::CommandStop(status)),
                    Err(error) => Err(error),
                }
            } else {
                Err(FrameError::UnknownEvent)
            },
        }
    }
}

/// What one frame, without its terminator, says.
pub open spec fn event_meaning(frame: Seq<u8>) -> Result<EventView, FrameError> {
    if frame.len() == 0 {
        Err(FrameError::EmptyFrame)
    } else if has_prefix(frame, "probe-buffer:b:".spec_bytes()) {
        buffer_event(probe_buffer_meaning(behind(frame, "probe-buffer:b:"), CursorUnit::Bytes))
    } else if has_prefix(frame, "probe-buffer:c:".spec_bytes()) {
        buffer_event(probe_buffer_meaning(behind(frame, "probe-buffer:c:"), CursorUnit::Characters))
    } else if has_prefix(frame, "probe-buffer:f:".spec_bytes()) {
        buffer_event(probe_buffer_meaning(behind(frame, "probe-buffer:f:"), CursorUnit::FishCharacters))
    } else if has_prefix(frame, "buffer:b:".spec_bytes()) {
        buffer_event(buffer_meaning(behind(frame, "buffer:b:"), CursorUnit::Bytes, None))
    } else if has_prefix(frame, "buffer:c:".spec_bytes()) {
        buffer_event(buffer_meaning(behind(frame, "buffer:c:"), CursorUnit::Characters, None))
    } else {
        lifecycle_meaning(frame)
    }
}

/// Whether a snapshot read from a frame is what the frame says.
pub open spec fn snapshot_agrees(
    result: Result<BufferSnapshot, FrameError>,
    meaning: Result<SnapshotView, FrameError>,
) -> bool {
    match result {
        Ok(snapshot) => meaning == Ok::<SnapshotView, FrameError>(snapshot@),
        Err(error) => meaning == Err::<SnapshotView, FrameError>(error),
    }
}

/// Whether an event read from a frame is what the frame says.
pub open spec fn event_agrees(
    result: Result<ShellEvent, FrameError>,
    meaning: Result<EventView, FrameError>,
) -> bool {
    match result {
        Ok(event) => meaning == Ok::<EventView, FrameError>(event@),
        Err(error) => meaning == Err::<EventView, FrameError>(error),
    }
}

/// Rest of `frame` behind `prefix`, if it starts with it.
fn strip_prefix<'a>(frame: &'a [u8], prefix: &'static str) -> (rest: Option<&'a [u8]>)
    ensures
        rest is Some <==> has_prefix(frame@, prefix.spec_bytes()),
        rest matches Some(r) ==> r@ == behind(frame@, prefix),
{
    let literal: &[u8] = prefix.as_bytes();
    if starts_with(frame, literal) {
        Some(vstd::slice::slice_subrange(frame, literal.len(), frame.len()))
    } else {
        None
    }
}

/// Reads one frame, given without its terminator.
pub fn parse_frame(frame: &[u8]) -> (result: Result<ShellEvent, FrameError>)
    ensures
        event_agrees(result, event_meaning(frame@)),
{
    if frame.len() == 0 {
        return Err(FrameError::EmptyFrame);
    }
    if let Some(rest) = strip_prefix(frame, PROBE_BUFFER_BYTE_PREFIX) {
        return wrap_buffer(parse_probe_buffer(rest, CursorUnit::Bytes));
    }
    if let Some(rest) = strip_prefix(frame, PROBE_BUFFER_CHARACTER_PREFIX) {
        return wrap_buffer(parse_probe_buffer(rest, CursorUnit::Characters));
    }
    if let Some(rest) = strip_prefix(frame, PROBE_BUFFER_FISH_PREFIX) {
        return wrap_buffer(parse_probe_buffer(rest, CursorUnit::FishCharacters));
    }
    if let Some(rest) = strip_prefix(frame, BUFFER_BYTE_PREFIX) {
        return wrap_buffer(parse_buffer(rest, CursorUnit::Bytes, None));
    }
    if let Some(rest) = strip_prefix(frame, BUFFER_CHARACTER_PREFIX) {
        return wrap_buffer(parse_buffer(rest, CursorUnit::Characters, None));
    }
    parse_lifecycle(frame)
}

fn wrap_buffer(result: Result<BufferSnapshot, FrameError>) -> (event: Result<ShellEvent, FrameError>)
    ensures
        match result {
            Ok(snapshot) => event matches Ok(e) && e@ == EventView::Buffer(snapshot@),
            Err(error) => event == Err::<ShellEvent, FrameError>(error),
        },
{
    match result {
        Ok(snapshot) => Ok(ShellEvent::Buffer(snapshot)),
        Err(error) => Err(error),
    }
}

fn parse_lifecycle(frame: &[u8]) -> (result: Result<ShellEvent, FrameError>)
    ensures
        event_agrees(result, lifecycle_meaning(frame@)),
{
    if bytes_equal(frame, PROMPT_READY.as_bytes()) {
        return Ok(ShellEvent::PromptReady);
    }
    if let Some(path) = strip_prefix(frame, WORKING_DIRECTORY_PREFIX) {
        if path.len() == 0 || path.len() > MAX_WORKING_DIRECTORY_BYTES || path[0] != 47 {
            return Err(FrameError::InvalidWorkingDirectory);
        }
        return Ok(ShellEvent::WorkingDirectory(ShellWorkingDirectory(copy_bytes(path))));
    }
    if let Some(nonce) = strip_prefix(frame, RELOAD_REQUEST_PREFIX) {
        return parse_reload_request(nonce);
    }
    if bytes_equal(frame, COMMAND_START_UNKNOWN.as_bytes()) {
        return Ok(ShellEvent::CommandStartUnknown);
    }
    if let Some(command) = strip_prefix(frame, COMMAND_START_PREFIX) {
        if command.len() == 0 {
            return Err(FrameError::EmptySubmittedCommand);
        }
        return Ok(ShellEvent::CommandStart(SubmittedCommand(copy_bytes(command))));
    }
    if bytes_equal(frame, CAPABILITY_NATIVE.as_bytes()) {
        return Ok(
            ShellEvent::Capability(
                CapabilityAnnouncement {
                    capability: BufferSyncCapability::Native,
                    last_probe_nonce: None,
                },
            ),
        );
    }
    if let Some(nonce) = strip_prefix(frame, CAPABILITY_PROBE_PREFIX) {
        return match parse_probe_nonce(nonce) {
            Ok(nonce) => Ok(
                ShellEvent::Capability(
                    CapabilityAnnouncement {
                        capability: BufferSyncCapability::Probe,
                        last_probe_nonce: Some(nonce),
                    },
                ),
            ),
            Err(error) => Err(error),
        };
    }
    if bytes_equal(frame, CAPABILITY_UNAVAILABLE.as_bytes()) {
        return Ok(
            ShellEvent::Capability(
                CapabilityAnnouncement {
                    capability: BufferSyncCapability::Unavailable,
                    last_probe_nonce: None,
                },
            ),
        );
    }
    match strip_prefix(frame, COMMAND_STOP_PREFIX) {
        None => Err(FrameError::UnknownEvent),
        Some(status) => match parse_exit_status(status) {
            Ok(status) => Ok(ShellEvent::CommandStop(status)),
            Err(error) => Err(error),
        },
    }
}

fn parse_reload_request(nonce: &[u8]) -> (result: Result<ShellEvent, FrameError>)
    ensures
        match result {
            Ok(event) => reload_meaning(nonce@) matches Ok(value) && event@ == EventView::ReloadRequest(
                value,
            ),
            Err(error) => reload_meaning(nonce@) == Err::<u32, FrameError>(error),
        },
{
    if !is_canonical_decimal(nonce) || nonce.len() > 10 {
        return Err(FrameError::InvalidReloadRequest);
    }
    match parse_digits(nonce) {
        Some(value) => if value != 0 && value <= u32::MAX as u64 {
            Ok(ShellEvent::ReloadRequest(ReloadRequest(value as u32)))
        } else {
            Err(FrameError::InvalidReloadRequest)
        },
        None => Err(FrameError::InvalidReloadRequest),
    }
}

/// Reads a probe-buffer frame behind its prefix.
pub fn parse_probe_buffer(frame: &[u8], unit: CursorUnit) -> (result: Result<BufferSnapshot, FrameError>)
    ensures
        snapshot_agrees(result, probe_buffer_meaning(frame@, unit)),
{
    let separator: usize = find_byte(frame, 58);
    if separator >= frame.len() {
        return Err(FrameError::MissingProbeNonce);
    }
    match parse_probe_nonce(vstd::slice::slice_subrange(frame, 0, separator)) {
        Err(error) => Err(error),
        Ok(nonce) => parse_buffer(
            vstd::slice::slice_subrange(frame, separator + 1, frame.len()),
            unit,
            Some(nonce),
        ),
    }
}

/// Reads a buffer frame behind its prefix.
pub fn parse_buffer(frame: &[u8], unit: CursorUnit, probe_nonce: Option<SnapshotNonce>) -> (result: Result<
    BufferSnapshot,
    FrameError,
>)
    ensures
        snapshot_agrees(result, buffer_meaning(frame@, unit, nonce_value(probe_nonce))),
{
    let separator: usize = find_byte(frame, 58);
    if separator >= frame.len() {
        return Err(FrameError::MissingCursor);
    }
    match parse_cursor(vstd::slice::slice_subrange(frame, 0, separator)) {
        Err(error) => Err(error),
        Ok(cursor) => parse_payload(
            vstd::slice::slice_subrange(frame, separator + 1, frame.len()),
            unit,
            cursor,
            probe_nonce,
        ),
    }
}

fn parse_payload(
    payload: &[u8],
    unit: CursorUnit,
    cursor: usize,
    probe_nonce: Option<SnapshotNonce>,
) -> (result: Result<BufferSnapshot, FrameError>)
    ensures
        snapshot_agrees(result, payload_meaning(payload@, unit, cursor as nat, nonce_value(probe_nonce))),
{
    let bytes: &[u8] = match unit {
        CursorUnit::FishCharacters => {
            if payload.len() == 0 || payload[payload.len() - 1] != 10 {
                return Err(FrameError::MissingFishPrintTerminator);
            }
            let body: &[u8] = vstd::slice::slice_subrange(payload, 0, payload.len() - 1);
            assert(body@ =~= payload@.drop_last());
            body
        },
        _ => payload,
    };
    let text: &str = match utf8_str(bytes) {
        None => {
            return Err(FrameError::InvalidBufferUtf8);
        },
        Some(text) => text,
    };
    proof {
        encode_utf8_decode_utf8(text@);
    }
    let offset: usize = match unit {
        CursorUnit::Bytes => {
            if cursor > bytes.len() {
                return Err(FrameError::CursorOutOfRange);
            }
            if !text.is_char_boundary(cursor) {
                return Err(FrameError::CursorNotUtf8Boundary);
            }
            cursor
        },
        _ => match char_offset(text, cursor) {
            None => {
                return Err(FrameError::CursorOutOfRange);
            },
            Some(offset) => offset,
        },
    };
    let snapshot = BufferSnapshot { bytes: copy_bytes(bytes), cursor: offset, probe_nonce };
    assert(snapshot@ =~= SnapshotView {
        bytes: bytes@,
        cursor: offset as int,
        nonce: nonce_value(probe_nonce),
    });
    Ok(snapshot)
}

/// Reads a decimal probe nonce.
pub fn parse_probe_nonce(bytes: &[u8]) -> (result: Result<SnapshotNonce, FrameError>)
    ensures
        match result {
            Ok(nonce) => nonce_meaning(bytes@) == Ok::<u64, FrameError>(nonce@),
            Err(error) => nonce_meaning(bytes@) == Err::<u64, FrameError>(error),
        },
{
    if bytes.len() == 0 {
        return Err(FrameError::MissingProbeNonce);
    }
    if !only_digits(bytes) {
        return Err(FrameError::NonDecimalProbeNonce);
    }
    match parse_digits(bytes) {
        None => Err(FrameError::ProbeNonceOutOfRange),
        Some(value) => Ok(SnapshotNonce(value)),
    }
}

/// Reads a decimal cursor.
pub fn parse_cursor(bytes: &[u8]) -> (result: Result<usize, FrameError>)
    ensures
        result == match numeral(bytes@, usize::MAX as nat) {
            Numeral::Missing => Err::<usize, FrameError>(FrameError::MissingCursor),
            Numeral::NonDecimal => Err(FrameError::NonDecimalCursor),
            Numeral::OutOfRange => Err(FrameError::CursorOutOfRange),
            Numeral::Number(cursor) => Ok(cursor as usize),
        },
{
    if bytes.len() == 0 {
        return Err(FrameError::MissingCursor);
    }
    if !only_digits(bytes) {
        return Err(FrameError::NonDecimalCursor);
    }
    match parse_digits(bytes) {
        None => Err(FrameError::CursorOutOfRange),
        Some(value) => if value <= usize::MAX as u64 {
            Ok(value as usize)
        } else {
            Err(FrameError::CursorOutOfRange)
        },
    }
}

/// Reads a decimal exit status.
pub fn parse_exit_status(status: &[u8]) -> (result: Result<ShellExitStatus, FrameError>)
    ensures
        match result {
            Ok(value) => status_meaning(status@) == Ok::<u8, FrameError>(value@),
            Err(error) => status_meaning(status@) == Err::<u8, FrameError>(error),
        },
{
    if status.len() == 0 {
        return Err(FrameError::MissingExitStatus);
    }
    if !only_digits(status) {
        return Err(FrameError::NonDecimalExitStatus);
    }
    match parse_digits(status) {
        None => Err(FrameError::ExitStatusOutOfRange),
        Some(value) => if value <= 255 {
            Ok(ShellExitStatus(value as u8))
        } else {
            Err(FrameError::ExitStatusOutOfRange)
        },
    }
}

/// Decoder state as a value.
#[verifier::ext_equal]
pub struct EventDecoderView {
    pub pending: Seq<u8>,
    pub oversized: Option<usize>,
    pub limit: usize,
    pub epoch: u64,
    pub next_sequence: u128,
}

/// Decoder of one epoch that stands between frames.
pub open spec fn idle_event_decoder(limit: usize, epoch: u64, next_sequence: u128) -> EventDecoderView {
    EventDecoderView { pending: Seq::empty(), oversized: None, limit, epoch, next_sequence }
}

/// Sequence behind `sequence`, held at the largest one.
pub open spec fn sequence_behind(sequence: u128) -> u128 {
    if sequence < u128::MAX {
        (sequence + 1) as u128
    } else {
        u128::MAX
    }
}

/// What the decoder reports at the terminator of the frame that it holds.
pub open spec fn terminated_frame(decoder: EventDecoderView) -> FrameView {
    FrameView {
        position: PositionView { epoch: decoder.epoch, sequence: decoder.next_sequence },
        content: match decoder.oversized {
            Some(observed_bytes) => Err(
                FrameError::FrameTooLarge { observed_bytes, limit: decoder.limit },
            ),
            None => event_meaning(decoder.pending),
        },
    }
}

/// Decoder after one more byte.
pub open spec fn event_decoder_after(decoder: EventDecoderView, byte: u8) -> EventDecoderView {
    if byte == 0 {
        idle_event_decoder(decoder.limit, decoder.epoch, sequence_behind(decoder.next_sequence))
    } else {
        match decoder.oversized {
            Some(count) => EventDecoderView { oversized: Some(counted_up(count)), ..decoder },
            None => if decoder.pending.len() < decoder.limit {
                EventDecoderView { pending: decoder.pending.push(byte), ..decoder }
            } else {
                EventDecoderView {
                    pending: Seq::empty(),
                    oversized: Some(counted_up(decoder.pending.len() as usize)),
                    ..decoder
                }
            },
        }
    }
}

/// Decoder after a run of bytes.
pub open spec fn event_decoder_run(decoder: EventDecoderView, bytes: Seq<u8>) -> EventDecoderView
    decreases bytes.len(),
{
    if bytes.len() == 0 {
        decoder
    } else {
        event_decoder_after(event_decoder_run(decoder, bytes.drop_last()), bytes.last())
    }
}

/// Frames that a decoder reports while it reads a run of bytes, in wire order.
pub open spec fn event_reports(decoder: EventDecoderView, bytes: Seq<u8>) -> Seq<FrameView>
    decreases bytes.len(),
{
    if bytes.len() == 0 {
        Seq::empty()
    } else {
        let before = event_reports(decoder, bytes.drop_last());
        if bytes.last() == 0 {
            before.push(terminated_frame(event_decoder_run(decoder, bytes.drop_last())))
        } else {
            before
        }
    }
}

/// Frames as values.
pub open spec fn decoded_views(frames: Seq<DecodedFrame>) -> Seq<FrameView> {
    frames.map_values(|frame: DecodedFrame| frame@)
}

/// Incrementally decodes NUL-framed shell events with bounded retained storage.
pub struct ShellEventDecoder {
    pending: Vec<u8>,
    oversized_bytes: Option<usize>,
    frame_limit: usize,
    epoch: StreamEpoch,
    next_sequence: u128,
}

impl View for ShellEventDecoder {
    type V = EventDecoderView;

    closed spec fn view(&self) -> EventDecoderView {
        EventDecoderView {
            pending: self.pending@,
            oversized: self.oversized_bytes,
            limit: self.frame_limit,
            epoch: self.epoch@,
            next_sequence: self.next_sequence,
        }
    }
}

impl ShellEventDecoder {
    /// No more is retained than the limit allows, and nothing at all of a frame
    /// that exceeded it.
    pub open spec fn wf(self) -> bool {
        &&& self@.pending.len() <= self@.limit <= MAX_FRAME_BYTES
        &&& self@.oversized is Some ==> self@.pending.len() == 0
    }

    /// Creates a decoder for an explicit stream epoch at the hard frame limit.
    pub fn new(epoch: StreamEpoch) -> (decoder: Self)
        ensures
            decoder.wf(),
            decoder@ == idle_event_decoder(MAX_FRAME_BYTES, epoch@, 0),
    {
        ShellEventDecoder::with_frame_limit(epoch, MAX_FRAME_BYTES)
    }

    /// Creates a decoder with an explicit, hard-capped frame limit.
    pub fn with_frame_limit(epoch: StreamEpoch, frame_limit: usize) -> (decoder: Self)
        ensures
            decoder.wf(),
            decoder@ == idle_event_decoder(
                if frame_limit <= MAX_FRAME_BYTES {
                    frame_limit
                } else {
                    MAX_FRAME_BYTES
                },
                epoch@,
                0,
            ),
    {
        let frame_limit: usize = if frame_limit <= MAX_FRAME_BYTES {
            frame_limit
        } else {
            MAX_FRAME_BYTES
        };
        ShellEventDecoder {
            pending: Vec::new(),
            oversized_bytes: None,
            frame_limit,
            epoch,
            next_sequence: 0,
        }
    }

    /// Current stream epoch.
    pub fn epoch(&self) -> (epoch: StreamEpoch)
        ensures
            epoch@ == self@.epoch,
    {
        self.epoch
    }

    /// Configured maximum retained frame bytes.
    pub fn frame_limit(&self) -> (limit: usize)
        requires
            self.wf(),
        ensures
            limit == self@.limit,
            limit <= MAX_FRAME_BYTES,
    {
        self.frame_limit
    }

    /// Number of bytes retained for an incomplete frame.
    pub fn pending_len(&self) -> (bytes: usize)
        requires
            self.wf(),
        ensures
            bytes == self@.pending.len(),
            bytes <= self@.limit,
            self@.oversized is Some ==> bytes == 0,
    {
        self.pending.len()
    }

    /// Whether an oversized frame is being discarded through its NUL.
    pub fn is_discarding(&self) -> (discarding: bool)
        ensures
            discarding == (self@.oversized is Some),
    {
        self.oversized_bytes.is_some()
    }

    /// Consumes a stream chunk and returns each completed result in wire order.
    pub fn push(&mut self, chunk: &[u8]) -> (frames: Vec<DecodedFrame>)
        requires
            old(self).wf(),
        ensures
            final(self).wf(),
            final(self)@ == event_decoder_run(old(self)@, chunk@),
            decoded_views(frames@) == event_reports(old(self)@, chunk@),
    {
        let mut frames: Vec<DecodedFrame> = Vec::new();
        let mut i: usize = 0;
        assert(decoded_views(frames@) =~= Seq::<FrameView>::empty());
        while i < chunk.len()
            invariant
                0 <= i <= chunk.len(),
                self.wf(),
                self@ == event_decoder_run(old(self)@, chunk@.subrange(0, i as int)),
                decoded_views(frames@) == event_reports(old(self)@, chunk@.subrange(0, i as int)),
            decreases chunk.len() - i,
        {
            let ghost before = frames@;
            assert(chunk@.subrange(0, i + 1).drop_last() =~= chunk@.subrange(0, i as int));
            match self.push_byte(chunk[i]) {
                None => {},
                Some(frame) => {
                    frames.push(frame);
                    assert(decoded_views(before.push(frame)) =~= decoded_views(before).push(frame@));
                },
            }
            i = i + 1;
        }
        assert(chunk@.subrange(0, i as int) =~= chunk@);
        frames
    }

    fn push_byte(&mut self, byte: u8) -> (frame: Option<DecodedFrame>)
        requires
            old(self).wf(),
        ensures
            final(self).wf(),
            final(self)@ == event_decoder_after(old(self)@, byte),
            frame is Some <==> byte == 0,
            frame matches Some(f) ==> f@ == terminated_frame(old(self)@),
    {
        if byte == 0 {
            return Some(self.finish_terminated_frame());
        }
        match self.oversized_bytes {
            Some(count) => {
                self.oversized_bytes = Some(count.saturating_add(1));
            },
            None => {
                let held: usize = self.pending.len();
                if held < self.frame_limit {
                    self.pending.push(byte);
                } else {
                    self.pending.clear();
                    self.oversized_bytes = Some(held.saturating_add(1));
                }
            },
        }
        None
    }

    /// Flushes one unterminated frame at end of input and clears it.
    pub fn finish(&mut self) -> (frame: Option<DecodedFrame>)
        requires
            old(self).wf(),
        ensures
            final(self).wf(),
            frame is None <==> old(self)@.oversized is None && old(self)@.pending.len() == 0,
            frame is None ==> final(self)@ == old(self)@,
            frame matches Some(f) ==> {
                &&& f@ == (FrameView {
                    position: PositionView {
                        epoch: old(self)@.epoch,
                        sequence: old(self)@.next_sequence,
                    },
                    content: Err(
                        match old(self)@.oversized {
                            Some(observed_bytes) => FrameError::FrameTooLarge {
                                observed_bytes,
                                limit: old(self)@.limit,
                            },
                            None => FrameError::TruncatedFrame {
                                observed_bytes: old(self)@.pending.len() as usize,
                            },
                        },
                    ),
                })
                &&& final(self)@ == idle_event_decoder(
                    old(self)@.limit,
                    old(self)@.epoch,
                    sequence_behind(old(self)@.next_sequence),
                )
            },
    {
        match self.oversized_bytes {
            Some(observed_bytes) => {
                self.oversized_bytes = None;
                let limit: usize = self.frame_limit;
                assert(self.pending@ =~= Seq::<u8>::empty());
                return Some(self.rejected(FrameError::FrameTooLarge { observed_bytes, limit }));
            },
            None => {},
        }
        let observed_bytes: usize = self.pending.len();
        if observed_bytes == 0 {
            return None;
        }
        self.pending.clear();
        Some(self.rejected(FrameError::TruncatedFrame { observed_bytes }))
    }

    /// Discards partial input and advances to a fresh stream epoch.
    ///
    /// Pass the returned epoch to [`ShellSessionState::reset_stream`] before
    /// applying frames from the reset decoder.
    pub fn reset_stream(&mut self) -> (result: Result<StreamEpoch, StreamResetError>)
        requires
            old(self).wf(),
        ensures
            final(self).wf(),
            old(self)@.epoch == u64::MAX ==> result == Err::<StreamEpoch, _>(
                StreamResetError::EpochExhausted,
            ) && final(self)@ == old(self)@,
            old(self)@.epoch < u64::MAX ==> {
                &&& result matches Ok(epoch) && epoch@ == old(self)@.epoch + 1
                &&& final(self)@ == idle_event_decoder(
                    old(self)@.limit,
                    (old(self)@.epoch + 1) as u64,
                    0,
                )
            },
    {
        match self.epoch.next() {
            None => Err(StreamResetError::EpochExhausted),
            Some(epoch) => {
                self.pending.clear();
                self.oversized_bytes = None;
                self.epoch = epoch;
                self.next_sequence = 0;
                Ok(epoch)
            },
        }
    }

    fn finish_terminated_frame(&mut self) -> (frame: DecodedFrame)
        requires
            old(self).wf(),
        ensures
            final(self).wf(),
            final(self)@ == event_decoder_after(old(self)@, 0),
            frame@ == terminated_frame(old(self)@),
    {
        match self.oversized_bytes {
            Some(observed_bytes) => {
                self.oversized_bytes = None;
                let limit: usize = self.frame_limit;
                assert(self.pending@ =~= Seq::<u8>::empty());
                return self.rejected(FrameError::FrameTooLarge { observed_bytes, limit });
            },
            None => {},
        }
        let parsed = parse_frame(self.pending.as_slice());
        self.pending.clear();
        match parsed {
            Ok(event) => {
                let position = self.take_position();
                DecodedFrame::Event(SequencedShellEvent { position, event })
            },
            Err(error) => self.rejected(error),
        }
    }

    fn rejected(&mut self, error: FrameError) -> (frame: DecodedFrame)
        ensures
            frame@ == (FrameView {
                position: PositionView { epoch: old(self)@.epoch, sequence: old(self)@.next_sequence },
                content: Err(error),
            }),
            final(self)@ == (EventDecoderView {
                next_sequence: sequence_behind(old(self)@.next_sequence),
                ..old(self)@
            }),
    {
        let position = self.take_position();
        DecodedFrame::Rejected(RejectedFrame { position, error })
    }

    fn take_position(&mut self) -> (position: FramePosition)
        ensures
            position@ == (PositionView { epoch: old(self)@.epoch, sequence: old(self)@.next_sequence }),
            final(self)@ == (EventDecoderView {
                next_sequence: sequence_behind(old(self)@.next_sequence),
                ..old(self)@
            }),
    {
        let position = FramePosition { epoch: self.epoch, sequence: self.next_sequence };
        self.next_sequence = self.next_sequence.saturating_add(1);
        position
    }

    /// Diagnostic summary, which shows sizes and never retained bytes.
    pub fn debug_text(&self) -> (summary: String)
        ensures
            summary@ == "ShellEventDecoder { pending_bytes: "@ + decimal_chars(self@.pending.len())
                + ", oversized_bytes: "@ + size_debug_chars(self@.oversized) + ", frame_limit: "@
                + decimal_chars(self@.limit as nat) + ", epoch: StreamEpoch("@ + decimal_chars(
                self@.epoch as nat,
            ) + "), next_sequence: "@ + decimal_chars(self@.next_sequence as nat) + " }"@,
    {
        let mut summary = "ShellEventDecoder { pending_bytes: ".to_owned();
        append_number(&mut summary, self.pending.len() as u128);
        summary.append(", oversized_bytes: ");
        append_size(&mut summary, self.oversized_bytes);
        summary.append(", frame_limit: ");
        append_number(&mut summary, self.frame_limit as u128);
        summary.append(", epoch: StreamEpoch(");
        append_number(&mut summary, self.epoch.get() as u128);
        summary.append("), next_sequence: ");
        append_number(&mut summary, self.next_sequence);
        summary.append(" }");
        summary
    }
}

/// Whether reducer state can currently be trusted for suggestions or attribution.
#[derive(Clone, Copy, Debug, PartialEq, Eq, Structural)]
pub enum SynchronizationState {
    /// State follows an authoritative snapshot or prompt boundary.
    Synchronized,
    /// A rejected or impossible frame invalidated state.
    Desynchronized,
}

/// Whether a foreground command currently owns the terminal.
#[derive(Clone, Copy, Debug, PartialEq, Eq, Structural)]
pub enum ForegroundCommandState {
    /// No foreground command is active.
    Idle,
    /// A foreground command is active.
    Running,
    /// Lost or impossible protocol state prevents a safe determination.
    Unknown,
}

/// Source used for exact completed-command attribution.
#[derive(Clone, Copy, Debug, PartialEq, Eq, Structural)]
pub enum AttributionSource {
    /// Exact bytes supplied directly by the shell's preexec lifecycle event.
    LifecycleFrame,
}

/// A completed command as a value.
#[verifier::ext_equal]
pub struct CompletedView {
    pub command: Seq<u8>,
    pub status: u8,
    pub source: AttributionSource,
}

/// A completed command safe to pass to history and learning.
#[derive(Clone, PartialEq, Eq)]
pub struct CompletedCommand {
    command: SubmittedCommand,
    status: ShellExitStatus,
    source: AttributionSource,
}

impl View for CompletedCommand {
    type V = CompletedView;

    closed spec fn view(&self) -> CompletedView {
        CompletedView { command: self.command@, status: self.status@, source: self.source }
    }
}

impl CompletedCommand {
    /// Exact submitted command.
    pub fn command(&self) -> (command: &SubmittedCommand)
        ensures
            command@ == self@.command,
    {
        &self.command
    }

    /// Reported command status.
    pub fn status(&self) -> (status: ShellExitStatus)
        ensures
            status@ == self@.status,
    {
        self.status
    }

    /// How exact command bytes were obtained.
    pub fn source(&self) -> (source: AttributionSource)
        ensures
            source == self@.source,
    {
        self.source
    }
}

/// Impossible command-lifecycle transition.
#[derive(Clone, Copy, Debug, PartialEq, Eq, Structural)]
pub enum LifecycleError {
    /// A second start arrived while a command was already active.
    DuplicateCommandStart,
    /// A stop arrived while no command was active.
    CommandStopWithoutStart,
    /// A buffer snapshot arrived while a foreground command was active.
    BufferWhileCommandRunning,
    /// A prompt boundary arrived before the active command stopped.
    PromptWhileCommandRunning,
}

/// Why a snapshot was not authoritative, as a value.
pub enum RejectionView {
    MissingProbeNonce,
    UnexpectedProbeNonce(u64),
    UncorrelatedNativeSnapshot { current: GenerationView },
    ProbeNonceMismatch { expected: Option<u64>, received: u64 },
    StaleProbeGeneration { requested: GenerationView, current: GenerationView },
}

/// Why a syntactically valid buffer snapshot was not authoritative.
#[derive(Clone, Copy, Debug, PartialEq, Eq)]
pub enum SnapshotRejection {
    /// A native snapshot arrived from a probe-only adapter.
    MissingProbeNonce,
    /// A numbered probe response arrived from a native-only adapter.
    UnexpectedProbeNonce(SnapshotNonce),
    /// A native callback could not prove which locally forwarded input it observed.
    UncorrelatedNativeSnapshot {
        /// Local-input generation current when the snapshot arrived.
        current: InputGeneration,
    },
    /// A response did not match the one outstanding probe request.
    ProbeNonceMismatch {
        /// Nonce required by the reducer, if a request was outstanding.
        expected: Option<SnapshotNonce>,
        /// Nonce carried by the response.
        received: SnapshotNonce,
    },
    /// The matching response belonged to input that has since changed.
    StaleProbeGeneration {
        /// Local-input generation that requested the snapshot.
        requested: InputGeneration,
        /// Local-input generation current when the response arrived.
        current: InputGeneration,
    },
}

impl View for SnapshotRejection {
    type V = RejectionView;

    open spec fn view(&self) -> RejectionView {
        match *self {
            SnapshotRejection::MissingProbeNonce => RejectionView::MissingProbeNonce,
            SnapshotRejection::UnexpectedProbeNonce(nonce) => RejectionView::UnexpectedProbeNonce(nonce@),
            SnapshotRejection::UncorrelatedNativeSnapshot { current } =>
                RejectionView::UncorrelatedNativeSnapshot { current: current@ },
            SnapshotRejection::ProbeNonceMismatch { expected, received } =>
                RejectionView::ProbeNonceMismatch { expected: nonce_value(expected), received: received@ },
            SnapshotRejection::StaleProbeGeneration { requested, current } =>
                RejectionView::StaleProbeGeneration { requested: requested@, current: current@ },
        }
    }
}

/// Result of consuming one frame, as a value.
#[verifier::ext_equal]
pub enum UpdateView {
    BufferSynchronized { recovered: bool },
    PromptReady { recovered: bool },
    CommandStarted { source: Option<AttributionSource>, preexec_matches_snapshot: Option<bool> },
    CommandStopped(CompletedView),
    CommandStoppedWithoutAttribution(u8),
    CapabilityChanged(BufferSyncCapability),
    WorkingDirectoryChanged(Seq<u8>),
    ReloadRequested(u32),
    FrameRejected(FrameError),
    LifecycleRejected(LifecycleError),
    LifecycleSuppressed,
    SnapshotRejected(RejectionView),
    StreamOrderRejected { received: PositionView, last_accepted: Option<PositionView> },
}

/// Result of consuming one [`DecodedFrame`].
#[derive(Clone, PartialEq, Eq)]
pub enum StateUpdate {
    /// An authoritative editing snapshot synchronized state.
    BufferSynchronized {
        /// Whether this event recovered previously desynchronized state.
        recovered: bool,
    },
    /// An authoritative prompt boundary synchronized an empty buffer.
    PromptReady {
        /// Whether this event recovered previously desynchronized state.
        recovered: bool,
    },
    /// A foreground command began.
    CommandStarted {
        /// Attribution selected for a later matching stop, if available.
        source: Option<AttributionSource>,
        /// Whether preexec bytes matched a preceding authoritative snapshot.
        preexec_matches_snapshot: Option<bool>,
    },
    /// A command stopped with exact attribution.
    CommandStopped(CompletedCommand),
    /// A command stopped but exact submitted bytes were unavailable.
    CommandStoppedWithoutAttribution(ShellExitStatus),
    /// Adapter live-buffer capability changed.
    CapabilityChanged(BufferSyncCapability),
    /// The shell reported an authoritative prompt working directory.
    WorkingDirectoryChanged(ShellWorkingDirectory),
    /// An active-session child requested a correlated configuration reload.
    ReloadRequested(ReloadRequest),
    /// A rejected protocol frame desynchronized state.
    FrameRejected(FrameError),
    /// A duplicate or impossible lifecycle transition desynchronized state.
    LifecycleRejected(LifecycleError),
    /// A valid lifecycle event was observed while state remained desynchronized.
    LifecycleSuppressed,
    /// A syntactically valid snapshot failed authority correlation.
    SnapshotRejected(SnapshotRejection),
    /// A duplicate, older, or wrong-epoch frame desynchronized state.
    StreamOrderRejected {
        /// Position rejected by the reducer.
        received: FramePosition,
        /// Most recent position accepted in the active epoch, if any.
        last_accepted: Option<FramePosition>,
    },
}

/// Value of an optional position.
pub open spec fn position_value(position: Option<FramePosition>) -> Option<PositionView> {
    match position {
        Some(p) => Some(p@),
        None => None,
    }
}

/// Value of an optional generation.
pub open spec fn generation_value(generation: Option<InputGeneration>) -> Option<GenerationView> {
    match generation {
        Some(g) => Some(g@),
        None => None,
    }
}

impl View for StateUpdate {
    type V = UpdateView;

    open spec fn view(&self) -> UpdateView {
        match *self {
            StateUpdate::BufferSynchronized { recovered } => UpdateView::BufferSynchronized { recovered },
            StateUpdate::PromptReady { recovered } => UpdateView::PromptReady { recovered },
            StateUpdate::CommandStarted { source, preexec_matches_snapshot } =>
                UpdateView::CommandStarted { source, preexec_matches_snapshot },
            StateUpdate::CommandStopped(completed) => UpdateView::CommandStopped(completed@),
            StateUpdate::CommandStoppedWithoutAttribution(status) =>
                UpdateView::CommandStoppedWithoutAttribution(status@),
            StateUpdate::CapabilityChanged(capability) => UpdateView::CapabilityChanged(capability),
            StateUpdate::WorkingDirectoryChanged(directory) => UpdateView::WorkingDirectoryChanged(
                directory@,
            ),
            StateUpdate::ReloadRequested(request) => UpdateView::ReloadRequested(request@),
            StateUpdate::FrameRejected(error) => UpdateView::FrameRejected(error),
            StateUpdate::LifecycleRejected(error) => UpdateView::LifecycleRejected(error),
            StateUpdate::LifecycleSuppressed => UpdateView::LifecycleSuppressed,
            StateUpdate::SnapshotRejected(rejection) => UpdateView::SnapshotRejected(rejection@),
            StateUpdate::StreamOrderRejected { received, last_accepted } =>
                UpdateView::StreamOrderRejected {
                received: received@,
                last_accepted: position_value(last_accepted),
            },
        }
    }
}

/// Session state as a value.
#[verifier::ext_equal]
pub struct SessionStateView {
    /// Active stream epoch.
    pub epoch: u64,
    /// Position of the frame accepted last in this epoch.
    pub last_position: Option<PositionView>,
    /// Whether a frame out of order has closed this epoch.
    pub order_faulted: bool,
    /// Whether the state follows an authoritative report.
    pub synchronization: SynchronizationState,
    /// Whether a command owns the terminal.
    pub foreground: ForegroundCommandState,
    /// Whether the shell waits at an editable prompt.
    pub prompt_ready: bool,
    /// How the adapter reports snapshots.
    pub capability: BufferSyncCapability,
    /// Nonce that the adapter's counter stands at.
    pub last_nonce: Option<u64>,
    /// Outstanding probe: its nonce and the generation that it asks about.
    pub pending_probe: Option<(u64, GenerationView)>,
    /// Authoritative editing buffer.
    pub buffer: Option<SnapshotView>,
    /// Generation of local input.
    pub input_generation: GenerationView,
    /// Whether local input has not been answered by a snapshot.
    pub input_unacknowledged: bool,
    /// Generation that the buffer belongs to.
    pub buffer_generation: Option<GenerationView>,
    /// Whether a snapshot has arrived since the prompt.
    pub buffer_observed: bool,
    /// Exact bytes of the running command.
    pub attribution: Option<(Seq<u8>, AttributionSource)>,
    /// Status of the command completed last.
    pub last_status: Option<u8>,
}

impl SessionStateView {
    /// State before anything was reported.
    pub open spec fn fresh(epoch: u64) -> Self {
        SessionStateView {
            epoch,
            last_position: None,
            order_faulted: false,
            synchronization: SynchronizationState::Desynchronized,
            foreground: ForegroundCommandState::Unknown,
            prompt_ready: false,
            capability: BufferSyncCapability::Unknown,
            last_nonce: None,
            pending_probe: None,
            buffer: None,
            input_generation: GenerationView { epoch, sequence: 0 },
            input_unacknowledged: false,
            buffer_generation: None,
            buffer_observed: false,
            attribution: None,
            last_status: None,
        }
    }

    /// Whether suggestions may be computed and rendered.
    pub open spec fn suggests(self) -> bool {
        &&& self.synchronization is Synchronized
        &&& self.foreground is Idle
        &&& self.prompt_ready
        &&& self.capability.is_live()
    }

    /// State after everything known of the editing buffer is withdrawn.
    pub open spec fn without_editing(self) -> Self {
        SessionStateView {
            synchronization: SynchronizationState::Desynchronized,
            buffer: None,
            buffer_generation: None,
            buffer_observed: false,
            attribution: None,
            ..self
        }
    }

    /// State after everything known of the shell is withdrawn.
    pub open spec fn without_authority(self) -> Self {
        SessionStateView {
            foreground: ForegroundCommandState::Unknown,
            prompt_ready: false,
            pending_probe: None,
            ..self.without_editing()
        }
    }

    /// Why a snapshot with this nonce may not be believed.
    pub open spec fn distrust(self, nonce: Option<u64>) -> Option<RejectionView> {
        match (self.capability, nonce) {
            (BufferSyncCapability::Probe, None) => Some(RejectionView::MissingProbeNonce),
            (BufferSyncCapability::Probe, Some(received)) => match self.pending_probe {
                None => Some(RejectionView::ProbeNonceMismatch { expected: None, received }),
                Some((expected, requested)) => if received != expected {
                    Some(RejectionView::ProbeNonceMismatch { expected: Some(expected), received })
                } else if requested != self.input_generation {
                    Some(
                        RejectionView::StaleProbeGeneration {
                            requested,
                            current: self.input_generation,
                        },
                    )
                } else {
                    None
                },
            },
            (BufferSyncCapability::Native, Some(received)) => Some(
                RejectionView::UnexpectedProbeNonce(received),
            ),
            (BufferSyncCapability::Native, None) => if self.input_unacknowledged {
                Some(RejectionView::UncorrelatedNativeSnapshot { current: self.input_generation })
            } else {
                None
            },
            (BufferSyncCapability::Unknown, _) => None,
            (BufferSyncCapability::Unavailable, _) => None,
        }
    }

    /// State after a snapshot has answered the outstanding probe, if it does.
    pub open spec fn with_probe_answered(self, nonce: Option<u64>) -> Self {
        match (self.pending_probe, nonce) {
            (Some((expected, _)), Some(received)) => if self.capability is Probe && received
                == expected {
                SessionStateView { pending_probe: None, ..self }
            } else {
                self
            },
            _ => self,
        }
    }

    /// Effect of a buffer snapshot.
    pub open spec fn after_buffer(self, snapshot: SnapshotView) -> (Self, UpdateView) {
        let answered = self.with_probe_answered(snapshot.nonce);
        if self.foreground is Running {
            (
                self.without_authority(),
                UpdateView::LifecycleRejected(LifecycleError::BufferWhileCommandRunning),
            )
        } else if let Some(rejection) = self.distrust(snapshot.nonce) {
            (answered.without_editing(), UpdateView::SnapshotRejected(rejection))
        } else if !(self.foreground is Idle) || !self.prompt_ready || !self.capability.is_live() {
            (answered.without_editing(), UpdateView::LifecycleSuppressed)
        } else {
            (
                SessionStateView {
                    synchronization: SynchronizationState::Synchronized,
                    buffer: Some(snapshot),
                    buffer_generation: Some(self.input_generation),
                    input_unacknowledged: false,
                    buffer_observed: true,
                    attribution: None,
                    ..answered
                },
                UpdateView::BufferSynchronized { recovered: self.synchronization is Desynchronized },
            )
        }
    }

    /// Effect of a prompt boundary.
    pub open spec fn after_prompt(self) -> (Self, UpdateView) {
        if self.foreground is Running {
            (
                self.without_authority(),
                UpdateView::LifecycleRejected(LifecycleError::PromptWhileCommandRunning),
            )
        } else if self.capability is Unknown {
            (self.without_authority(), UpdateView::LifecycleSuppressed)
        } else if self.input_unacknowledged {
            (self, UpdateView::LifecycleSuppressed)
        } else {
            (
                SessionStateView {
                    synchronization: SynchronizationState::Synchronized,
                    foreground: ForegroundCommandState::Idle,
                    prompt_ready: true,
                    buffer: Some(empty_snapshot()),
                    buffer_generation: Some(self.input_generation),
                    buffer_observed: false,
                    pending_probe: None,
                    attribution: None,
                    ..self
                },
                UpdateView::PromptReady { recovered: self.synchronization is Desynchronized },
            )
        }
    }

    /// Effect of a capability handshake.
    pub open spec fn after_capability(self, announced: CapabilityView) -> (Self, UpdateView) {
        (
            SessionStateView {
                pending_probe: None,
                capability: announced.capability,
                last_nonce: announced.last_nonce,
                ..self.without_editing()
            },
            UpdateView::CapabilityChanged(announced.capability),
        )
    }

    /// Effect of a command start, with the command's bytes where they are known.
    pub open spec fn after_start(self, preexec: Option<Seq<u8>>) -> (Self, UpdateView) {
        let running = SessionStateView {
            foreground: ForegroundCommandState::Running,
            prompt_ready: false,
            buffer: None,
            buffer_observed: false,
            input_unacknowledged: false,
            attribution: None,
            ..self
        };
        if self.foreground is Running {
            (
                self.without_authority(),
                UpdateView::LifecycleRejected(LifecycleError::DuplicateCommandStart),
            )
        } else if self.foreground is Unknown || !self.prompt_ready {
            (running, UpdateView::LifecycleSuppressed)
        } else {
            (
                SessionStateView {
                    buffer_generation: None,
                    pending_probe: None,
                    attribution: match preexec {
                        Some(command) => Some((command, AttributionSource::LifecycleFrame)),
                        None => None,
                    },
                    ..running
                },
                UpdateView::CommandStarted {
                    source: match preexec {
                        Some(_) => Some(AttributionSource::LifecycleFrame),
                        None => None,
                    },
                    preexec_matches_snapshot: match (self.buffer, preexec) {
                        (Some(snapshot), Some(command)) => if self.buffer_observed {
                            Some(snapshot.bytes == command)
                        } else {
                            None
                        },
                        _ => None,
                    },
                },
            )
        }
    }

    /// Effect of a command stop.
    pub open spec fn after_stop(self, status: u8) -> (Self, UpdateView) {
        if self.foreground is Idle {
            (
                self.without_authority(),
                UpdateView::LifecycleRejected(LifecycleError::CommandStopWithoutStart),
            )
        } else if self.foreground is Unknown {
            (
                SessionStateView {
                    foreground: ForegroundCommandState::Idle,
                    prompt_ready: false,
                    attribution: None,
                    ..self
                },
                UpdateView::LifecycleSuppressed,
            )
        } else {
            (
                SessionStateView {
                    foreground: ForegroundCommandState::Idle,
                    prompt_ready: false,
                    buffer: None,
                    buffer_generation: None,
                    last_status: Some(status),
                    attribution: None,
                    ..self
                },
                match self.attribution {
                    Some((command, source)) => UpdateView::CommandStopped(
                        CompletedView { command, status, source },
                    ),
                    None => UpdateView::CommandStoppedWithoutAttribution(status),
                },
            )
        }
    }

    /// Effect of one valid event.
    pub open spec fn after_event(self, event: EventView) -> (Self, UpdateView) {
        match event {
            EventView::Buffer(snapshot) => self.after_buffer(snapshot),
            EventView::PromptReady => self.after_prompt(),
            EventView::Capability(announced) => self.after_capability(announced),
            EventView::CommandStart(command) => self.after_start(Some(command)),
            EventView::CommandStartUnknown => self.after_start(None),
            EventView::CommandStop(status) => self.after_stop(status),
            EventView::WorkingDirectory(directory) => (
                self,
                UpdateView::WorkingDirectoryChanged(directory),
            ),
            EventView::ReloadRequest(request) => (self, UpdateView::ReloadRequested(request)),
        }
    }

    /// Whether a frame at `position` is the next one of the active epoch.
    pub open spec fn expects(self, position: PositionView) -> bool {
        &&& !self.order_faulted
        &&& position.epoch == self.epoch
        &&& match self.last_position {
            None => position.sequence == 0,
            Some(last) => position.sequence == last.sequence + 1,
        }
    }

    /// Effect of one frame, valid or rejected.
    #[verifier::opaque]
    pub open spec fn after_frame(self, frame: FrameView) -> (Self, UpdateView) {
        if !self.expects(frame.position) {
            (
                SessionStateView { order_faulted: true, ..self.without_authority() },
                UpdateView::StreamOrderRejected {
                    received: frame.position,
                    last_accepted: self.last_position,
                },
            )
        } else {
            let accepted = SessionStateView { last_position: Some(frame.position), ..self };
            match frame.content {
                Err(error) => (accepted.without_authority(), UpdateView::FrameRejected(error)),
                Ok(event) => accepted.after_event(event),
            }
        }
    }

    /// State after one local input was forwarded.
    #[verifier::opaque]
    pub open spec fn after_input(self) -> Self {
        if self.input_generation.sequence == u64::MAX {
            self.without_authority()
        } else {
            SessionStateView {
                input_generation: GenerationView {
                    epoch: self.epoch,
                    sequence: (self.input_generation.sequence + 1) as u64,
                },
                input_unacknowledged: true,
                ..self.without_editing()
            }
        }
    }

    /// Why no probe may be issued now.
    pub open spec fn probe_refusal(self) -> Option<ProbeRequestError> {
        if !(self.capability is Probe) {
            Some(ProbeRequestError::CapabilityUnavailable)
        } else if !(self.foreground is Idle) || !self.prompt_ready {
            Some(ProbeRequestError::NotAtEditablePrompt)
        } else if self.pending_probe is Some {
            Some(ProbeRequestError::AlreadyPending)
        } else if self.last_nonce is None {
            Some(ProbeRequestError::CapabilityUnavailable)
        } else if self.last_nonce == Some(u64::MAX) {
            Some(ProbeRequestError::NonceExhausted)
        } else {
            None
        }
    }

    /// State after a probe was asked for.
    #[verifier::opaque]
    pub open spec fn after_probe(self) -> Self {
        match self.probe_refusal() {
            None => {
                let nonce = (self.last_nonce->0 + 1) as u64;
                SessionStateView {
                    last_nonce: Some(nonce),
                    pending_probe: Some((nonce, self.input_generation)),
                    ..self
                }
            },
            Some(_) => if self.capability is Probe && self.foreground is Idle && self.prompt_ready
                && self.pending_probe is None {
                self.without_editing()
            } else {
                self
            },
        }
    }

    /// State after the stream starts over in a newer epoch.
    pub open spec fn after_reset(self, epoch: u64) -> Self {
        SessionStateView { last_status: self.last_status, ..SessionStateView::fresh(epoch) }
    }

    /// What holds of every state that a session reaches: nothing is suggested
    /// without a buffer, and every buffer has its generation; a buffer is only held
    /// while the shell waits at its prompt and nothing was typed since, the
    /// outstanding probe is the newest one, only a running command is
    /// attributed, and positions and generations belong to the active epoch.
    pub open spec fn inv(self) -> bool {
        &&& self.suggests() ==> self.buffer is Some
        &&& self.buffer is Some <==> self.buffer_generation is Some
        &&& self.buffer matches Some(snapshot) ==> {
            &&& valid_snapshot(snapshot)
            &&& self.synchronization is Synchronized
            &&& self.foreground is Idle
            &&& self.prompt_ready
            &&& !self.input_unacknowledged
            &&& self.buffer_generation == Some(self.input_generation)
        }
        &&& self.pending_probe matches Some((nonce, generation)) ==> {
            &&& self.capability is Probe
            &&& self.last_nonce == Some(nonce)
            &&& generation.epoch == self.epoch
            &&& generation.sequence <= self.input_generation.sequence
        }
        &&& self.attribution is Some ==> self.foreground is Running
        &&& self.last_position matches Some(position) ==> position.epoch == self.epoch
        &&& self.input_generation.epoch == self.epoch
        &&& self.prompt_ready ==> self.foreground is Idle
    }
}

/// Ordered session reducer that owns synchronization and command attribution.
#[derive(PartialEq, Eq)]
pub struct ShellSessionState {
    epoch: StreamEpoch,
    last_position: Option<FramePosition>,
    order_faulted: bool,
    synchronization: SynchronizationState,
    foreground: ForegroundCommandState,
    prompt_ready: bool,
    capability: BufferSyncCapability,
    last_probe_nonce: Option<SnapshotNonce>,
    pending_probe: Option<(SnapshotNonce, InputGeneration)>,
    buffer: Option<BufferSnapshot>,
    input_generation: InputGeneration,
    input_unacknowledged: bool,
    buffer_generation: Option<InputGeneration>,
    buffer_observed_since_prompt: bool,
    attribution: Option<(SubmittedCommand, AttributionSource)>,
    last_status: Option<ShellExitStatus>,
}

impl View for ShellSessionState {
    type V = SessionStateView;

    closed spec fn view(&self) -> SessionStateView {
        SessionStateView {
            epoch: self.epoch@,
            last_position: position_value(self.last_position),
            order_faulted: self.order_faulted,
            synchronization: self.synchronization,
            foreground: self.foreground,
            prompt_ready: self.prompt_ready,
            capability: self.capability,
            last_nonce: nonce_value(self.last_probe_nonce),
            pending_probe: match self.pending_probe {
                Some((nonce, generation)) => Some((nonce@, generation@)),
                None => None,
            },
            buffer: match self.buffer {
                Some(snapshot) => Some(snapshot@),
                None => None,
            },
            input_generation: self.input_generation@,
            input_unacknowledged: self.input_unacknowledged,
            buffer_generation: generation_value(self.buffer_generation),
            buffer_observed: self.buffer_observed_since_prompt,
            attribution: match self.attribution {
                Some((command, source)) => Some((command@, source)),
                None => None,
            },
            last_status: match self.last_status {
                Some(status) => Some(status@),
                None => None,
            },
        }
    }
}

impl ShellSessionState {
    /// Creates desynchronized state for an explicit decoder epoch.
    pub fn new(epoch: StreamEpoch) -> (state: Self)
        ensures
            state@ == SessionStateView::fresh(epoch@),
            state@.inv(),
    {
        ShellSessionState {
            epoch,
            last_position: None,
            order_faulted: false,
            synchronization: SynchronizationState::Desynchronized,
            foreground: ForegroundCommandState::Unknown,
            prompt_ready: false,
            capability: BufferSyncCapability::Unknown,
            last_probe_nonce: None,
            pending_probe: None,
            buffer: None,
            input_generation: InputGeneration { epoch, sequence: 0 },
            input_unacknowledged: false,
            buffer_generation: None,
            buffer_observed_since_prompt: false,
            attribution: None,
            last_status: None,
        }
    }

    /// Active stream epoch.
    pub fn epoch(&self) -> (epoch: StreamEpoch)
        ensures
            epoch@ == self@.epoch,
    {
        self.epoch
    }

    /// Latest authoritative editing snapshot, if synchronized.
    pub fn buffer(&self) -> (buffer: Option<&BufferSnapshot>)
        ensures
            buffer is Some <==> self@.buffer is Some,
            buffer matches Some(snapshot) ==> self@.buffer == Some(snapshot@) && valid_snapshot(
                snapshot@,
            ),
    {
        match &self.buffer {
            Some(snapshot) => {
                proof {
                    use_type_invariant(snapshot);
                }
                Some(snapshot)
            },
            None => None,
        }
    }

    /// Current local-input authority generation.
    pub fn input_generation(&self) -> (generation: InputGeneration)
        ensures
            generation@ == self@.input_generation,
    {
        self.input_generation
    }

    /// Local-input generation of the accepted buffer snapshot.
    pub fn buffer_generation(&self) -> (generation: Option<InputGeneration>)
        ensures
            generation_value(generation) == self@.buffer_generation,
    {
        self.buffer_generation
    }

    /// Whether session state is authoritative.
    pub fn synchronization(&self) -> (synchronization: SynchronizationState)
        ensures
            synchronization == self@.synchronization,
    {
        self.synchronization
    }

    /// Foreground command state.
    pub fn foreground(&self) -> (foreground: ForegroundCommandState)
        ensures
            foreground == self@.foreground,
    {
        self.foreground
    }

    /// Runtime adapter capability.
    pub fn capability(&self) -> (capability: BufferSyncCapability)
        ensures
            capability == self@.capability,
    {
        self.capability
    }

    /// Nonce of the one outstanding probe request, if any.
    pub fn pending_probe_nonce(&self) -> (nonce: Option<SnapshotNonce>)
        ensures
            nonce_value(nonce) == match self@.pending_probe {
                Some((value, _)) => Some(value),
                None => None,
            },
    {
        match self.pending_probe {
            Some((nonce, _)) => Some(nonce),
            None => None,
        }
    }

    /// Most recent safely applied frame position.
    pub fn last_position(&self) -> (position: Option<FramePosition>)
        ensures
            position_value(position) == self@.last_position,
    {
        self.last_position
    }

    /// Most recently completed command status.
    pub fn last_status(&self) -> (status: Option<ShellExitStatus>)
        ensures
            match status {
                Some(value) => self@.last_status == Some(value@),
                None => self@.last_status is None,
            },
    {
        self.last_status
    }

    /// Whether the shell waits at an editable prompt.
    pub fn prompt_ready(&self) -> (ready: bool)
        ensures
            ready == self@.prompt_ready,
    {
        self.prompt_ready
    }

    /// Whether suggestions may be computed and rendered safely.
    pub fn suggestions_allowed(&self) -> (allowed: bool)
        ensures
            allowed == self@.suggests(),
    {
        self.synchronization == SynchronizationState::Synchronized && self.foreground
            == ForegroundCommandState::Idle && self.prompt_ready && self.capability.supports_live_snapshots()
    }

    /// Invalidates the current snapshot before locally forwarded editing input.
    ///
    /// Callers use the returned generation to correlate downstream query work.
    /// A later authoritative snapshot is tagged with this generation; work for
    /// an older generation must be discarded. An exhausted counter withdraws all
    /// authority rather than wrapping and resurrecting an old snapshot.
    pub fn observe_local_input(&mut self) -> (result: Result<InputGeneration, InputGenerationError>)
        ensures
            final(self)@ == old(self)@.after_input(),
            old(self)@.input_generation.sequence == u64::MAX ==> result == Err::<InputGeneration, _>(
                InputGenerationError::Exhausted,
            ),
            old(self)@.input_generation.sequence < u64::MAX ==> (result matches Ok(generation)
                && generation@ == final(self)@.input_generation),
    {
        proof {
            reveal(SessionStateView::after_input);
        }
        match self.input_generation.sequence.checked_add(1) {
            None => {
                self.invalidate_authority();
                Err(InputGenerationError::Exhausted)
            },
            Some(sequence) => {
                self.input_generation = InputGeneration { epoch: self.epoch, sequence };
                self.input_unacknowledged = true;
                self.invalidate_editing_authority();
                Ok(self.input_generation)
            },
        }
    }

    /// Reserves the next nonce before the caller injects [`SYNC_PROBE_SEQUENCE`].
    ///
    /// Exactly one request may be outstanding. Its response is accepted only if
    /// it echoes this nonce and no newer local-input generation has been issued.
    pub fn begin_sync_probe(&mut self) -> (result: Result<SnapshotNonce, ProbeRequestError>)
        ensures
            final(self)@ == old(self)@.after_probe(),
            match result {
                Ok(nonce) => old(self)@.probe_refusal() is None && nonce@ == old(self)@.last_nonce->0 + 1
                    && final(self)@.pending_probe == Some((nonce@, old(self)@.input_generation)),
                Err(error) => old(self)@.probe_refusal() == Some(error),
            },
    {
        proof {
            reveal(SessionStateView::after_probe);
        }
        if self.capability != BufferSyncCapability::Probe {
            return Err(ProbeRequestError::CapabilityUnavailable);
        }
        if self.foreground != ForegroundCommandState::Idle || !self.prompt_ready {
            return Err(ProbeRequestError::NotAtEditablePrompt);
        }
        if self.pending_probe.is_some() {
            return Err(ProbeRequestError::AlreadyPending);
        }
        match self.last_probe_nonce {
            None => {
                self.invalidate_editing_authority();
                Err(ProbeRequestError::CapabilityUnavailable)
            },
            Some(last_nonce) => match last_nonce.0.checked_add(1) {
                None => {
                    self.invalidate_editing_authority();
                    Err(ProbeRequestError::NonceExhausted)
                },
                Some(value) => {
                    let nonce = SnapshotNonce(value);
                    self.last_probe_nonce = Some(nonce);
                    self.pending_probe = Some((nonce, self.input_generation));
                    Ok(nonce)
                },
            },
        }
    }

    /// Resets state for a newer decoder epoch and requires new authority.
    pub fn reset_stream(&mut self, epoch: StreamEpoch) -> (result: Result<(), StreamResetError>)
        ensures
            epoch@ <= old(self)@.epoch ==> result == Err::<(), _>(StreamResetError::NonIncreasingEpoch)
                && final(self)@ == old(self)@,
            epoch@ > old(self)@.epoch ==> result is Ok && final(self)@ == old(self)@.after_reset(epoch@),
    {
        if epoch.0 <= self.epoch.0 {
            return Err(StreamResetError::NonIncreasingEpoch);
        }
        self.epoch = epoch;
        self.last_position = None;
        self.order_faulted = false;
        self.capability = BufferSyncCapability::Unknown;
        self.last_probe_nonce = None;
        self.pending_probe = None;
        self.input_generation = InputGeneration { epoch, sequence: 0 };
        self.input_unacknowledged = false;
        self.buffer_generation = None;
        self.invalidate_authority();
        Ok(())
    }

    /// Consumes every valid or rejected decoded frame in stream order.
    pub fn apply(&mut self, frame: DecodedFrame) -> (update: StateUpdate)
        ensures
            final(self)@ == old(self)@.after_frame(frame@).0,
            update@ == old(self)@.after_frame(frame@).1,
    {
        proof {
            reveal(SessionStateView::after_frame);
        }
        let received = frame.position();
        let expected_sequence: Option<u128> = match self.last_position {
            None => Some(0),
            Some(last) => last.sequence.checked_add(1),
        };
        let in_sequence: bool = match expected_sequence {
            Some(sequence) => sequence == received.sequence,
            None => false,
        };
        if self.order_faulted || received.epoch != self.epoch || !in_sequence {
            let last_accepted = self.last_position;
            self.order_faulted = true;
            self.invalidate_authority();
            return StateUpdate::StreamOrderRejected { received, last_accepted };
        }
        self.last_position = Some(received);
        match frame {
            DecodedFrame::Rejected(frame) => {
                self.invalidate_authority();
                StateUpdate::FrameRejected(frame.error)
            },
            DecodedFrame::Event(event) => self.apply_event(event.event),
        }
    }

    fn apply_event(&mut self, event: ShellEvent) -> (update: StateUpdate)
        ensures
            final(self)@ == old(self)@.after_event(event@).0,
            update@ == old(self)@.after_event(event@).1,
    {
        match event {
            ShellEvent::Buffer(buffer) => self.synchronize_buffer(buffer),
            ShellEvent::PromptReady => self.synchronize_prompt(),
            ShellEvent::Capability(announcement) => self.announce_capability(announcement),
            ShellEvent::CommandStart(command) => self.start_command(Some(command)),
            ShellEvent::CommandStartUnknown => self.start_command(None),
            ShellEvent::CommandStop(status) => self.stop_command(status),
            ShellEvent::WorkingDirectory(directory) => StateUpdate::WorkingDirectoryChanged(directory),
            ShellEvent::ReloadRequest(request) => StateUpdate::ReloadRequested(request),
        }
    }

    fn synchronize_buffer(&mut self, buffer: BufferSnapshot) -> (update: StateUpdate)
        ensures
            final(self)@ == old(self)@.after_buffer(buffer@).0,
            update@ == old(self)@.after_buffer(buffer@).1,
    {
        if self.foreground == ForegroundCommandState::Running {
            self.invalidate_authority();
            return StateUpdate::LifecycleRejected(LifecycleError::BufferWhileCommandRunning);
        }
        if let Err(rejection) = self.correlate_snapshot(&buffer) {
            self.invalidate_editing_authority();
            return StateUpdate::SnapshotRejected(rejection);
        }
        if self.foreground != ForegroundCommandState::Idle || !self.prompt_ready
            || !self.capability.supports_live_snapshots() {
            self.invalidate_editing_authority();
            return StateUpdate::LifecycleSuppressed;
        }
        let recovered: bool = self.synchronization == SynchronizationState::Desynchronized;
        self.synchronization = SynchronizationState::Synchronized;
        self.buffer = Some(buffer);
        self.buffer_generation = Some(self.input_generation);
        self.input_unacknowledged = false;
        self.buffer_observed_since_prompt = true;
        self.attribution = None;
        StateUpdate::BufferSynchronized { recovered }
    }

    fn synchronize_prompt(&mut self) -> (update: StateUpdate)
        ensures
            final(self)@ == old(self)@.after_prompt().0,
            update@ == old(self)@.after_prompt().1,
    {
        if self.foreground == ForegroundCommandState::Running {
            self.invalidate_authority();
            return StateUpdate::LifecycleRejected(LifecycleError::PromptWhileCommandRunning);
        }
        if self.capability == BufferSyncCapability::Unknown {
            self.invalidate_authority();
            return StateUpdate::LifecycleSuppressed;
        }
        if self.input_unacknowledged {
            return StateUpdate::LifecycleSuppressed;
        }
        let recovered: bool = self.synchronization == SynchronizationState::Desynchronized;
        self.synchronization = SynchronizationState::Synchronized;
        self.foreground = ForegroundCommandState::Idle;
        self.prompt_ready = true;
        self.buffer = Some(BufferSnapshot::empty());
        self.buffer_generation = Some(self.input_generation);
        self.buffer_observed_since_prompt = false;
        self.pending_probe = None;
        self.attribution = None;
        StateUpdate::PromptReady { recovered }
    }

    fn announce_capability(&mut self, announcement: CapabilityAnnouncement) -> (update: StateUpdate)
        ensures
            final(self)@ == old(self)@.after_capability(announcement@).0,
            update@ == old(self)@.after_capability(announcement@).1,
    {
        self.invalidate_editing_authority();
        self.pending_probe = None;
        self.capability = announcement.capability;
        self.last_probe_nonce = announcement.last_probe_nonce;
        StateUpdate::CapabilityChanged(announcement.capability)
    }

    fn correlate_snapshot(&mut self, buffer: &BufferSnapshot) -> (result: Result<(), SnapshotRejection>)
        ensures
            final(self)@ == old(self)@.with_probe_answered(buffer@.nonce),
            match result {
                Ok(()) => old(self)@.distrust(buffer@.nonce) is None,
                Err(rejection) => old(self)@.distrust(buffer@.nonce) == Some(rejection@),
            },
    {
        match (self.capability, buffer.probe_nonce) {
            (BufferSyncCapability::Probe, None) => Err(SnapshotRejection::MissingProbeNonce),
            (BufferSyncCapability::Probe, Some(received)) => {
                match self.pending_probe {
                    None => Err(SnapshotRejection::ProbeNonceMismatch { expected: None, received }),
                    Some((expected, requested)) => {
                        if received.0 != expected.0 {
                            return Err(
                                SnapshotRejection::ProbeNonceMismatch {
                                    expected: Some(expected),
                                    received,
                                },
                            );
                        }
                        self.pending_probe = None;
                        if requested != self.input_generation {
                            return Err(
                                SnapshotRejection::StaleProbeGeneration {
                                    requested,
                                    current: self.input_generation,
                                },
                            );
                        }
                        Ok(())
                    },
                }
            },
            (BufferSyncCapability::Native, Some(nonce)) => Err(
                SnapshotRejection::UnexpectedProbeNonce(nonce),
            ),
            (BufferSyncCapability::Native, None) => {
                if self.input_unacknowledged {
                    Err(
                        SnapshotRejection::UncorrelatedNativeSnapshot {
                            current: self.input_generation,
                        },
                    )
                } else {
                    Ok(())
                }
            },
            _ => Ok(()),
        }
    }

    fn start_command(&mut self, preexec: Option<SubmittedCommand>) -> (update: StateUpdate)
        ensures
            ({
                let command = match preexec {
                    Some(command) => Some(command@),
                    None => None,
                };
                &&& final(self)@ == old(self)@.after_start(command).0
                &&& update@ == old(self)@.after_start(command).1
            }),
    {
        if self.foreground == ForegroundCommandState::Running {
            self.invalidate_authority();
            return StateUpdate::LifecycleRejected(LifecycleError::DuplicateCommandStart);
        }
        self.input_unacknowledged = false;
        if self.foreground == ForegroundCommandState::Unknown || !self.prompt_ready {
            self.foreground = ForegroundCommandState::Running;
            self.prompt_ready = false;
            self.buffer = None;
            self.buffer_observed_since_prompt = false;
            self.attribution = None;
            return StateUpdate::LifecycleSuppressed;
        }
        let preexec_matches_snapshot: Option<bool> = match (&self.buffer, &preexec) {
            (Some(snapshot), Some(command)) => if self.buffer_observed_since_prompt {
                Some(bytes_equal(snapshot.bytes.as_slice(), command.0.as_slice()))
            } else {
                None
            },
            _ => None,
        };
        self.foreground = ForegroundCommandState::Running;
        self.prompt_ready = false;
        self.buffer = None;
        self.buffer_generation = None;
        self.buffer_observed_since_prompt = false;
        self.pending_probe = None;
        match preexec {
            Some(command) => {
                self.attribution = Some((command, AttributionSource::LifecycleFrame));
                StateUpdate::CommandStarted {
                    source: Some(AttributionSource::LifecycleFrame),
                    preexec_matches_snapshot,
                }
            },
            None => {
                self.attribution = None;
                StateUpdate::CommandStarted { source: None, preexec_matches_snapshot }
            },
        }
    }

    fn stop_command(&mut self, status: ShellExitStatus) -> (update: StateUpdate)
        ensures
            final(self)@ == old(self)@.after_stop(status@).0,
            update@ == old(self)@.after_stop(status@).1,
    {
        if self.foreground == ForegroundCommandState::Idle {
            self.invalidate_authority();
            return StateUpdate::LifecycleRejected(LifecycleError::CommandStopWithoutStart);
        }
        if self.foreground == ForegroundCommandState::Unknown {
            self.foreground = ForegroundCommandState::Idle;
            self.prompt_ready = false;
            self.attribution = None;
            return StateUpdate::LifecycleSuppressed;
        }
        self.foreground = ForegroundCommandState::Idle;
        self.prompt_ready = false;
        self.buffer = None;
        self.buffer_generation = None;
        self.last_status = Some(status);
        match self.attribution.take() {
            None => StateUpdate::CommandStoppedWithoutAttribution(status),
            Some((command, source)) => StateUpdate::CommandStopped(
                CompletedCommand { command, status, source },
            ),
        }
    }

    fn invalidate_authority(&mut self)
        ensures
            final(self)@ == old(self)@.without_authority(),
    {
        self.synchronization = SynchronizationState::Desynchronized;
        self.foreground = ForegroundCommandState::Unknown;
        self.prompt_ready = false;
        self.buffer = None;
        self.buffer_generation = None;
        self.buffer_observed_since_prompt = false;
        self.pending_probe = None;
        self.attribution = None;
    }

    fn invalidate_editing_authority(&mut self)
        ensures
            final(self)@ == old(self)@.without_editing(),
    {
        self.synchronization = SynchronizationState::Desynchronized;
        self.buffer = None;
        self.buffer_generation = None;
        self.buffer_observed_since_prompt = false;
        self.attribution = None;
    }
}

impl SynchronizationState {
    /// Name of the state.
    pub open spec fn name_chars(self) -> Seq<char> {
        match self {
            SynchronizationState::Synchronized => "Synchronized"@,
            SynchronizationState::Desynchronized => "Desynchronized"@,
        }
    }

    fn name(self) -> (name: &'static str)
        ensures
            name@ == self.name_chars(),
    {
        match self {
            SynchronizationState::Synchronized => "Synchronized",
            SynchronizationState::Desynchronized => "Desynchronized",
        }
    }
}

impl ForegroundCommandState {
    /// Name of the state.
    pub open spec fn name_chars(self) -> Seq<char> {
        match self {
            ForegroundCommandState::Idle => "Idle"@,
            ForegroundCommandState::Running => "Running"@,
            ForegroundCommandState::Unknown => "Unknown"@,
        }
    }

    fn name(self) -> (name: &'static str)
        ensures
            name@ == self.name_chars(),
    {
        match self {
            ForegroundCommandState::Idle => "Idle",
            ForegroundCommandState::Running => "Running",
            ForegroundCommandState::Unknown => "Unknown",
        }
    }
}

impl BufferSyncCapability {
    /// Name of the capability.
    pub open spec fn name_chars(self) -> Seq<char> {
        match self {
            BufferSyncCapability::Unknown => "Unknown"@,
            BufferSyncCapability::Native => "Native"@,
            BufferSyncCapability::Probe => "Probe"@,
            BufferSyncCapability::Unavailable => "Unavailable"@,
        }
    }

    fn name(self) -> (name: &'static str)
        ensures
            name@ == self.name_chars(),
    {
        match self {
            BufferSyncCapability::Unknown => "Unknown",
            BufferSyncCapability::Native => "Native",
            BufferSyncCapability::Probe => "Probe",
            BufferSyncCapability::Unavailable => "Unavailable",
        }
    }
}

/// An optional snapshot in a diagnostic summary.
pub open spec fn buffer_debug_chars(buffer: Option<SnapshotView>) -> Seq<char> {
    match buffer {
        Some(snapshot) => "Some("@ + snapshot_debug_chars(snapshot) + ")"@,
        None => "None"@,
    }
}

/// An optional frame position in a diagnostic summary.
pub open spec fn position_debug_chars(position: Option<PositionView>) -> Seq<char> {
    match position {
        Some(value) => "Some("@ + frame_position_chars(value) + ")"@,
        None => "None"@,
    }
}

/// A position in a diagnostic summary.
pub open spec fn frame_position_chars(position: PositionView) -> Seq<char> {
    "FramePosition { epoch: StreamEpoch("@ + decimal_chars(position.epoch as nat) + "), sequence: "@
        + decimal_chars(position.sequence as nat) + " }"@
}

fn append_frame_position(summary: &mut String, position: FramePosition)
    ensures
        final(summary)@ == old(summary)@ + frame_position_chars(position@),
{
    summary.append("FramePosition { epoch: StreamEpoch(");
    append_number(summary, position.epoch.0 as u128);
    summary.append("), sequence: ");
    append_number(summary, position.sequence);
    summary.append(" }");
    assert(summary@ =~= old(summary)@ + frame_position_chars(position@));
}

fn append_position(summary: &mut String, position: Option<FramePosition>)
    ensures
        final(summary)@ == old(summary)@ + position_debug_chars(position_value(position)),
{
    match position {
        Some(value) => {
            summary.append("Some(");
            append_frame_position(summary, value);
            summary.append(")");
            assert(summary@ =~= old(summary)@ + position_debug_chars(Some(value@)));
        },
        None => {
            summary.append("None");
        },
    }
}

/// A generation in a diagnostic summary.
pub open spec fn generation_debug_chars(generation: GenerationView) -> Seq<char> {
    "InputGeneration { epoch: StreamEpoch("@ + decimal_chars(generation.epoch as nat) + "), sequence: "@
        + decimal_chars(generation.sequence as nat) + " }"@
}

fn append_generation(summary: &mut String, generation: InputGeneration)
    ensures
        final(summary)@ == old(summary)@ + generation_debug_chars(generation@),
{
    summary.append("InputGeneration { epoch: StreamEpoch(");
    append_number(summary, generation.epoch.0 as u128);
    summary.append("), sequence: ");
    append_number(summary, generation.sequence as u128);
    summary.append(" }");
    assert(summary@ =~= old(summary)@ + generation_debug_chars(generation@));
}

/// An optional generation in a diagnostic summary.
pub open spec fn optional_generation_debug_chars(generation: Option<GenerationView>) -> Seq<char> {
    match generation {
        Some(value) => "Some("@ + generation_debug_chars(value) + ")"@,
        None => "None"@,
    }
}

/// An optional status in a diagnostic summary.
pub open spec fn status_debug_chars(status: Option<u8>) -> Seq<char> {
    match status {
        Some(value) => "Some(ShellExitStatus("@ + decimal_chars(value as nat) + "))"@,
        None => "None"@,
    }
}

impl SessionStateView {
    /// First half of the diagnostic summary.
    pub open spec fn debug_head(self) -> Seq<char> {
        "ShellSessionState { epoch: StreamEpoch("@ + decimal_chars(self.epoch as nat)
            + "), last_position: "@ + position_debug_chars(self.last_position) + ", order_faulted: "@
            + bool_chars(self.order_faulted) + ", synchronization: "@ + self.synchronization.name_chars()
            + ", foreground: "@ + self.foreground.name_chars() + ", prompt_ready: "@ + bool_chars(
            self.prompt_ready,
        ) + ", capability: "@ + self.capability.name_chars() + ", last_probe_nonce: "@ + nonce_debug_chars(
            self.last_nonce,
        ) + ", pending_probe_nonce: "@ + nonce_debug_chars(
            match self.pending_probe {
                Some((nonce, _)) => Some(nonce),
                None => None,
            },
        )
    }

    /// Second half of the diagnostic summary.
    pub open spec fn debug_tail(self) -> Seq<char> {
        ", buffer: "@ + buffer_debug_chars(self.buffer) + ", input_generation: "@ + generation_debug_chars(
            self.input_generation,
        ) + ", input_unacknowledged: "@ + bool_chars(self.input_unacknowledged) + ", buffer_generation: "@
            + optional_generation_debug_chars(self.buffer_generation)
            + ", buffer_observed_since_prompt: "@ + bool_chars(self.buffer_observed)
            + ", attribution_source: "@ + (if self.attribution is Some {
            "Some(LifecycleFrame)"@
        } else {
            "None"@
        }) + ", last_status: "@ + status_debug_chars(self.last_status) + " }"@
    }
}

impl ShellSessionState {
    /// Diagnostic summary, which shows states and sizes and never buffer or
    /// command bytes.
    pub fn debug_text(&self) -> (summary: String)
        ensures
            summary@ == self@.debug_head() + self@.debug_tail(),
    {
        let mut summary = self.debug_head_text();
        let tail = self.debug_tail_text();
        summary.append(tail.as_str());
        summary
    }

    fn debug_head_text(&self) -> (summary: String)
        ensures
            summary@ == self@.debug_head(),
    {
        let mut summary = "ShellSessionState { epoch: StreamEpoch(".to_owned();
        append_number(&mut summary, self.epoch.0 as u128);
        summary.append("), last_position: ");
        append_position(&mut summary, self.last_position);
        summary.append(", order_faulted: ");
        summary.append(bool_text(self.order_faulted));
        summary.append(", synchronization: ");
        summary.append(self.synchronization.name());
        summary.append(", foreground: ");
        summary.append(self.foreground.name());
        summary.append(", prompt_ready: ");
        summary.append(bool_text(self.prompt_ready));
        summary.append(", capability: ");
        summary.append(self.capability.name());
        summary.append(", last_probe_nonce: ");
        append_nonce(&mut summary, self.last_probe_nonce);
        summary.append(", pending_probe_nonce: ");
        append_nonce(&mut summary, self.pending_probe_nonce());
        summary
    }

    fn debug_tail_text(&self) -> (summary: String)
        ensures
            summary@ == self@.debug_tail(),
    {
        let mut summary = ", buffer: ".to_owned();
        let buffer: String = match &self.buffer {
            Some(snapshot) => {
                let mut text = "Some(".to_owned();
                text.append(snapshot.debug_text().as_str());
                text.append(")");
                text
            },
            None => "None".to_owned(),
        };
        summary.append(buffer.as_str());
        summary.append(", input_generation: ");
        append_generation(&mut summary, self.input_generation);
        summary.append(", input_unacknowledged: ");
        summary.append(bool_text(self.input_unacknowledged));
        summary.append(", buffer_generation: ");
        let generation: String = match self.buffer_generation {
            Some(value) => {
                let mut text = "Some(".to_owned();
                append_generation(&mut text, value);
                text.append(")");
                text
            },
            None => "None".to_owned(),
        };
        summary.append(generation.as_str());
        summary.append(", buffer_observed_since_prompt: ");
        summary.append(bool_text(self.buffer_observed_since_prompt));
        summary.append(", attribution_source: ");
        summary.append(
            if self.attribution.is_some() {
                "Some(LifecycleFrame)"
            } else {
                "None"
            },
        );
        summary.append(", last_status: ");
        let status: String = match self.last_status {
            Some(value) => {
                let mut text = "Some(ShellExitStatus(".to_owned();
                append_number(&mut text, value.0 as u128);
                text.append("))");
                text
            },
            None => "None".to_owned(),
        };
        summary.append(status.as_str());
        summary.append(" }");
        summary
    }
}

/// How a stream is cut into chunks changes neither what is reported nor the
/// state that the decoder is left in.
pub proof fn law_events_ignore_chunk_boundaries(
    decoder: EventDecoderView,
    first: Seq<u8>,
    second: Seq<u8>,
)
    ensures
        event_decoder_run(decoder, first + second) == event_decoder_run(
            event_decoder_run(decoder, first),
            second,
        ),
        event_reports(decoder, first + second) == event_reports(decoder, first) + event_reports(
            event_decoder_run(decoder, first),
            second,
        ),
    decreases second.len(),
{
    if second.len() == 0 {
        assert(first + second =~= first);
        assert(event_reports(decoder, first) + Seq::<FrameView>::empty() =~= event_reports(
            decoder,
            first,
        ));
    } else {
        let shorter = second.drop_last();
        assert((first + second).drop_last() =~= first + shorter);
        law_events_ignore_chunk_boundaries(decoder, first, shorter);
        assert(event_reports(decoder, first + second) =~= event_reports(decoder, first)
            + event_reports(event_decoder_run(decoder, first), second));
    }
}

proof fn lemma_unterminated_events(limit: usize, epoch: u64, next: u128, bytes: Seq<u8>)
    requires
        !bytes.contains(0u8),
    ensures
        event_reports(idle_event_decoder(limit, epoch, next), bytes) == Seq::<FrameView>::empty(),
        bytes.len() <= limit ==> event_decoder_run(idle_event_decoder(limit, epoch, next), bytes) == (
        EventDecoderView { pending: bytes, ..idle_event_decoder(limit, epoch, next) }),
        bytes.len() > limit ==> event_decoder_run(idle_event_decoder(limit, epoch, next), bytes) == (
        EventDecoderView {
            oversized: Some(
                if bytes.len() <= usize::MAX {
                    bytes.len() as usize
                } else {
                    usize::MAX
                },
            ),
            ..idle_event_decoder(limit, epoch, next)
        }),
    decreases bytes.len(),
{
    if bytes.len() > 0 {
        let shorter = bytes.drop_last();
        assert(bytes.contains(bytes.last()));
        assert(!shorter.contains(0u8)) by {
            assert forall|i: int| 0 <= i < shorter.len() implies shorter[i] != 0 by {
                assert(bytes.contains(bytes[i]));
            }
        }
        lemma_unterminated_events(limit, epoch, next, shorter);
        assert(shorter.push(bytes.last()) =~= bytes);
    } else {
        assert(bytes =~= Seq::<u8>::empty());
    }
}

/// One terminated frame yields exactly one report, at the next position: what
/// the frame says, or its size where it exceeds the limit. The decoder is then
/// ready for the next frame, whatever this one held.
pub proof fn law_event_frames_are_isolated(limit: usize, epoch: u64, next: u128, frame: Seq<u8>)
    requires
        !frame.contains(0u8),
        frame.len() <= usize::MAX,
    ensures
        event_decoder_run(idle_event_decoder(limit, epoch, next), frame.push(0)) == idle_event_decoder(
            limit,
            epoch,
            sequence_behind(next),
        ),
        event_reports(idle_event_decoder(limit, epoch, next), frame.push(0)) == seq![
            FrameView {
                position: PositionView { epoch, sequence: next },
                content: if frame.len() <= limit {
                    event_meaning(frame)
                } else {
                    Err(FrameError::FrameTooLarge { observed_bytes: frame.len() as usize, limit })
                },
            },
        ],
{
    lemma_unterminated_events(limit, epoch, next, frame);
    assert(frame.push(0).drop_last() =~= frame);
}

/// A decoder numbers its reports without gaps, within its own epoch.
pub proof fn law_positions_are_consecutive(decoder: EventDecoderView, bytes: Seq<u8>)
    requires
        decoder.next_sequence + bytes.len() <= u128::MAX,
    ensures
        event_decoder_run(decoder, bytes).epoch == decoder.epoch,
        event_decoder_run(decoder, bytes).next_sequence == decoder.next_sequence + event_reports(
            decoder,
            bytes,
        ).len(),
        event_reports(decoder, bytes).len() <= bytes.len(),
        forall|i: int|
            0 <= i < event_reports(decoder, bytes).len() ==> (#[trigger] event_reports(decoder, bytes)[i]).position
                == (PositionView {
                epoch: decoder.epoch,
                sequence: (decoder.next_sequence + i) as u128,
            }),
    decreases bytes.len(),
{
    if bytes.len() > 0 {
        law_positions_are_consecutive(decoder, bytes.drop_last());
    }
}

/// State after a run of frames.
pub open spec fn after_frames(state: SessionStateView, frames: Seq<FrameView>) -> SessionStateView
    decreases frames.len(),
{
    if frames.len() == 0 {
        state
    } else {
        after_frames(state, frames.drop_last()).after_frame(frames.last()).0
    }
}

/// A session that consumes everything its decoder reports, in order, never
/// meets an order fault.
pub proof fn law_decoder_and_session_agree_on_order(epoch: u64, limit: usize, bytes: Seq<u8>)
    requires
        bytes.len() <= u128::MAX,
    ensures
        !after_frames(
            SessionStateView::fresh(epoch),
            event_reports(idle_event_decoder(limit, epoch, 0), bytes),
        ).order_faulted,
{
    reveal(SessionStateView::after_frame);
    let decoder = idle_event_decoder(limit, epoch, 0);
    let frames = event_reports(decoder, bytes);
    law_positions_are_consecutive(decoder, bytes);
    lemma_consecutive_frames_are_accepted(epoch, frames);
}

proof fn lemma_consecutive_frames_are_accepted(epoch: u64, frames: Seq<FrameView>)
    requires
        frames.len() <= u128::MAX,
        forall|i: int|
            0 <= i < frames.len() ==> (#[trigger] frames[i]).position == (PositionView {
                epoch,
                sequence: i as u128,
            }),
    ensures
        ({
            let state = after_frames(SessionStateView::fresh(epoch), frames);
            &&& !state.order_faulted
            &&& state.epoch == epoch
            &&& frames.len() == 0 ==> state.last_position is None
            &&& frames.len() > 0 ==> state.last_position == Some(frames.last().position)
        }),
    decreases frames.len(),
{
    reveal(SessionStateView::after_frame);
    if frames.len() > 0 {
        let shorter = frames.drop_last();
        assert forall|i: int| 0 <= i < shorter.len() implies (#[trigger] shorter[i]).position == (
        PositionView { epoch, sequence: i as u128 }) by {
            assert(shorter[i] == frames[i]);
        }
        lemma_consecutive_frames_are_accepted(epoch, shorter);
        let state = after_frames(SessionStateView::fresh(epoch), shorter);
        let last = frames.last();
        assert(last == frames[frames.len() - 1]);
        if shorter.len() > 0 {
            assert(shorter.last() == frames[frames.len() - 2]);
        }
        assert(state.expects(last.position));
    }
}

/// Whether the snapshot in a frame, if there is one, is valid; every frame
/// that a decoder reports meets this.
pub open spec fn carries_valid_snapshot(frame: FrameView) -> bool {
    frame.content matches Ok(EventView::Buffer(snapshot)) ==> valid_snapshot(snapshot)
}

/// The state invariant holds at the start and survives every frame.
pub proof fn law_frames_keep_the_invariant(state: SessionStateView, frame: FrameView)
    requires
        state.inv(),
        carries_valid_snapshot(frame),
    ensures
        state.after_frame(frame).0.inv(),
{
    reveal(SessionStateView::after_frame);
    assert(valid_utf8(Seq::<u8>::empty()));
    assert(valid_snapshot(empty_snapshot()));
}

/// The state invariant survives local input, probes and stream resets.
pub proof fn law_requests_keep_the_invariant(state: SessionStateView, epoch: u64)
    requires
        state.inv(),
    ensures
        state.after_input().inv(),
        state.after_probe().inv(),
        state.after_reset(epoch).inv(),
{
    reveal(SessionStateView::after_input);
    reveal(SessionStateView::after_probe);
}

/// Once a frame arrived out of order, every further frame of the epoch is
/// refused and nothing is suggested, until the stream is reset.
pub proof fn law_order_faults_last_until_reset(state: SessionStateView, frame: FrameView)
    requires
        state.order_faulted,
    ensures
        state.after_frame(frame).1 == (UpdateView::StreamOrderRejected {
            received: frame.position,
            last_accepted: state.last_position,
        }),
        state.after_frame(frame).0.order_faulted,
        !state.after_frame(frame).0.suggests(),
        state.after_frame(frame).0.buffer is None,
{
    reveal(SessionStateView::after_frame);
}

/// A frame of another epoch, a repeated frame and a skipped frame all close
/// the epoch and withdraw the buffer.
pub proof fn law_misplaced_frames_withdraw_authority(state: SessionStateView, frame: FrameView)
    requires
        !state.expects(frame.position),
    ensures
        state.after_frame(frame).0.order_faulted,
        !state.after_frame(frame).0.suggests(),
        state.after_frame(frame).0.buffer is None,
        state.after_frame(frame).0.last_position == state.last_position,
{
    reveal(SessionStateView::after_frame);
}

/// A rejected frame leaves nothing to suggest from and nothing to attribute.
pub proof fn law_rejected_frames_withdraw_authority(state: SessionStateView, frame: FrameView)
    requires
        frame.content is Err,
    ensures
        !state.after_frame(frame).0.suggests(),
        state.after_frame(frame).0.buffer is None,
        state.after_frame(frame).0.attribution is None,
        state.after_frame(frame).0.pending_probe is None,
        state.after_frame(frame).0.foreground is Unknown,
{
    reveal(SessionStateView::after_frame);
}

/// Suggestions become possible only by an accepted snapshot or prompt.
pub proof fn law_only_authority_enables_suggestions(state: SessionStateView, frame: FrameView)
    requires
        !state.suggests(),
        state.after_frame(frame).0.suggests(),
    ensures
        state.after_frame(frame).1 is BufferSynchronized || state.after_frame(frame).1 is PromptReady,
        state.after_frame(frame).0.buffer is Some,
{
    reveal(SessionStateView::after_frame);
}

/// After local input no snapshot that may already be on its way is believed.
pub proof fn law_local_input_outdates_every_snapshot(state: SessionStateView, snapshot: SnapshotView)
    requires
        state.inv(),
        state.input_generation.sequence < u64::MAX,
    ensures
        !(state.after_input().after_buffer(snapshot).1 is BufferSynchronized),
        state.after_input().after_buffer(snapshot).0.buffer is None,
        !state.after_input().after_buffer(snapshot).0.suggests(),
{
    reveal(SessionStateView::after_input);
}

/// A response to the probe just issued is believed.
pub proof fn law_answered_probe_synchronizes(state: SessionStateView, snapshot: SnapshotView)
    requires
        state.probe_refusal() is None,
        snapshot.nonce == Some((state.last_nonce->0 + 1) as u64),
    ensures
        state.after_probe().after_buffer(snapshot).1 is BufferSynchronized,
        state.after_probe().after_buffer(snapshot).0.buffer == Some(snapshot),
        state.after_probe().after_buffer(snapshot).0.suggests(),
        state.after_probe().after_buffer(snapshot).0.pending_probe is None,
{
    reveal(SessionStateView::after_probe);
}

/// Every probe takes a nonce that is larger than all before it, and only one
/// probe is outstanding at a time.
pub proof fn law_probe_nonces_increase(state: SessionStateView)
    requires
        state.probe_refusal() is None,
    ensures
        state.after_probe().last_nonce matches Some(nonce) && nonce == state.last_nonce->0 + 1,
        state.after_probe().probe_refusal() == Some(ProbeRequestError::AlreadyPending),
{
    reveal(SessionStateView::after_probe);
}

/// A command whose bytes were reported at its start is attributed those exact
/// bytes when it stops; one whose bytes were not reported is attributed to
/// nothing, whatever the buffer held.
pub proof fn law_commands_are_attributed_exactly(
    state: SessionStateView,
    command: Option<Seq<u8>>,
    status: u8,
)
    requires
        state.foreground is Idle,
        state.prompt_ready,
    ensures
        state.after_start(command).0.after_stop(status).1 == match command {
            Some(bytes) => UpdateView::CommandStopped(
                CompletedView { command: bytes, status, source: AttributionSource::LifecycleFrame },
            ),
            None => UpdateView::CommandStoppedWithoutAttribution(status),
        },
        state.after_start(command).0.after_stop(status).0.last_status == Some(status),
{
}

/// Completion is only reported of a command that was running.
pub proof fn law_no_completion_without_start(state: SessionStateView, status: u8)
    requires
        !(state.foreground is Running),
    ensures
        !(state.after_stop(status).1 is CommandStopped),
        !(state.after_stop(status).1 is CommandStoppedWithoutAttribution),
        state.after_stop(status).0.last_status == state.last_status,
{
}

/// A snapshot that a frame reports is UTF-8 text with the cursor between two
/// characters, in whichever unit the frame counts.
pub proof fn law_reported_snapshots_are_valid(frame: Seq<u8>)
    ensures
        event_meaning(frame) matches Ok(EventView::Buffer(snapshot)) ==> valid_snapshot(snapshot),
{
    lemma_buffer_snapshots_are_valid(behind(frame, "buffer:b:"), CursorUnit::Bytes, None);
    lemma_buffer_snapshots_are_valid(behind(frame, "buffer:c:"), CursorUnit::Characters, None);
    lemma_probe_snapshots_are_valid(behind(frame, "probe-buffer:b:"), CursorUnit::Bytes);
    lemma_probe_snapshots_are_valid(behind(frame, "probe-buffer:c:"), CursorUnit::Characters);
    lemma_probe_snapshots_are_valid(behind(frame, "probe-buffer:f:"), CursorUnit::FishCharacters);
}

proof fn lemma_probe_snapshots_are_valid(frame: Seq<u8>, unit: CursorUnit)
    ensures
        probe_buffer_meaning(frame, unit) matches Ok(snapshot) ==> valid_snapshot(snapshot),
{
    let colon = first_index(frame, 58);
    if colon < frame.len() {
        if let Ok(nonce) = nonce_meaning(frame.subrange(0, colon)) {
            lemma_buffer_snapshots_are_valid(skip_bytes(frame, colon + 1), unit, Some(nonce));
        }
    }
}

proof fn lemma_buffer_snapshots_are_valid(frame: Seq<u8>, unit: CursorUnit, nonce: Option<u64>)
    ensures
        buffer_meaning(frame, unit, nonce) matches Ok(snapshot) ==> valid_snapshot(snapshot),
{
    if let Ok(snapshot) = buffer_meaning(frame, unit, nonce) {
        let bytes = snapshot.bytes;
        if !(unit is Bytes) {
            let chars = decode_utf8(bytes);
            let colon = first_index(frame, 58);
            if let Numeral::Number(cursor) = numeral(frame.subrange(0, colon), usize::MAX as nat) {
                let front = chars.subrange(0, cursor as int);
                let back = chars.subrange(cursor as int, chars.len() as int);
                assert(front + back =~= chars);
                decode_utf8_encode_utf8(bytes);
                lemma_encode_concat(front, back);
                lemma_boundary_between(front, back);
            }
        }
    }
}

/// Whatever bytes a shell writes, the session that consumes their frames keeps
/// its invariant.
pub proof fn law_sessions_keep_the_invariant(epoch: u64, limit: usize, bytes: Seq<u8>)
    ensures
        after_frames(
            SessionStateView::fresh(epoch),
            event_reports(idle_event_decoder(limit, epoch, 0), bytes),
        ).inv(),
    decreases bytes.len(),
{
    let decoder = idle_event_decoder(limit, epoch, 0);
    if bytes.len() > 0 {
        let shorter = bytes.drop_last();
        law_sessions_keep_the_invariant(epoch, limit, shorter);
        if bytes.last() == 0 {
            let frames = event_reports(decoder, bytes);
            assert(frames.drop_last() =~= event_reports(decoder, shorter));
            let held = event_decoder_run(decoder, shorter);
            law_reported_snapshots_are_valid(held.pending);
            assert(frames.last() == terminated_frame(held));
            law_frames_keep_the_invariant(
                after_frames(SessionStateView::fresh(epoch), frames.drop_last()),
                frames.last(),
            );
        }
    }
}

/// A working directory is reported as its exact bytes, where it is absolute and
/// not too long.
pub proof fn law_directories_are_reported_exactly(path: Seq<u8>)
    ensures
        0 < path.len() <= MAX_WORKING_DIRECTORY_BYTES && path[0] == 47 ==> event_meaning(
            "cwd:".spec_bytes() + path,
        ) == Ok::<_, FrameError>(EventView::WorkingDirectory(path)),
        path.len() == 0 || path[0] != 47 || path.len() > MAX_WORKING_DIRECTORY_BYTES
            ==> event_meaning("cwd:".spec_bytes() + path) == Err::<EventView, _>(
            FrameError::InvalidWorkingDirectory,
        ),
{
    lemma_literal_beginnings();
    let prefix = "cwd:".spec_bytes();
    let frame = prefix + path;
    assert(frame[0] == prefix[0]);
    lemma_other_first_byte(frame);
    assert(frame.subrange(0, prefix.len() as int) =~= prefix);
    assert(behind(frame, "cwd:") =~= path);
}

/// A command is reported with its exact bytes, and its end with its status.
pub proof fn law_commands_are_reported_exactly(command: Seq<u8>, status: u8)
    requires
        command.len() > 0,
    ensures
        event_meaning("command-start:".spec_bytes() + command) == Ok::<_, FrameError>(
            EventView::CommandStart(command),
        ),
        event_meaning("command-start-unknown".spec_bytes()) == Ok::<_, FrameError>(
            EventView::CommandStartUnknown,
        ),
        event_meaning("command-stop:".spec_bytes() + decimal_digits(status as nat)) == Ok::<
            _,
            FrameError,
        >(EventView::CommandStop(status)),
{
    lemma_literal_beginnings();
    lemma_command_literals();
    let start = "command-start:".spec_bytes();
    let stop = "command-stop:".spec_bytes();
    let digits = decimal_digits(status as nat);
    lemma_decimal_digits_shape(status as nat);
    let begun = start + command;
    assert(begun[0] == start[0] && begun[1] == start[1] && begun[13] == start[13]);
    lemma_other_first_byte(begun);
    assert(begun.subrange(0, start.len() as int) =~= start);
    assert(behind(begun, "command-start:") =~= command);
    lemma_not_a_directory(begun);
    let unknown = "command-start-unknown".spec_bytes();
    lemma_other_first_byte(unknown);
    lemma_not_a_directory(unknown);
    let ended = stop + digits;
    assert(ended[0] == stop[0] && ended[1] == stop[1] && ended[10] == stop[10]);
    lemma_other_first_byte(ended);
    lemma_not_a_directory(ended);
    assert(ended.subrange(0, stop.len() as int) =~= stop);
    assert(behind(ended, "command-stop:") =~= digits);
    assert(!has_prefix(ended, start)) by {
        if has_prefix(ended, start) {
            assert(ended.subrange(0, start.len() as int)[10] == start[10]);
        }
    }
    assert(ended != unknown);
    lemma_not_a_capability(ended);
}

/// A prompt is reported in so many words.
pub proof fn law_prompts_are_reported()
    ensures
        event_meaning("prompt-ready".spec_bytes()) == Ok::<_, FrameError>(EventView::PromptReady),
{
    lemma_literal_beginnings();
    let prompt = "prompt-ready".spec_bytes();
    lemma_no_prefix(prompt, "buffer:b:".spec_bytes());
    lemma_no_prefix(prompt, "buffer:c:".spec_bytes());
}

/// An adapter that answers probes says where its counter stands.
pub proof fn law_probing_adapters_report_their_counter(nonce: u64)
    ensures
        event_meaning("capability:sync-probe:".spec_bytes() + decimal_digits(nonce as nat)) == Ok::<
            _,
            FrameError,
        >(
            EventView::Capability(
                CapabilityView { capability: BufferSyncCapability::Probe, last_nonce: Some(nonce) },
            ),
        ),
{
    lemma_capability_literals();
    let prefix = "capability:sync-probe:".spec_bytes();
    let digits = decimal_digits(nonce as nat);
    lemma_decimal_digits_shape(nonce as nat);
    let probe = prefix + digits;
    assert(probe[0] == prefix[0] && probe[1] == prefix[1] && probe[11] == prefix[11]);
    assert(probe.subrange(0, prefix.len() as int) =~= prefix);
    assert(behind(probe, "capability:sync-probe:") =~= digits);
    lemma_capability_event(probe);
}

/// An adapter that reports by itself, or not at all, says so.
pub proof fn law_other_adapters_report_themselves()
    ensures
        event_meaning("capability:native-buffer".spec_bytes()) == Ok::<_, FrameError>(
            EventView::Capability(
                CapabilityView { capability: BufferSyncCapability::Native, last_nonce: None },
            ),
        ),
        event_meaning("capability:unavailable".spec_bytes()) == Ok::<_, FrameError>(
            EventView::Capability(
                CapabilityView { capability: BufferSyncCapability::Unavailable, last_nonce: None },
            ),
        ),
{
    lemma_capability_literals();
    let probe = "capability:sync-probe:".spec_bytes();
    let unavailable = "capability:unavailable".spec_bytes();
    assert(!has_prefix(unavailable, probe)) by {
        if has_prefix(unavailable, probe) {
            assert(unavailable.subrange(0, probe.len() as int)[11] == probe[11]);
        }
    }
    lemma_capability_event("capability:native-buffer".spec_bytes());
    lemma_capability_event(unavailable);
}

/// A buffer that answers a probe is reported with that probe's nonce, its cursor
/// and its exact bytes.
pub proof fn law_buffers_are_reported_exactly(nonce: u64, cursor: usize, bytes: Seq<u8>)
    requires
        valid_utf8(bytes),
        is_char_boundary(bytes, cursor as int),
    ensures
        event_meaning(
            "probe-buffer:b:".spec_bytes() + decimal_digits(nonce as nat).push(58) + decimal_digits(
                cursor as nat,
            ).push(58) + bytes,
        ) == Ok::<_, FrameError>(
            EventView::Buffer(SnapshotView { bytes, cursor: cursor as int, nonce: Some(nonce) }),
        ),
{
    lemma_literal_beginnings();
    let prefix = "probe-buffer:b:".spec_bytes();
    let first = decimal_digits(nonce as nat);
    let second = decimal_digits(cursor as nat);
    lemma_decimal_digits_shape(nonce as nat);
    lemma_decimal_digits_shape(cursor as nat);
    let frame = prefix + first.push(58) + second.push(58) + bytes;
    let outer = first.push(58) + second.push(58) + bytes;
    let inner = second.push(58) + bytes;
    assert(frame.subrange(0, prefix.len() as int) =~= prefix);
    assert(behind(frame, "probe-buffer:b:") =~= outer);
    assert forall|i: int| 0 <= i < first.len() implies #[trigger] outer[i] != 58 by {
        assert(outer[i] == first[i]);
        assert(is_digit(first[i]));
    }
    assert(outer[first.len() as int] == 58);
    lemma_first_index(outer, 58, first.len() as int);
    assert(outer.subrange(0, first.len() as int) =~= first);
    assert(skip_bytes(outer, first.len() as int + 1) =~= inner);
    assert forall|i: int| 0 <= i < second.len() implies #[trigger] inner[i] != 58 by {
        assert(inner[i] == second[i]);
        assert(is_digit(second[i]));
    }
    assert(inner[second.len() as int] == 58);
    lemma_first_index(inner, 58, second.len() as int);
    assert(inner.subrange(0, second.len() as int) =~= second);
    assert(skip_bytes(inner, second.len() as int + 1) =~= bytes);
    assert(cursor <= bytes.len()) by {
        if cursor > bytes.len() {
            assert(!is_char_boundary(bytes, cursor as int));
        }
    }
}

/// A cursor that is counted in characters stands behind so many characters.
pub proof fn law_cursors_count_characters(front: Seq<char>, back: Seq<char>)
    ensures
        cursor_meaning(encode_utf8(front + back), CursorUnit::Characters, front.len()) == Ok::<
            _,
            FrameError,
        >(encode_utf8(front).len() as int),
        cursor_meaning(encode_utf8(front + back), CursorUnit::FishCharacters, front.len()) == Ok::<
            _,
            FrameError,
        >(encode_utf8(front).len() as int),
        cursor_meaning(encode_utf8(front + back), CursorUnit::Bytes, encode_utf8(front).len()) == Ok::<
            _,
            FrameError,
        >(encode_utf8(front).len() as int),
        cursor_meaning(encode_utf8(front), CursorUnit::Characters, front.len() + 1) == Err::<int, _>(
            FrameError::CursorOutOfRange,
        ),
{
    encode_utf8_decode_utf8(front + back);
    encode_utf8_decode_utf8(front);
    lemma_encode_concat(front, back);
    lemma_boundary_between(front, back);
    assert((front + back).subrange(0, front.len() as int) =~= front);
}

proof fn lemma_literal_beginnings()
    ensures
        "cwd:".spec_bytes().len() == 4 && "cwd:".spec_bytes()[0] == 99 && "cwd:".spec_bytes()[1] == 119,
        "probe-buffer:b:".spec_bytes().len() == 15 && "probe-buffer:b:".spec_bytes()[0] == 112,
        "probe-buffer:c:".spec_bytes().len() == 15 && "probe-buffer:c:".spec_bytes()[0] == 112,
        "probe-buffer:f:".spec_bytes().len() == 15 && "probe-buffer:f:".spec_bytes()[0] == 112,
        "buffer:b:".spec_bytes().len() == 9 && "buffer:b:".spec_bytes()[0] == 98,
        "buffer:c:".spec_bytes().len() == 9 && "buffer:c:".spec_bytes()[0] == 98,
        "prompt-ready".spec_bytes().len() == 12 && "prompt-ready".spec_bytes()[0] == 112,
        "reload-request:".spec_bytes().len() == 15 && "reload-request:".spec_bytes()[0] == 114,
{
    broadcast use is_ascii_spec_bytes;

    reveal_strlit("cwd:");
    reveal_strlit("probe-buffer:b:");
    reveal_strlit("probe-buffer:c:");
    reveal_strlit("probe-buffer:f:");
    reveal_strlit("buffer:b:");
    reveal_strlit("buffer:c:");
    reveal_strlit("prompt-ready");
    reveal_strlit("reload-request:");
    assert(is_ascii("cwd:"));
    assert(is_ascii("probe-buffer:b:"));
    assert(is_ascii("probe-buffer:c:"));
    assert(is_ascii("probe-buffer:f:"));
    assert(is_ascii("buffer:b:"));
    assert(is_ascii("buffer:c:"));
    assert(is_ascii("prompt-ready"));
    assert(is_ascii("reload-request:"));
}

proof fn lemma_command_literals()
    ensures
        "command-start:".spec_bytes().len() == 14 && "command-start:".spec_bytes()[0] == 99
            && "command-start:".spec_bytes()[1] == 111 && "command-start:".spec_bytes()[13] == 58
            && "command-start:".spec_bytes()[9] == 116 && "command-start:".spec_bytes()[10] == 97,
        "command-start-unknown".spec_bytes().len() == 21 && "command-start-unknown".spec_bytes()[0] == 99
            && "command-start-unknown".spec_bytes()[1] == 111
            && "command-start-unknown".spec_bytes()[13] == 45,
        "command-stop:".spec_bytes().len() == 13 && "command-stop:".spec_bytes()[0] == 99
            && "command-stop:".spec_bytes()[1] == 111 && "command-stop:".spec_bytes()[10] == 111,
{
    broadcast use is_ascii_spec_bytes;

    reveal_strlit("command-start:");
    reveal_strlit("command-start-unknown");
    reveal_strlit("command-stop:");
    assert(is_ascii("command-start:"));
    assert(is_ascii("command-start-unknown"));
    assert(is_ascii("command-stop:"));
}

proof fn lemma_capability_literals()
    ensures
        "capability:native-buffer".spec_bytes().len() == 24
            && "capability:native-buffer".spec_bytes()[0] == 99
            && "capability:native-buffer".spec_bytes()[1] == 97,
        "capability:sync-probe:".spec_bytes().len() == 22 && "capability:sync-probe:".spec_bytes()[0] == 99
            && "capability:sync-probe:".spec_bytes()[1] == 97
            && "capability:sync-probe:".spec_bytes()[11] == 115,
        "capability:native-buffer".spec_bytes()[11] == 110,
        "capability:unavailable".spec_bytes().len() == 22 && "capability:unavailable".spec_bytes()[0] == 99
            && "capability:unavailable".spec_bytes()[1] == 97
            && "capability:unavailable".spec_bytes()[11] == 117,
{
    broadcast use is_ascii_spec_bytes;

    reveal_strlit("capability:native-buffer");
    reveal_strlit("capability:sync-probe:");
    reveal_strlit("capability:unavailable");
    assert(is_ascii("capability:native-buffer"));
    assert(is_ascii("capability:sync-probe:"));
    assert(is_ascii("capability:unavailable"));
}

/// A frame that begins with this letter reports neither a buffer nor a prompt.
proof fn lemma_other_first_byte(frame: Seq<u8>)
    requires
        frame.len() > 0,
        frame[0] == 99,
    ensures
        event_meaning(frame) == lifecycle_meaning(frame),
        frame != "prompt-ready".spec_bytes(),
        !has_prefix(frame, "reload-request:".spec_bytes()),
{
    lemma_literal_beginnings();
    lemma_no_prefix(frame, "probe-buffer:b:".spec_bytes());
    lemma_no_prefix(frame, "probe-buffer:c:".spec_bytes());
    lemma_no_prefix(frame, "probe-buffer:f:".spec_bytes());
    lemma_no_prefix(frame, "buffer:b:".spec_bytes());
    lemma_no_prefix(frame, "buffer:c:".spec_bytes());
    lemma_no_prefix(frame, "reload-request:".spec_bytes());
}

proof fn lemma_no_prefix(frame: Seq<u8>, prefix: Seq<u8>)
    requires
        frame.len() > 0,
        prefix.len() > 0,
        frame[0] != prefix[0],
    ensures
        !has_prefix(frame, prefix),
{
    if has_prefix(frame, prefix) {
        assert(frame.subrange(0, prefix.len() as int)[0] == prefix[0]);
    }
}

proof fn lemma_not_a_directory(frame: Seq<u8>)
    requires
        frame.len() > 1,
        frame[1] != 119,
    ensures
        !has_prefix(frame, "cwd:".spec_bytes()),
{
    lemma_literal_beginnings();
    if has_prefix(frame, "cwd:".spec_bytes()) {
        assert(frame.subrange(0, 4)[1] == "cwd:".spec_bytes()[1]);
    }
}

proof fn lemma_not_a_capability(frame: Seq<u8>)
    requires
        frame.len() > 1,
        frame[1] != 97,
    ensures
        capability_meaning(frame) is None,
{
    lemma_capability_literals();
    if has_prefix(frame, "capability:sync-probe:".spec_bytes()) {
        assert(frame.subrange(0, 22)[1] == "capability:sync-probe:".spec_bytes()[1]);
    }
}

proof fn lemma_capability_event(frame: Seq<u8>)
    requires
        frame.len() > 1,
        frame[0] == 99,
        frame[1] == 97,
        capability_meaning(frame) is Some,
    ensures
        event_meaning(frame) == match capability_meaning(frame)->0 {
            Ok(capability) => Ok::<_, FrameError>(EventView::Capability(capability)),
            Err(error) => Err(error),
        },
{
    lemma_other_first_byte(frame);
    lemma_not_a_directory(frame);
    lemma_command_literals();
    if has_prefix(frame, "command-start:".spec_bytes()) {
        assert(frame.subrange(0, 14)[1] == "command-start:".spec_bytes()[1]);
    }
}

/// A snapshot is believed only where it was asked for, since nothing was typed
/// after the question: one without its nonce, with another one, or about an
/// earlier state of the line is refused, and leaves no buffer.
pub proof fn law_unasked_snapshots_are_refused(
    state: SessionStateView,
    snapshot: SnapshotView,
    asked: u64,
    generation: GenerationView,
)
    requires
        state.capability is Probe,
        !(state.foreground is Running),
    ensures
        ({
            let (after, update) = state.after_buffer(snapshot);
            let answers = state.pending_probe matches Some((nonce, about)) && snapshot.nonce == Some(
                nonce,
            ) && about == state.input_generation;
            &&& !answers ==> update is SnapshotRejected && after.buffer is None && !after.suggests()
            &&& answers && state.foreground is Idle && state.prompt_ready ==> update is BufferSynchronized
                && after.buffer == Some(snapshot) && after.pending_probe is None
            &&& state.pending_probe == Some((asked, generation)) && snapshot.nonce == Some(asked)
                ==> after.pending_probe is None
            &&& state.pending_probe == Some((asked, generation)) && snapshot.nonce != Some(asked)
                ==> after.pending_probe == state.pending_probe
        }),
{
}

/// A native snapshot is believed as long as nothing was typed that it may not
/// know of, and never with a nonce.
pub proof fn law_native_snapshots_follow_input(state: SessionStateView, snapshot: SnapshotView)
    requires
        state.capability is Native,
        state.foreground is Idle,
        state.prompt_ready,
    ensures
        ({
            let (after, update) = state.after_buffer(snapshot);
            &&& snapshot.nonce is None && !state.input_unacknowledged ==> update is BufferSynchronized
                && after.buffer == Some(snapshot) && after.suggests()
            &&& snapshot.nonce is Some || state.input_unacknowledged ==> update is SnapshotRejected
                && after.buffer is None
        }),
{
}

/// A prompt while nothing runs is an empty buffer at which editing begins, unless
/// the adapter was never announced or input is still unanswered.
pub proof fn law_prompts_open_editing(state: SessionStateView)
    ensures
        ({
            let (after, update) = state.after_prompt();
            let quiet = !(state.foreground is Running) && !(state.capability is Unknown)
                && !state.input_unacknowledged;
            &&& quiet ==> {
                &&& update is PromptReady
                &&& after.foreground is Idle && after.prompt_ready
                &&& after.synchronization is Synchronized
                &&& after.buffer matches Some(snapshot) && snapshot.bytes.len() == 0 && snapshot.cursor
                    == 0
                &&& after.pending_probe is None
                &&& after.capability == state.capability && after.last_nonce == state.last_nonce
            }
            &&& state.foreground is Running ==> update is LifecycleRejected && after.buffer is None
            &&& !(state.foreground is Running) && state.capability is Unknown ==> update
                is LifecycleSuppressed && !after.prompt_ready
            &&& !(state.foreground is Running) && !(state.capability is Unknown)
                && state.input_unacknowledged ==> update is LifecycleSuppressed && after == state
        }),
{
}

/// A started command runs until it stops; what was known of the buffer is gone,
/// and whether the command is what the buffer last showed is said where both are
/// known.
pub proof fn law_commands_start_and_stop(state: SessionStateView, command: Seq<u8>, status: u8)
    requires
        state.foreground is Idle,
        state.prompt_ready,
    ensures
        ({
            let (running, started) = state.after_start(Some(command));
            let (stopped, ended) = running.after_stop(status);
            &&& running.foreground is Running && !running.prompt_ready && running.buffer is None
            &&& !running.suggests()
            &&& started matches UpdateView::CommandStarted { preexec_matches_snapshot, .. }
            &&& state.buffer is Some && state.buffer_observed ==> preexec_matches_snapshot == Some(
                state.buffer->0.bytes == command,
            )
            &&& state.buffer is None || !state.buffer_observed ==> preexec_matches_snapshot is None
            &&& stopped.foreground is Idle && !stopped.prompt_ready && stopped.buffer is None
            &&& stopped.last_status == Some(status)
            &&& ended is CommandStopped
            &&& state.after_start(None).1 is CommandStarted
            &&& running.after_start(Some(command)).1 is LifecycleRejected
            &&& state.after_stop(status).1 is LifecycleRejected
        }),
{
}

/// An adapter that announces itself is believed about its capability and its
/// counter; everything about the buffer has to be reported anew.
pub proof fn law_announcements_begin_anew(state: SessionStateView, announced: CapabilityView)
    ensures
        ({
            let (after, update) = state.after_capability(announced);
            &&& after.capability == announced.capability
            &&& after.last_nonce == announced.last_nonce
            &&& after.pending_probe is None
            &&& after.buffer is None && !after.suggests()
            &&& after.foreground == state.foreground && after.prompt_ready == state.prompt_ready
            &&& update == UpdateView::CapabilityChanged(announced.capability)
        }),
{
}

/// A probe can be sent exactly at an editable prompt of an adapter that answers
/// probes, while none is outstanding and a nonce is left; it asks about the input
/// so far.
pub proof fn law_probes_need_an_editable_prompt(state: SessionStateView)
    ensures
        state.probe_refusal() is None <==> {
            &&& state.capability is Probe
            &&& state.foreground is Idle
            &&& state.prompt_ready
            &&& state.pending_probe is None
            &&& state.last_nonce matches Some(nonce) && nonce < u64::MAX
        },
        state.probe_refusal() is None ==> {
            let after = state.after_probe();
            &&& after.last_nonce matches Some(nonce) && nonce == state.last_nonce->0 + 1
                && after.pending_probe == Some((nonce, state.input_generation))
            &&& after.buffer == state.buffer && after.synchronization == state.synchronization
        },
        state.capability is Probe && state.foreground is Idle && state.prompt_ready
            && state.pending_probe is Some ==> state.probe_refusal() == Some(
            ProbeRequestError::AlreadyPending,
        ) && state.after_probe() == state,
        !(state.capability is Probe) ==> state.probe_refusal() == Some(
            ProbeRequestError::CapabilityUnavailable,
        ),
        state.capability is Probe && (!(state.foreground is Idle) || !state.prompt_ready)
            ==> state.probe_refusal() == Some(ProbeRequestError::NotAtEditablePrompt),
{
    reveal(SessionStateView::after_probe);
}

/// Input makes what was known of the buffer void and starts a new generation;
/// a new stream starts with nothing known but the last status.
pub proof fn law_input_and_resets_withdraw_the_buffer(state: SessionStateView, epoch: u64)
    ensures
        state.input_generation.sequence < u64::MAX ==> {
            let after = state.after_input();
            &&& after.input_generation.sequence == state.input_generation.sequence + 1
            &&& after.input_unacknowledged
            &&& after.buffer is None && !after.suggests()
            &&& after.foreground == state.foreground && after.prompt_ready == state.prompt_ready
            &&& after.last_nonce == state.last_nonce && after.pending_probe == state.pending_probe
        },
        ({
            let fresh = state.after_reset(epoch);
            &&& fresh.epoch == epoch
            &&& fresh.last_status == state.last_status
            &&& fresh.buffer is None && !fresh.suggests() && !fresh.order_faulted
            &&& fresh.capability is Unknown && fresh.foreground is Unknown
            &&& fresh.last_position is None && fresh.pending_probe is None
        }),
{
    reveal(SessionStateView::after_input);
}

/// Suggestions need a known buffer at the prompt of an adapter that reports
/// changes, while nothing runs.
pub proof fn law_suggestions_need_a_live_prompt(state: SessionStateView)
    ensures
        state.suggests() <==> {
            &&& state.synchronization is Synchronized
            &&& state.foreground is Idle
            &&& state.prompt_ready
            &&& state.capability is Native || state.capability is Probe
        },
{
}

/// Frames are taken in one by one: the first of an epoch, then each next one.
pub proof fn law_frames_are_expected_in_order(state: SessionStateView, position: PositionView)
    ensures
        state.expects(position) <==> {
            &&& !state.order_faulted
            &&& position.epoch == state.epoch
            &&& state.last_position is None ==> position.sequence == 0
            &&& state.last_position is Some ==> position.sequence == state.last_position->0.sequence + 1
        },
        state.expects(position) ==> forall|event: EventView|
            (#[trigger] state.after_frame(
                FrameView { position, content: Ok(event) },
            )).0.last_position == Some(position),
{
    reveal(SessionStateView::after_frame);
}

/// A request to read the configuration again carries a positive number.
pub proof fn law_reload_requests_are_numbered(number: u32)
    requires
        number > 0,
    ensures
        event_meaning("reload-request:".spec_bytes() + decimal_digits(number as nat)) == Ok::<
            _,
            FrameError,
        >(EventView::ReloadRequest(number)),
{
    lemma_literal_beginnings();
    let prefix = "reload-request:".spec_bytes();
    let digits = decimal_digits(number as nat);
    lemma_decimal_digits_shape(number as nat);
    lemma_decimal_width(number as nat);
    let frame = prefix + digits;
    assert(frame[0] == prefix[0]);
    lemma_no_prefix(frame, "probe-buffer:b:".spec_bytes());
    lemma_no_prefix(frame, "probe-buffer:c:".spec_bytes());
    lemma_no_prefix(frame, "probe-buffer:f:".spec_bytes());
    lemma_no_prefix(frame, "buffer:b:".spec_bytes());
    lemma_no_prefix(frame, "buffer:c:".spec_bytes());
    lemma_no_prefix(frame, "cwd:".spec_bytes());
    assert(frame.subrange(0, prefix.len() as int) =~= prefix);
    assert(behind(frame, "reload-request:") =~= digits);
}

/// A payload is the buffer as it is; only where a shell prints a line feed behind
/// it, that is taken off, and has to be there.
pub proof fn law_payloads_are_the_buffer(text: Seq<char>, unit: CursorUnit, nonce: Option<u64>)
    ensures
        !(unit is FishCharacters) ==> payload_meaning(encode_utf8(text), unit, 0, nonce) == Ok::<
            _,
            FrameError,
        >(SnapshotView { bytes: encode_utf8(text), cursor: 0, nonce }),
        payload_meaning(encode_utf8(text).push(10), CursorUnit::FishCharacters, 0, nonce) == Ok::<
            _,
            FrameError,
        >(SnapshotView { bytes: encode_utf8(text), cursor: 0, nonce }),
        encode_utf8(text).len() == 0 || encode_utf8(text).last() != 10 ==> payload_meaning(
            encode_utf8(text),
            CursorUnit::FishCharacters,
            0,
            nonce,
        ) == Err::<SnapshotView, _>(FrameError::MissingFishPrintTerminator),
{
    encode_utf8_valid_utf8(text);
    law_cursors_count_characters(Seq::empty(), text);
    assert(Seq::<char>::empty() + text =~= text);
    assert(encode_utf8(Seq::<char>::empty()) =~= Seq::<u8>::empty());
    assert(encode_utf8(text).push(10).drop_last() =~= encode_utf8(text));
}

} // verus!
