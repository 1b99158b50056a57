//! Deterministic session actions between terminal input and shell authority.
//!
//! This reducer performs no I/O. It forwards exact routed input through inert
//! effects, owns completion-query authority, and treats accepted shell events as
//! the only source of editable-buffer truth. Buffer replacements are requests:
//! they never become authoritative until a later shell snapshot confirms them.

use vstd::prelude::*;
use vstd::string::*;
use vstd::utf8::*;

use crate::completion::{
    CompletionQuery, ProviderBatch, QueryView, Suggestion, SuggestionSource, TextEdit,
};
use crate::coordinator::{
    merged, name_views, registration_error, AuthorityRejection, BatchOutcome, CompletionCoordinator,
    CoordinatorView, PresentationOutcome, QueryStartError, QueryWork, RegistrationError,
    MAX_BATCH_CANDIDATES, MAX_QUERY_CWD_BYTES, MAX_QUERY_LINE_BYTES,
};
use crate::input::{
    binding_error, event_views, flushed, routed, Forwarding, InputAction, InputEvent, InputEventView,
    InputRouter, InputRouterError, RouteBatch, RouterView, MAX_ROUTE_BATCH_EVENTS,
    MAX_ROUTE_BATCH_EVENT_BYTES,
};
use crate::paths::is_same_path;
use crate::selection::{ghost_suffix, SelectionState};
use crate::session_core::SessionCore;
use crate::session_model::{turn_of, ReducerView, Turn};
use crate::shell_events::{
    absolute_path, append_nonce, nonce_debug_chars, reportable_directory, BufferSyncCapability, DecodedFrame,
    ForegroundCommandState, ProbeRequestError, SessionStateView, ShellEvent, ShellSessionState,
    SnapshotNonce, StateUpdate, StreamEpoch,
};
use crate::text::{
    append_bytes, append_number, bool_chars, bool_text, bytes_equal, copy_bytes, decimal_chars,
    lemma_encode_concat, split_text, text_before, text_behind, text_len,
};

verus! {

/// Most effects one bounded input reduction can emit.
///
/// Input routing already caps decisions. Seven effects per decision leaves
/// room for boundary release, invalidation, mode, replacement with its paired
/// synchronization request, rendering, and forwarding, followed by one
/// batch-final synchronization request.
pub const MAX_SESSION_EFFECTS: usize = MAX_ROUTE_BATCH_EVENTS * 7 + 1;

/// Completion mode selected for the current session.
#[derive(Clone, Copy, Debug, PartialEq, Eq, Structural)]
pub enum SessionMode {
    /// Complete from command specifications and related local sources.
    Spec,
    /// Search history, with providers free to include useful spec fallbacks.
    History,
}

/// A full replacement of the editing buffer, as a value.
#[verifier::ext_equal]
pub struct ReplacementView {
    pub text: Seq<char>,
    pub cursor: int,
}

/// Whether `text` with `cursor` may replace the editing buffer.
pub open spec fn valid_buffer(text: Seq<char>, cursor: int) -> bool {
    encode_utf8(text).len() <= MAX_QUERY_LINE_BYTES && is_char_boundary(encode_utf8(text), cursor)
}

/// A validated full replacement for the shell-native editing buffer.
#[derive(PartialEq, Eq)]
pub struct BufferReplacement {
    text: String,
    cursor: usize,
}

impl View for BufferReplacement {
    type V = ReplacementView;

    closed spec fn view(&self) -> ReplacementView {
        ReplacementView { text: self.text@, cursor: self.cursor as int }
    }
}

impl Clone for BufferReplacement {
    fn clone(&self) -> (copy: Self)
        ensures
            copy@ == self@,
    {
        proof {
            use_type_invariant(self);
        }
        BufferReplacement { text: self.text.clone(), cursor: self.cursor }
    }
}

impl BufferReplacement {
    #[verifier::type_invariant]
    spec fn valid(self) -> bool {
        valid_buffer(self.text@, self.cursor as int)
    }

    /// Validates an exact UTF-8 shell-buffer replacement.
    pub fn new(text: String, cursor: usize) -> (result: Result<Self, ReplacementError>)
        ensures
            match result {
                Ok(replacement) => {
                    &&& valid_buffer(text@, cursor as int)
                    &&& replacement@ == (ReplacementView { text: text@, cursor: cursor as int })
                },
                Err(ReplacementError::TooLarge { bytes, limit }) => {
                    &&& encode_utf8(text@).len() > MAX_QUERY_LINE_BYTES
                    &&& bytes == encode_utf8(text@).len()
                    &&& limit == MAX_QUERY_LINE_BYTES
                },
                Err(ReplacementError::InvalidCursor { cursor: given, line_bytes }) => {
                    &&& encode_utf8(text@).len() <= MAX_QUERY_LINE_BYTES
                    &&& !is_char_boundary(encode_utf8(text@), cursor as int)
                    &&& given == cursor
                    &&& line_bytes == encode_utf8(text@).len()
                },
            },
    {
        let bytes: usize = text_len(text.as_str());
        if bytes > MAX_QUERY_LINE_BYTES {
            return Err(ReplacementError::TooLarge { bytes, limit: MAX_QUERY_LINE_BYTES });
        }
        if !text.as_str().is_char_boundary(cursor) {
            return Err(ReplacementError::InvalidCursor { cursor, line_bytes: bytes });
        }
        Ok(BufferReplacement { text, cursor })
    }

    /// Exact UTF-8 bytes requested for the shell buffer.
    pub fn as_bytes(&self) -> (bytes: &[u8])
        ensures
            bytes@ == encode_utf8(self@.text),
            valid_buffer(self@.text, self@.cursor),
    {
        proof {
            use_type_invariant(self);
        }
        self.text.as_str().as_bytes()
    }

    /// Exact requested shell-buffer text.
    pub fn as_str(&self) -> (text: &str)
        ensures
            text@ == self@.text,
            valid_buffer(self@.text, self@.cursor),
    {
        proof {
            use_type_invariant(self);
        }
        self.text.as_str()
    }

    /// Requested UTF-8 byte cursor.
    pub fn cursor(&self) -> (cursor: usize)
        ensures
            cursor == self@.cursor,
            valid_buffer(self@.text, self@.cursor),
    {
        proof {
            use_type_invariant(self);
        }
        self.cursor
    }

    /// Requested buffer size in bytes.
    pub fn len(&self) -> (bytes: usize)
        ensures
            bytes == encode_utf8(self@.text).len(),
            bytes <= MAX_QUERY_LINE_BYTES,
    {
        proof {
            use_type_invariant(self);
        }
        text_len(self.text.as_str())
    }

    /// Whether the requested buffer is empty.
    pub fn is_empty(&self) -> (empty: bool)
        ensures
            empty == (self@.text.len() == 0),
    {
        self.text.as_str().is_empty()
    }

    /// Diagnostic summary, which shows sizes and never the text.
    pub fn debug_text(&self) -> (summary: String)
        ensures
            summary@ == replacement_debug_chars(self@),
    {
        let mut summary = "BufferReplacement { byte_count: ".to_owned();
        append_number(&mut summary, self.len() as u128);
        summary.append(", cursor: ");
        append_number(&mut summary, self.cursor as u128);
        summary.append(" }");
        summary
    }
}

/// Text of [`BufferReplacement::debug_text`].
pub open spec fn replacement_debug_chars(replacement: ReplacementView) -> Seq<char> {
    "BufferReplacement { byte_count: "@ + decimal_chars(encode_utf8(replacement.text).len())
        + ", cursor: "@ + decimal_chars(replacement.cursor as nat) + " }"@
}

/// Invalid shell-buffer replacement.
#[derive(Clone, Copy, Debug, PartialEq, Eq, Structural)]
pub enum ReplacementError {
    /// Replacement exceeded the authoritative-buffer bound.
    TooLarge {
        /// Observed UTF-8 byte count.
        bytes: usize,
        /// Hard byte limit.
        limit: usize,
    },
    /// Cursor was outside the text or split a UTF-8 scalar.
    InvalidCursor {
        /// Supplied UTF-8 byte cursor.
        cursor: usize,
        /// Replacement length in bytes.
        line_bytes: usize,
    },
}

impl ReplacementError {
    /// Text of [`Self::message`].
    pub open spec fn text(self) -> Seq<char> {
        match self {
            ReplacementError::TooLarge { bytes, limit } => "shell replacement is "@ + decimal_chars(bytes as nat) + " bytes; limit is "@ + decimal_chars(limit as nat),
            ReplacementError::InvalidCursor { cursor, line_bytes } => "shell replacement cursor "@ + decimal_chars(cursor as nat) + " is invalid for "@ + decimal_chars(line_bytes as nat) + " bytes"@,
        }
    }

    /// Human-readable description.
    pub fn message(&self) -> (message: String)
        ensures
            message@ == self.text(),
    {
        match *self {
            ReplacementError::TooLarge { bytes, limit } => {
                let mut message = "shell replacement is ".to_owned();
                append_number(&mut message, bytes as u128);
                message.append(" bytes; limit is ");
                append_number(&mut message, limit as u128);
                message
            },
            ReplacementError::InvalidCursor { cursor, line_bytes } => {
                let mut message = "shell replacement cursor ".to_owned();
                append_number(&mut message, cursor as u128);
                message.append(" is invalid for ");
                append_number(&mut message, line_bytes as u128);
                message.append(" bytes");
                message
            },
        }
    }
}

/// Closed failure surfaced by the pure controller.
#[derive(Clone, Copy, Debug, PartialEq, Eq, Structural)]
pub enum SessionFault {
    /// Local-input generations were exhausted rather than wrapped.
    InputGenerationExhausted,
    /// Queued input boundaries were exhausted rather than wrapped.
    InputBoundaryExhausted,
    /// A bounded authoritative query could not be started.
    QueryStart(QueryStartError),
    /// A required synchronization probe could not be reserved.
    Probe(ProbeRequestError),
}

impl SessionFault {
    /// Text of [`Self::debug_text`].
    pub open spec fn debug_chars(self) -> Seq<char> {
        match self {
            SessionFault::InputGenerationExhausted => "InputGenerationExhausted"@,
            SessionFault::InputBoundaryExhausted => "InputBoundaryExhausted"@,
            SessionFault::QueryStart(error) => "QueryStart("@ + error.debug_chars() + ")"@,
            SessionFault::Probe(error) => "Probe("@ + error.name_chars() + ")"@,
        }
    }

    /// Diagnostic name with its reason.
    pub fn debug_text(&self) -> (summary: String)
        ensures
            summary@ == self.debug_chars(),
    {
        match *self {
            SessionFault::InputGenerationExhausted => "InputGenerationExhausted".to_owned(),
            SessionFault::InputBoundaryExhausted => "InputBoundaryExhausted".to_owned(),
            SessionFault::QueryStart(error) => {
                let mut summary = "QueryStart(".to_owned();
                summary.append(error.debug_text().as_str());
                summary.append(")");
                summary
            },
            SessionFault::Probe(error) => {
                let mut summary = "Probe(".to_owned();
                summary.append(error.name());
                summary.append(")");
                summary
            },
        }
    }
}

impl SessionMode {
    /// Name of the mode.
    pub open spec fn name_chars(self) -> Seq<char> {
        match self {
            SessionMode::Spec => "Spec"@,
            SessionMode::History => "History"@,
        }
    }

    /// Name of the mode.
    pub fn name(self) -> (name: &'static str)
        ensures
            name@ == self.name_chars(),
    {
        match self {
            SessionMode::Spec => "Spec",
            SessionMode::History => "History",
        }
    }
}

/// One effect as a value.
#[verifier::ext_equal]
pub enum EffectView {
    ForwardInput(Seq<u8>),
    ClearOverlay,
    RefreshOverlay,
    ReplaceBuffer(ReplacementView),
    RequestBufferSync(u64),
    StartQuery { mode: SessionMode, alias_expansion: bool, query: QueryView },
    ModeChanged(SessionMode),
    Fault(SessionFault),
}

/// Non-I/O work requested by one reducer transition.
pub enum SessionEffect {
    /// Send these bytes to the wrapped shell exactly once.
    ForwardInput(Vec<u8>),
    /// Clear every menu and ghost cell before any following terminal effect.
    ClearOverlay,
    /// Redraw menu and ghost text from [`SessionReducer::selection`].
    RefreshOverlay,
    /// Ask the shell-native editor to replace its real buffer without execution.
    ReplaceBuffer(BufferReplacement),
    /// Inject the reserved synchronization sequence for this correlated nonce.
    RequestBufferSync(SnapshotNonce),
    /// Dispatch bounded provider work without delaying input forwarding.
    StartQuery {
        /// Mode that selected the provider set for this query.
        mode: SessionMode,
        /// Whether this query followed an exact, non-pasted typed ASCII space.
        ///
        /// Providers still validate alias syntax and configuration off the
        /// input path before proposing any edit.
        alias_expansion: bool,
        /// Immutable query.
        work: QueryWork,
    },
    /// Redraw mode-dependent UI state.
    ModeChanged(SessionMode),
    /// Surface a closed failure without panicking or performing I/O.
    Fault(SessionFault),
}

impl View for SessionEffect {
    type V = EffectView;

    open spec fn view(&self) -> EffectView {
        match *self {
            SessionEffect::ForwardInput(bytes) => EffectView::ForwardInput(bytes@),
            SessionEffect::ClearOverlay => EffectView::ClearOverlay,
            SessionEffect::RefreshOverlay => EffectView::RefreshOverlay,
            SessionEffect::ReplaceBuffer(replacement) => EffectView::ReplaceBuffer(replacement@),
            SessionEffect::RequestBufferSync(nonce) => EffectView::RequestBufferSync(nonce@),
            SessionEffect::StartQuery { mode, alias_expansion, work } => EffectView::StartQuery {
                mode,
                alias_expansion,
                query: work@,
            },
            SessionEffect::ModeChanged(mode) => EffectView::ModeChanged(mode),
            SessionEffect::Fault(fault) => EffectView::Fault(fault),
        }
    }
}

/// Text of [`SessionEffect::debug_text`].
pub open spec fn effect_debug_chars(effect: EffectView) -> Seq<char> {
    match effect {
        EffectView::ForwardInput(bytes) => "ForwardInput { byte_count: "@ + decimal_chars(bytes.len())
            + " }"@,
        EffectView::ClearOverlay => "ClearOverlay"@,
        EffectView::RefreshOverlay => "RefreshOverlay"@,
        EffectView::ReplaceBuffer(replacement) => "ReplaceBuffer("@ + replacement_debug_chars(
            replacement,
        ) + ")"@,
        EffectView::RequestBufferSync(nonce) => "RequestBufferSync(SnapshotNonce("@ + decimal_chars(
            nonce as nat,
        ) + "))"@,
        EffectView::StartQuery { mode, alias_expansion, query } => "StartQuery { mode: "@
            + mode.name_chars() + ", alias_expansion: "@ + bool_chars(alias_expansion)
            + ", work: QueryWork { generation: "@ + decimal_chars(query.generation as nat) + ", .. } }"@,
        EffectView::ModeChanged(mode) => "ModeChanged("@ + mode.name_chars() + ")"@,
        EffectView::Fault(fault) => "Fault("@ + fault.debug_chars() + ")"@,
    }
}

impl SessionEffect {
    /// Diagnostic summary, which shows sizes and never input or buffer text.
    pub fn debug_text(&self) -> (summary: String)
        ensures
            summary@ == effect_debug_chars(self@),
    {
        match self {
            SessionEffect::ForwardInput(bytes) => {
                let mut summary = "ForwardInput { byte_count: ".to_owned();
                append_number(&mut summary, bytes.len() as u128);
                summary.append(" }");
                summary
            },
            SessionEffect::ClearOverlay => "ClearOverlay".to_owned(),
            SessionEffect::RefreshOverlay => "RefreshOverlay".to_owned(),
            SessionEffect::ReplaceBuffer(replacement) => {
                let mut summary = "ReplaceBuffer(".to_owned();
                summary.append(replacement.debug_text().as_str());
                summary.append(")");
                summary
            },
            SessionEffect::RequestBufferSync(nonce) => {
                let mut summary = "RequestBufferSync(SnapshotNonce(".to_owned();
                append_number(&mut summary, nonce.get() as u128);
                summary.append("))");
                summary
            },
            SessionEffect::StartQuery { mode, alias_expansion, work } => {
                let mut summary = "StartQuery { mode: ".to_owned();
                summary.append(mode.name());
                summary.append(", alias_expansion: ");
                summary.append(bool_text(*alias_expansion));
                summary.append(", work: QueryWork { generation: ");
                append_number(&mut summary, work.query().generation as u128);
                summary.append(", .. } }");
                summary
            },
            SessionEffect::ModeChanged(mode) => {
                let mut summary = "ModeChanged(".to_owned();
                summary.append(mode.name());
                summary.append(")");
                summary
            },
            SessionEffect::Fault(fault) => {
                let mut summary = "Fault(".to_owned();
                summary.append(fault.debug_text().as_str());
                summary.append(")");
                summary
            },
        }
    }
}

/// Effects as values.
pub open spec fn effect_views(effects: Seq<SessionEffect>) -> Seq<EffectView> {
    effects.map_values(|effect: SessionEffect| effect@)
}

/// Effects with some input forwarded behind them: it joins input that was
/// forwarded just before, as far as one piece may grow.
pub open spec fn forwarded(effects: Seq<EffectView>, bytes: Seq<u8>) -> Seq<EffectView> {
    if bytes.len() == 0 {
        effects
    } else if effects.len() > 0 {
        match effects.last() {
            EffectView::ForwardInput(previous) => if previous.len() + bytes.len()
                <= MAX_ROUTE_BATCH_EVENT_BYTES {
                effects.drop_last().push(EffectView::ForwardInput(previous + bytes))
            } else {
                effects.push(EffectView::ForwardInput(bytes))
            },
            _ => effects.push(EffectView::ForwardInput(bytes)),
        }
    } else {
        effects.push(EffectView::ForwardInput(bytes))
    }
}

/// Bounded ordered effects from one reducer operation.
pub struct EffectBatch {
    effects: Vec<SessionEffect>,
}

impl View for EffectBatch {
    type V = Seq<EffectView>;

    closed spec fn view(&self) -> Seq<EffectView> {
        effect_views(self.effects@)
    }
}

impl Default for EffectBatch {
    fn default() -> (batch: Self)
        ensures
            batch@ == Seq::<EffectView>::empty(),
    {
        let batch = EffectBatch { effects: Vec::new() };
        assert(batch@ =~= Seq::<EffectView>::empty());
        batch
    }
}

impl EffectBatch {
    /// Bundles effects in the order given.
    pub fn from_effects(effects: Vec<SessionEffect>) -> (batch: Self)
        ensures
            batch@ == effect_views(effects@),
    {
        EffectBatch { effects }
    }

    /// Ordered effects.
    pub fn effects(&self) -> (effects: &[SessionEffect])
        ensures
            effect_views(effects@) == self@,
    {
        self.effects.as_slice()
    }

    /// Takes ownership of ordered effects.
    pub fn into_effects(self) -> (effects: Vec<SessionEffect>)
        ensures
            effect_views(effects@) == self@,
    {
        self.effects
    }

    /// Number of effects.
    pub fn len(&self) -> (count: usize)
        ensures
            count == self@.len(),
    {
        self.effects.len()
    }

    /// Whether no effects were requested.
    pub fn is_empty(&self) -> (empty: bool)
        ensures
            empty == (self@.len() == 0),
    {
        self.effects.len() == 0
    }

    fn push(&mut self, effect: SessionEffect)
        ensures
            final(self)@ == old(self)@.push(effect@),
    {
        self.effects.push(effect);
        assert(self@ =~= old(self)@.push(effect@));
    }

    fn forward(&mut self, bytes: Vec<u8>)
        ensures
            final(self)@ == forwarded(old(self)@, bytes@),
    {
        if bytes.len() == 0 {
            return;
        }
        let ghost before = self.effects@;
        let joins: bool = match self.effects.last() {
            Some(SessionEffect::ForwardInput(previous)) => previous.len() <= MAX_ROUTE_BATCH_EVENT_BYTES
                && bytes.len() <= MAX_ROUTE_BATCH_EVENT_BYTES - previous.len(),
            _ => false,
        };
        if joins {
            if let Some(SessionEffect::ForwardInput(previous)) = self.effects.pop() {
                let mut combined: Vec<u8> = previous;
                append_bytes(&mut combined, bytes.as_slice());
                self.effects.push(SessionEffect::ForwardInput(combined));
            }
            assert(self@ =~= forwarded(old(self)@, bytes@));
        } else {
            self.effects.push(SessionEffect::ForwardInput(bytes));
            assert(self@ =~= forwarded(old(self)@, bytes@));
        }
    }

    /// Diagnostic summary, which shows each effect without its content.
    pub fn debug_text(&self) -> (summary: String)
        ensures
            summary@ == "EffectBatch { effect_count: "@ + decimal_chars(self@.len()) + ", effects: ["@
                + effects_debug_chars(self@) + "] }"@,
    {
        let mut summary = "EffectBatch { effect_count: ".to_owned();
        append_number(&mut summary, self.effects.len() as u128);
        summary.append(", effects: [");
        let ghost head = summary@;
        let ghost views = self@;
        let mut i: usize = 0;
        assert(views.subrange(0, 0) =~= Seq::<EffectView>::empty());
        assert(summary@ =~= head + effects_debug_chars(views.subrange(0, 0)));
        while i < self.effects.len()
            invariant
                0 <= i <= self.effects@.len(),
                views == effect_views(self.effects@),
                summary@ == head + effects_debug_chars(views.subrange(0, i as int)),
            decreases self.effects@.len() - i,
        {
            assert(views.subrange(0, i + 1).drop_last() =~= views.subrange(0, i as int));
            if i > 0 {
                summary.append(", ");
            }
            summary.append(self.effects[i].debug_text().as_str());
            assert(summary@ =~= head + effects_debug_chars(views.subrange(0, i + 1)));
            i = i + 1;
        }
        assert(views.subrange(0, i as int) =~= views);
        summary.append("] }");
        assert(summary@ =~= "EffectBatch { effect_count: "@ + decimal_chars(self@.len())
            + ", effects: ["@ + effects_debug_chars(self@) + "] }"@);
        summary
    }
}

/// Effects in a diagnostic summary, separated by commas.
pub open spec fn effects_debug_chars(effects: Seq<EffectView>) -> Seq<char>
    decreases effects.len(),
{
    if effects.len() == 0 {
        Seq::empty()
    } else if effects.len() == 1 {
        effect_debug_chars(effects[0])
    } else {
        effects_debug_chars(effects.drop_last()) + ", "@ + effect_debug_chars(effects.last())
    }
}

/// Input consumption paired with ordered inert effects.
pub struct InputReduction {
    consumed_bytes: usize,
    effects: EffectBatch,
}

impl InputReduction {
    /// Consumed bytes.
    pub closed spec fn spec_consumed(self) -> usize {
        self.consumed_bytes
    }

    /// Effects as values.
    pub closed spec fn spec_effects(self) -> Seq<EffectView> {
        self.effects@
    }

    /// How many caller bytes were consumed.
    pub fn consumed_bytes(&self) -> (bytes: usize)
        ensures
            bytes == self.spec_consumed(),
    {
        self.consumed_bytes
    }

    /// Ordered effects.
    pub fn effects(&self) -> (effects: &EffectBatch)
        ensures
            effects@ == self.spec_effects(),
    {
        &self.effects
    }

    /// Takes ownership of the consumption count and effects.
    pub fn into_parts(self) -> (parts: (usize, EffectBatch))
        ensures
            parts.0 == self.spec_consumed(),
            parts.1@ == self.spec_effects(),
    {
        (self.consumed_bytes, self.effects)
    }
}

/// Ranked-presentation result paired with any required UI or buffer effects.
pub struct PresentationReduction {
    outcome: PresentationOutcome,
    effects: EffectBatch,
}

impl PresentationReduction {
    /// Disposition.
    pub closed spec fn spec_outcome(self) -> PresentationOutcome {
        self.outcome
    }

    /// Effects as values.
    pub closed spec fn spec_effects(self) -> Seq<EffectView> {
        self.effects@
    }

    /// Coordinator disposition.
    pub fn outcome(&self) -> (outcome: &PresentationOutcome)
        ensures
            *outcome == self.spec_outcome(),
    {
        &self.outcome
    }

    /// Ordered effects.
    pub fn effects(&self) -> (effects: &EffectBatch)
        ensures
            effects@ == self.spec_effects(),
    {
        &self.effects
    }

    /// Takes ownership of the disposition and effects.
    pub fn into_parts(self) -> (parts: (PresentationOutcome, EffectBatch))
        ensures
            parts.0 == self.spec_outcome(),
            parts.1@ == self.spec_effects(),
    {
        (self.outcome, self.effects)
    }
}

/// Invalid reducer construction.
#[derive(Clone, Copy, Debug, PartialEq, Eq, Structural)]
pub enum SessionBuildError {
    /// Input bindings could not be routed safely.
    Input(InputRouterError),
    /// Completion providers or UI bound were invalid.
    Completion(RegistrationError),
    /// Working directory exceeded the provider-query path bound.
    CwdTooLarge {
        /// Observed encoded bytes.
        bytes: usize,
        /// Hard byte limit.
        limit: usize,
    },
    /// Working directory was empty or relative.
    CwdNotAbsolute,
}

impl SessionBuildError {
    /// Text of [`Self::message`].
    pub open spec fn text(self) -> Seq<char> {
        match self {
            SessionBuildError::Input(error) => "invalid input bindings: "@ + error.text(),
            SessionBuildError::Completion(error) => "invalid completion setup: "@ + error.text(),
            SessionBuildError::CwdTooLarge { bytes, limit } => "session cwd is "@ + decimal_chars(
                bytes as nat,
            ) + " bytes; limit is "@ + decimal_chars(limit as nat),
            SessionBuildError::CwdNotAbsolute => "session cwd must be absolute"@,
        }
    }

    /// Human-readable description.
    pub fn message(&self) -> (message: String)
        ensures
            message@ == self.text(),
    {
        match *self {
            SessionBuildError::Input(error) => {
                let mut message = "invalid input bindings: ".to_owned();
                message.append(error.message().as_str());
                message
            },
            SessionBuildError::Completion(error) => {
                let mut message = "invalid completion setup: ".to_owned();
                message.append(error.message().as_str());
                message
            },
            SessionBuildError::CwdTooLarge { bytes, limit } => {
                let mut message = "session cwd is ".to_owned();
                append_number(&mut message, bytes as u128);
                message.append(" bytes; limit is ");
                append_number(&mut message, limit as u128);
                message
            },
            SessionBuildError::CwdNotAbsolute => "session cwd must be absolute".to_owned(),
        }
    }
}

/// Invalid working-directory update rejected without changing session state.
#[derive(Clone, Copy, Debug, PartialEq, Eq, Structural)]
pub enum CwdUpdateError {
    /// Working directory exceeded the provider-query path bound.
    TooLarge {
        /// Observed encoded bytes.
        bytes: usize,
        /// Hard byte limit.
        limit: usize,
    },
    /// Working directory was empty or relative.
    NotAbsolute,
}

impl CwdUpdateError {
    /// Text of [`Self::message`].
    pub open spec fn text(self) -> Seq<char> {
        match self {
            CwdUpdateError::TooLarge { bytes, limit } => "session cwd is "@ + decimal_chars(bytes as nat) + " bytes; limit is "@ + decimal_chars(limit as nat),
            CwdUpdateError::NotAbsolute => "session cwd must be absolute"@,
        }
    }

    /// Human-readable description.
    pub fn message(&self) -> (message: String)
        ensures
            message@ == self.text(),
    {
        match *self {
            CwdUpdateError::TooLarge { bytes, limit } => {
                let mut message = "session cwd is ".to_owned();
                append_number(&mut message, bytes as u128);
                message.append(" bytes; limit is ");
                append_number(&mut message, limit as u128);
                message
            },
            CwdUpdateError::NotAbsolute => "session cwd must be absolute".to_owned(),
        }
    }
}

/// Why the editing buffer is being replaced.
#[derive(Clone, Copy, Debug, PartialEq, Eq, Structural)]
pub enum ReplacementKind {
    /// A suggestion was accepted.
    Acceptance,
    /// An alias was expanded.
    AliasExpansion,
    /// Ghost text was accepted.
    GhostText,
    /// A history entry is previewed.
    HistoryPreview,
    /// The buffer from before the preview comes back.
    HistoryRestore,
}

impl ReplacementKind {
    /// Name of the kind.
    pub open spec fn name_chars(self) -> Seq<char> {
        match self {
            ReplacementKind::Acceptance => "Acceptance"@,
            ReplacementKind::AliasExpansion => "AliasExpansion"@,
            ReplacementKind::GhostText => "Ghost"@,
            ReplacementKind::HistoryPreview => "HistoryPreview"@,
            ReplacementKind::HistoryRestore => "HistoryRestore"@,
        }
    }

    /// Name of the kind.
    pub fn name(self) -> (name: &'static str)
        ensures
            name@ == self.name_chars(),
    {
        match self {
            ReplacementKind::Acceptance => "Acceptance",
            ReplacementKind::AliasExpansion => "AliasExpansion",
            ReplacementKind::GhostText => "Ghost",
            ReplacementKind::HistoryPreview => "HistoryPreview",
            ReplacementKind::HistoryRestore => "HistoryRestore",
        }
    }
}

/// A requested replacement in a diagnostic summary.
pub open spec fn pending_debug_chars(pending: Option<(ReplacementView, ReplacementKind)>) -> Seq<char> {
    match pending {
        Some((replacement, kind)) => "Some(PendingReplacement { replacement: "@
            + replacement_debug_chars(replacement) + ", kind: "@ + kind.name_chars() + " })"@,
        None => "None"@,
    }
}

/// An optional buffer in a diagnostic summary.
pub open spec fn origin_debug_chars(origin: Option<ReplacementView>) -> Seq<char> {
    match origin {
        Some(replacement) => "Some("@ + replacement_debug_chars(replacement) + ")"@,
        None => "None"@,
    }
}

/// First half of [`SessionReducer::debug_text`].
pub open spec fn reducer_debug_head(state: ReducerView) -> Seq<char> {
    "SessionReducer { input: InputRouter { pending_bytes: "@ + decimal_chars(state.router.pending.len())
        + ", .. }, shell: "@ + (state.shell.debug_head() + state.shell.debug_tail())
        + ", completion: CompletionCoordinator { .. }, cwd_bytes: "@ + decimal_chars(state.cwd.len())
        + ", mode: "@ + state.mode.name_chars() + ", pending_replacement: "@ + pending_debug_chars(
        state.pending,
    ) + ", history_origin: "@ + origin_debug_chars(state.origin)
}

/// Second half of [`SessionReducer::debug_text`].
pub open spec fn reducer_debug_tail(state: ReducerView) -> Seq<char> {
    ", history_preview_active: "@ + bool_chars(state.preview_active) + ", recall_history_when_ready: "@
        + bool_chars(state.recall_when_ready) + ", alias_expansion_pending: "@ + bool_chars(
        state.alias_pending,
    ) + ", paste_active: "@ + bool_chars(state.paste_active) + ", probe_needed: "@ + bool_chars(
        state.probe_needed,
    ) + ", input_boundary_fence: "@ + bool_chars(state.fence) + ", queued_input_boundaries: "@
        + decimal_chars(state.queued_boundaries as nat) + ", fenced_input_pending: "@ + bool_chars(
        state.fenced_input,
    ) + ", fence_prompt_observed: "@ + bool_chars(state.prompt_observed) + ", fence_sync_nonce: "@
        + nonce_debug_chars(state.fence_nonce) + ", query_restart_deferred: "@ + bool_chars(
        state.restart_deferred,
    ) + " }"@
}

/// Why `cwd` cannot be the working directory of a session.
pub open spec fn cwd_error(cwd: Seq<u8>) -> Option<CwdUpdateError> {
    if cwd.len() > MAX_QUERY_CWD_BYTES {
        Some(CwdUpdateError::TooLarge { bytes: cwd.len() as usize, limit: MAX_QUERY_CWD_BYTES })
    } else if !absolute_path(cwd) {
        Some(CwdUpdateError::NotAbsolute)
    } else {
        None
    }
}

/// Checks a working directory.
pub fn validate_cwd(cwd: &[u8]) -> (error: Option<CwdUpdateError>)
    ensures
        error == cwd_error(cwd@),
{
    if cwd.len() > MAX_QUERY_CWD_BYTES {
        Some(CwdUpdateError::TooLarge { bytes: cwd.len(), limit: MAX_QUERY_CWD_BYTES })
    } else if cwd.len() == 0 || cwd[0] != 47 {
        Some(CwdUpdateError::NotAbsolute)
    } else {
        None
    }
}

/// Pure controller for one wrapped interactive shell session.
pub struct SessionReducer {
    core: SessionCore,
}

impl View for SessionReducer {
    type V = ReducerView;

    closed spec fn view(&self) -> ReducerView {
        self.core@
    }
}

/// State of a session before any input or shell event.
pub open spec fn fresh_session(
    epoch: u64,
    toggle_mode: Seq<u8>,
    toggle_menu: Seq<u8>,
    providers: Seq<Seq<char>>,
    limit: usize,
    cwd: Seq<u8>,
    mode: SessionMode,
) -> ReducerView {
    ReducerView {
        router: RouterView { toggle_mode, toggle_menu, pending: Seq::empty(), paste: false },
        shell: SessionStateView::fresh(epoch),
        completion: CoordinatorView::fresh(providers, limit),
        cwd,
        mode,
        pending: None,
        origin: None,
        preview_active: false,
        recall_when_ready: false,
        alias_pending: false,
        paste_active: false,
        probe_needed: false,
        fence: false,
        queued_boundaries: 0,
        fenced_input: false,
        prompt_observed: false,
        fence_nonce: None,
        restart_deferred: false,
    }
}

/// Why a session cannot be built.
pub open spec fn build_error(
    toggle_mode: Seq<u8>,
    toggle_menu: Seq<u8>,
    providers: Seq<Seq<char>>,
    limit: usize,
    cwd: Seq<u8>,
) -> Option<SessionBuildError> {
    match cwd_error(cwd) {
        Some(CwdUpdateError::TooLarge { bytes, limit }) => Some(
            SessionBuildError::CwdTooLarge { bytes, limit },
        ),
        Some(CwdUpdateError::NotAbsolute) => Some(SessionBuildError::CwdNotAbsolute),
        None => match binding_error(toggle_mode, toggle_menu) {
            Some(error) => Some(SessionBuildError::Input(error)),
            None => match registration_error(providers, limit) {
                Some(error) => Some(SessionBuildError::Completion(error)),
                None => None,
            },
        },
    }
}

impl SessionReducer {
    /// Creates a bounded reducer for one shell-event stream, in specification mode.
    pub fn new(
        epoch: StreamEpoch,
        toggle_mode: &[u8],
        toggle_menu: &[u8],
        providers: Vec<String>,
        ui_max_suggestions: usize,
        cwd: Vec<u8>,
    ) -> (result: Result<Self, SessionBuildError>)
        ensures
            match result {
                Ok(reducer) => {
                    &&& build_error(
                        toggle_mode@,
                        toggle_menu@,
                        name_views(providers@),
                        ui_max_suggestions,
                        cwd@,
                    ) is None
                    &&& reducer@ == fresh_session(
                        epoch@,
                        toggle_mode@,
                        toggle_menu@,
                        name_views(providers@),
                        ui_max_suggestions,
                        cwd@,
                        SessionMode::Spec,
                    )
                    &&& reducer@.inv()
                },
                Err(error) => build_error(
                    toggle_mode@,
                    toggle_menu@,
                    name_views(providers@),
                    ui_max_suggestions,
                    cwd@,
                ) == Some(error),
            },
    {
        SessionReducer::new_with_mode(
            epoch,
            toggle_mode,
            toggle_menu,
            providers,
            ui_max_suggestions,
            cwd,
            SessionMode::Spec,
        )
    }

    /// Creates a bounded reducer with an explicitly resolved initial mode.
    ///
    /// This is the startup boundary for fixed-mode configuration and persisted
    /// `last` mode. Later changes still flow through normal input actions.
    pub fn new_with_mode(
        epoch: StreamEpoch,
        toggle_mode: &[u8],
        toggle_menu: &[u8],
        providers: Vec<String>,
        ui_max_suggestions: usize,
        cwd: Vec<u8>,
        initial_mode: SessionMode,
    ) -> (result: Result<Self, SessionBuildError>)
        ensures
            match result {
                Ok(reducer) => {
                    &&& build_error(
                        toggle_mode@,
                        toggle_menu@,
                        name_views(providers@),
                        ui_max_suggestions,
                        cwd@,
                    ) is None
                    &&& reducer@ == fresh_session(
                        epoch@,
                        toggle_mode@,
                        toggle_menu@,
                        name_views(providers@),
                        ui_max_suggestions,
                        cwd@,
                        initial_mode,
                    )
                    &&& reducer@.inv()
                },
                Err(error) => build_error(
                    toggle_mode@,
                    toggle_menu@,
                    name_views(providers@),
                    ui_max_suggestions,
                    cwd@,
                ) == Some(error),
            },
    {
        match validate_cwd(cwd.as_slice()) {
            Some(CwdUpdateError::TooLarge { bytes, limit }) => {
                return Err(SessionBuildError::CwdTooLarge { bytes, limit });
            },
            Some(CwdUpdateError::NotAbsolute) => {
                return Err(SessionBuildError::CwdNotAbsolute);
            },
            None => {},
        }
        let input = match InputRouter::new(toggle_mode, toggle_menu) {
            Ok(input) => input,
            Err(error) => {
                return Err(SessionBuildError::Input(error));
            },
        };
        let completion = match CompletionCoordinator::new(providers, ui_max_suggestions) {
            Ok(completion) => completion,
            Err(error) => {
                return Err(SessionBuildError::Completion(error));
            },
        };
        Ok(
            SessionReducer {
                core: SessionCore::fresh(input, epoch, completion, cwd, initial_mode),
            },
        )
    }

    /// Current completion mode.
    pub fn mode(&self) -> (mode: SessionMode)
        ensures
            mode == self@.mode,
    {
        self.core.mode()
    }

    /// Correlated shell lifecycle and editable-buffer authority.
    pub fn shell(&self) -> (shell: &ShellSessionState)
        ensures
            shell@ == self@.shell,
    {
        self.core.shell()
    }

    /// The one selection shared by menu and ghost rendering.
    pub fn selection(&self) -> (selection: &SelectionState)
        ensures
            selection@ == self@.completion.selection,
    {
        self.core.completion().selection()
    }

    /// Active immutable provider query, if any.
    pub fn active_query(&self) -> (query: Option<&CompletionQuery>)
        ensures
            match query {
                Some(q) => self@.completion.active == Some(q@),
                None => self@.completion.active is None,
            },
    {
        self.core.completion().active_query()
    }

    /// Bounded absolute working directory used for new queries.
    pub fn cwd(&self) -> (cwd: &[u8])
        ensures
            cwd@ == self@.cwd,
    {
        self.core.cwd()
    }

    /// Whether the shell shows a previewed history entry.
    pub fn history_preview_active(&self) -> (active: bool)
        ensures
            active == self@.preview_active,
    {
        self.core.history_preview_active()
    }

    /// Diagnostic summary, which shows states and sizes and never input, buffer or
    /// suggestion text.
    pub fn debug_text(&self) -> (summary: String)
        ensures
            summary@ == reducer_debug_head(self@) + reducer_debug_tail(self@),
    {
        let mut summary = self.debug_head_text();
        let tail = self.debug_tail_text();
        summary.append(tail.as_str());
        summary
    }

    fn debug_head_text(&self) -> (summary: String)
        ensures
            summary@ == reducer_debug_head(self@),
    {
        let mut summary = "SessionReducer { input: InputRouter { pending_bytes: ".to_owned();
        append_number(&mut summary, self.core.input().pending_len() as u128);
        summary.append(", .. }, shell: ");
        summary.append(self.core.shell().debug_text().as_str());
        summary.append(", completion: CompletionCoordinator { .. }, cwd_bytes: ");
        append_number(&mut summary, self.core.cwd().len() as u128);
        summary.append(", mode: ");
        summary.append(self.core.mode().name());
        summary.append(", pending_replacement: ");
        let pending: String = match self.core.pending_replacement() {
            Some(pending) => {
                let mut text = "Some(PendingReplacement { replacement: ".to_owned();
                text.append(pending.replacement.debug_text().as_str());
                text.append(", kind: ");
                text.append(pending.kind.name());
                text.append(" })");
                text
            },
            None => "None".to_owned(),
        };
        summary.append(pending.as_str());
        summary.append(", history_origin: ");
        let origin: String = match self.core.history_origin() {
            Some(origin) => {
                let mut text = "Some(".to_owned();
                text.append(origin.debug_text().as_str());
                text.append(")");
                text
            },
            None => "None".to_owned(),
        };
        summary.append(origin.as_str());
        summary
    }

    fn debug_tail_text(&self) -> (summary: String)
        ensures
            summary@ == reducer_debug_tail(self@),
    {
        let mut summary = ", history_preview_active: ".to_owned();
        summary.append(bool_text(self.core.history_preview_active()));
        summary.append(", recall_history_when_ready: ");
        summary.append(bool_text(self.core.recall_history_when_ready()));
        summary.append(", alias_expansion_pending: ");
        summary.append(bool_text(self.core.alias_expansion_pending()));
        summary.append(", paste_active: ");
        summary.append(bool_text(self.core.paste_active()));
        summary.append(", probe_needed: ");
        summary.append(bool_text(self.core.probe_needed()));
        summary.append(", input_boundary_fence: ");
        summary.append(bool_text(self.core.input_boundary_fence()));
        summary.append(", queued_input_boundaries: ");
        append_number(&mut summary, self.core.queued_input_boundaries() as u128);
        summary.append(", fenced_input_pending: ");
        summary.append(bool_text(self.core.fenced_input_pending()));
        summary.append(", fence_prompt_observed: ");
        summary.append(bool_text(self.core.fence_prompt_observed()));
        summary.append(", fence_sync_nonce: ");
        append_nonce(&mut summary, self.core.fence_sync_nonce());
        summary.append(", query_restart_deferred: ");
        summary.append(bool_text(self.core.query_restart_deferred()));
        summary.append(" }");
        summary
    }

    /// Buffer from before history was browsed.
    pub fn history_origin(&self) -> (origin: Option<&BufferReplacement>)
        ensures
            match origin {
                Some(buffer) => self@.origin == Some(buffer@),
                None => self@.origin is None,
            },
    {
        self.core.history_origin()
    }

    /// Whether a forwarded Enter or Ctrl+C fences later input.
    pub fn input_boundary_fence(&self) -> (fence: bool)
        ensures
            fence == self@.fence,
    {
        self.core.input_boundary_fence()
    }

    /// Forwarded boundaries whose prompts are still to come.
    pub fn queued_input_boundaries(&self) -> (boundaries: u64)
        ensures
            boundaries == self@.queued_boundaries,
    {
        self.core.queued_input_boundaries()
    }

    /// Whether input was forwarded behind the last boundary.
    pub fn fenced_input_pending(&self) -> (pending: bool)
        ensures
            pending == self@.fenced_input,
    {
        self.core.fenced_input_pending()
    }

    /// Whether a prompt was seen behind the fence.
    pub fn fence_prompt_observed(&self) -> (observed: bool)
        ensures
            observed == self@.prompt_observed,
    {
        self.core.fence_prompt_observed()
    }

    /// Whether a snapshot has to be asked for.
    pub fn probe_needed(&self) -> (needed: bool)
        ensures
            needed == self@.probe_needed,
    {
        self.core.probe_needed()
    }

    /// Atomically changes the working directory used by provider queries.
    ///
    /// Current provider work is cancelled after validation. A new query starts
    /// immediately only when shell buffer authority is safe; otherwise the next
    /// accepted shell snapshot uses the new directory. An unusable directory
    /// changes nothing.
    pub fn update_cwd(&mut self, cwd: Vec<u8>) -> (result: Result<EffectBatch, CwdUpdateError>)
        requires
            old(self)@.inv(),
        ensures
            final(self)@.inv(),
            match result {
                Err(error) => cwd_error(cwd@) == Some(error) && final(self)@ == old(self)@,
                Ok(effects) => {
                    &&& cwd_error(cwd@) is None
                    &&& (Turn { state: final(self)@, effects: effects@ }) == turn_of(
                        ReducerView { cwd: cwd@, ..old(self)@ },
                    ).restart_or_defer()
                },
            },
    {
        match validate_cwd(cwd.as_slice()) {
            Some(error) => Err(error),
            None => {
                self.core.set_cwd(cwd);
                Ok(self.restarted())
            },
        }
    }

    fn restarted(&mut self) -> (effects: EffectBatch)
        requires
            old(self)@.inv(),
        ensures
            final(self)@.inv(),
            (Turn { state: final(self)@, effects: effects@ }) == turn_of(old(self)@).restart_or_defer(),
    {
        let mut effects = EffectBatch::default();
        self.restart_or_defer(&mut effects);
        effects
    }

    fn restart_or_defer(&mut self, effects: &mut EffectBatch)
        requires
            old(self)@.inv(),
        ensures
            final(self)@.inv(),
            (Turn { state: final(self)@, effects: final(effects)@ }) == (Turn {
                state: old(self)@,
                effects: old(effects)@,
            }).restart_or_defer(),
    {
        proof {
            reveal(Turn::restart_or_defer);
        }
        self.clear_completion(effects);
        if self.actions_are_safe() {
            self.start_query_from_authority(effects);
        } else {
            self.core.set_query_restart_deferred(true);
        }
    }

    /// Applies live keybinding and result-limit settings without replacing the
    /// shell, stream epoch, authoritative buffer, or current directory.
    ///
    /// A retained partial configurable key sequence defers the whole change so
    /// already received input keeps its original interpretation. `Ok(None)`
    /// asks the event loop to retry after that prefix resolves. Invalid bindings
    /// change nothing; an invalid row limit leaves the new bindings in place.
    pub fn reconfigure(
        &mut self,
        toggle_mode: &[u8],
        toggle_menu: &[u8],
        ui_max_suggestions: usize,
    ) -> (result: Result<Option<EffectBatch>, SessionBuildError>)
        requires
            old(self)@.inv(),
        ensures
            final(self)@.inv(),
            ({
                let bound = ReducerView {
                    router: RouterView {
                        toggle_mode: toggle_mode@,
                        toggle_menu: toggle_menu@,
                        ..old(self)@.router
                    },
                    ..old(self)@
                };
                match result {
                    Err(SessionBuildError::Input(error)) => binding_error(toggle_mode@, toggle_menu@)
                        == Some(error) && final(self)@ == old(self)@,
                    Ok(None) => binding_error(toggle_mode@, toggle_menu@) is None
                        && old(self)@.router.pending.len() > 0 && final(self)@ == old(self)@,
                    Err(error) => {
                        &&& binding_error(toggle_mode@, toggle_menu@) is None
                        &&& old(self)@.router.pending.len() == 0
                        &&& !(1 <= ui_max_suggestions <= MAX_BATCH_CANDIDATES)
                        &&& error == SessionBuildError::Completion(RegistrationError::InvalidRowLimit)
                        &&& final(self)@ == bound
                    },
                    Ok(Some(effects)) => {
                        &&& binding_error(toggle_mode@, toggle_menu@) is None
                        &&& old(self)@.router.pending.len() == 0
                        &&& 1 <= ui_max_suggestions <= MAX_BATCH_CANDIDATES
                        &&& (Turn { state: final(self)@, effects: effects@ }) == turn_of(
                            ReducerView {
                                completion: CoordinatorView {
                                    limit: ui_max_suggestions,
                                    ..old(self)@.completion
                                },
                                ..bound
                            },
                        ).restart_or_defer()
                    },
                }
            }),
    {
        match self.core.input_mut().reconfigure(toggle_mode, toggle_menu) {
            Err(error) => {
                return Err(SessionBuildError::Input(error));
            },
            Ok(false) => {
                return Ok(None);
            },
            Ok(true) => {},
        }
        match self.limit_rows(ui_max_suggestions) {
            Err(error) => Err(SessionBuildError::Completion(error)),
            Ok(effects) => Ok(Some(effects)),
        }
    }

    fn limit_rows(&mut self, ui_max_suggestions: usize) -> (result: Result<
        EffectBatch,
        RegistrationError,
    >)
        requires
            old(self)@.inv(),
        ensures
            final(self)@.inv(),
            match result {
                Err(error) => !(1 <= ui_max_suggestions <= MAX_BATCH_CANDIDATES) && error
                    == RegistrationError::InvalidRowLimit && final(self)@ == old(self)@,
                Ok(effects) => {
                    &&& 1 <= ui_max_suggestions <= MAX_BATCH_CANDIDATES
                    &&& (Turn { state: final(self)@, effects: effects@ }) == turn_of(
                        ReducerView {
                            completion: CoordinatorView {
                                limit: ui_max_suggestions,
                                ..old(self)@.completion
                            },
                            ..old(self)@
                        },
                    ).restart_or_defer()
                },
            },
    {
        match self.core.completion_mut().reconfigure_ui_limit(ui_max_suggestions) {
            Err(error) => Err(error),
            Ok(()) => Ok(self.restarted()),
        }
    }

    /// Whether accepted context is waiting for safe buffer authority.
    ///
    /// The reducer consumes this restart after paste ends or a later shell
    /// snapshot makes query creation safe.
    pub fn query_restart_deferred(&self) -> (deferred: bool)
        ensures
            deferred == self@.restart_deferred,
    {
        self.core.query_restart_deferred()
    }

    /// Whether a shell-native replacement awaits authoritative evidence.
    pub fn replacement_pending(&self) -> (pending: bool)
        ensures
            pending == (self@.pending is Some),
    {
        self.core.pending_replacement().is_some()
    }

    /// Routes a bounded input prefix and reduces it without provider or PTY I/O.
    pub fn route_input(&mut self, input: &[u8]) -> (reduction: InputReduction)
        requires
            old(self)@.inv(),
        ensures
            final(self)@.inv(),
            ({
                let routing = routed(
                    old(self)@.router,
                    old(self)@.router.pending + input@,
                    MAX_ROUTE_BATCH_EVENTS as nat,
                );
                let router = RouterView {
                    pending: if routing.partial {
                        routing.rest
                    } else {
                        Seq::empty()
                    },
                    paste: routing.paste,
                    ..old(self)@.router
                };
                &&& reduction.spec_consumed() == if routing.partial {
                    input@.len() as int
                } else {
                    input@.len() - routing.rest.len()
                }
                &&& (Turn { state: final(self)@, effects: reduction.spec_effects() }) == turn_of(
                    ReducerView { router, ..old(self)@ },
                ).input(routing.events)
            }),
    {
        let batch = self.core.input_mut().route(input);
        self.reduce_route_batch(batch)
    }

    /// Resolves a pending standalone Escape after the caller's timeout.
    pub fn flush_input(&mut self) -> (reduction: InputReduction)
        requires
            old(self)@.inv(),
        ensures
            final(self)@.inv(),
            reduction.spec_consumed() == 0,
            (Turn { state: final(self)@, effects: reduction.spec_effects() }) == turn_of(
                ReducerView {
                    router: RouterView { pending: Seq::empty(), ..old(self)@.router },
                    ..old(self)@
                },
            ).input(flushed(old(self)@.router)),
    {
        let batch = self.core.input_mut().flush_pending();
        self.reduce_route_batch(batch)
    }

    /// Drains incomplete input without inventing bytes.
    ///
    /// Used at EOF and when interception ends while the router retains a
    /// partial sequence, so the retained bytes precede any directly
    /// forwarded input.
    pub fn finish_input(&mut self) -> (reduction: InputReduction)
        requires
            old(self)@.inv(),
        ensures
            final(self)@.inv(),
            reduction.spec_consumed() == 0,
            (Turn { state: final(self)@, effects: reduction.spec_effects() }) == turn_of(
                ReducerView {
                    router: RouterView { pending: Seq::empty(), ..old(self)@.router },
                    ..old(self)@
                },
            ).input(flushed(old(self)@.router)),
    {
        let batch = self.core.input_mut().finish();
        self.reduce_route_batch(batch)
    }

    /// Applies one ordered decoded shell frame and derives controller effects.
    pub fn apply_shell_frame(&mut self, frame: DecodedFrame) -> (result: (StateUpdate, EffectBatch))
        requires
            old(self)@.inv(),
        ensures
            final(self)@.inv(),
            result.0@ == old(self)@.shell.after_frame(frame@).1,
            (Turn { state: final(self)@, effects: result.1@ }) == turn_of(old(self)@).frame(frame@),
    {
        proof {
            reveal(Turn::frame);
        }
        let prompt_observed: bool = match &frame {
            DecodedFrame::Event(event) => match event.event() {
                ShellEvent::PromptReady => true,
                _ => false,
            },
            DecodedFrame::Rejected(_) => false,
        };
        let update = self.core.shell_mut().apply(frame);
        let mut effects = EffectBatch::default();
        self.react(&update, prompt_observed, &mut effects);
        (update, effects)
    }

    fn react(&mut self, update: &StateUpdate, prompt_observed: bool, effects: &mut EffectBatch)
        requires
            old(self)@.inv(),
        ensures
            final(self)@.inv(),
            (Turn { state: final(self)@, effects: final(effects)@ }) == (Turn {
                state: old(self)@,
                effects: old(effects)@,
            }).shell_update(update@, prompt_observed),
    {
        proof {
            reveal(Turn::shell_update);
        }
        match update {
            StateUpdate::BufferSynchronized { .. } => {
                self.handle_authoritative_update(false, effects);
                return;
            },
            StateUpdate::PromptReady { .. } => {
                self.handle_authoritative_update(true, effects);
                return;
            },
            StateUpdate::WorkingDirectoryChanged(directory) => {
                self.change_directory(directory.as_path(), effects);
                return;
            },
            StateUpdate::ReloadRequested(_) => {
                self.drop_history(effects);
                return;
            },
            StateUpdate::SnapshotRejected(_) => {
                self.drop_editing(effects);
                self.issue_probe_if_safe(effects, false);
                return;
            },
            StateUpdate::LifecycleSuppressed => {
                self.note_suppressed(prompt_observed, effects);
                return;
            },
            StateUpdate::CommandStopped(_) | StateUpdate::CommandStoppedWithoutAttribution(_) => {
                self.drop_editing(effects);
                return;
            },
            StateUpdate::CommandStarted { .. }
            | StateUpdate::CapabilityChanged(_)
            | StateUpdate::FrameRejected(_)
            | StateUpdate::LifecycleRejected(_)
            | StateUpdate::StreamOrderRejected { .. } => {
                self.unsettle(effects);
                return;
            },
        }
    }

    fn drop_editing(&mut self, effects: &mut EffectBatch)
        requires
            old(self)@.inv(),
        ensures
            final(self)@.inv(),
            (Turn { state: final(self)@, effects: final(effects)@ }) == (Turn {
                state: old(self)@,
                effects: old(effects)@,
            }).drop_editing(),
    {
        proof {
            reveal(Turn::drop_editing);
        }
        self.clear_completion(effects);
        self.core.drop_replacement();
        self.clear_history_preview_authority();
    }

    fn drop_history(&mut self, effects: &mut EffectBatch)
        requires
            old(self)@.inv(),
        ensures
            final(self)@.inv(),
            (Turn { state: final(self)@, effects: final(effects)@ }) == (Turn {
                state: old(self)@,
                effects: old(effects)@,
            }).drop_history(),
    {
        proof {
            reveal(Turn::drop_history);
        }
        self.clear_completion(effects);
        self.clear_history_preview_authority();
    }

    fn change_directory(&mut self, directory: &[u8], effects: &mut EffectBatch)
        requires
            old(self)@.inv(),
            reportable_directory(directory@),
        ensures
            final(self)@.inv(),
            (Turn { state: final(self)@, effects: final(effects)@ }) == (Turn {
                state: old(self)@,
                effects: old(effects)@,
            }).directory_changed(directory@),
    {
        proof {
            reveal(Turn::directory_changed);
        }
        if is_same_path(self.core.cwd(), directory) {
            return;
        }
        self.core.set_cwd(copy_bytes(directory));
        self.clear_completion(effects);
        self.core.set_query_restart_deferred(true);
    }

    fn note_suppressed(&mut self, prompt_observed: bool, effects: &mut EffectBatch)
        requires
            old(self)@.inv(),
        ensures
            final(self)@.inv(),
            (Turn { state: final(self)@, effects: final(effects)@ }) == (Turn {
                state: old(self)@,
                effects: old(effects)@,
            }).suppressed(prompt_observed),
    {
        proof {
            reveal(Turn::suppressed);
        }
        if prompt_observed && self.core.input_boundary_fence() {
            self.core.drop_replacement();
            self.clear_history_preview_authority();
            self.handle_suppressed_prompt(effects);
            return;
        }
        self.drop_editing(effects);
    }

    fn unsettle(&mut self, effects: &mut EffectBatch)
        requires
            old(self)@.inv(),
        ensures
            final(self)@.inv(),
            (Turn { state: final(self)@, effects: final(effects)@ }) == (Turn {
                state: old(self)@,
                effects: old(effects)@,
            }).unsettled(),
    {
        proof {
            reveal(Turn::unsettled);
        }
        self.drop_editing(effects);
        self.core.set_fence_prompt_observed(false);
        self.core.set_fence_sync_nonce(None);
    }

    /// Hides and cancels suggestions before asynchronous shell output, then
    /// requests a fresh snapshot if the shell remains at an editable prompt.
    pub fn observe_shell_output(&mut self) -> (effects: EffectBatch)
        requires
            old(self)@.inv(),
        ensures
            final(self)@.inv(),
            (Turn { state: final(self)@, effects: effects@ }) == turn_of(old(self)@).shell_output(),
    {
        proof {
            reveal(Turn::shell_output);
        }
        let mut effects = EffectBatch::default();
        self.drop_history(&mut effects);
        self.core.set_probe_needed(true);
        self.issue_probe_if_safe(&mut effects, false);
        effects
    }

    /// Accepts one provider batch only for its exact active generation.
    pub fn accept_provider_batch(&mut self, batch: ProviderBatch) -> (outcome: BatchOutcome)
        requires
            old(self)@.inv(),
        ensures
            final(self)@.inv(),
            ({
                let (completion, expected) = old(self)@.completion.after_reply(
                    batch.provider@,
                    batch.generation,
                    batch.suggestions@,
                );
                &&& final(self)@ == (ReducerView { completion, ..old(self)@ })
                &&& outcome == expected
            }),
    {
        self.core.completion_mut().accept_batch(batch)
    }

    /// Merged current-generation candidates for caller-owned ranking.
    pub fn merged_candidates(&self, generation: u64) -> (result: Result<
        Vec<Suggestion>,
        AuthorityRejection,
    >)
        requires
            self@.inv(),
        ensures
            match result {
                Ok(candidates) => self@.completion.refusal(generation) is None && candidates@ == merged(
                    self@.completion.replies,
                ),
                Err(rejection) => self@.completion.refusal(generation) == Some(rejection),
            },
    {
        self.core.completion().merged_candidates(generation)
    }

    /// Applies a full ranked permutation and derives rendering or history recall.
    pub fn apply_ranked_candidates(&mut self, generation: u64, ranked: Vec<Suggestion>) -> (reduction:
        PresentationReduction)
        requires
            old(self)@.inv(),
        ensures
            final(self)@.inv(),
            reduction.spec_outcome() == old(self)@.completion.after_ranking(generation, ranked@).1,
            (Turn { state: final(self)@, effects: reduction.spec_effects() }) == turn_of(
                old(self)@,
            ).ranking(generation, ranked@),
    {
        proof {
            reveal(Turn::ranking);
        }
        let outcome = self.core.completion_mut().apply_ranked(generation, ranked);
        let mut effects = EffectBatch::default();
        if let PresentationOutcome::Applied { .. } = outcome {
            self.present(&mut effects);
            self.issue_probe_if_safe(&mut effects, false);
            return PresentationReduction { outcome, effects };
        }
        self.issue_probe_if_safe(&mut effects, false);
        PresentationReduction { outcome, effects }
    }

    fn present(&mut self, effects: &mut EffectBatch)
        requires
            old(self)@.inv(),
        ensures
            final(self)@.inv(),
            (Turn { state: final(self)@, effects: final(effects)@ }) == (Turn {
                state: old(self)@,
                effects: old(effects)@,
            }).presented(),
    {
        proof {
            reveal(Turn::presented);
        }
        if self.core.recall_history_when_ready() {
            self.core.set_recall_history_when_ready(false);
            if self.preview_selected_history(effects) {
                return;
            }
        }
        self.refresh_or_clear_overlay(effects);
    }

    /// Applies one background-validated alias edit through the normal inert
    /// shell-buffer replacement protocol.
    ///
    /// Stale, cancelled, malformed, or currently unsafe results are ignored.
    /// The returned batch is empty in those cases. A successful reduction
    /// clears completion UI, replaces the real shell-native edit buffer, and
    /// requests a correlated authoritative snapshot without executing it.
    pub fn apply_alias_expansion(&mut self, generation: u64, edit: TextEdit) -> (effects: EffectBatch)
        requires
            old(self)@.inv(),
        ensures
            final(self)@.inv(),
            (Turn { state: final(self)@, effects: effects@ }) == turn_of(old(self)@).alias(
                generation,
                edit.range.start as int,
                edit.range.end as int,
                edit.replacement@,
            ),
    {
        proof {
            reveal(Turn::alias);
        }
        let mut effects = EffectBatch::default();
        if !self.actions_are_safe() {
            return effects;
        }
        let replacement: BufferReplacement = match self.alias_target(generation, &edit) {
            Some(replacement) => replacement,
            None => {
                return effects;
            },
        };
        let _done = self.begin_replacement(replacement, ReplacementKind::AliasExpansion, &mut effects);
        effects
    }

    fn alias_target(&self, generation: u64, edit: &TextEdit) -> (target: Option<BufferReplacement>)
        requires
            self@.inv(),
        ensures
            ({
                let expected = self@.alias_replacement(
                    generation,
                    edit.range.start as int,
                    edit.range.end as int,
                    edit.replacement@,
                );
                match target {
                    Some(replacement) => expected == Some(replacement@),
                    None => expected is None,
                }
            }),
    {
        proof {
            reveal(ReducerView::alias_replacement);
            reveal(CoordinatorView::inv);
        }
        let query: &CompletionQuery = match self.core.completion().active_query() {
            Some(query) => query,
            None => {
                return None;
            },
        };
        let start: usize = edit.range.start;
        let end: usize = edit.range.end;
        let line: &str = query.line.as_str();
        if query.generation != generation || start > end || end > query.cursor
            || !line.is_char_boundary(start) || !line.is_char_boundary(end) {
            return None;
        }
        let front: &str = split_text(line, start).0;
        let back: &str = split_text(line, end).1;
        let mut text: String = front.to_owned();
        text.append(edit.replacement.as_str());
        text.append(back);
        let kept: usize = query.cursor - (end - start);
        proof {
            let bytes = encode_utf8(line@);
            encode_utf8_valid_utf8(line@);
            assert(0 <= query.cursor <= bytes.len());
            lemma_encode_concat(front@, edit.replacement@);
            lemma_encode_concat(front@ + edit.replacement@, back@);
            valid_utf8_split(bytes, end as int);
            decode_utf8_encode_utf8(bytes.subrange(end as int, bytes.len() as int));
            assert(encode_utf8(back@).len() == bytes.len() - end);
            assert(encode_utf8(text@).len() == start + encode_utf8(edit.replacement@).len() + bytes.len()
                - end);
        }
        let total: usize = text_len(text.as_str());
        let added: usize = text_len(edit.replacement.as_str());
        assert(kept + added <= total);
        match BufferReplacement::new(text, kept + added) {
            Ok(replacement) => Some(replacement),
            Err(_) => None,
        }
    }

    fn reduce_route_batch(&mut self, batch: RouteBatch) -> (reduction: InputReduction)
        requires
            old(self)@.inv(),
        ensures
            final(self)@.inv(),
            reduction.spec_consumed() == batch.consumed_bytes,
            (Turn { state: final(self)@, effects: reduction.spec_effects() }) == turn_of(
                old(self)@,
            ).input(event_views(batch.events@)),
    {
        proof {
            reveal(Turn::input);
        }
        let consumed_bytes: usize = batch.consumed_bytes;
        let mut effects = EffectBatch::default();
        let events: Vec<InputEvent> = batch.events;
        let ghost views = event_views(events@);
        let ghost start = turn_of(self@);
        let mut i: usize = 0;
        assert(views.subrange(0, 0) =~= Seq::<InputEventView>::empty());
        while i < events.len()
            invariant
                0 <= i <= events@.len(),
                views == event_views(events@),
                self@.inv(),
                (Turn { state: self@, effects: effects@ }) == start.keys(views.subrange(0, i as int)),
            decreases events@.len() - i,
        {
            assert(views.subrange(0, i + 1).drop_last() =~= views.subrange(0, i as int));
            assert(views.subrange(0, i + 1).last() == events@[i as int]@);
            self.reduce_event(&events[i], &mut effects);
            i = i + 1;
        }
        assert(views.subrange(0, i as int) =~= views);
        self.restart_deferred_query_if_safe(&mut effects);
        self.issue_probe_if_safe(&mut effects, true);
        InputReduction { consumed_bytes, effects }
    }

    fn reduce_event(&mut self, event: &InputEvent, effects: &mut EffectBatch)
        requires
            old(self)@.inv(),
        ensures
            final(self)@.inv(),
            (Turn { state: final(self)@, effects: final(effects)@ }) == (Turn {
                state: old(self)@,
                effects: old(effects)@,
            }).key(event@),
    {
        proof {
            reveal(Turn::key);
        }
        self.release_unconfirmed_boundaries_for_local_toggle(event.action, effects);
        let fenced_before: bool = self.core.input_boundary_fence();
        let space: bool = match event.action {
            Some(InputAction::Printable(character)) => character == ' ',
            _ => false,
        };
        let typed_alias_space: bool = space && self.actions_are_safe();
        let handled: bool = match event.action {
            Some(action) => self.handle_action(action, effects),
            None => false,
        };
        let restoring_kind: bool = match self.core.pending_replacement() {
            Some(pending) => pending.kind == ReplacementKind::HistoryRestore,
            None => false,
        };
        let restoring_before_escape: bool = match event.action {
            Some(InputAction::Escape) => restoring_kind,
            _ => false,
        };
        let forward: bool = match event.forwarding {
            Forwarding::Immediate => true,
            Forwarding::OnFallback => !handled,
        };
        if !forward || event.bytes.len() == 0 {
            return;
        }
        let action: InputAction = match event.action {
            Some(action) => action,
            None => InputAction::Desynchronize,
        };
        self.note_forward(
            action,
            fenced_before,
            restoring_before_escape,
            typed_alias_space,
            effects,
        );
        effects.forward(copy_bytes(event.bytes.as_slice()));
    }

    fn note_forward(&mut self, action: InputAction, fenced: bool, restoring: bool, typed_alias_space: bool, effects: &mut EffectBatch)
        requires
            old(self)@.inv(),
        ensures
            final(self)@.inv(),
            (Turn { state: final(self)@, effects: final(effects)@ }) == (Turn {
                state: old(self)@,
                effects: old(effects)@,
            }).note_forward(action, fenced, restoring, typed_alias_space),
    {
        proof {
            reveal(Turn::note_forward);
        }
        if fenced {
            self.note_fenced_forward(action, effects);
            return;
        }
        match action {
            InputAction::Enter
            | InputAction::CtrlC
            | InputAction::PasteStart
            | InputAction::PasteEnd => {},
            _ => {
                if !restoring {
                    self.observe_forwarded_edit(typed_alias_space, effects);
                }
            },
        }
    }

    fn handle_action(&mut self, action: InputAction, effects: &mut EffectBatch) -> (handled: bool)
        requires
            old(self)@.inv(),
        ensures
            final(self)@.inv(),
            (Turn { state: final(self)@, effects: final(effects)@ }, handled) == (Turn {
                state: old(self)@,
                effects: old(effects)@,
            }).handle(action),
    {
        proof {
            reveal(Turn::handle);
        }
        if self.core.input_boundary_fence() {
            return false;
        }
        match action {
            InputAction::Tab
            | InputAction::ArrowUp
            | InputAction::ArrowDown
            | InputAction::ArrowRight
            | InputAction::ToggleMode
            | InputAction::ToggleMenu => {
                return self.act(action, effects);
            },
            _ => {
                self.prepare(action, effects);
                return false;
            },
        }
    }

    fn act(&mut self, action: InputAction, effects: &mut EffectBatch) -> (handled: bool)
        requires
            old(self)@.inv(),
        ensures
            final(self)@.inv(),
            (Turn { state: final(self)@, effects: final(effects)@ }, handled) == (Turn {
                state: old(self)@,
                effects: old(effects)@,
            }).act(action),
    {
        proof {
            reveal(Turn::act);
        }
        match action {
            InputAction::Tab => {
                return self.handle_tab(effects);
            },
            InputAction::ArrowUp => {
                return self.handle_vertical_navigation(false, effects);
            },
            InputAction::ArrowDown => {
                return self.handle_vertical_navigation(true, effects);
            },
            InputAction::ArrowRight => {
                return self.accept_ghost(effects);
            },
            InputAction::ToggleMode => {
                return self.toggle_mode(effects);
            },
            InputAction::ToggleMenu => {
                return self.toggle_menu(effects);
            },
            _ => {
                return false;
            },
        }
    }

    fn prepare(&mut self, action: InputAction, effects: &mut EffectBatch)
        requires
            old(self)@.inv(),
        ensures
            final(self)@.inv(),
            (Turn { state: final(self)@, effects: final(effects)@ }) == (Turn {
                state: old(self)@,
                effects: old(effects)@,
            }).prepare(action),
    {
        proof {
            reveal(Turn::prepare);
        }
        match action {
            InputAction::Enter => {
                self.handle_enter(effects);
                return;
            },
            InputAction::CtrlC => {
                self.handle_input_boundary(effects);
                return;
            },
            InputAction::Escape => {
                self.handle_escape(effects);
                return;
            },
            InputAction::CtrlU => {
                self.clear_completion(effects);
                return;
            },
            InputAction::PasteStart => {
                self.begin_paste(effects);
                return;
            },
            InputAction::PasteEnd => {
                self.core.set_paste_active(false);
                return;
            },
            InputAction::Desynchronize => {
                self.drop_history(effects);
                return;
            },
            _ => {
                return;
            },
        }
    }

    fn begin_paste(&mut self, effects: &mut EffectBatch)
        requires
            old(self)@.inv(),
        ensures
            final(self)@.inv(),
            (Turn { state: final(self)@, effects: final(effects)@ }) == (Turn {
                state: ReducerView { paste_active: true, ..old(self)@ },
                effects: old(effects)@,
            }).clear_completion(),
    {
        self.core.set_paste_active(true);
        self.clear_completion(effects);
    }

    fn handle_tab(&mut self, effects: &mut EffectBatch) -> (handled: bool)
        requires
            old(self)@.inv(),
        ensures
            final(self)@.inv(),
            (Turn { state: final(self)@, effects: final(effects)@ }, handled) == (Turn {
                state: old(self)@,
                effects: old(effects)@,
            }).tab(),
    {
        proof {
            reveal(Turn::tab);
        }
        if !self.actions_are_safe() || !self.selection().layer_enabled() {
            return false;
        }
        if self.selection().is_visible() {
            return self.replace_with_selected(ReplacementKind::Acceptance, effects);
        }
        if self.selection().candidates().len() == 0 {
            return false;
        }
        self.core.completion_mut().note_buffer_changed();
        effects.push(SessionEffect::RefreshOverlay);
        true
    }

    fn handle_input_boundary(&mut self, effects: &mut EffectBatch)
        requires
            old(self)@.inv(),
        ensures
            final(self)@.inv(),
            (Turn { state: final(self)@, effects: final(effects)@ }) == (Turn {
                state: old(self)@,
                effects: old(effects)@,
            }).boundary(),
    {
        proof {
            reveal(Turn::boundary);
        }
        let _cancelled = self.core.completion_mut().cancel_active_query();
        self.core.completion_mut().dismiss_suggestions();
        self.clear_history_preview_authority();
        self.core.drop_replacement();
        self.core.set_input_boundary_fence(true);
        self.core.set_queued_input_boundaries(1);
        self.core.set_fenced_input_pending(false);
        self.core.set_fence_prompt_observed(false);
        self.core.set_fence_sync_nonce(None);
        effects.push(SessionEffect::ClearOverlay);
    }

    fn handle_enter(&mut self, effects: &mut EffectBatch)
        requires
            old(self)@.inv(),
        ensures
            final(self)@.inv(),
            (Turn { state: final(self)@, effects: final(effects)@ }) == (Turn {
                state: old(self)@,
                effects: old(effects)@,
            }).enter(),
    {
        proof {
            reveal(Turn::enter);
            reveal(Turn::replace_with_selected);
            reveal(ReducerView::deliberately_selected);
        }
        if self.actions_are_safe() && self.selection().is_visible() && self.selection().is_navigated() {
            let _accepted = self.replace_with_selected(ReplacementKind::Acceptance, effects);
        }
        self.handle_input_boundary(effects);
    }

    fn handle_escape(&mut self, effects: &mut EffectBatch)
        requires
            old(self)@.inv(),
        ensures
            final(self)@.inv(),
            (Turn { state: final(self)@, effects: final(effects)@ }) == (Turn {
                state: old(self)@,
                effects: old(effects)@,
            }).escape(),
    {
        proof {
            reveal(Turn::escape);
        }
        if self.core.mode() == SessionMode::History && self.core.history_preview_active() && self.actions_are_safe() {
            self.leave_preview(effects);
            return;
        }
        self.dismiss(effects);
    }

    fn leave_preview(&mut self, effects: &mut EffectBatch)
        requires
            old(self)@.inv(),
        ensures
            final(self)@.inv(),
            (Turn { state: final(self)@, effects: final(effects)@ }) == (Turn {
                state: old(self)@,
                effects: old(effects)@,
            }).leave_preview(),
    {
        proof {
            reveal(Turn::leave_preview);
        }
        self.clear_completion(effects);
        let origin: Option<BufferReplacement> = self.return_to_spec(effects);
        match origin {
            Some(origin) => {
                let _done = self.begin_replacement(
                    origin,
                    ReplacementKind::HistoryRestore,
                    effects,
                );
                return;
            },
            None => {
                return;
            },
        }
    }

    fn dismiss(&mut self, effects: &mut EffectBatch)
        requires
            old(self)@.inv(),
        ensures
            final(self)@.inv(),
            (Turn { state: final(self)@, effects: final(effects)@ }) == (Turn {
                state: old(self)@,
                effects: old(effects)@,
            }).dismiss(),
    {
        proof {
            reveal(Turn::dismiss);
        }
        self.core.completion_mut().dismiss_suggestions();
        effects.push(SessionEffect::ClearOverlay);
    }

    fn handle_vertical_navigation(&mut self, down: bool, effects: &mut EffectBatch) -> (handled: bool)
        requires
            old(self)@.inv(),
        ensures
            final(self)@.inv(),
            (Turn { state: final(self)@, effects: final(effects)@ }, handled) == (Turn {
                state: old(self)@,
                effects: old(effects)@,
            }).vertical(down),
    {
        proof {
            reveal(Turn::vertical);
        }
        if !self.actions_are_safe() {
            return false;
        }
        if !self.selection().is_visible() {
            let empty_prompt: bool = match self.core.shell().buffer() {
                Some(buffer) => buffer.is_empty(),
                None => false,
            };
            if empty_prompt {
                return self.enter_history_for_recall(effects);
            }
            return false;
        }
        self.move_selection(down, effects);
        self.show_moved(effects);
        true
    }

    fn move_selection(&mut self, down: bool, effects: &mut EffectBatch)
        requires
            old(self)@.inv(),
        ensures
            final(self)@.inv(),
            (Turn { state: final(self)@, effects: final(effects)@ }) == (Turn {
                state: old(self)@,
                effects: old(effects)@,
            }).move_selection(down),
    {
        proof {
            reveal(Turn::move_selection);
        }
        if down {
            self.core.completion_mut().select_next();
            return;
        }
        self.core.completion_mut().select_previous();
    }

    fn show_moved(&mut self, effects: &mut EffectBatch)
        requires
            old(self)@.inv(),
        ensures
            final(self)@.inv(),
            (Turn { state: final(self)@, effects: final(effects)@ }) == (Turn {
                state: old(self)@,
                effects: old(effects)@,
            }).show_moved(),
    {
        proof {
            reveal(Turn::show_moved);
        }
        if self.core.mode() == SessionMode::History {
            if self.preview_selected_history(effects) {
                return;
            }
        }
        effects.push(SessionEffect::RefreshOverlay);
    }

    fn accept_ghost(&mut self, effects: &mut EffectBatch) -> (handled: bool)
        requires
            old(self)@.inv(),
        ensures
            final(self)@.inv(),
            (Turn { state: final(self)@, effects: final(effects)@ }, handled) == (Turn {
                state: old(self)@,
                effects: old(effects)@,
            }).accept_ghost(),
    {
        proof {
            reveal(Turn::accept_ghost);
        }
        if !self.actions_are_safe() || !self.selection().is_visible() {
            return false;
        }
        match self.ghost_target() {
            Some(replacement) => self.begin_replacement(replacement, ReplacementKind::GhostText, effects),
            None => false,
        }
    }

    fn ghost_target(&self) -> (target: Option<BufferReplacement>)
        requires
            self@.inv(),
        ensures
            match target {
                Some(replacement) => self@.ghost_replacement() == Some(replacement@),
                None => self@.ghost_replacement() is None,
            },
    {
        proof {
            reveal(ReducerView::ghost_replacement);
        }
        let query: &CompletionQuery = match self.core.completion().active_query() {
            Some(query) => query,
            None => {
                return None;
            },
        };
        let candidate: &Suggestion = match self.selection().selected() {
            Some(candidate) => candidate,
            None => {
                return None;
            },
        };
        if query.cursor != text_len(query.line.as_str()) {
            return None;
        }
        let result: String = match candidate.resulting_line(query.line.as_str()) {
            Some(result) => result,
            None => {
                return None;
            },
        };
        let suffix: &str = match ghost_suffix(query.line.as_str(), result.as_str()) {
            Some(suffix) => suffix,
            None => {
                return None;
            },
        };
        let mut text: String = query.line.as_str().to_owned();
        text.append(suffix);
        let cursor: usize = text_len(text.as_str());
        match BufferReplacement::new(text, cursor) {
            Ok(replacement) => Some(replacement),
            Err(_) => None,
        }
    }

    fn toggle_mode(&mut self, effects: &mut EffectBatch) -> (handled: bool)
        requires
            old(self)@.inv(),
        ensures
            final(self)@.inv(),
            (Turn { state: final(self)@, effects: final(effects)@ }, handled) == (Turn {
                state: old(self)@,
                effects: old(effects)@,
            }).toggle_mode(),
    {
        proof {
            reveal(Turn::toggle_mode);
        }
        if !self.actions_are_safe() && !self.can_restore_pending_history() {
            return false;
        }
        self.clear_completion(effects);
        match self.core.mode() {
            SessionMode::Spec => match self.authoritative_replacement() {
                Some(origin) => {
                    self.enter_history(origin, false, effects);
                    return true;
                },
                None => {
                    return false;
                },
            },
            SessionMode::History => {
                return self.leave_history(effects);
            },
        }
    }

    fn enter_history(&mut self, origin: BufferReplacement, recall: bool, effects: &mut EffectBatch)
        requires
            old(self)@.inv(),
        ensures
            final(self)@.inv(),
            (Turn { state: final(self)@, effects: final(effects)@ }) == (Turn {
                state: old(self)@,
                effects: old(effects)@,
            }).enter_history(origin@, recall),
    {
        proof {
            reveal(Turn::enter_history);
        }
        self.core.set_mode(SessionMode::History);
        self.core.set_history_origin(Some(origin));
        self.core.set_history_preview_active(false);
        self.core.set_recall_history_when_ready(recall);
        effects.push(SessionEffect::ModeChanged(SessionMode::History));
        self.start_query_from_authority(effects);
    }

    fn leave_history(&mut self, effects: &mut EffectBatch) -> (handled: bool)
        requires
            old(self)@.inv(),
        ensures
            final(self)@.inv(),
            (Turn { state: final(self)@, effects: final(effects)@ }, handled) == (Turn {
                state: old(self)@,
                effects: old(effects)@,
            }).leave_history(),
    {
        proof {
            reveal(Turn::leave_history);
        }
        let previewing: bool = match self.core.pending_replacement() {
            Some(pending) => pending.kind == ReplacementKind::HistoryPreview,
            None => false,
        };
        let restore: bool = self.core.history_preview_active() || previewing;
        let origin: Option<BufferReplacement> = self.return_to_spec(effects);
        if !restore {
            self.start_query_from_authority(effects);
            return true;
        }
        match origin {
            Some(origin) => {
                return self.begin_replacement(origin, ReplacementKind::HistoryRestore, effects);
            },
            None => {
                return true;
            },
        }
    }

    fn return_to_spec(&mut self, effects: &mut EffectBatch) -> (origin: Option<BufferReplacement>)
        requires
            old(self)@.inv(),
        ensures
            final(self)@.inv(),
            final(self)@ == (ReducerView { mode: SessionMode::Spec, ..old(self)@.without_history() }),
            final(effects)@ == old(effects)@.push(EffectView::ModeChanged(SessionMode::Spec)),
            match origin {
                Some(buffer) => old(self)@.origin == Some(buffer@),
                None => old(self)@.origin is None,
            },
    {
        let origin: Option<BufferReplacement> = self.core.take_history_origin();
        self.core.set_mode(SessionMode::Spec);
        self.clear_history_preview_authority();
        effects.push(SessionEffect::ModeChanged(SessionMode::Spec));
        origin
    }

    fn toggle_menu(&mut self, effects: &mut EffectBatch) -> (handled: bool)
        requires
            old(self)@.inv(),
        ensures
            final(self)@.inv(),
            (Turn { state: final(self)@, effects: final(effects)@ }, handled) == (Turn {
                state: old(self)@,
                effects: old(effects)@,
            }).toggle_menu(),
    {
        proof {
            reveal(Turn::toggle_menu);
        }
        if !self.actions_are_safe() {
            return false;
        }
        self.core.completion_mut().toggle_suggestion_layer();
        self.refresh_or_clear_overlay(effects);
        true
    }

    fn enter_history_for_recall(&mut self, effects: &mut EffectBatch) -> (handled: bool)
        requires
            old(self)@.inv(),
        ensures
            final(self)@.inv(),
            (Turn { state: final(self)@, effects: final(effects)@ }, handled) == (Turn {
                state: old(self)@,
                effects: old(effects)@,
            }).recall_history(),
    {
        proof {
            reveal(Turn::recall_history);
        }
        match self.authoritative_replacement() {
            Some(origin) => {
                self.clear_completion(effects);
                self.enter_history(origin, true, effects);
                return true;
            },
            None => {
                return false;
            },
        }
    }

    fn preview_selected_history(&mut self, effects: &mut EffectBatch) -> (previewed: bool)
        requires
            old(self)@.inv(),
        ensures
            final(self)@.inv(),
            (Turn { state: final(self)@, effects: final(effects)@ }, previewed) == (Turn {
                state: old(self)@,
                effects: old(effects)@,
            }).preview_selected(),
    {
        proof {
            reveal(Turn::preview_selected);
        }
        let from_history: bool = match self.selection().selected() {
            Some(candidate) => candidate.source() == SuggestionSource::History,
            None => false,
        };
        if self.core.mode() != SessionMode::History || !from_history {
            return false;
        }
        self.remember_origin();
        self.replace_with_selected(ReplacementKind::HistoryPreview, effects)
    }

    fn remember_origin(&mut self)
        requires
            old(self)@.inv(),
        ensures
            final(self)@.inv(),
            final(self)@ == (ReducerView {
                origin: if old(self)@.origin is None {
                    old(self)@.authoritative()
                } else {
                    old(self)@.origin
                },
                ..old(self)@
            }),
    {
        if self.core.history_origin().is_none() {
            let origin = self.authoritative_replacement();
            self.core.set_history_origin(origin);
        }
    }

    fn replace_with_selected(&mut self, kind: ReplacementKind, effects: &mut EffectBatch) -> (replaced: bool)
        requires
            old(self)@.inv(),
        ensures
            final(self)@.inv(),
            (Turn { state: final(self)@, effects: final(effects)@ }, replaced) == (Turn {
                state: old(self)@,
                effects: old(effects)@,
            }).replace_with_selected(kind),
    {
        proof {
            reveal(Turn::replace_with_selected);
        }
        match self.selected_target() {
            Some(replacement) => self.begin_replacement(replacement, kind, effects),
            None => false,
        }
    }

    fn selected_target(&self) -> (target: Option<BufferReplacement>)
        requires
            self@.inv(),
        ensures
            match target {
                Some(replacement) => self@.selected_replacement() == Some(replacement@),
                None => self@.selected_replacement() is None,
            },
    {
        proof {
            reveal(ReducerView::selected_replacement);
        }
        let query: &CompletionQuery = match self.core.completion().active_query() {
            Some(query) => query,
            None => {
                return None;
            },
        };
        let candidate: &Suggestion = match self.selection().selected() {
            Some(candidate) => candidate,
            None => {
                return None;
            },
        };
        let line: &str = query.line.as_str();
        let edit: TextEdit = match candidate.resolved_edit(line) {
            Ok(edit) => edit,
            Err(_) => {
                return None;
            },
        };
        let text: String = match edit.apply(line) {
            Ok(text) => text,
            Err(_) => {
                return None;
            },
        };
        proof {
            let bytes = encode_utf8(line@);
            let start = edit.range.start as int;
            let front = text_before(line@, start);
            encode_utf8_valid_utf8(line@);
            valid_utf8_split(bytes, start);
            decode_utf8_encode_utf8(bytes.subrange(0, start));
            lemma_encode_concat(front, edit.replacement@);
            lemma_encode_concat(
                front + edit.replacement@,
                text_behind(line@, edit.range.end as int),
            );
        }
        let total: usize = text_len(text.as_str());
        let added: usize = text_len(edit.replacement.as_str());
        assert(edit.range.start + added <= total);
        match BufferReplacement::new(text, edit.range.start + added) {
            Ok(replacement) => Some(replacement),
            Err(_) => None,
        }
    }

    fn begin_replacement(&mut self, replacement: BufferReplacement, kind: ReplacementKind, effects: &mut EffectBatch) -> (requested: bool)
        requires
            old(self)@.inv(),
        ensures
            final(self)@.inv(),
            (Turn { state: final(self)@, effects: final(effects)@ }, requested) == (Turn {
                state: old(self)@,
                effects: old(effects)@,
            }).begin_replacement(replacement@, kind),
    {
        proof {
            reveal(Turn::begin_replacement);
        }
        if self.core.shell_mut().observe_local_input().is_err() {
            self.clear_completion(effects);
            effects.push(SessionEffect::Fault(SessionFault::InputGenerationExhausted));
            return false;
        }
        let _cancelled = self.core.completion_mut().cancel_active_query();
        self.core.completion_mut().dismiss_suggestions();
        self.core.set_probe_needed(true);
        self.request_pair(replacement, kind, effects)
    }

    fn request_pair(&mut self, replacement: BufferReplacement, kind: ReplacementKind, effects: &mut EffectBatch) -> (requested: bool)
        requires
            old(self)@.inv(),
        ensures
            final(self)@.inv(),
            (Turn { state: final(self)@, effects: final(effects)@ }, requested) == (Turn {
                state: old(self)@,
                effects: old(effects)@,
            }).request_pair(replacement@, kind),
    {
        proof {
            reveal(Turn::request_pair);
        }
        // A replacement may only reach the runtime together with its
        // correlated synchronization request; later events in the same batch
        // can legitimately suppress the batch-final request, so the pair is
        // emitted here or not at all.
        if self.core.shell().capability() != BufferSyncCapability::Probe {
            effects.push(SessionEffect::ClearOverlay);
            return false;
        }
        match self.core.shell_mut().begin_sync_probe() {
            Ok(nonce) => {
                self.note_pair_sent(replacement, kind, nonce, effects);
                return true;
            },
            Err(error) => {
                self.note_pair_refused(error, effects);
                return false;
            },
        }
    }

    fn note_pair_sent(&mut self, replacement: BufferReplacement, kind: ReplacementKind, nonce: SnapshotNonce, effects: &mut EffectBatch)
        requires
            old(self)@.inv(),
        ensures
            final(self)@.inv(),
            (Turn { state: final(self)@, effects: final(effects)@ }) == (Turn {
                state: old(self)@,
                effects: old(effects)@,
            }).pair_sent(replacement@, kind, nonce@),
    {
        proof {
            reveal(Turn::pair_sent);
        }
        self.core.set_probe_needed(false);
        self.core.request_replacement(replacement.clone(), kind);
        effects.push(SessionEffect::ClearOverlay);
        effects.push(SessionEffect::ReplaceBuffer(replacement));
        effects.push(SessionEffect::RequestBufferSync(nonce));
        match kind {
            ReplacementKind::Acceptance
            | ReplacementKind::AliasExpansion
            | ReplacementKind::GhostText => {
                self.clear_history_preview_authority();
            },
            ReplacementKind::HistoryPreview | ReplacementKind::HistoryRestore => {},
        }
    }

    fn note_pair_refused(&mut self, error: ProbeRequestError, effects: &mut EffectBatch)
        requires
            old(self)@.inv(),
        ensures
            final(self)@.inv(),
            (Turn { state: final(self)@, effects: final(effects)@ }) == (Turn {
                state: old(self)@,
                effects: old(effects)@,
            }).pair_refused(error),
    {
        proof {
            reveal(Turn::pair_refused);
        }
        effects.push(SessionEffect::ClearOverlay);
        self.note_probe_refused(error, effects);
    }

    fn note_probe_refused(&mut self, error: ProbeRequestError, effects: &mut EffectBatch)
        requires
            old(self)@.inv(),
        ensures
            final(self)@.inv(),
            (Turn { state: final(self)@, effects: final(effects)@ }) == (Turn {
                state: old(self)@,
                effects: old(effects)@,
            }).probe_refused(error),
    {
        proof {
            reveal(Turn::probe_refused);
        }
        match error {
            ProbeRequestError::AlreadyPending | ProbeRequestError::NotAtEditablePrompt => {},
            ProbeRequestError::CapabilityUnavailable | ProbeRequestError::NonceExhausted => {
                self.core.set_probe_needed(false);
                effects.push(SessionEffect::Fault(SessionFault::Probe(error)));
            },
        }
    }

    fn touch(&mut self, effects: &mut EffectBatch)
        requires
            old(self)@.inv(),
        ensures
            final(self)@.inv(),
            (Turn { state: final(self)@, effects: final(effects)@ }) == (Turn {
                state: old(self)@,
                effects: old(effects)@,
            }).touch(),
    {
        proof {
            reveal(Turn::touch);
        }
        if self.core.shell_mut().observe_local_input().is_err() {
            effects.push(SessionEffect::Fault(SessionFault::InputGenerationExhausted));
            return;
        }
    }

    fn observe_forwarded_edit(&mut self, typed_alias_space: bool, effects: &mut EffectBatch)
        requires
            old(self)@.inv(),
        ensures
            final(self)@.inv(),
            (Turn { state: final(self)@, effects: final(effects)@ }) == (Turn {
                state: old(self)@,
                effects: old(effects)@,
            }).observe_edit(typed_alias_space),
    {
        proof {
            reveal(Turn::observe_edit);
        }
        self.touch(effects);
        self.clear_completion(effects);
        self.core.set_alias_expansion_pending(typed_alias_space);
        self.core.drop_replacement();
        self.core.set_probe_needed(true);
        self.clear_history_preview_authority();
    }

    fn start_query_from_authority(&mut self, effects: &mut EffectBatch)
        requires
            old(self)@.inv(),
        ensures
            final(self)@.inv(),
            (Turn { state: final(self)@, effects: final(effects)@ }) == (Turn {
                state: old(self)@,
                effects: old(effects)@,
            }).start_query(),
    {
        proof {
            reveal(Turn::start_query);
        }
        let alias_expansion: bool = self.withdraw_query();
        match self.query_text_and_cursor() {
            Some((line, cursor)) => {
                if self.core.mode() == SessionMode::Spec && line.as_str().is_empty() {
                    effects.push(SessionEffect::ClearOverlay);
                    return;
                }
                self.ask(line, cursor, alias_expansion, effects);
                return;
            },
            None => {
                return;
            },
        }
    }

    fn withdraw_query(&mut self) -> (alias_expansion: bool)
        requires
            old(self)@.inv(),
        ensures
            final(self)@.inv(),
            alias_expansion == old(self)@.alias_pending,
            final(self)@ == (ReducerView {
                restart_deferred: false,
                alias_pending: false,
                completion: old(self)@.completion.cancelled(),
                ..old(self)@
            }),
    {
        self.core.set_query_restart_deferred(false);
        let _cancelled = self.core.completion_mut().cancel_active_query();
        let alias_expansion: bool = self.core.alias_expansion_pending();
        self.core.set_alias_expansion_pending(false);
        alias_expansion
    }

    fn ask(&mut self, line: String, cursor: usize, alias_expansion: bool, effects: &mut EffectBatch)
        requires
            old(self)@.inv(),
        ensures
            final(self)@.inv(),
            (Turn { state: final(self)@, effects: final(effects)@ }) == (Turn {
                state: old(self)@,
                effects: old(effects)@,
            }).ask(ReplacementView { text: line@, cursor: cursor as int }, alias_expansion),
    {
        proof {
            reveal(Turn::ask);
        }
        let cwd: Vec<u8> = copy_bytes(self.core.cwd());
        match self.core.completion_mut().start_query(line, cursor, cwd) {
            Ok(work) => {
                effects.push(SessionEffect::StartQuery { mode: self.core.mode(), alias_expansion, work });
                return;
            },
            Err(error) => {
                effects.push(SessionEffect::Fault(SessionFault::QueryStart(error)));
                return;
            },
        }
    }

    fn query_text_and_cursor(&self) -> (asked: Option<(String, usize)>)
        ensures
            match asked {
                Some((line, cursor)) => self@.query_text() == Some(
                    ReplacementView { text: line@, cursor: cursor as int },
                ),
                None => self@.query_text() is None,
            },
    {
        proof {
            reveal(ReducerView::query_text);
        }
        if self.core.mode() == SessionMode::History && self.core.history_preview_active() {
            if let Some(origin) = self.core.history_origin() {
                return Some((origin.as_str().to_owned(), origin.cursor()));
            }
        }
        self.buffer_text()
    }

    fn buffer_text(&self) -> (asked: Option<(String, usize)>)
        ensures
            match asked {
                Some((line, cursor)) => self@.buffer_text() == Some(
                    ReplacementView { text: line@, cursor: cursor as int },
                ),
                None => self@.buffer_text() is None,
            },
    {
        proof {
            reveal(ReducerView::buffer_text);
        }
        match self.core.shell().buffer() {
            None => None,
            Some(buffer) => match buffer.as_str() {
                None => None,
                Some(text) => {
                    proof {
                        encode_utf8_decode_utf8(text@);
                    }
                    Some((text.to_owned(), buffer.cursor()))
                },
            },
        }
    }

    fn authoritative_replacement(&self) -> (replacement: Option<BufferReplacement>)
        ensures
            match replacement {
                Some(buffer) => self@.authoritative() == Some(buffer@),
                None => self@.authoritative() is None,
            },
    {
        proof {
            reveal(ReducerView::authoritative);
        }
        match self.buffer_text() {
            None => None,
            Some((text, cursor)) => match BufferReplacement::new(text, cursor) {
                Ok(replacement) => Some(replacement),
                Err(_) => None,
            },
        }
    }

    fn handle_authoritative_update(&mut self, prompt: bool, effects: &mut EffectBatch)
        requires
            old(self)@.inv(),
        ensures
            final(self)@.inv(),
            (Turn { state: final(self)@, effects: final(effects)@ }) == (Turn {
                state: old(self)@,
                effects: old(effects)@,
            }).authority(prompt),
    {
        proof {
            reveal(Turn::authority);
        }
        if !self.core.input_boundary_fence() {
            self.take_open_authority(prompt, effects);
            return;
        }
        if prompt {
            self.take_fenced_prompt(effects);
            return;
        }
        self.take_fenced_snapshot(effects);
    }

    fn take_open_authority(&mut self, prompt: bool, effects: &mut EffectBatch)
        requires
            old(self)@.inv(),
        ensures
            final(self)@.inv(),
            (Turn { state: final(self)@, effects: final(effects)@ }) == (Turn {
                state: old(self)@,
                effects: old(effects)@,
            }).open_authority(prompt),
    {
        proof {
            reveal(Turn::open_authority);
        }
        self.core.set_probe_needed(false);
        self.confirm_or_discard_replacement();
        if prompt {
            self.clear_history_preview_authority();
        }
        self.start_query_from_authority(effects);
    }

    fn take_fenced_prompt(&mut self, effects: &mut EffectBatch)
        requires
            old(self)@.inv(),
        ensures
            final(self)@.inv(),
            (Turn { state: final(self)@, effects: final(effects)@ }) == (Turn {
                state: old(self)@,
                effects: old(effects)@,
            }).fenced_prompt(),
    {
        proof {
            reveal(Turn::fenced_prompt);
        }
        self.core.drop_replacement();
        self.core.set_fence_sync_nonce(None);
        if self.consume_queued_boundary_prompt(effects) {
            return;
        }
        self.take_last_prompt(effects);
    }

    fn take_last_prompt(&mut self, effects: &mut EffectBatch)
        requires
            old(self)@.inv(),
        ensures
            final(self)@.inv(),
            (Turn { state: final(self)@, effects: final(effects)@ }) == (Turn {
                state: old(self)@,
                effects: old(effects)@,
            }).last_prompt(),
    {
        proof {
            reveal(Turn::last_prompt);
        }
        self.core.set_fence_prompt_observed(true);
        if self.core.fenced_input_pending() {
            self.prepare_fence_probe(effects);
            return;
        }
        self.release_input_boundary(effects);
    }

    fn take_fenced_snapshot(&mut self, effects: &mut EffectBatch)
        requires
            old(self)@.inv(),
        ensures
            final(self)@.inv(),
            (Turn { state: final(self)@, effects: final(effects)@ }) == (Turn {
                state: old(self)@,
                effects: old(effects)@,
            }).fenced_snapshot(),
    {
        proof {
            reveal(Turn::fenced_snapshot);
        }
        self.core.drop_replacement();
        let received_nonce: Option<SnapshotNonce> = match self.core.shell().buffer() {
            Some(buffer) => buffer.probe_nonce(),
            None => None,
        };
        let causally_new: bool = match (self.core.fence_sync_nonce(), received_nonce) {
            (Some(expected), Some(received)) => expected.get() == received.get(),
            _ => false,
        };
        if causally_new && !self.core.fenced_input_pending() {
            self.release_input_boundary(effects);
            return;
        }
        if self.core.fence_prompt_observed() {
            self.resynchronize(effects);
            return;
        }
        self.clear_completion(effects);
    }

    fn resynchronize(&mut self, effects: &mut EffectBatch)
        requires
            old(self)@.inv(),
        ensures
            final(self)@.inv(),
            (Turn { state: final(self)@, effects: final(effects)@ }) == (Turn {
                state: old(self)@,
                effects: old(effects)@,
            }).resynchronize(),
    {
        proof {
            reveal(Turn::resynchronize);
        }
        self.clear_completion(effects);
        self.core.set_probe_needed(true);
        self.issue_probe_if_safe(effects, false);
    }

    fn handle_suppressed_prompt(&mut self, effects: &mut EffectBatch)
        requires
            old(self)@.inv(),
        ensures
            final(self)@.inv(),
            (Turn { state: final(self)@, effects: final(effects)@ }) == (Turn {
                state: old(self)@,
                effects: old(effects)@,
            }).suppressed_prompt(),
    {
        proof {
            reveal(Turn::suppressed_prompt);
        }
        self.core.set_fence_sync_nonce(None);
        if self.consume_queued_boundary_prompt(effects) {
            return;
        }
        self.take_last_suppressed_prompt(effects);
    }

    fn take_last_suppressed_prompt(&mut self, effects: &mut EffectBatch)
        requires
            old(self)@.inv(),
        ensures
            final(self)@.inv(),
            (Turn { state: final(self)@, effects: final(effects)@ }) == (Turn {
                state: old(self)@,
                effects: old(effects)@,
            }).last_suppressed_prompt(),
    {
        proof {
            reveal(Turn::last_suppressed_prompt);
        }
        self.core.set_fence_prompt_observed(true);
        if self.core.fenced_input_pending() {
            self.prepare_fence_probe(effects);
            return;
        }
        self.resynchronize(effects);
    }

    #[verifier::spinoff_prover]
    #[verifier::rlimit(40)]
    fn consume_queued_boundary_prompt(&mut self, effects: &mut EffectBatch) -> (more: bool)
        requires
            old(self)@.inv(),
        ensures
            final(self)@.inv(),
            (Turn { state: final(self)@, effects: final(effects)@ }, more) == (Turn {
                state: old(self)@,
                effects: old(effects)@,
            }).consume_boundary(),
    {
        proof {
            reveal(Turn::consume_boundary);
        }
        match self.core.queued_input_boundaries().checked_sub(1) {
            None => false,
            Some(remaining) => {
                self.core.set_queued_input_boundaries(remaining);
                self.core.set_fence_prompt_observed(remaining != 0);
                self.core.set_fence_sync_nonce(None);
                assert(self@ == (ReducerView {
                    queued_boundaries: remaining,
                    prompt_observed: remaining != 0,
                    fence_nonce: None,
                    ..old(self)@
                }));
                if remaining == 0 {
                    return false;
                }
                self.core.set_probe_needed(false);
                self.clear_completion(effects);
                true
            },
        }
    }

    fn release_unconfirmed_boundaries_for_local_toggle(
        &mut self,
        action: Option<InputAction>,
        effects: &mut EffectBatch,
    )
        requires
            old(self)@.inv(),
        ensures
            final(self)@.inv(),
            (Turn { state: final(self)@, effects: final(effects)@ }) == (Turn {
                state: old(self)@,
                effects: old(effects)@,
            }).collapse_boundaries(action),
    {
        proof {
            reveal(Turn::collapse_boundaries);
        }
        let toggle: bool = match action {
            Some(InputAction::ToggleMode) | Some(InputAction::ToggleMenu) => true,
            _ => false,
        };
        if !toggle || !self.core.input_boundary_fence() || !self.core.fence_prompt_observed()
            || self.core.queued_input_boundaries() == 0 || self.core.fenced_input_pending()
            || self.core.fence_sync_nonce().is_some() || !self.core.shell().suggestions_allowed() {
            return;
        }
        // Enter may continue a multiline command, and Ctrl+C may interrupt a
        // command whose start frame has not arrived yet. Treat both as raw
        // boundary hints until a distinct command start confirms more work.
        // Only local UI toggles may collapse the ambiguity. Forwarded input
        // remains fenced so a delayed queued command start cannot receive a
        // synchronization probe in its input stream.
        self.release_input_boundary(effects);
    }

    fn prepare_fence_probe(&mut self, effects: &mut EffectBatch)
        requires
            old(self)@.inv(),
        ensures
            final(self)@.inv(),
            (Turn { state: final(self)@, effects: final(effects)@ }) == (Turn {
                state: old(self)@,
                effects: old(effects)@,
            }).fence_probe(),
    {
        proof {
            reveal(Turn::fence_probe);
        }
        self.clear_completion(effects);
        self.core.set_fenced_input_pending(false);
        if self.core.shell_mut().observe_local_input().is_err() {
            effects.push(SessionEffect::Fault(SessionFault::InputGenerationExhausted));
            return;
        }
        self.core.set_probe_needed(true);
        self.issue_probe_if_safe(effects, false);
    }

    fn release_input_boundary(&mut self, effects: &mut EffectBatch)
        requires
            old(self)@.inv(),
        ensures
            final(self)@.inv(),
            (Turn { state: final(self)@, effects: final(effects)@ }) == (Turn {
                state: old(self)@,
                effects: old(effects)@,
            }).release(),
    {
        proof {
            reveal(Turn::release);
        }
        self.core.set_input_boundary_fence(false);
        self.core.set_queued_input_boundaries(0);
        self.core.set_fenced_input_pending(false);
        self.core.set_fence_prompt_observed(false);
        self.core.set_fence_sync_nonce(None);
        self.core.set_probe_needed(false);
        self.start_query_from_authority(effects);
    }

    fn note_fenced_forward(&mut self, action: InputAction, effects: &mut EffectBatch)
        requires
            old(self)@.inv(),
        ensures
            final(self)@.inv(),
            (Turn { state: final(self)@, effects: final(effects)@ }) == (Turn {
                state: old(self)@,
                effects: old(effects)@,
            }).note_fenced(action),
    {
        proof {
            reveal(Turn::note_fenced);
        }
        let input_boundary: bool = match action {
            InputAction::Enter | InputAction::CtrlC => true,
            _ => false,
        };
        if !input_boundary {
            self.outdate_fence_probe(effects);
            self.core.set_fenced_input_pending(true);
            return;
        }
        if self.core.shell().foreground() == ForegroundCommandState::Running {
            return;
        }
        self.outdate_fence_probe(effects);
        self.count_boundary(effects);
    }

    fn outdate_fence_probe(&mut self, effects: &mut EffectBatch)
        requires
            old(self)@.inv(),
        ensures
            final(self)@.inv(),
            (Turn { state: final(self)@, effects: final(effects)@ }) == (Turn {
                state: old(self)@,
                effects: old(effects)@,
            }).outdate_fence_probe(),
    {
        proof {
            reveal(Turn::outdate_fence_probe);
        }
        if self.core.fence_sync_nonce().is_some() {
            self.touch(effects);
            self.core.set_fence_sync_nonce(None);
            self.core.set_probe_needed(true);
            return;
        }
    }

    fn count_boundary(&mut self, effects: &mut EffectBatch)
        requires
            old(self)@.inv(),
        ensures
            final(self)@.inv(),
            (Turn { state: final(self)@, effects: final(effects)@ }) == (Turn {
                state: old(self)@,
                effects: old(effects)@,
            }).count_boundary(),
    {
        proof {
            reveal(Turn::count_boundary);
        }
        match self.core.queued_input_boundaries().checked_add(1) {
            None => {
                self.core.set_fenced_input_pending(true);
                effects.push(SessionEffect::Fault(SessionFault::InputBoundaryExhausted));
                return;
            },
            Some(boundaries) => {
                self.core.set_queued_input_boundaries(boundaries);
                self.core.set_fenced_input_pending(false);
                return;
            },
        }
    }

    fn confirm_or_discard_replacement(&mut self)
        requires
            old(self)@.inv(),
        ensures
            final(self)@.inv(),
            final(self)@ == old(self)@.settled(),
    {
        proof {
            reveal(ReducerView::settled);
        }
        match self.core.take_replacement() {
            None => {},
            Some(pending) => {
                let matches: bool = match self.core.shell().buffer() {
                    Some(buffer) => bytes_equal(buffer.as_bytes(), pending.replacement.as_bytes())
                        && buffer.cursor() == pending.replacement.cursor(),
                    None => false,
                };
                if pending.kind == ReplacementKind::HistoryPreview {
                    self.core.set_history_preview_active(matches);
                    if !matches {
                        self.core.set_history_origin(None);
                    }
                }
            },
        }
    }

    fn clear_history_preview_authority(&mut self)
        ensures
            final(self)@ == old(self)@.without_history(),
    {
        self.core.set_history_origin(None);
        self.core.set_history_preview_active(false);
        self.core.set_recall_history_when_ready(false);
    }

    fn actions_are_safe(&self) -> (safe: bool)
        ensures
            safe == self@.safe(),
    {
        proof {
            reveal(ReducerView::safe);
        }
        self.core.shell().suggestions_allowed() && self.core.pending_replacement().is_none() && !self.core.paste_active()
            && !self.core.input().is_bracketed_paste() && !self.core.input_boundary_fence()
    }

    fn can_restore_pending_history(&self) -> (can: bool)
        ensures
            can == self@.can_restore_history(),
    {
        proof {
            reveal(ReducerView::can_restore_history);
        }
        let previewing: bool = match self.core.pending_replacement() {
            Some(pending) => pending.kind == ReplacementKind::HistoryPreview,
            None => false,
        };
        self.core.mode() == SessionMode::History && self.core.history_origin().is_some() && self.core.shell().foreground()
            == ForegroundCommandState::Idle && previewing
    }

    fn clear_completion(&mut self, effects: &mut EffectBatch)
        requires
            old(self)@.inv(),
        ensures
            final(self)@.inv(),
            (Turn { state: final(self)@, effects: final(effects)@ }) == (Turn {
                state: old(self)@,
                effects: old(effects)@,
            }).clear_completion(),
    {
        proof {
            reveal(Turn::clear_completion);
        }
        let _cancelled = self.core.completion_mut().cancel_active_query();
        self.core.completion_mut().dismiss_suggestions();
        self.core.set_alias_expansion_pending(false);
        effects.push(SessionEffect::ClearOverlay);
    }

    fn refresh_or_clear_overlay(&self, effects: &mut EffectBatch)
        ensures
            (Turn { state: self@, effects: final(effects)@ }) == (Turn {
                state: self@,
                effects: old(effects)@,
            }).refresh_or_clear(),
    {
        proof {
            reveal(Turn::refresh_or_clear);
        }
        if self.actions_are_safe() && self.selection().is_visible() {
            effects.push(SessionEffect::RefreshOverlay);
        } else {
            effects.push(SessionEffect::ClearOverlay);
        }
    }

    fn restart_deferred_query_if_safe(&mut self, effects: &mut EffectBatch)
        requires
            old(self)@.inv(),
        ensures
            final(self)@.inv(),
            (Turn { state: final(self)@, effects: final(effects)@ }) == (Turn {
                state: old(self)@,
                effects: old(effects)@,
            }).restart_if_safe(),
    {
        proof {
            reveal(Turn::restart_if_safe);
        }
        if self.core.query_restart_deferred() && self.actions_are_safe() {
            self.start_query_from_authority(effects);
        }
    }

    fn issue_probe_if_safe(&mut self, effects: &mut EffectBatch, require_complete_input: bool)
        requires
            old(self)@.inv(),
        ensures
            final(self)@.inv(),
            (Turn { state: final(self)@, effects: final(effects)@ }) == (Turn {
                state: old(self)@,
                effects: old(effects)@,
            }).issue_probe(require_complete_input),
    {
        proof {
            reveal(Turn::issue_probe);
        }
        if !self.core.probe_needed() || self.core.paste_active() || self.core.input().is_bracketed_paste() || (
        require_complete_input && self.core.input().pending_len() != 0) || self.core.shell().capability()
            != BufferSyncCapability::Probe || (self.core.input_boundary_fence() && !self.core.fence_prompt_observed())
            || self.core.queued_input_boundaries() != 0 {
            return;
        }
        match self.core.shell_mut().begin_sync_probe() {
            Ok(nonce) => {
                self.note_probe_sent(nonce, effects);
                return;
            },
            Err(error) => {
                self.note_probe_refused(error, effects);
                return;
            },
        }
    }

    fn note_probe_sent(&mut self, nonce: SnapshotNonce, effects: &mut EffectBatch)
        requires
            old(self)@.inv(),
        ensures
            final(self)@.inv(),
            (Turn { state: final(self)@, effects: final(effects)@ }) == (Turn {
                state: old(self)@,
                effects: old(effects)@,
            }).probe_sent(nonce@),
    {
        proof {
            reveal(Turn::probe_sent);
        }
        self.core.set_probe_needed(false);
        effects.push(SessionEffect::RequestBufferSync(nonce));
        if self.core.input_boundary_fence() {
            self.core.set_fence_sync_nonce(Some(nonce));
            self.core.set_fenced_input_pending(false);
        }
    }
}

} // verus!
