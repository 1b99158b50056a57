//! What each action does to a session, as functions on values.
//!
//! A [`Turn`] is a session state with the effects requested so far; every
//! action leads from one turn to the next.

use vstd::prelude::*;
use vstd::utf8::*;

use crate::completion::{edited_line, valid_range, Suggestion};
use crate::coordinator::{CoordinatorView, MAX_QUERY_CWD_BYTES};
use crate::input::{InputAction, InputEventView, RouterView};
use crate::paths::same_path;
use crate::selection::{continues, lowercase_forms};
use crate::session::{
    forwarded, valid_buffer, EffectView, ReplacementKind, ReplacementView, SessionFault, SessionMode,
};
use crate::shell_events::{
    absolute_path, FrameView, ProbeRequestError, SessionStateView, UpdateView,
};

verus! {

/// Session state as a value.
pub struct ReducerView {
    /// Input router.
    pub router: RouterView,
    /// Shell lifecycle and editing-buffer authority.
    pub shell: SessionStateView,
    /// Completion queries and selection.
    pub completion: CoordinatorView,
    /// Working directory for new queries.
    pub cwd: Seq<u8>,
    /// Completion mode.
    pub mode: SessionMode,
    /// Requested replacement that no snapshot has confirmed.
    pub pending: Option<(ReplacementView, ReplacementKind)>,
    /// Buffer from before history was browsed.
    pub origin: Option<ReplacementView>,
    /// Whether the shell shows a previewed history entry.
    pub preview_active: bool,
    /// Whether the next ranking previews its selected history entry.
    pub recall_when_ready: bool,
    /// Whether the next query follows a typed space.
    pub alias_pending: bool,
    /// Whether a paste is going on.
    pub paste_active: bool,
    /// Whether a snapshot has to be asked for.
    pub probe_needed: bool,
    /// Whether a forwarded Enter or Ctrl+C fences later input.
    pub fence: bool,
    /// Forwarded boundaries whose prompts are still to come.
    pub queued_boundaries: u64,
    /// Whether input was forwarded behind the last boundary.
    pub fenced_input: bool,
    /// Whether a prompt was seen behind the fence.
    pub prompt_observed: bool,
    /// Probe whose response lifts the fence.
    pub fence_nonce: Option<u64>,
    /// Whether a query waits until it is safe to start.
    pub restart_deferred: bool,
}

impl ReducerView {
    /// Well-formed parts and a usable working directory.
    pub open spec fn inv(self) -> bool {
        &&& self.router.inv()
        &&& self.completion.inv()
        &&& absolute_path(self.cwd)
        &&& self.cwd.len() <= MAX_QUERY_CWD_BYTES
    }

    /// Whether the buffer is known and local actions may change it.
    #[verifier::opaque]
    pub open spec fn safe(self) -> bool {
        &&& self.shell.suggests()
        &&& self.pending is None
        &&& !self.paste_active
        &&& !self.router.paste
        &&& !self.fence
    }

    /// Whether a requested history preview may still be taken back.
    #[verifier::opaque]
    pub open spec fn can_restore_history(self) -> bool {
        &&& self.mode is History
        &&& self.origin is Some
        &&& self.shell.foreground is Idle
        &&& self.pending matches Some((_, kind)) && kind is HistoryPreview
    }

    /// State after everything known of browsed history is forgotten.
    pub open spec fn without_history(self) -> Self {
        ReducerView { origin: None, preview_active: false, recall_when_ready: false, ..self }
    }

    /// Shell buffer as text with its cursor.
    #[verifier::opaque]
    pub open spec fn buffer_text(self) -> Option<ReplacementView> {
        match self.shell.buffer {
            Some(snapshot) => Some(
                ReplacementView { text: decode_utf8(snapshot.bytes), cursor: snapshot.cursor },
            ),
            None => None,
        }
    }

    /// Shell buffer, where it is small enough to be put back.
    #[verifier::opaque]
    pub open spec fn authoritative(self) -> Option<ReplacementView> {
        match self.buffer_text() {
            Some(replacement) => if valid_buffer(replacement.text, replacement.cursor) {
                Some(replacement)
            } else {
                None
            },
            None => None,
        }
    }

    /// Text that a query asks about: the buffer, or, while a history entry is
    /// previewed, the buffer from before.
    #[verifier::opaque]
    pub open spec fn query_text(self) -> Option<ReplacementView> {
        if self.mode is History && self.preview_active && self.origin is Some {
            self.origin
        } else {
            self.buffer_text()
        }
    }

    /// Selected candidate.
    pub open spec fn selected(self) -> Option<Suggestion> {
        self.completion.selection.selected_candidate()
    }

    /// Buffer that accepting the selected candidate gives.
    #[verifier::opaque]
    pub open spec fn selected_replacement(self) -> Option<ReplacementView> {
        match (self.completion.active, self.selected()) {
            (Some(query), Some(candidate)) => match candidate.accepted_line(query.line) {
                Some(text) => {
                    let cursor = candidate.edit.range.start + encode_utf8(candidate.inserted()).len();
                    if valid_buffer(text, cursor) {
                        Some(ReplacementView { text, cursor })
                    } else {
                        None
                    }
                },
                None => None,
            },
            _ => None,
        }
    }

    /// Whether the user moved the selection to a suggestion that shows and that
    /// may be accepted now.
    #[verifier::opaque]
    pub open spec fn deliberately_selected(self) -> bool {
        &&& self.safe()
        &&& self.completion.selection.visible()
        &&& self.completion.selection.navigated
        &&& self.selected_replacement() is Some
    }

    /// Buffer that accepting the ghost text gives: the line as typed, with what
    /// the selected candidate adds behind it.
    #[verifier::opaque]
    pub open spec fn ghost_replacement(self) -> Option<ReplacementView> {
        match (self.completion.active, self.selected()) {
            (Some(query), Some(candidate)) => if query.cursor != encode_utf8(query.line).len() {
                None
            } else {
                match candidate.accepted_line(query.line) {
                    Some(result) => if continues(lowercase_forms(query.line), lowercase_forms(result)) {
                        let text = query.line + result.subrange(
                            query.line.len() as int,
                            result.len() as int,
                        );
                        let cursor = encode_utf8(text).len() as int;
                        if valid_buffer(text, cursor) {
                            Some(ReplacementView { text, cursor })
                        } else {
                            None
                        }
                    } else {
                        None
                    },
                    None => None,
                }
            },
            _ => None,
        }
    }

    /// Buffer that an alias edit of the active query gives.
    #[verifier::opaque]
    pub open spec fn alias_replacement(
        self,
        generation: u64,
        start: int,
        end: int,
        replacement: Seq<char>,
    ) -> Option<ReplacementView> {
        match self.completion.active {
            Some(query) => if query.generation != generation || end > query.cursor || !valid_range(
                query.line,
                start,
                end,
            ) {
                None
            } else {
                let text = edited_line(query.line, start, end, replacement);
                let cursor = query.cursor - (end - start) + encode_utf8(replacement).len();
                if valid_buffer(text, cursor) {
                    Some(ReplacementView { text, cursor })
                } else {
                    None
                }
            },
            None => None,
        }
    }

    /// Whether the shell buffer is exactly the requested one.
    pub open spec fn confirms(self, replacement: ReplacementView) -> bool {
        self.shell.buffer matches Some(snapshot) && snapshot.bytes == encode_utf8(replacement.text)
            && snapshot.cursor == replacement.cursor
    }

    /// State after an authoritative report confirmed or refuted the request.
    #[verifier::opaque]
    pub open spec fn settled(self) -> Self {
        match self.pending {
            None => self,
            Some((replacement, kind)) => {
                let taken = ReducerView { pending: None, ..self };
                if kind is HistoryPreview {
                    ReducerView {
                        preview_active: self.confirms(replacement),
                        origin: if self.confirms(replacement) {
                            self.origin
                        } else {
                            None
                        },
                        ..taken
                    }
                } else {
                    taken
                }
            },
        }
    }

    /// State with the query withdrawn and the suggestions hidden.
    pub open spec fn with_completion_dismissed(self) -> Self {
        let withdrawn = self.completion.cancelled();
        ReducerView {
            completion: withdrawn.with_selection(withdrawn.selection.dismissed()),
            ..self
        }
    }

    /// State with the fence lifted.
    pub open spec fn unfenced(self) -> Self {
        ReducerView {
            fence: false,
            queued_boundaries: 0,
            fenced_input: false,
            prompt_observed: false,
            fence_nonce: None,
            probe_needed: false,
            ..self
        }
    }
}

/// Keys that a session may handle without the shell.
pub open spec fn may_act(action: InputAction) -> bool {
    action is Tab || action is ArrowUp || action is ArrowDown || action is ArrowRight || action
        is ToggleMode || action is ToggleMenu
}

/// A session state with the effects requested so far.
pub struct Turn {
    pub state: ReducerView,
    pub effects: Seq<EffectView>,
}

/// Turn that has requested nothing yet.
pub open spec fn turn_of(state: ReducerView) -> Turn {
    Turn { state, effects: Seq::empty() }
}

impl Turn {
    /// Requests one more effect.
    pub open spec fn emit(self, effect: EffectView) -> Self {
        Turn { effects: self.effects.push(effect), ..self }
    }

    /// Moves to another state.
    pub open spec fn to(self, state: ReducerView) -> Self {
        Turn { state, ..self }
    }

    /// Withdraws the query and hides and clears the suggestions.
    #[verifier::opaque]
    pub open spec fn clear_completion(self) -> Self {
        let state = self.state.with_completion_dismissed();
        self.to(ReducerView { alias_pending: false, ..state }).emit(EffectView::ClearOverlay)
    }

    /// Redraws the suggestions, or clears them where they must not show.
    #[verifier::opaque]
    pub open spec fn refresh_or_clear(self) -> Self {
        if self.state.safe() && self.state.completion.selection.visible() {
            self.emit(EffectView::RefreshOverlay)
        } else {
            self.emit(EffectView::ClearOverlay)
        }
    }

    /// Asks the providers about this text.
    #[verifier::opaque]
    pub open spec fn ask(self, asked: ReplacementView, alias_expansion: bool) -> Self {
        let state = self.state;
        match state.completion.start_error(asked.text, asked.cursor, state.cwd) {
            Some(error) => self.emit(EffectView::Fault(SessionFault::QueryStart(error))),
            None => self.to(
                ReducerView {
                    completion: state.completion.after_start(asked.text, asked.cursor, state.cwd),
                    ..state
                },
            ).emit(
                EffectView::StartQuery {
                    mode: state.mode,
                    alias_expansion,
                    query: state.completion.started_query(asked.text, asked.cursor, state.cwd),
                },
            ),
        }
    }

    /// Asks the providers about the authoritative text.
    #[verifier::opaque]
    pub open spec fn start_query(self) -> Self {
        let state = ReducerView {
            restart_deferred: false,
            alias_pending: false,
            completion: self.state.completion.cancelled(),
            ..self.state
        };
        match state.query_text() {
            None => self.to(state),
            Some(asked) => if state.mode is Spec && asked.text.len() == 0 {
                self.to(state).emit(EffectView::ClearOverlay)
            } else {
                self.to(state).ask(asked, self.state.alias_pending)
            },
        }
    }

    /// Starts a waiting query, where that is safe now.
    #[verifier::opaque]
    pub open spec fn restart_if_safe(self) -> Self {
        if self.state.restart_deferred && self.state.safe() {
            self.start_query()
        } else {
            self
        }
    }

    /// Asks for a query in place of the one that became void, now or later.
    #[verifier::opaque]
    pub open spec fn restart_or_defer(self) -> Self {
        let cleared = self.clear_completion();
        if cleared.state.safe() {
            cleared.start_query()
        } else {
            cleared.to(ReducerView { restart_deferred: true, ..cleared.state })
        }
    }

    /// Whether a snapshot may be asked for now.
    pub open spec fn may_probe(self, require_complete_input: bool) -> bool {
        &&& self.state.probe_needed
        &&& !self.state.paste_active
        &&& !self.state.router.paste
        &&& !(require_complete_input && self.state.router.pending.len() != 0)
        &&& self.state.shell.capability is Probe
        &&& !(self.state.fence && !self.state.prompt_observed)
        &&& self.state.queued_boundaries == 0
    }

    /// Notes that a snapshot was asked for under this nonce.
    #[verifier::opaque]
    pub open spec fn probe_sent(self, nonce: u64) -> Self {
        self.to(
            ReducerView {
                probe_needed: false,
                fence_nonce: if self.state.fence {
                    Some(nonce)
                } else {
                    self.state.fence_nonce
                },
                fenced_input: self.state.fenced_input && !self.state.fence,
                ..self.state
            },
        ).emit(EffectView::RequestBufferSync(nonce))
    }

    /// Notes that no snapshot can be asked for.
    #[verifier::opaque]
    pub open spec fn probe_refused(self, error: ProbeRequestError) -> Self {
        if error is AlreadyPending || error is NotAtEditablePrompt {
            self
        } else {
            self.to(ReducerView { probe_needed: false, ..self.state }).emit(
                EffectView::Fault(SessionFault::Probe(error)),
            )
        }
    }

    /// Asks for a snapshot, where one is needed and may be asked for.
    #[verifier::opaque]
    pub open spec fn issue_probe(self, require_complete_input: bool) -> Self {
        if !self.may_probe(require_complete_input) {
            self
        } else {
            let probed = self.to(
                ReducerView { shell: self.state.shell.after_probe(), ..self.state },
            );
            match self.state.shell.probe_refusal() {
                None => probed.probe_sent((self.state.shell.last_nonce->0 + 1) as u64),
                Some(error) => probed.probe_refused(error),
            }
        }
    }

    /// Notes that a replacement was requested together with a snapshot.
    #[verifier::opaque]
    pub open spec fn pair_sent(self, replacement: ReplacementView, kind: ReplacementKind, nonce: u64) -> Self {
        let requested = ReducerView {
            probe_needed: false,
            pending: Some((replacement, kind)),
            ..self.state
        };
        self.to(
            if kind is HistoryPreview || kind is HistoryRestore {
                requested
            } else {
                requested.without_history()
            },
        ).emit(EffectView::ClearOverlay).emit(EffectView::ReplaceBuffer(replacement)).emit(
            EffectView::RequestBufferSync(nonce),
        )
    }

    /// Notes that a replacement cannot be requested.
    #[verifier::opaque]
    pub open spec fn pair_refused(self, error: ProbeRequestError) -> Self {
        self.emit(EffectView::ClearOverlay).probe_refused(error)
    }

    /// Requests a replacement together with the snapshot that will confirm it.
    #[verifier::opaque]
    pub open spec fn request_pair(self, replacement: ReplacementView, kind: ReplacementKind) -> (Self, bool) {
        if !(self.state.shell.capability is Probe) {
            (self.emit(EffectView::ClearOverlay), false)
        } else {
            let probed = self.to(
                ReducerView { shell: self.state.shell.after_probe(), ..self.state },
            );
            match self.state.shell.probe_refusal() {
                Some(error) => (probed.pair_refused(error), false),
                None => (
                    probed.pair_sent(
                        replacement,
                        kind,
                        (self.state.shell.last_nonce->0 + 1) as u64,
                    ),
                    true,
                ),
            }
        }
    }

    /// Requests a replacement of the buffer together with the snapshot that
    /// will confirm it, or requests neither. Says whether it did.
    #[verifier::opaque]
    pub open spec fn begin_replacement(self, replacement: ReplacementView, kind: ReplacementKind) -> (
        Self,
        bool,
    ) {
        let touched = ReducerView { shell: self.state.shell.after_input(), ..self.state };
        if self.state.shell.input_generation.sequence == u64::MAX {
            (
                self.to(touched).clear_completion().emit(
                    EffectView::Fault(SessionFault::InputGenerationExhausted),
                ),
                false,
            )
        } else {
            self.to(
                ReducerView { probe_needed: true, ..touched.with_completion_dismissed() },
            ).request_pair(replacement, kind)
        }
    }

    /// Replaces the buffer by accepting the selected candidate.
    #[verifier::opaque]
    pub open spec fn replace_with_selected(self, kind: ReplacementKind) -> (Self, bool) {
        match self.state.selected_replacement() {
            Some(replacement) => self.begin_replacement(replacement, kind),
            None => (self, false),
        }
    }

    /// Previews the selected candidate, where it comes from history.
    #[verifier::opaque]
    pub open spec fn preview_selected(self) -> (Self, bool) {
        let from_history = match self.state.selected() {
            Some(candidate) => candidate.source is History,
            None => false,
        };
        if !(self.state.mode is History) || !from_history {
            (self, false)
        } else {
            self.to(
                ReducerView {
                    origin: if self.state.origin is None {
                        self.state.authoritative()
                    } else {
                        self.state.origin
                    },
                    ..self.state
                },
            ).replace_with_selected(ReplacementKind::HistoryPreview)
        }
    }

    /// Tab: accepts the selected candidate, or shows hidden ones.
    #[verifier::opaque]
    pub open spec fn tab(self) -> (Self, bool) {
        let selection = self.state.completion.selection;
        if !self.state.safe() || !selection.layer_enabled {
            (self, false)
        } else if selection.visible() {
            self.replace_with_selected(ReplacementKind::Acceptance)
        } else if selection.candidates.len() == 0 {
            (self, false)
        } else {
            (
                self.to(
                    ReducerView {
                        completion: self.state.completion.with_selection(selection.revealed()),
                        ..self.state
                    },
                ).emit(EffectView::RefreshOverlay),
                true,
            )
        }
    }

    /// Enter or Ctrl+C: fences what follows until the shell reports again.
    #[verifier::opaque]
    pub open spec fn boundary(self) -> Self {
        let state = self.state.with_completion_dismissed().without_history();
        self.to(
            ReducerView {
                pending: None,
                fence: true,
                queued_boundaries: 1,
                fenced_input: false,
                prompt_observed: false,
                fence_nonce: None,
                ..state
            },
        ).emit(EffectView::ClearOverlay)
    }

    /// Enter: accepts a suggestion that the user selected deliberately, and
    /// fences what follows in any case.
    #[verifier::opaque]
    pub open spec fn enter(self) -> Self {
        if self.state.deliberately_selected() {
            self.replace_with_selected(ReplacementKind::Acceptance).0.boundary()
        } else {
            self.boundary()
        }
    }

    /// Leaves history and puts the buffer from before back.
    #[verifier::opaque]
    pub open spec fn leave_preview(self) -> Self {
        let cleared = self.clear_completion();
        let left = cleared.to(
            ReducerView { mode: SessionMode::Spec, ..cleared.state.without_history() },
        ).emit(EffectView::ModeChanged(SessionMode::Spec));
        match cleared.state.origin {
            Some(origin) => left.begin_replacement(origin, ReplacementKind::HistoryRestore).0,
            None => left,
        }
    }

    /// Hides the suggestions until the buffer changes.
    #[verifier::opaque]
    pub open spec fn dismiss(self) -> Self {
        let completion = self.state.completion;
        self.to(
            ReducerView {
                completion: completion.with_selection(completion.selection.dismissed()),
                ..self.state
            },
        ).emit(EffectView::ClearOverlay)
    }

    /// Escape: leaves a previewed history entry, or hides the suggestions.
    #[verifier::opaque]
    pub open spec fn escape(self) -> Self {
        if self.state.mode is History && self.state.preview_active && self.state.safe() {
            self.leave_preview()
        } else {
            self.dismiss()
        }
    }

    /// Arrow up on an empty prompt: recalls history.
    #[verifier::opaque]
    pub open spec fn recall_history(self) -> (Self, bool) {
        match self.state.authoritative() {
            None => (self, false),
            Some(origin) => (self.clear_completion().enter_history(origin, true), true),
        }
    }

    /// Moves the selection by one row.
    #[verifier::opaque]
    pub open spec fn move_selection(self, down: bool) -> Self {
        let selection = self.state.completion.selection;
        self.to(
            ReducerView {
                completion: self.state.completion.with_selection(
                    if down {
                        selection.moved_down()
                    } else {
                        selection.moved_up()
                    },
                ),
                ..self.state
            },
        )
    }

    /// Shows the moved selection: as a preview in history, else in the menu.
    #[verifier::opaque]
    pub open spec fn show_moved(self) -> Self {
        if self.state.mode is History {
            let (previewed, done) = self.preview_selected();
            if done {
                previewed
            } else {
                previewed.emit(EffectView::RefreshOverlay)
            }
        } else {
            self.emit(EffectView::RefreshOverlay)
        }
    }

    /// Arrow up or down: moves the selection, or recalls history.
    #[verifier::opaque]
    pub open spec fn vertical(self, down: bool) -> (Self, bool) {
        if !self.state.safe() {
            (self, false)
        } else if !self.state.completion.selection.visible() {
            if self.state.shell.buffer matches Some(snapshot) && snapshot.bytes.len() == 0 {
                self.recall_history()
            } else {
                (self, false)
            }
        } else {
            (self.move_selection(down).show_moved(), true)
        }
    }

    /// Arrow right: accepts the ghost text.
    #[verifier::opaque]
    pub open spec fn accept_ghost(self) -> (Self, bool) {
        if !self.state.safe() || !self.state.completion.selection.visible() {
            (self, false)
        } else {
            match self.state.ghost_replacement() {
                Some(replacement) => self.begin_replacement(replacement, ReplacementKind::GhostText),
                None => (self, false),
            }
        }
    }

    /// Enters history and asks about the buffer.
    #[verifier::opaque]
    pub open spec fn enter_history(self, origin: ReplacementView, recall: bool) -> Self {
        self.to(
            ReducerView {
                mode: SessionMode::History,
                origin: Some(origin),
                preview_active: false,
                recall_when_ready: recall,
                ..self.state
            },
        ).emit(EffectView::ModeChanged(SessionMode::History)).start_query()
    }

    /// Leaves history; a previewed entry gives way to the buffer from before.
    #[verifier::opaque]
    pub open spec fn leave_history(self) -> (Self, bool) {
        let previewing = self.state.pending matches Some((_, kind)) && kind is HistoryPreview;
        let left = self.to(
            ReducerView { mode: SessionMode::Spec, ..self.state.without_history() },
        ).emit(EffectView::ModeChanged(SessionMode::Spec));
        if self.state.preview_active || previewing {
            match self.state.origin {
                Some(origin) => left.begin_replacement(origin, ReplacementKind::HistoryRestore),
                None => (left, true),
            }
        } else {
            (left.start_query(), true)
        }
    }

    /// Mode binding: enters history, or leaves it and puts the buffer back.
    #[verifier::opaque]
    pub open spec fn toggle_mode(self) -> (Self, bool) {
        if !self.state.safe() && !self.state.can_restore_history() {
            (self, false)
        } else {
            let cleared = self.clear_completion();
            match cleared.state.mode {
                SessionMode::Spec => match cleared.state.authoritative() {
                    None => (cleared, false),
                    Some(origin) => (cleared.enter_history(origin, false), true),
                },
                SessionMode::History => cleared.leave_history(),
            }
        }
    }

    /// Menu binding: switches the suggestion layer.
    #[verifier::opaque]
    pub open spec fn toggle_menu(self) -> (Self, bool) {
        if !self.state.safe() {
            (self, false)
        } else {
            let completion = self.state.completion;
            (
                self.to(
                    ReducerView {
                        completion: completion.with_selection(completion.selection.toggled()),
                        ..self.state
                    },
                ).refresh_or_clear(),
                true,
            )
        }
    }

    /// A key that may be handled here: the rest of its meaning, and whether
    /// the shell must not see it.
    #[verifier::opaque]
    pub open spec fn act(self, action: InputAction) -> (Self, bool) {
        match action {
            InputAction::Tab => self.tab(),
            InputAction::ArrowUp => self.vertical(false),
            InputAction::ArrowDown => self.vertical(true),
            InputAction::ArrowRight => self.accept_ghost(),
            InputAction::ToggleMode => self.toggle_mode(),
            InputAction::ToggleMenu => self.toggle_menu(),
            _ => (self, false),
        }
    }

    /// A key that always goes to the shell, before it does.
    #[verifier::opaque]
    pub open spec fn prepare(self, action: InputAction) -> Self {
        match action {
            InputAction::Enter => self.enter(),
            InputAction::CtrlC => self.boundary(),
            InputAction::Escape => self.escape(),
            InputAction::CtrlU => self.clear_completion(),
            InputAction::PasteStart => self.to(
                ReducerView { paste_active: true, ..self.state },
            ).clear_completion(),
            InputAction::PasteEnd => self.to(ReducerView { paste_active: false, ..self.state }),
            InputAction::Desynchronize => self.drop_history(),
            _ => self,
        }
    }

    /// What a key does here, and whether the shell must not see it.
    #[verifier::opaque]
    pub open spec fn handle(self, action: InputAction) -> (Self, bool) {
        if self.state.fence {
            (self, false)
        } else if may_act(action) {
            self.act(action)
        } else {
            (self.prepare(action), false)
        }
    }

    /// Outdates every snapshot that is on its way.
    #[verifier::opaque]
    pub open spec fn touch(self) -> Self {
        let touched = self.to(
            ReducerView { shell: self.state.shell.after_input(), ..self.state },
        );
        if self.state.shell.input_generation.sequence == u64::MAX {
            touched.emit(EffectView::Fault(SessionFault::InputGenerationExhausted))
        } else {
            touched
        }
    }

    /// Input that edits the buffer goes to the shell.
    #[verifier::opaque]
    pub open spec fn observe_edit(self, typed_space: bool) -> Self {
        let cleared = self.touch().clear_completion();
        cleared.to(
            ReducerView {
                alias_pending: typed_space,
                pending: None,
                probe_needed: true,
                ..cleared.state.without_history()
            },
        )
    }

    /// Input behind the fence outdates the probe that would have lifted it.
    #[verifier::opaque]
    pub open spec fn outdate_fence_probe(self) -> Self {
        if self.state.fence_nonce is Some {
            let touched = self.touch();
            touched.to(ReducerView { fence_nonce: None, probe_needed: true, ..touched.state })
        } else {
            self
        }
    }

    /// Counts one more boundary behind the fence.
    #[verifier::opaque]
    pub open spec fn count_boundary(self) -> Self {
        if self.state.queued_boundaries == u64::MAX {
            self.to(ReducerView { fenced_input: true, ..self.state }).emit(
                EffectView::Fault(SessionFault::InputBoundaryExhausted),
            )
        } else {
            self.to(
                ReducerView {
                    queued_boundaries: (self.state.queued_boundaries + 1) as u64,
                    fenced_input: false,
                    ..self.state
                },
            )
        }
    }

    /// Input goes to the shell behind a fence.
    #[verifier::opaque]
    pub open spec fn note_fenced(self, action: InputAction) -> Self {
        let boundary = action is Enter || action is CtrlC;
        if boundary && self.state.shell.foreground is Running {
            self
        } else if boundary {
            self.outdate_fence_probe().count_boundary()
        } else {
            let noted = self.outdate_fence_probe();
            noted.to(ReducerView { fenced_input: true, ..noted.state })
        }
    }

    /// Lifts the fence and asks about the authoritative text.
    #[verifier::opaque]
    pub open spec fn release(self) -> Self {
        self.to(self.state.unfenced()).start_query()
    }

    /// Whether a local key may lift the fence: a prompt was seen, nothing was
    /// typed behind it, and boundaries that no command start confirmed remain.
    pub open spec fn may_collapse_boundaries(self, action: Option<InputAction>) -> bool {
        &&& action matches Some(key) && (key is ToggleMode || key is ToggleMenu)
        &&& self.state.fence
        &&& self.state.prompt_observed
        &&& self.state.queued_boundaries != 0
        &&& !self.state.fenced_input
        &&& self.state.fence_nonce is None
        &&& self.state.shell.suggests()
    }

    /// Lifts the fence for a local key, where it may.
    #[verifier::opaque]
    pub open spec fn collapse_boundaries(self, action: Option<InputAction>) -> Self {
        if self.may_collapse_boundaries(action) {
            self.release()
        } else {
            self
        }
    }

    /// Notes input that goes to the shell.
    #[verifier::opaque]
    pub open spec fn note_forward(
        self,
        action: InputAction,
        fenced: bool,
        restoring: bool,
        typed_space: bool,
    ) -> Self {
        if fenced {
            self.note_fenced(action)
        } else if action is Enter || action is CtrlC || restoring || action is PasteStart
            || action is PasteEnd {
            self
        } else {
            self.observe_edit(typed_space)
        }
    }

    /// Whether an Escape that leaves a preview is being forwarded.
    pub open spec fn restores_before(self, action: Option<InputAction>) -> bool {
        action == Some(InputAction::Escape) && (self.state.pending matches Some((_, kind))
            && kind is HistoryRestore)
    }

    /// Effect of one key.
    #[verifier::opaque]
    pub open spec fn key(self, event: InputEventView) -> Self {
        let start = self.collapse_boundaries(event.action);
        let typed_space = event.action == Some(InputAction::Printable(' ')) && start.state.safe();
        let (acted, handled) = match event.action {
            Some(action) => start.handle(action),
            None => (start, false),
        };
        if (event.forwarding is OnFallback && handled) || event.bytes.len() == 0 {
            acted
        } else {
            let noted = acted.note_forward(
                match event.action {
                    Some(action) => action,
                    None => InputAction::Desynchronize,
                },
                start.state.fence,
                acted.restores_before(event.action),
                typed_space,
            );
            Turn { effects: forwarded(noted.effects, event.bytes), ..noted }
        }
    }

    /// Effect of a run of keys.
    pub open spec fn keys(self, events: Seq<InputEventView>) -> Self
        decreases events.len(),
    {
        if events.len() == 0 {
            self
        } else {
            self.keys(events.drop_last()).key(events.last())
        }
    }

    /// Effect of one routing call.
    #[verifier::opaque]
    pub open spec fn input(self, events: Seq<InputEventView>) -> Self {
        self.keys(events).restart_if_safe().issue_probe(true)
    }

    /// A prompt arrived behind the fence; says whether boundaries remain.
    #[verifier::opaque]
    pub open spec fn consume_boundary(self) -> (Self, bool) {
        if self.state.queued_boundaries == 0 {
            (self, false)
        } else {
            let remaining = (self.state.queued_boundaries - 1) as u64;
            let counted = self.to(
                ReducerView {
                    queued_boundaries: remaining,
                    prompt_observed: remaining != 0,
                    fence_nonce: None,
                    ..self.state
                },
            );
            if remaining == 0 {
                (counted, false)
            } else {
                (
                    counted.to(ReducerView { probe_needed: false, ..counted.state }).clear_completion(),
                    true,
                )
            }
        }
    }

    /// Clears the suggestions and asks for a snapshot.
    #[verifier::opaque]
    pub open spec fn resynchronize(self) -> Self {
        let cleared = self.clear_completion();
        cleared.to(ReducerView { probe_needed: true, ..cleared.state }).issue_probe(false)
    }

    /// Asks for the snapshot that will lift the fence.
    #[verifier::opaque]
    pub open spec fn fence_probe(self) -> Self {
        let cleared = self.clear_completion();
        let touched = cleared.to(
            ReducerView {
                fenced_input: false,
                shell: cleared.state.shell.after_input(),
                ..cleared.state
            },
        );
        if cleared.state.shell.input_generation.sequence == u64::MAX {
            touched.emit(EffectView::Fault(SessionFault::InputGenerationExhausted))
        } else {
            touched.to(ReducerView { probe_needed: true, ..touched.state }).issue_probe(false)
        }
    }

    /// A report became authoritative and nothing fences it.
    #[verifier::opaque]
    pub open spec fn open_authority(self, prompt: bool) -> Self {
        let settled = ReducerView { probe_needed: false, ..self.state }.settled();
        self.to(
            if prompt {
                settled.without_history()
            } else {
                settled
            },
        ).start_query()
    }

    /// The last awaited prompt arrived behind the fence, and is trusted.
    #[verifier::opaque]
    pub open spec fn last_prompt(self) -> Self {
        let observed = self.to(ReducerView { prompt_observed: true, ..self.state });
        if observed.state.fenced_input {
            observed.fence_probe()
        } else {
            observed.release()
        }
    }

    /// A trusted prompt arrived behind the fence.
    #[verifier::opaque]
    pub open spec fn fenced_prompt(self) -> Self {
        let (consumed, more) = self.to(
            ReducerView { pending: None, fence_nonce: None, ..self.state },
        ).consume_boundary();
        if more {
            consumed
        } else {
            consumed.last_prompt()
        }
    }

    /// A snapshot arrived behind the fence.
    #[verifier::opaque]
    pub open spec fn fenced_snapshot(self) -> Self {
        let taken = self.to(ReducerView { pending: None, ..self.state });
        let received = match self.state.shell.buffer {
            Some(snapshot) => snapshot.nonce,
            None => None,
        };
        let causally_new = self.state.fence_nonce is Some && received == self.state.fence_nonce;
        if causally_new && !taken.state.fenced_input {
            taken.release()
        } else if taken.state.prompt_observed {
            taken.resynchronize()
        } else {
            taken.clear_completion()
        }
    }

    /// A snapshot or a prompt became authoritative.
    #[verifier::opaque]
    pub open spec fn authority(self, prompt: bool) -> Self {
        if !self.state.fence {
            self.open_authority(prompt)
        } else if prompt {
            self.fenced_prompt()
        } else {
            self.fenced_snapshot()
        }
    }

    /// The last awaited prompt arrived behind the fence, but is not trusted.
    #[verifier::opaque]
    pub open spec fn last_suppressed_prompt(self) -> Self {
        let observed = self.to(ReducerView { prompt_observed: true, ..self.state });
        if observed.state.fenced_input {
            observed.fence_probe()
        } else {
            observed.resynchronize()
        }
    }

    /// A prompt was reported while unanswered input made it unreliable.
    #[verifier::opaque]
    pub open spec fn suppressed_prompt(self) -> Self {
        let (consumed, more) = self.to(
            ReducerView { fence_nonce: None, ..self.state },
        ).consume_boundary();
        if more {
            consumed
        } else {
            consumed.last_suppressed_prompt()
        }
    }

    /// The working directory of the shell changed; another spelling of the same
    /// path is no change.
    #[verifier::opaque]
    pub open spec fn directory_changed(self, directory: Seq<u8>) -> Self {
        if same_path(self.state.cwd, directory) {
            self
        } else {
            let cleared = self.to(ReducerView { cwd: directory, ..self.state }).clear_completion();
            cleared.to(ReducerView { restart_deferred: true, ..cleared.state })
        }
    }

    /// Clears the suggestions and forgets browsed history.
    #[verifier::opaque]
    pub open spec fn drop_history(self) -> Self {
        let cleared = self.clear_completion();
        cleared.to(cleared.state.without_history())
    }

    /// Clears the suggestions and forgets browsed history and the request.
    #[verifier::opaque]
    pub open spec fn drop_editing(self) -> Self {
        let cleared = self.clear_completion();
        cleared.to(ReducerView { pending: None, ..cleared.state.without_history() })
    }

    /// A prompt was reported but not accepted.
    #[verifier::opaque]
    pub open spec fn suppressed(self, prompt_observed: bool) -> Self {
        if prompt_observed && self.state.fence {
            self.to(
                ReducerView { pending: None, ..self.state.without_history() },
            ).suppressed_prompt()
        } else {
            self.drop_editing()
        }
    }

    /// The shell state changed so that the fence has to be settled anew.
    #[verifier::opaque]
    pub open spec fn unsettled(self) -> Self {
        let dropped = self.drop_editing();
        dropped.to(
            ReducerView { prompt_observed: false, fence_nonce: None, ..dropped.state },
        )
    }

    /// What an update of the shell state leads to.
    #[verifier::opaque]
    pub open spec fn shell_update(self, update: UpdateView, prompt_observed: bool) -> Self {
        match update {
            UpdateView::BufferSynchronized { .. } => self.authority(false),
            UpdateView::PromptReady { .. } => self.authority(true),
            UpdateView::WorkingDirectoryChanged(directory) => self.directory_changed(directory),
            UpdateView::ReloadRequested(_) => self.drop_history(),
            UpdateView::SnapshotRejected(_) => self.drop_editing().issue_probe(false),
            UpdateView::LifecycleSuppressed => self.suppressed(prompt_observed),
            UpdateView::CommandStopped(_) => self.drop_editing(),
            UpdateView::CommandStoppedWithoutAttribution(_) => self.drop_editing(),
            UpdateView::CommandStarted { .. } => self.unsettled(),
            UpdateView::CapabilityChanged(_) => self.unsettled(),
            UpdateView::FrameRejected(_) => self.unsettled(),
            UpdateView::LifecycleRejected(_) => self.unsettled(),
            UpdateView::StreamOrderRejected { .. } => self.unsettled(),
        }
    }

    /// Effect of one decoded shell frame.
    #[verifier::opaque]
    pub open spec fn frame(self, frame: FrameView) -> Self {
        let (shell, update) = self.state.shell.after_frame(frame);
        self.to(ReducerView { shell, ..self.state }).shell_update(
            update,
            frame.content matches Ok(event) && event is PromptReady,
        )
    }

    /// Output of the shell may have moved the prompt.
    #[verifier::opaque]
    pub open spec fn shell_output(self) -> Self {
        let dropped = self.drop_history();
        dropped.to(ReducerView { probe_needed: true, ..dropped.state }).issue_probe(false)
    }

    /// Effect of a ranking that was presented.
    #[verifier::opaque]
    pub open spec fn presented(self) -> Self {
        if self.state.recall_when_ready {
            let (previewed, done) = self.to(
                ReducerView { recall_when_ready: false, ..self.state },
            ).preview_selected();
            if done {
                previewed
            } else {
                previewed.refresh_or_clear()
            }
        } else {
            self.refresh_or_clear()
        }
    }

    /// Effect of a ranking.
    #[verifier::opaque]
    pub open spec fn ranking(self, generation: u64, ranked: Seq<Suggestion>) -> Self {
        let (completion, outcome) = self.state.completion.after_ranking(generation, ranked);
        let applied = self.to(ReducerView { completion, ..self.state });
        if outcome is Applied {
            applied.presented().issue_probe(false)
        } else {
            applied.issue_probe(false)
        }
    }

    /// Effect of a validated alias edit.
    #[verifier::opaque]
    pub open spec fn alias(self, generation: u64, start: int, end: int, replacement: Seq<char>) -> Self {
        if !self.state.safe() {
            self
        } else {
            match self.state.alias_replacement(generation, start, end, replacement) {
                Some(wanted) => self.begin_replacement(wanted, ReplacementKind::AliasExpansion).0,
                None => self,
            }
        }
    }
}

} // verus!
