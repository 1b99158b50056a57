//! The state that one session reducer carries from call to call.
//!
//! Every accessor states its effect on the whole record, so that the reducer
//! reasons about one value and never about the fields behind it.

use vstd::prelude::*;

use crate::coordinator::CompletionCoordinator;
use crate::input::InputRouter;
use crate::session::{fresh_session, BufferReplacement, ReplacementKind, SessionMode};
use crate::session_model::ReducerView;
use crate::shell_events::{nonce_value, ShellSessionState, SnapshotNonce, StreamEpoch};

verus! {

/// A requested replacement that no snapshot has confirmed yet.
pub(crate) struct PendingReplacement {
    pub(crate) replacement: BufferReplacement,
    pub(crate) kind: ReplacementKind,
}

/// State of one session reducer.
pub struct SessionCore {
    input: InputRouter,
    shell: ShellSessionState,
    completion: CompletionCoordinator,
    cwd: Vec<u8>,
    mode: SessionMode,
    pending_replacement: Option<PendingReplacement>,
    history_origin: Option<BufferReplacement>,
    history_preview_active: bool,
    recall_history_when_ready: bool,
    alias_expansion_pending: bool,
    paste_active: bool,
    probe_needed: bool,
    input_boundary_fence: bool,
    queued_input_boundaries: u64,
    fenced_input_pending: bool,
    fence_prompt_observed: bool,
    fence_sync_nonce: Option<SnapshotNonce>,
    query_restart_deferred: bool,
}

impl View for SessionCore {
    type V = ReducerView;

    closed spec fn view(&self) -> ReducerView {
        ReducerView {
            router: self.input@,
            shell: self.shell@,
            completion: self.completion@,
            cwd: self.cwd@,
            mode: self.mode,
            pending: match self.pending_replacement {
                Some(pending) => Some((pending.replacement@, pending.kind)),
                None => None,
            },
            origin: match self.history_origin {
                Some(origin) => Some(origin@),
                None => None,
            },
            preview_active: self.history_preview_active,
            recall_when_ready: self.recall_history_when_ready,
            alias_pending: self.alias_expansion_pending,
            paste_active: self.paste_active,
            probe_needed: self.probe_needed,
            fence: self.input_boundary_fence,
            queued_boundaries: self.queued_input_boundaries,
            fenced_input: self.fenced_input_pending,
            prompt_observed: self.fence_prompt_observed,
            fence_nonce: nonce_value(self.fence_sync_nonce),
            restart_deferred: self.query_restart_deferred,
        }
    }
}

impl SessionCore {
    /// State before any input or shell event.
    pub(crate) fn fresh(
        input: InputRouter,
        epoch: StreamEpoch,
        completion: CompletionCoordinator,
        cwd: Vec<u8>,
        mode: SessionMode,
    ) -> (core: Self)
        ensures
            core@ == (ReducerView {
                router: input@,
                completion: completion@,
                ..fresh_session(
                    epoch@,
                    input@.toggle_mode,
                    input@.toggle_menu,
                    completion@.providers,
                    completion@.limit,
                    cwd@,
                    mode,
                )
            }),
    {
        SessionCore {
            input,
            shell: ShellSessionState::new(epoch),
            completion,
            cwd,
            mode,
            pending_replacement: None,
            history_origin: None,
            history_preview_active: false,
            recall_history_when_ready: false,
            alias_expansion_pending: false,
            paste_active: false,
            probe_needed: false,
            input_boundary_fence: false,
            queued_input_boundaries: 0,
            fenced_input_pending: false,
            fence_prompt_observed: false,
            fence_sync_nonce: None,
            query_restart_deferred: false,
        }
    }

    /// Input router.
    pub(crate) fn input(&self) -> (input: &InputRouter)
        ensures
            input@ == self@.router,
    {
        &self.input
    }

    /// Input router.
    pub(crate) fn input_mut(&mut self) -> (input: &mut InputRouter)
        ensures
            input@ == old(self)@.router,
            final(self)@ == (ReducerView { router: final(input)@, ..old(self)@ }),
    {
        &mut self.input
    }

    /// Shell lifecycle and editing-buffer authority.
    pub(crate) fn shell(&self) -> (shell: &ShellSessionState)
        ensures
            shell@ == self@.shell,
    {
        &self.shell
    }

    /// Shell lifecycle and editing-buffer authority.
    pub(crate) fn shell_mut(&mut self) -> (shell: &mut ShellSessionState)
        ensures
            shell@ == old(self)@.shell,
            final(self)@ == (ReducerView { shell: final(shell)@, ..old(self)@ }),
    {
        &mut self.shell
    }

    /// Completion queries and selection.
    pub(crate) fn completion(&self) -> (completion: &CompletionCoordinator)
        ensures
            completion@ == self@.completion,
    {
        &self.completion
    }

    /// Completion queries and selection.
    pub(crate) fn completion_mut(&mut self) -> (completion: &mut CompletionCoordinator)
        ensures
            completion@ == old(self)@.completion,
            final(self)@ == (ReducerView { completion: final(completion)@, ..old(self)@ }),
    {
        &mut self.completion
    }

    /// Working directory for new queries.
    pub(crate) fn cwd(&self) -> (cwd: &[u8])
        ensures
            cwd@ == self@.cwd,
    {
        self.cwd.as_slice()
    }

    /// Changes the working directory for new queries.
    pub(crate) fn set_cwd(&mut self, cwd: Vec<u8>)
        ensures
            final(self)@ == (ReducerView { cwd: cwd@, ..old(self)@ }),
    {
        self.cwd = cwd;
    }

    /// Requested replacement that no snapshot has confirmed.
    pub(crate) fn pending_replacement(&self) -> (pending: Option<&PendingReplacement>)
        ensures
            match pending {
                Some(p) => self@.pending == Some((p.replacement@, p.kind)),
                None => self@.pending is None,
            },
    {
        match &self.pending_replacement {
            Some(pending) => Some(pending),
            None => None,
        }
    }

    /// Notes a requested replacement.
    pub(crate) fn request_replacement(&mut self, replacement: BufferReplacement, kind: ReplacementKind)
        ensures
            final(self)@ == (ReducerView { pending: Some((replacement@, kind)), ..old(self)@ }),
    {
        self.pending_replacement = Some(PendingReplacement { replacement, kind });
    }

    /// Forgets the requested replacement.
    pub(crate) fn drop_replacement(&mut self)
        ensures
            final(self)@ == (ReducerView { pending: None, ..old(self)@ }),
    {
        self.pending_replacement = None;
    }

    /// Hands out the requested replacement and forgets it.
    pub(crate) fn take_replacement(&mut self) -> (pending: Option<PendingReplacement>)
        ensures
            match pending {
                Some(p) => old(self)@.pending == Some((p.replacement@, p.kind)),
                None => old(self)@.pending is None,
            },
            final(self)@ == (ReducerView { pending: None, ..old(self)@ }),
    {
        self.pending_replacement.take()
    }

    /// Buffer from before history was browsed.
    pub(crate) fn history_origin(&self) -> (origin: Option<&BufferReplacement>)
        ensures
            match origin {
                Some(buffer) => self@.origin == Some(buffer@),
                None => self@.origin is None,
            },
    {
        match &self.history_origin {
            Some(origin) => Some(origin),
            None => None,
        }
    }

    /// Changes the buffer from before history was browsed.
    pub(crate) fn set_history_origin(&mut self, origin: Option<BufferReplacement>)
        ensures
            final(self)@ == (ReducerView {
                origin: match origin {
                    Some(buffer) => Some(buffer@),
                    None => None,
                },
                ..old(self)@
            }),
    {
        self.history_origin = origin;
    }

    /// Hands out the buffer from before history was browsed and forgets it.
    pub(crate) fn take_history_origin(&mut self) -> (origin: Option<BufferReplacement>)
        ensures
            match origin {
                Some(buffer) => old(self)@.origin == Some(buffer@),
                None => old(self)@.origin is None,
            },
            final(self)@ == (ReducerView { origin: None, ..old(self)@ }),
    {
        self.history_origin.take()
    }

    /// Probe whose response lifts the fence.
    pub(crate) fn fence_sync_nonce(&self) -> (nonce: Option<SnapshotNonce>)
        ensures
            nonce_value(nonce) == self@.fence_nonce,
    {
        self.fence_sync_nonce
    }

    /// Changes the probe whose response lifts the fence.
    pub(crate) fn set_fence_sync_nonce(&mut self, nonce: Option<SnapshotNonce>)
        ensures
            final(self)@ == (ReducerView { fence_nonce: nonce_value(nonce), ..old(self)@ }),
    {
        self.fence_sync_nonce = nonce;
    }

    /// Forwarded boundaries whose prompts are still to come.
    pub(crate) fn queued_input_boundaries(&self) -> (boundaries: u64)
        ensures
            boundaries == self@.queued_boundaries,
    {
        self.queued_input_boundaries
    }

    /// Changes the number of boundaries whose prompts are still to come.
    pub(crate) fn set_queued_input_boundaries(&mut self, boundaries: u64)
        ensures
            final(self)@ == (ReducerView { queued_boundaries: boundaries, ..old(self)@ }),
    {
        self.queued_input_boundaries = boundaries;
    }

    /// Completion mode.
    pub(crate) fn mode(&self) -> (mode: SessionMode)
        ensures
            mode == self@.mode,
    {
        self.mode
    }

    /// Changes the completion mode.
    pub(crate) fn set_mode(&mut self, mode: SessionMode)
        ensures
            final(self)@ == (ReducerView { mode, ..old(self)@ }),
    {
        self.mode = mode;
    }

    /// Whether the shell shows a previewed history entry.
    pub(crate) fn history_preview_active(&self) -> (value: bool)
        ensures
            value == self@.preview_active,
    {
        self.history_preview_active
    }

    /// Notes whether the shell shows a previewed history entry.
    pub(crate) fn set_history_preview_active(&mut self, value: bool)
        ensures
            final(self)@ == (ReducerView { preview_active: value, ..old(self)@ }),
    {
        self.history_preview_active = value;
    }

    /// Whether the next ranking previews its selected history entry.
    pub(crate) fn recall_history_when_ready(&self) -> (value: bool)
        ensures
            value == self@.recall_when_ready,
    {
        self.recall_history_when_ready
    }

    /// Notes whether the next ranking previews its selected history entry.
    pub(crate) fn set_recall_history_when_ready(&mut self, value: bool)
        ensures
            final(self)@ == (ReducerView { recall_when_ready: value, ..old(self)@ }),
    {
        self.recall_history_when_ready = value;
    }

    /// Whether the next query follows a typed space.
    pub(crate) fn alias_expansion_pending(&self) -> (value: bool)
        ensures
            value == self@.alias_pending,
    {
        self.alias_expansion_pending
    }

    /// Notes whether the next query follows a typed space.
    pub(crate) fn set_alias_expansion_pending(&mut self, value: bool)
        ensures
            final(self)@ == (ReducerView { alias_pending: value, ..old(self)@ }),
    {
        self.alias_expansion_pending = value;
    }

    /// Whether a paste is going on.
    pub(crate) fn paste_active(&self) -> (value: bool)
        ensures
            value == self@.paste_active,
    {
        self.paste_active
    }

    /// Notes whether a paste is going on.
    pub(crate) fn set_paste_active(&mut self, value: bool)
        ensures
            final(self)@ == (ReducerView { paste_active: value, ..old(self)@ }),
    {
        self.paste_active = value;
    }

    /// Whether a snapshot has to be asked for.
    pub(crate) fn probe_needed(&self) -> (value: bool)
        ensures
            value == self@.probe_needed,
    {
        self.probe_needed
    }

    /// Notes whether a snapshot has to be asked for.
    pub(crate) fn set_probe_needed(&mut self, value: bool)
        ensures
            final(self)@ == (ReducerView { probe_needed: value, ..old(self)@ }),
    {
        self.probe_needed = value;
    }

    /// Whether a forwarded Enter or Ctrl+C fences later input.
    pub(crate) fn input_boundary_fence(&self) -> (value: bool)
        ensures
            value == self@.fence,
    {
        self.input_boundary_fence
    }

    /// Notes whether a forwarded Enter or Ctrl+C fences later input.
    pub(crate) fn set_input_boundary_fence(&mut self, value: bool)
        ensures
            final(self)@ == (ReducerView { fence: value, ..old(self)@ }),
    {
        self.input_boundary_fence = value;
    }

    /// Whether input was forwarded behind the last boundary.
    pub(crate) fn fenced_input_pending(&self) -> (value: bool)
        ensures
            value == self@.fenced_input,
    {
        self.fenced_input_pending
    }

    /// Notes whether input was forwarded behind the last boundary.
    pub(crate) fn set_fenced_input_pending(&mut self, value: bool)
        ensures
            final(self)@ == (ReducerView { fenced_input: value, ..old(self)@ }),
    {
        self.fenced_input_pending = value;
    }

    /// Whether a prompt was seen behind the fence.
    pub(crate) fn fence_prompt_observed(&self) -> (value: bool)
        ensures
            value == self@.prompt_observed,
    {
        self.fence_prompt_observed
    }

    /// Notes whether a prompt was seen behind the fence.
    pub(crate) fn set_fence_prompt_observed(&mut self, value: bool)
        ensures
            final(self)@ == (ReducerView { prompt_observed: value, ..old(self)@ }),
    {
        self.fence_prompt_observed = value;
    }

    /// Whether a query waits until it is safe to start.
    pub(crate) fn query_restart_deferred(&self) -> (value: bool)
        ensures
            value == self@.restart_deferred,
    {
        self.query_restart_deferred
    }

    /// Notes whether a query waits until it is safe to start.
    pub(crate) fn set_query_restart_deferred(&mut self, value: bool)
        ensures
            final(self)@ == (ReducerView { restart_deferred: value, ..old(self)@ }),
    {
        self.query_restart_deferred = value;
    }
}

} // verus!
