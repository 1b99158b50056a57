//! What holds of every session, whatever is typed and reported.

use vstd::prelude::*;

use crate::coordinator::CoordinatorView;
use crate::completion::Suggestion;
use crate::input::{
    event_bytes, law_keys_follow_their_meaning, law_routing_is_byte_exact, routed, InputAction,
    InputEventView, RouterView, Routing, MAX_ROUTE_BATCH_EVENTS,
};
use crate::paths::same_path;
use crate::session::{
    forwarded, fresh_session, EffectView, ReplacementKind, ReplacementView, SessionMode, MAX_SESSION_EFFECTS,
};
use crate::session_model::{may_act, turn_of, ReducerView, Turn};
use crate::shell_events::{FrameView, ProbeRequestError, SessionStateView, UpdateView};

verus! {

/// Whether the overlay is cleared right before every requested replacement, and
/// the request for the snapshot that will confirm it follows at once.
pub open spec fn paired(effects: Seq<EffectView>) -> bool {
    forall|i: int|
        0 <= i < effects.len() && #[trigger] effects[i] is ReplaceBuffer ==> {
            &&& i >= 1 && effects[i - 1] is ClearOverlay
            &&& i + 1 < effects.len() && effects[i + 1] is RequestBufferSync
        }
}

/// Whether no replacement is requested.
pub open spec fn replaces_nothing(effects: Seq<EffectView>) -> bool {
    forall|i: int| 0 <= i < effects.len() ==> !(#[trigger] effects[i] is ReplaceBuffer)
}

/// Bytes that go to the shell, in order.
pub open spec fn forwarded_bytes(effects: Seq<EffectView>) -> Seq<u8>
    decreases effects.len(),
{
    if effects.len() == 0 {
        Seq::empty()
    } else {
        match effects.last() {
            EffectView::ForwardInput(bytes) => forwarded_bytes(effects.drop_last()) + bytes,
            _ => forwarded_bytes(effects.drop_last()),
        }
    }
}

/// Whether the fence and what is kept for it agree: nothing is awaited without
/// a fence, and behind one no replacement and no history is pending.
pub open spec fn fence_consistent(state: ReducerView) -> bool {
    if state.fence {
        &&& state.pending is None
        &&& state.origin is None
        &&& !state.preview_active
        &&& !state.recall_when_ready
    } else {
        &&& state.fence_nonce is None
        &&& !state.prompt_observed
        &&& !state.fenced_input
        &&& state.queued_boundaries == 0
    }
}

/// Whether a requested replacement is not taken for a fact: while one is
/// pending, no buffer is known, nothing is suggested and no query is active.
pub open spec fn request_consistent(state: ReducerView) -> bool {
    state.pending is Some ==> {
        &&& state.shell.buffer is None
        &&& !state.shell.suggests()
        &&& state.completion.active is None
    }
}

/// What holds of every state that a session reaches.
pub open spec fn consistent(state: ReducerView) -> bool {
    fence_consistent(state) && request_consistent(state)
}

/// Whether nothing new is believed of the shell: no buffer but the one that was
/// known, and no authority that there was not.
pub open spec fn learned_nothing(before: SessionStateView, after: SessionStateView) -> bool {
    &&& after.buffer is Some ==> after.buffer == before.buffer
    &&& after.suggests() ==> before.suggests()
}

proof fn lemma_requests_teach_nothing(shell: SessionStateView)
    ensures
        learned_nothing(shell, shell.after_input()),
        learned_nothing(shell, shell.after_probe()),
{
    reveal(SessionStateView::after_input);
    reveal(SessionStateView::after_probe);
}

/// Whether a step only adds effects: so many at most, no forwarded input among
/// them, and replacements, where it may request any, only with their snapshot.
/// Nothing new is believed of the shell, and nothing else becomes pending.
#[verifier::opaque]
spec fn adds(before: Turn, after: Turn, most: nat, replaces: bool) -> bool {
    &&& before.effects.len() <= after.effects.len() <= before.effects.len() + most
    &&& forall|i: int| 0 <= i < before.effects.len() ==> #[trigger] after.effects[i] == before.effects[i]
    &&& forall|i: int|
        before.effects.len() <= i < after.effects.len() ==> {
            &&& !(#[trigger] after.effects[i] is ForwardInput)
            &&& after.effects[i] is ReplaceBuffer ==> {
                &&& replaces
                &&& i > before.effects.len() && after.effects[i - 1] is ClearOverlay
                &&& i + 1 < after.effects.len() && after.effects[i + 1] is RequestBufferSync
            }
        }
    &&& fence_consistent(before.state) ==> fence_consistent(after.state)
    &&& request_consistent(before.state) ==> request_consistent(after.state)
    &&& !replaces && after.state.pending is Some ==> after.state.pending == before.state.pending
    &&& learned_nothing(before.state.shell, after.state.shell)
}

proof fn lemma_adds_nothing(before: Turn, state: ReducerView)
    requires
        fence_consistent(before.state) ==> fence_consistent(state),
        request_consistent(before.state) ==> request_consistent(state),
        state.pending is Some ==> state.pending == before.state.pending,
        learned_nothing(before.state.shell, state.shell),
    ensures
        adds(before, before.to(state), 0, false),
{
    reveal(adds);
}

proof fn lemma_adds_one(before: Turn, effect: EffectView)
    requires
        !(effect is ForwardInput),
        !(effect is ReplaceBuffer),
    ensures
        adds(before, before.emit(effect), 1, false),
{
    reveal(adds);
}

proof fn lemma_adds_chain(a: Turn, b: Turn, c: Turn, m: nat, n: nat, first: bool, second: bool)
    requires
        adds(a, b, m, first),
        adds(b, c, n, second),
    ensures
        adds(a, c, m + n, first || second),
{
    reveal(adds);
    assert forall|i: int| a.effects.len() <= i < c.effects.len() implies {
        &&& !(#[trigger] c.effects[i] is ForwardInput)
        &&& c.effects[i] is ReplaceBuffer ==> {
            &&& first || second
            &&& i > a.effects.len() && c.effects[i - 1] is ClearOverlay
            &&& i + 1 < c.effects.len() && c.effects[i + 1] is RequestBufferSync
        }
    } by {
        if i < b.effects.len() {
            assert(c.effects[i] == b.effects[i]);
            if b.effects[i] is ReplaceBuffer {
                assert(c.effects[i + 1] == b.effects[i + 1]);
                assert(c.effects[i - 1] == b.effects[i - 1]);
            }
        }
    }
    assert forall|i: int| 0 <= i < a.effects.len() implies #[trigger] c.effects[i] == a.effects[i] by {
        assert(c.effects[i] == b.effects[i]);
    }
}

proof fn lemma_adds_weaken(a: Turn, b: Turn, m: nat, n: nat, first: bool, second: bool)
    requires
        adds(a, b, m, first),
        m <= n,
        first ==> second,
    ensures
        adds(a, b, n, second),
{
    reveal(adds);
}

proof fn lemma_clear_completion(t: Turn)
    ensures
        adds(t, t.clear_completion(), 1, false),
        t.clear_completion().state == (ReducerView {
            alias_pending: false,
            ..t.state.with_completion_dismissed()
        }),
{
    reveal(Turn::clear_completion);
    let state = ReducerView { alias_pending: false, ..t.state.with_completion_dismissed() };
    lemma_adds_nothing(t, state);
    lemma_adds_one(t.to(state), EffectView::ClearOverlay);
    lemma_adds_chain(t, t.to(state), t.clear_completion(), 0, 1, false, false);
}

proof fn lemma_refresh_or_clear(t: Turn)
    ensures
        adds(t, t.refresh_or_clear(), 1, false),
        t.refresh_or_clear().state == t.state,
{
    reveal(Turn::refresh_or_clear);
    lemma_adds_one(t, EffectView::RefreshOverlay);
    lemma_adds_one(t, EffectView::ClearOverlay);
}

/// State that differs from another in its completions alone.
spec fn same_but_completion(a: ReducerView, b: ReducerView) -> bool {
    b == (ReducerView {
        completion: b.completion,
        restart_deferred: b.restart_deferred,
        alias_pending: b.alias_pending,
        ..a
    })
}

proof fn lemma_start_query(t: Turn)
    requires
        t.state.pending is None,
    ensures
        adds(t, t.start_query(), 1, false),
        same_but_completion(t.state, t.start_query().state),
{
    reveal(Turn::start_query);
    let state = ReducerView {
        restart_deferred: false,
        alias_pending: false,
        completion: t.state.completion.cancelled(),
        ..t.state
    };
    lemma_adds_nothing(t, state);
    match state.query_text() {
        None => {
            lemma_adds_weaken(t, t.to(state), 0, 1, false, false);
        },
        Some(asked) => {
            if state.mode is Spec && asked.text.len() == 0 {
                lemma_adds_one(t.to(state), EffectView::ClearOverlay);
            } else {
                lemma_ask(t.to(state), asked, t.state.alias_pending);
            }
            lemma_adds_chain(t, t.to(state), t.start_query(), 0, 1, false, false);
        },
    }
}

proof fn lemma_ask(t: Turn, asked: ReplacementView, alias_expansion: bool)
    requires
        t.state.pending is None,
    ensures
        adds(t, t.ask(asked, alias_expansion), 1, false),
        same_but_completion(t.state, t.ask(asked, alias_expansion).state),
{
    reveal(Turn::ask);
    let state = t.state;
    let started = ReducerView {
        completion: state.completion.after_start(asked.text, asked.cursor, state.cwd),
        ..state
    };
    let query = EffectView::StartQuery {
        mode: state.mode,
        alias_expansion,
        query: state.completion.started_query(asked.text, asked.cursor, state.cwd),
    };
    match state.completion.start_error(asked.text, asked.cursor, state.cwd) {
        Some(error) => {
            lemma_adds_one(t, t.ask(asked, alias_expansion).effects.last());
        },
        None => {
            lemma_adds_nothing(t, started);
            lemma_adds_one(t.to(started), query);
            lemma_adds_chain(t, t.to(started), t.ask(asked, alias_expansion), 0, 1, false, false);
        },
    }
}

proof fn lemma_restart_if_safe(t: Turn)
    ensures
        adds(t, t.restart_if_safe(), 1, false),
        same_but_completion(t.state, t.restart_if_safe().state),
        !t.state.safe() ==> t.restart_if_safe() == t,
{
    reveal(Turn::restart_if_safe);
    lemma_safe_is_unfenced(t.state);
    if t.state.safe() {
        lemma_start_query(t);
    }
    lemma_adds_nothing(t, t.state);
    lemma_adds_weaken(t, t, 0, 1, false, false);
}

proof fn lemma_probe_refused(t: Turn, error: ProbeRequestError)
    ensures
        adds(t, t.probe_refused(error), 1, false),
        t.probe_refused(error).state == (ReducerView {
            probe_needed: t.probe_refused(error).state.probe_needed,
            ..t.state
        }),
{
    reveal(Turn::probe_refused);
    let state = ReducerView { probe_needed: false, ..t.state };
    lemma_adds_nothing(t, t.state);
    lemma_adds_weaken(t, t, 0, 1, false, false);
    if !(error is AlreadyPending || error is NotAtEditablePrompt) {
        lemma_adds_nothing(t, state);
        lemma_adds_one(t.to(state), t.probe_refused(error).effects.last());
        lemma_adds_chain(t, t.to(state), t.probe_refused(error), 0, 1, false, false);
    }
}

proof fn lemma_issue_probe(t: Turn, require_complete_input: bool)
    ensures
        adds(t, t.issue_probe(require_complete_input), 1, false),
        t.issue_probe(require_complete_input).state.fence == t.state.fence,
        t.issue_probe(require_complete_input).state.mode == t.state.mode,
{
    reveal(Turn::issue_probe);
    reveal(Turn::probe_sent);
    lemma_adds_nothing(t, t.state);
    lemma_adds_weaken(t, t, 0, 1, false, false);
    let probed = t.to(ReducerView { shell: t.state.shell.after_probe(), ..t.state });
    lemma_requests_teach_nothing(t.state.shell);
    lemma_adds_nothing(t, probed.state);
    match t.state.shell.probe_refusal() {
        None => {
            let sent = probed.probe_sent((t.state.shell.last_nonce->0 + 1) as u64);
            lemma_adds_nothing(probed, sent.state);
            lemma_adds_one(probed.to(sent.state), sent.effects.last());
            lemma_adds_chain(t, probed, probed.to(sent.state), 0, 0, false, false);
            lemma_adds_chain(t, probed.to(sent.state), sent, 0, 1, false, false);
        },
        Some(error) => {
            lemma_probe_refused(probed, error);
            lemma_adds_chain(t, probed, probed.probe_refused(error), 0, 1, false, false);
        },
    }
}

proof fn lemma_adds_pair(t: Turn, state: ReducerView, replacement: ReplacementView, nonce: u64)
    requires
        fence_consistent(t.state) ==> fence_consistent(state),
        request_consistent(t.state) ==> request_consistent(state),
        learned_nothing(t.state.shell, state.shell),
    ensures
        adds(
            t,
            t.to(state).emit(EffectView::ClearOverlay).emit(EffectView::ReplaceBuffer(replacement)).emit(
                EffectView::RequestBufferSync(nonce),
            ),
            3,
            true,
        ),
{
    reveal(adds);
}

proof fn lemma_request_pair(t: Turn, replacement: ReplacementView, kind: ReplacementKind)
    requires
        !t.state.fence,
        t.state.shell.buffer is None,
        !t.state.shell.suggests(),
        t.state.completion.active is None,
    ensures
        ({
            let (after, done) = t.request_pair(replacement, kind);
            &&& done ==> adds(t, after, 3, true) && after.state.pending == Some((replacement, kind))
            &&& !done ==> adds(t, after, 2, false) && after.state.pending == t.state.pending
            &&& after.state.fence == t.state.fence
            &&& after.state.mode == t.state.mode
        }),
{
    reveal(Turn::request_pair);
    reveal(Turn::pair_refused);
    reveal(Turn::pair_sent);
    let (after, done) = t.request_pair(replacement, kind);
    if !(t.state.shell.capability is Probe) {
        lemma_adds_one(t, EffectView::ClearOverlay);
        lemma_adds_weaken(t, after, 1, 2, false, false);
    } else {
        let probed = t.to(ReducerView { shell: t.state.shell.after_probe(), ..t.state });
        lemma_requests_teach_nothing(t.state.shell);
        lemma_adds_nothing(t, probed.state);
        match t.state.shell.probe_refusal() {
            Some(error) => {
                let cleared = probed.emit(EffectView::ClearOverlay);
                lemma_adds_one(probed, EffectView::ClearOverlay);
                lemma_probe_refused(cleared, error);
                lemma_adds_chain(t, probed, cleared, 0, 1, false, false);
                lemma_adds_chain(t, cleared, after, 1, 1, false, false);
            },
            None => {
                lemma_adds_pair(
                    probed,
                    after.state,
                    replacement,
                    (t.state.shell.last_nonce->0 + 1) as u64,
                );
                lemma_adds_chain(t, probed, after, 0, 3, false, true);
            },
        }
    }
}

proof fn lemma_begin_replacement(t: Turn, replacement: ReplacementView, kind: ReplacementKind)
    requires
        !t.state.fence,
    ensures
        ({
            let (after, done) = t.begin_replacement(replacement, kind);
            &&& done ==> adds(t, after, 3, true) && after.state.pending == Some((replacement, kind))
            &&& !done ==> adds(t, after, 2, false) && after.state.pending == t.state.pending
            &&& after.state.fence == t.state.fence
            &&& after.state.mode == t.state.mode
        }),
{
    reveal(Turn::begin_replacement);
    let (after, done) = t.begin_replacement(replacement, kind);
    let touched = ReducerView { shell: t.state.shell.after_input(), ..t.state };
    lemma_requests_teach_nothing(t.state.shell);
    lemma_adds_nothing(t, touched);
    if t.state.shell.input_generation.sequence == u64::MAX {
        let cleared = t.to(touched).clear_completion();
        lemma_clear_completion(t.to(touched));
        lemma_adds_one(cleared, after.effects.last());
        lemma_adds_chain(t, t.to(touched), cleared, 0, 1, false, false);
        lemma_adds_chain(t, cleared, after, 1, 1, false, false);
    } else {
        let asked = t.to(ReducerView { probe_needed: true, ..touched.with_completion_dismissed() });
        assert(asked.state.shell.buffer is None && !asked.state.shell.suggests()) by {
            reveal(SessionStateView::after_input);
        }
        lemma_adds_nothing(t, asked.state);
        lemma_request_pair(asked, replacement, kind);
        if done {
            lemma_adds_chain(t, asked, after, 0, 3, false, true);
        } else {
            lemma_adds_chain(t, asked, after, 0, 2, false, false);
        }
    }
}

proof fn lemma_replace_with_selected(t: Turn, kind: ReplacementKind)
    requires
        !t.state.fence,
    ensures
        ({
            let (after, done) = t.replace_with_selected(kind);
            &&& done ==> adds(t, after, 3, true)
            &&& !done ==> adds(t, after, 2, false)
            &&& after.state.fence == t.state.fence
            &&& after.state.mode == t.state.mode
        }),
{
    reveal(Turn::replace_with_selected);
    lemma_adds_nothing(t, t.state);
    lemma_adds_weaken(t, t, 0, 2, false, false);
    if let Some(replacement) = t.state.selected_replacement() {
        lemma_begin_replacement(t, replacement, kind);
    }
}

proof fn lemma_preview_selected(t: Turn)
    requires
        !t.state.fence,
    ensures
        ({
            let (after, done) = t.preview_selected();
            &&& done ==> adds(t, after, 3, true)
            &&& !done ==> adds(t, after, 2, false)
            &&& after.state.fence == t.state.fence
            &&& after.state.mode == t.state.mode
        }),
{
    reveal(Turn::preview_selected);
    lemma_adds_nothing(t, t.state);
    lemma_adds_weaken(t, t, 0, 2, false, false);
    let remembered = ReducerView {
        origin: if t.state.origin is None {
            t.state.authoritative()
        } else {
            t.state.origin
        },
        ..t.state
    };
    lemma_adds_nothing(t, remembered);
    lemma_replace_with_selected(t.to(remembered), ReplacementKind::HistoryPreview);
    let (after, done) = t.to(remembered).replace_with_selected(ReplacementKind::HistoryPreview);
    if done {
        lemma_adds_chain(t, t.to(remembered), after, 0, 3, false, true);
    } else {
        lemma_adds_chain(t, t.to(remembered), after, 0, 2, false, false);
    }
}

proof fn lemma_safe_is_unfenced(state: ReducerView)
    ensures
        state.safe() ==> !state.fence && state.pending is None,
{
    reveal(ReducerView::safe);
}

proof fn lemma_tab(t: Turn)
    ensures
        ({
            let (after, done) = t.tab();
            &&& done ==> adds(t, after, 3, true)
            &&& !done ==> adds(t, after, 2, false) && after.state.fence == t.state.fence
        }),
{
    reveal(Turn::tab);
    lemma_safe_is_unfenced(t.state);
    lemma_adds_nothing(t, t.state);
    lemma_adds_weaken(t, t, 0, 2, false, false);
    if t.state.safe() {
        lemma_replace_with_selected(t, ReplacementKind::Acceptance);
        let completion = t.state.completion;
        let shown = t.to(
            ReducerView {
                completion: completion.with_selection(completion.selection.revealed()),
                ..t.state
            },
        );
        lemma_adds_nothing(t, shown.state);
        lemma_adds_one(shown, EffectView::RefreshOverlay);
        lemma_adds_chain(t, shown, shown.emit(EffectView::RefreshOverlay), 0, 1, false, false);
        lemma_adds_weaken(t, shown.emit(EffectView::RefreshOverlay), 1, 3, false, true);
    }
}

proof fn lemma_boundary(t: Turn)
    ensures
        adds(t, t.boundary(), 1, false),
        t.boundary().state.fence,
        t.boundary().state.mode == t.state.mode,
{
    reveal(Turn::boundary);
    lemma_adds_nothing(t, t.boundary().state);
    lemma_adds_one(t.to(t.boundary().state), EffectView::ClearOverlay);
    lemma_adds_chain(t, t.to(t.boundary().state), t.boundary(), 0, 1, false, false);
}

proof fn lemma_escape(t: Turn)
    requires
        fence_consistent(t.state),
        !t.state.fence,
    ensures
        adds(t, t.escape(), 5, true),
        !t.escape().restores_before(Some(InputAction::Escape)) ==> adds(t, t.escape(), 4, false),
        !t.escape().state.fence,
{
    reveal(Turn::escape);
    lemma_safe_is_unfenced(t.state);
    if t.state.mode is History && t.state.preview_active && t.state.safe() {
        reveal(Turn::leave_preview);
        let cleared = t.clear_completion();
        lemma_clear_completion(t);
        let spec = cleared.to(
            ReducerView { mode: SessionMode::Spec, ..cleared.state.without_history() },
        );
        let left = spec.emit(EffectView::ModeChanged(SessionMode::Spec));
        lemma_adds_nothing(cleared, spec.state);
        lemma_adds_one(spec, EffectView::ModeChanged(SessionMode::Spec));
        lemma_adds_chain(t, cleared, spec, 1, 0, false, false);
        lemma_adds_chain(t, spec, left, 1, 1, false, false);
        match cleared.state.origin {
            Some(origin) => {
                lemma_begin_replacement(left, origin, ReplacementKind::HistoryRestore);
                let (after, done) = left.begin_replacement(origin, ReplacementKind::HistoryRestore);
                if done {
                    lemma_adds_chain(t, left, after, 2, 3, false, true);
                } else {
                    lemma_adds_chain(t, left, after, 2, 2, false, false);
                    lemma_adds_weaken(t, after, 4, 5, false, true);
                }
            },
            None => {
                lemma_adds_weaken(t, left, 2, 4, false, false);
                lemma_adds_weaken(t, left, 2, 5, false, true);
            },
        }
    } else {
        reveal(Turn::dismiss);
        let hidden = t.to(t.dismiss().state);
        lemma_adds_nothing(t, hidden.state);
        lemma_adds_one(hidden, EffectView::ClearOverlay);
        lemma_adds_chain(t, hidden, t.dismiss(), 0, 1, false, false);
        lemma_adds_weaken(t, t.dismiss(), 1, 4, false, false);
        lemma_adds_weaken(t, t.dismiss(), 1, 5, false, true);
    }
}

proof fn lemma_enter_history(t: Turn, origin: ReplacementView, recall: bool)
    requires
        !t.state.fence,
        t.state.pending is None,
    ensures
        adds(t, t.enter_history(origin, recall), 2, false),
{
    reveal(Turn::enter_history);
    let entered = t.to(
        ReducerView {
            mode: SessionMode::History,
            origin: Some(origin),
            preview_active: false,
            recall_when_ready: recall,
            ..t.state
        },
    );
    let noted = entered.emit(EffectView::ModeChanged(SessionMode::History));
    lemma_adds_nothing(t, entered.state);
    lemma_adds_one(entered, EffectView::ModeChanged(SessionMode::History));
    lemma_start_query(noted);
    lemma_adds_chain(t, entered, noted, 0, 1, false, false);
    lemma_adds_chain(t, noted, noted.start_query(), 1, 1, false, false);
}

proof fn lemma_vertical(t: Turn, down: bool)
    ensures
        ({
            let (after, done) = t.vertical(down);
            &&& done ==> adds(t, after, 3, true)
            &&& !done ==> after == t
        }),
{
    reveal(Turn::vertical);
    lemma_safe_is_unfenced(t.state);
    if t.state.safe() {
        if !t.state.completion.selection.visible() {
            reveal(Turn::recall_history);
            if let Some(origin) = t.state.authoritative() {
                let cleared = t.clear_completion();
                lemma_clear_completion(t);
                lemma_enter_history(cleared, origin, true);
                let after = cleared.enter_history(origin, true);
                lemma_adds_chain(t, cleared, after, 1, 2, false, false);
                lemma_adds_weaken(t, after, 3, 3, false, true);
            }
        } else {
            reveal(Turn::move_selection);
            reveal(Turn::show_moved);
            let moved = t.move_selection(down);
            lemma_adds_nothing(t, moved.state);
            lemma_preview_selected(moved);
            let (previewed, done) = moved.preview_selected();
            let shown = previewed.emit(EffectView::RefreshOverlay);
            lemma_adds_one(previewed, EffectView::RefreshOverlay);
            lemma_adds_one(moved, EffectView::RefreshOverlay);
            if !(t.state.mode is History) {
                let after = moved.emit(EffectView::RefreshOverlay);
                lemma_adds_chain(t, moved, after, 0, 1, false, false);
                lemma_adds_weaken(t, after, 1, 3, false, true);
            } else if done {
                lemma_adds_chain(t, moved, previewed, 0, 3, false, true);
            } else {
                lemma_adds_chain(t, moved, previewed, 0, 2, false, false);
                lemma_adds_chain(t, previewed, shown, 2, 1, false, false);
                lemma_adds_weaken(t, shown, 3, 3, false, true);
            }
        }
    }
}

proof fn lemma_accept_ghost(t: Turn)
    ensures
        ({
            let (after, done) = t.accept_ghost();
            &&& done ==> adds(t, after, 3, true)
            &&& !done ==> adds(t, after, 2, false) && after.state.fence == t.state.fence
        }),
{
    reveal(Turn::accept_ghost);
    lemma_safe_is_unfenced(t.state);
    lemma_adds_nothing(t, t.state);
    lemma_adds_weaken(t, t, 0, 2, false, false);
    if t.state.safe() {
        if let Some(replacement) = t.state.ghost_replacement() {
            lemma_begin_replacement(t, replacement, ReplacementKind::GhostText);
        }
    }
}

proof fn lemma_leave_history(t: Turn)
    requires
        !t.state.fence,
        t.state.pending matches Some((_, kind)) ==> kind is HistoryPreview,
    ensures
        ({
            let (after, done) = t.leave_history();
            &&& done ==> adds(t, after, 4, true)
            &&& !done ==> adds(t, after, 3, false) && !after.state.fence
            &&& !t.state.preview_active && t.state.pending is None ==> done && adds(t, after, 2, false)
        }),
{
    reveal(Turn::leave_history);
    let previewing = t.state.pending matches Some((_, kind)) && kind is HistoryPreview;
    let spec = t.to(ReducerView { mode: SessionMode::Spec, ..t.state.without_history() });
    let left = spec.emit(EffectView::ModeChanged(SessionMode::Spec));
    lemma_adds_nothing(t, spec.state);
    lemma_adds_one(spec, EffectView::ModeChanged(SessionMode::Spec));
    lemma_adds_chain(t, spec, left, 0, 1, false, false);
    if t.state.preview_active || previewing {
        match t.state.origin {
            Some(origin) => {
                lemma_begin_replacement(left, origin, ReplacementKind::HistoryRestore);
                let (after, done) = left.begin_replacement(origin, ReplacementKind::HistoryRestore);
                if done {
                    lemma_adds_chain(t, left, after, 1, 3, false, true);
                } else {
                    lemma_adds_chain(t, left, after, 1, 2, false, false);
                }
            },
            None => {
                lemma_adds_weaken(t, left, 1, 4, false, true);
            },
        }
    } else {
        lemma_start_query(left);
        lemma_adds_chain(t, left, left.start_query(), 1, 1, false, false);
        lemma_adds_weaken(t, left.start_query(), 2, 4, false, true);
    }
}

proof fn lemma_toggle_mode(t: Turn)
    requires
        fence_consistent(t.state),
    ensures
        ({
            let (after, done) = t.toggle_mode();
            &&& done ==> adds(t, after, 5, true)
            &&& !done ==> adds(t, after, 4, false) && after.state.fence == t.state.fence
            &&& !t.state.preview_active && t.state.pending is None ==> adds(t, after, 3, false)
        }),
{
    reveal(Turn::toggle_mode);
    reveal(ReducerView::can_restore_history);
    lemma_safe_is_unfenced(t.state);
    lemma_adds_nothing(t, t.state);
    lemma_adds_weaken(t, t, 0, 3, false, false);
    lemma_adds_weaken(t, t, 0, 4, false, false);
    if t.state.safe() || t.state.can_restore_history() {
        let cleared = t.clear_completion();
        lemma_clear_completion(t);
        lemma_adds_weaken(t, cleared, 1, 3, false, false);
        lemma_adds_weaken(t, cleared, 1, 4, false, false);
        match cleared.state.mode {
            SessionMode::Spec => {
                if let Some(origin) = cleared.state.authoritative() {
                    let after = cleared.enter_history(origin, false);
                    lemma_enter_history(cleared, origin, false);
                    lemma_adds_chain(t, cleared, after, 1, 2, false, false);
                    lemma_adds_weaken(t, after, 3, 5, false, true);
                }
            },
            SessionMode::History => {
                let (after, done) = cleared.leave_history();
                lemma_leave_history(cleared);
                if !t.state.preview_active && t.state.pending is None {
                    lemma_adds_chain(t, cleared, after, 1, 2, false, false);
                    lemma_adds_weaken(t, after, 3, 5, false, true);
                } else if done {
                    lemma_adds_chain(t, cleared, after, 1, 4, false, true);
                } else {
                    lemma_adds_chain(t, cleared, after, 1, 3, false, false);
                }
            },
        }
    }
}

proof fn lemma_toggle_menu(t: Turn)
    ensures
        adds(t, t.toggle_menu().0, 1, false),
        !t.toggle_menu().1 ==> t.toggle_menu().0 == t,
{
    reveal(Turn::toggle_menu);
    lemma_adds_nothing(t, t.state);
    lemma_adds_weaken(t, t, 0, 1, false, false);
    if t.state.safe() {
        let completion = t.state.completion;
        let toggled = t.to(
            ReducerView {
                completion: completion.with_selection(completion.selection.toggled()),
                ..t.state
            },
        );
        lemma_adds_nothing(t, toggled.state);
        lemma_refresh_or_clear(toggled);
        lemma_adds_chain(t, toggled, toggled.refresh_or_clear(), 0, 1, false, false);
    }
}

/// Whether a key may replace the buffer: Tab, an arrow, the mode binding or
/// Escape in any state, and Enter where a suggestion is deliberately selected.
pub open spec fn may_replace(state: ReducerView, action: Option<InputAction>) -> bool {
    action matches Some(key) && (key is Tab || key is ArrowUp || key is ArrowDown || key
        is ArrowRight || key is ToggleMode || key is Escape || (key is Enter
        && state.deliberately_selected()))
}

/// Whether no key of a run may replace the buffer when its turn comes.
pub open spec fn none_may_replace(t: Turn, events: Seq<InputEventView>) -> bool
    decreases events.len(),
{
    events.len() == 0 || (none_may_replace(t, events.drop_last()) && !may_replace(
        t.keys(events.drop_last()).state,
        events.last().action,
    ))
}

proof fn lemma_act(t: Turn, action: InputAction)
    requires
        fence_consistent(t.state),
    ensures
        ({
            let (after, done) = t.act(action);
            &&& adds(t, after, 5, may_replace(t.state, Some(action)))
            &&& !done ==> adds(t, after, 4, false) && after.state.fence == t.state.fence
            &&& (action is ToggleMode || action is ToggleMenu) && !t.state.preview_active
                && t.state.pending is None ==> adds(t, after, 3, false)
        }),
{
    reveal(Turn::act);
    let (after, done) = t.act(action);
    let replaces = may_replace(t.state, Some(action));
    lemma_adds_nothing(t, t.state);
    lemma_adds_weaken(t, t, 0, 4, false, false);
    lemma_adds_weaken(t, t, 0, 5, false, replaces);
    match action {
        InputAction::Tab => {
            lemma_tab(t);
            if done {
                lemma_adds_weaken(t, after, 3, 5, true, true);
            } else {
                lemma_adds_weaken(t, after, 2, 4, false, false);
                lemma_adds_weaken(t, after, 2, 5, false, true);
            }
        },
        InputAction::ArrowUp => {
            lemma_vertical(t, false);
            if done {
                lemma_adds_weaken(t, after, 3, 5, true, true);
            }
        },
        InputAction::ArrowDown => {
            lemma_vertical(t, true);
            if done {
                lemma_adds_weaken(t, after, 3, 5, true, true);
            }
        },
        InputAction::ArrowRight => {
            lemma_accept_ghost(t);
            if done {
                lemma_adds_weaken(t, after, 3, 5, true, true);
            } else {
                lemma_adds_weaken(t, after, 2, 4, false, false);
                lemma_adds_weaken(t, after, 2, 5, false, true);
            }
        },
        InputAction::ToggleMode => {
            lemma_toggle_mode(t);
            if !done {
                lemma_adds_weaken(t, after, 4, 5, false, true);
            }
        },
        InputAction::ToggleMenu => {
            lemma_toggle_menu(t);
            lemma_adds_weaken(t, after, 1, 3, false, false);
            lemma_adds_weaken(t, after, 1, 4, false, false);
            lemma_adds_weaken(t, after, 1, 5, false, false);
        },
        _ => {},
    }
}

proof fn lemma_drop_history(t: Turn)
    ensures
        adds(t, t.drop_history(), 1, false),
        t.drop_history().state.fence == t.state.fence,
        t.drop_history().state.mode == t.state.mode,
{
    reveal(Turn::drop_history);
    lemma_clear_completion(t);
    lemma_adds_nothing(t.clear_completion(), t.drop_history().state);
    lemma_adds_chain(t, t.clear_completion(), t.drop_history(), 1, 0, false, false);
}

proof fn lemma_enter(t: Turn)
    requires
        fence_consistent(t.state),
        !t.state.fence,
    ensures
        adds(t, t.enter(), 4, t.state.deliberately_selected()),
        t.enter().state.fence,
{
    reveal(Turn::enter);
    lemma_boundary(t);
    lemma_adds_weaken(t, t.boundary(), 1, 4, false, t.state.deliberately_selected());
    if t.state.deliberately_selected() {
        let (accepted, done) = t.replace_with_selected(ReplacementKind::Acceptance);
        lemma_replace_with_selected(t, ReplacementKind::Acceptance);
        lemma_boundary(accepted);
        if done {
            lemma_adds_chain(t, accepted, accepted.boundary(), 3, 1, true, false);
        } else {
            lemma_adds_chain(t, accepted, accepted.boundary(), 2, 1, false, false);
            lemma_adds_weaken(t, accepted.boundary(), 3, 4, false, true);
        }
    }
}

proof fn lemma_prepare(t: Turn, action: InputAction)
    requires
        fence_consistent(t.state),
        !t.state.fence,
    ensures
        adds(t, t.prepare(action), 5, may_replace(t.state, Some(action))),
        !t.prepare(action).restores_before(Some(action)) ==> adds(
            t,
            t.prepare(action),
            4,
            action is Enter && t.state.deliberately_selected(),
        ),
        (action is Enter || action is CtrlC) ==> t.prepare(action).state.fence,
        !(action is Enter || action is CtrlC) ==> !t.prepare(action).state.fence,
{
    reveal(Turn::prepare);
    let after = t.prepare(action);
    if action is Escape {
        lemma_escape(t);
    } else if action is Enter {
        let replaces = t.state.deliberately_selected();
        lemma_enter(t);
        lemma_adds_weaken(t, after, 4, 5, replaces, replaces);
    } else {
        lemma_adds_nothing(t, t.state);
        lemma_adds_weaken(t, t, 0, 1, false, false);
        lemma_boundary(t);
        lemma_clear_completion(t);
        lemma_drop_history(t);
        let pasting = t.to(ReducerView { paste_active: true, ..t.state });
        lemma_adds_nothing(t, pasting.state);
        lemma_clear_completion(pasting);
        lemma_adds_chain(t, pasting, pasting.clear_completion(), 0, 1, false, false);
        let pasted = t.to(ReducerView { paste_active: false, ..t.state });
        lemma_adds_nothing(t, pasted.state);
        lemma_adds_weaken(t, pasted, 0, 1, false, false);
        lemma_adds_weaken(t, after, 1, 4, false, false);
        lemma_adds_weaken(t, after, 1, 5, false, may_replace(t.state, Some(action)));
    }
}

proof fn lemma_touch(t: Turn)
    ensures
        adds(t, t.touch(), 1, false),
        t.touch().state == (ReducerView { shell: t.state.shell.after_input(), ..t.state }),
        !t.touch().state.shell.suggests(),
{
    reveal(Turn::touch);
    reveal(SessionStateView::after_input);
    let touched = t.to(ReducerView { shell: t.state.shell.after_input(), ..t.state });
    lemma_adds_nothing(t, touched.state);
    lemma_adds_weaken(t, touched, 0, 1, false, false);
    if t.state.shell.input_generation.sequence == u64::MAX {
        lemma_adds_one(touched, t.touch().effects.last());
        lemma_adds_chain(t, touched, t.touch(), 0, 1, false, false);
    }
}

proof fn lemma_observe_edit(t: Turn, typed_space: bool)
    requires
        !t.state.fence,
    ensures
        adds(t, t.observe_edit(typed_space), 2, false),
        !t.observe_edit(typed_space).state.safe(),
{
    reveal(Turn::observe_edit);
    reveal(ReducerView::safe);
    let touched = t.touch();
    let cleared = touched.clear_completion();
    lemma_touch(t);
    lemma_clear_completion(touched);
    lemma_adds_chain(t, touched, cleared, 1, 1, false, false);
    lemma_adds_nothing(cleared, t.observe_edit(typed_space).state);
    lemma_adds_chain(t, cleared, t.observe_edit(typed_space), 2, 0, false, false);
}

/// State that a fenced key may lead to: only the shell's reports are outdated
/// and the fence is kept up to date.
pub open spec fn only_fence_differs(a: ReducerView, b: ReducerView) -> bool {
    b == (ReducerView {
        shell: b.shell,
        probe_needed: b.probe_needed,
        queued_boundaries: b.queued_boundaries,
        fenced_input: b.fenced_input,
        fence_nonce: b.fence_nonce,
        ..a
    })
}

proof fn lemma_note_fenced(t: Turn, action: InputAction)
    requires
        fence_consistent(t.state),
        t.state.fence,
    ensures
        adds(t, t.note_fenced(action), 2, false),
        only_fence_differs(t.state, t.note_fenced(action).state),
        forall|i: int|
            t.effects.len() <= i < t.note_fenced(action).effects.len()
                ==> #[trigger] t.note_fenced(action).effects[i] is Fault,
{
    reveal(Turn::note_fenced);
    reveal(Turn::outdate_fence_probe);
    reveal(Turn::count_boundary);
    lemma_adds_nothing(t, t.state);
    lemma_adds_weaken(t, t, 0, 1, false, false);
    lemma_adds_weaken(t, t, 0, 2, false, false);
    lemma_touch(t);
    assert(forall|i: int|
        t.effects.len() <= i < t.touch().effects.len() ==> #[trigger] t.touch().effects[i] is Fault) by {
        reveal(Turn::touch);
    }
    let outdated = t.outdate_fence_probe();
    if t.state.fence_nonce is Some {
        lemma_adds_nothing(t.touch(), outdated.state);
        lemma_adds_chain(t, t.touch(), outdated, 1, 0, false, false);
    }
    let flagged = outdated.to(ReducerView { fenced_input: true, ..outdated.state });
    lemma_adds_nothing(outdated, flagged.state);
    lemma_adds_chain(t, outdated, flagged, 1, 0, false, false);
    lemma_adds_weaken(t, flagged, 1, 2, false, false);
    let counted = outdated.count_boundary();
    if outdated.state.queued_boundaries == u64::MAX {
        lemma_adds_one(flagged, counted.effects.last());
        lemma_adds_chain(t, flagged, counted, 1, 1, false, false);
    } else {
        lemma_adds_nothing(outdated, counted.state);
        lemma_adds_chain(t, outdated, counted, 1, 0, false, false);
        lemma_adds_weaken(t, counted, 1, 2, false, false);
    }
}

proof fn lemma_release(t: Turn)
    requires
        t.state.pending is None,
    ensures
        adds(t, t.release(), 1, false),
        same_but_completion(t.state.unfenced(), t.release().state),
{
    reveal(Turn::release);
    let lifted = t.to(t.state.unfenced());
    lemma_adds_nothing(t, lifted.state);
    lemma_start_query(lifted);
    lemma_adds_chain(t, lifted, t.release(), 0, 1, false, false);
}

/// Whether the bytes of a key go to the shell.
pub open spec fn forwards(t: Turn, event: InputEventView) -> bool {
    let start = t.collapse_boundaries(event.action);
    let handled = event.action matches Some(action) && start.handle(action).1;
    !(event.forwarding is OnFallback && handled) && event.bytes.len() > 0
}

/// Turn just before the bytes of a key go to the shell.
spec fn noted(t: Turn, event: InputEventView) -> Turn {
    let start = t.collapse_boundaries(event.action);
    let typed_space = event.action == Some(InputAction::Printable(' ')) && start.state.safe();
    let acted = match event.action {
        Some(action) => start.handle(action).0,
        None => start,
    };
    if !forwards(t, event) {
        acted
    } else {
        acted.note_forward(
            match event.action {
                Some(action) => action,
                None => InputAction::Desynchronize,
            },
            start.state.fence,
            acted.restores_before(event.action),
            typed_space,
        )
    }
}

proof fn lemma_key(t: Turn, event: InputEventView)
    ensures
        t.key(event).state == noted(t, event).state,
        t.key(event).effects == if forwards(t, event) {
            forwarded(noted(t, event).effects, event.bytes)
        } else {
            noted(t, event).effects
        },
{
    reveal(Turn::key);
}

proof fn lemma_collapse(t: Turn, action: Option<InputAction>)
    requires
        fence_consistent(t.state),
    ensures
        ({
            let start = t.collapse_boundaries(action);
            if t.may_collapse_boundaries(action) {
                &&& adds(t, start, 1, false)
                &&& !start.state.fence
                &&& !start.state.preview_active
                &&& start.state.pending is None
            } else {
                start == t
            }
        }),
{
    reveal(Turn::collapse_boundaries);
    if t.may_collapse_boundaries(action) {
        lemma_release(t);
    }
}

proof fn lemma_handle(t: Turn, action: InputAction)
    requires
        fence_consistent(t.state),
    ensures
        ({
            let (after, done) = t.handle(action);
            &&& adds(t, after, 5, may_replace(t.state, Some(action)))
            &&& !done && !after.restores_before(Some(action)) ==> adds(
                t,
                after,
                4,
                action is Enter && t.state.deliberately_selected(),
            )
            &&& !may_act(action) ==> !done
            &&& t.state.fence ==> after == t && !done
            &&& (action is Enter || action is CtrlC) ==> after.state.fence
            &&& !done && !(action is Enter || action is CtrlC) ==> after.state.fence == t.state.fence
            &&& (action is ToggleMode || action is ToggleMenu) && !t.state.preview_active
                && t.state.pending is None ==> adds(t, after, 3, false)
        }),
{
    reveal(Turn::handle);
    lemma_adds_nothing(t, t.state);
    lemma_adds_weaken(t, t, 0, 1, false, false);
    lemma_adds_weaken(t, t, 0, 3, false, false);
    lemma_adds_weaken(t, t, 0, 4, false, false);
    lemma_adds_weaken(t, t, 0, 4, false, action is Enter && t.state.deliberately_selected());
    lemma_adds_weaken(t, t, 0, 5, false, may_replace(t.state, Some(action)));
    if !t.state.fence {
        if may_act(action) {
            lemma_act(t, action);
        } else {
            lemma_prepare(t, action);
        }
    }
}

proof fn lemma_adds_bounds(a: Turn, b: Turn, most: nat, replaces: bool)
    requires
        adds(a, b, most, replaces),
    ensures
        b.effects.len() <= a.effects.len() + most,
        request_consistent(a.state) ==> request_consistent(b.state),
        !replaces && b.state.pending is Some ==> b.state.pending == a.state.pending,
        learned_nothing(a.state.shell, b.state.shell),
{
    reveal(adds);
}

proof fn lemma_adds_consistent(a: Turn, b: Turn, most: nat, replaces: bool)
    requires
        adds(a, b, most, replaces),
        fence_consistent(a.state),
    ensures
        fence_consistent(b.state),
{
    reveal(adds);
}

/// Whether a key is forwarded as the router asks: one that may be handled
/// here only where it was not.
pub open spec fn as_routed(event: InputEventView) -> bool {
    event.action matches Some(action) && may_act(action) ==> event.forwarding is OnFallback
}

/// What a key adds before its bytes go to the shell.
proof fn lemma_noted(t: Turn, event: InputEventView)
    requires
        fence_consistent(t.state),
        as_routed(event),
    ensures
        forwards(t, event) ==> adds(t, noted(t, event), 6, may_replace(t.state, event.action)),
        forwards(t, event) && noted(t, event).state.safe() ==> adds(
            t,
            noted(t, event),
            5,
            may_replace(t.state, event.action),
        ),
        !forwards(t, event) ==> adds(t, noted(t, event), 5, may_replace(t.state, event.action)),
{
    let replaces = may_replace(t.state, event.action);
    let start = t.collapse_boundaries(event.action);
    let collapsed = t.may_collapse_boundaries(event.action);
    lemma_collapse(t, event.action);
    lemma_adds_nothing(t, t.state);
    lemma_adds_weaken(t, t, 0, 1, false, false);
    lemma_adds_consistent(t, start, 1, false);
    match event.action {
        None => {
            lemma_adds_weaken(t, start, 1, 4, false, replaces);
            lemma_adds_weaken(t, start, 1, 5, false, replaces);
            if forwards(t, event) {
                lemma_forward(
                    t,
                    start,
                    InputAction::Desynchronize,
                    start.state.fence,
                    start.restores_before(None),
                    false,
                    replaces,
                );
            }
        },
        Some(action) => {
            let (acted, handled) = start.handle(action);
            lemma_handle(start, action);
            if collapsed {
                lemma_adds_chain(t, start, acted, 1, 3, false, false);
                lemma_adds_weaken(t, acted, 4, 4, false, replaces);
                lemma_adds_weaken(t, acted, 4, 5, false, replaces);
            } else if !handled && !acted.restores_before(event.action) {
                lemma_adds_weaken(
                    t,
                    acted,
                    4,
                    4,
                    action is Enter && t.state.deliberately_selected(),
                    replaces,
                );
            }
            lemma_adds_consistent(t, acted, 5, replaces);
            if forwards(t, event) {
                lemma_forward(
                    t,
                    acted,
                    action,
                    start.state.fence,
                    acted.restores_before(event.action),
                    event.action == Some(InputAction::Printable(' ')) && start.state.safe(),
                    replaces,
                );
            }
        },
    }
}

proof fn lemma_forward(
    t: Turn,
    acted: Turn,
    action: InputAction,
    fenced: bool,
    restoring: bool,
    typed_space: bool,
    replaces: bool,
)
    requires
        fence_consistent(acted.state),
        adds(t, acted, 5, replaces),
        fenced ==> adds(t, acted, 1, false) && acted.state.fence,
        !fenced && (action is Enter || action is CtrlC) ==> acted.state.fence,
        !fenced && !(action is Enter || action is CtrlC) ==> !acted.state.fence,
        !fenced && !restoring ==> adds(t, acted, 4, replaces),
    ensures
        ({
            let after = acted.note_forward(action, fenced, restoring, typed_space);
            &&& adds(t, after, 6, replaces)
            &&& after.state.safe() ==> adds(t, after, 5, replaces)
        }),
{
    reveal(Turn::note_forward);
    let after = acted.note_forward(action, fenced, restoring, typed_space);
    lemma_safe_is_unfenced(after.state);
    lemma_adds_weaken(t, acted, 5, 6, replaces, replaces);
    if fenced {
        lemma_note_fenced(acted, action);
        lemma_adds_chain(t, acted, after, 1, 2, false, false);
        lemma_adds_weaken(t, after, 3, 6, false, replaces);
    } else if !(action is Enter || action is CtrlC || restoring || action is PasteStart
        || action is PasteEnd) {
        lemma_observe_edit(acted, typed_space);
        lemma_adds_chain(t, acted, after, 4, 2, replaces, false);
    }
}

proof fn lemma_adds_paired(a: Turn, b: Turn, most: nat, replaces: bool)
    requires
        adds(a, b, most, replaces),
        paired(a.effects),
    ensures
        paired(b.effects),
{
    reveal(adds);
    assert forall|i: int| 0 <= i < b.effects.len() && #[trigger] b.effects[i] is ReplaceBuffer implies {
        &&& i >= 1 && b.effects[i - 1] is ClearOverlay
        &&& i + 1 < b.effects.len() && b.effects[i + 1] is RequestBufferSync
    } by {
        if i < a.effects.len() {
            assert(a.effects[i] is ReplaceBuffer);
            assert(b.effects[i + 1] == a.effects[i + 1]);
            assert(b.effects[i - 1] == a.effects[i - 1]);
        }
    }
}

proof fn lemma_adds_no_replacement(a: Turn, b: Turn, most: nat)
    requires
        adds(a, b, most, false),
        replaces_nothing(a.effects),
    ensures
        replaces_nothing(b.effects),
{
    reveal(adds);
    assert forall|i: int| 0 <= i < b.effects.len() implies !(#[trigger] b.effects[i] is ReplaceBuffer) by {
        if i < a.effects.len() {
            assert(b.effects[i] == a.effects[i]);
        }
    }
}

proof fn lemma_same_forwarded(a: Seq<EffectView>, b: Seq<EffectView>)
    requires
        a.len() <= b.len(),
        forall|i: int| 0 <= i < a.len() ==> #[trigger] b[i] == a[i],
        forall|i: int| a.len() <= i < b.len() ==> !(#[trigger] b[i] is ForwardInput),
    ensures
        forwarded_bytes(b) == forwarded_bytes(a),
    decreases b.len(),
{
    if a.len() == b.len() {
        assert(a =~= b);
    } else {
        assert(!(b[b.len() - 1] is ForwardInput));
        lemma_same_forwarded(a, b.drop_last());
    }
}

proof fn lemma_adds_forwarded(a: Turn, b: Turn, most: nat, replaces: bool)
    requires
        adds(a, b, most, replaces),
    ensures
        forwarded_bytes(b.effects) == forwarded_bytes(a.effects),
{
    reveal(adds);
    lemma_same_forwarded(a.effects, b.effects);
}

proof fn lemma_forwarded(effects: Seq<EffectView>, bytes: Seq<u8>)
    ensures
        forwarded_bytes(forwarded(effects, bytes)) == forwarded_bytes(effects) + bytes,
        paired(effects) ==> paired(forwarded(effects, bytes)),
        replaces_nothing(effects) ==> replaces_nothing(forwarded(effects, bytes)),
        forwarded(effects, bytes).len() <= effects.len() + 1,
        bytes.len() > 0 ==> forwarded(effects, bytes).len() > 0 && forwarded(
            effects,
            bytes,
        ).last() is ForwardInput,
{
    let after = forwarded(effects, bytes);
    if bytes.len() == 0 {
        assert(forwarded_bytes(effects) + bytes =~= forwarded_bytes(effects));
    } else {
        let joins = effects.len() > 0 && effects.last() is ForwardInput && after.len()
            == effects.len();
        if joins {
            let previous = effects.last()->ForwardInput_0;
            assert(after.drop_last() =~= effects.drop_last());
            assert(forwarded_bytes(effects.drop_last()) + (previous + bytes) =~= forwarded_bytes(effects)
                + bytes);
        } else {
            assert(after.drop_last() =~= effects);
        }
        if paired(effects) {
            assert forall|i: int| 0 <= i < after.len() && #[trigger] after[i] is ReplaceBuffer implies {
                &&& i >= 1 && after[i - 1] is ClearOverlay
                &&& i + 1 < after.len() && after[i + 1] is RequestBufferSync
            } by {
                assert(i < after.len() - 1);
                assert(effects[i] is ReplaceBuffer);
                assert(effects[i + 1] is RequestBufferSync);
                assert(after[i - 1] == effects[i - 1]);
                if joins && i + 1 == effects.len() - 1 {
                    assert(effects[i + 1] == effects.last());
                }
            }
        }
        if replaces_nothing(effects) {
            assert forall|i: int| 0 <= i < after.len() implies !(#[trigger] after[i] is ReplaceBuffer) by {
                if i < after.len() - 1 {
                    assert(after[i] == effects[i]);
                }
            }
        }
    }
}

/// Bytes that one key sends to the shell.
pub open spec fn sent_by(t: Turn, event: InputEventView) -> Seq<u8> {
    if forwards(t, event) {
        event.bytes
    } else {
        Seq::empty()
    }
}

/// Bytes that a run of keys sends to the shell, in order.
pub open spec fn sent_by_all(t: Turn, events: Seq<InputEventView>) -> Seq<u8>
    decreases events.len(),
{
    if events.len() == 0 {
        Seq::empty()
    } else {
        sent_by_all(t, events.drop_last()) + sent_by(t.keys(events.drop_last()), events.last())
    }
}

/// One key sends its bytes whole or not at all, requests replacements only
/// together with their snapshot, adds at most seven effects, and teaches nothing
/// about the shell.
pub proof fn law_one_key(t: Turn, event: InputEventView)
    requires
        consistent(t.state),
        as_routed(event),
    ensures
        consistent(t.key(event).state),
        forwarded_bytes(t.key(event).effects) == forwarded_bytes(t.effects) + sent_by(t, event),
        paired(t.effects) ==> paired(t.key(event).effects),
        !may_replace(t.state, event.action) && replaces_nothing(t.effects) ==> replaces_nothing(
            t.key(event).effects,
        ),
        t.key(event).effects.len() <= t.effects.len() + 7,
        t.key(event).state.safe() ==> t.key(event).effects.len() <= t.effects.len() + 6,
        learned_nothing(t.state.shell, t.key(event).state.shell),
{
    lemma_key(t, event);
    lemma_noted(t, event);
    let after = noted(t, event);
    let replaces = may_replace(t.state, event.action);
    let most: nat = if !forwards(t, event) || after.state.safe() {
        5
    } else {
        6
    };
    assert(adds(t, after, most, replaces));
    lemma_adds_consistent(t, after, most, replaces);
    lemma_adds_forwarded(t, after, most, replaces);
    if paired(t.effects) {
        lemma_adds_paired(t, after, most, replaces);
    }
    if !replaces && replaces_nothing(t.effects) {
        lemma_adds_no_replacement(t, after, most);
    }
    lemma_adds_bounds(t, after, most, replaces);
    lemma_forwarded(after.effects, event.bytes);
    if !forwards(t, event) {
        assert(forwarded_bytes(t.effects) + sent_by(t, event) =~= forwarded_bytes(t.effects));
    }
}

proof fn lemma_keys(t: Turn, events: Seq<InputEventView>)
    requires
        consistent(t.state),
        forall|i: int| 0 <= i < events.len() ==> as_routed(#[trigger] events[i]),
    ensures
        consistent(t.keys(events).state),
        forwarded_bytes(t.keys(events).effects) == forwarded_bytes(t.effects) + sent_by_all(t, events),
        paired(t.effects) ==> paired(t.keys(events).effects),
        none_may_replace(t, events) && replaces_nothing(t.effects) ==> replaces_nothing(
            t.keys(events).effects,
        ),
        t.keys(events).effects.len() <= t.effects.len() + 7 * events.len(),
        events.len() > 0 && t.keys(events).state.safe() ==> t.keys(events).effects.len()
            < t.effects.len() + 7 * events.len(),
        learned_nothing(t.state.shell, t.keys(events).state.shell),
    decreases events.len(),
{
    if events.len() == 0 {
        assert(forwarded_bytes(t.effects) + sent_by_all(t, events) =~= forwarded_bytes(t.effects));
    } else {
        let front = events.drop_last();
        assert forall|i: int| 0 <= i < front.len() implies as_routed(#[trigger] front[i]) by {
            assert(front[i] == events[i]);
        }
        lemma_keys(t, front);
        law_one_key(t.keys(front), events.last());
        assert(forwarded_bytes(t.effects) + sent_by_all(t, events) =~= forwarded_bytes(t.effects)
            + sent_by_all(t, front) + sent_by(t.keys(front), events.last()));
    }
}

/// One input call sends exactly the bytes of the forwarded keys, in order,
/// and requests replacements only together with their snapshot.
pub proof fn law_input_is_forwarded_exactly(state: ReducerView, events: Seq<InputEventView>)
    requires
        consistent(state),
        forall|i: int| 0 <= i < events.len() ==> as_routed(#[trigger] events[i]),
    ensures
        consistent(turn_of(state).input(events).state),
        forwarded_bytes(turn_of(state).input(events).effects) == sent_by_all(turn_of(state), events),
        paired(turn_of(state).input(events).effects),
{
    lemma_input(state, events);
}

/// One input call that routing bounds has a bounded number of effects.
pub proof fn law_input_effects_are_bounded(state: ReducerView, events: Seq<InputEventView>)
    requires
        consistent(state),
        forall|i: int| 0 <= i < events.len() ==> as_routed(#[trigger] events[i]),
        events.len() <= MAX_ROUTE_BATCH_EVENTS,
    ensures
        turn_of(state).input(events).effects.len() <= MAX_SESSION_EFFECTS,
{
    lemma_input(state, events);
}

/// Only Tab, the arrows up, down and right, the mode binding, Escape, and Enter on
/// a deliberately selected suggestion may replace the buffer: no other Enter,
/// nor Ctrl+C, nor typed or pasted text does.
pub proof fn law_other_keys_replace_nothing(state: ReducerView, events: Seq<InputEventView>)
    requires
        consistent(state),
        forall|i: int| 0 <= i < events.len() ==> as_routed(#[trigger] events[i]),
        none_may_replace(turn_of(state), events),
    ensures
        replaces_nothing(turn_of(state).input(events).effects),
{
    lemma_input(state, events);
}

proof fn lemma_input(state: ReducerView, events: Seq<InputEventView>)
    requires
        consistent(state),
        forall|i: int| 0 <= i < events.len() ==> as_routed(#[trigger] events[i]),
    ensures
        ({
            let after = turn_of(state).input(events);
            &&& consistent(after.state)
            &&& forwarded_bytes(after.effects) == sent_by_all(turn_of(state), events)
            &&& paired(after.effects)
            &&& none_may_replace(turn_of(state), events) ==> replaces_nothing(after.effects)
            &&& after.effects.len() <= 7 * events.len() + (if events.len() == 0 {
                2int
            } else {
                1int
            })
            &&& learned_nothing(state.shell, after.state.shell)
        }),
{
    reveal(Turn::input);
    let t = turn_of(state);
    let typed = t.keys(events);
    let restarted = typed.restart_if_safe();
    let after = restarted.issue_probe(true);
    lemma_keys(t, events);
    lemma_restart_if_safe(typed);
    lemma_issue_probe(restarted, true);
    lemma_adds_nothing(typed, typed.state);
    let most: nat = if typed.state.safe() {
        1
    } else {
        0
    };
    lemma_adds_chain(typed, restarted, after, most, 1, false, false);
    lemma_adds_consistent(typed, after, most + 1, false);
    lemma_adds_forwarded(typed, after, most + 1, false);
    lemma_adds_paired(typed, after, most + 1, false);
    assert(forwarded_bytes(t.effects) =~= Seq::<u8>::empty());
    assert(forwarded_bytes(t.effects) + sent_by_all(t, events) =~= sent_by_all(t, events));
    if none_may_replace(t, events) {
        lemma_adds_no_replacement(typed, after, most + 1);
    }
    lemma_adds_bounds(typed, after, most + 1, false);
}

/// A key that a session cannot handle always goes to the shell.
pub proof fn law_other_keys_are_forwarded(t: Turn, event: InputEventView)
    requires
        event.action matches Some(action) ==> !may_act(action),
    ensures
        sent_by(t, event) == event.bytes,
{
    reveal(Turn::handle);
    if event.bytes.len() == 0 {
        assert(event.bytes =~= Seq::<u8>::empty());
    }
}

/// Input in which no key may be handled here reaches the shell unchanged.
pub proof fn law_plain_input_is_transparent(t: Turn, events: Seq<InputEventView>)
    requires
        forall|i: int|
            0 <= i < events.len() ==> (#[trigger] events[i].action matches Some(action)
                ==> !may_act(action)),
    ensures
        sent_by_all(t, events) == event_bytes(events),
    decreases events.len(),
{
    if events.len() > 0 {
        let front = events.drop_last();
        assert forall|i: int| 0 <= i < front.len() implies (#[trigger] front[i].action matches Some(
            action,
        ) ==> !may_act(action)) by {
            assert(front[i] == events[i]);
        }
        law_plain_input_is_transparent(t, front);
        assert(events[events.len() - 1] == events.last());
        law_other_keys_are_forwarded(t.keys(front), events.last());
    }
}

/// Behind the fence a key is only forwarded: nothing is handled here, no
/// suggestion, mode, directory or history changes, and besides the bytes only
/// faults are reported.
pub proof fn law_fenced_keys_are_only_forwarded(t: Turn, event: InputEventView)
    requires
        fence_consistent(t.state),
        t.state.fence,
        !t.may_collapse_boundaries(event.action),
    ensures
        t.key(event).state.fence,
        only_fence_differs(t.state, t.key(event).state),
        sent_by(t, event) == event.bytes,
        forwarded_bytes(t.key(event).effects) == forwarded_bytes(t.effects) + event.bytes,
        replaces_nothing(t.effects) ==> replaces_nothing(t.key(event).effects),
{
    reveal(Turn::collapse_boundaries);
    reveal(Turn::handle);
    reveal(Turn::note_forward);
    lemma_key(t, event);
    let after = noted(t, event);
    let action = match event.action {
        Some(action) => action,
        None => InputAction::Desynchronize,
    };
    lemma_note_fenced(t, action);
    lemma_adds_nothing(t, t.state);
    lemma_adds_weaken(t, t, 0, 2, false, false);
    assert(adds(t, after, 2, false));
    lemma_adds_forwarded(t, after, 2, false);
    if replaces_nothing(t.effects) {
        lemma_adds_no_replacement(t, after, 2);
    }
    lemma_forwarded(after.effects, event.bytes);
    if event.bytes.len() == 0 {
        assert(event.bytes =~= Seq::<u8>::empty());
        assert(forwarded_bytes(t.effects) + event.bytes =~= forwarded_bytes(t.effects));
    }
}

proof fn lemma_moved(t: Turn, state: ReducerView, after: Turn, most: nat, replaces: bool)
    requires
        fence_consistent(t.state) ==> fence_consistent(state),
        request_consistent(t.state) ==> request_consistent(state),
        state.pending is Some ==> state.pending == t.state.pending,
        learned_nothing(t.state.shell, state.shell),
        adds(t.to(state), after, most, replaces),
    ensures
        adds(t, after, most, replaces),
{
    lemma_adds_nothing(t, state);
    lemma_adds_chain(t, t.to(state), after, 0, most, false, replaces);
}

proof fn lemma_consume_boundary(t: Turn)
    requires
        t.state.fence,
    ensures
        adds(t, t.consume_boundary().0, 1, false),
        t.consume_boundary().0.state.fence,
        t.consume_boundary().0.state.pending == t.state.pending,
{
    reveal(Turn::consume_boundary);
    let (after, more) = t.consume_boundary();
    lemma_adds_nothing(t, t.state);
    lemma_adds_weaken(t, t, 0, 1, false, false);
    if t.state.queued_boundaries != 0 {
        let remaining = (t.state.queued_boundaries - 1) as u64;
        let counted = ReducerView {
            queued_boundaries: remaining,
            prompt_observed: remaining != 0,
            fence_nonce: None,
            ..t.state
        };
        lemma_adds_nothing(t, counted);
        lemma_adds_weaken(t, t.to(counted), 0, 1, false, false);
        let quiet = ReducerView { probe_needed: false, ..counted };
        lemma_clear_completion(t.to(quiet));
        lemma_moved(t, quiet, t.to(quiet).clear_completion(), 1, false);
    }
}

proof fn lemma_resynchronize(t: Turn)
    ensures
        adds(t, t.resynchronize(), 2, false),
{
    reveal(Turn::resynchronize);
    let cleared = t.clear_completion();
    lemma_clear_completion(t);
    let needed = ReducerView { probe_needed: true, ..cleared.state };
    lemma_issue_probe(cleared.to(needed), false);
    lemma_moved(cleared, needed, t.resynchronize(), 1, false);
    lemma_adds_chain(t, cleared, t.resynchronize(), 1, 1, false, false);
}

proof fn lemma_fence_probe(t: Turn)
    ensures
        adds(t, t.fence_probe(), 2, false),
{
    reveal(Turn::fence_probe);
    let cleared = t.clear_completion();
    lemma_clear_completion(t);
    let touched = ReducerView {
        fenced_input: false,
        shell: cleared.state.shell.after_input(),
        ..cleared.state
    };
    let after = t.fence_probe();
    lemma_requests_teach_nothing(cleared.state.shell);
    if cleared.state.shell.input_generation.sequence == u64::MAX {
        lemma_adds_one(cleared.to(touched), after.effects.last());
        lemma_moved(cleared, touched, after, 1, false);
    } else {
        let needed = ReducerView { probe_needed: true, ..touched };
        lemma_issue_probe(cleared.to(needed), false);
        lemma_moved(cleared, needed, after, 1, false);
    }
    lemma_adds_chain(t, cleared, after, 1, 1, false, false);
}

proof fn lemma_last_prompt(t: Turn)
    requires
        t.state.fence,
        t.state.pending is None,
    ensures
        adds(t, t.last_prompt(), 2, false),
        adds(t, t.last_suppressed_prompt(), 2, false),
{
    reveal(Turn::last_prompt);
    reveal(Turn::last_suppressed_prompt);
    let observed = ReducerView { prompt_observed: true, ..t.state };
    lemma_fence_probe(t.to(observed));
    lemma_release(t.to(observed));
    lemma_resynchronize(t.to(observed));
    lemma_adds_weaken(t.to(observed), t.to(observed).release(), 1, 2, false, false);
    lemma_moved(t, observed, t.last_prompt(), 2, false);
    lemma_moved(t, observed, t.last_suppressed_prompt(), 2, false);
}

proof fn lemma_fenced_prompt(t: Turn)
    requires
        t.state.fence,
    ensures
        adds(t, t.fenced_prompt(), 3, false),
        t.fenced_prompt().state.pending is None,
{
    reveal(Turn::fenced_prompt);
    let taken = ReducerView { pending: None, fence_nonce: None, ..t.state };
    let (consumed, more) = t.to(taken).consume_boundary();
    lemma_consume_boundary(t.to(taken));
    lemma_last_prompt(consumed);
    lemma_adds_chain(t.to(taken), consumed, consumed.last_prompt(), 1, 2, false, false);
    lemma_adds_weaken(t.to(taken), consumed, 1, 3, false, false);
    lemma_adds_bounds(t.to(taken), t.fenced_prompt(), 3, false);
    lemma_moved(t, taken, t.fenced_prompt(), 3, false);
}

proof fn lemma_suppressed_prompt(t: Turn)
    requires
        t.state.fence,
        t.state.pending is None,
    ensures
        adds(t, t.suppressed_prompt(), 3, false),
{
    reveal(Turn::suppressed_prompt);
    let taken = ReducerView { fence_nonce: None, ..t.state };
    let (consumed, more) = t.to(taken).consume_boundary();
    lemma_consume_boundary(t.to(taken));
    lemma_last_prompt(consumed);
    lemma_adds_chain(t.to(taken), consumed, consumed.last_suppressed_prompt(), 1, 2, false, false);
    lemma_adds_weaken(t.to(taken), consumed, 1, 3, false, false);
    lemma_moved(t, taken, t.suppressed_prompt(), 3, false);
}

proof fn lemma_fenced_snapshot(t: Turn)
    ensures
        adds(t, t.fenced_snapshot(), 3, false),
        t.fenced_snapshot().state.pending is None,
{
    reveal(Turn::fenced_snapshot);
    let taken = ReducerView { pending: None, ..t.state };
    let u = t.to(taken);
    lemma_release(u);
    lemma_resynchronize(u);
    lemma_clear_completion(u);
    lemma_adds_weaken(u, u.release(), 1, 3, false, false);
    lemma_adds_weaken(u, u.resynchronize(), 2, 3, false, false);
    lemma_adds_weaken(u, u.clear_completion(), 1, 3, false, false);
    lemma_adds_bounds(u, t.fenced_snapshot(), 3, false);
    lemma_moved(t, taken, t.fenced_snapshot(), 3, false);
}

proof fn lemma_authority(t: Turn, prompt: bool)
    ensures
        adds(t, t.authority(prompt), 3, false),
        t.authority(prompt).state.pending is None,
{
    reveal(Turn::authority);
    if !t.state.fence {
        reveal(Turn::open_authority);
        reveal(ReducerView::settled);
        let settled = (ReducerView { probe_needed: false, ..t.state }).settled();
        let state = if prompt {
            settled.without_history()
        } else {
            settled
        };
        lemma_start_query(t.to(state));
        lemma_moved(t, state, t.authority(prompt), 1, false);
        lemma_adds_weaken(t, t.authority(prompt), 1, 3, false, false);
    } else if prompt {
        lemma_fenced_prompt(t);
    } else {
        lemma_fenced_snapshot(t);
    }
}

proof fn lemma_drop_editing(t: Turn)
    ensures
        adds(t, t.drop_editing(), 1, false),
        adds(t, t.unsettled(), 1, false),
{
    reveal(Turn::drop_editing);
    reveal(Turn::unsettled);
    lemma_clear_completion(t);
    lemma_adds_nothing(t.clear_completion(), t.drop_editing().state);
    lemma_adds_chain(t, t.clear_completion(), t.drop_editing(), 1, 0, false, false);
    lemma_adds_nothing(t.drop_editing(), t.unsettled().state);
    lemma_adds_chain(t, t.drop_editing(), t.unsettled(), 1, 0, false, false);
}

proof fn lemma_shell_update(t: Turn, update: UpdateView, prompt_observed: bool)
    ensures
        adds(t, t.shell_update(update, prompt_observed), 3, false),
        update is BufferSynchronized || update is PromptReady ==> t.shell_update(
            update,
            prompt_observed,
        ).state.pending is None,
{
    reveal(Turn::shell_update);
    let after = t.shell_update(update, prompt_observed);
    lemma_drop_editing(t);
    lemma_drop_history(t);
    match update {
        UpdateView::BufferSynchronized { .. } => {
            lemma_authority(t, false);
        },
        UpdateView::PromptReady { .. } => {
            lemma_authority(t, true);
        },
        UpdateView::WorkingDirectoryChanged(directory) => {
            reveal(Turn::directory_changed);
            let moved = ReducerView { cwd: directory, ..t.state };
            let cleared = t.to(moved).clear_completion();
            lemma_adds_nothing(t, t.state);
            lemma_adds_weaken(t, t, 0, 3, false, false);
            if !same_path(t.state.cwd, directory) {
                lemma_clear_completion(t.to(moved));
                lemma_moved(t, moved, cleared, 1, false);
                lemma_adds_nothing(cleared, after.state);
                lemma_adds_chain(t, cleared, after, 1, 0, false, false);
                lemma_adds_weaken(t, after, 1, 3, false, false);
            }
        },
        UpdateView::SnapshotRejected(_) => {
            lemma_issue_probe(t.drop_editing(), false);
            lemma_adds_chain(t, t.drop_editing(), after, 1, 1, false, false);
            lemma_adds_weaken(t, after, 2, 3, false, false);
        },
        UpdateView::LifecycleSuppressed => {
            reveal(Turn::suppressed);
            if prompt_observed && t.state.fence {
                let dropped = ReducerView { pending: None, ..t.state.without_history() };
                lemma_suppressed_prompt(t.to(dropped));
                lemma_moved(t, dropped, after, 3, false);
            } else {
                lemma_adds_weaken(t, after, 1, 3, false, false);
            }
        },
        _ => {
            lemma_adds_weaken(t, after, 1, 3, false, false);
        },
    }
}

/// What holds of every turn that a call leaves behind: its state is
/// consistent, replacements come with their snapshot, and no input is sent.
pub open spec fn orderly(t: Turn) -> bool {
    &&& consistent(t.state)
    &&& paired(t.effects)
    &&& forwarded_bytes(t.effects).len() == 0
}

proof fn lemma_orderly(state: ReducerView, after: Turn, most: nat, replaces: bool)
    requires
        fence_consistent(state),
        adds(turn_of(state), after, most, replaces),
    ensures
        fence_consistent(after.state),
        request_consistent(state) ==> orderly(after),
        paired(after.effects),
        forwarded_bytes(after.effects).len() == 0,
        after.effects.len() <= most,
        !replaces ==> replaces_nothing(after.effects),
        learned_nothing(state.shell, after.state.shell),
{
    let t = turn_of(state);
    lemma_adds_consistent(t, after, most, replaces);
    lemma_adds_paired(t, after, most, replaces);
    lemma_adds_forwarded(t, after, most, replaces);
    if !replaces {
        lemma_adds_no_replacement(t, after, most);
    }
    lemma_adds_bounds(t, after, most, replaces);
}

proof fn lemma_other_reports_teach_nothing(shell: SessionStateView, frame: FrameView)
    requires
        !(shell.after_frame(frame).1 is BufferSynchronized),
        !(shell.after_frame(frame).1 is PromptReady),
    ensures
        learned_nothing(shell, shell.after_frame(frame).0),
{
    reveal(SessionStateView::after_frame);
}

/// A report of the shell never replaces the buffer and never sends input, and
/// the session believes nothing beyond it.
pub proof fn law_reports_replace_nothing(state: ReducerView, frame: FrameView)
    requires
        consistent(state),
    ensures
        orderly(turn_of(state).frame(frame)),
        replaces_nothing(turn_of(state).frame(frame).effects),
        turn_of(state).frame(frame).effects.len() <= 3,
        learned_nothing(state.shell.after_frame(frame).0, turn_of(state).frame(frame).state.shell),
{
    reveal(Turn::frame);
    let t = turn_of(state);
    let (shell, update) = state.shell.after_frame(frame);
    let moved = ReducerView { shell, ..state };
    let prompt = frame.content matches Ok(event) && event is PromptReady;
    lemma_shell_update(t.to(moved), update, prompt);
    lemma_orderly(moved, t.frame(frame), 3, false);
    if !(update is BufferSynchronized || update is PromptReady) {
        lemma_other_reports_teach_nothing(state.shell, frame);
    }
}

/// Output of the shell only clears suggestions and asks for a snapshot.
pub proof fn law_output_replaces_nothing(state: ReducerView)
    requires
        consistent(state),
    ensures
        orderly(turn_of(state).shell_output()),
        replaces_nothing(turn_of(state).shell_output().effects),
        turn_of(state).shell_output().state.completion == state.with_completion_dismissed().completion,
        learned_nothing(state.shell, turn_of(state).shell_output().state.shell),
{
    reveal(Turn::shell_output);
    reveal(Turn::drop_history);
    reveal(Turn::issue_probe);
    reveal(Turn::probe_sent);
    reveal(Turn::probe_refused);
    let t = turn_of(state);
    let dropped = t.drop_history();
    lemma_drop_history(t);
    lemma_clear_completion(t);
    let needed = ReducerView { probe_needed: true, ..dropped.state };
    lemma_issue_probe(dropped.to(needed), false);
    lemma_moved(dropped, needed, t.shell_output(), 1, false);
    lemma_adds_chain(t, dropped, t.shell_output(), 1, 1, false, false);
    lemma_orderly(state, t.shell_output(), 2, false);
}

/// A new directory or row limit replaces nothing and sends nothing.
pub proof fn law_restarts_replace_nothing(state: ReducerView)
    requires
        consistent(state),
    ensures
        orderly(turn_of(state).restart_or_defer()),
        replaces_nothing(turn_of(state).restart_or_defer().effects),
        learned_nothing(state.shell, turn_of(state).restart_or_defer().state.shell),
{
    reveal(Turn::restart_or_defer);
    let t = turn_of(state);
    let cleared = t.clear_completion();
    let after = t.restart_or_defer();
    lemma_clear_completion(t);
    lemma_safe_is_unfenced(cleared.state);
    if cleared.state.safe() {
        lemma_start_query(cleared);
    }
    let deferred = ReducerView { restart_deferred: true, ..cleared.state };
    lemma_adds_nothing(cleared, deferred);
    lemma_adds_weaken(cleared, cleared.to(deferred), 0, 1, false, false);
    lemma_adds_chain(t, cleared, after, 1, 1, false, false);
    lemma_orderly(state, after, 2, false);
}

proof fn lemma_rankings_keep_the_query(
    completion: CoordinatorView,
    generation: u64,
    ranked: Seq<Suggestion>,
)
    ensures
        completion.after_ranking(generation, ranked).0.active == completion.active,
{
    reveal(CoordinatorView::after_ranking);
}

/// A ranking requests a replacement only together with its snapshot, and only
/// where a recalled history entry waits for it.
pub proof fn law_rankings_are_orderly(state: ReducerView, generation: u64, ranked: Seq<Suggestion>)
    requires
        consistent(state),
    ensures
        orderly(turn_of(state).ranking(generation, ranked)),
        !state.recall_when_ready ==> replaces_nothing(
            turn_of(state).ranking(generation, ranked).effects,
        ),
        learned_nothing(state.shell, turn_of(state).ranking(generation, ranked).state.shell),
{
    reveal(Turn::ranking);
    reveal(Turn::presented);
    let t = turn_of(state);
    let (completion, outcome) = state.completion.after_ranking(generation, ranked);
    let applied = t.to(ReducerView { completion, ..state });
    let after = t.ranking(generation, ranked);
    lemma_rankings_keep_the_query(state.completion, generation, ranked);
    lemma_adds_nothing(t, applied.state);
    lemma_refresh_or_clear(applied);
    lemma_issue_probe(applied, false);
    if !(outcome is Applied) {
        lemma_moved(t, applied.state, after, 1, false);
        lemma_orderly(state, after, 1, false);
    } else {
        let shown = applied.presented();
        lemma_issue_probe(shown, false);
        if state.recall_when_ready {
            let taken = applied.to(ReducerView { recall_when_ready: false, ..applied.state });
            lemma_preview_selected(taken);
            let (previewed, done) = taken.preview_selected();
            lemma_refresh_or_clear(previewed);
            if done {
                lemma_adds_chain(taken, shown, after, 3, 1, true, false);
            } else {
                lemma_adds_chain(taken, previewed, shown, 2, 1, false, false);
                lemma_adds_chain(taken, shown, after, 3, 1, false, false);
                lemma_adds_weaken(taken, after, 4, 4, false, true);
            }
            lemma_moved(applied, taken.state, after, 4, true);
            lemma_moved(t, applied.state, after, 4, true);
            lemma_orderly(state, after, 4, true);
        } else {
            lemma_adds_chain(applied, shown, after, 1, 1, false, false);
            lemma_moved(t, applied.state, after, 2, false);
            lemma_orderly(state, after, 2, false);
        }
    }
}

/// A ranking of an older query changes no suggestion and may only ask for a
/// snapshot.
pub proof fn law_old_rankings_change_nothing(
    state: ReducerView,
    generation: u64,
    ranked: Seq<Suggestion>,
)
    requires
        state.completion.refusal(generation) is Some,
    ensures
        turn_of(state).ranking(generation, ranked) == turn_of(state).issue_probe(false),
        turn_of(state).ranking(generation, ranked).state.completion == state.completion,
{
    reveal(Turn::ranking);
    reveal(Turn::issue_probe);
    reveal(Turn::probe_sent);
    reveal(Turn::probe_refused);
    reveal(CoordinatorView::after_ranking);
}

/// An alias edit is ignored unless it answers the active query and the buffer
/// may be changed; then the replacement comes with its snapshot.
pub proof fn law_alias_edits_are_orderly(
    state: ReducerView,
    generation: u64,
    start: int,
    end: int,
    replacement: Seq<char>,
)
    requires
        consistent(state),
    ensures
        orderly(turn_of(state).alias(generation, start, end, replacement)),
        !state.safe() || !(state.completion.active matches Some(query) && query.generation == generation)
            ==> turn_of(state).alias(generation, start, end, replacement) == turn_of(state),
        learned_nothing(
            state.shell,
            turn_of(state).alias(generation, start, end, replacement).state.shell,
        ),
{
    reveal(Turn::alias);
    reveal(ReducerView::alias_replacement);
    let t = turn_of(state);
    let after = t.alias(generation, start, end, replacement);
    lemma_safe_is_unfenced(state);
    lemma_adds_nothing(t, state);
    if state.safe() {
        match state.alias_replacement(generation, start, end, replacement) {
            Some(wanted) => {
                lemma_begin_replacement(t, wanted, ReplacementKind::AliasExpansion);
                if t.begin_replacement(wanted, ReplacementKind::AliasExpansion).1 {
                    lemma_orderly(state, after, 3, true);
                } else {
                    lemma_orderly(state, after, 2, false);
                }
            },
            None => {
                lemma_orderly(state, after, 0, false);
            },
        }
    } else {
        lemma_orderly(state, after, 0, false);
    }
}

/// A requested replacement is no fact: until the shell reports again, nothing
/// is known of the buffer and no local action may change it.
pub proof fn law_requests_are_not_authority(t: Turn, replacement: ReplacementView, kind: ReplacementKind)
    ensures
        ({
            let (after, done) = t.begin_replacement(replacement, kind);
            &&& after.state.shell.buffer is None
            &&& !after.state.safe()
            &&& done ==> after.state.pending == Some((replacement, kind))
        }),
{
    reveal(Turn::begin_replacement);
    reveal(Turn::request_pair);
    reveal(Turn::pair_sent);
    reveal(Turn::pair_refused);
    reveal(Turn::probe_refused);
    reveal(Turn::clear_completion);
    reveal(ReducerView::safe);
    reveal(SessionStateView::after_input);
    reveal(SessionStateView::after_probe);
}

/// Accepted reports of the shell are the only source of what is believed of its
/// buffer: neither input nor output, a ranking, an alias edit, a new directory
/// or a new row limit ever gives the session a buffer that it did not have, or
/// lets it suggest where it could not.
pub proof fn law_only_reports_are_believed(
    state: ReducerView,
    events: Seq<InputEventView>,
    generation: u64,
    ranked: Seq<Suggestion>,
    start: int,
    end: int,
    replacement: Seq<char>,
)
    requires
        consistent(state),
        forall|i: int| 0 <= i < events.len() ==> as_routed(#[trigger] events[i]),
    ensures
        learned_nothing(state.shell, turn_of(state).input(events).state.shell),
        learned_nothing(state.shell, turn_of(state).shell_output().state.shell),
        learned_nothing(state.shell, turn_of(state).restart_or_defer().state.shell),
        learned_nothing(state.shell, turn_of(state).ranking(generation, ranked).state.shell),
        learned_nothing(
            state.shell,
            turn_of(state).alias(generation, start, end, replacement).state.shell,
        ),
{
    lemma_input(state, events);
    law_output_replaces_nothing(state);
    law_restarts_replace_nothing(state);
    law_rankings_are_orderly(state, generation, ranked);
    law_alias_edits_are_orderly(state, generation, start, end, replacement);
}

/// A session stays consistent whatever is typed, reported, ranked, replied or
/// changed: in every state that it reaches, a pending replacement is not taken
/// for the buffer, lets nothing be suggested and leaves no query active.
pub proof fn law_sessions_stay_consistent(
    state: ReducerView,
    router: RouterView,
    cwd: Seq<u8>,
    limit: usize,
    events: Seq<InputEventView>,
    frame: FrameView,
    generation: u64,
    suggestions: Seq<Suggestion>,
    provider: Seq<char>,
    start: int,
    end: int,
    replacement: Seq<char>,
)
    requires
        consistent(state),
        forall|i: int| 0 <= i < events.len() ==> as_routed(#[trigger] events[i]),
    ensures
        state.pending is Some ==> state.shell.buffer is None && !state.shell.suggests()
            && state.completion.active is None,
        consistent(turn_of(ReducerView { router, ..state }).input(events).state),
        consistent(turn_of(state).frame(frame).state),
        consistent(turn_of(state).shell_output().state),
        consistent(turn_of(state).ranking(generation, suggestions).state),
        consistent(turn_of(state).alias(generation, start, end, replacement).state),
        consistent(turn_of(ReducerView { cwd, ..state }).restart_or_defer().state),
        consistent(ReducerView { router, ..state }),
        consistent(
            turn_of(
                ReducerView {
                    router,
                    completion: CoordinatorView { limit, ..state.completion },
                    ..state
                },
            ).restart_or_defer().state,
        ),
        consistent(
            ReducerView {
                completion: state.completion.after_reply(provider, generation, suggestions).0,
                ..state
            },
        ),
{
    lemma_input(ReducerView { router, ..state }, events);
    law_reports_replace_nothing(state, frame);
    law_output_replaces_nothing(state);
    law_rankings_are_orderly(state, generation, suggestions);
    law_alias_edits_are_orderly(state, generation, start, end, replacement);
    law_restarts_replace_nothing(ReducerView { cwd, ..state });
    law_restarts_replace_nothing(
        ReducerView { router, completion: CoordinatorView { limit, ..state.completion }, ..state },
    );
    reveal(CoordinatorView::after_reply);
}

/// Enter on a deliberately selected suggestion asks the shell to take that
/// suggestion, and only then for it to be run: the overlay is cleared, the buffer
/// is replaced, its snapshot is requested, and the key follows. Every other Enter
/// leaves the buffer alone.
pub proof fn law_enter_runs_a_deliberate_selection(t: Turn, event: InputEventView)
    requires
        consistent(t.state),
        event.action == Some(InputAction::Enter),
        event.forwarding is Immediate,
        event.bytes.len() > 0,
    ensures
        t.state.deliberately_selected() && t.state.shell.probe_refusal() is None
            && t.state.shell.input_generation.sequence < u64::MAX ==> t.key(event).effects
            == t.effects + seq![
            EffectView::ClearOverlay,
            EffectView::ReplaceBuffer(t.state.selected_replacement()->0),
            EffectView::RequestBufferSync((t.state.shell.last_nonce->0 + 1) as u64),
            EffectView::ClearOverlay,
            EffectView::ForwardInput(event.bytes),
        ],
        !t.state.deliberately_selected() && !t.state.fence ==> t.key(event).effects == t.effects + seq![
            EffectView::ClearOverlay,
            EffectView::ForwardInput(event.bytes),
        ],
{
    reveal(Turn::key);
    reveal(Turn::collapse_boundaries);
    reveal(Turn::handle);
    reveal(Turn::prepare);
    reveal(Turn::enter);
    reveal(Turn::note_forward);
    reveal(Turn::boundary);
    if t.state.deliberately_selected() {
        reveal(ReducerView::deliberately_selected);
        reveal(ReducerView::safe);
        reveal(Turn::replace_with_selected);
        reveal(Turn::begin_replacement);
        reveal(Turn::request_pair);
        reveal(Turn::pair_sent);
        reveal(SessionStateView::after_input);
    }
    let added = if t.state.deliberately_selected() {
        seq![
            EffectView::ClearOverlay,
            EffectView::ReplaceBuffer(t.state.selected_replacement()->0),
            EffectView::RequestBufferSync((t.state.shell.last_nonce->0 + 1) as u64),
            EffectView::ClearOverlay,
            EffectView::ForwardInput(event.bytes),
        ]
    } else {
        seq![EffectView::ClearOverlay, EffectView::ForwardInput(event.bytes)]
    };
    if !t.state.fence && (t.state.deliberately_selected() ==> t.state.shell.probe_refusal() is None
        && t.state.shell.input_generation.sequence < u64::MAX) {
        assert(t.key(event).effects =~= t.effects + added);
    }
}

/// A new session is consistent.
pub proof fn law_new_sessions_are_consistent(
    epoch: u64,
    toggle_mode: Seq<u8>,
    toggle_menu: Seq<u8>,
    providers: Seq<Seq<char>>,
    limit: usize,
    cwd: Seq<u8>,
    mode: SessionMode,
)
    ensures
        consistent(
            fresh_session(epoch, toggle_mode, toggle_menu, providers, limit, cwd, mode),
        ),
{
}

/// Terminal input in which no key may be handled here reaches the shell
/// unchanged: what was retained and what is read now go out in order, up to
/// what is retained or left to the caller.
pub proof fn law_terminal_input_is_transparent(state: ReducerView, router: RouterView, input: Seq<u8>)
    requires
        state.inv(),
        consistent(state),
        forall|i: int|
            0 <= i < session_routing(state, input).events.len() ==> (#[trigger] session_routing(
                state,
                input,
            ).events[i].action matches Some(action) ==> !may_act(action)),
    ensures
        ({
            let routing = session_routing(state, input);
            let after = turn_of(ReducerView { router, ..state }).input(routing.events);
            forwarded_bytes(after.effects) + routing.rest == state.router.pending + input
        }),
{
    let all = state.router.pending + input;
    let routing = session_routing(state, input);
    law_routing_is_byte_exact(state.router, all, MAX_ROUTE_BATCH_EVENTS as nat);
    law_keys_follow_their_meaning(state.router, all, MAX_ROUTE_BATCH_EVENTS as nat);
    assert forall|i: int| 0 <= i < routing.events.len() implies as_routed(
        #[trigger] routing.events[i],
    ) by {
        assert(session_routing(state, input).events[i] == routing.events[i]);
    }
    let moved = ReducerView { router, ..state };
    law_input_is_forwarded_exactly(moved, routing.events);
    law_plain_input_is_transparent(turn_of(moved), routing.events);
}

/// Every call on raw terminal input keeps the session consistent, requests
/// replacements only with their snapshot, and has a bounded number of effects.
pub proof fn law_terminal_input_is_orderly(state: ReducerView, router: RouterView, input: Seq<u8>)
    requires
        state.inv(),
        consistent(state),
    ensures
        ({
            let routing = session_routing(state, input);
            let after = turn_of(ReducerView { router, ..state }).input(routing.events);
            &&& consistent(after.state)
            &&& paired(after.effects)
            &&& after.effects.len() <= MAX_SESSION_EFFECTS
        }),
{
    let all = state.router.pending + input;
    let routing = session_routing(state, input);
    let moved = ReducerView { router, ..state };
    law_routing_is_byte_exact(state.router, all, MAX_ROUTE_BATCH_EVENTS as nat);
    law_keys_follow_their_meaning(state.router, all, MAX_ROUTE_BATCH_EVENTS as nat);
    assert forall|i: int| 0 <= i < routing.events.len() implies as_routed(
        #[trigger] routing.events[i],
    ) by {
        assert(session_routing(state, input).events[i] == routing.events[i]);
    }
    law_input_is_forwarded_exactly(moved, routing.events);
    law_input_effects_are_bounded(moved, routing.events);
}

/// How one call cuts retained and new terminal input into keys.
pub open spec fn session_routing(state: ReducerView, input: Seq<u8>) -> Routing {
    routed(state.router, state.router.pending + input, MAX_ROUTE_BATCH_EVENTS as nat)
}

} // verus!
