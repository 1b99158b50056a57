//! What each key does at a prompt, said of the buffer, the menu and the bytes
//! that go to the shell.

use vstd::prelude::*;
use vstd::utf8::*;

use crate::completion::{law_accepted_suggestions_edit_their_range, QueryView, Suggestion};
use crate::coordinator::{CoordinatorView, MAX_QUERY_CWD_BYTES, MAX_QUERY_LINE_BYTES};
use crate::input::{InputAction, InputEventView};
use crate::selection::{char_lowercase, law_ghost_text_continues_what_was_typed, SelectionView};
use crate::session::{EffectView, ReplacementKind, ReplacementView, SessionMode};
use crate::session_model::{may_act, ReducerView, Turn};
use crate::shell_events::SessionStateView;
use crate::text::lemma_boundary_between;

verus! {

/// Whether the user edits at a prompt whose buffer is known: nothing runs,
/// nothing is pasted, and neither a requested replacement nor a forwarded Enter
/// waits for its answer.
pub open spec fn editing(state: ReducerView) -> bool {
    &&& state.shell.synchronization is Synchronized
    &&& state.shell.foreground is Idle
    &&& state.shell.prompt_ready
    &&& state.shell.capability is Native || state.shell.capability is Probe
    &&& state.pending is None
    &&& !state.paste_active
    &&& !state.router.paste
    &&& !state.fence
}

/// Whether the shell can be asked for a snapshot now, and its input counted.
pub open spec fn probeable(state: ReducerView) -> bool {
    &&& state.shell.foreground is Idle
    &&& state.shell.prompt_ready
    &&& state.shell.capability is Probe
    &&& state.shell.pending_probe is None
    &&& state.shell.last_nonce matches Some(nonce) && nonce < u64::MAX
    &&& state.shell.input_generation.sequence < u64::MAX
}

/// Whether the shell can be asked to replace its buffer, which is known, now.
pub open spec fn replaceable(state: ReducerView) -> bool {
    editing(state) && probeable(state)
}

/// Whether some rows show.
pub open spec fn showing(selection: SelectionView) -> bool {
    &&& selection.layer_enabled
    &&& !selection.hidden
    &&& selection.selected matches Some(row) && row < selection.candidates.len()
}

/// Whether a query about this text can be asked.
pub open spec fn askable(state: ReducerView, text: Seq<char>, cursor: int) -> bool {
    &&& encode_utf8(text).len() <= MAX_QUERY_LINE_BYTES
    &&& is_char_boundary(encode_utf8(text), cursor)
    &&& state.completion.next_generation is Some
    &&& 0 < state.cwd.len() <= MAX_QUERY_CWD_BYTES
    &&& state.cwd[0] == 47
}

/// Query about this text in the directory of the session.
pub open spec fn query_about(state: ReducerView, text: Seq<char>, cursor: int) -> QueryView {
    QueryView { generation: state.completion.next_generation->0, line: text, cursor, cwd: state.cwd }
}

/// Text that a suggestion puts into the line.
pub open spec fn put_in(candidate: Suggestion) -> Seq<char> {
    match candidate.insertion {
        crate::completion::InsertionBehavior::AppendSpace => candidate.edit.replacement@.push(' '),
        crate::completion::InsertionBehavior::Exact => candidate.edit.replacement@,
    }
}

/// Bytes of a line in which a suggestion was accepted.
pub open spec fn accepted_bytes(candidate: Suggestion, line: Seq<char>) -> Seq<u8> {
    let bytes = encode_utf8(line);
    bytes.subrange(0, candidate.edit.range.start as int) + encode_utf8(put_in(candidate))
        + bytes.subrange(candidate.edit.range.end as int, bytes.len() as int)
}

/// Whether a suggestion delimits characters of a line and its result fits into an
/// editing buffer.
pub open spec fn acceptable(candidate: Suggestion, line: Seq<char>) -> bool {
    &&& candidate.edit.range.start <= candidate.edit.range.end
    &&& is_char_boundary(encode_utf8(line), candidate.edit.range.start as int)
    &&& is_char_boundary(encode_utf8(line), candidate.edit.range.end as int)
    &&& accepted_bytes(candidate, line).len() <= MAX_QUERY_LINE_BYTES
}

/// Whether a turn requests exactly one replacement beyond another: the overlay is
/// cleared, the buffer is to be replaced, and the snapshot with the next nonce
/// is requested. The replacement is kept as requested for that reason.
pub open spec fn requests(
    before: Turn,
    after: Turn,
    replacement: ReplacementView,
    kind: ReplacementKind,
) -> bool {
    &&& after.effects == before.effects.push(EffectView::ClearOverlay).push(
        EffectView::ReplaceBuffer(replacement),
    ).push(EffectView::RequestBufferSync((before.state.shell.last_nonce->0 + 1) as u64))
    &&& after.state.pending == Some((replacement, kind))
    &&& after.state.completion.active is None
    &&& after.state.shell.buffer is None
}

pub proof fn lemma_editing_is_safe(state: ReducerView)
    ensures
        editing(state) <==> state.safe(),
{
    reveal(ReducerView::safe);
}

pub proof fn lemma_requested(t: Turn, replacement: ReplacementView, kind: ReplacementKind)
    requires
        probeable(t.state),
    ensures
        t.begin_replacement(replacement, kind).1,
        requests(t, t.begin_replacement(replacement, kind).0, replacement, kind),
        ({
            let after = t.begin_replacement(replacement, kind).0.state;
            &&& after.mode == t.state.mode
            &&& after.cwd == t.state.cwd
            &&& kind is HistoryPreview ==> after.origin == t.state.origin
            &&& after.fence == t.state.fence
        }),
{
    reveal(Turn::begin_replacement);
    reveal(Turn::request_pair);
    reveal(Turn::pair_sent);
    reveal(SessionStateView::after_input);
    reveal(SessionStateView::after_probe);
}

/// The replacement of a selected suggestion is its edit of the query's line: all
/// bytes outside its range stay, and the cursor stands behind what was put in.
pub proof fn law_selected_replacements_edit_the_line(state: ReducerView, query: QueryView, row: usize)
    requires
        state.completion.active == Some(query),
        state.completion.selection.selected == Some(row),
        row < state.completion.selection.candidates.len(),
    ensures
        ({
            let candidate = state.completion.selection.candidates[row as int];
            &&& state.selected_replacement() is Some <==> acceptable(candidate, query.line)
            &&& state.selected_replacement() matches Some(replacement) ==> {
                &&& encode_utf8(replacement.text) == accepted_bytes(candidate, query.line)
                &&& replacement.cursor == candidate.edit.range.start + encode_utf8(
                    put_in(candidate),
                ).len()
            }
        }),
{
    reveal(ReducerView::selected_replacement);
    let candidate = state.completion.selection.candidates[row as int];
    law_accepted_suggestions_edit_their_range(candidate, query.line);
    if let Some(text) = candidate.accepted_line(query.line) {
        let bytes = encode_utf8(query.line);
        let start = candidate.edit.range.start as int;
        let end = candidate.edit.range.end as int;
        crate::text::law_cut_texts_are_their_bytes(query.line, start);
        crate::text::law_cut_texts_are_their_bytes(query.line, end);
        let front = crate::text::text_before(query.line, start) + candidate.inserted();
        let back = crate::text::text_behind(query.line, end);
        assert(text == front + back);
        crate::text::lemma_encode_concat(
            crate::text::text_before(query.line, start),
            candidate.inserted(),
        );
        lemma_boundary_between(front, back);
    }
}

/// Tab accepts the suggestion that shows: the shell is asked for the line with
/// exactly the suggestion's range replaced, everything else kept, and the cursor
/// behind what was put in. The key does not go to the shell.
pub proof fn law_tab_accepts_the_selected_suggestion(
    t: Turn,
    event: InputEventView,
    query: QueryView,
    row: usize,
)
    requires
        event.action == Some(InputAction::Tab),
        event.forwarding is OnFallback,
        replaceable(t.state),
        showing(t.state.completion.selection),
        t.state.completion.active == Some(query),
        t.state.completion.selection.selected == Some(row),
        acceptable(t.state.completion.selection.candidates[row as int], query.line),
    ensures
        ({
            let candidate = t.state.completion.selection.candidates[row as int];
            let after = t.key(event);
            &&& after.state.pending matches Some((replacement, kind))
            &&& kind is Acceptance
            &&& encode_utf8(replacement.text) == accepted_bytes(candidate, query.line)
            &&& replacement.cursor == candidate.edit.range.start + encode_utf8(put_in(candidate)).len()
            &&& requests(t, after, replacement, kind)
            &&& after.state.mode == t.state.mode
        }),
{
    law_selected_replacements_edit_the_line(t.state, query, row);
    lemma_editing_is_safe(t.state);
    lemma_requested(t, t.state.selected_replacement()->0, ReplacementKind::Acceptance);
    reveal(Turn::key);
    reveal(Turn::collapse_boundaries);
    reveal(Turn::handle);
    reveal(Turn::act);
    reveal(Turn::tab);
    reveal(Turn::replace_with_selected);
}

/// Enter on a suggestion that the user moved to asks the shell for that
/// suggestion's line first, edited as by Tab, and then sends the key.
pub proof fn law_enter_accepts_a_moved_selection(
    t: Turn,
    event: InputEventView,
    query: QueryView,
    row: usize,
)
    requires
        event.action == Some(InputAction::Enter),
        event.forwarding is Immediate,
        event.bytes.len() > 0,
        replaceable(t.state),
        showing(t.state.completion.selection),
        t.state.completion.selection.navigated,
        t.state.completion.active == Some(query),
        t.state.completion.selection.selected == Some(row),
        acceptable(t.state.completion.selection.candidates[row as int], query.line),
    ensures
        ({
            let candidate = t.state.completion.selection.candidates[row as int];
            let effects = t.key(event).effects;
            let sent = t.effects.len() as int;
            &&& effects.len() == sent + 5
            &&& effects.subrange(0, sent) == t.effects
            &&& effects[sent] == EffectView::ClearOverlay
            &&& effects[sent + 1] matches EffectView::ReplaceBuffer(replacement)
            &&& encode_utf8(replacement.text) == accepted_bytes(candidate, query.line)
            &&& replacement.cursor == candidate.edit.range.start + encode_utf8(put_in(candidate)).len()
            &&& effects[sent + 2] is RequestBufferSync
            &&& effects[sent + 3] == EffectView::ClearOverlay
            &&& effects[sent + 4] == EffectView::ForwardInput(event.bytes)
            &&& t.key(event).state.fence
        }),
{
    law_selected_replacements_edit_the_line(t.state, query, row);
    lemma_editing_is_safe(t.state);
    lemma_requested(t, t.state.selected_replacement()->0, ReplacementKind::Acceptance);
    reveal(Turn::key);
    reveal(Turn::collapse_boundaries);
    reveal(Turn::handle);
    reveal(Turn::prepare);
    reveal(Turn::enter);
    reveal(Turn::boundary);
    reveal(Turn::note_forward);
    reveal(Turn::replace_with_selected);
    reveal(ReducerView::deliberately_selected);
    let effects = t.key(event).effects;
    assert(effects.subrange(0, t.effects.len() as int) =~= t.effects);
}

/// Enter without a choice of the user's own, and Ctrl+C in any case, only clear
/// the overlay and go to the shell; what was browsed or selected is dropped, and
/// nothing is believed until the shell reports again.
pub proof fn law_boundaries_go_to_the_shell(t: Turn, event: InputEventView)
    requires
        event.action == Some(InputAction::CtrlC) || (event.action == Some(InputAction::Enter)
            && !t.state.completion.selection.navigated),
        event.forwarding is Immediate,
        event.bytes.len() > 0,
        !t.state.fence,
    ensures
        t.key(event).effects == t.effects.push(EffectView::ClearOverlay).push(
            EffectView::ForwardInput(event.bytes),
        ),
        t.key(event).state.fence,
        t.key(event).state.queued_boundaries == 1,
        t.key(event).state.pending is None,
        t.key(event).state.origin is None,
        !t.key(event).state.preview_active,
        t.key(event).state.completion.active is None,
        t.key(event).state.completion.selection.hidden,
        t.key(event).state.mode == t.state.mode,
        t.key(event).state.cwd == t.state.cwd,
{
    reveal(Turn::key);
    reveal(Turn::collapse_boundaries);
    reveal(Turn::handle);
    reveal(Turn::prepare);
    reveal(Turn::enter);
    reveal(Turn::boundary);
    reveal(Turn::note_forward);
    reveal(ReducerView::deliberately_selected);
}

/// Either arrow opens recent history from an empty prompt where nothing shows:
/// the mode changes, a query about the empty buffer starts in history, its first
/// result is to be previewed, and the key does not go to the shell.
pub proof fn law_arrows_open_history_at_an_empty_prompt(t: Turn, event: InputEventView)
    requires
        event.action == Some(InputAction::ArrowUp) || event.action == Some(InputAction::ArrowDown),
        event.forwarding is OnFallback,
        editing(t.state),
        !t.state.completion.selection.layer_enabled || t.state.completion.selection.hidden
            || t.state.completion.selection.selected is None,
        t.state.shell.buffer matches Some(snapshot) && snapshot.bytes.len() == 0 && snapshot.cursor == 0,
        askable(t.state, Seq::empty(), 0),
    ensures
        t.key(event).effects == t.effects.push(EffectView::ClearOverlay).push(
            EffectView::ModeChanged(SessionMode::History),
        ).push(
            EffectView::StartQuery {
                mode: SessionMode::History,
                alias_expansion: false,
                query: query_about(t.state, Seq::empty(), 0),
            },
        ),
        t.key(event).state.mode is History,
        t.key(event).state.recall_when_ready,
        !t.key(event).state.preview_active,
        t.key(event).state.origin == Some(ReplacementView { text: Seq::empty(), cursor: 0 }),
        t.key(event).state.completion.active == Some(query_about(t.state, Seq::empty(), 0)),
{
    lemma_editing_is_safe(t.state);
    let snapshot = t.state.shell.buffer->0;
    assert(snapshot.bytes =~= Seq::<u8>::empty());
    assert(decode_utf8(Seq::<u8>::empty()) =~= Seq::<char>::empty());
    assert(encode_utf8(Seq::<char>::empty()) =~= Seq::<u8>::empty());
    reveal(Turn::key);
    reveal(Turn::collapse_boundaries);
    reveal(Turn::handle);
    reveal(Turn::act);
    reveal(Turn::vertical);
    reveal(Turn::recall_history);
    reveal(Turn::clear_completion);
    reveal(Turn::enter_history);
    reveal(Turn::start_query);
    reveal(Turn::ask);
    reveal(ReducerView::authoritative);
    reveal(ReducerView::buffer_text);
    reveal(ReducerView::query_text);
    reveal(CoordinatorView::start_error);
    reveal(CoordinatorView::after_start);
}

/// An arrow on a menu of suggestions moves the selection by one row, as far as
/// there is one, redraws, and does not go to the shell.
pub proof fn law_arrows_move_the_selection(t: Turn, event: InputEventView, row: usize)
    requires
        event.action == Some(InputAction::ArrowUp) || event.action == Some(InputAction::ArrowDown),
        event.forwarding is OnFallback,
        editing(t.state),
        t.state.mode is Spec,
        showing(t.state.completion.selection),
        t.state.completion.selection.selected == Some(row),
        t.state.completion.selection.candidates.len() <= usize::MAX,
    ensures
        ({
            let after = t.key(event);
            let selection = after.state.completion.selection;
            &&& after.effects == t.effects.push(EffectView::RefreshOverlay)
            &&& selection.candidates == t.state.completion.selection.candidates
            &&& selection.navigated
            &&& selection.selected is Some
            &&& event.action == Some(InputAction::ArrowUp) ==> selection.selected->0 == if row > 0 {
                row - 1
            } else {
                0
            }
            &&& event.action == Some(InputAction::ArrowDown) ==> selection.selected->0 == if row + 1
                < selection.candidates.len() {
                row + 1
            } else {
                row as int
            }
            &&& after.state.completion.active == t.state.completion.active
            &&& after.state.mode is Spec
            &&& after.state.pending is None
            &&& after.state.shell == t.state.shell
        }),
{
    lemma_editing_is_safe(t.state);
    reveal(Turn::key);
    reveal(Turn::collapse_boundaries);
    reveal(Turn::handle);
    reveal(Turn::act);
    reveal(Turn::vertical);
    reveal(Turn::move_selection);
    reveal(Turn::show_moved);
}

/// A history entry that is selected can be previewed: the shell is asked for its
/// line, and the buffer from before is kept, unless one is kept already.
pub proof fn lemma_previewed(t: Turn, query: QueryView, row: usize)
    requires
        replaceable(t.state),
        t.state.mode is History,
        t.state.completion.active == Some(query),
        t.state.completion.selection.selected == Some(row),
        row < t.state.completion.selection.candidates.len(),
        t.state.completion.selection.candidates[row as int].source is History,
        acceptable(t.state.completion.selection.candidates[row as int], query.line),
        t.state.origin is Some || (t.state.shell.buffer matches Some(snapshot) && valid_utf8(
            snapshot.bytes,
        ) && snapshot.bytes.len() <= MAX_QUERY_LINE_BYTES && is_char_boundary(
            snapshot.bytes,
            snapshot.cursor,
        )),
    ensures
        ({
            let candidate = t.state.completion.selection.candidates[row as int];
            let (after, done) = t.preview_selected();
            &&& done
            &&& after.state.pending matches Some((replacement, kind))
            &&& kind is HistoryPreview
            &&& encode_utf8(replacement.text) == accepted_bytes(candidate, query.line)
            &&& replacement.cursor == candidate.edit.range.start + encode_utf8(put_in(candidate)).len()
            &&& requests(t, after, replacement, kind)
            &&& after.state.mode is History
            &&& t.state.origin is Some ==> after.state.origin == t.state.origin
            &&& t.state.origin is None ==> after.state.origin == Some(
                ReplacementView {
                    text: decode_utf8(t.state.shell.buffer->0.bytes),
                    cursor: t.state.shell.buffer->0.cursor,
                },
            )
        }),
{
    let remembered = t.to(
        ReducerView {
            origin: if t.state.origin is None {
                t.state.authoritative()
            } else {
                t.state.origin
            },
            ..t.state
        },
    );
    law_selected_replacements_edit_the_line(remembered.state, query, row);
    lemma_requested(
        remembered,
        remembered.state.selected_replacement()->0,
        ReplacementKind::HistoryPreview,
    );
    reveal(Turn::preview_selected);
    reveal(Turn::replace_with_selected);
    if t.state.origin is None {
        reveal(ReducerView::authoritative);
        reveal(ReducerView::buffer_text);
        decode_utf8_encode_utf8(t.state.shell.buffer->0.bytes);
    }
}

/// An arrow in history previews the entry that it moves to: the shell is asked
/// for that entry's line, and the buffer from before is kept to come back to.
pub proof fn law_arrows_preview_history(
    t: Turn,
    event: InputEventView,
    query: QueryView,
    row: usize,
    next: usize,
)
    requires
        event.action == Some(InputAction::ArrowUp) || event.action == Some(InputAction::ArrowDown),
        event.forwarding is OnFallback,
        replaceable(t.state),
        t.state.mode is History,
        showing(t.state.completion.selection),
        t.state.completion.active == Some(query),
        t.state.completion.selection.selected == Some(row),
        t.state.completion.selection.candidates.len() <= usize::MAX,
        event.action == Some(InputAction::ArrowUp) ==> next == if row > 0 {
            row - 1
        } else {
            0
        },
        event.action == Some(InputAction::ArrowDown) ==> next == if row + 1
            < t.state.completion.selection.candidates.len() {
            row + 1
        } else {
            row as int
        },
        t.state.completion.selection.candidates[next as int].source is History,
        acceptable(t.state.completion.selection.candidates[next as int], query.line),
        t.state.origin is Some || (t.state.shell.buffer matches Some(snapshot) && valid_utf8(
            snapshot.bytes,
        ) && snapshot.bytes.len() <= MAX_QUERY_LINE_BYTES && is_char_boundary(
            snapshot.bytes,
            snapshot.cursor,
        )),
    ensures
        ({
            let candidate = t.state.completion.selection.candidates[next as int];
            let after = t.key(event);
            &&& after.state.pending matches Some((replacement, kind))
            &&& kind is HistoryPreview
            &&& encode_utf8(replacement.text) == accepted_bytes(candidate, query.line)
            &&& replacement.cursor == candidate.edit.range.start + encode_utf8(put_in(candidate)).len()
            &&& requests(t, after, replacement, kind)
            &&& after.state.mode is History
            &&& t.state.origin is Some ==> after.state.origin == t.state.origin
            &&& t.state.origin is None ==> after.state.origin == Some(
                ReplacementView {
                    text: decode_utf8(t.state.shell.buffer->0.bytes),
                    cursor: t.state.shell.buffer->0.cursor,
                },
            )
        }),
{
    let down = event.action == Some(InputAction::ArrowDown);
    let moved = t.move_selection(down);
    assert(moved.effects == t.effects && moved.state == (ReducerView {
        completion: moved.state.completion,
        ..t.state
    }) && moved.state.completion.selection.selected == Some(next)
        && moved.state.completion.selection.candidates == t.state.completion.selection.candidates
        && moved.state.completion.active == Some(query)) by {
        reveal(Turn::move_selection);
    }
    lemma_previewed(moved, query, next);
    assert(t.key(event) == moved.preview_selected().0) by {
        lemma_editing_is_safe(t.state);
        reveal(Turn::key);
        reveal(Turn::collapse_boundaries);
        reveal(Turn::handle);
        reveal(Turn::act);
        reveal(Turn::vertical);
        reveal(Turn::show_moved);
    }
}

/// Tab brings back rows that were hidden, and goes to the shell where there is
/// nothing to accept or to bring back.
pub proof fn law_tab_brings_hidden_rows_back(t: Turn, event: InputEventView)
    requires
        event.action == Some(InputAction::Tab),
        event.forwarding is OnFallback,
        event.bytes.len() > 0,
        editing(t.state),
    ensures
        ({
            let selection = t.state.completion.selection;
            let after = t.key(event);
            &&& selection.layer_enabled && selection.hidden && selection.candidates.len() > 0 ==> {
                &&& after.effects == t.effects.push(EffectView::RefreshOverlay)
                &&& !after.state.completion.selection.hidden
                &&& after.state.completion.selection.candidates == selection.candidates
                &&& after.state.completion.selection.selected == selection.selected
                &&& after.state.pending is None
            }
            &&& !selection.layer_enabled || (selection.selected is None && selection.candidates.len()
                == 0) ==> after.effects.len() > 0 && after.effects.last() == EffectView::ForwardInput(
                event.bytes,
            )
        }),
{
    lemma_editing_is_safe(t.state);
    reveal(Turn::key);
    reveal(Turn::collapse_boundaries);
    reveal(Turn::handle);
    reveal(Turn::act);
    reveal(Turn::tab);
    lemma_edits_end_in_a_clear(t, false);
    reveal(Turn::note_forward);
}

proof fn lemma_edits_end_in_a_clear(t: Turn, typed_space: bool)
    ensures
        t.observe_edit(typed_space).effects.len() > 0,
        t.observe_edit(typed_space).effects.last() == EffectView::ClearOverlay,
        t.state.shell.input_generation.sequence < u64::MAX ==> t.observe_edit(typed_space).effects
            == t.effects.push(EffectView::ClearOverlay),
{
    reveal(Turn::observe_edit);
    reveal(Turn::clear_completion);
    reveal(Turn::touch);
}

/// The right arrow at the end of the line accepts the ghost text: what was typed
/// stays as it was typed, what the suggestion has behind it follows, and the
/// cursor stands at the end. The key does not go to the shell.
pub proof fn law_right_arrow_accepts_the_ghost_text(
    t: Turn,
    event: InputEventView,
    query: QueryView,
    row: usize,
    whole: Seq<char>,
)
    requires
        event.action == Some(InputAction::ArrowRight),
        event.forwarding is OnFallback,
        replaceable(t.state),
        showing(t.state.completion.selection),
        t.state.completion.active == Some(query),
        t.state.completion.selection.selected == Some(row),
        query.cursor == encode_utf8(query.line).len(),
        acceptable(t.state.completion.selection.candidates[row as int], query.line),
        encode_utf8(whole) == accepted_bytes(
            t.state.completion.selection.candidates[row as int],
            query.line,
        ),
        query.line.len() < whole.len(),
        forall|i: int|
            0 <= i < query.line.len() ==> char_lowercase(#[trigger] query.line[i]) == char_lowercase(
                whole[i],
            ),
        encode_utf8(query.line + whole.subrange(query.line.len() as int, whole.len() as int)).len()
            <= MAX_QUERY_LINE_BYTES,
    ensures
        ({
            let after = t.key(event);
            &&& after.state.pending matches Some((replacement, kind))
            &&& kind is GhostText
            &&& replacement.text.len() == whole.len()
            &&& forall|i: int|
                0 <= i < query.line.len() ==> #[trigger] replacement.text[i] == query.line[i]
            &&& forall|i: int|
                query.line.len() <= i < whole.len() ==> #[trigger] replacement.text[i] == whole[i]
            &&& replacement.cursor == encode_utf8(replacement.text).len()
            &&& requests(t, after, replacement, kind)
        }),
{
    lemma_editing_is_safe(t.state);
    let candidate = t.state.completion.selection.candidates[row as int];
    law_accepted_suggestions_edit_their_range(candidate, query.line);
    let result = candidate.accepted_line(query.line)->0;
    assert(encode_utf8(result) == encode_utf8(whole));
    encode_utf8_decode_utf8(result);
    encode_utf8_decode_utf8(whole);
    assert(result == whole);
    law_ghost_text_continues_what_was_typed(query.line, whole);
    reveal(ReducerView::ghost_replacement);
    let text = query.line + whole.subrange(query.line.len() as int, whole.len() as int);
    encode_utf8_valid_utf8(text);
    is_char_boundary_start_end_of_seq(encode_utf8(text));
    lemma_requested(t, t.state.ghost_replacement()->0, ReplacementKind::GhostText);
    reveal(Turn::key);
    reveal(Turn::collapse_boundaries);
    reveal(Turn::handle);
    reveal(Turn::act);
    reveal(Turn::accept_ghost);
}

/// The right arrow goes to the shell where the cursor is not at the end of the
/// line, or where the suggestion does not continue what was typed.
pub proof fn law_right_arrow_moves_the_cursor_elsewhere(t: Turn, event: InputEventView, query: QueryView)
    requires
        event.action == Some(InputAction::ArrowRight),
        event.forwarding is OnFallback,
        event.bytes.len() > 0,
        !t.state.fence,
        t.state.completion.active == Some(query),
        query.cursor != encode_utf8(query.line).len(),
    ensures
        t.key(event).effects.last() == EffectView::ForwardInput(event.bytes),
        t.key(event).state.pending is None,
{
    reveal(ReducerView::ghost_replacement);
    reveal(Turn::key);
    reveal(Turn::collapse_boundaries);
    reveal(Turn::handle);
    reveal(Turn::act);
    reveal(Turn::accept_ghost);
    lemma_edits_end_in_a_clear(t, false);
    reveal(Turn::note_forward);
    reveal(Turn::observe_edit);
}

/// A key that edits the line goes to the shell behind a cleared overlay: the
/// query is withdrawn, the buffer is not known until a snapshot is asked for and
/// reports it, and what was browsed in history is forgotten. A space typed at a
/// known prompt, and nothing else, lets the next query expand an alias.
pub proof fn law_edits_go_to_the_shell(t: Turn, event: InputEventView)
    requires
        event.action matches Some(action) ==> action is Printable || action is Backspace || action
            is Delete || action is CtrlW || action is ArrowLeft || action is Home || action is End,
        event.action is Some,
        event.forwarding is Immediate,
        event.bytes.len() > 0,
        editing(t.state),
        t.state.shell.input_generation.sequence < u64::MAX,
    ensures
        t.key(event).effects == t.effects.push(EffectView::ClearOverlay).push(
            EffectView::ForwardInput(event.bytes),
        ),
        t.key(event).state.completion.active is None,
        t.key(event).state.completion.selection.hidden,
        t.key(event).state.shell.buffer is None,
        t.key(event).state.shell.input_generation.sequence
            == t.state.shell.input_generation.sequence + 1,
        t.key(event).state.probe_needed,
        t.key(event).state.origin is None,
        !t.key(event).state.preview_active,
        t.key(event).state.alias_pending <==> event.action == Some(InputAction::Printable(' ')),
        t.key(event).state.mode == t.state.mode,
        t.key(event).state.cwd == t.state.cwd,
{
    lemma_editing_is_safe(t.state);
    reveal(Turn::key);
    reveal(Turn::collapse_boundaries);
    reveal(Turn::handle);
    reveal(Turn::prepare);
    reveal(Turn::note_forward);
    reveal(Turn::observe_edit);
    reveal(Turn::clear_completion);
    reveal(Turn::touch);
    reveal(SessionStateView::after_input);
}

/// While something is pasted every key goes to the shell: none accepts, moves or
/// opens anything.
pub proof fn law_pasted_keys_go_to_the_shell(t: Turn, event: InputEventView, action: InputAction)
    requires
        event.action == Some(action),
        may_act(action),
        event.bytes.len() > 0,
        !t.state.fence,
        t.state.paste_active || t.state.router.paste,
        t.state.pending is None,
    ensures
        t.key(event).effects.last() == EffectView::ForwardInput(event.bytes),
        t.key(event).state.pending is None,
        t.key(event).state.mode == t.state.mode,
        t.key(event).state.completion.selection.selected == t.state.completion.selection.selected,
        t.key(event).state.completion.selection.layer_enabled
            == t.state.completion.selection.layer_enabled,
{
    lemma_editing_is_safe(t.state);
    reveal(Turn::key);
    reveal(Turn::collapse_boundaries);
    reveal(Turn::handle);
    reveal(Turn::act);
    reveal(Turn::tab);
    reveal(Turn::vertical);
    reveal(Turn::accept_ghost);
    reveal(Turn::toggle_mode);
    reveal(Turn::toggle_menu);
    reveal(ReducerView::can_restore_history);
    lemma_edits_end_in_a_clear(t, false);
    reveal(Turn::note_forward);
    reveal(Turn::observe_edit);
    reveal(Turn::clear_completion);
    reveal(Turn::touch);
}

/// A paste begins and ends with its brackets, which go to the shell.
pub proof fn law_pastes_begin_and_end(t: Turn, event: InputEventView)
    requires
        event.action == Some(InputAction::PasteStart) || event.action == Some(InputAction::PasteEnd),
        event.forwarding is Immediate,
        event.bytes.len() > 0,
        !t.state.fence,
    ensures
        t.key(event).state.paste_active <==> event.action == Some(InputAction::PasteStart),
        event.action == Some(InputAction::PasteStart) ==> t.key(event).effects == t.effects.push(
            EffectView::ClearOverlay,
        ).push(EffectView::ForwardInput(event.bytes)),
        event.action == Some(InputAction::PasteStart) ==> t.key(event).state.completion.active is None,
        event.action == Some(InputAction::PasteEnd) ==> t.key(event).state == (ReducerView {
            paste_active: false,
            ..t.state
        }),
{
    reveal(Turn::key);
    reveal(Turn::collapse_boundaries);
    reveal(Turn::handle);
    reveal(Turn::prepare);
    reveal(Turn::clear_completion);
    reveal(Turn::note_forward);
}

/// Escape outside a preview hides the suggestions until the buffer changes, and
/// goes to the shell.
pub proof fn law_escape_hides_the_suggestions(t: Turn, event: InputEventView)
    requires
        event.action == Some(InputAction::Escape),
        event.forwarding is Immediate,
        event.bytes.len() > 0,
        !t.state.fence,
        t.state.mode is Spec || !t.state.preview_active,
        t.state.pending is None,
    ensures
        t.key(event).state.completion.selection.hidden,
        t.key(event).state.mode == t.state.mode,
        t.key(event).state.pending is None,
        t.key(event).effects.len() > t.effects.len() + 1,
        t.key(event).effects[t.effects.len() as int] == EffectView::ClearOverlay,
        t.key(event).effects.last() == EffectView::ForwardInput(event.bytes),
{
    reveal(Turn::key);
    reveal(Turn::collapse_boundaries);
    reveal(Turn::handle);
    reveal(Turn::prepare);
    reveal(Turn::escape);
    reveal(Turn::dismiss);
    reveal(Turn::note_forward);
    reveal(Turn::observe_edit);
    reveal(Turn::clear_completion);
    reveal(Turn::touch);
}

/// Escape from a previewed history entry leaves history and asks the shell for
/// the buffer from before, just as it was; then the key follows.
pub proof fn law_escape_restores_the_buffer_from_before(
    t: Turn,
    event: InputEventView,
    origin: ReplacementView,
)
    requires
        event.action == Some(InputAction::Escape),
        event.forwarding is Immediate,
        event.bytes.len() > 0,
        replaceable(t.state),
        t.state.mode is History,
        t.state.preview_active,
        t.state.origin == Some(origin),
    ensures
        ({
            let after = t.key(event);
            let sent = t.effects.len() as int;
            &&& after.state.mode is Spec
            &&& after.state.pending == Some((origin, ReplacementKind::HistoryRestore))
            &&& after.state.origin is None
            &&& !after.state.preview_active
            &&& after.effects == t.effects + seq![
                EffectView::ClearOverlay,
                EffectView::ModeChanged(SessionMode::Spec),
                EffectView::ClearOverlay,
                EffectView::ReplaceBuffer(origin),
                EffectView::RequestBufferSync((t.state.shell.last_nonce->0 + 1) as u64),
                EffectView::ForwardInput(event.bytes),
            ]
        }),
{
    lemma_editing_is_safe(t.state);
    reveal(Turn::key);
    reveal(Turn::collapse_boundaries);
    reveal(Turn::handle);
    reveal(Turn::prepare);
    reveal(Turn::escape);
    reveal(Turn::leave_preview);
    reveal(Turn::clear_completion);
    reveal(Turn::note_forward);
    let cleared = t.clear_completion();
    let left = cleared.to(
        ReducerView { mode: SessionMode::Spec, ..cleared.state.without_history() },
    ).emit(EffectView::ModeChanged(SessionMode::Spec));
    lemma_requested(left, origin, ReplacementKind::HistoryRestore);
    reveal(Turn::begin_replacement);
    reveal(Turn::request_pair);
    reveal(Turn::pair_sent);
    assert(t.key(event).effects =~= t.effects + seq![
        EffectView::ClearOverlay,
        EffectView::ModeChanged(SessionMode::Spec),
        EffectView::ClearOverlay,
        EffectView::ReplaceBuffer(origin),
        EffectView::RequestBufferSync((t.state.shell.last_nonce->0 + 1) as u64),
        EffectView::ForwardInput(event.bytes),
    ]);
}

/// The mode binding enters history: a query about the buffer starts in history,
/// nothing is previewed by itself, and the buffer is kept to come back to. The
/// key does not go to the shell.
pub proof fn law_mode_key_enters_history(t: Turn, event: InputEventView, text: Seq<char>, cursor: int)
    requires
        event.action == Some(InputAction::ToggleMode),
        event.forwarding is OnFallback,
        editing(t.state),
        t.state.mode is Spec,
        t.state.shell.buffer matches Some(snapshot) && snapshot.bytes == encode_utf8(text)
            && snapshot.cursor == cursor,
        askable(t.state, text, cursor),
    ensures
        t.key(event).effects == t.effects.push(EffectView::ClearOverlay).push(
            EffectView::ModeChanged(SessionMode::History),
        ).push(
            EffectView::StartQuery {
                mode: SessionMode::History,
                alias_expansion: false,
                query: query_about(t.state, text, cursor),
            },
        ),
        t.key(event).state.mode is History,
        t.key(event).state.origin == Some(ReplacementView { text, cursor }),
        !t.key(event).state.recall_when_ready,
        t.key(event).state.completion.active == Some(query_about(t.state, text, cursor)),
{
    lemma_editing_is_safe(t.state);
    encode_utf8_decode_utf8(text);
    reveal(Turn::key);
    reveal(Turn::collapse_boundaries);
    reveal(Turn::handle);
    reveal(Turn::act);
    reveal(Turn::toggle_mode);
    reveal(Turn::clear_completion);
    reveal(Turn::enter_history);
    reveal(Turn::start_query);
    reveal(Turn::ask);
    reveal(ReducerView::authoritative);
    reveal(ReducerView::buffer_text);
    reveal(ReducerView::query_text);
    reveal(CoordinatorView::start_error);
    reveal(CoordinatorView::after_start);
}

/// The mode binding leaves history: where an entry is previewed the shell is
/// asked for the buffer from before, just as it was, and otherwise a query about
/// the buffer starts again.
pub proof fn law_mode_key_leaves_history(t: Turn, event: InputEventView, text: Seq<char>, cursor: int)
    requires
        event.action == Some(InputAction::ToggleMode),
        event.forwarding is OnFallback,
        replaceable(t.state),
        t.state.mode is History,
        t.state.shell.buffer matches Some(snapshot) && snapshot.bytes == encode_utf8(text)
            && snapshot.cursor == cursor,
        askable(t.state, text, cursor),
        text.len() > 0,
    ensures
        t.key(event).state.mode is Spec,
        t.key(event).state.origin is None,
        !t.state.preview_active ==> t.key(event).effects == t.effects.push(EffectView::ClearOverlay).push(
            EffectView::ModeChanged(SessionMode::Spec),
        ).push(
            EffectView::StartQuery {
                mode: SessionMode::Spec,
                alias_expansion: false,
                query: query_about(t.state, text, cursor),
            },
        ),
        t.state.preview_active && t.state.origin is Some ==> {
            let origin = t.state.origin->0;
            &&& t.key(event).state.pending == Some((origin, ReplacementKind::HistoryRestore))
            &&& t.key(event).effects == t.effects + seq![
                EffectView::ClearOverlay,
                EffectView::ModeChanged(SessionMode::Spec),
                EffectView::ClearOverlay,
                EffectView::ReplaceBuffer(origin),
                EffectView::RequestBufferSync((t.state.shell.last_nonce->0 + 1) as u64),
            ]
        },
{
    lemma_editing_is_safe(t.state);
    encode_utf8_decode_utf8(text);
    reveal(Turn::key);
    reveal(Turn::collapse_boundaries);
    reveal(Turn::handle);
    reveal(Turn::act);
    reveal(Turn::toggle_mode);
    reveal(Turn::leave_history);
    reveal(Turn::clear_completion);
    let cleared = t.clear_completion();
    let left = cleared.to(
        ReducerView { mode: SessionMode::Spec, ..cleared.state.without_history() },
    ).emit(EffectView::ModeChanged(SessionMode::Spec));
    if t.state.preview_active {
        if let Some(origin) = t.state.origin {
            lemma_requested(left, origin, ReplacementKind::HistoryRestore);
            reveal(Turn::begin_replacement);
            reveal(Turn::request_pair);
            reveal(Turn::pair_sent);
            assert(t.key(event).effects =~= t.effects + seq![
                EffectView::ClearOverlay,
                EffectView::ModeChanged(SessionMode::Spec),
                EffectView::ClearOverlay,
                EffectView::ReplaceBuffer(origin),
                EffectView::RequestBufferSync((t.state.shell.last_nonce->0 + 1) as u64),
            ]);
        }
    } else {
        reveal(Turn::start_query);
        reveal(Turn::ask);
        reveal(ReducerView::buffer_text);
        reveal(ReducerView::query_text);
        reveal(CoordinatorView::start_error);
        reveal(CoordinatorView::after_start);
    }
}

/// The menu binding switches the suggestion layer, shows what there is where it
/// is now on, clears it where it is now off, and does not go to the shell.
pub proof fn law_menu_key_switches_the_layer(t: Turn, event: InputEventView)
    requires
        event.action == Some(InputAction::ToggleMenu),
        event.forwarding is OnFallback,
        editing(t.state),
    ensures
        ({
            let before = t.state.completion.selection;
            let after = t.key(event);
            &&& after.state.completion.selection.layer_enabled == !before.layer_enabled
            &&& after.state.completion.selection.candidates == before.candidates
            &&& after.state.completion.selection.selected == before.selected
            &&& after.effects == t.effects.push(
                if !before.layer_enabled && before.selected is Some {
                    EffectView::RefreshOverlay
                } else {
                    EffectView::ClearOverlay
                },
            )
            &&& after.state.mode == t.state.mode
            &&& after.state.completion.active == t.state.completion.active
        }),
{
    lemma_editing_is_safe(t.state);
    reveal(Turn::key);
    reveal(Turn::collapse_boundaries);
    reveal(Turn::handle);
    reveal(Turn::act);
    reveal(Turn::toggle_menu);
    reveal(Turn::refresh_or_clear);
    reveal(ReducerView::safe);
}

/// An arrow goes to the shell where no row shows and the line is not empty.
pub proof fn law_arrows_elsewhere_go_to_the_shell(t: Turn, event: InputEventView)
    requires
        event.action == Some(InputAction::ArrowUp) || event.action == Some(InputAction::ArrowDown),
        event.bytes.len() > 0,
        editing(t.state),
        !t.state.completion.selection.layer_enabled || t.state.completion.selection.hidden
            || t.state.completion.selection.selected is None,
        t.state.shell.buffer matches Some(snapshot) && snapshot.bytes.len() > 0,
    ensures
        t.key(event).effects.last() == EffectView::ForwardInput(event.bytes),
        t.key(event).state.mode == t.state.mode,
        t.key(event).state.pending is None,
{
    lemma_editing_is_safe(t.state);
    reveal(Turn::key);
    reveal(Turn::collapse_boundaries);
    reveal(Turn::handle);
    reveal(Turn::act);
    reveal(Turn::vertical);
    lemma_edits_end_in_a_clear(t, false);
    reveal(Turn::note_forward);
    reveal(Turn::observe_edit);
    reveal(Turn::clear_completion);
    reveal(Turn::touch);
}

/// Whatever is typed at a known prompt goes to the shell, and the snapshot that
/// will say what became of the line is asked for right behind it.
pub proof fn law_typing_is_followed_by_a_probe(t: Turn, event: InputEventView)
    requires
        event.action is Some,
        event.action->0 is Printable || event.action->0 is Backspace || event.action->0 is Delete,
        event.forwarding is Immediate,
        event.bytes.len() > 0,
        replaceable(t.state),
        t.state.router.pending.len() == 0,
        t.state.queued_boundaries == 0,
    ensures
        t.input(seq![event]).effects == t.effects.push(EffectView::ClearOverlay).push(
            EffectView::ForwardInput(event.bytes),
        ).push(EffectView::RequestBufferSync((t.state.shell.last_nonce->0 + 1) as u64)),
        t.input(seq![event]).state.shell.buffer is None,
        t.input(seq![event]).state.completion.active is None,
        !t.input(seq![event]).state.probe_needed,
{
    law_edits_go_to_the_shell(t, event);
    let events = seq![event];
    assert(events.drop_last() =~= Seq::<InputEventView>::empty());
    assert(t.keys(events.drop_last()) == t);
    assert(events.last() == event);
    assert(t.keys(events) == t.key(event));
    let typed = t.key(event);
    assert(typed.state.shell.capability is Probe && typed.state.shell.foreground is Idle
        && typed.state.shell.prompt_ready && typed.state.shell.pending_probe is None
        && typed.state.shell.last_nonce == t.state.shell.last_nonce && !typed.state.fence
        && typed.state.queued_boundaries == 0 && typed.state.router == t.state.router
        && !typed.state.paste_active && !(typed.state.shell.synchronization is Synchronized)) by {
        reveal(Turn::key);
        reveal(Turn::collapse_boundaries);
        reveal(Turn::handle);
        reveal(Turn::prepare);
        reveal(Turn::note_forward);
        reveal(Turn::observe_edit);
        reveal(Turn::clear_completion);
        reveal(Turn::touch);
        reveal(SessionStateView::after_input);
    }
    lemma_editing_is_safe(typed.state);
    reveal(Turn::input);
    reveal(Turn::restart_if_safe);
    reveal(Turn::issue_probe);
    reveal(Turn::probe_sent);
    reveal(SessionStateView::after_probe);
}

/// Behind a fence each further Enter or Ctrl+C at a prompt is one more to wait
/// for, and anything else is remembered as typed ahead; while a command runs,
/// which takes the key itself, nothing is counted.
pub proof fn law_fenced_input_is_counted(t: Turn, event: InputEventView, action: InputAction)
    requires
        event.action == Some(action),
        !(action is ToggleMode) && !(action is ToggleMenu),
        event.bytes.len() > 0,
        t.state.fence,
        t.state.fence_nonce is None,
        t.state.queued_boundaries < u64::MAX,
    ensures
        ({
            let after = t.key(event).state;
            let boundary = action is Enter || action is CtrlC;
            &&& after.fence
            &&& boundary && !(t.state.shell.foreground is Running) ==> after.queued_boundaries
                == t.state.queued_boundaries + 1 && !after.fenced_input
            &&& boundary && t.state.shell.foreground is Running ==> after == t.state
            &&& !boundary ==> after.fenced_input && after.queued_boundaries
                == t.state.queued_boundaries
            &&& after.completion == t.state.completion
        }),
{
    reveal(Turn::key);
    reveal(Turn::collapse_boundaries);
    reveal(Turn::handle);
    reveal(Turn::note_forward);
    reveal(Turn::note_fenced);
    reveal(Turn::outdate_fence_probe);
    reveal(Turn::count_boundary);
}

/// Typing ahead makes the probe that would have lifted the fence useless: it is
/// given up, and another one is needed.
pub proof fn law_typing_ahead_outdates_the_probe(t: Turn, event: InputEventView)
    requires
        event.action is Some,
        event.action->0 is Printable,
        event.bytes.len() > 0,
        event.forwarding is Immediate,
        t.state.fence,
        t.state.fence_nonce is Some,
        t.state.shell.input_generation.sequence < u64::MAX,
    ensures
        t.key(event).state.fence_nonce is None,
        t.key(event).state.probe_needed,
        t.key(event).state.fenced_input,
        t.key(event).state.shell.input_generation.sequence
            == t.state.shell.input_generation.sequence + 1,
{
    reveal(Turn::key);
    reveal(Turn::collapse_boundaries);
    reveal(Turn::handle);
    reveal(Turn::note_forward);
    reveal(Turn::note_fenced);
    reveal(Turn::outdate_fence_probe);
    reveal(Turn::touch);
    reveal(SessionStateView::after_input);
}

/// Actions of the session's own need a known buffer at a prompt: nothing running,
/// nothing pasted, no request unanswered and no fence.
pub proof fn law_local_actions_need_a_known_prompt(state: ReducerView)
    ensures
        state.safe() <==> {
            &&& state.shell.synchronization is Synchronized
            &&& state.shell.foreground is Idle
            &&& state.shell.prompt_ready
            &&& state.shell.capability is Native || state.shell.capability is Probe
            &&& state.pending is None
            &&& !state.paste_active
            &&& !state.router.paste
            &&& !state.fence
        },
{
    lemma_editing_is_safe(state);
}

/// The mode binding takes back a preview that was requested but not shown yet: it
/// leaves history and asks the shell for the buffer from before.
pub proof fn law_mode_key_takes_a_requested_preview_back(
    t: Turn,
    event: InputEventView,
    preview: ReplacementView,
    origin: ReplacementView,
)
    requires
        event.action == Some(InputAction::ToggleMode),
        event.forwarding is OnFallback,
        t.state.mode is History,
        t.state.pending == Some((preview, ReplacementKind::HistoryPreview)),
        t.state.origin == Some(origin),
        !t.state.fence,
        probeable(t.state),
    ensures
        t.key(event).state.mode is Spec,
        t.key(event).state.pending == Some((origin, ReplacementKind::HistoryRestore)),
        t.key(event).state.origin is None,
        t.key(event).effects == t.effects + seq![
            EffectView::ClearOverlay,
            EffectView::ModeChanged(SessionMode::Spec),
            EffectView::ClearOverlay,
            EffectView::ReplaceBuffer(origin),
            EffectView::RequestBufferSync((t.state.shell.last_nonce->0 + 1) as u64),
        ],
{
    reveal(ReducerView::can_restore_history);
    reveal(Turn::key);
    reveal(Turn::collapse_boundaries);
    reveal(Turn::handle);
    reveal(Turn::act);
    reveal(Turn::toggle_mode);
    reveal(Turn::leave_history);
    reveal(Turn::clear_completion);
    let cleared = t.clear_completion();
    let left = cleared.to(
        ReducerView { mode: SessionMode::Spec, ..cleared.state.without_history() },
    ).emit(EffectView::ModeChanged(SessionMode::Spec));
    lemma_requested(left, origin, ReplacementKind::HistoryRestore);
    reveal(Turn::begin_replacement);
    reveal(Turn::request_pair);
    reveal(Turn::pair_sent);
    assert(t.key(event).effects =~= t.effects + seq![
        EffectView::ClearOverlay,
        EffectView::ModeChanged(SessionMode::Spec),
        EffectView::ClearOverlay,
        EffectView::ReplaceBuffer(origin),
        EffectView::RequestBufferSync((t.state.shell.last_nonce->0 + 1) as u64),
    ]);
}

/// At a prompt that was seen behind a fence, where nothing was typed ahead and
/// only unconfirmed boundaries are left, a binding of the session's own lifts the
/// fence and does what it is for; any other key stays behind it.
pub proof fn law_bindings_lift_an_idle_fence(t: Turn, event: InputEventView)
    requires
        event.action is Some,
        t.state.fence,
        t.state.prompt_observed,
        t.state.queued_boundaries > 0,
        !t.state.fenced_input,
        t.state.fence_nonce is None,
        t.state.shell.synchronization is Synchronized,
        t.state.shell.foreground is Idle,
        t.state.shell.prompt_ready,
        t.state.shell.capability is Probe,
        t.state.pending is None,
        !t.state.paste_active,
        !t.state.router.paste,
        event.forwarding is OnFallback,
    ensures
        event.action == Some(InputAction::ToggleMenu) ==> {
            &&& !t.key(event).state.fence
            &&& t.key(event).state.queued_boundaries == 0
            &&& t.key(event).state.completion.selection.layer_enabled
                != t.state.completion.selection.layer_enabled
        },
        event.action->0 is Tab || event.action->0 is ArrowUp || event.action->0 is ArrowDown ==> t.key(
            event,
        ).state.fence,
{
    reveal(Turn::key);
    reveal(Turn::collapse_boundaries);
    reveal(Turn::handle);
    if event.action == Some(InputAction::ToggleMenu) {
        let released = t.release();
        reveal(Turn::release);
        reveal(Turn::start_query);
        reveal(Turn::ask);
        reveal(CoordinatorView::after_start);
        assert(editing(released.state));
        lemma_editing_is_safe(released.state);
        reveal(Turn::act);
        reveal(Turn::toggle_menu);
        reveal(Turn::refresh_or_clear);
    } else {
        reveal(Turn::note_forward);
        reveal(Turn::note_fenced);
        reveal(Turn::outdate_fence_probe);
    }
}

} // verus!
