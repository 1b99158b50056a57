//! What reports of the shell, rankings and settings do to a session, said of the
//! queries that start, the rows that show and the buffer that is asked for.

use vstd::prelude::*;
use vstd::utf8::*;

use crate::completion::Suggestion;
use crate::coordinator::{
    registration_error, CoordinatorView, MAX_QUERY_CWD_BYTES, MAX_QUERY_LINE_BYTES,
};
use crate::input::binding_error;
use crate::paths::same_path;
use crate::session::{
    build_error, cwd_error, fresh_session, EffectView, ReplacementKind, ReplacementView, SessionMode,
};
use crate::session_key_laws::{
    acceptable, accepted_bytes, askable, editing, lemma_editing_is_safe, lemma_previewed,
    lemma_requested, put_in, query_about, replaceable, requests,
};
use crate::session_model::{ReducerView, Turn};
use crate::shell_events::{EventView, FrameError, FrameView, SessionStateView, SnapshotView};
use crate::text::{law_cut_texts_are_their_bytes, lemma_boundary_between, text_before, text_behind};

verus! {

/// Whether a frame is the next one of the stream that the session follows.
pub open spec fn next_frame(state: SessionStateView, frame: FrameView) -> bool {
    &&& !state.order_faulted
    &&& frame.position.epoch == state.epoch
    &&& match state.last_position {
        None => frame.position.sequence == 0,
        Some(last) => frame.position.sequence == last.sequence + 1,
    }
}

/// Whether a snapshot answers the outstanding probe, and nothing was typed since
/// that was sent.
pub open spec fn answers(state: SessionStateView, snapshot: SnapshotView) -> bool {
    &&& state.foreground is Idle
    &&& state.prompt_ready
    &&& state.capability is Probe
    &&& state.pending_probe matches Some((nonce, asked)) && snapshot.nonce == Some(nonce) && asked
        == state.input_generation
}

proof fn lemma_answered(state: SessionStateView, frame: FrameView, snapshot: SnapshotView)
    requires
        next_frame(state, frame),
        frame.content == Ok::<EventView, FrameError>(EventView::Buffer(snapshot)),
        answers(state, snapshot),
    ensures
        ({
            let (after, update) = state.after_frame(frame);
            &&& update is BufferSynchronized
            &&& after.buffer == Some(snapshot)
            &&& after.synchronization is Synchronized
            &&& after.foreground is Idle
            &&& after.prompt_ready
            &&& after.capability is Probe
            &&& after.pending_probe is None
            &&& !after.input_unacknowledged
            &&& after.last_nonce == state.last_nonce
            &&& after.input_generation == state.input_generation
        }),
{
    reveal(SessionStateView::after_frame);
}

proof fn lemma_started(t: Turn, text: Seq<char>, cursor: int)
    requires
        t.state.query_text() == Some(ReplacementView { text, cursor }),
        askable(t.state, text, cursor),
        text.len() > 0 || t.state.mode is History,
    ensures
        ({
            let after = t.start_query();
            &&& after.effects == t.effects.push(
                EffectView::StartQuery {
                    mode: t.state.mode,
                    alias_expansion: t.state.alias_pending,
                    query: query_about(t.state, text, cursor),
                },
            )
            &&& after.state == (ReducerView {
                restart_deferred: false,
                alias_pending: false,
                completion: after.state.completion,
                ..t.state
            })
            &&& after.state.completion.active == Some(query_about(t.state, text, cursor))
            &&& after.state.completion.selection.candidates.len() == 0
        }),
{
    reveal(Turn::start_query);
    reveal(Turn::ask);
    reveal(ReducerView::query_text);
    reveal(ReducerView::buffer_text);
    reveal(CoordinatorView::start_error);
    reveal(CoordinatorView::after_start);
}

/// The answer to a probe is believed: the session knows the buffer, and asks the
/// providers about exactly that text, with that cursor, in its directory.
pub proof fn law_snapshots_start_a_query(
    t: Turn,
    frame: FrameView,
    snapshot: SnapshotView,
    text: Seq<char>,
)
    requires
        next_frame(t.state.shell, frame),
        frame.content == Ok::<EventView, FrameError>(EventView::Buffer(snapshot)),
        answers(t.state.shell, snapshot),
        snapshot.bytes == encode_utf8(text),
        !t.state.fence,
        t.state.pending matches Some((_, kind)) ==> !(kind is HistoryPreview),
        !t.state.preview_active,
        askable(t.state, text, snapshot.cursor),
        text.len() > 0 || t.state.mode is History,
    ensures
        ({
            let after = t.frame(frame);
            &&& after.effects == t.effects.push(
                EffectView::StartQuery {
                    mode: t.state.mode,
                    alias_expansion: t.state.alias_pending,
                    query: query_about(t.state, text, snapshot.cursor),
                },
            )
            &&& after.state.shell.buffer == Some(snapshot)
            &&& after.state.completion.active == Some(query_about(t.state, text, snapshot.cursor))
            &&& after.state.pending is None
            &&& !after.state.probe_needed
            &&& !t.state.paste_active && !t.state.router.paste ==> editing(after.state)
            &&& after.state.mode == t.state.mode
        }),
{
    lemma_answered(t.state.shell, frame, snapshot);
    encode_utf8_decode_utf8(text);
    reveal(Turn::frame);
    reveal(Turn::shell_update);
    reveal(Turn::authority);
    reveal(Turn::open_authority);
    reveal(ReducerView::settled);
    reveal(ReducerView::query_text);
    reveal(ReducerView::buffer_text);
    let told = ReducerView {
        shell: t.state.shell.after_frame(frame).0,
        probe_needed: false,
        pending: None,
        ..t.state
    };
    lemma_started(t.to(told), text, snapshot.cursor);
}

/// A previewed history entry counts as shown exactly where the shell then reports
/// the requested text with the requested cursor; otherwise the buffer from before
/// is forgotten, as the shell holds something else.
pub proof fn law_previews_are_confirmed_by_the_shell(
    t: Turn,
    frame: FrameView,
    snapshot: SnapshotView,
    wanted: ReplacementView,
)
    requires
        next_frame(t.state.shell, frame),
        frame.content == Ok::<EventView, FrameError>(EventView::Buffer(snapshot)),
        answers(t.state.shell, snapshot),
        !t.state.fence,
        t.state.pending == Some((wanted, ReplacementKind::HistoryPreview)),
    ensures
        t.frame(frame).state.pending is None,
        t.frame(frame).state.shell.buffer == Some(snapshot),
        t.frame(frame).state.preview_active <==> snapshot.bytes == encode_utf8(wanted.text)
            && snapshot.cursor == wanted.cursor,
        t.frame(frame).state.preview_active ==> t.frame(frame).state.origin == t.state.origin,
        !t.frame(frame).state.preview_active ==> t.frame(frame).state.origin is None,
{
    lemma_answered(t.state.shell, frame, snapshot);
    reveal(Turn::frame);
    reveal(Turn::shell_update);
    reveal(Turn::authority);
    reveal(Turn::open_authority);
    reveal(ReducerView::settled);
    reveal(Turn::start_query);
    reveal(Turn::ask);
}

/// While a history entry is previewed, what is searched for stays the buffer from
/// before.
pub proof fn law_previews_keep_what_is_searched_for(t: Turn, origin: ReplacementView)
    requires
        t.state.mode is History,
        t.state.preview_active,
        t.state.origin == Some(origin),
        askable(t.state, origin.text, origin.cursor),
    ensures
        t.start_query().effects == t.effects.push(
            EffectView::StartQuery {
                mode: SessionMode::History,
                alias_expansion: t.state.alias_pending,
                query: query_about(t.state, origin.text, origin.cursor),
            },
        ),
{
    reveal(ReducerView::query_text);
    lemma_started(t, origin.text, origin.cursor);
}

/// An answered prompt is an empty, known buffer: at one there is nothing to
/// suggest yet and nothing left of browsed history.
pub proof fn law_prompts_begin_with_an_empty_buffer(t: Turn, frame: FrameView)
    requires
        next_frame(t.state.shell, frame),
        frame.content == Ok::<EventView, FrameError>(EventView::PromptReady),
        !(t.state.shell.foreground is Running),
        t.state.shell.capability is Native || t.state.shell.capability is Probe,
        !t.state.shell.input_unacknowledged,
        !t.state.fence,
        t.state.mode is Spec,
    ensures
        ({
            let after = t.frame(frame);
            &&& after.effects == t.effects.push(EffectView::ClearOverlay)
            &&& after.state.shell.buffer matches Some(snapshot) && snapshot.bytes.len() == 0
                && snapshot.cursor == 0
            &&& after.state.pending is None
            &&& after.state.origin is None
            &&& !after.state.preview_active
            &&& after.state.completion.active is None
            &&& !t.state.paste_active && !t.state.router.paste ==> editing(after.state)
        }),
{
    assert(decode_utf8(Seq::<u8>::empty()) =~= Seq::<char>::empty());
    reveal(SessionStateView::after_frame);
    reveal(Turn::frame);
    reveal(Turn::shell_update);
    reveal(Turn::authority);
    reveal(Turn::open_authority);
    reveal(ReducerView::settled);
    reveal(ReducerView::query_text);
    reveal(ReducerView::buffer_text);
    reveal(Turn::start_query);
}

/// The prompt behind a forwarded Enter lifts the fence where nothing was typed
/// ahead; where several were forwarded, each prompt answers one of them.
pub proof fn law_prompts_lift_the_fence(t: Turn, frame: FrameView)
    requires
        next_frame(t.state.shell, frame),
        frame.content == Ok::<EventView, FrameError>(EventView::PromptReady),
        !(t.state.shell.foreground is Running),
        t.state.shell.capability is Native || t.state.shell.capability is Probe,
        !t.state.shell.input_unacknowledged,
        t.state.fence,
        t.state.queued_boundaries > 0,
        !t.state.fenced_input,
        t.state.mode is Spec,
    ensures
        t.state.queued_boundaries == 1 ==> {
            &&& !t.frame(frame).state.fence
            &&& t.frame(frame).state.queued_boundaries == 0
            &&& t.frame(frame).effects == t.effects.push(EffectView::ClearOverlay)
            &&& t.frame(frame).state.shell.buffer matches Some(snapshot) && snapshot.bytes.len() == 0
        },
        t.state.queued_boundaries > 1 ==> {
            &&& t.frame(frame).state.fence
            &&& t.frame(frame).state.queued_boundaries == t.state.queued_boundaries - 1
            &&& t.frame(frame).effects == t.effects.push(EffectView::ClearOverlay)
        },
{
    assert(decode_utf8(Seq::<u8>::empty()) =~= Seq::<char>::empty());
    reveal(SessionStateView::after_frame);
    reveal(Turn::frame);
    reveal(Turn::shell_update);
    reveal(Turn::authority);
    reveal(Turn::fenced_prompt);
    reveal(Turn::consume_boundary);
    reveal(Turn::last_prompt);
    reveal(Turn::release);
    reveal(Turn::clear_completion);
    reveal(ReducerView::query_text);
    reveal(ReducerView::buffer_text);
    reveal(Turn::start_query);
}

/// What was typed ahead of a prompt is not guessed at: the last prompt behind the
/// fence then only leads to a probe, and the fence stays until that is answered.
pub proof fn law_typing_ahead_is_asked_about(t: Turn, frame: FrameView)
    requires
        next_frame(t.state.shell, frame),
        frame.content == Ok::<EventView, FrameError>(EventView::PromptReady),
        !(t.state.shell.foreground is Running),
        t.state.shell.capability is Probe,
        !t.state.shell.input_unacknowledged,
        t.state.shell.last_nonce matches Some(nonce) && nonce < u64::MAX,
        t.state.shell.input_generation.sequence < u64::MAX,
        t.state.fence,
        t.state.queued_boundaries == 1,
        t.state.fenced_input,
        !t.state.paste_active,
        !t.state.router.paste,
    ensures
        t.frame(frame).state.fence,
        t.frame(frame).state.fence_nonce == Some((t.state.shell.last_nonce->0 + 1) as u64),
        t.frame(frame).state.completion.active is None,
        t.frame(frame).effects == t.effects.push(EffectView::ClearOverlay).push(
            EffectView::RequestBufferSync((t.state.shell.last_nonce->0 + 1) as u64),
        ),
{
    reveal(SessionStateView::after_frame);
    reveal(Turn::frame);
    reveal(Turn::shell_update);
    reveal(Turn::authority);
    reveal(Turn::fenced_prompt);
    reveal(Turn::consume_boundary);
    reveal(Turn::last_prompt);
    reveal(Turn::fence_probe);
    reveal(Turn::clear_completion);
    reveal(Turn::issue_probe);
    reveal(Turn::probe_sent);
    reveal(SessionStateView::after_input);
    reveal(SessionStateView::after_probe);
}

/// The answer to the probe behind a fence lifts it, and the providers are asked
/// about the text that it reports.
pub proof fn law_answers_lift_the_fence(
    t: Turn,
    frame: FrameView,
    snapshot: SnapshotView,
    text: Seq<char>,
)
    requires
        next_frame(t.state.shell, frame),
        frame.content == Ok::<EventView, FrameError>(EventView::Buffer(snapshot)),
        answers(t.state.shell, snapshot),
        snapshot.bytes == encode_utf8(text),
        t.state.fence,
        t.state.fence_nonce == snapshot.nonce,
        !t.state.fenced_input,
        !t.state.preview_active,
        askable(t.state, text, snapshot.cursor),
        text.len() > 0,
    ensures
        !t.frame(frame).state.fence,
        t.frame(frame).state.shell.buffer == Some(snapshot),
        t.frame(frame).effects == t.effects.push(
            EffectView::StartQuery {
                mode: t.state.mode,
                alias_expansion: t.state.alias_pending,
                query: query_about(t.state, text, snapshot.cursor),
            },
        ),
{
    lemma_answered(t.state.shell, frame, snapshot);
    encode_utf8_decode_utf8(text);
    reveal(Turn::frame);
    reveal(Turn::shell_update);
    reveal(Turn::authority);
    reveal(Turn::fenced_snapshot);
    reveal(Turn::release);
    reveal(ReducerView::query_text);
    reveal(ReducerView::buffer_text);
    let told = ReducerView {
        shell: t.state.shell.after_frame(frame).0,
        pending: None,
        ..t.state
    }.unfenced();
    lemma_started(t.to(told), text, snapshot.cursor);
}

/// Another working directory holds for the queries to come and voids the one
/// under way; another spelling of the same one changes nothing.
pub proof fn law_directories_are_followed(t: Turn, frame: FrameView, directory: Seq<u8>)
    requires
        next_frame(t.state.shell, frame),
        frame.content == Ok::<EventView, FrameError>(EventView::WorkingDirectory(directory)),
    ensures
        !same_path(t.state.cwd, directory) ==> {
            &&& t.frame(frame).state.cwd == directory
            &&& t.frame(frame).state.completion.active is None
            &&& t.frame(frame).state.restart_deferred
            &&& t.frame(frame).effects == t.effects.push(EffectView::ClearOverlay)
        },
        same_path(t.state.cwd, directory) ==> {
            &&& t.frame(frame).state.cwd == t.state.cwd
            &&& t.frame(frame).state.completion == t.state.completion
            &&& t.frame(frame).effects == t.effects
        },
        t.frame(frame).state.mode == t.state.mode,
        t.frame(frame).state.shell.buffer == t.state.shell.buffer,
{
    reveal(SessionStateView::after_frame);
    reveal(Turn::frame);
    reveal(Turn::shell_update);
    reveal(Turn::directory_changed);
    reveal(Turn::clear_completion);
}

/// A command that starts ends all editing: the overlay is cleared, no query is
/// active, no replacement is awaited, and browsed history is forgotten.
pub proof fn law_commands_end_editing(t: Turn, frame: FrameView, command: Seq<u8>)
    requires
        next_frame(t.state.shell, frame),
        frame.content == Ok::<EventView, FrameError>(EventView::CommandStart(command)),
        t.state.shell.foreground is Idle,
        t.state.shell.prompt_ready,
    ensures
        t.frame(frame).effects == t.effects.push(EffectView::ClearOverlay),
        t.frame(frame).state.shell.foreground is Running,
        t.frame(frame).state.shell.buffer is None,
        t.frame(frame).state.completion.active is None,
        t.frame(frame).state.pending is None,
        t.frame(frame).state.origin is None,
        !t.frame(frame).state.preview_active,
        t.frame(frame).state.fence == t.state.fence,
        t.frame(frame).state.mode == t.state.mode,
{
    reveal(SessionStateView::after_frame);
    reveal(Turn::frame);
    reveal(Turn::shell_update);
    reveal(Turn::unsettled);
    reveal(Turn::drop_editing);
    reveal(Turn::clear_completion);
}

/// Output of the shell may have moved the prompt: the overlay is cleared, the
/// query withdrawn, and a snapshot asked for where that can be.
pub proof fn law_output_is_followed_by_a_probe(t: Turn)
    requires
        t.state.shell.foreground is Idle,
        t.state.shell.prompt_ready,
        t.state.shell.capability is Probe,
        t.state.shell.pending_probe is None,
        t.state.shell.last_nonce matches Some(nonce) && nonce < u64::MAX,
        !t.state.paste_active,
        !t.state.router.paste,
        !t.state.fence,
        t.state.queued_boundaries == 0,
    ensures
        t.shell_output().effects == t.effects.push(EffectView::ClearOverlay).push(
            EffectView::RequestBufferSync((t.state.shell.last_nonce->0 + 1) as u64),
        ),
        t.shell_output().state.completion.active is None,
        t.shell_output().state.origin is None,
        !t.shell_output().state.probe_needed,
{
    reveal(Turn::shell_output);
    reveal(Turn::drop_history);
    reveal(Turn::clear_completion);
    reveal(Turn::issue_probe);
    reveal(Turn::probe_sent);
}

/// A snapshot is asked for only where one is needed, nothing is being pasted, no
/// key is half typed, and the shell can answer; it is then asked for under the
/// next nonce, and not again until another is needed.
pub proof fn law_probes_are_asked_once(t: Turn, require_complete_input: bool)
    ensures
        ({
            let after = t.issue_probe(require_complete_input);
            &&& !t.state.probe_needed || t.state.paste_active || t.state.router.paste || !(
            t.state.shell.capability is Probe) || t.state.queued_boundaries > 0 || (
            require_complete_input && t.state.router.pending.len() > 0) || (t.state.fence
                && !t.state.prompt_observed) ==> after == t
            &&& t.state.probe_needed && !t.state.paste_active && !t.state.router.paste
                && t.state.shell.capability is Probe && t.state.queued_boundaries == 0 && (
            !require_complete_input || t.state.router.pending.len() == 0) && (!t.state.fence
                || t.state.prompt_observed) && t.state.shell.foreground is Idle
                && t.state.shell.prompt_ready && t.state.shell.pending_probe is None && (
            t.state.shell.last_nonce matches Some(nonce) && nonce < u64::MAX) ==> {
                let nonce = (t.state.shell.last_nonce->0 + 1) as u64;
                &&& after.effects == t.effects.push(EffectView::RequestBufferSync(nonce))
                &&& after.state.shell.last_nonce == Some(nonce)
                &&& after.state.shell.pending_probe == Some((nonce, t.state.shell.input_generation))
                &&& !after.state.probe_needed
                &&& t.state.fence ==> after.state.fence_nonce == Some(nonce)
            }
        }),
{
    reveal(Turn::issue_probe);
    reveal(Turn::probe_sent);
    reveal(SessionStateView::after_probe);
}

/// A ranking of the active query shows its best rows in its order, the first one
/// selected, where the user has not moved the selection.
pub proof fn law_rankings_are_shown(t: Turn, generation: u64, ranked: Seq<Suggestion>)
    requires
        editing(t.state),
        !t.state.probe_needed,
        !t.state.recall_when_ready,
        t.state.completion.active matches Some(query) && query.generation == generation,
        t.state.completion.selection.generation == generation,
        !t.state.completion.selection.navigated,
        t.state.completion.selection.layer_enabled,
        !t.state.completion.selection.hidden,
        t.state.completion.limit > 0,
    ensures
        ({
            let after = t.ranking(generation, ranked);
            let rows = after.state.completion.selection.candidates;
            &&& rows.len() == if ranked.len() < t.state.completion.limit {
                ranked.len() as int
            } else {
                t.state.completion.limit as int
            }
            &&& forall|i: int| 0 <= i < rows.len() ==> #[trigger] rows[i] == ranked[i]
            &&& ranked.len() > 0 ==> after.state.completion.selection.selected == Some(0usize)
            &&& ranked.len() > 0 ==> after.effects == t.effects.push(EffectView::RefreshOverlay)
            &&& ranked.len() == 0 ==> after.effects == t.effects.push(EffectView::ClearOverlay)
            &&& after.state.completion.active == t.state.completion.active
            &&& after.state.pending is None
        }),
{
    lemma_editing_is_safe(t.state);
    reveal(Turn::ranking);
    reveal(Turn::presented);
    reveal(Turn::refresh_or_clear);
    reveal(Turn::issue_probe);
    reveal(CoordinatorView::after_ranking);
    lemma_editing_is_safe(t.ranking(generation, ranked).state);
    reveal(ReducerView::safe);
}

/// The first ranking after history was opened from an empty prompt previews its
/// best entry.
pub proof fn law_recalled_history_is_previewed(t: Turn, generation: u64, ranked: Seq<Suggestion>)
    requires
        replaceable(t.state),
        t.state.mode is History,
        t.state.recall_when_ready,
        t.state.origin is Some,
        t.state.completion.active matches Some(query) && query.generation == generation && ranked.len()
            > 0 && ranked[0].source is History && acceptable(ranked[0], query.line),
        t.state.completion.selection.generation == generation,
        !t.state.completion.selection.navigated,
        t.state.completion.limit > 0,
    ensures
        ({
            let query = t.state.completion.active->0;
            let after = t.ranking(generation, ranked);
            &&& !after.state.recall_when_ready
            &&& after.state.pending matches Some((replacement, kind))
            &&& kind is HistoryPreview
            &&& encode_utf8(replacement.text) == accepted_bytes(ranked[0], query.line)
            &&& replacement.cursor == ranked[0].edit.range.start + encode_utf8(put_in(ranked[0])).len()
            &&& requests(t, after, replacement, kind)
            &&& after.state.origin == t.state.origin
        }),
{
    let query = t.state.completion.active->0;
    let (completion, outcome) = t.state.completion.after_ranking(generation, ranked);
    let ready = t.to(ReducerView { completion, recall_when_ready: false, ..t.state });
    assert(outcome is Applied && completion.active == Some(query) && completion.selection.selected
        == Some(0usize) && completion.selection.candidates.len() > 0
        && completion.selection.candidates[0] == ranked[0]) by {
        reveal(CoordinatorView::after_ranking);
    }
    lemma_previewed(ready, query, 0);
    reveal(Turn::ranking);
    reveal(Turn::presented);
    assert(!ready.preview_selected().0.state.probe_needed
        && !ready.preview_selected().0.state.recall_when_ready) by {
        reveal(Turn::preview_selected);
        reveal(Turn::replace_with_selected);
        reveal(Turn::begin_replacement);
        reveal(Turn::request_pair);
        reveal(Turn::pair_sent);
        reveal(SessionStateView::after_input);
        reveal(SessionStateView::after_probe);
    }
    reveal(Turn::issue_probe);
}

/// An alias edit of the active query replaces exactly its bytes, which end at or
/// before the cursor; the cursor keeps its distance from the end of the line.
pub proof fn law_alias_edits_keep_the_rest_of_the_line(
    t: Turn,
    generation: u64,
    start: int,
    end: int,
    replacement: Seq<char>,
)
    requires
        replaceable(t.state),
        t.state.completion.active matches Some(query) && query.generation == generation && start <= end
            <= query.cursor && is_char_boundary(encode_utf8(query.line), start) && is_char_boundary(
            encode_utf8(query.line),
            end,
        ) && is_char_boundary(encode_utf8(query.line), query.cursor) && encode_utf8(query.line).len()
            - (end - start) + encode_utf8(replacement).len() <= MAX_QUERY_LINE_BYTES,
    ensures
        ({
            let query = t.state.completion.active->0;
            let bytes = encode_utf8(query.line);
            let after = t.alias(generation, start, end, replacement);
            &&& after.state.pending matches Some((wanted, kind))
            &&& kind is AliasExpansion
            &&& encode_utf8(wanted.text) == bytes.subrange(0, start) + encode_utf8(replacement)
                + bytes.subrange(end, bytes.len() as int)
            &&& encode_utf8(wanted.text).len() - wanted.cursor == bytes.len() - query.cursor
            &&& requests(t, after, wanted, kind)
        }),
{
    let query = t.state.completion.active->0;
    let line = query.line;
    let bytes = encode_utf8(line);
    lemma_editing_is_safe(t.state);
    reveal(Turn::alias);
    reveal(ReducerView::alias_replacement);
    crate::completion::law_edits_keep_the_rest_of_the_line(line, start, end, replacement);
    law_cut_texts_are_their_bytes(line, start);
    law_cut_texts_are_their_bytes(line, end);
    law_cut_texts_are_their_bytes(line, query.cursor);
    lemma_cursor_behind_an_edit(line, start, end, query.cursor, replacement);
    lemma_requested(
        t,
        t.state.alias_replacement(generation, start, end, replacement)->0,
        ReplacementKind::AliasExpansion,
    );
}

proof fn lemma_cursor_behind_an_edit(
    line: Seq<char>,
    start: int,
    end: int,
    cursor: int,
    replacement: Seq<char>,
)
    requires
        start <= end <= cursor,
        is_char_boundary(encode_utf8(line), start),
        is_char_boundary(encode_utf8(line), end),
        is_char_boundary(encode_utf8(line), cursor),
    ensures
        is_char_boundary(
            encode_utf8(crate::completion::edited_line(line, start, end, replacement)),
            cursor - (end - start) + encode_utf8(replacement).len(),
        ),
{
    let bytes = encode_utf8(line);
    law_cut_texts_are_their_bytes(line, start);
    law_cut_texts_are_their_bytes(line, end);
    law_cut_texts_are_their_bytes(line, cursor);
    let back = text_behind(line, cursor);
    let upto = text_before(line, cursor);
    encode_utf8_valid_utf8(line);
    lemma_boundary_in_front(bytes, end, cursor);
    law_cut_texts_are_their_bytes(upto, end);
    let middle = text_behind(upto, end);
    assert(bytes.subrange(end, cursor) =~= encode_utf8(middle)) by {
        assert(bytes.subrange(0, cursor).subrange(end, cursor) =~= bytes.subrange(end, cursor));
    }
    crate::text::lemma_encode_concat(middle, back);
    assert(bytes.subrange(end, cursor) + bytes.subrange(cursor, bytes.len() as int)
        =~= bytes.subrange(end, bytes.len() as int));
    encode_utf8_decode_utf8(middle + back);
    encode_utf8_decode_utf8(text_behind(line, end));
    assert(text_behind(line, end) == middle + back);
    let front = text_before(line, start) + replacement + middle;
    assert(crate::completion::edited_line(line, start, end, replacement) =~= front + back);
    crate::text::lemma_encode_concat(text_before(line, start), replacement);
    crate::text::lemma_encode_concat(text_before(line, start) + replacement, middle);
    lemma_boundary_between(front, back);
}

/// A boundary stays one where the text is cut behind it.
proof fn lemma_boundary_in_front(bytes: Seq<u8>, at: int, end: int)
    requires
        valid_utf8(bytes),
        is_char_boundary(bytes, at),
        is_char_boundary(bytes, end),
        at <= end,
    ensures
        valid_utf8(bytes.subrange(0, end)),
        is_char_boundary(bytes.subrange(0, end), at),
    decreases bytes.len(),
{
    valid_utf8_split(bytes, end);
    let cut = bytes.subrange(0, end);
    is_char_boundary_start_end_of_seq(cut);
    if 0 < at < end {
        is_char_boundary_iff_is_leading_byte(bytes, at);
        is_char_boundary_iff_is_leading_byte(cut, at);
    }
}

/// Another directory or another row limit voids the query under way: at a known
/// prompt one about the buffer starts at once, and otherwise it waits until it
/// can.
pub proof fn law_restarts_ask_again(t: Turn, text: Seq<char>, cursor: int)
    requires
        t.state.shell.buffer matches Some(snapshot) && snapshot.bytes == encode_utf8(text)
            && snapshot.cursor == cursor,
        askable(t.state, text, cursor),
        text.len() > 0,
        !t.state.preview_active,
    ensures
        editing(t.state) ==> t.restart_or_defer().effects == t.effects.push(
            EffectView::ClearOverlay,
        ).push(
            EffectView::StartQuery {
                mode: t.state.mode,
                alias_expansion: false,
                query: query_about(t.state, text, cursor),
            },
        ),
        editing(t.state) ==> !t.restart_or_defer().state.restart_deferred,
        !editing(t.state) ==> t.restart_or_defer().effects == t.effects.push(EffectView::ClearOverlay),
        !editing(t.state) ==> t.restart_or_defer().state.restart_deferred,
        !editing(t.state) ==> t.restart_or_defer().state.completion.active is None,
{
    encode_utf8_decode_utf8(text);
    reveal(Turn::restart_or_defer);
    reveal(Turn::clear_completion);
    reveal(ReducerView::query_text);
    reveal(ReducerView::buffer_text);
    let cleared = t.clear_completion();
    lemma_editing_is_safe(t.state);
    lemma_editing_is_safe(cleared.state);
    lemma_started(cleared, text, cursor);
}

/// A query that waits starts as soon as that is safe, and not before.
pub proof fn law_deferred_queries_start_when_safe(t: Turn, text: Seq<char>, cursor: int)
    requires
        t.state.shell.buffer matches Some(snapshot) && snapshot.bytes == encode_utf8(text)
            && snapshot.cursor == cursor,
        askable(t.state, text, cursor),
        text.len() > 0,
        !t.state.preview_active,
    ensures
        t.state.restart_deferred && editing(t.state) ==> t.restart_if_safe().effects == t.effects.push(
            EffectView::StartQuery {
                mode: t.state.mode,
                alias_expansion: t.state.alias_pending,
                query: query_about(t.state, text, cursor),
            },
        ) && !t.restart_if_safe().state.restart_deferred,
        !t.state.restart_deferred || !editing(t.state) ==> t.restart_if_safe() == t,
{
    encode_utf8_decode_utf8(text);
    reveal(Turn::restart_if_safe);
    reveal(ReducerView::query_text);
    reveal(ReducerView::buffer_text);
    lemma_editing_is_safe(t.state);
    lemma_started(t, text, cursor);
}

/// Whatever else the shell reports in order, short of a directory, ends what was
/// shown: the overlay is cleared and no query stays active; a stopped command
/// and a broken frame also end what was requested or browsed.
pub proof fn law_other_reports_clear_the_overlay(t: Turn, frame: FrameView, status: u8, request: u32)
    requires
        next_frame(t.state.shell, frame),
        t.state.shell.foreground is Running,
    ensures
        frame.content == Ok::<EventView, FrameError>(EventView::CommandStop(status)) || frame.content
            is Err ==> {
            let after = t.frame(frame);
            &&& after.effects == t.effects.push(EffectView::ClearOverlay)
            &&& after.state.completion.active is None
            &&& after.state.pending is None
            &&& after.state.origin is None
            &&& !after.state.preview_active
            &&& after.state.mode == t.state.mode
        },
        frame.content == Ok::<EventView, FrameError>(EventView::CommandStop(status)) ==> t.frame(
            frame,
        ).state.shell.foreground is Idle && t.frame(frame).state.shell.last_status == Some(status)
            && t.frame(frame).state.fence == t.state.fence,
        frame.content == Ok::<EventView, FrameError>(EventView::ReloadRequest(request)) ==> t.frame(
            frame,
        ).effects == t.effects.push(EffectView::ClearOverlay) && t.frame(frame).state.pending
            == t.state.pending && t.frame(frame).state.origin is None,
{
    reveal(SessionStateView::after_frame);
    reveal(Turn::frame);
    reveal(Turn::shell_update);
    reveal(Turn::unsettled);
    reveal(Turn::drop_editing);
    reveal(Turn::drop_history);
    reveal(Turn::clear_completion);
}

/// A session begins in the mode and the directory that it was given, with nothing
/// known, shown, typed or asked.
pub proof fn law_sessions_begin_with_nothing_known(
    epoch: u64,
    toggle_mode: Seq<u8>,
    toggle_menu: Seq<u8>,
    providers: Seq<Seq<char>>,
    limit: usize,
    cwd: Seq<u8>,
    mode: SessionMode,
)
    ensures
        ({
            let state = fresh_session(epoch, toggle_mode, toggle_menu, providers, limit, cwd, mode);
            &&& state.mode == mode
            &&& state.cwd == cwd
            &&& state.router.toggle_mode == toggle_mode && state.router.toggle_menu == toggle_menu
            &&& state.router.pending.len() == 0 && !state.router.paste
            &&& state.shell.epoch == epoch
            &&& state.shell.buffer is None && !state.shell.suggests()
            &&& state.completion.providers == providers && state.completion.limit == limit
            &&& state.completion.active is None
            &&& state.completion.selection.layer_enabled
            &&& state.completion.selection.candidates.len() == 0
            &&& state.pending is None && state.origin is None && !state.fence
        }),
{
}

/// A session can be built exactly where its directory is absolute and not too
/// long, its bindings can be told apart, and its providers can be registered.
pub proof fn law_sessions_are_built_from_usable_parts(
    toggle_mode: Seq<u8>,
    toggle_menu: Seq<u8>,
    providers: Seq<Seq<char>>,
    limit: usize,
    cwd: Seq<u8>,
)
    ensures
        cwd_error(cwd) is None <==> 0 < cwd.len() <= MAX_QUERY_CWD_BYTES && cwd[0] == 47,
        build_error(toggle_mode, toggle_menu, providers, limit, cwd) is None <==> {
            &&& 0 < cwd.len() <= MAX_QUERY_CWD_BYTES
            &&& cwd[0] == 47
            &&& binding_error(toggle_mode, toggle_menu) is None
            &&& registration_error(providers, limit) is None
        },
        binding_error(toggle_mode, toggle_menu) is None ==> toggle_mode.len() > 0 && toggle_menu.len() > 0
            && toggle_mode != toggle_menu,
{
    if toggle_mode == toggle_menu {
        assert(toggle_mode.subrange(0, toggle_mode.len() as int) =~= toggle_mode);
    }
}

/// A snapshot that answers an earlier question is not believed, and a new one is
/// asked for at once where one is needed.
pub proof fn law_outdated_snapshots_are_asked_for_again(
    t: Turn,
    frame: FrameView,
    snapshot: SnapshotView,
)
    requires
        next_frame(t.state.shell, frame),
        frame.content == Ok::<EventView, FrameError>(EventView::Buffer(snapshot)),
        t.state.shell.foreground is Idle,
        t.state.shell.prompt_ready,
        t.state.shell.capability is Probe,
        t.state.shell.pending_probe matches Some((nonce, asked)) && snapshot.nonce == Some(nonce) && asked
            != t.state.shell.input_generation,
        t.state.shell.last_nonce matches Some(nonce) && nonce < u64::MAX,
        t.state.probe_needed,
        !t.state.paste_active,
        !t.state.router.paste,
        !t.state.fence,
        t.state.queued_boundaries == 0,
    ensures
        t.frame(frame).effects == t.effects.push(EffectView::ClearOverlay).push(
            EffectView::RequestBufferSync((t.state.shell.last_nonce->0 + 1) as u64),
        ),
        t.frame(frame).state.shell.buffer is None,
        t.frame(frame).state.pending is None,
        !t.frame(frame).state.probe_needed,
{
    reveal(SessionStateView::after_frame);
    reveal(SessionStateView::after_probe);
    reveal(Turn::frame);
    reveal(Turn::shell_update);
    reveal(Turn::drop_editing);
    reveal(Turn::clear_completion);
    reveal(Turn::issue_probe);
    reveal(Turn::probe_sent);
}

/// A snapshot that was not asked for behind the fence does not lift it: where the
/// prompt was seen another one is asked for, whose answer will.
pub proof fn law_other_snapshots_keep_the_fence(t: Turn, frame: FrameView, snapshot: SnapshotView)
    requires
        next_frame(t.state.shell, frame),
        frame.content == Ok::<EventView, FrameError>(EventView::Buffer(snapshot)),
        answers(t.state.shell, snapshot),
        t.state.fence,
        t.state.fence_nonce is None,
        t.state.queued_boundaries == 0,
        t.state.shell.last_nonce matches Some(nonce) && nonce < u64::MAX,
        !t.state.paste_active,
        !t.state.router.paste,
    ensures
        t.frame(frame).state.fence,
        t.frame(frame).state.completion.active is None,
        t.state.prompt_observed ==> t.frame(frame).effects == t.effects.push(
            EffectView::ClearOverlay,
        ).push(EffectView::RequestBufferSync((t.state.shell.last_nonce->0 + 1) as u64)),
        t.state.prompt_observed ==> t.frame(frame).state.fence_nonce == Some(
            (t.state.shell.last_nonce->0 + 1) as u64,
        ),
        !t.state.prompt_observed ==> t.frame(frame).effects == t.effects.push(EffectView::ClearOverlay),
{
    lemma_answered(t.state.shell, frame, snapshot);
    reveal(Turn::frame);
    reveal(Turn::shell_update);
    reveal(Turn::authority);
    reveal(Turn::fenced_snapshot);
    reveal(Turn::resynchronize);
    reveal(Turn::clear_completion);
    reveal(Turn::issue_probe);
    reveal(Turn::probe_sent);
}

/// A prompt that comes while input is unanswered still answers one boundary, but
/// is not believed itself: behind the last one a snapshot is asked for.
pub proof fn law_unreliable_prompts_are_counted(t: Turn, frame: FrameView)
    requires
        next_frame(t.state.shell, frame),
        frame.content == Ok::<EventView, FrameError>(EventView::PromptReady),
        t.state.shell.foreground is Idle,
        t.state.shell.prompt_ready,
        t.state.shell.capability is Probe,
        t.state.shell.input_unacknowledged,
        t.state.shell.pending_probe is None,
        t.state.shell.last_nonce matches Some(nonce) && nonce < u64::MAX,
        t.state.fence,
        t.state.queued_boundaries > 0,
        !t.state.fenced_input,
        !t.state.paste_active,
        !t.state.router.paste,
    ensures
        t.frame(frame).state.fence,
        t.frame(frame).state.queued_boundaries == t.state.queued_boundaries - 1,
        t.frame(frame).state.pending is None,
        t.state.queued_boundaries == 1 ==> t.frame(frame).effects == t.effects.push(
            EffectView::ClearOverlay,
        ).push(EffectView::RequestBufferSync((t.state.shell.last_nonce->0 + 1) as u64)),
        t.state.queued_boundaries == 1 ==> t.frame(frame).state.fence_nonce == Some(
            (t.state.shell.last_nonce->0 + 1) as u64,
        ),
        t.state.queued_boundaries > 1 ==> t.frame(frame).effects == t.effects.push(
            EffectView::ClearOverlay,
        ),
{
    reveal(SessionStateView::after_frame);
    reveal(Turn::frame);
    reveal(Turn::shell_update);
    reveal(Turn::suppressed);
    reveal(Turn::suppressed_prompt);
    reveal(Turn::consume_boundary);
    reveal(Turn::last_suppressed_prompt);
    reveal(Turn::resynchronize);
    reveal(Turn::clear_completion);
    reveal(Turn::issue_probe);
    reveal(Turn::probe_sent);
}

} // verus!
