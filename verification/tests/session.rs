use argmax::completion::{InsertionBehavior, ProviderBatch, Suggestion, SuggestionSource, TextEdit};
use argmax::coordinator::{
    BatchOutcome, BatchRejection, PresentationOutcome, PresentationRejection, QueryStartError,
    QueryWork, MAX_QUERY_CWD_BYTES,
};
use argmax::session::{
    BufferReplacement, CwdUpdateError, EffectBatch, InputReduction, PresentationReduction,
    SessionEffect, SessionFault, SessionMode, SessionReducer, MAX_SESSION_EFFECTS,
};
use argmax::shell_events::{
    ForegroundCommandState, ProbeRequestError, ShellEventDecoder, StateUpdate, StreamEpoch,
};

const PROVIDER: &str = "test";

fn reducer() -> (SessionReducer, ShellEventDecoder) {
    let reducer = SessionReducer::new(
        StreamEpoch::initial(),
        b"\x12",
        b"\x10",
        vec![PROVIDER.to_owned()],
        10,
        b"/tmp".to_vec(),
    )
    .unwrap();
    (reducer, ShellEventDecoder::new(StreamEpoch::initial()))
}

fn apply_wire(
    reducer: &mut SessionReducer,
    decoder: &mut ShellEventDecoder,
    wire: &[u8],
) -> Vec<EffectBatch> {
    decoder
        .push(wire)
        .into_iter()
        .map(|frame| reducer.apply_shell_frame(frame).1)
        .collect()
}

fn ready() -> (SessionReducer, ShellEventDecoder) {
    let (mut reducer, mut decoder) = reducer();
    apply_wire(
        &mut reducer,
        &mut decoder,
        b"capability:sync-probe:0\0prompt-ready\0",
    );
    (reducer, decoder)
}

fn synchronize(
    reducer: &mut SessionReducer,
    decoder: &mut ShellEventDecoder,
    typed: &[u8],
    line: &str,
    cursor: usize,
) -> u64 {
    let reduction = reducer.route_input(typed);
    let nonce = reduction
        .effects()
        .effects()
        .iter()
        .find_map(|effect| match effect {
            SessionEffect::RequestBufferSync(nonce) => Some(nonce.get()),
            _ => None,
        })
        .unwrap();
    let frame = format!("probe-buffer:b:{nonce}:{cursor}:{line}\0");
    apply_wire(reducer, decoder, frame.as_bytes());
    reducer.active_query().unwrap().generation
}

fn suggestion(
    line: &str,
    replacement: &str,
    source: SuggestionSource,
    insertion: InsertionBehavior,
) -> Suggestion {
    Suggestion::new(
        TextEdit {
            range: 0..line.len(),
            replacement: replacement.to_owned(),
        },
        replacement.to_owned(),
        "description".to_owned(),
        "command".to_owned(),
        source,
        insertion,
        replacement.to_owned(),
    )
}

fn present(reducer: &mut SessionReducer, generation: u64, candidate: Suggestion) {
    assert!(matches!(
        reducer.accept_provider_batch(ProviderBatch::success(
            PROVIDER,
            generation,
            vec![candidate.clone()]
        )),
        BatchOutcome::Accepted(_)
    ));
    assert!(matches!(
        reducer
            .apply_ranked_candidates(generation, vec![candidate])
            .outcome(),
        PresentationOutcome::Applied { .. }
    ));
}

fn query_effect(effects: &[EffectBatch]) -> (&QueryWork, bool) {
    effects
        .iter()
        .flat_map(EffectBatch::effects)
        .find_map(|effect| match effect {
            SessionEffect::StartQuery {
                work,
                alias_expansion,
                ..
            } => Some((work, *alias_expansion)),
            _ => None,
        })
        .unwrap()
}

fn request_history_preview(reducer: &mut SessionReducer, original: &str, preview: &str) -> u64 {
    let toggle = reducer.route_input(b"\x12");
    let generation = toggle
        .effects()
        .effects()
        .iter()
        .find_map(|effect| match effect {
            SessionEffect::StartQuery { mode, work, .. } if *mode == SessionMode::History => {
                Some(work.query().generation)
            }
            _ => None,
        })
        .unwrap();
    present(
        reducer,
        generation,
        suggestion(
            original,
            preview,
            SuggestionSource::History,
            InsertionBehavior::Exact,
        ),
    );
    let preview = reducer.route_input(b"\x1b[A");
    preview
        .effects()
        .effects()
        .iter()
        .find_map(|effect| match effect {
            SessionEffect::RequestBufferSync(nonce) => Some(nonce.get()),
            _ => None,
        })
        .unwrap()
}

fn forwarded(batch: &EffectBatch) -> Vec<u8> {
    batch
        .effects()
        .iter()
        .filter_map(|effect| match effect {
            SessionEffect::ForwardInput(bytes) => Some(bytes.as_slice()),
            _ => None,
        })
        .flatten()
        .copied()
        .collect()
}

#[test]
fn tab_replaces_then_subsequent_enter_executes_without_forwarding_tab() {
    let (mut reducer, mut decoder) = ready();
    let generation = synchronize(&mut reducer, &mut decoder, b"git che", "git che", 7);
    present(
        &mut reducer,
        generation,
        suggestion(
            "git che",
            "git checkout",
            SuggestionSource::Spec,
            InsertionBehavior::AppendSpace,
        ),
    );

    let reduction = reducer.route_input(b"\t\r");
    let effects = reduction.effects().effects();
    let replacement = effects.iter().position(|effect| {
        matches!(
            effect,
            SessionEffect::ReplaceBuffer(replacement)
                if replacement.as_str() == "git checkout "
                    && replacement.cursor() == "git checkout ".len()
        )
    });
    let enter = effects.iter().position(
        |effect| matches!(effect, SessionEffect::ForwardInput(bytes) if bytes.as_slice() == b"\r"),
    );
    let sync = effects
        .iter()
        .position(|effect| matches!(effect, SessionEffect::RequestBufferSync(_)));
    assert!(replacement.is_some_and(|replacement| {
        sync.is_some_and(|sync| enter.is_some_and(|enter| replacement < sync && sync < enter))
    }));
    assert!(forwarded(reduction.effects()) == b"\r");
}

#[test]
fn finish_input_forwards_a_retained_partial_sequence_intact() {
    let (mut reducer, mut decoder) = ready();
    let _ = synchronize(&mut reducer, &mut decoder, b"git", "git", 3);

    let retained = reducer.route_input(b"\x1b[");
    assert!(
        !retained
            .effects()
            .effects()
            .iter()
            .any(|effect| matches!(effect, SessionEffect::ForwardInput(_)))
    );

    let reduction = reducer.finish_input();
    let forwarded: Vec<u8> = reduction
        .effects()
        .effects()
        .iter()
        .filter_map(|effect| match effect {
            SessionEffect::ForwardInput(bytes) => Some(bytes.as_slice().to_vec()),
            _ => None,
        })
        .flatten()
        .collect();
    assert!(forwarded == b"\x1b[");
}

#[test]
fn history_preview_and_enter_in_one_batch_pair_replacement_with_sync() {
    let (mut reducer, mut decoder) = ready();
    let _ = synchronize(&mut reducer, &mut decoder, b"git", "git", 3);
    let toggle = reducer.route_input(b"\x12");
    let generation = toggle
        .effects()
        .effects()
        .iter()
        .find_map(|effect| match effect {
            SessionEffect::StartQuery { mode, work, .. } if *mode == SessionMode::History => {
                Some(work.query().generation)
            }
            _ => None,
        })
        .unwrap();
    present(
        &mut reducer,
        generation,
        suggestion(
            "git",
            "git status",
            SuggestionSource::History,
            InsertionBehavior::Exact,
        ),
    );

    let reduction = reducer.route_input(b"\x1b[A\r");
    let effects = reduction.effects().effects();
    let replacement = effects.iter().position(|effect| {
        matches!(
            effect,
            SessionEffect::ReplaceBuffer(replacement)
                if replacement.as_str() == "git status"
        )
    });
    let sync = effects
        .iter()
        .position(|effect| matches!(effect, SessionEffect::RequestBufferSync(_)));
    let enter = effects.iter().position(
        |effect| matches!(effect, SessionEffect::ForwardInput(bytes) if bytes.as_slice() == b"\r"),
    );
    assert!(replacement.is_some_and(|replacement| {
        sync.is_some_and(|sync| enter.is_some_and(|enter| replacement < sync && sync < enter))
    }));
}

#[test]
fn enter_executes_original_buffer_not_highlighted_candidate() {
    let (mut reducer, mut decoder) = ready();
    let generation = synchronize(&mut reducer, &mut decoder, b"git che", "git che", 7);
    present(
        &mut reducer,
        generation,
        suggestion(
            "git che",
            "git cherry-pick",
            SuggestionSource::Spec,
            InsertionBehavior::Exact,
        ),
    );

    let reduction = reducer.route_input(b"\r");
    assert!(forwarded(reduction.effects()) == b"\r");
    assert!(
        !reduction
            .effects()
            .effects()
            .iter()
            .any(|effect| matches!(effect, SessionEffect::ReplaceBuffer(_)))
    );
    let clear = reduction
        .effects()
        .effects()
        .iter()
        .position(|effect| matches!(effect, SessionEffect::ClearOverlay));
    let enter = reduction.effects().effects().iter().position(
        |effect| matches!(effect, SessionEffect::ForwardInput(bytes) if bytes.as_slice() == b"\r"),
    );
    assert!(clear.is_some_and(|clear| enter.is_some_and(|enter| clear < enter)));
}

#[test]
fn bracketed_paste_is_forwarded_byte_exact_without_acceptance() {
    let (mut reducer, _) = ready();
    let paste = b"\x1b[200~g\nwhoami && ll\x1b[201~";
    let reduction = reducer.route_input(paste);
    assert!(forwarded(reduction.effects()) == paste);
    assert!(!reduction.effects().effects().iter().any(|effect| {
        matches!(
            effect,
            SessionEffect::ReplaceBuffer(_) | SessionEffect::StartQuery { .. }
        )
    }));
}

#[test]
fn unicode_character_cursor_becomes_authoritative_byte_cursor() {
    let (mut reducer, mut decoder) = ready();
    let reduction = reducer.route_input(b"x");
    let nonce = reduction
        .effects()
        .effects()
        .iter()
        .find_map(|effect| match effect {
            SessionEffect::RequestBufferSync(nonce) => Some(nonce.get()),
            _ => None,
        })
        .unwrap();
    let frame = format!("probe-buffer:c:{nonce}:4:echo \u{4e16}\u{754c}\0");
    apply_wire(&mut reducer, &mut decoder, frame.as_bytes());

    let query = reducer.active_query().unwrap();
    assert!(query.line == "echo \u{4e16}\u{754c}");
    assert!(query.cursor == 4);
    assert!(query.prefix() == "echo");
}

#[test]
fn late_provider_results_cannot_restore_old_selection() {
    let (mut reducer, mut decoder) = ready();
    let generation = synchronize(&mut reducer, &mut decoder, b"g", "g", 1);
    let candidate = suggestion("g", "git", SuggestionSource::Spec, InsertionBehavior::Exact);
    let _ = reducer.route_input(b"i");

    assert!(matches!(
        reducer.accept_provider_batch(ProviderBatch::success(
            PROVIDER,
            generation,
            vec![candidate.clone()]
        )),
        BatchOutcome::Rejected(BatchRejection::Authority(_))
    ));
    assert!(matches!(
        reducer
            .apply_ranked_candidates(generation, vec![candidate])
            .outcome(),
        PresentationOutcome::Rejected(PresentationRejection::Authority(_))
    ));
    assert!(!reducer.selection().is_visible());
}

#[test]
fn mismatching_history_preview_ack_uses_the_accepted_shell_buffer() {
    let (mut reducer, mut decoder) = ready();
    let _ = synchronize(&mut reducer, &mut decoder, b"git", "git", 3);
    let nonce = request_history_preview(&mut reducer, "git", "git status");
    assert!(!reducer.history_preview_active());

    let frame = format!("probe-buffer:b:{nonce}:10:git branch\0");
    let effects = apply_wire(&mut reducer, &mut decoder, frame.as_bytes());
    let query = effects
        .iter()
        .flat_map(EffectBatch::effects)
        .find_map(|effect| match effect {
            SessionEffect::StartQuery { mode, work, .. } if *mode == SessionMode::History => {
                Some(work.query())
            }
            _ => None,
        })
        .unwrap();
    assert!(query.line == "git branch");
    assert!(query.cursor == 10);
    assert!(!reducer.history_preview_active());
    assert!(reducer.history_origin().is_none());
}

#[test]
fn prompt_ready_replaces_acknowledged_history_preview_authority_with_empty_text() {
    let (mut reducer, mut decoder) = ready();
    let _ = synchronize(&mut reducer, &mut decoder, b"git", "git", 3);
    let nonce = request_history_preview(&mut reducer, "git", "git status");
    let frame = format!("probe-buffer:b:{nonce}:10:git status\0");
    let _ = apply_wire(&mut reducer, &mut decoder, frame.as_bytes());
    assert!(reducer.history_preview_active());

    let effects = apply_wire(&mut reducer, &mut decoder, b"prompt-ready\0");
    let query = effects
        .iter()
        .flat_map(EffectBatch::effects)
        .find_map(|effect| match effect {
            SessionEffect::StartQuery { mode, work, .. } if *mode == SessionMode::History => {
                Some(work.query())
            }
            _ => None,
        })
        .unwrap();
    assert!(query.line.is_empty());
    assert!(query.cursor == 0);
    assert!(!reducer.history_preview_active());
    assert!(reducer.history_origin().is_none());
}

#[test]
fn history_preview_authority_is_dropped_after_rejected_frame() {
    let (mut reducer, mut decoder) = ready();
    let _ = synchronize(&mut reducer, &mut decoder, b"git", "git", 3);
    let nonce = request_history_preview(&mut reducer, "git", "git status");
    let frame = format!("probe-buffer:b:{nonce}:10:git status\0");
    let _ = apply_wire(&mut reducer, &mut decoder, frame.as_bytes());
    assert!(reducer.history_preview_active());

    let _ = apply_wire(&mut reducer, &mut decoder, b"not-an-event\0");
    assert!(!reducer.history_preview_active());
    assert!(reducer.history_origin().is_none());

    let pending = reducer.route_input(b"\x1b");
    assert!(pending.effects().is_empty());
    let escape = reducer.flush_input();
    assert!(forwarded(escape.effects()) == b"\x1b");
    assert!(
        !escape
            .effects()
            .effects()
            .iter()
            .any(|effect| matches!(effect, SessionEffect::ReplaceBuffer(_)))
    );
}

#[test]
fn cursor_actions_abandon_history_origin_before_resynchronizing() {
    let cases: &[(&[u8], usize)] = &[
        (b"\x1b[D", 9),
        (b"\x1b[H", 0),
        (b"\x1b[F", 10),
        (b"\x01", 0),
        (b"\x05", 10),
    ];

    for &(input, cursor) in cases {
        let (mut reducer, mut decoder) = ready();
        let _ = synchronize(&mut reducer, &mut decoder, b"git", "git", 3);
        let preview_nonce = request_history_preview(&mut reducer, "git", "git status");
        let frame = format!("probe-buffer:b:{preview_nonce}:10:git status\0");
        let _ = apply_wire(&mut reducer, &mut decoder, frame.as_bytes());
        assert!(reducer.history_preview_active());

        let action = reducer.route_input(input);
        assert!(forwarded(action.effects()) == input);
        assert!(!reducer.history_preview_active());
        assert!(reducer.history_origin().is_none());
        let nonce = action
            .effects()
            .effects()
            .iter()
            .find_map(|effect| match effect {
                SessionEffect::RequestBufferSync(nonce) => Some(nonce.get()),
                _ => None,
            })
            .unwrap();
        let frame = format!("probe-buffer:b:{nonce}:{cursor}:git status\0");
        let _ = apply_wire(&mut reducer, &mut decoder, frame.as_bytes());
        let query = reducer.active_query().unwrap();
        assert!(query.line == "git status");
        assert!(query.cursor == cursor);
    }
}

#[test]
fn enter_does_not_admit_a_preboundary_probe_response() {
    let (mut reducer, mut decoder) = ready();
    let typed = reducer.route_input(b"g");
    let old_nonce = typed
        .effects()
        .effects()
        .iter()
        .find_map(|effect| match effect {
            SessionEffect::RequestBufferSync(nonce) => Some(nonce.get()),
            _ => None,
        })
        .unwrap();

    let enter = reducer.route_input(b"\r");
    assert!(forwarded(enter.effects()) == b"\r");
    assert!(reducer.input_boundary_fence());
    assert!(reducer.active_query().is_none());
    let clear = enter
        .effects()
        .effects()
        .iter()
        .position(|effect| matches!(effect, SessionEffect::ClearOverlay));
    let forwarded = enter.effects().effects().iter().position(
        |effect| matches!(effect, SessionEffect::ForwardInput(bytes) if bytes.as_slice() == b"\r"),
    );
    assert!(clear.is_some_and(|clear| forwarded.is_some_and(|forwarded| clear < forwarded)));

    let frame = format!("probe-buffer:b:{old_nonce}:1:g\0");
    let effects = apply_wire(&mut reducer, &mut decoder, frame.as_bytes());
    assert!(reducer.input_boundary_fence());
    assert!(reducer.active_query().is_none());
    assert!(
        effects
            .iter()
            .flat_map(EffectBatch::effects)
            .all(|effect| !matches!(effect, SessionEffect::StartQuery { .. }))
    );
}

#[test]
fn typed_alias_space_requests_background_validation_and_inert_replacement() {
    let (mut reducer, mut decoder) = ready();
    let _ = synchronize(&mut reducer, &mut decoder, b"gs", "gs", 2);

    let space = reducer.route_input(b" ");
    assert!(forwarded(space.effects()) == b" ");
    let nonce = space
        .effects()
        .effects()
        .iter()
        .find_map(|effect| match effect {
            SessionEffect::RequestBufferSync(nonce) => Some(nonce.get()),
            _ => None,
        })
        .unwrap();
    let frame = format!("probe-buffer:b:{nonce}:3:gs \0");
    let effects = apply_wire(&mut reducer, &mut decoder, frame.as_bytes());
    let (work, alias_expansion) = query_effect(&effects);
    assert!(alias_expansion);
    assert!(work.query().line == "gs ");
    let generation = work.query().generation;

    let replacement = reducer.apply_alias_expansion(
        generation,
        TextEdit {
            range: 0..2,
            replacement: "git status".to_owned(),
        },
    );
    assert!(matches!(
        replacement.effects(),
        [
            SessionEffect::ClearOverlay,
            SessionEffect::ReplaceBuffer(value),
            SessionEffect::RequestBufferSync(_)
        ] if value.as_str() == "git status " && value.cursor() == 11
    ));
    assert!(reducer.replacement_pending());
    assert!(reducer.active_query().is_none());
}

#[test]
fn pasted_space_never_requests_alias_expansion() {
    let (mut reducer, mut decoder) = ready();
    let paste = reducer.route_input(b"\x1b[200~gs \x1b[201~");
    assert!(forwarded(paste.effects()) == b"\x1b[200~gs \x1b[201~");
    let nonce = paste
        .effects()
        .effects()
        .iter()
        .find_map(|effect| match effect {
            SessionEffect::RequestBufferSync(nonce) => Some(nonce.get()),
            _ => None,
        })
        .unwrap();
    let frame = format!("probe-buffer:b:{nonce}:3:gs \0");
    let effects = apply_wire(&mut reducer, &mut decoder, frame.as_bytes());
    let (_, alias_expansion) = query_effect(&effects);
    assert!(!alias_expansion);
}

#[test]
fn stale_or_cancelled_alias_expansion_is_ignored() {
    let (mut reducer, mut decoder) = ready();
    let generation = synchronize(&mut reducer, &mut decoder, b"gs ", "gs ", 3);
    let edit = TextEdit {
        range: 0..2,
        replacement: "git status".to_owned(),
    };

    assert!(
        reducer
            .apply_alias_expansion(generation.saturating_add(1), edit.clone())
            .is_empty()
    );
    let _ = reducer.observe_shell_output();
    assert!(reducer.apply_alias_expansion(generation, edit).is_empty());
    assert!(!reducer.replacement_pending());
}

#[test]
fn shell_redraw_at_editable_prompt_resynchronizes_the_active_buffer() {
    let (mut reducer, mut decoder) = ready();
    let first_generation = synchronize(&mut reducer, &mut decoder, b"ssh-", "ssh-", 4);

    let effects = reducer.observe_shell_output();
    let nonce = effects
        .effects()
        .iter()
        .find_map(|effect| match effect {
            SessionEffect::RequestBufferSync(nonce) => Some(nonce.get()),
            _ => None,
        })
        .unwrap();
    assert!(reducer.active_query().is_none());

    let frame = format!("probe-buffer:b:{nonce}:4:ssh-\0");
    let effects = apply_wire(&mut reducer, &mut decoder, frame.as_bytes());
    let (work, _) = query_effect(&effects);

    assert!(work.query().line == "ssh-");
    assert!(work.query().generation > first_generation);
}

#[test]
fn prompt_after_fenced_typeahead_requires_a_newer_probe() {
    let (mut reducer, mut decoder) = ready();
    let enter = reducer.route_input(b"\r");
    assert!(forwarded(enter.effects()) == b"\r");
    let typeahead = reducer.route_input(b"x");
    assert!(forwarded(typeahead.effects()) == b"x");
    assert!(reducer.fenced_input_pending());

    let effects = apply_wire(&mut reducer, &mut decoder, b"prompt-ready\0");
    let nonce = effects
        .iter()
        .flat_map(EffectBatch::effects)
        .find_map(|effect| match effect {
            SessionEffect::RequestBufferSync(nonce) => Some(nonce.get()),
            _ => None,
        })
        .unwrap();
    assert!(reducer.input_boundary_fence());
    assert!(reducer.active_query().is_none());

    let frame = format!("probe-buffer:b:{nonce}:1:x\0");
    let effects = apply_wire(&mut reducer, &mut decoder, frame.as_bytes());
    let query = effects
        .iter()
        .flat_map(EffectBatch::effects)
        .find_map(|effect| match effect {
            SessionEffect::StartQuery { work, .. } => Some(work.query()),
            _ => None,
        })
        .unwrap();
    assert!(query.line == "x");
    assert!(query.cursor == 1);
    assert!(!reducer.input_boundary_fence());
}

#[test]
fn enter_fences_same_batch_and_later_actions_until_causal_sync() {
    let (mut reducer, mut decoder) = ready();
    let generation = synchronize(&mut reducer, &mut decoder, b"g", "g", 1);
    present(
        &mut reducer,
        generation,
        suggestion("g", "git", SuggestionSource::Spec, InsertionBehavior::Exact),
    );

    let same_read = b"\r\x12\x10\t\x1b[Z";
    let reduction = reducer.route_input(same_read);
    assert!(forwarded(reduction.effects()) == same_read);
    assert!(reducer.input_boundary_fence());
    assert!(!reduction.effects().effects().iter().any(|effect| {
        matches!(
            effect,
            SessionEffect::ModeChanged(_)
                | SessionEffect::ReplaceBuffer(_)
                | SessionEffect::RefreshOverlay
                | SessionEffect::StartQuery { .. }
                | SessionEffect::RequestBufferSync(_)
        )
    }));

    let later_read = b"\x12\x10\t\x1b[Z";
    let reduction = reducer.route_input(later_read);
    assert!(forwarded(reduction.effects()) == later_read);
    assert!(reduction.effects().len() == 1);
    assert!(reducer.input_boundary_fence());

    let effects = apply_wire(&mut reducer, &mut decoder, b"prompt-ready\0");
    let nonce = effects
        .iter()
        .flat_map(EffectBatch::effects)
        .find_map(|effect| match effect {
            SessionEffect::RequestBufferSync(nonce) => Some(nonce.get()),
            _ => None,
        })
        .unwrap();
    assert!(reducer.input_boundary_fence());
    assert!(reducer.active_query().is_none());

    let frame = format!("probe-buffer:b:{nonce}:0:\0");
    let _ = apply_wire(&mut reducer, &mut decoder, frame.as_bytes());
    assert!(!reducer.input_boundary_fence());
    let toggle = reducer.route_input(b"\x12");
    assert!(forwarded(toggle.effects()).is_empty());
    assert!(reducer.mode() == SessionMode::History);
}

#[test]
fn queued_command_boundary_never_injects_a_probe_into_the_next_command() {
    let (mut reducer, mut decoder) = ready();

    let queued = reducer.route_input(b"\recho hi\r");
    assert!(forwarded(queued.effects()) == b"\recho hi\r");
    assert!(reducer.queued_input_boundaries() == 2);
    assert!(!reducer.fenced_input_pending());
    assert!(queued.effects().effects().iter().all(|effect| {
        !matches!(
            effect,
            SessionEffect::RequestBufferSync(_) | SessionEffect::StartQuery { .. }
        )
    }));

    let lifecycle = apply_wire(
        &mut reducer,
        &mut decoder,
        b"command-start:first\0command-stop:0\0prompt-ready\0command-start:echo hi\0",
    );
    assert!(lifecycle.len() == 4);
    assert!(
        lifecycle
            .iter()
            .flat_map(EffectBatch::effects)
            .all(|effect| {
                !matches!(
                    effect,
                    SessionEffect::RequestBufferSync(_) | SessionEffect::StartQuery { .. }
                )
            })
    );
    assert!(reducer.queued_input_boundaries() == 1);
    assert!(reducer.input_boundary_fence());
    assert!(reducer.shell().foreground() == ForegroundCommandState::Running);

    let final_prompt = apply_wire(
        &mut reducer,
        &mut decoder,
        b"command-stop:0\0prompt-ready\0",
    );
    assert!(
        final_prompt
            .iter()
            .flat_map(EffectBatch::effects)
            .all(|effect| !matches!(effect, SessionEffect::RequestBufferSync(_)))
    );
    assert!(reducer.queued_input_boundaries() == 0);
    assert!(!reducer.input_boundary_fence());
}

#[test]
fn forwarded_input_before_a_delayed_queued_start_stays_fenced() {
    let (mut reducer, mut decoder) = ready();
    let queued = reducer.route_input(b"first\rsecond\r");
    assert!(forwarded(queued.effects()) == b"first\rsecond\r");

    let first_prompt = apply_wire(
        &mut reducer,
        &mut decoder,
        b"command-start:first\0command-stop:0\0prompt-ready\0",
    );
    assert!(
        first_prompt
            .iter()
            .flat_map(EffectBatch::effects)
            .all(|effect| !matches!(effect, SessionEffect::RequestBufferSync(_)))
    );
    assert!(reducer.fence_prompt_observed());

    let typed = reducer.route_input(b"x");
    assert!(forwarded(typed.effects()) == b"x");
    assert!(typed.effects().effects().iter().all(|effect| {
        !matches!(
            effect,
            SessionEffect::RequestBufferSync(_)
                | SessionEffect::StartQuery { .. }
                | SessionEffect::ReplaceBuffer(_)
        )
    }));
    assert!(reducer.input_boundary_fence());
    assert!(reducer.fenced_input_pending());

    let final_prompt = apply_wire(
        &mut reducer,
        &mut decoder,
        b"command-start:second\0command-stop:0\0prompt-ready\0",
    );
    assert!(
        final_prompt
            .iter()
            .take(2)
            .flat_map(EffectBatch::effects)
            .all(|effect| !matches!(effect, SessionEffect::RequestBufferSync(_)))
    );
    assert!(
        final_prompt
            .last()
            .unwrap()
            .effects()
            .iter()
            .any(|effect| matches!(effect, SessionEffect::RequestBufferSync(_)))
    );
    assert!(reducer.input_boundary_fence());
}

#[test]
fn multiline_enters_collapse_for_a_local_toggle_at_the_stable_prompt() {
    let (mut reducer, mut decoder) = ready();
    let input = b"echo \"Troy\rBarnes\"\r";
    let multiline = reducer.route_input(input);
    assert!(forwarded(multiline.effects()) == input);
    assert!(reducer.queued_input_boundaries() == 2);

    let lifecycle = apply_wire(
        &mut reducer,
        &mut decoder,
        b"command-start:echo Troy Barnes\0command-stop:0\0prompt-ready\0",
    );
    assert!(
        lifecycle
            .iter()
            .flat_map(EffectBatch::effects)
            .all(|effect| {
                !matches!(
                    effect,
                    SessionEffect::RequestBufferSync(_) | SessionEffect::StartQuery { .. }
                )
            })
    );
    assert!(reducer.queued_input_boundaries() == 1);
    assert!(reducer.fence_prompt_observed());

    let toggle = reducer.route_input(b"\x12");
    assert!(forwarded(toggle.effects()).is_empty());
    assert!(reducer.mode() == SessionMode::History);
    assert!(reducer.queued_input_boundaries() == 0);
    assert!(!reducer.input_boundary_fence());
}

#[test]
fn prestart_ctrl_c_does_not_predict_a_second_prompt() {
    let (mut reducer, mut decoder) = ready();
    let input = b"sleep 10\r\x03";
    let interrupted = reducer.route_input(input);
    assert!(forwarded(interrupted.effects()) == input);
    assert!(reducer.queued_input_boundaries() == 2);

    let lifecycle = apply_wire(
        &mut reducer,
        &mut decoder,
        b"command-start:sleep 10\0command-stop:130\0prompt-ready\0",
    );
    assert!(
        lifecycle
            .iter()
            .flat_map(EffectBatch::effects)
            .all(|effect| {
                !matches!(
                    effect,
                    SessionEffect::RequestBufferSync(_) | SessionEffect::StartQuery { .. }
                )
            })
    );
    assert!(reducer.queued_input_boundaries() == 1);
    assert!(reducer.fence_prompt_observed());

    let toggle = reducer.route_input(b"\x12");
    assert!(forwarded(toggle.effects()).is_empty());
    assert!(reducer.mode() == SessionMode::History);
    assert!(reducer.queued_input_boundaries() == 0);
    assert!(!reducer.input_boundary_fence());
}

#[test]
fn prestart_ctrl_c_in_a_later_read_has_the_same_single_prompt_lifecycle() {
    let (mut reducer, mut decoder) = ready();
    let command = reducer.route_input(b"sleep 10\r");
    let interrupted = reducer.route_input(b"\x03");
    assert!(forwarded(command.effects()) == b"sleep 10\r");
    assert!(forwarded(interrupted.effects()) == b"\x03");
    assert!(reducer.queued_input_boundaries() == 2);

    let _ = apply_wire(
        &mut reducer,
        &mut decoder,
        b"command-start:sleep 10\0command-stop:130\0prompt-ready\0",
    );
    let toggle = reducer.route_input(b"\x12");
    assert!(forwarded(toggle.effects()).is_empty());
    assert!(reducer.mode() == SessionMode::History);
    assert!(!reducer.input_boundary_fence());
}

#[test]
fn multiline_then_queued_command_stays_fenced_through_both_lifecycles() {
    let (mut reducer, mut decoder) = ready();
    let input = b"echo \"Troy\rBarnes\"\recho hi\r";
    let queued = reducer.route_input(input);
    assert!(forwarded(queued.effects()) == input);
    assert!(reducer.queued_input_boundaries() == 3);

    let lifecycles = apply_wire(
        &mut reducer,
        &mut decoder,
        b"command-start:echo Troy Barnes\0command-stop:0\0prompt-ready\0\
          command-start:echo hi\0command-stop:0\0prompt-ready\0",
    );
    assert!(
        lifecycles
            .iter()
            .flat_map(EffectBatch::effects)
            .all(|effect| {
                !matches!(
                    effect,
                    SessionEffect::RequestBufferSync(_) | SessionEffect::StartQuery { .. }
                )
            })
    );
    assert!(reducer.queued_input_boundaries() == 1);
    assert!(reducer.fence_prompt_observed());

    let toggle = reducer.route_input(b"\x12");
    assert!(forwarded(toggle.effects()).is_empty());
    assert!(reducer.mode() == SessionMode::History);
    assert!(!reducer.input_boundary_fence());
}

#[test]
fn queued_enter_while_probe_is_pending_does_not_request_a_new_probe() {
    let (mut reducer, mut decoder) = ready();
    let _ = reducer.route_input(b"\r");
    let _ = reducer.route_input(b"x");
    let prompt = apply_wire(&mut reducer, &mut decoder, b"prompt-ready\0");
    let nonce = prompt
        .iter()
        .flat_map(EffectBatch::effects)
        .find_map(|effect| match effect {
            SessionEffect::RequestBufferSync(nonce) => Some(nonce.get()),
            _ => None,
        })
        .unwrap();

    let queued = reducer.route_input(b"\r");
    assert!(forwarded(queued.effects()) == b"\r");
    assert!(reducer.queued_input_boundaries() == 1);
    assert!(
        queued
            .effects()
            .effects()
            .iter()
            .all(|effect| !matches!(effect, SessionEffect::RequestBufferSync(_)))
    );

    let stale = format!("probe-buffer:b:{nonce}:1:x\0");
    let mut frames = decoder.push(stale.as_bytes());
    let (update, effects) = reducer.apply_shell_frame(frames.pop().unwrap());
    assert!(matches!(update, StateUpdate::SnapshotRejected(_)));
    assert!(
        effects
            .effects()
            .iter()
            .all(|effect| !matches!(effect, SessionEffect::RequestBufferSync(_)))
    );
    assert!(reducer.queued_input_boundaries() == 1);
    assert!(reducer.input_boundary_fence());

    let final_prompt = apply_wire(
        &mut reducer,
        &mut decoder,
        b"command-start:x\0command-stop:0\0prompt-ready\0",
    );
    assert!(
        final_prompt
            .iter()
            .flat_map(EffectBatch::effects)
            .all(|effect| !matches!(effect, SessionEffect::RequestBufferSync(_)))
    );
    assert!(reducer.queued_input_boundaries() == 0);
    assert!(!reducer.input_boundary_fence());
}

#[test]
fn ctrl_c_while_foreground_does_not_add_an_extra_prompt_boundary() {
    let (mut reducer, mut decoder) = ready();
    let command = reducer.route_input(b"sleep 10\r");
    assert!(forwarded(command.effects()) == b"sleep 10\r");
    let _ = apply_wire(&mut reducer, &mut decoder, b"command-start:sleep 10\0");
    assert!(reducer.shell().foreground() == ForegroundCommandState::Running);
    assert!(reducer.queued_input_boundaries() == 1);

    let interrupted = reducer.route_input(b"\x03");
    assert!(forwarded(interrupted.effects()) == b"\x03");
    assert!(reducer.queued_input_boundaries() == 1);

    let _ = apply_wire(
        &mut reducer,
        &mut decoder,
        b"command-stop:130\0prompt-ready\0",
    );
    assert!(reducer.queued_input_boundaries() == 0);
    assert!(!reducer.input_boundary_fence());

    let toggle = reducer.route_input(b"\x12");
    assert!(forwarded(toggle.effects()).is_empty());
    assert!(reducer.mode() == SessionMode::History);
}

#[test]
fn ctrl_c_fences_later_mode_toggle_until_causal_sync() {
    let (mut reducer, mut decoder) = ready();
    let _ = synchronize(&mut reducer, &mut decoder, b"git", "git", 3);

    let interrupt = reducer.route_input(b"\x03");
    assert!(forwarded(interrupt.effects()) == b"\x03");
    assert!(reducer.input_boundary_fence());
    assert!(reducer.active_query().is_none());

    let toggle = reducer.route_input(b"\x12");
    assert!(forwarded(toggle.effects()) == b"\x12");
    assert!(reducer.mode() == SessionMode::Spec);
    assert!(reducer.active_query().is_none());
    assert!(!toggle.effects().effects().iter().any(|effect| {
        matches!(
            effect,
            SessionEffect::ModeChanged(_) | SessionEffect::StartQuery { .. }
        )
    }));

    let effects = apply_wire(&mut reducer, &mut decoder, b"prompt-ready\0");
    assert!(reducer.input_boundary_fence());
    assert!(
        effects
            .iter()
            .flat_map(EffectBatch::effects)
            .any(|effect| matches!(effect, SessionEffect::RequestBufferSync(_)))
    );
    assert!(reducer.active_query().is_none());
}

#[test]
fn ctrl_c_after_unacknowledged_input_resynchronizes_at_the_suppressed_prompt() {
    let (mut reducer, mut decoder) = ready();

    let interrupted = reducer.route_input(b"x\x03");
    assert!(forwarded(interrupted.effects()) == b"x\x03");
    assert!(reducer.input_boundary_fence());
    assert!(reducer.probe_needed());
    assert!(
        interrupted
            .effects()
            .effects()
            .iter()
            .all(|effect| { !matches!(effect, SessionEffect::RequestBufferSync(_)) })
    );

    let mut frames = decoder.push(b"prompt-ready\0");
    let (update, effects) = reducer.apply_shell_frame(frames.pop().unwrap());
    assert!(update == StateUpdate::LifecycleSuppressed);
    let nonce = effects
        .effects()
        .iter()
        .find_map(|effect| match effect {
            SessionEffect::RequestBufferSync(nonce) => Some(nonce.get()),
            _ => None,
        })
        .unwrap();
    assert!(
        effects
            .effects()
            .iter()
            .all(|effect| !matches!(effect, SessionEffect::StartQuery { .. }))
    );
    assert!(reducer.input_boundary_fence());

    let frame = format!("probe-buffer:b:{nonce}:0:\0");
    let _ = apply_wire(&mut reducer, &mut decoder, frame.as_bytes());
    assert!(!reducer.input_boundary_fence());
    assert!(reducer.active_query().is_none());
}

#[test]
fn shift_tab_falls_back_unless_it_is_the_configured_menu_binding() {
    let (mut reducer, mut decoder) = ready();
    let generation = synchronize(&mut reducer, &mut decoder, b"g", "g", 1);
    present(
        &mut reducer,
        generation,
        suggestion("g", "git", SuggestionSource::Spec, InsertionBehavior::Exact),
    );
    let fallback = reducer.route_input(b"\x1b[Z");
    assert!(forwarded(fallback.effects()) == b"\x1b[Z");
    assert!(reducer.selection().layer_enabled());
    assert!(!fallback.effects().effects().iter().any(|effect| {
        matches!(
            effect,
            SessionEffect::ModeChanged(_)
                | SessionEffect::ReplaceBuffer(_)
                | SessionEffect::RefreshOverlay
        )
    }));

    let mut configured = SessionReducer::new(
        StreamEpoch::initial(),
        b"\x12",
        b"\x1b[Z",
        vec![PROVIDER.to_owned()],
        10,
        b"/tmp".to_vec(),
    )
    .unwrap();
    let mut configured_decoder = ShellEventDecoder::new(StreamEpoch::initial());
    let _ = apply_wire(
        &mut configured,
        &mut configured_decoder,
        b"capability:sync-probe:0\0prompt-ready\0",
    );
    let handled = configured.route_input(b"\x1b[Z");
    assert!(forwarded(handled.effects()).is_empty());
    assert!(!configured.selection().layer_enabled());
}

#[test]
fn cwd_update_is_bounded_atomic_and_restarts_safe_query_authority() {
    let (mut reducer, mut decoder) = ready();
    let old_generation = synchronize(&mut reducer, &mut decoder, b"git", "git", 3);

    let effects = reducer.update_cwd(b"/var/tmp".to_vec()).unwrap();
    let work = effects
        .effects()
        .iter()
        .find_map(|effect| match effect {
            SessionEffect::StartQuery { work, .. } => Some(work),
            _ => None,
        })
        .unwrap();
    assert!(work.query().cwd == b"/var/tmp".to_vec());
    assert!(reducer.cwd() == b"/var/tmp".as_slice());
    assert!(work.query().generation != old_generation);
    assert!(matches!(
        reducer.accept_provider_batch(ProviderBatch::success(
            PROVIDER,
            old_generation,
            Vec::new()
        )),
        BatchOutcome::Rejected(BatchRejection::Authority(_))
    ));

    let generation = reducer.active_query().unwrap().generation;
    assert!(reducer.update_cwd(b"relative/path".to_vec()).err().unwrap() == CwdUpdateError::NotAbsolute);
    assert!(reducer.cwd() == b"/var/tmp".as_slice());
    assert!(reducer.active_query().unwrap().generation == generation);

    let oversized = format!("/{}", "a".repeat(MAX_QUERY_CWD_BYTES));
    assert!(matches!(
        reducer.update_cwd(oversized.into_bytes()),
        Err(CwdUpdateError::TooLarge { .. })
    ));
    assert!(reducer.cwd() == b"/var/tmp".as_slice());
    assert!(reducer.active_query().unwrap().generation == generation);
}

#[test]
fn cwd_restart_deferred_by_empty_paste_runs_when_paste_ends() {
    let (mut reducer, mut decoder) = ready();
    let _ = synchronize(&mut reducer, &mut decoder, b"git", "git", 3);

    let start = reducer.route_input(b"\x1b[200~");
    assert!(forwarded(start.effects()) == b"\x1b[200~");
    let update = reducer.update_cwd(b"/var/tmp".to_vec()).unwrap();
    assert!(reducer.query_restart_deferred());
    assert!(
        update
            .effects()
            .iter()
            .all(|effect| !matches!(effect, SessionEffect::StartQuery { .. }))
    );

    let end = reducer.route_input(b"\x1b[201~");
    assert!(forwarded(end.effects()) == b"\x1b[201~");
    let work = end
        .effects()
        .effects()
        .iter()
        .find_map(|effect| match effect {
            SessionEffect::StartQuery { work, .. } => Some(work),
            _ => None,
        })
        .unwrap();
    assert!(work.query().line == "git");
    assert!(work.query().cursor == 3);
    assert!(work.query().cwd == b"/var/tmp".to_vec());
    assert!(!reducer.query_restart_deferred());
}

#[test]
fn leaving_history_restores_original_buffer_after_preview() {
    let (mut reducer, mut decoder) = ready();
    let original_generation =
        synchronize(&mut reducer, &mut decoder, b"git", "git", "git".len());
    assert!(reducer.active_query().unwrap().generation == original_generation);

    let toggle = reducer.route_input(b"\x12");
    let history_generation = toggle
        .effects()
        .effects()
        .iter()
        .find_map(|effect| match effect {
            SessionEffect::StartQuery { mode, work, .. } if *mode == SessionMode::History => {
                Some(work.query().generation)
            }
            _ => None,
        })
        .unwrap();
    let history = suggestion(
        "git",
        "git status",
        SuggestionSource::History,
        InsertionBehavior::Exact,
    );
    present(&mut reducer, history_generation, history);

    let preview = reducer.route_input(b"\x1b[A");
    let nonce = preview
        .effects()
        .effects()
        .iter()
        .find_map(|effect| match effect {
            SessionEffect::RequestBufferSync(nonce) => Some(nonce.get()),
            _ => None,
        })
        .unwrap();
    assert!(preview.effects().effects().iter().any(|effect| {
        matches!(effect, SessionEffect::ReplaceBuffer(value) if value.as_str() == "git status")
    }));
    let frame = format!("probe-buffer:b:{nonce}:10:git status\0");
    apply_wire(&mut reducer, &mut decoder, frame.as_bytes());

    let restore = reducer.route_input(b"\x12");
    assert!(restore.effects().effects().iter().any(|effect| {
        matches!(effect, SessionEffect::ReplaceBuffer(value) if value.as_str() == "git" && value.cursor() == 3)
    }));
    assert!(reducer.mode() == SessionMode::Spec);
}

#[test]
fn escape_unwinds_acknowledged_history_before_forwarding_and_requires_ack() {
    let (mut reducer, mut decoder) = ready();
    let _ = synchronize(&mut reducer, &mut decoder, b"git", "git", 3);
    let preview_nonce = request_history_preview(&mut reducer, "git", "git status");
    let frame = format!("probe-buffer:b:{preview_nonce}:10:git status\0");
    let _ = apply_wire(&mut reducer, &mut decoder, frame.as_bytes());
    assert!(reducer.history_preview_active());

    let pending_escape = reducer.route_input(b"\x1b");
    assert!(pending_escape.effects().is_empty());
    let unwind = reducer.flush_input();
    let effects = unwind.effects().effects();
    let replacement = effects.iter().position(|effect| {
        matches!(effect, SessionEffect::ReplaceBuffer(value) if value.as_str() == "git" && value.cursor() == 3)
    });
    let escape = effects.iter().position(|effect| {
        matches!(effect, SessionEffect::ForwardInput(bytes) if bytes.as_slice() == b"\x1b")
    });
    let sync = effects
        .iter()
        .position(|effect| matches!(effect, SessionEffect::RequestBufferSync(_)));
    assert!(replacement.is_some_and(|replacement| {
        escape
            .is_some_and(|escape| sync.is_some_and(|sync| replacement < sync && sync < escape))
    }));
    assert!(reducer.mode() == SessionMode::Spec);
    assert!(reducer.replacement_pending());
    assert!(reducer.active_query().is_none());

    let nonce = effects
        .iter()
        .find_map(|effect| match effect {
            SessionEffect::RequestBufferSync(nonce) => Some(nonce.get()),
            _ => None,
        })
        .unwrap();
    let frame = format!("probe-buffer:b:{nonce}:3:git\0");
    let _ = apply_wire(&mut reducer, &mut decoder, frame.as_bytes());
    assert!(!reducer.replacement_pending());
    assert!(reducer.active_query().unwrap().line == "git");
    assert!(reducer.active_query().unwrap().cursor == 3);
}

#[test]
fn authority_effect_wrappers_are_not_clone() {
    trait AmbiguousIfClone<Marker> {
        fn marker() {}
    }
    struct CloneMarker;
    impl<T: ?Sized> AmbiguousIfClone<()> for T {}
    impl<T: Clone> AmbiguousIfClone<CloneMarker> for T {}

    let _check: fn() = <SessionEffect as AmbiguousIfClone<_>>::marker;
    let _check: fn() = <EffectBatch as AmbiguousIfClone<_>>::marker;
    let _check: fn() = <InputReduction as AmbiguousIfClone<_>>::marker;
    let _check: fn() = <PresentationReduction as AmbiguousIfClone<_>>::marker;
}

#[test]
fn sensitive_input_and_replacements_are_redacted_from_debug() {
    let replacement = BufferReplacement::new("secret-token".to_owned(), 12).unwrap();
    let batch = EffectBatch::from_effects(vec![
        SessionEffect::ForwardInput(b"hunter2".to_vec()),
        SessionEffect::ReplaceBuffer(replacement),
    ]);
    let debug = batch.debug_text();
    assert!(!debug.contains("hunter2"));
    assert!(!debug.contains("secret-token"));
    assert!(debug.contains("byte_count"));
}

#[test]
fn another_spelling_of_the_directory_is_no_change() {
    let (mut reducer, mut decoder) = ready();
    let _ = synchronize(&mut reducer, &mut decoder, b"git", "git", 3);
    let effects = apply_wire(&mut reducer, &mut decoder, b"cwd:/tmp/\0");
    assert!(effects.iter().all(|batch| batch.effects().is_empty()));
    assert!(reducer.cwd() == b"/tmp".as_slice());
    assert!(reducer.active_query().is_some());
    let _ = apply_wire(&mut reducer, &mut decoder, b"cwd:/var/tmp\0");
    assert!(reducer.cwd() == b"/var/tmp".as_slice());
    assert!(reducer.active_query().is_none() && reducer.query_restart_deferred());
}

#[test]
fn plain_input_reaches_the_shell_unchanged_and_bounded() {
    let (mut reducer, mut decoder) = ready();
    let generation = synchronize(&mut reducer, &mut decoder, b"git", "git", 3);
    present(
        &mut reducer,
        generation,
        suggestion("git", "git status", SuggestionSource::Spec, InsertionBehavior::Exact),
    );
    let input: Vec<u8> = b"x\x7f\x01\x05\x17\r\x03".iter().copied().cycle().take(300).collect();
    let mut sent = Vec::new();
    let mut rest = input.as_slice();
    while !rest.is_empty() {
        let reduction = reducer.route_input(rest);
        assert!(reduction.effects().effects().len() <= MAX_SESSION_EFFECTS);
        assert!(
            !reduction
                .effects()
                .effects()
                .iter()
                .any(|effect| matches!(effect, SessionEffect::ReplaceBuffer(_)))
        );
        sent.extend(forwarded(reduction.effects()));
        rest = &rest[reduction.consumed_bytes()..];
    }
    assert!(sent == input);
}

#[test]
fn only_reports_of_the_shell_are_believed() {
    let (mut reducer, mut decoder) = ready();
    let generation = synchronize(&mut reducer, &mut decoder, b"git", "git", 3);
    assert!(reducer.shell().buffer().is_some());
    let typed = reducer.route_input(b"x");
    let nonce = typed
        .effects()
        .effects()
        .iter()
        .find_map(|effect| match effect {
            SessionEffect::RequestBufferSync(nonce) => Some(nonce.get()),
            _ => None,
        })
        .unwrap();
    let believed = |reducer: &SessionReducer| {
        reducer.shell().buffer().is_some() || reducer.shell().suggestions_allowed()
    };
    assert!(!believed(&reducer));
    let _ = reducer.observe_shell_output();
    let _ = reducer.update_cwd(b"/var".to_vec()).unwrap();
    let ranked = vec![suggestion(
        "git",
        "git status",
        SuggestionSource::Spec,
        InsertionBehavior::Exact,
    )];
    let _ = reducer.apply_ranked_candidates(generation, ranked);
    let edit = TextEdit { range: 0..3, replacement: "git status".to_owned() };
    let _ = reducer.apply_alias_expansion(generation, edit);
    let _ = reducer.reconfigure(b"\x12", b"\x10", 5).unwrap();
    assert!(!believed(&reducer));
    let answer = format!("probe-buffer:b:{nonce}:4:gitx\0");
    let _ = apply_wire(&mut reducer, &mut decoder, answer.as_bytes());
    assert!(reducer.shell().buffer().unwrap().as_bytes() == b"gitx");
    assert!(reducer.shell().suggestions_allowed());
}

#[test]
fn enter_runs_a_deliberately_selected_suggestion() {
    let (mut reducer, mut decoder) = ready();
    let generation = synchronize(&mut reducer, &mut decoder, b"git che", "git che", 7);
    let candidates = || {
        ["git checkout", "git cherry-pick"]
            .map(|text| {
                suggestion("git che", text, SuggestionSource::Spec, InsertionBehavior::Exact)
            })
            .to_vec()
    };
    let accepted = reducer.accept_provider_batch(ProviderBatch::success(
        PROVIDER,
        generation,
        candidates(),
    ));
    assert!(accepted == BatchOutcome::Accepted(2));
    let _ = reducer.apply_ranked_candidates(generation, candidates());

    let moved = reducer.route_input(b"\x1b[B");
    assert!(forwarded(moved.effects()).is_empty());
    let reduction = reducer.route_input(b"\r");
    let effects = reduction.effects().effects();
    assert!(effects.len() == 5);
    assert!(matches!(effects[0], SessionEffect::ClearOverlay));
    assert!(matches!(
        &effects[1],
        SessionEffect::ReplaceBuffer(replacement)
            if replacement.as_str() == "git cherry-pick" && replacement.cursor() == 15
    ));
    assert!(matches!(effects[2], SessionEffect::RequestBufferSync(_)));
    assert!(matches!(effects[3], SessionEffect::ClearOverlay));
    assert!(matches!(&effects[4], SessionEffect::ForwardInput(bytes) if bytes == b"\r"));
    assert!(!reducer.replacement_pending() && reducer.input_boundary_fence());
}

#[test]
fn ctrl_c_never_accepts_a_selected_suggestion() {
    let (mut reducer, mut decoder) = ready();
    let generation = synchronize(&mut reducer, &mut decoder, b"git", "git", 3);
    present(
        &mut reducer,
        generation,
        suggestion("git", "git status", SuggestionSource::Spec, InsertionBehavior::Exact),
    );
    let _ = reducer.route_input(b"\x1b[B");
    let reduction = reducer.route_input(b"\x03");
    assert!(
        reduction.effects().debug_text()
            == "EffectBatch { effect_count: 2, effects: [ClearOverlay, ForwardInput { byte_count: 1 }] }"
    );
}

#[test]
fn a_pending_replacement_is_not_taken_for_the_buffer() {
    let (mut reducer, mut decoder) = ready();
    let generation = synchronize(&mut reducer, &mut decoder, b"git", "git", 3);
    present(
        &mut reducer,
        generation,
        suggestion("git", "git status", SuggestionSource::Spec, InsertionBehavior::Exact),
    );
    let reduction = reducer.route_input(b"\t");
    assert!(
        reduction.effects().debug_text()
            == "EffectBatch { effect_count: 3, effects: [ClearOverlay, \
                ReplaceBuffer(BufferReplacement { byte_count: 10, cursor: 10 }), \
                RequestBufferSync(SnapshotNonce(2))] }"
    );
    let _ = reducer.update_cwd(b"/var".to_vec()).unwrap();
    let _ = reducer.observe_shell_output();
    assert!(reducer.replacement_pending());
    assert!(reducer.shell().buffer().is_none() && !reducer.shell().suggestions_allowed());
    assert!(reducer.active_query().is_none());
    let debug = reducer.debug_text();
    assert!(debug.contains(
        "pending_replacement: Some(PendingReplacement { replacement: BufferReplacement { \
         byte_count: 10, cursor: 10 }, kind: Acceptance })"
    ));
    assert!(debug.contains("cwd_bytes: 4, mode: Spec, "));
    assert!(!debug.contains("git"));
}

#[test]
fn effects_describe_themselves() {
    let (mut reducer, mut decoder) = ready();
    let _ = synchronize(&mut reducer, &mut decoder, b"git", "git", 3);
    let effects = reducer.update_cwd(b"/var".to_vec()).unwrap();
    let generation = reducer.active_query().unwrap().generation;
    assert!(
        effects.debug_text()
            == format!(
                "EffectBatch {{ effect_count: 2, effects: [ClearOverlay, StartQuery {{ mode: Spec, \
                 alias_expansion: false, work: QueryWork {{ generation: {generation}, .. }} }}] }}"
            )
    );
    let too_large = QueryStartError::LineTooLarge { bytes: 9, limit: 8 };
    let faults = EffectBatch::from_effects(vec![
        SessionEffect::ModeChanged(SessionMode::History),
        SessionEffect::Fault(SessionFault::InputBoundaryExhausted),
        SessionEffect::Fault(SessionFault::QueryStart(too_large)),
        SessionEffect::Fault(SessionFault::Probe(ProbeRequestError::NonceExhausted)),
    ]);
    assert!(
        faults.debug_text()
            == "EffectBatch { effect_count: 4, effects: [ModeChanged(History), \
                Fault(InputBoundaryExhausted), Fault(QueryStart(LineTooLarge { bytes: 9, limit: 8 })), \
                Fault(Probe(NonceExhausted))] }"
    );
}
