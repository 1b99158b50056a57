use argmax::shell_events::{
    AttributionSource, BufferSyncCapability, DecodedFrame, FrameError, LifecycleError, ShellEvent,
    ShellEventDecoder, ShellSessionState, SnapshotRejection, StateUpdate, StreamEpoch,
    SynchronizationState,
};

fn decoder() -> ShellEventDecoder {
    ShellEventDecoder::new(StreamEpoch::initial())
}

fn decode(decoder: &mut ShellEventDecoder, bytes: &[u8]) -> Vec<DecodedFrame> {
    decoder.push(bytes)
}

fn event(frame: &DecodedFrame) -> &ShellEvent {
    let DecodedFrame::Event(event) = frame else {
        panic!("expected event");
    };
    event.event()
}

fn error(frame: &DecodedFrame) -> &FrameError {
    let DecodedFrame::Rejected(frame) = frame else {
        panic!("expected rejection");
    };
    frame.error()
}

#[test]
fn decodes_chunk_boundaries_and_multiple_protocol_events() {
    let bytes = b"capability:sync-probe:40\0prompt-ready\0probe-buffer:b:41:3:git status\0\
      command-start:git status\0command-stop:17\0";
    let mut decoder = decoder();
    let mut frames = Vec::new();
    for byte in bytes {
        frames.extend(decoder.push(std::slice::from_ref(byte)));
        assert!(decoder.pending_len() <= decoder.frame_limit());
    }

    assert!(frames.len() == 5);
    assert!(frames[0].position().sequence() == 0);
    assert!(frames[4].position().sequence() == 4);
    let ShellEvent::Capability(announcement) = event(&frames[0]) else {
        panic!("expected capability announcement");
    };
    assert!(announcement.capability() == BufferSyncCapability::Probe);
    assert!(announcement.last_probe_nonce().map(|nonce| nonce.get()) == Some(40));
    assert!(event(&frames[1]) == &ShellEvent::PromptReady);
    assert!(matches!(event(&frames[2]), ShellEvent::Buffer(_)));
    let ShellEvent::Buffer(snapshot) = event(&frames[2]) else {
        unreachable!();
    };
    assert!(snapshot.probe_nonce().map(|nonce| nonce.get()) == Some(41));
    assert!(matches!(event(&frames[3]), ShellEvent::CommandStart(_)));
    assert!(matches!(event(&frames[4]), ShellEvent::CommandStop(status) if status.get() == 17));
}

#[test]
fn decodes_bounded_cwd_and_correlated_reload_control_events() {
    let mut decoder = decoder();
    let frames = decode(
        &mut decoder,
        b"cwd:/tmp/Greendale Community College\0reload-request:42\0",
    );
    let ShellEvent::WorkingDirectory(directory) = event(&frames[0]) else {
        panic!("expected working directory");
    };
    assert!(directory.as_path() == b"/tmp/Greendale Community College".as_slice());
    assert!(matches!(event(&frames[1]), ShellEvent::ReloadRequest(request) if request.nonce() == 42));

    let rejected = decode(
        &mut decoder,
        b"cwd:relative\0cwd:\0reload-request:\0reload-request:01\0reload-request:4294967296\0",
    );
    assert!(error(&rejected[0]) == &FrameError::InvalidWorkingDirectory);
    assert!(error(&rejected[1]) == &FrameError::InvalidWorkingDirectory);
    assert!(
        rejected[2..]
            .iter()
            .all(|frame| error(frame) == &FrameError::InvalidReloadRequest)
    );
}

#[test]
fn validates_byte_cursor_range_and_utf8_boundaries() {
    let mut decoder = decoder();
    let frames = decode(
        &mut decoder,
        "buffer:b:2:éx\0buffer:b:1:éx\0buffer:b:4:éx\0".as_bytes(),
    );

    let ShellEvent::Buffer(snapshot) = event(&frames[0]) else {
        panic!("expected buffer");
    };
    assert!(snapshot.cursor() == 2);
    assert!(snapshot.before_cursor() == "é".as_bytes());
    assert!(snapshot.after_cursor() == b"x");
    assert!(error(&frames[1]) == &FrameError::CursorNotUtf8Boundary);
    assert!(error(&frames[2]) == &FrameError::CursorOutOfRange);
}

#[test]
fn converts_character_cursor_to_a_valid_byte_boundary() {
    let mut decoder = decoder();
    let frames = decode(&mut decoder, "buffer:c:2:a☃b\0".as_bytes());
    let ShellEvent::Buffer(snapshot) = event(&frames[0]) else {
        panic!("expected buffer");
    };
    assert!(snapshot.cursor() == 4);
    assert!(snapshot.before_cursor() == "a☃".as_bytes());
    assert!(snapshot.as_str() == Some("a☃b"));
}

#[test]
fn fish_probe_preserves_trailing_newlines_and_removes_only_print_terminator() {
    let mut decoder = decoder();
    let frames = decode(
        &mut decoder,
        b"probe-buffer:f:9:5:echo\n\n\0probe-buffer:f:10:0:\0",
    );
    let ShellEvent::Buffer(snapshot) = event(&frames[0]) else {
        panic!("expected Fish buffer");
    };
    assert!(snapshot.as_bytes() == b"echo\n");
    assert!(snapshot.cursor() == 5);
    assert!(snapshot.probe_nonce().map(|nonce| nonce.get()) == Some(9));
    assert!(error(&frames[1]) == &FrameError::MissingFishPrintTerminator);
}

#[test]
fn rejects_missing_malformed_and_overflowing_probe_nonces() {
    let mut decoder = decoder();
    let frames = decode(
        &mut decoder,
        b"capability:sync-probe:\0probe-buffer:b:x:0:x\0\
          capability:sync-probe:18446744073709551616\0",
    );
    assert!(error(&frames[0]) == &FrameError::MissingProbeNonce);
    assert!(error(&frames[1]) == &FrameError::NonDecimalProbeNonce);
    assert!(error(&frames[2]) == &FrameError::ProbeNonceOutOfRange);
}

#[test]
fn rejects_invalid_utf8_and_cursor_syntax_without_losing_later_frames() {
    let mut decoder = decoder();
    let frames = decode(
        &mut decoder,
        b"buffer:b:0:\xff\0buffer:b::x\0buffer:b:x:x\0buffer:b:0:ok\0",
    );
    assert!(error(&frames[0]) == &FrameError::InvalidBufferUtf8);
    assert!(error(&frames[1]) == &FrameError::MissingCursor);
    assert!(error(&frames[2]) == &FrameError::NonDecimalCursor);
    assert!(matches!(event(&frames[3]), ShellEvent::Buffer(_)));
}

#[test]
fn submitted_command_preserves_non_utf8_bytes() {
    let mut decoder = decoder();
    let frames = decode(&mut decoder, b"command-start:a\xffb\0");
    let ShellEvent::CommandStart(command) = event(&frames[0]) else {
        panic!("expected command start");
    };
    assert!(command.as_bytes() == b"a\xffb");
    assert!(command.as_str() == None);
}

#[test]
fn validates_exit_status_and_rejects_empty_submission() {
    let mut decoder = decoder();
    let frames = decode(
        &mut decoder,
        b"command-stop:0\0command-stop:255\0command-stop:256\0\
          command-stop:-1\0command-stop:\0command-start:\0",
    );
    assert!(matches!(
        event(&frames[0]),
        ShellEvent::CommandStop(status) if status.success()
    ));
    assert!(matches!(
        event(&frames[1]),
        ShellEvent::CommandStop(status) if status.get() == 255
    ));
    assert!(error(&frames[2]) == &FrameError::ExitStatusOutOfRange);
    assert!(error(&frames[3]) == &FrameError::NonDecimalExitStatus);
    assert!(error(&frames[4]) == &FrameError::MissingExitStatus);
    assert!(error(&frames[5]) == &FrameError::EmptySubmittedCommand);
}

#[test]
fn oversized_frame_is_bounded_and_following_frame_recovers() {
    let mut decoder = ShellEventDecoder::with_frame_limit(StreamEpoch::initial(), 12);
    assert!(decoder.push(b"0123456789abcdef").is_empty());
    assert!(decoder.pending_len() == 0);
    assert!(decoder.is_discarding());
    let frames = decode(&mut decoder, b"\0prompt-ready\0");
    assert!(error(&frames[0]) == &FrameError::FrameTooLarge {
            observed_bytes: 16,
            limit: 12,
        });
    assert!(event(&frames[1]) == &ShellEvent::PromptReady);
}

#[test]
fn streaming_callback_retains_no_unbounded_result_batch() {
    let mut decoder = ShellEventDecoder::with_frame_limit(StreamEpoch::initial(), 8);
    let input = vec![0_u8; 100_000];
    let emitted = decoder.push(&input).len();
    assert!(emitted == input.len());
    assert!(decoder.pending_len() == 0);
}

#[test]
fn rejected_frame_desynchronizes_and_prompt_recovers() {
    let mut decoder = decoder();
    let frames = decode(
        &mut decoder,
        b"capability:native-buffer\0prompt-ready\0wat\0prompt-ready\0",
    );
    let mut state = ShellSessionState::new(StreamEpoch::initial());
    assert!(matches!(
        state.apply(frames[0].clone()),
        StateUpdate::CapabilityChanged(BufferSyncCapability::Native)
    ));
    assert!(matches!(
        state.apply(frames[1].clone()),
        StateUpdate::PromptReady { recovered: true }
    ));
    assert!(state.suggestions_allowed());
    assert!(state.apply(frames[2].clone()) == StateUpdate::FrameRejected(FrameError::UnknownEvent));
    assert!(state.synchronization() == SynchronizationState::Desynchronized);
    assert!(!state.suggestions_allowed());
    assert!(state.last_position() == Some(frames[2].position()));
    assert!(matches!(
        state.apply(frames[3].clone()),
        StateUpdate::PromptReady { recovered: true }
    ));
    assert!(state.suggestions_allowed());
}

#[test]
fn rejection_during_command_invalidates_attribution_until_snapshot() {
    let mut decoder = decoder();
    let frames = decode(
        &mut decoder,
        b"capability:native-buffer\0prompt-ready\0buffer:b:7:echo hi\0\
          command-start:echo hi\0wat\0command-stop:0\0prompt-ready\0buffer:b:1:x\0",
    );
    let mut state = ShellSessionState::new(StreamEpoch::initial());
    let updates = frames
        .into_iter()
        .map(|frame| state.apply(frame))
        .collect::<Vec<_>>();

    assert!(updates[4] == StateUpdate::FrameRejected(FrameError::UnknownEvent));
    assert!(updates[5] == StateUpdate::LifecycleSuppressed);
    assert!(
        !updates
            .iter()
            .any(|update| matches!(update, StateUpdate::CommandStopped(_)))
    );
    assert!(updates[7] == StateUpdate::BufferSynchronized { recovered: false });
    assert!(state.buffer().unwrap().as_bytes() == b"x");
    assert!(state.suggestions_allowed());
}

#[test]
fn exact_preexec_supersedes_a_mismatching_snapshot() {
    let mut decoder = decoder();
    let frames = decode(
        &mut decoder,
        b"capability:native-buffer\0prompt-ready\0buffer:b:3:git status\0\
          command-start:git diff\0command-stop:1\0prompt-ready\0",
    );
    let mut state = ShellSessionState::new(StreamEpoch::initial());
    let mut frames = frames.into_iter();
    for frame in frames.by_ref().take(3) {
        state.apply(frame);
    }
    assert!(state.apply(frames.next().expect("start")) == StateUpdate::CommandStarted {
            source: Some(AttributionSource::LifecycleFrame),
            preexec_matches_snapshot: Some(false),
        });
    let StateUpdate::CommandStopped(completed) = state.apply(frames.next().expect("stop"))
    else {
        panic!("expected completed command");
    };
    assert!(completed.command().as_bytes() == b"git diff");
    assert!(completed.source() == AttributionSource::LifecycleFrame);
    assert!(completed.status().get() == 1);
}

#[test]
fn unknown_start_never_attributes_even_with_a_fresh_snapshot() {
    let mut decoder = decoder();
    let frames = decode(
        &mut decoder,
        b"capability:native-buffer\0prompt-ready\0buffer:b:10:git status\0\
          command-start-unknown\0command-stop:1\0prompt-ready\0",
    );
    let mut state = ShellSessionState::new(StreamEpoch::initial());
    let mut frames = frames.into_iter();
    for frame in frames.by_ref().take(3) {
        state.apply(frame);
    }
    assert!(matches!(
        state.apply(frames.next().expect("start")),
        StateUpdate::CommandStarted {
            source: None,
            preexec_matches_snapshot: None,
        }
    ));
    assert!(matches!(
        state.apply(frames.next().expect("stop")),
        StateUpdate::CommandStoppedWithoutAttribution(status) if status.get() == 1
    ));
    assert!(!state.suggestions_allowed());
    assert!(matches!(
        state.apply(frames.next().expect("prompt")),
        StateUpdate::PromptReady { recovered: false }
    ));
}

#[test]
fn unknown_start_without_probe_never_emits_false_completion() {
    let mut decoder = decoder();
    let frames = decode(
        &mut decoder,
        b"capability:unavailable\0prompt-ready\0command-start-unknown\0\
          command-stop:0\0",
    );
    let mut state = ShellSessionState::new(StreamEpoch::initial());
    let updates = frames
        .into_iter()
        .map(|frame| state.apply(frame))
        .collect::<Vec<_>>();
    assert!(matches!(
        updates[3],
        StateUpdate::CommandStoppedWithoutAttribution(status) if status.success()
    ));
    assert!(
        !updates
            .iter()
            .any(|update| matches!(update, StateUpdate::CommandStopped(_)))
    );
    assert!(!state.suggestions_allowed());
}

#[test]
fn exact_preexec_is_safe_fallback_without_an_edit_snapshot() {
    let mut decoder = decoder();
    let frames = decode(
        &mut decoder,
        b"capability:native-buffer\0prompt-ready\0command-start:echo hi\0\
          command-stop:0\0",
    );
    let mut state = ShellSessionState::new(StreamEpoch::initial());
    let updates = frames
        .into_iter()
        .map(|frame| state.apply(frame))
        .collect::<Vec<_>>();
    let StateUpdate::CommandStopped(completed) = &updates[3] else {
        panic!("expected completed command");
    };
    assert!(completed.command().as_bytes() == b"echo hi");
    assert!(completed.source() == AttributionSource::LifecycleFrame);
}

#[test]
fn duplicate_and_impossible_lifecycle_never_complete() {
    let mut decoder = decoder();
    let frames = decode(
        &mut decoder,
        b"capability:native-buffer\0prompt-ready\0command-start:echo hi\0command-start:echo bye\0\
          command-stop:0\0prompt-ready\0command-stop:0\0",
    );
    let mut state = ShellSessionState::new(StreamEpoch::initial());
    let updates = frames
        .into_iter()
        .map(|frame| state.apply(frame))
        .collect::<Vec<_>>();
    assert!(updates[3] == StateUpdate::LifecycleRejected(LifecycleError::DuplicateCommandStart));
    assert!(updates[4] == StateUpdate::LifecycleSuppressed);
    assert!(updates[6] == StateUpdate::LifecycleRejected(LifecycleError::CommandStopWithoutStart));
    assert!(
        !updates
            .iter()
            .any(|update| matches!(update, StateUpdate::CommandStopped(_)))
    );
}

#[test]
fn stale_frame_desynchronizes_instead_of_resurrecting_buffer() {
    let mut decoder = decoder();
    let frames = decode(
        &mut decoder,
        b"capability:native-buffer\0prompt-ready\0buffer:b:3:old\0\
          buffer:b:3:new\0prompt-ready\0",
    );
    let mut state = ShellSessionState::new(StreamEpoch::initial());
    state.apply(frames[0].clone());
    state.apply(frames[1].clone());
    assert!(matches!(
        state.apply(frames[3].clone()),
        StateUpdate::StreamOrderRejected { .. }
    ));
    assert!(state.buffer().is_none());
    assert!(state.synchronization() == SynchronizationState::Desynchronized);
    assert!(matches!(
        state.apply(frames[2].clone()),
        StateUpdate::StreamOrderRejected { .. }
    ));
    assert!(matches!(
        state.apply(frames[4].clone()),
        StateUpdate::StreamOrderRejected { .. }
    ));
}

#[test]
fn explicit_epoch_reset_prevents_decoder_recreation_staleness() {
    let mut decoder = decoder();
    let initial = decode(&mut decoder, b"capability:native-buffer\0prompt-ready\0");
    let mut state = ShellSessionState::new(StreamEpoch::initial());
    state.apply(initial[0].clone());
    state.apply(initial[1].clone());

    let epoch = decoder.reset_stream().expect("epoch advances");
    state.reset_stream(epoch).expect("state epoch advances");
    assert!(state.capability() == BufferSyncCapability::Unknown);
    assert!(!state.suggestions_allowed());
    let next = decode(
        &mut decoder,
        b"prompt-ready\0capability:native-buffer\0prompt-ready\0buffer:b:1:x\0",
    );
    assert!(next[0].position().epoch() == epoch);
    assert!(state.apply(next[0].clone()) == StateUpdate::LifecycleSuppressed);
    state.apply(next[1].clone());
    state.apply(next[2].clone());
    assert!(matches!(
        state.apply(next[3].clone()),
        StateUpdate::BufferSynchronized { recovered: false }
    ));
    assert!(state.buffer().unwrap().as_bytes() == b"x");
}

#[test]
fn higher_epoch_frames_require_an_explicit_matching_reset() {
    let mut decoder = decoder();
    let epoch = decoder.reset_stream().expect("epoch advances");
    let frame = decode(&mut decoder, b"capability:unavailable\0").remove(0);
    let mut state = ShellSessionState::new(StreamEpoch::initial());

    assert!(matches!(
        state.apply(frame.clone()),
        StateUpdate::StreamOrderRejected { .. }
    ));
    assert!(state.epoch() == StreamEpoch::initial());
    state.reset_stream(epoch).expect("explicit reset");
    assert!(state.apply(frame) == StateUpdate::CapabilityChanged(BufferSyncCapability::Unavailable));
}

#[test]
fn stale_probe_response_after_newer_local_input_fails_closed() {
    let mut decoder = decoder();
    let frames = decode(
        &mut decoder,
        b"capability:sync-probe:0\0prompt-ready\0\
          probe-buffer:b:1:1:x\0probe-buffer:b:2:1:y\0",
    );
    let mut state = ShellSessionState::new(StreamEpoch::initial());
    state.apply(frames[0].clone());
    state.apply(frames[1].clone());

    let requested = state.observe_local_input().expect("generation");
    assert!(state.begin_sync_probe().map(|nonce| nonce.get()) == Ok(1));
    let current = state.observe_local_input().expect("newer generation");
    assert!(state.apply(frames[2].clone()) == StateUpdate::SnapshotRejected(SnapshotRejection::StaleProbeGeneration {
            requested,
            current,
        }));
    assert!(state.buffer().is_none());
    assert!(!state.suggestions_allowed());

    assert!(state.begin_sync_probe().map(|nonce| nonce.get()) == Ok(2));
    assert!(state.apply(frames[3].clone()) == StateUpdate::BufferSynchronized { recovered: true });
    assert!(state.buffer().unwrap().as_bytes() == b"y");
    assert!(state.buffer_generation() == Some(current));
}

#[test]
fn delayed_prompt_cannot_overwrite_newer_local_input_authority() {
    let mut decoder = decoder();
    let frames = decode(
        &mut decoder,
        b"capability:sync-probe:0\0prompt-ready\0prompt-ready\0\
          probe-buffer:b:1:1:x\0",
    );
    let mut state = ShellSessionState::new(StreamEpoch::initial());
    state.apply(frames[0].clone());
    state.apply(frames[1].clone());

    let generation = state.observe_local_input().expect("generation");
    assert!(state.begin_sync_probe().map(|nonce| nonce.get()) == Ok(1));
    assert!(state.apply(frames[2].clone()) == StateUpdate::LifecycleSuppressed);
    assert!(state.input_generation() == generation);
    assert!(state.buffer().is_none());
    assert!(state.buffer_generation() == None);
    assert!(state.pending_probe_nonce().map(|nonce| nonce.get()) == Some(1));
    assert!(!state.suggestions_allowed());

    assert!(state.apply(frames[3].clone()) == StateUpdate::BufferSynchronized { recovered: true });
    assert!(state.buffer().unwrap().as_bytes() == b"x");
    assert!(state.buffer_generation() == Some(generation));
}

#[test]
fn unmatched_probe_nonce_cannot_resurrect_a_snapshot() {
    let mut decoder = decoder();
    let frames = decode(
        &mut decoder,
        b"capability:sync-probe:10\0prompt-ready\0probe-buffer:b:12:1:x\0",
    );
    let mut state = ShellSessionState::new(StreamEpoch::initial());
    state.apply(frames[0].clone());
    state.apply(frames[1].clone());
    state.observe_local_input().expect("generation");
    assert!(state.begin_sync_probe().map(|nonce| nonce.get()) == Ok(11));
    assert!(matches!(
        state.apply(frames[2].clone()),
        StateUpdate::SnapshotRejected(SnapshotRejection::ProbeNonceMismatch {
            expected: Some(expected),
            received,
        }) if expected.get() == 11 && received.get() == 12
    ));
    assert!(state.pending_probe_nonce().map(|nonce| nonce.get()) == Some(11));
    assert!(state.buffer().is_none());
}

#[test]
fn delayed_native_snapshot_after_two_forwarded_inputs_fails_closed() {
    let mut decoder = decoder();
    let frames = decode(
        &mut decoder,
        b"capability:native-buffer\0prompt-ready\0buffer:b:1:x\0",
    );
    let mut state = ShellSessionState::new(StreamEpoch::initial());
    state.apply(frames[0].clone());
    state.apply(frames[1].clone());
    state.observe_local_input().expect("first generation");
    let current = state.observe_local_input().expect("second generation");

    assert!(state.apply(frames[2].clone()) == StateUpdate::SnapshotRejected(SnapshotRejection::UncorrelatedNativeSnapshot {
            current,
        }));
    assert!(state.buffer().is_none());
    assert!(!state.suggestions_allowed());
}

#[test]
fn prompt_and_buffer_frames_while_running_are_rejected() {
    for tail in [b"buffer:b:1:x\0".as_slice(), b"prompt-ready\0".as_slice()] {
        let mut decoder = decoder();
        let mut bytes = b"capability:native-buffer\0prompt-ready\0\
            command-start:echo hi\0"
            .to_vec();
        bytes.extend_from_slice(tail);
        let frames = decode(&mut decoder, &bytes);
        let mut state = ShellSessionState::new(StreamEpoch::initial());
        for frame in &frames[..3] {
            state.apply(frame.clone());
        }
        let update = state.apply(frames[3].clone());
        assert!(matches!(
            update,
            StateUpdate::LifecycleRejected(
                LifecycleError::BufferWhileCommandRunning
                    | LifecycleError::PromptWhileCommandRunning
            )
        ));
        assert!(state.buffer().is_none());
        assert!(!state.suggestions_allowed());
    }
}

#[test]
fn exact_preexec_remains_authoritative_after_local_input_invalidates_snapshot() {
    let mut decoder = decoder();
    let frames = decode(
        &mut decoder,
        b"capability:native-buffer\0prompt-ready\0command-start:echo hi\0\
          command-stop:0\0",
    );
    let mut state = ShellSessionState::new(StreamEpoch::initial());
    state.apply(frames[0].clone());
    state.apply(frames[1].clone());
    state.observe_local_input().expect("generation");
    assert!(state.apply(frames[2].clone()) == StateUpdate::CommandStarted {
            source: Some(AttributionSource::LifecycleFrame),
            preexec_matches_snapshot: None,
        });
    let StateUpdate::CommandStopped(completed) = state.apply(frames[3].clone()) else {
        panic!("expected completed command");
    };
    assert!(completed.command().as_bytes() == b"echo hi");
}

#[test]
fn debug_output_redacts_protocol_payloads() {
    let secret = "Dean Pelton's secret command";
    let mut decoder = decoder();
    let _ = decoder.push(format!("buffer:b:0:{secret}").as_bytes());
    assert!(!decoder.debug_text().contains(secret));

    let frame = decode(
        &mut ShellEventDecoder::new(StreamEpoch::initial()),
        format!("command-start:{secret}\0").as_bytes(),
    )
    .remove(0);
    assert!(!frame.debug_text().contains(secret));

    let mut state = ShellSessionState::new(StreamEpoch::initial());
    let mut state_decoder = ShellEventDecoder::new(StreamEpoch::initial());
    let frames = decode(
        &mut state_decoder,
        format!("capability:native-buffer\0prompt-ready\0buffer:b:0:{secret}\0").as_bytes(),
    );
    for frame in frames {
        state.apply(frame);
    }
    assert!(!state.debug_text().contains(secret));
}

#[test]
fn finish_rejects_truncated_input_and_advances_authority() {
    let mut decoder = decoder();
    assert!(decoder.push(b"prompt").is_empty());
    let frame = decoder.finish().expect("rejection");
    assert!(error(&frame) == &FrameError::TruncatedFrame { observed_bytes: 6 });
    assert!(frame.position().sequence() == 0);
    assert!(decoder.finish().is_none());
}

#[test]
fn frames_describe_themselves() {
    let mut decoder = decoder();
    let frames =
        decode(&mut decoder, b"capability:sync-probe:3\0cwd:/tmp\0command-stop:x\0prompt-ready\0");
    let described: Vec<String> = frames.iter().map(|frame| frame.debug_text()).collect();
    assert!(
        described[0]
            == "Event(SequencedShellEvent { position: FramePosition { epoch: StreamEpoch(0), \
                sequence: 0 }, event: Capability(CapabilityAnnouncement { capability: Probe, \
                last_probe_nonce: Some(SnapshotNonce(3)) }) })"
    );
    assert!(
        described[2]
            == "Rejected(RejectedFrame { position: FramePosition { epoch: StreamEpoch(0), \
                sequence: 2 }, error: NonDecimalExitStatus })"
    );
    assert!(described[3].ends_with("event: PromptReady })"));
}
