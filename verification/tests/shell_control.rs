use argmax::shell_control::{
    ControlEncodeError, ControlFrameError, ControlRequestId, ControlRequestIdError,
    DecodedControlFrame, ProbeResyncControl, ProbeResyncRequestId, ProbeResyncRequestIdError,
    ReplacementControl, ShellControlDecoder, MAX_CONTROL_BUFFER_BYTES, MAX_CONTROL_FRAME_BYTES,
    MAX_CONTROL_REQUEST_ID, MAX_CONTROL_WIRE_BYTES, MAX_PROBE_RESYNC_REQUEST_ID,
    REPLACEMENT_CONTROL_PREFIX,
};

fn identifier(value: u64) -> ControlRequestId {
    ControlRequestId::new(value).unwrap()
}

fn resync_identifier(value: u64) -> ProbeResyncRequestId {
    ProbeResyncRequestId::new(value).unwrap()
}

fn replacement(value: &str, cursor: usize) -> ReplacementControl {
    ReplacementControl::new(identifier(7), value.to_owned(), cursor).unwrap()
}

fn decode(wire: &[u8]) -> Vec<DecodedControlFrame> {
    let mut decoder = ShellControlDecoder::new();
    decoder.push(wire)
}

#[test]
fn round_trips_unicode_multiline_and_byte_cursor() {
    let control = replacement("echo 世界\nprintf 'Dean Pelton'", 11);
    let encoded = control.encode();
    let decoded = decode(encoded.as_bytes());

    assert!(decoded == [DecodedControlFrame::Replacement(control)]);
    assert!(encoded.as_bytes().starts_with(REPLACEMENT_CONTROL_PREFIX.as_bytes()));
    assert!(encoded.as_bytes().ends_with(&[0]));
    assert!(
        encoded.as_bytes()[..encoded.len() - 1]
            .iter()
            .all(u8::is_ascii)
    );
}

#[test]
fn empty_buffer_and_end_cursor_are_valid() {
    let control = replacement("", 0);
    assert!(decode(control.encode().as_bytes()) == [DecodedControlFrame::Replacement(control),]);

    let control = replacement("Troy \u{1f680}", "Troy \u{1f680}".len());
    assert!(decode(control.encode().as_bytes()) == [DecodedControlFrame::Replacement(control),]);
}

#[test]
fn encoder_rejects_nul_size_and_nonboundary_cursor() {
    assert!(ReplacementControl::new(identifier(1), "a\0b".to_owned(), 1) == Err(ControlEncodeError::NulBuffer));
    assert!(ReplacementControl::new(identifier(1), "\u{00e9}".to_owned(), 1) == Err(ControlEncodeError::InvalidCursor {
            cursor: 1,
            buffer_bytes: 2,
        }));
    assert!(ReplacementControl::new(identifier(1), "x".repeat(16_385), 0) == Err(ControlEncodeError::BufferTooLarge {
            bytes: 16_385,
            limit: MAX_CONTROL_BUFFER_BYTES,
        }));
}

#[test]
fn request_identifiers_have_independent_shared_strict_ranges() {
    assert!(ControlRequestId::new(0) == Err(ControlRequestIdError::Zero));
    assert!(ControlRequestId::new(MAX_CONTROL_REQUEST_ID + 1) == Err(ControlRequestIdError::OutOfRange {
            maximum: MAX_CONTROL_REQUEST_ID,
        }));
    assert!(ControlRequestId::new(MAX_CONTROL_REQUEST_ID).unwrap().get() == MAX_CONTROL_REQUEST_ID);
    assert!(ProbeResyncRequestId::new(0) == Err(ProbeResyncRequestIdError::Zero));
    assert!(ProbeResyncRequestId::new(MAX_PROBE_RESYNC_REQUEST_ID + 1) == Err(ProbeResyncRequestIdError::OutOfRange {
            maximum: MAX_PROBE_RESYNC_REQUEST_ID,
        }));
    assert!(ProbeResyncRequestId::new(MAX_PROBE_RESYNC_REQUEST_ID)
            .unwrap()
            .get() == MAX_PROBE_RESYNC_REQUEST_ID);
}

#[test]
fn resync_round_trips_every_stream_partition() {
    let control = ProbeResyncControl::new(resync_identifier(42));
    let wire = control.encode();
    assert!(wire.as_bytes() == b"argmax-control-v1:resync:42\0");
    for split in 0..=wire.len() {
        let mut decoder = ShellControlDecoder::new();
        let mut frames = decoder.push(&wire.as_bytes()[..split]);
        frames.extend(decoder.push(&wire.as_bytes()[split..]));
        assert!(frames == [DecodedControlFrame::ProbeResync(control)]);
        assert!(decoder.pending_len() == 0);
    }
}

#[test]
fn every_partition_decodes_identically() {
    let control = replacement("git commit\n--amend \u{1f680}", 10);
    let wire = control.encode();
    for split in 0..=wire.len() {
        let mut decoder = ShellControlDecoder::new();
        let mut frames = decoder.push(&wire.as_bytes()[..split]);
        frames.extend(decoder.push(&wire.as_bytes()[split..]));
        assert!(frames == [DecodedControlFrame::Replacement(control.clone())]);
        assert!(decoder.pending_len() == 0);
    }
}

#[test]
fn coalesced_frames_stay_in_wire_order() {
    let first = ReplacementControl::new(identifier(1), "git".to_owned(), 3).unwrap();
    let resync = ProbeResyncControl::new(resync_identifier(9));
    let second = ReplacementControl::new(identifier(2), "git status".to_owned(), 4).unwrap();
    let mut wire = first.encode().as_bytes().to_vec();
    wire.extend_from_slice(resync.encode().as_bytes());
    wire.extend_from_slice(second.encode().as_bytes());

    assert!(decode(&wire) == [
            DecodedControlFrame::Replacement(first),
            DecodedControlFrame::ProbeResync(resync),
            DecodedControlFrame::Replacement(second),
        ]);
}

#[test]
fn malformed_frames_are_isolated_and_strict() {
    let cases: &[(&[u8], ControlFrameError)] = &[
        (b"\0", ControlFrameError::EmptyFrame),
        (b"prompt-ready\0", ControlFrameError::WrongDirection),
        (
            b"argmax-control-v2:replace:1:0:0:\0",
            ControlFrameError::UnsupportedProtocol,
        ),
        (
            b"argmax-control-v1:other:1:0:0:\0",
            ControlFrameError::UnsupportedProtocol,
        ),
        (
            b"argmax-control-v1:resync:1:extra\0",
            ControlFrameError::InvalidGrammar,
        ),
        (
            b"argmax-control-v1:resync:\0",
            ControlFrameError::InvalidRequestId,
        ),
        (
            b"argmax-control-v1:resync:01\0",
            ControlFrameError::InvalidRequestId,
        ),
        (
            b"argmax-control-v1:resync:0\0",
            ControlFrameError::RequestIdOutOfRange,
        ),
        (
            b"argmax-control-v1:resync:2147483648\0",
            ControlFrameError::RequestIdOutOfRange,
        ),
        (
            b"argmax-control-v1:replace:1:0:0::extra\0",
            ControlFrameError::InvalidGrammar,
        ),
        (
            b"argmax-control-v1:replace:01:0:0:\0",
            ControlFrameError::InvalidRequestId,
        ),
        (
            b"argmax-control-v1:replace:0:0:0:\0",
            ControlFrameError::RequestIdOutOfRange,
        ),
        (
            b"argmax-control-v1:replace:1:00:0:\0",
            ControlFrameError::InvalidCursor,
        ),
        (
            b"argmax-control-v1:replace:1:0:00:\0",
            ControlFrameError::InvalidLength,
        ),
        (
            b"argmax-control-v1:replace:1:0:1:7A\0",
            ControlFrameError::InvalidHex,
        ),
        (
            b"argmax-control-v1:replace:1:0:2:61\0",
            ControlFrameError::HexLengthMismatch,
        ),
        (
            b"argmax-control-v1:replace:1:0:1:00\0",
            ControlFrameError::NulBuffer,
        ),
        (
            b"argmax-control-v1:replace:1:0:1:ff\0",
            ControlFrameError::InvalidUtf8,
        ),
        (
            b"argmax-control-v1:replace:1:3:2:c3a9\0",
            ControlFrameError::CursorOutOfRange,
        ),
        (
            b"argmax-control-v1:replace:1:1:2:c3a9\0",
            ControlFrameError::CursorNotUtf8Boundary,
        ),
    ];

    for (wire, want) in cases {
        assert!(decode(wire) == [DecodedControlFrame::Rejected(*want)]);
    }
}

#[test]
fn oversized_frame_retains_no_payload_and_recovers() {
    let mut decoder = ShellControlDecoder::with_frame_limit(8);
    let mut frames = decoder.push(b"0123456789");
    assert!(decoder.is_discarding());
    assert!(decoder.pending_len() == 0);
    frames.extend(decoder.push(b"\0bad\0"));
    assert!(frames == [
            DecodedControlFrame::Rejected(ControlFrameError::FrameTooLarge {
                observed_bytes: 10,
                limit: 8,
            }),
            DecodedControlFrame::Rejected(ControlFrameError::WrongDirection),
        ]);
}

#[test]
fn finish_rejects_partial_without_retaining_content() {
    let mut decoder = ShellControlDecoder::new();
    assert!(decoder.push(b"secret-control").is_empty());
    assert!(decoder.pending_len() == 14);
    assert!(decoder.finish() == Some(DecodedControlFrame::Rejected(
            ControlFrameError::TruncatedFrame { observed_bytes: 14 },
        )));
    assert!(decoder.pending_len() == 0);
    assert!(decoder.finish().is_none());
}

#[test]
fn debug_output_never_exposes_replacement_content() {
    let secret = "Dean Pelton private token";
    let control = replacement(secret, secret.len());
    let encoded = control.encode();
    let resync = ProbeResyncControl::new(resync_identifier(17));
    let mut decoder = ShellControlDecoder::new();
    assert!(decoder.push(&encoded.as_bytes()[..8]).is_empty());

    for debug in [
        control.debug_text(),
        encoded.debug_text(),
        format!("{resync:?}"),
        decoder.debug_text(),
    ] {
        assert!(!debug.contains(secret));
    }
}

#[test]
fn maximum_frame_matches_encoded_upper_bound() {
    assert!(MAX_CONTROL_FRAME_BYTES == 32_817);
    assert!(MAX_CONTROL_WIRE_BYTES == 32_818);
    let control = ReplacementControl::new(
        identifier(MAX_CONTROL_REQUEST_ID),
        "x".repeat(MAX_CONTROL_BUFFER_BYTES),
        MAX_CONTROL_BUFFER_BYTES,
    )
    .unwrap();
    assert!(control.encode().len() - 1 == MAX_CONTROL_FRAME_BYTES);
    assert!(
        ProbeResyncControl::new(resync_identifier(MAX_PROBE_RESYNC_REQUEST_ID))
            .encode()
            .len()
            - 1
            < MAX_CONTROL_FRAME_BYTES
    );
}

#[test]
fn accepted_frames_are_the_encoding_of_what_they_say() {
    for wire in [
        b"argmax-control-v1:replace:7:2:3:616263\0".as_slice(),
        b"argmax-control-v1:replace:7:0:0:\0".as_slice(),
    ] {
        match decode(wire).remove(0) {
            DecodedControlFrame::Replacement(control) => {
                assert!(control.encode().as_bytes() == wire);
            }
            _ => panic!("expected a replacement"),
        }
    }
    for wire in [
        b"argmax-control-v1:replace:7:02:3:616263\0".as_slice(),
        b"argmax-control-v1:replace:7:2:3:61626C\0".as_slice(),
        b"argmax-control-v1:resync:+7\0".as_slice(),
    ] {
        assert!(matches!(decode(wire)[0], DecodedControlFrame::Rejected(_)));
    }
}
