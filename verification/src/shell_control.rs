//! Bounded parent-to-shell editing-buffer and probe-recovery controls.
//!
//! Controls use direction-specific, versioned ASCII grammars so arbitrary
//! buffer bytes are never interpreted as shell syntax:
//!
//! `argmax-control-v1:replace:REQUEST:CURSOR:LENGTH:LOWER_HEX\0`
//!
//! `argmax-control-v1:resync:REQUEST\0`
//!
//! `CURSOR` and `LENGTH` are UTF-8 byte counts. Replacement identifiers reserve
//! an ordinary synchronization-probe nonce. Probe-resynchronization identifiers
//! use an independent bounded sequence and correlate a shell response reporting
//! its current adapter counter.

use vstd::prelude::*;
use vstd::string::*;
use vstd::utf8::*;

use crate::text::{
    append_bytes, append_decimal, append_number, canonical_decimal, contains_byte, decimal_chars,
    decimal_digits, decimal_value, has_prefix, is_digit, law_pieces_lie_between_separators,
    lemma_canonical_digits,
    lemma_decimal_digits_shape, lemma_decimal_width, lemma_split_append, lemma_split_last,
    lemma_split_single, only_digits, parse_digits, skip_bytes, split_fields, split_on, starts_with, text_len, utf8_text,
};

verus! {

/// Largest decoded editing buffer accepted by every shell adapter.
pub const MAX_CONTROL_BUFFER_BYTES: usize = 16_384;

/// Largest replacement identifier representable by every supported adapter.
///
/// Fish intentionally exhausts its probe counter at this signed 32-bit bound.
pub const MAX_CONTROL_REQUEST_ID: u64 = 2_147_483_647;

/// Largest probe-resynchronization identifier supported by every adapter.
pub const MAX_PROBE_RESYNC_REQUEST_ID: u64 = 2_147_483_647;

pub const REPLACEMENT_CONTROL_PREFIX: &'static str = "argmax-control-v1:replace:";

const PROBE_RESYNC_CONTROL_PREFIX: &'static str = "argmax-control-v1:resync:";

const CONTROL_FAMILY_PREFIX: &'static str = "argmax-control-";

/// Hard maximum frame size excluding the NUL terminator: the replacement
/// prefix, ten request digits, two times five size digits, three colons and
/// two hexadecimal digits for each buffer byte.
pub const MAX_CONTROL_FRAME_BYTES: usize = 26 + 10 + 1 + 5 + 1 + 5 + 1 + 16_384 * 2;

/// Hard maximum control wire size including its NUL terminator.
pub const MAX_CONTROL_WIRE_BYTES: usize = MAX_CONTROL_FRAME_BYTES + 1;

/// Bytes that open a replacement control.
pub open spec fn replacement_prefix() -> Seq<u8> {
    "argmax-control-v1:replace:".spec_bytes()
}

/// Bytes that open a probe-resynchronization control.
pub open spec fn resync_prefix() -> Seq<u8> {
    "argmax-control-v1:resync:".spec_bytes()
}

/// Bytes that open every control of every version.
pub open spec fn family_prefix() -> Seq<u8> {
    "argmax-control-".spec_bytes()
}

/// Value of a lowercase hexadecimal digit.
pub open spec fn hex_value(byte: u8) -> Option<u8> {
    if 48 <= byte <= 57 {
        Some((byte - 48) as u8)
    } else if 97 <= byte <= 102 {
        Some((byte - 87) as u8)
    } else {
        None
    }
}

/// Lowercase hexadecimal digit of a value below sixteen.
pub open spec fn hex_digit(value: int) -> u8 {
    if value < 10 {
        (48 + value) as u8
    } else {
        (87 + value) as u8
    }
}

/// Lowercase hexadecimal notation: two digits for each byte, high digit first.
pub open spec fn hex_encoded(bytes: Seq<u8>) -> Seq<u8> {
    Seq::new(
        2 * bytes.len(),
        |i: int| hex_digit(if i % 2 == 0 { bytes[i / 2] as int / 16 } else { bytes[i / 2] as int % 16 }),
    )
}

/// Whether every byte is a lowercase hexadecimal digit.
pub open spec fn all_lower_hex(bytes: Seq<u8>) -> bool {
    forall|i: int| 0 <= i < bytes.len() ==> hex_value(#[trigger] bytes[i]) is Some
}

/// Bytes that pairs of hexadecimal digits denote.
pub open spec fn hex_decoded(digits: Seq<u8>) -> Seq<u8> {
    Seq::new(
        digits.len() / 2,
        |i: int| (hex_value(digits[2 * i])->0 * 16 + hex_value(digits[2 * i + 1])->0) as u8,
    )
}

/// Whether `text` with `cursor` may replace a shell editing buffer.
pub open spec fn valid_replacement(text: Seq<char>, cursor: int) -> bool {
    &&& encode_utf8(text).len() <= MAX_CONTROL_BUFFER_BYTES
    &&& !encode_utf8(text).contains(0u8)
    &&& is_char_boundary(encode_utf8(text), cursor)
}

/// What one complete control frame says.
#[verifier::ext_equal]
pub enum ControlFrameView {
    /// Replace the editing buffer.
    Replacement { request: u64, text: Seq<char>, cursor: int },
    /// Report the current probe counter.
    ProbeResync { request: u64 },
    /// Nothing: the frame is malformed.
    Rejected(ControlFrameError),
}

/// Frame bytes, without terminator, of a replacement control.
pub open spec fn replacement_frame(request: u64, text: Seq<char>, cursor: int) -> Seq<u8> {
    let bytes = encode_utf8(text);
    (((replacement_prefix() + decimal_digits(request as nat)).push(58)
        + decimal_digits(cursor as nat)).push(58) + decimal_digits(bytes.len())).push(58)
        + hex_encoded(bytes)
}

/// Frame bytes, without terminator, of a probe-resynchronization control.
pub open spec fn resync_frame(request: u64) -> Seq<u8> {
    resync_prefix() + decimal_digits(request as nat)
}

/// Number in a canonical decimal field, if it does not exceed `maximum`.
pub open spec fn field_number(field: Seq<u8>, maximum: nat) -> Option<nat> {
    if canonical_decimal(field) && decimal_value(field) <= maximum {
        Some(decimal_value(field))
    } else {
        None
    }
}

/// What the request field of a probe-resynchronization control says.
pub open spec fn resync_meaning(request: Seq<u8>) -> ControlFrameView {
    if request.contains(58u8) {
        ControlFrameView::Rejected(ControlFrameError::InvalidGrammar)
    } else {
        match field_number(request, u64::MAX as nat) {
            None => ControlFrameView::Rejected(ControlFrameError::InvalidRequestId),
            Some(value) => if value == 0 || value > MAX_PROBE_RESYNC_REQUEST_ID {
                ControlFrameView::Rejected(ControlFrameError::RequestIdOutOfRange)
            } else {
                ControlFrameView::ProbeResync { request: value as u64 }
            },
        }
    }
}

/// What the payload of a replacement control says, its numbers given.
pub open spec fn payload_meaning(request: u64, cursor: nat, length: nat, hex: Seq<u8>) -> ControlFrameView {
    let decoded = hex_decoded(hex);
    if length > MAX_CONTROL_BUFFER_BYTES {
        ControlFrameView::Rejected(
            ControlFrameError::BufferTooLarge {
                bytes: length as usize,
                limit: MAX_CONTROL_BUFFER_BYTES,
            },
        )
    } else if hex.len() != 2 * length {
        ControlFrameView::Rejected(ControlFrameError::HexLengthMismatch)
    } else if !all_lower_hex(hex) {
        ControlFrameView::Rejected(ControlFrameError::InvalidHex)
    } else if decoded.contains(0u8) {
        ControlFrameView::Rejected(ControlFrameError::NulBuffer)
    } else if !valid_utf8(decoded) {
        ControlFrameView::Rejected(ControlFrameError::InvalidUtf8)
    } else if cursor > length {
        ControlFrameView::Rejected(ControlFrameError::CursorOutOfRange)
    } else if !is_char_boundary(decoded, cursor as int) {
        ControlFrameView::Rejected(ControlFrameError::CursorNotUtf8Boundary)
    } else {
        ControlFrameView::Replacement { request, text: decode_utf8(decoded), cursor: cursor as int }
    }
}

/// What the colon-separated fields of a replacement control say.
pub open spec fn replacement_meaning(fields: Seq<Seq<u8>>) -> ControlFrameView {
    if fields.len() != 4 {
        ControlFrameView::Rejected(ControlFrameError::InvalidGrammar)
    } else {
        match field_number(fields[0], u64::MAX as nat) {
            None => ControlFrameView::Rejected(ControlFrameError::InvalidRequestId),
            Some(request) => if request == 0 || request > MAX_CONTROL_REQUEST_ID {
                ControlFrameView::Rejected(ControlFrameError::RequestIdOutOfRange)
            } else {
                match field_number(fields[1], usize::MAX as nat) {
                    None => ControlFrameView::Rejected(ControlFrameError::InvalidCursor),
                    Some(cursor) => match field_number(fields[2], usize::MAX as nat) {
                        None => ControlFrameView::Rejected(ControlFrameError::InvalidLength),
                        Some(length) => payload_meaning(request as u64, cursor, length, fields[3]),
                    },
                }
            },
        }
    }
}

/// What one frame, without its terminator, says.
pub open spec fn frame_meaning(frame: Seq<u8>) -> ControlFrameView {
    if frame.len() == 0 {
        ControlFrameView::Rejected(ControlFrameError::EmptyFrame)
    } else if has_prefix(frame, resync_prefix()) {
        resync_meaning(skip_bytes(frame, resync_prefix().len() as int))
    } else if has_prefix(frame, replacement_prefix()) {
        replacement_meaning(split_on(skip_bytes(frame, replacement_prefix().len() as int), 58))
    } else if has_prefix(frame, family_prefix()) {
        ControlFrameView::Rejected(ControlFrameError::UnsupportedProtocol)
    } else {
        ControlFrameView::Rejected(ControlFrameError::WrongDirection)
    }
}

/// Monotonic identifier shared with one reserved synchronization probe.
#[derive(Clone, Copy, Debug, PartialEq, Eq, PartialOrd, Ord, Hash, Structural)]
pub struct ControlRequestId(u64);

impl View for ControlRequestId {
    type V = u64;

    closed spec fn view(&self) -> u64 {
        self.0
    }
}

impl ControlRequestId {
    #[verifier::type_invariant]
    spec fn in_range(self) -> bool {
        1 <= self.0 <= MAX_CONTROL_REQUEST_ID
    }

    /// Validates a nonzero identifier supported by every shell adapter.
    pub fn new(value: u64) -> (result: Result<Self, ControlRequestIdError>)
        ensures
            value == 0 ==> result == Err::<Self, _>(ControlRequestIdError::Zero),
            value > MAX_CONTROL_REQUEST_ID ==> result == Err::<Self, _>(
                ControlRequestIdError::OutOfRange { maximum: MAX_CONTROL_REQUEST_ID },
            ),
            1 <= value <= MAX_CONTROL_REQUEST_ID ==> result is Ok && result->Ok_0@ == value,
    {
        if value == 0 {
            return Err(ControlRequestIdError::Zero);
        }
        if value > MAX_CONTROL_REQUEST_ID {
            return Err(ControlRequestIdError::OutOfRange { maximum: MAX_CONTROL_REQUEST_ID });
        }
        Ok(ControlRequestId(value))
    }

    /// Numeric request identifier.
    pub fn get(self) -> (value: u64)
        ensures
            value == self@,
            1 <= value <= MAX_CONTROL_REQUEST_ID,
    {
        proof {
            use_type_invariant(&self);
        }
        self.0
    }
}

/// Invalid replacement-control identifier.
#[derive(Clone, Copy, Debug, PartialEq, Eq, Structural)]
pub enum ControlRequestIdError {
    /// Zero is never a synchronization-probe nonce.
    Zero,
    /// The identifier cannot be represented by every shell adapter.
    OutOfRange {
        /// Largest accepted identifier.
        maximum: u64,
    },
}

impl ControlRequestIdError {
    /// Text of [`Self::message`].
    pub open spec fn text(self) -> Seq<char> {
        match self {
            ControlRequestIdError::Zero => "shell control request identifier is zero"@,
            ControlRequestIdError::OutOfRange { maximum } =>
                "shell control request identifier exceeds shared maximum "@ + decimal_chars(maximum as nat),
        }
    }

    /// Human-readable description.
    pub fn message(&self) -> (message: String)
        ensures
            message@ == self.text(),
    {
        match *self {
            ControlRequestIdError::Zero => "shell control request identifier is zero".to_owned(),
            ControlRequestIdError::OutOfRange { maximum } => {
                let mut message = "shell control request identifier exceeds shared maximum ".to_owned();
                append_number(&mut message, maximum as u128);
                message
            },
        }
    }
}

/// Invalid replacement supplied to the control encoder.
#[derive(Clone, Copy, Debug, PartialEq, Eq, Structural)]
pub enum ControlEncodeError {
    /// Replacement exceeds the adapter-wide byte bound.
    BufferTooLarge {
        /// Observed byte count.
        bytes: usize,
        /// Hard byte limit.
        limit: usize,
    },
    /// Shell editing buffers cannot represent NUL.
    NulBuffer,
    /// Cursor is outside the buffer or splits a UTF-8 scalar.
    InvalidCursor {
        /// Supplied byte cursor.
        cursor: usize,
        /// Replacement byte count.
        buffer_bytes: usize,
    },
}

/// Closed, content-free reason a control frame was rejected.
#[derive(Clone, Copy, Debug, PartialEq, Eq, Structural)]
pub enum ControlFrameError {
    /// A terminator appeared without frame bytes.
    EmptyFrame,
    /// Frame was not addressed from the parent to a shell adapter.
    WrongDirection,
    /// Direction was correct but the version or operation was unsupported.
    UnsupportedProtocol,
    /// Required colon-separated fields were missing or duplicated.
    InvalidGrammar,
    /// Request identifier was not canonical unsigned decimal.
    InvalidRequestId,
    /// Request identifier was zero or exceeded the shared adapter range.
    RequestIdOutOfRange,
    /// Cursor was not canonical unsigned decimal.
    InvalidCursor,
    /// Declared byte count was not canonical unsigned decimal.
    InvalidLength,
    /// Declared replacement exceeded the adapter-wide byte bound.
    BufferTooLarge {
        /// Declared byte count.
        bytes: usize,
        /// Hard byte limit.
        limit: usize,
    },
    /// Hex payload length did not match the declared byte count.
    HexLengthMismatch,
    /// Payload contained something other than lowercase hexadecimal ASCII.
    InvalidHex,
    /// Decoded shell buffer contained NUL.
    NulBuffer,
    /// Decoded shell buffer was not UTF-8.
    InvalidUtf8,
    /// Cursor was outside the decoded buffer.
    CursorOutOfRange,
    /// Cursor split a UTF-8 scalar.
    CursorNotUtf8Boundary,
    /// Frame exceeded the configured retained-byte bound.
    FrameTooLarge {
        /// Observed bytes, saturated at the largest machine word.
        observed_bytes: usize,
        /// Configured maximum frame size.
        limit: usize,
    },
    /// End of input arrived before a NUL terminator.
    TruncatedFrame {
        /// Buffered bytes at end of input.
        observed_bytes: usize,
    },
}

/// One validated request to replace the shell-native editing buffer.
#[derive(PartialEq, Eq)]
pub struct ReplacementControl {
    request_id: ControlRequestId,
    buffer: String,
    cursor: usize,
}

impl Clone for ReplacementControl {
    fn clone(&self) -> (copy: Self)
        ensures
            copy == *self,
    {
        proof {
            use_type_invariant(self);
        }
        ReplacementControl { request_id: self.request_id, buffer: self.buffer.clone(), cursor: self.cursor }
    }
}

impl View for ReplacementControl {
    type V = ControlFrameView;

    closed spec fn view(&self) -> ControlFrameView {
        ControlFrameView::Replacement { request: self.request_id@, text: self.buffer@, cursor: self.cursor as int }
    }
}

impl ReplacementControl {
    #[verifier::type_invariant]
    spec fn valid(self) -> bool {
        valid_replacement(self.buffer@, self.cursor as int)
    }

    /// Replacement text.
    pub closed spec fn spec_text(self) -> Seq<char> {
        self.buffer@
    }

    /// Byte cursor.
    pub closed spec fn spec_cursor(self) -> usize {
        self.cursor
    }

    /// Request identifier.
    pub closed spec fn spec_request(self) -> ControlRequestId {
        self.request_id
    }

    /// Validates an inert UTF-8 replacement and its byte cursor.
    pub fn new(request_id: ControlRequestId, buffer: String, cursor: usize) -> (result: Result<
        Self,
        ControlEncodeError,
    >)
        ensures
            result is Ok <==> valid_replacement(buffer@, cursor as int),
            result matches Ok(control) ==> control@ == (ControlFrameView::Replacement {
                request: request_id@,
                text: buffer@,
                cursor: cursor as int,
            }),
            result matches Err(error) ==> replacement_error(buffer@, cursor as int) == Some(error),
    {
        match validate_replacement(buffer.as_str(), cursor) {
            Err(error) => Err(error),
            Ok(()) => Ok(ReplacementControl { request_id, buffer, cursor }),
        }
    }

    /// Correlated synchronization-probe identifier.
    pub fn request_id(&self) -> (request_id: ControlRequestId)
        ensures
            request_id == self.spec_request(),
            self@ matches ControlFrameView::Replacement { request, .. } && request == request_id@,
    {
        self.request_id
    }

    /// Exact replacement text.
    pub fn as_str(&self) -> (text: &str)
        ensures
            text@ == self.spec_text(),
            self@ matches ControlFrameView::Replacement { text: held, .. } && held == text@,
    {
        self.buffer.as_str()
    }

    /// UTF-8 byte cursor within the replacement.
    pub fn cursor(&self) -> (cursor: usize)
        ensures
            cursor == self.spec_cursor(),
            valid_replacement(self.spec_text(), cursor as int),
            self@ matches ControlFrameView::Replacement { cursor: held, .. } && held == cursor,
    {
        proof {
            use_type_invariant(self);
        }
        self.cursor
    }

    /// Replacement size in bytes.
    pub fn len(&self) -> (bytes: usize)
        ensures
            bytes == encode_utf8(self.spec_text()).len(),
            bytes <= MAX_CONTROL_BUFFER_BYTES,
    {
        proof {
            use_type_invariant(self);
        }
        text_len(self.buffer.as_str())
    }

    /// Whether the replacement is empty.
    pub fn is_empty(&self) -> (empty: bool)
        ensures
            empty == (self.spec_text().len() == 0),
    {
        self.buffer.as_str().is_empty()
    }

    /// Encodes this request as one complete NUL-framed control.
    pub fn encode(&self) -> (frame: EncodedControlFrame)
        ensures
            frame@ == replacement_frame(
                self.spec_request()@,
                self.spec_text(),
                self.spec_cursor() as int,
            ).push(0),
            self@ == (ControlFrameView::Replacement {
                request: self.spec_request()@,
                text: self.spec_text(),
                cursor: self.spec_cursor() as int,
            }),
    {
        let text: &[u8] = self.buffer.as_str().as_bytes();
        let mut bytes: Vec<u8> = Vec::new();
        append_bytes(&mut bytes, REPLACEMENT_CONTROL_PREFIX.as_bytes());
        append_decimal(&mut bytes, self.request_id.get());
        bytes.push(58);
        append_decimal(&mut bytes, self.cursor as u64);
        bytes.push(58);
        append_decimal(&mut bytes, text.len() as u64);
        bytes.push(58);
        encode_lower_hex(text, &mut bytes);
        assert(bytes@ =~= replacement_frame(self.request_id@, self.buffer@, self.cursor as int));
        bytes.push(0);
        EncodedControlFrame(bytes)
    }

    /// Text of [`Self::debug_text`].
    pub open spec fn debug_chars(self) -> Seq<char> {
        "ReplacementControl { request_id: ControlRequestId("@ + decimal_chars(self.spec_request()@ as nat)
            + "), buffer_bytes: "@ + decimal_chars(encode_utf8(self.spec_text()).len()) + ", cursor: "@
            + decimal_chars(self.spec_cursor() as nat) + " }"@
    }

    /// Diagnostic summary, which never shows the replacement text.
    pub fn debug_text(&self) -> (summary: String)
        ensures
            summary@ == self.debug_chars(),
    {
        let mut summary = "ReplacementControl { request_id: ControlRequestId(".to_owned();
        append_number(&mut summary, self.request_id.get() as u128);
        summary.append("), buffer_bytes: ");
        append_number(&mut summary, self.len() as u128);
        summary.append(", cursor: ");
        append_number(&mut summary, self.cursor as u128);
        summary.append(" }");
        summary
    }
}

/// Complete parent-to-shell control wire bytes, including the NUL terminator.
#[derive(Clone, PartialEq, Eq)]
pub struct EncodedControlFrame(Vec<u8>);

impl View for EncodedControlFrame {
    type V = Seq<u8>;

    closed spec fn view(&self) -> Seq<u8> {
        self.0@
    }
}

impl EncodedControlFrame {
    /// Exact bytes to queue on the private full-duplex control stream.
    pub fn as_bytes(&self) -> (bytes: &[u8])
        ensures
            bytes@ == self@,
    {
        self.0.as_slice()
    }

    /// Complete framed size.
    pub fn len(&self) -> (bytes: usize)
        ensures
            bytes == self@.len(),
    {
        self.0.len()
    }

    /// Whether the encoded frame is empty, which a valid control never is.
    pub fn is_empty(&self) -> (empty: bool)
        ensures
            empty == (self@.len() == 0),
    {
        self.0.len() == 0
    }

    /// Diagnostic summary, which shows the size and never the bytes.
    pub fn debug_text(&self) -> (summary: String)
        ensures
            summary@ == "EncodedControlFrame { wire_bytes: "@ + decimal_chars(self@.len()) + " }"@,
    {
        let mut summary = "EncodedControlFrame { wire_bytes: ".to_owned();
        append_number(&mut summary, self.0.len() as u128);
        summary.append(" }");
        summary
    }
}

/// Monotonic identifier for one explicit adapter-counter resynchronization.
///
/// This sequence is independent from replacement controls and ordinary snapshot
/// nonces.
#[derive(Clone, Copy, Debug, PartialEq, Eq, PartialOrd, Ord, Hash, Structural)]
pub struct ProbeResyncRequestId(u64);

impl View for ProbeResyncRequestId {
    type V = u64;

    closed spec fn view(&self) -> u64 {
        self.0
    }
}

impl ProbeResyncRequestId {
    #[verifier::type_invariant]
    spec fn in_range(self) -> bool {
        1 <= self.0 <= MAX_PROBE_RESYNC_REQUEST_ID
    }

    /// Validates a nonzero identifier supported by every shell adapter.
    pub fn new(value: u64) -> (result: Result<Self, ProbeResyncRequestIdError>)
        ensures
            value == 0 ==> result == Err::<Self, _>(ProbeResyncRequestIdError::Zero),
            value > MAX_PROBE_RESYNC_REQUEST_ID ==> result == Err::<Self, _>(
                ProbeResyncRequestIdError::OutOfRange { maximum: MAX_PROBE_RESYNC_REQUEST_ID },
            ),
            1 <= value <= MAX_PROBE_RESYNC_REQUEST_ID ==> result is Ok && result->Ok_0@ == value,
    {
        if value == 0 {
            return Err(ProbeResyncRequestIdError::Zero);
        }
        if value > MAX_PROBE_RESYNC_REQUEST_ID {
            return Err(
                ProbeResyncRequestIdError::OutOfRange { maximum: MAX_PROBE_RESYNC_REQUEST_ID },
            );
        }
        Ok(ProbeResyncRequestId(value))
    }

    /// Numeric request identifier.
    pub fn get(self) -> (value: u64)
        ensures
            value == self@,
            1 <= value <= MAX_PROBE_RESYNC_REQUEST_ID,
    {
        proof {
            use_type_invariant(&self);
        }
        self.0
    }
}

/// Invalid probe-resynchronization request identifier.
#[derive(Clone, Copy, Debug, PartialEq, Eq, Structural)]
pub enum ProbeResyncRequestIdError {
    /// Zero is never a valid request identifier.
    Zero,
    /// The identifier cannot be represented by every shell adapter.
    OutOfRange {
        /// Largest accepted identifier.
        maximum: u64,
    },
}

impl ProbeResyncRequestIdError {
    /// Text of [`Self::message`].
    pub open spec fn text(self) -> Seq<char> {
        match self {
            ProbeResyncRequestIdError::Zero => "probe resync request identifier is zero"@,
            ProbeResyncRequestIdError::OutOfRange { maximum } =>
                "probe resync request identifier exceeds shared maximum "@ + decimal_chars(maximum as nat),
        }
    }

    /// Human-readable description.
    pub fn message(&self) -> (message: String)
        ensures
            message@ == self.text(),
    {
        match *self {
            ProbeResyncRequestIdError::Zero => "probe resync request identifier is zero".to_owned(),
            ProbeResyncRequestIdError::OutOfRange { maximum } => {
                let mut message = "probe resync request identifier exceeds shared maximum ".to_owned();
                append_number(&mut message, maximum as u128);
                message
            },
        }
    }
}

/// One request for the shell adapter's current ordinary probe counter.
#[derive(Clone, Copy, Debug, PartialEq, Eq, Structural)]
pub struct ProbeResyncControl {
    request_id: ProbeResyncRequestId,
}

impl View for ProbeResyncControl {
    type V = u64;

    closed spec fn view(&self) -> u64 {
        self.request_id@
    }
}

impl ProbeResyncControl {
    /// Creates a correlated adapter-counter resynchronization request.
    pub fn new(request_id: ProbeResyncRequestId) -> (control: Self)
        ensures
            control@ == request_id@,
    {
        ProbeResyncControl { request_id }
    }

    /// Independent resynchronization request identifier.
    pub fn request_id(self) -> (request_id: ProbeResyncRequestId)
        ensures
            request_id@ == self@,
    {
        self.request_id
    }

    /// Encodes this request as one complete NUL-framed control.
    pub fn encode(self) -> (frame: EncodedControlFrame)
        ensures
            frame@ == resync_frame(self@).push(0),
    {
        let mut bytes: Vec<u8> = Vec::new();
        append_bytes(&mut bytes, PROBE_RESYNC_CONTROL_PREFIX.as_bytes());
        append_decimal(&mut bytes, self.request_id.get());
        assert(bytes@ =~= resync_frame(self@));
        bytes.push(0);
        EncodedControlFrame(bytes)
    }
}

/// First reason why `text` with `cursor` may not replace an editing buffer.
pub open spec fn replacement_error(text: Seq<char>, cursor: int) -> Option<ControlEncodeError> {
    if encode_utf8(text).len() > MAX_CONTROL_BUFFER_BYTES {
        Some(
            ControlEncodeError::BufferTooLarge {
                bytes: encode_utf8(text).len() as usize,
                limit: MAX_CONTROL_BUFFER_BYTES,
            },
        )
    } else if encode_utf8(text).contains(0u8) {
        Some(ControlEncodeError::NulBuffer)
    } else if !is_char_boundary(encode_utf8(text), cursor) {
        Some(
            ControlEncodeError::InvalidCursor {
                cursor: cursor as usize,
                buffer_bytes: encode_utf8(text).len() as usize,
            },
        )
    } else {
        None
    }
}

fn validate_replacement(buffer: &str, cursor: usize) -> (result: Result<(), ControlEncodeError>)
    ensures
        result is Ok <==> valid_replacement(buffer@, cursor as int),
        result matches Err(error) ==> replacement_error(buffer@, cursor as int) == Some(error),
{
    let bytes: usize = text_len(buffer);
    if bytes > MAX_CONTROL_BUFFER_BYTES {
        return Err(ControlEncodeError::BufferTooLarge { bytes, limit: MAX_CONTROL_BUFFER_BYTES });
    }
    if contains_byte(buffer.as_bytes(), 0) {
        return Err(ControlEncodeError::NulBuffer);
    }
    if !buffer.is_char_boundary(cursor) {
        return Err(ControlEncodeError::InvalidCursor { cursor, buffer_bytes: bytes });
    }
    Ok(())
}

/// Whether `bytes` is decimal notation without sign or superfluous zero.
pub fn is_canonical_decimal(bytes: &[u8]) -> (canonical: bool)
    ensures
        canonical == canonical_decimal(bytes@),
{
    bytes.len() > 0 && only_digits(bytes) && (bytes.len() == 1 || bytes[0] != 48)
}

/// Number in a canonical decimal field that fits 64 bits.
pub fn parse_decimal(bytes: &[u8]) -> (number: Option<u64>)
    ensures
        number is Some <==> field_number(bytes@, u64::MAX as nat) is Some,
        number matches Some(n) ==> field_number(bytes@, u64::MAX as nat) == Some(n as nat),
{
    if !is_canonical_decimal(bytes) {
        return None;
    }
    parse_digits(bytes)
}

/// Number in a canonical decimal field that fits a machine word.
pub fn parse_decimal_usize(bytes: &[u8]) -> (number: Option<usize>)
    ensures
        number is Some <==> field_number(bytes@, usize::MAX as nat) is Some,
        number matches Some(n) ==> field_number(bytes@, usize::MAX as nat) == Some(n as nat),
{
    match parse_decimal(bytes) {
        Some(number) => if number <= usize::MAX as u64 {
            Some(number as usize)
        } else {
            None
        },
        None => None,
    }
}

/// Value of a lowercase hexadecimal digit.
pub fn decode_lower_hex_digit(byte: u8) -> (value: Option<u8>)
    ensures
        value == hex_value(byte),
        value matches Some(v) ==> v < 16,
{
    if 48 <= byte && byte <= 57 {
        Some(byte - 48)
    } else if 97 <= byte && byte <= 102 {
        Some(byte - 97 + 10)
    } else {
        None
    }
}

fn hex_digit_byte(value: u8) -> (digit: u8)
    requires
        value < 16,
    ensures
        digit == hex_digit(value as int),
{
    if value < 10 {
        48 + value
    } else {
        87 + value
    }
}

/// Appends the lowercase hexadecimal notation of `source` to `destination`.
pub fn encode_lower_hex(source: &[u8], destination: &mut Vec<u8>)
    ensures
        final(destination)@ == old(destination)@ + hex_encoded(source@),
{
    let mut i: usize = 0;
    assert(destination@ =~= old(destination)@ + hex_encoded(source@).subrange(0, 0));
    while i < source.len()
        invariant
            0 <= i <= source.len(),
            destination@ == old(destination)@ + hex_encoded(source@).subrange(0, 2 * i),
        decreases source.len() - i,
    {
        let byte: u8 = source[i];
        destination.push(hex_digit_byte(byte / 16));
        destination.push(hex_digit_byte(byte % 16));
        assert(hex_encoded(source@)[2 * i] == hex_digit(byte as int / 16));
        assert(hex_encoded(source@)[2 * i + 1] == hex_digit(byte as int % 16));
        assert(hex_encoded(source@).subrange(0, 2 * i).push(hex_digit(byte as int / 16)).push(
            hex_digit(byte as int % 16),
        ) =~= hex_encoded(source@).subrange(0, 2 * (i + 1)));
        assert(destination@ =~= old(destination)@ + hex_encoded(source@).subrange(0, 2 * (i + 1)));
        i = i + 1;
    }
    assert(hex_encoded(source@).subrange(0, 2 * i) =~= hex_encoded(source@));
}

/// Bytes that pairs of lowercase hexadecimal digits denote.
fn decode_lower_hex(digits: &[u8]) -> (decoded: Option<Vec<u8>>)
    requires
        digits@.len() % 2 == 0,
    ensures
        decoded is Some <==> all_lower_hex(digits@),
        decoded matches Some(bytes) ==> bytes@ == hex_decoded(digits@),
{
    let mut decoded: Vec<u8> = Vec::new();
    let mut i: usize = 0;
    while i < digits.len()
        invariant
            0 <= i <= digits.len(),
            i % 2 == 0,
            digits@.len() % 2 == 0,
            decoded@.len() == i / 2,
            forall|j: int| 0 <= j < i ==> hex_value(#[trigger] digits@[j]) is Some,
            forall|j: int| 0 <= j < decoded@.len() ==> #[trigger] decoded@[j] == hex_decoded(digits@)[j],
        decreases digits.len() - i,
    {
        match (decode_lower_hex_digit(digits[i]), decode_lower_hex_digit(digits[i + 1])) {
            (Some(high), Some(low)) => {
                decoded.push(high * 16 + low);
            },
            _ => {
                assert(hex_value(digits@[i as int]) is None || hex_value(digits@[i + 1]) is None);
                return None;
            },
        }
        i = i + 2;
    }
    assert(decoded@ =~= hex_decoded(digits@));
    Some(decoded)
}

/// One complete result from the parent-to-shell control stream.
#[derive(Clone, PartialEq, Eq)]
pub enum DecodedControlFrame {
    /// A validated inert replacement request.
    Replacement(ReplacementControl),
    /// A validated request for the adapter's current ordinary probe counter.
    ProbeResync(ProbeResyncControl),
    /// One isolated malformed frame; later frames remain decodable.
    Rejected(ControlFrameError),
}

impl View for DecodedControlFrame {
    type V = ControlFrameView;

    open spec fn view(&self) -> ControlFrameView {
        match *self {
            DecodedControlFrame::Replacement(control) => control@,
            DecodedControlFrame::ProbeResync(control) => ControlFrameView::ProbeResync { request: control@ },
            DecodedControlFrame::Rejected(error) => ControlFrameView::Rejected(error),
        }
    }
}

/// Reads one frame, given without its terminator.
pub fn parse_control_frame(frame: &[u8]) -> (result: Result<DecodedControlFrame, ControlFrameError>)
    ensures
        result matches Ok(control) ==> control@ == frame_meaning(frame@) && !(control@ is Rejected),
        result matches Err(error) ==> frame_meaning(frame@) == ControlFrameView::Rejected(error),
{
    if frame.len() == 0 {
        return Err(ControlFrameError::EmptyFrame);
    }
    let resync: &[u8] = PROBE_RESYNC_CONTROL_PREFIX.as_bytes();
    if starts_with(frame, resync) {
        let request: &[u8] = vstd::slice::slice_subrange(frame, resync.len(), frame.len());
        return parse_resync_request(request);
    }
    let replacement: &[u8] = REPLACEMENT_CONTROL_PREFIX.as_bytes();
    if !starts_with(frame, replacement) {
        if starts_with(frame, CONTROL_FAMILY_PREFIX.as_bytes()) {
            return Err(ControlFrameError::UnsupportedProtocol);
        }
        return Err(ControlFrameError::WrongDirection);
    }
    let fields: Vec<Vec<u8>> = split_fields(
        vstd::slice::slice_subrange(frame, replacement.len(), frame.len()),
        58,
    );
    if fields.len() != 4 {
        return Err(ControlFrameError::InvalidGrammar);
    }
    let request: u64 = match parse_decimal(fields[0].as_slice()) {
        None => {
            return Err(ControlFrameError::InvalidRequestId);
        },
        Some(request) => request,
    };
    let request_id = match ControlRequestId::new(request) {
        Err(_) => {
            return Err(ControlFrameError::RequestIdOutOfRange);
        },
        Ok(request_id) => request_id,
    };
    let cursor: usize = match parse_decimal_usize(fields[1].as_slice()) {
        None => {
            return Err(ControlFrameError::InvalidCursor);
        },
        Some(cursor) => cursor,
    };
    let length: usize = match parse_decimal_usize(fields[2].as_slice()) {
        None => {
            return Err(ControlFrameError::InvalidLength);
        },
        Some(length) => length,
    };
    parse_replacement_payload(request_id, cursor, length, fields[3].as_slice())
}

fn parse_resync_request(request: &[u8]) -> (result: Result<DecodedControlFrame, ControlFrameError>)
    ensures
        result matches Ok(control) ==> control@ == resync_meaning(request@) && !(control@ is Rejected),
        result matches Err(error) ==> resync_meaning(request@) == ControlFrameView::Rejected(error),
{
    if contains_byte(request, 58) {
        return Err(ControlFrameError::InvalidGrammar);
    }
    match parse_decimal(request) {
        None => Err(ControlFrameError::InvalidRequestId),
        Some(value) => match ProbeResyncRequestId::new(value) {
            Err(_) => Err(ControlFrameError::RequestIdOutOfRange),
            Ok(request_id) => Ok(
                DecodedControlFrame::ProbeResync(ProbeResyncControl::new(request_id)),
            ),
        },
    }
}

fn parse_replacement_payload(
    request_id: ControlRequestId,
    cursor: usize,
    length: usize,
    hex: &[u8],
) -> (result: Result<DecodedControlFrame, ControlFrameError>)
    ensures
        result matches Ok(control) ==> control@ == payload_meaning(
            request_id@,
            cursor as nat,
            length as nat,
            hex@,
        ) && !(control@ is Rejected),
        result matches Err(error) ==> payload_meaning(request_id@, cursor as nat, length as nat, hex@)
            == ControlFrameView::Rejected(error),
{
    if length > MAX_CONTROL_BUFFER_BYTES {
        return Err(
            ControlFrameError::BufferTooLarge { bytes: length, limit: MAX_CONTROL_BUFFER_BYTES },
        );
    }
    if hex.len() != length * 2 {
        return Err(ControlFrameError::HexLengthMismatch);
    }
    let decoded: Vec<u8> = match decode_lower_hex(hex) {
        None => {
            return Err(ControlFrameError::InvalidHex);
        },
        Some(decoded) => decoded,
    };
    if contains_byte(decoded.as_slice(), 0) {
        return Err(ControlFrameError::NulBuffer);
    }
    let buffer: String = match utf8_text(decoded.as_slice()) {
        None => {
            return Err(ControlFrameError::InvalidUtf8);
        },
        Some(buffer) => buffer,
    };
    if cursor > length {
        return Err(ControlFrameError::CursorOutOfRange);
    }
    if !buffer.as_str().is_char_boundary(cursor) {
        return Err(ControlFrameError::CursorNotUtf8Boundary);
    }
    Ok(DecodedControlFrame::Replacement(ReplacementControl { request_id, buffer, cursor }))
}

impl ControlEncodeError {
    /// Text of [`Self::message`].
    pub open spec fn text(self) -> Seq<char> {
        match self {
            ControlEncodeError::BufferTooLarge { bytes, limit } => "shell control buffer is "@ + decimal_chars(bytes as nat) + " bytes; limit is "@ + decimal_chars(limit as nat),
            ControlEncodeError::NulBuffer => "shell control buffer contains NUL"@,
            ControlEncodeError::InvalidCursor { cursor, buffer_bytes } => "shell control cursor "@ + decimal_chars(cursor as nat) + " is invalid for "@ + decimal_chars(buffer_bytes as nat) + " bytes"@,
        }
    }

    /// Human-readable description.
    pub fn message(&self) -> (message: String)
        ensures
            message@ == self.text(),
    {
        match *self {
            ControlEncodeError::BufferTooLarge { bytes, limit } => {
                let mut message = "shell control buffer is ".to_owned();
                append_number(&mut message, bytes as u128);
                message.append(" bytes; limit is ");
                append_number(&mut message, limit as u128);
                message
            },
            ControlEncodeError::NulBuffer => "shell control buffer contains NUL".to_owned(),
            ControlEncodeError::InvalidCursor { cursor, buffer_bytes } => {
                let mut message = "shell control cursor ".to_owned();
                append_number(&mut message, cursor as u128);
                message.append(" is invalid for ");
                append_number(&mut message, buffer_bytes as u128);
                message.append(" bytes");
                message
            },
        }
    }
}

impl ControlFrameError {
    /// Text of [`Self::message`].
    pub open spec fn text(self) -> Seq<char> {
        match self {
            ControlFrameError::EmptyFrame => "empty shell control frame"@,
            ControlFrameError::WrongDirection => "shell control has the wrong direction"@,
            ControlFrameError::UnsupportedProtocol => "unsupported shell control version or operation"@,
            ControlFrameError::InvalidGrammar => "invalid shell control grammar"@,
            ControlFrameError::InvalidRequestId => "shell control request identifier is not canonical decimal"@,
            ControlFrameError::RequestIdOutOfRange => "shell control request identifier is out of range"@,
            ControlFrameError::InvalidCursor => "shell control cursor is not canonical decimal"@,
            ControlFrameError::InvalidLength => "shell control length is not canonical decimal"@,
            ControlFrameError::BufferTooLarge { bytes, limit } => "shell control buffer is "@ + decimal_chars(bytes as nat) + " bytes; limit is "@ + decimal_chars(limit as nat),
            ControlFrameError::HexLengthMismatch => "shell control hex length does not match its declaration"@,
            ControlFrameError::InvalidHex => "shell control payload is not lowercase hexadecimal"@,
            ControlFrameError::NulBuffer => "shell control buffer contains NUL"@,
            ControlFrameError::InvalidUtf8 => "shell control buffer is not UTF-8"@,
            ControlFrameError::CursorOutOfRange => "shell control cursor is out of range"@,
            ControlFrameError::CursorNotUtf8Boundary => "shell control cursor splits a UTF-8 scalar"@,
            ControlFrameError::FrameTooLarge { observed_bytes, limit } => "shell control frame is "@ + decimal_chars(observed_bytes as nat) + " bytes; limit is "@ + decimal_chars(limit as nat),
            ControlFrameError::TruncatedFrame { observed_bytes } => "shell control frame ended after "@ + decimal_chars(observed_bytes as nat) + " bytes without a terminator"@,
        }
    }

    /// Human-readable description.
    pub fn message(&self) -> (message: String)
        ensures
            message@ == self.text(),
    {
        match *self {
            ControlFrameError::EmptyFrame => "empty shell control frame".to_owned(),
            ControlFrameError::WrongDirection => "shell control has the wrong direction".to_owned(),
            ControlFrameError::UnsupportedProtocol => "unsupported shell control version or operation".to_owned(),
            ControlFrameError::InvalidGrammar => "invalid shell control grammar".to_owned(),
            ControlFrameError::InvalidRequestId => "shell control request identifier is not canonical decimal".to_owned(),
            ControlFrameError::RequestIdOutOfRange => "shell control request identifier is out of range".to_owned(),
            ControlFrameError::InvalidCursor => "shell control cursor is not canonical decimal".to_owned(),
            ControlFrameError::InvalidLength => "shell control length is not canonical decimal".to_owned(),
            ControlFrameError::BufferTooLarge { bytes, limit } => {
                let mut message = "shell control buffer is ".to_owned();
                append_number(&mut message, bytes as u128);
                message.append(" bytes; limit is ");
                append_number(&mut message, limit as u128);
                message
            },
            ControlFrameError::HexLengthMismatch => "shell control hex length does not match its declaration".to_owned(),
            ControlFrameError::InvalidHex => "shell control payload is not lowercase hexadecimal".to_owned(),
            ControlFrameError::NulBuffer => "shell control buffer contains NUL".to_owned(),
            ControlFrameError::InvalidUtf8 => "shell control buffer is not UTF-8".to_owned(),
            ControlFrameError::CursorOutOfRange => "shell control cursor is out of range".to_owned(),
            ControlFrameError::CursorNotUtf8Boundary => "shell control cursor splits a UTF-8 scalar".to_owned(),
            ControlFrameError::FrameTooLarge { observed_bytes, limit } => {
                let mut message = "shell control frame is ".to_owned();
                append_number(&mut message, observed_bytes as u128);
                message.append(" bytes; limit is ");
                append_number(&mut message, limit as u128);
                message
            },
            ControlFrameError::TruncatedFrame { observed_bytes } => {
                let mut message = "shell control frame ended after ".to_owned();
                append_number(&mut message, observed_bytes as u128);
                message.append(" bytes without a terminator");
                message
            },
        }
    }
}

/// Decoder state as a value: what is retained of the unfinished frame, the
/// size counted so far of one that is too large, and the size limit.
#[verifier::ext_equal]
pub struct ControlDecoderView {
    pub pending: Seq<u8>,
    pub oversized: Option<usize>,
    pub limit: usize,
}

/// Decoder that stands between frames.
pub open spec fn idle_decoder(limit: usize) -> ControlDecoderView {
    ControlDecoderView { pending: Seq::empty(), oversized: None, limit }
}

/// `count + 1`, held at the largest machine word.
pub open spec fn counted_up(count: usize) -> usize {
    if count < usize::MAX {
        (count + 1) as usize
    } else {
        usize::MAX
    }
}

/// What the decoder reports at the terminator of the frame that it holds.
pub open spec fn terminated_meaning(decoder: ControlDecoderView) -> ControlFrameView {
    match decoder.oversized {
        Some(observed_bytes) => ControlFrameView::Rejected(
            ControlFrameError::FrameTooLarge { observed_bytes, limit: decoder.limit },
        ),
        None => frame_meaning(decoder.pending),
    }
}

/// Decoder after one more byte.
pub open spec fn decoder_after(decoder: ControlDecoderView, byte: u8) -> ControlDecoderView {
    if byte == 0 {
        idle_decoder(decoder.limit)
    } else {
        match decoder.oversized {
            Some(count) => ControlDecoderView { oversized: Some(counted_up(count)), ..decoder },
            None => if decoder.pending.len() < decoder.limit {
                ControlDecoderView { pending: decoder.pending.push(byte), ..decoder }
            } else {
                ControlDecoderView {
                    pending: Seq::empty(),
                    oversized: Some(counted_up(decoder.pending.len() as usize)),
                    ..decoder
                }
            },
        }
    }
}

/// Decoder after a run of bytes.
pub open spec fn decoder_run(decoder: ControlDecoderView, bytes: Seq<u8>) -> ControlDecoderView
    decreases bytes.len(),
{
    if bytes.len() == 0 {
        decoder
    } else {
        decoder_after(decoder_run(decoder, bytes.drop_last()), bytes.last())
    }
}

/// Frames that a decoder reports while it reads a run of bytes, in wire order.
pub open spec fn decoder_reports(decoder: ControlDecoderView, bytes: Seq<u8>) -> Seq<ControlFrameView>
    decreases bytes.len(),
{
    if bytes.len() == 0 {
        Seq::empty()
    } else {
        let before = decoder_reports(decoder, bytes.drop_last());
        if bytes.last() == 0 {
            before.push(terminated_meaning(decoder_run(decoder, bytes.drop_last())))
        } else {
            before
        }
    }
}

/// Frames as values.
pub open spec fn frame_views(frames: Seq<DecodedControlFrame>) -> Seq<ControlFrameView> {
    frames.map_values(|frame: DecodedControlFrame| frame@)
}

/// Incremental NUL-frame decoder with bounded retained storage.
pub struct ShellControlDecoder {
    pending: Vec<u8>,
    oversized_bytes: Option<usize>,
    frame_limit: usize,
}

impl View for ShellControlDecoder {
    type V = ControlDecoderView;

    closed spec fn view(&self) -> ControlDecoderView {
        ControlDecoderView {
            pending: self.pending@,
            oversized: self.oversized_bytes,
            limit: self.frame_limit,
        }
    }
}

impl ShellControlDecoder {
    /// No more is retained than the limit allows, and nothing at all of a frame
    /// that exceeded it.
    pub open spec fn wf(self) -> bool {
        &&& self@.pending.len() <= self@.limit <= MAX_CONTROL_FRAME_BYTES
        &&& self@.oversized is Some ==> self@.pending.len() == 0
    }

    /// Creates a decoder at the hard protocol frame limit.
    pub fn new() -> (decoder: Self)
        ensures
            decoder.wf(),
            decoder@ == idle_decoder(MAX_CONTROL_FRAME_BYTES),
    {
        ShellControlDecoder::with_frame_limit(MAX_CONTROL_FRAME_BYTES)
    }

    /// Creates a decoder with a caller limit capped by the protocol maximum.
    pub fn with_frame_limit(frame_limit: usize) -> (decoder: Self)
        ensures
            decoder.wf(),
            decoder@ == idle_decoder(
                if frame_limit <= MAX_CONTROL_FRAME_BYTES {
                    frame_limit
                } else {
                    MAX_CONTROL_FRAME_BYTES
                },
            ),
    {
        let frame_limit: usize = if frame_limit <= MAX_CONTROL_FRAME_BYTES {
            frame_limit
        } else {
            MAX_CONTROL_FRAME_BYTES
        };
        ShellControlDecoder { pending: Vec::new(), oversized_bytes: None, frame_limit }
    }

    /// Configured maximum retained bytes per unterminated frame.
    pub fn frame_limit(&self) -> (limit: usize)
        requires
            self.wf(),
        ensures
            limit == self@.limit,
            limit <= MAX_CONTROL_FRAME_BYTES,
    {
        self.frame_limit
    }

    /// Number of bytes retained for a partial frame.
    pub fn pending_len(&self) -> (bytes: usize)
        requires
            self.wf(),
        ensures
            bytes == self@.pending.len(),
            bytes <= self@.limit,
            self@.oversized is Some ==> bytes == 0,
    {
        self.pending.len()
    }

    /// Whether an oversized frame is being discarded through its terminator.
    pub fn is_discarding(&self) -> (discarding: bool)
        ensures
            discarding == (self@.oversized is Some),
    {
        self.oversized_bytes.is_some()
    }

    /// Consumes a stream chunk and returns complete results in wire order.
    pub fn push(&mut self, chunk: &[u8]) -> (frames: Vec<DecodedControlFrame>)
        requires
            old(self).wf(),
        ensures
            final(self).wf(),
            final(self)@ == decoder_run(old(self)@, chunk@),
            frame_views(frames@) == decoder_reports(old(self)@, chunk@),
    {
        let mut frames: Vec<DecodedControlFrame> = Vec::new();
        let mut i: usize = 0;
        assert(frame_views(frames@) =~= Seq::<ControlFrameView>::empty());
        while i < chunk.len()
            invariant
                0 <= i <= chunk.len(),
                self.wf(),
                self@ == decoder_run(old(self)@, chunk@.subrange(0, i as int)),
                frame_views(frames@) == decoder_reports(old(self)@, chunk@.subrange(0, i as int)),
            decreases chunk.len() - i,
        {
            let ghost before = frames@;
            assert(chunk@.subrange(0, i + 1).drop_last() =~= chunk@.subrange(0, i as int));
            match self.push_byte(chunk[i]) {
                None => {},
                Some(frame) => {
                    frames.push(frame);
                    assert(frame_views(before.push(frame)) =~= frame_views(before).push(frame@));
                },
            }
            i = i + 1;
        }
        assert(chunk@.subrange(0, i as int) =~= chunk@);
        frames
    }

    fn push_byte(&mut self, byte: u8) -> (frame: Option<DecodedControlFrame>)
        requires
            old(self).wf(),
        ensures
            final(self).wf(),
            final(self)@ == decoder_after(old(self)@, byte),
            frame is Some <==> byte == 0,
            frame matches Some(f) ==> f@ == terminated_meaning(old(self)@),
    {
        if byte == 0 {
            return Some(self.finish_terminated_frame());
        }
        match self.oversized_bytes {
            Some(count) => {
                self.oversized_bytes = Some(count.saturating_add(1));
            },
            None => {
                let held: usize = self.pending.len();
                if held < self.frame_limit {
                    self.pending.push(byte);
                } else {
                    self.pending.clear();
                    self.oversized_bytes = Some(held.saturating_add(1));
                }
            },
        }
        None
    }

    /// Rejects one partial frame at end of stream and clears decoder state.
    pub fn finish(&mut self) -> (frame: Option<DecodedControlFrame>)
        requires
            old(self).wf(),
        ensures
            final(self).wf(),
            final(self)@ == idle_decoder(old(self)@.limit),
            frame is None <==> old(self)@ == idle_decoder(old(self)@.limit),
            frame matches Some(f) ==> f@ == ControlFrameView::Rejected(
                match old(self)@.oversized {
                    Some(observed_bytes) => ControlFrameError::FrameTooLarge {
                        observed_bytes,
                        limit: old(self)@.limit,
                    },
                    None => ControlFrameError::TruncatedFrame {
                        observed_bytes: old(self)@.pending.len() as usize,
                    },
                },
            ),
    {
        match self.oversized_bytes {
            Some(observed_bytes) => {
                self.oversized_bytes = None;
                return Some(
                    DecodedControlFrame::Rejected(
                        ControlFrameError::FrameTooLarge { observed_bytes, limit: self.frame_limit },
                    ),
                );
            },
            None => {},
        }
        let observed_bytes: usize = self.pending.len();
        if observed_bytes == 0 {
            assert(self.pending@ =~= Seq::<u8>::empty());
            return None;
        }
        self.pending.clear();
        Some(DecodedControlFrame::Rejected(ControlFrameError::TruncatedFrame { observed_bytes }))
    }

    fn finish_terminated_frame(&mut self) -> (frame: DecodedControlFrame)
        requires
            old(self).wf(),
        ensures
            final(self).wf(),
            final(self)@ == idle_decoder(old(self)@.limit),
            frame@ == terminated_meaning(old(self)@),
    {
        match self.oversized_bytes {
            Some(observed_bytes) => {
                self.oversized_bytes = None;
                return DecodedControlFrame::Rejected(
                    ControlFrameError::FrameTooLarge { observed_bytes, limit: self.frame_limit },
                );
            },
            None => {},
        }
        let frame = match parse_control_frame(self.pending.as_slice()) {
            Ok(control) => control,
            Err(error) => DecodedControlFrame::Rejected(error),
        };
        self.pending.clear();
        frame
    }

    /// Diagnostic summary, which shows sizes and never retained bytes.
    pub fn debug_text(&self) -> (summary: String)
        ensures
            summary@ == "ShellControlDecoder { pending_bytes: "@ + decimal_chars(self@.pending.len())
                + ", oversized_bytes: "@ + (match self@.oversized {
                Some(bytes) => "Some("@ + decimal_chars(bytes as nat) + ")"@,
                None => "None"@,
            }) + ", frame_limit: "@ + decimal_chars(self@.limit as nat) + " }"@,
    {
        let mut summary = "ShellControlDecoder { pending_bytes: ".to_owned();
        append_number(&mut summary, self.pending.len() as u128);
        summary.append(", oversized_bytes: ");
        let ghost head = summary@;
        match self.oversized_bytes {
            Some(bytes) => {
                summary.append("Some(");
                append_number(&mut summary, bytes as u128);
                summary.append(")");
                assert(summary@ =~= head + ("Some("@ + decimal_chars(bytes as nat) + ")"@));
            },
            None => {
                summary.append("None");
            },
        }
        summary.append(", frame_limit: ");
        append_number(&mut summary, self.frame_limit as u128);
        summary.append(" }");
        summary
    }
}

impl Default for ShellControlDecoder {
    fn default() -> (decoder: Self)
        ensures
            decoder.wf(),
            decoder@ == idle_decoder(MAX_CONTROL_FRAME_BYTES),
    {
        ShellControlDecoder::new()
    }
}

proof fn lemma_prefix_bytes()
    ensures
        replacement_prefix().len() == 26,
        resync_prefix().len() == 25,
        replacement_prefix()[20] == 112,
        resync_prefix()[20] == 115,
        forall|i: int| 0 <= i < 26 ==> 0 < #[trigger] replacement_prefix()[i] < 128,
        forall|i: int| 0 <= i < 25 ==> 0 < #[trigger] resync_prefix()[i] < 128,
{
    broadcast use is_ascii_spec_bytes;

    reveal_strlit("argmax-control-v1:replace:");
    reveal_strlit("argmax-control-v1:resync:");
    assert(is_ascii("argmax-control-v1:replace:"));
    assert(is_ascii("argmax-control-v1:resync:"));
}

proof fn lemma_hex_round_trip(bytes: Seq<u8>)
    ensures
        hex_encoded(bytes).len() == 2 * bytes.len(),
        all_lower_hex(hex_encoded(bytes)),
        hex_decoded(hex_encoded(bytes)) == bytes,
        forall|i: int|
            0 <= i < hex_encoded(bytes).len() ==> 48 <= #[trigger] hex_encoded(bytes)[i] < 103
                && hex_encoded(bytes)[i] != 58,
{
    let hex = hex_encoded(bytes);
    assert forall|i: int| 0 <= i < hex.len() implies hex_value(#[trigger] hex[i]) is Some && 48 <= hex[i]
        < 103 && hex[i] != 58 by {
        assert(bytes[i / 2] as int / 16 < 16);
    }
    assert forall|i: int| 0 <= i < bytes.len() implies #[trigger] hex_decoded(hex)[i] == bytes[i] by {
        assert((2 * i) / 2 == i && (2 * i) % 2 == 0);
        assert((2 * i + 1) / 2 == i && (2 * i + 1) % 2 == 1);
        let byte = bytes[i];
        assert(hex[2 * i] == hex_digit(byte as int / 16));
        assert(hex[2 * i + 1] == hex_digit(byte as int % 16));
        assert(hex_value(hex_digit(byte as int / 16)) == Some((byte as int / 16) as u8));
        assert(hex_value(hex_digit(byte as int % 16)) == Some((byte as int % 16) as u8));
    }
    assert(hex_decoded(hex) =~= bytes);
}

proof fn lemma_digits_hold_no_colon(n: nat)
    ensures
        !decimal_digits(n).contains(58u8),
        forall|i: int| 0 <= i < decimal_digits(n).len() ==> 48 <= #[trigger] decimal_digits(n)[i] <= 57,
{
    lemma_decimal_digits_shape(n);
    assert forall|i: int| 0 <= i < decimal_digits(n).len() implies 48 <= #[trigger] decimal_digits(n)[i]
        <= 57 by {
        assert(is_digit(decimal_digits(n)[i]));
    }
}

/// An encoded replacement is plain ASCII without NUL and keeps within the
/// protocol's frame bound.
pub proof fn law_replacement_frame_is_bounded_ascii(request: u64, text: Seq<char>, cursor: int)
    requires
        1 <= request <= MAX_CONTROL_REQUEST_ID,
        valid_replacement(text, cursor),
    ensures
        replacement_frame(request, text, cursor).len() <= MAX_CONTROL_FRAME_BYTES,
        forall|i: int|
            0 <= i < replacement_frame(request, text, cursor).len() ==> 0 < #[trigger] replacement_frame(
                request,
                text,
                cursor,
            )[i] < 128,
{
    let bytes = encode_utf8(text);
    encode_utf8_valid_utf8(text);
    assert(0 <= cursor <= bytes.len());
    lemma_prefix_bytes();
    lemma_hex_round_trip(bytes);
    lemma_decimal_width(request as nat);
    lemma_decimal_width(cursor as nat);
    lemma_decimal_width(bytes.len());
    lemma_digits_hold_no_colon(request as nat);
    lemma_digits_hold_no_colon(cursor as nat);
    lemma_digits_hold_no_colon(bytes.len());
}

/// A replacement frame says what it was encoded from.
pub proof fn law_replacement_frame_round_trips(request: u64, text: Seq<char>, cursor: int)
    requires
        1 <= request <= MAX_CONTROL_REQUEST_ID,
        valid_replacement(text, cursor),
    ensures
        frame_meaning(replacement_frame(request, text, cursor)) == (ControlFrameView::Replacement {
            request,
            text,
            cursor,
        }),
{
    let bytes = encode_utf8(text);
    let r = decimal_digits(request as nat);
    let c = decimal_digits(cursor as nat);
    let l = decimal_digits(bytes.len());
    let h = hex_encoded(bytes);
    encode_utf8_valid_utf8(text);
    assert(0 <= cursor <= bytes.len());
    lemma_replacement_fields(request, text, cursor);
    assert(payload_meaning(request, cursor as nat, bytes.len(), h) == (ControlFrameView::Replacement {
        request,
        text,
        cursor,
    })) by {
        lemma_hex_round_trip(bytes);
        encode_utf8_decode_utf8(text);
    }
    lemma_decimal_digits_shape(request as nat);
    lemma_decimal_digits_shape(cursor as nat);
    lemma_decimal_digits_shape(bytes.len());
    assert(field_number(r, u64::MAX as nat) == Some(request as nat));
    assert(field_number(c, usize::MAX as nat) == Some(cursor as nat));
    assert(field_number(l, usize::MAX as nat) == Some(bytes.len()));
}

/// The pieces of a replacement frame behind its prefix.
proof fn lemma_replacement_fields(request: u64, text: Seq<char>, cursor: int)
    ensures
        replacement_prefix().len() == 26,
        has_prefix(replacement_frame(request, text, cursor), replacement_prefix()),
        !has_prefix(replacement_frame(request, text, cursor), resync_prefix()),
        split_on(skip_bytes(replacement_frame(request, text, cursor), 26), 58) == seq![
            decimal_digits(request as nat),
            decimal_digits(cursor as nat),
            decimal_digits(encode_utf8(text).len()),
            hex_encoded(encode_utf8(text)),
        ],
{
    let bytes = encode_utf8(text);
    let frame = replacement_frame(request, text, cursor);
    let r = decimal_digits(request as nat);
    let c = decimal_digits(cursor as nat);
    let l = decimal_digits(bytes.len());
    let h = hex_encoded(bytes);
    lemma_prefix_bytes();
    assert(frame.subrange(0, 26) =~= replacement_prefix());
    assert(!has_prefix(frame, resync_prefix())) by {
        assert(frame[20] == 112);
        assert(frame.subrange(0, 25)[20] == 112);
    }
    let fields = skip_bytes(frame, 26);
    let rc = r.push(58) + c;
    let rcl = rc.push(58) + l;
    assert(fields =~= rcl.push(58) + h);
    assert(!r.contains(58u8) && !c.contains(58u8) && !l.contains(58u8)) by {
        lemma_digits_hold_no_colon(request as nat);
        lemma_digits_hold_no_colon(cursor as nat);
        lemma_digits_hold_no_colon(bytes.len());
    }
    assert(!h.contains(58u8)) by {
        lemma_hex_round_trip(bytes);
    }
    lemma_split_single(r, 58);
    lemma_split_append(r, c, 58);
    lemma_split_append(rc, l, 58);
    lemma_split_append(rcl, h, 58);
    assert(split_on(fields, 58) =~= seq![r, c, l, h]);
}

/// A probe-resynchronization frame says what it was encoded from.
pub proof fn law_resync_frame_round_trips(request: u64)
    requires
        1 <= request <= MAX_PROBE_RESYNC_REQUEST_ID,
    ensures
        frame_meaning(resync_frame(request)) == (ControlFrameView::ProbeResync { request }),
        resync_frame(request).len() < MAX_CONTROL_FRAME_BYTES,
        forall|i: int| 0 <= i < resync_frame(request).len() ==> 0 < #[trigger] resync_frame(request)[i] < 128,
{
    lemma_prefix_bytes();
    lemma_decimal_digits_shape(request as nat);
    lemma_digits_hold_no_colon(request as nat);
    lemma_decimal_width(request as nat);
    let frame = resync_frame(request);
    assert(frame.subrange(0, 25) =~= resync_prefix());
    assert(skip_bytes(frame, 25) =~= decimal_digits(request as nat));
}

proof fn lemma_hex_is_canonical(digits: Seq<u8>)
    requires
        all_lower_hex(digits),
        digits.len() % 2 == 0,
    ensures
        hex_encoded(hex_decoded(digits)) == digits,
{
    let decoded = hex_decoded(digits);
    assert forall|i: int| 0 <= i < digits.len() implies #[trigger] hex_encoded(decoded)[i] == digits[i] by {
        let high = digits[2 * (i / 2)];
        let low = digits[2 * (i / 2) + 1];
        assert(hex_value(high) is Some && hex_value(low) is Some);
        assert(decoded[i / 2] == hex_value(high)->0 * 16 + hex_value(low)->0);
        assert(decoded[i / 2] as int / 16 == hex_value(high)->0);
        assert(decoded[i / 2] as int % 16 == hex_value(low)->0);
    }
    assert(hex_encoded(decoded) =~= digits);
}

/// Four fields and the three colons between them.
proof fn lemma_four_fields(bytes: Seq<u8>)
    requires
        split_on(bytes, 58).len() == 4,
    ensures
        ({
            let f = split_on(bytes, 58);
            bytes == ((f[0].push(58) + f[1]).push(58) + f[2]).push(58) + f[3]
        }),
{
    let f = split_on(bytes, 58);
    lemma_split_last(bytes, 58);
    let three = choose|front: Seq<u8>| #[trigger]
        split_on(front, 58) == f.drop_last() && bytes == front.push(58) + f.last();
    lemma_split_last(three, 58);
    let two = choose|front: Seq<u8>| #[trigger]
        split_on(front, 58) == f.drop_last().drop_last() && three == front.push(58)
            + f.drop_last().last();
    lemma_split_last(two, 58);
    let one = choose|front: Seq<u8>| #[trigger]
        split_on(front, 58) == f.drop_last().drop_last().drop_last() && two == front.push(58)
            + f.drop_last().drop_last().last();
    lemma_split_last(one, 58);
    assert(one == f[0]);
    assert(two == f[0].push(58) + f[1]);
    assert(three == two.push(58) + f[2]);
}

/// Accepted fields are the digits of the numbers and of the text they say.
proof fn lemma_accepted_fields(fields: Seq<Seq<u8>>)
    ensures
        match replacement_meaning(fields) {
            ControlFrameView::Replacement { request, text, cursor } => {
                &&& fields.len() == 4
                &&& 1 <= request <= MAX_CONTROL_REQUEST_ID
                &&& valid_replacement(text, cursor)
                &&& fields[0] == decimal_digits(request as nat)
                &&& fields[1] == decimal_digits(cursor as nat)
                &&& fields[2] == decimal_digits(encode_utf8(text).len())
                &&& fields[3] == hex_encoded(encode_utf8(text))
            },
            ControlFrameView::ProbeResync { .. } => false,
            ControlFrameView::Rejected(_) => true,
        },
{
    if replacement_meaning(fields) is Replacement {
        lemma_canonical_digits(fields[0]);
        lemma_canonical_digits(fields[1]);
        lemma_canonical_digits(fields[2]);
        let decoded = hex_decoded(fields[3]);
        lemma_hex_is_canonical(fields[3]);
        decode_utf8_encode_utf8(decoded);
        assert(encode_utf8(replacement_meaning(fields)->text) == decoded);
        assert(decoded.len() == decimal_value(fields[2]));
    }
}

/// A prefix in front of four joined fields may be joined to the first of them.
proof fn lemma_joined_behind(prefix: Seq<u8>, a: Seq<u8>, b: Seq<u8>, c: Seq<u8>, d: Seq<u8>)
    ensures
        prefix + (((a.push(58) + b).push(58) + c).push(58) + d) == (((prefix + a).push(58)
            + b).push(58) + c).push(58) + d,
{
    assert(prefix + (a.push(58) + b) =~= (prefix + a).push(58) + b);
    assert(prefix + ((a.push(58) + b).push(58) + c) =~= (prefix + (a.push(58) + b)).push(58) + c);
    assert(prefix + (((a.push(58) + b).push(58) + c).push(58) + d) =~= (prefix + ((a.push(58)
        + b).push(58) + c)).push(58) + d);
}

/// Only the one encoding of a control is accepted: an accepted frame is the
/// encoding of what it says.
pub proof fn law_accepted_frames_are_canonical(frame: Seq<u8>)
    ensures
        match frame_meaning(frame) {
            ControlFrameView::Replacement { request, text, cursor } => {
                &&& 1 <= request <= MAX_CONTROL_REQUEST_ID
                &&& valid_replacement(text, cursor)
                &&& frame == replacement_frame(request, text, cursor)
            },
            ControlFrameView::ProbeResync { request } => {
                &&& 1 <= request <= MAX_PROBE_RESYNC_REQUEST_ID
                &&& frame == resync_frame(request)
            },
            ControlFrameView::Rejected(_) => true,
        },
{
    if has_prefix(frame, resync_prefix()) {
        let rest = skip_bytes(frame, resync_prefix().len() as int);
        assert(frame =~= resync_prefix() + rest);
        if resync_meaning(rest) is ProbeResync {
            lemma_canonical_digits(rest);
        }
    } else if has_prefix(frame, replacement_prefix()) {
        let rest = skip_bytes(frame, replacement_prefix().len() as int);
        let fields = split_on(rest, 58);
        assert(frame =~= replacement_prefix() + rest);
        lemma_accepted_fields(fields);
        if replacement_meaning(fields) is Replacement {
            lemma_four_fields(rest);
            lemma_joined_behind(replacement_prefix(), fields[0], fields[1], fields[2], fields[3]);
        }
    }
}

/// Two frames never say the same control.
pub proof fn law_controls_have_one_frame(first: Seq<u8>, second: Seq<u8>)
    requires
        frame_meaning(first) == frame_meaning(second),
        !(frame_meaning(first) is Rejected),
    ensures
        first == second,
{
    law_accepted_frames_are_canonical(first);
    law_accepted_frames_are_canonical(second);
}

/// How a stream is cut into chunks changes neither what is reported nor the
/// state that the decoder is left in.
pub proof fn law_decoding_ignores_chunk_boundaries(
    decoder: ControlDecoderView,
    first: Seq<u8>,
    second: Seq<u8>,
)
    ensures
        decoder_run(decoder, first + second) == decoder_run(decoder_run(decoder, first), second),
        decoder_reports(decoder, first + second) == decoder_reports(decoder, first) + decoder_reports(
            decoder_run(decoder, first),
            second,
        ),
    decreases second.len(),
{
    if second.len() == 0 {
        assert(first + second =~= first);
        assert(decoder_reports(decoder, first) + Seq::<ControlFrameView>::empty() =~= decoder_reports(
            decoder,
            first,
        ));
    } else {
        let shorter = second.drop_last();
        assert((first + second).drop_last() =~= first + shorter);
        law_decoding_ignores_chunk_boundaries(decoder, first, shorter);
        assert(decoder_reports(decoder, first + second) =~= decoder_reports(decoder, first)
            + decoder_reports(decoder_run(decoder, first), second));
    }
}

/// While no terminator arrives, nothing is reported, and either every byte is
/// retained or only their number.
proof fn lemma_unterminated_run(limit: usize, bytes: Seq<u8>)
    requires
        !bytes.contains(0u8),
    ensures
        decoder_reports(idle_decoder(limit), bytes) == Seq::<ControlFrameView>::empty(),
        bytes.len() <= limit ==> decoder_run(idle_decoder(limit), bytes) == (ControlDecoderView {
            pending: bytes,
            oversized: None,
            limit,
        }),
        bytes.len() > limit ==> decoder_run(idle_decoder(limit), bytes) == (ControlDecoderView {
            pending: Seq::empty(),
            oversized: Some(
                if bytes.len() <= usize::MAX {
                    bytes.len() as usize
                } else {
                    usize::MAX
                },
            ),
            limit,
        }),
    decreases bytes.len(),
{
    if bytes.len() > 0 {
        let shorter = bytes.drop_last();
        assert(bytes.contains(bytes.last()));
        assert(!shorter.contains(0u8)) by {
            assert forall|i: int| 0 <= i < shorter.len() implies shorter[i] != 0 by {
                assert(bytes.contains(bytes[i]));
            }
        }
        lemma_unterminated_run(limit, shorter);
        assert(shorter.push(bytes.last()) =~= bytes);
    } else {
        assert(bytes =~= Seq::<u8>::empty());
    }
}

/// One terminated frame yields exactly one report: its meaning, or its size
/// where it exceeds the limit. The decoder is then ready for the next frame.
pub proof fn law_frames_are_isolated(limit: usize, frame: Seq<u8>)
    requires
        !frame.contains(0u8),
    ensures
        decoder_run(idle_decoder(limit), frame.push(0)) == idle_decoder(limit),
        frame.len() <= limit ==> decoder_reports(idle_decoder(limit), frame.push(0)) == seq![
            frame_meaning(frame),
        ],
        limit < frame.len() <= usize::MAX ==> decoder_reports(idle_decoder(limit), frame.push(0)) == seq![
            ControlFrameView::Rejected(
                ControlFrameError::FrameTooLarge { observed_bytes: frame.len() as usize, limit },
            ),
        ],
{
    lemma_unterminated_run(limit, frame);
    assert(frame.push(0).drop_last() =~= frame);
}

/// Whatever a decoder holds, a terminator makes it ready for the next frame.
pub proof fn law_terminator_resets(decoder: ControlDecoderView, bytes: Seq<u8>)
    ensures
        decoder_run(decoder, bytes.push(0)) == idle_decoder(decoder.limit),
{
    assert(bytes.push(0).drop_last() =~= bytes);
    lemma_limit_is_kept(decoder, bytes);
}

proof fn lemma_limit_is_kept(decoder: ControlDecoderView, bytes: Seq<u8>)
    ensures
        decoder_run(decoder, bytes).limit == decoder.limit,
    decreases bytes.len(),
{
    if bytes.len() > 0 {
        lemma_limit_is_kept(decoder, bytes.drop_last());
    }
}

/// Decoding the wire bytes of a replacement gives back that replacement and
/// nothing else.
pub proof fn law_replacement_wire_round_trips(request: u64, text: Seq<char>, cursor: int)
    requires
        1 <= request <= MAX_CONTROL_REQUEST_ID,
        valid_replacement(text, cursor),
    ensures
        decoder_reports(
            idle_decoder(MAX_CONTROL_FRAME_BYTES),
            replacement_frame(request, text, cursor).push(0),
        ) == seq![ControlFrameView::Replacement { request, text, cursor }],
        decoder_run(
            idle_decoder(MAX_CONTROL_FRAME_BYTES),
            replacement_frame(request, text, cursor).push(0),
        ) == idle_decoder(MAX_CONTROL_FRAME_BYTES),
{
    law_replacement_frame_is_bounded_ascii(request, text, cursor);
    law_replacement_frame_round_trips(request, text, cursor);
    law_frames_are_isolated(MAX_CONTROL_FRAME_BYTES, replacement_frame(request, text, cursor));
}

/// Decoding the wire bytes of a probe resynchronization gives it back and
/// nothing else.
pub proof fn law_resync_wire_round_trips(request: u64)
    requires
        1 <= request <= MAX_PROBE_RESYNC_REQUEST_ID,
    ensures
        decoder_reports(idle_decoder(MAX_CONTROL_FRAME_BYTES), resync_frame(request).push(0)) == seq![
            ControlFrameView::ProbeResync { request },
        ],
        decoder_run(idle_decoder(MAX_CONTROL_FRAME_BYTES), resync_frame(request).push(0))
            == idle_decoder(MAX_CONTROL_FRAME_BYTES),
{
    law_resync_frame_round_trips(request);
    law_frames_are_isolated(MAX_CONTROL_FRAME_BYTES, resync_frame(request));
}

/// Frames that arrive together are reported one after the other, in the order
/// of the wire.
pub proof fn law_coalesced_frames_stay_in_wire_order(limit: usize, first: Seq<u8>, rest: Seq<u8>)
    requires
        !first.contains(0u8),
    ensures
        decoder_reports(idle_decoder(limit), first.push(0) + rest) == decoder_reports(
            idle_decoder(limit),
            first.push(0),
        ) + decoder_reports(idle_decoder(limit), rest),
{
    law_decoding_ignores_chunk_boundaries(idle_decoder(limit), first.push(0), rest);
    law_frames_are_isolated(limit, first);
}

/// Hexadecimal notation is base sixteen, with lowercase letters for the digits
/// above nine and the higher digit first.
pub proof fn law_hexadecimal_is_base_sixteen(bytes: Seq<u8>, i: int)
    requires
        0 <= i < bytes.len(),
    ensures
        forall|k: u8| k < 10 ==> hex_value(#[trigger] (48 + k) as u8) == Some(k),
        forall|k: u8| k < 6 ==> hex_value(#[trigger] (97 + k) as u8) == Some((10 + k) as u8),
        forall|byte: u8|
            #[trigger] hex_value(byte) is Some ==> 48 <= byte <= 57 || 97 <= byte <= 102,
        hex_encoded(bytes).len() == 2 * bytes.len(),
        hex_value(hex_encoded(bytes)[2 * i]) matches Some(high) && hex_value(
            hex_encoded(bytes)[2 * i + 1],
        ) matches Some(low) && 16 * high + low == bytes[i],
{
}

/// A replacement control lists its request, its cursor, the size of its text and
/// the text, in this order.
pub proof fn law_replacement_frames_list_their_fields(request: u64, text: Seq<char>, cursor: int)
    requires
        valid_replacement(text, cursor),
    ensures
        ({
            let bytes = encode_utf8(text);
            let frame = replacement_frame(request, text, cursor);
            let prefix = "argmax-control-v1:replace:".spec_bytes();
            &&& frame.subrange(0, prefix.len() as int) == prefix
            &&& split_on(frame.subrange(prefix.len() as int, frame.len() as int), 58) == seq![
                decimal_digits(request as nat),
                decimal_digits(cursor as nat),
                decimal_digits(bytes.len()),
                hex_encoded(bytes),
            ]
        }),
{
    let bytes = encode_utf8(text);
    let frame = replacement_frame(request, text, cursor);
    let prefix = "argmax-control-v1:replace:".spec_bytes();
    let a = decimal_digits(request as nat);
    let b = decimal_digits(cursor as nat);
    let c = decimal_digits(bytes.len());
    let d = hex_encoded(bytes);
    lemma_decimal_digits_shape(request as nat);
    lemma_decimal_digits_shape(cursor as nat);
    lemma_decimal_digits_shape(bytes.len());
    let rest = ((a.push(58) + b).push(58) + c).push(58) + d;
    lemma_joined_behind(prefix, a, b, c, d);
    assert(frame == prefix + rest);
    assert(frame.subrange(0, prefix.len() as int) =~= prefix);
    assert(frame.subrange(prefix.len() as int, frame.len() as int) =~= rest);
    assert(!a.contains(58u8)) by {
        assert forall|i: int| 0 <= i < a.len() implies a[i] != 58 by {
            assert(is_digit(a[i]));
        }
    }
    assert(!b.contains(58u8)) by {
        assert forall|i: int| 0 <= i < b.len() implies b[i] != 58 by {
            assert(is_digit(b[i]));
        }
    }
    assert(!c.contains(58u8)) by {
        assert forall|i: int| 0 <= i < c.len() implies c[i] != 58 by {
            assert(is_digit(c[i]));
        }
    }
    assert(!d.contains(58u8));
    law_pieces_lie_between_separators(Seq::empty(), a, 58);
    law_pieces_lie_between_separators(a, b, 58);
    law_pieces_lie_between_separators(a.push(58) + b, c, 58);
    law_pieces_lie_between_separators((a.push(58) + b).push(58) + c, d, 58);
    assert(split_on(rest, 58) =~= seq![a, b, c, d]);
}

/// A text may replace a buffer exactly where it is not too large, holds no zero
/// byte, and the cursor stands between two of its characters.
pub proof fn law_replacements_are_checked(text: Seq<char>, cursor: int)
    ensures
        replacement_error(text, cursor) is None <==> {
            &&& encode_utf8(text).len() <= MAX_CONTROL_BUFFER_BYTES
            &&& forall|i: int| 0 <= i < encode_utf8(text).len() ==> #[trigger] encode_utf8(text)[i] != 0
            &&& is_char_boundary(encode_utf8(text), cursor)
        },
        valid_replacement(text, cursor) <==> replacement_error(text, cursor) is None,
        encode_utf8(text).len() > MAX_CONTROL_BUFFER_BYTES ==> replacement_error(text, cursor)
            is Some && replacement_error(text, cursor)->0 is BufferTooLarge,
{
    let bytes = encode_utf8(text);
    if !bytes.contains(0u8) {
        assert forall|i: int| 0 <= i < bytes.len() implies #[trigger] bytes[i] != 0 by {
            if bytes[i] == 0 {
                assert(bytes.contains(0u8));
            }
        }
    }
}

} // verus!
