//! Terminal input as keys.
//!
//! The router cuts raw terminal bytes into key events without changing, adding
//! or dropping a byte. A sequence that may still become a key is retained until
//! more input arrives or the caller flushes it.

use vstd::prelude::*;
use vstd::string::*;
use vstd::utf8::*;

use crate::text::{append_bytes, copy_bytes, find_byte, first_index, has_prefix, lemma_first_index_bounds, starts_with, utf8_str};

verus! {

/// Most events that one routing call yields.
pub const MAX_ROUTE_BATCH_EVENTS: usize = 256;

/// Most bytes that one forwarded piece of input holds.
pub const MAX_ROUTE_BATCH_EVENT_BYTES: usize = 4_096;

/// Most bytes in a configurable key binding.
pub const MAX_BINDING_BYTES: usize = 16;

/// Longest escape sequence that the router waits for.
pub const MAX_SEQUENCE_BYTES: usize = 32;

/// Meaning of one key.
#[derive(Clone, Copy, Debug, PartialEq, Eq)]
pub enum InputAction {
    /// A character that inserts itself.
    Printable(char),
    /// Tab.
    Tab,
    /// Shift+Tab.
    ShiftTab,
    /// Enter.
    Enter,
    /// Ctrl+C.
    CtrlC,
    /// A standalone Escape.
    Escape,
    /// Arrow up.
    ArrowUp,
    /// Arrow down.
    ArrowDown,
    /// Arrow right.
    ArrowRight,
    /// Arrow left.
    ArrowLeft,
    /// Backspace.
    Backspace,
    /// Delete.
    Delete,
    /// Home.
    Home,
    /// End.
    End,
    /// Ctrl+A.
    CtrlA,
    /// Ctrl+E.
    CtrlE,
    /// Ctrl+L.
    CtrlL,
    /// Ctrl+U.
    CtrlU,
    /// Ctrl+W.
    CtrlW,
    /// The configured mode binding.
    ToggleMode,
    /// The configured menu binding.
    ToggleMenu,
    /// Start of a bracketed paste.
    PasteStart,
    /// Bytes inside a bracketed paste.
    PasteData,
    /// End of a bracketed paste.
    PasteEnd,
    /// Input whose effect on the editing buffer is not known.
    Desynchronize,
}

/// When the bytes of a key go to the shell.
#[derive(Clone, Copy, Debug, PartialEq, Eq, Structural)]
pub enum Forwarding {
    /// In any case.
    Immediate,
    /// Only where the key was not handled locally.
    OnFallback,
}

/// When the bytes of a key with this meaning go to the shell.
pub open spec fn forwarding_of(action: InputAction) -> Forwarding {
    match action {
        InputAction::Tab
        | InputAction::ArrowUp
        | InputAction::ArrowDown
        | InputAction::ArrowRight
        | InputAction::ToggleMode
        | InputAction::ToggleMenu => Forwarding::OnFallback,
        _ => Forwarding::Immediate,
    }
}

fn forwarding_for(action: InputAction) -> (forwarding: Forwarding)
    ensures
        forwarding == forwarding_of(action),
{
    match action {
        InputAction::Tab
        | InputAction::ArrowUp
        | InputAction::ArrowDown
        | InputAction::ArrowRight
        | InputAction::ToggleMode
        | InputAction::ToggleMenu => Forwarding::OnFallback,
        _ => Forwarding::Immediate,
    }
}

/// One key as a value.
#[verifier::ext_equal]
pub struct InputEventView {
    pub bytes: Seq<u8>,
    pub forwarding: Forwarding,
    pub action: Option<InputAction>,
}

/// One key with the exact bytes that it came as.
pub struct InputEvent {
    /// Bytes of the key.
    pub bytes: Vec<u8>,
    /// When they go to the shell.
    pub forwarding: Forwarding,
    /// What the key means.
    pub action: Option<InputAction>,
}

impl View for InputEvent {
    type V = InputEventView;

    open spec fn view(&self) -> InputEventView {
        InputEventView { bytes: self.bytes@, forwarding: self.forwarding, action: self.action }
    }
}

/// Keys as values.
pub open spec fn event_views(events: Seq<InputEvent>) -> Seq<InputEventView> {
    events.map_values(|event: InputEvent| event@)
}

/// All bytes of a list of keys.
pub open spec fn event_bytes(events: Seq<InputEventView>) -> Seq<u8>
    decreases events.len(),
{
    if events.len() == 0 {
        Seq::empty()
    } else {
        event_bytes(events.drop_last()) + events.last().bytes
    }
}

/// Keys of one routing call.
pub struct RouteBatch {
    /// Caller bytes that were consumed.
    pub consumed_bytes: usize,
    /// Keys in the order of the input.
    pub events: Vec<InputEvent>,
}

/// Unusable key bindings.
#[derive(Clone, Copy, Debug, PartialEq, Eq, Structural)]
pub enum InputRouterError {
    /// A binding holds no byte.
    EmptyBinding,
    /// A binding is longer than [`MAX_BINDING_BYTES`].
    BindingTooLong,
    /// One binding begins with the other.
    AmbiguousBindings,
}

impl InputRouterError {
    /// Text of [`Self::message`].
    pub open spec fn text(self) -> Seq<char> {
        match self {
            InputRouterError::EmptyBinding => "key binding is empty"@,
            InputRouterError::BindingTooLong => "key binding is too long"@,
            InputRouterError::AmbiguousBindings => "key bindings are ambiguous"@,
        }
    }

    /// Human-readable description.
    pub fn message(&self) -> (message: String)
        ensures
            message@ == self.text(),
    {
        match *self {
            InputRouterError::EmptyBinding => "key binding is empty".to_owned(),
            InputRouterError::BindingTooLong => "key binding is too long".to_owned(),
            InputRouterError::AmbiguousBindings => "key bindings are ambiguous".to_owned(),
        }
    }
}

/// Why two bindings cannot be used together.
pub open spec fn binding_error(toggle_mode: Seq<u8>, toggle_menu: Seq<u8>) -> Option<InputRouterError> {
    if toggle_mode.len() == 0 || toggle_menu.len() == 0 {
        Some(InputRouterError::EmptyBinding)
    } else if toggle_mode.len() > MAX_BINDING_BYTES || toggle_menu.len() > MAX_BINDING_BYTES {
        Some(InputRouterError::BindingTooLong)
    } else if has_prefix(toggle_mode, toggle_menu) || has_prefix(toggle_menu, toggle_mode) {
        Some(InputRouterError::AmbiguousBindings)
    } else {
        None
    }
}

/// Router state as a value.
#[verifier::ext_equal]
pub struct RouterView {
    pub toggle_mode: Seq<u8>,
    pub toggle_menu: Seq<u8>,
    pub pending: Seq<u8>,
    pub paste: bool,
}

/// What stands at the start of some input.
pub enum Scan {
    /// Bytes that may still become a longer key.
    Partial,
    /// A key of so many bytes.
    Key { length: int, action: InputAction },
}

/// Bytes that end a bracketed paste.
pub open spec fn paste_end() -> Seq<u8> {
    seq![27, 91, 50, 48, 49, 126]
}

/// What stands at the start of input inside a bracketed paste.
pub open spec fn scan_paste(bytes: Seq<u8>) -> Scan {
    if bytes[0] != 27 {
        let run = first_index(bytes, 27);
        Scan::Key {
            length: if run <= MAX_ROUTE_BATCH_EVENT_BYTES {
                run
            } else {
                MAX_ROUTE_BATCH_EVENT_BYTES as int
            },
            action: InputAction::PasteData,
        }
    } else if has_prefix(bytes, paste_end()) {
        Scan::Key { length: 6, action: InputAction::PasteEnd }
    } else if has_prefix(paste_end(), bytes) {
        Scan::Partial
    } else {
        Scan::Key { length: 1, action: InputAction::PasteData }
    }
}

/// Meaning of a control sequence, given by what follows its introducer.
pub open spec fn sequence_action(body: Seq<u8>) -> InputAction {
    if body == seq![65u8] {
        InputAction::ArrowUp
    } else if body == seq![66u8] {
        InputAction::ArrowDown
    } else if body == seq![67u8] {
        InputAction::ArrowRight
    } else if body == seq![68u8] {
        InputAction::ArrowLeft
    } else if body == seq![72u8] || body == seq![49u8, 126u8] {
        InputAction::Home
    } else if body == seq![70u8] || body == seq![52u8, 126u8] {
        InputAction::End
    } else if body == seq![90u8] {
        InputAction::ShiftTab
    } else if body == seq![51u8, 126u8] {
        InputAction::Delete
    } else if body == seq![50u8, 48u8, 48u8, 126u8] {
        InputAction::PasteStart
    } else {
        InputAction::Desynchronize
    }
}

/// Index, from `from` on, of the first byte that is no parameter of a control
/// sequence, or the length where there is none.
pub open spec fn sequence_final(bytes: Seq<u8>, from: int) -> int
    decreases bytes.len() - from,
{
    if from >= bytes.len() || !(32 <= bytes[from] <= 63) {
        from
    } else {
        sequence_final(bytes, from + 1)
    }
}

/// What stands at the start of input that begins with an escape byte.
pub open spec fn scan_escape(bytes: Seq<u8>) -> Scan {
    if bytes.len() == 1 {
        Scan::Partial
    } else if bytes[1] == 27 {
        Scan::Key { length: 1, action: InputAction::Escape }
    } else if bytes[1] == 79 {
        if bytes.len() == 2 {
            Scan::Partial
        } else {
            Scan::Key { length: 3, action: sequence_action(bytes.subrange(2, 3)) }
        }
    } else if bytes[1] == 91 {
        let last = sequence_final(bytes, 2);
        if last >= bytes.len() {
            if bytes.len() < MAX_SEQUENCE_BYTES {
                Scan::Partial
            } else {
                Scan::Key { length: bytes.len() as int, action: InputAction::Desynchronize }
            }
        } else if 64 <= bytes[last] <= 126 {
            Scan::Key { length: last + 1, action: sequence_action(bytes.subrange(2, last + 1)) }
        } else {
            Scan::Key { length: last, action: InputAction::Desynchronize }
        }
    } else {
        Scan::Key { length: 2, action: InputAction::Desynchronize }
    }
}

/// Bytes of the character that a UTF-8 leading byte announces.
pub open spec fn announced_width(lead: u8) -> int {
    if 194 <= lead <= 223 {
        2
    } else if 224 <= lead <= 239 {
        3
    } else if 240 <= lead <= 244 {
        4
    } else {
        1
    }
}

/// What stands at the start of input that begins with a byte above ASCII.
pub open spec fn scan_character(bytes: Seq<u8>) -> Scan {
    let width = announced_width(bytes[0]);
    if bytes.len() < width {
        Scan::Partial
    } else if width > 1 && valid_utf8(bytes.subrange(0, width)) && decode_utf8(
        bytes.subrange(0, width),
    ).len() > 0 {
        Scan::Key {
            length: width,
            action: InputAction::Printable(decode_utf8(bytes.subrange(0, width))[0]),
        }
    } else {
        Scan::Key { length: 1, action: InputAction::Desynchronize }
    }
}

/// Meaning of one ASCII byte other than escape.
pub open spec fn ascii_action(byte: u8) -> InputAction {
    if 32 <= byte <= 126 {
        InputAction::Printable(byte as char)
    } else if byte == 9 {
        InputAction::Tab
    } else if byte == 13 {
        InputAction::Enter
    } else if byte == 3 {
        InputAction::CtrlC
    } else if byte == 8 || byte == 127 {
        InputAction::Backspace
    } else if byte == 1 {
        InputAction::CtrlA
    } else if byte == 5 {
        InputAction::CtrlE
    } else if byte == 12 {
        InputAction::CtrlL
    } else if byte == 21 {
        InputAction::CtrlU
    } else if byte == 23 {
        InputAction::CtrlW
    } else {
        InputAction::Desynchronize
    }
}

impl RouterView {
    /// Usable bindings and a bounded remainder.
    #[verifier::opaque]
    pub open spec fn inv(self) -> bool {
        &&& binding_error(self.toggle_mode, self.toggle_menu) is None
        &&& self.pending.len() <= MAX_SEQUENCE_BYTES
    }

    /// What stands at the start of nonempty input.
    #[verifier::opaque]
    pub open spec fn scan(self, bytes: Seq<u8>) -> Scan {
        if self.paste {
            scan_paste(bytes)
        } else if has_prefix(bytes, self.toggle_mode) {
            Scan::Key { length: self.toggle_mode.len() as int, action: InputAction::ToggleMode }
        } else if has_prefix(bytes, self.toggle_menu) {
            Scan::Key { length: self.toggle_menu.len() as int, action: InputAction::ToggleMenu }
        } else if has_prefix(self.toggle_mode, bytes) || has_prefix(self.toggle_menu, bytes) {
            Scan::Partial
        } else if bytes[0] == 27 {
            scan_escape(bytes)
        } else if bytes[0] >= 128 {
            scan_character(bytes)
        } else {
            Scan::Key { length: 1, action: ascii_action(bytes[0]) }
        }
    }

    /// Router after a key.
    pub open spec fn after_key(self, action: InputAction) -> Self {
        RouterView {
            paste: match action {
                InputAction::PasteStart => true,
                InputAction::PasteEnd => false,
                _ => self.paste,
            },
            ..self
        }
    }
}

/// Cutting of some input into keys.
#[verifier::ext_equal]
pub struct Routing {
    /// Keys in the order of the input.
    pub events: Seq<InputEventView>,
    /// Bytes behind them.
    pub rest: Seq<u8>,
    /// Whether the rest may still become a longer key.
    pub partial: bool,
    /// Whether a bracketed paste is open behind them.
    pub paste: bool,
}

/// Key that `bytes` are.
pub open spec fn key_event(bytes: Seq<u8>, action: InputAction) -> InputEventView {
    InputEventView { bytes, forwarding: forwarding_of(action), action: Some(action) }
}

/// Cuts `bytes` into at most `room` keys.
#[verifier::opaque]
pub open spec fn routed(router: RouterView, bytes: Seq<u8>, room: nat) -> Routing
    decreases room,
{
    if bytes.len() == 0 || room == 0 {
        Routing { events: Seq::empty(), rest: bytes, partial: false, paste: router.paste }
    } else {
        match router.scan(bytes) {
            Scan::Partial => Routing {
                events: Seq::empty(),
                rest: bytes,
                partial: true,
                paste: router.paste,
            },
            Scan::Key { length, action } => {
                let later = routed(
                    router.after_key(action),
                    bytes.subrange(length, bytes.len() as int),
                    (room - 1) as nat,
                );
                Routing {
                    events: seq![key_event(bytes.subrange(0, length), action)] + later.events,
                    ..later
                }
            },
        }
    }
}

proof fn lemma_sequence_final_bounds(bytes: Seq<u8>, from: int)
    requires
        0 <= from <= bytes.len(),
    ensures
        from <= sequence_final(bytes, from) <= bytes.len(),
    decreases bytes.len() - from,
{
    if from < bytes.len() && 32 <= bytes[from] <= 63 {
        lemma_sequence_final_bounds(bytes, from + 1);
    }
}

/// A key takes at least one byte and no more than there are, and what may
/// still become a key is short.
pub proof fn law_keys_are_bounded(router: RouterView, bytes: Seq<u8>)
    requires
        router.inv(),
        bytes.len() > 0,
    ensures
        router.scan(bytes) matches Scan::Key { length, .. } ==> 1 <= length <= bytes.len(),
        router.scan(bytes) is Partial ==> bytes.len() < MAX_SEQUENCE_BYTES,
{
    reveal(RouterView::inv);
    reveal(RouterView::scan);
    lemma_first_index_bounds(bytes, 27);
    if bytes.len() >= 2 {
        lemma_sequence_final_bounds(bytes, 2);
    }
}

/// Routing neither adds, drops, changes nor reorders a byte: the bytes of the
/// keys, followed by what is left, are the input.
pub proof fn law_routing_is_byte_exact(router: RouterView, bytes: Seq<u8>, room: nat)
    requires
        router.inv(),
    ensures
        event_bytes(routed(router, bytes, room).events) + routed(router, bytes, room).rest == bytes,
        routed(router, bytes, room).events.len() <= room,
        routed(router, bytes, room).partial ==> routed(router, bytes, room).rest.len()
            < MAX_SEQUENCE_BYTES,
        routed(router, bytes, room).rest.len() > 0 && !routed(router, bytes, room).partial ==> routed(
            router,
            bytes,
            room,
        ).events.len() == room,
        event_bytes(routed(router, bytes, room).events).len() >= routed(router, bytes, room).events.len(),
    decreases room,
{
    reveal(RouterView::inv);
    reveal(routed);
    if bytes.len() == 0 || room == 0 {
        assert(event_bytes(Seq::<InputEventView>::empty()) + bytes =~= bytes);
    } else {
        law_keys_are_bounded(router, bytes);
        match router.scan(bytes) {
            Scan::Partial => {
                assert(event_bytes(Seq::<InputEventView>::empty()) + bytes =~= bytes);
            },
            Scan::Key { length, action } => {
                let rest = bytes.subrange(length, bytes.len() as int);
                let next = router.after_key(action);
                law_routing_is_byte_exact(next, rest, (room - 1) as nat);
                let later = routed(next, rest, (room - 1) as nat);
                let first = key_event(bytes.subrange(0, length), action);
                lemma_event_bytes_first(first, later.events);
                assert(first.bytes + rest =~= bytes);
                assert(event_bytes(routed(router, bytes, room).events) + later.rest =~= bytes);
            },
        }
    }
}

/// Every key is forwarded as its meaning asks.
pub proof fn law_keys_follow_their_meaning(router: RouterView, bytes: Seq<u8>, room: nat)
    ensures
        forall|i: int|
            0 <= i < routed(router, bytes, room).events.len() ==> {
                let event = #[trigger] routed(router, bytes, room).events[i];
                event.action matches Some(action) && event.forwarding == forwarding_of(action)
            },
    decreases room,
{
    reveal(routed);
    if bytes.len() > 0 && room > 0 {
        if let Scan::Key { length, action } = router.scan(bytes) {
            let rest = bytes.subrange(length, bytes.len() as int);
            let next = router.after_key(action);
            law_keys_follow_their_meaning(next, rest, (room - 1) as nat);
            let later = routed(next, rest, (room - 1) as nat);
            assert forall|i: int| 0 <= i < routed(router, bytes, room).events.len() implies ({
                let event = #[trigger] routed(router, bytes, room).events[i];
                event.action matches Some(action) && event.forwarding == forwarding_of(action)
            }) by {
                if i > 0 {
                    assert(routed(router, bytes, room).events[i] == later.events[i - 1]);
                }
            }
        }
    }
}

proof fn lemma_event_bytes_first(first: InputEventView, later: Seq<InputEventView>)
    ensures
        event_bytes(seq![first] + later) == first.bytes + event_bytes(later),
    decreases later.len(),
{
    let all = seq![first] + later;
    if later.len() == 0 {
        assert(all =~= seq![first]);
        assert(all.drop_last() =~= Seq::<InputEventView>::empty());
        assert(event_bytes(all.drop_last()) =~= Seq::<u8>::empty());
        assert(event_bytes(all) =~= first.bytes);
        assert(first.bytes + event_bytes(later) =~= first.bytes);
    } else {
        assert(all.drop_last() =~= seq![first] + later.drop_last());
        lemma_event_bytes_first(first, later.drop_last());
        assert(event_bytes(all) =~= first.bytes + event_bytes(later));
    }
}

/// Cuts terminal input into keys.
pub struct InputRouter {
    toggle_mode: Vec<u8>,
    toggle_menu: Vec<u8>,
    pending: Vec<u8>,
    paste: bool,
}

impl View for InputRouter {
    type V = RouterView;

    closed spec fn view(&self) -> RouterView {
        RouterView {
            toggle_mode: self.toggle_mode@,
            toggle_menu: self.toggle_menu@,
            pending: self.pending@,
            paste: self.paste,
        }
    }
}

fn check_bindings(toggle_mode: &[u8], toggle_menu: &[u8]) -> (error: Option<InputRouterError>)
    ensures
        error == binding_error(toggle_mode@, toggle_menu@),
{
    if toggle_mode.len() == 0 || toggle_menu.len() == 0 {
        Some(InputRouterError::EmptyBinding)
    } else if toggle_mode.len() > MAX_BINDING_BYTES || toggle_menu.len() > MAX_BINDING_BYTES {
        Some(InputRouterError::BindingTooLong)
    } else if starts_with(toggle_mode, toggle_menu) || starts_with(toggle_menu, toggle_mode) {
        Some(InputRouterError::AmbiguousBindings)
    } else {
        None
    }
}

/// Whether a scan is the one that the specification gives.
pub open spec fn scan_agrees(result: Option<(usize, InputAction)>, scan: Scan) -> bool {
    match result {
        None => scan is Partial,
        Some((length, action)) => scan == (Scan::Key { length: length as int, action }),
    }
}

impl InputRouter {
    /// Creates a router with the two configurable bindings.
    pub fn new(toggle_mode: &[u8], toggle_menu: &[u8]) -> (result: Result<Self, InputRouterError>)
        ensures
            match result {
                Ok(router) => {
                    &&& binding_error(toggle_mode@, toggle_menu@) is None
                    &&& router@ == (RouterView {
                        toggle_mode: toggle_mode@,
                        toggle_menu: toggle_menu@,
                        pending: Seq::empty(),
                        paste: false,
                    })
                    &&& router@.inv()
                },
                Err(error) => binding_error(toggle_mode@, toggle_menu@) == Some(error),
            },
    {
        proof {
            reveal(RouterView::inv);
        }
        match check_bindings(toggle_mode, toggle_menu) {
            Some(error) => Err(error),
            None => Ok(
                InputRouter {
                    toggle_mode: copy_bytes(toggle_mode),
                    toggle_menu: copy_bytes(toggle_menu),
                    pending: Vec::new(),
                    paste: false,
                },
            ),
        }
    }

    /// Replaces the bindings, unless a partial key is retained.
    pub fn reconfigure(&mut self, toggle_mode: &[u8], toggle_menu: &[u8]) -> (result: Result<
        bool,
        InputRouterError,
    >)
        requires
            old(self)@.inv(),
        ensures
            final(self)@.inv(),
            match result {
                Err(error) => binding_error(toggle_mode@, toggle_menu@) == Some(error) && final(self)@
                    == old(self)@,
                Ok(changed) => {
                    &&& binding_error(toggle_mode@, toggle_menu@) is None
                    &&& changed == (old(self)@.pending.len() == 0)
                    &&& final(self)@ == if changed {
                        RouterView { toggle_mode: toggle_mode@, toggle_menu: toggle_menu@, ..old(self)@ }
                    } else {
                        old(self)@
                    }
                },
            },
    {
        proof {
            reveal(RouterView::inv);
        }
        match check_bindings(toggle_mode, toggle_menu) {
            Some(error) => Err(error),
            None => {
                if self.pending.len() != 0 {
                    return Ok(false);
                }
                self.toggle_mode = copy_bytes(toggle_mode);
                self.toggle_menu = copy_bytes(toggle_menu);
                Ok(true)
            },
        }
    }

    /// Whether a bracketed paste is open.
    pub fn is_bracketed_paste(&self) -> (paste: bool)
        ensures
            paste == self@.paste,
    {
        self.paste
    }

    /// Number of retained bytes.
    pub fn pending_len(&self) -> (bytes: usize)
        ensures
            bytes == self@.pending.len(),
    {
        self.pending.len()
    }

    /// Cuts a bounded prefix of the input into keys.
    pub fn route(&mut self, input: &[u8]) -> (batch: RouteBatch)
        requires
            old(self)@.inv(),
        ensures
            final(self)@.inv(),
            ({
                let routing = routed(
                    old(self)@,
                    old(self)@.pending + input@,
                    MAX_ROUTE_BATCH_EVENTS as nat,
                );
                &&& event_views(batch.events@) == routing.events
                &&& batch.events@.len() <= MAX_ROUTE_BATCH_EVENTS
                &&& final(self)@ == (RouterView {
                    pending: if routing.partial {
                        routing.rest
                    } else {
                        Seq::empty()
                    },
                    paste: routing.paste,
                    ..old(self)@
                })
                &&& batch.consumed_bytes == if routing.partial {
                    input@.len() as int
                } else {
                    input@.len() - routing.rest.len()
                }
            }),
    {
        proof {
            reveal(RouterView::inv);
            reveal(routed);
        }
        let held: usize = self.pending.len();
        let mut bytes: Vec<u8> = copy_bytes(self.pending.as_slice());
        append_bytes(&mut bytes, input);
        let ghost all = old(self)@.pending + input@;
        let ghost start = old(self)@;
        let ghost goal = routed(start, all, MAX_ROUTE_BATCH_EVENTS as nat);
        proof {
            law_routing_is_byte_exact(start, all, MAX_ROUTE_BATCH_EVENTS as nat);
            lemma_event_views_empty();
        }
        let mut events: Vec<InputEvent> = Vec::new();
        let mut offset: usize = 0;
        let mut partial: bool = false;
        assert(all.subrange(0, all.len() as int) =~= all);
        while offset < bytes.len() && events.len() < MAX_ROUTE_BATCH_EVENTS && !partial
            invariant
                bytes@ == all,
                0 <= offset <= bytes@.len(),
                events@.len() <= MAX_ROUTE_BATCH_EVENTS,
                self@.inv(),
                self@ == (RouterView { paste: self@.paste, ..start }),
                partial ==> offset < bytes@.len(),
                ({
                    let rest = all.subrange(offset as int, all.len() as int);
                    let room = (MAX_ROUTE_BATCH_EVENTS - events@.len()) as nat;
                    let later = routed(self@, rest, room);
                    &&& goal.events == event_views(events@) + later.events
                    &&& goal.rest == later.rest
                    &&& goal.partial == later.partial
                    &&& goal.paste == later.paste
                    &&& partial ==> room > 0 && self@.scan(rest) is Partial
                }),
            decreases bytes@.len() - offset + (if partial { 0int } else { 1int }),
        {
            let ghost before = events@;
            let ghost state = self@;
            let ghost rest = all.subrange(offset as int, all.len() as int);
            let window: &[u8] = vstd::slice::slice_subrange(bytes.as_slice(), offset, bytes.len());
            proof {
                reveal(RouterView::inv);
                reveal(routed);
                law_keys_are_bounded(self@, rest);
            }
            match self.scan(window) {
                None => {
                    partial = true;
                },
                Some((length, action)) => {
                    let key = copy_bytes(vstd::slice::slice_subrange(window, 0, length));
                    let event = InputEvent {
                        bytes: key,
                        forwarding: forwarding_for(action),
                        action: Some(action),
                    };
                    match action {
                        InputAction::PasteStart => {
                            self.paste = true;
                        },
                        InputAction::PasteEnd => {
                            self.paste = false;
                        },
                        _ => {},
                    }
                    events.push(event);
                    offset = offset + length;
                    proof {
                        assert(self@ =~= state.after_key(action));
                        assert(rest.subrange(length as int, rest.len() as int) =~= all.subrange(
                            offset as int,
                            all.len() as int,
                        ));
                        let room = (MAX_ROUTE_BATCH_EVENTS - before.len()) as nat;
                        let later = routed(
                            self@,
                            all.subrange(offset as int, all.len() as int),
                            (room - 1) as nat,
                        );
                        let first = key_event(rest.subrange(0, length as int), action);
                        assert(event@ =~= first);
                        assert(event_views(before.push(event)) =~= event_views(before).push(first));
                        assert(event_views(before) + (seq![first] + later.events) =~= event_views(
                            before,
                        ).push(first) + later.events);
                    }
                },
            }
        }
        let ghost rest = all.subrange(offset as int, all.len() as int);
        assert(goal.rest =~= rest);
        assert(goal.events =~= event_views(events@));
        if partial {
            self.pending = copy_bytes(
                vstd::slice::slice_subrange(bytes.as_slice(), offset, bytes.len()),
            );
            RouteBatch { consumed_bytes: input.len(), events }
        } else {
            self.pending = Vec::new();
            assert(self@.pending =~= Seq::<u8>::empty());
            proof {
                assert(event_bytes(goal.events).len() + goal.rest.len() == all.len());
                if goal.rest.len() > 0 {
                    assert(goal.events.len() == MAX_ROUTE_BATCH_EVENTS);
                }
            }
            RouteBatch { consumed_bytes: offset - held, events }
        }
    }

    /// Resolves a retained sequence after the caller's timeout: a lone escape
    /// byte is the Escape key.
    pub fn flush_pending(&mut self) -> (batch: RouteBatch)
        requires
            old(self)@.inv(),
        ensures
            final(self)@.inv(),
            final(self)@ == (RouterView { pending: Seq::empty(), ..old(self)@ }),
            batch.consumed_bytes == 0,
            event_views(batch.events@) == flushed(old(self)@),
    {
        proof {
            reveal(RouterView::inv);
        }
        let mut events: Vec<InputEvent> = Vec::new();
        let ghost pending = self.pending@;
        proof {
            lemma_event_views_empty();
        }
        if self.pending.len() > 0 {
            let action: InputAction = if self.paste {
                InputAction::PasteData
            } else if self.pending.len() == 1 && self.pending[0] == 27 {
                InputAction::Escape
            } else {
                InputAction::Desynchronize
            };
            let event = InputEvent {
                bytes: copy_bytes(self.pending.as_slice()),
                forwarding: forwarding_for(action),
                action: Some(action),
            };
            proof {
                if pending.len() == 1 && pending[0] == 27 {
                    assert(pending =~= seq![27u8]);
                } else {
                    assert(seq![27u8].len() == 1 && seq![27u8][0] == 27);
                }
                assert(event@ =~= flushed(old(self)@)[0]);
            }
            events.push(event);
            self.pending = Vec::new();
            assert(event_views(events@) =~= flushed(old(self)@));
        }
        assert(self@.pending =~= Seq::<u8>::empty());
        assert(event_views(events@) =~= flushed(old(self)@));
        RouteBatch { consumed_bytes: 0, events }
    }

    /// Hands out a retained sequence at the end of input.
    pub fn finish(&mut self) -> (batch: RouteBatch)
        requires
            old(self)@.inv(),
        ensures
            final(self)@.inv(),
            final(self)@ == (RouterView { pending: Seq::empty(), ..old(self)@ }),
            batch.consumed_bytes == 0,
            event_views(batch.events@) == flushed(old(self)@),
    {
        self.flush_pending()
    }

    fn scan(&self, bytes: &[u8]) -> (result: Option<(usize, InputAction)>)
        requires
            self@.inv(),
            bytes@.len() > 0,
        ensures
            scan_agrees(result, self@.scan(bytes@)),
    {
        proof {
            reveal(RouterView::inv);
            reveal(RouterView::scan);
        }
        if self.paste {
            return scan_paste_bytes(bytes);
        }
        if starts_with(bytes, self.toggle_mode.as_slice()) {
            return Some((self.toggle_mode.len(), InputAction::ToggleMode));
        }
        if starts_with(bytes, self.toggle_menu.as_slice()) {
            return Some((self.toggle_menu.len(), InputAction::ToggleMenu));
        }
        if starts_with(self.toggle_mode.as_slice(), bytes) || starts_with(
            self.toggle_menu.as_slice(),
            bytes,
        ) {
            return None;
        }
        if bytes[0] == 27 {
            return scan_escape_bytes(bytes);
        }
        if bytes[0] >= 128 {
            return scan_character_bytes(bytes);
        }
        Some((1, ascii_key(bytes[0])))
    }
}

/// Keys that flushing a router yields.
pub open spec fn flushed(router: RouterView) -> Seq<InputEventView> {
    if router.pending.len() == 0 {
        Seq::empty()
    } else {
        seq![
            key_event(
                router.pending,
                if router.paste {
                    InputAction::PasteData
                } else if router.pending == seq![27u8] {
                    InputAction::Escape
                } else {
                    InputAction::Desynchronize
                },
            ),
        ]
    }
}

proof fn lemma_event_views_empty()
    ensures
        event_views(Seq::<InputEvent>::empty()) == Seq::<InputEventView>::empty(),
{
    assert(event_views(Seq::<InputEvent>::empty()) =~= Seq::<InputEventView>::empty());
}

fn scan_paste_bytes(bytes: &[u8]) -> (result: Option<(usize, InputAction)>)
    requires
        bytes@.len() > 0,
    ensures
        scan_agrees(result, scan_paste(bytes@)),
{
    if bytes[0] != 27 {
        let run: usize = find_byte(bytes, 27);
        return Some(
            (
                if run <= MAX_ROUTE_BATCH_EVENT_BYTES {
                    run
                } else {
                    MAX_ROUTE_BATCH_EVENT_BYTES
                },
                InputAction::PasteData,
            ),
        );
    }
    let mut terminator: Vec<u8> = Vec::new();
    terminator.push(27);
    terminator.push(91);
    terminator.push(50);
    terminator.push(48);
    terminator.push(49);
    terminator.push(126);
    assert(terminator@ =~= paste_end());
    if starts_with(bytes, terminator.as_slice()) {
        return Some((6, InputAction::PasteEnd));
    }
    if starts_with(terminator.as_slice(), bytes) {
        return None;
    }
    Some((1, InputAction::PasteData))
}

fn scan_escape_bytes(bytes: &[u8]) -> (result: Option<(usize, InputAction)>)
    requires
        bytes@.len() > 0,
        bytes@[0] == 27,
    ensures
        scan_agrees(result, scan_escape(bytes@)),
{
    if bytes.len() == 1 {
        return None;
    }
    if bytes[1] == 27 {
        return Some((1, InputAction::Escape));
    }
    if bytes[1] == 79 {
        if bytes.len() == 2 {
            return None;
        }
        return Some((3, sequence_key(vstd::slice::slice_subrange(bytes, 2, 3))));
    }
    if bytes[1] != 91 {
        return Some((2, InputAction::Desynchronize));
    }
    let mut last: usize = 2;
    while last < bytes.len() && 32 <= bytes[last] && bytes[last] <= 63
        invariant
            2 <= last <= bytes@.len(),
            sequence_final(bytes@, 2) == sequence_final(bytes@, last as int),
        decreases bytes@.len() - last,
    {
        last = last + 1;
    }
    if last >= bytes.len() {
        if bytes.len() < MAX_SEQUENCE_BYTES {
            return None;
        }
        return Some((bytes.len(), InputAction::Desynchronize));
    }
    if 64 <= bytes[last] && bytes[last] <= 126 {
        Some((last + 1, sequence_key(vstd::slice::slice_subrange(bytes, 2, last + 1))))
    } else {
        Some((last, InputAction::Desynchronize))
    }
}

fn sequence_key(body: &[u8]) -> (action: InputAction)
    ensures
        action == sequence_action(body@),
{
    if body.len() == 1 {
        let byte: u8 = body[0];
        assert(body@ =~= seq![byte]);
        assert(body@ != seq![49u8, 126u8] && body@ != seq![52u8, 126u8] && body@ != seq![51u8, 126u8]
            && body@ != seq![50u8, 48u8, 48u8, 126u8]);
        assert(forall|other: u8| byte != other ==> #[trigger] seq![other][0] != body@[0]);
        match byte {
            65 => InputAction::ArrowUp,
            66 => InputAction::ArrowDown,
            67 => InputAction::ArrowRight,
            68 => InputAction::ArrowLeft,
            72 => InputAction::Home,
            70 => InputAction::End,
            90 => InputAction::ShiftTab,
            _ => {
                assert(seq![65u8][0] == 65 && seq![66u8][0] == 66 && seq![67u8][0] == 67 && seq![68u8][0]
                    == 68 && seq![72u8][0] == 72 && seq![70u8][0] == 70 && seq![90u8][0] == 90);
                InputAction::Desynchronize
            },
        }
    } else if body.len() == 2 && body[1] == 126 {
        let byte: u8 = body[0];
        assert(body@ =~= seq![byte, 126u8]);
        assert(seq![49u8, 126u8][0] == 49 && seq![52u8, 126u8][0] == 52 && seq![51u8, 126u8][0] == 51);
        match byte {
            49 => InputAction::Home,
            52 => InputAction::End,
            51 => InputAction::Delete,
            _ => InputAction::Desynchronize,
        }
    } else if body.len() == 4 && body[0] == 50 && body[1] == 48 && body[2] == 48 && body[3] == 126 {
        assert(body@ =~= seq![50u8, 48u8, 48u8, 126u8]);
        InputAction::PasteStart
    } else {
        assert(body@ != seq![49u8, 126u8] && body@ != seq![52u8, 126u8] && body@ != seq![51u8, 126u8]) by {
            assert(seq![49u8, 126u8][1] == 126 && seq![52u8, 126u8][1] == 126 && seq![51u8, 126u8][1]
                == 126);
        }
        assert(body@ != seq![50u8, 48u8, 48u8, 126u8]) by {
            let start = seq![50u8, 48u8, 48u8, 126u8];
            assert(start[0] == 50 && start[1] == 48 && start[2] == 48 && start[3] == 126);
        }
        InputAction::Desynchronize
    }
}

fn scan_character_bytes(bytes: &[u8]) -> (result: Option<(usize, InputAction)>)
    requires
        bytes@.len() > 0,
    ensures
        scan_agrees(result, scan_character(bytes@)),
{
    let lead: u8 = bytes[0];
    let width: usize = if 194 <= lead && lead <= 223 {
        2
    } else if 224 <= lead && lead <= 239 {
        3
    } else if 240 <= lead && lead <= 244 {
        4
    } else {
        1
    };
    if bytes.len() < width {
        return None;
    }
    if width > 1 {
        if let Some(text) = utf8_str(vstd::slice::slice_subrange(bytes, 0, width)) {
            proof {
                encode_utf8_decode_utf8(text@);
            }
            if !text.is_empty() {
                return Some((width, InputAction::Printable(text.get_char(0))));
            }
        }
    }
    Some((1, InputAction::Desynchronize))
}

fn ascii_key(byte: u8) -> (action: InputAction)
    requires
        byte < 128,
    ensures
        action == ascii_action(byte),
{
    if 32 <= byte && byte <= 126 {
        return InputAction::Printable(byte as char);
    }
    match byte {
        9 => InputAction::Tab,
        13 => InputAction::Enter,
        3 => InputAction::CtrlC,
        8 => InputAction::Backspace,
        127 => InputAction::Backspace,
        1 => InputAction::CtrlA,
        5 => InputAction::CtrlE,
        12 => InputAction::CtrlL,
        21 => InputAction::CtrlU,
        23 => InputAction::CtrlW,
        _ => InputAction::Desynchronize,
    }
}

/// Whether input neither is nor may become a binding.
pub open spec fn apart_from_bindings(router: RouterView, bytes: Seq<u8>) -> bool {
    &&& !(router.toggle_mode.len() <= bytes.len() && bytes.subrange(0, router.toggle_mode.len() as int)
        == router.toggle_mode)
    &&& !(router.toggle_menu.len() <= bytes.len() && bytes.subrange(0, router.toggle_menu.len() as int)
        == router.toggle_menu)
    &&& !(bytes.len() <= router.toggle_mode.len() && router.toggle_mode.subrange(0, bytes.len() as int)
        == bytes)
    &&& !(bytes.len() <= router.toggle_menu.len() && router.toggle_menu.subrange(0, bytes.len() as int)
        == bytes)
}

proof fn lemma_encoded_width(c: char)
    requires
        c as u32 >= 128,
    ensures
        encode_utf8(seq![c]).len() > 1,
        announced_width(encode_utf8(seq![c])[0]) == encode_utf8(seq![c]).len(),
        encode_utf8(seq![c])[0] >= 128,
{
    let v = c as u32;
    assert(seq![c].drop_first() =~= Seq::<char>::empty());
    assert(encode_utf8(seq![c].drop_first()) =~= Seq::<u8>::empty());
    assert(seq![c][0] == c);
    assert(encode_utf8(seq![c]) =~= encode_scalar(v));
    if v <= 0x7FF {
        assert(0x80 <= v <= 0x7FF ==> 194 <= (0xC0u8 | ((v >> 6) & 0x1F) as u8) <= 223) by (bit_vector);
    } else if v <= 0xFFFF {
        assert(0x800 <= v <= 0xFFFF ==> 224 <= (0xE0u8 | ((v >> 12) & 0x0F) as u8) <= 239)
            by (bit_vector);
    } else {
        assert(0x10000 <= v <= 0x10FFFF ==> 240 <= (0xF0u8 | ((v >> 18) & 0x07) as u8) <= 244)
            by (bit_vector);
    }
}

/// A typed character, whatever its encoding, is one key that inserts it.
pub proof fn law_typed_characters_insert_themselves(router: RouterView, c: char, rest: Seq<u8>)
    requires
        !router.paste,
        c as u32 >= 32,
        c as u32 != 127,
        apart_from_bindings(router, encode_utf8(seq![c]) + rest),
    ensures
        router.scan(encode_utf8(seq![c]) + rest) == (Scan::Key {
            length: encode_utf8(seq![c]).len() as int,
            action: InputAction::Printable(c),
        }),
{
    reveal(RouterView::scan);
    let bytes = encode_utf8(seq![c]) + rest;
    let width = encode_utf8(seq![c]).len() as int;
    assert(bytes.subrange(0, width) =~= encode_utf8(seq![c]));
    encode_utf8_valid_utf8(seq![c]);
    encode_utf8_decode_utf8(seq![c]);
    let v = c as u32;
    if v < 128 {
        assert(v < 128 ==> (v & 0x7F) as u8 as u32 == v) by (bit_vector);
        assert(seq![c].drop_first() =~= Seq::<char>::empty());
        assert(encode_utf8(seq![c].drop_first()) =~= Seq::<u8>::empty());
        assert(seq![c][0] == c);
        assert(encode_utf8(seq![c]) =~= encode_scalar(v));
        assert(encode_utf8(seq![c]) =~= seq![v as u8]);
        assert(bytes[0] == v as u8);
        assert(bytes[0] as char == c);
    } else {
        lemma_encoded_width(c);
        assert(bytes[0] == encode_utf8(seq![c])[0]);
        assert(bytes[0] != 27);
    }
}

/// The keys that a session may handle, and those that end a line, by their bytes:
/// terminals send arrows in either of two forms.
pub proof fn law_special_keys_have_their_bytes(router: RouterView, form: u8, last: u8, rest: Seq<u8>)
    requires
        !router.paste,
        form == 79 || form == 91,
    ensures
        apart_from_bindings(router, seq![9u8] + rest) ==> router.scan(seq![9u8] + rest) == (Scan::Key {
            length: 1,
            action: InputAction::Tab,
        }),
        apart_from_bindings(router, seq![13u8] + rest) ==> router.scan(seq![13u8] + rest) == (Scan::Key {
            length: 1,
            action: InputAction::Enter,
        }),
        apart_from_bindings(router, seq![3u8] + rest) ==> router.scan(seq![3u8] + rest) == (Scan::Key {
            length: 1,
            action: InputAction::CtrlC,
        }),
        apart_from_bindings(router, seq![27u8, form, last] + rest) ==> {
            let scan = router.scan(seq![27u8, form, last] + rest);
            &&& last == 65 ==> scan == (Scan::Key { length: 3, action: InputAction::ArrowUp })
            &&& last == 66 ==> scan == (Scan::Key { length: 3, action: InputAction::ArrowDown })
            &&& last == 67 ==> scan == (Scan::Key { length: 3, action: InputAction::ArrowRight })
            &&& last == 68 ==> scan == (Scan::Key { length: 3, action: InputAction::ArrowLeft })
        },
{
    reveal(RouterView::scan);
    assert((seq![9u8] + rest)[0] == 9);
    assert((seq![13u8] + rest)[0] == 13);
    assert((seq![3u8] + rest)[0] == 3);
    let bytes = seq![27u8, form, last] + rest;
    assert(bytes[0] == 27 && bytes[1] == form && bytes[2] == last);
    assert(bytes.subrange(2, 3) =~= seq![last]);
    if last == 65 || last == 66 || last == 67 || last == 68 {
        assert(sequence_final(bytes, 2) == 2);
        assert(seq![65u8][0] == 65 && seq![66u8][0] == 66 && seq![67u8][0] == 67);
    }
}

/// A binding is a key of its own, whatever its bytes mean otherwise; nothing is
/// bound inside a paste.
pub proof fn law_bindings_are_keys(router: RouterView, rest: Seq<u8>)
    requires
        router.inv(),
        !router.paste,
    ensures
        router.scan(router.toggle_mode + rest) == (Scan::Key {
            length: router.toggle_mode.len() as int,
            action: InputAction::ToggleMode,
        }),
        router.scan(router.toggle_menu + rest) == (Scan::Key {
            length: router.toggle_menu.len() as int,
            action: InputAction::ToggleMenu,
        }),
{
    reveal(RouterView::inv);
    reveal(RouterView::scan);
    let mode = router.toggle_mode + rest;
    let menu = router.toggle_menu + rest;
    assert(mode.subrange(0, router.toggle_mode.len() as int) =~= router.toggle_mode);
    assert(menu.subrange(0, router.toggle_menu.len() as int) =~= router.toggle_menu);
    if has_prefix(menu, router.toggle_mode) {
        if router.toggle_mode.len() <= router.toggle_menu.len() {
            assert(router.toggle_menu.subrange(0, router.toggle_mode.len() as int)
                =~= router.toggle_mode);
        } else {
            assert(router.toggle_mode.subrange(0, router.toggle_menu.len() as int) =~= menu.subrange(
                0,
                router.toggle_mode.len() as int,
            ).subrange(0, router.toggle_menu.len() as int));
            assert(router.toggle_mode.subrange(0, router.toggle_menu.len() as int)
                =~= router.toggle_menu);
        }
    }
}

/// Inside a paste every byte up to its end bracket is data, and the bracket ends
/// it; outside one the opening bracket begins it.
pub proof fn law_pasted_bytes_are_data(router: RouterView, bytes: Seq<u8>, rest: Seq<u8>)
    requires
        bytes.len() > 0,
    ensures
        router.paste && bytes[0] != 27 ==> {
            &&& router.scan(bytes) matches Scan::Key { length, action }
            &&& action is PasteData
            &&& length >= 1
            &&& forall|i: int| 0 <= i < length ==> #[trigger] bytes[i] != 27
        },
        router.paste ==> router.scan(seq![27u8, 91, 50, 48, 49, 126] + rest) == (Scan::Key {
            length: 6,
            action: InputAction::PasteEnd,
        }),
        router.paste && router.scan(bytes) is Key ==> router.scan(bytes)->action is PasteData
            || router.scan(bytes)->action is PasteEnd,
        router.after_key(InputAction::PasteStart).paste,
        !router.after_key(InputAction::PasteEnd).paste,
        router.after_key(InputAction::PasteData).paste == router.paste,
{
    reveal(RouterView::scan);
    lemma_first_index_bounds(bytes, 27);
    lemma_no_byte_before_the_first(bytes, 27);
    let closing = seq![27u8, 91, 50, 48, 49, 126] + rest;
    assert(closing[0] == 27);
    assert(closing.subrange(0, 6) =~= seq![27u8, 91, 50, 48, 49, 126]);
}

proof fn lemma_no_byte_before_the_first(bytes: Seq<u8>, byte: u8)
    ensures
        forall|i: int| 0 <= i < first_index(bytes, byte) ==> #[trigger] bytes[i] != byte,
    decreases bytes.len(),
{
    lemma_first_index_bounds(bytes, byte);
    if bytes.len() > 0 && bytes[0] != byte {
        let rest = bytes.drop_first();
        lemma_first_index_bounds(rest, byte);
        lemma_no_byte_before_the_first(rest, byte);
        assert forall|i: int| 0 <= i < first_index(bytes, byte) implies #[trigger] bytes[i] != byte by {
            if i > 0 {
                assert(rest[i - 1] == bytes[i]);
            }
        }
    }
}

/// Only the keys that a session may handle wait for it; every other key goes to
/// the shell at once. What is left over when input pauses goes there as well, and
/// a lone escape byte is then the Escape key.
pub proof fn law_keys_wait_only_to_be_handled(router: RouterView, action: InputAction)
    ensures
        forwarding_of(action) is OnFallback <==> action is Tab || action is ArrowUp || action
            is ArrowDown || action is ArrowRight || action is ToggleMode || action is ToggleMenu,
        router.pending.len() == 0 ==> flushed(router).len() == 0,
        router.pending.len() > 0 ==> flushed(router).len() == 1 && flushed(router)[0].bytes
            == router.pending && flushed(router)[0].forwarding is Immediate,
        router.pending == seq![27u8] && !router.paste ==> flushed(router)[0].action == Some(
            InputAction::Escape,
        ),
{
}

} // verus!
