//! Bounded orchestration of optional AI completion.
//!
//! The dispatcher and its scheduler decide which work has authority; filesystem,
//! process, prompt and network work belongs to the caller and never runs on the
//! terminal-input path. Provider text leaves this module only as an inert
//! [`ProviderBatch`].
//!
//! Moments are in nanoseconds of the caller's monotonic clock.

use vstd::prelude::*;
use vstd::string::*;
use vstd::utf8::*;

use crate::ai_context::AiContextLevel;
use crate::completion::{CompletionQuery, ProviderBatch, QueryView, Suggestion};
use crate::coordinator::QueryWork;
use crate::paths::{is_same_path, same_path};
use crate::sorted::{first_items, texts_of};
use crate::text::{
    append_number, bool_chars, bool_text, copy_bytes, decimal_chars, text_equal, text_len,
};
use crate::updater::optional_text;
use crate::words::{blank, is_blank};

verus! {

/// Provider identity under which AI batches are sent.
pub const AI_COMPLETION_PROVIDER: &'static str = "ai";

/// Provider identities to register with the coordinator.
pub const AI_COMPLETION_PROVIDERS: [&'static str; 1] = ["ai"];

/// Maximum AI provider batches returned by one nonblocking drain.
pub const MAX_AI_DRAIN_BATCHES: usize = 8;

/// Maximum recent completed commands retained for workspace prompts.
pub const MAX_AI_RECENT_COMMANDS: usize = 8;

/// Maximum bytes of a completed command in a prompt.
pub const MAX_RECENT_COMMAND_BYTES: usize = 1024;

/// Most events that wait for the scheduler.
pub const EVENT_QUEUE_CAPACITY: usize = 128;

/// Most batches that wait to be drained.
pub const OUTPUT_QUEUE_CAPACITY: usize = 16;

/// Most requests under way.
pub const MAX_REQUEST_WORKERS: usize = 4;

/// How long gathered context is used again.
pub const CONTEXT_CACHE_TTL: u128 = 4_000_000_000;

/// Identity of a shell session.
#[derive(Clone, Copy, Debug, PartialEq, Eq, Structural)]
pub struct SessionId {
    /// The number that tells sessions apart.
    pub value: u64,
}

impl SessionId {
    /// Session of this number.
    pub fn new(value: u64) -> (session: Self)
        ensures
            session.value == value,
    {
        SessionId { value }
    }
}

/// AI settings as a value.
#[verifier::ext_equal]
pub struct AiSettingsView {
    pub enabled: bool,
    pub ready: bool,
    pub provider: Option<Seq<char>>,
    pub context_level: AiContextLevel,
    pub revision: u64,
}

/// AI settings that the scheduler reads.
pub struct AiSettings {
    /// Whether AI completion is wanted.
    pub enabled: bool,
    /// Whether the selected provider is configured completely.
    pub ready: bool,
    /// Name of the selected provider.
    pub provider: Option<String>,
    /// How much a prompt may say.
    pub context_level: AiContextLevel,
    /// Number that changes with any other AI setting.
    pub revision: u64,
}

impl View for AiSettings {
    type V = AiSettingsView;

    open spec fn view(&self) -> AiSettingsView {
        AiSettingsView {
            enabled: self.enabled,
            ready: self.ready,
            provider: optional_text(self.provider),
            context_level: self.context_level,
            revision: self.revision,
        }
    }
}

fn same_optional_text(a: &Option<String>, b: &Option<String>) -> (same: bool)
    ensures
        same == (optional_text(*a) == optional_text(*b)),
{
    match (a, b) {
        (Some(x), Some(y)) => text_equal(x.as_str(), y.as_str()),
        (None, None) => true,
        _ => false,
    }
}

fn copy_optional_text(text: &Option<String>) -> (copy: Option<String>)
    ensures
        optional_text(copy) == optional_text(*text),
{
    match text {
        Some(text) => Some(text.clone()),
        None => None,
    }
}

impl Clone for AiSettings {
    fn clone(&self) -> (copy: Self)
        ensures
            copy@ == self@,
    {
        AiSettings {
            enabled: self.enabled,
            ready: self.ready,
            provider: copy_optional_text(&self.provider),
            context_level: self.context_level,
            revision: self.revision,
        }
    }
}

impl AiSettings {
    /// Whether two settings agree.
    pub fn same_as(&self, other: &AiSettings) -> (same: bool)
        ensures
            same == (self@ == other@),
    {
        let same: bool = self.enabled == other.enabled && self.ready == other.ready && self.context_level
            == other.context_level && self.revision == other.revision && same_optional_text(
            &self.provider,
            &other.provider,
        );
        proof {
            if same {
                assert(self@ =~= other@);
            }
        }
        same
    }

    /// Whether requests may be made: they are wanted, the provider is
    /// configured, and its timing was accepted.
    pub fn requests_allowed(&self, timing_accepted: bool) -> (allowed: bool)
        ensures
            allowed == (timing_accepted && self@.enabled && self@.ready),
    {
        timing_accepted && self.enabled && self.ready
    }
}

/// Startup inputs as a value.
#[verifier::ext_equal]
pub struct AiOptionsView {
    pub shell: Seq<char>,
    pub operating_system: Seq<char>,
    pub settings: AiSettingsView,
    pub shared_settings: bool,
    pub session: u64,
}

/// Immutable startup inputs for one session-local AI scheduler.
pub struct AiCompletionOptions {
    shell: String,
    operating_system: String,
    settings: AiSettings,
    shared_settings: bool,
    session: SessionId,
}

impl View for AiCompletionOptions {
    type V = AiOptionsView;

    closed spec fn view(&self) -> AiOptionsView {
        AiOptionsView {
            shell: self.shell@,
            operating_system: self.operating_system@,
            settings: self.settings@,
            shared_settings: self.shared_settings,
            session: self.session.value,
        }
    }
}

impl AiCompletionOptions {
    /// Creates options with fixed settings and privacy-safe platform metadata.
    pub fn new(shell: String, operating_system: String, settings: AiSettings) -> (options: Self)
        ensures
            options@ == (AiOptionsView {
                shell: shell@,
                operating_system: operating_system@,
                settings: settings@,
                shared_settings: false,
                session: 1,
            }),
    {
        AiCompletionOptions {
            shell,
            operating_system,
            settings,
            shared_settings: false,
            session: SessionId::new(1),
        }
    }

    /// Reads atomically published configuration generations for live AI changes.
    pub fn with_shared_settings(self) -> (options: Self)
        ensures
            options@ == (AiOptionsView { shared_settings: true, ..self@ }),
    {
        AiCompletionOptions { shared_settings: true, ..self }
    }

    /// Supplies the caller-owned shell session identity.
    pub fn with_session_id(self, session: SessionId) -> (options: Self)
        ensures
            options@ == (AiOptionsView { session: session.value, ..self@ }),
    {
        AiCompletionOptions { session, ..self }
    }

    /// Settings in force and their generation: those that are published, where
    /// they are read.
    pub fn settings_snapshot(&self, published: Option<(u64, AiSettings)>) -> (snapshot: (u64, AiSettings))
        ensures
            match published {
                Some((generation, settings)) => if self@.shared_settings {
                    snapshot.0 == generation && snapshot.1@ == settings@
                } else {
                    snapshot.0 == 0 && snapshot.1@ == self@.settings
                },
                None => snapshot.0 == 0 && snapshot.1@ == self@.settings,
            },
    {
        match published {
            Some((generation, settings)) => if self.shared_settings {
                (generation, settings)
            } else {
                (0, self.settings.clone())
            },
            None => (0, self.settings.clone()),
        }
    }

    /// Name of the shell.
    pub fn shell(&self) -> (shell: &str)
        ensures
            shell@ == self@.shell,
    {
        self.shell.as_str()
    }

    /// Name of the platform.
    pub fn operating_system(&self) -> (operating_system: &str)
        ensures
            operating_system@ == self@.operating_system,
    {
        self.operating_system.as_str()
    }

    /// Shell session.
    pub fn session(&self) -> (session: SessionId)
        ensures
            session.value == self@.session,
    {
        self.session
    }

    /// Diagnostic summary, which shows sizes and no configuration.
    pub fn debug_text(&self) -> (summary: String)
        ensures
            summary@ == "AiCompletionOptions { shell_bytes: "@ + decimal_chars(
                encode_utf8(self@.shell).len(),
            ) + ", operating_system_bytes: "@ + decimal_chars(
                encode_utf8(self@.operating_system).len(),
            ) + ", has_shared_settings: "@ + bool_chars(self@.shared_settings)
                + ", session: SessionId("@ + decimal_chars(self@.session as nat) + "), .. }"@,
    {
        let mut summary = "AiCompletionOptions { shell_bytes: ".to_owned();
        append_number(&mut summary, text_len(self.shell.as_str()) as u128);
        summary.append(", operating_system_bytes: ");
        append_number(&mut summary, text_len(self.operating_system.as_str()) as u128);
        summary.append(", has_shared_settings: ");
        summary.append(bool_text(self.shared_settings));
        summary.append(", session: SessionId(");
        append_number(&mut summary, self.session.value as u128);
        summary.append("), .. }");
        summary
    }
}

/// Finds the selected provider among the names of the configured ones.
pub fn selected_provider(configured: &Vec<String>, selected: &str) -> (result: Result<
    usize,
    &'static str,
>)
    ensures
        match result {
            Ok(at) => {
                &&& at < configured@.len()
                &&& configured@[at as int]@ == selected@
                &&& forall|i: int| 0 <= i < at ==> (#[trigger] configured@[i])@ != selected@
            },
            Err(message) => {
                &&& message@ == "selected AI provider is not configured"@
                &&& forall|i: int|
                    0 <= i < configured@.len() ==> (#[trigger] configured@[i])@ != selected@
            },
        },
{
    let mut at: usize = 0;
    while at < configured.len()
        invariant
            at <= configured@.len(),
            forall|i: int| 0 <= i < at ==> (#[trigger] configured@[i])@ != selected@,
        decreases configured@.len() - at,
    {
        if text_equal(configured[at].as_str(), selected) {
            return Ok(at);
        }
        at = at + 1;
    }
    Err("selected AI provider is not configured")
}

/// Disposition of one nonblocking AI query submission.
#[derive(Clone, Copy, Debug, PartialEq, Eq, Structural)]
pub enum AiQueryAdmission {
    /// The immutable query was queued for asynchronous scheduling.
    Queued,
    /// The query had already lost coordinator authority.
    Cancelled,
    /// The bounded scheduler queue was full; local completion remains usable.
    Full,
    /// The scheduler is shutting down or has exited.
    Closed,
}

/// Disposition of one completed-command notification.
#[derive(Clone, Copy, Debug, PartialEq, Eq, Structural)]
pub enum AiCommandAdmission {
    /// The command was queued for bounded workspace context.
    Queued,
    /// Blank or oversized text was intentionally not retained.
    Ignored,
    /// The bounded scheduler queue was full.
    Full,
    /// The scheduler is shutting down or has exited.
    Closed,
}

/// Non-sensitive AI scheduler health and activity counters.
#[derive(Clone, Copy, Debug, PartialEq, Eq, Structural)]
pub struct AiDispatcherStatus {
    /// Whether the scheduler thread has not exited.
    pub alive: bool,
    /// Number of events currently retained by the bounded input queue.
    pub queued_events: usize,
    /// Most recently submitted coordinator generation.
    pub latest_generation: u64,
    /// Number of provider calls started since this dispatcher was created.
    pub requests_started: u64,
    /// Number of results discarded after losing authority.
    pub stale_results: u64,
    /// Number of request workers still inside their bounded transport call.
    pub active_requests: usize,
}

/// Why a request lost its authority.
#[derive(Clone, Copy, Debug, PartialEq, Eq, Structural)]
pub enum CancellationReason {
    /// The buffer was edited.
    BufferChanged,
    /// The cursor left the end of the buffer.
    CursorMovedAwayFromEnd,
    /// The completion mode was changed.
    ModeChanged,
    /// The menu was used.
    MenuNavigation,
    /// A command was executed.
    CommandExecution,
    /// The session ended.
    SessionExit,
    /// AI completion was switched off.
    Disabled,
    /// Another provider was selected.
    ProviderChanged,
    /// Another session began.
    SessionChanged,
}

/// What a cancellation does to the request lifecycle.
#[derive(Clone, Copy, Debug, PartialEq, Eq, Structural)]
pub enum LifecycleStep {
    /// Note that the mode was changed.
    ModeChanged,
    /// Note that the menu was used.
    MenuNavigated,
    /// Note that a command was executed.
    CommandExecuted,
    /// End the session.
    EndSession,
    /// Switch requests off.
    Disable,
    /// Note that the provider was changed.
    ProviderChanged,
    /// Begin a session of this number.
    StartSession(u64),
    /// Observe an empty buffer.
    ObserveNothing,
}

/// What a cancellation does to the request lifecycle.
pub open spec fn cancellation_step(reason: CancellationReason) -> LifecycleStep {
    match reason {
        CancellationReason::ModeChanged => LifecycleStep::ModeChanged,
        CancellationReason::MenuNavigation => LifecycleStep::MenuNavigated,
        CancellationReason::CommandExecution => LifecycleStep::CommandExecuted,
        CancellationReason::SessionExit => LifecycleStep::EndSession,
        CancellationReason::Disabled => LifecycleStep::Disable,
        CancellationReason::ProviderChanged => LifecycleStep::ProviderChanged,
        CancellationReason::SessionChanged => LifecycleStep::StartSession(u64::MAX),
        CancellationReason::BufferChanged => LifecycleStep::ObserveNothing,
        CancellationReason::CursorMovedAwayFromEnd => LifecycleStep::ObserveNothing,
    }
}

/// What a cancellation does to the request lifecycle.
pub fn apply_cancellation(reason: CancellationReason) -> (step: LifecycleStep)
    ensures
        step == cancellation_step(reason),
{
    match reason {
        CancellationReason::ModeChanged => LifecycleStep::ModeChanged,
        CancellationReason::MenuNavigation => LifecycleStep::MenuNavigated,
        CancellationReason::CommandExecution => LifecycleStep::CommandExecuted,
        CancellationReason::SessionExit => LifecycleStep::EndSession,
        CancellationReason::Disabled => LifecycleStep::Disable,
        CancellationReason::ProviderChanged => LifecycleStep::ProviderChanged,
        CancellationReason::SessionChanged => LifecycleStep::StartSession(u64::MAX),
        CancellationReason::BufferChanged | CancellationReason::CursorMovedAwayFromEnd => {
            LifecycleStep::ObserveNothing
        },
    }
}

/// An event for the scheduler, as a value.
pub enum EventView {
    Query { query: QueryView, authority: u64 },
    Cancel { reason: CancellationReason, authority: u64 },
    SettingsChanged { authority: u64 },
    CommandExecuted { command: Seq<char>, authority: u64 },
}

/// An event for the scheduler.
pub enum RuntimeEvent {
    /// A query was asked.
    Query {
        /// The query.
        work: QueryWork,
        /// Authority under which it was asked.
        authority: u64,
    },
    /// What is under way was cancelled.
    Cancel {
        /// Why.
        reason: CancellationReason,
        /// Authority since then.
        authority: u64,
    },
    /// Settings were published.
    SettingsChanged {
        /// Authority since then.
        authority: u64,
    },
    /// A command was executed.
    CommandExecuted {
        /// The command.
        command: String,
        /// Authority since then.
        authority: u64,
    },
}

impl View for RuntimeEvent {
    type V = EventView;

    open spec fn view(&self) -> EventView {
        match *self {
            RuntimeEvent::Query { work, authority } => EventView::Query { query: work@, authority },
            RuntimeEvent::Cancel { reason, authority } => EventView::Cancel { reason, authority },
            RuntimeEvent::SettingsChanged { authority } => EventView::SettingsChanged { authority },
            RuntimeEvent::CommandExecuted { command, authority } => EventView::CommandExecuted {
                command: command@,
                authority,
            },
        }
    }
}

/// Events as values.
pub open spec fn event_views(events: Seq<RuntimeEvent>) -> Seq<EventView> {
    Seq::new(events.len(), |i: int| events[i]@)
}

/// A batch as a value.
#[verifier::ext_equal]
pub struct AiBatchView {
    pub provider: Seq<char>,
    pub generation: u64,
    pub suggestions: Seq<Suggestion>,
    pub error: Option<Seq<char>>,
}

/// A batch as a value.
pub open spec fn ai_batch_view(batch: ProviderBatch) -> AiBatchView {
    AiBatchView {
        provider: batch.provider@,
        generation: batch.generation,
        suggestions: batch.suggestions@,
        error: optional_text(batch.error),
    }
}

/// Batches as values.
pub open spec fn ai_batch_views(batches: Seq<ProviderBatch>) -> Seq<AiBatchView> {
    Seq::new(batches.len(), |i: int| ai_batch_view(batches[i]))
}

/// A batch with one suggestion.
pub open spec fn suggested(generation: u64, suggestion: Suggestion) -> AiBatchView {
    AiBatchView {
        provider: AI_COMPLETION_PROVIDER@,
        generation,
        suggestions: seq![suggestion],
        error: None,
    }
}

/// A batch that reports a failure.
pub open spec fn reported(generation: u64, error: Seq<char>) -> AiBatchView {
    AiBatchView {
        provider: AI_COMPLETION_PROVIDER@,
        generation,
        suggestions: Seq::empty(),
        error: Some(error),
    }
}

/// A batch and the authority under which it was made.
pub struct AuthorizedBatch {
    authority: u64,
    batch: ProviderBatch,
}

impl View for AuthorizedBatch {
    type V = (u64, AiBatchView);

    closed spec fn view(&self) -> (u64, AiBatchView) {
        (self.authority, ai_batch_view(self.batch))
    }
}

/// Batches with their authority, as values.
pub open spec fn authorized_views(batches: Seq<AuthorizedBatch>) -> Seq<(u64, AiBatchView)> {
    Seq::new(batches.len(), |i: int| batches[i]@)
}

/// Batches that a drain hands out, and those that stay: batches without
/// authority are dropped on the way.
pub open spec fn drained(
    queue: Seq<(u64, AiBatchView)>,
    authority: u64,
    generation: u64,
    limit: nat,
) -> (Seq<AiBatchView>, Seq<(u64, AiBatchView)>)
    decreases queue.len(),
{
    if limit == 0 || queue.len() == 0 {
        (Seq::empty(), queue)
    } else if queue[0].0 == authority && queue[0].1.generation == generation {
        let (taken, rest) = drained(queue.drop_first(), authority, generation, (limit - 1) as nat);
        (seq![queue[0].1] + taken, rest)
    } else {
        drained(queue.drop_first(), authority, generation, limit)
    }
}

/// Dispatcher state as a value.
#[verifier::ext_equal]
pub struct AiDispatcherView {
    pub events: Seq<EventView>,
    pub pending: Option<(AiSettingsView, u64)>,
    pub output: Seq<(u64, AiBatchView)>,
    pub authority: u64,
    pub latest_generation: u64,
    pub requests_started: u64,
    pub stale_results: u64,
    pub active_requests: usize,
    pub alive: bool,
}

impl AiDispatcherView {
    /// Bounded queues.
    pub open spec fn inv(self) -> bool {
        &&& self.events.len() <= EVENT_QUEUE_CAPACITY
        &&& self.output.len() <= OUTPUT_QUEUE_CAPACITY
        &&& self.active_requests <= MAX_REQUEST_WORKERS
    }

    /// State before any event.
    pub open spec fn fresh() -> Self {
        AiDispatcherView {
            events: Seq::empty(),
            pending: None,
            output: Seq::empty(),
            authority: 0,
            latest_generation: 0,
            requests_started: 0,
            stale_results: 0,
            active_requests: 0,
            alive: true,
        }
    }

    /// Whether no further authority can be given.
    pub open spec fn exhausted(self) -> bool {
        self.authority == u64::MAX
    }

    /// Everything authorized before is void.
    pub open spec fn revoked(self) -> Self {
        AiDispatcherView { authority: (self.authority + 1) as u64, ..self }
    }

    /// Whether one more event can wait.
    pub open spec fn accepts(self) -> bool {
        self.alive && self.events.len() < EVENT_QUEUE_CAPACITY
    }

    /// One more event waits, where it can.
    pub open spec fn sent(self, event: EventView) -> Self {
        if self.accepts() {
            AiDispatcherView { events: self.events.push(event), ..self }
        } else {
            self
        }
    }

    /// Everything authorized before is void, for this reason.
    pub open spec fn cancelled(self, reason: CancellationReason) -> Self {
        if self.exhausted() {
            self
        } else {
            let revoked = self.revoked();
            revoked.sent(EventView::Cancel { reason, authority: revoked.authority })
        }
    }

    /// A batch is handed over, unless it has lost its authority.
    pub open spec fn emitted(self, authority: u64, batch: AiBatchView) -> Self {
        if authority != self.authority || batch.generation != self.latest_generation {
            AiDispatcherView { stale_results: self.stale_results.wrapping_add(1), ..self }
        } else {
            let kept = if self.output.len() == OUTPUT_QUEUE_CAPACITY {
                self.output.drop_first()
            } else {
                self.output
            };
            AiDispatcherView { output: kept.push((authority, batch)), ..self }
        }
    }
}

/// Whether an event could be queued.
#[derive(Clone, Copy, Debug, PartialEq, Eq, Structural)]
enum SendDisposition {
    Queued,
    Full,
    Closed,
}

struct PendingReconfiguration {
    settings: AiSettings,
    authority: u64,
}

/// Session-local asynchronous AI completion dispatcher.
pub struct AiCompletionDispatcher {
    events: Vec<RuntimeEvent>,
    pending_reconfiguration: Option<PendingReconfiguration>,
    output: Vec<AuthorizedBatch>,
    authority: u64,
    latest_generation: u64,
    requests_started: u64,
    stale_results: u64,
    active_requests: usize,
    alive: bool,
}

impl View for AiCompletionDispatcher {
    type V = AiDispatcherView;

    closed spec fn view(&self) -> AiDispatcherView {
        AiDispatcherView {
            events: event_views(self.events@),
            pending: match self.pending_reconfiguration {
                Some(pending) => Some((pending.settings@, pending.authority)),
                None => None,
            },
            output: authorized_views(self.output@),
            authority: self.authority,
            latest_generation: self.latest_generation,
            requests_started: self.requests_started,
            stale_results: self.stale_results,
            active_requests: self.active_requests,
            alive: self.alive,
        }
    }
}

impl AiDispatcherStatus {
    /// Diagnostic summary of whoever has this status.
    pub open spec fn debug_chars(self) -> Seq<char> {
            "AiCompletionDispatcher { status: AiDispatcherStatus { alive: "@ + bool_chars(self.alive) + ", queued_events: "@ + decimal_chars(self.queued_events as nat) + ", latest_generation: "@ + decimal_chars(self.latest_generation as nat) + ", requests_started: "@ + decimal_chars(self.requests_started as nat) + ", stale_results: "@ + decimal_chars(self.stale_results as nat) + ", active_requests: "@ + decimal_chars(self.active_requests as nat) + " }, .. }"@
    }

    fn owner_text(&self) -> (summary: String)
        ensures
            summary@ == self.debug_chars(),
    {
        let mut summary = "AiCompletionDispatcher { status: AiDispatcherStatus { alive: ".to_owned();
        summary.append(bool_text(self.alive));
        summary.append(", queued_events: ");
        append_number(&mut summary, self.queued_events as u128);
        summary.append(", latest_generation: ");
        append_number(&mut summary, self.latest_generation as u128);
        summary.append(", requests_started: ");
        append_number(&mut summary, self.requests_started as u128);
        summary.append(", stale_results: ");
        append_number(&mut summary, self.stale_results as u128);
        summary.append(", active_requests: ");
        append_number(&mut summary, self.active_requests as u128);
        summary.append(" }, .. }");
        summary
    }
}

impl AiCompletionDispatcher {
    /// Prepares the queues for one scheduler. No request is started.
    pub fn spawn() -> (dispatcher: Self)
        ensures
            dispatcher@ == AiDispatcherView::fresh(),
            dispatcher@.inv(),
    {
        let dispatcher = AiCompletionDispatcher {
            events: Vec::new(),
            pending_reconfiguration: None,
            output: Vec::new(),
            authority: 0,
            latest_generation: 0,
            requests_started: 0,
            stale_results: 0,
            active_requests: 0,
            alive: true,
        };
        assert(dispatcher@ =~= AiDispatcherView::fresh());
        dispatcher
    }

    fn advance_authority(&mut self) -> (authority: Option<u64>)
        requires
            old(self)@.inv(),
        ensures
            final(self)@.inv(),
            match authority {
                Some(authority) => !old(self)@.exhausted() && final(self)@ == old(self)@.revoked()
                    && authority == final(self)@.authority,
                None => old(self)@.exhausted() && final(self)@ == old(self)@,
            },
    {
        match self.authority.checked_add(1) {
            Some(authority) => {
                self.authority = authority;
                Some(authority)
            },
            None => None,
        }
    }

    fn send_event(&mut self, event: RuntimeEvent) -> (disposition: SendDisposition)
        requires
            old(self)@.inv(),
        ensures
            final(self)@.inv(),
            final(self)@ == old(self)@.sent(event@),
            disposition == if !old(self)@.alive {
                SendDisposition::Closed
            } else if old(self)@.accepts() {
                SendDisposition::Queued
            } else {
                SendDisposition::Full
            },
    {
        if !self.alive {
            return SendDisposition::Closed;
        }
        if self.events.len() >= EVENT_QUEUE_CAPACITY {
            return SendDisposition::Full;
        }
        let ghost before = self.events@;
        self.events.push(event);
        assert(event_views(self.events@) =~= event_views(before).push(event@));
        SendDisposition::Queued
    }

    /// Queues one immutable coordinator query without waiting for AI work.
    /// `cancelled` says whether the query is no longer wanted.
    pub fn submit_query(&mut self, work: QueryWork, cancelled: bool) -> (admission: AiQueryAdmission)
        requires
            old(self)@.inv(),
        ensures
            final(self)@.inv(),
            ({
                let before = old(self)@;
                if cancelled {
                    admission is Cancelled && final(self)@ == before
                } else if !before.alive || before.exhausted() {
                    admission is Closed && final(self)@ == before
                } else {
                    let noted = AiDispatcherView {
                        latest_generation: work@.generation,
                        ..before.revoked()
                    };
                    &&& final(self)@ == noted.sent(
                        EventView::Query { query: work@, authority: noted.authority },
                    )
                    &&& admission == if before.accepts() {
                        AiQueryAdmission::Queued
                    } else {
                        AiQueryAdmission::Full
                    }
                }
            }),
    {
        if cancelled {
            return AiQueryAdmission::Cancelled;
        }
        if !self.alive {
            return AiQueryAdmission::Closed;
        }
        match self.advance_authority() {
            None => AiQueryAdmission::Closed,
            Some(authority) => {
                self.latest_generation = work.query().generation;
                match self.send_event(RuntimeEvent::Query { work, authority }) {
                    SendDisposition::Queued => AiQueryAdmission::Queued,
                    SendDisposition::Full => AiQueryAdmission::Full,
                    SendDisposition::Closed => AiQueryAdmission::Closed,
                }
            },
        }
    }

    /// Revokes pending and in-flight AI authority without waiting.
    pub fn cancel(&mut self, reason: CancellationReason)
        requires
            old(self)@.inv(),
        ensures
            final(self)@.inv(),
            final(self)@ == old(self)@.cancelled(reason),
    {
        if let Some(authority) = self.advance_authority() {
            let _sent = self.send_event(RuntimeEvent::Cancel { reason, authority });
        }
    }

    /// Revokes current authority and wakes the settings observer.
    ///
    /// Call this after a live settings publication so disabling AI or changing
    /// its provider suppresses an older result immediately.
    pub fn settings_changed(&mut self)
        requires
            old(self)@.inv(),
        ensures
            final(self)@.inv(),
            final(self)@ == if old(self)@.exhausted() {
                old(self)@
            } else {
                old(self)@.revoked().sent(
                    EventView::SettingsChanged { authority: old(self)@.revoked().authority },
                )
            },
    {
        if let Some(authority) = self.advance_authority() {
            let _sent = self.send_event(RuntimeEvent::SettingsChanged { authority });
        }
    }

    /// Takes one complete settings replacement that is applied before later
    /// events, whether or not the event queue is full, and revokes every
    /// request authorized under the prior configuration. Says whether it did.
    pub fn reconfigure(&mut self, settings: AiSettings) -> (accepted: bool)
        requires
            old(self)@.inv(),
        ensures
            final(self)@.inv(),
            accepted == (old(self)@.alive && !old(self)@.exhausted()),
            final(self)@ == if accepted {
                AiDispatcherView {
                    pending: Some((settings@, old(self)@.revoked().authority)),
                    ..old(self)@.revoked()
                }
            } else {
                old(self)@
            },
    {
        if !self.alive {
            return false;
        }
        match self.advance_authority() {
            None => false,
            Some(authority) => {
                self.pending_reconfiguration = Some(PendingReconfiguration { settings, authority });
                true
            },
        }
    }

    /// Queues a completed command for workspace-level prompts and cancels any
    /// request authorized before command execution. Blank or oversized text
    /// only cancels.
    pub fn record_completed_command(&mut self, command: String) -> (admission: AiCommandAdmission)
        requires
            old(self)@.inv(),
        ensures
            final(self)@.inv(),
            ({
                let before = old(self)@;
                if blank(command@) || encode_utf8(command@).len() > MAX_RECENT_COMMAND_BYTES {
                    admission is Ignored && final(self)@ == before.cancelled(
                        CancellationReason::CommandExecution,
                    )
                } else if !before.alive || before.exhausted() {
                    admission is Closed && final(self)@ == before
                } else {
                    let revoked = before.revoked();
                    &&& final(self)@ == revoked.sent(
                        EventView::CommandExecuted {
                            command: command@,
                            authority: revoked.authority,
                        },
                    )
                    &&& admission == if before.accepts() {
                        AiCommandAdmission::Queued
                    } else {
                        AiCommandAdmission::Full
                    }
                }
            }),
    {
        if is_blank(command.as_str()) || text_len(command.as_str()) > MAX_RECENT_COMMAND_BYTES {
            self.cancel(CancellationReason::CommandExecution);
            return AiCommandAdmission::Ignored;
        }
        if !self.alive {
            return AiCommandAdmission::Closed;
        }
        match self.advance_authority() {
            None => AiCommandAdmission::Closed,
            Some(authority) => match self.send_event(
                RuntimeEvent::CommandExecuted { command, authority },
            ) {
                SendDisposition::Queued => AiCommandAdmission::Queued,
                SendDisposition::Full => AiCommandAdmission::Full,
                SendDisposition::Closed => AiCommandAdmission::Closed,
            },
        }
    }

    /// Takes the oldest current AI provider replacements, at most `limit` and
    /// never more than [`MAX_AI_DRAIN_BATCHES`]; outdated ones are dropped.
    pub fn drain_batches(&mut self, limit: usize) -> (batches: Vec<ProviderBatch>)
        requires
            old(self)@.inv(),
        ensures
            final(self)@.inv(),
            ({
                let most = if limit < MAX_AI_DRAIN_BATCHES {
                    limit as nat
                } else {
                    MAX_AI_DRAIN_BATCHES as nat
                };
                let (taken, rest) = drained(
                    old(self)@.output,
                    old(self)@.authority,
                    old(self)@.latest_generation,
                    most,
                );
                &&& ai_batch_views(batches@) == taken
                &&& final(self)@ == (AiDispatcherView { output: rest, ..old(self)@ })
            }),
    {
        let most: usize = if limit < MAX_AI_DRAIN_BATCHES {
            limit
        } else {
            MAX_AI_DRAIN_BATCHES
        };
        let ghost before = self@;
        let ghost all = drained(before.output, before.authority, before.latest_generation, most as nat);
        let mut batches: Vec<ProviderBatch> = Vec::new();
        assert(ai_batch_views(batches@) + all.0 =~= all.0);
        while batches.len() < most && self.output.len() > 0
            invariant
                batches@.len() <= most,
                self@ == (AiDispatcherView { output: self@.output, ..before }),
                self@.output == authorized_views(self.output@),
                self.output@.len() <= before.output.len(),
                all == drained(
                    before.output,
                    before.authority,
                    before.latest_generation,
                    most as nat,
                ),
                ({
                    let (taken, rest) = drained(
                        self@.output,
                        before.authority,
                        before.latest_generation,
                        (most - batches@.len()) as nat,
                    );
                    &&& all.0 == ai_batch_views(batches@) + taken
                    &&& all.1 == rest
                }),
            decreases self.output@.len(),
        {
            let ghost queue = self.output@;
            let ghost views = self@.output;
            let ghost collected = batches@;
            let next = self.output.remove(0);
            proof {
                assert(authorized_views(self.output@) =~= views.drop_first());
                assert(views[0] == next@);
                assert(ai_batch_views(collected) + (seq![next@.1] + drained(
                    views.drop_first(),
                    before.authority,
                    before.latest_generation,
                    (most - collected.len() - 1) as nat,
                ).0) =~= ai_batch_views(collected).push(next@.1) + drained(
                    views.drop_first(),
                    before.authority,
                    before.latest_generation,
                    (most - collected.len() - 1) as nat,
                ).0);
            }
            if next.authority == self.authority && next.batch.generation == self.latest_generation {
                batches.push(next.batch);
                assert(ai_batch_views(batches@) =~= ai_batch_views(collected).push(next@.1));
            }
        }
        assert(ai_batch_views(batches@) + Seq::<AiBatchView>::empty() =~= ai_batch_views(batches@));
        batches
    }

    /// Content-free scheduler health and queue counters.
    pub fn status(&self) -> (status: AiDispatcherStatus)
        ensures
            status == (AiDispatcherStatus {
                alive: self@.alive,
                queued_events: self@.events.len() as usize,
                latest_generation: self@.latest_generation,
                requests_started: self@.requests_started,
                stale_results: self@.stale_results,
                active_requests: self@.active_requests,
            }),
    {
        AiDispatcherStatus {
            alive: self.alive,
            queued_events: self.events.len(),
            latest_generation: self.latest_generation,
            requests_started: self.requests_started,
            stale_results: self.stale_results,
            active_requests: self.active_requests,
        }
    }

    /// Takes the oldest event for the scheduler.
    pub fn next_event(&mut self) -> (event: Option<RuntimeEvent>)
        requires
            old(self)@.inv(),
        ensures
            final(self)@.inv(),
            match event {
                Some(event) => {
                    &&& old(self)@.events.len() > 0
                    &&& event@ == old(self)@.events[0]
                    &&& final(self)@ == (AiDispatcherView {
                        events: old(self)@.events.drop_first(),
                        ..old(self)@
                    })
                },
                None => old(self)@.events.len() == 0 && final(self)@ == old(self)@,
            },
    {
        if self.events.len() == 0 {
            return None;
        }
        let ghost before = self.events@;
        let event = self.events.remove(0);
        assert(event_views(self.events@) =~= event_views(before).drop_first());
        Some(event)
    }

    /// Revokes all authority as the session ends.
    pub fn shut_down(&mut self)
        requires
            old(self)@.inv(),
        ensures
            final(self)@.inv(),
            final(self)@ == if old(self)@.exhausted() {
                old(self)@
            } else {
                old(self)@.revoked()
            },
    {
        let _authority = self.advance_authority();
    }

    /// Diagnostic summary, which shows health and counters alone.
    pub fn debug_text(&self) -> (summary: String)
        ensures
            summary@ == (AiDispatcherStatus {
                alive: self@.alive,
                queued_events: self@.events.len() as usize,
                latest_generation: self@.latest_generation,
                requests_started: self@.requests_started,
                stale_results: self@.stale_results,
                active_requests: self@.active_requests,
            }).debug_chars(),
    {
        self.status().owner_text()
    }

    /// Authority of whatever was submitted last.
    pub fn authority(&self) -> (authority: u64)
        ensures
            authority == self@.authority,
    {
        self.authority
    }

    /// Notes that the scheduler has exited.
    pub fn exited(&mut self)
        requires
            old(self)@.inv(),
        ensures
            final(self)@.inv(),
            final(self)@ == (AiDispatcherView { alive: false, ..old(self)@ }),
    {
        self.alive = false;
    }

    fn emit(&mut self, authority: u64, batch: ProviderBatch)
        requires
            old(self)@.inv(),
        ensures
            final(self)@.inv(),
            final(self)@ == old(self)@.emitted(authority, ai_batch_view(batch)),
    {
        if authority != self.authority || batch.generation != self.latest_generation {
            self.stale_results = self.stale_results.wrapping_add(1);
            return;
        }
        let ghost before = self.output@;
        if self.output.len() == OUTPUT_QUEUE_CAPACITY {
            let _dropped = self.output.remove(0);
            assert(authorized_views(self.output@) =~= authorized_views(before).drop_first());
        }
        let ghost kept = self.output@;
        let item = AuthorizedBatch { authority, batch };
        self.output.push(item);
        assert(authorized_views(self.output@) =~= authorized_views(kept).push(item@));
    }

    fn emit_failure(&mut self, authority: u64, generation: u64, error: &str)
        requires
            old(self)@.inv(),
        ensures
            final(self)@.inv(),
            final(self)@ == old(self)@.emitted(authority, reported(generation, error@)),
    {
        let batch = ProviderBatch::failure(AI_COMPLETION_PROVIDER, generation, error);
        assert(ai_batch_view(batch) =~= reported(generation, error@));
        self.emit(authority, batch);
    }

    fn emit_suggestion(&mut self, authority: u64, generation: u64, suggestion: Suggestion)
        requires
            old(self)@.inv(),
        ensures
            final(self)@.inv(),
            final(self)@ == old(self)@.emitted(authority, suggested(generation, suggestion)),
    {
        let mut suggestions: Vec<Suggestion> = Vec::new();
        suggestions.push(suggestion);
        let batch = ProviderBatch::success(AI_COMPLETION_PROVIDER, generation, suggestions);
        assert(ai_batch_view(batch) =~= suggested(generation, suggestion));
        self.emit(authority, batch);
    }

    /// Notes that a request's transport has returned, or could not be started.
    pub fn request_finished(&mut self)
        requires
            old(self)@.inv(),
            old(self)@.active_requests > 0,
        ensures
            final(self)@.inv(),
            final(self)@ == (AiDispatcherView {
                active_requests: (old(self)@.active_requests - 1) as usize,
                ..old(self)@
            }),
    {
        self.active_requests = self.active_requests - 1;
    }

    /// Notes that a request was started; the counter wraps.
    pub fn request_started(&mut self)
        requires
            old(self)@.inv(),
        ensures
            final(self)@.inv(),
            final(self)@ == (AiDispatcherView {
                requests_started: old(self)@.requests_started.wrapping_add(1),
                ..old(self)@
            }),
    {
        self.requests_started = self.requests_started.wrapping_add(1);
    }
}

/// What gathered context depends on, as a value.
#[verifier::ext_equal]
pub struct ContextKeyView {
    pub level: AiContextLevel,
    pub provider: Seq<char>,
    pub cwd: Seq<u8>,
    pub line: Seq<char>,
    pub cursor: int,
    pub recent: Seq<Seq<char>>,
}

impl ContextKeyView {
    /// Whether two keys agree; the directory may be spelled differently.
    pub open spec fn agrees(self, other: Self) -> bool {
        same_path(self.cwd, other.cwd) && other == (ContextKeyView { cwd: other.cwd, ..self })
    }
}

/// What gathered context depends on.
pub struct ContextKey {
    level: AiContextLevel,
    provider: String,
    cwd: Vec<u8>,
    line: String,
    cursor: usize,
    recent: Vec<String>,
}

impl View for ContextKey {
    type V = ContextKeyView;

    closed spec fn view(&self) -> ContextKeyView {
        ContextKeyView {
            level: self.level,
            provider: self.provider@,
            cwd: self.cwd@,
            line: self.line@,
            cursor: self.cursor as int,
            recent: texts_of(self.recent@),
        }
    }
}

fn copy_texts(texts: &Vec<String>) -> (copy: Vec<String>)
    ensures
        texts_of(copy@) == texts_of(texts@),
        copy@.len() == texts@.len(),
{
    let mut copy: Vec<String> = Vec::new();
    let mut i: usize = 0;
    while i < texts.len()
        invariant
            0 <= i <= texts@.len(),
            copy@.len() == i,
            forall|j: int| 0 <= j < i ==> (#[trigger] copy@[j])@ == texts@[j]@,
        decreases texts@.len() - i,
    {
        copy.push(texts[i].clone());
        i = i + 1;
    }
    assert(texts_of(copy@) =~= texts_of(texts@));
    copy
}

fn same_texts(a: &Vec<String>, b: &Vec<String>) -> (same: bool)
    ensures
        same == (texts_of(a@) == texts_of(b@)),
{
    if a.len() != b.len() {
        assert(texts_of(a@).len() != texts_of(b@).len());
        return false;
    }
    let mut i: usize = 0;
    while i < a.len()
        invariant
            0 <= i <= a@.len(),
            a@.len() == b@.len(),
            forall|j: int| 0 <= j < i ==> texts_of(a@)[j] == #[trigger] texts_of(b@)[j],
        decreases a@.len() - i,
    {
        if !text_equal(a[i].as_str(), b[i].as_str()) {
            assert(texts_of(a@)[i as int] != texts_of(b@)[i as int]);
            return false;
        }
        i = i + 1;
    }
    assert(texts_of(a@) =~= texts_of(b@));
    true
}

impl ContextKey {
    /// What context for this query depends on.
    pub fn new(
        level: AiContextLevel,
        provider: &str,
        query: &CompletionQuery,
        recent: &Vec<String>,
    ) -> (key: Self)
        ensures
            key@ == (ContextKeyView {
                level,
                provider: provider@,
                cwd: query@.cwd,
                line: query@.line,
                cursor: query@.cursor,
                recent: texts_of(recent@),
            }),
    {
        ContextKey {
            level,
            provider: provider.to_owned(),
            cwd: copy_bytes(query.cwd.as_slice()),
            line: query.line.clone(),
            cursor: query.cursor,
            recent: copy_texts(recent),
        }
    }

    /// Whether two keys agree; the directory may be spelled differently.
    pub fn same_as(&self, other: &ContextKey) -> (same: bool)
        ensures
            same == self@.agrees(other@),
    {
        let same: bool = self.level == other.level && text_equal(
            self.provider.as_str(),
            other.provider.as_str(),
        ) && is_same_path(self.cwd.as_slice(), other.cwd.as_slice()) && text_equal(
            self.line.as_str(),
            other.line.as_str(),
        ) && self.cursor == other.cursor && same_texts(&self.recent, &other.recent);
        proof {
            if same {
                assert(other@ =~= (ContextKeyView { cwd: other@.cwd, ..self@ }));
            }
        }
        same
    }
}

/// Scheduler state as a value.
#[verifier::ext_equal]
pub struct SchedulerView {
    /// Generation of the settings in force.
    pub settings_generation: u64,
    /// Settings in force.
    pub settings: AiSettingsView,
    /// Whether published settings are observed.
    pub shared_settings: bool,
    /// Query to complete, with its authority.
    pub current: Option<(QueryView, u64)>,
    /// Commands that completed, newest first.
    pub recent: Seq<Seq<char>>,
    /// Context that was gathered, and until when it is used.
    pub cache: Option<(ContextKeyView, u128)>,
}

/// What an event means for the request lifecycle.
pub enum LifecycleAction {
    /// Nothing.
    Nothing,
    /// Observe the current query.
    ObserveQuery,
    /// Apply this step.
    Step(LifecycleStep),
    /// Look at the published settings.
    Synchronize,
}

impl SchedulerView {
    /// Bounded list of commands.
    pub open spec fn inv(self) -> bool {
        self.recent.len() <= MAX_AI_RECENT_COMMANDS
    }

    /// What an event does: one that lost its authority does nothing.
    pub open spec fn after_event(self, authority: u64, event: EventView, cancelled: bool) -> (
        Self,
        LifecycleAction,
    ) {
        match event {
            EventView::Query { query, authority: given } => if given != authority || cancelled {
                (self, LifecycleAction::Nothing)
            } else {
                (
                    SchedulerView { current: Some((query, given)), ..self },
                    LifecycleAction::ObserveQuery,
                )
            },
            EventView::Cancel { reason, authority: given } => if given != authority {
                (self, LifecycleAction::Nothing)
            } else {
                (
                    SchedulerView { current: None, ..self },
                    LifecycleAction::Step(cancellation_step(reason)),
                )
            },
            EventView::SettingsChanged { authority: given } => if given != authority {
                (self, LifecycleAction::Nothing)
            } else {
                (self, LifecycleAction::Synchronize)
            },
            EventView::CommandExecuted { command, authority: given } => if given != authority {
                (self, LifecycleAction::Nothing)
            } else {
                (
                    SchedulerView {
                        current: None,
                        cache: None,
                        recent: first_items(
                            seq![command] + self.recent,
                            MAX_AI_RECENT_COMMANDS as nat,
                        ),
                        ..self
                    },
                    LifecycleAction::Step(LifecycleStep::CommandExecuted),
                )
            },
        }
    }

    /// State under other settings: the current query goes on under the new
    /// authority, and nothing gathered before is used.
    pub open spec fn reconfigured(self, generation: u64, settings: AiSettingsView, authority: u64) -> Self {
        SchedulerView {
            settings_generation: generation,
            settings,
            cache: None,
            current: match self.current {
                Some((query, _)) => Some((query, authority)),
                None => None,
            },
            ..self
        }
    }

    /// Whether a result may still be used.
    pub open spec fn has_authority(
        self,
        dispatcher: AiDispatcherView,
        query: QueryView,
        authority: u64,
        settings_generation: u64,
        cancelled: bool,
    ) -> bool {
        &&& authority == dispatcher.authority
        &&& settings_generation == self.settings_generation
        &&& query.generation == dispatcher.latest_generation
        &&& !cancelled
    }
}

/// How the lifecycle took a result.
#[derive(Clone, Copy, Debug, PartialEq, Eq, Structural)]
pub enum ResponseDisposition {
    /// It may be suggested.
    Accepted,
    /// It came too often.
    RateLimited,
    /// It failed.
    Failed,
    /// It came too late.
    TimedOut,
    /// It does not continue what is typed.
    IncompatibleSuggestion,
    /// It suggests nothing.
    NoSuggestion,
    /// It is outdated.
    Stale,
}

/// What the lifecycle is told of a result.
pub enum ProviderOutcome {
    /// Text was suggested.
    Suggestion(String),
    /// The provider refuses for a while.
    RateLimited,
    /// The request failed.
    Failed,
}

/// A provider's failure, without anything confidential.
pub struct SanitizedProviderError {
    /// Whether the provider refuses for a while.
    pub rate_limited: bool,
    /// Description.
    pub message: String,
}

/// What the lifecycle is told of a result.
pub fn provider_outcome(result: &Result<String, SanitizedProviderError>) -> (outcome: ProviderOutcome)
    ensures
        match *result {
            Ok(completion) => outcome matches ProviderOutcome::Suggestion(text) && text@ == completion@,
            Err(error) => if error.rate_limited {
                outcome is RateLimited
            } else {
                outcome is Failed
            },
        },
{
    match result {
        Ok(completion) => ProviderOutcome::Suggestion(completion.clone()),
        Err(error) => if error.rate_limited {
            ProviderOutcome::RateLimited
        } else {
            ProviderOutcome::Failed
        },
    }
}

/// Batch that a result with authority gives. `validated` is the suggestion that
/// its text stands for, or why it stands for none.
pub open spec fn result_batch(
    disposition: ResponseDisposition,
    generation: u64,
    failed: Option<Seq<char>>,
    validated: Result<Suggestion, Seq<char>>,
) -> Option<AiBatchView> {
    match disposition {
        ResponseDisposition::Accepted => if failed is None {
            match validated {
                Ok(suggestion) => Some(suggested(generation, suggestion)),
                Err(error) => Some(reported(generation, error)),
            }
        } else {
            None
        },
        ResponseDisposition::RateLimited => match failed {
            Some(error) => Some(reported(generation, error)),
            None => None,
        },
        ResponseDisposition::Failed => match failed {
            Some(error) => Some(reported(generation, error)),
            None => None,
        },
        ResponseDisposition::TimedOut => Some(
            reported(generation, "AI provider request timed out"@),
        ),
        ResponseDisposition::IncompatibleSuggestion => Some(
            reported(generation, "AI response did not satisfy the completion contract"@),
        ),
        ResponseDisposition::NoSuggestion => None,
        ResponseDisposition::Stale => None,
    }
}

/// A result of a request.
pub struct RequestResult {
    /// Query that was asked.
    pub query: CompletionQuery,
    /// Authority under which it was asked.
    pub authority: u64,
    /// Generation of the settings then.
    pub settings_generation: u64,
    /// What the provider gave.
    pub result: Result<String, SanitizedProviderError>,
}

/// Why a result failed, if it did.
pub open spec fn failure_text(result: Result<String, SanitizedProviderError>) -> Option<Seq<char>> {
    match result {
        Ok(_) => None,
        Err(error) => Some(error.message@),
    }
}

/// Suggestion that a text stands for, or why it stands for none, as a value.
pub open spec fn validation_of(validated: Result<Suggestion, String>) -> Result<Suggestion, Seq<char>> {
    match validated {
        Ok(suggestion) => Ok(suggestion),
        Err(error) => Err(error@),
    }
}

/// What the lifecycle asks for when it is polled.
pub enum PollOutcome {
    /// A request may start.
    Start,
    /// An earlier completion fits; it stands for this suggestion, if any.
    Cached(Option<Suggestion>),
    /// The request under way took too long.
    TimedOut,
    /// Nothing.
    Idle,
}

/// What to do about context.
#[derive(Clone, Copy, Debug, PartialEq, Eq, Structural)]
pub enum ContextDecision {
    /// Say nothing beyond the command line.
    Nothing,
    /// Use what was gathered before.
    Cached,
    /// Gather it.
    Gather,
}

struct QueryAuthority {
    query: CompletionQuery,
    authority: u64,
}

/// Scheduler of one session's AI completion.
pub struct Scheduler {
    settings_generation: u64,
    settings: AiSettings,
    shared_settings: bool,
    current: Option<QueryAuthority>,
    recent: Vec<String>,
    cache: Option<(ContextKey, u128)>,
}

impl View for Scheduler {
    type V = SchedulerView;

    closed spec fn view(&self) -> SchedulerView {
        SchedulerView {
            settings_generation: self.settings_generation,
            settings: self.settings@,
            shared_settings: self.shared_settings,
            current: match self.current {
                Some(current) => Some((current.query@, current.authority)),
                None => None,
            },
            recent: texts_of(self.recent@),
            cache: match self.cache {
                Some((key, expires)) => Some((key@, expires)),
                None => None,
            },
        }
    }
}

impl Scheduler {
    /// Starts with these options and the published settings, if any.
    pub fn new(options: &AiCompletionOptions, published: Option<(u64, AiSettings)>) -> (scheduler: Self)
        ensures
            scheduler@.inv(),
            scheduler@.current is None,
            scheduler@.cache is None,
            scheduler@.recent.len() == 0,
            scheduler@.shared_settings == options@.shared_settings,
            match published {
                Some((generation, settings)) => if options@.shared_settings {
                    scheduler@.settings_generation == generation && scheduler@.settings == settings@
                } else {
                    scheduler@.settings_generation == 0 && scheduler@.settings == options@.settings
                },
                None => scheduler@.settings_generation == 0 && scheduler@.settings == options@.settings,
            },
    {
        let (settings_generation, settings) = options.settings_snapshot(published);
        Scheduler {
            settings_generation,
            settings,
            shared_settings: options.shared_settings,
            current: None,
            recent: Vec::new(),
            cache: None,
        }
    }

    /// Commands that completed, newest first.
    pub fn recent_commands(&self) -> (recent: &Vec<String>)
        ensures
            texts_of(recent@) == self@.recent,
    {
        &self.recent
    }

    /// Settings in force.
    pub fn settings(&self) -> (settings: &AiSettings)
        ensures
            settings@ == self@.settings,
    {
        &self.settings
    }

    /// Generation of the settings in force.
    pub fn settings_generation(&self) -> (generation: u64)
        ensures
            generation == self@.settings_generation,
    {
        self.settings_generation
    }

    /// Query to complete.
    pub fn current_query(&self) -> (query: Option<&CompletionQuery>)
        ensures
            match query {
                Some(query) => self@.current matches Some((current, _)) && query@ == current,
                None => self@.current is None,
            },
    {
        match &self.current {
            Some(current) => Some(&current.query),
            None => None,
        }
    }

    /// Takes in one event; `cancelled` says whether its query is no longer
    /// wanted.
    pub fn handle_event(
        &mut self,
        dispatcher: &AiCompletionDispatcher,
        event: RuntimeEvent,
        cancelled: bool,
    ) -> (action: LifecycleAction)
        requires
            old(self)@.inv(),
        ensures
            final(self)@.inv(),
            (final(self)@, action) == old(self)@.after_event(
                dispatcher@.authority,
                event@,
                cancelled,
            ),
    {
        match event {
            RuntimeEvent::Query { work, authority } => {
                if authority != dispatcher.authority || cancelled {
                    return LifecycleAction::Nothing;
                }
                self.current = Some(QueryAuthority { query: work.query().clone(), authority });
                LifecycleAction::ObserveQuery
            },
            RuntimeEvent::Cancel { reason, authority } => {
                if authority != dispatcher.authority {
                    return LifecycleAction::Nothing;
                }
                self.current = None;
                LifecycleAction::Step(apply_cancellation(reason))
            },
            RuntimeEvent::SettingsChanged { authority } => {
                if authority != dispatcher.authority {
                    return LifecycleAction::Nothing;
                }
                LifecycleAction::Synchronize
            },
            RuntimeEvent::CommandExecuted { command, authority } => {
                if authority != dispatcher.authority {
                    return LifecycleAction::Nothing;
                }
                self.current = None;
                self.cache = None;
                let ghost before = self.recent@;
                self.recent.insert(0, command);
                assert(texts_of(self.recent@) =~= seq![command@] + texts_of(before));
                if self.recent.len() > MAX_AI_RECENT_COMMANDS {
                    let ghost longer = self.recent@;
                    self.recent.truncate(MAX_AI_RECENT_COMMANDS);
                    assert(texts_of(self.recent@) =~= texts_of(longer).subrange(
                        0,
                        MAX_AI_RECENT_COMMANDS as int,
                    ));
                }
                LifecycleAction::Step(LifecycleStep::CommandExecuted)
            },
        }
    }

    fn apply_settings(&mut self, generation: u64, settings: AiSettings, authority: u64)
        requires
            old(self)@.inv(),
        ensures
            final(self)@.inv(),
            final(self)@ == old(self)@.reconfigured(generation, settings@, authority),
    {
        self.settings_generation = generation;
        self.settings = settings;
        self.cache = None;
        self.current = match self.current.take() {
            Some(current) => Some(QueryAuthority { query: current.query, authority }),
            None => None,
        };
    }

    /// Applies a pending settings replacement. Says whether the lifecycle has to
    /// be built anew; it then observes the current query, if that is wanted.
    pub fn apply_pending_reconfiguration(&mut self, dispatcher: &mut AiCompletionDispatcher) -> (applied: bool)
        requires
            old(self)@.inv(),
            old(dispatcher)@.inv(),
        ensures
            final(self)@.inv(),
            final(dispatcher)@.inv(),
            final(dispatcher)@ == (AiDispatcherView { pending: None, ..old(dispatcher)@ }),
            match old(dispatcher)@.pending {
                Some((settings, authority)) => {
                    &&& applied
                    &&& final(self)@ == (SchedulerView {
                        shared_settings: false,
                        ..old(self)@.reconfigured(0, settings, authority)
                    })
                },
                None => !applied && final(self)@ == old(self)@,
            },
    {
        match dispatcher.pending_reconfiguration.take() {
            None => false,
            Some(pending) => {
                self.shared_settings = false;
                self.apply_settings(0, pending.settings, pending.authority);
                true
            },
        }
    }

    /// Takes in published settings. Where they change anything about AI, what
    /// was authorized before is void, and the lifecycle has to be built anew;
    /// says whether that is so.
    pub fn synchronize_settings(
        &mut self,
        dispatcher: &mut AiCompletionDispatcher,
        generation: u64,
        settings: AiSettings,
    ) -> (changed: bool)
        requires
            old(self)@.inv(),
            old(dispatcher)@.inv(),
        ensures
            final(self)@.inv(),
            final(dispatcher)@.inv(),
            changed == (generation != old(self)@.settings_generation && settings@ != old(self)@.settings),
            if changed {
                let revoked = if old(dispatcher)@.exhausted() {
                    old(dispatcher)@
                } else {
                    old(dispatcher)@.revoked()
                };
                &&& final(dispatcher)@ == revoked
                &&& final(self)@ == old(self)@.reconfigured(generation, settings@, revoked.authority)
            } else {
                &&& final(dispatcher)@ == old(dispatcher)@
                &&& final(self)@ == (SchedulerView {
                    settings_generation: generation,
                    settings: settings@,
                    ..old(self)@
                })
            },
    {
        if generation == self.settings_generation || settings.same_as(&self.settings) {
            self.settings_generation = generation;
            self.settings = settings;
            return false;
        }
        let authority: u64 = match dispatcher.advance_authority() {
            Some(authority) => authority,
            None => dispatcher.authority,
        };
        self.apply_settings(generation, settings, authority);
        true
    }

    /// Takes in a result: one that lost its authority is counted and dropped,
    /// any other is handed over as the lifecycle took it. `validated` is the
    /// suggestion that its text stands for, or why it stands for none.
    pub fn handle_result(
        &self,
        dispatcher: &mut AiCompletionDispatcher,
        result: RequestResult,
        disposition: ResponseDisposition,
        validated: Result<Suggestion, String>,
        cancelled: bool,
    )
        requires
            old(dispatcher)@.inv(),
        ensures
            final(dispatcher)@.inv(),
            final(dispatcher)@ == if self@.has_authority(
                old(dispatcher)@,
                result.query@,
                result.authority,
                result.settings_generation,
                cancelled,
            ) {
                match result_batch(
                    disposition,
                    result.query@.generation,
                    failure_text(result.result),
                    validation_of(validated),
                ) {
                    Some(batch) => old(dispatcher)@.emitted(result.authority, batch),
                    None => old(dispatcher)@,
                }
            } else {
                AiDispatcherView {
                    stale_results: old(dispatcher)@.stale_results.wrapping_add(1),
                    ..old(dispatcher)@
                }
            },
    {
        let generation: u64 = result.query.generation;
        if result.authority != dispatcher.authority || result.settings_generation
            != self.settings_generation || generation != dispatcher.latest_generation || cancelled {
            dispatcher.stale_results = dispatcher.stale_results.wrapping_add(1);
            return;
        }
        match disposition {
            ResponseDisposition::Accepted => match (&result.result, validated) {
                (Ok(_), Ok(suggestion)) => {
                    dispatcher.emit_suggestion(result.authority, generation, suggestion);
                },
                (Ok(_), Err(error)) => {
                    dispatcher.emit_failure(result.authority, generation, error.as_str());
                },
                (Err(_), _) => {},
            },
            ResponseDisposition::RateLimited | ResponseDisposition::Failed => match &result.result {
                Err(error) => {
                    dispatcher.emit_failure(result.authority, generation, error.message.as_str());
                },
                Ok(_) => {},
            },
            ResponseDisposition::TimedOut => {
                dispatcher.emit_failure(
                    result.authority,
                    generation,
                    "AI provider request timed out",
                );
            },
            ResponseDisposition::IncompatibleSuggestion => {
                dispatcher.emit_failure(
                    result.authority,
                    generation,
                    "AI response did not satisfy the completion contract",
                );
            },
            ResponseDisposition::NoSuggestion | ResponseDisposition::Stale => {},
        }
    }

    /// Takes in what the lifecycle asks for. Says whether a request may start.
    pub fn poll_lifecycle(
        &self,
        dispatcher: &mut AiCompletionDispatcher,
        outcome: PollOutcome,
        cancelled: bool,
    ) -> (start: bool)
        requires
            old(dispatcher)@.inv(),
        ensures
            final(dispatcher)@.inv(),
            start == (outcome is Start),
            final(dispatcher)@ == match (outcome, self@.current) {
                (PollOutcome::Cached(Some(suggestion)), Some((query, authority))) => if authority
                    != old(dispatcher)@.authority || cancelled {
                    old(dispatcher)@
                } else {
                    old(dispatcher)@.emitted(authority, suggested(query.generation, suggestion))
                },
                (PollOutcome::TimedOut, Some((query, authority))) => old(dispatcher)@.emitted(
                    authority,
                    reported(query.generation, "AI provider request timed out"@),
                ),
                _ => old(dispatcher)@,
            },
    {
        match outcome {
            PollOutcome::Start => true,
            PollOutcome::Idle => false,
            PollOutcome::Cached(suggestion) => {
                if let Some(current) = &self.current {
                    if current.authority == dispatcher.authority && !cancelled {
                        if let Some(suggestion) = suggestion {
                            dispatcher.emit_suggestion(
                                current.authority,
                                current.query.generation,
                                suggestion,
                            );
                        }
                    }
                }
                false
            },
            PollOutcome::TimedOut => {
                if let Some(current) = &self.current {
                    dispatcher.emit_failure(
                        current.authority,
                        current.query.generation,
                        "AI provider request timed out",
                    );
                }
                false
            },
        }
    }

    /// Asks whether a request may be prepared for this buffer. Gives its
    /// authority, or why it may not.
    pub fn start_request(
        &self,
        dispatcher: &AiCompletionDispatcher,
        permitted_buffer: &str,
        cancelled: bool,
    ) -> (result: Result<u64, &'static str>)
        ensures
            match self@.current {
                None => result matches Err(message) && message@ == "AI query authority was unavailable"@,
                Some((query, authority)) => if authority != dispatcher@.authority || cancelled
                    || permitted_buffer@ != query.line {
                    result matches Err(message) && message@ == "AI query authority was cancelled"@
                } else {
                    result matches Ok(granted) && granted == authority
                },
            },
    {
        match &self.current {
            None => Err("AI query authority was unavailable"),
            Some(current) => {
                if current.authority != dispatcher.authority || cancelled || !text_equal(
                    permitted_buffer,
                    current.query.line.as_str(),
                ) {
                    Err("AI query authority was cancelled")
                } else {
                    Ok(current.authority)
                }
            },
        }
    }

    /// Asks whether a prepared request may be sent, and counts it as under way
    /// where it may; says why it may not.
    pub fn claim_request(
        &self,
        dispatcher: &mut AiCompletionDispatcher,
        authority: u64,
        cancelled: bool,
    ) -> (refusal: Option<&'static str>)
        requires
            old(dispatcher)@.inv(),
        ensures
            final(dispatcher)@.inv(),
            match refusal {
                None => {
                    &&& authority == old(dispatcher)@.authority
                    &&& !cancelled
                    &&& old(dispatcher)@.active_requests < MAX_REQUEST_WORKERS
                    &&& final(dispatcher)@ == (AiDispatcherView {
                        active_requests: (old(dispatcher)@.active_requests + 1) as usize,
                        ..old(dispatcher)@
                    })
                },
                Some(message) => {
                    &&& final(dispatcher)@ == old(dispatcher)@
                    &&& if authority != old(dispatcher)@.authority || cancelled {
                        message@ == "AI query authority was cancelled"@
                    } else {
                        &&& old(dispatcher)@.active_requests == MAX_REQUEST_WORKERS
                        &&& message@ == "AI provider worker capacity is exhausted"@
                    }
                },
            },
    {
        if authority != dispatcher.authority || cancelled {
            return Some("AI query authority was cancelled");
        }
        if dispatcher.active_requests >= MAX_REQUEST_WORKERS {
            return Some("AI provider worker capacity is exhausted");
        }
        dispatcher.active_requests = dispatcher.active_requests + 1;
        None
    }

    /// Reports a permit that led to no request, where the lifecycle took it as a
    /// failure.
    pub fn fail_permit(&self, dispatcher: &mut AiCompletionDispatcher, failed: bool, message: &str)
        requires
            old(dispatcher)@.inv(),
        ensures
            final(dispatcher)@.inv(),
            final(dispatcher)@ == match self@.current {
                Some((query, authority)) => if failed {
                    old(dispatcher)@.emitted(authority, reported(query.generation, message@))
                } else {
                    old(dispatcher)@
                },
                None => old(dispatcher)@,
            },
    {
        if failed {
            if let Some(current) = &self.current {
                dispatcher.emit_failure(current.authority, current.query.generation, message);
            }
        }
    }

    /// What to do about context for a query; `fresh` says whether the lifecycle
    /// still trusts what was gathered under this key.
    pub fn context_for(&self, level: AiContextLevel, key: &ContextKey, fresh: bool, cancelled: bool, now: u128) -> (decision:
        ContextDecision)
        ensures
            decision == if level is Minimal || cancelled {
                ContextDecision::Nothing
            } else if fresh && (self@.cache matches Some((cached, expires)) && cached.agrees(key@) && now
                < expires) {
                ContextDecision::Cached
            } else {
                ContextDecision::Gather
            },
    {
        if level == AiContextLevel::Minimal || cancelled {
            return ContextDecision::Nothing;
        }
        if fresh {
            if let Some((cached, expires)) = &self.cache {
                if cached.same_as(key) && now < *expires {
                    return ContextDecision::Cached;
                }
            }
        }
        ContextDecision::Gather
    }

    /// Remembers that context was gathered under this key.
    pub fn remember_context(&mut self, key: ContextKey, now: u128)
        requires
            old(self)@.inv(),
        ensures
            final(self)@.inv(),
            final(self)@ == (SchedulerView {
                cache: Some(
                    (
                        key@,
                        if now + CONTEXT_CACHE_TTL > u128::MAX {
                            now
                        } else {
                            (now + CONTEXT_CACHE_TTL) as u128
                        },
                    ),
                ),
                ..old(self)@
            }),
    {
        let expires: u128 = match now.checked_add(CONTEXT_CACHE_TTL) {
            Some(expires) => expires,
            None => now,
        };
        self.cache = Some((key, expires));
    }
}

/// Whatever was authorized before a query, a cancellation, a command or other
/// settings is void: its batch is dropped and counted, and nothing drains it.
pub proof fn law_revoked_batches_are_dropped(dispatcher: AiDispatcherView, authority: u64, batch: AiBatchView)
    requires
        !dispatcher.exhausted(),
        authority <= dispatcher.authority,
    ensures
        dispatcher.revoked().emitted(authority, batch).output == dispatcher.output,
        dispatcher.revoked().emitted(authority, batch).stale_results
            == dispatcher.stale_results.wrapping_add(1),
{
}

/// A drain hands out current batches only, so many at most, in their order.
pub proof fn law_drains_are_current(
    queue: Seq<(u64, AiBatchView)>,
    authority: u64,
    generation: u64,
    limit: nat,
)
    ensures
        ({
            let (taken, rest) = drained(queue, authority, generation, limit);
            &&& taken.len() <= limit
            &&& rest.len() <= queue.len()
            &&& forall|i: int| 0 <= i < taken.len() ==> (#[trigger] taken[i]).generation == generation
            &&& (forall|i: int| 0 <= i < queue.len() ==> (#[trigger] queue[i]).0 != authority)
                ==> taken.len() == 0
        }),
    decreases queue.len(),
{
    if limit > 0 && queue.len() > 0 {
        let rest = queue.drop_first();
        if queue[0].0 == authority && queue[0].1.generation == generation {
            law_drains_are_current(rest, authority, generation, (limit - 1) as nat);
            assert(queue[0].0 == authority);
        } else {
            law_drains_are_current(rest, authority, generation, limit);
            if forall|i: int| 0 <= i < queue.len() ==> (#[trigger] queue[i]).0 != authority {
                assert forall|i: int| 0 <= i < rest.len() implies (#[trigger] rest[i]).0 != authority by {
                    assert(rest[i] == queue[i + 1]);
                }
            }
        }
    }
}

/// A settings replacement is taken in however full the event queue is.
pub proof fn law_reconfiguration_needs_no_room(dispatcher: AiDispatcherView, event: EventView)
    requires
        dispatcher.inv(),
        dispatcher.alive,
        dispatcher.events.len() == EVENT_QUEUE_CAPACITY,
    ensures
        dispatcher.sent(event) == dispatcher,
        !dispatcher.exhausted() ==> dispatcher.revoked().events == dispatcher.events,
{
}

/// An event that lost its authority changes nothing.
pub proof fn law_revoked_events_do_nothing(
    scheduler: SchedulerView,
    authority: u64,
    event: EventView,
    cancelled: bool,
)
    requires
        match event {
            EventView::Query { authority: given, .. } => given != authority,
            EventView::Cancel { authority: given, .. } => given != authority,
            EventView::SettingsChanged { authority: given } => given != authority,
            EventView::CommandExecuted { authority: given, .. } => given != authority,
        },
    ensures
        scheduler.after_event(authority, event, cancelled).0 == scheduler,
        scheduler.after_event(authority, event, cancelled).1 is Nothing,
{
}

/// Each reason to cancel is passed on as what happened; leaving the end of the
/// line counts as a buffer about which nothing is to be asked.
pub proof fn law_cancellations_say_what_happened()
    ensures
        cancellation_step(CancellationReason::ModeChanged) is ModeChanged,
        cancellation_step(CancellationReason::MenuNavigation) is MenuNavigated,
        cancellation_step(CancellationReason::CommandExecution) is CommandExecuted,
        cancellation_step(CancellationReason::SessionExit) is EndSession,
        cancellation_step(CancellationReason::Disabled) is Disable,
        cancellation_step(CancellationReason::ProviderChanged) is ProviderChanged,
        cancellation_step(CancellationReason::SessionChanged) is StartSession,
        cancellation_step(CancellationReason::BufferChanged) is ObserveNothing,
        cancellation_step(CancellationReason::CursorMovedAwayFromEnd) is ObserveNothing,
{
}

/// An event that still has its authority takes effect: a query becomes the
/// current one, a cancellation leaves none, and an executed command does so too,
/// comes first among the recent ones, and voids gathered context.
pub proof fn law_authorized_events_take_effect(
    scheduler: SchedulerView,
    authority: u64,
    query: QueryView,
    reason: CancellationReason,
    command: Seq<char>,
)
    requires
        scheduler.recent.len() <= MAX_AI_RECENT_COMMANDS,
    ensures
        ({
            let (asked, observe) = scheduler.after_event(
                authority,
                EventView::Query { query, authority },
                false,
            );
            let (dropped, step) = scheduler.after_event(
                authority,
                EventView::Cancel { reason, authority },
                false,
            );
            let (executed, noted) = scheduler.after_event(
                authority,
                EventView::CommandExecuted { command, authority },
                false,
            );
            &&& asked == (SchedulerView { current: Some((query, authority)), ..scheduler })
            &&& observe is ObserveQuery
            &&& scheduler.after_event(authority, EventView::Query { query, authority }, true).0 == scheduler
            &&& dropped == (SchedulerView { current: None, ..scheduler })
            &&& step is Step
            &&& executed.current is None && executed.cache is None
            &&& noted == LifecycleAction::Step(LifecycleStep::CommandExecuted)
            &&& executed.settings == scheduler.settings
            &&& executed.recent.len() == if scheduler.recent.len() < MAX_AI_RECENT_COMMANDS {
                scheduler.recent.len() + 1
            } else {
                MAX_AI_RECENT_COMMANDS as nat
            }
            &&& executed.recent[0] == command
            &&& forall|i: int|
                0 < i < executed.recent.len() ==> #[trigger] executed.recent[i] == scheduler.recent[i - 1]
            &&& scheduler.after_event(authority, EventView::SettingsChanged { authority }, false)
                == (scheduler, LifecycleAction::Synchronize)
        }),
{
}

/// Other settings hold from now on: the query under way goes on under the new
/// authority, and nothing gathered under the old ones is used.
pub proof fn law_new_settings_keep_the_query(
    scheduler: SchedulerView,
    generation: u64,
    settings: AiSettingsView,
    authority: u64,
)
    ensures
        ({
            let after = scheduler.reconfigured(generation, settings, authority);
            &&& after.settings == settings
            &&& after.settings_generation == generation
            &&& after.cache is None
            &&& after.recent == scheduler.recent
            &&& scheduler.current is None ==> after.current is None
            &&& scheduler.current matches Some((query, _)) ==> after.current == Some((query, authority))
        }),
{
}

/// A result is used only where nothing revoked it: neither its authority, its
/// settings nor its query is another by now, and it was not cancelled.
pub proof fn law_results_need_authority(
    scheduler: SchedulerView,
    dispatcher: AiDispatcherView,
    query: QueryView,
    authority: u64,
    settings_generation: u64,
    cancelled: bool,
)
    ensures
        cancelled ==> !scheduler.has_authority(
            dispatcher,
            query,
            authority,
            settings_generation,
            cancelled,
        ),
        authority != dispatcher.authority ==> !scheduler.has_authority(
            dispatcher,
            query,
            authority,
            settings_generation,
            cancelled,
        ),
        settings_generation != scheduler.settings_generation ==> !scheduler.has_authority(
            dispatcher,
            query,
            authority,
            settings_generation,
            cancelled,
        ),
        query.generation != dispatcher.latest_generation ==> !scheduler.has_authority(
            dispatcher,
            query,
            authority,
            settings_generation,
            cancelled,
        ),
        !cancelled && authority == dispatcher.authority && settings_generation
            == scheduler.settings_generation && query.generation == dispatcher.latest_generation
            ==> scheduler.has_authority(dispatcher, query, authority, settings_generation, cancelled),
{
}

/// An accepted result is its suggestion alone; everything else that is reported
/// is a failure without a suggestion, and what is outdated or says nothing is not
/// reported.
pub proof fn law_results_become_batches(
    generation: u64,
    error: Seq<char>,
    suggestion: Suggestion,
    disposition: ResponseDisposition,
    failed: Option<Seq<char>>,
    validated: Result<Suggestion, Seq<char>>,
)
    ensures
        result_batch(ResponseDisposition::Accepted, generation, None, Ok(suggestion)) matches Some(batch)
            && batch.suggestions == seq![suggestion] && batch.error is None && batch.generation
            == generation && batch.provider == AI_COMPLETION_PROVIDER@,
        result_batch(ResponseDisposition::Accepted, generation, None, Err(error)) matches Some(batch)
            && batch.suggestions.len() == 0 && batch.error == Some(error),
        result_batch(ResponseDisposition::RateLimited, generation, Some(error), validated) matches Some(
            batch,
        ) && batch.suggestions.len() == 0 && batch.error == Some(error),
        result_batch(ResponseDisposition::Failed, generation, Some(error), validated) matches Some(batch)
            && batch.suggestions.len() == 0 && batch.error == Some(error),
        result_batch(disposition, generation, failed, validated) matches Some(batch) ==> {
            &&& batch.generation == generation
            &&& batch.provider == AI_COMPLETION_PROVIDER@
            &&& batch.suggestions.len() > 0 ==> disposition is Accepted && failed is None && validated
                is Ok && batch.suggestions == seq![validated->Ok_0]
            &&& batch.suggestions.len() == 0 ==> batch.error is Some
        },
        disposition is Stale || disposition is NoSuggestion ==> result_batch(
            disposition,
            generation,
            failed,
            validated,
        ) is None,
        disposition is TimedOut || disposition is IncompatibleSuggestion ==> result_batch(
            disposition,
            generation,
            failed,
            validated,
        ) is Some,
{
}

/// A current batch is handed over behind the others, where the queue is full in
/// place of the oldest; any other is only counted.
pub proof fn law_current_batches_are_handed_over(
    dispatcher: AiDispatcherView,
    authority: u64,
    batch: AiBatchView,
)
    requires
        dispatcher.inv(),
    ensures
        ({
            let after = dispatcher.emitted(authority, batch);
            let current = authority == dispatcher.authority && batch.generation
                == dispatcher.latest_generation;
            &&& current ==> after.output.len() > 0 && after.output.last() == (authority, batch)
            &&& current && dispatcher.output.len() < OUTPUT_QUEUE_CAPACITY ==> after.output.drop_last()
                == dispatcher.output
            &&& current && dispatcher.output.len() == OUTPUT_QUEUE_CAPACITY ==> after.output.drop_last()
                == dispatcher.output.drop_first()
            &&& current ==> after.stale_results == dispatcher.stale_results
            &&& !current ==> after.output == dispatcher.output
            &&& after.authority == dispatcher.authority && after.events == dispatcher.events
        }),
{
    let after = dispatcher.emitted(authority, batch);
    if authority == dispatcher.authority && batch.generation == dispatcher.latest_generation {
        if dispatcher.output.len() == OUTPUT_QUEUE_CAPACITY {
            assert(after.output.drop_last() =~= dispatcher.output.drop_first());
        } else {
            assert(after.output.drop_last() =~= dispatcher.output);
        }
    }
}

/// A drain takes the first current batch first, drops what is not current on its
/// way, and leaves the rest as it is once it has enough.
pub proof fn law_drains_take_what_is_current(
    batch: AiBatchView,
    given: u64,
    queue: Seq<(u64, AiBatchView)>,
    authority: u64,
    generation: u64,
    limit: nat,
)
    requires
        limit > 0,
    ensures
        ({
            let (taken, rest) = drained(seq![(given, batch)] + queue, authority, generation, limit);
            let current = given == authority && batch.generation == generation;
            &&& current ==> taken == seq![batch] + drained(
                queue,
                authority,
                generation,
                (limit - 1) as nat,
            ).0 && rest == drained(queue, authority, generation, (limit - 1) as nat).1
            &&& !current ==> (taken, rest) == drained(queue, authority, generation, limit)
            &&& drained(queue, authority, generation, 0) == (Seq::<AiBatchView>::empty(), queue)
            &&& drained(Seq::empty(), authority, generation, limit).0.len() == 0
        }),
{
    let all = seq![(given, batch)] + queue;
    assert(all[0] == (given, batch));
    assert(all.drop_first() =~= queue);
}

/// Revoking gives an authority that nothing before had, and an event waits behind
/// the others as long as there is room and the scheduler runs.
pub proof fn law_cancelling_revokes_what_came_before(
    dispatcher: AiDispatcherView,
    reason: CancellationReason,
    event: EventView,
)
    ensures
        dispatcher.authority < u64::MAX ==> {
            &&& dispatcher.revoked().authority > dispatcher.authority
            &&& dispatcher.revoked().output == dispatcher.output
            &&& dispatcher.cancelled(reason).authority == dispatcher.authority + 1
            &&& dispatcher.alive && dispatcher.events.len() < EVENT_QUEUE_CAPACITY
                ==> dispatcher.cancelled(reason).events == dispatcher.events.push(
                EventView::Cancel { reason, authority: (dispatcher.authority + 1) as u64 },
            )
        },
        dispatcher.authority == u64::MAX ==> dispatcher.cancelled(reason) == dispatcher,
        dispatcher.accepts() <==> dispatcher.alive && dispatcher.events.len() < EVENT_QUEUE_CAPACITY,
        dispatcher.accepts() ==> dispatcher.sent(event).events == dispatcher.events.push(event),
        !dispatcher.accepts() ==> dispatcher.sent(event) == dispatcher,
{
}

/// Gathered context is for one level, provider, line, cursor and list of recent
/// commands, and for one directory however that is spelled.
pub proof fn law_context_is_for_one_question(a: ContextKeyView, b: ContextKeyView)
    ensures
        a.agrees(b) <==> {
            &&& a.level == b.level
            &&& a.provider == b.provider
            &&& a.line == b.line
            &&& a.cursor == b.cursor
            &&& a.recent == b.recent
            &&& same_path(a.cwd, b.cwd)
        },
{
    if a.level == b.level && a.provider == b.provider && a.line == b.line && a.cursor == b.cursor
        && a.recent == b.recent {
        assert(b =~= (ContextKeyView { cwd: b.cwd, ..a }));
    }
}

} // verus!
