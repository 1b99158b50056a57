//! Automatic-update orchestration for interactive sessions.
//!
//! The worker keeps release transport and state-file I/O away from terminal
//! forwarding. Every request is durably reserved before network access, and
//! every notice is durably claimed before it becomes visible. This module
//! decides what to do next; the caller performs it and reports back. Release
//! artifacts are never downloaded or installed here.
//!
//! Durations are in nanoseconds, and moments of the caller's monotonic clock in
//! nanoseconds since some fixed start.

use vstd::prelude::*;
use vstd::string::*;

use crate::session::SessionMode;
use crate::state::{
    discovered_paths, paths_debug_chars, IoKind, LastMode, LoadedState, RuntimeState, RuntimeStateStore,
    StateDirectories, StatePathsView, StateStoreError, UpdateStoreOutcome,
};
use crate::text::{append_number, bool_chars, bool_text, decimal_chars, text_len};
use crate::update_policy::{
    fresh_policy, interval_millis, interval_ms, AutomaticUpdater, AutomaticUpdaterError,
    CheckReservationConfirmation, CheckReservationDecision, ClaimConfirmation, ClaimDecision,
    NetworkFailure, PolicyView, ProposalPersistence, RemoteRelease, UpdateChannel, Updater,
};
use crate::updater::{later, UpdateState, UpdateView};
use crate::version::RUNNING_VERSION;

verus! {

/// Longest representable duration.
pub const MAX_DURATION: u128 = 18_446_744_073_709_551_615_999_999_999;

/// How often a worker without an explicit wake-up observes shared settings.
pub const SETTINGS_POLL_INTERVAL: u128 = 1_000_000_000;

/// Maximum startup jitter used to spread simultaneous terminal sessions.
pub const MAX_STARTUP_JITTER: u128 = 250_000_000;

/// Maximum positive jitter added to periodic and retry schedules.
pub const MAX_PERIODIC_JITTER: u128 = 30_000_000_000;

/// Maximum exponential retry multiplier after consecutive failures.
pub const MAX_FAILURE_BACKOFF_MULTIPLIER: u32 = 8;

/// Most notices that wait to be shown.
pub const MAX_PENDING_NOTICES: usize = 1;

/// How release metadata could not be had.
#[derive(Clone, Copy, Debug, PartialEq, Eq, Structural)]
pub enum ReleaseError {
    /// The source is no release service.
    InvalidSource,
    /// The host is not supported.
    UnsupportedHost,
    /// No answer came in time.
    Timeout,
    /// The connection failed.
    Network,
    /// Too many requests were made.
    RateLimited,
    /// The service answered with this status.
    HttpStatus(u16),
    /// The answer was too large.
    ResponseTooLarge,
    /// The answer was no release metadata.
    InvalidMetadata,
    /// The release lacks a file.
    MissingAsset,
    /// The release has no usable checksum.
    InvalidChecksum,
}

/// Policy category of a release error.
pub open spec fn failure_of(error: ReleaseError) -> NetworkFailure {
    match error {
        ReleaseError::Timeout => NetworkFailure::Timeout,
        ReleaseError::Network => NetworkFailure::Transport,
        ReleaseError::RateLimited => NetworkFailure::Api,
        ReleaseError::HttpStatus(_) => NetworkFailure::Api,
        _ => NetworkFailure::InvalidResponse,
    }
}

/// Policy category of a release error.
pub fn map_release_error(error: ReleaseError) -> (failure: NetworkFailure)
    ensures
        failure == failure_of(error),
{
    match error {
        ReleaseError::Timeout => NetworkFailure::Timeout,
        ReleaseError::Network => NetworkFailure::Transport,
        ReleaseError::RateLimited | ReleaseError::HttpStatus(_) => NetworkFailure::Api,
        _ => NetworkFailure::InvalidResponse,
    }
}

/// Time until the next check is due by the last one, whole milliseconds.
pub open spec fn remaining_nanos(state: UpdateView, interval: u128, now_ms: u64) -> int {
    match later(state.reserved, state.completed) {
        None => interval as int,
        Some(last) => {
            let due = if last + interval_millis(interval) > u64::MAX {
                u64::MAX as int
            } else {
                last + interval_millis(interval)
            };
            if due < now_ms {
                0
            } else {
                (due - now_ms) * 1_000_000
            }
        },
    }
}

/// Time until the next check is due by the last one.
pub fn remaining_interval(state: &UpdateState, interval: u128, now_ms: u64) -> (delay: u128)
    ensures
        delay == remaining_nanos(state@, interval, now_ms),
{
    let reserved: Option<u64> = state.last_reserved_check_ms();
    let completed: Option<u64> = state.last_completed_check_ms();
    let last_check: u64 = match (reserved, completed) {
        (Some(x), Some(y)) => if x < y {
            y
        } else {
            x
        },
        (Some(x), None) => x,
        (None, Some(y)) => y,
        (None, None) => {
            return interval;
        },
    };
    let due_ms: u64 = last_check.saturating_add(interval_ms(interval));
    due_ms.saturating_sub(now_ms) as u128 * 1_000_000
}

/// How many intervals to wait after so many failures in a row.
pub open spec fn backoff(failure_streak: u32) -> int {
    if failure_streak <= 1 {
        1
    } else if failure_streak == 2 {
        2
    } else if failure_streak == 3 {
        4
    } else {
        MAX_FAILURE_BACKOFF_MULTIPLIER as int
    }
}

/// Time to wait after so many failures in a row.
pub open spec fn retry_nanos(interval: u128, failure_streak: u32) -> int {
    if interval * backoff(failure_streak) > MAX_DURATION {
        MAX_DURATION as int
    } else {
        interval * backoff(failure_streak)
    }
}

/// Time to wait after so many failures in a row.
pub fn retry_delay(interval: u128, failure_streak: u32) -> (delay: u128)
    ensures
        delay == retry_nanos(interval, failure_streak),
{
    let multiplier: u128 = if failure_streak <= 1 {
        1
    } else if failure_streak == 2 {
        2
    } else if failure_streak == 3 {
        4
    } else {
        8
    };
    match interval.checked_mul(multiplier) {
        Some(delay) => if delay > MAX_DURATION {
            MAX_DURATION
        } else {
            delay
        },
        None => MAX_DURATION,
    }
}

/// Retries never come sooner after more failures, and never later than the
/// greatest multiple of the interval.
pub proof fn law_retries_back_off(interval: u128, streak: u32)
    ensures
        streak < u32::MAX ==> retry_nanos(interval, streak) <= retry_nanos(
            interval,
            (streak + 1) as u32,
        ),
        retry_nanos(interval, streak) <= interval * MAX_FAILURE_BACKOFF_MULTIPLIER,
        interval <= MAX_DURATION ==> retry_nanos(interval, streak) >= interval,
{
    assert(backoff(streak) == 1 || backoff(streak) == 2 || backoff(streak) == 4 || backoff(streak) == 8);
}

/// Next state of the jitter generator.
pub open spec fn jitter_step(state: u64) -> u64 {
    state.wrapping_add(0x9e37_79b9_7f4a_7c15)
}

/// Pseudorandom value of a state of the jitter generator.
pub open spec fn jitter_value(state: u64) -> u64 {
    let first = (state ^ (state >> 30)).wrapping_mul(0xbf58_476d_1ce4_e5b9);
    let second = (first ^ (first >> 27)).wrapping_mul(0x94d0_49bb_1331_11eb);
    second ^ (second >> 31)
}

/// Delay that a state of the jitter generator gives within a limit.
pub open spec fn jitter_delay(state: u64, limit: u128) -> int {
    if limit >= u64::MAX {
        jitter_value(state) as int % u64::MAX as int
    } else {
        jitter_value(state) as int % (limit + 1)
    }
}

/// Seed for a process that starts at this moment: both halves of the moment,
/// folded onto each other, and the number of the process.
pub open spec fn folded_seed(nanos: u128, process: u32) -> u64 {
    ((nanos / 0x1_0000_0000_0000_0000) as u64) ^ ((nanos % 0x1_0000_0000_0000_0000) as u64) ^ (
    process as u64)
}

/// Seed for a process that starts at this moment, in nanoseconds since 1970.
pub fn process_jitter_seed(nanos: u128, process: u32) -> (seed: u64)
    ensures
        seed == folded_seed(nanos, process),
{
    let upper: u64 = (nanos / 0x1_0000_0000_0000_0000) as u64;
    let lower: u64 = (nanos % 0x1_0000_0000_0000_0000) as u64;
    upper ^ lower ^ (process as u64)
}

/// Deterministic spreading of schedules.
pub struct Jitter {
    state: u64,
}

impl View for Jitter {
    type V = u64;

    closed spec fn view(&self) -> u64 {
        self.state
    }
}

impl Jitter {
    /// Starts from a seed.
    pub fn new(seed: u64) -> (jitter: Self)
        ensures
            jitter@ == seed,
    {
        Jitter { state: seed }
    }

    /// Next delay, at most the limit.
    pub fn next(&mut self, limit: u128) -> (delay: u128)
        ensures
            delay <= limit,
            limit == 0 ==> delay == 0 && final(self)@ == old(self)@,
            limit > 0 ==> {
                &&& final(self)@ == jitter_step(old(self)@)
                &&& delay == jitter_delay(final(self)@, limit)
            },
    {
        if limit == 0 {
            return 0;
        }
        self.state = self.state.wrapping_add(0x9e37_79b9_7f4a_7c15);
        let mut value: u64 = self.state;
        value = (value ^ (value >> 30)).wrapping_mul(0xbf58_476d_1ce4_e5b9);
        value = (value ^ (value >> 27)).wrapping_mul(0x94d0_49bb_1331_11eb);
        value = value ^ (value >> 31);
        let limit_nanos: u64 = if limit > u64::MAX as u128 {
            u64::MAX
        } else {
            limit as u64
        };
        let nanos: u64 = value % limit_nanos.saturating_add(1);
        nanos as u128
    }
}

/// Sum of two durations, as far as it can be represented.
pub open spec fn duration_sum(a: int, b: int) -> int {
    if a + b > MAX_DURATION {
        MAX_DURATION as int
    } else {
        a + b
    }
}

/// Disposition of one completed-command signal.
#[derive(Clone, Copy, Debug, PartialEq, Eq, Structural)]
pub enum CompletedCommandAdmission {
    /// The next worker pass will consider a notification claim.
    Queued,
    /// A prior unprocessed command signal already permits the same work.
    Coalesced,
    /// The command-generation counter cannot advance safely.
    CounterExhausted,
    /// The worker is shutting down or has exited.
    Closed,
}

/// Disposition of one coalescing selected-mode persistence request.
#[derive(Clone, Copy, Debug, PartialEq, Eq, Structural)]
pub enum ModePersistenceAdmission {
    /// The mode became the pending state write.
    Queued,
    /// An older pending mode was replaced before it reached disk.
    Coalesced,
    /// The worker is shutting down or has exited.
    Closed,
}

/// Failure to start an automatic-update worker.
#[derive(Clone, Copy, Debug, PartialEq, Eq, Structural)]
pub enum RuntimeUpdateStartError {
    /// Resolved updater settings could not build a bounded policy.
    InvalidConfiguration(AutomaticUpdaterError),
    /// The operating system rejected the background thread.
    Thread(IoKind),
}

impl RuntimeUpdateStartError {
    /// Text of [`Self::message`].
    pub open spec fn text(self) -> Seq<char> {
        match self {
            RuntimeUpdateStartError::InvalidConfiguration(error) => error.text(),
            RuntimeUpdateStartError::Thread(kind) => "automatic update worker could not start: "@
                + kind.text(),
        }
    }

    /// Human-readable description.
    pub fn message(&self) -> (message: String)
        ensures
            message@ == self.text(),
    {
        match *self {
            RuntimeUpdateStartError::InvalidConfiguration(error) => error.message(),
            RuntimeUpdateStartError::Thread(kind) => {
                let mut message = "automatic update worker could not start: ".to_owned();
                message.append(kind.name());
                message
            },
        }
    }
}

/// A durably claimed, command-boundary-safe update notice.
pub struct UpdateNotification {
    version: String,
}

impl View for UpdateNotification {
    type V = Seq<char>;

    closed spec fn view(&self) -> Seq<char> {
        self.version@
    }
}

impl UpdateNotification {
    /// Available semantic version without a tag prefix.
    pub fn version(&self) -> (version: &str)
        ensures
            version@ == self@,
    {
        self.version.as_str()
    }

    /// Notice to show.
    pub fn message(&self) -> (message: String)
        ensures
            message@ == "argmax "@ + self@ + " is available; run `argmax update`"@,
    {
        let mut message = "argmax ".to_owned();
        message.append(self.version.as_str());
        message.append(" is available; run `argmax update`");
        message
    }

    /// Diagnostic summary, which shows the size of the version.
    pub fn debug_text(&self) -> (summary: String)
        ensures
            summary@ == "UpdateNotification { version_bytes: "@ + decimal_chars(
                vstd::utf8::encode_utf8(self@).len(),
            ) + " }"@,
    {
        let mut summary = "UpdateNotification { version_bytes: ".to_owned();
        append_number(&mut summary, text_len(self.version.as_str()) as u128);
        summary.append(" }");
        summary
    }
}

/// Non-sensitive automatic-update worker health counters.
#[derive(Clone, Copy, Debug, PartialEq, Eq, Structural)]
pub struct RuntimeUpdateStatus {
    /// Whether the worker has not exited.
    pub alive: bool,
    /// Whether current settings permit automatic network checks.
    pub enabled: bool,
    /// Whether release metadata is currently being fetched.
    pub check_in_flight: bool,
    /// Number of release requests completed in this session.
    pub checks_completed: u64,
    /// Number of silent release transport or metadata failures.
    pub network_failures: u64,
    /// Number of silent runtime-state load or persistence failures.
    pub persistence_failures: u64,
}

/// Immutable inputs for one session-local automatic-update worker.
pub struct RuntimeUpdateOptions {
    current_version: String,
    settings: Updater,
    shared_settings: bool,
    state_store: RuntimeStateStore,
    jitter_seed: u64,
    startup_jitter_limit: u128,
}

/// Worker options as a value.
#[verifier::ext_equal]
pub struct OptionsView {
    pub current_version: Seq<char>,
    pub settings: Updater,
    pub shared_settings: bool,
    pub state_store: StatePathsView,
    pub jitter_seed: u64,
    pub startup_jitter_limit: u128,
}

impl View for RuntimeUpdateOptions {
    type V = OptionsView;

    closed spec fn view(&self) -> OptionsView {
        OptionsView {
            current_version: self.current_version@,
            settings: self.settings,
            shared_settings: self.shared_settings,
            state_store: self.state_store@,
            jitter_seed: self.jitter_seed,
            startup_jitter_limit: self.startup_jitter_limit,
        }
    }
}

impl RuntimeUpdateOptions {
    /// Creates explicit worker options.
    pub fn new(
        current_version: String,
        settings: Updater,
        state_store: RuntimeStateStore,
        jitter_seed: u64,
    ) -> (options: Self)
        ensures
            options@ == (OptionsView {
                current_version: current_version@,
                settings,
                shared_settings: false,
                state_store: state_store@,
                jitter_seed,
                startup_jitter_limit: MAX_STARTUP_JITTER,
            }),
    {
        RuntimeUpdateOptions {
            current_version,
            settings,
            shared_settings: false,
            state_store,
            jitter_seed,
            startup_jitter_limit: MAX_STARTUP_JITTER,
        }
    }

    /// Uses the runtime-state store below the user's directories and the
    /// embedded build version.
    pub fn discover(
        settings: Updater,
        directories: Option<StateDirectories>,
        jitter_seed: u64,
    ) -> (result: Result<Self, StateStoreError>)
        ensures
            match directories {
                Some(directories) => result matches Ok(options) && options@ == (OptionsView {
                    current_version: RUNNING_VERSION@,
                    settings,
                    shared_settings: false,
                    state_store: discovered_paths(directories),
                    jitter_seed,
                    startup_jitter_limit: MAX_STARTUP_JITTER,
                }),
                None => result matches Err(error) && error is NoPlatformDirectory,
            },
    {
        match RuntimeStateStore::discover(directories) {
            Ok(store) => Ok(
                RuntimeUpdateOptions::new(RUNNING_VERSION.to_owned(), settings, store, jitter_seed),
            ),
            Err(error) => Err(error),
        }
    }

    /// Observes atomically published configuration generations.
    pub fn with_shared_settings(self) -> (options: Self)
        ensures
            options@ == (OptionsView { shared_settings: true, ..self@ }),
    {
        RuntimeUpdateOptions { shared_settings: true, ..self }
    }

    /// Limits the jitter of the first check.
    pub fn with_startup_jitter_limit(self, limit: u128) -> (options: Self)
        ensures
            options@ == (OptionsView { startup_jitter_limit: limit, ..self@ }),
    {
        RuntimeUpdateOptions { startup_jitter_limit: limit, ..self }
    }

    /// Version of this build.
    pub fn current_version(&self) -> (version: &str)
        ensures
            version@ == self@.current_version,
    {
        self.current_version.as_str()
    }

    /// Store in which checks are reserved.
    pub fn state_store(&self) -> (store: &RuntimeStateStore)
        ensures
            store@ == self@.state_store,
    {
        &self.state_store
    }

    /// Diagnostic summary, which shows no path and no version. Where releases come
    /// from is not for these options to say: the source is named, and no more.
    pub fn debug_text(&self) -> (summary: String)
        ensures
            summary@ == "RuntimeUpdateOptions { current_version_bytes: "@ + decimal_chars(
                vstd::utf8::encode_utf8(self@.current_version).len(),
            ) + ", settings: "@ + self@.settings.debug_chars() + ", has_shared_settings: "@ + bool_chars(
                self@.shared_settings,
            ) + ", state_store: "@ + ("RuntimeStateStore { paths: "@ + paths_debug_chars(
                self@.state_store,
            ) + " }"@) + ", source: ReleaseSource { .. }, .. }"@,
    {
        let mut summary = "RuntimeUpdateOptions { current_version_bytes: ".to_owned();
        append_number(&mut summary, text_len(self.current_version.as_str()) as u128);
        summary.append(", settings: ");
        summary.append(self.settings.debug_text().as_str());
        summary.append(", has_shared_settings: ");
        summary.append(bool_text(self.shared_settings));
        summary.append(", state_store: ");
        summary.append(self.state_store.debug_text().as_str());
        summary.append(", source: ReleaseSource { .. }, .. }");
        summary
    }
}

/// What a session and its worker share, as a value.
#[verifier::ext_equal]
pub struct SharedView {
    /// Completed commands signalled so far.
    pub command_generation: u64,
    /// Completed commands that the worker has considered.
    pub consumed_generation: u64,
    /// Settings to apply.
    pub pending_settings: Option<Updater>,
    /// Mode to store.
    pub pending_mode: Option<LastMode>,
    /// Whether the worker has to stop.
    pub shutdown: bool,
    /// Versions to announce.
    pub notices: Seq<Seq<char>>,
    /// Health and counters.
    pub status: RuntimeUpdateStatus,
}

/// Notices as versions.
pub open spec fn notice_views(notices: Seq<UpdateNotification>) -> Seq<Seq<char>> {
    Seq::new(notices.len(), |i: int| notices[i]@)
}

/// The mode to store for a session's mode.
pub open spec fn stored_mode(mode: SessionMode) -> LastMode {
    match mode {
        SessionMode::Spec => LastMode::Spec,
        SessionMode::History => LastMode::History,
    }
}

impl SharedView {
    /// State before any signal.
    pub open spec fn fresh(settings: Updater) -> Self {
        SharedView {
            command_generation: 0,
            consumed_generation: 0,
            pending_settings: None,
            pending_mode: None,
            shutdown: false,
            notices: Seq::empty(),
            status: RuntimeUpdateStatus {
                alive: true,
                enabled: settings.check_on_startup,
                check_in_flight: false,
                checks_completed: 0,
                network_failures: 0,
                persistence_failures: 0,
            },
        }
    }

    /// Usable settings, and no more notices than may wait.
    pub open spec fn inv(self) -> bool {
        &&& self.pending_settings matches Some(settings) ==> settings.check_interval > 0
        &&& self.notices.len() <= MAX_PENDING_NOTICES
        &&& self.consumed_generation <= self.command_generation
    }

    /// Whether no signal is taken any more.
    pub open spec fn closed(self) -> bool {
        !self.status.alive || self.shutdown
    }

    /// Whether the worker has something to do before any check is due.
    pub open spec fn has_work(self) -> bool {
        self.shutdown || self.pending_settings is Some || self.pending_mode is Some
            || self.command_generation > self.consumed_generation
    }

    /// No completed command is left to consider.
    pub open spec fn consumed(self) -> Self {
        SharedView { consumed_generation: self.command_generation, ..self }
    }

    /// One more state failure is counted; the counter wraps.
    pub open spec fn persistence_failed(self) -> Self {
        SharedView {
            status: RuntimeUpdateStatus {
                persistence_failures: self.status.persistence_failures.wrapping_add(1),
                ..self.status
            },
            ..self
        }
    }
}

/// Session-local coordinator for background automatic update checks: what the
/// session and its worker share.
pub struct RuntimeUpdateWorker {
    command_generation: u64,
    consumed_command_generation: u64,
    pending_settings: Option<Updater>,
    pending_mode: Option<LastMode>,
    shutdown: bool,
    notices: Vec<UpdateNotification>,
    status: RuntimeUpdateStatus,
}

impl View for RuntimeUpdateWorker {
    type V = SharedView;

    closed spec fn view(&self) -> SharedView {
        SharedView {
            command_generation: self.command_generation,
            consumed_generation: self.consumed_command_generation,
            pending_settings: self.pending_settings,
            pending_mode: self.pending_mode,
            shutdown: self.shutdown,
            notices: notice_views(self.notices@),
            status: self.status,
        }
    }
}

impl RuntimeUpdateStatus {
    /// Diagnostic summary of whoever has this status.
    pub open spec fn debug_chars(self) -> Seq<char> {
            "RuntimeUpdateWorker { status: RuntimeUpdateStatus { alive: "@ + bool_chars(self.alive) + ", enabled: "@ + bool_chars(self.enabled) + ", check_in_flight: "@ + bool_chars(self.check_in_flight) + ", checks_completed: "@ + decimal_chars(self.checks_completed as nat) + ", network_failures: "@ + decimal_chars(self.network_failures as nat) + ", persistence_failures: "@ + decimal_chars(self.persistence_failures as nat) + " }, .. }"@
    }

    fn owner_text(&self) -> (summary: String)
        ensures
            summary@ == self.debug_chars(),
    {
        let mut summary = "RuntimeUpdateWorker { status: RuntimeUpdateStatus { alive: ".to_owned();
        summary.append(bool_text(self.alive));
        summary.append(", enabled: ");
        summary.append(bool_text(self.enabled));
        summary.append(", check_in_flight: ");
        summary.append(bool_text(self.check_in_flight));
        summary.append(", checks_completed: ");
        append_number(&mut summary, self.checks_completed as u128);
        summary.append(", network_failures: ");
        append_number(&mut summary, self.network_failures as u128);
        summary.append(", persistence_failures: ");
        append_number(&mut summary, self.persistence_failures as u128);
        summary.append(" }, .. }");
        summary
    }
}

impl RuntimeUpdateWorker {
    /// Prepares the coordinator; nothing is loaded and the network is not used.
    pub fn spawn(options: &RuntimeUpdateOptions) -> (result: Result<Self, RuntimeUpdateStartError>)
        ensures
            match result {
                Ok(shared) => {
                    &&& options@.settings.check_interval > 0
                    &&& shared@ == SharedView::fresh(options@.settings)
                    &&& shared@.inv()
                },
                Err(error) => options@.settings.check_interval == 0 && error
                    == RuntimeUpdateStartError::InvalidConfiguration(
                    AutomaticUpdaterError::ZeroInterval,
                ),
            },
    {
        if options.settings.check_interval == 0 {
            return Err(
                RuntimeUpdateStartError::InvalidConfiguration(AutomaticUpdaterError::ZeroInterval),
            );
        }
        let status = RuntimeUpdateStatus {
            alive: true,
            enabled: options.settings.check_on_startup,
            check_in_flight: false,
            checks_completed: 0,
            network_failures: 0,
            persistence_failures: 0,
        };
        let notices: Vec<UpdateNotification> = Vec::new();
        assert(notice_views(notices@) =~= Seq::<Seq<char>>::empty());
        Ok(
            RuntimeUpdateWorker {
                command_generation: 0,
                consumed_command_generation: 0,
                pending_settings: None,
                pending_mode: None,
                shutdown: false,
                notices,
                status,
            },
        )
    }

    /// Coalesces one completed-command boundary for notification delivery.
    pub fn completed_command(&mut self) -> (admission: CompletedCommandAdmission)
        ensures
            old(self)@.inv() ==> final(self)@.inv(),
            ({
                let before = old(self)@;
                if before.closed() {
                    admission is Closed && final(self)@ == before
                } else if before.command_generation == u64::MAX {
                    admission is CounterExhausted && final(self)@ == before
                } else {
                    &&& final(self)@ == (SharedView {
                        command_generation: (before.command_generation + 1) as u64,
                        ..before
                    })
                    &&& admission == if before.command_generation > before.consumed_generation {
                        CompletedCommandAdmission::Coalesced
                    } else {
                        CompletedCommandAdmission::Queued
                    }
                }
            }),
    {
        if !self.status.alive || self.shutdown {
            return CompletedCommandAdmission::Closed;
        }
        let coalesced: bool = self.command_generation > self.consumed_command_generation;
        match self.command_generation.checked_add(1) {
            None => CompletedCommandAdmission::CounterExhausted,
            Some(next) => {
                self.command_generation = next;
                if coalesced {
                    CompletedCommandAdmission::Coalesced
                } else {
                    CompletedCommandAdmission::Queued
                }
            },
        }
    }

    /// Coalesces persistence of the session's most recently selected mode.
    pub fn record_mode(&mut self, mode: SessionMode) -> (admission: ModePersistenceAdmission)
        ensures
            old(self)@.inv() ==> final(self)@.inv(),
            ({
                let before = old(self)@;
                if before.closed() {
                    admission is Closed && final(self)@ == before
                } else {
                    &&& final(self)@ == (SharedView { pending_mode: Some(stored_mode(mode)), ..before })
                    &&& admission == if before.pending_mode is Some {
                        ModePersistenceAdmission::Coalesced
                    } else {
                        ModePersistenceAdmission::Queued
                    }
                }
            }),
    {
        if !self.status.alive || self.shutdown {
            return ModePersistenceAdmission::Closed;
        }
        let coalesced: bool = self.pending_mode.is_some();
        self.pending_mode = Some(
            match mode {
                SessionMode::Spec => LastMode::Spec,
                SessionMode::History => LastMode::History,
            },
        );
        if coalesced {
            ModePersistenceAdmission::Coalesced
        } else {
            ModePersistenceAdmission::Queued
        }
    }

    /// Takes updater settings for the worker's next pass. The latest pending
    /// replacement wins. Says whether the worker will see them.
    pub fn reconfigure(&mut self, settings: Updater) -> (accepted: bool)
        requires
            settings.check_interval > 0,
        ensures
            old(self)@.inv() ==> final(self)@.inv(),
            accepted == !old(self)@.closed(),
            final(self)@ == if accepted {
                SharedView { pending_settings: Some(settings), ..old(self)@ }
            } else {
                old(self)@
            },
    {
        if !self.status.alive || self.shutdown {
            return false;
        }
        self.pending_settings = Some(settings);
        true
    }

    /// Takes the oldest notice that was already claimed in stored state.
    pub fn take_notification(&mut self) -> (notice: Option<UpdateNotification>)
        ensures
            old(self)@.inv() ==> final(self)@.inv(),
            match notice {
                Some(notice) => {
                    &&& old(self)@.notices.len() > 0
                    &&& notice@ == old(self)@.notices[0]
                    &&& final(self)@ == (SharedView {
                        notices: old(self)@.notices.drop_first(),
                        ..old(self)@
                    })
                },
                None => old(self)@.notices.len() == 0 && final(self)@ == old(self)@,
            },
    {
        if self.notices.len() == 0 {
            return None;
        }
        let ghost before = self.notices@;
        let notice = self.notices.remove(0);
        assert(notice_views(self.notices@) =~= notice_views(before).drop_first());
        Some(notice)
    }

    /// Worker health and failure counters.
    pub fn status(&self) -> (status: RuntimeUpdateStatus)
        ensures
            status == self@.status,
    {
        self.status
    }

    /// Diagnostic summary, which shows health and counters alone.
    pub fn debug_text(&self) -> (summary: String)
        ensures
            summary@ == self@.status.debug_chars(),
    {
        self.status.owner_text()
    }

    /// Asks the worker to stop; what it has not begun is dropped.
    pub fn shut_down(&mut self)
        ensures
            old(self)@.inv() ==> final(self)@.inv(),
            final(self)@ == (SharedView {
                shutdown: true,
                pending_settings: None,
                pending_mode: None,
                ..old(self)@
            }),
    {
        self.shutdown = true;
        self.pending_settings = None;
        self.pending_mode = None;
    }

    /// Notes that the worker has exited.
    pub fn exited(&mut self)
        ensures
            old(self)@.inv() ==> final(self)@.inv(),
            final(self)@ == (SharedView {
                status: RuntimeUpdateStatus { alive: false, ..old(self)@.status },
                ..old(self)@
            }),
    {
        self.status = RuntimeUpdateStatus { alive: false, ..self.status };
    }

    /// Whether the worker has something to do before any check is due.
    pub fn has_work(&self) -> (work: bool)
        ensures
            work == self@.has_work(),
    {
        self.shutdown || self.pending_settings.is_some() || self.pending_mode.is_some()
            || self.command_generation > self.consumed_command_generation
    }

    fn discard_completed_commands(&mut self)
        ensures
            final(self)@ == old(self)@.consumed(),
    {
        self.consumed_command_generation = self.command_generation;
    }

    fn count_persistence_failure(&mut self)
        ensures
            final(self)@ == old(self)@.persistence_failed(),
    {
        self.status = RuntimeUpdateStatus {
            persistence_failures: self.status.persistence_failures.wrapping_add(1),
            ..self.status
        };
    }

    /// Counts a mode or a completed check that could not be stored.
    pub fn note_stored(&mut self, stored: Result<(), StateStoreError>)
        ensures
            old(self)@.inv() ==> final(self)@.inv(),
            final(self)@ == if stored is Err {
                old(self)@.persistence_failed()
            } else {
                old(self)@
            },
    {
        if stored.is_err() {
            self.count_persistence_failure();
        }
    }
}

/// What the worker does in one pass, in this order.
#[derive(Clone, Copy, Debug, PartialEq, Eq, Structural)]
pub enum WorkerPhase {
    /// Applies settings.
    Settings,
    /// Stores the mode.
    Mode,
    /// Considers completed commands.
    Command,
    /// Checks for a release.
    Check,
    /// Waits.
    Rest,
}

/// Worker state as a value.
#[verifier::ext_equal]
pub struct WorkerView {
    /// Policy, with the settings in force.
    pub policy: PolicyView,
    /// Failures in a row.
    pub failure_streak: u32,
    /// State of the jitter generator.
    pub jitter: u64,
    /// When to check next.
    pub next_attempt: Option<u128>,
    /// Limit of the jitter of a first check.
    pub startup_jitter_limit: u128,
    /// Whether this session has announced a release.
    pub notice_emitted: bool,
    /// Generation of the shared settings that was seen last.
    pub shared_generation: Option<u64>,
    /// Whether settings are shared at all.
    pub shared_settings: bool,
    /// Where the current pass stands.
    pub phase: WorkerPhase,
}

/// State of the jitter generator after a delay within this limit.
pub open spec fn jitter_after(state: u64, limit: int) -> u64 {
    if limit == 0 {
        state
    } else {
        jitter_step(state)
    }
}

/// Delay within this limit.
pub open spec fn jitter_next(state: u64, limit: int) -> int {
    if limit == 0 {
        0
    } else {
        jitter_delay(jitter_step(state), limit as u128)
    }
}

/// Moment so much later, where the clock has it.
pub open spec fn moment_after(now: u128, delay: int) -> Option<u128> {
    if now + delay > u128::MAX {
        None
    } else {
        Some((now + delay) as u128)
    }
}

impl WorkerView {
    /// Valid policy.
    pub open spec fn inv(self) -> bool {
        self.policy.inv()
    }

    /// First check under new settings.
    pub open spec fn starting(self, now: u128) -> Self {
        if self.policy.settings.check_on_startup {
            WorkerView {
                jitter: jitter_after(self.jitter, self.startup_jitter_limit as int),
                next_attempt: moment_after(
                    now,
                    jitter_next(self.jitter, self.startup_jitter_limit as int),
                ),
                ..self
            }
        } else {
            WorkerView { next_attempt: None, ..self }
        }
    }

    /// Limit of the jitter of a periodic check.
    pub open spec fn periodic_limit(delay: int) -> int {
        if delay / 10 < MAX_PERIODIC_JITTER {
            delay / 10
        } else {
            MAX_PERIODIC_JITTER as int
        }
    }

    /// Next check after this delay and some jitter.
    pub open spec fn scheduled(self, delay: int, now: u128) -> Self {
        let limit = WorkerView::periodic_limit(delay);
        WorkerView {
            jitter: jitter_after(self.jitter, limit),
            next_attempt: moment_after(now, duration_sum(delay, jitter_next(self.jitter, limit))),
            ..self
        }
    }

    /// One more failure in a row.
    pub open spec fn failed(self, now: u128) -> Self {
        let streak = if self.failure_streak == u32::MAX {
            u32::MAX
        } else {
            (self.failure_streak + 1) as u32
        };
        WorkerView { failure_streak: streak, ..self }.scheduled(
            retry_nanos(self.policy.settings.check_interval, streak),
            now,
        )
    }

    /// Schedule after no check was reserved.
    pub open spec fn unreserved(
        self,
        decision: CheckReservationDecision,
        now_ms: u64,
        now: u128,
    ) -> Self {
        if decision is Disabled || decision is SessionNoticeComplete || decision is TokenExhausted {
            WorkerView { next_attempt: None, ..self }
        } else {
            self.scheduled(
                remaining_nanos(self.policy.state, self.policy.settings.check_interval, now_ms),
                now,
            )
        }
    }

    /// Worker under other settings, given what is stored.
    pub open spec fn reconfigured(self, settings: Updater, stored: UpdateView, now: u128) -> Self {
        WorkerView {
            policy: fresh_policy(self.policy.current, settings, stored),
            failure_streak: 0,
            ..self
        }.starting(now)
    }
}

/// Stored updater state, or defaults where none could be loaded.
pub open spec fn loaded_updater(loaded: Result<LoadedState, StateStoreError>) -> UpdateView {
    match loaded {
        Ok(loaded) => loaded.state@.updater,
        Err(_) => UpdateView::fresh(),
    }
}

/// Shared state after updater state was loaded, or could not be.
pub open spec fn load_noted(shared: SharedView, loaded: Result<LoadedState, StateStoreError>) -> SharedView {
    if loaded is Err {
        shared.persistence_failed()
    } else {
        shared
    }
}

/// Worker at the start of a session, given what is stored.
pub open spec fn fresh_worker(options: OptionsView, stored: UpdateView, now: u128) -> WorkerView {
    (WorkerView {
        policy: fresh_policy(options.current_version, options.settings, stored),
        failure_streak: 0,
        jitter: options.jitter_seed,
        next_attempt: None,
        startup_jitter_limit: options.startup_jitter_limit,
        notice_emitted: false,
        shared_generation: None,
        shared_settings: options.shared_settings,
        phase: WorkerPhase::Settings,
    }).starting(now)
}

/// What the caller has to do for the worker.
#[derive(Clone, Copy, Debug, PartialEq, Eq, Structural)]
pub enum WorkerAction {
    /// Exit.
    Stop,
    /// Load stored state and apply these settings.
    Apply(Updater),
    /// Store this mode.
    PersistMode(LastMode),
    /// Load stored state and consider an announcement.
    Claim,
    /// Load stored state and consider a check.
    Check,
    /// Wait for a signal, and no longer than this where it says so.
    Wait(Option<u128>),
}

/// Outcome of one step of a pass: the worker, the shared state, and what to do;
/// none where the pass goes on.
pub type Step = (WorkerView, SharedView, Option<WorkerAction>);

impl WorkerView {
    /// Settings first: those of a new shared generation, then pending ones.
    pub open spec fn at_settings(self, shared: SharedView, snapshot: Option<(u64, Updater)>) -> Step {
        let seen = match snapshot {
            Some((generation, _)) => WorkerView { shared_generation: Some(generation), ..self },
            None => self,
        };
        let observed = match snapshot {
            Some((generation, settings)) => if self.shared_generation != Some(generation) && settings
                != self.policy.settings {
                Some(settings)
            } else {
                None
            },
            None => None,
        };
        if observed is Some {
            (seen, shared, Some(WorkerAction::Apply(observed->0)))
        } else {
            let taken = SharedView { pending_settings: None, ..shared };
            if shared.pending_settings matches Some(settings) && settings != self.policy.settings {
                (seen, taken, Some(WorkerAction::Apply(shared.pending_settings->0)))
            } else if shared.shutdown {
                (seen, taken, Some(WorkerAction::Stop))
            } else {
                (WorkerView { phase: WorkerPhase::Mode, ..seen }, taken, None)
            }
        }
    }

    /// Then the mode.
    pub open spec fn at_mode(self, shared: SharedView) -> Step {
        let next = WorkerView { phase: WorkerPhase::Command, ..self };
        match shared.pending_mode {
            Some(mode) => (
                next,
                SharedView { pending_mode: None, ..shared },
                Some(WorkerAction::PersistMode(mode)),
            ),
            None => (next, shared, None),
        }
    }

    /// Then completed commands.
    pub open spec fn at_command(self, shared: SharedView) -> Step {
        let next = WorkerView { phase: WorkerPhase::Check, ..self };
        if shared.command_generation != shared.consumed_generation {
            (next, shared.consumed(), Some(WorkerAction::Claim))
        } else {
            (next, shared, None)
        }
    }

    /// Then a check, where one is due.
    pub open spec fn at_check(self, shared: SharedView, now: u128) -> Step {
        let next = WorkerView { phase: WorkerPhase::Rest, ..self };
        if self.next_attempt matches Some(due) && now >= due {
            (next, shared, Some(WorkerAction::Check))
        } else {
            (next, shared, None)
        }
    }

    /// How long to wait at most.
    pub open spec fn timeout(self, now: u128) -> Option<u128> {
        let until_check = match self.next_attempt {
            Some(due) => Some(
                if due < now {
                    0u128
                } else {
                    (due - now) as u128
                },
            ),
            None => None,
        };
        if self.shared_settings && !(until_check matches Some(delay) && delay < SETTINGS_POLL_INTERVAL) {
            Some(SETTINGS_POLL_INTERVAL)
        } else {
            until_check
        }
    }

    /// Last a rest, unless something came up.
    pub open spec fn at_rest(self, shared: SharedView, now: u128) -> Step {
        if shared.shutdown {
            (self, shared, Some(WorkerAction::Stop))
        } else {
            (
                WorkerView { phase: WorkerPhase::Settings, ..self },
                shared,
                if shared.has_work() {
                    None
                } else {
                    Some(WorkerAction::Wait(self.timeout(now)))
                },
            )
        }
    }

    /// One step of a pass.
    pub open spec fn step(self, shared: SharedView, snapshot: Option<(u64, Updater)>, now: u128) -> Step {
        match self.phase {
            WorkerPhase::Settings => self.at_settings(shared, snapshot),
            WorkerPhase::Mode => self.at_mode(shared),
            WorkerPhase::Command => self.at_command(shared),
            WorkerPhase::Check => self.at_check(shared, now),
            WorkerPhase::Rest => self.at_rest(shared, now),
        }
    }
}

/// The worker's own state.
pub struct Worker {
    policy: AutomaticUpdater,
    failure_streak: u32,
    jitter: Jitter,
    next_attempt: Option<u128>,
    startup_jitter_limit: u128,
    notice_emitted: bool,
    shared_generation: Option<u64>,
    shared_settings: bool,
    phase: WorkerPhase,
}

impl View for Worker {
    type V = WorkerView;

    closed spec fn view(&self) -> WorkerView {
        WorkerView {
            policy: self.policy@,
            failure_streak: self.failure_streak,
            jitter: self.jitter@,
            next_attempt: self.next_attempt,
            startup_jitter_limit: self.startup_jitter_limit,
            notice_emitted: self.notice_emitted,
            shared_generation: self.shared_generation,
            shared_settings: self.shared_settings,
            phase: self.phase,
        }
    }
}

/// What a check does next.
pub enum CheckAction {
    /// Nothing; the next check is scheduled.
    Wait,
    /// Store `proposed` if `expected` is still stored, then confirm the token.
    Reserve {
        /// Token to confirm.
        token: u64,
        /// State that must still be stored.
        expected: UpdateState,
        /// State to store.
        proposed: UpdateState,
    },
}

/// What a claim does next.
pub enum ClaimAction {
    /// Nothing.
    Nothing,
    /// Store `proposed` if `expected` is still stored, then confirm the token.
    Store {
        /// Token to confirm.
        token: u64,
        /// State that must still be stored.
        expected: UpdateState,
        /// State to store.
        proposed: UpdateState,
    },
}

/// How storing a proposal went, for the policy.
pub open spec fn persistence_of(stored: Result<UpdateStoreOutcome, StateStoreError>) -> ProposalPersistence {
    match stored {
        Ok(UpdateStoreOutcome::Persisted(_)) => ProposalPersistence::Persisted,
        Ok(UpdateStoreOutcome::Superseded(winner)) => ProposalPersistence::Superseded(winner),
        Err(_) => ProposalPersistence::Failed,
    }
}

fn persistence_outcome(stored: Result<UpdateStoreOutcome, StateStoreError>) -> (persistence:
    ProposalPersistence)
    ensures
        persistence == persistence_of(stored),
{
    match stored {
        Ok(UpdateStoreOutcome::Persisted(_)) => ProposalPersistence::Persisted,
        Ok(UpdateStoreOutcome::Superseded(winner)) => ProposalPersistence::Superseded(winner),
        Err(_) => ProposalPersistence::Failed,
    }
}

fn delayed(now: u128, delay: u128) -> (moment: Option<u128>)
    ensures
        moment == moment_after(now, delay as int),
{
    now.checked_add(delay)
}

fn load_updater_state(loaded: Result<LoadedState, StateStoreError>, shared: &mut RuntimeUpdateWorker) -> (state:
    UpdateState)
    ensures
        state@ == loaded_updater(loaded),
        final(shared)@ == load_noted(old(shared)@, loaded),
{
    match loaded {
        Ok(loaded) => loaded.state.updater().clone(),
        Err(_) => {
            shared.count_persistence_failure();
            UpdateState::default()
        },
    }
}

impl Worker {
    /// Starts the worker, given what is stored.
    pub fn new(
        options: RuntimeUpdateOptions,
        shared: &mut RuntimeUpdateWorker,
        loaded: Result<LoadedState, StateStoreError>,
        now: u128,
    ) -> (worker: Option<Self>)
        ensures
            match worker {
                Some(worker) => {
                    &&& options@.settings.check_interval > 0
                    &&& worker@ == fresh_worker(options@, loaded_updater(loaded), now)
                    &&& worker@.inv()
                },
                None => options@.settings.check_interval == 0,
            },
            final(shared)@ == load_noted(old(shared)@, loaded),
    {
        let state = load_updater_state(loaded, shared);
        let enabled: bool = options.settings.check_on_startup;
        match AutomaticUpdater::new(options.current_version.as_str(), options.settings, state) {
            Err(_) => None,
            Ok(policy) => {
                let mut worker = Worker {
                    policy,
                    failure_streak: 0,
                    jitter: Jitter::new(options.jitter_seed),
                    next_attempt: None,
                    startup_jitter_limit: options.startup_jitter_limit,
                    notice_emitted: false,
                    shared_generation: None,
                    shared_settings: options.shared_settings,
                    phase: WorkerPhase::Settings,
                };
                worker.schedule_start(now);
                Some(worker)
            },
        }
    }

    fn schedule_start(&mut self, now: u128)
        requires
            old(self)@.inv(),
        ensures
            final(self)@.inv(),
            final(self)@ == old(self)@.starting(now),
    {
        if self.policy.settings().check_on_startup {
            let limit: u128 = self.startup_jitter_limit;
            let delay: u128 = self.jitter.next(limit);
            self.next_attempt = delayed(now, delay);
        } else {
            self.next_attempt = None;
        }
    }

    fn schedule_periodic(&mut self, delay: u128, now: u128)
        requires
            old(self)@.inv(),
        ensures
            final(self)@.inv(),
            final(self)@ == old(self)@.scheduled(delay as int, now),
    {
        let tenth: u128 = delay / 10;
        let limit: u128 = if tenth < MAX_PERIODIC_JITTER {
            tenth
        } else {
            MAX_PERIODIC_JITTER
        };
        let jitter: u128 = self.jitter.next(limit);
        let total: u128 = if delay > MAX_DURATION || jitter > MAX_DURATION - delay {
            MAX_DURATION
        } else {
            delay + jitter
        };
        self.next_attempt = delayed(now, total);
    }

    fn record_failure(&mut self, now: u128)
        requires
            old(self)@.inv(),
        ensures
            final(self)@.inv(),
            final(self)@ == old(self)@.failed(now),
    {
        self.failure_streak = self.failure_streak.saturating_add(1);
        let delay: u128 = retry_delay(self.policy.settings().check_interval, self.failure_streak);
        self.schedule_periodic(delay, now);
    }

    /// Applies other settings, given what is stored: a new policy starts, and
    /// commands completed before do not count for it.
    pub fn apply_settings(
        &mut self,
        shared: &mut RuntimeUpdateWorker,
        settings: Updater,
        loaded: Result<LoadedState, StateStoreError>,
        now: u128,
    )
        requires
            old(self)@.inv(),
            settings.check_interval > 0,
        ensures
            old(shared)@.inv() ==> final(shared)@.inv(),
            final(self)@.inv(),
            if settings == old(self)@.policy.settings {
                final(self)@ == old(self)@ && final(shared)@ == old(shared)@
            } else {
                &&& final(self)@ == old(self)@.reconfigured(settings, loaded_updater(loaded), now)
                &&& final(shared)@ == ({
                    let noted = load_noted(old(shared)@, loaded);
                    SharedView {
                        status: RuntimeUpdateStatus {
                            enabled: settings.check_on_startup,
                            ..noted.status
                        },
                        ..noted
                    }.consumed()
                })
            },
    {
        if settings == self.policy.settings() {
            return;
        }
        let state = load_updater_state(loaded, shared);
        match AutomaticUpdater::new(self.policy.current_version(), settings, state) {
            Err(_) => {},
            Ok(policy) => {
                self.policy = policy;
                self.failure_streak = 0;
                self.schedule_start(now);
                shared.status = RuntimeUpdateStatus {
                    enabled: settings.check_on_startup,
                    ..shared.status
                };
                shared.discard_completed_commands();
            },
        }
    }

    /// Next thing to do: settings, mode, completed commands and checks in this
    /// order, then a rest. `snapshot` holds the shared settings, where the
    /// worker observes any.
    pub fn next_step(
        &mut self,
        shared: &mut RuntimeUpdateWorker,
        snapshot: Option<(u64, Updater)>,
        now: u128,
    ) -> (action: Option<WorkerAction>)
        requires
            old(self)@.inv(),
            old(shared)@.inv(),
            snapshot matches Some((_, settings)) ==> settings.check_interval > 0,
        ensures
            final(self)@.inv(),
            final(shared)@.inv(),
            (final(self)@, final(shared)@, action) == old(self)@.step(old(shared)@, snapshot, now),
            action matches Some(WorkerAction::Apply(settings)) ==> settings.check_interval > 0,
    {
        match self.phase {
            WorkerPhase::Settings => {
                if let Some((generation, settings)) = snapshot {
                    let new: bool = match self.shared_generation {
                        Some(seen) => seen != generation,
                        None => true,
                    };
                    self.shared_generation = Some(generation);
                    if new && settings != self.policy.settings() {
                        return Some(WorkerAction::Apply(settings));
                    }
                }
                let pending: Option<Updater> = shared.pending_settings;
                shared.pending_settings = None;
                if let Some(settings) = pending {
                    if settings != self.policy.settings() {
                        return Some(WorkerAction::Apply(settings));
                    }
                }
                if shared.shutdown {
                    return Some(WorkerAction::Stop);
                }
                self.phase = WorkerPhase::Mode;
                None
            },
            WorkerPhase::Mode => {
                self.phase = WorkerPhase::Command;
                match shared.pending_mode {
                    Some(mode) => {
                        shared.pending_mode = None;
                        Some(WorkerAction::PersistMode(mode))
                    },
                    None => None,
                }
            },
            WorkerPhase::Command => {
                self.phase = WorkerPhase::Check;
                if shared.command_generation != shared.consumed_command_generation {
                    shared.discard_completed_commands();
                    Some(WorkerAction::Claim)
                } else {
                    None
                }
            },
            WorkerPhase::Check => {
                self.phase = WorkerPhase::Rest;
                match self.next_attempt {
                    Some(due) => if now >= due {
                        Some(WorkerAction::Check)
                    } else {
                        None
                    },
                    None => None,
                }
            },
            WorkerPhase::Rest => {
                if shared.shutdown {
                    return Some(WorkerAction::Stop);
                }
                let timeout: Option<u128> = self.wait_timeout(now);
                self.phase = WorkerPhase::Settings;
                if shared.has_work() {
                    None
                } else {
                    Some(WorkerAction::Wait(timeout))
                }
            },
        }
    }

    fn wait_timeout(&self, now: u128) -> (timeout: Option<u128>)
        ensures
            timeout == self@.timeout(now),
    {
        let until_check: Option<u128> = match self.next_attempt {
            Some(due) => Some(due.saturating_sub(now)),
            None => None,
        };
        if self.shared_settings {
            match until_check {
                Some(delay) => if delay < SETTINGS_POLL_INTERVAL {
                    until_check
                } else {
                    Some(SETTINGS_POLL_INTERVAL)
                },
                None => Some(SETTINGS_POLL_INTERVAL),
            }
        } else {
            until_check
        }
    }

    /// Channel on which releases are looked for.
    pub fn channel(&self) -> (channel: UpdateChannel)
        ensures
            channel == self@.policy.settings.channel,
    {
        self.policy.settings().channel
    }

    /// Begins a check, given what is stored: reserves it, or schedules the next
    /// attempt.
    pub fn begin_check(
        &mut self,
        shared: &mut RuntimeUpdateWorker,
        loaded: Result<LoadedState, StateStoreError>,
        now_ms: u64,
        now: u128,
    ) -> (action: CheckAction)
        requires
            old(self)@.inv(),
        ensures
            old(shared)@.inv() ==> final(shared)@.inv(),
            final(self)@.inv(),
            match loaded {
                Err(_) => {
                    &&& action is Wait
                    &&& final(self)@ == old(self)@.failed(now)
                    &&& final(shared)@ == old(shared)@.persistence_failed()
                },
                Ok(loaded) => {
                    let stored = loaded.state@.updater;
                    let asked = WorkerView {
                        policy: old(self)@.policy.after_reserve(now_ms, stored),
                        ..old(self)@
                    };
                    let decision = old(self)@.policy.learned(stored).decision(now_ms);
                    &&& final(shared)@ == old(shared)@
                    &&& match decision {
                        CheckReservationDecision::Reserve(reserved) => {
                            &&& final(self)@ == asked
                            &&& action matches CheckAction::Reserve { token, expected, proposed }
                                && token == reserved && expected@ == stored && proposed@
                                == asked.policy.reservation_proposal()
                        },
                        _ => action is Wait && final(self)@ == asked.unreserved(decision, now_ms, now),
                    }
                },
            },
    {
        match loaded {
            Err(_) => {
                shared.count_persistence_failure();
                self.record_failure(now);
                CheckAction::Wait
            },
            Ok(loaded) => {
                let expected = loaded.state.updater().clone();
                let decision = self.policy.reserve_startup_check(now_ms, &expected);
                match decision {
                    CheckReservationDecision::Reserve(token) => CheckAction::Reserve {
                        token,
                        expected,
                        proposed: self.policy.reservation_for_persistence(),
                    },
                    CheckReservationDecision::Disabled
                    | CheckReservationDecision::SessionNoticeComplete
                    | CheckReservationDecision::TokenExhausted => {
                        self.next_attempt = None;
                        CheckAction::Wait
                    },
                    _ => {
                        self.schedule_remaining(now_ms, now);
                        CheckAction::Wait
                    },
                }
            },
        }
    }

    fn schedule_remaining(&mut self, now_ms: u64, now: u128)
        requires
            old(self)@.inv(),
        ensures
            final(self)@.inv(),
            final(self)@ == old(self)@.scheduled(
                remaining_nanos(
                    old(self)@.policy.state,
                    old(self)@.policy.settings.check_interval,
                    now_ms,
                ),
                now,
            ),
    {
        let delay: u128 = remaining_interval(
            &self.policy.state_for_persistence(),
            self.policy.settings().check_interval,
            now_ms,
        );
        self.schedule_periodic(delay, now);
    }

    /// Confirms a reservation that was stored, or was not. Gives the token under
    /// which release metadata is to be fetched, if it is.
    pub fn confirm_check(
        &mut self,
        shared: &mut RuntimeUpdateWorker,
        token: u64,
        stored: Result<UpdateStoreOutcome, StateStoreError>,
        now_ms: u64,
        now: u128,
    ) -> (request: Option<u64>)
        requires
            old(self)@.inv(),
        ensures
            old(shared)@.inv() ==> final(shared)@.inv(),
            final(self)@.inv(),
            ({
                let (policy, confirmation) = old(self)@.policy.after_confirm(
                    token,
                    persistence_of(stored),
                );
                let confirmed = WorkerView { policy, ..old(self)@ };
                match confirmation {
                    CheckReservationConfirmation::Request(granted) => {
                        &&& request == Some(granted)
                        &&& final(self)@ == confirmed
                        &&& final(shared)@ == (SharedView {
                            status: RuntimeUpdateStatus {
                                check_in_flight: true,
                                ..old(shared)@.status
                            },
                            ..old(shared)@
                        })
                    },
                    CheckReservationConfirmation::SupersededByPersistedState => {
                        &&& request is None
                        &&& final(self)@ == confirmed.scheduled(
                            remaining_nanos(policy.state, policy.settings.check_interval, now_ms),
                            now,
                        )
                        &&& final(shared)@ == old(shared)@
                    },
                    _ => {
                        &&& request is None
                        &&& final(self)@ == confirmed.failed(now)
                        &&& final(shared)@ == old(shared)@.persistence_failed()
                    },
                }
            }),
    {
        let persistence = persistence_outcome(stored);
        match self.policy.confirm_check_reservation(token, persistence) {
            CheckReservationConfirmation::Request(granted) => {
                shared.status = RuntimeUpdateStatus { check_in_flight: true, ..shared.status };
                Some(granted)
            },
            CheckReservationConfirmation::SupersededByPersistedState => {
                self.schedule_remaining(now_ms, now);
                None
            },
            CheckReservationConfirmation::PersistenceFailed
            | CheckReservationConfirmation::StaleReservation => {
                shared.count_persistence_failure();
                self.record_failure(now);
                None
            },
        }
    }

    /// Takes in release metadata, or that it could not be had. Commands that
    /// completed while it was fetched do not count: only a later one may claim
    /// an announcement. Gives updater state to store, unless the check is stale.
    pub fn finish_check(
        &mut self,
        shared: &mut RuntimeUpdateWorker,
        token: u64,
        completed_at_ms: u64,
        response: Result<RemoteRelease, NetworkFailure>,
        now: u128,
    ) -> (store: Option<UpdateState>)
        requires
            old(self)@.inv(),
        ensures
            old(shared)@.inv() ==> final(shared)@.inv(),
            final(self)@.inv(),
            ({
                let (policy, completion) = old(self)@.policy.after_check(
                    token,
                    completed_at_ms,
                    response,
                );
                let checked = WorkerView { policy, ..old(self)@ };
                let before = old(shared)@.consumed();
                &&& match store {
                    Some(state) => !(completion is StaleToken) && state@ == policy.state,
                    None => completion is StaleToken,
                }
                &&& final(self)@ == if response is Err {
                    checked.failed(now)
                } else {
                    WorkerView { failure_streak: 0, ..checked }.scheduled(
                        policy.settings.check_interval as int,
                        now,
                    )
                }
                &&& final(shared)@ == (SharedView {
                    status: RuntimeUpdateStatus {
                        check_in_flight: false,
                        checks_completed: before.status.checks_completed.wrapping_add(1),
                        network_failures: if response is Err {
                            before.status.network_failures.wrapping_add(1)
                        } else {
                            before.status.network_failures
                        },
                        ..before.status
                    },
                    ..before
                })
            }),
    {
        shared.discard_completed_commands();
        let failed: bool = response.is_err();
        let completion = self.policy.complete_check(token, completed_at_ms, response);
        let stale: bool = match completion {
            crate::update_policy::CheckCompletion::StaleToken => true,
            _ => false,
        };
        let store: Option<UpdateState> = if stale {
            None
        } else {
            Some(self.policy.state_for_persistence())
        };
        if failed {
            self.record_failure(now);
        } else {
            self.failure_streak = 0;
            let delay: u128 = self.policy.settings().check_interval;
            self.schedule_periodic(delay, now);
        }
        shared.status = RuntimeUpdateStatus {
            check_in_flight: false,
            checks_completed: shared.status.checks_completed.wrapping_add(1),
            network_failures: if failed {
                shared.status.network_failures.wrapping_add(1)
            } else {
                shared.status.network_failures
            },
            ..shared.status
        };
        store
    }

    /// Considers an announcement after a completed command, given what is
    /// stored.
    pub fn begin_claim(
        &mut self,
        shared: &mut RuntimeUpdateWorker,
        loaded: Result<LoadedState, StateStoreError>,
    ) -> (action: ClaimAction)
        requires
            old(self)@.inv(),
        ensures
            old(shared)@.inv() ==> final(shared)@.inv(),
            final(self)@.inv(),
            if old(self)@.notice_emitted {
                action is Nothing && final(self)@ == old(self)@ && final(shared)@ == old(shared)@
            } else {
                match loaded {
                    Err(_) => {
                        &&& action is Nothing
                        &&& final(self)@ == old(self)@
                        &&& final(shared)@ == old(shared)@.persistence_failed()
                    },
                    Ok(loaded) => {
                        let stored = loaded.state@.updater;
                        let (policy, decision) = old(self)@.policy.after_claim(stored);
                        &&& final(self)@ == (WorkerView { policy, ..old(self)@ })
                        &&& final(shared)@ == old(shared)@
                        &&& match decision {
                            ClaimDecision::Nothing => action is Nothing,
                            ClaimDecision::Claim(claimed) => action matches ClaimAction::Store {
                                token,
                                expected,
                                proposed,
                            } && token == claimed && expected@ == stored && proposed@
                                == policy.claim_proposal(),
                        }
                    },
                }
            },
    {
        if self.notice_emitted {
            return ClaimAction::Nothing;
        }
        match loaded {
            Err(_) => {
                shared.count_persistence_failure();
                ClaimAction::Nothing
            },
            Ok(loaded) => {
                let expected = loaded.state.updater().clone();
                match self.policy.claim_after_completed_command(&expected) {
                    ClaimDecision::Nothing => ClaimAction::Nothing,
                    ClaimDecision::Claim(token) => ClaimAction::Store {
                        token,
                        expected,
                        proposed: self.policy.claim_for_persistence(),
                    },
                }
            },
        }
    }

    /// Confirms a claim that was stored, or was not; a stored one is announced,
    /// unless too many notices wait.
    pub fn finish_claim(
        &mut self,
        shared: &mut RuntimeUpdateWorker,
        token: u64,
        stored: Result<UpdateStoreOutcome, StateStoreError>,
    )
        requires
            old(self)@.inv(),
        ensures
            old(shared)@.inv() ==> final(shared)@.inv(),
            final(self)@.inv(),
            ({
                let noted = if stored is Err {
                    old(shared)@.persistence_failed()
                } else {
                    old(shared)@
                };
                let announced = match old(self)@.policy.claim {
                    Some((claimed, version)) => if claimed == token && persistence_of(
                        stored,
                    ) is Persisted && old(shared)@.notices.len() < MAX_PENDING_NOTICES {
                        Some(version)
                    } else {
                        None
                    },
                    None => None,
                };
                &&& final(self)@ == (WorkerView {
                    policy: old(self)@.policy.after_notice(token, persistence_of(stored)),
                    notice_emitted: old(self)@.notice_emitted || announced is Some,
                    ..old(self)@
                })
                &&& final(shared)@ == match announced {
                    Some(version) => SharedView { notices: noted.notices.push(version), ..noted },
                    None => noted,
                }
            }),
    {
        if stored.is_err() {
            shared.count_persistence_failure();
        }
        let persistence = persistence_outcome(stored);
        match self.policy.confirm_notification(token, persistence) {
            ClaimConfirmation::Emit(version) => {
                if shared.notices.len() < MAX_PENDING_NOTICES {
                    let ghost before = shared.notices@;
                    let notice = UpdateNotification { version };
                    shared.notices.push(notice);
                    assert(notice_views(shared.notices@) =~= notice_views(before).push(notice@));
                    self.notice_emitted = true;
                }
            },
            _ => {},
        }
    }
}

/// While checks are switched off no check is ever reserved, so the network is
/// never used.
pub proof fn law_disabled_workers_never_check(worker: WorkerView, stored: UpdateView, now_ms: u64)
    requires
        !worker.policy.settings.check_on_startup,
    ensures
        worker.policy.learned(stored).decision(now_ms) is Disabled,
        forall|now: u128| #[trigger] worker.starting(now).next_attempt is None,
{
}

/// An announcement waits for a command that completes after the check: commands
/// that completed before or during it claim nothing.
pub proof fn law_notices_wait_for_a_later_command(worker: WorkerView, shared: SharedView)
    ensures
        worker.at_command(shared.consumed()).2 is None,
        shared.command_generation < u64::MAX ==> worker.at_command(
            SharedView {
                command_generation: (shared.command_generation + 1) as u64,
                ..shared.consumed()
            },
        ).2 == Some(WorkerAction::Claim),
{
}

/// A worker that has to stop does so before it starts anything else.
pub proof fn law_shutdown_comes_first(
    worker: WorkerView,
    shared: SharedView,
    snapshot: Option<(u64, Updater)>,
    now: u128,
)
    requires
        shared.shutdown,
        shared.pending_settings is None,
        worker.phase is Settings || worker.phase is Rest,
        snapshot matches Some((_, settings)) ==> settings == worker.policy.settings,
    ensures
        worker.step(shared, snapshot, now).2 == Some(WorkerAction::Stop),
{
}

/// A worker wakes up no later than its next check is due.
pub proof fn law_workers_wake_in_time(worker: WorkerView, now: u128, due: u128)
    requires
        worker.next_attempt == Some(due),
        now <= due,
    ensures
        worker.timeout(now) matches Some(delay) && now + delay <= due,
        worker.shared_settings ==> (worker.timeout(now) matches Some(delay) && delay
            <= SETTINGS_POLL_INTERVAL),
{
}

/// A failure counts as what it was: no answer, no connection, a refusal of the
/// service, or an answer that cannot be used.
pub proof fn law_failures_are_told_apart(status: u16)
    ensures
        failure_of(ReleaseError::Timeout) is Timeout,
        failure_of(ReleaseError::Network) is Transport,
        failure_of(ReleaseError::RateLimited) is Api,
        failure_of(ReleaseError::HttpStatus(status)) is Api,
        failure_of(ReleaseError::ResponseTooLarge) is InvalidResponse,
        failure_of(ReleaseError::InvalidMetadata) is InvalidResponse,
        failure_of(ReleaseError::MissingAsset) is InvalidResponse,
        failure_of(ReleaseError::InvalidChecksum) is InvalidResponse,
{
}

/// The time that remains ends one interval after the last check of any session;
/// where that has passed, nothing remains.
pub proof fn law_remaining_time_ends_with_the_interval(
    state: UpdateView,
    interval: u128,
    now_ms: u64,
    last: u64,
)
    requires
        state.reserved == Some(last) || state.completed == Some(last),
        state.reserved matches Some(moment) ==> moment <= last,
        state.completed matches Some(moment) ==> moment <= last,
        last + interval_millis(interval) <= u64::MAX,
    ensures
        now_ms <= last + interval_millis(interval) ==> now_ms * 1_000_000 + remaining_nanos(
            state,
            interval,
            now_ms,
        ) == (last + interval_millis(interval)) * 1_000_000,
        now_ms >= last + interval_millis(interval) ==> remaining_nanos(state, interval, now_ms) == 0,
{
}

/// After the first failure the interval is waited for once, after each further
/// one twice as long as before, up to the greatest multiple.
pub proof fn law_waits_double_with_failures(interval: u128, streak: u32)
    requires
        interval * MAX_FAILURE_BACKOFF_MULTIPLIER <= MAX_DURATION,
    ensures
        retry_nanos(interval, 0) == interval,
        retry_nanos(interval, 1) == interval,
        1 <= streak < 4 ==> retry_nanos(interval, (streak + 1) as u32) == 2 * retry_nanos(
            interval,
            streak,
        ),
        streak >= 4 ==> retry_nanos(interval, streak) == interval * MAX_FAILURE_BACKOFF_MULTIPLIER,
{
    assert(backoff(streak) == 1 || backoff(streak) == 2 || backoff(streak) == 4 || backoff(streak) == 8);
    if streak == 1 {
        assert(backoff(2) == 2 && backoff(1) == 1);
    } else if streak == 2 {
        assert(backoff(3) == 4 && backoff(2) == 2);
    } else if streak == 3 {
        assert(backoff(4) == 8 && backoff(3) == 4);
    }
    assert(interval * 2 == 2 * (interval * 1)) by (nonlinear_arith);
    assert(interval * 4 == 2 * (interval * 2)) by (nonlinear_arith);
    assert(interval * 8 == 2 * (interval * 4)) by (nonlinear_arith);
}

proof fn lemma_jitter_bounds(state: u64, limit: int)
    requires
        0 <= limit <= u128::MAX,
    ensures
        0 <= jitter_next(state, limit) <= limit,
{
}

/// Jitter only ever adds, and no more than its limit: a check comes no sooner
/// than asked for, and no later than the greatest jitter allows.
pub proof fn law_checks_come_in_their_time(worker: WorkerView, delay: u128, now: u128)
    requires
        now + delay + MAX_PERIODIC_JITTER <= u128::MAX,
        delay + MAX_PERIODIC_JITTER <= MAX_DURATION,
    ensures
        ({
            let after = worker.scheduled(delay as int, now);
            &&& after.next_attempt matches Some(due)
            &&& now + delay <= due <= now + delay + MAX_PERIODIC_JITTER
            &&& due <= now + delay + delay / 10
            &&& after.policy == worker.policy
            &&& after.failure_streak == worker.failure_streak
            &&& after.notice_emitted == worker.notice_emitted
        }),
{
    lemma_jitter_bounds(worker.jitter, WorkerView::periodic_limit(delay as int));
}

/// A worker whose checks are on makes its first one within the startup limit; one
/// whose checks are off makes none.
pub proof fn law_first_checks_come_soon(worker: WorkerView, now: u128)
    requires
        now + worker.startup_jitter_limit <= u128::MAX,
    ensures
        worker.policy.settings.check_on_startup ==> (worker.starting(now).next_attempt matches Some(due)
            && now <= due <= now + worker.startup_jitter_limit),
        !worker.policy.settings.check_on_startup ==> worker.starting(now).next_attempt is None,
        worker.starting(now).policy == worker.policy,
{
    lemma_jitter_bounds(worker.jitter, worker.startup_jitter_limit as int);
}

/// One more failure lengthens the row, and the next attempt waits as that row
/// asks.
pub proof fn law_failures_lengthen_the_wait(worker: WorkerView, now: u128)
    requires
        worker.failure_streak < u32::MAX,
        now + MAX_DURATION <= u128::MAX,
        worker.policy.settings.check_interval * MAX_FAILURE_BACKOFF_MULTIPLIER + MAX_PERIODIC_JITTER
            <= MAX_DURATION,
    ensures
        ({
            let after = worker.failed(now);
            &&& after.failure_streak == worker.failure_streak + 1
            &&& after.next_attempt matches Some(due)
            &&& due >= now + retry_nanos(
                worker.policy.settings.check_interval,
                (worker.failure_streak + 1) as u32,
            )
            &&& after.policy == worker.policy
        }),
{
    let streak = (worker.failure_streak + 1) as u32;
    let interval = worker.policy.settings.check_interval;
    law_retries_back_off(interval, streak);
    let delay = retry_nanos(interval, streak);
    assert(delay >= 0) by {
        assert(interval * backoff(streak) >= 0) by (nonlinear_arith)
            requires
                backoff(streak) >= 0,
        ;
    }
    lemma_jitter_bounds(worker.jitter, WorkerView::periodic_limit(delay));
}

/// Where no check was reserved for good no further one is scheduled, and else
/// the next one waits out what remains of the interval.
pub proof fn law_unreserved_checks_are_scheduled_again(
    worker: WorkerView,
    decision: CheckReservationDecision,
    now_ms: u64,
    now: u128,
)
    ensures
        decision is Disabled || decision is SessionNoticeComplete || decision is TokenExhausted
            ==> worker.unreserved(decision, now_ms, now).next_attempt is None,
        decision is IntervalPending || decision is ClockAnomaly || decision is AlreadyInFlight
            ==> worker.unreserved(decision, now_ms, now) == worker.scheduled(
            remaining_nanos(worker.policy.state, worker.policy.settings.check_interval, now_ms),
            now,
        ),
{
}

/// Other settings begin anew: with what is stored, without the failures so far,
/// and with a first check where they ask for any.
pub proof fn law_new_settings_begin_anew(
    worker: WorkerView,
    settings: Updater,
    stored: UpdateView,
    now: u128,
)
    ensures
        ({
            let after = worker.reconfigured(settings, stored, now);
            &&& after.policy.settings == settings
            &&& after.policy.current == worker.policy.current
            &&& after.policy.state == stored
            &&& after.policy.in_flight is None && after.policy.reservation is None
            &&& after.failure_streak == 0
            &&& !settings.check_on_startup ==> after.next_attempt is None
        }),
{
}

/// One pass goes through its steps in order: settings, the mode, completed
/// commands, a check, a rest.
pub proof fn law_passes_take_their_steps_in_order(
    worker: WorkerView,
    shared: SharedView,
    snapshot: Option<(u64, Updater)>,
    now: u128,
)
    ensures
        ({
            let (after, left, action) = worker.step(shared, snapshot, now);
            &&& worker.phase is Settings && snapshot is None && shared.pending_settings is None
                && !shared.shutdown ==> after.phase is Mode && action is None
            &&& worker.phase is Settings && snapshot is None && (shared.pending_settings matches Some(
                settings,
            ) && settings != worker.policy.settings) ==> action == Some(
                WorkerAction::Apply(shared.pending_settings->0),
            ) && left.pending_settings is None
            &&& snapshot matches Some((generation, settings)) ==> (worker.phase is Settings
                && worker.shared_generation != Some(generation) && settings != worker.policy.settings
                ==> action == Some(WorkerAction::Apply(settings)) && after.shared_generation == Some(
                generation,
            ))
            &&& worker.phase is Mode ==> after.phase is Command && left.pending_mode is None && action
                == match shared.pending_mode {
                Some(mode) => Some(WorkerAction::PersistMode(mode)),
                None => None,
            }
            &&& worker.phase is Command ==> after.phase is Check && (action == Some(WorkerAction::Claim)
                <==> shared.command_generation != shared.consumed_generation)
                && left.consumed_generation == shared.command_generation
            &&& worker.phase is Check ==> after.phase is Rest && left == shared && (action == Some(
                WorkerAction::Check,
            ) <==> (worker.next_attempt matches Some(due) && due <= now))
            &&& worker.phase is Rest && !shared.shutdown ==> after.phase is Settings && left == shared
            &&& worker.phase is Rest && !shared.shutdown && shared.pending_settings is None
                && shared.pending_mode is None && shared.command_generation
                == shared.consumed_generation ==> action is Some && action->0 is Wait
            &&& worker.phase is Rest && !shared.shutdown && (shared.pending_settings is Some
                || shared.pending_mode is Some) ==> action is None
        }),
{
}

/// The mode is stored under its own name, stored state is what was loaded, and
/// what could not be stored or loaded is counted.
pub proof fn law_state_is_passed_on(
    shared: SharedView,
    loaded: LoadedState,
    stored: RuntimeState,
    winner: UpdateState,
    error: StateStoreError,
)
    ensures
        stored_mode(SessionMode::Spec) is Spec,
        stored_mode(SessionMode::History) is History,
        loaded_updater(Ok(loaded)) == loaded.state@.updater,
        loaded_updater(Err(error)) == UpdateView::fresh(),
        load_noted(shared, Ok(loaded)) == shared,
        load_noted(shared, Err(error)).status.persistence_failures
            == shared.status.persistence_failures.wrapping_add(1),
        persistence_of(Ok(UpdateStoreOutcome::Persisted(stored))) is Persisted,
        persistence_of(Ok(UpdateStoreOutcome::Superseded(winner))) == ProposalPersistence::Superseded(
            winner,
        ),
        persistence_of(Err(error)) is Failed,
        shared.closed() <==> !shared.status.alive || shared.shutdown,
{
}

} // verus!
