use std::time::Duration;

use argmax::runtime_update::{
    map_release_error, process_jitter_seed, remaining_interval, retry_delay, CheckAction,
    ClaimAction, CompletedCommandAdmission, Jitter, ModePersistenceAdmission, ReleaseError,
    RuntimeUpdateOptions, RuntimeUpdateStartError, RuntimeUpdateWorker, Worker, WorkerAction,
    MAX_DURATION, SETTINGS_POLL_INTERVAL,
};
use argmax::session::SessionMode;
use argmax::state::{
    IoKind, LastMode, LoadedState, RuntimeState, RuntimeStateStore, StateDirectories,
    StateLoadStatus, StateStoreError, UpdateStoreOutcome,
};
use argmax::update_policy::{
    AutomaticUpdater, AutomaticUpdaterError, CheckCompletion, CheckReservationConfirmation,
    CheckReservationDecision, ClaimConfirmation, ClaimDecision, NetworkFailure,
    ProposalPersistence, RemoteRelease, UpdateChannel, Updater,
};
use argmax::updater::UpdateState;
use argmax::version::{ReleaseKind, ReleaseVersion, RUNNING_VERSION};

fn updater(enabled: bool, channel: UpdateChannel) -> Updater {
    Updater {
        check_on_startup: enabled,
        channel,
        check_interval: Duration::from_millis(20).as_nanos(),
    }
}

fn directories() -> StateDirectories {
    StateDirectories {
        project_data: b"/d".to_vec(),
        project_config: b"/c".to_vec(),
        iris_data: b"/id".to_vec(),
        iris_config: b"/ic".to_vec(),
        base_config: b"/bc".to_vec(),
        home: b"/h".to_vec(),
        xdg_data: None,
    }
}

fn options(current: &str, settings: Updater) -> RuntimeUpdateOptions {
    RuntimeUpdateOptions::new(
        current.to_owned(),
        settings,
        RuntimeStateStore::new(b"/s/state.toml".to_vec()),
        0,
    )
    .with_startup_jitter_limit(0)
}

fn loaded(updater: &UpdateState) -> Result<LoadedState, StateStoreError> {
    Ok(LoadedState {
        state: RuntimeState::new(None, updater.clone()),
        status: StateLoadStatus::Current,
    })
}

fn started(current: &str, settings: Updater) -> (RuntimeUpdateWorker, Worker) {
    let options = options(current, settings);
    let mut shared = RuntimeUpdateWorker::spawn(&options).unwrap();
    let stored = loaded(&UpdateState::default());
    let worker = Worker::new(options, &mut shared, stored, 0).unwrap();
    (shared, worker)
}

fn next(worker: &mut Worker, shared: &mut RuntimeUpdateWorker, now: u128) -> WorkerAction {
    loop {
        if let Some(action) = worker.next_step(shared, None, now) {
            return action;
        }
    }
}

fn store(stored: &mut UpdateState, expected: &UpdateState, proposed: &UpdateState) -> UpdateStoreOutcome {
    let outcome = RuntimeStateStore::new(b"/s".to_vec())
        .compare_and_store_updater(loaded(stored).ok().unwrap(), expected, proposed)
        .ok()
        .unwrap();
    if let UpdateStoreOutcome::Persisted(state) = &outcome {
        *stored = state.updater().clone();
    }
    outcome
}

fn check(
    worker: &mut Worker,
    shared: &mut RuntimeUpdateWorker,
    stored: &mut UpdateState,
    response: Result<RemoteRelease, NetworkFailure>,
    now_ms: u64,
    now: u128,
) -> bool {
    match worker.begin_check(shared, loaded(stored), now_ms, now) {
        CheckAction::Wait => false,
        CheckAction::Reserve { token, expected, proposed } => {
            let outcome = store(stored, &expected, &proposed);
            let token = worker.confirm_check(shared, token, Ok(outcome), now_ms, now).unwrap();
            assert!(shared.status().check_in_flight);
            let completed = worker.finish_check(shared, token, now_ms + 1, response, now).unwrap();
            *stored = completed.merged_for_persistence(stored);
            true
        }
    }
}

fn claim(worker: &mut Worker, shared: &mut RuntimeUpdateWorker, stored: &mut UpdateState) {
    if let ClaimAction::Store { token, expected, proposed } =
        worker.begin_claim(shared, loaded(stored))
    {
        let outcome = store(stored, &expected, &proposed);
        worker.finish_claim(shared, token, Ok(outcome));
    }
}

fn available(version: &str, kind: ReleaseKind) -> Result<RemoteRelease, NetworkFailure> {
    Ok(RemoteRelease { version: version.to_owned(), kind })
}

#[test]
fn discovered_worker_uses_the_embedded_release_version() {
    let options = RuntimeUpdateOptions::discover(
        updater(false, UpdateChannel::Stable),
        Some(directories()),
        0,
    )
    .ok()
    .unwrap();
    assert!(options.current_version() == RUNNING_VERSION);
    assert!(RuntimeUpdateOptions::discover(updater(false, UpdateChannel::Stable), None, 0).is_err());
}

#[test]
fn disabled_worker_performs_zero_network_requests() {
    let (mut shared, mut worker) = started("1.0.0", updater(false, UpdateChannel::Stable));
    assert!(shared.completed_command() == CompletedCommandAdmission::Queued);
    assert!(next(&mut worker, &mut shared, 1_000_000_000) == WorkerAction::Claim);
    assert!(matches!(
        worker.begin_claim(&mut shared, loaded(&UpdateState::default())),
        ClaimAction::Nothing
    ));
    assert!(next(&mut worker, &mut shared, 1_000_000_000) == WorkerAction::Wait(None));
    assert!(matches!(
        worker.begin_check(&mut shared, loaded(&UpdateState::default()), 1_000, 0),
        CheckAction::Wait
    ));
    assert!(shared.take_notification().is_none());
    assert!(!shared.status().enabled);
}

#[test]
fn notice_is_persisted_and_waits_for_a_later_completed_command() {
    let (mut shared, mut worker) = started("1.9.0", updater(true, UpdateChannel::Stable));
    let mut stored = UpdateState::default();
    assert!(next(&mut worker, &mut shared, 0) == WorkerAction::Check);
    assert!(shared.completed_command() == CompletedCommandAdmission::Queued);
    let release = available("1.10.0", ReleaseKind::Stable);
    assert!(check(&mut worker, &mut shared, &mut stored, release, 1_000, 0));
    assert!(shared.status().checks_completed == 1);
    assert!(shared.take_notification().is_none());

    assert!(matches!(next(&mut worker, &mut shared, 0), WorkerAction::Wait(Some(_))));
    assert!(shared.completed_command() == CompletedCommandAdmission::Queued);
    assert!(next(&mut worker, &mut shared, 0) == WorkerAction::Claim);
    claim(&mut worker, &mut shared, &mut stored);
    let notice = shared.take_notification().unwrap();
    assert!(notice.version() == "1.10.0");
    assert!(notice.message() == "argmax 1.10.0 is available; run `argmax update`");
    assert!(notice.debug_text() == "UpdateNotification { version_bytes: 6 }");
    assert!(stored.last_notified_version() == Some("1.10.0"));
    assert!(shared.take_notification().is_none());
}

#[test]
fn development_version_and_wrong_channel_never_notify() {
    for (current, channel, remote_kind) in [
        ("dev", UpdateChannel::Stable, ReleaseKind::Stable),
        ("", UpdateChannel::Stable, ReleaseKind::Stable),
        ("1.0.0", UpdateChannel::Stable, ReleaseKind::Nightly),
    ] {
        let (mut shared, mut worker) = started(current, updater(true, channel));
        let mut stored = UpdateState::default();
        let release = available("2.0.0-nightly.1", remote_kind);
        assert!(check(&mut worker, &mut shared, &mut stored, release, 1_000, 0));
        assert!(shared.status().checks_completed == 1);
        let _ = shared.completed_command();
        claim(&mut worker, &mut shared, &mut stored);
        assert!(shared.take_notification().is_none());
    }
}

#[test]
fn persisted_notice_suppresses_other_sessions() {
    let settings = updater(true, UpdateChannel::Stable);
    let mut stored = UpdateState::default();
    let (mut shared, mut worker) = started("1.0.0", settings);
    let release = available("2.0.0", ReleaseKind::Stable);
    assert!(check(&mut worker, &mut shared, &mut stored, release, 1_000, 0));
    claim(&mut worker, &mut shared, &mut stored);
    assert!(shared.take_notification().is_some());

    let (mut shared, mut worker) = started("1.0.0", settings);
    let release = available("2.0.0", ReleaseKind::Stable);
    assert!(check(&mut worker, &mut shared, &mut stored, release, 2_000, 0));
    claim(&mut worker, &mut shared, &mut stored);
    assert!(shared.take_notification().is_none());
}

#[test]
fn disabled_worker_can_be_enabled_by_atomic_reconfiguration() {
    let (mut shared, mut worker) = started("1.0.0", updater(false, UpdateChannel::Stable));
    let enabled = updater(true, UpdateChannel::Stable);
    assert!(shared.reconfigure(enabled));
    assert!(next(&mut worker, &mut shared, 5) == WorkerAction::Apply(enabled));
    worker.apply_settings(&mut shared, enabled, loaded(&UpdateState::default()), 5);
    assert!(shared.status().enabled);
    assert!(next(&mut worker, &mut shared, 5) == WorkerAction::Check);
    let mut stored = UpdateState::default();
    let release = available("2.0.0", ReleaseKind::Stable);
    assert!(check(&mut worker, &mut shared, &mut stored, release, 1_000, 5));
    assert!(shared.status().checks_completed == 1);
}

#[test]
fn selected_modes_are_coalesced_and_persisted_without_network() {
    let (mut shared, mut worker) = started("1.0.0", updater(false, UpdateChannel::Stable));
    assert!(shared.record_mode(SessionMode::Spec) == ModePersistenceAdmission::Queued);
    assert!(shared.record_mode(SessionMode::History) == ModePersistenceAdmission::Coalesced);
    assert!(
        next(&mut worker, &mut shared, 0) == WorkerAction::PersistMode(LastMode::History)
    );
    shared.note_stored(Ok(()));
    assert!(next(&mut worker, &mut shared, 0) == WorkerAction::Wait(None));
    shared.note_stored(Err(StateStoreError::LockReplaced));
    assert!(shared.status().persistence_failures == 1);
    assert!(shared.status().checks_completed == 0);
}

#[test]
fn failures_back_off_exponentially_at_the_configured_interval() {
    let interval = Duration::from_secs(60).as_nanos();
    assert!(retry_delay(interval, 1) == interval);
    assert!(retry_delay(interval, 2) == Duration::from_secs(120).as_nanos());
    assert!(retry_delay(interval, 3) == Duration::from_secs(240).as_nanos());
    assert!(retry_delay(interval, 4) == Duration::from_secs(480).as_nanos());
    assert!(retry_delay(interval, 100) == Duration::from_secs(480).as_nanos());
    assert!(retry_delay(Duration::MAX.as_nanos(), 2) == Duration::MAX.as_nanos());
    assert!(MAX_DURATION == Duration::MAX.as_nanos());
}

#[test]
fn interval_scheduling_rounds_fractional_milliseconds_up() {
    let state = UpdateState::new(Some(100), None, None).unwrap();
    assert!(
        remaining_interval(&state, Duration::from_micros(1_500).as_nanos(), 101)
            == Duration::from_millis(1).as_nanos()
    );
    assert!(remaining_interval(&UpdateState::default(), 7, 101) == 7);
    assert!(remaining_interval(&state, 1_000_000, 5_000) == 0);
}

#[test]
fn jitter_is_positive_only_and_bounded() {
    let limit = Duration::from_millis(250).as_nanos();
    let mut jitter = Jitter::new(7);
    for _ in 0..100 {
        assert!(jitter.next(limit) <= limit);
    }
    assert!(jitter.next(0) == 0);
}

#[test]
fn jitter_follows_its_seed() {
    // First output of the generator for seed zero.
    assert!(Jitter::new(0).next(u128::MAX) == 0xe220_a839_7b1d_cdaf);
    assert!(Jitter::new(0).next(9) == 0xe220_a839_7b1d_cdaf % 10);
}

#[test]
fn release_errors_collapse_to_silent_policy_categories() {
    assert!(map_release_error(ReleaseError::Timeout) == NetworkFailure::Timeout);
    assert!(map_release_error(ReleaseError::Network) == NetworkFailure::Transport);
    assert!(map_release_error(ReleaseError::RateLimited) == NetworkFailure::Api);
    assert!(map_release_error(ReleaseError::InvalidMetadata) == NetworkFailure::InvalidResponse);
    assert!(map_release_error(ReleaseError::HttpStatus(500)) == NetworkFailure::Api);
}

#[test]
fn failed_checks_are_counted_and_retried_later() {
    let settings = updater(true, UpdateChannel::Stable);
    let (mut shared, mut worker) = started("1.0.0", settings);
    let mut stored = UpdateState::default();
    assert!(check(&mut worker, &mut shared, &mut stored, Err(NetworkFailure::Timeout), 1_000, 0));
    let status = shared.status();
    assert!(status.network_failures == 1 && status.checks_completed == 1);
    assert!(stored.last_completed_check_ms().is_none());
    let wait = next(&mut worker, &mut shared, 0);
    let interval = settings.check_interval;
    assert!(matches!(wait, WorkerAction::Wait(Some(delay)) if delay >= interval && delay <= interval + interval / 10));
    let failed = worker.begin_check(&mut shared, Err(StateStoreError::LockReplaced), 1_000, 0);
    assert!(matches!(failed, CheckAction::Wait));
    assert!(shared.status().persistence_failures == 1);
    let wait = next(&mut worker, &mut shared, 0);
    assert!(matches!(wait, WorkerAction::Wait(Some(delay)) if delay >= 2 * interval));
}

#[test]
fn shutdown_stops_the_worker_and_closes_the_inbox() {
    let (mut shared, mut worker) = started("1.0.0", updater(true, UpdateChannel::Stable));
    shared.shut_down();
    assert!(next(&mut worker, &mut shared, 0) == WorkerAction::Stop);
    assert!(shared.completed_command() == CompletedCommandAdmission::Closed);
    assert!(shared.record_mode(SessionMode::Spec) == ModePersistenceAdmission::Closed);
    assert!(!shared.reconfigure(updater(true, UpdateChannel::Nightly)));
    shared.exited();
    assert!(!shared.status().alive);
}

#[test]
fn shared_settings_are_observed_and_polled() {
    let options = options("1.0.0", updater(false, UpdateChannel::Stable)).with_shared_settings();
    let mut shared = RuntimeUpdateWorker::spawn(&options).unwrap();
    let stored = loaded(&UpdateState::default());
    let mut worker = Worker::new(options, &mut shared, stored, 0).unwrap();
    let nightly = updater(false, UpdateChannel::Nightly);
    let seen = worker.next_step(&mut shared, Some((1, nightly)), 0);
    assert!(seen == Some(WorkerAction::Apply(nightly)));
    worker.apply_settings(&mut shared, nightly, Err(StateStoreError::LockReplaced), 0);
    assert!(shared.status().persistence_failures == 1);
    assert!(next(&mut worker, &mut shared, 0) == WorkerAction::Wait(Some(SETTINGS_POLL_INTERVAL)));
}

#[test]
fn start_errors_describe_themselves() {
    let settings = Updater { check_interval: 0, ..updater(true, UpdateChannel::Stable) };
    let error = RuntimeUpdateWorker::spawn(&options("1.0.0", settings)).err().unwrap();
    assert!(
        error == RuntimeUpdateStartError::InvalidConfiguration(AutomaticUpdaterError::ZeroInterval)
    );
    assert!(error.message() == "automatic update interval must not be zero");
    assert!(
        RuntimeUpdateStartError::Thread(IoKind::Other).message()
            == "automatic update worker could not start: Other"
    );
    let debug = options("1.0.0-secret", updater(true, UpdateChannel::Stable)).debug_text();
    assert!(debug.starts_with(
        "RuntimeUpdateOptions { current_version_bytes: 12, settings: Updater { check_on_startup: \
         true, channel: Stable, check_interval: 20ms }, has_shared_settings: false, \
         state_store: RuntimeStateStore { paths: StatePaths { "
    ));
    assert!(debug.ends_with(" } }, source: ReleaseSource { .. }, .. }"));
    for (interval, shown) in [
        (std::time::Duration::ZERO, "0ns"),
        (std::time::Duration::from_nanos(1_050), "1.05\u{b5}s"),
        (std::time::Duration::from_nanos(999_999_999), "999.999999ms"),
        (std::time::Duration::from_secs(86_400), "86400s"),
        (std::time::Duration::from_nanos(1_000_000_001), "1.000000001s"),
        (std::time::Duration::from_millis(1_500), "1.5s"),
    ] {
        let settings = Updater {
            check_interval: interval.as_nanos(),
            ..updater(false, UpdateChannel::Nightly)
        };
        assert!(format!("{interval:?}") == shown);
        assert!(
            settings.debug_text()
                == format!(
                    "Updater {{ check_on_startup: false, channel: Nightly, check_interval: {shown} }}"
                )
        );
    }
    assert!(!debug.contains("secret"));
}

#[test]
fn a_superseded_reservation_waits_for_the_winner() {
    let settings = updater(true, UpdateChannel::Stable);
    let mut policy = AutomaticUpdater::new("1.0.0", settings, UpdateState::default()).unwrap();
    let decision = policy.reserve_startup_check(1_000, &UpdateState::default());
    assert!(decision == CheckReservationDecision::Reserve(0));
    assert!(policy.reservation_for_persistence().last_reserved_check_ms() == Some(1_000));
    assert!(
        policy.reserve_startup_check(1_000, &UpdateState::default())
            == CheckReservationDecision::ReservationAlreadyInFlight
    );
    let winner = UpdateState::new(Some(1_005), None, None).unwrap();
    assert!(
        policy.confirm_check_reservation(0, ProposalPersistence::Superseded(winner))
            == CheckReservationConfirmation::SupersededByPersistedState
    );
    assert!(
        policy.confirm_check_reservation(0, ProposalPersistence::Persisted)
            == CheckReservationConfirmation::StaleReservation
    );
    assert!(
        policy.reserve_startup_check(1_010, &UpdateState::default())
            == CheckReservationDecision::IntervalPending
    );
    assert!(
        policy.reserve_startup_check(1_000, &UpdateState::default())
            == CheckReservationDecision::ClockAnomaly
    );
    let completion = policy.complete_check(9, 1_000, Err(NetworkFailure::Api));
    assert!(completion == CheckCompletion::StaleToken);
    assert!(policy.claim_after_completed_command(&UpdateState::default()) == ClaimDecision::Nothing);
    assert!(matches!(
        policy.confirm_notification(0, ProposalPersistence::Failed),
        ClaimConfirmation::StaleClaim
    ));
}

#[test]
fn versions_follow_semantic_precedence() {
    let ordered = [
        "1.0.0-alpha",
        "1.0.0-alpha.1",
        "1.0.0-alpha.beta",
        "1.0.0-beta",
        "1.0.0-beta.2",
        "1.0.0-beta.11",
        "1.0.0-rc.1",
        "1.0.0",
        "1.9.0",
        "1.10.0",
        "2.0.0-99999999999999999999999",
        "2.0.0-100000000000000000000000",
        "2.0.0",
    ];
    for (i, left) in ordered.iter().enumerate() {
        for (j, right) in ordered.iter().enumerate() {
            let a = ReleaseVersion::parse(left.as_bytes()).unwrap();
            let b = ReleaseVersion::parse(right.as_bytes()).unwrap();
            assert!(a.is_older(&b) == (i < j));
        }
    }
    let a = ReleaseVersion::parse(b"1.0.0+build.1").unwrap();
    let b = ReleaseVersion::parse(b"1.0.0+other").unwrap();
    assert!(!a.is_older(&b) && !b.is_older(&a));
    for invalid in ["", "1", "1.0", "01.0.0", "1.0.0-", "1.0.0-01", "1.0.0+", "v1.0.0", "1.0.0-a..b", "1.0.18446744073709551616"] {
        assert!(ReleaseVersion::parse(invalid.as_bytes()).is_none());
    }
}

#[test]
fn jitter_seeds_fold_the_moment_and_the_process() {
    assert!(process_jitter_seed(9, 5) == 12);
    assert!(process_jitter_seed((3 << 64) + 9, 5) == 15);
}

#[test]
fn workers_show_health_and_counters_alone() {
    let (shared, _worker) = started("1.0.0", updater(true, UpdateChannel::Stable));
    assert!(
        shared.debug_text()
            == "RuntimeUpdateWorker { status: RuntimeUpdateStatus { alive: true, enabled: true, \
                check_in_flight: false, checks_completed: 0, network_failures: 0, \
                persistence_failures: 0 }, .. }"
    );
}
