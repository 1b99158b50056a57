//! When to look for a newer release, and when to announce one.
//!
//! Every check is reserved in stored state before the network is used, and
//! every announcement is claimed there before it is shown. The policy only
//! decides; the caller stores, fetches and reports back.

use vstd::prelude::*;
use vstd::string::*;

use crate::text::{append_duration, bool_chars, bool_text, decimal_digits, duration_chars};
use crate::updater::{later, text_version, UpdateState, UpdateView};
use crate::version::{
    law_numbers_decide_which_version_is_older, law_releases_read_as_their_numbers, lemma_parsed_inv,
    ReleaseKind, ReleaseVersion,
};

verus! {

/// Releases that a user wants to hear of.
#[derive(Clone, Copy, Debug, PartialEq, Eq, Structural)]
pub enum UpdateChannel {
    /// Stable releases.
    Stable,
    /// Every release.
    Nightly,
}

impl UpdateChannel {
    /// Characters of [`Self::name`].
    pub open spec fn name_chars(self) -> Seq<char> {
        match self {
            UpdateChannel::Stable => "Stable"@,
            UpdateChannel::Nightly => "Nightly"@,
        }
    }

    /// Name of the channel.
    pub fn name(self) -> (name: &'static str)
        ensures
            name@ == self.name_chars(),
    {
        match self {
            UpdateChannel::Stable => "Stable",
            UpdateChannel::Nightly => "Nightly",
        }
    }
}

/// Settings of automatic update checks.
#[derive(Clone, Copy, Debug, PartialEq, Eq, Structural)]
pub struct Updater {
    /// Whether to check at all.
    pub check_on_startup: bool,
    /// Releases to hear of.
    pub channel: UpdateChannel,
    /// Least time between checks, in nanoseconds.
    pub check_interval: u128,
}

impl Updater {
    /// Characters of [`Self::debug_text`].
    pub open spec fn debug_chars(self) -> Seq<char> {
        "Updater { check_on_startup: "@ + bool_chars(self.check_on_startup) + ", channel: "@
            + self.channel.name_chars() + ", check_interval: "@ + duration_chars(
            self.check_interval as nat,
        ) + " }"@
    }

    /// Diagnostic summary.
    pub fn debug_text(&self) -> (summary: String)
        ensures
            summary@ == self.debug_chars(),
    {
        let mut summary = "Updater { check_on_startup: ".to_owned();
        summary.append(bool_text(self.check_on_startup));
        summary.append(", channel: ");
        summary.append(self.channel.name());
        summary.append(", check_interval: ");
        append_duration(&mut summary, self.check_interval);
        summary.append(" }");
        summary
    }
}

/// Why a policy cannot be built.
#[derive(Clone, Copy, Debug, PartialEq, Eq, Structural)]
pub enum AutomaticUpdaterError {
    /// Checks would never pause.
    ZeroInterval,
}

impl AutomaticUpdaterError {
    /// Text of [`Self::message`].
    pub open spec fn text(self) -> Seq<char> {
        "automatic update interval must not be zero"@
    }

    /// Human-readable description.
    pub fn message(&self) -> (message: String)
        ensures
            message@ == self.text(),
    {
        "automatic update interval must not be zero".to_owned()
    }
}

/// How fetching release metadata failed.
#[derive(Clone, Copy, Debug, PartialEq, Eq, Structural)]
pub enum NetworkFailure {
    /// No answer came in time.
    Timeout,
    /// The connection failed.
    Transport,
    /// The service refused.
    Api,
    /// The answer cannot be used.
    InvalidResponse,
}

/// A release that the service reports.
pub struct RemoteRelease {
    /// Its version, without a tag prefix.
    pub version: String,
    /// Its kind.
    pub kind: ReleaseKind,
}

/// Milliseconds of an interval, rounded up.
pub open spec fn interval_millis(nanos: u128) -> int {
    let millis = (nanos + 999_999) / 1_000_000;
    if millis > u64::MAX {
        u64::MAX as int
    } else {
        millis
    }
}

/// Milliseconds of an interval, rounded up.
pub fn interval_ms(nanos: u128) -> (millis: u64)
    ensures
        millis == interval_millis(nanos),
{
    let whole: u128 = nanos / 1_000_000;
    let millis: u128 = if nanos % 1_000_000 == 0 {
        whole
    } else {
        whole + 1
    };
    if millis > u64::MAX as u128 {
        u64::MAX
    } else {
        millis as u64
    }
}

/// Policy state as a value.
#[verifier::ext_equal]
pub struct PolicyView {
    /// Version of this build.
    pub current: Seq<char>,
    /// Settings.
    pub settings: Updater,
    /// What is known of checks and announcements.
    pub state: UpdateView,
    /// Token of the next reservation or claim.
    pub next_token: u64,
    /// Reservation that is being stored, with its time.
    pub reservation: Option<(u64, u64)>,
    /// Check that is under way.
    pub in_flight: Option<u64>,
    /// Newer release that was not announced yet.
    pub available: Option<Seq<char>>,
    /// Claim that is being stored, with its version.
    pub claim: Option<(u64, Seq<char>)>,
    /// Whether this session has announced a release.
    pub announced: bool,
}

/// Why no check starts now, or under which token one is reserved.
#[derive(Clone, Copy, Debug, PartialEq, Eq, Structural)]
pub enum CheckReservationDecision {
    /// Checks are switched off.
    Disabled,
    /// This session has announced a release.
    SessionNoticeComplete,
    /// A check is under way.
    AlreadyInFlight,
    /// A reservation is being stored.
    ReservationAlreadyInFlight,
    /// An announcement is being claimed.
    NotificationClaimInFlight,
    /// The last check lies in the future.
    ClockAnomaly,
    /// The last check is too recent.
    IntervalPending,
    /// No token is left.
    TokenExhausted,
    /// Store the proposed state, then confirm this token.
    Reserve(u64),
}

/// How storing a proposal went.
pub enum ProposalPersistence {
    /// It is stored.
    Persisted,
    /// Another writer was first, and stored this.
    Superseded(UpdateState),
    /// It could not be stored.
    Failed,
}

/// What a stored reservation leads to.
#[derive(Clone, Copy, Debug, PartialEq, Eq, Structural)]
pub enum CheckReservationConfirmation {
    /// Fetch release metadata under this token.
    Request(u64),
    /// Nothing was stored.
    PersistenceFailed,
    /// Another session checks.
    SupersededByPersistedState,
    /// There is no such reservation.
    StaleReservation,
}

/// What a finished check leads to.
#[derive(Clone, Copy, Debug, PartialEq, Eq, Structural)]
pub enum CheckCompletion {
    /// A newer release may be announced.
    UpdateAvailable,
    /// There is nothing to announce.
    UpToDate,
    /// Nothing was learned.
    Failed(NetworkFailure),
    /// There is no such check.
    StaleToken,
}

/// Whether an announcement is to be claimed.
#[derive(Clone, Copy, Debug, PartialEq, Eq, Structural)]
pub enum ClaimDecision {
    /// There is nothing to announce, or not now.
    Nothing,
    /// Store the proposed state, then confirm this token.
    Claim(u64),
}

/// What a stored claim leads to.
pub enum ClaimConfirmation {
    /// Announce this version.
    Emit(String),
    /// Another session announces.
    Superseded,
    /// Nothing was stored.
    PersistenceFailed,
    /// There is no such claim.
    StaleClaim,
}

/// Whether a release is one that the channel is about.
pub open spec fn on_channel(channel: UpdateChannel, kind: ReleaseKind) -> bool {
    channel is Nightly || kind is Stable
}

/// Whether one version text is newer than another; both must be versions.
pub open spec fn newer_version(candidate: Seq<char>, than: Seq<char>) -> bool {
    match (text_version(candidate), text_version(than)) {
        (Some(a), Some(b)) => b.older(a),
        _ => false,
    }
}

impl PolicyView {
    /// When the last check was reserved or completed.
    pub open spec fn last_check(self) -> Option<u64> {
        later(self.state.reserved, self.state.completed)
    }

    /// What stored state adds is known from now on.
    pub open spec fn learned(self, stored: UpdateView) -> Self {
        PolicyView { state: self.state.merged(stored), ..self }
    }

    /// Why no check starts now, or under which token one is reserved.
    pub open spec fn decision(self, now_ms: u64) -> CheckReservationDecision {
        if !self.settings.check_on_startup {
            CheckReservationDecision::Disabled
        } else if self.announced {
            CheckReservationDecision::SessionNoticeComplete
        } else if self.in_flight is Some {
            CheckReservationDecision::AlreadyInFlight
        } else if self.reservation is Some {
            CheckReservationDecision::ReservationAlreadyInFlight
        } else if self.claim is Some {
            CheckReservationDecision::NotificationClaimInFlight
        } else if self.last_check() matches Some(last) && last > now_ms {
            CheckReservationDecision::ClockAnomaly
        } else if self.last_check() matches Some(last) && now_ms - last < interval_millis(
            self.settings.check_interval,
        ) {
            CheckReservationDecision::IntervalPending
        } else if self.next_token == u64::MAX {
            CheckReservationDecision::TokenExhausted
        } else {
            CheckReservationDecision::Reserve(self.next_token)
        }
    }

    /// Policy after a reservation was asked for.
    pub open spec fn after_reserve(self, now_ms: u64, stored: UpdateView) -> Self {
        let learned = self.learned(stored);
        match learned.decision(now_ms) {
            CheckReservationDecision::Reserve(token) => PolicyView {
                next_token: (learned.next_token + 1) as u64,
                reservation: Some((token, now_ms)),
                ..learned
            },
            _ => learned,
        }
    }

    /// State to store for the pending reservation.
    pub open spec fn reservation_proposal(self) -> UpdateView {
        match self.reservation {
            Some((_, now_ms)) => UpdateView { reserved: Some(now_ms), ..self.state },
            None => self.state,
        }
    }

    /// What confirming a reservation gives.
    pub open spec fn after_confirm(self, token: u64, persistence: ProposalPersistence) -> (
        Self,
        CheckReservationConfirmation,
    ) {
        match self.reservation {
            Some((reserved, now_ms)) => if reserved != token {
                (self, CheckReservationConfirmation::StaleReservation)
            } else {
                let open = PolicyView { reservation: None, ..self };
                match persistence {
                    ProposalPersistence::Persisted => (
                        PolicyView {
                            in_flight: Some(token),
                            state: UpdateView { reserved: Some(now_ms), ..self.state },
                            ..open
                        },
                        CheckReservationConfirmation::Request(token),
                    ),
                    ProposalPersistence::Superseded(winner) => (
                        open.learned(winner@),
                        CheckReservationConfirmation::SupersededByPersistedState,
                    ),
                    ProposalPersistence::Failed => (
                        open,
                        CheckReservationConfirmation::PersistenceFailed,
                    ),
                }
            },
            None => (self, CheckReservationConfirmation::StaleReservation),
        }
    }

    /// Whether a release is to be announced: it is on the channel, newer than
    /// this build and newer than what was announced before.
    pub open spec fn announces(self, version: Seq<char>, kind: ReleaseKind) -> bool {
        &&& on_channel(self.settings.channel, kind)
        &&& newer_version(version, self.current)
        &&& self.state.notified matches Some(notified) ==> newer_version(version, notified)
    }

    /// What a finished check gives.
    pub open spec fn after_check(
        self,
        token: u64,
        completed_at_ms: u64,
        response: Result<RemoteRelease, NetworkFailure>,
    ) -> (Self, CheckCompletion) {
        if self.in_flight != Some(token) {
            (self, CheckCompletion::StaleToken)
        } else {
            let done = PolicyView { in_flight: None, ..self };
            match response {
                Err(failure) => (done, CheckCompletion::Failed(failure)),
                Ok(release) => {
                    let timed = PolicyView {
                        state: UpdateView {
                            completed: later(Some(completed_at_ms), self.state.completed),
                            ..self.state
                        },
                        ..done
                    };
                    if timed.announces(release.version@, release.kind) {
                        (
                            PolicyView { available: Some(release.version@), ..timed },
                            CheckCompletion::UpdateAvailable,
                        )
                    } else {
                        (timed, CheckCompletion::UpToDate)
                    }
                },
            }
        }
    }

    /// Version that may be claimed now.
    pub open spec fn claimable(self) -> Option<Seq<char>> {
        match self.available {
            Some(version) => if self.settings.check_on_startup && !self.announced && self.in_flight is None
                && self.reservation is None && self.claim is None && self.next_token < u64::MAX && (
            self.state.notified matches Some(notified) ==> newer_version(version, notified)) {
                Some(version)
            } else {
                None
            },
            None => None,
        }
    }

    /// What asking for a claim gives.
    pub open spec fn after_claim(self, stored: UpdateView) -> (Self, ClaimDecision) {
        let learned = self.learned(stored);
        match learned.claimable() {
            Some(version) => (
                PolicyView {
                    next_token: (learned.next_token + 1) as u64,
                    claim: Some((learned.next_token, version)),
                    ..learned
                },
                ClaimDecision::Claim(learned.next_token),
            ),
            None => (learned, ClaimDecision::Nothing),
        }
    }

    /// State to store for the pending claim.
    pub open spec fn claim_proposal(self) -> UpdateView {
        match self.claim {
            Some((_, version)) => UpdateView { notified: Some(version), ..self.state },
            None => self.state,
        }
    }

    /// Policy after a claim was confirmed.
    pub open spec fn after_notice(self, token: u64, persistence: ProposalPersistence) -> Self {
        match self.claim {
            Some((claimed, version)) => if claimed != token {
                self
            } else {
                let open = PolicyView { claim: None, ..self };
                match persistence {
                    ProposalPersistence::Persisted => PolicyView {
                        announced: true,
                        available: None,
                        state: UpdateView { notified: Some(version), ..self.state },
                        ..open
                    },
                    ProposalPersistence::Superseded(winner) => open.learned(winner@),
                    ProposalPersistence::Failed => open,
                }
            },
            None => self,
        }
    }

    /// Stored versions are versions, and so are those to announce.
    pub open spec fn inv(self) -> bool {
        &&& self.state.inv()
        &&& self.available matches Some(version) ==> text_version(version) is Some
        &&& self.claim matches Some((_, version)) ==> text_version(version) is Some
        &&& self.settings.check_interval > 0
    }
}

/// Policy for one session's automatic update checks.
pub struct AutomaticUpdater {
    current: String,
    settings: Updater,
    state: UpdateState,
    next_token: u64,
    reservation: Option<(u64, u64)>,
    in_flight: Option<u64>,
    available: Option<String>,
    claim: Option<(u64, String)>,
    announced: bool,
}

impl View for AutomaticUpdater {
    type V = PolicyView;

    closed spec fn view(&self) -> PolicyView {
        PolicyView {
            current: self.current@,
            settings: self.settings,
            state: self.state@,
            next_token: self.next_token,
            reservation: self.reservation,
            in_flight: self.in_flight,
            available: match self.available {
                Some(version) => Some(version@),
                None => None,
            },
            claim: match self.claim {
                Some((token, version)) => Some((token, version@)),
                None => None,
            },
            announced: self.announced,
        }
    }
}

fn is_newer(candidate: &str, than: &str) -> (newer: bool)
    ensures
        newer == newer_version(candidate@, than@),
{
    match (ReleaseVersion::parse(candidate.as_bytes()), ReleaseVersion::parse(than.as_bytes())) {
        (Some(a), Some(b)) => b.is_older(&a),
        _ => false,
    }
}

/// Policy that has done nothing yet.
pub open spec fn fresh_policy(current: Seq<char>, settings: Updater, state: UpdateView) -> PolicyView {
    PolicyView {
        current,
        settings,
        state,
        next_token: 0,
        reservation: None,
        in_flight: None,
        available: None,
        claim: None,
        announced: false,
    }
}

impl AutomaticUpdater {
    /// Builds a policy for this build's version.
    pub fn new(current: &str, settings: Updater, state: UpdateState) -> (result: Result<
        AutomaticUpdater,
        AutomaticUpdaterError,
    >)
        ensures
            match result {
                Ok(policy) => settings.check_interval > 0 && policy@ == fresh_policy(
                    current@,
                    settings,
                    state@,
                ) && policy@.inv(),
                Err(_) => settings.check_interval == 0,
            },
    {
        if settings.check_interval == 0 {
            return Err(AutomaticUpdaterError::ZeroInterval);
        }
        Ok(
            AutomaticUpdater {
                current: current.to_owned(),
                settings,
                state: state.validated(),
                next_token: 0,
                reservation: None,
                in_flight: None,
                available: None,
                claim: None,
                announced: false,
            },
        )
    }

    /// Settings in force.
    pub fn settings(&self) -> (settings: Updater)
        ensures
            settings == self@.settings,
    {
        self.settings
    }

    /// Version of this build.
    pub fn current_version(&self) -> (version: &str)
        ensures
            version@ == self@.current,
    {
        self.current.as_str()
    }

    /// What is known of checks and announcements.
    pub fn state_for_persistence(&self) -> (state: UpdateState)
        ensures
            state@ == self@.state,
    {
        self.state.clone()
    }

    fn decide(&self, now_ms: u64) -> (decision: CheckReservationDecision)
        ensures
            decision == self@.decision(now_ms),
    {
        if !self.settings.check_on_startup {
            return CheckReservationDecision::Disabled;
        }
        if self.announced {
            return CheckReservationDecision::SessionNoticeComplete;
        }
        if self.in_flight.is_some() {
            return CheckReservationDecision::AlreadyInFlight;
        }
        if self.reservation.is_some() {
            return CheckReservationDecision::ReservationAlreadyInFlight;
        }
        if self.claim.is_some() {
            return CheckReservationDecision::NotificationClaimInFlight;
        }
        let reserved: Option<u64> = self.state.last_reserved_check_ms();
        let completed: Option<u64> = self.state.last_completed_check_ms();
        let last: Option<u64> = match (reserved, completed) {
            (Some(x), Some(y)) => Some(
                if x < y {
                    y
                } else {
                    x
                },
            ),
            (Some(x), None) => Some(x),
            (None, _) => completed,
        };
        if let Some(last) = last {
            if last > now_ms {
                return CheckReservationDecision::ClockAnomaly;
            }
            if now_ms - last < interval_ms(self.settings.check_interval) {
                return CheckReservationDecision::IntervalPending;
            }
        }
        if self.next_token == u64::MAX {
            return CheckReservationDecision::TokenExhausted;
        }
        CheckReservationDecision::Reserve(self.next_token)
    }

    /// Asks whether a check may start, given what is stored.
    pub fn reserve_startup_check(&mut self, now_ms: u64, stored: &UpdateState) -> (decision:
        CheckReservationDecision)
        requires
            old(self)@.inv(),
        ensures
            final(self)@.inv(),
            decision == old(self)@.learned(stored@).decision(now_ms),
            final(self)@ == old(self)@.after_reserve(now_ms, stored@),
    {
        self.state = self.state.merged_for_persistence(stored);
        let decision = self.decide(now_ms);
        if let CheckReservationDecision::Reserve(token) = decision {
            self.next_token = self.next_token + 1;
            self.reservation = Some((token, now_ms));
        }
        decision
    }

    /// State to store for the pending reservation.
    pub fn reservation_for_persistence(&self) -> (state: UpdateState)
        requires
            self@.inv(),
        ensures
            state@ == self@.reservation_proposal(),
    {
        match self.reservation {
            Some((_, now_ms)) => self.state.with_reserved(now_ms),
            None => self.state.clone(),
        }
    }

    /// Confirms that a reservation was stored, or was not.
    pub fn confirm_check_reservation(&mut self, token: u64, persistence: ProposalPersistence) -> (confirmation:
        CheckReservationConfirmation)
        requires
            old(self)@.inv(),
        ensures
            final(self)@.inv(),
            (final(self)@, confirmation) == old(self)@.after_confirm(token, persistence),
    {
        match self.reservation {
            Some((reserved, now_ms)) => {
                if reserved != token {
                    return CheckReservationConfirmation::StaleReservation;
                }
                self.reservation = None;
                match persistence {
                    ProposalPersistence::Persisted => {
                        self.in_flight = Some(token);
                        self.state = self.state.with_reserved(now_ms);
                        CheckReservationConfirmation::Request(token)
                    },
                    ProposalPersistence::Superseded(winner) => {
                        self.state = self.state.merged_for_persistence(&winner);
                        CheckReservationConfirmation::SupersededByPersistedState
                    },
                    ProposalPersistence::Failed => CheckReservationConfirmation::PersistenceFailed,
                }
            },
            None => CheckReservationConfirmation::StaleReservation,
        }
    }

    fn is_announced(&self, release: &RemoteRelease) -> (announces: bool)
        ensures
            announces == self@.announces(release.version@, release.kind),
    {
        let on_channel: bool = self.settings.channel == UpdateChannel::Nightly || release.kind
            == ReleaseKind::Stable;
        if !on_channel || !is_newer(release.version.as_str(), self.current.as_str()) {
            return false;
        }
        match self.state.last_notified_version() {
            Some(notified) => is_newer(release.version.as_str(), notified),
            None => true,
        }
    }

    /// Takes in the outcome of a check.
    pub fn complete_check(
        &mut self,
        token: u64,
        completed_at_ms: u64,
        response: Result<RemoteRelease, NetworkFailure>,
    ) -> (completion: CheckCompletion)
        requires
            old(self)@.inv(),
        ensures
            final(self)@.inv(),
            (final(self)@, completion) == old(self)@.after_check(token, completed_at_ms, response),
    {
        let current: bool = match self.in_flight {
            Some(running) => running == token,
            None => false,
        };
        if !current {
            return CheckCompletion::StaleToken;
        }
        self.in_flight = None;
        match response {
            Err(failure) => CheckCompletion::Failed(failure),
            Ok(release) => {
                self.state = self.state.with_completed(completed_at_ms);
                if self.is_announced(&release) {
                    self.available = Some(release.version);
                    CheckCompletion::UpdateAvailable
                } else {
                    CheckCompletion::UpToDate
                }
            },
        }
    }

    /// Asks whether an announcement is to be claimed, given what is stored.
    pub fn claim_after_completed_command(&mut self, stored: &UpdateState) -> (decision: ClaimDecision)
        requires
            old(self)@.inv(),
        ensures
            final(self)@.inv(),
            (final(self)@, decision) == old(self)@.after_claim(stored@),
    {
        self.state = self.state.merged_for_persistence(stored);
        match &self.available {
            None => ClaimDecision::Nothing,
            Some(version) => {
                if !self.settings.check_on_startup || self.announced || self.in_flight.is_some()
                    || self.reservation.is_some() || self.claim.is_some() || self.next_token == u64::MAX {
                    return ClaimDecision::Nothing;
                }
                if let Some(notified) = self.state.last_notified_version() {
                    if !is_newer(version.as_str(), notified) {
                        return ClaimDecision::Nothing;
                    }
                }
                let token: u64 = self.next_token;
                self.claim = Some((token, version.as_str().to_owned()));
                self.next_token = token + 1;
                ClaimDecision::Claim(token)
            },
        }
    }

    /// State to store for the pending claim.
    pub fn claim_for_persistence(&self) -> (state: UpdateState)
        requires
            self@.inv(),
        ensures
            state@ == self@.claim_proposal(),
    {
        match &self.claim {
            Some((_, version)) => self.state.with_notified(version.as_str()),
            None => self.state.clone(),
        }
    }

    /// Confirms that a claim was stored, or was not.
    pub fn confirm_notification(&mut self, token: u64, persistence: ProposalPersistence) -> (confirmation:
        ClaimConfirmation)
        requires
            old(self)@.inv(),
        ensures
            final(self)@.inv(),
            final(self)@ == old(self)@.after_notice(token, persistence),
            match old(self)@.claim {
                Some((claimed, version)) => if claimed != token {
                    confirmation is StaleClaim
                } else {
                    match persistence {
                        ProposalPersistence::Persisted => confirmation matches ClaimConfirmation::Emit(text)
                            && text@ == version,
                        ProposalPersistence::Superseded(_) => confirmation is Superseded,
                        ProposalPersistence::Failed => confirmation is PersistenceFailed,
                    }
                },
                None => confirmation is StaleClaim,
            },
    {
        let version: String = match &self.claim {
            Some((claimed, version)) => {
                if *claimed != token {
                    return ClaimConfirmation::StaleClaim;
                }
                version.as_str().to_owned()
            },
            None => {
                return ClaimConfirmation::StaleClaim;
            },
        };
        self.claim = None;
        match persistence {
            ProposalPersistence::Persisted => {
                self.announced = true;
                self.available = None;
                self.state = self.state.with_notified(version.as_str());
                ClaimConfirmation::Emit(version)
            },
            ProposalPersistence::Superseded(winner) => {
                self.state = self.state.merged_for_persistence(&winner);
                ClaimConfirmation::Superseded
            },
            ProposalPersistence::Failed => ClaimConfirmation::PersistenceFailed,
        }
    }
}

/// A session announces at most one release, and none while checks are off.
pub proof fn law_announcements_stop(policy: PolicyView, stored: UpdateView)
    requires
        policy.announced || !policy.settings.check_on_startup,
    ensures
        policy.after_claim(stored).1 is Nothing,
        forall|now_ms: u64| !(#[trigger] policy.learned(stored).decision(now_ms) is Reserve),
{
}

/// A release that was announced is not announced again: not by the session
/// that did, nor by one that learns it from stored state.
pub proof fn law_no_release_is_announced_twice(policy: PolicyView, version: Seq<char>, kind: ReleaseKind)
    requires
        policy.inv(),
        policy.state.notified == Some(version),
    ensures
        !policy.announces(version, kind),
        policy.available == Some(version) ==> policy.claimable() is None,
{
    crate::version::lemma_parsed_inv(vstd::utf8::encode_utf8(version));
    crate::version::law_versions_are_ordered(text_version(version)->0, text_version(version)->0);
}

/// A build without a version, such as a development build, announces nothing.
pub proof fn law_unversioned_builds_announce_nothing(
    policy: PolicyView,
    version: Seq<char>,
    kind: ReleaseKind,
)
    requires
        text_version(policy.current) is None,
    ensures
        !policy.announces(version, kind),
{
}

/// Whoever wants stable releases hears of no other.
pub proof fn law_stable_channel_is_stable(policy: PolicyView, version: Seq<char>)
    requires
        policy.settings.channel is Stable,
    ensures
        !policy.announces(version, ReleaseKind::Nightly),
{
}

/// Release metadata is fetched only under a reservation that was stored.
pub proof fn law_requests_are_reserved_first(
    policy: PolicyView,
    token: u64,
    persistence: ProposalPersistence,
)
    ensures
        ({
            let (after, confirmation) = policy.after_confirm(token, persistence);
            let stored = persistence is Persisted && (policy.reservation matches Some((reserved, _))
                && reserved == token);
            &&& confirmation is Request <==> stored
            &&& !stored ==> after.in_flight == policy.in_flight
        }),
{
}

/// A release is announced only under a claim that was stored.
pub proof fn law_notices_are_claimed_first(
    policy: PolicyView,
    token: u64,
    persistence: ProposalPersistence,
)
    ensures
        policy.after_notice(token, persistence).announced <==> policy.announced || (persistence
            is Persisted && (policy.claim matches Some((claimed, _)) && claimed == token)),
{
}

/// Of several sessions that read the same stored state, at most one checks: a
/// stored reservation changes that state, so the others are superseded.
pub proof fn law_one_session_reserves(policy: PolicyView, stored: UpdateView, now_ms: u64)
    requires
        policy.inv(),
        policy.learned(stored).decision(now_ms) is Reserve,
    ensures
        ({
            let proposal = policy.after_reserve(now_ms, stored).reservation_proposal();
            &&& proposal.merged(stored).reserved == Some(now_ms)
            &&& proposal.merged(stored) != stored
        }),
{
    let learned = policy.learned(stored);
    assert(interval_millis(policy.settings.check_interval) >= 1);
    if let Some(reserved) = stored.reserved {
        assert(learned.last_check() matches Some(last) && last >= reserved);
    }
}

/// Of several sessions that read the same stored state, at most one announces a
/// release: a stored claim changes that state, so the others are superseded.
pub proof fn law_one_session_announces(policy: PolicyView, stored: UpdateView)
    requires
        policy.inv(),
        stored.inv(),
        policy.after_claim(stored).1 is Claim,
    ensures
        ({
            let claimed = policy.after_claim(stored).0;
            let merged = claimed.claim_proposal().merged(stored);
            &&& claimed.claim matches Some((_, version)) && merged.notified == Some(version)
            &&& merged != stored
        }),
{
    let learned = policy.learned(stored);
    let version = learned.claimable()->0;
    crate::version::lemma_parsed_inv(vstd::utf8::encode_utf8(version));
    if let Some(known) = stored.notified {
        let newest = learned.state.notified->0;
        crate::version::lemma_parsed_inv(vstd::utf8::encode_utf8(known));
        crate::version::lemma_parsed_inv(vstd::utf8::encode_utf8(newest));
        let (a, b, c) = (
            text_version(known)->0,
            text_version(newest)->0,
            text_version(version)->0,
        );
        crate::version::law_versions_are_ordered(a, c);
        crate::version::law_versions_are_ordered(a, b);
        crate::version::law_versions_are_ordered(b, b);
        crate::version::law_versions_are_ordered(a, a);
        crate::version::law_older_is_transitive(b, c, a);
    }
}

/// Text of a release: its three numbers with points between them.
pub open spec fn is_release_text(text: Seq<char>, major: u64, minor: u64, patch: u64) -> bool {
    vstd::utf8::encode_utf8(text) == (decimal_digits(major as nat).push(46) + decimal_digits(
        minor as nat,
    )).push(46) + decimal_digits(patch as nat)
}

/// Whether one triple of numbers comes before another, the first that differs
/// deciding.
pub open spec fn numbers_before(a: (u64, u64, u64), b: (u64, u64, u64)) -> bool {
    a.0 < b.0 || (a.0 == b.0 && (a.1 < b.1 || (a.1 == b.1 && a.2 < b.2)))
}

/// A check that finds a stable release ends in an announcement to come exactly
/// where the release's numbers come behind those of this build and behind those
/// announced before; whether it does or not, it counts as completed.
pub proof fn law_higher_releases_are_available(
    policy: PolicyView,
    token: u64,
    completed_at_ms: u64,
    release: RemoteRelease,
    current: (u64, u64, u64),
    offered: (u64, u64, u64),
    known: (u64, u64, u64),
)
    requires
        policy.in_flight == Some(token),
        is_release_text(policy.current, current.0, current.1, current.2),
        is_release_text(release.version@, offered.0, offered.1, offered.2),
        policy.state.notified matches Some(notified) ==> is_release_text(
            notified,
            known.0,
            known.1,
            known.2,
        ),
        release.kind is Stable,
    ensures
        ({
            let (after, completion) = policy.after_check(token, completed_at_ms, Ok(release));
            let announced = numbers_before(current, offered) && (policy.state.notified is Some
                ==> numbers_before(known, offered));
            &&& announced ==> completion is UpdateAvailable && after.available == Some(release.version@)
            &&& !announced ==> completion is UpToDate && after.available == policy.available
            &&& after.in_flight is None
            &&& after.state.completed matches Some(moment) && moment >= completed_at_ms
            &&& after.state.notified == policy.state.notified
        }),
{
    law_releases_read_as_their_numbers(current.0, current.1, current.2);
    law_releases_read_as_their_numbers(offered.0, offered.1, offered.2);
    law_releases_read_as_their_numbers(known.0, known.1, known.2);
    let build = text_version(policy.current)->0;
    let found = text_version(release.version@)->0;
    law_numbers_decide_which_version_is_older(build, found);
    law_numbers_decide_which_version_is_older(found, build);
    if let Some(notified) = policy.state.notified {
        law_numbers_decide_which_version_is_older(text_version(notified)->0, found);
        law_numbers_decide_which_version_is_older(found, text_version(notified)->0);
    }
}

/// Who wants every release hears of nightly ones too, and everybody of stable
/// ones.
pub proof fn law_channels_choose_the_releases(channel: UpdateChannel, kind: ReleaseKind)
    ensures
        channel is Nightly ==> on_channel(channel, kind),
        kind is Stable ==> on_channel(channel, kind),
        channel is Stable && kind is Nightly ==> !on_channel(channel, kind),
{
}

/// A version is newer than another where that is older than it; what is no
/// version is neither.
pub proof fn law_newer_is_not_older(a: Seq<char>, b: Seq<char>)
    ensures
        newer_version(a, b) ==> text_version(a) is Some && text_version(b) is Some && text_version(
            b,
        )->0.older(text_version(a)->0) && !newer_version(b, a),
        text_version(a) is Some && text_version(b) is Some && text_version(b)->0.older(
            text_version(a)->0,
        ) ==> newer_version(a, b),
{
    if text_version(a) is Some && text_version(b) is Some {
        crate::version::lemma_parsed_inv(vstd::utf8::encode_utf8(a));
        crate::version::lemma_parsed_inv(vstd::utf8::encode_utf8(b));
        crate::version::law_versions_are_ordered(text_version(a)->0, text_version(b)->0);
    }
}

/// A check is reserved exactly where checks are on, nothing was announced, nothing
/// else is under way, the clock is sane, the interval has passed since the last
/// check of any session, and a token is left.
pub proof fn law_checks_wait_for_their_interval(policy: PolicyView, now_ms: u64, last: u64)
    requires
        policy.state.reserved == Some(last) || policy.state.completed == Some(last),
        policy.state.reserved matches Some(moment) ==> moment <= last,
        policy.state.completed matches Some(moment) ==> moment <= last,
    ensures
        policy.decision(now_ms) is Reserve <==> {
            &&& policy.settings.check_on_startup
            &&& !policy.announced
            &&& policy.in_flight is None
            &&& policy.reservation is None
            &&& policy.claim is None
            &&& last <= now_ms
            &&& (now_ms - last) * 1_000_000 >= policy.settings.check_interval || now_ms - last
                >= u64::MAX
            &&& policy.next_token < u64::MAX
        },
        policy.decision(now_ms) matches CheckReservationDecision::Reserve(token) ==> token
            == policy.next_token,
        !policy.settings.check_on_startup ==> policy.decision(now_ms) is Disabled,
        policy.settings.check_on_startup && policy.announced ==> policy.decision(now_ms)
            is SessionNoticeComplete,
        policy.settings.check_on_startup && !policy.announced && policy.in_flight is None
            && policy.reservation is None && policy.claim is None && last > now_ms ==> policy.decision(
            now_ms,
        ) is ClockAnomaly,
{
}

/// Where no check was ever made, the first one does not wait.
pub proof fn law_first_checks_do_not_wait(policy: PolicyView, now_ms: u64)
    requires
        policy.state.reserved is None,
        policy.state.completed is None,
        policy.settings.check_on_startup,
        !policy.announced,
        policy.in_flight is None,
        policy.reservation is None,
        policy.claim is None,
        policy.next_token < u64::MAX,
    ensures
        policy.decision(now_ms) == CheckReservationDecision::Reserve(policy.next_token),
{
}

/// A reservation proposes the time of the check under a fresh token, and, once
/// stored, leads to exactly that check; one that another session overtook leads
/// to none.
pub proof fn law_reservations_lead_to_one_check(
    policy: PolicyView,
    now_ms: u64,
    stored: UpdateView,
    token: u64,
    winner: UpdateState,
)
    requires
        policy.learned(stored).decision(now_ms) == CheckReservationDecision::Reserve(token),
    ensures
        ({
            let reserved = policy.after_reserve(now_ms, stored);
            let (checking, request) = reserved.after_confirm(token, ProposalPersistence::Persisted);
            let (overtaken, refusal) = reserved.after_confirm(
                token,
                ProposalPersistence::Superseded(winner),
            );
            let (failed, failure) = reserved.after_confirm(token, ProposalPersistence::Failed);
            &&& reserved.reservation == Some((token, now_ms))
            &&& reserved.next_token > token
            &&& reserved.reservation_proposal().reserved == Some(now_ms)
            &&& reserved.reservation_proposal().notified == reserved.state.notified
            &&& request == CheckReservationConfirmation::Request(token)
            &&& checking.in_flight == Some(token) && checking.reservation is None
            &&& checking.state.reserved == Some(now_ms)
            &&& refusal is SupersededByPersistedState
            &&& overtaken.in_flight == reserved.in_flight && overtaken.reservation is None
            &&& failure is PersistenceFailed
            &&& failed.in_flight == reserved.in_flight && failed.reservation is None
            &&& failed.state == reserved.state
        }),
{
}

/// A check that fails leaves everything but itself as it was, and one that is not
/// under way changes nothing.
pub proof fn law_failed_checks_teach_nothing(
    policy: PolicyView,
    token: u64,
    completed_at_ms: u64,
    failure: NetworkFailure,
    response: Result<RemoteRelease, NetworkFailure>,
)
    ensures
        policy.in_flight == Some(token) ==> policy.after_check(token, completed_at_ms, Err(failure)) == (
            PolicyView { in_flight: None, ..policy },
            CheckCompletion::Failed(failure),
        ),
        policy.in_flight != Some(token) ==> policy.after_check(token, completed_at_ms, response) == (
            policy,
            CheckCompletion::StaleToken,
        ),
{
}

/// An available release is claimed where nothing else is under way and nobody has
/// announced it or a newer one; once the claim is stored it counts as announced,
/// and nothing is available any more.
pub proof fn law_available_releases_are_announced_once(
    policy: PolicyView,
    stored: UpdateView,
    version: Seq<char>,
)
    requires
        policy.settings.check_on_startup,
        !policy.announced,
        policy.in_flight is None,
        policy.reservation is None,
        policy.claim is None,
        policy.next_token < u64::MAX,
        policy.available == Some(version),
        policy.learned(stored).state.notified matches Some(notified) ==> newer_version(version, notified),
    ensures
        ({
            let (claimed, decision) = policy.after_claim(stored);
            let after = claimed.after_notice(policy.next_token, ProposalPersistence::Persisted);
            &&& decision == ClaimDecision::Claim(policy.next_token)
            &&& claimed.claim == Some((policy.next_token, version))
            &&& claimed.claim_proposal().notified == Some(version)
            &&& claimed.claim_proposal().reserved == claimed.state.reserved
            &&& after.announced
            &&& after.available is None
            &&& after.state.notified == Some(version)
            &&& after.claim is None
            &&& after.after_claim(stored).1 is Nothing
        }),
{
}

/// Interval in milliseconds: rounded up, so that no check comes too soon.
pub proof fn law_intervals_are_rounded_up(nanos: u128)
    ensures
        interval_millis(nanos) < u64::MAX ==> interval_millis(nanos) * 1_000_000 >= nanos && (
        interval_millis(nanos) - 1) * 1_000_000 < nanos,
        interval_millis(nanos) <= u64::MAX,
        nanos == 0 ==> interval_millis(nanos) == 0,
{
}

} // verus!
