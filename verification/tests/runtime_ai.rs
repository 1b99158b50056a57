use argmax::ai_context::AiContextLevel;
use argmax::completion::{InsertionBehavior, Suggestion, SuggestionSource, TextEdit};
use argmax::coordinator::{CompletionCoordinator, QueryWork};
use argmax::runtime_ai::{
    apply_cancellation, provider_outcome, selected_provider, AiCommandAdmission, AiCompletionDispatcher,
    AiCompletionOptions, AiQueryAdmission, AiSettings, CancellationReason, ContextDecision,
    ContextKey, LifecycleAction, LifecycleStep, PollOutcome, ProviderOutcome, RequestResult,
    ResponseDisposition, RuntimeEvent, SanitizedProviderError, Scheduler, SessionId,
    AI_COMPLETION_PROVIDER, CONTEXT_CACHE_TTL, EVENT_QUEUE_CAPACITY, MAX_AI_RECENT_COMMANDS,
    MAX_RECENT_COMMAND_BYTES, MAX_REQUEST_WORKERS,
};

fn settings(enabled: bool) -> AiSettings {
    AiSettings {
        enabled,
        ready: true,
        provider: Some("community".to_owned()),
        context_level: AiContextLevel::Workspace,
        revision: 0,
    }
}

fn options(enabled: bool) -> AiCompletionOptions {
    AiCompletionOptions::new("bash".to_owned(), "linux".to_owned(), settings(enabled))
}

fn query(line: &str) -> QueryWork {
    let mut coordinator =
        CompletionCoordinator::new(vec![AI_COMPLETION_PROVIDER.to_owned()], 8).unwrap();
    coordinator.start_query(line.to_owned(), line.len(), b"/tmp".to_vec()).unwrap()
}

fn suggestion(line: &str, text: &str) -> Suggestion {
    Suggestion::new(
        TextEdit { range: 0..line.len(), replacement: text.to_owned() },
        text.to_owned(),
        String::new(),
        "ai".to_owned(),
        SuggestionSource::Ai,
        InsertionBehavior::Exact,
        "ai:0".to_owned(),
    )
}

fn observe(dispatcher: &mut AiCompletionDispatcher, scheduler: &mut Scheduler) {
    while let Some(event) = dispatcher.next_event() {
        let _ = scheduler.handle_event(dispatcher, event, false);
    }
}

fn answer(line: &str, text: &str, authority: u64) -> (RequestResult, Result<Suggestion, String>) {
    let result = RequestResult {
        query: query(line).query().clone(),
        authority,
        settings_generation: 0,
        result: Ok(text.to_owned()),
    };
    (result, Ok(suggestion(line, text)))
}

#[test]
fn disabled_settings_allow_no_request() {
    assert!(!settings(false).requests_allowed(true));
    assert!(!settings(true).requests_allowed(false));
    assert!(settings(true).requests_allowed(true));
    let incomplete = AiSettings { ready: false, ..settings(true) };
    assert!(!incomplete.requests_allowed(true));
    assert!(settings(true).same_as(&settings(true)) && !settings(true).same_as(&settings(false)));
}

#[test]
fn explicit_reconfiguration_precedes_the_following_query() {
    let mut dispatcher = AiCompletionDispatcher::spawn();
    let mut scheduler = Scheduler::new(&options(false), None);
    assert!(dispatcher.reconfigure(settings(true)));
    assert!(dispatcher.submit_query(query("git"), false) == AiQueryAdmission::Queued);

    assert!(scheduler.apply_pending_reconfiguration(&mut dispatcher));
    assert!(scheduler.settings().enabled);
    assert!(!scheduler.apply_pending_reconfiguration(&mut dispatcher));
    observe(&mut dispatcher, &mut scheduler);
    let authority = scheduler.start_request(&dispatcher, "git", false).unwrap();
    assert!(scheduler.claim_request(&mut dispatcher, authority, false).is_none());
    dispatcher.request_started();
    let (result, validated) = answer("git", "git status", authority);
    scheduler.handle_result(
        &mut dispatcher,
        result,
        ResponseDisposition::Accepted,
        validated,
        false,
    );
    dispatcher.request_finished();
    let batches = dispatcher.drain_batches(1);
    assert!(batches[0].error.is_none());
    assert!(batches[0].suggestions.len() == 1);
    assert!(dispatcher.status().requests_started == 1);
    assert!(dispatcher.status().active_requests == 0);
}

#[test]
fn explicit_reconfiguration_does_not_depend_on_event_queue_capacity() {
    let mut dispatcher = AiCompletionDispatcher::spawn();
    for _ in 0..EVENT_QUEUE_CAPACITY {
        let admission = dispatcher.record_completed_command("ls".to_owned());
        assert!(admission == AiCommandAdmission::Queued);
    }
    assert!(dispatcher.submit_query(query("git"), false) == AiQueryAdmission::Full);
    assert!(dispatcher.record_completed_command("ls".to_owned()) == AiCommandAdmission::Full);

    assert!(dispatcher.reconfigure(settings(true)));
    let mut scheduler = Scheduler::new(&options(false), None);
    assert!(scheduler.apply_pending_reconfiguration(&mut dispatcher));
    assert!(scheduler.settings().enabled);
    assert!(dispatcher.status().queued_events == EVENT_QUEUE_CAPACITY);
}

#[test]
fn accepted_output_is_an_inert_ai_provider_batch() {
    let mut dispatcher = AiCompletionDispatcher::spawn();
    let mut scheduler = Scheduler::new(&options(true), None);
    assert!(dispatcher.submit_query(query("git"), false) == AiQueryAdmission::Queued);
    observe(&mut dispatcher, &mut scheduler);
    let authority = scheduler.start_request(&dispatcher, "git", false).unwrap();
    let (result, validated) = answer("git", "git status", authority);
    scheduler.handle_result(
        &mut dispatcher,
        result,
        ResponseDisposition::Accepted,
        validated,
        false,
    );

    let batches = dispatcher.drain_batches(8);
    let batch = &batches[0];
    assert_eq!(batch.provider, AI_COMPLETION_PROVIDER);
    assert_eq!(batch.generation, 0);
    assert!(batch.error.is_none());
    assert_eq!(batch.suggestions.len(), 1);
    let suggestion = &batch.suggestions[0];
    assert_eq!(suggestion.source(), SuggestionSource::Ai);
    assert_eq!(suggestion.edit().apply("git").unwrap(), "git status");
}

#[test]
fn changed_query_suppresses_the_late_generation() {
    let mut dispatcher = AiCompletionDispatcher::spawn();
    let mut scheduler = Scheduler::new(&options(true), None);
    assert!(dispatcher.submit_query(query("git"), false) == AiQueryAdmission::Queued);
    observe(&mut dispatcher, &mut scheduler);
    let first = scheduler.start_request(&dispatcher, "git", false).unwrap();
    assert!(dispatcher.submit_query(query("git s"), false) == AiQueryAdmission::Queued);
    observe(&mut dispatcher, &mut scheduler);
    let second = scheduler.start_request(&dispatcher, "git s", false).unwrap();
    assert!(
        scheduler.claim_request(&mut dispatcher, first, false)
            == Some("AI query authority was cancelled")
    );

    let (result, validated) = answer("git", "git status", first);
    scheduler.handle_result(
        &mut dispatcher,
        result,
        ResponseDisposition::Accepted,
        validated,
        false,
    );
    let (result, validated) = answer("git s", "git stash", second);
    scheduler.handle_result(
        &mut dispatcher,
        result,
        ResponseDisposition::Accepted,
        validated,
        false,
    );
    let batches = dispatcher.drain_batches(8);
    assert_eq!(batches.len(), 1);
    assert_eq!(batches[0].generation, 0);
    assert_eq!(batches[0].suggestions[0].edit().apply("git s").unwrap(), "git stash");
    assert!(dispatcher.status().stale_results >= 1);
}

#[test]
fn cancellation_discards_a_provider_result() {
    let mut dispatcher = AiCompletionDispatcher::spawn();
    let mut scheduler = Scheduler::new(&options(true), None);
    assert!(dispatcher.submit_query(query("git"), false) == AiQueryAdmission::Queued);
    observe(&mut dispatcher, &mut scheduler);
    let authority = scheduler.start_request(&dispatcher, "git", false).unwrap();
    dispatcher.cancel(CancellationReason::MenuNavigation);
    let (result, validated) = answer("git", "git status", authority);
    scheduler.handle_result(
        &mut dispatcher,
        result,
        ResponseDisposition::Accepted,
        validated,
        false,
    );
    assert!(dispatcher.drain_batches(8).is_empty());
    assert!(dispatcher.status().stale_results >= 1);
    observe(&mut dispatcher, &mut scheduler);
    assert!(scheduler.current_query().is_none());
    assert!(
        scheduler.start_request(&dispatcher, "git", false)
            == Err("AI query authority was unavailable")
    );
}

#[test]
fn revoked_events_and_batches_do_nothing() {
    let mut dispatcher = AiCompletionDispatcher::spawn();
    let mut scheduler = Scheduler::new(&options(true), None);
    assert!(dispatcher.submit_query(query("git"), true) == AiQueryAdmission::Cancelled);
    let _ = dispatcher.submit_query(query("git"), false);
    dispatcher.settings_changed();
    let event = dispatcher.next_event().unwrap();
    assert!(matches!(event, RuntimeEvent::Query { .. }));
    assert!(matches!(
        scheduler.handle_event(&dispatcher, event, false),
        LifecycleAction::Nothing
    ));
    assert!(scheduler.current_query().is_none());
    let event = dispatcher.next_event().unwrap();
    assert!(matches!(
        scheduler.handle_event(&dispatcher, event, false),
        LifecycleAction::Synchronize
    ));
    let _ = dispatcher.submit_query(query("git"), false);
    observe(&mut dispatcher, &mut scheduler);
    scheduler.fail_permit(&mut dispatcher, true, "no transport");
    assert!(!scheduler.poll_lifecycle(&mut dispatcher, PollOutcome::TimedOut, false));
    let _ = dispatcher.submit_query(query("git s"), false);
    assert!(dispatcher.drain_batches(8).is_empty());
}

#[test]
fn lifecycle_outcomes_become_batches() {
    let mut dispatcher = AiCompletionDispatcher::spawn();
    let mut scheduler = Scheduler::new(&options(true), None);
    let _ = dispatcher.submit_query(query("git"), false);
    observe(&mut dispatcher, &mut scheduler);
    assert!(scheduler.poll_lifecycle(&mut dispatcher, PollOutcome::Start, false));
    assert!(!scheduler.poll_lifecycle(&mut dispatcher, PollOutcome::Idle, false));
    let cached = PollOutcome::Cached(Some(suggestion("git", "git stash")));
    assert!(!scheduler.poll_lifecycle(&mut dispatcher, cached, false));
    assert!(!scheduler.poll_lifecycle(&mut dispatcher, PollOutcome::TimedOut, false));
    scheduler.fail_permit(&mut dispatcher, false, "unused");
    scheduler.fail_permit(&mut dispatcher, true, "no transport");
    let authority = scheduler.start_request(&dispatcher, "git", false).unwrap();
    for disposition in [
        ResponseDisposition::TimedOut,
        ResponseDisposition::IncompatibleSuggestion,
        ResponseDisposition::NoSuggestion,
        ResponseDisposition::Stale,
    ] {
        let (result, validated) = answer("git", "git status", authority);
        scheduler.handle_result(&mut dispatcher, result, disposition, validated, false);
    }
    for disposition in [ResponseDisposition::RateLimited, ResponseDisposition::Failed] {
        let (mut result, validated) = answer("git", "git status", authority);
        let message = "slow down".to_owned();
        result.result = Err(SanitizedProviderError { rate_limited: true, message });
        scheduler.handle_result(&mut dispatcher, result, disposition, validated, false);
    }
    let (result, _) = answer("git", "rm", authority);
    scheduler.handle_result(
        &mut dispatcher,
        result,
        ResponseDisposition::Accepted,
        Err("not a completion".to_owned()),
        false,
    );
    let mut errors = Vec::new();
    let mut suggestions = 0;
    for batch in dispatcher.drain_batches(16).into_iter().chain(dispatcher.drain_batches(16)) {
        match batch.error {
            Some(error) => errors.push(error),
            None => suggestions += batch.suggestions.len(),
        }
    }
    assert_eq!(suggestions, 1);
    assert_eq!(
        errors,
        [
            "AI provider request timed out",
            "no transport",
            "AI provider request timed out",
            "AI response did not satisfy the completion contract",
            "slow down",
            "slow down",
            "not a completion",
        ]
    );
}

#[test]
fn requests_are_bounded() {
    let mut dispatcher = AiCompletionDispatcher::spawn();
    let mut scheduler = Scheduler::new(&options(true), None);
    let _ = dispatcher.submit_query(query("git"), false);
    observe(&mut dispatcher, &mut scheduler);
    let authority = scheduler.start_request(&dispatcher, "git", false).unwrap();
    assert!(scheduler.start_request(&dispatcher, "gi", false).is_err());
    for _ in 0..MAX_REQUEST_WORKERS {
        assert!(scheduler.claim_request(&mut dispatcher, authority, false).is_none());
    }
    assert!(
        scheduler.claim_request(&mut dispatcher, authority, false)
            == Some("AI provider worker capacity is exhausted")
    );
    dispatcher.shut_down();
    dispatcher.exited();
    assert!(!dispatcher.status().alive);
    assert!(dispatcher.submit_query(query("git"), false) == AiQueryAdmission::Closed);
    assert!(!dispatcher.reconfigure(settings(true)));
}

#[test]
fn completed_commands_are_remembered_newest_first() {
    let mut dispatcher = AiCompletionDispatcher::spawn();
    let mut scheduler = Scheduler::new(&options(true), None);
    assert!(dispatcher.record_completed_command(" \t".to_owned()) == AiCommandAdmission::Ignored);
    assert!(
        dispatcher.record_completed_command("x".repeat(MAX_RECENT_COMMAND_BYTES + 1))
            == AiCommandAdmission::Ignored
    );
    for index in 0..=MAX_AI_RECENT_COMMANDS {
        let _ = dispatcher.record_completed_command(format!("ls {index}"));
        observe(&mut dispatcher, &mut scheduler);
    }
    let recent = scheduler.recent_commands();
    assert_eq!(recent.len(), MAX_AI_RECENT_COMMANDS);
    assert_eq!(recent[0], format!("ls {MAX_AI_RECENT_COMMANDS}"));
    assert_eq!(recent[MAX_AI_RECENT_COMMANDS - 1], "ls 1");
}

#[test]
fn published_settings_are_followed_until_a_replacement() {
    let mut dispatcher = AiCompletionDispatcher::spawn();
    let shared = options(false).with_shared_settings();
    let mut scheduler = Scheduler::new(&shared, Some((3, settings(true))));
    assert!(scheduler.settings().enabled);
    assert!(!scheduler.synchronize_settings(&mut dispatcher, 4, settings(true)));
    assert!(!scheduler.synchronize_settings(&mut dispatcher, 4, settings(false)));
    assert!(scheduler.synchronize_settings(&mut dispatcher, 5, settings(true)));
    let own = Scheduler::new(&options(false), Some((3, settings(true))));
    assert!(!own.settings().enabled);
}

#[test]
fn provider_context_cache_key_is_command_sensitive() {
    let recent = vec!["git status".to_owned()];
    let key = |line: &str| {
        ContextKey::new(AiContextLevel::Workspace, "community", query(line).query(), &recent)
    };
    assert!(!key("npm install ").same_as(&key("git status ")));
    assert!(key("npm install ").same_as(&key("npm install ")));
    let elsewhere = |cwd: &[u8]| {
        let mut query = query("npm install ").query().clone();
        query.cwd = cwd.to_vec();
        ContextKey::new(AiContextLevel::Workspace, "community", &query, &recent)
    };
    assert!(key("npm install ").same_as(&elsewhere(b"//tmp/./")));
    assert!(!key("npm install ").same_as(&elsewhere(b"/var")));

    let mut scheduler = Scheduler::new(&options(true), None);
    let level = AiContextLevel::Workspace;
    let npm = key("npm install ");
    assert!(scheduler.context_for(level, &npm, true, false, 5) == ContextDecision::Gather);
    scheduler.remember_context(key("npm install "), 5);
    assert!(scheduler.context_for(level, &npm, true, false, 6) == ContextDecision::Cached);
    assert!(scheduler.context_for(level, &npm, false, false, 6) == ContextDecision::Gather);
    assert!(scheduler.context_for(level, &npm, true, true, 6) == ContextDecision::Nothing);
    let late = 5 + CONTEXT_CACHE_TTL;
    assert!(scheduler.context_for(level, &npm, true, false, late) == ContextDecision::Gather);
    let minimal = AiContextLevel::Minimal;
    assert!(scheduler.context_for(minimal, &npm, true, false, 6) == ContextDecision::Nothing);
    let git = key("git status ");
    assert!(scheduler.context_for(level, &git, true, false, 6) == ContextDecision::Gather);
}

#[test]
fn cancellations_reach_the_lifecycle() {
    for (reason, step) in [
        (CancellationReason::ModeChanged, LifecycleStep::ModeChanged),
        (CancellationReason::MenuNavigation, LifecycleStep::MenuNavigated),
        (CancellationReason::CommandExecution, LifecycleStep::CommandExecuted),
        (CancellationReason::SessionExit, LifecycleStep::EndSession),
        (CancellationReason::Disabled, LifecycleStep::Disable),
        (CancellationReason::ProviderChanged, LifecycleStep::ProviderChanged),
        (CancellationReason::BufferChanged, LifecycleStep::ObserveNothing),
        (CancellationReason::CursorMovedAwayFromEnd, LifecycleStep::ObserveNothing),
    ] {
        assert_eq!(apply_cancellation(reason), step);
    }
    let failure = |rate_limited: bool| {
        Err(SanitizedProviderError { rate_limited, message: String::new() })
    };
    assert!(matches!(provider_outcome(&failure(true)), ProviderOutcome::RateLimited));
    assert!(matches!(provider_outcome(&failure(false)), ProviderOutcome::Failed));
    assert!(matches!(
        provider_outcome(&Ok("ls".to_owned())),
        ProviderOutcome::Suggestion(text) if text == "ls"
    ));
}

#[test]
fn debug_output_contains_no_prompt_or_provider_configuration() {
    let options = AiCompletionOptions::new(
        "bash-with-secret".to_owned(),
        "linux".to_owned(),
        settings(true),
    )
    .with_session_id(SessionId::new(9));
    let debug = options.debug_text();
    assert!(!debug.contains("bash-with-secret"));
    assert!(!debug.contains("127.0.0.1"));
    assert!(!debug.contains("greendale"));
    assert_eq!(
        debug,
        "AiCompletionOptions { shell_bytes: 16, operating_system_bytes: 5, \
         has_shared_settings: false, session: SessionId(9), .. }"
    );
}

#[test]
fn dispatchers_show_health_and_counters_alone() {
    let mut dispatcher = AiCompletionDispatcher::spawn();
    let _ = dispatcher.record_completed_command("secret".to_owned());
    assert_eq!(
        dispatcher.debug_text(),
        "AiCompletionDispatcher { status: AiDispatcherStatus { alive: true, queued_events: 1, \
         latest_generation: 0, requests_started: 0, stale_results: 0, active_requests: 0 }, .. }"
    );
}

#[test]
fn a_provider_that_is_not_configured_is_refused() {
    let configured = vec!["campus".to_owned(), "community".to_owned()];
    assert!(selected_provider(&configured, "community") == Ok(1));
    for (names, selected) in [(&configured, "Community"), (&Vec::new(), "community")] {
        assert!(selected_provider(names, selected) == Err("selected AI provider is not configured"));
    }
}
