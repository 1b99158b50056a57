use argmax::completion::{InsertionBehavior, Suggestion, SuggestionSource, TextEdit};
use argmax::coordinator::{CompletionCoordinator, QueryWork, MAX_BATCH_BYTES, MAX_CANDIDATE_BYTES};
use argmax::runtime_completion::{
    active_query_token, aliases_changed, begin_query, bound_provider_batch,
    bounded_environment_names, command_skeleton, fallback_skeleton, fast_sources, history_positions,
    history_suggestion, match_tier, order_for_history, rank_and_publish,
    should_complete_filesystem, valid_skeleton, AliasFileSignature, CommandEventAdmission,
    CommandLearner, CommandOutcome, CompletionEventError, HistoryEntry, HistoryFormat,
    HistorySource, LocalCompletionDispatcher, LocalCompletionOptions, LocalSettings, MatchTier,
    PendingQuery, QueryAdmission, QueryStage, QueryStart, SessionHistory, ShellKind, WorkerItem,
    LOCAL_COMPLETION_PROVIDER, MAX_COMPLETION_DRAIN_BATCHES, MAX_LEARNING_COMMAND_BYTES,
    MAX_PENDING_COMMAND_EVENTS, MAX_RANKING_SKELETON_BYTES, MAX_RANKING_SKELETON_TOKENS,
    MAX_SESSION_HISTORY_BYTES, QUERY_DEBOUNCE, UNKNOWN_SKELETON,
};
use argmax::session::{SessionEffect, SessionMode};

fn settings() -> LocalSettings {
    LocalSettings {
        max_suggestions: 500,
        hidden_files: false,
        expand_alias: true,
        infer_completions: false,
        filter_active_branch: false,
        deduplicate_branches: false,
    }
}

fn coordinator() -> CompletionCoordinator {
    CompletionCoordinator::new(vec![LOCAL_COMPLETION_PROVIDER.to_owned()], 100).unwrap()
}

fn work(coordinator: &mut CompletionCoordinator, line: &str) -> QueryWork {
    coordinator.start_query(line.to_owned(), line.len(), b"/tmp".to_vec()).unwrap()
}

fn local_suggestion(index: usize, best: bool) -> Suggestion {
    Suggestion::new(
        TextEdit { range: 0..1, replacement: format!("git command-{index:03}") },
        if best { "g" } else { "unmatched" }.to_owned(),
        String::new(),
        "command".to_owned(),
        SuggestionSource::Spec,
        InsertionBehavior::Exact,
        format!("local-{index:03}"),
    )
}

#[test]
fn execution_context_carries_the_inference_opt_in() {
    let options = LocalCompletionOptions::new(ShellKind::Bash, settings(), Vec::new());
    let credentials = vec![b"API_KEY".to_vec(), b"TOKEN".to_vec()];
    assert!(!options.execution_context(settings(), &credentials).infer_completions);
    let inferring = LocalSettings { infer_completions: true, ..settings() };
    let context = options.execution_context(inferring, &credentials);
    assert!(context.infer_completions);
    assert!(context.credential_environment == &credentials);
}

#[test]
fn ranked_batches_are_bounded_after_ranking() {
    let mut dispatcher = LocalCompletionDispatcher::spawn();
    let mut coordinator = coordinator();
    let query = work(&mut coordinator, "g");
    let generation = query.query().generation;
    let _ = dispatcher.submit_query(SessionMode::Spec, query, false, 0);
    let mut ranked: Vec<Suggestion> =
        (0..500).map(|index| local_suggestion(index, false)).collect();
    ranked.insert(0, local_suggestion(500, true));
    let positions = vec![None; ranked.len()];
    rank_and_publish(
        &mut dispatcher,
        SessionMode::Spec,
        &settings(),
        generation,
        ranked,
        &positions,
        false,
    );
    let batches = dispatcher.drain_batches(1);
    assert!(batches[0].suggestions.len() == 500);
    assert!(batches[0].suggestions[0].identity() == "local-500");
    assert!(batches[0].provider == LOCAL_COMPLETION_PROVIDER);
    assert!(batches[0].error.is_none());
    assert!(
        dispatcher.debug_text()
            == "LocalCompletionDispatcher { status: CompletionDispatcherStatus { alive: true, \
                pending_commands: 0, processed_events: 0, learning_failures: 0, \
                latest_generation: 0 }, .. }"
    );
}

#[test]
fn worker_skeleton_fallback_is_bounded_and_canonical() {
    let oversized = "x".repeat(MAX_RANKING_SKELETON_BYTES + 1);
    let too_many_tokens = (0..=MAX_RANKING_SKELETON_TOKENS)
        .map(|_| "token")
        .collect::<Vec<_>>()
        .join(" ");
    assert!(!valid_skeleton(&oversized));
    assert!(!valid_skeleton(&too_many_tokens));
    assert!(!valid_skeleton("git  status"));

    for command in [
        "git status",
        "AWS_SECRET_ACCESS_KEY=greendale",
        oversized.as_str(),
        too_many_tokens.as_str(),
    ] {
        let skeleton = command_skeleton(None, command);
        assert!(valid_skeleton(&skeleton));
        assert!(skeleton.len() <= MAX_RANKING_SKELETON_BYTES);
        assert!(skeleton.split(' ').count() <= MAX_RANKING_SKELETON_TOKENS);
    }
    assert!(command_skeleton(None, "AWS_SECRET_ACCESS_KEY=greendale") == UNKNOWN_SKELETON);
}

#[test]
fn a_bare_assignment_never_becomes_a_ranking_skeleton() {
    assert!(fallback_skeleton("AWS_SECRET_ACCESS_KEY=xyz").is_none());
    assert!(fallback_skeleton("_TOKEN=abc").is_none());
    assert!(
        fallback_skeleton("git status")
            == Some("git status".split(' ').next().unwrap().to_owned())
    );
    // Even an invalid variable name stays out of the keyspace: the
    // token could still carry a value.
    assert!(fallback_skeleton("7zip=archive").is_none());
    assert!(fallback_skeleton("LD_PRELOAD+=/secret").is_none());
    assert!(fallback_skeleton("TOKEN[0]=secret").is_none());
}

#[test]
fn skeletons_follow_the_index_and_shell_words() {
    assert!(command_skeleton(Some("git commit".to_owned()), "git commit -m x") == "git commit");
    assert!(command_skeleton(Some("git\tcommit".to_owned()), "git") == UNKNOWN_SKELETON);
    assert!(fallback_skeleton("  'my tool' -x") == Some("my tool".to_owned()));
    assert!(fallback_skeleton("a\\ b\"c$\\\"d\" e") == Some("a bc$\"d".to_owned()));
    assert!(fallback_skeleton("'unfinished").is_none());
    assert!(fallback_skeleton("   ").is_none());
}

#[test]
fn query_effects_coalesce_and_non_query_effects_are_returned() {
    let mut dispatcher = LocalCompletionDispatcher::spawn();
    let mut coordinator = coordinator();
    let first = work(&mut coordinator, "git c");
    assert!(dispatcher.submit_query(SessionMode::Spec, first, false, 0) == QueryAdmission::Queued);
    let second = work(&mut coordinator, "git che");
    let generation = second.query().generation;
    let effect =
        SessionEffect::StartQuery { mode: SessionMode::Spec, alias_expansion: true, work: second };
    assert!(matches!(
        dispatcher.submit_effect(effect, false, 5),
        Ok(QueryAdmission::Coalesced)
    ));
    assert!(matches!(
        dispatcher.submit_effect(SessionEffect::ClearOverlay, false, 5),
        Err(SessionEffect::ClearOverlay)
    ));
    assert!(matches!(
        dispatcher.next_item(6),
        WorkerItem::Wait(Some(delay)) if delay == QUERY_DEBOUNCE - 1
    ));
    match dispatcher.next_item(5 + QUERY_DEBOUNCE) {
        WorkerItem::Query(pending) => {
            assert!(pending.work.query().generation == generation);
            assert!(pending.alias_expansion);
        }
        _ => panic!("expected the newer query"),
    }
    assert!(matches!(dispatcher.next_item(u128::MAX), WorkerItem::Wait(None)));
}

#[test]
fn cancelled_work_emits_no_batch() {
    let mut dispatcher = LocalCompletionDispatcher::spawn();
    let mut coordinator = coordinator();
    let pending = work(&mut coordinator, "git che");
    let generation = pending.query().generation;
    let _ = dispatcher.submit_query(SessionMode::Spec, pending, false, 0);
    dispatcher.publish(generation, Vec::new(), true);
    assert!(dispatcher.drain_batches(8).is_empty());
    let late = work(&mut coordinator, "git");
    assert!(dispatcher.submit_query(SessionMode::Spec, late, true, 0) == QueryAdmission::Cancelled);
}

#[test]
fn alias_edits_are_published_for_the_current_generation_only() {
    let mut dispatcher = LocalCompletionDispatcher::spawn();
    let mut coordinator = coordinator();
    let query = work(&mut coordinator, "gs ");
    let generation = query.query().generation;
    let _ = dispatcher.submit_query_with_alias_expansion(SessionMode::Spec, query, true, false, 0);
    let edit = TextEdit { range: 0..2, replacement: "git status".to_owned() };
    let other = TextEdit { range: 0..2, replacement: "ls".to_owned() };
    dispatcher.publish_alias_expansion(generation + 1, other, false);
    assert!(dispatcher.drain_alias_expansions(8).is_empty());
    dispatcher.publish_alias_expansion(generation, edit, false);
    let mut expansions = dispatcher.drain_alias_expansions(8);
    assert!(expansions.len() == 1);
    let (received, edit) = expansions.remove(0).into_parts();
    assert!(received == generation);
    assert!(edit.range == (0..2) && edit.replacement == "git status");
}

#[test]
fn a_new_batch_replaces_the_older_one() {
    let mut dispatcher = LocalCompletionDispatcher::spawn();
    let mut coordinator = coordinator();
    for line in ["g", "gi"] {
        let query = work(&mut coordinator, line);
        let generation = query.query().generation;
        let _ = dispatcher.submit_query(SessionMode::Spec, query, false, 0);
        dispatcher.publish(generation, vec![local_suggestion(0, true)], false);
        dispatcher.publish(generation, vec![local_suggestion(1, true)], false);
    }
    assert!(dispatcher.drain_batches(0).is_empty());
    let batches = dispatcher.drain_batches(MAX_COMPLETION_DRAIN_BATCHES);
    assert!(batches.len() == 1);
    assert!(batches[0].generation == dispatcher.status().latest_generation);
    assert!(batches[0].suggestions[0].identity() == "local-001");
}

#[test]
fn completed_command_is_applied_before_an_already_due_query() {
    let mut dispatcher = LocalCompletionDispatcher::spawn();
    let mut coordinator = coordinator();
    let query = work(&mut coordinator, "git sta");
    let _ = dispatcher.submit_query(SessionMode::History, query, false, 0);
    let queued = dispatcher.record_completed_command(
        "git status --short".to_owned(),
        b"/tmp".to_vec(),
        4_000_000,
        CommandOutcome::Success,
    );
    assert!(queued == Ok(CommandEventAdmission::Queued));
    assert!(dispatcher.update_cwd(b"/var".to_vec()) == Ok(true));
    assert!(dispatcher.reconfigure(settings()));
    assert!(matches!(dispatcher.next_item(QUERY_DEBOUNCE), WorkerItem::Settings(_)));
    assert!(matches!(dispatcher.next_item(QUERY_DEBOUNCE), WorkerItem::Cwd(cwd) if cwd == b"/var".to_vec()));
    assert!(matches!(
        dispatcher.next_item(QUERY_DEBOUNCE),
        WorkerItem::Command(command)
            if command.command == "git status --short" && command.timestamp == 4_000_000
    ));
    let mut session = SessionHistory::new();
    session.record_session_only(HistoryEntry {
        command: "git status --short".to_owned(),
        timestamp: 4_000_000,
    });
    dispatcher.event_processed();
    let pending = match dispatcher.next_item(QUERY_DEBOUNCE) {
        WorkerItem::Query(pending) => pending,
        _ => panic!("expected the query"),
    };
    let query = pending.work.query();
    let found = history_suggestion(&query.line, &session.newest_first()[0].command, 0);
    dispatcher.publish(query.generation, vec![found], false);
    let batches = dispatcher.drain_batches(4);
    assert!(batches.iter().flat_map(|batch| &batch.suggestions).any(|suggestion| {
        suggestion.resulting_line(&coordinator.active_query().unwrap().line)
            == Some("git status --short".to_owned())
    }));
    assert!(dispatcher.status().processed_events == 1);
    dispatcher.learning_failed();
    let status = dispatcher.status();
    assert!(status.alive && status.processed_events == 1 && status.learning_failures == 1);
    dispatcher.shut_down();
    assert!(matches!(dispatcher.next_item(0), WorkerItem::Shutdown));
    assert!(!dispatcher.reconfigure(settings()));
    dispatcher.exited();
    assert!(!dispatcher.status().alive);
}

#[test]
fn a_leading_blank_keeps_a_command_out_of_the_learning_store() {
    let mut dispatcher = LocalCompletionDispatcher::spawn();
    let mut learner = CommandLearner::new();
    let mut stored: Vec<String> = Vec::new();
    for (timestamp, command) in [(1, " export TOKEN=greendale"), (2, "git status")] {
        assert!(
            dispatcher.record_completed_command(
                command.to_owned(),
                b"/tmp".to_vec(),
                timestamp,
                CommandOutcome::Success
            ) == Ok(CommandEventAdmission::Queued)
        );
        let completed = match dispatcher.next_item(0) {
            WorkerItem::Command(completed) => completed,
            _ => panic!("expected a command"),
        };
        if let Some(plan) = learner.record_command(&completed.command, None) {
            stored.push(plan.skeleton);
        }
    }
    assert!(stored == vec!["git".to_owned()]);
    assert!(stored.iter().all(|skeleton| !skeleton.contains("TOKEN")));

    let mut learner = CommandLearner::new();
    let plan = learner.record_command("git add .", None).unwrap();
    assert!(plan.skeleton == "git" && plan.prior.is_none());
    assert!(!learner.command_recorded(plan.skeleton, true, true));
    assert!(learner.prior_skeleton() == Some("git"));
    let plan = learner.record_command("git commit", Some("git commit".to_owned())).unwrap();
    assert!(plan.prior == Some("git".to_owned()));
    assert!(learner.command_recorded(plan.skeleton, false, true));
    assert!(learner.record_command(" secret", None).is_none());
    assert!(learner.record_command("\tsecret", None).is_none());
    assert!(learner.prior_skeleton().is_none());
    let plan = learner.record_command("ls", None).unwrap();
    assert!(plan.prior.is_none());
    assert!(learner.command_recorded(plan.skeleton, true, false));
}

#[test]
fn state_inputs_are_bounded_before_queueing() {
    let mut dispatcher = LocalCompletionDispatcher::spawn();
    assert!(
        dispatcher.record_completed_command(
            " ".to_owned(),
            b"/tmp".to_vec(),
            1,
            CommandOutcome::Failure
        ) == Ok(CommandEventAdmission::Ignored)
    );
    assert!(matches!(
        dispatcher.record_completed_command(
            "x".repeat(MAX_LEARNING_COMMAND_BYTES + 1),
            b"/tmp".to_vec(),
            1,
            CommandOutcome::Failure
        ),
        Err(CompletionEventError::CommandTooLarge { .. })
    ));
    assert!(
        dispatcher.update_cwd(b"relative".to_vec()) == Err(CompletionEventError::CwdNotAbsolute)
    );
    assert!(dispatcher.drain_batches(0).is_empty());
    let mut long = b"/".to_vec();
    long.extend(vec![b'a'; 16 * 1024]);
    let error = dispatcher.update_cwd(long).err().unwrap();
    assert!(error.message() == "working directory is 16385 bytes; limit is 16384");
    for _ in 0..MAX_PENDING_COMMAND_EVENTS {
        let _ = dispatcher.record_completed_command(
            "ls".to_owned(),
            b"/".to_vec(),
            1,
            CommandOutcome::Success,
        );
    }
    assert!(
        dispatcher.record_completed_command(
            "ls".to_owned(),
            b"/".to_vec(),
            1,
            CommandOutcome::Success
        ) == Ok(CommandEventAdmission::Full)
    );
}

#[test]
fn queries_run_through_their_stages() {
    let mut dispatcher = LocalCompletionDispatcher::spawn();
    let mut coordinator = coordinator();
    let mut pending = |line: &str, mode: SessionMode, alias_expansion: bool| PendingQuery {
        mode,
        alias_expansion,
        work: work(&mut coordinator, line),
        submitted_at: 0,
    };
    let blank = pending("  \u{3000}", SessionMode::Spec, true);
    assert!(begin_query(&dispatcher, &blank, true) == QueryStart::Void);
    assert!(begin_query(&dispatcher, &blank, false) == QueryStart::Empty);
    let current = pending("git ", SessionMode::Spec, true);
    let generation = current.work.query().generation;
    assert!(begin_query(&dispatcher, &current, false) == QueryStart::Void);
    let newest = pending("", SessionMode::History, false);
    let later = newest.work.query().generation;
    let _ = dispatcher.submit_query(SessionMode::Spec, current.work, false, 0);
    assert!(begin_query(&dispatcher, &blank, false) == QueryStart::Void);
    let stages = [QueryStage::Alias, QueryStage::Fast, QueryStage::Dynamic, QueryStage::Cobra];
    let expected = [QueryStage::Fast, QueryStage::Dynamic, QueryStage::Cobra, QueryStage::Done];
    for (stage, after) in stages.into_iter().zip(expected) {
        assert!(stage.next(&dispatcher, false, generation) == after);
        assert!(stage.next(&dispatcher, true, generation) == QueryStage::Done);
        assert!(stage.next(&dispatcher, false, later) == QueryStage::Done);
    }
    assert!(QueryStage::Fast.publishes(0));
    assert!(!QueryStage::Dynamic.publishes(0) && QueryStage::Cobra.publishes(1));
    assert!(!QueryStage::Alias.publishes(1));
}

#[test]
fn batches_stay_within_their_bounds() {
    let mut large = local_suggestion(0, true);
    large.description = "d".repeat(MAX_CANDIDATE_BYTES);
    let mut medium = local_suggestion(1, true);
    medium.description = "d".repeat(MAX_CANDIDATE_BYTES - 200);
    let ranked = vec![large, local_suggestion(2, true), medium, local_suggestion(3, true)];
    let bounded = bound_provider_batch(ranked, 2);
    assert!(bounded.len() == 2);
    assert!(bounded[0].identity() == "local-002" && bounded[1].identity() == "local-001");
    let mut many = Vec::new();
    for index in 0..40 {
        let mut suggestion = local_suggestion(index, true);
        suggestion.description = "d".repeat(MAX_CANDIDATE_BYTES - 200);
        many.push(suggestion);
    }
    let kept = bound_provider_batch(many, 100);
    assert!(kept.len() == MAX_BATCH_BYTES / (MAX_CANDIDATE_BYTES - 200 + 32));
    assert!(bound_provider_batch(vec![local_suggestion(0, true)], 0).len() == 1);
}

#[test]
fn history_lines_come_first_in_their_order() {
    let line = "gi";
    let history = vec![
        history_suggestion(line, "git status", 0),
        history_suggestion(line, "git diff", 1),
    ];
    assert!(history[1].identity() == "history:1");
    assert!(history[1].edit().range == (0..2));
    let mut other = history_suggestion(line, "gist", 9);
    other.source = SuggestionSource::Spec;
    let ranked = vec![
        other,
        history_suggestion(line, "git diff", 1),
        history_suggestion(line, "git status", 0),
    ];
    let positions = history_positions(line, &history, &ranked);
    assert!(positions == vec![None, Some(1), Some(0)]);
    let ordered = order_for_history(ranked, &positions);
    let displays: Vec<&str> = ordered.iter().map(|entry| entry.display()).collect();
    assert!(displays == vec!["git status", "git diff", "gist"]);
}

#[test]
fn match_tiers_ignore_case() {
    let active = active_query_token("GiT");
    assert!(active == "git");
    for (display, tier) in [
        ("GIT", MatchTier::Exact),
        ("Github", MatchTier::Prefix),
        ("lazygit", MatchTier::Contains),
        ("grit", MatchTier::Subsequence),
        ("tig", MatchTier::Unrelated),
    ] {
        let mut suggestion = local_suggestion(0, true);
        suggestion.display = display.to_owned();
        assert!(match_tier(&active, &suggestion) == tier);
    }
    assert!(match_tier("", &local_suggestion(0, true)) == MatchTier::Untyped);
}

#[test]
fn files_are_completed_behind_a_command_or_as_paths() {
    assert!(should_complete_filesystem(1, Some("x")));
    assert!(should_complete_filesystem(0, Some("./x")));
    assert!(should_complete_filesystem(0, Some("~")));
    assert!(should_complete_filesystem(0, Some("a/b")));
    assert!(!should_complete_filesystem(0, Some("git")));
    assert!(!should_complete_filesystem(3, None));
}

#[test]
fn sources_follow_the_line_and_the_mode() {
    let sources = |mode: SessionMode, indexed: bool, committed: usize, active: Option<&str>| {
        let asked = fast_sources(mode, indexed, committed, active);
        [asked.aliases, asked.executables, asked.specifications, asked.files, asked.history]
    };
    let spec = SessionMode::Spec;
    assert!(sources(spec, true, 0, Some("gi")) == [true, true, true, false, false]);
    assert!(sources(spec, true, 0, Some("./gi")) == [true, true, true, true, false]);
    assert!(sources(spec, true, 1, Some("")) == [false, false, true, true, false]);
    assert!(sources(spec, false, 0, None) == [false, false, false, false, false]);
    assert!(sources(SessionMode::History, false, 0, None) == [false, false, false, false, true]);
}

#[test]
fn session_history_forgets_the_oldest() {
    let mut history = SessionHistory::new();
    let entry = |text: String| HistoryEntry { command: text, timestamp: 1 };
    history.record_session_only(entry("x".repeat(MAX_SESSION_HISTORY_BYTES + 1)));
    assert!(history.entries().is_empty());
    history.record_session_only(entry("first".to_owned()));
    history.record_session_only(entry("x".repeat(MAX_SESSION_HISTORY_BYTES)));
    assert!(history.entries().len() == 1);
    history.record_session_only(entry("last".to_owned()));
    assert!(history.entries().len() == 1 && history.entries()[0].command == "last");
    history.record_session_only(entry("newest".to_owned()));
    let searched = history.newest_first();
    assert!(searched.len() == 2);
    assert!(searched[0].command == "newest" && searched[1].command == "last");
}

#[test]
fn environment_names_are_usable_sorted_and_distinct() {
    let names = ["PATH", "", "B=C", "A B", "HOME", "PATH", "T\u{7f}", "\u{c4}"];
    let kept = bounded_environment_names(names.iter().map(|name| name.to_string()).collect());
    assert!(kept == vec!["HOME".to_owned(), "PATH".to_owned(), "\u{c4}".to_owned()]);
    let many: Vec<String> = (0..5_000).map(|index| format!("N{index:04}")).rev().collect();
    let kept = bounded_environment_names(many);
    assert!(kept.len() == 4_096 && kept[0] == "N0904");
}

#[test]
fn options_show_sizes_only() {
    let options = LocalCompletionOptions::new(ShellKind::Zsh, settings(), b"/usr/bin".to_vec())
        .with_home_directory(b"/home/secret".to_vec())
        .with_alias_paths(vec![b"/a".to_vec()])
        .with_environment_names(vec!["B".to_owned(), "A".to_owned()])
        .with_history(HistorySource::new(b"/h".to_vec(), HistoryFormat::Fish))
        .with_learning_store()
        .with_shared_settings();
    let debug = options.debug_text();
    assert!(
        debug
            == "LocalCompletionOptions { shell: Zsh, has_shared_settings: true, path_bytes: 8, \
                home_bytes: 12, environment_name_count: 2, alias_path_count: 1, has_history: true, \
                has_learning_store: true, .. }"
    );
    let history = options.history().unwrap();
    assert!(history.path() == b"/h".as_slice() && history.format() == HistoryFormat::Fish);
    assert!(history.debug_text() == "HistorySource { path_bytes: 2, format: Fish }");
    let published = LocalSettings { hidden_files: true, ..settings() };
    assert!(options.settings_snapshot(Some(published)) == published);
    let mut fixed = options;
    fixed.replace_settings(settings());
    assert!(fixed.settings_snapshot(Some(published)) == settings());
}

#[test]
fn changed_alias_files_are_noticed() {
    let seen = vec![AliasFileSignature { length: Some(3), modified: None }];
    assert!(!aliases_changed(&seen, &seen));
    assert!(aliases_changed(&seen, &Vec::new()));
    let touched = vec![AliasFileSignature { length: Some(3), modified: Some(1) }];
    assert!(aliases_changed(&seen, &touched));
}
