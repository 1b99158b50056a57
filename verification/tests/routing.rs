use argmax::completion::{EditError, InsertionBehavior, Suggestion, SuggestionSource, TextEdit};
use argmax::completion::ProviderBatch;
use argmax::coordinator::{
    AuthorityRejection, BatchOutcome, BatchRejection, CompletionCoordinator, PresentationOutcome,
    PresentationRejection, QueryStartError, RegistrationError, MAX_BATCH_CANDIDATES,
    MAX_QUERY_CWD_BYTES, MAX_QUERY_LINE_BYTES,
};
use argmax::input::{Forwarding, InputAction, InputRouter, InputRouterError, MAX_ROUTE_BATCH_EVENTS};
use argmax::paths::{deduplicate_paths, is_same_path, join};
use argmax::sorted::{order_by_rank, sort_texts, Rank};
use argmax::words::{first_word, is_blank, is_control, is_white_space};

fn suggestion(identity: &str) -> Suggestion {
    Suggestion::new(
        TextEdit { range: 0..3, replacement: identity.to_owned() },
        identity.to_owned(),
        String::new(),
        String::new(),
        SuggestionSource::Spec,
        InsertionBehavior::AppendSpace,
        identity.to_owned(),
    )
}

fn coordinator() -> CompletionCoordinator {
    CompletionCoordinator::new(vec!["local".to_owned(), "ai".to_owned()], 2).unwrap()
}

fn router() -> InputRouter {
    InputRouter::new(b"\x12", b"\x10").unwrap()
}

#[test]
fn routing_neither_drops_nor_changes_a_byte() {
    let input = b"gi\xc3\xa9\t\x1b[A\x1bOP\r\x03\xff\x12\x10\x1b[200~paste\t\x1b[201~\x7f";
    for split in 0..=input.len() {
        let mut router = router();
        let mut bytes = Vec::new();
        for part in [&input[..split], &input[split..]] {
            let batch = router.route(part);
            assert_eq!(batch.consumed_bytes, part.len());
            for event in batch.events {
                bytes.extend(event.bytes);
            }
        }
        for event in router.finish().events {
            bytes.extend(event.bytes);
        }
        assert_eq!(bytes, input);
        assert_eq!(router.pending_len(), 0);
    }
}

#[test]
fn keys_are_forwarded_as_their_meaning_asks() {
    let mut router = router();
    let batch = router.route(b"a\t\x1b[A\x12\x10\r\x03");
    let keys: Vec<(Option<InputAction>, Forwarding)> =
        batch.events.iter().map(|event| (event.action, event.forwarding)).collect();
    let expected = [
        (InputAction::Printable('a'), Forwarding::Immediate),
        (InputAction::Tab, Forwarding::OnFallback),
        (InputAction::ArrowUp, Forwarding::OnFallback),
        (InputAction::ToggleMode, Forwarding::OnFallback),
        (InputAction::ToggleMenu, Forwarding::OnFallback),
        (InputAction::Enter, Forwarding::Immediate),
        (InputAction::CtrlC, Forwarding::Immediate),
    ];
    assert_eq!(keys.len(), expected.len());
    for (key, (action, forwarding)) in keys.into_iter().zip(expected) {
        assert_eq!(key, (Some(action), forwarding));
    }
}

#[test]
fn routing_is_bounded_and_retains_partial_keys() {
    let mut router = router();
    let batch = router.route(&vec![b'x'; MAX_ROUTE_BATCH_EVENTS + 9]);
    assert_eq!(batch.events.len(), MAX_ROUTE_BATCH_EVENTS);
    assert_eq!(batch.consumed_bytes, MAX_ROUTE_BATCH_EVENTS);
    assert!(router.route(b"\x1b[").events.is_empty());
    assert_eq!(router.pending_len(), 2);
    assert_eq!(router.reconfigure(b"\x0f", b"\x10"), Ok(false));
    let flushed = router.flush_pending();
    assert_eq!(flushed.events[0].bytes, b"\x1b[");
    assert_eq!(router.reconfigure(b"\x0f", b"\x10"), Ok(true));
    assert_eq!(router.route(b"\x0f").events[0].action, Some(InputAction::ToggleMode));
    let _ = router.route(b"\x1b[200~x");
    assert!(router.is_bracketed_paste());
}

#[test]
fn unusable_bindings_are_refused() {
    assert_eq!(InputRouter::new(b"", b"\x10").err(), Some(InputRouterError::EmptyBinding));
    assert_eq!(InputRouter::new(&[1; 17], b"\x10").err(), Some(InputRouterError::BindingTooLong));
    assert_eq!(
        InputRouter::new(b"\x1b[Z", b"\x1b[").err(),
        Some(InputRouterError::AmbiguousBindings)
    );
    assert_eq!(InputRouterError::EmptyBinding.message(), "key binding is empty");
}

#[test]
fn old_queries_have_no_authority() {
    let mut coordinator = coordinator();
    let first = coordinator.start_query("git".to_owned(), 3, b"/".to_vec()).unwrap();
    let second = coordinator.start_query("git ".to_owned(), 4, b"/".to_vec()).unwrap();
    assert!(!coordinator.is_current(&first) && coordinator.is_current(&second));
    let (old, new) = (first.query().generation, second.query().generation);
    let rejection = AuthorityRejection::OtherGeneration { received: old, active: new };
    let batch = ProviderBatch::success("local", old, vec![suggestion("a")]);
    assert_eq!(
        coordinator.accept_batch(batch),
        BatchOutcome::Rejected(BatchRejection::Authority(rejection))
    );
    assert_eq!(
        coordinator.apply_ranked(old, vec![suggestion("a")]),
        PresentationOutcome::Rejected(PresentationRejection::Authority(rejection))
    );
    assert!(coordinator.merged_candidates(old).is_err());
    assert!(coordinator.cancel_active_query());
    assert!(!coordinator.cancel_active_query());
    assert_eq!(
        coordinator.apply_ranked(new, Vec::new()),
        PresentationOutcome::Rejected(PresentationRejection::Authority(
            AuthorityRejection::NoActiveQuery
        ))
    );
}

#[test]
fn replies_do_not_disturb_each_other() {
    let mut coordinator = coordinator();
    let work = coordinator.start_query("git".to_owned(), 3, b"/".to_vec()).unwrap();
    let generation = work.query().generation;
    for (provider, names) in [("local", vec!["a", "b"]), ("ai", vec!["c"]), ("local", vec!["d"])] {
        let suggestions: Vec<Suggestion> = names.iter().map(|name| suggestion(name)).collect();
        let count = suggestions.len();
        assert_eq!(
            coordinator.accept_batch(ProviderBatch::success(provider, generation, suggestions)),
            BatchOutcome::Accepted(count)
        );
    }
    let merged = coordinator.merged_candidates(generation).unwrap();
    let names: Vec<&str> = merged.iter().map(|suggestion| suggestion.identity()).collect();
    assert_eq!(names, ["d", "c"]);
    assert_eq!(
        coordinator.accept_batch(ProviderBatch::success("other", generation, Vec::new())),
        BatchOutcome::Rejected(BatchRejection::UnknownProvider)
    );
    let many: Vec<Suggestion> = (0..=MAX_BATCH_CANDIDATES).map(|_| suggestion("x")).collect();
    assert_eq!(
        coordinator.accept_batch(ProviderBatch::success("ai", generation, many)),
        BatchOutcome::Rejected(BatchRejection::TooManyCandidates)
    );
    let ranked = vec![suggestion("d"), suggestion("c"), suggestion("e")];
    assert_eq!(
        coordinator.apply_ranked(generation, ranked),
        PresentationOutcome::Applied { rows: 2 }
    );
}

#[test]
fn unusable_queries_and_registrations_are_refused() {
    assert_eq!(
        CompletionCoordinator::new(Vec::new(), 2).err(),
        Some(RegistrationError::NoProviders)
    );
    assert_eq!(
        CompletionCoordinator::new(vec!["a".to_owned(), "a".to_owned()], 2).err(),
        Some(RegistrationError::DuplicateProvider)
    );
    assert_eq!(
        CompletionCoordinator::new(vec!["a".to_owned()], 0).err(),
        Some(RegistrationError::InvalidRowLimit)
    );
    let mut coordinator = coordinator();
    assert!(coordinator.reconfigure_ui_limit(MAX_BATCH_CANDIDATES + 1).is_err());
    let long = "x".repeat(MAX_QUERY_LINE_BYTES + 1);
    assert_eq!(
        coordinator.start_query(long, 0, b"/".to_vec()).err(),
        Some(QueryStartError::LineTooLarge {
            bytes: MAX_QUERY_LINE_BYTES + 1,
            limit: MAX_QUERY_LINE_BYTES,
        })
    );
    assert_eq!(
        coordinator.start_query("\u{e9}".to_owned(), 1, b"/".to_vec()).err(),
        Some(QueryStartError::InvalidCursor { cursor: 1, line_bytes: 2 })
    );
    assert_eq!(
        coordinator.start_query(String::new(), 0, b"x".to_vec()).err(),
        Some(QueryStartError::CwdNotAbsolute)
    );
    let mut cwd = b"/".to_vec();
    cwd.resize(MAX_QUERY_CWD_BYTES + 1, b'x');
    assert!(matches!(
        coordinator.start_query(String::new(), 0, cwd).err(),
        Some(QueryStartError::CwdTooLarge { .. })
    ));
}

#[test]
fn edits_keep_to_whole_characters() {
    let edit = TextEdit { range: 1..3, replacement: "o".to_owned() };
    assert_eq!(edit.apply("g\u{e9}!"), Ok("go!".to_owned()));
    assert_eq!(
        edit.apply("g\u{20ac}"),
        Err(EditError::InvalidRange { start: 1, end: 3, line_bytes: 4 })
    );
    assert_eq!(suggestion("get").resulting_line("git x"), Some("get  x".to_owned()));
}

#[test]
fn paths_are_compared_by_their_names() {
    assert!(is_same_path(b"/a//b/./c/", b"/a/b/c"));
    assert!(!is_same_path(b"/a/b/../c", b"/a/c"));
    assert!(!is_same_path(b"a", b"/a"));
    assert_eq!(join(b"/a", b"b"), b"/a/b");
    assert_eq!(join(b"/a/", b"b"), b"/a/b");
    let kept = deduplicate_paths(
        vec![b"/b".to_vec(), b"/a".to_vec(), b"//b".to_vec(), b"/c/".to_vec()],
        b"/c",
    );
    assert_eq!(kept, [b"/b".to_vec(), b"/a".to_vec()]);
}

#[test]
fn lists_are_sorted_stably_and_without_repetition() {
    let rank = |late: bool, position: usize| Rank { late, position };
    let ranks = vec![rank(true, 1), rank(false, 5), rank(true, 1), rank(false, 2)];
    assert_eq!(order_by_rank(&ranks), [3, 1, 0, 2]);
    let texts = ["b", "\u{e9}", "a", "b", "Z"].iter().map(|text| text.to_string()).collect();
    assert_eq!(sort_texts(texts, 3), ["Z", "a", "b"]);
}

#[test]
fn words_follow_unicode_and_shell_quoting() {
    for character in (0..=0x3100).filter_map(char::from_u32) {
        assert_eq!(is_white_space(character), character.is_whitespace());
        assert_eq!(is_control(character), character.is_control());
    }
    assert!(is_blank(" \u{2003}\t") && !is_blank(" x"));
    assert_eq!(first_word("a'b c'\"d\\\"e\" f"), Some("ab cd\"e".to_owned()));
    assert_eq!(first_word("\"open"), None);
}
