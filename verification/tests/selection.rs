use argmax::completion::{InsertionBehavior, Suggestion, SuggestionSource, TextEdit};
use argmax::selection::{ghost_suffix, SelectionState, UpdateOutcome};

fn candidate(identity: &str) -> Suggestion {
    Suggestion::new(
        TextEdit {
            range: 0..1,
            replacement: identity.to_owned(),
        },
        identity.to_owned(),
        String::new(),
        "command".to_owned(),
        SuggestionSource::Spec,
        InsertionBehavior::Exact,
        identity.to_owned(),
    )
}

#[test]
fn selection_does_not_wrap() {
    let mut state = SelectionState::default();
    state.begin_query(1, vec![candidate("alpha"), candidate("beta")]);
    state.up();
    assert!(state.selected_index() == Some(0));
    state.down();
    state.down();
    assert!(state.selected_index() == Some(1));
}

#[test]
fn navigation_freezes_edit_semantics_across_late_update() {
    let mut state = SelectionState::default();
    state.begin_query(1, vec![candidate("alpha"), candidate("beta")]);
    state.down();
    let mut renamed = candidate("beta");
    renamed.identity = "provider-controlled-new-identity".to_owned();
    let outcome =
        state.apply_update(1, vec![candidate("aardvark"), candidate("alpha"), renamed]);
    assert!(outcome == UpdateOutcome::Applied);
    assert!(state
            .candidates()
            .iter()
            .map(Suggestion::identity)
            .collect::<Vec<_>>() == ["alpha", "provider-controlled-new-identity", "aardvark"]);
    assert!(state.selected().unwrap().identity == "provider-controlled-new-identity");
    assert!(state.selected_index() == Some(1));
}

#[test]
fn duplicate_identities_cannot_redirect_a_frozen_selection() {
    let mut state = SelectionState::default();
    let mut alpha = candidate("alpha");
    let mut beta = candidate("beta");
    alpha.identity = "duplicate".to_owned();
    beta.identity = "duplicate".to_owned();
    state.begin_query(1, vec![alpha.clone(), beta.clone()]);
    state.down();

    assert!(state.apply_update(1, vec![beta.clone(), alpha]) == UpdateOutcome::Applied);
    assert!(state.selected().unwrap().edit().replacement == "beta");
    assert!(state.selected_index() == Some(1));
}

#[test]
fn late_results_append_without_displacing_the_frozen_visible_order() {
    let mut state = SelectionState::default();
    state.begin_query(1, vec![candidate("alpha"), candidate("beta")]);
    state.down();

    let outcome = state.apply_ranked_update(
        1,
        vec![candidate("aardvark"), candidate("alpha"), candidate("beta")],
        2,
    );
    assert!(outcome == UpdateOutcome::Applied);
    assert!(state.candidates().len() == 2);
    assert!(state.candidates()[0].identity() == "alpha");
    assert!(state.selected().unwrap().identity() == "beta");
    assert!(state.selected_index() == Some(1));
}

#[test]
fn vanished_unselected_rows_are_replaced_only_at_the_end() {
    let mut state = SelectionState::default();
    state.begin_query(
        1,
        vec![candidate("alpha"), candidate("beta"), candidate("gamma")],
    );
    state.down();

    assert!(state.apply_ranked_update(
            1,
            vec![candidate("aardvark"), candidate("beta"), candidate("gamma")],
            3,
        ) == UpdateOutcome::Applied);
    assert!(state
            .candidates()
            .iter()
            .map(Suggestion::identity)
            .collect::<Vec<_>>() == ["beta", "gamma", "aardvark"]);
    assert!(state.selected_index() == Some(0));
}

#[test]
fn debug_output_redacts_candidate_and_frozen_edit_text() {
    let mut state = SelectionState::default();
    state.begin_query(1, vec![candidate("hunter2")]);
    state.down();

    let debug = state.debug_text();
    assert!(!debug.contains("hunter2"));
    assert!(debug.contains("candidate_count: 1"));
}

#[test]
fn stale_update_cannot_replace_selection() {
    let mut state = SelectionState::default();
    state.begin_query(2, vec![candidate("alpha")]);
    assert!(state.apply_update(1, vec![candidate("stale")]) == UpdateOutcome::Stale);
    assert!(state.selected().unwrap().identity == "alpha");
}

#[test]
fn escape_hides_until_buffer_change() {
    let mut state = SelectionState::default();
    state.begin_query(1, vec![candidate("alpha")]);
    state.escape();
    assert!(!state.is_visible());
    state.buffer_changed();
    assert!(state.is_visible());
}

#[test]
fn menu_toggle_persists_across_queries() {
    let mut state = SelectionState::default();
    state.begin_query(1, vec![candidate("alpha")]);
    state.toggle_visible();
    assert!(!state.layer_enabled());
    assert!(!state.is_visible());

    state.begin_query(2, vec![candidate("beta")]);
    assert!(!state.is_visible());
    state.toggle_visible();
    assert!(state.layer_enabled());
    assert!(state.is_visible());
}

#[test]
fn ghost_suffix_preserves_original_candidate_bytes() {
    assert!(ghost_suffix("Git Ch", "git checkout") == Some("eckout"));
    assert!(ghost_suffix("git checkout", "git checkout") == None);
    assert!(ghost_suffix("git x", "git checkout") == None);
    assert!(ghost_suffix("é", "Éclair") == Some("clair"));
}
