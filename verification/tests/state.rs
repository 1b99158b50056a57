use argmax::state::{
    after_backup, backup_name, legacy_check_ms, lock_name, merge_legacy_sources, parse_document,
    parse_json, parse_toml, render_state, source_text, validate_anchor, validate_new_lock, BackupStep, FileFacts,
    IoKind, LastMode, LegacyCheckTime, LegacyFormat, LegacySearch, LegacySource, LoadedState,
    Migration, MigrationPlan, MigrationStep, ParsedState, RawState, RawUpdater, RuntimeState, RuntimeStateStore,
    StateCorruption, StateDirectories, StateLoadStatus, StateMigrationOutcome, StatePaths,
    StateSource, StateStoreError, UpdateStoreOutcome, CURRENT_STATE_VERSION, MAX_STATE_BYTES,
};
use argmax::updater::UpdateState;

fn no_fields() -> RawUpdater {
    RawUpdater {
        reserved_check_ms: None,
        completed_check_ms: None,
        check_ms: None,
        check_seconds: None,
        notified_version: None,
    }
}

fn empty_state() -> RawState {
    RawState {
        version: None,
        last_mode: None,
        core_last_mode: None,
        updater: no_fields(),
        root_update: no_fields(),
    }
}

fn store() -> RuntimeStateStore {
    RuntimeStateStore::new(b"/data/argmax/state.toml".to_vec())
}

fn loaded(state: RuntimeState) -> LoadedState {
    LoadedState { state, status: StateLoadStatus::Current }
}

fn parsed(version: u32, state: RuntimeState) -> ParsedState {
    ParsedState { version, state }
}

#[test]
fn missing_and_corrupt_state_return_inspectable_defaults() {
    let store = store();
    let missing = store.load(StateSource::Missing).ok().unwrap();
    assert!(missing.status == StateLoadStatus::Missing);

    let corrupt = store
        .load(StateSource::Document(parse_toml(b"not = [toml", None)))
        .ok()
        .unwrap();
    assert!(corrupt.status == StateLoadStatus::Corrupt(StateCorruption::InvalidDocument));
    assert!(corrupt.state.last_mode().is_none());
    assert!(corrupt.state.updater().last_completed_check_ms().is_none());

    let oversized = vec![b'x'; MAX_STATE_BYTES + 1];
    let corruption = source_text(&oversized).err().unwrap();
    let large = store
        .load(StateSource::Failed(StateStoreError::InvalidSource(corruption)))
        .ok()
        .unwrap();
    assert!(large.status == StateLoadStatus::Corrupt(StateCorruption::TooLarge));
}

#[test]
fn typed_writes_preserve_unrelated_and_monotonic_fields() {
    let store = store();
    let first = store.load(StateSource::Missing).ok().unwrap();
    let with_mode = store.store_mode(first, LastMode::History).ok().unwrap();
    let newer = UpdateState::new(Some(20), Some(30), Some("2.0.0")).unwrap();
    let with_updater = store.store_updater(loaded(with_mode), &newer).ok().unwrap();
    let older = UpdateState::new(Some(10), Some(25), Some("1.0.0")).unwrap();
    let state = store.store_updater(loaded(with_updater), &older).ok().unwrap();

    assert!(state.last_mode() == Some(LastMode::History));
    assert!(state.updater().last_reserved_check_ms() == Some(20));
    assert!(state.updater().last_completed_check_ms() == Some(30));
    assert!(state.updater().last_notified_version() == Some("2.0.0"));
}

#[test]
fn compare_and_store_has_one_winner() {
    let store = store();
    let expected = UpdateState::default();
    let first = UpdateState::new(Some(10), None, None).unwrap();
    let second = UpdateState::new(Some(20), None, None).unwrap();
    let stored = match store
        .compare_and_store_updater(loaded(RuntimeState::default()), &expected, &first)
        .ok()
        .unwrap()
    {
        UpdateStoreOutcome::Persisted(state) => state,
        UpdateStoreOutcome::Superseded(_) => panic!("the first proposal was shut out"),
    };
    match store.compare_and_store_updater(loaded(stored), &expected, &second).ok().unwrap() {
        UpdateStoreOutcome::Superseded(winner) => {
            assert!(winner.last_reserved_check_ms() == Some(10));
        }
        UpdateStoreOutcome::Persisted(_) => panic!("two proposals won"),
    }
}

#[test]
fn imports_both_legacy_json_sources() {
    let state = RawState { last_mode: Some(LastMode::History), ..empty_state() };
    let update = RawState {
        root_update: RawUpdater {
            check_seconds: Some(20),
            notified_version: Some("v1.2.3".to_owned()),
            ..no_fields()
        },
        ..empty_state()
    };
    let sources = vec![
        LegacySource {
            format: LegacyFormat::StateJson,
            parsed: parse_json(br#"{"mode":"history"}"#, Some(state)),
        },
        LegacySource {
            format: LegacyFormat::UpdateJson,
            parsed: parse_json(br#"{"last_check":20,"seen_version":"v1.2.3"}"#, Some(update)),
        },
    ];
    let plan = store().migrate_if_needed(None, &sources).ok().unwrap();
    match &plan {
        MigrationPlan::Create { state, source_count } => {
            assert!(*source_count == 2);
            assert!(state.last_mode() == Some(LastMode::History));
            assert!(state.updater().last_reserved_check_ms() == Some(20_000));
            assert!(state.updater().last_completed_check_ms() == Some(20_000));
            assert!(state.updater().last_notified_version() == Some("1.2.3"));
        }
        _ => panic!("expected migration"),
    }
    let migrated = |plan: MigrationPlan, written: Result<(), StateStoreError>| {
        let mut migration = Migration::begin(plan);
        for (at, path) in [b"/a".to_vec(), b"/bc".to_vec()].into_iter().enumerate() {
            assert!(migration.step() == Some(MigrationStep::BackUp(at)));
            migration.backed_up(path);
        }
        for at in 0..2 {
            assert!(migration.step() == Some(MigrationStep::Recheck(at)));
            assert!(matches!(
                migration.rechecked(false),
                Err(StateStoreError::MigrationSourceChanged)
            ));
            assert!(migration.rechecked(true).is_ok());
        }
        assert!(migration.step() == Some(MigrationStep::Write));
        assert!(matches!(migration.plan(), MigrationPlan::Create { .. }));
        migration.finish(written)
    };
    let outcome = migrated(plan, Ok(())).ok().unwrap();
    assert!(outcome.debug_text() == "Migrated { source_count: 2, backup_path_bytes: [2, 3] }");
    let plan = store().migrate_if_needed(None, &sources).ok().unwrap();
    let raced = Err(StateStoreError::Io {
        operation: "install runtime state",
        kind: IoKind::AlreadyExists,
    });
    assert!(matches!(migrated(plan, raced), Ok(StateMigrationOutcome::Unneeded)));
    let second = Migration::begin(MigrationPlan::Unneeded);
    assert!(second.step().is_none());
    assert!(matches!(second.finish(Ok(())), Ok(StateMigrationOutcome::Unneeded)));
    let current = parsed(CURRENT_STATE_VERSION, RuntimeState::default());
    assert!(matches!(
        store().migrate_if_needed(Some(Ok(current)), &sources),
        Ok(MigrationPlan::Unneeded)
    ));
}

#[test]
fn migrates_the_existing_toml_shape() {
    let legacy = br#"last-mode = "history"

[updater]
last-check-time = 2009-02-13T23:31:30Z
seen-version = "v1.2.3"
"#;
    let raw = RawState {
        last_mode: Some(LastMode::History),
        updater: RawUpdater {
            notified_version: Some("v1.2.3".to_owned()),
            ..no_fields()
        },
        ..empty_state()
    };
    let read = parse_toml(legacy, Some(raw));
    let plan = store().migrate_if_needed(Some(read), &Vec::new()).ok().unwrap();
    match plan {
        MigrationPlan::Replace(state) => {
            assert!(state.last_mode() == Some(LastMode::History));
            assert!(state.updater().last_reserved_check_ms() == Some(1_234_567_890_000));
            assert!(state.updater().last_completed_check_ms() == Some(1_234_567_890_000));
            assert!(state.updater().last_notified_version() == Some("1.2.3"));
        }
        _ => panic!("expected migration"),
    }
}

#[test]
fn a_toml_timestamp_may_be_text_but_nothing_else() {
    let text = b"[updater]\nlast-check-time = \"1970-01-01T00:00:01.5+00:00\"\n";
    let state = parse_toml(text, Some(empty_state())).ok().unwrap().state;
    assert!(state.updater().last_reserved_check_ms() == Some(1_500));
    let number = b"[updater]\nlast-check-time = 7\n";
    assert!(parse_toml(number, Some(empty_state())).err() == Some(StateCorruption::InvalidUpdater));
    let absent = b"[other]\nlast-check-time = 7\n";
    let state = parse_toml(absent, Some(empty_state())).ok().unwrap().state;
    assert!(state.updater().last_reserved_check_ms().is_none());
    assert!(parse_toml(b"\xff", None).err() == Some(StateCorruption::InvalidUtf8));
    assert!(parse_toml(b"", None).err() == Some(StateCorruption::InvalidDocument));
}

#[test]
fn documents_are_read_within_their_schema() {
    let newer = RawState { version: Some(3), ..empty_state() };
    assert!(
        parse_document(LegacyCheckTime::Absent, Some(newer)).err()
            == Some(StateCorruption::UnsupportedVersion)
    );
    let first = parse_document(LegacyCheckTime::Absent, Some(empty_state())).ok().unwrap();
    assert!(first.version == 1);
    let mode = RawState { core_last_mode: Some(LastMode::Spec), version: Some(2), ..empty_state() };
    let read = parse_document(LegacyCheckTime::Absent, Some(mode)).ok().unwrap();
    assert!(read.version == 2 && read.state.last_mode() == Some(LastMode::Spec));
    let overflow = RawState {
        updater: RawUpdater { check_seconds: Some(u64::MAX), ..no_fields() },
        ..empty_state()
    };
    assert!(
        parse_document(LegacyCheckTime::Absent, Some(overflow)).err()
            == Some(StateCorruption::InvalidUpdater)
    );
    let version = RawState {
        root_update: RawUpdater {
            notified_version: Some("latest".to_owned()),
            ..no_fields()
        },
        ..empty_state()
    };
    assert!(
        parse_document(LegacyCheckTime::Absent, Some(version)).err()
            == Some(StateCorruption::InvalidUpdater)
    );
    assert!(parse_json(b"\xff", None).err() == Some(StateCorruption::InvalidUtf8));
    assert!(legacy_check_ms(&LegacyCheckTime::Other).err() == Some(StateCorruption::InvalidUpdater));
    let early = LegacyCheckTime::Text("1969-12-31T23:59:59Z".to_owned());
    assert!(legacy_check_ms(&early) == Ok(None));
    assert!(source_text(b"version = 2").ok().unwrap() == "version = 2");
    assert!(source_text(b"\xff").err() == Some(StateCorruption::InvalidUtf8));
}

#[test]
fn older_and_broken_state_is_not_overwritten() {
    let legacy = LoadedState {
        state: RuntimeState::default(),
        status: StateLoadStatus::Legacy { version: 1 },
    };
    assert!(matches!(
        store().store_mode(legacy, LastMode::Spec),
        Err(StateStoreError::NeedsMigration)
    ));
    let broken = LoadedState {
        state: RuntimeState::default(),
        status: StateLoadStatus::Corrupt(StateCorruption::InvalidUtf8),
    };
    let error = store().store_updater(broken, &UpdateState::default()).err().unwrap();
    assert!(error.message() == "runtime state is invalid: InvalidUtf8");
    let old = store()
        .load(StateSource::Document(Ok(parsed(1, RuntimeState::default()))))
        .ok()
        .unwrap();
    assert!(old.status == StateLoadStatus::Legacy { version: 1 });
    assert!(
        old.debug_text()
            == "LoadedState { state: RuntimeState { last_mode: None, updater: UpdateState { \
                last_reserved_check_ms: None, last_completed_check_ms: None, \
                has_notified_version: false } }, status: Legacy { version: 1 } }"
    );
    let io = StateStoreError::Io { operation: "open runtime state", kind: IoKind::PermissionDenied };
    assert!(matches!(store().load(StateSource::Failed(io)), Err(StateStoreError::Io { .. })));
    assert!(io.message() == "open runtime state: PermissionDenied");
}

#[test]
fn a_source_that_cannot_be_read_stops_a_merge() {
    let sources = vec![
        LegacySource {
            format: LegacyFormat::StateJson,
            parsed: Ok(parsed(1, RuntimeState::default())),
        },
        LegacySource {
            format: LegacyFormat::UpdateJson,
            parsed: Err(StateCorruption::InvalidDocument),
        },
    ];
    assert!(merge_legacy_sources(&sources).err() == Some(StateCorruption::InvalidDocument));
    assert!(matches!(
        store().migrate_if_needed(None, &sources),
        Err(StateStoreError::InvalidSource(StateCorruption::InvalidDocument))
    ));
    assert!(matches!(
        store().migrate_if_needed(None, &Vec::new()),
        Ok(MigrationPlan::Unneeded)
    ));
}

#[test]
fn discovered_paths_are_ordered_and_distinct() {
    let directories = StateDirectories {
        project_data: b"/home/u/.local/share/argmax".to_vec(),
        project_config: b"/home/u/.config/argmax".to_vec(),
        iris_data: b"/home/u/.local/share/iris".to_vec(),
        iris_config: b"/home/u/.config/iris".to_vec(),
        base_config: b"/home/u/.config".to_vec(),
        home: b"/home/u".to_vec(),
        xdg_data: Some(b"/xdg".to_vec()),
    };
    let paths = StatePaths::discover(Some(directories)).ok().unwrap();
    assert!(paths.current() == b"/home/u/.local/share/argmax/state.toml".as_slice());
    let toml: Vec<&[u8]> =
        paths.candidates(LegacyFormat::Toml).iter().map(|path| path.as_slice()).collect();
    assert!(
        toml == vec![
            b"/xdg/argmax/state.toml".as_slice(),
            b"/xdg/iris/state.toml".as_slice(),
            b"/home/u/.config/argmax/state.toml".as_slice(),
            b"/home/u/.argmax/state.toml".as_slice(),
            b"/home/u/.local/share/iris/state.toml".as_slice(),
            b"/home/u/.config/iris/state.toml".as_slice(),
        ]
    );
    assert!(paths.candidates(LegacyFormat::StateJson).len() == 2);
    assert!(matches!(
        RuntimeStateStore::discover(None),
        Err(StateStoreError::NoPlatformDirectory)
    ));
}

#[test]
fn equal_paths_are_listed_once_however_spelled() {
    let paths = StatePaths::new(
        b"/a/state.toml".to_vec(),
        vec![b"/a//state.toml".to_vec(), b"/b/state.toml".to_vec(), b"/b/./state.toml/".to_vec()],
        None,
        Some(b"b/state.toml".to_vec()),
    );
    assert!(paths.candidates(LegacyFormat::Toml).len() == 1);
    assert!(paths.candidates(LegacyFormat::UpdateJson).len() == 1);
    assert!(
        RuntimeStateStore::from_paths(paths).debug_text()
            == "RuntimeStateStore { paths: StatePaths { current_path_bytes: 13, legacy_toml_count: 1, \
                legacy_state_json_count: 0, legacy_update_json_count: 1 } }"
    );
}

#[test]
fn legacy_sources_are_searched_in_order() {
    let paths = StatePaths::with_legacy_json_candidates(
        b"/s".to_vec(),
        vec![b"/t1".to_vec(), b"/t2".to_vec()],
        vec![b"/j1".to_vec(), b"/j2".to_vec()],
        vec![b"/u1".to_vec()],
    );
    let search = LegacySearch::start(&paths);
    assert!(search.next == Some((LegacyFormat::Toml, 0)));
    let search = search.advance(&paths, false);
    assert!(search.next == Some((LegacyFormat::Toml, 1)));
    assert!(search.advance(&paths, true).next.is_none());
    let search = search.advance(&paths, false);
    assert!(search.next == Some((LegacyFormat::StateJson, 0)));
    let search = search.advance(&paths, true);
    assert!(search.next == Some((LegacyFormat::UpdateJson, 0)));
    assert!(search.advance(&paths, true).next.is_none());
}

#[test]
fn names_beside_a_state_file() {
    assert!(lock_name(b"state.toml") == b".state.toml.lock".to_vec());
    assert!(backup_name(b"state.toml", 42, 0) == b"state.toml.backup.42".to_vec());
    assert!(backup_name(b"state.toml", 42, 7) == b"state.toml.backup.42.7".to_vec());
    assert!(matches!(after_backup(0, Ok(())), BackupStep::Done));
    assert!(matches!(after_backup(0, Err(IoKind::AlreadyExists)), BackupStep::Retry(1)));
    assert!(matches!(
        after_backup(99, Err(IoKind::AlreadyExists)),
        BackupStep::Fail(StateStoreError::BackupNameExhausted)
    ));
    assert!(matches!(
        after_backup(3, Err(IoKind::StorageFull)),
        BackupStep::Fail(StateStoreError::Io { kind: IoKind::StorageFull, .. })
    ));
}

#[test]
fn unsafe_files_and_replaced_locks_are_refused() {
    let file = FileFacts {
        symlink: false,
        regular: true,
        directory: false,
        links: 1,
        device: 3,
        inode: 4,
    };
    assert!(file.validate_file().is_ok());
    let linked = FileFacts { links: 2, ..file };
    assert!(matches!(linked.validate_file(), Err(StateStoreError::UnsafeFileType)));
    assert!(matches!(file.validate_directory(), Err(StateStoreError::UnsafeDirectoryType)));
    let other = FileFacts { inode: 5, ..file };
    assert!(validate_new_lock(&file, &file).is_ok());
    assert!(matches!(validate_new_lock(&file, &other), Err(StateStoreError::UnsafeFileType)));
    assert!(validate_anchor(&file, &file, Some(file)).is_ok());
    assert!(matches!(
        validate_anchor(&file, &file, Some(other)),
        Err(StateStoreError::LockReplaced)
    ));
    assert!(matches!(validate_anchor(&file, &file, None), Err(StateStoreError::LockReplaced)));
}

#[test]
fn debug_output_redacts_paths_and_notified_version() {
    let paths = StatePaths::new(
        b"/private/Troy-secret/state.toml".to_vec(),
        vec![b"/private/Annie-secret/state.toml".to_vec()],
        None,
        None,
    );
    let state = RuntimeState::new(
        Some(LastMode::History),
        UpdateState::new(None, None, Some("9.8.7+private-token")).unwrap(),
    );
    let debug = format!("{} {}", paths.debug_text(), state.debug_text());
    assert!(!debug.contains("Troy-secret"));
    assert!(!debug.contains("Annie-secret"));
    assert!(!debug.contains("private-token"));
}

#[test]
fn stored_states_read_back() {
    let updater = UpdateState::new(Some(7), Some(5), Some("1.2.3-rc.1")).unwrap();
    let state = RuntimeState::new(Some(LastMode::History), updater);
    let raw = state.stored_fields();
    assert!(raw.version == Some(CURRENT_STATE_VERSION));
    assert!(raw.updater.notified_version.as_deref() == Some("1.2.3-rc.1"));
    let parsed = raw.into_parsed().ok().unwrap();
    assert!(parsed.version == CURRENT_STATE_VERSION);
    assert!(parsed.state.debug_text() == state.debug_text());
    assert!(parsed.state.updater().last_notified_version() == Some("1.2.3-rc.1"));

    let document = "version = 2\nlast_mode = \"history\"\n\n[updater]\nlast_reserved_check_ms = 7\n";
    assert!(
        render_state(Some(document.to_owned()), Some(state.stored_fields())).ok()
            == Some(document.to_owned())
    );
    for (rendered, raw) in [
        (None, Some(state.stored_fields())),
        (Some("version = ".to_owned()), Some(state.stored_fields())),
        (Some(document.to_owned()), None),
    ] {
        assert!(matches!(
            render_state(rendered, raw),
            Err(StateStoreError::InvalidSource(StateCorruption::InvalidDocument))
        ));
    }
    let newer = RawState { version: Some(CURRENT_STATE_VERSION + 1), ..state.stored_fields() };
    assert!(matches!(
        render_state(Some(document.to_owned()), Some(newer)),
        Err(StateStoreError::InvalidSource(StateCorruption::UnsupportedVersion))
    ));
}
