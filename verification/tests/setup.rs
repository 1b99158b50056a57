use argmax::setup::{
    add_attribute_bytes, after_backup_attempt, after_quarantine_attempt,
    after_transaction_attempt, attribute_names, detect_setup_shell, directory_component_error,
    directory_components, extended_metadata_error, file_identity_matches, file_is_exclusively_named, is_exchangeable, is_exclusive_regular,
    platform_anchor_path, settle_new_publication, settle_replacement_exchange, setup_backup_name, setup_lock_name, sort_attributes,
    transaction_name, unsettled_error, unwanted_attributes, validate_new_publication, validate_parent, validate_source_size,
    validate_source_type, validate_unchanged, ConfigEditError, EditFacts, ExtendedAttribute,
    InstallStage, NameStep, NewFileStep, PreservedMetadata, SettleStep, SetupError, SetupOutcome, SetupTarget,
    Shell, MAX_EXTENDED_ATTRIBUTE_LIST_BYTES, MAX_EXTENDED_ATTRIBUTE_TOTAL_BYTES,
    MAX_EXTENDED_ATTRIBUTE_VALUE_BYTES, MAX_MANAGED_BLOCK_BYTES, MAX_SHELL_CONFIG_BYTES,
    MAX_SHELL_FILE_BYTES,
};
use argmax::state::{FileFacts, IoKind};

fn facts() -> FileFacts {
    FileFacts { symlink: false, regular: true, directory: false, links: 1, device: 1, inode: 2 }
}

fn attribute(name: &str, value: &str) -> ExtendedAttribute {
    ExtendedAttribute { name: name.as_bytes().to_vec(), value: value.as_bytes().to_vec() }
}

#[test]
fn detects_only_supported_shell_basenames_with_active_precedence() {
    assert!(
        detect_setup_shell(Some(b"fish".as_slice()), Some(b"/bin/zsh".as_slice())).ok()
            == Some(Shell::Fish)
    );
    assert!(
        detect_setup_shell(None, Some(b"/opt/homebrew/bin/bash".as_slice())).ok()
            == Some(Shell::Bash)
    );
    assert!(matches!(
        detect_setup_shell(Some(b"sh".as_slice()), Some(b"/bin/zsh".as_slice())),
        Err(SetupError::UnsupportedShell)
    ));
    assert!(detect_setup_shell(None, None).is_err());
    assert!(detect_setup_shell(Some(b"/bin/zsh/".as_slice()), None).ok() == Some(Shell::Zsh));
    assert!(detect_setup_shell(Some(b"/bin/zsh/..".as_slice()), None).is_err());
    assert!(detect_setup_shell(Some(b"".as_slice()), None).is_err());
}

#[test]
fn resolves_zdotdir_and_xdg_fish_paths_without_sourcing_them() {
    let home = b"/home/britta".as_slice();
    let zdir = b"/home/britta/z-config".as_slice();
    let xdg = b"/home/britta/xdg".as_slice();
    let target = SetupTarget::from_environment(Shell::Zsh, home, Some(zdir), None, None);
    assert!(target.ok().unwrap().path() == b"/home/britta/z-config/.zshrc".as_slice());
    let target = SetupTarget::from_environment(Shell::Fish, home, None, Some(xdg), None);
    assert!(target.ok().unwrap().path() == b"/home/britta/xdg/fish/config.fish".as_slice());

    let current = b"/home/britta/workspace".as_slice();
    let relative = b"relative-zdotdir".as_slice();
    let target = SetupTarget::from_environment(
        Shell::Zsh,
        b"irrelevant-home",
        Some(relative),
        Some(b"irrelevant-xdg".as_slice()),
        Some(current),
    );
    assert!(
        target.ok().unwrap().path()
            == b"/home/britta/workspace/relative-zdotdir/.zshrc".as_slice()
    );
    let target = SetupTarget::from_environment(
        Shell::Zsh,
        b"irrelevant-home",
        Some(b"".as_slice()),
        Some(b"irrelevant-xdg".as_slice()),
        None,
    );
    assert!(target.ok().unwrap().path() == b"/.zshrc".as_slice());

    for target in [
        SetupTarget::from_environment(Shell::Bash, home, Some(relative), Some(relative), None),
        SetupTarget::from_environment(Shell::Fish, home, Some(relative), Some(xdg), None),
    ] {
        assert!(target.ok().unwrap().path()[0] == b'/');
    }
    let target = SetupTarget::from_environment(Shell::Fish, home, None, Some(relative), None);
    assert!(
        target.ok().unwrap().path() == b"/home/britta/.config/fish/config.fish".as_slice()
    );
    let relative_home = SetupTarget::from_environment(Shell::Bash, b"home", None, None, None);
    assert!(matches!(relative_home, Err(SetupError::RelativePath)));
    let lost = SetupTarget::from_environment(Shell::Zsh, home, Some(relative), None, None);
    assert!(matches!(lost, Err(SetupError::RelativePath)));
}

#[test]
fn targets_are_absolute_and_redacted() {
    assert!(matches!(
        SetupTarget::new(Shell::Bash, b"relative".to_vec()),
        Err(SetupError::RelativePath)
    ));
    let target = SetupTarget::new(Shell::Zsh, b"/secret/.zshrc".to_vec()).ok().unwrap();
    assert!(target.shell() == Shell::Zsh);
    assert!(target.debug_text() == "SetupTarget { shell: Zsh, path_bytes: 14 }");
    let outcome = SetupOutcome::installed(b"/secret/.zshrc".to_vec(), Some(b"/secret/b".to_vec()));
    assert!(outcome.changed() && outcome.backup() == Some(b"/secret/b".as_slice()));
    assert!(
        outcome.debug_text()
            == "SetupOutcome { path_bytes: 14, backup_path_bytes: Some(9), changed: true }"
    );
    let outcome = SetupOutcome::unchanged(b"/x".to_vec());
    assert!(!outcome.changed() && outcome.backup().is_none() && outcome.path() == b"/x".as_slice());
}

#[test]
fn edits_beyond_a_bound_are_refused_before_anything_is_written() {
    let target = SetupTarget::new(Shell::Bash, b"/h/.bashrc".to_vec()).ok().unwrap();
    let edit = EditFacts {
        content_bytes: MAX_SHELL_FILE_BYTES,
        managed_bytes: MAX_MANAGED_BLOCK_BYTES,
        unmanaged_bytes: MAX_SHELL_CONFIG_BYTES,
        unchanged: false,
    };
    assert!(matches!(target.install(Ok(edit), true), Ok(InstallStage::WriteBackup)));
    assert!(matches!(target.install(Ok(edit), false), Ok(InstallStage::PrepareReplacement)));
    let unchanged = EditFacts { unchanged: true, ..edit };
    assert!(matches!(target.install(Ok(unchanged), true), Ok(InstallStage::ValidateUnchanged)));
    for refused in [
        EditFacts { content_bytes: MAX_SHELL_FILE_BYTES + 1, ..edit },
        EditFacts { managed_bytes: MAX_MANAGED_BLOCK_BYTES + 1, ..edit },
        EditFacts { unmanaged_bytes: MAX_SHELL_CONFIG_BYTES + 1, ..edit },
    ] {
        assert!(matches!(target.install(Ok(refused), true), Err(SetupError::ConfigTooLarge)));
    }
    for refusal in [ConfigEditError::MalformedMarkers, ConfigEditError::DuplicateBlock] {
        for has_source in [true, false] {
            assert!(matches!(
                target.install(Err(refusal), has_source),
                Err(SetupError::MalformedConfig(found)) if found == refusal
            ));
        }
    }
    assert!(validate_source_size(MAX_SHELL_FILE_BYTES).is_ok());
    assert!(matches!(
        validate_source_size(MAX_SHELL_FILE_BYTES + 1),
        Err(SetupError::ConfigTooLarge)
    ));
}

#[test]
fn installations_run_through_their_stages() {
    let mut stage = InstallStage::WriteBackup;
    let mut count = 0;
    while !matches!(stage, InstallStage::Installed) {
        stage = stage.advance(true, Ok(()));
        count += 1;
    }
    assert!(count == 8);
    let failed = InstallStage::Publish.advance(true, Err(SetupError::SourceChanged));
    assert!(matches!(failed, InstallStage::SyncPublished(Some(SetupError::SourceChanged))));
    assert!(matches!(
        failed.advance(true, Ok(())),
        InstallStage::Failed(SetupError::SourceChanged)
    ));
    let restore = InstallStage::ValidatePublished.advance(true, Err(SetupError::UnsafeFileType));
    assert!(matches!(restore, InstallStage::Restore(SetupError::UnsafeFileType)));
    let restored = restore.advance(true, Ok(()));
    assert!(matches!(
        restored.advance(true, Ok(())),
        InstallStage::Failed(SetupError::UnsafeFileType)
    ));
    assert!(matches!(
        restore.advance(true, Err(SetupError::SourceChanged)),
        InstallStage::Failed(SetupError::SourceChanged)
    ));
    assert!(matches!(
        InstallStage::ValidateUnchanged.advance(true, Ok(())),
        InstallStage::Unchanged
    ));
}

#[test]
fn exchanges_settle_or_keep_foreign_files() {
    let cases = [
        (Ok(true), true, Ok(true), SettleStep::Settled),
        (Ok(true), true, Ok(false), SettleStep::RestoreSource),
        (Ok(true), false, Ok(false), SettleStep::RestoreSource),
        (Ok(false), false, Ok(false), SettleStep::LeaveTarget),
        (Ok(false), true, Ok(true), SettleStep::RestoreDisplaced),
        (Err(SetupError::UnsupportedMetadata), true, Ok(true), SettleStep::RestoreDisplaced),
    ];
    for (source, identity, replacement, step) in cases {
        assert!(settle_replacement_exchange(&source, identity, &replacement) == step);
    }
    let failed = Err(SetupError::UnsupportedMetadata);
    assert!(matches!(
        unsettled_error(SettleStep::RestoreDisplaced, Ok(false), failed),
        SetupError::UnsupportedMetadata
    ));
    assert!(matches!(
        unsettled_error(SettleStep::LeaveTarget, Ok(false), failed),
        SetupError::SourceChanged
    ));
    assert!(validate_unchanged(Ok(true)).is_ok());
    assert!(matches!(validate_unchanged(Ok(false)), Err(SetupError::SourceChanged)));
}

#[test]
fn preserves_existing_backup_on_name_collision() {
    assert!(setup_backup_name(b".bashrc", 7, 0) == b".bashrc.argmax-backup.7".to_vec());
    match after_backup_attempt(0, Err(IoKind::AlreadyExists)) {
        NameStep::Retry(collision) => assert!(
            setup_backup_name(b".bashrc", 7, collision) == b".bashrc.argmax-backup.7.1".to_vec()
        ),
        _ => panic!("expected another name"),
    }
    assert!(matches!(
        after_backup_attempt(99, Err(IoKind::AlreadyExists)),
        NameStep::Fail(SetupError::BackupNameExhausted)
    ));
    assert!(matches!(
        after_transaction_attempt(99, Err(IoKind::AlreadyExists)),
        NameStep::Fail(SetupError::TransactionNameExhausted)
    ));
    assert!(matches!(after_transaction_attempt(5, Ok(())), NameStep::Done));
    assert!(matches!(
        after_quarantine_attempt(0, Err(IoKind::NotFound)),
        NameStep::Fail(SetupError::SourceChanged)
    ));
    assert!(setup_lock_name(b".zshrc") == b"..zshrc.argmax-setup.lock".to_vec());
    assert!(transaction_name(12, 3) == b".argmax-setup-quarantine.12.3".to_vec());
}

#[test]
fn unsafe_types_and_replaced_names_are_refused() {
    assert!(validate_source_type(&facts()).is_ok());
    let fifo = FileFacts { regular: false, ..facts() };
    assert!(matches!(validate_source_type(&fifo), Err(SetupError::UnsafeFileType)));
    let hardlinked = FileFacts { links: 2, ..facts() };
    assert!(!file_is_exclusively_named(&hardlinked, Some(hardlinked)));
    assert!(file_identity_matches(&hardlinked, Some(hardlinked)));
    assert!(!file_identity_matches(&facts(), None));
    assert!(file_is_exclusively_named(&facts(), Some(facts())));
    assert!(is_exclusive_regular(Some(facts())) && !is_exclusive_regular(None));
    let directory = FileFacts { regular: false, directory: true, ..facts() };
    assert!(!is_exchangeable(Some(directory)) && is_exchangeable(Some(fifo)));
    assert!(validate_parent(Ok((directory, directory))).is_ok());
    let moved = FileFacts { inode: 9, ..directory };
    assert!(matches!(validate_parent(Ok((directory, moved))), Err(SetupError::SourceChanged)));
    assert!(matches!(
        validate_parent(Err(SetupError::UnsafeFileType)),
        Err(SetupError::SourceChanged)
    ));
    assert!(matches!(
        validate_parent(Err(SetupError::RelativePath)),
        Err(SetupError::RelativePath)
    ));
}

#[test]
fn directory_chains_never_lead_upwards() {
    let names = directory_components(b"/home//troy/./x/").ok().unwrap();
    assert!(names == vec![b"home".to_vec(), b"troy".to_vec(), b"x".to_vec()]);
    assert!(matches!(directory_components(b"home"), Err(SetupError::RelativePath)));
    assert!(matches!(directory_components(b"/home/../x"), Err(SetupError::UnsafeFileType)));
}

#[test]
fn extended_attributes_are_bounded_and_sorted() {
    assert!(attribute_names(b"").ok().unwrap().is_empty());
    assert!(
        attribute_names(b"user.b\0user.a\0").ok()
            == Some(vec![b"user.b".to_vec(), b"user.a".to_vec()])
    );
    for broken in [b"user.a".as_slice(), b"\0".as_slice(), b"a\0\0".as_slice()] {
        assert!(matches!(attribute_names(broken), Err(SetupError::UnsupportedMetadata)));
    }
    let long = vec![0_u8; MAX_EXTENDED_ATTRIBUTE_LIST_BYTES + 1];
    assert!(attribute_names(&long).is_err());
    assert!(add_attribute_bytes(5, 7).ok() == Some(12));
    assert!(add_attribute_bytes(0, MAX_EXTENDED_ATTRIBUTE_VALUE_BYTES + 1).is_err());
    assert!(add_attribute_bytes(MAX_EXTENDED_ATTRIBUTE_TOTAL_BYTES, 1).is_err());

    let sorted = sort_attributes(vec![attribute("b", "1"), attribute("a", "2")]);
    assert!(sorted[0].name == b"a".to_vec() && sorted[1].value == b"1".to_vec());
    let unwanted = unwanted_attributes(&sorted, &vec![attribute("b", "3")]);
    assert!(unwanted == vec![b"a".to_vec()]);
    let metadata = |value: &str| PreservedMetadata {
        mode: 0o640,
        uid: 1,
        gid: 2,
        extended_attributes: vec![attribute("a", value)],
    };
    assert!(metadata("x").same_as(&metadata("x")));
    assert!(!metadata("x").same_as(&metadata("y")));
}

#[test]
fn setup_errors_describe_themselves() {
    assert!(
        SetupError::MalformedConfig(ConfigEditError::DuplicateBlock).message()
            == "shell integration block is duplicated"
    );
    assert!(
        SetupError::Io { operation: "lock shell setup", kind: IoKind::Interrupted }.message()
            == "lock shell setup: Interrupted"
    );
    assert!(
        SetupError::UnsupportedShell.message()
            == "could not detect Bash, Zsh, or Fish; use `argmax setup <shell>`"
    );
}

#[test]
fn new_files_settle_or_are_moved_back() {
    assert!(validate_new_publication(Ok(())).is_ok());
    assert!(matches!(
        validate_new_publication(Err(IoKind::AlreadyExists)),
        Err(SetupError::SourceChanged)
    ));
    assert!(matches!(
        validate_new_publication(Err(IoKind::StorageFull)),
        Err(SetupError::Io { operation: "install new shell configuration", .. })
    ));
    assert!(settle_new_publication(true, true) == NewFileStep::Settled);
    assert!(settle_new_publication(false, true) == NewFileStep::MoveBack);
    assert!(settle_new_publication(false, false) == NewFileStep::LeaveTarget);
    assert!(matches!(
        directory_component_error(true, IoKind::Uncategorized),
        SetupError::UnsafeFileType
    ));
    assert!(matches!(
        directory_component_error(false, IoKind::NotFound),
        SetupError::Io { operation: "open shell configuration directory", kind: IoKind::NotFound }
    ));
    assert!(matches!(
        extended_metadata_error(true, IoKind::Uncategorized),
        SetupError::UnsupportedMetadata
    ));
    assert!(matches!(
        extended_metadata_error(false, IoKind::PermissionDenied),
        SetupError::Io { operation: "inspect extended shell metadata", .. }
    ));
}

#[test]
fn a_second_installation_only_confirms() {
    let target = SetupTarget::new(Shell::Bash, b"/h/.bashrc".to_vec()).ok().unwrap();
    let edit =
        EditFacts { content_bytes: 9, managed_bytes: 4, unmanaged_bytes: 5, unchanged: true };
    for result in [Ok(()), Err(SetupError::SourceChanged)] {
        let stage = target.install(Ok(edit), true).ok().unwrap();
        assert!(matches!(stage, InstallStage::ValidateUnchanged));
        let ended = stage.advance(true, result);
        assert!(matches!(ended, InstallStage::Unchanged | InstallStage::Failed(_)));
        assert!(matches!(
            ended.advance(true, Ok(())),
            InstallStage::Unchanged | InstallStage::Failed(_)
        ));
    }
}

#[test]
fn anchor_paths_resolve_the_links_of_the_root() {
    for (path, anchored) in [
        ("/tmp/x", "/private/tmp/x"),
        ("/tmp", "/private/tmp/"),
        ("//./var//a/./b/./", "/private/var/a/./b"),
        ("/etc/..", "/private/etc/.."),
        ("/tmpfs/x", "/tmpfs/x"),
        ("/home/tmp", "/home/tmp"),
        ("tmp/x", "tmp/x"),
    ] {
        assert!(platform_anchor_path(path.as_bytes(), true) == anchored.as_bytes());
        assert!(platform_anchor_path(path.as_bytes(), false) == path.as_bytes());
        let expected = ["tmp", "var", "etc"]
            .iter()
            .find_map(|name| {
                let rest = std::path::Path::new(path).strip_prefix(format!("/{name}")).ok()?;
                Some(std::path::Path::new("/private").join(name).join(rest))
            })
            .unwrap_or(std::path::PathBuf::from(path));
        assert!(expected.to_str() == Some(anchored));
    }
}
