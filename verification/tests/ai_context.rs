use argmax::ai_context::{
    bounded_text, catalog_command_help, first_lines, gather_broader_context, node_metadata,
    push_resource_group, relevant_local_resources, render_catalog_help, resolved_catalog_command,
    resource_interest, structured_targets, truncate_utf8, valid_target, AiContextLevel,
    CommandSpec, GitFacts, OptionHelp, ResourceInterest, WorkspaceFacts, MAX_HELP_BYTES,
    MAX_LOCAL_RESOURCE_GROUPS, MAX_RESOURCE_NAME_BYTES, MAX_STRUCTURED_METADATA_BYTES,
};

fn command(name: &str, description: &str, subcommands: Vec<CommandSpec>) -> CommandSpec {
    CommandSpec {
        name: name.to_owned(),
        description: description.to_owned(),
        subcommands,
        options: Vec::new(),
    }
}

fn npm_install() -> CommandSpec {
    CommandSpec {
        options: vec![OptionHelp {
            names: vec!["-g".to_owned(), "--global".to_owned()],
            description: "everywhere".to_owned(),
        }],
        ..command("install", "install packages", vec![command("ci", "clean", Vec::new())])
    }
}

fn catalog() -> Vec<CommandSpec> {
    vec![command("git", "", Vec::new()), command("npm", "packages", vec![npm_install()])]
}

fn facts() -> WorkspaceFacts {
    WorkspaceFacts {
        cwd: Some("/work".to_owned()),
        recent_commands: vec!["git status".to_owned()],
        marker_names: vec!["package.json".to_owned(), "Makefile".to_owned()],
        directory_names: vec!["study-group".to_owned()],
        skeleton: Some("npm install".to_owned()),
        package: Some(
            r#"{"scripts":{"study":"cargo test","blank":4},"dependencies":{"@greendale/study-group":"1"}}"#
                .to_owned(),
        ),
        makefile: Some("study:\n\t@true\n".to_owned()),
        justfile: None,
    }
}

#[test]
fn workspace_gathering_is_bounded_and_structured() {
    let (workspace, git) =
        gather_broader_context(AiContextLevel::Workspace, false, &catalog(), facts(), None);
    let workspace = workspace.unwrap();
    assert!(git.is_none());
    assert_eq!(workspace.recent_commands, ["git status"]);
    assert_eq!(workspace.directory_names, ["study-group"]);
    assert_eq!(workspace.signature_filenames, ["Makefile", "package.json"]);
    assert_eq!(workspace.make_targets, ["study"]);
    assert_eq!(workspace.package_scripts.len(), 1);
    assert_eq!(workspace.package_scripts[0].name, "study");
    assert_eq!(workspace.package_scripts[0].value, "cargo test");
    assert_eq!(workspace.allowlisted_command_help.len(), 1);
    assert_eq!(workspace.allowlisted_command_help[0].name, "npm install");
    assert!(workspace.allowlisted_command_help[0].value.contains("install packages"));
    assert_eq!(workspace.local_resources.len(), 2);
    assert_eq!(workspace.local_resources[0].kind, "package");
    assert_eq!(workspace.local_resources[0].names, ["@greendale/study-group"]);
    assert_eq!(workspace.local_resources[1].kind, "package-script");
    assert_eq!(workspace.local_resources[1].names, ["study"]);
    assert!(!workspace.directory_names.contains(&"notes.txt".to_owned()));
}

#[test]
fn cancelled_query_skips_workspace_gathering() {
    let context = gather_broader_context(AiContextLevel::Workspace, true, &catalog(), facts(), None);
    assert!(context.0.is_none() && context.1.is_none());
}

#[test]
fn git_is_described_at_the_full_level_only() {
    let git = || GitFacts {
        status: Some("## main".to_owned()),
        staged_diff: None,
        branches: Some((0..40).map(|index| format!("b{index}\n")).collect()),
        subjects: Some("one\r\ntwo".to_owned()),
    };
    let roots = catalog();
    let workspace = AiContextLevel::Workspace;
    let (_, none) = gather_broader_context(workspace, false, &roots, facts(), Some(git()));
    assert!(none.is_none());
    let level = AiContextLevel::Full;
    let (_, full) = gather_broader_context(level, false, &roots, facts(), Some(git()));
    let full = full.unwrap();
    assert_eq!(full.status, Some("## main".to_owned()));
    assert_eq!(full.branch_names.len(), 32);
    assert_eq!(full.branch_names[31], "b31");
    assert_eq!(full.recent_commit_subjects, ["one", "two"]);
}

#[test]
fn package_files_are_read_member_by_member() {
    let metadata = node_metadata(Some(
        r#"{"scripts":{"b":"2","a":"1"},"dependencies":{"z":1},"devDependencies":{"y":1},
            "optionalDependencies":{"x":1,"z":2},"peerDependencies":[]}"#,
    ));
    let scripts: Vec<(&str, &str)> = metadata
        .scripts
        .iter()
        .map(|script| (script.name.as_str(), script.value.as_str()))
        .collect();
    assert_eq!(scripts, [("a", "1"), ("b", "2")]);
    assert_eq!(metadata.packages, ["x", "y", "z"]);
    let broken = node_metadata(Some("{\"scripts\":"));
    assert!(broken.scripts.is_empty() && broken.packages.is_empty());
    assert!(node_metadata(None).packages.is_empty());
    assert!(node_metadata(Some("[1]")).scripts.is_empty());
}

#[test]
fn targets_are_names_before_a_colon() {
    let text = "b : x\n\ta:\n# c:\n  lead:\nd e:\nb:\n.PHONY: all\nv := 1\n\u{e9}:\nlast:";
    let targets = structured_targets(Some(text), 64);
    assert!(targets.contains(&"b".to_owned()) && targets.contains(&"last".to_owned()));
    assert!(!targets.contains(&"a".to_owned()));
    assert!(!targets.iter().any(|target| target.contains(' ') || !target.is_ascii()));
    assert_eq!(structured_targets(Some("b:\na:\nb:\n"), 64), ["a", "b"]);
    assert_eq!(structured_targets(Some("b:\na:\n"), 1), ["a"]);
    assert!(structured_targets(None, 64).is_empty());
    assert!(valid_target("a-b_c.D9") && !valid_target("") && !valid_target("a/b"));
    assert!(!valid_target(&"x".repeat(MAX_RESOURCE_NAME_BYTES + 1)));
}

#[test]
fn texts_are_cut_between_characters() {
    assert_eq!(truncate_utf8("h\u{e9}llo", 2), "h");
    assert_eq!(truncate_utf8("h\u{e9}llo", 3), "h\u{e9}");
    assert_eq!(truncate_utf8("abc", 3), "abc");
    assert_eq!(first_lines(Some("a\nb\nc"), 2), ["a", "b"]);
    assert!(first_lines(None, 2).is_empty());
    assert_eq!(bounded_text(b"ok"), Some("ok".to_owned()));
    assert_eq!(bounded_text(b"\xff"), None);
    assert_eq!(bounded_text(&vec![b'a'; MAX_STRUCTURED_METADATA_BYTES + 1]), None);
}

#[test]
fn help_is_rendered_line_by_line() {
    assert_eq!(
        render_catalog_help(&npm_install()),
        "install packages\nsubcommand ci: clean\noption -g, --global: everywhere"
    );
    let long = CommandSpec { description: "x".repeat(MAX_HELP_BYTES + 9), ..npm_install() };
    assert_eq!(render_catalog_help(&long).len(), MAX_HELP_BYTES);
    let empty = command("x", " ", Vec::new());
    assert!(catalog_command_help(Some(("x", &empty))).is_empty());
    assert!(catalog_command_help(None).is_empty());
}

#[test]
fn resources_follow_the_command() {
    assert_eq!(resource_interest("pnpm"), ResourceInterest::Packages);
    assert_eq!(resource_interest("just"), ResourceInterest::JustTargets);
    assert_eq!(resource_interest("git"), ResourceInterest::Nothing);
    let names = vec!["one".to_owned()];
    let groups = |skeleton: Option<&str>| {
        relevant_local_resources(skeleton, &names, &Vec::new(), &names, &names, &names)
    };
    assert_eq!(groups(Some("make all"))[0].names, ["one"]);
    assert_eq!(groups(Some("cd"))[0].names, ["one"]);
    assert!(groups(Some("git status")).is_empty() && groups(None).is_empty());
    let mut list = Vec::new();
    for _ in 0..=MAX_LOCAL_RESOURCE_GROUPS {
        push_resource_group(&mut list, "directory", &names);
    }
    assert_eq!(list.len(), MAX_LOCAL_RESOURCE_GROUPS);
    push_resource_group(&mut list, "directory", &Vec::new());
    assert_eq!(list.len(), MAX_LOCAL_RESOURCE_GROUPS);
}

#[test]
fn skeletons_lead_through_the_catalog() {
    let roots = catalog();
    let found = |skeleton: &str| {
        resolved_catalog_command(&roots, skeleton).map(|command| command.name.as_str())
    };
    assert_eq!(found(" npm \u{2003}install\tci "), Some("ci"));
    assert_eq!(found("npm"), Some("npm"));
    assert_eq!(found("npm ci"), None);
    assert_eq!(found("install"), None);
    assert_eq!(found("  "), None);

    let mut unknown = facts();
    unknown.skeleton = Some("npm publish".to_owned());
    let (workspace, _) =
        gather_broader_context(AiContextLevel::Workspace, false, &roots, unknown, None);
    let workspace = workspace.unwrap();
    assert!(workspace.allowlisted_command_help.is_empty());
    assert!(workspace.local_resources.is_empty());
}
