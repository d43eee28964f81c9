use herdr::cli::runtime_provider::{parse, run, Invocation, Method};
use herdr::cli::worktree::{
    cleanup, poll_cleanup, run_worktree_command, worktree_create, worktree_list, worktree_open,
    worktree_remove, CleanupRequest, PollStep, Reading, Refusal, WorktreeCommand, CREATE_USAGE,
    LIST_USAGE, OPEN_USAGE, REMOVE_USAGE,
};

fn args(values: &[&str]) -> Vec<String> {
    values.iter().map(|s| (*s).to_owned()).collect()
}

/// What the third argument must be to be the id of an execution's session.
fn session_ok(args: &[String]) -> bool {
    args.get(2)
        .is_some_and(|session| !session.is_empty() && session.len() <= 512)
}

fn request(values: &[&str]) -> Option<Method> {
    let args = args(values);
    parse(&args, session_ok(&args))
}

fn paths(args: &[String]) -> Vec<Reading> {
    args.iter()
        .map(|arg| Reading {
            path: match arg.as_str() {
                "unresolvable" => None,
                other => Some(format!("/cwd/{other}")),
            },
            workspace_id: format!("ws-{arg}"),
        })
        .collect()
}

#[test]
fn accepts_full_opaque_execution_session_contract() {
    for session in ["s".repeat(512), "engine/%2F42".into()] {
        assert!(request(&["attach", "p", &session, "1"]).is_some());
    }
    assert!(request(&["attach", "p", &"s".repeat(513), "1"]).is_none());
    assert_eq!(run(&args(&["help"]), false), Invocation::Help);
}

#[test]
fn preserves_literal_labels_as_typed_data() {
    let method = request(&[
        "attach",
        "provider",
        "session",
        "3",
        "--label",
        "$(literal); `data`",
        "--focus",
    ])
    .unwrap();
    let Method::RuntimeProviderAttach(request) = method else {
        panic!("attach method expected")
    };
    assert_eq!(request.label.as_deref(), Some("$(literal); `data`"));
    assert_eq!(request.generation, 3);
    assert!(request.focus);
}

#[test]
fn invalid_or_ambiguous_arguments_never_form_a_request() {
    for input in [
        vec!["attach", "p", "s", "0"],
        vec!["attach", "p", "s", "1", "--workspace"],
        vec!["attach", "p", "s", "1", "--workspace", "--focus"],
        vec!["attach", "p", "s", "1", "--label", "--focus"],
        vec!["attach", "p", "s", "1", "--focus", "--focus"],
        vec!["detach", ""],
        vec!["list", "extra"],
    ] {
        assert!(request(&input).is_none(), "{input:?}");
    }
}

#[test]
fn read_and_detach_commands_select_only_provider_methods() {
    assert!(matches!(request(&["list"]), Some(Method::RuntimeProviderList)));
    assert!(matches!(
        request(&["get", "p"]),
        Some(Method::RuntimeProviderGet(_))
    ));
    assert!(matches!(
        request(&["attachment", "t"]),
        Some(Method::RuntimeProviderAttachmentGet(_))
    ));
    assert!(matches!(
        request(&["detach", "t"]),
        Some(Method::RuntimeProviderDetach(_))
    ));
    assert!(matches!(
        request(&["takeover", "t"]),
        Some(Method::RuntimeProviderTakeover(_))
    ));
}

#[test]
fn generations_are_numbers_that_fit() {
    for (text, expected) in [
        ("1", Some(1)),
        ("+7", Some(7)),
        ("007", Some(7)),
        ("9223372036854775807", Some(9_223_372_036_854_775_807)),
        ("9223372036854775808", None),
        ("99999999999999999999", None),
        ("-1", None),
        ("+", None),
        ("", None),
        ("1x", None),
    ] {
        let generation = match request(&["attach", "p", "s", text]) {
            Some(Method::RuntimeProviderAttach(request)) => Some(request.generation),
            _ => None,
        };
        assert_eq!(generation, expected, "{text}");
    }
}

#[test]
fn repeated_options_never_form_a_request() {
    let start = ["attach", "p", "s", "1"];
    for options in [
        vec!["--workspace", "a", "--workspace", "b"],
        vec!["--label", "a", "--focus", "--label", "b"],
        vec!["--other"],
    ] {
        let all: Vec<&str> = start.iter().copied().chain(options).collect();
        assert!(request(&all).is_none(), "{all:?}");
    }
    assert_eq!(run(&args(&["attach"]), false), Invocation::Usage);
    assert!(request(&["attach", "p", "s", "1", "--label", &"l".repeat(257)]).is_none());
    assert!(request(&["get", &"i".repeat(129)]).is_none());
    assert!(request(&["get", "a\u{7}b"]).is_none());
}

#[test]
fn worktree_commands_are_told_apart() {
    for (name, command) in [
        ("cleanup", WorktreeCommand::Cleanup),
        ("list", WorktreeCommand::List),
        ("create", WorktreeCommand::Create),
        ("open", WorktreeCommand::Open),
        ("remove", WorktreeCommand::Remove),
        ("--help", WorktreeCommand::Help),
        ("other", WorktreeCommand::Unknown),
    ] {
        assert_eq!(run_worktree_command(&args(&[name])), command);
    }
    assert_eq!(run_worktree_command(&Vec::new()), WorktreeCommand::Unknown);
}

#[test]
fn worktree_options_become_parameters() {
    let all = args(&[
        "--cwd", "here", "--branch", "topic", "--base", "main", "--path", "there", "--label", "L",
        "--focus", "--trust-repository", "--json",
    ]);
    let params = worktree_create(&all, &paths(&all)).unwrap();
    assert_eq!(params.workspace_id, None);
    assert_eq!(params.cwd.as_deref(), Some("/cwd/here"));
    assert_eq!(params.branch.as_deref(), Some("topic"));
    assert_eq!(params.base.as_deref(), Some("main"));
    assert_eq!(params.path.as_deref(), Some("/cwd/there"));
    assert_eq!(params.label.as_deref(), Some("L"));
    assert!(params.focus);
    assert!(params.trust_repository);

    let last = args(&["--focus", "--label", "a", "--no-focus", "--label", "b"]);
    let params = worktree_create(&last, &paths(&last)).unwrap();
    assert!(!params.focus);
    assert_eq!(params.label.as_deref(), Some("b"));

    let open = args(&["--workspace", "w", "--path", "there"]);
    let params = worktree_open(&open, &paths(&open)).unwrap();
    assert_eq!(params.workspace_id.as_deref(), Some("ws-w"));
    assert_eq!(params.path.as_deref(), Some("/cwd/there"));

    let list = args(&["--workspace", "w"]);
    assert_eq!(
        worktree_list(&list, &paths(&list)).unwrap().workspace_id.as_deref(),
        Some("ws-w")
    );
    let remove = args(&["--force", "--workspace", "w"]);
    let params = worktree_remove(&remove, &paths(&remove)).unwrap();
    assert!(params.force);
    assert_eq!(params.workspace_id, "ws-w");
}

#[test]
fn worktree_arguments_that_form_no_request_are_refused() {
    let both = args(&["--workspace", "w", "--cwd", "c"]);
    assert_eq!(
        worktree_list(&both, &paths(&both)),
        Err(Refusal::Usage(LIST_USAGE))
    );
    assert_eq!(
        worktree_create(&both, &paths(&both)),
        Err(Refusal::Usage(CREATE_USAGE))
    );
    let neither = args(&[]);
    assert_eq!(
        worktree_open(&neither, &paths(&neither)),
        Err(Refusal::Usage(OPEN_USAGE))
    );
    let twice = args(&["--path", "p", "--branch", "b"]);
    assert_eq!(
        worktree_open(&twice, &paths(&twice)),
        Err(Refusal::Usage(OPEN_USAGE))
    );
    assert_eq!(
        worktree_remove(&neither, &paths(&neither)),
        Err(Refusal::Usage(REMOVE_USAGE))
    );
    let missing = args(&["--json", "--cwd"]);
    let refusal = worktree_list(&missing, &paths(&missing)).unwrap_err();
    assert_eq!(refusal, Refusal::MissingValue("--cwd"));
    assert_eq!(refusal.message(), "missing value for --cwd");
    let unknown = args(&["--force"]);
    assert_eq!(
        worktree_list(&unknown, &paths(&unknown)).unwrap_err().message(),
        "unknown option: --force"
    );
    let path = args(&["--path", "unresolvable", "--other"]);
    assert_eq!(worktree_open(&path, &paths(&path)), Err(Refusal::Path(1)));
}

#[test]
fn cleanup_arguments_become_requests() {
    for (values, expected) in [
        (vec![], CleanupRequest::Inspect),
        (vec!["inspect"], CleanupRequest::Inspect),
        (vec!["inspect", "x"], CleanupRequest::Usage),
        (vec!["register", "x"], CleanupRequest::Register { repository: 1 }),
        (vec!["register"], CleanupRequest::Usage),
        (vec!["preview"], CleanupRequest::Preview { repository: None }),
        (vec!["preview", "x"], CleanupRequest::Preview { repository: Some(1) }),
        (vec!["run", "x"], CleanupRequest::Reconcile { repository: Some(1) }),
        (vec!["run", "x", "y"], CleanupRequest::Usage),
        (vec!["configure", "f"], CleanupRequest::Configure { file: 1, repository: None }),
        (vec!["configure", "f", "r"], CleanupRequest::Configure { file: 1, repository: Some(2) }),
        (vec!["configure"], CleanupRequest::Usage),
    ] {
        assert_eq!(cleanup(&args(&values)), expected, "{values:?}");
    }
}

#[test]
fn cleanup_is_polled_until_it_settles() {
    let status = |text: &str| -> serde_json::Value { serde_json::from_str(text).unwrap() };
    let running = status(
        r#"{"result":{"snapshot":{"boot_id":"b","operations":[{"id":3,"state":"completed"},{"id":4,"state":"running"}]}}}"#,
    );
    let boot = running.pointer("/result/snapshot/boot_id");
    assert_eq!(poll_cleanup(&running, 4, boot, false), PollStep::Wait);
    assert_eq!(poll_cleanup(&running, 4, boot, true), PollStep::Pending);
    assert_eq!(poll_cleanup(&running, 3, boot, true), PollStep::Answer);
    assert_eq!(poll_cleanup(&running, 9, boot, false), PollStep::Wait);
    let other = serde_json::Value::String("other".into());
    assert_eq!(poll_cleanup(&running, 3, Some(&other), false), PollStep::Restarted);
    assert_eq!(poll_cleanup(&running, 3, None, false), PollStep::Restarted);
    let failed = status(
        r#"{"result":{"snapshot":{"boot_id":"b","operations":[{"id":1},{"id":4,"state":"failed"}]}}}"#,
    );
    assert_eq!(poll_cleanup(&failed, 4, boot, false), PollStep::Failed(1));
    let error = status(r#"{"error":{"code":"x"}}"#);
    assert_eq!(poll_cleanup(&error, 4, boot, false), PollStep::Answer);
}
