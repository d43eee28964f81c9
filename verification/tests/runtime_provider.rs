use std::sync::Arc;

use herdr::coven::{
    ExecutionAuthority, ExecutionHarness, ExecutionIntent, ExecutionMode, ExecutionRequest,
    ExecutionScope, ExecutionTarget, Health, HealthCapabilities, SourceIdentity,
};
use herdr::runtime_provider::actor::{ProviderRuntime, ProviderRuntimeHandle, WorkerSlots};
use herdr::runtime_provider::{
    ContractLimits, ProviderBinding, ProviderCommand, ProviderConfig, ProviderConnection,
    ProviderFailure, ProviderFailureKind, ProviderHealth, ProviderId, ProviderIdentity,
    ProviderObservation, ProviderOperationResult, ProviderSnapshot, SubmitError,
    MAX_HEALTH_CAPABILITIES, MAX_HEALTH_LABEL_BYTES, MAX_PROVIDER_QUEUE_CAPACITY,
};

const MAX_PROMPT_BYTES: usize = 128 * 1024;

const LIMITS: ContractLimits = ContractLimits {
    max_events: 256,
    max_chunks: 256,
};

fn identity() -> ProviderIdentity {
    ProviderIdentity::new(
        ProviderId::new("fixture").unwrap(),
        "host".into(),
        ExecutionScope {
            project_id: "project".into(),
            profile_id: "profile".into(),
            policy_generation: 1,
        },
        ExecutionAuthority {
            id: "authority".into(),
            generation: 1,
        },
        true,
        true,
    )
    .unwrap()
}

fn config() -> ProviderConfig {
    ProviderConfig::new(identity(), b"/definitely/missing/coven-home".to_vec(), 2)
        .ok()
        .unwrap()
}

fn start() -> (ProviderRuntimeHandle, u64) {
    let mut slots = WorkerSlots { active: 0 };
    let mut generations: u64 = 1;
    let handle = ProviderRuntime::start(&config(), &mut slots, &mut generations, 64)
        .ok()
        .unwrap();
    assert_eq!(slots.active, 1);
    (handle, generations)
}

fn launch_request(identity: &ProviderIdentity) -> ExecutionRequest {
    ExecutionRequest {
        request_id: "request".into(),
        scope: identity.scope.clone(),
        authority: identity.authority.clone(),
        expires_at: 2_000_000_000,
        intent: ExecutionIntent::Launch {
            harness: ExecutionHarness::Codex,
            mode: ExecutionMode::Transcript,
            model: None,
            cwd: "/tmp".to_owned(),
            prompt: "secret prompt must never appear in command diagnostics".to_owned(),
        },
        target: ExecutionTarget::Launch,
    }
}

/// The verdict of the daemon's contract on a request: its prompt is bounded.
fn request_ok(request: &ExecutionRequest) -> bool {
    match &request.intent {
        ExecutionIntent::Launch { prompt, .. } => prompt.len() <= MAX_PROMPT_BYTES,
        _ => true,
    }
}

fn health() -> Health {
    Health {
        ok: true,
        api_version: "coven.daemon.v1".to_owned(),
        coven_version: "fixture".to_owned(),
        capabilities: HealthCapabilities {
            sessions: false,
            events: false,
            event_cursor: None,
            structured_errors: false,
            execution_request_contracts: Vec::new(),
            execution_request_operations: Vec::new(),
            execution_source_contracts: Vec::new(),
        },
        execution_authority: Some(identity().authority),
    }
}

#[test]
fn provider_ids_reject_route_like_values() {
    for value in ["", "a/b", "a b", "a\\b"] {
        assert!(ProviderId::new(value).is_err());
    }
    assert_eq!(
        ProviderId::new("local.coven").unwrap().as_str(),
        "local.coven"
    );
}

#[test]
fn binding_requires_nonzero_execution_and_runtime_generations() {
    let session = "session".to_owned();
    let identity = identity();
    assert!(ProviderBinding::from_identity(&identity, session.clone(), 0, 1).is_err());
    assert!(ProviderBinding::from_identity(&identity, session.clone(), 1, 0).is_err());
    let binding = ProviderBinding::from_identity(&identity, session, 1, 1).unwrap();
    assert!(binding.with_runtime_generation(2).is_ok());
}

#[test]
fn command_debug_redacts_prompt_bearing_execution_request() {
    let identity = identity();
    let command = ProviderCommand::Execution {
        binding: None,
        request: Arc::new(launch_request(&identity)),
    };
    let debug = command.describe();
    assert!(!debug.contains("secret prompt"));
    assert!(debug.contains("Execution"));
}

#[test]
fn provider_config_debug_redacts_owner_local_home() {
    let debug = config().describe();
    assert!(!debug.contains("definitely/missing"));
    assert!(debug.contains("owner-local"));
}

#[test]
fn detached_runtime_rejects_commands_without_remote_control() {
    let (mut handle, _) = start();
    let detached = handle.detach();
    assert_eq!(detached.connection, ProviderConnection::Disconnected);
    assert_eq!(
        handle.submit(ProviderCommand::Health, LIMITS, true),
        Err(SubmitError::Disconnected)
    );
    handle.shutdown();
}

#[test]
fn stale_binding_is_rejected_before_worker_submission() {
    let (mut handle, mut generations) = start();
    let binding = ProviderBinding::from_identity(
        &identity(),
        "session".into(),
        1,
        handle.runtime_generation(),
    )
    .unwrap();
    handle.bump_generation(&mut generations).unwrap();
    let result = handle.submit(
        ProviderCommand::ReadSource {
            binding,
            cursor: None,
            limit: 1,
        },
        LIMITS,
        true,
    );
    assert_eq!(result, Err(SubmitError::IdentityMismatch));
    handle.shutdown();
}

#[test]
fn snapshots_are_shared_immutable_values() {
    let (mut handle, _) = start();
    let first: Arc<ProviderSnapshot> = handle.snapshot();
    let second = handle.snapshot();
    assert_eq!(first.revision, second.revision);
    assert_eq!(first.identity, second.identity);
    handle.shutdown();
}

#[test]
fn invalid_commands_are_rejected_before_queue_admission() {
    let (mut handle, _) = start();
    let binding = ProviderBinding::from_identity(
        &identity(),
        "session".into(),
        1,
        handle.runtime_generation(),
    )
    .unwrap();
    let before = handle.snapshot();
    let expected_digest = "x".repeat(1024 * 1024);
    let digest_ok = expected_digest.len() == 64;
    let result = handle.submit(
        ProviderCommand::LookupExecution {
            binding: Some(binding),
            request_id: "request".into(),
            expected_digest,
            expected_target: ExecutionTarget::Existing {
                session_id: "session".into(),
                generation: 1,
            },
        },
        LIMITS,
        digest_ok,
    );
    assert_eq!(result, Err(SubmitError::Rejected));
    assert_eq!(handle.snapshot().revision, before.revision);
    assert!(handle.try_drain_updates(1).is_empty());
    handle.shutdown();
}

#[test]
fn oversized_execution_is_rejected_before_queue_admission() {
    let (mut handle, _) = start();
    let mut request = launch_request(&identity());
    if let ExecutionIntent::Launch { prompt, .. } = &mut request.intent {
        *prompt = "x".repeat(MAX_PROMPT_BYTES + 1);
    }
    let before = handle.snapshot();
    let verdict = request_ok(&request);
    assert_eq!(
        handle.submit(
            ProviderCommand::Execution {
                binding: None,
                request: Arc::new(request),
            },
            LIMITS,
            verdict
        ),
        Err(SubmitError::Rejected)
    );
    assert_eq!(handle.snapshot().revision, before.revision);
    assert!(handle.try_drain_updates(1).is_empty());
    handle.shutdown();
}

#[test]
fn oversized_health_projection_is_rejected_before_snapshot_retention() {
    assert!(ProviderHealth::try_from(health()).is_ok());
    let mut oversized = health();
    oversized.coven_version = "x".repeat(MAX_HEALTH_LABEL_BYTES + 1);
    assert!(ProviderHealth::try_from(oversized).is_err());

    let mut too_many = health();
    too_many.capabilities.execution_request_operations = (0..=MAX_HEALTH_CAPABILITIES)
        .map(|i| format!("op{i}"))
        .collect();
    assert!(ProviderHealth::try_from(too_many).is_err());
}

#[test]
fn configurations_name_the_field_they_refuse() {
    let refused = |home: &[u8], capacity: usize| {
        ProviderConfig::new(identity(), home.to_vec(), capacity)
            .err()
            .map(|error| error.message())
    };
    assert_eq!(
        refused(b"", 1).as_deref(),
        Some("invalid Coven provider field: coven_home")
    );
    assert_eq!(
        refused(b"/a\0b", 1).as_deref(),
        Some("invalid Coven provider field: coven_home")
    );
    assert_eq!(
        refused(b"/a", MAX_PROVIDER_QUEUE_CAPACITY + 1).as_deref(),
        Some("invalid Coven provider field: queue_capacity")
    );
    assert_eq!(refused(b"/a", MAX_PROVIDER_QUEUE_CAPACITY), None);
    assert_eq!(
        config()
            .with_project_root(b"relative".to_vec())
            .err()
            .unwrap()
            .message(),
        "invalid Coven provider field: project_root"
    );
    let rooted = config()
        .with_project_root(b"/root".to_vec())
        .ok()
        .unwrap()
        .with_actions_allowed(true);
    assert_eq!(rooted.project_root(), b"/root");
    assert_eq!(rooted.coven_home(), b"/definitely/missing/coven-home");
    assert!(rooted.actions_allowed());
    assert_eq!(rooted.queue_capacity(), 2);
    let scope = identity().scope;
    let authority = identity().authority;
    let id = || ProviderId::new("p").unwrap();
    assert_eq!(
        ProviderIdentity::new(id(), "h".into(), scope.clone(), authority.clone(), false, true)
            .unwrap_err()
            .message(),
        "invalid Coven provider field: scope"
    );
    assert_eq!(
        ProviderIdentity::new(id(), "h".into(), scope, authority, true, false)
            .unwrap_err()
            .message(),
        "invalid Coven provider field: authority"
    );
}

#[test]
fn bindings_pin_only_a_source_of_their_own() {
    let binding =
        ProviderBinding::from_identity(&identity(), "session".into(), 1, 1).unwrap();
    assert!(binding.matches_identity(&identity()));
    let source = SourceIdentity {
        host_id: "host".into(),
        profile_id: "profile".into(),
        ledger_id: "ledger".into(),
        epoch: 1,
    };
    let mut elsewhere = source.clone();
    elsewhere.host_id = "other".into();
    assert_eq!(
        binding
            .clone()
            .with_pinned_source(Some(elsewhere))
            .unwrap_err()
            .message(),
        "invalid Coven provider binding field: pinned_source"
    );
    let pinned = binding.with_pinned_source(Some(source.clone())).unwrap();
    let moved = pinned.with_runtime_generation(9).unwrap();
    assert_eq!(moved.pinned_source, Some(source));
    assert_eq!(moved.runtime_generation, 9);
    assert_eq!(
        moved.provider_identity(true, true).unwrap(),
        identity()
    );
    assert_eq!(
        moved
            .with_runtime_generation(u64::MAX)
            .unwrap_err()
            .message(),
        "invalid Coven provider binding field: runtime_generation"
    );
}

#[test]
fn failures_are_cut_at_a_character() {
    let long = "\u{e9}".repeat(300);
    let failure = ProviderFailure::new(ProviderFailureKind::Failed, &long);
    assert_eq!(failure.message.len(), 512);
    assert_eq!(failure.message, "\u{e9}".repeat(256));
    let short = ProviderFailure::new(ProviderFailureKind::Busy, "queue");
    assert_eq!(short.message, "queue");
}

#[test]
fn observations_start_unknown() {
    let observation = ProviderObservation::default();
    assert_eq!(observation.connection, ProviderConnection::Disconnected);
    assert!(observation.equals(&ProviderObservation::default()));
    let told = ProviderObservation {
        diagnostic: Some("d".into()),
        ..ProviderObservation::default()
    };
    assert!(!observation.equals(&told));
}

#[test]
fn full_queues_publish_a_failure() {
    let (mut handle, _) = start();
    let first = handle.submit(ProviderCommand::Health, LIMITS, true).unwrap();
    let second = handle.submit(ProviderCommand::Health, LIMITS, true).unwrap();
    assert_eq!((first.raw(), second.raw()), (1, 2));
    assert_eq!(
        handle.submit(ProviderCommand::Health, LIMITS, true),
        Err(SubmitError::Busy)
    );
    let snapshot = handle.snapshot();
    let last = snapshot.last_operation.as_ref().unwrap();
    assert!(matches!(&last.result, ProviderOperationResult::Failure(failure)
        if failure.kind == ProviderFailureKind::Busy
            && failure.message == "Coven provider command queue is full"));
    handle.worker_gone = true;
    assert_eq!(
        handle.submit(ProviderCommand::Health, LIMITS, true),
        Err(SubmitError::Disconnected)
    );
}

#[test]
fn resizes_are_sent_once_per_geometry() {
    let (mut handle, _) = start();
    let binding = handle.binding("session".into(), 1).unwrap();
    assert_eq!(
        handle.submit_external_resize(binding.clone(), 24, 80, 0, 0, LIMITS),
        Ok(true)
    );
    assert_eq!(
        handle.submit_external_resize(binding.clone(), 24, 80, 0, 0, LIMITS),
        Ok(false)
    );
    assert_eq!(
        handle.submit_external_resize(binding.clone(), 25, 80, 0, 0, LIMITS),
        Ok(true)
    );
    assert_eq!(
        handle.submit_external_resize(binding.clone(), 26, 80, 0, 0, LIMITS),
        Err(SubmitError::Busy)
    );
    assert_eq!(handle.last_external_resize, None);

    // What was queued before stays queued, and each resize carries its own geometry.
    let queued: Vec<(u16, u16)> = handle
        .commands
        .iter()
        .map(|envelope| match &envelope.command {
            ProviderCommand::TerminalResize { rows, cols, .. } => (*rows, *cols),
            _ => panic!("resize expected"),
        })
        .collect();
    assert_eq!(queued, vec![(24, 80), (25, 80)]);

    // The error of a worker that has gone is passed on, and the same geometry is sent again.
    handle.worker_gone = true;
    assert_eq!(
        handle.submit_external_resize(binding.clone(), 25, 80, 0, 0, LIMITS),
        Err(SubmitError::Disconnected)
    );
    assert_eq!(handle.last_external_resize, None);
}
