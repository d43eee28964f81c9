use std::sync::Arc;

use herdr::coven::{
    ClientError, DeliveryState, ExecutionAuthority, ExecutionOutcome, ExecutionScope, Health,
    HealthCapabilities, RequestState, SourceCursor, SourceHealth, SourceIdentity, SourceLifecycle,
    SourceProjection, SourceReply, SourceResult, TerminalControlAction,
    TerminalControlClientError, TerminalControlIdentity, TerminalControlOutcome,
    TerminalMutation, TerminalMutationStatus,
    TranscriptReply, TranscriptResult, WriterState,
};
use herdr::runtime_provider::client::{
    map_client_error, ControlLease, CovenProviderClient, MutationEvent, MutationPhase,
    MutationRun, MutationStep, CONTROL_LEASE_DURATION_MS, CONTROL_LEASE_RENEW_AFTER_MS,
    MUTATION_POLLS,
};
use herdr::runtime_provider::{
    ProviderBinding, ProviderFailureKind, ProviderId, ProviderIdentity,
};

fn provider() -> ProviderIdentity {
    ProviderIdentity::new(
        ProviderId::new("lease-fixture").unwrap(),
        "host".into(),
        ExecutionScope {
            project_id: "project".into(),
            profile_id: "profile".into(),
            policy_generation: 1,
        },
        ExecutionAuthority {
            id: "authority".into(),
            generation: 1,
        },
        true,
        true,
    )
    .unwrap()
}

fn binding() -> ProviderBinding {
    ProviderBinding::from_identity(&provider(), "session".into(), 1, 5).unwrap()
}

fn lease_identity() -> TerminalControlIdentity {
    TerminalControlIdentity {
        session_id: "session".to_owned(),
        stream_id: "stream".to_owned(),
        stream_generation: 1,
        execution_generation: 1,
        authority_epoch: 1,
        attachment_id: "attachment".to_owned(),
    }
}

fn input() -> TerminalMutation {
    TerminalMutation::Input {
        bytes: b"x".to_vec(),
    }
}

/// What the client sends until it has a lease to mutate under, or fails, with scripted answers.
fn ensure(
    client: &mut CovenProviderClient,
    now: u64,
    script: Vec<Result<TerminalControlOutcome, TerminalControlClientError>>,
) -> (
    Vec<TerminalControlAction>,
    Result<ControlLease, ProviderFailureKind>,
) {
    let mut actions = Vec::new();
    let mut script = script.into_iter();
    let mut step = client.ensure_control_lease(lease_identity(), input(), now);
    loop {
        match step {
            MutationStep::Send {
                run:
                    MutationRun {
                        phase: MutationPhase::Mutating { lease },
                        ..
                    },
                ..
            } => return (actions, Ok(lease)),
            MutationStep::Send { run, action } => {
                actions.push(action);
                let reply = script.next().expect("scripted answer");
                step = client.terminal_mutation(run, MutationEvent::Control(reply), now);
            }
            MutationStep::Done(Err(failure)) => return (actions, Err(failure.kind)),
            _ => panic!("lease expected"),
        }
    }
}

#[test]
fn expired_lease_is_reacquired_instead_of_dropping_the_mutation() {
    let mut client = CovenProviderClient::new(provider());
    client.control_identity = Some(lease_identity());
    client.control_lease = Some(ControlLease {
        generation: 7,
        next_mutation_seq: 4,
        last_renewed: 1_000,
    });
    let now = 1_000 + CONTROL_LEASE_RENEW_AFTER_MS + 20_000;
    let (actions, lease) = ensure(
        &mut client,
        now,
        vec![
            Err(TerminalControlClientError::InvalidRequest),
            Ok(TerminalControlOutcome::Acquired {
                lease_generation: 8,
                next_mutation_seq: 1,
            }),
        ],
    );
    let lease = lease.expect("lease reacquired after expiry");
    assert_eq!(lease.generation, 8);
    assert_eq!(lease.next_mutation_seq, 1);
    assert!(matches!(
        actions[0],
        TerminalControlAction::Renew {
            lease_generation: 7,
            ..
        }
    ));
    assert!(matches!(actions[1], TerminalControlAction::Acquire { .. }));
    assert_eq!(actions.len(), 2);
}

#[test]
fn disconnected_renewal_does_not_reacquire_without_an_identity() {
    let mut client = CovenProviderClient::new(provider());
    client.control_identity = None;
    client.control_lease = Some(ControlLease {
        generation: 7,
        next_mutation_seq: 4,
        last_renewed: 0,
    });
    let (actions, lease) = ensure(
        &mut client,
        CONTROL_LEASE_RENEW_AFTER_MS + 20_000,
        vec![Err(TerminalControlClientError::Transport(ClientError::Io))],
    );
    assert_eq!(lease, Err(ProviderFailureKind::Disconnected));
    assert_eq!(actions.len(), 1);
    assert!(matches!(actions[0], TerminalControlAction::Renew { .. }));
    assert!(client.control_lease.is_none());
}

#[test]
fn fresh_lease_is_used_without_a_renewal_round_trip() {
    let mut client = CovenProviderClient::new(provider());
    client.control_identity = Some(lease_identity());
    client.control_lease = Some(ControlLease {
        generation: 3,
        next_mutation_seq: 9,
        last_renewed: 50,
    });
    let (actions, lease) = ensure(&mut client, 50, Vec::new());
    let lease = lease.unwrap();
    assert_eq!(lease.generation, 3);
    assert_eq!(lease.next_mutation_seq, 9);
    assert!(actions.is_empty());
}

#[test]
fn provider_failures_do_not_forward_owner_local_error_text() {
    let discovery = map_client_error(ClientError::Discovery);
    assert_eq!(discovery.kind, ProviderFailureKind::Disconnected);
    assert!(!discovery.message.contains("/owner/private"));
    assert_eq!(discovery.message, "Coven daemon discovery failed");

    let transport = map_client_error(ClientError::Io);
    assert_eq!(transport.kind, ProviderFailureKind::Disconnected);
    assert!(!transport.message.contains("/owner/private"));
    assert_eq!(transport.message, "Coven daemon transport failed");
}

#[test]
fn mutations_are_sent_once_and_then_asked_after() {
    let mut client = CovenProviderClient::new(provider());
    client.control_identity = Some(lease_identity());
    let run = client.begin_mutation(&binding(), input(), 5).ok().unwrap();
    let step = client.terminal_mutation(run, MutationEvent::Health(Ok(())), 10);
    let MutationStep::Send { run, action } = step else {
        panic!("acquisition expected")
    };
    assert_eq!(
        action,
        TerminalControlAction::Acquire {
            duration_ms: CONTROL_LEASE_DURATION_MS
        }
    );
    let acquired = TerminalControlOutcome::Acquired {
        lease_generation: 2,
        next_mutation_seq: 6,
    };
    let step = client.terminal_mutation(run, MutationEvent::Control(Ok(acquired)), 10);
    let MutationStep::Send { run, action } = step else {
        panic!("mutation expected")
    };
    assert_eq!(
        action,
        TerminalControlAction::Input {
            lease_generation: 2,
            mutation_seq: 6,
            bytes: b"x".to_vec()
        }
    );
    let pending = TerminalControlOutcome::Mutation {
        mutation_seq: 6,
        status: TerminalMutationStatus::Pending,
    };
    let mut step = client.terminal_mutation(run, MutationEvent::Control(Ok(pending)), 10);
    assert_eq!(client.control_lease.unwrap().next_mutation_seq, 7);
    let mut polls = 0;
    let outcome = loop {
        match step {
            MutationStep::Poll { run, action } => {
                assert_eq!(action, TerminalControlAction::Poll { mutation_seq: 6 });
                polls += 1;
                let still = TerminalControlOutcome::Polled {
                    mutation_seq: 6,
                    status: TerminalMutationStatus::Pending,
                };
                step = client.terminal_mutation(run, MutationEvent::Control(Ok(still)), 10);
            }
            MutationStep::Done(outcome) => break outcome,
            MutationStep::Send { .. } => panic!("the mutation is not sent again"),
        }
    };
    assert_eq!(polls, MUTATION_POLLS);
    assert!(outcome.is_ok());
}

#[test]
fn bindings_of_another_generation_never_mutate() {
    let mut client = CovenProviderClient::new(provider());
    client.control_identity = Some(lease_identity());
    let failure = client.begin_mutation(&binding(), input(), 6).err().unwrap();
    assert_eq!(failure.kind, ProviderFailureKind::IdentityMismatch);
    client.control_identity = None;
    let failure = client.begin_mutation(&binding(), input(), 5).err().unwrap();
    assert_eq!(failure.kind, ProviderFailureKind::Unsupported);
    assert_eq!(
        failure.message,
        "terminal control was not negotiated for this attachment"
    );
}

#[test]
fn takeovers_replace_the_lease() {
    let mut client = CovenProviderClient::new(provider());
    client.control_identity = Some(lease_identity());
    let (identity, action) = client.begin_takeover(&binding(), 5).ok().unwrap();
    assert_eq!(identity, lease_identity());
    assert!(matches!(action, TerminalControlAction::Takeover { .. }));
    let taken = TerminalControlOutcome::TakenOver {
        lease_generation: 4,
        next_mutation_seq: 1,
    };
    assert!(client.terminal_takeover(Ok(taken), 70).is_ok());
    assert_eq!(
        client.control_lease,
        Some(ControlLease {
            generation: 4,
            next_mutation_seq: 1,
            last_renewed: 70
        })
    );
    let failure = client
        .terminal_takeover(Ok(TerminalControlOutcome::Other), 71)
        .unwrap_err();
    assert_eq!(
        failure.message,
        "Coven returned an unexpected terminal takeover response"
    );
}

#[test]
fn health_must_come_from_the_trusted_authority() {
    let health = |authority: Option<ExecutionAuthority>| Health {
        ok: true,
        api_version: "coven.daemon.v1".into(),
        coven_version: "fixture".into(),
        capabilities: HealthCapabilities {
            sessions: true,
            events: true,
            event_cursor: None,
            structured_errors: true,
            execution_request_contracts: Vec::new(),
            execution_request_operations: Vec::new(),
            execution_source_contracts: Vec::new(),
        },
        execution_authority: authority,
    };
    let mut client = CovenProviderClient::new(provider());
    assert!(client
        .accept_health(Ok(health(Some(provider().authority))))
        .is_ok());
    assert!(client.connected);
    let failure = client.accept_health(Ok(health(None))).unwrap_err();
    assert_eq!(failure.kind, ProviderFailureKind::IdentityMismatch);
    assert!(!client.connected);
}

#[test]
fn pinned_sources_do_not_change() {
    let source = SourceIdentity {
        host_id: "host".into(),
        profile_id: "profile".into(),
        ledger_id: "ledger".into(),
        epoch: 1,
    };
    let reply = |epoch: u64| SourceReply {
        source: SourceIdentity {
            epoch,
            ..source.clone()
        },
        health: SourceHealth {
            daemon_live: true,
            writer_state: WriterState::Healthy,
            writer_queued_bytes: None,
            writer_dropped_output_bytes: None,
        },
        result: SourceResult::Reset,
    };
    let pinned = binding().with_pinned_source(Some(source.clone())).unwrap();
    let mut client = CovenProviderClient::new(provider());
    client.connected = true;
    assert!(client.accept_source(&pinned, Ok(Arc::new(reply(1)))).is_ok());
    let failure = client.accept_source(&pinned, Ok(Arc::new(reply(2)))).unwrap_err();
    assert_eq!(failure.kind, ProviderFailureKind::IdentityMismatch);
    assert!(!client.connected);
}

#[test]
fn reads_ask_for_the_bound_execution() {
    let client = CovenProviderClient::new(provider());
    let cursor = SourceCursor {
        ledger_id: "ledger".into(),
        epoch: 3,
        after_seq: 41,
        revision: 2,
    };
    let request = client
        .read_source(&binding(), Some(cursor.clone()), 16, 64, 5)
        .unwrap();
    assert_eq!((request.host_id.as_str(), request.session_id.as_str()), ("host", "session"));
    assert_eq!(request.scope, provider().scope);
    assert_eq!((request.generation, request.limit), (1, 16));
    assert_eq!(request.cursor, Some(cursor));
    let request = client.read_transcript(&binding(), None, 64, 64, 5).unwrap();
    assert_eq!(request.authority, provider().authority);
    assert_eq!((request.cursor, request.limit), (None, 64));
    for limit in [0, 65] {
        let failure = client.read_source(&binding(), None, limit, 64, 5).unwrap_err();
        assert_eq!(failure.message, "source read limit is outside the Coven client bound");
        let failure = client
            .read_transcript(&binding(), None, limit, 64, 5)
            .unwrap_err();
        assert_eq!(
            failure.message,
            "transcript read limit is outside the Coven client bound"
        );
    }
    let failure = client.read_source(&binding(), None, 16, 64, 6).unwrap_err();
    assert_eq!(failure.kind, ProviderFailureKind::IdentityMismatch);
}

#[test]
fn transcripts_of_another_ledger_are_refused() {
    let source = |epoch: u64| SourceIdentity {
        host_id: "host".into(),
        profile_id: "profile".into(),
        ledger_id: "ledger".into(),
        epoch,
    };
    let reply = |epoch: u64| {
        Arc::new(TranscriptReply {
            source: source(epoch),
            health: SourceHealth {
                daemon_live: true,
                writer_state: WriterState::Healthy,
                writer_queued_bytes: None,
                writer_dropped_output_bytes: None,
            },
            projection: SourceProjection {
                lifecycle: SourceLifecycle::Running,
                exit_code: None,
                archived: false,
                dropped_output_bytes: None,
            },
            result: TranscriptResult::Reset,
        })
    };
    let pinned = binding().with_pinned_source(Some(source(1))).unwrap();
    let mut client = CovenProviderClient::new(provider());
    client.connected = true;
    assert_eq!(client.accept_transcript(&pinned, Ok(reply(1))).unwrap(), reply(1));
    assert!(client.connected);
    let failure = client.accept_transcript(&pinned, Ok(reply(2))).unwrap_err();
    assert_eq!(
        failure.message,
        "Coven source identity changed for the bound execution"
    );
    assert!(!client.connected);
}

#[test]
fn outcomes_pass_and_attachments_start_without_a_lease() {
    let outcome = ExecutionOutcome {
        state: RequestState::Running,
        delivery: DeliveryState::Dispatched,
        session_id: "session".into(),
        parent_session_id: None,
        generation: 1,
        session_status: None,
        exit_code: None,
    };
    let mut client = CovenProviderClient::new(provider());
    assert_eq!(client.accept_outcome(Ok(outcome.clone())).unwrap(), outcome);
    let failure = client.accept_outcome(Err(ClientError::HttpStatus)).unwrap_err();
    assert_eq!(failure, map_client_error(ClientError::HttpStatus));
    client.control_lease = Some(ControlLease {
        generation: 3,
        next_mutation_seq: 4,
        last_renewed: 0,
    });
    client.attach_checkpoint(lease_identity());
    assert!(client.checkpoint_attached);
    assert!(client.control_lease.is_none());
    assert_eq!(client.control_identity, Some(lease_identity()));
}
