use std::sync::Arc;

use herdr::coven::{
    ExecutionAuthority, ExecutionScope, SourceCursor, SourceHealth, SourceIdentity,
    SourceLifecycle, SourceProjection, SourceReply, SourceResult, WriterState,
};
use herdr::runtime_provider::actor::{
    allocate_generation, CommandEnvelope, DispatchStep, ProviderRuntime, ProviderRuntimeHandle,
    WorkerSlots, MAX_PROVIDER_WORKERS,
};
use herdr::runtime_provider::{
    ContractLimits, OperationTicket, ProviderActivity, ProviderCommand, ProviderConfig,
    ProviderConnection, ProviderFailure, ProviderFailureKind, ProviderGenerationError,
    ProviderHealth, ProviderId, ProviderIdentity, ProviderLifecycle, ProviderOperationKind,
    ProviderOperationResult, ProviderSnapshot, ProviderStartError, ProviderUpdate, SubmitError,
    MAX_PROVIDER_QUEUE_CAPACITY,
};

const LIMITS: ContractLimits = ContractLimits {
    max_events: 256,
    max_chunks: 256,
};

fn config() -> ProviderConfig {
    let identity = ProviderIdentity::new(
        ProviderId::new("actor-fixture").unwrap(),
        "host".into(),
        ExecutionScope {
            project_id: "project".into(),
            profile_id: "profile".into(),
            policy_generation: 1,
        },
        ExecutionAuthority {
            id: "authority".into(),
            generation: 1,
        },
        true,
        true,
    )
    .unwrap();
    ProviderConfig::new(identity, b"/definitely/missing/coven-home".to_vec(), 2)
        .ok()
        .unwrap()
}

struct Process {
    slots: WorkerSlots,
    generations: u64,
}

impl Process {
    fn new() -> Self {
        Process {
            slots: WorkerSlots { active: 0 },
            generations: 1,
        }
    }

    fn start(&mut self) -> ProviderRuntimeHandle {
        ProviderRuntime::start(&config(), &mut self.slots, &mut self.generations, 64)
            .ok()
            .unwrap()
    }
}

fn observed_source() -> SourceReply {
    SourceReply {
        source: SourceIdentity {
            host_id: "host".into(),
            profile_id: "profile".into(),
            ledger_id: "ledger".into(),
            epoch: 1,
        },
        health: SourceHealth {
            daemon_live: true,
            writer_state: WriterState::Healthy,
            writer_queued_bytes: None,
            writer_dropped_output_bytes: None,
        },
        result: SourceResult::Snapshot {
            cursor: SourceCursor {
                ledger_id: "ledger".into(),
                epoch: 1,
                after_seq: 0,
                revision: 1,
            },
            projection: SourceProjection {
                lifecycle: SourceLifecycle::Running,
                exit_code: None,
                archived: false,
                dropped_output_bytes: None,
            },
        },
    }
}

fn observed_health(authority: Option<ExecutionAuthority>) -> ProviderHealth {
    ProviderHealth {
        ok: true,
        api_version: "coven.daemon.v1".to_owned(),
        coven_version: "fixture".to_owned(),
        sessions: true,
        events: true,
        event_cursor: None,
        structured_errors: true,
        execution_request_contracts: Vec::new(),
        execution_request_operations: Vec::new(),
        execution_source_contracts: Vec::new(),
        authority,
    }
}

fn submit(
    handle: &mut ProviderRuntimeHandle,
    command: ProviderCommand,
) -> Result<OperationTicket, SubmitError> {
    handle.submit(command, LIMITS, true)
}

fn recv_update(handle: &mut ProviderRuntimeHandle) -> ProviderUpdate {
    handle.try_drain_updates(1).pop().expect("update")
}

/// The worker has taken a command and is performing it.
fn entered(handle: &mut ProviderRuntimeHandle) -> CommandEnvelope {
    match handle.begin_dispatch() {
        DispatchStep::Run(envelope) => envelope,
        _ => panic!("command expected"),
    }
}

/// The worker comes back with a result, and then takes what else is queued. How many more
/// commands it performs is returned.
fn release(handle: &mut ProviderRuntimeHandle, envelope: CommandEnvelope) -> usize {
    let mut more = 0;
    handle.finish_dispatch(
        envelope,
        ProviderOperationResult::Source(Arc::new(observed_source())),
    );
    loop {
        match handle.begin_dispatch() {
            DispatchStep::Stop | DispatchStep::Idle => return more,
            DispatchStep::Stale => {}
            DispatchStep::Run(envelope) => {
                more += 1;
                handle.finish_dispatch(
                    envelope,
                    ProviderOperationResult::Source(Arc::new(observed_source())),
                );
            }
        }
    }
}

fn failure_kind(update: &ProviderUpdate) -> Option<ProviderFailureKind> {
    match &update.result {
        ProviderOperationResult::Failure(failure) => Some(failure.kind),
        _ => None,
    }
}

#[test]
fn stale_publication_preserves_current_snapshot_and_stamps_envelope_generation() {
    let mut process = Process::new();
    let mut handle = process.start();
    let envelope_generation = handle.runtime_generation();
    handle.bump_generation(&mut process.generations).unwrap();
    let before = handle.snapshot();
    handle.publish_stale(
        OperationTicket(7),
        None,
        envelope_generation,
        ProviderOperationKind::Health,
        ProviderFailure::new(ProviderFailureKind::IdentityMismatch, "stale result"),
    );
    let after = handle.snapshot();
    assert!(after.runtime_generation > envelope_generation);
    assert_eq!(after.connection, before.connection);
    assert_eq!(after.health, before.health);
    assert_eq!(after.source, before.source);
    assert_eq!(after.last_operation, before.last_operation);
    let updates = handle.try_drain_updates(1);
    assert_eq!(updates.len(), 1);
    assert_eq!(updates[0].kind, ProviderOperationKind::Health);
    assert_eq!(updates[0].runtime_generation, envelope_generation);
    assert_eq!(
        updates[0].snapshot.runtime_generation,
        after.runtime_generation
    );
    assert!(matches!(
        updates[0].result,
        ProviderOperationResult::Failure(ProviderFailure {
            kind: ProviderFailureKind::IdentityMismatch,
            ..
        })
    ));
    handle.shutdown();
}

#[test]
fn generation_bump_discards_observations_from_the_old_runtime() {
    let mut process = Process::new();
    let mut handle = process.start();
    let authority = handle.snapshot().identity.authority.clone();
    let mut snapshot: ProviderSnapshot = (*handle.snapshot()).clone();
    snapshot.lifecycle = ProviderLifecycle::Running;
    snapshot.health = Some(Arc::new(observed_health(Some(authority))));
    snapshot.source = Some(Arc::new(observed_source()));
    handle.snapshot = Arc::new(snapshot);
    let before = handle.snapshot();
    assert!(before.health.is_some());
    assert!(before.source.is_some());
    assert_eq!(before.lifecycle, ProviderLifecycle::Running);

    handle.bump_generation(&mut process.generations).unwrap();
    let after = handle.snapshot();
    assert_eq!(after.lifecycle, ProviderLifecycle::Unknown);
    assert!(after.health.is_none());
    assert!(after.source.is_none());
    handle.shutdown();
}

#[test]
fn generation_allocator_refuses_wraparound() {
    let mut counter = i64::MAX as u64;
    assert_eq!(allocate_generation(&mut counter).unwrap(), i64::MAX as u64);
    assert_eq!(
        allocate_generation(&mut counter),
        Err(ProviderGenerationError::Exhausted)
    );
    assert_eq!(counter, i64::MAX as u64 + 1);
}

#[test]
fn replacement_actor_rejects_the_previous_actor_binding() {
    let mut process = Process::new();
    let mut old = process.start();
    let binding = old.binding("session".into(), 1).unwrap();
    old.shutdown();
    let mut replacement = process.start();
    assert_ne!(old.runtime_generation(), replacement.runtime_generation());
    assert_eq!(
        submit(
            &mut replacement,
            ProviderCommand::ReadSource {
                binding,
                cursor: None,
                limit: 1
            }
        ),
        Err(SubmitError::IdentityMismatch)
    );
    replacement.shutdown();
}

#[test]
fn settled_tickets_survive_a_destructive_shared_update_drain() {
    let mut process = Process::new();
    let mut handle = process.start();
    let first = submit(&mut handle, ProviderCommand::Health).unwrap();
    let binding = handle.binding("session".into(), 1).unwrap();
    let second = submit(
        &mut handle,
        ProviderCommand::ReadSource {
            binding,
            cursor: None,
            limit: 1,
        },
    )
    .unwrap();
    let envelope = entered(&mut handle);
    handle.finish_dispatch(
        envelope,
        ProviderOperationResult::Health(Arc::new(observed_health(None))),
    );
    let envelope = entered(&mut handle);
    handle.finish_dispatch(
        envelope,
        ProviderOperationResult::Source(Arc::new(observed_source())),
    );
    while !handle.try_drain_updates(64).is_empty() {}
    let snapshot = handle.snapshot();
    let first_result = snapshot
        .operation_result(first)
        .expect("superseded ticket was dropped");
    assert!(matches!(
        first_result.result,
        ProviderOperationResult::Health(_)
    ));
    let second_result = snapshot
        .operation_result(second)
        .expect("latest ticket was dropped");
    assert!(matches!(
        second_result.result,
        ProviderOperationResult::Source(_)
    ));
    assert!(snapshot.retained_operations.len() >= 2);
    assert_eq!(snapshot.lifecycle, ProviderLifecycle::Running);
    assert_eq!(snapshot.activity, ProviderActivity::Working);
    handle.shutdown();
}

#[test]
fn generation_change_discards_a_result_from_the_actual_blocked_worker() {
    let mut process = Process::new();
    let mut handle = process.start();
    let generation = handle.runtime_generation();
    let ticket = submit(&mut handle, ProviderCommand::Health).unwrap();
    let envelope = entered(&mut handle);
    assert!(matches!(
        recv_update(&mut handle).result,
        ProviderOperationResult::Pending { .. }
    ));

    assert_eq!(handle.snapshot().runtime_generation, generation);
    assert!(handle.bump_generation(&mut process.generations).unwrap() > generation);
    let current = handle.snapshot();
    assert_eq!(release(&mut handle, envelope), 0);
    let update = recv_update(&mut handle);
    assert_eq!(update.ticket, Some(ticket));
    assert_eq!(update.runtime_generation, generation);
    assert_eq!(
        failure_kind(&update),
        Some(ProviderFailureKind::IdentityMismatch)
    );
    assert!(Arc::ptr_eq(&current, &handle.snapshot()));
    assert!(current.source.is_none());
    assert_eq!(current.lifecycle, ProviderLifecycle::Unknown);
    handle.shutdown();
}

#[test]
fn detach_discards_a_result_from_the_actual_blocked_worker() {
    let mut process = Process::new();
    let mut handle = process.start();
    let ticket = submit(&mut handle, ProviderCommand::Health).unwrap();
    let envelope = entered(&mut handle);
    let _pending = recv_update(&mut handle);
    let current = handle.detach();
    assert!(matches!(
        recv_update(&mut handle).result,
        ProviderOperationResult::Detached
    ));
    assert_eq!(
        submit(&mut handle, ProviderCommand::Health),
        Err(SubmitError::Disconnected)
    );
    assert_eq!(release(&mut handle, envelope), 0);
    let update = recv_update(&mut handle);
    assert_eq!(update.ticket, Some(ticket));
    assert_eq!(
        failure_kind(&update),
        Some(ProviderFailureKind::Disconnected)
    );
    assert!(Arc::ptr_eq(&current, &handle.snapshot()));
    assert_eq!(current.connection, ProviderConnection::Disconnected);
    assert!(current.last_operation.is_none());
    assert!(current.source.is_none());
    handle.shutdown();
}

#[test]
fn retiring_worker_holds_its_capacity_slot_until_thread_exit() {
    let mut process = Process {
        slots: WorkerSlots {
            active: MAX_PROVIDER_WORKERS - 1,
        },
        generations: 1,
    };
    let mut handle = process.start();
    submit(&mut handle, ProviderCommand::Health).unwrap();
    let envelope = entered(&mut handle);
    handle.shutdown();
    assert!(matches!(
        process.slots.acquire(),
        Err(ProviderStartError::WorkerLimitReached)
    ));
    assert_eq!(release(&mut handle, envelope), 0);
    process.slots.release();
    assert_eq!(process.slots.active, MAX_PROVIDER_WORKERS - 1);
    process.slots.acquire().unwrap();
    assert_eq!(process.slots.active, MAX_PROVIDER_WORKERS);
    process.slots.release();
    assert_eq!(process.slots.active, MAX_PROVIDER_WORKERS - 1);
}

#[test]
fn shutdown_of_blocked_worker_does_not_dispatch_queued_commands() {
    let mut process = Process::new();
    let mut handle = process.start();
    let first_ticket = submit(&mut handle, ProviderCommand::Health).unwrap();
    let envelope = entered(&mut handle);
    let _pending = recv_update(&mut handle);
    submit(&mut handle, ProviderCommand::Health).unwrap();
    let _pending = recv_update(&mut handle);
    submit(&mut handle, ProviderCommand::Health).unwrap();
    let _pending = recv_update(&mut handle);
    assert_eq!(
        submit(&mut handle, ProviderCommand::Health),
        Err(SubmitError::Busy)
    );
    let _ = handle.try_drain_updates(MAX_PROVIDER_QUEUE_CAPACITY);
    handle.shutdown();
    assert_eq!(
        submit(&mut handle, ProviderCommand::Health),
        Err(SubmitError::Disconnected)
    );
    assert!(matches!(
        recv_update(&mut handle).result,
        ProviderOperationResult::Shutdown
    ));
    let current = handle.snapshot();
    assert_eq!(release(&mut handle, envelope), 0);
    let update = recv_update(&mut handle);
    assert_eq!(update.ticket, Some(first_ticket));
    assert_eq!(
        failure_kind(&update),
        Some(ProviderFailureKind::Disconnected)
    );
    assert!(Arc::ptr_eq(&current, &handle.snapshot()));
    assert_eq!(current.connection, ProviderConnection::Disconnected);
    assert!(current.last_operation.is_none());
    assert!(current.source.is_none());
}

#[test]
fn generation_change_prevents_dispatch_of_queued_commands() {
    let mut process = Process::new();
    let mut handle = process.start();
    submit(&mut handle, ProviderCommand::Health).unwrap();
    let envelope = entered(&mut handle);
    let _pending = recv_update(&mut handle);
    submit(&mut handle, ProviderCommand::Health).unwrap();
    let _pending = recv_update(&mut handle);
    handle.bump_generation(&mut process.generations).unwrap();
    assert_eq!(release(&mut handle, envelope), 0);
}

#[test]
fn starting_says_why_it_is_refused() {
    let mut slots = WorkerSlots {
        active: MAX_PROVIDER_WORKERS,
    };
    let mut generations = 1;
    let error = ProviderRuntime::start(&config(), &mut slots, &mut generations, 4)
        .err()
        .unwrap();
    assert_eq!(error, ProviderStartError::WorkerLimitReached);
    assert_eq!(error.message(), "Coven provider worker limit reached");
    let mut slots = WorkerSlots { active: 0 };
    let mut generations = 0;
    let error = ProviderRuntime::start(&config(), &mut slots, &mut generations, 4)
        .err()
        .unwrap();
    assert_eq!(error, ProviderStartError::GenerationExhausted);
    assert_eq!(slots.active, 0);
}

#[test]
fn only_the_latest_results_are_retained() {
    let mut process = Process::new();
    let mut handle = ProviderRuntime::start(&config(), &mut process.slots, &mut process.generations, 2)
        .ok()
        .unwrap();
    let mut tickets = Vec::new();
    for _ in 0..3 {
        tickets.push(submit(&mut handle, ProviderCommand::Health).unwrap());
        let envelope = entered(&mut handle);
        release(&mut handle, envelope);
    }
    let snapshot = handle.snapshot();
    assert!(snapshot.operation_result(tickets[0]).is_none());
    assert!(snapshot.operation_result(tickets[1]).is_some());
    assert!(snapshot.operation_result(tickets[2]).is_some());
    assert_eq!(snapshot.retained_operations.len(), 2);
}

#[test]
fn updates_beyond_the_queue_are_counted() {
    let mut process = Process::new();
    let mut handle = process.start();
    for _ in 0..4 {
        handle.publish(
            None,
            None,
            ProviderOperationKind::Health,
            ProviderOperationResult::Detached,
        );
    }
    assert_eq!(handle.snapshot().dropped_updates, 2);
    assert_eq!(handle.try_drain_updates(9).len(), 2);
}
