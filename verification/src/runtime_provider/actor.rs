//! The provider actor: admission of commands, fencing of results, and the
//! publication of immutable snapshots.
//!
//! A handle holds the state that callers and the provider worker share. Whoever
//! runs the worker serializes its methods, takes the commands with
//! `begin_dispatch`, performs them, and hands each result to `finish_dispatch`.
use std::sync::Arc;
use vstd::prelude::*;

use super::{
    find_operation, ContractLimits, ManagedBinding, OperationTicket, ProviderActivity,
    ProviderBinding, ProviderBindingError, ProviderCommand, ProviderConfig, ProviderConnection,
    ProviderDurability, ProviderFailure, ProviderFailureKind, ProviderGenerationError,
    ProviderIdentity, ProviderLifecycle, ProviderOperation, ProviderOperationKind,
    ProviderOperationResult, ProviderSnapshot, ProviderStartError, ProviderUpdate, SubmitError,
    MAX_PROVIDER_QUEUE_CAPACITY,
};
use crate::coven::{SourceLifecycle, SourceResult, TranscriptResult};
use crate::text::same;

verus! {

/// Retiring workers count as well as attached workers: repeated detach and
/// reattach must not get past the process bound while old requests time out.
pub const MAX_PROVIDER_WORKERS: usize = 64;

/// The worker slots of a process.
pub struct WorkerSlots {
    pub active: usize,
}

impl WorkerSlots {
    pub open spec fn wf(self) -> bool {
        self.active <= MAX_PROVIDER_WORKERS
    }

    pub fn acquire(&mut self) -> (r: Result<(), ProviderStartError>)
        requires
            old(self).wf(),
        ensures
            final(self).wf(),
            r is Ok <==> old(self).active < MAX_PROVIDER_WORKERS,
            r is Ok ==> final(self).active == old(self).active + 1,
            r matches Err(error) ==> error == ProviderStartError::WorkerLimitReached
                && final(self).active == old(self).active,
    {
        if self.active < MAX_PROVIDER_WORKERS {
            self.active = self.active + 1;
            Ok(())
        } else {
            Err(ProviderStartError::WorkerLimitReached)
        }
    }

    /// Give back the slot of a worker that has exited.
    pub fn release(&mut self)
        requires
            old(self).wf(),
            old(self).active > 0,
        ensures
            final(self).wf(),
            final(self).active == old(self).active - 1,
    {
        self.active = self.active - 1;
    }
}

/// Take the next runtime generation. Generations are unique across replacement
/// actors of a process and never start over: an old binding cannot become valid
/// again after a reattach.
pub fn allocate_generation(counter: &mut u64) -> (r: Result<u64, ProviderGenerationError>)
    ensures
        r is Ok <==> 0 < *old(counter) <= i64::MAX,
        r matches Ok(generation) ==> generation == *old(counter) && *final(counter) == *old(counter)
            + 1,
        r matches Err(error) ==> error == ProviderGenerationError::Exhausted && *final(counter)
            == *old(counter),
{
    let next: u64 = *counter;
    if next > 0 && next <= 0x7fff_ffff_ffff_ffff {
        *counter = next + 1;
        Ok(next)
    } else {
        Err(ProviderGenerationError::Exhausted)
    }
}

pub open spec fn lifecycle_of(lifecycle: SourceLifecycle) -> ProviderLifecycle {
    match lifecycle {
        SourceLifecycle::Created => ProviderLifecycle::Created,
        SourceLifecycle::Starting => ProviderLifecycle::Starting,
        SourceLifecycle::Running => ProviderLifecycle::Running,
        SourceLifecycle::Idle => ProviderLifecycle::Idle,
        SourceLifecycle::Completed => ProviderLifecycle::Completed,
        SourceLifecycle::Failed => ProviderLifecycle::Failed,
        SourceLifecycle::Cancelled => ProviderLifecycle::Cancelled,
        SourceLifecycle::Killed => ProviderLifecycle::Killed,
        SourceLifecycle::Orphaned => ProviderLifecycle::Orphaned,
    }
}

fn map_lifecycle(lifecycle: SourceLifecycle) -> (r: ProviderLifecycle)
    ensures
        r == lifecycle_of(lifecycle),
{
    match lifecycle {
        SourceLifecycle::Created => ProviderLifecycle::Created,
        SourceLifecycle::Starting => ProviderLifecycle::Starting,
        SourceLifecycle::Running => ProviderLifecycle::Running,
        SourceLifecycle::Idle => ProviderLifecycle::Idle,
        SourceLifecycle::Completed => ProviderLifecycle::Completed,
        SourceLifecycle::Failed => ProviderLifecycle::Failed,
        SourceLifecycle::Cancelled => ProviderLifecycle::Cancelled,
        SourceLifecycle::Killed => ProviderLifecycle::Killed,
        SourceLifecycle::Orphaned => ProviderLifecycle::Orphaned,
    }
}

/// An execution works while it starts and runs; a lifecycle that is not known has
/// no known activity.
pub open spec fn activity_of(lifecycle: ProviderLifecycle) -> ProviderActivity {
    match lifecycle {
        ProviderLifecycle::Starting | ProviderLifecycle::Running => ProviderActivity::Working,
        ProviderLifecycle::Unknown => ProviderActivity::Unknown,
        _ => ProviderActivity::Quiet,
    }
}

fn map_activity(lifecycle: ProviderLifecycle) -> (r: ProviderActivity)
    ensures
        r == activity_of(lifecycle),
{
    match lifecycle {
        ProviderLifecycle::Starting | ProviderLifecycle::Running => ProviderActivity::Working,
        ProviderLifecycle::Unknown => ProviderActivity::Unknown,
        _ => ProviderActivity::Quiet,
    }
}

/// The lifecycle that an execution status names.
pub open spec fn lifecycle_named(name: Seq<char>) -> ProviderLifecycle {
    if name == "created"@ {
        ProviderLifecycle::Created
    } else if name == "starting"@ {
        ProviderLifecycle::Starting
    } else if name == "running"@ {
        ProviderLifecycle::Running
    } else if name == "idle"@ {
        ProviderLifecycle::Idle
    } else if name == "completed"@ {
        ProviderLifecycle::Completed
    } else if name == "failed"@ {
        ProviderLifecycle::Failed
    } else if name == "cancelled"@ {
        ProviderLifecycle::Cancelled
    } else if name == "killed"@ {
        ProviderLifecycle::Killed
    } else if name == "orphaned"@ {
        ProviderLifecycle::Orphaned
    } else {
        ProviderLifecycle::Unknown
    }
}

fn map_lifecycle_name(name: &str) -> (r: ProviderLifecycle)
    ensures
        r == lifecycle_named(name@),
{
    if same(name, "created") {
        ProviderLifecycle::Created
    } else if same(name, "starting") {
        ProviderLifecycle::Starting
    } else if same(name, "running") {
        ProviderLifecycle::Running
    } else if same(name, "idle") {
        ProviderLifecycle::Idle
    } else if same(name, "completed") {
        ProviderLifecycle::Completed
    } else if same(name, "failed") {
        ProviderLifecycle::Failed
    } else if same(name, "cancelled") {
        ProviderLifecycle::Cancelled
    } else if same(name, "killed") {
        ProviderLifecycle::Killed
    } else if same(name, "orphaned") {
        ProviderLifecycle::Orphaned
    } else {
        ProviderLifecycle::Unknown
    }
}

pub open spec fn next_count(n: u64) -> u64 {
    if n == u64::MAX {
        n
    } else {
        (n + 1) as u64
    }
}

impl ProviderSnapshot {
    /// This snapshot with the lifecycle given and the activity that goes with it.
    pub open spec fn living(self, lifecycle: ProviderLifecycle) -> Self {
        ProviderSnapshot { lifecycle, activity: activity_of(lifecycle), ..self }
    }

    /// What a result says of the provider.
    pub open spec fn observing(self, result: ProviderOperationResult) -> Self {
        match result {
            ProviderOperationResult::Pending { .. } => ProviderSnapshot {
                connection: if self.connection == ProviderConnection::Connected {
                    ProviderConnection::Connected
                } else {
                    ProviderConnection::Connecting
                },
                ..self
            },
            ProviderOperationResult::Health(health) => ProviderSnapshot {
                connection: ProviderConnection::Connected,
                health: Some(health),
                ..self
            },
            ProviderOperationResult::Source(reply) => {
                let seen = ProviderSnapshot {
                    connection: ProviderConnection::Connected,
                    durability: ProviderDurability::Durable,
                    source: Some(reply),
                    ..self
                };
                match reply.result {
                    SourceResult::Snapshot { projection, .. } => seen.living(
                        lifecycle_of(projection.lifecycle),
                    ),
                    SourceResult::Page { .. } => seen,
                    SourceResult::Reset => seen.living(ProviderLifecycle::Unknown),
                }
            },
            ProviderOperationResult::Transcript(reply) => {
                let seen = ProviderSnapshot {
                    connection: ProviderConnection::Connected,
                    durability: ProviderDurability::Durable,
                    ..self
                };
                if reply.result is Reset {
                    seen.living(ProviderLifecycle::Unknown)
                } else {
                    seen.living(lifecycle_of(reply.projection.lifecycle))
                }
            },
            ProviderOperationResult::CheckpointAttached(_) => ProviderSnapshot {
                connection: ProviderConnection::Connected,
                durability: ProviderDurability::Ephemeral,
                ..self
            },
            ProviderOperationResult::Checkpoint(update) => ProviderSnapshot {
                connection: ProviderConnection::Connected,
                durability: ProviderDurability::Ephemeral,
                revision: if self.revision < update.revision {
                    update.revision
                } else {
                    self.revision
                },
                ..self
            },
            ProviderOperationResult::Execution(outcome)
            | ProviderOperationResult::LookupExecution(outcome) => {
                let seen = ProviderSnapshot {
                    connection: ProviderConnection::Connected,
                    durability: ProviderDurability::Durable,
                    ..self
                };
                match outcome.session_status {
                    Some(status) => seen.living(lifecycle_named(status@)),
                    None => seen,
                }
            },
            ProviderOperationResult::TerminalControl(_) => ProviderSnapshot {
                connection: ProviderConnection::Connected,
                ..self
            },
            ProviderOperationResult::Failure(failure) => ProviderSnapshot {
                connection: match failure.kind {
                    ProviderFailureKind::Disconnected | ProviderFailureKind::IdentityMismatch =>
                        ProviderConnection::Disconnected,
                    ProviderFailureKind::Unsupported => ProviderConnection::Unknown,
                    _ => self.connection,
                },
                ..self
            },
            ProviderOperationResult::Detached | ProviderOperationResult::Shutdown => {
                ProviderSnapshot {
                    connection: ProviderConnection::Disconnected,
                    activity: ProviderActivity::Unknown,
                    ..self
                }
            },
        }
    }
}

/// The first operation, from `i` on, whose ticket is not before `ticket`.
pub open spec fn place_of(operations: Seq<ProviderOperation>, ticket: u64, i: nat) -> nat
    decreases operations.len() - i,
{
    if i < operations.len() && operations[i as int].ticket.0 < ticket {
        place_of(operations, ticket, i + 1)
    } else {
        i
    }
}

/// `operations` with `operation` in its place, instead of an older result of the
/// same ticket.
pub open spec fn placed(
    operations: Seq<ProviderOperation>,
    operation: ProviderOperation,
) -> Seq<ProviderOperation> {
    let at = place_of(operations, operation.ticket.0, 0) as int;
    let replaces = at < operations.len() && operations[at].ticket == operation.ticket;
    operations.take(at).push(operation) + operations.skip(if replaces { at + 1 } else { at })
}

/// The last `count` operations.
pub open spec fn latest(operations: Seq<ProviderOperation>, count: nat) -> Seq<ProviderOperation> {
    if operations.len() > count {
        operations.skip(operations.len() - count)
    } else {
        operations
    }
}

proof fn lemma_place_of(operations: Seq<ProviderOperation>, ticket: u64, i: nat)
    requires
        i <= operations.len(),
        forall|j: int| 0 <= j < i ==> (#[trigger] operations[j]).ticket.0 < ticket,
    ensures
        i <= place_of(operations, ticket, i) <= operations.len(),
        forall|j: int|
            0 <= j < place_of(operations, ticket, i) ==> (#[trigger] operations[j]).ticket.0
                < ticket,
        place_of(operations, ticket, i) < operations.len() ==> operations[place_of(
            operations,
            ticket,
            i,
        ) as int].ticket.0 >= ticket,
    decreases operations.len() - i,
{
    if i < operations.len() && operations[i as int].ticket.0 < ticket {
        lemma_place_of(operations, ticket, i + 1);
    }
}

/// Operations are kept by strictly ascending ticket.
pub open spec fn ascending(operations: Seq<ProviderOperation>) -> bool {
    forall|i: int, j: int|
        0 <= i < j < operations.len() ==> (#[trigger] operations[i]).ticket.0 < (
        #[trigger] operations[j]).ticket.0
}

/// A new result keeps the retained operations in order and within their number.
pub proof fn retention_stays_ordered(
    operations: Seq<ProviderOperation>,
    operation: ProviderOperation,
    count: nat,
)
    requires
        ascending(operations),
    ensures
        ascending(latest(placed(operations, operation), count)),
        latest(placed(operations, operation), count).len() <= count,
{
    let t = operation.ticket.0;
    lemma_place_of(operations, t, 0);
    let at = place_of(operations, t, 0) as int;
    let all = placed(operations, operation);
    let replaces = at < operations.len() && operations[at].ticket == operation.ticket;
    let from = if replaces { at + 1 } else { at };
    assert forall|i: int, j: int| 0 <= i < j < all.len() implies (#[trigger] all[i]).ticket.0 < (
    #[trigger] all[j]).ticket.0 by {
        if j > at {
            assert(all[j] == operations[from + (j - at - 1)]);
            if at < operations.len() {
                assert(operations[at].ticket.0 >= t);
            }
        }
        if i > at {
            assert(all[i] == operations[from + (i - at - 1)]);
        }
    }
}

proof fn lemma_find_from(
    operations: Seq<ProviderOperation>,
    ticket: OperationTicket,
    i: nat,
    at: int,
)
    requires
        i <= at < operations.len(),
        operations[at].ticket == ticket,
        forall|j: int| i <= j < at ==> (#[trigger] operations[j]).ticket != ticket,
    ensures
        find_operation(operations, ticket, i) == Some(operations[at]),
    decreases at - i,
{
    if i < at {
        lemma_find_from(operations, ticket, i + 1, at);
    }
}

/// The result of the newest ticket can always be read back from what is retained,
/// and the results of the tickets retained before it stay readable unless they are
/// the ones that no longer fit.
pub proof fn newest_result_is_retained(
    operations: Seq<ProviderOperation>,
    operation: ProviderOperation,
    count: nat,
)
    requires
        ascending(operations),
        count > 0,
        forall|i: int|
            0 <= i < operations.len() ==> (#[trigger] operations[i]).ticket.0 < operation.ticket.0,
    ensures
        find_operation(latest(placed(operations, operation), count), operation.ticket, 0) == Some(
            operation,
        ),
        forall|i: int|
            0 <= i < operations.len() && operations.len() + 1 - count <= i
                ==> find_operation(
                latest(placed(operations, operation), count),
                (#[trigger] operations[i]).ticket,
                0,
            ) == Some(operations[i]),
{
    lemma_place_of(operations, operation.ticket.0, 0);
    let all = placed(operations, operation);
    assert(all =~= operations.push(operation));
    let kept = latest(all, count);
    retention_stays_ordered(operations, operation, count);
    lemma_find_from(kept, operation.ticket, 0, kept.len() - 1);
    assert forall|i: int|
        0 <= i < operations.len() && operations.len() + 1 - count <= i implies find_operation(
        kept,
        (#[trigger] operations[i]).ticket,
        0,
    ) == Some(operations[i]) by {
        let at = i - (all.len() - kept.len());
        assert(kept[at] == operations[i]);
        lemma_find_from(kept, operations[i].ticket, 0, at);
    }
}

/// `operations` with `operation` in its place, and only the last `count` of them.
fn retain(operations: &Vec<ProviderOperation>, operation: ProviderOperation, count: usize) -> (r:
    Vec<ProviderOperation>)
    ensures
        r@ == latest(placed(operations@, operation), count as nat),
{
    let mut kept: Vec<ProviderOperation> = Vec::new();
    let mut i: usize = 0;
    while i < operations.len() && operations[i].ticket.0 < operation.ticket.0
        invariant
            i <= operations@.len(),
            kept@ == operations@.take(i as int),
            place_of(operations@, operation.ticket.0, 0) == place_of(
                operations@,
                operation.ticket.0,
                i as nat,
            ),
        decreases operations@.len() - i,
    {
        kept.push(operations[i].clone());
        i = i + 1;
        assert(kept@ =~= operations@.take(i as int));
    }
    let ghost at = i as int;
    let ghost ticket = operation.ticket;
    let ghost added = operation;
    assert(place_of(operations@, ticket.0, 0) == at);
    if i < operations.len() && operations[i].ticket == operation.ticket {
        i = i + 1;
    }
    let ghost from = i as int;
    kept.push(operation);
    while i < operations.len()
        invariant
            0 <= at <= from <= i <= operations@.len(),
            kept@ == operations@.take(at).push(added) + operations@.subrange(from, i as int),
        decreases operations@.len() - i,
    {
        kept.push(operations[i].clone());
        i = i + 1;
        assert(kept@ =~= operations@.take(at).push(added) + operations@.subrange(from, i as int));
    }
    assert(operations@.subrange(from, operations@.len() as int) =~= operations@.skip(from));
    assert(kept@ =~= placed(operations@, added));
    if kept.len() > count {
        let dropped: usize = kept.len() - count;
        let rest = kept.split_off(dropped);
        assert(rest@ =~= latest(placed(operations@, added), count as nat));
        rest
    } else {
        kept
    }
}

/// A command that was admitted and not yet taken by the worker.
pub struct CommandEnvelope {
    pub ticket: OperationTicket,
    pub runtime_generation: u64,
    pub command: ProviderCommand,
}

/// The state that callers and the worker of one provider share.
pub struct ProviderRuntimeHandle {
    pub snapshot: Arc<ProviderSnapshot>,
    pub commands: Vec<CommandEnvelope>,
    pub updates: Vec<ProviderUpdate>,
    pub capacity: usize,
    pub retention: usize,
    pub next_ticket: u64,
    pub runtime_generation: u64,
    pub detached: bool,
    pub stopped: bool,
    pub worker_gone: bool,
    pub last_external_resize: Option<(u16, u16, u16, u16)>,
}

/// Factory for the provider actor.
pub struct ProviderRuntime;

impl ProviderRuntime {
    /// Reserve a worker slot and a runtime generation, and set up the state that a
    /// new worker shares with its callers. `retention` is how many operation
    /// results a snapshot keeps.
    pub fn start(
        config: &ProviderConfig,
        slots: &mut WorkerSlots,
        generations: &mut u64,
        retention: usize,
    ) -> (r: Result<ProviderRuntimeHandle, ProviderStartError>)
        requires
            config.wf(),
            old(slots).wf(),
        ensures
            final(slots).wf(),
            r is Ok <==> old(slots).active < MAX_PROVIDER_WORKERS && 0 < *old(generations)
                <= i64::MAX,
            r matches Ok(handle) ==> handle.started(
                config.identity,
                config.queue_capacity,
                *old(generations),
                retention,
            ) && handle.wf() && final(slots).active == old(slots).active + 1 && *final(generations)
                == *old(generations) + 1,
            r matches Err(error) ==> final(slots).active == old(slots).active && *final(generations) == *old(generations) && error == (if old(slots).active < MAX_PROVIDER_WORKERS {
                ProviderStartError::GenerationExhausted
            } else {
                ProviderStartError::WorkerLimitReached
            }),
    {
        if let Err(error) = slots.acquire() {
            return Err(error);
        }
        let runtime_generation: u64 = match allocate_generation(generations) {
            Ok(generation) => generation,
            Err(_) => {
                slots.release();
                return Err(ProviderStartError::GenerationExhausted);
            },
        };
        let snapshot = ProviderSnapshot {
            identity: config.identity.clone(),
            runtime_generation,
            lifecycle: ProviderLifecycle::Unknown,
            activity: ProviderActivity::Unknown,
            connection: ProviderConnection::Disconnected,
            durability: ProviderDurability::Unknown,
            health: None,
            source: None,
            last_operation: None,
            retained_operations: Arc::new(Vec::new()),
            revision: 1,
            dropped_updates: 0,
        };
        Ok(
            ProviderRuntimeHandle {
                snapshot: Arc::new(snapshot),
                commands: Vec::new(),
                updates: Vec::new(),
                capacity: config.queue_capacity,
                retention,
                next_ticket: 1,
                runtime_generation,
                detached: false,
                stopped: false,
                worker_gone: false,
                last_external_resize: None,
            },
        )
    }
}

/// What the worker does next.
pub enum DispatchStep {
    /// The actor was shut down: the worker ends, and queued commands stay unsent.
    Stop,
    /// No command is waiting.
    Idle,
    /// A command was taken and completed without being sent.
    Stale,
    /// A command crossed the dispatch fence and is performed under its generation.
    Run(CommandEnvelope),
}

impl ProviderRuntimeHandle {
    pub open spec fn started(
        self,
        identity: ProviderIdentity,
        capacity: usize,
        generation: u64,
        retention: usize,
    ) -> bool {
        let snapshot = *self.snapshot;
        &&& snapshot.identity == identity
        &&& snapshot.runtime_generation == generation
        &&& snapshot.lifecycle == ProviderLifecycle::Unknown
        &&& snapshot.activity == ProviderActivity::Unknown
        &&& snapshot.connection == ProviderConnection::Disconnected
        &&& snapshot.durability == ProviderDurability::Unknown
        &&& snapshot.health is None
        &&& snapshot.source is None
        &&& snapshot.last_operation is None
        &&& snapshot.retained_operations@.len() == 0
        &&& snapshot.revision == 1
        &&& snapshot.dropped_updates == 0
        &&& self.commands@.len() == 0
        &&& self.updates@.len() == 0
        &&& self.capacity == capacity
        &&& self.retention == retention
        &&& self.next_ticket == 1
        &&& self.runtime_generation == generation
        &&& !self.detached
        &&& !self.stopped
        &&& !self.worker_gone
        &&& self.last_external_resize is None
    }

    /// Both queues are bounded, retained results are in order and within their
    /// number, and the snapshot shows the current generation.
    pub open spec fn wf(self) -> bool {
        &&& 0 < self.capacity <= MAX_PROVIDER_QUEUE_CAPACITY
        &&& self.commands@.len() <= self.capacity
        &&& self.updates@.len() <= self.capacity
        &&& ascending(self.snapshot.retained_operations@)
        &&& self.snapshot.retained_operations@.len() <= self.retention
        &&& self.snapshot.runtime_generation == self.runtime_generation
        &&& self.stopped ==> self.detached
    }

    /// The snapshot that shows a result, apart from the operations it retains.
    pub open spec fn shown(
        self,
        ticket: Option<OperationTicket>,
        kind: ProviderOperationKind,
        result: ProviderOperationResult,
    ) -> ProviderSnapshot {
        let current = *self.snapshot;
        let seen = ProviderSnapshot {
            revision: next_count(current.revision),
            runtime_generation: self.runtime_generation,
            ..current
        }.observing(result);
        ProviderSnapshot {
            last_operation: match ticket {
                Some(ticket) => Some(ProviderOperation { ticket, kind, result }),
                None => if result is Pending {
                    current.last_operation
                } else {
                    None
                },
            },
            ..seen
        }
    }

    /// The operations retained once a result is known.
    pub open spec fn retained_with(
        self,
        ticket: Option<OperationTicket>,
        kind: ProviderOperationKind,
        result: ProviderOperationResult,
    ) -> Seq<ProviderOperation> {
        match ticket {
            Some(ticket) => latest(
                placed(
                    self.snapshot.retained_operations@,
                    ProviderOperation { ticket, kind, result },
                ),
                self.retention as nat,
            ),
            None => self.snapshot.retained_operations@,
        }
    }

    /// `after` is this state with one more notification: queued where the update
    /// queue has room, else counted as dropped.
    pub open spec fn notifies(
        self,
        ticket: Option<OperationTicket>,
        binding: Option<ProviderBinding>,
        kind: ProviderOperationKind,
        runtime_generation: u64,
        result: ProviderOperationResult,
        snapshot: ProviderSnapshot,
        after: Self,
    ) -> bool {
        &&& after == (ProviderRuntimeHandle {
            snapshot: after.snapshot,
            updates: after.updates,
            ..self
        })
        &&& if self.updates@.len() < self.capacity {
            &&& *after.snapshot == snapshot
            &&& after.updates@.len() == self.updates@.len() + 1
            &&& after.updates@.drop_last() == self.updates@
            &&& after.updates@.last() == (ProviderUpdate {
                ticket,
                binding,
                kind,
                runtime_generation,
                result,
                snapshot: after.snapshot,
            })
        } else {
            &&& *after.snapshot == (ProviderSnapshot {
                dropped_updates: next_count(snapshot.dropped_updates),
                revision: next_count(snapshot.revision),
                ..snapshot
            })
            &&& after.updates@ == self.updates@
        }
    }

    /// `after` is this state once a result was published: the snapshot shows it, a
    /// failed terminal control forgets the last geometry, and callers are notified.
    pub open spec fn publishes(
        self,
        ticket: Option<OperationTicket>,
        binding: Option<ProviderBinding>,
        kind: ProviderOperationKind,
        result: ProviderOperationResult,
        after: Self,
    ) -> bool {
        let shown = ProviderSnapshot {
            retained_operations: after.snapshot.retained_operations,
            ..self.shown(ticket, kind, result)
        };
        let forgotten = ProviderRuntimeHandle {
            last_external_resize: if kind == ProviderOperationKind::TerminalControl
                && result is Failure {
                None
            } else {
                self.last_external_resize
            },
            ..self
        };
        &&& after.snapshot.retained_operations@ == self.retained_with(ticket, kind, result)
        &&& forgotten.notifies(
            ticket,
            binding,
            kind,
            self.runtime_generation,
            result,
            shown,
            after,
        )
    }

    fn observe(
        current: &mut ProviderSnapshot,
        result: &ProviderOperationResult,
    )
        ensures
            *final(current) == old(current).observing(*result),
    {
        match result {
            ProviderOperationResult::Pending { .. } => {
                if current.connection != ProviderConnection::Connected {
                    current.connection = ProviderConnection::Connecting;
                }
            },
            ProviderOperationResult::Health(health) => {
                current.connection = ProviderConnection::Connected;
                current.health = Some(health.clone());
            },
            ProviderOperationResult::Source(reply) => {
                current.connection = ProviderConnection::Connected;
                current.durability = ProviderDurability::Durable;
                current.source = Some(reply.clone());
                match &reply.result {
                    SourceResult::Snapshot { projection, .. } => {
                        current.lifecycle = map_lifecycle(projection.lifecycle);
                        current.activity = map_activity(current.lifecycle);
                    },
                    SourceResult::Page { .. } => {},
                    SourceResult::Reset => {
                        current.lifecycle = ProviderLifecycle::Unknown;
                        current.activity = ProviderActivity::Unknown;
                    },
                }
            },
            ProviderOperationResult::Transcript(reply) => {
                current.connection = ProviderConnection::Connected;
                current.durability = ProviderDurability::Durable;
                current.lifecycle = match &reply.result {
                    TranscriptResult::Reset => ProviderLifecycle::Unknown,
                    _ => map_lifecycle(reply.projection.lifecycle),
                };
                current.activity = map_activity(current.lifecycle);
            },
            ProviderOperationResult::CheckpointAttached(_) => {
                current.connection = ProviderConnection::Connected;
                current.durability = ProviderDurability::Ephemeral;
            },
            ProviderOperationResult::Checkpoint(update) => {
                // A close ends observation, not the execution: its lifecycle is
                // read separately.
                current.connection = ProviderConnection::Connected;
                current.durability = ProviderDurability::Ephemeral;
                if current.revision < update.revision {
                    current.revision = update.revision;
                }
            },
            ProviderOperationResult::Execution(outcome)
            | ProviderOperationResult::LookupExecution(outcome) => {
                current.connection = ProviderConnection::Connected;
                current.durability = ProviderDurability::Durable;
                if let Some(status) = &outcome.session_status {
                    current.lifecycle = map_lifecycle_name(status.as_str());
                    current.activity = map_activity(current.lifecycle);
                }
            },
            ProviderOperationResult::TerminalControl(_) => {
                current.connection = ProviderConnection::Connected;
            },
            ProviderOperationResult::Failure(failure) => {
                match failure.kind {
                    ProviderFailureKind::Disconnected | ProviderFailureKind::IdentityMismatch => {
                        current.connection = ProviderConnection::Disconnected;
                    },
                    ProviderFailureKind::Unsupported => {
                        current.connection = ProviderConnection::Unknown;
                    },
                    _ => {},
                }
            },
            ProviderOperationResult::Detached | ProviderOperationResult::Shutdown => {
                current.connection = ProviderConnection::Disconnected;
                current.activity = ProviderActivity::Unknown;
            },
        }
    }

    /// The snapshot that shows a result.
    fn update_snapshot(
        &mut self,
        ticket: Option<OperationTicket>,
        kind: ProviderOperationKind,
        result: &ProviderOperationResult,
    )
        ensures
            *final(self).snapshot == (ProviderSnapshot {
                retained_operations: final(self).snapshot.retained_operations,
                ..old(self).shown(ticket, kind, *result)
            }),
            final(self).snapshot.retained_operations@ == old(self).retained_with(
                ticket,
                kind,
                *result,
            ),
            *final(self) == (ProviderRuntimeHandle {
                snapshot: final(self).snapshot,
                last_external_resize: if kind == ProviderOperationKind::TerminalControl
                    && *result is Failure {
                    None
                } else {
                    old(self).last_external_resize
                },
                ..*old(self)
            }),
    {
        let mut current: ProviderSnapshot = (*self.snapshot).clone();
        if current.revision < u64::MAX {
            current.revision = current.revision + 1;
        }
        current.runtime_generation = self.runtime_generation;
        ProviderRuntimeHandle::observe(&mut current, result);
        if kind == ProviderOperationKind::TerminalControl {
            // A rejected or failed resize must not poison the geometry cache: the
            // next render may need to retry after a transition.
            if let ProviderOperationResult::Failure(_) = result {
                self.last_external_resize = None;
            }
        }
        match ticket {
            Some(ticket) => {
                let operation = ProviderOperation { ticket, kind, result: result.clone() };
                current.last_operation = Some(operation.clone());
                // Results are retained by ticket, so that a consumer whose ticket
                // is no longer the latest can still reconcile it.
                let kept = retain(&current.retained_operations, operation, self.retention);
                current.retained_operations = Arc::new(kept);
            },
            None => {
                match result {
                    ProviderOperationResult::Pending { .. } => {},
                    _ => {
                        current.last_operation = None;
                    },
                }
            },
        }
        self.snapshot = Arc::new(current);
    }

    fn send_update(
        &mut self,
        ticket: Option<OperationTicket>,
        binding: Option<ProviderBinding>,
        kind: ProviderOperationKind,
        runtime_generation: u64,
        result: ProviderOperationResult,
    )
        requires
            old(self).updates@.len() <= old(self).capacity <= MAX_PROVIDER_QUEUE_CAPACITY,
        ensures
            old(self).notifies(
                ticket,
                binding,
                kind,
                runtime_generation,
                result,
                *old(self).snapshot,
                *final(self),
            ),
            final(self).updates@.len() <= final(self).capacity,
    {
        if self.updates.len() < self.capacity {
            let snapshot = self.snapshot.clone();
            self.updates.push(
                ProviderUpdate { ticket, binding, kind, runtime_generation, result, snapshot },
            );
            assert(self.updates@.drop_last() =~= old(self).updates@);
        } else {
            let mut current: ProviderSnapshot = (*self.snapshot).clone();
            if current.dropped_updates < u64::MAX {
                current.dropped_updates = current.dropped_updates + 1;
            }
            if current.revision < u64::MAX {
                current.revision = current.revision + 1;
            }
            self.snapshot = Arc::new(current);
        }
    }

    /// Publish a result: show it in the snapshot and notify callers of it.
    pub fn publish(
        &mut self,
        ticket: Option<OperationTicket>,
        binding: Option<ProviderBinding>,
        kind: ProviderOperationKind,
        result: ProviderOperationResult,
    )
        requires
            old(self).wf(),
        ensures
            final(self).wf(),
            old(self).publishes(ticket, binding, kind, result, *final(self)),
    {
        self.update_snapshot(ticket, kind, &result);
        proof {
            match ticket {
                Some(t) => {
                    retention_stays_ordered(
                        old(self).snapshot.retained_operations@,
                        ProviderOperation { ticket: t, kind, result },
                        old(self).retention as nat,
                    );
                },
                None => {},
            }
        }
        let runtime_generation: u64 = self.runtime_generation;
        self.send_update(ticket, binding, kind, runtime_generation, result);
    }

    /// Complete an operation that was admitted under an older fence. The update is
    /// stamped with the generation of its envelope and carries the current
    /// snapshot; the old result never reaches the current state.
    pub fn publish_stale(
        &mut self,
        ticket: OperationTicket,
        binding: Option<ProviderBinding>,
        envelope_generation: u64,
        kind: ProviderOperationKind,
        failure: ProviderFailure,
    )
        requires
            old(self).wf(),
        ensures
            final(self).wf(),
            old(self).notifies(
                Some(ticket),
                binding,
                kind,
                envelope_generation,
                ProviderOperationResult::Failure(failure),
                *old(self).snapshot,
                *final(self),
            ),
    {
        self.send_update(
            Some(ticket),
            binding,
            kind,
            envelope_generation,
            ProviderOperationResult::Failure(failure),
        );
    }
}

pub open spec fn queue_full(failure: ProviderFailure) -> bool {
    failure.says(ProviderFailureKind::Busy, "Coven provider command queue is full"@)
}

pub open spec fn worker_unavailable(failure: ProviderFailure) -> bool {
    failure.says(ProviderFailureKind::Disconnected, "Coven provider worker is unavailable"@)
}

impl ProviderRuntimeHandle {
    /// Why a command is refused before anything is published, if it is.
    pub open spec fn refusal(
        self,
        command: ProviderCommand,
        limits: ContractLimits,
        contract_ok: bool,
    ) -> Option<SubmitError> {
        if !command.admissible(limits, contract_ok) {
            Some(SubmitError::Rejected)
        } else if self.stopped || self.detached {
            Some(SubmitError::Disconnected)
        } else if !self.current(command) {
            Some(SubmitError::IdentityMismatch)
        } else if self.next_ticket == 0 || self.next_ticket == u64::MAX {
            Some(SubmitError::Busy)
        } else {
            None
        }
    }

    /// A command without a binding, or with one of this provider and generation.
    pub open spec fn current(self, command: ProviderCommand) -> bool {
        command.fence() matches Some(binding) ==> binding.runtime_generation
            == self.runtime_generation && binding.names(self.snapshot.identity)
    }

    /// `after` is this state with its next ticket given away and the pending
    /// operation published.
    pub open spec fn announces(self, command: ProviderCommand, after: Self) -> bool {
        let kind = command.operation_kind();
        ProviderRuntimeHandle { next_ticket: (self.next_ticket + 1) as u64, ..self }.publishes(
            Some(OperationTicket(self.next_ticket)),
            command.fence(),
            kind,
            ProviderOperationResult::Pending { kind },
            after,
        )
    }

    /// `r` answers the submission of a command, and `after` is this state once it was
    /// answered. A command that is refused outright changes nothing.
    pub open spec fn answers(
        self,
        command: ProviderCommand,
        limits: ContractLimits,
        contract_ok: bool,
        r: Result<OperationTicket, SubmitError>,
        after: Self,
    ) -> bool {
        &&& self.refusal(command, limits, contract_ok) matches Some(error) ==> r == Err::<
            OperationTicket,
            SubmitError,
        >(error) && after == self
        &&& self.refusal(command, limits, contract_ok) is None ==> {
            &&& self.worker_gone ==> r == Err::<OperationTicket, SubmitError>(
                SubmitError::Disconnected,
            )
            &&& !self.worker_gone && self.commands@.len() >= self.capacity ==> r == Err::<
                OperationTicket,
                SubmitError,
            >(SubmitError::Busy)
            &&& !self.worker_gone && self.commands@.len() < self.capacity ==> r == Ok::<
                OperationTicket,
                SubmitError,
            >(OperationTicket(self.next_ticket))
        }
        &&& r is Ok ==> after.commands@ == self.commands@.push(
            CommandEnvelope {
                ticket: OperationTicket(self.next_ticket),
                runtime_generation: self.runtime_generation,
                command,
            },
        ) && self.announces(
            command,
            (ProviderRuntimeHandle { commands: self.commands, ..after }),
        )
        &&& r is Err && self.refusal(command, limits, contract_ok) is None ==> exists|
            middle: Self,
            failure: ProviderFailure,
        |
            self.announces(command, middle) && (if self.worker_gone {
                worker_unavailable(failure)
            } else {
                queue_full(failure)
            }) && #[trigger] middle.publishes(
                Some(OperationTicket(self.next_ticket)),
                command.fence(),
                command.operation_kind(),
                ProviderOperationResult::Failure(failure),
                after,
            )
    }

    /// Admit a command to the bounded queue. The pending operation is published
    /// before the command is queued, so that no result can be seen before it. A
    /// command that no longer fits in the queue, or that no worker will take, gets a
    /// ticket and a published failure.
    pub fn submit(
        &mut self,
        command: ProviderCommand,
        limits: ContractLimits,
        contract_ok: bool,
    ) -> (r: Result<OperationTicket, SubmitError>)
        requires
            old(self).wf(),
        ensures
            final(self).wf(),
            old(self).answers(command, limits, contract_ok, r, *final(self)),
    {
        if let Err(error) = command.validate_for_submission(limits, contract_ok) {
            return Err(error);
        }
        if self.stopped || self.detached {
            return Err(SubmitError::Disconnected);
        }
        let binding: Option<ProviderBinding> = match command.binding() {
            Some(binding) => {
                if binding.runtime_generation != self.runtime_generation
                    || !binding.matches_identity(&self.snapshot.identity) {
                    return Err(SubmitError::IdentityMismatch);
                }
                Some(binding.clone())
            },
            None => None,
        };
        if self.next_ticket == 0 || self.next_ticket == u64::MAX {
            return Err(SubmitError::Busy);
        }
        let ticket = OperationTicket(self.next_ticket);
        self.next_ticket = self.next_ticket + 1;
        let kind = command.kind();
        self.publish(
            Some(ticket),
            binding.clone(),
            kind,
            ProviderOperationResult::Pending { kind },
        );
        let ghost middle = *self;
        if self.worker_gone {
            let failure = ProviderFailure::new(
                ProviderFailureKind::Disconnected,
                "Coven provider worker is unavailable",
            );
            self.publish(Some(ticket), binding, kind, ProviderOperationResult::Failure(failure));
            assert(middle.publishes(
                Some(ticket),
                command.fence(),
                kind,
                ProviderOperationResult::Failure(failure),
                *self,
            ));
            return Err(SubmitError::Disconnected);
        }
        if self.commands.len() >= self.capacity {
            let failure = ProviderFailure::new(
                ProviderFailureKind::Busy,
                "Coven provider command queue is full",
            );
            self.publish(Some(ticket), binding, kind, ProviderOperationResult::Failure(failure));
            assert(middle.publishes(
                Some(ticket),
                command.fence(),
                kind,
                ProviderOperationResult::Failure(failure),
                *self,
            ));
            return Err(SubmitError::Busy);
        }
        let runtime_generation: u64 = self.runtime_generation;
        self.commands.push(CommandEnvelope { ticket, runtime_generation, command });
        assert((ProviderRuntimeHandle { commands: old(self).commands, ..*self }) == middle);
        Ok(ticket)
    }

    /// This state with a geometry remembered as the last one that was asked for.
    pub open spec fn sized(self, geometry: Option<(u16, u16, u16, u16)>) -> Self {
        ProviderRuntimeHandle { last_external_resize: geometry, ..self }
    }

    /// The resize to a geometry that is not the last one is submitted, and answered by
    /// `answer`. A resize that is refused is forgotten, so that it is asked for again.
    pub open spec fn resizes(
        self,
        command: ProviderCommand,
        geometry: (u16, u16, u16, u16),
        limits: ContractLimits,
        answer: Result<OperationTicket, SubmitError>,
        submitted: Self,
        r: Result<bool, SubmitError>,
        after: Self,
    ) -> bool {
        &&& self.sized(Some(geometry)).answers(command, limits, true, answer, submitted)
        &&& match answer {
            Ok(_) => r == Ok::<bool, SubmitError>(true) && after == submitted,
            Err(error) => r == Err::<bool, SubmitError>(error) && after == submitted.sized(None),
        }
    }

    /// Submit a remote resize only when the geometry changed. Rendering can call
    /// this once per frame without filling a slow provider's queue.
    pub fn submit_external_resize(
        &mut self,
        binding: ProviderBinding,
        rows: u16,
        cols: u16,
        pixel_width: u16,
        pixel_height: u16,
        limits: ContractLimits,
    ) -> (r: Result<bool, SubmitError>)
        requires
            old(self).wf(),
        ensures
            final(self).wf(),
            r == Ok::<bool, SubmitError>(false) <==> old(self).last_external_resize == Some(
                (rows, cols, pixel_width, pixel_height),
            ),
            r == Ok::<bool, SubmitError>(false) ==> *final(self) == *old(self),
            old(self).last_external_resize != Some((rows, cols, pixel_width, pixel_height))
                ==> exists|answer: Result<OperationTicket, SubmitError>, submitted: Self|
                #[trigger] old(self).resizes(
                    ProviderCommand::TerminalResize {
                        binding,
                        rows,
                        cols,
                        pixel_width,
                        pixel_height,
                    },
                    (rows, cols, pixel_width, pixel_height),
                    limits,
                    answer,
                    submitted,
                    r,
                    *final(self),
                ),
    {
        if let Some(cached) = self.last_external_resize {
            if cached.0 == rows && cached.1 == cols && cached.2 == pixel_width && cached.3
                == pixel_height {
                return Ok(false);
            }
        }
        let geometry: (u16, u16, u16, u16) = (rows, cols, pixel_width, pixel_height);
        let command = ProviderCommand::TerminalResize {
            binding,
            rows,
            cols,
            pixel_width,
            pixel_height,
        };
        let ghost asked = command;
        self.last_external_resize = Some(geometry);
        assert(*self == old(self).sized(Some(geometry)));
        let answer = self.submit(command, limits, true);
        let ghost submitted = *self;
        let r = match answer {
            Ok(_) => Ok(true),
            Err(error) => {
                self.last_external_resize = None;
                Err(error)
            },
        };
        assert(old(self).resizes(asked, geometry, limits, answer, submitted, r, *self));
        r
    }
}

pub open spec fn stale_dispatch(failure: ProviderFailure, detached: bool) -> bool {
    if detached {
        failure.says(ProviderFailureKind::Disconnected, "provider consumer is detached"@)
    } else {
        failure.says(
            ProviderFailureKind::IdentityMismatch,
            "provider runtime generation no longer matches the command"@,
        )
    }
}

pub open spec fn stale_result(failure: ProviderFailure, detached: bool) -> bool {
    if detached {
        failure.says(
            ProviderFailureKind::Disconnected,
            "provider result arrived after the consumer detached"@,
        )
    } else {
        failure.says(
            ProviderFailureKind::IdentityMismatch,
            "Coven provider result arrived after its runtime fence changed"@,
        )
    }
}

impl ProviderRuntimeHandle {
    /// A command that may be sent now: it was admitted under the current generation,
    /// and its binding is of that generation.
    pub open spec fn may_dispatch(self, envelope: CommandEnvelope) -> bool {
        &&& envelope.runtime_generation == self.runtime_generation
        &&& envelope.command.fence() matches Some(binding) ==> binding.runtime_generation
            == self.runtime_generation
    }

    /// Take the next command, if there is one, and check it against the fence. Once a
    /// command is handed out to be run it is in flight; a change of generation in the
    /// meantime discards its result in `finish_dispatch`.
    pub fn begin_dispatch(&mut self) -> (r: DispatchStep)
        requires
            old(self).wf(),
        ensures
            final(self).wf(),
            r is Stop <==> old(self).stopped,
            r is Idle <==> !old(self).stopped && old(self).commands@.len() == 0,
            r is Stop || r is Idle ==> *final(self) == *old(self),
            r is Run <==> !old(self).stopped && old(self).commands@.len() > 0 && !old(self).detached
                && old(self).may_dispatch(old(self).commands@[0]),
            r matches DispatchStep::Run(envelope) ==> envelope == old(self).commands@[0]
                && final(self).commands@ == old(self).commands@.drop_first() && *final(self) == (
            ProviderRuntimeHandle { commands: final(self).commands, ..*old(self) }),
            r is Stale ==> final(self).commands@ == old(self).commands@.drop_first() && exists|
                failure: ProviderFailure,
            |
                #[trigger] stale_dispatch(failure, old(self).detached) && old(self).notifies(
                    Some(old(self).commands@[0].ticket),
                    old(self).commands@[0].command.fence(),
                    old(self).commands@[0].command.operation_kind(),
                    old(self).commands@[0].runtime_generation,
                    ProviderOperationResult::Failure(failure),
                    *old(self).snapshot,
                    (ProviderRuntimeHandle { commands: old(self).commands, ..*final(self) }),
                ),
    {
        if self.stopped {
            return DispatchStep::Stop;
        }
        if self.commands.len() == 0 {
            return DispatchStep::Idle;
        }
        let envelope = self.commands.remove(0);
        assert(self.commands@ =~= old(self).commands@.drop_first());
        let binding: Option<ProviderBinding> = match envelope.command.binding() {
            Some(binding) => Some(binding.clone()),
            None => None,
        };
        let bound_elsewhere: bool = match &binding {
            Some(binding) => binding.runtime_generation != self.runtime_generation,
            None => false,
        };
        let kind = envelope.command.kind();
        if self.detached {
            let failure = ProviderFailure::new(
                ProviderFailureKind::Disconnected,
                "provider consumer is detached",
            );
            self.publish_stale(
                envelope.ticket,
                binding,
                envelope.runtime_generation,
                kind,
                failure,
            );
            assert(old(self).notifies(
                Some(envelope.ticket),
                binding,
                kind,
                envelope.runtime_generation,
                ProviderOperationResult::Failure(failure),
                *old(self).snapshot,
                (ProviderRuntimeHandle { commands: old(self).commands, ..*self }),
            ) && stale_dispatch(failure, old(self).detached));
            return DispatchStep::Stale;
        }
        if envelope.runtime_generation != self.runtime_generation || bound_elsewhere {
            let failure = ProviderFailure::new(
                ProviderFailureKind::IdentityMismatch,
                "provider runtime generation no longer matches the command",
            );
            self.publish_stale(
                envelope.ticket,
                binding,
                envelope.runtime_generation,
                kind,
                failure,
            );
            assert(old(self).notifies(
                Some(envelope.ticket),
                binding,
                kind,
                envelope.runtime_generation,
                ProviderOperationResult::Failure(failure),
                *old(self).snapshot,
                (ProviderRuntimeHandle { commands: old(self).commands, ..*self }),
            ) && stale_dispatch(failure, old(self).detached));
            return DispatchStep::Stale;
        }
        DispatchStep::Run(envelope)
    }

    /// Publish the result of a command, unless the consumer detached or the
    /// generation changed while it was in flight.
    pub fn finish_dispatch(&mut self, envelope: CommandEnvelope, result: ProviderOperationResult)
        requires
            old(self).wf(),
        ensures
            final(self).wf(),
            !old(self).detached && envelope.runtime_generation == old(self).runtime_generation
                ==> old(self).publishes(
                Some(envelope.ticket),
                envelope.command.fence(),
                envelope.command.operation_kind(),
                result,
                *final(self),
            ),
            old(self).detached || envelope.runtime_generation != old(self).runtime_generation
                ==> exists|failure: ProviderFailure|
                stale_result(failure, old(self).detached) && #[trigger] old(self).notifies(
                    Some(envelope.ticket),
                    envelope.command.fence(),
                    envelope.command.operation_kind(),
                    envelope.runtime_generation,
                    ProviderOperationResult::Failure(failure),
                    *old(self).snapshot,
                    *final(self),
                ),
    {
        let binding: Option<ProviderBinding> = match envelope.command.binding() {
            Some(binding) => Some(binding.clone()),
            None => None,
        };
        let kind = envelope.command.kind();
        if self.stopped || self.detached {
            let failure = ProviderFailure::new(
                ProviderFailureKind::Disconnected,
                "provider result arrived after the consumer detached",
            );
            self.publish_stale(
                envelope.ticket,
                binding,
                envelope.runtime_generation,
                kind,
                failure,
            );
        } else if self.runtime_generation != envelope.runtime_generation {
            let failure = ProviderFailure::new(
                ProviderFailureKind::IdentityMismatch,
                "Coven provider result arrived after its runtime fence changed",
            );
            self.publish_stale(
                envelope.ticket,
                binding,
                envelope.runtime_generation,
                kind,
                failure,
            );
        } else {
            self.publish(Some(envelope.ticket), binding, kind, result);
        }
    }

    /// Take at most `limit` updates, oldest first.
    pub fn try_drain_updates(&mut self, limit: usize) -> (r: Vec<ProviderUpdate>)
        requires
            old(self).wf(),
        ensures
            final(self).wf(),
            r@.len() == (if limit < old(self).updates@.len() {
                limit as nat
            } else {
                old(self).updates@.len()
            }),
            r@ + final(self).updates@ == old(self).updates@,
            *final(self) == (ProviderRuntimeHandle {
                updates: final(self).updates,
                ..*old(self)
            }),
    {
        let count: usize = if limit < self.updates.len() {
            limit
        } else {
            self.updates.len()
        };
        let rest = self.updates.split_off(count);
        let mut taken = rest;
        std::mem::swap(&mut taken, &mut self.updates);
        assert(taken@ + self.updates@ =~= old(self).updates@);
        taken
    }

    pub fn runtime_generation(&self) -> (r: u64)
        ensures
            r == self.runtime_generation,
    {
        self.runtime_generation
    }

    pub fn snapshot(&self) -> (r: Arc<ProviderSnapshot>)
        ensures
            r == self.snapshot,
    {
        self.snapshot.clone()
    }

    /// Bind an execution of this provider under its current generation.
    pub fn binding(&self, session_id: String, generation: u64) -> (r: Result<
        ManagedBinding,
        ProviderBindingError,
    >)
        ensures
            r is Ok <==> super::binding_defect(
                self.snapshot.identity.provider_id@,
                true,
                true,
                generation,
                self.snapshot.runtime_generation,
            ) is None,
            r matches Ok(binding) ==> binding.names(self.snapshot.identity) && binding.session_id
                == session_id && binding.generation == generation && binding.runtime_generation
                == self.snapshot.runtime_generation && binding.pinned_source is None,
            r matches Err(error) ==> super::binding_defect(
                self.snapshot.identity.provider_id@,
                true,
                true,
                generation,
                self.snapshot.runtime_generation,
            ) == Some(error.field()),
    {
        ManagedBinding::from_identity(
            &self.snapshot.identity,
            session_id,
            generation,
            self.snapshot.runtime_generation,
        )
    }

    /// Fence off everything that was admitted so far, and forget what was observed
    /// under the old generation.
    pub fn bump_generation(&mut self, generations: &mut u64) -> (r: Result<
        u64,
        ProviderGenerationError,
    >)
        requires
            old(self).wf(),
        ensures
            final(self).wf(),
            r is Ok <==> 0 < *old(generations) <= i64::MAX,
            r matches Err(error) ==> error == ProviderGenerationError::Exhausted && *final(self)
                == *old(self) && *final(generations) == *old(generations),
            r matches Ok(next) ==> {
                &&& next == *old(generations)
                &&& *final(generations) == *old(generations) + 1
                &&& final(self).snapshot.retained_operations@.len() == 0
                &&& *final(self).snapshot == (ProviderSnapshot {
                    runtime_generation: next,
                    connection: ProviderConnection::Unknown,
                    lifecycle: ProviderLifecycle::Unknown,
                    health: None,
                    source: None,
                    last_operation: None,
                    retained_operations: final(self).snapshot.retained_operations,
                    revision: next_count(old(self).snapshot.revision),
                    ..*old(self).snapshot
                })
                &&& *final(self) == (ProviderRuntimeHandle {
                    runtime_generation: next,
                    snapshot: final(self).snapshot,
                    ..*old(self)
                })
            },
    {
        let next: u64 = match allocate_generation(generations) {
            Ok(next) => next,
            Err(error) => {
                return Err(error);
            },
        };
        self.runtime_generation = next;
        let mut current: ProviderSnapshot = (*self.snapshot).clone();
        current.runtime_generation = next;
        current.connection = ProviderConnection::Unknown;
        current.lifecycle = ProviderLifecycle::Unknown;
        current.health = None;
        current.source = None;
        current.last_operation = None;
        current.retained_operations = Arc::new(Vec::new());
        if current.revision < u64::MAX {
            current.revision = current.revision + 1;
        }
        self.snapshot = Arc::new(current);
        Ok(next)
    }

    /// `after` is this state disconnected, with its operation history forgotten.
    pub open spec fn disconnects(self, after: Self) -> bool {
        &&& after.snapshot.retained_operations@.len() == 0
        &&& *after.snapshot == (ProviderSnapshot {
            connection: ProviderConnection::Disconnected,
            last_operation: None,
            retained_operations: after.snapshot.retained_operations,
            revision: next_count(self.snapshot.revision),
            ..*self.snapshot
        })
        &&& after == (ProviderRuntimeHandle { snapshot: after.snapshot, ..self })
    }

    fn disconnect(&mut self)
        requires
            old(self).wf(),
        ensures
            final(self).wf(),
            old(self).disconnects(*final(self)),
    {
        let mut current: ProviderSnapshot = (*self.snapshot).clone();
        current.connection = ProviderConnection::Disconnected;
        current.last_operation = None;
        current.retained_operations = Arc::new(Vec::new());
        if current.revision < u64::MAX {
            current.revision = current.revision + 1;
        }
        self.snapshot = Arc::new(current);
    }

    /// `after` is this state once its consumer was detached. One that was stopped is detached
    /// already.
    pub open spec fn detaches(self, after: Self) -> bool {
        if self.stopped {
            after == self
        } else {
            exists|middle: Self|
                (ProviderRuntimeHandle { detached: true, ..self }).disconnects(middle)
                    && #[trigger] middle.publishes(
                    None,
                    None,
                    ProviderOperationKind::Health,
                    ProviderOperationResult::Detached,
                    after,
                )
        }
    }

    /// `after` is this state once the local actor was stopped.
    pub open spec fn shuts_down(self, after: Self) -> bool {
        exists|middle: Self|
            (ProviderRuntimeHandle { stopped: true, detached: true, ..self }).disconnects(middle)
                && #[trigger] middle.publishes(
                None,
                None,
                ProviderOperationKind::Health,
                ProviderOperationResult::Shutdown,
                after,
            )
    }

    /// `after` is this state once it was detached and then stopped.
    pub open spec fn retires(self, after: Self) -> bool {
        exists|middle: Self| #[trigger] self.detaches(middle) && middle.shuts_down(after)
    }

    /// Detach this consumer only. Queued commands that have not crossed the dispatch
    /// fence are not sent; the result of one in flight is discarded.
    pub fn detach(&mut self) -> (r: Arc<ProviderSnapshot>)
        requires
            old(self).wf(),
        ensures
            final(self).wf(),
            r == final(self).snapshot,
            final(self).detached,
            old(self).detaches(*final(self)),
    {
        if !self.stopped {
            self.detached = true;
            self.disconnect();
            self.publish(
                None,
                None,
                ProviderOperationKind::Health,
                ProviderOperationResult::Detached,
            );
        }
        self.snapshot.clone()
    }

    /// Stop the local actor only. The execution itself is never stopped by this.
    pub fn shutdown(&mut self)
        requires
            old(self).wf(),
        ensures
            final(self).wf(),
            final(self).stopped && final(self).detached,
            old(self).shuts_down(*final(self)),
    {
        self.detached = true;
        self.stopped = true;
        self.disconnect();
        self.publish(None, None, ProviderOperationKind::Health, ProviderOperationResult::Shutdown);
    }
}

/// A detached or stopped provider admits no command.
pub proof fn detached_provider_admits_nothing(
    handle: ProviderRuntimeHandle,
    command: ProviderCommand,
    limits: ContractLimits,
    contract_ok: bool,
)
    requires
        handle.detached || handle.stopped,
    ensures
        handle.refusal(command, limits, contract_ok) is Some,
        handle.refusal(command, limits, contract_ok) == Some(SubmitError::Disconnected)
            || handle.refusal(command, limits, contract_ok) == Some(SubmitError::Rejected),
{
}

/// A binding of another generation is never admitted and never sent, whatever it asks
/// for: a provider that was fenced since, or one that replaced it, refuses it.
pub proof fn stale_binding_is_never_dispatched(
    handle: ProviderRuntimeHandle,
    envelope: CommandEnvelope,
    limits: ContractLimits,
    contract_ok: bool,
)
    requires
        envelope.command.fence() matches Some(binding) && binding.runtime_generation
            != handle.runtime_generation,
    ensures
        handle.refusal(envelope.command, limits, contract_ok) is Some,
        !handle.may_dispatch(envelope),
{
}

/// Completing an operation under an old fence leaves what is known of the provider as
/// it is.
pub proof fn stale_completion_preserves_observations(
    before: ProviderRuntimeHandle,
    after: ProviderRuntimeHandle,
    ticket: OperationTicket,
    binding: Option<ProviderBinding>,
    kind: ProviderOperationKind,
    generation: u64,
    failure: ProviderFailure,
)
    requires
        before.notifies(
            Some(ticket),
            binding,
            kind,
            generation,
            ProviderOperationResult::Failure(failure),
            *before.snapshot,
            after,
        ),
    ensures
        after.snapshot.runtime_generation == before.snapshot.runtime_generation,
        after.snapshot.connection == before.snapshot.connection,
        after.snapshot.lifecycle == before.snapshot.lifecycle,
        after.snapshot.activity == before.snapshot.activity,
        after.snapshot.durability == before.snapshot.durability,
        after.snapshot.health == before.snapshot.health,
        after.snapshot.source == before.snapshot.source,
        after.snapshot.last_operation == before.snapshot.last_operation,
        after.snapshot.retained_operations == before.snapshot.retained_operations,
        before.updates@.len() < before.capacity ==> after.snapshot == before.snapshot,
{
}

/// What a source says of its execution is shown by the same name, and it is at work exactly
/// while it starts or runs.
pub proof fn lifecycles_are_shown_as_told(told: SourceLifecycle, shown: ProviderLifecycle)
    ensures
        lifecycle_of(told) is Created <==> told is Created,
        lifecycle_of(told) is Starting <==> told is Starting,
        lifecycle_of(told) is Running <==> told is Running,
        lifecycle_of(told) is Idle <==> told is Idle,
        lifecycle_of(told) is Completed <==> told is Completed,
        lifecycle_of(told) is Failed <==> told is Failed,
        lifecycle_of(told) is Cancelled <==> told is Cancelled,
        lifecycle_of(told) is Killed <==> told is Killed,
        lifecycle_of(told) is Orphaned <==> told is Orphaned,
        activity_of(shown) is Working <==> shown is Starting || shown is Running,
        activity_of(shown) is Unknown <==> shown is Unknown,
{
}

/// Names of lifecycles stand for themselves, and any other name for none that is known.
pub proof fn lifecycle_names_stand_for_themselves(name: Seq<char>)
    ensures
        lifecycle_named("created"@) is Created,
        lifecycle_named("starting"@) is Starting,
        lifecycle_named("running"@) is Running,
        lifecycle_named("idle"@) is Idle,
        lifecycle_named("completed"@) is Completed,
        lifecycle_named("failed"@) is Failed,
        lifecycle_named("cancelled"@) is Cancelled,
        lifecycle_named("killed"@) is Killed,
        lifecycle_named("orphaned"@) is Orphaned,
        lifecycle_named(name) is Running ==> name == "running"@,
        lifecycle_named(name) is Completed ==> name == "completed"@,
        lifecycle_named(name) is Failed ==> name == "failed"@,
        name.len() == 0 ==> lifecycle_named(name) is Unknown,
{
    reveal_strlit("created");
    reveal_strlit("starting");
    reveal_strlit("running");
    reveal_strlit("idle");
    reveal_strlit("completed");
    reveal_strlit("failed");
    reveal_strlit("cancelled");
    reveal_strlit("killed");
    reveal_strlit("orphaned");
    assert("created"@[0] == 'c' && "running"@[0] == 'r');
    assert("starting"@[0] == 's' && "orphaned"@[0] == 'o');
    assert("completed"@[1] == 'o' && "cancelled"@[1] == 'a');
    assert("failed"@[0] == 'f' && "killed"@[0] == 'k');
}

/// What an answer makes of the connection, of its durability and of what is known of the
/// execution. A failure to reach the provider disconnects it; one that the provider answers
/// does not.
pub proof fn answers_show_the_connection(
    snapshot: ProviderSnapshot,
    result: ProviderOperationResult,
)
    ensures
        ({
            let seen = snapshot.observing(result);
            &&& result is Health || result is Source || result is Transcript
                || result is CheckpointAttached || result is Checkpoint || result is Execution
                || result is LookupExecution || result is TerminalControl
                ==> seen.connection is Connected
            &&& result is Detached || result is Shutdown ==> seen.connection is Disconnected
                && seen.activity is Unknown
            &&& result is Pending ==> (seen.connection is Connected
                <==> snapshot.connection is Connected) && (!(snapshot.connection is Connected)
                ==> seen.connection is Connecting)
            &&& result matches ProviderOperationResult::Failure(failure) ==> (
            failure.kind is Disconnected || failure.kind is IdentityMismatch
                ==> seen.connection is Disconnected) && (failure.kind is Busy
                || failure.kind is Rejected || failure.kind is Failed ==> seen.connection
                == snapshot.connection) && (failure.kind is Unsupported
                ==> seen.connection is Unknown)
            &&& result is Source || result is Transcript || result is Execution
                || result is LookupExecution ==> seen.durability is Durable
            &&& result is Checkpoint || result is CheckpointAttached ==> seen.durability is Ephemeral
            &&& result matches ProviderOperationResult::Health(health) ==> seen.health == Some(
                health,
            )
            &&& result matches ProviderOperationResult::Source(reply) ==> seen.source == Some(reply)
            &&& result is Failure || result is Pending || result is Health || result is Checkpoint
                || result is CheckpointAttached || result is TerminalControl ==> seen.lifecycle
                == snapshot.lifecycle && seen.activity == snapshot.activity
            &&& !(result is Health) ==> seen.health == snapshot.health
            &&& !(result is Source) ==> seen.source == snapshot.source
            &&& seen.identity == snapshot.identity
        }),
{
}

/// What a source, a transcript or an execution says of its state is shown.
pub proof fn answers_show_the_execution(
    snapshot: ProviderSnapshot,
    result: ProviderOperationResult,
)
    ensures
        ({
            let seen = snapshot.observing(result);
            &&& (result matches ProviderOperationResult::Transcript(reply) && !(
            reply.result is Reset)) ==> {
                let told = result->Transcript_0.projection.lifecycle;
                &&& told is Running ==> seen.lifecycle is Running && seen.activity is Working
                &&& told is Idle ==> seen.lifecycle is Idle && seen.activity is Quiet
                &&& told is Completed ==> seen.lifecycle is Completed && seen.activity is Quiet
                &&& told is Failed ==> seen.lifecycle is Failed && seen.activity is Quiet
            }
            &&& (result matches ProviderOperationResult::Transcript(reply)
                && reply.result is Reset) ==> seen.lifecycle is Unknown && seen.activity is Unknown
            &&& (result matches ProviderOperationResult::Source(reply)
                && reply.result is Page) ==> seen.lifecycle == snapshot.lifecycle
            &&& (result matches ProviderOperationResult::Source(reply)
                && reply.result is Reset) ==> seen.lifecycle is Unknown
            &&& (result matches ProviderOperationResult::Source(reply) && (
            reply.result matches SourceResult::Snapshot { projection, .. }
                && projection.lifecycle is Running)) ==> seen.lifecycle is Running
                && seen.activity is Working
            &&& (result matches ProviderOperationResult::Execution(outcome)
                && outcome.session_status is None) ==> seen.lifecycle == snapshot.lifecycle
            &&& (result matches ProviderOperationResult::Execution(outcome)
                && outcome.session_status is Some) ==> seen.lifecycle == lifecycle_named(
                result->Execution_0.session_status->0@,
            ) && (seen.activity is Working <==> seen.lifecycle is Running
                || seen.lifecycle is Starting)
        }),
{
}

/// A command is taken exactly by a provider that is there, whose worker is, for a binding of its
/// own, in order, and while its queue has room. It waits behind those before it, under a ticket
/// that no earlier one had.
pub proof fn commands_are_taken_in_order(
    handle: ProviderRuntimeHandle,
    command: ProviderCommand,
    limits: ContractLimits,
    contract_ok: bool,
    r: Result<OperationTicket, SubmitError>,
    after: ProviderRuntimeHandle,
)
    requires
        handle.wf(),
        handle.answers(command, limits, contract_ok, r, after),
    ensures
        r is Ok <==> command.admissible(limits, contract_ok) && !handle.stopped && !handle.detached
            && !handle.worker_gone && handle.commands@.len() < handle.capacity && 0
            < handle.next_ticket < u64::MAX && (command.fence() matches Some(binding)
            ==> binding.runtime_generation == handle.runtime_generation && binding.names(
            handle.snapshot.identity,
        )),
        r matches Ok(ticket) ==> {
            &&& ticket.0 == handle.next_ticket
            &&& after.next_ticket == handle.next_ticket + 1
            &&& after.commands@.len() == handle.commands@.len() + 1
            &&& after.commands@.take(handle.commands@.len() as int) == handle.commands@
            &&& after.commands@.last().command == command
            &&& after.commands@.last().ticket == ticket
            &&& after.commands@.last().runtime_generation == handle.runtime_generation
            &&& after.runtime_generation == handle.runtime_generation
            &&& !after.stopped && !after.detached
        },
        r is Err ==> after.commands@ == handle.commands@,
        !command.admissible(limits, contract_ok) ==> r == Err::<OperationTicket, SubmitError>(
            SubmitError::Rejected,
        ),
        command.admissible(limits, contract_ok) && (handle.stopped || handle.detached) ==> r
            == Err::<OperationTicket, SubmitError>(SubmitError::Disconnected),
        command.admissible(limits, contract_ok) && !handle.stopped && !handle.detached && (
        command.fence() matches Some(binding) && binding.runtime_generation
            != handle.runtime_generation) ==> r == Err::<OperationTicket, SubmitError>(
            SubmitError::IdentityMismatch,
        ),
        command is Health && !handle.stopped && !handle.detached && !handle.worker_gone && 0
            < handle.next_ticket < u64::MAX && handle.commands@.len() >= handle.capacity ==> r
            == Err::<OperationTicket, SubmitError>(SubmitError::Busy),
{
    if r is Ok {
        assert(after.commands@.take(handle.commands@.len() as int) =~= handle.commands@);
    }
}

/// A result can be read back under its ticket, as it came, once it was published.
pub proof fn published_results_are_read_back(
    handle: ProviderRuntimeHandle,
    ticket: OperationTicket,
    binding: Option<ProviderBinding>,
    kind: ProviderOperationKind,
    result: ProviderOperationResult,
    after: ProviderRuntimeHandle,
)
    requires
        handle.wf(),
        handle.retention > 0,
        handle.publishes(Some(ticket), binding, kind, result, after),
        forall|i: int|
            0 <= i < handle.snapshot.retained_operations@.len() ==> (
            #[trigger] handle.snapshot.retained_operations@[i]).ticket.0 <= ticket.0,
    ensures
        find_operation(after.snapshot.retained_operations@, ticket, 0) matches Some(found)
            && found.result == result && found.kind == kind && found.ticket == ticket,
        after.snapshot.last_operation matches Some(last) && last.ticket == ticket && last.result
            == result,
        handle.updates@.len() < handle.capacity ==> after.updates@.len() == handle.updates@.len() + 1
            && after.updates@.last().ticket == Some(ticket) && after.updates@.last().result == result
            && after.updates@.last().kind == kind && after.updates@.last().binding == binding,
        handle.updates@.len() >= handle.capacity ==> after.updates@ == handle.updates@,
        after.commands == handle.commands,
{
    let operations = handle.snapshot.retained_operations@;
    let operation = ProviderOperation { ticket, kind, result };
    lemma_place_of(operations, ticket.0, 0);
    retention_stays_ordered(operations, operation, handle.retention as nat);
    let at = place_of(operations, ticket.0, 0) as int;
    let all = placed(operations, operation);
    let kept = latest(all, handle.retention as nat);
    if at < operations.len() {
        assert(operations[at].ticket.0 <= ticket.0);
        if at + 1 < operations.len() {
            assert(operations[at].ticket.0 < operations[at + 1].ticket.0);
        }
    }
    assert(all.len() == at + 1);
    assert(all[at] == operation);
    assert(kept.last() == operation);
    lemma_find_from(kept, ticket, 0, kept.len() - 1);
}

/// A provider that was detached or stopped keeps nothing that was answered, and is shown as
/// disconnected.
pub proof fn stopped_providers_keep_no_answers(
    handle: ProviderRuntimeHandle,
    after: ProviderRuntimeHandle,
)
    requires
        handle.wf(),
        handle.shuts_down(after),
    ensures
        after.stopped && after.detached,
        after.snapshot.retained_operations@.len() == 0,
        after.snapshot.last_operation is None,
        after.snapshot.connection is Disconnected,
        after.snapshot.activity is Unknown,
        after.commands == handle.commands,
        after.runtime_generation == handle.runtime_generation,
        after.snapshot.identity == handle.snapshot.identity,
{
    let middle = choose|middle: ProviderRuntimeHandle|
        (ProviderRuntimeHandle { stopped: true, detached: true, ..handle }).disconnects(middle)
            && #[trigger] middle.publishes(
            None,
            None,
            ProviderOperationKind::Health,
            ProviderOperationResult::Shutdown,
            after,
        );
    assert(middle.snapshot.retained_operations@.len() == 0);
}

/// A provider that is only detached keeps running and keeps no answers either.
pub proof fn detached_providers_keep_no_answers(
    handle: ProviderRuntimeHandle,
    after: ProviderRuntimeHandle,
)
    requires
        handle.wf(),
        handle.detaches(after),
    ensures
        !handle.stopped ==> after.detached && !after.stopped
            && after.snapshot.retained_operations@.len() == 0
            && after.snapshot.connection is Disconnected && after.commands == handle.commands,
        handle.stopped ==> after == handle,
{
}

/// A fresh provider is its owner's, idle and open, and nothing is known of it.
pub proof fn providers_start_open_and_unknown(
    handle: ProviderRuntimeHandle,
    identity: ProviderIdentity,
    capacity: usize,
    generation: u64,
    retention: usize,
)
    requires
        handle.started(identity, capacity, generation, retention),
    ensures
        handle.snapshot.identity == identity,
        handle.capacity == capacity && handle.retention == retention,
        handle.runtime_generation == generation && handle.snapshot.runtime_generation == generation,
        !handle.stopped && !handle.detached && !handle.worker_gone,
        handle.commands@.len() == 0 && handle.updates@.len() == 0,
        handle.snapshot.retained_operations@.len() == 0,
        handle.snapshot.lifecycle is Unknown && handle.snapshot.connection is Disconnected,
        handle.next_ticket == 1,
{
}

/// Failures of a provider itself are told in these words.
pub proof fn provider_failures_are_told(failure: ProviderFailure, detached: bool)
    ensures
        queue_full(failure) ==> failure.says(
            ProviderFailureKind::Busy,
            "Coven provider command queue is full"@,
        ) && failure.kind is Busy,
        worker_unavailable(failure) ==> failure.says(
            ProviderFailureKind::Disconnected,
            "Coven provider worker is unavailable"@,
        ) && failure.kind is Disconnected,
        stale_dispatch(failure, true) ==> failure.says(
            ProviderFailureKind::Disconnected,
            "provider consumer is detached"@,
        ),
        stale_dispatch(failure, false) ==> failure.says(
            ProviderFailureKind::IdentityMismatch,
            "provider runtime generation no longer matches the command"@,
        ),
        stale_result(failure, true) ==> failure.says(
            ProviderFailureKind::Disconnected,
            "provider result arrived after the consumer detached"@,
        ),
        stale_result(failure, false) ==> failure.says(
            ProviderFailureKind::IdentityMismatch,
            "Coven provider result arrived after its runtime fence changed"@,
        ),
        stale_dispatch(failure, detached) ==> (failure.kind is Disconnected <==> detached) && (
        failure.kind is IdentityMismatch <==> !detached),
        stale_result(failure, detached) ==> (failure.kind is Disconnected <==> detached) && (
        failure.kind is IdentityMismatch <==> !detached),
{
}

/// A geometry is asked for once: it is remembered, and forgotten again where the resize was
/// refused or a control of the terminal failed; any other result leaves it as it was.
pub proof fn failed_resizes_are_asked_for_again(
    handle: ProviderRuntimeHandle,
    ticket: Option<OperationTicket>,
    binding: Option<ProviderBinding>,
    kind: ProviderOperationKind,
    result: ProviderOperationResult,
    after: ProviderRuntimeHandle,
)
    requires
        handle.publishes(ticket, binding, kind, result, after),
    ensures
        kind is TerminalControl && result is Failure ==> after.last_external_resize is None,
        !(kind is TerminalControl) || !(result is Failure) ==> after.last_external_resize
            == handle.last_external_resize,
        after.commands == handle.commands,
        after.next_ticket == handle.next_ticket,
        after.stopped == handle.stopped,
        after.detached == handle.detached,
{
}

/// A resize that was taken is told, and one that was refused is told with the refusal and
/// forgotten.
pub proof fn resizes_are_answered(
    handle: ProviderRuntimeHandle,
    command: ProviderCommand,
    geometry: (u16, u16, u16, u16),
    limits: ContractLimits,
    answer: Result<OperationTicket, SubmitError>,
    submitted: ProviderRuntimeHandle,
    r: Result<bool, SubmitError>,
    after: ProviderRuntimeHandle,
)
    requires
        handle.resizes(command, geometry, limits, answer, submitted, r, after),
    ensures
        answer is Ok ==> r == Ok::<bool, SubmitError>(true) && after == submitted,
        answer matches Err(error) ==> r == Err::<bool, SubmitError>(error)
            && after.last_external_resize is None && after.commands == submitted.commands,
{
}

/// A notification is queued last where there is room, and otherwise counted as dropped; those
/// that wait stay as they are.
pub proof fn notifications_are_queued_or_counted(
    handle: ProviderRuntimeHandle,
    ticket: Option<OperationTicket>,
    binding: Option<ProviderBinding>,
    kind: ProviderOperationKind,
    runtime_generation: u64,
    result: ProviderOperationResult,
    snapshot: ProviderSnapshot,
    after: ProviderRuntimeHandle,
)
    requires
        handle.notifies(ticket, binding, kind, runtime_generation, result, snapshot, after),
    ensures
        handle.updates@.len() < handle.capacity ==> after.updates@.len() == handle.updates@.len() + 1
            && after.updates@.last().ticket == ticket && after.updates@.last().binding == binding
            && after.updates@.last().kind == kind && after.updates@.last().result == result
            && after.updates@.last().runtime_generation == runtime_generation
            && after.updates@.drop_last() == handle.updates@ && *after.snapshot == snapshot,
        handle.updates@.len() >= handle.capacity ==> after.updates@ == handle.updates@,
        handle.updates@.len() >= handle.capacity && snapshot.dropped_updates < u64::MAX
            ==> after.snapshot.dropped_updates == snapshot.dropped_updates + 1,
        after.commands == handle.commands,
{
}

} // verus!
