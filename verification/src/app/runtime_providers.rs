//! Server-owned provider attachments and the operations submitted to them.
//!
//! The event loop exchanges bounded commands and immutable snapshots with provider
//! workers. Times are milliseconds of one monotonic clock.
use std::sync::Arc;
use vstd::prelude::*;

use crate::coven::{
    ContractError, SourceCursor, SourceIdentity, SourceResult, TranscriptReply, TranscriptResult,
    WriterState,
};
use crate::runtime_provider::actor::ProviderRuntimeHandle;
use crate::runtime_provider::transcript::TranscriptProjection;
use crate::runtime_provider::{
    find_operation, share, ManagedBinding, OperationTicket, ProviderCommand, ProviderConnection,
    ProviderFailureKind, ProviderObservation, ProviderOperation, ProviderOperationResult,
    ProviderSnapshot, ProviderUpdate, SubmitError,
};
use crate::terminal::backend::{ExternalBinding, ExternalCheckpointState};

verus! {

/// How soon a pending operation is looked at again.
pub const POLL_INTERVAL_MS: u64 = 100;

/// How often an attachment is read.
pub const READ_INTERVAL_MS: u64 = 1_000;

/// How soon an attached checkpoint stream is drained again.
pub const CHECKPOINT_INTERVAL_MS: u64 = 20;

pub const MAX_ATTACHMENTS: usize = 64;

pub const MAX_OPERATIONS: usize = 64;

/// How long the result of a completed operation is kept.
pub const OPERATION_RETENTION_MS: u64 = 900_000;

/// How many updates one poll takes at most.
pub const DRAINED_UPDATES: usize = 64;

pub const TRANSCRIPT_READ_CHUNKS: u16 = 32;

pub const SOURCE_READ_EVENTS: u16 = 128;

/// `now + delay`, held at the end of the clock.
pub open spec fn later(now: u64, delay: u64) -> u64 {
    if now + delay > u64::MAX {
        u64::MAX
    } else {
        (now + delay) as u64
    }
}

/// The daemon contract that the last observation came by.
#[derive(Clone, Copy, Debug, PartialEq, Eq, Structural)]
pub enum ObservedContract {
    Checkpoint,
    Health,
    Transcript,
    Source,
}

/// What a terminal shows of an external execution.
pub struct ExternalTerminal {
    pub external_binding: Option<ExternalBinding>,
    pub external_observation: Option<ProviderObservation>,
    pub external_transcript: Option<TranscriptProjection>,
    pub external_checkpoint: Option<Arc<ExternalCheckpointState>>,
    pub external_observed_at: Option<u64>,
    pub external_observed_contract: Option<ObservedContract>,
}

impl ExternalTerminal {
    pub open spec fn wf(self) -> bool {
        self.external_transcript matches Some(projection) ==> projection.wf()
    }

    /// A terminal that was just bound to an execution and has observed nothing.
    pub fn bound(binding: ExternalBinding) -> (r: Self)
        ensures
            r.wf(),
            r.external_binding == Some(binding),
            r.external_observation is None,
            r.external_transcript is None,
            r.external_checkpoint is None,
            r.external_observed_at is None,
            r.external_observed_contract is None,
    {
        ExternalTerminal {
            external_binding: Some(binding),
            external_observation: None,
            external_transcript: None,
            external_checkpoint: None,
            external_observed_at: None,
            external_observed_contract: None,
        }
    }
}

/// How an attachment is being read.
pub struct PollState {
    pub health: bool,
    pub transcript: bool,
    pub checkpoint: bool,
    pub checkpoint_attached: bool,
    pub checkpoint_content_revision: u64,
    pub cursor: Option<SourceCursor>,
    pub pending: Option<OperationTicket>,
    pub next_read: u64,
    pub failures: u32,
    pub stopped: bool,
}

impl PollState {
    pub open spec fn starts_at(self, now: u64) -> bool {
        &&& self.health
        &&& !self.transcript
        &&& self.checkpoint
        &&& !self.checkpoint_attached
        &&& self.checkpoint_content_revision == 0
        &&& self.cursor is None
        &&& self.pending is None
        &&& self.next_read == now
        &&& self.failures == 0
        &&& !self.stopped
    }

    /// Begin to read an attachment. The typed stream is negotiated first; the transcript
    /// is a deliberate fallback for daemons that do not offer it.
    pub fn start(now: u64) -> (r: Self)
        ensures
            r.starts_at(now),
    {
        PollState {
            health: true,
            transcript: false,
            checkpoint: true,
            checkpoint_attached: false,
            checkpoint_content_revision: 0,
            cursor: None,
            pending: None,
            next_read: now,
            failures: 0,
            stopped: false,
        }
    }

    /// The moment at which this attachment has to be looked at again.
    pub open spec fn due(self, now: u64) -> u64 {
        if self.pending is Some {
            later(now, POLL_INTERVAL_MS)
        } else {
            self.next_read
        }
    }
}

/// What one look at an attachment calls for.
#[derive(Clone, Copy, Debug, PartialEq, Eq, Structural)]
pub struct PollReport {
    /// Something shown has changed.
    pub changed: bool,
    /// The session has to be saved.
    pub persist: bool,
    /// A full redraw is needed.
    pub render: bool,
}

/// How many of the waiting updates one poll takes.
pub open spec fn drained(updates: Seq<ProviderUpdate>) -> int {
    if updates.len() < DRAINED_UPDATES {
        updates.len() as int
    } else {
        DRAINED_UPDATES as int
    }
}

/// The last update, before `n`, that settles `ticket`.
pub open spec fn settling_update(
    updates: Seq<ProviderUpdate>,
    ticket: OperationTicket,
    n: nat,
) -> Option<ProviderOperation>
    decreases n,
{
    if n == 0 {
        None
    } else {
        let update = updates[n - 1];
        if update.ticket == Some(ticket) && !(update.result is Pending) {
            Some(ProviderOperation { ticket, kind: update.kind, result: update.result })
        } else {
            settling_update(updates, ticket, (n - 1) as nat)
        }
    }
}

/// What is known of `ticket` from the updates that were taken and from the snapshot.
pub open spec fn known_operation(
    updates: Seq<ProviderUpdate>,
    snapshot: ProviderSnapshot,
    ticket: OperationTicket,
) -> Option<ProviderOperation> {
    match settling_update(updates, ticket, updates.len()) {
        Some(operation) => Some(operation),
        None => find_operation(snapshot.retained_operations@, ticket, 0),
    }
}

fn find_settling_update(updates: &Vec<ProviderUpdate>, ticket: OperationTicket) -> (r: Option<
    ProviderOperation,
>)
    ensures
        r == settling_update(updates@, ticket, updates@.len()),
{
    let mut n: usize = updates.len();
    while n > 0
        invariant
            n <= updates@.len(),
            settling_update(updates@, ticket, updates@.len()) == settling_update(
                updates@,
                ticket,
                n as nat,
            ),
        decreases n,
    {
        let update = &updates[n - 1];
        let ours: bool = match update.ticket {
            Some(known) => known == ticket,
            None => false,
        };
        let pending: bool = match &update.result {
            ProviderOperationResult::Pending { .. } => true,
            _ => false,
        };
        if ours && !pending {
            return Some(
                ProviderOperation { ticket, kind: update.kind, result: update.result.clone() },
            );
        }
        n = n - 1;
    }
    None
}

impl PollState {
    /// The operation that this attachment waits for, once it is settled.
    pub open spec fn settled_in(
        self,
        updates: Seq<ProviderUpdate>,
        snapshot: ProviderSnapshot,
    ) -> Option<ProviderOperation> {
        match self.pending {
            None => None,
            Some(ticket) => match known_operation(updates, snapshot, ticket) {
                Some(operation) => if operation.result is Pending {
                    None
                } else {
                    Some(operation)
                },
                None => None,
            },
        }
    }

    /// Take the notifications of a provider, which keeps its queue bounded, and look for
    /// the operation that this attachment waits for. An update with the ticket comes first,
    /// so that a read cannot get stuck behind an unrelated operation; the snapshot, which
    /// retains recent results, is the fallback.
    pub fn take_settled(&self, runtime: &mut ProviderRuntimeHandle) -> (r: Option<
        ProviderOperation,
    >)
        requires
            old(runtime).wf(),
        ensures
            final(runtime).wf(),
            *final(runtime) == (ProviderRuntimeHandle {
                updates: final(runtime).updates,
                ..*old(runtime)
            }),
            final(runtime).updates@ == old(runtime).updates@.skip(
                drained(old(runtime).updates@),
            ),
            r == self.settled_in(
                old(runtime).updates@.take(drained(old(runtime).updates@)),
                *old(runtime).snapshot,
            ),
    {
        let updates = runtime.try_drain_updates(DRAINED_UPDATES);
        proof {
            let all = old(runtime).updates@;
            assert(updates@ =~= all.take(updates@.len() as int));
            assert(runtime.updates@ =~= all.skip(updates@.len() as int));
        }
        let ticket = match self.pending {
            Some(ticket) => ticket,
            None => {
                return None;
            },
        };
        let known = match find_settling_update(&updates, ticket) {
            Some(operation) => Some(operation),
            None => runtime.snapshot.operation_result(ticket),
        };
        match known {
            Some(operation) => {
                let pending: bool = match &operation.result {
                    ProviderOperationResult::Pending { .. } => true,
                    _ => false,
                };
                if pending {
                    None
                } else {
                    Some(operation)
                }
            },
            None => None,
        }
    }
}

/// The pause after the given number of failures in a row, from one to five: two seconds,
/// doubled with each further one.
pub open spec fn failure_pause(failures: u32) -> u64 {
    if failures <= 1 {
        2_000
    } else if failures == 2 {
        4_000
    } else if failures == 3 {
        8_000
    } else if failures == 4 {
        16_000
    } else {
        32_000
    }
}

fn pause_after(failures: u32) -> (r: u64)
    ensures
        r == failure_pause(failures),
{
    if failures <= 1 {
        2_000
    } else if failures == 2 {
        4_000
    } else if failures == 3 {
        8_000
    } else if failures == 4 {
        16_000
    } else {
        32_000
    }
}

/// A failure that reading again cannot mend.
pub open spec fn stops_reading(kind: ProviderFailureKind) -> bool {
    kind == ProviderFailureKind::IdentityMismatch || kind == ProviderFailureKind::Unsupported
        || kind == ProviderFailureKind::Rejected
}

/// Whether a reply asks for the next read at once.
pub open spec fn reads_on(reply: TranscriptReply) -> bool {
    reply.result is Reset || (reply.result matches TranscriptResult::Page { has_more, .. }
        && has_more)
}

impl PollState {
    /// The pending operation was answered.
    pub open spec fn answered(self, now: u64) -> Self {
        PollState { pending: None, next_read: later(now, READ_INTERVAL_MS), ..self }
    }

    /// The stream was attached, and its model was, or was not, put in place.
    pub open spec fn after_attached(self, in_place: bool, revision: u64, now: u64) -> Self {
        if in_place {
            PollState {
                transcript: false,
                cursor: None,
                pending: None,
                checkpoint_attached: true,
                failures: 0,
                next_read: now,
                checkpoint_content_revision: revision,
                ..self
            }
        } else {
            PollState { stopped: true, ..self.answered(now) }
        }
    }

    /// A batch of the stream was applied. After a close, the final model stays visible and
    /// the lifecycle is read from the source at once.
    pub open spec fn after_checkpoint(self, content_revision: u64, closed: bool, now: u64) -> Self {
        let read = PollState {
            failures: 0,
            next_read: later(now, CHECKPOINT_INTERVAL_MS),
            checkpoint_content_revision: content_revision,
            ..self.answered(now)
        };
        if closed {
            PollState {
                checkpoint: false,
                transcript: false,
                cursor: None,
                next_read: now,
                ..read
            }
        } else {
            read
        }
    }

    pub open spec fn after_health(self, now: u64) -> Self {
        PollState { health: false, failures: 0, next_read: now, ..self.answered(now) }
    }

    /// A transcript reply was applied, which left the text at `cursor`.
    pub open spec fn after_text(
        self,
        reply: TranscriptReply,
        cursor: Option<SourceCursor>,
        now: u64,
    ) -> Self {
        PollState {
            failures: 0,
            cursor,
            next_read: if reads_on(reply) {
                now
            } else {
                later(now, READ_INTERVAL_MS)
            },
            ..self.answered(now)
        }
    }

    pub open spec fn after_source(self, result: SourceResult, now: u64) -> Self {
        let read = PollState { failures: 0, ..self.answered(now) };
        match result {
            SourceResult::Snapshot { cursor, .. } => PollState { cursor: Some(cursor), ..read },
            SourceResult::Page { next_cursor } => match next_cursor {
                Some(cursor) => PollState { cursor: Some(cursor), ..read },
                None => read,
            },
            SourceResult::Reset => PollState { cursor: None, next_read: now, ..read },
        }
    }

    /// The daemon has no stream for this execution: its transcript is read instead.
    pub open spec fn falls_back(self, kind: ProviderFailureKind) -> bool {
        self.checkpoint && !self.checkpoint_attached && kind == ProviderFailureKind::Unsupported
    }

    /// The daemon has no transcript either: only its metadata is read.
    pub open spec fn metadata_only(self, kind: ProviderFailureKind) -> bool {
        !self.falls_back(kind) && self.transcript && kind == ProviderFailureKind::Unsupported
    }

    pub open spec fn after_failure(self, kind: ProviderFailureKind, now: u64) -> Self {
        let failures: u32 = if self.failures >= 5 {
            5
        } else {
            (self.failures + 1) as u32
        };
        let failed = PollState {
            checkpoint_attached: self.checkpoint_attached && !(self.checkpoint && kind
                == ProviderFailureKind::Disconnected),
            failures,
            next_read: later(now, failure_pause(failures)),
            stopped: stops_reading(kind),
            ..self.answered(now)
        };
        if self.falls_back(kind) {
            PollState {
                checkpoint: false,
                transcript: true,
                stopped: false,
                next_read: now,
                ..failed
            }
        } else if self.metadata_only(kind) {
            PollState {
                transcript: false,
                cursor: None,
                stopped: false,
                next_read: now,
                ..failed
            }
        } else {
            failed
        }
    }
}

/// What settling an operation came to, besides the state of the attachment: whether
/// something shown changed, whether the session is saved, whether what is shown can no
/// longer be trusted to follow the provider, and the text that explains it in place of a
/// failure's own message.
pub struct Told {
    pub changed: bool,
    pub persist: bool,
    pub projection_error: bool,
    pub diagnostic: Option<Seq<char>>,
}

/// What settling an operation came to, besides the state of the attachment.
struct Settlement {
    changed: bool,
    persist: bool,
    render: bool,
    projection_error: bool,
    diagnostic: Option<&'static str>,
}

impl Settlement {
    spec fn told(self) -> Told {
        Told {
            changed: self.changed,
            persist: self.persist,
            projection_error: self.projection_error,
            diagnostic: match self.diagnostic {
                Some(text) => Some(text@),
                None => None,
            },
        }
    }
}

pub open spec fn told(
    changed: bool,
    persist: bool,
    projection_error: bool,
    diagnostic: Option<Seq<char>>,
) -> Told {
    Told { changed, persist, projection_error, diagnostic }
}

impl ExternalTerminal {
    /// This terminal as it was observed at `now` by `contract`.
    pub open spec fn observed(self, contract: ObservedContract, now: u64) -> Self {
        ExternalTerminal {
            external_observed_at: Some(now),
            external_observed_contract: Some(contract),
            ..self
        }
    }

    /// The execution that this terminal shows.
    pub open spec fn execution(self) -> ManagedBinding {
        self.external_binding->0.execution
    }

    /// This terminal with the ledger of its execution pinned, where it was not yet.
    pub open spec fn pinned(self, source: SourceIdentity) -> Self {
        if self.execution().pinned_source is Some {
            self
        } else {
            ExternalTerminal {
                external_binding: Some(
                    ExternalBinding {
                        execution: ManagedBinding {
                            pinned_source: Some(source),
                            ..self.execution()
                        },
                        ..self.external_binding->0
                    },
                ),
                ..self
            }
        }
    }

    /// The text that a transcript reply is applied to: the one shown, or else an empty one
    /// of the bound execution.
    pub open spec fn text_before(self, projection: TranscriptProjection) -> bool {
        match self.external_transcript {
            Some(shown) => projection == shown,
            None => projection.starts(self.execution()),
        }
    }

    fn pin(&mut self, source: &SourceIdentity) -> (r: bool)
        requires
            old(self).external_binding is Some,
        ensures
            *final(self) == old(self).pinned(*source),
            r == (old(self).execution().pinned_source is None),
    {
        let mut pinned: bool = false;
        if let Some(binding) = self.external_binding.take() {
            let mut binding = binding;
            if binding.execution.pinned_source.is_none() {
                binding.execution.pinned_source = Some(source.clone());
                pinned = true;
            }
            self.external_binding = Some(binding);
        }
        pinned
    }
}

pub open spec fn model_not_attached() -> Seq<char> {
    "Provider checkpoint model could not be attached to the terminal."@
}

pub open spec fn transcript_refused() -> Seq<char> {
    "Transcript identity or cursor validation failed; reopen the attachment after checking its binding."@
}

pub open spec fn using_transcript() -> Seq<char> {
    "Provider does not expose checkpoint terminal output; using transcript fallback."@
}

pub open spec fn offers_metadata_only() -> Seq<char> {
    "Provider offers metadata only; transcript output is unavailable."@
}

impl PollState {
    fn settle_attached(
        &mut self,
        terminal: &mut ExternalTerminal,
        in_place: bool,
        revision: u64,
        now: u64,
    ) -> (r: Settlement)
        ensures
            *final(self) == old(self).after_attached(in_place, revision, now),
            *final(terminal) == (if in_place {
                ExternalTerminal { external_transcript: None, ..*old(terminal) }.observed(
                    ObservedContract::Checkpoint,
                    now,
                )
            } else {
                *old(terminal)
            }),
            r.render == in_place,
            r.told() == told(
                in_place,
                false,
                !in_place,
                if in_place {
                    None
                } else {
                    Some(model_not_attached())
                },
            ),
    {
        self.pending = None;
        self.next_read = now.saturating_add(READ_INTERVAL_MS);
        if in_place {
            self.transcript = false;
            self.cursor = None;
            self.checkpoint_attached = true;
            self.failures = 0;
            self.next_read = now;
            self.checkpoint_content_revision = revision;
            terminal.external_transcript = None;
            terminal.external_observed_at = Some(now);
            terminal.external_observed_contract = Some(ObservedContract::Checkpoint);
            Settlement {
                changed: true,
                persist: false,
                render: true,
                projection_error: false,
                diagnostic: None,
            }
        } else {
            self.stopped = true;
            Settlement {
                changed: false,
                persist: false,
                render: false,
                projection_error: true,
                diagnostic: Some(
                    "Provider checkpoint model could not be attached to the terminal.",
                ),
            }
        }
    }

    fn settle_checkpoint(
        &mut self,
        terminal: &mut ExternalTerminal,
        content_revision: u64,
        checkpoint: &Option<Arc<ExternalCheckpointState>>,
        closed: bool,
        now: u64,
    ) -> (r: Settlement)
        ensures
            *final(self) == old(self).after_checkpoint(content_revision, closed, now),
            *final(terminal) == (ExternalTerminal {
                external_observed_at: Some(now),
                external_checkpoint: if *checkpoint is Some {
                    *checkpoint
                } else {
                    old(terminal).external_checkpoint
                },
                ..*old(terminal)
            }),
            !r.render,
            r.told() == told(
                old(self).checkpoint_content_revision != content_revision,
                *checkpoint is Some,
                false,
                None,
            ),
    {
        self.pending = None;
        self.failures = 0;
        self.next_read = now.saturating_add(CHECKPOINT_INTERVAL_MS);
        terminal.external_observed_at = Some(now);
        let changed: bool = self.checkpoint_content_revision != content_revision;
        self.checkpoint_content_revision = content_revision;
        let persist: bool = checkpoint.is_some();
        if persist {
            terminal.external_checkpoint = share(checkpoint);
        }
        if closed {
            self.checkpoint = false;
            self.transcript = false;
            self.cursor = None;
            self.next_read = now;
        }
        Settlement { changed, persist, render: false, projection_error: false, diagnostic: None }
    }

    fn settle_health(&mut self, terminal: &mut ExternalTerminal, now: u64) -> (r: Settlement)
        ensures
            *final(self) == old(self).after_health(now),
            *final(terminal) == old(terminal).observed(ObservedContract::Health, now),
            !r.render,
            r.told() == told(true, false, false, None),
    {
        self.pending = None;
        self.health = false;
        self.failures = 0;
        self.next_read = now;
        terminal.external_observed_at = Some(now);
        terminal.external_observed_contract = Some(ObservedContract::Health);
        Settlement {
            changed: true,
            persist: false,
            render: false,
            projection_error: false,
            diagnostic: None,
        }
    }

    fn settle_transcript(
        &mut self,
        terminal: &mut ExternalTerminal,
        reply: &TranscriptReply,
        runtime_generation: u64,
        verdict: Result<(), ContractError>,
        now: u64,
    ) -> (r: Settlement)
        requires
            old(terminal).wf(),
            old(terminal).external_binding is Some,
            verdict is Ok ==> reply.chunks().len() <= u16::MAX,
        ensures
            final(terminal).wf(),
            !r.render,
            exists|before: TranscriptProjection| #[trigger]
                old(terminal).text_before(before) && if before.apply_error(
                    *reply,
                    runtime_generation,
                    verdict,
                ) is Some {
                    &&& *final(self) == (PollState { stopped: true, ..old(self).answered(now) })
                    &&& *final(terminal) == (ExternalTerminal {
                        external_transcript: None,
                        ..*old(terminal)
                    })
                    &&& r.told() == told(true, false, true, Some(transcript_refused()))
                } else {
                    &&& final(terminal).external_transcript matches Some(after)
                    &&& before.becomes(*reply, after)
                    &&& *final(self) == old(self).after_text(*reply, after.position(), now)
                    &&& *final(terminal) == (ExternalTerminal {
                        external_transcript: Some(after),
                        ..old(terminal).pinned(reply.source).observed(
                            ObservedContract::Transcript,
                            now,
                        )
                    })
                    &&& r.told() == told(
                        after.revision() != before.revision(),
                        old(terminal).execution().pinned_source is None,
                        false,
                        None,
                    )
                },
    {
        self.pending = None;
        self.next_read = now.saturating_add(READ_INTERVAL_MS);
        let shown = terminal.external_transcript.take();
        let mut projection: TranscriptProjection = match shown {
            Some(shown) => shown,
            None => {
                let execution = match &terminal.external_binding {
                    Some(binding) => binding.execution.clone(),
                    None => {
                        // A terminal that is being read is always bound.
                        self.stopped = true;
                        return Settlement {
                            changed: true,
                            persist: false,
                            render: false,
                            projection_error: true,
                            diagnostic: None,
                        };
                    },
                };
                TranscriptProjection::new(execution)
            },
        };
        let ghost before = projection;
        assert(old(terminal).text_before(before));
        let revision: u64 = projection.content_revision();
        match projection.apply(reply, runtime_generation, verdict) {
            Ok(_) => {
                self.failures = 0;
                self.cursor = match projection.cursor() {
                    Some(cursor) => Some(cursor.clone()),
                    None => None,
                };
                let changed: bool = projection.content_revision() != revision;
                terminal.external_transcript = Some(projection);
                terminal.external_observed_at = Some(now);
                terminal.external_observed_contract = Some(ObservedContract::Transcript);
                let persist: bool = terminal.pin(&reply.source);
                let read_on: bool = match &reply.result {
                    TranscriptResult::Reset => true,
                    TranscriptResult::Page { has_more, .. } => *has_more,
                    TranscriptResult::Snapshot { .. } => false,
                };
                if read_on {
                    self.next_read = now;
                }
                Settlement {
                    changed,
                    persist,
                    render: false,
                    projection_error: false,
                    diagnostic: None,
                }
            },
            Err(_) => {
                self.stopped = true;
                Settlement {
                    changed: true,
                    persist: false,
                    render: false,
                    projection_error: true,
                    diagnostic: Some(
                        "Transcript identity or cursor validation failed; reopen the attachment after checking its binding.",
                    ),
                }
            },
        }
    }

    fn settle_source(
        &mut self,
        terminal: &mut ExternalTerminal,
        source: &SourceIdentity,
        result: &SourceResult,
        now: u64,
    ) -> (r: Settlement)
        requires
            old(terminal).external_binding is Some,
        ensures
            *final(self) == old(self).after_source(*result, now),
            *final(terminal) == (if *result is Snapshot {
                old(terminal).pinned(*source)
            } else {
                *old(terminal)
            }).observed(ObservedContract::Source, now),
            !r.render,
            r.told() == told(
                false,
                *result is Snapshot && old(terminal).execution().pinned_source is None,
                false,
                None,
            ),
    {
        self.pending = None;
        self.failures = 0;
        self.next_read = now.saturating_add(READ_INTERVAL_MS);
        terminal.external_observed_at = Some(now);
        terminal.external_observed_contract = Some(ObservedContract::Source);
        let mut persist: bool = false;
        match result {
            SourceResult::Snapshot { cursor, .. } => {
                self.cursor = Some(cursor.clone());
                persist = terminal.pin(source);
            },
            SourceResult::Page { next_cursor } => {
                if let Some(cursor) = next_cursor {
                    self.cursor = Some(cursor.clone());
                }
            },
            SourceResult::Reset => {
                self.cursor = None;
                self.next_read = now;
            },
        }
        Settlement {
            changed: false,
            persist,
            render: false,
            projection_error: false,
            diagnostic: None,
        }
    }

    /// Whether a failure takes the shown text away.
    pub open spec fn clears_text(self, kind: ProviderFailureKind) -> bool {
        self.metadata_only(kind) || (!self.falls_back(kind) && kind
            == ProviderFailureKind::IdentityMismatch)
    }

    /// What a failure is explained with in place of its own message.
    pub open spec fn failure_text(self, kind: ProviderFailureKind) -> Option<Seq<char>> {
        if self.falls_back(kind) {
            Some(using_transcript())
        } else if self.metadata_only(kind) {
            Some(offers_metadata_only())
        } else {
            None
        }
    }

    fn settle_failure(
        &mut self,
        terminal: &mut ExternalTerminal,
        kind: ProviderFailureKind,
        now: u64,
    ) -> (r: Settlement)
        ensures
            *final(self) == old(self).after_failure(kind, now),
            *final(terminal) == (if old(self).clears_text(kind) {
                ExternalTerminal { external_transcript: None, ..*old(terminal) }
            } else {
                *old(terminal)
            }),
            !r.render,
            r.told() == told(
                old(self).falls_back(kind) || old(self).clears_text(kind),
                false,
                false,
                old(self).failure_text(kind),
            ),
    {
        self.pending = None;
        if self.checkpoint && kind == ProviderFailureKind::Disconnected {
            self.checkpoint_attached = false;
        }
        if self.failures >= 5 {
            self.failures = 5;
        } else {
            self.failures = self.failures + 1;
        }
        self.next_read = now.saturating_add(pause_after(self.failures));
        let unsupported: bool = kind == ProviderFailureKind::Unsupported;
        self.stopped = unsupported || kind == ProviderFailureKind::IdentityMismatch || kind
            == ProviderFailureKind::Rejected;
        let mut settlement = Settlement {
            changed: false,
            persist: false,
            render: false,
            projection_error: false,
            diagnostic: None,
        };
        if self.checkpoint && !self.checkpoint_attached && unsupported {
            // The empty text stays installed while the first transcript page is fetched, so
            // that a pane just made does not report its transcript as unavailable.
            self.checkpoint = false;
            self.transcript = true;
            self.stopped = false;
            self.next_read = now;
            settlement.diagnostic = Some(
                "Provider does not expose checkpoint terminal output; using transcript fallback.",
            );
            settlement.changed = true;
        } else if self.transcript && unsupported {
            self.transcript = false;
            self.cursor = None;
            self.stopped = false;
            self.next_read = now;
            terminal.external_transcript = None;
            settlement.diagnostic = Some(
                "Provider offers metadata only; transcript output is unavailable.",
            );
            settlement.changed = true;
        } else if kind == ProviderFailureKind::IdentityMismatch {
            terminal.external_transcript = None;
            settlement.changed = true;
        }
        settlement
    }
}

/// What is shown of a provider: the facts of its snapshot, with the connection, the
/// diagnostic and the writer state as given.
pub open spec fn shows(
    observation: ProviderObservation,
    snapshot: ProviderSnapshot,
    connection: ProviderConnection,
    diagnostic: Option<Seq<char>>,
    writer_state: Option<WriterState>,
) -> bool {
    &&& observation.lifecycle == snapshot.lifecycle
    &&& observation.activity == snapshot.activity
    &&& observation.connection == connection
    &&& observation.durability == snapshot.durability
    &&& match (observation.diagnostic, diagnostic) {
        (Some(a), Some(b)) => a@ == b,
        (None, None) => true,
        _ => false,
    }
    &&& observation.writer_state == writer_state
}

/// The state of the writer behind the last source reply.
pub open spec fn source_writer(snapshot: ProviderSnapshot) -> Option<WriterState> {
    match snapshot.source {
        Some(reply) => Some(reply.health.writer_state),
        None => None,
    }
}

fn writer_of(snapshot: &ProviderSnapshot) -> (r: Option<WriterState>)
    ensures
        r == source_writer(*snapshot),
{
    match &snapshot.source {
        Some(reply) => Some(reply.health.writer_state),
        None => None,
    }
}

pub open spec fn result_writer(
    result: ProviderOperationResult,
    snapshot: ProviderSnapshot,
) -> Option<WriterState> {
    match result {
        ProviderOperationResult::Transcript(reply) => Some(reply.health.writer_state),
        _ => source_writer(snapshot),
    }
}

/// The text that explains an operation's outcome, if any does.
pub open spec fn explanation(told: Told, result: ProviderOperationResult) -> Option<Seq<char>> {
    match told.diagnostic {
        Some(text) => Some(text),
        None => match result {
            ProviderOperationResult::Failure(failure) => Some(failure.message@),
            _ => None,
        },
    }
}

impl ExternalTerminal {
    /// Whether this terminal already shows what `observation` says.
    pub open spec fn already_shows(self, observation: ProviderObservation) -> bool {
        self.external_observation matches Some(known) && known.same_as(observation)
    }

    /// `after` is this terminal showing `observation`.
    pub open spec fn now_shows(self, observation: ProviderObservation, after: Self) -> bool {
        after == (if self.already_shows(observation) {
            self
        } else {
            ExternalTerminal { external_observation: Some(observation), ..self }
        })
    }

    fn show(&mut self, observation: ProviderObservation) -> (r: bool)
        ensures
            old(self).now_shows(observation, *final(self)),
            r == !old(self).already_shows(observation),
    {
        let unchanged: bool = match &self.external_observation {
            Some(known) => known.equals(&observation),
            None => false,
        };
        if !unchanged {
            self.external_observation = Some(observation);
        }
        !unchanged
    }
}

/// `shown` is the terminal `after` with `observation`, which is what a settled operation
/// shows of the provider.
pub open spec fn presents(
    after: ExternalTerminal,
    said: Told,
    observation: ProviderObservation,
    snapshot: ProviderSnapshot,
    result: ProviderOperationResult,
    shown: ExternalTerminal,
) -> bool {
    &&& shows(
        observation,
        snapshot,
        if said.projection_error {
            ProviderConnection::Disconnected
        } else {
            snapshot.connection
        },
        explanation(said, result),
        result_writer(result, snapshot),
    )
    &&& after.now_shows(observation, shown)
}

impl PollState {
    /// What a settled operation makes of an attachment, apart from the observation that is
    /// shown of it. `in_place` says whether the terminal model of a new attachment was put
    /// in place, and `verdict` is the daemon client's verdict on a transcript reply.
    pub open spec fn settles(
        self,
        before: ExternalTerminal,
        result: ProviderOperationResult,
        runtime_generation: u64,
        in_place: bool,
        verdict: Result<(), ContractError>,
        now: u64,
        poll: PollState,
        after: ExternalTerminal,
        said: Told,
    ) -> bool {
        match result {
            ProviderOperationResult::CheckpointAttached(attached) => {
                &&& poll == self.after_attached(in_place, attached.content_revision, now)
                &&& after == (if in_place {
                    ExternalTerminal { external_transcript: None, ..before }.observed(
                        ObservedContract::Checkpoint,
                        now,
                    )
                } else {
                    before
                })
                &&& said == told(
                    in_place,
                    false,
                    !in_place,
                    if in_place {
                        None
                    } else {
                        Some(model_not_attached())
                    },
                )
            },
            ProviderOperationResult::Checkpoint(update) => {
                &&& poll == self.after_checkpoint(update.content_revision, update.closed, now)
                &&& after == (ExternalTerminal {
                    external_observed_at: Some(now),
                    external_checkpoint: if update.checkpoint is Some {
                        update.checkpoint
                    } else {
                        before.external_checkpoint
                    },
                    ..before
                })
                &&& said == told(
                    self.checkpoint_content_revision != update.content_revision,
                    update.checkpoint is Some,
                    false,
                    None,
                )
            },
            ProviderOperationResult::Health(_) => {
                &&& poll == self.after_health(now)
                &&& after == before.observed(ObservedContract::Health, now)
                &&& said == told(true, false, false, None)
            },
            ProviderOperationResult::Transcript(reply) => exists|text: TranscriptProjection|
                #[trigger] before.text_before(text) && if text.apply_error(
                    *reply,
                    runtime_generation,
                    verdict,
                ) is Some {
                    &&& poll == (PollState { stopped: true, ..self.answered(now) })
                    &&& after == (ExternalTerminal { external_transcript: None, ..before })
                    &&& said == told(true, false, true, Some(transcript_refused()))
                } else {
                    &&& after.external_transcript matches Some(applied)
                    &&& text.becomes(*reply, applied)
                    &&& poll == self.after_text(*reply, applied.position(), now)
                    &&& after == (ExternalTerminal {
                        external_transcript: Some(applied),
                        ..before.pinned(reply.source).observed(ObservedContract::Transcript, now)
                    })
                    &&& said == told(
                        applied.revision() != text.revision(),
                        before.execution().pinned_source is None,
                        false,
                        None,
                    )
                },
            ProviderOperationResult::Source(reply) => {
                &&& poll == self.after_source(reply.result, now)
                &&& after == (if reply.result is Snapshot {
                    before.pinned(reply.source)
                } else {
                    before
                }).observed(ObservedContract::Source, now)
                &&& said == told(
                    false,
                    reply.result is Snapshot && before.execution().pinned_source is None,
                    false,
                    None,
                )
            },
            ProviderOperationResult::Failure(failure) => {
                &&& poll == self.after_failure(failure.kind, now)
                &&& after == (if self.clears_text(failure.kind) {
                    ExternalTerminal { external_transcript: None, ..before }
                } else {
                    before
                })
                &&& said == told(
                    self.falls_back(failure.kind) || self.clears_text(failure.kind),
                    false,
                    false,
                    self.failure_text(failure.kind),
                )
            },
            _ => {
                &&& poll == self.answered(now)
                &&& after == before
                &&& said == told(false, false, false, None)
            },
        }
    }

    /// A settled operation leads to `poll`, to what `shown` shows, and to `report`.
    pub open spec fn reports(
        self,
        before: ExternalTerminal,
        snapshot: ProviderSnapshot,
        result: ProviderOperationResult,
        in_place: bool,
        verdict: Result<(), ContractError>,
        now: u64,
        poll: PollState,
        shown: ExternalTerminal,
        report: PollReport,
    ) -> bool {
        exists|after: ExternalTerminal, said: Told, observation: ProviderObservation|
            self.settles(
                before,
                result,
                snapshot.runtime_generation,
                in_place,
                verdict,
                now,
                poll,
                after,
                said,
            ) && #[trigger] presents(after, said, observation, snapshot, result, shown) && report
                == (PollReport {
                changed: said.changed || !after.already_shows(observation),
                persist: said.persist,
                render: result is CheckpointAttached && in_place,
            })
    }

    /// Settle the operation that an attachment waited for: bring its text, its position and
    /// its schedule up to date, and show what is now known of the provider.
    pub fn settle(
        &mut self,
        terminal: &mut ExternalTerminal,
        snapshot: &ProviderSnapshot,
        operation: &ProviderOperation,
        in_place: bool,
        verdict: Result<(), ContractError>,
        now: u64,
    ) -> (r: PollReport)
        requires
            old(terminal).wf(),
            old(terminal).external_binding is Some,
            verdict is Ok ==> (operation.result matches ProviderOperationResult::Transcript(reply)
                ==> reply.chunks().len() <= u16::MAX),
        ensures
            final(terminal).wf(),
            final(terminal).external_binding is Some,
            old(self).reports(
                *old(terminal),
                *snapshot,
                operation.result,
                in_place,
                verdict,
                now,
                *final(self),
                *final(terminal),
                r,
            ),
    {
        let settlement: Settlement = match &operation.result {
            ProviderOperationResult::CheckpointAttached(attached) => self.settle_attached(
                terminal,
                in_place,
                attached.content_revision,
                now,
            ),
            ProviderOperationResult::Checkpoint(update) => self.settle_checkpoint(
                terminal,
                update.content_revision,
                &update.checkpoint,
                update.closed,
                now,
            ),
            ProviderOperationResult::Health(_) => self.settle_health(terminal, now),
            ProviderOperationResult::Transcript(reply) => self.settle_transcript(
                terminal,
                reply,
                snapshot.runtime_generation,
                verdict,
                now,
            ),
            ProviderOperationResult::Source(reply) => self.settle_source(
                terminal,
                &reply.source,
                &reply.result,
                now,
            ),
            ProviderOperationResult::Failure(failure) => self.settle_failure(
                terminal,
                failure.kind,
                now,
            ),
            _ => {
                self.pending = None;
                self.next_read = now.saturating_add(READ_INTERVAL_MS);
                Settlement {
                    changed: false,
                    persist: false,
                    render: false,
                    projection_error: false,
                    diagnostic: None,
                }
            },
        };
        let ghost after = *terminal;
        let ghost said = settlement.told();
        assert(old(self).settles(
            *old(terminal),
            operation.result,
            snapshot.runtime_generation,
            in_place,
            verdict,
            now,
            *self,
            after,
            said,
        ));
        let diagnostic: Option<String> = match settlement.diagnostic {
            Some(text) => Some(text.to_owned()),
            None => match &operation.result {
                ProviderOperationResult::Failure(failure) => Some(failure.message.clone()),
                _ => None,
            },
        };
        let writer_state: Option<WriterState> = match &operation.result {
            ProviderOperationResult::Transcript(reply) => Some(reply.health.writer_state),
            _ => writer_of(snapshot),
        };
        let observation = ProviderObservation {
            lifecycle: snapshot.lifecycle,
            activity: snapshot.activity,
            connection: if settlement.projection_error {
                ProviderConnection::Disconnected
            } else {
                snapshot.connection
            },
            durability: snapshot.durability,
            diagnostic,
            writer_state,
        };
        let ghost shown = observation;
        let differs: bool = terminal.show(observation);
        assert(presents(after, said, shown, *snapshot, operation.result, *terminal));
        PollReport {
            changed: settlement.changed || differs,
            persist: settlement.persist,
            render: settlement.render,
        }
    }
}

impl PollState {
    /// Whether an attachment is read now.
    pub open spec fn reads_now(self, now: u64) -> bool {
        !self.stopped && self.pending is None && now >= self.next_read
    }

    /// The command that an attachment is read with: its health first, then the typed
    /// stream, the transcript or the source.
    pub open spec fn next_command(
        self,
        terminal_id: Seq<char>,
        terminal: ExternalTerminal,
        command: ProviderCommand,
    ) -> bool {
        let binding = terminal.execution();
        if self.health {
            command == ProviderCommand::Health
        } else if self.checkpoint && !self.checkpoint_attached {
            command matches ProviderCommand::AttachCheckpoint {
                binding: b,
                attachment_id,
                checkpoint,
            } && b == binding && attachment_id@ == terminal_id && checkpoint
                == terminal.external_checkpoint
        } else if self.checkpoint {
            command == (ProviderCommand::ReadCheckpoint { binding })
        } else if self.transcript {
            command == (ProviderCommand::ReadTranscript {
                binding,
                cursor: self.cursor,
                limit: TRANSCRIPT_READ_CHUNKS,
            })
        } else {
            command == (ProviderCommand::ReadSource {
                binding,
                cursor: self.cursor,
                limit: SOURCE_READ_EVENTS,
            })
        }
    }

    /// The command to submit for an attachment, if it is read now.
    pub fn due_command(&self, terminal_id: &str, terminal: &ExternalTerminal, now: u64) -> (r:
        Option<ProviderCommand>)
        requires
            terminal.external_binding is Some,
        ensures
            r is Some <==> self.reads_now(now),
            r matches Some(command) ==> self.next_command(terminal_id@, *terminal, command),
    {
        if self.stopped || self.pending.is_some() || now < self.next_read {
            return None;
        }
        if self.health {
            return Some(ProviderCommand::Health);
        }
        let binding = match &terminal.external_binding {
            Some(binding) => binding.execution.clone(),
            None => {
                return None;
            },
        };
        if self.checkpoint && !self.checkpoint_attached {
            Some(
                ProviderCommand::AttachCheckpoint {
                    binding,
                    attachment_id: terminal_id.to_owned(),
                    checkpoint: share(&terminal.external_checkpoint),
                },
            )
        } else if self.checkpoint {
            Some(ProviderCommand::ReadCheckpoint { binding })
        } else if self.transcript {
            Some(
                ProviderCommand::ReadTranscript {
                    binding,
                    cursor: self.cursor.clone(),
                    limit: TRANSCRIPT_READ_CHUNKS,
                },
            )
        } else {
            Some(
                ProviderCommand::ReadSource {
                    binding,
                    cursor: self.cursor.clone(),
                    limit: SOURCE_READ_EVENTS,
                },
            )
        }
    }

    /// A refusal after which the provider can no longer be read.
    pub open spec fn lost(error: SubmitError) -> bool {
        error == SubmitError::Disconnected || error == SubmitError::IdentityMismatch
    }

    pub open spec fn loss_text(error: SubmitError) -> Seq<char> {
        if error == SubmitError::IdentityMismatch {
            "provider binding changed; observation is stale"@
        } else {
            "provider worker is unavailable; observation is stale"@
        }
    }

    /// What came of submitting the due command leads to `poll` and to what `after` shows,
    /// which is something new where `changed` says so.
    pub open spec fn records(
        self,
        before: ExternalTerminal,
        submitted: Result<OperationTicket, SubmitError>,
        snapshot: ProviderSnapshot,
        now: u64,
        poll: PollState,
        after: ExternalTerminal,
        changed: bool,
    ) -> bool {
        match submitted {
            Ok(ticket) => {
                &&& !changed
                &&& poll == (PollState { pending: Some(ticket), ..self })
                &&& after == before
            },
            Err(error) => if PollState::lost(error) {
                &&& poll == (PollState { stopped: true, ..self })
                &&& exists|observation: ProviderObservation|
                    shows(
                        observation,
                        snapshot,
                        ProviderConnection::Disconnected,
                        Some(PollState::loss_text(error)),
                        source_writer(snapshot),
                    ) && #[trigger] before.now_shows(observation, after) && changed
                        == !before.already_shows(observation)
            } else {
                &&& !changed
                &&& poll == (PollState { next_read: later(now, READ_INTERVAL_MS), ..self })
                &&& after == before
            },
        }
    }

    /// Take note of what came of submitting the due command. Where the worker is gone or the
    /// binding is fenced, reading stops and the last observation is marked as stale, so that
    /// it is not shown as current forever. A provider that is busy is tried again later.
    pub fn record_submission(
        &mut self,
        terminal: &mut ExternalTerminal,
        submitted: Result<OperationTicket, SubmitError>,
        snapshot: &ProviderSnapshot,
        now: u64,
    ) -> (r: bool)
        ensures
            old(self).records(
                *old(terminal),
                submitted,
                *snapshot,
                now,
                *final(self),
                *final(terminal),
                r,
            ),
    {
        match submitted {
            Ok(ticket) => {
                self.pending = Some(ticket);
                false
            },
            Err(error) => {
                let diagnostic: &'static str = match error {
                    SubmitError::IdentityMismatch => {
                        "provider binding changed; observation is stale"
                    },
                    SubmitError::Disconnected => {
                        "provider worker is unavailable; observation is stale"
                    },
                    _ => {
                        self.next_read = now.saturating_add(READ_INTERVAL_MS);
                        return false;
                    },
                };
                self.stopped = true;
                let observation = ProviderObservation {
                    lifecycle: snapshot.lifecycle,
                    activity: snapshot.activity,
                    connection: ProviderConnection::Disconnected,
                    durability: snapshot.durability,
                    diagnostic: Some(diagnostic.to_owned()),
                    writer_state: writer_of(snapshot),
                };
                let ghost shown = observation;
                let differs: bool = terminal.show(observation);
                assert(old(terminal).now_shows(shown, *terminal));
                differs
            },
        }
    }
}

/// A provider that can no longer be read is never shown as connected, and is not read
/// again.
pub proof fn lost_provider_is_shown_as_disconnected(
    before: ExternalTerminal,
    after: ExternalTerminal,
    snapshot: ProviderSnapshot,
    observation: ProviderObservation,
    error: SubmitError,
)
    requires
        PollState::lost(error),
        shows(
            observation,
            snapshot,
            ProviderConnection::Disconnected,
            Some(PollState::loss_text(error)),
            source_writer(snapshot),
        ),
        before.now_shows(observation, after),
    ensures
        after.external_observation matches Some(shown) && shown.connection
            == ProviderConnection::Disconnected && shown.diagnostic is Some,
{
}

/// A fresh attachment asks for its provider's health, then for its terminal's stream.
pub proof fn attachments_begin_with_health_and_stream(
    poll: PollState,
    now: u64,
    id: Seq<char>,
    terminal: ExternalTerminal,
    command: ProviderCommand,
)
    requires
        poll.starts_at(now),
        poll.next_command(id, terminal, command),
    ensures
        command is Health,
        poll.reads_now(now),
        poll.after_health(now).next_read == now,
        !poll.after_health(now).health,
        poll.after_health(now).checkpoint && !poll.after_health(now).checkpoint_attached,
        !poll.after_health(now).stopped && poll.after_health(now).pending is None,
{
}

/// What is asked for next: health until it was told, then to attach the stream until it is
/// attached, then the stream, the transcript where there is no stream, or the source alone. Each
/// goes to the terminal's own execution and continues where the reader stands.
pub proof fn readers_ask_for_the_next_thing(
    poll: PollState,
    id: Seq<char>,
    terminal: ExternalTerminal,
    command: ProviderCommand,
)
    requires
        poll.next_command(id, terminal, command),
    ensures
        poll.health <==> command is Health,
        !poll.health && poll.checkpoint && !poll.checkpoint_attached <==> command is AttachCheckpoint,
        !poll.health && poll.checkpoint && poll.checkpoint_attached <==> command is ReadCheckpoint,
        !poll.health && !poll.checkpoint && poll.transcript <==> command is ReadTranscript,
        !poll.health && !poll.checkpoint && !poll.transcript <==> command is ReadSource,
        command matches ProviderCommand::AttachCheckpoint { binding, attachment_id, checkpoint }
            ==> binding == terminal.external_binding->0.execution && attachment_id@ == id
            && checkpoint == terminal.external_checkpoint,
        command matches ProviderCommand::ReadCheckpoint { binding } ==> binding
            == terminal.external_binding->0.execution,
        command matches ProviderCommand::ReadTranscript { binding, cursor, limit } ==> binding
            == terminal.external_binding->0.execution && cursor == poll.cursor && limit == 32,
        command matches ProviderCommand::ReadSource { binding, cursor, limit } ==> binding
            == terminal.external_binding->0.execution && cursor == poll.cursor && limit == 128,
{
}

/// A reader asks only when it is due, when nothing is outstanding, and when it has not stopped.
pub proof fn readers_ask_one_thing_at_a_time(poll: PollState, now: u64)
    ensures
        poll.reads_now(now) <==> !poll.stopped && poll.pending is None && poll.next_read <= now,
        poll.pending is None ==> poll.due(now) == poll.next_read,
        poll.pending is Some && now <= u64::MAX - 100 ==> poll.due(now) == now + 100,
{
}

proof fn lemma_settling_update(updates: Seq<ProviderUpdate>, ticket: OperationTicket, n: nat)
    requires
        n <= updates.len(),
    ensures
        settling_update(updates, ticket, n) matches Some(operation) ==> operation.ticket == ticket
            && !(operation.result is Pending) && exists|i: int|
            0 <= i < n && (#[trigger] updates[i]).ticket == Some(ticket) && updates[i].result
                == operation.result && updates[i].kind == operation.kind && forall|j: int|
                i < j < n ==> (#[trigger] updates[j]).ticket != Some(ticket)
                    || updates[j].result is Pending,
        settling_update(updates, ticket, n) is None ==> forall|i: int|
            0 <= i < n ==> (#[trigger] updates[i]).ticket != Some(ticket)
                || updates[i].result is Pending,
    decreases n,
{
    if n > 0 {
        lemma_settling_update(updates, ticket, (n - 1) as nat);
        let last = updates[n - 1];
        if last.ticket == Some(ticket) && !(last.result is Pending) {
            assert(updates[n - 1].ticket == Some(ticket));
        } else if let Some(operation) = settling_update(updates, ticket, (n - 1) as nat) {
            let i = choose|i: int|
                0 <= i < n - 1 && (#[trigger] updates[i]).ticket == Some(ticket)
                    && updates[i].result == operation.result && updates[i].kind == operation.kind
                    && forall|j: int|
                    i < j < n - 1 ==> (#[trigger] updates[j]).ticket != Some(ticket)
                        || updates[j].result is Pending;
            assert(updates[i].ticket == Some(ticket));
        }
    }
}

/// An answer settles a read only under the read's own ticket, and the latest such answer does;
/// what is still pending settles nothing, and a reader that waits for nothing is settled by
/// nothing.
pub proof fn answers_settle_their_own_read(
    poll: PollState,
    updates: Seq<ProviderUpdate>,
    snapshot: ProviderSnapshot,
)
    ensures
        poll.pending is None ==> poll.settled_in(updates, snapshot) is None,
        poll.settled_in(updates, snapshot) matches Some(operation) ==> !(operation.result is Pending),
        poll.pending matches Some(ticket) ==> forall|i: int|
            0 <= i < updates.len() && (#[trigger] updates[i]).ticket == Some(ticket) && !(
            updates[i].result is Pending) && (forall|j: int|
                i < j < updates.len() ==> (#[trigger] updates[j]).ticket != Some(ticket)
                    || updates[j].result is Pending) ==> (
            poll.settled_in(updates, snapshot) matches Some(operation) && operation.ticket == ticket
                && operation.result == updates[i].result && operation.kind == updates[i].kind),
{
    if let Some(ticket) = poll.pending {
        lemma_settling_update(updates, ticket, updates.len());
        assert forall|i: int|
            0 <= i < updates.len() && (#[trigger] updates[i]).ticket == Some(ticket) && !(
            updates[i].result is Pending) && (forall|j: int|
                i < j < updates.len() ==> (#[trigger] updates[j]).ticket != Some(ticket)
                    || updates[j].result is Pending) implies (
        poll.settled_in(updates, snapshot) matches Some(operation) && operation.ticket == ticket
            && operation.result == updates[i].result && operation.kind == updates[i].kind) by {
            let operation = settling_update(updates, ticket, updates.len())->0;
            let k = choose|k: int|
                0 <= k < updates.len() && (#[trigger] updates[k]).ticket == Some(ticket)
                    && updates[k].result == operation.result && updates[k].kind == operation.kind
                    && forall|j: int|
                    k < j < updates.len() ==> (#[trigger] updates[j]).ticket != Some(ticket)
                        || updates[j].result is Pending;
            assert(k == i);
        }
    }
}

/// After a failure a reader waits twice as long as after the one before, from two seconds to
/// half a minute, and success makes it start over.
pub proof fn failing_readers_back_off(poll: PollState, kind: ProviderFailureKind, now: u64)
    requires
        poll.failures <= 5,
        now <= u64::MAX - 100_000,
        kind is Disconnected || kind is Busy || kind is Failed,
    ensures
        ({
            let after = poll.after_failure(kind, now);
            &&& poll.failures < 5 ==> after.failures == poll.failures + 1
            &&& poll.failures == 5 ==> after.failures == 5
            &&& poll.failures == 0 ==> after.next_read == now + 2_000
            &&& poll.failures == 1 ==> after.next_read == now + 4_000
            &&& poll.failures == 2 ==> after.next_read == now + 8_000
            &&& poll.failures == 3 ==> after.next_read == now + 16_000
            &&& poll.failures >= 4 ==> after.next_read == now + 32_000
            &&& after.pending is None
            &&& !after.stopped
            &&& after.checkpoint == poll.checkpoint && after.transcript == poll.transcript
            &&& kind is Disconnected && poll.checkpoint ==> !after.checkpoint_attached
            &&& !(kind is Disconnected) ==> after.checkpoint_attached == poll.checkpoint_attached
        }),
        poll.after_health(now).failures == 0,
{
}

/// A provider that does not offer the stream is read by its transcript, and one that does not
/// offer that either by its source alone; readers stop only where the binding no longer fits or
/// the provider refuses.
pub proof fn readers_fall_back_step_by_step(poll: PollState, kind: ProviderFailureKind, now: u64)
    ensures
        ({
            let after = poll.after_failure(kind, now);
            &&& kind is Unsupported && poll.checkpoint && !poll.checkpoint_attached
                ==> !after.checkpoint && after.transcript && !after.stopped && after.next_read
                == now && poll.failure_text(kind) == Some(
                "Provider does not expose checkpoint terminal output; using transcript fallback."@,
            ) && !poll.clears_text(kind)
            &&& kind is Unsupported && !poll.checkpoint && poll.transcript ==> !after.transcript
                && after.cursor is None && !after.stopped && after.next_read == now
                && poll.failure_text(kind) == Some(
                "Provider offers metadata only; transcript output is unavailable."@,
            ) && poll.clears_text(kind)
            &&& kind is Unsupported && !poll.checkpoint && !poll.transcript ==> after.stopped
            &&& kind is IdentityMismatch ==> after.stopped && poll.clears_text(kind)
            &&& kind is Rejected ==> after.stopped
            &&& kind is Disconnected || kind is Busy || kind is Failed ==> !after.stopped
                && !poll.clears_text(kind)
            &&& after.pending is None
        }),
{
}

/// What each answer makes of the reader and of what is shown.
pub proof fn answers_are_shown(
    poll: PollState,
    before: ExternalTerminal,
    result: ProviderOperationResult,
    runtime_generation: u64,
    in_place: bool,
    verdict: Result<(), ContractError>,
    now: u64,
    after_poll: PollState,
    after: ExternalTerminal,
    said: Told,
)
    requires
        poll.settles(
            before,
            result,
            runtime_generation,
            in_place,
            verdict,
            now,
            after_poll,
            after,
            said,
        ),
        now <= u64::MAX - 100_000,
    ensures
        after_poll.pending is None,
        result is CheckpointAttached && in_place ==> after_poll.checkpoint_attached
            && !after_poll.transcript && after_poll.next_read == now && after_poll.failures == 0
            && after.external_transcript is None && after.external_observed_at == Some(now)
            && after.external_observed_contract == Some(ObservedContract::Checkpoint)
            && said.changed && !said.projection_error,
        result is CheckpointAttached && !in_place ==> after_poll.stopped && said.projection_error
            && after == before,
        result matches ProviderOperationResult::Checkpoint(update) ==> after.external_observed_at
            == Some(now) && after_poll.checkpoint_content_revision == update.content_revision
            && after_poll.failures == 0 && (said.changed <==> poll.checkpoint_content_revision
            != update.content_revision) && (update.checkpoint is Some ==> after.external_checkpoint
            == update.checkpoint && said.persist) && (update.checkpoint is None
            ==> after.external_checkpoint == before.external_checkpoint && !said.persist) && (
        update.closed ==> !after_poll.checkpoint && !after_poll.transcript && after_poll.next_read
            == now) && (!update.closed ==> after_poll.next_read == now + 20
            && after_poll.checkpoint == poll.checkpoint),
        result is Health ==> !after_poll.health && after_poll.failures == 0 && after_poll.next_read
            == now && after.external_observed_contract == Some(ObservedContract::Health)
            && after.external_observed_at == Some(now),
        result is Transcript && !poll.stopped ==> (after_poll.stopped
            <==> after.external_transcript is None) && (after_poll.stopped ==> said.projection_error
            && said.changed) && (!after_poll.stopped ==> !said.projection_error
            && after.external_observed_at == Some(now) && after.external_observed_contract == Some(
            ObservedContract::Transcript,
        ) && after.external_binding->0.execution.pinned_source is Some),
        result matches ProviderOperationResult::Transcript(reply) && (
        before.external_transcript matches Some(text) && !poll.stopped && text.apply_error(
            *reply,
            runtime_generation,
            verdict,
        ) is None) ==> !after_poll.stopped && before.external_transcript->0.becomes(
            *(result->Transcript_0),
            after.external_transcript->0,
        ) && after_poll.cursor == after.external_transcript->0.position(),
        result matches ProviderOperationResult::Source(reply) ==> after.external_observed_at == Some(
            now,
        ) && after.external_observed_contract == Some(ObservedContract::Source) && (
        reply.result matches SourceResult::Snapshot { cursor, .. } ==> after_poll.cursor == Some(
            cursor,
        ) && after.external_binding->0.execution.pinned_source is Some) && (reply.result is Reset
            ==> after_poll.cursor is None && after_poll.next_read == now) && (!(
        reply.result is Reset) ==> after_poll.next_read == now + 1_000),
        result matches ProviderOperationResult::Failure(failure) ==> (said.changed ==> failure.kind
            is Unsupported || failure.kind is IdentityMismatch),
        !(result is Transcript) && !(result is CheckpointAttached) && !(result is Failure)
            ==> after.external_transcript == before.external_transcript,
{
}

/// A transcript is read on at once where there is more of it or it was reset, and else after a
/// second.
pub proof fn transcripts_are_read_on(
    poll: PollState,
    reply: TranscriptReply,
    cursor: Option<SourceCursor>,
    now: u64,
)
    requires
        now <= u64::MAX - 100_000,
    ensures
        poll.after_text(reply, cursor, now).cursor == cursor,
        poll.after_text(reply, cursor, now).failures == 0,
        poll.after_text(reply, cursor, now).pending is None,
        reply.result is Reset ==> poll.after_text(reply, cursor, now).next_read == now,
        reply.result is Snapshot ==> poll.after_text(reply, cursor, now).next_read == now + 1_000,
        reply.result matches TranscriptResult::Page { has_more, .. } ==> poll.after_text(
            reply,
            cursor,
            now,
        ).next_read == (if has_more {
            now
        } else {
            (now + 1_000) as u64
        }),
{
}

/// What is shown is what the provider's snapshot says, with the reason for a failure; a terminal
/// whose text could not be used is shown as disconnected.
pub proof fn shown_observations_are_the_providers_own(
    after: ExternalTerminal,
    said: Told,
    observation: ProviderObservation,
    snapshot: ProviderSnapshot,
    result: ProviderOperationResult,
    shown: ExternalTerminal,
)
    requires
        presents(after, said, observation, snapshot, result, shown),
    ensures
        observation.lifecycle == snapshot.lifecycle,
        observation.activity == snapshot.activity,
        observation.durability == snapshot.durability,
        said.projection_error ==> observation.connection is Disconnected,
        !said.projection_error ==> observation.connection == snapshot.connection,
        said.diagnostic matches Some(text) ==> (observation.diagnostic matches Some(told) && told@
            == text),
        said.diagnostic is None ==> (result matches ProviderOperationResult::Failure(failure) ==> (
        observation.diagnostic matches Some(told) && told@ == failure.message@)),
        said.diagnostic is None && !(result is Failure) ==> observation.diagnostic is None,
        result matches ProviderOperationResult::Transcript(reply) ==> observation.writer_state
            == Some(reply.health.writer_state),
        !(result is Transcript) && snapshot.source is None ==> observation.writer_state is None,
        shown.external_observation is Some,
        !after.already_shows(observation) ==> shown.external_observation == Some(observation),
        shown.external_binding == after.external_binding && shown.external_transcript
            == after.external_transcript && shown.external_checkpoint == after.external_checkpoint,
{
}

/// A command that was taken is waited for; a provider that is gone or bound anew stops its
/// reader; a busy one is asked again in a second.
pub proof fn submissions_are_recorded(
    poll: PollState,
    before: ExternalTerminal,
    submitted: Result<OperationTicket, SubmitError>,
    snapshot: ProviderSnapshot,
    now: u64,
    after_poll: PollState,
    after: ExternalTerminal,
    changed: bool,
)
    requires
        poll.records(before, submitted, snapshot, now, after_poll, after, changed),
        now <= u64::MAX - 100_000,
    ensures
        submitted matches Ok(ticket) ==> after_poll.pending == Some(ticket) && after == before
            && after_poll.stopped == poll.stopped,
        submitted matches Err(error) ==> after_poll.pending == poll.pending && (error is Disconnected
            || error is IdentityMismatch ==> after_poll.stopped && (
        after.external_observation matches Some(shown) && shown.connection is Disconnected
            && shown.diagnostic is Some)) && (!(error is Disconnected)
            && !(error is IdentityMismatch) ==> after_poll.next_read == now + 1_000 && after
            == before && after_poll.stopped == poll.stopped && !changed),
        submitted == Err::<OperationTicket, SubmitError>(SubmitError::IdentityMismatch) && changed
            ==> (after.external_observation matches Some(shown) && shown.diagnostic->0@
            == "provider binding changed; observation is stale"@),
        submitted == Err::<OperationTicket, SubmitError>(SubmitError::Disconnected) && changed ==> (
        after.external_observation matches Some(shown) && shown.diagnostic->0@
            == "provider worker is unavailable; observation is stale"@),
{
    if let Err(error) = submitted {
        if PollState::lost(error) {
            let observation = choose|observation: ProviderObservation|
                shows(
                    observation,
                    snapshot,
                    ProviderConnection::Disconnected,
                    Some(PollState::loss_text(error)),
                    source_writer(snapshot),
                ) && #[trigger] before.now_shows(observation, after) && changed
                    == !before.already_shows(observation);
            assert(before.now_shows(observation, after));
        }
    }
}

/// The first source that is seen is pinned, and a pinned one stays.
pub proof fn sources_are_pinned_once(terminal: ExternalTerminal, source: SourceIdentity)
    requires
        terminal.external_binding is Some,
    ensures
        terminal.pinned(source).external_binding->0.execution.pinned_source == (
        if terminal.external_binding->0.execution.pinned_source is Some {
            terminal.external_binding->0.execution.pinned_source
        } else {
            Some(source)
        }),
        terminal.pinned(source).external_binding->0.execution.session_id
            == terminal.external_binding->0.execution.session_id,
        terminal.pinned(source).external_binding->0.execution.generation
            == terminal.external_binding->0.execution.generation,
        terminal.pinned(source).external_transcript == terminal.external_transcript,
{
}

/// Times past the end of the clock are its end.
pub proof fn delays_are_added(now: u64, delay: u64)
    ensures
        now + delay <= u64::MAX ==> later(now, delay) == now + delay,
        later(now, delay) >= now,
{
}

/// Reading keeps its pace: polls ten times a second, reads once a second, streams fifty times;
/// no more than sixty-four attachments and operations are held, and an operation that ended
/// is remembered for a quarter of an hour.
pub proof fn reading_keeps_its_pace()
    ensures
        POLL_INTERVAL_MS * 10 == 1_000,
        READ_INTERVAL_MS == 1_000,
        CHECKPOINT_INTERVAL_MS * 50 == 1_000,
        MAX_ATTACHMENTS == 64,
        MAX_OPERATIONS == 64,
        OPERATION_RETENTION_MS == 15 * 60 * 1_000,
        DRAINED_UPDATES == 64,
        TRANSCRIPT_READ_CHUNKS == 32,
        SOURCE_READ_EVENTS == 128,
{
}

/// The pause after a failure doubles, from two seconds to thirty-two.
pub proof fn failure_pauses_double(failures: u32)
    ensures
        failure_pause(1) == 2_000,
        1 <= failures < 5 ==> failure_pause((failures + 1) as u32) == 2 * failure_pause(failures),
        failures >= 5 ==> failure_pause(failures) == 32_000,
{
}

/// Reading stops on a failure that reading again cannot mend, and on no other.
pub proof fn hopeless_failures_stop_reading(kind: ProviderFailureKind)
    ensures
        stops_reading(kind) <==> kind is IdentityMismatch || kind is Unsupported || kind is Rejected,
{
}

/// A stream whose model is in place is read at once and takes the place of the transcript;
/// without a model reading stops.
pub proof fn attached_streams_are_read(poll: PollState, revision: u64, now: u64)
    ensures
        ({
            let after = poll.after_attached(true, revision, now);
            &&& after.checkpoint_attached && !after.transcript && after.cursor is None
            &&& after.pending is None && after.failures == 0 && after.next_read == now
            &&& after.checkpoint_content_revision == revision
            &&& after.stopped == poll.stopped && after.checkpoint == poll.checkpoint
        }),
        poll.after_attached(false, revision, now).stopped,
        poll.after_attached(false, revision, now).pending is None,
{
}

/// A batch is followed by the next one after twenty milliseconds, and once a stream has closed
/// the source is read at once and the stream no more.
pub proof fn streams_are_read_until_they_close(poll: PollState, revision: u64, now: u64)
    requires
        now <= u64::MAX - 1_000,
    ensures
        poll.after_checkpoint(revision, false, now).next_read == now + 20,
        poll.after_checkpoint(revision, false, now).checkpoint == poll.checkpoint,
        poll.after_checkpoint(revision, true, now).next_read == now,
        !poll.after_checkpoint(revision, true, now).checkpoint,
        !poll.after_checkpoint(revision, true, now).transcript,
        poll.after_checkpoint(revision, true, now).cursor is None,
        forall|closed: bool|
            (#[trigger] poll.after_checkpoint(revision, closed, now)).pending is None
                && poll.after_checkpoint(revision, closed, now).failures == 0
                && poll.after_checkpoint(revision, closed, now).checkpoint_content_revision
                == revision,
{
}

/// A source that was read goes on from the cursor it gave, after a second; one that was reset
/// is read from its beginning at once.
pub proof fn sources_are_read_on(poll: PollState, cursor: SourceCursor, result: SourceResult, now: u64)
    requires
        now <= u64::MAX - 1_000,
    ensures
        (result matches SourceResult::Snapshot { cursor: c, .. } && c == cursor)
            ==> poll.after_source(result, now).cursor == Some(cursor),
        poll.after_source(SourceResult::Page { next_cursor: Some(cursor) }, now).cursor == Some(
            cursor,
        ),
        poll.after_source(SourceResult::Page { next_cursor: None }, now).cursor == poll.cursor,
        !(result is Reset) ==> poll.after_source(result, now).next_read == now + 1_000,
        poll.after_source(SourceResult::Reset, now).cursor is None,
        poll.after_source(SourceResult::Reset, now).next_read == now,
        poll.after_source(result, now).pending is None,
        poll.after_source(result, now).failures == 0,
{
}

/// Where the daemon has no stream its transcript is read, and where it has no transcript
/// either only its metadata is.
pub proof fn missing_contracts_are_fallen_back_from(poll: PollState, kind: ProviderFailureKind)
    ensures
        poll.falls_back(kind) <==> kind is Unsupported && poll.checkpoint
            && !poll.checkpoint_attached,
        poll.metadata_only(kind) <==> kind is Unsupported && poll.transcript && !(poll.checkpoint
            && !poll.checkpoint_attached),
{
}

/// What settles a read is found among its notifications, and otherwise among what the
/// provider retains.
pub proof fn settled_reads_are_found(
    updates: Seq<ProviderUpdate>,
    snapshot: ProviderSnapshot,
    ticket: OperationTicket,
)
    ensures
        settling_update(updates, ticket, updates.len()) is Some ==> known_operation(
            updates,
            snapshot,
            ticket,
        ) == settling_update(updates, ticket, updates.len()),
        settling_update(updates, ticket, updates.len()) is None ==> known_operation(
            updates,
            snapshot,
            ticket,
        ) == find_operation(snapshot.retained_operations@, ticket, 0),
        updates.len() == 0 ==> known_operation(updates, snapshot, ticket) == find_operation(
            snapshot.retained_operations@,
            ticket,
            0,
        ),
{
}

/// What went wrong is explained in fixed words, and where there are none by the failure's own.
pub proof fn troubles_are_explained(told: Told, result: ProviderOperationResult)
    ensures
        model_not_attached() == "Provider checkpoint model could not be attached to the terminal."@,
        transcript_refused()
            == "Transcript identity or cursor validation failed; reopen the attachment after checking its binding."@,
        using_transcript()
            == "Provider does not expose checkpoint terminal output; using transcript fallback."@,
        offers_metadata_only() == "Provider offers metadata only; transcript output is unavailable."@,
        told.diagnostic matches Some(text) ==> explanation(told, result) == Some(text),
        told.diagnostic is None && result is Failure ==> explanation(told, result) == Some(
            result->Failure_0.message@,
        ),
        told.diagnostic is None && !(result is Failure) ==> explanation(told, result) is None,
{
}

/// An observation is stamped with its time and its contract, and changes nothing else.
pub proof fn observations_are_stamped(
    terminal: ExternalTerminal,
    contract: ObservedContract,
    now: u64,
)
    ensures
        terminal.observed(contract, now).external_observed_at == Some(now),
        terminal.observed(contract, now).external_observed_contract == Some(contract),
        terminal.observed(contract, now).external_binding == terminal.external_binding,
        terminal.observed(contract, now).external_observation == terminal.external_observation,
        terminal.observed(contract, now).external_transcript == terminal.external_transcript,
        terminal.observed(contract, now).external_checkpoint == terminal.external_checkpoint,
{
}

/// A reader starts with nothing read, nothing awaited and no failure behind it.
pub proof fn readers_start_afresh(poll: PollState, now: u64)
    requires
        poll.starts_at(now),
    ensures
        poll.health && poll.checkpoint && !poll.transcript && !poll.checkpoint_attached,
        poll.cursor is None && poll.pending is None,
        poll.failures == 0 && poll.checkpoint_content_revision == 0,
        poll.next_read == now && !poll.stopped,
{
}

} // verus!
