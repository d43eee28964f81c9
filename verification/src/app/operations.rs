//! Permission-bearing execution operations: their admission, their settlement and what
//! callers are told of them.
use vstd::prelude::*;

use super::runtime_providers::{ExternalTerminal, PollState, OPERATION_RETENTION_MS};
use crate::api::RuntimeProviderOperationInfo;
use crate::coven::{DeliveryState, ExecutionOutcome, ExecutionTarget, RequestState};
use crate::runtime_provider::transcript::TranscriptProjection;
use crate::runtime_provider::{
    ManagedBinding, OperationTicket, ProviderActivity, ProviderBinding, ProviderCommand,
    ProviderConnection, ProviderDurability, ProviderLifecycle, ProviderObservation,
    ProviderOperation, ProviderOperationResult, SubmitError,
};
use crate::terminal::backend::ExternalBinding;
use crate::text::{same, text_of};

verus! {

/// One execution request that was submitted, by the provider and request id that name it.
pub struct OperationState {
    pub provider_id: String,
    pub request_id: String,
    pub ticket: OperationTicket,
    pub payload_digest: String,
    pub target: ExecutionTarget,
    pub binding: Option<ProviderBinding>,
    pub terminal_id: Option<String>,
    /// The generation of the provider that the request was submitted to.
    pub runtime_generation: u64,
    pub result: Option<ProviderOperationResult>,
    pub completed_at: Option<u64>,
}

/// A terminal that moves from a consumed execution to the child that continues it.
pub struct ContinuationUpdate {
    pub terminal_id: String,
    pub parent_session_id: String,
    pub parent_generation: u64,
    pub child: ManagedBinding,
}

/// What is done next for an operation that has not completed.
pub enum OperationStep {
    /// Its request is still pending.
    Wait,
    /// The same request is looked up again.
    Lookup(ProviderCommand),
    /// It has completed. A worker that only served it is stopped, and a terminal may move
    /// to the execution it led to.
    Settled { stop_runtime: bool, continuation: Option<ContinuationUpdate> },
}

pub open spec fn target_name(target: ExecutionTarget) -> Seq<char> {
    match target {
        ExecutionTarget::Launch => "launch"@,
        ExecutionTarget::Existing { .. } => "existing"@,
        ExecutionTarget::Continuation { .. } => "continuation"@,
    }
}

fn execution_target_name(target: &ExecutionTarget) -> (r: &'static str)
    ensures
        r@ == target_name(*target),
{
    match target {
        ExecutionTarget::Launch => "launch",
        ExecutionTarget::Existing { .. } => "existing",
        ExecutionTarget::Continuation { .. } => "continuation",
    }
}

pub open spec fn state_name(state: RequestState) -> Seq<char> {
    match state {
        RequestState::Admitted => "admitted"@,
        RequestState::Establishing => "establishing"@,
        RequestState::Running => "running"@,
        RequestState::OutcomeKnown => "outcome_known"@,
        RequestState::Unresolved => "unresolved"@,
    }
}

fn execution_state_name(state: RequestState) -> (r: &'static str)
    ensures
        r@ == state_name(state),
{
    match state {
        RequestState::Admitted => "admitted",
        RequestState::Establishing => "establishing",
        RequestState::Running => "running",
        RequestState::OutcomeKnown => "outcome_known",
        RequestState::Unresolved => "unresolved",
    }
}

pub open spec fn delivery_name(delivery: DeliveryState) -> Seq<char> {
    match delivery {
        DeliveryState::NotAttempted => "not_attempted"@,
        DeliveryState::Dispatched => "dispatched"@,
        DeliveryState::Unknown => "unknown"@,
    }
}

fn execution_delivery_name(delivery: DeliveryState) -> (r: &'static str)
    ensures
        r@ == delivery_name(delivery),
{
    match delivery {
        DeliveryState::NotAttempted => "not_attempted",
        DeliveryState::Dispatched => "dispatched",
        DeliveryState::Unknown => "unknown",
    }
}

/// A request that the daemon has not brought to an end yet.
pub open spec fn in_progress(state: RequestState) -> bool {
    state == RequestState::Admitted || state == RequestState::Establishing || state
        == RequestState::Running
}

pub open spec fn outcome_of(result: ProviderOperationResult) -> Option<ExecutionOutcome> {
    match result {
        ProviderOperationResult::Execution(outcome) => Some(outcome),
        ProviderOperationResult::LookupExecution(outcome) => Some(outcome),
        _ => None,
    }
}

/// An outcome that makes a terminal move: the child of the bound execution, under a later
/// generation and another session.
pub open spec fn continues(operation: OperationState, outcome: ExecutionOutcome) -> bool {
    &&& operation.target is Continuation
    &&& operation.terminal_id is Some
    &&& operation.binding matches Some(parent)
    &&& outcome.parent_session_id matches Some(known)
    &&& known@ == parent.session_id@
    &&& outcome.session_id@ != parent.session_id@
    &&& outcome.generation > parent.generation
}

impl ContinuationUpdate {
    /// This update moves the terminal of `operation` to the execution in `outcome`, of which
    /// no ledger is known yet.
    pub open spec fn moves(self, operation: OperationState, outcome: ExecutionOutcome) -> bool {
        &&& operation.terminal_id == Some(self.terminal_id)
        &&& operation.binding matches Some(parent)
        &&& self.parent_session_id == parent.session_id
        &&& self.parent_generation == parent.generation
        &&& self.child == (ManagedBinding {
            session_id: outcome.session_id,
            generation: outcome.generation,
            pinned_source: None,
            ..parent
        })
    }
}

/// A settled continuation creates a new execution. What a terminal shows moves to that child
/// before the next read; else it would go on reading the consumed parent.
fn continuation_binding_update(operation: &OperationState, outcome: &ExecutionOutcome) -> (r: Option<
    ContinuationUpdate,
>)
    ensures
        r is Some <==> continues(*operation, *outcome),
        r matches Some(update) ==> update.moves(*operation, *outcome),
{
    match &operation.target {
        ExecutionTarget::Continuation { .. } => {},
        _ => {
            return None;
        },
    }
    let terminal_id = match &operation.terminal_id {
        Some(terminal_id) => terminal_id.clone(),
        None => {
            return None;
        },
    };
    let parent = match &operation.binding {
        Some(parent) => parent,
        None => {
            return None;
        },
    };
    let from_parent: bool = match &outcome.parent_session_id {
        Some(known) => same(known.as_str(), parent.session_id.as_str()),
        None => false,
    };
    if !from_parent || same(outcome.session_id.as_str(), parent.session_id.as_str())
        || outcome.generation <= parent.generation {
        return None;
    }
    let mut child = parent.clone();
    child.session_id = outcome.session_id.clone();
    child.generation = outcome.generation;
    child.pinned_source = None;
    Some(
        ContinuationUpdate {
            terminal_id,
            parent_session_id: parent.session_id.clone(),
            parent_generation: parent.generation,
            child,
        },
    )
}

impl OperationState {
    /// This operation has the given provider and request id.
    pub open spec fn named(self, provider_id: Seq<char>, request_id: Seq<char>) -> bool {
        self.provider_id@ == provider_id && self.request_id@ == request_id
    }

    /// The lookup of exactly this request: the launch intent is never submitted again.
    pub open spec fn lookup(self) -> ProviderCommand {
        ProviderCommand::LookupExecution {
            binding: self.binding,
            request_id: self.request_id,
            expected_digest: self.payload_digest,
            expected_target: self.target,
        }
    }

    pub fn lookup_command(&self) -> (r: ProviderCommand)
        ensures
            r == self.lookup(),
    {
        ProviderCommand::LookupExecution {
            binding: self.binding.clone(),
            request_id: self.request_id.clone(),
            expected_digest: self.payload_digest.clone(),
            expected_target: self.target.clone(),
        }
    }

    /// Whether the request is looked up again: its ticket is no longer known, or the daemon
    /// had not brought it to an end.
    pub open spec fn looks_up(known: Option<ProviderOperation>) -> bool {
        match known {
            None => true,
            Some(operation) => outcome_of(operation.result) matches Some(outcome) && in_progress(
                outcome.state,
            ),
        }
    }

    /// One look at this operation leads to `after` and calls for `step`.
    pub open spec fn steps(
        self,
        known: Option<ProviderOperation>,
        now: u64,
        after: Self,
        step: OperationStep,
    ) -> bool {
        match known {
            Some(operation) => if OperationState::looks_up(known) {
                &&& step == OperationStep::Lookup(self.lookup())
                &&& after == self
            } else if operation.result is Pending {
                &&& step is Wait
                &&& after == self
            } else {
                &&& after == (OperationState {
                    result: Some(operation.result),
                    completed_at: Some(now),
                    ..self
                })
                &&& step matches OperationStep::Settled { stop_runtime, continuation }
                &&& stop_runtime == (self.terminal_id is None)
                &&& match outcome_of(operation.result) {
                    Some(outcome) => {
                        &&& continuation is Some <==> continues(self, outcome)
                        &&& continuation matches Some(update) ==> update.moves(self, outcome)
                    },
                    None => continuation is None,
                }
            },
            None => {
                &&& step == OperationStep::Lookup(self.lookup())
                &&& after == self
            },
        }
    }

    /// One look at an operation that has not completed. `known` is what the provider's
    /// snapshot retains of its ticket. A ticket that was evicted heals itself by the lookup,
    /// which is read-only and bound to the same request, digest and target.
    pub fn poll(&mut self, known: Option<ProviderOperation>, now: u64) -> (r: OperationStep)
        ensures
            old(self).steps(known, now, *final(self), r),
    {
        let operation = match known {
            Some(operation) => operation,
            None => {
                return OperationStep::Lookup(self.lookup_command());
            },
        };
        let mut continuation: Option<ContinuationUpdate> = None;
        match &operation.result {
            ProviderOperationResult::Pending { .. } => {
                return OperationStep::Wait;
            },
            ProviderOperationResult::Execution(outcome)
            | ProviderOperationResult::LookupExecution(outcome) => {
                match outcome.state {
                    RequestState::Admitted | RequestState::Establishing | RequestState::Running => {
                        return OperationStep::Lookup(self.lookup_command());
                    },
                    _ => {},
                }
                continuation = continuation_binding_update(self, outcome);
            },
            _ => {},
        }
        self.result = Some(operation.result);
        self.completed_at = Some(now);
        OperationStep::Settled { stop_runtime: self.terminal_id.is_none(), continuation }
    }

    /// Take note of what came of submitting a lookup.
    pub fn record_lookup(&mut self, submitted: Result<OperationTicket, SubmitError>) -> (r: bool)
        ensures
            r == (submitted is Ok),
            *final(self) == (match submitted {
                Ok(ticket) => OperationState { ticket, result: None, ..*old(self) },
                Err(_) => *old(self),
            }),
    {
        match submitted {
            Ok(ticket) => {
                self.ticket = ticket;
                self.result = None;
                true
            },
            Err(_) => false,
        }
    }

    /// Whether the record of this operation is still kept.
    pub open spec fn kept(self, now: u64) -> bool {
        self.completed_at matches Some(completed) ==> now < completed || now - completed
            < OPERATION_RETENTION_MS
    }

    pub fn is_kept(&self, now: u64) -> (r: bool)
        ensures
            r == self.kept(now),
    {
        match self.completed_at {
            Some(completed) => now < completed || now - completed < OPERATION_RETENTION_MS,
            None => true,
        }
    }
}

/// An operation never submits the intent it was made for a second time: whatever the daemon
/// answers, what follows is at most a lookup of the same request, digest and target.
pub proof fn polling_only_looks_up(operation: OperationState)
    ensures
        operation.lookup() is LookupExecution,
        operation.lookup()->LookupExecution_request_id == operation.request_id,
        operation.lookup()->LookupExecution_expected_digest == operation.payload_digest,
        operation.lookup()->LookupExecution_expected_target == operation.target,
        operation.lookup()->LookupExecution_binding == operation.binding,
{
}

/// Drop the records that are no longer kept, and keep the others in order.
pub fn retain_operations(operations: &mut Vec<OperationState>, now: u64)
    ensures
        final(operations)@ == old(operations)@.filter(|o: OperationState| o.kept(now)),
{
    let ghost before = operations@;
    let ghost keep = |o: OperationState| o.kept(now);
    let mut i: usize = 0;
    let ghost mut done: int = 0;
    assert(before.take(0).filter(keep) =~= Seq::empty()) by {
        assert(before.take(0) =~= Seq::empty());
        reveal(Seq::filter);
    }
    assert(operations@ =~= before.take(0).filter(keep) + before.skip(0));
    while i < operations.len()
        invariant
            0 <= done <= before.len(),
            keep == (|o: OperationState| o.kept(now)),
            i == before.take(done).filter(keep).len(),
            operations@ == before.take(done).filter(keep) + before.skip(done),
        decreases before.len() - done,
    {
        let kept: bool = operations[i].is_kept(now);
        proof {
            assert(before.take(done + 1).drop_last() =~= before.take(done));
            assert(before.take(done + 1).last() == before[done]);
            assert(operations@[i as int] == before[done]);
            reveal(Seq::filter);
        }
        if kept {
            i = i + 1;
        } else {
            operations.remove(i);
        }
        proof {
            done = done + 1;
            assert(operations@ =~= before.take(done).filter(keep) + before.skip(done));
        }
    }
    proof {
        assert(done == before.len());
        assert(before.take(done) =~= before);
        assert(operations@ =~= before.filter(keep));
    }
}

/// What is shown of an execution that a terminal has just moved to.
pub open spec fn connected_observation() -> ProviderObservation {
    ProviderObservation {
        lifecycle: ProviderLifecycle::Unknown,
        activity: ProviderActivity::Unknown,
        connection: ProviderConnection::Connected,
        durability: ProviderDurability::Durable,
        diagnostic: None,
        writer_state: None,
    }
}

impl ContinuationUpdate {
    /// Whether a terminal still shows the parent that this update moves it from.
    pub open spec fn applies(self, terminal: ExternalTerminal) -> bool {
        &&& terminal.external_binding matches Some(binding)
        &&& binding.execution.session_id@ == self.parent_session_id@
        &&& binding.execution.generation == self.parent_generation
    }

    /// Where this update applies, the terminal moves from `before` to `after`: what was
    /// observed of the parent is forgotten, and a text is shown again where one is read.
    pub open spec fn carries(
        self,
        before: ExternalTerminal,
        reads_transcript: bool,
        after: ExternalTerminal,
        moved: bool,
    ) -> bool {
        &&& moved == self.applies(before)
        &&& !moved ==> after == before
        &&& moved ==> {
            &&& after == (ExternalTerminal {
                external_binding: Some(
                    ExternalBinding { execution: self.child, ..before.external_binding->0 },
                ),
                external_observation: Some(connected_observation()),
                external_transcript: after.external_transcript,
                external_checkpoint: None,
                external_observed_at: None,
                external_observed_contract: None,
            })
            &&& after.external_transcript is Some <==> reads_transcript
            &&& after.external_transcript matches Some(text) ==> text.starts(self.child)
        }
    }

    /// Move a terminal to the child, if it still shows the parent.
    pub fn apply(self, terminal: &mut ExternalTerminal, reads_transcript: bool) -> (r: bool)
        requires
            old(terminal).wf(),
        ensures
            final(terminal).wf(),
            self.carries(*old(terminal), reads_transcript, *final(terminal), r),
    {
        let binding = match terminal.external_binding.take() {
            Some(binding) => binding,
            None => {
                return false;
            },
        };
        if !same(binding.execution.session_id.as_str(), self.parent_session_id.as_str())
            || binding.execution.generation != self.parent_generation {
            terminal.external_binding = Some(binding);
            return false;
        }
        terminal.external_transcript = if reads_transcript {
            Some(TranscriptProjection::new(self.child.clone()))
        } else {
            None
        };
        terminal.external_binding = Some(
            ExternalBinding { terminal_id: binding.terminal_id, execution: self.child },
        );
        terminal.external_checkpoint = None;
        terminal.external_observed_at = None;
        terminal.external_observed_contract = None;
        terminal.external_observation = Some(
            ProviderObservation {
                lifecycle: ProviderLifecycle::Unknown,
                activity: ProviderActivity::Unknown,
                connection: ProviderConnection::Connected,
                durability: ProviderDurability::Durable,
                diagnostic: None,
                writer_state: None,
            },
        );
        true
    }
}

impl PollState {
    /// An attachment that is read from the beginning of another execution.
    pub open spec fn restarted(self, now: u64) -> Self {
        PollState {
            cursor: None,
            pending: None,
            next_read: now,
            failures: 0,
            stopped: false,
            checkpoint_attached: false,
            checkpoint_content_revision: 0,
            ..self
        }
    }

    pub fn restart(&mut self, now: u64)
        ensures
            *final(self) == old(self).restarted(now),
    {
        self.cursor = None;
        self.pending = None;
        self.next_read = now;
        self.failures = 0;
        self.stopped = false;
        self.checkpoint_attached = false;
        self.checkpoint_content_revision = 0;
    }
}

/// The status that callers are told, and the text that explains it.
pub open spec fn status_of(result: Option<ProviderOperationResult>) -> (
    Seq<char>,
    Option<Seq<char>>,
) {
    match result {
        None => ("pending"@, None),
        Some(result) => match result {
            ProviderOperationResult::Pending { .. } => ("pending"@, None),
            ProviderOperationResult::Execution(outcome)
            | ProviderOperationResult::LookupExecution(outcome) => (state_name(outcome.state), None),
            ProviderOperationResult::Failure(failure) => ("failed"@, Some(failure.message@)),
            ProviderOperationResult::Detached | ProviderOperationResult::Shutdown => (
                "unresolved"@,
                Some("provider operation actor stopped before settlement"@),
            ),
            _ => ("failed"@, Some("provider returned an unexpected operation result"@)),
        },
    }
}

/// What callers are told of an operation.
pub open spec fn describes(info: RuntimeProviderOperationInfo, operation: OperationState) -> bool {
    let outcome = match operation.result {
        Some(result) => outcome_of(result),
        None => None,
    };
    &&& info.provider_id@ == operation.provider_id@
    &&& info.request_id@ == operation.request_id@
    &&& info.ticket == operation.ticket.0
    &&& info.payload_digest@ == operation.payload_digest@
    &&& info.target@ == target_name(operation.target)
    &&& text_of(info.terminal_id) == text_of(operation.terminal_id)
    &&& (info.status@, text_of(info.diagnostic)) == status_of(operation.result)
    &&& match outcome {
        Some(outcome) => {
            &&& text_of(info.state) == Some(state_name(outcome.state))
            &&& text_of(info.delivery) == Some(delivery_name(outcome.delivery))
            &&& text_of(info.session_id) == Some(outcome.session_id@)
            &&& text_of(info.parent_session_id) == text_of(outcome.parent_session_id)
            &&& info.generation == Some(outcome.generation)
            &&& text_of(info.session_status) == text_of(outcome.session_status)
            &&& info.exit_code == outcome.exit_code
        },
        None => {
            &&& info.state is None
            &&& info.delivery is None
            &&& info.session_id is None
            &&& info.parent_session_id is None
            &&& info.generation is None
            &&& info.session_status is None
            &&& info.exit_code is None
        },
    }
}

/// What callers are told of an operation. It holds no prompt.
pub fn runtime_provider_operation_info(operation: &OperationState) -> (r:
    RuntimeProviderOperationInfo)
    ensures
        describes(r, *operation),
{
    let mut info = RuntimeProviderOperationInfo {
        provider_id: operation.provider_id.clone(),
        request_id: operation.request_id.clone(),
        ticket: operation.ticket.raw(),
        payload_digest: operation.payload_digest.clone(),
        target: execution_target_name(&operation.target).to_owned(),
        status: "pending".to_owned(),
        state: None,
        delivery: None,
        session_id: None,
        parent_session_id: None,
        generation: None,
        session_status: None,
        exit_code: None,
        terminal_id: operation.terminal_id.clone(),
        diagnostic: None,
    };
    let result = match &operation.result {
        Some(result) => result,
        None => {
            return info;
        },
    };
    match result {
        ProviderOperationResult::Execution(outcome)
        | ProviderOperationResult::LookupExecution(outcome) => {
            info.status = execution_state_name(outcome.state).to_owned();
            info.state = Some(execution_state_name(outcome.state).to_owned());
            info.delivery = Some(execution_delivery_name(outcome.delivery).to_owned());
            info.session_id = Some(outcome.session_id.clone());
            info.parent_session_id = outcome.parent_session_id.clone();
            info.generation = Some(outcome.generation);
            info.session_status = outcome.session_status.clone();
            info.exit_code = outcome.exit_code;
        },
        ProviderOperationResult::Failure(failure) => {
            info.status = "failed".to_owned();
            info.diagnostic = Some(failure.message.clone());
        },
        ProviderOperationResult::Detached | ProviderOperationResult::Shutdown => {
            info.status = "unresolved".to_owned();
            info.diagnostic = Some("provider operation actor stopped before settlement".to_owned());
        },
        ProviderOperationResult::Pending { .. } => {},
        _ => {
            info.status = "failed".to_owned();
            info.diagnostic = Some("provider returned an unexpected operation result".to_owned());
        },
    }
    info
}

/// Callers are told of an operation's target, and of what the daemon says of it, by these names.
pub proof fn operations_are_told_by_name(
    info: RuntimeProviderOperationInfo,
    operation: OperationState,
)
    requires
        describes(info, operation),
    ensures
        operation.target is Launch ==> info.target@ == "launch"@,
        operation.target is Existing ==> info.target@ == "existing"@,
        operation.target is Continuation ==> info.target@ == "continuation"@,
        operation.result is None ==> info.status@ == "pending"@ && info.state is None
            && info.session_id is None && info.exit_code is None && info.diagnostic is None,
        operation.result matches Some(ProviderOperationResult::Failure(failure)) ==> info.status@
            == "failed"@ && text_of(info.diagnostic) == Some(failure.message@) && info.state is None,
        operation.result matches Some(result) && (result is Detached || result is Shutdown)
            ==> info.status@ == "unresolved"@,
        info.provider_id@ == operation.provider_id@,
        info.request_id@ == operation.request_id@,
        info.payload_digest@ == operation.payload_digest@,
        info.ticket == operation.ticket.0,
        operation.terminal_id matches Some(id) ==> (info.terminal_id matches Some(told) && told@
            == id@),
        operation.terminal_id is None ==> info.terminal_id is None,
{
}

/// What is told of an outcome is what the daemon said of it.
pub proof fn outcomes_are_told_as_they_are(
    info: RuntimeProviderOperationInfo,
    operation: OperationState,
    outcome: ExecutionOutcome,
)
    requires
        describes(info, operation),
        operation.result == Some(ProviderOperationResult::Execution(outcome)) || operation.result
            == Some(ProviderOperationResult::LookupExecution(outcome)),
    ensures
        info.state matches Some(state) && state@ == info.status@ && (outcome.state is Admitted
            ==> state@ == "admitted"@) && (outcome.state is Establishing ==> state@
            == "establishing"@) && (outcome.state is Running ==> state@ == "running"@) && (
        outcome.state is OutcomeKnown ==> state@ == "outcome_known"@) && (
        outcome.state is Unresolved ==> state@ == "unresolved"@),
        info.delivery matches Some(delivery) && (outcome.delivery is NotAttempted ==> delivery@
            == "not_attempted"@) && (outcome.delivery is Dispatched ==> delivery@ == "dispatched"@)
            && (outcome.delivery is Unknown ==> delivery@ == "unknown"@),
        info.session_id matches Some(session) && session@ == outcome.session_id@,
        info.generation == Some(outcome.generation),
        info.exit_code == outcome.exit_code,
        outcome.parent_session_id matches Some(parent) ==> (
        info.parent_session_id matches Some(told) && told@ == parent@),
        outcome.session_status matches Some(status) ==> (info.session_status matches Some(told)
            && told@ == status@),
        info.diagnostic is None,
{
}

/// An operation is looked up again for as long as the daemon works on it or knows nothing of
/// its ticket, and for no longer: any other answer settles it.
pub proof fn operations_are_followed_to_their_end(
    operation: OperationState,
    known: Option<ProviderOperation>,
    now: u64,
    after: OperationState,
    step: OperationStep,
)
    requires
        operation.steps(known, now, after, step),
    ensures
        known is None ==> step is Lookup && after == operation,
        known matches Some(found) ==> {
            &&& found.result is Pending ==> step is Wait && after == operation
            &&& found.result matches ProviderOperationResult::Execution(outcome) ==> {
                &&& outcome.state is Admitted || outcome.state is Establishing
                    || outcome.state is Running ==> step is Lookup && after == operation
                &&& outcome.state is OutcomeKnown || outcome.state is Unresolved
                    ==> step is Settled
            }
            &&& found.result matches ProviderOperationResult::LookupExecution(outcome) ==> {
                &&& outcome.state is Admitted || outcome.state is Establishing
                    || outcome.state is Running ==> step is Lookup && after == operation
                &&& outcome.state is OutcomeKnown || outcome.state is Unresolved
                    ==> step is Settled
            }
            &&& found.result is Failure ==> step is Settled
            &&& step is Settled ==> after.result == Some(found.result) && after.completed_at
                == Some(now) && after.request_id == operation.request_id && after.ticket
                == operation.ticket && after.payload_digest == operation.payload_digest
        },
        step matches OperationStep::Settled { stop_runtime, .. } ==> (stop_runtime
            <==> operation.terminal_id is None),
        step matches OperationStep::Lookup(command) ==> (
        command matches ProviderCommand::LookupExecution {
            binding,
            request_id,
            expected_digest,
            expected_target,
        } && binding == operation.binding && request_id == operation.request_id && expected_digest
            == operation.payload_digest && expected_target == operation.target),
{
}

/// A terminal moves to a child only through a settled continuation of its own execution, and
/// only to a later generation of another session.
pub proof fn terminals_move_to_their_own_children(
    operation: OperationState,
    known: Option<ProviderOperation>,
    now: u64,
    after: OperationState,
    step: OperationStep,
)
    requires
        operation.steps(known, now, after, step),
    ensures
        step matches OperationStep::Settled { continuation: Some(update), .. } ==> {
            &&& operation.target is Continuation
            &&& operation.terminal_id == Some(update.terminal_id)
            &&& operation.binding matches Some(parent) && update.parent_session_id
                == parent.session_id && update.parent_generation == parent.generation
                && update.child.session_id@ != parent.session_id@ && update.child.generation
                > parent.generation && update.child.provider_id == parent.provider_id
                && update.child.host_id == parent.host_id && update.child.scope == parent.scope
                && update.child.authority == parent.authority
                && update.child.runtime_generation == parent.runtime_generation
            &&& update.child.pinned_source is None
            &&& known matches Some(found) && (found.result matches
                ProviderOperationResult::Execution(outcome) ==> update.child.session_id
                == outcome.session_id && update.child.generation == outcome.generation
                && outcome.parent_session_id->0@ == operation.binding->0.session_id@)
        },
{
}

/// A settled continuation of the terminal's own execution that names it as its parent moves the
/// terminal.
pub proof fn settled_continuations_move_the_terminal(
    operation: OperationState,
    outcome: ExecutionOutcome,
    found: ProviderOperation,
    now: u64,
    after: OperationState,
    step: OperationStep,
)
    requires
        operation.steps(Some(found), now, after, step),
        found.result == ProviderOperationResult::Execution(outcome),
        outcome.state is OutcomeKnown,
        operation.target is Continuation,
        operation.terminal_id is Some,
        operation.binding matches Some(parent) && outcome.session_id@ != parent.session_id@
            && outcome.generation > parent.generation && (
        outcome.parent_session_id matches Some(named) && named@ == parent.session_id@),
    ensures
        step matches OperationStep::Settled { continuation: Some(update), .. }
            && update.child.session_id == outcome.session_id && update.child.generation
            == outcome.generation,
{
}

/// A record is kept until a quarter of an hour has passed since it was completed, and an open
/// operation is always kept.
pub proof fn records_are_kept_a_quarter_of_an_hour(operation: OperationState, now: u64)
    ensures
        operation.completed_at is None ==> operation.kept(now),
        operation.completed_at matches Some(completed) ==> (operation.kept(now) <==> now < completed
            + 900_000),
{
}

/// A terminal that moved is read from its beginning, at once and without what was read before;
/// another one is not touched.
pub proof fn moved_terminals_are_read_anew(
    update: ContinuationUpdate,
    before: ExternalTerminal,
    reads_transcript: bool,
    after: ExternalTerminal,
    moved: bool,
    poll: PollState,
    now: u64,
)
    requires
        update.carries(before, reads_transcript, after, moved),
    ensures
        moved <==> before.external_binding is Some
            && before.external_binding->0.execution.session_id@ == update.parent_session_id@
            && before.external_binding->0.execution.generation == update.parent_generation,
        !moved ==> after == before,
        moved ==> after.external_binding is Some && after.external_binding->0.execution
            == update.child && after.external_binding->0.terminal_id
            == before.external_binding->0.terminal_id && after.external_checkpoint is None
            && after.external_observed_at is None,
        moved ==> (after.external_transcript is Some <==> reads_transcript),
        moved ==> (after.external_observation matches Some(observation)
            && observation.connection is Connected && observation.activity is Unknown
            && observation.lifecycle is Unknown),
        poll.restarted(now).pending is None && poll.restarted(now).cursor is None,
        poll.restarted(now).next_read == now && poll.restarted(now).failures == 0,
        !poll.restarted(now).stopped && !poll.restarted(now).checkpoint_attached,
        poll.restarted(now).checkpoint == poll.checkpoint && poll.restarted(now).transcript
            == poll.transcript && poll.restarted(now).health == poll.health,
{
}

/// An operation without a result is pending; one with a result is told by the state it came
/// to, a failure by its message, and one whose provider stopped is unresolved.
pub proof fn statuses_are_told(
    info: RuntimeProviderOperationInfo,
    operation: OperationState,
)
    requires
        describes(info, operation),
    ensures
        operation.result is None ==> info.status@ == "pending"@ && info.diagnostic is None,
        (operation.result matches Some(ProviderOperationResult::Pending { .. })) ==> info.status@
            == "pending"@ && info.diagnostic is None,
        (operation.result matches Some(ProviderOperationResult::Failure(failure))) ==> info.status@
            == "failed"@ && text_of(info.diagnostic) == Some(
            operation.result->0->Failure_0.message@,
        ),
        operation.result == Some(ProviderOperationResult::Detached) || operation.result == Some(
            ProviderOperationResult::Shutdown,
        ) ==> info.status@ == "unresolved"@ && text_of(info.diagnostic) == Some(
            "provider operation actor stopped before settlement"@,
        ),
        info.provider_id@ == operation.provider_id@,
        info.request_id@ == operation.request_id@,
        info.ticket == operation.ticket.0,
        info.payload_digest@ == operation.payload_digest@,
        operation.target is Launch ==> info.target@ == "launch"@,
        operation.target is Existing ==> info.target@ == "existing"@,
        operation.target is Continuation ==> info.target@ == "continuation"@,
        text_of(info.terminal_id) == text_of(operation.terminal_id),
{
}

/// A terminal that moved shows its new execution as connected, and nothing else of it yet.
pub proof fn moved_terminals_are_connected()
    ensures
        connected_observation().connection == ProviderConnection::Connected,
        connected_observation().lifecycle == ProviderLifecycle::Unknown,
        connected_observation().activity == ProviderActivity::Unknown,
        connected_observation().durability == ProviderDurability::Durable,
        connected_observation().diagnostic is None,
        connected_observation().writer_state is None,
{
}

/// A terminal moves only for a continuation of the execution it shows: to another session,
/// whose parent is that execution's session, under a later generation.
pub proof fn only_continuations_move_terminals(
    operation: OperationState,
    outcome: ExecutionOutcome,
    update: ContinuationUpdate,
)
    ensures
        continues(operation, outcome) <==> operation.target is Continuation
            && operation.terminal_id is Some && operation.binding is Some
            && outcome.parent_session_id is Some && outcome.parent_session_id->0@
            == operation.binding->0.session_id@ && outcome.session_id@
            != operation.binding->0.session_id@ && outcome.generation
            > operation.binding->0.generation,
        update.moves(operation, outcome) ==> operation.terminal_id == Some(update.terminal_id)
            && update.child.session_id == outcome.session_id && update.child.generation
            == outcome.generation && update.child.pinned_source is None
            && update.child.provider_id == operation.binding->0.provider_id
            && update.child.runtime_generation == operation.binding->0.runtime_generation
            && update.parent_session_id == operation.binding->0.session_id
            && update.parent_generation == operation.binding->0.generation,
{
}

/// A request is looked up again where nothing is known of it, or where the daemon had not
/// brought it to an end; never otherwise.
pub proof fn unfinished_requests_are_looked_up(known: Option<ProviderOperation>)
    ensures
        known is None ==> OperationState::looks_up(known),
        (known matches Some(operation) && (operation.result matches
            ProviderOperationResult::Execution(outcome) && (outcome.state is Admitted
            || outcome.state is Establishing || outcome.state is Running)))
            ==> OperationState::looks_up(known),
        (known matches Some(operation) && (operation.result matches
            ProviderOperationResult::LookupExecution(outcome) && (outcome.state is Admitted
            || outcome.state is Establishing || outcome.state is Running)))
            ==> OperationState::looks_up(known),
        (known matches Some(operation) && (operation.result matches
            ProviderOperationResult::Execution(outcome) && (outcome.state is OutcomeKnown
            || outcome.state is Unresolved))) ==> !OperationState::looks_up(known),
        (known matches Some(operation) && operation.result is Failure)
            ==> !OperationState::looks_up(known),
{
}

} // verus!
