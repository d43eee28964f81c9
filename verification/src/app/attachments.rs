//! The life of provider attachments: starting a provider for a terminal, taking over its
//! control, and letting go of it.
use vstd::prelude::*;

use super::provider_api::RuntimeProviders;
use super::runtime_providers::{ExternalTerminal, PollState, MAX_ATTACHMENTS};
use crate::api::{ApiError, RuntimeProviderAttachParams};
use crate::runtime_provider::actor::{
    ProviderRuntime, ProviderRuntimeHandle, WorkerSlots, MAX_PROVIDER_WORKERS,
};
use crate::runtime_provider::transcript::TranscriptProjection;
use crate::runtime_provider::{
    binding_defect, generation_in_range, ContractLimits, ManagedBinding, ProviderCommand, ProviderConfig,
    ProviderConnection, ProviderObservation, ProviderStartError, SubmitError,
};
use crate::terminal::backend::{checkpoint_defect, BoundCheckpoint, ExternalBinding};
use crate::terminal::runtime_registry::TerminalRuntimeRegistry;
use crate::terminal::table::Table;
use crate::text::{byte_count, byte_len, contains_control, has_control, same};

verus! {

/// What the checkpoint transport reads out of the checkpoint that a terminal saved.
pub struct CheckpointVerdict {
    pub bound: Option<BoundCheckpoint>,
    pub parsed: Option<Vec<u8>>,
}

/// What attachments live in: the terminals, their runtimes, and the worker slots and
/// runtime generations of the process. `R` is a native runtime and `S` an external model.
pub struct ProviderHost<R, S> {
    pub terminals: Table<ExternalTerminal>,
    pub runtimes: TerminalRuntimeRegistry<R, S>,
    pub slots: WorkerSlots,
    pub generations: u64,
    pub retention: usize,
}

pub open spec fn terminals_wf(terminals: Map<Seq<char>, ExternalTerminal>) -> bool {
    forall|id: Seq<char>| #[trigger] terminals.dom().contains(id) ==> terminals[id].wf()
}

/// What is shown of a provider that is being connected to.
pub open spec fn connecting_observation() -> ProviderObservation {
    ProviderObservation {
        connection: ProviderConnection::Connecting,
        ..ProviderObservation::unobserved()
    }
}

impl<R, S> ProviderHost<R, S> {
    pub open spec fn wf(self) -> bool {
        &&& self.terminals.wf()
        &&& terminals_wf(self.terminals@)
        &&& self.runtimes.wf()
        &&& self.slots.wf()
    }

    /// The terminal with an id shows an external execution.
    pub open spec fn bound(self, id: Seq<char>) -> bool {
        self.terminals@.dom().contains(id) && self.terminals@[id].external_binding is Some
    }

    /// The host with one more runtime generation taken.
    pub open spec fn same_but_generation(self, after: Self, taken: int) -> bool {
        &&& after.terminals == self.terminals
        &&& after.runtimes == self.runtimes
        &&& after.slots.active == self.slots.active
        &&& after.generations == self.generations + taken
        &&& after.retention == self.retention
    }

    /// What is wrong with the checkpoint that a terminal saved, if anything.
    pub open spec fn saved_defect(self, id: Seq<char>, verdict: CheckpointVerdict) -> Option<
        Seq<char>,
    > {
        if self.terminals@.dom().contains(id) {
            match self.terminals@[id].external_checkpoint {
                Some(checkpoint) => checkpoint_defect(
                    *checkpoint,
                    verdict.bound,
                    verdict.parsed,
                ),
                None => None,
            }
        } else {
            None
        }
    }
}

/// The text of a failure, where there is one.
pub open spec fn failure_text(r: Result<(), &'static str>) -> Option<Seq<char>> {
    match r {
        Ok(_) => None,
        Err(message) => Some(message@),
    }
}

impl RuntimeProviders {
    /// Why no worker is started for a binding, if none is.
    pub open spec fn worker_refusal<R, S>(
        self,
        host: ProviderHost<R, S>,
        binding: ExternalBinding,
        verdict: CheckpointVerdict,
    ) -> Option<Seq<char>> {
        let saved = host.saved_defect(binding.terminal_id@, verdict);
        if saved is Some {
            saved
        } else {
            match self.configured(binding.execution.provider_id@) {
                None => Some("provider is disabled or not configured"@),
                Some(config) => if !binding.execution.names(config.identity) {
                    Some("configured provider identity changed"@)
                } else if host.slots.active >= MAX_PROVIDER_WORKERS {
                    Some("provider worker capacity is busy; retry after retiring workers exit"@)
                } else if !(0 < host.generations <= i64::MAX) {
                    Some("could not start provider worker"@)
                } else {
                    None
                },
            }
        }
    }

    /// Why a worker that was started is not attached, if it is not.
    pub open spec fn attachment_refusal<R, S>(
        self,
        host: ProviderHost<R, S>,
        binding: ExternalBinding,
    ) -> Option<Seq<char>> {
        if binding_defect(
            binding.execution.provider_id@,
            true,
            true,
            binding.execution.generation,
            host.generations,
        ) is Some || (binding.execution.pinned_source matches Some(source)
            && !binding.execution.admits_source(source)) {
            Some("invalid runtime generation"@)
        } else {
            host.runtimes.attach_refusal(binding.terminal_id@)
        }
    }

    /// `execution` is the execution of `binding` under a fresh runtime generation.
    pub open spec fn rebinds(
        config: ProviderConfig,
        binding: ManagedBinding,
        generation: u64,
        execution: ManagedBinding,
    ) -> bool {
        &&& execution.names(config.identity)
        &&& execution.session_id == binding.session_id
        &&& execution.generation == binding.generation
        &&& execution.runtime_generation == generation
        &&& execution.pinned_source == binding.pinned_source
    }

    /// What starting a provider does to the host.
    pub open spec fn attaches<R, S>(
        self,
        host: ProviderHost<R, S>,
        binding: ExternalBinding,
        after: ProviderHost<R, S>,
    ) -> bool {
        let id = binding.terminal_id@;
        let config = self.configured(binding.execution.provider_id@)->0;
        &&& after.slots.active == host.slots.active + 1
        &&& after.generations == host.generations + 1
        &&& after.retention == host.retention
        &&& after.runtimes.runtimes == host.runtimes.runtimes
        &&& after.runtimes.external_sessions == host.runtimes.external_sessions
        &&& after.runtimes.provided(id)
        &&& after.runtimes.external@ == host.runtimes.external@.insert(
            id,
            after.runtimes.external@[id],
        )
        &&& after.runtimes.external@[id].started(
            config.identity,
            config.queue_capacity,
            host.generations,
            host.retention,
        )
        &&& if host.terminals@.dom().contains(id) {
            let terminal = after.terminals@[id];
            let before = host.terminals@[id];
            &&& after.terminals@ == host.terminals@.insert(id, terminal)
            &&& terminal.external_binding matches Some(bound) && bound.terminal_id@ == id
                && RuntimeProviders::rebinds(
                config,
                binding.execution,
                host.generations,
                bound.execution,
            ) && (terminal.external_transcript matches Some(text) && text.starts(bound.execution))
            &&& terminal.external_observation == Some(connecting_observation())
            &&& terminal.external_checkpoint == before.external_checkpoint
            &&& terminal.external_observed_at == before.external_observed_at
            &&& terminal.external_observed_contract == before.external_observed_contract
        } else {
            after.terminals@ == host.terminals@
        }
    }

    /// Starting a provider for a binding comes to `failure` and leaves `after` and
    /// `host_after`.
    pub open spec fn starts<R, S>(
        self,
        host: ProviderHost<R, S>,
        binding: ExternalBinding,
        verdict: CheckpointVerdict,
        now: u64,
        failure: Option<Seq<char>>,
        after: Self,
        host_after: ProviderHost<R, S>,
    ) -> bool {
        let id = binding.terminal_id@;
        match self.worker_refusal(host, binding, verdict) {
            Some(refusal) => failure == Some(refusal) && after == self && host.same_but_generation(
                host_after,
                0,
            ),
            None => match self.attachment_refusal(host, binding) {
                Some(refusal) => failure == Some(refusal) && after == self
                    && host.same_but_generation(host_after, 1),
                None => {
                    &&& failure is None
                    &&& self.attaches(host, binding, host_after)
                    &&& after.settings == self.settings
                    &&& after.diagnostic == self.diagnostic
                    &&& after.operations == self.operations
                    &&& after.polls@.dom().contains(id)
                    &&& after.polls@ == self.polls@.insert(id, after.polls@[id])
                    &&& after.polls@[id].starts_at(now)
                    &&& after.scheduled(now)
                },
            },
        }
    }

    /// Start a provider for a terminal: its worker is registered, the terminal is bound to
    /// the execution under a fresh runtime generation, and reading it is due at once. A
    /// worker that is refused after it was reserved gives its slot back; its generation
    /// stays used.
    pub fn start_runtime_provider<R, S>(
        &mut self,
        host: &mut ProviderHost<R, S>,
        binding: ExternalBinding,
        verdict: &CheckpointVerdict,
        now: u64,
    ) -> (r: Result<(), &'static str>)
        requires
            old(self).wf(),
            old(host).wf(),
        ensures
            final(self).wf(),
            final(host).wf(),
            old(self).starts(
                *old(host),
                binding,
                *verdict,
                now,
                failure_text(r),
                *final(self),
                *final(host),
            ),
    {
        if let Some(terminal) = host.terminals.get(binding.terminal_id.as_str()) {
            if let Some(checkpoint) = &terminal.external_checkpoint {
                if let Err(message) = checkpoint.validate(&verdict.bound, &verdict.parsed) {
                    return Err(message);
                }
            }
        }
        let config = match self.config(binding.execution.provider_id.as_str()) {
            Some(config) => config,
            None => {
                return Err("provider is disabled or not configured");
            },
        };
        proof {
            self.lemma_configured(binding.execution.provider_id@);
        }
        if !binding.execution.matches_identity(&config.identity) {
            return Err("configured provider identity changed");
        }
        let runtime = match ProviderRuntime::start(
            config,
            &mut host.slots,
            &mut host.generations,
            host.retention,
        ) {
            Ok(runtime) => runtime,
            Err(ProviderStartError::WorkerLimitReached) => {
                return Err("provider worker capacity is busy; retry after retiring workers exit");
            },
            Err(_) => {
                return Err("could not start provider worker");
            },
        };
        let fresh = match runtime.binding(
            binding.execution.session_id.clone(),
            binding.execution.generation,
        ) {
            Ok(fresh) => fresh,
            Err(_) => {
                host.slots.release();
                return Err("invalid runtime generation");
            },
        };
        let execution = match fresh.with_pinned_source(binding.execution.pinned_source.clone()) {
            Ok(execution) => execution,
            Err(_) => {
                host.slots.release();
                return Err("invalid runtime generation");
            },
        };
        let terminal_id = binding.terminal_id.clone();
        if let Err(message) = host.runtimes.attach_external(terminal_id.clone(), runtime) {
            host.slots.release();
            return Err(message);
        }
        if let Some(removed) = host.terminals.remove(terminal_id.as_str()) {
            assert(old(host).terminals@.dom().contains(terminal_id@));
            let mut terminal = removed;
            terminal.external_transcript = Some(TranscriptProjection::new(execution.clone()));
            terminal.external_binding = Some(
                ExternalBinding { terminal_id: terminal_id.clone(), execution },
            );
            let mut observation = ProviderObservation::default();
            observation.connection = ProviderConnection::Connecting;
            terminal.external_observation = Some(observation);
            host.terminals.insert(terminal_id.clone(), terminal);
            assert(host.terminals@ =~= old(host).terminals@.insert(
                terminal_id@,
                host.terminals@[terminal_id@],
            ));
        } else {
            assert(host.terminals@ =~= old(host).terminals@);
        }
        self.polls.insert(terminal_id, PollState::start(now));
        self.refresh_deadline(now);
        Ok(())
    }
}

/// The text that says why a takeover was not admitted.
pub open spec fn takeover_text(error: SubmitError) -> Seq<char> {
    match error {
        SubmitError::Busy => "terminal takeover was not admitted: Busy"@,
        SubmitError::Disconnected => "terminal takeover was not admitted: Disconnected"@,
        SubmitError::IdentityMismatch => "terminal takeover was not admitted: IdentityMismatch"@,
        SubmitError::Rejected => "terminal takeover was not admitted: Rejected"@,
    }
}

fn takeover_message(error: SubmitError) -> (r: &'static str)
    ensures
        r@ == takeover_text(error),
{
    match error {
        SubmitError::Busy => "terminal takeover was not admitted: Busy",
        SubmitError::Disconnected => "terminal takeover was not admitted: Disconnected",
        SubmitError::IdentityMismatch => "terminal takeover was not admitted: IdentityMismatch",
        SubmitError::Rejected => "terminal takeover was not admitted: Rejected",
    }
}

impl RuntimeProviders {
    /// Whether permission-bearing actions of a provider are enabled by its owner.
    pub open spec fn acts(self, provider_id: Seq<char>) -> bool {
        self.configured(provider_id) matches Some(config) && config.actions_allowed
    }

    pub(crate) fn may_act(&self, provider_id: &str) -> (r: bool)
        ensures
            r == self.acts(provider_id@),
    {
        match self.config(provider_id) {
            Some(config) => config.actions_allowed(),
            None => false,
        }
    }

    /// Replace the owner-local controller of an existing attachment. Only the admission to
    /// the provider's queue is decided here; the worker performs the takeover. Since it is a
    /// permission-bearing action, it needs the same opt-in of the owner as an execution.
    pub fn handle_runtime_provider_takeover<R, S>(
        &self,
        host: &mut ProviderHost<R, S>,
        terminal_id: &str,
        limits: ContractLimits,
    ) -> (r: Result<(), ApiError>)
        requires
            old(host).wf(),
        ensures
            final(host).wf(),
            !old(host).bound(terminal_id@) || !old(host).runtimes.provided(terminal_id@) ==> *final(host) == *old(host) && (r matches Err(error) && error.is(
                "attachment_not_found"@,
                "provider attachment does not exist"@,
            )),
            old(host).bound(terminal_id@) && old(host).runtimes.provided(terminal_id@) ==> {
                let execution = old(host).terminals@[terminal_id@].execution();
                &&& !self.acts(execution.provider_id@) ==> *final(host) == *old(host) && (
                r matches Err(error) && error.is(
                    "action_unavailable"@,
                    "permission-bearing provider actions are not enabled by owner configuration"@,
                ))
                &&& self.acts(execution.provider_id@) && !old(host).runtimes.modelled(terminal_id@)
                    ==> *final(host) == *old(host) && (r matches Err(error) && error.is(
                    "control_unavailable"@,
                    "terminal control has not been negotiated for this attachment"@,
                ))
                &&& self.acts(execution.provider_id@) && old(host).runtimes.modelled(terminal_id@)
                    ==> {
                    &&& *final(host) == (ProviderHost {
                        runtimes: final(host).runtimes,
                        ..*old(host)
                    })
                    &&& final(host).runtimes.runtimes == old(host).runtimes.runtimes
                    &&& final(host).runtimes.external_sessions
                        == old(host).runtimes.external_sessions
                    &&& final(host).runtimes.external@ == old(host).runtimes.external@.insert(
                        terminal_id@,
                        final(host).runtimes.external@[terminal_id@],
                    )
                    &&& exists|answer| #[trigger]
                        old(host).runtimes.external@[terminal_id@].answers(
                            ProviderCommand::TerminalTakeover { binding: execution },
                            limits,
                            true,
                            answer,
                            final(host).runtimes.external@[terminal_id@],
                        ) && (match answer {
                            Ok(_) => r is Ok,
                            Err(refusal) => r matches Err(error) && error.is(
                                "takeover_not_admitted"@,
                                takeover_text(refusal),
                            ),
                        })
                }
            },
    {
        let binding = match host.terminals.get(terminal_id) {
            Some(terminal) => match &terminal.external_binding {
                Some(binding) => binding.execution.clone(),
                None => {
                    return Err(
                        ApiError::new("attachment_not_found", "provider attachment does not exist"),
                    );
                },
            },
            None => {
                return Err(
                    ApiError::new("attachment_not_found", "provider attachment does not exist"),
                );
            },
        };
        if host.runtimes.external(terminal_id).is_none() {
            return Err(
                ApiError::new("attachment_not_found", "provider attachment does not exist"),
            );
        }
        if !self.may_act(binding.provider_id.as_str()) {
            return Err(
                ApiError::new(
                    "action_unavailable",
                    "permission-bearing provider actions are not enabled by owner configuration",
                ),
            );
        }
        if host.runtimes.external_session(terminal_id).is_none() {
            return Err(
                ApiError::new(
                    "control_unavailable",
                    "terminal control has not been negotiated for this attachment",
                ),
            );
        }
        let answer = host.runtimes.submit(
            terminal_id,
            ProviderCommand::TerminalTakeover { binding },
            limits,
            true,
        );
        match answer {
            Ok(_) => Ok(()),
            Err(refusal) => Err(ApiError::new("takeover_not_admitted", takeover_message(refusal))),
        }
    }
}

/// What a detached attachment leaves behind: its model to be closed, and its provider to
/// retire.
pub struct Detached<S> {
    pub session: Option<S>,
    pub retired: Option<ProviderRuntimeHandle>,
}

/// A terminal that lost its provider: the rest of what was observed stays.
pub open spec fn disconnected(terminal: ExternalTerminal) -> ExternalTerminal {
    ExternalTerminal {
        external_observation: Some(
            ProviderObservation {
                connection: ProviderConnection::Disconnected,
                ..match terminal.external_observation {
                    Some(observation) => observation,
                    None => ProviderObservation::unobserved(),
                }
            },
        ),
        ..terminal
    }
}

impl RuntimeProviders {
    /// Let go of the provider of a terminal. The terminal stays, and shows the execution as
    /// disconnected.
    pub fn handle_runtime_provider_detach<R, S>(
        &mut self,
        host: &mut ProviderHost<R, S>,
        terminal_id: &str,
        now: u64,
    ) -> (r: Result<Detached<S>, ApiError>)
        requires
            old(self).wf(),
            old(host).wf(),
        ensures
            final(self).wf(),
            final(host).wf(),
            r is Ok <==> old(host).bound(terminal_id@),
            r matches Err(error) ==> *final(self) == *old(self) && *final(host) == *old(host)
                && error.is("attachment_not_found"@, "provider attachment does not exist"@),
            r matches Ok(detached) ==> {
                &&& final(self).polls@ == old(self).polls@.remove(terminal_id@)
                &&& final(self).operations == old(self).operations
                &&& final(self).settings == old(self).settings
                &&& final(self).diagnostic == old(self).diagnostic
                &&& final(self).scheduled(now)
                &&& final(host).slots == old(host).slots
                &&& final(host).generations == old(host).generations
                &&& final(host).retention == old(host).retention
                &&& final(host).runtimes.runtimes == old(host).runtimes.runtimes
                &&& final(host).runtimes.external@ == old(host).runtimes.external@.remove(
                    terminal_id@,
                )
                &&& final(host).runtimes.external_sessions@ == old(host).runtimes.external_sessions@.remove(terminal_id@)
                &&& final(host).terminals@ == old(host).terminals@.insert(
                    terminal_id@,
                    disconnected(old(host).terminals@[terminal_id@]),
                )
                &&& detached.session is Some <==> old(host).runtimes.modelled(terminal_id@)
                &&& detached.session matches Some(session) ==> session == old(host).runtimes.external_sessions@[terminal_id@]
                &&& detached.retired is Some <==> old(host).runtimes.provided(terminal_id@)
                &&& detached.retired matches Some(handle) ==> handle.wf() && handle.stopped
                    && handle.detached && old(host).runtimes.external@[terminal_id@].retires(handle)
            },
    {
        let attached: bool = match host.terminals.get(terminal_id) {
            Some(terminal) => terminal.external_binding.is_some(),
            None => false,
        };
        if !attached {
            return Err(
                ApiError::new("attachment_not_found", "provider attachment does not exist"),
            );
        }
        self.remove(terminal_id, now);
        let (session, retired) = host.runtimes.shutdown_external(terminal_id);
        if let Some(removed) = host.terminals.remove(terminal_id) {
            let mut terminal = removed;
            let mut observation = match terminal.external_observation.take() {
                Some(observation) => observation,
                None => ProviderObservation::default(),
            };
            observation.connection = ProviderConnection::Disconnected;
            terminal.external_observation = Some(observation);
            host.terminals.insert(terminal_id.to_owned(), terminal);
            assert(host.terminals@ =~= old(host).terminals@.insert(
                terminal_id@,
                disconnected(old(host).terminals@[terminal_id@]),
            ));
        }
        Ok(Detached { session, retired })
    }
}

/// A terminal whose provider could not be started, and why.
pub open spec fn not_started(
    before: ExternalTerminal,
    message: Seq<char>,
    after: ExternalTerminal,
) -> bool {
    &&& after == (ExternalTerminal { external_observation: after.external_observation, ..before })
    &&& after.external_observation matches Some(observation) && observation == (
    ProviderObservation { diagnostic: observation.diagnostic, ..ProviderObservation::unobserved() })
        && (observation.diagnostic matches Some(text) && text@ == message)
}

/// The entry of a table that stands for a terminal to be restored.
pub open spec fn restorable<R, S>(
    runtimes: TerminalRuntimeRegistry<R, S>,
) -> spec_fn((String, ExternalTerminal)) -> bool {
    |entry: (String, ExternalTerminal)|
        entry.1.external_binding matches Some(binding) && !runtimes.provided(binding.terminal_id@)
}

impl<R, S> ProviderHost<R, S> {
    /// The terminals whose providers have to be started again after a restart, in the order
    /// of the table.
    pub fn restorable_terminals(&self) -> (r: Vec<String>)
        requires
            self.wf(),
        ensures
            r@.len() == self.terminals.entries@.filter(restorable(self.runtimes)).len(),
            forall|i: int|
                0 <= i < r@.len() ==> (#[trigger] r@[i])@ == self.terminals.entries@.filter(
                    restorable(self.runtimes),
                )[i].0@,
    {
        let mut found: Vec<String> = Vec::new();
        let ghost keep = restorable(self.runtimes);
        let ghost entries = self.terminals.entries@;
        let mut i: usize = 0;
        proof {
            reveal(Seq::filter);
        }
        while i < self.terminals.entries.len()
            invariant
                self.wf(),
                entries == self.terminals.entries@,
                keep == restorable(self.runtimes),
                i <= entries.len(),
                found@.len() == entries.take(i as int).filter(keep).len(),
                forall|j: int|
                    0 <= j < found@.len() ==> (#[trigger] found@[j])@ == entries.take(
                        i as int,
                    ).filter(keep)[j].0@,
            decreases entries.len() - i,
        {
            let entry = &self.terminals.entries[i];
            let ghost before = found@;
            proof {
                reveal(Seq::filter);
                assert(entries.take(i + 1).drop_last() =~= entries.take(i as int));
                assert(entries.take(i + 1).last() == entries[i as int]);
            }
            if let Some(binding) = &entry.1.external_binding {
                if self.runtimes.external(binding.terminal_id.as_str()).is_none() {
                    found.push(entry.0.clone());
                }
            }
            i = i + 1;
        }
        assert(entries.take(i as int) =~= entries);
        found
    }
}

impl RuntimeProviders {
    /// Start the provider of a terminal again after a restart. A provider that cannot be
    /// started leaves the reason on its terminal.
    pub fn restore_runtime_provider<R, S>(
        &mut self,
        host: &mut ProviderHost<R, S>,
        terminal_id: &str,
        verdict: &CheckpointVerdict,
        now: u64,
    )
        requires
            old(self).wf(),
            old(host).wf(),
        ensures
            final(self).wf(),
            final(host).wf(),
            !old(host).bound(terminal_id@) ==> *final(self) == *old(self) && *final(host) == *old(host),
            old(host).bound(terminal_id@) ==> {
                let binding = old(host).terminals@[terminal_id@].external_binding->0;
                let id = binding.terminal_id@;
                &&& old(host).runtimes.provided(id) ==> *final(self) == *old(self) && *final(host)
                    == *old(host)
                &&& !old(host).runtimes.provided(id) ==> exists|
                    failure: Option<Seq<char>>,
                    middle: ProviderHost<R, S>,
                | #[trigger]
                    old(self).starts(
                        *old(host),
                        binding,
                        *verdict,
                        now,
                        failure,
                        *final(self),
                        middle,
                    ) && (match failure {
                        None => *final(host) == middle,
                        Some(message) => {
                            &&& *final(host) == (ProviderHost {
                                terminals: final(host).terminals,
                                ..middle
                            })
                            &&& if middle.terminals@.dom().contains(id) {
                                &&& final(host).terminals@ == middle.terminals@.insert(
                                    id,
                                    final(host).terminals@[id],
                                )
                                &&& not_started(
                                    middle.terminals@[id],
                                    message,
                                    final(host).terminals@[id],
                                )
                            } else {
                                final(host).terminals@ == middle.terminals@
                            }
                        },
                    })
            },
    {
        let binding = match host.terminals.get(terminal_id) {
            Some(terminal) => match &terminal.external_binding {
                Some(binding) => binding.clone(),
                None => {
                    return ;
                },
            },
            None => {
                return ;
            },
        };
        if host.runtimes.external(binding.terminal_id.as_str()).is_some() {
            return ;
        }
        let id = binding.terminal_id.clone();
        let started = self.start_runtime_provider(host, binding, verdict, now);
        let ghost middle = *host;
        if let Err(message) = started {
            if let Some(removed) = host.terminals.remove(id.as_str()) {
                let mut terminal = removed;
                let mut observation = ProviderObservation::default();
                observation.diagnostic = Some(message.to_owned());
                terminal.external_observation = Some(observation);
                host.terminals.insert(id.clone(), terminal);
                assert(host.terminals@ =~= middle.terminals@.insert(id@, terminal));
            } else {
                assert(host.terminals@ =~= middle.terminals@);
            }
        }
        assert(old(self).starts(
            *old(host),
            old(host).terminals@[terminal_id@].external_binding->0,
            *verdict,
            now,
            failure_text(started),
            *self,
            middle,
        ));
    }
}

/// The workspaces that a new attachment can go to: the one that was asked for, where it
/// could be read, the one that is active, and how many there are.
#[derive(Clone, Copy)]
pub struct WorkspaceChoice {
    pub requested: Option<usize>,
    pub active: Option<usize>,
    pub count: usize,
}

impl WorkspaceChoice {
    /// The workspace that is chosen, if there is one.
    pub open spec fn chosen(self, named: bool) -> Option<usize> {
        let index = if named {
            self.requested
        } else {
            self.active
        };
        if index is Some && index->0 < self.count {
            index
        } else {
            None
        }
    }

    fn choose_workspace(&self, named: bool) -> (r: Option<usize>)
        ensures
            r == self.chosen(named),
    {
        let index = if named {
            self.requested
        } else {
            self.active
        };
        match index {
            Some(index) => if index < self.count {
                Some(index)
            } else {
                None
            },
            None => None,
        }
    }
}

/// What attaching an execution comes to.
pub enum AttachPlan {
    /// The code and the message of the refusal.
    Refused(Seq<char>, Seq<char>),
    /// A terminal shows the execution already.
    Reused(ExternalBinding),
    /// A new terminal shows it, in the workspace given or in a new one.
    Created(Seq<char>, Option<usize>),
}

/// A terminal shows a session of a provider.
pub open spec fn shows_session(
    terminal: ExternalTerminal,
    provider_id: Seq<char>,
    session_id: Seq<char>,
) -> bool {
    terminal.external_binding matches Some(binding) && binding.execution.provider_id@
        == provider_id && binding.execution.session_id@ == session_id
}

/// The first terminal, from `i` on, that shows a session of a provider.
pub open spec fn first_showing(
    entries: Seq<(String, ExternalTerminal)>,
    provider_id: Seq<char>,
    session_id: Seq<char>,
    i: nat,
) -> Option<ExternalBinding>
    decreases entries.len() - i,
{
    if i >= entries.len() {
        None
    } else if shows_session(entries[i as int].1, provider_id, session_id) {
        entries[i as int].1.external_binding
    } else {
        first_showing(entries, provider_id, session_id, i + 1)
    }
}

/// How many of the first `n` terminals show an external execution.
pub open spec fn bound_count(entries: Seq<(String, ExternalTerminal)>, n: nat) -> nat
    decreases n,
{
    if n == 0 {
        0
    } else {
        bound_count(entries, (n - 1) as nat) + if entries[n - 1].1.external_binding is Some {
            1nat
        } else {
            0nat
        }
    }
}

/// Whether a label can be given to a new attachment.
pub open spec fn label_ok(label: Option<String>) -> bool {
    label matches Some(label) ==> byte_len(label@) <= 256 && !has_control(label@)
}

impl<R, S> ProviderHost<R, S> {
    fn find_showing(&self, provider_id: &str, session_id: &str) -> (r: Option<ExternalBinding>)
        ensures
            r == first_showing(self.terminals.entries@, provider_id@, session_id@, 0),
    {
        let mut i: usize = 0;
        while i < self.terminals.entries.len()
            invariant
                i <= self.terminals.entries@.len(),
                first_showing(self.terminals.entries@, provider_id@, session_id@, 0)
                    == first_showing(
                    self.terminals.entries@,
                    provider_id@,
                    session_id@,
                    i as nat,
                ),
            decreases self.terminals.entries@.len() - i,
        {
            if let Some(binding) = &self.terminals.entries[i].1.external_binding {
                if same(binding.execution.provider_id.as_str(), provider_id) && same(
                    binding.execution.session_id.as_str(),
                    session_id,
                ) {
                    return Some(binding.clone());
                }
            }
            i = i + 1;
        }
        None
    }

    fn count_bound(&self) -> (r: usize)
        ensures
            r == bound_count(self.terminals.entries@, self.terminals.entries@.len()),
    {
        let mut count: usize = 0;
        let mut i: usize = 0;
        while i < self.terminals.entries.len()
            invariant
                i <= self.terminals.entries@.len(),
                count <= i,
                count == bound_count(self.terminals.entries@, i as nat),
            decreases self.terminals.entries@.len() - i,
        {
            if self.terminals.entries[i].1.external_binding.is_some() {
                count = count + 1;
            }
            i = i + 1;
        }
        count
    }
}

impl RuntimeProviders {
    /// What attaching an execution comes to. `session_ok` is the daemon client's verdict on
    /// the session id, and `fresh` the id that a new terminal would get, if one is left.
    pub open spec fn attach_plan<R, S>(
        self,
        host: ProviderHost<R, S>,
        params: RuntimeProviderAttachParams,
        session_ok: bool,
        workspaces: WorkspaceChoice,
        fresh: Option<String>,
    ) -> AttachPlan {
        let entries = host.terminals.entries@;
        match self.configured(params.provider_id@) {
            None => AttachPlan::Refused(
                "provider_unavailable"@,
                "provider is disabled or not configured"@,
            ),
            Some(config) => if !session_ok {
                AttachPlan::Refused("invalid_params"@, "invalid session id"@)
            } else if !generation_in_range(params.generation) || !label_ok(params.label) {
                AttachPlan::Refused("invalid_params"@, "invalid generation or label"@)
            } else {
                match first_showing(entries, params.provider_id@, params.session_id@, 0) {
                    Some(binding) => if binding.execution.generation != params.generation
                        || !binding.execution.names(config.identity) {
                        AttachPlan::Refused(
                            "identity_mismatch"@,
                            "existing attachment has a different execution identity"@,
                        )
                    } else {
                        AttachPlan::Reused(binding)
                    },
                    None => if bound_count(entries, entries.len()) >= MAX_ATTACHMENTS {
                        AttachPlan::Refused("attachment_limit"@, "external terminal limit reached"@)
                    } else if params.workspace_id is Some && workspaces.chosen(true) is None {
                        AttachPlan::Refused("workspace_not_found"@, "no matching workspace"@)
                    } else if fresh is None || host.terminals@.dom().contains(fresh->0@) {
                        AttachPlan::Refused(
                            "attachment_unavailable"@,
                            "terminal identity allocation failed"@,
                        )
                    } else if binding_defect(
                        config.identity.provider_id@,
                        true,
                        true,
                        params.generation,
                        1,
                    ) is Some {
                        AttachPlan::Refused("invalid_params"@, "invalid execution identity"@)
                    } else {
                        AttachPlan::Created(
                            fresh->0@,
                            workspaces.chosen(params.workspace_id is Some),
                        )
                    },
                }
            },
        }
    }

    /// An attachment whose reading has stopped is let go of before it is started again.
    pub open spec fn lets_go<R, S>(
        self,
        host: ProviderHost<R, S>,
        id: Seq<char>,
        now: u64,
        after: Self,
        host_after: ProviderHost<R, S>,
    ) -> bool {
        if self.polls@.dom().contains(id) && self.polls@[id].stopped {
            &&& after.polls@ == self.polls@.remove(id)
            &&& after.operations == self.operations
            &&& after.settings == self.settings
            &&& after.diagnostic == self.diagnostic
            &&& after.scheduled(now)
            &&& host_after == (ProviderHost { runtimes: host_after.runtimes, ..host })
            &&& host_after.runtimes.runtimes == host.runtimes.runtimes
            &&& host_after.runtimes.external@ == host.runtimes.external@.remove(id)
            &&& host_after.runtimes.external_sessions@ == host.runtimes.external_sessions@.remove(
                id,
            )
        } else {
            after == self && host_after == host
        }
    }

    /// `host_after` is the host with one more terminal, bound and not started.
    pub open spec fn adds_terminal<R, S>(
        host: ProviderHost<R, S>,
        binding: ExternalBinding,
        host_after: ProviderHost<R, S>,
    ) -> bool {
        let id = binding.terminal_id@;
        let terminal = host_after.terminals@[id];
        &&& host_after == (ProviderHost { terminals: host_after.terminals, ..host })
        &&& host_after.terminals@ == host.terminals@.insert(id, terminal)
        &&& terminal.external_binding == Some(binding)
        &&& terminal.external_observation is None
        &&& terminal.external_transcript is None
        &&& terminal.external_checkpoint is None
        &&& terminal.external_observed_at is None
        &&& terminal.external_observed_contract is None
    }
}

/// The terminal that an execution was attached to. A new terminal goes to the workspace
/// given, or to a new one.
pub struct Attached {
    pub terminal_id: String,
    pub created: bool,
    pub workspace: Option<usize>,
}

/// The text of a refusal to start a provider, where the answer is one.
pub open spec fn start_failure(r: Result<Attached, ApiError>) -> Option<Seq<char>> {
    match r {
        Ok(_) => None,
        Err(error) => Some(error.message@),
    }
}

impl RuntimeProviders {
    fn planned<R, S>(
        &self,
        host: &ProviderHost<R, S>,
        params: &RuntimeProviderAttachParams,
        session_ok: bool,
        workspaces: WorkspaceChoice,
        fresh: &Option<String>,
    ) -> (r: Result<(ExternalBinding, bool, Option<usize>), ApiError>)
        requires
            self.wf(),
            host.wf(),
        ensures
            match self.attach_plan(*host, *params, session_ok, workspaces, *fresh) {
                AttachPlan::Refused(code, message) => r matches Err(error) && error.is(
                    code,
                    message,
                ),
                AttachPlan::Reused(binding) => r matches Ok(plan) && plan.0 == binding && !plan.1,
                AttachPlan::Created(id, workspace) => r matches Ok(plan) && plan.1 && plan.2
                    == workspace && plan.0.terminal_id@ == id && bound_anew(
                    self.configured(params.provider_id@)->0,
                    *params,
                    plan.0.execution,
                ),
            },
    {
        let config = match self.config(params.provider_id.as_str()) {
            Some(config) => config,
            None => {
                return Err(
                    ApiError::new(
                        "provider_unavailable",
                        "provider is disabled or not configured",
                    ),
                );
            },
        };
        if !session_ok {
            return Err(ApiError::new("invalid_params", "invalid session id"));
        }
        let labelled: bool = match &params.label {
            Some(label) => byte_count(label.as_str()) <= 256 && !contains_control(label.as_str()),
            None => true,
        };
        if params.generation == 0 || params.generation > 0x7fff_ffff_ffff_ffff || !labelled {
            return Err(ApiError::new("invalid_params", "invalid generation or label"));
        }
        if let Some(binding) = host.find_showing(
            params.provider_id.as_str(),
            params.session_id.as_str(),
        ) {
            if binding.execution.generation != params.generation
                || !binding.execution.matches_identity(&config.identity) {
                return Err(
                    ApiError::new(
                        "identity_mismatch",
                        "existing attachment has a different execution identity",
                    ),
                );
            }
            return Ok((binding, false, None));
        }
        if host.count_bound() >= MAX_ATTACHMENTS {
            return Err(ApiError::new("attachment_limit", "external terminal limit reached"));
        }
        let named: bool = params.workspace_id.is_some();
        let workspace = workspaces.choose_workspace(named);
        if named && workspace.is_none() {
            return Err(ApiError::new("workspace_not_found", "no matching workspace"));
        }
        let terminal_id = match fresh {
            Some(id) => id,
            None => {
                return Err(
                    ApiError::new("attachment_unavailable", "terminal identity allocation failed"),
                );
            },
        };
        if host.terminals.contains(terminal_id.as_str()) {
            return Err(
                ApiError::new("attachment_unavailable", "terminal identity allocation failed"),
            );
        }
        match ManagedBinding::from_identity(
            &config.identity,
            params.session_id.clone(),
            params.generation,
            1,
        ) {
            Ok(execution) => Ok(
                (ExternalBinding { terminal_id: terminal_id.clone(), execution }, true, workspace),
            ),
            Err(_) => Err(ApiError::new("invalid_params", "invalid execution identity")),
        }
    }

    /// Attach an execution to a terminal. A terminal that shows the execution already is
    /// kept, and its provider started where it has none or has stopped reading; else a new
    /// terminal is bound to it. A new terminal whose provider cannot be started is not kept.
    /// What was let go of comes back beside the answer.
    pub fn handle_runtime_provider_attach<R, S>(
        &mut self,
        host: &mut ProviderHost<R, S>,
        params: &RuntimeProviderAttachParams,
        session_ok: bool,
        workspaces: WorkspaceChoice,
        fresh: &Option<String>,
        verdict: &CheckpointVerdict,
        now: u64,
    ) -> (r: (Result<Attached, ApiError>, Detached<S>))
        requires
            old(self).wf(),
            old(host).wf(),
        ensures
            final(self).wf(),
            final(host).wf(),
            r.0 matches Err(error) ==> (old(self).attach_plan(
                *old(host),
                *params,
                session_ok,
                workspaces,
                *fresh,
            ) is Refused || error.code@ == "provider_unavailable"@),
            match old(self).attach_plan(*old(host), *params, session_ok, workspaces, *fresh) {
                AttachPlan::Refused(code, message) => {
                    &&& r.0 matches Err(error) && error.is(code, message)
                    &&& r.1.session is None && r.1.retired is None
                    &&& *final(self) == *old(self)
                    &&& *final(host) == *old(host)
                },
                AttachPlan::Reused(binding) => {
                    let id = binding.terminal_id@;
                    let stopped = old(self).polls@.dom().contains(id) && old(self).polls@[id].stopped;
                    &&& r.0 matches Ok(attached) ==> attached.terminal_id@ == id
                        && !attached.created
                    &&& r.1.session is Some <==> stopped && old(host).runtimes.modelled(id)
                    &&& r.1.session matches Some(session) ==> session == old(host).runtimes.external_sessions@[id]
                    &&& r.1.retired is Some <==> stopped && old(host).runtimes.provided(id)
                    &&& r.1.retired matches Some(handle) ==> handle.wf() && handle.stopped
                        && handle.detached && old(host).runtimes.external@[id].retires(handle)
                    &&& exists|middle: RuntimeProviders, middle_host: ProviderHost<R, S>|
                        #[trigger] old(self).lets_go(*old(host), id, now, middle, middle_host) && (
                        if middle_host.runtimes.provided(id) {
                            r.0 is Ok && *final(self) == middle && *final(host) == middle_host
                        } else {
                            middle.starts(
                                middle_host,
                                binding,
                                *verdict,
                                now,
                                start_failure(r.0),
                                *final(self),
                                *final(host),
                            )
                        })
                },
                AttachPlan::Created(id, workspace) => {
                    &&& r.0 matches Ok(attached) ==> attached.terminal_id@ == id
                        && attached.created && attached.workspace == workspace
                    &&& r.1.session is None && r.1.retired is None
                    &&& exists|
                        binding: ExternalBinding,
                        middle: ProviderHost<R, S>,
                        ended: ProviderHost<R, S>,
                    |
                        #![trigger RuntimeProviders::adds_terminal(*old(host), binding, middle), ended.terminals]
                        {
                            &&& binding.terminal_id@ == id
                            &&& bound_anew(
                                old(self).configured(params.provider_id@)->0,
                                *params,
                                binding.execution,
                            )
                            &&& RuntimeProviders::adds_terminal(*old(host), binding, middle)
                            &&& old(self).starts(
                                middle,
                                binding,
                                *verdict,
                                now,
                                start_failure(r.0),
                                *final(self),
                                ended,
                            )
                            &&& *final(host) == (ProviderHost {
                                terminals: final(host).terminals,
                                ..ended
                            })
                            &&& final(host).terminals@ == if r.0 is Ok {
                                ended.terminals@
                            } else {
                                ended.terminals@.remove(id)
                            }
                        }
                },
            },
    {
        let nothing: Detached<S> = Detached { session: None, retired: None };
        let (binding, created, workspace) = match self.planned(
            host,
            params,
            session_ok,
            workspaces,
            fresh,
        ) {
            Ok(plan) => plan,
            Err(error) => {
                return (Err(error), nothing);
            },
        };
        let terminal_id = binding.terminal_id.clone();
        if !created {
            let stopped: bool = match self.polls.get(terminal_id.as_str()) {
                Some(poll) => poll.stopped,
                None => false,
            };
            let mut left = nothing;
            if stopped {
                self.remove(terminal_id.as_str(), now);
                let (session, retired) = host.runtimes.shutdown_external(terminal_id.as_str());
                left = Detached { session, retired };
            }
            let ghost middle = *self;
            let ghost middle_host = *host;
            assert(old(self).lets_go(*old(host), terminal_id@, now, middle, middle_host));
            if host.runtimes.external(terminal_id.as_str()).is_none() {
                if let Err(message) = self.start_runtime_provider(host, binding, verdict, now) {
                    return (Err(ApiError::new("provider_unavailable", message)), left);
                }
            }
            return (Ok(Attached { terminal_id, created: false, workspace: None }), left);
        }
        host.terminals.insert(terminal_id.clone(), ExternalTerminal::bound(binding.clone()));
        let ghost middle = *host;
        assert(RuntimeProviders::adds_terminal(*old(host), binding, middle));
        let started = self.start_runtime_provider(host, binding, verdict, now);
        let ghost ended = *host;
        assert(ended.terminals == host.terminals);
        if let Err(message) = started {
            host.terminals.remove(terminal_id.as_str());
            return (Err(ApiError::new("provider_unavailable", message)), nothing);
        }
        (Ok(Attached { terminal_id, created: true, workspace }), nothing)
    }
}

/// `execution` is what a request to attach names, before a provider was started for it.
pub open spec fn bound_anew(
    config: ProviderConfig,
    params: RuntimeProviderAttachParams,
    execution: ManagedBinding,
) -> bool {
    &&& execution.names(config.identity)
    &&& execution.session_id == params.session_id
    &&& execution.generation == params.generation
    &&& execution.runtime_generation == 1
    &&& execution.pinned_source is None
}

/// An execution is attached only for a provider that its owner has configured, under a session
/// id and a generation in order.
pub proof fn only_configured_executions_are_attached<R, S>(
    providers: RuntimeProviders,
    host: ProviderHost<R, S>,
    params: RuntimeProviderAttachParams,
    session_ok: bool,
    workspaces: WorkspaceChoice,
    fresh: Option<String>,
)
    ensures
        ({
            let plan = providers.attach_plan(host, params, session_ok, workspaces, fresh);
            let configured = providers.configured(params.provider_id@) is Some;
            let in_order = session_ok && 0 < params.generation <= i64::MAX && params.label is None;
            &&& !configured ==> (plan matches AttachPlan::Refused(code, _) && code
                == "provider_unavailable"@)
            &&& configured && !session_ok ==> (plan matches AttachPlan::Refused(code, message)
                && code == "invalid_params"@ && message == "invalid session id"@)
            &&& configured && session_ok && (params.generation == 0 || params.generation
                > i64::MAX) ==> (plan matches AttachPlan::Refused(code, message) && code
                == "invalid_params"@ && message == "invalid generation or label"@)
            &&& configured && session_ok && (params.label matches Some(label) && byte_len(label@)
                > 256) ==> (plan matches AttachPlan::Refused(code, _) && code == "invalid_params"@)
            &&& configured && in_order && host.terminals.entries@.len() == 0
                && params.workspace_id is None && fresh is Some && binding_defect(
                providers.configured(params.provider_id@)->0.identity.provider_id@,
                true,
                true,
                params.generation,
                1,
            ) is None ==> (plan matches AttachPlan::Created(id, workspace) && id == fresh->0@
                && workspace == (if workspaces.active matches Some(index) && index
                < workspaces.count {
                workspaces.active
            } else {
                None
            }))
            &&& !(plan is Refused) ==> configured && session_ok && 0 < params.generation
                <= i64::MAX
        }),
{
}

proof fn lemma_first_showing(
    entries: Seq<(String, ExternalTerminal)>,
    provider_id: Seq<char>,
    session_id: Seq<char>,
    from: nat,
)
    ensures
        first_showing(entries, provider_id, session_id, from) matches Some(binding)
            ==> binding.execution.provider_id@ == provider_id && binding.execution.session_id@
            == session_id && exists|i: int|
            from <= i < entries.len() && (#[trigger] entries[i]).1.external_binding == Some(
                binding,
            ),
        first_showing(entries, provider_id, session_id, from) is None ==> forall|i: int|
            from <= i < entries.len() ==> ((#[trigger] entries[i]).1.external_binding
                matches Some(binding) ==> binding.execution.provider_id@ != provider_id
                || binding.execution.session_id@ != session_id),
    decreases entries.len() - from,
{
    if from < entries.len() && !shows_session(entries[from as int].1, provider_id, session_id) {
        lemma_first_showing(entries, provider_id, session_id, from + 1);
    }
}

/// A session is shown by one terminal: where one shows it already, it is that one that is
/// attached, and only in the generation it shows; a new terminal is made only where none does.
pub proof fn sessions_are_shown_by_one_terminal<R, S>(
    providers: RuntimeProviders,
    host: ProviderHost<R, S>,
    params: RuntimeProviderAttachParams,
    session_ok: bool,
    workspaces: WorkspaceChoice,
    fresh: Option<String>,
)
    ensures
        ({
            let plan = providers.attach_plan(host, params, session_ok, workspaces, fresh);
            &&& plan matches AttachPlan::Reused(binding) ==> binding.execution.provider_id@
                == params.provider_id@ && binding.execution.session_id@ == params.session_id@
                && binding.execution.generation == params.generation && exists|i: int|
                0 <= i < host.terminals.entries@.len() && (
                #[trigger] host.terminals.entries@[i]).1.external_binding == Some(binding)
            &&& plan matches AttachPlan::Created(id, workspace) ==> fresh is Some && id == fresh->0@
                && !host.terminals@.dom().contains(id) && (params.workspace_id is Some
                ==> workspace is Some && workspace == workspaces.requested) && (forall|i: int|
                0 <= i < host.terminals.entries@.len() ==> ((
                #[trigger] host.terminals.entries@[i]).1.external_binding matches Some(binding)
                    ==> binding.execution.provider_id@ != params.provider_id@
                    || binding.execution.session_id@ != params.session_id@))
        }),
{
    lemma_first_showing(host.terminals.entries@, params.provider_id@, params.session_id@, 0);
}

/// A terminal that shows the session in another generation is not attached.
pub proof fn other_generations_are_not_attached<R, S>(
    providers: RuntimeProviders,
    host: ProviderHost<R, S>,
    params: RuntimeProviderAttachParams,
    workspaces: WorkspaceChoice,
    fresh: Option<String>,
)
    requires
        providers.configured(params.provider_id@) is Some,
        0 < params.generation <= i64::MAX,
        params.label is None,
        host.terminals.entries@.len() == 1,
        host.terminals.entries@[0].1.external_binding matches Some(binding)
            && binding.execution.provider_id@ == params.provider_id@
            && binding.execution.session_id@ == params.session_id@,
    ensures
        host.terminals.entries@[0].1.external_binding->0.execution.generation != params.generation
            ==> (providers.attach_plan(host, params, true, workspaces, fresh)
            matches AttachPlan::Refused(code, _) && code == "identity_mismatch"@),
        host.terminals.entries@[0].1.external_binding->0.execution.generation == params.generation
            && host.terminals.entries@[0].1.external_binding->0.execution.names(
            providers.configured(params.provider_id@)->0.identity,
        ) ==> providers.attach_plan(host, params, true, workspaces, fresh) is Reused,
{
    let entries = host.terminals.entries@;
    assert(shows_session(entries[0].1, params.provider_id@, params.session_id@));
}

/// A workspace that was asked for is used where it is there; without one the active one is, if
/// there is one.
pub proof fn workspaces_are_chosen_as_asked(workspaces: WorkspaceChoice)
    ensures
        workspaces.chosen(true) matches Some(index) ==> workspaces.requested == Some(index) && index
            < workspaces.count,
        workspaces.chosen(false) matches Some(index) ==> workspaces.active == Some(index) && index
            < workspaces.count,
        workspaces.requested matches Some(index) && index < workspaces.count
            ==> workspaces.chosen(true) == workspaces.requested,
        workspaces.active matches Some(index) && index < workspaces.count ==> workspaces.chosen(
            false,
        ) == workspaces.active,
{
}

/// A provider that was started for a terminal is its owner's, and new; the terminal shows the
/// execution it was bound to, as connecting, with an empty text.
pub proof fn attached_terminals_start_anew<R, S>(
    providers: RuntimeProviders,
    host: ProviderHost<R, S>,
    binding: ExternalBinding,
    after: ProviderHost<R, S>,
)
    requires
        providers.attaches(host, binding, after),
        host.terminals@.dom().contains(binding.terminal_id@),
    ensures
        ({
            let id = binding.terminal_id@;
            let config = providers.configured(binding.execution.provider_id@)->0;
            let terminal = after.terminals@[id];
            let bound = terminal.external_binding->0.execution;
            &&& terminal.external_binding is Some
            &&& bound.session_id == binding.execution.session_id
            &&& bound.generation == binding.execution.generation
            &&& bound.pinned_source == binding.execution.pinned_source
            &&& bound.runtime_generation == host.generations
            &&& bound.provider_id@ == config.identity.provider_id@
            &&& bound.host_id@ == config.identity.host_id@
            &&& terminal.external_observation matches Some(seen) && seen.connection is Connecting
                && seen.activity is Unknown && seen.diagnostic is None
            &&& terminal.external_transcript matches Some(text) && text.retained().lines.len() == 0
                && text.position() is None
            &&& after.runtimes.external@.dom().contains(id)
            &&& after.runtimes.external@[id].runtime_generation == host.generations
            &&& after.runtimes.external@[id].commands@.len() == 0
            &&& !after.runtimes.external@[id].stopped && !after.runtimes.external@[id].detached
            &&& after.generations == host.generations + 1
            &&& after.slots.active == host.slots.active + 1
            &&& forall|other: Seq<char>|
                other != id && #[trigger] host.terminals@.dom().contains(other)
                    ==> after.terminals@.dom().contains(other) && after.terminals@[other]
                    == host.terminals@[other]
        }),
{
}

/// No provider is started whose saved stream does not fit, whose owner has changed it or removed
/// it, or for which there is no room.
pub proof fn providers_are_started_only_in_order<R, S>(
    providers: RuntimeProviders,
    host: ProviderHost<R, S>,
    binding: ExternalBinding,
    verdict: CheckpointVerdict,
)
    ensures
        ({
            let refusal = providers.worker_refusal(host, binding, verdict);
            let config = providers.configured(binding.execution.provider_id@);
            &&& config is None ==> refusal is Some
            &&& config matches Some(config) ==> (config.identity.provider_id@
                != binding.execution.provider_id@ || config.identity.host_id@
                != binding.execution.host_id@ ==> refusal is Some)
            &&& host.slots.active >= MAX_PROVIDER_WORKERS ==> refusal is Some
            &&& host.saved_defect(binding.terminal_id@, verdict) is Some ==> refusal
                == host.saved_defect(binding.terminal_id@, verdict)
            &&& host.runtimes.provided(binding.terminal_id@) ==> providers.attachment_refusal(
                host,
                binding,
            ) is Some
        }),
{
}

/// A terminal that was detached is shown as disconnected; nothing else of it changes.
pub proof fn detached_terminals_are_shown_as_disconnected(terminal: ExternalTerminal)
    ensures
        disconnected(terminal).external_observation matches Some(seen)
            && seen.connection is Disconnected && (
        terminal.external_observation matches Some(known) ==> seen.lifecycle == known.lifecycle
            && seen.activity == known.activity && seen.diagnostic == known.diagnostic
            && seen.durability == known.durability && seen.writer_state == known.writer_state),
        disconnected(terminal).external_binding == terminal.external_binding,
        disconnected(terminal).external_transcript == terminal.external_transcript,
        disconnected(terminal).external_checkpoint == terminal.external_checkpoint,
{
}

/// A takeover that was not admitted says why.
pub proof fn refused_takeovers_say_why()
    ensures
        takeover_text(SubmitError::Busy) == "terminal takeover was not admitted: Busy"@,
        takeover_text(SubmitError::Disconnected)
            == "terminal takeover was not admitted: Disconnected"@,
        takeover_text(SubmitError::IdentityMismatch)
            == "terminal takeover was not admitted: IdentityMismatch"@,
        takeover_text(SubmitError::Rejected) == "terminal takeover was not admitted: Rejected"@,
{
}

/// Where a provider could not be started again, its terminal says why and is shown as
/// disconnected; nothing else of it changes.
pub proof fn failed_restarts_are_shown(
    before: ExternalTerminal,
    message: Seq<char>,
    after: ExternalTerminal,
)
    requires
        not_started(before, message, after),
    ensures
        after.external_observation matches Some(seen) && seen.connection is Disconnected && (
        seen.diagnostic matches Some(text) && text@ == message),
        after.external_binding == before.external_binding,
        after.external_transcript == before.external_transcript,
        after.external_checkpoint == before.external_checkpoint,
{
}

/// Only a terminal that is bound and has no provider is restored.
pub proof fn bound_terminals_without_provider_are_restored<R, S>(
    runtimes: TerminalRuntimeRegistry<R, S>,
    entry: (String, ExternalTerminal),
)
    ensures
        restorable(runtimes)(entry) <==> entry.1.external_binding is Some
            && !runtimes.external@.dom().contains(entry.1.external_binding->0.terminal_id@),
{
}

/// A provider that is refused changes nothing but, at most, the number of the next
/// generation, and the refusal is told; one that is started is polled from now on.
pub proof fn refused_starts_change_nothing<R, S>(
    providers: RuntimeProviders,
    host: ProviderHost<R, S>,
    binding: ExternalBinding,
    verdict: CheckpointVerdict,
    now: u64,
    failure: Option<Seq<char>>,
    after: RuntimeProviders,
    host_after: ProviderHost<R, S>,
)
    requires
        providers.starts(host, binding, verdict, now, failure, after, host_after),
    ensures
        failure is Some ==> after == providers && host_after.terminals == host.terminals
            && host_after.runtimes == host.runtimes && host_after.slots.active == host.slots.active
            && host.generations <= host_after.generations <= host.generations + 1,
        providers.worker_refusal(host, binding, verdict) is Some ==> failure
            == providers.worker_refusal(host, binding, verdict) && host_after.generations
            == host.generations,
        failure is None ==> providers.worker_refusal(host, binding, verdict) is None
            && providers.attachment_refusal(host, binding) is None && host_after.generations
            == host.generations + 1 && host_after.slots.active == host.slots.active + 1
            && after.polls@.dom().contains(binding.terminal_id@) && after.operations
            == providers.operations && after.settings == providers.settings,
        failure is None ==> forall|id: Seq<char>|
            id != binding.terminal_id@ && #[trigger] providers.polls@.dom().contains(id)
                ==> after.polls@.dom().contains(id) && after.polls@[id] == providers.polls@[id],
{
}

/// A terminal that is added shows its execution and nothing yet, and no other terminal
/// changes.
pub proof fn added_terminals_show_nothing_yet<R, S>(
    host: ProviderHost<R, S>,
    binding: ExternalBinding,
    host_after: ProviderHost<R, S>,
    other: Seq<char>,
)
    requires
        RuntimeProviders::adds_terminal(host, binding, host_after),
    ensures
        host_after.terminals@.dom().contains(binding.terminal_id@),
        host_after.terminals@[binding.terminal_id@].external_binding == Some(binding),
        host_after.terminals@[binding.terminal_id@].external_observation is None,
        host_after.terminals@[binding.terminal_id@].external_transcript is None,
        host_after.terminals@[binding.terminal_id@].external_checkpoint is None,
        other != binding.terminal_id@ ==> (host_after.terminals@.dom().contains(other)
            <==> host.terminals@.dom().contains(other)),
        other != binding.terminal_id@ && host.terminals@.dom().contains(other)
            ==> host_after.terminals@[other] == host.terminals@[other],
        host_after.runtimes == host.runtimes,
        host_after.generations == host.generations,
{
}

/// An attachment is let go of only once its reading has stopped; its provider and its session
/// go with it, and no other's do.
pub proof fn only_stopped_attachments_are_let_go<R, S>(
    providers: RuntimeProviders,
    host: ProviderHost<R, S>,
    id: Seq<char>,
    now: u64,
    after: RuntimeProviders,
    host_after: ProviderHost<R, S>,
    other: Seq<char>,
)
    requires
        providers.lets_go(host, id, now, after, host_after),
        other != id,
    ensures
        !providers.polls@.dom().contains(id) || !providers.polls@[id].stopped ==> after == providers
            && host_after == host,
        providers.polls@.dom().contains(id) && providers.polls@[id].stopped
            ==> !after.polls@.dom().contains(id) && !host_after.runtimes.external@.dom().contains(id)
            && !host_after.runtimes.external_sessions@.dom().contains(id),
        host_after.runtimes.external@.dom().contains(other)
            <==> host.runtimes.external@.dom().contains(other),
        after.polls@.dom().contains(other) <==> providers.polls@.dom().contains(other),
        host_after.terminals == host.terminals,
        after.operations == providers.operations,
{
}

/// What a request to attach names is bound as it is named, before anything is known of it.
pub proof fn executions_are_bound_as_named(
    config: ProviderConfig,
    params: RuntimeProviderAttachParams,
    execution: ManagedBinding,
    generation: u64,
    again: ManagedBinding,
)
    ensures
        bound_anew(config, params, execution) ==> execution.session_id == params.session_id
            && execution.generation == params.generation && execution.runtime_generation == 1
            && execution.pinned_source is None && execution.names(config.identity),
        RuntimeProviders::rebinds(config, execution, generation, again) ==> again.session_id
            == execution.session_id && again.generation == execution.generation
            && again.runtime_generation == generation && again.pinned_source
            == execution.pinned_source && again.names(config.identity),
{
}

/// While a provider is being connected to, that is all that is shown of it.
pub proof fn new_attachments_are_connecting()
    ensures
        connecting_observation().connection == ProviderConnection::Connecting,
        connecting_observation().lifecycle is Unknown,
        connecting_observation().activity is Unknown,
        connecting_observation().diagnostic is None,
{
}

/// Terminals that show an external execution are counted, and no others.
pub proof fn bound_terminals_are_counted(
    entries: Seq<(String, ExternalTerminal)>,
    entry: (String, ExternalTerminal),
)
    ensures
        bound_count(entries.push(entry), (entries.len() + 1) as nat) == bound_count(
            entries,
            entries.len(),
        ) + (if entry.1.external_binding is Some {
            1int
        } else {
            0
        }),
        bound_count(Seq::<(String, ExternalTerminal)>::empty(), 0) == 0,
{
    lemma_bound_count(entries, entry, entries.len());
    assert(entries.push(entry)[entries.len() as int] == entry);
}

proof fn lemma_bound_count(
    entries: Seq<(String, ExternalTerminal)>,
    entry: (String, ExternalTerminal),
    n: nat,
)
    requires
        n <= entries.len(),
    ensures
        bound_count(entries.push(entry), n) == bound_count(entries, n),
    decreases n,
{
    if n > 0 {
        lemma_bound_count(entries, entry, (n - 1) as nat);
        assert(entries.push(entry)[n - 1] == entries[n - 1]);
    }
}

/// A session is looked for among the terminals: one that shows it is found, and where none
/// does none is.
pub proof fn shown_sessions_are_found(
    entries: Seq<(String, ExternalTerminal)>,
    provider_id: Seq<char>,
    session_id: Seq<char>,
    i: nat,
    k: int,
)
    requires
        i <= k < entries.len(),
    ensures
        (entries[k].1.external_binding matches Some(binding) && binding.execution.provider_id@
            == provider_id && binding.execution.session_id@ == session_id) ==> first_showing(
            entries,
            provider_id,
            session_id,
            i,
        ) is Some,
        first_showing(entries, provider_id, session_id, i) matches Some(binding)
            ==> binding.execution.provider_id@ == provider_id && binding.execution.session_id@
            == session_id,
    decreases entries.len() - i,
{
    if !shows_session(entries[i as int].1, provider_id, session_id) {
        if i < k {
            shown_sessions_are_found(entries, provider_id, session_id, i + 1, k);
        } else if i + 1 < entries.len() {
            shown_sessions_are_found(entries, provider_id, session_id, i + 1, i as int + 1);
        }
    }
}

/// A label is a plain text of 256 bytes at most, and may be left out.
pub proof fn labels_are_plain(label: Option<String>)
    ensures
        label is None ==> label_ok(label),
        label matches Some(text) ==> (label_ok(label) <==> byte_len(text@) <= 256 && !has_control(
            text@,
        )),
{
}

/// A worker is attached where its binding is good, the ledger it is pinned to is one of its
/// own, and its terminal is free; otherwise the reason is told.
pub proof fn good_bindings_are_attached<R, S>(
    providers: RuntimeProviders,
    host: ProviderHost<R, S>,
    binding: ExternalBinding,
)
    ensures
        ({
            let execution = binding.execution;
            let good = crate::runtime_provider::provider_id_text(execution.provider_id@) && 0
                < execution.generation <= 0x7fff_ffff_ffff_ffff && 0 < host.generations
                <= 0x7fff_ffff_ffff_ffff;
            let own = execution.pinned_source is None || execution.admits_source(
                execution.pinned_source->0,
            );
            let refusal = providers.attachment_refusal(host, binding);
            &&& !good || !own ==> refusal == Some("invalid runtime generation"@)
            &&& good && own ==> refusal == host.runtimes.attach_refusal(binding.terminal_id@)
        }),
{
}

/// A worker is started where nothing stands against it: what the terminal saved is in order,
/// its provider is configured and still the same, fewer than sixty-four workers run and a
/// generation is left to give; otherwise the first of these is told.
pub proof fn workers_are_started_where_nothing_stands_against_them<R, S>(
    providers: RuntimeProviders,
    host: ProviderHost<R, S>,
    binding: ExternalBinding,
    verdict: CheckpointVerdict,
)
    requires
        host.saved_defect(binding.terminal_id@, verdict) is None,
    ensures
        ({
            let refusal = providers.worker_refusal(host, binding, verdict);
            let config = providers.configured(binding.execution.provider_id@);
            let same = config is Some && binding.execution.names(config->0.identity);
            let left = 0 < host.generations <= 0x7fff_ffff_ffff_ffff;
            &&& config is None ==> refusal == Some("provider is disabled or not configured"@)
            &&& config is Some && !same ==> refusal == Some(
                "configured provider identity changed"@,
            )
            &&& same && host.slots.active >= 64 ==> refusal == Some(
                "provider worker capacity is busy; retry after retiring workers exit"@,
            )
            &&& same && host.slots.active < 64 && !left ==> refusal == Some(
                "could not start provider worker"@,
            )
            &&& same && host.slots.active < 64 && left ==> refusal is None
        }),
{
}

} // verus!
