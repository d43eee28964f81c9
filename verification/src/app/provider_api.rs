//! Requests of the API that concern providers: what is refused, and what is done.
use vstd::prelude::*;
use vstd::utf8::*;

use super::operations::OperationState;
use super::runtime_providers::{
    later, ExternalTerminal, ObservedContract, PollState, MAX_OPERATIONS, POLL_INTERVAL_MS,
};
use crate::api::{ApiError, ProviderAttachmentInfo, RuntimeProviderInfo, RuntimeProviderTarget};
use crate::runtime_provider::settings::{OwnerProviderSettings, SettingsError};
use crate::runtime_provider::{
    ProviderActivity, ProviderConfig, ProviderConnection, ProviderDurability, ProviderLifecycle,
    ProviderObservation,
};
use crate::terminal::table::Table;
use crate::text::{same, text_of, texts};

verus! {

/// The provider attachments and operations of a server.
pub struct RuntimeProviders {
    pub settings: OwnerProviderSettings,
    pub diagnostic: Option<String>,
    pub polls: Table<PollState>,
    pub operations: Vec<OperationState>,
    pub deadline: Option<u64>,
}

/// No two operations have the same provider and request id.
pub open spec fn operations_distinct(operations: Seq<OperationState>) -> bool {
    forall|i: int, j: int|
        0 <= i < j < operations.len() ==> !(#[trigger] operations[i]).named(
            (#[trigger] operations[j]).provider_id@,
            operations[j].request_id@,
        )
}

/// The first configuration, from `i` on, of the provider with the given id.
pub open spec fn find_config(
    providers: Seq<ProviderConfig>,
    provider_id: Seq<char>,
    i: nat,
) -> Option<ProviderConfig>
    decreases providers.len() - i,
{
    if i >= providers.len() {
        None
    } else if providers[i as int].identity.provider_id@ == provider_id {
        Some(providers[i as int])
    } else {
        find_config(providers, provider_id, i + 1)
    }
}

proof fn lemma_find_config(providers: Seq<ProviderConfig>, provider_id: Seq<char>, i: nat)
    requires
        forall|j: int| 0 <= j < providers.len() ==> (#[trigger] providers[j]).wf(),
    ensures
        find_config(providers, provider_id, i) matches Some(config) ==> config.wf()
            && config.identity.provider_id@ == provider_id,
    decreases providers.len() - i,
{
    if i < providers.len() && providers[i as int].identity.provider_id@ != provider_id {
        lemma_find_config(providers, provider_id, i + 1);
    }
}

/// The first operation, from `i` on, with the given provider and request id.
pub open spec fn find_named(
    operations: Seq<OperationState>,
    provider_id: Seq<char>,
    request_id: Seq<char>,
    i: nat,
) -> Option<OperationState>
    decreases operations.len() - i,
{
    if i >= operations.len() {
        None
    } else if operations[i as int].named(provider_id, request_id) {
        Some(operations[i as int])
    } else {
        find_named(operations, provider_id, request_id, i + 1)
    }
}

/// `d` is the moment at which something of the providers is due: a poll that has not
/// stopped, or an operation that has not completed.
pub open spec fn due_at(
    polls: Seq<(String, PollState)>,
    operations: Seq<OperationState>,
    now: u64,
    d: u64,
) -> bool {
    ||| exists|i: int|
        0 <= i < polls.len() && !(#[trigger] polls[i]).1.stopped && polls[i].1.due(now) == d
    ||| d == later(now, POLL_INTERVAL_MS) && exists|i: int|
        0 <= i < operations.len() && (#[trigger] operations[i]).completed_at is None
}

/// `deadline` is the earliest moment at which something is due, if anything is.
pub open spec fn earliest(
    polls: Seq<(String, PollState)>,
    operations: Seq<OperationState>,
    now: u64,
    deadline: Option<u64>,
) -> bool {
    match deadline {
        None => forall|d: u64| !(#[trigger] due_at(polls, operations, now, d)),
        Some(deadline) => due_at(polls, operations, now, deadline) && forall|d: u64| #[trigger]
            due_at(polls, operations, now, d) ==> deadline <= d,
    }
}

impl RuntimeProviders {
    pub open spec fn wf(self) -> bool {
        &&& self.settings.wf()
        &&& self.polls.wf()
        &&& self.operations@.len() <= MAX_OPERATIONS
        &&& operations_distinct(self.operations@)
    }

    /// Start from the owner's settings, where providers are enabled at all. `loaded` is what
    /// came of reading them.
    pub fn load(enabled: bool, loaded: Result<OwnerProviderSettings, SettingsError>) -> (r: Self)
        requires
            loaded matches Ok(settings) ==> settings.wf(),
        ensures
            r.wf(),
            r.polls@ == Map::<Seq<char>, PollState>::empty(),
            r.operations@.len() == 0,
            r.deadline is None,
            enabled && loaded is Ok ==> r.settings == loaded->Ok_0,
            !enabled || loaded is Err ==> r.settings.nothing(),
            text_of(r.diagnostic) == (if enabled && loaded is Err {
                Some(loaded->Err_0.text())
            } else {
                None
            }),
    {
        let mut diagnostic: Option<String> = None;
        let settings = if enabled {
            match loaded {
                Ok(settings) => settings,
                Err(error) => {
                    diagnostic = Some(error.message());
                    OwnerProviderSettings::none()
                },
            }
        } else {
            OwnerProviderSettings::none()
        };
        RuntimeProviders {
            settings,
            diagnostic,
            polls: Table::new(),
            operations: Vec::new(),
            deadline: None,
        }
    }

    /// The configuration of a provider that may be used.
    pub open spec fn configured(self, provider_id: Seq<char>) -> Option<ProviderConfig> {
        if self.settings.enabled {
            find_config(self.settings.providers@, provider_id, 0)
        } else {
            None
        }
    }

    fn find_provider(&self, provider_id: &str) -> (r: Option<&ProviderConfig>)
        ensures
            r is Some <==> find_config(self.settings.providers@, provider_id@, 0) is Some,
            r matches Some(config) ==> find_config(self.settings.providers@, provider_id@, 0)
                == Some(*config),
    {
        let providers = &self.settings.providers;
        let mut i: usize = 0;
        while i < providers.len()
            invariant
                i <= providers@.len(),
                providers == self.settings.providers,
                find_config(providers@, provider_id@, 0) == find_config(
                    providers@,
                    provider_id@,
                    i as nat,
                ),
            decreases providers@.len() - i,
        {
            if same(providers[i].identity.provider_id.as_str(), provider_id) {
                return Some(&providers[i]);
            }
            i = i + 1;
        }
        None
    }

    pub fn config(&self, provider_id: &str) -> (r: Option<&ProviderConfig>)
        ensures
            r is Some <==> self.configured(provider_id@) is Some,
            r matches Some(config) ==> self.configured(provider_id@) == Some(*config),
    {
        if !self.settings.enabled {
            return None;
        }
        self.find_provider(provider_id)
    }

    /// A provider that may be used can be started.
    pub proof fn lemma_configured(self, provider_id: Seq<char>)
        requires
            self.wf(),
        ensures
            self.configured(provider_id) matches Some(config) ==> config.wf()
                && config.identity.provider_id@ == provider_id,
    {
        lemma_find_config(self.settings.providers@, provider_id, 0);
    }

    /// The deadline is the earliest moment at which something is due, if anything is.
    pub open spec fn scheduled(self, now: u64) -> bool {
        earliest(self.polls.entries@, self.operations@, now, self.deadline)
    }

    /// Set the deadline to the earliest moment at which something is due.
    pub fn refresh_deadline(&mut self, now: u64)
        ensures
            *final(self) == (RuntimeProviders { deadline: final(self).deadline, ..*old(self) }),
            final(self).scheduled(now),
    {
        let mut deadline: Option<u64> = None;
        let soon: u64 = now.saturating_add(POLL_INTERVAL_MS);
        let mut i: usize = 0;
        while i < self.polls.entries.len()
            invariant
                i <= self.polls.entries@.len(),
                *self == *old(self),
                soon == later(now, POLL_INTERVAL_MS),
                deadline is None ==> forall|j: int|
                    0 <= j < i ==> (#[trigger] self.polls.entries@[j]).1.stopped,
                deadline matches Some(d) ==> due_at(self.polls.entries@, self.operations@, now, d) && forall|j: int|
                    0 <= j < i && !(#[trigger] self.polls.entries@[j]).1.stopped ==> d
                        <= self.polls.entries@[j].1.due(now),
            decreases self.polls.entries@.len() - i,
        {
            let poll = &self.polls.entries[i].1;
            if !poll.stopped {
                let due: u64 = if poll.pending.is_some() {
                    soon
                } else {
                    poll.next_read
                };
                assert(self.polls.entries@[i as int].1.due(now) == due);
                assert(due_at(self.polls.entries@, self.operations@, now, due));
                deadline = match deadline {
                    Some(d) => if d <= due {
                        Some(d)
                    } else {
                        Some(due)
                    },
                    None => Some(due),
                };
            }
            i = i + 1;
        }
        let mut k: usize = 0;
        while k < self.operations.len()
            invariant
                k <= self.operations@.len(),
                *self == *old(self),
                soon == later(now, POLL_INTERVAL_MS),
                deadline is None ==> forall|j: int|
                    0 <= j < self.polls.entries@.len() ==> (
                    #[trigger] self.polls.entries@[j]).1.stopped,
                deadline matches Some(d) ==> due_at(self.polls.entries@, self.operations@, now, d) && forall|j: int|
                    0 <= j < self.polls.entries@.len() && !(
                    #[trigger] self.polls.entries@[j]).1.stopped ==> d
                        <= self.polls.entries@[j].1.due(now),
                deadline is None ==> forall|j: int|
                    0 <= j < k ==> (#[trigger] self.operations@[j]).completed_at is Some,
                deadline matches Some(d) ==> forall|j: int|
                    0 <= j < k && (#[trigger] self.operations@[j]).completed_at is None ==> d
                        <= soon,
            decreases self.operations@.len() - k,
        {
            if self.operations[k].completed_at.is_none() {
                assert(self.operations@[k as int].completed_at is None);
                assert(due_at(self.polls.entries@, self.operations@, now, soon));
                deadline = match deadline {
                    Some(d) => if d <= soon {
                        Some(d)
                    } else {
                        Some(soon)
                    },
                    None => Some(soon),
                };
            }
            k = k + 1;
        }
        self.deadline = deadline;
    }

    pub open spec fn due(self, now: u64) -> bool {
        self.deadline matches Some(deadline) && deadline <= now
    }

    /// Whether the providers have to be looked at now.
    pub fn is_due(&self, now: u64) -> (r: bool)
        ensures
            r == self.due(now),
    {
        match self.deadline {
            Some(deadline) => deadline <= now,
            None => false,
        }
    }

    pub fn deadline(&self) -> (r: Option<u64>)
        ensures
            r == self.deadline,
    {
        self.deadline
    }

    /// Forget how a terminal is read.
    pub fn remove(&mut self, terminal_id: &str, now: u64)
        requires
            old(self).wf(),
        ensures
            final(self).wf(),
            final(self).polls@ == old(self).polls@.remove(terminal_id@),
            final(self).operations == old(self).operations,
            final(self).settings == old(self).settings,
            final(self).diagnostic == old(self).diagnostic,
            final(self).scheduled(now),
    {
        self.polls.remove(terminal_id);
        self.refresh_deadline(now);
    }
}

/// The names of the capabilities that a provider exposes.
pub open spec fn capability_names(enabled: bool, actions_allowed: bool) -> Seq<Seq<char>> {
    if !enabled {
        Seq::empty()
    } else if actions_allowed {
        seq![
            "execution_projection.v1"@,
            "execution_transcript.v1"@,
            "terminal_checkpoint.v1"@,
            "execution_actions.v1"@,
        ]
    } else {
        seq![
            "execution_projection.v1"@,
            "execution_transcript.v1"@,
            "terminal_checkpoint.v1"@,
        ]
    }
}

/// What callers are told of a configured provider. It names no path.
pub open spec fn informs(info: RuntimeProviderInfo, config: ProviderConfig, enabled: bool) -> bool {
    let identity = config.identity;
    &&& info.provider_id@ == identity.provider_id@
    &&& info.host_id@ == identity.host_id@
    &&& info.project_id@ == identity.scope.project_id@
    &&& info.profile_id@ == identity.scope.profile_id@
    &&& info.policy_generation == identity.scope.policy_generation
    &&& info.authority_id@ == identity.authority.id@
    &&& info.authority_generation == identity.authority.generation
    &&& info.enabled == enabled
    &&& texts(info.capabilities@) == capability_names(enabled, config.actions_allowed)
}

impl RuntimeProviders {
    fn provider_info(&self, config: &ProviderConfig) -> (r: RuntimeProviderInfo)
        ensures
            informs(r, *config, self.settings.enabled),
    {
        let identity = &config.identity;
        let mut capabilities: Vec<String> = Vec::new();
        if self.settings.enabled {
            capabilities.push("execution_projection.v1".to_owned());
            capabilities.push("execution_transcript.v1".to_owned());
            capabilities.push("terminal_checkpoint.v1".to_owned());
            if config.actions_allowed() {
                capabilities.push("execution_actions.v1".to_owned());
            }
        }
        assert(texts(capabilities@) =~= capability_names(
            self.settings.enabled,
            config.actions_allowed,
        ));
        RuntimeProviderInfo {
            provider_id: identity.provider_id.as_str().to_owned(),
            host_id: identity.host_id.clone(),
            project_id: identity.scope.project_id.clone(),
            profile_id: identity.scope.profile_id.clone(),
            policy_generation: identity.scope.policy_generation,
            authority_id: identity.authority.id.clone(),
            authority_generation: identity.authority.generation,
            enabled: self.settings.enabled,
            capabilities,
        }
    }

    /// Every configured provider, whether or not providers are enabled.
    pub fn handle_runtime_provider_list(&self) -> (r: Vec<RuntimeProviderInfo>)
        ensures
            r@.len() == self.settings.providers@.len(),
            forall|i: int|
                0 <= i < r@.len() ==> informs(
                    #[trigger] r@[i],
                    self.settings.providers@[i],
                    self.settings.enabled,
                ),
    {
        let mut providers: Vec<RuntimeProviderInfo> = Vec::new();
        let mut i: usize = 0;
        while i < self.settings.providers.len()
            invariant
                i <= self.settings.providers@.len(),
                providers@.len() == i,
                forall|j: int|
                    0 <= j < i ==> informs(
                        #[trigger] providers@[j],
                        self.settings.providers@[j],
                        self.settings.enabled,
                    ),
            decreases self.settings.providers@.len() - i,
        {
            providers.push(self.provider_info(&self.settings.providers[i]));
            i = i + 1;
        }
        providers
    }

    /// One configured provider.
    pub fn handle_runtime_provider_get(&self, target: &RuntimeProviderTarget) -> (r: Result<
        RuntimeProviderInfo,
        ApiError,
    >)
        ensures
            r is Ok <==> find_config(self.settings.providers@, target.provider_id@, 0) is Some,
            r matches Ok(info) ==> informs(
                info,
                find_config(self.settings.providers@, target.provider_id@, 0)->0,
                self.settings.enabled,
            ),
            r matches Err(error) ==> error.is(
                "provider_not_found"@,
                "provider is not configured"@,
            ),
    {
        match self.find_provider(target.provider_id.as_str()) {
            Some(config) => Ok(self.provider_info(config)),
            None => Err(ApiError::new("provider_not_found", "provider is not configured")),
        }
    }
}

pub open spec fn lifecycle_text(lifecycle: ProviderLifecycle) -> Seq<char> {
    match lifecycle {
        ProviderLifecycle::Unknown => "unknown"@,
        ProviderLifecycle::Created => "created"@,
        ProviderLifecycle::Starting => "starting"@,
        ProviderLifecycle::Running => "running"@,
        ProviderLifecycle::Idle => "idle"@,
        ProviderLifecycle::Completed => "completed"@,
        ProviderLifecycle::Failed => "failed"@,
        ProviderLifecycle::Cancelled => "cancelled"@,
        ProviderLifecycle::Killed => "killed"@,
        ProviderLifecycle::Orphaned => "orphaned"@,
    }
}

fn lifecycle_name(lifecycle: ProviderLifecycle) -> (r: &'static str)
    ensures
        r@ == lifecycle_text(lifecycle),
{
    match lifecycle {
        ProviderLifecycle::Unknown => "unknown",
        ProviderLifecycle::Created => "created",
        ProviderLifecycle::Starting => "starting",
        ProviderLifecycle::Running => "running",
        ProviderLifecycle::Idle => "idle",
        ProviderLifecycle::Completed => "completed",
        ProviderLifecycle::Failed => "failed",
        ProviderLifecycle::Cancelled => "cancelled",
        ProviderLifecycle::Killed => "killed",
        ProviderLifecycle::Orphaned => "orphaned",
    }
}

pub open spec fn activity_text(activity: ProviderActivity) -> Seq<char> {
    match activity {
        ProviderActivity::Working => "working"@,
        ProviderActivity::Quiet => "quiet"@,
        ProviderActivity::Unknown => "unknown"@,
    }
}

fn activity_name(activity: ProviderActivity) -> (r: &'static str)
    ensures
        r@ == activity_text(activity),
{
    match activity {
        ProviderActivity::Working => "working",
        ProviderActivity::Quiet => "quiet",
        ProviderActivity::Unknown => "unknown",
    }
}

pub open spec fn connection_text(connection: ProviderConnection) -> Seq<char> {
    match connection {
        ProviderConnection::Connecting => "connecting"@,
        ProviderConnection::Connected => "connected"@,
        ProviderConnection::Disconnected => "disconnected"@,
        ProviderConnection::Unknown => "unknown"@,
    }
}

fn connection_name(connection: ProviderConnection) -> (r: &'static str)
    ensures
        r@ == connection_text(connection),
{
    match connection {
        ProviderConnection::Connecting => "connecting",
        ProviderConnection::Connected => "connected",
        ProviderConnection::Disconnected => "disconnected",
        ProviderConnection::Unknown => "unknown",
    }
}

pub open spec fn durability_text(durability: ProviderDurability) -> Seq<char> {
    match durability {
        ProviderDurability::Durable => "durable"@,
        ProviderDurability::Ephemeral => "ephemeral"@,
        ProviderDurability::Unknown => "unknown"@,
    }
}

fn durability_name(durability: ProviderDurability) -> (r: &'static str)
    ensures
        r@ == durability_text(durability),
{
    match durability {
        ProviderDurability::Durable => "durable",
        ProviderDurability::Ephemeral => "ephemeral",
        ProviderDurability::Unknown => "unknown",
    }
}

/// The names that the daemon client gives to its read contracts.
pub struct ContractNames {
    pub source: String,
    pub transcript: String,
}

pub open spec fn contract_text(
    contract: Option<ObservedContract>,
    names: ContractNames,
) -> Seq<char> {
    match contract {
        Some(ObservedContract::Checkpoint) => "coven.terminal-checkpoint.v1"@,
        Some(ObservedContract::Health) => "coven.health.v1"@,
        Some(ObservedContract::Transcript) => names.transcript@,
        Some(ObservedContract::Source) => names.source@,
        None => names.source@,
    }
}

fn contract_name(contract: Option<ObservedContract>, names: &ContractNames) -> (r: String)
    ensures
        r@ == contract_text(contract, *names),
{
    match contract {
        Some(ObservedContract::Checkpoint) => "coven.terminal-checkpoint.v1".to_owned(),
        Some(ObservedContract::Health) => "coven.health.v1".to_owned(),
        Some(ObservedContract::Transcript) => names.transcript.clone(),
        Some(ObservedContract::Source) => names.source.clone(),
        None => names.source.clone(),
    }
}

/// What is known of an attachment: nothing, where nothing was observed.
pub open spec fn known_observation(terminal: ExternalTerminal) -> ProviderObservation {
    match terminal.external_observation {
        Some(observation) => observation,
        None => ProviderObservation::unobserved(),
    }
}

/// What callers are told of an attachment. Age and source are told only of an observation
/// that was made.
pub open spec fn informs_of_attachment(
    info: ProviderAttachmentInfo,
    terminal_id: Seq<char>,
    terminal: ExternalTerminal,
    attached: bool,
    names: ContractNames,
    now: u64,
) -> bool {
    let binding = terminal.execution();
    let observation = known_observation(terminal);
    &&& info.terminal_id@ == terminal_id
    &&& info.provider_id@ == binding.provider_id@
    &&& info.host_id@ == binding.host_id@
    &&& info.project_id@ == binding.scope.project_id@
    &&& info.profile_id@ == binding.scope.profile_id@
    &&& info.session_id@ == binding.session_id@
    &&& info.generation == binding.generation
    &&& info.attached == attached
    &&& info.lifecycle@ == lifecycle_text(observation.lifecycle)
    &&& info.activity@ == activity_text(observation.activity)
    &&& info.connection@ == connection_text(observation.connection)
    &&& info.durability@ == durability_text(observation.durability)
    &&& text_of(info.diagnostic) == text_of(observation.diagnostic)
    &&& match terminal.external_observed_at {
        Some(observed) => {
            &&& info.observation_age_ms == Some(
                if now > observed {
                    (now - observed) as u64
                } else {
                    0u64
                },
            )
            &&& text_of(info.observation_source) == Some(
                contract_text(terminal.external_observed_contract, names),
            )
        },
        None => info.observation_age_ms is None && info.observation_source is None,
    }
    &&& match binding.pinned_source {
        Some(source) => text_of(info.source_ledger_id) == Some(source.ledger_id@)
            && info.source_epoch == Some(source.epoch),
        None => info.source_ledger_id is None && info.source_epoch is None,
    }
}

/// What callers are told of a terminal, if it shows an external execution.
pub fn provider_attachment_info(
    terminal_id: &str,
    terminal: &ExternalTerminal,
    attached: bool,
    names: &ContractNames,
    now: u64,
) -> (r: Option<ProviderAttachmentInfo>)
    ensures
        r is Some <==> terminal.external_binding is Some,
        r matches Some(info) ==> informs_of_attachment(
            info,
            terminal_id@,
            *terminal,
            attached,
            *names,
            now,
        ),
{
    let binding = match &terminal.external_binding {
        Some(binding) => &binding.execution,
        None => {
            return None;
        },
    };
    let fallback = ProviderObservation::default();
    let observation = match &terminal.external_observation {
        Some(observation) => observation,
        None => &fallback,
    };
    let (observation_age_ms, observation_source) = match terminal.external_observed_at {
        Some(observed) => (
            Some(now.saturating_sub(observed)),
            Some(contract_name(terminal.external_observed_contract, names)),
        ),
        None => (None, None),
    };
    let (source_ledger_id, source_epoch) = match &binding.pinned_source {
        Some(source) => (Some(source.ledger_id.clone()), Some(source.epoch)),
        None => (None, None),
    };
    Some(
        ProviderAttachmentInfo {
            terminal_id: terminal_id.to_owned(),
            provider_id: binding.provider_id.clone(),
            host_id: binding.host_id.clone(),
            project_id: binding.scope.project_id.clone(),
            profile_id: binding.scope.profile_id.clone(),
            session_id: binding.session_id.clone(),
            generation: binding.generation,
            attached,
            lifecycle: lifecycle_name(observation.lifecycle).to_owned(),
            activity: activity_name(observation.activity).to_owned(),
            connection: connection_name(observation.connection).to_owned(),
            durability: durability_name(observation.durability).to_owned(),
            diagnostic: observation.diagnostic.clone(),
            observation_age_ms,
            observation_source,
            source_ledger_id,
            source_epoch,
        },
    )
}

/// The attachment with the given terminal id.
pub fn handle_runtime_provider_attachment_get(
    terminals: &Table<ExternalTerminal>,
    terminal_id: &str,
    attached: bool,
    names: &ContractNames,
    now: u64,
) -> (r: Result<ProviderAttachmentInfo, ApiError>)
    requires
        terminals.wf(),
    ensures
        r is Ok <==> terminals@.dom().contains(terminal_id@)
            && terminals@[terminal_id@].external_binding is Some,
        r matches Ok(info) ==> informs_of_attachment(
            info,
            terminal_id@,
            terminals@[terminal_id@],
            attached,
            *names,
            now,
        ),
        r matches Err(error) ==> error.is(
            "attachment_not_found"@,
            "provider attachment does not exist"@,
        ),
{
    if let Some(terminal) = terminals.get(terminal_id) {
        if let Some(info) = provider_attachment_info(terminal_id, terminal, attached, names, now) {
            return Ok(info);
        }
    }
    Err(ApiError::new("attachment_not_found", "provider attachment does not exist"))
}

proof fn lemma_config_found(providers: Seq<ProviderConfig>, provider_id: Seq<char>, from: nat)
    ensures
        find_config(providers, provider_id, from) matches Some(config)
            ==> config.identity.provider_id@ == provider_id && exists|i: int|
            from <= i < providers.len() && config == #[trigger] providers[i],
        find_config(providers, provider_id, from) is None ==> forall|i: int|
            from <= i < providers.len() ==> (#[trigger] providers[i]).identity.provider_id@
                != provider_id,
    decreases providers.len() - from,
{
    if from < providers.len() {
        lemma_config_found(providers, provider_id, from + 1);
    }
}

/// A provider is found exactly by its own id among those of the owner, and by none once the
/// owner has switched providers off.
pub proof fn providers_are_found_by_their_id(providers: RuntimeProviders, provider_id: Seq<char>)
    ensures
        !providers.settings.enabled ==> providers.configured(provider_id) is None,
        providers.configured(provider_id) matches Some(config) ==> providers.settings.enabled
            && config.identity.provider_id@ == provider_id && exists|i: int|
            0 <= i < providers.settings.providers@.len() && config
                == #[trigger] providers.settings.providers@[i],
        providers.settings.enabled && providers.configured(provider_id) is None ==> forall|i: int|
            0 <= i < providers.settings.providers@.len() ==> (
            #[trigger] providers.settings.providers@[i]).identity.provider_id@ != provider_id,
{
    lemma_config_found(providers.settings.providers@, provider_id, 0);
}

/// Actions are offered where the owner allows them, and nothing is offered by a provider that
/// is switched off.
pub proof fn capabilities_follow_the_owner(info: RuntimeProviderInfo, config: ProviderConfig, enabled: bool)
    requires
        informs(info, config, enabled),
    ensures
        !enabled ==> info.capabilities@.len() == 0,
        enabled ==> info.capabilities@.len() >= 3 && info.capabilities@[0]@
            == "execution_projection.v1"@ && info.capabilities@[1]@ == "execution_transcript.v1"@
            && info.capabilities@[2]@ == "terminal_checkpoint.v1"@,
        enabled && config.actions_allowed ==> info.capabilities@.len() == 4
            && info.capabilities@[3]@ == "execution_actions.v1"@,
        enabled && !config.actions_allowed ==> info.capabilities@.len() == 3,
        info.enabled == enabled,
        info.provider_id@ == config.identity.provider_id@,
        info.host_id@ == config.identity.host_id@,
        info.project_id@ == config.identity.scope.project_id@,
        info.profile_id@ == config.identity.scope.profile_id@,
        info.policy_generation == config.identity.scope.policy_generation,
        info.authority_id@ == config.identity.authority.id@,
        info.authority_generation == config.identity.authority.generation,
{
    let named = texts(info.capabilities@);
    assert(named.len() == info.capabilities@.len());
    assert(forall|i: int|
        0 <= i < named.len() ==> #[trigger] named[i] == info.capabilities@[i]@);
    if enabled {
        assert(named[0] == info.capabilities@[0]@ && named[1] == info.capabilities@[1]@ && named[2]
            == info.capabilities@[2]@);
        if config.actions_allowed {
            assert(named[3] == info.capabilities@[3]@);
        }
    }
}

/// What is told of an attachment is what was last observed of it, by these names; what was never
/// observed is unknown.
pub proof fn observations_are_told_by_name(
    info: ProviderAttachmentInfo,
    terminal_id: Seq<char>,
    terminal: ExternalTerminal,
    attached: bool,
    names: ContractNames,
    now: u64,
)
    requires
        informs_of_attachment(info, terminal_id, terminal, attached, names, now),
        terminal.external_observation is Some,
    ensures
        ({
            let seen = terminal.external_observation->0;
            &&& seen.lifecycle is Unknown ==> info.lifecycle@ == "unknown"@
            &&& seen.lifecycle is Created ==> info.lifecycle@ == "created"@
            &&& seen.lifecycle is Starting ==> info.lifecycle@ == "starting"@
            &&& seen.lifecycle is Running ==> info.lifecycle@ == "running"@
            &&& seen.lifecycle is Idle ==> info.lifecycle@ == "idle"@
            &&& seen.lifecycle is Completed ==> info.lifecycle@ == "completed"@
            &&& seen.lifecycle is Failed ==> info.lifecycle@ == "failed"@
            &&& seen.lifecycle is Cancelled ==> info.lifecycle@ == "cancelled"@
            &&& seen.lifecycle is Killed ==> info.lifecycle@ == "killed"@
            &&& seen.lifecycle is Orphaned ==> info.lifecycle@ == "orphaned"@
            &&& seen.activity is Working ==> info.activity@ == "working"@
            &&& seen.activity is Quiet ==> info.activity@ == "quiet"@
            &&& seen.activity is Unknown ==> info.activity@ == "unknown"@
            &&& seen.connection is Connecting ==> info.connection@ == "connecting"@
            &&& seen.connection is Connected ==> info.connection@ == "connected"@
            &&& seen.connection is Disconnected ==> info.connection@ == "disconnected"@
            &&& seen.connection is Unknown ==> info.connection@ == "unknown"@
            &&& seen.durability is Durable ==> info.durability@ == "durable"@
            &&& seen.durability is Ephemeral ==> info.durability@ == "ephemeral"@
            &&& seen.durability is Unknown ==> info.durability@ == "unknown"@
            &&& seen.diagnostic matches Some(text) ==> (info.diagnostic matches Some(told) && told@
                == text@)
            &&& seen.diagnostic is None ==> info.diagnostic is None
        }),
{
}

/// What is told of an attachment that was never observed says nothing but who it belongs to.
pub proof fn unobserved_attachments_are_unknown(
    info: ProviderAttachmentInfo,
    terminal_id: Seq<char>,
    terminal: ExternalTerminal,
    attached: bool,
    names: ContractNames,
    now: u64,
)
    requires
        informs_of_attachment(info, terminal_id, terminal, attached, names, now),
    ensures
        terminal.external_observation is None ==> info.lifecycle@ == "unknown"@ && info.activity@
            == "unknown"@ && info.connection@ == "disconnected"@ && info.diagnostic is None,
        info.terminal_id@ == terminal_id,
        info.attached == attached,
        info.session_id@ == terminal.execution().session_id@,
        info.generation == terminal.execution().generation,
        info.provider_id@ == terminal.execution().provider_id@,
        info.host_id@ == terminal.execution().host_id@,
        info.observation_age_ms is Some <==> terminal.external_observed_at is Some,
        terminal.external_observed_at matches Some(at) ==> (info.observation_age_ms matches Some(
            age,
        ) && (now >= at ==> age == now - at) && (now < at ==> age == 0)),
        terminal.external_observed_at is Some ==> (
        info.observation_source matches Some(contract) && (terminal.external_observed_contract
            == Some(ObservedContract::Transcript) ==> contract@ == names.transcript@) && (
        terminal.external_observed_contract == Some(ObservedContract::Source) ==> contract@
            == names.source@) && (terminal.external_observed_contract == Some(
            ObservedContract::Health,
        ) ==> contract@ == "coven.health.v1"@) && (terminal.external_observed_contract == Some(
            ObservedContract::Checkpoint,
        ) ==> contract@ == "coven.terminal-checkpoint.v1"@)),
        terminal.execution().pinned_source matches Some(source) ==> info.source_epoch == Some(
            source.epoch,
        ) && (info.source_ledger_id matches Some(ledger) && ledger@ == source.ledger_id@),
{
}

/// Nothing that is due is missed: where the deadline is scheduled, no reader and no open
/// operation asks for an earlier one, and there is one whenever something is waited for.
pub proof fn nothing_due_is_missed(providers: RuntimeProviders, now: u64, i: int)
    requires
        providers.scheduled(now),
    ensures
        0 <= i < providers.polls.entries@.len() && !providers.polls.entries@[i].1.stopped ==> {
            let poll = providers.polls.entries@[i].1;
            &&& providers.deadline is Some
            &&& poll.pending is None ==> providers.deadline->0 <= poll.next_read
            &&& poll.pending is Some ==> providers.deadline->0 <= now + 100
        },
        0 <= i < providers.operations@.len() && providers.operations@[i].completed_at is None
            ==> providers.deadline is Some && providers.deadline->0 <= now + 100,
        providers.deadline is Some ==> (exists|j: int|
            0 <= j < providers.polls.entries@.len() && !(
            #[trigger] providers.polls.entries@[j]).1.stopped) || (exists|j: int|
            0 <= j < providers.operations@.len() && (
            #[trigger] providers.operations@[j]).completed_at is None),
        providers.due(now) <==> providers.deadline is Some && providers.deadline->0 <= now,
{
    let polls = providers.polls.entries@;
    let operations = providers.operations@;
    if 0 <= i < polls.len() && !polls[i].1.stopped {
        assert(due_at(polls, operations, now, polls[i].1.due(now)));
    }
    if 0 <= i < operations.len() && operations[i].completed_at is None {
        assert(due_at(polls, operations, now, later(now, POLL_INTERVAL_MS)));
    }
    if let Some(deadline) = providers.deadline {
        assert(due_at(polls, operations, now, deadline));
    }
}

} // verus!
