//! Permission-bearing requests of the API: what is refused, what is submitted to a
//! provider, and what callers are told.
use std::sync::Arc;
use vstd::prelude::*;
use vstd::utf8::*;

use super::attachments::ProviderHost;
use super::operations::{describes, runtime_provider_operation_info, OperationState};
use super::provider_api::{find_named, operations_distinct, RuntimeProviders};
use super::runtime_providers::MAX_OPERATIONS;
use crate::api::{
    ApiError, RuntimeProviderExecuteParams, RuntimeProviderExecutionIntent,
    RuntimeProviderExecutionTarget, RuntimeProviderHarness, RuntimeProviderMode,
    RuntimeProviderOperationGetParams, RuntimeProviderOperationInfo,
};
use crate::coven::{
    ExecutionAuthority, ExecutionHarness, ExecutionIntent, ExecutionMode, ExecutionRequest,
    ExecutionScope, ExecutionTarget,
};
use crate::runtime_provider::actor::{ProviderRuntime, ProviderRuntimeHandle, MAX_PROVIDER_WORKERS};
use crate::runtime_provider::settings::utf8_text;
use crate::runtime_provider::{
    absolute, binding_defect, ContractLimits, ManagedBinding, OperationTicket, ProviderCommand,
    ProviderStartError, SubmitError, MAX_PATH_BYTES,
};
use crate::path::{join, joined, lies_within, within};
use crate::text::{byte_count, byte_len, contains_control, has_control, same};

verus! {

/// Whether a working directory can be asked for at all.
pub open spec fn launch_text_ok(requested: Seq<char>) -> bool {
    0 < byte_len(requested) <= MAX_PATH_BYTES && !has_control(requested)
}

/// The path that a requested working directory stands for: itself, or one below the
/// project root.
pub open spec fn launch_path(root: Seq<u8>, requested: Seq<char>) -> Seq<u8> {
    let bytes = encode_utf8(requested);
    if absolute(bytes) {
        bytes
    } else {
        joined(root, bytes)
    }
}

/// The path that a requested working directory stands for, where it can be asked for. It
/// still has to be brought to its canonical form.
pub fn launch_candidate(project_root: &Vec<u8>, requested: &str) -> (r: Option<Vec<u8>>)
    ensures
        r is Some <==> launch_text_ok(requested@),
        r matches Some(path) ==> path@ == launch_path(project_root@, requested@),
{
    let length: usize = byte_count(requested);
    if length == 0 || length > MAX_PATH_BYTES || contains_control(requested) {
        return None;
    }
    let bytes = requested.as_bytes();
    if bytes[0] == 0x2f {
        let path = join(&Vec::new(), bytes);
        assert(path@ =~= bytes@);
        Some(path)
    } else {
        Some(join(project_root, bytes))
    }
}

/// What the file system says of a launch: the canonical project root and working
/// directory, where they have one, and whether the latter is a directory.
pub struct LaunchDirectory {
    pub root: Option<Vec<u8>>,
    pub cwd: Option<Vec<u8>>,
    pub is_dir: bool,
}

impl LaunchDirectory {
    /// The directory lies in the project and its path is text.
    pub open spec fn admitted(self) -> bool {
        &&& self.root is Some
        &&& self.cwd is Some
        &&& self.is_dir
        &&& within(self.cwd->0@, self.root->0@)
        &&& valid_utf8(self.cwd->0@)
    }
}

/// The working directory of a launch, where it lies in the configured project.
pub fn resolve_launch_cwd(requested: &str, found: &LaunchDirectory) -> (r: Option<String>)
    ensures
        r is Some <==> launch_text_ok(requested@) && found.admitted(),
        r matches Some(cwd) ==> cwd@ == decode_utf8(found.cwd->0@),
{
    let length: usize = byte_count(requested);
    if length == 0 || length > MAX_PATH_BYTES || contains_control(requested) {
        return None;
    }
    match (&found.root, &found.cwd) {
        (Some(root), Some(cwd)) => {
            if !found.is_dir || !lies_within(cwd, root) {
                return None;
            }
            utf8_text(cwd.as_slice())
        },
        _ => None,
    }
}

impl RuntimeProviderHarness {
    pub open spec fn as_execution(self) -> ExecutionHarness {
        match self {
            RuntimeProviderHarness::Codex => ExecutionHarness::Codex,
            RuntimeProviderHarness::Claude => ExecutionHarness::Claude,
            RuntimeProviderHarness::Copilot => ExecutionHarness::Copilot,
        }
    }

    pub fn into_execution(self) -> (r: ExecutionHarness)
        ensures
            r == self.as_execution(),
    {
        match self {
            RuntimeProviderHarness::Codex => ExecutionHarness::Codex,
            RuntimeProviderHarness::Claude => ExecutionHarness::Claude,
            RuntimeProviderHarness::Copilot => ExecutionHarness::Copilot,
        }
    }
}

impl RuntimeProviderMode {
    pub open spec fn as_execution(self) -> ExecutionMode {
        match self {
            RuntimeProviderMode::Transcript => ExecutionMode::Transcript,
            RuntimeProviderMode::Terminal => ExecutionMode::Terminal,
        }
    }

    pub fn into_execution(self) -> (r: ExecutionMode)
        ensures
            r == self.as_execution(),
    {
        match self {
            RuntimeProviderMode::Transcript => ExecutionMode::Transcript,
            RuntimeProviderMode::Terminal => ExecutionMode::Terminal,
        }
    }
}

/// An execution request that was read from a caller's parameters. The daemon client still
/// has to judge it.
pub struct PreparedExecution {
    pub provider_id: String,
    pub request_id: String,
    pub scope: ExecutionScope,
    pub authority: ExecutionAuthority,
    pub expires_at: i64,
    pub intent: ExecutionIntent,
    pub terminal_id: Option<String>,
    pub binding: Option<ManagedBinding>,
}

/// The terminal that an intent names, if it names one.
pub open spec fn intent_terminal(intent: RuntimeProviderExecutionIntent) -> Option<Seq<char>> {
    match intent {
        RuntimeProviderExecutionIntent::Launch { .. } => None,
        RuntimeProviderExecutionIntent::Turn { terminal_id, .. } => Some(terminal_id@),
        RuntimeProviderExecutionIntent::Continue { terminal_id, .. } => Some(terminal_id@),
        RuntimeProviderExecutionIntent::Stop { terminal_id } => Some(terminal_id@),
    }
}

/// The text that asks for an attached execution.
pub open spec fn attachment_text(intent: RuntimeProviderExecutionIntent) -> Seq<char> {
    match intent {
        RuntimeProviderExecutionIntent::Continue { .. } =>
            "an attached provider execution is required for continuation"@,
        RuntimeProviderExecutionIntent::Stop { .. } =>
            "an attached provider execution is required for stop"@,
        _ => "an attached provider execution is required for a turn"@,
    }
}

/// `intent` is what a caller asked for, in the terms of the daemon: an existing execution is
/// named by the session and generation that its terminal is bound to.
pub open spec fn asks(
    asked: RuntimeProviderExecutionIntent,
    found: LaunchDirectory,
    binding: Option<ManagedBinding>,
    intent: ExecutionIntent,
) -> bool {
    match asked {
        RuntimeProviderExecutionIntent::Launch { harness, mode, model, prompt, .. } => intent
            matches ExecutionIntent::Launch {
            harness: h,
            mode: m,
            model: n,
            cwd: c,
            prompt: p,
        } && h == harness.as_execution() && m == mode.as_execution() && n == model && c@
            == decode_utf8(found.cwd->0@) && p == prompt,
        RuntimeProviderExecutionIntent::Turn { prompt, .. } => intent == ExecutionIntent::Turn {
            session_id: binding->0.session_id,
            generation: binding->0.generation,
            prompt,
        },
        RuntimeProviderExecutionIntent::Continue { prompt, .. } => intent
            == ExecutionIntent::Continue {
            session_id: binding->0.session_id,
            generation: binding->0.generation,
            prompt,
        },
        RuntimeProviderExecutionIntent::Stop { .. } => intent == ExecutionIntent::Stop {
            session_id: binding->0.session_id,
            generation: binding->0.generation,
        },
    }
}

impl<R, S> ProviderHost<R, S> {
    /// The execution of a provider that a terminal is attached to.
    pub open spec fn attached_execution(self, provider_id: Seq<char>, id: Seq<char>) -> Option<
        ManagedBinding,
    > {
        if self.bound(id) && self.terminals@[id].execution().provider_id@ == provider_id
            && self.runtimes.provided(id) {
            Some(self.terminals@[id].execution())
        } else {
            None
        }
    }

    fn provider_attachment_runtime(&self, provider_id: &str, terminal_id: &str) -> (r: Option<
        ManagedBinding,
    >)
        requires
            self.wf(),
        ensures
            r == self.attached_execution(provider_id@, terminal_id@),
    {
        let binding = match self.terminals.get(terminal_id) {
            Some(terminal) => match &terminal.external_binding {
                Some(binding) => &binding.execution,
                None => {
                    return None;
                },
            },
            None => {
                return None;
            },
        };
        if !same(binding.provider_id.as_str(), provider_id) {
            return None;
        }
        if self.runtimes.external(terminal_id).is_none() {
            return None;
        }
        Some(binding.clone())
    }
}

impl RuntimeProviders {
    /// Why an execution request is refused before the daemon client has judged it, if it is.
    pub open spec fn prepare_refusal<R, S>(
        self,
        host: ProviderHost<R, S>,
        params: RuntimeProviderExecuteParams,
        request_id_ok: bool,
        found: LaunchDirectory,
    ) -> Option<(Seq<char>, Seq<char>)> {
        match self.owner_refusal(params.provider_id@) {
            Some(refusal) => Some(refusal),
            None => if !request_id_ok {
                Some(("invalid_params"@, "invalid request id"@))
            } else {
                match params.intent {
                    RuntimeProviderExecutionIntent::Launch { cwd, .. } => if launch_text_ok(cwd@)
                        && found.admitted() {
                        None
                    } else {
                        Some(
                            (
                                "invalid_params"@,
                                "launch working directory is outside the configured project root"@,
                            ),
                        )
                    },
                    _ => if host.attached_execution(
                        params.provider_id@,
                        intent_terminal(params.intent)->0,
                    ) is Some {
                        None
                    } else {
                        Some(("attachment_not_found"@, attachment_text(params.intent)))
                    },
                }
            },
        }
    }

    /// `prepared` is the request that a caller's parameters stand for: scope and authority
    /// come from the owner's configuration alone.
    pub open spec fn prepares<R, S>(
        self,
        host: ProviderHost<R, S>,
        params: RuntimeProviderExecuteParams,
        found: LaunchDirectory,
        prepared: PreparedExecution,
    ) -> bool {
        let config = self.configured(params.provider_id@)->0;
        let terminal = intent_terminal(params.intent);
        &&& prepared.provider_id@ == params.provider_id@
        &&& prepared.request_id@ == params.request_id@
        &&& prepared.scope == config.identity.scope
        &&& prepared.authority == config.identity.authority
        &&& prepared.expires_at == params.expires_at
        &&& match terminal {
            Some(id) => {
                &&& prepared.terminal_id matches Some(named) && named@ == id
                &&& prepared.binding == host.attached_execution(params.provider_id@, id)
            },
            None => prepared.terminal_id is None && prepared.binding is None,
        }
        &&& asks(params.intent, found, prepared.binding, prepared.intent)
    }

    /// Read an execution request from a caller's parameters. `request_id_ok` is the daemon
    /// client's verdict on the request id, and `found` what the file system says of the
    /// working directory of a launch.
    pub fn prepare_execution<R, S>(
        &self,
        host: &ProviderHost<R, S>,
        params: RuntimeProviderExecuteParams,
        request_id_ok: bool,
        found: &LaunchDirectory,
    ) -> (r: Result<PreparedExecution, ApiError>)
        requires
            host.wf(),
        ensures
            match self.prepare_refusal(*host, params, request_id_ok, *found) {
                Some((code, message)) => r matches Err(error) && error.is(code, message),
                None => r matches Ok(prepared) && self.prepares(*host, params, *found, prepared),
            },
    {
        let config = match self.config(params.provider_id.as_str()) {
            Some(config) => config,
            None => {
                return Err(
                    ApiError::new(
                        "provider_unavailable",
                        "provider is disabled or not configured",
                    ),
                );
            },
        };
        if !config.actions_allowed() {
            return Err(
                ApiError::new(
                    "action_unavailable",
                    "permission-bearing provider actions are not enabled by owner configuration",
                ),
            );
        }
        if !request_id_ok {
            return Err(ApiError::new("invalid_params", "invalid request id"));
        }
        let scope = config.identity.scope.clone();
        let authority = config.identity.authority.clone();
        let provider_id = params.provider_id;
        let (intent, terminal_id, binding) = match params.intent {
            RuntimeProviderExecutionIntent::Launch { harness, mode, model, cwd, prompt } => {
                let cwd = match resolve_launch_cwd(cwd.as_str(), found) {
                    Some(cwd) => cwd,
                    None => {
                        return Err(
                            ApiError::new(
                                "invalid_params",
                                "launch working directory is outside the configured project root",
                            ),
                        );
                    },
                };
                (
                    ExecutionIntent::Launch {
                        harness: harness.into_execution(),
                        mode: mode.into_execution(),
                        model,
                        cwd,
                        prompt,
                    },
                    None,
                    None,
                )
            },
            RuntimeProviderExecutionIntent::Turn { terminal_id, prompt } => {
                match host.provider_attachment_runtime(provider_id.as_str(), terminal_id.as_str()) {
                    Some(binding) => (
                        ExecutionIntent::Turn {
                            session_id: binding.session_id.clone(),
                            generation: binding.generation,
                            prompt,
                        },
                        Some(terminal_id),
                        Some(binding),
                    ),
                    None => {
                        return Err(
                            ApiError::new(
                                "attachment_not_found",
                                "an attached provider execution is required for a turn",
                            ),
                        );
                    },
                }
            },
            RuntimeProviderExecutionIntent::Continue { terminal_id, prompt } => {
                match host.provider_attachment_runtime(provider_id.as_str(), terminal_id.as_str()) {
                    Some(binding) => (
                        ExecutionIntent::Continue {
                            session_id: binding.session_id.clone(),
                            generation: binding.generation,
                            prompt,
                        },
                        Some(terminal_id),
                        Some(binding),
                    ),
                    None => {
                        return Err(
                            ApiError::new(
                                "attachment_not_found",
                                "an attached provider execution is required for continuation",
                            ),
                        );
                    },
                }
            },
            RuntimeProviderExecutionIntent::Stop { terminal_id } => {
                match host.provider_attachment_runtime(provider_id.as_str(), terminal_id.as_str()) {
                    Some(binding) => (
                        ExecutionIntent::Stop {
                            session_id: binding.session_id.clone(),
                            generation: binding.generation,
                        },
                        Some(terminal_id),
                        Some(binding),
                    ),
                    None => {
                        return Err(
                            ApiError::new(
                                "attachment_not_found",
                                "an attached provider execution is required for stop",
                            ),
                        );
                    },
                }
            },
        };
        Ok(
            PreparedExecution {
                provider_id,
                request_id: params.request_id,
                scope,
                authority,
                expires_at: params.expires_at,
                intent,
                terminal_id,
                binding,
            },
        )
    }
}

/// What the daemon client says of an execution request: whether it expires within the
/// owner's admission window, its digest where it can be encoded, the execution it targets,
/// and whether it meets the client's contract.
pub struct JudgedRequest {
    pub in_window: bool,
    pub digest: Option<String>,
    pub target: ExecutionTarget,
    pub contract_ok: bool,
}

/// An operation that callers are told of, with the worker that was started for it alone.
pub struct Executed {
    pub operation: RuntimeProviderOperationInfo,
    pub worker: Option<ProviderRuntimeHandle>,
}

/// What is known of a request before it is submitted.
pub enum Standing {
    /// It is refused, with a code and a message.
    Refused(Seq<char>, Seq<char>),
    /// It was submitted before.
    Known(OperationState),
    New,
}

proof fn lemma_find_named(
    operations: Seq<OperationState>,
    provider_id: Seq<char>,
    request_id: Seq<char>,
    i: nat,
    at: int,
)
    requires
        find_named(operations, provider_id, request_id, i) is None,
        i <= at < operations.len(),
    ensures
        !operations[at].named(provider_id, request_id),
    decreases at - i,
{
    if i < at {
        lemma_find_named(operations, provider_id, request_id, i + 1, at);
    }
}

/// A refusal of a request, as its code and message.
pub open spec fn refused(
    r: Result<Executed, ApiError>,
    code: Seq<char>,
    message: Seq<char>,
) -> bool {
    r matches Err(error) && error.is(code, message)
}

impl RuntimeProviders {
    /// What is known of a request with a digest and a target. A request id stays bound to
    /// the first execution it was used for.
    pub open spec fn standing(
        self,
        provider_id: Seq<char>,
        request_id: Seq<char>,
        digest: Seq<char>,
        target: ExecutionTarget,
    ) -> Standing {
        match find_named(self.operations@, provider_id, request_id, 0) {
            Some(existing) => if existing.payload_digest@ != digest || !existing.target.same_as(
                target,
            ) {
                Standing::Refused(
                    "identity_mismatch"@,
                    "request id is already bound to a different execution"@,
                )
            } else {
                Standing::Known(existing)
            },
            None => if self.operations@.len() >= MAX_OPERATIONS {
                Standing::Refused("operation_limit"@, "provider operation limit reached"@)
            } else {
                Standing::New
            },
        }
    }

    fn known_operation(
        &self,
        provider_id: &str,
        request_id: &str,
        digest: &str,
        target: &ExecutionTarget,
    ) -> (r: Result<Option<RuntimeProviderOperationInfo>, ApiError>)
        ensures
            match self.standing(provider_id@, request_id@, digest@, *target) {
                Standing::Refused(code, message) => r matches Err(error) && error.is(code, message),
                Standing::Known(existing) => r matches Ok(Some(info)) && describes(info, existing),
                Standing::New => r == Ok::<Option<RuntimeProviderOperationInfo>, ApiError>(None),
            },
    {
        let mut i: usize = 0;
        while i < self.operations.len()
            invariant
                i <= self.operations@.len(),
                find_named(self.operations@, provider_id@, request_id@, 0) == find_named(
                    self.operations@,
                    provider_id@,
                    request_id@,
                    i as nat,
                ),
            decreases self.operations@.len() - i,
        {
            let existing = &self.operations[i];
            if same(existing.provider_id.as_str(), provider_id) && same(
                existing.request_id.as_str(),
                request_id,
            ) {
                if !same(existing.payload_digest.as_str(), digest) || !existing.target.equals(
                    target,
                ) {
                    return Err(
                        ApiError::new(
                            "identity_mismatch",
                            "request id is already bound to a different execution",
                        ),
                    );
                }
                return Ok(Some(runtime_provider_operation_info(existing)));
            }
            i = i + 1;
        }
        if self.operations.len() >= MAX_OPERATIONS {
            return Err(ApiError::new("operation_limit", "provider operation limit reached"));
        }
        Ok(None)
    }

    /// `after` keeps one more operation.
    pub open spec fn keeps(self, operation: OperationState, now: u64, after: Self) -> bool {
        &&& after.operations@ == self.operations@.push(operation)
        &&& after.settings == self.settings
        &&& after.diagnostic == self.diagnostic
        &&& after.polls == self.polls
        &&& after.scheduled(now)
    }

    fn keep_operation(&mut self, operation: OperationState, now: u64) -> (r:
        RuntimeProviderOperationInfo)
        requires
            old(self).wf(),
            old(self).operations@.len() < MAX_OPERATIONS,
            find_named(
                old(self).operations@,
                operation.provider_id@,
                operation.request_id@,
                0,
            ) is None,
        ensures
            final(self).wf(),
            old(self).keeps(operation, now, *final(self)),
            describes(r, operation),
    {
        let info = runtime_provider_operation_info(&operation);
        let ghost before = self.operations@;
        self.operations.push(operation);
        proof {
            assert forall|i: int, j: int| 0 <= i < j < self.operations@.len() implies !(
            #[trigger] self.operations@[i]).named(
                (#[trigger] self.operations@[j]).provider_id@,
                self.operations@[j].request_id@,
            ) by {
                if j == before.len() {
                    lemma_find_named(
                        before,
                        operation.provider_id@,
                        operation.request_id@,
                        0,
                        i,
                    );
                } else {
                    assert(before[i] == self.operations@[i] && before[j] == self.operations@[j]);
                }
            }
        }
        self.refresh_deadline(now);
        info
    }

    /// Why no worker is started for an operation of a provider, if none is.
    pub open spec fn operation_worker_refusal<R, S>(
        self,
        host: ProviderHost<R, S>,
        provider_id: Seq<char>,
    ) -> Option<(Seq<char>, Seq<char>)> {
        if self.configured(provider_id) is None {
            Some(("provider_unavailable"@, "provider is disabled or not configured"@))
        } else if host.slots.active >= MAX_PROVIDER_WORKERS {
            Some(
                (
                    "provider_busy"@,
                    "provider worker capacity is busy; retry after workers retire"@,
                ),
            )
        } else if !(0 < host.generations <= i64::MAX) {
            Some(("provider_unavailable"@, "could not start provider worker"@))
        } else {
            None
        }
    }

    /// `worker` is a fresh worker of a provider.
    pub open spec fn fresh_worker<R, S>(
        self,
        host: ProviderHost<R, S>,
        provider_id: Seq<char>,
        worker: ProviderRuntimeHandle,
    ) -> bool {
        let config = self.configured(provider_id)->0;
        worker.started(
            config.identity,
            config.queue_capacity,
            host.generations,
            host.retention,
        ) && worker.wf()
    }

    fn start_operation_worker<R, S>(&self, host: &mut ProviderHost<R, S>, provider_id: &str) -> (r:
        Result<ProviderRuntimeHandle, ApiError>)
        requires
            self.wf(),
            old(host).wf(),
        ensures
            final(host).wf(),
            match self.operation_worker_refusal(*old(host), provider_id@) {
                Some((code, message)) => {
                    &&& r matches Err(error) && error.is(code, message)
                    &&& *final(host) == *old(host)
                },
                None => {
                    &&& r matches Ok(worker) && self.fresh_worker(*old(host), provider_id@, worker)
                    &&& *final(host) == (ProviderHost {
                        slots: final(host).slots,
                        generations: (old(host).generations + 1) as u64,
                        ..*old(host)
                    })
                    &&& final(host).slots.active == old(host).slots.active + 1
                },
            },
    {
        let config = match self.config(provider_id) {
            Some(config) => config,
            None => {
                return Err(
                    ApiError::new(
                        "provider_unavailable",
                        "provider is disabled or not configured",
                    ),
                );
            },
        };
        proof {
            self.lemma_configured(provider_id@);
        }
        match ProviderRuntime::start(
            config,
            &mut host.slots,
            &mut host.generations,
            host.retention,
        ) {
            Ok(worker) => Ok(worker),
            Err(ProviderStartError::WorkerLimitReached) => {
                assert(host.slots == old(host).slots);
                Err(
                    ApiError::new(
                        "provider_busy",
                        "provider worker capacity is busy; retry after workers retire",
                    ),
                )
            },
            Err(_) => {
                assert(host.slots == old(host).slots);
                Err(ApiError::new("provider_unavailable", "could not start provider worker"))
            },
        }
    }

    /// A worker that was started for an operation answers its command: the operation is
    /// kept with the ticket it got, or the worker's slot is given back.
    pub open spec fn works<R, S>(
        self,
        host: ProviderHost<R, S>,
        command: ProviderCommand,
        limits: ContractLimits,
        contract_ok: bool,
        operation: OperationState,
        refusal: Seq<char>,
        now: u64,
        r: Result<Executed, ApiError>,
        after: Self,
        host_after: ProviderHost<R, S>,
        worker: ProviderRuntimeHandle,
        left: ProviderRuntimeHandle,
        answer: Result<OperationTicket, SubmitError>,
    ) -> bool {
        &&& self.fresh_worker(host, operation.provider_id@, worker)
        &&& worker.answers(command, limits, contract_ok, answer, left)
        &&& host_after == (ProviderHost {
            slots: host_after.slots,
            generations: (host.generations + 1) as u64,
            ..host
        })
        &&& match answer {
            Ok(ticket) => {
                let kept = OperationState {
                    ticket,
                    runtime_generation: worker.runtime_generation,
                    ..operation
                };
                &&& r matches Ok(executed) && describes(executed.operation, kept)
                    && executed.worker == Some(left)
                &&& self.keeps(kept, now, after)
                &&& host_after.slots.active == host.slots.active + 1
            },
            Err(_) => {
                &&& refused(r, "provider_busy"@, refusal)
                &&& after == self
                &&& host_after.slots.active == host.slots.active
            },
        }
    }
}

impl PreparedExecution {
    /// The request that is submitted.
    pub open spec fn request(self, target: ExecutionTarget) -> ExecutionRequest {
        ExecutionRequest {
            request_id: self.request_id,
            scope: self.scope,
            authority: self.authority,
            expires_at: self.expires_at,
            intent: self.intent,
            target,
        }
    }

    pub open spec fn command(self, target: ExecutionTarget) -> ProviderCommand {
        ProviderCommand::Execution {
            binding: self.binding,
            request: Arc::new(self.request(target)),
        }
    }

    /// The operation that is kept, apart from its ticket and the generation of its provider.
    pub open spec fn operation(self, judged: JudgedRequest) -> OperationState {
        OperationState {
            provider_id: self.provider_id,
            request_id: self.request_id,
            ticket: OperationTicket(0),
            payload_digest: judged.digest->0,
            target: judged.target,
            binding: self.binding,
            terminal_id: self.terminal_id,
            runtime_generation: 0,
            result: None,
            completed_at: None,
        }
    }
}

impl RuntimeProviders {
    /// The provider of a terminal answers the command of an execution.
    pub open spec fn executes_attached<R, S>(
        self,
        host: ProviderHost<R, S>,
        id: Seq<char>,
        prepared: PreparedExecution,
        judged: JudgedRequest,
        limits: ContractLimits,
        now: u64,
        r: Result<Executed, ApiError>,
        after: Self,
        host_after: ProviderHost<R, S>,
        answer: Result<OperationTicket, SubmitError>,
    ) -> bool {
        &&& host.runtimes.external@[id].answers(
            prepared.command(judged.target),
            limits,
            judged.contract_ok,
            answer,
            host_after.runtimes.external@[id],
        )
        &&& host_after == (ProviderHost { runtimes: host_after.runtimes, ..host })
        &&& host_after.runtimes.runtimes == host.runtimes.runtimes
        &&& host_after.runtimes.external_sessions == host.runtimes.external_sessions
        &&& host_after.runtimes.external@ == host.runtimes.external@.insert(
            id,
            host_after.runtimes.external@[id],
        )
        &&& match answer {
            Ok(ticket) => {
                let kept = OperationState {
                    ticket,
                    runtime_generation: host.runtimes.external@[id].runtime_generation,
                    ..prepared.operation(judged)
                };
                &&& r matches Ok(executed) && describes(executed.operation, kept)
                    && executed.worker is None
                &&& self.keeps(kept, now, after)
            },
            Err(_) => refused(r, "provider_busy"@, "provider operation was not admitted"@)
                && after == self,
        }
    }

    /// Why no action of a provider is performed, if none is: it is not configured, or its
    /// owner has not enabled actions.
    pub open spec fn owner_refusal(self, provider_id: Seq<char>) -> Option<(Seq<char>, Seq<char>)> {
        match self.configured(provider_id) {
            None => Some(("provider_unavailable"@, "provider is disabled or not configured"@)),
            Some(config) => if !config.actions_allowed {
                Some(
                    (
                        "action_unavailable"@,
                        "permission-bearing provider actions are not enabled by owner configuration"@,
                    ),
                )
            } else {
                None
            },
        }
    }

    /// `r` answers an execution request, and leaves `after` and `host_after`.
    pub open spec fn executes<R, S>(
        self,
        host: ProviderHost<R, S>,
        prepared: PreparedExecution,
        judged: JudgedRequest,
        limits: ContractLimits,
        now: u64,
        r: Result<Executed, ApiError>,
        after: Self,
        host_after: ProviderHost<R, S>,
    ) -> bool {
        if self.owner_refusal(prepared.provider_id@) is Some {
            let (code, message) = self.owner_refusal(prepared.provider_id@)->0;
            refused(r, code, message) && after == self && host_after == host
        } else if !judged.in_window {
            &&& refused(
                r,
                "invalid_params"@,
                "execution request expiry is outside the owner admission window"@,
            )
            &&& after == self && host_after == host
        } else if judged.digest is None {
            &&& refused(r, "invalid_params"@, "execution request could not be encoded"@)
            &&& after == self && host_after == host
        } else {
            match self.standing(
                prepared.provider_id@,
                prepared.request_id@,
                judged.digest->0@,
                judged.target,
            ) {
                Standing::Refused(code, message) => refused(r, code, message) && after == self
                    && host_after == host,
                Standing::Known(existing) => {
                    &&& r matches Ok(executed) && describes(executed.operation, existing)
                        && executed.worker is None
                    &&& after == self && host_after == host
                },
                Standing::New => match prepared.terminal_id {
                    Some(id) => if !host.runtimes.provided(id@) {
                        &&& refused(
                            r,
                            "attachment_not_found"@,
                            "provider attachment runtime is no longer available"@,
                        )
                        &&& after == self && host_after == host
                    } else {
                        exists|answer: Result<OperationTicket, SubmitError>| #[trigger]
                            self.executes_attached(
                                host,
                                id@,
                                prepared,
                                judged,
                                limits,
                                now,
                                r,
                                after,
                                host_after,
                                answer,
                            )
                    },
                    None => match self.operation_worker_refusal(host, prepared.provider_id@) {
                        Some((code, message)) => refused(r, code, message) && after == self
                            && host_after == host,
                        None => exists|
                            worker: ProviderRuntimeHandle,
                            left: ProviderRuntimeHandle,
                            answer: Result<OperationTicket, SubmitError>,
                        | #[trigger]
                            self.works(
                                host,
                                prepared.command(judged.target),
                                limits,
                                judged.contract_ok,
                                prepared.operation(judged),
                                "provider operation was not admitted"@,
                                now,
                                r,
                                after,
                                host_after,
                                worker,
                                left,
                                answer,
                            ),
                    },
                },
            }
        }
    }

    /// Submit an execution request that was prepared and judged. Without the opt-in of the
    /// provider's owner it is refused and nothing is kept. A request that was submitted
    /// before is only reported; an id that is bound to another execution is
    /// refused.
    pub fn handle_runtime_provider_execute<R, S>(
        &mut self,
        host: &mut ProviderHost<R, S>,
        prepared: PreparedExecution,
        judged: JudgedRequest,
        limits: ContractLimits,
        now: u64,
    ) -> (r: Result<Executed, ApiError>)
        requires
            old(self).wf(),
            old(host).wf(),
        ensures
            final(self).wf(),
            final(host).wf(),
            old(self).executes(
                *old(host),
                prepared,
                judged,
                limits,
                now,
                r,
                *final(self),
                *final(host),
            ),
            old(self).configured(prepared.provider_id@) is Some && !old(self).acts(
                prepared.provider_id@,
            ) ==> refused(
                r,
                "action_unavailable"@,
                "permission-bearing provider actions are not enabled by owner configuration"@,
            ) && *final(self) == *old(self) && *final(host) == *old(host),
    {
        match self.config(prepared.provider_id.as_str()) {
            None => {
                return Err(
                    ApiError::new(
                        "provider_unavailable",
                        "provider is disabled or not configured",
                    ),
                );
            },
            Some(config) => if !config.actions_allowed() {
                return Err(
                    ApiError::new(
                        "action_unavailable",
                        "permission-bearing provider actions are not enabled by owner configuration",
                    ),
                );
            },
        }
        if !judged.in_window {
            return Err(
                ApiError::new(
                    "invalid_params",
                    "execution request expiry is outside the owner admission window",
                ),
            );
        }
        let payload_digest = match &judged.digest {
            Some(digest) => digest.clone(),
            None => {
                return Err(
                    ApiError::new("invalid_params", "execution request could not be encoded"),
                );
            },
        };
        match self.known_operation(
            prepared.provider_id.as_str(),
            prepared.request_id.as_str(),
            payload_digest.as_str(),
            &judged.target,
        ) {
            Ok(Some(operation)) => {
                return Ok(Executed { operation, worker: None });
            },
            Ok(None) => {},
            Err(error) => {
                return Err(error);
            },
        }
        let ghost asked = prepared;
        let request = Arc::new(
            ExecutionRequest {
                request_id: prepared.request_id.clone(),
                scope: prepared.scope,
                authority: prepared.authority,
                expires_at: prepared.expires_at,
                intent: prepared.intent,
                target: judged.target.clone(),
            },
        );
        let command = ProviderCommand::Execution { binding: prepared.binding.clone(), request };
        assert(command == asked.command(judged.target));
        let mut operation = OperationState {
            provider_id: prepared.provider_id,
            request_id: prepared.request_id,
            ticket: OperationTicket(0),
            payload_digest,
            target: judged.target,
            binding: prepared.binding,
            terminal_id: prepared.terminal_id.clone(),
            runtime_generation: 0,
            result: None,
            completed_at: None,
        };
        assert(operation == asked.operation(judged));
        match prepared.terminal_id {
            Some(terminal_id) => {
                operation.runtime_generation = match host.runtimes.external(
                    terminal_id.as_str(),
                ) {
                    Some(runtime) => runtime.runtime_generation,
                    None => {
                        return Err(
                            ApiError::new(
                                "attachment_not_found",
                                "provider attachment runtime is no longer available",
                            ),
                        );
                    },
                };
                let answer = host.runtimes.submit(
                    terminal_id.as_str(),
                    command,
                    limits,
                    judged.contract_ok,
                );
                let r = match answer {
                    Ok(ticket) => {
                        operation.ticket = ticket;
                        let operation = self.keep_operation(operation, now);
                        Ok(Executed { operation, worker: None })
                    },
                    Err(_) => Err(
                        ApiError::new("provider_busy", "provider operation was not admitted"),
                    ),
                };
                assert(old(self).executes_attached(
                    *old(host),
                    terminal_id@,
                    asked,
                    judged,
                    limits,
                    now,
                    r,
                    *self,
                    *host,
                    answer,
                ));
                r
            },
            None => {
                let mut worker = match self.start_operation_worker(
                    host,
                    operation.provider_id.as_str(),
                ) {
                    Ok(worker) => worker,
                    Err(error) => {
                        return Err(error);
                    },
                };
                let ghost fresh = worker;
                operation.runtime_generation = worker.runtime_generation;
                let answer = worker.submit(command, limits, judged.contract_ok);
                let ghost left = worker;
                let r = match answer {
                    Ok(ticket) => {
                        operation.ticket = ticket;
                        let operation = self.keep_operation(operation, now);
                        Ok(Executed { operation, worker: Some(worker) })
                    },
                    Err(_) => {
                        host.slots.release();
                        Err(ApiError::new("provider_busy", "provider operation was not admitted"))
                    },
                };
                assert(old(self).works(
                    *old(host),
                    asked.command(judged.target),
                    limits,
                    judged.contract_ok,
                    asked.operation(judged),
                    "provider operation was not admitted"@,
                    now,
                    r,
                    *self,
                    *host,
                    fresh,
                    left,
                    answer,
                ));
                r
            },
        }
    }
}

/// A request id is bound to the first execution it was used for: submitting it again
/// submits nothing, reports the same operation, and is refused for another digest or
/// target.
pub proof fn repeated_request_is_not_submitted_again<R, S>(
    providers: RuntimeProviders,
    host: ProviderHost<R, S>,
    prepared: PreparedExecution,
    judged: JudgedRequest,
    limits: ContractLimits,
    now: u64,
    r: Result<Executed, ApiError>,
    after: RuntimeProviders,
    host_after: ProviderHost<R, S>,
)
    requires
        providers.executes(host, prepared, judged, limits, now, r, after, host_after),
        find_named(providers.operations@, prepared.provider_id@, prepared.request_id@, 0) is Some,
    ensures
        after == providers,
        host_after == host,
        r matches Ok(executed) ==> {
            let existing = find_named(
                providers.operations@,
                prepared.provider_id@,
                prepared.request_id@,
                0,
            )->0;
            &&& describes(executed.operation, existing)
            &&& judged.digest matches Some(digest) && digest@ == existing.payload_digest@
            &&& existing.target.same_as(judged.target)
        },
{
}

/// The execution that a caller expects a request to target.
pub open spec fn named_target(target: RuntimeProviderExecutionTarget) -> ExecutionTarget {
    match target {
        RuntimeProviderExecutionTarget::Launch => ExecutionTarget::Launch,
        RuntimeProviderExecutionTarget::Existing { session_id, generation } => {
            ExecutionTarget::Existing { session_id, generation }
        },
        RuntimeProviderExecutionTarget::Continuation {
            previous_session_id,
            previous_generation,
        } => ExecutionTarget::Continuation { previous_session_id, previous_generation },
    }
}

/// What the daemon client says of a lookup: of the request id, the digest, the session id
/// that the target names, and the target as a whole.
#[derive(Clone, Copy)]
pub struct LookupVerdict {
    pub request_id: bool,
    pub digest: bool,
    pub session_id: bool,
    pub target: bool,
    pub contract_ok: bool,
}

/// The target that a caller expects, where the daemon client accepts it.
pub fn execution_target_from_api(
    target: RuntimeProviderExecutionTarget,
    session_id_ok: bool,
    target_ok: bool,
) -> (r: Option<ExecutionTarget>)
    ensures
        r is Some <==> (target is Launch || session_id_ok) && target_ok,
        r matches Some(execution) ==> execution == named_target(target),
{
    let named = match target {
        RuntimeProviderExecutionTarget::Launch => ExecutionTarget::Launch,
        RuntimeProviderExecutionTarget::Existing { session_id, generation } => {
            if !session_id_ok {
                return None;
            }
            ExecutionTarget::Existing { session_id, generation }
        },
        RuntimeProviderExecutionTarget::Continuation {
            previous_session_id,
            previous_generation,
        } => {
            if !session_id_ok {
                return None;
            }
            ExecutionTarget::Continuation { previous_session_id, previous_generation }
        },
    };
    if target_ok {
        Some(named)
    } else {
        None
    }
}

/// The session and generation that a target names, if it names any.
pub open spec fn target_session(target: ExecutionTarget) -> Option<(String, u64)> {
    match target {
        ExecutionTarget::Launch => None,
        ExecutionTarget::Existing { session_id, generation } => Some((session_id, generation)),
        ExecutionTarget::Continuation { previous_session_id, previous_generation } => Some(
            (previous_session_id, previous_generation),
        ),
    }
}

/// `binding` fences the lookup of a target under a worker's generation.
pub open spec fn fences(
    worker: ProviderRuntimeHandle,
    target: ExecutionTarget,
    binding: Option<ManagedBinding>,
) -> bool {
    match target_session(target) {
        None => binding is None,
        Some((session_id, generation)) => {
            &&& binding matches Some(bound) && bound.names(worker.snapshot.identity)
                && bound.session_id == session_id && bound.generation == generation
                && bound.runtime_generation == worker.runtime_generation
                && bound.pinned_source is None
        },
    }
}

/// The lookup of a request, and the operation that is kept of it apart from its ticket and
/// the generation of its provider.
pub open spec fn looked_up(
    params: RuntimeProviderOperationGetParams,
    binding: Option<ManagedBinding>,
) -> OperationState {
    OperationState {
        provider_id: params.provider_id,
        request_id: params.request_id,
        ticket: OperationTicket(0),
        payload_digest: params.payload_digest,
        target: named_target(params.expected_target),
        binding,
        terminal_id: None,
        runtime_generation: 0,
        result: None,
        completed_at: None,
    }
}

impl RuntimeProviders {
    /// Why a lookup is refused before anything is known of its request, if it is.
    pub open spec fn lookup_refusal(
        self,
        params: RuntimeProviderOperationGetParams,
        verdict: LookupVerdict,
    ) -> Option<(Seq<char>, Seq<char>)> {
        if self.configured(params.provider_id@) is None {
            Some(("provider_unavailable"@, "provider is disabled or not configured"@))
        } else if !verdict.request_id {
            Some(("invalid_params"@, "invalid request id"@))
        } else if !verdict.digest {
            Some(("invalid_params"@, "invalid payload digest"@))
        } else if !(params.expected_target is Launch || verdict.session_id) || !verdict.target {
            Some(("invalid_params"@, "invalid expected execution target"@))
        } else {
            None
        }
    }

    /// Whether the execution that a target names can be bound under a generation.
    pub open spec fn binds(
        self,
        provider_id: Seq<char>,
        target: ExecutionTarget,
        runtime_generation: u64,
    ) -> bool {
        target_session(target) matches Some((_, generation)) ==> binding_defect(
            provider_id,
            true,
            true,
            generation,
            runtime_generation,
        ) is None
    }

    /// `r` answers a lookup, and leaves `after` and `host_after`.
    pub open spec fn looks_up<R, S>(
        self,
        host: ProviderHost<R, S>,
        params: RuntimeProviderOperationGetParams,
        verdict: LookupVerdict,
        limits: ContractLimits,
        now: u64,
        r: Result<Executed, ApiError>,
        after: Self,
        host_after: ProviderHost<R, S>,
    ) -> bool {
        let target = named_target(params.expected_target);
        match self.lookup_refusal(params, verdict) {
            Some((code, message)) => refused(r, code, message) && after == self && host_after
                == host,
            None => match self.standing(
                params.provider_id@,
                params.request_id@,
                params.payload_digest@,
                target,
            ) {
                Standing::Refused(code, message) => refused(r, code, message) && after == self
                    && host_after == host,
                Standing::Known(existing) => {
                    &&& r matches Ok(executed) && describes(executed.operation, existing)
                        && executed.worker is None
                    &&& after == self && host_after == host
                },
                Standing::New => match self.operation_worker_refusal(host, params.provider_id@) {
                    Some((code, message)) => refused(r, code, message) && after == self
                        && host_after == host,
                    None => if !self.binds(params.provider_id@, target, host.generations) {
                        &&& refused(
                            r,
                            "invalid_params"@,
                            "invalid expected execution binding"@,
                        )
                        &&& after == self
                        &&& host.same_but_generation(host_after, 1)
                    } else {
                        exists|
                            worker: ProviderRuntimeHandle,
                            left: ProviderRuntimeHandle,
                            answer: Result<OperationTicket, SubmitError>,
                            binding: Option<ManagedBinding>,
                        |
                            #![trigger fences(worker, target, binding), worker.answers(looked_up(params, binding).lookup(), limits, verdict.contract_ok, answer, left)]
                            fences(worker, target, binding) && self.works(
                                host,
                                looked_up(params, binding).lookup(),
                                limits,
                                verdict.contract_ok,
                                looked_up(params, binding),
                                "provider lookup was not admitted"@,
                                now,
                                r,
                                after,
                                host_after,
                                worker,
                                left,
                                answer,
                            )
                    },
                },
            },
        }
    }

    /// Tell a caller of a request, by its id, digest and target. One that is not known here,
    /// after an uncertain answer or a restart, is looked up by a worker of its own.
    pub fn handle_runtime_provider_operation_get<R, S>(
        &mut self,
        host: &mut ProviderHost<R, S>,
        params: RuntimeProviderOperationGetParams,
        verdict: LookupVerdict,
        limits: ContractLimits,
        now: u64,
    ) -> (r: Result<Executed, ApiError>)
        requires
            old(self).wf(),
            old(host).wf(),
        ensures
            final(self).wf(),
            final(host).wf(),
            old(self).looks_up(
                *old(host),
                params,
                verdict,
                limits,
                now,
                r,
                *final(self),
                *final(host),
            ),
    {
        if self.config(params.provider_id.as_str()).is_none() {
            return Err(
                ApiError::new("provider_unavailable", "provider is disabled or not configured"),
            );
        }
        if !verdict.request_id {
            return Err(ApiError::new("invalid_params", "invalid request id"));
        }
        if !verdict.digest {
            return Err(ApiError::new("invalid_params", "invalid payload digest"));
        }
        let ghost asked = params;
        let target = match execution_target_from_api(
            params.expected_target,
            verdict.session_id,
            verdict.target,
        ) {
            Some(target) => target,
            None => {
                return Err(ApiError::new("invalid_params", "invalid expected execution target"));
            },
        };
        match self.known_operation(
            params.provider_id.as_str(),
            params.request_id.as_str(),
            params.payload_digest.as_str(),
            &target,
        ) {
            Ok(Some(operation)) => {
                return Ok(Executed { operation, worker: None });
            },
            Ok(None) => {},
            Err(error) => {
                return Err(error);
            },
        }
        let mut worker = match self.start_operation_worker(host, params.provider_id.as_str()) {
            Ok(worker) => worker,
            Err(error) => {
                return Err(error);
            },
        };
        proof {
            self.lemma_configured(params.provider_id@);
        }
        let ghost fresh = worker;
        let bound = match &target {
            ExecutionTarget::Launch => Ok(None),
            ExecutionTarget::Existing { session_id, generation } => match worker.binding(
                session_id.clone(),
                *generation,
            ) {
                Ok(binding) => Ok(Some(binding)),
                Err(error) => Err(error),
            },
            ExecutionTarget::Continuation { previous_session_id, previous_generation } =>
                match worker.binding(previous_session_id.clone(), *previous_generation) {
                Ok(binding) => Ok(Some(binding)),
                Err(error) => Err(error),
            },
        };
        let binding = match bound {
            Ok(binding) => binding,
            Err(_) => {
                host.slots.release();
                return Err(ApiError::new("invalid_params", "invalid expected execution binding"));
            },
        };
        assert(fences(fresh, target, binding));
        let mut operation = OperationState {
            provider_id: params.provider_id,
            request_id: params.request_id,
            ticket: OperationTicket(0),
            payload_digest: params.payload_digest,
            target,
            binding,
            terminal_id: None,
            runtime_generation: 0,
            result: None,
            completed_at: None,
        };
        assert(operation == looked_up(asked, binding));
        operation.runtime_generation = worker.runtime_generation;
        let answer = worker.submit(operation.lookup_command(), limits, verdict.contract_ok);
        let ghost left = worker;
        let r = match answer {
            Ok(ticket) => {
                operation.ticket = ticket;
                let operation = self.keep_operation(operation, now);
                Ok(Executed { operation, worker: Some(worker) })
            },
            Err(_) => {
                host.slots.release();
                Err(ApiError::new("provider_busy", "provider lookup was not admitted"))
            },
        };
        assert(old(self).works(
            *old(host),
            looked_up(asked, binding).lookup(),
            limits,
            verdict.contract_ok,
            looked_up(asked, binding),
            "provider lookup was not admitted"@,
            now,
            r,
            *self,
            *host,
            fresh,
            left,
            answer,
        ));
        r
    }
}

/// A launch names the agent, the mode, the model and the prompt that were asked for, in the
/// directory that was found for it.
pub proof fn launches_are_as_asked<R, S>(
    providers: RuntimeProviders,
    host: ProviderHost<R, S>,
    params: RuntimeProviderExecuteParams,
    found: LaunchDirectory,
    prepared: PreparedExecution,
)
    requires
        providers.prepares(host, params, found, prepared),
        params.intent is Launch,
    ensures
        prepared.intent is Launch,
        params.intent->Launch_harness is Codex <==> prepared.intent->Launch_harness is Codex,
        params.intent->Launch_harness is Claude <==> prepared.intent->Launch_harness is Claude,
        params.intent->Launch_harness is Copilot <==> prepared.intent->Launch_harness is Copilot,
        params.intent->Launch_mode is Transcript <==> prepared.intent->Launch_mode is Transcript,
        params.intent->Launch_mode is Terminal <==> prepared.intent->Launch_mode is Terminal,
        prepared.intent->Launch_model == params.intent->Launch_model,
        prepared.intent->Launch_prompt == params.intent->Launch_prompt,
        prepared.intent->Launch_cwd@ == decode_utf8(found.cwd->0@),
        prepared.terminal_id is None,
        prepared.binding is None,
{
}

/// A turn, a continuation and a stop are each submitted as what they are, to the execution that
/// the terminal is attached to, with the prompt that was given.
pub proof fn actions_are_as_asked<R, S>(
    providers: RuntimeProviders,
    host: ProviderHost<R, S>,
    params: RuntimeProviderExecuteParams,
    found: LaunchDirectory,
    prepared: PreparedExecution,
)
    requires
        providers.prepares(host, params, found, prepared),
        !(params.intent is Launch),
        prepared.binding is Some,
    ensures
        params.intent matches RuntimeProviderExecutionIntent::Turn { terminal_id, prompt } ==> (
        prepared.intent matches ExecutionIntent::Turn { session_id, generation, prompt: p } && p
            == prompt && session_id == prepared.binding->0.session_id && generation
            == prepared.binding->0.generation && prepared.terminal_id->0@ == terminal_id@),
        params.intent matches RuntimeProviderExecutionIntent::Continue { terminal_id, prompt } ==> (
        prepared.intent matches ExecutionIntent::Continue { session_id, generation, prompt: p }
            && p == prompt && session_id == prepared.binding->0.session_id && generation
            == prepared.binding->0.generation && prepared.terminal_id->0@ == terminal_id@),
        params.intent matches RuntimeProviderExecutionIntent::Stop { terminal_id } ==> (
        prepared.intent matches ExecutionIntent::Stop { session_id, generation } && session_id
            == prepared.binding->0.session_id && generation == prepared.binding->0.generation
            && prepared.terminal_id->0@ == terminal_id@),
        prepared.terminal_id matches Some(id) && host.terminals@.dom().contains(id@)
            && prepared.binding->0 == host.terminals@[id@].execution()
            && prepared.binding->0.provider_id@ == params.provider_id@
            && host.runtimes.external@.dom().contains(id@),
{
}

/// A prepared request keeps its id, its provider and its expiry, and acts in the scope and for
/// the authority of the provider's owner.
pub proof fn requests_act_for_their_owner<R, S>(
    providers: RuntimeProviders,
    host: ProviderHost<R, S>,
    params: RuntimeProviderExecuteParams,
    found: LaunchDirectory,
    prepared: PreparedExecution,
    target: ExecutionTarget,
)
    requires
        providers.prepares(host, params, found, prepared),
    ensures
        prepared.request_id@ == params.request_id@,
        prepared.provider_id@ == params.provider_id@,
        prepared.expires_at == params.expires_at,
        prepared.scope == providers.configured(params.provider_id@)->0.identity.scope,
        prepared.authority == providers.configured(params.provider_id@)->0.identity.authority,
        prepared.command(target) matches ProviderCommand::Execution { binding, request } && binding
            == prepared.binding && request.request_id == prepared.request_id && request.intent
            == prepared.intent && request.scope == prepared.scope && request.authority
            == prepared.authority && request.expires_at == prepared.expires_at && request.target
            == target,
{
}

/// Nothing is prepared for a provider that is not configured, that its owner allows no actions,
/// for a bad request id, for a launch outside the project, or for a terminal that is not
/// attached to this provider; and everything else is.
pub proof fn only_allowed_requests_are_prepared<R, S>(
    providers: RuntimeProviders,
    host: ProviderHost<R, S>,
    params: RuntimeProviderExecuteParams,
    request_id_ok: bool,
    found: LaunchDirectory,
)
    ensures
        ({
            let refusal = providers.prepare_refusal(host, params, request_id_ok, found);
            let config = providers.configured(params.provider_id@);
            let allowed = config is Some && config->0.actions_allowed;
            &&& config is None ==> (refusal matches Some((code, _)) && code
                == "provider_unavailable"@)
            &&& config is Some && !config->0.actions_allowed ==> (refusal matches Some((code, _))
                && code == "action_unavailable"@)
            &&& allowed && !request_id_ok ==> (refusal matches Some((code, _)) && code
                == "invalid_params"@)
            &&& allowed && request_id_ok && params.intent is Launch && (found.root is None
                || found.cwd is None || !found.is_dir || !within(
                found.cwd->0@,
                found.root->0@,
            )) ==> (refusal matches Some((code, _)) && code == "invalid_params"@)
            &&& allowed && request_id_ok && (params.intent matches
                RuntimeProviderExecutionIntent::Stop { terminal_id } && !host.runtimes.external@.dom(
            ).contains(terminal_id@)) ==> (refusal matches Some((code, _)) && code
                == "attachment_not_found"@)
            &&& allowed && request_id_ok && (params.intent matches
                RuntimeProviderExecutionIntent::Turn { terminal_id, .. }
                && !host.runtimes.external@.dom().contains(terminal_id@)) ==> (
            refusal matches Some((code, _)) && code == "attachment_not_found"@)
            &&& allowed && request_id_ok && (params.intent matches
                RuntimeProviderExecutionIntent::Continue { terminal_id, .. }
                && !host.runtimes.external@.dom().contains(terminal_id@)) ==> (
            refusal matches Some((code, _)) && code == "attachment_not_found"@)
            &&& refusal is None ==> allowed && request_id_ok
        }),
{
}

/// A terminal of another provider takes no request.
pub proof fn foreign_terminals_take_no_request<R, S>(
    host: ProviderHost<R, S>,
    provider_id: Seq<char>,
    id: Seq<char>,
)
    ensures
        host.attached_execution(provider_id, id) matches Some(execution) ==> execution.provider_id@
            == provider_id && host.terminals@.dom().contains(id)
            && host.runtimes.external@.dom().contains(id) && execution
            == host.terminals@[id].execution(),
        host.bound(id) && host.terminals@[id].execution().provider_id@ == provider_id
            && host.runtimes.external@.dom().contains(id) ==> host.attached_execution(
            provider_id,
            id,
        ) == Some(host.terminals@[id].execution()),
{
}

/// A request id stands for one request. Asked again with the same digest and target it is known,
/// with another digest or target it is refused, and a new one is taken while there is room.
pub proof fn request_ids_stand_for_one_request(
    providers: RuntimeProviders,
    i: int,
    digest: Seq<char>,
    target: ExecutionTarget,
)
    requires
        providers.wf(),
        0 <= i < providers.operations@.len(),
    ensures
        ({
            let known = providers.operations@[i];
            let standing = providers.standing(
                known.provider_id@,
                known.request_id@,
                digest,
                target,
            );
            &&& known.payload_digest@ == digest && known.target == target ==> standing
                == Standing::Known(known)
            &&& known.payload_digest@ != digest ==> (standing matches Standing::Refused(code, _)
                && code == "identity_mismatch"@)
            &&& known.target is Launch && !(target is Launch) ==> (
            standing matches Standing::Refused(code, _) && code == "identity_mismatch"@)
        }),
{
    lemma_found_by_name(providers.operations@, i, 0);
}

proof fn lemma_found_by_name(operations: Seq<OperationState>, i: int, from: nat)
    requires
        operations_distinct(operations),
        from <= i < operations.len(),
    ensures
        find_named(
            operations,
            operations[i].provider_id@,
            operations[i].request_id@,
            from,
        ) == Some(operations[i]),
    decreases i - from,
{
    if from < i {
        assert(!operations[from as int].named(
            operations[i].provider_id@,
            operations[i].request_id@,
        ));
        lemma_found_by_name(operations, i, from + 1);
    }
}

/// A request that no operation is known by is new while there are fewer operations than the
/// limit, and refused at the limit.
pub proof fn unknown_requests_are_new_while_there_is_room(
    providers: RuntimeProviders,
    provider_id: Seq<char>,
    request_id: Seq<char>,
    digest: Seq<char>,
    target: ExecutionTarget,
)
    requires
        forall|i: int|
            0 <= i < providers.operations@.len() ==> (#[trigger] providers.operations@[i]).request_id@
                != request_id,
    ensures
        providers.operations@.len() < MAX_OPERATIONS ==> providers.standing(
            provider_id,
            request_id,
            digest,
            target,
        ) is New,
        providers.operations@.len() >= MAX_OPERATIONS ==> (providers.standing(
            provider_id,
            request_id,
            digest,
            target,
        ) matches Standing::Refused(code, _) && code == "operation_limit"@),
{
    lemma_not_found(providers.operations@, provider_id, request_id, 0);
}

proof fn lemma_not_found(
    operations: Seq<OperationState>,
    provider_id: Seq<char>,
    request_id: Seq<char>,
    from: nat,
)
    requires
        forall|i: int|
            0 <= i < operations.len() ==> (#[trigger] operations[i]).request_id@ != request_id,
    ensures
        find_named(operations, provider_id, request_id, from) is None,
    decreases operations.len() - from,
{
    if from < operations.len() {
        lemma_not_found(operations, provider_id, request_id, from + 1);
    }
}

/// What is submitted for a new request: the request itself, to the provider of its terminal, or
/// to a worker of its own. It is kept under its id with the digest and the target that it was
/// submitted with, and the ticket that it got.
pub proof fn new_requests_are_submitted_and_kept<R, S>(
    providers: RuntimeProviders,
    host: ProviderHost<R, S>,
    prepared: PreparedExecution,
    judged: JudgedRequest,
    limits: ContractLimits,
    now: u64,
    r: Result<Executed, ApiError>,
    after: RuntimeProviders,
    host_after: ProviderHost<R, S>,
)
    requires
        providers.executes(host, prepared, judged, limits, now, r, after, host_after),
        r is Ok,
    ensures
        judged.in_window,
        judged.digest is Some,
        providers.configured(prepared.provider_id@) is Some,
        providers.configured(prepared.provider_id@)->0.actions_allowed,
        after.operations@.len() == providers.operations@.len() || after.operations@.len()
            == providers.operations@.len() + 1,
        after.operations@.len() == providers.operations@.len() ==> after == providers && host_after
            == host,
        after.operations@.len() == providers.operations@.len() + 1 ==> {
            let kept = after.operations@.last();
            &&& after.operations@.drop_last() == providers.operations@
            &&& kept.provider_id == prepared.provider_id
            &&& kept.request_id == prepared.request_id
            &&& kept.payload_digest == judged.digest->0
            &&& kept.target == judged.target
            &&& kept.binding == prepared.binding
            &&& kept.terminal_id == prepared.terminal_id
            &&& kept.result is None && kept.completed_at is None
            &&& prepared.terminal_id matches Some(id) ==> host.runtimes.provided(id@)
                && host.runtimes.external@[id@].answers(
                prepared.command(judged.target),
                limits,
                judged.contract_ok,
                Ok(kept.ticket),
                host_after.runtimes.external@[id@],
            )
            &&& prepared.terminal_id is None ==> host_after.slots.active == host.slots.active + 1
        },
{
    match providers.standing(
        prepared.provider_id@,
        prepared.request_id@,
        judged.digest->0@,
        judged.target,
    ) {
        Standing::New => {
            assert(after.operations@.drop_last() =~= providers.operations@);
        },
        _ => {},
    }
}

/// A lookup speaks of the execution that was named.
pub proof fn lookups_name_their_target(target: RuntimeProviderExecutionTarget)
    ensures
        target is Launch <==> named_target(target) is Launch,
        target matches RuntimeProviderExecutionTarget::Existing { session_id, generation } ==> (
        named_target(target) matches ExecutionTarget::Existing { session_id: s, generation: g } && s
            == session_id && g == generation),
        target matches RuntimeProviderExecutionTarget::Continuation {
            previous_session_id,
            previous_generation,
        } ==> (named_target(target) matches ExecutionTarget::Continuation {
            previous_session_id: s,
            previous_generation: g,
        } && s == previous_session_id && g == previous_generation),
{
}

/// What a lookup is refused for, in this order: its provider, its request id, its digest and its
/// target.
pub proof fn bad_lookups_are_refused(
    providers: RuntimeProviders,
    params: RuntimeProviderOperationGetParams,
    verdict: LookupVerdict,
)
    ensures
        ({
            let refusal = providers.lookup_refusal(params, verdict);
            let configured = providers.configured(params.provider_id@) is Some;
            &&& !configured ==> refusal == Some(
                ("provider_unavailable"@, "provider is disabled or not configured"@),
            )
            &&& configured && !verdict.request_id ==> refusal == Some(
                ("invalid_params"@, "invalid request id"@),
            )
            &&& configured && verdict.request_id && !verdict.digest ==> refusal == Some(
                ("invalid_params"@, "invalid payload digest"@),
            )
            &&& configured && verdict.request_id && verdict.digest && !verdict.target ==> refusal
                == Some(("invalid_params"@, "invalid expected execution target"@))
            &&& configured && verdict.request_id && verdict.digest && verdict.target && (
            params.expected_target is Launch || verdict.session_id) ==> refusal is None
        }),
{
}

/// A launch's directory is an ordinary text that leads into the project: relative to its root,
/// or absolute.
pub proof fn launch_directories_start_at_the_project(root: Seq<u8>, requested: Seq<char>)
    ensures
        launch_text_ok(requested) <==> 0 < byte_len(requested) <= MAX_PATH_BYTES && !has_control(
            requested,
        ),
        encode_utf8(requested).len() > 0 && encode_utf8(requested)[0] == 0x2f ==> launch_path(
            root,
            requested,
        ) == encode_utf8(requested),
        encode_utf8(requested).len() > 0 && encode_utf8(requested)[0] != 0x2f && root.len() > 0
            && root.last() != 0x2f ==> launch_path(root, requested) == root.push(0x2f)
            + encode_utf8(requested),
{
}

/// A request of a provider that is not configured, or whose owner does not allow actions, is
/// refused; so is one that is out of its time or cannot be encoded. A refusal changes nothing.
pub proof fn refused_requests_change_nothing<R, S>(
    providers: RuntimeProviders,
    host: ProviderHost<R, S>,
    prepared: PreparedExecution,
    judged: JudgedRequest,
    limits: ContractLimits,
    now: u64,
    r: Result<Executed, ApiError>,
    after: RuntimeProviders,
    host_after: ProviderHost<R, S>,
)
    requires
        providers.executes(host, prepared, judged, limits, now, r, after, host_after),
    ensures
        providers.configured(prepared.provider_id@) is None ==> (r matches Err(error) && error.code@
            == "provider_unavailable"@) && after == providers && host_after == host,
        (providers.configured(prepared.provider_id@) matches Some(config)
            && !config.actions_allowed) ==> (r matches Err(error) && error.code@
            == "action_unavailable"@) && after == providers && host_after == host,
        (providers.configured(prepared.provider_id@) matches Some(config) && config.actions_allowed)
            && (!judged.in_window || judged.digest is None) ==> (r matches Err(error) && error.code@
            == "invalid_params"@) && after == providers && host_after == host,
        r is Err ==> after == providers,
{
}

/// A worker is started for an operation only of a configured provider, while there is room
/// for one more and a generation to give it.
pub proof fn workers_are_started_while_there_is_room<R, S>(
    providers: RuntimeProviders,
    host: ProviderHost<R, S>,
    provider_id: Seq<char>,
)
    ensures
        providers.configured(provider_id) is None ==> (providers.operation_worker_refusal(
            host,
            provider_id,
        ) matches Some((code, _)) && code == "provider_unavailable"@),
        providers.configured(provider_id) is Some && host.slots.active >= 64 ==> (
        providers.operation_worker_refusal(host, provider_id) matches Some((code, _)) && code
            == "provider_busy"@),
        providers.configured(provider_id) is Some && host.slots.active < 64 && 0 < host.generations
            <= i64::MAX ==> providers.operation_worker_refusal(host, provider_id) is None,
        host.generations == 0 ==> providers.operation_worker_refusal(host, provider_id) is Some,
{
}

/// A lookup is fenced by the execution it names, under the worker's own generation, and a
/// launch names none.
pub proof fn lookups_are_fenced(
    worker: ProviderRuntimeHandle,
    target: ExecutionTarget,
    binding: Option<ManagedBinding>,
)
    requires
        fences(worker, target, binding),
    ensures
        target is Launch ==> binding is None,
        target matches ExecutionTarget::Existing { session_id, generation } ==> (binding matches
            Some(bound) && bound.session_id == session_id && bound.generation == generation
            && bound.runtime_generation == worker.runtime_generation && bound.names(
            worker.snapshot.identity,
        )),
        target matches ExecutionTarget::Continuation { previous_session_id, previous_generation }
            ==> (binding matches Some(bound) && bound.session_id == previous_session_id
            && bound.generation == previous_generation && bound.runtime_generation
            == worker.runtime_generation),
{
}

/// A lookup that is known is answered from what is kept, and one that is refused changes no
/// operation.
pub proof fn refused_lookups_keep_nothing<R, S>(
    providers: RuntimeProviders,
    host: ProviderHost<R, S>,
    params: RuntimeProviderOperationGetParams,
    verdict: LookupVerdict,
    limits: ContractLimits,
    now: u64,
    r: Result<Executed, ApiError>,
    after: RuntimeProviders,
    host_after: ProviderHost<R, S>,
)
    requires
        providers.looks_up(host, params, verdict, limits, now, r, after, host_after),
    ensures
        r is Err ==> after == providers,
        providers.configured(params.provider_id@) is None ==> (r matches Err(error) && error.code@
            == "provider_unavailable"@) && host_after == host,
        providers.configured(params.provider_id@) is Some && (!verdict.request_id
            || !verdict.digest || !verdict.target) ==> (r matches Err(error) && error.code@
            == "invalid_params"@) && host_after == host,
        r matches Ok(executed) ==> executed.operation.request_id@ == params.request_id@ || after
            == providers,
{
}

} // verus!
