use std::sync::Arc;

use herdr::api::{
    ApiError, RuntimeProviderAttachParams, RuntimeProviderExecuteParams,
    RuntimeProviderExecutionIntent, RuntimeProviderExecutionTarget, RuntimeProviderHarness,
    RuntimeProviderMode, RuntimeProviderOperationGetParams, RuntimeProviderTarget,
};
use herdr::app::attachments::{Attached, CheckpointVerdict, Detached, ProviderHost, WorkspaceChoice};
use herdr::app::execution_api::{
    execution_target_from_api, launch_candidate, resolve_launch_cwd, Executed, JudgedRequest,
    LaunchDirectory, LookupVerdict,
};
use herdr::app::polling::{Judgement, Line, Look, OperationsPolled};
use herdr::app::provider_api::{
    handle_runtime_provider_attachment_get, provider_attachment_info, ContractNames,
    RuntimeProviders,
};
use herdr::app::runtime_providers::{
    ObservedContract, PollReport, PollState, CHECKPOINT_INTERVAL_MS, OPERATION_RETENTION_MS, POLL_INTERVAL_MS,
    READ_INTERVAL_MS,
};
use herdr::canvas::{Area, CellColor};
use herdr::coven::{
    ContractError, DeliveryState, ExecutionAuthority, ExecutionOutcome, ExecutionScope,
    ExecutionTarget, RequestState, SourceCursor, SourceHealth, SourceIdentity, SourceLifecycle,
    SourceProjection, TranscriptChunk, TranscriptContent, TranscriptReply, TranscriptResult,
    WriterState,
};
use herdr::runtime_provider::actor::{DispatchStep, ProviderRuntimeHandle, WorkerSlots};
use herdr::runtime_provider::settings::OwnerProviderSettings;
use herdr::runtime_provider::transcript::TranscriptProjection;
use herdr::runtime_provider::transcript_view::{render, render_checked, TranscriptColors};
use herdr::runtime_provider::{
    ContractLimits, ProviderActivity, ProviderCommand, ProviderConfig, ProviderConnection,
    ProviderDurability, ProviderFailure, ProviderFailureKind, ProviderId, ProviderIdentity,
    ProviderLifecycle, ProviderObservation, ProviderOperation, ProviderOperationKind,
    ProviderOperationResult, ProviderUpdate,
};
use herdr::terminal::runtime_registry::TerminalRuntimeRegistry;
use herdr::terminal::table::Table;

const LIMITS: ContractLimits = ContractLimits {
    max_events: 256,
    max_chunks: 256,
};

fn names() -> ContractNames {
    ContractNames {
        source: "coven.source.v1".into(),
        transcript: "coven.transcript.v1".into(),
    }
}

type Host = ProviderHost<(), &'static str>;

struct App {
    providers: RuntimeProviders,
    host: Host,
    workers: Vec<(String, ProviderRuntimeHandle)>,
    workspaces: usize,
    terminals_made: usize,
    now: u64,
    clock: i64,
}

fn config(id: &str, suffix: &str, home: &str) -> ProviderConfig {
    let identity = ProviderIdentity::new(
        ProviderId::new(id).unwrap(),
        format!("host{suffix}"),
        ExecutionScope {
            project_id: format!("project{suffix}"),
            profile_id: format!("profile{suffix}"),
            policy_generation: 1,
        },
        ExecutionAuthority {
            id: format!("authority{suffix}"),
            generation: 1,
        },
        true,
        true,
    )
    .unwrap();
    ProviderConfig::new(identity, home.as_bytes().to_vec(), 2)
        .ok()
        .unwrap()
}

fn acting(config: ProviderConfig) -> ProviderConfig {
    config
        .with_project_root(b"/tmp".to_vec())
        .ok()
        .unwrap()
        .with_actions_allowed(true)
}

fn with_providers(enabled: bool, providers: Vec<ProviderConfig>) -> App {
    App {
        providers: RuntimeProviders::load(
            true,
            Ok(OwnerProviderSettings { enabled, providers }),
        ),
        host: ProviderHost {
            terminals: Table::new(),
            runtimes: TerminalRuntimeRegistry::new(),
            slots: WorkerSlots { active: 0 },
            generations: 1,
            retention: 64,
        },
        workers: Vec::new(),
        workspaces: 0,
        terminals_made: 0,
        now: 10_000,
        clock: 1_000_000,
    }
}

fn app(enabled: bool) -> App {
    with_providers(enabled, vec![config("owner", "", "/tmp/coven-home")])
}

fn action_app() -> App {
    with_providers(true, vec![acting(config("owner", "", "/tmp/coven-home"))])
}

fn multi_provider_app(extra: &[&str]) -> App {
    let mut providers = vec![acting(config("owner", "", "/tmp/coven-home"))];
    for (index, id) in extra.iter().enumerate() {
        let suffix = format!("-{}", index + 2);
        providers.push(acting(config(
            id,
            &suffix,
            &format!("/tmp/coven-home{suffix}"),
        )));
    }
    with_providers(true, providers)
}

fn params() -> RuntimeProviderAttachParams {
    RuntimeProviderAttachParams {
        provider_id: "owner".into(),
        session_id: "session".into(),
        generation: 1,
        workspace_id: None,
        focus: true,
        label: None,
    }
}

fn attach_params(provider_id: &str) -> RuntimeProviderAttachParams {
    RuntimeProviderAttachParams {
        provider_id: provider_id.into(),
        ..params()
    }
}

fn launch_params(app: &App, request_id: &str) -> RuntimeProviderExecuteParams {
    RuntimeProviderExecuteParams {
        provider_id: "owner".into(),
        request_id: request_id.into(),
        expires_at: app.clock + 60,
        intent: RuntimeProviderExecutionIntent::Launch {
            harness: RuntimeProviderHarness::Codex,
            mode: RuntimeProviderMode::Transcript,
            model: None,
            cwd: ".".into(),
            prompt: "synthetic provider request".into(),
        },
    }
}

fn prompt_of(intent: &RuntimeProviderExecutionIntent) -> String {
    match intent {
        RuntimeProviderExecutionIntent::Launch { prompt, .. }
        | RuntimeProviderExecutionIntent::Turn { prompt, .. }
        | RuntimeProviderExecutionIntent::Continue { prompt, .. } => prompt.clone(),
        RuntimeProviderExecutionIntent::Stop { .. } => "stop".into(),
    }
}

fn cwd_of(intent: &RuntimeProviderExecutionIntent) -> LaunchDirectory {
    let found = match intent {
        RuntimeProviderExecutionIntent::Launch { cwd, .. } if cwd == "." => b"/tmp".to_vec(),
        RuntimeProviderExecutionIntent::Launch { cwd, .. } => cwd.as_bytes().to_vec(),
        _ => Vec::new(),
    };
    LaunchDirectory {
        root: Some(b"/tmp".to_vec()),
        cwd: Some(found),
        is_dir: true,
    }
}

impl App {
    fn attach(
        &mut self,
        params: RuntimeProviderAttachParams,
    ) -> (Result<Attached, ApiError>, Detached<&'static str>) {
        let fresh = Some(format!("term_{}", self.terminals_made));
        let choice = WorkspaceChoice {
            requested: None,
            active: if self.workspaces > 0 { Some(0) } else { None },
            count: self.workspaces,
        };
        let verdict = CheckpointVerdict {
            bound: None,
            parsed: None,
        };
        let answer = self.providers.handle_runtime_provider_attach(
            &mut self.host,
            &params,
            true,
            choice,
            &fresh,
            &verdict,
            self.now,
        );
        if let Ok(attached) = &answer.0 {
            if attached.created {
                self.terminals_made += 1;
                if attached.workspace.is_none() {
                    self.workspaces += 1;
                }
            }
        }
        answer
    }

    fn attached(&mut self, provider: &str) -> String {
        match self.attach(attach_params(provider)).0 {
            Ok(attached) => attached.terminal_id,
            Err(error) => panic!("{}", error.message),
        }
    }

    fn execute(&mut self, params: RuntimeProviderExecuteParams) -> Result<Executed, ApiError> {
        let digest = prompt_of(&params.intent);
        let found = cwd_of(&params.intent);
        let in_window = params.expires_at > self.clock;
        let prepared = self
            .providers
            .prepare_execution(&self.host, params, true, &found)?;
        let target = match (&prepared.terminal_id, &prepared.binding) {
            (Some(_), Some(binding)) => ExecutionTarget::Continuation {
                previous_session_id: binding.session_id.clone(),
                previous_generation: binding.generation,
            },
            _ => ExecutionTarget::Launch,
        };
        let request_id = prepared.request_id.clone();
        let mut executed = self.providers.handle_runtime_provider_execute(
            &mut self.host,
            prepared,
            JudgedRequest {
                in_window,
                digest: Some(digest),
                target,
                contract_ok: true,
            },
            LIMITS,
            self.now,
        )?;
        if let Some(worker) = executed.worker.take() {
            self.workers.push((request_id, worker));
        }
        Ok(executed)
    }

    fn runtime(&mut self, terminal_id: &str) -> &mut ProviderRuntimeHandle {
        let found = self
            .host
            .runtimes
            .external
            .entries
            .iter_mut()
            .find(|entry| entry.0 == terminal_id);
        &mut found.expect("runtime").1
    }

    fn poll_of(&mut self, terminal_id: &str) -> &mut PollState {
        let found = self
            .providers
            .polls
            .entries
            .iter_mut()
            .find(|entry| entry.0 == terminal_id);
        &mut found.expect("poll").1
    }

    fn observe(&mut self, terminal_id: &str, observation: ProviderObservation) {
        let found = self
            .host
            .terminals
            .entries
            .iter_mut()
            .find(|entry| entry.0 == terminal_id);
        found.expect("terminal").1.external_observation = Some(observation);
    }

    fn connection(&self, terminal_id: &str) -> ProviderConnection {
        self.host
            .terminals
            .get(terminal_id)
            .and_then(|terminal| terminal.external_observation.as_ref())
            .expect("observation")
            .connection
    }

    fn poll_with(&mut self, verdict: Result<(), ContractError>) -> PollReport {
        let mut lines = self.take_lines();
        let asked = self.asked();
        let report = self.providers.poll_runtime_providers(
            &mut self.host,
            &mut lines,
            |_: &String, _: &Option<ProviderOperation>| Judgement {
                session: Some("model"),
                verdict,
                contract_ok: true,
            },
            LIMITS,
            self.now,
        );
        self.put_lines(asked, lines);
        report
    }

    fn asked(&self) -> Vec<String> {
        let operations = self.providers.operations.iter();
        operations.map(|operation| operation.request_id.clone()).collect()
    }

    /// The way to the worker of each operation.
    fn take_lines(&mut self) -> Vec<Line> {
        let mut lines = Vec::new();
        for operation in &self.providers.operations {
            let found = self
                .workers
                .iter()
                .position(|worker| worker.0 == operation.request_id);
            lines.push(Line {
                worker: found.map(|at| self.workers.remove(at).1),
                contract_ok: true,
            });
        }
        lines
    }

    fn put_lines(&mut self, asked: Vec<String>, lines: Vec<Line>) {
        for (request_id, line) in asked.into_iter().zip(lines) {
            if let Some(worker) = line.worker {
                self.workers.push((request_id, worker));
            }
        }
    }

    fn poll_operations(&mut self) -> OperationsPolled {
        let mut lines = self.take_lines();
        let asked = self.asked();
        let polled = self
            .providers
            .poll_execution_operations(&mut self.host, &mut lines, LIMITS, self.now);
        self.put_lines(asked, lines);
        polled
    }

    fn poll(&mut self) -> PollReport {
        self.poll_with(Ok(()))
    }

    /// The worker of a terminal performs the command that is queued for it.
    fn perform(&mut self, terminal_id: &str, result: ProviderOperationResult) {
        perform(self.runtime(terminal_id), result);
    }

    fn queued(&mut self, terminal_id: &str) -> &ProviderCommand {
        &self.runtime(terminal_id).commands[0].command
    }
}

fn perform(runtime: &mut ProviderRuntimeHandle, result: ProviderOperationResult) {
    match runtime.begin_dispatch() {
        DispatchStep::Run(envelope) => runtime.finish_dispatch(envelope, result),
        _ => panic!("command expected"),
    }
}

fn working() -> ProviderObservation {
    ProviderObservation {
        lifecycle: ProviderLifecycle::Running,
        activity: ProviderActivity::Working,
        connection: ProviderConnection::Connected,
        durability: ProviderDurability::Durable,
        diagnostic: None,
        writer_state: None,
    }
}

fn refused(answer: Result<Attached, ApiError>) -> ApiError {
    match answer {
        Err(error) => error,
        Ok(_) => panic!("refusal expected"),
    }
}

fn not_executed(answer: Result<Executed, ApiError>) -> ApiError {
    match answer {
        Err(error) => error,
        Ok(_) => panic!("refusal expected"),
    }
}

#[test]
fn disabled_catalog_cannot_attach_or_schedule_work() {
    let mut app = app(false);
    assert_eq!(refused(app.attach(params()).0).code, "provider_unavailable");
    assert_eq!(app.host.terminals.len(), 0);
    assert!(app.providers.deadline().is_none());
    let polled = app.poll();
    assert!(!polled.changed);
}

#[test]
fn permission_bearing_actions_require_owner_opt_in() {
    let mut app = app(true);
    let request = launch_params(&app, "disabled-action");
    assert_eq!(not_executed(app.execute(request)).code, "action_unavailable");
    assert!(app.providers.operations.is_empty());
}

#[test]
fn provider_takeover_requires_owner_opt_in_and_control() {
    let mut app = app(true);
    let terminal_id = app.attached("owner");
    let rejected =
        app.providers
            .handle_runtime_provider_takeover(&mut app.host, &terminal_id, LIMITS);
    assert_eq!(rejected.unwrap_err().code, "action_unavailable");

    let mut app = action_app();
    let terminal_id = app.attached("owner");
    let unavailable =
        app.providers
            .handle_runtime_provider_takeover(&mut app.host, &terminal_id, LIMITS);
    assert_eq!(unavailable.unwrap_err().code, "control_unavailable");
}

#[test]
fn one_provider_failure_does_not_stop_another_provider() {
    let mut app = multi_provider_app(&["second", "third"]);
    let owner_terminal = app.attached("owner");
    let second_terminal = app.attached("second");
    let third_terminal = app.attached("third");
    assert_eq!(app.host.terminals.len(), 3);
    let now = app.now;
    for terminal_id in [&owner_terminal, &second_terminal, &third_terminal] {
        app.observe(terminal_id, working());
        let poll = app.poll_of(terminal_id);
        poll.pending = None;
        poll.next_read = now;
    }
    app.runtime(&owner_terminal).shutdown();
    app.runtime(&second_terminal).shutdown();
    app.providers.refresh_deadline(now);
    assert!(app.poll().changed);

    for terminal_id in [&owner_terminal, &second_terminal] {
        assert!(app.poll_of(terminal_id).stopped);
        assert_eq!(app.connection(terminal_id), ProviderConnection::Disconnected);
    }
    let third = app.poll_of(&third_terminal);
    assert!(!third.stopped);
    assert!(third.pending.is_some());
    assert_eq!(app.connection(&third_terminal), ProviderConnection::Connected);
}

#[test]
fn dead_provider_worker_reconciles_stale_observation() {
    let mut app = action_app();
    let terminal_id = app.attached("owner");
    app.observe(&terminal_id, working());
    app.runtime(&terminal_id).shutdown();
    let now = app.now;
    {
        let poll = app.poll_of(&terminal_id);
        poll.pending = None;
        poll.next_read = now;
    }
    app.providers.refresh_deadline(now);
    assert!(app.poll().changed);
    let observation = app
        .host
        .terminals
        .get(&terminal_id)
        .unwrap()
        .external_observation
        .as_ref()
        .expect("observation");
    assert_eq!(observation.connection, ProviderConnection::Disconnected);
    assert_eq!(
        observation.diagnostic.as_deref(),
        Some("provider worker is unavailable; observation is stale")
    );
    assert!(app.poll_of(&terminal_id).stopped);
}

#[test]
fn expired_execution_is_rejected_before_worker_admission() {
    let mut app = action_app();
    let mut params = launch_params(&app, "expired-action");
    params.expires_at = app.clock - 1;
    assert_eq!(not_executed(app.execute(params)).code, "invalid_params");
    assert!(app.providers.operations.is_empty());
}

#[test]
fn execution_request_ids_are_idempotent_and_digest_bound() {
    let mut app = action_app();
    let request = launch_params(&app, "same-request");
    let first = app.execute(request.clone()).ok().expect("first");
    assert_eq!(first.operation.status, "pending");

    let replay = app.execute(request.clone()).ok().expect("replay");
    assert_eq!(replay.operation.ticket, first.operation.ticket);
    assert_eq!(app.providers.operations.len(), 1);

    let mut conflicting = request;
    match &mut conflicting.intent {
        RuntimeProviderExecutionIntent::Launch { prompt, .. } => {
            *prompt = "different payload".into();
        }
        _ => panic!("launch intent expected"),
    }
    assert_eq!(not_executed(app.execute(conflicting)).code, "identity_mismatch");
    assert_eq!(app.providers.operations.len(), 1);
}

/// The daemon client takes a session id that is not empty and a positive generation.
fn judged_target(target: RuntimeProviderExecutionTarget) -> Option<ExecutionTarget> {
    let (session_id_ok, target_ok) = match &target {
        RuntimeProviderExecutionTarget::Launch => (true, true),
        RuntimeProviderExecutionTarget::Existing {
            session_id,
            generation,
        } => (!session_id.is_empty(), *generation > 0),
        RuntimeProviderExecutionTarget::Continuation {
            previous_session_id,
            previous_generation,
        } => (!previous_session_id.is_empty(), *previous_generation > 0),
    };
    execution_target_from_api(target, session_id_ok, target_ok)
}

#[test]
fn execution_targets_validate_session_identity_and_generation() {
    assert!(judged_target(RuntimeProviderExecutionTarget::Launch).is_some());
    assert!(judged_target(RuntimeProviderExecutionTarget::Existing {
        session_id: "session/%2F1".into(),
        generation: 1,
    })
    .is_some());
    assert!(judged_target(RuntimeProviderExecutionTarget::Existing {
        session_id: String::new(),
        generation: 1,
    })
    .is_none());
    assert!(judged_target(RuntimeProviderExecutionTarget::Continuation {
        previous_session_id: "session".into(),
        previous_generation: 0,
    })
    .is_none());
}

#[test]
fn launch_working_directory_is_resolved_inside_owner_root() {
    let mut app = action_app();
    let mut params = launch_params(&app, "outside-root");
    match &mut params.intent {
        RuntimeProviderExecutionIntent::Launch { cwd, .. } => *cwd = "/".into(),
        _ => panic!("launch intent expected"),
    }
    assert_eq!(not_executed(app.execute(params)).code, "invalid_params");
    assert!(app.providers.operations.is_empty());
}

#[test]
fn unobserved_attachment_never_claims_fresh_source_evidence() {
    let mut app = app(true);
    let terminal_id = app.attached("owner");
    let info = provider_attachment_info(
        &terminal_id,
        app.host.terminals.get(&terminal_id).unwrap(),
        true,
        &names(),
        app.now,
    )
    .unwrap();
    assert_eq!(info.observation_age_ms, None);
    assert_eq!(info.observation_source, None);
    assert_eq!(info.source_ledger_id, None);
    assert_eq!(info.source_epoch, None);
    let observed_at = app.now - 2_000;
    app.host
        .terminals
        .entries
        .iter_mut()
        .find(|entry| entry.0 == terminal_id)
        .unwrap()
        .1
        .external_observed_at = Some(observed_at);
    assert!(app
        .providers
        .handle_runtime_provider_detach(&mut app.host, &terminal_id, app.now)
        .is_ok());
    let retained = provider_attachment_info(
        &terminal_id,
        app.host.terminals.get(&terminal_id).unwrap(),
        app.host.runtimes.external(&terminal_id).is_some(),
        &names(),
        app.now,
    )
    .unwrap();
    assert!(!retained.attached);
    assert!(retained.observation_age_ms.unwrap() >= 2000);
    assert_eq!(retained.observation_source.as_deref(), Some("coven.source.v1"));
}

#[test]
fn attachment_is_idempotent_and_detach_preserves_execution_and_layout() {
    let mut app = app(true);
    let terminal_id = app.attached("owner");
    assert_eq!(app.host.terminals.len(), 1);
    assert!(app.host.runtimes.get(&terminal_id).is_none());
    assert!(app.host.runtimes.external(&terminal_id).is_some());
    let execution = |app: &App| {
        app.host
            .terminals
            .get(&terminal_id)
            .unwrap()
            .external_binding
            .as_ref()
            .unwrap()
            .execution
            .clone()
    };
    let binding = execution(&app);
    let workspaces = app.workspaces;
    let again = app.attach(params()).0;
    assert_eq!(again.ok().unwrap().terminal_id, terminal_id);
    assert_eq!(app.host.terminals.len(), 1);
    let mut wrong = params();
    wrong.generation = 2;
    assert!(app.attach(wrong).0.is_err());
    assert!(app
        .providers
        .handle_runtime_provider_detach(&mut app.host, &terminal_id, app.now)
        .is_ok());
    assert!(app.host.runtimes.external(&terminal_id).is_none());
    assert!(app.providers.deadline().is_none());
    assert!(execution(&app) == binding);
    assert_eq!(app.workspaces, workspaces);
    let reattached = app.attach(params()).0.ok().unwrap();
    assert_eq!(reattached.terminal_id, terminal_id);
    assert_ne!(
        execution(&app).runtime_generation,
        binding.runtime_generation
    );
}

fn transcript_reply(text: &str, dropped: Option<u64>) -> TranscriptReply {
    TranscriptReply {
        source: SourceIdentity {
            host_id: "host".into(),
            profile_id: "profile".into(),
            ledger_id: "transcript-ledger".into(),
            epoch: 1,
        },
        health: SourceHealth {
            daemon_live: true,
            writer_state: WriterState::Healthy,
            writer_queued_bytes: None,
            writer_dropped_output_bytes: None,
        },
        projection: SourceProjection {
            lifecycle: SourceLifecycle::Running,
            exit_code: None,
            archived: false,
            dropped_output_bytes: dropped,
        },
        result: TranscriptResult::Snapshot {
            cursor: SourceCursor {
                ledger_id: "transcript-ledger".into(),
                epoch: 1,
                after_seq: 1,
                revision: 1,
            },
            chunks: vec![TranscriptChunk {
                seq: 1,
                content: TranscriptContent::Text {
                    data: text.into(),
                    omitted_prefix_bytes: 0,
                },
            }],
            prefix_omitted: false,
        },
    }
}

#[test]
fn transcript_pane_read_and_renderer_share_normalized_retained_text() {
    let mut app = app(true);
    let terminal_id = app.attached("owner");
    assert!(app
        .providers
        .handle_runtime_provider_detach(&mut app.host, &terminal_id, app.now)
        .is_ok());
    let entry = app
        .host
        .terminals
        .entries
        .iter_mut()
        .find(|entry| entry.0 == terminal_id)
        .unwrap();
    let terminal = &mut entry.1;
    let binding = terminal.external_binding.as_ref().unwrap().execution.clone();
    let reply = transcript_reply("visible\tcolumn\ncontrol:\x1b[31m", Some(2));
    let generation = binding.runtime_generation;
    let mut projection = TranscriptProjection::new(binding);
    assert!(projection.apply(&reply, generation, Ok(())).is_ok());
    let expected = projection
        .read_lines(2)
        .iter()
        .map(|line| line.as_str())
        .collect::<Vec<_>>()
        .join("\n");
    terminal.external_transcript = Some(projection);
    let area = ratatui::layout::Rect::new(0, 0, 80, 4);
    let mut buffer = ratatui::buffer::Buffer::empty(area);
    render(
        terminal,
        &mut buffer,
        Area::new(0, 0, 80, 4),
        TranscriptColors {
            accent: CellColor::Rgb(1, 2, 3),
            overlay: CellColor::Rgb(4, 5, 6),
            text: CellColor::Rgb(7, 8, 9),
        },
    );
    let row = |y: u16| {
        (0..80)
            .map(|x| buffer[(x, y)].symbol())
            .collect::<String>()
            .trim_end()
            .to_owned()
    };
    let rendered = vec![row(1), row(2)].join("\n");
    assert_eq!(rendered, expected);
    assert!(!expected.contains('\x1b'));
    assert!(!expected.contains('\t'));
    assert!(expected.contains("visible\\tcolumn"));
    assert_eq!(row(3), "Provider dropped output / transcript is read-only");
    assert_eq!(buffer[(0, 1)].fg, ratatui::style::Color::Rgb(7, 8, 9));
    assert!(app.host.runtimes.get(&terminal_id).is_none());
}

#[test]
fn a_new_attachment_asks_for_health_then_for_the_stream() {
    let mut app = app(true);
    let terminal_id = app.attached("owner");
    assert_eq!(app.providers.deadline(), Some(app.now));
    assert!(!app.poll().changed);
    assert_eq!(
        app.providers.deadline(),
        Some(app.now + POLL_INTERVAL_MS)
    );
    app.now += POLL_INTERVAL_MS;
    let failure = ProviderFailure::new(ProviderFailureKind::Disconnected, "daemon is away");
    assert!(matches!(app.queued(&terminal_id), ProviderCommand::Health));
    app.perform(&terminal_id, ProviderOperationResult::Failure(failure));
    let polled = app.poll();
    assert!(polled.changed);
    assert!(!polled.persist);
    assert_eq!(app.poll_of(&terminal_id).failures, 1);
    let next_read = app.poll_of(&terminal_id).next_read;
    assert_eq!(next_read, app.now + 2_000);
    assert_eq!(app.providers.deadline(), Some(app.now + 2_000));
    // Not due yet: nothing is looked at.
    app.now += 1_999;
    let early = app.poll();
    assert!(!early.changed);
    assert_eq!(app.poll_of(&terminal_id).pending, None);
    app.now += 1;
    app.poll();
    assert!(app.poll_of(&terminal_id).pending.is_some());
}

#[test]
fn an_unsupported_stream_falls_back_to_the_transcript() {
    let mut app = app(true);
    let terminal_id = app.attached("owner");
    app.poll_of(&terminal_id).health = false;
    app.poll();
    app.now += POLL_INTERVAL_MS;
    let failure = ProviderFailure::new(ProviderFailureKind::Unsupported, "no stream");
    assert!(matches!(
        app.queued(&terminal_id),
        ProviderCommand::AttachCheckpoint { .. }
    ));
    app.perform(&terminal_id, ProviderOperationResult::Failure(failure));
    assert!(app.poll().changed);
    assert!(app.poll_of(&terminal_id).transcript);
    assert!(!app.poll_of(&terminal_id).checkpoint);
    let shown = app.host.terminals.get(&terminal_id).unwrap();
    assert_eq!(
        shown
            .external_observation
            .as_ref()
            .unwrap()
            .diagnostic
            .as_deref(),
        Some("Provider does not expose checkpoint terminal output; using transcript fallback.")
    );
    // The transcript is read at once, and its ledger is pinned.
    app.now += POLL_INTERVAL_MS;
    let reply = transcript_reply("hello", None);
    assert!(matches!(
        app.queued(&terminal_id),
        ProviderCommand::ReadTranscript {
            cursor: None,
            limit: 32,
            ..
        }
    ));
    app.perform(
        &terminal_id,
        ProviderOperationResult::Transcript(Arc::new(reply)),
    );
    let polled = app.poll();
    assert!(polled.changed);
    assert!(polled.persist);
    let next_read = app.poll_of(&terminal_id).next_read;
    assert_eq!(next_read, app.now + READ_INTERVAL_MS);
    let terminal = app.host.terminals.get(&terminal_id).unwrap();
    assert_eq!(
        terminal.external_observed_contract,
        Some(ObservedContract::Transcript)
    );
    let info =
        provider_attachment_info(&terminal_id, terminal, true, &names(), app.now + 5).unwrap();
    assert_eq!(info.source_ledger_id.as_deref(), Some("transcript-ledger"));
    assert_eq!(info.observation_age_ms, Some(5));
    assert_eq!(info.observation_source.as_deref(), Some("coven.transcript.v1"));
    let text = terminal.external_transcript.as_ref().unwrap();
    assert_eq!(text.lines()[0].as_str(), "hello");
}

#[test]
fn a_refused_transcript_stops_the_attachment() {
    let mut app = app(true);
    let terminal_id = app.attached("owner");
    let poll = app.poll_of(&terminal_id);
    poll.health = false;
    poll.checkpoint = false;
    poll.transcript = true;
    app.poll();
    app.now += POLL_INTERVAL_MS;
    app.perform(
        &terminal_id,
        ProviderOperationResult::Transcript(Arc::new(transcript_reply("x", None))),
    );
    let polled = app.poll_with(Err(ContractError { code: 9 }));
    assert!(polled.changed);
    assert!(app.poll_of(&terminal_id).stopped);
    assert_eq!(app.connection(&terminal_id), ProviderConnection::Disconnected);
    let terminal = app.host.terminals.get(&terminal_id).unwrap();
    assert!(terminal.external_transcript.is_none());
    assert!(app.providers.deadline().is_none());
}

#[test]
fn an_answer_that_nobody_waits_for_is_ignored() {
    let mut app = app(true);
    let terminal_id = app.attached("owner");
    app.poll();
    app.now += POLL_INTERVAL_MS;
    let failure = ProviderFailure::new(ProviderFailureKind::Rejected, "no");
    app.perform(&terminal_id, ProviderOperationResult::Failure(failure));
    let settled = app.providers.collect_settled(&mut app.host);
    assert!(settled[0].is_some());
    let now = app.now;
    let poll = app.poll_of(&terminal_id);
    poll.pending = None;
    poll.next_read = now + CHECKPOINT_INTERVAL_MS;
    let looks = settled
        .into_iter()
        .map(|settled| Look {
            settled,
            session: None,
            verdict: Ok(()),
            contract_ok: true,
        })
        .collect();
    let polled = app
        .providers
        .poll_attachments(&mut app.host, looks, LIMITS, now);
    assert!(!polled.changed);
    assert!(!app.poll_of(&terminal_id).stopped);
    assert_eq!(app.poll_of(&terminal_id).failures, 0);
}

fn outcome(state: RequestState, session: &str, generation: u64) -> ExecutionOutcome {
    ExecutionOutcome {
        state,
        delivery: DeliveryState::Dispatched,
        session_id: session.into(),
        parent_session_id: Some("session".into()),
        generation,
        session_status: None,
        exit_code: None,
    }
}

#[test]
fn a_launch_is_followed_by_lookups_until_its_outcome_is_known() {
    let mut app = action_app();
    let request = launch_params(&app, "launch");
    assert!(app.execute(request).is_ok());
    app.poll();
    app.now += POLL_INTERVAL_MS;
    let running = outcome(RequestState::Running, "session", 1);
    perform(&mut app.workers[0].1, ProviderOperationResult::Execution(running));
    let before = app.providers.operations[0].ticket;
    let polled = app.poll();
    assert!(polled.changed);
    assert!(!polled.persist);
    assert!(!app.workers[0].1.stopped);
    assert_ne!(app.providers.operations[0].ticket, before);
    assert!(app.providers.operations[0].result.is_none());
    assert_eq!(app.workers[0].1.commands.len(), 1);
    match &app.workers[0].1.commands[0].command {
        ProviderCommand::LookupExecution {
            request_id,
            expected_digest,
            expected_target,
            ..
        } => {
            assert_eq!(request_id, "launch");
            assert_eq!(expected_digest, "synthetic provider request");
            assert!(matches!(expected_target, ExecutionTarget::Launch));
        }
        _ => panic!("lookup expected"),
    }

    app.now += POLL_INTERVAL_MS;
    let known = outcome(RequestState::OutcomeKnown, "session", 1);
    perform(
        &mut app.workers[0].1,
        ProviderOperationResult::LookupExecution(known),
    );
    let polled = app.poll();
    assert!(polled.changed);
    assert!(app.workers[0].1.stopped && app.workers[0].1.detached);
    assert!(app.workers[0].1.commands.is_empty());
    assert_eq!(app.providers.operations[0].completed_at, Some(app.now));
    assert!(app.providers.deadline().is_none());

    // The record is kept for a while, and then dropped.
    let settled_at = app.now;
    app.now = settled_at + OPERATION_RETENTION_MS - 1;
    app.poll_operations();
    assert_eq!(app.providers.operations.len(), 1);
    app.now += 1;
    app.poll_operations();
    assert!(app.providers.operations.is_empty());
}

#[test]
fn a_settled_continuation_moves_the_terminal_to_the_child() {
    let mut app = action_app();
    let terminal_id = app.attached("owner");
    app.observe(&terminal_id, working());
    let request = RuntimeProviderExecuteParams {
        provider_id: "owner".into(),
        request_id: "next".into(),
        expires_at: app.clock + 60,
        intent: RuntimeProviderExecutionIntent::Continue {
            terminal_id: terminal_id.clone(),
            prompt: "go on".into(),
        },
    };
    assert!(app.execute(request).is_ok());
    let poll = app.poll_of(&terminal_id);
    poll.transcript = true;
    poll.failures = 3;
    app.now += POLL_INTERVAL_MS;
    let known = outcome(RequestState::OutcomeKnown, "child", 2);
    app.perform(&terminal_id, ProviderOperationResult::Execution(known));
    let polled = app.poll();
    assert!(polled.changed && polled.persist && polled.render);
    assert!(!app.runtime(&terminal_id).stopped);
    let terminal = app.host.terminals.get(&terminal_id).unwrap();
    let execution = &terminal.external_binding.as_ref().unwrap().execution;
    assert_eq!(execution.session_id, "child");
    assert_eq!(execution.generation, 2);
    assert!(execution.pinned_source.is_none());
    assert!(terminal.external_transcript.is_some());
    assert_eq!(app.poll_of(&terminal_id).failures, 0);
    // The child is read in the same pass.
    assert!(app.poll_of(&terminal_id).pending.is_some());
}

#[test]
fn operations_are_looked_up_by_digest_and_target() {
    let mut app = action_app();
    let request = launch_params(&app, "launch");
    assert!(app.execute(request).is_ok());
    let get = |digest: &str, target: RuntimeProviderExecutionTarget| {
        RuntimeProviderOperationGetParams {
            provider_id: "owner".into(),
            request_id: "launch".into(),
            payload_digest: digest.into(),
            expected_target: target,
        }
    };
    let verdict = LookupVerdict {
        request_id: true,
        digest: true,
        session_id: true,
        target: true,
        contract_ok: true,
    };
    let found = app
        .providers
        .handle_runtime_provider_operation_get(
            &mut app.host,
            get(
                "synthetic provider request",
                RuntimeProviderExecutionTarget::Launch,
            ),
            verdict,
            LIMITS,
            app.now,
        )
        .ok()
        .expect("operation");
    assert_eq!(found.operation.status, "pending");
    assert_eq!(found.operation.target, "launch");
    let refused = app.providers.handle_runtime_provider_operation_get(
        &mut app.host,
        get("other digest", RuntimeProviderExecutionTarget::Launch),
        verdict,
        LIMITS,
        app.now,
    );
    assert!(refused.is_err());
    assert_eq!(app.providers.operations.len(), 1);
}

#[test]
fn providers_are_listed_without_paths() {
    let app = action_app();
    let listed = app.providers.handle_runtime_provider_list();
    assert_eq!(listed.len(), 1);
    assert_eq!(listed[0].provider_id, "owner");
    assert_eq!(
        listed[0].capabilities,
        vec![
            "execution_projection.v1",
            "execution_transcript.v1",
            "terminal_checkpoint.v1",
            "execution_actions.v1"
        ]
    );
    let target = |id: &str| RuntimeProviderTarget {
        provider_id: id.into(),
    };
    let found = app.providers.handle_runtime_provider_get(&target("owner"));
    assert_eq!(found.ok(), listed.into_iter().next());
    let missing = app.providers.handle_runtime_provider_get(&target("other"));
    assert_eq!(missing.unwrap_err().code, "provider_not_found");
    let disabled = with_providers(false, vec![config("owner", "", "/tmp/coven-home")]);
    let shown = disabled.providers.handle_runtime_provider_list();
    assert!(!shown[0].enabled);
    assert!(shown[0].capabilities.is_empty());
}

#[test]
fn a_restart_starts_the_providers_of_its_terminals_again() {
    let mut app = app(true);
    let terminal_id = app.attached("owner");
    app.providers
        .handle_runtime_provider_detach(&mut app.host, &terminal_id, app.now)
        .ok()
        .unwrap();
    assert_eq!(app.host.restorable_terminals(), vec![terminal_id.clone()]);
    let verdict = CheckpointVerdict {
        bound: None,
        parsed: None,
    };
    app.providers
        .restore_runtime_provider(&mut app.host, &terminal_id, &verdict, app.now);
    assert!(app.host.runtimes.external(&terminal_id).is_some());
    assert!(app.host.restorable_terminals().is_empty());
    assert_eq!(app.providers.deadline(), Some(app.now));

    // A provider that is no longer configured leaves the reason on its terminal.
    app.providers
        .handle_runtime_provider_detach(&mut app.host, &terminal_id, app.now)
        .ok()
        .unwrap();
    app.providers.settings.providers.clear();
    app.providers
        .restore_runtime_provider(&mut app.host, &terminal_id, &verdict, app.now);
    let shown = app.host.terminals.get(&terminal_id).unwrap();
    assert_eq!(
        shown
            .external_observation
            .as_ref()
            .unwrap()
            .diagnostic
            .as_deref(),
        Some("provider is disabled or not configured")
    );
    assert!(app.host.runtimes.external(&terminal_id).is_none());
}

#[test]
fn a_transcript_is_shown_only_where_its_area_fits() {
    let mut app = app(true);
    let terminal_id = app.attached("owner");
    let entry = app
        .host
        .terminals
        .entries
        .iter_mut()
        .find(|entry| entry.0 == terminal_id)
        .unwrap();
    let terminal = &mut entry.1;
    let colors = TranscriptColors {
        accent: CellColor::Red,
        overlay: CellColor::Gray,
        text: CellColor::Reset,
    };
    let bounds = ratatui::layout::Rect::new(2, 1, 60, 4);
    let blank = ratatui::buffer::Buffer::empty(bounds);
    let mut buffer = blank.clone();
    assert!(!render_checked(terminal, &mut buffer, Area::new(0, 0, 60, 4), colors));
    assert_eq!(buffer, blank);
    let mut short = blank.clone();
    short.content.pop();
    assert!(!render_checked(terminal, &mut short, Area::new(2, 1, 60, 4), colors));
    for (transcript, shown) in [
        (true, ""),
        (false, "Transcript output is unavailable from this provider."),
    ] {
        if !transcript {
            terminal.external_transcript = None;
        }
        let mut buffer = blank.clone();
        assert!(render_checked(terminal, &mut buffer, Area::new(2, 1, 60, 4), colors));
        let body: String = (2..62).map(|x| buffer[(x, 2)].symbol()).collect();
        assert_eq!(body.trim_end(), shown);
    }
}

#[test]
fn attachments_are_found_by_their_terminal() {
    let mut app = app(true);
    let terminal_id = app.attached("owner");
    let info = handle_runtime_provider_attachment_get(
        &app.host.terminals,
        &terminal_id,
        true,
        &names(),
        app.now,
    )
    .unwrap();
    assert_eq!(info.terminal_id, terminal_id);
    assert_eq!(info.provider_id, "owner");
    assert!(info.attached);
    let error = handle_runtime_provider_attachment_get(
        &app.host.terminals,
        "elsewhere",
        true,
        &names(),
        app.now,
    )
    .unwrap_err();
    assert_eq!(error.code, "attachment_not_found");
    assert_eq!(error.message, "provider attachment does not exist");
}

#[test]
fn launches_stay_in_the_project() {
    let root = b"/work/project".to_vec();
    assert_eq!(launch_candidate(&root, "/tmp/x"), Some(b"/tmp/x".to_vec()));
    assert_eq!(
        launch_candidate(&root, "crates/a"),
        Some(b"/work/project/crates/a".to_vec())
    );
    for refused in ["", "a\nb"] {
        assert_eq!(launch_candidate(&root, refused), None);
    }
    let found = |cwd: &str, is_dir: bool| LaunchDirectory {
        root: Some(root.clone()),
        cwd: Some(cwd.as_bytes().to_vec()),
        is_dir,
    };
    assert_eq!(
        resolve_launch_cwd("crates/a", &found("/work/project/crates/a", true)),
        Some("/work/project/crates/a".into())
    );
    assert_eq!(
        resolve_launch_cwd("crates/a", &found("/work/project/crates/a", false)),
        None
    );
    assert_eq!(
        resolve_launch_cwd("../projects", &found("/work/projects", true)),
        None
    );
}

#[test]
fn a_lookup_of_an_attached_execution_goes_to_the_terminal_before_it_is_read() {
    let mut app = action_app();
    let terminal_id = app.attached("owner");
    let request = RuntimeProviderExecuteParams {
        provider_id: "owner".into(),
        request_id: "turn".into(),
        expires_at: app.clock + 60,
        intent: RuntimeProviderExecutionIntent::Turn {
            terminal_id: terminal_id.clone(),
            prompt: "go on".into(),
        },
    };
    assert!(app.execute(request).is_ok());
    let now = app.now + POLL_INTERVAL_MS;
    app.now = now;
    let running = outcome(RequestState::Running, "session", 1);
    app.perform(&terminal_id, ProviderOperationResult::Execution(running));
    let poll = app.poll_of(&terminal_id);
    poll.pending = None;
    poll.next_read = now;
    app.providers.refresh_deadline(now);
    assert!(app.poll().changed);
    let commands = &app.runtime(&terminal_id).commands;
    assert_eq!(commands.len(), 2);
    assert!(matches!(
        commands[0].command,
        ProviderCommand::LookupExecution { .. }
    ));
    assert!(!matches!(
        commands[1].command,
        ProviderCommand::LookupExecution { .. }
    ));
}

#[test]
fn an_execution_without_the_opt_in_of_the_owner_is_refused_after_it_was_prepared() {
    let allowed = action_app();
    let request = launch_params(&allowed, "once-prepared");
    let digest = prompt_of(&request.intent);
    let found = cwd_of(&request.intent);
    let prepared = match allowed
        .providers
        .prepare_execution(&allowed.host, request, true, &found)
    {
        Ok(prepared) => prepared,
        Err(_) => panic!("prepared request expected"),
    };
    let mut app = app(true);
    let answer = app.providers.handle_runtime_provider_execute(
        &mut app.host,
        prepared,
        JudgedRequest {
            in_window: true,
            digest: Some(digest),
            target: ExecutionTarget::Launch,
            contract_ok: true,
        },
        LIMITS,
        app.now,
    );
    assert_eq!(not_executed(answer).code, "action_unavailable");
    assert!(app.providers.operations.is_empty());
    assert_eq!(app.host.slots.active, 0);
}

fn continue_params(app: &App, terminal_id: &str, request_id: &str) -> RuntimeProviderExecuteParams {
    RuntimeProviderExecuteParams {
        provider_id: "owner".into(),
        request_id: request_id.into(),
        expires_at: app.clock + 60,
        intent: RuntimeProviderExecutionIntent::Continue {
            terminal_id: terminal_id.into(),
            prompt: "go on".into(),
        },
    }
}

fn notify(runtime: &mut ProviderRuntimeHandle, count: usize) {
    runtime.updates = (0..count)
        .map(|_| ProviderUpdate {
            ticket: None,
            binding: None,
            kind: ProviderOperationKind::Health,
            runtime_generation: runtime.runtime_generation,
            result: ProviderOperationResult::Detached,
            snapshot: Arc::clone(&runtime.snapshot),
        })
        .collect();
}

#[test]
fn notifications_are_taken_from_the_provider_of_an_open_operation() {
    let mut app = action_app();
    let request = launch_params(&app, "launch");
    assert!(app.execute(request).is_ok());
    let running = outcome(RequestState::Running, "session", 1);
    perform(&mut app.workers[0].1, ProviderOperationResult::Execution(running));
    notify(&mut app.workers[0].1, 20);
    assert!(app.poll_operations().changed);
    assert_eq!(app.workers[0].1.updates.len(), 12);
    assert!(!app.poll_operations().changed);
    assert_eq!(app.workers[0].1.updates.len(), 4);
    assert!(!app.poll_operations().changed);
    assert!(app.workers[0].1.updates.is_empty());

    let mut app = action_app();
    let terminal_id = app.attached("owner");
    app.observe(&terminal_id, working());
    let request = continue_params(&app, &terminal_id, "next");
    assert!(app.execute(request).is_ok());
    let known = outcome(RequestState::OutcomeKnown, "child", 2);
    app.perform(&terminal_id, ProviderOperationResult::Execution(known));
    notify(app.runtime(&terminal_id), 20);
    assert!(app.poll_operations().moved);
    assert_eq!(app.runtime(&terminal_id).updates.len(), 12);
    // Nothing is taken for an operation that has completed.
    app.poll_operations();
    assert_eq!(app.runtime(&terminal_id).updates.len(), 12);
}

#[test]
fn an_operation_is_not_looked_up_at_a_later_provider_of_its_terminal() {
    let mut app = action_app();
    let terminal_id = app.attached("owner");
    app.observe(&terminal_id, working());
    let request = continue_params(&app, &terminal_id, "next");
    assert!(app.execute(request).is_ok());
    let submitted = app.providers.operations[0].ticket;
    let generation = app.providers.operations[0].runtime_generation;
    assert_eq!(generation, app.runtime(&terminal_id).runtime_generation);

    // The reader has stopped, and the terminal is attached once more.
    app.poll_of(&terminal_id).stopped = true;
    let (answer, detached) = app.attach(attach_params("owner"));
    match answer {
        Ok(attached) => assert_eq!(attached.terminal_id, terminal_id),
        Err(error) => panic!("{}", error.message),
    }
    let retired = detached.retired.expect("provider");
    assert!(retired.stopped && retired.detached);
    assert_eq!(retired.runtime_generation, generation);
    assert_eq!(retired.capacity, app.runtime(&terminal_id).capacity);
    assert_eq!(detached.session, None);
    assert!(app.runtime(&terminal_id).runtime_generation > generation);

    let polled = app.poll_operations();
    assert!(!polled.changed && !polled.moved);
    assert!(app.runtime(&terminal_id).commands.is_empty());
    assert_eq!(app.providers.operations[0].ticket, submitted);
    assert!(app.providers.operations[0].completed_at.is_none());

    // One that is submitted now is looked up where it was submitted.
    app.observe(&terminal_id, working());
    let request = continue_params(&app, &terminal_id, "again");
    assert!(app.execute(request).is_ok());
    let running = outcome(RequestState::Running, "child", 2);
    app.perform(&terminal_id, ProviderOperationResult::Execution(running));
    assert!(app.poll_operations().changed);
    assert_eq!(app.runtime(&terminal_id).commands.len(), 1);
    assert_eq!(app.providers.operations[0].ticket, submitted);
}

#[test]
fn an_operation_outlives_a_detached_terminal() {
    let mut app = action_app();
    let terminal_id = app.attached("owner");
    app.observe(&terminal_id, working());
    let request = continue_params(&app, &terminal_id, "next");
    assert!(app.execute(request).is_ok());
    let known = outcome(RequestState::OutcomeKnown, "child", 2);
    app.perform(&terminal_id, ProviderOperationResult::Execution(known));
    let submitted = app.providers.operations[0].ticket;
    let now = app.now;
    let detached = app
        .providers
        .handle_runtime_provider_detach(&mut app.host, &terminal_id, now);
    let retired = detached.ok().and_then(|detached| detached.retired);
    assert!(retired
        .expect("provider")
        .snapshot
        .operation_result(submitted)
        .is_none());
    assert!(!app.poll_operations().changed);
    assert_eq!(app.providers.operations.len(), 1);
    assert!(app.providers.operations[0].result.is_none());
}
