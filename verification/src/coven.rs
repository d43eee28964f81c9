//! Plain values of the Coven daemon contract, as far as this library reads them.
//!
//! Identifiers are kept as text. Whether a piece of text is an identifier that
//! the daemon's own contract accepts is decided by the daemon client; functions
//! of this library that depend on such a decision take it as an argument.
use vstd::prelude::*;

use crate::text::same;

verus! {

/// The project, profile and policy generation an execution runs under.
#[derive(Debug, PartialEq, Eq)]
pub struct ExecutionScope {
    pub project_id: String,
    pub profile_id: String,
    pub policy_generation: u64,
}

impl Clone for ExecutionScope {
    fn clone(&self) -> (r: Self)
        ensures
            r == *self,
    {
        ExecutionScope {
            project_id: self.project_id.clone(),
            profile_id: self.profile_id.clone(),
            policy_generation: self.policy_generation,
        }
    }
}

impl ExecutionScope {
    pub open spec fn same_as(self, other: Self) -> bool {
        &&& self.project_id@ == other.project_id@
        &&& self.profile_id@ == other.profile_id@
        &&& self.policy_generation == other.policy_generation
    }

    pub fn equals(&self, other: &Self) -> (r: bool)
        ensures
            r == self.same_as(*other),
    {
        same(self.project_id.as_str(), other.project_id.as_str()) && same(
            self.profile_id.as_str(),
            other.profile_id.as_str(),
        ) && self.policy_generation == other.policy_generation
    }
}

/// The execution authority that a daemon acts for.
#[derive(Debug, PartialEq, Eq)]
pub struct ExecutionAuthority {
    pub id: String,
    pub generation: u64,
}

impl Clone for ExecutionAuthority {
    fn clone(&self) -> (r: Self)
        ensures
            r == *self,
    {
        ExecutionAuthority { id: self.id.clone(), generation: self.generation }
    }
}

impl ExecutionAuthority {
    pub open spec fn same_as(self, other: Self) -> bool {
        self.id@ == other.id@ && self.generation == other.generation
    }

    pub fn equals(&self, other: &Self) -> (r: bool)
        ensures
            r == self.same_as(*other),
    {
        same(self.id.as_str(), other.id.as_str()) && self.generation == other.generation
    }
}

/// One ledger of events on one host.
#[derive(Debug, PartialEq, Eq)]
pub struct SourceIdentity {
    pub host_id: String,
    pub profile_id: String,
    pub ledger_id: String,
    pub epoch: u64,
}

impl Clone for SourceIdentity {
    fn clone(&self) -> (r: Self)
        ensures
            r == *self,
    {
        SourceIdentity {
            host_id: self.host_id.clone(),
            profile_id: self.profile_id.clone(),
            ledger_id: self.ledger_id.clone(),
            epoch: self.epoch,
        }
    }
}

impl SourceIdentity {
    pub open spec fn same_as(self, other: Self) -> bool {
        &&& self.host_id@ == other.host_id@
        &&& self.profile_id@ == other.profile_id@
        &&& self.ledger_id@ == other.ledger_id@
        &&& self.epoch == other.epoch
    }

    pub fn equals(&self, other: &Self) -> (r: bool)
        ensures
            r == self.same_as(*other),
    {
        same(self.host_id.as_str(), other.host_id.as_str()) && same(
            self.profile_id.as_str(),
            other.profile_id.as_str(),
        ) && same(self.ledger_id.as_str(), other.ledger_id.as_str()) && self.epoch == other.epoch
    }
}

/// A position in a ledger.
#[derive(Debug, PartialEq, Eq)]
pub struct SourceCursor {
    pub ledger_id: String,
    pub epoch: u64,
    pub after_seq: i64,
    pub revision: u64,
}

impl Clone for SourceCursor {
    fn clone(&self) -> (r: Self)
        ensures
            r == *self,
    {
        SourceCursor {
            ledger_id: self.ledger_id.clone(),
            epoch: self.epoch,
            after_seq: self.after_seq,
            revision: self.revision,
        }
    }
}

impl SourceCursor {
    pub open spec fn same_as(self, other: Self) -> bool {
        &&& self.ledger_id@ == other.ledger_id@
        &&& self.epoch == other.epoch
        &&& self.after_seq == other.after_seq
        &&& self.revision == other.revision
    }

    pub fn equals(&self, other: &Self) -> (r: bool)
        ensures
            r == self.same_as(*other),
    {
        same(self.ledger_id.as_str(), other.ledger_id.as_str()) && self.epoch == other.epoch
            && self.after_seq == other.after_seq && self.revision == other.revision
    }
}

/// The state of the daemon's ledger writer. States other than `Healthy` are
/// carried by the number the daemon client gives them.
#[derive(Clone, Copy, Debug, PartialEq, Eq, Structural)]
pub enum WriterState {
    Healthy,
    Other(u8),
}

/// What a source says of the execution it describes.
#[derive(Clone, Copy, Debug, PartialEq, Eq, Structural)]
pub enum SourceLifecycle {
    Created,
    Starting,
    Running,
    Idle,
    Completed,
    Failed,
    Cancelled,
    Killed,
    Orphaned,
}

#[derive(Clone, Copy, Debug, PartialEq, Eq, Structural)]
pub struct SourceHealth {
    pub daemon_live: bool,
    pub writer_state: WriterState,
    pub writer_queued_bytes: Option<u64>,
    pub writer_dropped_output_bytes: Option<u64>,
}

#[derive(Clone, Copy, Debug, PartialEq, Eq, Structural)]
pub struct SourceProjection {
    pub lifecycle: SourceLifecycle,
    pub exit_code: Option<i32>,
    pub archived: bool,
    pub dropped_output_bytes: Option<u64>,
}

/// The body of one transcript chunk.
#[derive(Debug, PartialEq, Eq)]
pub enum TranscriptContent {
    Text { data: String, omitted_prefix_bytes: u64 },
    Omitted,
}

#[derive(Debug, PartialEq, Eq)]
pub struct TranscriptChunk {
    pub seq: i64,
    pub content: TranscriptContent,
}

#[derive(Debug, PartialEq, Eq)]
pub enum TranscriptResult {
    Snapshot { cursor: SourceCursor, chunks: Vec<TranscriptChunk>, prefix_omitted: bool },
    Page {
        after: SourceCursor,
        cursor: SourceCursor,
        chunks: Vec<TranscriptChunk>,
        has_more: bool,
    },
    Reset,
}

/// One answer to a transcript read.
#[derive(Debug, PartialEq, Eq)]
pub struct TranscriptReply {
    pub source: SourceIdentity,
    pub health: SourceHealth,
    pub projection: SourceProjection,
    pub result: TranscriptResult,
}

impl TranscriptReply {
    pub open spec fn chunks(self) -> Seq<TranscriptChunk> {
        match self.result {
            TranscriptResult::Snapshot { chunks, .. } => chunks@,
            TranscriptResult::Page { chunks, .. } => chunks@,
            TranscriptResult::Reset => Seq::empty(),
        }
    }
}

/// A source read: the execution it is about, and where it starts.
#[derive(Debug, PartialEq, Eq)]
pub struct SourceRead {
    pub host_id: String,
    pub scope: ExecutionScope,
    pub session_id: String,
    pub generation: u64,
    pub cursor: Option<SourceCursor>,
    pub limit: u16,
}

/// A transcript read: the execution it is about, and where it starts.
#[derive(Debug, PartialEq, Eq)]
pub struct TranscriptRead {
    pub host_id: String,
    pub scope: ExecutionScope,
    pub authority: ExecutionAuthority,
    pub session_id: String,
    pub generation: u64,
    pub cursor: Option<SourceCursor>,
    pub limit: u16,
}

/// A reason why the daemon client refuses a value of the contract, by the number
/// it gives that reason.
#[derive(Clone, Copy, Debug, PartialEq, Eq, Structural)]
pub struct ContractError {
    pub code: u16,
}

#[derive(Debug, PartialEq, Eq)]
pub enum SourceResult {
    Snapshot { cursor: SourceCursor, projection: SourceProjection },
    Page { next_cursor: Option<SourceCursor> },
    Reset,
}

/// One answer to a source read.
#[derive(Debug, PartialEq, Eq)]
pub struct SourceReply {
    pub source: SourceIdentity,
    pub health: SourceHealth,
    pub result: SourceResult,
}

/// Which execution a request speaks of.
#[derive(Debug, PartialEq, Eq)]
pub enum ExecutionTarget {
    Launch,
    Existing { session_id: String, generation: u64 },
    Continuation { previous_session_id: String, previous_generation: u64 },
}

impl Clone for ExecutionTarget {
    fn clone(&self) -> (r: Self)
        ensures
            r == *self,
    {
        match self {
            ExecutionTarget::Launch => ExecutionTarget::Launch,
            ExecutionTarget::Existing { session_id, generation } => ExecutionTarget::Existing {
                session_id: session_id.clone(),
                generation: *generation,
            },
            ExecutionTarget::Continuation { previous_session_id, previous_generation } => {
                ExecutionTarget::Continuation {
                    previous_session_id: previous_session_id.clone(),
                    previous_generation: *previous_generation,
                }
            },
        }
    }
}

impl ExecutionTarget {
    pub open spec fn same_as(self, other: Self) -> bool {
        match (self, other) {
            (ExecutionTarget::Launch, ExecutionTarget::Launch) => true,
            (
                ExecutionTarget::Existing { session_id: a, generation: g },
                ExecutionTarget::Existing { session_id: b, generation: h },
            ) => a@ == b@ && g == h,
            (
                ExecutionTarget::Continuation { previous_session_id: a, previous_generation: g },
                ExecutionTarget::Continuation { previous_session_id: b, previous_generation: h },
            ) => a@ == b@ && g == h,
            _ => false,
        }
    }

    pub fn equals(&self, other: &Self) -> (r: bool)
        ensures
            r == self.same_as(*other),
    {
        match (self, other) {
            (ExecutionTarget::Launch, ExecutionTarget::Launch) => true,
            (
                ExecutionTarget::Existing { session_id: a, generation: g },
                ExecutionTarget::Existing { session_id: b, generation: h },
            ) => same(a.as_str(), b.as_str()) && *g == *h,
            (
                ExecutionTarget::Continuation { previous_session_id: a, previous_generation: g },
                ExecutionTarget::Continuation { previous_session_id: b, previous_generation: h },
            ) => same(a.as_str(), b.as_str()) && *g == *h,
            _ => false,
        }
    }
}

#[derive(Clone, Copy, Debug, PartialEq, Eq, Structural)]
pub enum ExecutionHarness {
    Codex,
    Claude,
    Copilot,
}

#[derive(Clone, Copy, Debug, PartialEq, Eq, Structural)]
pub enum ExecutionMode {
    Transcript,
    Terminal,
}

/// What an execution request asks for.
#[derive(Debug, PartialEq, Eq)]
pub enum ExecutionIntent {
    Launch {
        harness: ExecutionHarness,
        mode: ExecutionMode,
        model: Option<String>,
        cwd: String,
        prompt: String,
    },
    Turn { session_id: String, generation: u64, prompt: String },
    Continue { session_id: String, generation: u64, prompt: String },
    Stop { session_id: String, generation: u64 },
}

/// A request for one execution. `target` is the execution that the daemon
/// client reads out of the intent.
#[derive(Debug, PartialEq, Eq)]
pub struct ExecutionRequest {
    pub request_id: String,
    pub scope: ExecutionScope,
    pub authority: ExecutionAuthority,
    pub expires_at: i64,
    pub intent: ExecutionIntent,
    pub target: ExecutionTarget,
}

#[derive(Clone, Copy, Debug, PartialEq, Eq, Structural)]
pub enum RequestState {
    Admitted,
    Establishing,
    Running,
    OutcomeKnown,
    Unresolved,
}

#[derive(Clone, Copy, Debug, PartialEq, Eq, Structural)]
pub enum DeliveryState {
    NotAttempted,
    Dispatched,
    Unknown,
}

/// What the daemon knows of a request at one instant.
#[derive(Debug, PartialEq, Eq)]
pub struct ExecutionOutcome {
    pub state: RequestState,
    pub delivery: DeliveryState,
    pub session_id: String,
    pub parent_session_id: Option<String>,
    pub generation: u64,
    pub session_status: Option<String>,
    pub exit_code: Option<i32>,
}

impl Clone for ExecutionOutcome {
    fn clone(&self) -> (r: Self)
        ensures
            r == *self,
    {
        ExecutionOutcome {
            state: self.state,
            delivery: self.delivery,
            session_id: self.session_id.clone(),
            parent_session_id: self.parent_session_id.clone(),
            generation: self.generation,
            session_status: self.session_status.clone(),
            exit_code: self.exit_code,
        }
    }
}

#[derive(Debug, PartialEq, Eq)]
pub struct HealthCapabilities {
    pub sessions: bool,
    pub events: bool,
    pub event_cursor: Option<String>,
    pub structured_errors: bool,
    pub execution_request_contracts: Vec<String>,
    pub execution_request_operations: Vec<String>,
    pub execution_source_contracts: Vec<String>,
}

/// A daemon's answer to a health request.
#[derive(Debug, PartialEq, Eq)]
pub struct Health {
    pub ok: bool,
    pub api_version: String,
    pub coven_version: String,
    pub capabilities: HealthCapabilities,
    pub execution_authority: Option<ExecutionAuthority>,
}

/// The terminal stream and attachment that a control request is fenced to.
#[derive(Debug, PartialEq, Eq)]
pub struct TerminalControlIdentity {
    pub session_id: String,
    pub stream_id: String,
    pub stream_generation: u64,
    pub execution_generation: u64,
    pub authority_epoch: u64,
    pub attachment_id: String,
}

impl Clone for TerminalControlIdentity {
    fn clone(&self) -> (r: Self)
        ensures
            r == *self,
    {
        TerminalControlIdentity {
            session_id: self.session_id.clone(),
            stream_id: self.stream_id.clone(),
            stream_generation: self.stream_generation,
            execution_generation: self.execution_generation,
            authority_epoch: self.authority_epoch,
            attachment_id: self.attachment_id.clone(),
        }
    }
}

/// A mutation that a user asked for, before a lease and a sequence number are
/// assigned to it.
#[derive(Debug, PartialEq, Eq)]
pub enum TerminalMutation {
    Input { bytes: Vec<u8> },
    Resize { rows: u16, cols: u16, pixel_width: u16, pixel_height: u16 },
}

/// One terminal control request to the daemon.
#[derive(Debug, PartialEq, Eq)]
pub enum TerminalControlAction {
    Acquire { duration_ms: u64 },
    Renew { lease_generation: u64, duration_ms: u64 },
    Takeover { duration_ms: u64 },
    Input { lease_generation: u64, mutation_seq: u64, bytes: Vec<u8> },
    Resize {
        lease_generation: u64,
        mutation_seq: u64,
        rows: u16,
        cols: u16,
        pixel_width: u16,
        pixel_height: u16,
    },
    Poll { mutation_seq: u64 },
}

/// How far a mutation has come. `Settled` stands for every final status that
/// is neither a rejection nor a stop.
#[derive(Clone, Copy, Debug, PartialEq, Eq, Structural)]
pub enum TerminalMutationStatus {
    Pending,
    Rejected,
    Stopped,
    Settled,
}

#[derive(Clone, Copy, Debug, PartialEq, Eq, Structural)]
pub enum TerminalControlOutcome {
    Acquired { lease_generation: u64, next_mutation_seq: u64 },
    Renewed { lease_generation: u64, next_mutation_seq: u64 },
    TakenOver { lease_generation: u64, next_mutation_seq: u64 },
    Mutation { mutation_seq: u64, status: TerminalMutationStatus },
    Polled { mutation_seq: u64, status: TerminalMutationStatus },
    Other,
}

/// The failures that the daemon client tells apart.
#[derive(Clone, Copy, Debug, PartialEq, Eq, Structural)]
pub enum ClientError {
    InvalidTranscriptRequest,
    InvalidTranscriptResponse,
    InvalidCatalogRequest,
    InvalidCatalogResponse,
    InvalidExecutionRequest,
    InvalidExecutionResponse,
    InvalidSourceResponse,
    Discovery,
    Io,
    ResponseTooLarge,
    RequestTooLarge,
    InvalidHttpResponse,
    InvalidUtf8,
    InvalidJson,
    ProtocolVersion,
    StructuredErrorsUnavailable,
    CapabilityUnavailable,
    HealthNotReady,
    DaemonInstanceChanged,
    Daemon,
    HttpStatus,
    InvalidRouteParameter,
    LegacyShutdownUpgradeRequired,
    UnsupportedPlatform,
}

/// The failures of a terminal control exchange.
#[derive(Clone, Copy, Debug, PartialEq, Eq, Structural)]
pub enum TerminalControlClientError {
    Transport(ClientError),
    InvalidRequest,
    InvalidResponse,
    Json,
    RequestTooLarge,
    ResponseTooLarge,
}

/// Scopes, authorities, ledgers and positions are the same where all that names them is.
pub proof fn names_are_told_apart(
    scope: ExecutionScope,
    other_scope: ExecutionScope,
    authority: ExecutionAuthority,
    other_authority: ExecutionAuthority,
    source: SourceIdentity,
    other_source: SourceIdentity,
    cursor: SourceCursor,
    other_cursor: SourceCursor,
)
    ensures
        scope.same_as(other_scope) <==> scope.project_id@ == other_scope.project_id@
            && scope.profile_id@ == other_scope.profile_id@ && scope.policy_generation
            == other_scope.policy_generation,
        authority.same_as(other_authority) <==> authority.id@ == other_authority.id@
            && authority.generation == other_authority.generation,
        source.same_as(other_source) <==> source.host_id@ == other_source.host_id@
            && source.profile_id@ == other_source.profile_id@ && source.ledger_id@
            == other_source.ledger_id@ && source.epoch == other_source.epoch,
        cursor.same_as(other_cursor) <==> cursor.ledger_id@ == other_cursor.ledger_id@
            && cursor.epoch == other_cursor.epoch && cursor.after_seq == other_cursor.after_seq
            && cursor.revision == other_cursor.revision,
{
}

/// Targets are the same where they name the same kind of execution, session and generation.
pub proof fn targets_are_told_apart(a: ExecutionTarget, b: ExecutionTarget)
    ensures
        a == b ==> a.same_as(b),
        a.same_as(b) ==> b.same_as(a),
        a is Launch ==> (a.same_as(b) <==> b is Launch),
        a is Existing ==> (a.same_as(b) <==> b is Existing && a->session_id@ == b->session_id@
            && a->generation == b->generation),
        a is Continuation ==> (a.same_as(b) <==> b is Continuation && a->previous_session_id@
            == b->previous_session_id@ && a->previous_generation == b->previous_generation),
{
}

/// The chunks of a reply are those of its snapshot or its page.
pub proof fn replies_hold_their_chunks(reply: TranscriptReply)
    ensures
        reply.result matches TranscriptResult::Snapshot { chunks, .. } ==> reply.chunks() == chunks@,
        reply.result matches TranscriptResult::Page { chunks, .. } ==> reply.chunks() == chunks@,
        reply.result is Reset ==> reply.chunks().len() == 0,
{
}

} // verus!
