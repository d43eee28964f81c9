//! The provider part of the API: what callers send and what they are told.
use vstd::prelude::*;

verus! {

/// Selects one owner-configured provider instance.
#[derive(Clone, Debug, PartialEq, Eq)]
pub struct RuntimeProviderTarget {
    pub provider_id: String,
}

/// Requests an owner-configured provider execution to be attached to a terminal. The
/// provider id selects trusted owner-local configuration; the request carries no daemon
/// path, executable, environment or credential.
#[derive(Clone, Debug, PartialEq, Eq)]
pub struct RuntimeProviderAttachParams {
    pub provider_id: String,
    pub session_id: String,
    pub generation: u64,
    pub workspace_id: Option<String>,
    pub focus: bool,
    pub label: Option<String>,
}

/// Selects a provider attachment by its durable terminal id.
#[derive(Clone, Debug, PartialEq, Eq)]
pub struct RuntimeProviderAttachmentTarget {
    pub terminal_id: String,
}

/// A permission-bearing execution request. Scope and authority are selected from
/// owner-local configuration; callers provide only the typed intent.
#[derive(Clone, Debug, PartialEq, Eq)]
pub struct RuntimeProviderExecuteParams {
    pub provider_id: String,
    pub request_id: String,
    pub expires_at: i64,
    pub intent: RuntimeProviderExecutionIntent,
}

#[derive(Clone, Debug, PartialEq, Eq)]
pub enum RuntimeProviderExecutionIntent {
    Launch {
        harness: RuntimeProviderHarness,
        mode: RuntimeProviderMode,
        model: Option<String>,
        cwd: String,
        prompt: String,
    },
    Turn { terminal_id: String, prompt: String },
    Continue { terminal_id: String, prompt: String },
    Stop { terminal_id: String },
}

#[derive(Clone, Copy, Debug, PartialEq, Eq, Structural)]
pub enum RuntimeProviderHarness {
    Codex,
    Claude,
    Copilot,
}

#[derive(Clone, Copy, Debug, PartialEq, Eq, Structural)]
pub enum RuntimeProviderMode {
    Transcript,
    Terminal,
}

/// Reconcile a request after an uncertain response or a restart. The expected digest and
/// target are required, so that an old request cannot be mistaken for a different
/// execution with the same request id.
#[derive(Clone, Debug, PartialEq, Eq)]
pub struct RuntimeProviderOperationGetParams {
    pub provider_id: String,
    pub request_id: String,
    pub payload_digest: String,
    pub expected_target: RuntimeProviderExecutionTarget,
}

#[derive(Clone, Debug, PartialEq, Eq)]
pub enum RuntimeProviderExecutionTarget {
    Launch,
    Existing { session_id: String, generation: u64 },
    Continuation { previous_session_id: String, previous_generation: u64 },
}

/// Prompt-free operation status. `status` is local observation state; the optional outcome
/// fields keep the daemon's own result.
#[derive(Clone, Debug, PartialEq, Eq)]
pub struct RuntimeProviderOperationInfo {
    pub provider_id: String,
    pub request_id: String,
    pub ticket: u64,
    pub payload_digest: String,
    pub target: String,
    pub status: String,
    pub state: Option<String>,
    pub delivery: Option<String>,
    pub session_id: Option<String>,
    pub parent_session_id: Option<String>,
    pub generation: Option<u64>,
    pub session_status: Option<String>,
    pub exit_code: Option<i32>,
    pub terminal_id: Option<String>,
    pub diagnostic: Option<String>,
}

/// One configured owner-local provider and the capabilities it exposes.
#[derive(Clone, Debug, PartialEq, Eq)]
pub struct RuntimeProviderInfo {
    pub provider_id: String,
    pub host_id: String,
    pub project_id: String,
    pub profile_id: String,
    pub policy_generation: u64,
    pub authority_id: String,
    pub authority_generation: u64,
    pub enabled: bool,
    pub capabilities: Vec<String>,
}

/// A provider-backed terminal attachment. Lifecycle, activity, connection and durability
/// are independent of each other, and are texts here so that a later server can add values.
#[derive(Clone, Debug, PartialEq, Eq)]
pub struct ProviderAttachmentInfo {
    pub terminal_id: String,
    pub provider_id: String,
    pub host_id: String,
    pub project_id: String,
    pub profile_id: String,
    pub session_id: String,
    pub generation: u64,
    pub attached: bool,
    pub lifecycle: String,
    pub activity: String,
    pub connection: String,
    pub durability: String,
    pub diagnostic: Option<String>,
    /// Age of the last validated observation in this process.
    pub observation_age_ms: Option<u64>,
    pub observation_source: Option<String>,
    pub source_ledger_id: Option<String>,
    pub source_epoch: Option<u64>,
}

/// An answer that refuses a request.
#[derive(Clone, Copy, Debug, PartialEq, Eq)]
pub struct ApiError {
    pub code: &'static str,
    pub message: &'static str,
}

impl ApiError {
    pub open spec fn is(self, code: Seq<char>, message: Seq<char>) -> bool {
        self.code@ == code && self.message@ == message
    }

    pub fn new(code: &'static str, message: &'static str) -> (r: Self)
        ensures
            r.is(code@, message@),
    {
        ApiError { code, message }
    }
}

/// An error is one of a code and a message where it holds both.
pub proof fn errors_hold_code_and_message(error: ApiError, code: Seq<char>, message: Seq<char>)
    ensures
        error.is(error.code@, error.message@),
        error.is(code, message) ==> error.code@ == code && error.message@ == message,
{
}

} // verus!
