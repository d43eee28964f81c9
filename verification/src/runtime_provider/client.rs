//! The provider worker's side of the daemon contract: which requests are sent, and
//! what is made of each answer.
//!
//! The worker performs one request at a time. It asks this module what to send and
//! hands back what came of it; nothing here reads a socket or a clock.
use std::sync::Arc;
use vstd::prelude::*;

use super::{
    ContractLimits, ProviderBinding, ProviderCommand, ProviderFailure, ProviderFailureKind,
    ProviderHealth, ProviderIdentity,
};
use crate::coven::{
    ClientError, ExecutionOutcome, ExecutionRequest, ExecutionTarget, Health, SourceCursor,
    SourceIdentity, SourceRead, SourceReply, TerminalControlAction, TerminalControlClientError,
    TerminalControlIdentity, TerminalControlOutcome, TerminalMutation, TerminalMutationStatus,
    TranscriptRead, TranscriptReply,
};
use crate::text::same;

verus! {

/// How long a control lease is asked for. The daemon's owner controller caps leases at
/// thirty seconds.
pub const CONTROL_LEASE_DURATION_MS: u64 = 30_000;

/// A lease is renewed once half of its time has passed.
pub const CONTROL_LEASE_RENEW_AFTER_MS: u64 = 15_000;

/// How often a mutation that is still pending is asked after.
pub const MUTATION_POLLS: u32 = 50;

pub open spec fn client_failure_kind(error: ClientError) -> ProviderFailureKind {
    match error {
        ClientError::CapabilityUnavailable | ClientError::UnsupportedPlatform =>
            ProviderFailureKind::Unsupported,
        ClientError::DaemonInstanceChanged => ProviderFailureKind::IdentityMismatch,
        ClientError::Discovery
        | ClientError::Io
        | ClientError::HealthNotReady
        | ClientError::ProtocolVersion => ProviderFailureKind::Disconnected,
        ClientError::Daemon | ClientError::HttpStatus => ProviderFailureKind::Failed,
        _ => ProviderFailureKind::Rejected,
    }
}

/// The text for each failure of the daemon client. It is fixed, so that owner-local
/// paths, transport errors and daemon messages are never forwarded.
pub open spec fn client_error_text(error: ClientError) -> Seq<char> {
    match error {
        ClientError::InvalidTranscriptRequest => "Coven transcript request was invalid"@,
        ClientError::InvalidTranscriptResponse =>
            "Coven daemon returned an invalid transcript response"@,
        ClientError::InvalidCatalogRequest => "Coven catalog request was invalid"@,
        ClientError::InvalidCatalogResponse =>
            "Coven daemon returned an invalid catalog response"@,
        ClientError::InvalidExecutionRequest => "Coven execution request was invalid"@,
        ClientError::InvalidExecutionResponse =>
            "Coven daemon returned an invalid execution response"@,
        ClientError::InvalidSourceResponse => "Coven daemon returned an invalid source response"@,
        ClientError::Discovery => "Coven daemon discovery failed"@,
        ClientError::Io => "Coven daemon transport failed"@,
        ClientError::ResponseTooLarge => "Coven daemon response was too large"@,
        ClientError::RequestTooLarge => "Coven daemon request was too large"@,
        ClientError::InvalidHttpResponse => "Coven daemon returned an invalid HTTP response"@,
        ClientError::InvalidUtf8 => "Coven daemon returned invalid UTF-8"@,
        ClientError::InvalidJson => "Coven daemon returned invalid JSON"@,
        ClientError::ProtocolVersion => "Coven daemon protocol version is incompatible"@,
        ClientError::StructuredErrorsUnavailable =>
            "Coven daemon does not support structured errors"@,
        ClientError::CapabilityUnavailable =>
            "Coven daemon does not advertise the required capability"@,
        ClientError::HealthNotReady => "Coven daemon is not ready"@,
        ClientError::DaemonInstanceChanged => "Coven daemon identity changed"@,
        ClientError::Daemon => "Coven daemon rejected the request"@,
        ClientError::HttpStatus => "Coven daemon returned an HTTP error"@,
        ClientError::InvalidRouteParameter => "Coven daemon route parameter was invalid"@,
        ClientError::LegacyShutdownUpgradeRequired =>
            "Coven daemon requires an upgrade for this operation"@,
        ClientError::UnsupportedPlatform => "Coven provider is unsupported on this platform"@,
    }
}

fn safe_client_error_message(error: ClientError) -> (r: &'static str)
    ensures
        r@ == client_error_text(error),
{
    match error {
        ClientError::InvalidTranscriptRequest => "Coven transcript request was invalid",
        ClientError::InvalidTranscriptResponse => {
            "Coven daemon returned an invalid transcript response"
        },
        ClientError::InvalidCatalogRequest => "Coven catalog request was invalid",
        ClientError::InvalidCatalogResponse => "Coven daemon returned an invalid catalog response",
        ClientError::InvalidExecutionRequest => "Coven execution request was invalid",
        ClientError::InvalidExecutionResponse => {
            "Coven daemon returned an invalid execution response"
        },
        ClientError::InvalidSourceResponse => "Coven daemon returned an invalid source response",
        ClientError::Discovery => "Coven daemon discovery failed",
        ClientError::Io => "Coven daemon transport failed",
        ClientError::ResponseTooLarge => "Coven daemon response was too large",
        ClientError::RequestTooLarge => "Coven daemon request was too large",
        ClientError::InvalidHttpResponse => "Coven daemon returned an invalid HTTP response",
        ClientError::InvalidUtf8 => "Coven daemon returned invalid UTF-8",
        ClientError::InvalidJson => "Coven daemon returned invalid JSON",
        ClientError::ProtocolVersion => "Coven daemon protocol version is incompatible",
        ClientError::StructuredErrorsUnavailable => {
            "Coven daemon does not support structured errors"
        },
        ClientError::CapabilityUnavailable => {
            "Coven daemon does not advertise the required capability"
        },
        ClientError::HealthNotReady => "Coven daemon is not ready",
        ClientError::DaemonInstanceChanged => "Coven daemon identity changed",
        ClientError::Daemon => "Coven daemon rejected the request",
        ClientError::HttpStatus => "Coven daemon returned an HTTP error",
        ClientError::InvalidRouteParameter => "Coven daemon route parameter was invalid",
        ClientError::LegacyShutdownUpgradeRequired => {
            "Coven daemon requires an upgrade for this operation"
        },
        ClientError::UnsupportedPlatform => "Coven provider is unsupported on this platform",
    }
}

/// The failure that stands for an error of the daemon client.
pub fn map_client_error(error: ClientError) -> (r: ProviderFailure)
    ensures
        r.says(client_failure_kind(error), client_error_text(error)),
{
    let kind = match error {
        ClientError::CapabilityUnavailable | ClientError::UnsupportedPlatform => {
            ProviderFailureKind::Unsupported
        },
        ClientError::DaemonInstanceChanged => ProviderFailureKind::IdentityMismatch,
        ClientError::Discovery
        | ClientError::Io
        | ClientError::HealthNotReady
        | ClientError::ProtocolVersion => ProviderFailureKind::Disconnected,
        ClientError::Daemon | ClientError::HttpStatus => ProviderFailureKind::Failed,
        _ => ProviderFailureKind::Rejected,
    };
    ProviderFailure::new(kind, safe_client_error_message(error))
}

/// What stands for an error of a terminal control exchange.
pub open spec fn control_failure(failure: ProviderFailure, error: TerminalControlClientError) -> bool {
    match error {
        TerminalControlClientError::Transport(error) => failure.says(
            client_failure_kind(error),
            client_error_text(error),
        ),
        _ => failure.says(
            ProviderFailureKind::Rejected,
            "Coven terminal control response or request was invalid"@,
        ),
    }
}

pub open spec fn control_failure_kind(error: TerminalControlClientError) -> ProviderFailureKind {
    match error {
        TerminalControlClientError::Transport(error) => client_failure_kind(error),
        _ => ProviderFailureKind::Rejected,
    }
}

fn map_terminal_control_error(error: TerminalControlClientError) -> (r: ProviderFailure)
    ensures
        control_failure(r, error),
        r.kind == control_failure_kind(error),
{
    match error {
        TerminalControlClientError::Transport(error) => map_client_error(error),
        _ => ProviderFailure::new(
            ProviderFailureKind::Rejected,
            "Coven terminal control response or request was invalid",
        ),
    }
}

/// A failure after which nothing negotiated with the daemon is trusted any more.
pub open spec fn severs(kind: ProviderFailureKind) -> bool {
    kind == ProviderFailureKind::Disconnected || kind == ProviderFailureKind::IdentityMismatch
}

/// A terminal control lease, with the sequence number of the next mutation and the
/// moment, in milliseconds, at which it was last granted.
#[derive(Clone, Copy, Debug, PartialEq, Eq, Structural)]
pub struct ControlLease {
    pub generation: u64,
    pub next_mutation_seq: u64,
    pub last_renewed: u64,
}

/// What a provider worker has negotiated with its daemon. `connected` and
/// `checkpoint_attached` say whether a daemon client and a checkpoint reader are open.
pub struct CovenProviderClient {
    pub identity: ProviderIdentity,
    pub connected: bool,
    pub checkpoint_attached: bool,
    pub control_identity: Option<TerminalControlIdentity>,
    pub control_lease: Option<ControlLease>,
}

impl CovenProviderClient {
    pub fn new(identity: ProviderIdentity) -> (r: Self)
        ensures
            r.identity == identity,
            r.is_reset(),
    {
        CovenProviderClient {
            identity,
            connected: false,
            checkpoint_attached: false,
            control_identity: None,
            control_lease: None,
        }
    }

    /// Nothing is negotiated.
    pub open spec fn is_reset(self) -> bool {
        &&& !self.connected
        &&& !self.checkpoint_attached
        &&& self.control_identity is None
        &&& self.control_lease is None
    }

    /// `after` is this client with nothing negotiated.
    pub open spec fn resets(self, after: Self) -> bool {
        after.identity == self.identity && after.is_reset()
    }

    /// `after` is this client after a failure of the given kind.
    pub open spec fn fails(self, kind: ProviderFailureKind, after: Self) -> bool {
        if severs(kind) {
            self.resets(after)
        } else {
            after == self
        }
    }

    pub fn reset(&mut self)
        ensures
            old(self).resets(*final(self)),
    {
        self.connected = false;
        self.checkpoint_attached = false;
        self.control_identity = None;
        self.control_lease = None;
    }

    pub fn reset_if_disconnected(&mut self, failure: &ProviderFailure)
        ensures
            old(self).fails(failure.kind, *final(self)),
    {
        match failure.kind {
            ProviderFailureKind::Disconnected | ProviderFailureKind::IdentityMismatch => {
                self.reset();
            },
            _ => {},
        }
    }

    pub open spec fn trusts(self, authority: Option<crate::coven::ExecutionAuthority>) -> bool {
        authority matches Some(authority) && authority.same_as(self.identity.authority)
    }

    /// Judge a health answer: it has to fit the projection bounds and to come from the
    /// trusted authority.
    pub fn accept_health(&mut self, reply: Result<Health, ClientError>) -> (r: Result<
        ProviderHealth,
        ProviderFailure,
    >)
        ensures
            r is Ok <==> (reply matches Ok(health) && super::projectable(health)
                && old(self).trusts(health.execution_authority)),
            reply matches Err(error) ==> r matches Err(failure) && failure.says(
                client_failure_kind(error),
                client_error_text(error),
            ) && old(self).fails(client_failure_kind(error), *final(self)),
            reply matches Ok(health) ==> if !super::projectable(health) {
                &&& r matches Err(failure)
                &&& failure.says(
                    ProviderFailureKind::Rejected,
                    "Coven daemon health projection exceeded its bound"@,
                )
                &&& old(self).resets(*final(self))
            } else if !old(self).trusts(health.execution_authority) {
                &&& r matches Err(failure)
                &&& failure.says(
                    ProviderFailureKind::IdentityMismatch,
                    "Coven daemon execution authority does not match the trusted provider binding"@,
                )
                &&& *final(self) == (CovenProviderClient { connected: false, ..*old(self) })
            } else {
                &&& r == Ok::<ProviderHealth, ProviderFailure>(super::kept_health(health))
                &&& *final(self) == (CovenProviderClient { connected: true, ..*old(self) })
            },
    {
        match reply {
            Err(error) => {
                let failure = map_client_error(error);
                self.reset_if_disconnected(&failure);
                Err(failure)
            },
            Ok(health) => {
                let projected = match ProviderHealth::try_from(health) {
                    Ok(projected) => projected,
                    Err(_) => {
                        // An open client keeps the negotiated capability lists. It is
                        // dropped, so that oversized fields are not kept alive.
                        self.reset();
                        return Err(
                            ProviderFailure::new(
                                ProviderFailureKind::Rejected,
                                "Coven daemon health projection exceeded its bound",
                            ),
                        );
                    },
                };
                let trusted: bool = match &projected.authority {
                    Some(authority) => authority.equals(&self.identity.authority),
                    None => false,
                };
                if !trusted {
                    self.connected = false;
                    return Err(
                        ProviderFailure::new(
                            ProviderFailureKind::IdentityMismatch,
                            "Coven daemon execution authority does not match the trusted provider binding",
                        ),
                    );
                }
                self.connected = true;
                Ok(projected)
            },
        }
    }

    /// A binding of this provider under the given generation.
    pub open spec fn holds(self, binding: ProviderBinding, runtime_generation: u64) -> bool {
        binding.names(self.identity) && binding.runtime_generation == runtime_generation
    }

    pub fn validate_binding(&self, binding: &ProviderBinding, runtime_generation: u64) -> (r: Result<
        (),
        ProviderFailure,
    >)
        ensures
            r is Ok <==> self.holds(*binding, runtime_generation),
            r matches Err(failure) ==> failure.says(
                ProviderFailureKind::IdentityMismatch,
                "Coven provider binding identity or runtime generation did not match"@,
            ),
    {
        if !binding.matches_identity(&self.identity) || binding.runtime_generation
            != runtime_generation {
            return Err(
                ProviderFailure::new(
                    ProviderFailureKind::IdentityMismatch,
                    "Coven provider binding identity or runtime generation did not match",
                ),
            );
        }
        Ok(())
    }

    /// Check a source read before anything is sent. `max_events` is the largest read
    /// that the daemon contract allows.
    fn validate_source_read(
        &self,
        binding: &ProviderBinding,
        limit: u16,
        max_events: u16,
        runtime_generation: u64,
    ) -> (r: Result<(), ProviderFailure>)
        ensures
            r is Ok <==> self.holds(*binding, runtime_generation) && 0 < limit <= max_events,
            r matches Err(failure) ==> if self.holds(*binding, runtime_generation) {
                failure.says(
                    ProviderFailureKind::Rejected,
                    "source read limit is outside the Coven client bound"@,
                )
            } else {
                failure.says(
                    ProviderFailureKind::IdentityMismatch,
                    "Coven provider binding identity or runtime generation did not match"@,
                )
            },
    {
        if let Err(failure) = self.validate_binding(binding, runtime_generation) {
            return Err(failure);
        }
        if limit == 0 || limit > max_events {
            return Err(
                ProviderFailure::new(
                    ProviderFailureKind::Rejected,
                    "source read limit is outside the Coven client bound",
                ),
            );
        }
        Ok(())
    }

    /// Check a transcript read before anything is sent.
    fn validate_transcript_read(
        &self,
        binding: &ProviderBinding,
        limit: u16,
        max_chunks: u16,
        runtime_generation: u64,
    ) -> (r: Result<(), ProviderFailure>)
        ensures
            r is Ok <==> self.holds(*binding, runtime_generation) && 0 < limit <= max_chunks,
            r matches Err(failure) ==> if self.holds(*binding, runtime_generation) {
                failure.says(
                    ProviderFailureKind::Rejected,
                    "transcript read limit is outside the Coven client bound"@,
                )
            } else {
                failure.says(
                    ProviderFailureKind::IdentityMismatch,
                    "Coven provider binding identity or runtime generation did not match"@,
                )
            },
    {
        if let Err(failure) = self.validate_binding(binding, runtime_generation) {
            return Err(failure);
        }
        if limit == 0 || limit > max_chunks {
            return Err(
                ProviderFailure::new(
                    ProviderFailureKind::Rejected,
                    "transcript read limit is outside the Coven client bound",
                ),
            );
        }
        Ok(())
    }

    /// The request of a source read, once it passed the checks that need no daemon. The
    /// daemon's health is checked before it is sent, and the client checks it once more
    /// against the contract.
    pub fn read_source(
        &self,
        binding: &ProviderBinding,
        cursor: Option<SourceCursor>,
        limit: u16,
        max_events: u16,
        runtime_generation: u64,
    ) -> (r: Result<SourceRead, ProviderFailure>)
        ensures
            r is Ok <==> self.holds(*binding, runtime_generation) && 0 < limit <= max_events,
            r matches Ok(request) ==> request.host_id == binding.host_id && request.scope
                == binding.scope && request.session_id == binding.session_id
                && request.generation == binding.generation && request.cursor == cursor
                && request.limit == limit,
            r matches Err(failure) ==> if self.holds(*binding, runtime_generation) {
                failure.says(
                    ProviderFailureKind::Rejected,
                    "source read limit is outside the Coven client bound"@,
                )
            } else {
                failure.says(
                    ProviderFailureKind::IdentityMismatch,
                    "Coven provider binding identity or runtime generation did not match"@,
                )
            },
    {
        if let Err(failure) = self.validate_source_read(
            binding,
            limit,
            max_events,
            runtime_generation,
        ) {
            return Err(failure);
        }
        Ok(
            SourceRead {
                host_id: binding.host_id.clone(),
                scope: binding.scope.clone(),
                session_id: binding.session_id.clone(),
                generation: binding.generation,
                cursor,
                limit,
            },
        )
    }

    /// The request of a transcript read, once it passed the checks that need no daemon. The
    /// daemon's health is checked before it is sent, and the client checks it once more
    /// against the contract.
    pub fn read_transcript(
        &self,
        binding: &ProviderBinding,
        cursor: Option<SourceCursor>,
        limit: u16,
        max_chunks: u16,
        runtime_generation: u64,
    ) -> (r: Result<TranscriptRead, ProviderFailure>)
        ensures
            r is Ok <==> self.holds(*binding, runtime_generation) && 0 < limit <= max_chunks,
            r matches Ok(request) ==> request.host_id == binding.host_id && request.scope
                == binding.scope && request.authority == binding.authority && request.session_id == binding.session_id
                && request.generation == binding.generation && request.cursor == cursor
                && request.limit == limit,
            r matches Err(failure) ==> if self.holds(*binding, runtime_generation) {
                failure.says(
                    ProviderFailureKind::Rejected,
                    "transcript read limit is outside the Coven client bound"@,
                )
            } else {
                failure.says(
                    ProviderFailureKind::IdentityMismatch,
                    "Coven provider binding identity or runtime generation did not match"@,
                )
            },
    {
        if let Err(failure) = self.validate_transcript_read(
            binding,
            limit,
            max_chunks,
            runtime_generation,
        ) {
            return Err(failure);
        }
        Ok(
            TranscriptRead {
                host_id: binding.host_id.clone(),
                scope: binding.scope.clone(),
                authority: binding.authority.clone(),
                session_id: binding.session_id.clone(),
                generation: binding.generation,
                cursor,
                limit,
            },
        )
    }

    /// A reply from another ledger than the one that a binding is pinned to.
    pub open spec fn changed_source(binding: ProviderBinding, source: SourceIdentity) -> bool {
        binding.pinned_source matches Some(expected) && !expected.same_as(source)
    }

    fn source_changed(binding: &ProviderBinding, source: &SourceIdentity) -> (r: bool)
        ensures
            r == CovenProviderClient::changed_source(*binding, *source),
    {
        match &binding.pinned_source {
            Some(expected) => !expected.equals(source),
            None => false,
        }
    }

    /// Judge the answer to a source read.
    pub fn accept_source(
        &mut self,
        binding: &ProviderBinding,
        reply: Result<Arc<SourceReply>, ClientError>,
    ) -> (r: Result<Arc<SourceReply>, ProviderFailure>)
        ensures
            reply matches Err(error) ==> r matches Err(failure) && failure.says(
                client_failure_kind(error),
                client_error_text(error),
            ) && old(self).fails(client_failure_kind(error), *final(self)),
            reply matches Ok(answer) ==> if CovenProviderClient::changed_source(
                *binding,
                answer.source,
            ) {
                &&& r matches Err(failure)
                &&& failure.says(
                    ProviderFailureKind::IdentityMismatch,
                    "Coven source identity changed for the bound execution"@,
                )
                &&& old(self).resets(*final(self))
            } else {
                r == Ok::<Arc<SourceReply>, ProviderFailure>(answer) && *final(self) == *old(self)
            },
    {
        match reply {
            Ok(answer) => {
                if CovenProviderClient::source_changed(binding, &answer.source) {
                    self.reset();
                    return Err(
                        ProviderFailure::new(
                            ProviderFailureKind::IdentityMismatch,
                            "Coven source identity changed for the bound execution",
                        ),
                    );
                }
                Ok(answer)
            },
            Err(error) => {
                let failure = map_client_error(error);
                self.reset_if_disconnected(&failure);
                Err(failure)
            },
        }
    }

    /// Judge the answer to a transcript read.
    pub fn accept_transcript(
        &mut self,
        binding: &ProviderBinding,
        reply: Result<Arc<TranscriptReply>, ClientError>,
    ) -> (r: Result<Arc<TranscriptReply>, ProviderFailure>)
        ensures
            reply matches Err(error) ==> r matches Err(failure) && failure.says(
                client_failure_kind(error),
                client_error_text(error),
            ) && old(self).fails(client_failure_kind(error), *final(self)),
            reply matches Ok(answer) ==> if CovenProviderClient::changed_source(
                *binding,
                answer.source,
            ) {
                &&& r matches Err(failure)
                &&& failure.says(
                    ProviderFailureKind::IdentityMismatch,
                    "Coven source identity changed for the bound execution"@,
                )
                &&& old(self).resets(*final(self))
            } else {
                r == Ok::<Arc<TranscriptReply>, ProviderFailure>(answer) && *final(self) == *old(self)
            },
    {
        match reply {
            Ok(answer) => {
                if CovenProviderClient::source_changed(binding, &answer.source) {
                    self.reset();
                    return Err(
                        ProviderFailure::new(
                            ProviderFailureKind::IdentityMismatch,
                            "Coven source identity changed for the bound execution",
                        ),
                    );
                }
                Ok(answer)
            },
            Err(error) => {
                let failure = map_client_error(error);
                self.reset_if_disconnected(&failure);
                Err(failure)
            },
        }
    }

    /// Judge the answer to an execution request or to a lookup of one.
    pub fn accept_outcome(&mut self, reply: Result<ExecutionOutcome, ClientError>) -> (r: Result<
        ExecutionOutcome,
        ProviderFailure,
    >)
        ensures
            reply matches Ok(outcome) ==> r == Ok::<ExecutionOutcome, ProviderFailure>(outcome)
                && *final(self) == *old(self),
            reply matches Err(error) ==> r matches Err(failure) && failure.says(
                client_failure_kind(error),
                client_error_text(error),
            ) && old(self).fails(client_failure_kind(error), *final(self)),
    {
        match reply {
            Ok(outcome) => Ok(outcome),
            Err(error) => {
                let failure = map_client_error(error);
                self.reset_if_disconnected(&failure);
                Err(failure)
            },
        }
    }

    /// Keep what a checkpoint attachment negotiated. A lease of an earlier attachment
    /// is not carried over.
    pub fn attach_checkpoint(&mut self, control_identity: TerminalControlIdentity)
        ensures
            *final(self) == (CovenProviderClient {
                checkpoint_attached: true,
                control_identity: Some(control_identity),
                control_lease: None,
                ..*old(self)
            }),
    {
        self.checkpoint_attached = true;
        self.control_identity = Some(control_identity);
        self.control_lease = None;
    }

    /// Check a checkpoint read before anything is read.
    pub fn validate_checkpoint_read(&self, binding: &ProviderBinding, runtime_generation: u64) -> (r:
        Result<(), ProviderFailure>)
        ensures
            r is Ok <==> self.holds(*binding, runtime_generation) && self.checkpoint_attached,
            r matches Err(failure) ==> if self.holds(*binding, runtime_generation) {
                failure.says(
                    ProviderFailureKind::Disconnected,
                    "Coven checkpoint stream is not attached"@,
                )
            } else {
                failure.says(
                    ProviderFailureKind::IdentityMismatch,
                    "Coven provider binding identity or runtime generation did not match"@,
                )
            },
    {
        if let Err(failure) = self.validate_binding(binding, runtime_generation) {
            return Err(failure);
        }
        if !self.checkpoint_attached {
            return Err(
                ProviderFailure::new(
                    ProviderFailureKind::Disconnected,
                    "Coven checkpoint stream is not attached",
                ),
            );
        }
        Ok(())
    }
}

/// A target that a binding stands for.
pub open spec fn bound_target(binding: ProviderBinding, target: ExecutionTarget) -> bool {
    match target {
        ExecutionTarget::Launch => false,
        ExecutionTarget::Existing { session_id, generation } => session_id@ == binding.session_id@
            && generation == binding.generation,
        ExecutionTarget::Continuation { previous_session_id, previous_generation } =>
            previous_session_id@ == binding.session_id@ && previous_generation
            == binding.generation,
    }
}

fn validate_target_binding(binding: &ProviderBinding, target: &ExecutionTarget) -> (r: Result<
    (),
    ProviderFailure,
>)
    ensures
        r is Ok <==> bound_target(*binding, *target),
        r matches Err(failure) ==> failure.says(
            ProviderFailureKind::IdentityMismatch,
            "Coven execution target did not match the bound session generation"@,
        ),
{
    let matches: bool = match target {
        ExecutionTarget::Launch => false,
        ExecutionTarget::Existing { session_id, generation } => same(
            session_id.as_str(),
            binding.session_id.as_str(),
        ) && *generation == binding.generation,
        ExecutionTarget::Continuation { previous_session_id, previous_generation } => same(
            previous_session_id.as_str(),
            binding.session_id.as_str(),
        ) && *previous_generation == binding.generation,
    };
    if matches {
        Ok(())
    } else {
        Err(
            ProviderFailure::new(
                ProviderFailureKind::IdentityMismatch,
                "Coven execution target did not match the bound session generation",
            ),
        )
    }
}

/// Why an execution or a lookup is refused, by the text that says so. A launch has no
/// binding; every other target has one, of this provider, of the current generation and
/// for exactly that session. `unbound` and `foreign` are the texts for the first two.
pub open spec fn target_refusal(
    identity: ProviderIdentity,
    binding: Option<ProviderBinding>,
    target: ExecutionTarget,
    runtime_generation: u64,
    unbound: Seq<char>,
    foreign: Seq<char>,
) -> Option<Seq<char>> {
    match binding {
        None => if target is Launch {
            None
        } else {
            Some(unbound)
        },
        Some(binding) => if binding.runtime_generation != runtime_generation || !binding.names(
            identity,
        ) {
            Some(foreign)
        } else if !bound_target(binding, target) {
            Some("Coven execution target did not match the bound session generation"@)
        } else {
            None
        },
    }
}

pub open spec fn execution_refusal(
    identity: ProviderIdentity,
    binding: Option<ProviderBinding>,
    request: ExecutionRequest,
    runtime_generation: u64,
) -> Option<Seq<char>> {
    if !request.scope.same_as(identity.scope) || !request.authority.same_as(identity.authority) {
        Some("Coven execution request scope or authority did not match the provider"@)
    } else {
        target_refusal(
            identity,
            binding,
            request.target,
            runtime_generation,
            "an existing Coven execution requires a bound provider session"@,
            "Coven execution binding identity or runtime generation did not match"@,
        )
    }
}

pub open spec fn lookup_refusal(
    identity: ProviderIdentity,
    binding: Option<ProviderBinding>,
    target: ExecutionTarget,
    runtime_generation: u64,
) -> Option<Seq<char>> {
    target_refusal(
        identity,
        binding,
        target,
        runtime_generation,
        "an existing Coven lookup requires a bound provider session"@,
        "Coven lookup binding identity or runtime generation did not match"@,
    )
}

fn validate_target(
    identity: &ProviderIdentity,
    binding: Option<&ProviderBinding>,
    target: &ExecutionTarget,
    runtime_generation: u64,
    unbound: &str,
    foreign: &str,
) -> (r: Result<(), ProviderFailure>)
    ensures
        ({
            let refusal = target_refusal(
                *identity,
                (match binding {
                    Some(binding) => Some(*binding),
                    None => None,
                }),
                *target,
                runtime_generation,
                unbound@,
                foreign@,
            );
            &&& r is Ok <==> refusal is None
            &&& r matches Err(failure) ==> refusal is Some && failure.says(
                ProviderFailureKind::IdentityMismatch,
                refusal->0,
            )
        }),
{
    match binding {
        None => match target {
            ExecutionTarget::Launch => Ok(()),
            _ => Err(ProviderFailure::new(ProviderFailureKind::IdentityMismatch, unbound)),
        },
        Some(binding) => {
            if binding.runtime_generation != runtime_generation || !binding.matches_identity(
                identity,
            ) {
                return Err(ProviderFailure::new(ProviderFailureKind::IdentityMismatch, foreign));
            }
            validate_target_binding(binding, target)
        },
    }
}

/// Check an execution request against the provider and the binding it comes with.
pub fn validate_execution_binding(
    identity: &ProviderIdentity,
    binding: Option<&ProviderBinding>,
    request: &ExecutionRequest,
    runtime_generation: u64,
) -> (r: Result<(), ProviderFailure>)
    ensures
        ({
            let refusal = execution_refusal(
                *identity,
                (match binding {
                    Some(binding) => Some(*binding),
                    None => None,
                }),
                *request,
                runtime_generation,
            );
            &&& r is Ok <==> refusal is None
            &&& r matches Err(failure) ==> refusal is Some && failure.says(
                ProviderFailureKind::IdentityMismatch,
                refusal->0,
            )
        }),
{
    if !request.scope.equals(&identity.scope) || !request.authority.equals(&identity.authority) {
        return Err(
            ProviderFailure::new(
                ProviderFailureKind::IdentityMismatch,
                "Coven execution request scope or authority did not match the provider",
            ),
        );
    }
    validate_target(
        identity,
        binding,
        &request.target,
        runtime_generation,
        "an existing Coven execution requires a bound provider session",
        "Coven execution binding identity or runtime generation did not match",
    )
}

/// Check a lookup against the provider and the binding it comes with.
pub fn validate_lookup_binding(
    identity: &ProviderIdentity,
    binding: Option<&ProviderBinding>,
    target: &ExecutionTarget,
    runtime_generation: u64,
) -> (r: Result<(), ProviderFailure>)
    ensures
        ({
            let refusal = lookup_refusal(
                *identity,
                (match binding {
                    Some(binding) => Some(*binding),
                    None => None,
                }),
                *target,
                runtime_generation,
            );
            &&& r is Ok <==> refusal is None
            &&& r matches Err(failure) ==> refusal is Some && failure.says(
                ProviderFailureKind::IdentityMismatch,
                refusal->0,
            )
        }),
{
    validate_target(
        identity,
        binding,
        target,
        runtime_generation,
        "an existing Coven lookup requires a bound provider session",
        "Coven lookup binding identity or runtime generation did not match",
    )
}

pub open spec fn not_negotiated(failure: ProviderFailure) -> bool {
    failure.says(
        ProviderFailureKind::Unsupported,
        "terminal control was not negotiated for this attachment"@,
    )
}

pub open spec fn unexpected(failure: ProviderFailure, text: Seq<char>) -> bool {
    failure.says(ProviderFailureKind::Rejected, text)
}

/// The lease, if there is one, that can be used at `now` without a renewal.
pub open spec fn fresh_lease(lease: Option<ControlLease>, now: u64) -> bool {
    lease matches Some(lease) && now - lease.last_renewed < CONTROL_LEASE_RENEW_AFTER_MS
}

/// The request that carries out a mutation under a lease.
pub open spec fn mutates(
    action: TerminalControlAction,
    mutation: TerminalMutation,
    lease: ControlLease,
) -> bool {
    match mutation {
        TerminalMutation::Input { bytes } => action == (TerminalControlAction::Input {
            lease_generation: lease.generation,
            mutation_seq: lease.next_mutation_seq,
            bytes,
        }),
        TerminalMutation::Resize { rows, cols, pixel_width, pixel_height } => action == (
        TerminalControlAction::Resize {
            lease_generation: lease.generation,
            mutation_seq: lease.next_mutation_seq,
            rows,
            cols,
            pixel_width,
            pixel_height,
        }),
    }
}

fn mutation_action(mutation: TerminalMutation, lease: ControlLease) -> (r: TerminalControlAction)
    ensures
        mutates(r, mutation, lease),
{
    match mutation {
        TerminalMutation::Input { bytes } => TerminalControlAction::Input {
            lease_generation: lease.generation,
            mutation_seq: lease.next_mutation_seq,
            bytes,
        },
        TerminalMutation::Resize { rows, cols, pixel_width, pixel_height } => {
            TerminalControlAction::Resize {
                lease_generation: lease.generation,
                mutation_seq: lease.next_mutation_seq,
                rows,
                cols,
                pixel_width,
                pixel_height,
            }
        },
    }
}

/// How far an admitted mutation has come. The worker is the sole owner of leases and
/// sequence numbers, so that concurrent requests cannot race or reuse one.
pub enum MutationPhase {
    /// The daemon's health is being checked.
    Checking { mutation: TerminalMutation },
    /// A lease that is about to expire is being renewed.
    Renewing { mutation: TerminalMutation },
    /// A lease is being acquired.
    Acquiring { mutation: TerminalMutation },
    /// The mutation was sent under `lease`.
    Mutating { lease: ControlLease },
    /// The receipt of the mutation is being asked after.
    Polling { sequence: u64, polls_left: u32, receipt: TerminalControlOutcome },
}

/// A mutation under way, fenced to one terminal stream and attachment.
pub struct MutationRun {
    pub identity: TerminalControlIdentity,
    pub phase: MutationPhase,
}

/// What came of the last request of a run.
pub enum MutationEvent {
    Health(Result<(), ProviderFailure>),
    Control(Result<TerminalControlOutcome, TerminalControlClientError>),
}

/// What a run does next.
pub enum MutationStep {
    /// Send `action` for the run's identity and resume with what comes back.
    Send { run: MutationRun, action: TerminalControlAction },
    /// Wait a moment, then send `action` as above.
    Poll { run: MutationRun, action: TerminalControlAction },
    Done(Result<TerminalControlOutcome, ProviderFailure>),
}

impl MutationStep {
    /// The step sends a mutation under `lease`.
    pub open spec fn sends_mutation(
        self,
        identity: TerminalControlIdentity,
        mutation: TerminalMutation,
        lease: ControlLease,
    ) -> bool {
        &&& self matches MutationStep::Send { run, action }
        &&& run.identity == identity
        &&& run.phase == (MutationPhase::Mutating { lease })
        &&& mutates(action, mutation, lease)
    }

    /// The step asks for a new lease.
    pub open spec fn acquires(
        self,
        identity: TerminalControlIdentity,
        mutation: TerminalMutation,
    ) -> bool {
        &&& self matches MutationStep::Send { run, action }
        &&& run.identity == identity
        &&& run.phase == (MutationPhase::Acquiring { mutation })
        &&& action == (TerminalControlAction::Acquire { duration_ms: CONTROL_LEASE_DURATION_MS })
    }

    /// The step asks for a lease to be renewed.
    pub open spec fn renews(
        self,
        identity: TerminalControlIdentity,
        mutation: TerminalMutation,
        lease: ControlLease,
    ) -> bool {
        &&& self matches MutationStep::Send { run, action }
        &&& run.identity == identity
        &&& run.phase == (MutationPhase::Renewing { mutation })
        &&& action == (TerminalControlAction::Renew {
            lease_generation: lease.generation,
            duration_ms: CONTROL_LEASE_DURATION_MS,
        })
    }

    /// The step asks after the receipt of `sequence`.
    pub open spec fn polls(
        self,
        identity: TerminalControlIdentity,
        sequence: u64,
        polls_left: u32,
        receipt: TerminalControlOutcome,
    ) -> bool {
        &&& self matches MutationStep::Poll { run, action }
        &&& run.identity == identity
        &&& run.phase == (MutationPhase::Polling { sequence, polls_left, receipt })
        &&& action == (TerminalControlAction::Poll { mutation_seq: sequence })
    }

    pub open spec fn fails_with(self, error: TerminalControlClientError) -> bool {
        self matches MutationStep::Done(Err(failure)) && control_failure(failure, error)
    }

    pub open spec fn refuses(self, text: Seq<char>) -> bool {
        self matches MutationStep::Done(Err(failure)) && unexpected(failure, text)
    }
}

/// The lease after the daemon answered a mutation that was sent under `lease`.
pub open spec fn lease_after(
    lease: ControlLease,
    outcome: TerminalControlOutcome,
    known: Option<ControlLease>,
) -> Option<ControlLease> {
    match outcome {
        TerminalControlOutcome::Mutation { mutation_seq, status } => if status
            == TerminalMutationStatus::Stopped {
            None
        } else if mutation_seq == lease.next_mutation_seq && status
            != TerminalMutationStatus::Rejected {
            Some(
                ControlLease {
                    next_mutation_seq: super::actor::next_count(lease.next_mutation_seq),
                    ..lease
                },
            )
        } else {
            known
        },
        _ => known,
    }
}

pub open spec fn still_pending(outcome: TerminalControlOutcome) -> bool {
    outcome matches TerminalControlOutcome::Mutation { status, .. } && status
        == TerminalMutationStatus::Pending
}

impl CovenProviderClient {
    /// Begin a mutation that a user admitted. A lease is acquired only as a part of
    /// one.
    pub fn begin_mutation(
        &self,
        binding: &ProviderBinding,
        mutation: TerminalMutation,
        runtime_generation: u64,
    ) -> (r: Result<MutationRun, ProviderFailure>)
        ensures
            r is Ok <==> self.holds(*binding, runtime_generation) && self.control_identity is Some,
            r matches Ok(run) ==> Some(run.identity) == self.control_identity && run.phase == (
            MutationPhase::Checking { mutation }),
            r matches Err(failure) ==> if self.holds(*binding, runtime_generation) {
                not_negotiated(failure)
            } else {
                failure.says(
                    ProviderFailureKind::IdentityMismatch,
                    "Coven provider binding identity or runtime generation did not match"@,
                )
            },
    {
        if let Err(failure) = self.validate_binding(binding, runtime_generation) {
            return Err(failure);
        }
        match &self.control_identity {
            Some(identity) => Ok(
                MutationRun {
                    identity: identity.clone(),
                    phase: MutationPhase::Checking { mutation },
                },
            ),
            None => Err(
                ProviderFailure::new(
                    ProviderFailureKind::Unsupported,
                    "terminal control was not negotiated for this attachment",
                ),
            ),
        }
    }

    /// Get a usable control lease: a fresh one is used as it is, one that is about to
    /// expire is renewed, and where there is none one is acquired.
    pub fn ensure_control_lease(
        &self,
        identity: TerminalControlIdentity,
        mutation: TerminalMutation,
        now: u64,
    ) -> (r: MutationStep)
        ensures
            fresh_lease(self.control_lease, now) ==> r.sends_mutation(
                identity,
                mutation,
                self.control_lease->0,
            ),
            self.control_lease is Some && !fresh_lease(self.control_lease, now) ==> r.renews(
                identity,
                mutation,
                self.control_lease->0,
            ),
            self.control_lease is None ==> r.acquires(identity, mutation),
    {
        match self.control_lease {
            Some(lease) => {
                if now < lease.last_renewed || now - lease.last_renewed
                    < CONTROL_LEASE_RENEW_AFTER_MS {
                    let action = mutation_action(mutation, lease);
                    MutationStep::Send {
                        run: MutationRun { identity, phase: MutationPhase::Mutating { lease } },
                        action,
                    }
                } else {
                    MutationStep::Send {
                        run: MutationRun { identity, phase: MutationPhase::Renewing { mutation } },
                        action: TerminalControlAction::Renew {
                            lease_generation: lease.generation,
                            duration_ms: CONTROL_LEASE_DURATION_MS,
                        },
                    }
                }
            },
            None => MutationStep::Send {
                run: MutationRun { identity, phase: MutationPhase::Acquiring { mutation } },
                action: TerminalControlAction::Acquire { duration_ms: CONTROL_LEASE_DURATION_MS },
            },
        }
    }

    /// Judge a renewal. `Acquire` succeeds only while no other unexpired controller owns
    /// the terminal, so a lease that ran out over an idle gap is acquired again without
    /// losing the admitted mutation. Where the transport was reset, nothing more is sent.
    pub fn accept_renewal(
        &mut self,
        identity: TerminalControlIdentity,
        mutation: TerminalMutation,
        reply: Result<TerminalControlOutcome, TerminalControlClientError>,
        now: u64,
    ) -> (r: MutationStep)
        ensures
            reply matches Ok(TerminalControlOutcome::Renewed { lease_generation, next_mutation_seq })
                ==> {
                let lease = ControlLease {
                    generation: lease_generation,
                    next_mutation_seq,
                    last_renewed: now,
                };
                &&& *final(self) == (CovenProviderClient {
                    control_lease: Some(lease),
                    ..*old(self)
                })
                &&& r.sends_mutation(identity, mutation, lease)
            },
            reply matches Ok(outcome) ==> !(outcome is Renewed) ==> r.refuses(
                "Coven returned an unexpected terminal lease renewal response"@,
            ) && *final(self) == (CovenProviderClient { control_lease: None, ..*old(self) }),
            reply matches Err(error) ==> {
                &&& if severs(control_failure_kind(error)) {
                    old(self).resets(*final(self))
                } else {
                    *final(self) == (CovenProviderClient { control_lease: None, ..*old(self) })
                }
                &&& if final(self).control_identity is None {
                    r.fails_with(error)
                } else {
                    r.acquires(identity, mutation)
                }
            },
    {
        match reply {
            Ok(TerminalControlOutcome::Renewed { lease_generation, next_mutation_seq }) => {
                let lease = ControlLease {
                    generation: lease_generation,
                    next_mutation_seq,
                    last_renewed: now,
                };
                self.control_lease = Some(lease);
                let action = mutation_action(mutation, lease);
                MutationStep::Send {
                    run: MutationRun { identity, phase: MutationPhase::Mutating { lease } },
                    action,
                }
            },
            Ok(_) => {
                self.control_lease = None;
                MutationStep::Done(
                    Err(
                        ProviderFailure::new(
                            ProviderFailureKind::Rejected,
                            "Coven returned an unexpected terminal lease renewal response",
                        ),
                    ),
                )
            },
            Err(error) => {
                let failure = map_terminal_control_error(error);
                self.reset_if_disconnected(&failure);
                self.control_lease = None;
                if self.control_identity.is_none() {
                    return MutationStep::Done(Err(failure));
                }
                MutationStep::Send {
                    run: MutationRun { identity, phase: MutationPhase::Acquiring { mutation } },
                    action: TerminalControlAction::Acquire {
                        duration_ms: CONTROL_LEASE_DURATION_MS,
                    },
                }
            },
        }
    }

    /// Judge an acquisition.
    pub fn acquire_control_lease(
        &mut self,
        identity: TerminalControlIdentity,
        mutation: TerminalMutation,
        reply: Result<TerminalControlOutcome, TerminalControlClientError>,
        now: u64,
    ) -> (r: MutationStep)
        ensures
            reply matches Ok(TerminalControlOutcome::Acquired {
                lease_generation,
                next_mutation_seq,
            }) ==> {
                let lease = ControlLease {
                    generation: lease_generation,
                    next_mutation_seq,
                    last_renewed: now,
                };
                &&& *final(self) == (CovenProviderClient {
                    control_lease: Some(lease),
                    ..*old(self)
                })
                &&& r.sends_mutation(identity, mutation, lease)
            },
            reply matches Ok(outcome) ==> !(outcome is Acquired) ==> r.refuses(
                "Coven returned an unexpected terminal lease response"@,
            ) && *final(self) == *old(self),
            reply matches Err(error) ==> r.fails_with(error) && old(self).fails(
                control_failure_kind(error),
                *final(self),
            ),
    {
        match reply {
            Ok(TerminalControlOutcome::Acquired { lease_generation, next_mutation_seq }) => {
                let lease = ControlLease {
                    generation: lease_generation,
                    next_mutation_seq,
                    last_renewed: now,
                };
                self.control_lease = Some(lease);
                let action = mutation_action(mutation, lease);
                MutationStep::Send {
                    run: MutationRun { identity, phase: MutationPhase::Mutating { lease } },
                    action,
                }
            },
            Ok(_) => MutationStep::Done(
                Err(
                    ProviderFailure::new(
                        ProviderFailureKind::Rejected,
                        "Coven returned an unexpected terminal lease response",
                    ),
                ),
            ),
            Err(error) => {
                let failure = map_terminal_control_error(error);
                self.reset_if_disconnected(&failure);
                MutationStep::Done(Err(failure))
            },
        }
    }

    /// Judge the answer to the mutation itself. An accepted enqueue is no proof that the
    /// terminal saw the bytes, so a pending receipt is asked after for a bounded time; the
    /// mutation is never sent again.
    pub fn accept_mutation(
        &mut self,
        identity: TerminalControlIdentity,
        lease: ControlLease,
        reply: Result<TerminalControlOutcome, TerminalControlClientError>,
    ) -> (r: MutationStep)
        ensures
            reply matches Ok(outcome) ==> {
                &&& *final(self) == (CovenProviderClient {
                    control_lease: lease_after(lease, outcome, old(self).control_lease),
                    ..*old(self)
                })
                &&& if still_pending(outcome) {
                    r.polls(identity, lease.next_mutation_seq, MUTATION_POLLS, outcome)
                } else {
                    r == MutationStep::Done(Ok(outcome))
                }
            },
            reply matches Err(error) ==> r.fails_with(error) && old(self).fails(
                control_failure_kind(error),
                *final(self),
            ),
    {
        match reply {
            Ok(outcome) => {
                let sequence: u64 = lease.next_mutation_seq;
                let mut pending: bool = false;
                if let TerminalControlOutcome::Mutation { mutation_seq, status } = outcome {
                    pending = status == TerminalMutationStatus::Pending;
                    if mutation_seq == sequence && status != TerminalMutationStatus::Rejected {
                        self.control_lease = Some(
                            ControlLease {
                                generation: lease.generation,
                                next_mutation_seq: sequence.saturating_add(1),
                                last_renewed: lease.last_renewed,
                            },
                        );
                    }
                    if status == TerminalMutationStatus::Stopped {
                        self.control_lease = None;
                    }
                }
                if pending {
                    MutationStep::Poll {
                        run: MutationRun {
                            identity,
                            phase: MutationPhase::Polling {
                                sequence,
                                polls_left: MUTATION_POLLS,
                                receipt: outcome,
                            },
                        },
                        action: TerminalControlAction::Poll { mutation_seq: sequence },
                    }
                } else {
                    MutationStep::Done(Ok(outcome))
                }
            },
            Err(error) => {
                let failure = map_terminal_control_error(error);
                self.reset_if_disconnected(&failure);
                MutationStep::Done(Err(failure))
            },
        }
    }

    /// Judge the answer to a poll. A receipt that settled is the result; where the poll
    /// fails or the receipt stays pending to the end, the receipt of the mutation is.
    pub fn accept_poll(
        &mut self,
        identity: TerminalControlIdentity,
        sequence: u64,
        polls_left: u32,
        receipt: TerminalControlOutcome,
        reply: Result<TerminalControlOutcome, TerminalControlClientError>,
    ) -> (r: MutationStep)
        requires
            polls_left > 0,
        ensures
            reply matches Err(error) ==> r == MutationStep::Done(Ok(receipt)) && old(self).fails(
                control_failure_kind(error),
                *final(self),
            ),
            reply matches Ok(outcome) ==> {
                &&& *final(self) == *old(self)
                &&& if !(outcome matches TerminalControlOutcome::Polled { status, .. } && status
                    == TerminalMutationStatus::Pending) {
                    r == MutationStep::Done(Ok(outcome))
                } else if polls_left == 1 {
                    r == MutationStep::Done(Ok(receipt))
                } else {
                    r.polls(identity, sequence, (polls_left - 1) as u32, receipt)
                }
            },
    {
        match reply {
            Err(error) => {
                let failure = map_terminal_control_error(error);
                self.reset_if_disconnected(&failure);
                MutationStep::Done(Ok(receipt))
            },
            Ok(outcome) => {
                let pending: bool = match outcome {
                    TerminalControlOutcome::Polled { status, .. } => status
                        == TerminalMutationStatus::Pending,
                    _ => false,
                };
                if !pending {
                    return MutationStep::Done(Ok(outcome));
                }
                if polls_left == 1 {
                    return MutationStep::Done(Ok(receipt));
                }
                MutationStep::Poll {
                    run: MutationRun {
                        identity,
                        phase: MutationPhase::Polling {
                            sequence,
                            polls_left: polls_left - 1,
                            receipt,
                        },
                    },
                    action: TerminalControlAction::Poll { mutation_seq: sequence },
                }
            },
        }
    }

    /// Whether `event` answers the last request of `run`.
    pub open spec fn answers(run: MutationRun, event: MutationEvent) -> bool {
        &&& run.phase is Checking <==> event is Health
        &&& run.phase matches MutationPhase::Polling { polls_left, .. } ==> polls_left > 0
    }

    /// One step of a terminal mutation. An unknown outcome of the transport is returned as
    /// it is: the bytes are neither sent again nor replayed.
    pub fn terminal_mutation(&mut self, run: MutationRun, event: MutationEvent, now: u64) -> (r:
        MutationStep)
        requires
            CovenProviderClient::answers(run, event),
        ensures
            r matches MutationStep::Send { run: next, .. } ==> next.identity == run.identity,
            r matches MutationStep::Poll { run: next, .. } ==> next.identity == run.identity && (
            next.phase matches MutationPhase::Polling { polls_left, .. } && polls_left > 0),
            (run.phase, event) matches (
                MutationPhase::Checking { mutation },
                MutationEvent::Health(Err(failure)),
            ) ==> r == MutationStep::Done(Err(failure)) && *final(self) == *old(self),
            (run.phase, event) matches (
                MutationPhase::Checking { mutation },
                MutationEvent::Health(Ok(_)),
            ) ==> {
                &&& *final(self) == *old(self)
                &&& fresh_lease(old(self).control_lease, now) ==> r.sends_mutation(
                    run.identity,
                    mutation,
                    old(self).control_lease->0,
                )
                &&& old(self).control_lease is Some && !fresh_lease(old(self).control_lease, now)
                    ==> r.renews(run.identity, mutation, old(self).control_lease->0)
                &&& old(self).control_lease is None ==> r.acquires(run.identity, mutation)
            },
            (run.phase, event) matches (
                MutationPhase::Renewing { mutation },
                MutationEvent::Control(Ok(
                    TerminalControlOutcome::Renewed { lease_generation, next_mutation_seq },
                )),
            ) ==> r.sends_mutation(
                run.identity,
                mutation,
                (ControlLease { generation: lease_generation, next_mutation_seq, last_renewed: now }),
            ),
            (run.phase, event) matches (
                MutationPhase::Renewing { mutation },
                MutationEvent::Control(Err(error)),
            ) ==> if old(self).control_identity is None || severs(control_failure_kind(error)) {
                r.fails_with(error)
            } else {
                r.acquires(run.identity, mutation)
            },
            (run.phase, event) matches (
                MutationPhase::Acquiring { mutation },
                MutationEvent::Control(Ok(
                    TerminalControlOutcome::Acquired { lease_generation, next_mutation_seq },
                )),
            ) ==> r.sends_mutation(
                run.identity,
                mutation,
                (ControlLease { generation: lease_generation, next_mutation_seq, last_renewed: now }),
            ),
            (run.phase, event) matches (
                MutationPhase::Mutating { lease },
                MutationEvent::Control(Ok(outcome)),
            ) ==> final(self).control_lease == lease_after(
                lease,
                outcome,
                old(self).control_lease,
            ) && (if still_pending(outcome) {
                r.polls(run.identity, lease.next_mutation_seq, MUTATION_POLLS, outcome)
            } else {
                r == MutationStep::Done(Ok(outcome))
            }),
            (run.phase, event) matches (
                MutationPhase::Polling { sequence, polls_left, receipt },
                MutationEvent::Control(Ok(outcome)),
            ) ==> *final(self) == *old(self) && (if !(outcome
                matches TerminalControlOutcome::Polled { status, .. } && status
                == TerminalMutationStatus::Pending) {
                r == MutationStep::Done(Ok(outcome))
            } else if polls_left == 1 {
                r == MutationStep::Done(Ok(receipt))
            } else {
                r.polls(run.identity, sequence, (polls_left - 1) as u32, receipt)
            }),
            (run.phase, event) matches (
                MutationPhase::Polling { receipt, .. },
                MutationEvent::Control(Err(_)),
            ) ==> r == MutationStep::Done(Ok(receipt)),
            event matches MutationEvent::Control(Err(error)) ==> (run.phase is Mutating
                || run.phase is Acquiring) ==> r.fails_with(error) && old(self).fails(
                control_failure_kind(error),
                *final(self),
            ),
            (run.phase, event) matches (
                MutationPhase::Renewing { mutation },
                MutationEvent::Control(Ok(outcome)),
            ) ==> !(outcome is Renewed) ==> r.refuses(
                "Coven returned an unexpected terminal lease renewal response"@,
            ) && final(self).control_lease is None,
            (run.phase, event) matches (
                MutationPhase::Acquiring { mutation },
                MutationEvent::Control(Ok(outcome)),
            ) ==> !(outcome is Acquired) ==> r.refuses(
                "Coven returned an unexpected terminal lease response"@,
            ) && *final(self) == *old(self),
            r matches MutationStep::Send { run: next, .. } ==> (next.phase
                matches MutationPhase::Mutating { lease } ==> final(self).control_lease == Some(
                lease,
            )),
            final(self).identity == old(self).identity,
    {
        let identity = run.identity;
        match (run.phase, event) {
            (MutationPhase::Checking { mutation }, MutationEvent::Health(checked)) => match checked {
                Ok(_) => self.ensure_control_lease(identity, mutation, now),
                Err(failure) => MutationStep::Done(Err(failure)),
            },
            (MutationPhase::Renewing { mutation }, MutationEvent::Control(reply)) => {
                self.accept_renewal(identity, mutation, reply, now)
            },
            (MutationPhase::Acquiring { mutation }, MutationEvent::Control(reply)) => {
                self.acquire_control_lease(identity, mutation, reply, now)
            },
            (MutationPhase::Mutating { lease }, MutationEvent::Control(reply)) => {
                self.accept_mutation(identity, lease, reply)
            },
            (
                MutationPhase::Polling { sequence, polls_left, receipt },
                MutationEvent::Control(reply),
            ) => self.accept_poll(identity, sequence, polls_left, receipt, reply),
            _ => MutationStep::Done(
                Err(
                    ProviderFailure::new(
                        ProviderFailureKind::Rejected,
                        "unsupported terminal mutation",
                    ),
                ),
            ),
        }
    }

    /// Begin a takeover of the terminal controller: the identity that it is fenced to,
    /// and the request that is sent once the daemon's health was checked.
    pub fn begin_takeover(&self, binding: &ProviderBinding, runtime_generation: u64) -> (r: Result<
        (TerminalControlIdentity, TerminalControlAction),
        ProviderFailure,
    >)
        ensures
            r is Ok <==> self.holds(*binding, runtime_generation) && self.control_identity is Some,
            r matches Ok(request) ==> Some(request.0) == self.control_identity && request.1 == (
            TerminalControlAction::Takeover { duration_ms: CONTROL_LEASE_DURATION_MS }),
            r matches Err(failure) ==> if self.holds(*binding, runtime_generation) {
                not_negotiated(failure)
            } else {
                failure.says(
                    ProviderFailureKind::IdentityMismatch,
                    "Coven provider binding identity or runtime generation did not match"@,
                )
            },
    {
        if let Err(failure) = self.validate_binding(binding, runtime_generation) {
            return Err(failure);
        }
        match &self.control_identity {
            Some(identity) => Ok(
                (
                    identity.clone(),
                    TerminalControlAction::Takeover { duration_ms: CONTROL_LEASE_DURATION_MS },
                ),
            ),
            None => Err(
                ProviderFailure::new(
                    ProviderFailureKind::Unsupported,
                    "terminal control was not negotiated for this attachment",
                ),
            ),
        }
    }

    /// Judge the answer to a takeover. The lease that it grants replaces the known one.
    pub fn terminal_takeover(
        &mut self,
        reply: Result<TerminalControlOutcome, TerminalControlClientError>,
        now: u64,
    ) -> (r: Result<TerminalControlOutcome, ProviderFailure>)
        ensures
            r is Ok <==> (reply matches Ok(outcome) && outcome is TakenOver),
            reply matches Ok(outcome) ==> match outcome {
                TerminalControlOutcome::TakenOver { lease_generation, next_mutation_seq } => r
                    == Ok::<TerminalControlOutcome, ProviderFailure>(outcome) && *final(self) == (
                CovenProviderClient {
                    control_lease: Some(
                        ControlLease {
                            generation: lease_generation,
                            next_mutation_seq,
                            last_renewed: now,
                        },
                    ),
                    ..*old(self)
                }),
                _ => r->Err_0.says(
                    ProviderFailureKind::Rejected,
                    "Coven returned an unexpected terminal takeover response"@,
                ) && *final(self) == *old(self),
            },
            reply matches Err(error) ==> r matches Err(failure) && control_failure(failure, error)
                && old(self).fails(control_failure_kind(error), *final(self)),
    {
        match reply {
            Ok(outcome) => match outcome {
                TerminalControlOutcome::TakenOver { lease_generation, next_mutation_seq } => {
                    self.control_lease = Some(
                        ControlLease {
                            generation: lease_generation,
                            next_mutation_seq,
                            last_renewed: now,
                        },
                    );
                    Ok(outcome)
                },
                _ => Err(
                    ProviderFailure::new(
                        ProviderFailureKind::Rejected,
                        "Coven returned an unexpected terminal takeover response",
                    ),
                ),
            },
            Err(error) => {
                let failure = map_terminal_control_error(error);
                self.reset_if_disconnected(&failure);
                Err(failure)
            },
        }
    }
}

/// A sequence number is used once: whatever the daemon answers to a mutation, the lease
/// that is kept under the same generation never goes back to an earlier number, and one
/// whose mutation was taken up moves past it.
pub proof fn mutation_sequence_never_goes_back(lease: ControlLease, outcome: TerminalControlOutcome)
    ensures
        lease_after(lease, outcome, Some(lease)) matches Some(next) ==> next.generation
            == lease.generation && next.next_mutation_seq >= lease.next_mutation_seq,
        (outcome matches TerminalControlOutcome::Mutation { mutation_seq, status } && mutation_seq
            == lease.next_mutation_seq && status != TerminalMutationStatus::Rejected && status
            != TerminalMutationStatus::Stopped && lease.next_mutation_seq < u64::MAX) ==> (
        lease_after(lease, outcome, Some(lease)) matches Some(next) && next.next_mutation_seq
            == lease.next_mutation_seq + 1),
{
}

impl CovenProviderClient {
    /// Why a command is refused before anything is sent, if it is: the kind and the text
    /// of the failure.
    pub open spec fn command_refusal(
        self,
        command: ProviderCommand,
        runtime_generation: u64,
        limits: ContractLimits,
    ) -> Option<(ProviderFailureKind, Seq<char>)> {
        let foreign = Some(
            (
                ProviderFailureKind::IdentityMismatch,
                "Coven provider binding identity or runtime generation did not match"@,
            ),
        );
        match command {
            ProviderCommand::Health => None,
            ProviderCommand::ReadSource { binding, limit, .. } => if !self.holds(
                binding,
                runtime_generation,
            ) {
                foreign
            } else if 0 < limit <= limits.max_events {
                None
            } else {
                Some(
                    (
                        ProviderFailureKind::Rejected,
                        "source read limit is outside the Coven client bound"@,
                    ),
                )
            },
            ProviderCommand::ReadTranscript { binding, limit, .. } => if !self.holds(
                binding,
                runtime_generation,
            ) {
                foreign
            } else if 0 < limit <= limits.max_chunks {
                None
            } else {
                Some(
                    (
                        ProviderFailureKind::Rejected,
                        "transcript read limit is outside the Coven client bound"@,
                    ),
                )
            },
            ProviderCommand::AttachCheckpoint { binding, .. } => if self.holds(
                binding,
                runtime_generation,
            ) {
                None
            } else {
                foreign
            },
            ProviderCommand::ReadCheckpoint { binding } => if !self.holds(
                binding,
                runtime_generation,
            ) {
                foreign
            } else if self.checkpoint_attached {
                None
            } else {
                Some(
                    (
                        ProviderFailureKind::Disconnected,
                        "Coven checkpoint stream is not attached"@,
                    ),
                )
            },
            ProviderCommand::TerminalTakeover { binding }
            | ProviderCommand::TerminalInput { binding, .. }
            | ProviderCommand::TerminalResize { binding, .. } => if !self.holds(
                binding,
                runtime_generation,
            ) {
                foreign
            } else if self.control_identity is Some {
                None
            } else {
                Some(
                    (
                        ProviderFailureKind::Unsupported,
                        "terminal control was not negotiated for this attachment"@,
                    ),
                )
            },
            ProviderCommand::Execution { binding, request } => match execution_refusal(
                self.identity,
                binding,
                *request,
                runtime_generation,
            ) {
                Some(text) => Some((ProviderFailureKind::IdentityMismatch, text)),
                None => None,
            },
            ProviderCommand::LookupExecution { binding, expected_target, .. } => {
                match lookup_refusal(
                    self.identity,
                    binding,
                    expected_target,
                    runtime_generation,
                ) {
                    Some(text) => Some((ProviderFailureKind::IdentityMismatch, text)),
                    None => None,
                }
            },
        }
    }

    fn validate_control(&self, binding: &ProviderBinding, runtime_generation: u64) -> (r: Result<
        (),
        ProviderFailure,
    >)
        ensures
            r is Ok <==> self.holds(*binding, runtime_generation) && self.control_identity is Some,
            r matches Err(failure) ==> if self.holds(*binding, runtime_generation) {
                not_negotiated(failure)
            } else {
                failure.says(
                    ProviderFailureKind::IdentityMismatch,
                    "Coven provider binding identity or runtime generation did not match"@,
                )
            },
    {
        match self.begin_takeover(binding, runtime_generation) {
            Ok(_) => Ok(()),
            Err(failure) => Err(failure),
        }
    }

    /// Check a command before anything is sent for it, and say whether the daemon's health
    /// is checked first. Every exchange with the daemon is preceded by one; draining an
    /// attached checkpoint stream is not.
    pub fn execute(&self, command: &ProviderCommand, runtime_generation: u64, limits: ContractLimits) -> (r:
        Result<bool, ProviderFailure>)
        ensures
            r is Ok <==> self.command_refusal(*command, runtime_generation, limits) is None,
            r matches Ok(health_first) ==> health_first == !(*command is ReadCheckpoint),
            r matches Err(failure) ==> {
                let refusal = self.command_refusal(*command, runtime_generation, limits);
                refusal is Some && failure.says((refusal->0).0, (refusal->0).1)
            },
    {
        let checked: Result<(), ProviderFailure> = match command {
            ProviderCommand::Health => Ok(()),
            ProviderCommand::ReadSource { binding, limit, .. } => self.validate_source_read(
                binding,
                *limit,
                limits.max_events,
                runtime_generation,
            ),
            ProviderCommand::ReadTranscript { binding, limit, .. } => self.validate_transcript_read(
                binding,
                *limit,
                limits.max_chunks,
                runtime_generation,
            ),
            ProviderCommand::AttachCheckpoint { binding, .. } => self.validate_binding(
                binding,
                runtime_generation,
            ),
            ProviderCommand::ReadCheckpoint { binding } => self.validate_checkpoint_read(
                binding,
                runtime_generation,
            ),
            ProviderCommand::TerminalTakeover { binding } => self.validate_control(
                binding,
                runtime_generation,
            ),
            ProviderCommand::TerminalInput { binding, .. } => self.validate_control(
                binding,
                runtime_generation,
            ),
            ProviderCommand::TerminalResize { binding, .. } => self.validate_control(
                binding,
                runtime_generation,
            ),
            ProviderCommand::Execution { binding, request } => validate_execution_binding(
                &self.identity,
                binding.as_ref(),
                request,
                runtime_generation,
            ),
            ProviderCommand::LookupExecution { binding, expected_target, .. } => {
                validate_lookup_binding(
                    &self.identity,
                    binding.as_ref(),
                    expected_target,
                    runtime_generation,
                )
            },
        };
        match checked {
            Ok(()) => match command {
                ProviderCommand::ReadCheckpoint { .. } => Ok(false),
                _ => Ok(true),
            },
            Err(failure) => Err(failure),
        }
    }
}

/// A daemon that cannot be reached is disconnected, one that is another than before has another
/// identity, one that does not offer what is asked is unsupported, and what it or its client
/// answers is a failure or a refusal. Only the first two end what was negotiated.
pub proof fn client_errors_are_told_apart(error: ClientError)
    ensures
        client_failure_kind(error) is Disconnected <==> error is Discovery || error is Io
            || error is HealthNotReady || error is ProtocolVersion,
        client_failure_kind(error) is IdentityMismatch <==> error is DaemonInstanceChanged,
        client_failure_kind(error) is Unsupported <==> error is CapabilityUnavailable
            || error is UnsupportedPlatform,
        client_failure_kind(error) is Failed <==> error is Daemon || error is HttpStatus,
        !(client_failure_kind(error) is Busy),
        severs(client_failure_kind(error)) <==> error is Discovery || error is Io
            || error is HealthNotReady || error is ProtocolVersion || error is DaemonInstanceChanged,
        error is Io ==> client_error_text(error) == "Coven daemon transport failed"@,
        error is Discovery ==> client_error_text(error) == "Coven daemon discovery failed"@,
        error is DaemonInstanceChanged ==> client_error_text(error)
            == "Coven daemon identity changed"@,
        error is CapabilityUnavailable ==> client_error_text(error)
            == "Coven daemon does not advertise the required capability"@,
        error is Daemon ==> client_error_text(error) == "Coven daemon rejected the request"@,
{
}

/// What was negotiated lasts until the daemon is lost; then nothing of it is left but who the
/// provider is.
pub proof fn lost_daemons_are_negotiated_anew(
    client: CovenProviderClient,
    kind: ProviderFailureKind,
    after: CovenProviderClient,
)
    requires
        client.fails(kind, after),
    ensures
        after.identity == client.identity,
        kind is Disconnected || kind is IdentityMismatch ==> !after.connected
            && !after.checkpoint_attached && after.control_identity is None
            && after.control_lease is None,
        !(kind is Disconnected) && !(kind is IdentityMismatch) ==> after == client,
{
}

/// An execution belongs to a client of the same provider in the same runtime, and a daemon is
/// trusted where it acts for the provider's own authority.
pub proof fn clients_hold_their_own(
    client: CovenProviderClient,
    binding: ProviderBinding,
    runtime_generation: u64,
    authority: Option<crate::coven::ExecutionAuthority>,
    source: SourceIdentity,
)
    ensures
        client.holds(binding, runtime_generation) ==> binding.runtime_generation
            == runtime_generation && binding.provider_id@ == client.identity.provider_id@
            && binding.host_id@ == client.identity.host_id@,
        binding.names(client.identity) && binding.runtime_generation == runtime_generation
            ==> client.holds(binding, runtime_generation),
        client.trusts(authority) <==> authority is Some && authority->0.id@
            == client.identity.authority.id@ && authority->0.generation
            == client.identity.authority.generation,
        CovenProviderClient::changed_source(binding, source) <==> binding.pinned_source is Some && (
        binding.pinned_source->0.host_id@ != source.host_id@ || binding.pinned_source->0.profile_id@
            != source.profile_id@ || binding.pinned_source->0.ledger_id@ != source.ledger_id@
            || binding.pinned_source->0.epoch != source.epoch),
{
}

/// Without a binding only a launch is sent; with one, only what speaks of the bound session and
/// generation of the same provider and runtime.
pub proof fn requests_stay_with_their_session(
    identity: ProviderIdentity,
    binding: Option<ProviderBinding>,
    request: ExecutionRequest,
    runtime_generation: u64,
)
    ensures
        ({
            let refusal = execution_refusal(identity, binding, request, runtime_generation);
            let looked_up = lookup_refusal(identity, binding, request.target, runtime_generation);
            let ours = request.scope.project_id@ == identity.scope.project_id@
                && request.scope.profile_id@ == identity.scope.profile_id@
                && request.scope.policy_generation == identity.scope.policy_generation
                && request.authority.id@ == identity.authority.id@ && request.authority.generation
                == identity.authority.generation;
            &&& !ours ==> refusal is Some
            &&& binding is None ==> (looked_up is None <==> request.target is Launch)
            &&& binding is None && ours ==> (refusal is None <==> request.target is Launch)
            &&& binding is Some && request.target is Launch ==> refusal is Some && looked_up is Some
            &&& binding matches Some(bound) ==> {
                &&& bound.runtime_generation != runtime_generation ==> refusal is Some
                    && looked_up is Some
                &&& !bound.names(identity) ==> refusal is Some && looked_up is Some
                &&& request.target matches ExecutionTarget::Existing { session_id, generation }
                    ==> (refusal is None ==> session_id@ == bound.session_id@ && generation
                    == bound.generation) && (looked_up is None ==> session_id@ == bound.session_id@
                    && generation == bound.generation) && (session_id@ == bound.session_id@
                    && generation == bound.generation && bound.runtime_generation
                    == runtime_generation && bound.names(identity) ==> looked_up is None && (ours
                    ==> refusal is None))
                &&& request.target matches ExecutionTarget::Continuation {
                    previous_session_id,
                    previous_generation,
                } ==> (refusal is None ==> previous_session_id@ == bound.session_id@
                    && previous_generation == bound.generation) && (looked_up is None
                    ==> previous_session_id@ == bound.session_id@ && previous_generation
                    == bound.generation) && (previous_session_id@ == bound.session_id@
                    && previous_generation == bound.generation && bound.runtime_generation
                    == runtime_generation && bound.names(identity) ==> looked_up is None)
            }
        }),
{
}

/// What is typed and every new size is sent as it is, under the lease and the number that is
/// next.
pub proof fn mutations_are_sent_as_they_are(
    action: TerminalControlAction,
    mutation: TerminalMutation,
    lease: ControlLease,
)
    requires
        mutates(action, mutation, lease),
    ensures
        mutation matches TerminalMutation::Input { bytes } ==> (
        action matches TerminalControlAction::Input { lease_generation, mutation_seq, bytes: sent }
            && sent == bytes && lease_generation == lease.generation && mutation_seq
            == lease.next_mutation_seq),
        mutation matches TerminalMutation::Resize { rows, cols, pixel_width, pixel_height } ==> (
        action matches TerminalControlAction::Resize {
            lease_generation,
            mutation_seq,
            rows: r,
            cols: c,
            pixel_width: w,
            pixel_height: h,
        } && r == rows && c == cols && w == pixel_width && h == pixel_height && lease_generation
            == lease.generation && mutation_seq == lease.next_mutation_seq),
{
}

/// A lease is used for the first half of its half minute, then renewed; without one it is
/// acquired.
pub proof fn leases_are_renewed_halfway(
    lease: ControlLease,
    now: u64,
    step: MutationStep,
    identity: TerminalControlIdentity,
    mutation: TerminalMutation,
)
    ensures
        now >= lease.last_renewed ==> (fresh_lease(Some(lease), now) <==> now < lease.last_renewed
            + 15_000),
        !fresh_lease(None, now),
        step.acquires(identity, mutation) ==> (step matches MutationStep::Send { run, action }
            && run.identity == identity && action == (TerminalControlAction::Acquire {
            duration_ms: 30_000,
        })),
        step.renews(identity, mutation, lease) ==> (step matches MutationStep::Send { run, action }
            && run.identity == identity && action == (TerminalControlAction::Renew {
            lease_generation: lease.generation,
            duration_ms: 30_000,
        })),
        step.sends_mutation(identity, mutation, lease) ==> (step matches MutationStep::Send {
            run,
            action,
        } && run.identity == identity && mutates(action, mutation, lease)),
{
}

/// A mutation that was taken uses up its number; one that was refused, or was another's, does
/// not; and once control was stopped there is no lease.
pub proof fn numbers_are_used_once(
    lease: ControlLease,
    mutation_seq: u64,
    status: TerminalMutationStatus,
    known: Option<ControlLease>,
)
    ensures
        ({
            let after = lease_after(
                lease,
                TerminalControlOutcome::Mutation { mutation_seq, status },
                known,
            );
            &&& status is Stopped ==> after is None
            &&& status is Rejected ==> after == known
            &&& !(status is Stopped) && !(status is Rejected) && mutation_seq
                == lease.next_mutation_seq && lease.next_mutation_seq < u64::MAX ==> (
            after matches Some(next) && next.generation == lease.generation && next.last_renewed
                == lease.last_renewed && next.next_mutation_seq == lease.next_mutation_seq + 1)
            &&& !(status is Stopped) && mutation_seq != lease.next_mutation_seq ==> after == known
        }),
{
}

/// What a client does not send, and why: what belongs to another provider or runtime, reads of
/// nothing or too much, a stream that is not attached, and control that was not negotiated. The
/// daemon's health is always asked for.
pub proof fn clients_refuse_what_is_not_theirs(
    client: CovenProviderClient,
    command: ProviderCommand,
    runtime_generation: u64,
    limits: ContractLimits,
)
    ensures
        ({
            let refusal = client.command_refusal(command, runtime_generation, limits);
            &&& command is Health ==> refusal is None
            &&& (command.fence() matches Some(binding) && !client.holds(
                binding,
                runtime_generation,
            )) ==> (refusal matches Some((kind, _)) && kind is IdentityMismatch)
            &&& (command matches ProviderCommand::ReadSource { binding, limit, .. } && client.holds(
                binding,
                runtime_generation,
            ) && (limit == 0 || limit > limits.max_events)) ==> (refusal matches Some((kind, _))
                && kind is Rejected)
            &&& (command matches ProviderCommand::ReadSource { binding, limit, .. } && client.holds(
                binding,
                runtime_generation,
            ) && 0 < limit <= limits.max_events) ==> refusal is None
            &&& (command matches ProviderCommand::ReadTranscript { binding, limit, .. }
                && client.holds(binding, runtime_generation) && (limit == 0 || limit
                > limits.max_chunks)) ==> (refusal matches Some((kind, _)) && kind is Rejected)
            &&& (command matches ProviderCommand::ReadTranscript { binding, limit, .. }
                && client.holds(binding, runtime_generation) && 0 < limit <= limits.max_chunks)
                ==> refusal is None
            &&& (command matches ProviderCommand::AttachCheckpoint { binding, .. } && client.holds(
                binding,
                runtime_generation,
            )) ==> refusal is None
            &&& (command matches ProviderCommand::ReadCheckpoint { binding } && client.holds(
                binding,
                runtime_generation,
            )) ==> (refusal is None <==> client.checkpoint_attached)
            &&& (command matches ProviderCommand::TerminalInput { binding, .. } && client.holds(
                binding,
                runtime_generation,
            )) ==> (refusal is None <==> client.control_identity is Some)
            &&& (command matches ProviderCommand::TerminalTakeover { binding } && client.holds(
                binding,
                runtime_generation,
            )) ==> (refusal is None <==> client.control_identity is Some)
            &&& (command matches ProviderCommand::TerminalResize { binding, .. } && client.holds(
                binding,
                runtime_generation,
            )) ==> (refusal is None <==> client.control_identity is Some)
        }),
{
}

/// Each failure of the daemon client has a text of its own, which says what failed and names
/// nothing that is the owner's.
pub proof fn client_failures_have_their_own_text(error: ClientError)
    ensures
        error is InvalidTranscriptRequest ==> client_error_text(error)
            == "Coven transcript request was invalid"@,
        error is InvalidTranscriptResponse ==> client_error_text(error)
            == "Coven daemon returned an invalid transcript response"@,
        error is InvalidCatalogRequest ==> client_error_text(error)
            == "Coven catalog request was invalid"@,
        error is InvalidCatalogResponse ==> client_error_text(error)
            == "Coven daemon returned an invalid catalog response"@,
        error is InvalidExecutionRequest ==> client_error_text(error)
            == "Coven execution request was invalid"@,
        error is InvalidExecutionResponse ==> client_error_text(error)
            == "Coven daemon returned an invalid execution response"@,
        error is InvalidSourceResponse ==> client_error_text(error)
            == "Coven daemon returned an invalid source response"@,
        error is ResponseTooLarge ==> client_error_text(error)
            == "Coven daemon response was too large"@,
        error is RequestTooLarge ==> client_error_text(error)
            == "Coven daemon request was too large"@,
        error is InvalidHttpResponse ==> client_error_text(error)
            == "Coven daemon returned an invalid HTTP response"@,
        error is InvalidUtf8 ==> client_error_text(error) == "Coven daemon returned invalid UTF-8"@,
        error is InvalidJson ==> client_error_text(error) == "Coven daemon returned invalid JSON"@,
        error is ProtocolVersion ==> client_error_text(error)
            == "Coven daemon protocol version is incompatible"@,
        error is StructuredErrorsUnavailable ==> client_error_text(error)
            == "Coven daemon does not support structured errors"@,
        error is HealthNotReady ==> client_error_text(error) == "Coven daemon is not ready"@,
        error is HttpStatus ==> client_error_text(error) == "Coven daemon returned an HTTP error"@,
        error is InvalidRouteParameter ==> client_error_text(error)
            == "Coven daemon route parameter was invalid"@,
        error is LegacyShutdownUpgradeRequired ==> client_error_text(error)
            == "Coven daemon requires an upgrade for this operation"@,
        error is UnsupportedPlatform ==> client_error_text(error)
            == "Coven provider is unsupported on this platform"@,
{
}

/// An execution is asked for under the provider's own scope and authority; a launch needs no
/// binding, and any other target needs one of this provider, of the current generation and
/// for exactly the session that the target names.
pub proof fn executions_match_their_binding(
    identity: ProviderIdentity,
    binding: Option<ProviderBinding>,
    request: ExecutionRequest,
    runtime_generation: u64,
)
    ensures
        ({
            let refusal = execution_refusal(identity, binding, request, runtime_generation);
            let own = request.scope.same_as(identity.scope) && request.authority.same_as(
                identity.authority,
            );
            &&& !own ==> refusal
                == Some("Coven execution request scope or authority did not match the provider"@)
            &&& own && binding is None && request.target is Launch ==> refusal is None
            &&& own && binding is None && !(request.target is Launch) ==> refusal
                == Some("an existing Coven execution requires a bound provider session"@)
            &&& own && (binding matches Some(bound) && (bound.runtime_generation
                != runtime_generation || !bound.names(identity))) ==> refusal
                == Some("Coven execution binding identity or runtime generation did not match"@)
            &&& own && (binding matches Some(bound) && bound.runtime_generation
                == runtime_generation && bound.names(identity)) ==> {
                &&& request.target is Launch ==> refusal is Some
                &&& request.target matches ExecutionTarget::Existing { session_id, generation }
                    ==> (refusal is None <==> session_id@ == binding->0.session_id@ && generation
                    == binding->0.generation)
                &&& request.target matches ExecutionTarget::Continuation {
                    previous_session_id,
                    previous_generation,
                } ==> (refusal is None <==> previous_session_id@ == binding->0.session_id@
                    && previous_generation == binding->0.generation)
            }
        }),
{
}

/// A lookup needs the same binding as the execution that it asks about.
pub proof fn lookups_match_their_binding(
    identity: ProviderIdentity,
    binding: Option<ProviderBinding>,
    target: ExecutionTarget,
    runtime_generation: u64,
)
    ensures
        ({
            let refusal = lookup_refusal(identity, binding, target, runtime_generation);
            &&& binding is None ==> (refusal is None <==> target is Launch)
            &&& binding is None && !(target is Launch) ==> refusal
                == Some("an existing Coven lookup requires a bound provider session"@)
            &&& (binding matches Some(bound) && (bound.runtime_generation != runtime_generation
                || !bound.names(identity))) ==> refusal
                == Some("Coven lookup binding identity or runtime generation did not match"@)
            &&& (binding matches Some(bound) && bound.runtime_generation == runtime_generation
                && bound.names(identity)) ==> {
                &&& target is Launch ==> refusal is Some
                &&& target matches ExecutionTarget::Existing { session_id, generation } ==> (refusal
                    is None <==> session_id@ == binding->0.session_id@ && generation
                    == binding->0.generation)
                &&& target matches ExecutionTarget::Continuation {
                    previous_session_id,
                    previous_generation,
                } ==> (refusal is None <==> previous_session_id@ == binding->0.session_id@
                    && previous_generation == binding->0.generation)
            }
        }),
{
}

/// A failure of a terminal control exchange is that of its transport, or the exchange was
/// invalid.
pub proof fn control_failures_say_what_failed(
    failure: ProviderFailure,
    error: TerminalControlClientError,
)
    requires
        control_failure(failure, error),
    ensures
        error matches TerminalControlClientError::Transport(cause) ==> failure.says(
            client_failure_kind(cause),
            client_error_text(cause),
        ) && control_failure_kind(error) == client_failure_kind(cause),
        !(error is Transport) ==> failure.says(
            ProviderFailureKind::Rejected,
            "Coven terminal control response or request was invalid"@,
        ) && control_failure_kind(error) == ProviderFailureKind::Rejected,
{
}

/// A lease lasts half a minute and is renewed after half of that; a mutation is polled for
/// fifty times.
pub proof fn leases_last_half_a_minute()
    ensures
        CONTROL_LEASE_DURATION_MS == 30_000,
        2 * CONTROL_LEASE_RENEW_AFTER_MS == CONTROL_LEASE_DURATION_MS,
        MUTATION_POLLS == 50,
{
}

} // verus!
