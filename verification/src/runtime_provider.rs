//! A bounded, server-owned seam for executions backed by a local Coven daemon.
//!
//! The provider's configuration, the durable binding of one execution and the
//! results of its operations are kept apart, so that an external backend never
//! has to pretend to be a process or a PTY.
use std::sync::Arc;
use vstd::prelude::*;

use crate::coven::{
    ExecutionAuthority, ExecutionOutcome, ExecutionRequest, ExecutionScope, ExecutionTarget, Health,
    SourceCursor, SourceIdentity, SourceReply, TerminalControlOutcome, TranscriptReply,
    WriterState,
};
use crate::terminal::backend::{ExternalCheckpointState, SessionCursor};
use crate::text::{
    bounded_prefix, byte_count, byte_len, contains_control, decimal, decimal_text, has_control,
    same, truncated,
};

pub mod actor;
pub mod checkpoint;
pub mod client;
pub mod settings;
pub mod transcript;
pub mod transcript_view;

verus! {

/// Hard cap for both the command queue and the update queue of a provider.
pub const MAX_PROVIDER_QUEUE_CAPACITY: usize = 256;

pub const MAX_HEALTH_LABEL_BYTES: usize = 128;

pub const MAX_HEALTH_CAPABILITIES: usize = 32;

/// The longest provider path that is accepted, in bytes.
pub const MAX_PATH_BYTES: usize = 4096;

const MAX_MESSAGE_BYTES: usize = 512;

#[derive(Clone, Copy, Debug, PartialEq, Eq)]
pub enum ProviderConfigError {
    InvalidField(&'static str),
}

impl ProviderConfigError {
    pub open spec fn field(self) -> Seq<char> {
        match self {
            ProviderConfigError::InvalidField(field) => field@,
        }
    }

    /// The message shown to an operator.
    pub fn message(&self) -> (r: String)
        ensures
            r@ == "invalid Coven provider field: "@ + self.field(),
    {
        match self {
            ProviderConfigError::InvalidField(field) => {
                "invalid Coven provider field: ".to_owned().concat(field)
            },
        }
    }
}

#[derive(Clone, Copy, Debug, PartialEq, Eq)]
pub enum ProviderBindingError {
    InvalidField(&'static str),
}

impl ProviderBindingError {
    pub open spec fn field(self) -> Seq<char> {
        match self {
            ProviderBindingError::InvalidField(field) => field@,
        }
    }

    /// The message shown to an operator.
    pub fn message(&self) -> (r: String)
        ensures
            r@ == "invalid Coven provider binding field: "@ + self.field(),
    {
        match self {
            ProviderBindingError::InvalidField(field) => {
                "invalid Coven provider binding field: ".to_owned().concat(field)
            },
        }
    }
}

pub open spec fn provider_id_byte(b: u8) -> bool {
    ||| 0x30 <= b <= 0x39
    ||| 0x41 <= b <= 0x5a
    ||| 0x61 <= b <= 0x7a
    ||| b == 0x2d
    ||| b == 0x5f
    ||| b == 0x2e
}

/// One to 128 bytes, each an ASCII letter or digit, `-`, `_` or `.`.
pub open spec fn provider_id_text(text: Seq<char>) -> bool {
    let bytes = vstd::utf8::encode_utf8(text);
    &&& 0 < bytes.len() <= 128
    &&& forall|i: int| 0 <= i < bytes.len() ==> provider_id_byte(#[trigger] bytes[i])
}

/// A local, validated name for one configured provider instance.
#[derive(Debug, PartialEq, Eq, Hash, PartialOrd, Ord)]
pub struct ProviderId(String);

impl Clone for ProviderId {
    fn clone(&self) -> (r: Self)
        ensures
            r == *self,
    {
        ProviderId(self.0.clone())
    }
}

impl View for ProviderId {
    type V = Seq<char>;

    closed spec fn view(&self) -> Seq<char> {
        self.0@
    }
}

impl ProviderId {
    pub fn new(value: &str) -> (r: Result<Self, ProviderConfigError>)
        ensures
            r is Ok <==> provider_id_text(value@),
            r matches Ok(id) ==> id@ == value@,
            r matches Err(error) ==> error.field() == "provider_id"@,
    {
        let bytes = value.as_bytes();
        let mut valid: bool = bytes.len() > 0 && bytes.len() <= 128;
        let mut i: usize = 0;
        while i < bytes.len()
            invariant
                i <= bytes@.len(),
                bytes@ == vstd::utf8::encode_utf8(value@),
                valid <==> 0 < bytes@.len() <= 128 && forall|j: int|
                    0 <= j < i ==> provider_id_byte(#[trigger] bytes@[j]),
            decreases bytes@.len() - i,
        {
            let b: u8 = bytes[i];
            if !((0x30 <= b && b <= 0x39) || (0x41 <= b && b <= 0x5a) || (0x61 <= b && b <= 0x7a)
                || b == 0x2d || b == 0x5f || b == 0x2e) {
                valid = false;
                assert(!provider_id_byte(bytes@[i as int]));
            }
            i = i + 1;
        }
        if valid {
            Ok(ProviderId(value.to_owned()))
        } else {
            Err(ProviderConfigError::InvalidField("provider_id"))
        }
    }

    pub fn as_str(&self) -> (r: &str)
        ensures
            r@ == self@,
    {
        self.0.as_str()
    }
}

/// The identity that must remain stable while a provider is serving requests.
/// It holds no daemon path and no credential.
#[derive(Debug, PartialEq, Eq)]
pub struct ProviderIdentity {
    pub provider_id: ProviderId,
    pub host_id: String,
    pub scope: ExecutionScope,
    pub authority: ExecutionAuthority,
}

impl Clone for ProviderIdentity {
    fn clone(&self) -> (r: Self)
        ensures
            r == *self,
    {
        ProviderIdentity {
            provider_id: self.provider_id.clone(),
            host_id: self.host_id.clone(),
            scope: self.scope.clone(),
            authority: self.authority.clone(),
        }
    }
}

impl ProviderIdentity {
    pub open spec fn same_as(self, other: Self) -> bool {
        &&& self.provider_id@ == other.provider_id@
        &&& self.host_id@ == other.host_id@
        &&& self.scope.same_as(other.scope)
        &&& self.authority.same_as(other.authority)
    }

    /// `scope_valid` and `authority_valid` are the daemon client's verdicts on
    /// the scope and on the authority.
    pub fn new(
        provider_id: ProviderId,
        host_id: String,
        scope: ExecutionScope,
        authority: ExecutionAuthority,
        scope_valid: bool,
        authority_valid: bool,
    ) -> (r: Result<Self, ProviderConfigError>)
        ensures
            r is Ok <==> scope_valid && authority_valid,
            r matches Ok(identity) ==> identity == (ProviderIdentity {
                provider_id,
                host_id,
                scope,
                authority,
            }),
            r matches Err(error) ==> error.field() == (if scope_valid {
                "authority"@
            } else {
                "scope"@
            }),
    {
        if !scope_valid {
            return Err(ProviderConfigError::InvalidField("scope"));
        }
        if !authority_valid {
            return Err(ProviderConfigError::InvalidField("authority"));
        }
        Ok(ProviderIdentity { provider_id, host_id, scope, authority })
    }
}

/// Whether a path, as bytes, holds a NUL.
pub open spec fn has_nul(path: Seq<u8>) -> bool {
    exists|i: int| 0 <= i < path.len() && #[trigger] path[i] == 0
}

/// Whether a path, as bytes, starts at the file system's root.
pub open spec fn absolute(path: Seq<u8>) -> bool {
    path.len() > 0 && path[0] == 0x2f
}

pub open spec fn project_root_path(path: Seq<u8>) -> bool {
    absolute(path) && path.len() <= MAX_PATH_BYTES && !has_nul(path)
}

fn contains_nul(path: &Vec<u8>) -> (r: bool)
    ensures
        r == has_nul(path@),
{
    let mut i: usize = 0;
    while i < path.len()
        invariant
            i <= path@.len(),
            forall|j: int| 0 <= j < i ==> #[trigger] path@[j] != 0,
        decreases path@.len() - i,
    {
        if path[i] == 0 {
            assert(path@[i as int] == 0);
            return true;
        }
        i = i + 1;
    }
    false
}

/// A copy of `bytes`.
pub fn copy_bytes(bytes: &Vec<u8>) -> (r: Vec<u8>)
    ensures
        r@ == bytes@,
{
    let mut copy: Vec<u8> = Vec::new();
    let mut i: usize = 0;
    while i < bytes.len()
        invariant
            i <= bytes@.len(),
            copy@ == bytes@.take(i as int),
        decreases bytes@.len() - i,
    {
        copy.push(bytes[i]);
        i = i + 1;
        assert(copy@ =~= bytes@.take(i as int));
    }
    assert(copy@ =~= bytes@);
    copy
}

/// Local trusted configuration of one provider. Paths are kept as the bytes
/// that the operating system knows them by.
pub struct ProviderConfig {
    pub identity: ProviderIdentity,
    pub coven_home: Vec<u8>,
    pub project_root: Vec<u8>,
    pub queue_capacity: usize,
    pub actions_allowed: bool,
}

impl ProviderConfig {
    pub open spec fn wf(self) -> bool {
        &&& self.coven_home@.len() > 0 && !has_nul(self.coven_home@)
        &&& 0 < self.queue_capacity <= MAX_PROVIDER_QUEUE_CAPACITY
    }

    pub fn new(identity: ProviderIdentity, coven_home: Vec<u8>, queue_capacity: usize) -> (r: Result<
        Self,
        ProviderConfigError,
    >)
        requires
            queue_capacity > 0,
        ensures
            r is Ok <==> coven_home@.len() > 0 && !has_nul(coven_home@) && queue_capacity
                <= MAX_PROVIDER_QUEUE_CAPACITY,
            r matches Ok(config) ==> config.wf() && config.identity == identity && config.coven_home@
                == coven_home@ && config.project_root@ == coven_home@ && config.queue_capacity
                == queue_capacity && !config.actions_allowed,
            r matches Err(error) ==> error.field() == (if coven_home@.len() > 0 && !has_nul(
                coven_home@,
            ) {
                "queue_capacity"@
            } else {
                "coven_home"@
            }),
    {
        if coven_home.len() == 0 || contains_nul(&coven_home) {
            return Err(ProviderConfigError::InvalidField("coven_home"));
        }
        if queue_capacity > MAX_PROVIDER_QUEUE_CAPACITY {
            return Err(ProviderConfigError::InvalidField("queue_capacity"));
        }
        let project_root = copy_bytes(&coven_home);
        Ok(
            ProviderConfig {
                identity,
                coven_home,
                project_root,
                queue_capacity,
                actions_allowed: false,
            },
        )
    }

    pub fn coven_home(&self) -> (r: &Vec<u8>)
        ensures
            r@ == self.coven_home@,
    {
        &self.coven_home
    }

    /// Set the owner-selected project root used to resolve managed launch
    /// working directories.
    pub fn with_project_root(self, project_root: Vec<u8>) -> (r: Result<Self, ProviderConfigError>)
        ensures
            r is Ok <==> project_root_path(project_root@),
            r matches Ok(config) ==> config.project_root@ == project_root@ && config.identity
                == self.identity && config.coven_home@ == self.coven_home@ && config.queue_capacity
                == self.queue_capacity && config.actions_allowed == self.actions_allowed,
            r matches Err(error) ==> error.field() == "project_root"@,
    {
        if project_root.len() == 0 || project_root[0] != 0x2f || project_root.len()
            > MAX_PATH_BYTES || contains_nul(&project_root) {
            return Err(ProviderConfigError::InvalidField("project_root"));
        }
        Ok(
            ProviderConfig {
                identity: self.identity,
                coven_home: self.coven_home,
                project_root,
                queue_capacity: self.queue_capacity,
                actions_allowed: self.actions_allowed,
            },
        )
    }

    pub fn project_root(&self) -> (r: &Vec<u8>)
        ensures
            r@ == self.project_root@,
    {
        &self.project_root
    }

    pub fn queue_capacity(&self) -> (r: usize)
        ensures
            r == self.queue_capacity,
    {
        self.queue_capacity
    }

    /// Permission-bearing execution methods require an explicit owner-local
    /// opt-in. Discovery and read-only attachment remain available without it.
    pub fn with_actions_allowed(self, allowed: bool) -> (r: Self)
        ensures
            r.actions_allowed == allowed,
            r.identity == self.identity,
            r.coven_home@ == self.coven_home@,
            r.project_root@ == self.project_root@,
            r.queue_capacity == self.queue_capacity,
    {
        ProviderConfig {
            identity: self.identity,
            coven_home: self.coven_home,
            project_root: self.project_root,
            queue_capacity: self.queue_capacity,
            actions_allowed: allowed,
        }
    }

    pub fn actions_allowed(&self) -> (r: bool)
        ensures
            r == self.actions_allowed,
    {
        self.actions_allowed
    }

    /// What diagnostics show of a configuration. Owner-local paths stay out of them.
    pub open spec fn description(self) -> Seq<char> {
        "ProviderConfig { provider_id: "@ + self.identity.provider_id@
            + ", coven_home: <owner-local>, project_root: <owner-local>, queue_capacity: "@
            + decimal(self.queue_capacity as nat) + (if self.actions_allowed {
            ", actions_allowed: true }"@
        } else {
            ", actions_allowed: false }"@
        })
    }

    /// What diagnostics show of a configuration.
    pub fn describe(&self) -> (r: String)
        ensures
            r@ == self.description(),
    {
        let start = "ProviderConfig { provider_id: ".to_owned().concat(
            self.identity.provider_id.as_str(),
        ).concat(
            ", coven_home: <owner-local>, project_root: <owner-local>, queue_capacity: ",
        ).concat(decimal_text(self.queue_capacity as u64).as_str());
        if self.actions_allowed {
            start.concat(", actions_allowed: true }")
        } else {
            start.concat(", actions_allowed: false }")
        }
    }
}

/// Diagnostics of a configuration do not tell where its owner keeps things.
pub proof fn descriptions_hide_owner_paths(a: ProviderConfig, b: ProviderConfig)
    requires
        a.identity.provider_id@ == b.identity.provider_id@,
        a.queue_capacity == b.queue_capacity,
        a.actions_allowed == b.actions_allowed,
    ensures
        a.description() == b.description(),
{
}

/// A generation that fits the durable store: positive and within `i64`.
pub open spec fn generation_in_range(value: u64) -> bool {
    0 < value <= i64::MAX
}

fn validate_generation(value: u64, field: &'static str) -> (r: Result<(), ProviderBindingError>)
    ensures
        r is Ok <==> generation_in_range(value),
        r matches Err(error) ==> error.field() == field@,
{
    if value == 0 || value > 0x7fff_ffff_ffff_ffff {
        return Err(ProviderBindingError::InvalidField(field));
    }
    Ok(())
}

/// A durable managed execution binding. `runtime_generation` is a process-local
/// fence and is refreshed when a binding is restored into a new actor.
#[derive(Debug, PartialEq, Eq)]
pub struct ManagedBinding {
    pub provider_id: String,
    pub host_id: String,
    pub scope: ExecutionScope,
    pub authority: ExecutionAuthority,
    pub session_id: String,
    pub generation: u64,
    pub runtime_generation: u64,
    /// Once observed, a source ledger is pinned so that a replacement execution
    /// with the same session id is not mistaken for this one.
    pub pinned_source: Option<SourceIdentity>,
}

impl Clone for ManagedBinding {
    fn clone(&self) -> (r: Self)
        ensures
            r == *self,
    {
        ManagedBinding {
            provider_id: self.provider_id.clone(),
            host_id: self.host_id.clone(),
            scope: self.scope.clone(),
            authority: self.authority.clone(),
            session_id: self.session_id.clone(),
            generation: self.generation,
            runtime_generation: self.runtime_generation,
            pinned_source: self.pinned_source.clone(),
        }
    }
}

/// The name under which commands carry a managed binding.
pub type ProviderBinding = ManagedBinding;

/// Which of the fields of a binding is refused first, if any.
pub open spec fn binding_defect(
    provider_id: Seq<char>,
    scope_valid: bool,
    authority_valid: bool,
    generation: u64,
    runtime_generation: u64,
) -> Option<Seq<char>> {
    if !provider_id_text(provider_id) {
        Some("provider_id"@)
    } else if !scope_valid {
        Some("scope"@)
    } else if !authority_valid {
        Some("authority"@)
    } else if !generation_in_range(generation) {
        Some("generation"@)
    } else if !generation_in_range(runtime_generation) {
        Some("runtime_generation"@)
    } else {
        None
    }
}

impl ManagedBinding {
    /// The four fields in which a binding names its provider.
    pub open spec fn names(self, identity: ProviderIdentity) -> bool {
        &&& self.provider_id@ == identity.provider_id@
        &&& self.host_id@ == identity.host_id@
        &&& self.scope.same_as(identity.scope)
        &&& self.authority.same_as(identity.authority)
    }

    /// Whether `source` can be the ledger of this execution.
    pub open spec fn admits_source(self, source: SourceIdentity) -> bool {
        &&& source.host_id@ == self.host_id@
        &&& source.profile_id@ == self.scope.profile_id@
        &&& generation_in_range(source.epoch)
    }

    pub fn new(
        provider_id: &str,
        host_id: String,
        scope: ExecutionScope,
        authority: ExecutionAuthority,
        session_id: String,
        generation: u64,
        runtime_generation: u64,
        scope_valid: bool,
        authority_valid: bool,
    ) -> (r: Result<Self, ProviderBindingError>)
        ensures
            r is Ok <==> binding_defect(
                provider_id@,
                scope_valid,
                authority_valid,
                generation,
                runtime_generation,
            ) is None,
            r matches Err(error) ==> binding_defect(
                provider_id@,
                scope_valid,
                authority_valid,
                generation,
                runtime_generation,
            ) == Some(error.field()),
            r matches Ok(binding) ==> binding.provider_id@ == provider_id@ && binding.host_id
                == host_id && binding.scope == scope && binding.authority == authority
                && binding.session_id == session_id && binding.generation == generation
                && binding.runtime_generation == runtime_generation && binding.pinned_source
                is None,
    {
        if ProviderId::new(provider_id).is_err() {
            return Err(ProviderBindingError::InvalidField("provider_id"));
        }
        if !scope_valid {
            return Err(ProviderBindingError::InvalidField("scope"));
        }
        if !authority_valid {
            return Err(ProviderBindingError::InvalidField("authority"));
        }
        if let Err(error) = validate_generation(generation, "generation") {
            return Err(error);
        }
        if let Err(error) = validate_generation(runtime_generation, "runtime_generation") {
            return Err(error);
        }
        Ok(
            ManagedBinding {
                provider_id: provider_id.to_owned(),
                host_id,
                scope,
                authority,
                session_id,
                generation,
                runtime_generation,
                pinned_source: None,
            },
        )
    }

    /// Bind an execution of a provider. The identity's scope and authority were
    /// accepted when the identity was made.
    pub fn from_identity(
        identity: &ProviderIdentity,
        session_id: String,
        generation: u64,
        runtime_generation: u64,
    ) -> (r: Result<Self, ProviderBindingError>)
        ensures
            r is Ok <==> binding_defect(
                identity.provider_id@,
                true,
                true,
                generation,
                runtime_generation,
            ) is None,
            r matches Err(error) ==> binding_defect(
                identity.provider_id@,
                true,
                true,
                generation,
                runtime_generation,
            ) == Some(error.field()),
            r matches Ok(binding) ==> binding.names(*identity) && binding.session_id == session_id
                && binding.generation == generation && binding.runtime_generation
                == runtime_generation && binding.pinned_source is None,
    {
        ManagedBinding::new(
            identity.provider_id.as_str(),
            identity.host_id.clone(),
            identity.scope.clone(),
            identity.authority.clone(),
            session_id,
            generation,
            runtime_generation,
            true,
            true,
        )
    }

    /// The identity that this binding names.
    pub fn provider_identity(&self, scope_valid: bool, authority_valid: bool) -> (r: Result<
        ProviderIdentity,
        ProviderBindingError,
    >)
        ensures
            r is Ok <==> provider_id_text(self.provider_id@) && scope_valid && authority_valid,
            r matches Ok(identity) ==> self.names(identity),
            r matches Err(error) ==> error.field() == (if provider_id_text(self.provider_id@) {
                "identity"@
            } else {
                "provider_id"@
            }),
    {
        match ProviderId::new(self.provider_id.as_str()) {
            Ok(provider_id) => match ProviderIdentity::new(
                provider_id,
                self.host_id.clone(),
                self.scope.clone(),
                self.authority.clone(),
                scope_valid,
                authority_valid,
            ) {
                Ok(identity) => Ok(identity),
                Err(_) => Err(ProviderBindingError::InvalidField("identity")),
            },
            Err(_) => Err(ProviderBindingError::InvalidField("provider_id")),
        }
    }

    /// The same execution under another runtime fence.
    pub fn with_runtime_generation(&self, runtime_generation: u64) -> (r: Result<
        Self,
        ProviderBindingError,
    >)
        ensures
            r is Ok <==> binding_defect(
                self.provider_id@,
                true,
                true,
                self.generation,
                runtime_generation,
            ) is None,
            r matches Err(error) ==> binding_defect(
                self.provider_id@,
                true,
                true,
                self.generation,
                runtime_generation,
            ) == Some(error.field()),
            r matches Ok(binding) ==> binding.provider_id@ == self.provider_id@ && binding.host_id
                == self.host_id && binding.scope == self.scope && binding.authority
                == self.authority && binding.session_id == self.session_id && binding.generation
                == self.generation && binding.runtime_generation == runtime_generation
                && binding.pinned_source == self.pinned_source,
    {
        match ManagedBinding::new(
            self.provider_id.as_str(),
            self.host_id.clone(),
            self.scope.clone(),
            self.authority.clone(),
            self.session_id.clone(),
            self.generation,
            runtime_generation,
            true,
            true,
        ) {
            Ok(binding) => {
                let mut binding = binding;
                binding.pinned_source = self.pinned_source.clone();
                Ok(binding)
            },
            Err(error) => Err(error),
        }
    }

    /// Pin the ledger that this execution is read from.
    pub fn with_pinned_source(self, pinned_source: Option<SourceIdentity>) -> (r: Result<
        Self,
        ProviderBindingError,
    >)
        ensures
            r is Ok <==> (pinned_source matches Some(source) ==> self.admits_source(source)),
            r matches Ok(binding) ==> binding == (ManagedBinding { pinned_source, ..self }),
            r matches Err(error) ==> error.field() == "pinned_source"@,
    {
        if let Some(source) = &pinned_source {
            if !same(source.host_id.as_str(), self.host_id.as_str()) || !same(
                source.profile_id.as_str(),
                self.scope.profile_id.as_str(),
            ) || source.epoch == 0 || source.epoch > 0x7fff_ffff_ffff_ffff {
                return Err(ProviderBindingError::InvalidField("pinned_source"));
            }
        }
        let mut binding = self;
        binding.pinned_source = pinned_source;
        Ok(binding)
    }

    /// Whether this binding belongs to the provider with `identity`.
    pub fn matches_identity(&self, identity: &ProviderIdentity) -> (r: bool)
        ensures
            r == self.names(*identity),
    {
        same(self.provider_id.as_str(), identity.provider_id.as_str()) && same(
            self.host_id.as_str(),
            identity.host_id.as_str(),
        ) && self.scope.equals(&identity.scope) && self.authority.equals(&identity.authority)
    }
}

#[derive(Clone, Copy, Debug, PartialEq, Eq, Structural)]
pub enum ProviderLifecycle {
    Unknown,
    Created,
    Starting,
    Running,
    Idle,
    Completed,
    Failed,
    Cancelled,
    Killed,
    Orphaned,
}

#[derive(Clone, Copy, Debug, PartialEq, Eq, Structural)]
pub enum ProviderActivity {
    Working,
    Quiet,
    Unknown,
}

#[derive(Clone, Copy, Debug, PartialEq, Eq, Structural)]
pub enum ProviderConnection {
    Connecting,
    Connected,
    Disconnected,
    Unknown,
}

#[derive(Clone, Copy, Debug, PartialEq, Eq, Structural)]
pub enum ProviderDurability {
    Durable,
    Ephemeral,
    Unknown,
}

/// A daemon's health, cut down to what may be kept.
#[derive(Debug, PartialEq, Eq)]
pub struct ProviderHealth {
    pub ok: bool,
    pub api_version: String,
    pub coven_version: String,
    pub sessions: bool,
    pub events: bool,
    pub event_cursor: Option<String>,
    pub structured_errors: bool,
    pub execution_request_contracts: Vec<String>,
    pub execution_request_operations: Vec<String>,
    pub execution_source_contracts: Vec<String>,
    pub authority: Option<ExecutionAuthority>,
}

#[derive(Clone, Copy, Debug, PartialEq, Eq, Structural)]
pub struct ProviderHealthProjectionError;

/// A label that a health projection keeps: not empty, bounded, and plain.
pub open spec fn health_label(text: Seq<char>) -> bool {
    0 < text.len() && byte_len(text) <= MAX_HEALTH_LABEL_BYTES && !has_control(text)
}

pub open spec fn health_labels(values: Seq<String>) -> bool {
    &&& values.len() <= MAX_HEALTH_CAPABILITIES
    &&& forall|i: int| 0 <= i < values.len() ==> health_label((#[trigger] values[i])@)
}

/// Whether every label of a health answer can be kept.
pub open spec fn projectable(health: Health) -> bool {
    let capabilities = health.capabilities;
    &&& health_label(health.api_version@)
    &&& health_label(health.coven_version@)
    &&& capabilities.event_cursor matches Some(cursor) ==> health_label(cursor@)
    &&& health_labels(capabilities.execution_request_contracts@)
    &&& health_labels(capabilities.execution_request_operations@)
    &&& health_labels(capabilities.execution_source_contracts@)
}

/// The fields of a health answer that are kept.
pub open spec fn kept_health(health: Health) -> ProviderHealth {
    ProviderHealth {
        ok: health.ok,
        api_version: health.api_version,
        coven_version: health.coven_version,
        sessions: health.capabilities.sessions,
        events: health.capabilities.events,
        event_cursor: health.capabilities.event_cursor,
        structured_errors: health.capabilities.structured_errors,
        execution_request_contracts: health.capabilities.execution_request_contracts,
        execution_request_operations: health.capabilities.execution_request_operations,
        execution_source_contracts: health.capabilities.execution_source_contracts,
        authority: health.execution_authority,
    }
}

fn bounded_health_label(value: &String) -> (r: bool)
    ensures
        r == health_label(value@),
{
    let text = value.as_str();
    !text.is_empty() && byte_count(text) <= MAX_HEALTH_LABEL_BYTES && !contains_control(text)
}

fn bounded_health_capabilities(values: &Vec<String>) -> (r: bool)
    ensures
        r == health_labels(values@),
{
    if values.len() > MAX_HEALTH_CAPABILITIES {
        return false;
    }
    let mut i: usize = 0;
    while i < values.len()
        invariant
            i <= values@.len(),
            forall|j: int| 0 <= j < i ==> health_label((#[trigger] values@[j])@),
        decreases values@.len() - i,
    {
        if !bounded_health_label(&values[i]) {
            return false;
        }
        i = i + 1;
    }
    true
}

impl ProviderHealth {
    /// Keep the bounded fields of a health answer. Nothing of an answer with a
    /// label or a list beyond its bound is kept.
    pub fn try_from(health: Health) -> (r: Result<Self, ProviderHealthProjectionError>)
        ensures
            r is Ok <==> projectable(health),
            r matches Ok(kept) ==> kept == kept_health(health),
    {
        let cursor_fits: bool = match &health.capabilities.event_cursor {
            Some(cursor) => bounded_health_label(cursor),
            None => true,
        };
        if !bounded_health_label(&health.api_version) || !bounded_health_label(
            &health.coven_version,
        ) || !cursor_fits || !bounded_health_capabilities(
            &health.capabilities.execution_request_contracts,
        ) || !bounded_health_capabilities(&health.capabilities.execution_request_operations)
            || !bounded_health_capabilities(&health.capabilities.execution_source_contracts) {
            return Err(ProviderHealthProjectionError);
        }
        Ok(
            ProviderHealth {
                ok: health.ok,
                api_version: health.api_version,
                coven_version: health.coven_version,
                sessions: health.capabilities.sessions,
                events: health.capabilities.events,
                event_cursor: health.capabilities.event_cursor,
                structured_errors: health.capabilities.structured_errors,
                execution_request_contracts: health.capabilities.execution_request_contracts,
                execution_request_operations: health.capabilities.execution_request_operations,
                execution_source_contracts: health.capabilities.execution_source_contracts,
                authority: health.execution_authority,
            },
        )
    }
}

#[derive(Clone, Copy, Debug, PartialEq, Eq, Structural)]
pub enum ProviderOperationKind {
    Health,
    ReadSource,
    ReadTranscript,
    AttachCheckpoint,
    ReadCheckpoint,
    TerminalControl,
    Execution,
    LookupExecution,
}

#[derive(Clone, Copy, Debug, PartialEq, Eq, Structural)]
pub enum ProviderFailureKind {
    Disconnected,
    Busy,
    Unsupported,
    IdentityMismatch,
    Rejected,
    Failed,
}

/// A failure with a bounded message.
#[derive(Debug, PartialEq, Eq)]
pub struct ProviderFailure {
    pub kind: ProviderFailureKind,
    pub message: String,
}

impl Clone for ProviderFailure {
    fn clone(&self) -> (r: Self)
        ensures
            r == *self,
    {
        ProviderFailure { kind: self.kind, message: self.message.clone() }
    }
}

impl ProviderFailure {
    /// The kind and the text of this failure are `kind` and as much of `text` as
    /// a failure may carry.
    pub open spec fn says(self, kind: ProviderFailureKind, text: Seq<char>) -> bool {
        self.kind == kind && self.message@ == bounded_prefix(text, 512)
    }

    pub fn new(kind: ProviderFailureKind, message: &str) -> (r: Self)
        ensures
            r.says(kind, message@),
            byte_len(r.message@) <= 512,
            byte_len(message@) <= 512 ==> r.message@ == message@,
    {
        ProviderFailure { kind, message: truncated(message, MAX_MESSAGE_BYTES) }
    }
}

/// What is known of a terminal stream when a checkpoint attachment was made.
#[derive(Clone, Copy, Debug, PartialEq, Eq, Structural)]
pub struct ProviderCheckpointAttachment {
    pub content_revision: u64,
}

/// What one bounded batch of stream messages changed.
#[derive(Debug, PartialEq, Eq)]
pub struct ProviderCheckpointUpdate {
    pub cursor: SessionCursor,
    pub revision: u64,
    pub content_revision: u64,
    pub checkpoint: Option<Arc<ExternalCheckpointState>>,
    pub closed: bool,
    pub messages: usize,
}

/// What came of an operation.
#[derive(Debug, PartialEq, Eq)]
pub enum ProviderOperationResult {
    Pending { kind: ProviderOperationKind },
    Health(Arc<ProviderHealth>),
    Source(Arc<SourceReply>),
    Transcript(Arc<TranscriptReply>),
    CheckpointAttached(ProviderCheckpointAttachment),
    Checkpoint(Arc<ProviderCheckpointUpdate>),
    Execution(ExecutionOutcome),
    LookupExecution(ExecutionOutcome),
    TerminalControl(TerminalControlOutcome),
    Failure(ProviderFailure),
    Detached,
    Shutdown,
}

impl Clone for ProviderOperationResult {
    fn clone(&self) -> (r: Self)
        ensures
            r == *self,
    {
        match self {
            ProviderOperationResult::Pending { kind } => ProviderOperationResult::Pending {
                kind: *kind,
            },
            ProviderOperationResult::Health(health) => ProviderOperationResult::Health(
                health.clone(),
            ),
            ProviderOperationResult::Source(reply) => ProviderOperationResult::Source(
                reply.clone(),
            ),
            ProviderOperationResult::Transcript(reply) => ProviderOperationResult::Transcript(
                reply.clone(),
            ),
            ProviderOperationResult::CheckpointAttached(attached) => {
                ProviderOperationResult::CheckpointAttached(*attached)
            },
            ProviderOperationResult::Checkpoint(update) => ProviderOperationResult::Checkpoint(
                update.clone(),
            ),
            ProviderOperationResult::Execution(outcome) => ProviderOperationResult::Execution(
                outcome.clone(),
            ),
            ProviderOperationResult::LookupExecution(outcome) => {
                ProviderOperationResult::LookupExecution(outcome.clone())
            },
            ProviderOperationResult::TerminalControl(outcome) => {
                ProviderOperationResult::TerminalControl(*outcome)
            },
            ProviderOperationResult::Failure(failure) => ProviderOperationResult::Failure(
                failure.clone(),
            ),
            ProviderOperationResult::Detached => ProviderOperationResult::Detached,
            ProviderOperationResult::Shutdown => ProviderOperationResult::Shutdown,
        }
    }
}

#[derive(Clone, Copy, Debug, PartialEq, Eq, Hash, Structural)]
pub struct OperationTicket(pub u64);

impl OperationTicket {
    pub fn raw(self) -> (r: u64)
        ensures
            r == self.0,
    {
        self.0
    }
}

#[derive(Debug, PartialEq, Eq)]
pub struct ProviderOperation {
    pub ticket: OperationTicket,
    pub kind: ProviderOperationKind,
    pub result: ProviderOperationResult,
}

impl Clone for ProviderOperation {
    fn clone(&self) -> (r: Self)
        ensures
            r == *self,
    {
        ProviderOperation { ticket: self.ticket, kind: self.kind, result: self.result.clone() }
    }
}

/// Another handle on a shared value, where there is one.
pub fn share<T>(value: &Option<Arc<T>>) -> (r: Option<Arc<T>>)
    ensures
        r == *value,
{
    match value {
        Some(shared) => Some(shared.clone()),
        None => None,
    }
}

/// An immutable view of a provider. `retained_operations` holds the latest result
/// of recent operations, by ascending ticket.
#[derive(Debug, PartialEq, Eq)]
pub struct ProviderSnapshot {
    pub identity: ProviderIdentity,
    pub runtime_generation: u64,
    pub lifecycle: ProviderLifecycle,
    pub activity: ProviderActivity,
    pub connection: ProviderConnection,
    pub durability: ProviderDurability,
    pub health: Option<Arc<ProviderHealth>>,
    pub source: Option<Arc<SourceReply>>,
    pub last_operation: Option<ProviderOperation>,
    pub retained_operations: Arc<Vec<ProviderOperation>>,
    pub revision: u64,
    pub dropped_updates: u64,
}

impl Clone for ProviderSnapshot {
    fn clone(&self) -> (r: Self)
        ensures
            r == *self,
    {
        ProviderSnapshot {
            identity: self.identity.clone(),
            runtime_generation: self.runtime_generation,
            lifecycle: self.lifecycle,
            activity: self.activity,
            connection: self.connection,
            durability: self.durability,
            health: share(&self.health),
            source: share(&self.source),
            last_operation: self.last_operation.clone(),
            retained_operations: self.retained_operations.clone(),
            revision: self.revision,
            dropped_updates: self.dropped_updates,
        }
    }
}

/// The first operation, from `i` on, that has the given ticket.
pub open spec fn find_operation(
    operations: Seq<ProviderOperation>,
    ticket: OperationTicket,
    i: nat,
) -> Option<ProviderOperation>
    decreases operations.len() - i,
{
    if i >= operations.len() {
        None
    } else if operations[i as int].ticket == ticket {
        Some(operations[i as int])
    } else {
        find_operation(operations, ticket, i + 1)
    }
}

impl ProviderSnapshot {
    /// What is retained of the operation with the given ticket.
    pub fn operation_result(&self, ticket: OperationTicket) -> (r: Option<ProviderOperation>)
        ensures
            r == find_operation(self.retained_operations@, ticket, 0),
    {
        let operations: &Vec<ProviderOperation> = &self.retained_operations;
        let mut i: usize = 0;
        while i < operations.len()
            invariant
                i <= operations@.len(),
                operations@ == self.retained_operations@,
                find_operation(operations@, ticket, 0) == find_operation(
                    operations@,
                    ticket,
                    i as nat,
                ),
            decreases operations@.len() - i,
        {
            if operations[i].ticket == ticket {
                return Some(operations[i].clone());
            }
            i = i + 1;
        }
        None
    }
}

/// One notification of a provider.
#[derive(Debug, PartialEq, Eq)]
pub struct ProviderUpdate {
    pub ticket: Option<OperationTicket>,
    pub binding: Option<ProviderBinding>,
    pub kind: ProviderOperationKind,
    pub runtime_generation: u64,
    pub result: ProviderOperationResult,
    pub snapshot: Arc<ProviderSnapshot>,
}

/// Work for a provider worker. It has no debug form but its description: a request carries a
/// prompt, which does not belong in diagnostics.
#[allow(inconsistent_fields)]
#[derive(PartialEq, Eq)]
pub enum ProviderCommand {
    Health,
    ReadSource { binding: ProviderBinding, cursor: Option<SourceCursor>, limit: u16 },
    ReadTranscript { binding: ProviderBinding, cursor: Option<SourceCursor>, limit: u16 },
    /// Negotiate the typed checkpoint stream and keep its reader in the worker.
    AttachCheckpoint {
        binding: ProviderBinding,
        attachment_id: String,
        checkpoint: Option<Arc<ExternalCheckpointState>>,
    },
    /// Drain and apply a bounded batch. Quiet polls return an unchanged projection.
    ReadCheckpoint { binding: ProviderBinding },
    TerminalTakeover { binding: ProviderBinding },
    TerminalInput { binding: ProviderBinding, bytes: Vec<u8> },
    TerminalResize {
        binding: ProviderBinding,
        rows: u16,
        cols: u16,
        pixel_width: u16,
        pixel_height: u16,
    },
    Execution { binding: Option<ProviderBinding>, request: Arc<ExecutionRequest> },
    LookupExecution {
        /// A launch lookup has no binding. Existing and continuation lookups carry
        /// the durable binding that fences the target.
        binding: Option<ProviderBinding>,
        request_id: String,
        expected_digest: String,
        expected_target: ExecutionTarget,
    },
}

#[derive(Clone, Copy, Debug, PartialEq, Eq, Structural)]
pub enum SubmitError {
    Busy,
    Disconnected,
    IdentityMismatch,
    Rejected,
}

/// The largest reads that the daemon contract allows.
#[derive(Clone, Copy, Debug, PartialEq, Eq, Structural)]
pub struct ContractLimits {
    pub max_events: u16,
    pub max_chunks: u16,
}

impl ProviderOperationKind {
    pub open spec fn kind_name(self) -> Seq<char> {
        match self {
            ProviderOperationKind::Health => "Health"@,
            ProviderOperationKind::ReadSource => "ReadSource"@,
            ProviderOperationKind::ReadTranscript => "ReadTranscript"@,
            ProviderOperationKind::AttachCheckpoint => "AttachCheckpoint"@,
            ProviderOperationKind::ReadCheckpoint => "ReadCheckpoint"@,
            ProviderOperationKind::TerminalControl => "TerminalControl"@,
            ProviderOperationKind::Execution => "Execution"@,
            ProviderOperationKind::LookupExecution => "LookupExecution"@,
        }
    }

    pub fn name(self) -> (r: &'static str)
        ensures
            r@ == self.kind_name(),
    {
        match self {
            ProviderOperationKind::Health => "Health",
            ProviderOperationKind::ReadSource => "ReadSource",
            ProviderOperationKind::ReadTranscript => "ReadTranscript",
            ProviderOperationKind::AttachCheckpoint => "AttachCheckpoint",
            ProviderOperationKind::ReadCheckpoint => "ReadCheckpoint",
            ProviderOperationKind::TerminalControl => "TerminalControl",
            ProviderOperationKind::Execution => "Execution",
            ProviderOperationKind::LookupExecution => "LookupExecution",
        }
    }
}

impl ProviderCommand {
    /// What diagnostics show of a command: its kind and the execution it is bound to. What it
    /// carries, a prompt above all, stays out of them.
    pub open spec fn description(self) -> Seq<char> {
        "ProviderCommand { kind: "@ + self.operation_kind().kind_name() + (match self.fence() {
            Some(binding) => ", session: "@ + binding.session_id@ + ", generation: "@ + decimal(
                binding.generation as nat,
            ) + " }"@,
            None => " }"@,
        })
    }

    /// What diagnostics show of a command.
    pub fn describe(&self) -> (r: String)
        ensures
            r@ == self.description(),
    {
        let start = "ProviderCommand { kind: ".to_owned().concat(self.kind().name());
        match self.binding() {
            Some(binding) => {
                let bound = ", session: ".to_owned().concat(binding.session_id.as_str()).concat(
                    ", generation: ",
                ).concat(decimal_text(binding.generation).as_str()).concat(" }");
                start.concat(bound.as_str())
            },
            None => start.concat(" }"),
        }
    }

    pub open spec fn operation_kind(self) -> ProviderOperationKind {
        match self {
            ProviderCommand::Health => ProviderOperationKind::Health,
            ProviderCommand::ReadSource { .. } => ProviderOperationKind::ReadSource,
            ProviderCommand::ReadTranscript { .. } => ProviderOperationKind::ReadTranscript,
            ProviderCommand::AttachCheckpoint { .. } => ProviderOperationKind::AttachCheckpoint,
            ProviderCommand::ReadCheckpoint { .. } => ProviderOperationKind::ReadCheckpoint,
            ProviderCommand::TerminalTakeover { .. } => ProviderOperationKind::TerminalControl,
            ProviderCommand::TerminalInput { .. } => ProviderOperationKind::TerminalControl,
            ProviderCommand::TerminalResize { .. } => ProviderOperationKind::TerminalControl,
            ProviderCommand::Execution { .. } => ProviderOperationKind::Execution,
            ProviderCommand::LookupExecution { .. } => ProviderOperationKind::LookupExecution,
        }
    }

    /// The binding that fences a command, if it has one.
    pub open spec fn fence(self) -> Option<ProviderBinding> {
        match self {
            ProviderCommand::Health => None,
            ProviderCommand::ReadSource { binding, .. } => Some(binding),
            ProviderCommand::ReadTranscript { binding, .. } => Some(binding),
            ProviderCommand::AttachCheckpoint { binding, .. } => Some(binding),
            ProviderCommand::ReadCheckpoint { binding } => Some(binding),
            ProviderCommand::TerminalTakeover { binding } => Some(binding),
            ProviderCommand::TerminalInput { binding, .. } => Some(binding),
            ProviderCommand::TerminalResize { binding, .. } => Some(binding),
            ProviderCommand::Execution { binding, .. } => binding,
            ProviderCommand::LookupExecution { binding, .. } => binding,
        }
    }

    /// Whether the payload of a command is within its bounds. `contract_ok` is the
    /// daemon client's verdict on the part of it that only the client can judge: a
    /// cursor, an execution request, or a digest and target to look up.
    pub open spec fn admissible(self, limits: ContractLimits, contract_ok: bool) -> bool {
        match self {
            ProviderCommand::ReadSource { cursor, limit, .. } => 0 < limit <= limits.max_events
                && (cursor is Some ==> contract_ok),
            ProviderCommand::ReadTranscript { cursor, limit, .. } => 0 < limit
                <= limits.max_chunks && (cursor is Some ==> contract_ok),
            ProviderCommand::AttachCheckpoint { attachment_id, .. } => 0 < byte_len(
                attachment_id@,
            ) <= 128,
            ProviderCommand::Execution { .. } => contract_ok,
            ProviderCommand::LookupExecution { .. } => contract_ok,
            _ => true,
        }
    }

    pub fn kind(&self) -> (r: ProviderOperationKind)
        ensures
            r == self.operation_kind(),
    {
        match self {
            ProviderCommand::Health => ProviderOperationKind::Health,
            ProviderCommand::ReadSource { .. } => ProviderOperationKind::ReadSource,
            ProviderCommand::ReadTranscript { .. } => ProviderOperationKind::ReadTranscript,
            ProviderCommand::AttachCheckpoint { .. } => ProviderOperationKind::AttachCheckpoint,
            ProviderCommand::ReadCheckpoint { .. } => ProviderOperationKind::ReadCheckpoint,
            ProviderCommand::TerminalTakeover { .. } => ProviderOperationKind::TerminalControl,
            ProviderCommand::TerminalInput { .. } => ProviderOperationKind::TerminalControl,
            ProviderCommand::TerminalResize { .. } => ProviderOperationKind::TerminalControl,
            ProviderCommand::Execution { .. } => ProviderOperationKind::Execution,
            ProviderCommand::LookupExecution { .. } => ProviderOperationKind::LookupExecution,
        }
    }

    pub fn binding(&self) -> (r: Option<&ProviderBinding>)
        ensures
            r is Some <==> self.fence() is Some,
            r matches Some(binding) ==> self.fence() == Some(*binding),
    {
        match self {
            ProviderCommand::Health => None,
            ProviderCommand::ReadSource { binding, .. } => Some(binding),
            ProviderCommand::ReadTranscript { binding, .. } => Some(binding),
            ProviderCommand::AttachCheckpoint { binding, .. } => Some(binding),
            ProviderCommand::ReadCheckpoint { binding } => Some(binding),
            ProviderCommand::TerminalTakeover { binding } => Some(binding),
            ProviderCommand::TerminalInput { binding, .. } => Some(binding),
            ProviderCommand::TerminalResize { binding, .. } => Some(binding),
            ProviderCommand::Execution { binding, .. } => binding.as_ref(),
            ProviderCommand::LookupExecution { binding, .. } => binding.as_ref(),
        }
    }

    /// Check the payload bounds before a command is admitted to the bounded queue,
    /// so that a malformed value never takes a queue slot.
    pub fn validate_for_submission(&self, limits: ContractLimits, contract_ok: bool) -> (r: Result<
        (),
        SubmitError,
    >)
        ensures
            r is Ok <==> self.admissible(limits, contract_ok),
            r matches Err(error) ==> error == SubmitError::Rejected,
    {
        let admitted: bool = match self {
            ProviderCommand::ReadSource { cursor, limit, .. } => *limit != 0 && *limit
                <= limits.max_events && (cursor.is_none() || contract_ok),
            ProviderCommand::ReadTranscript { cursor, limit, .. } => *limit != 0 && *limit
                <= limits.max_chunks && (cursor.is_none() || contract_ok),
            ProviderCommand::AttachCheckpoint { attachment_id, .. } => {
                let length: usize = byte_count(attachment_id.as_str());
                length != 0 && length <= 128
            },
            ProviderCommand::Execution { .. } => contract_ok,
            ProviderCommand::LookupExecution { .. } => contract_ok,
            _ => true,
        };
        if admitted {
            Ok(())
        } else {
            Err(SubmitError::Rejected)
        }
    }
}

/// Diagnostics of a command do not tell what it carries.
pub proof fn descriptions_hide_requests(a: ProviderCommand, b: ProviderCommand)
    requires
        a.operation_kind() == b.operation_kind(),
        a.fence() == b.fence(),
    ensures
        a.description() == b.description(),
{
}

#[derive(Clone, Copy, Debug, PartialEq, Eq, Structural)]
pub enum ProviderStartError {
    WorkerLimitReached,
    GenerationExhausted,
}

impl ProviderStartError {
    pub fn message(&self) -> (r: &'static str)
        ensures
            r@ == (match self {
                ProviderStartError::WorkerLimitReached => "Coven provider worker limit reached"@,
                ProviderStartError::GenerationExhausted =>
                    "Coven provider runtime generation exhausted"@,
            }),
    {
        match self {
            ProviderStartError::WorkerLimitReached => "Coven provider worker limit reached",
            ProviderStartError::GenerationExhausted => {
                "Coven provider runtime generation exhausted"
            },
        }
    }
}

#[derive(Clone, Copy, Debug, PartialEq, Eq, Structural)]
pub enum ProviderGenerationError {
    Exhausted,
}

impl ProviderGenerationError {
    pub fn message(&self) -> (r: &'static str)
        ensures
            r@ == "Coven provider runtime generation exhausted"@,
    {
        "Coven provider runtime generation exhausted"
    }
}

/// Presentation facts, kept apart from worker handles and layout.
#[derive(Debug, PartialEq, Eq)]
pub struct ProviderObservation {
    pub lifecycle: ProviderLifecycle,
    pub activity: ProviderActivity,
    pub connection: ProviderConnection,
    pub durability: ProviderDurability,
    pub diagnostic: Option<String>,
    pub writer_state: Option<WriterState>,
}

/// Two optional texts hold the same characters, or neither is there.
pub open spec fn same_text(a: Option<String>, b: Option<String>) -> bool {
    match (a, b) {
        (None, None) => true,
        (Some(x), Some(y)) => x@ == y@,
        _ => false,
    }
}

fn equal_text(a: &Option<String>, b: &Option<String>) -> (r: bool)
    ensures
        r == same_text(*a, *b),
{
    match (a, b) {
        (None, None) => true,
        (Some(x), Some(y)) => same(x.as_str(), y.as_str()),
        _ => false,
    }
}

impl ProviderObservation {
    /// What is shown of a provider of which nothing is known.
    pub open spec fn unobserved() -> Self {
        ProviderObservation {
            lifecycle: ProviderLifecycle::Unknown,
            activity: ProviderActivity::Unknown,
            connection: ProviderConnection::Disconnected,
            durability: ProviderDurability::Unknown,
            diagnostic: None,
            writer_state: None,
        }
    }

    pub open spec fn same_as(self, other: Self) -> bool {
        &&& self.lifecycle == other.lifecycle
        &&& self.activity == other.activity
        &&& self.connection == other.connection
        &&& self.durability == other.durability
        &&& same_text(self.diagnostic, other.diagnostic)
        &&& self.writer_state == other.writer_state
    }

    pub fn equals(&self, other: &Self) -> (r: bool)
        ensures
            r == self.same_as(*other),
    {
        let writer_equal: bool = match (self.writer_state, other.writer_state) {
            (None, None) => true,
            (Some(a), Some(b)) => a == b,
            _ => false,
        };
        self.lifecycle == other.lifecycle && self.activity == other.activity && self.connection
            == other.connection && self.durability == other.durability && equal_text(
            &self.diagnostic,
            &other.diagnostic,
        ) && writer_equal
    }
}

impl Default for ProviderObservation {
    fn default() -> (r: Self)
        ensures
            r == ProviderObservation::unobserved(),
    {
        ProviderObservation {
            lifecycle: ProviderLifecycle::Unknown,
            activity: ProviderActivity::Unknown,
            connection: ProviderConnection::Disconnected,
            durability: ProviderDurability::Unknown,
            diagnostic: None,
            writer_state: None,
        }
    }
}

/// A command speaks of what it does, and to the execution that it is bound to: reads, controls
/// and requests each carry their binding, and health alone has none.
pub proof fn commands_speak_of_what_they_do(command: ProviderCommand)
    ensures
        command.operation_kind() is Health <==> command is Health,
        command.operation_kind() is ReadSource <==> command is ReadSource,
        command.operation_kind() is ReadTranscript <==> command is ReadTranscript,
        command.operation_kind() is AttachCheckpoint <==> command is AttachCheckpoint,
        command.operation_kind() is ReadCheckpoint <==> command is ReadCheckpoint,
        command.operation_kind() is Execution <==> command is Execution,
        command.operation_kind() is LookupExecution <==> command is LookupExecution,
        command.operation_kind() is TerminalControl <==> command is TerminalTakeover
            || command is TerminalInput || command is TerminalResize,
        command matches ProviderCommand::ReadSource { binding, .. } ==> command.fence() == Some(
            binding,
        ),
        command matches ProviderCommand::ReadTranscript { binding, .. } ==> command.fence() == Some(
            binding,
        ),
        command matches ProviderCommand::AttachCheckpoint { binding, .. } ==> command.fence()
            == Some(binding),
        command matches ProviderCommand::ReadCheckpoint { binding } ==> command.fence() == Some(
            binding,
        ),
        command matches ProviderCommand::TerminalTakeover { binding } ==> command.fence() == Some(
            binding,
        ),
        command matches ProviderCommand::TerminalInput { binding, .. } ==> command.fence() == Some(
            binding,
        ),
        command matches ProviderCommand::TerminalResize { binding, .. } ==> command.fence() == Some(
            binding,
        ),
        command matches ProviderCommand::Execution { binding, .. } ==> command.fence() == binding,
        command matches ProviderCommand::LookupExecution { binding, .. } ==> command.fence()
            == binding,
        command is Health ==> command.fence() is None,
{
}

/// What the contract does not take is not submitted: reads of nothing or of too much, requests
/// that it refuses, and attachments without a name. Everything else is.
pub proof fn only_what_the_contract_takes_is_submitted(
    command: ProviderCommand,
    limits: ContractLimits,
    contract_ok: bool,
)
    ensures
        command matches ProviderCommand::ReadSource { cursor, limit, .. } ==> (command.admissible(
            limits,
            contract_ok,
        ) <==> limit > 0 && limit <= limits.max_events && (cursor is None || contract_ok)),
        command matches ProviderCommand::ReadTranscript { cursor, limit, .. } ==> (
        command.admissible(limits, contract_ok) <==> limit > 0 && limit <= limits.max_chunks && (
        cursor is None || contract_ok)),
        command is Execution || command is LookupExecution ==> (command.admissible(
            limits,
            contract_ok,
        ) <==> contract_ok),
        command matches ProviderCommand::AttachCheckpoint { attachment_id, .. } ==> (
        command.admissible(limits, contract_ok) <==> 0 < byte_len(attachment_id@) <= 128),
        command is Health || command is ReadCheckpoint || command is TerminalTakeover
            || command is TerminalInput || command is TerminalResize ==> command.admissible(
            limits,
            contract_ok,
        ),
{
}

proof fn lemma_operation_found(operations: Seq<ProviderOperation>, ticket: OperationTicket, i: nat)
    ensures
        find_operation(operations, ticket, i) matches Some(operation) ==> operation.ticket == ticket
            && exists|j: int|
            i <= j < operations.len() && operation == #[trigger] operations[j],
        find_operation(operations, ticket, i) is None ==> forall|j: int|
            i <= j < operations.len() ==> (#[trigger] operations[j]).ticket != ticket,
    decreases operations.len() - i,
{
    if i < operations.len() && operations[i as int].ticket != ticket {
        lemma_operation_found(operations, ticket, i + 1);
    }
}

/// A result is found under its own ticket, where one is retained, and never under another.
pub proof fn results_are_found_by_their_ticket(
    operations: Seq<ProviderOperation>,
    ticket: OperationTicket,
)
    ensures
        find_operation(operations, ticket, 0) matches Some(operation) ==> operation.ticket == ticket
            && exists|j: int| 0 <= j < operations.len() && operation == #[trigger] operations[j],
        find_operation(operations, ticket, 0) is None <==> forall|j: int|
            0 <= j < operations.len() ==> (#[trigger] operations[j]).ticket != ticket,
{
    lemma_operation_found(operations, ticket, 0);
}

/// The id of a provider is short and holds letters, digits, hyphens, underscores and dots alone.
pub proof fn provider_ids_are_plain(text: Seq<char>)
    ensures
        provider_id_text(text) <==> {
            let bytes = vstd::utf8::encode_utf8(text);
            &&& 0 < bytes.len() <= 128
            &&& forall|i: int|
                0 <= i < bytes.len() ==> (0x30 <= #[trigger] bytes[i] <= 0x39) || (0x41 <= bytes[i]
                    <= 0x5a) || (0x61 <= bytes[i] <= 0x7a) || bytes[i] == 0x2d || bytes[i] == 0x5f
                    || bytes[i] == 0x2e
        },
{
}

/// A binding is good where its provider's id, its scope, its authority and both of its
/// generations are; the first that is not is named.
pub proof fn good_bindings_have_good_fields(
    provider_id: Seq<char>,
    scope_valid: bool,
    authority_valid: bool,
    generation: u64,
    runtime_generation: u64,
)
    ensures
        ({
            let defect = binding_defect(
                provider_id,
                scope_valid,
                authority_valid,
                generation,
                runtime_generation,
            );
            let id_ok = provider_id_text(provider_id);
            &&& defect is None <==> id_ok && scope_valid && authority_valid && 0 < generation
                <= 0x7fff_ffff_ffff_ffff && 0 < runtime_generation <= 0x7fff_ffff_ffff_ffff
            &&& !id_ok ==> defect == Some("provider_id"@)
            &&& id_ok && !scope_valid ==> defect == Some("scope"@)
            &&& id_ok && scope_valid && !authority_valid ==> defect == Some("authority"@)
            &&& id_ok && scope_valid && authority_valid && generation == 0 ==> defect == Some(
                "generation"@,
            )
            &&& id_ok && scope_valid && authority_valid && 0 < generation <= 0x7fff_ffff_ffff_ffff
                && runtime_generation == 0 ==> defect == Some("runtime_generation"@)
        }),
{
}

/// A binding belongs to a provider of the same id on the same host, in the same scope and for
/// the same authority, and to no other. A ledger is its own on that host and in that profile.
pub proof fn bindings_belong_to_their_provider(
    binding: ManagedBinding,
    identity: ProviderIdentity,
    source: SourceIdentity,
)
    ensures
        binding.names(identity) <==> binding.provider_id@ == identity.provider_id@
            && binding.host_id@ == identity.host_id@ && binding.scope.project_id@
            == identity.scope.project_id@ && binding.scope.profile_id@ == identity.scope.profile_id@
            && binding.scope.policy_generation == identity.scope.policy_generation
            && binding.authority.id@ == identity.authority.id@ && binding.authority.generation
            == identity.authority.generation,
        binding.admits_source(source) <==> source.host_id@ == binding.host_id@ && source.profile_id@
            == binding.scope.profile_id@ && 0 < source.epoch <= 0x7fff_ffff_ffff_ffff,
{
}

/// Observations are the same where nothing that is shown of them differs.
pub proof fn different_observations_are_told_apart(a: ProviderObservation, b: ProviderObservation)
    ensures
        a == b ==> a.same_as(b),
        a.same_as(b) ==> b.same_as(a),
        a.lifecycle != b.lifecycle || a.activity != b.activity || a.connection != b.connection
            || a.durability != b.durability || a.writer_state != b.writer_state || (
        a.diagnostic is Some) != (b.diagnostic is Some) ==> !a.same_as(b),
        a.diagnostic matches Some(x) ==> (b.diagnostic matches Some(y) ==> (x@ != y@
            ==> !a.same_as(b))),
{
}

/// What was not observed is unknown and disconnected.
pub proof fn nothing_is_known_at_first()
    ensures
        ProviderObservation::unobserved().connection is Disconnected,
        ProviderObservation::unobserved().lifecycle is Unknown,
        ProviderObservation::unobserved().activity is Unknown,
        ProviderObservation::unobserved().durability is Unknown,
        ProviderObservation::unobserved().diagnostic is None,
        ProviderObservation::unobserved().writer_state is None,
{
}

/// What is kept of a daemon's health is what it said, and only where it is short and printable.
pub proof fn health_is_kept_as_told(health: Health)
    ensures
        kept_health(health).ok == health.ok,
        kept_health(health).api_version == health.api_version,
        kept_health(health).coven_version == health.coven_version,
        kept_health(health).sessions == health.capabilities.sessions,
        kept_health(health).events == health.capabilities.events,
        kept_health(health).structured_errors == health.capabilities.structured_errors,
        kept_health(health).authority == health.execution_authority,
        kept_health(health).event_cursor == health.capabilities.event_cursor,
        kept_health(health).execution_request_contracts
            == health.capabilities.execution_request_contracts,
        kept_health(health).execution_request_operations
            == health.capabilities.execution_request_operations,
        kept_health(health).execution_source_contracts
            == health.capabilities.execution_source_contracts,
        projectable(health) ==> 0 < byte_len(health.api_version@) <= 128 && 0 < byte_len(
            health.coven_version@,
        ) <= 128 && !has_control(health.api_version@) && !has_control(health.coven_version@)
            && health.capabilities.execution_request_contracts@.len() <= 32
            && health.capabilities.execution_request_operations@.len() <= 32
            && health.capabilities.execution_source_contracts@.len() <= 32,
{
    if projectable(health) {
        lemma_some_bytes(health.api_version@);
        lemma_some_bytes(health.coven_version@);
    }
}

proof fn lemma_some_bytes(text: Seq<char>)
    requires
        text.len() > 0,
    ensures
        byte_len(text) > 0,
{
    let head = text.drop_last();
    assert(text =~= head.push(text.last()));
    crate::text::lemma_byte_len_push(head, text.last());
    crate::text::lemma_char_width(text.last());
}

/// A failure keeps its kind and its text, as far as the text is bounded.
pub proof fn failures_say_what_failed(
    failure: ProviderFailure,
    kind: ProviderFailureKind,
    text: Seq<char>,
)
    requires
        failure.says(kind, text),
    ensures
        failure.kind == kind,
        failure.message@.is_prefix_of(text),
        byte_len(text) <= 512 ==> failure.message@ == text,
{
    crate::text::lemma_byte_len_empty();
    crate::text::lemma_fitting_chars(text, 512, 0);
    if byte_len(text) <= 512 {
        crate::text::whole_text_fits(text, 512);
    }
}

/// A project's root is an absolute path of ordinary length.
pub proof fn project_roots_are_absolute(path: Seq<u8>)
    ensures
        project_root_path(path) <==> path.len() > 0 && path[0] == 0x2f && path.len() <= 4096 && (
        forall|i: int| 0 <= i < path.len() ==> #[trigger] path[i] != 0),
{
}

/// Operations are named in descriptions as they are.
pub proof fn operations_are_named_as_they_are(kind: ProviderOperationKind)
    ensures
        kind is Health ==> kind.kind_name() == "Health"@,
        kind is ReadSource ==> kind.kind_name() == "ReadSource"@,
        kind is ReadTranscript ==> kind.kind_name() == "ReadTranscript"@,
        kind is AttachCheckpoint ==> kind.kind_name() == "AttachCheckpoint"@,
        kind is ReadCheckpoint ==> kind.kind_name() == "ReadCheckpoint"@,
        kind is TerminalControl ==> kind.kind_name() == "TerminalControl"@,
        kind is Execution ==> kind.kind_name() == "Execution"@,
        kind is LookupExecution ==> kind.kind_name() == "LookupExecution"@,
{
}

/// What a provider may hold and say is bounded.
pub proof fn providers_are_bounded()
    ensures
        MAX_PROVIDER_QUEUE_CAPACITY == 256,
        MAX_HEALTH_LABEL_BYTES == 128,
        MAX_HEALTH_CAPABILITIES == 32,
        MAX_PATH_BYTES == 4096,
{
}

} // verus!
