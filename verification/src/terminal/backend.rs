//! Persisted external execution identity, separate from native resume metadata.
use vstd::prelude::*;

use crate::coven::{ExecutionAuthority, ExecutionScope, SourceCursor, SourceIdentity};
use crate::runtime_provider::{binding_defect, ManagedBinding};
use crate::text::{same_bytes, starts_with};

verus! {

/// A position in a terminal stream.
#[derive(Clone, Copy, Debug, PartialEq, Eq, Structural)]
pub struct SessionCursor {
    pub sequence: u64,
    pub offset: u64,
}

/// The terminal stream that a checkpoint belongs to.
#[derive(Debug, PartialEq, Eq)]
pub struct StreamBinding {
    pub session_id: String,
    pub stream_id: Vec<u8>,
    pub stream_generation: u64,
    pub execution_generation: u64,
    pub authority_epoch: u64,
}

/// Persisted state of a terminal stream observer. The blob holds the stream
/// identity, the model checkpoint, its cursor and its revision; the fields beside
/// it repeat those, so that a torn or mismatched record is refused on restore.
#[derive(Debug, PartialEq, Eq)]
pub struct ExternalCheckpointState {
    pub blob: Vec<u8>,
    pub binding: StreamBinding,
    pub cursor: SessionCursor,
    pub revision: u64,
    pub source_cursor: Option<SourceCursor>,
    pub omitted: bool,
    pub stream_id: String,
    pub stream_generation: u64,
}

/// What the checkpoint transport reads out of a blob, where the blob is a checkpoint of
/// the stream that it is checked against.
#[derive(Debug, PartialEq, Eq)]
pub struct BoundCheckpoint {
    pub stream_id: Vec<u8>,
    pub stream_generation: u64,
    pub cursor: SessionCursor,
    pub revision: u64,
}

/// What is wrong with a persisted checkpoint, if anything: `bound` is what its blob says
/// and `parsed` are the bytes of its stream id, as far as either can be read.
pub open spec fn checkpoint_defect(
    state: ExternalCheckpointState,
    bound: Option<BoundCheckpoint>,
    parsed: Option<Vec<u8>>,
) -> Option<Seq<char>> {
    match bound {
        None => Some("persisted external checkpoint envelope is invalid"@),
        Some(bound) => if bound.cursor != state.cursor {
            Some("persisted external checkpoint cursor does not match its blob"@)
        } else if bound.revision != state.revision {
            Some("persisted external checkpoint revision does not match its blob"@)
        } else if !(parsed matches Some(id) && id@ == bound.stream_id@) {
            Some("persisted external checkpoint stream id does not match its blob"@)
        } else if bound.stream_generation != state.stream_generation {
            Some("persisted external checkpoint stream generation does not match its blob"@)
        } else {
            None
        },
    }
}

impl ExternalCheckpointState {
    /// Check the repeated fields against the blob before they influence a reconnect, so
    /// that a torn or edited record cannot make the owner skip bytes or restore a
    /// checkpoint under another stream generation.
    pub fn validate(&self, bound: &Option<BoundCheckpoint>, parsed: &Option<Vec<u8>>) -> (r: Result<
        (),
        &'static str,
    >)
        ensures
            r is Ok <==> checkpoint_defect(*self, *bound, *parsed) is None,
            r matches Err(message) ==> checkpoint_defect(*self, *bound, *parsed) == Some(message@),
    {
        let bound = match bound {
            Some(bound) => bound,
            None => {
                return Err("persisted external checkpoint envelope is invalid");
            },
        };
        if bound.cursor != self.cursor {
            return Err("persisted external checkpoint cursor does not match its blob");
        }
        if bound.revision != self.revision {
            return Err("persisted external checkpoint revision does not match its blob");
        }
        let matched: bool = match parsed {
            Some(id) => same_bytes(id, &bound.stream_id),
            None => false,
        };
        if !matched {
            return Err("persisted external checkpoint stream id does not match its blob");
        }
        if bound.stream_generation != self.stream_generation {
            return Err("persisted external checkpoint stream generation does not match its blob");
        }
        Ok(())
    }
}

/// The largest checkpoint blob that is read back, in bytes.
pub const MAX_EXTERNAL_CHECKPOINT_BLOB_BYTES: usize = 16_777_216;

#[derive(Clone, Copy, Debug, PartialEq, Eq, Structural)]
pub enum BlobError {
    TooLarge,
    Empty,
}

/// A checkpoint blob that is being read back byte by byte.
pub struct BlobReader {
    pub bytes: Vec<u8>,
}

impl BlobReader {
    pub open spec fn wf(self) -> bool {
        self.bytes@.len() <= MAX_EXTERNAL_CHECKPOINT_BLOB_BYTES
    }

    /// Begin to read a blob. One that announces too many bytes is refused before any of
    /// them is read.
    pub fn begin(announced: Option<usize>) -> (r: Result<Self, BlobError>)
        ensures
            r is Ok <==> (announced matches Some(size) ==> size
                <= MAX_EXTERNAL_CHECKPOINT_BLOB_BYTES),
            r matches Ok(reader) ==> reader.wf() && reader.bytes@.len() == 0,
            r matches Err(error) ==> error == BlobError::TooLarge,
    {
        if let Some(size) = announced {
            if size > MAX_EXTERNAL_CHECKPOINT_BLOB_BYTES {
                return Err(BlobError::TooLarge);
            }
        }
        Ok(BlobReader { bytes: Vec::new() })
    }

    /// Take the next byte.
    pub fn push(&mut self, byte: u8) -> (r: Result<(), BlobError>)
        requires
            old(self).wf(),
        ensures
            final(self).wf(),
            r is Ok <==> old(self).bytes@.len() < MAX_EXTERNAL_CHECKPOINT_BLOB_BYTES,
            r is Ok ==> final(self).bytes@ == old(self).bytes@.push(byte),
            r matches Err(error) ==> error == BlobError::TooLarge && final(self).bytes@ == old(self).bytes@,
    {
        if self.bytes.len() == MAX_EXTERNAL_CHECKPOINT_BLOB_BYTES {
            return Err(BlobError::TooLarge);
        }
        self.bytes.push(byte);
        Ok(())
    }

    /// The blob that was read. An empty one is refused.
    pub fn finish(self) -> (r: Result<Vec<u8>, BlobError>)
        ensures
            r is Ok <==> self.bytes@.len() > 0,
            r matches Ok(bytes) ==> bytes@ == self.bytes@,
            r matches Err(error) ==> error == BlobError::Empty,
    {
        if self.bytes.len() == 0 {
            return Err(BlobError::Empty);
        }
        Ok(self.bytes)
    }
}

/// The execution that a terminal shows.
#[derive(Debug, PartialEq, Eq)]
pub struct ExternalBinding {
    pub terminal_id: String,
    pub execution: ManagedBinding,
}

impl Clone for ExternalBinding {
    fn clone(&self) -> (r: Self)
        ensures
            r == *self,
    {
        ExternalBinding { terminal_id: self.terminal_id.clone(), execution: self.execution.clone() }
    }
}

/// What of an external binding crosses a restart. Runtime generations belong to the new
/// server and are not restored as authority.
#[derive(Debug, PartialEq, Eq)]
pub struct BindingWire {
    pub terminal_id: String,
    pub provider_id: String,
    pub host_id: String,
    pub scope: ExecutionScope,
    pub authority: ExecutionAuthority,
    pub session_id: String,
    pub generation: u64,
    pub pinned_source: Option<SourceIdentity>,
}

pub open spec fn terminal_id_byte(b: u8) -> bool {
    ||| 0x30 <= b <= 0x39
    ||| 0x41 <= b <= 0x5a
    ||| 0x61 <= b <= 0x7a
    ||| b == 0x5f
    ||| b == 0x2d
}

/// The id of a terminal that shows an external execution: `coven_` and at least one more
/// byte, at most 128 in all, each a letter or digit, `_` or `-`.
pub open spec fn external_terminal_id(id: Seq<char>) -> bool {
    let bytes = vstd::utf8::encode_utf8(id);
    &&& "coven_"@.is_prefix_of(id)
    &&& 6 < bytes.len() <= 128
    &&& forall|i: int| 0 <= i < bytes.len() ==> terminal_id_byte(#[trigger] bytes[i])
}

fn is_external_terminal_id(id: &str) -> (r: bool)
    ensures
        r == external_terminal_id(id@),
{
    let bytes = id.as_bytes();
    if !starts_with(id, "coven_") || bytes.len() <= 6 || bytes.len() > 128 {
        return false;
    }
    let mut i: usize = 0;
    while i < bytes.len()
        invariant
            i <= bytes@.len(),
            bytes@ == vstd::utf8::encode_utf8(id@),
            forall|j: int| 0 <= j < i ==> terminal_id_byte(#[trigger] bytes@[j]),
        decreases bytes@.len() - i,
    {
        let b: u8 = bytes[i];
        if !((0x30 <= b && b <= 0x39) || (0x41 <= b && b <= 0x5a) || (0x61 <= b && b <= 0x7a) || b
            == 0x5f || b == 0x2d) {
            assert(!terminal_id_byte(bytes@[i as int]));
            return false;
        }
        i = i + 1;
    }
    true
}

/// The execution part of a persisted binding is acceptable.
pub open spec fn restorable(
    wire: BindingWire,
    scope_valid: bool,
    authority_valid: bool,
) -> bool {
    &&& binding_defect(wire.provider_id@, scope_valid, authority_valid, wire.generation, 1) is None
    &&& wire.pinned_source matches Some(source) ==> {
        &&& source.host_id@ == wire.host_id@
        &&& source.profile_id@ == wire.scope.profile_id@
        &&& crate::runtime_provider::generation_in_range(source.epoch)
    }
}

impl ExternalBinding {
    /// Restore a persisted binding, under the first runtime generation. `scope_valid` and
    /// `authority_valid` are the daemon client's verdicts on its scope and authority.
    pub fn restore(wire: BindingWire, scope_valid: bool, authority_valid: bool) -> (r: Result<
        Self,
        &'static str,
    >)
        ensures
            r is Ok <==> external_terminal_id(wire.terminal_id@) && restorable(
                wire,
                scope_valid,
                authority_valid,
            ),
            r matches Ok(binding) ==> binding.terminal_id == wire.terminal_id
                && binding.execution.runtime_generation == 1 && binding.persisted_as(wire),
            r matches Err(message) ==> message@ == (if external_terminal_id(wire.terminal_id@) {
                "invalid external execution binding"@
            } else {
                "invalid external terminal binding id"@
            }),
    {
        if !is_external_terminal_id(wire.terminal_id.as_str()) {
            return Err("invalid external terminal binding id");
        }
        let execution = match ManagedBinding::new(
            wire.provider_id.as_str(),
            wire.host_id,
            wire.scope,
            wire.authority,
            wire.session_id,
            wire.generation,
            1,
            scope_valid,
            authority_valid,
        ) {
            Ok(binding) => binding,
            Err(_) => {
                return Err("invalid external execution binding");
            },
        };
        match execution.with_pinned_source(wire.pinned_source) {
            Ok(execution) => Ok(ExternalBinding { terminal_id: wire.terminal_id, execution }),
            Err(_) => Err("invalid external execution binding"),
        }
    }

    /// `wire` holds the durable fields of this binding.
    pub open spec fn persisted_as(self, wire: BindingWire) -> bool {
        &&& wire.terminal_id@ == self.terminal_id@
        &&& wire.provider_id@ == self.execution.provider_id@
        &&& wire.host_id == self.execution.host_id
        &&& wire.scope == self.execution.scope
        &&& wire.authority == self.execution.authority
        &&& wire.session_id == self.execution.session_id
        &&& wire.generation == self.execution.generation
        &&& wire.pinned_source == self.execution.pinned_source
    }

    /// The durable fields of this binding.
    pub fn persist(self) -> (r: BindingWire)
        ensures
            self.persisted_as(r),
            r.terminal_id == self.terminal_id,
            r.provider_id == self.execution.provider_id,
    {
        BindingWire {
            terminal_id: self.terminal_id,
            provider_id: self.execution.provider_id,
            host_id: self.execution.host_id,
            scope: self.execution.scope,
            authority: self.execution.authority,
            session_id: self.execution.session_id,
            generation: self.execution.generation,
            pinned_source: self.execution.pinned_source,
        }
    }
}

/// Persisting a binding and restoring it gives the same execution back, under the first
/// runtime generation: what one of the two calls wrote, the other accepts.
pub proof fn restored_binding_is_the_persisted_one(
    binding: ExternalBinding,
    wire: BindingWire,
    restored: ExternalBinding,
)
    requires
        external_terminal_id(binding.terminal_id@),
        binding_defect(
            binding.execution.provider_id@,
            true,
            true,
            binding.execution.generation,
            binding.execution.runtime_generation,
        ) is None,
        binding.execution.pinned_source matches Some(source)
            ==> binding.execution.admits_source(source),
        binding.persisted_as(wire),
    ensures
        external_terminal_id(wire.terminal_id@),
        restorable(wire, true, true),
        restored.persisted_as(wire) ==> {
            &&& restored.terminal_id@ == binding.terminal_id@
            &&& restored.execution.provider_id@ == binding.execution.provider_id@
            &&& restored.execution.host_id == binding.execution.host_id
            &&& restored.execution.scope == binding.execution.scope
            &&& restored.execution.authority == binding.execution.authority
            &&& restored.execution.session_id == binding.execution.session_id
            &&& restored.execution.generation == binding.execution.generation
            &&& restored.execution.pinned_source == binding.execution.pinned_source
        },
{
}

/// A saved stream is used only where it is the one that was saved: its position, its revision,
/// its stream and that stream's generation all agree with what its envelope says.
pub proof fn saved_streams_agree_with_their_envelope(
    state: ExternalCheckpointState,
    bound: Option<BoundCheckpoint>,
    parsed: Option<Vec<u8>>,
)
    ensures
        checkpoint_defect(state, bound, parsed) is None <==> bound is Some && bound->0.cursor.sequence
            == state.cursor.sequence && bound->0.cursor.offset == state.cursor.offset
            && bound->0.revision == state.revision && bound->0.stream_generation
            == state.stream_generation && parsed is Some && parsed->0@ == bound->0.stream_id@,
        bound is None ==> checkpoint_defect(state, bound, parsed) == Some(
            "persisted external checkpoint envelope is invalid"@,
        ),
        bound matches Some(envelope) && envelope.cursor != state.cursor ==> checkpoint_defect(
            state,
            bound,
            parsed,
        ) == Some("persisted external checkpoint cursor does not match its blob"@),
        bound matches Some(envelope) && envelope.cursor == state.cursor && envelope.revision
            != state.revision ==> checkpoint_defect(state, bound, parsed) == Some(
            "persisted external checkpoint revision does not match its blob"@,
        ),
{
}

/// The id of an external terminal starts with its mark and holds letters, digits, underscores
/// and hyphens alone.
pub proof fn external_ids_are_plain(id: Seq<char>, i: int)
    requires
        external_terminal_id(id),
    ensures
        id.len() >= 6,
        id.take(6) == "coven_"@,
        vstd::utf8::encode_utf8(id).len() > 6,
        vstd::utf8::encode_utf8(id).len() <= 128,
        0 <= i < vstd::utf8::encode_utf8(id).len() ==> {
            let b = vstd::utf8::encode_utf8(id)[i];
            ||| 0x30 <= b <= 0x39
            ||| 0x41 <= b <= 0x5a
            ||| 0x61 <= b <= 0x7a
            ||| b == 0x5f
            ||| b == 0x2d
        },
{
    reveal_strlit("coven_");
    assert(id.take(6) =~= "coven_"@);
}

/// A binding is restored only where its provider, its scope, its authority and its generation are
/// in order, and where a ledger that it was pinned to is one of its own host and profile.
pub proof fn restored_bindings_are_in_order(
    wire: BindingWire,
    scope_valid: bool,
    authority_valid: bool,
)
    ensures
        restorable(wire, scope_valid, authority_valid) ==> scope_valid && authority_valid && 0
            < wire.generation <= i64::MAX && (wire.pinned_source matches Some(source)
            ==> source.host_id@ == wire.host_id@ && source.profile_id@ == wire.scope.profile_id@
            && 0 < source.epoch <= i64::MAX),
{
}

/// A saved binding keeps everything that names its execution.
pub proof fn saved_bindings_keep_their_execution(binding: ExternalBinding, wire: BindingWire)
    requires
        binding.persisted_as(wire),
    ensures
        wire.terminal_id@ == binding.terminal_id@,
        wire.session_id == binding.execution.session_id,
        wire.generation == binding.execution.generation,
        wire.provider_id@ == binding.execution.provider_id@,
        wire.host_id == binding.execution.host_id,
        wire.scope == binding.execution.scope,
        wire.authority == binding.execution.authority,
        wire.pinned_source == binding.execution.pinned_source,
{
}

/// Every id of that shape is one: letters of either case, digits, underscores and hyphens.
pub proof fn plain_external_ids_are_taken(id: Seq<char>)
    requires
        "coven_"@.is_prefix_of(id),
        6 < vstd::utf8::encode_utf8(id).len() <= 128,
        forall|i: int|
            0 <= i < vstd::utf8::encode_utf8(id).len() ==> {
                let b = #[trigger] vstd::utf8::encode_utf8(id)[i];
                (0x30 <= b && b <= 0x39) || (0x41 <= b && b <= 0x5a) || (0x61 <= b && b <= 0x7a) || b
                    == 0x5f || b == 0x2d
            },
    ensures
        external_terminal_id(id),
{
}

} // verus!
