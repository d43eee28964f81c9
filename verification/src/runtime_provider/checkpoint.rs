//! Attaching to a terminal checkpoint stream and reading it in bounded batches.
//!
//! The worker owns the stream's reader and the terminal model. It asks here which request
//! to attach with, whether a batch goes on, and when a checkpoint is saved.
use std::sync::Arc;

use vstd::prelude::*;

use super::client::{client_error_text, client_failure_kind, map_client_error};
use super::{ProviderBinding, ProviderCheckpointUpdate, ProviderFailure, ProviderFailureKind};
use crate::coven::ClientError;
use crate::digest::{hex_of, push_hex_of, sha256, sha256_digest};
use crate::terminal::backend::{
    checkpoint_defect, BoundCheckpoint, ExternalCheckpointState, SessionCursor, StreamBinding,
};
use crate::text::same;

verus! {

/// The most stream messages that one batch applies.
pub const MAX_BATCH_MESSAGES: usize = 256;

/// How long one batch may take, in milliseconds.
pub const BATCH_BUDGET_MS: u64 = 20;

/// How often a checkpoint is saved while a stream goes on, in milliseconds.
pub const SAVE_INTERVAL_MS: u64 = 1_000;

/// What an attachment id is made from: a fixed label of this use, the caller's label, the
/// process and a number that is used once.
pub open spec fn attachment_seed(
    label: Seq<char>,
    process_id: u32,
    nonce: Seq<char>,
) -> Seq<u8> {
    vstd::utf8::encode_utf8("herdr/coven/checkpoint-attachment/v1\0"@) + vstd::utf8::encode_utf8(
        label,
    ) + seq![
        process_id as u8,
        (process_id >> 8) as u8,
        (process_id >> 16) as u8,
        (process_id >> 24) as u8,
    ] + vstd::utf8::encode_utf8(nonce)
}

/// Sixteen bytes with the version and variant bits of a locally defined UUID.
pub open spec fn uuid_bytes(digest: Seq<u8>) -> Seq<u8> {
    digest.take(16).update(6, (digest[6] & 0x0f) | 0x80).update(8, (digest[8] & 0x3f) | 0x80)
}

/// The usual spelling of a UUID: five groups of hexadecimal digits.
pub open spec fn uuid_text(bytes: Seq<u8>) -> Seq<char> {
    hex_of(bytes.subrange(0, 4)) + seq!['-'] + hex_of(bytes.subrange(4, 6)) + seq!['-'] + hex_of(
        bytes.subrange(6, 8),
    ) + seq!['-'] + hex_of(bytes.subrange(8, 10)) + seq!['-'] + hex_of(bytes.subrange(10, 16))
}

fn push_all(out: &mut Vec<u8>, bytes: &[u8])
    ensures
        final(out)@ == old(out)@ + bytes@,
{
    let mut i: usize = 0;
    assert(out@ =~= old(out)@ + bytes@.take(0));
    while i < bytes.len()
        invariant
            i <= bytes@.len(),
            out@ == old(out)@ + bytes@.take(i as int),
        decreases bytes@.len() - i,
    {
        out.push(bytes[i]);
        i = i + 1;
        assert(out@ =~= old(out)@ + bytes@.take(i as int));
    }
    assert(bytes@.take(bytes@.len() as int) =~= bytes@);
}

/// A new attachment id. It names this observer, independently of any terminal; a fresh one
/// for each attachment also keeps a reconnect from racing the cleanup of the old one.
pub fn fresh_attachment_id(label: &str, process_id: u32, nonce: &str) -> (r: String)
    ensures
        r@ == uuid_text(uuid_bytes(sha256_digest(attachment_seed(label@, process_id, nonce@)))),
{
    let mut seed: Vec<u8> = Vec::new();
    push_all(&mut seed, "herdr/coven/checkpoint-attachment/v1\0".as_bytes());
    push_all(&mut seed, label.as_bytes());
    let ghost before = seed@;
    seed.push(process_id as u8);
    seed.push((process_id >> 8) as u8);
    seed.push((process_id >> 16) as u8);
    seed.push((process_id >> 24) as u8);
    assert(seed@ =~= before + seq![
        process_id as u8,
        (process_id >> 8) as u8,
        (process_id >> 16) as u8,
        (process_id >> 24) as u8,
    ]);
    push_all(&mut seed, nonce.as_bytes());
    assert(seed@ =~= attachment_seed(label@, process_id, nonce@));
    let digest = sha256(seed.as_slice());
    let mut bytes: Vec<u8> = Vec::new();
    let mut i: usize = 0;
    while i < 16
        invariant
            i <= 16,
            digest@.len() == 32,
            bytes@ == digest@.take(i as int),
        decreases 16 - i,
    {
        bytes.push(digest[i]);
        i = i + 1;
        assert(bytes@ =~= digest@.take(i as int));
    }
    bytes.set(6, (bytes[6] & 0x0f) | 0x80);
    bytes.set(8, (bytes[8] & 0x3f) | 0x80);
    assert(bytes@ =~= uuid_bytes(digest@));
    let mut out: String = String::new();
    let all = bytes.as_slice();
    push_hex_of(&mut out, vstd::slice::slice_subrange(all, 0, 4));
    out.push('-');
    push_hex_of(&mut out, vstd::slice::slice_subrange(all, 4, 6));
    out.push('-');
    push_hex_of(&mut out, vstd::slice::slice_subrange(all, 6, 8));
    out.push('-');
    push_hex_of(&mut out, vstd::slice::slice_subrange(all, 8, 10));
    out.push('-');
    push_hex_of(&mut out, vstd::slice::slice_subrange(all, 10, 16));
    assert(out@ =~= uuid_text(bytes@));
    out
}

/// An attachment id is always a UUID of version eight in the usual variant, whatever its
/// seed was.
pub proof fn attachment_id_is_a_versioned_uuid(digest: Seq<u8>)
    requires
        digest.len() == 32,
    ensures
        uuid_bytes(digest).len() == 16,
        uuid_text(uuid_bytes(digest)).len() == 36,
        uuid_bytes(digest)[6] / 16 == 8,
        uuid_bytes(digest)[8] / 64 == 2,
{
    let bytes = uuid_bytes(digest);
    let six = digest[6];
    let eight = digest[8];
    assert(((six & 0x0f) | 0x80) / 16 == 8) by (bit_vector);
    assert(((eight & 0x3f) | 0x80) / 64 == 2) by (bit_vector);
    crate::digest::lemma_hex_of_len(bytes.subrange(0, 4));
    crate::digest::lemma_hex_of_len(bytes.subrange(4, 6));
    crate::digest::lemma_hex_of_len(bytes.subrange(6, 8));
    crate::digest::lemma_hex_of_len(bytes.subrange(8, 10));
    crate::digest::lemma_hex_of_len(bytes.subrange(10, 16));
}

/// A request to attach to a checkpoint stream. Without a pinned identity, the owner's
/// answer tells which stream and incarnation it is.
#[derive(Debug, PartialEq, Eq)]
pub struct AttachRequest {
    pub session_id: String,
    pub attachment_id: String,
    pub stream_id: Option<String>,
    pub stream_generation: Option<u64>,
    pub execution_generation: Option<u64>,
    pub authority_epoch: Option<u64>,
    pub cursor: Option<SessionCursor>,
    pub revision: Option<u64>,
}

/// A checkpoint of the execution that a binding stands for.
pub open spec fn same_execution(saved: ExternalCheckpointState, binding: ProviderBinding) -> bool {
    saved.binding.session_id@ == binding.session_id@ && saved.binding.execution_generation
        == binding.generation
}

pub open spec fn not_applied(failure: ProviderFailure) -> bool {
    failure.says(
        ProviderFailureKind::Rejected,
        "Coven terminal checkpoint could not be applied"@,
    )
}

/// The failure of a checkpoint that cannot be applied. Its text is fixed: an error of the
/// model may describe untrusted contents.
pub fn projection_error() -> (r: ProviderFailure)
    ensures
        not_applied(r),
{
    ProviderFailure::new(
        ProviderFailureKind::Rejected,
        "Coven terminal checkpoint could not be applied",
    )
}

/// The request to attach with. A saved checkpoint pins the terminal stream and its
/// incarnation; its cursor is the local consumer's rollback floor and no part of the
/// request. `bound` and `parsed` are what the transport reads out of the saved record. The
/// client checks the request once more before it is sent; `map_client_error` names the
/// failure of that check.
pub fn attach_request(
    binding: &ProviderBinding,
    attachment_id: String,
    saved: Option<&ExternalCheckpointState>,
    bound: &Option<BoundCheckpoint>,
    parsed: &Option<Vec<u8>>,
) -> (r: Result<AttachRequest, ProviderFailure>)
    ensures
        r is Ok <==> (saved matches Some(saved) ==> checkpoint_defect(*saved, *bound, *parsed)
            is None && same_execution(*saved, *binding)),
        r matches Ok(request) ==> request.session_id == binding.session_id && request.attachment_id
            == attachment_id && request.cursor is None && request.revision is None,
        r matches Ok(request) ==> saved matches Some(saved) ==> request.stream_id == Some(
            saved.stream_id,
        ) && request.stream_generation == Some(saved.stream_generation)
            && request.execution_generation == Some(binding.generation) && request.authority_epoch
            == Some(saved.binding.authority_epoch),
        r matches Ok(request) ==> saved is None ==> request.stream_id is None
            && request.stream_generation is None && request.execution_generation is None
            && request.authority_epoch is None,
        r matches Err(failure) ==> saved matches Some(saved) && if checkpoint_defect(
            *saved,
            *bound,
            *parsed,
        ) is Some {
            not_applied(failure)
        } else {
            failure.says(
                ProviderFailureKind::IdentityMismatch,
                "Persisted terminal checkpoint belongs to a different execution"@,
            )
        },
{
    match saved {
        Some(saved) => {
            if saved.validate(bound, parsed).is_err() {
                return Err(projection_error());
            }
            if !same(saved.binding.session_id.as_str(), binding.session_id.as_str())
                || saved.binding.execution_generation != binding.generation {
                return Err(
                    ProviderFailure::new(
                        ProviderFailureKind::IdentityMismatch,
                        "Persisted terminal checkpoint belongs to a different execution",
                    ),
                );
            }
            Ok(
                AttachRequest {
                    session_id: binding.session_id.clone(),
                    attachment_id,
                    stream_id: Some(saved.stream_id.clone()),
                    stream_generation: Some(saved.stream_generation),
                    execution_generation: Some(binding.generation),
                    authority_epoch: Some(saved.binding.authority_epoch),
                    cursor: None,
                    revision: None,
                },
            )
        },
        None => Ok(
            AttachRequest {
                session_id: binding.session_id.clone(),
                attachment_id,
                stream_id: None,
                stream_generation: None,
                execution_generation: None,
                authority_epoch: None,
                cursor: None,
                revision: None,
            },
        ),
    }
}

/// A stream that a binding may be shown from: of its execution, and wide and high enough
/// to hold a terminal.
pub open spec fn acceptable_stream(
    binding: ProviderBinding,
    session_id: Seq<char>,
    execution_generation: u64,
    columns: u16,
    rows: u16,
) -> bool {
    session_id == binding.session_id@ && execution_generation == binding.generation && columns >= 2
        && rows > 0
}

/// Judge the stream that the owner attached us to. The execution's authority generation
/// and the terminal's daemon epoch are independent; the latter is learnt from this answer.
pub fn accept_stream(
    binding: &ProviderBinding,
    session_id: &str,
    execution_generation: u64,
    columns: u16,
    rows: u16,
) -> (r: Result<(), ProviderFailure>)
    ensures
        r is Ok <==> acceptable_stream(*binding, session_id@, execution_generation, columns, rows),
        r matches Err(failure) ==> failure.says(
            ProviderFailureKind::IdentityMismatch,
            "Coven checkpoint stream identity did not match the provider binding"@,
        ),
{
    if !same(session_id, binding.session_id.as_str()) || execution_generation != binding.generation
        || columns < 2 || rows == 0 {
        return Err(
            ProviderFailure::new(
                ProviderFailureKind::IdentityMismatch,
                "Coven checkpoint stream identity did not match the provider binding",
            ),
        );
    }
    Ok(())
}

/// The answer that means that a session has no live checkpoint stream.
pub open spec fn stream_unavailable(error: ClientError, code: Seq<char>) -> bool {
    error is Daemon && code == "session_not_live"@
}

/// The failure that stands for an error on the attach route. A transcript-mode execution
/// has durable state but no live stream; that one explicit answer is a normal fallback, and
/// every other failure keeps its classification. `code` is the code of a daemon answer.
pub fn map_checkpoint_attach_error(error: ClientError, code: &str) -> (r: ProviderFailure)
    ensures
        if stream_unavailable(error, code@) {
            r.says(
                ProviderFailureKind::Unsupported,
                "Coven checkpoint stream is unavailable for this session"@,
            )
        } else {
            r.says(client_failure_kind(error), client_error_text(error))
        },
{
    let unavailable: bool = match error {
        ClientError::Daemon => same(code, "session_not_live"),
        _ => false,
    };
    if unavailable {
        return ProviderFailure::new(
            ProviderFailureKind::Unsupported,
            "Coven checkpoint stream is unavailable for this session",
        );
    }
    map_client_error(error)
}

/// What the terminal model made of one stream message.
#[derive(Clone, Copy, Debug, PartialEq, Eq, Structural)]
pub enum ConsumerEvent {
    Bootstrapped,
    Applied,
    Closed,
    Gap,
}

/// What one try to read a stream message gave.
#[derive(Clone, Copy, Debug, PartialEq, Eq, Structural)]
pub enum StreamRead {
    /// A message was read and handed to the model.
    Message(Option<ConsumerEvent>),
    /// No message, and the stream is at its end.
    Ended,
    /// No message for now.
    Quiet,
}

/// One batch of stream messages.
#[derive(Clone, Copy, Debug, PartialEq, Eq, Structural)]
pub struct Batch {
    pub messages: usize,
    pub bootstrapped: bool,
    pub model_changed: bool,
    pub finished: bool,
}

/// A stream that is being observed: what was last saved of it, when the next save is due
/// in milliseconds, and whether it was closed.
pub struct CheckpointConnection {
    pub last_saved: Option<(SessionCursor, u64)>,
    pub next_save: u64,
    pub closed: bool,
}

impl Batch {
    pub fn begin() -> (r: Self)
        ensures
            r == (Batch {
                messages: 0,
                bootstrapped: false,
                model_changed: false,
                finished: false,
            }),
    {
        Batch { messages: 0, bootstrapped: false, model_changed: false, finished: false }
    }

    /// This batch after one more read.
    pub open spec fn after(self, read: StreamRead) -> Self {
        match read {
            StreamRead::Message(event) => Batch {
                messages: (self.messages + 1) as usize,
                bootstrapped: self.bootstrapped || event == Some(ConsumerEvent::Bootstrapped),
                model_changed: self.model_changed || event == Some(ConsumerEvent::Bootstrapped)
                    || event == Some(ConsumerEvent::Applied),
                ..self
            },
            _ => Batch { finished: true, ..self },
        }
    }
}

impl CheckpointConnection {
    /// Begin to observe a stream, from a saved checkpoint where there is one.
    pub fn attach(saved: Option<&ExternalCheckpointState>, now: u64) -> (r: Self)
        ensures
            r.last_saved == (match saved {
                Some(saved) => Some((saved.cursor, saved.revision)),
                None => None,
            }),
            r.next_save == now,
            !r.closed,
    {
        CheckpointConnection {
            last_saved: match saved {
                Some(saved) => Some((saved.cursor, saved.revision)),
                None => None,
            },
            next_save: now,
            closed: false,
        }
    }

    /// Whether a batch that has taken `elapsed` milliseconds reads another message.
    pub open spec fn goes_on(self, batch: Batch, elapsed: u64) -> bool {
        !self.closed && !batch.finished && batch.messages < MAX_BATCH_MESSAGES && elapsed
            < BATCH_BUDGET_MS
    }

    pub fn wants_message(&self, batch: &Batch, elapsed: u64) -> (r: bool)
        ensures
            r == self.goes_on(*batch, elapsed),
    {
        !self.closed && !batch.finished && batch.messages < MAX_BATCH_MESSAGES && elapsed
            < BATCH_BUDGET_MS
    }

    /// Take note of one read. The stream is closed by its end or by a close message.
    pub fn note_read(&mut self, batch: &mut Batch, read: StreamRead)
        requires
            old(batch).messages < MAX_BATCH_MESSAGES,
        ensures
            *final(batch) == old(batch).after(read),
            final(batch).messages <= MAX_BATCH_MESSAGES,
            *final(self) == (CheckpointConnection {
                closed: old(self).closed || read == StreamRead::Ended || read
                    == StreamRead::Message(Some(ConsumerEvent::Closed)),
                ..*old(self)
            }),
    {
        match read {
            StreamRead::Message(event) => {
                batch.messages = batch.messages + 1;
                match event {
                    Some(ConsumerEvent::Bootstrapped) => {
                        batch.bootstrapped = true;
                        batch.model_changed = true;
                    },
                    Some(ConsumerEvent::Applied) => {
                        batch.model_changed = true;
                    },
                    Some(ConsumerEvent::Closed) => {
                        self.closed = true;
                    },
                    Some(ConsumerEvent::Gap) | None => {},
                }
            },
            StreamRead::Ended => {
                self.closed = true;
                batch.finished = true;
            },
            StreamRead::Quiet => {
                batch.finished = true;
            },
        }
    }

    /// Whether the model at `cursor` and `revision` is saved at the end of a batch: it
    /// changed since the last save, and the batch bootstrapped it, the stream was closed,
    /// or a save is due.
    pub open spec fn saves(self, batch: Batch, cursor: SessionCursor, revision: u64, now: u64) -> bool {
        self.last_saved != Some((cursor, revision)) && (batch.bootstrapped || self.closed || now
            >= self.next_save)
    }

    pub fn should_save(&self, batch: &Batch, cursor: SessionCursor, revision: u64, now: u64) -> (r:
        bool)
        ensures
            r == self.saves(*batch, cursor, revision, now),
    {
        let unchanged: bool = match self.last_saved {
            Some(saved) => saved.0 == cursor && saved.1 == revision,
            None => false,
        };
        !unchanged && (batch.bootstrapped || self.closed || now >= self.next_save)
    }

    /// This connection once a checkpoint was saved.
    pub open spec fn after_save(self, cursor: SessionCursor, revision: u64, now: u64) -> Self {
        CheckpointConnection {
            last_saved: Some((cursor, revision)),
            next_save: if now + SAVE_INTERVAL_MS > u64::MAX {
                u64::MAX
            } else {
                (now + SAVE_INTERVAL_MS) as u64
            },
            ..self
        }
    }

    /// Take note of a checkpoint that was saved.
    fn note_saved(&mut self, cursor: SessionCursor, revision: u64, now: u64)
        ensures
            *final(self) == old(self).after_save(cursor, revision, now),
    {
        self.last_saved = Some((cursor, revision));
        self.next_save = now.saturating_add(SAVE_INTERVAL_MS);
    }

    /// The end of a batch. `position` is where the model stands, `blob` the checkpoint that
    /// the model made, `stream` and `stream_id` name the stream that is read, and `prepared`
    /// says that a view of the model could be captured. A blob counts only where a save is
    /// due, and a capture only where the batch changed the model.
    pub fn finish(
        &mut self,
        batch: &Batch,
        position: Option<(SessionCursor, u64)>,
        content_revision: u64,
        blob: Result<Option<Vec<u8>>, ()>,
        prepared: bool,
        stream: StreamBinding,
        stream_id: String,
        now: u64,
    ) -> (r: Result<ProviderCheckpointUpdate, ProviderFailure>)
        ensures
            r matches Err(failure) ==> not_applied(failure),
            match position {
                None => r is Err && *final(self) == *old(self),
                Some((cursor, revision)) => {
                    let due = old(self).saves(*batch, cursor, revision, now);
                    if due && blob is Err {
                        r is Err && *final(self) == *old(self)
                    } else {
                        let saved = due && blob->Ok_0 is Some;
                        &&& *final(self) == (if saved {
                            old(self).after_save(cursor, revision, now)
                        } else {
                            *old(self)
                        })
                        &&& r is Ok <==> !batch.model_changed || prepared
                        &&& r matches Ok(update) ==> {
                            &&& update.cursor == cursor
                            &&& update.revision == revision
                            &&& update.content_revision == content_revision
                            &&& update.closed == old(self).closed
                            &&& update.messages == batch.messages
                            &&& update.checkpoint is Some <==> saved
                            &&& saved ==> *update.checkpoint->0 == (ExternalCheckpointState {
                                blob: blob->Ok_0->0,
                                binding: stream,
                                cursor,
                                revision,
                                source_cursor: None,
                                omitted: false,
                                stream_id,
                                stream_generation: stream.stream_generation,
                            })
                        }
                    }
                },
            },
    {
        let (cursor, revision) = match position {
            Some(position) => position,
            None => {
                return Err(projection_error());
            },
        };
        let mut checkpoint: Option<Arc<ExternalCheckpointState>> = None;
        if self.should_save(batch, cursor, revision, now) {
            match blob {
                Err(_) => {
                    return Err(projection_error());
                },
                Ok(Some(blob)) => {
                    let stream_generation: u64 = stream.stream_generation;
                    checkpoint = Some(
                        Arc::new(
                            ExternalCheckpointState {
                                blob,
                                binding: stream,
                                cursor,
                                revision,
                                source_cursor: None,
                                omitted: false,
                                stream_id,
                                stream_generation,
                            },
                        ),
                    );
                    self.note_saved(cursor, revision, now);
                },
                Ok(None) => {},
            }
        }
        if batch.model_changed && !prepared {
            return Err(projection_error());
        }
        Ok(
            ProviderCheckpointUpdate {
                cursor,
                revision,
                content_revision,
                checkpoint,
                closed: self.closed,
                messages: batch.messages,
            },
        )
    }
}

/// A checkpoint that was just saved is not saved again while nothing changes, whatever the
/// next batch reads and whenever it ends.
pub proof fn saved_checkpoint_is_not_saved_twice(
    connection: CheckpointConnection,
    cursor: SessionCursor,
    revision: u64,
    saved_at: u64,
    batch: Batch,
    now: u64,
)
    ensures
        !connection.after_save(cursor, revision, saved_at).saves(batch, cursor, revision, now),
{
}

/// A stream is taken only from the execution that the terminal is bound to, and on a screen that
/// has room for a character of two columns.
pub proof fn streams_belong_to_their_execution(
    binding: ProviderBinding,
    saved: ExternalCheckpointState,
    session_id: Seq<char>,
    execution_generation: u64,
    columns: u16,
    rows: u16,
)
    ensures
        acceptable_stream(binding, session_id, execution_generation, columns, rows) <==> session_id
            == binding.session_id@ && execution_generation == binding.generation && columns > 1
            && rows > 0,
        same_execution(saved, binding) <==> saved.binding.session_id@ == binding.session_id@
            && saved.binding.execution_generation == binding.generation,
{
}

/// A batch ends with the stream, when nothing is there for now, after 256 messages, or after a
/// fiftieth of a second.
pub proof fn batches_are_bounded(connection: CheckpointConnection, batch: Batch, elapsed: u64)
    ensures
        connection.goes_on(batch, elapsed) <==> !connection.closed && !batch.finished
            && batch.messages < 256 && elapsed < 20,
{
}

/// A batch counts its messages, and notes that the model began anew or changed.
pub proof fn batches_note_what_was_read(batch: Batch, event: Option<ConsumerEvent>)
    requires
        batch.messages < 256,
    ensures
        ({
            let after = batch.after(StreamRead::Message(event));
            &&& after.messages == batch.messages + 1
            &&& after.finished == batch.finished
            &&& event == Some(ConsumerEvent::Bootstrapped) ==> after.bootstrapped
                && after.model_changed
            &&& event == Some(ConsumerEvent::Applied) ==> after.model_changed && after.bootstrapped
                == batch.bootstrapped
            &&& event is None || event == Some(ConsumerEvent::Closed) || event == Some(
                ConsumerEvent::Gap,
            ) ==> after.model_changed == batch.model_changed && after.bootstrapped
                == batch.bootstrapped
        }),
        batch.after(StreamRead::Ended).finished && batch.after(StreamRead::Ended).messages
            == batch.messages,
        batch.after(StreamRead::Quiet).finished && batch.after(StreamRead::Quiet).messages
            == batch.messages,
{
}

/// A new position is saved at once where the model began anew or the stream has ended, and else
/// at most once a second; one that was saved is not saved again.
pub proof fn positions_are_saved_once_a_second(
    connection: CheckpointConnection,
    batch: Batch,
    cursor: SessionCursor,
    revision: u64,
    now: u64,
)
    ensures
        connection.last_saved == Some((cursor, revision)) ==> !connection.saves(
            batch,
            cursor,
            revision,
            now,
        ),
        connection.last_saved != Some((cursor, revision)) ==> (connection.saves(
            batch,
            cursor,
            revision,
            now,
        ) <==> batch.bootstrapped || connection.closed || now >= connection.next_save),
        connection.after_save(cursor, revision, now).last_saved == Some((cursor, revision)),
        now <= u64::MAX - 1_000 ==> connection.after_save(cursor, revision, now).next_save == now
            + 1_000,
        connection.after_save(cursor, revision, now).closed == connection.closed,
{
}

/// Only a session that is not live has no stream; every other error is told as what it is.
pub proof fn only_dead_sessions_have_no_stream(error: ClientError, code: Seq<char>)
    ensures
        stream_unavailable(error, code) <==> error is Daemon && code == "session_not_live"@,
{
}

/// An attachment is named after its label, its process and its nonce, each in its place.
pub proof fn attachments_are_named_after_their_seed(
    label: Seq<char>,
    process_id: u32,
    nonce: Seq<char>,
)
    ensures
        ({
            let seed = attachment_seed(label, process_id, nonce);
            let head = vstd::utf8::encode_utf8("herdr/coven/checkpoint-attachment/v1\0"@);
            let named = vstd::utf8::encode_utf8(label);
            &&& head.is_prefix_of(seed)
            &&& seed.subrange(head.len() as int, (head.len() + named.len()) as int) == named
            &&& seed.skip((head.len() + named.len() + 4) as int) == vstd::utf8::encode_utf8(nonce)
            &&& seed.len() == head.len() + named.len() + 4 + vstd::utf8::encode_utf8(nonce).len()
        }),
{
    let seed = attachment_seed(label, process_id, nonce);
    let head = vstd::utf8::encode_utf8("herdr/coven/checkpoint-attachment/v1\0"@);
    let named = vstd::utf8::encode_utf8(label);
    assert(seed.subrange(head.len() as int, (head.len() + named.len()) as int) =~= named);
    assert(seed.skip((head.len() + named.len() + 4) as int) =~= vstd::utf8::encode_utf8(nonce));
    assert(seed.take(head.len() as int) =~= head);
}

/// An identifier is spelled in five groups of eight, four, four, four and twelve digits, which
/// are those of its bytes in order.
pub proof fn identifiers_are_spelled_in_five_groups(bytes: Seq<u8>)
    requires
        bytes.len() == 16,
    ensures
        uuid_text(bytes).len() == 36,
        uuid_text(bytes)[8] == '-' && uuid_text(bytes)[13] == '-' && uuid_text(bytes)[18] == '-'
            && uuid_text(bytes)[23] == '-',
        uuid_text(bytes).subrange(0, 8) == hex_of(bytes.subrange(0, 4)),
        uuid_text(bytes).subrange(9, 13) == hex_of(bytes.subrange(4, 6)),
        uuid_text(bytes).subrange(14, 18) == hex_of(bytes.subrange(6, 8)),
        uuid_text(bytes).subrange(19, 23) == hex_of(bytes.subrange(8, 10)),
        uuid_text(bytes).subrange(24, 36) == hex_of(bytes.subrange(10, 16)),
{
    crate::digest::lemma_hex_of_len(bytes.subrange(0, 4));
    crate::digest::lemma_hex_of_len(bytes.subrange(4, 6));
    crate::digest::lemma_hex_of_len(bytes.subrange(6, 8));
    crate::digest::lemma_hex_of_len(bytes.subrange(8, 10));
    crate::digest::lemma_hex_of_len(bytes.subrange(10, 16));
    let text = uuid_text(bytes);
    assert(text.subrange(0, 8) =~= hex_of(bytes.subrange(0, 4)));
    assert(text.subrange(9, 13) =~= hex_of(bytes.subrange(4, 6)));
    assert(text.subrange(14, 18) =~= hex_of(bytes.subrange(6, 8)));
    assert(text.subrange(19, 23) =~= hex_of(bytes.subrange(8, 10)));
    assert(text.subrange(24, 36) =~= hex_of(bytes.subrange(10, 16)));
}

} // verus!
