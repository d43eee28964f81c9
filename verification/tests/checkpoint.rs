use herdr::coven::{ClientError, ExecutionAuthority, ExecutionScope, SourceIdentity};
use herdr::runtime_provider::checkpoint::{
    accept_stream, attach_request, fresh_attachment_id, map_checkpoint_attach_error, Batch,
    CheckpointConnection, ConsumerEvent, StreamRead, BATCH_BUDGET_MS, MAX_BATCH_MESSAGES,
    SAVE_INTERVAL_MS,
};
use herdr::runtime_provider::client::map_client_error;
use herdr::runtime_provider::{ProviderBinding, ProviderFailureKind};
use herdr::terminal::backend::{
    BindingWire, BlobError, BlobReader, BoundCheckpoint, ExternalBinding, ExternalCheckpointState,
    SessionCursor, StreamBinding, MAX_EXTERNAL_CHECKPOINT_BLOB_BYTES,
};

fn scope() -> ExecutionScope {
    ExecutionScope {
        project_id: "project".into(),
        profile_id: "profile".into(),
        policy_generation: 1,
    }
}

fn binding() -> ProviderBinding {
    ProviderBinding::new(
        "provider",
        "host".into(),
        scope(),
        ExecutionAuthority {
            id: "execution-authority".into(),
            generation: 7,
        },
        "session".into(),
        2,
        1,
        true,
        true,
    )
    .unwrap()
}

fn saved() -> ExternalCheckpointState {
    ExternalCheckpointState {
        blob: vec![1],
        binding: StreamBinding {
            session_id: "session".into(),
            stream_id: vec![7; 16],
            stream_generation: 1,
            execution_generation: 2,
            authority_epoch: 913,
        },
        cursor: SessionCursor {
            sequence: 9,
            offset: 1234,
        },
        revision: 4,
        source_cursor: None,
        omitted: false,
        stream_id: "07070707-0707-0707-0707-070707070707".into(),
        stream_generation: 1,
    }
}

fn stream() -> StreamBinding {
    saved().binding
}

fn id() -> String {
    saved().stream_id
}

fn bound() -> Option<BoundCheckpoint> {
    Some(BoundCheckpoint {
        stream_id: vec![7; 16],
        stream_generation: 1,
        cursor: SessionCursor {
            sequence: 9,
            offset: 1234,
        },
        revision: 4,
    })
}

fn parsed() -> Option<Vec<u8>> {
    Some(vec![7; 16])
}

#[test]
fn checkpoint_first_attach_discovers_the_terminal_epoch() {
    let id = fresh_attachment_id("attachment", 42, "1");
    let request = attach_request(&binding(), id, None, &None, &None).unwrap();
    let groups: Vec<usize> = request.attachment_id.split('-').map(str::len).collect();
    assert_eq!(groups, [8, 4, 4, 4, 12]);
    assert!(request
        .attachment_id
        .chars()
        .all(|c| c == '-' || c.is_ascii_hexdigit()));
    assert_eq!(&request.attachment_id[14..15], "8");
    let second = attach_request(
        &binding(),
        fresh_attachment_id("attachment", 42, "2"),
        None,
        &None,
        &None,
    )
    .unwrap();
    assert_ne!(request.attachment_id, second.attachment_id);
    assert_eq!(request.authority_epoch, None);
    assert_eq!(request.execution_generation, None);
    assert_eq!(request.stream_id, None);
}

#[test]
fn checkpoint_reconnect_pins_terminal_identity_without_an_exact_old_ticket() {
    let binding = binding();
    let saved = saved();
    assert_ne!(binding.authority.generation, saved.binding.authority_epoch);
    let request = attach_request(
        &binding,
        "attachment".into(),
        Some(&saved),
        &bound(),
        &parsed(),
    )
    .unwrap();
    assert_eq!(request.authority_epoch, Some(913));
    assert_eq!(request.execution_generation, Some(2));
    assert_eq!(request.stream_id.as_deref(), Some(saved.stream_id.as_str()));
    assert_eq!(request.cursor, None);
    assert_eq!(request.revision, None);
}

#[test]
fn checkpoint_reconnect_rejects_another_execution_before_io() {
    let mut binding = binding();
    binding.generation += 1;
    let error = attach_request(
        &binding,
        "attachment".into(),
        Some(&saved()),
        &bound(),
        &parsed(),
    )
    .unwrap_err();
    assert_eq!(error.kind, ProviderFailureKind::IdentityMismatch);
}

#[test]
fn checkpoint_absence_is_an_explicit_transcript_fallback() {
    let failure = map_checkpoint_attach_error(ClientError::Daemon, "session_not_live");
    assert_eq!(failure.kind, ProviderFailureKind::Unsupported);
    assert_eq!(
        failure.message,
        "Coven checkpoint stream is unavailable for this session"
    );
}

#[test]
fn checkpoint_server_failure_does_not_degrade_to_transcript() {
    assert_eq!(
        map_checkpoint_attach_error(ClientError::Daemon, "service_unavailable").kind,
        ProviderFailureKind::Failed
    );
}

#[test]
fn every_other_attach_failure_keeps_its_classification() {
    for (error, code) in [
        (ClientError::HttpStatus, ""),
        (ClientError::HttpStatus, "session_not_live"),
        (ClientError::Io, ""),
        (ClientError::Daemon, "checkpoint_protocol_required"),
        (ClientError::Daemon, "checkpoint_protocol_unavailable"),
        (ClientError::Daemon, "terminal_checkpoint_unavailable"),
    ] {
        assert_eq!(
            map_checkpoint_attach_error(error, code),
            map_client_error(error)
        );
    }
}

#[test]
fn only_a_stream_of_the_execution_is_accepted() {
    let binding = binding();
    assert!(accept_stream(&binding, "session", 2, 80, 24).is_ok());
    for (session, generation, columns, rows) in [
        ("other", 2, 80, 24),
        ("session", 3, 80, 24),
        ("session", 2, 1, 24),
        ("session", 2, 80, 0),
    ] {
        let failure = accept_stream(&binding, session, generation, columns, rows).unwrap_err();
        assert_eq!(failure.kind, ProviderFailureKind::IdentityMismatch);
    }
    let mut torn = bound();
    torn.as_mut().unwrap().revision = 5;
    let failure =
        attach_request(&binding, "a".into(), Some(&saved()), &torn, &parsed()).unwrap_err();
    assert_eq!(failure.kind, ProviderFailureKind::Rejected);
}

#[test]
fn batches_are_bounded_and_saves_are_spaced() {
    let mut connection = CheckpointConnection::attach(Some(&saved()), 100);
    let cursor = saved().cursor;
    let mut batch = Batch::begin();
    assert!(!connection.should_save(&batch, cursor, 4, 5_000));
    assert!(connection.wants_message(&batch, 0));
    assert!(!connection.wants_message(&batch, BATCH_BUDGET_MS));
    for _ in 0..MAX_BATCH_MESSAGES {
        connection.note_read(&mut batch, StreamRead::Message(Some(ConsumerEvent::Applied)));
    }
    assert!(batch.model_changed);
    assert!(!connection.wants_message(&batch, 0));
    assert!(connection.should_save(&batch, cursor, 5, 100));
    let update = connection
        .finish(&batch, Some((cursor, 5)), 9, Ok(Some(vec![1, 2])), true, stream(), id(), 100)
        .unwrap();
    assert_eq!((update.cursor, update.revision, update.content_revision), (cursor, 5, 9));
    assert_eq!((update.closed, update.messages), (false, MAX_BATCH_MESSAGES));
    let checkpoint = update.checkpoint.expect("checkpoint");
    assert_eq!(checkpoint.blob, vec![1, 2]);
    assert_eq!(checkpoint.binding, stream());
    assert_eq!((checkpoint.cursor, checkpoint.revision), (cursor, 5));
    assert_eq!((checkpoint.stream_id.clone(), checkpoint.stream_generation), (id(), 1));
    assert!(checkpoint.source_cursor.is_none() && !checkpoint.omitted);
    assert_eq!(connection.last_saved, Some((cursor, 5)));
    assert_eq!(connection.next_save, 100 + SAVE_INTERVAL_MS);
    let again = connection
        .finish(&batch, Some((cursor, 5)), 9, Ok(Some(vec![3])), true, stream(), id(), 9_000)
        .unwrap();
    assert!(again.checkpoint.is_none());
    assert!(!connection.should_save(&batch, cursor, 6, 101));
    let mut closing = Batch::begin();
    connection.note_read(&mut closing, StreamRead::Message(Some(ConsumerEvent::Closed)));
    assert!(connection.closed);
    assert!(connection.should_save(&closing, cursor, 6, 101));
    assert!(!connection.wants_message(&closing, 0));
    let mut first = CheckpointConnection::attach(None, 0);
    let mut booting = Batch::begin();
    first.note_read(&mut booting, StreamRead::Message(Some(ConsumerEvent::Bootstrapped)));
    first.note_read(&mut booting, StreamRead::Quiet);
    assert!(booting.finished && booting.bootstrapped && !first.closed);
    first.note_read(&mut booting, StreamRead::Ended);
    assert!(first.closed);
}

#[test]
fn unreadable_models_end_a_batch_without_a_save() {
    let cursor = saved().cursor;
    let mut changed = Batch::begin();
    changed.model_changed = true;
    let mut connection = CheckpointConnection::attach(None, 0);
    for (position, blob, prepared) in [
        (None, Ok(Some(vec![1])), true),
        (Some((cursor, 5)), Err(()), true),
    ] {
        let failure = connection
            .finish(&changed, position, 9, blob, prepared, stream(), id(), 7)
            .unwrap_err();
        assert_eq!(failure.kind, ProviderFailureKind::Rejected);
        assert_eq!(failure.message, "Coven terminal checkpoint could not be applied");
        assert_eq!(connection.last_saved, None);
    }
    let quiet = connection
        .finish(&changed, Some((cursor, 5)), 9, Ok(None), true, stream(), id(), 7)
        .unwrap();
    assert!(quiet.checkpoint.is_none());
    assert_eq!(connection.last_saved, None);
    assert!(connection
        .finish(&changed, Some((cursor, 5)), 9, Ok(None), false, stream(), id(), 7)
        .is_err());
    assert!(connection
        .finish(&Batch::begin(), Some((cursor, 5)), 9, Ok(None), false, stream(), id(), 7)
        .is_ok());
}

#[test]
fn checkpoint_outer_fields_must_match_bound_blob() {
    assert!(saved().validate(&bound(), &parsed()).is_ok());

    let mut cursor_tampered = saved();
    cursor_tampered.cursor.offset += 1;
    assert!(cursor_tampered.validate(&bound(), &parsed()).is_err());

    let mut stream_tampered = saved();
    stream_tampered.stream_generation += 1;
    assert!(stream_tampered.validate(&bound(), &parsed()).is_err());
}

#[test]
fn every_torn_field_is_told() {
    assert_eq!(
        saved().validate(&None, &parsed()),
        Err("persisted external checkpoint envelope is invalid")
    );
    let mut state = saved();
    state.cursor.sequence += 1;
    assert_eq!(
        state.validate(&bound(), &parsed()),
        Err("persisted external checkpoint cursor does not match its blob")
    );
    let mut state = saved();
    state.revision += 1;
    assert_eq!(
        state.validate(&bound(), &parsed()),
        Err("persisted external checkpoint revision does not match its blob")
    );
    assert_eq!(
        saved().validate(&bound(), &None),
        Err("persisted external checkpoint stream id does not match its blob")
    );
    let mut state = saved();
    state.stream_generation += 1;
    assert_eq!(
        state.validate(&bound(), &parsed()),
        Err("persisted external checkpoint stream generation does not match its blob")
    );
}

/// Reads a blob from a sequence of zeros that never ends, and counts what it reads.
fn read_endless(announced: Option<usize>) -> (Result<Vec<u8>, BlobError>, usize) {
    let mut observed = 0;
    let mut reader = match BlobReader::begin(announced) {
        Ok(reader) => reader,
        Err(error) => return (Err(error), observed),
    };
    loop {
        observed += 1;
        if let Err(error) = reader.push(0) {
            return (Err(error), observed);
        }
    }
}

#[test]
fn checkpoint_decode_rejects_an_oversized_hint_before_reading_bytes() {
    let (result, observed) = read_endless(Some(usize::MAX));
    assert!(result.is_err());
    assert_eq!(observed, 0);
}

#[test]
fn checkpoint_decode_stops_an_unbounded_sequence_at_the_limit() {
    let (result, observed) = read_endless(None);
    assert!(result.is_err());
    assert_eq!(observed, MAX_EXTERNAL_CHECKPOINT_BLOB_BYTES + 1);
}

#[test]
fn blobs_are_read_back_as_they_are() {
    let mut reader = BlobReader::begin(Some(2)).ok().unwrap();
    reader.push(4).unwrap();
    reader.push(5).unwrap();
    assert_eq!(reader.finish(), Ok(vec![4, 5]));
    let empty = BlobReader::begin(Some(0)).ok().unwrap();
    assert_eq!(empty.finish(), Err(BlobError::Empty));
}

#[test]
fn bindings_survive_a_restart_without_their_runtime_generation() {
    let mut execution = binding();
    execution.runtime_generation = 9;
    execution.pinned_source = Some(SourceIdentity {
        host_id: "host".into(),
        profile_id: "profile".into(),
        ledger_id: "ledger".into(),
        epoch: 3,
    });
    let external = ExternalBinding {
        terminal_id: "coven_terminal-1".into(),
        execution,
    };
    let wire = external.clone().persist();
    let restored = ExternalBinding::restore(wire, true, true).unwrap();
    assert_eq!(restored.execution.runtime_generation, 1);
    assert_eq!(restored.terminal_id, external.terminal_id);
    assert_eq!(restored.execution.pinned_source, external.execution.pinned_source);
    assert_eq!(restored.execution.session_id, "session");

    let refused = |terminal: &str, generation: u64| {
        let wire = BindingWire {
            terminal_id: terminal.into(),
            provider_id: "provider".into(),
            host_id: "host".into(),
            scope: scope(),
            authority: binding().authority,
            session_id: "session".into(),
            generation,
            pinned_source: None,
        };
        ExternalBinding::restore(wire, true, true).err()
    };
    assert_eq!(refused("coven_", 1), Some("invalid external terminal binding id"));
    assert_eq!(refused("native_1", 1), Some("invalid external terminal binding id"));
    assert_eq!(refused("coven_a/b", 1), Some("invalid external terminal binding id"));
    assert_eq!(refused("coven_ab", 0), Some("invalid external execution binding"));
    assert_eq!(refused("coven_ab", 1), None);
}
