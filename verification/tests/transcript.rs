use herdr::coven::{
    ContractError, ExecutionAuthority, ExecutionScope, SourceCursor, SourceHealth, SourceIdentity,
    SourceLifecycle, SourceProjection, TranscriptChunk, TranscriptContent, TranscriptReply,
    TranscriptResult, WriterState,
};
use herdr::runtime_provider::transcript::{
    display_characters, is_unicode_format_control, TranscriptApply, TranscriptApplyError,
    TranscriptProjection, MAX_RETAINED_LOGICAL_LINES, MAX_RETAINED_TEXT_BYTES,
};
use herdr::runtime_provider::ProviderBinding;

const MAX_CHUNKS: u16 = 256;

const MAX_CHUNK_BYTES: usize = 64 * 1024;

fn binding() -> ProviderBinding {
    ProviderBinding::new(
        "coven-test",
        "host".into(),
        ExecutionScope {
            project_id: "project".into(),
            profile_id: "profile".into(),
            policy_generation: 1,
        },
        ExecutionAuthority {
            id: "authority".into(),
            generation: 1,
        },
        "session".into(),
        1,
        7,
        true,
        true,
    )
    .expect("binding")
}

fn source() -> SourceIdentity {
    SourceIdentity {
        host_id: "host".into(),
        profile_id: "profile".into(),
        ledger_id: "ledger".into(),
        epoch: 1,
    }
}

fn cursor(after_seq: i64, revision: u64) -> SourceCursor {
    SourceCursor {
        ledger_id: source().ledger_id,
        epoch: 1,
        after_seq,
        revision,
    }
}

fn reply(result: TranscriptResult) -> TranscriptReply {
    TranscriptReply {
        source: source(),
        health: SourceHealth {
            daemon_live: true,
            writer_state: WriterState::Healthy,
            writer_queued_bytes: None,
            writer_dropped_output_bytes: None,
        },
        projection: SourceProjection {
            lifecycle: SourceLifecycle::Running,
            exit_code: None,
            archived: false,
            dropped_output_bytes: None,
        },
        result,
    }
}

fn text(seq: i64, data: &str) -> TranscriptChunk {
    TranscriptChunk {
        seq,
        content: TranscriptContent::Text {
            data: data.to_owned(),
            omitted_prefix_bytes: 0,
        },
    }
}

fn snapshot(after_seq: i64, revision: u64, chunks: Vec<TranscriptChunk>) -> TranscriptReply {
    reply(TranscriptResult::Snapshot {
        cursor: cursor(after_seq, revision),
        chunks,
        prefix_omitted: false,
    })
}

fn page(after: i64, revision: u64, chunks: Vec<TranscriptChunk>) -> TranscriptReply {
    let next = chunks.last().map_or(after, |chunk| chunk.seq);
    reply(TranscriptResult::Page {
        after: cursor(after, revision),
        cursor: cursor(next, revision),
        chunks,
        has_more: false,
    })
}

fn elsewhere(mut reply: TranscriptReply) -> TranscriptReply {
    reply.source.ledger_id = "other-ledger".into();
    if let TranscriptResult::Snapshot { cursor, .. } = &mut reply.result {
        cursor.ledger_id = "other-ledger".into();
    }
    reply
}

/// What the daemon's contract asks of the sequence numbers of a reply.
fn contract(reply: &TranscriptReply) -> Result<(), ContractError> {
    let (mut last, end, chunks) = match &reply.result {
        TranscriptResult::Reset => return Ok(()),
        TranscriptResult::Snapshot { cursor, chunks, .. } => (0, cursor.after_seq, chunks),
        TranscriptResult::Page {
            after,
            cursor,
            chunks,
            ..
        } => (after.after_seq, cursor.after_seq, chunks),
    };
    for chunk in chunks {
        if chunk.seq <= last || chunk.seq > end {
            return Err(ContractError { code: 1 });
        }
        last = chunk.seq;
    }
    if chunks.len() > usize::from(MAX_CHUNKS) {
        return Err(ContractError { code: 2 });
    }
    Ok(())
}

fn apply(
    projection: &mut TranscriptProjection,
    reply: &TranscriptReply,
    runtime_generation: u64,
) -> Result<TranscriptApply, TranscriptApplyError> {
    projection.apply(reply, runtime_generation, contract(reply))
}

fn after_seq(projection: &TranscriptProjection) -> Option<i64> {
    projection.cursor().map(|value| value.after_seq)
}

#[test]
fn snapshot_and_page_are_ordered_and_shared_lines_are_borrowed() {
    let mut projection = TranscriptProjection::new(binding());
    let first = snapshot(1, 1, vec![text(1, "one\n")]);
    let applied = apply(&mut projection, &first, 7).expect("snapshot");
    assert_eq!(applied.content_revision, 2);
    assert_eq!(
        projection
            .lines()
            .iter()
            .map(|line| line.as_str())
            .collect::<Vec<_>>(),
        ["one", ""]
    );

    let second = page(1, 1, vec![text(2, "two")]);
    apply(&mut projection, &second, 7).expect("page");
    assert_eq!(projection.read_lines(1)[0].as_str(), "two");
    assert_eq!(projection.lines().len(), projection.line_count());
    assert_eq!(projection.content_revision() % 2, 0);
}

#[test]
fn unchanged_and_backward_pages_do_not_mutate_the_projection() {
    let mut projection = TranscriptProjection::new(binding());
    apply(&mut projection, &snapshot(1, 1, vec![text(1, "one")]), 7).expect("snapshot");
    let before = projection.clone();

    let unchanged = apply(&mut projection, &page(1, 1, vec![]), 7).expect("unchanged page");
    assert!(!unchanged.appended);
    assert_eq!(unchanged.content_revision, before.content_revision());
    assert_eq!(projection, before);
    assert!(matches!(
        apply(&mut projection, &page(1, 1, vec![text(1, "again")]), 7),
        Err(TranscriptApplyError::InvalidReply(_))
    ));
    assert_eq!(projection, before);
    assert!(matches!(
        apply(&mut projection, &page(1, 1, vec![text(3, "three")]), 7),
        Ok(TranscriptApply { .. })
    ));
    assert_eq!(after_seq(&projection), Some(3));
}

#[test]
fn filtered_source_sequence_gaps_do_not_infer_loss() {
    let mut projection = TranscriptProjection::new(binding());
    apply(
        &mut projection,
        &snapshot(4, 1, vec![text(1, "one"), text(4, "four")]),
        7,
    )
    .expect("gapped snapshot");
    assert_eq!(after_seq(&projection), Some(4));
    apply(&mut projection, &page(4, 1, vec![text(7, "seven")]), 7).expect("gapped page");
    assert_eq!(after_seq(&projection), Some(7));
    assert!(!projection.has_omissions());
}

#[test]
fn out_of_order_snapshot_sequences_are_rejected_without_mutation() {
    let mut projection = TranscriptProjection::new(binding());
    let invalid = snapshot(4, 1, vec![text(3, "three"), text(2, "two")]);
    assert!(matches!(
        apply(&mut projection, &invalid, 7),
        Err(TranscriptApplyError::InvalidReply(_))
            | Err(TranscriptApplyError::SequenceBackwards { .. })
    ));
    assert!(projection.cursor().is_none());
    // The projection looks at the sequence itself, whatever the contract says of it.
    assert!(matches!(
        projection.apply(&invalid, 7, Ok(())),
        Err(TranscriptApplyError::SequenceBackwards { .. })
    ));
    assert!(projection.cursor().is_none());
}

#[test]
fn backward_snapshot_is_rejected_without_mutation() {
    let mut projection = TranscriptProjection::new(binding());
    apply(&mut projection, &snapshot(3, 2, vec![text(3, "three")]), 7).expect("snapshot");
    let before = projection.clone();
    assert!(matches!(
        apply(&mut projection, &snapshot(2, 1, vec![text(2, "two")]), 7),
        Err(TranscriptApplyError::RevisionWentBackwards)
            | Err(TranscriptApplyError::SequenceBackwards { .. })
            | Err(TranscriptApplyError::InvalidReply(_))
    ));
    assert_eq!(projection, before);
}

#[test]
fn page_with_source_cursor_progress_but_no_output_is_accepted() {
    let mut projection = TranscriptProjection::new(binding());
    apply(&mut projection, &snapshot(1, 1, vec![text(1, "one")]), 7).expect("snapshot");
    let empty_progress = reply(TranscriptResult::Page {
        after: cursor(1, 1),
        cursor: cursor(3, 1),
        chunks: vec![],
        has_more: false,
    });
    apply(&mut projection, &empty_progress, 7).expect("progress");
    assert_eq!(after_seq(&projection), Some(3));
}

#[test]
fn source_and_runtime_generation_are_fenced() {
    let mut projection = TranscriptProjection::new(binding());
    let first = snapshot(1, 1, vec![text(1, "one")]);
    assert_eq!(
        apply(&mut projection, &first, 8),
        Err(TranscriptApplyError::RuntimeGenerationMismatch)
    );
    assert!(projection.source().is_none());

    let wrong_source = elsewhere(first);
    apply(&mut projection, &wrong_source, 7).expect("fresh source");
    let page_reply = page(1, 1, vec![text(2, "two")]);
    assert!(matches!(
        apply(&mut projection, &page_reply, 7),
        Err(TranscriptApplyError::SourceIdentityMismatch)
    ));
}

#[test]
fn source_pin_rejects_first_reply_from_another_ledger() {
    let pinned = binding().with_pinned_source(Some(source())).expect("pin");
    let mut projection = TranscriptProjection::new(pinned);
    let wrong_source = elsewhere(snapshot(1, 1, vec![text(1, "one")]));
    assert_eq!(
        apply(&mut projection, &wrong_source, 7),
        Err(TranscriptApplyError::SourceIdentityMismatch)
    );
}

#[test]
fn malformed_page_is_rejected_without_mutation() {
    let mut projection = TranscriptProjection::new(binding());
    apply(&mut projection, &snapshot(1, 1, vec![text(1, "one")]), 7).expect("snapshot");
    let before = projection.clone();
    let malformed = page(1, 1, vec![text(2, "two")]);
    assert!(matches!(
        projection.apply(&malformed, 7, Err(ContractError { code: 3 })),
        Err(TranscriptApplyError::InvalidReply(ContractError { code: 3 }))
    ));
    assert_eq!(projection, before);
}

#[test]
fn reset_reanchors_and_replaces_the_old_revision() {
    let mut projection = TranscriptProjection::new(binding());
    apply(&mut projection, &snapshot(1, 1, vec![text(1, "old")]), 7).expect("snapshot");
    let old_revision = projection.content_revision();
    let reset = reply(TranscriptResult::Reset);
    apply(&mut projection, &reset, 7).expect("reset");
    assert!(projection.lines().is_empty());
    assert!(projection.cursor().is_none());
    assert!(projection.content_revision() > old_revision);

    apply(&mut projection, &snapshot(1, 2, vec![text(1, "new")]), 7).expect("new snapshot");
    assert_eq!(projection.lines()[0].as_str(), "new");
}

#[test]
fn controls_and_format_characters_are_escaped_but_lf_remains() {
    let mut projection = TranscriptProjection::new(binding());
    apply(
        &mut projection,
        &snapshot(1, 1, vec![text(1, "ok\t\n\r\x1b\u{0000}\u{200d}")]),
        7,
    )
    .expect("snapshot");
    assert_eq!(projection.lines()[0].as_str(), "ok\\t");
    assert_eq!(projection.lines()[1].as_str(), "\\r\\u{1b}\\u{0}\\u{200d}");
}

#[test]
fn byte_and_line_caps_are_bounded_and_report_omissions() {
    let mut projection = TranscriptProjection::new(binding());
    let data = "x".repeat(MAX_CHUNK_BYTES);
    apply(&mut projection, &snapshot(1, 1, vec![text(1, &data)]), 7).expect("snapshot");
    for sequence in 2..=5 {
        apply(
            &mut projection,
            &page(sequence - 1, 1, vec![text(sequence, &data)]),
            7,
        )
        .expect("bounded page");
    }
    assert!(projection.retained_text_bytes() <= MAX_RETAINED_TEXT_BYTES);
    assert!(projection.has_omissions());
    assert!(projection.omissions().bytes > 0);

    let mut bounded = TranscriptProjection::new(binding());
    let total_lines = MAX_RETAINED_LOGICAL_LINES + 8;
    let per_response = usize::from(MAX_CHUNKS);
    let mut start = 1usize;
    while start <= total_lines {
        let end = (start + per_response - 1).min(total_lines);
        let chunks = (start..=end)
            .map(|sequence| text(i64::try_from(sequence).expect("seq"), "line\n"))
            .collect();
        let response = if start == 1 {
            snapshot(i64::try_from(end).expect("seq"), 1, chunks)
        } else {
            page(i64::try_from(start - 1).expect("seq"), 1, chunks)
        };
        apply(&mut bounded, &response, 7).expect("bounded lines");
        start = end + 1;
    }
    assert!(bounded.line_count() <= MAX_RETAINED_LOGICAL_LINES);
    assert!(bounded.omissions().lines > 0);
}

#[test]
fn known_source_drops_mark_the_projection_incomplete() {
    let mut projection = TranscriptProjection::new(binding());
    let mut response = snapshot(1, 1, vec![text(1, "retained")]);
    response.projection.dropped_output_bytes = Some(12);

    assert!(!projection.has_omissions());
    apply(&mut projection, &response, 7).expect("snapshot");
    assert_eq!(projection.source_dropped_output_bytes(), Some(12));
    assert!(projection.has_omissions());
}

#[test]
fn refused_replies_change_nothing_at_all() {
    let mut projection = TranscriptProjection::new(binding());
    let mut early = page(1, 1, vec![text(2, "two")]);
    early.projection.dropped_output_bytes = Some(5);
    let before = projection.clone();
    assert_eq!(
        apply(&mut projection, &early, 7),
        Err(TranscriptApplyError::MissingCursor)
    );
    assert_eq!(projection, before);
    assert_eq!(projection.source_dropped_output_bytes(), None);
    apply(&mut projection, &snapshot(3, 2, vec![text(3, "three")]), 7).expect("snapshot");
    let before = projection.clone();
    assert_eq!(
        projection.apply(&page(1, 2, vec![text(4, "four")]), 7, Ok(())),
        Err(TranscriptApplyError::CursorMismatch)
    );
    assert_eq!(projection, before);
}

#[test]
fn errors_are_told_in_words() {
    assert_eq!(
        TranscriptApplyError::SequenceBackwards {
            expected: 4,
            actual: -2
        }
        .message(""),
        "Coven transcript sequence moved backwards: expected at least 4, got -2"
    );
    assert_eq!(
        TranscriptApplyError::InvalidReply(ContractError { code: 1 }).message("bad"),
        "invalid Coven transcript reply: bad"
    );
    assert_eq!(
        TranscriptApplyError::MissingCursor.message("x"),
        "Coven transcript has no cursor to page from"
    );
}

#[test]
fn reads_ask_from_the_known_position() {
    let mut projection = TranscriptProjection::new(binding());
    let next = page(1, 1, vec![]);
    assert!(projection.expected_read(&next, 9).is_none());
    let first = snapshot(1, 1, vec![text(1, "one")]);
    let read = projection.expected_read(&first, 9).unwrap();
    assert_eq!((read.cursor, read.limit), (None, 9));
    apply(&mut projection, &first, 7).expect("snapshot");
    let read = projection.expected_read(&next, 9).unwrap();
    assert_eq!(read.cursor, Some(cursor(1, 1)));
    assert_eq!(read.session_id, "session");
}

#[test]
fn format_characters_are_escaped_one_by_one() {
    assert!(is_unicode_format_control('\u{200b}'));
    assert!(!is_unicode_format_control('a'));
    assert_eq!(display_characters('a'), vec!['a']);
    let escaped: String = display_characters('\u{feff}').into_iter().collect();
    assert_eq!(escaped, "\\u{feff}");
}

#[test]
fn omitted_chunks_are_counted() {
    let mut projection = TranscriptProjection::new(binding());
    let chunks = vec![
        TranscriptChunk {
            seq: 1,
            content: TranscriptContent::Omitted,
        },
        TranscriptChunk {
            seq: 2,
            content: TranscriptContent::Text {
                data: "tail".into(),
                omitted_prefix_bytes: 10,
            },
        },
    ];
    let report = apply(&mut projection, &snapshot(2, 1, chunks), 7).expect("snapshot");
    assert!(report.replaced);
    assert_eq!(report.omitted_chunks, 1);
    assert!(projection.has_omissions());
}
