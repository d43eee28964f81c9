use herdr::server::pane_batch::{BatchPhase, Carrier, PaneBatch, PaneReply, PaneStep};
use herdr::server::pane_input::{
    AttachScrollDirection, ClientKeyKind, ClientMouseButton, ClientMouseKind,
    ClientMousePosition, ClientPaneInputEvent, MouseReport, PageKey, PaneFacts, WheelRouting,
};

fn facts(routing: Option<WheelRouting>) -> PaneReply {
    PaneReply::Facts(PaneFacts {
        rows: 24,
        sgr_pixel_mouse: false,
        routing,
        page_keys: Some(true),
    })
}

fn mouse(kind: ClientMouseKind) -> ClientPaneInputEvent {
    ClientPaneInputEvent::Mouse {
        kind,
        position: ClientMousePosition::Cell { column: 3, row: 4 },
        geometry: None,
        modifiers: 0,
        lines: 0,
    }
}

fn report(kind: ClientMouseKind) -> MouseReport {
    MouseReport {
        kind,
        position: ClientMousePosition::Cell { column: 3, row: 4 },
        modifiers: 0,
    }
}

fn begin(events: Vec<ClientPaneInputEvent>) -> PaneBatch {
    let (batch, step) = PaneBatch::apply_client_terminal_input_events(events, true);
    assert_eq!(step, PaneStep::Look);
    batch
}

#[test]
fn an_empty_batch_is_finished_at_once() {
    let (batch, step) = PaneBatch::apply_client_terminal_input_events(Vec::new(), true);
    assert_eq!(step, PaneStep::Finished);
    assert_eq!(batch.phase, BatchPhase::Ended);
}

#[test]
fn events_are_dealt_with_one_after_the_other() {
    let page = ClientPaneInputEvent::Key {
        page: Some(PageKey::Down),
        plain: true,
        press: ClientKeyKind::Press,
    };
    let mut batch = begin(vec![
        ClientPaneInputEvent::TextCommit("hé".into()),
        page,
        ClientPaneInputEvent::Paste("clip".into()),
    ]);
    assert_eq!(
        batch.next(facts(None)),
        PaneStep::Send {
            reset: true,
            bytes: "hé".as_bytes().to_vec(),
        }
    );
    assert_eq!(batch.next(PaneReply::Sent(Ok(()))), PaneStep::Look);
    assert_eq!(batch.at, 1);
    assert_eq!(
        batch.next(facts(None)),
        PaneStep::HostScroll {
            direction: AttachScrollDirection::Down,
            lines: 24,
        }
    );
    assert_eq!(batch.next(PaneReply::Done), PaneStep::Look);
    assert_eq!(batch.next(facts(None)), PaneStep::Paste("clip".into()));
    assert_eq!(batch.next(PaneReply::Sent(Ok(()))), PaneStep::Finished);
    assert_eq!(batch.phase, BatchPhase::Ended);
}

#[test]
fn moving_the_mouse_leaves_the_scroll_alone() {
    for (kind, reset) in [
        (ClientMouseKind::Moved, false),
        (ClientMouseKind::Down(ClientMouseButton::Left), true),
        (ClientMouseKind::ScrollLeft, true),
    ] {
        let mut batch = begin(vec![mouse(kind)]);
        assert_eq!(
            batch.next(facts(None)),
            PaneStep::EncodeMouse {
                reset: false,
                report: report(kind),
            }
        );
        assert_eq!(
            batch.next(PaneReply::Encoded(Some(vec![7]))),
            PaneStep::Send {
                reset,
                bytes: vec![7],
            }
        );
    }
    for encoded in [None, Some(Vec::new())] {
        let mut batch = begin(vec![mouse(ClientMouseKind::Moved)]);
        batch.next(facts(None));
        assert_eq!(batch.next(PaneReply::Encoded(encoded)), PaneStep::Finished);
    }
}

#[test]
fn a_wheel_goes_where_the_pane_routes_it() {
    let up = ClientMouseKind::ScrollUp;
    let mut batch = begin(vec![mouse(up), mouse(up)]);
    assert_eq!(
        batch.next(facts(Some(WheelRouting::MouseReport))),
        PaneStep::EncodeMouse {
            reset: true,
            report: report(up),
        }
    );
    assert_eq!(
        batch.next(PaneReply::Encoded(None)),
        PaneStep::Failed("failed to encode terminal attach mouse wheel event: ScrollUp".into())
    );
    assert_eq!(batch.phase, BatchPhase::Ended);

    let mut batch = begin(vec![mouse(up), mouse(up)]);
    assert_eq!(
        batch.next(facts(Some(WheelRouting::AlternateScroll))),
        PaneStep::EncodeAlternate(AttachScrollDirection::Up)
    );
    assert_eq!(batch.next(PaneReply::Encoded(None)), PaneStep::Look);
    assert_eq!(
        batch.next(facts(None)),
        PaneStep::HostScroll {
            direction: AttachScrollDirection::Up,
            lines: 1,
        }
    );
}

#[test]
fn a_failure_says_what_could_not_be_sent_and_ends_the_batch() {
    let key = || ClientPaneInputEvent::Key {
        page: None,
        plain: true,
        press: ClientKeyKind::Press,
    };
    let press = ClientMouseKind::Down(ClientMouseButton::Left);
    let wheel = ClientMouseKind::ScrollDown;
    let report_wheel = Some(WheelRouting::MouseReport);
    let alternate = Some(WheelRouting::AlternateScroll);
    for (event, routing, carrier, complaint) in [
        (mouse(press), None, Carrier::Mouse, "targeted pane mouse input failed: gone"),
        (key(), None, Carrier::Key, "targeted pane key input failed: gone"),
        (
            mouse(wheel),
            report_wheel,
            Carrier::Wheel,
            "terminal attach mouse wheel input failed: gone",
        ),
        (
            mouse(wheel),
            alternate,
            Carrier::Alternate,
            "terminal attach alternate scroll input failed: gone",
        ),
        (
            ClientPaneInputEvent::TextCommit("t".into()),
            None,
            Carrier::Text,
            "targeted pane text input failed: gone",
        ),
        (
            ClientPaneInputEvent::Paste("t".into()),
            None,
            Carrier::Paste,
            "targeted pane paste failed: gone",
        ),
    ] {
        let mut batch = begin(vec![event, key()]);
        batch.next(facts(routing));
        if matches!(batch.phase, BatchPhase::Encoding(_)) {
            batch.next(PaneReply::Encoded(Some(vec![1])));
        }
        assert_eq!(batch.phase, BatchPhase::Sending(carrier));
        assert_eq!(
            batch.next(PaneReply::Sent(Err("gone".into()))),
            PaneStep::Failed(complaint.into())
        );
        assert_eq!((batch.phase, batch.at), (BatchPhase::Ended, 0));
    }
    let mut batch = begin(vec![ClientPaneInputEvent::Host]);
    assert_eq!(
        batch.next(facts(None)),
        PaneStep::Failed("non-pane input reached targeted pane input".into())
    );
}
