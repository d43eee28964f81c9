use herdr::external_renderer::{ExternalModes, ExternalMouseMode};
use herdr::server::pane_input::{
    apply_client_terminal_input_event, apply_scroll, apply_terminal_attach_input,
    apply_terminal_attach_scroll,
    downgrade_ineligible_pixel_mouse, encode_external_client_input, external_input_piece,
    mouse_send, terminal_attach_mouse_position, wheel_bytes, AttachScrollDirection,
    AttachScrollSource, AttachedInput, ClientKeyKind, ClientMouseButton, ClientMouseGeometry,
    ClientMouseKind, ClientMousePosition, ClientPaneInputEvent, ExternalPiece, HostMapping,
    HostMouse, MouseProtocolEncoding, MouseReport, PageKey, PaneAction, PaneFacts,
    RuntimeSurface, ScrollPlan, WheelRouting, MAX_EXTERNAL_INPUT,
};

fn modes(mouse: ExternalMouseMode, sgr_pixel_mouse: bool, bracketed_paste: bool) -> ExternalModes {
    ExternalModes {
        alternate_screen: false,
        line_wrap: true,
        origin: false,
        insert: false,
        mouse,
        sgr_pixel_mouse,
        focus_reporting: false,
        bracketed_paste,
        synchronized_output: false,
    }
}

fn geometry() -> ClientMouseGeometry {
    ClientMouseGeometry {
        cols: 20,
        rows: 5,
        width_px: 200,
        height_px: 100,
    }
}

fn pixels() -> ClientMousePosition {
    ClientMousePosition::Pixels {
        x: 121,
        y: 81,
        column: 12,
        row: 4,
    }
}

fn mouse(kind: ClientMouseKind, position: ClientMousePosition) -> ClientPaneInputEvent {
    ClientPaneInputEvent::Mouse {
        kind,
        position,
        geometry: Some(geometry()),
        modifiers: 0,
        lines: 1,
    }
}

/// The SGR report of a pressed button, and the byte of Ctrl-C: what a host encodes.
fn host_encoding(piece: &ExternalPiece) -> Vec<u8> {
    match piece {
        ExternalPiece::Key => vec![0x03],
        ExternalPiece::Mouse {
            kind: ClientMouseKind::Down(ClientMouseButton::Left),
            column,
            row,
            modifiers: 0,
            encoding: MouseProtocolEncoding::Default,
        } => format!("\x1b[<0;{};{}M", column + 1, row + 1).into_bytes(),
        _ => Vec::new(),
    }
}

fn encode(
    events: &Vec<ClientPaneInputEvent>,
    modes: ExternalModes,
) -> Result<Vec<u8>, &'static str> {
    let encoded: Vec<Vec<u8>> = events
        .iter()
        .map(|event| host_encoding(&external_input_piece(event, modes, 20, 4)))
        .collect();
    encode_external_client_input(events, modes, 20, 4, &encoded)
}

#[test]
fn external_input_uses_checkpoint_modes_and_legacy_bytes() {
    let events = vec![
        ClientPaneInputEvent::TextCommit("typed".into()),
        ClientPaneInputEvent::Paste("clip".into()),
        ClientPaneInputEvent::Key {
            page: None,
            plain: false,
            press: ClientKeyKind::Press,
        },
        ClientPaneInputEvent::Mouse {
            kind: ClientMouseKind::Down(ClientMouseButton::Left),
            position: ClientMousePosition::Cell { column: 2, row: 1 },
            geometry: None,
            modifiers: 0,
            lines: 1,
        },
    ];
    assert_eq!(
        encode(&events, modes(ExternalMouseMode::Button, false, true)).expect("encoded input"),
        b"typed\x1b[200~clip\x1b[201~\x03\x1b[<0;3;2M"
    );
}

#[test]
fn external_input_drops_motion_without_a_matching_mouse_mode() {
    let event = ClientPaneInputEvent::Mouse {
        kind: ClientMouseKind::Moved,
        position: ClientMousePosition::Cell { column: 2, row: 1 },
        geometry: None,
        modifiers: 0,
        lines: 1,
    };
    assert!(encode(&vec![event], modes(ExternalMouseMode::Off, false, false))
        .expect("encoded input")
        .is_empty());
}

#[test]
fn terminal_attach_stale_geometry_falls_back_to_the_canonical_cell() {
    let surface = RuntimeSurface {
        size: (5, 20),
        pixels: None,
        sgr_pixel_mouse: false,
    };
    let host = HostMouse {
        terminal_size: (20, 5),
        cell_size: Some((10, 20)),
        pixel_mouse: true,
        sgr_pixels_active: false,
    };
    assert_eq!(
        terminal_attach_mouse_position(
            surface,
            host,
            pixels(),
            Some(geometry()),
            HostMapping {
                valid: true,
                cell: Some((12, 4)),
                pane_pixel: None,
            },
        ),
        Some(ClientMousePosition::Cell { column: 12, row: 4 })
    );
    assert_eq!(
        terminal_attach_mouse_position(
            surface,
            host,
            ClientMousePosition::Pixels {
                x: 120,
                y: 80,
                column: 12,
                row: 4,
            },
            Some(geometry()),
            HostMapping {
                valid: true,
                cell: Some((11, 3)),
                pane_pixel: None,
            },
        ),
        None
    );
    assert_eq!(
        terminal_attach_mouse_position(
            surface,
            HostMouse {
                terminal_size: (80, 24),
                cell_size: None,
                pixel_mouse: false,
                sgr_pixels_active: false,
            },
            ClientMousePosition::Cell { column: 12, row: 4 },
            None,
            HostMapping {
                valid: false,
                cell: None,
                pane_pixel: None,
            },
        ),
        Some(ClientMousePosition::Cell { column: 12, row: 4 })
    );
}

#[test]
fn attached_pixels_stay_exact_where_both_sides_count_alike() {
    let surface = RuntimeSurface {
        size: (5, 20),
        pixels: Some((200, 100)),
        sgr_pixel_mouse: true,
    };
    let host = HostMouse {
        terminal_size: (20, 5),
        cell_size: Some((10, 20)),
        pixel_mouse: true,
        sgr_pixels_active: true,
    };
    let mapping = HostMapping {
        valid: true,
        cell: Some((12, 4)),
        pane_pixel: Some((121, 81)),
    };
    assert_eq!(
        terminal_attach_mouse_position(surface, host, pixels(), Some(geometry()), mapping),
        Some(pixels())
    );
    let coarse = HostMouse {
        cell_size: Some((9, 20)),
        ..host
    };
    assert_eq!(
        terminal_attach_mouse_position(surface, coarse, pixels(), Some(geometry()), mapping),
        Some(ClientMousePosition::Cell { column: 12, row: 4 })
    );
    assert_eq!(
        terminal_attach_mouse_position(
            surface,
            host,
            ClientMousePosition::Cell { column: 20, row: 4 },
            None,
            mapping
        ),
        None
    );
}

#[test]
fn ineligible_shell_pixel_mouse_uses_its_canonical_cell_position() {
    let mut events = vec![mouse(ClientMouseKind::Down(ClientMouseButton::Left), pixels())];

    downgrade_ineligible_pixel_mouse(&mut events, false, (5, 20), Some((200, 100)));

    assert!(matches!(
        events.as_slice(),
        [ClientPaneInputEvent::Mouse {
            position: ClientMousePosition::Cell { column: 12, row: 4 },
            ..
        }]
    ));
}

#[test]
fn eligible_shell_pixel_mouse_remains_exact() {
    let position = pixels();
    let mut events = vec![mouse(ClientMouseKind::Moved, position)];

    downgrade_ineligible_pixel_mouse(&mut events, true, (5, 20), Some((200, 100)));

    assert!(matches!(
        events.as_slice(),
        [ClientPaneInputEvent::Mouse {
            position: current,
            ..
        }] if *current == position
    ));
}

#[test]
fn stale_shell_pixel_geometry_downgrades_to_its_canonical_cell() {
    let mut events = vec![mouse(ClientMouseKind::Moved, pixels())];

    downgrade_ineligible_pixel_mouse(&mut events, true, (6, 20), Some((200, 120)));

    assert!(matches!(
        events.as_slice(),
        [ClientPaneInputEvent::Mouse {
            position: ClientMousePosition::Cell { column: 12, row: 4 },
            geometry: None,
            ..
        }]
    ));
}

#[test]
fn external_mouse_must_lie_in_the_terminal_and_its_surface() {
    let all = modes(ExternalMouseMode::AllMotion, true, false);
    let far = mouse(
        ClientMouseKind::Moved,
        ClientMousePosition::Cell { column: 20, row: 0 },
    );
    assert_eq!(external_input_piece(&far, all, 20, 4), ExternalPiece::Nothing);
    let outside = mouse(
        ClientMouseKind::Moved,
        ClientMousePosition::Pixels {
            x: 201,
            y: 1,
            column: 1,
            row: 1,
        },
    );
    assert_eq!(
        external_input_piece(&outside, all, 20, 4),
        ExternalPiece::Nothing
    );
    let huge = ClientPaneInputEvent::Mouse {
        kind: ClientMouseKind::Moved,
        position: ClientMousePosition::Pixels {
            x: 70_000,
            y: 3,
            column: 1,
            row: 1,
        },
        geometry: None,
        modifiers: 0x85,
        lines: 1,
    };
    assert_eq!(
        external_input_piece(&huge, all, 20, 4),
        ExternalPiece::Mouse {
            kind: ClientMouseKind::Moved,
            column: u16::MAX,
            row: 3,
            modifiers: 5,
            encoding: MouseProtocolEncoding::SgrPixels,
        }
    );
    let drag = mouse(
        ClientMouseKind::Drag(ClientMouseButton::Right),
        ClientMousePosition::Cell { column: 1, row: 1 },
    );
    assert_eq!(
        external_input_piece(&drag, modes(ExternalMouseMode::Button, false, false), 20, 4),
        ExternalPiece::Nothing
    );
    assert!(matches!(
        external_input_piece(&drag, modes(ExternalMouseMode::CellMotion, false, false), 20, 4),
        ExternalPiece::Mouse { .. }
    ));
}

#[test]
fn external_requests_are_bounded() {
    let off = modes(ExternalMouseMode::Off, false, false);
    let fits = vec![ClientPaneInputEvent::TextCommit("x".repeat(MAX_EXTERNAL_INPUT))];
    assert_eq!(encode(&fits, off).unwrap().len(), MAX_EXTERNAL_INPUT);
    let large = vec![ClientPaneInputEvent::TextCommit(
        "x".repeat(MAX_EXTERNAL_INPUT + 1),
    )];
    assert_eq!(
        encode(&large, off),
        Err("external terminal input exceeded the bounded request size")
    );
    let text = vec![
        ClientPaneInputEvent::TextCommit("\u{e9}".into()),
        ClientPaneInputEvent::Host,
        ClientPaneInputEvent::Paste("p".into()),
    ];
    assert_eq!(encode(&text, off).unwrap(), b"\xc3\xa9p");
}

#[test]
fn scrolls_go_where_the_pane_wants_them() {
    assert_eq!(
        apply_scroll(
            AttachScrollSource::PageKey { input: vec![1, 2] },
            AttachScrollDirection::Up,
            0,
            None,
            Some(true)
        ),
        ScrollPlan::Host {
            direction: AttachScrollDirection::Up,
            lines: 1
        }
    );
    assert_eq!(
        apply_scroll(
            AttachScrollSource::PageKey { input: vec![1, 2] },
            AttachScrollDirection::Up,
            3,
            Some(WheelRouting::HostScroll),
            None
        ),
        ScrollPlan::Input(vec![1, 2])
    );
    assert_eq!(
        apply_scroll(
            AttachScrollSource::Wheel,
            AttachScrollDirection::Down,
            3,
            Some(WheelRouting::MouseReport),
            Some(true)
        ),
        ScrollPlan::Report(AttachScrollDirection::Down)
    );
    assert_eq!(
        apply_scroll(
            AttachScrollSource::Wheel,
            AttachScrollDirection::Down,
            3,
            Some(WheelRouting::AlternateScroll),
            None
        ),
        ScrollPlan::Alternate(AttachScrollDirection::Down)
    );
    assert_eq!(
        apply_scroll(AttachScrollSource::Wheel, AttachScrollDirection::Up, 7, None, None),
        ScrollPlan::Host {
            direction: AttachScrollDirection::Up,
            lines: 7
        }
    );
    assert_eq!(
        wheel_bytes(AttachScrollDirection::Down, None),
        Err("failed to encode terminal attach mouse wheel event: ScrollDown")
    );
    assert_eq!(wheel_bytes(AttachScrollDirection::Up, Some(vec![9])), Ok(vec![9]));
}

#[test]
fn pane_events_become_actions() {
    let facts = PaneFacts {
        rows: 24,
        sgr_pixel_mouse: false,
        routing: Some(WheelRouting::MouseReport),
        page_keys: Some(true),
    };
    let page = |press| ClientPaneInputEvent::Key {
        page: Some(PageKey::Down),
        plain: true,
        press,
    };
    assert_eq!(
        apply_client_terminal_input_event(&page(ClientKeyKind::Press), facts, true),
        PaneAction::HostScroll {
            direction: AttachScrollDirection::Down,
            lines: 24
        }
    );
    assert_eq!(
        apply_client_terminal_input_event(&page(ClientKeyKind::Release), facts, true),
        PaneAction::Ignore
    );
    assert_eq!(
        apply_client_terminal_input_event(&page(ClientKeyKind::Press), facts, false),
        PaneAction::Key
    );
    assert_eq!(
        apply_client_terminal_input_event(&mouse(ClientMouseKind::ScrollUp, pixels()), facts, true),
        PaneAction::Scroll(
            ScrollPlan::Report(AttachScrollDirection::Up),
            MouseReport {
                kind: ClientMouseKind::ScrollUp,
                position: ClientMousePosition::Cell { column: 12, row: 4 },
                modifiers: 0
            }
        )
    );
    assert_eq!(
        apply_client_terminal_input_event(
            &mouse(ClientMouseKind::ScrollLeft, pixels()),
            PaneFacts {
                sgr_pixel_mouse: true,
                ..facts
            },
            true
        ),
        PaneAction::Mouse(MouseReport {
            kind: ClientMouseKind::ScrollLeft,
            position: pixels(),
            modifiers: 0
        })
    );
    assert_eq!(
        apply_client_terminal_input_event(&ClientPaneInputEvent::TextCommit("t".into()), facts, true),
        PaneAction::Bytes(b"t".to_vec())
    );
    assert_eq!(
        apply_client_terminal_input_event(&ClientPaneInputEvent::Paste("p".into()), facts, true),
        PaneAction::Paste("p".into())
    );
    assert_eq!(
        apply_client_terminal_input_event(&ClientPaneInputEvent::Host, facts, true),
        PaneAction::Refuse
    );
    assert_eq!(mouse_send(ClientMouseKind::Moved, Some(vec![1])), Some((false, vec![1])));
    assert_eq!(mouse_send(ClientMouseKind::ScrollLeft, Some(vec![1])), Some((true, vec![1])));
    assert_eq!(mouse_send(ClientMouseKind::Moved, Some(Vec::new())), None);
    assert_eq!(mouse_send(ClientMouseKind::Moved, None), None);
    assert_eq!(
        apply_terminal_attach_input(b"raw".to_vec(), None),
        AttachedInput::Bytes(b"raw".to_vec())
    );
    assert_eq!(
        apply_terminal_attach_input(b"raw".to_vec(), Some("text".into())),
        AttachedInput::Paste("text".into())
    );
}

#[test]
fn bits_that_are_no_modifier_are_left_out() {
    for (given, kept) in [(0x80, 0), (0xff, 0x3f), (0x3f, 0x3f), (0x45, 5)] {
        let event = ClientPaneInputEvent::Mouse {
            kind: ClientMouseKind::Moved,
            position: ClientMousePosition::Cell { column: 1, row: 2 },
            geometry: None,
            modifiers: given,
            lines: 1,
        };
        let facts = PaneFacts {
            rows: 24,
            sgr_pixel_mouse: false,
            routing: None,
            page_keys: None,
        };
        assert!(matches!(
            apply_client_terminal_input_event(&event, facts, false),
            PaneAction::Mouse(report) if report.modifiers == kept
        ));
    }
}

#[test]
fn an_attached_scroll_is_told_in_a_cell() {
    let scroll = |source, routing, page_keys| {
        apply_terminal_attach_scroll(
            source,
            AttachScrollDirection::Down,
            0,
            Some(7),
            None,
            0x81,
            routing,
            page_keys,
        )
    };
    let (plan, report) = scroll(
        AttachScrollSource::Wheel,
        Some(WheelRouting::MouseReport),
        None,
    );
    assert_eq!(plan, ScrollPlan::Report(AttachScrollDirection::Down));
    assert_eq!(
        report,
        MouseReport {
            kind: ClientMouseKind::ScrollDown,
            position: ClientMousePosition::Cell { column: 7, row: 0 },
            modifiers: 1,
        }
    );
    let (plan, _) = scroll(
        AttachScrollSource::PageKey { input: vec![27] },
        None,
        Some(false),
    );
    assert_eq!(plan, ScrollPlan::Input(vec![27]));
    let (plan, _) = scroll(AttachScrollSource::Wheel, None, None);
    assert_eq!(
        plan,
        ScrollPlan::Host {
            direction: AttachScrollDirection::Down,
            lines: 1
        }
    );
}
