use base64::engine::general_purpose::STANDARD;
use base64::Engine;
use herdr::protocol::surface::{
    cell_count, encode_surface, framed_within, open_surface, restore_surface, surface_buffer,
    CoreReading, FrameData, FrameLimits, FramingError, LimitedBuffer, Normalized, OpenedSurface,
    PaneSurfacePatchRow, ServerMessage, SurfaceCodec, SURFACE_CODEC_V1, SURFACE_CODEC_V2,
};

const MAX_FRAME_SIZE: usize = 2 * 1024 * 1024;

const LIMITS: FrameLimits = FrameLimits {
    ordinary: MAX_FRAME_SIZE,
    graphics: 32 * 1024 * 1024,
};

const CORE: &[u8] = b"the message as version 1 writes it";

fn frame() -> FrameData {
    FrameData {
        width: 2,
        height: 1,
        cells: vec![1, 1],
    }
}

fn surface() -> ServerMessage {
    ServerMessage::PaneSurface {
        frame: frame(),
        popup: Some(FrameData {
            width: 2,
            height: 1,
            cells: vec![2, 0],
        }),
    }
}

fn patch() -> ServerMessage {
    ServerMessage::PaneSurfacePatch {
        rows: vec![
            PaneSurfacePatchRow {
                x: 5,
                y: 3,
                cells: vec![1, 2],
            },
            PaneSurfacePatchRow {
                x: 0,
                y: 4,
                cells: vec![3, 4],
            },
        ],
    }
}

/// What version 1 keeps of a message: all but the widths.
fn without_widths(message: &ServerMessage) -> ServerMessage {
    let bare = |frame: &FrameData| FrameData {
        width: frame.width,
        height: frame.height,
        cells: vec![0; frame.cells.len()],
    };
    match message {
        ServerMessage::PaneSurface { frame, popup } => ServerMessage::PaneSurface {
            frame: bare(frame),
            popup: popup.as_ref().map(bare),
        },
        ServerMessage::PaneSurfacePatch { rows } => ServerMessage::PaneSurfacePatch {
            rows: rows
                .iter()
                .map(|row| PaneSurfacePatchRow {
                    x: row.x,
                    y: row.y,
                    cells: vec![0; row.cells.len()],
                })
                .collect(),
        },
        _ => ServerMessage::Other,
    }
}

fn written(message: &ServerMessage, max: usize) -> Result<LimitedBuffer, FramingError> {
    let mut buffer = surface_buffer(message, max, LIMITS)?;
    let _ = buffer.write(CORE);
    Ok(buffer)
}

fn encode(message: &ServerMessage, max: usize) -> Result<String, FramingError> {
    let buffer = written(message, max)?;
    encode_surface(message, &buffer, true, max, LIMITS)
}

fn decode(data: &str, message: &ServerMessage, max: usize) -> Result<ServerMessage, FramingError> {
    let opened = open_surface(data, max, LIMITS)?;
    let reading = CoreReading::Read {
        message: without_widths(message),
        used: CORE.len(),
    };
    restore_surface(&opened, reading)
}

fn widths(message: &ServerMessage) -> Vec<u16> {
    match message {
        ServerMessage::PaneSurface { frame, popup } => frame
            .cells
            .iter()
            .chain(popup.iter().flat_map(|popup| popup.cells.iter()))
            .copied()
            .collect(),
        ServerMessage::PaneSurfacePatch { rows } => rows
            .iter()
            .flat_map(|row| row.cells.iter().copied())
            .collect(),
        _ => Vec::new(),
    }
}

fn said(error: FramingError) -> &'static str {
    match error {
        FramingError::Bincode(message) => message,
        FramingError::Oversized { .. } => "oversized",
    }
}

#[test]
fn full_surface_and_popup_widths_survive_real_framing() {
    let message = surface();
    let buffer = written(&message, MAX_FRAME_SIZE).unwrap();
    let encoded = SurfaceCodec::V2
        .wire_message(surface(), &buffer, true, MAX_FRAME_SIZE, LIMITS)
        .ok()
        .unwrap();
    assert!(
        matches!(&encoded, ServerMessage::EndpointControl { kind, .. } if kind == SURFACE_CODEC_V2)
    );
    let Ok(Normalized::Surface(opened)) = SurfaceCodec::V2.decode(encoded, MAX_FRAME_SIZE, LIMITS)
    else {
        panic!("surface expected")
    };
    assert_eq!(opened.core, CORE);
    assert_eq!(opened.widths, vec![1, 1, 2, 0]);
    let restored = restore_surface(
        &opened,
        CoreReading::Read {
            message: without_widths(&message),
            used: CORE.len(),
        },
    )
    .ok()
    .unwrap();
    let ServerMessage::PaneSurface { frame, popup } = restored else {
        panic!("surface expected")
    };
    assert_eq!((frame.width, frame.height), (2, 1));
    assert_eq!(frame.cells, vec![1, 1]);
    assert_eq!(popup.unwrap().cells, vec![2, 0]);
}

#[test]
fn patch_widths_follow_rows_and_keep_revision_identity() {
    let message = patch();
    let data = encode(&message, MAX_FRAME_SIZE).ok().unwrap();
    let restored = decode(&data, &message, MAX_FRAME_SIZE).ok().unwrap();
    let ServerMessage::PaneSurfacePatch { rows } = restored else {
        panic!("patch expected")
    };
    assert_eq!((rows[0].x, rows[0].y), (5, 3));
    assert_eq!(rows[0].cells, vec![1, 2]);
    assert_eq!((rows[1].x, rows[1].y), (0, 4));
    assert_eq!(rows[1].cells, vec![3, 4]);
}

#[test]
fn v1_bytes_remain_unchanged_and_wrong_codec_is_rejected() {
    let unused = surface_buffer(&surface(), MAX_FRAME_SIZE, LIMITS).ok().unwrap();
    let same = SurfaceCodec::V1
        .wire_message(surface(), &unused, true, MAX_FRAME_SIZE, LIMITS)
        .ok()
        .unwrap();
    assert!(matches!(same, ServerMessage::PaneSurface { .. }));
    let legacy = without_widths(&surface());
    let ServerMessage::PaneSurface { frame, .. } = &legacy else {
        panic!("surface expected")
    };
    assert_eq!(frame.cells[0], 0);
    assert!(SurfaceCodec::V1
        .decode(without_widths(&surface()), MAX_FRAME_SIZE, LIMITS)
        .is_ok());
    assert!(SurfaceCodec::V2.decode(legacy, MAX_FRAME_SIZE, LIMITS).is_err());
    let control = |kind: &str, data: String| ServerMessage::EndpointControl {
        kind: kind.to_owned(),
        data,
    };
    let data = encode(&surface(), MAX_FRAME_SIZE).ok().unwrap();
    assert!(SurfaceCodec::V1
        .decode(control(SURFACE_CODEC_V2, data), MAX_FRAME_SIZE, LIMITS)
        .is_err());
    let health = SurfaceCodec::V2
        .decode(control("health.pong", "{}".into()), MAX_FRAME_SIZE, LIMITS)
        .ok()
        .unwrap();
    assert!(matches!(
        health,
        Normalized::Message(ServerMessage::EndpointControl { kind, data })
            if kind == "health.pong" && data == "{}"
    ));
}

#[test]
fn malformed_width_count_trailing_bytes_and_widths_fail_closed() {
    let message = surface();
    let data = encode(&message, MAX_FRAME_SIZE).ok().unwrap();
    let bytes = STANDARD.decode(data).unwrap();
    let count_offset = CORE.len() + 4;
    for count in [0_u32, 3, 5, u32::MAX] {
        let mut broken = bytes.clone();
        broken[count_offset..count_offset + 4].copy_from_slice(&count.to_le_bytes());
        assert!(decode(&STANDARD.encode(broken), &message, MAX_FRAME_SIZE).is_err());
    }
    let mut trailing = bytes.clone();
    trailing.push(0);
    assert!(decode(&STANDARD.encode(trailing), &message, MAX_FRAME_SIZE).is_err());
    let mut width = bytes.clone();
    width[count_offset + 4..count_offset + 6].copy_from_slice(&u16::MAX.to_le_bytes());
    assert!(decode(&STANDARD.encode(width), &message, MAX_FRAME_SIZE).is_err());
    for end in 0..bytes.len() {
        assert!(decode(&STANDARD.encode(&bytes[..end]), &message, MAX_FRAME_SIZE).is_err());
    }
}

#[test]
fn invalid_shapes_non_surface_messages_and_size_limits_are_rejected() {
    let mut message = surface();
    let ServerMessage::PaneSurface { frame, .. } = &mut message else {
        panic!("surface expected")
    };
    frame.width = 3;
    assert!(encode(&message, MAX_FRAME_SIZE).is_err());
    let opened = OpenedSurface {
        core: CORE.to_vec(),
        widths: Vec::new(),
        graphics: false,
    };
    let reading = CoreReading::Read {
        message: ServerMessage::Other,
        used: CORE.len(),
    };
    assert_eq!(
        said(restore_surface(&opened, reading).err().unwrap()),
        "invalid message in surface codec"
    );
    assert!(encode(&surface(), 16).is_err());
    let encoded = encode(&surface(), MAX_FRAME_SIZE).ok().unwrap();
    assert!(decode(&encoded, &surface(), encoded.len() - 1).is_err());
}

#[test]
fn ordinary_surface_rejects_graphics_sized_inner_allocation_before_reading_it() {
    let data = encode(&surface(), MAX_FRAME_SIZE).ok().unwrap();
    let opened = open_surface(&data, MAX_FRAME_SIZE, LIMITS).ok().unwrap();
    assert!(!opened.graphics);
    let error = restore_surface(&opened, CoreReading::LimitExceeded).err().unwrap();
    assert!(matches!(error, FramingError::Bincode(message)
        if message == "surface core exceeds connection allocation budget"));
    assert!(open_surface(&data, MAX_FRAME_SIZE + 1, LIMITS).ok().unwrap().graphics);
}

#[test]
fn the_layout_of_the_data_is_fixed() {
    let message = ServerMessage::PaneSurface {
        frame: FrameData {
            width: 1,
            height: 2,
            cells: vec![0x0102, 3],
        },
        popup: None,
    };
    let data = encode(&message, MAX_FRAME_SIZE).ok().unwrap();
    let mut expected = vec![CORE.len() as u8, 0, 0, 0];
    expected.extend_from_slice(CORE);
    expected.extend_from_slice(&[2, 0, 0, 0, 2, 1, 3, 0]);
    assert_eq!(STANDARD.decode(&data).unwrap(), expected);
    assert_eq!(data, STANDARD.encode(expected));
    assert_eq!(widths(&decode(&data, &message, MAX_FRAME_SIZE).ok().unwrap()), vec![0x0102, 3]);
}

#[test]
fn every_framing_error_is_told() {
    let message = surface();
    let buffer = written(&message, MAX_FRAME_SIZE).unwrap();
    let failed = encode_surface(&message, &buffer, false, MAX_FRAME_SIZE, LIMITS);
    assert_eq!(said(failed.err().unwrap()), "could not encode surface");
    let wide = ServerMessage::PaneSurface {
        frame: FrameData {
            width: 1,
            height: 1,
            cells: vec![4097],
        },
        popup: None,
    };
    assert_eq!(
        said(encode(&wide, MAX_FRAME_SIZE).err().unwrap()),
        "surface width exceeds geometry limit"
    );
    assert_eq!(
        said(cell_count(&ServerMessage::Other).err().unwrap()),
        "invalid message in surface codec"
    );
    let far = ServerMessage::PaneSurfacePatch {
        rows: vec![PaneSurfacePatchRow {
            x: 4095,
            y: 0,
            cells: vec![1, 1],
        }],
    };
    assert_eq!(
        said(cell_count(&far).err().unwrap()),
        "invalid surface patch geometry"
    );
    let many = ServerMessage::PaneSurfacePatch {
        rows: (0..245)
            .map(|y| PaneSurfacePatchRow {
                x: 0,
                y,
                cells: vec![1; 4096],
            })
            .collect(),
    };
    assert_eq!(
        said(cell_count(&many).err().unwrap()),
        "surface patch exceeds cell limit"
    );
    assert_eq!(
        said(open_surface("***", MAX_FRAME_SIZE, LIMITS).err().unwrap()),
        "invalid surface base64"
    );
    assert_eq!(
        said(open_surface(&STANDARD.encode([1, 2]), MAX_FRAME_SIZE, LIMITS).err().unwrap()),
        "truncated surface header"
    );
    assert_eq!(
        said(
            open_surface(
                &STANDARD.encode([0, 0, 0, 0, 0xff, 0xff, 0xff, 0xff]),
                MAX_FRAME_SIZE,
                LIMITS
            )
            .err()
            .unwrap()
        ),
        "surface width count exceeds cell limit"
    );
    assert_eq!(
        said(
            open_surface(&STANDARD.encode([0, 0, 0, 0, 1, 0, 0, 0]), MAX_FRAME_SIZE, LIMITS)
                .err()
                .unwrap()
        ),
        "surface width payload length mismatch"
    );
    assert!(matches!(
        open_surface("AAAA", 3, LIMITS),
        Err(FramingError::Oversized { claimed: 4, max: 3 })
    ));
    assert!(framed_within(20, 16).is_ok());
    assert!(matches!(
        framed_within(21, 16),
        Err(FramingError::Oversized { claimed: 17, max: 16 })
    ));
    let opened = open_surface(&encode(&message, MAX_FRAME_SIZE).ok().unwrap(), MAX_FRAME_SIZE, LIMITS)
        .ok()
        .unwrap();
    assert_eq!(
        said(restore_surface(&opened, CoreReading::Invalid).err().unwrap()),
        "invalid surface core"
    );
    let short = CoreReading::Read {
        message: without_widths(&message),
        used: CORE.len() - 1,
    };
    assert_eq!(
        said(restore_surface(&opened, short).err().unwrap()),
        "surface cell count mismatch"
    );
}

#[test]
fn a_full_buffer_remembers_the_write_it_refused() {
    let mut buffer = surface_buffer(&surface(), 64, LIMITS).ok().unwrap();
    assert_eq!(buffer.max, 32);
    assert_eq!(buffer.write(&[1; 30]), Ok(30));
    assert_eq!(buffer.write(&[2; 3]), Err("surface exceeds frame limit"));
    assert_eq!(buffer.write(&[3; 2]), Ok(2));
    assert!(buffer.exceeded);
    assert_eq!(buffer.bytes.len(), 32);
    assert!(matches!(
        encode_surface(&surface(), &buffer, true, 64, LIMITS),
        Err(FramingError::Oversized { claimed: 65, max: 64 })
    ));
}

#[test]
fn codecs_have_names() {
    assert_eq!(SurfaceCodec::default(), SurfaceCodec::V1);
    assert_eq!(SurfaceCodec::V1.name(), SURFACE_CODEC_V1);
    assert_eq!(SurfaceCodec::from_name("shell.surface.v2"), Some(SurfaceCodec::V2));
    assert_eq!(SurfaceCodec::from_name("shell.surface.v1"), Some(SurfaceCodec::V1));
    assert_eq!(SurfaceCodec::from_name("shell.surface.v3"), None);
}

#[test]
fn what_is_framed_keeps_to_the_cap_of_the_lane() {
    let buffer = written(&surface(), MAX_FRAME_SIZE).unwrap();
    let write = |length: usize| {
        move |message: ServerMessage| {
            assert!(matches!(
                message,
                ServerMessage::EndpointControl { kind, .. } if kind == SURFACE_CODEC_V2
            ));
            Ok(vec![7; length])
        }
    };
    let framed = |length: usize| {
        SurfaceCodec::V2.frame(
            surface(),
            &buffer,
            true,
            MAX_FRAME_SIZE,
            LIMITS,
            write(length),
        )
    };
    assert_eq!(framed(MAX_FRAME_SIZE + 4).ok().map(|bytes| bytes.len()), Some(MAX_FRAME_SIZE + 4));
    assert!(matches!(
        framed(MAX_FRAME_SIZE + 5),
        Err(FramingError::Oversized { claimed, max })
            if claimed == MAX_FRAME_SIZE + 1 && max == MAX_FRAME_SIZE
    ));
    let failed = SurfaceCodec::V1.frame(surface(), &buffer, true, MAX_FRAME_SIZE, LIMITS, |_| {
        Err(FramingError::Bincode("not written"))
    });
    assert!(matches!(failed, Err(FramingError::Bincode("not written"))));
}
