//! What becomes of the input that clients send to a pane: which of it is scrolled by the
//! host, which is encoded for the child, and which is refused.
use vstd::prelude::*;
use vstd::utf8::*;

use crate::external_renderer::{ExternalModes, ExternalMouseMode};

verus! {

/// The most bytes of one request to an external terminal.
pub const MAX_EXTERNAL_INPUT: usize = 65_536;

#[derive(Clone, Copy, Debug, PartialEq, Eq, Structural)]
pub enum ClientMouseButton {
    Left,
    Right,
    Middle,
}

#[derive(Clone, Copy, Debug, PartialEq, Eq, Structural)]
pub enum ClientMouseKind {
    Down(ClientMouseButton),
    Up(ClientMouseButton),
    Drag(ClientMouseButton),
    Moved,
    ScrollUp,
    ScrollDown,
    ScrollLeft,
    ScrollRight,
}

/// Where the mouse is: in a cell, or at a pixel of a cell.
#[derive(Clone, Copy, Debug, PartialEq, Eq, Structural)]
pub enum ClientMousePosition {
    Cell { column: u16, row: u16 },
    Pixels { x: u32, y: u32, column: u16, row: u16 },
}

/// The size of the surface that pixels were counted on.
#[derive(Clone, Copy, Debug, PartialEq, Eq, Structural)]
pub struct ClientMouseGeometry {
    pub cols: u16,
    pub rows: u16,
    pub width_px: u32,
    pub height_px: u32,
}

#[derive(Clone, Copy, Debug, PartialEq, Eq, Structural)]
pub enum ClientKeyKind {
    Press,
    Repeat,
    Release,
}

#[derive(Clone, Copy, Debug, PartialEq, Eq, Structural)]
pub enum PageKey {
    Up,
    Down,
}

/// Something that a client sends to a pane.
#[derive(Debug, PartialEq, Eq)]
pub enum ClientPaneInputEvent {
    Mouse {
        kind: ClientMouseKind,
        position: ClientMousePosition,
        geometry: Option<ClientMouseGeometry>,
        modifiers: u8,
        lines: u16,
    },
    /// A key: `page` says which page key it is, if it is one, and `plain` that it comes
    /// without modifiers.
    Key { page: Option<PageKey>, plain: bool, press: ClientKeyKind },
    TextCommit(String),
    Paste(String),
    /// Something that concerns the host alone.
    Host,
}

/// A pixel position fits the surface it was counted on, which is still the pane's.
pub open spec fn exact_pixels(
    position: ClientMousePosition,
    geometry: Option<ClientMouseGeometry>,
    pixel_mouse: bool,
    runtime_size: (u16, u16),
    runtime_pixels: Option<(u32, u32)>,
) -> bool {
    &&& pixel_mouse
    &&& geometry matches Some(g) && position matches ClientMousePosition::Pixels {
        x,
        y,
        column,
        row,
    } && runtime_size == (g.rows, g.cols) && runtime_pixels == Some((g.width_px, g.height_px))
        && column < g.cols && row < g.rows && 0 < x <= g.width_px && 0 < y <= g.height_px
}

/// A mouse event whose pixels do not fit counts in cells.
pub open spec fn downgraded(
    event: ClientPaneInputEvent,
    pixel_mouse: bool,
    runtime_size: (u16, u16),
    runtime_pixels: Option<(u32, u32)>,
) -> ClientPaneInputEvent {
    match event {
        ClientPaneInputEvent::Mouse {
            kind,
            position: ClientMousePosition::Pixels { x, y, column, row },
            geometry,
            modifiers,
            lines,
        } => if exact_pixels(
            ClientMousePosition::Pixels { x, y, column, row },
            geometry,
            pixel_mouse,
            runtime_size,
            runtime_pixels,
        ) {
            event
        } else {
            ClientPaneInputEvent::Mouse {
                kind,
                position: ClientMousePosition::Cell { column, row },
                geometry: None,
                modifiers,
                lines,
            }
        },
        _ => event,
    }
}

/// Let mouse events count in cells where their pixels do not fit the pane.
pub fn downgrade_ineligible_pixel_mouse(
    events: &mut Vec<ClientPaneInputEvent>,
    pixel_mouse: bool,
    runtime_size: (u16, u16),
    runtime_pixels: Option<(u32, u32)>,
)
    ensures
        final(events)@.len() == old(events)@.len(),
        forall|i: int|
            0 <= i < old(events)@.len() ==> #[trigger] final(events)@[i] == downgraded(
                old(events)@[i],
                pixel_mouse,
                runtime_size,
                runtime_pixels,
            ),
{
    let ghost before = events@;
    let mut i: usize = 0;
    while i < events.len()
        invariant
            i <= events@.len() == before.len(),
            before == old(events)@,
            forall|j: int|
                0 <= j < i ==> #[trigger] events@[j] == downgraded(
                    before[j],
                    pixel_mouse,
                    runtime_size,
                    runtime_pixels,
                ),
            forall|j: int| i <= j < before.len() ==> #[trigger] events@[j] == before[j],
        decreases events@.len() - i,
    {
        let mut replacement: Option<ClientPaneInputEvent> = None;
        if let ClientPaneInputEvent::Mouse { kind, position, geometry, modifiers, lines } =
            &events[i] {
            if let ClientMousePosition::Pixels { x, y, column, row } = *position {
                let exact: bool = match geometry {
                    Some(g) => {
                        let same_pixels: bool = match runtime_pixels {
                            Some(pixels) => pixels.0 == g.width_px && pixels.1 == g.height_px,
                            None => false,
                        };
                        pixel_mouse && runtime_size.0 == g.rows && runtime_size.1 == g.cols
                            && same_pixels && column < g.cols && row < g.rows && x > 0 && y > 0
                            && x <= g.width_px && y <= g.height_px
                    },
                    None => false,
                };
                if !exact {
                    replacement = Some(
                        ClientPaneInputEvent::Mouse {
                            kind: *kind,
                            position: ClientMousePosition::Cell { column, row },
                            geometry: None,
                            modifiers: *modifiers,
                            lines: *lines,
                        },
                    );
                }
            }
        }
        if let Some(event) = replacement {
            events.set(i, event);
        }
        i = i + 1;
    }
}

/// What a pane's runtime says of itself.
#[derive(Clone, Copy)]
pub struct RuntimeSurface {
    /// Rows and columns.
    pub size: (u16, u16),
    pub pixels: Option<(u32, u32)>,
    pub sgr_pixel_mouse: bool,
}

/// What the host's mouse geometry makes of a pixel: whether there is such a geometry, the
/// cell that the pixel lies in, and the pixel of the pane, if it lies in one.
#[derive(Clone, Copy)]
pub struct HostMapping {
    pub valid: bool,
    pub cell: Option<(u16, u16)>,
    pub pane_pixel: Option<(u32, u32)>,
}

/// The mouse that the host reports, and how.
#[derive(Clone, Copy)]
pub struct HostMouse {
    /// Columns and rows.
    pub terminal_size: (u16, u16),
    /// The size of a cell in pixels, where it is known.
    pub cell_size: Option<(u32, u32)>,
    pub pixel_mouse: bool,
    pub sgr_pixels_active: bool,
}

/// A cell of the pane, where it has it.
pub open spec fn cell_in(surface: RuntimeSurface, column: u16, row: u16) -> Option<
    ClientMousePosition,
> {
    if column < surface.size.1 && row < surface.size.0 {
        Some(ClientMousePosition::Cell { column, row })
    } else {
        None
    }
}

pub open spec fn at_least_one(n: u32) -> u32 {
    if n == 0 {
        1
    } else {
        n
    }
}

/// Pixels are exact: both sides count them, on surfaces of the same size in cells of the same
/// size.
pub open spec fn counts_alike(
    surface: RuntimeSurface,
    host: HostMouse,
    geometry: ClientMouseGeometry,
) -> bool {
    &&& surface.pixels is Some
    &&& host.pixel_mouse
    &&& host.sgr_pixels_active
    &&& surface.sgr_pixel_mouse
    &&& host.terminal_size == (geometry.cols, geometry.rows)
    &&& surface.size == (geometry.rows, geometry.cols)
    &&& host.cell_size == Some(
        (
            at_least_one(geometry.width_px / geometry.cols as u32),
            at_least_one(geometry.height_px / geometry.rows as u32),
        ),
    )
}

/// Where the mouse is in a pane that a client is attached to: at a pixel where both sides
/// count pixels alike, else in a cell. A pixel that does not lie in its cell is nowhere.
pub open spec fn attached_position(
    surface: RuntimeSurface,
    host: HostMouse,
    position: ClientMousePosition,
    geometry: Option<ClientMouseGeometry>,
    mapping: HostMapping,
) -> Option<ClientMousePosition> {
    match position {
        ClientMousePosition::Cell { column, row } => cell_in(surface, column, row),
        ClientMousePosition::Pixels { x, y, column, row } => match geometry {
            None => cell_in(surface, column, row),
            Some(geometry) => if !mapping.valid || mapping.cell != Some((column, row)) {
                None
            } else if counts_alike(surface, host, geometry) && mapping.pane_pixel is Some {
                Some(
                    ClientMousePosition::Pixels {
                        x: (mapping.pane_pixel->0).0,
                        y: (mapping.pane_pixel->0).1,
                        column,
                        row,
                    },
                )
            } else {
                cell_in(surface, column, row)
            },
        },
    }
}

fn cell_fallback(surface: RuntimeSurface, column: u16, row: u16) -> (r: Option<ClientMousePosition>)
    ensures
        r == cell_in(surface, column, row),
{
    if column < surface.size.1 && row < surface.size.0 {
        Some(ClientMousePosition::Cell { column, row })
    } else {
        None
    }
}

/// Where the mouse is in a pane that a client is attached to.
pub fn terminal_attach_mouse_position(
    surface: RuntimeSurface,
    host: HostMouse,
    position: ClientMousePosition,
    geometry: Option<ClientMouseGeometry>,
    mapping: HostMapping,
) -> (r: Option<ClientMousePosition>)
    requires
        mapping.valid ==> (geometry matches Some(geometry) ==> geometry.cols > 0 && geometry.rows
            > 0),
    ensures
        r == attached_position(surface, host, position, geometry, mapping),
{
    let (column, row): (u16, u16) = match position {
        ClientMousePosition::Cell { column, row } => {
            return cell_fallback(surface, column, row);
        },
        ClientMousePosition::Pixels { column, row, .. } => (column, row),
    };
    let geometry = match geometry {
        Some(geometry) => geometry,
        None => {
            return cell_fallback(surface, column, row);
        },
    };
    let in_cell: bool = match mapping.cell {
        Some(cell) => cell.0 == column && cell.1 == row,
        None => false,
    };
    if !mapping.valid || !in_cell {
        return None;
    }
    let mut average_width: u32 = geometry.width_px / geometry.cols as u32;
    if average_width == 0 {
        average_width = 1;
    }
    let mut average_height: u32 = geometry.height_px / geometry.rows as u32;
    if average_height == 0 {
        average_height = 1;
    }
    let same_cells: bool = match host.cell_size {
        Some(size) => size.0 == average_width && size.1 == average_height,
        None => false,
    };
    if surface.pixels.is_some() && host.pixel_mouse && host.sgr_pixels_active
        && surface.sgr_pixel_mouse && host.terminal_size.0 == geometry.cols && host.terminal_size.1
        == geometry.rows && surface.size.0 == geometry.rows && surface.size.1 == geometry.cols
        && same_cells {
        if let Some(pixel) = mapping.pane_pixel {
            return Some(
                ClientMousePosition::Pixels { x: pixel.0, y: pixel.1, column, row },
            );
        }
    }
    cell_fallback(surface, column, row)
}

#[derive(Clone, Copy, Debug, PartialEq, Eq, Structural)]
pub enum AttachScrollDirection {
    Up,
    Down,
}

/// What scrolls: the wheel, or a page key with the bytes it stands for.
#[derive(Debug, PartialEq, Eq)]
pub enum AttachScrollSource {
    Wheel,
    PageKey { input: Vec<u8> },
}

/// Where a pane wants its wheel to go.
#[derive(Clone, Copy, Debug, PartialEq, Eq, Structural)]
pub enum WheelRouting {
    HostScroll,
    MouseReport,
    AlternateScroll,
}

/// What a scroll comes to.
#[derive(Debug, PartialEq, Eq)]
pub enum ScrollPlan {
    /// The host scrolls its own history.
    Host { direction: AttachScrollDirection, lines: usize },
    /// The child is sent input.
    Input(Vec<u8>),
    /// The host's scroll is reset, and the child is told of the wheel.
    Report(AttachScrollDirection),
    /// The host's scroll is reset, and the child is sent cursor keys, if it takes any.
    Alternate(AttachScrollDirection),
}

pub open spec fn scrolled_lines(lines: u16) -> usize {
    if lines == 0 {
        1
    } else {
        lines as usize
    }
}

/// Decide on a scroll. `page_keys` says whether the pane leaves plain page keys to the host,
/// as far as that is known.
pub fn apply_scroll(
    source: AttachScrollSource,
    direction: AttachScrollDirection,
    lines: u16,
    routing: Option<WheelRouting>,
    page_keys: Option<bool>,
) -> (r: ScrollPlan)
    ensures
        r == (match source {
            AttachScrollSource::PageKey { input } => if page_keys == Some(true) {
                ScrollPlan::Host { direction, lines: scrolled_lines(lines) }
            } else {
                ScrollPlan::Input(input)
            },
            AttachScrollSource::Wheel => match routing {
                Some(WheelRouting::MouseReport) => ScrollPlan::Report(direction),
                Some(WheelRouting::AlternateScroll) => ScrollPlan::Alternate(direction),
                _ => ScrollPlan::Host { direction, lines: scrolled_lines(lines) },
            },
        }),
{
    let count: usize = if lines == 0 {
        1
    } else {
        lines as usize
    };
    match source {
        AttachScrollSource::PageKey { input } => match page_keys {
            Some(true) => ScrollPlan::Host { direction, lines: count },
            _ => ScrollPlan::Input(input),
        },
        AttachScrollSource::Wheel => match routing {
            Some(WheelRouting::MouseReport) => ScrollPlan::Report(direction),
            Some(WheelRouting::AlternateScroll) => ScrollPlan::Alternate(direction),
            _ => ScrollPlan::Host { direction, lines: count },
        },
    }
}

/// The bytes that tell a child of the wheel. A child that takes them can be told.
pub fn wheel_bytes(direction: AttachScrollDirection, encoded: Option<Vec<u8>>) -> (r: Result<
    Vec<u8>,
    &'static str,
>)
    ensures
        match encoded {
            Some(bytes) => r == Ok::<Vec<u8>, &'static str>(bytes),
            None => r matches Err(message) && message@ == (match direction {
                AttachScrollDirection::Up =>
                    "failed to encode terminal attach mouse wheel event: ScrollUp"@,
                AttachScrollDirection::Down =>
                    "failed to encode terminal attach mouse wheel event: ScrollDown"@,
            }),
        },
{
    match encoded {
        Some(bytes) => Ok(bytes),
        None => match direction {
            AttachScrollDirection::Up => Err(
                "failed to encode terminal attach mouse wheel event: ScrollUp",
            ),
            AttachScrollDirection::Down => Err(
                "failed to encode terminal attach mouse wheel event: ScrollDown",
            ),
        },
    }
}

/// The bits of the modifiers that keys have: shift, control, alt, super, hyper and meta.
pub const KEY_MODIFIERS: u8 = 0x3f;

/// A mouse event to be encoded for a child that reports the mouse. Bits that stand for no
/// modifier are left out.
#[derive(Clone, Copy, Debug, PartialEq, Eq, Structural)]
pub struct MouseReport {
    pub kind: ClientMouseKind,
    pub position: ClientMousePosition,
    pub modifiers: u8,
}

/// Decide on a scroll of an attached client, which may say in which cell it took place. Beside
/// the decision stands what a child that reports the mouse is told of it.
pub fn apply_terminal_attach_scroll(
    source: AttachScrollSource,
    direction: AttachScrollDirection,
    lines: u16,
    column: Option<u16>,
    row: Option<u16>,
    modifiers: u8,
    routing: Option<WheelRouting>,
    page_keys: Option<bool>,
) -> (r: (ScrollPlan, MouseReport))
    ensures
        r.0 == (match source {
            AttachScrollSource::PageKey { input } => if page_keys == Some(true) {
                ScrollPlan::Host { direction, lines: scrolled_lines(lines) }
            } else {
                ScrollPlan::Input(input)
            },
            AttachScrollSource::Wheel => match routing {
                Some(WheelRouting::MouseReport) => ScrollPlan::Report(direction),
                Some(WheelRouting::AlternateScroll) => ScrollPlan::Alternate(direction),
                _ => ScrollPlan::Host { direction, lines: scrolled_lines(lines) },
            },
        }),
        r.1 == (MouseReport {
            kind: match direction {
                AttachScrollDirection::Up => ClientMouseKind::ScrollUp,
                AttachScrollDirection::Down => ClientMouseKind::ScrollDown,
            },
            position: ClientMousePosition::Cell {
                column: match column {
                    Some(column) => column,
                    None => 0,
                },
                row: match row {
                    Some(row) => row,
                    None => 0,
                },
            },
            modifiers: modifiers & KEY_MODIFIERS,
        }),
{
    let kind = match direction {
        AttachScrollDirection::Up => ClientMouseKind::ScrollUp,
        AttachScrollDirection::Down => ClientMouseKind::ScrollDown,
    };
    let column: u16 = match column {
        Some(column) => column,
        None => 0,
    };
    let row: u16 = match row {
        Some(row) => row,
        None => 0,
    };
    let report = MouseReport {
        kind,
        position: ClientMousePosition::Cell { column, row },
        modifiers: modifiers & KEY_MODIFIERS,
    };
    (apply_scroll(source, direction, lines, routing, page_keys), report)
}

/// What an event comes to in a pane with a child of its own.
#[derive(Debug, PartialEq, Eq)]
pub enum PaneAction {
    /// Nothing is done.
    Ignore,
    Scroll(ScrollPlan, MouseReport),
    /// The mouse is encoded for the child; what comes of it goes to `mouse_send`.
    Mouse(MouseReport),
    HostScroll { direction: AttachScrollDirection, lines: usize },
    /// The host's scroll is reset and the key is encoded for the child.
    Key,
    /// The host's scroll is reset and the bytes are sent.
    Bytes(Vec<u8>),
    /// The host's scroll is reset and the text is pasted.
    Paste(String),
    /// Such an event does not belong to a pane.
    Refuse,
}

/// The position of a mouse event, as the child counts: at a pixel, or in a cell.
pub open spec fn child_position(position: ClientMousePosition, sgr_pixel_mouse: bool) ->
    ClientMousePosition {
    match position {
        ClientMousePosition::Pixels { column, row, .. } => if sgr_pixel_mouse {
            position
        } else {
            ClientMousePosition::Cell { column, row }
        },
        _ => position,
    }
}

/// What a pane says that decides on its input.
#[derive(Clone, Copy)]
pub struct PaneFacts {
    pub rows: u16,
    pub sgr_pixel_mouse: bool,
    pub routing: Option<WheelRouting>,
    /// Whether plain page keys are left to the host, as far as that is known.
    pub page_keys: Option<bool>,
}

/// What an event comes to. `host_page_keys` says whether the host may take page keys.
pub open spec fn pane_action(
    event: ClientPaneInputEvent,
    facts: PaneFacts,
    host_page_keys: bool,
    action: PaneAction,
) -> bool {
    match event {
        ClientPaneInputEvent::Mouse { kind, position, modifiers, lines, .. } => {
            let report = MouseReport {
                kind,
                position: child_position(position, facts.sgr_pixel_mouse),
                modifiers: modifiers & KEY_MODIFIERS,
            };
            if kind == ClientMouseKind::ScrollUp || kind == ClientMouseKind::ScrollDown {
                let direction = if kind == ClientMouseKind::ScrollUp {
                    AttachScrollDirection::Up
                } else {
                    AttachScrollDirection::Down
                };
                action == PaneAction::Scroll(
                    match facts.routing {
                        Some(WheelRouting::MouseReport) => ScrollPlan::Report(direction),
                        Some(WheelRouting::AlternateScroll) => ScrollPlan::Alternate(direction),
                        _ => ScrollPlan::Host { direction, lines: scrolled_lines(lines) },
                    },
                    report,
                )
            } else {
                action == PaneAction::Mouse(report)
            }
        },
        ClientPaneInputEvent::Key { page, plain, press } => if host_page_keys && page is Some
            && plain && facts.page_keys == Some(true) {
            if press == ClientKeyKind::Release {
                action == PaneAction::Ignore
            } else {
                action == PaneAction::HostScroll {
                    direction: if page == Some(PageKey::Up) {
                        AttachScrollDirection::Up
                    } else {
                        AttachScrollDirection::Down
                    },
                    lines: scrolled_lines(facts.rows),
                }
            }
        } else {
            action == PaneAction::Key
        },
        ClientPaneInputEvent::TextCommit(text) => action matches PaneAction::Bytes(bytes) && bytes@
            == encode_utf8(text@),
        ClientPaneInputEvent::Paste(text) => action matches PaneAction::Paste(pasted) && pasted@
            == text@,
        ClientPaneInputEvent::Host => action == PaneAction::Refuse,
    }
}

fn push_all(out: &mut Vec<u8>, bytes: &[u8])
    ensures
        final(out)@ == old(out)@ + bytes@,
{
    let ghost start = out@;
    let mut i: usize = 0;
    while i < bytes.len()
        invariant
            i <= bytes@.len(),
            out@ == start + bytes@.take(i as int),
        decreases bytes@.len() - i,
    {
        out.push(bytes[i]);
        i = i + 1;
        assert(out@ =~= start + bytes@.take(i as int));
    }
    assert(bytes@.take(i as int) =~= bytes@);
}

/// What an event comes to in a pane with a child of its own.
pub fn apply_client_terminal_input_event(
    event: &ClientPaneInputEvent,
    facts: PaneFacts,
    host_page_keys: bool,
) -> (r: PaneAction)
    ensures
        pane_action(*event, facts, host_page_keys, r),
{
    match event {
        ClientPaneInputEvent::Mouse { kind, position, modifiers, lines, .. } => {
            let child = match *position {
                ClientMousePosition::Pixels { x, y, column, row } => if facts.sgr_pixel_mouse {
                    ClientMousePosition::Pixels { x, y, column, row }
                } else {
                    ClientMousePosition::Cell { column, row }
                },
                ClientMousePosition::Cell { column, row } => {
                    ClientMousePosition::Cell { column, row }
                },
            };
            let report = MouseReport {
                kind: *kind,
                position: child,
                modifiers: *modifiers & KEY_MODIFIERS,
            };
            match kind {
                ClientMouseKind::ScrollUp => PaneAction::Scroll(
                    apply_scroll(
                        AttachScrollSource::Wheel,
                        AttachScrollDirection::Up,
                        *lines,
                        facts.routing,
                        None,
                    ),
                    report,
                ),
                ClientMouseKind::ScrollDown => PaneAction::Scroll(
                    apply_scroll(
                        AttachScrollSource::Wheel,
                        AttachScrollDirection::Down,
                        *lines,
                        facts.routing,
                        None,
                    ),
                    report,
                ),
                _ => PaneAction::Mouse(report),
            }
        },
        ClientPaneInputEvent::Key { page, plain, press } => {
            let hosted: bool = match facts.page_keys {
                Some(hosted) => hosted,
                None => false,
            };
            if let Some(page) = page {
                if host_page_keys && *plain && hosted {
                    if *press == ClientKeyKind::Release {
                        return PaneAction::Ignore;
                    }
                    let lines: usize = if facts.rows == 0 {
                        1
                    } else {
                        facts.rows as usize
                    };
                    let direction = match page {
                        PageKey::Up => AttachScrollDirection::Up,
                        PageKey::Down => AttachScrollDirection::Down,
                    };
                    return PaneAction::HostScroll { direction, lines };
                }
            }
            PaneAction::Key
        },
        ClientPaneInputEvent::TextCommit(text) => {
            let mut bytes: Vec<u8> = Vec::new();
            push_all(&mut bytes, text.as_str().as_bytes());
            assert(bytes@ =~= encode_utf8(text@));
            PaneAction::Bytes(bytes)
        },
        ClientPaneInputEvent::Paste(text) => PaneAction::Paste(text.clone()),
        ClientPaneInputEvent::Host => PaneAction::Refuse,
    }
}

/// What is sent of an encoded mouse event, if anything: the host's scroll is reset first,
/// unless the mouse only moved.
pub fn mouse_send(kind: ClientMouseKind, encoded: Option<Vec<u8>>) -> (r: Option<(bool, Vec<u8>)>)
    ensures
        match encoded {
            Some(bytes) => if bytes@.len() > 0 {
                r == Some((kind != ClientMouseKind::Moved, bytes))
            } else {
                r is None
            },
            None => r is None,
        },
{
    match encoded {
        Some(bytes) => if bytes.len() > 0 {
            Some((kind != ClientMouseKind::Moved, bytes))
        } else {
            None
        },
        None => None,
    }
}

/// Which of two ways a child is told of the mouse.
#[derive(Clone, Copy, Debug, PartialEq, Eq, Structural)]
pub enum MouseProtocolEncoding {
    Default,
    SgrPixels,
}

/// What of an event goes to an external terminal.
#[derive(Debug, PartialEq, Eq)]
pub enum ExternalPiece {
    Nothing,
    Bytes(Vec<u8>),
    /// The key, encoded in the legacy way.
    Key,
    Mouse {
        kind: ClientMouseKind,
        column: u16,
        row: u16,
        modifiers: u8,
        encoding: MouseProtocolEncoding,
    },
}

/// A terminal with a mouse mode is told of a kind of mouse event.
pub open spec fn reports(mode: ExternalMouseMode, kind: ClientMouseKind) -> bool {
    match kind {
        ClientMouseKind::Drag(_) => mode == ExternalMouseMode::CellMotion || mode
            == ExternalMouseMode::AllMotion,
        ClientMouseKind::Moved => mode == ExternalMouseMode::AllMotion,
        _ => mode != ExternalMouseMode::Off,
    }
}

fn is_reported(mode: ExternalMouseMode, kind: ClientMouseKind) -> (r: bool)
    ensures
        r == reports(mode, kind),
{
    match kind {
        ClientMouseKind::Drag(_) => mode == ExternalMouseMode::CellMotion || mode
            == ExternalMouseMode::AllMotion,
        ClientMouseKind::Moved => mode == ExternalMouseMode::AllMotion,
        _ => mode != ExternalMouseMode::Off,
    }
}

pub open spec fn capped(n: u32) -> u16 {
    if n > u16::MAX {
        u16::MAX
    } else {
        n as u16
    }
}

/// The coordinates that an external terminal is told of a mouse position, if it is told of
/// it: it must lie in the terminal, and its pixels in the surface they were counted on.
pub open spec fn external_coordinates(
    position: ClientMousePosition,
    geometry: Option<ClientMouseGeometry>,
    sgr_pixel_mouse: bool,
    columns: u16,
    rows: u16,
) -> Option<(u16, u16)> {
    match position {
        ClientMousePosition::Cell { column, row } => if column < columns && row < rows {
            Some((column, row))
        } else {
            None
        },
        ClientMousePosition::Pixels { x, y, column, row } => if column >= columns || row >= rows
            || (geometry matches Some(g) && (x == 0 || y == 0 || x > g.width_px || y
            > g.height_px)) {
            None
        } else if sgr_pixel_mouse {
            Some((capped(x), capped(y)))
        } else {
            Some((column, row))
        },
    }
}

/// The framing of pasted text.
pub open spec fn framed(text: Seq<u8>, bracketed: bool) -> Seq<u8> {
    if bracketed {
        seq![0x1bu8, 0x5b, 0x32, 0x30, 0x30, 0x7e] + text + seq![
            0x1bu8,
            0x5b,
            0x32,
            0x30,
            0x31,
            0x7e,
        ]
    } else {
        text
    }
}

/// What of an event goes to an external terminal with some modes and a size. Committed text is
/// sent as it is; only a paste is framed.
pub open spec fn external_piece(
    event: ClientPaneInputEvent,
    modes: ExternalModes,
    columns: u16,
    rows: u16,
    piece: ExternalPiece,
) -> bool {
    match event {
        ClientPaneInputEvent::Mouse { kind, position, geometry, modifiers, .. } => {
            let at = external_coordinates(
                position,
                geometry,
                modes.sgr_pixel_mouse,
                columns,
                rows,
            );
            if at is Some && reports(modes.mouse, kind) {
                piece == ExternalPiece::Mouse {
                    kind,
                    column: (at->0).0,
                    row: (at->0).1,
                    modifiers: modifiers & KEY_MODIFIERS,
                    encoding: if modes.sgr_pixel_mouse {
                        MouseProtocolEncoding::SgrPixels
                    } else {
                        MouseProtocolEncoding::Default
                    },
                }
            } else {
                piece == ExternalPiece::Nothing
            }
        },
        ClientPaneInputEvent::Key { .. } => piece == ExternalPiece::Key,
        ClientPaneInputEvent::TextCommit(text) => piece matches ExternalPiece::Bytes(bytes)
            && bytes@ == encode_utf8(text@),
        ClientPaneInputEvent::Paste(text) => piece matches ExternalPiece::Bytes(bytes) && bytes@
            == framed(encode_utf8(text@), modes.bracketed_paste),
        ClientPaneInputEvent::Host => piece == ExternalPiece::Nothing,
    }
}

fn append_external_text(bytes: &mut Vec<u8>, text: &str, bracketed: bool)
    ensures
        final(bytes)@ == old(bytes)@ + framed(encode_utf8(text@), bracketed),
{
    if bracketed {
        push_all(bytes, &[0x1b, 0x5b, 0x32, 0x30, 0x30, 0x7e]);
        push_all(bytes, text.as_bytes());
        push_all(bytes, &[0x1b, 0x5b, 0x32, 0x30, 0x31, 0x7e]);
        assert(bytes@ =~= old(bytes)@ + framed(encode_utf8(text@), bracketed));
    } else {
        push_all(bytes, text.as_bytes());
    }
}

/// What of an event goes to an external terminal.
pub fn external_input_piece(
    event: &ClientPaneInputEvent,
    modes: ExternalModes,
    columns: u16,
    rows: u16,
) -> (r: ExternalPiece)
    ensures
        external_piece(*event, modes, columns, rows, r),
{
    match event {
        ClientPaneInputEvent::Mouse { kind, position, geometry, modifiers, .. } => {
            let (column, row): (u16, u16) = match *position {
                ClientMousePosition::Cell { column, row } => {
                    if column >= columns || row >= rows {
                        return ExternalPiece::Nothing;
                    }
                    (column, row)
                },
                ClientMousePosition::Pixels { x, y, column, row } => {
                    if column >= columns || row >= rows {
                        return ExternalPiece::Nothing;
                    }
                    if let Some(g) = geometry {
                        if x == 0 || y == 0 || x > g.width_px || y > g.height_px {
                            return ExternalPiece::Nothing;
                        }
                    }
                    if modes.sgr_pixel_mouse {
                        let px: u16 = if x > 0xffff {
                            0xffff
                        } else {
                            x as u16
                        };
                        let py: u16 = if y > 0xffff {
                            0xffff
                        } else {
                            y as u16
                        };
                        (px, py)
                    } else {
                        (column, row)
                    }
                },
            };
            if !is_reported(modes.mouse, *kind) {
                return ExternalPiece::Nothing;
            }
            let encoding = if modes.sgr_pixel_mouse {
                MouseProtocolEncoding::SgrPixels
            } else {
                MouseProtocolEncoding::Default
            };
            ExternalPiece::Mouse {
                kind: *kind,
                column,
                row,
                modifiers: *modifiers & KEY_MODIFIERS,
                encoding,
            }
        },
        ClientPaneInputEvent::Key { .. } => ExternalPiece::Key,
        ClientPaneInputEvent::TextCommit(text) => {
            let mut bytes: Vec<u8> = Vec::new();
            push_all(&mut bytes, text.as_str().as_bytes());
            assert(bytes@ =~= encode_utf8(text@));
            ExternalPiece::Bytes(bytes)
        },
        ClientPaneInputEvent::Paste(text) => {
            let mut bytes: Vec<u8> = Vec::new();
            append_external_text(&mut bytes, text.as_str(), modes.bracketed_paste);
            assert(bytes@ =~= framed(encode_utf8(text@), modes.bracketed_paste));
            ExternalPiece::Bytes(bytes)
        },
        ClientPaneInputEvent::Host => ExternalPiece::Nothing,
    }
}

/// The bytes of an event for an external terminal, with what the host encodes of it, if it is
/// a key or the mouse.
pub open spec fn event_bytes(
    event: ClientPaneInputEvent,
    modes: ExternalModes,
    columns: u16,
    rows: u16,
    encoded: Seq<u8>,
) -> Seq<u8> {
    match event {
        ClientPaneInputEvent::Mouse { kind, position, geometry, .. } => if reports(modes.mouse, kind)
            && external_coordinates(position, geometry, modes.sgr_pixel_mouse, columns, rows)
            is Some {
            encoded
        } else {
            Seq::empty()
        },
        ClientPaneInputEvent::Key { .. } => encoded,
        ClientPaneInputEvent::TextCommit(text) => encode_utf8(text@),
        ClientPaneInputEvent::Paste(text) => framed(encode_utf8(text@), modes.bracketed_paste),
        ClientPaneInputEvent::Host => Seq::empty(),
    }
}

/// The bytes of the first `n` events, one after the other.
pub open spec fn input_bytes(
    events: Seq<ClientPaneInputEvent>,
    modes: ExternalModes,
    columns: u16,
    rows: u16,
    encoded: Seq<Vec<u8>>,
    n: nat,
) -> Seq<u8>
    decreases n,
{
    if n == 0 {
        Seq::empty()
    } else {
        input_bytes(events, modes, columns, rows, encoded, (n - 1) as nat) + event_bytes(
            events[n - 1],
            modes,
            columns,
            rows,
            encoded[n - 1]@,
        )
    }
}

/// One request to an external terminal, where it is not too large. `encoded` holds for each
/// event what the host encodes of it, where `external_input_piece` asks for that.
pub fn encode_external_client_input(
    events: &Vec<ClientPaneInputEvent>,
    modes: ExternalModes,
    columns: u16,
    rows: u16,
    encoded: &Vec<Vec<u8>>,
) -> (r: Result<Vec<u8>, &'static str>)
    requires
        encoded@.len() == events@.len(),
    ensures
        r is Ok <==> input_bytes(events@, modes, columns, rows, encoded@, events@.len()).len()
            <= MAX_EXTERNAL_INPUT,
        r matches Ok(bytes) ==> bytes@ == input_bytes(
            events@,
            modes,
            columns,
            rows,
            encoded@,
            events@.len(),
        ),
        r matches Err(message) ==> message@
            == "external terminal input exceeded the bounded request size"@,
{
    let mut bytes: Vec<u8> = Vec::new();
    let mut i: usize = 0;
    while i < events.len()
        invariant
            i <= events@.len() == encoded@.len(),
            bytes@ == input_bytes(events@, modes, columns, rows, encoded@, i as nat),
        decreases events@.len() - i,
    {
        match external_input_piece(&events[i], modes, columns, rows) {
            ExternalPiece::Nothing => {},
            ExternalPiece::Bytes(piece) => {
                push_all(&mut bytes, piece.as_slice());
            },
            ExternalPiece::Key => {
                push_all(&mut bytes, encoded[i].as_slice());
            },
            ExternalPiece::Mouse { .. } => {
                push_all(&mut bytes, encoded[i].as_slice());
            },
        }
        i = i + 1;
        assert(bytes@ =~= input_bytes(events@, modes, columns, rows, encoded@, i as nat));
    }
    if bytes.len() > MAX_EXTERNAL_INPUT {
        return Err("external terminal input exceeded the bounded request size");
    }
    Ok(bytes)
}

/// What is sent to a pane that a client is attached to.
#[derive(Debug, PartialEq, Eq)]
pub enum AttachedInput {
    Paste(String),
    Bytes(Vec<u8>),
}

/// What becomes of raw input to a pane: a complete paste of text is pasted, all else is sent as
/// it is. The host's scroll is reset first.
pub fn apply_terminal_attach_input(data: Vec<u8>, pasted: Option<String>) -> (r: AttachedInput)
    ensures
        r == (match pasted {
            Some(text) => AttachedInput::Paste(text),
            None => AttachedInput::Bytes(data),
        }),
{
    match pasted {
        Some(text) => AttachedInput::Paste(text),
        None => AttachedInput::Bytes(data),
    }
}

/// A mouse event whose pixels do not fit keeps its canonical cell, and one whose pixels fit
/// is not touched; nothing else of an event changes.
pub proof fn downgrading_keeps_the_cell(
    event: ClientPaneInputEvent,
    pixel_mouse: bool,
    runtime_size: (u16, u16),
    runtime_pixels: Option<(u32, u32)>,
)
    ensures
        !(event is Mouse) ==> downgraded(event, pixel_mouse, runtime_size, runtime_pixels)
            == event,
        downgraded(
            downgraded(event, pixel_mouse, runtime_size, runtime_pixels),
            pixel_mouse,
            runtime_size,
            runtime_pixels,
        ) == downgraded(event, pixel_mouse, runtime_size, runtime_pixels),
        event matches ClientPaneInputEvent::Mouse { kind, modifiers, lines, .. } ==> downgraded(
            event,
            pixel_mouse,
            runtime_size,
            runtime_pixels,
        ) matches ClientPaneInputEvent::Mouse { kind: k, modifiers: m, lines: l, .. } && k == kind
            && m == modifiers && l == lines,
{
}

/// Text that the host composed reaches an external terminal as it is, and never gets the
/// framing of a paste.
pub proof fn committed_text_is_not_framed(
    text: String,
    modes: ExternalModes,
    columns: u16,
    rows: u16,
    encoded: Seq<u8>,
)
    ensures
        event_bytes(ClientPaneInputEvent::TextCommit(text), modes, columns, rows, encoded)
            == encode_utf8(text@),
{
}

/// An external terminal that does not report the mouse is not told of it.
pub proof fn silent_terminal_gets_no_mouse(
    event: ClientPaneInputEvent,
    modes: ExternalModes,
    columns: u16,
    rows: u16,
    encoded: Seq<u8>,
)
    requires
        event is Mouse,
        modes.mouse == ExternalMouseMode::Off,
    ensures
        event_bytes(event, modes, columns, rows, encoded) == Seq::<u8>::empty(),
{
}

/// The wheel scrolls the way it is turned: what is planned for it, and what a child is told of
/// it, go the same way. It takes the lines it came with, at least one, and the routing of the
/// pane decides who gets it.
pub proof fn wheels_scroll_the_way_they_are_turned(
    event: ClientPaneInputEvent,
    facts: PaneFacts,
    host_page_keys: bool,
    action: PaneAction,
)
    requires
        pane_action(event, facts, host_page_keys, action),
        event is Mouse,
        event->kind is ScrollUp || event->kind is ScrollDown,
    ensures
        action matches PaneAction::Scroll(plan, report) && report.kind == event->kind && !(
        plan is Input) && (match plan {
            ScrollPlan::Host { direction, .. } => direction,
            ScrollPlan::Report(direction) => direction,
            ScrollPlan::Alternate(direction) => direction,
            ScrollPlan::Input(_) => arbitrary(),
        } is Up <==> event->kind is ScrollUp),
        action matches PaneAction::Scroll(ScrollPlan::Host { lines, .. }, _) ==> lines >= 1 && (
        event->lines > 0 ==> lines == event->lines) && (event->lines == 0 ==> lines == 1),
        action matches PaneAction::Scroll(plan, _) && (plan is Report <==> facts.routing == Some(
            WheelRouting::MouseReport,
        )) && (plan is Alternate <==> facts.routing == Some(WheelRouting::AlternateScroll)),
{
}

/// A mouse event that is no turn of the wheel is told to the child as it is: its kind, its
/// place, and its modifiers.
pub proof fn mouse_events_are_told_as_they_are(
    event: ClientPaneInputEvent,
    facts: PaneFacts,
    host_page_keys: bool,
    action: PaneAction,
)
    requires
        pane_action(event, facts, host_page_keys, action),
        event is Mouse,
    ensures
        !(event->kind is ScrollUp) && !(event->kind is ScrollDown) ==> action is Mouse,
        ({
            let report = match action {
                PaneAction::Scroll(_, report) => report,
                PaneAction::Mouse(report) => report,
                _ => arbitrary(),
            };
            &&& report.kind == event->kind
            &&& event->position matches ClientMousePosition::Cell { column, row } ==> (
            report.position matches ClientMousePosition::Cell { column: c, row: r } && c == column
                && r == row)
            &&& event->position matches ClientMousePosition::Pixels { x, y, column, row } ==> {
                &&& facts.sgr_pixel_mouse ==> report.position == event->position
                &&& !facts.sgr_pixel_mouse ==> (
                report.position matches ClientMousePosition::Cell { column: c, row: r } && c
                    == column && r == row)
            }
            &&& event->modifiers < 64 ==> report.modifiers == event->modifiers
            &&& report.modifiers < 64
        }),
{
    let bits = event->modifiers;
    assert(bits < 64 ==> bits & 0x3f == bits) by (bit_vector);
    assert(bits & 0x3f < 64) by (bit_vector);
}

/// A plain page key scrolls the host's history by a screen, the way it says, where both the
/// host and the pane leave it to the host; its release does nothing. Every other key goes to the
/// child.
pub proof fn page_keys_scroll_a_screen(
    event: ClientPaneInputEvent,
    facts: PaneFacts,
    host_page_keys: bool,
    action: PaneAction,
)
    requires
        pane_action(event, facts, host_page_keys, action),
        event is Key,
    ensures
        !host_page_keys || event->page is None || !event->plain || facts.page_keys != Some(true)
            ==> action is Key,
        host_page_keys && event->page is Some && event->plain && facts.page_keys == Some(true) ==> {
            &&& event->press is Release ==> action is Ignore
            &&& !(event->press is Release) ==> (action matches PaneAction::HostScroll {
                direction,
                lines,
            } && (direction is Up <==> event->page == Some(PageKey::Up)) && (facts.rows > 0
                ==> lines == facts.rows) && lines >= 1)
        },
{
}

/// Text and pastes reach the child with nothing added to them and nothing left out, and what
/// concerns the host alone never reaches a pane.
pub proof fn text_reaches_the_child_as_it_is(
    event: ClientPaneInputEvent,
    facts: PaneFacts,
    host_page_keys: bool,
    action: PaneAction,
)
    requires
        pane_action(event, facts, host_page_keys, action),
    ensures
        event matches ClientPaneInputEvent::TextCommit(text) ==> (
        action matches PaneAction::Bytes(bytes) && bytes@ == encode_utf8(text@)),
        event matches ClientPaneInputEvent::Paste(text) ==> (
        action matches PaneAction::Paste(pasted) && pasted@ == text@),
        event is Host <==> action is Refuse,
        action is Paste ==> event is Paste,
        action is Bytes ==> event is TextCommit,
{
}

/// Each mode of an external terminal's mouse hears more than the one before: none, buttons and
/// the wheel, drags, and every move.
pub proof fn mouse_modes_hear_more_and_more(kind: ClientMouseKind)
    ensures
        !reports(ExternalMouseMode::Off, kind),
        reports(ExternalMouseMode::AllMotion, kind),
        reports(ExternalMouseMode::Button, kind) <==> !(kind is Moved) && !(kind is Drag),
        reports(ExternalMouseMode::CellMotion, kind) <==> !(kind is Moved),
{
}

/// A mouse event is told to an external terminal only within its columns and rows, and there in
/// its own cell, or in pixels where the terminal counts them.
pub proof fn external_mouse_stays_on_the_screen(
    position: ClientMousePosition,
    geometry: Option<ClientMouseGeometry>,
    sgr_pixel_mouse: bool,
    columns: u16,
    rows: u16,
)
    ensures
        ({
            let at = external_coordinates(position, geometry, sgr_pixel_mouse, columns, rows);
            &&& position matches ClientMousePosition::Cell { column, row } ==> {
                &&& at is Some <==> column < columns && row < rows
                &&& at is Some ==> at == Some((column, row))
            }
            &&& position matches ClientMousePosition::Pixels { x, y, column, row } ==> {
                &&& column >= columns || row >= rows ==> at is None
                &&& column < columns && row < rows && geometry is None ==> at is Some
                &&& at is Some && !sgr_pixel_mouse ==> at == Some((column, row))
                &&& at is Some && sgr_pixel_mouse && x <= u16::MAX && y <= u16::MAX ==> at == Some(
                    (x as u16, y as u16),
                )
                &&& (geometry matches Some(g) && (x == 0 || y == 0 || x > g.width_px || y
                    > g.height_px)) ==> at is None
            }
        }),
{
}

/// What an external terminal is sent for an event: a mouse event that it hears, a key, text as
/// it is, and a paste between its brackets where the terminal asked for them.
pub proof fn external_terminals_are_sent_what_was_typed(
    event: ClientPaneInputEvent,
    modes: ExternalModes,
    columns: u16,
    rows: u16,
    piece: ExternalPiece,
)
    requires
        external_piece(event, modes, columns, rows, piece),
    ensures
        event is Key <==> piece is Key,
        event is Host ==> piece is Nothing,
        event matches ClientPaneInputEvent::TextCommit(text) ==> (
        piece matches ExternalPiece::Bytes(bytes) && bytes@ == encode_utf8(text@)),
        event matches ClientPaneInputEvent::Paste(text) ==> (
        piece matches ExternalPiece::Bytes(bytes) && (!modes.bracketed_paste ==> bytes@
            == encode_utf8(text@)) && (modes.bracketed_paste ==> bytes@.len() == encode_utf8(
            text@,
        ).len() + 12 && bytes@.subrange(6, bytes@.len() - 6) == encode_utf8(text@) && bytes@.take(6)
            == seq![0x1bu8, 0x5b, 0x32, 0x30, 0x30, 0x7e] && bytes@.skip(bytes@.len() - 6)
            == seq![0x1bu8, 0x5b, 0x32, 0x30, 0x31, 0x7e])),
        piece matches ExternalPiece::Mouse { kind, column, row, encoding, .. } ==> event is Mouse
            && kind == event->kind && (encoding is SgrPixels <==> modes.sgr_pixel_mouse)
            && modes.mouse != ExternalMouseMode::Off,
        event is Mouse && (event->kind is Down || event->kind is Up || event->kind is ScrollUp
            || event->kind is ScrollDown) && modes.mouse != ExternalMouseMode::Off && (
        event->position matches ClientMousePosition::Cell { column, row } && column < columns && row
            < rows) ==> (piece matches ExternalPiece::Mouse { column: c, row: r, .. }
            && event->position == (ClientMousePosition::Cell { column: c, row: r })),
{
    if let ClientPaneInputEvent::Paste(text) = event {
        let text = encode_utf8(text@);
        let bytes = framed(text, true);
        assert(bytes.subrange(6, bytes.len() - 6) =~= text);
        assert(bytes.take(6) =~= seq![0x1bu8, 0x5b, 0x32, 0x30, 0x30, 0x7e]);
        assert(bytes.skip(bytes.len() - 6) =~= seq![0x1bu8, 0x5b, 0x32, 0x30, 0x31, 0x7e]);
    }
}

proof fn lemma_input_splits(
    events: Seq<ClientPaneInputEvent>,
    modes: ExternalModes,
    columns: u16,
    rows: u16,
    encoded: Seq<Vec<u8>>,
    n: nat,
    i: int,
)
    requires
        0 <= i < n <= events.len(),
        n <= encoded.len(),
    ensures
        exists|before: Seq<u8>, after: Seq<u8>| #[trigger]
            (before + event_bytes(events[i], modes, columns, rows, encoded[i]@) + after)
                == input_bytes(events, modes, columns, rows, encoded, n),
    decreases n,
{
    let last = (n - 1) as nat;
    let head = input_bytes(events, modes, columns, rows, encoded, last);
    let piece = event_bytes(events[n - 1], modes, columns, rows, encoded[n - 1]@);
    if i == last {
        assert(head + piece + Seq::<u8>::empty() =~= head + piece);
    } else {
        lemma_input_splits(events, modes, columns, rows, encoded, last, i);
        let own = event_bytes(events[i], modes, columns, rows, encoded[i]@);
        let (before, after) = choose|before: Seq<u8>, after: Seq<u8>| #[trigger]
            (before + own + after) == head;
        assert(before + own + (after + piece) =~= head + piece);
    }
}

/// What is typed at once is sent whole: text that was committed stands in what is sent, and so
/// does every key as it was encoded.
pub proof fn nothing_typed_is_lost(
    events: Seq<ClientPaneInputEvent>,
    modes: ExternalModes,
    columns: u16,
    rows: u16,
    encoded: Seq<Vec<u8>>,
    i: int,
)
    requires
        0 <= i < events.len(),
        encoded.len() == events.len(),
    ensures
        events[i] matches ClientPaneInputEvent::TextCommit(text) ==> exists|
            before: Seq<u8>,
            after: Seq<u8>,
        | #[trigger]
            (before + encode_utf8(text@) + after) == input_bytes(
                events,
                modes,
                columns,
                rows,
                encoded,
                events.len(),
            ),
        events[i] is Key ==> exists|before: Seq<u8>, after: Seq<u8>| #[trigger]
            (before + encoded[i]@ + after) == input_bytes(
                events,
                modes,
                columns,
                rows,
                encoded,
                events.len(),
            ),
{
    lemma_input_splits(events, modes, columns, rows, encoded, events.len(), i);
}

/// What an attached mouse is told of stays in the surface, keeps its cell, and is told in pixels
/// only where the client and the surface count them alike.
pub proof fn attached_mouse_keeps_its_cell(
    surface: RuntimeSurface,
    host: HostMouse,
    position: ClientMousePosition,
    geometry: Option<ClientMouseGeometry>,
    mapping: HostMapping,
)
    ensures
        ({
            let told = attached_position(surface, host, position, geometry, mapping);
            let (column, row) = match position {
                ClientMousePosition::Cell { column, row } => (column, row),
                ClientMousePosition::Pixels { column, row, .. } => (column, row),
            };
            &&& told matches Some(ClientMousePosition::Cell { column: c, row: r }) ==> c == column
                && r == row && column < surface.size.1 && row < surface.size.0
            &&& told matches Some(ClientMousePosition::Pixels { x, y, column: c, row: r }) ==> c
                == column && r == row && position is Pixels && geometry is Some && mapping.pane_pixel
                == Some((x, y)) && mapping.valid && host.pixel_mouse && host.sgr_pixels_active
                && surface.sgr_pixel_mouse
            &&& position is Cell && column < surface.size.1 && row < surface.size.0 ==> told is Some
            &&& position is Cell && (column >= surface.size.1 || row >= surface.size.0)
                ==> told is None
            &&& position is Pixels && geometry is Some && !mapping.valid ==> told is None
        }),
{
}

/// Pixels stay pixels exactly where the client's geometry is the pane's own and they lie in it.
pub proof fn exact_pixels_stay(
    kind: ClientMouseKind,
    x: u32,
    y: u32,
    column: u16,
    row: u16,
    geometry: ClientMouseGeometry,
    modifiers: u8,
    lines: u16,
    pixel_mouse: bool,
    runtime_size: (u16, u16),
    runtime_pixels: Option<(u32, u32)>,
)
    ensures
        ({
            let event = ClientPaneInputEvent::Mouse {
                kind,
                position: ClientMousePosition::Pixels { x, y, column, row },
                geometry: Some(geometry),
                modifiers,
                lines,
            };
            let kept = downgraded(event, pixel_mouse, runtime_size, runtime_pixels);
            let fits = pixel_mouse && runtime_size.0 == geometry.rows && runtime_size.1
                == geometry.cols && runtime_pixels == Some((geometry.width_px, geometry.height_px))
                && column < geometry.cols && row < geometry.rows && 0 < x <= geometry.width_px && 0
                < y <= geometry.height_px;
            &&& fits ==> kept == event
            &&& !fits ==> kept is Mouse && kept->kind == kind && kept->position == (
            ClientMousePosition::Cell { column, row }) && kept->geometry is None && kept->modifiers
                == modifiers && kept->lines == lines
        }),
{
}

/// A pixel on the surface it was counted on is told to an external terminal that counts
/// pixels, as far as its numbers go.
pub proof fn pixels_on_the_surface_are_told(
    x: u32,
    y: u32,
    column: u16,
    row: u16,
    geometry: ClientMouseGeometry,
    columns: u16,
    rows: u16,
)
    requires
        column < columns,
        row < rows,
        1 <= x <= geometry.width_px,
        1 <= y <= geometry.height_px,
    ensures
        ({
            let position = ClientMousePosition::Pixels { x, y, column, row };
            &&& external_coordinates(position, Some(geometry), false, columns, rows) == Some(
                (column, row),
            )
            &&& external_coordinates(position, Some(geometry), true, columns, rows) == Some(
                (
                    if x <= 65_535 {
                        x as u16
                    } else {
                        65_535u16
                    },
                    if y <= 65_535 {
                        y as u16
                    } else {
                        65_535u16
                    },
                ),
            )
        }),
{
}

/// A batch for an external terminal holds sixty-four kibibytes at most, and six modifiers are
/// told of a key.
pub proof fn input_is_bounded()
    ensures
        MAX_EXTERNAL_INPUT == 64 * 1024,
        KEY_MODIFIERS == 0x3f,
{
}

} // verus!
