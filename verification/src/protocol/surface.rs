//! The negotiated encoding of surfaces, with explicit widths of terminal cells.
//!
//! Version 1 writes a message as it is. Version 2 puts a surface into a control message of the
//! kind `shell.surface.v2`, whose data is the standard base64 text of the length of the message
//! as version 1 has it, that message, the number of widths, and the widths. Lengths and numbers
//! have four bytes, widths two, the least significant first. Widths follow the cells of the main
//! frame and of the popup, or of the rows of a patch. A width of zero leaves it to Unicode.
use base64::engine::general_purpose::STANDARD;
use base64::Engine;
use vstd::prelude::*;

use crate::text::{byte_count, byte_len, same};

verus! {

pub const SURFACE_CODEC_V1: &'static str = "shell.surface.v1";

pub const SURFACE_CODEC_V2: &'static str = "shell.surface.v2";

pub const MAX_DIMENSION: u16 = 4096;

pub const MAX_CELLS: usize = 1_000_000;

/// The base64 text of bytes, by the standard alphabet and with padding.
pub uninterp spec fn base64_text(bytes: Seq<u8>) -> Seq<char>;

/// The bytes that a text is the base64 text of, by the standard alphabet and with padding.
pub uninterp spec fn base64_bytes(text: Seq<char>) -> Option<Seq<u8>>;

/// `encode` of base64's `STANDARD` engine: four characters for every three bytes, the last
/// ones padded. `STANDARD.decode` gives the bytes back.
#[verifier::external_body]
pub(crate) fn base64_encode(bytes: &[u8]) -> (r: String)
    requires
        (bytes@.len() + 2) / 3 * 4 <= isize::MAX,
    ensures
        r@ == base64_text(bytes@),
        r@.len() == (bytes@.len() + 2) / 3 * 4,
        base64_bytes(r@) == Some(bytes@),
{
    STANDARD.encode(bytes)
}

/// `decode` of base64's `STANDARD` engine: the bytes, or none where the text is not the base64
/// text of any.
#[verifier::external_body]
pub(crate) fn base64_decode(text: &str) -> (r: Option<Vec<u8>>)
    ensures
        match r {
            Some(bytes) => base64_bytes(text@) == Some(bytes@),
            None => base64_bytes(text@) is None,
        },
{
    STANDARD.decode(text).ok()
}

/// The largest messages: of an ordinary connection, and of one that carries graphics.
#[derive(Clone, Copy)]
pub struct FrameLimits {
    pub ordinary: usize,
    pub graphics: usize,
}

impl FrameLimits {
    pub open spec fn wf(self) -> bool {
        self.ordinary <= self.graphics <= u32::MAX
    }
}

#[derive(Clone, Copy, Debug)]
pub enum FramingError {
    /// The bytes are not those of a message.
    Bincode(&'static str),
    Oversized { claimed: usize, max: usize },
}

impl FramingError {
    pub open spec fn says(self, message: Seq<char>) -> bool {
        self matches FramingError::Bincode(text) && text@ == message
    }
}

/// The cells of a frame, by their widths.
pub struct FrameData {
    pub width: u16,
    pub height: u16,
    pub cells: Vec<u16>,
}

/// The cells of a part of a row, by their widths.
pub struct PaneSurfacePatchRow {
    pub x: u16,
    pub y: u16,
    pub cells: Vec<u16>,
}

/// A message, as far as the encoding of surfaces reads it.
pub enum ServerMessage {
    PaneSurface { frame: FrameData, popup: Option<FrameData> },
    PaneSurfacePatch { rows: Vec<PaneSurfacePatchRow> },
    EndpointControl { kind: String, data: String },
    Other,
}

pub open spec fn is_surface_message(message: ServerMessage) -> bool {
    message is PaneSurface || message is PaneSurfacePatch
}

/// Whether a message carries a surface.
pub fn is_surface(message: &ServerMessage) -> (r: bool)
    ensures
        r == is_surface_message(*message),
{
    match message {
        ServerMessage::PaneSurface { .. } => true,
        ServerMessage::PaneSurfacePatch { .. } => true,
        _ => false,
    }
}

/// The widths of the cells of the first `n` rows.
pub open spec fn row_widths(rows: Seq<PaneSurfacePatchRow>, n: nat) -> Seq<u16>
    decreases n,
{
    if n == 0 {
        Seq::empty()
    } else {
        row_widths(rows, (n - 1) as nat) + rows[n - 1].cells@
    }
}

pub open spec fn popup_widths(popup: Option<FrameData>) -> Seq<u16> {
    match popup {
        Some(frame) => frame.cells@,
        None => Seq::empty(),
    }
}

/// The widths of all cells of a message, in order.
pub open spec fn widths(message: ServerMessage) -> Seq<u16> {
    match message {
        ServerMessage::PaneSurface { frame, popup } => frame.cells@ + popup_widths(popup),
        ServerMessage::PaneSurfacePatch { rows } => row_widths(rows@, rows@.len()),
        _ => Seq::empty(),
    }
}

/// A frame has the cells that its size asks for, and not too many.
pub open spec fn frame_fits(frame: FrameData) -> bool {
    &&& 0 < frame.width <= MAX_DIMENSION
    &&& 0 < frame.height <= MAX_DIMENSION
    &&& frame.width * frame.height <= MAX_CELLS
    &&& frame.cells@.len() == frame.width * frame.height
}

pub open spec fn row_fits(row: PaneSurfacePatchRow) -> bool {
    &&& row.x < MAX_DIMENSION
    &&& row.y < MAX_DIMENSION
    &&& row.cells@.len() <= MAX_DIMENSION - row.x
}

/// What is wrong with the first of `n` rows with which something is wrong.
pub open spec fn rows_defect(rows: Seq<PaneSurfacePatchRow>, n: nat) -> Option<Seq<char>>
    decreases n,
{
    if n == 0 {
        None
    } else if rows_defect(rows, (n - 1) as nat) is Some {
        rows_defect(rows, (n - 1) as nat)
    } else if !row_fits(rows[n - 1]) {
        Some("invalid surface patch geometry"@)
    } else if row_widths(rows, n).len() > MAX_CELLS {
        Some("surface patch exceeds cell limit"@)
    } else {
        None
    }
}

/// What is wrong with the shape of a surface, if anything.
pub open spec fn defect(message: ServerMessage) -> Option<Seq<char>> {
    match message {
        ServerMessage::PaneSurface { frame, popup } => if frame_fits(frame) && (popup matches Some(
            popup,
        ) ==> frame_fits(popup)) {
            None
        } else {
            Some("invalid surface frame geometry"@)
        },
        ServerMessage::PaneSurfacePatch { rows } => rows_defect(rows@, rows@.len()),
        _ => Some("invalid message in surface codec"@),
    }
}

fn frame_cell_count(frame: &FrameData) -> (r: Result<usize, FramingError>)
    ensures
        match r {
            Ok(count) => frame_fits(*frame) && count == frame.cells@.len(),
            Err(error) => !frame_fits(*frame) && error.says("invalid surface frame geometry"@),
        },
{
    assert(frame.width * frame.height <= 65_535 * 65_535) by (nonlinear_arith)
        requires
            0 <= frame.width <= 65_535,
            0 <= frame.height <= 65_535,
    ;
    assert(frame.width * frame.height >= 0) by (nonlinear_arith)
        requires
            0 <= frame.width,
            0 <= frame.height,
    ;
    let expected: u32 = frame.width as u32 * frame.height as u32;
    if frame.width == 0 || frame.height == 0 || frame.width > MAX_DIMENSION || frame.height
        > MAX_DIMENSION || expected > 1_000_000 || expected as usize != frame.cells.len() {
        return Err(FramingError::Bincode("invalid surface frame geometry"));
    }
    Ok(expected as usize)
}

fn patch_cell_count(rows: &Vec<PaneSurfacePatchRow>) -> (r: Result<usize, FramingError>)
    ensures
        match r {
            Ok(count) => rows_defect(rows@, rows@.len()) is None && count == row_widths(
                rows@,
                rows@.len(),
            ).len() && count <= MAX_CELLS,
            Err(error) => rows_defect(rows@, rows@.len()) matches Some(text) && error.says(text),
        },
{
    let mut count: usize = 0;
    let mut i: usize = 0;
    while i < rows.len()
        invariant
            i <= rows@.len(),
            rows_defect(rows@, i as nat) is None,
            count == row_widths(rows@, i as nat).len(),
            count <= MAX_CELLS,
        decreases rows@.len() - i,
    {
        let row = &rows[i];
        if row.x >= MAX_DIMENSION || row.y >= MAX_DIMENSION || row.cells.len() > (MAX_DIMENSION
            - row.x) as usize {
            proof {
                lemma_defect_stays(rows@, (i + 1) as nat, rows@.len());
            }
            return Err(FramingError::Bincode("invalid surface patch geometry"));
        }
        count = count + row.cells.len();
        if count > MAX_CELLS {
            proof {
                lemma_defect_stays(rows@, (i + 1) as nat, rows@.len());
            }
            return Err(FramingError::Bincode("surface patch exceeds cell limit"));
        }
        i = i + 1;
    }
    Ok(count)
}

proof fn lemma_defect_stays(rows: Seq<PaneSurfacePatchRow>, n: nat, m: nat)
    requires
        n <= m,
        rows_defect(rows, n) is Some,
    ensures
        rows_defect(rows, m) == rows_defect(rows, n),
    decreases m,
{
    if n < m {
        lemma_defect_stays(rows, n, (m - 1) as nat);
    }
}

/// The number of the cells of a surface, or what is wrong with it.
pub fn cell_count(message: &ServerMessage) -> (r: Result<usize, FramingError>)
    ensures
        match r {
            Ok(count) => defect(*message) is None && count == widths(*message).len() && count <= 2
                * MAX_CELLS,
            Err(error) => defect(*message) matches Some(text) && error.says(text),
        },
{
    match message {
        ServerMessage::PaneSurface { frame, popup } => {
            let main: usize = match frame_cell_count(frame) {
                Ok(count) => count,
                Err(error) => {
                    return Err(error);
                },
            };
            match popup {
                Some(popup) => match frame_cell_count(popup) {
                    Ok(count) => Ok(main + count),
                    Err(error) => Err(error),
                },
                None => Ok(main),
            }
        },
        ServerMessage::PaneSurfacePatch { rows } => patch_cell_count(rows),
        _ => Err(FramingError::Bincode("invalid message in surface codec")),
    }
}

/// A buffer that takes no more than `max` bytes. One write too many is refused, and the buffer
/// remembers it.
pub struct LimitedBuffer {
    pub bytes: Vec<u8>,
    pub max: usize,
    pub exceeded: bool,
}

impl LimitedBuffer {
    pub open spec fn wf(self) -> bool {
        self.bytes@.len() <= self.max
    }

    pub fn write(&mut self, bytes: &[u8]) -> (r: Result<usize, &'static str>)
        requires
            old(self).wf(),
        ensures
            final(self).wf(),
            final(self).max == old(self).max,
            if old(self).bytes@.len() + bytes@.len() <= old(self).max {
                &&& r matches Ok(n) && n == bytes@.len()
                &&& final(self).bytes@ == old(self).bytes@ + bytes@
                &&& final(self).exceeded == old(self).exceeded
            } else {
                &&& r matches Err(message) && message@ == "surface exceeds frame limit"@
                &&& final(self).bytes@ == old(self).bytes@
                &&& final(self).exceeded
            },
    {
        if bytes.len() > self.max - self.bytes.len() {
            self.exceeded = true;
            return Err("surface exceeds frame limit");
        }
        push_bytes(&mut self.bytes, bytes);
        Ok(bytes.len())
    }
}

fn push_bytes(out: &mut Vec<u8>, bytes: &[u8])
    ensures
        final(out)@ == old(out)@ + bytes@,
{
    let ghost start = out@;
    let mut i: usize = 0;
    while i < bytes.len()
        invariant
            i <= bytes@.len(),
            out@ == start + bytes@.take(i as int),
        decreases bytes@.len() - i,
    {
        out.push(bytes[i]);
        i = i + 1;
        assert(out@ =~= start + bytes@.take(i as int));
    }
    assert(bytes@.take(i as int) =~= bytes@);
}

pub open spec fn lesser(a: usize, b: usize) -> usize {
    if a <= b {
        a
    } else {
        b
    }
}

/// The bytes whose base64 text is no longer than a message may be.
pub open spec fn binary_limit(max: usize, limits: FrameLimits) -> int {
    let n = lesser(max, limits.graphics);
    if n * 3 > usize::MAX {
        usize::MAX as int / 4
    } else {
        n * 3 / 4
    }
}

/// The room that the widths of a surface leave to the message itself, if any.
pub open spec fn core_room(message: ServerMessage, max: usize, limits: FrameLimits) -> Option<
    int,
> {
    let room = binary_limit(max, limits) - (2 * widths(message).len() + 8);
    if room >= 0 {
        Some(room)
    } else {
        None
    }
}

/// A buffer for the message itself, whose room the widths leave to it.
pub fn surface_buffer(message: &ServerMessage, max: usize, limits: FrameLimits) -> (r: Result<
    LimitedBuffer,
    FramingError,
>)
    requires
        limits.wf(),
    ensures
        match defect(*message) {
            Some(text) => r matches Err(error) && error.says(text),
            None => match core_room(*message, max, limits) {
                Some(room) => r matches Ok(buffer) && buffer.max == room && buffer.bytes@.len()
                    == 0 && !buffer.exceeded,
                None => r matches Err(error) && (error matches FramingError::Oversized {
                    claimed,
                    max: most,
                } && claimed == 2 * widths(*message).len() + 8 && most == max),
            },
        },
{
    let count: usize = match cell_count(message) {
        Ok(count) => count,
        Err(error) => {
            return Err(error);
        },
    };
    let n: usize = if max <= limits.graphics {
        max
    } else {
        limits.graphics
    };
    let tripled: usize = match n.checked_mul(3) {
        Some(tripled) => tripled,
        None => usize::MAX,
    };
    let limit: usize = tripled / 4;
    let taken: usize = count * 2 + 8;
    if limit < taken {
        return Err(FramingError::Oversized { claimed: taken, max });
    }
    Ok(LimitedBuffer { bytes: Vec::new(), max: limit - taken, exceeded: false })
}

/// A number in four bytes, the least significant first.
pub open spec fn u32_bytes(n: int) -> Seq<u8> {
    seq![
        (n % 256) as u8,
        (n / 256 % 256) as u8,
        (n / 65_536 % 256) as u8,
        (n / 16_777_216 % 256) as u8,
    ]
}

pub open spec fn u32_at(bytes: Seq<u8>, i: int) -> int {
    bytes[i] + 256 * bytes[i + 1] + 65_536 * bytes[i + 2] + 16_777_216 * bytes[i + 3]
}

pub open spec fn u16_bytes(n: u16) -> Seq<u8> {
    seq![(n % 256) as u8, (n / 256) as u8]
}

pub open spec fn u16_at(bytes: Seq<u8>, i: int) -> u16 {
    (bytes[i] + 256 * bytes[i + 1]) as u16
}

/// The bytes of widths, one after the other.
pub open spec fn width_bytes(widths: Seq<u16>) -> Seq<u8> {
    Seq::new(
        2 * widths.len(),
        |i: int|
            if i % 2 == 0 {
                (widths[i / 2] % 256) as u8
            } else {
                (widths[i / 2] / 256) as u8
            },
    )
}

/// What the data of a surface holds.
pub open spec fn payload(core: Seq<u8>, widths: Seq<u16>) -> Seq<u8> {
    u32_bytes(core.len() as int) + core + u32_bytes(widths.len() as int) + width_bytes(widths)
}

/// What the bytes of a surface's data say: the message itself and the widths, or what is wrong
/// with them.
pub open spec fn opened(bytes: Seq<u8>) -> Result<(Seq<u8>, Seq<u16>), Seq<char>> {
    let core = u32_at(bytes, 0);
    let count = u32_at(bytes, core + 4);
    if bytes.len() < 4 {
        Err("truncated surface header"@)
    } else if core + 8 > usize::MAX {
        Err("surface length overflow"@)
    } else if bytes.len() < core + 8 {
        Err("truncated surface header"@)
    } else if count > 2 * MAX_CELLS {
        Err("surface width count exceeds cell limit"@)
    } else if bytes.len() != core + 8 + 2 * count {
        Err("surface width payload length mismatch"@)
    } else {
        Ok(
            (
                bytes.subrange(4, core + 4),
                Seq::new(count as nat, |i: int| u16_at(bytes, core + 8 + 2 * i)),
            ),
        )
    }
}

/// What the data of a surface says.
pub open spec fn surface_data(data: Seq<char>) -> Result<(Seq<u8>, Seq<u16>), Seq<char>> {
    match base64_bytes(data) {
        Some(bytes) => opened(bytes),
        None => Err("invalid surface base64"@),
    }
}

proof fn lemma_u32_bytes(n: int)
    requires
        0 <= n <= u32::MAX,
    ensures
        u32_at(u32_bytes(n), 0) == n,
{
}

/// What is put into the data of a surface is what its bytes say.
pub proof fn payload_opens(core: Seq<u8>, widths: Seq<u16>)
    requires
        widths.len() <= 2 * MAX_CELLS,
        core.len() <= u32::MAX,
        core.len() + 8 <= usize::MAX,
    ensures
        opened(payload(core, widths)) == Ok::<(Seq<u8>, Seq<u16>), Seq<char>>((core, widths)),
{
    let bytes = payload(core, widths);
    let n = core.len() as int;
    lemma_u32_bytes(n);
    lemma_u32_bytes(widths.len() as int);
    assert(forall|i: int| 0 <= i < 4 ==> bytes[i] == u32_bytes(n)[i]);
    assert(u32_at(bytes, 0) == n);
    assert(forall|i: int|
        0 <= i < 4 ==> #[trigger] bytes[n + 4 + i] == u32_bytes(widths.len() as int)[i]);
    assert(bytes[n + 4 + 0] == u32_bytes(widths.len() as int)[0]);
    assert(bytes[n + 4 + 1] == u32_bytes(widths.len() as int)[1]);
    assert(bytes[n + 4 + 2] == u32_bytes(widths.len() as int)[2]);
    assert(bytes[n + 4 + 3] == u32_bytes(widths.len() as int)[3]);
    assert(u32_at(bytes, n + 4) == widths.len());
    assert(bytes.subrange(4, n + 4) =~= core);
    let read = Seq::new(widths.len(), |i: int| u16_at(bytes, n + 8 + 2 * i));
    assert forall|i: int| 0 <= i < widths.len() implies #[trigger] read[i] == widths[i] by {
        assert(bytes[n + 8 + 2 * i] == width_bytes(widths)[2 * i]);
        assert(bytes[n + 8 + 2 * i + 1] == width_bytes(widths)[2 * i + 1]);
        assert((2 * i) / 2 == i && (2 * i + 1) / 2 == i);
    }
    assert(read =~= widths);
}

fn push_u32(out: &mut Vec<u8>, n: u32)
    ensures
        final(out)@ == old(out)@ + u32_bytes(n as int),
{
    out.push((n % 256) as u8);
    out.push((n / 256 % 256) as u8);
    out.push((n / 65_536 % 256) as u8);
    out.push((n / 16_777_216 % 256) as u8);
    assert(out@ =~= old(out)@ + u32_bytes(n as int));
}

/// Append the bytes of widths, and say whether all of them are narrow enough.
fn push_widths(out: &mut Vec<u8>, widths: &Vec<u16>) -> (r: bool)
    ensures
        final(out)@ == old(out)@ + width_bytes(widths@),
        r == all_narrow(widths@),
{
    let ghost start = out@;
    let mut valid: bool = true;
    let mut i: usize = 0;
    assert(out@ =~= start + width_bytes(widths@.take(0)));
    while i < widths.len()
        invariant
            i <= widths@.len(),
            out@ == start + width_bytes(widths@.take(i as int)),
            valid == all_narrow(widths@.take(i as int)),
        decreases widths@.len() - i,
    {
        let width: u16 = widths[i];
        proof {
            lemma_width_pushed(widths@.take(i as int), width);
            assert(widths@.take(i + 1) =~= widths@.take(i as int).push(width));
        }
        valid = valid && width <= MAX_DIMENSION;
        out.push((width % 256) as u8);
        out.push((width / 256) as u8);
        i = i + 1;
        assert(out@ =~= start + width_bytes(widths@.take(i as int)));
    }
    assert(widths@.take(i as int) =~= widths@);
    valid
}

/// No width is larger than a surface can be.
pub open spec fn all_narrow(widths: Seq<u16>) -> bool {
    forall|i: int| 0 <= i < widths.len() ==> #[trigger] widths[i] <= MAX_DIMENSION
}

proof fn lemma_width_pushed(widths: Seq<u16>, width: u16)
    ensures
        width_bytes(widths.push(width)) == width_bytes(widths) + u16_bytes(width),
        all_narrow(widths.push(width)) == (all_narrow(widths) && width <= MAX_DIMENSION),
{
    let longer = widths.push(width);
    assert forall|i: int| 0 <= i < 2 * widths.len() implies width_bytes(longer)[i] == width_bytes(
        widths,
    )[i] by {
        assert(0 <= i / 2 < widths.len());
    }
    assert(width_bytes(longer) =~= width_bytes(widths) + u16_bytes(width));
    if all_narrow(longer) {
        assert forall|i: int| 0 <= i < widths.len() implies #[trigger] widths[i]
            <= MAX_DIMENSION by {
            assert(longer[i] == widths[i]);
        }
        assert(longer[widths.len() as int] == width);
    }
}

proof fn lemma_widths_joined(a: Seq<u16>, b: Seq<u16>)
    ensures
        width_bytes(a + b) == width_bytes(a) + width_bytes(b),
        all_narrow(a + b) == (all_narrow(a) && all_narrow(b)),
    decreases b.len(),
{
    if b.len() == 0 {
        assert(a + b =~= a);
        assert(width_bytes(a) + width_bytes(b) =~= width_bytes(a));
    } else {
        let rest = b.drop_last();
        lemma_widths_joined(a, rest);
        lemma_width_pushed(a + rest, b.last());
        lemma_width_pushed(rest, b.last());
        assert((a + rest).push(b.last()) =~= a + b);
        assert(rest.push(b.last()) =~= b);
        assert(width_bytes(a) + width_bytes(rest) + u16_bytes(b.last()) =~= width_bytes(a) + (
        width_bytes(rest) + u16_bytes(b.last())));
    }
}

fn push_row_widths(out: &mut Vec<u8>, rows: &Vec<PaneSurfacePatchRow>) -> (r: bool)
    ensures
        final(out)@ == old(out)@ + width_bytes(row_widths(rows@, rows@.len())),
        r == all_narrow(row_widths(rows@, rows@.len())),
{
    let ghost start = out@;
    let mut valid: bool = true;
    let mut i: usize = 0;
    assert(out@ =~= start + width_bytes(row_widths(rows@, 0)));
    while i < rows.len()
        invariant
            i <= rows@.len(),
            out@ == start + width_bytes(row_widths(rows@, i as nat)),
            valid == all_narrow(row_widths(rows@, i as nat)),
        decreases rows@.len() - i,
    {
        proof {
            lemma_widths_joined(row_widths(rows@, i as nat), rows@[i as int].cells@);
        }
        let narrow: bool = push_widths(out, &rows[i].cells);
        valid = valid && narrow;
        i = i + 1;
        assert(out@ =~= start + width_bytes(row_widths(rows@, i as nat)));
    }
    valid
}

fn push_message_widths(out: &mut Vec<u8>, message: &ServerMessage) -> (r: bool)
    ensures
        final(out)@ == old(out)@ + width_bytes(widths(*message)),
        r == all_narrow(widths(*message)),
{
    match message {
        ServerMessage::PaneSurface { frame, popup } => {
            let main: bool = push_widths(out, &frame.cells);
            match popup {
                Some(popup) => {
                    proof {
                        lemma_widths_joined(frame.cells@, popup.cells@);
                    }
                    let second: bool = push_widths(out, &popup.cells);
                    assert(out@ =~= old(out)@ + width_bytes(widths(*message)));
                    main && second
                },
                None => {
                    assert(widths(*message) =~= frame.cells@);
                    main
                },
            }
        },
        ServerMessage::PaneSurfacePatch { rows } => push_row_widths(out, rows),
        _ => {
            assert(out@ =~= old(out)@ + width_bytes(Seq::<u16>::empty()));
            true
        },
    }
}

/// The data of a surface, from the buffer that the message itself was written to. `encoded`
/// says whether writing it succeeded. What the data says is the message and its widths.
pub fn encode_surface(
    message: &ServerMessage,
    buffer: &LimitedBuffer,
    encoded: bool,
    max: usize,
    limits: FrameLimits,
) -> (r: Result<String, FramingError>)
    requires
        limits.wf(),
        defect(*message) is None,
        core_room(*message, max, limits) == Some(buffer.max as int),
        buffer.wf(),
    ensures
        if buffer.exceeded {
            r matches Err(error) && (error matches FramingError::Oversized { claimed, max: most }
                && claimed == (if max < usize::MAX {
                max + 1
            } else {
                max as int
            }) && most == max)
        } else if !encoded {
            r matches Err(error) && error.says("could not encode surface"@)
        } else if !all_narrow(widths(*message)) {
            r matches Err(error) && error.says("surface width exceeds geometry limit"@)
        } else {
            r matches Ok(data) && data@ == base64_text(payload(buffer.bytes@, widths(*message)))
                && surface_data(data@) == Ok::<(Seq<u8>, Seq<u16>), Seq<char>>(
                (buffer.bytes@, widths(*message)),
            )
        },
{
    if buffer.exceeded {
        let claimed: usize = if max < usize::MAX {
            max + 1
        } else {
            max
        };
        return Err(FramingError::Oversized { claimed, max });
    }
    if !encoded {
        return Err(FramingError::Bincode("could not encode surface"));
    }
    let count: usize = match cell_count(message) {
        Ok(count) => count,
        Err(error) => {
            return Err(error);
        },
    };
    let ghost core = buffer.bytes@;
    let mut bytes: Vec<u8> = Vec::new();
    push_u32(&mut bytes, buffer.bytes.len() as u32);
    push_bytes(&mut bytes, buffer.bytes.as_slice());
    push_u32(&mut bytes, count as u32);
    let narrow: bool = push_message_widths(&mut bytes, message);
    if !narrow {
        return Err(FramingError::Bincode("surface width exceeds geometry limit"));
    }
    assert(bytes@ =~= payload(core, widths(*message)));
    proof {
        payload_opens(core, widths(*message));
        lemma_text_fits(bytes@.len() as int);
    }
    Ok(base64_encode(bytes.as_slice()))
}

proof fn lemma_text_fits(n: int)
    requires
        0 <= n <= usize::MAX as int / 4,
    ensures
        (n + 2) / 3 * 4 <= isize::MAX,
{
    assert(usize::BITS == 32 || usize::BITS == 64);
}

/// What the data of a surface says: the message itself, still to be read, with the widths of its
/// cells.
pub struct OpenedSurface {
    pub core: Vec<u8>,
    pub widths: Vec<u16>,
    /// The message may be as large as one with graphics.
    pub graphics: bool,
}

fn read_u32(bytes: &Vec<u8>, offset: usize) -> (r: Result<u32, FramingError>)
    ensures
        if offset + 4 > usize::MAX {
            r matches Err(error) && error.says("surface length overflow"@)
        } else if offset + 4 > bytes@.len() {
            r matches Err(error) && error.says("truncated surface header"@)
        } else {
            r matches Ok(n) && n == u32_at(bytes@, offset as int)
        },
{
    let end: usize = match offset.checked_add(4) {
        Some(end) => end,
        None => {
            return Err(FramingError::Bincode("surface length overflow"));
        },
    };
    if end > bytes.len() {
        return Err(FramingError::Bincode("truncated surface header"));
    }
    Ok(
        bytes[offset] as u32 + 256 * bytes[offset + 1] as u32 + 65_536 * bytes[offset + 2] as u32
            + 16_777_216 * bytes[offset + 3] as u32,
    )
}

fn read_widths(bytes: &Vec<u8>, offset: usize, count: usize) -> (r: Vec<u16>)
    requires
        offset + 2 * count == bytes@.len(),
    ensures
        r@ == Seq::new(count as nat, |i: int| u16_at(bytes@, offset + 2 * i)),
{
    let mut widths: Vec<u16> = Vec::new();
    let mut i: usize = 0;
    let mut at: usize = offset;
    while i < count
        invariant
            i <= count,
            at == offset + 2 * i,
            offset + 2 * count == bytes@.len(),
            bytes.len() == bytes@.len(),
            widths@ == Seq::new(i as nat, |j: int| u16_at(bytes@, offset + 2 * j)),
        decreases count - i,
    {
        let width: u16 = bytes[at] as u16 + 256 * bytes[at + 1] as u16;
        widths.push(width);
        i = i + 1;
        at = at + 2;
        assert(widths@ =~= Seq::new(i as nat, |j: int| u16_at(bytes@, offset + 2 * j)));
    }
    widths
}

/// Take the data of a surface apart.
pub fn open_surface(data: &str, max: usize, limits: FrameLimits) -> (r: Result<
    OpenedSurface,
    FramingError,
>)
    requires
        limits.wf(),
    ensures
        if byte_len(data@) > lesser(max, limits.graphics) {
            r matches Err(error) && (error matches FramingError::Oversized { claimed, max: most }
                && claimed == byte_len(data@) && most == max)
        } else {
            match surface_data(data@) {
                Ok(said) => r matches Ok(surface) && surface.core@ == said.0 && surface.widths@
                    == said.1 && surface.graphics == (max > limits.ordinary),
                Err(text) => r matches Err(error) && error.says(text),
            }
        },
{
    let length: usize = byte_count(data);
    let most: usize = if max <= limits.graphics {
        max
    } else {
        limits.graphics
    };
    if length > most {
        return Err(FramingError::Oversized { claimed: length, max });
    }
    let bytes = match base64_decode(data) {
        Some(bytes) => bytes,
        None => {
            return Err(FramingError::Bincode("invalid surface base64"));
        },
    };
    let core_length: usize = match read_u32(&bytes, 0) {
        Ok(n) => n as usize,
        Err(error) => {
            return Err(error);
        },
    };
    let count_offset: usize = match core_length.checked_add(4) {
        Some(offset) => offset,
        None => {
            return Err(FramingError::Bincode("surface length overflow"));
        },
    };
    let count: usize = match read_u32(&bytes, count_offset) {
        Ok(n) => n as usize,
        Err(error) => {
            return Err(error);
        },
    };
    if count > 2 * MAX_CELLS {
        return Err(FramingError::Bincode("surface width count exceeds cell limit"));
    }
    let widths_offset: usize = count_offset + 4;
    if bytes.len() - widths_offset != count * 2 {
        return Err(FramingError::Bincode("surface width payload length mismatch"));
    }
    let widths: Vec<u16> = read_widths(&bytes, widths_offset, count);
    let mut core: Vec<u8> = Vec::new();
    let mut i: usize = 4;
    while i < count_offset
        invariant
            4 <= i <= count_offset <= bytes@.len(),
            core@ == bytes@.subrange(4, i as int),
        decreases count_offset - i,
    {
        core.push(bytes[i]);
        i = i + 1;
        assert(core@ =~= bytes@.subrange(4, i as int));
    }
    Ok(OpenedSurface { core, widths, graphics: max > limits.ordinary })
}

/// What reading the message itself came to.
pub enum CoreReading {
    /// It asks for more memory than the connection allows.
    LimitExceeded,
    Invalid,
    /// It was read from its first `used` bytes.
    Read { message: ServerMessage, used: usize },
}

pub open spec fn same_frame(a: FrameData, b: FrameData) -> bool {
    a.width == b.width && a.height == b.height && a.cells@.len() == b.cells@.len()
}

/// Two messages differ in nothing but the widths of their cells.
pub open spec fn same_shape(a: ServerMessage, b: ServerMessage) -> bool {
    match (a, b) {
        (
            ServerMessage::PaneSurface { frame: fa, popup: pa },
            ServerMessage::PaneSurface { frame: fb, popup: pb },
        ) => same_frame(fa, fb) && (pa is Some <==> pb is Some) && (pa is Some ==> same_frame(
            pa->0,
            pb->0,
        )),
        (
            ServerMessage::PaneSurfacePatch { rows: ra },
            ServerMessage::PaneSurfacePatch { rows: rb },
        ) => ra@.len() == rb@.len() && forall|i: int|
            0 <= i < ra@.len() ==> (#[trigger] ra@[i]).x == rb@[i].x && ra@[i].y == rb@[i].y
                && ra@[i].cells@.len() == rb@[i].cells@.len(),
        _ => a == b,
    }
}

/// The next `n` widths from a place on.
fn slice_widths(widths: &Vec<u16>, from: usize, n: usize) -> (r: Vec<u16>)
    requires
        from + n <= widths@.len(),
    ensures
        r@ == widths@.subrange(from as int, from + n),
{
    let mut taken: Vec<u16> = Vec::new();
    let mut i: usize = 0;
    while i < n
        invariant
            i <= n,
            from + n <= widths@.len(),
            widths.len() == widths@.len(),
            taken@ == widths@.subrange(from as int, from + i),
        decreases n - i,
    {
        taken.push(widths[from + i]);
        i = i + 1;
        assert(taken@ =~= widths@.subrange(from as int, from + i));
    }
    taken
}

fn widen_rows(rows: &Vec<PaneSurfacePatchRow>, widths: &Vec<u16>) -> (r: Vec<PaneSurfacePatchRow>)
    requires
        widths@.len() == row_widths(rows@, rows@.len()).len(),
    ensures
        r@.len() == rows@.len(),
        forall|i: int|
            0 <= i < r@.len() ==> (#[trigger] r@[i]).x == rows@[i].x && r@[i].y == rows@[i].y
                && r@[i].cells@.len() == rows@[i].cells@.len(),
        row_widths(r@, r@.len()) == widths@,
{
    let mut widened: Vec<PaneSurfacePatchRow> = Vec::new();
    let mut at: usize = 0;
    let mut i: usize = 0;
    while i < rows.len()
        invariant
            i <= rows@.len(),
            widened@.len() == i,
            widths@.len() == row_widths(rows@, rows@.len()).len(),
            widths.len() == widths@.len(),
            at == row_widths(rows@, i as nat).len(),
            at <= widths@.len(),
            forall|j: int|
                0 <= j < i ==> (#[trigger] widened@[j]).x == rows@[j].x && widened@[j].y
                    == rows@[j].y && widened@[j].cells@.len() == rows@[j].cells@.len(),
            row_widths(widened@, i as nat) == widths@.take(at as int),
        decreases rows@.len() - i,
    {
        let row = &rows[i];
        let n: usize = row.cells.len();
        proof {
            lemma_row_widths_grow(rows@, (i + 1) as nat, rows@.len());
        }
        let ghost before = widened@;
        let cells: Vec<u16> = slice_widths(widths, at, n);
        widened.push(PaneSurfacePatchRow { x: row.x, y: row.y, cells });
        proof {
            lemma_row_widths_prefix(before, widened@, i as nat);
            assert(widths@.take(at as int) + widths@.subrange(at as int, at + n) =~= widths@.take(
                at + n,
            ));
        }
        at = at + n;
        i = i + 1;
    }
    assert(widths@.take(at as int) =~= widths@);
    widened
}

proof fn lemma_row_widths_grow(rows: Seq<PaneSurfacePatchRow>, n: nat, m: nat)
    requires
        n <= m,
    ensures
        row_widths(rows, n).len() <= row_widths(rows, m).len(),
    decreases m,
{
    if n < m {
        lemma_row_widths_grow(rows, n, (m - 1) as nat);
    }
}

proof fn lemma_row_widths_prefix(
    a: Seq<PaneSurfacePatchRow>,
    b: Seq<PaneSurfacePatchRow>,
    n: nat,
)
    requires
        n <= a.len() <= b.len(),
        forall|i: int| 0 <= i < n ==> a[i] == b[i],
    ensures
        row_widths(a, n) == row_widths(b, n),
    decreases n,
{
    if n > 0 {
        lemma_row_widths_prefix(a, b, (n - 1) as nat);
    }
}

fn are_narrow(widths: &Vec<u16>) -> (r: bool)
    ensures
        r == all_narrow(widths@),
{
    let mut i: usize = 0;
    while i < widths.len()
        invariant
            i <= widths@.len(),
            forall|j: int| 0 <= j < i ==> #[trigger] widths@[j] <= MAX_DIMENSION,
        decreases widths@.len() - i,
    {
        if widths[i] > MAX_DIMENSION {
            return false;
        }
        i = i + 1;
    }
    true
}

/// What is wrong with a message that was read, beside the widths that came with it.
pub open spec fn restore_defect(surface: OpenedSurface, reading: CoreReading) -> Option<Seq<char>> {
    match reading {
        CoreReading::LimitExceeded => Some("surface core exceeds connection allocation budget"@),
        CoreReading::Invalid => Some("invalid surface core"@),
        CoreReading::Read { message, used } => if used != surface.core@.len() {
            Some("surface cell count mismatch"@)
        } else if defect(message) is Some {
            defect(message)
        } else if widths(message).len() != surface.widths@.len() {
            Some("surface cell count mismatch"@)
        } else if !all_narrow(surface.widths@) {
            Some("surface width exceeds geometry limit"@)
        } else {
            None
        },
    }
}

/// Give the cells of a message that was read the widths that came with it.
pub fn restore_surface(surface: &OpenedSurface, reading: CoreReading) -> (r: Result<
    ServerMessage,
    FramingError,
>)
    ensures
        match restore_defect(*surface, reading) {
            Some(text) => r matches Err(error) && error.says(text),
            None => r matches Ok(message) && widths(message) == surface.widths@ && (reading matches
                CoreReading::Read { message: read, .. } && same_shape(read, message)),
        },
{
    let (message, used): (ServerMessage, usize) = match reading {
        CoreReading::LimitExceeded => {
            return Err(
                FramingError::Bincode("surface core exceeds connection allocation budget"),
            );
        },
        CoreReading::Invalid => {
            return Err(FramingError::Bincode("invalid surface core"));
        },
        CoreReading::Read { message, used } => (message, used),
    };
    if used != surface.core.len() {
        return Err(FramingError::Bincode("surface cell count mismatch"));
    }
    let count: usize = match cell_count(&message) {
        Ok(count) => count,
        Err(error) => {
            return Err(error);
        },
    };
    if count != surface.widths.len() {
        return Err(FramingError::Bincode("surface cell count mismatch"));
    }
    if !are_narrow(&surface.widths) {
        return Err(FramingError::Bincode("surface width exceeds geometry limit"));
    }
    match message {
        ServerMessage::PaneSurface { frame, popup } => {
            let main: usize = frame.cells.len();
            let cells: Vec<u16> = slice_widths(&surface.widths, 0, main);
            let widened = FrameData { width: frame.width, height: frame.height, cells };
            let second: Option<FrameData> = match popup {
                Some(popup) => Some(
                    FrameData {
                        width: popup.width,
                        height: popup.height,
                        cells: slice_widths(&surface.widths, main, popup.cells.len()),
                    },
                ),
                None => None,
            };
            let restored = ServerMessage::PaneSurface { frame: widened, popup: second };
            assert(widths(restored) =~= surface.widths@);
            Ok(restored)
        },
        ServerMessage::PaneSurfacePatch { rows } => {
            let widened = widen_rows(&rows, &surface.widths);
            Ok(ServerMessage::PaneSurfacePatch { rows: widened })
        },
        other => Ok(other),
    }
}

#[derive(Clone, Copy, Debug, PartialEq, Eq, Structural)]
pub enum SurfaceCodec {
    V1,
    V2,
}

impl Default for SurfaceCodec {
    fn default() -> (r: Self)
        ensures
            r == SurfaceCodec::V1,
    {
        SurfaceCodec::V1
    }
}

/// A message of a connection, with the data of a surface taken apart.
pub enum Normalized {
    Surface(OpenedSurface),
    Message(ServerMessage),
}

impl SurfaceCodec {
    pub open spec fn codec_name(self) -> Seq<char> {
        match self {
            SurfaceCodec::V1 => SURFACE_CODEC_V1@,
            SurfaceCodec::V2 => SURFACE_CODEC_V2@,
        }
    }

    pub fn name(self) -> (r: &'static str)
        ensures
            r@ == self.codec_name(),
    {
        match self {
            SurfaceCodec::V1 => SURFACE_CODEC_V1,
            SurfaceCodec::V2 => SURFACE_CODEC_V2,
        }
    }

    pub fn from_name(name: &str) -> (r: Option<Self>)
        ensures
            r == (if name@ == SURFACE_CODEC_V1@ {
                Some(SurfaceCodec::V1)
            } else if name@ == SURFACE_CODEC_V2@ {
                Some(SurfaceCodec::V2)
            } else {
                None
            }),
    {
        if same(name, SURFACE_CODEC_V1) {
            Some(SurfaceCodec::V1)
        } else if same(name, SURFACE_CODEC_V2) {
            Some(SurfaceCodec::V2)
        } else {
            None
        }
    }

    /// `r` is the message that goes over the wire for a message, or why there is none: a
    /// surface is put into a control message where that was negotiated.
    pub open spec fn wires(
        self,
        message: ServerMessage,
        buffer: LimitedBuffer,
        encoded: bool,
        max: usize,
        r: Result<ServerMessage, FramingError>,
    ) -> bool {
        if self == SurfaceCodec::V2 && is_surface_message(message) {
            if buffer.exceeded {
                r matches Err(error) && (error matches FramingError::Oversized {
                    claimed,
                    max: most,
                } && claimed == (if max < usize::MAX {
                    max + 1
                } else {
                    max as int
                }) && most == max)
            } else if !encoded {
                r matches Err(error) && error.says("could not encode surface"@)
            } else if !all_narrow(widths(message)) {
                r matches Err(error) && error.says("surface width exceeds geometry limit"@)
            } else {
                r matches Ok(ServerMessage::EndpointControl { kind, data }) && kind@
                    == SURFACE_CODEC_V2@ && data@ == base64_text(
                    payload(buffer.bytes@, widths(message)),
                ) && surface_data(data@) == Ok::<(Seq<u8>, Seq<u16>), Seq<char>>(
                    (buffer.bytes@, widths(message)),
                )
            }
        } else {
            r == Ok::<ServerMessage, FramingError>(message)
        }
    }

    /// The message that goes over the wire for a message. `buffer` and `encoded` are as for
    /// `encode_surface`.
    pub fn wire_message(
        self,
        message: ServerMessage,
        buffer: &LimitedBuffer,
        encoded: bool,
        max: usize,
        limits: FrameLimits,
    ) -> (r: Result<ServerMessage, FramingError>)
        requires
            limits.wf(),
            buffer.wf(),
            self == SurfaceCodec::V2 && is_surface_message(message) ==> defect(message) is None
                && core_room(message, max, limits) == Some(buffer.max as int),
        ensures
            self.wires(message, *buffer, encoded, max, r),
    {
        if self == SurfaceCodec::V2 && is_surface(&message) {
            match encode_surface(&message, buffer, encoded, max, limits) {
                Ok(data) => Ok(
                    ServerMessage::EndpointControl { kind: SURFACE_CODEC_V2.to_owned(), data },
                ),
                Err(error) => Err(error),
            }
        } else {
            Ok(message)
        }
    }

    /// The bytes of a message as they go over the wire, which `write` makes of it with four
    /// bytes of length before them. Whatever is handed out keeps to the size cap of the lane.
    pub fn frame<W: FnOnce(ServerMessage) -> Result<Vec<u8>, FramingError>>(
        self,
        message: ServerMessage,
        buffer: &LimitedBuffer,
        encoded: bool,
        max: usize,
        limits: FrameLimits,
        write: W,
    ) -> (r: Result<Vec<u8>, FramingError>)
        requires
            limits.wf(),
            buffer.wf(),
            self == SurfaceCodec::V2 && is_surface_message(message) ==> defect(message) is None
                && core_room(message, max, limits) == Some(buffer.max as int),
            forall|wire: ServerMessage| #[trigger] call_requires(write, (wire,)),
        ensures
            exists|wire: Result<ServerMessage, FramingError>| #[trigger]
                self.wires(message, *buffer, encoded, max, wire) && match wire {
                    Err(error) => r == Err::<Vec<u8>, FramingError>(error),
                    Ok(sent) => exists|written: Result<Vec<u8>, FramingError>| #[trigger]
                        call_ensures(write, (sent,), written) && passed_on(written, max, r),
                },
            r matches Ok(bytes) ==> fits_lane(bytes@.len(), max),
    {
        let wire = self.wire_message(message, buffer, encoded, max, limits);
        let ghost given = wire;
        match wire {
            Ok(sent) => {
                let ghost told = sent;
                let written = write(sent);
                let ghost out = written;
                let r = match written {
                    Ok(bytes) => match framed_within(bytes.len(), max) {
                        Ok(_) => Ok(bytes),
                        Err(error) => Err(error),
                    },
                    Err(error) => Err(error),
                };
                assert(call_ensures(write, (told,), out) && passed_on(out, max, r));
                assert(self.wires(message, *buffer, encoded, max, given));
                r
            },
            Err(error) => Err(error),
        }
    }

    /// Hold a message that came over the wire against what was negotiated, before anything is
    /// made of it.
    pub fn decode(self, message: ServerMessage, max: usize, limits: FrameLimits) -> (r: Result<
        Normalized,
        FramingError,
    >)
        requires
            limits.wf(),
        ensures
            match message {
                ServerMessage::EndpointControl { kind, data } => if kind@ == SURFACE_CODEC_V2@ {
                    if self != SurfaceCodec::V2 {
                        r matches Err(error) && error.says("surface codec was not negotiated"@)
                    } else if byte_len(data@) > lesser(max, limits.graphics) {
                        r matches Err(error) && (error matches FramingError::Oversized {
                            claimed,
                            max: most,
                        } && claimed == byte_len(data@) && most == max)
                    } else {
                        match surface_data(data@) {
                            Ok(said) => r matches Ok(Normalized::Surface(surface)) && surface.core@
                                == said.0 && surface.widths@ == said.1 && surface.graphics == (max
                                > limits.ordinary),
                            Err(text) => r matches Err(error) && error.says(text),
                        }
                    }
                } else {
                    r == Ok::<Normalized, FramingError>(Normalized::Message(message))
                },
                _ => if self == SurfaceCodec::V2 && is_surface_message(message) {
                    r matches Err(error) && error.says("surface did not use the negotiated codec"@)
                } else {
                    r == Ok::<Normalized, FramingError>(Normalized::Message(message))
                },
            },
    {
        if let ServerMessage::EndpointControl { kind, data } = &message {
            if same(kind.as_str(), SURFACE_CODEC_V2) {
                if self != SurfaceCodec::V2 {
                    return Err(FramingError::Bincode("surface codec was not negotiated"));
                }
                return match open_surface(data.as_str(), max, limits) {
                    Ok(surface) => Ok(Normalized::Surface(surface)),
                    Err(error) => Err(error),
                };
            }
        }
        if self == SurfaceCodec::V2 && is_surface(&message) {
            return Err(FramingError::Bincode("surface did not use the negotiated codec"));
        }
        Ok(Normalized::Message(message))
    }
}

/// A message of so many bytes, with its four bytes of length, keeps to the cap of a lane.
pub open spec fn fits_lane(length: nat, max: usize) -> bool {
    length <= 4 || length - 4 <= max
}

/// What was written is handed on where it keeps to the cap of the lane, and refused with its
/// size otherwise.
pub open spec fn passed_on(
    written: Result<Vec<u8>, FramingError>,
    max: usize,
    r: Result<Vec<u8>, FramingError>,
) -> bool {
    match written {
        Ok(bytes) => if fits_lane(bytes@.len(), max) {
            r == Ok::<Vec<u8>, FramingError>(bytes)
        } else {
            r matches Err(error) && (error matches FramingError::Oversized { claimed, max: most }
                && claimed == bytes@.len() - 4 && most == max)
        },
        Err(error) => r == Err::<Vec<u8>, FramingError>(error),
    }
}

/// Whether a message with its four bytes of length may be sent.
pub fn framed_within(length: usize, max: usize) -> (r: Result<(), FramingError>)
    ensures
        if fits_lane(length as nat, max) {
            r matches Ok(_)
        } else {
            r matches Err(error) && (error matches FramingError::Oversized { claimed, max: most }
                && claimed == length - 4 && most == max)
        },
{
    let claimed: usize = if length >= 4 {
        length - 4
    } else {
        0
    };
    if claimed > max {
        return Err(FramingError::Oversized { claimed, max });
    }
    Ok(())
}

proof fn lemma_same_rows(
    a: Seq<PaneSurfacePatchRow>,
    b: Seq<PaneSurfacePatchRow>,
    n: nat,
)
    requires
        n <= a.len(),
        n <= b.len(),
        forall|i: int| 0 <= i < n ==> (#[trigger] a[i]).cells@.len() == b[i].cells@.len(),
        row_widths(a, n) == row_widths(b, n),
    ensures
        forall|i: int| 0 <= i < n ==> (#[trigger] a[i]).cells@ == b[i].cells@,
    decreases n,
{
    if n > 0 {
        let m = (n - 1) as nat;
        let wa = row_widths(a, m);
        let wb = row_widths(b, m);
        lemma_row_lengths(a, b, m);
        assert(row_widths(a, n).take(wa.len() as int) =~= wa);
        assert(row_widths(b, n).take(wa.len() as int) =~= wb);
        assert(row_widths(a, n).skip(wa.len() as int) =~= a[m as int].cells@);
        assert(row_widths(b, n).skip(wa.len() as int) =~= b[m as int].cells@);
        lemma_same_rows(a, b, m);
    }
}

proof fn lemma_row_lengths(a: Seq<PaneSurfacePatchRow>, b: Seq<PaneSurfacePatchRow>, n: nat)
    requires
        n <= a.len(),
        n <= b.len(),
        forall|i: int| 0 <= i < n ==> (#[trigger] a[i]).cells@.len() == b[i].cells@.len(),
    ensures
        row_widths(a, n).len() == row_widths(b, n).len(),
    decreases n,
{
    if n > 0 {
        lemma_row_lengths(a, b, (n - 1) as nat);
    }
}

/// The cells of two messages of one shape, at their places.
pub open spec fn same_cells(a: ServerMessage, b: ServerMessage) -> bool {
    match (a, b) {
        (
            ServerMessage::PaneSurface { frame: fa, popup: pa },
            ServerMessage::PaneSurface { frame: fb, popup: pb },
        ) => fa.cells@ == fb.cells@ && popup_widths(pa) == popup_widths(pb),
        (
            ServerMessage::PaneSurfacePatch { rows: ra },
            ServerMessage::PaneSurfacePatch { rows: rb },
        ) => forall|i: int| 0 <= i < ra@.len() ==> (#[trigger] ra@[i]).cells@ == rb@[i].cells@,
        _ => true,
    }
}

/// Two messages of one shape whose widths are the same, one after the other, have the same
/// width at each cell: a surface that is read back with the widths that were sent is the one
/// that was sent.
pub proof fn widths_reach_their_cells(sent: ServerMessage, restored: ServerMessage)
    requires
        same_shape(sent, restored),
        widths(sent) == widths(restored),
    ensures
        same_cells(sent, restored),
{
    match (sent, restored) {
        (
            ServerMessage::PaneSurface { frame: fa, popup: pa },
            ServerMessage::PaneSurface { frame: fb, popup: pb },
        ) => {
            let n = fa.cells@.len() as int;
            assert(widths(sent).take(n) =~= fa.cells@);
            assert(widths(restored).take(n) =~= fb.cells@);
            assert(widths(sent).skip(n) =~= popup_widths(pa));
            assert(widths(restored).skip(n) =~= popup_widths(pb));
        },
        (
            ServerMessage::PaneSurfacePatch { rows: ra },
            ServerMessage::PaneSurfacePatch { rows: rb },
        ) => {
            lemma_same_rows(ra@, rb@, ra@.len());
        },
        _ => {},
    }
}

/// A frame has as many cells as it is wide times high, is neither flat nor larger than 4096
/// either way, and holds a million cells at most.
pub proof fn frames_have_a_cell_for_each_place(frame: FrameData)
    ensures
        frame_fits(frame) ==> frame.cells@.len() == frame.width * frame.height && 0 < frame.width
            <= 4096 && 0 < frame.height <= 4096 && frame.cells@.len() <= 1_000_000,
        0 < frame.width <= 4096 && 0 < frame.height <= 4096 && frame.width * frame.height
            <= 1_000_000 && frame.cells@.len() == frame.width * frame.height ==> frame_fits(frame),
{
}

/// A row of a patch begins and ends within 4096 places either way.
pub proof fn rows_lie_on_the_surface(row: PaneSurfacePatchRow)
    ensures
        row_fits(row) <==> row.x < 4096 && row.y < 4096 && row.x + row.cells@.len() <= 4096,
{
}

proof fn lemma_rows(rows: Seq<PaneSurfacePatchRow>, n: nat)
    requires
        n <= rows.len(),
    ensures
        rows_defect(rows, n) is None ==> forall|i: int| 0 <= i < n ==> row_fits(#[trigger] rows[i]),
        rows_defect(rows, n) is None ==> row_widths(rows, n).len() <= 1_000_000,
        (forall|i: int| 0 <= i < n ==> row_fits(#[trigger] rows[i])) && row_widths(rows, n).len()
            <= 1_000_000 ==> rows_defect(rows, n) is None,
        rows_defect(rows, n) matches Some(text) ==> text == "invalid surface patch geometry"@ || text
            == "surface patch exceeds cell limit"@,
    decreases n,
{
    if n > 0 {
        lemma_rows(rows, (n - 1) as nat);
        assert(row_widths(rows, (n - 1) as nat).len() <= row_widths(rows, n).len());
    }
}

/// A patch is in order where each of its rows lies on the surface and all of them hold a
/// million cells at most; a frame where it fits, and its popup too; and nothing else is a
/// surface.
pub proof fn surfaces_are_in_order(message: ServerMessage)
    ensures
        message matches ServerMessage::PaneSurfacePatch { rows } ==> (defect(message) is None <==> (
        forall|i: int| 0 <= i < rows@.len() ==> row_fits(#[trigger] rows@[i])) && widths(
            message,
        ).len() <= 1_000_000),
        message matches ServerMessage::PaneSurface { frame, popup } ==> (defect(message) is None
            <==> frame_fits(frame) && (popup is None || frame_fits(popup->0))),
        message matches ServerMessage::PaneSurface { frame, popup } ==> (defect(message) is Some
            ==> defect(message) == Some("invalid surface frame geometry"@)),
        !(message is PaneSurface) && !(message is PaneSurfacePatch) ==> defect(message) == Some(
            "invalid message in surface codec"@,
        ),
        is_surface_message(message) <==> message is PaneSurface || message is PaneSurfacePatch,
{
    if let ServerMessage::PaneSurfacePatch { rows } = message {
        lemma_rows(rows@, rows@.len());
    }
}

proof fn lemma_row_widths(rows: Seq<PaneSurfacePatchRow>, n: nat, i: int)
    requires
        0 <= i < n <= rows.len(),
    ensures
        exists|at: int|
            0 <= at && at + rows[i].cells@.len() <= row_widths(rows, n).len()
                && #[trigger] row_widths(rows, n).subrange(at, at + rows[i].cells@.len())
                == rows[i].cells@,
    decreases n,
{
    let before = row_widths(rows, (n - 1) as nat);
    let all = row_widths(rows, n);
    if i == n - 1 {
        let at = before.len() as int;
        assert(all.subrange(at, at + rows[i].cells@.len()) =~= rows[i].cells@);
    } else {
        lemma_row_widths(rows, (n - 1) as nat, i);
        let at = choose|at: int|
            0 <= at && at + rows[i].cells@.len() <= before.len() && #[trigger] before.subrange(
                at,
                at + rows[i].cells@.len(),
            ) == rows[i].cells@;
        assert(all.subrange(at, at + rows[i].cells@.len()) =~= before.subrange(
            at,
            at + rows[i].cells@.len(),
        ));
    }
}

/// The widths that are sent are those of every cell: of the frame and then of its popup, or of
/// each row of a patch.
pub proof fn widths_of_every_cell_are_sent(message: ServerMessage, i: int)
    ensures
        message matches ServerMessage::PaneSurface { frame, popup } ==> widths(message).len()
            == frame.cells@.len() + (match popup {
            Some(above) => above.cells@.len(),
            None => 0,
        }) && widths(message).take(frame.cells@.len() as int) == frame.cells@ && (
        popup matches Some(above) ==> widths(message).skip(frame.cells@.len() as int)
            == above.cells@),
        message matches ServerMessage::PaneSurfacePatch { rows } ==> (0 <= i < rows@.len()
            ==> exists|at: int|
            0 <= at && at + rows@[i].cells@.len() <= widths(message).len() && #[trigger] widths(
                message,
            ).subrange(at, at + rows@[i].cells@.len()) == rows@[i].cells@),
{
    if let ServerMessage::PaneSurface { frame, popup } = message {
        assert(widths(message).take(frame.cells@.len() as int) =~= frame.cells@);
        if popup is Some {
            assert(widths(message).skip(frame.cells@.len() as int) =~= popup->0.cells@);
        }
    }
    if let ServerMessage::PaneSurfacePatch { rows } = message {
        if 0 <= i < rows@.len() {
            lemma_row_widths(rows@, rows@.len(), i);
            let all = row_widths(rows@, rows@.len());
            let n = rows@[i].cells@.len();
            let at = choose|at: int|
                0 <= at && at + n <= all.len() && #[trigger] all.subrange(at, at + n)
                    == rows@[i].cells@;
            assert(widths(message).subrange(at, at + n) == rows@[i].cells@);
        }
    }
}

/// A number is written with its lowest byte first, and what was written is read back.
pub proof fn numbers_are_written_lowest_byte_first(n: int, w: u16)
    requires
        0 <= n < 0x1_0000_0000,
    ensures
        u32_bytes(n).len() == 4,
        u32_at(u32_bytes(n), 0) == n,
        n < 256 ==> u32_bytes(n)[0] == n && u32_bytes(n)[1] == 0 && u32_bytes(n)[2] == 0
            && u32_bytes(n)[3] == 0,
        u16_bytes(w).len() == 2,
        u16_at(u16_bytes(w), 0) == w,
        w < 256 ==> u16_bytes(w)[0] == w && u16_bytes(w)[1] == 0,
{
    let q = n / 256;
    let r = n / 65_536;
    let s = n / 16_777_216;
    assert(n == 256 * q + n % 256);
    assert(q / 256 == r && q == 256 * r + q % 256) by (nonlinear_arith)
        requires
            q == n / 256,
            r == n / 65_536,
            0 <= n,
    ;
    assert(r / 256 == s && r == 256 * s + r % 256) by (nonlinear_arith)
        requires
            r == n / 65_536,
            s == n / 16_777_216,
            0 <= n,
    ;
    assert(s < 256);
    assert(s % 256 == s);
}

/// Bytes that cannot be opened say why: they end too early, claim too much, or are not as long
/// as they claim.
pub proof fn broken_surfaces_say_why(bytes: Seq<u8>)
    ensures
        bytes.len() < 4 ==> opened(bytes) == Err::<(Seq<u8>, Seq<u16>), Seq<char>>(
            "truncated surface header"@,
        ),
        opened(bytes) matches Ok(found) ==> bytes.len() == 8 + found.0.len() + 2 * found.1.len()
            && found.1.len() <= 2_000_000 && found.0 == bytes.subrange(4, 4 + found.0.len() as int),
        opened(bytes) matches Ok(found) ==> forall|i: int|
            0 <= i < found.1.len() ==> #[trigger] found.1[i] == bytes[8 + found.0.len() + 2 * i]
                + 256 * bytes[9 + found.0.len() + 2 * i],
{
    if opened(bytes) is Ok {
        let core = u32_at(bytes, 0);
        let found = opened(bytes)->Ok_0;
        assert(found.0.len() == core);
    }
}

/// A surface travels under the newer codec's name, and each codec has its own.
pub proof fn codecs_have_their_own_names()
    ensures
        SurfaceCodec::V1.codec_name() == "shell.surface.v1"@,
        SurfaceCodec::V2.codec_name() == "shell.surface.v2"@,
        SurfaceCodec::V1.codec_name() != SurfaceCodec::V2.codec_name(),
{
    reveal_strlit("shell.surface.v1");
    reveal_strlit("shell.surface.v2");
    assert("shell.surface.v1"@[15] == '1' && "shell.surface.v2"@[15] == '2');
}

/// Only the newer codec changes a message, and only one that is a surface.
pub proof fn other_messages_travel_as_they_are(
    codec: SurfaceCodec,
    message: ServerMessage,
    buffer: LimitedBuffer,
    encoded: bool,
    max: usize,
    r: Result<ServerMessage, FramingError>,
)
    requires
        codec.wires(message, buffer, encoded, max, r),
    ensures
        codec == SurfaceCodec::V1 ==> r == Ok::<ServerMessage, FramingError>(message),
        !(message is PaneSurface) && !(message is PaneSurfacePatch) ==> r == Ok::<
            ServerMessage,
            FramingError,
        >(message),
        codec == SurfaceCodec::V2 && (message is PaneSurface || message is PaneSurfacePatch) && r
            is Ok ==> !buffer.exceeded && encoded && (forall|i: int|
            0 <= i < widths(message).len() ==> #[trigger] widths(message)[i] <= 4096) && (
        r matches Ok(ServerMessage::EndpointControl { kind, data }) && kind@ == "shell.surface.v2"@
            && surface_data(data@) == Ok::<(Seq<u8>, Seq<u16>), Seq<char>>(
            (buffer.bytes@, widths(message)),
        )),
{
}

/// The room for a surface is three quarters of the smaller of the two limits, since four
/// characters carry three bytes, less what the widths and the two counts take.
pub proof fn surfaces_leave_room_for_their_widths(
    message: ServerMessage,
    max: usize,
    limits: FrameLimits,
)
    requires
        limits.wf(),
        max <= 0x1000_0000,
    ensures
        binary_limit(max, limits) * 4 <= max * 3,
        binary_limit(max, limits) * 4 <= limits.graphics * 3,
        max <= limits.graphics ==> binary_limit(max, limits) == max * 3 / 4,
        core_room(message, max, limits) matches Some(room) ==> room + 2 * widths(message).len() + 8
            == binary_limit(max, limits),
        core_room(message, max, limits) is None <==> binary_limit(max, limits) < 2 * widths(
            message,
        ).len() + 8,
{
}

/// A surface that was read is taken only where it was read whole, is in order, and has a width
/// of 4096 at most for each of its cells.
pub proof fn only_whole_surfaces_are_restored(surface: OpenedSurface, reading: CoreReading)
    requires
        restore_defect(surface, reading) is None,
    ensures
        reading matches CoreReading::Read { message, used } && used == surface.core@.len()
            && defect(message) is None && widths(message).len() == surface.widths@.len(),
        forall|i: int|
            0 <= i < surface.widths@.len() ==> #[trigger] surface.widths@[i] <= 4096,
{
}

/// What is framed holds its length in four bytes, and what stands behind them fits.
pub proof fn frames_fit_their_lane(length: nat, max: usize)
    ensures
        fits_lane(length, max) <==> length <= max + 4,
{
}

} // verus!
