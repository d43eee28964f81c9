//! The cells of a `ratatui` buffer, and what the library does to them.
use ratatui::buffer::{Buffer, CellDiffOption};
use ratatui::style::{Color, Modifier, Style};
use vstd::prelude::*;

verus! {

/// A rectangle of cells.
#[derive(Clone, Copy, Debug, PartialEq, Eq, Structural)]
pub struct Area {
    pub x: u16,
    pub y: u16,
    pub width: u16,
    pub height: u16,
}

/// A cell's place.
#[derive(Clone, Copy, Debug, PartialEq, Eq, Structural)]
pub struct Position {
    pub x: u16,
    pub y: u16,
}

impl Area {
    pub fn new(x: u16, y: u16, width: u16, height: u16) -> (r: Self)
        ensures
            r == (Area { x, y, width, height }),
    {
        Area { x, y, width, height }
    }

    /// No cell of the area lies beyond what coordinates can name.
    pub open spec fn bounded(self) -> bool {
        self.x + self.width <= u16::MAX && self.y + self.height <= u16::MAX
    }

    pub fn is_bounded(self) -> (r: bool)
        ensures
            r == self.bounded(),
    {
        self.x as u32 + self.width as u32 <= 65535 && self.y as u32 + self.height as u32 <= 65535
    }

    pub open spec fn contains(self, x: int, y: int) -> bool {
        &&& self.x <= x < self.x + self.width
        &&& self.y <= y < self.y + self.height
    }

    /// Every cell of `inner` is one of this area.
    pub open spec fn encloses(self, inner: Area) -> bool {
        &&& inner.x >= self.x
        &&& inner.y >= self.y
        &&& inner.x + inner.width <= self.x + self.width
        &&& inner.y + inner.height <= self.y + self.height
    }

    pub fn is_enclosing(self, inner: Area) -> (r: bool)
        ensures
            r == self.encloses(inner),
    {
        let outer_right: u32 = self.x as u32 + self.width as u32;
        let outer_bottom: u32 = self.y as u32 + self.height as u32;
        let inner_right: u32 = inner.x as u32 + inner.width as u32;
        let inner_bottom: u32 = inner.y as u32 + inner.height as u32;
        inner.x >= self.x && inner.y >= self.y && inner_right <= outer_right && inner_bottom
            <= outer_bottom
    }
}

/// A color of a cell.
#[derive(Clone, Copy, Debug, PartialEq, Eq, Structural)]
pub enum CellColor {
    Reset,
    Black,
    Red,
    Green,
    Yellow,
    Blue,
    Magenta,
    Cyan,
    Gray,
    DarkGray,
    LightRed,
    LightGreen,
    LightYellow,
    LightBlue,
    LightMagenta,
    LightCyan,
    White,
    Rgb(u8, u8, u8),
    Indexed(u8),
}

/// How a cell is treated when two buffers are compared.
#[derive(Clone, Copy, Debug, PartialEq, Eq, Structural)]
pub enum CellDiff {
    Plain,
    Skip,
    AlwaysUpdate,
    ForcedWidth(u16),
}

/// What a cell holds.
#[verifier::ext_equal]
pub struct CellContent {
    pub symbol: Seq<char>,
    pub fg: CellColor,
    pub bg: CellColor,
    pub underline: CellColor,
    pub modifier: u16,
    pub diff: CellDiff,
}

impl CellContent {
    /// What a cell holds once it was reset.
    pub open spec fn blank() -> Self {
        CellContent {
            symbol: seq![' '],
            fg: CellColor::Reset,
            bg: CellColor::Reset,
            underline: CellColor::Reset,
            modifier: 0,
            diff: CellDiff::Plain,
        }
    }
}

/// A buffer of `ratatui`.
#[verifier::external_type_specification]
#[verifier::external_body]
pub struct ExBuffer(ratatui::buffer::Buffer);

/// A color of `ratatui`.
#[verifier::external_type_specification]
#[verifier::external_body]
pub struct ExColor(ratatui::style::Color);

/// The color that an outside color is.
pub uninterp spec fn color_of(color: ratatui::style::Color) -> CellColor;

/// The area that a buffer covers.
pub uninterp spec fn drawn_area(buffer: ratatui::buffer::Buffer) -> Area;

/// What the cells of a buffer hold, by their places.
pub uninterp spec fn drawn_cells(buffer: ratatui::buffer::Buffer) -> Map<(u16, u16), CellContent>;

/// What the cells of a buffer hold once `ratatui` has written a text into them.
pub uninterp spec fn written_cells(
    cells: Map<(u16, u16), CellContent>,
    area: Area,
    x: u16,
    y: u16,
    text: Seq<char>,
    width: usize,
    fg: CellColor,
) -> Map<(u16, u16), CellContent>;

/// A buffer holds a cell for every place in its area.
pub open spec fn whole(buffer: ratatui::buffer::Buffer) -> bool {
    forall|x: u16, y: u16| #[trigger]
        drawn_area(buffer).contains(x as int, y as int) ==> drawn_cells(buffer).dom().contains(
            (x, y),
        )
}

/// The variant of `ratatui::style::Color` with the same name and fields.
#[verifier::external_body]
pub(crate) fn outside_color(color: CellColor) -> (r: ratatui::style::Color)
    ensures
        color_of(r) == color,
{
    match color {
        CellColor::Reset => Color::Reset, CellColor::Black => Color::Black,
        CellColor::Red => Color::Red, CellColor::Green => Color::Green,
        CellColor::Yellow => Color::Yellow, CellColor::Blue => Color::Blue,
        CellColor::Magenta => Color::Magenta, CellColor::Cyan => Color::Cyan,
        CellColor::Gray => Color::Gray, CellColor::DarkGray => Color::DarkGray,
        CellColor::LightRed => Color::LightRed, CellColor::LightGreen => Color::LightGreen,
        CellColor::LightYellow => Color::LightYellow, CellColor::LightBlue => Color::LightBlue,
        CellColor::LightMagenta => Color::LightMagenta, CellColor::LightCyan => Color::LightCyan,
        CellColor::White => Color::White, CellColor::Rgb(r, g, b) => Color::Rgb(r, g, b),
        CellColor::Indexed(index) => Color::Indexed(index),
    }
}

/// `ratatui::buffer::Buffer::area`, as plain numbers.
#[verifier::external_body]
pub(crate) fn area_of(buffer: &ratatui::buffer::Buffer) -> (r: Area)
    ensures
        r == drawn_area(*buffer),
{
    Area {
        x: buffer.area.x,
        y: buffer.area.y,
        width: buffer.area.width,
        height: buffer.area.height,
    }
}

/// The length of `ratatui::buffer::Buffer::content`. A buffer keeps the cell of a place at the
/// place's index in its area, counted row by row, and finds none there where its content is
/// shorter: it holds a cell for every place just where it has at least as many cells as its
/// area has places. An area that reaches past the last coordinate is left out.
#[verifier::external_body]
fn cell_count(buffer: &ratatui::buffer::Buffer) -> (r: usize)
    ensures
        drawn_area(*buffer).bounded() ==> (whole(*buffer) <==> r >= drawn_area(*buffer).width
            * drawn_area(*buffer).height),
{
    buffer.content.len()
}

/// Whether a buffer holds a cell for every place in its area, and no place lies past the last
/// coordinate.
pub fn is_whole(buffer: &ratatui::buffer::Buffer) -> (r: bool)
    ensures
        r <==> whole(*buffer) && drawn_area(*buffer).bounded(),
{
    let area = area_of(buffer);
    assert(area.width * area.height <= 65535 * 65535) by (nonlinear_arith)
        requires
            area.width <= 65535,
            area.height <= 65535,
    ;
    let places: u64 = area.width as u64 * area.height as u64;
    area.is_bounded() && cell_count(buffer) as u64 >= places
}

/// Whether an area of a buffer can be drawn into.
pub fn can_draw(buffer: &ratatui::buffer::Buffer, area: Area) -> (r: bool)
    ensures
        r <==> whole(*buffer) && drawn_area(*buffer).bounded() && drawn_area(*buffer).encloses(
            area,
        ),
{
    is_whole(buffer) && area_of(buffer).is_enclosing(area)
}

/// `ratatui::buffer::Cell::reset`, on the cell at a place: it holds a space, no style and no
/// diff option. Indexing a buffer outside of its cells panics.
#[verifier::external_body]
pub(crate) fn reset_cell(buffer: &mut ratatui::buffer::Buffer, x: u16, y: u16)
    requires
        drawn_cells(*old(buffer)).dom().contains((x, y)),
    ensures
        drawn_area(*final(buffer)) == drawn_area(*old(buffer)),
        drawn_cells(*final(buffer)) == drawn_cells(*old(buffer)).insert(
            (x, y),
            CellContent::blank(),
        ),
{
    buffer[(x, y)].reset();
}

/// `ratatui::buffer::Cell::set_style`, on the cell at a place, with a style of both colors,
/// perhaps an underline color, and modifiers to add: the colors given replace the cell's, and
/// the modifiers join the cell's. A modifier keeps bits that have no name.
#[verifier::external_body]
pub(crate) fn style_cell(
    buffer: &mut ratatui::buffer::Buffer,
    x: u16,
    y: u16,
    fg: ratatui::style::Color,
    bg: ratatui::style::Color,
    underline: Option<ratatui::style::Color>,
    modifier: u16,
)
    requires
        drawn_cells(*old(buffer)).dom().contains((x, y)),
    ensures
        drawn_area(*final(buffer)) == drawn_area(*old(buffer)),
        drawn_cells(*final(buffer)) == drawn_cells(*old(buffer)).insert(
            (x, y),
            CellContent {
                fg: color_of(fg),
                bg: color_of(bg),
                underline: match underline {
                    Some(color) => color_of(color),
                    None => drawn_cells(*old(buffer))[(x, y)].underline,
                },
                modifier: drawn_cells(*old(buffer))[(x, y)].modifier | modifier,
                ..drawn_cells(*old(buffer))[(x, y)]
            },
        ),
{
    let mut style = Style::new().fg(fg).bg(bg);
    style.underline_color = underline;
    buffer[(x, y)].set_style(style.add_modifier(Modifier::from_bits_retain(modifier)));
}

/// `ratatui::buffer::Cell::set_symbol`, on the cell at a place.
#[verifier::external_body]
pub(crate) fn set_symbol(buffer: &mut ratatui::buffer::Buffer, x: u16, y: u16, symbol: &str)
    requires
        drawn_cells(*old(buffer)).dom().contains((x, y)),
    ensures
        drawn_area(*final(buffer)) == drawn_area(*old(buffer)),
        drawn_cells(*final(buffer)) == drawn_cells(*old(buffer)).insert(
            (x, y),
            CellContent { symbol: symbol@, ..drawn_cells(*old(buffer))[(x, y)] },
        ),
{
    buffer[(x, y)].set_symbol(symbol);
}

/// `ratatui::buffer::Cell::set_diff_option`, on the cell at a place. A forced width is not
/// zero.
#[verifier::external_body]
pub(crate) fn set_diff(buffer: &mut ratatui::buffer::Buffer, x: u16, y: u16, diff: CellDiff)
    requires
        drawn_cells(*old(buffer)).dom().contains((x, y)),
        diff matches CellDiff::ForcedWidth(width) ==> width > 0,
    ensures
        drawn_area(*final(buffer)) == drawn_area(*old(buffer)),
        drawn_cells(*final(buffer)) == drawn_cells(*old(buffer)).insert(
            (x, y),
            CellContent { diff, ..drawn_cells(*old(buffer))[(x, y)] },
        ),
{
    let option = match diff {
        CellDiff::Plain => CellDiffOption::None,
        CellDiff::Skip => CellDiffOption::Skip,
        CellDiff::AlwaysUpdate => CellDiffOption::AlwaysUpdate,
        CellDiff::ForcedWidth(width) => CellDiffOption::ForcedWidth(width.try_into().unwrap()),
    };
    buffer[(x, y)].set_diff_option(option);
}

/// `ratatui::buffer::Buffer::set_stringn`, with a style of one color: it writes the graphemes
/// of a text from a place on, as many as fit in `width` columns and in the buffer. What they
/// are and how wide is not stated; no cell outside of those columns of the row changes.
#[verifier::external_body]
pub(crate) fn write_text(
    buffer: &mut ratatui::buffer::Buffer,
    x: u16,
    y: u16,
    text: &str,
    width: usize,
    fg: ratatui::style::Color,
)
    requires
        whole(*old(buffer)),
        drawn_area(*old(buffer)).bounded(),
        drawn_area(*old(buffer)).contains(x as int, y as int),
    ensures
        drawn_area(*final(buffer)) == drawn_area(*old(buffer)),
        drawn_cells(*final(buffer)) == written_cells(
            drawn_cells(*old(buffer)),
            drawn_area(*old(buffer)),
            x,
            y,
            text@,
            width,
            color_of(fg),
        ),
        drawn_cells(*final(buffer)).dom() == drawn_cells(*old(buffer)).dom(),
        forall|a: u16, b: u16|
            !(b == y && x <= a < x + width) && #[trigger] drawn_cells(
                *old(buffer),
            ).dom().contains((a, b)) ==> drawn_cells(*final(buffer))[(a, b)] == drawn_cells(
                *old(buffer),
            )[(a, b)],
{
    buffer.set_stringn(x, y, text, width, Style::default().fg(fg));
}

/// An area holds the cells from its corner on, as many as it is wide and high, and no other.
pub proof fn areas_hold_their_cells(area: Area, x: int, y: int)
    ensures
        area.contains(x, y) <==> 0 <= x - area.x < area.width && 0 <= y - area.y < area.height,
        area.width > 0 && area.height > 0 ==> area.contains(area.x as int, area.y as int)
            && area.contains(area.x + area.width - 1, area.y + area.height - 1),
        !area.contains(area.x + area.width, y),
        !area.contains(x, area.y + area.height),
        area.x > 0 ==> !area.contains(area.x - 1, y),
        area.y > 0 ==> !area.contains(x, area.y - 1),
{
}

/// An area encloses another where it holds every cell of it.
pub proof fn enclosing_areas_hold_every_cell(outer: Area, inner: Area, x: int, y: int)
    ensures
        outer.encloses(outer),
        outer.encloses(inner) && inner.contains(x, y) ==> outer.contains(x, y),
        inner.width > 0 && inner.height > 0 && outer.contains(inner.x as int, inner.y as int)
            && outer.contains(inner.x + inner.width - 1, inner.y + inner.height - 1)
            ==> outer.encloses(inner),
{
}

/// An area is bounded where none of its edges lies past the last coordinate.
pub proof fn bounded_areas_end_on_the_screen(area: Area)
    ensures
        area.bounded() <==> area.x + area.width <= 65_535 && area.y + area.height <= 65_535,
{
}

/// A blank cell is a space in the terminal's own colors.
pub proof fn blank_cells_are_spaces()
    ensures
        CellContent::blank().symbol == seq![' '],
        CellContent::blank().fg == CellColor::Reset,
        CellContent::blank().bg == CellColor::Reset,
        CellContent::blank().underline == CellColor::Reset,
        CellContent::blank().modifier == 0,
        CellContent::blank().diff == CellDiff::Plain,
{
}

} // verus!
