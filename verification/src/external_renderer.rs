//! Direct rendering of a checkpoint-backed external terminal into a buffer.
//!
//! The view types are the boundary to the terminal model: its owner copies what the model
//! holds into them, under a stable revision. Nothing here replays escape sequences, which
//! would lose parser state, the alternate screen, scrollback, wide cells and modes.
use vstd::prelude::*;

use crate::canvas::{
    area_of, drawn_area, drawn_cells, is_whole, outside_color, reset_cell, set_diff, set_symbol,
    style_cell, whole, Area, CellColor, CellContent, CellDiff, Position,
};
use crate::text::{byte_count, byte_len, decimal, decimal_text};

verus! {

/// The number of palette entries of a terminal model.
pub const EXTERNAL_PALETTE_LEN: usize = 269;

/// Where the underline variant stands in a modifier.
pub const UNDERLINE_STYLE_SHIFT: u16 = 12;

pub const UNDERLINE_STYLE_MASK: u16 = 0xF000;

/// A three-component color copied from the terminal model.
#[derive(Clone, Copy, Debug, PartialEq, Eq, Structural)]
pub struct ExternalRgb {
    pub r: u8,
    pub g: u8,
    pub b: u8,
}

impl ExternalRgb {
    pub fn new(r: u8, g: u8, b: u8) -> (rgb: Self)
        ensures
            rgb == (ExternalRgb { r, g, b }),
    {
        ExternalRgb { r, g, b }
    }
}

/// The palette of one external terminal model. An entry without a color has no override in
/// the model: the renderer falls back to the theme for the special entries and keeps the
/// ordinary ones indexed.
#[derive(Clone, Copy, Debug, PartialEq, Eq)]
pub struct ExternalPalette {
    pub named: [Option<ExternalRgb>; 269],
}

impl ExternalPalette {
    /// The color of an entry, where it has one.
    pub open spec fn color(self, index: int) -> Option<ExternalRgb> {
        if 0 <= index < 269 {
            self.named@[index]
        } else {
            None
        }
    }

    pub fn empty() -> (r: Self)
        ensures
            forall|i: int| #[trigger] r.color(i) is None,
    {
        ExternalPalette { named: [None; 269] }
    }

    /// Set one entry. There is none at an index out of range.
    pub fn set_named(&mut self, index: usize, color: ExternalRgb) -> (r: bool)
        ensures
            r == (index < EXTERNAL_PALETTE_LEN),
            forall|i: int| #[trigger]
                final(self).color(i) == (if r && i == index {
                    Some(color)
                } else {
                    old(self).color(i)
                }),
    {
        if index >= EXTERNAL_PALETTE_LEN {
            return false;
        }
        self.named[index] = Some(color);
        true
    }

    pub fn named(&self, index: usize) -> (r: Option<ExternalRgb>)
        ensures
            r == self.color(index as int),
    {
        if index < EXTERNAL_PALETTE_LEN {
            self.named[index]
        } else {
            None
        }
    }
}

/// The host's colors, for named foregrounds and backgrounds that the model does not override.
#[derive(Clone, Copy, Debug, PartialEq, Eq, Structural)]
pub struct ExternalTheme {
    pub foreground: CellColor,
    pub background: CellColor,
    pub cursor: CellColor,
}

impl Default for ExternalTheme {
    fn default() -> (r: Self)
        ensures
            r.foreground == CellColor::Reset,
            r.background == CellColor::Reset,
            r.cursor == CellColor::Reset,
    {
        ExternalTheme {
            foreground: CellColor::Reset,
            background: CellColor::Reset,
            cursor: CellColor::Reset,
        }
    }
}

/// A color as the terminal model refers to it. A named one is an index into the palette,
/// the special entries included.
#[derive(Clone, Copy, Debug, PartialEq, Eq, Structural)]
pub enum ExternalColor {
    Named(u16),
    Indexed(u8),
    Spec(ExternalRgb),
    DefaultForeground,
    DefaultBackground,
    Reset,
}

/// The flags of a cell, with the bits that the terminal model gives them. Bits without a
/// meaning here are kept.
#[derive(Clone, Copy, Debug, PartialEq, Eq, Structural)]
pub struct ExternalCellFlags(pub u16);

impl ExternalCellFlags {
    pub const INVERSE: u16 = 0x0001;

    pub const BOLD: u16 = 0x0002;

    pub const ITALIC: u16 = 0x0004;

    pub const UNDERLINE: u16 = 0x0008;

    pub const WRAPLINE: u16 = 0x0010;

    pub const WIDE_CHAR: u16 = 0x0020;

    pub const WIDE_CHAR_SPACER: u16 = 0x0040;

    pub const DIM: u16 = 0x0080;

    pub const HIDDEN: u16 = 0x0100;

    pub const STRIKEOUT: u16 = 0x0200;

    pub const LEADING_WIDE_CHAR_SPACER: u16 = 0x0400;

    pub const DOUBLE_UNDERLINE: u16 = 0x0800;

    pub const UNDERCURL: u16 = 0x1000;

    pub const DOTTED_UNDERLINE: u16 = 0x2000;

    pub const DASHED_UNDERLINE: u16 = 0x4000;

    /// All bits of `other` are set.
    pub open spec fn has(self, other: u16) -> bool {
        self.0 & other == other
    }

    /// Some bit of `other` is set.
    pub open spec fn has_any(self, other: u16) -> bool {
        self.0 & other != 0
    }

    pub fn empty() -> (r: Self)
        ensures
            r.0 == 0,
    {
        ExternalCellFlags(0)
    }

    pub fn from_bits_retain(bits: u16) -> (r: Self)
        ensures
            r.0 == bits,
    {
        ExternalCellFlags(bits)
    }

    pub fn bits(self) -> (r: u16)
        ensures
            r == self.0,
    {
        self.0
    }

    pub fn contains(self, other: Self) -> (r: bool)
        ensures
            r == self.has(other.0),
    {
        self.0 & other.0 == other.0
    }

    pub fn intersects(self, other: Self) -> (r: bool)
        ensures
            r == self.has_any(other.0),
    {
        self.0 & other.0 != 0
    }
}

impl std::ops::BitOr for ExternalCellFlags {
    type Output = Self;

    fn bitor(self, rhs: Self) -> (r: Self) {
        ExternalCellFlags(self.0 | rhs.0)
    }
}

impl vstd::std_specs::ops::BitOrSpecImpl for ExternalCellFlags {
    open spec fn obeys_bitor_spec() -> bool {
        true
    }

    open spec fn bitor_req(self, rhs: Self) -> bool {
        true
    }

    open spec fn bitor_spec(self, rhs: Self) -> Self {
        ExternalCellFlags(self.0 | rhs.0)
    }
}

/// The width of one cell in a row.
#[derive(Clone, Copy, Debug, PartialEq, Eq, Structural)]
pub enum ExternalCellWidth {
    /// A cell whose base character is visible in its own column.
    Narrow,
    /// The leading cell of a two-column glyph.
    Wide,
    /// The trailing spacer that a wide glyph covers.
    WideSpacer,
    /// A spacer at the beginning of a row for a wide glyph that wrapped.
    LeadingWideSpacer,
}

impl ExternalCellWidth {
    pub open spec fn spacer(self) -> bool {
        self == ExternalCellWidth::WideSpacer || self == ExternalCellWidth::LeadingWideSpacer
    }

    fn is_spacer(self) -> (r: bool)
        ensures
            r == self.spacer(),
    {
        match self {
            ExternalCellWidth::WideSpacer | ExternalCellWidth::LeadingWideSpacer => true,
            _ => false,
        }
    }
}

#[derive(Clone, Copy, Debug, PartialEq, Eq, Structural)]
pub enum ExternalUnderline {
    Single,
    Double,
    Curly,
    Dotted,
    Dashed,
}

impl ExternalUnderline {
    /// The number that stands for a variant in a modifier.
    pub open spec fn code(self) -> u16 {
        match self {
            ExternalUnderline::Single => 1,
            ExternalUnderline::Double => 2,
            ExternalUnderline::Curly => 3,
            ExternalUnderline::Dotted => 4,
            ExternalUnderline::Dashed => 5,
        }
    }

    fn wire_code(self) -> (r: u16)
        ensures
            r == self.code(),
    {
        match self {
            ExternalUnderline::Single => 1,
            ExternalUnderline::Double => 2,
            ExternalUnderline::Curly => 3,
            ExternalUnderline::Dotted => 4,
            ExternalUnderline::Dashed => 5,
        }
    }
}

/// One cell of the terminal model: its base character and the characters that combine with
/// it are the whole grapheme.
#[derive(Clone, Copy, Debug, PartialEq, Eq)]
pub struct ExternalCellView<'a> {
    pub base: char,
    pub zero_width: &'a [char],
    pub fg: ExternalColor,
    pub bg: ExternalColor,
    pub underline_color: Option<ExternalColor>,
    pub flags: ExternalCellFlags,
    pub width: ExternalCellWidth,
    /// Index into the hyperlinks of the view.
    pub hyperlink: Option<u32>,
}

/// The underline that some flags stand for, the rarest variant first.
pub open spec fn underline_of(flags: ExternalCellFlags) -> Option<ExternalUnderline> {
    if flags.has(ExternalCellFlags::DASHED_UNDERLINE) {
        Some(ExternalUnderline::Dashed)
    } else if flags.has(ExternalCellFlags::DOTTED_UNDERLINE) {
        Some(ExternalUnderline::Dotted)
    } else if flags.has(ExternalCellFlags::UNDERCURL) {
        Some(ExternalUnderline::Curly)
    } else if flags.has(ExternalCellFlags::DOUBLE_UNDERLINE) {
        Some(ExternalUnderline::Double)
    } else if flags.has(ExternalCellFlags::UNDERLINE) {
        Some(ExternalUnderline::Single)
    } else {
        None
    }
}

impl<'a> ExternalCellView<'a> {
    /// A cell without styles or a hyperlink.
    pub fn plain(base: char) -> (r: Self)
        ensures
            r.base == base,
            r.zero_width@.len() == 0,
            r.fg == ExternalColor::DefaultForeground,
            r.bg == ExternalColor::DefaultBackground,
            r.underline_color is None,
            r.flags.0 == 0,
            r.width == ExternalCellWidth::Narrow,
            r.hyperlink is None,
    {
        ExternalCellView {
            base,
            zero_width: &[],
            fg: ExternalColor::DefaultForeground,
            bg: ExternalColor::DefaultBackground,
            underline_color: None,
            flags: ExternalCellFlags::empty(),
            width: ExternalCellWidth::Narrow,
            hyperlink: None,
        }
    }

    /// The underline that the cell's flags stand for.
    pub fn underline(self) -> (r: Option<ExternalUnderline>)
        ensures
            r == underline_of(self.flags),
    {
        let bits: u16 = self.flags.0;
        if bits & ExternalCellFlags::DASHED_UNDERLINE == ExternalCellFlags::DASHED_UNDERLINE {
            Some(ExternalUnderline::Dashed)
        } else if bits & ExternalCellFlags::DOTTED_UNDERLINE
            == ExternalCellFlags::DOTTED_UNDERLINE {
            Some(ExternalUnderline::Dotted)
        } else if bits & ExternalCellFlags::UNDERCURL == ExternalCellFlags::UNDERCURL {
            Some(ExternalUnderline::Curly)
        } else if bits & ExternalCellFlags::DOUBLE_UNDERLINE
            == ExternalCellFlags::DOUBLE_UNDERLINE {
            Some(ExternalUnderline::Double)
        } else if bits & ExternalCellFlags::UNDERLINE == ExternalCellFlags::UNDERLINE {
            Some(ExternalUnderline::Single)
        } else {
            None
        }
    }
}

/// A row of the viewport, top to bottom.
#[derive(Clone, Copy, Debug, PartialEq, Eq)]
pub struct ExternalRowView<'a> {
    pub cells: &'a [ExternalCellView<'a>],
}

/// One hyperlink of the terminal model.
#[derive(Clone, Copy, Debug, PartialEq, Eq)]
pub struct ExternalHyperlink<'a> {
    pub id: &'a str,
    pub uri: &'a str,
}

#[derive(Clone, Copy, Debug, PartialEq, Eq, Structural)]
pub enum ExternalCursorShape {
    Block { blinking: bool },
    Underline { blinking: bool },
    Bar { blinking: bool },
    Hidden,
}

/// The cursor of the model, in viewport coordinates.
#[derive(Clone, Copy, Debug, PartialEq, Eq, Structural)]
pub struct ExternalCursor {
    pub x: u16,
    pub y: u16,
    pub visible: bool,
    pub shape: ExternalCursorShape,
}

/// How the model reports the mouse.
#[derive(Clone, Copy, Debug, PartialEq, Eq, Structural)]
pub enum ExternalMouseMode {
    Off,
    Button,
    CellMotion,
    AllMotion,
}

/// The modes of the model that matter for its presentation.
#[derive(Clone, Copy, Debug, PartialEq, Eq, Structural)]
pub struct ExternalModes {
    pub alternate_screen: bool,
    pub line_wrap: bool,
    pub origin: bool,
    pub insert: bool,
    pub mouse: ExternalMouseMode,
    pub sgr_pixel_mouse: bool,
    pub focus_reporting: bool,
    pub bracketed_paste: bool,
    pub synchronized_output: bool,
}

/// Where the model's viewport stands in its history.
#[derive(Clone, Copy, Debug, PartialEq, Eq, Structural)]
pub struct ExternalScrollMetrics {
    /// Current offset from the newest visible line.
    pub offset_from_bottom: usize,
    /// The largest offset that the model accepts.
    pub max_offset_from_bottom: usize,
    /// The number of visible rows.
    pub viewport_rows: usize,
    /// The number of retained rows before the viewport.
    pub history_rows: usize,
}

impl ExternalScrollMetrics {
    pub fn at_bottom(self) -> (r: bool)
        ensures
            r == (self.offset_from_bottom == 0),
    {
        self.offset_from_bottom == 0
    }
}

/// A stable snapshot of the model. Its rows are the viewport at the model's offset, top to
/// bottom; an offset of a client's own is resolved by the model's owner.
#[derive(Clone, Copy, Debug, PartialEq, Eq)]
pub struct ExternalTerminalView<'a> {
    /// Even once the model is stable, odd while it changes.
    pub content_revision: u64,
    pub columns: u16,
    pub screen_lines: u16,
    pub rows: &'a [ExternalRowView<'a>],
    pub palette: &'a ExternalPalette,
    pub theme: ExternalTheme,
    pub cursor: Option<ExternalCursor>,
    pub scroll: ExternalScrollMetrics,
    pub modes: ExternalModes,
    pub hyperlinks: &'a [ExternalHyperlink<'a>],
}

/// When the model's cursor is shown.
#[derive(Clone, Copy, Debug, PartialEq, Eq, Structural)]
pub enum ExternalCursorPolicy {
    Hidden,
    /// Only in a focused view at the bottom of the model.
    ReadOnlyFocused { focused: bool },
}

/// Options of the presentation alone.
#[derive(Clone, Copy, Debug, PartialEq, Eq, Structural)]
pub struct ExternalRenderOptions {
    pub cursor: ExternalCursorPolicy,
}

impl Default for ExternalRenderOptions {
    fn default() -> (r: Self)
        ensures
            r.cursor == ExternalCursorPolicy::Hidden,
    {
        ExternalRenderOptions { cursor: ExternalCursorPolicy::Hidden }
    }
}

/// The cursor to be shown, in coordinates of the rendered area.
#[derive(Clone, Copy, Debug, PartialEq, Eq, Structural)]
pub struct ExternalRenderedCursor {
    pub x: u16,
    pub y: u16,
    pub visible: bool,
    pub shape: ExternalCursorShape,
}

/// One visible cell of a hyperlink, in coordinates of the buffer.
#[derive(Clone, Debug, PartialEq, Eq)]
pub struct ExternalRenderedHyperlink {
    pub position: Position,
    pub symbol: String,
    pub id: String,
    pub uri: String,
}

/// Counts of what was rendered.
#[derive(Clone, Copy, Debug, PartialEq, Eq, Structural)]
pub struct ExternalRenderStats {
    pub cleared_cells: usize,
    pub visible_cells: usize,
    pub spacer_cells: usize,
    pub wide_cells: usize,
    pub combining_cells: usize,
}

/// What goes with a rendered buffer.
#[derive(Clone, Debug, PartialEq, Eq)]
pub struct ExternalRenderOutput {
    pub cursor: Option<ExternalRenderedCursor>,
    pub hyperlinks: Vec<ExternalRenderedHyperlink>,
    pub content_revision: u64,
    pub scroll: ExternalScrollMetrics,
    pub modes: ExternalModes,
    pub stats: ExternalRenderStats,
}

/// Why a view is refused, before it touches the buffer.
#[allow(inconsistent_fields)]
#[derive(Clone, Copy, Debug, PartialEq, Eq, Structural)]
pub enum ExternalRenderError {
    UnstableRevision(u64),
    EmptyDimensions,
    RowCount { expected: usize, actual: usize },
    CellCount { row: usize, expected: usize, actual: usize },
    InvalidScrollMetrics,
    CursorOutsideModel,
    HyperlinkIndex { row: usize, column: usize, index: u32 },
    HyperlinkTooLong { index: usize },
    InvalidNamedColor(u16),
    BufferAreaOutside { buffer: Area, requested: Area },
    InconsistentWidthFlags { row: usize, column: usize },
}

/// A palette index out of range.
pub open spec fn bad_color(color: ExternalColor) -> Option<u16> {
    match color {
        ExternalColor::Named(index) => if index >= EXTERNAL_PALETTE_LEN {
            Some(index)
        } else {
            None
        },
        _ => None,
    }
}

fn validate_color(color: ExternalColor) -> (r: Result<(), ExternalRenderError>)
    ensures
        match bad_color(color) {
            Some(index) => r == Err::<(), ExternalRenderError>(
                ExternalRenderError::InvalidNamedColor(index),
            ),
            None => r is Ok,
        },
{
    if let ExternalColor::Named(index) = color {
        if index as usize >= EXTERNAL_PALETTE_LEN {
            return Err(ExternalRenderError::InvalidNamedColor(index));
        }
    }
    Ok(())
}

/// The bits that say that a cell is part of a wide glyph.
pub open spec fn wide_bits() -> u16 {
    ExternalCellFlags::WIDE_CHAR | ExternalCellFlags::WIDE_CHAR_SPACER
        | ExternalCellFlags::LEADING_WIDE_CHAR_SPACER
}

/// The width and the flags of a cell disagree.
pub open spec fn width_disagrees(cell: ExternalCellView) -> bool {
    match cell.width {
        ExternalCellWidth::Narrow => cell.flags.has_any(wide_bits()),
        ExternalCellWidth::Wide => !cell.flags.has(ExternalCellFlags::WIDE_CHAR)
            || cell.flags.has_any(
            ExternalCellFlags::WIDE_CHAR_SPACER | ExternalCellFlags::LEADING_WIDE_CHAR_SPACER,
        ),
        ExternalCellWidth::WideSpacer => !cell.flags.has(ExternalCellFlags::WIDE_CHAR_SPACER),
        ExternalCellWidth::LeadingWideSpacer => !cell.flags.has(
            ExternalCellFlags::LEADING_WIDE_CHAR_SPACER,
        ),
    }
}

/// What is wrong with a cell, if anything.
pub open spec fn cell_defect(cell: ExternalCellView, links: nat, row: int, column: int) -> Option<
    ExternalRenderError,
> {
    if bad_color(cell.fg) is Some {
        Some(ExternalRenderError::InvalidNamedColor(bad_color(cell.fg)->0))
    } else if bad_color(cell.bg) is Some {
        Some(ExternalRenderError::InvalidNamedColor(bad_color(cell.bg)->0))
    } else if cell.underline_color is Some && bad_color(cell.underline_color->0) is Some {
        Some(ExternalRenderError::InvalidNamedColor(bad_color(cell.underline_color->0)->0))
    } else if cell.hyperlink is Some && cell.hyperlink->0 >= links {
        Some(
            ExternalRenderError::HyperlinkIndex {
                row: row as usize,
                column: column as usize,
                index: cell.hyperlink->0,
            },
        )
    } else if width_disagrees(cell) {
        Some(
            ExternalRenderError::InconsistentWidthFlags {
                row: row as usize,
                column: column as usize,
            },
        )
    } else {
        None
    }
}

/// The first thing wrong with a row from `column` on.
pub open spec fn row_defect(
    cells: Seq<ExternalCellView>,
    links: nat,
    row: int,
    column: nat,
) -> Option<ExternalRenderError>
    decreases cells.len() - column,
{
    if column >= cells.len() {
        None
    } else {
        match cell_defect(cells[column as int], links, row, column as int) {
            Some(defect) => Some(defect),
            None => row_defect(cells, links, row, column + 1),
        }
    }
}

/// The first thing wrong with the rows from `row` on.
pub open spec fn rows_defect(
    rows: Seq<ExternalRowView>,
    columns: u16,
    links: nat,
    row: nat,
) -> Option<ExternalRenderError>
    decreases rows.len() - row,
{
    if row >= rows.len() {
        None
    } else if rows[row as int].cells@.len() != columns {
        Some(
            ExternalRenderError::CellCount {
                row: row as usize,
                expected: columns as usize,
                actual: rows[row as int].cells@.len() as usize,
            },
        )
    } else {
        match row_defect(rows[row as int].cells@, links, row as int, 0) {
            Some(defect) => Some(defect),
            None => rows_defect(rows, columns, links, row + 1),
        }
    }
}

/// The first hyperlink, from `i` on, that is too long.
pub open spec fn long_link(links: Seq<ExternalHyperlink>, i: nat) -> Option<ExternalRenderError>
    decreases links.len() - i,
{
    if i >= links.len() {
        None
    } else if byte_len(links[i as int].id@) > 128 || byte_len(links[i as int].uri@) > 4096 {
        Some(ExternalRenderError::HyperlinkTooLong { index: i as usize })
    } else {
        long_link(links, i + 1)
    }
}

/// What is wrong with a view, if anything.
pub open spec fn view_defect(view: ExternalTerminalView) -> Option<ExternalRenderError> {
    let lines = view.screen_lines as usize;
    if view.content_revision % 2 != 0 {
        Some(ExternalRenderError::UnstableRevision(view.content_revision))
    } else if view.columns == 0 || view.screen_lines == 0 {
        Some(ExternalRenderError::EmptyDimensions)
    } else if view.rows@.len() != lines {
        Some(
            ExternalRenderError::RowCount { expected: lines, actual: view.rows@.len() as usize },
        )
    } else if view.scroll.viewport_rows != lines || view.scroll.offset_from_bottom
        > view.scroll.max_offset_from_bottom || view.scroll.max_offset_from_bottom
        > view.scroll.history_rows {
        Some(ExternalRenderError::InvalidScrollMetrics)
    } else if view.cursor is Some && (view.cursor->0.x >= view.columns || view.cursor->0.y
        >= view.screen_lines) {
        Some(ExternalRenderError::CursorOutsideModel)
    } else if long_link(view.hyperlinks@, 0) is Some {
        long_link(view.hyperlinks@, 0)
    } else {
        rows_defect(view.rows@, view.columns, view.hyperlinks@.len(), 0)
    }
}

fn check_cell(cell: &ExternalCellView<'_>, links: usize, row: usize, column: usize) -> (r: Result<
    (),
    ExternalRenderError,
>)
    ensures
        match cell_defect(*cell, links as nat, row as int, column as int) {
            Some(defect) => r == Err::<(), ExternalRenderError>(defect),
            None => r is Ok,
        },
{
    if let Err(error) = validate_color(cell.fg) {
        return Err(error);
    }
    if let Err(error) = validate_color(cell.bg) {
        return Err(error);
    }
    if let Some(color) = cell.underline_color {
        if let Err(error) = validate_color(color) {
            return Err(error);
        }
    }
    if let Some(index) = cell.hyperlink {
        if index as usize >= links {
            return Err(ExternalRenderError::HyperlinkIndex { row, column, index });
        }
    }
    let bits: u16 = cell.flags.0;
    let inconsistent: bool = match cell.width {
        ExternalCellWidth::Narrow => bits & (ExternalCellFlags::WIDE_CHAR
            | ExternalCellFlags::WIDE_CHAR_SPACER | ExternalCellFlags::LEADING_WIDE_CHAR_SPACER)
            != 0,
        ExternalCellWidth::Wide => bits & ExternalCellFlags::WIDE_CHAR
            != ExternalCellFlags::WIDE_CHAR || bits & (ExternalCellFlags::WIDE_CHAR_SPACER
            | ExternalCellFlags::LEADING_WIDE_CHAR_SPACER) != 0,
        ExternalCellWidth::WideSpacer => bits & ExternalCellFlags::WIDE_CHAR_SPACER
            != ExternalCellFlags::WIDE_CHAR_SPACER,
        ExternalCellWidth::LeadingWideSpacer => bits & ExternalCellFlags::LEADING_WIDE_CHAR_SPACER
            != ExternalCellFlags::LEADING_WIDE_CHAR_SPACER,
    };
    if inconsistent {
        return Err(ExternalRenderError::InconsistentWidthFlags { row, column });
    }
    Ok(())
}

impl<'a> ExternalTerminalView<'a> {
    /// Check the shape and the metadata of a view before anything is rendered.
    pub fn validate(&self) -> (r: Result<(), ExternalRenderError>)
        ensures
            match view_defect(*self) {
                Some(defect) => r == Err::<(), ExternalRenderError>(defect),
                None => r is Ok,
            },
    {
        if self.content_revision % 2 != 0 {
            return Err(ExternalRenderError::UnstableRevision(self.content_revision));
        }
        if self.columns == 0 || self.screen_lines == 0 {
            return Err(ExternalRenderError::EmptyDimensions);
        }
        let lines: usize = self.screen_lines as usize;
        if self.rows.len() != lines {
            return Err(
                ExternalRenderError::RowCount { expected: lines, actual: self.rows.len() },
            );
        }
        if self.scroll.viewport_rows != lines || self.scroll.offset_from_bottom
            > self.scroll.max_offset_from_bottom || self.scroll.max_offset_from_bottom
            > self.scroll.history_rows {
            return Err(ExternalRenderError::InvalidScrollMetrics);
        }
        if let Some(cursor) = self.cursor {
            if cursor.x >= self.columns || cursor.y >= self.screen_lines {
                return Err(ExternalRenderError::CursorOutsideModel);
            }
        }
        let links = self.hyperlinks;
        let mut i: usize = 0;
        while i < links.len()
            invariant
                i <= links@.len(),
                links@ == self.hyperlinks@,
                long_link(links@, 0) == long_link(links@, i as nat),
                view_defect(*self) == (if long_link(self.hyperlinks@, 0) is Some {
                    long_link(self.hyperlinks@, 0)
                } else {
                    rows_defect(self.rows@, self.columns, self.hyperlinks@.len(), 0)
                }),
            decreases links@.len() - i,
        {
            if byte_count(links[i].id) > 128 || byte_count(links[i].uri) > 4096 {
                return Err(ExternalRenderError::HyperlinkTooLong { index: i });
            }
            i = i + 1;
        }
        let columns: usize = self.columns as usize;
        let mut row: usize = 0;
        while row < self.rows.len()
            invariant
                row <= self.rows@.len(),
                columns == self.columns,
                links@ == self.hyperlinks@,
                view_defect(*self) == rows_defect(
                    self.rows@,
                    self.columns,
                    self.hyperlinks@.len(),
                    row as nat,
                ),
            decreases self.rows@.len() - row,
        {
            let cells = self.rows[row].cells;
            if cells.len() != columns {
                return Err(
                    ExternalRenderError::CellCount { row, expected: columns, actual: cells.len() },
                );
            }
            let mut column: usize = 0;
            while column < cells.len()
                invariant
                    row < self.rows@.len(),
                    column <= cells@.len(),
                    columns == self.columns,
                    cells@.len() == columns,
                    links@ == self.hyperlinks@,
                    cells@ == self.rows@[row as int].cells@,
                    view_defect(*self) == rows_defect(
                        self.rows@,
                        self.columns,
                        self.hyperlinks@.len(),
                        row as nat,
                    ),
                    row_defect(cells@, self.hyperlinks@.len(), row as int, 0) == row_defect(
                        cells@,
                        self.hyperlinks@.len(),
                        row as int,
                        column as nat,
                    ),
                decreases cells@.len() - column,
            {
                if let Err(error) = check_cell(&cells[column], links.len(), row, column) {
                    return Err(error);
                }
                column = column + 1;
            }
            row = row + 1;
        }
        Ok(())
    }
}

/// The color that a reference stands for, with a palette and a theme.
pub open spec fn resolved(
    color: ExternalColor,
    palette: ExternalPalette,
    theme: ExternalTheme,
) -> CellColor {
    match color {
        ExternalColor::DefaultForeground => theme.foreground,
        ExternalColor::DefaultBackground => theme.background,
        ExternalColor::Reset => CellColor::Reset,
        ExternalColor::Indexed(index) => CellColor::Indexed(index),
        ExternalColor::Spec(rgb) => CellColor::Rgb(rgb.r, rgb.g, rgb.b),
        ExternalColor::Named(index) => match palette.color(index as int) {
            Some(rgb) => CellColor::Rgb(rgb.r, rgb.g, rgb.b),
            None => if index == 256 || index == 267 || index == 268 {
                theme.foreground
            } else if index == 257 {
                theme.background
            } else if index == 258 {
                theme.cursor
            } else if 259 <= index <= 266 {
                CellColor::Indexed((index - 259) as u8)
            } else if index <= 255 {
                CellColor::Indexed(index as u8)
            } else {
                CellColor::Reset
            },
        },
    }
}

fn resolve_color(color: ExternalColor, palette: &ExternalPalette, theme: ExternalTheme) -> (r:
    CellColor)
    ensures
        r == resolved(color, *palette, theme),
{
    match color {
        ExternalColor::DefaultForeground => theme.foreground,
        ExternalColor::DefaultBackground => theme.background,
        ExternalColor::Reset => CellColor::Reset,
        ExternalColor::Indexed(index) => CellColor::Indexed(index),
        ExternalColor::Spec(rgb) => CellColor::Rgb(rgb.r, rgb.g, rgb.b),
        ExternalColor::Named(index) => {
            if let Some(rgb) = palette.named(index as usize) {
                return CellColor::Rgb(rgb.r, rgb.g, rgb.b);
            }
            if index == 256 || index == 267 || index == 268 {
                theme.foreground
            } else if index == 257 {
                theme.background
            } else if index == 258 {
                theme.cursor
            } else if 259 <= index && index <= 266 {
                CellColor::Indexed((index - 259) as u8)
            } else if index <= 255 {
                CellColor::Indexed(index as u8)
            } else {
                CellColor::Reset
            }
        },
    }
}

/// The modifier bits of a buffer's cell.
pub const MODIFIER_BOLD: u16 = 0x0001;

pub const MODIFIER_DIM: u16 = 0x0002;

pub const MODIFIER_ITALIC: u16 = 0x0004;

pub const MODIFIER_UNDERLINED: u16 = 0x0008;

pub const MODIFIER_HIDDEN: u16 = 0x0080;

pub const MODIFIER_CROSSED_OUT: u16 = 0x0100;

/// `bits`, where `flags` has all of `flag`.
pub open spec fn bits_if(flags: ExternalCellFlags, flag: u16, bits: u16) -> u16 {
    if flags.has(flag) {
        bits
    } else {
        0
    }
}

/// The modifier bits that stand for an underline, its variant among them.
pub open spec fn underline_bits(underline: Option<ExternalUnderline>) -> u16 {
    match underline {
        Some(underline) => MODIFIER_UNDERLINED | ((underline.code() << UNDERLINE_STYLE_SHIFT)
            & UNDERLINE_STYLE_MASK),
        None => 0,
    }
}

/// The modifier that some flags stand for.
pub open spec fn modifier_of(flags: ExternalCellFlags) -> u16 {
    bits_if(flags, ExternalCellFlags::BOLD, MODIFIER_BOLD) | bits_if(
        flags,
        ExternalCellFlags::ITALIC,
        MODIFIER_ITALIC,
    ) | bits_if(flags, ExternalCellFlags::DIM, MODIFIER_DIM) | bits_if(
        flags,
        ExternalCellFlags::HIDDEN,
        MODIFIER_HIDDEN,
    ) | bits_if(flags, ExternalCellFlags::STRIKEOUT, MODIFIER_CROSSED_OUT) | underline_bits(
        underline_of(flags),
    )
}

fn flag_bits(flags: ExternalCellFlags, flag: u16, bits: u16) -> (r: u16)
    ensures
        r == bits_if(flags, flag, bits),
{
    if flags.0 & flag == flag {
        bits
    } else {
        0
    }
}

/// The colors, the modifier and the underline color of a cell.
pub struct CellLook {
    pub fg: CellColor,
    pub bg: CellColor,
    pub modifier: u16,
    pub underline: Option<CellColor>,
}

/// How a cell looks: an inverse cell swaps its colors, and a hidden one has the color of its
/// background.
pub open spec fn look_of(
    cell: ExternalCellView,
    palette: ExternalPalette,
    theme: ExternalTheme,
) -> CellLook {
    let inverse = cell.flags.has(ExternalCellFlags::INVERSE);
    let front = resolved(cell.fg, palette, theme);
    let back = resolved(cell.bg, palette, theme);
    let bg = if inverse {
        front
    } else {
        back
    };
    CellLook {
        fg: if cell.flags.has(ExternalCellFlags::HIDDEN) {
            bg
        } else if inverse {
            back
        } else {
            front
        },
        bg,
        modifier: modifier_of(cell.flags),
        underline: match cell.underline_color {
            Some(color) => Some(resolved(color, palette, theme)),
            None => None,
        },
    }
}

fn cell_style(cell: ExternalCellView<'_>, palette: &ExternalPalette, theme: ExternalTheme) -> (r:
    CellLook)
    ensures
        r == look_of(cell, *palette, theme),
{
    let flags = cell.flags;
    let front = resolve_color(cell.fg, palette, theme);
    let back = resolve_color(cell.bg, palette, theme);
    let inverse: bool = flags.0 & ExternalCellFlags::INVERSE == ExternalCellFlags::INVERSE;
    let bg = if inverse {
        front
    } else {
        back
    };
    let fg = if flags.0 & ExternalCellFlags::HIDDEN == ExternalCellFlags::HIDDEN {
        bg
    } else if inverse {
        back
    } else {
        front
    };
    let underlined: u16 = match cell.underline() {
        Some(underline) => MODIFIER_UNDERLINED | ((underline.wire_code() << UNDERLINE_STYLE_SHIFT)
            & UNDERLINE_STYLE_MASK),
        None => 0,
    };
    let modifier: u16 = flag_bits(flags, ExternalCellFlags::BOLD, MODIFIER_BOLD) | flag_bits(
        flags,
        ExternalCellFlags::ITALIC,
        MODIFIER_ITALIC,
    ) | flag_bits(flags, ExternalCellFlags::DIM, MODIFIER_DIM) | flag_bits(
        flags,
        ExternalCellFlags::HIDDEN,
        MODIFIER_HIDDEN,
    ) | flag_bits(flags, ExternalCellFlags::STRIKEOUT, MODIFIER_CROSSED_OUT) | underlined;
    let underline = match cell.underline_color {
        Some(color) => Some(resolve_color(color, palette, theme)),
        None => None,
    };
    CellLook { fg, bg, modifier, underline }
}

/// The whole grapheme of a cell.
pub open spec fn grapheme(cell: ExternalCellView) -> Seq<char> {
    seq![cell.base] + cell.zero_width@
}

fn cell_text(cell: &ExternalCellView<'_>) -> (r: String)
    ensures
        r@ == grapheme(*cell),
{
    let mut symbol: String = String::new();
    symbol.push(cell.base);
    let marks = cell.zero_width;
    let mut i: usize = 0;
    assert(symbol@ =~= seq![cell.base] + marks@.take(0));
    while i < marks.len()
        invariant
            i <= marks@.len(),
            marks@ == cell.zero_width@,
            symbol@ == seq![cell.base] + marks@.take(i as int),
        decreases marks@.len() - i,
    {
        symbol.push(marks[i]);
        i = i + 1;
        assert(symbol@ =~= seq![cell.base] + marks@.take(i as int));
    }
    assert(marks@.take(i as int) =~= marks@);
    symbol
}

/// A cell of the area that shows nothing of the model.
pub open spec fn cleared_cell(theme: ExternalTheme) -> CellContent {
    CellContent { fg: theme.foreground, bg: theme.background, ..CellContent::blank() }
}

/// A buffer's cell that shows a cell of the model. A spacer keeps its style, so that a wide
/// glyph looks the same in both of its columns, but is skipped when buffers are compared; a
/// wide glyph keeps the width that the model gives it.
pub open spec fn shown_cell(
    cell: ExternalCellView,
    palette: ExternalPalette,
    theme: ExternalTheme,
) -> CellContent {
    let look = look_of(cell, palette, theme);
    CellContent {
        symbol: if cell.width.spacer() {
            seq![' ']
        } else {
            grapheme(cell)
        },
        fg: look.fg,
        bg: look.bg,
        underline: match look.underline {
            Some(color) => color,
            None => CellColor::Reset,
        },
        modifier: look.modifier,
        diff: if cell.width.spacer() {
            CellDiff::Skip
        } else if cell.width == ExternalCellWidth::Wide {
            CellDiff::ForcedWidth(2)
        } else {
            CellDiff::Plain
        },
    }
}

/// What the buffer's cell at a place holds once a view was rendered into an area.
pub open spec fn rendered_cell(
    view: ExternalTerminalView,
    area: Area,
    before: CellContent,
    x: int,
    y: int,
) -> CellContent {
    if !area.contains(x, y) {
        before
    } else if y - area.y < view.rows@.len() && x - area.x < view.columns {
        shown_cell(view.rows@[y - area.y].cells@[x - area.x], *view.palette, view.theme)
    } else {
        cleared_cell(view.theme)
    }
}

fn clear_cell(buffer: &mut ratatui::buffer::Buffer, x: u16, y: u16, theme: ExternalTheme)
    requires
        drawn_cells(*old(buffer)).dom().contains((x, y)),
    ensures
        drawn_area(*final(buffer)) == drawn_area(*old(buffer)),
        drawn_cells(*final(buffer)) == drawn_cells(*old(buffer)).insert(
            (x, y),
            cleared_cell(theme),
        ),
{
    reset_cell(buffer, x, y);
    let fg = outside_color(theme.foreground);
    let bg = outside_color(theme.background);
    style_cell(buffer, x, y, fg, bg, None, 0);
    assert(0u16 | 0u16 == 0u16) by (bit_vector);
    assert(drawn_cells(*buffer) =~= drawn_cells(*old(buffer)).insert((x, y), cleared_cell(theme)));
}

fn show_cell(
    buffer: &mut ratatui::buffer::Buffer,
    x: u16,
    y: u16,
    cell: ExternalCellView<'_>,
    symbol: &str,
    palette: &ExternalPalette,
    theme: ExternalTheme,
)
    requires
        drawn_cells(*old(buffer)).dom().contains((x, y)),
        symbol@ == grapheme(cell),
    ensures
        drawn_area(*final(buffer)) == drawn_area(*old(buffer)),
        drawn_cells(*final(buffer)) == drawn_cells(*old(buffer)).insert(
            (x, y),
            shown_cell(cell, *palette, theme),
        ),
{
    let look = cell_style(cell, palette, theme);
    reset_cell(buffer, x, y);
    let fg = outside_color(look.fg);
    let bg = outside_color(look.bg);
    let underline = match look.underline {
        Some(color) => Some(outside_color(color)),
        None => None,
    };
    style_cell(buffer, x, y, fg, bg, underline, look.modifier);
    let ghost modifier = look.modifier;
    assert(0u16 | modifier == modifier) by (bit_vector);
    if cell.width.is_spacer() {
        proof {
            reveal_strlit(" ");
            assert(" "@ =~= seq![' ']);
        }
        set_symbol(buffer, x, y, " ");
        set_diff(buffer, x, y, CellDiff::Skip);
    } else {
        set_symbol(buffer, x, y, symbol);
        if cell.width == ExternalCellWidth::Wide {
            set_diff(buffer, x, y, CellDiff::ForcedWidth(2));
        }
    }
    assert(drawn_cells(*buffer) =~= drawn_cells(*old(buffer)).insert(
        (x, y),
        shown_cell(cell, *palette, theme),
    ));
}

/// How many cells were rendered, by what they are.
#[verifier::ext_equal]
pub struct Tally {
    pub visible: nat,
    pub spacer: nat,
    pub wide: nat,
    pub combining: nat,
}

impl Tally {
    pub open spec fn with(self, cell: ExternalCellView) -> Tally {
        if cell.width.spacer() {
            Tally { spacer: self.spacer + 1, ..self }
        } else {
            Tally {
                visible: self.visible + 1,
                spacer: self.spacer,
                wide: self.wide + if cell.width == ExternalCellWidth::Wide {
                    1nat
                } else {
                    0nat
                },
                combining: self.combining + if cell.zero_width@.len() > 0 {
                    1nat
                } else {
                    0nat
                },
            }
        }
    }
}

/// A visible cell of a hyperlink.
#[verifier::ext_equal]
pub struct LinkView {
    pub position: Position,
    pub symbol: Seq<char>,
    pub id: Seq<char>,
    pub uri: Seq<char>,
}

impl View for ExternalRenderedHyperlink {
    type V = LinkView;

    open spec fn view(&self) -> LinkView {
        LinkView {
            position: self.position,
            symbol: self.symbol@,
            id: self.id@,
            uri: self.uri@,
        }
    }
}

pub open spec fn link_views(links: Seq<ExternalRenderedHyperlink>) -> Seq<LinkView> {
    Seq::new(links.len(), |i: int| links[i]@)
}

/// What was counted and which hyperlinks were met, once `columns` cells of `row` were
/// rendered after all of the rows above it, each of `width` cells.
pub open spec fn rendered_so_far(
    view: ExternalTerminalView,
    area: Area,
    width: nat,
    row: nat,
    columns: nat,
) -> (Tally, Seq<LinkView>)
    decreases row, columns,
{
    if columns == 0 {
        if row == 0 {
            (Tally { visible: 0, spacer: 0, wide: 0, combining: 0 }, Seq::empty())
        } else {
            rendered_so_far(view, area, width, (row - 1) as nat, width)
        }
    } else {
        let (tally, links) = rendered_so_far(view, area, width, row, (columns - 1) as nat);
        let cell = view.rows@[row as int].cells@[columns - 1];
        (
            tally.with(cell),
            if !cell.width.spacer() && cell.hyperlink is Some {
                let link = view.hyperlinks@[cell.hyperlink->0 as int];
                links.push(
                    LinkView {
                        position: Position {
                            x: (area.x + columns - 1) as u16,
                            y: (area.y + row) as u16,
                        },
                        symbol: grapheme(cell),
                        id: link.id@,
                        uri: link.uri@,
                    },
                )
            } else {
                links
            },
        )
    }
}

/// The cursor that is shown, if one is.
pub open spec fn shown_cursor(
    view: ExternalTerminalView,
    area: Area,
    policy: ExternalCursorPolicy,
) -> Option<ExternalRenderedCursor> {
    let allowed = match policy {
        ExternalCursorPolicy::Hidden => false,
        ExternalCursorPolicy::ReadOnlyFocused { focused } => focused
            && view.scroll.offset_from_bottom == 0,
    };
    match view.cursor {
        Some(cursor) => if allowed && cursor.visible && cursor.shape != ExternalCursorShape::Hidden
            && cursor.x < area.width && cursor.y < area.height {
            Some(
                ExternalRenderedCursor {
                    x: cursor.x,
                    y: cursor.y,
                    visible: true,
                    shape: cursor.shape,
                },
            )
        } else {
            None
        },
        None => None,
    }
}

fn rendered_cursor(
    view: &ExternalTerminalView<'_>,
    area: Area,
    policy: ExternalCursorPolicy,
) -> (r: Option<ExternalRenderedCursor>)
    ensures
        r == shown_cursor(*view, area, policy),
{
    let allowed: bool = match policy {
        ExternalCursorPolicy::Hidden => false,
        ExternalCursorPolicy::ReadOnlyFocused { focused } => focused && view.scroll.at_bottom(),
    };
    match view.cursor {
        Some(cursor) => {
            let hidden: bool = match cursor.shape {
                ExternalCursorShape::Hidden => true,
                _ => false,
            };
            if !allowed || !cursor.visible || hidden || cursor.x >= area.width || cursor.y
                >= area.height {
                return None;
            }
            Some(
                ExternalRenderedCursor {
                    x: cursor.x,
                    y: cursor.y,
                    visible: true,
                    shape: cursor.shape,
                },
            )
        },
        None => None,
    }
}

proof fn lemma_row_is_sound(rows: Seq<ExternalRowView>, columns: u16, links: nat, from: nat, row: int)
    requires
        rows_defect(rows, columns, links, from) is None,
        from <= row < rows.len(),
    ensures
        rows[row].cells@.len() == columns,
        row_defect(rows[row].cells@, links, row, 0) is None,
    decreases row - from,
{
    if from < row {
        lemma_row_is_sound(rows, columns, links, from + 1, row);
    }
}

proof fn lemma_cell_is_sound(
    cells: Seq<ExternalCellView>,
    links: nat,
    row: int,
    from: nat,
    column: int,
)
    requires
        row_defect(cells, links, row, from) is None,
        from <= column < cells.len(),
    ensures
        cell_defect(cells[column], links, row, column) is None,
    decreases column - from,
{
    if from < column {
        lemma_cell_is_sound(cells, links, row, from + 1, column);
    }
}

/// Why a view is not rendered into an area, if it is not.
pub open spec fn render_defect(view: ExternalTerminalView, drawn: Area, area: Area) -> Option<
    ExternalRenderError,
> {
    if view_defect(view) is Some {
        view_defect(view)
    } else if !drawn.encloses(area) {
        Some(ExternalRenderError::BufferAreaOutside { buffer: drawn, requested: area })
    } else {
        None
    }
}

pub open spec fn smaller(a: nat, b: nat) -> nat {
    if a < b {
        a
    } else {
        b
    }
}

/// What goes with a view that was rendered into an area.
pub open spec fn accompanies(
    output: ExternalRenderOutput,
    view: ExternalTerminalView,
    area: Area,
    options: ExternalRenderOptions,
) -> bool {
    let columns = smaller(area.width as nat, view.columns as nat);
    let rows = smaller(area.height as nat, view.rows@.len());
    let (tally, links) = rendered_so_far(view, area, columns, rows, 0);
    &&& output.cursor == shown_cursor(view, area, options.cursor)
    &&& link_views(output.hyperlinks@) == links
    &&& output.content_revision == view.content_revision
    &&& output.scroll == view.scroll
    &&& output.modes == view.modes
    &&& output.stats.cleared_cells == area.width * area.height
    &&& output.stats.visible_cells == tally.visible
    &&& output.stats.spacer_cells == tally.spacer
    &&& output.stats.wide_cells == tally.wide
    &&& output.stats.combining_cells == tally.combining
}

fn clear_area(buffer: &mut ratatui::buffer::Buffer, area: Area, theme: ExternalTheme) -> (r: usize)
    requires
        whole(*old(buffer)),
        drawn_area(*old(buffer)).encloses(area),
        area.bounded(),
    ensures
        r == area.width * area.height,
        drawn_area(*final(buffer)) == drawn_area(*old(buffer)),
        drawn_cells(*final(buffer)).dom() == drawn_cells(*old(buffer)).dom(),
        forall|x: u16, y: u16| #[trigger]
            drawn_cells(*old(buffer)).dom().contains((x, y)) ==> drawn_cells(*final(buffer))[(
                x,
                y,
            )] == (if area.contains(x as int, y as int) {
                cleared_cell(theme)
            } else {
                drawn_cells(*old(buffer))[(x, y)]
            }),
{
    let ghost start = drawn_cells(*buffer);
    let ghost places = start.dom();
    let ghost outer = drawn_area(*buffer);
    let bottom: u16 = area.y + area.height;
    let right: u16 = area.x + area.width;
    let mut cleared: usize = 0;
    let mut y: u16 = area.y;
    while y < bottom
        invariant
            area.y <= y <= bottom,
            bottom == area.y + area.height,
            right == area.x + area.width,
            area.bounded(),
            whole(*old(buffer)),
            outer == drawn_area(*old(buffer)),
            outer.encloses(area),
            drawn_area(*buffer) == outer,
            drawn_cells(*buffer).dom() == places,
            places == start.dom(),
            start == drawn_cells(*old(buffer)),
            cleared == (y - area.y) * area.width,
            forall|a: u16, b: u16| #[trigger]
                places.contains((a, b)) ==> drawn_cells(*buffer)[(a, b)] == (if area.contains(
                    a as int,
                    b as int,
                ) && b < y {
                    cleared_cell(theme)
                } else {
                    start[(a, b)]
                }),
        decreases bottom - y,
    {
        let mut x: u16 = area.x;
        proof {
            assert((y - area.y) * area.width + area.width <= 65535 * 65535 && (y - area.y)
                * area.width + area.width == (y + 1 - area.y) * area.width) by (nonlinear_arith)
                requires
                    0 <= y - area.y < 65535,
                    area.width <= 65535,
            ;
        }
        while x < right
            invariant
                area.x <= x <= right,
                area.y <= y < bottom,
                bottom == area.y + area.height,
                right == area.x + area.width,
                area.bounded(),
                whole(*old(buffer)),
                outer == drawn_area(*old(buffer)),
                outer.encloses(area),
                drawn_area(*buffer) == outer,
                drawn_cells(*buffer).dom() == places,
                places == start.dom(),
                start == drawn_cells(*old(buffer)),
                (y - area.y) * area.width + area.width <= 65535 * 65535,
                cleared == (y - area.y) * area.width + (x - area.x),
                forall|a: u16, b: u16| #[trigger]
                    places.contains((a, b)) ==> drawn_cells(*buffer)[(a, b)] == (
                    if area.contains(a as int, b as int) && (b < y || (b == y && a < x)) {
                        cleared_cell(theme)
                    } else {
                        start[(a, b)]
                    }),
            decreases right - x,
        {
            assert(outer.contains(x as int, y as int));
            assert(places.contains((x, y)));
            clear_cell(buffer, x, y, theme);
            assert(drawn_cells(*buffer).dom() =~= places);
            cleared = cleared + 1;
            x = x + 1;
        }
        y = y + 1;
    }
    assert((y - area.y) * area.width == area.width * area.height) by (nonlinear_arith)
        requires
            y - area.y == area.height,
    ;
    cleared
}

/// `r` answers the rendering of a view into an area of a buffer, and `after` is the buffer
/// once it was rendered. A view that is refused leaves the buffer as it is.
pub open spec fn renders(
    before: ratatui::buffer::Buffer,
    area: Area,
    view: ExternalTerminalView,
    options: ExternalRenderOptions,
    r: Result<ExternalRenderOutput, ExternalRenderError>,
    after: ratatui::buffer::Buffer,
) -> bool {
    match render_defect(view, drawn_area(before), area) {
        Some(defect) => r == Err::<ExternalRenderOutput, ExternalRenderError>(defect) && after
            == before,
        None => {
            &&& r matches Ok(output) && accompanies(output, view, area, options)
            &&& drawn_area(after) == drawn_area(before)
            &&& drawn_cells(after).dom() == drawn_cells(before).dom()
            &&& forall|x: u16, y: u16| #[trigger]
                drawn_cells(before).dom().contains((x, y)) ==> drawn_cells(after)[(x, y)]
                    == rendered_cell(view, area, drawn_cells(before)[(x, y)], x as int, y as int)
        },
    }
}

/// Check a view and render it into an area of a buffer. The whole area is first cleared with
/// the theme; then the cells of the model are copied one by one. A view that is refused
/// leaves the buffer as it is.
pub fn render_into_buffer(
    buffer: &mut ratatui::buffer::Buffer,
    area: Area,
    view: &ExternalTerminalView<'_>,
    options: ExternalRenderOptions,
) -> (r: Result<ExternalRenderOutput, ExternalRenderError>)
    requires
        whole(*old(buffer)),
        drawn_area(*old(buffer)).bounded(),
    ensures
        renders(*old(buffer), area, *view, options, r, *final(buffer)),
{
    if let Err(error) = view.validate() {
        return Err(error);
    }
    let drawn = area_of(buffer);
    if !drawn.is_enclosing(area) {
        return Err(ExternalRenderError::BufferAreaOutside { buffer: drawn, requested: area });
    }
    let ghost start = drawn_cells(*buffer);
    let ghost places = start.dom();
    let cleared: usize = clear_area(buffer, area, view.theme);
    let rows: usize = if (area.height as usize) < view.rows.len() {
        area.height as usize
    } else {
        view.rows.len()
    };
    let columns: usize = if area.width < view.columns {
        area.width as usize
    } else {
        view.columns as usize
    };
    let mut stats = ExternalRenderStats {
        cleared_cells: cleared,
        visible_cells: 0,
        spacer_cells: 0,
        wide_cells: 0,
        combining_cells: 0,
    };
    let mut hyperlinks: Vec<ExternalRenderedHyperlink> = Vec::new();
    assert(link_views(hyperlinks@) =~= Seq::<LinkView>::empty());
    let mut row: usize = 0;
    while row < rows
        invariant
            row <= rows <= area.height,
            rows <= view.rows@.len(),
            columns <= area.width,
            columns <= view.columns,
            area.bounded(),
            view_defect(*view) is None,
            drawn == drawn_area(*old(buffer)),
            drawn.encloses(area),
            whole(*old(buffer)),
            start == drawn_cells(*old(buffer)),
            places == start.dom(),
            drawn_area(*buffer) == drawn,
            drawn_cells(*buffer).dom() == places,
            stats.cleared_cells == cleared,
            stats.visible_cells + stats.spacer_cells == row * columns,
            stats.wide_cells <= stats.visible_cells,
            stats.combining_cells <= stats.visible_cells,
            ({
                let (tally, links) = rendered_so_far(*view, area, columns as nat, row as nat, 0);
                &&& stats.visible_cells == tally.visible
                &&& stats.spacer_cells == tally.spacer
                &&& stats.wide_cells == tally.wide
                &&& stats.combining_cells == tally.combining
                &&& link_views(hyperlinks@) == links
            }),
            forall|a: u16, b: u16| #[trigger]
                places.contains((a, b)) ==> drawn_cells(*buffer)[(a, b)] == (if area.contains(
                    a as int,
                    b as int,
                ) && b - area.y < row && a - area.x < columns {
                    shown_cell(
                        view.rows@[b - area.y].cells@[a - area.x],
                        *view.palette,
                        view.theme,
                    )
                } else if area.contains(a as int, b as int) {
                    cleared_cell(view.theme)
                } else {
                    start[(a, b)]
                }),
        decreases rows - row,
    {
        proof {
            lemma_row_is_sound(
                view.rows@,
                view.columns,
                view.hyperlinks@.len(),
                0,
                row as int,
            );
            assert(row * columns + columns <= 65535 * 65535 && row * columns + columns == (row + 1)
                * columns) by (nonlinear_arith)
                requires
                    row < 65535,
                    columns <= 65535,
            ;
        }
        let cells = view.rows[row].cells;
        let y: u16 = area.y + row as u16;
        let mut column: usize = 0;
        while column < columns
            invariant
                row < rows <= area.height,
                rows <= view.rows@.len(),
                column <= columns <= area.width,
                columns <= view.columns,
                y == area.y + row,
                area.bounded(),
                view_defect(*view) is None,
                cells@ == view.rows@[row as int].cells@,
                cells@.len() == view.columns,
                row_defect(cells@, view.hyperlinks@.len(), row as int, 0) is None,
                drawn == drawn_area(*old(buffer)),
                drawn.encloses(area),
                whole(*old(buffer)),
                start == drawn_cells(*old(buffer)),
                places == start.dom(),
                drawn_area(*buffer) == drawn,
                drawn_cells(*buffer).dom() == places,
                row * columns + columns <= 65535 * 65535,
                stats.cleared_cells == cleared,
                stats.visible_cells + stats.spacer_cells == row * columns + column,
                stats.wide_cells <= stats.visible_cells,
                stats.combining_cells <= stats.visible_cells,
                ({
                    let (tally, links) = rendered_so_far(
                        *view,
                        area,
                        columns as nat,
                        row as nat,
                        column as nat,
                    );
                    &&& stats.visible_cells == tally.visible
                    &&& stats.spacer_cells == tally.spacer
                    &&& stats.wide_cells == tally.wide
                    &&& stats.combining_cells == tally.combining
                    &&& link_views(hyperlinks@) == links
                }),
                forall|a: u16, b: u16| #[trigger]
                    places.contains((a, b)) ==> drawn_cells(*buffer)[(a, b)] == (
                    if area.contains(a as int, b as int) && a - area.x < columns && (b - area.y
                        < row || (b == y && a - area.x < column)) {
                        shown_cell(
                            view.rows@[b - area.y].cells@[a - area.x],
                            *view.palette,
                            view.theme,
                        )
                    } else if area.contains(a as int, b as int) {
                        cleared_cell(view.theme)
                    } else {
                        start[(a, b)]
                    }),
            decreases columns - column,
        {
            let cell = cells[column];
            let x: u16 = area.x + column as u16;
            proof {
                assert(drawn.contains(x as int, y as int));
                assert(places.contains((x, y)));
                lemma_cell_is_sound(
                    cells@,
                    view.hyperlinks@.len(),
                    row as int,
                    0,
                    column as int,
                );
            }
            let symbol = cell_text(&cell);
            show_cell(buffer, x, y, cell, symbol.as_str(), view.palette, view.theme);
            assert(drawn_cells(*buffer).dom() =~= places);
            if cell.width.is_spacer() {
                stats.spacer_cells = stats.spacer_cells + 1;
            } else {
                if cell.width == ExternalCellWidth::Wide {
                    stats.wide_cells = stats.wide_cells + 1;
                }
                stats.visible_cells = stats.visible_cells + 1;
                if cell.zero_width.len() > 0 {
                    stats.combining_cells = stats.combining_cells + 1;
                }
                if let Some(index) = cell.hyperlink {
                    let link = view.hyperlinks[index as usize];
                    let shown = ExternalRenderedHyperlink {
                        position: Position { x, y },
                        symbol,
                        id: link.id.to_owned(),
                        uri: link.uri.to_owned(),
                    };
                    let ghost before = hyperlinks@;
                    let ghost added = shown@;
                    hyperlinks.push(shown);
                    assert(link_views(hyperlinks@) =~= link_views(before).push(added));
                }
            }
            column = column + 1;
        }
        row = row + 1;
    }
    let cursor = rendered_cursor(view, area, options.cursor);
    Ok(
        ExternalRenderOutput {
            cursor,
            hyperlinks,
            content_revision: view.content_revision,
            scroll: view.scroll,
            modes: view.modes,
            stats,
        },
    )
}

/// Render a view where the buffer holds every cell of its area, which coordinates can name.
/// Elsewhere nothing is done.
pub fn render_checked(
    buffer: &mut ratatui::buffer::Buffer,
    area: Area,
    view: &ExternalTerminalView<'_>,
    options: ExternalRenderOptions,
) -> (r: Option<Result<ExternalRenderOutput, ExternalRenderError>>)
    ensures
        r is Some <==> whole(*old(buffer)) && drawn_area(*old(buffer)).bounded(),
        match r {
            Some(answer) => renders(*old(buffer), area, *view, options, answer, *final(buffer)),
            None => *final(buffer) == *old(buffer),
        },
{
    if !is_whole(buffer) {
        return None;
    }
    Some(render_into_buffer(buffer, area, view, options))
}

/// A terminal model that can give a stable view of itself.
pub trait ExternalRenderSource {
    fn external_render_view(&self) -> ExternalTerminalView<'_>;
}

/// Render the view that a model gives of itself.
pub fn render_model_into_buffer<S: ExternalRenderSource>(
    source: &S,
    buffer: &mut ratatui::buffer::Buffer,
    area: Area,
    options: ExternalRenderOptions,
) -> (r: Result<ExternalRenderOutput, ExternalRenderError>)
    requires
        whole(*old(buffer)),
        drawn_area(*old(buffer)).bounded(),
    ensures
        exists|view: ExternalTerminalView|
            call_ensures(S::external_render_view, (source,), view) && #[trigger] renders(
                *old(buffer),
                area,
                view,
                options,
                r,
                *final(buffer),
            ),
{
    let view = source.external_render_view();
    render_into_buffer(buffer, area, &view, options)
}

/// Nothing outside of the area that a view is rendered into changes.
pub proof fn rendering_stays_in_its_area(
    before: ratatui::buffer::Buffer,
    area: Area,
    view: ExternalTerminalView,
    options: ExternalRenderOptions,
    r: Result<ExternalRenderOutput, ExternalRenderError>,
    after: ratatui::buffer::Buffer,
    x: u16,
    y: u16,
)
    requires
        renders(before, area, view, options, r, after),
        drawn_cells(before).dom().contains((x, y)),
        !area.contains(x as int, y as int),
    ensures
        drawn_cells(after)[(x, y)] == drawn_cells(before)[(x, y)],
{
}

/// A view that is scrolled back shows no cursor, whatever the policy.
pub proof fn scrolled_back_view_shows_no_cursor(
    view: ExternalTerminalView,
    area: Area,
    policy: ExternalCursorPolicy,
)
    requires
        view.scroll.offset_from_bottom > 0,
    ensures
        shown_cursor(view, area, policy) is None,
{
}

/// How an area is spelled in messages.
pub open spec fn area_text(area: Area) -> Seq<char> {
    "Rect { x: "@ + decimal(area.x as nat) + ", y: "@ + decimal(area.y as nat) + ", width: "@
        + decimal(area.width as nat) + ", height: "@ + decimal(area.height as nat) + " }"@
}

fn area_message(area: Area) -> (r: String)
    ensures
        r@ == area_text(area),
{
    "Rect { x: ".to_owned().concat(decimal_text(area.x as u64).as_str()).concat(", y: ").concat(
        decimal_text(area.y as u64).as_str(),
    ).concat(", width: ").concat(decimal_text(area.width as u64).as_str()).concat(
        ", height: ",
    ).concat(decimal_text(area.height as u64).as_str()).concat(" }")
}

impl ExternalRenderError {
    /// What is wrong, in words.
    pub open spec fn text(self) -> Seq<char> {
        match self {
            ExternalRenderError::UnstableRevision(revision) => "external terminal revision "@
                + decimal(revision as nat) + " is in flight"@,
            ExternalRenderError::EmptyDimensions => "external terminal has empty dimensions"@,
            ExternalRenderError::RowCount { expected, actual } => "external terminal row count "@
                + decimal(actual as nat) + " != "@ + decimal(expected as nat),
            ExternalRenderError::CellCount { row, expected, actual } => "external terminal row "@
                + decimal(row as nat) + " cell count "@ + decimal(actual as nat) + " != "@
                + decimal(expected as nat),
            ExternalRenderError::InvalidScrollMetrics =>
                "external terminal scroll metrics are invalid"@,
            ExternalRenderError::CursorOutsideModel =>
                "external terminal cursor is outside the model viewport"@,
            ExternalRenderError::HyperlinkIndex { row, column, index } =>
                "external terminal hyperlink index "@ + decimal(index as nat)
                + " is invalid at row "@ + decimal(row as nat) + ", column "@
                + decimal(column as nat),
            ExternalRenderError::HyperlinkTooLong { index } => "external terminal hyperlink "@
                + decimal(index as nat) + " exceeds the metadata bound"@,
            ExternalRenderError::InvalidNamedColor(index) => "external terminal named color "@
                + decimal(index as nat) + " is invalid"@,
            ExternalRenderError::BufferAreaOutside { buffer, requested } =>
                "requested render area "@ + area_text(requested) + " is outside buffer "@
                + area_text(buffer),
            ExternalRenderError::InconsistentWidthFlags { row, column } =>
                "external terminal cell width flags disagree at row "@ + decimal(row as nat)
                + ", column "@ + decimal(column as nat),
        }
    }

    pub fn message(&self) -> (r: String)
        ensures
            r@ == self.text(),
    {
        match self {
            ExternalRenderError::UnstableRevision(revision) => {
                "external terminal revision ".to_owned().concat(
                    decimal_text(*revision).as_str(),
                ).concat(" is in flight")
            },
            ExternalRenderError::EmptyDimensions => {
                "external terminal has empty dimensions".to_owned()
            },
            ExternalRenderError::RowCount { expected, actual } => {
                "external terminal row count ".to_owned().concat(
                    decimal_text(*actual as u64).as_str(),
                ).concat(" != ").concat(decimal_text(*expected as u64).as_str())
            },
            ExternalRenderError::CellCount { row, expected, actual } => {
                "external terminal row ".to_owned().concat(
                    decimal_text(*row as u64).as_str(),
                ).concat(" cell count ").concat(decimal_text(*actual as u64).as_str()).concat(
                    " != ",
                ).concat(decimal_text(*expected as u64).as_str())
            },
            ExternalRenderError::InvalidScrollMetrics => {
                "external terminal scroll metrics are invalid".to_owned()
            },
            ExternalRenderError::CursorOutsideModel => {
                "external terminal cursor is outside the model viewport".to_owned()
            },
            ExternalRenderError::HyperlinkIndex { row, column, index } => {
                "external terminal hyperlink index ".to_owned().concat(
                    decimal_text(*index as u64).as_str(),
                ).concat(" is invalid at row ").concat(decimal_text(*row as u64).as_str()).concat(
                    ", column ",
                ).concat(decimal_text(*column as u64).as_str())
            },
            ExternalRenderError::HyperlinkTooLong { index } => {
                "external terminal hyperlink ".to_owned().concat(
                    decimal_text(*index as u64).as_str(),
                ).concat(" exceeds the metadata bound")
            },
            ExternalRenderError::InvalidNamedColor(index) => {
                "external terminal named color ".to_owned().concat(
                    decimal_text(*index as u64).as_str(),
                ).concat(" is invalid")
            },
            ExternalRenderError::BufferAreaOutside { buffer, requested } => {
                "requested render area ".to_owned().concat(
                    area_message(*requested).as_str(),
                ).concat(" is outside buffer ").concat(area_message(*buffer).as_str())
            },
            ExternalRenderError::InconsistentWidthFlags { row, column } => {
                "external terminal cell width flags disagree at row ".to_owned().concat(
                    decimal_text(*row as u64).as_str(),
                ).concat(", column ").concat(decimal_text(*column as u64).as_str())
            },
        }
    }
}

/// An ordinary palette entry without an override stays indexed, whatever the theme is, so that
/// two of them never come to the same color. An override is shown in its own red, green and
/// blue.
pub proof fn ordinary_colors_stay_indexed(
    index: u16,
    other: u16,
    palette: ExternalPalette,
    theme: ExternalTheme,
)
    ensures
        index <= 255 && palette.color(index as int) is None ==> resolved(
            ExternalColor::Named(index),
            palette,
            theme,
        ) == CellColor::Indexed(index as u8),
        index <= 255 && other <= 255 && index != other && palette.color(index as int) is None
            && palette.color(other as int) is None ==> resolved(
            ExternalColor::Named(index),
            palette,
            theme,
        ) != resolved(ExternalColor::Named(other), palette, theme),
        palette.color(index as int) matches Some(rgb) ==> resolved(
            ExternalColor::Named(index),
            palette,
            theme,
        ) == CellColor::Rgb(rgb.r, rgb.g, rgb.b),
{
}

/// The entries past the ordinary ones stand for the theme's colors and for the dim forms of the
/// first eight, where the palette has no override for them.
pub proof fn special_colors_come_from_the_theme(palette: ExternalPalette, theme: ExternalTheme)
    ensures
        palette.color(256) is None ==> resolved(ExternalColor::Named(256), palette, theme)
            == theme.foreground,
        palette.color(257) is None ==> resolved(ExternalColor::Named(257), palette, theme)
            == theme.background,
        palette.color(258) is None ==> resolved(ExternalColor::Named(258), palette, theme)
            == theme.cursor,
        palette.color(267) is None ==> resolved(ExternalColor::Named(267), palette, theme)
            == theme.foreground,
        palette.color(268) is None ==> resolved(ExternalColor::Named(268), palette, theme)
            == theme.foreground,
        forall|dim: u16|
            dim < 8 && palette.color(259 + dim) is None ==> resolved(
                ExternalColor::Named(#[trigger] dim_entry(dim)),
                palette,
                theme,
            ) == CellColor::Indexed(dim as u8),
        resolved(ExternalColor::DefaultForeground, palette, theme) == theme.foreground,
        resolved(ExternalColor::DefaultBackground, palette, theme) == theme.background,
        resolved(ExternalColor::Reset, palette, theme) == CellColor::Reset,
{
}

/// The palette entry of a dim color.
pub open spec fn dim_entry(color: u16) -> u16 {
    (259 + color) as u16
}

/// Direct colors are shown as they are.
pub proof fn direct_colors_are_shown_as_they_are(
    index: u8,
    rgb: ExternalRgb,
    palette: ExternalPalette,
    theme: ExternalTheme,
)
    ensures
        resolved(ExternalColor::Indexed(index), palette, theme) == CellColor::Indexed(index),
        resolved(ExternalColor::Spec(rgb), palette, theme) == CellColor::Rgb(rgb.r, rgb.g, rgb.b),
{
}

/// A palette has an override for an entry exactly where one was put.
pub proof fn palettes_hold_their_overrides(palette: ExternalPalette, index: int)
    ensures
        0 <= index < 269 ==> palette.color(index) == palette.named@[index],
        index < 0 || index >= 269 ==> palette.color(index) is None,
{
}

/// A cell is shown in its own colors. An inverse cell has them exchanged, and a hidden cell is
/// all background.
pub proof fn cells_are_shown_in_their_colors(
    cell: ExternalCellView,
    palette: ExternalPalette,
    theme: ExternalTheme,
)
    ensures
        ({
            let shown = shown_cell(cell, palette, theme);
            let front = resolved(cell.fg, palette, theme);
            let back = resolved(cell.bg, palette, theme);
            let inverse = cell.flags.0 & 0x0001 == 0x0001;
            let hidden = cell.flags.0 & 0x0100 == 0x0100;
            &&& !inverse ==> shown.bg == back
            &&& inverse ==> shown.bg == front
            &&& !inverse && !hidden ==> shown.fg == front
            &&& inverse && !hidden ==> shown.fg == back
            &&& hidden ==> shown.fg == shown.bg
            &&& cell.underline_color matches Some(color) ==> shown.underline == resolved(
                color,
                palette,
                theme,
            )
            &&& cell.underline_color is None ==> shown.underline == CellColor::Reset
        }),
{
}

/// A cell shows its character with the marks that are set on it, once in its own column. What
/// a wide character covers shows nothing of its own.
pub proof fn cells_show_their_characters(
    cell: ExternalCellView,
    palette: ExternalPalette,
    theme: ExternalTheme,
)
    ensures
        ({
            let shown = shown_cell(cell, palette, theme);
            let covered = cell.width == ExternalCellWidth::WideSpacer || cell.width
                == ExternalCellWidth::LeadingWideSpacer;
            &&& !covered ==> shown.symbol.len() == 1 + cell.zero_width@.len() && shown.symbol[0]
                == cell.base && shown.symbol.skip(1) == cell.zero_width@
            &&& covered ==> shown.symbol == seq![' '] && shown.diff == CellDiff::Skip
            &&& cell.width == ExternalCellWidth::Wide ==> shown.diff == CellDiff::ForcedWidth(2)
            &&& cell.width == ExternalCellWidth::Narrow ==> shown.diff == CellDiff::Plain
        }),
{
    assert(shown_cell(cell, palette, theme).symbol.skip(1) =~= cell.zero_width@
        || cell.width.spacer());
}

proof fn lemma_united_bits(bold: u16, italic: u16, dim: u16, hidden: u16, crossed: u16, line: u16)
    requires
        bold == 0 || bold == 0x0001,
        italic == 0 || italic == 0x0004,
        dim == 0 || dim == 0x0002,
        hidden == 0 || hidden == 0x0080,
        crossed == 0 || crossed == 0x0100,
        line == 0 || line & 0x0fff == 0x0008,
    ensures
        ({
            let all = bold | italic | dim | hidden | crossed | line;
            &&& all & 0x0001 == bold
            &&& all & 0x0004 == italic
            &&& all & 0x0002 == dim
            &&& all & 0x0080 == hidden
            &&& all & 0x0100 == crossed
            &&& all & 0x0008 == line & 0x0008
            &&& all >> 12 == line >> 12
        }),
{
    assert({
        let all = bold | italic | dim | hidden | crossed | line;
        &&& all & 0x0001 == bold
        &&& all & 0x0004 == italic
        &&& all & 0x0002 == dim
        &&& all & 0x0080 == hidden
        &&& all & 0x0100 == crossed
        &&& all & 0x0008 == line & 0x0008
        &&& all >> 12 == line >> 12
    }) by (bit_vector)
        requires
            bold == 0 || bold == 0x0001,
            italic == 0 || italic == 0x0004,
            dim == 0 || dim == 0x0002,
            hidden == 0 || hidden == 0x0080,
            crossed == 0 || crossed == 0x0100,
            line == 0 || line & 0x0fff == 0x0008,
    ;
}

proof fn lemma_style_bits(code: u16)
    by (bit_vector)
    requires
        code < 16,
    ensures
        (0x0008u16 | ((code << 12u16) & 0xF000u16)) & 0x0fff == 0x0008,
        (0x0008u16 | ((code << 12u16) & 0xF000u16)) & 0x0008 == 0x0008,
        (0x0008u16 | ((code << 12u16) & 0xF000u16)) >> 12 == code,
{
}

proof fn lemma_underline_bits()
    ensures
        forall|underline: ExternalUnderline| {
            let bits = #[trigger] underline_bits(Some(underline));
            &&& bits & 0x0fff == 0x0008
            &&& bits & 0x0008 == 0x0008
            &&& bits >> 12 == underline.code()
        },
        underline_bits(None) == 0,
        0u16 & 0x0008 == 0,
        0u16 >> 12 == 0,
{
    assert forall|underline: ExternalUnderline| ({
        let bits = #[trigger] underline_bits(Some(underline));
        &&& bits & 0x0fff == 0x0008
        &&& bits & 0x0008 == 0x0008
        &&& bits >> 12 == underline.code()
    }) by {
        lemma_style_bits(underline.code());
    }
    assert(0u16 & 0x0008 == 0) by (bit_vector);
    assert(0u16 >> 12 == 0) by (bit_vector);
}

/// Each of the flags of a cell shows in the modifier of its own: bold, italic, dim, hidden and
/// struck out, and no other. An underline shows together with its style.
pub proof fn flags_show_in_the_modifier(flags: ExternalCellFlags)
    ensures
        ({
            let shown = modifier_of(flags);
            let underlined = flags.0 & 0x0008 == 0x0008 || flags.0 & 0x0800 == 0x0800 || flags.0
                & 0x1000 == 0x1000 || flags.0 & 0x2000 == 0x2000 || flags.0 & 0x4000 == 0x4000;
            &&& shown & 0x0001 == (if flags.0 & 0x0002 == 0x0002 {
                0x0001u16
            } else {
                0
            })
            &&& shown & 0x0004 == (if flags.0 & 0x0004 == 0x0004 {
                0x0004u16
            } else {
                0
            })
            &&& shown & 0x0002 == (if flags.0 & 0x0080 == 0x0080 {
                0x0002u16
            } else {
                0
            })
            &&& shown & 0x0080 == (if flags.0 & 0x0100 == 0x0100 {
                0x0080u16
            } else {
                0
            })
            &&& shown & 0x0100 == (if flags.0 & 0x0200 == 0x0200 {
                0x0100u16
            } else {
                0
            })
            &&& shown & 0x0008 == (if underlined {
                0x0008u16
            } else {
                0
            })
            &&& shown >> 12 == (if flags.0 & 0x4000 == 0x4000 {
                5u16
            } else if flags.0 & 0x2000 == 0x2000 {
                4
            } else if flags.0 & 0x1000 == 0x1000 {
                3
            } else if flags.0 & 0x0800 == 0x0800 {
                2
            } else if flags.0 & 0x0008 == 0x0008 {
                1
            } else {
                0
            })
        }),
{
    lemma_underline_bits();
    lemma_united_bits(
        bits_if(flags, ExternalCellFlags::BOLD, MODIFIER_BOLD),
        bits_if(flags, ExternalCellFlags::ITALIC, MODIFIER_ITALIC),
        bits_if(flags, ExternalCellFlags::DIM, MODIFIER_DIM),
        bits_if(flags, ExternalCellFlags::HIDDEN, MODIFIER_HIDDEN),
        bits_if(flags, ExternalCellFlags::STRIKEOUT, MODIFIER_CROSSED_OUT),
        underline_bits(underline_of(flags)),
    );
}

/// What is drawn at a place is the cell of the model that belongs there, counted from the
/// corner of the area. Where the model ends, the area is blank in the theme's colors.
pub proof fn each_cell_is_drawn_in_its_place(
    before: ratatui::buffer::Buffer,
    area: Area,
    view: ExternalTerminalView,
    options: ExternalRenderOptions,
    r: Result<ExternalRenderOutput, ExternalRenderError>,
    after: ratatui::buffer::Buffer,
    row: int,
    column: int,
)
    requires
        renders(before, area, view, options, r, after),
        r is Ok,
        0 <= row < area.height,
        0 <= column < area.width,
        area.x + column <= u16::MAX,
        area.y + row <= u16::MAX,
        drawn_cells(before).dom().contains(((area.x + column) as u16, (area.y + row) as u16)),
    ensures
        ({
            let drawn = drawn_cells(after)[((area.x + column) as u16, (area.y + row) as u16)];
            let within = row < view.rows@.len() && column < view.columns;
            let cell = view.rows@[row].cells@[column];
            &&& within && (cell.width == ExternalCellWidth::Narrow || cell.width
                == ExternalCellWidth::Wide) ==> drawn.symbol.len() == 1 + cell.zero_width@.len()
                && drawn.symbol[0] == cell.base
            &&& within && cell.flags.0 == 0 ==> drawn.fg == resolved(
                cell.fg,
                *view.palette,
                view.theme,
            ) && drawn.bg == resolved(cell.bg, *view.palette, view.theme) && drawn.modifier == 0
            &&& !within ==> drawn.symbol == seq![' '] && drawn.fg == view.theme.foreground
                && drawn.bg == view.theme.background && drawn.modifier == 0
        }),
{
    let x = (area.x + column) as u16;
    let y = (area.y + row) as u16;
    assert(drawn_cells(before).dom().contains((x, y)));
    if row < view.rows@.len() && column < view.columns {
        let cell = view.rows@[row].cells@[column];
        cells_show_their_characters(cell, *view.palette, view.theme);
        if cell.flags.0 == 0 {
            lemma_no_flags(cell.flags);
        }
    }
}

proof fn lemma_no_flags(flags: ExternalCellFlags)
    requires
        flags.0 == 0,
    ensures
        modifier_of(flags) == 0,
        !flags.has(ExternalCellFlags::INVERSE),
        !flags.has(ExternalCellFlags::HIDDEN),
{
    assert(0u16 & 0x0001 != 0x0001 && 0u16 & 0x0002 != 0x0002 && 0u16 & 0x0004 != 0x0004 && 0u16
        & 0x0080 != 0x0080 && 0u16 & 0x0100 != 0x0100 && 0u16 & 0x0200 != 0x0200 && 0u16 & 0x0008
        != 0x0008 && 0u16 & 0x0800 != 0x0800 && 0u16 & 0x1000 != 0x1000 && 0u16 & 0x2000 != 0x2000
        && 0u16 & 0x4000 != 0x4000 && 0u16 | 0u16 | 0u16 | 0u16 | 0u16 | 0u16 == 0u16)
        by (bit_vector);
}

/// A cursor is shown where the model has it, and only in a focused view of the newest lines
/// that has it within its area.
pub proof fn cursor_is_shown_where_the_model_has_it(
    view: ExternalTerminalView,
    area: Area,
    policy: ExternalCursorPolicy,
)
    ensures
        policy == ExternalCursorPolicy::Hidden ==> shown_cursor(view, area, policy) is None,
        policy == (ExternalCursorPolicy::ReadOnlyFocused { focused: false }) ==> shown_cursor(
            view,
            area,
            policy,
        ) is None,
        shown_cursor(view, area, policy) matches Some(shown) ==> (view.cursor matches Some(cursor)
            && shown.x == cursor.x && shown.y == cursor.y && shown.shape == cursor.shape
            && shown.visible && cursor.visible && cursor.x < area.width && cursor.y < area.height),
        view.scroll.offset_from_bottom == 0 && (view.cursor matches Some(cursor) && cursor.visible
            && !(cursor.shape is Hidden) && cursor.x < area.width && cursor.y < area.height)
            ==> shown_cursor(
            view,
            area,
            ExternalCursorPolicy::ReadOnlyFocused { focused: true },
        ) is Some,
{
}

/// The cells in the rows before `row`, and in it before `columns`.
pub open spec fn passed_cell(row: nat, columns: nat, width: nat, r: int, c: int) -> bool {
    &&& 0 <= r && 0 <= c
    &&& (r < row && c < width) || (r == row && c < columns)
}

/// A cell shows a link: it has one, and a column of its own.
pub open spec fn shows_link(cell: ExternalCellView) -> bool {
    cell.hyperlink is Some && (cell.width == ExternalCellWidth::Narrow || cell.width
        == ExternalCellWidth::Wide)
}

/// A link is told of a cell: at its place, with its character, and with the name and the
/// address that the model has for it.
pub open spec fn link_of_cell(
    view: ExternalTerminalView,
    area: Area,
    link: LinkView,
    r: int,
    c: int,
) -> bool {
    let cell = view.rows@[r].cells@[c];
    let target = view.hyperlinks@[cell.hyperlink->0 as int];
    &&& link.position.x == (area.x + c) as u16
    &&& link.position.y == (area.y + r) as u16
    &&& link.symbol.len() == 1 + cell.zero_width@.len()
    &&& link.symbol[0] == cell.base
    &&& link.id == target.id@
    &&& link.uri == target.uri@
}

/// One of some links is told of a cell.
pub open spec fn told_of_cell(
    view: ExternalTerminalView,
    area: Area,
    links: Seq<LinkView>,
    r: int,
    c: int,
) -> bool {
    exists|i: int| 0 <= i < links.len() && #[trigger] link_of_cell(view, area, links[i], r, c)
}

/// A link is told of one of the cells before a place.
pub open spec fn told_of_some(
    view: ExternalTerminalView,
    area: Area,
    link: LinkView,
    row: nat,
    columns: nat,
    width: nat,
) -> bool {
    exists|r: int, c: int| #[trigger]
        passed_cell(row, columns, width, r, c) && shows_link(view.rows@[r].cells@[c])
            && link_of_cell(view, area, link, r, c)
}

proof fn lemma_cells_are_counted(
    view: ExternalTerminalView,
    area: Area,
    width: nat,
    row: nat,
    columns: nat,
)
    requires
        columns <= width,
    ensures
        ({
            let tally = rendered_so_far(view, area, width, row, columns).0;
            &&& tally.visible + tally.spacer == row * width + columns
            &&& tally.wide <= tally.visible
            &&& tally.combining <= tally.visible
        }),
    decreases row, columns,
{
    if columns > 0 {
        lemma_cells_are_counted(view, area, width, row, (columns - 1) as nat);
    } else if row > 0 {
        lemma_cells_are_counted(view, area, width, (row - 1) as nat, width);
        assert(row * width == (row - 1) * width + width) by (nonlinear_arith)
            requires
                row > 0,
        ;
    } else {
        assert(0 * width == 0) by (nonlinear_arith);
    }
}

proof fn lemma_cells_are_told(
    view: ExternalTerminalView,
    area: Area,
    width: nat,
    row: nat,
    columns: nat,
    r: int,
    c: int,
)
    requires
        columns <= width,
        passed_cell(row, columns, width, r, c),
        shows_link(view.rows@[r].cells@[c]),
    ensures
        told_of_cell(view, area, rendered_so_far(view, area, width, row, columns).1, r, c),
    decreases row, columns,
{
    let links = rendered_so_far(view, area, width, row, columns).1;
    if columns == 0 {
        lemma_cells_are_told(view, area, width, (row - 1) as nat, width, r, c);
    } else {
        let before = (columns - 1) as nat;
        if r == row && c == before {
            assert(link_of_cell(view, area, links[links.len() - 1], r, c));
        } else {
            lemma_cells_are_told(view, area, width, row, before, r, c);
            let known = rendered_so_far(view, area, width, row, before).1;
            let i = choose|i: int|
                0 <= i < known.len() && #[trigger] link_of_cell(view, area, known[i], r, c);
            assert(link_of_cell(view, area, links[i], r, c));
        }
    }
}

proof fn lemma_links_have_cells(
    view: ExternalTerminalView,
    area: Area,
    width: nat,
    row: nat,
    columns: nat,
    i: int,
)
    requires
        columns <= width,
        0 <= i < rendered_so_far(view, area, width, row, columns).1.len(),
    ensures
        told_of_some(
            view,
            area,
            rendered_so_far(view, area, width, row, columns).1[i],
            row,
            columns,
            width,
        ),
    decreases row, columns,
{
    let link = rendered_so_far(view, area, width, row, columns).1[i];
    if columns == 0 {
        lemma_links_have_cells(view, area, width, (row - 1) as nat, width, i);
        let (r, c) = choose|r: int, c: int| #[trigger]
            passed_cell((row - 1) as nat, width, width, r, c) && shows_link(view.rows@[r].cells@[c])
                && link_of_cell(view, area, link, r, c);
        assert(passed_cell(row, columns, width, r, c));
    } else {
        let before = (columns - 1) as nat;
        let known = rendered_so_far(view, area, width, row, before).1;
        if i < known.len() {
            lemma_links_have_cells(view, area, width, row, before, i);
            assert(link == known[i]);
            let (r, c) = choose|r: int, c: int| #[trigger]
                passed_cell(row, before, width, r, c) && shows_link(view.rows@[r].cells@[c])
                    && link_of_cell(view, area, link, r, c);
            assert(passed_cell(row, columns, width, r, c));
        } else {
            assert(passed_cell(row, columns, width, row as int, columns - 1));
            assert(link_of_cell(view, area, link, row as int, columns - 1));
        }
    }
}

/// Links are told of exactly those cells in the area that show one, each with its own name and
/// address; and every cell of the model in the area is counted once.
pub proof fn links_are_told_of_their_cells(
    output: ExternalRenderOutput,
    view: ExternalTerminalView,
    area: Area,
    options: ExternalRenderOptions,
    r: int,
    c: int,
    i: int,
)
    requires
        accompanies(output, view, area, options),
    ensures
        0 <= r < area.height && r < view.rows@.len() && 0 <= c < area.width && c < view.columns
            && shows_link(view.rows@[r].cells@[c]) ==> told_of_cell(
            view,
            area,
            link_views(output.hyperlinks@),
            r,
            c,
        ),
        0 <= i < output.hyperlinks@.len() ==> told_of_some(
            view,
            area,
            output.hyperlinks@[i]@,
            if area.height < view.rows@.len() { area.height as nat } else { view.rows@.len() },
            0,
            if area.width < view.columns { area.width as nat } else { view.columns as nat },
        ),
        output.content_revision == view.content_revision,
        output.scroll == view.scroll,
        output.modes == view.modes,
        area.width <= view.columns && area.height <= view.rows@.len()
            ==> output.stats.visible_cells + output.stats.spacer_cells
            == output.stats.cleared_cells,
{
    let columns = smaller(area.width as nat, view.columns as nat);
    let rows = smaller(area.height as nat, view.rows@.len());
    let links = rendered_so_far(view, area, columns, rows, 0).1;
    lemma_cells_are_counted(view, area, columns, rows, 0);
    assert(rows * columns == columns * rows) by (nonlinear_arith);
    if 0 <= r < area.height && r < view.rows@.len() && 0 <= c < area.width && c < view.columns
        && shows_link(view.rows@[r].cells@[c]) {
        lemma_cells_are_told(view, area, columns, rows, 0, r, c);
    }
    if 0 <= i < output.hyperlinks@.len() {
        lemma_links_have_cells(view, area, columns, rows, 0, i);
        assert(links[i] == output.hyperlinks@[i]@);
    }
}

proof fn lemma_row_in_order(cells: Seq<ExternalCellView>, links: nat, row: int, column: nat)
    requires
        row_defect(cells, links, row, column) is None,
    ensures
        forall|c: int|
            column <= c < cells.len() ==> cell_defect(#[trigger] cells[c], links, row, c) is None,
    decreases cells.len() - column,
{
    if column < cells.len() {
        lemma_row_in_order(cells, links, row, column + 1);
    }
}

proof fn lemma_rows_in_order(rows: Seq<ExternalRowView>, columns: u16, links: nat, row: nat)
    requires
        rows_defect(rows, columns, links, row) is None,
    ensures
        forall|r: int| row <= r < rows.len() ==> (#[trigger] rows[r]).cells@.len() == columns,
        forall|r: int, c: int|
            row <= r < rows.len() && 0 <= c < columns ==> cell_defect(
                #[trigger] rows[r].cells@[c],
                links,
                r,
                c,
            ) is None,
    decreases rows.len() - row,
{
    if row < rows.len() {
        lemma_row_in_order(rows[row as int].cells@, links, row as int, 0);
        lemma_rows_in_order(rows, columns, links, row + 1);
    }
}

proof fn lemma_links_in_order(links: Seq<ExternalHyperlink>, i: nat)
    requires
        long_link(links, i) is None,
    ensures
        forall|j: int|
            i <= j < links.len() ==> byte_len((#[trigger] links[j]).id@) <= 128 && byte_len(
                links[j].uri@,
            ) <= 4096,
    decreases links.len() - i,
{
    if i < links.len() {
        lemma_links_in_order(links, i + 1);
    }
}

/// A view is drawn only in order: it is stable, has as many rows and cells as it says, its
/// cursor and its scroll lie within it, its links are short, and each of its cells names a
/// color of the palette and a link that is there.
pub proof fn drawn_views_are_in_order(view: ExternalTerminalView)
    requires
        view_defect(view) is None,
    ensures
        view.content_revision % 2 == 0,
        view.columns > 0 && view.screen_lines > 0,
        view.rows@.len() == view.screen_lines,
        view.scroll.viewport_rows == view.screen_lines,
        view.scroll.offset_from_bottom <= view.scroll.max_offset_from_bottom
            <= view.scroll.history_rows,
        view.cursor matches Some(cursor) ==> cursor.x < view.columns && cursor.y
            < view.screen_lines,
        forall|i: int|
            0 <= i < view.hyperlinks@.len() ==> byte_len((#[trigger] view.hyperlinks@[i]).id@)
                <= 128 && byte_len(view.hyperlinks@[i].uri@) <= 4096,
        forall|r: int|
            0 <= r < view.rows@.len() ==> (#[trigger] view.rows@[r]).cells@.len() == view.columns,
        forall|r: int, c: int|
            0 <= r < view.rows@.len() && 0 <= c < view.columns ==> {
                let cell = #[trigger] view.rows@[r].cells@[c];
                &&& cell.hyperlink matches Some(link) ==> link < view.hyperlinks@.len()
                &&& cell.fg matches ExternalColor::Named(index) ==> index < 269
                &&& cell.bg matches ExternalColor::Named(index) ==> index < 269
                &&& cell.underline_color matches Some(color) ==> (
                color matches ExternalColor::Named(index) ==> index < 269)
                &&& cell.width == ExternalCellWidth::Wide ==> cell.flags.0 & 0x0020 == 0x0020
                &&& cell.width == ExternalCellWidth::WideSpacer ==> cell.flags.0 & 0x0040 == 0x0040
                &&& cell.width == ExternalCellWidth::LeadingWideSpacer ==> cell.flags.0 & 0x0400
                    == 0x0400
            },
{
    lemma_rows_in_order(view.rows@, view.columns, view.hyperlinks@.len(), 0);
    lemma_links_in_order(view.hyperlinks@, 0);
    assert forall|r: int, c: int| 0 <= r < view.rows@.len() && 0 <= c < view.columns implies ({
        let cell = #[trigger] view.rows@[r].cells@[c];
        &&& cell.hyperlink matches Some(link) ==> link < view.hyperlinks@.len()
        &&& cell.fg matches ExternalColor::Named(index) ==> index < 269
        &&& cell.bg matches ExternalColor::Named(index) ==> index < 269
        &&& cell.underline_color matches Some(color) ==> (
        color matches ExternalColor::Named(index) ==> index < 269)
        &&& cell.width == ExternalCellWidth::Wide ==> cell.flags.0 & 0x0020 == 0x0020
        &&& cell.width == ExternalCellWidth::WideSpacer ==> cell.flags.0 & 0x0040 == 0x0040
        &&& cell.width == ExternalCellWidth::LeadingWideSpacer ==> cell.flags.0 & 0x0400 == 0x0400
    }) by {
        assert(cell_defect(
            view.rows@[r].cells@[c],
            view.hyperlinks@.len(),
            r,
            c,
        ) is None);
    }
}

/// A plain cell: default colors, no flags, no link, in a column of its own.
pub open spec fn plain_cell(cell: ExternalCellView) -> bool {
    &&& cell.fg is DefaultForeground && cell.bg is DefaultBackground
    &&& cell.underline_color is None && cell.hyperlink is None
    &&& cell.flags.0 == 0 && cell.width == ExternalCellWidth::Narrow
}

proof fn lemma_plain_row(cells: Seq<ExternalCellView>, links: nat, row: int, column: nat)
    requires
        forall|c: int| 0 <= c < cells.len() ==> plain_cell(#[trigger] cells[c]),
    ensures
        row_defect(cells, links, row, column) is None,
    decreases cells.len() - column,
{
    if column < cells.len() {
        assert(plain_cell(cells[column as int]));
        assert forall|bits: u16| 0u16 & bits == 0 by {
            assert(0u16 & bits == 0) by (bit_vector);
        }
        lemma_plain_row(cells, links, row, column + 1);
    }
}

proof fn lemma_plain_rows(rows: Seq<ExternalRowView>, columns: u16, links: nat, row: nat)
    requires
        forall|r: int| 0 <= r < rows.len() ==> (#[trigger] rows[r]).cells@.len() == columns,
        forall|r: int, c: int|
            0 <= r < rows.len() && 0 <= c < columns ==> plain_cell(#[trigger] rows[r].cells@[c]),
    ensures
        rows_defect(rows, columns, links, row) is None,
    decreases rows.len() - row,
{
    if row < rows.len() {
        let cells = rows[row as int].cells@;
        assert forall|c: int| 0 <= c < cells.len() implies plain_cell(#[trigger] cells[c]) by {
            assert(plain_cell(rows[row as int].cells@[c]));
        }
        lemma_plain_row(cells, links, row as int, 0);
        lemma_plain_rows(rows, columns, links, row + 1);
    }
}

/// A stable view of plain cells is drawn: nothing is wrong with it.
pub proof fn plain_views_are_drawn(view: ExternalTerminalView)
    requires
        view.content_revision % 2 == 0,
        view.columns > 0 && view.screen_lines > 0,
        view.rows@.len() == view.screen_lines,
        view.scroll.viewport_rows == view.screen_lines,
        view.scroll.offset_from_bottom <= view.scroll.max_offset_from_bottom
            <= view.scroll.history_rows,
        view.cursor matches Some(cursor) ==> cursor.x < view.columns && cursor.y
            < view.screen_lines,
        view.hyperlinks@.len() == 0,
        forall|r: int|
            0 <= r < view.rows@.len() ==> (#[trigger] view.rows@[r]).cells@.len() == view.columns,
        forall|r: int, c: int|
            0 <= r < view.rows@.len() && 0 <= c < view.columns ==> plain_cell(
                #[trigger] view.rows@[r].cells@[c],
            ),
    ensures
        view_defect(view) is None,
{
    lemma_plain_rows(view.rows@, view.columns, 0, 0);
}

/// What is wrong with a view is told by name.
pub proof fn defects_are_told_by_name(view: ExternalTerminalView, drawn: Area, area: Area)
    ensures
        view.content_revision % 2 != 0 ==> view_defect(view) == Some(
            ExternalRenderError::UnstableRevision(view.content_revision),
        ),
        view.content_revision % 2 == 0 && (view.columns == 0 || view.screen_lines == 0)
            ==> view_defect(view) == Some(ExternalRenderError::EmptyDimensions),
        view_defect(view) matches Some(defect) ==> render_defect(view, drawn, area) == Some(defect),
        view_defect(view) is None && (area.x < drawn.x || area.y < drawn.y || area.x + area.width
            > drawn.x + drawn.width || area.y + area.height > drawn.y + drawn.height)
            ==> render_defect(view, drawn, area) == Some(
            ExternalRenderError::BufferAreaOutside { buffer: drawn, requested: area },
        ),
        view_defect(view) is None && area == drawn ==> render_defect(view, drawn, area) is None,
{
}

/// Each defect of a view has a text of its own, with what it is about.
pub proof fn defects_have_their_own_text(
    revision: u64,
    row: usize,
    column: usize,
    index: usize,
    expected: usize,
    actual: usize,
    buffer: Area,
    requested: Area,
)
    ensures
        ExternalRenderError::UnstableRevision(revision).text() == "external terminal revision "@
            + decimal(revision as nat) + " is in flight"@,
        ExternalRenderError::EmptyDimensions.text() == "external terminal has empty dimensions"@,
        ExternalRenderError::InvalidScrollMetrics.text()
            == "external terminal scroll metrics are invalid"@,
        ExternalRenderError::CursorOutsideModel.text()
            == "external terminal cursor is outside the model viewport"@,
        (ExternalRenderError::BufferAreaOutside { buffer, requested }).text()
            == "requested render area "@ + area_text(requested) + " is outside buffer "@
            + area_text(buffer),
        (ExternalRenderError::InconsistentWidthFlags { row, column }).text()
            == "external terminal cell width flags disagree at row "@ + decimal(row as nat)
            + ", column "@ + decimal(column as nat),
        area_text(buffer) == "Rect { x: "@ + decimal(buffer.x as nat) + ", y: "@ + decimal(
            buffer.y as nat,
        ) + ", width: "@ + decimal(buffer.width as nat) + ", height: "@ + decimal(
            buffer.height as nat,
        ) + " }"@,
{
}

/// The palette holds the 256 colors, the two defaults, the cursor, and the dim and bright
/// ones, and each underline has a number of its own.
pub proof fn palette_and_underlines_are_counted()
    ensures
        EXTERNAL_PALETTE_LEN == 256 + 13,
        ExternalUnderline::Single.code() == 1,
        ExternalUnderline::Double.code() == 2,
        ExternalUnderline::Curly.code() == 3,
        ExternalUnderline::Dotted.code() == 4,
        ExternalUnderline::Dashed.code() == 5,
{
}

/// Each cell is counted once: a spacer as one, any other as visible, and besides as wide where
/// it is wide and as combining where marks stand on it.
pub proof fn cells_are_counted_once(tally: Tally, cell: ExternalCellView)
    ensures
        tally.with(cell).visible + tally.with(cell).spacer == tally.visible + tally.spacer + 1,
        cell.width is WideSpacer || cell.width is LeadingWideSpacer ==> tally.with(cell) == (Tally {
            spacer: tally.spacer + 1,
            ..tally
        }),
        cell.width is Narrow || cell.width is Wide ==> tally.with(cell).visible == tally.visible + 1
            && tally.with(cell).spacer == tally.spacer,
        tally.with(cell).wide == tally.wide + (if cell.width is Wide {
            1int
        } else {
            0
        }),
        (cell.width is Narrow || cell.width is Wide) && cell.zero_width@.len() > 0 ==> tally.with(
            cell,
        ).combining == tally.combining + 1,
        cell.zero_width@.len() == 0 ==> tally.with(cell).combining == tally.combining,
{
}

} // verus!
