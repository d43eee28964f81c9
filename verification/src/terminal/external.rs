//! What the rest of the application reads of an external terminal model.
use vstd::prelude::*;

use crate::canvas::{Area, CellColor};
use crate::external_renderer::{ExternalCursorShape, ExternalScrollMetrics, ExternalTheme};

verus! {

/// The number that names a cursor shape to a client.
pub open spec fn cursor_number(shape: ExternalCursorShape) -> u8 {
    match shape {
        ExternalCursorShape::Block { blinking } => if blinking {
            1
        } else {
            2
        },
        ExternalCursorShape::Underline { blinking } => if blinking {
            3
        } else {
            4
        },
        ExternalCursorShape::Bar { blinking } => if blinking {
            5
        } else {
            6
        },
        ExternalCursorShape::Hidden => 0,
    }
}

pub fn cursor_shape(shape: ExternalCursorShape) -> (r: u8)
    ensures
        r == cursor_number(shape),
{
    match shape {
        ExternalCursorShape::Block { blinking } => if blinking {
            1
        } else {
            2
        },
        ExternalCursorShape::Underline { blinking } => if blinking {
            3
        } else {
            4
        },
        ExternalCursorShape::Bar { blinking } => if blinking {
            5
        } else {
            6
        },
        ExternalCursorShape::Hidden => 0,
    }
}

/// Where a pane stands in its history.
#[derive(Clone, Copy, Debug, PartialEq, Eq, Structural)]
pub struct ScrollMetrics {
    pub offset_from_bottom: usize,
    pub max_offset_from_bottom: usize,
    pub viewport_rows: usize,
}

pub fn pane_scroll_metrics(metrics: ExternalScrollMetrics) -> (r: ScrollMetrics)
    ensures
        r.offset_from_bottom == metrics.offset_from_bottom,
        r.max_offset_from_bottom == metrics.max_offset_from_bottom,
        r.viewport_rows == metrics.viewport_rows,
{
    ScrollMetrics {
        offset_from_bottom: metrics.offset_from_bottom,
        max_offset_from_bottom: metrics.max_offset_from_bottom,
        viewport_rows: metrics.viewport_rows,
    }
}

/// A visible cell of a hyperlink, in viewport coordinates.
#[derive(Debug, PartialEq, Eq)]
pub struct ExternalHyperlinkSnapshot {
    pub column: u16,
    pub row: u16,
    pub symbol: String,
    pub uri: String,
}

/// A hyperlink lies in what a pane shows.
pub open spec fn visible_in(inner: Area) -> spec_fn(ExternalHyperlinkSnapshot) -> bool {
    |link: ExternalHyperlinkSnapshot| link.column < inner.width && link.row < inner.height
}

pub open spec fn saturating_sum(a: u16, b: u16) -> u16 {
    if a + b > u16::MAX {
        u16::MAX
    } else {
        (a + b) as u16
    }
}

/// A hyperlink in coordinates of the screen, with its symbol and its address.
pub open spec fn placed_link(inner: Area, link: ExternalHyperlinkSnapshot) -> (
    (u16, u16),
    String,
    String,
) {
    (
        (saturating_sum(inner.x, link.column), saturating_sum(inner.y, link.row)),
        link.symbol,
        link.uri,
    )
}

/// The hyperlinks that a pane shows, in coordinates of the screen.
pub fn external_hyperlinks(links: &Vec<ExternalHyperlinkSnapshot>, inner: Area) -> (r: Vec<
    ((u16, u16), String, String),
>)
    ensures
        r@ == links@.filter(visible_in(inner)).map_values(
            |link: ExternalHyperlinkSnapshot| placed_link(inner, link),
        ),
{
    let mut shown: Vec<((u16, u16), String, String)> = Vec::new();
    let ghost keep = visible_in(inner);
    let ghost place = |link: ExternalHyperlinkSnapshot| placed_link(inner, link);
    let mut i: usize = 0;
    proof {
        reveal(Seq::filter);
        assert(links@.take(0).filter(keep).map_values(place) =~= shown@);
    }
    while i < links.len()
        invariant
            i <= links@.len(),
            keep == visible_in(inner),
            place == (|link: ExternalHyperlinkSnapshot| placed_link(inner, link)),
            shown@ == links@.take(i as int).filter(keep).map_values(place),
        decreases links@.len() - i,
    {
        let link = &links[i];
        proof {
            reveal(Seq::filter);
            assert(links@.take(i + 1).drop_last() =~= links@.take(i as int));
            assert(links@.take(i + 1).last() == links@[i as int]);
        }
        if link.column < inner.width && link.row < inner.height {
            let x: u16 = inner.x.saturating_add(link.column);
            let y: u16 = inner.y.saturating_add(link.row);
            shown.push(((x, y), link.symbol.clone(), link.uri.clone()));
        }
        i = i + 1;
        assert(shown@ =~= links@.take(i as int).filter(keep).map_values(place));
    }
    assert(links@.take(i as int) =~= links@);
    shown
}

/// The theme of an external terminal, from the application's colors.
pub fn external_theme(text: CellColor, panel_bg: CellColor, accent: CellColor) -> (r: ExternalTheme)
    ensures
        r == (ExternalTheme { foreground: text, background: panel_bg, cursor: accent }),
{
    ExternalTheme { foreground: text, background: panel_bg, cursor: accent }
}

/// Cursors are asked for by the numbers that terminals know: odd ones blink, and a shape and
/// its blinking form are neighbours.
pub proof fn cursors_have_their_own_numbers(blinking: bool)
    ensures
        cursor_number(ExternalCursorShape::Hidden) == 0,
        cursor_number(ExternalCursorShape::Block { blinking: true }) == 1,
        cursor_number(ExternalCursorShape::Block { blinking: false }) == 2,
        cursor_number(ExternalCursorShape::Underline { blinking: true }) == 3,
        cursor_number(ExternalCursorShape::Underline { blinking: false }) == 4,
        cursor_number(ExternalCursorShape::Bar { blinking: true }) == 5,
        cursor_number(ExternalCursorShape::Bar { blinking: false }) == 6,
{
}

/// A link is placed where its cell is, counted from the corner of the pane, and keeps its text
/// and its address; it is shown where its cell lies in the pane.
pub proof fn links_are_placed_at_their_cells(inner: Area, link: ExternalHyperlinkSnapshot)
    requires
        inner.x + link.column <= u16::MAX,
        inner.y + link.row <= u16::MAX,
    ensures
        (placed_link(inner, link).0).0 == inner.x + link.column,
        (placed_link(inner, link).0).1 == inner.y + link.row,
        placed_link(inner, link).1 == link.symbol,
        placed_link(inner, link).2 == link.uri,
        visible_in(inner)(link) <==> link.column < inner.width && link.row < inner.height,
{
}

} // verus!
