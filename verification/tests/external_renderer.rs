use herdr::canvas::{Area, CellColor, Position};
use herdr::external_renderer::{
    render_checked, render_into_buffer, render_model_into_buffer, ExternalCellFlags,
    ExternalCellView, ExternalCellWidth, ExternalColor, ExternalCursor, ExternalCursorPolicy,
    ExternalCursorShape, ExternalHyperlink, ExternalModes, ExternalMouseMode, ExternalPalette,
    ExternalRenderError, ExternalRenderOptions, ExternalRenderSource, ExternalRgb,
    ExternalRowView, ExternalScrollMetrics, ExternalTerminalView, ExternalTheme,
    ExternalUnderline, UNDERLINE_STYLE_MASK, UNDERLINE_STYLE_SHIFT,
};
use ratatui::buffer::{Buffer, CellDiffOption};
use ratatui::layout::Rect;
use ratatui::style::{Color, Modifier};

fn palette() -> ExternalPalette {
    let mut palette = ExternalPalette::empty();
    assert!(palette.set_named(1, ExternalRgb::new(0x11, 0x22, 0x33)));
    palette
}

fn rows<'a>(cells: &'a [ExternalCellView<'a>]) -> [ExternalRowView<'a>; 1] {
    [ExternalRowView { cells }]
}

fn view<'a>(
    rows: &'a [ExternalRowView<'a>],
    palette: &'a ExternalPalette,
    hyperlinks: &'a [ExternalHyperlink<'a>],
) -> ExternalTerminalView<'a> {
    ExternalTerminalView {
        content_revision: 2,
        columns: 4,
        screen_lines: 1,
        rows,
        palette,
        theme: ExternalTheme {
            foreground: CellColor::Rgb(0xAA, 0xBB, 0xCC),
            background: CellColor::Rgb(0x01, 0x02, 0x03),
            cursor: CellColor::Rgb(0xFE, 0xFE, 0xFE),
        },
        cursor: Some(ExternalCursor {
            x: 1,
            y: 0,
            visible: true,
            shape: ExternalCursorShape::Bar { blinking: false },
        }),
        scroll: ExternalScrollMetrics {
            offset_from_bottom: 0,
            max_offset_from_bottom: 3,
            viewport_rows: 1,
            history_rows: 3,
        },
        modes: ExternalModes {
            alternate_screen: false,
            line_wrap: true,
            origin: false,
            insert: false,
            mouse: ExternalMouseMode::CellMotion,
            sgr_pixel_mouse: true,
            focus_reporting: true,
            bracketed_paste: true,
            synchronized_output: false,
        },
        hyperlinks,
    }
}

fn area() -> Area {
    Area::new(0, 0, 4, 1)
}

fn plain_row(text: &str) -> Vec<ExternalCellView<'static>> {
    text.chars().map(ExternalCellView::plain).collect()
}

#[test]
fn writes_styles_combining_wide_spacer_and_link_metadata_directly() {
    let zero_width = ['\u{0301}'];
    let flags = ExternalCellFlags(ExternalCellFlags::BOLD)
        | ExternalCellFlags(ExternalCellFlags::UNDERCURL)
        | ExternalCellFlags(ExternalCellFlags::WIDE_CHAR);
    let cells = [
        ExternalCellView {
            base: 'e',
            zero_width: &zero_width,
            fg: ExternalColor::Named(1),
            bg: ExternalColor::DefaultBackground,
            underline_color: Some(ExternalColor::Spec(ExternalRgb::new(9, 8, 7))),
            flags,
            width: ExternalCellWidth::Wide,
            hyperlink: Some(0),
        },
        ExternalCellView {
            base: ' ',
            zero_width: &[],
            fg: ExternalColor::Named(1),
            bg: ExternalColor::DefaultBackground,
            underline_color: None,
            flags: ExternalCellFlags(ExternalCellFlags::WIDE_CHAR_SPACER),
            width: ExternalCellWidth::WideSpacer,
            hyperlink: None,
        },
        ExternalCellView::plain('x'),
        ExternalCellView::plain(' '),
    ];
    let palette = palette();
    let rows = rows(&cells);
    let links = [ExternalHyperlink {
        id: "id",
        uri: "https://example.invalid/path",
    }];
    let view = view(&rows, &palette, &links);
    let mut buffer = Buffer::empty(Rect::new(0, 0, 4, 1));
    let output = render_into_buffer(
        &mut buffer,
        area(),
        &view,
        ExternalRenderOptions {
            cursor: ExternalCursorPolicy::ReadOnlyFocused { focused: true },
        },
    )
    .expect("valid view");

    assert_eq!(buffer[(0, 0)].symbol(), "e\u{0301}");
    assert_eq!(buffer[(0, 0)].fg, Color::Rgb(0x11, 0x22, 0x33));
    assert_eq!(buffer[(0, 0)].bg, Color::Rgb(0x01, 0x02, 0x03));
    assert!(buffer[(0, 0)].modifier.contains(Modifier::BOLD));
    assert!(buffer[(0, 0)].modifier.contains(Modifier::UNDERLINED));
    assert_eq!(
        (buffer[(0, 0)].modifier.bits() & UNDERLINE_STYLE_MASK) >> UNDERLINE_STYLE_SHIFT,
        3
    );
    assert_eq!(buffer[(0, 0)].underline_color, Color::Rgb(9, 8, 7));
    assert_eq!(buffer[(1, 0)].symbol(), " ");
    assert_eq!(buffer[(1, 0)].diff_option, CellDiffOption::Skip);
    assert_eq!(output.hyperlinks.len(), 1);
    assert_eq!(output.hyperlinks[0].position, Position { x: 0, y: 0 });
    assert_eq!(output.hyperlinks[0].symbol, "e\u{0301}");
    assert_eq!(output.cursor.unwrap().x, 1);
    assert_eq!(output.modes.mouse, ExternalMouseMode::CellMotion);
    assert!(output.modes.bracketed_paste);
    assert!(output.modes.sgr_pixel_mouse);
    assert_eq!(output.scroll.max_offset_from_bottom, 3);
    assert_eq!(output.stats.wide_cells, 1);
    assert_eq!(output.stats.combining_cells, 1);
}

#[test]
fn inverse_swaps_resolved_colors_and_hidden_collapses_foreground() {
    let cells = [
        ExternalCellView {
            base: 'i',
            zero_width: &[],
            fg: ExternalColor::Spec(ExternalRgb::new(10, 20, 30)),
            bg: ExternalColor::Spec(ExternalRgb::new(40, 50, 60)),
            underline_color: None,
            flags: ExternalCellFlags(ExternalCellFlags::INVERSE),
            width: ExternalCellWidth::Narrow,
            hyperlink: None,
        },
        ExternalCellView {
            base: 'h',
            zero_width: &[],
            fg: ExternalColor::Spec(ExternalRgb::new(70, 80, 90)),
            bg: ExternalColor::Spec(ExternalRgb::new(1, 2, 3)),
            underline_color: None,
            flags: ExternalCellFlags(ExternalCellFlags::HIDDEN),
            width: ExternalCellWidth::Narrow,
            hyperlink: None,
        },
        ExternalCellView::plain(' '),
        ExternalCellView::plain(' '),
    ];
    let palette = palette();
    let rows = rows(&cells);
    let links = [];
    let view = view(&rows, &palette, &links);
    let mut buffer = Buffer::empty(Rect::new(0, 0, 4, 1));
    render_into_buffer(&mut buffer, area(), &view, Default::default()).unwrap();
    assert_eq!(buffer[(0, 0)].fg, Color::Rgb(40, 50, 60));
    assert_eq!(buffer[(0, 0)].bg, Color::Rgb(10, 20, 30));
    assert_eq!(buffer[(1, 0)].fg, Color::Rgb(1, 2, 3));
    assert!(buffer[(1, 0)].modifier.contains(Modifier::HIDDEN));
}

#[test]
fn focused_cursor_is_hidden_while_scrolled_back() {
    let cells = plain_row("abcd");
    let palette = palette();
    let rows = rows(&cells);
    let links = [];
    let mut view = view(&rows, &palette, &links);
    view.scroll.offset_from_bottom = 1;
    let mut buffer = Buffer::empty(Rect::new(0, 0, 4, 1));
    let output = render_into_buffer(
        &mut buffer,
        area(),
        &view,
        ExternalRenderOptions {
            cursor: ExternalCursorPolicy::ReadOnlyFocused { focused: true },
        },
    )
    .unwrap();
    assert!(output.cursor.is_none());
}

#[test]
fn validates_shape_before_mutating_destination() {
    let cells = [ExternalCellView::plain('a')];
    let palette = palette();
    let rows = [ExternalRowView { cells: &cells }];
    let links = [];
    let mut view = view(&rows, &palette, &links);
    view.content_revision = 3;
    let mut buffer = Buffer::with_lines(["old!"]);
    let before = buffer.clone();
    assert_eq!(
        render_into_buffer(&mut buffer, area(), &view, Default::default()),
        Err(ExternalRenderError::UnstableRevision(3))
    );
    assert_eq!(buffer, before);
}

#[test]
fn source_adapter_uses_one_view_without_pty_or_ansi() {
    struct Source<'a> {
        view: ExternalTerminalView<'a>,
    }
    impl<'a> ExternalRenderSource for Source<'a> {
        fn external_render_view(&self) -> ExternalTerminalView<'_> {
            self.view
        }
    }
    let cells = [
        ExternalCellView::plain('o'),
        ExternalCellView::plain('k'),
        ExternalCellView::plain('!'),
        ExternalCellView::plain(' '),
    ];
    let palette = palette();
    let rows = rows(&cells);
    let links = [];
    let source = Source {
        view: view(&rows, &palette, &links),
    };
    let mut buffer = Buffer::empty(Rect::new(0, 0, 4, 1));
    let result = render_model_into_buffer(&source, &mut buffer, area(), Default::default()).unwrap();
    assert_eq!(result.content_revision, 2);
    assert_eq!(buffer[(0, 0)].symbol(), "o");
    assert_eq!(buffer[(1, 0)].symbol(), "k");
}

#[test]
fn rendering_leaves_the_rest_of_the_buffer_alone() {
    let cells = plain_row("wxyz");
    let palette = palette();
    let rows = rows(&cells);
    let links = [];
    let view = view(&rows, &palette, &links);
    let mut buffer = Buffer::with_lines(["......", "......", "......"]);
    render_into_buffer(&mut buffer, Area::new(1, 1, 3, 1), &view, Default::default()).unwrap();
    assert_eq!(buffer[(0, 1)].symbol(), ".");
    assert_eq!(buffer[(1, 1)].symbol(), "w");
    assert_eq!(buffer[(3, 1)].symbol(), "y");
    assert_eq!(buffer[(4, 1)].symbol(), ".");
    assert_eq!(buffer[(1, 0)].symbol(), ".");
    assert_eq!(buffer[(1, 2)].symbol(), ".");
}

#[test]
fn checked_rendering_refuses_a_buffer_without_its_cells() {
    let cells = plain_row("abcd");
    let palette = palette();
    let rows = rows(&cells);
    let links = [];
    let view = view(&rows, &palette, &links);
    let mut broken = Buffer::empty(Rect::new(0, 0, 4, 1));
    broken.content.pop();
    assert!(render_checked(&mut broken, area(), &view, Default::default()).is_none());
    let mut buffer = Buffer::empty(Rect::new(0, 0, 4, 1));
    let beyond = Area::new(u16::MAX, 0, 4, 1);
    assert!(matches!(
        render_checked(&mut buffer, beyond, &view, Default::default()),
        Some(Err(ExternalRenderError::BufferAreaOutside { .. }))
    ));
    assert!(matches!(
        render_into_buffer(&mut buffer, beyond, &view, Default::default()),
        Err(ExternalRenderError::BufferAreaOutside { .. })
    ));
    assert_eq!(buffer[(3, 0)].symbol(), " ");
    assert!(render_checked(&mut buffer, area(), &view, Default::default())
        .unwrap()
        .is_ok());
    assert_eq!(buffer[(3, 0)].symbol(), "d");
}

#[test]
fn named_and_indexed_colors_reach_the_cells() {
    let mut cells = plain_row("abcd");
    cells[0].fg = ExternalColor::Indexed(17);
    cells[1].fg = ExternalColor::Reset;
    cells[2].fg = ExternalColor::Named(1);
    let palette = palette();
    let rows = rows(&cells);
    let links = [];
    let view = view(&rows, &palette, &links);
    let mut buffer = Buffer::empty(Rect::new(0, 0, 4, 1));
    render_into_buffer(&mut buffer, area(), &view, Default::default()).unwrap();
    assert_eq!(buffer[(0, 0)].fg, Color::Indexed(17));
    assert_eq!(buffer[(1, 0)].fg, Color::Reset);
    assert_eq!(buffer[(2, 0)].fg, Color::Rgb(0x11, 0x22, 0x33));
    assert_eq!(buffer[(3, 0)].fg, Color::Rgb(0xAA, 0xBB, 0xCC));
}

#[test]
fn every_defect_of_a_view_is_told() {
    let palette = palette();
    let links = [ExternalHyperlink { id: "id", uri: "uri" }];
    let good = plain_row("abcd");
    let base_rows = rows(&good);
    let base = view(&base_rows, &palette, &links);
    assert!(base.validate().is_ok());

    let mut broken = base;
    broken.content_revision = 7;
    assert_eq!(
        broken.validate().unwrap_err().message(),
        "external terminal revision 7 is in flight"
    );
    let mut broken = base;
    broken.columns = 0;
    assert_eq!(broken.validate(), Err(ExternalRenderError::EmptyDimensions));
    let mut broken = base;
    broken.screen_lines = 2;
    broken.scroll.viewport_rows = 2;
    assert_eq!(
        broken.validate(),
        Err(ExternalRenderError::RowCount { expected: 2, actual: 1 })
    );
    let mut broken = base;
    broken.columns = 5;
    assert_eq!(
        broken.validate().unwrap_err().message(),
        "external terminal row 0 cell count 4 != 5"
    );
    let mut broken = base;
    broken.scroll.offset_from_bottom = 4;
    assert_eq!(broken.validate(), Err(ExternalRenderError::InvalidScrollMetrics));
    let mut broken = base;
    broken.cursor = Some(ExternalCursor {
        x: 4,
        y: 0,
        visible: true,
        shape: ExternalCursorShape::Hidden,
    });
    assert_eq!(broken.validate(), Err(ExternalRenderError::CursorOutsideModel));

    let mut cells = plain_row("abcd");
    cells[2].hyperlink = Some(1);
    let linked = rows(&cells);
    assert_eq!(
        view(&linked, &palette, &links).validate(),
        Err(ExternalRenderError::HyperlinkIndex { row: 0, column: 2, index: 1 })
    );
    let mut cells = plain_row("abcd");
    cells[1].bg = ExternalColor::Named(269);
    let colored = rows(&cells);
    assert_eq!(
        view(&colored, &palette, &links).validate(),
        Err(ExternalRenderError::InvalidNamedColor(269))
    );
    let mut cells = plain_row("abcd");
    cells[3].width = ExternalCellWidth::Wide;
    let wide = rows(&cells);
    assert_eq!(
        view(&wide, &palette, &links).validate().unwrap_err().message(),
        "external terminal cell width flags disagree at row 0, column 3"
    );
    let long = "u".repeat(70_000);
    let long_links = [ExternalHyperlink { id: "id", uri: &long }];
    assert_eq!(
        view(&base_rows, &palette, &long_links).validate(),
        Err(ExternalRenderError::HyperlinkTooLong { index: 0 })
    );
    let mut buffer = Buffer::empty(Rect::new(0, 0, 4, 1));
    assert_eq!(
        render_into_buffer(&mut buffer, Area::new(1, 0, 4, 1), &base, Default::default())
            .unwrap_err(),
        ExternalRenderError::BufferAreaOutside {
            buffer: Area::new(0, 0, 4, 1),
            requested: Area::new(1, 0, 4, 1),
        }
    );
}

#[test]
fn the_rarest_underline_counts() {
    let mut cell = ExternalCellView::plain('u');
    assert_eq!(cell.underline(), None);
    cell.flags = ExternalCellFlags(ExternalCellFlags::UNDERLINE | ExternalCellFlags::DASHED_UNDERLINE);
    assert_eq!(cell.underline(), Some(ExternalUnderline::Dashed));
    assert!(cell.flags.contains(ExternalCellFlags(ExternalCellFlags::UNDERLINE)));
    assert!(!cell.flags.intersects(ExternalCellFlags(ExternalCellFlags::BOLD)));
    assert_eq!(ExternalCellFlags::from_bits_retain(0x8000).bits(), 0x8000);
    assert_eq!(ExternalCellFlags::empty().bits(), 0);
    let mut palette = ExternalPalette::empty();
    assert!(!palette.set_named(269, ExternalRgb::new(1, 1, 1)));
    assert_eq!(palette.named(268), None);
}
