//! Plain presentation of a transcript. Its text was normalized and bounded when replies were
//! applied; rendering only reads the retained tail.
use vstd::prelude::*;

use super::transcript::line_texts;
use super::{ProviderConnection, ProviderLifecycle};
use crate::app::runtime_providers::ExternalTerminal;
use crate::canvas::{
    can_draw, drawn_area, drawn_cells, outside_color, whole, write_text, written_cells, Area, CellColor,
    CellContent,
};

verus! {

/// The colors of the title, of the footer and of the text.
#[derive(Clone, Copy, Debug, PartialEq, Eq, Structural)]
pub struct TranscriptColors {
    pub accent: CellColor,
    pub overlay: CellColor,
    pub text: CellColor,
}

/// A row of text in a color.
pub struct Row {
    pub y: u16,
    pub text: Seq<char>,
    pub color: CellColor,
}

/// What stands above a transcript.
pub open spec fn title_of(terminal: ExternalTerminal) -> Seq<char> {
    match terminal.external_observation {
        None => "Coven transcript / unavailable"@,
        Some(observation) => if observation.diagnostic is Some {
            "Coven transcript / read failed; retained text may be stale"@
        } else {
            match observation.connection {
                ProviderConnection::Connecting => "Coven transcript / connecting"@,
                ProviderConnection::Connected => "Coven transcript / connected"@,
                ProviderConnection::Disconnected =>
                    "Coven transcript / disconnected; retained text may be stale"@,
                ProviderConnection::Unknown => "Coven transcript / unavailable"@,
            }
        },
    }
}

fn title(terminal: &ExternalTerminal) -> (r: &'static str)
    ensures
        r@ == title_of(*terminal),
{
    match &terminal.external_observation {
        None => "Coven transcript / unavailable",
        Some(observation) => {
            if observation.diagnostic.is_some() {
                "Coven transcript / read failed; retained text may be stale"
            } else {
                match observation.connection {
                    ProviderConnection::Connecting => "Coven transcript / connecting",
                    ProviderConnection::Connected => "Coven transcript / connected",
                    ProviderConnection::Disconnected => {
                        "Coven transcript / disconnected; retained text may be stale"
                    },
                    ProviderConnection::Unknown => "Coven transcript / unavailable",
                }
            }
        },
    }
}

/// What stands below a transcript: that output is missing, or else how the execution stands.
pub open spec fn footer_of(terminal: ExternalTerminal) -> Seq<char> {
    let transcript = terminal.external_transcript;
    let lifecycle = match terminal.external_observation {
        Some(observation) => observation.lifecycle,
        None => ProviderLifecycle::Unknown,
    };
    if transcript is Some && (transcript->0.dropped() matches Some(bytes) && bytes > 0) {
        "Provider dropped output / transcript is read-only"@
    } else if transcript is Some && transcript->0.retained().omissions.some() {
        "Some output omitted / transcript is read-only"@
    } else {
        match lifecycle {
            ProviderLifecycle::Running | ProviderLifecycle::Starting =>
                "Running / transcript is read-only"@,
            ProviderLifecycle::Idle => "Idle / transcript is read-only"@,
            ProviderLifecycle::Completed => "Completed / transcript is read-only"@,
            ProviderLifecycle::Failed => "Failed / transcript is read-only"@,
            ProviderLifecycle::Cancelled | ProviderLifecycle::Killed =>
                "Stopped / transcript is read-only"@,
            ProviderLifecycle::Orphaned => "Orphaned / transcript is read-only"@,
            _ => "Lifecycle unknown / transcript is read-only"@,
        }
    }
}

fn footer(terminal: &ExternalTerminal) -> (r: &'static str)
    ensures
        r@ == footer_of(*terminal),
{
    if let Some(transcript) = &terminal.external_transcript {
        if let Some(bytes) = transcript.source_dropped_output_bytes() {
            if bytes > 0 {
                return "Provider dropped output / transcript is read-only";
            }
        }
        if transcript.has_omissions() {
            return "Some output omitted / transcript is read-only";
        }
    }
    let lifecycle = match &terminal.external_observation {
        Some(observation) => observation.lifecycle,
        None => ProviderLifecycle::Unknown,
    };
    match lifecycle {
        ProviderLifecycle::Running | ProviderLifecycle::Starting => {
            "Running / transcript is read-only"
        },
        ProviderLifecycle::Idle => "Idle / transcript is read-only",
        ProviderLifecycle::Completed => "Completed / transcript is read-only",
        ProviderLifecycle::Failed => "Failed / transcript is read-only",
        ProviderLifecycle::Cancelled | ProviderLifecycle::Killed => {
            "Stopped / transcript is read-only"
        },
        ProviderLifecycle::Orphaned => "Orphaned / transcript is read-only",
        _ => "Lifecycle unknown / transcript is read-only",
    }
}

/// The lines that fit between the title and the footer: the last ones of the transcript.
pub open spec fn body_lines(terminal: ExternalTerminal, rows: nat) -> Seq<Seq<char>> {
    match terminal.external_transcript {
        None => if rows > 0 {
            seq!["Transcript output is unavailable from this provider."@]
        } else {
            Seq::empty()
        },
        Some(projection) => {
            let lines = projection.retained().lines;
            if rows < lines.len() {
                lines.skip(lines.len() - rows)
            } else {
                lines
            }
        },
    }
}

/// The rows that are written, in the order in which they are.
pub open spec fn transcript_rows(
    terminal: ExternalTerminal,
    area: Area,
    colors: TranscriptColors,
) -> Seq<Row> {
    let first = Row { y: area.y, text: title_of(terminal), color: colors.accent };
    if area.width == 0 || area.height == 0 {
        Seq::empty()
    } else if area.height < 2 {
        seq![first]
    } else {
        let last = Row {
            y: (area.y + area.height - 1) as u16,
            text: footer_of(terminal),
            color: colors.overlay,
        };
        let lines = body_lines(terminal, (area.height - 2) as nat);
        seq![first, last] + Seq::new(
            lines.len(),
            |i: int| Row { y: (area.y + 1 + i) as u16, text: lines[i], color: colors.text },
        )
    }
}

/// What the cells hold once the first `n` rows were written.
pub open spec fn with_rows(
    cells: Map<(u16, u16), CellContent>,
    drawn: Area,
    area: Area,
    rows: Seq<Row>,
    n: nat,
) -> Map<(u16, u16), CellContent>
    decreases n,
{
    if n == 0 {
        cells
    } else {
        let row = rows[n - 1];
        written_cells(
            with_rows(cells, drawn, area, rows, (n - 1) as nat),
            drawn,
            area.x,
            row.y,
            row.text,
            area.width as usize,
            row.color,
        )
    }
}

/// `after` is `before` with the first `n` rows written, and with nothing else changed outside
/// of the area.
pub open spec fn wrote(
    before: ratatui::buffer::Buffer,
    after: ratatui::buffer::Buffer,
    area: Area,
    rows: Seq<Row>,
    n: nat,
) -> bool {
    &&& drawn_area(after) == drawn_area(before)
    &&& drawn_cells(after) == with_rows(drawn_cells(before), drawn_area(before), area, rows, n)
    &&& drawn_cells(after).dom() == drawn_cells(before).dom()
    &&& forall|x: u16, y: u16| #[trigger]
        drawn_cells(before).dom().contains((x, y)) && !area.contains(x as int, y as int)
            ==> drawn_cells(after)[(x, y)] == drawn_cells(before)[(x, y)]
}

fn write_row(
    buffer: &mut ratatui::buffer::Buffer,
    area: Area,
    y: u16,
    text: &str,
    color: CellColor,
    Ghost(before): Ghost<ratatui::buffer::Buffer>,
    Ghost(rows): Ghost<Seq<Row>>,
    Ghost(n): Ghost<nat>,
)
    requires
        whole(before),
        drawn_area(before).bounded(),
        drawn_area(before).encloses(area),
        area.width > 0,
        area.y <= y < area.y + area.height,
        n < rows.len(),
        rows[n as int].y == y,
        rows[n as int].text == text@,
        rows[n as int].color == color,
        wrote(before, *old(buffer), area, rows, n),
    ensures
        wrote(before, *final(buffer), area, rows, n + 1),
{
    let fg = outside_color(color);
    assert(drawn_area(before).contains(area.x as int, y as int));
    assert forall|a: u16, b: u16| #[trigger]
        drawn_area(*buffer).contains(a as int, b as int) implies drawn_cells(
        *buffer,
    ).dom().contains((a, b)) by {
        assert(drawn_area(before).contains(a as int, b as int));
    }
    let ghost middle = *buffer;
    write_text(buffer, area.x, y, text, area.width as usize, fg);
    assert forall|a: u16, b: u16| #[trigger]
        drawn_cells(before).dom().contains((a, b)) && !area.contains(a as int, b as int) implies
        drawn_cells(*buffer)[(a, b)] == drawn_cells(before)[(a, b)] by {
        assert(drawn_cells(middle).dom().contains((a, b)));
        assert(drawn_cells(middle)[(a, b)] == drawn_cells(before)[(a, b)]);
    }
}

/// Show a transcript in an area of a buffer: a title, the last lines that fit, and a footer.
/// Nothing outside of the area changes.
pub fn render(
    terminal: &ExternalTerminal,
    buffer: &mut ratatui::buffer::Buffer,
    area: Area,
    colors: TranscriptColors,
)
    requires
        terminal.wf(),
        whole(*old(buffer)),
        drawn_area(*old(buffer)).bounded(),
        drawn_area(*old(buffer)).encloses(area),
    ensures
        wrote(
            *old(buffer),
            *final(buffer),
            area,
            transcript_rows(*terminal, area, colors),
            transcript_rows(*terminal, area, colors).len(),
        ),
{
    if area.width == 0 || area.height == 0 {
        return ;
    }
    let ghost before = *buffer;
    let ghost rows = transcript_rows(*terminal, area, colors);
    write_row(
        buffer,
        area,
        area.y,
        title(terminal),
        colors.accent,
        Ghost(before),
        Ghost(rows),
        Ghost(0),
    );
    if area.height < 2 {
        return ;
    }
    let footer_y: u16 = area.y + (area.height - 1);
    write_row(
        buffer,
        area,
        footer_y,
        footer(terminal),
        colors.overlay,
        Ghost(before),
        Ghost(rows),
        Ghost(1),
    );
    let room: usize = (area.height - 2) as usize;
    let ghost lines = body_lines(*terminal, room as nat);
    let projection = match &terminal.external_transcript {
        Some(projection) => projection,
        None => {
            if room > 0 {
                assert(rows[2].text == lines[0]);
                write_row(
                    buffer,
                    area,
                    area.y + 1,
                    "Transcript output is unavailable from this provider.",
                    colors.text,
                    Ghost(before),
                    Ghost(rows),
                    Ghost(2),
                );
            }
            return ;
        },
    };
    let shown = projection.read_lines(room);
    assert(line_texts(shown@) =~= lines);
    let mut i: usize = 0;
    while i < shown.len()
        invariant
            i <= shown@.len() <= room,
            room == area.height - 2,
            area.width > 0,
            whole(before),
            drawn_area(before).bounded(),
            drawn_area(before).encloses(area),
            line_texts(shown@) == lines,
            lines == body_lines(*terminal, room as nat),
            rows == transcript_rows(*terminal, area, colors),
            area.height >= 2,
            wrote(before, *buffer, area, rows, (2 + i) as nat),
        decreases shown@.len() - i,
    {
        assert(line_texts(shown@)[i as int] == shown@[i as int]@);
        assert(rows[2 + i as int].text == lines[i as int]);
        write_row(
            buffer,
            area,
            area.y + 1 + i as u16,
            shown[i].as_str(),
            colors.text,
            Ghost(before),
            Ghost(rows),
            Ghost((2 + i) as nat),
        );
        i = i + 1;
    }
    assert(line_texts(shown@).len() == shown@.len());
}

/// Show a transcript where the buffer holds every cell of its area and encloses the area that
/// is drawn into, and say so. Elsewhere nothing is done.
pub fn render_checked(
    terminal: &ExternalTerminal,
    buffer: &mut ratatui::buffer::Buffer,
    area: Area,
    colors: TranscriptColors,
) -> (r: bool)
    requires
        terminal.wf(),
    ensures
        r <==> whole(*old(buffer)) && drawn_area(*old(buffer)).bounded() && drawn_area(
            *old(buffer),
        ).encloses(area),
        r ==> wrote(
            *old(buffer),
            *final(buffer),
            area,
            transcript_rows(*terminal, area, colors),
            transcript_rows(*terminal, area, colors).len(),
        ),
        !r ==> *final(buffer) == *old(buffer),
{
    if !can_draw(buffer, area) {
        return false;
    }
    render(terminal, buffer, area, colors);
    true
}

/// The newest lines are shown, as many as fit between the title and the footer, in their order
/// from the top.
pub proof fn newest_lines_are_shown(
    terminal: ExternalTerminal,
    area: Area,
    colors: TranscriptColors,
    i: int,
)
    requires
        terminal.external_transcript is Some,
        area.width > 0,
        area.height >= 2,
        area.y + area.height <= u16::MAX,
    ensures
        ({
            let rows = transcript_rows(terminal, area, colors);
            let lines = terminal.external_transcript->0.retained().lines;
            let room = area.height - 2;
            let shown = if lines.len() < room {
                lines.len() as int
            } else {
                room
            };
            &&& rows.len() == 2 + shown
            &&& rows[0].y == area.y && rows[0].color == colors.accent
            &&& rows[1].y == area.y + area.height - 1 && rows[1].color == colors.overlay
            &&& 0 <= i < shown ==> rows[2 + i].y == area.y + 1 + i && rows[2 + i].text
                == lines[lines.len() - shown + i] && rows[2 + i].color == colors.text
        }),
{
}

/// The title says how the provider is connected, and that a read has failed.
pub proof fn titles_tell_the_connection(terminal: ExternalTerminal)
    ensures
        terminal.external_observation is None ==> title_of(terminal)
            == "Coven transcript / unavailable"@,
        terminal.external_observation matches Some(seen) ==> {
            &&& seen.diagnostic is Some ==> title_of(terminal)
                == "Coven transcript / read failed; retained text may be stale"@
            &&& seen.diagnostic is None && seen.connection is Connecting ==> title_of(terminal)
                == "Coven transcript / connecting"@
            &&& seen.diagnostic is None && seen.connection is Connected ==> title_of(terminal)
                == "Coven transcript / connected"@
            &&& seen.diagnostic is None && seen.connection is Disconnected ==> title_of(terminal)
                == "Coven transcript / disconnected; retained text may be stale"@
            &&& seen.diagnostic is None && seen.connection is Unknown ==> title_of(terminal)
                == "Coven transcript / unavailable"@
        },
{
}

/// The footer says that output is missing, where it is, and else how far the execution is.
pub proof fn footers_tell_what_is_missing(terminal: ExternalTerminal)
    ensures
        ({
            let text = terminal.external_transcript;
            let dropped = text is Some && text->0.dropped() is Some && text->0.dropped()->0 > 0;
            let omitted = text is Some && {
                let left_out = text->0.retained().omissions;
                left_out.prefix_omitted || left_out.chunks != 0 || left_out.bytes != 0
                    || left_out.lines != 0
            };
            let footer = footer_of(terminal);
            &&& dropped ==> footer == "Provider dropped output / transcript is read-only"@
            &&& !dropped && omitted ==> footer == "Some output omitted / transcript is read-only"@
            &&& !dropped && !omitted && terminal.external_observation is None ==> footer
                == "Lifecycle unknown / transcript is read-only"@
            &&& !dropped && !omitted ==> (terminal.external_observation matches Some(seen) ==> {
                &&& seen.lifecycle is Running || seen.lifecycle is Starting ==> footer
                    == "Running / transcript is read-only"@
                &&& seen.lifecycle is Idle ==> footer == "Idle / transcript is read-only"@
                &&& seen.lifecycle is Completed ==> footer == "Completed / transcript is read-only"@
                &&& seen.lifecycle is Failed ==> footer == "Failed / transcript is read-only"@
                &&& seen.lifecycle is Cancelled || seen.lifecycle is Killed ==> footer
                    == "Stopped / transcript is read-only"@
                &&& seen.lifecycle is Orphaned ==> footer == "Orphaned / transcript is read-only"@
                &&& seen.lifecycle is Unknown || seen.lifecycle is Created ==> footer
                    == "Lifecycle unknown / transcript is read-only"@
            })
        }),
{
}

/// A terminal without a transcript says so.
pub proof fn missing_transcripts_are_told(
    terminal: ExternalTerminal,
    area: Area,
    colors: TranscriptColors,
)
    requires
        terminal.external_transcript is None,
        area.width > 0,
        area.y + area.height <= u16::MAX,
    ensures
        area.height >= 3 ==> transcript_rows(terminal, area, colors).len() == 3
            && transcript_rows(terminal, area, colors)[2].text
            == "Transcript output is unavailable from this provider."@
            && transcript_rows(terminal, area, colors)[2].y == area.y + 1,
        area.height == 1 ==> transcript_rows(terminal, area, colors).len() == 1
            && transcript_rows(terminal, area, colors)[0].text == title_of(terminal),
        area.height == 0 ==> transcript_rows(terminal, area, colors).len() == 0,
{
}

} // verus!
