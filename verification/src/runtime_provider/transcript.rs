//! A bounded, server-owned presentation of an external execution's transcript.
//!
//! A transcript is text that an external owner made available for display. The
//! projection owns the only normalization and retention step, so that a renderer
//! and an API read see exactly the same text.
use vstd::prelude::*;

use super::ManagedBinding;
use crate::coven::{
    ContractError, SourceCursor, SourceIdentity,
    TranscriptChunk, TranscriptContent, TranscriptRead, TranscriptReply, TranscriptResult,
};
use crate::text::{
    byte_len, char_width, control, hex_char, hex_digit, is_control, signed_decimal,
    signed_decimal_text,
};

verus! {

/// Maximum UTF-8 bytes retained by one external transcript projection.
pub const MAX_RETAINED_TEXT_BYTES: usize = 262_144;

/// Maximum logical lines retained by one external transcript projection.
pub const MAX_RETAINED_LOGICAL_LINES: usize = 4096;

/// How many source characters are normalized between two checks of the size of
/// the text that is being built.
pub const NORMALIZATION_CHECK_CHARS: usize = 1024;

/// How far the text may grow past the retained bound before a check trims it.
pub const NORMALIZATION_HEADROOM_BYTES: usize = 16_384;

/// Unicode format controls that would change how the text around them is shown.
pub open spec fn format_control(c: char) -> bool {
    let n = c as u32;
    ||| n == 0x00ad
    ||| 0x0600 <= n <= 0x0605
    ||| n == 0x061c
    ||| n == 0x06dd
    ||| n == 0x070f
    ||| 0x0890 <= n <= 0x0891
    ||| n == 0x08e2
    ||| n == 0x180e
    ||| 0x200b <= n <= 0x200f
    ||| 0x202a <= n <= 0x202e
    ||| 0x2060 <= n <= 0x2064
    ||| 0x2066 <= n <= 0x206f
    ||| n == 0xfeff
    ||| 0xfff9 <= n <= 0xfffb
    ||| n == 0x110bd
    ||| n == 0x110cd
    ||| 0x13430 <= n <= 0x1343f
    ||| 0x1bca0 <= n <= 0x1bca3
    ||| 0x1d173 <= n <= 0x1d17a
    ||| n == 0xe0001
    ||| 0xe0020 <= n <= 0xe007f
}

/// `char::is_control` covers C0/C1 but Unicode format controls are a separate
/// category. The list is local and explicit, so that no terminal parser or
/// platform Unicode service takes part in the presentation.
pub fn is_unicode_format_control(c: char) -> (r: bool)
    ensures
        r == format_control(c),
{
    let n: u32 = c as u32;
    n == 0x00ad || (0x0600 <= n && n <= 0x0605) || n == 0x061c || n == 0x06dd || n == 0x070f || (
    0x0890 <= n && n <= 0x0891) || n == 0x08e2 || n == 0x180e || (0x200b <= n && n <= 0x200f) || (
    0x202a <= n && n <= 0x202e) || (0x2060 <= n && n <= 0x2064) || (0x2066 <= n && n <= 0x206f)
        || n == 0xfeff || (0xfff9 <= n && n <= 0xfffb) || n == 0x110bd || n == 0x110cd || (0x13430
        <= n && n <= 0x1343f) || (0x1bca0 <= n && n <= 0x1bca3) || (0x1d173 <= n && n <= 0x1d17a)
        || n == 0xe0001 || (0xe0020 <= n && n <= 0xe007f)
}

/// `n` in hexadecimal, without leading zeros.
pub open spec fn hex(n: nat) -> Seq<char>
    decreases n,
{
    if n < 16 {
        seq![hex_digit(n)]
    } else {
        hex(n / 16).push(hex_digit(n % 16))
    }
}

/// The visible spelling of a character that must not be shown as it is.
pub open spec fn escaped(c: char) -> Seq<char> {
    if c == '\t' {
        seq!['\\', 't']
    } else if c == '\r' {
        seq!['\\', 'r']
    } else {
        seq!['\\', 'u', '{'] + hex(c as nat) + seq!['}']
    }
}

/// What is shown for one source character. A line feed ends a line.
pub open spec fn displayed(c: char) -> Seq<char> {
    if c != '\n' && (control(c) || format_control(c)) {
        escaped(c)
    } else {
        seq![c]
    }
}

proof fn lemma_hex_digit(n: nat)
    ensures
        hex_digit(n) != '\n',
        char_width(hex_digit(n)) == 1,
{
}

/// Hexadecimal digits are plain one-byte characters, at most six for a code point.
proof fn lemma_hex(n: nat)
    ensures
        1 <= hex(n).len(),
        n < 0x110000 ==> hex(n).len() <= 6,
        n < 0x100000 ==> hex(n).len() <= 5,
        n < 0x10000 ==> hex(n).len() <= 4,
        n < 0x1000 ==> hex(n).len() <= 3,
        n < 0x100 ==> hex(n).len() <= 2,
        n < 0x10 ==> hex(n).len() <= 1,
        forall|i: int| 0 <= i < hex(n).len() ==> (#[trigger] hex(n)[i]) != '\n' && char_width(
            hex(n)[i],
        ) == 1,
    decreases n,
{
    lemma_hex_digit(n);
    lemma_hex_digit(n % 16);
    if n >= 16 {
        lemma_hex(n / 16);
    }
}

pub proof fn lemma_displayed(c: char)
    ensures
        1 <= displayed(c).len() <= 10,
        forall|i: int|
            0 <= i < displayed(c).len() ==> char_width(#[trigger] displayed(c)[i]) <= 4,
        c != '\n' ==> forall|i: int|
            0 <= i < displayed(c).len() ==> (#[trigger] displayed(c)[i]) != '\n',
        displayed(c).len() > 1 ==> forall|i: int|
            0 <= i < displayed(c).len() ==> char_width(#[trigger] displayed(c)[i]) == 1,
{
    lemma_hex(c as nat);
    crate::text::lemma_char_width(c);
}

/// Append the hexadecimal spelling of `n` to `out`.
fn push_hex(out: &mut Vec<char>, n: u32)
    ensures
        final(out)@ == old(out)@ + hex(n as nat),
    decreases n,
{
    if n < 16 {
        out.push(hex_char(n));
        assert(out@ =~= old(out)@ + hex(n as nat));
    } else {
        push_hex(out, n / 16);
        out.push(hex_char(n % 16));
        assert(out@ =~= old(out)@ + hex(n as nat));
    }
}

/// What is shown for one source character.
pub fn display_characters(c: char) -> (r: Vec<char>)
    ensures
        r@ == displayed(c),
{
    let mut out: Vec<char> = Vec::new();
    if c != '\n' && (is_control(c) || is_unicode_format_control(c)) {
        out.push('\\');
        if c == '\t' {
            out.push('t');
        } else if c == '\r' {
            out.push('r');
        } else {
            out.push('u');
            out.push('{');
            assert(out@ =~= seq!['\\', 'u', '{']);
            push_hex(&mut out, c as u32);
            out.push('}');
        }
    } else {
        out.push(c);
    }
    assert(out@ =~= displayed(c));
    out
}

/// Cumulative bounded-retention information for the current source anchor.
#[derive(Clone, Copy, Debug, PartialEq, Eq, Structural)]
pub struct TranscriptOmissions {
    /// The owner did not hand over some prefix in its snapshot.
    pub prefix_omitted: bool,
    /// Number of source chunks represented by an explicit omitted marker.
    pub chunks: u64,
    /// Bytes omitted by source-side truncation of a chunk or by local retention.
    pub bytes: u64,
    /// Logical lines discarded from the local head to satisfy the bounds.
    pub lines: u64,
}

impl TranscriptOmissions {
    pub open spec fn nothing() -> Self {
        TranscriptOmissions { prefix_omitted: false, chunks: 0, bytes: 0, lines: 0 }
    }

    pub open spec fn some(self) -> bool {
        self.prefix_omitted || self.chunks != 0 || self.bytes != 0 || self.lines != 0
    }

    pub fn none() -> (r: Self)
        ensures
            r == TranscriptOmissions::nothing(),
    {
        TranscriptOmissions { prefix_omitted: false, chunks: 0, bytes: 0, lines: 0 }
    }

    pub fn any(self) -> (r: bool)
        ensures
            r == self.some(),
    {
        self.prefix_omitted || self.chunks != 0 || self.bytes != 0 || self.lines != 0
    }
}

/// `a + b`, held at the largest number that a counter can show.
pub open spec fn counted(a: u64, b: nat) -> u64 {
    if a + b > u64::MAX {
        u64::MAX
    } else {
        (a + b) as u64
    }
}

/// The text that a projection retains, line by line, and what it left out.
#[verifier::ext_equal]
pub struct Retained {
    pub lines: Seq<Seq<char>>,
    pub omissions: TranscriptOmissions,
}

/// The bytes of all lines together, without the separators between them.
pub open spec fn content_bytes(lines: Seq<Seq<char>>) -> nat
    decreases lines.len(),
{
    if lines.len() == 0 {
        0
    } else {
        content_bytes(lines.drop_last()) + byte_len(lines.last())
    }
}

/// The bytes of the lines joined by one separator each.
pub open spec fn text_bytes(lines: Seq<Seq<char>>) -> nat {
    if lines.len() == 0 {
        0
    } else {
        (content_bytes(lines) + lines.len() - 1) as nat
    }
}

/// The number of leading lines, from `n` on, whose bytes fit in `limit`.
pub open spec fn fitting_lines(lines: Seq<Seq<char>>, limit: nat, n: nat) -> nat
    decreases lines.len() - n,
{
    if n < lines.len() && content_bytes(lines.take(n as int + 1)) <= limit {
        fitting_lines(lines, limit, n + 1)
    } else {
        n
    }
}

/// The least number of leading characters, from `n` on, that take `target` bytes.
pub open spec fn covering_chars(text: Seq<char>, target: nat, n: nat) -> nat
    decreases text.len() - n,
{
    if n < text.len() && byte_len(text.take(n as int)) < target {
        covering_chars(text, target, n + 1)
    } else {
        n
    }
}

impl Retained {
    /// The text without its first `count` lines.
    pub open spec fn drop_lines(self, count: nat) -> Retained {
        Retained {
            lines: self.lines.skip(count as int),
            omissions: TranscriptOmissions {
                prefix_omitted: true,
                lines: counted(self.omissions.lines, count),
                ..self.omissions
            },
        }
    }

    /// The text without the first `count` characters of its first line.
    pub open spec fn drop_chars(self, count: nat) -> Retained {
        Retained {
            lines: self.lines.update(0, self.lines[0].skip(count as int)),
            omissions: TranscriptOmissions {
                prefix_omitted: true,
                bytes: counted(self.omissions.bytes, byte_len(self.lines[0].take(count as int))),
                ..self.omissions
            },
        }
    }

    pub open spec fn excess(self) -> nat {
        (text_bytes(self.lines) - MAX_RETAINED_TEXT_BYTES) as nat
    }

    pub open spec fn trim_lines(self) -> Retained {
        if self.lines.len() > MAX_RETAINED_LOGICAL_LINES {
            self.drop_lines((self.lines.len() - MAX_RETAINED_LOGICAL_LINES) as nat)
        } else {
            self
        }
    }

    /// Whole lines go first, as long as their own bytes are within the excess;
    /// what is then still too much is cut from the head of the first line.
    pub open spec fn trim_bytes(self) -> Retained
        decreases self.lines.len(),
    {
        let count = fitting_lines(self.lines, self.excess(), 0);
        if text_bytes(self.lines) <= MAX_RETAINED_TEXT_BYTES || self.lines.len() == 0 {
            self
        } else if 0 < count <= self.lines.len() {
            self.drop_lines(count).trim_bytes()
        } else {
            self.drop_chars(covering_chars(self.lines[0], self.excess(), 0))
        }
    }

    /// The text cut down to the retained bounds.
    pub open spec fn trim(self) -> Retained {
        self.trim_lines().trim_bytes()
    }

    pub open spec fn within_bounds(self) -> bool {
        &&& self.lines.len() <= MAX_RETAINED_LOGICAL_LINES
        &&& text_bytes(self.lines) <= MAX_RETAINED_TEXT_BYTES
    }

    /// The text with one more character. A line feed opens a new line.
    pub open spec fn push_char(self, c: char) -> Retained {
        Retained {
            lines: if c == '\n' {
                self.lines.push(Seq::empty())
            } else {
                self.lines.update(self.lines.len() - 1, self.lines.last().push(c))
            },
            ..self
        }
    }

    pub open spec fn push_chars(self, text: Seq<char>) -> Retained
        decreases text.len(),
    {
        if text.len() == 0 {
            self
        } else {
            self.push_chars(text.drop_last()).push_char(text.last())
        }
    }

    pub open spec fn far_over(self) -> bool {
        ||| text_bytes(self.lines) > MAX_RETAINED_TEXT_BYTES + NORMALIZATION_HEADROOM_BYTES
        ||| self.lines.len() > MAX_RETAINED_LOGICAL_LINES + NORMALIZATION_CHECK_CHARS
    }

    /// The text after the first `n` characters of `data` were normalized and
    /// appended, with a check of its size after every full batch.
    pub open spec fn push_normalized(self, data: Seq<char>, n: nat) -> Retained
        decreases n,
    {
        if n == 0 {
            Retained {
                lines: if self.lines.len() == 0 {
                    seq![Seq::empty()]
                } else {
                    self.lines
                },
                ..self
            }
        } else {
            let next = self.push_normalized(data, (n - 1) as nat).push_chars(
                displayed(data[n - 1]),
            );
            if n % (NORMALIZATION_CHECK_CHARS as nat) == 0 && next.far_over() {
                next.trim()
            } else {
                next
            }
        }
    }

    pub open spec fn push_chunk(self, chunk: TranscriptChunk) -> Retained {
        match chunk.content {
            TranscriptContent::Text { data, omitted_prefix_bytes } => {
                let counted_prefix = Retained {
                    omissions: TranscriptOmissions {
                        bytes: counted(self.omissions.bytes, omitted_prefix_bytes as nat),
                        ..self.omissions
                    },
                    ..self
                };
                if data@.len() == 0 {
                    counted_prefix
                } else {
                    counted_prefix.push_normalized(data@, data@.len())
                }
            },
            TranscriptContent::Omitted => Retained {
                omissions: TranscriptOmissions {
                    chunks: counted(self.omissions.chunks, 1),
                    ..self.omissions
                },
                ..self
            },
        }
    }

    pub open spec fn push_chunks(self, chunks: Seq<TranscriptChunk>, n: nat) -> Retained
        decreases n,
    {
        if n == 0 {
            self
        } else {
            self.push_chunks(chunks, (n - 1) as nat).push_chunk(chunks[n - 1])
        }
    }

    /// The text after the first `n` characters of `data` were normalized and appended, with
    /// nothing left out.
    pub open spec fn all_normalized(self, data: Seq<char>, n: nat) -> Retained
        decreases n,
    {
        if n == 0 {
            self.push_normalized(data, 0)
        } else {
            self.all_normalized(data, (n - 1) as nat).push_chars(displayed(data[n - 1]))
        }
    }

    /// The text after the first `n` chunks were appended, with nothing left out.
    pub open spec fn all_chunks(self, chunks: Seq<TranscriptChunk>, n: nat) -> Retained
        decreases n,
    {
        if n == 0 {
            self
        } else {
            let before = self.all_chunks(chunks, (n - 1) as nat);
            match chunks[n - 1].content {
                TranscriptContent::Text { data, .. } => if data@.len() == 0 {
                    before
                } else {
                    before.all_normalized(data@, data@.len())
                },
                TranscriptContent::Omitted => before,
            }
        }
    }

    /// This text holds all of `other`, or says that something before it was left out.
    pub open spec fn all_of(self, other: Retained) -> bool {
        self.lines == other.lines || self.omissions.prefix_omitted
    }

    /// The text after all `chunks` were appended and the result was trimmed.
    pub open spec fn append(self, chunks: Seq<TranscriptChunk>) -> Retained {
        self.push_chunks(chunks, chunks.len()).trim()
    }
}

proof fn lemma_content_split(lines: Seq<Seq<char>>, n: int)
    requires
        0 <= n <= lines.len(),
    ensures
        content_bytes(lines) == content_bytes(lines.take(n)) + content_bytes(lines.skip(n)),
    decreases lines.len(),
{
    if n == lines.len() {
        assert(lines.take(n) =~= lines);
        assert(lines.skip(n) =~= Seq::empty());
    } else {
        lemma_content_split(lines.drop_last(), n);
        assert(lines.drop_last().take(n) =~= lines.take(n));
        assert(lines.skip(n).drop_last() =~= lines.drop_last().skip(n));
        assert(lines.skip(n).last() == lines.last());
    }
}

proof fn lemma_content_take(lines: Seq<Seq<char>>, n: int)
    requires
        0 <= n < lines.len(),
    ensures
        content_bytes(lines.take(n + 1)) == content_bytes(lines.take(n)) + byte_len(lines[n]),
{
    assert(lines.take(n + 1).drop_last() =~= lines.take(n));
    assert(lines.take(n + 1).last() == lines[n]);
}

proof fn lemma_content_update(lines: Seq<Seq<char>>, i: int, line: Seq<char>)
    requires
        0 <= i < lines.len(),
    ensures
        content_bytes(lines.update(i, line)) + byte_len(lines[i]) == content_bytes(lines)
            + byte_len(line),
    decreases lines.len(),
{
    if i == lines.len() - 1 {
        assert(lines.update(i, line).drop_last() =~= lines.drop_last());
    } else {
        lemma_content_update(lines.drop_last(), i, line);
        assert(lines.update(i, line).drop_last() =~= lines.drop_last().update(i, line));
        assert(lines.update(i, line).last() == lines.last());
    }
}

proof fn lemma_text_bytes_drop(lines: Seq<Seq<char>>, n: int)
    requires
        0 <= n <= lines.len(),
        lines.len() > 0,
    ensures
        text_bytes(lines.skip(n)) + content_bytes(lines.take(n)) + (if n < lines.len() {
            n
        } else {
            n - 1
        }) == text_bytes(lines),
{
    lemma_content_split(lines, n);
    if n == lines.len() {
        assert(lines.take(n) =~= lines);
    }
}

proof fn lemma_fitting_lines(lines: Seq<Seq<char>>, limit: nat, n: nat)
    requires
        n <= lines.len(),
        content_bytes(lines.take(n as int)) <= limit,
    ensures
        n <= fitting_lines(lines, limit, n) <= lines.len(),
        content_bytes(lines.take(fitting_lines(lines, limit, n) as int)) <= limit,
        fitting_lines(lines, limit, n) < lines.len() ==> content_bytes(
            lines.take(fitting_lines(lines, limit, n) as int + 1),
        ) > limit,
    decreases lines.len() - n,
{
    if n < lines.len() && content_bytes(lines.take(n as int + 1)) <= limit {
        lemma_fitting_lines(lines, limit, n + 1);
    }
}

/// Covering characters reach the target wherever the text is long enough.
proof fn lemma_covering_chars(text: Seq<char>, target: nat, n: nat)
    requires
        n <= text.len(),
        byte_len(text) >= target,
    ensures
        n <= covering_chars(text, target, n) <= text.len(),
        byte_len(text.take(covering_chars(text, target, n) as int)) >= target,
    decreases text.len() - n,
{
    if n < text.len() && byte_len(text.take(n as int)) < target {
        lemma_covering_chars(text, target, n + 1);
    } else if n == text.len() {
        assert(text.take(n as int) =~= text);
    }
}

/// Trimming bytes never empties the text and always reaches the byte bound.
proof fn lemma_trim_bytes(st: Retained)
    requires
        st.lines.len() <= MAX_RETAINED_LOGICAL_LINES,
    ensures
        st.trim_bytes().within_bounds(),
        st.lines.len() > 0 ==> st.trim_bytes().lines.len() > 0,
    decreases st.lines.len(),
{
    let lines = st.lines;
    if text_bytes(lines) > MAX_RETAINED_TEXT_BYTES && lines.len() > 0 {
        let count = fitting_lines(lines, st.excess(), 0);
        assert(lines.take(0) =~= Seq::empty());
        lemma_fitting_lines(lines, st.excess(), 0);
        if count > 0 {
            lemma_text_bytes_drop(lines, count as int);
            if count == lines.len() {
                assert(lines.take(count as int) =~= lines);
            }
            lemma_trim_bytes(st.drop_lines(count));
        } else {
            assert(lines.take(1).drop_last() =~= Seq::empty());
            assert(content_bytes(lines.take(1)) == byte_len(lines[0]));
            let cut = covering_chars(lines[0], st.excess(), 0);
            lemma_covering_chars(lines[0], st.excess(), 0);
            let rest = lines[0].skip(cut as int);
            crate::text::lemma_byte_len_concat(lines[0].take(cut as int), rest);
            assert(lines[0].take(cut as int) + rest =~= lines[0]);
            lemma_content_update(lines, 0, rest);
        }
    }
}

/// Trimming always ends within both bounds.
pub proof fn lemma_trim(st: Retained)
    ensures
        st.trim().within_bounds(),
        st.lines.len() > 0 ==> st.trim().lines.len() > 0,
{
    lemma_trim_bytes(st.trim_lines());
}

proof fn lemma_push_char(st: Retained, c: char)
    requires
        st.lines.len() > 0,
    ensures
        st.push_char(c).lines.len() == st.lines.len() + (if c == '\n' { 1int } else { 0int }),
        text_bytes(st.push_char(c).lines) == text_bytes(st.lines) + (if c == '\n' {
            1
        } else {
            char_width(c)
        }),
{
    let lines = st.lines;
    if c == '\n' {
        crate::text::lemma_byte_len_empty();
        assert(lines.push(Seq::empty()).drop_last() =~= lines);
        assert(lines.push(Seq::<char>::empty()).last() =~= Seq::empty());
    } else {
        crate::text::lemma_byte_len_push(lines.last(), c);
        lemma_content_update(lines, lines.len() - 1, lines.last().push(c));
    }
}

proof fn lemma_push_chars(st: Retained, text: Seq<char>, wide: bool)
    requires
        st.lines.len() > 0,
        forall|i: int|
            0 <= i < text.len() ==> char_width(#[trigger] text[i]) <= (if wide { 4nat } else { 1 }),
    ensures
        st.lines.len() <= st.push_chars(text).lines.len() <= st.lines.len() + text.len(),
        (forall|i: int| 0 <= i < text.len() ==> #[trigger] text[i] != '\n') ==> st.push_chars(
            text,
        ).lines.len() == st.lines.len(),
        text_bytes(st.push_chars(text).lines) <= text_bytes(st.lines) + (if wide {
            4 * text.len()
        } else {
            text.len()
        }),
        st.push_chars(text).omissions == st.omissions,
    decreases text.len(),
{
    if text.len() > 0 {
        let head = text.drop_last();
        assert forall|i: int| 0 <= i < head.len() implies char_width(#[trigger] head[i]) <= (
        if wide { 4nat } else { 1 }) by {
            assert(head[i] == text[i]);
        }
        lemma_push_chars(st, head, wide);
        lemma_push_char(st.push_chars(head), text.last());
        if forall|i: int| 0 <= i < text.len() ==> #[trigger] text[i] != '\n' {
            assert forall|i: int| 0 <= i < head.len() implies #[trigger] head[i] != '\n' by {
                assert(head[i] == text[i]);
            }
            assert(text.last() == text[text.len() - 1]);
        }
        assert(text.last() == text[text.len() - 1]);
    }
}

/// One source character adds at most ten bytes and at most one line.
proof fn lemma_push_displayed(st: Retained, c: char)
    requires
        st.lines.len() > 0,
    ensures
        st.lines.len() <= st.push_chars(displayed(c)).lines.len() <= st.lines.len() + 1,
        text_bytes(st.push_chars(displayed(c)).lines) <= text_bytes(st.lines) + 10,
        st.push_chars(displayed(c)).omissions == st.omissions,
{
    lemma_displayed(c);
    lemma_push_chars(st, displayed(c), displayed(c).len() == 1);
}

/// A character that a display shows as it is: neither a control character nor a
/// Unicode format control.
pub open spec fn displayable(c: char) -> bool {
    !control(c) && !format_control(c)
}

pub open spec fn clean_line(line: Seq<char>) -> bool {
    forall|i: int| 0 <= i < line.len() ==> displayable(#[trigger] line[i])
}

/// No line holds a character that could steer a display.
pub open spec fn clean(lines: Seq<Seq<char>>) -> bool {
    forall|i: int| 0 <= i < lines.len() ==> clean_line(#[trigger] lines[i])
}

proof fn lemma_hex_displayable(n: nat)
    ensures
        clean_line(hex(n)),
    decreases n,
{
    if n >= 16 {
        lemma_hex_displayable(n / 16);
    }
}

/// Whatever the source character is, what is shown for it holds no control and no
/// format control, except that a line feed still ends the line.
pub proof fn shown_characters_are_displayable(c: char)
    ensures
        c != '\n' ==> clean_line(displayed(c)),
        c == '\n' ==> displayed(c) == seq!['\n'],
{
    lemma_hex_displayable(c as nat);
}

proof fn lemma_clean_push(st: Retained, c: char)
    requires
        clean(st.lines),
        st.lines.len() > 0,
        c == '\n' || displayable(c),
    ensures
        clean(st.push_char(c).lines),
        st.push_char(c).lines.len() > 0,
{
    let lines = st.push_char(c).lines;
    assert forall|i: int| 0 <= i < lines.len() implies clean_line(#[trigger] lines[i]) by {
        if i < st.lines.len() {
            assert(clean_line(st.lines[i]));
        }
    }
}

proof fn lemma_clean_push_chars(st: Retained, text: Seq<char>)
    requires
        clean(st.lines),
        st.lines.len() > 0,
        forall|i: int|
            0 <= i < text.len() ==> (#[trigger] text[i]) == '\n' || displayable(text[i]),
    ensures
        clean(st.push_chars(text).lines),
        st.push_chars(text).lines.len() > 0,
    decreases text.len(),
{
    if text.len() > 0 {
        let head = text.drop_last();
        assert forall|i: int| 0 <= i < head.len() implies (#[trigger] head[i]) == '\n'
            || displayable(head[i]) by {
            assert(head[i] == text[i]);
        }
        lemma_clean_push_chars(st, head);
        assert(text.last() == text[text.len() - 1]);
        lemma_clean_push(st.push_chars(head), text.last());
    }
}

proof fn lemma_clean_trim_bytes(st: Retained)
    requires
        clean(st.lines),
    ensures
        clean(st.trim_bytes().lines),
    decreases st.lines.len(),
{
    let lines = st.lines;
    let count = fitting_lines(lines, st.excess(), 0);
    if text_bytes(lines) <= MAX_RETAINED_TEXT_BYTES || lines.len() == 0 {
    } else if 0 < count <= lines.len() {
        let rest = st.drop_lines(count).lines;
        assert forall|i: int| 0 <= i < rest.len() implies clean_line(#[trigger] rest[i]) by {
            assert(rest[i] == lines[i + count]);
        }
        lemma_clean_trim_bytes(st.drop_lines(count));
    } else {
        let cut = covering_chars(lines[0], st.excess(), 0);
        lemma_covering_in_range(lines[0], st.excess(), 0);
        let rest = st.drop_chars(cut).lines;
        assert forall|i: int| 0 <= i < rest.len() implies clean_line(#[trigger] rest[i]) by {
            assert(clean_line(lines[i]));
            if i == 0 {
                assert forall|j: int| 0 <= j < rest[0].len() implies displayable(
                    #[trigger] rest[0][j],
                ) by {
                    assert(rest[0][j] == lines[0][j + cut]);
                }
            }
        }
    }
}

proof fn lemma_covering_in_range(text: Seq<char>, target: nat, n: nat)
    requires
        n <= text.len(),
    ensures
        n <= covering_chars(text, target, n) <= text.len(),
    decreases text.len() - n,
{
    if n < text.len() && byte_len(text.take(n as int)) < target {
        lemma_covering_in_range(text, target, n + 1);
    }
}

proof fn lemma_clean_trim(st: Retained)
    requires
        clean(st.lines),
    ensures
        clean(st.trim().lines),
{
    let rest = st.trim_lines().lines;
    assert forall|i: int| 0 <= i < rest.len() implies clean_line(#[trigger] rest[i]) by {
        if st.lines.len() > MAX_RETAINED_LOGICAL_LINES {
            assert(rest[i] == st.lines[i + (st.lines.len() - MAX_RETAINED_LOGICAL_LINES)]);
        }
    }
    lemma_clean_trim_bytes(st.trim_lines());
}

proof fn lemma_clean_normalized(st: Retained, data: Seq<char>, n: nat)
    requires
        clean(st.lines),
        n <= data.len(),
    ensures
        clean(st.push_normalized(data, n).lines),
        st.push_normalized(data, n).lines.len() > 0,
    decreases n,
{
    if n > 0 {
        lemma_clean_normalized(st, data, (n - 1) as nat);
        let c = data[n - 1];
        shown_characters_are_displayable(c);
        let before = st.push_normalized(data, (n - 1) as nat);
        lemma_clean_push_chars(before, displayed(c));
        lemma_trim(before.push_chars(displayed(c)));
        lemma_clean_trim(before.push_chars(displayed(c)));
    }
}

proof fn lemma_clean_chunks(st: Retained, chunks: Seq<TranscriptChunk>, n: nat)
    requires
        clean(st.lines),
        n <= chunks.len(),
    ensures
        clean(st.push_chunks(chunks, n).lines),
    decreases n,
{
    if n > 0 {
        lemma_clean_chunks(st, chunks, (n - 1) as nat);
        let before = st.push_chunks(chunks, (n - 1) as nat);
        match chunks[n - 1].content {
            TranscriptContent::Text { data, omitted_prefix_bytes } => {
                let counted_prefix = Retained {
                    omissions: TranscriptOmissions {
                        bytes: counted(before.omissions.bytes, omitted_prefix_bytes as nat),
                        ..before.omissions
                    },
                    ..before
                };
                lemma_clean_normalized(counted_prefix, data@, data@.len());
            },
            TranscriptContent::Omitted => {},
        }
    }
}

/// No text that a provider sends puts a control or format character on a retained
/// line: appending any chunks to lines without one gives lines without one.
pub proof fn appended_text_is_displayable(st: Retained, chunks: Seq<TranscriptChunk>)
    requires
        clean(st.lines),
    ensures
        clean(st.append(chunks).lines),
{
    lemma_clean_chunks(st, chunks, chunks.len());
    lemma_clean_trim(st.push_chunks(chunks, chunks.len()));
}

/// `tail` is what is left of `lines` when some lines, and then some characters of
/// the first line left, are taken from the front.
pub open spec fn tail_of(tail: Seq<Seq<char>>, lines: Seq<Seq<char>>) -> bool {
    &&& tail.len() <= lines.len()
    &&& forall|i: int|
        1 <= i < tail.len() ==> #[trigger] tail[i] == lines[lines.len() - tail.len() + i]
    &&& tail.len() > 0 ==> tail[0].is_suffix_of(lines[lines.len() - tail.len()])
}

proof fn lemma_tail_trans(a: Seq<Seq<char>>, b: Seq<Seq<char>>, c: Seq<Seq<char>>)
    requires
        tail_of(a, b),
        tail_of(b, c),
    ensures
        tail_of(a, c),
{
    assert forall|i: int| 1 <= i < a.len() implies #[trigger] a[i] == c[c.len() - a.len() + i] by {
        assert(a[i] == b[b.len() - a.len() + i]);
    }
    if a.len() > 0 {
        let k = b.len() - a.len();
        if k > 0 {
            assert(b[k] == c[c.len() - b.len() + k]);
        }
        let x = a[0];
        let y = b[k];
        let z = c[c.len() - a.len()];
        assert(y.is_suffix_of(z)) by {
            if k > 0 {
                assert(y == z);
                assert(z.subrange(z.len() - y.len(), z.len() as int) =~= y);
            }
        }
        assert(z.subrange(z.len() - x.len(), z.len() as int) =~= y.subrange(
            y.len() - x.len(),
            y.len() as int,
        )) by {
            assert(z.subrange(z.len() - y.len(), z.len() as int) =~= y);
        }
        assert(x.is_suffix_of(z));
    }
}

proof fn lemma_tail_drop(st: Retained, count: nat)
    requires
        count <= st.lines.len(),
    ensures
        tail_of(st.drop_lines(count).lines, st.lines),
{
    let rest = st.drop_lines(count).lines;
    if rest.len() > 0 {
        let first = st.lines[count as int];
        assert(rest[0] == first);
        assert(first.subrange(0, first.len() as int) =~= first);
    }
}

proof fn lemma_trim_bytes_tail(st: Retained)
    ensures
        tail_of(st.trim_bytes().lines, st.lines),
        st.trim_bytes().lines == st.lines || st.trim_bytes().omissions.prefix_omitted,
    decreases st.lines.len(),
{
    let lines = st.lines;
    let count = fitting_lines(lines, st.excess(), 0);
    if text_bytes(lines) <= MAX_RETAINED_TEXT_BYTES || lines.len() == 0 {
        lemma_tail_drop(st, 0);
        assert(lines.skip(0) =~= lines);
    } else if 0 < count <= lines.len() {
        lemma_tail_drop(st, count);
        lemma_trim_bytes_tail(st.drop_lines(count));
        lemma_trim_bytes_marks(st.drop_lines(count));
        lemma_tail_trans(st.trim_bytes().lines, st.drop_lines(count).lines, lines);
    } else {
        let cut = covering_chars(lines[0], st.excess(), 0);
        lemma_covering_in_range(lines[0], st.excess(), 0);
        let first = lines[0];
        let rest = first.skip(cut as int);
        assert(first.subrange(first.len() - rest.len(), first.len() as int) =~= rest);
    }
}

/// Trimming keeps the end of the text, and where it leaves anything out it says so.
pub proof fn trimming_keeps_the_tail(st: Retained)
    ensures
        tail_of(st.trim().lines, st.lines),
        st.trim().lines == st.lines || st.trim().omissions.prefix_omitted,
        st.trim().within_bounds(),
{
    lemma_trim(st);
    let mid = st.trim_lines();
    if st.lines.len() > MAX_RETAINED_LOGICAL_LINES {
        lemma_tail_drop(st, (st.lines.len() - MAX_RETAINED_LOGICAL_LINES) as nat);
    } else {
        lemma_tail_drop(st, 0);
        assert(st.lines.skip(0) =~= st.lines);
    }
    lemma_trim_bytes_tail(mid);
    lemma_trim_bytes_marks(mid);
    lemma_tail_trans(st.trim().lines, mid.lines, st.lines);
}

proof fn lemma_trim_bytes_marks(st: Retained)
    ensures
        st.omissions.prefix_omitted ==> st.trim_bytes().omissions.prefix_omitted,
    decreases st.lines.len(),
{
    let count = fitting_lines(st.lines, st.excess(), 0);
    if text_bytes(st.lines) <= MAX_RETAINED_TEXT_BYTES || st.lines.len() == 0 {
    } else if 0 < count <= st.lines.len() {
        lemma_trim_bytes_marks(st.drop_lines(count));
    }
}

proof fn lemma_chars_of_lines(a: Retained, b: Retained, text: Seq<char>)
    requires
        a.all_of(b),
    ensures
        a.push_chars(text).all_of(b.push_chars(text)),
        a.push_chars(text).omissions == a.omissions,
    decreases text.len(),
{
    if text.len() > 0 {
        lemma_chars_of_lines(a, b, text.drop_last());
    }
}

proof fn lemma_trim_all(a: Retained, b: Retained)
    requires
        a.all_of(b),
    ensures
        a.trim().all_of(b),
        a.omissions.prefix_omitted ==> a.trim().omissions.prefix_omitted,
{
    trimming_keeps_the_tail(a);
    lemma_trim_bytes_marks(a.trim_lines());
}

proof fn lemma_normalized_all(a: Retained, b: Retained, data: Seq<char>, n: nat)
    requires
        a.all_of(b),
    ensures
        a.push_normalized(data, n).all_of(b.all_normalized(data, n)),
    decreases n,
{
    if n > 0 {
        let before = a.push_normalized(data, (n - 1) as nat);
        lemma_normalized_all(a, b, data, (n - 1) as nat);
        let text = displayed(data[n - 1]);
        lemma_chars_of_lines(before, b.all_normalized(data, (n - 1) as nat), text);
        lemma_trim_all(before.push_chars(text), b.all_normalized(data, n));
    }
}

proof fn lemma_chunks_all(st: Retained, chunks: Seq<TranscriptChunk>, n: nat)
    requires
        n <= chunks.len(),
    ensures
        st.push_chunks(chunks, n).all_of(st.all_chunks(chunks, n)),
    decreases n,
{
    if n > 0 {
        let before = st.push_chunks(chunks, (n - 1) as nat);
        let all = st.all_chunks(chunks, (n - 1) as nat);
        lemma_chunks_all(st, chunks, (n - 1) as nat);
        match chunks[n - 1].content {
            TranscriptContent::Text { data, omitted_prefix_bytes } => {
                let counted_prefix = Retained {
                    omissions: TranscriptOmissions {
                        bytes: counted(before.omissions.bytes, omitted_prefix_bytes as nat),
                        ..before.omissions
                    },
                    ..before
                };
                assert(counted_prefix.all_of(all));
                if data@.len() > 0 {
                    lemma_normalized_all(counted_prefix, all, data@, data@.len());
                }
            },
            TranscriptContent::Omitted => {},
        }
    }
}

/// Appending keeps the whole text, or it says that the beginning was left out.
pub proof fn eviction_is_never_silent(st: Retained, chunks: Seq<TranscriptChunk>)
    ensures
        st.append(chunks).all_of(st.all_chunks(chunks, chunks.len())),
{
    lemma_chunks_all(st, chunks, chunks.len());
    lemma_trim_all(st.push_chunks(chunks, chunks.len()), st.all_chunks(chunks, chunks.len()));
}

/// One retained line of normalized text.
#[derive(Clone, Debug, PartialEq, Eq)]
pub struct TranscriptLine(String);

impl View for TranscriptLine {
    type V = Seq<char>;

    closed spec fn view(&self) -> Seq<char> {
        self.0@
    }
}

impl TranscriptLine {
    pub fn as_str(&self) -> (r: &str)
        ensures
            r@ == self@,
    {
        self.0.as_str()
    }
}

pub open spec fn line_texts(lines: Seq<TranscriptLine>) -> Seq<Seq<char>> {
    Seq::new(lines.len(), |i: int| lines[i]@)
}

/// A server-owned bounded transcript. The binding is retained in full, so that
/// the runtime generation and all execution identity fields stay with the owner:
/// a remote response never gets to select either one.
#[derive(Clone, Debug, PartialEq, Eq)]
pub struct TranscriptProjection {
    binding: ManagedBinding,
    source: Option<SourceIdentity>,
    cursor: Option<SourceCursor>,
    lines: Vec<TranscriptLine>,
    retained_text_bytes: usize,
    omissions: TranscriptOmissions,
    source_dropped_output_bytes: Option<u64>,
    content_revision: u64,
}

impl TranscriptProjection {
    pub closed spec fn bound(self) -> ManagedBinding {
        self.binding
    }

    pub closed spec fn anchor(self) -> Option<SourceIdentity> {
        self.source
    }

    pub closed spec fn position(self) -> Option<SourceCursor> {
        self.cursor
    }

    pub closed spec fn retained(self) -> Retained {
        Retained { lines: line_texts(self.lines@), omissions: self.omissions }
    }

    pub closed spec fn dropped(self) -> Option<u64> {
        self.source_dropped_output_bytes
    }

    pub closed spec fn revision(self) -> u64 {
        self.content_revision
    }

    /// The stored byte count is that of the stored lines.
    spec fn counted_exactly(self) -> bool {
        self.retained_text_bytes == text_bytes(self.retained().lines)
    }

    /// What every projection keeps: the byte count is that of the lines, both
    /// bounds hold, no retained line holds a character that could steer a display,
    /// revisions are even, and a position belongs to a known ledger.
    pub closed spec fn wf(self) -> bool {
        &&& self.counted_exactly()
        &&& self.retained().within_bounds()
        &&& self.content_revision % 2 == 0
        &&& clean(self.retained().lines)
        &&& self.cursor is Some ==> self.source is Some
        &&& self.binding.pinned_source is Some ==> self.source is Some
    }

    fn append_display_character(&mut self, c: char)
        requires
            old(self).counted_exactly(),
            old(self).lines@.len() > 0,
            old(self).retained_text_bytes + 4 <= usize::MAX,
        ensures
            final(self).counted_exactly(),
            final(self).retained() == old(self).retained().push_char(c),
            *final(self) == (TranscriptProjection {
                lines: final(self).lines,
                retained_text_bytes: final(self).retained_text_bytes,
                ..*old(self)
            }),
    {
        proof {
            lemma_push_char(self.retained(), c);
            crate::text::lemma_char_width(c);
        }
        if c == '\n' {
            self.lines.push(TranscriptLine(String::new()));
            self.retained_text_bytes = self.retained_text_bytes.saturating_add(1);
        } else {
            let last: usize = self.lines.len() - 1;
            self.lines[last].0.push(c);
            self.retained_text_bytes = self.retained_text_bytes.saturating_add(c.len_utf8());
        }
        assert(self.retained() =~= old(self).retained().push_char(c)) by {
            assert(line_texts(self.lines@) =~= old(self).retained().push_char(c).lines);
        }
    }

    fn drop_oldest_lines(&mut self, count: usize)
        requires
            old(self).counted_exactly(),
            0 < count <= old(self).lines@.len(),
        ensures
            final(self).counted_exactly(),
            final(self).retained() == old(self).retained().drop_lines(count as nat),
            *final(self) == (TranscriptProjection {
                lines: final(self).lines,
                retained_text_bytes: final(self).retained_text_bytes,
                omissions: final(self).omissions,
                ..*old(self)
            }),
    {
        let ghost lines = self.retained().lines;
        let mut dropped_bytes: usize = 0;
        let mut i: usize = 0;
        proof {
            lemma_text_bytes_drop(lines, count as int);
            assert(lines.take(0) =~= Seq::empty());
        }
        while i < count
            invariant
                i <= count <= self.lines@.len(),
                lines == self.retained().lines,
                dropped_bytes == content_bytes(lines.take(i as int)),
                content_bytes(lines.take(count as int)) <= usize::MAX,
            decreases count - i,
        {
            proof {
                lemma_content_take(lines, i as int);
                lemma_content_split(lines.take(count as int), i as int + 1);
                assert(lines.take(count as int).take(i as int + 1) =~= lines.take(i as int + 1));
            }
            dropped_bytes = dropped_bytes + self.lines[i].0.as_str().len();
            i = i + 1;
        }
        let separator_bytes: usize = if count < self.lines.len() {
            count
        } else {
            count - 1
        };
        let rest = self.lines.split_off(count);
        self.lines = rest;
        self.retained_text_bytes = self.retained_text_bytes.saturating_sub(
            dropped_bytes.saturating_add(separator_bytes),
        );
        self.omissions.lines = self.omissions.lines.saturating_add(count as u64);
        self.omissions.prefix_omitted = true;
        assert(self.retained().lines =~= lines.skip(count as int));
        assert(self.retained() =~= old(self).retained().drop_lines(count as nat));
    }

    fn trim_to_bounds(&mut self)
        requires
            old(self).counted_exactly(),
        ensures
            final(self).counted_exactly(),
            final(self).retained() == old(self).retained().trim(),
            *final(self) == (TranscriptProjection {
                lines: final(self).lines,
                retained_text_bytes: final(self).retained_text_bytes,
                omissions: final(self).omissions,
                ..*old(self)
            }),
    {
        if self.lines.len() > MAX_RETAINED_LOGICAL_LINES {
            let remove_count: usize = self.lines.len() - MAX_RETAINED_LOGICAL_LINES;
            self.drop_oldest_lines(remove_count);
        }
        assert(self.retained() == old(self).retained().trim_lines());
        while self.retained_text_bytes > MAX_RETAINED_TEXT_BYTES
            invariant
                self.counted_exactly(),
                self.retained().lines.len() <= MAX_RETAINED_LOGICAL_LINES,
                self.retained().trim_bytes() == old(self).retained().trim(),
                *self == (TranscriptProjection {
                    lines: self.lines,
                    retained_text_bytes: self.retained_text_bytes,
                    omissions: self.omissions,
                    ..*old(self)
                }),
            ensures
                self.counted_exactly(),
                self.retained() == old(self).retained().trim(),
                *self == (TranscriptProjection {
                    lines: self.lines,
                    retained_text_bytes: self.retained_text_bytes,
                    omissions: self.omissions,
                    ..*old(self)
                }),
            decreases self.lines@.len(),
        {
            let ghost before = self.retained();
            let ghost lines = before.lines;
            let excess: usize = self.retained_text_bytes - MAX_RETAINED_TEXT_BYTES;
            let mut remove_count: usize = 0;
            let mut remove_bytes: usize = 0;
            let mut scanning: bool = true;
            proof {
                assert(lines.take(0) =~= Seq::empty());
                lemma_fitting_lines(lines, excess as nat, 0);
                assert(excess == before.excess());
            }
            while scanning && remove_count < self.lines.len()
                invariant
                    lines == self.retained().lines,
                    remove_count <= self.lines@.len(),
                    remove_bytes == content_bytes(lines.take(remove_count as int)),
                    remove_bytes <= excess,
                    content_bytes(lines) <= usize::MAX,
                    fitting_lines(lines, excess as nat, 0) == fitting_lines(
                        lines,
                        excess as nat,
                        remove_count as nat,
                    ),
                    !scanning ==> fitting_lines(lines, excess as nat, 0) == remove_count,
                decreases self.lines@.len() - remove_count, (if scanning { 1int } else { 0int }),
            {
                proof {
                    lemma_content_take(lines, remove_count as int);
                    lemma_content_split(lines, remove_count as int + 1);
                }
                let next_bytes: usize = remove_bytes.saturating_add(
                    self.lines[remove_count].0.as_str().len(),
                );
                if next_bytes > excess {
                    scanning = false;
                } else {
                    remove_count = remove_count + 1;
                    remove_bytes = next_bytes;
                }
            }
            if remove_count != 0 {
                self.drop_oldest_lines(remove_count);
            } else {
                proof {
                    lemma_content_take(lines, 0);
                    lemma_content_split(lines, 1);
                }
                let (cut, dropped) = covering_prefix(self.lines[0].0.as_str(), excess);
                let suffix = {
                    let first = self.lines[0].0.as_str();
                    first.substring_char(cut, first.unicode_len()).to_owned()
                };
                proof {
                    lemma_covering_chars(lines[0], excess as nat, 0);
                    let rest = lines[0].skip(cut as int);
                    crate::text::lemma_byte_len_concat(lines[0].take(cut as int), rest);
                    assert(lines[0].take(cut as int) + rest =~= lines[0]);
                    lemma_content_update(lines, 0, rest);
                    assert(suffix@ =~= rest);
                }
                self.lines[0] = TranscriptLine(suffix);
                self.retained_text_bytes = self.retained_text_bytes.saturating_sub(dropped);
                self.omissions.bytes = self.omissions.bytes.saturating_add(dropped as u64);
                self.omissions.prefix_omitted = true;
                assert(self.retained().lines =~= lines.update(0, lines[0].skip(cut as int)));
                assert(self.retained() =~= before.drop_chars(cut as nat));
                proof {
                    assert(before.trim_bytes() == before.drop_chars(cut as nat));
                    lemma_trim_bytes(before);
                }
                break;
            }
        }
    }

    /// How large the text can be after `chunks` chunks were appended since it was
    /// last trimmed.
    spec fn has_room_after(self, chunks: nat) -> bool {
        &&& text_bytes(self.retained().lines) <= 278_528 + 10_240 * chunks
        &&& self.retained().lines.len() <= 5_120 + 1_024 * chunks
    }

    fn append_displayed(&mut self, c: char)
        requires
            old(self).counted_exactly(),
            old(self).lines@.len() > 0,
            old(self).retained_text_bytes + 64 <= usize::MAX,
        ensures
            final(self).counted_exactly(),
            final(self).retained() == old(self).retained().push_chars(displayed(c)),
            *final(self) == (TranscriptProjection {
                lines: final(self).lines,
                retained_text_bytes: final(self).retained_text_bytes,
                ..*old(self)
            }),
    {
        let shown = display_characters(c);
        let mut i: usize = 0;
        proof {
            lemma_displayed(c);
            assert(shown@.take(0) =~= Seq::empty());
        }
        while i < shown.len()
            invariant
                i <= shown@.len() <= 10,
                shown@ == displayed(c),
                forall|j: int|
                    0 <= j < shown@.len() ==> char_width(#[trigger] shown@[j]) <= 4,
                self.counted_exactly(),
                old(self).counted_exactly(),
                old(self).lines@.len() > 0,
                self.lines@.len() > 0,
                old(self).retained_text_bytes + 64 <= usize::MAX,
                self.retained_text_bytes <= old(self).retained_text_bytes + 4 * i,
                self.retained() == old(self).retained().push_chars(shown@.take(i as int)),
                *self == (TranscriptProjection {
                    lines: self.lines,
                    retained_text_bytes: self.retained_text_bytes,
                    ..*old(self)
                }),
            decreases shown@.len() - i,
        {
            proof {
                lemma_push_char(self.retained(), shown@[i as int]);
                assert(shown@.take(i as int + 1).drop_last() =~= shown@.take(i as int));
                assert(shown@.take(i as int + 1).last() == shown@[i as int]);
            }
            self.append_display_character(shown[i]);
            i = i + 1;
        }
        assert(shown@.take(shown@.len() as int) =~= shown@);
    }

    fn append_normalized(&mut self, data: &str, Ghost(chunks): Ghost<nat>)
        requires
            old(self).counted_exactly(),
            data@.len() > 0,
            chunks < 65_536,
            old(self).has_room_after(chunks),
        ensures
            final(self).counted_exactly(),
            final(self).has_room_after(chunks + 1),
            final(self).retained() == old(self).retained().push_normalized(data@, data@.len()),
            *final(self) == (TranscriptProjection {
                lines: final(self).lines,
                retained_text_bytes: final(self).retained_text_bytes,
                omissions: final(self).omissions,
                ..*old(self)
            }),
    {
        let ghost before = self.retained();
        if self.lines.len() == 0 {
            self.lines.push(TranscriptLine(String::new()));
            proof {
                crate::text::lemma_byte_len_empty();
                assert(self.retained().lines =~= seq![Seq::<char>::empty()]);
                assert(self.retained().lines.drop_last() =~= Seq::empty());
                assert(self.retained().lines.last() =~= Seq::<char>::empty());
                assert(content_bytes(Seq::<Seq<char>>::empty()) == 0);
            }
        }
        assert(self.retained() =~= before.push_normalized(data@, 0));
        let mut since_check: usize = 0;
        for c in it: data.chars()
            invariant
                it.seq() == data@,
                chunks < 65_536,
                self.counted_exactly(),
                self.lines@.len() > 0,
                self.retained() == before.push_normalized(data@, it.index() as nat),
                since_check == it.index() % 1024,
                self.retained_text_bytes <= 278_528 + 10_240 * chunks + 10 * since_check,
                self.lines@.len() <= 5_121 + 1_024 * chunks + since_check,
                *self == (TranscriptProjection {
                    lines: self.lines,
                    retained_text_bytes: self.retained_text_bytes,
                    omissions: self.omissions,
                    ..*old(self)
                }),
        {
            let ghost at = it.index();
            proof {
                lemma_push_displayed(self.retained(), c);
            }
            self.append_displayed(c);
            since_check = since_check + 1;
            let ghost next = self.retained();
            if since_check >= NORMALIZATION_CHECK_CHARS {
                if self.retained_text_bytes > MAX_RETAINED_TEXT_BYTES
                    + NORMALIZATION_HEADROOM_BYTES || self.lines.len() > MAX_RETAINED_LOGICAL_LINES
                    + NORMALIZATION_CHECK_CHARS {
                    proof {
                        lemma_trim(next);
                    }
                    self.trim_to_bounds();
                }
                since_check = 0;
            }
            assert(self.retained() == before.push_normalized(data@, (at + 1) as nat));
        }
    }

    fn append_chunks(&mut self, chunks: &Vec<TranscriptChunk>)
        requires
            old(self).counted_exactly(),
            old(self).retained().within_bounds(),
            chunks@.len() <= u16::MAX,
        ensures
            final(self).counted_exactly(),
            final(self).retained() == old(self).retained().append(chunks@),
            final(self).retained().within_bounds(),
            clean(old(self).retained().lines) ==> clean(final(self).retained().lines),
            *final(self) == (TranscriptProjection {
                lines: final(self).lines,
                retained_text_bytes: final(self).retained_text_bytes,
                omissions: final(self).omissions,
                ..*old(self)
            }),
    {
        let ghost before = self.retained();
        let mut i: usize = 0;
        while i < chunks.len()
            invariant
                i <= chunks@.len() <= u16::MAX,
                self.counted_exactly(),
                self.has_room_after(i as nat),
                self.retained() == before.push_chunks(chunks@, i as nat),
                *self == (TranscriptProjection {
                    lines: self.lines,
                    retained_text_bytes: self.retained_text_bytes,
                    omissions: self.omissions,
                    ..*old(self)
                }),
            decreases chunks@.len() - i,
        {
            match &chunks[i].content {
                TranscriptContent::Text { data, omitted_prefix_bytes } => {
                    let ghost at = self.retained();
                    self.omissions.bytes = self.omissions.bytes.saturating_add(
                        *omitted_prefix_bytes,
                    );
                    if !data.as_str().is_empty() {
                        self.append_normalized(data.as_str(), Ghost(i as nat));
                    }
                },
                TranscriptContent::Omitted => {
                    self.omissions.chunks = self.omissions.chunks.saturating_add(1);
                },
            }
            i = i + 1;
        }
        proof {
            lemma_trim(self.retained());
            if clean(before.lines) {
                appended_text_is_displayable(before, chunks@);
            }
        }
        self.trim_to_bounds();
    }
}

/// The least number of leading characters that take `target` bytes, and the
/// number of bytes that they take.
fn covering_prefix(text: &str, target: usize) -> (r: (usize, usize))
    requires
        byte_len(text@) <= usize::MAX,
        target <= byte_len(text@),
    ensures
        r.0 == covering_chars(text@, target as nat, 0),
        r.0 <= text@.len(),
        r.1 == byte_len(text@.take(r.0 as int)),
{
    let mut count: usize = 0;
    let mut bytes: usize = 0;
    assert(text@.take(0) =~= Seq::empty());
    for c in it: text.chars()
        invariant
            it.seq() == text@,
            target <= byte_len(text@) <= usize::MAX,
            count <= it.index() <= text@.len(),
            count <= bytes,
            bytes == byte_len(text@.take(count as int)),
            covering_chars(text@, target as nat, 0) == covering_chars(
                text@,
                target as nat,
                count as nat,
            ),
            bytes < target ==> count == it.index(),
    {
        if bytes < target {
            proof {
                crate::text::lemma_byte_len_take(text@, count as int);
                crate::text::lemma_byte_len_prefix(text@, count as int + 1, text@.len() as int);
                assert(text@.take(text@.len() as int) =~= text@);
                crate::text::lemma_char_width(c);
            }
            bytes = bytes + c.len_utf8();
            count = count + 1;
        }
    }
    proof {
        assert(text@.take(text@.len() as int) =~= text@);
    }
    (count, bytes)
}

/// The reason an incoming response could not be applied. Responses are rejected
/// before changing the projection, so that a caller can leave the last known
/// display in place and retry with a fresh snapshot when appropriate.
#[derive(Clone, Copy, Debug, PartialEq, Eq, Structural)]
pub enum TranscriptApplyError {
    RuntimeGenerationMismatch,
    InvalidReply(ContractError),
    SourceIdentityMismatch,
    CursorMismatch,
    MissingCursor,
    RevisionWentBackwards,
    Duplicate,
    SequenceBackwards { expected: i64, actual: i64 },
    RevisionExhausted,
}

/// Facts about a successfully applied response. Omission counters are cumulative
/// for the current source anchor.
#[derive(Clone, Copy, Debug, PartialEq, Eq, Structural)]
pub struct TranscriptApply {
    pub content_revision: u64,
    pub replaced: bool,
    pub appended: bool,
    pub omitted_chunks: u64,
    pub omitted_bytes: u64,
    pub dropped_lines: u64,
}

/// The sequence number after `seq`; the last one has no successor but itself.
pub open spec fn next_seq(seq: i64) -> i64 {
    if seq == i64::MAX {
        seq
    } else {
        (seq + 1) as i64
    }
}

fn following_seq(seq: i64) -> (r: i64)
    ensures
        r == next_seq(seq),
{
    if seq == i64::MAX {
        seq
    } else {
        seq + 1
    }
}

/// The first chunk, from `i` on, that does not come after the chunk before it.
pub open spec fn sequence_error(chunks: Seq<TranscriptChunk>, i: nat) -> Option<
    TranscriptApplyError,
>
    decreases chunks.len() - i,
{
    if i >= chunks.len() {
        None
    } else if i > 0 && chunks[i as int].seq < next_seq(chunks[i - 1].seq) {
        Some(
            TranscriptApplyError::SequenceBackwards {
                expected: next_seq(chunks[i - 1].seq),
                actual: chunks[i as int].seq,
            },
        )
    } else {
        sequence_error(chunks, i + 1)
    }
}

/// What is wrong with the chunks of a page that continues after `after_seq`.
pub open spec fn page_sequence_error(after_seq: i64, chunks: Seq<TranscriptChunk>) -> Option<
    TranscriptApplyError,
> {
    if after_seq == i64::MAX {
        Some(TranscriptApplyError::SequenceBackwards { expected: after_seq, actual: after_seq })
    } else if chunks.len() > 0 && chunks[0].seq < after_seq + 1 {
        Some(
            TranscriptApplyError::SequenceBackwards {
                expected: (after_seq + 1) as i64,
                actual: chunks[0].seq,
            },
        )
    } else {
        sequence_error(chunks, 0)
    }
}

/// A snapshot filters out events without output, so gaps between chunks carry no
/// loss meaning; only their order is checked.
fn validate_snapshot_sequences(chunks: &Vec<TranscriptChunk>) -> (r: Result<
    (),
    TranscriptApplyError,
>)
    ensures
        r is Ok <==> sequence_error(chunks@, 0) is None,
        r matches Err(error) ==> sequence_error(chunks@, 0) == Some(error),
{
    let mut i: usize = 0;
    while i < chunks.len()
        invariant
            i <= chunks@.len(),
            sequence_error(chunks@, 0) == sequence_error(chunks@, i as nat),
        decreases chunks@.len() - i,
    {
        if i > 0 {
            let expected: i64 = following_seq(chunks[i - 1].seq);
            let actual: i64 = chunks[i].seq;
            if actual < expected {
                return Err(TranscriptApplyError::SequenceBackwards { expected, actual });
            }
        }
        i = i + 1;
    }
    Ok(())
}

/// A page may advance over events without output and then holds no chunk at all.
fn validate_page_sequences(after_seq: i64, chunks: &Vec<TranscriptChunk>) -> (r: Result<
    (),
    TranscriptApplyError,
>)
    ensures
        r is Ok <==> page_sequence_error(after_seq, chunks@) is None,
        r matches Err(error) ==> page_sequence_error(after_seq, chunks@) == Some(error),
{
    if after_seq == i64::MAX {
        return Err(
            TranscriptApplyError::SequenceBackwards { expected: after_seq, actual: after_seq },
        );
    }
    if chunks.len() > 0 && chunks[0].seq < after_seq + 1 {
        return Err(
            TranscriptApplyError::SequenceBackwards {
                expected: after_seq + 1,
                actual: chunks[0].seq,
            },
        );
    }
    validate_snapshot_sequences(chunks)
}

/// The larger of what was known of dropped output and what a reply says of it.
pub open spec fn observed_drop(known: Option<u64>, reported: Option<u64>) -> Option<u64> {
    match (known, reported) {
        (_, None) => known,
        (None, Some(new)) => Some(new),
        (Some(old), Some(new)) => Some(if old > new { old } else { new }),
    }
}

/// The text of a fresh anchor, before any chunk.
pub open spec fn fresh(prefix_omitted: bool) -> Retained {
    Retained {
        lines: Seq::empty(),
        omissions: TranscriptOmissions { prefix_omitted, ..TranscriptOmissions::nothing() },
    }
}

impl TranscriptProjection {
    /// Whether a reply from `source` is from another ledger than the known one.
    pub open spec fn foreign(self, source: SourceIdentity) -> bool {
        self.anchor() matches Some(known) && !known.same_as(source)
    }

    pub open spec fn exhausted(self) -> bool {
        self.revision() + 2 > u64::MAX
    }

    pub open spec fn reset_error(
        self,
        reply: TranscriptReply,
        verdict: Result<(), ContractError>,
    ) -> Option<TranscriptApplyError> {
        if self.position() is None {
            Some(TranscriptApplyError::MissingCursor)
        } else if self.exhausted() {
            Some(TranscriptApplyError::RevisionExhausted)
        } else if self.foreign(reply.source) {
            Some(TranscriptApplyError::SourceIdentityMismatch)
        } else if verdict is Err {
            Some(TranscriptApplyError::InvalidReply(verdict->Err_0))
        } else {
            None
        }
    }

    pub open spec fn snapshot_error(
        self,
        reply: TranscriptReply,
        cursor: SourceCursor,
        verdict: Result<(), ContractError>,
    ) -> Option<TranscriptApplyError> {
        if self.exhausted() {
            Some(TranscriptApplyError::RevisionExhausted)
        } else if verdict is Err {
            Some(TranscriptApplyError::InvalidReply(verdict->Err_0))
        } else if self.foreign(reply.source) {
            Some(TranscriptApplyError::SourceIdentityMismatch)
        } else if sequence_error(reply.chunks(), 0) is Some {
            sequence_error(reply.chunks(), 0)
        } else if self.position() is None {
            None
        } else if cursor.revision < self.position()->0.revision {
            Some(TranscriptApplyError::RevisionWentBackwards)
        } else if cursor.revision > self.position()->0.revision {
            None
        } else if cursor.after_seq < self.position()->0.after_seq {
            Some(
                TranscriptApplyError::SequenceBackwards {
                    expected: self.position()->0.after_seq,
                    actual: cursor.after_seq,
                },
            )
        } else if cursor.after_seq == self.position()->0.after_seq {
            Some(TranscriptApplyError::Duplicate)
        } else {
            None
        }
    }

    pub open spec fn page_error(
        self,
        reply: TranscriptReply,
        after: SourceCursor,
        cursor: SourceCursor,
        verdict: Result<(), ContractError>,
    ) -> Option<TranscriptApplyError> {
        if self.position() is None {
            Some(TranscriptApplyError::MissingCursor)
        } else if self.foreign(reply.source) {
            Some(TranscriptApplyError::SourceIdentityMismatch)
        } else if !after.same_as(self.position()->0) {
            Some(TranscriptApplyError::CursorMismatch)
        } else if self.exhausted() {
            Some(TranscriptApplyError::RevisionExhausted)
        } else if verdict is Err {
            Some(TranscriptApplyError::InvalidReply(verdict->Err_0))
        } else if cursor.revision != self.position()->0.revision {
            Some(TranscriptApplyError::RevisionWentBackwards)
        } else if cursor.after_seq < self.position()->0.after_seq {
            Some(
                TranscriptApplyError::SequenceBackwards {
                    expected: self.position()->0.after_seq,
                    actual: cursor.after_seq,
                },
            )
        } else if cursor.after_seq == self.position()->0.after_seq {
            None
        } else {
            page_sequence_error(self.position()->0.after_seq, reply.chunks())
        }
    }

    /// Why a reply is refused, if it is.
    pub open spec fn apply_error(
        self,
        reply: TranscriptReply,
        runtime_generation: u64,
        verdict: Result<(), ContractError>,
    ) -> Option<TranscriptApplyError> {
        if runtime_generation != self.bound().runtime_generation {
            Some(TranscriptApplyError::RuntimeGenerationMismatch)
        } else {
            match reply.result {
                TranscriptResult::Reset => self.reset_error(reply, verdict),
                TranscriptResult::Snapshot { cursor, .. } => self.snapshot_error(
                    reply,
                    cursor,
                    verdict,
                ),
                TranscriptResult::Page { after, cursor, .. } => self.page_error(
                    reply,
                    after,
                    cursor,
                    verdict,
                ),
            }
        }
    }

    /// Whether an accepted page leaves the position where it is.
    pub open spec fn unchanged_page(self, reply: TranscriptReply) -> bool {
        &&& reply.result matches TranscriptResult::Page { cursor, .. }
        &&& self.position() matches Some(current)
        &&& cursor.after_seq == current.after_seq
    }

    /// The text after an accepted reply.
    pub open spec fn applied_text(self, reply: TranscriptReply) -> Retained {
        match reply.result {
            TranscriptResult::Reset => fresh(false),
            TranscriptResult::Snapshot { chunks, prefix_omitted, .. } => fresh(
                prefix_omitted,
            ).append(chunks@),
            TranscriptResult::Page { chunks, .. } => if self.unchanged_page(reply) {
                self.retained()
            } else {
                self.retained().append(chunks@)
            },
        }
    }

    /// The position after an accepted reply.
    pub open spec fn applied_position(self, reply: TranscriptReply) -> Option<SourceCursor> {
        match reply.result {
            TranscriptResult::Reset => None,
            TranscriptResult::Snapshot { cursor, .. } => Some(cursor),
            TranscriptResult::Page { cursor, .. } => if self.unchanged_page(reply) {
                self.position()
            } else {
                Some(cursor)
            },
        }
    }

    /// What an accepted reply makes of the projection.
    pub open spec fn becomes(self, reply: TranscriptReply, after: TranscriptProjection) -> bool {
        let reported = reply.projection.dropped_output_bytes;
        &&& after.bound() == self.bound()
        &&& after.retained() == self.applied_text(reply)
        &&& after.position() == self.applied_position(reply)
        &&& after.anchor() == (if reply.result is Snapshot {
            Some(reply.source)
        } else {
            self.anchor()
        })
        &&& after.dropped() == (if reply.result is Page {
            observed_drop(self.dropped(), reported)
        } else {
            reported
        })
        &&& after.revision() == self.revision() + (if self.unchanged_page(reply) {
            0int
        } else {
            2int
        })
    }

    /// What the caller is told of an accepted reply.
    pub open spec fn report(self, replaced: bool, appended: bool) -> TranscriptApply {
        TranscriptApply {
            content_revision: self.revision(),
            replaced,
            appended,
            omitted_chunks: self.retained().omissions.chunks,
            omitted_bytes: self.retained().omissions.bytes,
            dropped_lines: self.retained().omissions.lines,
        }
    }

    /// This projection shows nothing yet of the execution that `binding` stands for.
    pub open spec fn starts(self, binding: ManagedBinding) -> bool {
        &&& self.wf()
        &&& self.bound() == binding
        &&& self.anchor() == binding.pinned_source
        &&& self.position() is None
        &&& self.retained() == fresh(false)
        &&& self.dropped() is None
        &&& self.revision() == 0
    }

    /// Start an empty projection for one exact managed provider binding.
    pub fn new(binding: ManagedBinding) -> (r: Self)
        ensures
            r.starts(binding),
    {
        let projection = TranscriptProjection {
            source: binding.pinned_source.clone(),
            binding,
            cursor: None,
            lines: Vec::new(),
            retained_text_bytes: 0,
            omissions: TranscriptOmissions::none(),
            source_dropped_output_bytes: None,
            content_revision: 0,
        };
        assert(projection.retained().lines =~= Seq::empty());
        projection
    }

    /// The read that a reply has to answer, with `limit` the largest number of
    /// chunks that the daemon contract allows. There is none for a reset or a page
    /// while no position is known.
    pub fn expected_read(&self, reply: &TranscriptReply, limit: u16) -> (r: Option<TranscriptRead>)
        ensures
            r is None <==> !(reply.result is Snapshot) && self.position() is None,
            r matches Some(read) ==> read.host_id == self.bound().host_id && read.scope
                == self.bound().scope && read.authority == self.bound().authority
                && read.session_id == self.bound().session_id && read.generation
                == self.bound().generation && read.limit == limit && read.cursor == (
            if reply.result is Snapshot {
                None
            } else {
                self.position()
            }),
    {
        let cursor = match &reply.result {
            TranscriptResult::Snapshot { .. } => None,
            _ => {
                if self.cursor.is_none() {
                    return None;
                }
                self.cursor.clone()
            },
        };
        Some(
            TranscriptRead {
                host_id: self.binding.host_id.clone(),
                scope: self.binding.scope.clone(),
                authority: self.binding.authority.clone(),
                session_id: self.binding.session_id.clone(),
                generation: self.binding.generation,
                cursor,
                limit,
            },
        )
    }

    fn is_foreign(&self, source: &SourceIdentity) -> (r: bool)
        ensures
            r == self.foreign(*source),
    {
        match &self.source {
            Some(known) => !known.equals(source),
            None => false,
        }
    }

    fn applied(&self, replaced: bool, appended: bool) -> (r: TranscriptApply)
        ensures
            r == self.report(replaced, appended),
    {
        TranscriptApply {
            content_revision: self.content_revision,
            replaced,
            appended,
            omitted_chunks: self.omissions.chunks,
            omitted_bytes: self.omissions.bytes,
            dropped_lines: self.omissions.lines,
        }
    }

    fn observe_source_dropped(&mut self, reported: Option<u64>)
        ensures
            *final(self) == (TranscriptProjection {
                source_dropped_output_bytes: observed_drop(old(self).dropped(), reported),
                ..*old(self)
            }),
    {
        if let Some(new) = reported {
            let known: u64 = match self.source_dropped_output_bytes {
                Some(known) => known,
                None => 0,
            };
            self.source_dropped_output_bytes = Some(if known > new { known } else { new });
        }
    }

    fn apply_reset(&mut self, reply: &TranscriptReply, verdict: Result<(), ContractError>) -> (r:
        Result<TranscriptApply, TranscriptApplyError>)
        requires
            old(self).wf(),
            reply.result is Reset,
        ensures
            final(self).wf(),
            r is Ok <==> old(self).reset_error(*reply, verdict) is None,
            r matches Err(error) ==> old(self).reset_error(*reply, verdict) == Some(error)
                && *final(self) == *old(self),
            r matches Ok(report) ==> old(self).becomes(*reply, *final(self)) && report
                == final(self).report(true, false),
    {
        if self.cursor.is_none() {
            return Err(TranscriptApplyError::MissingCursor);
        }
        if self.content_revision > u64::MAX - 2 {
            return Err(TranscriptApplyError::RevisionExhausted);
        }
        if self.is_foreign(&reply.source) {
            return Err(TranscriptApplyError::SourceIdentityMismatch);
        }
        if let Err(error) = verdict {
            return Err(TranscriptApplyError::InvalidReply(error));
        }
        // A reset invalidates the position and the retained text, but it never
        // lets a response replace the trusted ledger: a source change takes a new
        // binding and a new projection.
        self.cursor = None;
        self.lines.clear();
        self.retained_text_bytes = 0;
        self.omissions = TranscriptOmissions::none();
        self.source_dropped_output_bytes = reply.projection.dropped_output_bytes;
        self.content_revision = self.content_revision + 2;
        assert(self.retained().lines =~= Seq::empty());
        Ok(self.applied(true, false))
    }

    fn apply_snapshot(
        &mut self,
        reply: &TranscriptReply,
        cursor: &SourceCursor,
        chunks: &Vec<TranscriptChunk>,
        prefix_omitted: bool,
        verdict: Result<(), ContractError>,
    ) -> (r: Result<TranscriptApply, TranscriptApplyError>)
        requires
            old(self).wf(),
            reply.result == (TranscriptResult::Snapshot {
                cursor: *cursor,
                chunks: *chunks,
                prefix_omitted,
            }),
            verdict is Ok ==> chunks@.len() <= u16::MAX,
        ensures
            final(self).wf(),
            r is Ok <==> old(self).snapshot_error(*reply, *cursor, verdict) is None,
            r matches Err(error) ==> old(self).snapshot_error(*reply, *cursor, verdict) == Some(
                error,
            ) && *final(self) == *old(self),
            r matches Ok(report) ==> old(self).becomes(*reply, *final(self)) && report
                == final(self).report(true, false),
    {
        if self.content_revision > u64::MAX - 2 {
            return Err(TranscriptApplyError::RevisionExhausted);
        }
        if let Err(error) = verdict {
            return Err(TranscriptApplyError::InvalidReply(error));
        }
        if self.is_foreign(&reply.source) {
            return Err(TranscriptApplyError::SourceIdentityMismatch);
        }
        if let Err(error) = validate_snapshot_sequences(chunks) {
            return Err(error);
        }
        if let Some(current) = &self.cursor {
            if cursor.revision < current.revision {
                return Err(TranscriptApplyError::RevisionWentBackwards);
            }
            if cursor.revision == current.revision {
                if cursor.after_seq < current.after_seq {
                    return Err(
                        TranscriptApplyError::SequenceBackwards {
                            expected: current.after_seq,
                            actual: cursor.after_seq,
                        },
                    );
                }
                if cursor.after_seq == current.after_seq {
                    return Err(TranscriptApplyError::Duplicate);
                }
            }
        }
        self.source = Some(reply.source.clone());
        self.cursor = Some(cursor.clone());
        self.lines.clear();
        self.retained_text_bytes = 0;
        self.omissions = TranscriptOmissions {
            prefix_omitted,
            chunks: 0,
            bytes: 0,
            lines: 0,
        };
        self.source_dropped_output_bytes = reply.projection.dropped_output_bytes;
        assert(self.retained().lines =~= Seq::empty());
        assert(self.retained() =~= fresh(prefix_omitted));
        self.append_chunks(chunks);
        self.content_revision = self.content_revision + 2;
        Ok(self.applied(true, false))
    }

    fn apply_page(
        &mut self,
        reply: &TranscriptReply,
        after: &SourceCursor,
        cursor: &SourceCursor,
        chunks: &Vec<TranscriptChunk>,
        verdict: Result<(), ContractError>,
    ) -> (r: Result<TranscriptApply, TranscriptApplyError>)
        requires
            old(self).wf(),
            reply.result matches TranscriptResult::Page { after: a, cursor: c, chunks: k, .. }
                && a == *after && c == *cursor && k == *chunks,
            verdict is Ok ==> chunks@.len() <= u16::MAX,
        ensures
            final(self).wf(),
            r is Ok <==> old(self).page_error(*reply, *after, *cursor, verdict) is None,
            r matches Err(error) ==> old(self).page_error(*reply, *after, *cursor, verdict) == Some(
                error,
            ) && *final(self) == *old(self),
            r matches Ok(report) ==> old(self).becomes(*reply, *final(self)) && report
                == final(self).report(false, !old(self).unchanged_page(*reply)),
    {
        let (current_seq, current_revision) = match &self.cursor {
            None => {
                return Err(TranscriptApplyError::MissingCursor);
            },
            Some(current) => {
                if self.is_foreign(&reply.source) {
                    return Err(TranscriptApplyError::SourceIdentityMismatch);
                }
                if !after.equals(current) {
                    return Err(TranscriptApplyError::CursorMismatch);
                }
                (current.after_seq, current.revision)
            },
        };
        if self.content_revision > u64::MAX - 2 {
            return Err(TranscriptApplyError::RevisionExhausted);
        }
        if let Err(error) = verdict {
            return Err(TranscriptApplyError::InvalidReply(error));
        }
        if cursor.revision != current_revision {
            return Err(TranscriptApplyError::RevisionWentBackwards);
        }
        if cursor.after_seq < current_seq {
            return Err(
                TranscriptApplyError::SequenceBackwards {
                    expected: current_seq,
                    actual: cursor.after_seq,
                },
            );
        }
        if cursor.after_seq == current_seq {
            // Polling an unchanged position is a valid no-op. The position and the
            // content revision stay, so that idle providers cause no redraw.
            self.observe_source_dropped(reply.projection.dropped_output_bytes);
            return Ok(self.applied(false, false));
        }
        if let Err(error) = validate_page_sequences(current_seq, chunks) {
            return Err(error);
        }
        self.observe_source_dropped(reply.projection.dropped_output_bytes);
        self.cursor = Some(cursor.clone());
        self.append_chunks(chunks);
        self.content_revision = self.content_revision + 2;
        Ok(self.applied(false, true))
    }

    /// Apply one already fetched transcript response. `verdict` is the daemon
    /// client's answer to whether the reply fits the read that `expected_read`
    /// gives; a reply that it accepts holds no more chunks than a read can ask for.
    pub fn apply(
        &mut self,
        reply: &TranscriptReply,
        runtime_generation: u64,
        verdict: Result<(), ContractError>,
    ) -> (r: Result<TranscriptApply, TranscriptApplyError>)
        requires
            old(self).wf(),
            verdict is Ok ==> reply.chunks().len() <= u16::MAX,
        ensures
            final(self).wf(),
            r is Ok <==> old(self).apply_error(*reply, runtime_generation, verdict) is None,
            r matches Err(error) ==> old(self).apply_error(*reply, runtime_generation, verdict)
                == Some(error) && *final(self) == *old(self),
            r matches Ok(report) ==> old(self).becomes(*reply, *final(self)) && report
                == final(self).report(
                !(reply.result is Page),
                reply.result is Page && !old(self).unchanged_page(*reply),
            ),
    {
        if runtime_generation != self.binding.runtime_generation {
            return Err(TranscriptApplyError::RuntimeGenerationMismatch);
        }
        match &reply.result {
            TranscriptResult::Reset => self.apply_reset(reply, verdict),
            TranscriptResult::Snapshot { cursor, chunks, prefix_omitted } => self.apply_snapshot(
                reply,
                cursor,
                chunks,
                *prefix_omitted,
                verdict,
            ),
            TranscriptResult::Page { after, cursor, chunks, has_more: _ } => self.apply_page(
                reply,
                after,
                cursor,
                chunks,
                verdict,
            ),
        }
    }
}

impl TranscriptProjection {
    pub fn source(&self) -> (r: Option<&SourceIdentity>)
        ensures
            r is Some <==> self.anchor() is Some,
            r matches Some(source) ==> self.anchor() == Some(*source),
    {
        self.source.as_ref()
    }

    pub fn cursor(&self) -> (r: Option<&SourceCursor>)
        ensures
            r is Some <==> self.position() is Some,
            r matches Some(cursor) ==> self.position() == Some(*cursor),
    {
        self.cursor.as_ref()
    }

    /// The revision of what is shown. It is even, starts at zero, and grows by two
    /// with every reply that is accepted, except for a page at an unchanged position.
    pub fn content_revision(&self) -> (r: u64)
        requires
            self.wf(),
        ensures
            r == self.revision(),
            r % 2 == 0,
    {
        self.content_revision
    }

    /// Every retained normalized line.
    pub fn lines(&self) -> (r: &[TranscriptLine])
        ensures
            line_texts(r@) == self.retained().lines,
            self.wf() ==> clean(line_texts(r@)),
    {
        self.lines.as_slice()
    }

    /// The last `limit` retained lines, or all of them where there are fewer.
    pub fn read_lines(&self, limit: usize) -> (r: &[TranscriptLine])
        ensures
            r@.len() == (if limit < self.retained().lines.len() {
                limit as nat
            } else {
                self.retained().lines.len()
            }),
            line_texts(r@) == self.retained().lines.skip(
                self.retained().lines.len() - r@.len(),
            ),
            self.wf() ==> clean(line_texts(r@)),
    {
        let start: usize = self.lines.len().saturating_sub(limit);
        let tail = vstd::slice::slice_subrange(self.lines.as_slice(), start, self.lines.len());
        assert(line_texts(tail@) =~= self.retained().lines.skip(start as int));
        tail
    }

    pub fn line_count(&self) -> (r: usize)
        ensures
            r == self.retained().lines.len(),
            self.wf() ==> r <= MAX_RETAINED_LOGICAL_LINES,
    {
        self.lines.len()
    }

    pub fn retained_text_bytes(&self) -> (r: usize)
        requires
            self.wf(),
        ensures
            r == text_bytes(self.retained().lines),
            r <= MAX_RETAINED_TEXT_BYTES,
    {
        self.retained_text_bytes
    }

    pub fn omissions(&self) -> (r: TranscriptOmissions)
        ensures
            r == self.retained().omissions,
    {
        self.omissions
    }

    /// Whether any output of the execution is known to be missing here.
    pub fn has_omissions(&self) -> (r: bool)
        ensures
            r == (self.retained().omissions.some() || (self.dropped() matches Some(bytes) && bytes
                > 0)),
    {
        self.omissions.any() || match self.source_dropped_output_bytes {
            Some(bytes) => bytes > 0,
            None => false,
        }
    }

    /// Output that the owner reports as dropped. It is kept apart from local
    /// eviction and from explicitly omitted chunks.
    pub fn source_dropped_output_bytes(&self) -> (r: Option<u64>)
        ensures
            r == self.dropped(),
    {
        self.source_dropped_output_bytes
    }
}

impl TranscriptProjection {
    /// The text that an accepted reply would leave if nothing ever had to be evicted.
    pub open spec fn whole_text(self, reply: TranscriptReply) -> Retained {
        match reply.result {
            TranscriptResult::Reset => fresh(false),
            TranscriptResult::Snapshot { chunks, prefix_omitted, .. } => fresh(
                prefix_omitted,
            ).all_chunks(chunks@, chunks@.len()),
            TranscriptResult::Page { chunks, .. } => if self.unchanged_page(reply) {
                self.retained()
            } else {
                self.retained().all_chunks(chunks@, chunks@.len())
            },
        }
    }
}

/// What every projection retains is bounded in lines and in bytes, where each line after the
/// first counts one byte more for its separator, and no line holds a line feed, a control
/// character or a Unicode format control.
pub proof fn retained_text_is_bounded_and_clean(projection: TranscriptProjection)
    requires
        projection.wf(),
    ensures
        projection.retained().lines.len() <= MAX_RETAINED_LOGICAL_LINES,
        text_bytes(projection.retained().lines) <= MAX_RETAINED_TEXT_BYTES,
        projection.retained().lines.len() == 0 ==> text_bytes(projection.retained().lines) == 0,
        projection.retained().lines.len() > 0 ==> text_bytes(projection.retained().lines)
            == content_bytes(projection.retained().lines) + projection.retained().lines.len() - 1,
        forall|i: int, j: int|
            0 <= i < projection.retained().lines.len() && 0 <= j
                < projection.retained().lines[i].len() ==> {
                let c = #[trigger] projection.retained().lines[i][j];
                c != '\n' && !control(c) && !format_control(c)
            },
{
    let lines = projection.retained().lines;
    assert forall|i: int, j: int|
        0 <= i < lines.len() && 0 <= j < lines[i].len() implies ({
        let c = #[trigger] lines[i][j];
        c != '\n' && !control(c) && !format_control(c)
    }) by {
        assert(clean_line(lines[i]));
        assert(displayable(lines[i][j]));
    }
}

/// Where an accepted reply evicts text that would otherwise be retained, the projection says
/// so: it has omissions, and among them that its beginning is missing.
pub proof fn evicted_text_is_told(
    before: TranscriptProjection,
    reply: TranscriptReply,
    after: TranscriptProjection,
)
    requires
        before.becomes(reply, after),
        after.retained().lines != before.whole_text(reply).lines,
    ensures
        after.retained().omissions.prefix_omitted,
        after.retained().omissions.some(),
{
    match reply.result {
        TranscriptResult::Reset => {},
        TranscriptResult::Snapshot { chunks, prefix_omitted, .. } => {
            eviction_is_never_silent(fresh(prefix_omitted), chunks@);
        },
        TranscriptResult::Page { chunks, .. } => {
            eviction_is_never_silent(before.retained(), chunks@);
        },
    }
}

impl TranscriptApplyError {
    /// The text of this error. `detail` is the daemon client's own text for a
    /// contract error.
    pub open spec fn text(self, detail: Seq<char>) -> Seq<char> {
        match self {
            TranscriptApplyError::RuntimeGenerationMismatch =>
                "Coven transcript runtime generation mismatch"@,
            TranscriptApplyError::InvalidReply(_) => "invalid Coven transcript reply: "@ + detail,
            TranscriptApplyError::SourceIdentityMismatch =>
                "Coven transcript source identity mismatch"@,
            TranscriptApplyError::CursorMismatch => "Coven transcript cursor mismatch"@,
            TranscriptApplyError::MissingCursor => "Coven transcript has no cursor to page from"@,
            TranscriptApplyError::RevisionWentBackwards =>
                "Coven transcript cursor revision went backwards"@,
            TranscriptApplyError::Duplicate => "duplicate Coven transcript response"@,
            TranscriptApplyError::SequenceBackwards { expected, actual } =>
                "Coven transcript sequence moved backwards: expected at least "@
                + signed_decimal(expected as int) + ", got "@ + signed_decimal(actual as int),
            TranscriptApplyError::RevisionExhausted =>
                "Coven transcript content revision exhausted"@,
        }
    }

    pub fn message(&self, detail: &str) -> (r: String)
        ensures
            r@ == self.text(detail@),
    {
        match self {
            TranscriptApplyError::RuntimeGenerationMismatch => {
                "Coven transcript runtime generation mismatch".to_owned()
            },
            TranscriptApplyError::InvalidReply(_) => {
                "invalid Coven transcript reply: ".to_owned().concat(detail)
            },
            TranscriptApplyError::SourceIdentityMismatch => {
                "Coven transcript source identity mismatch".to_owned()
            },
            TranscriptApplyError::CursorMismatch => "Coven transcript cursor mismatch".to_owned(),
            TranscriptApplyError::MissingCursor => {
                "Coven transcript has no cursor to page from".to_owned()
            },
            TranscriptApplyError::RevisionWentBackwards => {
                "Coven transcript cursor revision went backwards".to_owned()
            },
            TranscriptApplyError::Duplicate => "duplicate Coven transcript response".to_owned(),
            TranscriptApplyError::SequenceBackwards { expected, actual } => {
                "Coven transcript sequence moved backwards: expected at least ".to_owned().concat(
                    signed_decimal_text(*expected).as_str(),
                ).concat(", got ").concat(signed_decimal_text(*actual).as_str())
            },
            TranscriptApplyError::RevisionExhausted => {
                "Coven transcript content revision exhausted".to_owned()
            },
        }
    }
}

/// An ordinary character: printable ASCII, or a letter, mark, sign or ideograph outside the
/// places where Unicode keeps its controls and format controls.
pub open spec fn ordinary(c: char) -> bool {
    let n = c as u32;
    ||| 0x20 <= n <= 0x7e
    ||| 0xa0 <= n <= 0xac
    ||| 0xae <= n <= 0x5ff
    ||| 0x606 <= n <= 0x61b
    ||| 0x61d <= n <= 0x6dc
    ||| 0x6de <= n <= 0x70e
    ||| 0x710 <= n <= 0x88f
    ||| 0x892 <= n <= 0x8e1
    ||| 0x8e3 <= n <= 0x180d
    ||| 0x180f <= n <= 0x200a
    ||| 0x2010 <= n <= 0x2029
    ||| 0x202f <= n <= 0x205f
    ||| n == 0x2065
    ||| 0x2070 <= n <= 0xfefe
    ||| 0xff00 <= n <= 0xfff8
    ||| 0xfffc <= n <= 0x110bc
    ||| 0x110be <= n <= 0x110cc
    ||| 0x110ce <= n <= 0x1342f
    ||| 0x13440 <= n <= 0x1bc9f
    ||| 0x1bca4 <= n <= 0x1d172
    ||| 0x1d17b <= n <= 0xe0000
    ||| 0xe0002 <= n <= 0xe001f
    ||| 0xe0080 <= n
}

/// Ordinary characters are shown as they are, and they alone, but for the line feed, which ends
/// the line. A character is shown as it is exactly where it may stand in a line.
pub proof fn ordinary_characters_are_shown_as_they_are(c: char)
    ensures
        ordinary(c) ==> displayed(c) == seq![c],
        displayable(c) ==> displayed(c) == seq![c],
        displayable(c) <==> ordinary(c),
        displayed(c) == seq![c] <==> ordinary(c) || c == '\n',
        displayed('\n') == seq!['\n'],
{
    if !ordinary(c) && c != '\n' {
        assert(displayed(c)[0] == '\\');
        assert(c != '\\');
    }
}

/// The number that a row of hexadecimal digits stands for.
pub open spec fn read_back(digits: Seq<char>) -> nat
    decreases digits.len(),
{
    if digits.len() == 0 {
        0
    } else {
        let c = digits.last();
        read_back(digits.drop_last()) * 16 + (if '0' <= c <= '9' {
            (c as int - '0' as int) as nat
        } else {
            (c as int - 'a' as int + 10) as nat
        })
    }
}

proof fn lemma_read_back(n: nat)
    ensures
        read_back(hex(n)) == n,
        forall|i: int|
            0 <= i < hex(n).len() ==> ('0' <= #[trigger] hex(n)[i] <= '9') || ('a' <= hex(n)[i]
                <= 'f'),
    decreases n,
{
    if n >= 16 {
        lemma_read_back(n / 16);
        assert(hex(n).drop_last() =~= hex(n / 16));
        assert(hex(n).last() == hex_digit(n % 16));
    } else {
        assert(hex(n).drop_last() =~= Seq::<char>::empty());
        assert(read_back(hex(n).drop_last()) == 0);
        assert(hex(n).last() == hex_digit(n));
    }
}

/// Of a character that is not shown as it is, the display says which one it was: a tab and a
/// carriage return by their letters, any other by its code point in hexadecimal digits.
pub proof fn escapes_name_their_character(c: char)
    requires
        !ordinary(c),
        c != '\n',
    ensures
        c == '\t' ==> displayed(c) == seq!['\\', 't'],
        c == '\r' ==> displayed(c) == seq!['\\', 'r'],
        c != '\t' && c != '\r' ==> {
            let shown = displayed(c);
            let digits = shown.subrange(3, shown.len() - 1);
            &&& shown.len() >= 5
            &&& shown[0] == '\\' && shown[1] == 'u' && shown[2] == '{' && shown.last() == '}'
            &&& read_back(digits) == c as nat
            &&& forall|i: int|
                0 <= i < digits.len() ==> ('0' <= #[trigger] digits[i] <= '9') || ('a' <= digits[i]
                    <= 'f')
        },
{
    ordinary_characters_are_shown_as_they_are(c);
    if c != '\t' && c != '\r' {
        lemma_read_back(c as nat);
        lemma_hex(c as nat);
        let shown = displayed(c);
        assert(shown.subrange(3, shown.len() - 1) =~= hex(c as nat));
    }
}

/// No two characters are shown alike.
pub proof fn different_characters_are_shown_differently(a: char, b: char)
    requires
        a != b,
    ensures
        displayed(a) != displayed(b),
{
    ordinary_characters_are_shown_as_they_are(a);
    ordinary_characters_are_shown_as_they_are(b);
    if !ordinary(a) && a != '\n' {
        escapes_name_their_character(a);
    }
    if !ordinary(b) && b != '\n' {
        escapes_name_their_character(b);
    }
    if displayed(a) == displayed(b) {
        assert(displayed(a).len() == displayed(b).len());
        assert(displayed(a)[0] == displayed(b)[0]);
        assert(displayed(a).len() > 1 ==> displayed(a)[1] == displayed(b)[1]);
    }
}

/// The text of lines, with a line feed between each and the next.
pub open spec fn text_of_lines(lines: Seq<Seq<char>>) -> Seq<char>
    decreases lines.len(),
{
    if lines.len() == 0 {
        Seq::empty()
    } else if lines.len() == 1 {
        lines[0]
    } else {
        text_of_lines(lines.drop_last()).push('\n') + lines.last()
    }
}

proof fn lemma_text_push_char(st: Retained, c: char)
    requires
        st.lines.len() > 0,
    ensures
        text_of_lines(st.push_char(c).lines) == text_of_lines(st.lines).push(c),
{
    let lines = st.push_char(c).lines;
    if c == '\n' {
        assert(lines.drop_last() =~= st.lines);
        assert(lines.last() =~= Seq::<char>::empty());
        assert(text_of_lines(lines) =~= text_of_lines(st.lines).push(c));
    } else {
        assert(lines.drop_last() =~= st.lines.drop_last());
        assert(lines.last() == st.lines.last().push(c));
        assert(text_of_lines(lines) =~= text_of_lines(st.lines).push(c));
    }
}

proof fn lemma_text_push_chars(st: Retained, text: Seq<char>)
    requires
        st.lines.len() > 0,
    ensures
        st.push_chars(text).lines.len() >= st.lines.len(),
        text_of_lines(st.push_chars(text).lines) == text_of_lines(st.lines) + text,
        text_bytes(st.push_chars(text).lines) >= text_bytes(st.lines),
    decreases text.len(),
{
    if text.len() == 0 {
        assert(text_of_lines(st.lines) + text =~= text_of_lines(st.lines));
    } else {
        let before = st.push_chars(text.drop_last());
        lemma_text_push_chars(st, text.drop_last());
        lemma_text_push_char(before, text.last());
        lemma_push_char(before, text.last());
        assert(text_of_lines(st.lines) + text =~= (text_of_lines(st.lines)
            + text.drop_last()).push(text.last()));
    }
}

/// What a display shows of a text.
pub open spec fn shown_text(data: Seq<char>) -> Seq<char>
    decreases data.len(),
{
    if data.len() == 0 {
        Seq::empty()
    } else {
        shown_text(data.drop_last()) + displayed(data.last())
    }
}

proof fn lemma_text_normalized(st: Retained, data: Seq<char>, n: nat)
    requires
        n <= data.len(),
    ensures
        st.all_normalized(data, n).lines.len() >= 1,
        st.all_normalized(data, n).lines.len() >= st.lines.len(),
        text_of_lines(st.all_normalized(data, n).lines) == text_of_lines(st.lines) + shown_text(
            data.take(n as int),
        ),
        text_bytes(st.all_normalized(data, n).lines) >= text_bytes(st.lines),
    decreases n,
{
    if n == 0 {
        let begun = st.all_normalized(data, 0);
        crate::text::lemma_byte_len_empty();
        assert(data.take(0).len() == 0);
        assert(text_of_lines(begun.lines) =~= text_of_lines(st.lines));
        assert(text_of_lines(st.lines) + shown_text(data.take(0)) =~= text_of_lines(st.lines));
    } else {
        let before = st.all_normalized(data, (n - 1) as nat);
        lemma_text_normalized(st, data, (n - 1) as nat);
        lemma_text_push_chars(before, displayed(data[n - 1]));
        assert(data.take(n as int).drop_last() =~= data.take(n - 1));
        assert(data.take(n as int).last() == data[n - 1]);
        assert(text_of_lines(st.all_normalized(data, n).lines) =~= text_of_lines(st.lines)
            + shown_text(data.take(n as int)));
    }
}

/// The text of chunks, one after the other.
pub open spec fn source_text(chunks: Seq<TranscriptChunk>) -> Seq<char>
    decreases chunks.len(),
{
    if chunks.len() == 0 {
        Seq::empty()
    } else {
        match chunks.last().content {
            TranscriptContent::Text { data, .. } => source_text(chunks.drop_last()) + data@,
            TranscriptContent::Omitted => source_text(chunks.drop_last()),
        }
    }
}

proof fn lemma_shown_concat(a: Seq<char>, b: Seq<char>)
    ensures
        shown_text(a + b) == shown_text(a) + shown_text(b),
    decreases b.len(),
{
    if b.len() == 0 {
        assert(a + b =~= a);
        assert(shown_text(a) + shown_text(b) =~= shown_text(a));
    } else {
        lemma_shown_concat(a, b.drop_last());
        assert((a + b).drop_last() =~= a + b.drop_last());
        assert((a + b).last() == b.last());
        assert(shown_text(a + b) =~= shown_text(a) + shown_text(b));
    }
}

proof fn lemma_text_chunks(st: Retained, chunks: Seq<TranscriptChunk>, n: nat)
    requires
        n <= chunks.len(),
    ensures
        text_of_lines(st.all_chunks(chunks, n).lines) == text_of_lines(st.lines) + shown_text(
            source_text(chunks.take(n as int)),
        ),
    decreases n,
{
    if n == 0 {
        assert(chunks.take(0).len() == 0);
        assert(text_of_lines(st.lines) + shown_text(source_text(chunks.take(0)))
            =~= text_of_lines(st.lines));
    } else {
        let before = st.all_chunks(chunks, (n - 1) as nat);
        lemma_text_chunks(st, chunks, (n - 1) as nat);
        assert(chunks.take(n as int).drop_last() =~= chunks.take(n - 1));
        assert(chunks.take(n as int).last() == chunks[n - 1]);
        if let TranscriptContent::Text { data, .. } = chunks[n - 1].content {
            lemma_shown_concat(source_text(chunks.take(n - 1)), data@);
            lemma_text_normalized(before, data@, data@.len());
            assert(data@.take(data@.len() as int) =~= data@);
            assert(text_of_lines(st.all_chunks(chunks, n).lines) =~= text_of_lines(st.lines)
                + shown_text(source_text(chunks.take(n as int))));
        }
    }
}

proof fn lemma_chunks_grow(st: Retained, chunks: Seq<TranscriptChunk>, n: nat)
    requires
        0 < n <= chunks.len(),
    ensures
        st.all_chunks(chunks, n).lines.len() >= st.all_chunks(chunks, (n - 1) as nat).lines.len(),
        text_bytes(st.all_chunks(chunks, n).lines) >= text_bytes(
            st.all_chunks(chunks, (n - 1) as nat).lines,
        ),
{
    if let TranscriptContent::Text { data, .. } = chunks[n - 1].content {
        lemma_text_normalized(st.all_chunks(chunks, (n - 1) as nat), data@, data@.len());
    }
}

proof fn lemma_chars_alike(a: Retained, b: Retained, text: Seq<char>)
    requires
        a.lines == b.lines,
    ensures
        a.push_chars(text).lines == b.push_chars(text).lines,
        a.push_chars(text).omissions == a.omissions,
    decreases text.len(),
{
    if text.len() > 0 {
        lemma_chars_alike(a, b, text.drop_last());
    }
}

proof fn lemma_normalized_grows(st: Retained, data: Seq<char>, n: nat, m: nat)
    requires
        n <= m <= data.len(),
    ensures
        st.all_normalized(data, n).lines.len() <= st.all_normalized(data, m).lines.len(),
        text_bytes(st.all_normalized(data, n).lines) <= text_bytes(
            st.all_normalized(data, m).lines,
        ),
    decreases m,
{
    if n < m {
        lemma_normalized_grows(st, data, n, (m - 1) as nat);
        let before = st.all_normalized(data, (m - 1) as nat);
        lemma_text_normalized(st, data, (m - 1) as nat);
        lemma_text_push_chars(before, displayed(data[m - 1]));
    }
}

proof fn lemma_normalized_whole(a: Retained, b: Retained, data: Seq<char>, n: nat)
    requires
        n <= data.len(),
        a.lines == b.lines,
        b.all_normalized(data, n).within_bounds(),
    ensures
        a.push_normalized(data, n).lines == b.all_normalized(data, n).lines,
        a.push_normalized(data, n).omissions == a.omissions,
    decreases n,
{
    if n > 0 {
        lemma_normalized_grows(b, data, (n - 1) as nat, n);
        lemma_normalized_whole(a, b, data, (n - 1) as nat);
        lemma_chars_alike(
            a.push_normalized(data, (n - 1) as nat),
            b.all_normalized(data, (n - 1) as nat),
            displayed(data[n - 1]),
        );
    }
}

proof fn lemma_chunks_whole(st: Retained, chunks: Seq<TranscriptChunk>, n: nat)
    requires
        n <= chunks.len(),
        st.all_chunks(chunks, n).within_bounds(),
    ensures
        st.push_chunks(chunks, n).lines == st.all_chunks(chunks, n).lines,
        st.push_chunks(chunks, n).omissions.prefix_omitted == st.omissions.prefix_omitted,
        st.push_chunks(chunks, n).omissions.lines == st.omissions.lines,
    decreases n,
{
    if n > 0 {
        lemma_chunks_grow(st, chunks, n);
        lemma_chunks_whole(st, chunks, (n - 1) as nat);
        let before = st.push_chunks(chunks, (n - 1) as nat);
        if let TranscriptContent::Text { data, omitted_prefix_bytes } = chunks[n - 1].content {
            if data@.len() > 0 {
                let counted_prefix = Retained {
                    omissions: TranscriptOmissions {
                        bytes: counted(before.omissions.bytes, omitted_prefix_bytes as nat),
                        ..before.omissions
                    },
                    ..before
                };
                lemma_normalized_whole(
                    counted_prefix,
                    st.all_chunks(chunks, (n - 1) as nat),
                    data@,
                    data@.len(),
                );
            }
        }
    }
}

/// Text that fits is left alone by trimming.
pub proof fn trimming_leaves_what_fits(st: Retained)
    requires
        st.lines.len() <= 4096,
        text_bytes(st.lines) <= 262_144,
    ensures
        st.trim() == st,
{
}

/// Chunks whose text fits with what is retained are appended whole: the text is what it was,
/// followed by what a display shows of theirs, and nothing is said to be missing.
pub proof fn fitting_chunks_are_appended_whole(st: Retained, chunks: Seq<TranscriptChunk>)
    requires
        st.all_chunks(chunks, chunks.len()).lines.len() <= 4096,
        text_bytes(st.all_chunks(chunks, chunks.len()).lines) <= 262_144,
    ensures
        text_of_lines(st.append(chunks).lines) == text_of_lines(st.lines) + shown_text(
            source_text(chunks),
        ),
        st.append(chunks).omissions.prefix_omitted == st.omissions.prefix_omitted,
        st.append(chunks).omissions.lines == st.omissions.lines,
{
    lemma_chunks_whole(st, chunks, chunks.len());
    lemma_text_chunks(st, chunks, chunks.len());
    assert(chunks.take(chunks.len() as int) =~= chunks);
    trimming_leaves_what_fits(st.push_chunks(chunks, chunks.len()));
}

/// Of ordinary characters and line feeds a display shows the text itself.
pub proof fn ordinary_text_is_shown_as_it_is(data: Seq<char>)
    requires
        forall|i: int| 0 <= i < data.len() ==> ordinary(#[trigger] data[i]) || data[i] == '\n',
    ensures
        shown_text(data) == data,
    decreases data.len(),
{
    if data.len() > 0 {
        let head = data.drop_last();
        assert forall|i: int| 0 <= i < head.len() implies ordinary(#[trigger] head[i]) || head[i]
            == '\n' by {
            assert(head[i] == data[i]);
        }
        ordinary_text_is_shown_as_it_is(head);
        assert(data.last() == data[data.len() - 1]);
        ordinary_characters_are_shown_as_they_are(data.last());
        assert(shown_text(data) =~= data);
    }
}

proof fn lemma_trim_bytes_tight(st: Retained)
    requires
        text_bytes(st.lines) > MAX_RETAINED_TEXT_BYTES,
    ensures
        text_bytes(st.trim_bytes().lines) + (st.lines.len() - st.trim_bytes().lines.len()) + 3
            >= MAX_RETAINED_TEXT_BYTES,
        st.trim_bytes().lines.len() <= st.lines.len(),
    decreases st.lines.len(),
{
    let lines = st.lines;
    let count = fitting_lines(lines, st.excess(), 0);
    assert(lines.take(0) =~= Seq::empty());
    lemma_fitting_lines(lines, st.excess(), 0);
    if count > 0 {
        lemma_text_bytes_drop(lines, count as int);
        let dropped = st.drop_lines(count);
        assert(st.trim_bytes() == dropped.trim_bytes());
        if text_bytes(dropped.lines) > MAX_RETAINED_TEXT_BYTES {
            lemma_trim_bytes_tight(dropped);
        } else {
            assert(dropped.trim_bytes() == dropped);
        }
    } else {
        assert(lines.take(1).drop_last() =~= Seq::empty());
        assert(content_bytes(lines.take(1)) == byte_len(lines[0]));
        let cut = covering_chars(lines[0], st.excess(), 0);
        lemma_covering_chars(lines[0], st.excess(), 0);
        lemma_covering_least(lines[0], st.excess(), 0);
        let rest = lines[0].skip(cut as int);
        crate::text::lemma_byte_len_concat(lines[0].take(cut as int), rest);
        assert(lines[0].take(cut as int) + rest =~= lines[0]);
        lemma_content_update(lines, 0, rest);
    }
}

/// Covering characters overshoot the target by less than one character.
proof fn lemma_covering_least(text: Seq<char>, target: nat, n: nat)
    requires
        n <= text.len(),
        target > 0,
        byte_len(text.take(n as int)) <= target + 3,
    ensures
        byte_len(text.take(covering_chars(text, target, n) as int)) <= target + 3,
    decreases text.len() - n,
{
    if n < text.len() && byte_len(text.take(n as int)) < target {
        crate::text::lemma_byte_len_push(text.take(n as int), text[n as int]);
        crate::text::lemma_char_width(text[n as int]);
        assert(text.take(n as int + 1) =~= text.take(n as int).push(text[n as int]));
        lemma_covering_least(text, target, n + 1);
    }
}

/// No more is evicted than the bounds ask for. Where there are too many lines the newest 4096
/// stay, as far as their bytes fit; and where there are too many bytes, what stays falls short
/// of the bound by less than one character and the separators of the lines that went.
pub proof fn eviction_goes_no_further_than_needed(st: Retained)
    ensures
        st.lines.len() > 4096 && text_bytes(st.lines.skip(st.lines.len() - 4096)) <= 262_144
            ==> st.trim().lines == st.lines.skip(st.lines.len() - 4096),
        st.lines.len() <= 4096 && text_bytes(st.lines) > 262_144 ==> text_bytes(st.trim().lines) + (
        st.lines.len() - st.trim().lines.len()) + 3 >= 262_144,
{
    if st.lines.len() <= 4096 && text_bytes(st.lines) > 262_144 {
        lemma_trim_bytes_tight(st);
    }
}

/// What was omitted is counted exactly, until the count reaches its end.
pub proof fn omissions_are_counted(a: u64, b: nat)
    ensures
        counted(a, b) >= a,
        a + b <= u64::MAX ==> counted(a, b) == a + b,
        a + b > u64::MAX ==> counted(a, b) == u64::MAX,
{
}

proof fn lemma_ascending(chunks: Seq<TranscriptChunk>, from: nat)
    requires
        sequence_error(chunks, from) is None,
    ensures
        forall|i: int|
            from <= i < chunks.len() && i > 0 ==> (#[trigger] chunks[i]).seq >= chunks[i - 1].seq
                && (chunks[i - 1].seq < i64::MAX ==> chunks[i].seq > chunks[i - 1].seq),
    decreases chunks.len() - from,
{
    if from < chunks.len() {
        lemma_ascending(chunks, from + 1);
    }
}

/// The chunks of an accepted reply are in order.
pub proof fn accepted_chunks_are_in_order(
    projection: TranscriptProjection,
    reply: TranscriptReply,
    runtime_generation: u64,
    verdict: Result<(), ContractError>,
)
    requires
        projection.apply_error(reply, runtime_generation, verdict) is None,
        !projection.unchanged_page(reply),
    ensures
        forall|i: int|
            0 < i < reply.chunks().len() ==> (#[trigger] reply.chunks()[i]).seq
                >= reply.chunks()[i - 1].seq && (reply.chunks()[i - 1].seq < i64::MAX
                ==> reply.chunks()[i].seq > reply.chunks()[i - 1].seq),
        reply.result is Page && reply.chunks().len() > 0 ==> reply.chunks()[0].seq
            > projection.position()->0.after_seq,
{
    if !(reply.result is Reset) {
        lemma_ascending(reply.chunks(), 0);
    }
}

/// A reply is accepted only from the provider's current runtime, from the source that the
/// projection reads, and with the daemon client's approval.
pub proof fn accepted_replies_are_our_own(
    projection: TranscriptProjection,
    reply: TranscriptReply,
    runtime_generation: u64,
    verdict: Result<(), ContractError>,
)
    requires
        projection.apply_error(reply, runtime_generation, verdict) is None,
    ensures
        runtime_generation == projection.bound().runtime_generation,
        verdict is Ok,
        projection.anchor() matches Some(known) ==> known.host_id@ == reply.source.host_id@
            && known.profile_id@ == reply.source.profile_id@ && known.ledger_id@
            == reply.source.ledger_id@ && known.epoch == reply.source.epoch,
{
}

/// A page continues where the projection stands, and never goes back; a snapshot is newer than
/// what it replaces; a reset needs something to reset.
pub proof fn accepted_replies_go_forward(
    projection: TranscriptProjection,
    reply: TranscriptReply,
    runtime_generation: u64,
    verdict: Result<(), ContractError>,
)
    requires
        projection.apply_error(reply, runtime_generation, verdict) is None,
    ensures
        reply.result matches TranscriptResult::Page { after, cursor, .. } ==> {
            &&& projection.position() matches Some(current) && after.after_seq == current.after_seq
                && after.revision == current.revision && after.epoch == current.epoch
                && after.ledger_id@ == current.ledger_id@ && cursor.revision == current.revision
                && cursor.after_seq >= current.after_seq
        },
        reply.result matches TranscriptResult::Snapshot { cursor, .. } ==> (
        projection.position() matches Some(current) ==> cursor.revision > current.revision || (
        cursor.revision == current.revision && cursor.after_seq > current.after_seq)),
        reply.result is Reset ==> projection.position() is Some,
{
}

/// A reply of our own that goes forward, in order and approved, is accepted.
pub proof fn good_replies_are_accepted(
    projection: TranscriptProjection,
    reply: TranscriptReply,
    runtime_generation: u64,
    verdict: Result<(), ContractError>,
)
    requires
        runtime_generation == projection.bound().runtime_generation,
        projection.revision() < u64::MAX - 2,
        verdict is Ok,
        projection.anchor() matches Some(known) ==> known.host_id@ == reply.source.host_id@
            && known.profile_id@ == reply.source.profile_id@ && known.ledger_id@
            == reply.source.ledger_id@ && known.epoch == reply.source.epoch,
        reply.chunks().len() == 0,
    ensures
        reply.result is Reset && projection.position() is Some ==> projection.apply_error(
            reply,
            runtime_generation,
            verdict,
        ) is None,
        reply.result is Snapshot && projection.position() is None ==> projection.apply_error(
            reply,
            runtime_generation,
            verdict,
        ) is None,
        reply.result matches TranscriptResult::Snapshot { cursor, .. } && (
        projection.position() matches Some(current) && (cursor.revision > current.revision || (
        cursor.revision == current.revision && cursor.after_seq > current.after_seq)))
            ==> projection.apply_error(reply, runtime_generation, verdict) is None,
        reply.result matches TranscriptResult::Page { after, cursor, .. } && (
        projection.position() matches Some(current) && after == current && cursor.revision
            == current.revision && cursor.after_seq >= current.after_seq && current.after_seq
            < i64::MAX) ==> projection.apply_error(reply, runtime_generation, verdict) is None,
{
}

/// What a refused reply is told: a stale runtime, a foreign source, a position that is not ours,
/// or something that was read before.
pub proof fn refusals_say_why(
    projection: TranscriptProjection,
    reply: TranscriptReply,
    runtime_generation: u64,
    verdict: Result<(), ContractError>,
)
    requires
        projection.revision() < u64::MAX - 2,
    ensures
        ({
            let error = projection.apply_error(reply, runtime_generation, verdict);
            let current = runtime_generation == projection.bound().runtime_generation;
            let ours = projection.anchor() is None || projection.anchor() == Some(reply.source);
            &&& !current ==> error == Some(TranscriptApplyError::RuntimeGenerationMismatch)
            &&& current && !(reply.result is Snapshot) && projection.position() is None ==> error
                == Some(TranscriptApplyError::MissingCursor)
            &&& current && reply.result is Snapshot && verdict is Err ==> error == Some(
                TranscriptApplyError::InvalidReply(verdict->Err_0),
            )
            &&& current && verdict is Ok && (projection.anchor() matches Some(known)
                && known.epoch != reply.source.epoch) && projection.position() is Some ==> error
                == Some(TranscriptApplyError::SourceIdentityMismatch)
            &&& current && ours && verdict is Ok && reply.chunks().len() == 0 ==> {
                &&& (reply.result matches TranscriptResult::Snapshot { cursor, .. } && (
                projection.position() matches Some(at) && cursor.revision < at.revision)) ==> error
                    == Some(TranscriptApplyError::RevisionWentBackwards)
                &&& (reply.result matches TranscriptResult::Snapshot { cursor, .. } && (
                projection.position() matches Some(at) && cursor.revision == at.revision
                    && cursor.after_seq == at.after_seq)) ==> error == Some(
                    TranscriptApplyError::Duplicate,
                )
                &&& (reply.result matches TranscriptResult::Page { after, .. } && (
                projection.position() matches Some(at) && after.after_seq != at.after_seq))
                    ==> error == Some(TranscriptApplyError::CursorMismatch)
            }
        }),
{
}

/// A snapshot replaces what was retained, a page adds to it, and a reset empties it. Each of
/// them that changes the text makes the revision go up by two, and a page that brings nothing
/// new changes nothing.
pub proof fn replies_replace_extend_or_reset(
    before: TranscriptProjection,
    reply: TranscriptReply,
    after: TranscriptProjection,
)
    requires
        before.becomes(reply, after),
    ensures
        after.bound() == before.bound(),
        reply.result is Reset ==> after.retained().lines.len() == 0 && after.position() is None
            && !after.retained().omissions.prefix_omitted && after.anchor() == before.anchor(),
        reply.result matches TranscriptResult::Snapshot { cursor, chunks, prefix_omitted } ==> {
            &&& after.position() == Some(cursor)
            &&& after.anchor() == Some(reply.source)
            &&& prefix_omitted ==> after.retained().omissions.prefix_omitted
            &&& chunks@.len() == 0 ==> after.retained().lines.len() == 0
        },
        reply.result matches TranscriptResult::Page { cursor, chunks, .. } ==> {
            &&& after.anchor() == before.anchor()
            &&& (before.position() matches Some(at) && cursor.after_seq == at.after_seq)
                ==> after.retained() == before.retained() && after.position() == before.position()
                && after.revision() == before.revision()
            &&& (before.position() matches Some(at) && cursor.after_seq != at.after_seq)
                ==> after.position() == Some(cursor) && after.revision() == before.revision() + 2
        },
        !(reply.result is Page) ==> after.revision() == before.revision() + 2,
{
    if let TranscriptResult::Snapshot { chunks, prefix_omitted, .. } = reply.result {
        lemma_prefix_stays(fresh(prefix_omitted), chunks@, chunks@.len());
        lemma_trim_all(
            fresh(prefix_omitted).push_chunks(chunks@, chunks@.len()),
            fresh(prefix_omitted).push_chunks(chunks@, chunks@.len()),
        );
        if chunks@.len() == 0 {
            trimming_leaves_what_fits(fresh(prefix_omitted));
        }
    }
}

proof fn lemma_prefix_stays_normalized(st: Retained, data: Seq<char>, n: nat)
    requires
        st.omissions.prefix_omitted,
    ensures
        st.push_normalized(data, n).omissions.prefix_omitted,
    decreases n,
{
    if n > 0 {
        lemma_prefix_stays_normalized(st, data, (n - 1) as nat);
        let before = st.push_normalized(data, (n - 1) as nat);
        let next = before.push_chars(displayed(data[n - 1]));
        lemma_chars_alike(before, before, displayed(data[n - 1]));
        lemma_trim_all(next, next);
    }
}

proof fn lemma_prefix_stays(st: Retained, chunks: Seq<TranscriptChunk>, n: nat)
    requires
        n <= chunks.len(),
    ensures
        st.omissions.prefix_omitted ==> st.push_chunks(chunks, n).omissions.prefix_omitted,
    decreases n,
{
    if n > 0 && st.omissions.prefix_omitted {
        lemma_prefix_stays(st, chunks, (n - 1) as nat);
        let before = st.push_chunks(chunks, (n - 1) as nat);
        if let TranscriptContent::Text { data, omitted_prefix_bytes } = chunks[n - 1].content {
            let counted_prefix = Retained {
                omissions: TranscriptOmissions {
                    bytes: counted(before.omissions.bytes, omitted_prefix_bytes as nat),
                    ..before.omissions
                },
                ..before
            };
            lemma_prefix_stays_normalized(counted_prefix, data@, data@.len());
        }
    }
}

/// A snapshot of ordinary text that fits is what a reader sees: the text of its chunks.
pub proof fn readers_see_the_text_of_a_snapshot(
    before: TranscriptProjection,
    reply: TranscriptReply,
    after: TranscriptProjection,
)
    requires
        before.becomes(reply, after),
        reply.result is Snapshot,
        forall|i: int|
            0 <= i < source_text(reply.chunks()).len() ==> ordinary(
                #[trigger] source_text(reply.chunks())[i],
            ) || source_text(reply.chunks())[i] == '\n',
        before.whole_text(reply).lines.len() <= 4096,
        text_bytes(before.whole_text(reply).lines) <= 262_144,
    ensures
        text_of_lines(after.retained().lines) == source_text(reply.chunks()),
{
    if let TranscriptResult::Snapshot { chunks, prefix_omitted, .. } = reply.result {
        fitting_chunks_are_appended_whole(fresh(prefix_omitted), chunks@);
        assert(reply.chunks() == chunks@);
        ordinary_text_is_shown_as_it_is(source_text(reply.chunks()));
        assert(Seq::<char>::empty() + source_text(chunks@) =~= source_text(chunks@));
    }
}

/// A page of ordinary text that fits is read after what was there.
pub proof fn readers_see_pages_one_after_the_other(
    before: TranscriptProjection,
    reply: TranscriptReply,
    after: TranscriptProjection,
)
    requires
        before.becomes(reply, after),
        reply.result is Page,
        !before.unchanged_page(reply),
        forall|i: int|
            0 <= i < source_text(reply.chunks()).len() ==> ordinary(
                #[trigger] source_text(reply.chunks())[i],
            ) || source_text(reply.chunks())[i] == '\n',
        before.whole_text(reply).lines.len() <= 4096,
        text_bytes(before.whole_text(reply).lines) <= 262_144,
    ensures
        text_of_lines(after.retained().lines) == text_of_lines(before.retained().lines)
            + source_text(reply.chunks()),
{
    if let TranscriptResult::Page { chunks, .. } = reply.result {
        fitting_chunks_are_appended_whole(before.retained(), chunks@);
        assert(reply.chunks() == chunks@);
        ordinary_text_is_shown_as_it_is(source_text(reply.chunks()));
    }
}

/// What a source says it dropped is never forgotten while pages follow one another.
pub proof fn reported_drops_only_grow(known: Option<u64>, reported: Option<u64>)
    ensures
        known matches Some(old) ==> (observed_drop(known, reported) matches Some(new) && new >= old),
        reported matches Some(told) ==> (observed_drop(known, reported) matches Some(new) && new
            >= told && (new == told || known == Some(new))),
        reported is None ==> observed_drop(known, reported) == known,
{
}

/// Whatever is left out counts as an omission.
pub proof fn every_omission_counts(omissions: TranscriptOmissions)
    ensures
        omissions.prefix_omitted || omissions.chunks > 0 || omissions.bytes > 0 || omissions.lines
            > 0 <==> omissions.some(),
        !TranscriptOmissions::nothing().some(),
{
}

/// Each refusal of a reply has a text of its own.
pub proof fn refusals_have_their_own_text(
    error: TranscriptApplyError,
    detail: Seq<char>,
    reason: ContractError,
    expected: i64,
    actual: i64,
)
    ensures
        TranscriptApplyError::RuntimeGenerationMismatch.text(detail)
            == "Coven transcript runtime generation mismatch"@,
        TranscriptApplyError::InvalidReply(reason).text(detail)
            == "invalid Coven transcript reply: "@ + detail,
        TranscriptApplyError::SourceIdentityMismatch.text(detail)
            == "Coven transcript source identity mismatch"@,
        TranscriptApplyError::CursorMismatch.text(detail) == "Coven transcript cursor mismatch"@,
        TranscriptApplyError::MissingCursor.text(detail)
            == "Coven transcript has no cursor to page from"@,
        TranscriptApplyError::RevisionWentBackwards.text(detail)
            == "Coven transcript cursor revision went backwards"@,
        TranscriptApplyError::Duplicate.text(detail) == "duplicate Coven transcript response"@,
        (TranscriptApplyError::SequenceBackwards { expected, actual }).text(detail)
            == "Coven transcript sequence moved backwards: expected at least "@ + signed_decimal(
            expected as int,
        ) + ", got "@ + signed_decimal(actual as int),
        TranscriptApplyError::RevisionExhausted.text(detail)
            == "Coven transcript content revision exhausted"@,
{
}

/// Chunks that do not come one after the other are refused with what was expected and what
/// came instead.
pub proof fn chunks_out_of_order_are_told(chunks: Seq<TranscriptChunk>, after_seq: i64)
    ensures
        chunks.len() == 2 && chunks[0].seq < i64::MAX && chunks[1].seq <= chunks[0].seq
            ==> sequence_error(chunks, 0) == Some(
            TranscriptApplyError::SequenceBackwards {
                expected: (chunks[0].seq + 1) as i64,
                actual: chunks[1].seq,
            },
        ),
        chunks.len() == 2 && chunks[0].seq < chunks[1].seq ==> sequence_error(chunks, 0) is None,
        chunks.len() == 1 ==> sequence_error(chunks, 0) is None,
        chunks.len() > 0 && chunks[0].seq <= after_seq && after_seq < i64::MAX
            ==> page_sequence_error(after_seq, chunks) == Some(
            TranscriptApplyError::SequenceBackwards {
                expected: (after_seq + 1) as i64,
                actual: chunks[0].seq,
            },
        ),
        chunks.len() == 1 && chunks[0].seq > after_seq ==> page_sequence_error(after_seq, chunks)
            is None,
{
    reveal_with_fuel(sequence_error, 4);
}

/// What a caller is told of an accepted reply is what the text then is: its revision, and what
/// it left out.
pub proof fn reports_tell_what_was_left_out(
    projection: TranscriptProjection,
    replaced: bool,
    appended: bool,
)
    ensures
        ({
            let told = projection.report(replaced, appended);
            let left_out = projection.retained().omissions;
            &&& told.content_revision == projection.revision()
            &&& told.replaced == replaced
            &&& told.appended == appended
            &&& told.omitted_chunks == left_out.chunks
            &&& told.omitted_bytes == left_out.bytes
            &&& told.dropped_lines == left_out.lines
        }),
{
}

} // verus!
