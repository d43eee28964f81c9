//! Cutting text into pieces: at a separator, into lines, and at its ends.
use vstd::prelude::*;

use crate::text::{starts_with, texts};

verus! {

/// `pattern` stands in `text` at `i`.
pub open spec fn occurs_at(text: Seq<char>, pattern: Seq<char>, i: int) -> bool {
    &&& 0 <= i
    &&& i + pattern.len() <= text.len()
    &&& text.subrange(i, i + pattern.len()) == pattern
}

/// Where `pattern` first stands in `text` from `i` on, or else the end of `text`.
pub open spec fn find_from(text: Seq<char>, pattern: Seq<char>, i: nat) -> nat
    decreases text.len() - i,
{
    if i >= text.len() {
        text.len()
    } else if occurs_at(text, pattern, i as int) {
        i
    } else {
        find_from(text, pattern, i + 1)
    }
}

proof fn lemma_find_from(text: Seq<char>, pattern: Seq<char>, i: nat)
    requires
        i <= text.len(),
    ensures
        i <= find_from(text, pattern, i) <= text.len(),
        find_from(text, pattern, i) < text.len() ==> occurs_at(
            text,
            pattern,
            find_from(text, pattern, i) as int,
        ),
    decreases text.len() - i,
{
    if i < text.len() && !occurs_at(text, pattern, i as int) {
        lemma_find_from(text, pattern, i + 1);
    }
}

/// The pieces of `text` from `start` on, between the places where `pattern` stands.
pub open spec fn pieces(text: Seq<char>, pattern: Seq<char>, start: nat) -> Seq<Seq<char>>
    decreases text.len() - start,
{
    let at = find_from(text, pattern, start);
    if start > text.len() || pattern.len() == 0 || at < start {
        Seq::empty()
    } else if at + pattern.len() > text.len() {
        seq![text.subrange(start as int, text.len() as int)]
    } else {
        seq![text.subrange(start as int, at as int)] + pieces(text, pattern, at + pattern.len())
    }
}

/// The characters of `text`.
pub fn chars_of(text: &str) -> (r: Vec<char>)
    ensures
        r@ == text@,
{
    let mut chars: Vec<char> = Vec::new();
    for c in it: text.chars()
        invariant
            it.seq() == text@,
            chars@ == text@.take(it.index()),
    {
        chars.push(c);
        assert(chars@ =~= text@.take(it.index() + 1));
    }
    assert(chars@ =~= text@);
    chars
}

/// The text of some of `chars`.
pub fn text_between(chars: &Vec<char>, from: usize, to: usize) -> (r: String)
    requires
        from <= to <= chars@.len(),
    ensures
        r@ == chars@.subrange(from as int, to as int),
{
    let mut out: String = String::new();
    let mut i: usize = from;
    while i < to
        invariant
            from <= i <= to <= chars@.len(),
            out@ == chars@.subrange(from as int, i as int),
        decreases to - i,
    {
        out.push(chars[i]);
        i = i + 1;
        assert(out@ =~= chars@.subrange(from as int, i as int));
    }
    out
}

fn stands_at(chars: &Vec<char>, pattern: &Vec<char>, at: usize) -> (r: bool)
    requires
        at <= chars@.len(),
    ensures
        r == occurs_at(chars@, pattern@, at as int),
{
    let total: usize = chars.len();
    if pattern.len() > total - at {
        return false;
    }
    let mut i: usize = 0;
    while i < pattern.len()
        invariant
            i <= pattern@.len(),
            at + pattern@.len() <= total == chars@.len(),
            forall|j: int| 0 <= j < i ==> chars@[at + j] == #[trigger] pattern@[j],
        decreases pattern@.len() - i,
    {
        if chars[at + i] != pattern[i] {
            assert(chars@.subrange(at as int, at + pattern@.len())[i as int] != pattern@[i as int]);
            return false;
        }
        i = i + 1;
    }
    assert(chars@.subrange(at as int, at + pattern@.len()) =~= pattern@);
    true
}

fn position_from(chars: &Vec<char>, pattern: &Vec<char>, from: usize) -> (r: usize)
    requires
        from <= chars@.len(),
    ensures
        r == find_from(chars@, pattern@, from as nat),
{
    let mut i: usize = from;
    while i < chars.len()
        invariant
            from <= i <= chars@.len(),
            find_from(chars@, pattern@, from as nat) == find_from(chars@, pattern@, i as nat),
        decreases chars@.len() - i,
    {
        if stands_at(chars, pattern, i) {
            return i;
        }
        i = i + 1;
    }
    chars.len()
}

/// Cut `text` wherever `pattern` stands.
pub fn split(text: &str, pattern: &str) -> (r: Vec<String>)
    requires
        pattern@.len() > 0,
    ensures
        texts(r@) == pieces(text@, pattern@, 0),
        r@.len() > 0,
{
    let chars = chars_of(text);
    let separator = chars_of(pattern);
    let mut out: Vec<String> = Vec::new();
    let mut start: usize = 0;
    let mut at: usize = position_from(&chars, &separator, 0);
    proof {
        lemma_find_from(chars@, separator@, 0);
    }
    while at < chars.len()
        invariant
            chars@ == text@,
            separator@ == pattern@,
            separator@.len() > 0,
            start <= at <= chars@.len(),
            at == find_from(chars@, separator@, start as nat),
            at < chars@.len() ==> occurs_at(chars@, separator@, at as int),
            pieces(text@, pattern@, 0) == texts(out@) + pieces(text@, pattern@, start as nat),
        decreases chars@.len() - start,
    {
        let ghost before = out@;
        out.push(text_between(&chars, start, at));
        let next: usize = at + separator.len();
        proof {
            assert(texts(out@) =~= texts(before).push(text@.subrange(start as int, at as int)));
            assert(pieces(text@, pattern@, start as nat) =~= seq![
                text@.subrange(start as int, at as int),
            ] + pieces(text@, pattern@, next as nat));
            assert(texts(before) + (seq![text@.subrange(start as int, at as int)] + pieces(
                text@,
                pattern@,
                next as nat,
            )) =~= texts(out@) + pieces(text@, pattern@, next as nat));
        }
        start = next;
        at = position_from(&chars, &separator, start);
        proof {
            lemma_find_from(chars@, separator@, start as nat);
        }
    }
    let ghost before = out@;
    out.push(text_between(&chars, start, chars.len()));
    proof {
        assert(texts(out@) =~= texts(before) + seq![
            text@.subrange(start as int, text@.len() as int),
        ]);
    }
    out
}

/// A line without the carriage return before its line feed.
pub open spec fn without_return(line: Seq<char>) -> Seq<char> {
    if line.len() > 0 && line.last() == '\r' {
        line.drop_last()
    } else {
        line
    }
}

/// The lines of `text`, without their endings. The last one need not end.
pub open spec fn lines_of(text: Seq<char>) -> Seq<Seq<char>> {
    let parts = pieces(text, seq!['\n'], 0);
    let ended = Seq::new((parts.len() - 1) as nat, |i: int| without_return(parts[i]));
    if parts.last().len() == 0 {
        ended
    } else {
        ended.push(parts.last())
    }
}

/// Cut `text` into lines.
pub fn lines(text: &str) -> (r: Vec<String>)
    ensures
        texts(r@) == lines_of(text@),
{
    proof {
        reveal_strlit("\n");
        assert("\n"@ =~= seq!['\n']);
    }
    let parts = split(text, "\n");
    let ghost cut = pieces(text@, seq!['\n'], 0);
    assert(texts(parts@) == cut);
    let mut out: Vec<String> = Vec::new();
    let mut i: usize = 0;
    while i < parts.len() - 1
        invariant
            i <= parts@.len() - 1,
            parts@.len() > 0,
            texts(parts@) == cut,
            out@.len() == i,
            texts(out@) == Seq::new(i as nat, |j: int| without_return(cut[j])),
        decreases parts@.len() - i,
    {
        let line = chars_of(parts[i].as_str());
        let length: usize = line.len();
        assert(texts(parts@)[i as int] == parts@[i as int]@);
        let ghost before = out@;
        if length > 0 && line[length - 1] == '\r' {
            out.push(text_between(&line, 0, length - 1));
            assert(line@.subrange(0, length - 1) =~= line@.drop_last());
        } else {
            out.push(parts[i].clone());
        }
        i = i + 1;
        assert forall|j: int| 0 <= j < i implies (#[trigger] out@[j])@ == without_return(cut[j]) by {
            if j < i - 1 {
                assert(texts(before)[j] == before[j]@);
            }
        }
        assert(texts(out@) =~= Seq::new(i as nat, |j: int| without_return(cut[j])));
    }
    let last = &parts[parts.len() - 1];
    assert(texts(parts@)[parts@.len() - 1] == last@);
    assert(texts(parts@).len() == parts@.len());
    let ghost before = out@;
    if last.as_str().unicode_len() > 0 {
        out.push(last.clone());
        assert(texts(out@) =~= texts(before).push(last@));
    }
    out
}

/// Whether a character is white space.
pub open spec fn white_space(c: char) -> bool {
    let n = c as u32;
    ||| 0x09 <= n <= 0x0d
    ||| n == 0x20
    ||| n == 0x85
    ||| n == 0xa0
    ||| n == 0x1680
    ||| 0x2000 <= n <= 0x200a
    ||| n == 0x2028
    ||| n == 0x2029
    ||| n == 0x202f
    ||| n == 0x205f
    ||| n == 0x3000
}

fn is_white_space(c: char) -> (r: bool)
    ensures
        r == white_space(c),
{
    let n: u32 = c as u32;
    (0x09 <= n && n <= 0x0d) || n == 0x20 || n == 0x85 || n == 0xa0 || n == 0x1680 || (0x2000 <= n
        && n <= 0x200a) || n == 0x2028 || n == 0x2029 || n == 0x202f || n == 0x205f || n == 0x3000
}

/// How many characters from `i` on are white space.
pub open spec fn blank_until(text: Seq<char>, i: nat) -> nat
    decreases text.len() - i,
{
    if i < text.len() && white_space(text[i as int]) {
        blank_until(text, i + 1)
    } else {
        i
    }
}

/// Where the white space at the end of `text`, cut at `n`, begins.
pub open spec fn blank_from(text: Seq<char>, low: nat, n: nat) -> nat
    decreases n,
{
    if n > low && white_space(text[n - 1]) {
        blank_from(text, low, (n - 1) as nat)
    } else {
        n
    }
}

/// `text` without the white space at its ends.
pub open spec fn trimmed(text: Seq<char>) -> Seq<char> {
    let from = blank_until(text, 0);
    text.subrange(from as int, blank_from(text, from, text.len()) as int)
}

/// `text` without the white space at its ends.
pub fn trim(text: &str) -> (r: String)
    ensures
        r@ == trimmed(text@),
{
    let chars = chars_of(text);
    let mut from: usize = 0;
    while from < chars.len() && is_white_space(chars[from])
        invariant
            from <= chars@.len(),
            chars@ == text@,
            blank_until(text@, 0) == blank_until(text@, from as nat),
        decreases chars@.len() - from,
    {
        from = from + 1;
    }
    let mut to: usize = chars.len();
    while to > from && is_white_space(chars[to - 1])
        invariant
            from <= to <= chars@.len(),
            chars@ == text@,
            blank_from(text@, from as nat, text@.len()) == blank_from(
                text@,
                from as nat,
                to as nat,
            ),
        decreases to,
    {
        to = to - 1;
    }
    text_between(&chars, from, to)
}

/// The rest of `text` behind `prefix`, where it begins with it.
pub fn strip_prefix(text: &str, prefix: &str) -> (r: Option<String>)
    ensures
        r is Some <==> prefix@.is_prefix_of(text@),
        r matches Some(rest) ==> rest@ == text@.skip(prefix@.len() as int),
{
    if !starts_with(text, prefix) {
        return None;
    }
    let chars = chars_of(text);
    let from: usize = prefix.unicode_len();
    let rest = text_between(&chars, from, chars.len());
    assert(rest@ =~= text@.skip(prefix@.len() as int));
    Some(rest)
}

/// `text` ends with `suffix`.
pub open spec fn ends_with(text: Seq<char>, suffix: Seq<char>) -> bool {
    occurs_at(text, suffix, text.len() - suffix.len())
}

/// The part of `text` before `suffix`, where it ends with it.
pub fn strip_suffix(text: &str, suffix: &str) -> (r: Option<String>)
    ensures
        r is Some <==> ends_with(text@, suffix@),
        r matches Some(rest) ==> rest@ == text@.take(text@.len() - suffix@.len()),
{
    let chars = chars_of(text);
    let tail = chars_of(suffix);
    if tail.len() > chars.len() {
        return None;
    }
    let at: usize = chars.len() - tail.len();
    if !stands_at(&chars, &tail, at) {
        return None;
    }
    let rest = text_between(&chars, 0, at);
    assert(rest@ =~= text@.take(text@.len() - suffix@.len()));
    Some(rest)
}

/// The parts with `pattern` between each two of them.
pub open spec fn put_together(parts: Seq<Seq<char>>, pattern: Seq<char>) -> Seq<char>
    decreases parts.len(),
{
    if parts.len() == 0 {
        Seq::empty()
    } else if parts.len() == 1 {
        parts[0]
    } else {
        parts[0] + pattern + put_together(parts.skip(1), pattern)
    }
}

proof fn lemma_together(text: Seq<char>, pattern: Seq<char>, start: nat)
    requires
        pattern.len() > 0,
        start <= text.len(),
    ensures
        pieces(text, pattern, start).len() > 0,
        put_together(pieces(text, pattern, start), pattern) == text.skip(start as int),
    decreases text.len() - start,
{
    lemma_find_from(text, pattern, start);
    let at = find_from(text, pattern, start);
    let parts = pieces(text, pattern, start);
    if at + pattern.len() > text.len() {
        assert(text.subrange(start as int, text.len() as int) =~= text.skip(start as int));
    } else {
        let rest = pieces(text, pattern, at + pattern.len());
        lemma_together(text, pattern, at + pattern.len());
        assert(parts.skip(1) =~= rest);
        assert(text.subrange(at as int, (at + pattern.len()) as int) == pattern);
        assert(text.subrange(start as int, at as int) + text.subrange(
            at as int,
            (at + pattern.len()) as int,
        ) + text.skip((at + pattern.len()) as int) =~= text.skip(start as int));
    }
}

/// Splitting loses nothing: the pieces, put together again with the pattern between them, are
/// the text.
pub proof fn pieces_make_up_the_text(text: Seq<char>, pattern: Seq<char>)
    requires
        pattern.len() > 0,
    ensures
        pieces(text, pattern, 0).len() > 0,
        put_together(pieces(text, pattern, 0), pattern) == text,
{
    lemma_together(text, pattern, 0);
    assert(text.skip(0) =~= text);
}

proof fn lemma_none_before(text: Seq<char>, pattern: Seq<char>, i: nat, k: int)
    requires
        i <= k < find_from(text, pattern, i),
        i <= text.len(),
    ensures
        !occurs_at(text, pattern, k),
    decreases text.len() - i,
{
    if i < text.len() && !occurs_at(text, pattern, i as int) && k > i {
        lemma_none_before(text, pattern, i + 1, k);
    }
}

proof fn lemma_clean_pieces(text: Seq<char>, pattern: Seq<char>, start: nat, p: int, k: int)
    requires
        pattern.len() > 0,
        start <= text.len(),
        0 <= p < pieces(text, pattern, start).len(),
    ensures
        !occurs_at(pieces(text, pattern, start)[p], pattern, k),
    decreases text.len() - start,
{
    lemma_find_from(text, pattern, start);
    let at = find_from(text, pattern, start);
    let parts = pieces(text, pattern, start);
    if p > 0 {
        let rest = pieces(text, pattern, at + pattern.len());
        assert(parts[p] == rest[p - 1]);
        lemma_clean_pieces(text, pattern, at + pattern.len(), p - 1, k);
    } else {
        let piece = parts[0];
        if occurs_at(piece, pattern, k) {
            assert(text.subrange(start + k, start + k + pattern.len()) =~= piece.subrange(
                k,
                k + pattern.len(),
            ));
            assert(occurs_at(text, pattern, start + k));
            lemma_none_before(text, pattern, start, start + k);
        }
    }
}

/// No piece holds the pattern at which the text was split.
pub proof fn pieces_hold_no_pattern(text: Seq<char>, pattern: Seq<char>, p: int, k: int)
    requires
        pattern.len() > 0,
        0 <= p < pieces(text, pattern, 0).len(),
    ensures
        !occurs_at(pieces(text, pattern, 0)[p], pattern, k),
{
    lemma_clean_pieces(text, pattern, 0, p, k);
}

proof fn lemma_find_shift(text: Seq<char>, pattern: Seq<char>, cut: nat, i: nat)
    requires
        cut <= text.len(),
        i <= text.len() - cut,
    ensures
        find_from(text, pattern, cut + i) == cut + find_from(text.skip(cut as int), pattern, i),
    decreases text.len() - cut - i,
{
    let rest = text.skip(cut as int);
    if i < rest.len() {
        if i + pattern.len() <= rest.len() {
            assert(rest.subrange(i as int, (i + pattern.len()) as int) =~= text.subrange(
                (cut + i) as int,
                (cut + i + pattern.len()) as int,
            ));
        }
        assert(occurs_at(rest, pattern, i as int) == occurs_at(text, pattern, (cut + i) as int));
        if !occurs_at(rest, pattern, i as int) {
            lemma_find_shift(text, pattern, cut, i + 1);
        }
    }
}

proof fn lemma_pieces_shift(text: Seq<char>, pattern: Seq<char>, cut: nat, i: nat)
    requires
        pattern.len() > 0,
        cut <= text.len(),
        i <= text.len() - cut,
    ensures
        pieces(text, pattern, cut + i) == pieces(text.skip(cut as int), pattern, i),
    decreases text.len() - cut - i,
{
    let rest = text.skip(cut as int);
    lemma_find_shift(text, pattern, cut, i);
    lemma_find_from(rest, pattern, i);
    let at = find_from(rest, pattern, i);
    if at + pattern.len() > rest.len() {
        assert(rest.subrange(i as int, rest.len() as int) =~= text.subrange(
            (cut + i) as int,
            text.len() as int,
        ));
    } else {
        assert(rest.subrange(i as int, at as int) =~= text.subrange(
            (cut + i) as int,
            (cut + at) as int,
        ));
        lemma_pieces_shift(text, pattern, cut, at + pattern.len());
    }
}

proof fn lemma_find_first(head: Seq<char>, tail: Seq<char>, i: nat)
    requires
        i <= head.len(),
        forall|k: int| 0 <= k < head.len() ==> head[k] != '\n',
    ensures
        find_from(head + seq!['\n'] + tail, seq!['\n'], i) == head.len(),
    decreases head.len() - i,
{
    let text = head + seq!['\n'] + tail;
    let found = text.subrange(i as int, i as int + 1);
    if i < head.len() {
        assert(found[0] == head[i as int]);
        assert(seq!['\n'][0] == '\n');
        assert(!occurs_at(text, seq!['\n'], i as int));
        lemma_find_first(head, tail, i + 1);
    } else {
        assert(found =~= seq!['\n']);
        assert(occurs_at(text, seq!['\n'], i as int));
    }
}

/// A text is read line by line: what stands before the first line feed is the first line,
/// without a carriage return at its end, and the other lines are those of what follows.
pub proof fn lines_are_read_one_after_the_other(head: Seq<char>, tail: Seq<char>)
    requires
        forall|k: int| 0 <= k < head.len() ==> head[k] != '\n',
    ensures
        lines_of(head + seq!['\n'] + tail) == seq![
            if head.len() > 0 && head.last() == '\r' {
                head.drop_last()
            } else {
                head
            },
        ] + lines_of(tail),
{
    let text = head + seq!['\n'] + tail;
    let feed = seq!['\n'];
    lemma_find_first(head, tail, 0);
    let cut = head.len() + 1;
    lemma_pieces_shift(text, feed, cut, 0);
    lemma_together(tail, feed, 0);
    assert(text.skip(cut as int) =~= tail);
    assert(text.subrange(0, head.len() as int) =~= head);
    let parts = pieces(text, feed, 0);
    let rest = pieces(tail, feed, 0);
    assert(parts =~= seq![head] + rest);
    assert(parts.last() == rest.last());
    assert(lines_of(text) =~= seq![without_return(head)] + lines_of(tail));
}

/// A text without a line feed is one line, or none where it is empty.
pub proof fn last_line_needs_no_feed(text: Seq<char>)
    requires
        forall|k: int| 0 <= k < text.len() ==> text[k] != '\n',
    ensures
        text.len() > 0 ==> lines_of(text) == seq![text],
        text.len() == 0 ==> lines_of(text).len() == 0,
{
    let feed = seq!['\n'];
    lemma_find_from(text, feed, 0);
    let at = find_from(text, feed, 0);
    if at < text.len() {
        assert(text.subrange(at as int, at as int + 1)[0] == text[at as int]);
        assert(feed[0] == '\n');
    }
    assert(text.subrange(0, text.len() as int) =~= text);
    assert(pieces(text, feed, 0) =~= seq![text]);
    if text.len() > 0 {
        assert(lines_of(text) =~= seq![text]);
    }
}

/// The characters that stand for empty space.
pub open spec fn blanks() -> Seq<char> {
    seq![
        '\t',
        '\n',
        '\u{b}',
        '\u{c}',
        '\r',
        ' ',
        '\u{85}',
        '\u{a0}',
        '\u{1680}',
        '\u{2000}',
        '\u{2001}',
        '\u{2002}',
        '\u{2003}',
        '\u{2004}',
        '\u{2005}',
        '\u{2006}',
        '\u{2007}',
        '\u{2008}',
        '\u{2009}',
        '\u{200a}',
        '\u{2028}',
        '\u{2029}',
        '\u{202f}',
        '\u{205f}',
        '\u{3000}',
    ]
}

proof fn lemma_blank(c: char)
    ensures
        white_space(c) <==> blanks().contains(c),
{
    let all = blanks();
    if white_space(c) {
        let n = c as u32;
        let i: int = if n <= 0x0d {
            n - 0x09
        } else if n == 0x20 {
            5
        } else if n == 0x85 {
            6
        } else if n == 0xa0 {
            7
        } else if n == 0x1680 {
            8
        } else if n <= 0x200a {
            9 + (n - 0x2000)
        } else if n == 0x2028 {
            20
        } else if n == 0x2029 {
            21
        } else if n == 0x202f {
            22
        } else if n == 0x205f {
            23
        } else {
            24
        };
        assert(all[i] == c);
    }
}

proof fn lemma_blank_until(text: Seq<char>, i: nat)
    requires
        i <= text.len(),
    ensures
        i <= blank_until(text, i) <= text.len(),
        blank_until(text, i) < text.len() ==> !white_space(text[blank_until(text, i) as int]),
        forall|k: int| i <= k < blank_until(text, i) ==> white_space(#[trigger] text[k]),
    decreases text.len() - i,
{
    if i < text.len() && white_space(text[i as int]) {
        lemma_blank_until(text, i + 1);
    }
}

proof fn lemma_blank_from(text: Seq<char>, low: nat, n: nat)
    requires
        low <= n <= text.len(),
    ensures
        low <= blank_from(text, low, n) <= n,
        blank_from(text, low, n) > low ==> !white_space(text[blank_from(text, low, n) - 1]),
        forall|k: int| blank_from(text, low, n) <= k < n ==> white_space(#[trigger] text[k]),
    decreases n,
{
    if n > low && white_space(text[n - 1]) {
        lemma_blank_from(text, low, (n - 1) as nat);
    }
}

/// Trimming takes the empty space off both ends of a text and nothing else: what is left
/// begins and ends with something else.
pub proof fn trimming_takes_the_empty_space_off(text: Seq<char>)
    ensures
        trimmed(text).len() > 0 ==> !blanks().contains(trimmed(text)[0]) && !blanks().contains(
            trimmed(text).last(),
        ),
        exists|from: int, to: int|
            0 <= from <= to <= text.len() && trimmed(text) == #[trigger] text.subrange(from, to) && (
            forall|k: int| 0 <= k < from ==> blanks().contains(#[trigger] text[k])) && (forall|
                k: int,
            |
                to <= k < text.len() ==> blanks().contains(#[trigger] text[k])),
{
    let from = blank_until(text, 0);
    lemma_blank_until(text, 0);
    let to = blank_from(text, from, text.len());
    lemma_blank_from(text, from, text.len());
    assert forall|c: char| white_space(c) == #[trigger] blanks().contains(c) by {
        lemma_blank(c);
    }
    assert(trimmed(text) == text.subrange(from as int, to as int));
}

} // verus!
