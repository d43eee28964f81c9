//! Character and byte facts about text that the rest of the library shares.
use vstd::prelude::*;
use vstd::string::*;
use vstd::utf8::*;

verus! {

/// `str == str`: two string slices are equal exactly when they hold the same characters.
pub assume_specification[ <str as PartialEq<str>>::eq ](left: &str, right: &str) -> (r: bool)
    ensures
        r == (left@ == right@),
;

/// `String::push` appends one character.
pub assume_specification[ String::push ](s: &mut String, c: char)
    ensures
        final(s)@ == old(s)@.push(c),
;

/// `char::len_utf8` is the length of the character's UTF-8 encoding.
pub assume_specification[ char::len_utf8 ](c: char) -> (r: usize)
    ensures
        r == encode_scalar(c as u32).len(),
;

/// The number of bytes that `text` takes in UTF-8.
pub open spec fn byte_len(text: Seq<char>) -> nat {
    encode_utf8(text).len()
}

/// The number of bytes of `text`.
pub fn byte_count(text: &str) -> (r: usize)
    ensures
        r == byte_len(text@),
{
    text.as_bytes().len()
}

/// A C0 or C1 control character, or DEL.
pub open spec fn control(c: char) -> bool {
    c as u32 <= 0x1f || 0x7f <= c as u32 <= 0x9f
}

pub open spec fn has_control(text: Seq<char>) -> bool {
    exists|i: int| 0 <= i < text.len() && control(#[trigger] text[i])
}

/// Whether `c` is a control character.
pub fn is_control(c: char) -> (r: bool)
    ensures
        r == control(c),
{
    let code: u32 = c as u32;
    code <= 0x1f || (0x7f <= code && code <= 0x9f)
}

/// Whether any character of `text` is a control character.
pub fn contains_control(text: &str) -> (r: bool)
    ensures
        r == has_control(text@),
{
    let mut found: bool = false;
    for c in it: text.chars()
        invariant
            it.seq() == text@,
            found == exists|i: int| 0 <= i < it.index() && control(#[trigger] text@[i]),
    {
        if is_control(c) {
            found = true;
            assert(control(text@[it.index()]));
        }
    }
    found
}

/// Whether two texts hold the same characters.
pub fn same(left: &str, right: &str) -> (r: bool)
    ensures
        r == (left@ == right@),
{
    *left == *right
}

/// The width of one character in UTF-8.
pub open spec fn char_width(c: char) -> nat {
    encode_scalar(c as u32).len()
}

pub proof fn lemma_char_width(c: char)
    ensures
        1 <= char_width(c) <= 4,
{
}

pub proof fn lemma_encode_concat(a: Seq<char>, b: Seq<char>)
    ensures
        encode_utf8(a + b) == encode_utf8(a) + encode_utf8(b),
    decreases a.len(),
{
    if a.len() == 0 {
        assert(a + b =~= b);
        assert(encode_utf8(a) + encode_utf8(b) =~= encode_utf8(b));
    } else {
        lemma_encode_concat(a.drop_first(), b);
        assert((a + b).drop_first() =~= a.drop_first() + b);
        assert((a + b)[0] == a[0]);
        assert(encode_utf8(a + b) =~= encode_scalar(a[0] as u32) + (encode_utf8(a.drop_first())
            + encode_utf8(b)));
        assert(encode_utf8(a + b) =~= encode_utf8(a) + encode_utf8(b));
    }
}

/// Byte lengths add up under concatenation.
pub proof fn lemma_byte_len_concat(a: Seq<char>, b: Seq<char>)
    ensures
        byte_len(a + b) == byte_len(a) + byte_len(b),
{
    lemma_encode_concat(a, b);
}

pub proof fn lemma_byte_len_push(a: Seq<char>, c: char)
    ensures
        byte_len(a.push(c)) == byte_len(a) + char_width(c),
{
    lemma_encode_concat(a, seq![c]);
    assert(a.push(c) =~= a + seq![c]);
    assert(seq![c].drop_first() =~= Seq::<char>::empty());
    assert(encode_utf8(seq![c]) =~= encode_scalar(c as u32) + encode_utf8(Seq::<char>::empty()));
    assert(encode_utf8(seq![c]) =~= encode_scalar(c as u32));
}

pub proof fn lemma_byte_len_empty()
    ensures
        byte_len(Seq::<char>::empty()) == 0,
{
}

pub proof fn lemma_byte_len_take(text: Seq<char>, n: int)
    requires
        0 <= n < text.len(),
    ensures
        byte_len(text.take(n + 1)) == byte_len(text.take(n)) + char_width(text[n]),
{
    lemma_byte_len_push(text.take(n), text[n]);
    assert(text.take(n + 1) =~= text.take(n).push(text[n]));
}

/// A longer prefix takes at least as many bytes.
pub proof fn lemma_byte_len_prefix(text: Seq<char>, n: int, m: int)
    requires
        0 <= n <= m <= text.len(),
    ensures
        byte_len(text.take(n)) <= byte_len(text.take(m)),
{
    lemma_byte_len_concat(text.take(n), text.subrange(n, m));
    assert(text.take(n) + text.subrange(n, m) =~= text.take(m));
}

/// The number of leading characters, from `n` on, that stay within `limit` bytes.
pub open spec fn fitting_chars(text: Seq<char>, limit: nat, n: nat) -> nat
    decreases text.len() - n,
{
    if n < text.len() && byte_len(text.take(n as int + 1)) <= limit {
        fitting_chars(text, limit, n + 1)
    } else {
        n
    }
}

/// The longest prefix of `text` that takes at most `limit` bytes.
pub open spec fn bounded_prefix(text: Seq<char>, limit: nat) -> Seq<char> {
    text.take(fitting_chars(text, limit, 0) as int)
}

pub proof fn lemma_fitting_chars(text: Seq<char>, limit: nat, n: nat)
    requires
        n <= text.len(),
        byte_len(text.take(n as int)) <= limit,
    ensures
        n <= fitting_chars(text, limit, n) <= text.len(),
        byte_len(text.take(fitting_chars(text, limit, n) as int)) <= limit,
        fitting_chars(text, limit, n) < text.len() ==> byte_len(
            text.take(fitting_chars(text, limit, n) as int + 1),
        ) > limit,
    decreases text.len() - n,
{
    if n < text.len() && byte_len(text.take(n as int + 1)) <= limit {
        lemma_fitting_chars(text, limit, n + 1);
    }
}

/// The longest prefix of `text` that takes at most `limit` bytes.
pub fn truncated(text: &str, limit: usize) -> (r: String)
    ensures
        r@ == bounded_prefix(text@, limit as nat),
        byte_len(r@) <= limit,
        byte_len(text@) <= limit ==> r@ == text@,
{
    let mut kept: String = String::new();
    let mut bytes: usize = 0;
    let mut full: bool = false;
    proof {
        lemma_byte_len_empty();
        lemma_fitting_chars(text@, limit as nat, 0);
        assert(text@.take(0) =~= Seq::<char>::empty());
    }
    for c in it: text.chars()
        invariant
            it.seq() == text@,
            !full ==> kept@ == text@.take(it.index()) && bytes == byte_len(kept@) && bytes <= limit
                && fitting_chars(text@, limit as nat, 0) == fitting_chars(
                text@,
                limit as nat,
                it.index() as nat,
            ),
            full ==> kept@ == bounded_prefix(text@, limit as nat) && byte_len(text@) > limit,
    {
        proof {
            lemma_byte_len_take(text@, it.index());
            lemma_char_width(c);
            lemma_byte_len_prefix(text@, it.index() + 1, text@.len() as int);
            assert(text@.take(text@.len() as int) =~= text@);
        }
        if !full {
            let width: usize = c.len_utf8();
            if width <= limit - bytes {
                kept.push(c);
                bytes = bytes + width;
                assert(kept@ =~= text@.take(it.index() + 1));
            } else {
                full = true;
            }
        }
    }
    proof {
        assert(text@.take(text@.len() as int) =~= text@);
        if byte_len(text@) <= limit {
            assert(bounded_prefix(text@, limit as nat) =~= text@);
        }
    }
    kept
}

/// Whether `text` begins with `prefix`.
pub fn starts_with(text: &str, prefix: &str) -> (r: bool)
    ensures
        r == prefix@.is_prefix_of(text@),
{
    let length: usize = prefix.unicode_len();
    if text.unicode_len() < length {
        return false;
    }
    let head = text.substring_char(0, length);
    assert(head@ =~= text@.take(length as int));
    same(head, prefix)
}

/// One decimal digit.
pub open spec fn digit(n: nat) -> char {
    if n == 0 { '0' } else if n == 1 { '1' } else if n == 2 { '2' } else if n == 3 { '3' }
    else if n == 4 { '4' } else if n == 5 { '5' } else if n == 6 { '6' } else if n == 7 { '7' }
    else if n == 8 { '8' } else { '9' }
}

/// `n` in decimal, without leading zeros.
pub open spec fn decimal(n: nat) -> Seq<char>
    decreases n,
{
    if n < 10 {
        seq![digit(n)]
    } else {
        decimal(n / 10).push(digit(n % 10))
    }
}

/// `n` in decimal, with a minus sign where it is negative.
pub open spec fn signed_decimal(n: int) -> Seq<char> {
    if n < 0 {
        seq!['-'] + decimal((-n) as nat)
    } else {
        decimal(n as nat)
    }
}

fn push_decimal(out: &mut String, n: u64)
    ensures
        final(out)@ == old(out)@ + decimal(n as nat),
    decreases n,
{
    if n >= 10 {
        push_decimal(out, n / 10);
    }
    let last: u64 = n % 10;
    let c: char = match last {
        0 => '0',
        1 => '1',
        2 => '2',
        3 => '3',
        4 => '4',
        5 => '5',
        6 => '6',
        7 => '7',
        8 => '8',
        _ => '9',
    };
    out.push(c);
    assert(out@ =~= old(out)@ + decimal(n as nat));
}

/// `n` in decimal.
pub fn decimal_text(n: u64) -> (r: String)
    ensures
        r@ == decimal(n as nat),
{
    let mut out: String = String::new();
    push_decimal(&mut out, n);
    assert(out@ =~= decimal(n as nat));
    out
}

/// `n` in decimal, with a minus sign where it is negative.
pub fn signed_decimal_text(n: i64) -> (r: String)
    ensures
        r@ == signed_decimal(n as int),
{
    let mut out: String = String::new();
    if n < 0 {
        out.push('-');
        let magnitude: u64 = (-(n as i128)) as u64;
        push_decimal(&mut out, magnitude);
    } else {
        push_decimal(&mut out, n as u64);
    }
    assert(out@ =~= signed_decimal(n as int));
    out
}

/// One lower-case hexadecimal digit.
pub open spec fn hex_digit(n: nat) -> char {
    if n == 0 { '0' } else if n == 1 { '1' } else if n == 2 { '2' } else if n == 3 { '3' }
    else if n == 4 { '4' } else if n == 5 { '5' } else if n == 6 { '6' } else if n == 7 { '7' }
    else if n == 8 { '8' } else if n == 9 { '9' } else if n == 10 { 'a' } else if n == 11 { 'b' }
    else if n == 12 { 'c' } else if n == 13 { 'd' } else if n == 14 { 'e' } else { 'f' }
}

/// The character for a hexadecimal digit.
pub fn hex_char(n: u32) -> (r: char)
    requires
        n < 16,
    ensures
        r == hex_digit(n as nat),
{
    match n {
        0 => '0',
        1 => '1',
        2 => '2',
        3 => '3',
        4 => '4',
        5 => '5',
        6 => '6',
        7 => '7',
        8 => '8',
        9 => '9',
        10 => 'a',
        11 => 'b',
        12 => 'c',
        13 => 'd',
        14 => 'e',
        _ => 'f',
    }
}

/// The text of an optional string.
pub open spec fn text_of(value: Option<String>) -> Option<Seq<char>> {
    match value {
        Some(text) => Some(text@),
        None => None,
    }
}

/// The texts of some strings.
pub open spec fn texts(values: Seq<String>) -> Seq<Seq<char>> {
    Seq::new(values.len(), |i: int| values[i]@)
}

/// The contents of some paths.
pub open spec fn paths(values: Seq<Vec<u8>>) -> Seq<Seq<u8>> {
    Seq::new(values.len(), |i: int| values[i]@)
}

/// Whether one of `values` is `text`.
pub fn contains_text(values: &Vec<String>, text: &str) -> (r: bool)
    ensures
        r == texts(values@).contains(text@),
{
    let mut i: usize = 0;
    while i < values.len()
        invariant
            i <= values@.len(),
            forall|j: int| 0 <= j < i ==> (#[trigger] values@[j])@ != text@,
        decreases values@.len() - i,
    {
        if same(values[i].as_str(), text) {
            assert(texts(values@)[i as int] == text@);
            return true;
        }
        i = i + 1;
    }
    assert(!texts(values@).contains(text@)) by {
        if texts(values@).contains(text@) {
            let j = choose|j: int| 0 <= j < texts(values@).len() && texts(values@)[j] == text@;
            assert(values@[j]@ == text@);
        }
    }
    false
}

/// Whether two byte strings are equal.
pub fn same_bytes(a: &Vec<u8>, b: &Vec<u8>) -> (r: bool)
    ensures
        r == (a@ == b@),
{
    if a.len() != b.len() {
        return false;
    }
    let mut i: usize = 0;
    while i < a.len()
        invariant
            i <= a@.len() == b@.len(),
            forall|j: int| 0 <= j < i ==> #[trigger] a@[j] == b@[j],
        decreases a@.len() - i,
    {
        if a[i] != b[i] {
            assert(a@[i as int] != b@[i as int]);
            return false;
        }
        i = i + 1;
    }
    assert(a@ =~= b@);
    true
}

/// The value of a decimal digit.
pub open spec fn digit_value(c: char) -> nat {
    (c as int - '0' as int) as nat
}

pub open spec fn is_digit(c: char) -> bool {
    '0' <= c <= '9'
}

/// The number that digits stand for.
pub open spec fn digits_value(digits: Seq<char>) -> nat
    decreases digits.len(),
{
    if digits.len() == 0 {
        0
    } else {
        digits_value(digits.drop_last()) * 10 + digit_value(digits.last())
    }
}

/// The digits of a number, behind a plus sign if there is one.
pub open spec fn digits_of(text: Seq<char>) -> Seq<char> {
    if text.len() > 0 && text[0] == '+' {
        text.skip(1)
    } else {
        text
    }
}

/// The number that a text stands for: digits, with a plus sign before them or without.
pub open spec fn number_of(text: Seq<char>) -> Option<nat> {
    let digits = digits_of(text);
    if digits.len() > 0 && forall|i: int| 0 <= i < digits.len() ==> is_digit(#[trigger] digits[i]) {
        Some(digits_value(digits))
    } else {
        None
    }
}

proof fn lemma_digits_grow(digits: Seq<char>, n: int, m: int)
    requires
        0 <= n <= m <= digits.len(),
    ensures
        digits_value(digits.take(n)) <= digits_value(digits.take(m)),
    decreases m,
{
    if n < m {
        lemma_digits_grow(digits, n, m - 1);
        assert(digits.take(m).drop_last() =~= digits.take(m - 1));
    }
}

/// The number that a text stands for, where it fits in 64 bits.
pub fn parse_number(text: &str) -> (r: Option<u64>)
    ensures
        match number_of(text@) {
            Some(n) => if n <= u64::MAX {
                r == Some(n as u64)
            } else {
                r is None
            },
            None => r is None,
        },
{
    let chars: Vec<char> = crate::lines::chars_of(text);
    let start: usize = if chars.len() > 0 && chars[0] == '+' {
        1
    } else {
        0
    };
    let ghost digits = digits_of(text@);
    assert(digits =~= text@.skip(start as int));
    if start == chars.len() {
        return None;
    }
    let mut value: u64 = 0;
    let mut i: usize = start;
    while i < chars.len()
        invariant
            start <= i <= chars@.len(),
            chars@ == text@,
            digits == text@.skip(start as int),
            digits == digits_of(text@),
            forall|j: int| 0 <= j < i - start ==> is_digit(#[trigger] digits[j]),
            value == digits_value(digits.take(i - start)),
        decreases chars@.len() - i,
    {
        let c: char = chars[i];
        assert(c == digits[i - start]);
        if c < '0' || c > '9' {
            return None;
        }
        let digit: u64 = (c as u32 - '0' as u32) as u64;
        proof {
            assert(digits.take(i + 1 - start).drop_last() =~= digits.take(i - start));
            lemma_digits_grow(digits, i + 1 - start, digits.len() as int);
            assert(digits.take(digits.len() as int) =~= digits);
        }
        value = match value.checked_mul(10) {
            Some(tens) => match tens.checked_add(digit) {
                Some(value) => value,
                None => {
                    return None;
                },
            },
            None => {
                return None;
            },
        };
        i = i + 1;
    }
    assert(digits.take(i - start) =~= digits);
    Some(value)
}

/// What `String::from_utf8_lossy` makes of some bytes.
pub uninterp spec fn lossy(bytes: Seq<u8>) -> Seq<char>;

/// `String::from_utf8_lossy`, with the text it gives owned: bytes that are valid UTF-8 become
/// the text they encode. What stands in for bytes that are not is only named.
#[verifier::external_body]
pub(crate) fn lossy_text(bytes: &[u8]) -> (r: String)
    ensures
        r@ == lossy(bytes@),
        valid_utf8(bytes@) ==> r@ == decode_utf8(bytes@),
{
    String::from_utf8_lossy(bytes).into_owned()
}

proof fn lemma_all_fit(text: Seq<char>, limit: nat, n: nat)
    requires
        byte_len(text) <= limit,
        n <= text.len(),
    ensures
        fitting_chars(text, limit, n) == text.len(),
    decreases text.len() - n,
{
    if n < text.len() {
        lemma_byte_len_prefix(text, n as int + 1, text.len() as int);
        assert(text.take(text.len() as int) =~= text);
        lemma_all_fit(text, limit, n + 1);
    }
}

/// A text that fits is not cut.
pub proof fn whole_text_fits(text: Seq<char>, limit: nat)
    requires
        byte_len(text) <= limit,
    ensures
        bounded_prefix(text, limit) == text,
{
    lemma_all_fit(text, limit, 0);
    assert(text.take(text.len() as int) =~= text);
}

/// A text is cut at a character, and no earlier than the limit asks: it begins as the text does,
/// fits, and would not fit with one more character.
pub proof fn texts_are_cut_at_the_limit(text: Seq<char>, limit: nat)
    ensures
        bounded_prefix(text, limit).is_prefix_of(text),
        byte_len(bounded_prefix(text, limit)) <= limit,
        bounded_prefix(text, limit).len() < text.len() ==> byte_len(
            text.take(bounded_prefix(text, limit).len() as int + 1),
        ) > limit,
{
    lemma_byte_len_empty();
    assert(text.take(0) =~= Seq::<char>::empty());
    lemma_fitting_chars(text, limit, 0);
}

/// Control characters are those below the space, and those from delete to the end of the
/// second block of controls.
pub proof fn controls_are_where_they_are(c: char)
    ensures
        (c as u32) < 0x20 ==> control(c),
        0x20 <= c as u32 <= 0x7e ==> !control(c),
        0x7f <= c as u32 <= 0x9f ==> control(c),
        c as u32 >= 0xa0 ==> !control(c),
{
}

/// Numbers are spelled so that they read back: digits alone, the value they stand for, and no
/// zero before another digit.
pub proof fn numbers_read_back(n: nat)
    ensures
        number_of(decimal(n)) == Some(n),
        forall|i: int| 0 <= i < decimal(n).len() ==> is_digit(#[trigger] decimal(n)[i]),
        decimal(n).len() >= 1,
        decimal(n).len() > 1 ==> decimal(n)[0] != '0',
{
    lemma_decimal(n);
    assert(digits_of(decimal(n)) == decimal(n));
}

proof fn lemma_decimal(n: nat)
    ensures
        digits_value(decimal(n)) == n,
        forall|i: int| 0 <= i < decimal(n).len() ==> is_digit(#[trigger] decimal(n)[i]),
        decimal(n).len() >= 1,
        n > 0 ==> decimal(n)[0] != '0',
        decimal(n).len() > 1 ==> n >= 10,
    decreases n,
{
    if n < 10 {
        assert(decimal(n).drop_last() =~= Seq::<char>::empty());
        assert(digits_value(decimal(n).drop_last()) == 0);
        assert(decimal(n).last() == digit(n));
    } else {
        lemma_decimal(n / 10);
        assert(decimal(n).drop_last() =~= decimal(n / 10));
        assert(decimal(n).last() == digit(n % 10));
        assert(decimal(n)[0] == decimal(n / 10)[0]);
    }
}

/// A digit stands for its own value, and so do rows of them in the order of their places.
pub proof fn digits_stand_for_their_values(digits: Seq<char>, c: char)
    requires
        is_digit(c),
    ensures
        digits_value(digits.push(c)) == digits_value(digits) * 10 + (c as int - '0' as int),
        digits_value(Seq::empty()) == 0,
        digit_value('0') == 0 && digit_value('9') == 9,
        hex_digit(0) == '0' && hex_digit(9) == '9' && hex_digit(10) == 'a' && hex_digit(15) == 'f',
{
    assert(digits.push(c).drop_last() =~= digits);
}

/// Only digits are numbers, with a plus sign before them if there is one.
pub proof fn only_digits_are_numbers(text: Seq<char>)
    ensures
        text.len() == 0 ==> number_of(text) is None,
        number_of(text) is Some ==> forall|i: int|
            1 <= i < text.len() ==> '0' <= #[trigger] text[i] <= '9',
        text.len() > 0 && !('0' <= text[0] <= '9') && text[0] != '+' ==> number_of(text) is None,
        text.len() > 0 && text[0] == '-' ==> number_of(text) is None,
{
    if number_of(text) is Some {
        let digits = digits_of(text);
        assert forall|i: int| 1 <= i < text.len() implies '0' <= #[trigger] text[i] <= '9' by {
            if text[0] == '+' {
                assert(is_digit(digits[i - 1]));
            } else {
                assert(is_digit(digits[i]));
            }
        }
    }
    if text.len() > 0 && !('0' <= text[0] <= '9') && text[0] != '+' {
        assert(!is_digit(digits_of(text)[0]));
    }
}

/// Each hexadecimal digit stands for its own value, and each decimal digit for its own.
pub proof fn hexadecimal_digits_stand_for_their_values(n: nat)
    ensures
        n < 10 ==> hex_digit(n) as nat == '0' as nat + n,
        10 <= n < 16 ==> hex_digit(n) as nat == 'a' as nat + (n - 10),
        n < 10 ==> digit(n) as nat == '0' as nat + n,
{
}

} // verus!
