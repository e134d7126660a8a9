//! Text primitives: comparison, trimming, splitting and number rendering over
//! the characters of a string.
use vstd::prelude::*;
use vstd::string::*;
use vstd::utf8::*;

verus! {

/// `String::push`: appends the given character to the end of the string.
pub assume_specification[ String::push ](target: &mut String, ch: char)
    ensures
        final(target)@ == old(target)@.push(ch),
;

/// The characters of an optional text.
pub open spec fn text_of(value: Option<String>) -> Option<Seq<char>> {
    match value {
        Some(text) => Some(text@),
        None => None,
    }
}

/// The characters of an optional borrowed text.
pub open spec fn str_of(value: Option<&str>) -> Option<Seq<char>> {
    match value {
        Some(text) => Some(text@),
        None => None,
    }
}

/// The characters of each text of a list.
pub open spec fn texts(values: Seq<String>) -> Seq<Seq<char>> {
    Seq::new(values.len(), |i: int| values[i]@)
}

/// Number of bytes that `chars` takes in UTF-8.
pub open spec fn byte_len(chars: Seq<char>) -> nat {
    encode_utf8(chars).len()
}

/// Number of bytes that a text takes in UTF-8.
pub fn byte_count(text: &str) -> (bytes: usize)
    ensures
        bytes == byte_len(text@),
{
    text.as_bytes().len()
}

/// The text that bytes are read as where they need not be UTF-8.
pub uninterp spec fn lossy_text(bytes: Seq<u8>) -> Seq<char>;

/// `String::from_utf8_lossy`: what is read depends on the bytes alone; bytes
/// that are UTF-8 are read as the text that they encode.
#[verifier::external_body]
pub(crate) fn decode_lossy(bytes: &[u8]) -> (decoded: String)
    ensures
        decoded@ == lossy_text(bytes@),
        valid_utf8(bytes@) ==> decoded@ == decode_utf8(bytes@),
{
    String::from_utf8_lossy(bytes).into_owned()
}

/// Two texts with the same bytes hold the same characters.
pub proof fn lemma_bytes_determine_text(a: Seq<char>, b: Seq<char>)
    ensures
        encode_utf8(a) == encode_utf8(b) ==> a == b,
{
    encode_utf8_decode_utf8(a);
    encode_utf8_decode_utf8(b);
}

/// Whether two texts hold the same characters.
pub fn same_text(a: &str, b: &str) -> (same: bool)
    ensures
        same == (a@ == b@),
{
    let left = a.as_bytes();
    let right = b.as_bytes();
    proof {
        lemma_bytes_determine_text(a@, b@);
    }
    if left.len() != right.len() {
        return false;
    }
    let mut i: usize = 0;
    while i < left.len()
        invariant
            i <= left@.len(),
            left@.len() == right@.len(),
            left@ == encode_utf8(a@),
            right@ == encode_utf8(b@),
            forall|j: int| 0 <= j < i ==> left@[j] == right@[j],
        decreases left@.len() - i,
    {
        if left[i] != right[i] {
            return false;
        }
        i = i + 1;
    }
    assert(left@ =~= right@);
    true
}

/// Whether an optional text is present and equal to `wanted`.
pub fn is_text(value: Option<&str>, wanted: &str) -> (same: bool)
    ensures
        same == (str_of(value) == Some(wanted@)),
{
    match value {
        Some(text) => same_text(text, wanted),
        None => false,
    }
}

/// A borrowed view of an optional text.
pub fn as_text(value: &Option<String>) -> (text: Option<&str>)
    ensures
        str_of(text) == text_of(*value),
{
    match value {
        Some(text) => Some(text.as_str()),
        None => None,
    }
}

/// An owned copy of an optional text.
pub fn copy_text(value: &Option<String>) -> (copy: Option<String>)
    ensures
        text_of(copy) == text_of(*value),
{
    match value {
        Some(text) => Some(text.clone()),
        None => None,
    }
}

/// An owned copy of an optional borrowed text.
pub fn own_text(value: Option<&str>) -> (copy: Option<String>)
    ensures
        text_of(copy) == str_of(value),
{
    match value {
        Some(text) => Some(text.to_owned()),
        None => None,
    }
}

/// The characters of a text, one by one.
pub fn chars_of(text: &str) -> (chars: Vec<char>)
    ensures
        chars@ == text@,
{
    let mut chars: Vec<char> = Vec::new();
    for ch in iter: text.chars()
        invariant
            iter.seq() == text@,
            chars@ == text@.take(iter.index() as int),
    {
        chars.push(ch);
        assert(text@.take(iter.index() as int).push(ch) =~= text@.take(iter.index() + 1));
    }
    assert(text@.take(text@.len() as int) =~= text@);
    chars
}

/// The text of the characters from `from` up to `to`.
pub fn text_from_chars(chars: &Vec<char>, from: usize, to: usize) -> (text: String)
    requires
        from <= to <= chars@.len(),
    ensures
        text@ == chars@.subrange(from as int, to as int),
{
    let mut text = String::new();
    let mut i: usize = from;
    while i < to
        invariant
            from <= i <= to <= chars@.len(),
            text@ == chars@.subrange(from as int, i as int),
        decreases to - i,
    {
        text.push(chars[i]);
        assert(chars@.subrange(from as int, i as int).push(chars@[i as int])
            =~= chars@.subrange(from as int, i + 1));
        i = i + 1;
    }
    text
}

/// Concatenation of two texts.
pub fn joined(a: &str, b: &str) -> (text: String)
    ensures
        text@ == a@ + b@,
{
    let mut text = a.to_owned();
    text.append(b);
    text
}

/// Whether `text` begins with `prefix`.
pub open spec fn begins_with(text: Seq<char>, prefix: Seq<char>) -> bool {
    prefix.len() <= text.len() && text.take(prefix.len() as int) == prefix
}

/// Whether `text` ends with `suffix`.
pub open spec fn finishes_with(text: Seq<char>, suffix: Seq<char>) -> bool {
    suffix.len() <= text.len() && text.skip(text.len() - suffix.len()) == suffix
}

/// Whether `text` begins with `prefix`.
pub fn has_prefix(text: &str, prefix: &str) -> (found: bool)
    ensures
        found == begins_with(text@, prefix@),
{
    let length = prefix.unicode_len();
    if text.unicode_len() < length {
        return false;
    }
    same_text(text.substring_char(0, length), prefix)
}

/// Whether `text` ends with `suffix`.
pub fn has_suffix(text: &str, suffix: &str) -> (found: bool)
    ensures
        found == finishes_with(text@, suffix@),
{
    let total = text.unicode_len();
    let length = suffix.unicode_len();
    if total < length {
        return false;
    }
    same_text(text.substring_char(total - length, total), suffix)
}

/// Whether one of the characters of `text` is `wanted`.
pub fn has_char(text: &str, wanted: char) -> (found: bool)
    ensures
        found == text@.contains(wanted),
{
    let chars = chars_of(text);
    let mut i: usize = 0;
    while i < chars.len()
        invariant
            i <= chars@.len(),
            chars@ == text@,
            forall|j: int| 0 <= j < i ==> chars@[j] != wanted,
        decreases chars@.len() - i,
    {
        if chars[i] == wanted {
            assert(text@[i as int] == wanted);
            return true;
        }
        i = i + 1;
    }
    false
}

/// Whether `text` is one of `values`.
pub fn is_one_of(text: &str, values: &[&str]) -> (found: bool)
    ensures
        found == (exists|i: int| 0 <= i < values@.len() && #[trigger] values@[i]@ == text@),
{
    let mut i: usize = 0;
    while i < values.len()
        invariant
            i <= values@.len(),
            forall|j: int| 0 <= j < i ==> #[trigger] values@[j]@ != text@,
        decreases values@.len() - i,
    {
        if same_text(values[i], text) {
            assert(values@[i as int]@ == text@);
            return true;
        }
        i = i + 1;
    }
    false
}

// ---- White space -------------------------------------------------------

/// The Unicode `White_Space` property.
pub open spec fn is_white_space(ch: char) -> bool {
    let code = ch as u32;
    ||| 0x09 <= code <= 0x0d
    ||| code == 0x20
    ||| code == 0x85
    ||| code == 0xa0
    ||| code == 0x1680
    ||| 0x2000 <= code <= 0x200a
    ||| code == 0x2028
    ||| code == 0x2029
    ||| code == 0x202f
    ||| code == 0x205f
    ||| code == 0x3000
}

/// Whether a character has the Unicode `White_Space` property.
pub fn is_whitespace(ch: char) -> (white: bool)
    ensures
        white == is_white_space(ch),
{
    let code: u32 = ch as u32;
    (0x09 <= code && code <= 0x0d) || code == 0x20 || code == 0x85 || code == 0xa0 || code == 0x1680
        || (0x2000 <= code && code <= 0x200a) || code == 0x2028 || code == 0x2029 || code == 0x202f
        || code == 0x205f || code == 0x3000
}

/// `text` without its leading white space.
pub open spec fn trimmed_start(text: Seq<char>) -> Seq<char>
    decreases text.len(),
{
    if text.len() > 0 && is_white_space(text[0]) {
        trimmed_start(text.drop_first())
    } else {
        text
    }
}

/// `text` without its trailing white space.
pub open spec fn trimmed_end(text: Seq<char>) -> Seq<char>
    decreases text.len(),
{
    if text.len() > 0 && is_white_space(text.last()) {
        trimmed_end(text.drop_last())
    } else {
        text
    }
}

/// `text` without the white space at its two ends.
pub open spec fn trimmed(text: Seq<char>) -> Seq<char> {
    trimmed_end(trimmed_start(text))
}

/// A text that neither begins nor ends with white space is its own trimming.
pub proof fn lemma_trimmed_unchanged(text: Seq<char>)
    requires
        text.len() > 0 ==> !is_white_space(text[0]) && !is_white_space(text.last()),
    ensures
        trimmed(text) == text,
{
}

/// What trimming leaves begins and ends with no white space.
pub proof fn lemma_trimmed_ends(text: Seq<char>)
    ensures
        trimmed(text).len() > 0 ==> !is_white_space(trimmed(text)[0]) && !is_white_space(
            trimmed(text).last(),
        ),
{
    lemma_trimmed_start_head(text);
    lemma_trimmed_end_tail(trimmed_start(text));
}

proof fn lemma_trimmed_start_head(text: Seq<char>)
    ensures
        trimmed_start(text).len() > 0 ==> !is_white_space(trimmed_start(text)[0]),
    decreases text.len(),
{
    if text.len() > 0 && is_white_space(text[0]) {
        lemma_trimmed_start_head(text.drop_first());
    }
}

/// Trimming the end leaves a start that ends with no white space.
pub proof fn lemma_trimmed_end_tail(text: Seq<char>)
    ensures
        trimmed_end(text).len() <= text.len(),
        trimmed_end(text) == text.take(trimmed_end(text).len() as int),
        trimmed_end(text).len() > 0 ==> !is_white_space(trimmed_end(text).last()),
    decreases text.len(),
{
    if text.len() > 0 && is_white_space(text.last()) {
        lemma_trimmed_end_tail(text.drop_last());
        assert(trimmed_end(text) =~= text.take(trimmed_end(text).len() as int));
    } else {
        assert(text =~= text.take(text.len() as int));
    }
}

/// `text` without its trailing white space.
pub fn trim_end(text: &str) -> (rest: &str)
    ensures
        rest@ == trimmed_end(text@),
{
    let chars = chars_of(text);
    let mut end: usize = chars.len();
    assert(text@.take(end as int) =~= text@);
    while end > 0 && is_whitespace(chars[end - 1])
        invariant
            chars@ == text@,
            end <= chars@.len(),
            trimmed_end(text@) == trimmed_end(text@.take(end as int)),
        decreases end,
    {
        assert(text@.take(end as int).drop_last() =~= text@.take(end - 1));
        assert(text@.take(end as int).last() == text@[end - 1]);
        end = end - 1;
    }
    assert(text@.take(end as int) =~= text@.subrange(0, end as int));
    text.substring_char(0, end)
}

/// `text` without its leading white space.
pub fn trim_start(text: &str) -> (rest: &str)
    ensures
        rest@ == trimmed_start(text@),
{
    let chars = chars_of(text);
    let mut start: usize = 0;
    assert(text@.skip(0) =~= text@);
    while start < chars.len() && is_whitespace(chars[start])
        invariant
            chars@ == text@,
            start <= chars@.len(),
            trimmed_start(text@) == trimmed_start(text@.skip(start as int)),
        decreases chars@.len() - start,
    {
        assert(text@.skip(start as int).drop_first() =~= text@.skip(start + 1));
        assert(text@.skip(start as int)[0] == text@[start as int]);
        start = start + 1;
    }
    assert(text@.skip(start as int) =~= text@.subrange(start as int, text@.len() as int));
    text.substring_char(start, chars.len())
}

/// `text` without the white space at its two ends.
pub fn trim(text: &str) -> (rest: &str)
    ensures
        rest@ == trimmed(text@),
{
    trim_end(trim_start(text))
}

// ---- Splitting ---------------------------------------------------------

/// Index of the first `wanted` in `text`, or the length of `text`.
pub open spec fn first_index(text: Seq<char>, wanted: char) -> nat
    decreases text.len(),
{
    if text.len() == 0 {
        0
    } else if text[0] == wanted {
        0
    } else {
        first_index(text.drop_first(), wanted) + 1
    }
}

/// `first_index` is the first place where `wanted` stands.
pub proof fn lemma_first_index(text: Seq<char>, wanted: char)
    ensures
        first_index(text, wanted) <= text.len(),
        first_index(text, wanted) < text.len() ==> text[first_index(text, wanted) as int] == wanted,
        forall|j: int| 0 <= j < first_index(text, wanted) ==> text[j] != wanted,
    decreases text.len(),
{
    if text.len() > 0 && text[0] != wanted {
        let rest = text.drop_first();
        lemma_first_index(rest, wanted);
        assert forall|j: int| 0 <= j < first_index(text, wanted) implies text[j] != wanted by {
            if j > 0 {
                assert(rest[j - 1] == text[j]);
            }
        }
    }
}

/// A place that is the first one where `wanted` stands is `first_index`.
pub proof fn lemma_first_index_is(text: Seq<char>, wanted: char, at: int)
    requires
        0 <= at <= text.len(),
        at < text.len() ==> text[at] == wanted,
        forall|j: int| 0 <= j < at ==> text[j] != wanted,
    ensures
        first_index(text, wanted) == at,
{
    lemma_first_index(text, wanted);
}

/// The pieces of `text` between the separators, in order: one more than there
/// are separators.
pub open spec fn split_on(text: Seq<char>, separator: char) -> Seq<Seq<char>>
    decreases text.len(),
    via split_on_shrinks
{
    let at = first_index(text, separator);
    if at >= text.len() {
        seq![text]
    } else {
        seq![text.take(at as int)] + split_on(text.skip(at as int + 1), separator)
    }
}

#[via_fn]
proof fn split_on_shrinks(text: Seq<char>, separator: char) {
    lemma_first_index(text, separator);
}

/// A line without the carriage return that stood before its line feed.
pub open spec fn without_return(line: Seq<char>) -> Seq<char> {
    if line.len() > 0 && line.last() == '\r' {
        line.drop_last()
    } else {
        line
    }
}

/// The lines of a text: each ended by a line feed, which may stand behind a
/// carriage return; the last line may have no end.
pub open spec fn lines_of(text: Seq<char>) -> Seq<Seq<char>>
    decreases text.len(),
    via lines_of_shrinks
{
    let at = first_index(text, '\n');
    if text.len() == 0 {
        Seq::empty()
    } else if at >= text.len() {
        seq![text]
    } else {
        seq![without_return(text.take(at as int))] + lines_of(text.skip(at as int + 1))
    }
}

#[via_fn]
proof fn lines_of_shrinks(text: Seq<char>) {
    lemma_first_index(text, '\n');
}

/// Index of the first `wanted` at or behind `from`, or the number of characters.
fn find_from(chars: &Vec<char>, from: usize, wanted: char) -> (at: usize)
    requires
        from <= chars@.len(),
    ensures
        at == from + first_index(chars@.skip(from as int), wanted),
        from <= at <= chars@.len(),
{
    let mut at: usize = from;
    let ghost rest = chars@.skip(from as int);
    while at < chars.len() && chars[at] != wanted
        invariant
            from <= at <= chars@.len(),
            rest == chars@.skip(from as int),
            forall|j: int| 0 <= j < at - from ==> rest[j] != wanted,
        decreases chars@.len() - at,
    {
        assert(rest[at - from] == chars@[at as int]);
        at = at + 1;
    }
    proof {
        if at < chars@.len() {
            assert(rest[at - from] == chars@[at as int]);
        }
        lemma_first_index_is(rest, wanted, at - from);
    }
    at
}

/// The pieces of `text` between the separators.
pub fn split(text: &str, separator: char) -> (pieces: Vec<String>)
    ensures
        texts(pieces@) == split_on(text@, separator),
{
    let chars = chars_of(text);
    let mut pieces: Vec<String> = Vec::new();
    let mut from: usize = 0;
    assert(chars@.skip(0) =~= chars@);
    assert(texts(pieces@) + split_on(chars@, separator) =~= split_on(chars@, separator));
    loop
        invariant
            chars@ == text@,
            from <= chars@.len(),
            texts(pieces@) + split_on(chars@.skip(from as int), separator) == split_on(
                text@,
                separator,
            ),
        decreases chars@.len() - from,
    {
        let ghost before = texts(pieces@);
        let ghost rest = chars@.skip(from as int);
        let at = find_from(&chars, from, separator);
        let piece = text_from_chars(&chars, from, at);
        let ghost held = piece@;
        pieces.push(piece);
        assert(texts(pieces@) =~= before.push(held));
        if at >= chars.len() {
            assert(held =~= rest);
            assert(before + split_on(rest, separator) =~= before.push(held));
            return pieces;
        }
        assert(held =~= rest.take(at - from));
        assert(rest.skip(at - from + 1) =~= chars@.skip(at + 1));
        assert(before + split_on(rest, separator) =~= before.push(held) + split_on(
            chars@.skip(at + 1),
            separator,
        ));
        from = at + 1;
    }
}

/// The lines of `text`.
pub fn lines(text: &str) -> (result: Vec<String>)
    ensures
        texts(result@) == lines_of(text@),
{
    let chars = chars_of(text);
    let mut result: Vec<String> = Vec::new();
    let mut from: usize = 0;
    assert(chars@.skip(0) =~= chars@);
    assert(texts(result@) + lines_of(chars@) =~= lines_of(chars@));
    while from < chars.len()
        invariant
            chars@ == text@,
            from <= chars@.len(),
            texts(result@) + lines_of(chars@.skip(from as int)) == lines_of(text@),
        decreases chars@.len() - from,
    {
        let ghost before = texts(result@);
        let ghost rest = chars@.skip(from as int);
        let at = find_from(&chars, from, '\n');
        if at >= chars.len() {
            let line = text_from_chars(&chars, from, at);
            let ghost held = line@;
            result.push(line);
            assert(texts(result@) =~= before.push(held));
            assert(held =~= rest);
            assert(before + lines_of(rest) =~= before.push(held));
            return result;
        }
        let end = if at > from && chars[at - 1] == '\r' { at - 1 } else { at };
        let line = text_from_chars(&chars, from, end);
        let ghost held = line@;
        result.push(line);
        assert(texts(result@) =~= before.push(held));
        assert(held =~= without_return(rest.take(at - from)));
        assert(rest.skip(at - from + 1) =~= chars@.skip(at + 1));
        assert(before + lines_of(rest) =~= before.push(held) + lines_of(chars@.skip(at + 1)));
        from = at + 1;
    }
    assert(texts(result@) + lines_of(chars@.skip(from as int)) =~= texts(result@));
    result
}

// ---- Digits ------------------------------------------------------------

/// Whether a character is an ASCII decimal digit.
pub open spec fn is_digit(ch: char) -> bool {
    '0' <= ch <= '9'
}

/// Whether every character of a text is an ASCII decimal digit.
pub open spec fn all_digits(text: Seq<char>) -> bool {
    forall|i: int| 0 <= i < text.len() ==> is_digit(#[trigger] text[i])
}

/// Whether a character is an ASCII decimal digit or a letter from `a` to `f`.
pub open spec fn is_lower_hex_digit(ch: char) -> bool {
    is_digit(ch) || 'a' <= ch <= 'f'
}

/// Whether a character is an ASCII hexadecimal digit in either case.
pub open spec fn is_hex_digit(ch: char) -> bool {
    is_lower_hex_digit(ch) || 'A' <= ch <= 'F'
}

/// Whether every character of a text is a lower-case hexadecimal digit.
pub open spec fn all_lower_hex(text: Seq<char>) -> bool {
    forall|i: int| 0 <= i < text.len() ==> is_lower_hex_digit(#[trigger] text[i])
}

/// Whether every character of a text is a hexadecimal digit.
pub open spec fn all_hex(text: Seq<char>) -> bool {
    forall|i: int| 0 <= i < text.len() ==> is_hex_digit(#[trigger] text[i])
}

/// Whether every character of `text` is an ASCII decimal digit.
pub fn only_digits(text: &str) -> (found: bool)
    ensures
        found == all_digits(text@),
{
    let chars = chars_of(text);
    let mut i: usize = 0;
    while i < chars.len()
        invariant
            i <= chars@.len(),
            chars@ == text@,
            forall|j: int| 0 <= j < i ==> is_digit(#[trigger] text@[j]),
        decreases chars@.len() - i,
    {
        let ch = chars[i];
        if !('0' <= ch && ch <= '9') {
            assert(!is_digit(text@[i as int]));
            return false;
        }
        i = i + 1;
    }
    true
}

/// Whether every character of `text` is a lower-case hexadecimal digit.
pub fn only_lower_hex(text: &str) -> (found: bool)
    ensures
        found == all_lower_hex(text@),
{
    let chars = chars_of(text);
    let mut i: usize = 0;
    while i < chars.len()
        invariant
            i <= chars@.len(),
            chars@ == text@,
            forall|j: int| 0 <= j < i ==> is_lower_hex_digit(#[trigger] text@[j]),
        decreases chars@.len() - i,
    {
        let ch = chars[i];
        if !(('0' <= ch && ch <= '9') || ('a' <= ch && ch <= 'f')) {
            assert(!is_lower_hex_digit(text@[i as int]));
            return false;
        }
        i = i + 1;
    }
    true
}

/// The value of a run of decimal digits.
pub open spec fn decimal_value(digits: Seq<char>) -> nat
    decreases digits.len(),
{
    if digits.len() == 0 {
        0
    } else {
        decimal_value(digits.drop_last()) * 10 + (digits.last() as u32 - '0' as u32) as nat
    }
}

/// The number that a text spells as a port: decimal digits, behind an optional
/// plus sign, with a value that fits in sixteen bits.
pub open spec fn u16_of(text: Seq<char>) -> Option<u16> {
    let digits = if text.len() > 0 && text[0] == '+' {
        text.drop_first()
    } else {
        text
    };
    if digits.len() > 0 && all_digits(digits) && decimal_value(digits) <= u16::MAX {
        Some(decimal_value(digits) as u16)
    } else {
        None
    }
}

proof fn lemma_decimal_value_grows(digits: Seq<char>, at: int)
    requires
        0 <= at <= digits.len(),
        all_digits(digits),
    ensures
        decimal_value(digits.take(at)) <= decimal_value(digits),
    decreases digits.len() - at,
{
    if at < digits.len() {
        assert(digits.take(at + 1).drop_last() =~= digits.take(at));
        assert(is_digit(digits[at]));
        lemma_decimal_value_grows(digits, at + 1);
    } else {
        assert(digits.take(at) =~= digits);
    }
}

/// Reads a text as a sixteen-bit number.
pub fn parse_u16(text: &str) -> (value: Option<u16>)
    ensures
        value == u16_of(text@),
{
    let chars = chars_of(text);
    let start: usize = if chars.len() > 0 && chars[0] == '+' { 1 } else { 0 };
    let ghost digits = if text@.len() > 0 && text@[0] == '+' { text@.drop_first() } else { text@ };
    assert(digits =~= chars@.skip(start as int));
    if start >= chars.len() {
        return None;
    }
    let mut value: u32 = 0;
    let mut i: usize = start;
    while i < chars.len()
        invariant
            chars@ == text@,
            start <= i <= chars@.len(),
            digits == chars@.skip(start as int),
            u16_of(text@) == (if digits.len() > 0 && all_digits(digits) && decimal_value(digits)
                <= u16::MAX {
                Some(decimal_value(digits) as u16)
            } else {
                None
            }),
            value <= u16::MAX,
            value == decimal_value(digits.take(i - start)),
            forall|j: int| 0 <= j < i - start ==> is_digit(#[trigger] digits[j]),
        decreases chars@.len() - i,
    {
        let ch = chars[i];
        assert(digits[i - start] == ch);
        if !('0' <= ch && ch <= '9') {
            assert(!is_digit(digits[i - start]));
            return None;
        }
        let digit: u32 = ch as u32 - '0' as u32;
        proof {
            assert(digits.take(i - start + 1).drop_last() =~= digits.take(i - start));
        }
        value = value * 10 + digit;
        if value > u16::MAX as u32 {
            proof {
                if all_digits(digits) {
                    lemma_decimal_value_grows(digits, i - start + 1);
                }
            }
            return None;
        }
        i = i + 1;
    }
    assert(digits.take(i - start) =~= digits);
    Some(value as u16)
}

/// The decimal digit for a value under ten.
pub open spec fn digit_char(digit: nat) -> char {
    if digit == 0 {
        '0'
    } else if digit == 1 {
        '1'
    } else if digit == 2 {
        '2'
    } else if digit == 3 {
        '3'
    } else if digit == 4 {
        '4'
    } else if digit == 5 {
        '5'
    } else if digit == 6 {
        '6'
    } else if digit == 7 {
        '7'
    } else if digit == 8 {
        '8'
    } else {
        '9'
    }
}

/// A number in decimal, without leading zeros.
pub open spec fn decimal(value: nat) -> Seq<char>
    decreases value,
{
    if value < 10 {
        seq![digit_char(value)]
    } else {
        decimal(value / 10).push(digit_char(value % 10))
    }
}

/// The decimal rendering of a number is a non-empty run of digits.
pub proof fn lemma_decimal_is_digits(value: nat)
    ensures
        decimal(value).len() > 0,
        all_digits(decimal(value)),
    decreases value,
{
    if value >= 10 {
        lemma_decimal_is_digits(value / 10);
    }
}

fn digit(value: u64) -> (ch: char)
    requires
        value < 10,
    ensures
        ch == digit_char(value as nat),
{
    match value {
        0 => '0',
        1 => '1',
        2 => '2',
        3 => '3',
        4 => '4',
        5 => '5',
        6 => '6',
        7 => '7',
        8 => '8',
        _ => '9',
    }
}

/// Renders a number in decimal.
pub fn decimal_text(value: u64) -> (text: String)
    ensures
        text@ == decimal(value as nat),
    decreases value,
{
    let mut text = if value < 10 { String::new() } else { decimal_text(value / 10) };
    text.push(digit(value % 10));
    assert(value < 10 ==> text@ =~= decimal(value as nat));
    text
}

/// A character with an ASCII capital made small.
pub open spec fn ascii_small(ch: char) -> char {
    if 'A' <= ch <= 'Z' {
        (ch as u32 + 32) as u8 as char
    } else {
        ch
    }
}

/// A text with its ASCII capitals made small.
pub open spec fn ascii_lowered(text: Seq<char>) -> Seq<char> {
    Seq::new(text.len(), |i: int| ascii_small(text[i]))
}

/// `text` with its ASCII capitals made small.
pub fn to_ascii_lower(text: &str) -> (lowered: String)
    ensures
        lowered@ == ascii_lowered(text@),
{
    let chars = chars_of(text);
    let mut lowered = String::new();
    let mut i: usize = 0;
    while i < chars.len()
        invariant
            i <= chars@.len(),
            chars@ == text@,
            lowered@ == ascii_lowered(text@).take(i as int),
        decreases chars@.len() - i,
    {
        let ch = chars[i];
        let small = if 'A' <= ch && ch <= 'Z' { (ch as u32 + 32) as u8 as char } else { ch };
        lowered.push(small);
        assert(ascii_lowered(text@).take(i as int).push(small) =~= ascii_lowered(text@).take(i + 1));
        i = i + 1;
    }
    assert(ascii_lowered(text@).take(text@.len() as int) =~= ascii_lowered(text@));
    lowered
}

// ---- Cutting by bytes ---------------------------------------------------------

/// How many leading characters of a text fit into `limit` bytes.
pub open spec fn fitting(text: Seq<char>, limit: nat) -> nat
    decreases text.len(),
{
    if byte_len(text) <= limit || text.len() == 0 {
        text.len()
    } else {
        fitting(text.drop_last(), limit)
    }
}

/// The longest beginning of a text that fits into `limit` bytes.
pub open spec fn clipped(text: Seq<char>, limit: nat) -> Seq<char> {
    text.take(fitting(text, limit) as int)
}

/// Two texts behind each other take the bytes of both.
pub proof fn lemma_byte_len_add(a: Seq<char>, b: Seq<char>)
    ensures
        byte_len(a + b) == byte_len(a) + byte_len(b),
    decreases a.len(),
{
    if a.len() == 0 {
        assert(a + b =~= b);
    } else {
        lemma_byte_len_add(a.drop_first(), b);
        assert((a + b).drop_first() =~= a.drop_first() + b);
        assert((a + b)[0] == a[0]);
    }
}

/// How many bytes a character takes in UTF-8.
pub open spec fn char_bytes(ch: char) -> nat {
    if (ch as u32) < 0x80 {
        1
    } else if (ch as u32) < 0x800 {
        2
    } else if (ch as u32) < 0x10000 {
        3
    } else {
        4
    }
}

proof fn lemma_char_bytes(text: Seq<char>, ch: char)
    ensures
        byte_len(text.push(ch)) == byte_len(text) + char_bytes(ch),
{
    let one = seq![ch];
    assert(text.push(ch) =~= text + one);
    lemma_byte_len_add(text, one);
    reveal_with_fuel(encode_utf8, 2);
    assert(one.drop_first() =~= Seq::<char>::empty());
    assert(encode_utf8(one) =~= encode_scalar(ch as u32));
}

fn char_width(ch: char) -> (width: usize)
    ensures
        width == char_bytes(ch),
{
    let code: u32 = ch as u32;
    if code < 0x80 {
        1
    } else if code < 0x800 {
        2
    } else if code < 0x10000 {
        3
    } else {
        4
    }
}

/// The longest beginning of a text that fits into `limit` bytes fits.
pub proof fn lemma_clipped_fits(text: Seq<char>, limit: nat)
    ensures
        fitting(text, limit) <= text.len(),
        byte_len(clipped(text, limit)) <= limit,
        forall|n: int|
            fitting(text, limit) < n <= text.len() ==> byte_len(#[trigger] text.take(n)) > limit,
    decreases text.len(),
{
    assert(text.take(text.len() as int) =~= text);
    if text.len() == 0 {
        lemma_empty_bytes(text);
    } else if byte_len(text) > limit {
        let front = text.drop_last();
        lemma_clipped_fits(front, limit);
        assert(clipped(text, limit) =~= clipped(front, limit));
        assert forall|n: int| fitting(text, limit) < n <= text.len() implies byte_len(
            #[trigger] text.take(n),
        ) > limit by {
            if n < text.len() {
                assert(text.take(n) =~= front.take(n));
            }
        }
    }
}

proof fn lemma_empty_bytes(text: Seq<char>)
    requires
        text.len() == 0,
    ensures
        byte_len(text) == 0,
{
    lemma_byte_len_add(text, text);
    assert(text + text =~= text);
}

proof fn lemma_fitting_is(text: Seq<char>, limit: nat, n: int)
    requires
        0 <= n <= text.len(),
        byte_len(text.take(n)) <= limit,
        n < text.len() ==> byte_len(text.take(n + 1)) > limit,
    ensures
        fitting(text, limit) == n,
{
    lemma_clipped_fits(text, limit);
    let found = fitting(text, limit) as int;
    if found < n {
        assert(byte_len(text.take(n)) > limit);
    } else if found > n {
        let longer = text.take(n + 1);
        let rest = text.subrange(n + 1, found);
        assert(text.take(found) =~= longer + rest);
        lemma_byte_len_add(longer, rest);
    }
}

/// The longest beginning of a text that fits into `limit` bytes.
pub fn clip_bytes(text: &str, limit: usize) -> (kept: String)
    ensures
        kept@ == clipped(text@, limit as nat),
        byte_len(kept@) <= limit,
{
    let chars = chars_of(text);
    let mut used: usize = 0;
    let mut i: usize = 0;
    proof {
        lemma_empty_bytes(text@.take(0));
        lemma_clipped_fits(text@, limit as nat);
    }
    while i < chars.len()
        invariant
            i <= chars@.len(),
            chars@ == text@,
            used <= limit,
            used == byte_len(text@.take(i as int)),
        decreases chars@.len() - i,
    {
        let width = char_width(chars[i]);
        proof {
            lemma_char_bytes(text@.take(i as int), text@[i as int]);
            assert(text@.take(i as int).push(text@[i as int]) =~= text@.take(i + 1));
        }
        if width > limit - used {
            proof {
                lemma_fitting_is(text@, limit as nat, i as int);
            }
            let kept = text_from_chars(&chars, 0, i);
            assert(kept@ =~= text@.take(i as int));
            return kept;
        }
        used = used + width;
        i = i + 1;
    }
    proof {
        lemma_fitting_is(text@, limit as nat, i as int);
        assert(text@.take(i as int) =~= text@);
    }
    text.to_owned()
}

/// An ellipsis takes three bytes.
pub proof fn lemma_ellipsis_bytes()
    ensures
        "…"@ == seq!['…'],
        byte_len("…"@) == 3,
{
    reveal_strlit("…");
    assert("…"@ =~= seq!['…']);
    lemma_char_bytes(Seq::empty(), '…');
    lemma_empty_bytes(Seq::empty());
    assert(Seq::<char>::empty().push('…') =~= seq!['…']);
    assert('…' as u32 == 0x2026);
}

// ---- Order ----------------------------------------------------------------------

/// Whether a text comes before another in the order of characters: a text comes
/// before those that it begins.
pub open spec fn precedes(a: Seq<char>, b: Seq<char>) -> bool
    decreases a.len(),
{
    if b.len() == 0 {
        false
    } else if a.len() == 0 {
        true
    } else if a[0] != b[0] {
        a[0] < b[0]
    } else {
        precedes(a.drop_first(), b.drop_first())
    }
}

/// Of two texts one comes before the other, exactly if they differ.
pub proof fn lemma_precedes_is_total(a: Seq<char>, b: Seq<char>)
    ensures
        !precedes(a, a),
        !(precedes(a, b) && precedes(b, a)),
        a == b || precedes(a, b) || precedes(b, a),
    decreases a.len(),
{
    if a.len() > 0 {
        lemma_precedes_is_total(a.drop_first(), a.drop_first());
    }
    if a.len() > 0 && b.len() > 0 {
        if a[0] == b[0] {
            lemma_precedes_is_total(a.drop_first(), b.drop_first());
            if a.drop_first() == b.drop_first() {
                assert(a =~= seq![a[0]] + a.drop_first());
                assert(b =~= seq![b[0]] + b.drop_first());
            }
        }
    } else if a.len() == 0 && b.len() == 0 {
        assert(a =~= b);
    }
}

/// The order carries over.
pub proof fn lemma_precedes_carries(a: Seq<char>, b: Seq<char>, c: Seq<char>)
    ensures
        precedes(a, b) && precedes(b, c) ==> precedes(a, c),
    decreases a.len(),
{
    if a.len() > 0 && b.len() > 0 && c.len() > 0 && a[0] == b[0] && b[0] == c[0] {
        lemma_precedes_carries(a.drop_first(), b.drop_first(), c.drop_first());
    }
}

/// Whether a text comes before another in the order of characters.
pub fn comes_before(a: &str, b: &str) -> (found: bool)
    ensures
        found == precedes(a@, b@),
{
    let left = chars_of(a);
    let right = chars_of(b);
    let mut i: usize = 0;
    assert(a@.skip(0) =~= a@);
    assert(b@.skip(0) =~= b@);
    while i < left.len() && i < right.len()
        invariant
            left@ == a@,
            right@ == b@,
            i <= left@.len(),
            i <= right@.len(),
            precedes(a@, b@) == precedes(a@.skip(i as int), b@.skip(i as int)),
        decreases left@.len() - i,
    {
        if left[i] != right[i] {
            return left[i] < right[i];
        }
        assert(a@.skip(i as int).drop_first() =~= a@.skip(i + 1));
        assert(b@.skip(i as int).drop_first() =~= b@.skip(i + 1));
        i = i + 1;
    }
    i < right.len()
}

// ---- Laws ----------------------------------------------------------------------------

/// Trimming takes white space off the two ends and nothing else: what is left is
/// one piece of the text, it neither begins nor ends with white space, and all
/// that was taken off is white space.
pub proof fn law_trimming_takes_only_white_space(text: Seq<char>) -> (ends: (int, int))
    ensures
        0 <= ends.0 <= ends.1 <= text.len(),
        trimmed(text) == text.subrange(ends.0, ends.1),
        forall|i: int| 0 <= i < ends.0 ==> is_white_space(#[trigger] text[i]),
        forall|i: int| ends.1 <= i < text.len() ==> is_white_space(#[trigger] text[i]),
        ends.0 < ends.1 ==> !is_white_space(text[ends.0]) && !is_white_space(text[ends.1 - 1]),
{
    let from = lemma_trimmed_start_is_a_rest(text);
    let rest = trimmed_start(text);
    let to = law_trimmed_end_is_a_beginning(rest);
    assert(trimmed(text) =~= text.subrange(from, from + to));
    assert forall|i: int| from + to <= i < text.len() implies is_white_space(
        #[trigger] text[i],
    ) by {
        assert(rest[i - from] == text[i]);
    }
    lemma_trimmed_ends(text);
    (from, from + to)
}

proof fn lemma_trimmed_start_is_a_rest(text: Seq<char>) -> (from: int)
    ensures
        0 <= from <= text.len(),
        trimmed_start(text) == text.skip(from),
        forall|i: int| 0 <= i < from ==> is_white_space(#[trigger] text[i]),
    decreases text.len(),
{
    if text.len() > 0 && is_white_space(text[0]) {
        let rest = text.drop_first();
        let from = lemma_trimmed_start_is_a_rest(rest);
        assert(text.skip(from + 1) =~= rest.skip(from));
        assert forall|i: int| 0 <= i < from + 1 implies is_white_space(#[trigger] text[i]) by {
            if i > 0 {
                assert(rest[i - 1] == text[i]);
            }
        }
        from + 1
    } else {
        assert(text.skip(0) =~= text);
        0
    }
}

/// Trimming the end takes white space off it and nothing else.
pub proof fn law_trimmed_end_is_a_beginning(text: Seq<char>) -> (to: int)
    ensures
        0 <= to <= text.len(),
        trimmed_end(text).len() == to,
        trimmed_end(text) == text.take(to),
        forall|i: int| to <= i < text.len() ==> is_white_space(#[trigger] text[i]),
    decreases text.len(),
{
    if text.len() > 0 && is_white_space(text.last()) {
        let front = text.drop_last();
        let to = law_trimmed_end_is_a_beginning(front);
        assert(text.take(to) =~= front.take(to));
        assert forall|i: int| to <= i < text.len() implies is_white_space(#[trigger] text[i]) by {
            if i < front.len() {
                assert(front[i] == text[i]);
            }
        }
        to
    } else {
        assert(text.take(text.len() as int) =~= text);
        text.len() as int
    }
}

/// A text begins with another exactly where the other with something behind it is
/// the text, and it ends with another exactly where the other with something
/// before it is the text.
pub proof fn law_prefix_and_suffix(text: Seq<char>, part: Seq<char>, rest: Seq<char>)
    ensures
        begins_with(part + rest, part),
        begins_with(text, part) ==> text == part + text.skip(part.len() as int),
        finishes_with(rest + part, part),
        finishes_with(text, part) ==> text == text.take(text.len() - part.len()) + part,
{
    assert((part + rest).take(part.len() as int) =~= part);
    assert((rest + part).skip(rest.len() as int) =~= part);
    if begins_with(text, part) {
        assert(text =~= part + text.skip(part.len() as int));
    }
    if finishes_with(text, part) {
        assert(text =~= text.take(text.len() - part.len()) + part);
    }
}

/// Splitting at a separator: a text without it is one piece; one that begins with
/// a piece and a separator gives that piece, and then the pieces of the rest.
pub proof fn law_split_goes_piece_by_piece(piece: Seq<char>, separator: char, rest: Seq<char>)
    requires
        !piece.contains(separator),
    ensures
        split_on(piece, separator) == seq![piece],
        split_on(piece.push(separator) + rest, separator) == seq![piece] + split_on(rest, separator),
{
    assert forall|j: int| 0 <= j < piece.len() implies piece[j] != separator by {
        assert(piece.contains(piece[j]));
    }
    lemma_first_index_is(piece, separator, piece.len() as int);
    let whole = piece.push(separator) + rest;
    assert forall|j: int| 0 <= j < piece.len() implies whole[j] != separator by {
        assert(whole[j] == piece[j]);
    }
    lemma_first_index_is(whole, separator, piece.len() as int);
    assert(whole.take(piece.len() as int) =~= piece);
    assert(whole.skip(piece.len() as int + 1) =~= rest);
}

/// Reading lines: nothing has no line; a text without a line feed is one line; one
/// that begins with a line and a line feed gives that line, without a carriage
/// return at its end, and then the lines of the rest.
pub proof fn law_lines_go_one_by_one(line: Seq<char>, rest: Seq<char>)
    requires
        !line.contains('\n'),
    ensures
        lines_of(Seq::empty()) == Seq::<Seq<char>>::empty(),
        line.len() > 0 ==> lines_of(line) == seq![line],
        line.len() == 0 || line.last() != '\r' ==> lines_of(line.push('\n') + rest) == seq![line]
            + lines_of(rest),
        lines_of(line.push('\r').push('\n') + rest) == seq![line] + lines_of(rest),
{
    assert forall|j: int| 0 <= j < line.len() implies line[j] != '\n' by {
        assert(line.contains(line[j]));
    }
    lemma_first_index_is(line, '\n', line.len() as int);
    let whole = line.push('\n') + rest;
    assert forall|j: int| 0 <= j < line.len() implies whole[j] != '\n' by {
        assert(whole[j] == line[j]);
    }
    lemma_first_index_is(whole, '\n', line.len() as int);
    assert(whole.take(line.len() as int) =~= line);
    assert(whole.skip(line.len() as int + 1) =~= rest);
    let returned = line.push('\r').push('\n') + rest;
    assert forall|j: int| 0 <= j < line.len() + 1 implies returned[j] != '\n' by {
        assert(returned[j] == line.push('\r')[j]);
    }
    lemma_first_index_is(returned, '\n', line.len() as int + 1);
    assert(returned.take(line.len() as int + 1) =~= line.push('\r'));
    assert(line.push('\r').drop_last() =~= line);
    assert(returned.skip(line.len() as int + 2) =~= rest);
}

/// A number that is written in decimal is read back as itself, and is written
/// without a zero in front.
pub proof fn law_written_number_is_read_back(value: nat)
    ensures
        decimal_value(decimal(value)) == value,
        all_digits(decimal(value)),
        value > 0 ==> decimal(value)[0] != '0',
        value <= u16::MAX ==> u16_of(decimal(value)) == Some(value as u16),
        value > u16::MAX ==> u16_of(decimal(value)) is None,
    decreases value,
{
    lemma_decimal_is_digits(value);
    let written = decimal(value);
    if value >= 10 {
        law_written_number_is_read_back(value / 10);
        assert(written.drop_last() =~= decimal(value / 10));
        lemma_decimal_is_digits(value / 10);
        assert(written[0] == decimal(value / 10)[0]);
    } else {
        assert(written.drop_last() =~= Seq::<char>::empty());
        assert(decimal_value(Seq::<char>::empty()) == 0);
    }
    assert(is_digit(written[0]));
}

/// Two numbers that are written alike are the same.
pub proof fn law_numbers_are_written_apart(a: nat, b: nat)
    ensures
        decimal(a) == decimal(b) ==> a == b,
{
    law_written_number_is_read_back(a);
    law_written_number_is_read_back(b);
}

/// The order of texts is decided at the first place where they differ, by the
/// character there; a text comes before every longer one that begins with it.
pub proof fn law_order_is_decided_at_the_first_difference(
    common: Seq<char>,
    a: char,
    b: char,
    rest: Seq<char>,
    other: Seq<char>,
)
    ensures
        a < b ==> precedes(common.push(a) + rest, common.push(b) + other),
        precedes(common, common.push(a) + rest),
        !precedes(common, common),
    decreases common.len(),
{
    if common.len() > 0 {
        let tail = common.drop_first();
        law_order_is_decided_at_the_first_difference(tail, a, b, rest, other);
        assert((common.push(a) + rest).drop_first() =~= tail.push(a) + rest);
        assert((common.push(b) + other).drop_first() =~= tail.push(b) + other);
    }
    lemma_precedes_is_total(common, common);
}

/// Lowering keeps every character but the large ASCII letters, which become the
/// small ones; lowering twice is lowering once.
pub proof fn law_lowering_changes_only_large_letters(text: Seq<char>, i: int)
    requires
        0 <= i < text.len(),
    ensures
        ascii_lowered(text).len() == text.len(),
        !('A' <= text[i] <= 'Z') ==> ascii_lowered(text)[i] == text[i],
        'A' <= text[i] <= 'Z' ==> ascii_lowered(text)[i] as u32 == text[i] as u32 + 32,
        ascii_lowered(ascii_lowered(text)) == ascii_lowered(text),
{
    assert forall|j: int| 0 <= j < text.len() implies ascii_small(#[trigger] ascii_lowered(text)[j])
        == ascii_lowered(text)[j] by {
        lemma_small(text[j]);
    }
    lemma_small(text[i]);
    assert(ascii_lowered(ascii_lowered(text)) =~= ascii_lowered(text));
}

proof fn lemma_small(ch: char)
    ensures
        'A' <= ch <= 'Z' ==> ascii_small(ch) as u32 == ch as u32 + 32,
        ascii_small(ascii_small(ch)) == ascii_small(ch),
{
    if 'A' <= ch <= 'Z' {
        let code = (ch as u32 + 32) as u8;
        assert(code == ch as u32 + 32);
    }
}

/// The digits are the ten characters that decimal numbers are written with; a
/// hexadecimal digit is one of them or one of the first six letters, of which the
/// lower ones alone are digits of a digest.
pub proof fn law_digits(ch: char)
    ensures
        is_digit(ch) <==> 0x30 <= ch as u32 <= 0x39,
        is_lower_hex_digit(ch) <==> 0x30 <= ch as u32 <= 0x39 || 0x61 <= ch as u32 <= 0x66,
        is_hex_digit(ch) <==> is_lower_hex_digit(ascii_small(ch)),
{
    if 'A' <= ch <= 'Z' {
        lemma_small(ch);
    }
}

/// What fits is kept whole; of anything longer the beginning is kept that fits,
/// and one character more would not fit.
pub proof fn law_clipping_keeps_the_longest_beginning(text: Seq<char>, limit: nat)
    ensures
        byte_len(text) <= limit ==> clipped(text, limit) == text,
        clipped(text, limit).is_prefix_of(text),
        byte_len(clipped(text, limit)) <= limit,
        clipped(text, limit).len() < text.len() ==> byte_len(
            text.take(clipped(text, limit).len() as int + 1),
        ) > limit,
{
    lemma_clipped_fits(text, limit);
    assert(text.take(text.len() as int) =~= text);
}

} // verus!
