//! Cached buffer contents plus the position arithmetic needed to slice and replace them.
//!
//! Positions are line/character pairs where `character` counts **UTF-16 code units**, not bytes
//! and not characters. That distinction is easy to ignore and wrong to ignore here: the buffers
//! seen here are frequently mojibake full of multi-byte characters, so naive byte indexing would
//! slice mid-character or corrupt the edit.

use vstd::hash_map::StringHashMap;
use vstd::prelude::*;
use vstd::slice::slice_subrange;
use vstd::string::*;
use vstd::utf8::{
    char_is_scalar, decode_utf8, encode_scalar, encode_utf8, encode_utf8_decode_utf8,
    encode_utf8_first_scalar, encode_utf8_valid_utf8, is_char_boundary, last_continuation_byte,
    leading_byte_width_1, leading_byte_width_2, leading_byte_width_3, leading_byte_width_4,
    pop_first_scalar, second_last_continuation_byte, third_last_continuation_byte, valid_utf8,
};

use crate::text::{
    chars_of, has_prefix, lemma_scalar, starts_with, string_of, text_from_utf8,
};

verus! {

// ---------------------------------------------------------------------------------------------
// Open documents
// ---------------------------------------------------------------------------------------------
/// Buffer contents the editor has told us about, keyed by document URI.
pub struct Documents {
    texts: StringHashMap<String>,
}

impl View for Documents {
    type V = Map<Seq<char>, Seq<char>>;

    closed spec fn view(&self) -> Map<Seq<char>, Seq<char>> {
        self.texts@.map_values(|text: String| text@)
    }
}

impl Default for Documents {
    fn default() -> (documents: Self)
        ensures
            documents@ == Map::<Seq<char>, Seq<char>>::empty(),
    {
        Documents::new()
    }
}

impl Documents {
    /// No document open.
    pub fn new() -> (documents: Self)
        ensures
            documents@ == Map::<Seq<char>, Seq<char>>::empty(),
    {
        let documents = Documents { texts: StringHashMap::new() };
        assert(documents@ =~= Map::<Seq<char>, Seq<char>>::empty());
        documents
    }

    /// Remember the text of a document.
    pub fn open(&mut self, uri: &str, text: String)
        ensures
            final(self)@ == old(self)@.insert(uri@, text@),
    {
        self.texts.insert(uri.to_owned(), text);
        assert(self@ =~= old(self)@.insert(uri@, text@));
    }

    /// Replace the cached text. Documents are synchronised in full, so every change carries the
    /// whole document and there is no incremental patching to do.
    pub fn update(&mut self, uri: &str, text: String)
        ensures
            final(self)@ == old(self)@.insert(uri@, text@),
    {
        self.texts.insert(uri.to_owned(), text);
        assert(self@ =~= old(self)@.insert(uri@, text@));
    }

    /// Forget a document.
    pub fn close(&mut self, uri: &str)
        ensures
            final(self)@ == old(self)@.remove(uri@),
    {
        self.texts.remove(uri);
        assert(self@ =~= old(self)@.remove(uri@));
    }

    /// The text of a document, if it is open.
    pub fn get(&self, uri: &str) -> (text: Option<&str>)
        ensures
            match text {
                Some(t) => self@.dom().contains(uri@) && t@ == self@[uri@],
                None => !self@.dom().contains(uri@),
            },
    {
        match self.texts.get(uri) {
            Some(text) => Some(text.as_str()),
            None => None,
        }
    }
}

// ---------------------------------------------------------------------------------------------
// Positions
// ---------------------------------------------------------------------------------------------
/// A place between two characters of a document.
#[derive(Debug, Clone, Copy, PartialEq, Eq, Structural)]
pub struct Position {
    /// Line, counting from zero.
    pub line: u32,
    /// UTF-16 code units into the line.
    pub character: u32,
}

/// From one position to another.
#[derive(Debug, Clone, Copy, PartialEq, Eq, Structural)]
pub struct Range {
    pub start: Position,
    pub end: Position,
}

/// Whether `c` ends a line.
pub open spec fn is_break(c: char) -> bool {
    c == '\n' || c == '\r'
}

/// Length of the line terminator at `at`, CRLF being one terminator.
pub open spec fn terminator_len(text: Seq<char>, at: int) -> int {
    if !(0 <= at < text.len()) || !is_break(text[at]) {
        0
    } else if text[at] == '\r' && at + 1 < text.len() && text[at + 1] == '\n' {
        2
    } else {
        1
    }
}

/// Where the line that begins at `start` ends, its terminator left out.
pub open spec fn line_end(text: Seq<char>, start: int) -> int
    decreases text.len() - start,
{
    if 0 <= start < text.len() && !is_break(text[start]) {
        line_end(text, start + 1)
    } else {
        start
    }
}

/// Where the given line begins, if there is one. Text that ends with a terminator has an empty
/// line after it.
pub open spec fn line_start(text: Seq<char>, line: nat) -> Option<int>
    decreases line,
{
    if line == 0 {
        Some(0)
    } else {
        match line_start(text, (line - 1) as nat) {
            Some(start) => {
                let end = line_end(text, start);
                if end < text.len() {
                    Some(end + terminator_len(text, end))
                } else {
                    None
                }
            },
            None => None,
        }
    }
}

/// UTF-16 code units that a character takes.
pub open spec fn utf16_width(c: char) -> nat {
    if c > '\u{ffff}' {
        2
    } else {
        1
    }
}

/// UTF-16 code units that a text takes.
pub open spec fn utf16_len(text: Seq<char>) -> nat
    decreases text.len(),
{
    if text.len() == 0 {
        0
    } else {
        utf16_width(text[0]) + utf16_len(text.drop_first())
    }
}

/// How many characters of `line` it takes to reach `units` code units, all of them where the line
/// is too short. The middle of a surrogate pair is rounded up to its end.
pub open spec fn chars_for_units(line: Seq<char>, units: int) -> int
    decreases line.len(),
{
    if line.len() == 0 || units <= 0 {
        0
    } else {
        1 + chars_for_units(line.drop_first(), units - utf16_width(line[0]))
    }
}

/// The index of the character that `position` stands before, clamped to the end of the line and
/// of the text.
pub open spec fn index_at(text: Seq<char>, position: Position) -> int {
    match line_start(text, position.line as nat) {
        Some(start) => start + chars_for_units(
            text.subrange(start, line_end(text, start)),
            position.character as int,
        ),
        None => text.len() as int,
    }
}

/// Number and beginning of the last line, counting on from line `line` at `start`.
pub open spec fn last_line(text: Seq<char>, line: nat, start: int) -> (nat, int)
    decreases text.len() - start,
{
    let end = line_end(text, start);
    let next = end + terminator_len(text, end);
    if 0 <= start < next <= text.len() && end < text.len() {
        last_line(text, line + 1, next)
    } else {
        (line, start)
    }
}

/// The position behind the last character, as far as its numbers fit.
pub open spec fn end_position(text: Seq<char>) -> Position {
    let (line, start) = last_line(text, 0, 0);
    Position { line: line as u32, character: utf16_len(text.skip(start)) as u32 }
}

proof fn lemma_line_end(text: Seq<char>, start: int)
    requires
        0 <= start <= text.len(),
    ensures
        start <= line_end(text, start) <= text.len(),
        line_end(text, start) < text.len() ==> is_break(text[line_end(text, start)]),
    decreases text.len() - start,
{
    if start < text.len() && !is_break(text[start]) {
        lemma_line_end(text, start + 1);
    }
}

proof fn lemma_line_start(text: Seq<char>, line: nat)
    ensures
        line_start(text, line) matches Some(start) ==> 0 <= start <= text.len(),
    decreases line,
{
    if line > 0 {
        lemma_line_start(text, (line - 1) as nat);
        if let Some(start) = line_start(text, (line - 1) as nat) {
            lemma_line_end(text, start);
        }
    }
}

proof fn lemma_chars_for_units(line: Seq<char>, units: int)
    ensures
        0 <= chars_for_units(line, units) <= line.len(),
    decreases line.len(),
{
    if line.len() > 0 && units > 0 {
        lemma_chars_for_units(line.drop_first(), units - utf16_width(line[0]));
    }
}

/// A position always leads to a place in the text.
pub proof fn lemma_index_in_text(text: Seq<char>, position: Position)
    ensures
        0 <= index_at(text, position) <= text.len(),
{
    lemma_line_start(text, position.line as nat);
    if let Some(start) = line_start(text, position.line as nat) {
        lemma_line_end(text, start);
        lemma_chars_for_units(
            text.subrange(start, line_end(text, start)),
            position.character as int,
        );
    }
}

/// Finds the end of the line that begins at `start`.
fn find_line_end(chars: &[char], start: usize) -> (end: usize)
    requires
        start <= chars@.len(),
    ensures
        end == line_end(chars@, start as int),
        start <= end <= chars@.len(),
{
    let mut end: usize = start;
    while end < chars.len() && chars[end] != '\n' && chars[end] != '\r'
        invariant
            start <= end <= chars@.len(),
            line_end(chars@, start as int) == line_end(chars@, end as int),
        decreases chars@.len() - end,
    {
        end += 1;
    }
    end
}

/// Where the line after the one that ends at `end` begins.
fn next_line(chars: &[char], end: usize) -> (start: usize)
    requires
        end < chars@.len(),
        is_break(chars@[end as int]),
    ensures
        start == end + terminator_len(chars@, end as int),
        end < start <= chars@.len(),
{
    if chars[end] == '\r' && end + 1 < chars.len() && chars[end + 1] == '\n' {
        end + 2
    } else {
        end + 1
    }
}

/// Finds where a line begins.
fn find_line_start(chars: &[char], line: u32) -> (start: Option<usize>)
    ensures
        match start {
            Some(s) => line_start(chars@, line as nat) == Some(s as int) && s <= chars@.len(),
            None => line_start(chars@, line as nat) is None,
        },
{
    let mut start: usize = 0;
    let mut n: u32 = 0;
    while n < line
        invariant
            n <= line,
            start <= chars@.len(),
            line_start(chars@, n as nat) == Some(start as int),
        decreases line - n,
    {
        let end = find_line_end(chars, start);
        proof {
            lemma_line_end(chars@, start as int);
        }
        if end == chars.len() {
            proof {
                lemma_no_more_lines(chars@, (n + 1) as nat, line as nat);
            }
            return None;
        }
        start = next_line(chars, end);
        n += 1;
    }
    Some(start)
}

proof fn lemma_no_more_lines(text: Seq<char>, line: nat, later: nat)
    requires
        line_start(text, line) is None,
        line <= later,
    ensures
        line_start(text, later) is None,
    decreases later,
{
    if line < later {
        lemma_no_more_lines(text, line, (later - 1) as nat);
    }
}

/// Finds the index that a position stands for.
fn find_index(chars: &[char], position: Position) -> (index: usize)
    ensures
        index == index_at(chars@, position),
        index <= chars@.len(),
{
    match find_line_start(chars, position.line) {
        None => chars.len(),
        Some(start) => {
            let end = find_line_end(chars, start);
            let ghost line = chars@.subrange(start as int, end as int);
            let mut index: usize = start;
            let mut units: u64 = 0;
            let wanted: u64 = position.character as u64;
            proof {
                assert(line.skip(0) == line);
            }
            while index < end && units < wanted
                invariant
                    start <= index <= end <= chars@.len(),
                    line == chars@.subrange(start as int, end as int),
                    wanted <= u32::MAX,
                    units <= wanted + 1,
                    chars_for_units(line, wanted as int) == index - start + chars_for_units(
                        line.skip(index - start),
                        wanted - units,
                    ),
                decreases end - index,
            {
                let c = chars[index];
                assert(line.skip(index - start)[0] == c);
                assert(line.skip(index - start).drop_first() == line.skip(index + 1 - start));
                units = units + if c > '\u{ffff}' {
                    2
                } else {
                    1
                };
                index += 1;
            }
            index
        },
    }
}

// ---------------------------------------------------------------------------------------------
// Byte lengths
// ---------------------------------------------------------------------------------------------
/// Bytes that a character takes in UTF-8.
pub open spec fn utf8_width(c: char) -> nat {
    if c <= '\u{7f}' {
        1
    } else if c <= '\u{7ff}' {
        2
    } else if c <= '\u{ffff}' {
        3
    } else {
        4
    }
}

proof fn lemma_scalar_len(c: char)
    ensures
        encode_scalar(c as u32).len() == utf8_width(c),
{
    char_is_scalar(c);
    lemma_scalar(c);
}

/// Encoding goes character by character.
pub proof fn lemma_encode_concat(a: Seq<char>, b: Seq<char>)
    ensures
        encode_utf8(a + b) == encode_utf8(a) + encode_utf8(b),
    decreases a.len(),
{
    if a.len() == 0 {
        assert(a + b == b);
        assert(encode_utf8(a) + encode_utf8(b) == encode_utf8(b));
    } else {
        assert((a + b).drop_first() == a.drop_first() + b);
        lemma_encode_concat(a.drop_first(), b);
        assert(encode_utf8(a + b) == encode_scalar(a[0] as u32) + (encode_utf8(a.drop_first())
            + encode_utf8(b)));
        assert(encode_utf8(a) == encode_scalar(a[0] as u32) + encode_utf8(a.drop_first()));
        assert(encode_utf8(a + b) =~= encode_utf8(a) + encode_utf8(b));
    }
}

proof fn lemma_encode_push(text: Seq<char>, c: char)
    ensures
        encode_utf8(text.push(c)).len() == encode_utf8(text).len() + utf8_width(c),
{
    let one = seq![c];
    assert(text.push(c) == text + one);
    lemma_encode_concat(text, one);
    assert(one.drop_first() == Seq::<char>::empty());
    assert(encode_utf8(one) == encode_scalar(c as u32) + encode_utf8(one.drop_first()));
    lemma_scalar_len(c);
}

/// A beginning of a text takes no more bytes than a longer one.
pub proof fn lemma_encode_prefix(text: Seq<char>, a: int, b: int)
    requires
        0 <= a <= b <= text.len(),
    ensures
        encode_utf8(text.take(a)).len() <= encode_utf8(text.take(b)).len(),
        a < b ==> encode_utf8(text.take(a)).len() < encode_utf8(text.take(b)).len(),
{
    let middle = text.subrange(a, b);
    assert(text.take(b) == text.take(a) + middle);
    lemma_encode_concat(text.take(a), middle);
    if a < b {
        lemma_scalar_len(middle[0]);
    }
}

/// Byte offset in `text` for a position, clamped to the end of the line and of the text.
///
/// Clamping rather than failing is deliberate: a stale position from a racing edit should produce
/// a harmless edit at the boundary, not an error dialog.
pub fn byte_offset(text: &str, position: Position) -> (offset: usize)
    ensures
        offset == encode_utf8(text@.take(index_at(text@, position))).len(),
{
    let total: usize = text.as_bytes().len();
    let chars = chars_of(text);
    let index = find_index(chars.as_slice(), position);
    let mut offset: usize = 0;
    let mut i: usize = 0;
    assert(text@.take(text@.len() as int) == text@);
    while i < index
        invariant
            i <= index <= chars@.len(),
            chars@ == text@,
            total == encode_utf8(text@.take(text@.len() as int)).len(),
            offset == encode_utf8(text@.take(i as int)).len(),
        decreases index - i,
    {
        let c = chars[i];
        proof {
            assert(text@.take(i + 1) == text@.take(i as int).push(c));
            lemma_encode_push(text@.take(i as int), c);
            lemma_encode_prefix(text@, i + 1, text@.len() as int);
        }
        offset = offset + if c <= '\u{7f}' {
            1
        } else if c <= '\u{7ff}' {
            2
        } else if c <= '\u{ffff}' {
            3
        } else {
            4
        };
        i += 1;
    }
    offset
}

// ---------------------------------------------------------------------------------------------
// Ranges
// ---------------------------------------------------------------------------------------------
proof fn lemma_utf16_push(text: Seq<char>, c: char)
    ensures
        utf16_len(text.push(c)) == utf16_len(text) + utf16_width(c),
    decreases text.len(),
{
    if text.len() == 0 {
        assert(text.push(c).drop_first() == text);
    } else {
        assert(text.push(c).drop_first() == text.drop_first().push(c));
        lemma_utf16_push(text.drop_first(), c);
    }
}

/// UTF-16 never takes more code units than UTF-8 takes bytes.
pub proof fn lemma_utf16_fits_utf8(text: Seq<char>)
    ensures
        utf16_len(text) <= encode_utf8(text).len(),
    decreases text.len(),
{
    if text.len() > 0 {
        lemma_utf16_fits_utf8(text.drop_first());
        lemma_scalar_len(text[0]);
    }
}

/// The whole of `text`, as far as its numbers fit.
pub open spec fn whole(text: Seq<char>) -> Range {
    Range { start: Position { line: 0, character: 0 }, end: end_position(text) }
}

/// The range spanning the whole document, from the very start to the end of the last line.
pub fn full_range(text: &str) -> (range: Range)
    ensures
        range == whole(text@),
{
    let total: usize = text.as_bytes().len();
    let chars = chars_of(text);
    let mut line: usize = 0;
    let mut start: usize = 0;
    let mut end: usize = find_line_end(chars.as_slice(), 0);
    while end < chars.len()
        invariant
            line <= start <= end <= chars@.len(),
            end == line_end(chars@, start as int),
            last_line(chars@, 0, 0) == last_line(chars@, line as nat, start as int),
        decreases chars@.len() - end,
    {
        proof {
            lemma_line_end(chars@, start as int);
        }
        start = next_line(chars.as_slice(), end);
        line += 1;
        end = find_line_end(chars.as_slice(), start);
    }
    let ghost last = chars@.skip(start as int);
    let mut units: usize = 0;
    let mut i: usize = start;
    proof {
        assert(last.take(0) == Seq::<char>::empty());
        assert(last.take(last.len() as int) == last);
        assert(chars@ == chars@.take(start as int) + last);
        lemma_encode_concat(chars@.take(start as int), last);
    }
    while i < chars.len()
        invariant
            start <= i <= chars@.len(),
            last == chars@.skip(start as int),
            encode_utf8(last).len() <= total,
            units == utf16_len(last.take(i - start)),
        decreases chars@.len() - i,
    {
        let c = chars[i];
        proof {
            let upto = i + 1 - start;
            assert(last.take(upto) == last.take(i - start).push(c));
            lemma_utf16_push(last.take(i - start), c);
            lemma_utf16_fits_utf8(last.take(upto));
            lemma_encode_prefix(last, upto, last.len() as int);
            assert(last.take(last.len() as int) == last);
        }
        units = units + if c > '\u{ffff}' {
            2
        } else {
            1
        };
        i += 1;
    }
    assert(last.take(last.len() as int) == last);
    Range {
        start: Position { line: 0, character: 0 },
        end: Position {
            line: #[verifier::truncate] (line as u32),
            character: #[verifier::truncate] (units as u32),
        },
    }
}

/// Whether `a` is not behind `b`.
pub open spec fn in_order(a: Position, b: Position) -> bool {
    a.line < b.line || (a.line == b.line && a.character <= b.character)
}

/// The text covered by `range`, or nothing where it ends before it begins, wherever in the text
/// its ends are clamped to.
pub open spec fn sliced(text: Seq<char>, range: Range) -> Option<Seq<char>> {
    if in_order(range.start, range.end) {
        Some(text.subrange(index_at(text, range.start), index_at(text, range.end)))
    } else {
        None
    }
}

/// The text covered by `range`, or `None` if the range is inverted.
pub fn slice(text: &str, range: Range) -> (covered: Option<&str>)
    ensures
        match covered {
            Some(part) => sliced(text@, range) == Some(part@),
            None => sliced(text@, range) is None,
        },
        covered is Some <==> (range.start.line < range.end.line || (range.start.line
            == range.end.line && range.start.character <= range.end.character)),
{
    let ordered = range.start.line < range.end.line || (range.start.line == range.end.line
        && range.start.character <= range.end.character);
    if !ordered {
        return None;
    }
    let chars = chars_of(text);
    let start = find_index(chars.as_slice(), range.start);
    let end = find_index(chars.as_slice(), range.end);
    proof {
        lemma_positions_ordered(text@, range.start, range.end);
    }
    Some(text.substring_char(start, end))
}

/// Whether a range selects nothing, i.e. the user has a bare cursor and no selection.
///
/// No selection means convert everything.
pub fn is_empty(range: Range) -> (empty: bool)
    ensures
        empty == (range.start == range.end),
{
    range.start == range.end
}

// ---------------------------------------------------------------------------------------------
// File paths
// ---------------------------------------------------------------------------------------------
/// The value of a hexadecimal digit.
pub open spec fn hex_value(byte: u8) -> Option<u8> {
    if 0x30 <= byte <= 0x39 {
        Some((byte - 0x30) as u8)
    } else if 0x41 <= byte <= 0x46 {
        Some((byte - 0x37) as u8)
    } else if 0x61 <= byte <= 0x66 {
        Some((byte - 0x57) as u8)
    } else {
        None
    }
}

/// `bytes` with each `%XX` replaced by the byte it stands for, or nothing where an escape is
/// malformed.
pub open spec fn unescaped(bytes: Seq<u8>) -> Option<Seq<u8>>
    decreases bytes.len(),
{
    if bytes.len() == 0 {
        Some(Seq::empty())
    } else if bytes[0] != 0x25 {
        match unescaped(bytes.skip(1)) {
            Some(rest) => Some(seq![bytes[0]] + rest),
            None => None,
        }
    } else if bytes.len() < 3 {
        None
    } else {
        match (hex_value(bytes[1]), hex_value(bytes[2]), unescaped(bytes.skip(3))) {
            (Some(high), Some(low), Some(rest)) => Some(seq![(high * 16 + low) as u8] + rest),
            _ => None,
        }
    }
}

/// Text with its escapes decoded, or nothing where one is malformed or the result is not UTF-8.
pub open spec fn percent_decoded(text: Seq<char>) -> Option<Seq<char>> {
    match unescaped(encode_utf8(text)) {
        Some(bytes) => if valid_utf8(bytes) {
            Some(decode_utf8(bytes))
        } else {
            None
        },
        None => None,
    }
}

fn hex(byte: u8) -> (value: Option<u8>)
    ensures
        value == hex_value(byte),
        value matches Some(v) ==> v < 16,
{
    if 0x30 <= byte && byte <= 0x39 {
        Some(byte - 0x30)
    } else if 0x41 <= byte && byte <= 0x46 {
        Some(byte - 0x37)
    } else if 0x61 <= byte && byte <= 0x66 {
        Some(byte - 0x57)
    } else {
        None
    }
}

/// What the escapes in the bytes from `i` on come to, behind what is decoded already.
spec fn unescaped_from(bytes: Seq<u8>, i: int, out: Seq<u8>) -> Option<Seq<u8>> {
    match unescaped(bytes.skip(i)) {
        Some(rest) => Some(out + rest),
        None => None,
    }
}

/// Decode `%XX` escapes. Returns `None` if the result is not valid UTF-8 or an escape is
/// malformed, since a path we cannot decode is one we must not guess at.
fn percent_decode(input: &str) -> (text: Option<String>)
    ensures
        match text {
            Some(t) => percent_decoded(input@) == Some(t@),
            None => percent_decoded(input@) is None,
        },
{
    let bytes = input.as_bytes();
    let mut out: Vec<u8> = Vec::new();
    let mut i: usize = 0;
    proof {
        assert(bytes@.skip(0) == bytes@);
        if let Some(all) = unescaped(bytes@) {
            assert(Seq::<u8>::empty() + all == all);
        }
    }
    while i < bytes.len()
        invariant
            i <= bytes@.len(),
            bytes@ == encode_utf8(input@),
            unescaped(bytes@) == unescaped_from(bytes@, i as int, out@),
        decreases bytes@.len() - i,
    {
        let ghost rest = bytes@.skip(i as int);
        let ghost before = out@;
        if bytes[i] == 0x25 {
            if bytes.len() - i < 3 {
                return None;
            }
            let (high, low) = match (hex(bytes[i + 1]), hex(bytes[i + 2])) {
                (Some(high), Some(low)) => (high, low),
                _ => {
                    return None;
                },
            };
            out.push(high * 16 + low);
            i += 3;
            proof {
                assert(rest.skip(3) == bytes@.skip(i as int));
                if let Some(later) = unescaped(rest.skip(3)) {
                    assert(before + (seq![(high * 16 + low) as u8] + later) == out@ + later);
                }
            }
        } else {
            out.push(bytes[i]);
            i += 1;
            proof {
                assert(rest.skip(1) == bytes@.skip(i as int));
                if let Some(later) = unescaped(rest.skip(1)) {
                    assert(before + (seq![rest[0]] + later) == out@ + later);
                }
            }
        }
    }
    proof {
        assert(bytes@.skip(i as int) == Seq::<u8>::empty());
        assert(out@ + Seq::<u8>::empty() == out@);
    }
    text_from_utf8(out)
}

/// Whether `path` is a drive letter behind a slash, such as `/C:/data`.
pub open spec fn has_drive(path: Seq<char>) -> bool {
    &&& path.len() >= 3
    &&& path[0] == '/'
    &&& 'a' <= path[1] <= 'z' || 'A' <= path[1] <= 'Z'
    &&& path[2] == ':' || path[2] == '|'
}

/// The path on disk that a decoded URI path names: a drive letter loses the slash before it, and
/// any bar in it stands for a colon.
pub open spec fn disk_path(path: Seq<char>) -> Seq<char> {
    if has_drive(path) {
        path.skip(1).map_values(
            |c: char|
                if c == '|' {
                    ':'
                } else {
                    c
                },
        )
    } else {
        path
    }
}

/// The path part of a `file:` URI whose authority is empty or `localhost`; nothing for any other
/// URI.
pub open spec fn uri_path(uri: Seq<char>) -> Option<Seq<char>> {
    if !starts_with(uri, "file://"@) {
        None
    } else {
        let rest = uri.skip(7);
        if starts_with(rest, "/"@) {
            Some(rest)
        } else if starts_with(rest, "localhost/"@) {
            Some(rest.skip(9))
        } else {
            None
        }
    }
}

/// The file that a URI names, if it names one that can be read from here.
pub open spec fn file_of(uri: Seq<char>) -> Option<Seq<char>> {
    match uri_path(uri) {
        Some(path) => match percent_decoded(path) {
            Some(decoded) => Some(disk_path(decoded)),
            None => None,
        },
        None => None,
    }
}

fn to_disk_path(path: String) -> (disk: String)
    ensures
        disk@ == disk_path(path@),
{
    let chars = chars_of(path.as_str());
    let drive = chars.len() >= 3 && chars[0] == '/' && (('a' <= chars[1] && chars[1] <= 'z') || (
    'A' <= chars[1] && chars[1] <= 'Z')) && (chars[2] == ':' || chars[2] == '|');
    if !drive {
        return path;
    }
    let mut disk: Vec<char> = Vec::new();
    let mut i: usize = 1;
    while i < chars.len()
        invariant
            1 <= i <= chars@.len(),
            chars@ == path@,
            has_drive(path@),
            disk@ == disk_path(path@).take(i - 1),
        decreases chars@.len() - i,
    {
        let c = if chars[i] == '|' {
            ':'
        } else {
            chars[i]
        };
        disk.push(c);
        i += 1;
        assert(disk@ =~= disk_path(path@).take(i - 1));
    }
    assert(disk_path(path@).take(path@.len() - 1) == disk_path(path@));
    string_of(disk.as_slice())
}

/// Filesystem path for a `file:` URI, or `None` for any other scheme.
///
/// Returning `None` for non-file URIs is meaningful: untitled buffers have nothing on disk, which
/// is exactly when the caller must fall back to buffer text. Any authority but `localhost` is a
/// network path we cannot read.
pub fn file_path(uri: &str) -> (path: Option<String>)
    ensures
        match path {
            Some(p) => file_of(uri@) == Some(p@),
            None => file_of(uri@) is None,
        },
{
    proof {
        reveal_strlit("file://");
        reveal_strlit("localhost/");
    }
    let chars = chars_of(uri);
    let scheme = chars_of("file://");
    if !has_prefix(chars.as_slice(), scheme.as_slice()) {
        return None;
    }
    let rest = slice_subrange(chars.as_slice(), 7, chars.len());
    assert(rest@ == uri@.skip(7));
    let slash = chars_of("/");
    let local = chars_of("localhost/");
    let path = if has_prefix(rest, slash.as_slice()) {
        rest
    } else if has_prefix(rest, local.as_slice()) {
        slice_subrange(rest, 9, rest.len())
    } else {
        return None;
    };
    assert(uri_path(uri@) == Some(path@));
    let path = string_of(path);
    match percent_decode(path.as_str()) {
        Some(decoded) => Some(to_disk_path(decoded)),
        None => None,
    }
}

// ---------------------------------------------------------------------------------------------
// Laws
// ---------------------------------------------------------------------------------------------
proof fn lemma_last_line(text: Seq<char>, line: nat, start: int)
    requires
        0 <= start <= text.len(),
        line_start(text, line) == Some(start),
    ensures
        ({
            let (n, s) = last_line(text, line, start);
            &&& line_start(text, n) == Some(s)
            &&& 0 <= s <= text.len()
            &&& line_end(text, s) == text.len()
        }),
    decreases text.len() - start,
{
    lemma_line_end(text, start);
    let end = line_end(text, start);
    if end < text.len() {
        let next = end + terminator_len(text, end);
        assert(line_start(text, line + 1) == Some(next));
        lemma_last_line(text, line + 1, next);
    }
}

proof fn lemma_chars_for_whole_line(line: Seq<char>, units: int)
    requires
        units >= utf16_len(line),
    ensures
        chars_for_units(line, units) == line.len(),
    decreases line.len(),
{
    if line.len() > 0 {
        lemma_chars_for_whole_line(line.drop_first(), units - utf16_width(line[0]));
    }
}

/// The full range covers everything, where the last line's number and length fit a position.
pub proof fn lemma_full_range_covers_everything(text: Seq<char>)
    requires
        last_line(text, 0, 0).0 <= u32::MAX,
        utf16_len(text.skip(last_line(text, 0, 0).1)) <= u32::MAX,
    ensures
        sliced(text, whole(text)) == Some(text),
{
    let (n, s) = last_line(text, 0, 0);
    lemma_last_line(text, 0, 0);
    assert(text.subrange(s, text.len() as int) == text.skip(s));
    lemma_chars_for_whole_line(text.skip(s), utf16_len(text.skip(s)) as int);
    assert(index_at(text, whole(text).end) == text.len());
    assert(index_at(text, whole(text).start) == 0);
    assert(text.subrange(0, text.len() as int) == text);
}

proof fn lemma_units_ordered(line: Seq<char>, a: int, b: int)
    requires
        a <= b,
    ensures
        chars_for_units(line, a) <= chars_for_units(line, b),
    decreases line.len(),
{
    lemma_chars_for_units(line, b);
    if line.len() > 0 && a > 0 {
        let width = utf16_width(line[0]);
        lemma_units_ordered(line.drop_first(), a - width, b - width);
    }
}

proof fn lemma_lines_ordered(text: Seq<char>, a: nat, b: nat)
    requires
        a < b,
        line_start(text, b) is Some,
    ensures
        line_start(text, a) is Some,
        line_end(text, line_start(text, a)->0) <= line_start(text, b)->0,
    decreases b,
{
    let before = (b - 1) as nat;
    lemma_line_start(text, before);
    let start = line_start(text, before)->0;
    lemma_line_end(text, start);
    if a < before {
        lemma_lines_ordered(text, a, before);
    }
}

/// A position that is not behind another does not lead behind it either.
pub proof fn lemma_positions_ordered(text: Seq<char>, a: Position, b: Position)
    requires
        in_order(a, b),
    ensures
        index_at(text, a) <= index_at(text, b),
{
    lemma_index_in_text(text, a);
    lemma_index_in_text(text, b);
    if let Some(start) = line_start(text, b.line as nat) {
        if a.line == b.line {
            lemma_units_ordered(
                text.subrange(start, line_end(text, start)),
                a.character as int,
                b.character as int,
            );
        } else {
            lemma_lines_ordered(text, a.line as nat, b.line as nat);
            let first = line_start(text, a.line as nat)->0;
            lemma_line_start(text, a.line as nat);
            lemma_line_start(text, b.line as nat);
            lemma_line_end(text, first);
            lemma_line_end(text, start);
            lemma_chars_for_units(
                text.subrange(first, line_end(text, first)),
                a.character as int,
            );
            lemma_chars_for_units(
                text.subrange(start, line_end(text, start)),
                b.character as int,
            );
        }
    }
}

/// Every range that is not inverted covers a part of the text, and no inverted one does.
pub proof fn lemma_ordered_range_covers(text: Seq<char>, range: Range)
    ensures
        sliced(text, range) is Some <==> in_order(range.start, range.end),
        sliced(text, range) matches Some(part) ==> part.len() == index_at(text, range.end)
            - index_at(text, range.start),
{
    lemma_index_in_text(text, range.start);
    lemma_index_in_text(text, range.end);
    if in_order(range.start, range.end) {
        lemma_positions_ordered(text, range.start, range.end);
    }
}

/// An offset never falls inside a character, and the bytes between two offsets are those of the
/// text that the range covers.
pub proof fn lemma_offsets_agree_with_slice(text: Seq<char>, range: Range)
    requires
        sliced(text, range) is Some,
    ensures
        ({
            let bytes = encode_utf8(text);
            let start = encode_utf8(text.take(index_at(text, range.start))).len();
            let end = encode_utf8(text.take(index_at(text, range.end))).len();
            &&& is_char_boundary(bytes, start as int)
            &&& is_char_boundary(bytes, end as int)
            &&& start <= end <= bytes.len()
            &&& bytes.subrange(start as int, end as int) == encode_utf8(sliced(text, range)->0)
        }),
{
    let a = index_at(text, range.start);
    let b = index_at(text, range.end);
    lemma_index_in_text(text, range.start);
    lemma_index_in_text(text, range.end);
    lemma_positions_ordered(text, range.start, range.end);
    let part = text.subrange(a, b);
    assert(text.take(b) == text.take(a) + part);
    assert(text == text.take(a) + text.skip(a));
    assert(text == text.take(b) + text.skip(b));
    lemma_encode_concat(text.take(a), part);
    lemma_encode_concat(text.take(a), text.skip(a));
    lemma_encode_concat(text.take(b), text.skip(b));
    lemma_boundary(text, a);
    lemma_boundary(text, b);
    let bytes = encode_utf8(text);
    let start = encode_utf8(text.take(a)).len() as int;
    let end = encode_utf8(text.take(b)).len() as int;
    assert(bytes.subrange(start, end) =~= encode_utf8(part));
}

proof fn lemma_boundary(text: Seq<char>, index: int)
    requires
        0 <= index <= text.len(),
    ensures
        is_char_boundary(encode_utf8(text), encode_utf8(text.take(index)).len() as int),
    decreases index,
{
    encode_utf8_valid_utf8(text);
    if index > 0 {
        let rest = text.drop_first();
        encode_utf8_first_scalar(text);
        encode_utf8_valid_utf8(rest);
        assert(pop_first_scalar(encode_utf8(text)) =~= encode_utf8(rest));
        lemma_boundary(rest, index - 1);
        assert(text.take(index).drop_first() == rest.take(index - 1));
        assert(text.take(index)[0] == text[0]);
        lemma_encode_prefix(text, index, text.len() as int);
        assert(text.take(text.len() as int) == text);
    }
}

/// Bytes without a percent sign stand for themselves.
pub proof fn lemma_nothing_to_unescape(bytes: Seq<u8>)
    requires
        forall|i: int| 0 <= i < bytes.len() ==> bytes[i] != 0x25,
    ensures
        unescaped(bytes) == Some(bytes),
    decreases bytes.len(),
{
    if bytes.len() > 0 {
        let rest = bytes.skip(1);
        assert forall|i: int| 0 <= i < rest.len() implies rest[i] != 0x25 by {
            assert(rest[i] == bytes[i + 1]);
        }
        lemma_nothing_to_unescape(rest);
        assert(seq![bytes[0]] + rest == bytes);
    }
}

/// A path that needs no escapes is what its `file:` URI names, with `localhost` or without.
pub proof fn lemma_plain_path_is_named(path: Seq<char>)
    requires
        starts_with(path, "/"@),
        forall|i: int| 0 <= i < encode_utf8(path).len() ==> encode_utf8(path)[i] != 0x25,
    ensures
        file_of("file://"@ + path) == Some(disk_path(path)),
        file_of("file://localhost"@ + path) == Some(disk_path(path)),
{
    reveal_strlit("file://");
    reveal_strlit("file://localhost");
    reveal_strlit("localhost/");
    reveal_strlit("/");
    lemma_nothing_to_unescape(encode_utf8(path));
    encode_utf8_valid_utf8(path);
    encode_utf8_decode_utf8(path);
    let plain = "file://"@ + path;
    assert(plain.take(7) == "file://"@);
    assert(plain.skip(7) == path);
    let local = "file://localhost"@ + path;
    assert(local.take(7) =~= "file://"@);
    let rest = local.skip(7);
    assert(path.take(1)[0] == path[0]);
    assert(rest.take(10) =~= "localhost/"@);
    assert(rest.skip(9) =~= path);
    assert(!starts_with(rest, "/"@)) by {
        assert(rest[0] == 'l');
        assert(rest.take(1)[0] == rest[0]);
    }
}

/// Where lines begin: the first at the beginning, and each other right behind the terminator of the
/// one before, which is a line feed, a carriage return, or the two in that order. A line without a
/// terminator is the last.
pub proof fn lemma_lines_begin_behind_terminators(text: Seq<char>, line: nat, start: int, end: int)
    requires
        line_start(text, line) == Some(start),
        start <= end <= text.len(),
        forall|i: int| start <= i < end ==> #[trigger] text[i] != '\n' && text[i] != '\r',
    ensures
        line_start(text, 0) == Some(0int),
        end == text.len() ==> line_start(text, line + 1) is None,
        end < text.len() && text[end] == '\n' ==> line_start(text, line + 1) == Some(end + 1),
        end < text.len() && text[end] == '\r' && !(end + 1 < text.len() && text[end + 1] == '\n')
            ==> line_start(text, line + 1) == Some(end + 1),
        end + 1 < text.len() && text[end] == '\r' && text[end + 1] == '\n' ==> line_start(
            text,
            line + 1,
        ) == Some(end + 2),
{
    lemma_line_start(text, line);
    lemma_line_runs_to(text, start, end);
}

proof fn lemma_line_runs_to(text: Seq<char>, start: int, end: int)
    requires
        0 <= start <= end <= text.len(),
        forall|i: int| start <= i < end ==> #[trigger] text[i] != '\n' && text[i] != '\r',
    ensures
        line_end(text, start) == line_end(text, end),
        end == text.len() || text[end] == '\n' || text[end] == '\r' ==> line_end(text, start)
            == end,
    decreases end - start,
{
    if start < end {
        assert(text[start] != '\n' && text[start] != '\r');
        lemma_line_runs_to(text, start + 1, end);
    }
}

proof fn lemma_utf16_counts(text: Seq<char>)
    ensures
        utf16_len(text) == text.len() + text.filter(|c: char| c as int > 0xFFFF).len(),
    decreases text.len(),
{
    let astral = |c: char| c as int > 0xFFFF;
    reveal(Seq::filter);
    if text.len() > 0 {
        let front = text.drop_last();
        lemma_utf16_counts(front);
        lemma_utf16_push(front, text.last());
        assert(front.push(text.last()) == text);
        lemma_scalar(text.last());
    }
}

proof fn lemma_chars_for_counted_units(line: Seq<char>, n: int, units: int)
    requires
        0 <= n <= line.len(),
        n == 0 ==> units == 0,
        n > 0 ==> utf16_len(line.take(n - 1)) < units <= utf16_len(line.take(n)),
    ensures
        chars_for_units(line, units) == n,
    decreases n,
{
    if n > 0 {
        let rest = line.drop_first();
        let width = utf16_width(line[0]);
        assert(line.take(n).drop_first() =~= rest.take(n - 1));
        assert(line.take(n)[0] == line[0]);
        if n > 1 {
            assert(line.take(n - 1).drop_first() =~= rest.take(n - 2));
            assert(line.take(n - 1)[0] == line[0]);
            lemma_chars_for_counted_units(rest, n - 1, units - width);
        } else {
            assert(rest.take(0).len() == 0);
            assert(line.take(0).len() == 0);
            assert(line.take(1).drop_first().len() == 0);
            assert(utf16_len(line.take(1)) == width + utf16_len(line.take(1).drop_first()));
            assert(units - width <= 0);
            assert(chars_for_units(rest, units - width) == 0);
        }
    }
}

/// Positions count UTF-16 code units: one for every character up to U+FFFF and two for every one
/// above. A position that counts as many units as the first `n` characters of its line have stands
/// behind those, as does one that falls into the last of them; one that counts more than the line
/// has stands at its end; and one in a line that is not there, at the end of the text.
pub proof fn lemma_positions_count_utf16(
    text: Seq<char>,
    position: Position,
    start: int,
    end: int,
    n: int,
)
    requires
        line_start(text, position.line as nat) == Some(start),
        start <= end <= text.len(),
        forall|i: int| start <= i < end ==> #[trigger] text[i] != '\n' && text[i] != '\r',
        end == text.len() || text[end] == '\n' || text[end] == '\r',
        0 <= n <= end - start,
    ensures
        ({
            let first = text.subrange(start, start + n);
            let line = text.subrange(start, end);
            let units = first.len() + first.filter(|c: char| c as int > 0xFFFF).len();
            let all = line.len() + line.filter(|c: char| c as int > 0xFFFF).len();
            &&& position.character == units ==> index_at(text, position) == start + n
            &&& n > 0 && first.last() as int > 0xFFFF && position.character == units - 1
                ==> index_at(text, position) == start + n
            &&& position.character >= all ==> index_at(text, position) == end
        }),
{
    lemma_line_start(text, position.line as nat);
    lemma_line_runs_to(text, start, end);
    let line = text.subrange(start, end);
    let first = text.subrange(start, start + n);
    assert(line.take(n) =~= first);
    lemma_utf16_counts(first);
    lemma_utf16_counts(line);
    lemma_chars_for_whole_line(line, utf16_len(line) as int);
    if position.character >= utf16_len(line) {
        lemma_chars_for_whole_line(line, position.character as int);
    }
    if n > 0 {
        let before = line.take(n - 1);
        assert(before.push(first.last()) =~= first);
        lemma_utf16_push(before, first.last());
        lemma_scalar(first.last());
        if position.character == utf16_len(first) || (first.last() as int > 0xFFFF
            && position.character == utf16_len(first) - 1) {
            lemma_chars_for_counted_units(line, n, position.character as int);
        }
    } else {
        assert(first.len() == 0);
    }
}

/// A position in a line that the text does not have stands at its end.
pub proof fn lemma_position_behind_the_last_line(text: Seq<char>, position: Position)
    requires
        line_start(text, position.line as nat) is None,
    ensures
        index_at(text, position) == text.len(),
{
}

/// Selecting between two places of a line gives the characters between them, whatever comes before
/// and after: with `a` before the selection and `b` in it, it runs from the code units of `a` to
/// those of `a` and `b`.
pub proof fn lemma_selection_in_a_line(a: Seq<char>, b: Seq<char>, c: Seq<char>, range: Range)
    requires
        forall|i: int| 0 <= i < a.len() ==> #[trigger] a[i] != '\n' && a[i] != '\r',
        forall|i: int| 0 <= i < b.len() ==> #[trigger] b[i] != '\n' && b[i] != '\r',
        forall|i: int| 0 <= i < c.len() ==> #[trigger] c[i] != '\n' && c[i] != '\r',
        range.start.line == 0,
        range.end.line == 0,
        range.start.character == a.len() + a.filter(|c: char| c as int > 0xFFFF).len(),
        range.end.character == a.len() + b.len() + a.filter(|c: char| c as int > 0xFFFF).len()
            + b.filter(|c: char| c as int > 0xFFFF).len(),
    ensures
        sliced(a + b + c, range) == Some(b),
{
    let text = a + b + c;
    let end = text.len() as int;
    assert forall|i: int| 0 <= i < end implies #[trigger] text[i] != '\n' && text[i] != '\r' by {
        if i < a.len() {
            assert(text[i] == a[i]);
        } else if i < a.len() + b.len() {
            assert(text[i] == b[i - a.len()]);
        } else {
            assert(text[i] == c[i - a.len() - b.len()]);
        }
    }
    assert(line_start(text, 0) == Some(0int));
    Seq::filter_distributes_over_add(a, b, |c: char| c as int > 0xFFFF);
    lemma_positions_count_utf16(text, range.start, 0, end, a.len() as int);
    lemma_positions_count_utf16(text, range.end, 0, end, (a.len() + b.len()) as int);
    assert(text.subrange(0, a.len() as int) =~= a);
    assert(text.subrange(0, (a.len() + b.len()) as int) =~= a + b);
    assert(text.subrange(a.len() as int, (a.len() + b.len()) as int) =~= b);
}

/// The full range runs from the first line's beginning to the last line's end, counted in lines and
/// in UTF-16 code units, where the numbers fit a position.
pub proof fn lemma_full_range_ends_behind_the_last_line(text: Seq<char>, line: nat, start: int)
    requires
        line_start(text, line) == Some(start),
        forall|i: int| start <= i < text.len() ==> #[trigger] text[i] != '\n' && text[i] != '\r',
        line <= u32::MAX,
        text.skip(start).len() + text.skip(start).filter(|c: char| c as int > 0xFFFF).len()
            <= u32::MAX,
    ensures
        ({
            let last = text.skip(start);
            whole(text) == (Range {
                start: Position { line: 0, character: 0 },
                end: Position {
                    line: line as u32,
                    character: (last.len() + last.filter(|c: char| c as int > 0xFFFF).len()) as u32,
                },
            })
        }),
{
    lemma_line_start(text, line);
    lemma_line_runs_to(text, start, text.len() as int);
    lemma_last_line(text, 0, 0);
    let (n, s) = last_line(text, 0, 0);
    assert(n == line) by {
        assert(line_start(text, n + 1) is None);
        assert(line_start(text, line + 1) is None);
        if n < line {
            lemma_no_more_lines(text, n + 1, line);
        }
        if line < n {
            lemma_no_more_lines(text, line + 1, n);
        }
    }
    lemma_utf16_counts(text.skip(start));
}

// ---------------------------------------------------------------------------------------------
// Laws of file paths
// ---------------------------------------------------------------------------------------------
/// A byte below 0x80 occurs in UTF-8 only where its character does.
pub proof fn lemma_no_byte_without_its_character(text: Seq<char>, byte: u8)
    requires
        byte < 0x80,
        forall|i: int| 0 <= i < text.len() ==> #[trigger] text[i] as int != byte,
    ensures
        forall|i: int| 0 <= i < encode_utf8(text).len() ==> #[trigger] encode_utf8(text)[i] != byte,
    decreases text.len(),
{
    if text.len() > 0 {
        let rest = text.drop_first();
        assert forall|i: int| 0 <= i < rest.len() implies #[trigger] rest[i] as int != byte by {
            assert(rest[i] == text[i + 1]);
        }
        lemma_no_byte_without_its_character(rest, byte);
        let scalar = text[0] as u32;
        char_is_scalar(text[0]);
        lemma_scalar(text[0]);
        assert(text[0] as int != byte);
        assert(scalar as int == text[0] as int);
        if scalar <= 0x7F {
            assert(leading_byte_width_1(scalar) == scalar) by (bit_vector)
                requires
                    scalar <= 0x7F,
            ;
        }
        assert(leading_byte_width_2(scalar) >= 0x80) by (bit_vector);
        assert(leading_byte_width_3(scalar) >= 0x80) by (bit_vector);
        assert(leading_byte_width_4(scalar) >= 0x80) by (bit_vector);
        assert(last_continuation_byte(scalar) >= 0x80) by (bit_vector);
        assert(second_last_continuation_byte(scalar) >= 0x80) by (bit_vector);
        assert(third_last_continuation_byte(scalar) >= 0x80) by (bit_vector);
        let first = encode_scalar(scalar);
        let all = encode_utf8(text);
        assert(all == first + encode_utf8(rest));
        assert forall|i: int| 0 <= i < all.len() implies #[trigger] all[i] != byte by {
            if i < first.len() {
                assert(all[i] == first[i]);
            } else {
                assert(all[i] == encode_utf8(rest)[i - first.len()]);
            }
        }
    }
}

/// How escapes are read: a byte that is no percent sign stands for itself, a percent sign and two
/// hexadecimal digits, capitals or not, stand for the byte they spell, and a percent sign that two
/// such digits do not follow makes the whole malformed.
pub proof fn lemma_escapes(first: u8, high: u8, low: u8, h: int, l: int, rest: Seq<u8>)
    requires
        (48 <= high <= 57 && h == high - 48) || (65 <= high <= 70 && h == high - 55) || (97 <= high
            <= 102 && h == high - 87) || h == -1,
        (48 <= low <= 57 && l == low - 48) || (65 <= low <= 70 && l == low - 55) || (97 <= low
            <= 102 && l == low - 87) || l == -1,
        h == -1 ==> !(48 <= high <= 57 || 65 <= high <= 70 || 97 <= high <= 102),
        l == -1 ==> !(48 <= low <= 57 || 65 <= low <= 70 || 97 <= low <= 102),
    ensures
        unescaped(Seq::empty()) == Some(Seq::<u8>::empty()),
        first != 0x25 ==> unescaped(seq![first] + rest) == match unescaped(rest) {
            Some(later) => Some(seq![first] + later),
            None => None,
        },
        h >= 0 && l >= 0 ==> unescaped(seq![0x25u8, high, low] + rest) == match unescaped(rest) {
            Some(later) => Some(seq![(16 * h + l) as u8] + later),
            None => None,
        },
        h == -1 || l == -1 ==> unescaped(seq![0x25u8, high, low] + rest) is None,
        unescaped(seq![0x25u8]) is None,
        unescaped(seq![0x25u8, high]) is None,
{
    let one = seq![first] + rest;
    assert(one[0] == first);
    assert(one.skip(1) =~= rest);
    let three = seq![0x25u8, high, low] + rest;
    assert(three[0] == 0x25 && three[1] == high && three[2] == low);
    assert(three.skip(3) =~= rest);
}

/// What a `file:` URI names, with `localhost` or without: its path with the escapes decoded, as it
/// is; but where that path begins with a drive letter, without the slash in front and with a colon
/// for every bar. Where an escape is malformed, or what it makes is no text, it names nothing.
pub proof fn lemma_uri_names_its_path(path: Seq<char>, bytes: Seq<u8>)
    requires
        path.len() > 0,
        path[0] == '/',
        unescaped(encode_utf8(path)) == Some(bytes),
    ensures
        ({
            let decoded = decode_utf8(bytes);
            let drive = decoded.len() >= 3 && decoded[0] == '/' && (65 <= decoded[1] as int <= 90
                || 97 <= decoded[1] as int <= 122) && (decoded[2] == ':' || decoded[2] == '|');
            let named = file_of("file://"@ + path);
            &&& file_of("file://localhost"@ + path) == named
            &&& !valid_utf8(bytes) ==> named is None
            &&& valid_utf8(bytes) && !drive ==> named == Some(decoded)
            &&& valid_utf8(bytes) && drive ==> {
                &&& named is Some
                &&& named->0.len() == decoded.len() - 1
                &&& forall|i: int|
                    0 <= i < named->0.len() ==> #[trigger] named->0[i] == if decoded[i + 1] == '|' {
                        ':'
                    } else {
                        decoded[i + 1]
                    }
            }
        }),
{
    lemma_uri_paths(path);
    if valid_utf8(bytes) {
        let decoded = decode_utf8(bytes);
        if decoded.len() >= 3 {
            lemma_scalar(decoded[1]);
        }
    }
}

/// A path without a percent sign is named by its URI character for character, unless it begins with
/// a drive letter.
pub proof fn lemma_plain_path_names_itself(path: Seq<char>)
    requires
        path.len() > 0,
        path[0] == '/',
        forall|i: int| 0 <= i < path.len() ==> #[trigger] path[i] != '%',
        !(path.len() >= 3 && (65 <= path[1] as int <= 90 || 97 <= path[1] as int <= 122) && (path[2]
            == ':' || path[2] == '|')),
    ensures
        file_of("file://"@ + path) == Some(path),
        file_of("file://localhost"@ + path) == Some(path),
{
    lemma_plain_bytes(path);
    lemma_uri_names_its_path(path, encode_utf8(path));
}

/// A path without a percent sign that begins with a drive letter is named without the slash in
/// front of it, and with a colon for every bar.
pub proof fn lemma_drive_path_is_named_without_its_slash(path: Seq<char>, i: int)
    requires
        path.len() >= 3,
        path[0] == '/',
        65 <= path[1] as int <= 90 || 97 <= path[1] as int <= 122,
        path[2] == ':' || path[2] == '|',
        forall|k: int| 0 <= k < path.len() ==> #[trigger] path[k] != '%',
        1 <= i < path.len(),
    ensures
        file_of("file://"@ + path) matches Some(disk) && disk.len() == path.len() - 1 && disk[i - 1]
            == if path[i] == '|' {
            ':'
        } else {
            path[i]
        },
{
    lemma_plain_bytes(path);
    lemma_uri_names_its_path(path, encode_utf8(path));
    let disk = file_of("file://"@ + path)->0;
    assert(disk[i - 1] == if path[i - 1 + 1] == '|' {
        ':'
    } else {
        path[i - 1 + 1]
    });
}

proof fn lemma_plain_bytes(path: Seq<char>)
    requires
        forall|i: int| 0 <= i < path.len() ==> #[trigger] path[i] != '%',
    ensures
        unescaped(encode_utf8(path)) == Some(encode_utf8(path)),
        valid_utf8(encode_utf8(path)),
        decode_utf8(encode_utf8(path)) == path,
{
    assert forall|i: int| 0 <= i < path.len() implies #[trigger] path[i] as int != 0x25 by {
        assert(path[i] != '%');
    }
    lemma_no_byte_without_its_character(path, 0x25);
    lemma_nothing_to_unescape(encode_utf8(path));
    encode_utf8_valid_utf8(path);
    encode_utf8_decode_utf8(path);
}

proof fn lemma_uri_paths(path: Seq<char>)
    requires
        path.len() > 0,
        path[0] == '/',
    ensures
        uri_path("file://"@ + path) == Some(path),
        uri_path("file://localhost"@ + path) == Some(path),
{
    reveal_strlit("file://");
    reveal_strlit("file://localhost");
    reveal_strlit("localhost/");
    reveal_strlit("/");
    let plain = "file://"@ + path;
    assert(plain.take(7) =~= "file://"@);
    assert(plain.skip(7) =~= path);
    assert(path.take(1) =~= "/"@);
    let local = "file://localhost"@ + path;
    assert(local.take(7) =~= "file://"@);
    let rest = local.skip(7);
    assert(rest.take(10) =~= "localhost/"@);
    assert(rest.skip(9) =~= path);
    assert(rest[0] == 'l');
    if starts_with(rest, "/"@) {
        assert(rest.take(1)[0] == rest[0]);
    }
}

/// Any other URI names nothing: one of another scheme, one without a path, and one of another host.
pub proof fn lemma_other_uris_name_nothing(uri: Seq<char>, host: Seq<char>, path: Seq<char>)
    requires
        host.len() > 0,
        forall|i: int| 0 <= i < host.len() ==> #[trigger] host[i] != '/',
        path.len() > 0 ==> path[0] == '/',
        host != "localhost"@ || path.len() == 0,
    ensures
        !"file://"@.is_prefix_of(uri) ==> file_of(uri) is None,
        file_of("file://"@ + host + path) is None,
        file_of("file://"@) is None,
{
    reveal_strlit("file://");
    reveal_strlit("localhost");
    reveal_strlit("localhost/");
    reveal_strlit("/");
    if starts_with(uri, "file://"@) {
        assert(uri.subrange(0, 7) =~= uri.take(7));
        assert("file://"@.is_prefix_of(uri));
    }
    let remote = "file://"@ + host + path;
    let rest = remote.skip(7);
    assert(rest =~= host + path);
    assert(rest[0] == host[0]);
    if starts_with(rest, "/"@) {
        assert(rest.take(1)[0] == rest[0]);
    }
    if starts_with(rest, "localhost/"@) {
        assert forall|i: int| 0 <= i < 10 implies rest[i] == "localhost/"@[i] by {
            assert(rest.take(10)[i] == rest[i]);
        }
        if host.len() < 9 {
            assert(rest[host.len() as int] == path[0]);
            assert("localhost/"@[host.len() as int] != '/');
        } else if host.len() > 9 {
            assert(rest[9] == host[9]);
        } else {
            assert forall|i: int| 0 <= i < 9 implies host[i] == "localhost"@[i] by {
                assert(rest[i] == host[i]);
                assert("localhost/"@[i] == "localhost"@[i]);
            }
            assert(host =~= "localhost"@);
            assert(path.len() > 0);
        }
    }
    let bare = "file://"@;
    assert(bare.skip(7).len() == 0);
}

} // verus!
