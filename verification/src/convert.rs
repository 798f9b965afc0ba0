//! Character-level conversion between text and EBCDIC.

use vstd::prelude::*;
use vstd::string::*;

use crate::codepage::Codepage;
use crate::text::{latin1, lemma_scalar, lossy, str_eq, text_from_utf8_lossy};

verus! {

/// Which way a conversion runs.
#[derive(Debug, Clone, Copy, PartialEq, Eq, Structural)]
pub enum Direction {
    /// EBCDIC bytes in, readable text out.
    EbcdicToAscii,
    /// Text in, EBCDIC out, as characters whose scalar values are the EBCDIC bytes.
    AsciiToEbcdic,
}

impl Direction {
    /// The action title for this direction and codepage.
    pub open spec fn title_text(self, codepage: Seq<char>) -> Seq<char> {
        match self {
            Direction::EbcdicToAscii => "Convert Ebcdic"@ + codepage + " to Ascii"@,
            Direction::AsciiToEbcdic => "Convert Ascii to Ebcdic"@ + codepage,
        }
    }

    /// The identifier of this direction.
    pub open spec fn name(self) -> Seq<char> {
        match self {
            Direction::EbcdicToAscii => "ebcdicToAscii"@,
            Direction::AsciiToEbcdic => "asciiToEbcdic"@,
        }
    }

    /// The direction that `name` identifies, if any.
    pub open spec fn named(name: Seq<char>) -> Option<Direction> {
        if name == "ebcdicToAscii"@ {
            Some(Direction::EbcdicToAscii)
        } else if name == "asciiToEbcdic"@ {
            Some(Direction::AsciiToEbcdic)
        } else {
            None
        }
    }

    /// The action title.
    pub fn title(self, codepage: &str) -> (title: String)
        ensures
            title@ == self.title_text(codepage@),
    {
        let mut title = String::new();
        match self {
            Direction::EbcdicToAscii => {
                title.append("Convert Ebcdic");
                title.append(codepage);
                title.append(" to Ascii");
            },
            Direction::AsciiToEbcdic => {
                title.append("Convert Ascii to Ebcdic");
                title.append(codepage);
            },
        }
        assert(title@ =~= self.title_text(codepage@));
        title
    }

    /// Stable identifier used in the payload of a code action.
    pub fn as_str(self) -> (name: &'static str)
        ensures
            name@ == self.name(),
    {
        match self {
            Direction::EbcdicToAscii => "ebcdicToAscii",
            Direction::AsciiToEbcdic => "asciiToEbcdic",
        }
    }

    /// The direction with this identifier.
    pub fn from_str(value: &str) -> (direction: Option<Self>)
        ensures
            direction == Direction::named(value@),
    {
        if str_eq(value, "ebcdicToAscii") {
            Some(Direction::EbcdicToAscii)
        } else if str_eq(value, "asciiToEbcdic") {
            Some(Direction::AsciiToEbcdic)
        } else {
            None
        }
    }
}

/// A direction is found again under its own identifier, and every identifier that is accepted is
/// that of the direction it gives.
pub proof fn lemma_direction_round_trips(direction: Direction, name: Seq<char>)
    ensures
        Direction::named(direction.name()) == Some(direction),
        Direction::named(name) matches Some(d) ==> d.name() == name,
{
    reveal_strlit("ebcdicToAscii");
    reveal_strlit("asciiToEbcdic");
    assert("ebcdicToAscii"@[0] != "asciiToEbcdic"@[0]);
}

// ---------------------------------------------------------------------------------------------
// Decoding and encoding
// ---------------------------------------------------------------------------------------------
/// EBCDIC bytes decoded: each byte's character, nothing dropped or added.
pub open spec fn decoded(bytes: Seq<u8>, codepage: Codepage) -> Seq<char> {
    bytes.map_values(|b: u8| codepage.to_ascii@[b as int])
}

/// How one character of text that holds EBCDIC values decodes. Characters above U+00FF cannot be
/// EBCDIC input and stay as they are.
pub open spec fn decoded_char(c: char, codepage: Codepage) -> char {
    if c <= '\u{ff}' {
        codepage.to_ascii@[c as int]
    } else {
        c
    }
}

/// Text that holds EBCDIC values, decoded character by character.
pub open spec fn decoded_text(text: Seq<char>, codepage: Codepage) -> Seq<char> {
    text.map_values(|c: char| decoded_char(c, codepage))
}

/// How one character encodes: the character whose scalar value is its EBCDIC byte, or NUL above
/// U+00FF.
pub open spec fn encoded_char(c: char, codepage: Codepage) -> char {
    if c <= '\u{ff}' {
        codepage.to_ebcdic@[c as int] as char
    } else {
        '\0'
    }
}

/// `text` without carriage returns.
pub open spec fn without_cr(text: Seq<char>) -> Seq<char> {
    text.filter(|c: char| c != '\r')
}

/// Text encoded: carriage returns are dropped, and each other character is encoded.
pub open spec fn encoded(text: Seq<char>, codepage: Codepage) -> Seq<char> {
    without_cr(text).map_values(|c: char| encoded_char(c, codepage))
}

/// Convert raw EBCDIC bytes to text. Every byte maps through the table.
pub fn ebcdic_to_ascii(bytes: &[u8], codepage: &Codepage) -> (text: String)
    ensures
        text@ == decoded(bytes@, *codepage),
{
    let mut out = String::new();
    let mut i: usize = 0;
    while i < bytes.len()
        invariant
            i <= bytes@.len(),
            out@ == decoded(bytes@.take(i as int), *codepage),
        decreases bytes@.len() - i,
    {
        out.push(codepage.to_ascii[bytes[i] as usize]);
        i += 1;
        assert(out@ =~= decoded(bytes@.take(i as int), *codepage));
    }
    assert(bytes@.take(bytes@.len() as int) == bytes@);
    out
}

/// Convert text that is *holding* EBCDIC values to readable text.
///
/// Used when there are no bytes to read: an unsaved buffer, or a selection. The table is indexed
/// per character, not per UTF-8 byte: going by bytes would convert every character above U+007F
/// twice. Characters above U+00FF pass through unchanged, U+FFFD from an already mangled file
/// among them.
pub fn ebcdic_text_to_ascii(text: &str, codepage: &Codepage) -> (out: String)
    ensures
        out@ == decoded_text(text@, *codepage),
{
    let mut out = String::new();
    for c in it: text.chars()
        invariant
            it.seq() == text@,
            out@ == decoded_text(text@.take(it.index() as int), *codepage),
    {
        let ghost before = text@.take(it.index() as int);
        match latin1(c) {
            Some(byte) => out.push(codepage.to_ascii[byte as usize]),
            None => out.push(c),
        }
        proof {
            assert(text@.take(it.index() + 1) == before.push(c));
            assert(out@ =~= decoded_text(before.push(c), *codepage));
        }
    }
    assert(text@.take(text@.len() as int) == text@);
    out
}

/// Convert text to EBCDIC, yielding characters whose scalar values are the EBCDIC bytes.
///
/// A carriage return is dropped rather than translated: converting both CR and LF would corrupt
/// line endings, so CRLF input yields a single EBCDIC newline. Characters above U+00FF have no
/// byte and become NUL.
pub fn ascii_to_ebcdic(text: &str, codepage: &Codepage) -> (out: String)
    ensures
        out@ == encoded(text@, *codepage),
{
    let mut out = String::new();
    proof {
        assert(without_cr(Seq::empty()) == Seq::<char>::empty()) by {
            reveal(Seq::filter);
        }
        assert(out@ =~= encoded(text@.take(0), *codepage));
    }
    for c in it: text.chars()
        invariant
            it.seq() == text@,
            out@ == encoded(text@.take(it.index() as int), *codepage),
    {
        let ghost before = text@.take(it.index() as int);
        proof {
            assert(text@.take(it.index() + 1) == before.push(c));
            lemma_without_cr_push(before, c);
        }
        if c != '\r' {
            match latin1(c) {
                Some(byte) => out.push(codepage.to_ebcdic[byte as usize] as char),
                None => out.push('\0'),
            }
        }
        assert(out@ =~= encoded(before.push(c), *codepage));
    }
    assert(text@.take(text@.len() as int) == text@);
    out
}

proof fn lemma_without_cr_push(text: Seq<char>, c: char)
    ensures
        without_cr(text.push(c)) == (if c != '\r' {
            without_cr(text).push(c)
        } else {
            without_cr(text)
        }),
{
    reveal(Seq::filter);
    assert(text.push(c).drop_last() == text);
}

/// The input to a conversion: raw bytes off disk, or text as the editor holds it.
///
/// A real EBCDIC file is not valid UTF-8, so by the time it reaches an editor buffer its invalid
/// sequences have become U+FFFD and the bytes are gone. Decoding a whole file must therefore read
/// from disk; selections and unsaved buffers have no bytes to read and use the text.
#[derive(Debug)]
pub enum Source<'a> {
    /// Raw bytes read from the file on disk.
    Bytes(Vec<u8>),
    /// Text as the editor currently holds it.
    Text(&'a str),
}

/// What converting `source` gives. Encoding always starts from text, so bytes are first read as
/// UTF-8, malformed parts replaced.
pub open spec fn converted(source: Source<'_>, direction: Direction, codepage: Codepage) -> Seq<
    char,
> {
    match (direction, source) {
        (Direction::EbcdicToAscii, Source::Bytes(bytes)) => decoded(bytes@, codepage),
        (Direction::EbcdicToAscii, Source::Text(text)) => decoded_text(text@, codepage),
        (Direction::AsciiToEbcdic, Source::Bytes(bytes)) => encoded(lossy(bytes@), codepage),
        (Direction::AsciiToEbcdic, Source::Text(text)) => encoded(text@, codepage),
    }
}

/// Convert `source` in `direction` using `codepage`.
pub fn convert(source: &Source<'_>, direction: Direction, codepage: &Codepage) -> (text: String)
    ensures
        text@ == converted(*source, direction, *codepage),
        direction == Direction::EbcdicToAscii ==> match *source {
            Source::Bytes(bytes) => text@ == decoded(bytes@, *codepage),
            Source::Text(held) => text@ == decoded_text(held@, *codepage),
        },
        direction == Direction::AsciiToEbcdic ==> match *source {
            Source::Bytes(bytes) => text@ == encoded(lossy(bytes@), *codepage),
            Source::Text(held) => text@ == encoded(held@, *codepage),
        },
        (source matches Source::Bytes(bytes) && direction == Direction::AsciiToEbcdic
            && vstd::utf8::valid_utf8(bytes@)) ==> text@ == encoded(
            vstd::utf8::decode_utf8(source->Bytes_0@),
            *codepage,
        ),
{
    match (direction, source) {
        (Direction::EbcdicToAscii, Source::Bytes(bytes)) => ebcdic_to_ascii(
            bytes.as_slice(),
            codepage,
        ),
        (Direction::EbcdicToAscii, Source::Text(text)) => ebcdic_text_to_ascii(text, codepage),
        (Direction::AsciiToEbcdic, Source::Bytes(bytes)) => {
            let text = text_from_utf8_lossy(bytes.as_slice());
            ascii_to_ebcdic(text.as_str(), codepage)
        },
        (Direction::AsciiToEbcdic, Source::Text(text)) => ascii_to_ebcdic(text, codepage),
    }
}

// ---------------------------------------------------------------------------------------------
// Laws
// ---------------------------------------------------------------------------------------------
/// Whether every character of `text` has a byte in each codepage and survives the round trip:
/// none above U+00FF, no carriage return, no NEL.
pub open spec fn survives(text: Seq<char>) -> bool {
    forall|i: int|
        0 <= i < text.len() ==> (#[trigger] text[i]) <= '\u{ff}' && text[i] != '\r' && text[i]
            != '\u{85}'
}

/// The bytes that encoded text stands for.
pub open spec fn bytes_of(text: Seq<char>) -> Seq<u8> {
    text.map_values(|c: char| c as u8)
}

/// Text without carriage returns is left alone by [`without_cr`].
pub proof fn lemma_without_cr_identity(text: Seq<char>)
    requires
        forall|i: int| 0 <= i < text.len() ==> text[i] != '\r',
    ensures
        without_cr(text) == text,
    decreases text.len(),
{
    reveal(Seq::filter);
    if text.len() > 0 {
        let front = text.drop_last();
        assert forall|i: int| 0 <= i < front.len() implies front[i] != '\r' by {
            assert(front[i] == text[i]);
        }
        lemma_without_cr_identity(front);
        assert(front.push(text.last()) == text);
        assert(text[text.len() - 1] != '\r');
    }
}

/// Encoding and then decoding gives the text back, whether the encoded text is decoded as text or
/// as the bytes it stands for.
pub proof fn lemma_round_trip(text: Seq<char>, codepage: Codepage)
    requires
        codepage.well_formed(),
        survives(text),
    ensures
        decoded_text(encoded(text, codepage), codepage) == text,
        decoded(bytes_of(encoded(text, codepage)), codepage) == text,
{
    assert forall|i: int| 0 <= i < text.len() implies text[i] != '\r' by {}
    lemma_without_cr_identity(text);
    let there = encoded(text, codepage);
    assert forall|i: int| 0 <= i < text.len() implies {
        &&& decoded_char(there[i], codepage) == text[i]
        &&& codepage.to_ascii@[there[i] as u8 as int] == text[i]
    } by {
        let c = text[i];
        lemma_scalar(c);
        let b = codepage.to_ebcdic@[c as int];
        assert(there[i] == b as char);
        assert(codepage.entry_agrees(c as u8 as int));
        assert(b as char as u8 == b);
    }
    assert(decoded_text(there, codepage) =~= text);
    assert(decoded(bytes_of(there), codepage) =~= text);
}

/// Printable ASCII text survives encoding and decoding.
pub proof fn lemma_printable_ascii_survives(text: Seq<char>)
    requires
        forall|i: int| 0 <= i < text.len() ==> ' ' <= #[trigger] text[i] <= '~',
    ensures
        survives(text),
{
}

/// Encoded text holds nothing above U+00FF, so each character stands for one byte.
pub proof fn lemma_encoded_fits_bytes(text: Seq<char>, codepage: Codepage)
    ensures
        forall|i: int|
            0 <= i < encoded(text, codepage).len() ==> (#[trigger] encoded(text, codepage)[i])
                <= '\u{ff}',
{
}

/// Carriage returns make no difference to the encoding.
pub proof fn lemma_cr_makes_no_difference(text: Seq<char>, codepage: Codepage)
    ensures
        encoded(without_cr(text), codepage) == encoded(text, codepage),
{
    let rest = without_cr(text);
    broadcast use vstd::seq_lib::group_filter_ensures;
    lemma_without_cr_identity(rest);
}

/// Decoding text that holds EBCDIC values agrees with decoding the bytes it stands for.
pub proof fn lemma_text_and_bytes_agree(text: Seq<char>, codepage: Codepage)
    requires
        forall|i: int| 0 <= i < text.len() ==> (#[trigger] text[i]) <= '\u{ff}',
    ensures
        decoded_text(text, codepage) == decoded(bytes_of(text), codepage),
{
    assert forall|i: int| 0 <= i < text.len() implies decoded_text(text, codepage)[i] == decoded(
        bytes_of(text),
        codepage,
    )[i] by {
        lemma_scalar(text[i]);
    }
    assert(decoded_text(text, codepage) =~= decoded(bytes_of(text), codepage));
}

/// Decoding goes byte by byte, and character by character where text holds the bytes: nothing is
/// dropped or added, and what comes before or after a part makes no difference to it.
pub proof fn lemma_decoding_goes_piece_by_piece(
    a: Seq<u8>,
    b: Seq<u8>,
    s: Seq<char>,
    t: Seq<char>,
    codepage: Codepage,
)
    ensures
        decoded(a + b, codepage) == decoded(a, codepage) + decoded(b, codepage),
        decoded(a, codepage).len() == a.len(),
        decoded_text(s + t, codepage) == decoded_text(s, codepage) + decoded_text(t, codepage),
        decoded_text(s, codepage).len() == s.len(),
{
    assert(decoded(a + b, codepage) =~= decoded(a, codepage) + decoded(b, codepage));
    assert(decoded_text(s + t, codepage) =~= decoded_text(s, codepage) + decoded_text(t, codepage));
}

/// Encoding goes character by character: what comes before or after a part makes no difference to
/// it, a carriage return leaves nothing behind, and every other character leaves one.
pub proof fn lemma_encoding_goes_piece_by_piece(
    s: Seq<char>,
    t: Seq<char>,
    c: char,
    codepage: Codepage,
)
    ensures
        encoded(s + t, codepage) == encoded(s, codepage) + encoded(t, codepage),
        encoded(seq!['\r'], codepage) == Seq::<char>::empty(),
        c != '\r' ==> encoded(seq![c], codepage).len() == 1,
{
    Seq::filter_distributes_over_add(s, t, |c: char| c != '\r');
    assert(encoded(s + t, codepage) =~= encoded(s, codepage) + encoded(t, codepage));
    let none = Seq::<char>::empty();
    lemma_without_cr_push(none, '\r');
    lemma_without_cr_push(none, c);
    lemma_without_cr_identity(none);
    assert(none.push('\r') == seq!['\r']);
    assert(none.push(c) == seq![c]);
}

/// Characters that no codepage has, those above U+00FF, decode to themselves and encode to NUL.
pub proof fn lemma_characters_without_a_byte(c: char, codepage: Codepage)
    requires
        c as int > 0xFF,
    ensures
        decoded_text(seq![c], codepage) == seq![c],
        encoded(seq![c], codepage) == seq!['\0'],
{
    lemma_without_cr_identity(seq![c]);
    assert(decoded_text(seq![c], codepage) =~= seq![c]);
    assert(encoded(seq![c], codepage) =~= seq!['\0']);
}

/// Line ends: a line feed encodes to `0x25` and NEL to `0x15`, both of which decode to a line feed,
/// and `0x0D` decodes to a carriage return.
pub proof fn lemma_line_ends(codepage: Codepage)
    requires
        codepage.line_ends_agree(),
    ensures
        encoded(seq!['\n'], codepage) == seq!['\u{25}'],
        encoded(seq!['\u{85}'], codepage) == seq!['\u{15}'],
        decoded(seq![0x15u8], codepage) == seq!['\n'],
        decoded(seq![0x25u8], codepage) == seq!['\n'],
        decoded(seq![0x0Du8], codepage) == seq!['\r'],
{
    lemma_without_cr_identity(seq!['\n']);
    lemma_without_cr_identity(seq!['\u{85}']);
    assert(encoded(seq!['\n'], codepage) =~= seq!['\u{25}']);
    assert(encoded(seq!['\u{85}'], codepage) =~= seq!['\u{15}']);
    assert(decoded(seq![0x15u8], codepage) =~= seq!['\n']);
    assert(decoded(seq![0x25u8], codepage) =~= seq!['\n']);
    assert(decoded(seq![0x0Du8], codepage) =~= seq!['\r']);
}

/// What the actions are called, and how a direction is written down.
pub proof fn lemma_direction_texts(codepage: Seq<char>)
    ensures
        Direction::EbcdicToAscii.title_text(codepage) == "Convert Ebcdic"@ + codepage
            + " to Ascii"@,
        Direction::AsciiToEbcdic.title_text(codepage) == "Convert Ascii to Ebcdic"@ + codepage,
        Direction::EbcdicToAscii.name() == "ebcdicToAscii"@,
        Direction::AsciiToEbcdic.name() == "asciiToEbcdic"@,
{
}

/// A codepage that reads as `published` decodes each byte to its character there, whether it comes
/// as a byte or as text that holds it, and encodes that character to the byte.
pub proof fn lemma_published(
    codepage: Codepage,
    published: Seq<char>,
    bytes: Seq<u8>,
    text: Seq<char>,
)
    requires
        forall|b: u8| #[trigger] codepage.reads_at(published, b as int),
    ensures
        forall|i: int|
            0 <= i < bytes.len() ==> #[trigger] decoded(bytes, codepage)[i]
                == published[bytes[i] as int],
        forall|i: int|
            0 <= i < text.len() && text[i] <= '\u{ff}' ==> #[trigger] decoded_text(
                text,
                codepage,
            )[i] == published[text[i] as int],
        forall|i: int, b: u8|
            (0 <= i < text.len() && b != 0x15 && text[i] == published[b as int] && forall|k: int|
                0 <= k < text.len() ==> #[trigger] text[k] != '\r') ==> #[trigger] encoded(
                text,
                codepage,
            )[i] == #[trigger] (b as char),
{
    assert forall|i: int| 0 <= i < bytes.len() implies #[trigger] decoded(bytes, codepage)[i]
        == published[bytes[i] as int] by {
        assert(codepage.reads_at(published, bytes[i] as int));
    }
    assert forall|i: int| 0 <= i < text.len() && text[i] <= '\u{ff}' implies #[trigger] decoded_text(
        text,
        codepage,
    )[i] == published[text[i] as int] by {
        lemma_scalar(text[i]);
        assert(codepage.reads_at(published, text[i] as u8 as int));
    }
    assert forall|i: int, b: u8|
        (0 <= i < text.len() && b != 0x15 && text[i] == published[b as int] && forall|k: int|
            0 <= k < text.len() ==> #[trigger] text[k] != '\r') implies #[trigger] encoded(
        text,
        codepage,
    )[i] == #[trigger] (b as char) by {
        lemma_without_cr_identity(text);
        assert(codepage.reads_at(published, b as int));
    }
}

/// Encoded text stands for one byte per character, that of its scalar value.
pub proof fn lemma_bytes_of_by_scalar(text: Seq<char>, i: int)
    requires
        0 <= i < text.len(),
        text[i] as int <= 0xFF,
    ensures
        bytes_of(text).len() == text.len(),
        bytes_of(text)[i] as int == text[i] as int,
{
    lemma_scalar(text[i]);
}

} // verus!
