//! Codepage 0277: Denmark and Norway.

use vstd::prelude::*;

use crate::codepage::{lemma_rows_make_a_table, lemma_rows_read, Codepage};
use crate::convert::{decoded, decoded_text, encoded, lemma_published};

verus! {

/// The character of each byte.
pub const TO_ASCII: [char; 256] = [
    '\0', '\u{01}', '\u{02}', '\u{03}', '\u{9c}', '\t', '\u{86}', '\u{7f}',
    '\u{97}', '\u{8d}', '\u{8e}', '\u{0b}', '\u{0c}', '\r', '\u{0e}', '\u{0f}',
    '\u{10}', '\u{11}', '\u{12}', '\u{13}', '\u{9d}', '\n', '\u{08}', '\u{87}',
    '\u{18}', '\u{19}', '\u{92}', '\u{8f}', '\u{1c}', '\u{1d}', '\u{1e}', '\u{1f}',
    '\u{80}', '\u{81}', '\u{82}', '\u{83}', '\u{84}', '\n', '\u{17}', '\u{1b}',
    '\u{88}', '\u{89}', '\u{8a}', '\u{8b}', '\u{8c}', '\u{05}', '\u{06}', '\u{07}',
    '\u{90}', '\u{91}', '\u{16}', '\u{93}', '\u{94}', '\u{95}', '\u{96}', '\u{04}',
    '\u{98}', '\u{99}', '\u{9a}', '\u{9b}', '\u{14}', '\u{15}', '\u{9e}', '\u{1a}',
    ' ', '\u{a0}', '\u{e2}', '\u{e4}', '\u{e0}', '\u{e1}', '\u{e3}', '}',
    '\u{e7}', '\u{f1}', '#', '.', '<', '(', '+', '!',
    '&', '\u{e9}', '\u{ea}', '\u{eb}', '\u{e8}', '\u{ed}', '\u{ee}', '\u{ef}',
    '\u{ec}', '\u{df}', '\u{a4}', '\u{c5}', '*', ')', ';', '^',
    '-', '/', '\u{c2}', '\u{c4}', '\u{c0}', '\u{c1}', '\u{c3}', '$',
    '\u{c7}', '\u{d1}', '\u{f8}', ',', '%', '_', '>', '?',
    '\u{a6}', '\u{c9}', '\u{ca}', '\u{cb}', '\u{c8}', '\u{cd}', '\u{ce}', '\u{cf}',
    '\u{cc}', '`', ':', '\u{c6}', '\u{d8}', '\'', '=', '"',
    '@', 'a', 'b', 'c', 'd', 'e', 'f', 'g',
    'h', 'i', '\u{ab}', '\u{bb}', '\u{f0}', '\u{fd}', '\u{fe}', '\u{b1}',
    '\u{b0}', 'j', 'k', 'l', 'm', 'n', 'o', 'p',
    'q', 'r', '\u{aa}', '\u{ba}', '{', '\u{b8}', '[', ']',
    '\u{b5}', '\u{fc}', 's', 't', 'u', 'v', 'w', 'x',
    'y', 'z', '\u{a1}', '\u{bf}', '\u{d0}', '\u{dd}', '\u{de}', '\u{ae}',
    '\u{a2}', '\u{a3}', '\u{a5}', '\u{b7}', '\u{a9}', '\u{a7}', '\u{b6}', '\u{bc}',
    '\u{bd}', '\u{be}', '\u{ac}', '|', '\u{af}', '\u{a8}', '\u{b4}', '\u{d7}',
    '\u{e6}', 'A', 'B', 'C', 'D', 'E', 'F', 'G',
    'H', 'I', '\u{ad}', '\u{f4}', '\u{f6}', '\u{f2}', '\u{f3}', '\u{f5}',
    '\u{e5}', 'J', 'K', 'L', 'M', 'N', 'O', 'P',
    'Q', 'R', '\u{b9}', '\u{fb}', '~', '\u{f9}', '\u{fa}', '\u{ff}',
    '\\', '\u{f7}', 'S', 'T', 'U', 'V', 'W', 'X',
    'Y', 'Z', '\u{b2}', '\u{d4}', '\u{d6}', '\u{d2}', '\u{d3}', '\u{d5}',
    '0', '1', '2', '3', '4', '5', '6', '7',
    '8', '9', '\u{b3}', '\u{db}', '\u{dc}', '\u{d9}', '\u{da}', '\u{9f}',
];

/// The byte of each character up to U+00FF.
pub const TO_EBCDIC: [u8; 256] = [
    0x00, 0x01, 0x02, 0x03, 0x37, 0x2D, 0x2E, 0x2F, 0x16, 0x05, 0x25, 0x0B, 0x0C, 0x0D, 0x0E, 0x0F,
    0x10, 0x11, 0x12, 0x13, 0x3C, 0x3D, 0x32, 0x26, 0x18, 0x19, 0x3F, 0x27, 0x1C, 0x1D, 0x1E, 0x1F,
    0x40, 0x4F, 0x7F, 0x4A, 0x67, 0x6C, 0x50, 0x7D, 0x4D, 0x5D, 0x5C, 0x4E, 0x6B, 0x60, 0x4B, 0x61,
    0xF0, 0xF1, 0xF2, 0xF3, 0xF4, 0xF5, 0xF6, 0xF7, 0xF8, 0xF9, 0x7A, 0x5E, 0x4C, 0x7E, 0x6E, 0x6F,
    0x80, 0xC1, 0xC2, 0xC3, 0xC4, 0xC5, 0xC6, 0xC7, 0xC8, 0xC9, 0xD1, 0xD2, 0xD3, 0xD4, 0xD5, 0xD6,
    0xD7, 0xD8, 0xD9, 0xE2, 0xE3, 0xE4, 0xE5, 0xE6, 0xE7, 0xE8, 0xE9, 0x9E, 0xE0, 0x9F, 0x5F, 0x6D,
    0x79, 0x81, 0x82, 0x83, 0x84, 0x85, 0x86, 0x87, 0x88, 0x89, 0x91, 0x92, 0x93, 0x94, 0x95, 0x96,
    0x97, 0x98, 0x99, 0xA2, 0xA3, 0xA4, 0xA5, 0xA6, 0xA7, 0xA8, 0xA9, 0x9C, 0xBB, 0x47, 0xDC, 0x07,
    0x20, 0x21, 0x22, 0x23, 0x24, 0x15, 0x06, 0x17, 0x28, 0x29, 0x2A, 0x2B, 0x2C, 0x09, 0x0A, 0x1B,
    0x30, 0x31, 0x1A, 0x33, 0x34, 0x35, 0x36, 0x08, 0x38, 0x39, 0x3A, 0x3B, 0x04, 0x14, 0x3E, 0xFF,
    0x41, 0xAA, 0xB0, 0xB1, 0x5A, 0xB2, 0x70, 0xB5, 0xBD, 0xB4, 0x9A, 0x8A, 0xBA, 0xCA, 0xAF, 0xBC,
    0x90, 0x8F, 0xEA, 0xFA, 0xBE, 0xA0, 0xB6, 0xB3, 0x9D, 0xDA, 0x9B, 0x8B, 0xB7, 0xB8, 0xB9, 0xAB,
    0x64, 0x65, 0x62, 0x66, 0x63, 0x5B, 0x7B, 0x68, 0x74, 0x71, 0x72, 0x73, 0x78, 0x75, 0x76, 0x77,
    0xAC, 0x69, 0xED, 0xEE, 0xEB, 0xEF, 0xEC, 0xBF, 0x7C, 0xFD, 0xFE, 0xFB, 0xFC, 0xAD, 0xAE, 0x59,
    0x44, 0x45, 0x42, 0x46, 0x43, 0xD0, 0xC0, 0x48, 0x54, 0x51, 0x52, 0x53, 0x58, 0x55, 0x56, 0x57,
    0x8C, 0x49, 0xCD, 0xCE, 0xCB, 0xCF, 0xCC, 0xE1, 0x6A, 0xDD, 0xDE, 0xDB, 0xA1, 0x8D, 0x8E, 0xDF,
];

/// The codepage.
#[verifier::opaque]
pub open spec fn page() -> Codepage {
    Codepage { id: "0277", to_ascii: &TO_ASCII, to_ebcdic: &TO_EBCDIC }
}

/// The codepage.
pub fn codepage() -> (cp: Codepage)
    ensures
        cp == page(),
{
    reveal(page);
    Codepage { id: "0277", to_ascii: &TO_ASCII, to_ebcdic: &TO_EBCDIC }
}

/// What the codepage is called.
pub proof fn lemma_id()
    ensures
        page().id@ == "0277"@,
{
    reveal(page);
}

/// Every character up to U+00FF but NEL survives encoding and decoding, and line ends are where
/// every codepage has them.
pub proof fn lemma_well_formed()
    ensures
        page().well_formed(),
        page().line_ends_agree(),
{
    reveal(page);
    lemma_rows_make_a_table(page());
}

/// Letters, digits and the space are where every codepage has them.
pub proof fn lemma_common_characters()
    ensures
        page().common_characters_agree(),
{
    reveal(page);
}

/// What every byte decodes to and every character of the page encodes to: the 256 characters, in
/// the order of their bytes.
pub proof fn lemma_reads_as_published(bytes: Seq<u8>, text: Seq<char>)
    ensures
        ({
            let published = "\
\u{0}\u{1}\u{2}\u{3}\u{9c}\t\u{86}\u{7f}\u{97}\u{8d}\u{8e}\u{b}\u{c}\r\u{e}\u{f}\
\u{10}\u{11}\u{12}\u{13}\u{9d}\n\u{8}\u{87}\u{18}\u{19}\u{92}\u{8f}\u{1c}\u{1d}\u{1e}\u{1f}\
\u{80}\u{81}\u{82}\u{83}\u{84}\n\u{17}\u{1b}\u{88}\u{89}\u{8a}\u{8b}\u{8c}\u{5}\u{6}\u{7}\
\u{90}\u{91}\u{16}\u{93}\u{94}\u{95}\u{96}\u{4}\u{98}\u{99}\u{9a}\u{9b}\u{14}\u{15}\u{9e}\u{1a}\
\u{20}\u{a0}âäàáã}çñ#.<(+!\
&éêëèíîïìß¤Å*);^\
-/ÂÄÀÁÃ$ÇÑø,%_>?\
¦ÉÊËÈÍÎÏÌ`:ÆØ'=\"\
@abcdefghi«»ðýþ±\
°jklmnopqrªº{¸[]\
µüstuvwxyz¡¿ÐÝÞ®\
¢£¥·©§¶¼½¾¬|¯¨´×\
æABCDEFGHI\u{ad}ôöòóõ\
åJKLMNOPQR¹û~ùúÿ\
\\÷STUVWXYZ²ÔÖÒÓÕ\
0123456789³ÛÜÙÚ\u{9f}"@;
            &&& forall|i: int|
                0 <= i < bytes.len() ==> #[trigger] decoded(bytes, page())[i]
                    == published[bytes[i] as int]
            &&& forall|i: int|
                0 <= i < text.len() && text[i] <= '\u{ff}' ==> #[trigger] decoded_text(
                    text,
                    page(),
                )[i] == published[text[i] as int]
            &&& forall|i: int, b: u8|
                (0 <= i < text.len() && b != 0x15 && text[i] == published[b as int] && forall|
                    k: int,
                |
                    0 <= k < text.len() ==> #[trigger] text[k] != '\r') ==> #[trigger] encoded(
                    text,
                    page(),
                )[i] == #[trigger] (b as char)
        }),
{
    reveal(page);
    let published = "\
\u{0}\u{1}\u{2}\u{3}\u{9c}\t\u{86}\u{7f}\u{97}\u{8d}\u{8e}\u{b}\u{c}\r\u{e}\u{f}\
\u{10}\u{11}\u{12}\u{13}\u{9d}\n\u{8}\u{87}\u{18}\u{19}\u{92}\u{8f}\u{1c}\u{1d}\u{1e}\u{1f}\
\u{80}\u{81}\u{82}\u{83}\u{84}\n\u{17}\u{1b}\u{88}\u{89}\u{8a}\u{8b}\u{8c}\u{5}\u{6}\u{7}\
\u{90}\u{91}\u{16}\u{93}\u{94}\u{95}\u{96}\u{4}\u{98}\u{99}\u{9a}\u{9b}\u{14}\u{15}\u{9e}\u{1a}\
\u{20}\u{a0}âäàáã}çñ#.<(+!\
&éêëèíîïìß¤Å*);^\
-/ÂÄÀÁÃ$ÇÑø,%_>?\
¦ÉÊËÈÍÎÏÌ`:ÆØ'=\"\
@abcdefghi«»ðýþ±\
°jklmnopqrªº{¸[]\
µüstuvwxyz¡¿ÐÝÞ®\
¢£¥·©§¶¼½¾¬|¯¨´×\
æABCDEFGHI\u{ad}ôöòóõ\
åJKLMNOPQR¹û~ùúÿ\
\\÷STUVWXYZ²ÔÖÒÓÕ\
0123456789³ÛÜÙÚ\u{9f}";
    reveal_strlit("\
\u{0}\u{1}\u{2}\u{3}\u{9c}\t\u{86}\u{7f}\u{97}\u{8d}\u{8e}\u{b}\u{c}\r\u{e}\u{f}\
\u{10}\u{11}\u{12}\u{13}\u{9d}\n\u{8}\u{87}\u{18}\u{19}\u{92}\u{8f}\u{1c}\u{1d}\u{1e}\u{1f}\
\u{80}\u{81}\u{82}\u{83}\u{84}\n\u{17}\u{1b}\u{88}\u{89}\u{8a}\u{8b}\u{8c}\u{5}\u{6}\u{7}\
\u{90}\u{91}\u{16}\u{93}\u{94}\u{95}\u{96}\u{4}\u{98}\u{99}\u{9a}\u{9b}\u{14}\u{15}\u{9e}\u{1a}\
\u{20}\u{a0}âäàáã}çñ#.<(+!\
&éêëèíîïìß¤Å*);^\
-/ÂÄÀÁÃ$ÇÑø,%_>?\
¦ÉÊËÈÍÎÏÌ`:ÆØ'=\"\
@abcdefghi«»ðýþ±\
°jklmnopqrªº{¸[]\
µüstuvwxyz¡¿ÐÝÞ®\
¢£¥·©§¶¼½¾¬|¯¨´×\
æABCDEFGHI\u{ad}ôöòóõ\
åJKLMNOPQR¹û~ùúÿ\
\\÷STUVWXYZ²ÔÖÒÓÕ\
0123456789³ÛÜÙÚ\u{9f}");
    lemma_rows_read(page(), published@);
    lemma_published(page(), published@, bytes, text);
}

} // verus!
