//! What a codepage is, and what makes one sound.

use vstd::prelude::*;

verus! {

/// A codepage: how each byte decodes and how each character up to U+00FF encodes.
#[derive(Debug, Clone, Copy)]
pub struct Codepage {
    /// Four-digit id, such as `0037`.
    pub id: &'static str,
    /// The character of each byte.
    pub to_ascii: &'static [char; 256],
    /// The byte of each character up to U+00FF, by its scalar value.
    pub to_ebcdic: &'static [u8; 256],
}

impl Codepage {
    /// Encoding a character up to U+00FF and decoding the byte gives the character back, except
    /// that NEL comes back as a line feed.
    pub open spec fn well_formed(self) -> bool {
        forall|c: u8| #[trigger] self.entry_agrees(c as int)
    }

    /// Where the line ends are: `0x0D` is the carriage return, `0x15` and `0x25` both decode to a
    /// line feed, and a line feed encodes to `0x25` and NEL to `0x15`.
    pub open spec fn line_ends_agree(self) -> bool {
        &&& self.to_ascii@[0x0D] == '\r'
        &&& self.to_ascii@[0x15] == '\n'
        &&& self.to_ascii@[0x25] == '\n'
        &&& self.to_ebcdic@['\n' as int] == 0x25
        &&& self.to_ebcdic@[0x85] == 0x15
    }

    /// `byte` decodes to `c`, and `c` encodes to `byte`.
    pub open spec fn stands_at(self, c: char, byte: u8) -> bool {
        self.to_ascii@[byte as int] == c && self.to_ebcdic@[c as int] == byte
    }

    /// Capital letters are where EBCDIC has them.
    pub open spec fn capitals_agree(self) -> bool {
        &&& self.stands_at('A', 0xC1)
        &&& self.stands_at('B', 0xC2)
        &&& self.stands_at('C', 0xC3)
        &&& self.stands_at('D', 0xC4)
        &&& self.stands_at('E', 0xC5)
        &&& self.stands_at('F', 0xC6)
        &&& self.stands_at('G', 0xC7)
        &&& self.stands_at('H', 0xC8)
        &&& self.stands_at('I', 0xC9)
        &&& self.stands_at('J', 0xD1)
        &&& self.stands_at('K', 0xD2)
        &&& self.stands_at('L', 0xD3)
        &&& self.stands_at('M', 0xD4)
        &&& self.stands_at('N', 0xD5)
        &&& self.stands_at('O', 0xD6)
        &&& self.stands_at('P', 0xD7)
        &&& self.stands_at('Q', 0xD8)
        &&& self.stands_at('R', 0xD9)
        &&& self.stands_at('S', 0xE2)
        &&& self.stands_at('T', 0xE3)
        &&& self.stands_at('U', 0xE4)
        &&& self.stands_at('V', 0xE5)
        &&& self.stands_at('W', 0xE6)
        &&& self.stands_at('X', 0xE7)
        &&& self.stands_at('Y', 0xE8)
        &&& self.stands_at('Z', 0xE9)
    }

    /// Small letters are where EBCDIC has them.
    pub open spec fn small_letters_agree(self) -> bool {
        &&& self.stands_at('a', 0x81)
        &&& self.stands_at('b', 0x82)
        &&& self.stands_at('c', 0x83)
        &&& self.stands_at('d', 0x84)
        &&& self.stands_at('e', 0x85)
        &&& self.stands_at('f', 0x86)
        &&& self.stands_at('g', 0x87)
        &&& self.stands_at('h', 0x88)
        &&& self.stands_at('i', 0x89)
        &&& self.stands_at('j', 0x91)
        &&& self.stands_at('k', 0x92)
        &&& self.stands_at('l', 0x93)
        &&& self.stands_at('m', 0x94)
        &&& self.stands_at('n', 0x95)
        &&& self.stands_at('o', 0x96)
        &&& self.stands_at('p', 0x97)
        &&& self.stands_at('q', 0x98)
        &&& self.stands_at('r', 0x99)
        &&& self.stands_at('s', 0xA2)
        &&& self.stands_at('t', 0xA3)
        &&& self.stands_at('u', 0xA4)
        &&& self.stands_at('v', 0xA5)
        &&& self.stands_at('w', 0xA6)
        &&& self.stands_at('x', 0xA7)
        &&& self.stands_at('y', 0xA8)
        &&& self.stands_at('z', 0xA9)
    }

    /// The space and the digits are where EBCDIC has them.
    pub open spec fn digits_agree(self) -> bool {
        &&& self.stands_at(' ', 0x40)
        &&& self.stands_at('0', 0xF0)
        &&& self.stands_at('1', 0xF1)
        &&& self.stands_at('2', 0xF2)
        &&& self.stands_at('3', 0xF3)
        &&& self.stands_at('4', 0xF4)
        &&& self.stands_at('5', 0xF5)
        &&& self.stands_at('6', 0xF6)
        &&& self.stands_at('7', 0xF7)
        &&& self.stands_at('8', 0xF8)
        &&& self.stands_at('9', 0xF9)
    }

    /// Letters, digits and the space are where EBCDIC has them, in every codepage alike.
    pub open spec fn common_characters_agree(self) -> bool {
        &&& self.capitals_agree()
        &&& self.small_letters_agree()
        &&& self.digits_agree()
    }

    /// Byte `b` stands for its character in `published`, which lists the characters of all bytes in
    /// order. Of the two bytes of the line feed only `0x25` stands for it both ways.
    pub open spec fn reads_at(self, published: Seq<char>, b: int) -> bool {
        &&& self.to_ascii@[b] == published[b]
        &&& b != 0x15 ==> published[b] <= '\u{ff}' && self.to_ebcdic@[published[b] as int] == b
    }

    /// The sixteen bytes from `first` on stand for their characters in `published`.
    pub open spec fn row_reads(self, published: Seq<char>, first: int) -> bool {
        &&& self.reads_at(published, first + 0)
        &&& self.reads_at(published, first + 1)
        &&& self.reads_at(published, first + 2)
        &&& self.reads_at(published, first + 3)
        &&& self.reads_at(published, first + 4)
        &&& self.reads_at(published, first + 5)
        &&& self.reads_at(published, first + 6)
        &&& self.reads_at(published, first + 7)
        &&& self.reads_at(published, first + 8)
        &&& self.reads_at(published, first + 9)
        &&& self.reads_at(published, first + 10)
        &&& self.reads_at(published, first + 11)
        &&& self.reads_at(published, first + 12)
        &&& self.reads_at(published, first + 13)
        &&& self.reads_at(published, first + 14)
        &&& self.reads_at(published, first + 15)
    }

    /// Character `c` comes back from its byte, NEL as a line feed.
    pub open spec fn entry_agrees(self, c: int) -> bool {
        self.to_ascii@[self.to_ebcdic@[c] as int] == (if c == 0x85 {
            '\n'
        } else {
            c as u8 as char
        })
    }

    /// The sixteen characters from `first` on come back.
    pub open spec fn row_agrees(self, first: int) -> bool {
        &&& self.entry_agrees(first + 0)
        &&& self.entry_agrees(first + 1)
        &&& self.entry_agrees(first + 2)
        &&& self.entry_agrees(first + 3)
        &&& self.entry_agrees(first + 4)
        &&& self.entry_agrees(first + 5)
        &&& self.entry_agrees(first + 6)
        &&& self.entry_agrees(first + 7)
        &&& self.entry_agrees(first + 8)
        &&& self.entry_agrees(first + 9)
        &&& self.entry_agrees(first + 10)
        &&& self.entry_agrees(first + 11)
        &&& self.entry_agrees(first + 12)
        &&& self.entry_agrees(first + 13)
        &&& self.entry_agrees(first + 14)
        &&& self.entry_agrees(first + 15)
    }

}

proof fn lemma_row(page: Codepage, first: int, c: int)
    requires
        page.row_agrees(first),
        first <= c < first + 16,
    ensures
        page.entry_agrees(c),
{
    let k = c - first;
    assert(c == first + k);
    if k < 8 {
        assert(k == 0 || k == 1 || k == 2 || k == 3 || k == 4 || k == 5 || k == 6 || k == 7);
    } else {
        assert(k == 8 || k == 9 || k == 10 || k == 11 || k == 12 || k == 13 || k == 14 || k == 15);
    }
}

/// A codepage whose sixteen rows agree is well formed.
pub proof fn lemma_rows_make_a_table(page: Codepage)
    requires
        page.row_agrees(0x00),
        page.row_agrees(0x10),
        page.row_agrees(0x20),
        page.row_agrees(0x30),
        page.row_agrees(0x40),
        page.row_agrees(0x50),
        page.row_agrees(0x60),
        page.row_agrees(0x70),
        page.row_agrees(0x80),
        page.row_agrees(0x90),
        page.row_agrees(0xA0),
        page.row_agrees(0xB0),
        page.row_agrees(0xC0),
        page.row_agrees(0xD0),
        page.row_agrees(0xE0),
        page.row_agrees(0xF0),
    ensures
        page.well_formed(),
{
    assert forall|c: u8| #[trigger] page.entry_agrees(c as int) by {
        let n = c as int;
        if n < 0x10 {
            lemma_row(page, 0x00, n);
        } else if n < 0x20 {
            lemma_row(page, 0x10, n);
        } else if n < 0x30 {
            lemma_row(page, 0x20, n);
        } else if n < 0x40 {
            lemma_row(page, 0x30, n);
        } else if n < 0x50 {
            lemma_row(page, 0x40, n);
        } else if n < 0x60 {
            lemma_row(page, 0x50, n);
        } else if n < 0x70 {
            lemma_row(page, 0x60, n);
        } else if n < 0x80 {
            lemma_row(page, 0x70, n);
        } else if n < 0x90 {
            lemma_row(page, 0x80, n);
        } else if n < 0xA0 {
            lemma_row(page, 0x90, n);
        } else if n < 0xB0 {
            lemma_row(page, 0xA0, n);
        } else if n < 0xC0 {
            lemma_row(page, 0xB0, n);
        } else if n < 0xD0 {
            lemma_row(page, 0xC0, n);
        } else if n < 0xE0 {
            lemma_row(page, 0xD0, n);
        } else if n < 0xF0 {
            lemma_row(page, 0xE0, n);
        } else {
            lemma_row(page, 0xF0, n);
        }
    }
}

proof fn lemma_row_reads(page: Codepage, published: Seq<char>, first: int, b: int)
    requires
        page.row_reads(published, first),
        first <= b < first + 16,
    ensures
        page.reads_at(published, b),
{
    let k = b - first;
    assert(b == first + k);
    if k < 8 {
        assert(k == 0 || k == 1 || k == 2 || k == 3 || k == 4 || k == 5 || k == 6 || k == 7);
    } else {
        assert(k == 8 || k == 9 || k == 10 || k == 11 || k == 12 || k == 13 || k == 14 || k == 15);
    }
}

/// A codepage whose sixteen rows read as `published` does so throughout.
pub proof fn lemma_rows_read(page: Codepage, published: Seq<char>)
    requires
        page.row_reads(published, 0x00),
        page.row_reads(published, 0x10),
        page.row_reads(published, 0x20),
        page.row_reads(published, 0x30),
        page.row_reads(published, 0x40),
        page.row_reads(published, 0x50),
        page.row_reads(published, 0x60),
        page.row_reads(published, 0x70),
        page.row_reads(published, 0x80),
        page.row_reads(published, 0x90),
        page.row_reads(published, 0xA0),
        page.row_reads(published, 0xB0),
        page.row_reads(published, 0xC0),
        page.row_reads(published, 0xD0),
        page.row_reads(published, 0xE0),
        page.row_reads(published, 0xF0),
    ensures
        forall|b: u8| #[trigger] page.reads_at(published, b as int),
{
    assert forall|b: u8| #[trigger] page.reads_at(published, b as int) by {
        let n = b as int;
        if n < 0x10 {
            lemma_row_reads(page, published, 0x00, n);
        } else if n < 0x20 {
            lemma_row_reads(page, published, 0x10, n);
        } else if n < 0x30 {
            lemma_row_reads(page, published, 0x20, n);
        } else if n < 0x40 {
            lemma_row_reads(page, published, 0x30, n);
        } else if n < 0x50 {
            lemma_row_reads(page, published, 0x40, n);
        } else if n < 0x60 {
            lemma_row_reads(page, published, 0x50, n);
        } else if n < 0x70 {
            lemma_row_reads(page, published, 0x60, n);
        } else if n < 0x80 {
            lemma_row_reads(page, published, 0x70, n);
        } else if n < 0x90 {
            lemma_row_reads(page, published, 0x80, n);
        } else if n < 0xA0 {
            lemma_row_reads(page, published, 0x90, n);
        } else if n < 0xB0 {
            lemma_row_reads(page, published, 0xA0, n);
        } else if n < 0xC0 {
            lemma_row_reads(page, published, 0xB0, n);
        } else if n < 0xD0 {
            lemma_row_reads(page, published, 0xC0, n);
        } else if n < 0xE0 {
            lemma_row_reads(page, published, 0xD0, n);
        } else if n < 0xF0 {
            lemma_row_reads(page, published, 0xE0, n);
        } else {
            lemma_row_reads(page, published, 0xF0, n);
        }
    }
}

} // verus!
