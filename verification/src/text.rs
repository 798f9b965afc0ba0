//! Text primitives shared by the other modules: reading, comparing, trimming and formatting
//! strings, all specified over the character sequence that a string views as.

use vstd::prelude::*;
use vstd::slice::slice_subrange;
use vstd::string::*;

verus! {

/// `String::push` appends one character.
pub assume_specification[ String::push ](s: &mut String, c: char)
    ensures
        final(s)@ == old(s)@.push(c),
;

// ---------------------------------------------------------------------------------------------
// Reading and comparing
// ---------------------------------------------------------------------------------------------
/// A character is a Unicode scalar value.
pub proof fn lemma_scalar(c: char)
    ensures
        0 <= c as int <= 0xD7FF || 0xE000 <= c as int <= 0x10FFFF,
{
}

/// The scalar value of `c`, where it fits in a byte.
pub fn latin1(c: char) -> (byte: Option<u8>)
    ensures
        byte is Some <==> c <= '\u{ff}',
        byte matches Some(b) ==> b as int == c as int,
{
    if c <= '\u{ff}' {
        Some(c as u8)
    } else {
        None
    }
}

/// The characters of `text`, in order.
pub fn chars_of(text: &str) -> (chars: Vec<char>)
    ensures
        chars@ == text@,
{
    let mut chars: Vec<char> = Vec::new();
    for c in it: text.chars()
        invariant
            it.seq() == text@,
            chars@ == text@.take(it.index() as int),
    {
        proof {
            assert(text@.take(it.index() + 1) == text@.take(it.index() as int).push(c));
        }
        chars.push(c);
    }
    assert(text@.take(text@.len() as int) == text@);
    chars
}

/// The string made of `chars`.
pub fn string_of(chars: &[char]) -> (text: String)
    ensures
        text@ == chars@,
{
    let mut text = String::new();
    let mut i: usize = 0;
    while i < chars.len()
        invariant
            i <= chars@.len(),
            text@ == chars@.take(i as int),
        decreases chars@.len() - i,
    {
        proof {
            assert(chars@.take(i + 1) == chars@.take(i as int).push(chars@[i as int]));
        }
        text.push(chars[i]);
        i += 1;
    }
    assert(chars@.take(chars@.len() as int) == chars@);
    text
}

/// Whether two strings hold the same characters.
pub fn str_eq(a: &str, b: &str) -> (equal: bool)
    ensures
        equal == (a@ == b@),
{
    let mut left = a.chars();
    let mut right = b.chars();
    let ghost mut n: int = 0;
    loop
        invariant
            0 <= n <= a@.len(),
            n <= b@.len(),
            a@.take(n) == b@.take(n),
            vstd::std_specs::iter::IteratorSpec::remaining(&left) == a@.skip(n),
            vstd::std_specs::iter::IteratorSpec::remaining(&right) == b@.skip(n),
            vstd::std_specs::iter::IteratorSpec::decrease(&left) is Some,
        decreases vstd::std_specs::iter::IteratorSpec::decrease(&left)->0,
    {
        match (left.next(), right.next()) {
            (None, None) => {
                assert(a@.take(n) == a@);
                assert(b@.take(n) == b@);
                return true;
            },
            (Some(x), Some(y)) => {
                if x != y {
                    assert(a@[n] != b@[n]);
                    return false;
                }
                proof {
                    assert(a@.take(n + 1) == a@.take(n).push(x));
                    assert(b@.take(n + 1) == b@.take(n).push(y));
                    assert(a@.skip(n).drop_first() == a@.skip(n + 1));
                    assert(b@.skip(n).drop_first() == b@.skip(n + 1));
                    n = n + 1;
                }
            },
            _ => {
                return false;
            },
        }
    }
}

/// The concatenation of `parts` with `separator` between neighbours.
pub open spec fn joined(parts: Seq<Seq<char>>, separator: Seq<char>) -> Seq<char>
    decreases parts.len(),
{
    if parts.len() == 0 {
        Seq::empty()
    } else if parts.len() == 1 {
        parts[0]
    } else {
        joined(parts.drop_last(), separator) + separator + parts.last()
    }
}

/// The views of a list of string slices.
pub open spec fn str_views(list: Seq<&str>) -> Seq<Seq<char>> {
    list.map_values(|s: &str| s@)
}

/// The views of a list of owned strings.
pub open spec fn string_views(list: Seq<String>) -> Seq<Seq<char>> {
    list.map_values(|s: String| s@)
}

/// Joins `parts` with `separator`.
pub fn join(parts: &Vec<&str>, separator: &str) -> (text: String)
    ensures
        text@ == joined(str_views(parts@), separator@),
{
    let mut text = String::new();
    let mut i: usize = 0;
    while i < parts.len()
        invariant
            i <= parts@.len(),
            text@ == joined(str_views(parts@).take(i as int), separator@),
        decreases parts@.len() - i,
    {
        let ghost views = str_views(parts@);
        proof {
            assert(views.take(i + 1).drop_last() == views.take(i as int));
            assert(views.take(i + 1).last() == parts@[i as int]@);
        }
        if i > 0 {
            text.append(separator);
        }
        text.append(parts[i]);
        i += 1;
        proof {
            if i == 1 {
                assert(views.take(0) == Seq::<Seq<char>>::empty());
                assert(text@ == views.take(1)[0]);
            }
        }
    }
    assert(str_views(parts@).take(parts@.len() as int) == str_views(parts@));
    text
}

/// `text` between `before` and `after`.
pub fn between(before: &str, text: &str, after: &str) -> (whole: String)
    ensures
        whole@ == before@ + text@ + after@,
{
    let mut whole = before.to_owned();
    whole.append(text);
    whole.append(after);
    whole
}

// ---------------------------------------------------------------------------------------------
// Trimming and case
// ---------------------------------------------------------------------------------------------
/// The Unicode `White_Space` property.
pub open spec fn is_white_space(c: char) -> bool {
    ||| '\u{9}' <= c <= '\u{d}'
    ||| c == '\u{20}'
    ||| c == '\u{85}'
    ||| c == '\u{a0}'
    ||| c == '\u{1680}'
    ||| '\u{2000}' <= c <= '\u{200a}'
    ||| c == '\u{2028}'
    ||| c == '\u{2029}'
    ||| c == '\u{202f}'
    ||| c == '\u{205f}'
    ||| c == '\u{3000}'
}

/// Whether `c` is white space.
pub fn white_space(c: char) -> (yes: bool)
    ensures
        yes == is_white_space(c),
{
    ('\u{9}' <= c && c <= '\u{d}') || c == '\u{20}' || c == '\u{85}' || c == '\u{a0}' || c
        == '\u{1680}' || ('\u{2000}' <= c && c <= '\u{200a}') || c == '\u{2028}' || c == '\u{2029}'
        || c == '\u{202f}' || c == '\u{205f}' || c == '\u{3000}'
}

/// `s` without its leading white space.
pub open spec fn trimmed_start(s: Seq<char>) -> Seq<char>
    decreases s.len(),
{
    if s.len() > 0 && is_white_space(s[0]) {
        trimmed_start(s.drop_first())
    } else {
        s
    }
}

/// `s` without its trailing white space.
pub open spec fn trimmed_end(s: Seq<char>) -> Seq<char>
    decreases s.len(),
{
    if s.len() > 0 && is_white_space(s.last()) {
        trimmed_end(s.drop_last())
    } else {
        s
    }
}

/// `s` without its leading and trailing white space.
pub open spec fn trimmed(s: Seq<char>) -> Seq<char> {
    trimmed_end(trimmed_start(s))
}

/// Drops white space at both ends.
pub fn trim(chars: &[char]) -> (rest: &[char])
    ensures
        rest@ == trimmed(chars@),
{
    let mut start: usize = 0;
    assert(chars@.skip(0) == chars@);
    while start < chars.len() && white_space(chars[start])
        invariant
            start <= chars@.len(),
            trimmed_start(chars@) == trimmed_start(chars@.skip(start as int)),
        decreases chars@.len() - start,
    {
        assert(chars@.skip(start as int).drop_first() == chars@.skip(start + 1));
        start += 1;
    }
    let mut end: usize = chars.len();
    assert(chars@.skip(start as int) == chars@.subrange(start as int, end as int));
    assert(trimmed_start(chars@) == chars@.subrange(start as int, end as int));
    while start < end && white_space(chars[end - 1])
        invariant
            start <= end <= chars@.len(),
            trimmed(chars@) == trimmed_end(chars@.subrange(start as int, end as int)),
        decreases end,
    {
        assert(chars@.subrange(start as int, end as int).drop_last() == chars@.subrange(
            start as int,
            end - 1,
        ));
        end -= 1;
    }
    slice_subrange(chars, start, end)
}

/// `c` with an ASCII capital made small.
pub open spec fn ascii_lower(c: char) -> char {
    if 'A' <= c <= 'Z' {
        (c as u8 + 32) as u8 as char
    } else {
        c
    }
}

/// `s` with every ASCII capital made small.
pub open spec fn lowered(s: Seq<char>) -> Seq<char> {
    s.map_values(|c: char| ascii_lower(c))
}

/// Makes ASCII capitals small.
pub fn lower(chars: &[char]) -> (out: Vec<char>)
    ensures
        out@ == lowered(chars@),
{
    let mut out: Vec<char> = Vec::new();
    let mut i: usize = 0;
    while i < chars.len()
        invariant
            i <= chars@.len(),
            out@ == lowered(chars@.take(i as int)),
        decreases chars@.len() - i,
    {
        let c = chars[i];
        let small = if 'A' <= c && c <= 'Z' {
            (c as u8 + 32) as char
        } else {
            c
        };
        out.push(small);
        i += 1;
        assert(out@ =~= lowered(chars@.take(i as int)));
    }
    assert(chars@.take(chars@.len() as int) == chars@);
    out
}

/// Whether `s` begins with `prefix`.
pub open spec fn starts_with(s: Seq<char>, prefix: Seq<char>) -> bool {
    prefix.len() <= s.len() && s.take(prefix.len() as int) == prefix
}

/// Whether `chars` begins with `prefix`.
pub fn has_prefix(chars: &[char], prefix: &[char]) -> (yes: bool)
    ensures
        yes == starts_with(chars@, prefix@),
{
    if chars.len() < prefix.len() {
        return false;
    }
    let mut i: usize = 0;
    while i < prefix.len()
        invariant
            i <= prefix@.len() <= chars@.len(),
            forall|k: int| 0 <= k < i ==> chars@[k] == prefix@[k],
        decreases prefix@.len() - i,
    {
        if chars[i] != prefix[i] {
            assert(chars@.take(prefix@.len() as int)[i as int] != prefix@[i as int]);
            return false;
        }
        i += 1;
    }
    assert(chars@.take(prefix@.len() as int) =~= prefix@);
    true
}

/// `s` without any leading copies of `prefix`.
pub open spec fn stripped(s: Seq<char>, prefix: Seq<char>) -> Seq<char>
    decreases s.len(),
{
    if prefix.len() > 0 && starts_with(s, prefix) {
        stripped(s.skip(prefix.len() as int), prefix)
    } else {
        s
    }
}

/// Drops every leading copy of `prefix`.
pub fn strip<'a>(chars: &'a [char], prefix: &[char]) -> (rest: &'a [char])
    ensures
        rest@ == stripped(chars@, prefix@),
{
    let mut rest = chars;
    while prefix.len() > 0 && has_prefix(rest, prefix)
        invariant
            stripped(chars@, prefix@) == stripped(rest@, prefix@),
        decreases rest@.len(),
    {
        let ghost before = rest@;
        rest = slice_subrange(rest, prefix.len(), rest.len());
        assert(rest@ == before.skip(prefix@.len() as int));
    }
    rest
}

// ---------------------------------------------------------------------------------------------
// Formatting
// ---------------------------------------------------------------------------------------------
/// The character of a decimal or hexadecimal digit.
pub open spec fn digit(value: int) -> char {
    if value < 10 {
        (48 + value) as u8 as char
    } else {
        (87 + value) as u8 as char
    }
}

/// `n` in decimal, without leading zeros.
pub open spec fn decimal(n: nat) -> Seq<char>
    decreases n,
{
    if n < 10 {
        seq![digit(n as int)]
    } else {
        decimal(n / 10).push(digit((n % 10) as int))
    }
}

/// Formats `n` in decimal.
pub fn decimal_text(n: u64) -> (text: String)
    ensures
        text@ == decimal(n as nat),
    decreases n,
{
    let mut text = if n < 10 {
        String::new()
    } else {
        decimal_text(n / 10)
    };
    text.push((48 + (n % 10) as u8) as char);
    proof {
        if n < 10 {
            assert(text@ =~= seq![digit(n as int)]);
        }
    }
    text
}

/// `byte` as `0x` and two small hexadecimal digits.
pub open spec fn hex_byte(byte: u8) -> Seq<char> {
    seq!['0', 'x', digit((byte / 16) as int), digit((byte % 16) as int)]
}

/// The character of the hexadecimal digit `value`.
fn hex_digit(value: u8) -> (c: char)
    requires
        value < 16,
    ensures
        c == digit(value as int),
{
    if value < 10 {
        (48 + value) as char
    } else {
        (87 + value) as char
    }
}

/// Formats `byte` as `0x` and two small hexadecimal digits.
pub fn hex_byte_text(byte: u8) -> (text: String)
    ensures
        text@ == hex_byte(byte),
{
    let mut text = String::new();
    text.push('0');
    text.push('x');
    text.push(hex_digit(byte / 16));
    text.push(hex_digit(byte % 16));
    assert(text@ =~= hex_byte(byte));
    text
}

/// What the `Debug` formatting of the string `text` writes: the text between double quotes, with
/// quotes, backslashes and unprintable characters escaped.
pub uninterp spec fn debug_quoted(text: Seq<char>) -> Seq<char>;

/// `<str as Debug>::fmt`, through `format!("{:?}", ..)`. Only that the result depends on the
/// text alone is claimed; which characters are escaped, and how, is not stated.
#[verifier::external_body]
pub(crate) fn debug_text(text: &str) -> (quoted: String)
    ensures
        quoted@ == debug_quoted(text@),
{
    format!("{text:?}")
}

// ---------------------------------------------------------------------------------------------
// Bytes and text
// ---------------------------------------------------------------------------------------------
/// What decoding `bytes` as UTF-8 gives when each malformed part is replaced by U+FFFD.
pub uninterp spec fn lossy(bytes: Seq<u8>) -> Seq<char>;

/// `String::from_utf8_lossy`. On well-formed input it decodes exactly; for the rest only that
/// the result depends on the bytes alone is claimed.
#[verifier::external_body]
pub(crate) fn text_from_utf8_lossy(bytes: &[u8]) -> (text: String)
    ensures
        text@ == lossy(bytes@),
        vstd::utf8::valid_utf8(bytes@) ==> text@ == vstd::utf8::decode_utf8(bytes@),
{
    String::from_utf8_lossy(bytes).into_owned()
}

/// `String::from_utf8`: succeeds on well-formed UTF-8 and on nothing else, and then holds the
/// decoded characters.
#[verifier::external_body]
pub(crate) fn text_from_utf8(bytes: Vec<u8>) -> (text: Option<String>)
    ensures
        text is Some <==> vstd::utf8::valid_utf8(bytes@),
        text matches Some(s) ==> s@ == vstd::utf8::decode_utf8(bytes@),
{
    String::from_utf8(bytes).ok()
}

// ---------------------------------------------------------------------------------------------
// Laws
// ---------------------------------------------------------------------------------------------
/// Numbers are written in decimal digits that read as the number again, the first of them no zero
/// where there are more.
pub proof fn lemma_decimal_reads_back(n: nat)
    ensures
        decimal(n).len() > 0,
        forall|i: int| 0 <= i < decimal(n).len() ==> '0' <= #[trigger] decimal(n)[i] <= '9',
        decimal(n).len() > 1 ==> decimal(n)[0] != '0',
        decimal(n).fold_left(0int, |value: int, c: char| 10 * value + (c as int - 48)) == n,
    decreases n,
{
    let step = |value: int, c: char| 10 * value + (c as int - 48);
    let last = digit((n % 10) as int);
    assert(last as int == 48 + n % 10);
    if n < 10 {
        assert(decimal(n) =~= Seq::<char>::empty().push(last));
        reveal_with_fuel(Seq::fold_left, 2);
        assert(decimal(n).drop_last() =~= Seq::<char>::empty());
    } else {
        let front = decimal(n / 10);
        lemma_decimal_reads_back(n / 10);
        assert(decimal(n) == front.push(last));
        assert(decimal(n).drop_last() =~= front);
        assert(decimal(n).fold_left(0int, step) == step(front.fold_left(0int, step), last));
        if front.len() == 1 && front[0] == '0' {
            reveal_with_fuel(Seq::fold_left, 2);
            assert(front.drop_last() =~= Seq::<char>::empty());
            assert(front.fold_left(0int, step) == 0);
        }
    }
}

/// A byte is written as `0x` and two small hexadecimal digits that read as the byte again.
pub proof fn lemma_hex_byte_reads_back(byte: u8)
    ensures
        hex_byte(byte).len() == 4,
        hex_byte(byte)[0] == '0',
        hex_byte(byte)[1] == 'x',
        ({
            let value = |c: char|
                if c <= '9' {
                    c as int - 48
                } else {
                    c as int - 87
                };
            16 * value(hex_byte(byte)[2]) + value(hex_byte(byte)[3]) == byte
        }),
        forall|i: int|
            2 <= i < 4 ==> '0' <= #[trigger] hex_byte(byte)[i] <= '9' || 'a' <= hex_byte(byte)[i]
                <= 'f',
{
}

/// White space, by scalar value: the characters with the Unicode property of that name.
pub proof fn lemma_white_space_by_scalar(c: char)
    ensures
        is_white_space(c) <==> (9 <= c as int <= 13 || c as int == 32 || c as int == 0x85 || c as int
            == 0xA0 || c as int == 0x1680 || 0x2000 <= c as int <= 0x200A || c as int == 0x2028
            || c as int == 0x2029 || c as int == 0x202F || c as int == 0x205F || c as int == 0x3000),
{
}

/// Only the capitals from A to Z are made small, and nothing else changes.
pub proof fn lemma_lowered_by_scalar(s: Seq<char>, i: int)
    requires
        0 <= i < s.len(),
    ensures
        lowered(s).len() == s.len(),
        65 <= s[i] as int <= 90 ==> lowered(s)[i] as int == s[i] as int + 32,
        !(65 <= s[i] as int <= 90) ==> lowered(s)[i] == s[i],
{
}

/// Trimming takes white space off both ends until none is left there, and nothing else.
pub proof fn lemma_trimmed(s: Seq<char>)
    ensures
        exists|from: int, to: int|
            0 <= from <= to <= s.len() && trimmed(s) == #[trigger] s.subrange(from, to) && (forall|
                i: int,
            |
                0 <= i < from || to <= i < s.len() ==> is_white_space(#[trigger] s[i])),
        trimmed(s).len() > 0 ==> !is_white_space(trimmed(s)[0]) && !is_white_space(
            trimmed(s).last(),
        ),
{
    let from = lemma_trimmed_start(s);
    let rest = s.skip(from);
    let to = from + lemma_trimmed_end(rest);
    assert(trimmed(s) =~= s.subrange(from, to));
    assert forall|i: int| 0 <= i < from || to <= i < s.len() implies is_white_space(
        #[trigger] s[i],
    ) by {
        if to <= i {
            assert(rest[i - from] == s[i]);
        }
    }
}

proof fn lemma_trimmed_start(s: Seq<char>) -> (from: int)
    ensures
        0 <= from <= s.len(),
        trimmed_start(s) == s.skip(from),
        forall|i: int| 0 <= i < from ==> is_white_space(#[trigger] s[i]),
        from < s.len() ==> !is_white_space(s[from]),
    decreases s.len(),
{
    if s.len() > 0 && is_white_space(s[0]) {
        let rest = s.drop_first();
        let k = lemma_trimmed_start(rest);
        assert(rest.skip(k) =~= s.skip(k + 1));
        assert forall|i: int| 0 <= i < k + 1 implies is_white_space(#[trigger] s[i]) by {
            if i > 0 {
                assert(rest[i - 1] == s[i]);
            }
        }
        k + 1
    } else {
        assert(s.skip(0) =~= s);
        0
    }
}

proof fn lemma_trimmed_end(s: Seq<char>) -> (to: int)
    ensures
        0 <= to <= s.len(),
        trimmed_end(s) == s.take(to),
        forall|i: int| to <= i < s.len() ==> is_white_space(#[trigger] s[i]),
        0 < to ==> !is_white_space(s[to - 1]),
    decreases s.len(),
{
    if s.len() > 0 && is_white_space(s.last()) {
        let front = s.drop_last();
        let k = lemma_trimmed_end(front);
        assert(front.take(k) =~= s.take(k));
        assert forall|i: int| k <= i < s.len() implies is_white_space(#[trigger] s[i]) by {
            if i < front.len() {
                assert(front[i] == s[i]);
            }
        }
        k
    } else {
        assert(s.take(s.len() as int) =~= s);
        s.len() as int
    }
}

/// Stripping takes one copy of the prefix off after the other, until the rest does not begin with
/// it.
pub proof fn lemma_stripped(s: Seq<char>, prefix: Seq<char>)
    requires
        prefix.len() > 0,
    ensures
        stripped(prefix + s, prefix) == stripped(s, prefix),
        !prefix.is_prefix_of(s) ==> stripped(s, prefix) == s,
{
    let all = prefix + s;
    assert(all.take(prefix.len() as int) =~= prefix);
    assert(all.skip(prefix.len() as int) =~= s);
    if starts_with(s, prefix) {
        assert(s.subrange(0, prefix.len() as int) =~= s.take(prefix.len() as int));
        assert(prefix.is_prefix_of(s));
    }
}

/// Joining puts the separator between neighbours, and nowhere else.
pub proof fn lemma_joined(parts: Seq<Seq<char>>, part: Seq<char>, separator: Seq<char>)
    ensures
        joined(Seq::empty(), separator) == Seq::<char>::empty(),
        joined(seq![part], separator) == part,
        parts.len() > 0 ==> joined(parts.push(part), separator) == joined(parts, separator)
            + separator + part,
{
    assert(parts.push(part).drop_last() =~= parts);
}

} // verus!
