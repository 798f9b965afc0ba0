//! `ebcdic-lsp convert`: batch file conversion.
//!
//! Code actions cannot reach real mainframe data files. An editor that classifies any file with a
//! stray NUL byte as binary refuses to open it at all, so there is no buffer and no code action.
//! Variable-length EBCDIC extracts are full of NULs, from RDW framing and from packed-decimal
//! fields, so they need a path that never involves a buffer.

use vstd::prelude::*;
use vstd::slice::slice_subrange;
use vstd::string::*;
use vstd::utf8::{
    char_is_scalar, encode_scalar, encode_utf8, last_continuation_byte, leading_byte_width_1,
    leading_byte_width_2, leading_byte_width_3, leading_byte_width_4,
    second_last_continuation_byte, third_last_continuation_byte,
};

use crate::config::{
    all_digits, all_white, is_prefix, lemma_ids_spell_themselves, lemma_known,
    lemma_leading_zeros_agree, lemma_spellings_agree, normalize, normalized, zero_padded,
};
use crate::convert::{
    ascii_to_ebcdic, bytes_of, decoded, ebcdic_to_ascii, encoded, lemma_encoded_fits_bytes,
    lemma_round_trip, survives, Direction,
};
use crate::document::is_break;
use crate::rdw::{
    file_counts, file_records, framed_file, lemma_counts_file, lemma_next_advances,
    lemma_walks_file, parts_fit, Counts, Deframer, Move, Progress, Stats, Step, Tally,
};
use crate::tables::{
    all_codepages, all_ids, codepages, find, found, lemma_found, lemma_ids, lemma_ids_differ,
    Codepage,
};
use crate::text::{
    between, chars_of, debug_quoted, debug_text, decimal, decimal_text, join, joined, latin1,
    lemma_scalar, lossy, lowered, starts_with, str_eq, str_views, string_views, text_from_utf8_lossy,
};

verus! {

/// The codepage that is used where none is asked for.
pub const DEFAULT_CODEPAGE: &'static str = "0037";

/// What `--help` prints.
pub const HELP: &'static str = "\
ebcdic-lsp — convert between ASCII and EBCDIC

USAGE:
    ebcdic-lsp                          Run as a language server on stdin/stdout (default)
    ebcdic-lsp convert [OPTIONS] <FILE> Convert a file

OPTIONS:
    -c, --codepage <ID>   EBCDIC codepage (default: 0037)
    -o, --output <PATH>   Write here instead of stdout
    -r, --rdw             Interpret IBM RDW/SDW framing: strip descriptors, rejoin spanned
                          records, and emit one line per logical record. Required for
                          variable-length (RECFM=VB/VBS) mainframe extracts.
        --to-ebcdic       Encode text to EBCDIC instead of decoding
        --raw             Do not replace control characters (see below)
    -q, --quiet           Suppress the summary written to stderr
    -h, --help            Print this help
    -V, --version         Print version

CONTROL CHARACTERS:
    Decoded output normally has non-printable control characters replaced with '.', because
    packed-decimal and binary fields decode to arbitrary bytes -- including NUL, which would
    make the output itself unopenable in Zed. Pass --raw for byte-faithful output.

CODEPAGES:
    0037 0273 0277 0278 0280 0284 0285 0297 0500 0871 1047

EXAMPLES:
    ebcdic-lsp convert --rdw -c 0037 extract.dat -o extract.txt
    ebcdic-lsp convert flat.dat | head -50
";

// ---------------------------------------------------------------------------------------------
// The command line
// ---------------------------------------------------------------------------------------------
/// How to convert a file.
#[derive(Debug, PartialEq, Eq)]
pub struct Options {
    /// The file to read.
    pub input: String,
    /// The file to write; standard output if there is none.
    pub output: Option<String>,
    pub codepage: String,
    pub direction: Direction,
    /// Whether the input is framed in records.
    pub rdw: bool,
    /// Whether control characters are kept.
    pub raw: bool,
    /// Whether the summary is left out.
    pub quiet: bool,
}

/// What the user asked for on the command line.
#[derive(Debug, PartialEq, Eq)]
pub enum Invocation {
    /// No arguments: behave as a language server, which is how editors launch us.
    LanguageServer,
    Convert(Options),
    Help,
    Version,
}

/// What [`Options`] say.
pub ghost struct Wish {
    pub input: Option<Seq<char>>,
    pub output: Option<Seq<char>>,
    pub codepage: Seq<char>,
    pub direction: Direction,
    pub rdw: bool,
    pub raw: bool,
    pub quiet: bool,
}

/// What an [`Invocation`] says.
pub ghost enum Asked {
    LanguageServer,
    Convert(Wish),
    Help,
    Version,
}

/// The text of an optional string.
pub open spec fn option_view(text: Option<String>) -> Option<Seq<char>> {
    match text {
        Some(t) => Some(t@),
        None => None,
    }
}

impl View for Options {
    type V = Wish;

    open spec fn view(&self) -> Wish {
        Wish {
            input: Some(self.input@),
            output: option_view(self.output),
            codepage: self.codepage@,
            direction: self.direction,
            rdw: self.rdw,
            raw: self.raw,
            quiet: self.quiet,
        }
    }
}

impl View for Invocation {
    type V = Asked;

    open spec fn view(&self) -> Asked {
        match *self {
            Invocation::LanguageServer => Asked::LanguageServer,
            Invocation::Convert(options) => Asked::Convert(options@),
            Invocation::Help => Asked::Help,
            Invocation::Version => Asked::Version,
        }
    }
}

/// What one argument of `convert` is.
#[derive(Debug, Clone, Copy, PartialEq, Eq, Structural)]
pub enum Word {
    Codepage,
    Output,
    Rdw,
    ToEbcdic,
    Raw,
    Quiet,
    Help,
    Version,
    /// Looks like an option but is none.
    Unknown,
    /// An input file. A lone `-` is one too.
    Path,
}

impl Word {
    /// What `argument` is.
    pub open spec fn of(argument: Seq<char>) -> Word {
        if argument == "-c"@ || argument == "--codepage"@ {
            Word::Codepage
        } else if argument == "-o"@ || argument == "--output"@ {
            Word::Output
        } else if argument == "-r"@ || argument == "--rdw"@ {
            Word::Rdw
        } else if argument == "--to-ebcdic"@ {
            Word::ToEbcdic
        } else if argument == "--raw"@ {
            Word::Raw
        } else if argument == "-q"@ || argument == "--quiet"@ {
            Word::Quiet
        } else if argument == "-h"@ || argument == "--help"@ {
            Word::Help
        } else if argument == "-V"@ || argument == "--version"@ {
            Word::Version
        } else if starts_with(argument, "-"@) && argument != "-"@ {
            Word::Unknown
        } else {
            Word::Path
        }
    }

    /// Tells what `argument` is.
    fn read(argument: &str) -> (word: Word)
        ensures
            word == Word::of(argument@),
    {
        if str_eq(argument, "-c") || str_eq(argument, "--codepage") {
            Word::Codepage
        } else if str_eq(argument, "-o") || str_eq(argument, "--output") {
            Word::Output
        } else if str_eq(argument, "-r") || str_eq(argument, "--rdw") {
            Word::Rdw
        } else if str_eq(argument, "--to-ebcdic") {
            Word::ToEbcdic
        } else if str_eq(argument, "--raw") {
            Word::Raw
        } else if str_eq(argument, "-q") || str_eq(argument, "--quiet") {
            Word::Quiet
        } else if str_eq(argument, "-h") || str_eq(argument, "--help") {
            Word::Help
        } else if str_eq(argument, "-V") || str_eq(argument, "--version") {
            Word::Version
        } else {
            let chars = chars_of(argument);
            proof {
                reveal_strlit("-");
                if chars@.len() > 0 && chars@[0] == '-' {
                    assert(chars@.take(1) =~= "-"@);
                }
                if starts_with(chars@, "-"@) {
                    assert(chars@.take(1)[0] == chars@[0]);
                }
            }
            if chars.len() > 0 && chars[0] == '-' && !str_eq(argument, "-") {
                Word::Unknown
            } else {
                Word::Path
            }
        }
    }
}

impl Wish {
    /// What is asked for before any argument has been read.
    pub open spec fn start() -> Wish {
        Wish {
            input: None,
            output: None,
            codepage: DEFAULT_CODEPAGE@,
            direction: Direction::EbcdicToAscii,
            rdw: false,
            raw: false,
            quiet: false,
        }
    }

    /// With one more option that takes no value.
    pub open spec fn with_flag(self, word: Word) -> Wish {
        match word {
            Word::Rdw => Wish { rdw: true, ..self },
            Word::ToEbcdic => Wish { direction: Direction::AsciiToEbcdic, ..self },
            Word::Raw => Wish { raw: true, ..self },
            Word::Quiet => Wish { quiet: true, ..self },
            _ => self,
        }
    }

    /// All arguments have been read. Re-framing on encode would mean inventing record boundaries
    /// that the input does not carry.
    pub open spec fn finish(self) -> Result<Asked, Seq<char>> {
        if self.input is None {
            Err("convert needs an input file. Run with --help for usage."@)
        } else if self.rdw && self.direction == Direction::AsciiToEbcdic {
            Err("--rdw applies to decoding only; it cannot be combined with --to-ebcdic"@)
        } else {
            Ok(Asked::Convert(self))
        }
    }

    /// What the arguments of `convert` that are left to read lead to.
    pub open spec fn read(self, rest: Seq<Seq<char>>) -> Result<Asked, Seq<char>>
        decreases rest.len(),
    {
        if rest.len() == 0 {
            self.finish()
        } else {
            match Word::of(rest[0]) {
                Word::Codepage => if rest.len() == 1 {
                    Err("--codepage needs a value, e.g. --codepage 0037"@)
                } else {
                    Wish { codepage: rest[1], ..self }.read(rest.skip(2))
                },
                Word::Output => if rest.len() == 1 {
                    Err("--output needs a path"@)
                } else {
                    Wish { output: Some(rest[1]), ..self }.read(rest.skip(2))
                },
                Word::Rdw | Word::ToEbcdic | Word::Raw | Word::Quiet => self.with_flag(
                    Word::of(rest[0]),
                ).read(rest.skip(1)),
                Word::Help => Ok(Asked::Help),
                Word::Version => Ok(Asked::Version),
                Word::Unknown => Err(
                    "unknown option "@ + debug_quoted(rest[0]) + ". Run with --help for usage."@,
                ),
                Word::Path => if self.input is Some {
                    Err("only one input file may be given"@)
                } else {
                    Wish { input: Some(rest[0]), ..self }.read(rest.skip(1))
                },
            }
        }
    }
}

/// What a command line asks for, or what is wrong with it.
pub open spec fn parsed(arguments: Seq<Seq<char>>) -> Result<Asked, Seq<char>> {
    if arguments.len() == 0 {
        Ok(Asked::LanguageServer)
    } else {
        let first = arguments[0];
        if first == "-h"@ || first == "--help"@ || first == "help"@ {
            Ok(Asked::Help)
        } else if first == "-V"@ || first == "--version"@ {
            Ok(Asked::Version)
        } else if first == "convert"@ {
            Wish::start().read(arguments.skip(1))
        } else {
            Err("unknown argument "@ + debug_quoted(first) + ". Run with --help for usage."@)
        }
    }
}

/// What a parse result says.
pub open spec fn parse_view(result: Result<Invocation, String>) -> Result<Asked, Seq<char>> {
    match result {
        Ok(invocation) => Ok(invocation@),
        Err(message) => Err(message@),
    }
}

/// `before`, the quoted `text`, and `after`.
fn quote(before: &str, text: &str, after: &str) -> (message: String)
    ensures
        message@ == before@ + debug_quoted(text@) + after@,
{
    between(before, debug_text(text).as_str(), after)
}

/// Read the command line, without the name of the program.
pub fn parse(arguments: &[String]) -> (result: Result<Invocation, String>)
    ensures
        parse_view(result) == parsed(string_views(arguments@)),
{
    let ghost all = string_views(arguments@);
    if arguments.len() == 0 {
        return Ok(Invocation::LanguageServer);
    }
    let first = arguments[0].as_str();
    if str_eq(first, "-h") || str_eq(first, "--help") || str_eq(first, "help") {
        return Ok(Invocation::Help);
    }
    if str_eq(first, "-V") || str_eq(first, "--version") {
        return Ok(Invocation::Version);
    }
    if !str_eq(first, "convert") {
        return Err(quote("unknown argument ", first, ". Run with --help for usage."));
    }
    let mut input: Option<String> = None;
    let mut output: Option<String> = None;
    let mut codepage = DEFAULT_CODEPAGE.to_owned();
    let mut direction = Direction::EbcdicToAscii;
    let mut rdw = false;
    let mut raw = false;
    let mut quiet = false;
    let mut i: usize = 1;
    while i < arguments.len()
        invariant
            1 <= i <= arguments@.len(),
            all == string_views(arguments@),
            parsed(all) == (Wish {
                input: option_view(input),
                output: option_view(output),
                codepage: codepage@,
                direction,
                rdw,
                raw,
                quiet,
            }).read(all.skip(i as int)),
        decreases arguments@.len() - i,
    {
        let argument = arguments[i].as_str();
        let ghost rest = all.skip(i as int);
        proof {
            assert(rest[0] == argument@);
            assert(rest.skip(1) == all.skip(i + 1));
            if rest.len() > 1 {
                assert(rest[1] == all[i + 1]);
                assert(rest.skip(2) == all.skip(i + 2));
            }
        }
        match Word::read(argument) {
            Word::Codepage => {
                if i + 1 == arguments.len() {
                    return Err("--codepage needs a value, e.g. --codepage 0037".to_owned());
                }
                codepage = arguments[i + 1].as_str().to_owned();
                i += 1;
            },
            Word::Output => {
                if i + 1 == arguments.len() {
                    return Err("--output needs a path".to_owned());
                }
                output = Some(arguments[i + 1].as_str().to_owned());
                i += 1;
            },
            Word::Rdw => {
                rdw = true;
            },
            Word::ToEbcdic => {
                direction = Direction::AsciiToEbcdic;
            },
            Word::Raw => {
                raw = true;
            },
            Word::Quiet => {
                quiet = true;
            },
            Word::Help => {
                return Ok(Invocation::Help);
            },
            Word::Version => {
                return Ok(Invocation::Version);
            },
            Word::Unknown => {
                return Err(quote("unknown option ", argument, ". Run with --help for usage."));
            },
            Word::Path => {
                if input.is_some() {
                    return Err("only one input file may be given".to_owned());
                }
                input = Some(argument.to_owned());
            },
        }
        i += 1;
    }
    let input = match input {
        Some(input) => input,
        None => {
            return Err("convert needs an input file. Run with --help for usage.".to_owned());
        },
    };
    if rdw && direction == Direction::AsciiToEbcdic {
        return Err(
            "--rdw applies to decoding only; it cannot be combined with --to-ebcdic".to_owned(),
        );
    }
    Ok(Invocation::Convert(Options { input, output, codepage, direction, rdw, raw, quiet }))
}

// ---------------------------------------------------------------------------------------------
// Codepages
// ---------------------------------------------------------------------------------------------
/// The codepage that `id` spells, or what to say where there is none.
pub open spec fn looked_up(id: Seq<char>) -> Result<Codepage, Seq<char>> {
    match found(all_codepages(), normalized(id)) {
        Some(page) => Ok(page),
        None => Err(
            "unknown codepage "@ + debug_quoted(id) + ". Known codepages: "@ + joined(
                all_ids(),
                ", "@,
            ) + "."@,
        ),
    }
}

/// Every codepage id, with commas between them.
pub fn known_ids() -> (text: String)
    ensures
        text@ == joined(all_ids(), ", "@),
{
    let pages = codepages();
    let mut ids: Vec<&str> = Vec::new();
    let mut i: usize = 0;
    while i < pages.len()
        invariant
            i <= pages@.len(),
            pages@ == all_codepages(),
            ids@.len() == i,
            forall|k: int| 0 <= k < i ==> (#[trigger] ids@[k])@ == all_codepages()[k].id@,
        decreases pages@.len() - i,
    {
        ids.push(pages[i].id);
        i += 1;
    }
    proof {
        lemma_ids();
        assert(str_views(ids@) =~= all_ids());
    }
    join(&ids, ", ")
}

/// Finds a codepage, accepting `37`, `037`, `0037`, `cp037` and `ibm-037`.
pub fn lookup(id: &str) -> (page: Result<Codepage, String>)
    ensures
        match page {
            Ok(p) => looked_up(id@) == Ok::<Codepage, Seq<char>>(p),
            Err(message) => looked_up(id@) == Err::<Codepage, Seq<char>>(message@),
        },
{
    match find(&codepages(), normalize(id).as_str()) {
        Some(page) => Ok(page),
        None => {
            let mut message = quote("unknown codepage ", id, ". Known codepages: ");
            message.append(known_ids().as_str());
            message.append(".");
            Err(message)
        },
    }
}

// ---------------------------------------------------------------------------------------------
// Flat files
// ---------------------------------------------------------------------------------------------
/// Whether `c` would make output unreadable, or unopenable: C0 controls, DEL, and C1 controls.
pub open spec fn is_control(c: char) -> bool {
    c < ' ' || '\u{7f}' <= c <= '\u{9f}'
}

/// Whether `c` is kept although it is a control character.
pub open spec fn is_kept(c: char, preserve_newlines: bool) -> bool {
    c == '\t' || (preserve_newlines && (c == '\n' || c == '\r'))
}

/// `c`, or a full stop in its place.
pub open spec fn sanitized_char(c: char, preserve_newlines: bool) -> char {
    if is_control(c) && !is_kept(c, preserve_newlines) {
        '.'
    } else {
        c
    }
}

/// `text` with control characters replaced.
pub open spec fn sanitized(text: Seq<char>, preserve_newlines: bool) -> Seq<char> {
    text.map_values(|c: char| sanitized_char(c, preserve_newlines))
}

/// Replace characters that would make the output unreadable, or unopenable.
///
/// `preserve_newlines` is false when the caller supplies its own record separators: a decoded
/// EBCDIC NL inside a record payload would otherwise split one record across two lines and break
/// the one-line-per-record guarantee.
pub fn sanitize(text: &str, preserve_newlines: bool) -> (out: String)
    ensures
        out@ == sanitized(text@, preserve_newlines),
{
    let mut out = String::new();
    for c in it: text.chars()
        invariant
            it.seq() == text@,
            out@ == sanitized(text@.take(it.index() as int), preserve_newlines),
    {
        let ghost before = text@.take(it.index() as int);
        let kept = c == '\t' || (preserve_newlines && (c == '\n' || c == '\r'));
        if (c < ' ' || ('\u{7f}' <= c && c <= '\u{9f}')) && !kept {
            out.push('.');
        } else {
            out.push(c);
        }
        proof {
            assert(text@.take(it.index() + 1) == before.push(c));
            assert(out@ =~= sanitized(before.push(c), preserve_newlines));
        }
    }
    assert(text@.take(text@.len() as int) == text@);
    out
}

/// What converting a flat file gives. Decoded newlines are real content: EBCDIC NL is what
/// separates the lines. Encoded text is written as the bytes it stands for, not as UTF-8.
pub open spec fn flat_output(
    bytes: Seq<u8>,
    codepage: Codepage,
    direction: Direction,
    raw: bool,
) -> Seq<u8> {
    match direction {
        Direction::EbcdicToAscii => encode_utf8(
            if raw {
                decoded(bytes, codepage)
            } else {
                sanitized(decoded(bytes, codepage), true)
            },
        ),
        Direction::AsciiToEbcdic => bytes_of(encoded(lossy(bytes), codepage)),
    }
}

/// The summary of a flat conversion.
pub open spec fn flat_summary(len: nat, codepage: Codepage, direction: Direction) -> Seq<char> {
    let verb = match direction {
        Direction::EbcdicToAscii => "decoded "@,
        Direction::AsciiToEbcdic => "encoded "@,
    };
    verb + decimal(len) + " bytes, codepage "@ + codepage.id@
}

/// Encode text to EBCDIC bytes.
pub fn encode_bytes(text: &str, codepage: &Codepage) -> (bytes: Vec<u8>)
    ensures
        bytes@ == bytes_of(encoded(text@, *codepage)),
{
    let converted = ascii_to_ebcdic(text, codepage);
    let chars = chars_of(converted.as_str());
    let mut bytes: Vec<u8> = Vec::new();
    let mut i: usize = 0;
    while i < chars.len()
        invariant
            i <= chars@.len(),
            chars@ == encoded(text@, *codepage),
            bytes@ == bytes_of(chars@.take(i as int)),
        decreases chars@.len() - i,
    {
        proof {
            lemma_encoded_fits_bytes(text@, *codepage);
        }
        match latin1(chars[i]) {
            Some(byte) => bytes.push(byte),
            None => {
                assert(false);
            },
        }
        i += 1;
        assert(bytes@ =~= bytes_of(chars@.take(i as int)));
    }
    assert(chars@.take(chars@.len() as int) == chars@);
    bytes
}

/// Convert a flat file with no record framing: what to write, and the summary.
pub fn convert_flat(bytes: &[u8], codepage: &Codepage, options: &Options) -> (converted: (
    Vec<u8>,
    String,
))
    ensures
        converted.0@ == flat_output(bytes@, *codepage, options.direction, options.raw),
        converted.1@ == flat_summary(bytes@.len(), *codepage, options.direction),
        options.direction == Direction::AsciiToEbcdic && vstd::utf8::valid_utf8(bytes@)
            ==> converted.0@ == bytes_of(encoded(vstd::utf8::decode_utf8(bytes@), *codepage)),
{
    let output = match options.direction {
        Direction::EbcdicToAscii => {
            let text = ebcdic_to_ascii(bytes, codepage);
            if options.raw {
                text.as_str().as_bytes_vec()
            } else {
                sanitize(text.as_str(), true).as_str().as_bytes_vec()
            }
        },
        Direction::AsciiToEbcdic => encode_bytes(text_from_utf8_lossy(bytes).as_str(), codepage),
    };
    let mut summary = match options.direction {
        Direction::EbcdicToAscii => "decoded ".to_owned(),
        Direction::AsciiToEbcdic => "encoded ".to_owned(),
    };
    summary.append(decimal_text(bytes.len() as u64).as_str());
    summary.append(" bytes, codepage ");
    summary.append(codepage.id);
    (output, summary)
}

// ---------------------------------------------------------------------------------------------
// Framed files
// ---------------------------------------------------------------------------------------------
/// The line that a record is written as.
pub open spec fn record_text(record: Seq<u8>, codepage: Codepage, raw: bool) -> Seq<char> {
    if raw {
        decoded(record, codepage)
    } else {
        sanitized(decoded(record, codepage), false)
    }
}

/// The summary of a framed conversion.
pub open spec fn framed_summary(counts: Counts, codepage: Codepage) -> Seq<char> {
    decimal(counts.logical_records) + " logical records ("@ + decimal(counts.physical_segments)
        + " physical segments, "@ + decimal(counts.spanned_records) + " spanned) from "@ + decimal(
        counts.payload_bytes,
    ) + " payload bytes, codepage "@ + codepage.id@
}

/// Decode a record to the line it is written as, without its newline.
pub fn record_line(record: &[u8], codepage: &Codepage, raw: bool) -> (line: String)
    ensures
        line@ == record_text(record@, *codepage, raw),
{
    let text = ebcdic_to_ascii(record, codepage);
    if raw {
        text
    } else {
        sanitize(text.as_str(), false)
    }
}

/// Put the summary of a framed conversion in words.
pub fn summarize(stats: &Stats, codepage: &Codepage) -> (summary: String)
    ensures
        summary@ == framed_summary(stats@, *codepage),
{
    let mut summary = decimal_text(stats.logical_records);
    summary.append(" logical records (");
    summary.append(decimal_text(stats.physical_segments).as_str());
    summary.append(" physical segments, ");
    summary.append(decimal_text(stats.spanned_records).as_str());
    summary.append(" spanned) from ");
    summary.append(decimal_text(stats.payload_bytes).as_str());
    summary.append(" payload bytes, codepage ");
    summary.append(codepage.id);
    summary
}

/// What to do next in a framed conversion.
#[derive(Debug)]
pub enum Action {
    /// Read on.
    Read,
    /// Write this line, and read on.
    Write(String),
    /// The file has ended: show this summary.
    Finish(String),
}

/// What an [`Action`] says.
pub ghost enum Deed {
    Read,
    Write(Seq<char>),
    Finish(Seq<char>),
}

/// What a step of a framed conversion says.
pub open spec fn action_view(result: Result<Action, String>) -> Result<Deed, Seq<char>> {
    match result {
        Ok(Action::Read) => Ok(Deed::Read),
        Ok(Action::Write(line)) => Ok(Deed::Write(line@)),
        Ok(Action::Finish(summary)) => Ok(Deed::Finish(summary@)),
        Err(message) => Err(message@),
    }
}

/// A conversion of a framed file under way: fed with what is read, it says what to write.
#[derive(Debug)]
pub struct FramedConversion {
    deframer: Deframer,
    tally: Tally,
    codepage: Codepage,
    raw: bool,
}

impl FramedConversion {
    /// Where de-framing stands.
    pub closed spec fn progress(self) -> Progress {
        self.deframer@
    }

    /// What has been counted.
    pub closed spec fn counts(self) -> Counts {
        self.tally.counts()
    }

    /// Where the last record ended.
    pub closed spec fn record_end(self) -> nat {
        self.tally.end()
    }

    /// The codepage to decode with.
    pub closed spec fn codepage(self) -> Codepage {
        self.codepage
    }

    /// Whether control characters are kept.
    pub closed spec fn raw(self) -> bool {
        self.raw
    }

    /// What has been read since the last record covers what is pending, and the descriptor of
    /// what is awaited.
    pub closed spec fn well_formed(self) -> bool {
        &&& self.deframer.well_formed()
        &&& self.tally.well_formed()
        &&& self.tally.end() + self.deframer@.pending.len() + (if self.deframer@.awaiting is Some {
            4
        } else {
            0int
        }) <= self.deframer@.offset
    }

    /// A conversion at the start of a file.
    pub fn new(codepage: Codepage, raw: bool) -> (conversion: Self)
        ensures
            conversion.well_formed(),
            conversion.progress() == Progress::start(),
            conversion.counts() == Counts::zero(),
            conversion.record_end() == 0,
            conversion.codepage() == codepage,
            conversion.raw() == raw,
    {
        FramedConversion { deframer: Deframer::new(), tally: Tally::new(), codepage, raw }
    }

    /// How many bytes to read next; none once the file has ended.
    pub fn wanted(&self) -> (len: usize)
        requires
            self.well_formed(),
        ensures
            len as nat == self.progress().wanted(),
            len == 0 <==> self.progress().finished,
    {
        self.deframer.wanted()
    }

    /// Bytes read in full: whole descriptors and whole payloads.
    pub fn offset(&self) -> (offset: u64)
        ensures
            offset as nat == self.progress().offset,
    {
        self.deframer.offset()
    }

    /// Takes what was read: as many bytes as were wanted, or fewer where the file ended.
    pub fn supply(&mut self, bytes: &[u8]) -> (result: Result<Action, String>)
        requires
            old(self).well_formed(),
            !old(self).progress().finished,
            bytes@.len() <= old(self).progress().wanted(),
            old(self).progress().offset + bytes@.len() <= u64::MAX,
        ensures
            final(self).well_formed(),
            final(self).codepage() == old(self).codepage(),
            final(self).raw() == old(self).raw(),
            ({
                let (step, after) = old(self).progress().with(bytes@);
                let record_end = old(self).record_end();
                &&& final(self).progress() == after
                &&& match step {
                    Err(fault) => {
                        &&& action_view(result) == Err::<Deed, _>(fault.message())
                        &&& final(self).counts() == old(self).counts()
                        &&& final(self).record_end() == record_end
                    },
                    Ok(Move::Read) => {
                        &&& action_view(result) == Ok::<_, Seq<char>>(Deed::Read)
                        &&& final(self).counts() == old(self).counts()
                        &&& final(self).record_end() == record_end
                    },
                    Ok(Move::Record(record)) => {
                        &&& action_view(result) == Ok::<_, Seq<char>>(
                            Deed::Write(
                                record_text(record, old(self).codepage(), old(self).raw()),
                            ),
                        )
                        &&& final(self).counts() == old(self).counts().plus(
                            (after.offset - record_end) as nat,
                            record.len(),
                        )
                        &&& final(self).record_end() == after.offset
                    },
                    Ok(Move::End) => {
                        &&& action_view(result) == Ok::<_, Seq<char>>(
                            Deed::Finish(framed_summary(old(self).counts(), old(self).codepage())),
                        )
                        &&& final(self).counts() == old(self).counts()
                        &&& final(self).record_end() == record_end
                    },
                }
            }),
    {
        match self.deframer.supply(bytes) {
            Err(error) => Err(error.message()),
            Ok(Step::Read) => Ok(Action::Read),
            Ok(Step::Record(record)) => {
                self.tally.count(self.deframer.offset(), record.len());
                Ok(Action::Write(record_line(record.as_slice(), &self.codepage, self.raw)))
            },
            Ok(Step::End) => Ok(Action::Finish(summarize(&self.tally.stats(), &self.codepage))),
        }
    }
}

/// The lines that the records of a walk are written as.
pub open spec fn record_lines(
    records: Seq<(Seq<u8>, nat)>,
    codepage: Codepage,
    raw: bool,
) -> Seq<Seq<char>> {
    records.map_values(|entry: (Seq<u8>, nat)| record_text(entry.0, codepage, raw))
}

/// What is written for a line: its UTF-8 and a line feed.
pub open spec fn line_bytes(line: Seq<char>) -> Seq<u8> {
    encode_utf8(line).push(0x0A)
}

/// What is written for `lines`, one after the other.
pub open spec fn written(lines: Seq<Seq<char>>) -> Seq<u8>
    decreases lines.len(),
{
    if lines.len() == 0 {
        Seq::empty()
    } else {
        written(lines.drop_last()) + line_bytes(lines.last())
    }
}

/// The bytes to write for a line.
pub fn line_output(line: &str) -> (bytes: Vec<u8>)
    ensures
        bytes@ == line_bytes(line@),
{
    let mut bytes = line.as_bytes_vec();
    bytes.push(0x0A);
    bytes
}

/// The bytes to write for all the lines of a framed conversion.
pub fn framed_output(lines: &Vec<String>) -> (bytes: Vec<u8>)
    ensures
        bytes@ == written(string_views(lines@)),
{
    let ghost views = string_views(lines@);
    let mut bytes: Vec<u8> = Vec::new();
    let mut i: usize = 0;
    while i < lines.len()
        invariant
            i <= lines@.len(),
            views == string_views(lines@),
            bytes@ == written(views.take(i as int)),
        decreases lines@.len() - i,
    {
        let mut line = line_output(lines[i].as_str());
        bytes.append(&mut line);
        i += 1;
        proof {
            assert(views.take(i as int).drop_last() == views.take(i - 1));
            assert(views.take(i as int).last() == views[i - 1]);
        }
    }
    assert(views.take(lines@.len() as int) == views);
    bytes
}

/// De-frame and decode a whole file, one line per logical record: the lines, and the summary or
/// what went wrong after them.
pub fn convert_framed(input: &[u8], codepage: &Codepage, options: &Options) -> (converted: (
    Vec<String>,
    Result<String, String>,
))
    ensures
        ({
            let walk = Progress::start().walk(input@);
            &&& string_views(converted.0@) == record_lines(walk.records, *codepage, options.raw)
            &&& match converted.1 {
                Ok(summary) => {
                    &&& walk.fault is None
                    &&& summary@ == framed_summary(Counts::of(walk.records), *codepage)
                },
                Err(message) => {
                    &&& walk.fault is Some
                    &&& message@ == walk.fault->0.message()
                },
            }
        }),
{
    let raw = options.raw;
    let ghost walk = Progress::start().walk(input@);
    let mut conversion = FramedConversion::new(*codepage, raw);
    let mut lines: Vec<String> = Vec::new();
    let mut position: usize = 0;
    let ghost mut done: Seq<(Seq<u8>, nat)> = Seq::empty();
    let ghost mut begin: Progress = Progress::start();
    let ghost mut rest_at_begin: Seq<u8> = input@;
    proof {
        assert(input@.skip(0) == input@);
        assert(done + walk.records == walk.records);
        assert(string_views(lines@) =~= record_lines(done, *codepage, raw));
    }
    loop
        invariant
            walk == Progress::start().walk(input@),
            raw == options.raw,
            conversion.well_formed(),
            conversion.codepage() == *codepage,
            conversion.raw() == raw,
            conversion.progress().well_formed(),
            !conversion.progress().finished,
            position <= input@.len(),
            conversion.progress().offset <= position,
            conversion.counts() == Counts::of(done),
            conversion.record_end() == begin.offset,
            begin.well_formed(),
            begin.awaiting is None,
            !begin.finished,
            begin.next(rest_at_begin) == conversion.progress().next(input@.skip(position as int)),
            walk.records == done + begin.walk(rest_at_begin).records,
            walk.fault == begin.walk(rest_at_begin).fault,
            string_views(lines@) == record_lines(done, *codepage, raw),
        decreases input@.len() - position,
    {
        let ghost before = conversion.progress();
        let ghost rest = input@.skip(position as int);
        let wanted = conversion.wanted();
        let available: usize = input.len() - position;
        let len: usize = if wanted <= available {
            wanted
        } else {
            available
        };
        let chunk = slice_subrange(input, position, position + len);
        position = position + len;
        proof {
            assert(chunk@ == rest.take(len as int));
            assert(input@.skip(position as int) == rest.skip(len as int));
            lemma_next_advances(begin, rest_at_begin);
        }
        match conversion.supply(chunk) {
            Err(message) => {
                assert(walk.records == done);
                return (lines, Err(message));
            },
            Ok(Action::Finish(summary)) => {
                assert(walk.records == done);
                return (lines, Ok(summary));
            },
            Ok(Action::Read) => {},
            Ok(Action::Write(line)) => {
                let ghost lines_before = lines@;
                lines.push(line);
                proof {
                    let after = conversion.progress();
                    let record = begin.next(rest_at_begin).result->Ok_0->0;
                    let entry = (record, (after.offset - begin.offset) as nat);
                    let later = after.walk(input@.skip(position as int));
                    assert(done + (seq![entry] + later.records) == done.push(entry)
                        + later.records);
                    assert(done.push(entry).drop_last() == done);
                    assert(string_views(lines@) == string_views(lines_before).push(line@));
                    assert(record_lines(done.push(entry), *codepage, raw) == record_lines(
                        done,
                        *codepage,
                        raw,
                    ).push(line@));
                    done = done.push(entry);
                    begin = after;
                    rest_at_begin = input@.skip(position as int);
                }
            },
        }
    }
}

// ---------------------------------------------------------------------------------------------
// Laws
// ---------------------------------------------------------------------------------------------
/// Sanitized text holds no control characters but tabs and, where they are preserved, line breaks.
pub proof fn lemma_sanitized_has_no_controls(text: Seq<char>, preserve_newlines: bool)
    ensures
        forall|i: int|
            0 <= i < sanitized(text, preserve_newlines).len() ==> !is_control(
                #[trigger] sanitized(text, preserve_newlines)[i],
            ) || is_kept(sanitized(text, preserve_newlines)[i], preserve_newlines),
        sanitized(text, preserve_newlines).len() == text.len(),
{
}

/// Sanitizing twice does no more than sanitizing once.
pub proof fn lemma_sanitize_idempotent(text: Seq<char>, preserve_newlines: bool)
    ensures
        sanitized(sanitized(text, preserve_newlines), preserve_newlines) == sanitized(
            text,
            preserve_newlines,
        ),
{
    assert(sanitized(sanitized(text, preserve_newlines), preserve_newlines) =~= sanitized(
        text,
        preserve_newlines,
    ));
}

/// Text without control characters, but for those that are kept, is left alone.
pub proof fn lemma_sanitize_leaves_printable(text: Seq<char>, preserve_newlines: bool)
    requires
        forall|i: int|
            0 <= i < text.len() ==> !is_control(#[trigger] text[i]) || is_kept(
                text[i],
                preserve_newlines,
            ),
    ensures
        sanitized(text, preserve_newlines) == text,
{
    assert(sanitized(text, preserve_newlines) =~= text);
}

/// Unless control characters are kept, a record is one line: nothing in it breaks the line.
pub proof fn lemma_one_line_per_record(record: Seq<u8>, codepage: Codepage)
    ensures
        forall|i: int|
            0 <= i < record_text(record, codepage, false).len() ==> !is_break(
                #[trigger] record_text(record, codepage, false)[i],
            ),
        record_text(record, codepage, false).len() == record.len(),
{
}

/// How many line feeds `bytes` hold.
pub open spec fn line_feeds(bytes: Seq<u8>) -> nat {
    bytes.filter(|b: u8| b == 0x0A).len()
}

proof fn lemma_scalar_has_no_line_feed(c: char)
    requires
        c != '\n',
    ensures
        forall|i: int|
            0 <= i < encode_scalar(c as u32).len() ==> #[trigger] encode_scalar(c as u32)[i] != 0x0A,
{
    char_is_scalar(c);
    let scalar = c as u32;
    if scalar <= 0x7F {
        assert(leading_byte_width_1(scalar) == scalar) by (bit_vector)
            requires
                scalar <= 0x7F,
        ;
    }
    assert(leading_byte_width_2(scalar) >= 0x80) by (bit_vector);
    assert(leading_byte_width_3(scalar) >= 0x80) by (bit_vector);
    assert(leading_byte_width_4(scalar) >= 0x80) by (bit_vector);
    assert(last_continuation_byte(scalar) >= 0x80) by (bit_vector);
    assert(second_last_continuation_byte(scalar) >= 0x80) by (bit_vector);
    assert(third_last_continuation_byte(scalar) >= 0x80) by (bit_vector);
}

proof fn lemma_text_has_no_line_feed(text: Seq<char>)
    requires
        forall|i: int| 0 <= i < text.len() ==> #[trigger] text[i] != '\n',
    ensures
        forall|i: int| 0 <= i < encode_utf8(text).len() ==> #[trigger] encode_utf8(text)[i] != 0x0A,
    decreases text.len(),
{
    if text.len() > 0 {
        let rest = text.drop_first();
        assert forall|i: int| 0 <= i < rest.len() implies #[trigger] rest[i] != '\n' by {
            assert(rest[i] == text[i + 1]);
        }
        lemma_text_has_no_line_feed(rest);
        lemma_scalar_has_no_line_feed(text[0]);
        let first = encode_scalar(text[0] as u32);
        let all = encode_utf8(text);
        assert(all == first + encode_utf8(rest));
        assert forall|i: int| 0 <= i < all.len() implies #[trigger] all[i] != 0x0A by {
            if i < first.len() {
                assert(all[i] == first[i]);
            } else {
                assert(all[i] == encode_utf8(rest)[i - first.len()]);
            }
        }
    }
}

/// Lines that hold no line feed themselves are written with exactly one each.
pub proof fn lemma_one_line_feed_per_line(lines: Seq<Seq<char>>)
    requires
        forall|i: int, k: int|
            0 <= i < lines.len() && 0 <= k < lines[i].len() ==> #[trigger] lines[i][k] != '\n',
    ensures
        line_feeds(written(lines)) == lines.len(),
    decreases lines.len(),
{
    let is_feed = |b: u8| b == 0x0A;
    reveal(Seq::filter);
    if lines.len() > 0 {
        let before = lines.drop_last();
        assert forall|i: int, k: int|
            0 <= i < before.len() && 0 <= k < before[i].len() implies #[trigger] before[i][k]
            != '\n' by {
            assert(before[i] == lines[i]);
        }
        lemma_one_line_feed_per_line(before);
        let last = encode_utf8(lines.last());
        assert forall|k: int| 0 <= k < lines.last().len() implies #[trigger] lines.last()[k]
            != '\n' by {
            assert(lines[lines.len() - 1][k] != '\n');
        }
        lemma_text_has_no_line_feed(lines.last());
        last.lemma_all_neg_filter_empty(is_feed);
        assert(last.push(0x0A).drop_last() == last);
        assert(last.push(0x0A).filter(is_feed).len() == 1);
        Seq::filter_distributes_over_add(written(before), last.push(0x0A), is_feed);
    }
}

/// Unless control characters are kept, what a framed conversion writes has one line feed per
/// record.
pub proof fn lemma_one_line_feed_per_record(records: Seq<(Seq<u8>, nat)>, codepage: Codepage)
    ensures
        line_feeds(written(record_lines(records, codepage, false))) == records.len(),
{
    let lines = record_lines(records, codepage, false);
    assert forall|i: int, k: int| 0 <= i < lines.len() && 0 <= k < lines[i].len() implies #[trigger] lines[i][k]
        != '\n' by {
        lemma_one_line_per_record(records[i].0, codepage);
        assert(!is_break(record_text(records[i].0, codepage, false)[k]));
    }
    lemma_one_line_feed_per_line(lines);
}

/// Decoding a flat file undoes encoding it: always where control characters are kept, and else
/// where the text has none but tabs and line feeds.
pub proof fn lemma_flat_round_trip(text: Seq<char>, codepage: Codepage, raw: bool)
    requires
        codepage.well_formed(),
        survives(text),
        raw || forall|i: int|
            0 <= i < text.len() ==> !is_control(#[trigger] text[i]) || is_kept(text[i], true),
    ensures
        flat_output(
            bytes_of(encoded(text, codepage)),
            codepage,
            Direction::EbcdicToAscii,
            raw,
        ) == encode_utf8(text),
{
    lemma_round_trip(text, codepage);
    if !raw {
        lemma_sanitize_leaves_printable(text, true);
    }
}

/// A framed file of encoded texts, however its records were split, converts to those texts, one
/// line each and in order.
pub proof fn lemma_framed_file_converts(
    texts: Seq<Seq<char>>,
    records: Seq<Seq<Seq<u8>>>,
    codepage: Codepage,
)
    requires
        codepage.well_formed(),
        texts.len() == records.len(),
        forall|i: int|
            #![trigger records[i]]
            #![trigger texts[i]]
            0 <= i < records.len() ==> parts_fit(records[i]) && records[i].flatten() == bytes_of(
                encoded(texts[i], codepage),
            ) && survives(texts[i]) && forall|k: int|
                0 <= k < texts[i].len() ==> !is_control(#[trigger] texts[i][k]) || is_kept(
                    texts[i][k],
                    false,
                ),
    ensures
        ({
            let walk = Progress::start().walk(framed_file(records));
            &&& walk.fault is None
            &&& record_lines(walk.records, codepage, false) == texts
            &&& Counts::of(walk.records) == file_counts(records)
        }),
{
    lemma_walks_file(Progress::start(), records);
    lemma_counts_file(records);
    let lines = record_lines(file_records(records), codepage, false);
    assert forall|i: int| 0 <= i < texts.len() implies lines[i] == texts[i] by {
        assert(records[i].flatten() == bytes_of(encoded(texts[i], codepage)));
        lemma_round_trip(texts[i], codepage);
        lemma_sanitize_leaves_printable(texts[i], false);
    }
    assert(lines =~= texts);
}

/// Every codepage is found under its number, whatever introduces it, with or without its leading
/// zeros, and whatever white space surrounds it.
pub proof fn lemma_lookup_finds_every_codepage(
    i: int,
    left: Seq<char>,
    prefix: Seq<char>,
    zeros: Seq<char>,
    number: Seq<char>,
    right: Seq<char>,
)
    requires
        0 <= i < 11,
        all_white(left),
        is_prefix(prefix),
        forall|k: int| 0 <= k < zeros.len() ==> (#[trigger] zeros[k]) == '0',
        number.len() > 0,
        zero_padded(number) == all_ids()[i],
        all_white(right),
    ensures
        looked_up(left + (prefix + (zeros + number)) + right) == Ok::<Codepage, Seq<char>>(
            all_codepages()[i],
        ),
{
    let id = all_ids()[i];
    lemma_ids_are_numbers();
    let padding = id.take(4 - number.len());
    assert(number == id.skip(4 - number.len())) by {
        assert(zero_padded(number).skip(4 - number.len()) =~= number);
    }
    assert(id == padding + number);
    assert forall|k: int| 0 <= k < padding.len() implies (#[trigger] padding[k]) == '0' by {
        assert(zero_padded(number)[k] == '0');
    }
    assert(all_digits(zeros + number));
    lemma_spellings_agree(left, prefix, zeros + number, right);
    lemma_leading_zeros_agree(zeros, number);
    lemma_leading_zeros_agree(padding, number);
    let none = Seq::<char>::empty();
    reveal_strlit("");
    assert(lowered(none) =~= ""@);
    lemma_spellings_agree(none, none, id, none);
    assert(none + (none + id) + none == id);
    lemma_ids_spell_themselves();
    lemma_ids();
    lemma_ids_differ();
    lemma_found(all_codepages(), id);
    assert(all_codepages()[i].id@ == id);
    let page = found(all_codepages(), id)->0;
    let k = choose|k: int| 0 <= k < all_codepages().len() && #[trigger] all_codepages()[k] == page;
    assert(all_ids()[k] == all_ids()[i]);
}

proof fn lemma_ids_are_numbers()
    ensures
        forall|i: int|
            0 <= i < 11 ==> (#[trigger] all_ids()[i]).len() == 4 && all_digits(all_ids()[i]),
{
    reveal_strlit("0037");
    reveal_strlit("0273");
    reveal_strlit("0277");
    reveal_strlit("0278");
    reveal_strlit("0280");
    reveal_strlit("0284");
    reveal_strlit("0285");
    reveal_strlit("0297");
    reveal_strlit("0500");
    reveal_strlit("0871");
    reveal_strlit("1047");
}

impl Wish {
    /// What is asked for once all of `arguments` have been read without deciding anything yet:
    /// neither help nor the version was asked for, nothing is wrong, and no option waits for its value.
    pub open spec fn after(self, arguments: Seq<Seq<char>>) -> Option<Wish>
        decreases arguments.len(),
    {
        if arguments.len() == 0 {
            Some(self)
        } else {
            match Word::of(arguments[0]) {
                Word::Codepage => if arguments.len() == 1 {
                    None
                } else {
                    Wish { codepage: arguments[1], ..self }.after(arguments.skip(2))
                },
                Word::Output => if arguments.len() == 1 {
                    None
                } else {
                    Wish { output: Some(arguments[1]), ..self }.after(arguments.skip(2))
                },
                Word::Rdw | Word::ToEbcdic | Word::Raw | Word::Quiet => self.with_flag(
                    Word::of(arguments[0]),
                ).after(arguments.skip(1)),
                Word::Help | Word::Version | Word::Unknown => None,
                Word::Path => if self.input is Some {
                    None
                } else {
                    Wish { input: Some(arguments[0]), ..self }.after(arguments.skip(1))
                },
            }
        }
    }
}

/// Whether `word` is an option that takes no value.
pub open spec fn is_flag(word: Word) -> bool {
    word == Word::Rdw || word == Word::ToEbcdic || word == Word::Raw || word == Word::Quiet
}

proof fn lemma_reads_on(wish: Wish, first: Seq<Seq<char>>, rest: Seq<Seq<char>>)
    requires
        wish.after(first) is Some,
    ensures
        wish.read(first + rest) == wish.after(first)->0.read(rest),
    decreases first.len(),
{
    let all = first + rest;
    if first.len() == 0 {
        assert(all == rest);
    } else {
        assert(all[0] == first[0]);
        match Word::of(first[0]) {
            Word::Codepage => {
                assert(all[1] == first[1]);
                assert(all.skip(2) == first.skip(2) + rest);
                lemma_reads_on(Wish { codepage: first[1], ..wish }, first.skip(2), rest);
            },
            Word::Output => {
                assert(all[1] == first[1]);
                assert(all.skip(2) == first.skip(2) + rest);
                lemma_reads_on(Wish { output: Some(first[1]), ..wish }, first.skip(2), rest);
            },
            Word::Path => {
                assert(all.skip(1) == first.skip(1) + rest);
                lemma_reads_on(Wish { input: Some(first[0]), ..wish }, first.skip(1), rest);
            },
            word => {
                assert(all.skip(1) == first.skip(1) + rest);
                lemma_reads_on(wish.with_flag(word), first.skip(1), rest);
            },
        }
    }
}

proof fn lemma_flag_commutes(wish: Wish, arguments: Seq<Seq<char>>, flag: Word)
    requires
        is_flag(flag),
    ensures
        wish.with_flag(flag).after(arguments) == match wish.after(arguments) {
            Some(later) => Some(later.with_flag(flag)),
            None => None,
        },
    decreases arguments.len(),
{
    if arguments.len() > 0 {
        let flagged = wish.with_flag(flag);
        match Word::of(arguments[0]) {
            Word::Codepage => if arguments.len() > 1 {
                let next = Wish { codepage: arguments[1], ..wish };
                lemma_flag_commutes(next, arguments.skip(2), flag);
                assert(next.with_flag(flag) == (Wish { codepage: arguments[1], ..flagged }));
            },
            Word::Output => if arguments.len() > 1 {
                let next = Wish { output: Some(arguments[1]), ..wish };
                lemma_flag_commutes(next, arguments.skip(2), flag);
                assert(next.with_flag(flag) == (Wish { output: Some(arguments[1]), ..flagged }));
            },
            Word::Path => if wish.input is None {
                let next = Wish { input: Some(arguments[0]), ..wish };
                lemma_flag_commutes(next, arguments.skip(1), flag);
                assert(next.with_flag(flag) == (Wish { input: Some(arguments[0]), ..flagged }));
            },
            Word::Help | Word::Version | Word::Unknown => {},
            word => {
                let next = wish.with_flag(word);
                lemma_flag_commutes(next, arguments.skip(1), flag);
                assert(next.with_flag(flag) == flagged.with_flag(word));
            },
        }
    }
}

/// Options may come in any order: one that takes no value means the same wherever it stands among
/// arguments that can be read before it.
pub proof fn lemma_flag_position_does_not_matter(
    first: Seq<Seq<char>>,
    flag: Seq<char>,
    rest: Seq<Seq<char>>,
)
    requires
        is_flag(Word::of(flag)),
        Wish::start().after(first) is Some,
    ensures
        parsed(seq!["convert"@] + (first + (seq![flag] + rest))) == parsed(
            seq!["convert"@] + (seq![flag] + (first + rest)),
        ),
{
    let start = Wish::start();
    let word = Word::of(flag);
    let here = first + (seq![flag] + rest);
    let there = seq![flag] + (first + rest);
    lemma_convert_reads(here);
    lemma_convert_reads(there);
    lemma_reads_on(start, first, seq![flag] + rest);
    assert((seq![flag] + rest).skip(1) == rest);
    assert(there.skip(1) == first + rest);
    lemma_flag_commutes(start, first, word);
    lemma_reads_on(start.with_flag(word), first, rest);
}

/// One thing asked of `convert`, however it is spelled.
pub ghost enum Piece {
    Rdw,
    ToEbcdic,
    Raw,
    Quiet,
    Codepage(Seq<char>),
    Output(Seq<char>),
    Path(Seq<char>),
}

impl Piece {
    /// Whether `arguments` spell this, in short or at length.
    pub open spec fn spelled(self, arguments: Seq<Seq<char>>) -> bool {
        match self {
            Piece::Rdw => arguments == seq!["-r"@] || arguments == seq!["--rdw"@],
            Piece::ToEbcdic => arguments == seq!["--to-ebcdic"@],
            Piece::Raw => arguments == seq!["--raw"@],
            Piece::Quiet => arguments == seq!["-q"@] || arguments == seq!["--quiet"@],
            Piece::Codepage(id) => arguments == seq!["-c"@, id] || arguments
                == seq!["--codepage"@, id],
            Piece::Output(path) => arguments == seq!["-o"@, path] || arguments
                == seq!["--output"@, path],
            Piece::Path(path) => arguments == seq![path] && Word::of(path) == Word::Path,
        }
    }
}

impl Wish {
    /// With one more thing asked for.
    pub open spec fn with_piece(self, piece: Piece) -> Wish {
        match piece {
            Piece::Rdw => Wish { rdw: true, ..self },
            Piece::ToEbcdic => Wish { direction: Direction::AsciiToEbcdic, ..self },
            Piece::Raw => Wish { raw: true, ..self },
            Piece::Quiet => Wish { quiet: true, ..self },
            Piece::Codepage(id) => Wish { codepage: id, ..self },
            Piece::Output(path) => Wish { output: Some(path), ..self },
            Piece::Path(path) => Wish { input: Some(path), ..self },
        }
    }

    /// With all of `pieces` asked for, in order.
    pub open spec fn with_pieces(self, pieces: Seq<Piece>) -> Wish
        decreases pieces.len(),
    {
        if pieces.len() == 0 {
            self
        } else {
            self.with_piece(pieces[0]).with_pieces(pieces.drop_first())
        }
    }
}

/// Whether at most one codepage, one output and one input are named.
pub open spec fn each_once(pieces: Seq<Piece>) -> bool {
    forall|i: int, j: int|
        0 <= i < j < pieces.len() ==> !(#[trigger] pieces[i] is Codepage && #[trigger] pieces[j] is Codepage)
            && !(pieces[i] is Output && pieces[j] is Output) && !(pieces[i] is Path
            && pieces[j] is Path)
}

/// Whether `groups` spell `pieces`, one for one.
pub open spec fn all_spelled(groups: Seq<Seq<Seq<char>>>, pieces: Seq<Piece>) -> bool {
    groups.len() == pieces.len() && forall|i: int|
        0 <= i < pieces.len() ==> (#[trigger] pieces[i]).spelled(groups[i])
}

/// Whether `order` lists the numbers below `n`, each once.
pub open spec fn is_order(order: Seq<int>, n: nat) -> bool {
    &&& order.len() == n
    &&& order.no_duplicates()
    &&& forall|i: int| 0 <= i < n ==> 0 <= #[trigger] order[i] < n
}

proof fn lemma_words()
    ensures
        Word::of("-c"@) == Word::Codepage,
        Word::of("--codepage"@) == Word::Codepage,
        Word::of("-o"@) == Word::Output,
        Word::of("--output"@) == Word::Output,
        Word::of("-r"@) == Word::Rdw,
        Word::of("--rdw"@) == Word::Rdw,
        Word::of("--to-ebcdic"@) == Word::ToEbcdic,
        Word::of("--raw"@) == Word::Raw,
        Word::of("-q"@) == Word::Quiet,
        Word::of("--quiet"@) == Word::Quiet,
{
    reveal_strlit("-c");
    reveal_strlit("--codepage");
    reveal_strlit("-o");
    reveal_strlit("--output");
    reveal_strlit("-r");
    reveal_strlit("--rdw");
    reveal_strlit("--to-ebcdic");
    reveal_strlit("--raw");
    reveal_strlit("-q");
    reveal_strlit("--quiet");
    assert("-o"@[1] != "-c"@[1] && "-r"@[1] != "-c"@[1] && "-r"@[1] != "-o"@[1]);
    assert("-q"@[1] != "-c"@[1] && "-q"@[1] != "-o"@[1] && "-q"@[1] != "-r"@[1]);
    assert("--raw"@[3] != "--rdw"@[3]);
    assert("-c"@.len() == 2 && "-o"@.len() == 2 && "-r"@.len() == 2 && "-q"@.len() == 2);
    assert("--rdw"@.len() == 5 && "--raw"@.len() == 5 && "--quiet"@.len() == 7);
    assert("--output"@.len() == 8 && "--codepage"@.len() == 10 && "--to-ebcdic"@.len() == 11);
}

/// Reading things that are spelled out asks for them, one after the other.
pub proof fn lemma_reads_pieces(wish: Wish, groups: Seq<Seq<Seq<char>>>, pieces: Seq<Piece>)
    requires
        all_spelled(groups, pieces),
        each_once(pieces),
        wish.input is Some ==> forall|i: int| 0 <= i < pieces.len() ==> !(#[trigger] pieces[i] is Path),
    ensures
        wish.read(groups.flatten()) == wish.with_pieces(pieces).finish(),
    decreases pieces.len(),
{
    if pieces.len() > 0 {
        lemma_words();
        let group = groups[0];
        let rest = groups.drop_first().flatten();
        let all = groups.flatten();
        assert(all == group + rest);
        let later = pieces.drop_first();
        assert forall|i: int| 0 <= i < later.len() implies (#[trigger] later[i]).spelled(
            groups.drop_first()[i],
        ) by {
            assert(later[i] == pieces[i + 1]);
        }
        assert forall|i: int, j: int| 0 <= i < j < later.len() implies !(#[trigger] later[i] is Codepage
            && #[trigger] later[j] is Codepage) && !(later[i] is Output && later[j] is Output) && !(
        later[i] is Path && later[j] is Path) by {
            assert(later[i] == pieces[i + 1] && later[j] == pieces[j + 1]);
        }
        let next = wish.with_piece(pieces[0]);
        if next.input is Some {
            assert forall|i: int| 0 <= i < later.len() implies !(#[trigger] later[i] is Path) by {
                assert(later[i] == pieces[i + 1]);
            }
        }
        lemma_reads_pieces(next, groups.drop_first(), later);
        assert(pieces[0].spelled(group));
        assert(all[0] == group[0]);
        assert(all.skip(group.len() as int) == rest);
        if group.len() == 2 {
            assert(all[1] == group[1]);
        }
    }
}

/// What comes of things asked for depends on which they are, not on their order.
proof fn lemma_with_pieces(wish: Wish, pieces: Seq<Piece>)
    requires
        each_once(pieces),
    ensures
        ({
            let all = wish.with_pieces(pieces);
            &&& all.rdw <==> wish.rdw || pieces.contains(Piece::Rdw)
            &&& all.raw <==> wish.raw || pieces.contains(Piece::Raw)
            &&& all.quiet <==> wish.quiet || pieces.contains(Piece::Quiet)
            &&& all.direction == if pieces.contains(Piece::ToEbcdic) {
                Direction::AsciiToEbcdic
            } else {
                wish.direction
            }
            &&& forall|id: Seq<char>| #[trigger]
                pieces.contains(Piece::Codepage(id)) ==> all.codepage == id
            &&& (forall|i: int| 0 <= i < pieces.len() ==> !(#[trigger] pieces[i] is Codepage))
                ==> all.codepage == wish.codepage
            &&& forall|path: Seq<char>| #[trigger]
                pieces.contains(Piece::Output(path)) ==> all.output == Some(path)
            &&& (forall|i: int| 0 <= i < pieces.len() ==> !(#[trigger] pieces[i] is Output))
                ==> all.output == wish.output
            &&& forall|path: Seq<char>| #[trigger]
                pieces.contains(Piece::Path(path)) ==> all.input == Some(path)
            &&& (forall|i: int| 0 <= i < pieces.len() ==> !(#[trigger] pieces[i] is Path))
                ==> all.input == wish.input
        }),
    decreases pieces.len(),
{
    if pieces.len() > 0 {
        let later = pieces.drop_first();
        assert forall|i: int, j: int| 0 <= i < j < later.len() implies !(#[trigger] later[i] is Codepage
            && #[trigger] later[j] is Codepage) && !(later[i] is Output && later[j] is Output) && !(
        later[i] is Path && later[j] is Path) by {
            assert(later[i] == pieces[i + 1] && later[j] == pieces[j + 1]);
        }
        lemma_with_pieces(wish.with_piece(pieces[0]), later);
        assert forall|piece: Piece| #[trigger] pieces.contains(piece) <==> piece == pieces[0]
            || later.contains(piece) by {
            if pieces.contains(piece) && piece != pieces[0] {
                let k = choose|k: int| 0 <= k < pieces.len() && pieces[k] == piece;
                assert(later[k - 1] == piece);
            }
            if later.contains(piece) {
                let k = choose|k: int| 0 <= k < later.len() && later[k] == piece;
                assert(pieces[k + 1] == piece);
            }
        }
        assert forall|k: int| 0 <= k < later.len() implies #[trigger] later[k] == pieces[k + 1] by {}
        assert forall|i: int| 0 <= i < later.len() implies !(pieces[0] is Codepage
            && #[trigger] later[i] is Codepage) && !(pieces[0] is Output && later[i] is Output) && !(
        pieces[0] is Path && later[i] is Path) by {
            assert(later[i] == pieces[i + 1]);
        }
    }
}

/// Options and the input may come in any order, and in short or at length: a command line that
/// names each value at most once asks for the same however it is put.
pub proof fn lemma_order_and_spelling_do_not_matter(
    pieces: Seq<Piece>,
    groups: Seq<Seq<Seq<char>>>,
    order: Seq<int>,
    others: Seq<Seq<Seq<char>>>,
)
    requires
        each_once(pieces),
        all_spelled(groups, pieces),
        is_order(order, pieces.len()),
        all_spelled(others, order.map_values(|k: int| pieces[k])),
    ensures
        parsed(seq!["convert"@] + groups.flatten()) == parsed(seq!["convert"@] + others.flatten()),
{
    let moved = order.map_values(|k: int| pieces[k]);
    assert forall|i: int, j: int| 0 <= i < j < moved.len() implies !(#[trigger] moved[i] is Codepage
        && #[trigger] moved[j] is Codepage) && !(moved[i] is Output && moved[j] is Output) && !(
    moved[i] is Path && moved[j] is Path) by {
        let a = order[i];
        let b = order[j];
        assert(a != b);
        assert(moved[i] == pieces[a] && moved[j] == pieces[b]);
        if a < b {
            assert(!(pieces[a] is Codepage && pieces[b] is Codepage));
        } else {
            assert(!(pieces[b] is Codepage && pieces[a] is Codepage));
        }
    }
    assert forall|piece: Piece| #[trigger] pieces.contains(piece) <==> moved.contains(piece) by {
        if pieces.contains(piece) {
            let k = choose|k: int| 0 <= k < pieces.len() && pieces[k] == piece;
            lemma_order_is_complete(order, pieces.len(), k);
            let i = choose|i: int| 0 <= i < order.len() && order[i] == k;
            assert(moved[i] == piece);
        }
        if moved.contains(piece) {
            let i = choose|i: int| 0 <= i < moved.len() && moved[i] == piece;
            assert(pieces[order[i]] == piece);
        }
    }
    let start = Wish::start();
    lemma_reads_pieces(start, groups, pieces);
    lemma_reads_pieces(start, others, moved);
    lemma_with_pieces(start, pieces);
    lemma_with_pieces(start, moved);
    let one = start.with_pieces(pieces);
    let two = start.with_pieces(moved);
    assert forall|i: int| 0 <= i < pieces.len() implies moved.contains(#[trigger] pieces[i]) by {
        assert(pieces.contains(pieces[i]));
    }
    assert forall|i: int| 0 <= i < moved.len() implies pieces.contains(#[trigger] moved[i]) by {
        assert(moved.contains(moved[i]));
    }
    assert(one.codepage == two.codepage) by {
        if exists|i: int| 0 <= i < pieces.len() && #[trigger] pieces[i] is Codepage {
            let i = choose|i: int| 0 <= i < pieces.len() && #[trigger] pieces[i] is Codepage;
            assert(pieces.contains(Piece::Codepage(pieces[i]->Codepage_0)));
        }
    }
    assert(one.output == two.output) by {
        if exists|i: int| 0 <= i < pieces.len() && #[trigger] pieces[i] is Output {
            let i = choose|i: int| 0 <= i < pieces.len() && #[trigger] pieces[i] is Output;
            assert(pieces.contains(Piece::Output(pieces[i]->Output_0)));
        }
    }
    assert(one.input == two.input) by {
        if exists|i: int| 0 <= i < pieces.len() && #[trigger] pieces[i] is Path {
            let i = choose|i: int| 0 <= i < pieces.len() && #[trigger] pieces[i] is Path;
            assert(pieces.contains(Piece::Path(pieces[i]->Path_0)));
        }
    }
    assert(pieces.contains(Piece::Rdw) == moved.contains(Piece::Rdw));
    assert(pieces.contains(Piece::Raw) == moved.contains(Piece::Raw));
    assert(pieces.contains(Piece::Quiet) == moved.contains(Piece::Quiet));
    assert(pieces.contains(Piece::ToEbcdic) == moved.contains(Piece::ToEbcdic));
    assert(one == two);
    lemma_convert_reads(groups.flatten());
    lemma_convert_reads(others.flatten());
}

/// Numbers below `n`, each once and `n` of them, are all the numbers below `n`.
proof fn lemma_order_is_complete(order: Seq<int>, n: nat, k: int)
    requires
        is_order(order, n),
        0 <= k < n,
    ensures
        order.contains(k),
{
    let range = vstd::set_lib::set_int_range(0, n as int);
    vstd::set_lib::lemma_int_range(0, n as int);
    order.unique_seq_to_set();
    assert(order.to_set().subset_of(range)) by {
        assert forall|x: int| order.to_set().contains(x) implies range.contains(x) by {
            let i = choose|i: int| 0 <= i < order.len() && order[i] == x;
            assert(0 <= order[i] < n);
        }
    }
    vstd::set_lib::lemma_subset_equality(order.to_set(), range);
    assert(range.contains(k));
}

proof fn lemma_convert_reads(rest: Seq<Seq<char>>)
    ensures
        parsed(seq!["convert"@] + rest) == Wish::start().read(rest),
{
    reveal_strlit("convert");
    reveal_strlit("-h");
    reveal_strlit("--help");
    reveal_strlit("help");
    reveal_strlit("-V");
    reveal_strlit("--version");
    assert((seq!["convert"@] + rest).skip(1) == rest);
    assert("convert"@[0] == 'c' && "help"@[0] == 'h' && "-h"@[0] == '-');
}

/// Which arguments of `convert` are options, and which: exactly those that the help lists. Anything
/// else that begins with a hyphen, but for a lone one, is no option, and everything else is a file.
pub proof fn lemma_options_are_those_listed(argument: Seq<char>)
    ensures
        Word::of(argument) == Word::Codepage <==> argument == "-c"@ || argument == "--codepage"@,
        Word::of(argument) == Word::Output <==> argument == "-o"@ || argument == "--output"@,
        Word::of(argument) == Word::Rdw <==> argument == "-r"@ || argument == "--rdw"@,
        Word::of(argument) == Word::ToEbcdic <==> argument == "--to-ebcdic"@,
        Word::of(argument) == Word::Raw <==> argument == "--raw"@,
        Word::of(argument) == Word::Quiet <==> argument == "-q"@ || argument == "--quiet"@,
        Word::of(argument) == Word::Help <==> argument == "-h"@ || argument == "--help"@,
        Word::of(argument) == Word::Version <==> argument == "-V"@ || argument == "--version"@,
        Word::of(argument) == Word::Path <==> argument.len() == 0 || argument[0] != '-'
            || argument.len() == 1,
{
    reveal_strlit("-c");
    reveal_strlit("--codepage");
    reveal_strlit("-o");
    reveal_strlit("--output");
    reveal_strlit("-r");
    reveal_strlit("--rdw");
    reveal_strlit("--to-ebcdic");
    reveal_strlit("--raw");
    reveal_strlit("-q");
    reveal_strlit("--quiet");
    reveal_strlit("-h");
    reveal_strlit("--help");
    reveal_strlit("-V");
    reveal_strlit("--version");
    reveal_strlit("-");
    assert("-c"@.len() == 2 && "-c"@[0] == '-');
    assert("--codepage"@.len() == 10 && "--codepage"@[0] == '-');
    assert("-o"@.len() == 2 && "-o"@[0] == '-');
    assert("--output"@.len() == 8 && "--output"@[0] == '-');
    assert("-r"@.len() == 2 && "-r"@[0] == '-');
    assert("--rdw"@.len() == 5 && "--rdw"@[0] == '-');
    assert("--to-ebcdic"@.len() == 11 && "--to-ebcdic"@[0] == '-');
    assert("--raw"@.len() == 5 && "--raw"@[0] == '-');
    assert("-q"@.len() == 2 && "-q"@[0] == '-');
    assert("--quiet"@.len() == 7 && "--quiet"@[0] == '-');
    assert("-h"@.len() == 2 && "-h"@[0] == '-');
    assert("--help"@.len() == 6 && "--help"@[0] == '-');
    assert("-V"@.len() == 2 && "-V"@[0] == '-');
    assert("--version"@.len() == 9 && "--version"@[0] == '-');
    assert("-c"@[1] == 'c' && "-o"@[1] == 'o' && "-r"@[1] == 'r' && "-q"@[1] == 'q');
    assert("-h"@[1] == 'h' && "-V"@[1] == 'V' && "-"@.len() == 1 && "-"@[0] == '-');
    assert("--raw"@[3] != "--rdw"@[3]);
    if argument.len() > 0 && argument[0] == '-' {
        assert(argument.take(1) =~= "-"@);
        if argument.len() == 1 {
            assert(argument =~= "-"@);
        }
    }
    if starts_with(argument, "-"@) {
        assert(argument.take(1)[0] == argument[0]);
    }
}

/// How the arguments of `convert` are read, one option or file after the other: an option sets what
/// it is named after and nothing else, the last value given for one holds, a value may be anything,
/// and a second file is one too many.
pub proof fn lemma_parse_step_by_step(
    wish: Wish,
    argument: Seq<char>,
    value: Seq<char>,
    rest: Seq<Seq<char>>,
)
    ensures
        ({
            let alone = seq![argument];
            let pair = seq![argument, value];
            &&& (argument == "-c"@ || argument == "--codepage"@) ==> wish.read(alone) == Err::<
                Asked,
                _,
            >("--codepage needs a value, e.g. --codepage 0037"@) && wish.read(pair + rest) == (
            Wish { codepage: value, ..wish }).read(rest)
            &&& (argument == "-o"@ || argument == "--output"@) ==> wish.read(alone) == Err::<
                Asked,
                _,
            >("--output needs a path"@) && wish.read(pair + rest) == (Wish {
                output: Some(value),
                ..wish
            }).read(rest)
            &&& (argument == "-r"@ || argument == "--rdw"@) ==> wish.read(alone + rest) == (Wish {
                rdw: true,
                ..wish
            }).read(rest)
            &&& argument == "--to-ebcdic"@ ==> wish.read(alone + rest) == (Wish {
                direction: Direction::AsciiToEbcdic,
                ..wish
            }).read(rest)
            &&& argument == "--raw"@ ==> wish.read(alone + rest) == (Wish { raw: true, ..wish }).read(
                rest,
            )
            &&& (argument == "-q"@ || argument == "--quiet"@) ==> wish.read(alone + rest) == (Wish {
                quiet: true,
                ..wish
            }).read(rest)
            &&& (argument == "-h"@ || argument == "--help"@) ==> wish.read(alone + rest) == Ok::<
                _,
                Seq<char>,
            >(Asked::Help)
            &&& (argument == "-V"@ || argument == "--version"@) ==> wish.read(alone + rest) == Ok::<
                _,
                Seq<char>,
            >(Asked::Version)
        }),
{
    lemma_options_are_those_listed(argument);
    let alone = seq![argument];
    let pair = seq![argument, value];
    assert((alone + rest)[0] == argument);
    assert((alone + rest).skip(1) =~= rest);
    assert((pair + rest)[0] == argument && (pair + rest)[1] == value);
    assert((pair + rest).skip(2) =~= rest);
}

/// What `convert` makes of an argument that is no option, and of the end of its arguments: one file
/// is the input, a second is refused, what looks like an option is refused by name, and at the end
/// an input must have been named and framing not be asked for together with encoding.
pub proof fn lemma_parse_files_and_the_end(
    wish: Wish,
    argument: Seq<char>,
    rest: Seq<Seq<char>>,
)
    ensures
        ({
            let line = seq![argument] + rest;
            let is_file = argument.len() < 2 || argument[0] != '-';
            let is_option = argument == "-c"@ || argument == "--codepage"@ || argument == "-o"@ || argument == "--output"@ || argument == "-r"@ || argument == "--rdw"@ || argument == "--to-ebcdic"@ || argument == "--raw"@ || argument == "-q"@ || argument == "--quiet"@ || argument == "-h"@ || argument == "--help"@ || argument == "-V"@ || argument == "--version"@;
            &&& is_file && wish.input is None ==> wish.read(line) == (Wish {
                input: Some(argument),
                ..wish
            }).read(rest)
            &&& is_file && wish.input is Some ==> wish.read(line) == Err::<Asked, _>(
                "only one input file may be given"@,
            )
            &&& !is_file && !is_option ==> wish.read(line) == Err::<Asked, _>(
                "unknown option "@ + debug_quoted(argument) + ". Run with --help for usage."@,
            )
            &&& wish.input is None ==> wish.read(Seq::empty()) == Err::<Asked, _>(
                "convert needs an input file. Run with --help for usage."@,
            )
            &&& wish.input is Some && wish.rdw && wish.direction == Direction::AsciiToEbcdic
                ==> wish.read(Seq::empty()) == Err::<Asked, _>(
                "--rdw applies to decoding only; it cannot be combined with --to-ebcdic"@,
            )
            &&& wish.input is Some && !(wish.rdw && wish.direction == Direction::AsciiToEbcdic)
                ==> wish.read(Seq::empty()) == Ok::<_, Seq<char>>(Asked::Convert(wish))
        }),
{
    lemma_options_are_those_listed(argument);
    let line = seq![argument] + rest;
    assert(line[0] == argument);
    assert(line.skip(1) =~= rest);
}

/// What the first argument decides: none asks for the server, `help` and `-V` and their like for
/// the help and the version, `convert` for a conversion that starts from the defaults, and anything
/// else is refused by name.
pub proof fn lemma_parse_first_argument(first: Seq<char>, rest: Seq<Seq<char>>)
    ensures
        ({
            let line = seq![first] + rest;
            let help = first == "-h"@ || first == "--help"@ || first == "help"@;
            let version = first == "-V"@ || first == "--version"@;
            &&& parsed(Seq::empty()) == Ok::<_, Seq<char>>(Asked::LanguageServer)
            &&& help ==> parsed(line) == Ok::<_, Seq<char>>(Asked::Help)
            &&& version ==> parsed(line) == Ok::<_, Seq<char>>(Asked::Version)
            &&& first == "convert"@ ==> parsed(line) == (Wish {
                input: None,
                output: None,
                codepage: "0037"@,
                direction: Direction::EbcdicToAscii,
                rdw: false,
                raw: false,
                quiet: false,
            }).read(rest)
            &&& !help && !version && first != "convert"@ ==> parsed(line) == Err::<Asked, _>(
                "unknown argument "@ + debug_quoted(first) + ". Run with --help for usage."@,
            )
        }),
{
    let line = seq![first] + rest;
    assert(line[0] == first);
    assert(line.skip(1) =~= rest);
    lemma_convert_reads(rest);
    reveal_strlit("-h");
    reveal_strlit("--help");
    reveal_strlit("help");
    reveal_strlit("-V");
    reveal_strlit("--version");
    assert("-h"@[1] == 'h' && "-V"@[1] == 'V' && "help"@[0] == 'h');
    assert("--help"@.len() == 6 && "--version"@.len() == 9);
    assert("-V"@.len() == 2 && "-h"@.len() == 2 && "help"@.len() == 4 && "-V"@[0] == '-');
}

/// Which characters are replaced, by scalar value: those below 0x20 and those from 0x7F to 0x9F,
/// but for the tab and, where line breaks are preserved, the line feed and the carriage return. All
/// others stay, and each stays in its place.
pub proof fn lemma_sanitize_by_scalar(text: Seq<char>, preserve_newlines: bool, i: int)
    requires
        0 <= i < text.len(),
    ensures
        ({
            let c = text[i] as int;
            let kept = c == 9 || (preserve_newlines && (c == 10 || c == 13));
            let out = sanitized(text, preserve_newlines);
            &&& out.len() == text.len()
            &&& out[i] == if (c < 0x20 || 0x7F <= c <= 0x9F) && !kept {
                '.'
            } else {
                text[i]
            }
        }),
{
    lemma_scalar(text[i]);
}

/// Printable ASCII, from the space to the tilde, and everything from U+00A0 on comes through
/// sanitizing unchanged.
pub proof fn lemma_sanitize_keeps_text(text: Seq<char>, preserve_newlines: bool)
    requires
        forall|i: int|
            0 <= i < text.len() ==> 0x20 <= #[trigger] text[i] as int <= 0x7E || 0xA0 <= text[i] as int,
    ensures
        sanitized(text, preserve_newlines) == text,
{
    assert forall|i: int| 0 <= i < text.len() implies sanitized(text, preserve_newlines)[i]
        == text[i] by {
        lemma_sanitize_by_scalar(text, preserve_newlines, i);
        assert(0x20 <= text[i] as int <= 0x7E || 0xA0 <= text[i] as int);
    }
    assert(sanitized(text, preserve_newlines) =~= text);
}

/// What conversions write: decoded text in UTF-8, sanitized with its line breaks unless it is to
/// stay raw; encoded text as the bytes it stands for; and of a record its decoded text, sanitized
/// without line breaks unless it is to stay raw.
pub proof fn lemma_outputs(bytes: Seq<u8>, codepage: Codepage, lines: Seq<Seq<char>>, line: Seq<char>)
    ensures
        flat_output(bytes, codepage, Direction::EbcdicToAscii, true) == encode_utf8(
            decoded(bytes, codepage),
        ),
        flat_output(bytes, codepage, Direction::EbcdicToAscii, false) == encode_utf8(
            sanitized(decoded(bytes, codepage), true),
        ),
        forall|raw: bool| #[trigger]
            flat_output(bytes, codepage, Direction::AsciiToEbcdic, raw).len() == encoded(
                lossy(bytes),
                codepage,
            ).len(),
        forall|raw: bool, i: int|
            0 <= i < encoded(lossy(bytes), codepage).len() ==> #[trigger] flat_output(
                bytes,
                codepage,
                Direction::AsciiToEbcdic,
                raw,
            )[i] as char == encoded(lossy(bytes), codepage)[i],
        record_text(bytes, codepage, true) == decoded(bytes, codepage),
        record_text(bytes, codepage, false) == sanitized(decoded(bytes, codepage), false),
        written(Seq::empty()) == Seq::<u8>::empty(),
        written(lines.push(line)) == written(lines) + encode_utf8(line) + seq![0x0Au8],
{
    lemma_encoded_fits_bytes(lossy(bytes), codepage);
    assert forall|raw: bool, i: int|
        0 <= i < encoded(lossy(bytes), codepage).len() implies #[trigger] flat_output(
        bytes,
        codepage,
        Direction::AsciiToEbcdic,
        raw,
    )[i] as char == encoded(lossy(bytes), codepage)[i] by {
        lemma_scalar(encoded(lossy(bytes), codepage)[i]);
    }
    assert(lines.push(line).drop_last() =~= lines);
    assert(written(lines.push(line)) =~= written(lines) + encode_utf8(line) + seq![0x0Au8]);
}

/// How the summaries read.
pub proof fn lemma_summaries(len: nat, counts: Counts, codepage: Codepage)
    ensures
        flat_summary(len, codepage, Direction::EbcdicToAscii) == "decoded "@ + decimal(len)
            + " bytes, codepage "@ + codepage.id@,
        flat_summary(len, codepage, Direction::AsciiToEbcdic) == "encoded "@ + decimal(len)
            + " bytes, codepage "@ + codepage.id@,
        framed_summary(counts, codepage) == decimal(counts.logical_records) + " logical records ("@
            + decimal(counts.physical_segments) + " physical segments, "@ + decimal(
            counts.spanned_records,
        ) + " spanned) from "@ + decimal(counts.payload_bytes) + " payload bytes, codepage "@
            + codepage.id@,
{
}

/// What cannot be looked up is named, and all that could be is listed.
pub proof fn lemma_lookup_refusal(id: Seq<char>)
    requires
        !all_ids().contains(normalized(id)),
    ensures
        looked_up(id) == Err::<Codepage, _>(
            "unknown codepage "@ + debug_quoted(id) + ". Known codepages: "@ + joined(
                all_ids(),
                ", "@,
            ) + "."@,
        ),
{
    lemma_known(id);
}

/// A request that spells the id of a codepage finds that codepage.
pub proof fn lemma_lookup_finds_what_is_spelled(id: Seq<char>, i: int)
    requires
        0 <= i < all_codepages().len(),
        normalized(id) == all_codepages()[i].id@,
    ensures
        looked_up(id) == Ok::<Codepage, Seq<char>>(all_codepages()[i]),
{
    lemma_ids();
    lemma_ids_differ();
    lemma_found(all_codepages(), normalized(id));
    if found(all_codepages(), normalized(id)) is None {
        assert(all_codepages()[i].id@ != normalized(id));
    }
    let page = found(all_codepages(), normalized(id))->0;
    let k = choose|k: int| 0 <= k < all_codepages().len() && #[trigger] all_codepages()[k] == page;
    if k < i {
        assert(all_codepages()[k].id@ != all_codepages()[i].id@);
    }
    if i < k {
        assert(all_codepages()[i].id@ != all_codepages()[k].id@);
    }
}

} // verus!
