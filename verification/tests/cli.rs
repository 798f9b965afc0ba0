use ebcdic_lsp::cli::{
    convert_flat, convert_framed, encode_bytes, framed_output, known_ids, line_output, lookup,
    parse, record_line, sanitize, summarize, Action, FramedConversion, Invocation, Options, HELP,
};
use ebcdic_lsp::convert::Direction;
use ebcdic_lsp::rdw::Stats;

fn parse_args(arguments: &[&str]) -> Result<Invocation, String> {
    let owned: Vec<String> = arguments.iter().map(|s| s.to_string()).collect();
    parse(&owned)
}

fn options_of(invocation: Invocation) -> Options {
    match invocation {
        Invocation::Convert(options) => options,
        other => panic!("expected a convert invocation, got {other:?}"),
    }
}

/// Build a physical RDW segment: 2-byte length including the descriptor, flag, reserved zero.
fn segment(flag: u8, payload: &[u8]) -> Vec<u8> {
    let total = (payload.len() + 4) as u16;
    let mut out = total.to_be_bytes().to_vec();
    out.push(flag);
    out.push(0x00);
    out.extend_from_slice(payload);
    out
}

/// Encode ASCII to EBCDIC codepage 037 for the handful of characters the tests use.
fn to_cp037(text: &str) -> Vec<u8> {
    text.chars()
        .map(|c| match c {
            'A'..='I' => 0xC1 + (c as u8 - b'A'),
            'J'..='R' => 0xD1 + (c as u8 - b'J'),
            'S'..='Z' => 0xE2 + (c as u8 - b'S'),
            '0'..='9' => 0xF0 + (c as u8 - b'0'),
            ' ' => 0x40,
            other => panic!("test helper does not encode {other:?}"),
        })
        .collect()
}

/// What a run leaves behind: the output, and the summary or the error.
struct Output {
    written: Vec<u8>,
    outcome: Result<String, String>,
}

impl Output {
    fn text(&self) -> String {
        String::from_utf8_lossy(&self.written).into_owned()
    }

    fn summary(&self) -> &str {
        self.outcome.as_ref().expect("success")
    }

    fn error(&self) -> &str {
        self.outcome.as_ref().expect_err("failure")
    }
}

/// Convert `input` as the command line `arguments` ask.
fn run(arguments: &[&str], input: &[u8]) -> Output {
    let failed = |error| Output {
        written: Vec::new(),
        outcome: Err(error),
    };
    let options = match parse_args(arguments) {
        Ok(invocation) => options_of(invocation),
        Err(error) => return failed(error),
    };
    let codepage = match lookup(&options.codepage) {
        Ok(codepage) => codepage,
        Err(error) => return failed(error),
    };
    if options.rdw {
        let (lines, outcome) = convert_framed(input, &codepage, &options);
        Output {
            written: framed_output(&lines),
            outcome,
        }
    } else {
        let (written, summary) = convert_flat(input, &codepage, &options);
        Output {
            written,
            outcome: Ok(summary),
        }
    }
}

#[test]
fn no_arguments_means_language_server() {
    // Editors launch the binary with no arguments, so this must stay the default.
    assert_eq!(parse_args(&[]).unwrap(), Invocation::LanguageServer);
}

#[test]
fn parses_a_minimal_convert_invocation() {
    let options = options_of(parse_args(&["convert", "a.dat"]).unwrap());
    assert_eq!(options.input, "a.dat");
    assert_eq!(options.codepage, "0037", "defaults to codepage 0037");
    assert_eq!(options.direction, Direction::EbcdicToAscii);
    assert!(!options.rdw && !options.raw && !options.quiet);
    assert_eq!(options.output, None);
}

#[test]
fn parses_all_options_in_any_order() {
    let options = options_of(
        parse_args(&[
            "convert", "-r", "-c", "1047", "--quiet", "in.dat", "-o", "out.txt",
        ])
        .unwrap(),
    );
    assert_eq!(options.codepage, "1047");
    assert_eq!(options.input, "in.dat");
    assert_eq!(options.output, Some("out.txt".to_string()));
    assert!(options.rdw && options.quiet);
}

#[test]
fn help_and_version_short_circuit() {
    for argument in ["-h", "--help", "help"] {
        assert_eq!(parse_args(&[argument]).unwrap(), Invocation::Help);
    }
    assert_eq!(parse_args(&["-V"]).unwrap(), Invocation::Version);
}

#[test]
fn rejects_rdw_with_to_ebcdic() {
    // Re-framing would require inventing record boundaries the input does not have.
    let error = parse_args(&["convert", "--rdw", "--to-ebcdic", "a.txt"]).unwrap_err();
    assert!(error.contains("decoding only"), "got {error:?}");
}

#[test]
fn rejects_missing_input_unknown_flags_and_double_input() {
    assert!(parse_args(&["convert"]).unwrap_err().contains("input file"));
    assert!(parse_args(&["convert", "--nope", "a"])
        .unwrap_err()
        .contains("unknown option"));
    assert!(parse_args(&["convert", "a", "b"])
        .unwrap_err()
        .contains("only one input"));
    assert!(parse_args(&["--nope"])
        .unwrap_err()
        .contains("unknown argument"));
    assert!(parse_args(&["convert", "-c"])
        .unwrap_err()
        .contains("--codepage"));
}

#[test]
fn codepage_lookup_accepts_spellings_and_rejects_unknowns() {
    for spelling in ["0037", "037", "37", "cp037", "IBM-037"] {
        assert_eq!(lookup(spelling).unwrap().id, "0037");
    }
    let error = lookup("9999").unwrap_err();
    assert!(
        error.contains("Known codepages"),
        "error should list valid ids: {error}"
    );
}

#[test]
fn sanitize_replaces_nul_and_control_characters() {
    // The point of this: a NUL in the output would make the editor refuse to open it, defeating
    // the entire purpose of converting the file.
    assert_eq!(sanitize("a\0b", true), "a.b");
    assert_eq!(sanitize("a\u{1}\u{1f}\u{7f}\u{9f}b", true), "a....b");
    assert!(!sanitize("\0\0\0", true).contains('\0'));
}

#[test]
fn sanitize_preserves_newlines_only_when_asked() {
    assert_eq!(sanitize("a\nb\tc", true), "a\nb\tc");
    // Record mode supplies its own separators, so an embedded NL must not split the record.
    assert_eq!(sanitize("a\nb\tc", false), "a.b\tc");
}

#[test]
fn sanitize_leaves_printable_and_accented_text_alone() {
    assert_eq!(
        sanitize("Hello, World! 123 £é", true),
        "Hello, World! 123 £é"
    );
}

#[test]
fn decodes_an_rdw_framed_file_one_line_per_record() {
    let mut bytes = segment(0x00, &to_cp037("HELLO"));
    bytes.extend(segment(0x00, &to_cp037("WORLD")));

    let output = run(&["convert", "--rdw", "a.dat"], &bytes);
    assert_eq!(output.text(), "HELLO\nWORLD\n");
    assert!(
        output.summary().contains("2 logical records"),
        "{}",
        output.summary()
    );
}

#[test]
fn rejoins_spanned_records_into_one_line() {
    // The common two-segment shape: a first segment (0x01) then a last segment (0x02).
    let mut bytes = segment(0x01, &to_cp037("HELLO "));
    bytes.extend(segment(0x02, &to_cp037("WORLD")));

    let output = run(&["convert", "--rdw", "a.dat"], &bytes);
    assert_eq!(output.text(), "HELLO WORLD\n", "one logical record, one line");

    let summary = output.summary();
    assert!(summary.contains("1 logical records"), "{summary}");
    assert!(summary.contains("2 physical segments"), "{summary}");
    assert!(summary.contains("1 spanned"), "{summary}");
}

#[test]
fn replaces_control_characters_so_the_output_opens_in_zed() {
    // This is the property the whole command exists for: packed-decimal fields decode to arbitrary
    // bytes including NUL, and a NUL early in the file makes the editor refuse it.
    let mut payload = to_cp037("AB");
    payload.extend([0x00, 0x01, 0x02, 0x25]); // NUL, SOH, STX, and EBCDIC newline
    payload.extend(to_cp037("CD"));

    let output = run(&["convert", "--rdw", "a.dat"], &segment(0x00, &payload));
    assert_eq!(output.text(), "AB....CD\n");
    assert!(
        !output.written.contains(&0x00),
        "output must contain no NUL bytes"
    );
    assert_eq!(
        output.text().lines().count(),
        1,
        "an embedded EBCDIC newline must not split the record"
    );
}

#[test]
fn raw_mode_preserves_control_characters() {
    let mut payload = to_cp037("AB");
    payload.push(0x00);

    let output = run(
        &["convert", "--rdw", "--raw", "a.dat"],
        &segment(0x00, &payload),
    );
    assert!(output.written.contains(&0x00), "--raw must be byte-faithful");
}

#[test]
fn decodes_a_flat_file_preserving_its_newlines() {
    let mut bytes = to_cp037("LINE1");
    bytes.push(0x25); // EBCDIC newline: real content in a flat file
    bytes.extend(to_cp037("LINE2"));

    let output = run(&["convert", "a.dat"], &bytes);
    assert_eq!(output.text(), "LINE1\nLINE2");
}

#[test]
fn encodes_text_to_ebcdic_bytes() {
    let output = run(
        &["convert", "--to-ebcdic", "a.txt", "-o", "out.ebc"],
        b"HELLO",
    );
    assert_eq!(output.written, to_cp037("HELLO"));
}

#[test]
fn round_trips_a_flat_file_through_both_directions() {
    let original = "THE QUICK BROWN FOX 1234";
    let encoded = run(
        &["convert", "--to-ebcdic", "a.txt", "-o", "b.ebc"],
        original.as_bytes(),
    );
    let decoded = run(&["convert", "b.ebc", "-o", "c.txt"], &encoded.written);
    assert_eq!(decoded.text(), original);
}

#[test]
fn selects_a_codepage_and_reports_unknown_ones() {
    let input = segment(0x00, &to_cp037("HELLO"));

    // Codepage 1047 shares letter mappings with 037, so this must still decode.
    let output = run(&["convert", "--rdw", "-c", "1047", "a.dat"], &input);
    assert_eq!(output.text(), "HELLO\n");

    let bad = run(&["convert", "--rdw", "-c", "9999", "a.dat"], &input);
    assert!(bad.error().contains("Known codepages"), "{}", bad.error());
}

#[test]
fn rdw_on_a_non_framed_file_fails_with_a_useful_hint() {
    // Passing --rdw by mistake must not emit garbage; it should say what to do instead.
    let output = run(
        &["convert", "--rdw", "a.txt"],
        b"just some plain ascii text, definitely not framed",
    );
    let error = output.error();
    assert!(
        error.contains("without --rdw"),
        "should suggest the fix: {error}"
    );
    assert!(output.written.is_empty());
}

#[test]
fn rejects_rdw_combined_with_encoding() {
    let output = run(&["convert", "--rdw", "--to-ebcdic", "a.txt"], b"");
    assert!(
        output.error().contains("decoding only"),
        "{}",
        output.error()
    );
}

#[test]
fn help_and_version_succeed() {
    assert_eq!(parse_args(&["--help"]).unwrap(), Invocation::Help);
    assert!(HELP.contains("USAGE"));
    assert!(HELP.contains("--rdw"));
    assert_eq!(parse_args(&["--version"]).unwrap(), Invocation::Version);
}

#[test]
fn unknown_arguments_fail_rather_than_starting_a_server() {
    // A typo must not leave the process silently waiting on stdin for messages.
    let error = parse_args(&["--nonsense"]).unwrap_err();
    assert!(error.contains("unknown argument"), "{error}");
}

#[test]
fn output_and_quiet_are_read_off_the_command_line() {
    let options = options_of(
        parse_args(&["convert", "--rdw", "a.dat", "-o", "out.txt", "--quiet"]).unwrap(),
    );
    assert_eq!(options.output.as_deref(), Some("out.txt"));
    assert!(options.quiet);
    let output = run(
        &["convert", "--rdw", "a.dat", "-o", "out.txt", "--quiet"],
        &segment(0x00, &to_cp037("HELLO")),
    );
    assert_eq!(output.text(), "HELLO\n");
}

#[test]
fn messages_about_the_command_line_are_exact() {
    assert_eq!(
        parse_args(&["--nope"]).unwrap_err(),
        "unknown argument \"--nope\". Run with --help for usage."
    );
    assert_eq!(
        parse_args(&["convert", "-x\n"]).unwrap_err(),
        "unknown option \"-x\\n\". Run with --help for usage."
    );
    assert_eq!(
        parse_args(&["convert", "a", "-o"]).unwrap_err(),
        "--output needs a path"
    );
    assert_eq!(
        parse_args(&["convert", "a", "--codepage"]).unwrap_err(),
        "--codepage needs a value, e.g. --codepage 0037"
    );
    assert_eq!(
        parse_args(&["convert"]).unwrap_err(),
        "convert needs an input file. Run with --help for usage."
    );
    assert_eq!(
        parse_args(&["convert", "a", "b"]).unwrap_err(),
        "only one input file may be given"
    );
    assert_eq!(
        parse_args(&["convert", "a", "-r", "--to-ebcdic"]).unwrap_err(),
        "--rdw applies to decoding only; it cannot be combined with --to-ebcdic"
    );
}

#[test]
fn values_are_taken_as_they_come() {
    let options = options_of(parse_args(&["convert", "-c", "-r", "-", "-o", "--raw"]).unwrap());
    assert_eq!(options.codepage, "-r");
    assert_eq!(options.input, "-", "a lone dash is a file name");
    assert_eq!(options.output.as_deref(), Some("--raw"));
    assert!(!options.rdw && !options.raw);
}

#[test]
fn the_last_of_several_values_wins() {
    let options = options_of(parse_args(&["convert", "-c", "1", "a", "-c", "2"]).unwrap());
    assert_eq!(options.codepage, "2");
}

#[test]
fn help_wins_over_what_comes_after_it() {
    assert_eq!(
        parse_args(&["convert", "a", "--help", "--nope"]).unwrap(),
        Invocation::Help
    );
    assert!(parse_args(&["convert", "--nope", "--help"]).is_err());
}

#[test]
fn a_flag_means_the_same_wherever_it_stands() {
    let arguments = ["in.dat", "-c", "1047", "-o", "out.txt"];
    for flag in ["-r", "--rdw", "--to-ebcdic", "--raw", "-q", "--quiet"] {
        let first: Vec<&str> = ["convert", flag].iter().chain(&arguments).copied().collect();
        let expected = parse_args(&first).unwrap();
        for at in [0, 1, 3, 5] {
            let mut line = vec!["convert"];
            line.extend(&arguments[..at]);
            line.push(flag);
            line.extend(&arguments[at..]);
            assert_eq!(parse_args(&line).unwrap(), expected, "{line:?}");
        }
    }
}

#[test]
fn lookup_names_every_codepage_where_it_fails() {
    assert_eq!(
        known_ids(),
        "0037, 0273, 0277, 0278, 0280, 0284, 0285, 0297, 0500, 0871, 1047"
    );
    assert_eq!(
        lookup("no\"pe").unwrap_err(),
        "unknown codepage \"no\\\"pe\". Known codepages: 0037, 0273, 0277, 0278, 0280, 0284, \
         0285, 0297, 0500, 0871, 1047."
    );
}

#[test]
fn sanitizing_twice_changes_nothing_more() {
    let all: String = (0u32..0x180).filter_map(char::from_u32).collect();
    for preserve in [true, false] {
        let once = sanitize(&all, preserve);
        assert_eq!(sanitize(&once, preserve), once);
        assert_eq!(once.chars().count(), all.chars().count());
        assert!(once
            .chars()
            .all(|c| !c.is_control() || c == '\t' || (preserve && (c == '\n' || c == '\r'))));
    }
}

#[test]
fn summaries_are_exact() {
    let mut bytes = segment(0x00, &to_cp037("ONE"));
    bytes.extend(segment(0x01, &to_cp037("TW")));
    bytes.extend(segment(0x02, &to_cp037("O")));
    assert_eq!(
        run(&["convert", "-r", "-c", "37", "a"], &bytes).summary(),
        "2 logical records (3 physical segments, 1 spanned) from 6 payload bytes, codepage 0037"
    );
    assert_eq!(
        run(&["convert", "a"], &to_cp037("HELLO WORLD")).summary(),
        "decoded 11 bytes, codepage 0037"
    );
    assert_eq!(
        run(&["convert", "--to-ebcdic", "-c", "ibm-500", "a"], b"").summary(),
        "encoded 0 bytes, codepage 0500"
    );
    let stats = Stats {
        logical_records: u64::MAX,
        physical_segments: 10,
        spanned_records: 0,
        payload_bytes: 1_234_567_890,
    };
    assert_eq!(
        summarize(&stats, &lookup("1047").unwrap()),
        "18446744073709551615 logical records (10 physical segments, 0 spanned) from 1234567890 \
         payload bytes, codepage 1047"
    );
}

#[test]
fn lines_before_a_fault_are_kept() {
    let mut bytes = segment(0x00, &to_cp037("HELLO"));
    bytes.extend([0x00, 0x09, 0x00, 0x00, 0xC1]);
    let output = run(&["convert", "--rdw", "a"], &bytes);
    assert_eq!(output.text(), "HELLO\n");
    assert_eq!(
        output.error(),
        "record at byte 13 claims 5 bytes but only 1 remain"
    );
}

#[test]
fn raw_output_of_a_flat_file_is_utf8() {
    let output = run(&["convert", "--raw", "a"], &[0x00, 0x51, 0xC1]);
    assert_eq!(output.written, "\0éA".as_bytes());
    let output = run(&["convert", "a"], &[0x00, 0x51, 0xC1]);
    assert_eq!(output.written, ".éA".as_bytes());
}

#[test]
fn malformed_input_is_replaced_before_it_is_encoded() {
    let output = run(&["convert", "--to-ebcdic", "a"], &[b'A', 0xFF, 0xC3, 0xA9]);
    assert_eq!(output.written, [0xC1, 0x00, 0x51]);
}

#[test]
fn encoded_text_is_written_as_bytes() {
    let codepage = lookup("0037").unwrap();
    assert_eq!(encode_bytes("A\r\né€", &codepage), [0xC1, 0x25, 0x51, 0x00]);
}

#[test]
fn a_record_becomes_one_line() {
    let codepage = lookup("0037").unwrap();
    let record = [0xC1, 0x15, 0x0D, 0x05, 0xC2];
    assert_eq!(record_line(&record, &codepage, false), "A..\tB");
    assert_eq!(record_line(&record, &codepage, true), "A\n\r\tB");
}

#[test]
fn a_conversion_says_what_to_do_with_what_it_is_fed() {
    let mut conversion = FramedConversion::new(lookup("0037").unwrap(), false);
    let mut file = segment(0x01, &to_cp037("HEL"));
    file.extend(segment(0x02, &to_cp037("LO")));
    let mut rest = &file[..];
    let mut lines = Vec::new();
    let summary = loop {
        let len = conversion.wanted().min(rest.len());
        let (chunk, later) = rest.split_at(len);
        rest = later;
        match conversion.supply(chunk).unwrap() {
            Action::Read => {}
            Action::Write(line) => lines.push(line),
            Action::Finish(summary) => break summary,
        }
    };
    assert_eq!(lines, ["HELLO"]);
    assert_eq!(conversion.offset(), 13);
    assert_eq!(conversion.wanted(), 0);
    assert_eq!(
        summary,
        "1 logical records (2 physical segments, 1 spanned) from 5 payload bytes, codepage 0037"
    );
}

#[test]
fn version_is_an_option_of_convert_too() {
    assert_eq!(
        parse_args(&["convert", "--version"]).unwrap(),
        Invocation::Version
    );
    assert_eq!(
        parse_args(&["convert", "a", "-r", "-V", "--nope"]).unwrap(),
        Invocation::Version
    );
}

#[test]
fn order_and_spelling_of_options_do_not_matter() {
    let short: [&[&str]; 4] = [&["-r"], &["-c", "1047"], &["-o", "out.txt"], &["in.dat"]];
    let long: [&[&str]; 4] = [
        &["--rdw"],
        &["--codepage", "1047"],
        &["--output", "out.txt"],
        &["in.dat"],
    ];
    let line = |pieces: &[&[&str]; 4], order: [usize; 4]| {
        let mut line = vec!["convert"];
        for k in order {
            line.extend(pieces[k]);
        }
        parse_args(&line).unwrap()
    };
    let expected = line(&short, [0, 1, 2, 3]);
    for order in [[0, 1, 2, 3], [3, 2, 1, 0], [1, 3, 0, 2], [2, 0, 3, 1]] {
        assert_eq!(line(&short, order), expected);
        assert_eq!(line(&long, order), expected);
    }
}

#[test]
fn text_with_tabs_and_newlines_survives_both_directions() {
    let text = "A\tB\nC é";
    let encoded = run(&["convert", "--to-ebcdic", "a"], text.as_bytes());
    for arguments in [&["convert", "a"][..], &["convert", "--raw", "a"][..]] {
        assert_eq!(run(arguments, &encoded.written).text(), text);
    }
}

#[test]
fn lines_are_written_with_a_line_feed_each() {
    assert_eq!(line_output("é"), [0xC3, 0xA9, 0x0A]);
    assert_eq!(line_output(""), [0x0A]);
    assert!(framed_output(&Vec::new()).is_empty());
    let lines = vec!["A".to_string(), String::new(), "é".to_string()];
    assert_eq!(framed_output(&lines), "A\n\né\n".as_bytes());
}

#[test]
fn there_is_one_line_feed_per_record() {
    let all: Vec<u8> = (0..=255).collect();
    let mut file = segment(0x00, &all);
    file.extend(segment(0x00, b""));
    file.extend(segment(0x01, &all));
    file.extend(segment(0x02, &all));
    let output = run(&["convert", "--rdw", "a"], &file);
    assert_eq!(output.written.iter().filter(|b| **b == 0x0A).count(), 3);
}
