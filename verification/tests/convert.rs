use ebcdic_lsp::convert::{
    ascii_to_ebcdic, convert, ebcdic_text_to_ascii, ebcdic_to_ascii, Direction, Source,
};
use ebcdic_lsp::tables::{self, Codepage};

fn codepage(id: &str) -> Codepage {
    tables::codepages()
        .into_iter()
        .find(|c| c.id == id)
        .expect("known codepage")
}

#[test]
fn all_eleven_codepages_are_present() {
    let ids: Vec<&str> = tables::codepages().iter().map(|c| c.id).collect();
    assert_eq!(
        ids,
        [
            "0037", "0273", "0277", "0278", "0280", "0284", "0285", "0297", "0500", "0871", "1047"
        ]
    );
}

#[test]
fn ebcdic_0037_decodes_known_bytes() {
    // Spot values from IBM codepage 037.
    let cp = &codepage("0037");
    assert_eq!(
        ebcdic_to_ascii(&[0xC8, 0xC5, 0xD3, 0xD3, 0xD6], cp),
        "HELLO"
    );
    assert_eq!(ebcdic_to_ascii(&[0x40], cp), " ");
    assert_eq!(ebcdic_to_ascii(&[0xF0, 0xF9], cp), "09");
    assert_eq!(ebcdic_to_ascii(&[0x81, 0xA9], cp), "az");
}

#[test]
fn ascii_0037_encodes_known_characters() {
    let cp = &codepage("0037");
    let encoded = ascii_to_ebcdic("HELLO", cp);
    let bytes: Vec<u32> = encoded.chars().map(u32::from).collect();
    assert_eq!(bytes, [0xC8, 0xC5, 0xD3, 0xD3, 0xD6]);
}

#[test]
fn printable_ascii_round_trips_for_every_codepage() {
    let printable: String = (0x20u8..0x7F).map(char::from).collect();
    for cp in tables::codepages().iter() {
        let encoded = ascii_to_ebcdic(&printable, cp);
        let bytes: Vec<u8> = encoded.chars().map(|c| u32::from(c) as u8).collect();
        let decoded = ebcdic_to_ascii(&bytes, cp);
        assert_eq!(
            decoded, printable,
            "codepage {} failed to round-trip",
            cp.id
        );
    }
}

#[test]
fn carriage_return_is_dropped_not_translated() {
    let cp = &codepage("0037");
    // CRLF collapses to the single EBCDIC newline byte, and no byte stands in for CR.
    let encoded = ascii_to_ebcdic("a\r\nb", cp);
    let bytes: Vec<u32> = encoded.chars().map(u32::from).collect();
    assert_eq!(
        bytes,
        [0x81, 0x25, 0x82],
        "expected a, NL, b with CR omitted"
    );
    assert_eq!(ascii_to_ebcdic("\r\r\r", cp), "");
}

#[test]
fn characters_above_u00ff_become_nul() {
    let cp = &codepage("0037");
    assert_eq!(ascii_to_ebcdic("\u{20AC}", cp), "\0");
    assert_eq!(ascii_to_ebcdic("a\u{4E2D}b", cp).chars().count(), 3);
}

#[test]
fn every_byte_decodes_for_every_codepage() {
    let all: Vec<u8> = (0..=255).collect();
    for cp in tables::codepages().iter() {
        let decoded = ebcdic_to_ascii(&all, cp);
        // Every entry is exactly one character, so 256 bytes yield 256 chars.
        assert_eq!(
            decoded.chars().count(),
            256,
            "codepage {} dropped or added characters",
            cp.id
        );
    }
}

#[test]
fn upstream_cp0277_carriage_return_defect_is_patched() {
    // The published 0277 maps byte 0x0D to "", silently deleting CRs. Assert both the correction
    // and that it is the only one.
    assert_eq!(tables::PATCHES.len(), 1);
    assert_eq!(tables::PATCHES[0], ("0277", 0x0D, "", "\r"));
    assert_eq!(ebcdic_to_ascii(&[0x0D], &codepage("0277")), "\r");

    // Every codepage agrees on CR, which is the property that was violated.
    for cp in tables::codepages().iter() {
        assert_eq!(
            ebcdic_to_ascii(&[0x0D], cp),
            "\r",
            "codepage {} maps CR wrongly",
            cp.id
        );
    }
}

#[test]
fn text_path_maps_characters_not_utf8_bytes() {
    let cp = &codepage("0037");
    // U+00C8 is one character but two UTF-8 bytes. This must produce one output character; a
    // bytes-based implementation would produce two.
    let decoded = ebcdic_text_to_ascii("\u{c8}", cp);
    assert_eq!(decoded.chars().count(), 1);
    assert_eq!(decoded, "H", "0xC8 is 'H' in codepage 037");

    // The same content as real bytes must agree with the text path.
    assert_eq!(ebcdic_to_ascii(&[0xC8], cp), decoded);
}

#[test]
fn text_path_passes_through_characters_above_u00ff() {
    let cp = &codepage("0037");
    assert_eq!(ebcdic_text_to_ascii("\u{fffd}", cp), "\u{fffd}");
    assert_eq!(ebcdic_text_to_ascii("\u{4e2d}", cp), "\u{4e2d}");
    assert!(!ebcdic_text_to_ascii("\u{4e2d}", cp).contains("undefined"));
}

#[test]
fn convert_dispatches_on_direction_and_source() {
    let cp = &codepage("0037");
    let bytes = Source::Bytes(vec![0xC8, 0xC5, 0xD3, 0xD3, 0xD6]);
    assert_eq!(convert(&bytes, Direction::EbcdicToAscii, cp), "HELLO");

    let text = Source::Text("HELLO");
    let encoded = convert(&text, Direction::AsciiToEbcdic, cp);
    let raw: Vec<u32> = encoded.chars().map(u32::from).collect();
    assert_eq!(raw, [0xC8, 0xC5, 0xD3, 0xD3, 0xD6]);
}

#[test]
fn titles_match_upstream_command_titles() {
    assert_eq!(
        Direction::EbcdicToAscii.title("0037"),
        "Convert Ebcdic0037 to Ascii"
    );
    assert_eq!(
        Direction::AsciiToEbcdic.title("1047"),
        "Convert Ascii to Ebcdic1047"
    );
}

#[test]
fn direction_round_trips_through_its_identifier() {
    for direction in [Direction::EbcdicToAscii, Direction::AsciiToEbcdic] {
        assert_eq!(Direction::from_str(direction.as_str()), Some(direction));
    }
    assert_eq!(Direction::from_str("nonsense"), None);
}

#[test]
fn bytes_are_read_as_utf8_before_they_are_encoded() {
    let cp = &codepage("0037");
    let bytes = Source::Bytes("é!".as_bytes().to_vec());
    let encoded = convert(&bytes, Direction::AsciiToEbcdic, cp);
    let raw: Vec<u32> = encoded.chars().map(u32::from).collect();
    assert_eq!(raw, [0x51, 0x5A], "one character for the two bytes of é");

    // 0xFF can stand nowhere in UTF-8; what replaces it has no EBCDIC byte.
    let malformed = Source::Bytes(vec![b'A', 0xFF, b'B']);
    let encoded = convert(&malformed, Direction::AsciiToEbcdic, cp);
    let raw: Vec<u32> = encoded.chars().map(u32::from).collect();
    assert_eq!(raw, [0xC1, 0x00, 0xC2]);
}

#[test]
fn text_that_holds_ebcdic_values_is_decoded_by_convert() {
    let cp = &codepage("0037");
    let text = Source::Text("\u{c8}\u{c9}\u{4e2d}");
    assert_eq!(convert(&text, Direction::EbcdicToAscii, cp), "HI\u{4e2d}");
}

#[test]
fn latin1_survives_every_codepage_but_for_cr_and_nel() {
    let text: String = (0u8..=255)
        .map(char::from)
        .filter(|c| *c != '\r' && *c != '\u{85}')
        .collect();
    for cp in tables::codepages().iter() {
        let encoded = ascii_to_ebcdic(&text, cp);
        assert_eq!(ebcdic_text_to_ascii(&encoded, cp), text, "codepage {}", cp.id);
    }
}

#[test]
fn nel_comes_back_as_a_line_feed() {
    for cp in tables::codepages().iter() {
        let encoded = ascii_to_ebcdic("a\u{85}b", cp);
        assert_eq!(ebcdic_text_to_ascii(&encoded, cp), "a\nb", "codepage {}", cp.id);
        assert_eq!(ebcdic_to_ascii(&[0x15, 0x25], cp), "\n\n", "codepage {}", cp.id);
    }
}

#[test]
fn codepages_differ_where_they_should() {
    // Square brackets and the national characters are what sets the codepages apart.
    assert_eq!(ebcdic_to_ascii(&[0xAD, 0xBD], &codepage("1047")), "[]");
    assert_eq!(ebcdic_to_ascii(&[0xBA, 0xBB], &codepage("0037")), "[]");
    assert_eq!(ebcdic_to_ascii(&[0x4A, 0x5A], &codepage("0500")), "[]");
    assert_eq!(ebcdic_to_ascii(&[0x4A, 0xE0], &codepage("0273")), "ÄÖ");
    assert_eq!(ebcdic_to_ascii(&[0x5B], &codepage("0285")), "£");
    assert_eq!(ebcdic_to_ascii(&[0x5B], &codepage("0277")), "Å");
}

#[test]
fn codepages_are_found_by_their_ids() {
    let all = tables::codepages();
    assert_eq!(tables::find(&all, "0871").map(|cp| cp.id), Some("0871"));
    assert!(tables::find(&all, "871").is_none());
}
