use ebcdic_lsp::document::{
    byte_offset, file_path, full_range, is_empty, slice, Documents, Position, Range,
};

fn position(line: u32, character: u32) -> Position {
    Position { line, character }
}

fn range(start: (u32, u32), end: (u32, u32)) -> Range {
    Range {
        start: position(start.0, start.1),
        end: position(end.0, end.1),
    }
}

#[test]
fn byte_offset_walks_lines() {
    let text = "abc\ndef\nghi";
    assert_eq!(byte_offset(text, position(0, 0)), 0);
    assert_eq!(byte_offset(text, position(0, 3)), 3);
    assert_eq!(byte_offset(text, position(1, 0)), 4);
    assert_eq!(byte_offset(text, position(2, 3)), 11);
}

#[test]
fn byte_offset_handles_crlf_as_one_terminator() {
    let text = "abc\r\ndef";
    assert_eq!(
        byte_offset(text, position(1, 0)),
        5,
        "CRLF is two bytes, one terminator"
    );
    assert_eq!(byte_offset(text, position(1, 3)), 8);
}

#[test]
fn byte_offset_counts_utf16_units_not_bytes() {
    // 'é' is 2 UTF-8 bytes but 1 UTF-16 unit.
    let text = "éé!";
    assert_eq!(byte_offset(text, position(0, 1)), 2);
    assert_eq!(byte_offset(text, position(0, 2)), 4);
    assert_eq!(byte_offset(text, position(0, 3)), 5);
}

#[test]
fn byte_offset_counts_surrogate_pairs_as_two_units() {
    // U+1F600 is 4 UTF-8 bytes and 2 UTF-16 units.
    let text = "\u{1f600}x";
    assert_eq!(
        byte_offset(text, position(0, 2)),
        4,
        "one astral char is two UTF-16 units"
    );
    assert_eq!(byte_offset(text, position(0, 3)), 5);
}

#[test]
fn byte_offset_clamps_out_of_range_positions() {
    let text = "abc\ndef";
    assert_eq!(
        byte_offset(text, position(0, 99)),
        3,
        "clamped to end of line"
    );
    assert_eq!(
        byte_offset(text, position(99, 0)),
        text.len(),
        "clamped to end of text"
    );
}

#[test]
fn full_range_covers_everything() {
    assert_eq!(full_range("abc"), range((0, 0), (0, 3)));
    assert_eq!(full_range("abc\ndef"), range((0, 0), (1, 3)));
    // A trailing newline means a final empty line, as editors show it.
    assert_eq!(full_range("abc\n"), range((0, 0), (1, 0)));
    assert_eq!(full_range(""), range((0, 0), (0, 0)));
}

#[test]
fn full_range_end_is_in_utf16_units() {
    assert_eq!(
        full_range("ééé"),
        range((0, 0), (0, 3)),
        "3 chars, 6 bytes, 3 UTF-16 units"
    );
    assert_eq!(full_range("\u{1f600}"), range((0, 0), (0, 2)));
}

#[test]
fn full_range_round_trips_through_slice() {
    for text in ["", "abc", "abc\ndef\n", "ééé\r\nx", "\u{1f600}\nz"] {
        assert_eq!(
            slice(text, full_range(text)),
            Some(text),
            "failed for {text:?}"
        );
    }
}

#[test]
fn slice_extracts_a_selection() {
    let text = "hello\nworld";
    assert_eq!(slice(text, range((0, 0), (0, 5))), Some("hello"));
    assert_eq!(slice(text, range((1, 0), (1, 5))), Some("world"));
    assert_eq!(slice(text, range((0, 3), (1, 2))), Some("lo\nwo"));
}

#[test]
fn slice_rejects_an_inverted_range() {
    assert_eq!(slice("hello", range((0, 4), (0, 1))), None);
}

#[test]
fn empty_range_signals_no_selection() {
    assert!(is_empty(range((3, 7), (3, 7))));
    assert!(!is_empty(range((3, 7), (3, 8))));
}

#[test]
fn file_path_extracts_unix_paths() {
    assert_eq!(
        file_path("file:///tmp/a.dat"),
        Some("/tmp/a.dat".to_string())
    );
    assert_eq!(
        file_path("file://localhost/tmp/a.dat"),
        Some("/tmp/a.dat".to_string())
    );
}

#[test]
fn file_path_decodes_percent_escapes() {
    assert_eq!(
        file_path("file:///tmp/my%20file.dat"),
        Some("/tmp/my file.dat".to_string())
    );
    assert_eq!(
        file_path("file:///tmp/caf%C3%A9.dat"),
        Some("/tmp/café.dat".to_string())
    );
}

#[test]
fn file_path_handles_windows_drive_letters() {
    assert_eq!(
        file_path("file:///C:/data/a.dat"),
        Some("C:/data/a.dat".to_string())
    );
}

#[test]
fn file_path_rejects_non_file_and_remote_uris() {
    // Untitled buffers and remote hosts have nothing readable on disk; the caller relies on None
    // to fall back to buffer text rather than reading the wrong file.
    assert_eq!(file_path("untitled:Untitled-1"), None);
    assert_eq!(file_path("file://server/share/a.dat"), None);
    assert_eq!(file_path("https://example.com/a.dat"), None);
}

#[test]
fn documents_store_tracks_open_update_close() {
    let uri = "file:///tmp/a.txt";
    let mut documents = Documents::new();
    assert_eq!(documents.get(uri), None);

    documents.open(uri, "first".to_string());
    assert_eq!(documents.get(uri), Some("first"));

    documents.update(uri, "second".to_string());
    assert_eq!(documents.get(uri), Some("second"));

    documents.close(uri);
    assert_eq!(documents.get(uri), None);
}

#[test]
fn documents_do_not_disturb_each_other() {
    let mut documents = Documents::default();
    documents.open("file:///a", "one".to_string());
    documents.open("file:///b", "two".to_string());
    documents.close("file:///a");
    documents.close("file:///c");
    assert_eq!(documents.get("file:///a"), None);
    assert_eq!(documents.get("file:///b"), Some("two"));
}

#[test]
fn a_lone_carriage_return_ends_a_line() {
    let text = "a\rb\r\rc";
    assert_eq!(byte_offset(text, position(1, 0)), 2);
    assert_eq!(byte_offset(text, position(2, 0)), 4);
    assert_eq!(byte_offset(text, position(3, 1)), 6);
    assert_eq!(full_range(text), range((0, 0), (3, 1)));
}

#[test]
fn the_middle_of_a_surrogate_pair_rounds_up() {
    assert_eq!(byte_offset("\u{1f600}x", position(0, 1)), 4);
}

#[test]
fn positions_in_order_never_make_an_inverted_range() {
    let text = "é\u{1f600}\r\nab\n\rc";
    let places: Vec<Position> = (0..6)
        .flat_map(|line| (0..5).map(move |character| position(line, character)))
        .collect();
    for (i, start) in places.iter().enumerate() {
        for end in &places[i..] {
            let range = Range {
                start: *start,
                end: *end,
            };
            let bytes = byte_offset(text, *start)..byte_offset(text, *end);
            assert_eq!(slice(text, range), text.get(bytes), "{range:?}");
        }
    }
}

#[test]
fn malformed_escapes_name_no_file() {
    assert_eq!(file_path("file:///tmp/a%2"), None);
    assert_eq!(file_path("file:///tmp/a%"), None);
    assert_eq!(file_path("file:///tmp/a%zz"), None);
    assert_eq!(file_path("file:///tmp/a%+f"), None);
    assert_eq!(file_path("file:///tmp/%ff"), None, "not UTF-8");
    assert_eq!(file_path("file:///tmp/%2f%2F"), Some("/tmp///".to_string()));
}

#[test]
fn a_bar_stands_for_the_colon_of_a_drive() {
    assert_eq!(file_path("file:///c|/a|b"), Some("c:/a:b".to_string()));
    assert_eq!(file_path("file:///C%3A/a"), Some("C:/a".to_string()));
    assert_eq!(file_path("file:///data|x"), Some("/data|x".to_string()));
}

#[test]
fn a_uri_needs_a_path() {
    assert_eq!(file_path("file://"), None);
    assert_eq!(file_path("file://localhost"), None);
    assert_eq!(file_path("file:///"), Some("/".to_string()));
    assert_eq!(file_path("FILE:///tmp/a"), None);
}

#[test]
fn an_inverted_range_covers_nothing_wherever_it_is_clamped_to() {
    assert_eq!(slice("hello", range((0, 9), (0, 6))), None);
    assert_eq!(slice("hello", range((9, 0), (0, 9))), None);
    assert_eq!(slice("hello", range((0, 6), (0, 9))), Some(""));
    assert_eq!(slice("", range((0, 1), (0, 0))), None);
}
