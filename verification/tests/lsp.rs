use ebcdic_lsp::config::Settings;
use ebcdic_lsp::document::{Position, Range};
use ebcdic_lsp::lsp::{
    initial_settings, invalid_params, unsupported_method, ActionData, CodeAction, Edit, Event,
    NotificationMethod, RequestMethod, Server, ACTION_KIND, INVALID_PARAMS, METHOD_NOT_FOUND,
};

fn json(text: &str) -> serde_json::Value {
    serde_json::from_str(text).expect("valid json")
}

fn range(start: (u32, u32), end: (u32, u32)) -> Range {
    Range {
        start: Position {
            line: start.0,
            character: start.1,
        },
        end: Position {
            line: end.0,
            character: end.1,
        },
    }
}

/// A server with one open document.
fn server_with(document: &str, text: &str, settings: &str) -> Server {
    let mut server = Server::new(Settings::from_value(&json(settings)));
    server.documents.open(document, text.to_string());
    server
}

fn titles(actions: &[CodeAction]) -> Vec<String> {
    actions.iter().map(|action| action.title.clone()).collect()
}

fn only_action(actions: Vec<CodeAction>, title: &str) -> ActionData {
    actions
        .into_iter()
        .find(|action| action.title == title)
        .unwrap_or_else(|| panic!("no action titled {title:?}"))
        .data
}

fn edit_of(edit: Option<Edit>) -> (Range, String) {
    let edit = edit.expect("resolved action has an edit");
    (edit.range, edit.new_text)
}

#[test]
fn offers_two_actions_per_codepage() {
    let document = "file:///tmp/a.txt";
    let server = server_with(document, "HELLO", "{}");
    let actions = server.code_actions(document, range((0, 0), (0, 5)));
    assert_eq!(actions.len(), 22, "11 codepages x 2 directions");
    assert!(titles(&actions).contains(&"Convert Ebcdic0037 to Ascii".to_string()));
    assert!(titles(&actions).contains(&"Convert Ascii to Ebcdic1047".to_string()));
}

#[test]
fn codepage_setting_narrows_the_menu() {
    let document = "file:///tmp/a.txt";
    let server = server_with(document, "HELLO", r#"{ "codepages": ["0037"] }"#);
    let actions = server.code_actions(document, range((0, 0), (0, 5)));
    assert_eq!(
        titles(&actions),
        ["Convert Ebcdic0037 to Ascii", "Convert Ascii to Ebcdic0037"]
    );
}

#[test]
fn actions_are_advertised_without_an_edit() {
    // The edit must arrive only on resolve; otherwise every cursor move converts the file.
    let document = "file:///tmp/a.txt";
    let server = server_with(document, "HELLO", r#"{ "codepages": ["0037"] }"#);
    let actions = server.code_actions(document, range((0, 0), (0, 5)));
    assert_eq!(actions.len(), 2);
    for action in &actions {
        assert_eq!(action.data.uri, document, "resolve needs the data payload");
        assert_eq!(action.data.codepage, "0037");
        assert_eq!(action.data.range, range((0, 0), (0, 5)));
        assert!(!action.data.whole_document);
        assert_eq!(action.kind, "refactor.rewrite");
    }
    assert_eq!(actions[0].data.direction, "ebcdicToAscii");
    assert_eq!(actions[1].data.direction, "asciiToEbcdic");
}

#[test]
fn no_actions_for_an_unknown_or_empty_document() {
    let document = "file:///tmp/a.txt";
    let server = Server::new(Settings::default());
    assert!(server
        .code_actions(document, range((0, 0), (0, 1)))
        .is_empty());

    let empty = server_with(document, "", "{}");
    assert!(empty
        .code_actions(document, range((0, 0), (0, 0)))
        .is_empty());
}

#[test]
fn selection_is_converted_in_place() {
    let document = "file:///tmp/a.txt";
    let server = server_with(document, "xxHELLOxx", r#"{ "codepages": ["0037"] }"#);
    let selection = range((0, 2), (0, 7));
    let actions = server.code_actions(document, selection);
    let resolved = server.resolve(&only_action(actions, "Convert Ascii to Ebcdic0037"), None);

    let (edited_range, new_text) = edit_of(resolved);
    assert_eq!(edited_range, selection, "only the selection is replaced");
    let bytes: Vec<u32> = new_text.chars().map(u32::from).collect();
    assert_eq!(bytes, [0xC8, 0xC5, 0xD3, 0xD3, 0xD6], "HELLO in EBCDIC 037");
}

#[test]
fn empty_selection_converts_the_whole_document() {
    let document = "untitled:Untitled-1";
    let server = server_with(document, "AB\nCD", r#"{ "codepages": ["0037"] }"#);
    // A bare cursor part-way through the document.
    let actions = server.code_actions(document, range((1, 1), (1, 1)));
    let resolved = server.resolve(&only_action(actions, "Convert Ascii to Ebcdic0037"), None);

    let (edited_range, new_text) = edit_of(resolved);
    assert_eq!(
        edited_range,
        range((0, 0), (1, 2)),
        "spans the whole document"
    );
    let bytes: Vec<u32> = new_text.chars().map(u32::from).collect();
    assert_eq!(bytes, [0xC1, 0xC2, 0x25, 0xC3, 0xC4], "AB, newline, CD");
}

#[test]
fn whole_document_decode_reads_bytes_from_disk() {
    // The buffer has already lost the original bytes to U+FFFD, so a correct decode must come from
    // the file.
    let document = "file:///tmp/ebcdic-lsp-test-disk/hello.dat";
    // Mojibake stands in for what an editor actually shows for these bytes.
    let server = server_with(
        document,
        "\u{fffd}\u{fffd}\u{fffd}\u{fffd}\u{fffd}",
        r#"{ "codepages": ["0037"] }"#,
    );
    let actions = server.code_actions(document, range((0, 0), (0, 0)));
    let data = only_action(actions, "Convert Ebcdic0037 to Ascii");
    assert_eq!(
        server.file_to_read(&data),
        Some("/tmp/ebcdic-lsp-test-disk/hello.dat".to_string())
    );
    let disk = vec![0xC8, 0xC5, 0xD3, 0xD3, 0xD6];

    let (_, new_text) = edit_of(server.resolve(&data, Some(disk)));
    assert_eq!(
        new_text, "HELLO",
        "decoded from disk bytes, not the mangled buffer"
    );
}

#[test]
fn selection_decode_uses_buffer_text_not_disk() {
    // Selections have no recoverable byte range, so they must convert what is on screen even when
    // the file exists on disk.
    let document = "file:///tmp/ebcdic-lsp-test-selection/hello.dat";
    // Buffer holds characters whose scalars are EBCDIC bytes for "HI".
    let buffer = format!("{}{}", char::from(0xC8u8), char::from(0xC9u8));
    let server = server_with(document, &buffer, r#"{ "codepages": ["0037"] }"#);
    let actions = server.code_actions(document, range((0, 0), (0, 2)));
    let data = only_action(actions, "Convert Ebcdic0037 to Ascii");
    assert_eq!(server.file_to_read(&data), None);
    let disk = vec![0xC8, 0xC5, 0xD3, 0xD3, 0xD6];

    let (_, new_text) = edit_of(server.resolve(&data, Some(disk)));
    assert_eq!(new_text, "HI", "converted the selection from the buffer");
}

#[test]
fn untitled_document_decode_falls_back_to_buffer_text() {
    let document = "untitled:Untitled-1";
    let buffer = format!("{}{}", char::from(0xC8u8), char::from(0xC9u8));
    let server = server_with(document, &buffer, r#"{ "codepages": ["0037"] }"#);
    let actions = server.code_actions(document, range((0, 0), (0, 0)));
    let data = only_action(actions, "Convert Ebcdic0037 to Ascii");
    assert_eq!(server.file_to_read(&data), None);
    assert_eq!(edit_of(server.resolve(&data, None)).1, "HI");
}

#[test]
fn round_trip_through_two_resolved_actions_restores_the_text() {
    let document = "untitled:Untitled-1";
    let original = "The quick brown fox!";
    let server = server_with(document, original, r#"{ "codepages": ["1047"] }"#);

    let encoded = edit_of(server.resolve(
        &only_action(
            server.code_actions(document, range((0, 0), (0, 0))),
            "Convert Ascii to Ebcdic1047",
        ),
        None,
    ))
    .1;

    // Feed the encoded text back in as the buffer contents and decode it again.
    let mut second = server_with(document, &encoded, r#"{ "codepages": ["1047"] }"#);
    second.settings = Settings::from_value(&json(r#"{ "codepages": ["1047"] }"#));
    let decoded = edit_of(second.resolve(
        &only_action(
            second.code_actions(document, range((0, 0), (0, 0))),
            "Convert Ebcdic1047 to Ascii",
        ),
        None,
    ))
    .1;

    assert_eq!(decoded, original);
}

#[test]
fn configuration_change_updates_the_offered_codepages() {
    let document = "file:///tmp/a.txt";
    let mut server = server_with(document, "HELLO", "{}");
    assert_eq!(
        server.code_actions(document, range((0, 0), (0, 5))).len(),
        22
    );

    server.handle_notification(Event::Configured {
        settings: &json(r#"{ "codepages": ["0037"] }"#),
    });
    assert_eq!(server.code_actions(document, range((0, 0), (0, 5))).len(), 2);
}

#[test]
fn document_lifecycle_notifications_are_tracked() {
    let document = "file:///tmp/a.txt";
    let mut server = Server::new(Settings::default());

    server.handle_notification(Event::Opened {
        uri: document.to_string(),
        text: "one".to_string(),
    });
    assert_eq!(server.documents.get(document), Some("one"));

    server.handle_notification(Event::Changed {
        uri: document.to_string(),
        texts: vec!["two".to_string()],
    });
    assert_eq!(server.documents.get(document), Some("two"));

    server.handle_notification(Event::Closed {
        uri: document.to_string(),
    });
    assert_eq!(server.documents.get(document), None);
}

#[test]
fn unsupported_request_gets_a_method_not_found_error() {
    let method = "textDocument/formatting";
    assert_eq!(RequestMethod::from_name(method), RequestMethod::Unsupported);
    let error = unsupported_method(method);
    assert_eq!(error.code, METHOD_NOT_FOUND);
    assert_eq!(error.message, "unsupported method: textDocument/formatting");
}

#[test]
fn error_codes_are_those_of_the_protocol() {
    assert_eq!(
        METHOD_NOT_FOUND,
        lsp_server::ErrorCode::MethodNotFound as i32
    );
    assert_eq!(INVALID_PARAMS, lsp_server::ErrorCode::InvalidParams as i32);
    assert_eq!(
        ACTION_KIND,
        lsp_types::CodeActionKind::REFACTOR_REWRITE.as_str()
    );
    let refusal = invalid_params("missing field".to_string());
    assert_eq!(refusal.code, INVALID_PARAMS);
    assert_eq!(refusal.message, "missing field");
}

#[test]
fn the_last_change_carries_the_document() {
    let mut server = server_with("file:///a", "one", "{}");
    server.handle_notification(Event::Changed {
        uri: "file:///a".to_string(),
        texts: vec!["two".to_string(), "three".to_string()],
    });
    assert_eq!(server.documents.get("file:///a"), Some("three"));
    server.handle_notification(Event::Changed {
        uri: "file:///a".to_string(),
        texts: Vec::new(),
    });
    assert_eq!(server.documents.get("file:///a"), Some("three"));
}

#[test]
fn unusable_data_makes_no_edit() {
    let document = "file:///tmp/a.txt";
    let server = server_with(document, "HELLO", r#"{ "codepages": ["0037"] }"#);
    let data = |uri: &str, codepage: &str, direction: &str, range: Range| ActionData {
        uri: uri.to_string(),
        codepage: codepage.to_string(),
        direction: direction.to_string(),
        range,
        whole_document: false,
    };
    let all = range((0, 0), (0, 5));
    let resolve = |data: ActionData| server.resolve(&data, None).is_some();
    assert!(resolve(data(document, "0037", "asciiToEbcdic", all)));
    assert!(!resolve(data(document, "0037", "sideways", all)));
    assert!(!resolve(data(document, "1047", "asciiToEbcdic", all)));
    assert!(!resolve(data("file:///x", "0037", "asciiToEbcdic", all)));
    let inverted = range((0, 5), (0, 0));
    assert!(!resolve(data(document, "0037", "asciiToEbcdic", inverted)));
}

#[test]
fn every_action_on_offer_resolves() {
    let document = "file:///tmp/a.txt";
    let server = server_with(document, "one\ntwo\n", "{}");
    for selection in [range((0, 1), (1, 2)), range((1, 1), (1, 1))] {
        for action in server.code_actions(document, selection) {
            for disk in [None, Some(vec![0xC1])] {
                let edit = server.resolve(&action.data, disk).expect("an edit");
                assert_eq!(edit.uri, document);
                assert_eq!(edit.range, action.data.range);
            }
        }
    }
}

#[test]
fn the_codepage_of_an_action_must_be_enabled() {
    let server = server_with("a", "A", r#"{ "codepages": ["0037"] }"#);
    assert_eq!(server.codepage("0037").map(|page| page.id), Some("0037"));
    assert!(server.codepage("1047").is_none());
    assert!(server.codepage("37").is_none(), "ids are not respelled here");
}

#[test]
fn unknown_codepages_are_warned_about() {
    let warning = |settings| server_with("a", "A", settings).unknown_codepages_warning();
    assert_eq!(warning("{}"), None);
    assert_eq!(warning(r#"{ "codepages": ["37"] }"#), None);
    assert_eq!(
        warning(r#"{ "codepages": ["9999", "37", "nope"] }"#),
        Some(
            "ebcdic-lsp: ignoring unknown codepage(s): 9999, nope. Known codepages: 0037, 0273, \
             0277, 0278, 0280, 0284, 0285, 0297, 0500, 0871, 1047."
                .to_string()
        )
    );
}

#[test]
fn methods_are_told_by_their_names() {
    assert_eq!(
        RequestMethod::from_name("textDocument/codeAction"),
        RequestMethod::CodeAction
    );
    assert_eq!(
        RequestMethod::from_name("codeAction/resolve"),
        RequestMethod::ResolveCodeAction
    );
    for (name, method) in [
        ("textDocument/didOpen", NotificationMethod::DidOpen),
        ("textDocument/didChange", NotificationMethod::DidChange),
        ("textDocument/didClose", NotificationMethod::DidClose),
        (
            "workspace/didChangeConfiguration",
            NotificationMethod::DidChangeConfiguration,
        ),
        ("initialized", NotificationMethod::Other),
    ] {
        assert_eq!(NotificationMethod::from_name(name), method);
    }
}

// What an editor sees over a whole session.

/// A server as it stands once the editor has sent its options.
fn start(initialization_options: &str) -> Server {
    Server::new(initial_settings(Some(&json(initialization_options))))
}

fn open(server: &mut Server, uri: &str, text: &str) {
    server.handle_notification(Event::Opened {
        uri: uri.to_string(),
        text: text.to_string(),
    });
}

#[test]
fn advertises_all_twenty_two_conversions_by_default() {
    let uri = "untitled:Untitled-1";
    let mut server = start("{}");
    open(&mut server, uri, "HELLO");

    let actions = server.code_actions(uri, range((0, 0), (0, 5)));
    assert_eq!(actions.len(), 22, "11 codepages x 2 directions");
    for action in &actions {
        assert_eq!(action.kind, "refactor.rewrite");
    }
}

#[test]
fn honours_the_codepage_setting_from_initialization_options() {
    let uri = "untitled:Untitled-1";
    let mut server = start(r#"{ "codepages": ["0037"] }"#);
    open(&mut server, uri, "HELLO");

    let actions = server.code_actions(uri, range((0, 0), (0, 5)));
    assert_eq!(
        titles(&actions),
        ["Convert Ebcdic0037 to Ascii", "Convert Ascii to Ebcdic0037"]
    );
}

#[test]
fn resolving_an_action_returns_an_edit_for_the_selection() {
    let uri = "untitled:Untitled-1";
    let mut server = start(r#"{ "codepages": ["0037"] }"#);
    open(&mut server, uri, "xxHELLOxx");

    let selection = range((0, 2), (0, 7));
    let actions = server.code_actions(uri, selection);
    let edit = server
        .resolve(&only_action(actions, "Convert Ascii to Ebcdic0037"), None)
        .expect("an edit");
    assert_eq!(edit.uri, uri);
    assert_eq!(edit.range, selection, "replaces only the selection");

    let encoded: Vec<u32> = edit.new_text.chars().map(u32::from).collect();
    assert_eq!(
        encoded,
        [0xC8, 0xC5, 0xD3, 0xD3, 0xD6],
        "HELLO in EBCDIC 037"
    );
}

#[test]
fn empty_range_resolves_to_a_whole_document_edit() {
    let uri = "untitled:Untitled-1";
    let mut server = start(r#"{ "codepages": ["0037"] }"#);
    open(&mut server, uri, "AB\nCD");

    // A bare cursor converts the entire document.
    let actions = server.code_actions(uri, range((1, 1), (1, 1)));
    let resolved = server.resolve(&only_action(actions, "Convert Ascii to Ebcdic0037"), None);
    assert_eq!(
        edit_of(resolved).0,
        range((0, 0), (1, 2)),
        "spans the whole document"
    );
}

#[test]
fn decodes_a_real_ebcdic_file_from_disk() {
    // The buffer an editor shows for these bytes is mojibake, so a correct decode has to come from
    // the file itself.
    let bytes = [0xC8u8, 0xC5, 0xD3, 0xD3, 0xD6];
    let uri = "file:///tmp/ebcdic-lsp-protocol-test/hello.dat";
    let mut server = start(r#"{ "codepages": ["0037"] }"#);
    // What a UTF-8 decoder produces for those bytes, which is what the editor holds.
    open(&mut server, uri, &String::from_utf8_lossy(&bytes));

    let actions = server.code_actions(uri, range((0, 0), (0, 0)));
    let data = only_action(actions, "Convert Ebcdic0037 to Ascii");
    let resolved = server.resolve(&data, Some(bytes.to_vec()));
    assert_eq!(
        edit_of(resolved).1,
        "HELLO",
        "decoded from disk, not from the mangled buffer"
    );
}

#[test]
fn tracks_buffer_changes_before_converting() {
    let uri = "untitled:Untitled-1";
    let mut server = start(r#"{ "codepages": ["0037"] }"#);
    open(&mut server, uri, "WRONG");
    server.handle_notification(Event::Changed {
        uri: uri.to_string(),
        texts: vec!["HELLO".to_string()],
    });

    let actions = server.code_actions(uri, range((0, 0), (0, 0)));
    let resolved = server.resolve(&only_action(actions, "Convert Ascii to Ebcdic0037"), None);
    let encoded: Vec<u32> = edit_of(resolved).1.chars().map(u32::from).collect();
    assert_eq!(
        encoded,
        [0xC8, 0xC5, 0xD3, 0xD3, 0xD6],
        "converted the updated buffer"
    );
}

#[test]
fn applies_configuration_changes_at_runtime() {
    let uri = "untitled:Untitled-1";
    let mut server = start("{}");
    open(&mut server, uri, "HELLO");
    assert_eq!(server.code_actions(uri, range((0, 0), (0, 5))).len(), 22);

    server.handle_notification(Event::Configured {
        settings: &json(r#"{ "codepages": ["0037", "1047"] }"#),
    });
    assert_eq!(server.code_actions(uri, range((0, 0), (0, 5))).len(), 4);
}

#[test]
fn an_editor_may_send_no_options() {
    assert!(initial_settings(None).codepages.is_empty());
}

#[test]
fn resolve_without_usable_data_returns_the_action_unchanged() {
    let server = Server::new(Settings::default());
    for (uri, text) in [("", ""), ("nonsense", "nonsense"), ("file:///x", "")] {
        let data = ActionData {
            uri: uri.to_string(),
            codepage: text.to_string(),
            direction: text.to_string(),
            range: range((0, 0), (0, 0)),
            whole_document: true,
        };
        assert_eq!(server.file_to_read(&data), None);
        assert!(
            server.resolve(&data, None).is_none(),
            "must not fabricate an edit"
        );
        assert!(server.resolve(&data, Some(vec![0xC8])).is_none());
    }
}
