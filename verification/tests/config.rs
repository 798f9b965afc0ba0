use ebcdic_lsp::config::{normalize, Settings};

fn settings(json: &str) -> Settings {
    let value: serde_json::Value = serde_json::from_str(json).expect("valid json");
    Settings::from_value(&value)
}

fn ids(settings: &Settings) -> Vec<&'static str> {
    settings.enabled_codepages().iter().map(|c| c.id).collect()
}

#[test]
fn default_offers_every_codepage() {
    assert_eq!(Settings::default().enabled_codepages().len(), 11);
}

#[test]
fn empty_list_offers_every_codepage() {
    let settings = settings(r#"{ "codepages": [] }"#);
    assert_eq!(settings.enabled_codepages().len(), 11);
}

#[test]
fn filters_to_requested_codepages_in_upstream_order() {
    let settings = settings(r#"{ "codepages": ["1047", "0037"] }"#);
    assert_eq!(
        ids(&settings),
        ["0037", "1047"],
        "output follows table order, not user order"
    );
}

#[test]
fn accepts_common_spellings_of_a_codepage_id() {
    for spelling in ["0037", "037", "37", "cp037", "CP37", "ibm-037", " 1047 "] {
        let settings = settings(&format!(r#"{{ "codepages": ["{spelling}"] }}"#));
        assert_eq!(
            settings.enabled_codepages().len(),
            1,
            "{spelling} should match exactly one codepage"
        );
    }
}

#[test]
fn reads_nested_ebcdic_section() {
    let settings = settings(r#"{ "ebcdic": { "codepages": ["0500"] } }"#);
    assert_eq!(ids(&settings), ["0500"]);
}

#[test]
fn all_unknown_ids_fall_back_to_every_codepage() {
    let settings = settings(r#"{ "codepages": ["9999", "nonsense"] }"#);
    assert_eq!(settings.enabled_codepages().len(), 11);
    assert_eq!(settings.unknown_codepages(), ["9999", "nonsense"]);
}

#[test]
fn unknown_ids_alongside_valid_ones_are_ignored_not_fatal() {
    let settings = settings(r#"{ "codepages": ["0037", "9999"] }"#);
    assert_eq!(ids(&settings), ["0037"]);
    assert_eq!(settings.unknown_codepages(), ["9999"]);
}

#[test]
fn malformed_settings_degrade_to_defaults() {
    for value in [r#"{ "codepages": "0037" }"#, r#""nonsense""#, "42"] {
        assert_eq!(
            settings(value).enabled_codepages().len(),
            11,
            "malformed settings must not disable the feature"
        );
    }
}

#[test]
fn a_list_with_anything_but_strings_in_it_counts_as_malformed() {
    assert!(settings(r#"{ "codepages": ["0037", 37] }"#).codepages.is_empty());
    assert!(settings(r#"{ "codepages": null }"#).codepages.is_empty());
    assert!(settings(r#"{ "ebcdic": null, "codepages": ["0037"] }"#)
        .codepages
        .is_empty());
}

#[test]
fn settings_may_be_an_array_of_their_fields() {
    assert_eq!(settings(r#"[["0037", "0500"]]"#).codepages, ["0037", "0500"]);
    assert!(settings("[]").codepages.is_empty());
    assert!(settings(r#"["0037"]"#).codepages.is_empty());
    assert!(settings(r#"[["0037"], ["0500"]]"#).codepages.is_empty());
}

#[test]
fn other_members_are_ignored() {
    let settings = settings(r#"{ "codepages": ["1047"], "colour": "green" }"#);
    assert_eq!(settings.codepages, ["1047"]);
}

#[test]
fn a_list_that_could_not_be_parsed_counts_as_empty() {
    assert!(Settings::from_parsed(None).codepages.is_empty());
    let list = vec!["0037".to_string()];
    assert_eq!(Settings::from_parsed(Some(list)).codepages, ["0037"]);
}

#[test]
fn a_codepage_asked_for_twice_is_offered_once() {
    let settings = settings(r#"{ "codepages": ["37", "IBM37", "0037"] }"#);
    assert_eq!(ids(&settings), ["0037"]);
    assert!(settings.unknown_codepages().is_empty());
}

#[test]
fn spellings_normalize_to_four_digits() {
    assert_eq!(normalize("37"), "0037");
    assert_eq!(normalize("\u{a0}CpCp00037\t"), "0037");
    assert_eq!(normalize("IBM-1047"), "1047");
    assert_eq!(normalize("ibm1047"), "1047");
    assert_eq!(normalize("0"), "0000");
    assert_eq!(normalize(""), "0000");
    assert_eq!(normalize("12345"), "12345");
    assert_eq!(normalize("é"), "000é");
    assert_eq!(normalize("ibmcp37"), "cp37");
}
