use inkhaven_language::csv::{csv_field, parse_csv};
use inkhaven_language::csv_import::{
    alphabet_bucket, first_unknown_letter, parse_inflection_field, resolve_csv_columns,
    split_pipe, split_semicolon,
};
use inkhaven_language::entry::{
    build_imported_entry_body, escape_hjson, seed_dictionary_entry_body, DictionaryEntry,
    ImportEntry,
};
use inkhaven_language::export::{render_anki, render_csv, typst_escape};
use inkhaven_language::hjson_scan::{extract_hjson_examples, extract_hjson_string_field, rule_template};
use inkhaven_language::seeds::{
    GRAMMAR_RULE_SEED_BODY, META_OVERVIEW_BODY, PHONOLOGY_RULE_SEED_BODY, STANDARD_CHAPTERS,
};
use inkhaven_language::typst_doc::render_dictionary_twocol;

#[test]
fn mod_standard_chapters_match_proposal() {
    assert_eq!(
        STANDARD_CHAPTERS,
        &["Meta", "Dictionary", "Grammar", "Phonology", "Sample texts"]
    );
}

#[test]
fn mod_first_unknown_letter_passes_when_all_chars_in_inventory() {
    let inv: Vec<String> = vec!["A".into(), "B".into(), "C".into()];
    assert_eq!(first_unknown_letter("abc", &inv), None);
    assert_eq!(first_unknown_letter("ABC", &inv), None);
    assert_eq!(first_unknown_letter("a-b'c", &inv), None);
    assert_eq!(first_unknown_letter("a b c", &inv), None);
}

#[test]
fn mod_first_unknown_letter_returns_first_violation() {
    let inv: Vec<String> = vec!["A".into(), "B".into()];
    assert_eq!(first_unknown_letter("abz", &inv), Some('z'));
    assert_eq!(first_unknown_letter("xyz", &inv), Some('x'));
}

#[test]
fn mod_first_unknown_letter_handles_multichar_inventory_entries() {
    let inv: Vec<String> = vec!["Aa".into(), "Bb".into(), "Cc".into()];
    assert_eq!(first_unknown_letter("aBc", &inv), None);
    assert_eq!(first_unknown_letter("aBz", &inv), Some('z'));
}

#[test]
fn mod_first_unknown_letter_handles_non_latin() {
    let inv: Vec<String> = vec!["А".into(), "Б".into()];
    assert_eq!(first_unknown_letter("аб", &inv), None);
    assert_eq!(first_unknown_letter("абя", &inv), Some('я'));
}

#[test]
fn mod_csv_parser_handles_quoted_fields() {
    let csv = "word,type,translation\n\
               atal,noun,river\n\
               sora,verb,\"to flow, swiftly\"\n\
               nan,pronoun,\"\"\"you\"\"\"\n";
    let rows = parse_csv(csv).unwrap();
    assert_eq!(rows.len(), 4);
    assert_eq!(rows[0], vec!["word", "type", "translation"]);
    assert_eq!(rows[1], vec!["atal", "noun", "river"]);
    assert_eq!(rows[2], vec!["sora", "verb", "to flow, swiftly"]);
    assert_eq!(rows[3], vec!["nan", "pronoun", "\"you\""]);
}

#[test]
fn mod_csv_parser_handles_newlines_in_quoted_fields() {
    let csv = "word,notes\natal,\"line1\nline2\"\n";
    let rows = parse_csv(csv).unwrap();
    assert_eq!(rows.len(), 2);
    assert_eq!(rows[1], vec!["atal", "line1\nline2"]);
}

#[test]
fn mod_csv_parser_handles_crlf_and_missing_trailing_newline() {
    let csv = "a,b\r\nc,d";
    let rows = parse_csv(csv).unwrap();
    assert_eq!(rows.len(), 2);
    assert_eq!(rows[0], vec!["a", "b"]);
    assert_eq!(rows[1], vec!["c", "d"]);
}

#[test]
fn mod_csv_parser_errors_on_unclosed_quote() {
    assert!(parse_csv("word\n\"unclosed").is_err());
}

#[test]
fn mod_inflection_parser_extracts_pairs() {
    let m = parse_inflection_field("nominative=atal;genitive=atale;plural=atatal");
    assert_eq!(m.len(), 3);
    assert_eq!(m.get("nominative"), Some(&"atal".to_string()));
    assert_eq!(m.get("genitive"), Some(&"atale".to_string()));
    assert_eq!(m.get("plural"), Some(&"atatal".to_string()));
}

#[test]
fn mod_inflection_parser_tolerates_whitespace_and_skips_malformed() {
    let m = parse_inflection_field(" plural = atatal ; bad-no-equals ; genitive=atale ");
    assert_eq!(m.len(), 2);
    assert!(m.contains_key("plural"));
    assert!(m.contains_key("genitive"));
}

#[test]
fn mod_split_helpers_filter_empty_tokens() {
    assert_eq!(
        split_pipe("a|b||c"),
        vec!["a".to_string(), "b".to_string(), "c".to_string()]
    );
    assert_eq!(
        split_semicolon("a;b;;c"),
        vec!["a".to_string(), "b".to_string(), "c".to_string()]
    );
}

#[test]
fn mod_resolve_csv_columns_requires_word_type_translation() {
    let header: Vec<String> = vec!["word".into(), "type".into(), "translation".into()];
    let cols = resolve_csv_columns(&header).unwrap();
    assert_eq!(cols.word, 0);
    assert_eq!(cols.pos, 1);
    assert_eq!(cols.translation, 2);
    assert!(cols.example.is_none());
}

#[test]
fn mod_resolve_csv_columns_errors_on_missing_required() {
    let header: Vec<String> = vec!["word".into(), "type".into()];
    assert!(resolve_csv_columns(&header).is_err());
}

#[test]
fn mod_resolve_csv_columns_is_case_insensitive_and_order_independent() {
    let header: Vec<String> = vec![
        "Notes".into(),
        "Translation".into(),
        "TYPE".into(),
        "Word".into(),
        "inflection".into(),
    ];
    let cols = resolve_csv_columns(&header).unwrap();
    assert_eq!(cols.word, 3);
    assert_eq!(cols.pos, 2);
    assert_eq!(cols.translation, 1);
    assert_eq!(cols.notes, Some(0));
    assert_eq!(cols.inflection, Some(4));
}

#[test]
fn mod_imported_entry_body_skips_empty_optionals() {
    let entry = ImportEntry {
        word: "atal".into(),
        pos: "noun".into(),
        translation: "river".into(),
        ..Default::default()
    };
    let body = build_imported_entry_body(&entry);
    assert!(body.contains("word:"));
    assert!(body.contains("type:"));
    assert!(body.contains("translation:"));
    assert!(!body.contains("example:"));
    assert!(!body.contains("pronunciation:"));
    assert!(!body.contains("notes:"));
    assert!(!body.contains("inflection:"));
}

#[test]
fn mod_imported_entry_body_emits_inflection_and_examples() {
    let mut entry = ImportEntry {
        word: "atal".into(),
        pos: "noun".into(),
        translation: "river".into(),
        ..Default::default()
    };
    entry.inflection.insert("plural".into(), "atatal".into());
    entry.inflection.insert("genitive".into(), "atale".into());
    entry.examples = vec!["Atal sora-mi.".into(), "Atal kima.".into()];
    let body = build_imported_entry_body(&entry);
    assert!(body.contains("inflection: {"));
    assert!(body.contains("plural: \"atatal\""));
    assert!(body.contains("genitive: \"atale\""));
    assert!(body.contains("examples: ["));
    assert!(body.contains("\"Atal sora-mi.\""));
    let parsed: serde_hjson::Value =
        serde_hjson::from_str(&body).expect("imported entry body must parse");
    let _ = parsed;
}

#[test]
fn mod_meta_overview_seed_parses() {
    let _: serde_hjson::Value = serde_hjson::from_str(META_OVERVIEW_BODY)
        .expect("META_OVERVIEW_BODY must be valid HJSON");
}

#[test]
fn mod_dictionary_entry_seed_parses() {
    let body = seed_dictionary_entry_body("aiya", "interjection", "hail", Some("Aiya!"));
    let _: serde_hjson::Value = serde_hjson::from_str(&body)
        .expect("dictionary entry seed must be valid HJSON");
}

#[test]
fn mod_grammar_rule_seed_parses() {
    let _: serde_hjson::Value = serde_hjson::from_str(GRAMMAR_RULE_SEED_BODY)
        .expect("GRAMMAR_RULE_SEED_BODY must be valid HJSON");
}

#[test]
fn mod_phonology_rule_seed_parses() {
    let _: serde_hjson::Value = serde_hjson::from_str(PHONOLOGY_RULE_SEED_BODY)
        .expect("PHONOLOGY_RULE_SEED_BODY must be valid HJSON");
}

#[test]
fn mod_meta_overview_body_contains_alphabet_field() {
    assert!(META_OVERVIEW_BODY.contains("alphabet:"));
    assert!(META_OVERVIEW_BODY.contains("language_kind:"));
}

#[test]
fn mod_alphabet_bucket_uppercases_first_char() {
    assert_eq!(alphabet_bucket("aiya"), Some("A".to_string()));
    assert_eq!(alphabet_bucket("Bran"), Some("B".to_string()));
    assert_eq!(alphabet_bucket("  zeta"), Some("Z".to_string()));
}

#[test]
fn mod_alphabet_bucket_handles_non_latin() {
    assert_eq!(alphabet_bucket("ярости"), Some("Я".to_string()));
    assert_eq!(alphabet_bucket("αυτός"), Some("Α".to_string()));
}

#[test]
fn mod_alphabet_bucket_returns_none_for_whitespace() {
    assert_eq!(alphabet_bucket(""), None);
    assert_eq!(alphabet_bucket("   "), None);
}

#[test]
fn mod_seed_dictionary_entry_includes_core_fields() {
    let body = seed_dictionary_entry_body("aiya", "interjection", "hail", Some("Aiya Eärendil!"));
    assert!(body.contains("word:"));
    assert!(body.contains("type:"));
    assert!(body.contains("translation:"));
    assert!(body.contains("example:"));
    assert!(body.contains("aiya"));
    assert!(body.contains("interjection"));
    assert!(body.contains("hail"));
    assert!(body.contains("Aiya Eärendil!"));
}

#[test]
fn mod_csv_field_quotes_when_needed() {
    assert_eq!(csv_field("aiya"), "aiya");
    assert_eq!(csv_field("hail, friend"), "\"hail, friend\"");
    assert_eq!(csv_field("he said \"hi\""), "\"he said \"\"hi\"\"\"");
    assert_eq!(csv_field("line1\nline2"), "\"line1\nline2\"");
}

#[test]
fn mod_typst_escape_handles_markup_chars() {
    assert_eq!(typst_escape("plain"), "plain");
    assert_eq!(typst_escape("a*b"), "a\\*b");
    assert_eq!(typst_escape("[bracket]"), "\\[bracket\\]");
    assert_eq!(typst_escape("#hash"), "\\#hash");
    assert_eq!(typst_escape("with_under"), "with\\_under");
    assert_eq!(typst_escape("ñ'olor"), "ñ'olor");
}

#[test]
fn mod_render_anki_emits_header_row() {
    let out = render_anki(&[]).unwrap();
    let s = String::from_utf8(out).unwrap();
    assert!(s.starts_with("word,translation,type,example,inflection\n"));
}

#[test]
fn mod_render_anki_renders_entry_row() {
    let mut entry = DictionaryEntry::default();
    entry.word = "aiya".into();
    entry.translation = "hail".into();
    entry.pos = "interjection".into();
    entry.example = "Aiya Eärendil!".into();
    let out = render_anki(&[("aiya".into(), entry)]).unwrap();
    let s = String::from_utf8(out).unwrap();
    let lines: Vec<&str> = s.lines().collect();
    assert_eq!(lines.len(), 2, "got: {s:?}");
    assert!(lines[1].contains("aiya"));
    assert!(lines[1].contains("hail"));
    assert!(lines[1].contains("interjection"));
    assert!(lines[1].contains("Aiya Eärendil!"));
}

#[test]
fn mod_render_csv_emits_header_row() {
    let out = render_csv(&[]);
    let s = String::from_utf8(out).unwrap();
    assert!(s.starts_with("word,type,translation,example,inflection\n"));
}

#[test]
fn mod_render_csv_round_trip_columns_match_in_memory_struct() {
    let mut entry = DictionaryEntry::default();
    entry.word = "stelle".into();
    entry.pos = "noun".into();
    entry.translation = "star".into();
    entry.example = "Le stelle brillano.".into();
    entry.inflection.insert("plural".into(), "stelle".into());
    entry.inflection.insert("singular".into(), "stella".into());
    let out = render_csv(&[("stelle".into(), entry)]);
    let s = String::from_utf8(out).unwrap();
    let lines: Vec<&str> = s.lines().collect();
    assert_eq!(lines.len(), 2);
    assert!(
        lines[1].contains("plural=stelle;singular=stella"),
        "unexpected inflection serialisation: {}",
        lines[1]
    );
    assert!(lines[1].contains("stelle,noun,star,Le stelle brillano."));
}

#[test]
fn mod_render_csv_quotes_fields_with_commas_and_quotes() {
    let mut entry = DictionaryEntry::default();
    entry.word = "salve".into();
    entry.pos = "interjection".into();
    entry.translation = "hello, hi".into();
    entry.example = "She said \"salve\".".into();
    let out = render_csv(&[("salve".into(), entry)]);
    let s = String::from_utf8(out).unwrap();
    let lines: Vec<&str> = s.lines().collect();
    assert!(
        lines[1].contains("\"hello, hi\""),
        "comma field should be quoted: {}",
        lines[1]
    );
    assert!(
        lines[1].contains("\"She said \"\"salve\"\".\""),
        "quote field should escape inner quotes: {}",
        lines[1]
    );
}

#[test]
fn mod_extract_hjson_finds_simple_string_field() {
    let body = "{\n  rule: \"i becomes y before vowel\"\n  category: \"phonology\"\n}";
    assert_eq!(
        extract_hjson_string_field(body, "rule"),
        Some("i becomes y before vowel".into())
    );
    assert_eq!(
        extract_hjson_string_field(body, "category"),
        Some("phonology".into())
    );
    assert_eq!(extract_hjson_string_field(body, "missing"), None);
}

#[test]
fn mod_extract_hjson_skips_empty_fields() {
    let body = "{\n  rule: \"\"\n  category: \"grammar\"\n}";
    assert_eq!(extract_hjson_string_field(body, "rule"), None);
    assert_eq!(
        extract_hjson_string_field(body, "category"),
        Some("grammar".into())
    );
}

#[test]
fn mod_extract_hjson_examples_inline_array() {
    let body = "{\n  examples: [\"one\", \"two\", \"three\"]\n}";
    let got = extract_hjson_examples(body).unwrap();
    assert_eq!(got, vec!["one", "two", "three"]);
}

#[test]
fn mod_extract_hjson_examples_block_form() {
    let body = "{\n  examples: [\n    \"alpha\",\n    \"beta\"\n  ]\n}";
    let got = extract_hjson_examples(body).unwrap();
    assert_eq!(got, vec!["alpha", "beta"]);
}

#[test]
fn mod_rule_template_includes_id_and_grammar_examples() {
    let t = rule_template("noun-cases", "grammar");
    assert!(t.contains("rule_id: \"noun-cases\""));
    assert!(t.contains("invented language"));
}

#[test]
fn mod_rule_template_uses_phonology_examples_when_category_phonology() {
    let t = rule_template("vowel-shift", "phonology");
    assert!(t.contains("rule_id: \"vowel-shift\""));
    assert!(t.contains("phoneme example"));
}

#[test]
fn mod_render_dictionary_twocol_groups_by_alphabet() {
    let mut a_entry = DictionaryEntry::default();
    a_entry.word = "aiya".into();
    a_entry.pos = "interj.".into();
    a_entry.translation = "hail".into();
    let mut b_entry = DictionaryEntry::default();
    b_entry.word = "bara".into();
    b_entry.pos = "noun".into();
    b_entry.translation = "fire".into();
    let out = render_dictionary_twocol(
        "Quenya",
        None,
        &[("aiya".into(), a_entry), ("bara".into(), b_entry)],
    );
    let s = String::from_utf8(out).unwrap();
    assert!(s.contains("— A —"), "got: {s}");
    assert!(s.contains("— B —"), "got: {s}");
    assert!(s.contains("#set page(paper: \"a4\", columns: 2)"));
    assert!(s.contains("*aiya*"));
    assert!(s.contains("*bara*"));
    assert!(s.contains("Quenya dictionary"));
}

#[test]
fn mod_escape_hjson_handles_quotes_and_backslashes() {
    assert_eq!(escape_hjson(r#"he said "hi""#), r#"he said \"hi\""#);
    assert_eq!(escape_hjson(r"a\b"), r"a\\b");
}
