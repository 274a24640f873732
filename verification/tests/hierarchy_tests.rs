use inkhaven_language::error::LanguageError;
use inkhaven_language::hierarchy::{
    added_word_note, all_language_books, check_new_language, count_paragraphs_under, exact_child,
    find_language_book, in_system_book, is_in_subtree, language_counts, language_table,
    locate_entry, locate_word, manuscript_paragraphs, named_child, open_lang_book,
    overview_paragraph, phonology_paragraphs, plan_dictionary_entry, resolve_proto, resolve_system_node, rule_chapter,
    system_book, Hierarchy, LanguageCounts, NodeInfo, NodeKind, NO_LANGUAGE_BOOK,
};
use inkhaven_language::import_plan::{record_import, ImportTally};

const TAG: &str = "languages";

fn node(id: u64, parent: Option<u64>, kind: NodeKind, title: &str, tag: Option<&str>) -> NodeInfo {
    NodeInfo { id, parent, kind, title: title.to_string(), system_tag: tag.map(|t| t.to_string()) }
}

/// Positions: 0 Language, 1 Quenya, 2 Dictionary, 3 A, 4 aiya, 5 Meta,
/// 6 overview, 7 Grammar, 8 cases, 9 Sindarin, 10 Places, 11 Tirion,
/// 12 My Novel, 13 One, 14 Opening, 15 Phonology, 16 Sample texts, 17 s1.
fn project() -> Hierarchy {
    Hierarchy {
        nodes: vec![
            node(1, None, NodeKind::Book, "Language", Some(TAG)),
            node(2, Some(1), NodeKind::Book, "Quenya", None),
            node(3, Some(2), NodeKind::Chapter, "Dictionary", None),
            node(4, Some(3), NodeKind::Subchapter, "A", None),
            node(5, Some(4), NodeKind::Paragraph, "aiya", None),
            node(6, Some(2), NodeKind::Chapter, "Meta", None),
            node(7, Some(6), NodeKind::Paragraph, "overview", None),
            node(8, Some(2), NodeKind::Chapter, "Grammar", None),
            node(9, Some(8), NodeKind::Paragraph, "cases", None),
            node(10, Some(1), NodeKind::Book, "Sindarin", None),
            node(11, None, NodeKind::Book, "Places", Some("places")),
            node(12, Some(11), NodeKind::Paragraph, "Tirion", None),
            node(13, None, NodeKind::Book, "My Novel", None),
            node(14, Some(13), NodeKind::Chapter, "One", None),
            node(15, Some(14), NodeKind::Paragraph, "Opening", None),
            node(16, Some(2), NodeKind::Chapter, "Phonology", None),
            node(17, Some(2), NodeKind::Chapter, "Sample texts", None),
            node(18, Some(17), NodeKind::Paragraph, "s1", None),
        ],
    }
}

fn config_message(r: Result<usize, LanguageError>) -> String {
    match r {
        Err(LanguageError::Config(m)) => m,
        other => panic!("expected a configuration refusal, got {:?}", other),
    }
}

#[test]
fn lookups_find_system_books_and_children() {
    let h = project();
    assert_eq!(system_book(&h, TAG), Some(0));
    assert_eq!(system_book(&h, "characters"), None);
    assert_eq!(named_child(&h, 2, NodeKind::Chapter, "DICTIONARY"), Some(2));
    assert_eq!(exact_child(&h, 3, NodeKind::Subchapter, "A"), Some(3));
    assert_eq!(exact_child(&h, 3, NodeKind::Subchapter, "a"), None);
}

#[test]
fn open_lang_book_finds_or_refuses() {
    let h = project();
    assert_eq!(open_lang_book(&h, TAG, "quenya").unwrap(), 1);
    assert_eq!(
        config_message(open_lang_book(&h, TAG, "Klingon")),
        "language `Klingon` not found — run `inkhaven language init Klingon` first"
    );
    let empty = Hierarchy { nodes: vec![] };
    match open_lang_book(&empty, TAG, "Quenya") {
        Err(LanguageError::Store(m)) => assert_eq!(m, NO_LANGUAGE_BOOK),
        other => panic!("unexpected {:?}", other),
    }
    assert_eq!(
        config_message(find_language_book(&h, TAG, "Klingon")),
        "language `Klingon` not found — create it first (e.g. `ink.lang.init`)"
    );
}

#[test]
fn all_language_books_lists_books_under_language() {
    let h = project();
    assert_eq!(all_language_books(&h, TAG), vec![1, 9]);
}

#[test]
fn check_new_language_refuses_existing_names() {
    let h = project();
    assert_eq!(
        config_message(check_new_language(&h, TAG, "QUENYA")),
        "language `QUENYA` already exists under Language"
    );
    assert_eq!(check_new_language(&h, TAG, "Klingon").unwrap(), 0);
}

#[test]
fn subtrees_and_system_books() {
    let h = project();
    assert!(is_in_subtree(&h, 4, 2));
    assert!(!is_in_subtree(&h, 14, 2));
    assert!(in_system_book(&h, 4));
    assert!(!in_system_book(&h, 14));
    assert_eq!(manuscript_paragraphs(&h), vec![14]);
    assert_eq!(count_paragraphs_under(&h, 2), 4);
}

#[test]
fn resolve_system_node_returns_the_canonical_title() {
    let h = project();
    assert_eq!(resolve_system_node(&h, "places", "tirion"), Some("Tirion".to_string()));
    assert_eq!(resolve_system_node(&h, "places", "Valmar"), None);
    assert_eq!(resolve_system_node(&h, "characters", "Tirion"), None);
}

#[test]
fn language_counts_and_table() {
    let h = project();
    let c = language_counts(&h, 1);
    assert_eq!((c.name.as_str(), c.entries, c.grammar, c.phonology, c.samples), ("Quenya", 1, 1, 0, 1));
    let rows = vec![c];
    let t = language_table(&rows);
    assert_eq!(t.len(), 3);
    assert_eq!(t[0], "  name       words  grammar  phonology  samples");
    assert_eq!(t[1], format!("  {}", "-".repeat(44)));
    assert_eq!(t[2], "  Quenya         1        1          0        1");
}

#[test]
fn language_table_widens_for_long_names() {
    let rows = vec![LanguageCounts {
        name: "High Elvish".to_string(),
        entries: 120,
        grammar: 3,
        phonology: 2,
        samples: 0,
    }];
    let t = language_table(&rows);
    assert_eq!(t[1], format!("  {}", "-".repeat(47)));
    assert_eq!(t[2], "  High Elvish     120        3          2        0");
}

#[test]
fn locate_word_walks_language_dictionary_bucket_and_entry() {
    let h = project();
    assert_eq!(locate_word(&h, TAG, "Quenya", "aiya", None).unwrap(), 4);
    assert_eq!(
        config_message(locate_word(&h, TAG, "Quenya", "bara", None)),
        "no bucket subchapter `B` under `Quenya/Dictionary` — `bara` isn't defined"
    );
    assert_eq!(
        config_message(locate_word(&h, TAG, "Quenya", "ambar", None)),
        "word `ambar` not found under `Quenya/Dictionary/A`"
    );
    assert_eq!(
        config_message(locate_word(&h, TAG, "Sindarin", "aiya", None)),
        "language `Sindarin` has no Dictionary chapter"
    );
    assert_eq!(
        config_message(locate_word(&h, TAG, "Quenya", "   ", None)),
        "could not derive alphabet bucket from `   `"
    );
    assert_eq!(locate_word(&h, TAG, "Quenya", "aiya", Some("A".to_string())).unwrap(), 4);
}

#[test]
fn locate_entry_refusals_name_the_failing_step() {
    let h = project();
    assert_eq!(locate_entry(&h, 1, "AIYA", None).unwrap(), 4);
    assert_eq!(config_message(locate_entry(&h, 1, "ambar", None)), "word `ambar` not found");
    assert_eq!(config_message(locate_entry(&h, 1, "bara", None)), "`bara` isn't defined (no `B` bucket)");
    assert_eq!(config_message(locate_entry(&h, 9, "aiya", None)), "language has no Dictionary chapter");
}

#[test]
fn plan_dictionary_entry_files_or_refuses() {
    let h = project();
    let p = plan_dictionary_entry(&h, 1, "ambar", None).ok().unwrap();
    assert_eq!((p.dictionary, p.bucket.as_str(), p.subchapter), (2, "A", Some(3)));
    let q = plan_dictionary_entry(&h, 1, "bara", None).ok().unwrap();
    assert_eq!((q.dictionary, q.bucket.as_str(), q.subchapter), (2, "B", None));
    let d = plan_dictionary_entry(&h, 1, "Aiya", None);
    let msg = match d {
        Err(LanguageError::Config(m)) => m,
        _ => panic!("a duplicate must be refused"),
    };
    assert_eq!(msg, "word `Aiya` already defined under `Quenya/Dictionary/A`");
    match plan_dictionary_entry(&h, 9, "aiya", None) {
        Err(LanguageError::Config(m)) => assert_eq!(
            m,
            "language `Sindarin` has no `Dictionary` chapter — likely scaffolded with a pre-Phase-A inkhaven"
        ),
        _ => panic!("a language without a dictionary must be refused"),
    }
    match plan_dictionary_entry(&h, 1, " \t", None) {
        Err(LanguageError::Config(m)) => assert_eq!(m, "could not derive alphabet bucket from ` \t`"),
        _ => panic!("a blank word must be refused"),
    }
}

#[test]
fn duplicate_refusal_counts_as_skipped_on_import() {
    let h = project();
    let msg = match plan_dictionary_entry(&h, 1, "aiya", None) {
        Err(LanguageError::Config(m)) => m,
        _ => panic!("a duplicate must be refused"),
    };
    let mut t = ImportTally::new();
    let _ = record_import(&mut t, 2, "Quenya", "aiya", &Err(msg));
    assert_eq!((t.imported, t.skipped_duplicate, t.failed), (0, 1, 0));
}

#[test]
fn overview_and_rule_chapters() {
    let h = project();
    assert_eq!(overview_paragraph(&h, 1), Some(6));
    assert_eq!(overview_paragraph(&h, 9), None);
    assert_eq!(rule_chapter(&h, 1, "Quenya", "grammar").unwrap(), 7);
    assert_eq!(rule_chapter(&h, 1, "Quenya", "phonology").unwrap(), 15);
    assert_eq!(
        config_message(rule_chapter(&h, 1, "Quenya", "syntax")),
        "`syntax` chapter not found under language `Quenya` — was it scaffolded? Try `inkhaven language init Quenya`"
    );
}

#[test]
fn resolve_proto_finds_the_parent_language() {
    let h = project();
    assert_eq!(resolve_proto(&h, TAG, "Sindarin", Some("quenya".to_string())).unwrap(), 1);
    assert_eq!(
        config_message(resolve_proto(&h, TAG, "Sindarin", None)),
        "language `Sindarin`'s diachronics block has no `proto` — name the parent language"
    );
    assert_eq!(
        config_message(resolve_proto(&h, TAG, "Sindarin", Some("Adunaic".to_string()))),
        "proto-language `Adunaic` not found — `inkhaven language init Adunaic` first"
    );
    let empty = Hierarchy { nodes: vec![] };
    match resolve_proto(&empty, TAG, "Sindarin", Some("Quenya".to_string())) {
        Err(LanguageError::Store(m)) => assert_eq!(m, "Language system book missing"),
        _ => panic!("a project without the Language book is a store error"),
    }
}

#[test]
fn added_word_note_names_the_bucket() {
    assert_eq!(
        added_word_note("ambar", "Quenya", "A", "noun", "world"),
        "added `ambar` to `Quenya/Dictionary/A` (noun · world)"
    );
}

#[test]
fn phonology_paragraphs_cover_the_chapter_subtree() {
    let mut h = project();
    assert!(phonology_paragraphs(&h, 1).is_empty());
    h.nodes.push(node(19, Some(16), NodeKind::Paragraph, "inventory", None));
    h.nodes.push(node(20, Some(16), NodeKind::Subchapter, "Stress", None));
    h.nodes.push(node(21, Some(20), NodeKind::Paragraph, "stress", None));
    assert_eq!(phonology_paragraphs(&h, 1), vec![18, 20]);
    assert!(phonology_paragraphs(&h, 9).is_empty());
}
