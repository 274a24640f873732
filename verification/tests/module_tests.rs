use std::io::Write;

use inkhaven_language::compose::{compose_kind, parse_meter, ComposeKind, BAD_METER};
use inkhaven_language::csv_import::build_import_entry_from_row;
use inkhaven_language::doctor::{
    dictionary_coverage, manuscript_vocabulary, percent, sorted_sample, uncovered_words,
};
use inkhaven_language::entry::DictionaryEntry;
use inkhaven_language::error::LanguageError;
use inkhaven_language::export::render_csv;
use inkhaven_language::export_plan::{
    chapter_role, check_export_destination, sort_entries_by_lemma, ChapterRole, NEEDS_OUTPUT,
};
use inkhaven_language::command::LanguageExportFormat;
use inkhaven_language::import_plan::{
    classify_import_row, count_skipped_row, load_import_csv, record_import, ImportTally, RowAction,
};
use inkhaven_language::inflection::Inflection;
use inkhaven_language::options::{document_format, lang_slug, relative_role, rule_category};
use inkhaven_language::polyglot::{is_zip_archive, read_polyglot_xml, select_polyglot_member};
use inkhaven_language::tutorial::{glossable, tutorial_body};
use inkhaven_language::typst_doc::{render_grammar, render_phrasebook};

fn strings(v: &[&str]) -> Vec<String> {
    v.iter().map(|s| s.to_string()).collect()
}

fn config_message<T>(r: Result<T, LanguageError>) -> String {
    match r {
        Err(LanguageError::Config(m)) => m,
        Err(LanguageError::Store(m)) => panic!("unexpected store error {m}"),
        Ok(_) => panic!("expected a refusal"),
    }
}

fn entry(word: &str, pos: &str, translation: &str, example: &str, forms: &[(&str, &str)]) -> DictionaryEntry {
    let mut inflection = Inflection::new();
    for (k, v) in forms {
        inflection.insert(k.to_string(), v.to_string());
    }
    DictionaryEntry {
        word: word.to_string(),
        pos: pos.to_string(),
        translation: translation.to_string(),
        example: example.to_string(),
        inflection,
    }
}

// ───────────────────────── option parsing ─────────────────────────

#[test]
fn document_format_reads_md_and_typ() {
    assert!(!document_format("md").unwrap());
    assert!(!document_format("Markdown").unwrap());
    assert!(document_format("TYP").unwrap());
    assert!(document_format("typst").unwrap());
    assert_eq!(config_message(document_format("PDF")), "unknown --format `pdf` (expected md or typ)");
}

#[test]
fn relative_role_and_rule_category() {
    assert!(relative_role("Subj").unwrap());
    assert!(!relative_role("o").unwrap());
    assert_eq!(config_message(relative_role("Verb")), "unknown --role `verb` (expected subject or object)");
    assert_eq!(rule_category("GRAMMAR").unwrap(), "grammar");
    assert_eq!(rule_category("Phonology").unwrap(), "phonology");
    assert_eq!(
        config_message(rule_category("Syntax")),
        "--category must be `grammar` or `phonology` (got `Syntax`)"
    );
}

#[test]
fn compose_kind_and_meter() {
    assert!(matches!(compose_kind("Verse"), Ok(ComposeKind::Poem)));
    assert!(matches!(compose_kind("sample-text"), Ok(ComposeKind::Prose)));
    assert!(matches!(compose_kind("curse"), Ok(ComposeKind::Themed)));
    assert!(matches!(compose_kind("NAME"), Ok(ComposeKind::Names)));
    assert_eq!(
        config_message(compose_kind("Limerick")),
        "unknown --kind `limerick` (expected names | prose | poem | blessing | curse | incantation)"
    );
    assert_eq!(parse_meter("5,7,5").unwrap(), vec![5, 7, 5]);
    assert_eq!(parse_meter(" 5 , x, 70, +7,0").unwrap(), vec![5, 7]);
    assert_eq!(config_message(parse_meter("x,0,65")), BAD_METER);
}

#[test]
fn lang_slug_examples() {
    assert_eq!(lang_slug("High Elvish"), "high-elvish");
    assert_eq!(lang_slug("--Quenya!!"), "quenya");
    assert_eq!(lang_slug("???"), "language");
}

// ───────────────────────── doctor ─────────────────────────

#[test]
fn manuscript_words_split_on_word_boundaries() {
    assert_eq!(
        manuscript_vocabulary(&strings(&["Hello, world! It's 3.5 o'clock."])),
        strings(&["hello", "world", "it's", "3.5", "o'clock"])
    );
    assert!(manuscript_vocabulary(&strings(&[" ,. "])).is_empty());
}

#[test]
fn manuscript_vocabulary_is_distinct_lowercase_and_long() {
    let bodies = strings(&["The river ran. A river!", "THE Ships"]);
    assert_eq!(manuscript_vocabulary(&bodies), strings(&["the", "river", "ran", "ships"]));
}

#[test]
fn percent_rounds_down_and_handles_zero() {
    assert_eq!(percent(1, 3), 33);
    assert_eq!(percent(2, 3), 66);
    assert_eq!(percent(0, 0), 0);
    assert_eq!(percent(7, 7), 100);
}

#[test]
fn coverage_counts_examples_and_paradigms() {
    let es = vec![
        ("a".to_string(), entry("alda", "noun", "tree", "I alda.", &[("plural", "aldar")])),
        ("b".to_string(), entry("nen", "noun", "water", "  ", &[])),
        ("c".to_string(), entry("lanta", "verb", "fall", "", &[("past", "lantane")])),
    ];
    let c = dictionary_coverage(&es);
    assert_eq!((c.total, c.with_example, c.with_paradigm), (3, 1, 2));
}

#[test]
fn uncovered_words_and_sample() {
    let words = strings(&["river", "tree", "ship"]);
    let glosses = strings(&["tree"]);
    assert_eq!(uncovered_words(&words, &glosses), strings(&["river", "ship"]));
    assert_eq!(sorted_sample(&strings(&["zeta", "alpha", "mid"]), 2), strings(&["alpha", "zeta"]));
}

// ───────────────────────── tutorial ─────────────────────────

#[test]
fn tutorial_reply_and_gloss_text() {
    assert_eq!(tutorial_body("```md\n# Book\n```").ok().unwrap(), "# Book");
    match tutorial_body("   ") {
        Err(LanguageError::Store(m)) => assert_eq!(m, "the model returned an empty tutorial"),
        _ => panic!("a blank reply must be refused"),
    }
    assert_eq!(glossable("Aiya! Elen síla; lúmenn’ omentielvo."), "Aiya  Elen síla  lúmenn’ omentielvo ");
}

// ───────────────────────── export ─────────────────────────

#[test]
fn chapter_roles_ignore_case() {
    assert!(matches!(chapter_role("DICTIONARY"), ChapterRole::Dictionary));
    assert!(matches!(chapter_role("Sample Texts"), ChapterRole::SampleTexts));
    assert!(matches!(chapter_role("Notes"), ChapterRole::Other));
}

#[test]
fn sort_by_lemma_is_case_insensitive_and_stable() {
    let es = vec![
        ("b".to_string(), entry("bara", "", "", "", &[])),
        ("A".to_string(), entry("Aiya", "", "", "", &[])),
        ("a".to_string(), entry("aiya", "", "", "", &[])),
    ];
    let sorted = sort_entries_by_lemma(es);
    let keys: Vec<&str> = sorted.iter().map(|(k, _)| k.as_str()).collect();
    assert_eq!(keys, vec!["A", "a", "b"]);
}

#[test]
fn typst_exports_need_an_output_file() {
    assert!(check_export_destination(&LanguageExportFormat::Csv, false).is_ok());
    assert!(check_export_destination(&LanguageExportFormat::Grammar, true).is_ok());
    assert_eq!(config_message(check_export_destination(&LanguageExportFormat::DictionaryTwocol, false)), NEEDS_OUTPUT);
    assert_eq!(config_message(check_export_destination(&LanguageExportFormat::Phrasebook, false)), NEEDS_OUTPUT);
}

#[test]
fn exported_csv_imports_back_to_the_same_entries() {
    let es = vec![
        ("stelle".to_string(), entry("stelle", "noun", "star, bright", "Le stelle \"brillano\".", &[("plural", "stelle"), ("singular", "stella")])),
        ("salve".to_string(), entry("salve", "interjection", "hello", "", &[])),
    ];
    let bytes = render_csv(&es);
    let text = String::from_utf8(bytes).unwrap();
    let imp = load_import_csv(&text).ok().unwrap();
    assert_eq!(imp.rows.len(), 2);
    for (row, (_, e)) in imp.rows.iter().zip(es.iter()) {
        let back = build_import_entry_from_row(&imp.columns, row).unwrap();
        assert_eq!(back.word, e.word);
        assert_eq!(back.pos, e.pos);
        assert_eq!(back.translation, e.translation);
        assert_eq!(back.example, e.example);
        assert_eq!(back.inflection.len(), e.inflection.len());
        for i in 0..e.inflection.len() {
            assert_eq!(back.inflection.get(e.inflection.key_at(i)), Some(e.inflection.value_at(i)));
        }
    }
}

#[test]
fn load_import_csv_refusals() {
    assert_eq!(config_message(load_import_csv("")), "CSV is empty (no header row)");
    assert_eq!(config_message(load_import_csv("word\n\"open")), "CSV parse error: unclosed quote at end of file");
    assert_eq!(config_message(load_import_csv("word,translation\na,b\n")), "CSV missing required column `type`");
    assert_eq!(config_message(load_import_csv("type\n")), "CSV missing required column `word`");
    let imp = load_import_csv(" Translation ,WORD,Type\nriver,atal,noun\n").ok().unwrap();
    assert_eq!((imp.columns.word, imp.columns.pos, imp.columns.translation), (1, 2, 0));
    assert_eq!(imp.rows, vec![strings(&["river", "atal", "noun"])]);
}

// ───────────────────────── PolyGlot files ─────────────────────────

fn archive(members: &[(&str, &str)]) -> Vec<u8> {
    let mut w = zip::ZipWriter::new(std::io::Cursor::new(Vec::new()));
    let options = zip::write::SimpleFileOptions::default().compression_method(zip::CompressionMethod::Stored);
    for (name, body) in members {
        w.start_file(*name, options).unwrap();
        w.write_all(body.as_bytes()).unwrap();
    }
    w.finish().unwrap().into_inner()
}

#[test]
fn polyglot_member_selection() {
    assert_eq!(
        select_polyglot_member(&strings(&["a.xml", "pgdictionary.XML", "b.xml"])),
        Some("pgdictionary.XML".to_string())
    );
    assert_eq!(select_polyglot_member(&strings(&["readme.txt", "lexicon.XML"])), Some("lexicon.XML".to_string()));
    assert_eq!(select_polyglot_member(&strings(&["readme.txt"])), None);
}

#[test]
fn polyglot_plain_xml_is_read_as_text() {
    let bytes = b"<dictionary/>".to_vec();
    assert!(!is_zip_archive(&bytes));
    assert_eq!(read_polyglot_xml("x.pgd", bytes).ok().unwrap(), "<dictionary/>");
    let bad = vec![0xff, 0xfe, 0x41];
    assert!(config_message(read_polyglot_xml("x.pgd", bad)).starts_with("x.pgd is not valid UTF-8: "));
}

#[test]
fn polyglot_archive_member_is_read() {
    let bytes = archive(&[("readme.txt", "hi"), ("PGDictionary.xml", "<lexicon>alda</lexicon>")]);
    assert!(is_zip_archive(&bytes));
    assert_eq!(read_polyglot_xml("x.pgd", bytes).ok().unwrap(), "<lexicon>alda</lexicon>");
    let other = archive(&[("notes.txt", "x"), ("words.xml", "<w/>")]);
    assert_eq!(read_polyglot_xml("x.pgd", other).ok().unwrap(), "<w/>");
}

#[test]
fn polyglot_archive_refusals() {
    let none = archive(&[("a.txt", "x"), ("b.txt", "y")]);
    assert_eq!(
        config_message(read_polyglot_xml("x.pgd", none)),
        "no XML dictionary found inside x.pgd (members: a.txt, b.txt)"
    );
    let broken = b"PK\x03\x04not really a zip".to_vec();
    assert!(config_message(read_polyglot_xml("x.pgd", broken)).starts_with("x.pgd is not a valid .pgd archive: "));
    let undecodable = {
        let mut w = zip::ZipWriter::new(std::io::Cursor::new(Vec::new()));
        let options = zip::write::SimpleFileOptions::default().compression_method(zip::CompressionMethod::Stored);
        w.start_file("PGDictionary.xml", options).unwrap();
        w.write_all(&[0xff, 0xfe]).unwrap();
        w.finish().unwrap().into_inner()
    };
    assert!(config_message(read_polyglot_xml("x.pgd", undecodable)).starts_with("could not decode PGDictionary.xml: "));
}

#[test]
fn every_row_is_counted_once() {
    let imp = load_import_csv("word,type,translation\natal,noun,river\n,noun,blank\n#x,noun,comment\nsora,verb,flow\n").ok().unwrap();
    let mut t = ImportTally::new();
    let mut lines = Vec::new();
    for (i, row) in imp.rows.iter().enumerate() {
        match classify_import_row(&imp.columns, row) {
            RowAction::Import(e) => {
                let outcome = if e.word == "atal" { Ok("A".to_string()) } else { Err("store down".to_string()) };
                lines.push(record_import(&mut t, i + 2, "Quenya", &e.word, &outcome));
            }
            other => count_skipped_row(&mut t, &other),
        }
    }
    assert_eq!((t.imported, t.skipped_blank, t.skipped_comment, t.skipped_duplicate, t.failed), (1, 1, 1, 0, 1));
    assert_eq!(lines, strings(&["imported `atal` → Quenya/Dictionary/A", "row 5: import `sora` failed: store down"]));
}

#[test]
fn doctor_report_text() {
    use_doctor_report();
}

fn use_doctor_report() {
    let meta = inkhaven_language::entry::MetaOverview {
        name: "Quenya".to_string(),
        language_kind: "naturalistic".to_string(),
        family: String::new(),
        iso_code: "qya".to_string(),
        alphabet: strings(&["a", "e"]),
        reading_direction: "ltr".to_string(),
        stemmer: String::new(),
        example_corpus_ref: String::new(),
    };
    let es = vec![
        ("a".to_string(), entry("alda", "noun", "tree", "I alda.", &[("plural", "aldar")])),
        ("b".to_string(), entry("nen", "noun", "water", "", &[])),
    ];
    let cov = dictionary_coverage(&es);
    let lines = inkhaven_language::doctor::doctor_report("Quenya", &Some(meta), &cov, 1, 3, 2, 0, 4, &strings(&["ship", "river"]));
    assert_eq!(
        lines,
        strings(&[
            "Language doctor — `Quenya`",
            "",
            "  name           : Quenya",
            "  kind           : naturalistic",
            "  iso_code       : qya",
            "  alphabet       : 2 entries",
            "  direction      : ltr",
            "",
            "Chapters",
            "  Dictionary     : 2 parseable entries",
            "                   1 unparseable (no HJSON block — pre-Phase-B authoring)",
            "  Grammar        : 3 rules",
            "  Phonology      : 2 rules",
            "  Sample texts   : 0 samples",
            "",
            "Dictionary coverage",
            "  with example   : 1/2 (50%)",
            "  with paradigm  : 1/2 (50%)",
            "  missing example: 1",
            "  missing paradigm: 1 (overlay won't catch inflected forms)",
            "",
            "Manuscript gap analysis",
            "  unique words (≥2 chars) in manuscript prose: 4",
            "  covered by dictionary: 2/4 (50%)",
            "  uncovered words (sample, max 15):",
            "    · river",
            "    · ship",
        ])
    );
    let empty = inkhaven_language::doctor::doctor_report("Q", &None, &dictionary_coverage(&[]), 0, 0, 0, 0, 0, &vec![]);
    assert_eq!(empty[2], "  Meta/overview  : MISSING or unparseable");
    assert!(empty.contains(&"  no dictionary entries yet — try `inkhaven language add-word`".to_string()));
    assert_eq!(empty.last().unwrap(), "  (skipping — no dictionary entries to compare against)");
}

#[test]
fn typst_documents() {
    let g = String::from_utf8(render_grammar(
        "Quenya",
        &[
            ("cases".to_string(), "{\n  rule: \"nouns take cases\"\n  category: \"Morphology\"\n}".to_string()),
            ("order".to_string(), "{\n  rule: \"SOV\"\n  category: \"Syntax\"\n}".to_string()),
        ],
        &[],
    ))
    .unwrap();
    assert!(g.contains("= Grammar rules"));
    assert!(g.find("Morphology").unwrap() < g.find("Syntax").unwrap());
    assert!(!g.contains("= Phonology rules"));
    let p = String::from_utf8(render_phrasebook("Quenya", &[])).unwrap();
    assert!(p.ends_with("_No sample texts in the project yet._\n"));
    assert!(p.contains("Quenya — phrasebook"));
}
