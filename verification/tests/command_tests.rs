use inkhaven_language::command::{
    run, Invocation, LanguageCommand, LanguageImportFormat, MISSING_TRANSLATION, MISSING_TYPE,
    MISSING_WORD,
};
use inkhaven_language::compose::{
    drift_warning, names_heading, summarize_typology, unknown_tokens, verse_heading, verse_line,
};
use inkhaven_language::dialect::{
    dialect_prompt, parse_dialect_reply, proposal_report, rule_probe, variety_body, variety_id,
};
use inkhaven_language::entry::DictionaryEntry;
use inkhaven_language::error::LanguageError;
use inkhaven_language::inflection::Inflection;
use inkhaven_language::interlinear::{
    format_clause, gloss_report, interlinear_lines, parse_word, GlossItem, RenderedClause,
};
use inkhaven_language::lexgen::{
    kept_line, lexgen_closing, proposal_entry, proposals_heading, rejected_line, working_language,
};
use inkhaven_language::polyglot::{foreign_import_summary, import_preview, no_entries_note, Lexeme};
use inkhaven_language::tutorial::tutorial_prompt;

fn strings(v: &[&str]) -> Vec<String> {
    v.iter().map(|s| s.to_string()).collect()
}

fn add_word(word: Option<&str>, pos: Option<&str>, translation: Option<&str>, import: Option<&str>) -> LanguageCommand {
    LanguageCommand::AddWord {
        language: "Quenya".to_string(),
        word: word.map(String::from),
        pos: pos.map(String::from),
        translation: translation.map(String::from),
        example: None,
        import: import.map(String::from),
        new: true,
        force: false,
    }
}

fn refusal(r: Result<Invocation, LanguageError>) -> String {
    match r {
        Err(LanguageError::Config(m)) => m,
        _ => panic!("expected a refusal"),
    }
}

// ───────────────────────── dispatch ─────────────────────────

#[test]
fn add_word_with_import_becomes_a_csv_import() {
    match run(add_word(None, None, None, Some("words.csv"))) {
        Ok(Invocation::ImportCsv { language, csv_path, new, force }) => {
            assert_eq!((language.as_str(), csv_path.as_str(), new, force), ("Quenya", "words.csv", true, false));
        }
        _ => panic!("expected a CSV import"),
    }
}

#[test]
fn add_word_requires_word_type_and_translation_in_order() {
    assert_eq!(refusal(run(add_word(None, None, None, None))), MISSING_WORD);
    assert_eq!(refusal(run(add_word(Some("alda"), None, None, None))), MISSING_TYPE);
    assert_eq!(refusal(run(add_word(Some("alda"), Some("noun"), None, None))), MISSING_TRANSLATION);
    match run(add_word(Some("alda"), Some("noun"), Some("tree"), None)) {
        Ok(Invocation::AddWord { word, pos, translation, .. }) => {
            assert_eq!((word.as_str(), pos.as_str(), translation.as_str()), ("alda", "noun", "tree"));
        }
        _ => panic!("expected a single add"),
    }
}

#[test]
fn other_commands_go_to_their_handler() {
    match run(LanguageCommand::List) {
        Ok(Invocation::Handler(LanguageCommand::List)) => {}
        _ => panic!("expected the list handler"),
    }
}

// ───────────────────────── dialects ─────────────────────────

#[test]
fn dialect_request_and_reply() {
    let glosses = strings(&["water", " ", "fire", "a", "b", "c", "d", "e", "late"]);
    assert_eq!(
        dialect_prompt(&strings(&["p", "t", "a"]), &strings(&["a"]), &glosses, "coastal and lenited"),
        "Language phonemes: p t a. Vowel class V = a. Concepts you may give a dialect-specific word (gloss → form): water, fire, a, b, c, d, e. Design a variety that is: coastal and lenited."
    );
    let reply = parse_dialect_reply(
        "Here you go.\nSOUND_CHANGES:\n- t > s / _i\nnot a rule\n* k > h\nlexicon:\nwater = nen\nbad line\n = x\nfire=nár\n",
    );
    assert_eq!(reply.rules, strings(&["t > s / _i", "k > h"]));
    assert_eq!(
        reply.lexicon,
        vec![("water".to_string(), "nen".to_string()), ("fire".to_string(), "nár".to_string())]
    );
    assert_eq!(rule_probe("t > s"), "{ rule: \"t > s\" }");
}

#[test]
fn variety_id_defaults_to_the_last_word_lowercased() {
    assert_eq!(variety_id(None, "a Coastal Dialect"), "dialect");
    assert_eq!(variety_id(Some("Coast"), "whatever"), "Coast");
    assert_eq!(variety_id(None, "   "), "variety");
}

#[test]
fn variety_report_and_body() {
    let rules = strings(&["t > s / _i"]);
    let lex = vec![("water".to_string(), "nen".to_string())];
    assert_eq!(
        proposal_report("coast", "by the \"sea\"", &rules, &lex),
        strings(&[
            "proposed variety `coast` (by the \"sea\"):",
            "  sound changes:",
            "    t > s / _i",
            "    word: water → nen",
        ])
    );
    assert_eq!(
        variety_body("coast", "by the \"sea\"", &rules, &lex),
        "{ varieties:[{ id:\"coast\", kind:\"dialect\", note:\"by the 'sea'\", sound_changes:[{rule:\"t > s / _i\"}], lexicon:{\"water\":\"nen\"} }] }"
    );
}

// ───────────────────────── lexicon generation ─────────────────────────

#[test]
fn lexgen_lines() {
    assert_eq!(working_language("  "), "english");
    assert_eq!(working_language(" italian "), "italian");
    assert_eq!(
        proposals_heading(2, "Quenya", Some("sea"), 1),
        "proposed 2 entr(y/ies) for Quenya · topic: sea (1 rejected by the dedup gate):"
    );
    assert_eq!(proposals_heading(0, "Quenya", None, 0), "proposed 0 entr(y/ies) for Quenya (0 rejected by the dedup gate):");
    assert_eq!(kept_line("alda", "tree", " "), "  alda             tree (?)");
    assert_eq!(rejected_line("nen", "water", "duplicate"), "  nen              water — duplicate");
    assert_eq!(lexgen_closing(true, 3, "Quenya"), "\nadded 3 entr(y/ies) to Quenya's Dictionary");
    assert_eq!(lexgen_closing(false, 3, "Quenya"), "\n(dry run — re-run with --yes to add the 3 kept entr(y/ies))");
    let e = proposal_entry(" alda ", " tree ", "  ", " An alda. ", " poetic ", &strings(&[" nature ", " "]), Some(" old "));
    assert_eq!((e.word.as_str(), e.pos.as_str(), e.translation.as_str()), ("alda", "noun", "tree"));
    assert_eq!((e.example.as_str(), e.register.as_str(), e.era.as_str()), ("An alda.", "poetic", "old"));
    assert_eq!(e.domain, strings(&["nature"]));
}

// ───────────────────────── composition ─────────────────────────

fn forms(pairs: &[(&str, &str)]) -> Inflection {
    let mut m = Inflection::new();
    for (k, v) in pairs {
        m.insert(k.to_string(), v.to_string());
    }
    m
}

#[test]
fn compose_text_pieces() {
    assert_eq!(summarize_typology(&Inflection::new()), "word order: SVO; alignment: nominative–accusative (defaults)");
    assert_eq!(
        summarize_typology(&forms(&[("word_order", "sov"), ("case_marking", "suffix")])),
        "case marking: suffix; word order: sov"
    );
    assert_eq!(names_heading("Quenya", 3), "Quenya — 3 names:\n");
    assert_eq!(verse_heading("Quenya", &vec![5, 7, 5]), "Quenya — verse (5-7-5):\n");
    assert_eq!(verse_line("elen síla", 4, 5), format!("  {}{} (4/5)", "elen síla", " ".repeat(23)));
}

#[test]
fn drift_check_lists_unknown_native_tokens() {
    let mut alda = DictionaryEntry {
        word: "Alda".to_string(),
        pos: "noun".to_string(),
        translation: "tree".to_string(),
        example: String::new(),
        inflection: Inflection::new(),
    };
    alda.inflection.insert("plural".to_string(), "Aldar".to_string());
    let text = "English: the trees\n  Native: aldar lanta, x aldar quesse!\nnative: Quesse";
    let unknown = unknown_tokens(text, &[alda]);
    assert_eq!(unknown, strings(&["lanta", "quesse"]));
    assert_eq!(
        drift_warning(&unknown),
        "\n⚠ 2 token(s) not in the lexicon (model may have drifted): lanta, quesse"
    );
}

// ───────────────────────── interlinear text ─────────────────────────

#[test]
fn interlinear_forms() {
    let w = parse_word(" alda : tree ");
    assert_eq!((w.root.as_str(), w.gloss.as_str()), ("alda", "tree"));
    let v = parse_word(" lanta ");
    assert_eq!((v.root.as_str(), v.gloss.as_str()), ("lanta", "lanta"));
    let r = RenderedClause {
        surface: "alda lanta".to_string(),
        words: vec![("alda".to_string(), "tree".to_string()), ("lanta".to_string(), "fall".to_string())],
        literal: "the tree falls".to_string(),
    };
    assert_eq!(
        interlinear_lines(&r),
        strings(&["  alda  lanta  ", "  tree  fall   ", "  'the tree falls'"])
    );
    assert_eq!(format_clause(&r), "alda lanta\n  alda  lanta\n  tree  fall\n  ‘the tree falls’");
    let items = vec![
        GlossItem { surface: "alda".to_string(), gloss: Some("tree".to_string()) },
        GlossItem { surface: "xy".to_string(), gloss: None },
    ];
    assert_eq!(gloss_report(&items), strings(&["alda  xy", "tree  ?", "\n1 / 2 word(s) glossed"]));
}

// ───────────────────────── foreign imports ─────────────────────────

fn lexeme(word: &str, pos: &str, gloss: &str) -> Lexeme {
    Lexeme {
        word: word.to_string(),
        pos: pos.to_string(),
        translation: gloss.to_string(),
        example: String::new(),
        pronunciation: String::new(),
        etymology: String::new(),
        notes: String::new(),
    }
}

#[test]
fn foreign_import_messages() {
    assert_eq!(
        no_entries_note("words.pgd", &LanguageImportFormat::Polyglot),
        "no entries found in words.pgd — is it a PolyGlot file?"
    );
    assert_eq!(
        no_entries_note("words.sfm", &LanguageImportFormat::Toolbox),
        "no entries found in words.sfm — is it a Toolbox/SFM file?"
    );
    assert_eq!(foreign_import_summary(3, "Quenya", 1), "\nimported 3 entr(y/ies) into Quenya's Dictionary (1 skipped)");
    let one = import_preview("w.pgd", &vec![lexeme("alda", "noun", "tree")]);
    assert_eq!(one[0], "1 entry parsed from w.pgd (preview — pass --yes to import):\n");
    assert_eq!(one.len(), 2);
    let many: Vec<Lexeme> = (0..22).map(|i| lexeme(&format!("w{i}"), "noun", "g")).collect();
    let p = import_preview("w.pgd", &many);
    assert_eq!(p.len(), 22);
    assert_eq!(p[0], "22 entries parsed from w.pgd (preview — pass --yes to import):\n");
    assert_eq!(p[21], "  … and 2 more");
}

#[test]
fn tutorial_request_carries_the_brief() {
    let p = tutorial_prompt("BRIEF");
    assert!(p.starts_with("Write a complete beginner's textbook"));
    assert!(p.contains("\n\nBRIEF\n\nOUTPUT FORMAT: GitHub-flavored Markdown."));
}
