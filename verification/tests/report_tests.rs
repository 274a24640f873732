use inkhaven_language::areal::{
    areal_line, contact_heading, contact_with_line, merge_areal_features, no_contact_note,
    region_feature_line, region_heading, ArealConvergence, ArealStatus,
};
use inkhaven_language::doctor::{scan_report, ScanCandidate};
use inkhaven_language::ecology::{character_link, place_link};
use inkhaven_language::family::{contact_edges, contact_lines, ContactDecl};
use inkhaven_language::listings::{
    audit_report, corpus_lines, idioms_report, memory_report, query_report, speakers_report, varieties_report,
    CollisionGroup, IdiomListing, MetaphorListing, PhonotacticViolation, QueryHit, VarietyListing,
};
use inkhaven_language::entry::DictionaryEntry;
use inkhaven_language::gaps::{gap_glosses, gap_suggestion, missing_heading, missing_lines};
use inkhaven_language::inflection::Inflection;
use inkhaven_language::interlinear::{example_parts, example_sentence, RenderedClause};
use inkhaven_language::profile::{
    frequency_line, histogram_lines, metrics_heading, pairs_report, profile_heading, top_items,
    MinimalPair,
};
use inkhaven_language::study::{grammar_study_brief, study_guide, study_prompt, StudyFacts, StudyMorpheme};
use inkhaven_language::translate::{
    alternative_line, decision_text, pivot_lines, pivot_note, reverse_gloss_line,
    reverse_unresolved_note, translation_message, uncovered_report, unresolved_note,
    word_order_label, Decision,
};
use inkhaven_language::tutorial::{AgreementFact, DerivationFact};

fn strings(v: &[&str]) -> Vec<String> {
    v.iter().map(|s| s.to_string()).collect()
}

fn forms(pairs: &[(&str, &str)]) -> Inflection {
    let mut m = Inflection::new();
    for (k, v) in pairs {
        m.insert(k.to_string(), v.to_string());
    }
    m
}

fn entry(word: &str, pos: &str, translation: &str) -> DictionaryEntry {
    DictionaryEntry {
        word: word.to_string(),
        pos: pos.to_string(),
        translation: translation.to_string(),
        example: String::new(),
        inflection: Inflection::new(),
    }
}

// ───────────────────────── study guide ─────────────────────────

#[test]
fn study_brief_lists_only_what_the_language_has() {
    let f = StudyFacts {
        language: "Quenya".to_string(),
        consonants: 12,
        vowels: 5,
        stress: None,
        allophony: vec![],
        morphemes: vec![],
        derivations: vec![],
        agreement: vec![],
        typology: Inflection::new(),
    };
    assert_eq!(grammar_study_brief(&f), "LANGUAGE: Quenya\nPHONEME INVENTORY: 12 consonants, 5 vowels\n");
}

#[test]
fn study_brief_full() {
    let f = StudyFacts {
        language: "Quenya".to_string(),
        consonants: 3,
        vowels: 2,
        stress: Some("Penultimate".to_string()),
        allophony: strings(&["t > s / _i"]),
        morphemes: vec![StudyMorpheme {
            gloss: "PL".to_string(),
            kind: "suffix".to_string(),
            realization: "-r".to_string(),
            category: "number".to_string(),
            value: "plural".to_string(),
        }],
        derivations: vec![DerivationFact {
            name: "agent".to_string(),
            from_pos: None,
            to_pos: "noun".to_string(),
            form: "-ro".to_string(),
            gloss: "one who".to_string(),
        }],
        agreement: vec![AgreementFact {
            dependent: "adjective".to_string(),
            head: "noun".to_string(),
            features: strings(&["number", "case"]),
        }],
        typology: forms(&[("word_order", "sov"), ("case_marking", "suffix")]),
    };
    let expected = "LANGUAGE: Quenya\n\
PHONEME INVENTORY: 3 consonants, 2 vowels\n\
STRESS RULE: Penultimate\n\
ALLOPHONY / SOUND-CHANGE RULES (SPE notation):\n  t > s / _i\n\
MORPHEMES (these realise grammatical categories — gloss | kind | realization | category | value):\n  PL | suffix | -r | number | plural\n\
WORD-BUILDING (derivation) RULES (name | from POS | to POS):\n  agent | any | noun\n\
AGREEMENT RULES (dependent agrees with head in features):\n  adjective agrees with noun in number, case\n\
TYPOLOGICAL FEATURES (WALS-style feature = value):\n  case_marking = suffix\n  word_order = sov\n";
    assert_eq!(grammar_study_brief(&f), expected);
}

#[test]
fn study_prompt_and_reply() {
    assert_eq!(
        study_prompt("B"),
        "Write the study guide for this language, using ONLY the features in the brief below.\n\nB\n\nOUTPUT FORMAT: GitHub-flavored Markdown — use `##` for sections and `###` for each term you define. Output the guide only."
    );
    assert_eq!(study_guide("```markdown\n## Cases\n```"), Some("## Cases".to_string()));
    assert_eq!(study_guide("## Cases"), Some("## Cases".to_string()));
    assert_eq!(study_guide("```\n   \n```"), None);
    assert_eq!(study_guide("  "), None);
}

// ───────────────────────── example sentence ─────────────────────────

#[test]
fn example_parts_pick_first_noun_verb_and_second_noun() {
    let es = vec![
        entry("vanya", "adj", "fair"),
        entry("lasse", "Noun", "leaf"),
        entry("lanta", "verb", "fall"),
        entry("alda", "NOUN", "tree"),
        entry("ea", "Verb", "be"),
    ];
    let p = example_parts(&es).unwrap();
    assert_eq!((p.subject, p.verb, p.object), (1, 2, Some(3)));
    let q = example_parts(&es[..3]).unwrap();
    assert_eq!(q.object, None);
    assert!(example_parts(&es[..2]).is_none());
    assert!(example_parts(&[entry("lanta", "verb", "fall")]).is_none());
}

#[test]
fn example_sentence_aligns_words_over_glosses() {
    let r = RenderedClause {
        surface: "lasse lanta".to_string(),
        words: vec![("lasse".to_string(), "leaf".to_string()), ("lanta".to_string(), "fall.3SG".to_string())],
        literal: "the leaf falls".to_string(),
    };
    let (s, i, l) = example_sentence(&r).unwrap();
    assert_eq!(s, "lasse lanta");
    assert_eq!(i, "lasse  lanta\nleaf   fall.3SG");
    assert_eq!(l, "the leaf falls");
    let empty = RenderedClause { surface: String::new(), words: vec![], literal: String::new() };
    assert!(example_sentence(&empty).is_none());
}

// ───────────────────────── translation output ─────────────────────────

#[test]
fn word_order_defaults_to_svo_uppercased() {
    assert_eq!(word_order_label(&Inflection::new()), "SVO");
    assert_eq!(word_order_label(&forms(&[("word_order", "vso")])), "VSO");
}

#[test]
fn translation_lines() {
    let words = vec![("i".to_string(), "the".to_string()), ("alda".to_string(), "tree".to_string())];
    assert_eq!(reverse_gloss_line(&words), "  i=the  alda=tree");
    assert_eq!(reverse_gloss_line(&vec![]), "  ");
    let un = strings(&["dog", "cat"]);
    assert_eq!(
        unresolved_note("Quenya", &un),
        "\nnot in Quenya's lexicon: dog, cat — coin them, or add with `language add-word`"
    );
    assert_eq!(reverse_unresolved_note("Quenya", &un), "\nnot in Quenya's lexicon: dog, cat");
    assert_eq!(pivot_note(&un), "\nlost in pivot: dog, cat");
    assert_eq!(alternative_line("i alda", "memory"), "  alt: i alda  (memory)");
    assert_eq!(
        decision_text(&Decision::LexiconLookup { word: "alda".to_string(), pos: "noun".to_string() }),
        "lexicon → alda (noun)"
    );
    assert_eq!(decision_text(&Decision::Untranslatable), "untranslatable (passed through)");
    assert_eq!(
        pivot_lines("Quenya", "Sindarin", "i alda", "the tree", "i galadh"),
        strings(&["  i alda  (Quenya)", "  ↓ the tree", "  i galadh  (Sindarin)"])
    );
    assert_eq!(translation_message("the tree", "i alda"), "the tree  →  i alda");
    assert_eq!(uncovered_report(&un), "2 word(s) uncovered: dog, cat");
}

// ───────────────────────── areal features ─────────────────────────

#[test]
fn areal_lines() {
    let c = ArealConvergence {
        feature: "word_order".to_string(),
        current: Some("svo".to_string()),
        areal_value: "sov".to_string(),
        status: ArealStatus::Shift,
    };
    assert_eq!(areal_line(&c), "    → word_order       would shift svo → sov");
    let a = ArealConvergence {
        feature: "tone".to_string(),
        current: None,
        areal_value: "lexical".to_string(),
        status: ArealStatus::Adopt,
    };
    assert_eq!(areal_line(&a), "    + tone             would adopt lexical (currently unset)");
    let k = ArealConvergence {
        feature: "case".to_string(),
        current: Some("ergative".to_string()),
        areal_value: "ergative".to_string(),
        status: ArealStatus::Converged,
    };
    assert_eq!(areal_line(&k), "    ✓ case             already ergative");
    assert_eq!(contact_heading("Quenya", ""), "Quenya · contact: (unnamed area)");
    assert_eq!(contact_heading("Quenya", "Aman"), "Quenya · contact: Aman");
    assert_eq!(contact_with_line(&strings(&["Telerin", "Vanyarin"])), "  in contact with: Telerin, Vanyarin");
    assert!(no_contact_note("Quenya").starts_with("Quenya declares no `contact` block"));
    assert_eq!(region_heading("Aman", &strings(&["Quenya", "Telerin"])), "Aman — Quenya, Telerin");
    let cells = vec![("Quenya".to_string(), ArealStatus::Converged), ("Telerin".to_string(), ArealStatus::Adopt)];
    assert_eq!(
        region_feature_line("tone", "lexical", &cells),
        "  tone = lexical             Quenya ✓  Telerin +"
    );
}

#[test]
fn merged_areal_features_keep_the_first_declaration() {
    let a = forms(&[("tone", "lexical"), ("word_order", "sov")]);
    let b = forms(&[("word_order", "svo"), ("case", "ergative")]);
    let m = merge_areal_features(&vec![a, b]);
    assert_eq!(m.len(), 3);
    assert_eq!(m.get("word_order").map(|s| s.as_str()), Some("sov"));
    assert_eq!(m.get("tone").map(|s| s.as_str()), Some("lexical"));
    assert_eq!(m.get("case").map(|s| s.as_str()), Some("ergative"));
    assert_eq!(merge_areal_features(&vec![]).len(), 0);
}

// ───────────────────────── profile ─────────────────────────

#[test]
fn ranked_items_and_frequency_lines() {
    let freq = vec![("k".to_string(), 12), ("a".to_string(), 9), ("t".to_string(), 4)];
    assert_eq!(top_items(&freq, 2), "k×12  a×9");
    assert_eq!(top_items(&freq, 10), "k×12  a×9  t×4");
    assert_eq!(top_items(&freq, 0), "");
    assert_eq!(frequency_line("  phonemes  · ", &freq, 1), "  phonemes  · k×12");
}

#[test]
fn histogram_bars_scale_to_the_largest_count() {
    let hist = vec![(1, 3), (2, 12), (3, 0)];
    let lines = histogram_lines(&hist);
    assert_eq!(lines.len(), 3);
    assert_eq!(lines[0], format!("      1σ {} 3", "█".repeat(6)));
    assert_eq!(lines[1], format!("      2σ {} 12", "█".repeat(24)));
    assert_eq!(lines[2], "      3σ █ 0");
}

#[test]
fn profile_heading_lines() {
    assert_eq!(
        profile_heading("Quenya", 17, 12, 5, 40, 38),
        strings(&[
            "language profile · Quenya",
            "  inventory · 17 phonemes (12 C / 5 V)",
            "  lexicon   · 40 entr(y/ies), 38 analyzable",
        ])
    );
}

// ───────────────────────── gaps ─────────────────────────

#[test]
fn gap_glosses_skip_blank_translations() {
    let es = vec![entry("alda", "noun", "tree"), entry("x", "noun", "  "), entry("nen", "noun", "water")];
    assert_eq!(gap_glosses(&es), strings(&["tree", "water"]));
}

#[test]
fn missing_concepts_six_to_a_line() {
    let m = strings(&["i", "you", "we", "this", "that", "who", "what", "not"]);
    assert_eq!(
        missing_lines(&m),
        strings(&["  i, you, we, this, that, who", "  what, not"])
    );
    assert_eq!(missing_lines(&strings(&["a", "b", "c", "d", "e", "f"])), strings(&["  a, b, c, d, e, f"]));
    assert!(missing_lines(&vec![]).is_empty());
    assert_eq!(missing_heading(8), "\nMissing (8), most-core first:");
    assert_eq!(
        gap_suggestion("Quenya", &m),
        "\nFeed these to the generator, e.g.:\n  inkhaven language generate-lexicon Quenya --topic \"i, you, we\" --count 8"
    );
    let many: Vec<String> = (0..25).map(|i| format!("c{i}")).collect();
    assert!(gap_suggestion("Q", &many).ends_with("--topic \"c0, c1, c2\" --count 20"));
}

// ───────────────────────── manuscript scan ─────────────────────────

#[test]
fn scan_report_lines() {
    assert_eq!(
        scan_report("Quenya", 10, 2, &vec![]),
        strings(&["scan Quenya · 10 paragraph(s), 2 in a conlang context", "  ✓ no undefined conlang words found"])
    );
    let c = vec![ScanCandidate { word: "elen".to_string(), count: 3 }];
    assert_eq!(
        scan_report("Quenya", 10, 2, &c),
        strings(&[
            "scan Quenya · 10 paragraph(s), 2 in a conlang context",
            "\n  candidate undefined words (1):",
            "    elen             ×3",
        ])
    );
}

// ───────────────────────── listings ─────────────────────────

#[test]
fn idioms_listing() {
    assert_eq!(idioms_report("Quenya", &vec![], &vec![]), strings(&["Quenya: no idioms or metaphors yet"]));
    let idioms = vec![
        IdiomListing {
            form: "i eleni".to_string(),
            meaning: "hope".to_string(),
            literal: "the stars".to_string(),
            register: strings(&["poetic", "archaic"]),
        },
        IdiomListing { form: "nai".to_string(), meaning: "may it be".to_string(), literal: " ".to_string(), register: vec![] },
    ];
    let metaphors = vec![
        MetaphorListing { source: "light".to_string(), target: "knowledge".to_string(), examples: strings(&["a", "b"]) },
        MetaphorListing { source: "sea".to_string(), target: "longing".to_string(), examples: vec![] },
    ];
    assert_eq!(
        idioms_report("Quenya", &idioms, &metaphors),
        strings(&[
            "idioms (2):",
            "  i eleni  —  hope  [poetic,archaic]",
            "      (lit. the stars)",
            "  nai  —  may it be",
            "\nmetaphors (2):",
            "  light → knowledge  e.g. a; b",
            "  sea → longing",
        ])
    );
    assert_eq!(
        idioms_report(
            "Quenya",
            &vec![],
            &vec![MetaphorListing { source: "sea".to_string(), target: "longing".to_string(), examples: vec![] }]
        ),
        strings(&["\nmetaphors (1):", "  sea → longing"])
    );
}

#[test]
fn memory_listing() {
    assert_eq!(
        memory_report("Quenya", &vec![]),
        strings(&["Quenya has no remembered translations yet — add one with `language remember Quenya --english … --conlang …`."])
    );
    let pairs = vec![("the tree".to_string(), "i alda".to_string())];
    assert_eq!(
        memory_report("Quenya", &pairs),
        strings(&["Quenya · 1 remembered translation(s):", "  the tree  →  i alda"])
    );
}

#[test]
fn varieties_listing() {
    let vs = vec![
        VarietyListing { id: "coastal".to_string(), summary: "3 sound change(s)".to_string(), note: Some("spoken at the havens".to_string()) },
        VarietyListing { id: "hill".to_string(), summary: "1 sound change(s)".to_string(), note: None },
    ];
    assert_eq!(
        varieties_report("Quenya", &vs),
        strings(&[
            "Quenya · 2 variet(y/ies):",
            "  coastal        3 sound change(s)",
            "                 spoken at the havens",
            "  hill           1 sound change(s)",
        ])
    );
    assert!(varieties_report("Quenya", &vec![])[0].starts_with("Quenya declares no varieties"));
}

#[test]
fn speakers_listing() {
    assert_eq!(
        speakers_report("Quenya", &vec![], &vec![]),
        strings(&["speakers of Quenya", "  (none linked yet — see `inkhaven language link-place` / `link-character`)"])
    );
    let places = strings(&["Tirion"]);
    let chars = vec![("Fëanor".to_string(), "native".to_string())];
    assert_eq!(
        speakers_report("Quenya", &places, &chars),
        strings(&["speakers of Quenya", "\n  places (1):", "    Tirion", "\n  characters (1):", "    Fëanor               native"])
    );
    assert_eq!(
        speakers_report("Quenya", &vec![], &chars),
        strings(&["speakers of Quenya", "\n  characters (1):", "    Fëanor               native"])
    );
}

// ───────────────────────── family tree contacts ─────────────────────────

#[test]
fn contact_edges_are_oriented_sorted_and_deduplicated() {
    let decls = vec![
        ContactDecl { language: "Telerin".to_string(), with: strings(&["Quenya", "Sindarin"]), region: "Aman".to_string() },
        ContactDecl { language: "Quenya".to_string(), with: strings(&["telerin"]), region: "Aman".to_string() },
        ContactDecl { language: "Adunaic".to_string(), with: strings(&["Sindarin"]), region: String::new() },
    ];
    let edges = contact_edges(&decls);
    let got: Vec<(&str, &str, &str)> = edges.iter().map(|(a, b, c)| (a.as_str(), b.as_str(), c.as_str())).collect();
    assert_eq!(
        got,
        vec![("Adunaic", "Sindarin", ""), ("Quenya", "Telerin", "Aman"), ("Sindarin", "Telerin", "Aman")]
    );
    assert_eq!(
        contact_lines(&edges),
        strings(&[
            "\ncontact (horizontal):",
            "  Adunaic ⇄ Sindarin",
            "  Quenya ⇄ Telerin  (Aman)",
            "  Sindarin ⇄ Telerin  (Aman)",
        ])
    );
    assert!(contact_lines(&vec![]).is_empty());
}

#[test]
fn contact_edges_keep_case_variants_that_sort_apart() {
    let decls = vec![
        ContactDecl { language: "Telerin".to_string(), with: strings(&["quenya", "Sindarin"]), region: "Aman".to_string() },
        ContactDecl { language: "Quenya".to_string(), with: strings(&["Telerin"]), region: "Aman".to_string() },
    ];
    let edges = contact_edges(&decls);
    let got: Vec<(&str, &str)> = edges.iter().map(|(a, b, _)| (a.as_str(), b.as_str())).collect();
    assert_eq!(got, vec![("Quenya", "Telerin"), ("Sindarin", "Telerin"), ("quenya", "Telerin")]);
}

#[test]
fn minimal_pairs_report() {
    let load = vec![("voice".to_string(), 4), ("place".to_string(), 1)];
    let pairs = vec![
        MinimalPair { a: "tala".to_string(), b: "dala".to_string(), seg_a: "t".to_string(), seg_b: "d".to_string(), features: strings(&["voice"]) },
        MinimalPair { a: "x".to_string(), b: "y".to_string(), seg_a: "x".to_string(), seg_b: "y".to_string(), features: vec![] },
    ];
    assert_eq!(
        pairs_report("Quenya", 10, 3, &load, 1, &pairs),
        vec![
            "minimal pairs · Quenya".to_string(),
            "  3 minimal pair(s) across 10 analyzable words".to_string(),
            "  functional load (single-feature contrasts):".to_string(),
            format!("      voice        {} 4", "█".repeat(20)),
            format!("      place        {} 1", "█".repeat(5)),
            "  1 pair(s) contrast in more than one feature".to_string(),
            "  examples:".to_string(),
            "      tala / dala   t~d [voice]".to_string(),
            "      x / y   x~y (outside the feature matrix)".to_string(),
        ]
    );
    assert_eq!(
        pairs_report("Quenya", 0, 0, &vec![], 0, &vec![]),
        strings(&["minimal pairs · Quenya", "  (no analyzable words — define a phoneme inventory and add dictionary entries)"])
    );
    assert_eq!(pairs_report("Quenya", 4, 0, &vec![], 0, &vec![]).len(), 2);
}

#[test]
fn metrics_heading_lines() {
    assert_eq!(
        metrics_heading("Quenya", 12, 60),
        strings(&["language metrics · Quenya", "  corpus    · 12 analyzable word(s), 60 segments"])
    );
    assert_eq!(metrics_heading("Quenya", 0, 0).len(), 2);
}

#[test]
fn audit_report_sections() {
    let v = vec![PhonotacticViolation { headword: "xtl".to_string(), underlying: "xtl".to_string() }];
    let h = vec![CollisionGroup {
        key: "ala".to_string(),
        members: vec![("ala".to_string(), "wing".to_string()), ("alá".to_string(), "yes".to_string())],
    }];
    let d = vec![CollisionGroup {
        key: "tree".to_string(),
        members: vec![("alda".to_string(), String::new()), ("orne".to_string(), String::new())],
    }];
    assert_eq!(
        audit_report("Quenya", 5, 3, &v, &h, &d),
        strings(&[
            "lexicon audit · Quenya · 5 entr(y/ies)",
            "\n  ⚠ phonotactic violations (1):",
            "      xtl (/xtl/) breaks the language's constraints",
            "\n  ⚠ homophones (1 group(s)):",
            "      [ala] ala (wing), alá (yes)",
            "\n  ⚠ duplicate meanings (1 group(s)):",
            "      \"tree\" — alda, orne",
        ])
    );
    assert_eq!(
        audit_report("Quenya", 5, 0, &vec![], &vec![], &vec![]),
        strings(&["lexicon audit · Quenya · 5 entr(y/ies)", "  ✓ no issues"])
    );
}

#[test]
fn query_report_lines() {
    let hits = vec![
        QueryHit {
            word: "alda".to_string(),
            translation: "tree".to_string(),
            pos: "noun".to_string(),
            registers: strings(&["poetic"]),
            domain: strings(&["nature", "plants"]),
            era: Some("old".to_string()),
        },
        QueryHit {
            word: "nai".to_string(),
            translation: "may".to_string(),
            pos: " ".to_string(),
            registers: vec![],
            domain: vec![],
            era: None,
        },
    ];
    assert_eq!(
        query_report(3, &hits),
        strings(&[
            "2 / 3 entr(y/ies) match",
            "  alda             tree (noun)  [poetic] {nature,plants} <old>",
            "  nai              may",
        ])
    );
}

#[test]
fn place_and_character_links() {
    assert_eq!(
        place_link("tirion", Some("Tirion".to_string()), "Quenya", false, Some("Vanyarin")),
        ("Tirion".to_string(), strings(&["Tirion → primary language Quenya", "Tirion speaks the Vanyarin variety"]))
    );
    assert_eq!(
        place_link("Valmar", None, "Quenya", true, None),
        (
            "Valmar".to_string(),
            strings(&["note: no Place named `Valmar` found — recording the link anyway", "Valmar → secondary language Quenya"])
        )
    );
    assert_eq!(
        character_link("feanor", Some("Fëanor".to_string()), "Quenya", "native", Some("Noldorin")),
        ("Fëanor".to_string(), strings(&["Fëanor → Quenya (native), native variety Noldorin"]))
    );
    assert_eq!(
        character_link("Ghost", None, "Quenya", "broken", None).1,
        strings(&["note: no Character named `Ghost` found — recording the link anyway", "Ghost → Quenya (broken)"])
    );
}

#[test]
fn corpus_listing() {
    let accepted: Vec<(String, String)> = (0..8).map(|i| (format!("e{i}"), format!("c{i}"))).collect();
    let missing = vec![("dog".to_string(), 3), ("cat".to_string(), 1)];
    let lines = corpus_lines("Quenya", &accepted, &missing, true);
    assert_eq!(lines.len(), 10);
    assert_eq!(lines[0], "  e0  →  c0");
    assert_eq!(lines[5], "  e5  →  c5");
    assert_eq!(lines[6], "  … and 2 more");
    assert_eq!(lines[7], "\ntop missing words: dog (3), cat (1)");
    assert_eq!(lines[8], "add them with `language add-word` to raise coverage.");
    assert_eq!(lines[9], "\nseeded 8 pair(s) into Quenya's translation memory.");
    assert_eq!(
        corpus_lines("Quenya", &vec![], &vec![], false),
        strings(&["\n(preview — re-run with --yes to seed the translation memory)"])
    );
}
