use inkhaven_language::ecology::{
    contact_areas, ecology_report, ecology_svg, CharacterLink, ContactArea, PlaceLink, Proficiency,
};
use inkhaven_language::csv_import::parse_inflection_field;
use inkhaven_language::error::LanguageError;
use inkhaven_language::export::{join_inflection, typst_escape};
use inkhaven_language::inflection::Inflection;
use inkhaven_language::interlinear::GlossItem;
use inkhaven_language::typst_doc::render_phrasebook;
use inkhaven_language::tutorial::{
    tutorial_brief, tutorial_ready, DerivationFact, IdiomFact, MorphemeFact, SampleFact, TutorialFacts, VocabularyItem,
};

fn s(v: &str) -> String {
    v.to_string()
}

fn strings(v: &[&str]) -> Vec<String> {
    v.iter().map(|x| x.to_string()).collect()
}

fn places() -> Vec<PlaceLink> {
    vec![
        PlaceLink {
            place: s("Alqualondë"),
            primary: Some(s("Quenya")),
            variety: Some(s("Telerin")),
            secondary: strings(&["Sindarin"]),
        },
        PlaceLink { place: s("Tirion"), primary: Some(s("quenya")), variety: None, secondary: vec![] },
    ]
}

fn areas() -> Vec<ContactArea> {
    contact_areas(&[(s("Quenya"), s("Aman")), (s("Sindarin"), s("")), (s("Telerin"), s("Aman"))])
}

#[test]
fn contact_areas_group_by_region_in_name_order() {
    let a = areas();
    assert_eq!(a.len(), 2);
    assert_eq!(a[0].region, "(unnamed area)");
    assert_eq!(a[0].members, strings(&["Sindarin"]));
    assert_eq!(a[1].region, "Aman");
    assert_eq!(a[1].members, strings(&["Quenya", "Telerin"]));
    assert!(contact_areas(&[]).is_empty());
}

#[test]
fn ecology_report_sections() {
    let characters = vec![CharacterLink {
        character: s("Finrod"),
        languages: vec![
            Proficiency { language: s("Quenya"), level: s("native") },
            Proficiency { language: s("Sindarin"), level: s("fluent") },
        ],
        native_variety: Some(s("Noldorin")),
    }];
    assert_eq!(
        ecology_report(&places(), &characters, &areas()),
        strings(&[
            "Places:",
            "  Alqualondë       Quenya · Telerin  (also Sindarin)",
            "  Tirion           quenya",
            "\nCharacters:",
            "  Finrod           Quenya (native), Sindarin (fluent) · native Noldorin",
            "\nContact areas:",
            "  (unnamed area) — Sindarin",
            "  Aman — Quenya, Telerin",
        ])
    );
    assert_eq!(
        ecology_report(&vec![], &vec![], &vec![]),
        strings(&["no speech-community links yet — use `link-place` / `link-character` (with --variety)."])
    );
    assert_eq!(ecology_report(&places(), &vec![], &vec![]).len(), 3);
}

#[test]
fn ecology_atlas_stacks_area_boxes() {
    let svg = ecology_svg(&places(), &areas());
    let expected = String::new()
        + "<svg xmlns='http://www.w3.org/2000/svg' viewBox='0 0 720 256' width='720' height='256'>\n"
        + "<rect width='720' height='256' fill='#fdfaf3'/>\n"
        + "<text x='360' y='40' font-family='sans-serif' font-size='22' font-weight='bold' text-anchor='middle'>Language Ecology</text>\n"
        + "<rect x='30' y='70' width='660' height='52' rx='8' fill='#eef3f7' stroke='#2f5d7a'/>\n"
        + "<text x='44' y='90' font-family='sans-serif' font-size='14' font-weight='bold' fill='#2f5d7a'>(unnamed area)</text>\n"
        + "<text x='58' y='112' font-family='sans-serif' font-size='13'>• Sindarin</text>\n"
        + "<rect x='30' y='142' width='660' height='74' rx='8' fill='#eef3f7' stroke='#2f5d7a'/>\n"
        + "<text x='44' y='162' font-family='sans-serif' font-size='14' font-weight='bold' fill='#2f5d7a'>Aman</text>\n"
        + "<text x='58' y='184' font-family='sans-serif' font-size='13'>• Quenya  —  Alqualondë (Telerin), Tirion</text>\n"
        + "<text x='58' y='206' font-family='sans-serif' font-size='13'>• Telerin</text>\n"
        + "</svg>\n";
    assert_eq!(svg, expected);
    let escaped = ecology_svg(&vec![], &vec![ContactArea { region: s("A & <B>"), members: vec![] }]);
    assert!(escaped.contains(">A &amp; &lt;B&gt;</text>"));
    assert!(escaped.contains("viewBox='0 0 720 140'"));
}

#[test]
fn tutorial_brief_lists_each_present_section() {
    let mut grammar = Inflection::new();
    grammar.insert(s("word_order"), s("SOV"));
    grammar.insert(s("case"), s("nominative"));
    let facts = TutorialFacts {
        title: s("Quenya"),
        consonants: strings(&["t", "n"]),
        vowels: strings(&["a"]),
        stress: Some(s("Penultimate")),
        sound_changes: strings(&["t > d / V_V"]),
        vocabulary: vec![
            VocabularyItem { word: s("alda"), pos: s("noun"), translation: s("tree"), pronunciation: s("ˈal.da") },
            VocabularyItem { word: s("nen"), pos: s(""), translation: s("water"), pronunciation: s("") },
        ],
        morphemes: vec![MorphemeFact { gloss: s("PL"), kind: s("suffix"), realization: s("-r"), meaning: s("plural") }],
        derivations: vec![DerivationFact {
            name: s("agent"),
            from_pos: None,
            to_pos: s("noun"),
            form: s("-ro"),
            gloss: s("doer"),
        }],
        agreement: vec![],
        grammar,
        idioms: vec![IdiomFact { form: s("alda nen"), literal: s("tree water"), meaning: s("life") }],
        samples: vec![SampleFact {
            title: s("Greeting"),
            body: s("  Aiya!  "),
            gloss: vec![
                GlossItem { surface: s("Aiya"), gloss: Some(s("hail")) },
                GlossItem { surface: s("x"), gloss: None },
            ],
        }],
    };
    let expected = String::new()
        + "LANGUAGE: Quenya\n"
        + "CONSONANTS: t n\n"
        + "VOWELS: a\n"
        + "STRESS: Penultimate\n"
        + "SOUND CHANGES (notation `X > Y / context`, _ = the changing sound):\n"
        + "  t > d / V_V\n"
        + "\nVOCABULARY (word | part-of-speech | meaning | pronunciation):\n"
        + "  alda | noun | tree | ˈal.da\n"
        + "  nen | ? | water | \n"
        + "\nMORPHEMES (gloss | kind | realization | meaning):\n"
        + "  PL | suffix | -r | plural\n"
        + "\nWORD-BUILDING RULES (name | from part-of-speech | to part-of-speech | suffix | meaning):\n"
        + "  agent | any | noun | -ro | doer\n"
        + "\nGRAMMAR (typological features):\n"
        + "  case = nominative\n"
        + "  word_order = SOV\n"
        + "\nIDIOMS (phrase | literal | meaning):\n"
        + "  alda nen | tree water | life\n"
        + "\nSAMPLE TEXTS (use these for reading passages; word-by-word gloss follows each):\n"
        + "  [Greeting] Aiya!\n"
        + "    gloss: Aiya=hail  x=?\n";
    assert_eq!(tutorial_brief(&facts), expected);

    let bare = TutorialFacts {
        title: s("Q"),
        consonants: vec![],
        vowels: vec![],
        stress: None,
        sound_changes: vec![],
        vocabulary: vec![],
        morphemes: vec![],
        derivations: vec![],
        agreement: vec![],
        grammar: Inflection::new(),
        idioms: vec![],
        samples: vec![],
    };
    assert_eq!(
        tutorial_brief(&bare),
        "LANGUAGE: Q\n\nVOCABULARY (word | part-of-speech | meaning | pronunciation):\n"
    );
}

#[test]
fn join_inflection_lists_forms_in_name_order() {
    let mut m = Inflection::new();
    m.insert(s("case10"), s("y"));
    m.insert(s("case1"), s("x"));
    let joined = join_inflection(&m);
    assert_eq!(joined, "case1=x;case10=y");
    let back = parse_inflection_field(&joined);
    assert_eq!(back.len(), 2);
    assert_eq!((back.key_at(0).as_str(), back.value_at(0).as_str()), ("case1", "x"));
    assert_eq!((back.key_at(1).as_str(), back.value_at(1).as_str()), ("case10", "y"));
    assert_eq!(join_inflection(&Inflection::new()), "");
}

#[test]
fn phrasebook_cells_fall_back_to_the_body() {
    let doc = String::from_utf8(render_phrasebook("Q", &[(s("s1"), s("gloss: hello"))])).unwrap();
    assert!(doc.contains("[Gloss]\\\nhello]"));
    assert!(doc.contains("[Original]\\\ngloss: hello]"));
    let both = String::from_utf8(render_phrasebook("Q", &[(s("s2"), s("gloss: hi\noriginal: aiya"))])).unwrap();
    assert!(both.contains("[Gloss]\\\nhi]"));
    assert!(both.contains("[Original]\\\naiya]"));
}

#[test]
fn tutorial_needs_dictionary_entries() {
    assert!(tutorial_ready("Quenya", 3).is_ok());
    match tutorial_ready("Quenya", 0) {
        Err(LanguageError::Config(m)) => assert_eq!(m, "language `Quenya` has no dictionary entries to teach"),
        _ => panic!("expected a refusal"),
    }
}

#[test]
fn typst_escape_adds_one_backslash_per_markup_character() {
    let src = "a\\*_b";
    let out = typst_escape(src);
    assert_eq!(out, "a\\\\\\*\\_b");
    assert_eq!(out.chars().count(), src.chars().count() + 3);
    assert_ne!(typst_escape("\\*"), typst_escape("*"));
}
