//! The `language` subcommand family: its parsed arguments and the dispatch
//! that turns them into the operation to run.
//!
//! Paths are carried as their text; a floating-point argument is carried as
//! its IEEE-754 bit pattern.
use vstd::prelude::*;
use crate::error::LanguageError;

verus! {

/// Where `language import` reads a foreign dictionary from.
pub enum LanguageImportFormat {
    /// A Toolbox / MDF standard-format-marker file.
    Toolbox,
    /// A PolyGlot dictionary (`.pgd` archive or bare XML).
    Polyglot,
}

/// The artefact that `language export` writes.
pub enum LanguageExportFormat {
    Json,
    Anki,
    DictionaryTwocol,
    Csv,
    Grammar,
    Phrasebook,
    Xliff,
    Linguex,
    IpaChart,
}

/// One `language …` subcommand with its arguments.
#[allow(inconsistent_fields)]
pub enum LanguageCommand {
    Init { name: String },
    AddWord {
        language: String,
        word: Option<String>,
        pos: Option<String>,
        translation: Option<String>,
        example: Option<String>,
        import: Option<String>,
        new: bool,
        force: bool,
    },
    Import { language: String, file: String, format: LanguageImportFormat, yes: bool },
    Gaps { language: String, scope: String, json: bool },
    Compose {
        language: String,
        kind: String,
        count: usize,
        seed: u64,
        meter: String,
        provider: Option<String>,
    },
    Doctor { language: String, json: bool },
    Export { language: String, format: LanguageExportFormat, output: Option<String> },
    List,
    RemoveWord { language: String, word: String },
    DefineRule { language: String, rule_id: String, category: String },
    GenerateWord { language: String, role: String, count: usize },
    Syllabify { language: String, word: String },
    Ipa { language: String, word: String },
    Stress { language: String, word: String },
    Romanize { language: String, text: String, scheme: Option<String>, reverse: bool },
    Tone { language: String, tones: String },
    Audit { language: String, json: bool },
    Stats { language: String, json: bool },
    Metrics { language: String, json: bool },
    Universals { language: String, json: bool },
    GrammarCheck { language: String, json: bool },
    Pairs { language: String, limit: usize, json: bool },
    Naturalness { language: String, json: bool },
    Harmony { language: String, json: bool },
    Distribution { language: String, json: bool },
    Sketch { language: String, out: Option<String> },
    SuggestPhonemes { language: String, json: bool },
    Scaffold { from: String, out: Option<String>, provider: Option<String> },
    Parse { language: String, word: String, json: bool },
    Link {
        language: String,
        verb: String,
        args: Vec<String>,
        valence: Option<String>,
        json: bool,
    },
    Check { language: String, word: String, json: bool },
    CheckClause {
        language: String,
        verb: String,
        args: Vec<String>,
        verb_root: Option<String>,
        subject_features: Option<String>,
        valence: Option<String>,
        json: bool,
    },
    CheckAgreement {
        language: String,
        dependent: String,
        form: String,
        root: String,
        head_features: String,
        json: bool,
    },
    Tree {
        language: String,
        verb: String,
        args: Vec<String>,
        word_order: Option<String>,
        json: bool,
    },
    Movement {
        language: String,
        verb: String,
        args: Vec<String>,
        moved: String,
        word_order: Option<String>,
        json: bool,
    },
    Binding {
        language: String,
        verb: String,
        args: Vec<String>,
        antecedent: String,
        anaphor: String,
        binding_type: String,
        word_order: Option<String>,
        json: bool,
    },
    Trace { language: String, rule: String, limit: usize, json: bool },
    Dictionary { language: String, format: String, out: Option<String>, font: Option<String> },
    GrammarBook {
        language: String,
        format: String,
        out: Option<String>,
        font: Option<String>,
        study: bool,
        provider: Option<String>,
    },
    Tutorial {
        language: String,
        format: String,
        out: Option<String>,
        font: Option<String>,
        provider: Option<String>,
    },
    LinkPlace { place: String, language: String, secondary: bool, variety: Option<String> },
    LinkCharacter {
        character: String,
        language: String,
        proficiency: String,
        native_variety: Option<String>,
    },
    Speakers { language: String },
    Ecology { svg: Option<String> },
    Idiolect { character: String, word: Option<String>, text: Option<String> },
    ScanManuscript { language: String, json: bool },
    Paradigm { language: String, root: String, template: String, gloss: Option<String> },
    Sentence {
        language: String,
        subject: Option<String>,
        subject_number: String,
        subject_person: String,
        subject_adj: Option<String>,
        verb: Option<String>,
        object: Option<String>,
        object_number: String,
        object_adj: Option<String>,
        noun_paradigm: String,
        verb_paradigm: String,
        negate: bool,
        negator: Option<String>,
        question: bool,
        q_particle: Option<String>,
    },
    Translate { language: String, text: String, trace: bool, json: bool },
    Reverse { language: String, text: String, json: bool },
    Cross { from: String, to: String, text: String, json: bool },
    Remember { language: String, english: String, conlang: String },
    Memory { language: String },
    Corpus {
        language: String,
        pool: Option<String>,
        limit: Option<usize>,
        yes: bool,
        json: bool,
    },
    Eval { language: String, test_set: Option<String>, limit: Option<usize>, json: bool },
    ExportTranslation { language: String, out: Option<String> },
    Relative {
        language: String,
        head: String,
        role: String,
        verb: String,
        with: Option<String>,
        relativizer: Option<String>,
        noun_paradigm: String,
        verb_paradigm: String,
    },
    Coordinate {
        language: String,
        clauses: Vec<String>,
        nps: Vec<String>,
        conjunction: Option<String>,
        noun_paradigm: String,
        verb_paradigm: String,
    },
    Complement {
        language: String,
        subject: Option<String>,
        subject_person: String,
        subject_number: String,
        verb: String,
        complementizer: Option<String>,
        comp_subject: Option<String>,
        comp_verb: String,
        comp_object: Option<String>,
        noun_paradigm: String,
        verb_paradigm: String,
    },
    Agree {
        language: String,
        word: String,
        pos: String,
        features: String,
        gloss: Option<String>,
    },
    Varieties { language: String },
    Lect { language: String, variety: String, word: Option<String>, text: Option<String> },
    Dialects { language: String, count: usize },
    Borrow {
        language: String,
        form: String,
        from: Option<String>,
        gloss: Option<String>,
        pos: String,
        yes: bool,
    },
    Areal { language: Option<String> },
    ProposeDialect {
        language: String,
        describe: String,
        id: Option<String>,
        provider: Option<String>,
        yes: bool,
    },
    ArealCheck { language: String, provider: Option<String> },
    ProposeLoans {
        language: String,
        from: String,
        topic: Option<String>,
        count: usize,
        provider: Option<String>,
    },
    Gloss { language: String, text: String },
    Igt { language: String, text: String, save: bool, name: Option<String>, json: bool },
    Texts {
        language: String,
        name: Option<String>,
        set_translation: Option<String>,
        format: String,
        json: bool,
    },
    Frequency { language: String, lemma: bool, top: usize, json: bool },
    Concordance { language: String, word: String, lemma: bool, window: usize, json: bool },
    Collocations {
        language: String,
        word: String,
        lemma: bool,
        window: usize,
        top: usize,
        json: bool,
    },
    Grammar { language: String, set: Option<String>, json: bool },
    IdiomAdd {
        language: String,
        form: String,
        literal: Option<String>,
        meaning: String,
        register: Option<String>,
    },
    MetaphorAdd { language: String, source: String, target: String, example: Option<String> },
    Idioms { language: String },
    FontBuild {
        family: Option<String>,
        language: Option<String>,
        glyphs: Option<String>,
        out: Option<String>,
        upm_bits: Option<u64>,
        format: String,
    },
    FontImportGlyph {
        language: String,
        svg: String,
        phoneme: Option<String>,
        codepoint: Option<String>,
        name: Option<String>,
    },
    FontConfig { language: String, json: bool },
    FontTemplates { language: String },
    FontCompose {
        language: String,
        template: String,
        name: String,
        codepoint: Option<String>,
        phoneme: Option<String>,
        slots: Vec<String>,
        out: Option<String>,
        yes: bool,
    },
    SpatialTypst {
        language: String,
        template: String,
        name: String,
        slots: Vec<String>,
        size: String,
        out: Option<String>,
    },
    Transliterate { language: String, text: String, json: bool },
    GlyphDraft {
        language: String,
        describe: String,
        phoneme: Option<String>,
        codepoint: Option<String>,
        name: Option<String>,
        provider: Option<String>,
        out: Option<String>,
        yes: bool,
    },
    GlyphLint { svg: String },
    Reconstruct { forms: String, gloss: Option<String>, provider: Option<String> },
    RealismCheck { language: String, provider: Option<String> },
    FamilyTree,
    Cognates { proto: String, form: String },
    SoundChange { language: String, form: String },
    DeriveLexicon { language: String, yes: bool },
    Derive {
        language: String,
        root: String,
        gloss: Option<String>,
        pos: Option<String>,
        yes: bool,
    },
    Query {
        language: String,
        register: Option<String>,
        domain: Option<String>,
        era: Option<String>,
        pos: Option<String>,
        text: Option<String>,
        json: bool,
    },
    GenerateLexicon {
        language: String,
        topic: Option<String>,
        count: usize,
        era: Option<String>,
        register: Option<String>,
        provider: Option<String>,
        semantic: bool,
        semantic_threshold_bits: u32,
        yes: bool,
    },
}

/// What a `language` subcommand resolves to.
pub enum Invocation {
    /// Bulk-load a CSV dictionary into the language.
    ImportCsv { language: String, csv_path: String, new: bool, force: bool },
    /// Add one dictionary entry.
    AddWord {
        language: String,
        word: String,
        pos: String,
        translation: String,
        example: Option<String>,
    },
    /// Every other subcommand goes to its handler with its arguments as given.
    Handler(LanguageCommand),
}

/// The refusal of a single `add-word` that has no word.
pub const MISSING_WORD: &'static str = "missing <WORD> — pass a word argument OR use --import <PATH>";

/// The refusal of a single `add-word` that has no part of speech.
pub const MISSING_TYPE: &'static str = "missing --type — pass a part-of-speech OR use --import";

/// The refusal of a single `add-word` that has no gloss.
pub const MISSING_TRANSLATION: &'static str =
    "missing --translation — pass a working-language gloss OR use --import";

/// Resolves a subcommand. `add-word` with `--import` becomes a CSV import;
/// without it, the word, its type and its translation are each required, in
/// that order. Every other subcommand is handed on unchanged.
pub fn run(cmd: LanguageCommand) -> (r: Result<Invocation, LanguageError>)
    ensures
        match cmd {
            LanguageCommand::AddWord {
                language,
                word,
                pos,
                translation,
                example,
                import,
                new,
                force,
            } => match import {
                Some(p) => r == Ok::<Invocation, LanguageError>(
                    Invocation::ImportCsv { language, csv_path: p, new, force },
                ),
                None => match (word, pos, translation) {
                    (Some(w), Some(t), Some(g)) => r == Ok::<Invocation, LanguageError>(
                        Invocation::AddWord { language, word: w, pos: t, translation: g, example },
                    ),
                    (None, _, _) => r matches Err(LanguageError::Config(m)) && m@ == MISSING_WORD@,
                    (Some(_), None, _) => r matches Err(LanguageError::Config(m)) && m@
                        == MISSING_TYPE@,
                    (Some(_), Some(_), None) => r matches Err(LanguageError::Config(m)) && m@
                        == MISSING_TRANSLATION@,
                },
            },
            _ => r == Ok::<Invocation, LanguageError>(Invocation::Handler(cmd)),
        },
{
    match cmd {
        LanguageCommand::AddWord {
            language,
            word,
            pos,
            translation,
            example,
            import,
            new,
            force,
        } => {
            if let Some(csv_path) = import {
                return Ok(Invocation::ImportCsv { language, csv_path, new, force });
            }
            let word = match word {
                Some(w) => w,
                None => return Err(LanguageError::Config(String::from_str(MISSING_WORD))),
            };
            let pos = match pos {
                Some(t) => t,
                None => return Err(LanguageError::Config(String::from_str(MISSING_TYPE))),
            };
            let translation = match translation {
                Some(g) => g,
                None => return Err(LanguageError::Config(String::from_str(MISSING_TRANSLATION))),
            };
            Ok(Invocation::AddWord { language, word, pos, translation, example })
        },
        other => Ok(Invocation::Handler(other)),
    }
}

} // verus!
