//! The text the translation commands print around the engine's result:
//! the word-order label, the gloss line of a reverse translation, the notes
//! on words the lexicon lacks, the alternatives, the trace, and the pivot
//! lines of a cross-translation.
use vstd::prelude::*;
use crate::entry::{decimal, decimal_digits};
use crate::inflection::{pairs_map, Inflection};
use crate::text::{
    chars_of, join_seqs, join_strings, push_all, push_line, push_str, str_to_uppercase, string_of,
    strings_view, unicode_str_uppercase,
};

verus! {

/// The word order a typology declares, `svo` when it declares none.
pub open spec fn declared_order(typology: Seq<(Seq<char>, Seq<char>)>) -> Seq<char> {
    if pairs_map(typology).contains_key("word_order"@) {
        pairs_map(typology)["word_order"@]
    } else {
        "svo"@
    }
}

/// The word order shown after a translation: the declared order,
/// uppercased.
pub fn word_order_label(typology: &Inflection) -> (r: String)
    ensures
        r@ == unicode_str_uppercase(declared_order(typology.pairs())),
{
    match typology.get("word_order") {
        Some(o) => str_to_uppercase(o.as_str()),
        None => str_to_uppercase("svo"),
    }
}

/// A word with its gloss, as `word=gloss`.
pub open spec fn gloss_pair(p: (Seq<char>, Seq<char>)) -> Seq<char> {
    p.0 + "="@ + p.1
}

/// The gloss line of a reverse translation: every `word=gloss`, two spaces
/// apart, indented.
pub open spec fn reverse_gloss_text(words: Seq<(String, String)>) -> Seq<char> {
    "  "@ + join_seqs(words.map_values(|p: (String, String)| gloss_pair((p.0@, p.1@))), "  "@)
}

/// Prints the words of a reverse translation with their glosses.
pub fn reverse_gloss_line(words: &Vec<(String, String)>) -> (r: String)
    ensures
        r@ == reverse_gloss_text(words@),
{
    let mut parts: Vec<String> = Vec::new();
    let mut i: usize = 0;
    while i < words.len()
        invariant
            i <= words@.len(),
            strings_view(parts@) == words@.take(i as int).map_values(
                |p: (String, String)| gloss_pair((p.0@, p.1@)),
            ),
        decreases words@.len() - i,
    {
        let mut t = chars_of(words[i].0.as_str());
        push_str(&mut t, "=");
        push_str(&mut t, words[i].1.as_str());
        let ghost before = strings_view(parts@);
        push_line(&mut parts, &t);
        assert(words@.take(i + 1).map_values(|p: (String, String)| gloss_pair((p.0@, p.1@)))
            =~= words@.take(i as int).map_values(|p: (String, String)| gloss_pair((p.0@, p.1@))).push(
            t@,
        ));
        i = i + 1;
    }
    assert(words@.take(words@.len() as int) =~= words@);
    let mut r = chars_of("  ");
    push_all(&mut r, &join_strings(&parts, "  "));
    string_of(&r)
}

/// The note after a forward translation that left words unresolved.
pub fn unresolved_note(language: &str, unresolved: &Vec<String>) -> (r: String)
    ensures
        r@ == "\nnot in "@ + language@ + "'s lexicon: "@ + join_seqs(strings_view(unresolved@), ", "@)
            + " — coin them, or add with `language add-word`"@,
{
    let mut m = chars_of("\nnot in ");
    push_str(&mut m, language);
    push_str(&mut m, "'s lexicon: ");
    push_all(&mut m, &join_strings(unresolved, ", "));
    push_str(&mut m, " — coin them, or add with `language add-word`");
    string_of(&m)
}

/// The note after a reverse translation that left words unresolved.
pub fn reverse_unresolved_note(language: &str, unresolved: &Vec<String>) -> (r: String)
    ensures
        r@ == "\nnot in "@ + language@ + "'s lexicon: "@ + join_seqs(strings_view(unresolved@), ", "@),
{
    let mut m = chars_of("\nnot in ");
    push_str(&mut m, language);
    push_str(&mut m, "'s lexicon: ");
    push_all(&mut m, &join_strings(unresolved, ", "));
    string_of(&m)
}

/// The note after a cross-translation that lost words in the pivot.
pub fn pivot_note(unresolved: &Vec<String>) -> (r: String)
    ensures
        r@ == "\nlost in pivot: "@ + join_seqs(strings_view(unresolved@), ", "@),
{
    let mut m = chars_of("\nlost in pivot: ");
    push_all(&mut m, &join_strings(unresolved, ", "));
    string_of(&m)
}

/// An alternative rendering with its rationale.
pub fn alternative_line(text: &str, rationale: &str) -> (r: String)
    ensures
        r@ == "  alt: "@ + text@ + "  ("@ + rationale@ + ")"@,
{
    let mut m = chars_of("  alt: ");
    push_str(&mut m, text);
    push_str(&mut m, "  (");
    push_str(&mut m, rationale);
    push_str(&mut m, ")");
    string_of(&m)
}

/// How the engine rendered a source word.
pub enum Decision {
    /// Found in the lexicon as the word, with its part of speech.
    LexiconLookup { word: String, pos: String },
    /// Passed through untranslated.
    Untranslatable,
}

/// What the trace says of a decision.
pub open spec fn decision_words(d: Decision) -> Seq<char> {
    match d {
        Decision::LexiconLookup { word, pos } => "lexicon → "@ + word@ + " ("@ + pos@ + ")"@,
        Decision::Untranslatable => "untranslatable (passed through)"@,
    }
}

/// Describes a decision for the trace.
pub fn decision_text(d: &Decision) -> (r: String)
    ensures
        r@ == decision_words(*d),
{
    match d {
        Decision::LexiconLookup { word, pos } => {
            let mut m = chars_of("lexicon → ");
            push_str(&mut m, word.as_str());
            push_str(&mut m, " (");
            push_str(&mut m, pos.as_str());
            push_str(&mut m, ")");
            string_of(&m)
        },
        Decision::Untranslatable => String::from_str("untranslatable (passed through)"),
    }
}

/// The three lines of a cross-translation below its header: the source in
/// the first language, the English pivot, and the target in the second.
pub fn pivot_lines(from: &str, to: &str, source: &str, english: &str, target: &str) -> (r: Vec<String>)
    ensures
        strings_view(r@) == seq![
            "  "@ + source@ + "  ("@ + from@ + ")"@,
            "  ↓ "@ + english@,
            "  "@ + target@ + "  ("@ + to@ + ")"@,
        ],
{
    let mut r: Vec<String> = Vec::new();
    let mut a = chars_of("  ");
    push_str(&mut a, source);
    push_str(&mut a, "  (");
    push_str(&mut a, from);
    push_str(&mut a, ")");
    push_line(&mut r, &a);
    let mut b = chars_of("  ↓ ");
    push_str(&mut b, english);
    push_line(&mut r, &b);
    let mut c = chars_of("  ");
    push_str(&mut c, target);
    push_str(&mut c, "  (");
    push_str(&mut c, to);
    push_str(&mut c, ")");
    push_line(&mut r, &c);
    assert(strings_view(r@) =~= seq![
        "  "@ + source@ + "  ("@ + from@ + ")"@,
        "  ↓ "@ + english@,
        "  "@ + target@ + "  ("@ + to@ + ")"@,
    ]);
    r
}

/// The text of the output-pane message a translation sends: source, arrow,
/// target.
pub fn translation_message(source: &str, target: &str) -> (r: String)
    ensures
        r@ == source@ + "  →  "@ + target@,
{
    let mut m = chars_of(source);
    push_str(&mut m, "  →  ");
    push_str(&mut m, target);
    string_of(&m)
}

/// The text of the warning a translation with unresolved words sends: how
/// many there are, then the words.
pub fn uncovered_report(unresolved: &Vec<String>) -> (r: String)
    ensures
        r@ == decimal(unresolved@.len()) + " word(s) uncovered: "@ + join_seqs(
            strings_view(unresolved@),
            ", "@,
        ),
{
    let mut m = decimal_digits(unresolved.len());
    push_str(&mut m, " word(s) uncovered: ");
    push_all(&mut m, &join_strings(unresolved, ", "));
    string_of(&m)
}

} // verus!
