//! Dictionary entries: the records the exports render and the CSV import
//! builds, and the HJSON paragraph bodies written for them.
use vstd::prelude::*;
use crate::inflection::Inflection;
use crate::seeds::{
    SEED_AFTER_EXAMPLE, SEED_AFTER_TRANSLATION, SEED_AFTER_TYPE, SEED_AFTER_WORD, SEED_CLOSING,
    SEED_OPENING,
};
use crate::text::{
    chars_of, join_seqs, push_all, push_str, replace, replace_char, string_of, trim_str,
    trim_ws,
};
use crate::text::strings_view;

verus! {

/// A parsed dictionary entry, as the exports read it.
pub struct DictionaryEntry {
    /// The headword.
    pub word: String,
    /// Part of speech (the HJSON `type` field).
    pub pos: String,
    /// Working-language gloss.
    pub translation: String,
    /// The canonical example sentence.
    pub example: String,
    /// Paradigm forms.
    pub inflection: Inflection,
}

impl Default for DictionaryEntry {
    /// An entry with every field empty.
    fn default() -> (e: DictionaryEntry)
        ensures
            e.word@ == Seq::<char>::empty(),
            e.pos@ == Seq::<char>::empty(),
            e.translation@ == Seq::<char>::empty(),
            e.example@ == Seq::<char>::empty(),
            e.inflection.pairs() == Seq::<(Seq<char>, Seq<char>)>::empty(),
    {
        DictionaryEntry {
            word: String::new(),
            pos: String::new(),
            translation: String::new(),
            example: String::new(),
            inflection: Inflection::new(),
        }
    }
}

/// The parsed `Meta/overview` paragraph of a language book.
pub struct MetaOverview {
    /// The language's own name for itself.
    pub name: String,
    /// What kind of language it is (a-priori, naturalistic, …).
    pub language_kind: String,
    /// The family it belongs to.
    pub family: String,
    /// An ISO 639-style code.
    pub iso_code: String,
    /// The letters of the alphabet, in alphabetical order.
    pub alphabet: Vec<String>,
    /// The writing direction.
    pub reading_direction: String,
    /// The stemmer the corpus tools use.
    pub stemmer: String,
    /// Where the example corpus lives.
    pub example_corpus_ref: String,
}

/// A fully populated entry built from an import row.
pub struct ImportEntry {
    /// The headword.
    pub word: String,
    /// Part of speech.
    pub pos: String,
    /// Working-language gloss.
    pub translation: String,
    /// The canonical example sentence.
    pub example: String,
    /// IPA transcription.
    pub pronunciation: String,
    /// Etymology or derivation.
    pub etymology: String,
    /// Related headwords.
    pub related: Vec<String>,
    /// Paradigm forms.
    pub inflection: Inflection,
    /// Further example sentences.
    pub examples: Vec<String>,
    /// Register or style.
    pub register: String,
    /// When the word entered the language.
    pub era: String,
    /// Free-form notes.
    pub notes: String,
    /// Semantic-domain tags.
    pub domain: Vec<String>,
}

impl Default for ImportEntry {
    /// An entry with every field empty.
    fn default() -> (e: ImportEntry)
        ensures
            e.word@ == Seq::<char>::empty(),
            e.pos@ == Seq::<char>::empty(),
            e.translation@ == Seq::<char>::empty(),
            e.example@ == Seq::<char>::empty(),
            e.pronunciation@ == Seq::<char>::empty(),
            e.etymology@ == Seq::<char>::empty(),
            e.related@ == Seq::<String>::empty(),
            e.inflection.pairs() == Seq::<(Seq<char>, Seq<char>)>::empty(),
            e.examples@ == Seq::<String>::empty(),
            e.register@ == Seq::<char>::empty(),
            e.era@ == Seq::<char>::empty(),
            e.notes@ == Seq::<char>::empty(),
            e.domain@ == Seq::<String>::empty(),
    {
        ImportEntry {
            word: String::new(),
            pos: String::new(),
            translation: String::new(),
            example: String::new(),
            pronunciation: String::new(),
            etymology: String::new(),
            related: Vec::new(),
            inflection: Inflection::new(),
            examples: Vec::new(),
            register: String::new(),
            era: String::new(),
            notes: String::new(),
            domain: Vec::new(),
        }
    }
}

// ───────────────────────── HJSON escaping ─────────────────────────────────

/// A string escaped for an HJSON double-quoted value: each backslash doubled,
/// then each double quote preceded by a backslash.
pub open spec fn hjson_escaped(s: Seq<char>) -> Seq<char> {
    replace_char(replace_char(s, '\\', seq!['\\', '\\']), '"', seq!['\\', '"'])
}

/// `hjson_escaped` on a character vector.
pub fn escape_chars(v: &Vec<char>) -> (r: Vec<char>)
    ensures
        r@ == hjson_escaped(v@),
{
    let mut bs: Vec<char> = Vec::new();
    bs.push('\\');
    bs.push('\\');
    assert(bs@ =~= seq!['\\', '\\']);
    let a = replace(v, '\\', &bs);
    let mut bq: Vec<char> = Vec::new();
    bq.push('\\');
    bq.push('"');
    assert(bq@ =~= seq!['\\', '"']);
    replace(&a, '"', &bq)
}

/// Minimal HJSON string escape: backslashes doubled, quotes backslashed.
pub fn escape_hjson(s: &str) -> (r: String)
    ensures
        r@ == hjson_escaped(s@),
{
    let v = chars_of(s);
    let e = escape_chars(&v);
    string_of(&e)
}

/// A value as an HJSON double-quoted string.
pub open spec fn hjson_quoted(v: Seq<char>) -> Seq<char> {
    seq!['"'] + hjson_escaped(v) + seq!['"']
}

/// One `label"value"` line of an entry body.
pub open spec fn quoted_line(label: Seq<char>, v: Seq<char>) -> Seq<char> {
    label + hjson_quoted(v) + seq!['\n']
}

/// A `quoted_line` that is left out when the value is empty.
pub open spec fn optional_line(label: Seq<char>, v: Seq<char>) -> Seq<char> {
    if v.len() == 0 {
        seq![]
    } else {
        quoted_line(label, v)
    }
}

/// Appends `hjson_quoted(v)`.
fn push_quoted(out: &mut Vec<char>, v: &str)
    ensures
        final(out)@ == old(out)@ + hjson_quoted(v@),
{
    let ghost start = out@;
    out.push('"');
    let e = escape_chars(&chars_of(v));
    push_all(out, &e);
    out.push('"');
    assert(out@ =~= start + hjson_quoted(v@));
}

/// Appends `quoted_line(label, v)`.
fn push_quoted_line(out: &mut Vec<char>, label: &str, v: &str)
    ensures
        final(out)@ == old(out)@ + quoted_line(label@, v@),
{
    let ghost start = out@;
    push_str(out, label);
    push_quoted(out, v);
    out.push('\n');
    assert(out@ =~= start + quoted_line(label@, v@));
}

/// Appends `optional_line(label, v)`.
fn push_optional_line(out: &mut Vec<char>, label: &str, v: &String)
    ensures
        final(out)@ == old(out)@ + optional_line(label@, v@),
{
    if !v.as_str().is_empty() {
        push_quoted_line(out, label, v.as_str());
    } else {
        assert(out@ =~= out@ + optional_line(label@, v@));
    }
}

// ───────────────────────── imported entry bodies ──────────────────────────

/// The character sequences of a list of strings.


/// The `examples` block lines: one indented quoted line per sentence.
pub open spec fn example_lines(xs: Seq<Seq<char>>) -> Seq<char>
    decreases xs.len(),
{
    if xs.len() == 0 {
        seq![]
    } else {
        example_lines(xs.drop_last()) + quoted_line("    "@, xs.last())
    }
}

/// A bracketed one-line list of quoted values, separated by `", "`.
pub open spec fn bracket_line(label: Seq<char>, xs: Seq<Seq<char>>) -> Seq<char> {
    label + seq!['['] + join_seqs(xs.map_values(|x: Seq<char>| hjson_quoted(x)), ", "@) + seq![
        ']',
        '\n',
    ]
}

/// The `inflection` block lines: `    name: "form"` per pair (the name is
/// written as is).
pub open spec fn inflection_lines(p: Seq<(Seq<char>, Seq<char>)>) -> Seq<char>
    decreases p.len(),
{
    if p.len() == 0 {
        seq![]
    } else {
        inflection_lines(p.drop_last()) + "    "@ + p.last().0 + ": "@ + hjson_quoted(p.last().1)
            + seq!['\n']
    }
}

/// The compact HJSON body written for an imported entry: the three core
/// fields always, every other field only when it is non-empty.
pub open spec fn imported_entry_body(e: &ImportEntry) -> Seq<char> {
    "{\n"@ + quoted_line("  word:         "@, e.word@) + quoted_line("  type:         "@, e.pos@)
        + quoted_line("  translation:  "@, e.translation@) + optional_line(
        "  example:      "@,
        e.example@,
    ) + (if e.examples@.len() == 0 {
        seq![]
    } else {
        "  examples: [\n"@ + example_lines(strings_view(e.examples@)) + "  ]\n"@
    }) + optional_line("  pronunciation: "@, e.pronunciation@) + optional_line(
        "  etymology:    "@,
        e.etymology@,
    ) + (if e.related@.len() == 0 {
        seq![]
    } else {
        bracket_line("  related:      "@, strings_view(e.related@))
    }) + (if e.inflection.pairs().len() == 0 {
        seq![]
    } else {
        "  inflection: {\n"@ + inflection_lines(e.inflection.pairs()) + "  }\n"@
    }) + optional_line("  register:     "@, e.register@) + optional_line(
        "  era:          "@,
        e.era@,
    ) + optional_line("  notes:        "@, e.notes@) + (if e.domain@.len() == 0 {
        seq![]
    } else {
        bracket_line("  domain:       "@, strings_view(e.domain@))
    }) + "}\n"@
}

/// The `examples` block lines for a list of sentences.
fn examples_block(xs: &Vec<String>) -> (r: Vec<char>)
    ensures
        r@ == example_lines(strings_view(xs@)),
{
    let mut r: Vec<char> = Vec::new();
    let mut i: usize = 0;
    while i < xs.len()
        invariant
            i <= xs.len(),
            r@ == example_lines(strings_view(xs@).take(i as int)),
        decreases xs.len() - i,
    {
        assert(strings_view(xs@).take(i + 1).drop_last() =~= strings_view(xs@).take(i as int));
        push_quoted_line(&mut r, "    ", xs[i].as_str());
        i = i + 1;
    }
    assert(strings_view(xs@).take(xs.len() as int) =~= strings_view(xs@));
    r
}

/// A bracketed one-line list of quoted values.
fn bracket_list(label: &str, xs: &Vec<String>) -> (r: Vec<char>)
    ensures
        r@ == bracket_line(label@, strings_view(xs@)),
{
    let mut r: Vec<char> = Vec::new();
    push_str(&mut r, label);
    r.push('[');
    let ghost start = r@;
    let ghost items = strings_view(xs@).map_values(|x: Seq<char>| hjson_quoted(x));
    let mut i: usize = 0;
    while i < xs.len()
        invariant
            i <= xs.len(),
            items == strings_view(xs@).map_values(|x: Seq<char>| hjson_quoted(x)),
            r@ == start + join_seqs(items.take(i as int), ", "@),
        decreases xs.len() - i,
    {
        let ghost before = r@;
        assert(items.take(i + 1).drop_last() =~= items.take(i as int));
        if i > 0 {
            push_str(&mut r, ", ");
        }
        push_quoted(&mut r, xs[i].as_str());
        assert(items[i as int] == hjson_quoted(xs@[i as int]@));
        if i == 0 {
            assert(join_seqs(items.take(1), ", "@) == items.take(1)[0]);
            assert(r@ =~= start + join_seqs(items.take(1), ", "@));
        } else {
            assert(r@ =~= start + join_seqs(items.take(i + 1), ", "@));
        }
        i = i + 1;
    }
    assert(items.take(xs.len() as int) =~= items);
    r.push(']');
    r.push('\n');
    assert(r@ =~= bracket_line(label@, strings_view(xs@)));
    r
}

/// The `inflection` block lines for a set of forms.
fn inflection_block(m: &Inflection) -> (r: Vec<char>)
    ensures
        r@ == inflection_lines(m.pairs()),
{
    let mut r: Vec<char> = Vec::new();
    let mut i: usize = 0;
    while i < m.len()
        invariant
            i <= m.pairs().len(),
            r@ == inflection_lines(m.pairs().take(i as int)),
        decreases m.pairs().len() - i,
    {
        let ghost before = r@;
        assert(m.pairs().take(i + 1).drop_last() =~= m.pairs().take(i as int));
        assert(m.pairs().take(i + 1).last() == m.pairs()[i as int]);
        push_str(&mut r, "    ");
        push_str(&mut r, m.key_at(i).as_str());
        push_str(&mut r, ": ");
        push_quoted(&mut r, m.value_at(i).as_str());
        r.push('\n');
        assert(r@ =~= before + "    "@ + m.pairs()[i as int].0 + ": "@ + hjson_quoted(
            m.pairs()[i as int].1,
        ) + seq!['\n']);
        i = i + 1;
    }
    assert(m.pairs().take(m.pairs().len() as int) =~= m.pairs());
    r
}

/// The `examples` section: empty when there are no further examples.
fn examples_section(xs: &Vec<String>) -> (r: Vec<char>)
    ensures
        r@ == (if xs@.len() == 0 {
            seq![]
        } else {
            "  examples: [\n"@ + example_lines(strings_view(xs@)) + "  ]\n"@
        }),
{
    let mut r: Vec<char> = Vec::new();
    if xs.len() != 0 {
        push_str(&mut r, "  examples: [\n");
        let b = examples_block(xs);
        push_all(&mut r, &b);
        push_str(&mut r, "  ]\n");
        assert(r@ =~= "  examples: [\n"@ + example_lines(strings_view(xs@)) + "  ]\n"@);
    } else {
        assert(r@ =~= Seq::<char>::empty());
    }
    r
}

/// A bracketed list line, or nothing when the list is empty.
fn list_section(label: &str, xs: &Vec<String>) -> (r: Vec<char>)
    ensures
        r@ == (if xs@.len() == 0 {
            seq![]
        } else {
            bracket_line(label@, strings_view(xs@))
        }),
{
    if xs.len() != 0 {
        bracket_list(label, xs)
    } else {
        let r: Vec<char> = Vec::new();
        assert(r@ =~= Seq::<char>::empty());
        r
    }
}

/// The `inflection` section: empty when there are no forms.
fn inflection_section(m: &Inflection) -> (r: Vec<char>)
    ensures
        r@ == (if m.pairs().len() == 0 {
            seq![]
        } else {
            "  inflection: {\n"@ + inflection_lines(m.pairs()) + "  }\n"@
        }),
{
    let mut r: Vec<char> = Vec::new();
    if !m.is_empty() {
        push_str(&mut r, "  inflection: {\n");
        let b = inflection_block(m);
        push_all(&mut r, &b);
        push_str(&mut r, "  }\n");
        assert(r@ =~= "  inflection: {\n"@ + inflection_lines(m.pairs()) + "  }\n"@);
    } else {
        assert(r@ =~= Seq::<char>::empty());
    }
    r
}

/// Compact concrete HJSON for an imported entry: only the populated fields.
pub fn build_imported_entry_body(entry: &ImportEntry) -> (body: String)
    ensures
        body@ == imported_entry_body(entry),
{
    let mut out: Vec<char> = Vec::new();
    push_str(&mut out, "{\n");
    assert(out@ =~= "{\n"@);
    push_quoted_line(&mut out, "  word:         ", entry.word.as_str());
    push_quoted_line(&mut out, "  type:         ", entry.pos.as_str());
    push_quoted_line(&mut out, "  translation:  ", entry.translation.as_str());
    push_optional_line(&mut out, "  example:      ", &entry.example);
    push_all(&mut out, &examples_section(&entry.examples));
    push_optional_line(&mut out, "  pronunciation: ", &entry.pronunciation);
    push_optional_line(&mut out, "  etymology:    ", &entry.etymology);
    push_all(&mut out, &list_section("  related:      ", &entry.related));
    push_all(&mut out, &inflection_section(&entry.inflection));
    push_optional_line(&mut out, "  register:     ", &entry.register);
    push_optional_line(&mut out, "  era:          ", &entry.era);
    push_optional_line(&mut out, "  notes:        ", &entry.notes);
    push_all(&mut out, &list_section("  domain:       ", &entry.domain));
    push_str(&mut out, "}\n");
    string_of(&out)
}

// ───────────────────────── seeded entry bodies ────────────────────────────

/// The decimal digits of `n`.
pub open spec fn decimal(n: nat) -> Seq<char>
    decreases n,
{
    if n < 10 {
        seq![(n + 48) as char]
    } else {
        decimal(n / 10).push(((n % 10) + 48) as char)
    }
}

/// The decimal digits of `n` (what `{}` formats a `usize` as).
pub fn decimal_digits(n: usize) -> (r: Vec<char>)
    ensures
        r@ == decimal(n as nat),
    decreases n,
{
    let d = (n % 10) as u8;
    let c = (d + 48) as char;
    if n < 10 {
        let mut r: Vec<char> = Vec::new();
        r.push(c);
        assert(r@ =~= seq![c]);
        r
    } else {
        let mut r = decimal_digits(n / 10);
        r.push(c);
        r
    }
}

/// The `stress` field line written when the author gives a stressed syllable.
pub open spec fn stress_line(stress: Option<usize>) -> Seq<char> {
    match stress {
        Some(n) => "// Stressed syllable (1-based) — lexical stress for verse scansion.\n  stress:       "@
            + decimal(n as nat) + "\n  \n  "@,
        None => seq![],
    }
}

/// The commented HJSON template seeded for a new dictionary entry: the core
/// fields filled in (escaped; the example trimmed, empty when absent), the
/// optional fields shown as comments, a `stress` field when one is given.
pub open spec fn seeded_entry_body(
    word: Seq<char>,
    pos: Seq<char>,
    translation: Seq<char>,
    example: Option<Seq<char>>,
    stress: Option<usize>,
) -> Seq<char> {
    let ex = match example {
        Some(e) => trim_ws(e),
        None => seq![],
    };
    SEED_OPENING@ + hjson_escaped(word) + SEED_AFTER_WORD@ + hjson_escaped(pos)
        + SEED_AFTER_TYPE@ + hjson_escaped(translation) + SEED_AFTER_TRANSLATION@ + hjson_escaped(
        ex,
    ) + SEED_AFTER_EXAMPLE@ + stress_line(stress) + SEED_CLOSING@
}

/// The view of an optional string slice.
pub open spec fn opt_view(s: Option<&str>) -> Option<Seq<char>> {
    match s {
        Some(x) => Some(x@),
        None => None,
    }
}

/// The seeded body for a freshly added dictionary entry, with an optional
/// lexical-stress field.
pub fn seed_dictionary_entry_body_with_stress(
    word: &str,
    pos: &str,
    translation: &str,
    example: Option<&str>,
    stress: Option<usize>,
) -> (body: String)
    ensures
        body@ == seeded_entry_body(word@, pos@, translation@, opt_view(example), stress),
{
    let ex = match example {
        Some(e) => trim_str(e),
        None => Vec::new(),
    };
    let mut out: Vec<char> = Vec::new();
    push_str(&mut out, SEED_OPENING);
    push_all(&mut out, &escape_chars(&chars_of(word)));
    push_str(&mut out, SEED_AFTER_WORD);
    push_all(&mut out, &escape_chars(&chars_of(pos)));
    push_str(&mut out, SEED_AFTER_TYPE);
    push_all(&mut out, &escape_chars(&chars_of(translation)));
    push_str(&mut out, SEED_AFTER_TRANSLATION);
    push_all(&mut out, &escape_chars(&ex));
    push_str(&mut out, SEED_AFTER_EXAMPLE);
    match stress {
        Some(n) => {
            push_str(
                &mut out,
                "// Stressed syllable (1-based) — lexical stress for verse scansion.\n  stress:       ",
            );
            push_all(&mut out, &decimal_digits(n));
            push_str(&mut out, "\n  \n  ");
        },
        None => {},
    }
    push_str(&mut out, SEED_CLOSING);
    assert(out@ =~= seeded_entry_body(word@, pos@, translation@, opt_view(example), stress));
    string_of(&out)
}

/// The seeded body for a freshly added dictionary entry.
pub fn seed_dictionary_entry_body(
    word: &str,
    pos: &str,
    translation: &str,
    example: Option<&str>,
) -> (body: String)
    ensures
        body@ == seeded_entry_body(word@, pos@, translation@, opt_view(example), None),
{
    seed_dictionary_entry_body_with_stress(word, pos, translation, example, None)
}

} // verus!
