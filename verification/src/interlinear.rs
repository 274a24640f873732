//! Interlinear text: surface words aligned over their glosses, as the
//! sentence builders, the translator and the glosser print them.
use vstd::prelude::*;
use crate::entry::{decimal, decimal_digits, DictionaryEntry};
use crate::text::{
    chars_eq_ignore_ascii_case, eq_ignore_ascii_case, chars_of, find, find_char, pad_right, push_all, push_padded, push_str, string_of, subvec,
    trim, trim_end, trim_end_ws, trim_ws,
};

verus! {

/// A rendered clause: its surface text, its words with their glosses, and
/// its literal translation.
pub struct RenderedClause {
    pub surface: String,
    pub words: Vec<(String, String)>,
    pub literal: String,
}

/// A word of a clause: its root and its gloss.
pub struct Word {
    pub root: String,
    pub gloss: String,
}

/// A `root:gloss` argument split at its first colon, both sides trimmed;
/// without a colon the trimmed text is both root and gloss.
pub fn parse_word(s: &str) -> (w: Word)
    ensures
        ({
            let i = find_char(s@, ':');
            if i < s@.len() {
                w.root@ == trim_ws(s@.take(i)) && w.gloss@ == trim_ws(s@.skip(i + 1))
            } else {
                w.root@ == trim_ws(s@) && w.gloss@ == trim_ws(s@)
            }
        }),
{
    let v = chars_of(s);
    let i = find(&v, ':', 0);
    assert(v@.skip(0) =~= v@);
    if i < v.len() {
        let root = trim(&subvec(&v, 0, i));
        let gloss = trim(&subvec(&v, i + 1, v.len()));
        assert(v@.subrange(0, i as int) =~= v@.take(i as int));
        assert(v@.subrange(i + 1, v@.len() as int) =~= v@.skip(i + 1));
        Word { root: string_of(&root), gloss: string_of(&gloss) }
    } else {
        let t = trim(&v);
        Word { root: string_of(&t), gloss: string_of(&t) }
    }
}

/// The column a word and its gloss share: the longer of the two plus two.
pub open spec fn column_width(w: Seq<char>, g: Seq<char>) -> nat {
    (if w.len() >= g.len() {
        w.len()
    } else {
        g.len()
    }) + 2
}

/// Every word (`top`) or every gloss padded to its column, concatenated.
pub open spec fn aligned(words: Seq<(Seq<char>, Seq<char>)>, top: bool) -> Seq<char>
    decreases words.len(),
{
    if words.len() == 0 {
        seq![]
    } else {
        let p = words.last();
        aligned(words.drop_last(), top) + pad_right(
            if top {
                p.0
            } else {
                p.1
            },
            column_width(p.0, p.1),
        )
    }
}

/// The character sequences of word/gloss pairs.
pub open spec fn word_pairs(v: Seq<(String, String)>) -> Seq<(Seq<char>, Seq<char>)> {
    v.map_values(|p: (String, String)| (p.0@, p.1@))
}

/// Every word and gloss is short enough that its column width is a `usize`.
pub open spec fn widths_fit(words: Seq<(Seq<char>, Seq<char>)>) -> bool {
    forall|i: int|
        0 <= i < words.len() ==> (#[trigger] words[i]).0.len() + 2 <= usize::MAX && words[i].1.len()
            + 2 <= usize::MAX
}

/// The two aligned lines: words on top, glosses below.
pub fn aligned_lines(words: &Vec<(String, String)>) -> (r: (Vec<char>, Vec<char>))
    requires
        widths_fit(word_pairs(words@)),
    ensures
        r.0@ == aligned(word_pairs(words@), true),
        r.1@ == aligned(word_pairs(words@), false),
{
    let ghost ws = word_pairs(words@);
    let mut top: Vec<char> = Vec::new();
    let mut bottom: Vec<char> = Vec::new();
    let mut i: usize = 0;
    while i < words.len()
        invariant
            i <= words@.len(),
            ws == word_pairs(words@),
            widths_fit(ws),
            top@ == aligned(ws.take(i as int), true),
            bottom@ == aligned(ws.take(i as int), false),
        decreases words@.len() - i,
    {
        let w = chars_of(words[i].0.as_str());
        let g = chars_of(words[i].1.as_str());
        assert(ws[i as int] == (words@[i as int].0@, words@[i as int].1@));
        let width = if w.len() >= g.len() {
            w.len() + 2
        } else {
            g.len() + 2
        };
        push_padded(&mut top, &w, width);
        push_padded(&mut bottom, &g, width);
        assert(ws.take(i + 1).drop_last() =~= ws.take(i as int));
        assert(ws.take(i + 1).last() == ws[i as int]);
        i = i + 1;
    }
    assert(ws.take(words@.len() as int) =~= ws);
    (top, bottom)
}

/// A clause as composed prose prints it: the surface text, then the aligned
/// words and glosses (each indented, trailing spaces dropped), then the
/// literal translation in curly quotes.
pub open spec fn clause_text(surface: Seq<char>, words: Seq<(Seq<char>, Seq<char>)>, literal: Seq<char>) -> Seq<char> {
    surface + "\n  "@ + trim_end_ws(aligned(words, true)) + "\n  "@ + trim_end_ws(aligned(words, false))
        + "\n  ‘"@ + literal + "’"@
}

/// Formats a rendered clause for the composed-prose listing.
pub fn format_clause(r: &RenderedClause) -> (s: String)
    requires
        widths_fit(word_pairs(r.words@)),
    ensures
        s@ == clause_text(r.surface@, word_pairs(r.words@), r.literal@),
{
    let (l1, l2) = aligned_lines(&r.words);
    let mut out = chars_of(r.surface.as_str());
    push_str(&mut out, "\n  ");
    push_all(&mut out, &trim_end(&l1));
    push_str(&mut out, "\n  ");
    push_all(&mut out, &trim_end(&l2));
    push_str(&mut out, "\n  ‘");
    push_str(&mut out, r.literal.as_str());
    push_str(&mut out, "’");
    string_of(&out)
}

/// The three lines the sentence builders and the translator print: the
/// indented words, the indented glosses, and the literal translation in
/// straight quotes.
pub open spec fn interlinear_text(words: Seq<(Seq<char>, Seq<char>)>, literal: Seq<char>) -> Seq<Seq<char>> {
    seq!["  "@ + aligned(words, true), "  "@ + aligned(words, false), "  '"@ + literal + "'"@]
}

/// The lines printing a rendered clause interlinearly.
pub fn interlinear_lines(r: &RenderedClause) -> (lines: Vec<String>)
    requires
        widths_fit(word_pairs(r.words@)),
    ensures
        crate::text::strings_view(lines@) == interlinear_text(word_pairs(r.words@), r.literal@),
{
    let (l1, l2) = aligned_lines(&r.words);
    let mut a = chars_of("  ");
    push_all(&mut a, &l1);
    let mut b = chars_of("  ");
    push_all(&mut b, &l2);
    let mut c = chars_of("  '");
    push_str(&mut c, r.literal.as_str());
    push_str(&mut c, "'");
    let mut lines: Vec<String> = Vec::new();
    crate::text::push_line(&mut lines, &a);
    crate::text::push_line(&mut lines, &b);
    crate::text::push_line(&mut lines, &c);
    assert(crate::text::strings_view(lines@) =~= interlinear_text(word_pairs(r.words@), r.literal@));
    lines
}

/// The positions of the entries whose part of speech is `pos`, ignoring
/// ASCII case, in order.
pub open spec fn pos_positions(es: Seq<DictionaryEntry>, pos: Seq<char>) -> Seq<int>
    decreases es.len(),
{
    if es.len() == 0 {
        seq![]
    } else {
        pos_positions(es.drop_last(), pos) + if eq_ignore_ascii_case(es.last().pos@, pos) {
            seq![es.len() - 1]
        } else {
            Seq::<int>::empty()
        }
    }
}

/// The words an example clause is built from: the first noun as subject,
/// the first verb, and the second noun, if any, as object.
pub struct ExampleParts {
    pub subject: usize,
    pub verb: usize,
    pub object: Option<usize>,
}

/// The example clause's words, by position in the lexicon; none without at
/// least a noun and a verb.
pub open spec fn example_parts_of(es: Seq<DictionaryEntry>) -> Option<(int, int, Option<int>)> {
    let nouns = pos_positions(es, "noun"@);
    let verbs = pos_positions(es, "verb"@);
    if verbs.len() == 0 || nouns.len() == 0 {
        None
    } else {
        Some(
            (
                nouns[0],
                verbs[0],
                if nouns.len() > 1 {
                    Some(nouns[1])
                } else {
                    None
                },
            ),
        )
    }
}

/// Picks the lexicon words an example clause is built from.
pub fn example_parts(entries: &[DictionaryEntry]) -> (r: Option<ExampleParts>)
    ensures
        match example_parts_of(entries@) {
            None => r is None,
            Some((s, v, o)) => r matches Some(p) && p.subject as int == s && p.verb as int == v
                && match o {
                Some(x) => p.object == Some(x as usize),
                None => p.object is None,
            },
        },
{
    let noun = chars_of("noun");
    let verb = chars_of("verb");
    let mut nouns: Vec<usize> = Vec::new();
    let mut verbs: Vec<usize> = Vec::new();
    let mut i: usize = 0;
    while i < entries.len()
        invariant
            i <= entries@.len(),
            noun@ == "noun"@,
            verb@ == "verb"@,
            nouns@.map_values(|x: usize| x as int) == pos_positions(entries@.take(i as int), "noun"@),
            verbs@.map_values(|x: usize| x as int) == pos_positions(entries@.take(i as int), "verb"@),
        decreases entries@.len() - i,
    {
        let p = chars_of(entries[i].pos.as_str());
        let ghost t = entries@.take(i + 1);
        assert(t.drop_last() =~= entries@.take(i as int));
        assert(t.last() == entries@[i as int]);
        if chars_eq_ignore_ascii_case(&p, &noun) {
            nouns.push(i);
        }
        if chars_eq_ignore_ascii_case(&p, &verb) {
            verbs.push(i);
        }
        assert(nouns@.map_values(|x: usize| x as int) =~= pos_positions(t, "noun"@));
        assert(verbs@.map_values(|x: usize| x as int) =~= pos_positions(t, "verb"@));
        i = i + 1;
    }
    assert(entries@.take(entries@.len() as int) =~= entries@);
    if verbs.len() == 0 || nouns.len() == 0 {
        return None;
    }
    assert(nouns@.map_values(|x: usize| x as int)[0] == nouns@[0] as int);
    assert(verbs@.map_values(|x: usize| x as int)[0] == verbs@[0] as int);
    let object = if nouns.len() > 1 {
        assert(nouns@.map_values(|x: usize| x as int)[1] == nouns@[1] as int);
        Some(nouns[1])
    } else {
        None
    };
    Some(ExampleParts { subject: nouns[0], verb: verbs[0], object })
}

/// The example sentence the grammar book shows for an assembled clause: its
/// surface text, the aligned words over the aligned glosses (trailing
/// spaces dropped), and its literal translation; none when the clause came
/// out without words.
pub fn example_sentence(r: &RenderedClause) -> (out: Option<(String, String, String)>)
    requires
        widths_fit(word_pairs(r.words@)),
    ensures
        if r.words@.len() == 0 {
            out is None
        } else {
            out matches Some(t) && t.0@ == r.surface@ && t.1@ == trim_end_ws(
                aligned(word_pairs(r.words@), true),
            ) + "\n"@ + trim_end_ws(aligned(word_pairs(r.words@), false)) && t.2@ == r.literal@
        },
{
    if r.words.len() == 0 {
        return None;
    }
    let (l1, l2) = aligned_lines(&r.words);
    let mut mid = trim_end(&l1);
    push_str(&mut mid, "\n");
    push_all(&mut mid, &trim_end(&l2));
    Some((r.surface.clone(), string_of(&mid), r.literal.clone()))
}

/// A glossed word: its surface form and its gloss, if the lexicon knows it.
pub struct GlossItem {
    pub surface: String,
    pub gloss: Option<String>,
}

/// The word/gloss pairs of glossed items, `?` standing for a missing gloss.
pub open spec fn gloss_pairs(items: Seq<GlossItem>) -> Seq<(Seq<char>, Seq<char>)> {
    items.map_values(
        |it: GlossItem|
            (
                it.surface@,
                match it.gloss {
                    Some(g) => g@,
                    None => "?"@,
                },
            ),
    )
}

/// How many items have a gloss.
pub open spec fn glossed_count(items: Seq<GlossItem>) -> nat
    decreases items.len(),
{
    if items.len() == 0 {
        0
    } else {
        glossed_count(items.drop_last()) + if items.last().gloss is Some {
            1nat
        } else {
            0nat
        }
    }
}

/// The glosser's output: the aligned surface line and gloss line (trailing
/// spaces dropped), and the `matched / total word(s) glossed` note.
pub open spec fn gloss_report_text(items: Seq<GlossItem>) -> Seq<Seq<char>> {
    seq![
        trim_end_ws(aligned(gloss_pairs(items), true)),
        trim_end_ws(aligned(gloss_pairs(items), false)),
        "\n"@ + decimal(glossed_count(items)) + " / "@ + decimal(items.len()) + " word(s) glossed"@,
    ]
}

/// The lines `language gloss` prints for glossed items.
pub fn gloss_report(items: &Vec<GlossItem>) -> (lines: Vec<String>)
    requires
        widths_fit(gloss_pairs(items@)),
    ensures
        crate::text::strings_view(lines@) == gloss_report_text(items@),
{
    let mut pairs: Vec<(String, String)> = Vec::new();
    let mut matched: usize = 0;
    let mut i: usize = 0;
    while i < items.len()
        invariant
            i <= items@.len(),
            word_pairs(pairs@) == gloss_pairs(items@.take(i as int)),
            matched == glossed_count(items@.take(i as int)),
            matched <= i,
        decreases items@.len() - i,
    {
        let g = match &items[i].gloss {
            Some(g) => {
                matched = matched + 1;
                string_of(&chars_of(g.as_str()))
            },
            None => string_of(&chars_of("?")),
        };
        let s = string_of(&chars_of(items[i].surface.as_str()));
        let ghost before = word_pairs(pairs@);
        let ghost pv = (s@, g@);
        pairs.push((s, g));
        assert(word_pairs(pairs@) =~= before.push(pv));
        assert(items@.take(i + 1).drop_last() =~= items@.take(i as int));
        assert(items@.take(i + 1).last() == items@[i as int]);
        assert(gloss_pairs(items@.take(i + 1)) =~= gloss_pairs(items@.take(i as int)).push(pv));
        i = i + 1;
    }
    assert(items@.take(items@.len() as int) =~= items@);
    let (l1, l2) = aligned_lines(&pairs);
    let mut note = chars_of("\n");
    push_all(&mut note, &decimal_digits(matched));
    push_str(&mut note, " / ");
    push_all(&mut note, &decimal_digits(items.len()));
    push_str(&mut note, " word(s) glossed");
    let mut lines: Vec<String> = Vec::new();
    crate::text::push_line(&mut lines, &trim_end(&l1));
    crate::text::push_line(&mut lines, &trim_end(&l2));
    crate::text::push_line(&mut lines, &note);
    assert(crate::text::strings_view(lines@) =~= gloss_report_text(items@));
    lines
}

} // verus!
