//! The `language doctor` health report: dictionary coverage, chapter counts
//! and the manuscript words that no dictionary gloss covers; and the report
//! of the manuscript scan for undefined words.
use vstd::prelude::*;
use crate::entry::{decimal, decimal_digits, DictionaryEntry, MetaOverview};
use crate::export::{sort_chars, sort_seqs};
use crate::text::{
    chars_of, contains_string, distinct, pad_right, push_all, push_line, push_padded, push_str,
    push_text_line, str_to_lowercase, string_of, strings_view, trim, trim_ws, unicode_str_lowercase, vviews,
};

verus! {

// ───────────────────────── word segmentation ──────────────────────────────

/// The words that `UnicodeSegmentation::unicode_words` finds in a text.
pub uninterp spec fn unicode_word_list(s: Seq<char>) -> Seq<Seq<char>>;

/// `UnicodeSegmentation::unicode_words`, collected: the UAX #29 words of the
/// text (runs holding a letter or a number), in order. Which runs those are
/// is left to the name above.
#[verifier::external_body]
pub(crate) fn unicode_words(s: &str) -> (r: Vec<String>)
    ensures
        strings_view(r@) == unicode_word_list(s@),
{
    unicode_segmentation::UnicodeSegmentation::unicode_words(s).map(String::from).collect()
}

// ───────────────────────── dictionary coverage ────────────────────────────

/// An entry with a non-blank example sentence.
pub open spec fn has_example(e: DictionaryEntry) -> bool {
    trim_ws(e.example@).len() > 0
}

/// An entry with at least one paradigm form.
pub open spec fn has_paradigm(e: DictionaryEntry) -> bool {
    e.inflection.pairs().len() > 0
}

/// How many entries have an example.
pub open spec fn count_examples(es: Seq<(String, DictionaryEntry)>) -> nat
    decreases es.len(),
{
    if es.len() == 0 {
        0
    } else {
        count_examples(es.drop_last()) + if has_example(es.last().1) {
            1nat
        } else {
            0nat
        }
    }
}

/// How many entries have paradigm forms.
pub open spec fn count_paradigms(es: Seq<(String, DictionaryEntry)>) -> nat
    decreases es.len(),
{
    if es.len() == 0 {
        0
    } else {
        count_paradigms(es.drop_last()) + if has_paradigm(es.last().1) {
            1nat
        } else {
            0nat
        }
    }
}

/// `part` as a whole percentage of `whole`, rounded down; 0 of nothing.
pub open spec fn percent_of(part: nat, whole: nat) -> nat {
    if whole > 0 {
        part * 100 / whole
    } else {
        0
    }
}

/// How much of a dictionary carries examples and paradigms.
pub struct DictionaryCoverage {
    /// Parseable entries.
    pub total: usize,
    /// Entries with a non-blank example.
    pub with_example: usize,
    /// Entries with at least one paradigm form.
    pub with_paradigm: usize,
}

impl DictionaryCoverage {
    /// The coverage is a count of the entries it was taken over.
    pub open spec fn counts(self, es: Seq<(String, DictionaryEntry)>) -> bool {
        &&& self.total == es.len()
        &&& self.with_example == count_examples(es)
        &&& self.with_paradigm == count_paradigms(es)
    }

    /// Part counts never exceed the total.
    pub open spec fn consistent(self) -> bool {
        self.with_example <= self.total && self.with_paradigm <= self.total
    }
}

/// Counting never yields more entries than there are.
pub proof fn lemma_counts_bounded(es: Seq<(String, DictionaryEntry)>)
    ensures
        count_examples(es) <= es.len(),
        count_paradigms(es) <= es.len(),
    decreases es.len(),
{
    if es.len() > 0 {
        lemma_counts_bounded(es.drop_last());
    }
}

/// Counts the entries with an example and with paradigm forms.
pub fn dictionary_coverage(entries: &[(String, DictionaryEntry)]) -> (c: DictionaryCoverage)
    ensures
        c.counts(entries@),
        c.consistent(),
{
    let mut we: usize = 0;
    let mut wp: usize = 0;
    let mut i: usize = 0;
    while i < entries.len()
        invariant
            i <= entries@.len(),
            we == count_examples(entries@.take(i as int)),
            wp == count_paradigms(entries@.take(i as int)),
            we <= i,
            wp <= i,
        decreases entries@.len() - i,
    {
        let e = &entries[i].1;
        let t = trim(&chars_of(e.example.as_str()));
        assert(entries@.take(i + 1).drop_last() =~= entries@.take(i as int));
        assert(entries@.take(i + 1).last() == entries@[i as int]);
        if t.len() > 0 {
            we = we + 1;
        }
        if !e.inflection.is_empty() {
            wp = wp + 1;
        }
        i = i + 1;
    }
    assert(entries@.take(entries@.len() as int) =~= entries@);
    DictionaryCoverage { total: entries.len(), with_example: we, with_paradigm: wp }
}

/// `part` as a whole percentage of `whole` (`part * 100 / whole`), or 0 when
/// `whole` is 0.
pub fn percent(part: usize, whole: usize) -> (p: usize)
    requires
        part <= whole,
    ensures
        p == percent_of(part as nat, whole as nat),
        p <= 100,
{
    if whole == 0 {
        0
    } else {
        let wide: u128 = (part as u128) * 100;
        let q: u128 = wide / (whole as u128);
        assert(q <= 100) by (nonlinear_arith)
            requires
                q == (part as int) * 100 / (whole as int),
                part <= whole,
                whole > 0,
        ;
        q as usize
    }
}

// ───────────────────────── manuscript vocabulary ──────────────────────────

/// The words of at least two characters.
pub open spec fn long_words(ws: Seq<Seq<char>>) -> Seq<Seq<char>>
    decreases ws.len(),
{
    if ws.len() == 0 {
        seq![]
    } else {
        long_words(ws.drop_last()) + if ws.last().len() >= 2 {
            seq![ws.last()]
        } else {
            Seq::<Seq<char>>::empty()
        }
    }
}

/// The lower-cased words of a text.
pub open spec fn lowered_words(body: Seq<char>) -> Seq<Seq<char>> {
    unicode_word_list(body).map_values(|w: Seq<char>| unicode_str_lowercase(w))
}

/// The lower-cased words of every paragraph, in order, one-letter words left
/// out.
pub open spec fn prose_words(bodies: Seq<Seq<char>>) -> Seq<Seq<char>>
    decreases bodies.len(),
{
    if bodies.len() == 0 {
        seq![]
    } else {
        prose_words(bodies.drop_last()) + long_words(lowered_words(bodies.last()))
    }
}

/// The distinct lower-cased words (two characters or more) of the given
/// paragraphs, each once, in the order the paragraphs first use them.
pub fn manuscript_vocabulary(bodies: &[String]) -> (r: Vec<String>)
    ensures
        strings_view(r@) == distinct(prose_words(strings_view(bodies@))),
{
    let ghost b = strings_view(bodies@);
    let mut acc: Vec<String> = Vec::new();
    let mut i: usize = 0;
    while i < bodies.len()
        invariant
            i <= bodies@.len(),
            b == strings_view(bodies@),
            strings_view(acc@) == distinct(prose_words(b.take(i as int))),
        decreases bodies@.len() - i,
    {
        let words = unicode_words(bodies[i].as_str());
        let ghost lw = lowered_words(b[i as int]);
        let ghost before = prose_words(b.take(i as int));
        assert(lw.len() == words@.len());
        let mut j: usize = 0;
        while j < words.len()
            invariant
                j <= words@.len(),
                lw.len() == words@.len(),
                lw == lowered_words(b[i as int]),
                strings_view(words@) == unicode_word_list(b[i as int]),
                strings_view(acc@) == distinct(before + long_words(lw.take(j as int))),
            decreases words@.len() - j,
        {
            let w = str_to_lowercase(words[j].as_str());
            assert(strings_view(words@)[j as int] == words@[j as int]@);
            assert(w@ == lw[j as int]);
            assert(lw.take(j + 1).drop_last() =~= lw.take(j as int));
            let ghost toks = before + long_words(lw.take(j as int));
            let n = chars_of(w.as_str()).len();
            if n >= 2 {
                assert(before + long_words(lw.take(j + 1)) =~= toks.push(w@));
                assert(toks.push(w@).drop_last() =~= toks);
                if !contains_string(&acc, w.as_str()) {
                    let ghost old_acc = strings_view(acc@);
                    acc.push(w);
                    assert(strings_view(acc@) =~= old_acc.push(lw[j as int]));
                }
            } else {
                assert(before + long_words(lw.take(j + 1)) =~= toks);
            }
            j = j + 1;
        }
        assert(lw.take(words@.len() as int) =~= lw);
        assert(b.take(i + 1).drop_last() =~= b.take(i as int));
        assert(b.take(i + 1).last() == b[i as int]);
        i = i + 1;
    }
    assert(b.take(bodies@.len() as int) =~= b);
    acc
}

// ───────────────────────── glosses and gaps ───────────────────────────────

/// The lower-cased, trimmed gloss of an entry.
pub open spec fn gloss_key(e: DictionaryEntry) -> Seq<char> {
    unicode_str_lowercase(trim_ws(e.translation@))
}

/// The non-empty gloss keys of the entries, in entry order.
pub open spec fn gloss_keys(es: Seq<(String, DictionaryEntry)>) -> Seq<Seq<char>>
    decreases es.len(),
{
    if es.len() == 0 {
        seq![]
    } else {
        gloss_keys(es.drop_last()) + if gloss_key(es.last().1).len() > 0 {
            seq![gloss_key(es.last().1)]
        } else {
            Seq::<Seq<char>>::empty()
        }
    }
}

/// The words that no gloss equals, in order.
pub open spec fn uncovered(words: Seq<Seq<char>>, glosses: Seq<Seq<char>>) -> Seq<Seq<char>>
    decreases words.len(),
{
    if words.len() == 0 {
        seq![]
    } else {
        uncovered(words.drop_last(), glosses) + if glosses.contains(words.last()) {
            Seq::<Seq<char>>::empty()
        } else {
            seq![words.last()]
        }
    }
}

/// The words the gap analysis reports are exactly those of the vocabulary
/// that no gloss covers, and there are never more of them than words.
pub proof fn lemma_uncovered(words: Seq<Seq<char>>, glosses: Seq<Seq<char>>)
    ensures
        forall|w: Seq<char>|
            uncovered(words, glosses).contains(w) <==> (words.contains(w) && !glosses.contains(w)),
        uncovered(words, glosses).len() <= words.len(),
    decreases words.len(),
{
    if words.len() > 0 {
        let init = words.drop_last();
        let x = words.last();
        lemma_uncovered(init, glosses);
        let u = uncovered(init, glosses);
        assert forall|w: Seq<char>| words.contains(w) <==> (init.contains(w) || w == x) by {
            if words.contains(w) {
                let k = choose|k: int| 0 <= k < words.len() && words[k] == w;
                if k < words.len() - 1 {
                    assert(init[k] == w);
                }
            }
            if init.contains(w) {
                let k = choose|k: int| 0 <= k < init.len() && init[k] == w;
                assert(words[k] == w);
            }
            if w == x {
                assert(words[words.len() - 1] == w);
            }
        }
        if glosses.contains(x) {
            assert(uncovered(words, glosses) =~= u);
        } else {
            assert(uncovered(words, glosses) =~= u.push(x));
            assert forall|w: Seq<char>| u.push(x).contains(w) <==> (u.contains(w) || w == x) by {
                if u.push(x).contains(w) {
                    let k = choose|k: int| 0 <= k < u.push(x).len() && u.push(x)[k] == w;
                    if k < u.len() {
                        assert(u[k] == w);
                    }
                }
                if u.contains(w) {
                    let k = choose|k: int| 0 <= k < u.len() && u[k] == w;
                    assert(u.push(x)[k] == w);
                }
                if w == x {
                    assert(u.push(x)[u.len() as int] == w);
                }
            }
        }
    }
}

/// The glosses of the doctor's coverage check are the entries' translations:
/// each one is the lower-cased, trimmed translation of some entry, and every
/// entry whose lower-cased, trimmed translation is not blank contributes it.
pub proof fn lemma_glosses_are_translations(es: Seq<(String, DictionaryEntry)>)
    ensures
        forall|k: int|
            0 <= k < gloss_keys(es).len() ==> exists|i: int|
                0 <= i < es.len() && #[trigger] gloss_keys(es)[k] == unicode_str_lowercase(
                    trim_ws(es[i].1.translation@),
                ) && gloss_keys(es)[k].len() > 0,
        forall|i: int|
            0 <= i < es.len() && unicode_str_lowercase(trim_ws((#[trigger] es[i]).1.translation@)).len()
                > 0 ==> gloss_keys(es).contains(unicode_str_lowercase(trim_ws(es[i].1.translation@))),
        gloss_keys(es) == es.filter_map(
            |p: (String, DictionaryEntry)|
                if unicode_str_lowercase(trim_ws(p.1.translation@)).len() > 0 {
                    Some(unicode_str_lowercase(trim_ws(p.1.translation@)))
                } else {
                    None
                },
        ),
    decreases es.len(),
{
    if es.len() > 0 {
        let init = es.drop_last();
        lemma_glosses_are_translations(init);
        let g = gloss_keys(init);
        let t = unicode_str_lowercase(trim_ws(es.last().1.translation@));
        let r = gloss_keys(es);
        assert(gloss_key(es.last().1) == t);
        assert forall|k: int| 0 <= k < r.len() implies exists|i: int|
            0 <= i < es.len() && #[trigger] r[k] == unicode_str_lowercase(trim_ws(es[i].1.translation@))
                && r[k].len() > 0 by {
            if k < g.len() {
                assert(r[k] == g[k]);
                let i = choose|i: int|
                    0 <= i < init.len() && #[trigger] g[k] == unicode_str_lowercase(
                        trim_ws(init[i].1.translation@),
                    ) && g[k].len() > 0;
                assert(init[i] == es[i]);
            } else {
                assert(r[k] == t);
                assert(es[es.len() - 1] == es.last());
            }
        }
        assert forall|i: int|
            0 <= i < es.len() && unicode_str_lowercase(trim_ws((#[trigger] es[i]).1.translation@)).len()
                > 0 implies r.contains(unicode_str_lowercase(trim_ws(es[i].1.translation@))) by {
            if i < init.len() {
                assert(init[i] == es[i]);
                let x = unicode_str_lowercase(trim_ws(es[i].1.translation@));
                assert(g.contains(x));
                let k = choose|k: int| 0 <= k < g.len() && g[k] == x;
                assert(r[k] == g[k]);
            } else {
                assert(es[i] == es.last());
                assert(r[r.len() - 1] == t);
            }
        }
    }
}

/// The non-empty gloss keys of the entries.
pub fn dictionary_glosses(entries: &[(String, DictionaryEntry)]) -> (r: Vec<String>)
    ensures
        strings_view(r@) == gloss_keys(entries@),
        forall|k: int|
            0 <= k < r@.len() ==> exists|i: int|
                0 <= i < entries@.len() && (#[trigger] r@[k])@ == unicode_str_lowercase(
                    trim_ws(entries@[i].1.translation@),
                ) && r@[k]@.len() > 0,
        forall|i: int|
            0 <= i < entries@.len() && unicode_str_lowercase(
                trim_ws((#[trigger] entries@[i]).1.translation@),
            ).len() > 0 ==> strings_view(r@).contains(
                unicode_str_lowercase(trim_ws(entries@[i].1.translation@)),
            ),
        strings_view(r@) == entries@.filter_map(
            |p: (String, DictionaryEntry)|
                if unicode_str_lowercase(trim_ws(p.1.translation@)).len() > 0 {
                    Some(unicode_str_lowercase(trim_ws(p.1.translation@)))
                } else {
                    None
                },
        ),
{
    let mut r: Vec<String> = Vec::new();
    let mut i: usize = 0;
    while i < entries.len()
        invariant
            i <= entries@.len(),
            strings_view(r@) == gloss_keys(entries@.take(i as int)),
        decreases entries@.len() - i,
    {
        let t = string_of(&trim(&chars_of(entries[i].1.translation.as_str())));
        let k = str_to_lowercase(t.as_str());
        assert(entries@.take(i + 1).drop_last() =~= entries@.take(i as int));
        assert(entries@.take(i + 1).last() == entries@[i as int]);
        let n = chars_of(k.as_str()).len();
        if n > 0 {
            let ghost before = strings_view(r@);
            r.push(k);
            assert(strings_view(r@) =~= before.push(gloss_key(entries@[i as int].1)));
        }
        i = i + 1;
    }
    assert(entries@.take(entries@.len() as int) =~= entries@);
    proof {
        lemma_glosses_are_translations(entries@);
        assert forall|k: int| 0 <= k < r@.len() implies exists|i: int|
            0 <= i < entries@.len() && (#[trigger] r@[k])@ == unicode_str_lowercase(
                trim_ws(entries@[i].1.translation@),
            ) && r@[k]@.len() > 0 by {
            assert(strings_view(r@)[k] == r@[k]@);
        }
    }
    r
}

/// The words of the vocabulary that no gloss equals, in vocabulary order.
pub fn uncovered_words(words: &Vec<String>, glosses: &Vec<String>) -> (r: Vec<String>)
    ensures
        strings_view(r@) == uncovered(strings_view(words@), strings_view(glosses@)),
{
    let ghost w = strings_view(words@);
    let ghost g = strings_view(glosses@);
    let mut r: Vec<String> = Vec::new();
    let mut i: usize = 0;
    while i < words.len()
        invariant
            i <= words@.len(),
            w == strings_view(words@),
            g == strings_view(glosses@),
            strings_view(r@) == uncovered(w.take(i as int), g),
        decreases words@.len() - i,
    {
        assert(w.take(i + 1).drop_last() =~= w.take(i as int));
        assert(w.take(i + 1).last() == words@[i as int]@);
        if !contains_string(glosses, words[i].as_str()) {
            let ghost before = strings_view(r@);
            r.push(words[i].clone());
            assert(strings_view(r@) =~= before.push(words@[i as int]@));
        }
        i = i + 1;
    }
    assert(w.take(words@.len() as int) =~= w);
    r
}

/// The first `n` words, sorted.
pub open spec fn sample_of(words: Seq<Seq<char>>, n: nat) -> Seq<Seq<char>> {
    sort_seqs(
        if words.len() <= n {
            words
        } else {
            words.take(n as int)
        },
    )
}

/// The first `n` words, sorted ascending.
pub fn sorted_sample(words: &Vec<String>, n: usize) -> (r: Vec<String>)
    ensures
        strings_view(r@) == sample_of(strings_view(words@), n as nat),
{
    let k = if words.len() <= n {
        words.len()
    } else {
        n
    };
    let mut parts: Vec<Vec<char>> = Vec::new();
    let mut i: usize = 0;
    while i < k
        invariant
            i <= k,
            k <= words@.len(),
            vviews(parts@) == strings_view(words@).take(i as int),
        decreases k - i,
    {
        let ghost before = vviews(parts@);
        parts.push(chars_of(words[i].as_str()));
        assert(vviews(parts@) =~= before.push(words@[i as int]@));
        assert(strings_view(words@).take(i + 1) =~= strings_view(words@).take(i as int).push(
            words@[i as int]@,
        ));
        i = i + 1;
    }
    let sorted = sort_chars(&parts);
    let mut r: Vec<String> = Vec::new();
    let mut j: usize = 0;
    while j < sorted.len()
        invariant
            j <= sorted@.len(),
            strings_view(r@) == vviews(sorted@).take(j as int),
        decreases sorted@.len() - j,
    {
        let ghost before = strings_view(r@);
        r.push(string_of(&sorted[j]));
        assert(strings_view(r@) =~= before.push(sorted@[j as int]@));
        assert(vviews(sorted@).take(j + 1) =~= vviews(sorted@).take(j as int).push(
            sorted@[j as int]@,
        ));
        j = j + 1;
    }
    assert(vviews(sorted@).take(sorted@.len() as int) =~= vviews(sorted@));
    if words.len() <= n {
        assert(strings_view(words@).take(k as int) =~= strings_view(words@));
    }
    r
}

// ───────────────────────── the text report ────────────────────────────────

/// A line holding `l` when `b` holds, else nothing.
pub open spec fn line_if(b: bool, l: Seq<char>) -> Seq<Seq<char>> {
    if b {
        seq![l]
    } else {
        Seq::<Seq<char>>::empty()
    }
}

/// A labelled line: `label` then `value`, when `value` is not empty.
pub open spec fn field_line(label: Seq<char>, value: Seq<char>) -> Seq<Seq<char>> {
    line_if(value.len() > 0, label + value)
}

/// The identity lines of the overview block: name, kind and family.
pub open spec fn meta_identity_lines(m: MetaOverview) -> Seq<Seq<char>> {
    field_line("  name           : "@, m.name@) + field_line("  kind           : "@, m.language_kind@)
        + field_line("  family         : "@, m.family@)
}

/// The script lines of the overview block: code, alphabet size, direction.
pub open spec fn meta_script_lines(m: MetaOverview) -> Seq<Seq<char>> {
    field_line("  iso_code       : "@, m.iso_code@) + line_if(
        m.alphabet@.len() > 0,
        "  alphabet       : "@ + decimal(m.alphabet@.len()) + " entries"@,
    ) + field_line("  direction      : "@, m.reading_direction@)
}

/// The overview block of the report.
pub open spec fn meta_lines(meta: Option<MetaOverview>) -> Seq<Seq<char>> {
    match meta {
        Some(m) => meta_identity_lines(m) + meta_script_lines(m) + seq![Seq::<char>::empty()],
        None => seq!["  Meta/overview  : MISSING or unparseable"@, Seq::<char>::empty()],
    }
}

/// The chapter-count block of the report.
pub open spec fn chapter_lines(
    total: nat,
    unparseable: nat,
    grammar: nat,
    phonology: nat,
    samples: nat,
) -> Seq<Seq<char>> {
    seq!["Chapters"@, "  Dictionary     : "@ + decimal(total) + " parseable entries"@] + line_if(
        unparseable > 0,
        "                   "@ + decimal(unparseable)
            + " unparseable (no HJSON block — pre-Phase-B authoring)"@,
    ) + seq![
        "  Grammar        : "@ + decimal(grammar) + " rules"@,
        "  Phonology      : "@ + decimal(phonology) + " rules"@,
        "  Sample texts   : "@ + decimal(samples) + " samples"@,
        Seq::<char>::empty(),
    ]
}

/// `part/whole (pct%)`.
pub open spec fn ratio_text(part: nat, whole: nat) -> Seq<char> {
    decimal(part) + "/"@ + decimal(whole) + " ("@ + decimal(percent_of(part, whole)) + "%)"@
}

/// The dictionary-coverage block of the report.
pub open spec fn coverage_lines(total: nat, with_example: nat, with_paradigm: nat) -> Seq<
    Seq<char>,
> {
    seq!["Dictionary coverage"@] + (if total > 0 {
        seq![
            "  with example   : "@ + ratio_text(with_example, total),
            "  with paradigm  : "@ + ratio_text(with_paradigm, total),
        ] + line_if(
            total > with_example,
            "  missing example: "@ + decimal((total - with_example) as nat),
        ) + line_if(
            total > with_paradigm,
            "  missing paradigm: "@ + decimal((total - with_paradigm) as nat)
                + " (overlay won't catch inflected forms)"@,
        )
    } else {
        seq!["  no dictionary entries yet — try `inkhaven language add-word`"@]
    }) + seq![Seq::<char>::empty()]
}

/// The sample words, each on an indented bullet line.
pub open spec fn bullet_lines(ws: Seq<Seq<char>>) -> Seq<Seq<char>> {
    ws.map_values(|w: Seq<char>| "    · "@ + w)
}

/// The manuscript-gap block of the report.
pub open spec fn gap_lines(total: nat, unique: nat, uncovered: Seq<Seq<char>>) -> Seq<Seq<char>> {
    let und = uncovered.len();
    let covered: nat = if unique >= und {
        (unique - und) as nat
    } else {
        0
    };
    seq![
        "Manuscript gap analysis"@,
        "  unique words (≥2 chars) in manuscript prose: "@ + decimal(unique),
    ] + if total > 0 {
        seq!["  covered by dictionary: "@ + ratio_text(covered, unique)] + if und > 0 {
            seq!["  uncovered words (sample, max 15):"@] + bullet_lines(sample_of(uncovered, 15))
                + line_if(und > 15, "    ... and "@ + decimal((und - 15) as nat) + " more"@)
        } else {
            Seq::<Seq<char>>::empty()
        }
    } else {
        seq!["  (skipping — no dictionary entries to compare against)"@]
    }
}

/// The whole text report for a language book titled `title`.
pub open spec fn doctor_lines(
    title: Seq<char>,
    meta: Option<MetaOverview>,
    cov: DictionaryCoverage,
    unparseable: nat,
    grammar: nat,
    phonology: nat,
    samples: nat,
    unique: nat,
    uncovered: Seq<Seq<char>>,
) -> Seq<Seq<char>> {
    seq!["Language doctor — `"@ + title + "`"@, Seq::<char>::empty()] + meta_lines(meta)
        + chapter_lines(cov.total as nat, unparseable, grammar, phonology, samples)
        + coverage_lines(cov.total as nat, cov.with_example as nat, cov.with_paradigm as nat)
        + gap_lines(cov.total as nat, unique, uncovered)
}

/// Appends `label` + `value` as a line when `value` is not empty.
fn push_field_line(lines: &mut Vec<String>, label: &str, value: &str)
    ensures
        strings_view(final(lines)@) == strings_view(old(lines)@) + field_line(label@, value@),
{
    let v = chars_of(value);
    if v.len() > 0 {
        let mut l = chars_of(label);
        push_all(&mut l, &v);
        push_line(lines, &l);
    } else {
        assert(strings_view(lines@) =~= strings_view(lines@) + Seq::<Seq<char>>::empty());
    }
}

/// Appends an empty line.
fn push_blank_line(lines: &mut Vec<String>)
    ensures
        strings_view(final(lines)@) == strings_view(old(lines)@).push(Seq::<char>::empty()),
{
    let l: Vec<char> = Vec::new();
    assert(l@ =~= Seq::<char>::empty());
    push_line(lines, &l);
}

/// Appends `a` followed by the decimal digits of `n`, as one line.
fn push_number_line(lines: &mut Vec<String>, a: &str, n: usize)
    ensures
        strings_view(final(lines)@) == strings_view(old(lines)@).push(a@ + decimal(n as nat)),
{
    let mut l = chars_of(a);
    push_all(&mut l, &decimal_digits(n));
    push_line(lines, &l);
}

/// Appends `a`, the decimal digits of `n`, then `b`, as one line.
fn push_count_line(lines: &mut Vec<String>, a: &str, n: usize, b: &str)
    ensures
        strings_view(final(lines)@) == strings_view(old(lines)@).push(a@ + decimal(n as nat) + b@),
{
    let mut l = chars_of(a);
    push_all(&mut l, &decimal_digits(n));
    push_str(&mut l, b);
    push_line(lines, &l);
}

/// `part/whole (pct%)` as characters.
fn ratio_chars(part: usize, whole: usize) -> (r: Vec<char>)
    requires
        part <= whole,
    ensures
        r@ == ratio_text(part as nat, whole as nat),
{
    let mut r = decimal_digits(part);
    push_str(&mut r, "/");
    push_all(&mut r, &decimal_digits(whole));
    push_str(&mut r, " (");
    push_all(&mut r, &decimal_digits(percent(part, whole)));
    push_str(&mut r, "%)");
    r
}

/// Appends the identity lines of the overview block.
fn push_meta_identity(lines: &mut Vec<String>, m: &MetaOverview)
    ensures
        strings_view(final(lines)@) == strings_view(old(lines)@) + meta_identity_lines(*m),
{
    let ghost start = strings_view(lines@);
    push_field_line(lines, "  name           : ", m.name.as_str());
    let ghost s1 = strings_view(lines@);
    push_field_line(lines, "  kind           : ", m.language_kind.as_str());
    let ghost s2 = strings_view(lines@);
    push_field_line(lines, "  family         : ", m.family.as_str());
    assert(strings_view(lines@) =~= start + meta_identity_lines(*m));
}

/// Appends the script lines of the overview block.
fn push_meta_script(lines: &mut Vec<String>, m: &MetaOverview)
    ensures
        strings_view(final(lines)@) == strings_view(old(lines)@) + meta_script_lines(*m),
{
    let ghost start = strings_view(lines@);
    push_field_line(lines, "  iso_code       : ", m.iso_code.as_str());
    let ghost s1 = strings_view(lines@);
    if m.alphabet.len() > 0 {
        push_count_line(lines, "  alphabet       : ", m.alphabet.len(), " entries");
    }
    let ghost s2 = strings_view(lines@);
    assert(s2 =~= s1 + line_if(
        m.alphabet@.len() > 0,
        "  alphabet       : "@ + decimal(m.alphabet@.len()) + " entries"@,
    ));
    push_field_line(lines, "  direction      : ", m.reading_direction.as_str());
    assert(strings_view(lines@) =~= start + meta_script_lines(*m));
}

/// Appends the overview block.
fn push_meta_lines(lines: &mut Vec<String>, meta: &Option<MetaOverview>)
    ensures
        strings_view(final(lines)@) == strings_view(old(lines)@) + meta_lines(*meta),
{
    let ghost start = strings_view(lines@);
    match meta {
        Some(m) => {
            push_meta_identity(lines, m);
            push_meta_script(lines, m);
            push_blank_line(lines);
            assert(strings_view(lines@) =~= start + meta_lines(*meta));
        },
        None => {
            push_text_line(lines, "  Meta/overview  : MISSING or unparseable");
            push_blank_line(lines);
            assert(strings_view(lines@) =~= start + meta_lines(*meta));
        },
    }
}

/// Appends the chapter-count block.
fn push_chapter_lines(
    lines: &mut Vec<String>,
    total: usize,
    unparseable: usize,
    grammar: usize,
    phonology: usize,
    samples: usize,
)
    ensures
        strings_view(final(lines)@) == strings_view(old(lines)@) + chapter_lines(
            total as nat,
            unparseable as nat,
            grammar as nat,
            phonology as nat,
            samples as nat,
        ),
{
    let ghost start = strings_view(lines@);
    push_text_line(lines, "Chapters");
    push_count_line(lines, "  Dictionary     : ", total, " parseable entries");
    let ghost s2 = strings_view(lines@);
    if unparseable > 0 {
        push_count_line(
            lines,
            "                   ",
            unparseable,
            " unparseable (no HJSON block — pre-Phase-B authoring)",
        );
    }
    let ghost s3 = strings_view(lines@);
    assert(s3 =~= s2 + line_if(
        unparseable > 0,
        "                   "@ + decimal(unparseable as nat)
            + " unparseable (no HJSON block — pre-Phase-B authoring)"@,
    ));
    push_count_line(lines, "  Grammar        : ", grammar, " rules");
    push_count_line(lines, "  Phonology      : ", phonology, " rules");
    push_count_line(lines, "  Sample texts   : ", samples, " samples");
    push_blank_line(lines);
    assert(strings_view(lines@) =~= start + chapter_lines(
        total as nat,
        unparseable as nat,
        grammar as nat,
        phonology as nat,
        samples as nat,
    ));
}

/// Appends the dictionary-coverage block.
fn push_coverage_lines(lines: &mut Vec<String>, cov: &DictionaryCoverage)
    requires
        cov.consistent(),
    ensures
        strings_view(final(lines)@) == strings_view(old(lines)@) + coverage_lines(
            cov.total as nat,
            cov.with_example as nat,
            cov.with_paradigm as nat,
        ),
{
    let ghost start = strings_view(lines@);
    push_text_line(lines, "Dictionary coverage");
    let ghost s1 = strings_view(lines@);
    if cov.total > 0 {
        let mut a = chars_of("  with example   : ");
        push_all(&mut a, &ratio_chars(cov.with_example, cov.total));
        push_line(lines, &a);
        let mut b = chars_of("  with paradigm  : ");
        push_all(&mut b, &ratio_chars(cov.with_paradigm, cov.total));
        push_line(lines, &b);
        let ghost s3 = strings_view(lines@);
        if cov.total > cov.with_example {
            push_number_line(lines, "  missing example: ", cov.total - cov.with_example);
        }
        let ghost s4 = strings_view(lines@);
        assert(s4 =~= s3 + line_if(
            cov.total > cov.with_example,
            "  missing example: "@ + decimal((cov.total - cov.with_example) as nat),
        ));
        if cov.total > cov.with_paradigm {
            push_count_line(
                lines,
                "  missing paradigm: ",
                cov.total - cov.with_paradigm,
                " (overlay won't catch inflected forms)",
            );
        }
        let ghost s5 = strings_view(lines@);
        assert(s5 =~= s4 + line_if(
            cov.total > cov.with_paradigm,
            "  missing paradigm: "@ + decimal((cov.total - cov.with_paradigm) as nat)
                + " (overlay won't catch inflected forms)"@,
        ));
        push_blank_line(lines);
    } else {
        push_text_line(lines, "  no dictionary entries yet — try `inkhaven language add-word`");
        push_blank_line(lines);
    }
    assert(strings_view(lines@) =~= start + coverage_lines(
        cov.total as nat,
        cov.with_example as nat,
        cov.with_paradigm as nat,
    ));
}

/// Appends each word on a bullet line.
fn push_bullet_lines(lines: &mut Vec<String>, ws: &Vec<String>)
    ensures
        strings_view(final(lines)@) == strings_view(old(lines)@) + bullet_lines(strings_view(ws@)),
{
    let ghost start = strings_view(lines@);
    let mut i: usize = 0;
    while i < ws.len()
        invariant
            i <= ws@.len(),
            strings_view(lines@) == start + bullet_lines(strings_view(ws@).take(i as int)),
        decreases ws@.len() - i,
    {
        let mut l = chars_of("    · ");
        push_str(&mut l, ws[i].as_str());
        push_line(lines, &l);
        assert(bullet_lines(strings_view(ws@).take(i + 1)) =~= bullet_lines(
            strings_view(ws@).take(i as int),
        ).push("    · "@ + ws@[i as int]@));
        i = i + 1;
    }
    assert(strings_view(ws@).take(ws@.len() as int) =~= strings_view(ws@));
}

/// Appends the manuscript-gap block.
fn push_gap_lines(lines: &mut Vec<String>, total: usize, unique: usize, uncovered: &Vec<String>)
    ensures
        strings_view(final(lines)@) == strings_view(old(lines)@) + gap_lines(
            total as nat,
            unique as nat,
            strings_view(uncovered@),
        ),
{
    let ghost start = strings_view(lines@);
    let und = uncovered.len();
    push_text_line(lines, "Manuscript gap analysis");
    push_number_line(lines, "  unique words (≥2 chars) in manuscript prose: ", unique);
    let ghost s2 = strings_view(lines@);
    if total > 0 {
        let covered = if unique >= und {
            unique - und
        } else {
            0
        };
        let mut c = chars_of("  covered by dictionary: ");
        push_all(&mut c, &ratio_chars(covered, unique));
        push_line(lines, &c);
        let ghost s3 = strings_view(lines@);
        if und > 0 {
            push_text_line(lines, "  uncovered words (sample, max 15):");
            let sample = sorted_sample(uncovered, 15);
            push_bullet_lines(lines, &sample);
            let ghost s4 = strings_view(lines@);
            if und > 15 {
                push_count_line(lines, "    ... and ", und - 15, " more");
            }
            assert(strings_view(lines@) =~= s4 + line_if(
                und > 15,
                "    ... and "@ + decimal((und - 15) as nat) + " more"@,
            ));
        }
    } else {
        push_text_line(lines, "  (skipping — no dictionary entries to compare against)");
    }
    assert(strings_view(lines@) =~= start + gap_lines(
        total as nat,
        unique as nat,
        strings_view(uncovered@),
    ));
}

/// The text report of `language doctor`, one string per printed line.
pub fn doctor_report(
    title: &str,
    meta: &Option<MetaOverview>,
    cov: &DictionaryCoverage,
    unparseable: usize,
    grammar: usize,
    phonology: usize,
    samples: usize,
    unique: usize,
    uncovered: &Vec<String>,
) -> (r: Vec<String>)
    requires
        cov.consistent(),
    ensures
        strings_view(r@) == doctor_lines(
            title@,
            *meta,
            *cov,
            unparseable as nat,
            grammar as nat,
            phonology as nat,
            samples as nat,
            unique as nat,
            strings_view(uncovered@),
        ),
{
    let mut lines: Vec<String> = Vec::new();
    let mut h = chars_of("Language doctor — `");
    push_str(&mut h, title);
    push_str(&mut h, "`");
    push_line(&mut lines, &h);
    push_blank_line(&mut lines);
    let ghost s0 = strings_view(lines@);
    assert(s0 =~= seq!["Language doctor — `"@ + title@ + "`"@, Seq::<char>::empty()]);
    push_meta_lines(&mut lines, meta);
    push_chapter_lines(&mut lines, cov.total, unparseable, grammar, phonology, samples);
    push_coverage_lines(&mut lines, cov);
    push_gap_lines(&mut lines, cov.total, unique, uncovered);
    lines
}

// ───────────────────────── the manuscript scan ─────────────────────────────

/// A candidate undefined word and how often the scan met it.
pub struct ScanCandidate {
    pub word: String,
    pub count: usize,
}

/// A candidate's line: the word padded to sixteen characters, then `×` and
/// the count.
pub open spec fn candidate_line(c: ScanCandidate) -> Seq<char> {
    "    "@ + pad_right(c.word@, 16) + " ×"@ + decimal(c.count as nat)
}

/// The lines of `language scan`: how many paragraphs were read and how
/// many read as the language, then either the all-clear or the candidates.
pub open spec fn scan_lines(language: Seq<char>, scanned: nat, conlang: nat, candidates: Seq<ScanCandidate>) -> Seq<
    Seq<char>,
> {
    seq![
        "scan "@ + language + " · "@ + decimal(scanned) + " paragraph(s), "@ + decimal(conlang)
            + " in a conlang context"@,
    ] + if candidates.len() == 0 {
        seq!["  ✓ no undefined conlang words found"@]
    } else {
        seq!["\n  candidate undefined words ("@ + decimal(candidates.len()) + "):"@]
            + candidates.map_values(|c: ScanCandidate| candidate_line(c))
    }
}

/// The report of a manuscript scan.
pub fn scan_report(language: &str, scanned: usize, conlang: usize, candidates: &Vec<ScanCandidate>) -> (r: Vec<String>)
    ensures
        strings_view(r@) == scan_lines(language@, scanned as nat, conlang as nat, candidates@),
{
    let mut lines: Vec<String> = Vec::new();
    let mut h = chars_of("scan ");
    push_str(&mut h, language);
    push_str(&mut h, " · ");
    push_all(&mut h, &decimal_digits(scanned));
    push_str(&mut h, " paragraph(s), ");
    push_all(&mut h, &decimal_digits(conlang));
    push_str(&mut h, " in a conlang context");
    push_line(&mut lines, &h);
    if candidates.len() == 0 {
        push_text_line(&mut lines, "  ✓ no undefined conlang words found");
        return lines;
    }
    let mut c = chars_of("\n  candidate undefined words (");
    push_all(&mut c, &decimal_digits(candidates.len()));
    push_str(&mut c, "):");
    push_line(&mut lines, &c);
    let ghost start = strings_view(lines@);
    let mut i: usize = 0;
    while i < candidates.len()
        invariant
            i <= candidates@.len(),
            strings_view(lines@) == start + candidates@.take(i as int).map_values(
                |c: ScanCandidate| candidate_line(c),
            ),
        decreases candidates@.len() - i,
    {
        let mut l = chars_of("    ");
        push_padded(&mut l, &chars_of(candidates[i].word.as_str()), 16);
        push_str(&mut l, " ×");
        push_all(&mut l, &decimal_digits(candidates[i].count));
        push_line(&mut lines, &l);
        assert(candidates@.take(i + 1).map_values(|c: ScanCandidate| candidate_line(c))
            =~= candidates@.take(i as int).map_values(|c: ScanCandidate| candidate_line(c)).push(l@));
        i = i + 1;
    }
    assert(candidates@.take(candidates@.len() as int) =~= candidates@);
    lines
}

/// The closing hint of a scan that found candidates.
pub const SCAN_HINT: &'static str = "\n(heuristic — `add-word` the real ones, fix the typos)";

} // verus!
