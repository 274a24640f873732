//! What `language export` decides: which chapter feeds which part of the
//! export, the order the entries are rendered in, which renderer a format
//! uses, and when a format needs an output file.
use vstd::prelude::*;
use vstd::multiset::Multiset;
use vstd::utf8::encode_utf8;
use crate::command::LanguageExportFormat;
use crate::entry::{DictionaryEntry, MetaOverview};
use crate::error::LanguageError;
use crate::export::{anki_text, csv_export_text, render_anki, render_csv};
use crate::inflection::{compare_chars, lemma_seq_lt_irreflexive, lemma_seq_lt_total, lemma_seq_lt_transitive, seq_lt};
use crate::text::{chars_of, str_eq, str_to_lowercase, unicode_str_lowercase};
use crate::typst_doc::{
    grammar_text, meta_of, phrasebook_text, render_dictionary_twocol, render_grammar, render_phrasebook,
    twocol_text,
};

verus! {

// ───────────────────────── chapter roles ──────────────────────────────────

/// What a chapter of a language book holds, as the export reads it.
pub enum ChapterRole {
    Dictionary,
    Grammar,
    Phonology,
    SampleTexts,
    Meta,
    Other,
}

/// A chapter's role, by its lower-cased title.
pub open spec fn chapter_role_of(title: Seq<char>) -> ChapterRole {
    let t = unicode_str_lowercase(title);
    if t == "dictionary"@ {
        ChapterRole::Dictionary
    } else if t == "grammar"@ {
        ChapterRole::Grammar
    } else if t == "phonology"@ {
        ChapterRole::Phonology
    } else if t == "sample texts"@ {
        ChapterRole::SampleTexts
    } else if t == "meta"@ {
        ChapterRole::Meta
    } else {
        ChapterRole::Other
    }
}

/// The role of a chapter titled `title`.
pub fn chapter_role(title: &str) -> (r: ChapterRole)
    ensures
        r == chapter_role_of(title@),
{
    let t = str_to_lowercase(title);
    if str_eq(t.as_str(), "dictionary") {
        ChapterRole::Dictionary
    } else if str_eq(t.as_str(), "grammar") {
        ChapterRole::Grammar
    } else if str_eq(t.as_str(), "phonology") {
        ChapterRole::Phonology
    } else if str_eq(t.as_str(), "sample texts") {
        ChapterRole::SampleTexts
    } else if str_eq(t.as_str(), "meta") {
        ChapterRole::Meta
    } else {
        ChapterRole::Other
    }
}

// ───────────────────────── entry order ────────────────────────────────────

/// The key entries are ordered by: the lower-cased lemma.
pub open spec fn lemma_key(p: (String, DictionaryEntry)) -> Seq<char> {
    unicode_str_lowercase(p.0@)
}

/// Where a stable insertion puts `x`: after the last entry whose key is not
/// above `x`'s.
pub open spec fn stable_pos(t: Seq<(String, DictionaryEntry)>, x: (String, DictionaryEntry)) -> int
    decreases t.len(),
{
    if t.len() == 0 {
        0
    } else if seq_lt(lemma_key(x), lemma_key(t.last())) {
        stable_pos(t.drop_last(), x)
    } else {
        t.len() as int
    }
}

/// The entries stably sorted by lower-cased lemma (an insertion sort).
pub open spec fn sort_by_lemma(s: Seq<(String, DictionaryEntry)>) -> Seq<(String, DictionaryEntry)>
    decreases s.len(),
{
    if s.len() == 0 {
        seq![]
    } else {
        let t = sort_by_lemma(s.drop_last());
        t.insert(stable_pos(t, s.last()), s.last())
    }
}

/// Entries in ascending key order.
pub open spec fn lemma_ascending(t: Seq<(String, DictionaryEntry)>) -> bool {
    forall|i: int, j: int|
        0 <= i < j < t.len() ==> !seq_lt(lemma_key(#[trigger] t[j]), lemma_key(#[trigger] t[i]))
}

/// `stable_pos` is a position of `t` after every key not above `x`'s and
/// before every key above it, when `t` is ascending.
proof fn lemma_stable_pos(t: Seq<(String, DictionaryEntry)>, x: (String, DictionaryEntry))
    requires
        lemma_ascending(t),
    ensures
        0 <= stable_pos(t, x) <= t.len(),
        forall|j: int| 0 <= j < stable_pos(t, x) ==> !seq_lt(lemma_key(x), lemma_key(#[trigger] t[j])),
        forall|j: int| stable_pos(t, x) <= j < t.len() ==> seq_lt(lemma_key(x), lemma_key(#[trigger] t[j])),
    decreases t.len(),
{
    if t.len() > 0 {
        let init = t.drop_last();
        assert(lemma_ascending(init));
        if seq_lt(lemma_key(x), lemma_key(t.last())) {
            lemma_stable_pos(init, x);
            assert forall|j: int| stable_pos(t, x) <= j < t.len() implies seq_lt(
                lemma_key(x),
                lemma_key(#[trigger] t[j]),
            ) by {
                if j < t.len() - 1 {
                    assert(init[j] == t[j]);
                }
            }
            assert forall|j: int| 0 <= j < stable_pos(t, x) implies !seq_lt(
                lemma_key(x),
                lemma_key(#[trigger] t[j]),
            ) by {
                assert(init[j] == t[j]);
            }
        } else {
            assert forall|j: int| 0 <= j < stable_pos(t, x) implies !seq_lt(
                lemma_key(x),
                lemma_key(#[trigger] t[j]),
            ) by {
                if j < t.len() - 1 {
                    if seq_lt(lemma_key(x), lemma_key(t[j])) {
                        lemma_seq_lt_total(lemma_key(t[j]), lemma_key(t.last()));
                        if seq_lt(lemma_key(t.last()), lemma_key(t[j])) {
                        } else if lemma_key(t[j]) == lemma_key(t.last()) {
                        } else {
                            lemma_seq_lt_transitive(lemma_key(x), lemma_key(t[j]), lemma_key(t.last()));
                        }
                    }
                }
            }
        }
    }
}

/// The lemma order is ascending and holds exactly the given entries.
pub proof fn lemma_sort_by_lemma(s: Seq<(String, DictionaryEntry)>)
    ensures
        lemma_ascending(sort_by_lemma(s)),
        sort_by_lemma(s).to_multiset() == s.to_multiset(),
        sort_by_lemma(s).len() == s.len(),
    decreases s.len(),
{
    broadcast use vstd::seq_lib::group_to_multiset_ensures;
    if s.len() == 0 {
        assert(s.to_multiset() =~= Multiset::empty());
        assert(sort_by_lemma(s).to_multiset() =~= Multiset::empty());
    } else {
        let init = s.drop_last();
        let x = s.last();
        lemma_sort_by_lemma(init);
        let t = sort_by_lemma(init);
        lemma_stable_pos(t, x);
        let p = stable_pos(t, x);
        let r = t.insert(p, x);
        assert(r == sort_by_lemma(s));
        assert forall|i: int, j: int| 0 <= i < j < r.len() implies !seq_lt(
            lemma_key(#[trigger] r[j]),
            lemma_key(#[trigger] r[i]),
        ) by {
            if i < p && j < p {
                assert(r[i] == t[i] && r[j] == t[j]);
            } else if i < p && j == p {
                assert(r[i] == t[i]);
            } else if i < p {
                assert(r[i] == t[i] && r[j] == t[j - 1]);
            } else if i == p {
                assert(r[j] == t[j - 1]);
                if seq_lt(lemma_key(t[j - 1]), lemma_key(x)) {
                    lemma_seq_lt_transitive(lemma_key(x), lemma_key(t[j - 1]), lemma_key(x));
                    lemma_seq_lt_irreflexive(lemma_key(x));
                }
            } else {
                assert(r[i] == t[i - 1] && r[j] == t[j - 1]);
            }
        }
        assert(s =~= init.push(x));
        vstd::seq_lib::lemma_seq_union_to_multiset_commutative(init, seq![x]);
        assert(r.to_multiset() =~= t.to_multiset().insert(x)) by {
            vstd::seq_lib::lemma_multiset_commutative(t.take(p), t.skip(p));
            assert(t =~= t.take(p) + t.skip(p));
            assert(r =~= t.take(p) + (seq![x] + t.skip(p)));
            vstd::seq_lib::lemma_multiset_commutative(t.take(p), seq![x] + t.skip(p));
            vstd::seq_lib::lemma_multiset_commutative(seq![x], t.skip(p));
        }
        assert(s.to_multiset() =~= init.to_multiset().insert(x));
    }
}

/// The export order is a rearrangement of the entries in which no entry's
/// lower-cased lemma (the whole of it) comes after a later entry's.
pub proof fn lemma_export_order(s: Seq<(String, DictionaryEntry)>)
    ensures
        sort_by_lemma(s).len() == s.len(),
        sort_by_lemma(s).to_multiset() == s.to_multiset(),
        forall|i: int, j: int|
            0 <= i < j < s.len() ==> !seq_lt(
                unicode_str_lowercase((#[trigger] sort_by_lemma(s)[j]).0@),
                unicode_str_lowercase((#[trigger] sort_by_lemma(s)[i]).0@),
            ),
{
    lemma_sort_by_lemma(s);
    let t = sort_by_lemma(s);
    assert forall|i: int, j: int| 0 <= i < j < s.len() implies !seq_lt(
        unicode_str_lowercase((#[trigger] t[j]).0@),
        unicode_str_lowercase((#[trigger] t[i]).0@),
    ) by {
        assert(lemma_key(t[j]) == unicode_str_lowercase(t[j].0@));
        assert(lemma_key(t[i]) == unicode_str_lowercase(t[i].0@));
    }
}

/// The entries stably sorted by lower-cased lemma, so that every export
/// renders them in one order.
pub fn sort_entries_by_lemma(entries: Vec<(String, DictionaryEntry)>) -> (r: Vec<(String, DictionaryEntry)>)
    ensures
        r@ == sort_by_lemma(entries@),
        r@.len() == entries@.len(),
        r@.to_multiset() == entries@.to_multiset(),
        forall|i: int, j: int|
            0 <= i < j < r@.len() ==> !seq_lt(
                unicode_str_lowercase((#[trigger] r@[j]).0@),
                unicode_str_lowercase((#[trigger] r@[i]).0@),
            ),
{
    proof {
        lemma_export_order(entries@);
    }
    let ghost orig = entries@;
    let mut rest = entries;
    let mut out: Vec<(String, DictionaryEntry)> = Vec::new();
    let mut keys: Vec<Vec<char>> = Vec::new();
    let ghost mut done: int = 0;
    while rest.len() > 0
        invariant
            0 <= done <= orig.len(),
            rest@ == orig.skip(done),
            out@ == sort_by_lemma(orig.take(done)),
            keys@.len() == out@.len(),
            forall|k: int| 0 <= k < out@.len() ==> #[trigger] keys@[k]@ == lemma_key(out@[k]),
        decreases rest@.len(),
    {
        let x = rest.remove(0);
        proof {
            assert(x == orig[done]);
            assert(orig.take(done + 1).drop_last() =~= orig.take(done));
            assert(orig.take(done + 1).last() == x);
        }
        let kx = chars_of(str_to_lowercase(x.0.as_str()).as_str());
        let mut p: usize = out.len();
        assert(out@.take(p as int) =~= out@);
        while p > 0 && compare_chars(&kx, &keys[p - 1]) < 0
            invariant
                p <= out@.len(),
                keys@.len() == out@.len(),
                forall|k: int| 0 <= k < out@.len() ==> #[trigger] keys@[k]@ == lemma_key(out@[k]),
                kx@ == lemma_key(x),
                stable_pos(out@, x) == stable_pos(out@.take(p as int), x),
            decreases p,
        {
            proof {
                assert(out@.take(p as int).drop_last() =~= out@.take(p - 1));
                assert(out@.take(p as int).last() == out@[p - 1]);
                assert(keys@[p - 1]@ == lemma_key(out@[p - 1]));
            }
            p = p - 1;
        }
        proof {
            if p > 0 {
                assert(keys@[p - 1]@ == lemma_key(out@[p - 1]));
                assert(out@.take(p as int).last() == out@[p - 1]);
                assert(!seq_lt(lemma_key(x), lemma_key(out@.take(p as int).last())));
            }
            assert(stable_pos(out@.take(p as int), x) == p);
        }
        let ghost old_out = out@;
        let ghost old_keys = keys@;
        out.insert(p, x);
        keys.insert(p, kx);
        proof {
            assert forall|k: int| 0 <= k < out@.len() implies #[trigger] keys@[k]@ == lemma_key(
                out@[k],
            ) by {
                if k < p {
                    assert(keys@[k] == old_keys[k] && out@[k] == old_out[k]);
                } else if k > p {
                    assert(keys@[k] == old_keys[k - 1] && out@[k] == old_out[k - 1]);
                }
            }
            assert(rest@ =~= orig.skip(done + 1));
            done = done + 1;
        }
    }
    assert(orig.take(done) =~= orig);
    out
}

// ───────────────────────── format dispatch ────────────────────────────────

/// What the library does for an export format.
pub enum ExportOutcome {
    /// The format's bytes.
    Rendered(Vec<u8>),
    /// The format is rendered outside the library (JSON by the serializer;
    /// XLIFF, linguex and the IPA chart by the interchange renderers).
    Elsewhere,
}

/// Renders the formats that the library itself writes: Anki, two-column
/// dictionary, CSV, grammar reference and phrasebook.
pub fn render_export(
    format: &LanguageExportFormat,
    title: &str,
    meta: Option<&MetaOverview>,
    entries: &[(String, DictionaryEntry)],
    grammar: &[(String, String)],
    phonology: &[(String, String)],
    samples: &[(String, String)],
) -> (r: ExportOutcome)
    ensures
        match *format {
            LanguageExportFormat::Anki => r matches ExportOutcome::Rendered(b) && b@ == encode_utf8(
                anki_text(entries@),
            ),
            LanguageExportFormat::DictionaryTwocol => r matches ExportOutcome::Rendered(b) && b@
                == encode_utf8(twocol_text(title@, meta_of(meta), entries@)),
            LanguageExportFormat::Csv => r matches ExportOutcome::Rendered(b) && b@ == encode_utf8(
                csv_export_text(entries@),
            ),
            LanguageExportFormat::Grammar => r matches ExportOutcome::Rendered(b) && b@ == encode_utf8(
                grammar_text(title@, grammar@, phonology@),
            ),
            LanguageExportFormat::Phrasebook => r matches ExportOutcome::Rendered(b) && b@
                == encode_utf8(phrasebook_text(title@, samples@)),
            _ => r is Elsewhere,
        },
{
    match format {
        LanguageExportFormat::Anki => match render_anki(entries) {
            Ok(b) => ExportOutcome::Rendered(b),
            Err(_) => ExportOutcome::Elsewhere,
        },
        LanguageExportFormat::DictionaryTwocol => ExportOutcome::Rendered(
            render_dictionary_twocol(title, meta, entries),
        ),
        LanguageExportFormat::Csv => ExportOutcome::Rendered(render_csv(entries)),
        LanguageExportFormat::Grammar => ExportOutcome::Rendered(render_grammar(title, grammar, phonology)),
        LanguageExportFormat::Phrasebook => ExportOutcome::Rendered(render_phrasebook(title, samples)),
        _ => ExportOutcome::Elsewhere,
    }
}

/// The refusal of a Typst export without an output file.
pub const NEEDS_OUTPUT: &'static str =
    "this export format needs --output <path.typ> — the Typst renderer doesn't stream to stdout";

/// Whether a format is a Typst document, which cannot go to standard output.
pub open spec fn is_typst_format(format: LanguageExportFormat) -> bool {
    format is DictionaryTwocol || format is Grammar || format is Phrasebook
}

/// Checks where an export may go: anywhere with `--output`; to standard
/// output unless it is a Typst document.
pub fn check_export_destination(format: &LanguageExportFormat, has_output: bool) -> (r: Result<
    (),
    LanguageError,
>)
    ensures
        r is Ok <==> (has_output || !is_typst_format(*format)),
        r matches Err(LanguageError::Config(m)) ==> m@ == NEEDS_OUTPUT@,
        !(r matches Err(LanguageError::Store(_))),
{
    if has_output {
        return Ok(());
    }
    match format {
        LanguageExportFormat::DictionaryTwocol
        | LanguageExportFormat::Grammar
        | LanguageExportFormat::Phrasebook => Err(LanguageError::Config(String::from_str(NEEDS_OUTPUT))),
        _ => Ok(()),
    }
}

} // verus!
