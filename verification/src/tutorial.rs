//! `language tutorial`: the fact brief the textbook is written from, the
//! request that carries it, and the checks around the model's reply.
use vstd::prelude::*;
use crate::compose::unfenced;
use crate::error::LanguageError;
use crate::inflection::Inflection;
use crate::interlinear::GlossItem;
use crate::text::{
    chars_of, join, join_seqs, push_all, push_str, replace_char, string_of, strings_view, trim,
    trim_ws, vviews,
};

verus! {

/// A dictionary word as the brief lists it.
pub struct VocabularyItem {
    pub word: String,
    pub pos: String,
    pub translation: String,
    /// The syllabified pronunciation; empty when the word does not read as
    /// the language's phonemes.
    pub pronunciation: String,
}

/// A morpheme: gloss, kind, realization and meaning.
pub struct MorphemeFact {
    pub gloss: String,
    pub kind: String,
    pub realization: String,
    pub meaning: String,
}

/// A word-building rule.
pub struct DerivationFact {
    pub name: String,
    /// The part of speech it applies to; any when absent.
    pub from_pos: Option<String>,
    pub to_pos: String,
    pub form: String,
    pub gloss: String,
}

/// An agreement rule: the dependent agrees with the head in the features.
pub struct AgreementFact {
    pub dependent: String,
    pub head: String,
    pub features: Vec<String>,
}

/// An idiom: the phrase, its literal reading and its meaning.
pub struct IdiomFact {
    pub form: String,
    pub literal: String,
    pub meaning: String,
}

/// A sample text with the word-by-word gloss of its reading text (empty
/// without a morphology).
pub struct SampleFact {
    pub title: String,
    pub body: String,
    pub gloss: Vec<GlossItem>,
}

/// Everything the brief states about a language.
pub struct TutorialFacts {
    pub title: String,
    pub consonants: Vec<String>,
    pub vowels: Vec<String>,
    /// The primary stress rule, as written.
    pub stress: Option<String>,
    pub sound_changes: Vec<String>,
    pub vocabulary: Vec<VocabularyItem>,
    pub morphemes: Vec<MorphemeFact>,
    pub derivations: Vec<DerivationFact>,
    pub agreement: Vec<AgreementFact>,
    /// The typological features, in feature order.
    pub grammar: Inflection,
    pub idioms: Vec<IdiomFact>,
    pub samples: Vec<SampleFact>,
}

// ───────────────────────── sections of the brief ──────────────────────────

/// A labelled line `label + items joined by spaces`, when there are items.
pub open spec fn list_line(label: Seq<char>, items: Seq<Seq<char>>) -> Seq<char> {
    if items.len() > 0 {
        label + join_seqs(items, " "@) + "\n"@
    } else {
        Seq::<char>::empty()
    }
}

/// A titled block: the heading, then one line per item, when there are
/// items.
pub open spec fn block(heading: Seq<char>, lines: Seq<Seq<char>>) -> Seq<char> {
    if lines.len() > 0 {
        heading + concat(lines)
    } else {
        Seq::<char>::empty()
    }
}

/// The lines, concatenated.
pub open spec fn concat(lines: Seq<Seq<char>>) -> Seq<char>
    decreases lines.len(),
{
    if lines.len() == 0 {
        seq![]
    } else {
        concat(lines.drop_last()) + lines.last()
    }
}

/// A vocabulary line.
pub open spec fn vocabulary_line(v: VocabularyItem) -> Seq<char> {
    "  "@ + v.word@ + " | "@ + (if v.pos@.len() == 0 {
        "?"@
    } else {
        v.pos@
    }) + " | "@ + v.translation@ + " | "@ + v.pronunciation@ + "\n"@
}

/// A morpheme line.
pub open spec fn morpheme_line(m: MorphemeFact) -> Seq<char> {
    "  "@ + m.gloss@ + " | "@ + m.kind@ + " | "@ + m.realization@ + " | "@ + m.meaning@ + "\n"@
}

/// A word-building line.
pub open spec fn derivation_line(d: DerivationFact) -> Seq<char> {
    "  "@ + d.name@ + " | "@ + (match d.from_pos {
        Some(p) => p@,
        None => "any"@,
    }) + " | "@ + d.to_pos@ + " | "@ + d.form@ + " | "@ + d.gloss@ + "\n"@
}

/// An agreement line.
pub open spec fn agreement_line(a: AgreementFact) -> Seq<char> {
    "  "@ + a.dependent@ + " agrees with "@ + a.head@ + " in "@ + join_seqs(
        strings_view(a.features@),
        ", "@,
    ) + "\n"@
}

/// An idiom line.
pub open spec fn idiom_line(i: IdiomFact) -> Seq<char> {
    "  "@ + i.form@ + " | "@ + i.literal@ + " | "@ + i.meaning@ + "\n"@
}

/// A glossed word as `surface=gloss`, `?` for a missing gloss.
pub open spec fn gloss_token(it: GlossItem) -> Seq<char> {
    it.surface@ + "="@ + match it.gloss {
        Some(g) => g@,
        None => "?"@,
    }
}

/// A sample's gloss line: its tokens joined by two spaces.
pub open spec fn sample_gloss(items: Seq<GlossItem>) -> Seq<char> {
    join_seqs(items.map_values(|it: GlossItem| gloss_token(it)), "  "@)
}

/// A sample's lines: the titled, trimmed body, then the gloss when there is
/// one.
pub open spec fn sample_lines(s: SampleFact) -> Seq<char> {
    "  ["@ + s.title@ + "] "@ + trim_ws(s.body@) + "\n"@ + if sample_gloss(s.gloss@).len() > 0 {
        "    gloss: "@ + sample_gloss(s.gloss@) + "\n"@
    } else {
        Seq::<char>::empty()
    }
}

/// The grammar feature lines.
pub open spec fn grammar_lines(p: Seq<(Seq<char>, Seq<char>)>) -> Seq<Seq<char>> {
    p.map_values(|kv: (Seq<char>, Seq<char>)| "  "@ + kv.0 + " = "@ + kv.1 + "\n"@)
}

/// The sound, stress and sound-change part of the brief.
pub open spec fn sounds_text(f: TutorialFacts) -> Seq<char> {
    list_line("CONSONANTS: "@, strings_view(f.consonants@)) + list_line(
        "VOWELS: "@,
        strings_view(f.vowels@),
    ) + (match f.stress {
        Some(s) => "STRESS: "@ + s@ + "\n"@,
        None => Seq::<char>::empty(),
    }) + block(
        "SOUND CHANGES (notation `X > Y / context`, _ = the changing sound):\n"@,
        strings_view(f.sound_changes@).map_values(|r: Seq<char>| "  "@ + r + "\n"@),
    )
}

/// The morphology part of the brief.
pub open spec fn morphology_text(f: TutorialFacts) -> Seq<char> {
    block(
        "\nMORPHEMES (gloss | kind | realization | meaning):\n"@,
        f.morphemes@.map_values(|m: MorphemeFact| morpheme_line(m)),
    ) + block(
        "\nWORD-BUILDING RULES (name | from part-of-speech | to part-of-speech | suffix | meaning):\n"@,
        f.derivations@.map_values(|d: DerivationFact| derivation_line(d)),
    ) + block(
        "\nAGREEMENT (dependent agrees with head in features):\n"@,
        f.agreement@.map_values(|a: AgreementFact| agreement_line(a)),
    )
}

/// The grammar, idiom and sample part of the brief.
pub open spec fn usage_text(f: TutorialFacts) -> Seq<char> {
    block("\nGRAMMAR (typological features):\n"@, grammar_lines(f.grammar.pairs())) + block(
        "\nIDIOMS (phrase | literal | meaning):\n"@,
        f.idioms@.map_values(|i: IdiomFact| idiom_line(i)),
    ) + block(
        "\nSAMPLE TEXTS (use these for reading passages; word-by-word gloss follows each):\n"@,
        f.samples@.map_values(|s: SampleFact| sample_lines(s)),
    )
}

/// The whole brief: the language's sounds, vocabulary, morphology, grammar,
/// idioms and sample texts, each section present only when it has content
/// (the vocabulary heading always is).
pub open spec fn brief_text(f: TutorialFacts) -> Seq<char> {
    "LANGUAGE: "@ + f.title@ + "\n"@ + sounds_text(f)
        + "\nVOCABULARY (word | part-of-speech | meaning | pronunciation):\n"@ + concat(
        f.vocabulary@.map_values(|v: VocabularyItem| vocabulary_line(v)),
    ) + morphology_text(f) + usage_text(f)
}

// ───────────────────────── building the brief ─────────────────────────────

/// Appends a list line.
fn push_list_line(out: &mut Vec<char>, label: &str, items: &Vec<String>)
    ensures
        final(out)@ == old(out)@ + list_line(label@, strings_view(items@)),
{
    if items.len() > 0 {
        let mut parts: Vec<Vec<char>> = Vec::new();
        let mut i: usize = 0;
        while i < items.len()
            invariant
                i <= items@.len(),
                vviews(parts@) == strings_view(items@).take(i as int),
            decreases items@.len() - i,
        {
            let ghost before = vviews(parts@);
            parts.push(chars_of(items[i].as_str()));
            assert(vviews(parts@) =~= before.push(items@[i as int]@));
            assert(strings_view(items@).take(i + 1) =~= strings_view(items@).take(i as int).push(
                items@[i as int]@,
            ));
            i = i + 1;
        }
        assert(strings_view(items@).take(items@.len() as int) =~= strings_view(items@));
        let mut sep: Vec<char> = Vec::new();
        push_str(&mut sep, " ");
        push_str(out, label);
        push_all(out, &join(&parts, &sep));
        push_str(out, "\n");
    } else {
        assert(old(out)@ + list_line(label@, strings_view(items@)) =~= old(out)@);
    }
}

/// The concatenation of a list of lines grows by the last line.
pub(crate) proof fn lemma_concat_push(lines: Seq<Seq<char>>, l: Seq<char>)
    ensures
        concat(lines.push(l)) == concat(lines) + l,
{
    assert(lines.push(l).drop_last() =~= lines);
}

/// Appends a block whose lines are already built.
pub(crate) fn push_block(out: &mut Vec<char>, heading: &str, lines: &Vec<Vec<char>>)
    ensures
        final(out)@ == old(out)@ + block(heading@, vviews(lines@)),
{
    if lines.len() > 0 {
        push_str(out, heading);
        let ghost start = out@;
        let mut i: usize = 0;
        while i < lines.len()
            invariant
                i <= lines@.len(),
                out@ == start + concat(vviews(lines@).take(i as int)),
            decreases lines@.len() - i,
        {
            push_all(out, &lines[i]);
            proof {
                assert(vviews(lines@).take(i + 1) =~= vviews(lines@).take(i as int).push(lines@[i as int]@));
                lemma_concat_push(vviews(lines@).take(i as int), lines@[i as int]@);
            }
            i = i + 1;
        }
        assert(vviews(lines@).take(lines@.len() as int) =~= vviews(lines@));
    } else {
        assert(old(out)@ + block(heading@, vviews(lines@)) =~= old(out)@);
    }
}

/// A sample's gloss line text.
fn sample_gloss_chars(items: &Vec<GlossItem>) -> (r: Vec<char>)
    ensures
        r@ == sample_gloss(items@),
{
    let mut parts: Vec<Vec<char>> = Vec::new();
    let mut i: usize = 0;
    while i < items.len()
        invariant
            i <= items@.len(),
            vviews(parts@) == items@.take(i as int).map_values(|it: GlossItem| gloss_token(it)),
        decreases items@.len() - i,
    {
        let mut t = chars_of(items[i].surface.as_str());
        push_str(&mut t, "=");
        match &items[i].gloss {
            Some(g) => push_str(&mut t, g.as_str()),
            None => push_str(&mut t, "?"),
        }
        let ghost before = vviews(parts@);
        let ghost tv = t@;
        parts.push(t);
        assert(vviews(parts@) =~= before.push(tv));
        assert(items@.take(i + 1).map_values(|it: GlossItem| gloss_token(it)) =~= items@.take(
            i as int,
        ).map_values(|it: GlossItem| gloss_token(it)).push(gloss_token(items@[i as int])));
        i = i + 1;
    }
    assert(items@.take(items@.len() as int) =~= items@);
    let mut sep: Vec<char> = Vec::new();
    push_str(&mut sep, "  ");
    join(&parts, &sep)
}

/// The sounds part.
fn sounds_chars(f: &TutorialFacts) -> (r: Vec<char>)
    ensures
        r@ == sounds_text(*f),
{
    let mut r: Vec<char> = Vec::new();
    push_list_line(&mut r, "CONSONANTS: ", &f.consonants);
    push_list_line(&mut r, "VOWELS: ", &f.vowels);
    let ghost a = r@;
    match &f.stress {
        Some(s) => {
            push_str(&mut r, "STRESS: ");
            push_str(&mut r, s.as_str());
            push_str(&mut r, "\n");
        },
        None => {},
    }
    let ghost b = r@;
    assert(b =~= a + match f.stress {
        Some(s) => "STRESS: "@ + s@ + "\n"@,
        None => Seq::<char>::empty(),
    });
    let mut lines: Vec<Vec<char>> = Vec::new();
    let mut i: usize = 0;
    while i < f.sound_changes.len()
        invariant
            i <= f.sound_changes@.len(),
            vviews(lines@) == strings_view(f.sound_changes@).take(i as int).map_values(
                |x: Seq<char>| "  "@ + x + "\n"@,
            ),
        decreases f.sound_changes@.len() - i,
    {
        let mut l = chars_of("  ");
        push_str(&mut l, f.sound_changes[i].as_str());
        push_str(&mut l, "\n");
        let ghost before = vviews(lines@);
        let ghost lv = l@;
        lines.push(l);
        assert(vviews(lines@) =~= before.push(lv));
        assert(strings_view(f.sound_changes@).take(i + 1).map_values(|x: Seq<char>| "  "@ + x + "\n"@)
            =~= strings_view(f.sound_changes@).take(i as int).map_values(
            |x: Seq<char>| "  "@ + x + "\n"@,
        ).push(lv));
        i = i + 1;
    }
    assert(strings_view(f.sound_changes@).take(f.sound_changes@.len() as int) =~= strings_view(
        f.sound_changes@,
    ));
    push_block(
        &mut r,
        "SOUND CHANGES (notation `X > Y / context`, _ = the changing sound):\n",
        &lines,
    );
    r
}

/// The morphology part.
fn morphology_chars(f: &TutorialFacts) -> (r: Vec<char>)
    ensures
        r@ == morphology_text(*f),
{
    let mut ml: Vec<Vec<char>> = Vec::new();
    let mut i: usize = 0;
    while i < f.morphemes.len()
        invariant
            i <= f.morphemes@.len(),
            vviews(ml@) == f.morphemes@.take(i as int).map_values(|m: MorphemeFact| morpheme_line(m)),
        decreases f.morphemes@.len() - i,
    {
        let m = &f.morphemes[i];
        let mut l = chars_of("  ");
        push_str(&mut l, m.gloss.as_str());
        push_str(&mut l, " | ");
        push_str(&mut l, m.kind.as_str());
        push_str(&mut l, " | ");
        push_str(&mut l, m.realization.as_str());
        push_str(&mut l, " | ");
        push_str(&mut l, m.meaning.as_str());
        push_str(&mut l, "\n");
        let ghost before = vviews(ml@);
        let ghost lv = l@;
        ml.push(l);
        assert(vviews(ml@) =~= before.push(lv));
        assert(f.morphemes@.take(i + 1).map_values(|m: MorphemeFact| morpheme_line(m))
            =~= f.morphemes@.take(i as int).map_values(|m: MorphemeFact| morpheme_line(m)).push(lv));
        i = i + 1;
    }
    assert(f.morphemes@.take(f.morphemes@.len() as int) =~= f.morphemes@);
    let mut dl: Vec<Vec<char>> = Vec::new();
    let mut j: usize = 0;
    while j < f.derivations.len()
        invariant
            j <= f.derivations@.len(),
            vviews(dl@) == f.derivations@.take(j as int).map_values(
                |d: DerivationFact| derivation_line(d),
            ),
        decreases f.derivations@.len() - j,
    {
        let d = &f.derivations[j];
        let mut l = chars_of("  ");
        push_str(&mut l, d.name.as_str());
        push_str(&mut l, " | ");
        match &d.from_pos {
            Some(p) => push_str(&mut l, p.as_str()),
            None => push_str(&mut l, "any"),
        }
        push_str(&mut l, " | ");
        push_str(&mut l, d.to_pos.as_str());
        push_str(&mut l, " | ");
        push_str(&mut l, d.form.as_str());
        push_str(&mut l, " | ");
        push_str(&mut l, d.gloss.as_str());
        push_str(&mut l, "\n");
        let ghost before = vviews(dl@);
        let ghost lv = l@;
        dl.push(l);
        assert(vviews(dl@) =~= before.push(lv));
        assert(f.derivations@.take(j + 1).map_values(|d: DerivationFact| derivation_line(d))
            =~= f.derivations@.take(j as int).map_values(|d: DerivationFact| derivation_line(d)).push(
            lv,
        ));
        j = j + 1;
    }
    assert(f.derivations@.take(f.derivations@.len() as int) =~= f.derivations@);
    let mut al: Vec<Vec<char>> = Vec::new();
    let mut k: usize = 0;
    while k < f.agreement.len()
        invariant
            k <= f.agreement@.len(),
            vviews(al@) == f.agreement@.take(k as int).map_values(|a: AgreementFact| agreement_line(a)),
        decreases f.agreement@.len() - k,
    {
        let a = &f.agreement[k];
        let mut feats: Vec<Vec<char>> = Vec::new();
        let mut t: usize = 0;
        while t < a.features.len()
            invariant
                t <= a.features@.len(),
                vviews(feats@) == strings_view(a.features@).take(t as int),
            decreases a.features@.len() - t,
        {
            let ghost before = vviews(feats@);
            feats.push(chars_of(a.features[t].as_str()));
            assert(vviews(feats@) =~= before.push(a.features@[t as int]@));
            assert(strings_view(a.features@).take(t + 1) =~= strings_view(a.features@).take(
                t as int,
            ).push(a.features@[t as int]@));
            t = t + 1;
        }
        assert(strings_view(a.features@).take(a.features@.len() as int) =~= strings_view(
            a.features@,
        ));
        let mut sep: Vec<char> = Vec::new();
        push_str(&mut sep, ", ");
        let mut l = chars_of("  ");
        push_str(&mut l, a.dependent.as_str());
        push_str(&mut l, " agrees with ");
        push_str(&mut l, a.head.as_str());
        push_str(&mut l, " in ");
        push_all(&mut l, &join(&feats, &sep));
        push_str(&mut l, "\n");
        let ghost before = vviews(al@);
        let ghost lv = l@;
        al.push(l);
        assert(vviews(al@) =~= before.push(lv));
        assert(f.agreement@.take(k + 1).map_values(|a: AgreementFact| agreement_line(a))
            =~= f.agreement@.take(k as int).map_values(|a: AgreementFact| agreement_line(a)).push(lv));
        k = k + 1;
    }
    assert(f.agreement@.take(f.agreement@.len() as int) =~= f.agreement@);
    let mut r: Vec<char> = Vec::new();
    push_block(&mut r, "\nMORPHEMES (gloss | kind | realization | meaning):\n", &ml);
    push_block(
        &mut r,
        "\nWORD-BUILDING RULES (name | from part-of-speech | to part-of-speech | suffix | meaning):\n",
        &dl,
    );
    push_block(&mut r, "\nAGREEMENT (dependent agrees with head in features):\n", &al);
    r
}

/// The grammar, idiom and sample part.
fn usage_chars(f: &TutorialFacts) -> (r: Vec<char>)
    ensures
        r@ == usage_text(*f),
{
    let ghost p = f.grammar.pairs();
    let mut gl: Vec<Vec<char>> = Vec::new();
    let mut i: usize = 0;
    while i < f.grammar.len()
        invariant
            i <= p.len(),
            p == f.grammar.pairs(),
            vviews(gl@) == grammar_lines(p.take(i as int)),
        decreases p.len() - i,
    {
        let mut l = chars_of("  ");
        push_str(&mut l, f.grammar.key_at(i).as_str());
        push_str(&mut l, " = ");
        push_str(&mut l, f.grammar.value_at(i).as_str());
        push_str(&mut l, "\n");
        let ghost before = vviews(gl@);
        let ghost lv = l@;
        gl.push(l);
        assert(vviews(gl@) =~= before.push(lv));
        assert(grammar_lines(p.take(i + 1)) =~= grammar_lines(p.take(i as int)).push(lv));
        i = i + 1;
    }
    assert(p.take(p.len() as int) =~= p);
    let mut il: Vec<Vec<char>> = Vec::new();
    let mut j: usize = 0;
    while j < f.idioms.len()
        invariant
            j <= f.idioms@.len(),
            vviews(il@) == f.idioms@.take(j as int).map_values(|x: IdiomFact| idiom_line(x)),
        decreases f.idioms@.len() - j,
    {
        let x = &f.idioms[j];
        let mut l = chars_of("  ");
        push_str(&mut l, x.form.as_str());
        push_str(&mut l, " | ");
        push_str(&mut l, x.literal.as_str());
        push_str(&mut l, " | ");
        push_str(&mut l, x.meaning.as_str());
        push_str(&mut l, "\n");
        let ghost before = vviews(il@);
        let ghost lv = l@;
        il.push(l);
        assert(vviews(il@) =~= before.push(lv));
        assert(f.idioms@.take(j + 1).map_values(|x: IdiomFact| idiom_line(x)) =~= f.idioms@.take(
            j as int,
        ).map_values(|x: IdiomFact| idiom_line(x)).push(lv));
        j = j + 1;
    }
    assert(f.idioms@.take(f.idioms@.len() as int) =~= f.idioms@);
    let mut sl: Vec<Vec<char>> = Vec::new();
    let mut k: usize = 0;
    while k < f.samples.len()
        invariant
            k <= f.samples@.len(),
            vviews(sl@) == f.samples@.take(k as int).map_values(|s: SampleFact| sample_lines(s)),
        decreases f.samples@.len() - k,
    {
        let s = &f.samples[k];
        let mut l = chars_of("  [");
        push_str(&mut l, s.title.as_str());
        push_str(&mut l, "] ");
        push_all(&mut l, &trim(&chars_of(s.body.as_str())));
        push_str(&mut l, "\n");
        let g = sample_gloss_chars(&s.gloss);
        let mut tail: Vec<char> = Vec::new();
        if g.len() > 0 {
            push_str(&mut tail, "    gloss: ");
            push_all(&mut tail, &g);
            push_str(&mut tail, "\n");
        }
        push_all(&mut l, &tail);
        let ghost before = vviews(sl@);
        let ghost lv = l@;
        sl.push(l);
        assert(vviews(sl@) =~= before.push(lv));
        assert(f.samples@.take(k + 1).map_values(|s: SampleFact| sample_lines(s)) =~= f.samples@.take(
            k as int,
        ).map_values(|s: SampleFact| sample_lines(s)).push(lv));
        k = k + 1;
    }
    assert(f.samples@.take(f.samples@.len() as int) =~= f.samples@);
    let mut r: Vec<char> = Vec::new();
    push_block(&mut r, "\nGRAMMAR (typological features):\n", &gl);
    push_block(&mut r, "\nIDIOMS (phrase | literal | meaning):\n", &il);
    push_block(
        &mut r,
        "\nSAMPLE TEXTS (use these for reading passages; word-by-word gloss follows each):\n",
        &sl,
    );
    r
}

/// The fact brief the textbook is written from.
pub fn tutorial_brief(f: &TutorialFacts) -> (r: String)
    ensures
        r@ == brief_text(*f),
{
    let mut vl: Vec<Vec<char>> = Vec::new();
    let mut i: usize = 0;
    while i < f.vocabulary.len()
        invariant
            i <= f.vocabulary@.len(),
            vviews(vl@) == f.vocabulary@.take(i as int).map_values(|v: VocabularyItem| vocabulary_line(v)),
        decreases f.vocabulary@.len() - i,
    {
        let v = &f.vocabulary[i];
        let mut l = chars_of("  ");
        push_str(&mut l, v.word.as_str());
        push_str(&mut l, " | ");
        if chars_of(v.pos.as_str()).len() == 0 {
            push_str(&mut l, "?");
        } else {
            push_str(&mut l, v.pos.as_str());
        }
        push_str(&mut l, " | ");
        push_str(&mut l, v.translation.as_str());
        push_str(&mut l, " | ");
        push_str(&mut l, v.pronunciation.as_str());
        push_str(&mut l, "\n");
        let ghost before = vviews(vl@);
        let ghost lv = l@;
        vl.push(l);
        assert(vviews(vl@) =~= before.push(lv));
        assert(f.vocabulary@.take(i + 1).map_values(|v: VocabularyItem| vocabulary_line(v))
            =~= f.vocabulary@.take(i as int).map_values(|v: VocabularyItem| vocabulary_line(v)).push(
            lv,
        ));
        i = i + 1;
    }
    assert(f.vocabulary@.take(f.vocabulary@.len() as int) =~= f.vocabulary@);
    let mut r = chars_of("LANGUAGE: ");
    push_str(&mut r, f.title.as_str());
    push_str(&mut r, "\n");
    push_all(&mut r, &sounds_chars(f));
    push_str(&mut r, "\nVOCABULARY (word | part-of-speech | meaning | pronunciation):\n");
    let ghost start = r@;
    let mut j: usize = 0;
    while j < vl.len()
        invariant
            j <= vl@.len(),
            r@ == start + concat(vviews(vl@).take(j as int)),
        decreases vl@.len() - j,
    {
        push_all(&mut r, &vl[j]);
        proof {
            assert(vviews(vl@).take(j + 1) =~= vviews(vl@).take(j as int).push(vl@[j as int]@));
            lemma_concat_push(vviews(vl@).take(j as int), vl@[j as int]@);
        }
        j = j + 1;
    }
    assert(vviews(vl@).take(vl@.len() as int) =~= vviews(vl@));
    push_all(&mut r, &morphology_chars(f));
    push_all(&mut r, &usage_chars(f));
    string_of(&r)
}

// ───────────────────────── the request and the reply ──────────────────────

/// How the textbook must be formatted.
pub const TUTORIAL_FORMAT_RULES: &'static str = "OUTPUT FORMAT: GitHub-flavored Markdown. Use `#` for the book title, `##` for each lesson, `###` for subsections, Markdown tables for vocabulary, `-` for bullet lists, and `>` blockquotes for the practice exercises. Output the textbook only — no commentary before or after.";

/// The request for the textbook: the instruction, the brief, then the
/// format rules.
pub open spec fn tutorial_request(brief: Seq<char>) -> Seq<char> {
    "Write a complete beginner's textbook that teaches a newcomer to read this constructed language, using ONLY the facts in the brief below.\n\n"@
        + brief + "\n\n"@ + TUTORIAL_FORMAT_RULES@
}

/// The user message asking for the textbook.
pub fn tutorial_prompt(brief: &str) -> (r: String)
    ensures
        r@ == tutorial_request(brief@),
{
    let mut v = chars_of(
        "Write a complete beginner's textbook that teaches a newcomer to read this constructed language, using ONLY the facts in the brief below.\n\n",
    );
    push_str(&mut v, brief);
    push_str(&mut v, "\n\n");
    push_str(&mut v, TUTORIAL_FORMAT_RULES);
    string_of(&v)
}

/// Whether there is anything to teach: a language without dictionary
/// entries is refused before any request is made.
pub fn tutorial_ready(language: &str, n_entries: usize) -> (r: Result<(), LanguageError>)
    ensures
        n_entries > 0 ==> r is Ok,
        n_entries == 0 ==> (r matches Err(LanguageError::Config(m)) && m@ == "language `"@ + language@
            + "` has no dictionary entries to teach"@),
{
    if n_entries > 0 {
        Ok(())
    } else {
        let mut m = chars_of("language `");
        push_str(&mut m, language);
        push_str(&mut m, "` has no dictionary entries to teach");
        Err(LanguageError::Config(string_of(&m)))
    }
}

/// Takes the model's reply: its unfenced body, refused when blank.
pub fn tutorial_body(raw: &str) -> (r: Result<String, LanguageError>)
    ensures
        if trim_ws(unfenced(raw@)).len() == 0 {
            r matches Err(LanguageError::Store(m)) && m@ == "the model returned an empty tutorial"@
        } else {
            r matches Ok(b) && b@ == unfenced(raw@)
        },
{
    let body = crate::compose::strip_code_fence(raw);
    if trim(&chars_of(body.as_str())).len() == 0 {
        Err(LanguageError::Store(String::from_str("the model returned an empty tutorial")))
    } else {
        Ok(body)
    }
}

/// A sample's text with sentence punctuation (`.`, `,`, `!`, `?`, `;`,
/// `:`) turned into spaces, ready for the glosser.
pub open spec fn glossable_text(body: Seq<char>) -> Seq<char> {
    body.map_values(
        |c: char|
            if c == '.' || c == ',' || c == '!' || c == '?' || c == ';' || c == ':' {
                ' '
            } else {
                c
            },
    )
}

/// The text the glosser reads for a sample.
pub fn glossable(body: &str) -> (r: String)
    ensures
        r@ == glossable_text(body@),
{
    let v = chars_of(body);
    let mut out: Vec<char> = Vec::new();
    let mut i: usize = 0;
    while i < v.len()
        invariant
            i <= v@.len(),
            v@ == body@,
            out@ == glossable_text(body@).take(i as int),
        decreases v@.len() - i,
    {
        let c = v[i];
        if c == '.' || c == ',' || c == '!' || c == '?' || c == ';' || c == ':' {
            out.push(' ');
        } else {
            out.push(c);
        }
        assert(glossable_text(body@).take(i + 1) =~= glossable_text(body@).take(i as int).push(
            glossable_text(body@)[i as int],
        ));
        i = i + 1;
    }
    assert(glossable_text(body@).take(v@.len() as int) =~= glossable_text(body@));
    string_of(&out)
}

} // verus!
