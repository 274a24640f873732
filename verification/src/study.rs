//! `language grammar-book --study`: the facts-only brief of the grammatical
//! features a study guide explains, the request that carries it, and the
//! check on the model's reply.
use vstd::prelude::*;
use crate::compose::unfenced;
use crate::entry::{decimal, decimal_digits};
use crate::inflection::Inflection;
use crate::text::{chars_of, join, push_all, push_str, string_of, strings_view, trim, trim_ws, vviews};
use crate::tutorial::{
    agreement_line, block, grammar_lines, push_block, AgreementFact,
    DerivationFact,
};

verus! {

/// A morpheme as the study brief lists it: its gloss, kind and realization,
/// and the grammatical category and value it realises.
pub struct StudyMorpheme {
    pub gloss: String,
    pub kind: String,
    pub realization: String,
    pub category: String,
    pub value: String,
}

/// What the study brief states about a language.
pub struct StudyFacts {
    pub language: String,
    /// How many of the phonemes are consonants.
    pub consonants: usize,
    /// How many of the phonemes are vowels.
    pub vowels: usize,
    /// The primary stress rule, as written.
    pub stress: Option<String>,
    /// The allophony rules in SPE notation.
    pub allophony: Vec<String>,
    pub morphemes: Vec<StudyMorpheme>,
    pub derivations: Vec<DerivationFact>,
    pub agreement: Vec<AgreementFact>,
    /// The typological features, in feature order.
    pub typology: Inflection,
}

/// A morpheme line of the study brief.
pub open spec fn study_morpheme_line(m: StudyMorpheme) -> Seq<char> {
    "  "@ + m.gloss@ + " | "@ + m.kind@ + " | "@ + m.realization@ + " | "@ + m.category@ + " | "@
        + m.value@ + "\n"@
}

/// A word-building line of the study brief.
pub open spec fn study_derivation_line(d: DerivationFact) -> Seq<char> {
    "  "@ + d.name@ + " | "@ + (match d.from_pos {
        Some(p) => p@,
        None => "any"@,
    }) + " | "@ + d.to_pos@ + "\n"@
}

/// The opening of the study brief: the language, its phoneme counts and
/// its stress rule.
pub open spec fn study_head(f: StudyFacts) -> Seq<char> {
    "LANGUAGE: "@ + f.language@ + "\n"@ + "PHONEME INVENTORY: "@ + decimal(f.consonants as nat)
        + " consonants, "@ + decimal(f.vowels as nat) + " vowels\n"@ + match f.stress {
        Some(s) => "STRESS RULE: "@ + s@ + "\n"@,
        None => Seq::<char>::empty(),
    }
}

/// The lists of the study brief: allophony, morphemes, word-building and
/// agreement rules and typological features, each present only when it has
/// entries.
pub open spec fn study_lists(f: StudyFacts) -> Seq<char> {
    block(
        "ALLOPHONY / SOUND-CHANGE RULES (SPE notation):\n"@,
        strings_view(f.allophony@).map_values(|r: Seq<char>| "  "@ + r + "\n"@),
    ) + block(
        "MORPHEMES (these realise grammatical categories — gloss | kind | realization | category | value):\n"@,
        f.morphemes@.map_values(|m: StudyMorpheme| study_morpheme_line(m)),
    ) + block(
        "WORD-BUILDING (derivation) RULES (name | from POS | to POS):\n"@,
        f.derivations@.map_values(|d: DerivationFact| study_derivation_line(d)),
    ) + block(
        "AGREEMENT RULES (dependent agrees with head in features):\n"@,
        f.agreement@.map_values(|a: AgreementFact| agreement_line(a)),
    ) + block("TYPOLOGICAL FEATURES (WALS-style feature = value):\n"@, grammar_lines(f.typology.pairs()))
}

/// The study brief: its opening, then its lists.
pub open spec fn study_text(f: StudyFacts) -> Seq<char> {
    study_head(f) + study_lists(f)
}

/// The allophony lines.
fn allophony_lines(rules: &Vec<String>) -> (r: Vec<Vec<char>>)
    ensures
        vviews(r@) == strings_view(rules@).map_values(|x: Seq<char>| "  "@ + x + "\n"@),
{
    let mut lines: Vec<Vec<char>> = Vec::new();
    let mut i: usize = 0;
    while i < rules.len()
        invariant
            i <= rules@.len(),
            vviews(lines@) == strings_view(rules@).take(i as int).map_values(
                |x: Seq<char>| "  "@ + x + "\n"@,
            ),
        decreases rules@.len() - i,
    {
        let mut l = chars_of("  ");
        push_str(&mut l, rules[i].as_str());
        push_str(&mut l, "\n");
        let ghost before = vviews(lines@);
        let ghost lv = l@;
        lines.push(l);
        assert(vviews(lines@) =~= before.push(lv));
        assert(strings_view(rules@).take(i + 1).map_values(|x: Seq<char>| "  "@ + x + "\n"@)
            =~= strings_view(rules@).take(i as int).map_values(|x: Seq<char>| "  "@ + x + "\n"@).push(
            lv,
        ));
        i = i + 1;
    }
    assert(strings_view(rules@).take(rules@.len() as int) =~= strings_view(rules@));
    lines
}

/// The morpheme lines.
fn morpheme_lines(ms: &Vec<StudyMorpheme>) -> (r: Vec<Vec<char>>)
    ensures
        vviews(r@) == ms@.map_values(|m: StudyMorpheme| study_morpheme_line(m)),
{
    let mut lines: Vec<Vec<char>> = Vec::new();
    let mut i: usize = 0;
    while i < ms.len()
        invariant
            i <= ms@.len(),
            vviews(lines@) == ms@.take(i as int).map_values(|m: StudyMorpheme| study_morpheme_line(m)),
        decreases ms@.len() - i,
    {
        let m = &ms[i];
        let mut l = chars_of("  ");
        push_str(&mut l, m.gloss.as_str());
        push_str(&mut l, " | ");
        push_str(&mut l, m.kind.as_str());
        push_str(&mut l, " | ");
        push_str(&mut l, m.realization.as_str());
        push_str(&mut l, " | ");
        push_str(&mut l, m.category.as_str());
        push_str(&mut l, " | ");
        push_str(&mut l, m.value.as_str());
        push_str(&mut l, "\n");
        let ghost before = vviews(lines@);
        let ghost lv = l@;
        lines.push(l);
        assert(vviews(lines@) =~= before.push(lv));
        assert(ms@.take(i + 1).map_values(|m: StudyMorpheme| study_morpheme_line(m)) =~= ms@.take(
            i as int,
        ).map_values(|m: StudyMorpheme| study_morpheme_line(m)).push(lv));
        i = i + 1;
    }
    assert(ms@.take(ms@.len() as int) =~= ms@);
    lines
}

/// The word-building lines.
fn derivation_lines(ds: &Vec<DerivationFact>) -> (r: Vec<Vec<char>>)
    ensures
        vviews(r@) == ds@.map_values(|d: DerivationFact| study_derivation_line(d)),
{
    let mut lines: Vec<Vec<char>> = Vec::new();
    let mut i: usize = 0;
    while i < ds.len()
        invariant
            i <= ds@.len(),
            vviews(lines@) == ds@.take(i as int).map_values(
                |d: DerivationFact| study_derivation_line(d),
            ),
        decreases ds@.len() - i,
    {
        let d = &ds[i];
        let mut l = chars_of("  ");
        push_str(&mut l, d.name.as_str());
        push_str(&mut l, " | ");
        match &d.from_pos {
            Some(p) => push_str(&mut l, p.as_str()),
            None => push_str(&mut l, "any"),
        }
        push_str(&mut l, " | ");
        push_str(&mut l, d.to_pos.as_str());
        push_str(&mut l, "\n");
        let ghost before = vviews(lines@);
        let ghost lv = l@;
        lines.push(l);
        assert(vviews(lines@) =~= before.push(lv));
        assert(ds@.take(i + 1).map_values(|d: DerivationFact| study_derivation_line(d))
            =~= ds@.take(i as int).map_values(|d: DerivationFact| study_derivation_line(d)).push(lv));
        i = i + 1;
    }
    assert(ds@.take(ds@.len() as int) =~= ds@);
    lines
}

/// The agreement lines.
fn agreement_lines(als: &Vec<AgreementFact>) -> (r: Vec<Vec<char>>)
    ensures
        vviews(r@) == als@.map_values(|a: AgreementFact| agreement_line(a)),
{
    let mut lines: Vec<Vec<char>> = Vec::new();
    let mut k: usize = 0;
    while k < als.len()
        invariant
            k <= als@.len(),
            vviews(lines@) == als@.take(k as int).map_values(|a: AgreementFact| agreement_line(a)),
        decreases als@.len() - k,
    {
        let a = &als[k];
        let mut feats: Vec<Vec<char>> = Vec::new();
        let mut t: usize = 0;
        while t < a.features.len()
            invariant
                t <= a.features@.len(),
                vviews(feats@) == strings_view(a.features@).take(t as int),
            decreases a.features@.len() - t,
        {
            let ghost before = vviews(feats@);
            feats.push(chars_of(a.features[t].as_str()));
            assert(vviews(feats@) =~= before.push(a.features@[t as int]@));
            assert(strings_view(a.features@).take(t + 1) =~= strings_view(a.features@).take(
                t as int,
            ).push(a.features@[t as int]@));
            t = t + 1;
        }
        assert(strings_view(a.features@).take(a.features@.len() as int) =~= strings_view(
            a.features@,
        ));
        let mut sep: Vec<char> = Vec::new();
        push_str(&mut sep, ", ");
        let mut l = chars_of("  ");
        push_str(&mut l, a.dependent.as_str());
        push_str(&mut l, " agrees with ");
        push_str(&mut l, a.head.as_str());
        push_str(&mut l, " in ");
        push_all(&mut l, &join(&feats, &sep));
        push_str(&mut l, "\n");
        let ghost before = vviews(lines@);
        let ghost lv = l@;
        lines.push(l);
        assert(vviews(lines@) =~= before.push(lv));
        assert(als@.take(k + 1).map_values(|a: AgreementFact| agreement_line(a)) =~= als@.take(
            k as int,
        ).map_values(|a: AgreementFact| agreement_line(a)).push(lv));
        k = k + 1;
    }
    assert(als@.take(als@.len() as int) =~= als@);
    lines
}

/// The typological feature lines.
fn typology_lines(t: &Inflection) -> (r: Vec<Vec<char>>)
    ensures
        vviews(r@) == grammar_lines(t.pairs()),
{
    let ghost p = t.pairs();
    let mut gl: Vec<Vec<char>> = Vec::new();
    let mut i: usize = 0;
    while i < t.len()
        invariant
            i <= p.len(),
            p == t.pairs(),
            vviews(gl@) == grammar_lines(p.take(i as int)),
        decreases p.len() - i,
    {
        let mut l = chars_of("  ");
        push_str(&mut l, t.key_at(i).as_str());
        push_str(&mut l, " = ");
        push_str(&mut l, t.value_at(i).as_str());
        push_str(&mut l, "\n");
        let ghost before = vviews(gl@);
        let ghost lv = l@;
        gl.push(l);
        assert(vviews(gl@) =~= before.push(lv));
        assert(grammar_lines(p.take(i + 1)) =~= grammar_lines(p.take(i as int)).push(lv));
        i = i + 1;
    }
    assert(p.take(p.len() as int) =~= p);
    gl
}

/// The opening of the brief.
fn head_chars(f: &StudyFacts) -> (r: Vec<char>)
    ensures
        r@ == study_head(*f),
{
    let mut r = chars_of("LANGUAGE: ");
    push_str(&mut r, f.language.as_str());
    push_str(&mut r, "\n");
    push_str(&mut r, "PHONEME INVENTORY: ");
    push_all(&mut r, &decimal_digits(f.consonants));
    push_str(&mut r, " consonants, ");
    push_all(&mut r, &decimal_digits(f.vowels));
    push_str(&mut r, " vowels\n");
    match &f.stress {
        Some(s) => {
            push_str(&mut r, "STRESS RULE: ");
            push_str(&mut r, s.as_str());
            push_str(&mut r, "\n");
        },
        None => {},
    }
    r
}

/// The lists of the brief.
fn lists_chars(f: &StudyFacts) -> (r: Vec<char>)
    ensures
        r@ == study_lists(*f),
{
    let mut r: Vec<char> = Vec::new();
    push_block(&mut r, "ALLOPHONY / SOUND-CHANGE RULES (SPE notation):\n", &allophony_lines(&f.allophony));
    push_block(
        &mut r,
        "MORPHEMES (these realise grammatical categories — gloss | kind | realization | category | value):\n",
        &morpheme_lines(&f.morphemes),
    );
    push_block(
        &mut r,
        "WORD-BUILDING (derivation) RULES (name | from POS | to POS):\n",
        &derivation_lines(&f.derivations),
    );
    push_block(
        &mut r,
        "AGREEMENT RULES (dependent agrees with head in features):\n",
        &agreement_lines(&f.agreement),
    );
    push_block(&mut r, "TYPOLOGICAL FEATURES (WALS-style feature = value):\n", &typology_lines(&f.typology));
    r
}

/// A facts-only brief of the grammatical features a study guide has to
/// explain.
pub fn grammar_study_brief(f: &StudyFacts) -> (r: String)
    ensures
        r@ == study_text(*f),
{
    let mut r = head_chars(f);
    push_all(&mut r, &lists_chars(f));
    string_of(&r)
}

/// The request for the study guide: the instruction, the brief, then the
/// format rules.
pub open spec fn study_request(brief: Seq<char>) -> Seq<char> {
    "Write the study guide for this language, using ONLY the features in the brief below.\n\n"@
        + brief
        + "\n\nOUTPUT FORMAT: GitHub-flavored Markdown — use `##` for sections and `###` for each term you define. Output the guide only."@
}

/// The user message asking for the study guide.
pub fn study_prompt(brief: &str) -> (r: String)
    ensures
        r@ == study_request(brief@),
{
    let mut v = chars_of(
        "Write the study guide for this language, using ONLY the features in the brief below.\n\n",
    );
    push_str(&mut v, brief);
    push_str(
        &mut v,
        "\n\nOUTPUT FORMAT: GitHub-flavored Markdown — use `##` for sections and `###` for each term you define. Output the guide only.",
    );
    string_of(&v)
}

/// The study guide the book carries: the reply's unfenced Markdown, or
/// none when that is blank.
pub fn study_guide(raw: &str) -> (r: Option<String>)
    ensures
        if trim_ws(unfenced(raw@)).len() == 0 {
            r is None
        } else {
            r matches Some(md) && md@ == unfenced(raw@)
        },
{
    let md = crate::compose::strip_code_fence(raw);
    if trim(&chars_of(md.as_str())).len() == 0 {
        None
    } else {
        Some(md)
    }
}

} // verus!
