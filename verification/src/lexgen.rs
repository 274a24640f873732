//! `language generate-lexicon`: the request for new words, the entries an
//! accepted proposal becomes, and the lines that list the proposals.
use vstd::prelude::*;
use crate::entry::{decimal, decimal_digits, ImportEntry};
use crate::inflection::Inflection;
use crate::text::{
    chars_of, join, join_seqs, pad_right, push_all, push_padded, push_str, string_of,
    strings_view, trim, trim_ws, vviews,
};

verus! {

/// The working language the glosses are written in: the configured one,
/// trimmed, or `english` when none is set.
pub open spec fn working_language_of(configured: Seq<char>) -> Seq<char> {
    if trim_ws(configured).len() == 0 {
        "english"@
    } else {
        trim_ws(configured)
    }
}

/// The working language for glosses.
pub fn working_language(configured: &str) -> (r: String)
    ensures
        r@ == working_language_of(configured@),
{
    let t = trim(&chars_of(configured));
    if t.len() == 0 {
        string_of(&chars_of("english"))
    } else {
        string_of(&t)
    }
}

/// A candidate form in double quotes.
pub open spec fn quoted_form(f: Seq<char>) -> Seq<char> {
    "\""@ + f + "\""@
}

/// The request's opening constraints: language, count and domain, then the
/// era and register when given.
pub open spec fn lexgen_constraints(
    language: Seq<char>,
    topic: Option<Seq<char>>,
    count: nat,
    era: Option<Seq<char>>,
    register: Option<Seq<char>>,
) -> Seq<char> {
    "Language: "@ + language + ". Produce "@ + decimal(count)
        + " dictionary entries for the semantic domain: "@ + (match topic {
        Some(t) => t,
        None => "core everyday life"@,
    }) + "."@ + (match era {
        Some(e) => " In-world era: "@ + e + "."@,
        None => Seq::<char>::empty(),
    }) + (match register {
        Some(r) => " Register: "@ + r + "."@,
        None => Seq::<char>::empty(),
    })
}

/// The whole request for new dictionary entries.
pub open spec fn lexgen_request(
    language: Seq<char>,
    topic: Option<Seq<char>>,
    count: nat,
    era: Option<Seq<char>>,
    register: Option<Seq<char>>,
    work_lang: Seq<char>,
    pool: Seq<Seq<char>>,
) -> Seq<char> {
    lexgen_constraints(language, topic, count, era, register) + "\n\nPick a coherent set of "@
        + decimal(count)
        + " concepts a culture needs for this domain, then assign each a distinct `form` chosen ONLY from the candidate list below. Write every `gloss` and `example` in "@
        + work_lang
        + ". Do not repeat a meaning. Keep `pos` a short lowercase tag. Tag each entry with a `register` and one or two `domain` tags appropriate to its concept.\n\nCandidate forms (choose from these): ["@
        + join_seqs(pool.map_values(|f: Seq<char>| quoted_form(f)), ", "@)
        + "]\n\nReply with the JSON object only."@
}

/// The view of an optional text.
pub open spec fn opt_str(s: Option<&str>) -> Option<Seq<char>> {
    match s {
        Some(x) => Some(x@),
        None => None,
    }
}

/// The prompt asking the model for `count` entries drawn only from the
/// candidate forms in `pool`.
pub fn build_lexgen_prompt(
    language: &str,
    topic: Option<&str>,
    count: usize,
    era: Option<&str>,
    register: Option<&str>,
    work_lang: &str,
    pool: &[String],
) -> (r: String)
    ensures
        r@ == lexgen_request(
            language@,
            opt_str(topic),
            count as nat,
            opt_str(era),
            opt_str(register),
            work_lang@,
            strings_view(pool@),
        ),
{
    let mut quoted: Vec<Vec<char>> = Vec::new();
    let mut i: usize = 0;
    while i < pool.len()
        invariant
            i <= pool@.len(),
            vviews(quoted@) == strings_view(pool@).take(i as int).map_values(
                |f: Seq<char>| quoted_form(f),
            ),
        decreases pool@.len() - i,
    {
        let mut q = chars_of("\"");
        push_str(&mut q, pool[i].as_str());
        push_str(&mut q, "\"");
        let ghost before = vviews(quoted@);
        let ghost qv = q@;
        quoted.push(q);
        assert(vviews(quoted@) =~= before.push(qv));
        assert(strings_view(pool@).take(i + 1).map_values(|f: Seq<char>| quoted_form(f))
            =~= strings_view(pool@).take(i as int).map_values(|f: Seq<char>| quoted_form(f)).push(
            quoted_form(pool@[i as int]@),
        ));
        i = i + 1;
    }
    assert(strings_view(pool@).take(pool@.len() as int) =~= strings_view(pool@));
    let mut r = chars_of("Language: ");
    push_str(&mut r, language);
    push_str(&mut r, ". Produce ");
    push_all(&mut r, &decimal_digits(count));
    push_str(&mut r, " dictionary entries for the semantic domain: ");
    match topic {
        Some(t) => push_str(&mut r, t),
        None => push_str(&mut r, "core everyday life"),
    }
    push_str(&mut r, ".");
    let mut e: Vec<char> = Vec::new();
    match era {
        Some(x) => {
            push_str(&mut e, " In-world era: ");
            push_str(&mut e, x);
            push_str(&mut e, ".");
        },
        None => {},
    }
    push_all(&mut r, &e);
    let mut g: Vec<char> = Vec::new();
    match register {
        Some(x) => {
            push_str(&mut g, " Register: ");
            push_str(&mut g, x);
            push_str(&mut g, ".");
        },
        None => {},
    }
    push_all(&mut r, &g);
    push_str(&mut r, "\n\nPick a coherent set of ");
    push_all(&mut r, &decimal_digits(count));
    push_str(
        &mut r,
        " concepts a culture needs for this domain, then assign each a distinct `form` chosen ONLY from the candidate list below. Write every `gloss` and `example` in ",
    );
    push_str(&mut r, work_lang);
    push_str(
        &mut r,
        ". Do not repeat a meaning. Keep `pos` a short lowercase tag. Tag each entry with a `register` and one or two `domain` tags appropriate to its concept.\n\nCandidate forms (choose from these): [",
    );
    let mut sep: Vec<char> = Vec::new();
    push_str(&mut sep, ", ");
    push_all(&mut r, &join(&quoted, &sep));
    push_str(&mut r, "]\n\nReply with the JSON object only.");
    string_of(&r)
}

// ───────────────────────── proposals ──────────────────────────────────────

/// The trimmed texts that are not empty, in order.
pub open spec fn trimmed_nonempty(xs: Seq<Seq<char>>) -> Seq<Seq<char>>
    decreases xs.len(),
{
    if xs.len() == 0 {
        seq![]
    } else {
        trimmed_nonempty(xs.drop_last()) + if trim_ws(xs.last()).len() > 0 {
            seq![trim_ws(xs.last())]
        } else {
            Seq::<Seq<char>>::empty()
        }
    }
}

/// The part of speech an accepted proposal is filed with: its own, trimmed,
/// or `noun` when it gave none.
pub open spec fn proposal_pos(pos: Seq<char>) -> Seq<char> {
    if trim_ws(pos).len() == 0 {
        "noun"@
    } else {
        trim_ws(pos)
    }
}

/// An accepted proposal keeps the part of speech it was given, trimmed;
/// only a blank one is filed as a noun.
pub proof fn lemma_proposal_keeps_pos(pos: Seq<char>)
    ensures
        trim_ws(pos).len() > 0 ==> proposal_pos(pos) == trim_ws(pos),
        trim_ws(pos).len() == 0 ==> proposal_pos(pos) == "noun"@,
{
}

/// The dictionary entry an accepted proposal becomes: every text trimmed,
/// blank domain tags dropped, the batch era (trimmed) attached, and nothing
/// else filled in.
pub fn proposal_entry(
    form: &str,
    gloss: &str,
    pos: &str,
    example: &str,
    register: &str,
    domain: &[String],
    era: Option<&str>,
) -> (e: ImportEntry)
    ensures
        e.word@ == trim_ws(form@),
        e.pos@ == proposal_pos(pos@),
        trim_ws(pos@).len() > 0 ==> e.pos@ == trim_ws(pos@),
        trim_ws(pos@).len() == 0 ==> e.pos@ == "noun"@,
        e.translation@ == trim_ws(gloss@),
        e.example@ == trim_ws(example@),
        e.register@ == trim_ws(register@),
        strings_view(e.domain@) == trimmed_nonempty(strings_view(domain@)),
        e.era@ == trim_ws(
            match era {
                Some(x) => x@,
                None => Seq::<char>::empty(),
            },
        ),
        e.pronunciation@.len() == 0,
        e.etymology@.len() == 0,
        e.related@.len() == 0,
        e.inflection.pairs().len() == 0,
        e.examples@.len() == 0,
        e.notes@.len() == 0,
{
    let mut tags: Vec<String> = Vec::new();
    let mut i: usize = 0;
    while i < domain.len()
        invariant
            i <= domain@.len(),
            strings_view(tags@) == trimmed_nonempty(strings_view(domain@).take(i as int)),
        decreases domain@.len() - i,
    {
        let t = trim(&chars_of(domain[i].as_str()));
        assert(strings_view(domain@).take(i + 1).drop_last() =~= strings_view(domain@).take(i as int));
        assert(strings_view(domain@).take(i + 1).last() == domain@[i as int]@);
        if t.len() > 0 {
            let ghost before = strings_view(tags@);
            tags.push(string_of(&t));
            assert(strings_view(tags@) =~= before.push(t@));
        }
        i = i + 1;
    }
    assert(strings_view(domain@).take(domain@.len() as int) =~= strings_view(domain@));
    let p = trim(&chars_of(pos));
    let pos_text = if p.len() == 0 {
        string_of(&chars_of("noun"))
    } else {
        string_of(&p)
    };
    let era_text = match era {
        Some(x) => string_of(&trim(&chars_of(x))),
        None => {
            let empty: Vec<char> = Vec::new();
            assert(trim_ws(Seq::<char>::empty()) =~= Seq::<char>::empty()) by {
                assert(crate::text::trim_start_ws(Seq::<char>::empty()) =~= Seq::<char>::empty());
            }
            string_of(&empty)
        },
    };
    proof {
        lemma_proposal_keeps_pos(pos@);
    }
    ImportEntry {
        word: string_of(&trim(&chars_of(form))),
        pos: pos_text,
        translation: string_of(&trim(&chars_of(gloss))),
        example: string_of(&trim(&chars_of(example))),
        pronunciation: String::new(),
        etymology: String::new(),
        related: Vec::new(),
        inflection: Inflection::new(),
        examples: Vec::new(),
        register: string_of(&trim(&chars_of(register))),
        era: era_text,
        notes: String::new(),
        domain: tags,
    }
}

// ───────────────────────── the listing ────────────────────────────────────

/// The heading of the proposal list.
pub open spec fn proposals_heading_text(
    kept: nat,
    language: Seq<char>,
    topic: Option<Seq<char>>,
    rejected: nat,
) -> Seq<char> {
    "proposed "@ + decimal(kept) + " entr(y/ies) for "@ + language + (match topic {
        Some(t) => " · topic: "@ + t,
        None => Seq::<char>::empty(),
    }) + " ("@ + decimal(rejected) + " rejected by the dedup gate):"@
}

/// The heading printed above the kept proposals.
pub fn proposals_heading(kept: usize, language: &str, topic: Option<&str>, rejected: usize) -> (r: String)
    ensures
        r@ == proposals_heading_text(kept as nat, language@, opt_str(topic), rejected as nat),
{
    let mut r = chars_of("proposed ");
    push_all(&mut r, &decimal_digits(kept));
    push_str(&mut r, " entr(y/ies) for ");
    push_str(&mut r, language);
    let mut t: Vec<char> = Vec::new();
    match topic {
        Some(x) => {
            push_str(&mut t, " · topic: ");
            push_str(&mut t, x);
        },
        None => {},
    }
    push_all(&mut r, &t);
    push_str(&mut r, " (");
    push_all(&mut r, &decimal_digits(rejected));
    push_str(&mut r, " rejected by the dedup gate):");
    string_of(&r)
}

/// One kept proposal: the form padded to 16 columns, the gloss, and the
/// trimmed part of speech in parentheses (`?` when blank).
pub open spec fn kept_line_text(form: Seq<char>, gloss: Seq<char>, pos: Seq<char>) -> Seq<char> {
    "  "@ + pad_right(form, 16) + " "@ + gloss + " ("@ + (if trim_ws(pos).len() == 0 {
        "?"@
    } else {
        trim_ws(pos)
    }) + ")"@
}

/// The line listing one kept proposal.
pub fn kept_line(form: &str, gloss: &str, pos: &str) -> (r: String)
    ensures
        r@ == kept_line_text(form@, gloss@, pos@),
{
    let mut r = chars_of("  ");
    push_padded(&mut r, &chars_of(form), 16);
    push_str(&mut r, " ");
    push_str(&mut r, gloss);
    push_str(&mut r, " (");
    let p = trim(&chars_of(pos));
    if p.len() == 0 {
        push_str(&mut r, "?");
    } else {
        push_all(&mut r, &p);
    }
    push_str(&mut r, ")");
    string_of(&r)
}

/// One proposal the dedup gate refused, with the reason.
pub open spec fn rejected_line_text(form: Seq<char>, gloss: Seq<char>, reason: Seq<char>) -> Seq<char> {
    "  "@ + pad_right(form, 16) + " "@ + gloss + " — "@ + reason
}

/// The line listing one refused proposal.
pub fn rejected_line(form: &str, gloss: &str, reason: &str) -> (r: String)
    ensures
        r@ == rejected_line_text(form@, gloss@, reason@),
{
    let mut r = chars_of("  ");
    push_padded(&mut r, &chars_of(form), 16);
    push_str(&mut r, " ");
    push_str(&mut r, gloss);
    push_str(&mut r, " — ");
    push_str(&mut r, reason);
    string_of(&r)
}

/// The closing line: how many entries were added, or how many a dry run
/// kept.
pub open spec fn lexgen_closing_text(committed: bool, n: nat, language: Seq<char>) -> Seq<char> {
    if committed {
        "\nadded "@ + decimal(n) + " entr(y/ies) to "@ + language + "'s Dictionary"@
    } else {
        "\n(dry run — re-run with --yes to add the "@ + decimal(n) + " kept entr(y/ies))"@
    }
}

/// The line printed after the listing.
pub fn lexgen_closing(committed: bool, n: usize, language: &str) -> (r: String)
    ensures
        r@ == lexgen_closing_text(committed, n as nat, language@),
{
    if committed {
        let mut r = chars_of("\nadded ");
        push_all(&mut r, &decimal_digits(n));
        push_str(&mut r, " entr(y/ies) to ");
        push_str(&mut r, language);
        push_str(&mut r, "'s Dictionary");
        string_of(&r)
    } else {
        let mut r = chars_of("\n(dry run — re-run with --yes to add the ");
        push_all(&mut r, &decimal_digits(n));
        push_str(&mut r, " kept entr(y/ies))");
        string_of(&r)
    }
}

} // verus!
