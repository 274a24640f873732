//! The listings that show what a language has collected: its idioms and
//! metaphors, its remembered translations, its varieties, its speakers, the
//! findings of a lexicon audit, the hits of a dictionary query and the
//! pairs a synthetic-corpus run accepted.
use vstd::prelude::*;
use crate::entry::{decimal, decimal_digits};
use crate::text::{
    chars_of, join_seqs, join_strings, pad_right, push_all, push_line, push_padded, push_str,
    push_text_line, spaces, strings_view, trim, trim_ws,
};

verus! {

/// The lines of a list of groups, one group after another.
pub open spec fn flat(groups: Seq<Seq<Seq<char>>>) -> Seq<Seq<char>>
    decreases groups.len(),
{
    if groups.len() == 0 {
        seq![]
    } else {
        flat(groups.drop_last()) + groups.last()
    }
}

/// An idiom as listed.
pub struct IdiomListing {
    pub form: String,
    pub meaning: String,
    pub literal: String,
    pub register: Vec<String>,
}

/// A metaphor as listed.
pub struct MetaphorListing {
    pub source: String,
    pub target: String,
    pub examples: Vec<String>,
}

/// An idiom's lines: the form and meaning (with its registers when it has
/// any), then its literal reading when that is not blank.
pub open spec fn idiom_lines(i: IdiomListing) -> Seq<Seq<char>> {
    seq![
        "  "@ + i.form@ + "  —  "@ + i.meaning@ + if i.register@.len() == 0 {
            Seq::<char>::empty()
        } else {
            "  ["@ + join_seqs(strings_view(i.register@), ","@) + "]"@
        },
    ] + if trim_ws(i.literal@).len() > 0 {
        seq!["      (lit. "@ + i.literal@ + ")"@]
    } else {
        Seq::<Seq<char>>::empty()
    }
}

/// A metaphor's line: source, arrow, target, then its examples if any.
pub open spec fn metaphor_line(m: MetaphorListing) -> Seq<char> {
    "  "@ + m.source@ + " → "@ + m.target@ + if m.examples@.len() == 0 {
        Seq::<char>::empty()
    } else {
        "  e.g. "@ + join_seqs(strings_view(m.examples@), "; "@)
    }
}

/// The listing of `language idioms`.
pub open spec fn idioms_text(language: Seq<char>, idioms: Seq<IdiomListing>, metaphors: Seq<MetaphorListing>) -> Seq<
    Seq<char>,
> {
    if idioms.len() == 0 && metaphors.len() == 0 {
        seq![language + ": no idioms or metaphors yet"@]
    } else {
        (if idioms.len() > 0 {
            seq!["idioms ("@ + decimal(idioms.len()) + "):"@] + flat(
                idioms.map_values(|i: IdiomListing| idiom_lines(i)),
            )
        } else {
            Seq::<Seq<char>>::empty()
        }) + if metaphors.len() > 0 {
            seq!["\nmetaphors ("@ + decimal(metaphors.len()) + "):"@] + metaphors.map_values(
                |m: MetaphorListing| metaphor_line(m),
            )
        } else {
            Seq::<Seq<char>>::empty()
        }
    }
}

/// Lists a language's idioms and metaphors.
pub fn idioms_report(language: &str, idioms: &Vec<IdiomListing>, metaphors: &Vec<MetaphorListing>) -> (r: Vec<String>)
    ensures
        strings_view(r@) == idioms_text(language@, idioms@, metaphors@),
{
    let mut lines: Vec<String> = Vec::new();
    if idioms.len() == 0 && metaphors.len() == 0 {
        let mut m = chars_of(language);
        push_str(&mut m, ": no idioms or metaphors yet");
        push_line(&mut lines, &m);
        assert(strings_view(lines@) =~= idioms_text(language@, idioms@, metaphors@));
        return lines;
    }
    if idioms.len() > 0 {
        let mut h = chars_of("idioms (");
        push_all(&mut h, &decimal_digits(idioms.len()));
        push_str(&mut h, "):");
        push_line(&mut lines, &h);
        let ghost start = strings_view(lines@);
        let mut i: usize = 0;
        while i < idioms.len()
            invariant
                i <= idioms@.len(),
                strings_view(lines@) == start + flat(
                    idioms@.take(i as int).map_values(|x: IdiomListing| idiom_lines(x)),
                ),
            decreases idioms@.len() - i,
        {
            let x = &idioms[i];
            let ghost before = strings_view(lines@);
            let mut l = chars_of("  ");
            push_str(&mut l, x.form.as_str());
            push_str(&mut l, "  —  ");
            push_str(&mut l, x.meaning.as_str());
            if x.register.len() > 0 {
                push_str(&mut l, "  [");
                push_all(&mut l, &join_strings(&x.register, ","));
                push_str(&mut l, "]");
            }
            assert(l@ =~= idiom_lines(*x)[0]);
            push_line(&mut lines, &l);
            if trim(&chars_of(x.literal.as_str())).len() > 0 {
                let mut t = chars_of("      (lit. ");
                push_str(&mut t, x.literal.as_str());
                push_str(&mut t, ")");
                push_line(&mut lines, &t);
            }
            assert(strings_view(lines@) =~= before + idiom_lines(*x));
            let ghost g = idioms@.take(i + 1).map_values(|x: IdiomListing| idiom_lines(x));
            assert(g.drop_last() =~= idioms@.take(i as int).map_values(|x: IdiomListing| idiom_lines(x)));
            assert(g.last() == idiom_lines(idioms@[i as int]));
            i = i + 1;
        }
        assert(idioms@.take(idioms@.len() as int) =~= idioms@);
    }
    let ghost mid = strings_view(lines@);
    if metaphors.len() > 0 {
        let mut h = chars_of("\nmetaphors (");
        push_all(&mut h, &decimal_digits(metaphors.len()));
        push_str(&mut h, "):");
        push_line(&mut lines, &h);
        let ghost start = strings_view(lines@);
        let mut j: usize = 0;
        while j < metaphors.len()
            invariant
                j <= metaphors@.len(),
                strings_view(lines@) == start + metaphors@.take(j as int).map_values(
                    |m: MetaphorListing| metaphor_line(m),
                ),
            decreases metaphors@.len() - j,
        {
            let m = &metaphors[j];
            let mut l = chars_of("  ");
            push_str(&mut l, m.source.as_str());
            push_str(&mut l, " → ");
            push_str(&mut l, m.target.as_str());
            if m.examples.len() > 0 {
                push_str(&mut l, "  e.g. ");
                push_all(&mut l, &join_strings(&m.examples, "; "));
            }
            assert(l@ =~= metaphor_line(*m));
            push_line(&mut lines, &l);
            assert(metaphors@.take(j + 1).map_values(|m: MetaphorListing| metaphor_line(m))
                =~= metaphors@.take(j as int).map_values(|m: MetaphorListing| metaphor_line(m)).push(
                l@,
            ));
            j = j + 1;
        }
        assert(metaphors@.take(metaphors@.len() as int) =~= metaphors@);
    }
    assert(strings_view(lines@) =~= idioms_text(language@, idioms@, metaphors@));
    lines
}

/// The listing of `language memory`.
pub open spec fn memory_text(language: Seq<char>, pairs: Seq<(String, String)>) -> Seq<Seq<char>> {
    if pairs.len() == 0 {
        seq![
            language + " has no remembered translations yet — add one with `language remember "@
                + language + " --english … --conlang …`."@,
        ]
    } else {
        seq![language + " · "@ + decimal(pairs.len()) + " remembered translation(s):"@]
            + pairs.map_values(|p: (String, String)| "  "@ + p.0@ + "  →  "@ + p.1@)
    }
}

/// Lists the translations a language remembers, English then conlang.
pub fn memory_report(language: &str, pairs: &Vec<(String, String)>) -> (r: Vec<String>)
    ensures
        strings_view(r@) == memory_text(language@, pairs@),
{
    let mut lines: Vec<String> = Vec::new();
    if pairs.len() == 0 {
        let mut m = chars_of(language);
        push_str(&mut m, " has no remembered translations yet — add one with `language remember ");
        push_str(&mut m, language);
        push_str(&mut m, " --english … --conlang …`.");
        push_line(&mut lines, &m);
        assert(strings_view(lines@) =~= memory_text(language@, pairs@));
        return lines;
    }
    let mut h = chars_of(language);
    push_str(&mut h, " · ");
    push_all(&mut h, &decimal_digits(pairs.len()));
    push_str(&mut h, " remembered translation(s):");
    push_line(&mut lines, &h);
    let ghost start = strings_view(lines@);
    let mut i: usize = 0;
    while i < pairs.len()
        invariant
            i <= pairs@.len(),
            strings_view(lines@) == start + pairs@.take(i as int).map_values(
                |p: (String, String)| "  "@ + p.0@ + "  →  "@ + p.1@,
            ),
        decreases pairs@.len() - i,
    {
        let mut l = chars_of("  ");
        push_str(&mut l, pairs[i].0.as_str());
        push_str(&mut l, "  →  ");
        push_str(&mut l, pairs[i].1.as_str());
        push_line(&mut lines, &l);
        assert(pairs@.take(i + 1).map_values(|p: (String, String)| "  "@ + p.0@ + "  →  "@ + p.1@)
            =~= pairs@.take(i as int).map_values(|p: (String, String)| "  "@ + p.0@ + "  →  "@ + p.1@).push(
            l@,
        ));
        i = i + 1;
    }
    assert(pairs@.take(pairs@.len() as int) =~= pairs@);
    assert(strings_view(lines@) =~= memory_text(language@, pairs@));
    lines
}

/// A variety as listed: its id, its summary and an optional note.
pub struct VarietyListing {
    pub id: String,
    pub summary: String,
    pub note: Option<String>,
}

/// A variety's lines: the id padded to fourteen characters with its
/// summary, then the note under the summary when there is one.
pub open spec fn variety_lines(v: VarietyListing) -> Seq<Seq<char>> {
    seq!["  "@ + pad_right(v.id@, 14) + " "@ + v.summary@] + match v.note {
        Some(n) => seq!["  "@ + spaces(14) + " "@ + n@],
        None => Seq::<Seq<char>>::empty(),
    }
}

/// The listing of `language varieties`.
pub open spec fn varieties_text(language: Seq<char>, vs: Seq<VarietyListing>) -> Seq<Seq<char>> {
    if vs.len() == 0 {
        seq![
            language
                + " declares no varieties — add a `{ varieties: [ … ] }` block to its Grammar chapter (see Documentation/CONLANG.md)."@,
        ]
    } else {
        seq![language + " · "@ + decimal(vs.len()) + " variet(y/ies):"@] + flat(
            vs.map_values(|v: VarietyListing| variety_lines(v)),
        )
    }
}

/// Lists the varieties a language declares.
pub fn varieties_report(language: &str, vs: &Vec<VarietyListing>) -> (r: Vec<String>)
    ensures
        strings_view(r@) == varieties_text(language@, vs@),
{
    let mut lines: Vec<String> = Vec::new();
    if vs.len() == 0 {
        let mut m = chars_of(language);
        push_str(
            &mut m,
            " declares no varieties — add a `{ varieties: [ … ] }` block to its Grammar chapter (see Documentation/CONLANG.md).",
        );
        push_line(&mut lines, &m);
        assert(strings_view(lines@) =~= varieties_text(language@, vs@));
        return lines;
    }
    let mut h = chars_of(language);
    push_str(&mut h, " · ");
    push_all(&mut h, &decimal_digits(vs.len()));
    push_str(&mut h, " variet(y/ies):");
    push_line(&mut lines, &h);
    let ghost start = strings_view(lines@);
    let mut i: usize = 0;
    while i < vs.len()
        invariant
            i <= vs@.len(),
            strings_view(lines@) == start + flat(vs@.take(i as int).map_values(|v: VarietyListing| variety_lines(v))),
        decreases vs@.len() - i,
    {
        let v = &vs[i];
        let ghost before = strings_view(lines@);
        let mut l = chars_of("  ");
        push_padded(&mut l, &chars_of(v.id.as_str()), 14);
        push_str(&mut l, " ");
        push_str(&mut l, v.summary.as_str());
        push_line(&mut lines, &l);
        match &v.note {
            Some(n) => {
                let mut t = chars_of("  ");
                push_padded(&mut t, &Vec::new(), 14);
                push_str(&mut t, " ");
                push_str(&mut t, n.as_str());
                assert(pad_right(Seq::<char>::empty(), 14) =~= spaces(14));
                push_line(&mut lines, &t);
            },
            None => {},
        }
        assert(strings_view(lines@) =~= before + variety_lines(*v));
        let ghost g = vs@.take(i + 1).map_values(|v: VarietyListing| variety_lines(v));
        assert(g.drop_last() =~= vs@.take(i as int).map_values(|v: VarietyListing| variety_lines(v)));
        assert(g.last() == variety_lines(vs@[i as int]));
        i = i + 1;
    }
    assert(vs@.take(vs@.len() as int) =~= vs@);
    lines
}

/// The listing of `language speakers`.
pub open spec fn speakers_text(title: Seq<char>, places: Seq<String>, characters: Seq<(String, String)>) -> Seq<
    Seq<char>,
> {
    seq!["speakers of "@ + title] + if places.len() == 0 && characters.len() == 0 {
        seq!["  (none linked yet — see `inkhaven language link-place` / `link-character`)"@]
    } else {
        (if places.len() > 0 {
            seq!["\n  places ("@ + decimal(places.len()) + "):"@] + places.map_values(
                |p: String| "    "@ + p@,
            )
        } else {
            Seq::<Seq<char>>::empty()
        }) + if characters.len() > 0 {
            seq!["\n  characters ("@ + decimal(characters.len()) + "):"@] + characters.map_values(
                |c: (String, String)| "    "@ + pad_right(c.0@, 20) + " "@ + c.1@,
            )
        } else {
            Seq::<Seq<char>>::empty()
        }
    }
}

/// Lists the places and characters (with their proficiency) linked to a
/// language.
pub fn speakers_report(title: &str, places: &Vec<String>, characters: &Vec<(String, String)>) -> (r: Vec<String>)
    ensures
        strings_view(r@) == speakers_text(title@, places@, characters@),
{
    let mut lines: Vec<String> = Vec::new();
    let mut h = chars_of("speakers of ");
    push_str(&mut h, title);
    push_line(&mut lines, &h);
    if places.len() == 0 && characters.len() == 0 {
        push_text_line(&mut lines, "  (none linked yet — see `inkhaven language link-place` / `link-character`)");
        assert(strings_view(lines@) =~= speakers_text(title@, places@, characters@));
        return lines;
    }
    let ghost s0 = strings_view(lines@);
    if places.len() > 0 {
        let mut p = chars_of("\n  places (");
        push_all(&mut p, &decimal_digits(places.len()));
        push_str(&mut p, "):");
        push_line(&mut lines, &p);
        let ghost start = strings_view(lines@);
        let mut i: usize = 0;
        while i < places.len()
            invariant
                i <= places@.len(),
                strings_view(lines@) == start + places@.take(i as int).map_values(|p: String| "    "@ + p@),
            decreases places@.len() - i,
        {
            let mut l = chars_of("    ");
            push_str(&mut l, places[i].as_str());
            push_line(&mut lines, &l);
            assert(places@.take(i + 1).map_values(|p: String| "    "@ + p@) =~= places@.take(
                i as int,
            ).map_values(|p: String| "    "@ + p@).push(l@));
            i = i + 1;
        }
        assert(places@.take(places@.len() as int) =~= places@);
    }
    if characters.len() > 0 {
        let mut c = chars_of("\n  characters (");
        push_all(&mut c, &decimal_digits(characters.len()));
        push_str(&mut c, "):");
        push_line(&mut lines, &c);
        let ghost start = strings_view(lines@);
        let mut j: usize = 0;
        while j < characters.len()
            invariant
                j <= characters@.len(),
                strings_view(lines@) == start + characters@.take(j as int).map_values(
                    |c: (String, String)| "    "@ + pad_right(c.0@, 20) + " "@ + c.1@,
                ),
            decreases characters@.len() - j,
        {
            let mut l = chars_of("    ");
            push_padded(&mut l, &chars_of(characters[j].0.as_str()), 20);
            push_str(&mut l, " ");
            push_str(&mut l, characters[j].1.as_str());
            push_line(&mut lines, &l);
            assert(characters@.take(j + 1).map_values(
                |c: (String, String)| "    "@ + pad_right(c.0@, 20) + " "@ + c.1@,
            ) =~= characters@.take(j as int).map_values(
                |c: (String, String)| "    "@ + pad_right(c.0@, 20) + " "@ + c.1@,
            ).push(l@));
            j = j + 1;
        }
        assert(characters@.take(characters@.len() as int) =~= characters@);
    }
    assert(strings_view(lines@) =~= speakers_text(title@, places@, characters@));
    lines
}

// ───────────────────────── the lexicon audit ──────────────────────────────

/// A word whose underlying form breaks the language's constraints.
pub struct PhonotacticViolation {
    pub headword: String,
    pub underlying: String,
}

/// A group of words sharing a key (a surface form, or a meaning), each with
/// its gloss.
pub struct CollisionGroup {
    pub key: String,
    pub members: Vec<(String, String)>,
}

/// A violation's line.
pub open spec fn violation_line(v: PhonotacticViolation) -> Seq<char> {
    "      "@ + v.headword@ + " (/"@ + v.underlying@ + "/) breaks the language's constraints"@
}

/// A homophone group's line: the key, then each word with its gloss.
pub open spec fn homophone_line(c: CollisionGroup) -> Seq<char> {
    "      ["@ + c.key@ + "] "@ + join_seqs(
        c.members@.map_values(|m: (String, String)| m.0@ + " ("@ + m.1@ + ")"@),
        ", "@,
    )
}

/// A duplicate-meaning group's line: the meaning quoted, then the words.
pub open spec fn duplicate_line(c: CollisionGroup) -> Seq<char> {
    "      \""@ + c.key@ + "\" — "@ + join_seqs(c.members@.map_values(|m: (String, String)| m.0@), ", "@)
}

/// The report of `language audit`: the heading, then the all-clear when the
/// engine counts no issue, else each non-empty section.
pub open spec fn audit_text(
    language: Seq<char>,
    total: nat,
    issues: nat,
    violations: Seq<PhonotacticViolation>,
    homophones: Seq<CollisionGroup>,
    duplicates: Seq<CollisionGroup>,
) -> Seq<Seq<char>> {
    seq!["lexicon audit · "@ + language + " · "@ + decimal(total) + " entr(y/ies)"@] + if issues == 0 {
        seq!["  ✓ no issues"@]
    } else {
        (if violations.len() > 0 {
            seq!["\n  ⚠ phonotactic violations ("@ + decimal(violations.len()) + "):"@] + violations.map_values(
                |v: PhonotacticViolation| violation_line(v),
            )
        } else {
            Seq::<Seq<char>>::empty()
        }) + (if homophones.len() > 0 {
            seq!["\n  ⚠ homophones ("@ + decimal(homophones.len()) + " group(s)):"@] + homophones.map_values(
                |c: CollisionGroup| homophone_line(c),
            )
        } else {
            Seq::<Seq<char>>::empty()
        }) + if duplicates.len() > 0 {
            seq!["\n  ⚠ duplicate meanings ("@ + decimal(duplicates.len()) + " group(s)):"@]
                + duplicates.map_values(|c: CollisionGroup| duplicate_line(c))
        } else {
            Seq::<Seq<char>>::empty()
        }
    }
}

/// The members of a group as `word (gloss)` texts.
fn member_texts(c: &CollisionGroup, with_gloss: bool) -> (r: Vec<String>)
    ensures
        strings_view(r@) == if with_gloss {
            c.members@.map_values(|m: (String, String)| m.0@ + " ("@ + m.1@ + ")"@)
        } else {
            c.members@.map_values(|m: (String, String)| m.0@)
        },
{
    let mut r: Vec<String> = Vec::new();
    let mut i: usize = 0;
    while i < c.members.len()
        invariant
            i <= c.members@.len(),
            strings_view(r@) == if with_gloss {
                c.members@.take(i as int).map_values(|m: (String, String)| m.0@ + " ("@ + m.1@ + ")"@)
            } else {
                c.members@.take(i as int).map_values(|m: (String, String)| m.0@)
            },
        decreases c.members@.len() - i,
    {
        let mut t = chars_of(c.members[i].0.as_str());
        if with_gloss {
            push_str(&mut t, " (");
            push_str(&mut t, c.members[i].1.as_str());
            push_str(&mut t, ")");
        }
        push_line(&mut r, &t);
        assert(c.members@.take(i + 1).map_values(|m: (String, String)| m.0@ + " ("@ + m.1@ + ")"@)
            =~= c.members@.take(i as int).map_values(|m: (String, String)| m.0@ + " ("@ + m.1@ + ")"@).push(
            c.members@[i as int].0@ + " ("@ + c.members@[i as int].1@ + ")"@,
        ));
        assert(c.members@.take(i + 1).map_values(|m: (String, String)| m.0@) =~= c.members@.take(
            i as int,
        ).map_values(|m: (String, String)| m.0@).push(c.members@[i as int].0@));
        i = i + 1;
    }
    assert(c.members@.take(c.members@.len() as int) =~= c.members@);
    r
}

/// The report of a lexicon audit. `issues` is the number of issues the
/// audit engine counts.
pub fn audit_report(
    language: &str,
    total: usize,
    issues: usize,
    violations: &Vec<PhonotacticViolation>,
    homophones: &Vec<CollisionGroup>,
    duplicates: &Vec<CollisionGroup>,
) -> (r: Vec<String>)
    ensures
        strings_view(r@) == audit_text(
            language@,
            total as nat,
            issues as nat,
            violations@,
            homophones@,
            duplicates@,
        ),
{
    let mut lines: Vec<String> = Vec::new();
    let mut h = chars_of("lexicon audit · ");
    push_str(&mut h, language);
    push_str(&mut h, " · ");
    push_all(&mut h, &decimal_digits(total));
    push_str(&mut h, " entr(y/ies)");
    push_line(&mut lines, &h);
    if issues == 0 {
        push_text_line(&mut lines, "  ✓ no issues");
        assert(strings_view(lines@) =~= audit_text(
            language@,
            total as nat,
            issues as nat,
            violations@,
            homophones@,
            duplicates@,
        ));
        return lines;
    }
    let ghost s1 = strings_view(lines@);
    if violations.len() > 0 {
        let mut v = chars_of("\n  ⚠ phonotactic violations (");
        push_all(&mut v, &decimal_digits(violations.len()));
        push_str(&mut v, "):");
        push_line(&mut lines, &v);
        let ghost start = strings_view(lines@);
        let mut i: usize = 0;
        while i < violations.len()
            invariant
                i <= violations@.len(),
                strings_view(lines@) == start + violations@.take(i as int).map_values(
                    |v: PhonotacticViolation| violation_line(v),
                ),
            decreases violations@.len() - i,
        {
            let mut l = chars_of("      ");
            push_str(&mut l, violations[i].headword.as_str());
            push_str(&mut l, " (/");
            push_str(&mut l, violations[i].underlying.as_str());
            push_str(&mut l, "/) breaks the language's constraints");
            push_line(&mut lines, &l);
            assert(violations@.take(i + 1).map_values(|v: PhonotacticViolation| violation_line(v))
                =~= violations@.take(i as int).map_values(|v: PhonotacticViolation| violation_line(v)).push(
                l@,
            ));
            i = i + 1;
        }
        assert(violations@.take(violations@.len() as int) =~= violations@);
    }
    let ghost s2 = strings_view(lines@);
    if homophones.len() > 0 {
        let mut v = chars_of("\n  ⚠ homophones (");
        push_all(&mut v, &decimal_digits(homophones.len()));
        push_str(&mut v, " group(s)):");
        push_line(&mut lines, &v);
        let ghost start = strings_view(lines@);
        let mut i: usize = 0;
        while i < homophones.len()
            invariant
                i <= homophones@.len(),
                strings_view(lines@) == start + homophones@.take(i as int).map_values(
                    |c: CollisionGroup| homophone_line(c),
                ),
            decreases homophones@.len() - i,
        {
            let mut l = chars_of("      [");
            push_str(&mut l, homophones[i].key.as_str());
            push_str(&mut l, "] ");
            push_all(&mut l, &join_strings(&member_texts(&homophones[i], true), ", "));
            push_line(&mut lines, &l);
            assert(homophones@.take(i + 1).map_values(|c: CollisionGroup| homophone_line(c))
                =~= homophones@.take(i as int).map_values(|c: CollisionGroup| homophone_line(c)).push(l@));
            i = i + 1;
        }
        assert(homophones@.take(homophones@.len() as int) =~= homophones@);
    }
    let ghost s3 = strings_view(lines@);
    if duplicates.len() > 0 {
        let mut v = chars_of("\n  ⚠ duplicate meanings (");
        push_all(&mut v, &decimal_digits(duplicates.len()));
        push_str(&mut v, " group(s)):");
        push_line(&mut lines, &v);
        let ghost start = strings_view(lines@);
        let mut i: usize = 0;
        while i < duplicates.len()
            invariant
                i <= duplicates@.len(),
                strings_view(lines@) == start + duplicates@.take(i as int).map_values(
                    |c: CollisionGroup| duplicate_line(c),
                ),
            decreases duplicates@.len() - i,
        {
            let mut l = chars_of("      \"");
            push_str(&mut l, duplicates[i].key.as_str());
            push_str(&mut l, "\" — ");
            push_all(&mut l, &join_strings(&member_texts(&duplicates[i], false), ", "));
            push_line(&mut lines, &l);
            assert(duplicates@.take(i + 1).map_values(|c: CollisionGroup| duplicate_line(c))
                =~= duplicates@.take(i as int).map_values(|c: CollisionGroup| duplicate_line(c)).push(l@));
            i = i + 1;
        }
        assert(duplicates@.take(duplicates@.len() as int) =~= duplicates@);
    }
    assert(strings_view(lines@) =~= audit_text(
        language@,
        total as nat,
        issues as nat,
        violations@,
        homophones@,
        duplicates@,
    ));
    lines
}

// ───────────────────────── dictionary queries ─────────────────────────────

/// A dictionary entry a query matched, with the fields the listing shows.
pub struct QueryHit {
    pub word: String,
    pub translation: String,
    pub pos: String,
    pub registers: Vec<String>,
    pub domain: Vec<String>,
    pub era: Option<String>,
}

/// The tags of a hit: its registers in brackets, its domains in braces and
/// its era in angle brackets, each when present.
pub open spec fn hit_tags(h: QueryHit) -> Seq<Seq<char>> {
    (if h.registers@.len() > 0 {
        seq!["["@ + join_seqs(strings_view(h.registers@), ","@) + "]"@]
    } else {
        Seq::<Seq<char>>::empty()
    }) + (if h.domain@.len() > 0 {
        seq!["{"@ + join_seqs(strings_view(h.domain@), ","@) + "}"@]
    } else {
        Seq::<Seq<char>>::empty()
    }) + match h.era {
        Some(e) => seq!["<"@ + e@ + ">"@],
        None => Seq::<Seq<char>>::empty(),
    }
}

/// A hit's line: the word padded to sixteen characters, the gloss, the part
/// of speech in parentheses unless blank, then the tags.
pub open spec fn hit_line(h: QueryHit) -> Seq<char> {
    "  "@ + pad_right(h.word@, 16) + " "@ + h.translation@ + (if trim_ws(h.pos@).len() == 0 {
        Seq::<char>::empty()
    } else {
        " ("@ + h.pos@ + ")"@
    }) + if hit_tags(h).len() == 0 {
        Seq::<char>::empty()
    } else {
        "  "@ + join_seqs(hit_tags(h), " "@)
    }
}

/// The listing of a dictionary query: how many of the entries matched,
/// then each hit.
pub fn query_report(total: usize, hits: &Vec<QueryHit>) -> (r: Vec<String>)
    ensures
        strings_view(r@) == seq![decimal(hits@.len()) + " / "@ + decimal(total as nat) + " entr(y/ies) match"@]
            + hits@.map_values(|h: QueryHit| hit_line(h)),
{
    let mut lines: Vec<String> = Vec::new();
    let mut h = decimal_digits(hits.len());
    push_str(&mut h, " / ");
    push_all(&mut h, &decimal_digits(total));
    push_str(&mut h, " entr(y/ies) match");
    push_line(&mut lines, &h);
    let ghost start = strings_view(lines@);
    let mut i: usize = 0;
    while i < hits.len()
        invariant
            i <= hits@.len(),
            strings_view(lines@) == start + hits@.take(i as int).map_values(|h: QueryHit| hit_line(h)),
        decreases hits@.len() - i,
    {
        let x = &hits[i];
        let mut tags: Vec<String> = Vec::new();
        if x.registers.len() > 0 {
            let mut t = chars_of("[");
            push_all(&mut t, &join_strings(&x.registers, ","));
            push_str(&mut t, "]");
            push_line(&mut tags, &t);
        }
        if x.domain.len() > 0 {
            let mut t = chars_of("{");
            push_all(&mut t, &join_strings(&x.domain, ","));
            push_str(&mut t, "}");
            push_line(&mut tags, &t);
        }
        match &x.era {
            Some(e) => {
                let mut t = chars_of("<");
                push_str(&mut t, e.as_str());
                push_str(&mut t, ">");
                push_line(&mut tags, &t);
            },
            None => {},
        }
        assert(strings_view(tags@) =~= hit_tags(*x));
        let mut l = chars_of("  ");
        push_padded(&mut l, &chars_of(x.word.as_str()), 16);
        push_str(&mut l, " ");
        push_str(&mut l, x.translation.as_str());
        if trim(&chars_of(x.pos.as_str())).len() > 0 {
            push_str(&mut l, " (");
            push_str(&mut l, x.pos.as_str());
            push_str(&mut l, ")");
        }
        if tags.len() > 0 {
            push_str(&mut l, "  ");
            push_all(&mut l, &join_strings(&tags, " "));
        }
        assert(l@ =~= hit_line(*x));
        push_line(&mut lines, &l);
        assert(hits@.take(i + 1).map_values(|h: QueryHit| hit_line(h)) =~= hits@.take(i as int).map_values(
            |h: QueryHit| hit_line(h),
        ).push(l@));
        i = i + 1;
    }
    assert(hits@.take(hits@.len() as int) =~= hits@);
    lines
}

// ───────────────────────── synthetic corpus ───────────────────────────────

/// The listing of a synthetic-corpus run below its heading: the first six
/// accepted pairs, how many more there are, the words most often missing
/// with their counts, and whether the pairs were seeded into memory.
pub open spec fn corpus_text(
    language: Seq<char>,
    accepted: Seq<(String, String)>,
    missing: Seq<(String, usize)>,
    commit: bool,
) -> Seq<Seq<char>> {
    accepted.take(if accepted.len() < 6 {
        accepted.len() as int
    } else {
        6
    }).map_values(|p: (String, String)| "  "@ + p.0@ + "  →  "@ + p.1@) + (if accepted.len() > 6 {
        seq!["  … and "@ + decimal((accepted.len() - 6) as nat) + " more"@]
    } else {
        Seq::<Seq<char>>::empty()
    }) + (if missing.len() > 0 {
        seq![
            "\ntop missing words: "@ + join_seqs(
                missing.map_values(|m: (String, usize)| m.0@ + " ("@ + decimal(m.1 as nat) + ")"@),
                ", "@,
            ),
            "add them with `language add-word` to raise coverage."@,
        ]
    } else {
        Seq::<Seq<char>>::empty()
    }) + if commit {
        seq!["\nseeded "@ + decimal(accepted.len()) + " pair(s) into "@ + language + "'s translation memory."@]
    } else {
        seq!["\n(preview — re-run with --yes to seed the translation memory)"@]
    }
}

/// The lines of a synthetic-corpus run.
pub fn corpus_lines(
    language: &str,
    accepted: &Vec<(String, String)>,
    missing: &Vec<(String, usize)>,
    commit: bool,
) -> (r: Vec<String>)
    ensures
        strings_view(r@) == corpus_text(language@, accepted@, missing@, commit),
{
    let mut lines: Vec<String> = Vec::new();
    let k: usize = if accepted.len() < 6 {
        accepted.len()
    } else {
        6
    };
    let mut i: usize = 0;
    while i < k
        invariant
            i <= k,
            k <= accepted@.len(),
            strings_view(lines@) == accepted@.take(i as int).map_values(
                |p: (String, String)| "  "@ + p.0@ + "  →  "@ + p.1@,
            ),
        decreases k - i,
    {
        let mut l = chars_of("  ");
        push_str(&mut l, accepted[i].0.as_str());
        push_str(&mut l, "  →  ");
        push_str(&mut l, accepted[i].1.as_str());
        push_line(&mut lines, &l);
        assert(accepted@.take(i + 1).map_values(|p: (String, String)| "  "@ + p.0@ + "  →  "@ + p.1@)
            =~= accepted@.take(i as int).map_values(|p: (String, String)| "  "@ + p.0@ + "  →  "@ + p.1@).push(
            l@,
        ));
        i = i + 1;
    }
    let ghost s1 = strings_view(lines@);
    if accepted.len() > 6 {
        let mut l = chars_of("  … and ");
        push_all(&mut l, &decimal_digits(accepted.len() - 6));
        push_str(&mut l, " more");
        push_line(&mut lines, &l);
    }
    let ghost s2 = strings_view(lines@);
    if missing.len() > 0 {
        let mut parts: Vec<String> = Vec::new();
        let mut j: usize = 0;
        while j < missing.len()
            invariant
                j <= missing@.len(),
                strings_view(parts@) == missing@.take(j as int).map_values(
                    |m: (String, usize)| m.0@ + " ("@ + decimal(m.1 as nat) + ")"@,
                ),
            decreases missing@.len() - j,
        {
            let mut t = chars_of(missing[j].0.as_str());
            push_str(&mut t, " (");
            push_all(&mut t, &decimal_digits(missing[j].1));
            push_str(&mut t, ")");
            push_line(&mut parts, &t);
            assert(missing@.take(j + 1).map_values(
                |m: (String, usize)| m.0@ + " ("@ + decimal(m.1 as nat) + ")"@,
            ) =~= missing@.take(j as int).map_values(
                |m: (String, usize)| m.0@ + " ("@ + decimal(m.1 as nat) + ")"@,
            ).push(t@));
            j = j + 1;
        }
        assert(missing@.take(missing@.len() as int) =~= missing@);
        let mut l = chars_of("\ntop missing words: ");
        push_all(&mut l, &join_strings(&parts, ", "));
        push_line(&mut lines, &l);
        push_text_line(&mut lines, "add them with `language add-word` to raise coverage.");
    }
    let ghost s3 = strings_view(lines@);
    if commit {
        let mut l = chars_of("\nseeded ");
        push_all(&mut l, &decimal_digits(accepted.len()));
        push_str(&mut l, " pair(s) into ");
        push_str(&mut l, language);
        push_str(&mut l, "'s translation memory.");
        push_line(&mut lines, &l);
    } else {
        push_text_line(&mut lines, "\n(preview — re-run with --yes to seed the translation memory)");
    }
    assert(strings_view(lines@) =~= corpus_text(language@, accepted@, missing@, commit));
    lines
}

} // verus!
