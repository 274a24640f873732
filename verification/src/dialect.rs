//! `language propose-dialect`: the request sent to the model, the reading
//! of its labelled reply, the variety's id and the HJSON paragraph that
//! records an accepted variety.
use vstd::prelude::*;
use crate::entry::DictionaryEntry;
use crate::text::{
    chars_eq_ignore_ascii_case, chars_of, contains_char, eq_ignore_ascii_case, find, find_char,
    join, join_seqs, lines, lines_of, push_all, push_line, push_str, replace, replace_char,
    str_to_lowercase, string_of, strings_view, subvec, trim, trim_end, trim_end_ws, trim_ws,
    unicode_str_lowercase, white_space, char_is_whitespace, vviews,
};

verus! {

// ───────────────────────── the request ────────────────────────────────────

/// The non-blank glosses among the first eight entries, in order.
pub open spec fn sample_glosses(translations: Seq<Seq<char>>) -> Seq<Seq<char>>
    decreases translations.len(),
{
    if translations.len() == 0 {
        seq![]
    } else {
        let t = if translations.len() <= 8 {
            translations
        } else {
            translations.take(8)
        };
        keep_nonblank(t)
    }
}

/// The texts that are not blank after trimming, in order.
pub open spec fn keep_nonblank(xs: Seq<Seq<char>>) -> Seq<Seq<char>>
    decreases xs.len(),
{
    if xs.len() == 0 {
        seq![]
    } else {
        keep_nonblank(xs.drop_last()) + if trim_ws(xs.last()).len() > 0 {
            seq![xs.last()]
        } else {
            Seq::<Seq<char>>::empty()
        }
    }
}

/// The request for a dialect: the phoneme inventory, the vowel class, some
/// glosses the dialect may give its own words, and the author's description.
pub open spec fn dialect_request(
    phonemes: Seq<Seq<char>>,
    vowels: Seq<Seq<char>>,
    translations: Seq<Seq<char>>,
    describe: Seq<char>,
) -> Seq<char> {
    "Language phonemes: "@ + join_seqs(phonemes, " "@) + ". Vowel class V = "@ + join_seqs(
        vowels,
        " "@,
    ) + ". Concepts you may give a dialect-specific word (gloss → form): "@ + join_seqs(
        sample_glosses(translations),
        ", "@,
    ) + ". Design a variety that is: "@ + describe + "."@
}

/// The character vectors of a list of strings.
fn char_vecs(v: &[String]) -> (r: Vec<Vec<char>>)
    ensures
        vviews(r@) == strings_view(v@),
{
    let mut r: Vec<Vec<char>> = Vec::new();
    let mut i: usize = 0;
    while i < v.len()
        invariant
            i <= v@.len(),
            vviews(r@) == strings_view(v@).take(i as int),
        decreases v@.len() - i,
    {
        let ghost before = vviews(r@);
        r.push(chars_of(v[i].as_str()));
        assert(vviews(r@) =~= before.push(v@[i as int]@));
        assert(strings_view(v@).take(i + 1) =~= strings_view(v@).take(i as int).push(v@[i as int]@));
        i = i + 1;
    }
    assert(strings_view(v@).take(v@.len() as int) =~= strings_view(v@));
    r
}

/// The user message asking the model for a dialect. `translations` are the
/// dictionary's glosses in entry order; the non-blank ones among the first
/// eight are offered.
pub fn dialect_prompt(
    phonemes: &[String],
    vowels: &[String],
    translations: &[String],
    describe: &str,
) -> (r: String)
    ensures
        r@ == dialect_request(
            strings_view(phonemes@),
            strings_view(vowels@),
            strings_view(translations@),
            describe@,
        ),
{
    let ghost ts = strings_view(translations@);
    let n = if translations.len() <= 8 {
        translations.len()
    } else {
        8
    };
    let mut glosses: Vec<Vec<char>> = Vec::new();
    let mut i: usize = 0;
    let ghost t = if ts.len() <= 8 {
        ts
    } else {
        ts.take(8)
    };
    assert(t.len() == n);
    while i < n
        invariant
            i <= n,
            n <= translations@.len(),
            ts == strings_view(translations@),
            t.len() == n,
            forall|k: int| 0 <= k < n ==> #[trigger] t[k] == ts[k],
            vviews(glosses@) == keep_nonblank(t.take(i as int)),
        decreases n - i,
    {
        let g = chars_of(translations[i].as_str());
        assert(t.take(i + 1).drop_last() =~= t.take(i as int));
        assert(t.take(i + 1).last() == t[i as int]);
        assert(t[i as int] == translations@[i as int]@);
        if trim(&g).len() > 0 {
            let ghost before = vviews(glosses@);
            glosses.push(g);
            assert(vviews(glosses@) =~= before.push(t[i as int]));
        }
        i = i + 1;
    }
    assert(t.take(n as int) =~= t);
    let mut space: Vec<char> = Vec::new();
    push_str(&mut space, " ");
    let mut comma: Vec<char> = Vec::new();
    push_str(&mut comma, ", ");
    let mut r = chars_of("Language phonemes: ");
    push_all(&mut r, &join(&char_vecs(phonemes), &space));
    push_str(&mut r, ". Vowel class V = ");
    push_all(&mut r, &join(&char_vecs(vowels), &space));
    push_str(&mut r, ". Concepts you may give a dialect-specific word (gloss → form): ");
    push_all(&mut r, &join(&glosses, &comma));
    push_str(&mut r, ". Design a variety that is: ");
    push_str(&mut r, describe);
    push_str(&mut r, ".");
    string_of(&r)
}

// ───────────────────────── reading the reply ──────────────────────────────

/// Where in the reply a line falls.
pub enum ReplySection {
    /// Before any label.
    Preamble,
    /// After a `SOUND_CHANGES` label.
    Rules,
    /// After a `LEXICON` label.
    Lexicon,
}

/// Whether `t` starts with `p`, ASCII letters compared without case (as
/// uppercasing `t` and testing the prefix does).
pub open spec fn starts_with_ci(t: Seq<char>, p: Seq<char>) -> bool {
    t.len() >= p.len() && eq_ignore_ascii_case(t.take(p.len() as int), p)
}

/// A rule line with its leading `-`, `*` and spaces removed.
pub open spec fn bullet_trimmed(t: Seq<char>) -> Seq<char>
    decreases t.len(),
{
    if t.len() > 0 && (t[0] == '-' || t[0] == '*' || t[0] == ' ') {
        bullet_trimmed(t.drop_first())
    } else {
        t
    }
}

/// A `gloss = form` line split at its first `=`, both sides trimmed and
/// non-empty.
pub open spec fn lexicon_pair(t: Seq<char>) -> Option<(Seq<char>, Seq<char>)> {
    let i = find_char(t, '=');
    if i >= t.len() {
        None
    } else {
        let g = trim_ws(t.take(i));
        let f = trim_ws(t.skip(i + 1));
        if g.len() > 0 && f.len() > 0 {
            Some((g, f))
        } else {
            None
        }
    }
}

/// The section after each line, and the rules and word pairs read so far.
pub open spec fn read_reply(ls: Seq<Seq<char>>) -> (ReplySection, Seq<Seq<char>>, Seq<(Seq<char>, Seq<char>)>)
    decreases ls.len(),
{
    if ls.len() == 0 {
        (ReplySection::Preamble, seq![], seq![])
    } else {
        let prev = read_reply(ls.drop_last());
        let t = trim_ws(ls.last());
        if starts_with_ci(t, "SOUND_CHANGES"@) {
            (ReplySection::Rules, prev.1, prev.2)
        } else if starts_with_ci(t, "LEXICON"@) {
            (ReplySection::Lexicon, prev.1, prev.2)
        } else if t.len() == 0 {
            prev
        } else {
            match prev.0 {
                ReplySection::Rules => if t.contains('>') {
                    (prev.0, prev.1.push(bullet_trimmed(t)), prev.2)
                } else {
                    prev
                },
                ReplySection::Lexicon => match lexicon_pair(t) {
                    Some(p) => (prev.0, prev.1, prev.2.push(p)),
                    None => prev,
                },
                ReplySection::Preamble => prev,
            }
        }
    }
}

/// The sound-change lines and the `gloss = form` pairs of a reply.
pub struct DialectReply {
    pub rules: Vec<String>,
    pub lexicon: Vec<(String, String)>,
}

/// The character sequences of a list of string pairs.
pub open spec fn pairs_view(v: Seq<(String, String)>) -> Seq<(Seq<char>, Seq<char>)> {
    v.map_values(|p: (String, String)| (p.0@, p.1@))
}

/// Whether `t` starts with `p` ignoring ASCII case.
fn starts_with_ci_exec(t: &Vec<char>, p: &str) -> (r: bool)
    ensures
        r == starts_with_ci(t@, p@),
{
    let pv = chars_of(p);
    if t.len() < pv.len() {
        false
    } else {
        chars_eq_ignore_ascii_case(&subvec(t, 0, pv.len()), &pv)
    }
}

/// A rule line without its leading bullet characters.
fn bullet_trimmed_exec(t: &Vec<char>) -> (r: Vec<char>)
    ensures
        r@ == bullet_trimmed(t@),
{
    let mut i: usize = 0;
    assert(t@.skip(0) =~= t@);
    while i < t.len() && (t[i] == '-' || t[i] == '*' || t[i] == ' ')
        invariant
            i <= t@.len(),
            bullet_trimmed(t@) == bullet_trimmed(t@.skip(i as int)),
        decreases t@.len() - i,
    {
        assert(t@.skip(i as int).drop_first() =~= t@.skip(i + 1));
        i = i + 1;
    }
    let r = subvec(t, i, t.len());
    assert(r@ =~= t@.skip(i as int));
    r
}

/// A `gloss = form` pair of a line.
fn lexicon_pair_exec(t: &Vec<char>) -> (r: Option<(String, String)>)
    ensures
        match r {
            Some(p) => lexicon_pair(t@) == Some((p.0@, p.1@)),
            None => lexicon_pair(t@) is None,
        },
{
    let i = find(t, '=', 0);
    assert(t@.skip(0) =~= t@);
    if i >= t.len() {
        return None;
    }
    let g = trim(&subvec(t, 0, i));
    let f = trim(&subvec(t, i + 1, t.len()));
    assert(t@.subrange(0, i as int) =~= t@.take(i as int));
    assert(t@.subrange(i + 1, t@.len() as int) =~= t@.skip(i + 1));
    if g.len() > 0 && f.len() > 0 {
        Some((string_of(&g), string_of(&f)))
    } else {
        None
    }
}

/// Reads the model's reply: lines after a `SOUND_CHANGES` label that hold a
/// `>` are rules (leading `-`, `*` and spaces dropped); lines after a
/// `LEXICON` label of the form `gloss = form` are word pairs; labels match
/// without ASCII case, and blank lines and lines before any label are
/// ignored.
pub fn parse_dialect_reply(raw: &str) -> (r: DialectReply)
    ensures
        strings_view(r.rules@) == read_reply(lines_of(raw@)).1,
        pairs_view(r.lexicon@) == read_reply(lines_of(raw@)).2,
{
    let ls = lines(&chars_of(raw));
    let ghost l = vviews(ls@);
    let mut section = ReplySection::Preamble;
    let mut rules: Vec<String> = Vec::new();
    let mut lexicon: Vec<(String, String)> = Vec::new();
    let mut i: usize = 0;
    while i < ls.len()
        invariant
            i <= ls@.len(),
            l == vviews(ls@),
            l == lines_of(raw@),
            read_reply(l.take(i as int)) == (section, strings_view(rules@), pairs_view(lexicon@)),
        decreases ls@.len() - i,
    {
        let t = trim(&ls[i]);
        assert(l.take(i + 1).drop_last() =~= l.take(i as int));
        assert(l.take(i + 1).last() == ls@[i as int]@);
        if starts_with_ci_exec(&t, "SOUND_CHANGES") {
            section = ReplySection::Rules;
        } else if starts_with_ci_exec(&t, "LEXICON") {
            section = ReplySection::Lexicon;
        } else if t.len() == 0 {
        } else {
            match section {
                ReplySection::Rules => {
                    if contains_char(&t, '>') {
                        let ghost before = strings_view(rules@);
                        let b = bullet_trimmed_exec(&t);
                        rules.push(string_of(&b));
                        assert(strings_view(rules@) =~= before.push(bullet_trimmed(t@)));
                    }
                },
                ReplySection::Lexicon => {
                    match lexicon_pair_exec(&t) {
                        Some(p) => {
                            let ghost before = pairs_view(lexicon@);
                            let ghost pv = (p.0@, p.1@);
                            lexicon.push(p);
                            assert(pairs_view(lexicon@) =~= before.push(pv));
                        },
                        None => {},
                    }
                },
                ReplySection::Preamble => {},
            }
        }
        i = i + 1;
    }
    assert(l.take(ls@.len() as int) =~= l);
    DialectReply { rules, lexicon }
}

/// The HJSON probe a sound-change line is checked with: it is kept when the
/// probe reads as an allophony rule.
pub open spec fn rule_probe_text(rule: Seq<char>) -> Seq<char> {
    "{ rule: \""@ + rule + "\" }"@
}

/// The HJSON probe for one sound-change line.
pub fn rule_probe(rule: &str) -> (r: String)
    ensures
        r@ == rule_probe_text(rule@),
{
    let mut v = chars_of("{ rule: \"");
    push_str(&mut v, rule);
    push_str(&mut v, "\" }");
    string_of(&v)
}

// ───────────────────────── the variety ────────────────────────────────────

/// The trailing run of non-whitespace characters.
pub open spec fn trailing_word(t: Seq<char>) -> Seq<char>
    decreases t.len(),
{
    if t.len() == 0 || white_space(t.last()) {
        seq![]
    } else {
        trailing_word(t.drop_last()).push(t.last())
    }
}

/// The variety's id: the one given, else the description's last word
/// lower-cased, else `variety`.
pub open spec fn variety_id_of(id: Option<Seq<char>>, describe: Seq<char>) -> Seq<char> {
    match id {
        Some(i) => i,
        None => unicode_str_lowercase(
            if trim_end_ws(describe).len() > 0 {
                trailing_word(trim_end_ws(describe))
            } else {
                "variety"@
            },
        ),
    }
}

/// The id the proposed variety is recorded under.
pub fn variety_id(id: Option<&str>, describe: &str) -> (r: String)
    ensures
        r@ == variety_id_of(
            match id {
                Some(i) => Some(i@),
                None => None,
            },
            describe@,
        ),
{
    match id {
        Some(i) => string_of(&chars_of(i)),
        None => {
            let t = trim_end(&chars_of(describe));
            if t.len() == 0 {
                str_to_lowercase("variety")
            } else {
                let mut k: usize = t.len();
                assert(t@.take(k as int) =~= t@);
                assert(t@.skip(k as int) =~= Seq::<char>::empty());
                assert(t@ + Seq::<char>::empty() =~= t@);
                while k > 0 && !char_is_whitespace(t[k - 1])
                    invariant
                        k <= t@.len(),
                        trailing_word(t@) == trailing_word(t@.take(k as int)) + t@.skip(k as int),
                    decreases k,
                {
                    assert(t@.take(k as int).drop_last() =~= t@.take(k - 1));
                    assert(t@.take(k as int).last() == t@[k - 1]);
                    assert(t@.skip(k - 1) =~= seq![t@[k - 1]] + t@.skip(k as int));
                    k = k - 1;
                }
                if k > 0 {
                    assert(t@.take(k as int).last() == t@[k - 1]);
                }
                assert(trailing_word(t@.take(k as int)) =~= Seq::<char>::empty());
                let w = subvec(&t, k, t.len());
                assert(w@ =~= t@.skip(k as int));
                str_to_lowercase(string_of(&w).as_str())
            }
        },
    }
}

/// The proposal as printed: the id and description, the sound changes, and
/// each dialect word.
pub open spec fn proposal_lines(
    var_id: Seq<char>,
    describe: Seq<char>,
    rules: Seq<Seq<char>>,
    lexicon: Seq<(Seq<char>, Seq<char>)>,
) -> Seq<Seq<char>> {
    seq!["proposed variety `"@ + var_id + "` ("@ + describe + "):"@, "  sound changes:"@]
        + rules.map_values(|r: Seq<char>| "    "@ + r) + lexicon.map_values(
        |p: (Seq<char>, Seq<char>)| "    word: "@ + p.0 + " → "@ + p.1,
    )
}

/// The lines that present a proposed variety.
pub fn proposal_report(var_id: &str, describe: &str, rules: &Vec<String>, lexicon: &Vec<(String, String)>) -> (r: Vec<String>)
    ensures
        strings_view(r@) == proposal_lines(var_id@, describe@, strings_view(rules@), pairs_view(lexicon@)),
{
    let mut out: Vec<String> = Vec::new();
    let mut h = chars_of("proposed variety `");
    push_str(&mut h, var_id);
    push_str(&mut h, "` (");
    push_str(&mut h, describe);
    push_str(&mut h, "):");
    push_line(&mut out, &h);
    push_line(&mut out, &chars_of("  sound changes:"));
    let ghost start = strings_view(out@);
    let mut i: usize = 0;
    while i < rules.len()
        invariant
            i <= rules@.len(),
            strings_view(out@) == start + strings_view(rules@).take(i as int).map_values(
                |r: Seq<char>| "    "@ + r,
            ),
        decreases rules@.len() - i,
    {
        let mut l = chars_of("    ");
        push_str(&mut l, rules[i].as_str());
        push_line(&mut out, &l);
        assert(strings_view(rules@).take(i + 1).map_values(|r: Seq<char>| "    "@ + r)
            =~= strings_view(rules@).take(i as int).map_values(|r: Seq<char>| "    "@ + r).push(
            "    "@ + rules@[i as int]@,
        ));
        i = i + 1;
    }
    assert(strings_view(rules@).take(rules@.len() as int) =~= strings_view(rules@));
    let ghost mid = strings_view(out@);
    let mut j: usize = 0;
    while j < lexicon.len()
        invariant
            j <= lexicon@.len(),
            strings_view(out@) == mid + pairs_view(lexicon@).take(j as int).map_values(
                |p: (Seq<char>, Seq<char>)| "    word: "@ + p.0 + " → "@ + p.1,
            ),
        decreases lexicon@.len() - j,
    {
        let mut l = chars_of("    word: ");
        push_str(&mut l, lexicon[j].0.as_str());
        push_str(&mut l, " → ");
        push_str(&mut l, lexicon[j].1.as_str());
        push_line(&mut out, &l);
        assert(pairs_view(lexicon@).take(j + 1).map_values(
            |p: (Seq<char>, Seq<char>)| "    word: "@ + p.0 + " → "@ + p.1,
        ) =~= pairs_view(lexicon@).take(j as int).map_values(
            |p: (Seq<char>, Seq<char>)| "    word: "@ + p.0 + " → "@ + p.1,
        ).push("    word: "@ + lexicon@[j as int].0@ + " → "@ + lexicon@[j as int].1@));
        j = j + 1;
    }
    assert(pairs_view(lexicon@).take(lexicon@.len() as int) =~= pairs_view(lexicon@));
    out
}

/// One accepted sound change as an HJSON object.
pub open spec fn rule_object(r: Seq<char>) -> Seq<char> {
    "{rule:\""@ + r + "\"}"@
}

/// One dialect word as an HJSON member.
pub open spec fn lexicon_member(p: (Seq<char>, Seq<char>)) -> Seq<char> {
    "\""@ + p.0 + "\":\""@ + p.1 + "\""@
}

/// The Grammar paragraph that records the variety: its id, kind `dialect`,
/// the description (double quotes turned into single ones) as its note, the
/// accepted sound changes and the dialect words.
pub open spec fn variety_body_text(
    var_id: Seq<char>,
    describe: Seq<char>,
    rules: Seq<Seq<char>>,
    lexicon: Seq<(Seq<char>, Seq<char>)>,
) -> Seq<char> {
    "{ varieties:[{ id:\""@ + var_id + "\", kind:\"dialect\", note:\""@ + replace_char(
        describe,
        '"',
        "'"@,
    ) + "\", sound_changes:["@ + join_seqs(rules.map_values(|r: Seq<char>| rule_object(r)), " "@)
        + "], lexicon:{"@ + join_seqs(lexicon.map_values(|p: (Seq<char>, Seq<char>)| lexicon_member(p)), " "@)
        + "} }] }"@
}

/// The paragraph body recording an accepted variety.
pub fn variety_body(var_id: &str, describe: &str, rules: &Vec<String>, lexicon: &Vec<(String, String)>) -> (r: String)
    ensures
        r@ == variety_body_text(var_id@, describe@, strings_view(rules@), pairs_view(lexicon@)),
{
    let mut objs: Vec<Vec<char>> = Vec::new();
    let mut i: usize = 0;
    while i < rules.len()
        invariant
            i <= rules@.len(),
            vviews(objs@) == strings_view(rules@).take(i as int).map_values(|r: Seq<char>| rule_object(r)),
        decreases rules@.len() - i,
    {
        let mut o = chars_of("{rule:\"");
        push_str(&mut o, rules[i].as_str());
        push_str(&mut o, "\"}");
        let ghost before = vviews(objs@);
        let ghost ov = o@;
        objs.push(o);
        assert(vviews(objs@) =~= before.push(ov));
        assert(strings_view(rules@).take(i + 1).map_values(|r: Seq<char>| rule_object(r))
            =~= strings_view(rules@).take(i as int).map_values(|r: Seq<char>| rule_object(r)).push(
            rule_object(rules@[i as int]@),
        ));
        i = i + 1;
    }
    assert(strings_view(rules@).take(rules@.len() as int) =~= strings_view(rules@));
    let mut mems: Vec<Vec<char>> = Vec::new();
    let mut j: usize = 0;
    while j < lexicon.len()
        invariant
            j <= lexicon@.len(),
            vviews(mems@) == pairs_view(lexicon@).take(j as int).map_values(
                |p: (Seq<char>, Seq<char>)| lexicon_member(p),
            ),
        decreases lexicon@.len() - j,
    {
        let mut m = chars_of("\"");
        push_str(&mut m, lexicon[j].0.as_str());
        push_str(&mut m, "\":\"");
        push_str(&mut m, lexicon[j].1.as_str());
        push_str(&mut m, "\"");
        let ghost before = vviews(mems@);
        let ghost mv = m@;
        mems.push(m);
        assert(vviews(mems@) =~= before.push(mv));
        assert(pairs_view(lexicon@).take(j + 1).map_values(|p: (Seq<char>, Seq<char>)| lexicon_member(p))
            =~= pairs_view(lexicon@).take(j as int).map_values(
            |p: (Seq<char>, Seq<char>)| lexicon_member(p),
        ).push(lexicon_member((lexicon@[j as int].0@, lexicon@[j as int].1@))));
        j = j + 1;
    }
    assert(pairs_view(lexicon@).take(lexicon@.len() as int) =~= pairs_view(lexicon@));
    let mut space: Vec<char> = Vec::new();
    push_str(&mut space, " ");
    let mut q: Vec<char> = Vec::new();
    push_str(&mut q, "'");
    let mut r = chars_of("{ varieties:[{ id:\"");
    push_str(&mut r, var_id);
    push_str(&mut r, "\", kind:\"dialect\", note:\"");
    push_all(&mut r, &replace(&chars_of(describe), '"', &q));
    push_str(&mut r, "\", sound_changes:[");
    push_all(&mut r, &join(&objs, &space));
    push_str(&mut r, "], lexicon:{");
    push_all(&mut r, &join(&mems, &space));
    push_str(&mut r, "} }] }");
    string_of(&r)
}

} // verus!
