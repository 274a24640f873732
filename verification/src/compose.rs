//! `language compose` and the other text-generating commands: which kind of
//! text is asked for, the metre of a poem, the typology summary handed to
//! the model, fenced replies, and the check of generated native text against
//! the lexicon.
use vstd::prelude::*;
use crate::entry::{decimal, decimal_digits, DictionaryEntry};
use crate::error::LanguageError;
use crate::inflection::Inflection;
use crate::export::pair_texts;
use crate::text::{
    ascii_lower, char_is_alphanumeric, chars_of, contains_string, has_prefix, join, join_seqs,
    lines, lines_of, matches_at, occurs_at, pad_right, push_all, push_padded, push_str,
    replace, replace_char, split, split_char, starts_with, str_eq, str_to_lowercase, string_of,
    strings_view, subvec, to_ascii_lower, trim, trim_end, trim_end_ws, trim_start, trim_start_ws,
    trim_ws, unicode_alphanumeric, unicode_str_lowercase, vviews,
};

verus! {

// ───────────────────────── the kind of text ───────────────────────────────

/// A text with its ASCII letters lower-cased (`str::to_ascii_lowercase`).
pub open spec fn ascii_lowered(s: Seq<char>) -> Seq<char> {
    s.map_values(|c: char| ascii_lower(c))
}

/// `str::to_ascii_lowercase`.
pub fn to_ascii_lowercase(s: &str) -> (r: Vec<char>)
    ensures
        r@ == ascii_lowered(s@),
{
    let v = chars_of(s);
    let mut r: Vec<char> = Vec::new();
    let mut i: usize = 0;
    while i < v.len()
        invariant
            i <= v@.len(),
            v@ == s@,
            r@ == ascii_lowered(s@).take(i as int),
        decreases v@.len() - i,
    {
        r.push(to_ascii_lower(v[i]));
        assert(ascii_lowered(s@).take(i + 1) =~= ascii_lowered(s@).take(i as int).push(ascii_lower(s@[i as int])));
        i = i + 1;
    }
    assert(ascii_lowered(s@).take(v@.len() as int) =~= ascii_lowered(s@));
    r
}

/// What `language compose` writes.
pub enum ComposeKind {
    /// Personal and place names.
    Names,
    /// Sample sentences.
    Prose,
    /// Verse in a given metre.
    Poem,
    /// A blessing, curse, incantation or ceremony written by the model.
    Themed,
}

/// The kind named by `--kind`, ASCII case ignored.
pub open spec fn compose_kind_of(kind: Seq<char>) -> Option<ComposeKind> {
    let k = ascii_lowered(kind);
    if k == "names"@ || k == "name"@ {
        Some(ComposeKind::Names)
    } else if k == "prose"@ || k == "sample"@ || k == "sample-text"@ {
        Some(ComposeKind::Prose)
    } else if k == "poem"@ || k == "poetry"@ || k == "verse"@ {
        Some(ComposeKind::Poem)
    } else if k == "blessing"@ || k == "curse"@ || k == "incantation"@ || k == "ceremony"@ {
        Some(ComposeKind::Themed)
    } else {
        None
    }
}

/// Whether the characters spell `t`.
fn is_text(v: &Vec<char>, t: &str) -> (r: bool)
    ensures
        r == (v@ == t@),
{
    crate::text::chars_eq(v, &chars_of(t))
}

/// Reads `--kind`; an unknown kind is refused, naming it lower-cased.
pub fn compose_kind(kind: &str) -> (r: Result<ComposeKind, LanguageError>)
    ensures
        match compose_kind_of(kind@) {
            Some(k) => r == Ok::<ComposeKind, LanguageError>(k),
            None => r matches Err(LanguageError::Config(m)) && m@ == "unknown --kind `"@
                + ascii_lowered(kind@)
                + "` (expected names | prose | poem | blessing | curse | incantation)"@,
        },
{
    let k = to_ascii_lowercase(kind);
    if is_text(&k, "names") || is_text(&k, "name") {
        Ok(ComposeKind::Names)
    } else if is_text(&k, "prose") || is_text(&k, "sample") || is_text(&k, "sample-text") {
        Ok(ComposeKind::Prose)
    } else if is_text(&k, "poem") || is_text(&k, "poetry") || is_text(&k, "verse") {
        Ok(ComposeKind::Poem)
    } else if is_text(&k, "blessing") || is_text(&k, "curse") || is_text(&k, "incantation")
        || is_text(&k, "ceremony") {
        Ok(ComposeKind::Themed)
    } else {
        let mut m = chars_of("unknown --kind `");
        push_all(&mut m, &k);
        push_str(&mut m, "` (expected names | prose | poem | blessing | curse | incantation)");
        Err(LanguageError::Config(string_of(&m)))
    }
}

// ───────────────────────── metre ──────────────────────────────────────────

/// A decimal digit.
pub open spec fn is_digit(c: char) -> bool {
    '0' <= c && c <= '9'
}

/// The value of a run of decimal digits.
pub open spec fn digits_value(s: Seq<char>) -> nat
    decreases s.len(),
{
    if s.len() == 0 {
        0
    } else {
        digits_value(s.drop_last()) * 10 + ((s.last() as nat) - ('0' as nat)) as nat
    }
}

/// The number an unsigned integer literal spells (an optional `+`, then
/// one or more decimal digits), without a bound on its size.
pub open spec fn unsigned_value(s: Seq<char>) -> Option<nat> {
    let d = digits_part(s);
    if d.len() > 0 && all_digits(d) {
        Some(digits_value(d))
    } else {
        None
    }
}

/// A literal without its optional leading `+`.
pub open spec fn digits_part(s: Seq<char>) -> Seq<char> {
    if s.len() > 0 && s[0] == '+' {
        s.drop_first()
    } else {
        s
    }
}

/// Every character is a decimal digit.
pub open spec fn all_digits(d: Seq<char>) -> bool {
    forall|i: int| 0 <= i < d.len() ==> is_digit(#[trigger] d[i])
}

/// The syllable counts of a `--meter` list: each comma-separated piece,
/// trimmed, that reads as a number from 1 to 64.
pub open spec fn meter_counts(pieces: Seq<Seq<char>>) -> Seq<nat>
    decreases pieces.len(),
{
    if pieces.len() == 0 {
        seq![]
    } else {
        meter_counts(pieces.drop_last()) + match unsigned_value(trim_ws(pieces.last())) {
            Some(v) => if 1 <= v && v <= 64 {
                seq![v]
            } else {
                Seq::<nat>::empty()
            },
            None => Seq::<nat>::empty(),
        }
    }
}

/// The numbers of a list, as naturals.
pub open spec fn usizes_view(v: Seq<usize>) -> Seq<nat> {
    v.map_values(|n: usize| n as nat)
}

/// Reads one metre piece: its value when it lies in 1..=64.
fn meter_piece(p: &Vec<char>) -> (r: Option<usize>)
    ensures
        match unsigned_value(p@) {
            Some(v) => if 1 <= v && v <= 64 {
                r == Some(v as usize)
            } else {
                r is None
            },
            None => r is None,
        },
{
    let mut start: usize = 0;
    if p.len() > 0 && p[0] == '+' {
        start = 1;
    }
    let ghost d = digits_part(p@);
    assert(d =~= p@.skip(start as int));
    if start >= p.len() {
        return None;
    }
    let mut v: usize = 0;
    let mut i: usize = start;
    while i < p.len()
        invariant
            start <= i <= p@.len(),
            d =~= p@.skip(start as int),
            d == digits_part(p@),
            forall|k: int| 0 <= k < i - start ==> is_digit(#[trigger] d[k]),
            (v <= 64 && v == digits_value(d.take(i - start))) || (v == 65 && digits_value(
                d.take(i - start),
            ) > 64),
        decreases p@.len() - i,
    {
        let c = p[i];
        assert(d[i - start] == p@[i as int]);
        if !('0' <= c && c <= '9') {
            assert(!is_digit(d[i - start]));
            assert(!all_digits(d));
            return None;
        }
        let dg = (c as u32 - '0' as u32) as usize;
        assert(d.take(i - start + 1).drop_last() =~= d.take(i - start));
        assert(d.take(i - start + 1).last() == c);
        if v <= 64 {
            let nv = v * 10 + dg;
            v = if nv > 64 {
                65
            } else {
                nv
            };
        }
        i = i + 1;
    }
    assert(d.take(p@.len() - start) =~= d);
    assert(all_digits(d));
    assert(unsigned_value(p@) == Some(digits_value(d)));
    if 1 <= v && v <= 64 {
        Some(v)
    } else {
        None
    }
}

/// The refusal of a `--meter` list with no usable count.
pub const BAD_METER: &'static str = "invalid --meter — give comma-separated syllable counts, e.g. 5,7,5";

/// Reads `--meter`: the comma-separated syllable counts between 1 and 64;
/// refused when none is usable.
pub fn parse_meter(meter: &str) -> (r: Result<Vec<usize>, LanguageError>)
    ensures
        match r {
            Ok(v) => usizes_view(v@) == meter_counts(split_char(meter@, ',')) && v@.len() > 0,
            Err(e) => meter_counts(split_char(meter@, ',')).len() == 0 && (e matches LanguageError::Config(
                m,
            ) && m@ == BAD_METER@),
        },
{
    let pieces = split(&chars_of(meter), ',');
    let mut out: Vec<usize> = Vec::new();
    let mut i: usize = 0;
    while i < pieces.len()
        invariant
            i <= pieces@.len(),
            vviews(pieces@) == split_char(meter@, ','),
            usizes_view(out@) == meter_counts(vviews(pieces@).take(i as int)),
        decreases pieces@.len() - i,
    {
        let t = trim(&pieces[i]);
        assert(vviews(pieces@).take(i + 1).drop_last() =~= vviews(pieces@).take(i as int));
        assert(vviews(pieces@).take(i + 1).last() == pieces@[i as int]@);
        match meter_piece(&t) {
            Some(n) => {
                let ghost before = usizes_view(out@);
                out.push(n);
                assert(usizes_view(out@) =~= before.push(n as nat));
            },
            None => {},
        }
        i = i + 1;
    }
    assert(vviews(pieces@).take(pieces@.len() as int) =~= vviews(pieces@));
    if out.len() == 0 {
        Err(LanguageError::Config(String::from_str(BAD_METER)))
    } else {
        Ok(out)
    }
}

// ───────────────────────── headings and lines ─────────────────────────────

/// The heading above generated names.
pub fn names_heading(language: &str, n: usize) -> (r: String)
    ensures
        r@ == language@ + " — "@ + decimal(n as nat) + " names:\n"@,
{
    let mut v = chars_of(language);
    push_str(&mut v, " — ");
    push_all(&mut v, &decimal_digits(n));
    push_str(&mut v, " names:\n");
    string_of(&v)
}

/// The heading above composed sample sentences.
pub fn prose_heading(language: &str) -> (r: String)
    ensures
        r@ == language@ + " — sample sentences:\n"@,
{
    let mut v = chars_of(language);
    push_str(&mut v, " — sample sentences:\n");
    string_of(&v)
}

/// The metre as printed: counts joined by `-`.
pub open spec fn meter_text(meter: Seq<usize>) -> Seq<char> {
    join_seqs(meter.map_values(|n: usize| decimal(n as nat)), "-"@)
}

/// The heading above a poem.
pub fn verse_heading(language: &str, meter: &Vec<usize>) -> (r: String)
    ensures
        r@ == language@ + " — verse ("@ + meter_text(meter@) + "):\n"@,
{
    let mut parts: Vec<Vec<char>> = Vec::new();
    let mut i: usize = 0;
    while i < meter.len()
        invariant
            i <= meter@.len(),
            vviews(parts@) == meter@.take(i as int).map_values(|n: usize| decimal(n as nat)),
        decreases meter@.len() - i,
    {
        let ghost before = vviews(parts@);
        let d = decimal_digits(meter[i]);
        let ghost dv = d@;
        parts.push(d);
        assert(vviews(parts@) =~= before.push(dv));
        assert(meter@.take(i + 1).map_values(|n: usize| decimal(n as nat)) =~= meter@.take(
            i as int,
        ).map_values(|n: usize| decimal(n as nat)).push(decimal(meter@[i as int] as nat)));
        i = i + 1;
    }
    assert(meter@.take(meter@.len() as int) =~= meter@);
    let mut dash: Vec<char> = Vec::new();
    push_str(&mut dash, "-");
    let mut v = chars_of(language);
    push_str(&mut v, " — verse (");
    push_all(&mut v, &join(&parts, &dash));
    push_str(&mut v, "):\n");
    string_of(&v)
}

/// One line of verse: the text padded to 32 columns, then its syllable
/// count over the target.
pub fn verse_line(text: &str, syllables: usize, target: usize) -> (r: String)
    ensures
        r@ == "  "@ + pad_right(text@, 32) + " ("@ + decimal(syllables as nat) + "/"@ + decimal(
            target as nat,
        ) + ")"@,
{
    let mut v = chars_of("  ");
    push_padded(&mut v, &chars_of(text), 32);
    push_str(&mut v, " (");
    push_all(&mut v, &decimal_digits(syllables));
    push_str(&mut v, "/");
    push_all(&mut v, &decimal_digits(target));
    push_str(&mut v, ")");
    string_of(&v)
}

/// No name could be generated.
pub const NO_NAMES: &'static str = "no names could be generated — does the language declare a `root` template?";

/// The lexicon lacks a noun or a verb for prose.
pub const NO_PROSE: &'static str = "need at least one noun and one verb in the lexicon to compose prose";

/// No verse line could be generated.
pub const NO_VERSE: &'static str = "could not generate verse (empty inventory)";

/// Themed text needs words to draw on.
pub const EMPTY_LEXICON: &'static str = "the lexicon is empty — add some words before composing themed text";

// ───────────────────────── typology summary ───────────────────────────────

/// The typology answers as one line for a prompt: `feature: value` pairs
/// (underscores in feature names read as spaces) joined by `; `, or the
/// defaults when nothing is answered.
pub open spec fn typology_summary(p: Seq<(Seq<char>, Seq<char>)>) -> Seq<char> {
    if p.len() == 0 {
        "word order: SVO; alignment: nominative–accusative (defaults)"@
    } else {
        join_seqs(
            p.map_values(|kv: (Seq<char>, Seq<char>)| replace_char(kv.0, '_', " "@) + ": "@ + kv.1),
            "; "@,
        )
    }
}

/// Summarizes the typology answers, in feature order.
pub fn summarize_typology(typology: &Inflection) -> (r: String)
    ensures
        r@ == typology_summary(typology.pairs()),
{
    if typology.is_empty() {
        return string_of(&chars_of("word order: SVO; alignment: nominative–accusative (defaults)"));
    }
    let ghost p = typology.pairs();
    let mut parts: Vec<Vec<char>> = Vec::new();
    let mut space: Vec<char> = Vec::new();
    push_str(&mut space, " ");
    let mut i: usize = 0;
    while i < typology.len()
        invariant
            i <= p.len(),
            p == typology.pairs(),
            space@ == " "@,
            vviews(parts@) == p.take(i as int).map_values(
                |kv: (Seq<char>, Seq<char>)| replace_char(kv.0, '_', " "@) + ": "@ + kv.1,
            ),
        decreases p.len() - i,
    {
        let mut t = replace(&chars_of(typology.key_at(i).as_str()), '_', &space);
        push_str(&mut t, ": ");
        push_str(&mut t, typology.value_at(i).as_str());
        let ghost before = vviews(parts@);
        let ghost tv = t@;
        parts.push(t);
        assert(vviews(parts@) =~= before.push(tv));
        assert(p.take(i + 1).map_values(
            |kv: (Seq<char>, Seq<char>)| replace_char(kv.0, '_', " "@) + ": "@ + kv.1,
        ) =~= p.take(i as int).map_values(
            |kv: (Seq<char>, Seq<char>)| replace_char(kv.0, '_', " "@) + ": "@ + kv.1,
        ).push(tv));
        i = i + 1;
    }
    assert(p.take(p.len() as int) =~= p);
    let mut sep: Vec<char> = Vec::new();
    push_str(&mut sep, "; ");
    string_of(&join(&parts, &sep))
}

// ───────────────────────── fenced replies ─────────────────────────────────

/// The last position at or before `n` where `p` occurs in `s`.
pub open spec fn last_occurrence(s: Seq<char>, p: Seq<char>, n: int) -> Option<int>
    decreases n + 1,
{
    if n < 0 {
        None
    } else if occurs_at(s, p, n) {
        Some(n)
    } else {
        last_occurrence(s, p, n - 1)
    }
}

/// A model reply without its Markdown code fence: when the trimmed reply
/// opens with three backticks, the rest of that line and everything from the
/// last closing fence on are dropped (and the body's trailing whitespace);
/// otherwise the trimmed reply.
pub open spec fn unfenced(text: Seq<char>) -> Seq<char> {
    let t = trim_ws(text);
    let fence = "```"@;
    if has_prefix(t, fence) {
        let rest = t.skip(3);
        let nl = crate::text::find_char(rest, '\n');
        if nl < rest.len() {
            let body = rest.skip(nl + 1);
            match last_occurrence(body, fence, body.len() - 3) {
                Some(end) => trim_end_ws(body.take(end)),
                None => t,
            }
        } else {
            t
        }
    } else {
        t
    }
}

/// Strips a Markdown code fence from a model reply.
pub fn strip_code_fence(text: &str) -> (r: String)
    ensures
        r@ == unfenced(text@),
{
    let t = trim(&chars_of(text));
    let fence = chars_of("```");
    proof {
        reveal_strlit("```");
    }
    assert(fence@.len() == 3);
    if !starts_with(&t, &fence) {
        return string_of(&t);
    }
    let rest = subvec(&t, 3, t.len());
    assert(rest@ =~= t@.skip(3));
    let nl = crate::text::find(&rest, '\n', 0);
    assert(rest@.skip(0) =~= rest@);
    if nl >= rest.len() {
        return string_of(&t);
    }
    let body = subvec(&rest, nl + 1, rest.len());
    assert(body@ =~= rest@.skip(nl + 1));
    if body.len() < 3 {
        assert(last_occurrence(body@, fence@, body@.len() - 3) is None);
        return string_of(&t);
    }
    let mut k: usize = body.len() - 3;
    loop
        invariant
            k + 3 <= body@.len(),
            fence@ == "```"@,
            fence@.len() == 3,
            t@ == trim_ws(text@),
            has_prefix(t@, fence@),
            rest@ == t@.skip(3),
            nl < rest@.len(),
            nl == crate::text::find_char(rest@, '\n'),
            body@ == rest@.skip(nl + 1),
            last_occurrence(body@, fence@, body@.len() - 3) == last_occurrence(body@, fence@, k as int),
        decreases k,
    {
        if matches_at(&body, &fence, k) {
            let head = subvec(&body, 0, k);
            assert(head@ =~= body@.take(k as int));
            return string_of(&trim_end(&head));
        }
        if k == 0 {
            assert(last_occurrence(body@, fence@, -1) is None);
            return string_of(&t);
        }
        k = k - 1;
    }
}

// ───────────────────────── drift check ────────────────────────────────────

/// The lexicon's known surface forms, lower-cased: each non-blank headword
/// and every paradigm form.
pub open spec fn known_forms(entries: Seq<DictionaryEntry>) -> Seq<Seq<char>>
    decreases entries.len(),
{
    if entries.len() == 0 {
        seq![]
    } else {
        let e = entries.last();
        known_forms(entries.drop_last()) + (if trim_ws(e.word@).len() > 0 {
            seq![unicode_str_lowercase(e.word@)]
        } else {
            Seq::<Seq<char>>::empty()
        }) + e.inflection.pairs().map_values(|kv: (Seq<char>, Seq<char>)| unicode_str_lowercase(kv.1))
    }
}

/// The pieces of a text between characters that are not alphanumeric, as
/// `str::split` with that predicate yields them (empty pieces included).
pub open spec fn alnum_split(s: Seq<char>) -> Seq<Seq<char>>
    decreases s.len(),
{
    if s.len() == 0 {
        seq![seq![]]
    } else {
        let prev = alnum_split(s.drop_last());
        if unicode_alphanumeric(s.last()) {
            prev.update(prev.len() - 1, prev.last().push(s.last()))
        } else {
            prev.push(seq![])
        }
    }
}

/// `alnum_split` never yields an empty list.
proof fn lemma_alnum_split_len(s: Seq<char>)
    ensures
        alnum_split(s).len() >= 1,
    decreases s.len(),
{
    if s.len() > 0 {
        lemma_alnum_split_len(s.drop_last());
    }
}

/// A token longer than one byte of UTF-8: two or more characters, or one
/// character outside ASCII.
pub open spec fn longer_than_a_byte(t: Seq<char>) -> bool {
    t.len() >= 2 || (t.len() == 1 && (t[0] as u32) >= 0x80)
}

/// Adds the tokens of `pieces` that are not known and not already listed.
pub open spec fn add_unknown(acc: Seq<Seq<char>>, known: Seq<Seq<char>>, pieces: Seq<Seq<char>>) -> Seq<Seq<char>>
    decreases pieces.len(),
{
    if pieces.len() == 0 {
        acc
    } else {
        let prev = add_unknown(acc, known, pieces.drop_last());
        let t = trim_ws(pieces.last());
        if longer_than_a_byte(t) && !known.contains(t) && !prev.contains(t) {
            prev.push(t)
        } else {
            prev
        }
    }
}

/// The tokens on the `native:` lines (lower-cased, the label matched
/// without case after leading whitespace) that are not known forms, each
/// once, in order.
pub open spec fn unknown_tokens_in(ls: Seq<Seq<char>>, known: Seq<Seq<char>>) -> Seq<Seq<char>>
    decreases ls.len(),
{
    if ls.len() == 0 {
        seq![]
    } else {
        let prev = unknown_tokens_in(ls.drop_last(), known);
        let lower = unicode_str_lowercase(trim_start_ws(ls.last()));
        if has_prefix(lower, "native:"@) {
            add_unknown(prev, known, alnum_split(lower.skip(7)))
        } else {
            prev
        }
    }
}

/// Splits a text into its alphanumeric pieces.
fn alnum_pieces(s: &Vec<char>) -> (r: Vec<Vec<char>>)
    ensures
        vviews(r@) == alnum_split(s@),
{
    let mut done: Vec<Vec<char>> = Vec::new();
    let mut cur: Vec<char> = Vec::new();
    let mut i: usize = 0;
    assert(s@.take(0) =~= Seq::<char>::empty());
    assert(vviews(done@).push(cur@) =~= alnum_split(s@.take(0)));
    while i < s.len()
        invariant
            i <= s@.len(),
            vviews(done@).push(cur@) == alnum_split(s@.take(i as int)),
        decreases s@.len() - i,
    {
        let c = s[i];
        let ghost prev = alnum_split(s@.take(i as int));
        assert(s@.take(i + 1).drop_last() =~= s@.take(i as int));
        assert(s@.take(i + 1).last() == c);
        if char_is_alphanumeric(c) {
            cur.push(c);
            assert(vviews(done@).push(cur@) =~= prev.update(prev.len() - 1, prev.last().push(c)));
        } else {
            let ghost d0 = vviews(done@);
            let ghost cv = cur@;
            done.push(cur);
            cur = Vec::new();
            assert(vviews(done@) =~= d0.push(cv));
            assert(vviews(done@).push(cur@) =~= prev.push(seq![]));
        }
        i = i + 1;
    }
    assert(s@.take(s@.len() as int) =~= s@);
    let ghost d1 = vviews(done@);
    let ghost cv = cur@;
    done.push(cur);
    assert(vviews(done@) =~= d1.push(cv));
    done
}

/// The known surface forms of the lexicon.
pub fn known_surface_forms(entries: &[DictionaryEntry]) -> (r: Vec<String>)
    ensures
        strings_view(r@) == known_forms(entries@),
{
    let mut r: Vec<String> = Vec::new();
    let mut i: usize = 0;
    while i < entries.len()
        invariant
            i <= entries@.len(),
            strings_view(r@) == known_forms(entries@.take(i as int)),
        decreases entries@.len() - i,
    {
        let e = &entries[i];
        assert(entries@.take(i + 1).drop_last() =~= entries@.take(i as int));
        assert(entries@.take(i + 1).last() == entries@[i as int]);
        let ghost start = strings_view(r@);
        if trim(&chars_of(e.word.as_str())).len() > 0 {
            r.push(str_to_lowercase(e.word.as_str()));
        }
        let ghost mid = strings_view(r@);
        assert(mid =~= start + (if trim_ws(e.word@).len() > 0 {
            seq![unicode_str_lowercase(e.word@)]
        } else {
            Seq::<Seq<char>>::empty()
        }));
        let ghost p = e.inflection.pairs();
        let mut j: usize = 0;
        while j < e.inflection.len()
            invariant
                j <= p.len(),
                p == e.inflection.pairs(),
                strings_view(r@) == mid + p.take(j as int).map_values(
                    |kv: (Seq<char>, Seq<char>)| unicode_str_lowercase(kv.1),
                ),
            decreases p.len() - j,
        {
            let ghost before = strings_view(r@);
            let l = str_to_lowercase(e.inflection.value_at(j).as_str());
            let ghost lv = l@;
            r.push(l);
            assert(strings_view(r@) =~= before.push(lv));
            assert(p.take(j + 1).map_values(|kv: (Seq<char>, Seq<char>)| unicode_str_lowercase(kv.1))
                =~= p.take(j as int).map_values(
                |kv: (Seq<char>, Seq<char>)| unicode_str_lowercase(kv.1),
            ).push(lv));
            j = j + 1;
        }
        assert(p.take(p.len() as int) =~= p);
        i = i + 1;
    }
    assert(entries@.take(entries@.len() as int) =~= entries@);
    r
}

/// The tokens of generated text's `native:` lines that the lexicon does not
/// know, each once, in order of appearance.
pub fn unknown_tokens(text: &str, entries: &[DictionaryEntry]) -> (r: Vec<String>)
    ensures
        strings_view(r@) == unknown_tokens_in(lines_of(text@), known_forms(entries@)),
{
    let known = known_surface_forms(entries);
    let ls = lines(&chars_of(text));
    let ghost l = vviews(ls@);
    let ghost kn = strings_view(known@);
    let mut acc: Vec<String> = Vec::new();
    let native = chars_of("native:");
    let mut i: usize = 0;
    while i < ls.len()
        invariant
            i <= ls@.len(),
            l == vviews(ls@),
            l == lines_of(text@),
            kn == strings_view(known@),
            kn == known_forms(entries@),
            native@ == "native:"@,
            strings_view(acc@) == unknown_tokens_in(l.take(i as int), kn),
        decreases ls@.len() - i,
    {
        assert(l.take(i + 1).drop_last() =~= l.take(i as int));
        assert(l.take(i + 1).last() == ls@[i as int]@);
        let lower = chars_of(str_to_lowercase(string_of(&trim_start(&ls[i])).as_str()).as_str());
        proof {
            reveal_strlit("native:");
        }
        assert(native@.len() == 7);
        if starts_with(&lower, &native) {
            let rest = subvec(&lower, 7, lower.len());
            assert(rest@ =~= lower@.skip(7));
            let pieces = alnum_pieces(&rest);
            let ghost ps = vviews(pieces@);
            let ghost acc0 = strings_view(acc@);
            let mut j: usize = 0;
            while j < pieces.len()
                invariant
                    j <= pieces@.len(),
                    ps == vviews(pieces@),
                    kn == strings_view(known@),
                    strings_view(acc@) == add_unknown(acc0, kn, ps.take(j as int)),
                decreases pieces@.len() - j,
            {
                let t = trim(&pieces[j]);
                assert(ps.take(j + 1).drop_last() =~= ps.take(j as int));
                assert(ps.take(j + 1).last() == pieces@[j as int]@);
                let long = t.len() >= 2 || (t.len() == 1 && (t[0] as u32) >= 0x80);
                if long {
                    let ts = string_of(&t);
                    if !contains_string(&known, ts.as_str()) && !contains_string(&acc, ts.as_str()) {
                        let ghost before = strings_view(acc@);
                        acc.push(ts);
                        assert(strings_view(acc@) =~= before.push(t@));
                    }
                }
                j = j + 1;
            }
            assert(ps.take(pieces@.len() as int) =~= ps);
        }
        i = i + 1;
    }
    assert(l.take(ls@.len() as int) =~= l);
    acc
}

/// The warning printed when generated text uses unknown tokens.
pub fn drift_warning(unknown: &Vec<String>) -> (r: String)
    ensures
        r@ == "\n⚠ "@ + decimal(unknown@.len()) + " token(s) not in the lexicon (model may have drifted): "@
            + join_seqs(strings_view(unknown@), ", "@),
{
    let mut parts: Vec<Vec<char>> = Vec::new();
    let mut i: usize = 0;
    while i < unknown.len()
        invariant
            i <= unknown@.len(),
            vviews(parts@) == strings_view(unknown@).take(i as int),
        decreases unknown@.len() - i,
    {
        let ghost before = vviews(parts@);
        parts.push(chars_of(unknown[i].as_str()));
        assert(vviews(parts@) =~= before.push(unknown@[i as int]@));
        assert(strings_view(unknown@).take(i + 1) =~= strings_view(unknown@).take(i as int).push(
            unknown@[i as int]@,
        ));
        i = i + 1;
    }
    assert(strings_view(unknown@).take(unknown@.len() as int) =~= strings_view(unknown@));
    let mut sep: Vec<char> = Vec::new();
    push_str(&mut sep, ", ");
    let mut v = chars_of("\n⚠ ");
    push_all(&mut v, &decimal_digits(unknown.len()));
    push_str(&mut v, " token(s) not in the lexicon (model may have drifted): ");
    push_all(&mut v, &join(&parts, &sep));
    string_of(&v)
}

} // verus!
