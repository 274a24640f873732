//! Forgiving line-based reads of single fields from author-written HJSON
//! rule bodies, and the rule template offered for editing.
use vstd::prelude::*;
use crate::text::{
    chars_of, has_prefix, lines, lines_of, push_str, split, split_char, starts_with,
    string_of, subvec, trim, trim_char, trim_end_char, trim_matches, trim_start,
    trim_start_ws, trim_ws, vviews,
};
use crate::text::strings_view;

verus! {

// ───────────────────────── single string fields ───────────────────────────

/// The value on a `field:` line: the rest of the line trimmed, then stripped
/// of surrounding double and single quotes, then trimmed again.
pub open spec fn field_value(line: Seq<char>, needle: Seq<char>) -> Seq<char> {
    trim_ws(trim_char(trim_char(trim_ws(trim_start_ws(line).skip(needle.len() as int)), '"'), '\''))
}

/// The value of the first line (after leading whitespace) that starts with
/// `needle`; `None` when no line does or that value is empty.
pub open spec fn scan_field(ls: Seq<Seq<char>>, needle: Seq<char>) -> Option<Seq<char>>
    decreases ls.len(),
{
    if ls.len() == 0 {
        None
    } else if has_prefix(trim_start_ws(ls[0]), needle) {
        let v = field_value(ls[0], needle);
        if v.len() == 0 {
            None
        } else {
            Some(v)
        }
    } else {
        scan_field(ls.drop_first(), needle)
    }
}

/// Extracts one string field (`field: "value"`) from an HJSON body by a
/// line scan; the first line naming the field decides.
pub fn extract_hjson_string_field(body: &str, field: &str) -> (r: Option<String>)
    ensures
        match r {
            Some(v) => scan_field(lines_of(body@), field@ + seq![':']) == Some(v@),
            None => scan_field(lines_of(body@), field@ + seq![':']) is None,
        },
{
    let mut needle = chars_of(field);
    needle.push(':');
    let ls = lines(&chars_of(body));
    let mut i: usize = 0;
    assert(vviews(ls@).skip(0) =~= vviews(ls@));
    while i < ls.len()
        invariant
            i <= ls.len(),
            needle@ == field@ + seq![':'],
            vviews(ls@) == lines_of(body@),
            scan_field(vviews(ls@).skip(i as int), needle@) == scan_field(vviews(ls@), needle@),
        decreases ls.len() - i,
    {
        let ghost rest = vviews(ls@).skip(i as int);
        assert(rest[0] == ls@[i as int]@);
        assert(rest.drop_first() =~= vviews(ls@).skip(i + 1));
        let t = trim_start(&ls[i]);
        if starts_with(&t, &needle) {
            let after = subvec(&t, needle.len(), t.len());
            assert(after@ =~= t@.skip(needle@.len() as int));
            let v = trim(&trim_matches(&trim_matches(&trim(&after), '"'), '\''));
            if v.len() == 0 {
                return None;
            }
            return Some(string_of(&v));
        }
        i = i + 1;
    }
    None
}

// ───────────────────────── the examples array ─────────────────────────────

/// Lines of a multi-line `examples: [` block up to the closing `]` line, each
/// with leading whitespace and trailing commas removed.
pub open spec fn block_lines(ls: Seq<Seq<char>>) -> Seq<Seq<char>>
    decreases ls.len(),
{
    if ls.len() == 0 {
        seq![]
    } else {
        let t = trim_start_ws(ls[0]);
        if t.len() > 0 && t[0] == ']' {
            seq![]
        } else {
            seq![trim_end_char(t, ',')] + block_lines(ls.drop_first())
        }
    }
}

/// What the first `examples:` line holds: `None` when there is no such line;
/// otherwise the inner text of a one-line `[...]` array, or the lines of a
/// multi-line block (empty when the line opens no block).
pub open spec fn scan_examples(ls: Seq<Seq<char>>) -> Option<(Option<Seq<char>>, Seq<Seq<char>>)>
    decreases ls.len(),
{
    if ls.len() == 0 {
        None
    } else {
        let t = trim_start_ws(ls[0]);
        if has_prefix(t, "examples:"@) {
            let rest = trim_ws(t.skip(9));
            if rest.len() > 0 && rest[0] == '[' && rest.last() == ']' && rest.len() >= 2 {
                Some((Some(rest.subrange(1, rest.len() - 1)), seq![]))
            } else if rest.len() > 0 && rest[0] == '[' {
                Some((None, block_lines(ls.drop_first())))
            } else {
                Some((None, seq![]))
            }
        } else {
            scan_examples(ls.drop_first())
        }
    }
}

/// Each piece stripped of surrounding quotes (after trimming whitespace when
/// `trim_first`), empty results dropped.
pub open spec fn unquoted(pieces: Seq<Seq<char>>, trim_first: bool) -> Seq<Seq<char>>
    decreases pieces.len(),
{
    if pieces.len() == 0 {
        seq![]
    } else {
        let p = if trim_first {
            trim_ws(pieces.last())
        } else {
            pieces.last()
        };
        let v = trim_char(trim_char(p, '"'), '\'');
        let rest = unquoted(pieces.drop_last(), trim_first);
        if v.len() > 0 {
            rest.push(v)
        } else {
            rest
        }
    }
}

/// The example strings of an HJSON body, or `None` without an `examples:`
/// line.
pub open spec fn examples_of(body: Seq<char>) -> Option<Seq<Seq<char>>> {
    match scan_examples(lines_of(body)) {
        None => None,
        Some((Some(sl), _)) => Some(unquoted(split_char(sl, ','), true)),
        Some((None, bl)) => Some(unquoted(bl, false)),
    }
}

/// Strips quotes from each piece (trimming first when asked), dropping
/// empties.
fn unquote_pieces(pieces: &Vec<Vec<char>>, trim_first: bool) -> (r: Vec<String>)
    ensures
        strings_view(r@) == unquoted(vviews(pieces@), trim_first),
{
    let mut out: Vec<String> = Vec::new();
    let mut i: usize = 0;
    assert(strings_view(out@) =~= Seq::<Seq<char>>::empty());
    while i < pieces.len()
        invariant
            i <= pieces.len(),
            strings_view(out@) == unquoted(vviews(pieces@).take(i as int), trim_first),
        decreases pieces.len() - i,
    {
        let ghost ps = vviews(pieces@);
        let ghost before = strings_view(out@);
        assert(ps.take(i + 1).drop_last() =~= ps.take(i as int));
        assert(ps.take(i + 1).last() == pieces@[i as int]@);
        let p = if trim_first {
            trim(&pieces[i])
        } else {
            subvec(&pieces[i], 0, pieces[i].len())
        };
        assert(p@ =~= (if trim_first {
            trim_ws(ps[i as int])
        } else {
            ps[i as int]
        }));
        let v = trim_matches(&trim_matches(&p, '"'), '\'');
        if v.len() != 0 {
            out.push(string_of(&v));
            assert(strings_view(out@) =~= before.push(v@));
        }
        i = i + 1;
    }
    assert(vviews(pieces@).take(pieces.len() as int) =~= vviews(pieces@));
    out
}

/// Extracts the `examples:` array from an HJSON body, in its one-line
/// (`examples: ["a", "b"]`) or multi-line block form.
pub fn extract_hjson_examples(body: &str) -> (r: Option<Vec<String>>)
    ensures
        match r {
            Some(v) => examples_of(body@) == Some(strings_view(v@)),
            None => examples_of(body@) is None,
        },
{
    let ls = lines(&chars_of(body));
    let mut key = Vec::new();
    push_str(&mut key, "examples:");
    let mut i: usize = 0;
    assert(vviews(ls@).skip(0) =~= vviews(ls@));
    while i < ls.len()
        invariant
            i <= ls.len(),
            key@ == "examples:"@,
            vviews(ls@) == lines_of(body@),
            scan_examples(vviews(ls@).skip(i as int)) == scan_examples(vviews(ls@)),
        decreases ls.len() - i,
    {
        let ghost rest = vviews(ls@).skip(i as int);
        assert(rest[0] == ls@[i as int]@);
        assert(rest.drop_first() =~= vviews(ls@).skip(i + 1));
        let t = trim_start(&ls[i]);
        if starts_with(&t, &key) {
            proof {
                reveal_strlit("examples:");
            }
            let after = subvec(&t, 9, t.len());
            assert(after@ =~= t@.skip(9));
            let rest_v = trim(&after);
            let n = rest_v.len();
            if n > 0 && rest_v[0] == '[' && rest_v[n - 1] == ']' && n >= 2 {
                let inner = subvec(&rest_v, 1, n - 1);
                let parts = split(&inner, ',');
                return Some(unquote_pieces(&parts, true));
            } else if n > 0 && rest_v[0] == '[' {
                let mut block: Vec<Vec<char>> = Vec::new();
                let mut j: usize = i + 1;
                assert(vviews(ls@).skip(i + 1) =~= vviews(ls@).skip(i + 1));
                assert(vviews(block@) =~= Seq::<Seq<char>>::empty());
                loop
                    invariant
                        i + 1 <= j <= ls.len(),
                        vviews(block@) + block_lines(vviews(ls@).skip(j as int)) == block_lines(
                            vviews(ls@).skip(i + 1),
                        ),
                    ensures
                        vviews(block@) == block_lines(vviews(ls@).skip(i + 1)),
                    decreases ls.len() - j,
                {
                    let ghost rj = vviews(ls@).skip(j as int);
                    if j >= ls.len() {
                        assert(rj =~= Seq::<Seq<char>>::empty());
                        assert(vviews(block@) + block_lines(rj) =~= vviews(block@));
                        break;
                    }
                    assert(rj[0] == ls@[j as int]@);
                    assert(rj.drop_first() =~= vviews(ls@).skip(j + 1));
                    let tj = trim_start(&ls[j]);
                    if tj.len() > 0 && tj[0] == ']' {
                        assert(vviews(block@) + block_lines(rj) =~= vviews(block@));
                        break;
                    }
                    let mut e = tj;
                    let mut m = e.len();
                    assert(e@.take(m as int) =~= e@);
                    while m > 0 && e[m - 1] == ','
                        invariant
                            m <= e.len(),
                            trim_end_char(e@.take(m as int), ',') == trim_end_char(e@, ','),
                        decreases m,
                    {
                        assert(e@.take(m as int).drop_last() =~= e@.take(m - 1));
                        m = m - 1;
                    }
                    let piece = subvec(&e, 0, m);
                    assert(piece@ =~= e@.take(m as int));
                    let ghost bv = vviews(block@);
                    block.push(piece);
                    assert(vviews(block@) =~= bv.push(piece@));
                    assert(bv.push(piece@) + block_lines(rj.drop_first()) =~= bv + (seq![piece@]
                        + block_lines(rj.drop_first())));
                    j = j + 1;
                }
                return Some(unquote_pieces(&block, false));
            } else {
                let empty: Vec<Vec<char>> = Vec::new();
                assert(vviews(empty@) =~= Seq::<Seq<char>>::empty());
                return Some(unquote_pieces(&empty, false));
            }
        }
        i = i + 1;
    }
    None
}

// ───────────────────────── rule template ──────────────────────────────────

/// The examples array offered in a rule template for a category.
pub open spec fn template_examples(category: Seq<char>) -> Seq<char> {
    if category == "grammar"@ {
        "[\n    \"example 1 in invented language — translation\",\n    \"example 2 — translation\"\n  ]"@
    } else {
        "[\n    \"phoneme example 1\",\n    \"phoneme example 2\"\n  ]"@
    }
}

/// The HJSON template opened in the editor for a new rule.
pub open spec fn rule_template_text(rule_id: Seq<char>, category: Seq<char>) -> Seq<char> {
    "{\n  rule_id: \""@ + rule_id + "\"\n  category: \"\"\n  rule: \"\"\n  examples: "@
        + template_examples(category) + "\n  applies_when: \"\"\n  depends_on: []\n}\n"@
}

/// The HJSON template for a new rule (grammar or phonology examples).
pub fn rule_template(rule_id: &str, category: &str) -> (t: String)
    ensures
        t@ == rule_template_text(rule_id@, category@),
{
    let mut out: Vec<char> = Vec::new();
    push_str(&mut out, "{\n  rule_id: \"");
    push_str(&mut out, rule_id);
    push_str(&mut out, "\"\n  category: \"\"\n  rule: \"\"\n  examples: ");
    let mut g = Vec::new();
    push_str(&mut g, "grammar");
    if crate::text::chars_eq(&chars_of(category), &g) {
        push_str(
            &mut out,
            "[\n    \"example 1 in invented language — translation\",\n    \"example 2 — translation\"\n  ]",
        );
    } else {
        push_str(&mut out, "[\n    \"phoneme example 1\",\n    \"phoneme example 2\"\n  ]");
    }
    push_str(&mut out, "\n  applies_when: \"\"\n  depends_on: []\n}\n");
    assert(out@ =~= rule_template_text(rule_id@, category@));
    string_of(&out)
}

} // verus!
