//! The Typst document exports: the two-column dictionary, the grammar
//! reference and the phrasebook.
use vstd::prelude::*;
use vstd::utf8::encode_utf8;
use crate::csv_import::bucket_of;
use crate::entry::{DictionaryEntry, MetaOverview};
use crate::export::{
    ascending, chars_into_bytes, lemma_sort_seqs, pair_text_list, pair_texts, sort_chars, sort_seqs,
    typst_escape_chars, typst_escaped,
};
use crate::hjson_scan::{examples_of, extract_hjson_examples, extract_hjson_string_field, scan_field};
use crate::text::{
    chars_eq, chars_of, distinct, distinct_chars, lemma_distinct, join, join_seqs, lines_of, push_all, push_str,
    strings_view, trim, trim_start, trim_start_ws, trim_ws, unicode_uppercase, vviews, char_to_uppercase,
};

verus! {

// ───────────────────────── grouping by key ────────────────────────────────

/// The texts of the first `n` items whose key is `k`, concatenated in order.
pub open spec fn group_text(keys: Seq<Seq<char>>, texts: Seq<Seq<char>>, k: Seq<char>, n: int) -> Seq<char>
    decreases n,
{
    if n <= 0 {
        seq![]
    } else {
        group_text(keys, texts, k, n - 1) + if keys[n - 1] == k {
            texts[n - 1]
        } else {
            Seq::<char>::empty()
        }
    }
}

/// The keys of a grouping, each once, ascending.
pub open spec fn group_order(keys: Seq<Seq<char>>) -> Seq<Seq<char>> {
    sort_seqs(distinct(keys))
}

/// The sections of a grouped document: every key the items carry heads
/// exactly one section, and the sections come in ascending key order.
pub proof fn lemma_group_order(keys: Seq<Seq<char>>)
    ensures
        ascending(group_order(keys)),
        group_order(keys).no_duplicates(),
        forall|k: Seq<char>| group_order(keys).contains(k) <==> keys.contains(k),
{
    broadcast use vstd::seq_lib::group_to_multiset_ensures;
    let d = distinct(keys);
    lemma_distinct(keys);
    lemma_sort_seqs(d);
    let g = sort_seqs(d);
    d.lemma_multiset_has_no_duplicates();
    assert forall|x: Seq<char>| g.to_multiset().contains(x) implies g.to_multiset().count(x) == 1 by {
        assert(d.to_multiset().contains(x));
    }
    g.lemma_multiset_has_no_duplicates_conv();
    assert forall|k: Seq<char>| g.contains(k) <==> keys.contains(k) by {
        assert(g.contains(k) <==> g.to_multiset().count(k) > 0);
        assert(d.contains(k) <==> d.to_multiset().count(k) > 0);
    }
}

/// Appends the texts of the items whose key is `k`, in item order.
fn push_group(out: &mut Vec<char>, keys: &Vec<Vec<char>>, texts: &Vec<Vec<char>>, k: &Vec<char>)
    requires
        keys@.len() == texts@.len(),
    ensures
        final(out)@ == old(out)@ + group_text(vviews(keys@), vviews(texts@), k@, keys@.len() as int),
{
    let ghost start = out@;
    let mut i: usize = 0;
    while i < keys.len()
        invariant
            i <= keys@.len(),
            keys@.len() == texts@.len(),
            out@ == start + group_text(vviews(keys@), vviews(texts@), k@, i as int),
        decreases keys@.len() - i,
    {
        let ghost before = out@;
        if chars_eq(&keys[i], k) {
            push_all(out, &texts[i]);
        }
        assert(out@ =~= before + if vviews(keys@)[i as int] == k@ {
            vviews(texts@)[i as int]
        } else {
            Seq::<char>::empty()
        });
        i = i + 1;
    }
}

/// The distinct keys, ascending.
fn order_of(keys: &Vec<Vec<char>>) -> (r: Vec<Vec<char>>)
    ensures
        vviews(r@) == group_order(vviews(keys@)),
{
    sort_chars(&distinct_chars(keys))
}

// ───────────────────────── two-column dictionary ──────────────────────────

/// The letter a dictionary entry is filed under; `?` for a blank title.
pub open spec fn twocol_bucket(title: Seq<char>) -> Seq<char> {
    match bucket_of(title) {
        Some(b) => b,
        None => "?"@,
    }
}

/// The italic kind · family line under the title, when either is known.
pub open spec fn twocol_meta(meta: Option<MetaOverview>) -> Seq<char> {
    match meta {
        Some(m) => if m.language_kind@.len() > 0 || m.family@.len() > 0 {
            "#align(center)[#text(style: \"italic\")["@ + m.language_kind@ + (if m.family@.len() > 0 {
                (if m.language_kind@.len() > 0 {
                    " · "@
                } else {
                    Seq::<char>::empty()
                }) + m.family@
            } else {
                Seq::<char>::empty()
            }) + "]]\n"@
        } else {
            Seq::<char>::empty()
        },
        None => Seq::<char>::empty(),
    }
}

/// The page setup and title of the two-column dictionary.
pub open spec fn twocol_preamble(name: Seq<char>, meta: Option<MetaOverview>) -> Seq<char> {
    "#set page(paper: \"a4\", columns: 2)\n#set text(font: \"New Computer Modern\", size: 10pt)\n#set par(justify: true)\n\n#align(center)[= "@
        + name + " dictionary]\n"@ + twocol_meta(meta) + "\n"@
}

/// The heading of one letter's section.
pub open spec fn twocol_head(k: Seq<char>) -> Seq<char> {
    "#align(center)[#text(size: 14pt, weight: \"bold\")[— "@ + k + " —]]\n\n"@
}

/// One dictionary entry: bold title, italic part of speech, gloss, then the
/// example and the forms when present, then a blank line.
pub open spec fn twocol_entry(title: Seq<char>, e: DictionaryEntry) -> Seq<char> {
    "*"@ + title + "*  #text(style: \"italic\")["@ + typst_escaped(e.pos@) + "]  "@ + typst_escaped(
        e.translation@,
    ) + "\n"@ + (if trim_ws(e.example@).len() > 0 {
        "  #pad(left: 2em)[#text(style: \"italic\")["@ + typst_escaped(trim_ws(e.example@)) + "]]\n"@
    } else {
        Seq::<char>::empty()
    }) + (if e.inflection.pairs().len() > 0 {
        "  #pad(left: 2em)[#text(size: 8pt)[forms — "@ + typst_escaped(
            join_seqs(pair_texts(e.inflection.pairs(), ": "@), ", "@),
        ) + "]]\n"@
    } else {
        Seq::<char>::empty()
    }) + "\n"@
}

/// The letters the entries are filed under, in entry order.
pub open spec fn twocol_keys(entries: Seq<(String, DictionaryEntry)>) -> Seq<Seq<char>> {
    entries.map_values(|p: (String, DictionaryEntry)| twocol_bucket(p.0@))
}

/// The entries' texts, in entry order.
pub open spec fn twocol_texts(entries: Seq<(String, DictionaryEntry)>) -> Seq<Seq<char>> {
    entries.map_values(|p: (String, DictionaryEntry)| twocol_entry(p.0@, p.1))
}

/// The letter sections for the first keys of `order`.
pub open spec fn twocol_sections(keys: Seq<Seq<char>>, texts: Seq<Seq<char>>, order: Seq<Seq<char>>) -> Seq<char>
    decreases order.len(),
{
    if order.len() == 0 {
        seq![]
    } else {
        twocol_sections(keys, texts, order.drop_last()) + twocol_head(order.last()) + group_text(
            keys,
            texts,
            order.last(),
            keys.len() as int,
        )
    }
}

/// The whole two-column dictionary: entries grouped under their letters,
/// letters ascending, entries in the order given.
pub open spec fn twocol_text(
    name: Seq<char>,
    meta: Option<MetaOverview>,
    entries: Seq<(String, DictionaryEntry)>,
) -> Seq<char> {
    let keys = twocol_keys(entries);
    twocol_preamble(name, meta) + twocol_sections(keys, twocol_texts(entries), group_order(keys))
}

/// The letter an entry title is filed under.
fn bucket_chars(title: &str) -> (r: Vec<char>)
    ensures
        r@ == twocol_bucket(title@),
{
    let t = trim_start(&chars_of(title));
    if t.len() > 0 {
        char_to_uppercase(t[0])
    } else {
        let mut q: Vec<char> = Vec::new();
        push_str(&mut q, "?");
        q
    }
}

/// The overview a borrowed one stands for.
pub open spec fn meta_of(meta: Option<&MetaOverview>) -> Option<MetaOverview> {
    match meta {
        Some(m) => Some(*m),
        None => None,
    }
}

/// The kind · family line.
fn twocol_meta_chars(meta: Option<&MetaOverview>) -> (r: Vec<char>)
    ensures
        r@ == twocol_meta(meta_of(meta)),
{
    let mut r: Vec<char> = Vec::new();
    match meta {
        Some(m) => {
            let kind = chars_of(m.language_kind.as_str());
            let family = chars_of(m.family.as_str());
            if kind.len() > 0 || family.len() > 0 {
                push_str(&mut r, "#align(center)[#text(style: \"italic\")[");
                push_all(&mut r, &kind);
                let ghost a = r@;
                let mut tail: Vec<char> = Vec::new();
                if family.len() > 0 {
                    if kind.len() > 0 {
                        push_str(&mut tail, " · ");
                    }
                    push_all(&mut tail, &family);
                }
                push_all(&mut r, &tail);
                push_str(&mut r, "]]\n");
            }
        },
        None => {},
    }
    r
}

/// One entry's text.
fn twocol_entry_chars(title: &str, e: &DictionaryEntry) -> (r: Vec<char>)
    ensures
        r@ == twocol_entry(title@, *e),
{
    let mut r: Vec<char> = Vec::new();
    push_str(&mut r, "*");
    push_str(&mut r, title);
    push_str(&mut r, "*  #text(style: \"italic\")[");
    push_all(&mut r, &typst_escape_chars(&chars_of(e.pos.as_str())));
    push_str(&mut r, "]  ");
    push_all(&mut r, &typst_escape_chars(&chars_of(e.translation.as_str())));
    push_str(&mut r, "\n");
    let ghost head = r@;
    let mut ex: Vec<char> = Vec::new();
    let t = trim(&chars_of(e.example.as_str()));
    if t.len() > 0 {
        push_str(&mut ex, "  #pad(left: 2em)[#text(style: \"italic\")[");
        push_all(&mut ex, &typst_escape_chars(&t));
        push_str(&mut ex, "]]\n");
    }
    let mut forms: Vec<char> = Vec::new();
    if !e.inflection.is_empty() {
        let parts = pair_text_list(&e.inflection, ": ");
        let mut sep: Vec<char> = Vec::new();
        push_str(&mut sep, ", ");
        push_str(&mut forms, "  #pad(left: 2em)[#text(size: 8pt)[forms — ");
        push_all(&mut forms, &typst_escape_chars(&join(&parts, &sep)));
        push_str(&mut forms, "]]\n");
    }
    push_all(&mut r, &ex);
    push_all(&mut r, &forms);
    push_str(&mut r, "\n");
    r
}

/// The dictionary as a two-column Typst document: the title (with the
/// language's kind and family when known), then the entries grouped under
/// the uppercased first letter of their titles, letters in ascending order.
pub fn render_dictionary_twocol(
    language_name: &str,
    meta: Option<&MetaOverview>,
    entries: &[(String, DictionaryEntry)],
) -> (out: Vec<u8>)
    ensures
        out@ == encode_utf8(twocol_text(language_name@, meta_of(meta), entries@)),
{
    let mut keys: Vec<Vec<char>> = Vec::new();
    let mut texts: Vec<Vec<char>> = Vec::new();
    let mut i: usize = 0;
    while i < entries.len()
        invariant
            i <= entries@.len(),
            vviews(keys@) == twocol_keys(entries@.take(i as int)),
            vviews(texts@) == twocol_texts(entries@.take(i as int)),
        decreases entries@.len() - i,
    {
        let ghost k0 = vviews(keys@);
        let ghost t0 = vviews(texts@);
        let kb = bucket_chars(entries[i].0.as_str());
        let tb = twocol_entry_chars(entries[i].0.as_str(), &entries[i].1);
        let ghost kv = kb@;
        let ghost tv = tb@;
        keys.push(kb);
        texts.push(tb);
        assert(vviews(keys@) =~= k0.push(kv));
        assert(vviews(texts@) =~= t0.push(tv));
        assert(entries@.take(i + 1) =~= entries@.take(i as int).push(entries@[i as int]));
        assert(twocol_keys(entries@.take(i + 1)) =~= twocol_keys(entries@.take(i as int)).push(kv));
        assert(twocol_texts(entries@.take(i + 1)) =~= twocol_texts(entries@.take(i as int)).push(tv));
        assert(vviews(keys@) =~= twocol_keys(entries@.take(i + 1)));
        assert(vviews(texts@) =~= twocol_texts(entries@.take(i + 1)));
        i = i + 1;
    }
    assert(entries@.take(entries@.len() as int) =~= entries@);
    let order = order_of(&keys);
    let mut s: Vec<char> = Vec::new();
    push_str(
        &mut s,
        "#set page(paper: \"a4\", columns: 2)\n#set text(font: \"New Computer Modern\", size: 10pt)\n#set par(justify: true)\n\n#align(center)[= ",
    );
    push_str(&mut s, language_name);
    push_str(&mut s, " dictionary]\n");
    push_all(&mut s, &twocol_meta_chars(meta));
    push_str(&mut s, "\n");
    let ghost pre = s@;
    assert(pre =~= twocol_preamble(language_name@, meta_of(meta)));
    let mut j: usize = 0;
    while j < order.len()
        invariant
            j <= order@.len(),
            keys@.len() == texts@.len(),
            s@ == pre + twocol_sections(vviews(keys@), vviews(texts@), vviews(order@).take(j as int)),
        decreases order@.len() - j,
    {
        let ghost before = s@;
        push_str(&mut s, "#align(center)[#text(size: 14pt, weight: \"bold\")[— ");
        push_all(&mut s, &order[j]);
        push_str(&mut s, " —]]\n\n");
        push_group(&mut s, &keys, &texts, &order[j]);
        assert(vviews(order@).take(j + 1).drop_last() =~= vviews(order@).take(j as int));
        assert(vviews(order@).take(j + 1).last() == order@[j as int]@);
        assert(s@ =~= pre + twocol_sections(vviews(keys@), vviews(texts@), vviews(order@).take(j + 1)));
        j = j + 1;
    }
    assert(vviews(order@).take(order@.len() as int) =~= vviews(order@));
    chars_into_bytes(&s)
}

// ───────────────────────── grammar reference ──────────────────────────────

/// The value of a `field:` line of an HJSON body.
pub open spec fn hjson_field(body: Seq<char>, field: Seq<char>) -> Option<Seq<char>> {
    scan_field(lines_of(body), field + seq![':'])
}

/// The category a grammar rule is filed under.
pub open spec fn category_of(body: Seq<char>) -> Seq<char> {
    match hjson_field(body, "category"@) {
        Some(c) => c,
        None => "Uncategorised"@,
    }
}

/// The `*Rule:*` paragraph, when the body states a rule.
pub open spec fn rule_para(body: Seq<char>) -> Seq<char> {
    match hjson_field(body, "rule"@) {
        Some(r) => "*Rule:* "@ + typst_escaped(r) + "\n\n"@,
        None => Seq::<char>::empty(),
    }
}

/// One bullet per example.
pub open spec fn example_items(xs: Seq<Seq<char>>) -> Seq<char>
    decreases xs.len(),
{
    if xs.len() == 0 {
        seq![]
    } else {
        example_items(xs.drop_last()) + "- "@ + typst_escaped(xs.last()) + "\n"@
    }
}

/// The `*Examples:*` list, when the body has at least one example.
pub open spec fn examples_para(body: Seq<char>) -> Seq<char> {
    match examples_of(body) {
        Some(xs) => if xs.len() > 0 {
            "*Examples:*\n\n"@ + example_items(xs) + "\n"@
        } else {
            Seq::<char>::empty()
        },
        None => Seq::<char>::empty(),
    }
}

/// One grammar rule: its title as a third-level heading, its rule and its
/// examples.
pub open spec fn grammar_rule(title: Seq<char>, body: Seq<char>) -> Seq<char> {
    "=== "@ + typst_escaped(title) + "\n\n"@ + rule_para(body) + examples_para(body)
}

/// The heading of one category.
pub open spec fn category_head(cat: Seq<char>) -> Seq<char> {
    "== "@ + typst_escaped(cat) + "\n\n"@
}

/// The category sections for the first keys of `order`.
pub open spec fn category_sections(keys: Seq<Seq<char>>, texts: Seq<Seq<char>>, order: Seq<Seq<char>>) -> Seq<char>
    decreases order.len(),
{
    if order.len() == 0 {
        seq![]
    } else {
        category_sections(keys, texts, order.drop_last()) + category_head(order.last()) + group_text(
            keys,
            texts,
            order.last(),
            keys.len() as int,
        )
    }
}

/// The `*Pattern:*` paragraph, when the body states one.
pub open spec fn pattern_para(body: Seq<char>) -> Seq<char> {
    match hjson_field(body, "pattern"@) {
        Some(p) => "*Pattern:* `"@ + p + "`\n\n"@,
        None => Seq::<char>::empty(),
    }
}

/// The phonology rules, each under a second-level heading.
pub open spec fn phonology_items(rules: Seq<(String, String)>) -> Seq<char>
    decreases rules.len(),
{
    if rules.len() == 0 {
        seq![]
    } else {
        phonology_items(rules.drop_last()) + "== "@ + typst_escaped(rules.last().0@) + "\n\n"@
            + rule_para(rules.last().1@) + pattern_para(rules.last().1@)
    }
}

/// The page setup, title, outline and page break of the grammar reference.
pub open spec fn grammar_preamble(title: Seq<char>) -> Seq<char> {
    "#set page(paper: \"a4\", margin: 2cm)\n#set heading(numbering: \"1.\")\n#set text(font: (\"New Computer Modern\", \"DejaVu Serif\"), size: 11pt)\n#align(center)[#text(20pt, weight: \"bold\")["@
        + typst_escaped(title) + " — grammar reference]]\n\n#outline()\n\n#pagebreak()\n\n"@
}

/// The categories of the grammar rules, in rule order.
pub open spec fn grammar_keys(rules: Seq<(String, String)>) -> Seq<Seq<char>> {
    rules.map_values(|p: (String, String)| category_of(p.1@))
}

/// The texts of the grammar rules, in rule order.
pub open spec fn grammar_texts(rules: Seq<(String, String)>) -> Seq<Seq<char>> {
    rules.map_values(|p: (String, String)| grammar_rule(p.0@, p.1@))
}

/// The whole grammar reference: grammar rules grouped by category,
/// categories ascending, then the phonology rules when there are any.
pub open spec fn grammar_text(
    title: Seq<char>,
    grammar: Seq<(String, String)>,
    phonology: Seq<(String, String)>,
) -> Seq<char> {
    let keys = grammar_keys(grammar);
    grammar_preamble(title) + "= Grammar rules\n\n"@ + category_sections(
        keys,
        grammar_texts(grammar),
        group_order(keys),
    ) + if phonology.len() > 0 {
        "\n= Phonology rules\n\n"@ + phonology_items(phonology)
    } else {
        Seq::<char>::empty()
    }
}

/// The category of a rule body.
fn category_chars(body: &str) -> (r: Vec<char>)
    ensures
        r@ == category_of(body@),
{
    match extract_hjson_string_field(body, "category") {
        Some(c) => chars_of(c.as_str()),
        None => chars_of("Uncategorised"),
    }
}

/// The `*Rule:*` paragraph of a body.
fn rule_para_chars(body: &str) -> (r: Vec<char>)
    ensures
        r@ == rule_para(body@),
{
    let mut r: Vec<char> = Vec::new();
    match extract_hjson_string_field(body, "rule") {
        Some(v) => {
            push_str(&mut r, "*Rule:* ");
            push_all(&mut r, &typst_escape_chars(&chars_of(v.as_str())));
            push_str(&mut r, "\n\n");
        },
        None => {},
    }
    r
}

/// The `*Examples:*` list of a body.
fn examples_para_chars(body: &str) -> (r: Vec<char>)
    ensures
        r@ == examples_para(body@),
{
    let mut r: Vec<char> = Vec::new();
    match extract_hjson_examples(body) {
        Some(xs) => {
            if xs.len() > 0 {
                push_str(&mut r, "*Examples:*\n\n");
                let ghost start = r@;
                let mut i: usize = 0;
                while i < xs.len()
                    invariant
                        i <= xs@.len(),
                        r@ == start + example_items(strings_view(xs@).take(i as int)),
                    decreases xs@.len() - i,
                {
                    push_str(&mut r, "- ");
                    push_all(&mut r, &typst_escape_chars(&chars_of(xs[i].as_str())));
                    push_str(&mut r, "\n");
                    assert(strings_view(xs@).take(i + 1).drop_last() =~= strings_view(xs@).take(
                        i as int,
                    ));
                    assert(strings_view(xs@).take(i + 1).last() == xs@[i as int]@);
                    i = i + 1;
                }
                assert(strings_view(xs@).take(xs@.len() as int) =~= strings_view(xs@));
                push_str(&mut r, "\n");
            }
        },
        None => {},
    }
    r
}

/// The `*Pattern:*` paragraph of a body.
fn pattern_para_chars(body: &str) -> (r: Vec<char>)
    ensures
        r@ == pattern_para(body@),
{
    let mut r: Vec<char> = Vec::new();
    match extract_hjson_string_field(body, "pattern") {
        Some(v) => {
            push_str(&mut r, "*Pattern:* `");
            push_str(&mut r, v.as_str());
            push_str(&mut r, "`\n\n");
        },
        None => {},
    }
    r
}

/// One grammar rule's text.
fn grammar_rule_chars(title: &str, body: &str) -> (r: Vec<char>)
    ensures
        r@ == grammar_rule(title@, body@),
{
    let mut r: Vec<char> = Vec::new();
    push_str(&mut r, "=== ");
    push_all(&mut r, &typst_escape_chars(&chars_of(title)));
    push_str(&mut r, "\n\n");
    push_all(&mut r, &rule_para_chars(body));
    push_all(&mut r, &examples_para_chars(body));
    r
}

/// A Typst grammar reference: the grammar rules grouped under their
/// `category` (`Uncategorised` when absent), categories ascending, each rule
/// with its `rule` text and examples; then the phonology rules with their
/// `rule` and `pattern`.
pub fn render_grammar(
    language_title: &str,
    grammar_bodies: &[(String, String)],
    phonology_bodies: &[(String, String)],
) -> (out: Vec<u8>)
    ensures
        out@ == encode_utf8(grammar_text(language_title@, grammar_bodies@, phonology_bodies@)),
{
    let mut keys: Vec<Vec<char>> = Vec::new();
    let mut texts: Vec<Vec<char>> = Vec::new();
    let mut i: usize = 0;
    while i < grammar_bodies.len()
        invariant
            i <= grammar_bodies@.len(),
            vviews(keys@) == grammar_keys(grammar_bodies@.take(i as int)),
            vviews(texts@) == grammar_texts(grammar_bodies@.take(i as int)),
        decreases grammar_bodies@.len() - i,
    {
        let ghost k0 = vviews(keys@);
        let ghost t0 = vviews(texts@);
        let kb = category_chars(grammar_bodies[i].1.as_str());
        let tb = grammar_rule_chars(grammar_bodies[i].0.as_str(), grammar_bodies[i].1.as_str());
        let ghost kv = kb@;
        let ghost tv = tb@;
        keys.push(kb);
        texts.push(tb);
        assert(vviews(keys@) =~= k0.push(kv));
        assert(vviews(texts@) =~= t0.push(tv));
        assert(grammar_bodies@.take(i + 1) =~= grammar_bodies@.take(i as int).push(
            grammar_bodies@[i as int],
        ));
        assert(grammar_keys(grammar_bodies@.take(i + 1)) =~= grammar_keys(
            grammar_bodies@.take(i as int),
        ).push(kv));
        assert(grammar_texts(grammar_bodies@.take(i + 1)) =~= grammar_texts(
            grammar_bodies@.take(i as int),
        ).push(tv));
        i = i + 1;
    }
    assert(grammar_bodies@.take(grammar_bodies@.len() as int) =~= grammar_bodies@);
    let order = order_of(&keys);
    let mut s: Vec<char> = Vec::new();
    push_str(
        &mut s,
        "#set page(paper: \"a4\", margin: 2cm)\n#set heading(numbering: \"1.\")\n#set text(font: (\"New Computer Modern\", \"DejaVu Serif\"), size: 11pt)\n#align(center)[#text(20pt, weight: \"bold\")[",
    );
    push_all(&mut s, &typst_escape_chars(&chars_of(language_title)));
    push_str(&mut s, " — grammar reference]]\n\n#outline()\n\n#pagebreak()\n\n");
    push_str(&mut s, "= Grammar rules\n\n");
    let ghost pre = s@;
    assert(pre =~= grammar_preamble(language_title@) + "= Grammar rules\n\n"@);
    let mut j: usize = 0;
    while j < order.len()
        invariant
            j <= order@.len(),
            keys@.len() == texts@.len(),
            s@ == pre + category_sections(vviews(keys@), vviews(texts@), vviews(order@).take(j as int)),
        decreases order@.len() - j,
    {
        push_str(&mut s, "== ");
        push_all(&mut s, &typst_escape_chars(&order[j]));
        push_str(&mut s, "\n\n");
        push_group(&mut s, &keys, &texts, &order[j]);
        assert(vviews(order@).take(j + 1).drop_last() =~= vviews(order@).take(j as int));
        assert(vviews(order@).take(j + 1).last() == order@[j as int]@);
        assert(s@ =~= pre + category_sections(vviews(keys@), vviews(texts@), vviews(order@).take(j + 1)));
        j = j + 1;
    }
    assert(vviews(order@).take(order@.len() as int) =~= vviews(order@));
    let ghost mid = s@;
    if phonology_bodies.len() > 0 {
        push_str(&mut s, "\n= Phonology rules\n\n");
        let ghost ph = s@;
        let mut k: usize = 0;
        while k < phonology_bodies.len()
            invariant
                k <= phonology_bodies@.len(),
                s@ == ph + phonology_items(phonology_bodies@.take(k as int)),
            decreases phonology_bodies@.len() - k,
        {
            push_str(&mut s, "== ");
            push_all(&mut s, &typst_escape_chars(&chars_of(phonology_bodies[k].0.as_str())));
            push_str(&mut s, "\n\n");
            push_all(&mut s, &rule_para_chars(phonology_bodies[k].1.as_str()));
            push_all(&mut s, &pattern_para_chars(phonology_bodies[k].1.as_str()));
            assert(phonology_bodies@.take(k + 1).drop_last() =~= phonology_bodies@.take(k as int));
            assert(phonology_bodies@.take(k + 1).last() == phonology_bodies@[k as int]);
            k = k + 1;
        }
        assert(phonology_bodies@.take(phonology_bodies@.len() as int) =~= phonology_bodies@);
        assert(s@ =~= mid + ("\n= Phonology rules\n\n"@ + phonology_items(phonology_bodies@)));
    } else {
        assert(s@ =~= mid + Seq::<char>::empty());
    }
    assert(s@ =~= grammar_text(language_title@, grammar_bodies@, phonology_bodies@));
    chars_into_bytes(&s)
}

// ───────────────────────── phrasebook ─────────────────────────────────────

/// The first of two fields that the body gives.
pub open spec fn either_field(body: Seq<char>, a: Seq<char>, b: Seq<char>) -> Option<Seq<char>> {
    match hjson_field(body, a) {
        Some(v) => Some(v),
        None => hjson_field(body, b),
    }
}

/// One sample as a two-column grid: the gloss beside the original, the raw
/// body standing in for whichever of the two fields is missing.
pub open spec fn phrase_item(title: Seq<char>, body: Seq<char>) -> Seq<char> {
    let gloss = match either_field(body, "gloss"@, "translation"@) {
        Some(g) => g,
        None => body,
    };
    let original = match either_field(body, "original"@, "text"@) {
        Some(o) => o,
        None => body,
    };
    "== "@ + typst_escaped(title) + "\n\n"@ + "#grid(columns: (1fr, 1fr), gutter: 1em,\n"@
        + "  [#text(weight: \"semibold\")[Gloss]\\\n"@ + typst_escaped(gloss) + "],\n"@
        + "  [#text(weight: \"semibold\")[Original]\\\n"@ + typst_escaped(original) + "],\n"@
        + ")\n\n"@
}

/// The samples in order.
pub open spec fn phrase_items(samples: Seq<(String, String)>) -> Seq<char>
    decreases samples.len(),
{
    if samples.len() == 0 {
        seq![]
    } else {
        phrase_items(samples.drop_last()) + phrase_item(samples.last().0@, samples.last().1@)
    }
}

/// The whole phrasebook.
pub open spec fn phrasebook_text(title: Seq<char>, samples: Seq<(String, String)>) -> Seq<char> {
    "#set page(paper: \"a4\", margin: 2cm)\n#set text(font: (\"New Computer Modern\", \"DejaVu Serif\"), size: 11pt)\n#align(center)[#text(20pt, weight: \"bold\")["@
        + typst_escaped(title) + " — phrasebook]]\n\n"@ + if samples.len() == 0 {
        "_No sample texts in the project yet._\n"@
    } else {
        phrase_items(samples)
    }
}

/// The first of two fields that the body gives.
fn either_field_exec(body: &str, a: &str, b: &str) -> (r: Option<String>)
    ensures
        match r {
            Some(v) => either_field(body@, a@, b@) == Some(v@),
            None => either_field(body@, a@, b@) is None,
        },
{
    match extract_hjson_string_field(body, a) {
        Some(v) => Some(v),
        None => extract_hjson_string_field(body, b),
    }
}

/// One sample's grid.
fn phrase_item_chars(title: &str, body: &str) -> (r: Vec<char>)
    ensures
        r@ == phrase_item(title@, body@),
{
    let gloss = match either_field_exec(body, "gloss", "translation") {
        Some(g) => chars_of(g.as_str()),
        None => chars_of(body),
    };
    let original = match either_field_exec(body, "original", "text") {
        Some(o) => chars_of(o.as_str()),
        None => chars_of(body),
    };
    let mut r: Vec<char> = Vec::new();
    push_str(&mut r, "== ");
    push_all(&mut r, &typst_escape_chars(&chars_of(title)));
    push_str(&mut r, "\n\n");
    push_str(&mut r, "#grid(columns: (1fr, 1fr), gutter: 1em,\n");
    push_str(&mut r, "  [#text(weight: \"semibold\")[Gloss]\\\n");
    push_all(&mut r, &typst_escape_chars(&gloss));
    push_str(&mut r, "],\n");
    push_str(&mut r, "  [#text(weight: \"semibold\")[Original]\\\n");
    push_all(&mut r, &typst_escape_chars(&original));
    push_str(&mut r, "],\n");
    push_str(&mut r, ")\n\n");
    r
}

/// A Typst phrasebook of the sample texts: each sample's gloss (its `gloss`
/// or `translation` field, else the raw body) beside its original (its
/// `original` or `text` field, else a placeholder).
pub fn render_phrasebook(language_title: &str, sample_bodies: &[(String, String)]) -> (out: Vec<u8>)
    ensures
        out@ == encode_utf8(phrasebook_text(language_title@, sample_bodies@)),
{
    let mut s: Vec<char> = Vec::new();
    push_str(
        &mut s,
        "#set page(paper: \"a4\", margin: 2cm)\n#set text(font: (\"New Computer Modern\", \"DejaVu Serif\"), size: 11pt)\n#align(center)[#text(20pt, weight: \"bold\")[",
    );
    push_all(&mut s, &typst_escape_chars(&chars_of(language_title)));
    push_str(&mut s, " — phrasebook]]\n\n");
    if sample_bodies.len() == 0 {
        push_str(&mut s, "_No sample texts in the project yet._\n");
        return chars_into_bytes(&s);
    }
    let ghost pre = s@;
    let mut i: usize = 0;
    while i < sample_bodies.len()
        invariant
            i <= sample_bodies@.len(),
            s@ == pre + phrase_items(sample_bodies@.take(i as int)),
        decreases sample_bodies@.len() - i,
    {
        push_all(&mut s, &phrase_item_chars(sample_bodies[i].0.as_str(), sample_bodies[i].1.as_str()));
        assert(sample_bodies@.take(i + 1).drop_last() =~= sample_bodies@.take(i as int));
        assert(sample_bodies@.take(i + 1).last() == sample_bodies@[i as int]);
        i = i + 1;
    }
    assert(sample_bodies@.take(sample_bodies@.len() as int) =~= sample_bodies@);
    chars_into_bytes(&s)
}

} // verus!
