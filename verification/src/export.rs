//! The tabular dictionary exports: round-trip CSV and Anki flashcard CSV,
//! plus the shared pieces (Typst escaping, UTF-8 output, sorted form lists).
use vstd::prelude::*;
use vstd::utf8::encode_utf8;
use vstd::multiset::Multiset;
use crate::csv::{csv_field, csv_parse, csv_quote, csv_record, csv_text, lemma_csv_round_trip, CsvRows};
use crate::entry::DictionaryEntry;
use crate::inflection::{seq_lt, lemma_seq_lt_irreflexive, lemma_seq_lt_total, lemma_seq_lt_transitive, Inflection};
use crate::text::{chars_of, join, join_seqs, push_all, push_str, string_of, vviews};

verus! {

// ───────────────────────── output bytes ───────────────────────────────────

/// `String::into_bytes`: the UTF-8 encoding of the string.
#[verifier::external_body]
pub(crate) fn string_into_bytes(s: String) -> (b: Vec<u8>)
    ensures
        b@ == encode_utf8(s@),
{
    s.into_bytes()
}

/// The UTF-8 bytes of the given characters.
pub fn chars_into_bytes(v: &Vec<char>) -> (b: Vec<u8>)
    ensures
        b@ == encode_utf8(v@),
{
    string_into_bytes(string_of(v))
}

// ───────────────────────── Typst escaping ─────────────────────────────────

/// Whether a character carries Typst markup in body text.
pub open spec fn typst_special(c: char) -> bool {
    c == '*' || c == '_' || c == '#' || c == '[' || c == ']' || c == '\\'
}

/// Text with every Typst markup character preceded by a backslash.
pub open spec fn typst_escaped(s: Seq<char>) -> Seq<char>
    decreases s.len(),
{
    if s.len() == 0 {
        seq![]
    } else {
        typst_escaped(s.drop_last()) + if typst_special(s.last()) {
            seq!['\\', s.last()]
        } else {
            seq![s.last()]
        }
    }
}

/// `typst_escaped` on a character vector.
pub fn typst_escape_chars(v: &Vec<char>) -> (r: Vec<char>)
    ensures
        r@ == typst_escaped(v@),
{
    let mut out: Vec<char> = Vec::new();
    let mut i: usize = 0;
    while i < v.len()
        invariant
            i <= v.len(),
            out@ == typst_escaped(v@.take(i as int)),
        decreases v.len() - i,
    {
        assert(v@.take(i + 1).drop_last() =~= v@.take(i as int));
        let c = v[i];
        if c == '*' || c == '_' || c == '#' || c == '[' || c == ']' || c == '\\' {
            out.push('\\');
        }
        out.push(c);
        assert(out@ =~= typst_escaped(v@.take(i + 1)));
        i = i + 1;
    }
    assert(v@.take(v.len() as int) =~= v@);
    out
}

/// Minimal Typst-content escape: `*`, `_`, `#`, `[`, `]` and `\` are
/// backslashed; everything else passes through.
pub fn typst_escape(s: &str) -> (r: String)
    ensures
        r@ == typst_escaped(s@),
{
    string_of(&typst_escape_chars(&chars_of(s)))
}

/// Whether a character is Typst markup other than the backslash.
pub open spec fn typst_markup(c: char) -> bool {
    c == '*' || c == '_' || c == '#' || c == '[' || c == ']'
}

/// How many characters of a text carry Typst markup (backslash included).
pub open spec fn special_count(s: Seq<char>) -> nat
    decreases s.len(),
{
    if s.len() == 0 {
        0
    } else {
        special_count(s.drop_last()) + if typst_special(s.last()) {
            1nat
        } else {
            0nat
        }
    }
}

/// How many backslashes a text ends with.
pub open spec fn trailing_backslashes(s: Seq<char>) -> nat
    decreases s.len(),
{
    if s.len() > 0 && s.last() == '\\' {
        1 + trailing_backslashes(s.drop_last())
    } else {
        0
    }
}

/// Reads an escaped text back: a backslash and the character after it stand
/// for that character.
pub open spec fn typst_unescaped(e: Seq<char>) -> Seq<char>
    decreases e.len(),
{
    if e.len() == 0 {
        seq![]
    } else if e[0] == '\\' && e.len() >= 2 {
        seq![e[1]] + typst_unescaped(e.skip(2))
    } else {
        seq![e[0]] + typst_unescaped(e.skip(1))
    }
}

/// The escaped text of one character.
pub open spec fn typst_piece(c: char) -> Seq<char> {
    if typst_special(c) {
        seq!['\\', c]
    } else {
        seq![c]
    }
}

/// Escaping a concatenation escapes each part.
proof fn lemma_typst_escaped_concat(a: Seq<char>, b: Seq<char>)
    ensures
        typst_escaped(a + b) == typst_escaped(a) + typst_escaped(b),
    decreases b.len(),
{
    if b.len() == 0 {
        assert(a + b =~= a);
        assert(typst_escaped(a) + typst_escaped(b) =~= typst_escaped(a));
    } else {
        lemma_typst_escaped_concat(a, b.drop_last());
        assert((a + b).drop_last() =~= a + b.drop_last());
        assert((a + b).last() == b.last());
    }
}

/// Reading back an escaped text gives the text.
proof fn lemma_typst_unescape(s: Seq<char>)
    ensures
        typst_unescaped(typst_escaped(s)) == s,
    decreases s.len(),
{
    if s.len() > 0 {
        let c = s[0];
        let t = s.drop_first();
        assert(s =~= seq![c] + t);
        lemma_typst_escaped_concat(seq![c], t);
        assert(seq![c].drop_last() =~= Seq::<char>::empty());
        assert(seq![c].last() == c);
        assert(typst_escaped(Seq::<char>::empty()) =~= Seq::<char>::empty());
        assert(typst_escaped(seq![c]) =~= typst_piece(c));
        lemma_typst_unescape(t);
        let e = typst_piece(c) + typst_escaped(t);
        if typst_special(c) {
            assert(e[0] == '\\' && e[1] == c);
            assert(e.skip(2) =~= typst_escaped(t));
        } else {
            assert(e[0] == c);
            assert(e.skip(1) =~= typst_escaped(t));
        }
        assert(typst_unescaped(e) =~= s);
    }
}

/// Escaped text always ends with an even run of backslashes.
proof fn lemma_typst_even_tail(s: Seq<char>)
    ensures
        trailing_backslashes(typst_escaped(s)) % 2 == 0,
    decreases s.len(),
{
    if s.len() > 0 {
        lemma_typst_even_tail(s.drop_last());
        let e = typst_escaped(s.drop_last());
        let c = s.last();
        if c == '\\' {
            let e1 = e.push('\\');
            let e2 = e1.push('\\');
            assert(e2.drop_last() =~= e1);
            assert(e1.drop_last() =~= e);
            assert(trailing_backslashes(e1) == 1 + trailing_backslashes(e));
            assert(trailing_backslashes(e2) == 1 + trailing_backslashes(e1));
            assert(typst_escaped(s) =~= e2);
        } else if typst_special(c) {
            let f = e.push('\\').push(c);
            assert(f.last() == c);
            assert(trailing_backslashes(f) == 0);
            assert(typst_escaped(s) =~= f);
        } else {
            let f = e.push(c);
            assert(f.last() == c);
            assert(trailing_backslashes(f) == 0);
            assert(typst_escaped(s) =~= f);
        }
    }
}

/// In escaped text every markup character follows an odd run of
/// backslashes.
proof fn lemma_typst_odd_runs(s: Seq<char>)
    ensures
        forall|j: int|
            0 <= j < typst_escaped(s).len() && typst_markup(#[trigger] typst_escaped(s)[j])
                ==> trailing_backslashes(typst_escaped(s).take(j)) % 2 == 1,
    decreases s.len(),
{
    if s.len() > 0 {
        let t = s.drop_last();
        let c = s.last();
        lemma_typst_odd_runs(t);
        lemma_typst_even_tail(t);
        let e = typst_escaped(t);
        let f = typst_escaped(s);
        assert(f == e + typst_piece(c));
        assert forall|j: int| 0 <= j < f.len() && typst_markup(#[trigger] f[j]) implies trailing_backslashes(
            f.take(j),
        ) % 2 == 1 by {
            if j < e.len() {
                assert(f[j] == e[j]);
                assert(f.take(j) =~= e.take(j));
            } else if typst_special(c) {
                if j == e.len() {
                    assert(f[j] == '\\');
                } else {
                    assert(j == e.len() + 1);
                    let p = e.push('\\');
                    assert(f.take(j) =~= p);
                    assert(p.drop_last() =~= e);
                }
            } else {
                assert(f[j] == c);
            }
        }
    }
}

/// What Typst escaping guarantees: each markup character (backslash
/// included) gains exactly one backslash; every `*`, `_`, `#`, `[` or `]`
/// of the result follows an odd run of backslashes, so none of them acts as
/// markup; and different texts never escape to the same text.
pub proof fn lemma_typst_escape_law(s: Seq<char>, t: Seq<char>)
    ensures
        typst_escaped(s).len() == s.len() + special_count(s),
        forall|j: int|
            0 <= j < typst_escaped(s).len() && typst_markup(#[trigger] typst_escaped(s)[j])
                ==> trailing_backslashes(typst_escaped(s).take(j)) % 2 == 1,
        typst_escaped(s) == typst_escaped(t) ==> s == t,
    decreases s.len(),
{
    if s.len() > 0 {
        lemma_typst_escape_law(s.drop_last(), t);
    }
    lemma_typst_odd_runs(s);
    lemma_typst_unescape(s);
    lemma_typst_unescape(t);
}

// ───────────────────────── sorting ────────────────────────────────────────

/// `x` placed before the first element of the (sorted) list that is not
/// below it.
pub open spec fn insert_sorted(t: Seq<Seq<char>>, x: Seq<char>) -> Seq<Seq<char>>
    decreases t.len(),
{
    if t.len() == 0 {
        seq![x]
    } else if !seq_lt(t[0], x) {
        seq![x] + t
    } else {
        seq![t[0]] + insert_sorted(t.drop_first(), x)
    }
}

/// A list sorted ascending by `seq_lt` (insertion sort).
pub open spec fn sort_seqs(s: Seq<Seq<char>>) -> Seq<Seq<char>>
    decreases s.len(),
{
    if s.len() == 0 {
        seq![]
    } else {
        insert_sorted(sort_seqs(s.drop_last()), s.last())
    }
}

/// Whether a list is in ascending (non-strict) order.
pub open spec fn ascending(t: Seq<Seq<char>>) -> bool {
    forall|i: int, j: int| 0 <= i < j < t.len() ==> !seq_lt(#[trigger] t[j], #[trigger] t[i])
}

/// `insert_sorted` is an insertion at the first position not below `x`.
proof fn lemma_insert_sorted_at(t: Seq<Seq<char>>, x: Seq<char>, p: int)
    requires
        0 <= p <= t.len(),
        forall|j: int| 0 <= j < p ==> seq_lt(#[trigger] t[j], x),
        p < t.len() ==> !seq_lt(t[p], x),
    ensures
        insert_sorted(t, x) == t.insert(p, x),
    decreases t.len(),
{
    if t.len() == 0 {
        assert(t.insert(p, x) =~= seq![x]);
    } else if p == 0 {
        assert(t.insert(0, x) =~= seq![x] + t);
    } else {
        let u = t.drop_first();
        assert forall|j: int| 0 <= j < p - 1 implies seq_lt(#[trigger] u[j], x) by {
            assert(u[j] == t[j + 1]);
        }
        if p - 1 < u.len() {
            assert(u[p - 1] == t[p]);
        }
        lemma_insert_sorted_at(u, x, p - 1);
        assert(seq![t[0]] + u.insert(p - 1, x) =~= t.insert(p, x));
    }
}

/// Inserting into an ascending list keeps it ascending and adds one copy of
/// the element.
proof fn lemma_insert_sorted_props(t: Seq<Seq<char>>, x: Seq<char>)
    requires
        ascending(t),
    ensures
        ascending(insert_sorted(t, x)),
        insert_sorted(t, x).to_multiset() == t.to_multiset().insert(x),
    decreases t.len(),
{
    broadcast use vstd::seq_lib::group_to_multiset_ensures;
    if t.len() == 0 {
        assert(insert_sorted(t, x) =~= seq![x]);
        assert(seq![x] =~= Seq::<Seq<char>>::empty().push(x));
    } else if !seq_lt(t[0], x) {
        let r = seq![x] + t;
        assert forall|i: int, j: int| 0 <= i < j < r.len() implies !seq_lt(
            #[trigger] r[j],
            #[trigger] r[i],
        ) by {
            if i == 0 {
                assert(r[j] == t[j - 1]);
                if j - 1 > 0 {
                    assert(!seq_lt(t[j - 1], t[0]));
                    if seq_lt(t[j - 1], x) {
                        if t[0] != x {
                            lemma_seq_lt_total(t[0], x);
                            lemma_seq_lt_transitive(t[j - 1], x, t[0]);
                        }
                    }
                } else if seq_lt(t[0], x) {
                }
            } else {
                assert(r[i] == t[i - 1] && r[j] == t[j - 1]);
            }
        }
        assert(r =~= t.insert(0, x));
        vstd::seq_lib::to_multiset_insert(t, 0, x);
    } else {
        let u = t.drop_first();
        assert(ascending(u)) by {
            assert forall|i: int, j: int| 0 <= i < j < u.len() implies !seq_lt(
                #[trigger] u[j],
                #[trigger] u[i],
            ) by {
                assert(u[i] == t[i + 1] && u[j] == t[j + 1]);
            }
        }
        lemma_insert_sorted_props(u, x);
        let w = insert_sorted(u, x);
        let r = seq![t[0]] + w;
        assert forall|i: int, j: int| 0 <= i < j < r.len() implies !seq_lt(
            #[trigger] r[j],
            #[trigger] r[i],
        ) by {
            if i == 0 {
                assert(r[j] == w[j - 1]);
                assert(w.to_multiset().count(w[j - 1]) > 0);
                assert(w.to_multiset() == u.to_multiset().insert(x));
                if w[j - 1] == x {
                    if seq_lt(x, t[0]) {
                        lemma_seq_lt_transitive(x, t[0], x);
                        lemma_seq_lt_irreflexive(x);
                    }
                } else {
                    assert(u.to_multiset().count(w[j - 1]) > 0);
                    assert(u.contains(w[j - 1]));
                    let k = choose|k: int| 0 <= k < u.len() && u[k] == w[j - 1];
                    assert(u[k] == t[k + 1]);
                    assert(!seq_lt(t[k + 1], t[0]));
                }
            } else {
                assert(r[i] == w[i - 1] && r[j] == w[j - 1]);
            }
        }
        assert(t =~= seq![t[0]] + u);
        assert(seq![t[0]] + u =~= u.insert(0, t[0]));
        assert(r =~= w.insert(0, t[0]));
        vstd::seq_lib::to_multiset_insert(u, 0, t[0]);
        vstd::seq_lib::to_multiset_insert(w, 0, t[0]);
        assert(r.to_multiset() =~= t.to_multiset().insert(x));
    }
}

/// What `sort_seqs` computes: an ascending rearrangement of the list.
pub proof fn lemma_sort_seqs(s: Seq<Seq<char>>)
    ensures
        ascending(sort_seqs(s)),
        sort_seqs(s).to_multiset() == s.to_multiset(),
    decreases s.len(),
{
    broadcast use vstd::seq_lib::group_to_multiset_ensures;
    if s.len() == 0 {
        assert(s.to_multiset() =~= Multiset::empty());
        assert(sort_seqs(s).to_multiset() =~= Multiset::empty());
    } else {
        lemma_sort_seqs(s.drop_last());
        lemma_insert_sorted_props(sort_seqs(s.drop_last()), s.last());
        assert(s =~= s.drop_last().push(s.last()));
    }
}

/// Sorts a list of character vectors ascending (insertion sort).
pub fn sort_chars(parts: &Vec<Vec<char>>) -> (r: Vec<Vec<char>>)
    ensures
        vviews(r@) == sort_seqs(vviews(parts@)),
{
    let mut r: Vec<Vec<char>> = Vec::new();
    let mut i: usize = 0;
    assert(vviews(r@) =~= Seq::<Seq<char>>::empty());
    while i < parts.len()
        invariant
            i <= parts.len(),
            vviews(r@) == sort_seqs(vviews(parts@).take(i as int)),
        decreases parts.len() - i,
    {
        let ghost ps = vviews(parts@);
        assert(ps.take(i + 1).drop_last() =~= ps.take(i as int));
        assert(ps.take(i + 1).last() == parts@[i as int]@);
        let x = crate::text::subvec(&parts[i], 0, parts[i].len());
        assert(x@ =~= parts@[i as int]@);
        let mut p: usize = 0;
        while p < r.len() && crate::inflection::compare_chars(&r[p], &x) < 0
            invariant
                p <= r.len(),
                forall|j: int| 0 <= j < p ==> seq_lt(#[trigger] vviews(r@)[j], x@),
            decreases r.len() - p,
        {
            p = p + 1;
        }
        let ghost t = vviews(r@);
        proof {
            lemma_insert_sorted_at(t, x@, p as int);
        }
        r.insert(p, x);
        assert(vviews(r@) =~= t.insert(p as int, x@));
        i = i + 1;
    }
    assert(vviews(parts@).take(parts.len() as int) =~= vviews(parts@));
    r
}

// ───────────────────────── paradigm text ──────────────────────────────────

/// Each form pair written as `sep`-joined name and form.
pub open spec fn pair_texts(p: Seq<(Seq<char>, Seq<char>)>, sep: Seq<char>) -> Seq<Seq<char>> {
    p.map_values(|kv: (Seq<char>, Seq<char>)| kv.0 + sep + kv.1)
}

/// The forms of an entry as `name=form` pieces in name order (the order the
/// paradigm keeps), joined by `;`.
pub open spec fn joined_inflection(p: Seq<(Seq<char>, Seq<char>)>) -> Seq<char> {
    join_seqs(pair_texts(p, "="@), ";"@)
}

/// A joined list holds a character only where a part or the separator does.
pub proof fn lemma_join_lacks(parts: Seq<Seq<char>>, sep: Seq<char>, c: char)
    requires
        !sep.contains(c),
        forall|j: int| 0 <= j < parts.len() ==> !(#[trigger] parts[j]).contains(c),
    ensures
        !join_seqs(parts, sep).contains(c),
    decreases parts.len(),
{
    if parts.len() == 1 {
        assert(!parts[0].contains(c));
    } else if parts.len() > 1 {
        let init = parts.drop_last();
        assert forall|j: int| 0 <= j < init.len() implies !(#[trigger] init[j]).contains(c) by {
            assert(init[j] == parts[j]);
        }
        lemma_join_lacks(init, sep, c);
        let a = join_seqs(init, sep);
        let l = parts.last();
        assert(!l.contains(c));
        if (a + sep + l).contains(c) {
            let k = choose|k: int| 0 <= k < (a + sep + l).len() && (a + sep + l)[k] == c;
            if k < a.len() {
                assert(a[k] == c);
            } else if k < a.len() + sep.len() {
                assert(sep[k - a.len()] == c);
            } else {
                assert(l[k - a.len() - sep.len()] == c);
            }
        }
    }
}

/// The exported inflection cell holds a character other than `=` and `;`
/// only where some name or form does.
pub proof fn lemma_joined_inflection_lacks(p: Seq<(Seq<char>, Seq<char>)>, c: char)
    requires
        c != '=',
        c != ';',
        forall|i: int| 0 <= i < p.len() ==> !(#[trigger] p[i]).0.contains(c) && !p[i].1.contains(c),
    ensures
        !joined_inflection(p).contains(c),
{
    reveal_strlit("=");
    reveal_strlit(";");
    let texts = pair_texts(p, "="@);
    assert forall|j: int| 0 <= j < texts.len() implies !(#[trigger] texts[j]).contains(c) by {
        let t = texts[j];
        assert(t == p[j].0 + "="@ + p[j].1);
        assert(!p[j].0.contains(c) && !p[j].1.contains(c));
        if t.contains(c) {
            let k = choose|k: int| 0 <= k < t.len() && t[k] == c;
            if k < p[j].0.len() {
                assert(p[j].0[k] == c);
            } else if k > p[j].0.len() {
                assert(p[j].1[k - p[j].0.len() - 1] == c);
            }
        }
    }
    assert(!";"@.contains(c)) by {
        if ";"@.contains(c) {
            let k = choose|k: int| 0 <= k < 1 && ";"@[k] == c;
        }
    }
    lemma_join_lacks(texts, ";"@, c);
}

/// The forms as `name<sep>form` character vectors, in iteration order.
pub fn pair_text_list(m: &Inflection, sep: &str) -> (r: Vec<Vec<char>>)
    ensures
        vviews(r@) == pair_texts(m.pairs(), sep@),
{
    let mut r: Vec<Vec<char>> = Vec::new();
    let mut i: usize = 0;
    while i < m.len()
        invariant
            i <= m.pairs().len(),
            vviews(r@) == pair_texts(m.pairs().take(i as int), sep@),
        decreases m.pairs().len() - i,
    {
        let mut t = chars_of(m.key_at(i).as_str());
        push_str(&mut t, sep);
        push_str(&mut t, m.value_at(i).as_str());
        let ghost before = vviews(r@);
        let ghost tv = t@;
        r.push(t);
        assert(m.pairs().take(i + 1) =~= m.pairs().take(i as int).push(m.pairs()[i as int]));
        assert(pair_texts(m.pairs().take(i + 1), sep@) =~= pair_texts(
            m.pairs().take(i as int),
            sep@,
        ).push(tv));
        assert(vviews(r@) =~= before.push(tv));
        i = i + 1;
    }
    assert(m.pairs().take(m.pairs().len() as int) =~= m.pairs());
    r
}

/// `name=form` pairs in name order, joined by `;` (the CSV export's
/// inflection cell, which the import's inflection parser reads back).
pub fn join_inflection(inflection: &Inflection) -> (r: String)
    ensures
        r@ == joined_inflection(inflection.pairs()),
{
    let parts = pair_text_list(inflection, "=");
    let mut sep = Vec::new();
    sep.push(';');
    assert(sep@ =~= ";"@) by {
        reveal_strlit(";");
    }
    string_of(&join(&parts, &sep))
}

// ───────────────────────── CSV exports ────────────────────────────────────

/// The header row of the round-trip CSV export.
pub open spec fn csv_export_header() -> Seq<Seq<char>> {
    seq!["word"@, "type"@, "translation"@, "example"@, "inflection"@]
}

/// An entry's row in the round-trip CSV export.
pub open spec fn csv_export_row(e: DictionaryEntry) -> Seq<Seq<char>> {
    seq![e.word@, e.pos@, e.translation@, e.example@, joined_inflection(e.inflection.pairs())]
}

/// The data rows of the round-trip CSV export.
pub open spec fn csv_export_rows(entries: Seq<(String, DictionaryEntry)>) -> CsvRows {
    entries.map_values(|p: (String, DictionaryEntry)| csv_export_row(p.1))
}

/// The text of the round-trip CSV export: the header row, then one record
/// per entry.
pub open spec fn csv_export_text(entries: Seq<(String, DictionaryEntry)>) -> Seq<char> {
    csv_text(seq![csv_export_header()] + csv_export_rows(entries))
}

/// An entry's row in the Anki export (forms in iteration order, `; `-joined).
pub open spec fn anki_row(e: DictionaryEntry) -> Seq<Seq<char>> {
    seq![
        e.word@,
        e.translation@,
        e.pos@,
        e.example@,
        join_seqs(pair_texts(e.inflection.pairs(), "="@), "; "@),
    ]
}

/// The header row of the Anki export.
pub open spec fn anki_header() -> Seq<Seq<char>> {
    seq!["word"@, "translation"@, "type"@, "example"@, "inflection"@]
}

/// The text of the Anki flashcard export: the header row, then one record
/// per entry.
pub open spec fn anki_text(entries: Seq<(String, DictionaryEntry)>) -> Seq<char> {
    csv_text(
        seq![anki_header()] + entries.map_values(|p: (String, DictionaryEntry)| anki_row(p.1)),
    )
}

/// Appends one five-field CSV record and its line ending.
fn push_record5(out: &mut Vec<char>, a: &str, b: &str, c: &str, d: &str, e: &str)
    ensures
        final(out)@ == old(out)@ + csv_record(seq![a@, b@, c@, d@, e@]) + seq!['\n'],
{
    let ghost start = out@;
    push_str(out, csv_field(a).as_str());
    out.push(',');
    push_str(out, csv_field(b).as_str());
    out.push(',');
    push_str(out, csv_field(c).as_str());
    out.push(',');
    push_str(out, csv_field(d).as_str());
    out.push(',');
    push_str(out, csv_field(e).as_str());
    proof {
        let f0 = seq![a@, b@, c@, d@, e@];
        let f1 = f0.drop_first();
        let f2 = f1.drop_first();
        let f3 = f2.drop_first();
        let f4 = f3.drop_first();
        assert(f1 =~= seq![b@, c@, d@, e@]);
        assert(f2 =~= seq![c@, d@, e@]);
        assert(f3 =~= seq![d@, e@]);
        assert(f4 =~= seq![e@]);
        assert(csv_record(f4) == csv_quote(e@));
        assert(csv_record(f3) == csv_quote(d@) + seq![','] + csv_record(f4));
        assert(csv_record(f2) == csv_quote(c@) + seq![','] + csv_record(f3));
        assert(csv_record(f1) == csv_quote(b@) + seq![','] + csv_record(f2));
        assert(csv_record(f0) == csv_quote(a@) + seq![','] + csv_record(f1));
        assert(out@ =~= start + csv_record(f0));
    }
    out.push('\n');
}

/// A dictionary as round-trip CSV: a header row, then each entry's word,
/// part of speech, gloss, example and `name=form` list in name order.
pub fn render_csv(entries: &[(String, DictionaryEntry)]) -> (out: Vec<u8>)
    ensures
        out@ == encode_utf8(csv_export_text(entries@)),
{
    let ghost rows = seq![csv_export_header()] + csv_export_rows(entries@);
    let mut text: Vec<char> = Vec::new();
    push_record5(&mut text, "word", "type", "translation", "example", "inflection");
    proof {
        assert(rows[0] == csv_export_header());
        lemma_csv_text_prefix_step(rows, 0);
        assert(csv_text_prefix(rows, 0) =~= Seq::<char>::empty());
        assert(text@ =~= csv_text_prefix(rows, 1));
    }
    let mut i: usize = 0;
    while i < entries.len()
        invariant
            i <= entries.len(),
            rows == seq![csv_export_header()] + csv_export_rows(entries@),
            text@ == csv_text_prefix(rows, i + 1),
        decreases entries.len() - i,
    {
        let e = &entries[i].1;
        let infl = join_inflection(&e.inflection);
        push_record5(
            &mut text,
            e.word.as_str(),
            e.pos.as_str(),
            e.translation.as_str(),
            e.example.as_str(),
            infl.as_str(),
        );
        proof {
            lemma_csv_text_prefix_step(rows, i + 1);
            assert(rows[i + 1] =~= seq![e.word@, e.pos@, e.translation@, e.example@, infl@]);
        }
        i = i + 1;
    }
    proof {
        lemma_csv_text_prefix_full(rows);
    }
    chars_into_bytes(&text)
}

/// A dictionary as an Anki-importable CSV: a header row, then each entry's
/// word, gloss, part of speech, example and `; `-joined forms.
pub fn render_anki(entries: &[(String, DictionaryEntry)]) -> (out: Result<
    Vec<u8>,
    crate::error::LanguageError,
>)
    ensures
        out matches Ok(b) && b@ == encode_utf8(anki_text(entries@)),
{
    let ghost rows = seq![anki_header()] + entries@.map_values(
        |p: (String, DictionaryEntry)| anki_row(p.1),
    );
    let mut text: Vec<char> = Vec::new();
    push_record5(&mut text, "word", "translation", "type", "example", "inflection");
    proof {
        assert(rows[0] == anki_header());
        lemma_csv_text_prefix_step(rows, 0);
        assert(csv_text_prefix(rows, 0) =~= Seq::<char>::empty());
        assert(text@ =~= csv_text_prefix(rows, 1));
    }
    let mut i: usize = 0;
    while i < entries.len()
        invariant
            i <= entries.len(),
            rows == seq![anki_header()] + entries@.map_values(
                |p: (String, DictionaryEntry)| anki_row(p.1),
            ),
            text@ == csv_text_prefix(rows, i + 1),
        decreases entries.len() - i,
    {
        let e = &entries[i].1;
        let parts = pair_text_list(&e.inflection, "=");
        let mut sep = Vec::new();
        push_str(&mut sep, "; ");
        let infl = string_of(&join(&parts, &sep));
        push_record5(
            &mut text,
            e.word.as_str(),
            e.translation.as_str(),
            e.pos.as_str(),
            e.example.as_str(),
            infl.as_str(),
        );
        proof {
            lemma_csv_text_prefix_step(rows, i + 1);
            assert(rows[i + 1] =~= seq![e.word@, e.translation@, e.pos@, e.example@, infl@]);
        }
        i = i + 1;
    }
    proof {
        lemma_csv_text_prefix_full(rows);
    }
    Ok(chars_into_bytes(&text))
}

/// The CSV text of the first `n` rows, built from the back.
pub open spec fn csv_text_prefix(rows: CsvRows, n: int) -> Seq<char>
    decreases n,
{
    if n <= 0 {
        seq![]
    } else {
        csv_text_prefix(rows, n - 1) + csv_record(rows[n - 1]) + seq!['\n']
    }
}

/// `csv_text` of a list ends with its last record.
proof fn lemma_csv_text_push(rows: CsvRows, r: Seq<Seq<char>>)
    ensures
        csv_text(rows.push(r)) == csv_text(rows) + csv_record(r) + seq!['\n'],
    decreases rows.len(),
{
    if rows.len() == 0 {
        assert(rows.push(r).drop_first() =~= Seq::<Seq<Seq<char>>>::empty());
        assert(csv_text(Seq::<Seq<Seq<char>>>::empty()) =~= Seq::<char>::empty());
        assert(csv_text(rows) =~= Seq::<char>::empty());
        assert(csv_text(rows.push(r)) =~= csv_text(rows) + csv_record(r) + seq!['\n']);
    } else {
        assert(rows.push(r).drop_first() =~= rows.drop_first().push(r));
        lemma_csv_text_push(rows.drop_first(), r);
        assert(csv_text(rows.push(r)) =~= csv_text(rows) + csv_record(r) + seq!['\n']);
    }
}

/// One more record extends the prefix text.
proof fn lemma_csv_text_prefix_step(rows: CsvRows, i: int)
    requires
        0 <= i < rows.len(),
    ensures
        csv_text_prefix(rows, i + 1) == csv_text_prefix(rows, i) + csv_record(rows[i]) + seq!['\n'],
{
}

/// The prefix text of all rows is the document text.
proof fn lemma_csv_text_prefix_full(rows: CsvRows)
    ensures
        csv_text_prefix(rows, rows.len() as int) == csv_text(rows),
    decreases rows.len(),
{
    if rows.len() > 0 {
        lemma_csv_text_prefix_full(rows.drop_last());
        lemma_csv_text_push(rows.drop_last(), rows.last());
        assert(rows.drop_last().push(rows.last()) =~= rows);
        lemma_csv_text_prefix_agree(rows, rows.drop_last(), rows.len() - 1);
    } else {
        assert(csv_text(rows) =~= Seq::<char>::empty());
    }
}

/// Prefix texts depend only on the rows they cover.
proof fn lemma_csv_text_prefix_agree(a: CsvRows, b: CsvRows, n: int)
    requires
        0 <= n <= a.len(),
        n <= b.len(),
        forall|j: int| 0 <= j < n ==> a[j] == b[j],
    ensures
        csv_text_prefix(a, n) == csv_text_prefix(b, n),
    decreases n,
{
    if n > 0 {
        lemma_csv_text_prefix_agree(a, b, n - 1);
    }
}

/// Whether none of an entry's texts (word, part of speech, gloss, example,
/// and every form's name and form) holds a carriage return.
pub open spec fn entry_cr_free(e: DictionaryEntry) -> bool {
    &&& !e.word@.contains('\r')
    &&& !e.pos@.contains('\r')
    &&& !e.translation@.contains('\r')
    &&& !e.example@.contains('\r')
    &&& forall|i: int|
        0 <= i < e.inflection.pairs().len() ==> !(#[trigger] e.inflection.pairs()[i]).0.contains('\r')
            && !e.inflection.pairs()[i].1.contains('\r')
}

/// The round-trip CSV export reads back: for entries none of whose texts
/// holds a carriage return, parsing the export gives the header row followed
/// by each entry's word, part of speech, gloss, example and joined forms.
pub proof fn lemma_csv_export_reads_back(entries: Seq<(String, DictionaryEntry)>)
    requires
        forall|i: int| 0 <= i < entries.len() ==> entry_cr_free(#[trigger] entries[i].1),
    ensures
        csv_parse(csv_export_text(entries)) == Some(
            seq![csv_export_header()] + csv_export_rows(entries),
        ),
{
    let rows = seq![csv_export_header()] + csv_export_rows(entries);
    let h = csv_export_header();
    reveal_strlit("word");
    reveal_strlit("type");
    reveal_strlit("translation");
    reveal_strlit("example");
    reveal_strlit("inflection");
    assert forall|j: int| 0 <= j < 5 implies !(#[trigger] h[j]).contains('\r') by {
        if h[j].contains('\r') {
            let k = choose|k: int| 0 <= k < h[j].len() && h[j][k] == '\r';
        }
    }
    assert forall|i: int| 0 <= i < rows.len() implies (#[trigger] rows[i]).len() >= 1 by {
        if i > 0 {
            assert(rows[i] == csv_export_row(entries[i - 1].1));
        }
    }
    assert forall|i: int, j: int|
        0 <= i < rows.len() && 0 <= j < rows[i].len() implies !(#[trigger] rows[i][j]).contains(
        '\r',
    ) by {
        if i > 0 {
            let d = entries[i - 1].1;
            assert(rows[i] == csv_export_row(d));
            assert(entry_cr_free(d));
            lemma_joined_inflection_lacks(d.inflection.pairs(), '\r');
            assert(!csv_export_row(d)[j].contains('\r'));
        } else {
            assert(rows[0] == h);
        }
    }
    lemma_csv_round_trip(rows);
}

} // verus!
