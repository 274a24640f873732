//! The round trip of the CSV export: importing the export gives back the
//! exported entries.
use vstd::prelude::*;
use crate::csv::csv_parse;
use crate::csv_import::{
    cell, column_index, columns_of_header, entry_from_row, first_column_at, inflection_fold,
    inflection_piece, missing_column, names_column, opt_cell, CsvColumns,
};
use crate::entry::{DictionaryEntry, ImportEntry};
use crate::export::{
    csv_export_header, csv_export_row, csv_export_rows, csv_export_text, entry_cr_free,
    joined_inflection, lemma_csv_export_reads_back, pair_texts,
};
use crate::inflection::pairs_map;
use crate::text::{
    ascii_lower, find_char, join_seqs, lemma_find_char, lemma_find_char_at, split_char, trim_end_ws,
    trim_start_ws, trim_ws, white_space,
};

verus! {

// ───────────────────────── trimming facts ─────────────────────────────────

/// Removing leading whitespace never lengthens a text, and shortens one
/// that starts with whitespace.
proof fn lemma_trim_start_len(s: Seq<char>)
    ensures
        trim_start_ws(s).len() <= s.len(),
        s.len() > 0 && white_space(s[0]) ==> trim_start_ws(s).len() < s.len(),
        s.len() > 0 && !white_space(s[0]) ==> trim_start_ws(s) == s,
    decreases s.len(),
{
    if s.len() > 0 && white_space(s[0]) {
        lemma_trim_start_len(s.drop_first());
    }
}

/// Removing trailing whitespace never lengthens a text, and shortens one
/// that ends with whitespace.
proof fn lemma_trim_end_len(s: Seq<char>)
    ensures
        trim_end_ws(s).len() <= s.len(),
        s.len() > 0 && white_space(s.last()) ==> trim_end_ws(s).len() < s.len(),
        s.len() > 0 && !white_space(s.last()) ==> trim_end_ws(s) == s,
    decreases s.len(),
{
    if s.len() > 0 && white_space(s.last()) {
        lemma_trim_end_len(s.drop_last());
    }
}

/// A non-empty trimmed text starts and ends with non-whitespace.
proof fn lemma_trimmed_ends(s: Seq<char>)
    requires
        trim_ws(s) == s,
        s.len() > 0,
    ensures
        !white_space(s[0]),
        !white_space(s.last()),
{
    lemma_trim_start_len(s);
    lemma_trim_end_len(trim_start_ws(s));
    if !white_space(s[0]) {
        lemma_trim_end_len(s);
    }
}

/// A text that starts and ends with non-whitespace is trimmed.
proof fn lemma_ends_trimmed(s: Seq<char>)
    requires
        s.len() > 0,
        !white_space(s[0]),
        !white_space(s.last()),
    ensures
        trim_ws(s) == s,
{
    lemma_trim_start_len(s);
    lemma_trim_end_len(s);
}

// ───────────────────────── joining and splitting ──────────────────────────

/// A joined list is its first part, the separator, then the rest joined.
proof fn lemma_join_front(parts: Seq<Seq<char>>, sep: Seq<char>)
    requires
        parts.len() >= 2,
    ensures
        join_seqs(parts, sep) == parts[0] + sep + join_seqs(parts.drop_first(), sep),
    decreases parts.len(),
{
    if parts.len() == 2 {
        assert(parts.drop_last().len() == 1);
        assert(parts.drop_last()[0] == parts[0]);
        assert(join_seqs(parts.drop_last(), sep) == parts[0]);
        assert(parts.drop_first().len() == 1);
        assert(parts.drop_first()[0] == parts[1]);
        assert(join_seqs(parts.drop_first(), sep) == parts[1]);
    } else {
        let init = parts.drop_last();
        let rest = parts.drop_first();
        lemma_join_front(init, sep);
        assert(init[0] == parts[0]);
        assert(init.drop_first() =~= rest.drop_last());
        assert(rest.last() == parts.last());
        assert(rest.len() >= 2);
        assert(join_seqs(rest, sep) == join_seqs(rest.drop_last(), sep) + sep + rest.last());
        assert(join_seqs(parts, sep) == join_seqs(init, sep) + sep + parts.last());
        assert(join_seqs(parts, sep) =~= parts[0] + sep + join_seqs(rest, sep));
    }
}

/// A text without `c` splits on `c` into itself.
proof fn lemma_split_whole(s: Seq<char>, c: char)
    requires
        !s.contains(c),
    ensures
        split_char(s, c) == seq![s],
{
    lemma_find_char(s, c);
    if find_char(s, c) < s.len() {
        assert(s[find_char(s, c)] == c);
    }
}

/// Splitting parts joined by `;` gives the parts back, when no part holds
/// a `;`.
proof fn lemma_split_join(parts: Seq<Seq<char>>)
    requires
        parts.len() >= 1,
        forall|j: int| 0 <= j < parts.len() ==> !(#[trigger] parts[j]).contains(';'),
    ensures
        split_char(join_seqs(parts, seq![';']), ';') == parts,
    decreases parts.len(),
{
    if parts.len() == 1 {
        assert(!parts[0].contains(';'));
        lemma_split_whole(parts[0], ';');
        assert(seq![parts[0]] =~= parts);
    } else {
        let rest = parts.drop_first();
        lemma_join_front(parts, seq![';']);
        let s = join_seqs(parts, seq![';']);
        let p0 = parts[0];
        assert(!p0.contains(';'));
        assert forall|j: int| 0 <= j < p0.len() implies s[j] != ';' by {
            assert(s[j] == p0[j]);
        }
        assert(s[p0.len() as int] == ';');
        lemma_find_char_at(s, ';', p0.len() as int);
        assert(s.take(p0.len() as int) =~= p0);
        assert(s.skip(p0.len() as int + 1) =~= join_seqs(rest, seq![';']));
        assert forall|j: int| 0 <= j < rest.len() implies !(#[trigger] rest[j]).contains(';') by {
            assert(rest[j] == parts[j + 1]);
        }
        lemma_split_join(rest);
        assert(seq![p0] + rest =~= parts);
    }
}

// ───────────────────────── one form ───────────────────────────────────────

/// A paradigm form that survives joining and reading back: name and form
/// trimmed and not empty, the name without `=`, neither holding `;`.
pub open spec fn form_round_trips(kv: (Seq<char>, Seq<char>)) -> bool {
    &&& trim_ws(kv.0) == kv.0 && kv.0.len() > 0
    &&& trim_ws(kv.1) == kv.1 && kv.1.len() > 0
    &&& !kv.0.contains('=')
    &&& !kv.0.contains(';') && !kv.1.contains(';')
}

/// The `name=form` text of a pair.
pub open spec fn form_text(kv: (Seq<char>, Seq<char>)) -> Seq<char> {
    kv.0 + seq!['='] + kv.1
}

/// A `name=form` piece reads back as its pair.
proof fn lemma_piece_reads_back(kv: (Seq<char>, Seq<char>))
    requires
        form_round_trips(kv),
    ensures
        inflection_piece(form_text(kv)) == Some(kv),
{
    let (k, v) = kv;
    let t = form_text(kv);
    lemma_trimmed_ends(k);
    lemma_trimmed_ends(v);
    assert(t[0] == k[0]);
    assert(t.last() == v.last());
    lemma_ends_trimmed(t);
    assert forall|j: int| 0 <= j < k.len() implies t[j] != '=' by {
        assert(t[j] == k[j]);
        if k[j] == '=' {
            assert(k.contains('='));
        }
    }
    lemma_find_char_at(t, '=', k.len() as int);
    assert(t.take(k.len() as int) =~= k);
    assert(t.skip(k.len() as int + 1) =~= v);
}

/// A `name=form` text holds a character other than `=` only if a side does.
proof fn lemma_form_text_lacks(kv: (Seq<char>, Seq<char>), c: char)
    requires
        !kv.0.contains(c),
        !kv.1.contains(c),
        c != '=',
    ensures
        !form_text(kv).contains(c),
{
    let t = form_text(kv);
    if t.contains(c) {
        let k = choose|k: int| 0 <= k < t.len() && t[k] == c;
        if k < kv.0.len() {
            assert(kv.0[k] == c);
        } else if k > kv.0.len() {
            assert(kv.1[k - kv.0.len() - 1] == c);
        }
    }
}

/// The pieces of the `name=form` texts fold into the map of the pairs.
proof fn lemma_fold_texts(p: Seq<(Seq<char>, Seq<char>)>)
    requires
        forall|i: int| 0 <= i < p.len() ==> form_round_trips(#[trigger] p[i]),
    ensures
        inflection_fold(pair_texts(p, "="@)) == pairs_map(p),
    decreases p.len(),
{
    reveal_strlit("=");
    if p.len() > 0 {
        let q = p.drop_last();
        assert forall|i: int| 0 <= i < q.len() implies form_round_trips(#[trigger] q[i]) by {
            assert(q[i] == p[i]);
        }
        lemma_fold_texts(q);
        let texts = pair_texts(p, "="@);
        assert(texts.drop_last() =~= pair_texts(q, "="@));
        assert(texts.last() =~= form_text(p.last()));
        lemma_piece_reads_back(p.last());
    }
}

/// Reading back the joined forms: for names and forms trimmed and not
/// empty, names without `=`, neither holding `;`, splitting the exported
/// inflection cell on `;` and reading each `name=form` piece gives exactly
/// the map of the forms.
pub proof fn lemma_inflection_round_trip(p: Seq<(Seq<char>, Seq<char>)>)
    requires
        forall|i: int| 0 <= i < p.len() ==> form_round_trips(#[trigger] p[i]),
    ensures
        inflection_fold(split_char(joined_inflection(p), ';')) == pairs_map(p),
{
    reveal_strlit("=");
    reveal_strlit(";");
    let texts = pair_texts(p, "="@);
    assert(";"@ =~= seq![';']);
    lemma_fold_texts(p);
    if p.len() == 0 {
        assert(joined_inflection(p) =~= Seq::<char>::empty());
        assert(split_char(Seq::<char>::empty(), ';') == seq![Seq::<char>::empty()]);
        let pieces = seq![Seq::<char>::empty()];
        assert(pieces.drop_last() =~= Seq::<Seq<char>>::empty());
        assert(pieces.last() == Seq::<char>::empty());
        assert(inflection_fold(pieces.drop_last()) == Map::<Seq<char>, Seq<char>>::empty());
        assert(trim_ws(Seq::<char>::empty()) =~= Seq::<char>::empty());
        assert(inflection_piece(Seq::<char>::empty()) is None);
        assert(inflection_fold(pieces) =~= Map::<Seq<char>, Seq<char>>::empty());
        assert(pairs_map(p) =~= Map::<Seq<char>, Seq<char>>::empty());
    } else {
        assert forall|j: int| 0 <= j < texts.len() implies !(#[trigger] texts[j]).contains(';') by {
            assert(texts[j] =~= form_text(p[j]));
            lemma_form_text_lacks(p[j], ';');
        }
        lemma_split_join(texts);
    }
}

// ───────────────────────── whole entries ──────────────────────────────────

/// The first header position naming a column is where `column_index`
/// finds it.
proof fn lemma_column_at(h: Seq<Seq<char>>, name: Seq<char>, k: int)
    requires
        0 <= k < h.len(),
        names_column(h[k], name),
        forall|j: int| 0 <= j < k ==> !names_column(#[trigger] h[j], name),
    ensures
        column_index(h, name) == Some(k as usize),
{
    assert(first_column_at(h, name, k));
    let i = choose|i: int| first_column_at(h, name, i);
    assert(first_column_at(h, name, i));
    if i < k {
        assert(!names_column(h[i], name));
    }
    if i > k {
        assert(!names_column(h[k], name));
    }
}

/// Each cell of the export's header is its own trimmed form.
proof fn lemma_export_header_trimmed()
    ensures
        forall|j: int| 0 <= j < 5 ==> trim_ws(#[trigger] csv_export_header()[j]) == csv_export_header()[j],
{
    reveal_strlit("word");
    reveal_strlit("type");
    reveal_strlit("translation");
    reveal_strlit("example");
    reveal_strlit("inflection");
    let h = csv_export_header();
    assert forall|j: int| 0 <= j < 5 implies trim_ws(#[trigger] h[j]) == h[j] by {
        assert(h[j].len() > 0);
        assert(!white_space(h[j][0]));
        assert(!white_space(h[j].last()));
        lemma_ends_trimmed(h[j]);
    }
}

/// The import resolves the export's header: every required column is
/// named, `word`, `type`, `translation`, `example` and `inflection` in the
/// positions the export writes them.
pub proof fn lemma_export_header_resolves()
    ensures
        missing_column(csv_export_header()) is None,
        column_index(csv_export_header(), "word"@) == Some(0usize),
        column_index(csv_export_header(), "type"@) == Some(1usize),
        column_index(csv_export_header(), "translation"@) == Some(2usize),
        column_index(csv_export_header(), "example"@) == Some(3usize),
        column_index(csv_export_header(), "inflection"@) == Some(4usize),
{
    reveal_strlit("word");
    reveal_strlit("type");
    reveal_strlit("translation");
    reveal_strlit("example");
    reveal_strlit("inflection");
    lemma_export_header_trimmed();
    let h = csv_export_header();
    assert forall|k: int| 0 <= k < 5 implies names_column(#[trigger] h[k], h[k]) by {
        assert(trim_ws(h[k]) == h[k]);
    }
    assert(!names_column(h[0], "type"@)) by {
        assert(trim_ws(h[0]) == h[0]);
        assert(ascii_lower(h[0][0]) != ascii_lower("type"@[0]));
    }
    assert forall|j: int| 0 <= j < 5 && h[j].len() != "translation"@.len() implies !names_column(#[trigger] h[j], "translation"@) by {
        assert(trim_ws(h[j]) == h[j]);
    }
    assert forall|j: int| 0 <= j < 5 && h[j].len() != "example"@.len() implies !names_column(#[trigger] h[j], "example"@) by {
        assert(trim_ws(h[j]) == h[j]);
    }
    assert forall|j: int| 0 <= j < 5 && h[j].len() != "inflection"@.len() implies !names_column(#[trigger] h[j], "inflection"@) by {
        assert(trim_ws(h[j]) == h[j]);
    }
    lemma_column_at(h, "word"@, 0);
    lemma_column_at(h, "type"@, 1);
    lemma_column_at(h, "translation"@, 2);
    lemma_column_at(h, "example"@, 3);
    lemma_column_at(h, "inflection"@, 4);
}

/// An entry that survives the export: its texts trimmed, none of its texts
/// holding a carriage return, and its forms as `form_round_trips` asks.
pub open spec fn entry_round_trips(e: DictionaryEntry) -> bool {
    &&& entry_cr_free(e)
    &&& trim_ws(e.word@) == e.word@
    &&& trim_ws(e.pos@) == e.pos@
    &&& trim_ws(e.translation@) == e.translation@
    &&& trim_ws(e.example@) == e.example@
    &&& forall|i: int|
        0 <= i < e.inflection.pairs().len() ==> form_round_trips(#[trigger] e.inflection.pairs()[i])
}

/// The round trip of the CSV export: the export parses back into its header
/// and one row per entry, the import resolves that header without refusal,
/// and from each row builds an entry with the exported word, part of speech,
/// gloss, example and forms (for entries whose texts are trimmed and free of
/// carriage returns, and whose forms are not empty, free of `;` and, in their
/// names, of `=`).
pub proof fn lemma_export_import_round_trip(
    entries: Seq<(String, DictionaryEntry)>,
    cols: CsvColumns,
    i: int,
    e: ImportEntry,
)
    requires
        forall|j: int| 0 <= j < entries.len() ==> entry_round_trips(#[trigger] entries[j].1),
        0 <= i < entries.len(),
        columns_of_header(cols, csv_export_header()),
        entry_from_row(cols, csv_export_rows(entries)[i], e),
    ensures
        csv_parse(csv_export_text(entries)) == Some(
            seq![csv_export_header()] + csv_export_rows(entries),
        ),
        missing_column(csv_export_header()) is None,
        e.word@ == entries[i].1.word@,
        e.pos@ == entries[i].1.pos@,
        e.translation@ == entries[i].1.translation@,
        e.example@ == entries[i].1.example@,
        pairs_map(e.inflection.pairs()) == pairs_map(entries[i].1.inflection.pairs()),
{
    lemma_export_header_resolves();
    assert(cols.word == 0 && cols.pos == 1 && cols.translation == 2);
    assert(cols.example == Some(3usize) && cols.inflection == Some(4usize));
    assert forall|a: int| 0 <= a < entries.len() implies entry_cr_free(#[trigger] entries[a].1) by {
        assert(entry_round_trips(entries[a].1));
    }
    lemma_csv_export_reads_back(entries);
    let d = entries[i].1;
    assert(entry_round_trips(d));
    let row = csv_export_rows(entries)[i];
    assert(row == csv_export_row(d));
    assert(cell(row, 0) == d.word@);
    assert(opt_cell(row, Some(4usize)) == joined_inflection(d.inflection.pairs()));
    lemma_inflection_round_trip(d.inflection.pairs());
}

} // verus!
