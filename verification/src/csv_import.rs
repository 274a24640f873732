//! Turning CSV rows into dictionary entries: header resolution, per-cell
//! field parsing, and the alphabet / phoneme pre-flight checks.
use vstd::prelude::*;
use crate::entry::ImportEntry;
use crate::text::strings_view;
use crate::error::LanguageError;
use crate::inflection::{pairs_map, Inflection};
use crate::text::{
    char_is_whitespace, char_to_lowercase, char_to_uppercase, chars_eq_ignore_ascii_case,
    chars_of, contains, contains_seq, eq_ignore_ascii_case, find, find_char, first_non_ws,
    is_ascii_punct, is_ascii_punctuation, split, split_char, str_to_lowercase, string_of, subvec,
    trim, trim_start, trim_start_ws, trim_ws, unicode_lowercase, unicode_str_lowercase, unicode_uppercase,
    white_space, vviews,
};

verus! {

// ───────────────────────── small field parsers ────────────────────────────

/// The form a `name=form` piece contributes, if any: both sides trimmed and
/// non-empty, split at the first `=`.
pub open spec fn inflection_piece(piece: Seq<char>) -> Option<(Seq<char>, Seq<char>)> {
    let p = trim_ws(piece);
    let eq = find_char(p, '=');
    if p.len() == 0 || eq >= p.len() {
        None
    } else {
        let k = trim_ws(p.take(eq));
        let v = trim_ws(p.skip(eq + 1));
        if k.len() > 0 && v.len() > 0 {
            Some((k, v))
        } else {
            None
        }
    }
}

/// The forms given by a list of pieces, a later piece overriding an earlier
/// one with the same name.
pub open spec fn inflection_fold(pieces: Seq<Seq<char>>) -> Map<Seq<char>, Seq<char>>
    decreases pieces.len(),
{
    if pieces.len() == 0 {
        Map::empty()
    } else {
        let m = inflection_fold(pieces.drop_last());
        match inflection_piece(pieces.last()) {
            Some((k, v)) => m.insert(k, v),
            None => m,
        }
    }
}

/// `nominative=atal;genitive=atale` → a map of forms; malformed pieces (no
/// `=`, or an empty side) are skipped.
pub fn parse_inflection_field(raw: &str) -> (m: Inflection)
    ensures
        pairs_map(m.pairs()) == inflection_fold(split_char(raw@, ';')),
{
    let v = chars_of(raw);
    let pieces = split(&v, ';');
    let mut out = Inflection::new();
    let mut i: usize = 0;
    assert(pairs_map(out.pairs()) =~= Map::<Seq<char>, Seq<char>>::empty());
    while i < pieces.len()
        invariant
            i <= pieces.len(),
            vviews(pieces@) == split_char(v@, ';'),
            pairs_map(out.pairs()) == inflection_fold(vviews(pieces@).take(i as int)),
        decreases pieces.len() - i,
    {
        let ghost ps = vviews(pieces@);
        assert(ps.take(i + 1).drop_last() =~= ps.take(i as int));
        assert(ps.take(i + 1).last() == pieces@[i as int]@);
        let p = trim(&pieces[i]);
        if p.len() != 0 {
            let eq = find(&p, '=', 0);
            assert(p@.skip(0) =~= p@);
            if eq < p.len() {
                let k = trim(&subvec(&p, 0, eq));
                let val = trim(&subvec(&p, eq + 1, p.len()));
                assert(p@.subrange(0, eq as int) =~= p@.take(eq as int));
                assert(p@.subrange(eq + 1, p@.len() as int) =~= p@.skip(eq + 1));
                if k.len() != 0 && val.len() != 0 {
                    let _ = out.insert(string_of(&k), string_of(&val));
                }
            }
        }
        i = i + 1;
    }
    assert(vviews(pieces@).take(pieces.len() as int) =~= vviews(pieces@));
    out
}

/// The trimmed, non-empty pieces of a list, in order.
pub open spec fn clean_pieces(pieces: Seq<Seq<char>>) -> Seq<Seq<char>>
    decreases pieces.len(),
{
    if pieces.len() == 0 {
        seq![]
    } else {
        let rest = clean_pieces(pieces.drop_last());
        let t = trim_ws(pieces.last());
        if t.len() > 0 {
            rest.push(t)
        } else {
            rest
        }
    }
}

/// Splits on `sep`, trims each piece and drops the empty ones.
fn split_clean(raw: &str, sep: char) -> (r: Vec<String>)
    ensures
        strings_view(r@) == clean_pieces(split_char(raw@, sep)),
{
    let v = chars_of(raw);
    let pieces = split(&v, sep);
    let mut out: Vec<String> = Vec::new();
    let mut i: usize = 0;
    assert(strings_view(out@) =~= Seq::<Seq<char>>::empty());
    while i < pieces.len()
        invariant
            i <= pieces.len(),
            vviews(pieces@) == split_char(v@, sep),
            strings_view(out@) == clean_pieces(vviews(pieces@).take(i as int)),
        decreases pieces.len() - i,
    {
        let ghost ps = vviews(pieces@);
        let ghost before = strings_view(out@);
        assert(ps.take(i + 1).drop_last() =~= ps.take(i as int));
        assert(ps.take(i + 1).last() == pieces@[i as int]@);
        let t = trim(&pieces[i]);
        if t.len() != 0 {
            out.push(string_of(&t));
            assert(strings_view(out@) =~= before.push(t@));
        }
        i = i + 1;
    }
    assert(vviews(pieces@).take(pieces.len() as int) =~= vviews(pieces@));
    out
}

/// `a|b||c` → `["a", "b", "c"]`: pipe-separated, trimmed, empties dropped.
pub fn split_pipe(raw: &str) -> (r: Vec<String>)
    ensures
        strings_view(r@) == clean_pieces(split_char(raw@, '|')),
{
    split_clean(raw, '|')
}

/// `a;b;;c` → `["a", "b", "c"]`: semicolon-separated, trimmed, empties dropped.
pub fn split_semicolon(raw: &str) -> (r: Vec<String>)
    ensures
        strings_view(r@) == clean_pieces(split_char(raw@, ';')),
{
    split_clean(raw, ';')
}

// ───────────────────────── header resolution ──────────────────────────────

/// Whether header cell `h` names the column `name` (trimmed, ASCII
/// case-insensitive).
pub open spec fn names_column(h: Seq<char>, name: Seq<char>) -> bool {
    eq_ignore_ascii_case(trim_ws(h), name)
}

/// Whether `i` is the first header position naming `name`.
pub open spec fn first_column_at(header: Seq<Seq<char>>, name: Seq<char>, i: int) -> bool {
    0 <= i < header.len() && names_column(header[i], name) && forall|j: int|
        0 <= j < i ==> !names_column(#[trigger] header[j], name)
}

/// The first header position naming `name`, if any.
pub open spec fn column_index(header: Seq<Seq<char>>, name: Seq<char>) -> Option<usize> {
    if exists|i: int| 0 <= i < header.len() && names_column(#[trigger] header[i], name) {
        Some((choose|i: int| first_column_at(header, name, i)) as usize)
    } else {
        None
    }
}

/// Column-name → index mapping for a CSV import.
pub struct CsvColumns {
    pub word: usize,
    pub pos: usize,
    pub translation: usize,
    pub example: Option<usize>,
    pub pronunciation: Option<usize>,
    pub etymology: Option<usize>,
    pub related: Option<usize>,
    pub inflection: Option<usize>,
    pub examples: Option<usize>,
    pub register: Option<usize>,
    pub era: Option<usize>,
    pub notes: Option<usize>,
}

/// Finds the first header position naming `name`.
fn lookup_column(header: &[String], name: &str) -> (r: Option<usize>)
    ensures
        r == column_index(strings_view(header@), name@),
{
    let ghost h = strings_view(header@);
    let n = chars_of(name);
    let mut i: usize = 0;
    while i < header.len()
        invariant
            i <= header.len(),
            h == strings_view(header@),
            n@ == name@,
            forall|j: int| 0 <= j < i ==> !names_column(#[trigger] h[j], name@),
        decreases header.len() - i,
    {
        let cell = trim(&chars_of(header[i].as_str()));
        assert(h[i as int] == header@[i as int]@);
        if chars_eq_ignore_ascii_case(&cell, &n) {
            assert(first_column_at(h, name@, i as int));
            proof {
                let k = choose|k: int| first_column_at(h, name@, k);
                if k < i {
                    assert(!names_column(h[k], name@));
                }
                if k > i {
                    assert(!names_column(h[i as int], name@));
                }
            }
            return Some(i);
        }
        i = i + 1;
    }
    None
}

/// The refusal of a header lacking a required column: the first of `word`,
/// `type` and `translation` that no cell names; none when all are named.
pub open spec fn missing_column(h: Seq<Seq<char>>) -> Option<Seq<char>> {
    if column_index(h, "word"@) is None {
        Some("CSV missing required column `word`"@)
    } else if column_index(h, "type"@) is None {
        Some("CSV missing required column `type`"@)
    } else if column_index(h, "translation"@) is None {
        Some("CSV missing required column `translation`"@)
    } else {
        None
    }
}

/// Whether the columns are the positions the header names.
pub open spec fn columns_of_header(c: CsvColumns, h: Seq<Seq<char>>) -> bool {
    &&& column_index(h, "word"@) == Some(c.word)
    &&& column_index(h, "type"@) == Some(c.pos)
    &&& column_index(h, "translation"@) == Some(c.translation)
    &&& c.example == column_index(h, "example"@)
    &&& c.pronunciation == column_index(h, "pronunciation"@)
    &&& c.etymology == column_index(h, "etymology"@)
    &&& c.related == column_index(h, "related"@)
    &&& c.inflection == column_index(h, "inflection"@)
    &&& c.examples == column_index(h, "examples"@)
    &&& c.register == column_index(h, "register"@)
    &&& c.era == column_index(h, "era"@)
    &&& c.notes == column_index(h, "notes"@)
}

/// Maps the header row's column names to positions; `word`, `type` and
/// `translation` are required.
pub fn resolve_csv_columns(header: &[String]) -> (r: Result<CsvColumns, LanguageError>)
    ensures
        match missing_column(strings_view(header@)) {
            Some(msg) => r matches Err(LanguageError::Config(m)) && m@ == msg,
            None => r matches Ok(c) && columns_of_header(c, strings_view(header@)),
        },
{
    let word = match lookup_column(header, "word") {
        Some(i) => i,
        None => return Err(LanguageError::Config(String::from_str("CSV missing required column `word`"))),
    };
    let pos = match lookup_column(header, "type") {
        Some(i) => i,
        None => return Err(LanguageError::Config(String::from_str("CSV missing required column `type`"))),
    };
    let translation = match lookup_column(header, "translation") {
        Some(i) => i,
        None => return Err(
            LanguageError::Config(String::from_str("CSV missing required column `translation`")),
        ),
    };
    Ok(
        CsvColumns {
            word,
            pos,
            translation,
            example: lookup_column(header, "example"),
            pronunciation: lookup_column(header, "pronunciation"),
            etymology: lookup_column(header, "etymology"),
            related: lookup_column(header, "related"),
            inflection: lookup_column(header, "inflection"),
            examples: lookup_column(header, "examples"),
            register: lookup_column(header, "register"),
            era: lookup_column(header, "era"),
            notes: lookup_column(header, "notes"),
        },
    )
}

// ───────────────────────── rows to entries ────────────────────────────────

/// A row's cell at `idx`, empty when the row is shorter.
pub open spec fn cell(row: Seq<Seq<char>>, idx: usize) -> Seq<char> {
    if idx < row.len() {
        row[idx as int]
    } else {
        seq![]
    }
}

/// A row's cell at an optional column, empty when the column is absent.
pub open spec fn opt_cell(row: Seq<Seq<char>>, idx: Option<usize>) -> Seq<char> {
    match idx {
        Some(i) => cell(row, i),
        None => seq![],
    }
}

fn cell_of(row: &[String], idx: usize) -> (r: Vec<char>)
    ensures
        r@ == cell(strings_view(row@), idx),
{
    if idx < row.len() {
        chars_of(row[idx].as_str())
    } else {
        Vec::new()
    }
}

fn opt_cell_of(row: &[String], idx: Option<usize>) -> (r: Vec<char>)
    ensures
        r@ == opt_cell(strings_view(row@), idx),
{
    match idx {
        Some(i) => cell_of(row, i),
        None => Vec::new(),
    }
}

fn trimmed_string(v: &Vec<char>) -> (s: String)
    ensures
        s@ == trim_ws(v@),
{
    string_of(&trim(v))
}

/// Whether `e` is the entry a data row yields: every text cell trimmed,
/// `related` split on `;`, `inflection` folded from `name=form` pieces,
/// `examples` split on `|`, no domain tags.
pub open spec fn entry_from_row(cols: CsvColumns, rw: Seq<Seq<char>>, e: ImportEntry) -> bool {
    &&& e.word@ == trim_ws(cell(rw, cols.word))
    &&& e.pos@ == trim_ws(cell(rw, cols.pos))
    &&& e.translation@ == trim_ws(cell(rw, cols.translation))
    &&& e.example@ == trim_ws(opt_cell(rw, cols.example))
    &&& e.pronunciation@ == trim_ws(opt_cell(rw, cols.pronunciation))
    &&& e.etymology@ == trim_ws(opt_cell(rw, cols.etymology))
    &&& strings_view(e.related@) == clean_pieces(split_char(opt_cell(rw, cols.related), ';'))
    &&& pairs_map(e.inflection.pairs()) == inflection_fold(
        split_char(opt_cell(rw, cols.inflection), ';'),
    )
    &&& strings_view(e.examples@) == clean_pieces(split_char(opt_cell(rw, cols.examples), '|'))
    &&& e.register@ == trim_ws(opt_cell(rw, cols.register))
    &&& e.era@ == trim_ws(opt_cell(rw, cols.era))
    &&& e.notes@ == trim_ws(opt_cell(rw, cols.notes))
    &&& e.domain@.len() == 0
}

/// Builds an import entry from a data row: every text cell trimmed,
/// `inflection` parsed as `name=form` pairs, `examples` split on `|`,
/// `related` split on `;`; missing cells are empty. Never fails.
pub fn build_import_entry_from_row(cols: &CsvColumns, row: &[String]) -> (r: Result<
    ImportEntry,
    String,
>)
    ensures
        r matches Ok(e) && entry_from_row(*cols, strings_view(row@), e),
{
    let inflection_raw = string_of(&opt_cell_of(row, cols.inflection));
    let examples_raw = string_of(&opt_cell_of(row, cols.examples));
    let related_raw = string_of(&opt_cell_of(row, cols.related));
    Ok(
        ImportEntry {
            word: trimmed_string(&cell_of(row, cols.word)),
            pos: trimmed_string(&cell_of(row, cols.pos)),
            translation: trimmed_string(&cell_of(row, cols.translation)),
            example: trimmed_string(&opt_cell_of(row, cols.example)),
            pronunciation: trimmed_string(&opt_cell_of(row, cols.pronunciation)),
            etymology: trimmed_string(&opt_cell_of(row, cols.etymology)),
            related: split_semicolon(related_raw.as_str()),
            inflection: parse_inflection_field(inflection_raw.as_str()),
            examples: split_pipe(examples_raw.as_str()),
            register: trimmed_string(&opt_cell_of(row, cols.register)),
            era: trimmed_string(&opt_cell_of(row, cols.era)),
            notes: trimmed_string(&opt_cell_of(row, cols.notes)),
            domain: Vec::new(),
        },
    )
}

// ───────────────────────── pre-flight letter checks ───────────────────────

/// The inventory entries, lowercased as `str::to_lowercase` does.
pub open spec fn lowered(inventory: Seq<String>) -> Seq<Seq<char>> {
    inventory.map_values(|s: String| unicode_str_lowercase(s@))
}

/// Whether a character passes the inventory check: whitespace and ASCII
/// punctuation always pass; any other character passes when its lowercase
/// form occurs inside some lowercased inventory entry.
pub open spec fn letter_known(c: char, inv: Seq<Seq<char>>) -> bool {
    white_space(c) || is_ascii_punct(c) || exists|j: int|
        0 <= j < inv.len() && contains_seq(#[trigger] inv[j], unicode_lowercase(c))
}

/// The first character of `word` that fails the inventory check.
pub open spec fn first_unknown(word: Seq<char>, inv: Seq<Seq<char>>) -> Option<char>
    decreases word.len(),
{
    if word.len() == 0 {
        None
    } else if !letter_known(word[0], inv) {
        Some(word[0])
    } else {
        first_unknown(word.drop_first(), inv)
    }
}

/// `first_unknown` is the character at the first failing position.
pub proof fn lemma_first_unknown(word: Seq<char>, inv: Seq<Seq<char>>, i: int)
    requires
        0 <= i <= word.len(),
        forall|j: int| 0 <= j < i ==> letter_known(#[trigger] word[j], inv),
        i < word.len() ==> !letter_known(word[i], inv),
    ensures
        first_unknown(word, inv) == if i < word.len() {
            Some(word[i])
        } else {
            None::<char>
        },
    decreases i,
{
    if i > 0 {
        assert(letter_known(word[0], inv));
        let rest = word.drop_first();
        assert forall|j: int| 0 <= j < i - 1 implies letter_known(#[trigger] rest[j], inv) by {
            assert(rest[j] == word[j + 1]);
        }
        if i < word.len() {
            assert(rest[i - 1] == word[i]);
        }
        lemma_first_unknown(rest, inv, i - 1);
    }
}

/// The first character of `word` that fails the inventory check, if any.
pub fn first_unknown_letter(word: &str, inventory: &[String]) -> (r: Option<char>)
    ensures
        r == first_unknown(word@, lowered(inventory@)),
        match r {
            Some(c) => exists|i: int|
                0 <= i < word@.len() && word@[i] == c && !letter_known(c, lowered(inventory@))
                    && forall|j: int| 0 <= j < i ==> letter_known(#[trigger] word@[j], lowered(inventory@)),
            None => forall|j: int|
                0 <= j < word@.len() ==> letter_known(#[trigger] word@[j], lowered(inventory@)),
        },
{
    let ghost inv = lowered(inventory@);
    let mut low: Vec<Vec<char>> = Vec::new();
    let mut k: usize = 0;
    while k < inventory.len()
        invariant
            k <= inventory.len(),
            inv == lowered(inventory@),
            low@.len() == k,
            forall|j: int| 0 <= j < k ==> (#[trigger] low@[j])@ == inv[j],
        decreases inventory.len() - k,
    {
        let l = str_to_lowercase(inventory[k].as_str());
        low.push(chars_of(l.as_str()));
        k = k + 1;
    }
    let w = chars_of(word);
    let mut i: usize = 0;
    while i < w.len()
        invariant
            i <= w.len(),
            w@ == word@,
            inv == lowered(inventory@),
            low@.len() == inv.len(),
            forall|j: int| 0 <= j < low@.len() ==> (#[trigger] low@[j])@ == inv[j],
            forall|j: int| 0 <= j < i ==> letter_known(#[trigger] word@[j], inv),
        decreases w.len() - i,
    {
        let c = w[i];
        if !char_is_whitespace(c) && !is_ascii_punctuation(c) {
            let cl = char_to_lowercase(c);
            let mut found = false;
            let mut j: usize = 0;
            while j < low.len() && !found
                invariant
                    j <= low.len(),
                    low@.len() == inv.len(),
                    forall|t: int| 0 <= t < low@.len() ==> (#[trigger] low@[t])@ == inv[t],
                    cl@ == unicode_lowercase(c),
                    found ==> exists|t: int|
                        0 <= t < inv.len() && contains_seq(#[trigger] inv[t], unicode_lowercase(c)),
                    !found ==> forall|t: int|
                        0 <= t < j ==> !contains_seq(#[trigger] inv[t], unicode_lowercase(c)),
                decreases low.len() - j,
            {
                if contains(&low[j], &cl) {
                    found = true;
                    assert(contains_seq(inv[j as int], unicode_lowercase(c)));
                }
                j = j + 1;
            }
            if !found {
                assert(!letter_known(c, inv));
                proof {
                    lemma_first_unknown(word@, inv, i as int);
                }
                return Some(c);
            }
        }
        i = i + 1;
    }
    proof {
        lemma_first_unknown(word@, inv, word@.len() as int);
    }
    None
}

/// The first non-whitespace character of a word, uppercased.
pub open spec fn bucket_of(word: Seq<char>) -> Option<Seq<char>> {
    let t = trim_start_ws(word);
    if t.len() > 0 {
        Some(unicode_uppercase(t[0]))
    } else {
        None
    }
}

/// The alphabet bucket for a word: its first non-whitespace character,
/// uppercased; `None` when the word is all whitespace.
pub fn alphabet_bucket(word: &str) -> (r: Option<String>)
    ensures
        match r {
            Some(b) => bucket_of(word@) == Some(b@),
            None => bucket_of(word@) is None,
        },
        r is None <==> forall|i: int| 0 <= i < word@.len() ==> white_space(#[trigger] word@[i]),
{
    proof {
        crate::text::lemma_trim_start_empty(word@);
    }
    let t = trim_start(&chars_of(word));
    if t.len() > 0 {
        let up = char_to_uppercase(t[0]);
        Some(string_of(&up))
    } else {
        None
    }
}

} // verus!
