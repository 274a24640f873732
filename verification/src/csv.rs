//! RFC 4180-style CSV: the reader used by the dictionary import and the field
//! quoting used by the CSV / Anki exports, with the round-trip between them.
use vstd::prelude::*;
use crate::text::{
    chars_of, contains_char, push_all, replace, replace_char, string_of,
};

verus! {

/// A parsed CSV document: rows of fields.
pub type CsvRows = Seq<Seq<Seq<char>>>;

/// The reader's state after consuming `s` from a given state: finished rows,
/// the row being built, the field being built, and whether the reader is
/// inside a quoted field.
///
/// Inside quotes, `""` is one literal quote and a lone `"` closes the quotes;
/// outside quotes, `"` opens them, `,` ends a field, and `\n`, `\r\n` or a lone
/// `\r` end a row; every other character joins the current field.
pub open spec fn csv_scan(
    s: Seq<char>,
    rows: CsvRows,
    row: Seq<Seq<char>>,
    field: Seq<char>,
    quoted: bool,
) -> (CsvRows, Seq<Seq<char>>, Seq<char>, bool)
    decreases s.len(),
{
    if s.len() == 0 {
        (rows, row, field, quoted)
    } else {
        let c = s[0];
        if quoted {
            if c == '"' {
                if s.len() > 1 && s[1] == '"' {
                    csv_scan(s.skip(2), rows, row, field.push('"'), true)
                } else {
                    csv_scan(s.skip(1), rows, row, field, false)
                }
            } else {
                csv_scan(s.skip(1), rows, row, field.push(c), true)
            }
        } else if c == '"' {
            csv_scan(s.skip(1), rows, row, field, true)
        } else if c == ',' {
            csv_scan(s.skip(1), rows, row.push(field), seq![], false)
        } else if c == '\r' {
            if s.len() > 1 && s[1] == '\n' {
                csv_scan(s.skip(2), rows.push(row.push(field)), seq![], seq![], false)
            } else {
                csv_scan(s.skip(1), rows.push(row.push(field)), seq![], seq![], false)
            }
        } else if c == '\n' {
            csv_scan(s.skip(1), rows.push(row.push(field)), seq![], seq![], false)
        } else {
            csv_scan(s.skip(1), rows, row, field.push(c), false)
        }
    }
}

/// The rows of a CSV text, or `None` when a quoted field is never closed. A
/// final row that lacks its line ending is kept unless it is entirely empty.
pub open spec fn csv_parse(s: Seq<char>) -> Option<CsvRows> {
    let (rows, row, field, quoted) = csv_scan(s, seq![], seq![], seq![], false);
    if quoted {
        None
    } else if field.len() > 0 || row.len() > 0 {
        Some(rows.push(row.push(field)))
    } else {
        Some(rows)
    }
}

/// The character sequences held by a row of strings.
pub open spec fn fields_view(row: Seq<String>) -> Seq<Seq<char>> {
    row.map_values(|f: String| f@)
}

/// The character sequences held by rows of strings.
pub open spec fn rows_view(rows: Seq<Vec<String>>) -> CsvRows {
    rows.map_values(|r: Vec<String>| fields_view(r@))
}

/// Parses a CSV text into rows of fields; fails only on a quoted field that
/// is never closed.
pub fn parse_csv(raw: &str) -> (res: Result<Vec<Vec<String>>, String>)
    ensures
        match res {
            Ok(rows) => csv_parse(raw@) == Some(rows_view(rows@)),
            Err(e) => csv_parse(raw@) is None && e@ == "unclosed quote at end of file"@,
        },
{
    let s = chars_of(raw);
    let mut rows: Vec<Vec<String>> = Vec::new();
    let mut row: Vec<String> = Vec::new();
    let mut field: Vec<char> = Vec::new();
    let mut quoted = false;
    let mut i: usize = 0;
    assert(s@.skip(0) =~= s@);
    assert(rows_view(rows@) =~= Seq::<Seq<Seq<char>>>::empty());
    assert(fields_view(row@) =~= Seq::<Seq<char>>::empty());
    while i < s.len()
        invariant
            i <= s.len(),
            csv_scan(s@.skip(i as int), rows_view(rows@), fields_view(row@), field@, quoted)
                == csv_scan(s@, seq![], seq![], seq![], false),
        decreases s.len() - i,
    {
        let ghost rest = s@.skip(i as int);
        let ghost rv = rows_view(rows@);
        let ghost fv = fields_view(row@);
        let ghost fd = field@;
        assert(rest[0] == s@[i as int]);
        assert(rest.skip(1) =~= s@.skip(i + 1));
        let c = s[i];
        let two = i + 1 < s.len() && s[i + 1] == if quoted {
            '"'
        } else {
            '\n'
        };
        if two {
            assert(rest[1] == s@[i + 1]);
            assert(rest.skip(2) =~= s@.skip(i + 2));
        }
        if quoted {
            if c == '"' {
                if two {
                    field.push('"');
                    i = i + 2;
                } else {
                    quoted = false;
                    i = i + 1;
                }
            } else {
                field.push(c);
                i = i + 1;
            }
        } else if c == '"' {
            quoted = true;
            i = i + 1;
        } else if c == ',' {
            let f = string_of(&field);
            row.push(f);
            field = Vec::new();
            assert(fields_view(row@) =~= fv.push(fd));
            i = i + 1;
        } else if c == '\r' || c == '\n' {
            let f = string_of(&field);
            row.push(f);
            assert(fields_view(row@) =~= fv.push(fd));
            let done = row;
            row = Vec::new();
            field = Vec::new();
            rows.push(done);
            assert(rows_view(rows@) =~= rv.push(fv.push(fd)));
            assert(fields_view(row@) =~= Seq::<Seq<char>>::empty());
            if c == '\r' && two {
                i = i + 2;
            } else {
                i = i + 1;
            }
        } else {
            field.push(c);
            i = i + 1;
        }
    }
    assert(s@.skip(i as int) =~= Seq::<char>::empty());
    if quoted {
        return Err(String::from_str("unclosed quote at end of file"));
    }
    if field.len() > 0 || row.len() > 0 {
        let ghost rv = rows_view(rows@);
        let ghost fv = fields_view(row@);
        let f = string_of(&field);
        row.push(f);
        assert(fields_view(row@) =~= fv.push(field@));
        rows.push(row);
        assert(rows_view(rows@) =~= rv.push(fv.push(field@)));
    }
    Ok(rows)
}

// ───────────────────────── quoting ────────────────────────────────────────

/// Whether a field must be quoted: it holds a comma, a quote or a newline.
pub open spec fn needs_quotes(f: Seq<char>) -> bool {
    f.contains(',') || f.contains('"') || f.contains('\n')
}

/// A field as written to CSV: wrapped in quotes with each inner quote doubled
/// when it needs quoting, otherwise verbatim.
pub open spec fn csv_quote(f: Seq<char>) -> Seq<char> {
    if needs_quotes(f) {
        seq!['"'] + replace_char(f, '"', seq!['"', '"']) + seq!['"']
    } else {
        f
    }
}

/// Fields written as one CSV record: each quoted as needed, separated by
/// commas (no line ending).
pub open spec fn csv_record(fields: Seq<Seq<char>>) -> Seq<char>
    decreases fields.len(),
{
    if fields.len() == 0 {
        seq![]
    } else if fields.len() == 1 {
        csv_quote(fields[0])
    } else {
        csv_quote(fields[0]) + seq![','] + csv_record(fields.drop_first())
    }
}

/// Rows written as a CSV document: each record followed by `\n`.
pub open spec fn csv_text(rows: CsvRows) -> Seq<char>
    decreases rows.len(),
{
    if rows.len() == 0 {
        seq![]
    } else {
        csv_record(rows[0]) + seq!['\n'] + csv_text(rows.drop_first())
    }
}

/// Quotes one field for CSV output (RFC 4180 style).
pub fn csv_field(s: &str) -> (r: String)
    ensures
        r@ == csv_quote(s@),
{
    let v = chars_of(s);
    if contains_char(&v, ',') || contains_char(&v, '"') || contains_char(&v, '\n') {
        let mut out: Vec<char> = Vec::new();
        out.push('"');
        let mut dq: Vec<char> = Vec::new();
        dq.push('"');
        dq.push('"');
        let body = replace(&v, '"', &dq);
        push_all(&mut out, &body);
        out.push('"');
        assert(dq@ =~= seq!['"', '"']);
        assert(out@ =~= seq!['"'] + body@ + seq!['"']);
        string_of(&out)
    } else {
        string_of(&v)
    }
}

// ───────────────────────── the round trip ─────────────────────────────────

/// `replace_char` distributes over concatenation.
pub proof fn lemma_replace_char_add(a: Seq<char>, b: Seq<char>, c: char, r: Seq<char>)
    ensures
        replace_char(a + b, c, r) == replace_char(a, c, r) + replace_char(b, c, r),
    decreases b.len(),
{
    if b.len() == 0 {
        assert(a + b =~= a);
        assert(replace_char(b, c, r) =~= Seq::<char>::empty());
        assert(replace_char(a, c, r) + replace_char(b, c, r) =~= replace_char(a, c, r));
    } else {
        assert((a + b).drop_last() =~= a + b.drop_last());
        assert((a + b).last() == b.last());
        lemma_replace_char_add(a, b.drop_last(), c, r);
        let t = if b.last() == c {
            r
        } else {
            seq![b.last()]
        };
        assert(replace_char(a, c, r) + replace_char(b.drop_last(), c, r) + t =~= replace_char(
            a,
            c,
            r,
        ) + (replace_char(b.drop_last(), c, r) + t));
    }
}

/// The escaped body of a field, taken from the front.
proof fn lemma_replace_char_front(f: Seq<char>, c: char, r: Seq<char>)
    requires
        f.len() > 0,
    ensures
        replace_char(f, c, r) == (if f[0] == c {
            r
        } else {
            seq![f[0]]
        }) + replace_char(f.drop_first(), c, r),
{
    assert(f =~= seq![f[0]] + f.drop_first());
    lemma_replace_char_add(seq![f[0]], f.drop_first(), c, r);
    assert(seq![f[0]].drop_last() =~= Seq::<char>::empty());
    assert(replace_char(seq![f[0]].drop_last(), c, r) =~= Seq::<char>::empty());
    let t = if f[0] == c {
        r
    } else {
        seq![f[0]]
    };
    assert(replace_char(seq![f[0]], c, r) =~= t);
}

/// Reading an unquoted field's characters appends them to the current field.
proof fn lemma_scan_plain(
    f: Seq<char>,
    rest: Seq<char>,
    rows: CsvRows,
    row: Seq<Seq<char>>,
    field: Seq<char>,
)
    requires
        !needs_quotes(f),
        !f.contains('\r'),
    ensures
        csv_scan(f + rest, rows, row, field, false) == csv_scan(rest, rows, row, field + f, false),
    decreases f.len(),
{
    if f.len() == 0 {
        assert(f + rest =~= rest);
        assert(field + f =~= field);
    } else {
        let s = f + rest;
        assert(s[0] == f[0]);
        assert(f.contains(f[0]));
        assert(s.skip(1) =~= f.drop_first() + rest);
        let g = f.drop_first();
        assert forall|x: char| g.contains(x) implies f.contains(x) by {
            let k = choose|k: int| 0 <= k < g.len() && g[k] == x;
            assert(f[k + 1] == x);
        }
        lemma_scan_plain(g, rest, rows, row, field.push(f[0]));
        assert(field.push(f[0]) + g =~= field + f);
    }
}

/// Reading the escaped body of a quoted field and its closing quote appends
/// the field's characters and leaves the quotes.
proof fn lemma_scan_quoted_body(
    f: Seq<char>,
    rest: Seq<char>,
    rows: CsvRows,
    row: Seq<Seq<char>>,
    field: Seq<char>,
)
    requires
        rest.len() == 0 || rest[0] != '"',
    ensures
        csv_scan(
            replace_char(f, '"', seq!['"', '"']) + seq!['"'] + rest,
            rows,
            row,
            field,
            true,
        ) == csv_scan(rest, rows, row, field + f, false),
    decreases f.len(),
{
    let dq = seq!['"', '"'];
    if f.len() == 0 {
        assert(replace_char(f, '"', dq) =~= Seq::<char>::empty());
        let s = replace_char(f, '"', dq) + seq!['"'] + rest;
        assert(s =~= seq!['"'] + rest);
        assert(s[0] == '"');
        if s.len() > 1 {
            assert(s[1] == rest[0]);
        }
        assert(s.skip(1) =~= rest);
        assert(field + f =~= field);
    } else {
        let g = f.drop_first();
        lemma_replace_char_front(f, '"', dq);
        let s = replace_char(f, '"', dq) + seq!['"'] + rest;
        let tail = replace_char(g, '"', dq) + seq!['"'] + rest;
        lemma_scan_quoted_body(g, rest, rows, row, field.push(f[0]));
        assert(field.push(f[0]) + g =~= field + f);
        if f[0] == '"' {
            assert(s =~= dq + tail);
            assert(s[0] == '"' && s[1] == '"');
            assert(s.skip(2) =~= tail);
        } else {
            assert(s =~= seq![f[0]] + tail);
            assert(s[0] == f[0]);
            assert(s.skip(1) =~= tail);
        }
    }
}

/// Reading a field as written by `csv_quote` yields the field, provided the
/// next character is not a quote.
proof fn lemma_scan_field(
    f: Seq<char>,
    rest: Seq<char>,
    rows: CsvRows,
    row: Seq<Seq<char>>,
)
    requires
        !f.contains('\r'),
        rest.len() == 0 || rest[0] != '"',
    ensures
        csv_scan(csv_quote(f) + rest, rows, row, seq![], false) == csv_scan(
            rest,
            rows,
            row,
            f,
            false,
        ),
{
    if needs_quotes(f) {
        let dq = seq!['"', '"'];
        let s = csv_quote(f) + rest;
        let tail = replace_char(f, '"', dq) + seq!['"'] + rest;
        assert(s =~= seq!['"'] + tail);
        assert(s[0] == '"');
        assert(s.skip(1) =~= tail);
        lemma_scan_quoted_body(f, rest, rows, row, seq![]);
        assert(Seq::<char>::empty() + f =~= f);
    } else {
        lemma_scan_plain(f, rest, rows, row, seq![]);
        assert(Seq::<char>::empty() + f =~= f);
    }
}

/// Reading one record and its line ending completes one row.
proof fn lemma_scan_record(
    fields: Seq<Seq<char>>,
    rest: Seq<char>,
    rows: CsvRows,
    row: Seq<Seq<char>>,
)
    requires
        fields.len() >= 1,
        forall|j: int| 0 <= j < fields.len() ==> !(#[trigger] fields[j]).contains('\r'),
    ensures
        csv_scan(csv_record(fields) + seq!['\n'] + rest, rows, row, seq![], false) == csv_scan(
            rest,
            rows.push(row + fields),
            seq![],
            seq![],
            false,
        ),
    decreases fields.len(),
{
    let f = fields[0];
    assert(!fields[0].contains('\r'));
    if fields.len() == 1 {
        let after = seq!['\n'] + rest;
        assert(csv_record(fields) + seq!['\n'] + rest =~= csv_quote(f) + after);
        lemma_scan_field(f, after, rows, row);
        assert(after[0] == '\n');
        assert(after.skip(1) =~= rest);
        assert(row.push(f) =~= row + fields);
    } else {
        let g = fields.drop_first();
        let after = seq![','] + (csv_record(g) + seq!['\n'] + rest);
        assert(csv_record(fields) + seq!['\n'] + rest =~= csv_quote(f) + after);
        lemma_scan_field(f, after, rows, row);
        assert(after[0] == ',');
        assert(after.skip(1) =~= csv_record(g) + seq!['\n'] + rest);
        assert forall|j: int| 0 <= j < g.len() implies !(#[trigger] g[j]).contains('\r') by {
            assert(g[j] == fields[j + 1]);
        }
        lemma_scan_record(g, rest, rows, row.push(f));
        assert(row.push(f) + g =~= row + fields);
    }
}

/// Reading a whole document written by `csv_text` appends its rows.
proof fn lemma_scan_text(r: CsvRows, rows: CsvRows)
    requires
        forall|i: int| 0 <= i < r.len() ==> (#[trigger] r[i]).len() >= 1,
        forall|i: int, j: int|
            0 <= i < r.len() && 0 <= j < r[i].len() ==> !(#[trigger] r[i][j]).contains('\r'),
    ensures
        csv_scan(csv_text(r), rows, seq![], seq![], false) == (rows + r, Seq::<Seq<char>>::empty(), Seq::<char>::empty(), false),
    decreases r.len(),
{
    if r.len() == 0 {
        assert(csv_text(r) =~= Seq::<char>::empty());
        assert(rows + r =~= rows);
    } else {
        let t = r.drop_first();
        assert(r[0].len() >= 1);
        assert forall|j: int| 0 <= j < r[0].len() implies !(#[trigger] r[0][j]).contains('\r') by {
        }
        lemma_scan_record(r[0], csv_text(t), rows, seq![]);
        assert(Seq::<Seq<char>>::empty() + r[0] =~= r[0]);
        assert forall|i: int| 0 <= i < t.len() implies (#[trigger] t[i]).len() >= 1 by {
            assert(t[i] == r[i + 1]);
        }
        assert forall|i: int, j: int|
            0 <= i < t.len() && 0 <= j < t[i].len() implies !(#[trigger] t[i][j]).contains('\r') by {
            assert(t[i] == r[i + 1]);
        }
        lemma_scan_text(t, rows.push(r[0]));
        assert(rows.push(r[0]) + t =~= rows + r);
    }
}

/// What the CSV writer produces the reader reads back: for rows that each
/// hold at least one field and whose fields hold no carriage return, parsing
/// the written document gives the same rows.
pub proof fn lemma_csv_round_trip(r: CsvRows)
    requires
        forall|i: int| 0 <= i < r.len() ==> (#[trigger] r[i]).len() >= 1,
        forall|i: int, j: int|
            0 <= i < r.len() && 0 <= j < r[i].len() ==> !(#[trigger] r[i][j]).contains('\r'),
    ensures
        csv_parse(csv_text(r)) == Some(r),
{
    lemma_scan_text(r, seq![]);
    assert(Seq::<Seq<Seq<char>>>::empty() + r =~= r);
}

} // verus!
