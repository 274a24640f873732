//! What a CSV dictionary import decides, around the store writes: reading
//! the CSV, the pre-flight alphabet and phoneme checks, what each data row
//! becomes, and the tally printed at the end.
use vstd::prelude::*;
use crate::csv::{csv_parse, parse_csv, rows_view};
use crate::csv_import::{
    build_import_entry_from_row, cell, entry_from_row, first_unknown, first_unknown_letter, letter_known, lowered,
    columns_of_header, missing_column, resolve_csv_columns, CsvColumns,
};
use crate::entry::{decimal, decimal_digits, ImportEntry};
use crate::error::LanguageError;
use crate::text::{
    chars_of, contains, contains_seq, push_all, push_line, push_str, push_text_line, string_of,
    strings_view, trim, trim_ws,
};

verus! {

// ───────────────────────── reading the CSV ────────────────────────────────

/// A CSV dictionary ready to import: its resolved columns and data rows.
pub struct CsvImport {
    pub columns: CsvColumns,
    pub rows: Vec<Vec<String>>,
}

/// The data rows of a CSV (every row after the header).
pub open spec fn data_rows_view(rows: Seq<Vec<String>>) -> Seq<Seq<Seq<char>>> {
    rows.map_values(|r: Vec<String>| strings_view(r@))
}

/// Parses a CSV dictionary and resolves its header. Fails with the parse
/// error, on a file without even a header row, or on a header that lacks a
/// required column.
pub fn load_import_csv(raw: &str) -> (r: Result<CsvImport, LanguageError>)
    ensures
        match csv_parse(raw@) {
            None => r matches Err(LanguageError::Config(m)) && m@ == "CSV parse error: "@
                + "unclosed quote at end of file"@,
            Some(rows) => if rows.len() == 0 {
                r matches Err(LanguageError::Config(m)) && m@ == "CSV is empty (no header row)"@
            } else {
                match missing_column(rows[0]) {
                    Some(msg) => r matches Err(LanguageError::Config(m)) && m@ == msg,
                    None => r matches Ok(imp) && columns_of_header(imp.columns, rows[0])
                        && data_rows_view(imp.rows@) == rows.drop_first(),
                }
            },
        },
{
    let rows = match parse_csv(raw) {
        Ok(rows) => rows,
        Err(e) => {
            let mut m = chars_of("CSV parse error: ");
            push_str(&mut m, e.as_str());
            return Err(LanguageError::Config(string_of(&m)));
        },
    };
    if rows.len() == 0 {
        return Err(LanguageError::Config(String::from_str("CSV is empty (no header row)")));
    }
    let mut rows = rows;
    let ghost all = rows@;
    let header = rows.remove(0);
    let columns = match resolve_csv_columns(header.as_slice()) {
        Ok(c) => c,
        Err(e) => return Err(e),
    };
    assert(data_rows_view(rows@) =~= rows_view(all).drop_first());
    Ok(CsvImport { columns, rows })
}

// ───────────────────────── pre-flight checks ──────────────────────────────

/// The trimmed `word` cell of a row.
pub open spec fn row_word(cols: CsvColumns, row: Seq<Seq<char>>) -> Seq<char> {
    trim_ws(cell(row, cols.word))
}

/// A blank word or one starting with `#` is not imported.
pub open spec fn skipped_word(w: Seq<char>) -> bool {
    w.len() == 0 || w[0] == '#'
}

/// The violation a row's word raises, if any: a character outside the
/// alphabet (checked first, when there is an alphabet), else one outside
/// every phoneme inventory (when there is one). `row` is the 1-based line.
pub open spec fn row_violation(
    row: nat,
    w: Seq<char>,
    alphabet: Seq<String>,
    phonemes: Seq<String>,
) -> Option<Seq<char>> {
    if skipped_word(w) {
        None
    } else if alphabet.len() > 0 && first_unknown(w, lowered(alphabet)) is Some {
        Some(
            "row "@ + decimal(row) + ": `"@ + w + "` contains `"@ + seq![
                first_unknown(w, lowered(alphabet))->0,
            ] + "` not in Meta/overview.alphabet"@,
        )
    } else if phonemes.len() > 0 && first_unknown(w, lowered(phonemes)) is Some {
        Some(
            "row "@ + decimal(row) + ": `"@ + w + "` contains `"@ + seq![
                first_unknown(w, lowered(phonemes))->0,
            ] + "` not in any Phonology inventory"@,
        )
    } else {
        None
    }
}

/// The violations of the first `n` data rows, in row order; data row `i`
/// is line `i + 2` of the file.
pub open spec fn violations(
    cols: CsvColumns,
    rows: Seq<Vec<String>>,
    alphabet: Seq<String>,
    phonemes: Seq<String>,
    n: int,
) -> Seq<Seq<char>>
    decreases n,
{
    if n <= 0 {
        seq![]
    } else {
        violations(cols, rows, alphabet, phonemes, n - 1) + match row_violation(
            (n + 1) as nat,
            row_word(cols, strings_view(rows[n - 1]@)),
            alphabet,
            phonemes,
        ) {
            Some(v) => seq![v],
            None => Seq::<Seq<char>>::empty(),
        }
    }
}

/// Every letter of `w` passes the check against the inventory.
pub open spec fn all_letters_known(w: Seq<char>, inventory: Seq<String>) -> bool {
    forall|j: int| 0 <= j < w.len() ==> letter_known(#[trigger] w[j], lowered(inventory))
}

/// Whether a data row passes the pre-flight check: its trimmed word is
/// blank or a `#` comment, or each of its letters lies in the alphabet (when
/// one is declared) and in some phoneme inventory (when any is declared).
pub open spec fn row_passes(
    cols: CsvColumns,
    row: Seq<Seq<char>>,
    alphabet: Seq<String>,
    phonemes: Seq<String>,
) -> bool {
    let w = trim_ws(cell(row, cols.word));
    ||| w.len() == 0
    ||| w[0] == '#'
    ||| (alphabet.len() > 0 ==> all_letters_known(w, alphabet)) && (phonemes.len() > 0
        ==> all_letters_known(w, phonemes))
}

/// How many of the first `n` data rows fail the pre-flight check.
pub open spec fn failing_rows(
    cols: CsvColumns,
    rows: Seq<Vec<String>>,
    alphabet: Seq<String>,
    phonemes: Seq<String>,
    n: int,
) -> nat
    decreases n,
{
    if n <= 0 {
        0
    } else {
        failing_rows(cols, rows, alphabet, phonemes, n - 1) + if row_passes(
            cols,
            strings_view(rows[n - 1]@),
            alphabet,
            phonemes,
        ) {
            0nat
        } else {
            1nat
        }
    }
}

/// No letter fails the inventory check exactly when every letter passes it.
proof fn lemma_first_unknown_none(w: Seq<char>, inventory: Seq<String>)
    ensures
        first_unknown(w, lowered(inventory)) is None <==> all_letters_known(w, inventory),
    decreases w.len(),
{
    if w.len() > 0 {
        lemma_first_unknown_none(w.drop_first(), inventory);
        if all_letters_known(w, inventory) {
            assert forall|j: int| 0 <= j < w.drop_first().len() implies letter_known(
                #[trigger] w.drop_first()[j],
                lowered(inventory),
            ) by {
                assert(w.drop_first()[j] == w[j + 1]);
            }
        }
        if letter_known(w[0], lowered(inventory)) && all_letters_known(w.drop_first(), inventory) {
            assert forall|j: int| 0 <= j < w.len() implies letter_known(#[trigger] w[j], lowered(inventory)) by {
                if j > 0 {
                    assert(w[j] == w.drop_first()[j - 1]);
                }
            }
        }
    }
}

/// The pre-flight check finds no violation exactly when every data row
/// passes it: when an alphabet is declared every imported word stays within
/// it, and when phoneme inventories are declared every imported word stays
/// within them; and each row that fails the check yields exactly one
/// violation.
pub proof fn lemma_preflight_law(
    cols: CsvColumns,
    rows: Seq<Vec<String>>,
    alphabet: Seq<String>,
    phonemes: Seq<String>,
    n: int,
)
    requires
        0 <= n <= rows.len(),
    ensures
        violations(cols, rows, alphabet, phonemes, n).len() == 0 <==> forall|k: int|
            0 <= k < n ==> row_passes(cols, strings_view((#[trigger] rows[k])@), alphabet, phonemes),
        violations(cols, rows, alphabet, phonemes, n).len() <= n,
        violations(cols, rows, alphabet, phonemes, n).len() == failing_rows(cols, rows, alphabet, phonemes, n),
    decreases n,
{
    if n > 0 {
        lemma_preflight_law(cols, rows, alphabet, phonemes, n - 1);
        let row = strings_view(rows[n - 1]@);
        let w = trim_ws(cell(row, cols.word));
        lemma_first_unknown_none(w, alphabet);
        lemma_first_unknown_none(w, phonemes);
        assert(row_word(cols, row) == w);
        let prev = violations(cols, rows, alphabet, phonemes, n - 1);
        let cur = violations(cols, rows, alphabet, phonemes, n);
        assert(row_violation((n + 1) as nat, w, alphabet, phonemes) is None <==> row_passes(
            cols,
            row,
            alphabet,
            phonemes,
        ));
        if cur.len() == 0 {
            assert forall|k: int| 0 <= k < n implies row_passes(
                cols,
                strings_view((#[trigger] rows[k])@),
                alphabet,
                phonemes,
            ) by {
                if k == n - 1 {
                    assert(row_violation((n + 1) as nat, w, alphabet, phonemes) is None);
                }
            }
        }
        if forall|k: int|
            0 <= k < n ==> row_passes(cols, strings_view((#[trigger] rows[k])@), alphabet, phonemes) {
            assert(row_passes(cols, row, alphabet, phonemes));
            assert forall|k: int| 0 <= k < n - 1 implies row_passes(
                cols,
                strings_view((#[trigger] rows[k])@),
                alphabet,
                phonemes,
            ) by {
            }
        }
    }
}

/// The `row N: ...` line of one violation.
fn violation_line(row: usize, w: &Vec<char>, bad: char, what: &str) -> (r: String)
    ensures
        r@ == "row "@ + decimal(row as nat) + ": `"@ + w@ + "` contains `"@ + seq![bad] + what@,
{
    let mut m = chars_of("row ");
    push_all(&mut m, &decimal_digits(row));
    push_str(&mut m, ": `");
    push_all(&mut m, w);
    push_str(&mut m, "` contains `");
    let ghost before = m@;
    m.push(bad);
    assert(m@ =~= before + seq![bad]);
    push_str(&mut m, what);
    string_of(&m)
}

/// Checks every data row's word against the alphabet and the phoneme
/// inventories (an empty list is not checked). Rows with a blank word or one
/// starting with `#` are skipped. Returns one message per offending row.
pub fn preflight_violations(
    cols: &CsvColumns,
    rows: &[Vec<String>],
    alphabet: &[String],
    phonemes: &[String],
) -> (r: Vec<String>)
    requires
        rows@.len() + 2 <= usize::MAX,
    ensures
        strings_view(r@) == violations(*cols, rows@, alphabet@, phonemes@, rows@.len() as int),
        r@.len() == 0 <==> forall|k: int|
            0 <= k < rows@.len() ==> row_passes(*cols, strings_view((#[trigger] rows@[k])@), alphabet@, phonemes@),
        r@.len() <= rows@.len(),
        r@.len() == failing_rows(*cols, rows@, alphabet@, phonemes@, rows@.len() as int),
{
    let mut out: Vec<String> = Vec::new();
    let mut i: usize = 0;
    while i < rows.len()
        invariant
            i <= rows@.len(),
            rows@.len() + 2 <= usize::MAX,
            strings_view(out@) == violations(*cols, rows@, alphabet@, phonemes@, i as int),
        decreases rows@.len() - i,
    {
        let row = &rows[i];
        let w = trim(&(if cols.word < row.len() {
            chars_of(row[cols.word].as_str())
        } else {
            Vec::new()
        }));
        assert(w@ == row_word(*cols, strings_view(rows@[i as int]@)));
        let ghost before = strings_view(out@);
        if w.len() == 0 || w[0] == '#' {
        } else {
            let ws = string_of(&w);
            let mut flagged = false;
            if alphabet.len() > 0 {
                match first_unknown_letter(ws.as_str(), alphabet) {
                    Some(bad) => {
                        out.push(violation_line(i + 2, &w, bad, "` not in Meta/overview.alphabet"));
                        flagged = true;
                    },
                    None => {},
                }
            }
            if !flagged && phonemes.len() > 0 {
                match first_unknown_letter(ws.as_str(), phonemes) {
                    Some(bad) => {
                        out.push(violation_line(i + 2, &w, bad, "` not in any Phonology inventory"));
                    },
                    None => {},
                }
            }
        }
        assert(strings_view(out@) =~= before + match row_violation(
            (i + 2) as nat,
            row_word(*cols, strings_view(rows@[i as int]@)),
            alphabet@,
            phonemes@,
        ) {
            Some(v) => seq![v],
            None => Seq::<Seq<char>>::empty(),
        });
        i = i + 1;
    }
    proof {
        lemma_preflight_law(*cols, rows@, alphabet@, phonemes@, rows@.len() as int);
    }
    out
}

/// The refusal of an import whose pre-flight check found `n` violations.
pub fn preflight_refusal(n: usize) -> (e: LanguageError)
    ensures
        e matches LanguageError::Config(m) && m@ == "import aborted — "@ + decimal(n as nat)
            + " alphabet/phonology violation(s)"@,
{
    let mut m = chars_of("import aborted — ");
    push_all(&mut m, &decimal_digits(n));
    push_str(&mut m, " alphabet/phonology violation(s)");
    LanguageError::Config(string_of(&m))
}

/// The advice printed after the violations.
pub const PREFLIGHT_ADVICE: &'static str = "\nFix by either:\n  · updating Meta/overview.alphabet to include the missing characters, OR\n  · updating a Phonology rule's `phonemes` list to include them, OR\n  · correcting the CSV, OR\n  · re-running with --force to bypass validation.";

/// The pre-flight report: a count line, one bulleted line per violation,
/// then the advice.
pub open spec fn preflight_report_lines(vs: Seq<Seq<char>>) -> Seq<Seq<char>> {
    seq!["Pre-flight validation failed — "@ + decimal(vs.len()) + " violation(s) found:\n"@]
        + vs.map_values(|v: Seq<char>| "  · "@ + v) + seq![PREFLIGHT_ADVICE@]
}

/// The messages that report failed pre-flight checks, one per `eprintln`.
pub fn preflight_report(vs: &Vec<String>) -> (r: Vec<String>)
    ensures
        strings_view(r@) == preflight_report_lines(strings_view(vs@)),
{
    let mut out: Vec<String> = Vec::new();
    let mut h = chars_of("Pre-flight validation failed — ");
    push_all(&mut h, &decimal_digits(vs.len()));
    push_str(&mut h, " violation(s) found:\n");
    push_line(&mut out, &h);
    let ghost start = strings_view(out@);
    let mut i: usize = 0;
    while i < vs.len()
        invariant
            i <= vs@.len(),
            strings_view(out@) == start + strings_view(vs@).take(i as int).map_values(
                |v: Seq<char>| "  · "@ + v,
            ),
        decreases vs@.len() - i,
    {
        let mut l = chars_of("  · ");
        push_str(&mut l, vs[i].as_str());
        push_line(&mut out, &l);
        assert(strings_view(vs@).take(i + 1).map_values(|v: Seq<char>| "  · "@ + v)
            =~= strings_view(vs@).take(i as int).map_values(|v: Seq<char>| "  · "@ + v).push(
            "  · "@ + vs@[i as int]@,
        ));
        i = i + 1;
    }
    assert(strings_view(vs@).take(vs@.len() as int) =~= strings_view(vs@));
    push_text_line(&mut out, PREFLIGHT_ADVICE);
    out
}

// ───────────────────────── rows to actions ────────────────────────────────

/// What happens to one data row.
pub enum RowAction {
    /// The word cell is blank.
    Blank,
    /// The word starts with `#`: a comment row.
    Comment,
    /// The row becomes this entry.
    Import(ImportEntry),
}

/// Decides a data row: blank and `#` rows are skipped; any other row is
/// imported as the entry built from it.
pub fn classify_import_row(cols: &CsvColumns, row: &[String]) -> (r: RowAction)
    ensures
        row_word(*cols, strings_view(row@)).len() == 0 ==> r is Blank,
        row_word(*cols, strings_view(row@)).len() > 0 && row_word(*cols, strings_view(row@))[0] == '#' ==> r is Comment,
        !skipped_word(row_word(*cols, strings_view(row@))) ==> (r matches RowAction::Import(e) && entry_from_row(
            *cols,
            strings_view(row@),
            e,
        )),
{
    match build_import_entry_from_row(cols, row) {
        Ok(e) => {
            let w = chars_of(e.word.as_str());
            if w.len() == 0 {
                RowAction::Blank
            } else if w[0] == '#' {
                RowAction::Comment
            } else {
                RowAction::Import(e)
            }
        },
        Err(_) => RowAction::Blank,
    }
}

// ───────────────────────── the tally ──────────────────────────────────────

/// How many rows went which way.
pub struct ImportTally {
    pub imported: usize,
    pub skipped_blank: usize,
    pub skipped_comment: usize,
    pub skipped_duplicate: usize,
    pub failed: usize,
}

impl ImportTally {
    /// A tally with nothing counted.
    pub fn new() -> (t: ImportTally)
        ensures
            t.imported == 0 && t.skipped_blank == 0 && t.skipped_comment == 0
                && t.skipped_duplicate == 0 && t.failed == 0,
    {
        ImportTally { imported: 0, skipped_blank: 0, skipped_comment: 0, skipped_duplicate: 0, failed: 0 }
    }
}

/// Every row the tally has counted, whichever way it went.
pub open spec fn tally_total(t: ImportTally) -> int {
    t.imported + t.skipped_blank + t.skipped_comment + t.skipped_duplicate + t.failed
}

/// Counts a row that is not imported (blank, or a `#` comment); an
/// imported row is counted by `record_import` once the store answers.
pub fn count_skipped_row(tally: &mut ImportTally, action: &RowAction)
    requires
        old(tally).skipped_blank < usize::MAX,
        old(tally).skipped_comment < usize::MAX,
    ensures
        final(tally).imported == old(tally).imported,
        final(tally).skipped_duplicate == old(tally).skipped_duplicate,
        final(tally).failed == old(tally).failed,
        match *action {
            RowAction::Blank => final(tally).skipped_blank == old(tally).skipped_blank + 1
                && final(tally).skipped_comment == old(tally).skipped_comment,
            RowAction::Comment => final(tally).skipped_comment == old(tally).skipped_comment + 1
                && final(tally).skipped_blank == old(tally).skipped_blank,
            RowAction::Import(_) => final(tally).skipped_blank == old(tally).skipped_blank
                && final(tally).skipped_comment == old(tally).skipped_comment,
        },
        !(action is Import) ==> tally_total(*final(tally)) == tally_total(*old(tally)) + 1,
{
    match action {
        RowAction::Blank => tally.skipped_blank = tally.skipped_blank + 1,
        RowAction::Comment => tally.skipped_comment = tally.skipped_comment + 1,
        RowAction::Import(_) => {},
    }
}

/// The store's refusal of an entry whose word is already in the dictionary.
pub open spec fn is_duplicate_refusal(msg: Seq<char>) -> bool {
    contains_seq(msg, "already defined"@)
}

/// Records the store's answer for an imported row (`Ok` with the bucket the
/// entry was filed under, or `Err` with the refusal) and returns the line to
/// print: a refusal naming an already defined word counts as a skipped
/// duplicate, any other as a failure.
pub fn record_import(
    tally: &mut ImportTally,
    row: usize,
    language: &str,
    word: &str,
    outcome: &Result<String, String>,
) -> (line: String)
    requires
        old(tally).imported < usize::MAX,
        old(tally).skipped_duplicate < usize::MAX,
        old(tally).failed < usize::MAX,
    ensures
        final(tally).skipped_blank == old(tally).skipped_blank,
        final(tally).skipped_comment == old(tally).skipped_comment,
        tally_total(*final(tally)) == tally_total(*old(tally)) + 1,
        match outcome {
            Ok(bucket) => {
                &&& final(tally).imported == old(tally).imported + 1
                &&& final(tally).skipped_duplicate == old(tally).skipped_duplicate
                &&& final(tally).failed == old(tally).failed
                &&& line@ == "imported `"@ + word@ + "` → "@ + language@ + "/Dictionary/"@ + bucket@
            },
            Err(msg) => {
                &&& final(tally).imported == old(tally).imported
                &&& if is_duplicate_refusal(msg@) {
                    &&& final(tally).skipped_duplicate == old(tally).skipped_duplicate + 1
                    &&& final(tally).failed == old(tally).failed
                    &&& line@ == "row "@ + decimal(row as nat) + ": `"@ + word@
                        + "` already exists — skipped"@
                } else {
                    &&& final(tally).skipped_duplicate == old(tally).skipped_duplicate
                    &&& final(tally).failed == old(tally).failed + 1
                    &&& line@ == "row "@ + decimal(row as nat) + ": import `"@ + word@ + "` failed: "@
                        + msg@
                }
            },
        },
{
    match outcome {
        Ok(bucket) => {
            tally.imported = tally.imported + 1;
            let mut l = chars_of("imported `");
            push_str(&mut l, word);
            push_str(&mut l, "` → ");
            push_str(&mut l, language);
            push_str(&mut l, "/Dictionary/");
            push_str(&mut l, bucket.as_str());
            string_of(&l)
        },
        Err(msg) => {
            let mut l = chars_of("row ");
            push_all(&mut l, &decimal_digits(row));
            let mc = chars_of(msg.as_str());
            if contains(&mc, &chars_of("already defined")) {
                tally.skipped_duplicate = tally.skipped_duplicate + 1;
                push_str(&mut l, ": `");
                push_str(&mut l, word);
                push_str(&mut l, "` already exists — skipped");
            } else {
                tally.failed = tally.failed + 1;
                push_str(&mut l, ": import `");
                push_str(&mut l, word);
                push_str(&mut l, "` failed: ");
                push_all(&mut l, &mc);
            }
            string_of(&l)
        },
    }
}

/// The closing summary: a blank line, the heading, the imported count, then
/// each non-zero skip and failure count.
pub open spec fn summary_lines(language: Seq<char>, t: ImportTally) -> Seq<Seq<char>> {
    seq![
        Seq::<char>::empty(),
        "Import summary for `"@ + language + "`"@,
        "  imported:        "@ + decimal(t.imported as nat),
    ] + (if t.skipped_blank > 0 {
        seq!["  skipped (blank): "@ + decimal(t.skipped_blank as nat)]
    } else {
        Seq::<Seq<char>>::empty()
    }) + (if t.skipped_comment > 0 {
        seq!["  skipped (#):     "@ + decimal(t.skipped_comment as nat)]
    } else {
        Seq::<Seq<char>>::empty()
    }) + (if t.skipped_duplicate > 0 {
        seq!["  skipped (dup):   "@ + decimal(t.skipped_duplicate as nat)]
    } else {
        Seq::<Seq<char>>::empty()
    }) + (if t.failed > 0 {
        seq!["  failed:          "@ + decimal(t.failed as nat)]
    } else {
        Seq::<Seq<char>>::empty()
    })
}

/// Appends `label` and the digits of `n` as a line when `n` is not zero.
fn push_count_if(lines: &mut Vec<String>, label: &str, n: usize)
    ensures
        strings_view(final(lines)@) == strings_view(old(lines)@) + if n > 0 {
            seq![label@ + decimal(n as nat)]
        } else {
            Seq::<Seq<char>>::empty()
        },
{
    if n > 0 {
        let mut l = chars_of(label);
        push_all(&mut l, &decimal_digits(n));
        push_line(lines, &l);
    } else {
        assert(strings_view(lines@) =~= strings_view(lines@) + Seq::<Seq<char>>::empty());
    }
}

/// The summary printed after an import.
pub fn import_summary(language: &str, t: &ImportTally) -> (r: Vec<String>)
    ensures
        strings_view(r@) == summary_lines(language@, *t),
{
    let mut out: Vec<String> = Vec::new();
    let blank: Vec<char> = Vec::new();
    push_line(&mut out, &blank);
    let mut h = chars_of("Import summary for `");
    push_str(&mut h, language);
    push_str(&mut h, "`");
    push_line(&mut out, &h);
    let mut c = chars_of("  imported:        ");
    push_all(&mut c, &decimal_digits(t.imported));
    push_line(&mut out, &c);
    let ghost s0 = strings_view(out@);
    push_count_if(&mut out, "  skipped (blank): ", t.skipped_blank);
    let ghost s1 = strings_view(out@);
    push_count_if(&mut out, "  skipped (#):     ", t.skipped_comment);
    let ghost s2 = strings_view(out@);
    push_count_if(&mut out, "  skipped (dup):   ", t.skipped_duplicate);
    let ghost s3 = strings_view(out@);
    push_count_if(&mut out, "  failed:          ", t.failed);
    assert(s0 =~= seq![
        Seq::<char>::empty(),
        "Import summary for `"@ + language@ + "`"@,
        "  imported:        "@ + decimal(t.imported as nat),
    ]);
    assert(strings_view(out@) =~= summary_lines(language@, *t));
    out
}

} // verus!
