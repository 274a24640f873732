//! `language import`: reading a PolyGlot dictionary (a `.pgd` ZIP archive
//! or bare XML) and the preview and tally of a foreign-dictionary import.
use vstd::prelude::*;
use vstd::utf8::{decode_utf8, valid_utf8};
use crate::command::LanguageImportFormat;
use crate::entry::{decimal, decimal_digits, ImportEntry};
use crate::error::LanguageError;
use crate::inflection::Inflection;
use crate::text::{
    chars_eq_ignore_ascii_case, chars_of, eq_ignore_ascii_case, has_prefix, join, join_seqs,
    pad_right, push_all, push_line, push_padded, push_str, string_of, strings_view, subvec, vviews,
};
use crate::compose::{ascii_lowered, to_ascii_lowercase};

verus! {

// ───────────────────────── outside decoding ───────────────────────────────

/// What `String::from_utf8` reports for bytes that are not UTF-8.
pub uninterp spec fn utf8_error_text(bytes: Seq<u8>) -> Seq<char>;

/// `String::from_utf8`: the text the bytes encode when they are valid
/// UTF-8, else the error's message (named above).
#[verifier::external_body]
fn utf8_text(bytes: Vec<u8>) -> (r: Result<String, String>)
    ensures
        r is Ok <==> valid_utf8(bytes@),
        match r {
            Ok(s) => s@ == decode_utf8(bytes@),
            Err(e) => e@ == utf8_error_text(bytes@),
        },
{
    String::from_utf8(bytes).map_err(|e| e.to_string())
}

/// What `zip::ZipArchive::new` makes of the bytes: the number of entries,
/// or the error's message.
pub uninterp spec fn zip_count(bytes: Seq<u8>) -> Result<nat, Seq<char>>;

/// `zip::ZipArchive::new` over the bytes, then `len`.
#[verifier::external_body]
fn zip_entry_count(bytes: &Vec<u8>) -> (r: Result<usize, String>)
    ensures
        match r {
            Ok(n) => zip_count(bytes@) == Ok::<nat, Seq<char>>(n as nat),
            Err(e) => zip_count(bytes@) == Err::<nat, Seq<char>>(e@),
        },
{
    match zip::ZipArchive::new(std::io::Cursor::new(bytes.clone())) {
        Ok(a) => Ok(a.len()),
        Err(e) => Err(e.to_string()),
    }
}

/// The name of an archive's entry at an index, when the archive, the entry
/// and its name can be read.
pub uninterp spec fn zip_name(bytes: Seq<u8>, i: nat) -> Option<Seq<char>>;

/// `zip::ZipArchive::by_index(i)` then `ZipFile::name`.
#[verifier::external_body]
fn zip_entry_name(bytes: &Vec<u8>, i: usize) -> (r: Option<String>)
    ensures
        match r {
            Some(n) => zip_name(bytes@, i as nat) == Some(n@),
            None => zip_name(bytes@, i as nat) is None,
        },
{
    let mut a = zip::ZipArchive::new(std::io::Cursor::new(bytes.clone())).ok()?;
    let f = a.by_index(i).ok()?;
    let n = f.name().ok()?;
    Some(n.to_string())
}

/// Why an archive member could not be read.
pub enum MemberFailure {
    /// The member could not be opened; the zip error's message.
    Unreadable(String),
    /// Reading the member's text failed (it is not UTF-8 text, or its
    /// decompression or checksum failed); the I/O error's message.
    Undecodable(String),
}

/// What reading a named member gives: its text, or which step failed
/// (`true`: opening it) and that step's message.
pub uninterp spec fn zip_member(bytes: Seq<u8>, name: Seq<char>) -> Result<Seq<char>, (bool, Seq<char>)>;

/// `zip::ZipArchive::by_name(name)` then `Read::read_to_string`.
#[verifier::external_body]
fn zip_member_text(bytes: &Vec<u8>, name: &str) -> (r: Result<String, MemberFailure>)
    ensures
        match r {
            Ok(t) => zip_member(bytes@, name@) == Ok::<Seq<char>, (bool, Seq<char>)>(t@),
            Err(MemberFailure::Unreadable(m)) => zip_member(bytes@, name@) == Err::<
                Seq<char>,
                (bool, Seq<char>),
            >((true, m@)),
            Err(MemberFailure::Undecodable(m)) => zip_member(bytes@, name@) == Err::<
                Seq<char>,
                (bool, Seq<char>),
            >((false, m@)),
        },
{
    let mut a = zip::ZipArchive::new(std::io::Cursor::new(bytes.clone()))
        .map_err(|e| MemberFailure::Unreadable(e.to_string()))?;
    let mut f = a.by_name(name).map_err(|e| MemberFailure::Unreadable(e.to_string()))?;
    let mut text = String::new();
    std::io::Read::read_to_string(&mut f, &mut text).map_err(|e| MemberFailure::Undecodable(e.to_string()))?;
    Ok(text)
}

// ───────────────────────── reading a dictionary ───────────────────────────

/// Bytes that open with the ZIP local-file-header magic `PK\x03\x04`.
pub open spec fn zip_magic(bytes: Seq<u8>) -> bool {
    bytes.len() >= 4 && bytes[0] == 0x50u8 && bytes[1] == 0x4bu8 && bytes[2] == 0x03u8 && bytes[3]
        == 0x04u8
}

/// Whether the bytes are a ZIP archive.
pub fn is_zip_archive(bytes: &Vec<u8>) -> (r: bool)
    ensures
        r == zip_magic(bytes@),
{
    bytes.len() >= 4 && bytes[0] == 0x50u8 && bytes[1] == 0x4bu8 && bytes[2] == 0x03u8 && bytes[3]
        == 0x04u8
}

/// The readable entry names of the first `n` archive entries, in order.
pub open spec fn readable_names(bytes: Seq<u8>, n: nat) -> Seq<Seq<char>>
    decreases n,
{
    if n == 0 {
        seq![]
    } else {
        readable_names(bytes, (n - 1) as nat) + match zip_name(bytes, (n - 1) as nat) {
            Some(x) => seq![x],
            None => Seq::<Seq<char>>::empty(),
        }
    }
}

/// Whether a name ends in `.xml`, ASCII case ignored.
pub open spec fn is_xml_name(n: Seq<char>) -> bool {
    let l = ascii_lowered(n);
    l.len() >= 4 && l.skip(l.len() - 4) == ".xml"@
}

/// The first name satisfying the canonical-member test, from `from` on.
pub open spec fn first_canonical(names: Seq<Seq<char>>, from: int) -> Option<Seq<char>>
    decreases names.len() - from,
{
    if from < 0 || from >= names.len() {
        None
    } else if eq_ignore_ascii_case(names[from], "PGDictionary.xml"@) {
        Some(names[from])
    } else {
        first_canonical(names, from + 1)
    }
}

/// The first `.xml` name, from `from` on.
pub open spec fn first_xml(names: Seq<Seq<char>>, from: int) -> Option<Seq<char>>
    decreases names.len() - from,
{
    if from < 0 || from >= names.len() {
        None
    } else if is_xml_name(names[from]) {
        Some(names[from])
    } else {
        first_xml(names, from + 1)
    }
}

/// The member a PolyGlot archive's dictionary is read from: the canonical
/// `PGDictionary.xml` (any case), else the first `.xml` member.
pub open spec fn dictionary_member(names: Seq<Seq<char>>) -> Option<Seq<char>> {
    match first_canonical(names, 0) {
        Some(n) => Some(n),
        None => first_xml(names, 0),
    }
}

/// Picks the member to read from an archive's entry names.
pub fn select_polyglot_member(names: &Vec<String>) -> (r: Option<String>)
    ensures
        match r {
            Some(n) => dictionary_member(strings_view(names@)) == Some(n@),
            None => dictionary_member(strings_view(names@)) is None,
        },
{
    let ghost ns = strings_view(names@);
    let canon = chars_of("PGDictionary.xml");
    let mut i: usize = 0;
    while i < names.len()
        invariant
            i <= names@.len(),
            ns == strings_view(names@),
            canon@ == "PGDictionary.xml"@,
            first_canonical(ns, 0) == first_canonical(ns, i as int),
        decreases names@.len() - i,
    {
        assert(ns[i as int] == names@[i as int]@);
        if chars_eq_ignore_ascii_case(&chars_of(names[i].as_str()), &canon) {
            return Some(string_of(&chars_of(names[i].as_str())));
        }
        i = i + 1;
    }
    let ext = chars_of(".xml");
    let mut j: usize = 0;
    while j < names.len()
        invariant
            j <= names@.len(),
            ns == strings_view(names@),
            ext@ == ".xml"@,
            first_canonical(ns, 0) is None,
            first_xml(ns, 0) == first_xml(ns, j as int),
        decreases names@.len() - j,
    {
        assert(ns[j as int] == names@[j as int]@);
        let l = to_ascii_lowercase(names[j].as_str());
        if l.len() >= 4 {
            let tail = subvec(&l, l.len() - 4, l.len());
            assert(tail@ =~= l@.skip(l@.len() - 4));
            if crate::text::chars_eq(&tail, &ext) {
                return Some(string_of(&chars_of(names[j].as_str())));
            }
        }
        j = j + 1;
    }
    None
}

/// The dictionary text a PolyGlot file holds: the file's text when it is not
/// an archive; otherwise the text of the archive's dictionary member; or the
/// refusal, naming the file as `label`.
pub fn read_polyglot_xml(label: &str, bytes: Vec<u8>) -> (r: Result<String, LanguageError>)
    ensures
        !zip_magic(bytes@) ==> match r {
            Ok(s) => valid_utf8(bytes@) && s@ == decode_utf8(bytes@),
            Err(e) => !valid_utf8(bytes@) && (e matches LanguageError::Config(m) && m@ == label@
                + " is not valid UTF-8: "@ + utf8_error_text(bytes@)),
        },
        zip_magic(bytes@) ==> match zip_count(bytes@) {
            Err(z) => r matches Err(LanguageError::Config(m)) && m@ == label@
                + " is not a valid .pgd archive: "@ + z,
            Ok(n) => match dictionary_member(readable_names(bytes@, n)) {
                None => r matches Err(LanguageError::Config(m)) && m@ == "no XML dictionary found inside "@
                    + label@ + " (members: "@ + join_seqs(readable_names(bytes@, n), ", "@) + ")"@,
                Some(t) => match zip_member(bytes@, t) {
                    Ok(x) => r matches Ok(s) && s@ == x,
                    Err((true, z)) => r matches Err(LanguageError::Config(m)) && m@
                        == "could not read "@ + t + " from archive: "@ + z,
                    Err((false, z)) => r matches Err(LanguageError::Config(m)) && m@
                        == "could not decode "@ + t + ": "@ + z,
                },
            },
        },
{
    if !is_zip_archive(&bytes) {
        return match utf8_text(bytes) {
            Ok(s) => Ok(s),
            Err(e) => {
                let mut m = chars_of(label);
                push_str(&mut m, " is not valid UTF-8: ");
                push_str(&mut m, e.as_str());
                Err(LanguageError::Config(string_of(&m)))
            },
        };
    }
    let n = match zip_entry_count(&bytes) {
        Ok(n) => n,
        Err(e) => {
            let mut m = chars_of(label);
            push_str(&mut m, " is not a valid .pgd archive: ");
            push_str(&mut m, e.as_str());
            return Err(LanguageError::Config(string_of(&m)));
        },
    };
    let mut names: Vec<String> = Vec::new();
    let mut i: usize = 0;
    while i < n
        invariant
            i <= n,
            strings_view(names@) == readable_names(bytes@, i as nat),
        decreases n - i,
    {
        match zip_entry_name(&bytes, i) {
            Some(x) => {
                let ghost before = strings_view(names@);
                let ghost xv = x@;
                names.push(x);
                assert(strings_view(names@) =~= before.push(xv));
            },
            None => {},
        }
        i = i + 1;
    }
    let target = match select_polyglot_member(&names) {
        Some(t) => t,
        None => {
            let mut parts: Vec<Vec<char>> = Vec::new();
            let mut k: usize = 0;
            while k < names.len()
                invariant
                    k <= names@.len(),
                    vviews(parts@) == strings_view(names@).take(k as int),
                decreases names@.len() - k,
            {
                let ghost before = vviews(parts@);
                parts.push(chars_of(names[k].as_str()));
                assert(vviews(parts@) =~= before.push(names@[k as int]@));
                assert(strings_view(names@).take(k + 1) =~= strings_view(names@).take(k as int).push(
                    names@[k as int]@,
                ));
                k = k + 1;
            }
            assert(strings_view(names@).take(names@.len() as int) =~= strings_view(names@));
            let mut sep: Vec<char> = Vec::new();
            push_str(&mut sep, ", ");
            let mut m = chars_of("no XML dictionary found inside ");
            push_str(&mut m, label);
            push_str(&mut m, " (members: ");
            push_all(&mut m, &join(&parts, &sep));
            push_str(&mut m, ")");
            return Err(LanguageError::Config(string_of(&m)));
        },
    };
    match zip_member_text(&bytes, target.as_str()) {
        Ok(x) => Ok(x),
        Err(MemberFailure::Unreadable(z)) => {
            let mut m = chars_of("could not read ");
            push_str(&mut m, target.as_str());
            push_str(&mut m, " from archive: ");
            push_str(&mut m, z.as_str());
            Err(LanguageError::Config(string_of(&m)))
        },
        Err(MemberFailure::Undecodable(z)) => {
            let mut m = chars_of("could not decode ");
            push_str(&mut m, target.as_str());
            push_str(&mut m, ": ");
            push_str(&mut m, z.as_str());
            Err(LanguageError::Config(string_of(&m)))
        },
    }
}

// ───────────────────────── the foreign import ─────────────────────────────

/// A dictionary entry as a foreign tool gives it.
pub struct Lexeme {
    pub word: String,
    pub pos: String,
    pub translation: String,
    pub example: String,
    pub pronunciation: String,
    pub etymology: String,
    pub notes: String,
}

/// The entry a foreign lexeme is imported as: its fields as given, nothing
/// else filled in.
pub fn lexeme_entry(lx: &Lexeme) -> (e: ImportEntry)
    ensures
        e.word@ == lx.word@,
        e.pos@ == lx.pos@,
        e.translation@ == lx.translation@,
        e.example@ == lx.example@,
        e.pronunciation@ == lx.pronunciation@,
        e.etymology@ == lx.etymology@,
        e.notes@ == lx.notes@,
        e.related@.len() == 0,
        e.inflection.pairs().len() == 0,
        e.examples@.len() == 0,
        e.register@.len() == 0,
        e.era@.len() == 0,
        e.domain@.len() == 0,
{
    ImportEntry {
        word: string_of(&chars_of(lx.word.as_str())),
        pos: string_of(&chars_of(lx.pos.as_str())),
        translation: string_of(&chars_of(lx.translation.as_str())),
        example: string_of(&chars_of(lx.example.as_str())),
        pronunciation: string_of(&chars_of(lx.pronunciation.as_str())),
        etymology: string_of(&chars_of(lx.etymology.as_str())),
        related: Vec::new(),
        inflection: Inflection::new(),
        examples: Vec::new(),
        register: String::new(),
        era: String::new(),
        notes: string_of(&chars_of(lx.notes.as_str())),
        domain: Vec::new(),
    }
}

/// The tool a format names in the empty-file note.
pub open spec fn format_tool(f: LanguageImportFormat) -> Seq<char> {
    match f {
        LanguageImportFormat::Toolbox => "Toolbox/SFM"@,
        LanguageImportFormat::Polyglot => "PolyGlot"@,
    }
}

/// The note printed when a file yields no entries.
pub fn no_entries_note(label: &str, format: &LanguageImportFormat) -> (r: String)
    ensures
        r@ == "no entries found in "@ + label@ + " — is it a "@ + format_tool(*format) + " file?"@,
{
    let mut m = chars_of("no entries found in ");
    push_str(&mut m, label);
    push_str(&mut m, " — is it a ");
    match format {
        LanguageImportFormat::Toolbox => push_str(&mut m, "Toolbox/SFM"),
        LanguageImportFormat::Polyglot => push_str(&mut m, "PolyGlot"),
    }
    push_str(&mut m, " file?");
    string_of(&m)
}

/// One previewed lexeme: the word padded to 20 columns, the gloss, and the
/// part of speech in brackets when there is one.
pub open spec fn preview_line(lx: Lexeme) -> Seq<char> {
    "  "@ + pad_right(lx.word@, 20) + " "@ + lx.translation@ + if lx.pos@.len() > 0 {
        "  ["@ + lx.pos@ + "]"@
    } else {
        Seq::<char>::empty()
    }
}

/// The preview of a foreign import: a count heading (to standard error),
/// then the first twenty lexemes and a note of how many more there are.
pub open spec fn preview_lines(label: Seq<char>, lexemes: Seq<Lexeme>) -> Seq<Seq<char>> {
    seq![
        decimal(lexemes.len()) + " entr"@ + (if lexemes.len() == 1 {
            "y"@
        } else {
            "ies"@
        }) + " parsed from "@ + label + " (preview — pass --yes to import):\n"@,
    ] + (if lexemes.len() <= 20 {
        lexemes
    } else {
        lexemes.take(20)
    }).map_values(|lx: Lexeme| preview_line(lx)) + if lexemes.len() > 20 {
        seq!["  … and "@ + decimal((lexemes.len() - 20) as nat) + " more"@]
    } else {
        Seq::<Seq<char>>::empty()
    }
}

/// The preview lines of a foreign import.
pub fn import_preview(label: &str, lexemes: &Vec<Lexeme>) -> (r: Vec<String>)
    ensures
        strings_view(r@) == preview_lines(label@, lexemes@),
{
    let mut out: Vec<String> = Vec::new();
    let mut h = decimal_digits(lexemes.len());
    push_str(&mut h, " entr");
    if lexemes.len() == 1 {
        push_str(&mut h, "y");
    } else {
        push_str(&mut h, "ies");
    }
    push_str(&mut h, " parsed from ");
    push_str(&mut h, label);
    push_str(&mut h, " (preview — pass --yes to import):\n");
    push_line(&mut out, &h);
    let ghost start = strings_view(out@);
    let n = if lexemes.len() <= 20 {
        lexemes.len()
    } else {
        20
    };
    let ghost shown = if lexemes@.len() <= 20 {
        lexemes@
    } else {
        lexemes@.take(20)
    };
    assert(shown.len() == n);
    let mut i: usize = 0;
    while i < n
        invariant
            i <= n,
            n <= lexemes@.len(),
            shown.len() == n,
            forall|k: int| 0 <= k < n ==> #[trigger] shown[k] == lexemes@[k],
            strings_view(out@) == start + shown.take(i as int).map_values(|lx: Lexeme| preview_line(lx)),
        decreases n - i,
    {
        let lx = &lexemes[i];
        let mut l = chars_of("  ");
        push_padded(&mut l, &chars_of(lx.word.as_str()), 20);
        push_str(&mut l, " ");
        push_str(&mut l, lx.translation.as_str());
        let mut p: Vec<char> = Vec::new();
        if chars_of(lx.pos.as_str()).len() > 0 {
            push_str(&mut p, "  [");
            push_str(&mut p, lx.pos.as_str());
            push_str(&mut p, "]");
        }
        push_all(&mut l, &p);
        push_line(&mut out, &l);
        assert(shown[i as int] == lexemes@[i as int]);
        assert(shown.take(i + 1).map_values(|lx: Lexeme| preview_line(lx)) =~= shown.take(
            i as int,
        ).map_values(|lx: Lexeme| preview_line(lx)).push(preview_line(shown[i as int])));
        i = i + 1;
    }
    assert(shown.take(n as int) =~= shown);
    let ghost mid = strings_view(out@);
    if lexemes.len() > 20 {
        let mut l = chars_of("  … and ");
        push_all(&mut l, &decimal_digits(lexemes.len() - 20));
        push_str(&mut l, " more");
        push_line(&mut out, &l);
    }
    assert(strings_view(out@) =~= preview_lines(label@, lexemes@));
    out
}

/// The closing line of a committed foreign import.
pub fn foreign_import_summary(added: usize, language: &str, skipped: usize) -> (r: String)
    ensures
        r@ == "\nimported "@ + decimal(added as nat) + " entr(y/ies) into "@ + language@
            + "'s Dictionary ("@ + decimal(skipped as nat) + " skipped)"@,
{
    let mut m = chars_of("\nimported ");
    push_all(&mut m, &decimal_digits(added));
    push_str(&mut m, " entr(y/ies) into ");
    push_str(&mut m, language);
    push_str(&mut m, "'s Dictionary (");
    push_all(&mut m, &decimal_digits(skipped));
    push_str(&mut m, " skipped)");
    string_of(&m)
}

} // verus!
