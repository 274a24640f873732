//! The small argument readers that several commands share: the document
//! format of the book exports, the font output format, the role of a
//! relativized noun, the category of a rule, and the slug of a language
//! name.
use vstd::prelude::*;
use crate::compose::{ascii_lowered, to_ascii_lowercase};
use crate::error::LanguageError;
use crate::text::{
    char_is_alphanumeric, char_to_lowercase, chars_eq, chars_of, push_all, push_str,
    str_to_lowercase, string_of, trim_char, trim_matches, unicode_alphanumeric, unicode_lowercase,
    unicode_str_lowercase,
};

verus! {

/// Whether the characters spell `t`.
fn spells(v: &Vec<char>, t: &str) -> (r: bool)
    ensures
        r == (v@ == t@),
{
    chars_eq(v, &chars_of(t))
}

/// A refusal naming the offending value between a prefix and a suffix.
fn refusal(prefix: &str, v: &Vec<char>, suffix: &str) -> (e: LanguageError)
    ensures
        e matches LanguageError::Config(m) && m@ == prefix@ + v@ + suffix@,
{
    let mut m = chars_of(prefix);
    push_all(&mut m, v);
    push_str(&mut m, suffix);
    LanguageError::Config(string_of(&m))
}

/// Whether a book export writes Typst (`typ`, `typst`) rather than
/// Markdown (`md`, `markdown`), ASCII case ignored.
pub open spec fn document_typst_of(format: Seq<char>) -> Option<bool> {
    let f = ascii_lowered(format);
    if f == "md"@ || f == "markdown"@ {
        Some(false)
    } else if f == "typ"@ || f == "typst"@ {
        Some(true)
    } else {
        None
    }
}

/// Reads the `--format` of the dictionary, grammar-book and tutorial
/// exports: `true` for Typst, `false` for Markdown.
pub fn document_format(format: &str) -> (r: Result<bool, LanguageError>)
    ensures
        match document_typst_of(format@) {
            Some(t) => r == Ok::<bool, LanguageError>(t),
            None => r matches Err(LanguageError::Config(m)) && m@ == "unknown --format `"@
                + ascii_lowered(format@) + "` (expected md or typ)"@,
        },
{
    let f = to_ascii_lowercase(format);
    if spells(&f, "md") || spells(&f, "markdown") {
        Ok(false)
    } else if spells(&f, "typ") || spells(&f, "typst") {
        Ok(true)
    } else {
        Err(refusal("unknown --format `", &f, "` (expected md or typ)"))
    }
}

/// Which font files `font-build` writes: UFO, TTF, or both.
pub open spec fn font_outputs_of(format: Seq<char>) -> Option<(bool, bool)> {
    let f = ascii_lowered(format);
    if f == "ufo"@ {
        Some((true, false))
    } else if f == "ttf"@ {
        Some((false, true))
    } else if f == "both"@ {
        Some((true, true))
    } else {
        None
    }
}

/// Reads `font-build --format`: whether to write a UFO and whether a TTF.
pub fn font_outputs(format: &str) -> (r: Result<(bool, bool), LanguageError>)
    ensures
        match font_outputs_of(format@) {
            Some(p) => r == Ok::<(bool, bool), LanguageError>(p),
            None => r matches Err(LanguageError::Config(m)) && m@ == "unknown --format `"@
                + ascii_lowered(format@) + "` (expected ufo, ttf, or both)"@,
        },
{
    let f = to_ascii_lowercase(format);
    if spells(&f, "ufo") {
        Ok((true, false))
    } else if spells(&f, "ttf") {
        Ok((false, true))
    } else if spells(&f, "both") {
        Ok((true, true))
    } else {
        Err(refusal("unknown --format `", &f, "` (expected ufo, ttf, or both)"))
    }
}

/// Whether the head of a relative clause is its subject (`subject`,
/// `subj`, `s`) or its object (`object`, `obj`, `o`).
pub open spec fn head_is_subject_of(role: Seq<char>) -> Option<bool> {
    let r = ascii_lowered(role);
    if r == "subject"@ || r == "subj"@ || r == "s"@ {
        Some(true)
    } else if r == "object"@ || r == "obj"@ || r == "o"@ {
        Some(false)
    } else {
        None
    }
}

/// Reads `relative --role`.
pub fn relative_role(role: &str) -> (r: Result<bool, LanguageError>)
    ensures
        match head_is_subject_of(role@) {
            Some(s) => r == Ok::<bool, LanguageError>(s),
            None => r matches Err(LanguageError::Config(m)) && m@ == "unknown --role `"@
                + ascii_lowered(role@) + "` (expected subject or object)"@,
        },
{
    let f = to_ascii_lowercase(role);
    if spells(&f, "subject") || spells(&f, "subj") || spells(&f, "s") {
        Ok(true)
    } else if spells(&f, "object") || spells(&f, "obj") || spells(&f, "o") {
        Ok(false)
    } else {
        Err(refusal("unknown --role `", &f, "` (expected subject or object)"))
    }
}

/// Reads `define-rule --category`: `grammar` or `phonology` in any case,
/// returned lower-cased; anything else is refused, quoted as given.
pub fn rule_category(category: &str) -> (r: Result<String, LanguageError>)
    ensures
        ({
            let norm = unicode_str_lowercase(category@);
            if norm == "grammar"@ || norm == "phonology"@ {
                r matches Ok(c) && c@ == norm
            } else {
                r matches Err(LanguageError::Config(m)) && m@
                    == "--category must be `grammar` or `phonology` (got `"@ + category@ + "`)"@
            }
        }),
{
    let norm = str_to_lowercase(category);
    let nv = chars_of(norm.as_str());
    if spells(&nv, "grammar") || spells(&nv, "phonology") {
        Ok(norm)
    } else {
        Err(refusal("--category must be `grammar` or `phonology` (got `", &chars_of(category), "`)"))
    }
}

// ───────────────────────── language slug ──────────────────────────────────

/// The slug built so far and whether it ends in a dash run: letters and
/// digits lower-cased, every run of other characters one `-`.
pub open spec fn slug_fold(s: Seq<char>) -> (Seq<char>, bool)
    decreases s.len(),
{
    if s.len() == 0 {
        (seq![], false)
    } else {
        let prev = slug_fold(s.drop_last());
        let c = s.last();
        if unicode_alphanumeric(c) {
            (prev.0 + unicode_lowercase(c), false)
        } else if !prev.1 {
            (prev.0.push('-'), true)
        } else {
            prev
        }
    }
}

/// The directory-safe slug of a language name: the folded name without
/// leading or trailing dashes, or `language` when nothing is left.
pub open spec fn slug_of(name: Seq<char>) -> Seq<char> {
    let s = trim_char(slug_fold(name).0, '-');
    if s.len() == 0 {
        "language"@
    } else {
        s
    }
}

/// The slug a language's glyph store is named by.
pub fn lang_slug(name: &str) -> (r: String)
    ensures
        r@ == slug_of(name@),
{
    let v = chars_of(name);
    let mut out: Vec<char> = Vec::new();
    let mut prev_dash = false;
    let mut i: usize = 0;
    while i < v.len()
        invariant
            i <= v@.len(),
            v@ == name@,
            slug_fold(name@.take(i as int)) == (out@, prev_dash),
        decreases v@.len() - i,
    {
        let c = v[i];
        assert(name@.take(i + 1).drop_last() =~= name@.take(i as int));
        assert(name@.take(i + 1).last() == c);
        if char_is_alphanumeric(c) {
            push_all(&mut out, &char_to_lowercase(c));
            prev_dash = false;
        } else if !prev_dash {
            out.push('-');
            prev_dash = true;
        }
        i = i + 1;
    }
    assert(name@.take(v@.len() as int) =~= name@);
    let s = trim_matches(&out, '-');
    if s.len() == 0 {
        string_of(&chars_of("language"))
    } else {
        string_of(&s)
    }
}

} // verus!
