//! Character-sequence utilities: the small pieces of `str` behaviour that the
//! rest of the library is written in terms of, each stated over `Seq<char>`.
use vstd::prelude::*;

verus! {

// ───────────────────────── classification by the standard library ─────────

/// Whether a character beyond ASCII has the Unicode `White_Space` property
/// (the table `char::is_whitespace` consults for such characters).
pub uninterp spec fn unicode_white_space(c: char) -> bool;

/// What `char::is_whitespace` answers: among ASCII characters the space,
/// tab, line feed, vertical tab, form feed and carriage return (U+0009 to
/// U+000D and U+0020, the ASCII members of `White_Space`); beyond ASCII,
/// the named property.
pub open spec fn white_space(c: char) -> bool {
    if (c as int) < 128 {
        c as int == 32 || (9 <= c as int && c as int <= 13)
    } else {
        unicode_white_space(c)
    }
}

/// What `char::is_alphanumeric` answers for a character (Unicode `Alphabetic`
/// or `Numeric`).
pub uninterp spec fn unicode_alphanumeric(c: char) -> bool;

/// The characters that `char::to_uppercase` yields for a character.
pub uninterp spec fn unicode_uppercase(c: char) -> Seq<char>;

/// The characters that `char::to_lowercase` yields for a character.
pub uninterp spec fn unicode_lowercase(c: char) -> Seq<char>;

/// The string that `str::to_lowercase` returns for a string.
pub uninterp spec fn unicode_str_lowercase(s: Seq<char>) -> Seq<char>;

/// The string that `str::to_uppercase` returns for a string.
pub uninterp spec fn unicode_str_uppercase(s: Seq<char>) -> Seq<char>;

/// `char::is_whitespace`: the result is the character's `White_Space`
/// property, as `white_space` states it; which characters beyond ASCII carry
/// it is left to the name.
#[verifier::external_body]
pub(crate) fn char_is_whitespace(c: char) -> (b: bool)
    ensures
        b == white_space(c),
        c as int >= 128 ==> b == unicode_white_space(c),
{
    c.is_whitespace()
}

/// `char::is_alphanumeric`: the result is the named Unicode property of the
/// character; which characters carry it is left to that name.
#[verifier::external_body]
pub(crate) fn char_is_alphanumeric(c: char) -> (b: bool)
    ensures
        b == unicode_alphanumeric(c),
{
    c.is_alphanumeric()
}

/// `char::to_uppercase`, collected: the named uppercase mapping of the
/// character, which the documentation describes as one or more characters.
#[verifier::external_body]
pub(crate) fn char_to_uppercase(c: char) -> (v: Vec<char>)
    ensures
        v@ == unicode_uppercase(c),
        v@.len() >= 1,
{
    c.to_uppercase().collect()
}

/// `char::to_lowercase`, collected: the named lowercase mapping of the
/// character, which the documentation describes as one or more characters.
#[verifier::external_body]
pub(crate) fn char_to_lowercase(c: char) -> (v: Vec<char>)
    ensures
        v@ == unicode_lowercase(c),
        v@.len() >= 1,
{
    c.to_lowercase().collect()
}

/// `str::to_lowercase`: the named lowercase form of the whole string (which is
/// context-sensitive, so it is not the concatenation of per-character maps).
#[verifier::external_body]
pub(crate) fn str_to_lowercase(s: &str) -> (r: String)
    ensures
        r@ == unicode_str_lowercase(s@),
{
    s.to_lowercase()
}

/// `str::to_uppercase`: the named uppercase mapping of the whole string.
#[verifier::external_body]
pub(crate) fn str_to_uppercase(s: &str) -> (r: String)
    ensures
        r@ == unicode_str_uppercase(s@),
{
    s.to_uppercase()
}

/// `String::push`: appends one character.
#[verifier::external_body]
pub(crate) fn push_char(s: &mut String, c: char)
    ensures
        final(s)@ == old(s)@.push(c),
{
    s.push(c)
}

// ───────────────────────── conversions ────────────────────────────────────

/// The characters of a string slice, in order.
pub fn chars_of(s: &str) -> (v: Vec<char>)
    ensures
        v@ == s@,
{
    let mut v: Vec<char> = Vec::new();
    for c in it: s.chars()
        invariant
            v@ == it.seq().take(it.index() as int),
            it.seq() == s@,
    {
        v.push(c);
    }
    v
}

/// A `String` holding exactly the given characters.
pub fn string_of(v: &Vec<char>) -> (s: String)
    ensures
        s@ == v@,
{
    let mut s = String::new();
    let mut i: usize = 0;
    while i < v.len()
        invariant
            i <= v.len(),
            s@ == v@.take(i as int),
        decreases v.len() - i,
    {
        push_char(&mut s, v[i]);
        assert(v@.take(i + 1) =~= v@.take(i as int).push(v@[i as int]));
        i = i + 1;
    }
    assert(v@.take(v.len() as int) =~= v@);
    s
}

/// Appends every character of `s` to `v`.
pub fn push_str(v: &mut Vec<char>, s: &str)
    ensures
        final(v)@ == old(v)@ + s@,
{
    let w = chars_of(s);
    push_all(v, &w);
}

/// Appends every element of `w` to `v`.
pub fn push_all(v: &mut Vec<char>, w: &Vec<char>)
    ensures
        final(v)@ == old(v)@ + w@,
{
    let ghost start = v@;
    let mut i: usize = 0;
    while i < w.len()
        invariant
            i <= w.len(),
            v@ == start + w@.take(i as int),
        decreases w.len() - i,
    {
        v.push(w[i]);
        assert(w@.take(i + 1) =~= w@.take(i as int).push(w@[i as int]));
        i = i + 1;
    }
    assert(w@.take(w.len() as int) =~= w@);
}

/// The elements of `v` from `start` (inclusive) to `end` (exclusive).
pub fn subvec(v: &Vec<char>, start: usize, end: usize) -> (r: Vec<char>)
    requires
        start <= end <= v.len(),
    ensures
        r@ == v@.subrange(start as int, end as int),
{
    let mut r: Vec<char> = Vec::new();
    let mut i: usize = start;
    while i < end
        invariant
            start <= i <= end <= v.len(),
            r@ == v@.subrange(start as int, i as int),
        decreases end - i,
    {
        r.push(v[i]);
        assert(v@.subrange(start as int, i + 1) =~= v@.subrange(start as int, i as int).push(
            v@[i as int],
        ));
        i = i + 1;
    }
    r
}

/// Whether two character vectors hold the same characters.
pub fn chars_eq(a: &Vec<char>, b: &Vec<char>) -> (r: bool)
    ensures
        r == (a@ == b@),
{
    if a.len() != b.len() {
        return false;
    }
    let mut i: usize = 0;
    while i < a.len()
        invariant
            a.len() == b.len(),
            i <= a.len(),
            forall|j: int| 0 <= j < i ==> a@[j] == b@[j],
        decreases a.len() - i,
    {
        if a[i] != b[i] {
            return false;
        }
        i = i + 1;
    }
    assert(a@ =~= b@);
    true
}

// ───────────────────────── trimming ───────────────────────────────────────

/// `s` without its leading whitespace.
pub open spec fn trim_start_ws(s: Seq<char>) -> Seq<char>
    decreases s.len(),
{
    if s.len() > 0 && white_space(s[0]) {
        trim_start_ws(s.drop_first())
    } else {
        s
    }
}

/// Trimming the start leaves nothing exactly when every character is
/// whitespace.
pub proof fn lemma_trim_start_empty(s: Seq<char>)
    ensures
        trim_start_ws(s).len() == 0 <==> forall|i: int| 0 <= i < s.len() ==> white_space(#[trigger] s[i]),
    decreases s.len(),
{
    if s.len() > 0 {
        let t = s.drop_first();
        lemma_trim_start_empty(t);
        assert forall|i: int| 0 < i < s.len() implies s[i] == t[i - 1] by {}
        assert forall|j: int| 0 <= j < t.len() implies t[j] == s[j + 1] by {}
    }
}

/// `s` without its trailing whitespace.
pub open spec fn trim_end_ws(s: Seq<char>) -> Seq<char>
    decreases s.len(),
{
    if s.len() > 0 && white_space(s.last()) {
        trim_end_ws(s.drop_last())
    } else {
        s
    }
}

/// `s` without leading and trailing whitespace (what `str::trim` returns).
pub open spec fn trim_ws(s: Seq<char>) -> Seq<char> {
    trim_end_ws(trim_start_ws(s))
}

/// `s` without leading copies of `c`.
pub open spec fn trim_start_char(s: Seq<char>, c: char) -> Seq<char>
    decreases s.len(),
{
    if s.len() > 0 && s[0] == c {
        trim_start_char(s.drop_first(), c)
    } else {
        s
    }
}

/// `s` without trailing copies of `c`.
pub open spec fn trim_end_char(s: Seq<char>, c: char) -> Seq<char>
    decreases s.len(),
{
    if s.len() > 0 && s.last() == c {
        trim_end_char(s.drop_last(), c)
    } else {
        s
    }
}

/// `s` without leading and trailing copies of `c` (what `str::trim_matches`
/// returns for a single-character pattern).
pub open spec fn trim_char(s: Seq<char>, c: char) -> Seq<char> {
    trim_end_char(trim_start_char(s, c), c)
}

/// Index of the first character of `s` that is not whitespace (`s.len()` if
/// there is none).
pub fn first_non_ws(v: &Vec<char>, from: usize) -> (i: usize)
    requires
        from <= v.len(),
    ensures
        from <= i <= v.len(),
        trim_start_ws(v@.skip(i as int)) == trim_start_ws(v@.skip(from as int)),
        i < v.len() ==> !white_space(v@[i as int]),
        forall|j: int| from <= j < i ==> white_space(#[trigger] v@[j]),
{
    let mut i = from;
    while i < v.len() && char_is_whitespace(v[i])
        invariant
            from <= i <= v.len(),
            trim_start_ws(v@.skip(i as int)) == trim_start_ws(v@.skip(from as int)),
            forall|j: int| from <= j < i ==> white_space(#[trigger] v@[j]),
        decreases v.len() - i,
    {
        assert(v@.skip(i as int).drop_first() =~= v@.skip(i + 1));
        i = i + 1;
    }
    if i < v.len() {
        assert(!white_space(v@[i as int]));
    }
    i
}

/// `str::trim_start` on a character vector.
pub fn trim_start(v: &Vec<char>) -> (r: Vec<char>)
    ensures
        r@ == trim_start_ws(v@),
{
    let i = first_non_ws(v, 0);
    assert(v@.skip(0) =~= v@);
    let r = subvec(v, i, v.len());
    assert(r@ =~= v@.skip(i as int));
    if i < v.len() {
        assert(r@[0] == v@[i as int]);
    }
    r
}

/// `str::trim_end` on a character vector.
pub fn trim_end(v: &Vec<char>) -> (r: Vec<char>)
    ensures
        r@ == trim_end_ws(v@),
{
    let mut n = v.len();
    assert(v@.take(v.len() as int) =~= v@);
    while n > 0 && char_is_whitespace(v[n - 1])
        invariant
            n <= v.len(),
            trim_end_ws(v@.take(n as int)) == trim_end_ws(v@),
        decreases n,
    {
        assert(v@.take(n as int).drop_last() =~= v@.take(n - 1));
        n = n - 1;
    }
    let r = subvec(v, 0, n);
    assert(r@ =~= v@.take(n as int));
    r
}

/// `str::trim` on a character vector.
pub fn trim(v: &Vec<char>) -> (r: Vec<char>)
    ensures
        r@ == trim_ws(v@),
{
    let a = trim_start(v);
    trim_end(&a)
}

/// `str::trim` on a string slice, as characters.
pub fn trim_str(s: &str) -> (r: Vec<char>)
    ensures
        r@ == trim_ws(s@),
{
    let v = chars_of(s);
    trim(&v)
}

/// `str::trim_matches(c)` on a character vector.
pub fn trim_matches(v: &Vec<char>, c: char) -> (r: Vec<char>)
    ensures
        r@ == trim_char(v@, c),
{
    let mut i: usize = 0;
    assert(v@.skip(0) =~= v@);
    while i < v.len() && v[i] == c
        invariant
            i <= v.len(),
            trim_start_char(v@.skip(i as int), c) == trim_start_char(v@, c),
        decreases v.len() - i,
    {
        assert(v@.skip(i as int).drop_first() =~= v@.skip(i + 1));
        i = i + 1;
    }
    assert(v@.skip(0) =~= v@);
    let a = subvec(v, i, v.len());
    assert(a@ =~= v@.skip(i as int));
    if i < v.len() {
        assert(a@[0] == v@[i as int]);
    }
    let mut n = a.len();
    assert(a@.take(a.len() as int) =~= a@);
    while n > 0 && a[n - 1] == c
        invariant
            n <= a.len(),
            trim_end_char(a@.take(n as int), c) == trim_end_char(a@, c),
        decreases n,
    {
        assert(a@.take(n as int).drop_last() =~= a@.take(n - 1));
        n = n - 1;
    }
    assert(a@.take(a.len() as int) =~= a@);
    let r = subvec(&a, 0, n);
    assert(r@ =~= a@.take(n as int));
    r
}

// ───────────────────────── searching ──────────────────────────────────────

/// Whether `p` is a prefix of `s` (`str::starts_with`).
pub open spec fn has_prefix(s: Seq<char>, p: Seq<char>) -> bool {
    p.len() <= s.len() && s.take(p.len() as int) == p
}

/// Whether `p` occurs in `s` at position `i`.
pub open spec fn occurs_at(s: Seq<char>, p: Seq<char>, i: int) -> bool {
    0 <= i && i + p.len() <= s.len() && s.subrange(i, i + p.len()) == p
}

/// Whether `p` occurs anywhere in `s` (`str::contains` with a string pattern).
pub open spec fn contains_seq(s: Seq<char>, p: Seq<char>) -> bool {
    exists|i: int| occurs_at(s, p, i)
}

/// `str::starts_with` on character vectors.
pub fn starts_with(v: &Vec<char>, p: &Vec<char>) -> (r: bool)
    ensures
        r == has_prefix(v@, p@),
{
    if p.len() > v.len() {
        return false;
    }
    let mut i: usize = 0;
    while i < p.len()
        invariant
            p.len() <= v.len(),
            i <= p.len(),
            forall|j: int| 0 <= j < i ==> v@[j] == p@[j],
        decreases p.len() - i,
    {
        if v[i] != p[i] {
            assert(v@.take(p.len() as int)[i as int] != p@[i as int]);
            return false;
        }
        i = i + 1;
    }
    assert(v@.take(p.len() as int) =~= p@);
    true
}

/// Whether `p` occurs at position `at` of `v`.
pub fn matches_at(v: &Vec<char>, p: &Vec<char>, at: usize) -> (r: bool)
    requires
        at <= v.len(),
    ensures
        r == occurs_at(v@, p@, at as int),
{
    if p.len() > v.len() - at {
        return false;
    }
    let mut i: usize = 0;
    while i < p.len()
        invariant
            at + p.len() <= v.len(),
            i <= p.len(),
            forall|j: int| 0 <= j < i ==> v@[at + j] == p@[j],
        decreases p.len() - i,
    {
        if v[at + i] != p[i] {
            assert(v@.subrange(at as int, at + p.len())[i as int] != p@[i as int]);
            return false;
        }
        i = i + 1;
    }
    assert(v@.subrange(at as int, at + p.len()) =~= p@);
    true
}

/// `str::contains` with a string pattern, on character vectors.
pub fn contains(v: &Vec<char>, p: &Vec<char>) -> (r: bool)
    ensures
        r == contains_seq(v@, p@),
{
    let mut i: usize = 0;
    while i < v.len()
        invariant
            i <= v.len(),
            forall|j: int| 0 <= j < i ==> !occurs_at(v@, p@, j),
        decreases v.len() - i,
    {
        if matches_at(v, p, i) {
            return true;
        }
        i = i + 1;
    }
    matches_at(v, p, i)
}

/// Whether the character `c` occurs in `v`.
pub fn contains_char(v: &Vec<char>, c: char) -> (r: bool)
    ensures
        r == v@.contains(c),
{
    let mut i: usize = 0;
    while i < v.len()
        invariant
            i <= v.len(),
            forall|j: int| 0 <= j < i ==> v@[j] != c,
        decreases v.len() - i,
    {
        if v[i] == c {
            return true;
        }
        i = i + 1;
    }
    false
}

/// Index of the first occurrence of `c` in `s`, or `s.len()` if there is none.
pub open spec fn find_char(s: Seq<char>, c: char) -> int
    decreases s.len(),
{
    if s.len() == 0 {
        0
    } else if s[0] == c {
        0
    } else {
        1 + find_char(s.drop_first(), c)
    }
}

/// The meaning of `find_char`: the first position holding `c`.
pub proof fn lemma_find_char(s: Seq<char>, c: char)
    ensures
        0 <= find_char(s, c) <= s.len(),
        find_char(s, c) < s.len() ==> s[find_char(s, c)] == c,
        forall|j: int| 0 <= j < find_char(s, c) ==> s[j] != c,
    decreases s.len(),
{
    if s.len() > 0 && s[0] != c {
        lemma_find_char(s.drop_first(), c);
        assert forall|j: int| 0 <= j < find_char(s, c) implies s[j] != c by {
            if j > 0 {
                assert(s[j] == s.drop_first()[j - 1]);
            }
        }
    }
}

/// `find_char` is determined by where `c` first occurs.
pub proof fn lemma_find_char_at(s: Seq<char>, c: char, i: int)
    requires
        0 <= i <= s.len(),
        i < s.len() ==> s[i] == c,
        forall|j: int| 0 <= j < i ==> s[j] != c,
    ensures
        find_char(s, c) == i,
    decreases s.len(),
{
    if s.len() > 0 && s[0] != c {
        lemma_find_char_at(s.drop_first(), c, i - 1);
    }
}

/// `str::find` for a character, returning `v.len()` when absent.
pub fn find(v: &Vec<char>, c: char, from: usize) -> (i: usize)
    requires
        from <= v.len(),
    ensures
        i == from + find_char(v@.skip(from as int), c),
{
    let mut i = from;
    while i < v.len() && v[i] != c
        invariant
            from <= i <= v.len(),
            forall|j: int| from <= j < i ==> v@[j] != c,
        decreases v.len() - i,
    {
        i = i + 1;
    }
    proof {
        lemma_find_char_at(v@.skip(from as int), c, i - from);
    }
    i
}

// ───────────────────────── splitting ──────────────────────────────────────

/// The character sequences held by a sequence of character vectors.
pub open spec fn vviews(v: Seq<Vec<char>>) -> Seq<Seq<char>> {
    v.map_values(|x: Vec<char>| x@)
}

/// The pieces of `s` between occurrences of `c` (what `str::split(c)` yields);
/// there is always at least one piece.
pub open spec fn split_char(s: Seq<char>, c: char) -> Seq<Seq<char>>
    decreases s.len(),
{
    let i = find_char(s, c);
    if i >= s.len() {
        seq![s]
    } else {
        proof {
            lemma_find_char(s, c);
        }
        seq![s.take(i)] + split_char(s.skip(i + 1), c)
    }
}

/// The lines of `s` (what `str::lines` yields): pieces between `'\n'`, a
/// `'\r'` before each `'\n'` dropped, and no final empty line.
pub open spec fn lines_of(s: Seq<char>) -> Seq<Seq<char>>
    decreases s.len(),
{
    if s.len() == 0 {
        seq![]
    } else {
        let i = find_char(s, '\n');
        if i >= s.len() {
            seq![s]
        } else {
            proof {
                lemma_find_char(s, '\n');
            }
            let line = s.take(i);
            let line = if line.len() > 0 && line.last() == '\r' {
                line.drop_last()
            } else {
                line
            };
            seq![line] + lines_of(s.skip(i + 1))
        }
    }
}

/// `str::split(c)` on a character vector.
pub fn split(v: &Vec<char>, c: char) -> (r: Vec<Vec<char>>)
    ensures
        vviews(r@) == split_char(v@, c),
{
    let mut r: Vec<Vec<char>> = Vec::new();
    let mut start: usize = 0;
    assert(v@.skip(0) =~= v@);
    loop
        invariant
            start <= v.len(),
            vviews(r@) + split_char(v@.skip(start as int), c) == split_char(v@, c),
        decreases v.len() - start,
    {
        let i = find(v, c, start);
        proof {
            lemma_find_char(v@.skip(start as int), c);
        }
        let piece = subvec(v, start, i);
        let ghost rest = v@.skip(start as int);
        assert(piece@ =~= rest.take(i - start));
        if i >= v.len() {
            assert(piece@ =~= rest);
            r.push(piece);
            assert(vviews(r@) =~= split_char(v@, c));
            return r;
        }
        let ghost old_r = vviews(r@);
        r.push(piece);
        assert(vviews(r@) =~= old_r.push(piece@));
        assert(rest.skip(i - start + 1) =~= v@.skip(i + 1));
        assert(seq![piece@] + split_char(v@.skip(i + 1), c) == split_char(rest, c));
        assert(old_r.push(piece@) + split_char(v@.skip(i + 1), c) =~= old_r + (seq![piece@]
            + split_char(v@.skip(i + 1), c)));
        start = i + 1;
    }
}

/// `str::lines` on a character vector.
pub fn lines(v: &Vec<char>) -> (r: Vec<Vec<char>>)
    ensures
        vviews(r@) == lines_of(v@),
{
    let mut r: Vec<Vec<char>> = Vec::new();
    let mut start: usize = 0;
    assert(v@.skip(0) =~= v@);
    while start < v.len()
        invariant
            start <= v.len(),
            vviews(r@) + lines_of(v@.skip(start as int)) == lines_of(v@),
        decreases v.len() - start,
    {
        let i = find(v, '\n', start);
        proof {
            lemma_find_char(v@.skip(start as int), '\n');
        }
        let ghost rest = v@.skip(start as int);
        let ghost old_r = vviews(r@);
        if i >= v.len() {
            let piece = subvec(v, start, i);
            assert(piece@ =~= rest);
            r.push(piece);
            assert(vviews(r@) =~= old_r.push(piece@));
            assert(lines_of(v@.skip(v.len() as int)) =~= Seq::<Seq<char>>::empty());
            assert(vviews(r@) + lines_of(v@.skip(v.len() as int)) =~= old_r + lines_of(rest));
            start = v.len();
        } else {
            let end = if i > start && v[i - 1] == '\r' {
                i - 1
            } else {
                i
            };
            let piece = subvec(v, start, end);
            assert(piece@ =~= {
                let line = rest.take(i - start);
                if line.len() > 0 && line.last() == '\r' {
                    line.drop_last()
                } else {
                    line
                }
            });
            r.push(piece);
            assert(vviews(r@) =~= old_r.push(piece@));
            assert(rest.skip(i - start + 1) =~= v@.skip(i + 1));
            assert(old_r.push(piece@) + lines_of(v@.skip(i + 1)) =~= old_r + (seq![piece@]
                + lines_of(v@.skip(i + 1))));
            start = i + 1;
        }
    }
    assert(lines_of(v@.skip(start as int)) =~= Seq::<Seq<char>>::empty());
    assert(vviews(r@) + lines_of(v@.skip(start as int)) =~= vviews(r@));
    r
}

// ───────────────────────── replacing and joining ──────────────────────────

/// `s` with every `c` replaced by `r` (what `str::replace(c, r)` returns).
pub open spec fn replace_char(s: Seq<char>, c: char, r: Seq<char>) -> Seq<char>
    decreases s.len(),
{
    if s.len() == 0 {
        seq![]
    } else {
        replace_char(s.drop_last(), c, r) + if s.last() == c {
            r
        } else {
            seq![s.last()]
        }
    }
}

/// `str::replace(c, r)` on a character vector.
pub fn replace(v: &Vec<char>, c: char, r: &Vec<char>) -> (out: Vec<char>)
    ensures
        out@ == replace_char(v@, c, r@),
{
    let mut out: Vec<char> = Vec::new();
    let mut i: usize = 0;
    while i < v.len()
        invariant
            i <= v.len(),
            out@ == replace_char(v@.take(i as int), c, r@),
        decreases v.len() - i,
    {
        assert(v@.take(i + 1).drop_last() =~= v@.take(i as int));
        if v[i] == c {
            push_all(&mut out, r);
        } else {
            out.push(v[i]);
        }
        i = i + 1;
    }
    assert(v@.take(v.len() as int) =~= v@);
    out
}

/// The pieces of `parts` joined by `sep` (what `[_]::join(sep)` returns).
pub open spec fn join_seqs(parts: Seq<Seq<char>>, sep: Seq<char>) -> Seq<char>
    decreases parts.len(),
{
    if parts.len() == 0 {
        seq![]
    } else if parts.len() == 1 {
        parts[0]
    } else {
        join_seqs(parts.drop_last(), sep) + sep + parts.last()
    }
}

/// `[_]::join(sep)` on character vectors.
pub fn join(parts: &Vec<Vec<char>>, sep: &Vec<char>) -> (out: Vec<char>)
    ensures
        out@ == join_seqs(vviews(parts@), sep@),
{
    let mut out: Vec<char> = Vec::new();
    let mut i: usize = 0;
    while i < parts.len()
        invariant
            i <= parts.len(),
            out@ == join_seqs(vviews(parts@).take(i as int), sep@),
        decreases parts.len() - i,
    {
        let ghost before = vviews(parts@).take(i as int);
        assert(vviews(parts@).take(i + 1).drop_last() =~= before);
        if i > 0 {
            push_all(&mut out, sep);
        }
        push_all(&mut out, &parts[i]);
        assert(vviews(parts@)[i as int] == parts[i as int]@);
        if i == 0 {
            assert(out@ =~= vviews(parts@).take(1)[0]);
        }
        i = i + 1;
    }
    assert(vviews(parts@).take(parts.len() as int) =~= vviews(parts@));
    out
}

// ───────────────────────── ASCII helpers ──────────────────────────────────

/// The ASCII lowercase of a character (`char::to_ascii_lowercase`).
pub open spec fn ascii_lower(c: char) -> char {
    if 'A' <= c && c <= 'Z' {
        ((c as u32) + 32) as char
    } else {
        c
    }
}

/// Whether two sequences are equal ignoring ASCII case
/// (`str::eq_ignore_ascii_case`).
pub open spec fn eq_ignore_ascii_case(a: Seq<char>, b: Seq<char>) -> bool {
    a.len() == b.len() && forall|i: int| 0 <= i < a.len() ==> ascii_lower(a[i]) == ascii_lower(b[i])
}

/// `char::to_ascii_lowercase`.
pub fn to_ascii_lower(c: char) -> (r: char)
    ensures
        r == ascii_lower(c),
{
    if 'A' <= c && c <= 'Z' {
        let n = (c as u32) + 32;
        assert(0x61 <= n <= 0x7a);
        proof {
            assert(n < 0xD800);
        }
        char_from_ascii(n)
    } else {
        c
    }
}

/// The character with a given ASCII code.
fn char_from_ascii(n: u32) -> (c: char)
    requires
        n < 0x80,
    ensures
        c == n as char,
{
    let b = n as u8;
    b as char
}

/// `str::eq_ignore_ascii_case` on character vectors.
pub fn chars_eq_ignore_ascii_case(a: &Vec<char>, b: &Vec<char>) -> (r: bool)
    ensures
        r == eq_ignore_ascii_case(a@, b@),
{
    if a.len() != b.len() {
        return false;
    }
    let mut i: usize = 0;
    while i < a.len()
        invariant
            a.len() == b.len(),
            i <= a.len(),
            forall|j: int| 0 <= j < i ==> ascii_lower(a@[j]) == ascii_lower(b@[j]),
        decreases a.len() - i,
    {
        if to_ascii_lower(a[i]) != to_ascii_lower(b[i]) {
            return false;
        }
        i = i + 1;
    }
    true
}

/// Whether `c` is ASCII punctuation (`char::is_ascii_punctuation`): the four
/// ranges U+0021–U+002F, U+003A–U+0040, U+005B–U+0060, U+007B–U+007E.
pub open spec fn is_ascii_punct(c: char) -> bool {
    ('!' <= c && c <= '/') || (':' <= c && c <= '@') || ('[' <= c && c <= '`') || ('{' <= c
        && c <= '~')
}

/// `char::is_ascii_punctuation`.
pub fn is_ascii_punctuation(c: char) -> (r: bool)
    ensures
        r == is_ascii_punct(c),
{
    ('!' <= c && c <= '/') || (':' <= c && c <= '@') || ('[' <= c && c <= '`') || ('{' <= c
        && c <= '~')
}

// ───────────────────────── lists of strings ───────────────────────────────

/// The character sequences of a list of strings.
pub open spec fn strings_view(v: Seq<String>) -> Seq<Seq<char>> {
    v.map_values(|s: String| s@)
}

/// Whether two strings hold the same characters.
pub fn str_eq(a: &str, b: &str) -> (r: bool)
    ensures
        r == (a@ == b@),
{
    chars_eq(&chars_of(a), &chars_of(b))
}

/// Whether the list holds a string equal to `s`.
pub fn contains_string(v: &Vec<String>, s: &str) -> (r: bool)
    ensures
        r == strings_view(v@).contains(s@),
{
    let mut i: usize = 0;
    while i < v.len()
        invariant
            i <= v.len(),
            forall|j: int| 0 <= j < i ==> strings_view(v@)[j] != s@,
        decreases v.len() - i,
    {
        if str_eq(v[i].as_str(), s) {
            assert(strings_view(v@)[i as int] == s@);
            return true;
        }
        i = i + 1;
    }
    false
}

/// The strings joined with `sep` (`[String]::join`).
pub fn join_strings(v: &Vec<String>, sep: &str) -> (r: Vec<char>)
    ensures
        r@ == join_seqs(strings_view(v@), sep@),
{
    let mut parts: Vec<Vec<char>> = Vec::new();
    let mut i: usize = 0;
    while i < v.len()
        invariant
            i <= v@.len(),
            vviews(parts@) == strings_view(v@).take(i as int),
        decreases v@.len() - i,
    {
        let ghost before = vviews(parts@);
        parts.push(chars_of(v[i].as_str()));
        assert(vviews(parts@) =~= before.push(v@[i as int]@));
        assert(strings_view(v@).take(i + 1) =~= strings_view(v@).take(i as int).push(v@[i as int]@));
        i = i + 1;
    }
    assert(strings_view(v@).take(v@.len() as int) =~= strings_view(v@));
    join(&parts, &chars_of(sep))
}

/// Appends a line made of the given characters.
pub fn push_line(lines: &mut Vec<String>, l: &Vec<char>)
    ensures
        strings_view(final(lines)@) == strings_view(old(lines)@).push(l@),
{
    let s = string_of(l);
    lines.push(s);
    assert(strings_view(lines@) =~= strings_view(old(lines)@).push(l@));
}

/// Appends a line holding the given text.
pub fn push_text_line(lines: &mut Vec<String>, t: &str)
    ensures
        strings_view(final(lines)@) == strings_view(old(lines)@).push(t@),
{
    push_line(lines, &chars_of(t));
}

/// Each word once, at its first occurrence.
pub open spec fn distinct(ws: Seq<Seq<char>>) -> Seq<Seq<char>>
    decreases ws.len(),
{
    if ws.len() == 0 {
        seq![]
    } else {
        let d = distinct(ws.drop_last());
        if d.contains(ws.last()) {
            d
        } else {
            d.push(ws.last())
        }
    }
}

/// `distinct` keeps exactly the words of the list, each once.
pub proof fn lemma_distinct(ws: Seq<Seq<char>>)
    ensures
        distinct(ws).no_duplicates(),
        forall|w: Seq<char>| distinct(ws).contains(w) <==> ws.contains(w),
        distinct(ws).len() <= ws.len(),
    decreases ws.len(),
{
    if ws.len() > 0 {
        let init = ws.drop_last();
        lemma_distinct(init);
        let d = distinct(init);
        assert forall|w: Seq<char>| distinct(ws).contains(w) <==> ws.contains(w) by {
            if ws.contains(w) {
                let k = choose|k: int| 0 <= k < ws.len() && ws[k] == w;
                if k < ws.len() - 1 {
                    assert(init[k] == w);
                }
            }
            if init.contains(w) {
                let k = choose|k: int| 0 <= k < init.len() && init[k] == w;
                assert(ws[k] == w);
            }
            if d.push(ws.last()).contains(w) && !d.contains(w) {
                assert(w == ws.last());
                assert(ws[ws.len() - 1] == w);
            }
            if w == ws.last() {
                assert(d.push(ws.last())[d.len() as int] == w);
            }
            if d.contains(w) {
                let k = choose|k: int| 0 <= k < d.len() && d[k] == w;
                assert(d.push(ws.last())[k] == w);
            }
        }
    }
}

/// Each character vector once, at its first occurrence.
pub fn distinct_chars(v: &Vec<Vec<char>>) -> (r: Vec<Vec<char>>)
    ensures
        vviews(r@) == distinct(vviews(v@)),
{
    let mut r: Vec<Vec<char>> = Vec::new();
    let mut i: usize = 0;
    while i < v.len()
        invariant
            i <= v@.len(),
            vviews(r@) == distinct(vviews(v@).take(i as int)),
        decreases v@.len() - i,
    {
        assert(vviews(v@).take(i + 1).drop_last() =~= vviews(v@).take(i as int));
        assert(vviews(v@).take(i + 1).last() == v@[i as int]@);
        let mut found = false;
        let mut j: usize = 0;
        while j < r.len()
            invariant
                j <= r@.len(),
                i < v@.len(),
                found == exists|k: int| 0 <= k < j && vviews(r@)[k] == v@[i as int]@,
            decreases r@.len() - j,
        {
            let same = chars_eq(&r[j], &v[i]);
            assert(vviews(r@)[j as int] == r@[j as int]@);
            if same {
                found = true;
            }
            assert(found == exists|k: int| 0 <= k < j + 1 && vviews(r@)[k] == v@[i as int]@);
            j = j + 1;
        }
        if !found {
            let ghost before = vviews(r@);
            let x = subvec(&v[i], 0, v[i].len());
            assert(x@ =~= v@[i as int]@);
            r.push(x);
            assert(vviews(r@) =~= before.push(v@[i as int]@));
        }
        i = i + 1;
    }
    assert(vviews(v@).take(v@.len() as int) =~= vviews(v@));
    r
}

// ───────────────────────── padding ────────────────────────────────────────

/// `n` spaces.
pub open spec fn spaces(n: nat) -> Seq<char> {
    Seq::new(n, |i: int| ' ')
}

/// `s` padded with spaces on the right to at least `w` characters (what
/// `{:<w}` formats a string as).
pub open spec fn pad_right(s: Seq<char>, w: nat) -> Seq<char> {
    if s.len() >= w {
        s
    } else {
        s + spaces((w - s.len()) as nat)
    }
}

/// Appends `s` padded with spaces to at least `w` characters.
pub fn push_padded(v: &mut Vec<char>, s: &Vec<char>, w: usize)
    ensures
        final(v)@ == old(v)@ + pad_right(s@, w as nat),
{
    push_all(v, s);
    let ghost mid = v@;
    let mut n: usize = s.len();
    while n < w
        invariant
            s@.len() <= n <= w || (n == s@.len() && n >= w),
            v@ == mid + spaces((n - s@.len()) as nat),
        decreases w - n,
    {
        v.push(' ');
        assert(spaces((n + 1 - s@.len()) as nat) =~= spaces((n - s@.len()) as nat).push(' '));
        n = n + 1;
    }
    assert(spaces(0) =~= Seq::<char>::empty());
    if s.len() >= w {
        assert(v@ =~= mid);
    }
}

} // verus!
