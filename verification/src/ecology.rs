//! `language ecology`: which places and characters speak which languages,
//! the contact areas the languages share, and the SVG atlas of those areas.
use vstd::prelude::*;
use crate::entry::{decimal, decimal_digits};
use crate::export::sort_chars;
use crate::text::{
    chars_eq, chars_eq_ignore_ascii_case, chars_of, distinct_chars, eq_ignore_ascii_case, join,
    join_seqs, pad_right, push_all, push_line, push_padded, push_str, replace, replace_char,
    string_of, strings_view, vviews,
};
use crate::typst_doc::group_order;

verus! {

/// A place and the languages spoken there.
pub struct PlaceLink {
    pub place: String,
    /// The main language.
    pub primary: Option<String>,
    /// The variety of the main language spoken there.
    pub variety: Option<String>,
    /// Other languages spoken there.
    pub secondary: Vec<String>,
}

/// A language a character speaks, and how well.
pub struct Proficiency {
    pub language: String,
    pub level: String,
}

/// A character and the languages they speak.
pub struct CharacterLink {
    pub character: String,
    pub languages: Vec<Proficiency>,
    pub native_variety: Option<String>,
}

/// A contact area and its member languages.
pub struct ContactArea {
    pub region: String,
    pub members: Vec<String>,
}

// ───────────────────────── contact areas ──────────────────────────────────

/// The area a language's contact block places it in.
pub open spec fn area_key(region: Seq<char>) -> Seq<char> {
    if region.len() == 0 {
        "(unnamed area)"@
    } else {
        region
    }
}

/// The titles of the first `n` books whose area is `k`, in order.
pub open spec fn area_members(books: Seq<(String, String)>, k: Seq<char>, n: int) -> Seq<Seq<char>>
    decreases n,
{
    if n <= 0 {
        seq![]
    } else {
        area_members(books, k, n - 1) + if area_key(books[n - 1].1@) == k {
            seq![books[n - 1].0@]
        } else {
            Seq::<Seq<char>>::empty()
        }
    }
}

/// The areas of the books, in book order.
pub open spec fn area_keys(books: Seq<(String, String)>) -> Seq<Seq<char>> {
    books.map_values(|b: (String, String)| area_key(b.1@))
}

/// Groups the languages (title and contact region, for each book with a
/// contact block) into areas: areas ascending by name, a blank region
/// counted as `(unnamed area)`, members in book order.
pub fn contact_areas(books: &[(String, String)]) -> (r: Vec<ContactArea>)
    ensures
        r@.len() == group_order(area_keys(books@)).len(),
        forall|j: int|
            0 <= j < r@.len() ==> (#[trigger] r@[j]).region@ == group_order(area_keys(books@))[j]
                && strings_view(r@[j].members@) == area_members(
                books@,
                group_order(area_keys(books@))[j],
                books@.len() as int,
            ),
{
    let mut keys: Vec<Vec<char>> = Vec::new();
    let mut i: usize = 0;
    while i < books.len()
        invariant
            i <= books@.len(),
            vviews(keys@) == area_keys(books@.take(i as int)),
        decreases books@.len() - i,
    {
        let reg = chars_of(books[i].1.as_str());
        let k = if reg.len() == 0 {
            chars_of("(unnamed area)")
        } else {
            reg
        };
        let ghost before = vviews(keys@);
        let ghost kv = k@;
        keys.push(k);
        assert(vviews(keys@) =~= before.push(kv));
        assert(books@.take(i + 1) =~= books@.take(i as int).push(books@[i as int]));
        assert(area_keys(books@.take(i + 1)) =~= area_keys(books@.take(i as int)).push(kv));
        i = i + 1;
    }
    assert(books@.take(books@.len() as int) =~= books@);
    assert(keys@.len() == vviews(keys@).len());
    let order = sort_chars(&distinct_chars(&keys));
    let mut out: Vec<ContactArea> = Vec::new();
    let mut j: usize = 0;
    while j < order.len()
        invariant
            j <= order@.len(),
            vviews(order@) == group_order(area_keys(books@)),
            keys@.len() == books@.len(),
            vviews(keys@) == area_keys(books@),
            out@.len() == j,
            forall|t: int|
                0 <= t < j ==> (#[trigger] out@[t]).region@ == vviews(order@)[t] && strings_view(
                    out@[t].members@,
                ) == area_members(books@, vviews(order@)[t], books@.len() as int),
        decreases order@.len() - j,
    {
        let mut members: Vec<String> = Vec::new();
        let mut b: usize = 0;
        while b < books.len()
            invariant
                b <= books@.len(),
                j < order@.len(),
                keys@.len() == books@.len(),
                vviews(keys@) == area_keys(books@),
                strings_view(members@) == area_members(books@, order@[j as int]@, b as int),
            decreases books@.len() - b,
        {
            assert(vviews(keys@)[b as int] == area_key(books@[b as int].1@));
            if chars_eq(&keys[b], &order[j]) {
                let ghost before = strings_view(members@);
                members.push(string_of(&chars_of(books[b].0.as_str())));
                assert(strings_view(members@) =~= before.push(books@[b as int].0@));
            }
            b = b + 1;
        }
        assert(vviews(order@)[j as int] == order@[j as int]@);
        out.push(ContactArea { region: string_of(&order[j]), members });
        j = j + 1;
    }
    out
}

// ───────────────────────── the text report ────────────────────────────────

/// The languages of a place, as listed: the main one (or `—`), its variety,
/// then the secondary ones.
pub open spec fn place_line(p: PlaceLink) -> Seq<char> {
    "  "@ + pad_right(p.place@, 16) + " "@ + (match p.primary {
        Some(l) => l@,
        None => "—"@,
    }) + (match p.variety {
        Some(v) => " · "@ + v@,
        None => Seq::<char>::empty(),
    }) + if p.secondary@.len() > 0 {
        "  (also "@ + join_seqs(strings_view(p.secondary@), ", "@) + ")"@
    } else {
        Seq::<char>::empty()
    }
}

/// A proficiency as `language (level)`.
pub open spec fn proficiency_text(p: Proficiency) -> Seq<char> {
    p.language@ + " ("@ + p.level@ + ")"@
}

/// The languages of a character, as listed.
pub open spec fn character_line(c: CharacterLink) -> Seq<char> {
    "  "@ + pad_right(c.character@, 16) + " "@ + join_seqs(
        c.languages@.map_values(|p: Proficiency| proficiency_text(p)),
        ", "@,
    ) + match c.native_variety {
        Some(v) => " · native "@ + v@,
        None => Seq::<char>::empty(),
    }
}

/// An area with its members.
pub open spec fn area_line(a: ContactArea) -> Seq<char> {
    "  "@ + a.region@ + " — "@ + join_seqs(strings_view(a.members@), ", "@)
}

/// The report: a hint when nothing is linked; otherwise the places, the
/// characters and the contact areas, each section only when it has lines.
pub open spec fn ecology_lines(
    places: Seq<PlaceLink>,
    characters: Seq<CharacterLink>,
    areas: Seq<ContactArea>,
) -> Seq<Seq<char>> {
    if places.len() == 0 && characters.len() == 0 && areas.len() == 0 {
        seq![
            "no speech-community links yet — use `link-place` / `link-character` (with --variety)."@,
        ]
    } else {
        (if places.len() > 0 {
            seq!["Places:"@] + places.map_values(|p: PlaceLink| place_line(p))
        } else {
            Seq::<Seq<char>>::empty()
        }) + (if characters.len() > 0 {
            seq!["\nCharacters:"@] + characters.map_values(|c: CharacterLink| character_line(c))
        } else {
            Seq::<Seq<char>>::empty()
        }) + if areas.len() > 0 {
            seq!["\nContact areas:"@] + areas.map_values(|a: ContactArea| area_line(a))
        } else {
            Seq::<Seq<char>>::empty()
        }
    }
}

/// The character vectors of a list of strings.
fn char_vecs(v: &Vec<String>) -> (r: Vec<Vec<char>>)
    ensures
        vviews(r@) == strings_view(v@),
{
    let mut r: Vec<Vec<char>> = Vec::new();
    let mut i: usize = 0;
    while i < v.len()
        invariant
            i <= v@.len(),
            vviews(r@) == strings_view(v@).take(i as int),
        decreases v@.len() - i,
    {
        let ghost before = vviews(r@);
        r.push(chars_of(v[i].as_str()));
        assert(vviews(r@) =~= before.push(v@[i as int]@));
        assert(strings_view(v@).take(i + 1) =~= strings_view(v@).take(i as int).push(v@[i as int]@));
        i = i + 1;
    }
    assert(strings_view(v@).take(v@.len() as int) =~= strings_view(v@));
    r
}

/// Joins strings with `, `.
fn comma_join(v: &Vec<String>) -> (r: Vec<char>)
    ensures
        r@ == join_seqs(strings_view(v@), ", "@),
{
    let mut sep: Vec<char> = Vec::new();
    push_str(&mut sep, ", ");
    join(&char_vecs(v), &sep)
}

/// One place's line.
fn place_line_chars(p: &PlaceLink) -> (r: Vec<char>)
    ensures
        r@ == place_line(*p),
{
    let mut r = chars_of("  ");
    push_padded(&mut r, &chars_of(p.place.as_str()), 16);
    push_str(&mut r, " ");
    let mut a: Vec<char> = Vec::new();
    match &p.primary {
        Some(l) => push_str(&mut a, l.as_str()),
        None => push_str(&mut a, "—"),
    }
    push_all(&mut r, &a);
    let mut b: Vec<char> = Vec::new();
    match &p.variety {
        Some(v) => {
            push_str(&mut b, " · ");
            push_str(&mut b, v.as_str());
        },
        None => {},
    }
    push_all(&mut r, &b);
    let mut c: Vec<char> = Vec::new();
    if p.secondary.len() > 0 {
        push_str(&mut c, "  (also ");
        push_all(&mut c, &comma_join(&p.secondary));
        push_str(&mut c, ")");
    }
    push_all(&mut r, &c);
    r
}

/// One character's line.
fn character_line_chars(c: &CharacterLink) -> (r: Vec<char>)
    ensures
        r@ == character_line(*c),
{
    let mut parts: Vec<Vec<char>> = Vec::new();
    let mut i: usize = 0;
    while i < c.languages.len()
        invariant
            i <= c.languages@.len(),
            vviews(parts@) == c.languages@.take(i as int).map_values(|p: Proficiency| proficiency_text(p)),
        decreases c.languages@.len() - i,
    {
        let mut t = chars_of(c.languages[i].language.as_str());
        push_str(&mut t, " (");
        push_str(&mut t, c.languages[i].level.as_str());
        push_str(&mut t, ")");
        let ghost before = vviews(parts@);
        let ghost tv = t@;
        parts.push(t);
        assert(vviews(parts@) =~= before.push(tv));
        assert(c.languages@.take(i + 1).map_values(|p: Proficiency| proficiency_text(p))
            =~= c.languages@.take(i as int).map_values(|p: Proficiency| proficiency_text(p)).push(tv));
        i = i + 1;
    }
    assert(c.languages@.take(c.languages@.len() as int) =~= c.languages@);
    let mut sep: Vec<char> = Vec::new();
    push_str(&mut sep, ", ");
    let mut r = chars_of("  ");
    push_padded(&mut r, &chars_of(c.character.as_str()), 16);
    push_str(&mut r, " ");
    push_all(&mut r, &join(&parts, &sep));
    let mut n: Vec<char> = Vec::new();
    match &c.native_variety {
        Some(v) => {
            push_str(&mut n, " · native ");
            push_str(&mut n, v.as_str());
        },
        None => {},
    }
    push_all(&mut r, &n);
    r
}

/// The lines of `language ecology` without `--svg`.
pub fn ecology_report(places: &Vec<PlaceLink>, characters: &Vec<CharacterLink>, areas: &Vec<ContactArea>) -> (r: Vec<String>)
    ensures
        strings_view(r@) == ecology_lines(places@, characters@, areas@),
{
    let mut out: Vec<String> = Vec::new();
    if places.len() == 0 && characters.len() == 0 && areas.len() == 0 {
        push_line(
            &mut out,
            &chars_of("no speech-community links yet — use `link-place` / `link-character` (with --variety)."),
        );
        return out;
    }
    if places.len() > 0 {
        push_line(&mut out, &chars_of("Places:"));
        let ghost start = strings_view(out@);
        let mut i: usize = 0;
        while i < places.len()
            invariant
                i <= places@.len(),
                strings_view(out@) == start + places@.take(i as int).map_values(|p: PlaceLink| place_line(p)),
            decreases places@.len() - i,
        {
            push_line(&mut out, &place_line_chars(&places[i]));
            assert(places@.take(i + 1).map_values(|p: PlaceLink| place_line(p)) =~= places@.take(
                i as int,
            ).map_values(|p: PlaceLink| place_line(p)).push(place_line(places@[i as int])));
            i = i + 1;
        }
        assert(places@.take(places@.len() as int) =~= places@);
    }
    let ghost s1 = strings_view(out@);
    if characters.len() > 0 {
        push_line(&mut out, &chars_of("\nCharacters:"));
        let ghost start = strings_view(out@);
        let mut i: usize = 0;
        while i < characters.len()
            invariant
                i <= characters@.len(),
                strings_view(out@) == start + characters@.take(i as int).map_values(
                    |c: CharacterLink| character_line(c),
                ),
            decreases characters@.len() - i,
        {
            push_line(&mut out, &character_line_chars(&characters[i]));
            assert(characters@.take(i + 1).map_values(|c: CharacterLink| character_line(c))
                =~= characters@.take(i as int).map_values(|c: CharacterLink| character_line(c)).push(
                character_line(characters@[i as int]),
            ));
            i = i + 1;
        }
        assert(characters@.take(characters@.len() as int) =~= characters@);
    }
    let ghost s2 = strings_view(out@);
    if areas.len() > 0 {
        push_line(&mut out, &chars_of("\nContact areas:"));
        let ghost start = strings_view(out@);
        let mut i: usize = 0;
        while i < areas.len()
            invariant
                i <= areas@.len(),
                strings_view(out@) == start + areas@.take(i as int).map_values(|a: ContactArea| area_line(a)),
            decreases areas@.len() - i,
        {
            let mut l = chars_of("  ");
            push_str(&mut l, areas[i].region.as_str());
            push_str(&mut l, " — ");
            push_all(&mut l, &comma_join(&areas[i].members));
            push_line(&mut out, &l);
            assert(areas@.take(i + 1).map_values(|a: ContactArea| area_line(a)) =~= areas@.take(
                i as int,
            ).map_values(|a: ContactArea| area_line(a)).push(area_line(areas@[i as int])));
            i = i + 1;
        }
        assert(areas@.take(areas@.len() as int) =~= areas@);
    }
    assert(strings_view(out@) =~= ecology_lines(places@, characters@, areas@));
    out
}

// ───────────────────────── the SVG atlas ──────────────────────────────────

/// Text escaped for SVG: `&`, `<` and `>` as entities.
pub open spec fn svg_escaped(s: Seq<char>) -> Seq<char> {
    replace_char(replace_char(replace_char(s, '&', "&amp;"@), '<', "&lt;"@), '>', "&gt;"@)
}

/// Escapes text for SVG.
fn svg_escape(v: &Vec<char>) -> (r: Vec<char>)
    ensures
        r@ == svg_escaped(v@),
{
    let a = replace(v, '&', &chars_of("&amp;"));
    let b = replace(&a, '<', &chars_of("&lt;"));
    replace(&b, '>', &chars_of("&gt;"))
}

/// Where a language is spoken as a main language: the places (with their
/// variety in parentheses) whose main language matches, ASCII case ignored.
pub open spec fn spoken_at(places: Seq<PlaceLink>, m: Seq<char>) -> Seq<Seq<char>>
    decreases places.len(),
{
    if places.len() == 0 {
        seq![]
    } else {
        let p = places.last();
        spoken_at(places.drop_last(), m) + match p.primary {
            Some(l) => if eq_ignore_ascii_case(l@, m) {
                seq![
                    match p.variety {
                        Some(v) => p.place@ + " ("@ + v@ + ")"@,
                        None => p.place@,
                    },
                ]
            } else {
                Seq::<Seq<char>>::empty()
            },
            None => Seq::<Seq<char>>::empty(),
        }
    }
}

/// A member language's line in an area box, at height `ly`.
pub open spec fn member_svg(places: Seq<PlaceLink>, m: Seq<char>, ly: nat) -> Seq<char> {
    let w = spoken_at(places, m);
    "<text x='58' y='"@ + decimal(ly) + "' font-family='sans-serif' font-size='13'>• "@ + svg_escaped(m)
        + svg_escaped(
        if w.len() > 0 {
            "  —  "@ + join_seqs(w, ", "@)
        } else {
            Seq::<char>::empty()
        },
    ) + "</text>\n"@
}

/// The member lines of an area whose box starts at `y`.
pub open spec fn members_svg(places: Seq<PlaceLink>, ms: Seq<Seq<char>>, y: nat) -> Seq<char>
    decreases ms.len(),
{
    if ms.len() == 0 {
        seq![]
    } else {
        members_svg(places, ms.drop_last(), y) + member_svg(
            places,
            ms.last(),
            (y + 42 + 22 * (ms.len() - 1)) as nat,
        )
    }
}

/// The height of an area's box.
pub open spec fn box_height(a: ContactArea) -> nat {
    30 + 22 * a.members@.len()
}

/// The vertical space the areas take, boxes and gaps.
pub open spec fn areas_height(areas: Seq<ContactArea>) -> nat
    decreases areas.len(),
{
    if areas.len() == 0 {
        0
    } else {
        areas_height(areas.drop_last()) + box_height(areas.last()) + 20
    }
}

/// One area's box, label and members, with its top at `y`.
pub open spec fn area_svg(places: Seq<PlaceLink>, a: ContactArea, y: nat) -> Seq<char> {
    "<rect x='30' y='"@ + decimal(y) + "' width='660' height='"@ + decimal(box_height(a))
        + "' rx='8' fill='#eef3f7' stroke='#2f5d7a'/>\n"@ + "<text x='44' y='"@ + decimal(y + 20)
        + "' font-family='sans-serif' font-size='14' font-weight='bold' fill='#2f5d7a'>"@
        + svg_escaped(a.region@) + "</text>\n"@ + members_svg(places, strings_view(a.members@), y)
}

/// The area boxes, stacked from height 70 down.
pub open spec fn areas_svg(places: Seq<PlaceLink>, areas: Seq<ContactArea>) -> Seq<char>
    decreases areas.len(),
{
    if areas.len() == 0 {
        seq![]
    } else {
        areas_svg(places, areas.drop_last()) + area_svg(
            places,
            areas.last(),
            70 + areas_height(areas.drop_last()),
        )
    }
}

/// The atlas: a titled sheet 720 wide with one box per contact area.
pub open spec fn atlas_text(places: Seq<PlaceLink>, areas: Seq<ContactArea>) -> Seq<char> {
    let total = 90 + areas_height(areas);
    "<svg xmlns='http://www.w3.org/2000/svg' viewBox='0 0 720 "@ + decimal(total) + "' width='720' height='"@
        + decimal(total) + "'>\n<rect width='720' height='"@ + decimal(total)
        + "' fill='#fdfaf3'/>\n"@
        + "<text x='360' y='40' font-family='sans-serif' font-size='22' font-weight='bold' text-anchor='middle'>Language Ecology</text>\n"@
        + areas_svg(places, areas) + "</svg>\n"@
}

/// The places where a language is a main language.
fn spoken_at_exec(places: &Vec<PlaceLink>, m: &Vec<char>) -> (r: Vec<Vec<char>>)
    ensures
        vviews(r@) == spoken_at(places@, m@),
{
    let mut r: Vec<Vec<char>> = Vec::new();
    let mut i: usize = 0;
    while i < places.len()
        invariant
            i <= places@.len(),
            vviews(r@) == spoken_at(places@.take(i as int), m@),
        decreases places@.len() - i,
    {
        let p = &places[i];
        assert(places@.take(i + 1).drop_last() =~= places@.take(i as int));
        assert(places@.take(i + 1).last() == places@[i as int]);
        match &p.primary {
            Some(l) => {
                if chars_eq_ignore_ascii_case(&chars_of(l.as_str()), m) {
                    let mut t = chars_of(p.place.as_str());
                    match &p.variety {
                        Some(v) => {
                            push_str(&mut t, " (");
                            push_str(&mut t, v.as_str());
                            push_str(&mut t, ")");
                        },
                        None => {},
                    }
                    let ghost before = vviews(r@);
                    let ghost tv = t@;
                    r.push(t);
                    assert(vviews(r@) =~= before.push(tv));
                }
            },
            None => {},
        }
        i = i + 1;
    }
    assert(places@.take(places@.len() as int) =~= places@);
    r
}

/// Appends the decimal digits of `n`.
fn push_number(v: &mut Vec<char>, n: usize)
    ensures
        final(v)@ == old(v)@ + decimal(n as nat),
{
    push_all(v, &decimal_digits(n));
}

/// The vertical space stays within `i32` (the atlas' coordinate type).
pub open spec fn atlas_fits(areas: Seq<ContactArea>) -> bool {
    90 + areas_height(areas) <= i32::MAX
}

/// The height of the first areas never exceeds that of all of them.
proof fn lemma_areas_height_prefix(areas: Seq<ContactArea>, i: int)
    requires
        0 <= i <= areas.len(),
    ensures
        areas_height(areas.take(i)) <= areas_height(areas),
    decreases areas.len() - i,
{
    if i < areas.len() {
        lemma_areas_height_prefix(areas, i + 1);
        assert(areas.take(i + 1).drop_last() =~= areas.take(i));
    } else {
        assert(areas.take(i) =~= areas);
    }
}

/// Appends one member language's line.
fn push_member_svg(body: &mut Vec<char>, places: &Vec<PlaceLink>, m: &Vec<char>, ly: usize)
    ensures
        final(body)@ == old(body)@ + member_svg(places@, m@, ly as nat),
{
    let w = spoken_at_exec(places, m);
    let mut sfx: Vec<char> = Vec::new();
    if w.len() > 0 {
        push_str(&mut sfx, "  —  ");
        let mut sep: Vec<char> = Vec::new();
        push_str(&mut sep, ", ");
        push_all(&mut sfx, &join(&w, &sep));
    }
    push_str(body, "<text x='58' y='");
    push_number(body, ly);
    push_str(body, "' font-family='sans-serif' font-size='13'>• ");
    push_all(body, &svg_escape(m));
    push_all(body, &svg_escape(&sfx));
    push_str(body, "</text>\n");
}

/// Appends one area's box, label and members, its top at `y`.
fn push_area_svg(body: &mut Vec<char>, places: &Vec<PlaceLink>, a: &ContactArea, y: usize)
    requires
        y + box_height(*a) + 20 <= i32::MAX,
    ensures
        final(body)@ == old(body)@ + area_svg(places@, *a, y as nat),
{
    let n = a.members.len();
    let h = 30 + 22 * n;
    push_str(body, "<rect x='30' y='");
    push_number(body, y);
    push_str(body, "' width='660' height='");
    push_number(body, h);
    push_str(body, "' rx='8' fill='#eef3f7' stroke='#2f5d7a'/>\n");
    push_str(body, "<text x='44' y='");
    push_number(body, y + 20);
    push_str(body, "' font-family='sans-serif' font-size='14' font-weight='bold' fill='#2f5d7a'>");
    push_all(body, &svg_escape(&chars_of(a.region.as_str())));
    push_str(body, "</text>\n");
    let ghost head = body@;
    let ghost ms = strings_view(a.members@);
    let mut k: usize = 0;
    while k < n
        invariant
            k <= n,
            n == a.members@.len(),
            ms == strings_view(a.members@),
            y + 42 + 22 * n <= i32::MAX,
            body@ == head + members_svg(places@, ms.take(k as int), y as nat),
        decreases n - k,
    {
        let m = chars_of(a.members[k].as_str());
        push_member_svg(body, places, &m, y + 42 + 22 * k);
        assert(ms.take(k + 1).drop_last() =~= ms.take(k as int));
        assert(ms.take(k + 1).last() == a.members@[k as int]@);
        k = k + 1;
    }
    assert(ms.take(n as int) =~= ms);
}

/// The SVG atlas of the contact areas: one box per area listing its member
/// languages and where each is spoken.
pub fn ecology_svg(places: &Vec<PlaceLink>, areas: &Vec<ContactArea>) -> (r: String)
    requires
        atlas_fits(areas@),
    ensures
        r@ == atlas_text(places@, areas@),
{
    let mut body: Vec<char> = Vec::new();
    let mut y: usize = 70;
    let mut i: usize = 0;
    while i < areas.len()
        invariant
            i <= areas@.len(),
            atlas_fits(areas@),
            y == 70 + areas_height(areas@.take(i as int)),
            body@ == areas_svg(places@, areas@.take(i as int)),
        decreases areas@.len() - i,
    {
        proof {
            lemma_areas_height_prefix(areas@, i + 1);
            assert(areas@.take(i + 1).drop_last() =~= areas@.take(i as int));
            assert(areas@.take(i + 1).last() == areas@[i as int]);
        }
        push_area_svg(&mut body, places, &areas[i], y);
        y = y + 30 + 22 * areas[i].members.len() + 20;
        i = i + 1;
    }
    assert(areas@.take(areas@.len() as int) =~= areas@);
    let total = y + 20;
    let mut out = chars_of("<svg xmlns='http://www.w3.org/2000/svg' viewBox='0 0 720 ");
    push_number(&mut out, total);
    push_str(&mut out, "' width='720' height='");
    push_number(&mut out, total);
    push_str(&mut out, "'>\n<rect width='720' height='");
    push_number(&mut out, total);
    push_str(&mut out, "' fill='#fdfaf3'/>\n");
    push_str(
        &mut out,
        "<text x='360' y='40' font-family='sans-serif' font-size='22' font-weight='bold' text-anchor='middle'>Language Ecology</text>\n",
    );
    push_all(&mut out, &body);
    push_str(&mut out, "</svg>\n");
    string_of(&out)
}

// ───────────────────────── linking ────────────────────────────────────────

/// The name a link records: the canonical title the system book resolved
/// the requested name to, else the name as requested.
pub open spec fn linked_name(requested: Seq<char>, canonical: Option<String>) -> Seq<char> {
    match canonical {
        Some(c) => c@,
        None => requested,
    }
}

/// The note when the system book holds no such entry.
pub open spec fn unresolved_note(kind: Seq<char>, requested: Seq<char>, canonical: Option<String>) -> Seq<Seq<char>> {
    match canonical {
        Some(_) => Seq::<Seq<char>>::empty(),
        None => seq!["note: no "@ + kind + " named `"@ + requested + "` found — recording the link anyway"@],
    }
}

/// Links a place to a language: the name recorded and the lines reported.
pub fn place_link(place: &str, canonical: Option<String>, language: &str, secondary: bool, variety: Option<&str>) -> (r: (
    String,
    Vec<String>,
))
    ensures
        r.0@ == linked_name(place@, canonical),
        strings_view(r.1@) == unresolved_note("Place"@, place@, canonical) + seq![
            linked_name(place@, canonical) + if secondary {
                " → secondary language "@
            } else {
                " → primary language "@
            } + language@,
        ] + match variety {
            Some(v) => seq![linked_name(place@, canonical) + " speaks the "@ + v@ + " variety"@],
            None => Seq::<Seq<char>>::empty(),
        },
{
    let mut lines: Vec<String> = Vec::new();
    let name = match &canonical {
        Some(c) => c.clone(),
        None => {
            let mut m = chars_of("note: no ");
            push_str(&mut m, "Place");
            push_str(&mut m, " named `");
            push_str(&mut m, place);
            push_str(&mut m, "` found — recording the link anyway");
            crate::text::push_line(&mut lines, &m);
            string_of(&chars_of(place))
        },
    };
    assert(name@ == linked_name(place@, canonical));
    assert(strings_view(lines@) =~= unresolved_note("Place"@, place@, canonical));
    let mut l = chars_of(name.as_str());
    if secondary {
        push_str(&mut l, " → secondary language ");
    } else {
        push_str(&mut l, " → primary language ");
    }
    push_str(&mut l, language);
    crate::text::push_line(&mut lines, &l);
    match variety {
        Some(v) => {
            let mut t = chars_of(name.as_str());
            push_str(&mut t, " speaks the ");
            push_str(&mut t, v);
            push_str(&mut t, " variety");
            crate::text::push_line(&mut lines, &t);
        },
        None => {},
    }
    assert(strings_view(lines@) =~= unresolved_note("Place"@, place@, canonical) + seq![
        linked_name(place@, canonical) + if secondary {
            " → secondary language "@
        } else {
            " → primary language "@
        } + language@,
    ] + match variety {
        Some(v) => seq![linked_name(place@, canonical) + " speaks the "@ + v@ + " variety"@],
        None => Seq::<Seq<char>>::empty(),
    });
    (name, lines)
}

/// Links a character to a language at a proficiency: the name recorded and
/// the lines reported.
pub fn character_link(
    character: &str,
    canonical: Option<String>,
    language: &str,
    level: &str,
    native_variety: Option<&str>,
) -> (r: (String, Vec<String>))
    ensures
        r.0@ == linked_name(character@, canonical),
        strings_view(r.1@) == unresolved_note("Character"@, character@, canonical) + seq![
            linked_name(character@, canonical) + " → "@ + language@ + " ("@ + level@ + ")"@ + match native_variety {
                Some(v) => ", native variety "@ + v@,
                None => Seq::<char>::empty(),
            },
        ],
{
    let mut lines: Vec<String> = Vec::new();
    let name = match &canonical {
        Some(c) => c.clone(),
        None => {
            let mut m = chars_of("note: no ");
            push_str(&mut m, "Character");
            push_str(&mut m, " named `");
            push_str(&mut m, character);
            push_str(&mut m, "` found — recording the link anyway");
            crate::text::push_line(&mut lines, &m);
            string_of(&chars_of(character))
        },
    };
    assert(name@ == linked_name(character@, canonical));
    assert(strings_view(lines@) =~= unresolved_note("Character"@, character@, canonical));
    let mut l = chars_of(name.as_str());
    push_str(&mut l, " → ");
    push_str(&mut l, language);
    push_str(&mut l, " (");
    push_str(&mut l, level);
    push_str(&mut l, ")");
    match native_variety {
        Some(v) => {
            push_str(&mut l, ", native variety ");
            push_str(&mut l, v);
        },
        None => {},
    }
    assert(l@ =~= linked_name(character@, canonical) + " → "@ + language@ + " ("@ + level@ + ")"@ + match native_variety {
        Some(v) => ", native variety "@ + v@,
        None => Seq::<char>::empty(),
    });
    crate::text::push_line(&mut lines, &l);
    assert(strings_view(lines@) =~= unresolved_note("Character"@, character@, canonical) + seq![
        linked_name(character@, canonical) + " → "@ + language@ + " ("@ + level@ + ")"@ + match native_variety {
            Some(v) => ", native variety "@ + v@,
            None => Seq::<char>::empty(),
        },
    ]);
    (name, lines)
}

} // verus!
