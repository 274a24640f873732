//! `language areal`: how a language's grammar stands against the areal
//! features of its contact area, and the regional view that merges the
//! features its members declare.
use vstd::prelude::*;
use crate::inflection::{keys_ascending, lemma_pairs_map_dom, pairs_map, Inflection};
use crate::text::{chars_of, join_seqs, join_strings, pad_right, push_all, push_padded, push_str, string_of, strings_view};

verus! {

/// How a language's value of an areal feature compares with the area's.
#[derive(PartialEq, Eq, Structural, Clone, Copy)]
pub enum ArealStatus {
    /// It already has the area's value.
    Converged,
    /// It has another value, which would shift.
    Shift,
    /// It leaves the feature unset, and would adopt the area's value.
    Adopt,
}

/// A feature of the area set against the language's grammar.
pub struct ArealConvergence {
    pub feature: String,
    /// The language's own value, if it sets the feature.
    pub current: Option<String>,
    pub areal_value: String,
    pub status: ArealStatus,
}

/// The mark a status is listed with.
pub open spec fn mark_of(s: ArealStatus) -> Seq<char> {
    match s {
        ArealStatus::Converged => "✓"@,
        ArealStatus::Shift => "→"@,
        ArealStatus::Adopt => "+"@,
    }
}

/// The mark of a status.
pub fn areal_mark(s: ArealStatus) -> (r: &'static str)
    ensures
        r@ == mark_of(s),
{
    match s {
        ArealStatus::Converged => "✓",
        ArealStatus::Shift => "→",
        ArealStatus::Adopt => "+",
    }
}

/// What a feature's line says of it.
pub open spec fn detail_of(c: ArealConvergence) -> Seq<char> {
    match c.status {
        ArealStatus::Converged => "already "@ + c.areal_value@,
        ArealStatus::Shift => "would shift "@ + (match c.current {
            Some(v) => v@,
            None => "?"@,
        }) + " → "@ + c.areal_value@,
        ArealStatus::Adopt => "would adopt "@ + c.areal_value@ + " (currently unset)"@,
    }
}

/// A feature's line in the per-language overlay: indented, the mark, the
/// feature padded to sixteen characters, and the detail.
pub fn areal_line(c: &ArealConvergence) -> (r: String)
    ensures
        r@ == "    "@ + mark_of(c.status) + " "@ + pad_right(c.feature@, 16) + " "@ + detail_of(*c),
{
    let mut m = chars_of("    ");
    push_str(&mut m, areal_mark(c.status));
    push_str(&mut m, " ");
    push_padded(&mut m, &chars_of(c.feature.as_str()), 16);
    push_str(&mut m, " ");
    match c.status {
        ArealStatus::Converged => {
            push_str(&mut m, "already ");
            push_str(&mut m, c.areal_value.as_str());
        },
        ArealStatus::Shift => {
            push_str(&mut m, "would shift ");
            match &c.current {
                Some(v) => push_str(&mut m, v.as_str()),
                None => push_str(&mut m, "?"),
            }
            push_str(&mut m, " → ");
            push_str(&mut m, c.areal_value.as_str());
        },
        ArealStatus::Adopt => {
            push_str(&mut m, "would adopt ");
            push_str(&mut m, c.areal_value.as_str());
            push_str(&mut m, " (currently unset)");
        },
    }
    string_of(&m)
}

/// The heading of a language's overlay: its contact area, `(unnamed area)`
/// when the region is blank.
pub fn contact_heading(language: &str, region: &str) -> (r: String)
    ensures
        r@ == language@ + " · contact: "@ + if region@.len() == 0 {
            "(unnamed area)"@
        } else {
            region@
        },
{
    let mut m = chars_of(language);
    push_str(&mut m, " · contact: ");
    if chars_of(region).len() == 0 {
        push_str(&mut m, "(unnamed area)");
    } else {
        push_str(&mut m, region);
    }
    string_of(&m)
}

/// The line naming the languages a language is in contact with.
pub fn contact_with_line(with: &Vec<String>) -> (r: String)
    ensures
        r@ == "  in contact with: "@ + join_seqs(strings_view(with@), ", "@),
{
    let mut m = chars_of("  in contact with: ");
    push_all(&mut m, &join_strings(with, ", "));
    string_of(&m)
}

/// The note for a language without a contact block.
pub fn no_contact_note(language: &str) -> (r: String)
    ensures
        r@ == language@
            + " declares no `contact` block — add `{ contact: { region, with, areal_features } }` to its Grammar chapter."@,
{
    let mut m = chars_of(language);
    push_str(
        &mut m,
        " declares no `contact` block — add `{ contact: { region, with, areal_features } }` to its Grammar chapter.",
    );
    string_of(&m)
}

/// The areal features of an area's members merged, the first member to
/// declare a feature setting its value.
pub open spec fn merged_features(ms: Seq<Map<Seq<char>, Seq<char>>>) -> Map<Seq<char>, Seq<char>>
    decreases ms.len(),
{
    if ms.len() == 0 {
        Map::empty()
    } else {
        ms.last().union_prefer_right(merged_features(ms.drop_last()))
    }
}

/// The feature maps of the members' declarations.
pub open spec fn feature_maps(fs: Seq<Inflection>) -> Seq<Map<Seq<char>, Seq<char>>> {
    fs.map_values(|f: Inflection| pairs_map(f.pairs()))
}

/// Merges the areal features the members of an area declare, in member
/// order: a feature keeps the value of the first member declaring it.
pub fn merge_areal_features(members: &Vec<Inflection>) -> (r: Inflection)
    ensures
        pairs_map(r.pairs()) == merged_features(feature_maps(members@)),
{
    let mut r = Inflection::new();
    let mut i: usize = 0;
    while i < members.len()
        invariant
            i <= members@.len(),
            pairs_map(r.pairs()) == merged_features(feature_maps(members@.take(i as int))),
        decreases members@.len() - i,
    {
        let f = &members[i];
        let ghost m = merged_features(feature_maps(members@.take(i as int)));
        let ghost p = f.pairs();
        let n = f.len();
        let mut j: usize = 0;
        while j < n
            invariant
                j <= n,
                n == p.len(),
                p == f.pairs(),
                keys_ascending(p),
                pairs_map(r.pairs()) == pairs_map(p.take(j as int)).union_prefer_right(m),
            decreases n - j,
        {
            let k = f.key_at(j);
            let v = f.value_at(j);
            assert(p.take(j + 1).drop_last() =~= p.take(j as int));
            assert(p.take(j + 1).last() == p[j as int]);
            if r.contains_key(k.as_str()) {
                proof {
                    lemma_pairs_map_dom(r.pairs(), k@);
                    if !m.contains_key(k@) {
                        lemma_pairs_map_dom(p.take(j as int), k@);
                        let t = choose|t: int| 0 <= t < j && p.take(j as int)[t].0 == k@;
                        assert(p[t].0 == k@);
                        crate::inflection::lemma_seq_lt_irreflexive(k@);
                        assert(false);
                    }
                }
                assert(pairs_map(r.pairs()) =~= pairs_map(p.take(j + 1)).union_prefer_right(m));
            } else {
                proof {
                    lemma_pairs_map_dom(r.pairs(), k@);
                }
                r.insert(k.clone(), v.clone());
                assert(pairs_map(r.pairs()) =~= pairs_map(p.take(j + 1)).union_prefer_right(m));
            }
            j = j + 1;
        }
        assert(p.take(n as int) =~= p);
        proof {
            let t = members@.take(i + 1);
            assert(t.drop_last() =~= members@.take(i as int));
            assert(feature_maps(t).drop_last() =~= feature_maps(members@.take(i as int)));
            assert(feature_maps(t).last() == pairs_map(f.pairs()));
        }
        i = i + 1;
    }
    assert(members@.take(members@.len() as int) =~= members@);
    r
}

/// The heading of an area in the regional view: its name and its members.
pub fn region_heading(region: &str, members: &Vec<String>) -> (r: String)
    ensures
        r@ == region@ + " — "@ + join_seqs(strings_view(members@), ", "@),
{
    let mut m = chars_of(region);
    push_str(&mut m, " — ");
    push_all(&mut m, &join_strings(members, ", "));
    string_of(&m)
}

/// A member's cell: its name and mark.
pub open spec fn cell_of(c: (String, ArealStatus)) -> Seq<char> {
    c.0@ + " "@ + mark_of(c.1)
}

/// A feature's line in the regional view: the feature, the area's value
/// padded to eighteen characters, then each member's cell.
pub fn region_feature_line(feature: &str, value: &str, cells: &Vec<(String, ArealStatus)>) -> (r: String)
    ensures
        r@ == "  "@ + feature@ + " = "@ + pad_right(value@, 18) + "  "@ + join_seqs(
            cells@.map_values(|c: (String, ArealStatus)| cell_of(c)),
            "  "@,
        ),
{
    let mut parts: Vec<String> = Vec::new();
    let mut i: usize = 0;
    while i < cells.len()
        invariant
            i <= cells@.len(),
            strings_view(parts@) == cells@.take(i as int).map_values(|c: (String, ArealStatus)| cell_of(c)),
        decreases cells@.len() - i,
    {
        let mut t = chars_of(cells[i].0.as_str());
        push_str(&mut t, " ");
        push_str(&mut t, areal_mark(cells[i].1));
        let ghost before = strings_view(parts@);
        crate::text::push_line(&mut parts, &t);
        assert(cells@.take(i + 1).map_values(|c: (String, ArealStatus)| cell_of(c)) =~= cells@.take(
            i as int,
        ).map_values(|c: (String, ArealStatus)| cell_of(c)).push(t@));
        i = i + 1;
    }
    assert(cells@.take(cells@.len() as int) =~= cells@);
    let mut m = chars_of("  ");
    push_str(&mut m, feature);
    push_str(&mut m, " = ");
    push_padded(&mut m, &chars_of(value), 18);
    push_str(&mut m, "  ");
    push_all(&mut m, &join_strings(&parts, "  "));
    string_of(&m)
}

/// The note when no language declares a contact area.
pub const NO_CONTACT_AREAS: &'static str = "no contact areas declared — add a `contact` block to a language's Grammar.";

} // verus!
