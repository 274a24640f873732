//! `language family-tree`: the horizontal contact edges drawn beside the
//! inheritance tree — each pair of languages in contact once, named in a
//! fixed order, sorted, with the area they meet in.
use vstd::prelude::*;
use vstd::multiset::Multiset;
use crate::inflection::{
    compare_chars, lemma_seq_lt_irreflexive, lemma_seq_lt_total, lemma_seq_lt_transitive, seq_lt,
};
use crate::text::{
    chars_eq_ignore_ascii_case, chars_of, eq_ignore_ascii_case, push_line, push_str, str_to_lowercase,
    strings_view, unicode_str_lowercase,
};

verus! {

/// An edge: the two languages, then the contact area (blank when unnamed).
pub open spec fn edge_view(e: (String, String, String)) -> (Seq<char>, Seq<char>, Seq<char>) {
    (e.0@, e.1@, e.2@)
}

/// Edges ordered as tuples of strings: by first language, then second,
/// then area.
pub open spec fn edge_lt(x: (Seq<char>, Seq<char>, Seq<char>), y: (Seq<char>, Seq<char>, Seq<char>)) -> bool {
    seq_lt(x.0, y.0) || (x.0 == y.0 && (seq_lt(x.1, y.1) || (x.1 == y.1 && seq_lt(x.2, y.2))))
}

proof fn lemma_edge_lt_irreflexive(x: (Seq<char>, Seq<char>, Seq<char>))
    ensures
        !edge_lt(x, x),
{
    lemma_seq_lt_irreflexive(x.0);
    lemma_seq_lt_irreflexive(x.1);
    lemma_seq_lt_irreflexive(x.2);
}

proof fn lemma_edge_lt_transitive(
    x: (Seq<char>, Seq<char>, Seq<char>),
    y: (Seq<char>, Seq<char>, Seq<char>),
    z: (Seq<char>, Seq<char>, Seq<char>),
)
    requires
        edge_lt(x, y),
        edge_lt(y, z),
    ensures
        edge_lt(x, z),
{
    if seq_lt(x.0, y.0) && seq_lt(y.0, z.0) {
        lemma_seq_lt_transitive(x.0, y.0, z.0);
    }
    if x.0 == y.0 && y.0 == z.0 {
        if seq_lt(x.1, y.1) && seq_lt(y.1, z.1) {
            lemma_seq_lt_transitive(x.1, y.1, z.1);
        }
        if x.1 == y.1 && y.1 == z.1 && seq_lt(x.2, y.2) && seq_lt(y.2, z.2) {
            lemma_seq_lt_transitive(x.2, y.2, z.2);
        }
    }
}

proof fn lemma_edge_lt_total(x: (Seq<char>, Seq<char>, Seq<char>), y: (Seq<char>, Seq<char>, Seq<char>))
    requires
        x != y,
    ensures
        edge_lt(x, y) || edge_lt(y, x),
{
    if x.0 != y.0 {
        lemma_seq_lt_total(x.0, y.0);
    } else if x.1 != y.1 {
        lemma_seq_lt_total(x.1, y.1);
    } else {
        lemma_seq_lt_total(x.2, y.2);
    }
}

/// `x` placed before the first edge of the (sorted) list not below it.
pub open spec fn insert_edge(
    t: Seq<(Seq<char>, Seq<char>, Seq<char>)>,
    x: (Seq<char>, Seq<char>, Seq<char>),
) -> Seq<(Seq<char>, Seq<char>, Seq<char>)>
    decreases t.len(),
{
    if t.len() == 0 || !edge_lt(t[0], x) {
        seq![x] + t
    } else {
        seq![t[0]] + insert_edge(t.drop_first(), x)
    }
}

/// The edges sorted ascending (insertion sort).
pub open spec fn sort_edges(s: Seq<(Seq<char>, Seq<char>, Seq<char>)>) -> Seq<(Seq<char>, Seq<char>, Seq<char>)>
    decreases s.len(),
{
    if s.len() == 0 {
        seq![]
    } else {
        insert_edge(sort_edges(s.drop_last()), s.last())
    }
}

/// Whether a list of edges is in ascending (non-strict) order.
pub open spec fn edges_ascending(t: Seq<(Seq<char>, Seq<char>, Seq<char>)>) -> bool {
    forall|i: int, j: int| 0 <= i < j < t.len() ==> !edge_lt(#[trigger] t[j], #[trigger] t[i])
}

proof fn lemma_insert_edge_at(
    t: Seq<(Seq<char>, Seq<char>, Seq<char>)>,
    x: (Seq<char>, Seq<char>, Seq<char>),
    p: int,
)
    requires
        0 <= p <= t.len(),
        forall|j: int| 0 <= j < p ==> edge_lt(#[trigger] t[j], x),
        p < t.len() ==> !edge_lt(t[p], x),
    ensures
        insert_edge(t, x) == t.insert(p, x),
    decreases t.len(),
{
    if t.len() == 0 {
        assert(t.insert(p, x) =~= seq![x]);
    } else if p == 0 {
        assert(t.insert(0, x) =~= seq![x] + t);
    } else {
        let u = t.drop_first();
        assert forall|j: int| 0 <= j < p - 1 implies edge_lt(#[trigger] u[j], x) by {
            assert(u[j] == t[j + 1]);
        }
        if p - 1 < u.len() {
            assert(u[p - 1] == t[p]);
        }
        lemma_insert_edge_at(u, x, p - 1);
        assert(seq![t[0]] + u.insert(p - 1, x) =~= t.insert(p, x));
    }
}

proof fn lemma_insert_edge_props(t: Seq<(Seq<char>, Seq<char>, Seq<char>)>, x: (Seq<char>, Seq<char>, Seq<char>))
    requires
        edges_ascending(t),
    ensures
        edges_ascending(insert_edge(t, x)),
        insert_edge(t, x).to_multiset() == t.to_multiset().insert(x),
    decreases t.len(),
{
    broadcast use vstd::seq_lib::group_to_multiset_ensures;
    if t.len() == 0 {
        assert(insert_edge(t, x) =~= seq![x]);
        assert(seq![x] =~= Seq::<(Seq<char>, Seq<char>, Seq<char>)>::empty().push(x));
    } else if !edge_lt(t[0], x) {
        let r = seq![x] + t;
        assert forall|i: int, j: int| 0 <= i < j < r.len() implies !edge_lt(
            #[trigger] r[j],
            #[trigger] r[i],
        ) by {
            if i == 0 {
                assert(r[j] == t[j - 1]);
                if j - 1 > 0 {
                    assert(!edge_lt(t[j - 1], t[0]));
                    if edge_lt(t[j - 1], x) {
                        if t[0] != x {
                            lemma_edge_lt_total(t[0], x);
                            lemma_edge_lt_transitive(t[j - 1], x, t[0]);
                        }
                    }
                }
            } else {
                assert(r[i] == t[i - 1] && r[j] == t[j - 1]);
            }
        }
        assert(r =~= t.insert(0, x));
        vstd::seq_lib::to_multiset_insert(t, 0, x);
    } else {
        let u = t.drop_first();
        assert(edges_ascending(u)) by {
            assert forall|i: int, j: int| 0 <= i < j < u.len() implies !edge_lt(
                #[trigger] u[j],
                #[trigger] u[i],
            ) by {
                assert(u[i] == t[i + 1] && u[j] == t[j + 1]);
            }
        }
        lemma_insert_edge_props(u, x);
        let w = insert_edge(u, x);
        let r = seq![t[0]] + w;
        assert forall|i: int, j: int| 0 <= i < j < r.len() implies !edge_lt(
            #[trigger] r[j],
            #[trigger] r[i],
        ) by {
            if i == 0 {
                assert(r[j] == w[j - 1]);
                assert(w.to_multiset().count(w[j - 1]) > 0);
                if w[j - 1] == x {
                    if edge_lt(x, t[0]) {
                        lemma_edge_lt_transitive(x, t[0], x);
                        lemma_edge_lt_irreflexive(x);
                    }
                } else {
                    assert(u.to_multiset().count(w[j - 1]) > 0);
                    assert(u.contains(w[j - 1]));
                    let k = choose|k: int| 0 <= k < u.len() && u[k] == w[j - 1];
                    assert(u[k] == t[k + 1]);
                    assert(!edge_lt(t[k + 1], t[0]));
                }
            } else {
                assert(r[i] == w[i - 1] && r[j] == w[j - 1]);
            }
        }
        assert(t =~= seq![t[0]] + u);
        assert(seq![t[0]] + u =~= u.insert(0, t[0]));
        assert(r =~= w.insert(0, t[0]));
        vstd::seq_lib::to_multiset_insert(u, 0, t[0]);
        vstd::seq_lib::to_multiset_insert(w, 0, t[0]);
        assert(r.to_multiset() =~= t.to_multiset().insert(x));
    }
}

/// Sorting the edges gives them in ascending order, each as often as
/// before.
pub proof fn lemma_sort_edges(s: Seq<(Seq<char>, Seq<char>, Seq<char>)>)
    ensures
        edges_ascending(sort_edges(s)),
        sort_edges(s).to_multiset() == s.to_multiset(),
    decreases s.len(),
{
    broadcast use vstd::seq_lib::group_to_multiset_ensures;
    if s.len() == 0 {
        assert(s.to_multiset() =~= Multiset::empty());
        assert(sort_edges(s).to_multiset() =~= Multiset::empty());
    } else {
        lemma_sort_edges(s.drop_last());
        lemma_insert_edge_props(sort_edges(s.drop_last()), s.last());
        assert(s =~= s.drop_last().push(s.last()));
    }
}

/// A language's contact block: the languages it is in contact with, and
/// the area (blank when unnamed).
pub struct ContactDecl {
    pub language: String,
    pub with: Vec<String>,
    pub region: String,
}

/// The edge between two languages: the one whose lower-cased name sorts
/// first is named first.
pub open spec fn oriented(a: Seq<char>, b: Seq<char>, region: Seq<char>) -> (Seq<char>, Seq<char>, Seq<char>) {
    if seq_lt(unicode_str_lowercase(b), unicode_str_lowercase(a)) {
        (b, a, region)
    } else {
        (a, b, region)
    }
}

/// The edges of every contact block, in declaration order.
pub open spec fn raw_edges(ds: Seq<ContactDecl>) -> Seq<(Seq<char>, Seq<char>, Seq<char>)>
    decreases ds.len(),
{
    if ds.len() == 0 {
        seq![]
    } else {
        let d = ds.last();
        raw_edges(ds.drop_last()) + d.with@.map_values(|n: String| oriented(d.language@, n@, d.region@))
    }
}

/// Whether two edges join the same two languages, ASCII case ignored.
pub open spec fn same_pair(x: (Seq<char>, Seq<char>, Seq<char>), y: (Seq<char>, Seq<char>, Seq<char>)) -> bool {
    eq_ignore_ascii_case(x.0, y.0) && eq_ignore_ascii_case(x.1, y.1)
}

/// Runs of edges joining the same pair reduced to their first edge (each
/// edge compared with the last one kept).
pub open spec fn dedup_edges(s: Seq<(Seq<char>, Seq<char>, Seq<char>)>) -> Seq<(Seq<char>, Seq<char>, Seq<char>)>
    decreases s.len(),
{
    if s.len() == 0 {
        seq![]
    } else {
        let d = dedup_edges(s.drop_last());
        if d.len() > 0 && same_pair(s.last(), d.last()) {
            d
        } else {
            d.push(s.last())
        }
    }
}

/// Compares two edges: whether `x` sorts before `y`.
fn edge_less(x: &(String, String, String), y: &(String, String, String)) -> (r: bool)
    ensures
        r == edge_lt(edge_view(*x), edge_view(*y)),
{
    let a = compare_chars(&chars_of(x.0.as_str()), &chars_of(y.0.as_str()));
    if a != 0 {
        return a < 0;
    }
    let b = compare_chars(&chars_of(x.1.as_str()), &chars_of(y.1.as_str()));
    if b != 0 {
        return b < 0;
    }
    compare_chars(&chars_of(x.2.as_str()), &chars_of(y.2.as_str())) < 0
}

/// The contact edges of the languages: every declared contact oriented,
/// the edges sorted, and repeated pairs dropped.
pub fn contact_edges(decls: &Vec<ContactDecl>) -> (r: Vec<(String, String, String)>)
    ensures
        r@.map_values(|e: (String, String, String)| edge_view(e)) == dedup_edges(
            sort_edges(raw_edges(decls@)),
        ),
{
    let mut sorted: Vec<(String, String, String)> = Vec::new();
    let ghost mut done: Seq<(Seq<char>, Seq<char>, Seq<char>)> = Seq::empty();
    let mut i: usize = 0;
    while i < decls.len()
        invariant
            i <= decls@.len(),
            sorted@.map_values(|e: (String, String, String)| edge_view(e)) == sort_edges(done),
            done == raw_edges(decls@.take(i as int)),
        decreases decls@.len() - i,
    {
        let d = &decls[i];
        let la = str_to_lowercase(d.language.as_str());
        let ghost start = done;
        let mut j: usize = 0;
        while j < d.with.len()
            invariant
                j <= d.with@.len(),
                la@ == unicode_str_lowercase(d.language@),
                sorted@.map_values(|e: (String, String, String)| edge_view(e)) == sort_edges(done),
                done == start + d.with@.take(j as int).map_values(
                    |n: String| oriented(d.language@, n@, d.region@),
                ),
            decreases d.with@.len() - j,
        {
            let n = &d.with[j];
            let lb = str_to_lowercase(n.as_str());
            let x = if compare_chars(&chars_of(lb.as_str()), &chars_of(la.as_str())) < 0 {
                (n.clone(), d.language.clone(), d.region.clone())
            } else {
                (d.language.clone(), n.clone(), d.region.clone())
            };
            assert(edge_view(x) == oriented(d.language@, n@, d.region@));
            let ghost t = sorted@.map_values(|e: (String, String, String)| edge_view(e));
            let mut p: usize = 0;
            while p < sorted.len() && edge_less(&sorted[p], &x)
                invariant
                    p <= sorted@.len(),
                    t == sorted@.map_values(|e: (String, String, String)| edge_view(e)),
                    forall|k: int| 0 <= k < p ==> edge_lt(#[trigger] t[k], edge_view(x)),
                decreases sorted@.len() - p,
            {
                p = p + 1;
            }
            proof {
                lemma_insert_edge_at(t, edge_view(x), p as int);
                assert(done.push(edge_view(x)).drop_last() =~= done);
            }
            sorted.insert(p, x);
            assert(sorted@.map_values(|e: (String, String, String)| edge_view(e)) =~= t.insert(
                p as int,
                edge_view(x),
            ));
            proof {
                assert(d.with@.take(j + 1).map_values(|n: String| oriented(d.language@, n@, d.region@))
                    =~= d.with@.take(j as int).map_values(
                    |n: String| oriented(d.language@, n@, d.region@),
                ).push(oriented(d.language@, n@, d.region@)));
                done = done.push(edge_view(x));
            }
            j = j + 1;
        }
        proof {
            assert(d.with@.take(d.with@.len() as int) =~= d.with@);
            assert(decls@.take(i + 1).drop_last() =~= decls@.take(i as int));
            assert(decls@.take(i + 1).last() == decls@[i as int]);
        }
        i = i + 1;
    }
    assert(decls@.take(decls@.len() as int) =~= decls@);
    let ghost s = sorted@.map_values(|e: (String, String, String)| edge_view(e));
    let mut out: Vec<(String, String, String)> = Vec::new();
    let mut k: usize = 0;
    while k < sorted.len()
        invariant
            k <= sorted@.len(),
            s == sorted@.map_values(|e: (String, String, String)| edge_view(e)),
            out@.map_values(|e: (String, String, String)| edge_view(e)) == dedup_edges(s.take(k as int)),
        decreases sorted@.len() - k,
    {
        let e = &sorted[k];
        let ghost kept = out@.map_values(|e: (String, String, String)| edge_view(e));
        assert(s.take(k + 1).drop_last() =~= s.take(k as int));
        assert(s.take(k + 1).last() == edge_view(*e));
        let dup = if out.len() > 0 {
            let last = &out[out.len() - 1];
            assert(kept.last() == edge_view(*last));
            chars_eq_ignore_ascii_case(&chars_of(e.0.as_str()), &chars_of(last.0.as_str()))
                && chars_eq_ignore_ascii_case(&chars_of(e.1.as_str()), &chars_of(last.1.as_str()))
        } else {
            false
        };
        if !dup {
            out.push((e.0.clone(), e.1.clone(), e.2.clone()));
            assert(out@.map_values(|e: (String, String, String)| edge_view(e)) =~= kept.push(
                edge_view(*e),
            ));
        }
        k = k + 1;
    }
    assert(s.take(s.len() as int) =~= s);
    out
}

/// An edge's line: the two languages joined by `⇄`, the area in
/// parentheses when it has a name.
pub open spec fn edge_line(e: (String, String, String)) -> Seq<char> {
    "  "@ + e.0@ + " ⇄ "@ + e.1@ + if e.2@.len() == 0 {
        Seq::<char>::empty()
    } else {
        "  ("@ + e.2@ + ")"@
    }
}

/// The contact section of the family tree; nothing when there are no edges.
pub fn contact_lines(edges: &Vec<(String, String, String)>) -> (r: Vec<String>)
    ensures
        strings_view(r@) == if edges@.len() == 0 {
            Seq::<Seq<char>>::empty()
        } else {
            seq!["\ncontact (horizontal):"@] + edges@.map_values(|e: (String, String, String)| edge_line(e))
        },
{
    let mut lines: Vec<String> = Vec::new();
    if edges.len() == 0 {
        assert(strings_view(lines@) =~= Seq::<Seq<char>>::empty());
        return lines;
    }
    crate::text::push_text_line(&mut lines, "\ncontact (horizontal):");
    let ghost start = strings_view(lines@);
    let mut i: usize = 0;
    while i < edges.len()
        invariant
            i <= edges@.len(),
            strings_view(lines@) == start + edges@.take(i as int).map_values(
                |e: (String, String, String)| edge_line(e),
            ),
        decreases edges@.len() - i,
    {
        let e = &edges[i];
        let mut l = chars_of("  ");
        push_str(&mut l, e.0.as_str());
        push_str(&mut l, " ⇄ ");
        push_str(&mut l, e.1.as_str());
        if chars_of(e.2.as_str()).len() > 0 {
            push_str(&mut l, "  (");
            push_str(&mut l, e.2.as_str());
            push_str(&mut l, ")");
        }
        assert(l@ =~= edge_line(*e));
        push_line(&mut lines, &l);
        assert(edges@.take(i + 1).map_values(|e: (String, String, String)| edge_line(e))
            =~= edges@.take(i as int).map_values(|e: (String, String, String)| edge_line(e)).push(l@));
        i = i + 1;
    }
    assert(edges@.take(edges@.len() as int) =~= edges@);
    lines
}

/// The note when no language exists yet.
pub const NO_LANGUAGES_YET: &'static str = "no languages yet — `inkhaven language init <name>`";

} // verus!
