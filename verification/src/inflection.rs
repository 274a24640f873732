//! A dictionary entry's paradigm forms: a map from form name to form, kept in
//! ascending key order so that every rendering lists the forms in the same
//! order.
use vstd::prelude::*;
use crate::text::chars_of;

verus! {

/// Lexicographic order on character sequences, comparing characters by code
/// point (the order of `String`, whose bytes are UTF-8).
pub open spec fn seq_lt(a: Seq<char>, b: Seq<char>) -> bool
    decreases a.len(),
{
    if a.len() == 0 {
        b.len() > 0
    } else if b.len() == 0 {
        false
    } else if a[0] != b[0] {
        (a[0] as int) < (b[0] as int)
    } else {
        seq_lt(a.drop_first(), b.drop_first())
    }
}

/// `seq_lt` is irreflexive.
pub proof fn lemma_seq_lt_irreflexive(a: Seq<char>)
    ensures
        !seq_lt(a, a),
    decreases a.len(),
{
    if a.len() > 0 {
        lemma_seq_lt_irreflexive(a.drop_first());
    }
}

/// `seq_lt` is transitive.
pub proof fn lemma_seq_lt_transitive(a: Seq<char>, b: Seq<char>, c: Seq<char>)
    requires
        seq_lt(a, b),
        seq_lt(b, c),
    ensures
        seq_lt(a, c),
    decreases a.len(),
{
    if a.len() > 0 && b.len() > 0 && c.len() > 0 && a[0] == b[0] && b[0] == c[0] {
        lemma_seq_lt_transitive(a.drop_first(), b.drop_first(), c.drop_first());
    }
}

/// `seq_lt` is total on distinct sequences.
pub proof fn lemma_seq_lt_total(a: Seq<char>, b: Seq<char>)
    requires
        a != b,
    ensures
        seq_lt(a, b) || seq_lt(b, a),
    decreases a.len(),
{
    if a.len() > 0 && b.len() > 0 && a[0] == b[0] {
        if a.drop_first() == b.drop_first() {
            assert(a =~= seq![a[0]] + a.drop_first());
            assert(b =~= seq![b[0]] + b.drop_first());
        }
        lemma_seq_lt_total(a.drop_first(), b.drop_first());
    } else if a.len() == 0 && b.len() == 0 {
        assert(a =~= b);
    } else if a.len() > 0 && b.len() > 0 {
        assert((a[0] as int) != (b[0] as int));
    }
}

/// Compares two character vectors in `seq_lt` order: `-1`, `0` or `1`.
pub fn compare_chars(a: &Vec<char>, b: &Vec<char>) -> (r: i8)
    ensures
        r == 0 <==> a@ == b@,
        r < 0 <==> seq_lt(a@, b@),
        r > 0 <==> seq_lt(b@, a@),
{
    let mut i: usize = 0;
    assert(a@.skip(0) =~= a@);
    assert(b@.skip(0) =~= b@);
    while i < a.len() && i < b.len() && a[i] == b[i]
        invariant
            i <= a.len(),
            i <= b.len(),
            a@.take(i as int) == b@.take(i as int),
            seq_lt(a@, b@) == seq_lt(a@.skip(i as int), b@.skip(i as int)),
            seq_lt(b@, a@) == seq_lt(b@.skip(i as int), a@.skip(i as int)),
        decreases a.len() - i,
    {
        assert(a@.skip(i as int).drop_first() =~= a@.skip(i + 1));
        assert(b@.skip(i as int).drop_first() =~= b@.skip(i + 1));
        assert(a@.take(i + 1) =~= a@.take(i as int).push(a@[i as int]));
        assert(b@.take(i + 1) =~= b@.take(i as int).push(b@[i as int]));
        i = i + 1;
    }
    if i < a.len() && i < b.len() {
        assert(a@.skip(i as int)[0] == a@[i as int]);
        assert(b@.skip(i as int)[0] == b@[i as int]);
        assert(a@[i as int] != b@[i as int]);
        if a[i] < b[i] {
            -1
        } else {
            1
        }
    } else if i < a.len() {
        assert(b@ =~= b@.take(i as int));
        assert(a@[i as int] == a@[i as int]);
        assert(a@ != b@);
        1
    } else if i < b.len() {
        assert(a@ =~= a@.take(i as int));
        assert(b@[i as int] == b@[i as int]);
        assert(a@ != b@);
        -1
    } else {
        assert(a@ =~= a@.take(i as int));
        assert(b@ =~= b@.take(i as int));
        proof {
            lemma_seq_lt_irreflexive(a@);
        }
        0
    }
}

/// Whether the keys of a list of pairs strictly ascend.
pub open spec fn keys_ascending(p: Seq<(Seq<char>, Seq<char>)>) -> bool {
    forall|i: int, j: int| 0 <= i < j < p.len() ==> seq_lt(#[trigger] p[i].0, #[trigger] p[j].0)
}

/// The map that a list of pairs describes (a later pair wins on a repeated
/// key).
pub open spec fn pairs_map(p: Seq<(Seq<char>, Seq<char>)>) -> Map<Seq<char>, Seq<char>>
    decreases p.len(),
{
    if p.len() == 0 {
        Map::empty()
    } else {
        pairs_map(p.drop_last()).insert(p.last().0, p.last().1)
    }
}

/// In a key-ascending list, each key holds its own value.
pub proof fn lemma_pairs_map_at(p: Seq<(Seq<char>, Seq<char>)>, i: int)
    requires
        keys_ascending(p),
        0 <= i < p.len(),
    ensures
        pairs_map(p).contains_key(p[i].0),
        pairs_map(p)[p[i].0] == p[i].1,
    decreases p.len(),
{
    if i < p.len() - 1 {
        let q = p.drop_last();
        assert(q[i] == p[i]);
        assert(keys_ascending(q)) by {
            assert forall|a: int, b: int| 0 <= a < b < q.len() implies seq_lt(
                #[trigger] q[a].0,
                #[trigger] q[b].0,
            ) by {
                assert(q[a] == p[a] && q[b] == p[b]);
            }
        }
        lemma_pairs_map_at(q, i);
        assert(seq_lt(p[i].0, p[p.len() - 1].0));
        lemma_seq_lt_irreflexive(p[i].0);
    }
}

/// The keys of the map of a list are the keys the list holds.
pub proof fn lemma_pairs_map_dom(p: Seq<(Seq<char>, Seq<char>)>, k: Seq<char>)
    ensures
        pairs_map(p).contains_key(k) <==> exists|i: int| 0 <= i < p.len() && p[i].0 == k,
    decreases p.len(),
{
    if p.len() > 0 {
        let q = p.drop_last();
        lemma_pairs_map_dom(q, k);
        if exists|i: int| 0 <= i < q.len() && q[i].0 == k {
            let i = choose|i: int| 0 <= i < q.len() && q[i].0 == k;
            assert(p[i].0 == k);
        }
        if exists|i: int| 0 <= i < p.len() && p[i].0 == k {
            let i = choose|i: int| 0 <= i < p.len() && p[i].0 == k;
            if i < q.len() {
                assert(q[i].0 == k);
            }
        }
    }
}

/// Paradigm forms: form name → form, iterated in ascending name order.
pub struct Inflection {
    entries: Vec<(String, String)>,
}

impl Inflection {
    /// The `(name, form)` pairs in iteration order.
    pub closed spec fn pairs(&self) -> Seq<(Seq<char>, Seq<char>)> {
        self.entries@.map_values(|e: (String, String)| (e.0@, e.1@))
    }

    /// The names are kept strictly ascending.
    #[verifier::type_invariant]
    spec fn well_formed(&self) -> bool {
        keys_ascending(self.pairs())
    }

    /// An empty set of forms.
    pub fn new() -> (r: Inflection)
        ensures
            r.pairs() == Seq::<(Seq<char>, Seq<char>)>::empty(),
    {
        let r = Inflection { entries: Vec::new() };
        assert(r.pairs() =~= Seq::<(Seq<char>, Seq<char>)>::empty());
        r
    }

    /// The number of forms (their names ascending, as always).
    pub fn len(&self) -> (n: usize)
        ensures
            n == self.pairs().len(),
            keys_ascending(self.pairs()),
    {
        proof {
            use_type_invariant(self);
        }
        self.entries.len()
    }

    /// Whether there are no forms.
    pub fn is_empty(&self) -> (b: bool)
        ensures
            b == (self.pairs().len() == 0),
    {
        self.entries.len() == 0
    }

    /// The `i`-th form name in iteration order.
    pub fn key_at(&self, i: usize) -> (k: &String)
        requires
            i < self.pairs().len(),
        ensures
            k@ == self.pairs()[i as int].0,
    {
        &self.entries[i].0
    }

    /// The `i`-th form in iteration order.
    pub fn value_at(&self, i: usize) -> (v: &String)
        requires
            i < self.pairs().len(),
        ensures
            v@ == self.pairs()[i as int].1,
    {
        &self.entries[i].1
    }

    /// The position of `k` among the names, or the position where it would be
    /// inserted.
    fn search(&self, k: &Vec<char>) -> (r: (usize, bool))
        ensures
            r.0 <= self.pairs().len(),
            forall|j: int| 0 <= j < r.0 ==> seq_lt(#[trigger] self.pairs()[j].0, k@),
            r.1 ==> r.0 < self.pairs().len() && self.pairs()[r.0 as int].0 == k@,
            !r.1 ==> forall|j: int|
                r.0 <= j < self.pairs().len() ==> seq_lt(k@, #[trigger] self.pairs()[j].0),
    {
        proof {
            use_type_invariant(self);
        }
        let mut i: usize = 0;
        while i < self.entries.len()
            invariant
                i <= self.entries.len(),
                self.pairs().len() == self.entries.len(),
                keys_ascending(self.pairs()),
                forall|j: int| 0 <= j < i ==> seq_lt(#[trigger] self.pairs()[j].0, k@),
            decreases self.entries.len() - i,
        {
            let key = chars_of(self.entries[i].0.as_str());
            assert(self.pairs()[i as int].0 == self.entries@[i as int].0@);
            let c = compare_chars(&key, k);
            if c == 0 {
                return (i, true);
            }
            if c > 0 {
                assert forall|j: int| i <= j < self.pairs().len() implies seq_lt(
                    k@,
                    #[trigger] self.pairs()[j].0,
                ) by {
                    if j > i {
                        lemma_seq_lt_transitive(k@, self.pairs()[i as int].0, self.pairs()[j].0);
                    }
                }
                return (i, false);
            }
            i = i + 1;
        }
        (i, false)
    }

    /// Whether a form named `k` is present.
    pub fn contains_key(&self, k: &str) -> (b: bool)
        ensures
            b == exists|i: int| 0 <= i < self.pairs().len() && self.pairs()[i].0 == k@,
    {
        let kv = chars_of(k);
        let (i, found) = self.search(&kv);
        proof {
            if !found {
                assert forall|j: int| 0 <= j < self.pairs().len() implies self.pairs()[j].0
                    != k@ by {
                    if j < i {
                        lemma_seq_lt_irreflexive(k@);
                    } else {
                        lemma_seq_lt_irreflexive(k@);
                    }
                }
            }
        }
        found
    }

    /// The form named `k`, if present.
    pub fn get(&self, k: &str) -> (r: Option<&String>)
        ensures
            match r {
                Some(v) => exists|i: int|
                    0 <= i < self.pairs().len() && self.pairs()[i].0 == k@ && self.pairs()[i].1
                        == v@,
                None => forall|i: int| 0 <= i < self.pairs().len() ==> self.pairs()[i].0 != k@,
            },
            match r {
                Some(v) => pairs_map(self.pairs()).contains_key(k@) && pairs_map(self.pairs())[k@]
                    == v@,
                None => !pairs_map(self.pairs()).contains_key(k@),
            },
    {
        proof {
            use_type_invariant(self);
            lemma_pairs_map_dom(self.pairs(), k@);
        }
        let kv = chars_of(k);
        let (i, found) = self.search(&kv);
        if found {
            assert(self.pairs()[i as int].1 == self.entries@[i as int].1@);
            proof {
                lemma_pairs_map_at(self.pairs(), i as int);
            }
            Some(&self.entries[i].1)
        } else {
            proof {
                assert forall|j: int| 0 <= j < self.pairs().len() implies self.pairs()[j].0
                    != k@ by {
                    lemma_seq_lt_irreflexive(k@);
                }
            }
            None
        }
    }

    /// Sets the form named `k` to `v`, returning the form it replaces.
    pub fn insert(&mut self, k: String, v: String) -> (old_value: Option<String>)
        ensures
            pairs_map(final(self).pairs()) == pairs_map(old(self).pairs()).insert(k@, v@),
            match old_value {
                Some(o) => pairs_map(old(self).pairs()).contains_key(k@)
                    && pairs_map(old(self).pairs())[k@] == o@,
                None => !pairs_map(old(self).pairs()).contains_key(k@),
            },
    {
        proof {
            use_type_invariant(&*self);
        }
        let kv = chars_of(k.as_str());
        let (i, found) = self.search(&kv);
        let ghost p = self.pairs();
        if found {
            let mut entries = Vec::new();
            std::mem::swap(&mut entries, &mut self.entries);
            let ghost before = entries@;
            let (ok, ov) = entries.remove(i);
            entries.insert(i, (k, v));
            let ghost q = entries@.map_values(|e: (String, String)| (e.0@, e.1@));
            assert(q =~= p.update(i as int, (kv@, v@)));
            assert(keys_ascending(q)) by {
                assert forall|a: int, b: int| 0 <= a < b < q.len() implies seq_lt(
                    #[trigger] q[a].0,
                    #[trigger] q[b].0,
                ) by {
                    assert(q[a].0 == p[a].0);
                    assert(q[b].0 == p[b].0);
                }
            }
            proof {
                lemma_pairs_map_at(p, i as int);
                assert(ov@ == p[i as int].1);
                assert forall|x: Seq<char>| #[trigger]
                    pairs_map(q).contains_key(x) == pairs_map(p).insert(k@, v@).contains_key(x)
                    && (pairs_map(q).contains_key(x) ==> pairs_map(q)[x] == pairs_map(p).insert(
                    k@,
                    v@,
                )[x]) by {
                    lemma_pairs_map_dom(p, x);
                    lemma_pairs_map_dom(q, x);
                    if pairs_map(p).contains_key(x) {
                        let j = choose|j: int| 0 <= j < p.len() && p[j].0 == x;
                        if j != i {
                            assert(q[j] == p[j]);
                            if j < i {
                                assert(seq_lt(p[j].0, p[i as int].0));
                            } else {
                                assert(seq_lt(p[i as int].0, p[j].0));
                            }
                            lemma_seq_lt_irreflexive(x);
                            assert(x != k@);
                        }
                        assert(q[j].0 == x);
                        lemma_pairs_map_at(q, j);
                        lemma_pairs_map_at(p, j);
                    }
                    if pairs_map(q).contains_key(x) {
                        let j = choose|j: int| 0 <= j < q.len() && q[j].0 == x;
                        assert(p[j].0 == x);
                        lemma_pairs_map_at(q, j);
                        lemma_pairs_map_at(p, j);
                    }
                }
                assert(pairs_map(q) =~= pairs_map(p).insert(k@, v@));
            }
            self.entries = entries;
            Some(ov)
        } else {
            let mut entries = Vec::new();
            std::mem::swap(&mut entries, &mut self.entries);
            entries.insert(i, (k, v));
            let ghost q = entries@.map_values(|e: (String, String)| (e.0@, e.1@));
            assert(q =~= p.insert(i as int, (kv@, v@)));
            assert(keys_ascending(q)) by {
                assert forall|a: int, b: int| 0 <= a < b < q.len() implies seq_lt(
                    #[trigger] q[a].0,
                    #[trigger] q[b].0,
                ) by {
                    if b < i {
                        assert(q[a] == p[a] && q[b] == p[b]);
                    } else if b == i {
                        assert(q[a] == p[a]);
                    } else if a < i {
                        assert(q[a] == p[a] && q[b] == p[b - 1]);
                        lemma_seq_lt_transitive(p[a].0, k@, p[b - 1].0);
                    } else if a == i {
                        assert(q[b] == p[b - 1]);
                    } else {
                        assert(q[a] == p[a - 1] && q[b] == p[b - 1]);
                    }
                }
            }
            proof {
                assert forall|j: int| 0 <= j < p.len() implies p[j].0 != k@ by {
                    lemma_seq_lt_irreflexive(k@);
                }
                lemma_pairs_map_dom(p, k@);
                lemma_pairs_map_at(q, i as int);
                assert forall|x: Seq<char>| #[trigger]
                    pairs_map(q).contains_key(x) == pairs_map(p).insert(k@, v@).contains_key(x)
                    && (pairs_map(q).contains_key(x) ==> pairs_map(q)[x] == pairs_map(p).insert(
                    k@,
                    v@,
                )[x]) by {
                    lemma_pairs_map_dom(p, x);
                    lemma_pairs_map_dom(q, x);
                    if pairs_map(p).contains_key(x) {
                        let j = choose|j: int| 0 <= j < p.len() && p[j].0 == x;
                        let jq = if j < i {
                            j
                        } else {
                            j + 1
                        };
                        assert(q[jq] == p[j]);
                        lemma_pairs_map_at(q, jq);
                        lemma_pairs_map_at(p, j);
                    }
                    if x == k@ {
                        assert(q[i as int] == (kv@, v@));
                        assert(pairs_map(q)[x] == v@);
                    }
                    if pairs_map(q).contains_key(x) && x != k@ {
                        let j = choose|j: int| 0 <= j < q.len() && q[j].0 == x;
                        let jp = if j < i {
                            j
                        } else {
                            j - 1
                        };
                        assert(j != i);
                        assert(q[j] == p[jp]);
                        lemma_pairs_map_at(q, j);
                        lemma_pairs_map_at(p, jp);
                    }
                    assert(pairs_map(q).contains_key(x) == pairs_map(p).insert(k@, v@).contains_key(x));
                }
                assert(pairs_map(q) =~= pairs_map(p).insert(k@, v@));
            }
            self.entries = entries;
            None
        }
    }
}

/// What is written is what is read: after setting the form named `k` to
/// `v`, the paradigm gives `v` for `k` and keeps every other name's form.
pub proof fn lemma_read_after_write(before: Inflection, after: Inflection, k: Seq<char>, v: Seq<char>, other: Seq<char>)
    requires
        pairs_map(after.pairs()) == pairs_map(before.pairs()).insert(k, v),
    ensures
        pairs_map(after.pairs()).contains_key(k),
        pairs_map(after.pairs())[k] == v,
        other != k ==> pairs_map(after.pairs()).contains_key(other) == pairs_map(
            before.pairs(),
        ).contains_key(other),
        other != k && pairs_map(before.pairs()).contains_key(other) ==> pairs_map(after.pairs())[other]
            == pairs_map(before.pairs())[other],
{
}

} // verus!
