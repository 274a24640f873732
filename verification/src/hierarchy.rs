//! The project hierarchy as the language commands read it: the nodes in the
//! store's order, each naming its parent, and the lookups that find a
//! language's book, its chapters and its dictionary entries.
use vstd::prelude::*;
use crate::csv_import::bucket_of;
use crate::entry::{decimal, decimal_digits};
use crate::error::LanguageError;
use crate::export_plan::{chapter_role, chapter_role_of, ChapterRole};
use crate::text::{
    chars_eq_ignore_ascii_case, chars_of, eq_ignore_ascii_case, pad_right, push_all, push_line,
    push_padded, push_str, spaces, str_eq, string_of, strings_view, unicode_str_lowercase,
};

verus! {

/// What a node of the hierarchy is.
#[derive(PartialEq, Eq, Structural)]
pub enum NodeKind {
    Book,
    Chapter,
    Subchapter,
    Paragraph,
}

/// One node of the hierarchy.
pub struct NodeInfo {
    pub id: u64,
    pub parent: Option<u64>,
    pub kind: NodeKind,
    pub title: String,
    /// The tag of a system book (the `Language` book, `Places`, …).
    pub system_tag: Option<String>,
}

/// The hierarchy: every node, in the store's order.
pub struct Hierarchy {
    pub nodes: Vec<NodeInfo>,
}

// ───────────────────────── finding nodes ──────────────────────────────────

/// Whether a node is the system book with the given tag.
pub open spec fn is_system_book(n: NodeInfo, tag: Seq<char>) -> bool {
    n.kind == NodeKind::Book && (n.system_tag matches Some(t) && t@ == tag)
}

/// The first system book with the given tag, from position `from` on.
pub open spec fn system_book_from(nodes: Seq<NodeInfo>, tag: Seq<char>, from: int) -> Option<int>
    decreases nodes.len() - from,
{
    if from < 0 || from >= nodes.len() {
        None
    } else if is_system_book(nodes[from], tag) {
        Some(from)
    } else {
        system_book_from(nodes, tag, from + 1)
    }
}

/// A child of `parent` of the given kind whose title matches `name`, ASCII
/// case ignored.
pub open spec fn is_named_child(n: NodeInfo, parent: u64, kind: NodeKind, name: Seq<char>) -> bool {
    n.parent == Some(parent) && n.kind == kind && eq_ignore_ascii_case(n.title@, name)
}

/// The first such child, from position `from` on.
pub open spec fn named_child_from(
    nodes: Seq<NodeInfo>,
    parent: u64,
    kind: NodeKind,
    name: Seq<char>,
    from: int,
) -> Option<int>
    decreases nodes.len() - from,
{
    if from < 0 || from >= nodes.len() {
        None
    } else if is_named_child(nodes[from], parent, kind, name) {
        Some(from)
    } else {
        named_child_from(nodes, parent, kind, name, from + 1)
    }
}

/// Whether a node is the system book with the given tag.
fn is_system_book_exec(n: &NodeInfo, tag: &str) -> (r: bool)
    ensures
        r == is_system_book(*n, tag@),
{
    if n.kind != NodeKind::Book {
        return false;
    }
    match &n.system_tag {
        Some(t) => str_eq(t.as_str(), tag),
        None => false,
    }
}

/// The position of the system book with the given tag (the first one).
pub fn system_book(h: &Hierarchy, tag: &str) -> (r: Option<usize>)
    ensures
        match r {
            Some(i) => system_book_from(h.nodes@, tag@, 0) == Some(i as int),
            None => system_book_from(h.nodes@, tag@, 0) is None,
        },
        r matches Some(i) ==> i < h.nodes@.len(),
{
    let mut i: usize = 0;
    while i < h.nodes.len()
        invariant
            i <= h.nodes@.len(),
            system_book_from(h.nodes@, tag@, 0) == system_book_from(h.nodes@, tag@, i as int),
        decreases h.nodes@.len() - i,
    {
        if is_system_book_exec(&h.nodes[i], tag) {
            return Some(i);
        }
        i = i + 1;
    }
    None
}

/// The position of the first child of `parent` of the given kind whose title
/// matches `name`, ASCII case ignored.
pub fn named_child(h: &Hierarchy, parent: u64, kind: NodeKind, name: &str) -> (r: Option<usize>)
    ensures
        match r {
            Some(i) => named_child_from(h.nodes@, parent, kind, name@, 0) == Some(i as int),
            None => named_child_from(h.nodes@, parent, kind, name@, 0) is None,
        },
        r matches Some(i) ==> i < h.nodes@.len(),
{
    let nv = chars_of(name);
    let mut i: usize = 0;
    while i < h.nodes.len()
        invariant
            i <= h.nodes@.len(),
            nv@ == name@,
            named_child_from(h.nodes@, parent, kind, name@, 0) == named_child_from(
                h.nodes@,
                parent,
                kind,
                name@,
                i as int,
            ),
        decreases h.nodes@.len() - i,
    {
        let n = &h.nodes[i];
        if n.parent == Some(parent) && n.kind == kind && chars_eq_ignore_ascii_case(
            &chars_of(n.title.as_str()),
            &nv,
        ) {
            return Some(i);
        }
        i = i + 1;
    }
    None
}

/// The refusal when the project has no `Language` system book.
pub const NO_LANGUAGE_BOOK: &'static str = "Language system book missing — re-open the project to seed it";

/// Where a language is found: the `Language` system book, then its child
/// book with the name.
pub open spec fn language_lookup(nodes: Seq<NodeInfo>, tag: Seq<char>, name: Seq<char>) -> Option<
    Option<int>,
> {
    match system_book_from(nodes, tag, 0) {
        None => None,
        Some(root) => Some(named_child_from(nodes, nodes[root].id, NodeKind::Book, name, 0)),
    }
}

/// A refusal with the name between a prefix and a suffix.
fn refusal(prefix: &str, name: &str, suffix: &str) -> (e: LanguageError)
    ensures
        e matches LanguageError::Config(m) && m@ == prefix@ + name@ + suffix@,
{
    let mut m = chars_of(prefix);
    push_str(&mut m, name);
    push_str(&mut m, suffix);
    LanguageError::Config(string_of(&m))
}

/// Finds a language's book for the command-line handlers: refused when the
/// project has no `Language` book, or when no book under it carries the
/// name (ASCII case ignored).
pub fn open_lang_book(h: &Hierarchy, tag: &str, language: &str) -> (r: Result<usize, LanguageError>)
    ensures
        match language_lookup(h.nodes@, tag@, language@) {
            None => r matches Err(LanguageError::Store(m)) && m@ == NO_LANGUAGE_BOOK@,
            Some(None) => r matches Err(LanguageError::Config(m)) && m@ == "language `"@ + language@
                + "` not found — run `inkhaven language init "@ + language@ + "` first"@,
            Some(Some(i)) => r matches Ok(k) && k as int == i,
        },
{
    let root = match system_book(h, tag) {
        Some(i) => i,
        None => return Err(LanguageError::Store(String::from_str(NO_LANGUAGE_BOOK))),
    };
    match named_child(h, h.nodes[root].id, NodeKind::Book, language) {
        Some(i) => Ok(i),
        None => {
            let mut m = chars_of("language `");
            push_str(&mut m, language);
            push_str(&mut m, "` not found — run `inkhaven language init ");
            push_str(&mut m, language);
            push_str(&mut m, "` first");
            Err(LanguageError::Config(string_of(&m)))
        },
    }
}

/// What `named_child_from` finds is a matching child at or after `from`.
proof fn lemma_named_child_found(nodes: Seq<NodeInfo>, parent: u64, kind: NodeKind, name: Seq<char>, from: int)
    ensures
        named_child_from(nodes, parent, kind, name, from) matches Some(i) ==> from <= i < nodes.len()
            && is_named_child(nodes[i], parent, kind, name),
    decreases nodes.len() - from,
{
    if 0 <= from < nodes.len() && !is_named_child(nodes[from], parent, kind, name) {
        lemma_named_child_found(nodes, parent, kind, name, from + 1);
    }
}

/// A language the lookup finds can never be created again: when a book
/// under the `Language` book carries the name, the check for a new language
/// of that name sees a child titled like it (and refuses).
pub proof fn lemma_found_language_blocks_init(nodes: Seq<NodeInfo>, tag: Seq<char>, name: Seq<char>)
    ensures
        language_lookup(nodes, tag, name) matches Some(Some(_)) ==> (system_book_from(nodes, tag, 0) matches Some(
            root,
        ) && has_child_named(nodes, nodes[root].id, name)),
{
    if let Some(root) = system_book_from(nodes, tag, 0) {
        lemma_named_child_found(nodes, nodes[root].id, NodeKind::Book, name, 0);
        if let Some(i) = named_child_from(nodes, nodes[root].id, NodeKind::Book, name, 0) {
            assert(nodes[i].parent == Some(nodes[root].id) && eq_ignore_ascii_case(nodes[i].title@, name));
        }
    }
}

/// Finds a language's book for the scripting interface: as
/// `open_lang_book`, with the scripting hint in the refusal.
pub fn find_language_book(h: &Hierarchy, tag: &str, name: &str) -> (r: Result<usize, LanguageError>)
    ensures
        match language_lookup(h.nodes@, tag@, name@) {
            None => r matches Err(LanguageError::Store(m)) && m@ == NO_LANGUAGE_BOOK@,
            Some(None) => r matches Err(LanguageError::Config(m)) && m@ == "language `"@ + name@
                + "` not found — create it first (e.g. `ink.lang.init`)"@,
            Some(Some(i)) => r matches Ok(k) && k as int == i,
        },
{
    let root = match system_book(h, tag) {
        Some(i) => i,
        None => return Err(LanguageError::Store(String::from_str(NO_LANGUAGE_BOOK))),
    };
    match named_child(h, h.nodes[root].id, NodeKind::Book, name) {
        Some(i) => Ok(i),
        None => Err(refusal("language `", name, "` not found — create it first (e.g. `ink.lang.init`)")),
    }
}

/// The positions of the books directly under the system book with the tag,
/// in order; none without that book.
pub open spec fn child_books(nodes: Seq<NodeInfo>, parent: u64, n: int) -> Seq<int>
    decreases n,
{
    if n <= 0 {
        seq![]
    } else {
        child_books(nodes, parent, n - 1) + if nodes[n - 1].parent == Some(parent) && nodes[n
            - 1].kind == NodeKind::Book {
            seq![n - 1]
        } else {
            Seq::<int>::empty()
        }
    }
}

/// The positions of every language's book.
pub fn all_language_books(h: &Hierarchy, tag: &str) -> (r: Vec<usize>)
    ensures
        r@.map_values(|i: usize| i as int) == match system_book_from(h.nodes@, tag@, 0) {
            Some(root) => child_books(h.nodes@, h.nodes@[root].id, h.nodes@.len() as int),
            None => Seq::<int>::empty(),
        },
{
    let mut r: Vec<usize> = Vec::new();
    let root = match system_book(h, tag) {
        Some(i) => i,
        None => {
            assert(r@.map_values(|i: usize| i as int) =~= Seq::<int>::empty());
            return r;
        },
    };
    let pid = h.nodes[root].id;
    let mut i: usize = 0;
    while i < h.nodes.len()
        invariant
            i <= h.nodes@.len(),
            r@.map_values(|k: usize| k as int) == child_books(h.nodes@, pid, i as int),
        decreases h.nodes@.len() - i,
    {
        if h.nodes[i].parent == Some(pid) && h.nodes[i].kind == NodeKind::Book {
            let ghost before = r@.map_values(|k: usize| k as int);
            r.push(i);
            assert(r@.map_values(|k: usize| k as int) =~= before.push(i as int));
        }
        i = i + 1;
    }
    r
}

/// Whether some child of `parent` (of any kind) is titled `name`, ASCII
/// case ignored.
pub open spec fn has_child_named(nodes: Seq<NodeInfo>, parent: u64, name: Seq<char>) -> bool {
    exists|i: int|
        0 <= i < nodes.len() && nodes[i].parent == Some(parent) && eq_ignore_ascii_case(
            #[trigger] nodes[i].title@,
            name,
        )
}

/// Checks that a new language can be created: the `Language` book must
/// exist and hold nothing titled like the name. Returns the position of the
/// `Language` book to create the new book under.
pub fn check_new_language(h: &Hierarchy, tag: &str, name: &str) -> (r: Result<usize, LanguageError>)
    ensures
        match system_book_from(h.nodes@, tag@, 0) {
            None => r matches Err(LanguageError::Store(m)) && m@ == NO_LANGUAGE_BOOK@,
            Some(root) => if has_child_named(h.nodes@, h.nodes@[root].id, name@) {
                r matches Err(LanguageError::Config(m)) && m@ == "language `"@ + name@
                    + "` already exists under Language"@
            } else {
                r matches Ok(k) && k as int == root
            },
        },
{
    let root = match system_book(h, tag) {
        Some(i) => i,
        None => return Err(LanguageError::Store(String::from_str(NO_LANGUAGE_BOOK))),
    };
    let pid = h.nodes[root].id;
    let nv = chars_of(name);
    let mut i: usize = 0;
    while i < h.nodes.len()
        invariant
            i <= h.nodes@.len(),
            nv@ == name@,
            root < h.nodes@.len(),
            system_book_from(h.nodes@, tag@, 0) == Some(root as int),
            pid == h.nodes@[root as int].id,
            forall|k: int|
                0 <= k < i ==> !(h.nodes@[k].parent == Some(pid) && eq_ignore_ascii_case(
                    #[trigger] h.nodes@[k].title@,
                    name@,
                )),
        decreases h.nodes@.len() - i,
    {
        if h.nodes[i].parent == Some(pid) && chars_eq_ignore_ascii_case(
            &chars_of(h.nodes[i].title.as_str()),
            &nv,
        ) {
            assert(eq_ignore_ascii_case(h.nodes@[i as int].title@, name@));
            assert(has_child_named(h.nodes@, pid, name@));
            return Err(refusal("language `", name, "` already exists under Language"));
        }
        i = i + 1;
    }
    assert(!has_child_named(h.nodes@, pid, name@));
    Ok(root)
}

// ───────────────────────── subtrees ───────────────────────────────────────

/// The position of the first node with the id.
pub open spec fn position_of(nodes: Seq<NodeInfo>, id: u64, from: int) -> Option<int>
    decreases nodes.len() - from,
{
    if from < 0 || from >= nodes.len() {
        None
    } else if nodes[from].id == id {
        Some(from)
    } else {
        position_of(nodes, id, from + 1)
    }
}

/// Whether walking up from `cur` (itself included) through parents reaches
/// the node `target` within `fuel` steps.
pub open spec fn reaches(nodes: Seq<NodeInfo>, cur: Option<u64>, target: u64, fuel: nat) -> bool
    decreases fuel,
{
    match cur {
        None => false,
        Some(id) => if id == target {
            true
        } else if fuel == 0 {
            false
        } else {
            match position_of(nodes, id, 0) {
                Some(p) => reaches(nodes, nodes[p].parent, target, (fuel - 1) as nat),
                None => false,
            }
        },
    }
}

/// Whether the node at `i` lies in the subtree of `root` (the root
/// included); a hierarchy has no more levels than nodes.
pub open spec fn in_subtree(nodes: Seq<NodeInfo>, i: int, root: u64) -> bool {
    reaches(nodes, Some(nodes[i].id), root, nodes.len())
}

/// The position of the first node with the id.
fn position_exec(h: &Hierarchy, id: u64) -> (r: Option<usize>)
    ensures
        match r {
            Some(p) => position_of(h.nodes@, id, 0) == Some(p as int),
            None => position_of(h.nodes@, id, 0) is None,
        },
        r matches Some(p) ==> p < h.nodes@.len(),
{
    let mut i: usize = 0;
    while i < h.nodes.len()
        invariant
            i <= h.nodes@.len(),
            position_of(h.nodes@, id, 0) == position_of(h.nodes@, id, i as int),
        decreases h.nodes@.len() - i,
    {
        if h.nodes[i].id == id {
            return Some(i);
        }
        i = i + 1;
    }
    None
}

/// Whether the node at `i` lies in the subtree of `root`.
pub fn is_in_subtree(h: &Hierarchy, i: usize, root: u64) -> (r: bool)
    requires
        i < h.nodes@.len(),
    ensures
        r == in_subtree(h.nodes@, i as int, root),
{
    let ghost nodes = h.nodes@;
    let mut cur: Option<u64> = Some(h.nodes[i].id);
    let mut fuel: usize = h.nodes.len();
    loop
        invariant
            nodes == h.nodes@,
            reaches(nodes, cur, root, fuel as nat) == in_subtree(nodes, i as int, root),
        decreases fuel,
    {
        match cur {
            None => return false,
            Some(id) => {
                if id == root {
                    return true;
                }
                if fuel == 0 {
                    return false;
                }
                match position_exec(h, id) {
                    Some(p) => {
                        cur = h.nodes[p].parent;
                        fuel = fuel - 1;
                    },
                    None => return false,
                }
            },
        }
    }
}

/// The first node from position `from` on that lies in the subtree of
/// `root` and is titled `name`, ASCII case ignored.
pub open spec fn subtree_node_from(nodes: Seq<NodeInfo>, root: u64, name: Seq<char>, from: int) -> Option<int>
    decreases nodes.len() - from,
{
    if from < 0 || from >= nodes.len() {
        None
    } else if in_subtree(nodes, from, root) && eq_ignore_ascii_case(nodes[from].title@, name) {
        Some(from)
    } else {
        subtree_node_from(nodes, root, name, from + 1)
    }
}

/// Resolves a name against a system book (`Places`, `Characters`): the
/// title of the first node of that book's subtree titled like the name,
/// ASCII case ignored; none without the book or such a node.
pub fn resolve_system_node(h: &Hierarchy, system_tag: &str, name: &str) -> (r: Option<String>)
    ensures
        match system_book_from(h.nodes@, system_tag@, 0) {
            None => r is None,
            Some(b) => match subtree_node_from(h.nodes@, h.nodes@[b].id, name@, 0) {
                None => r is None,
                Some(i) => r matches Some(t) && t@ == h.nodes@[i].title@,
            },
        },
{
    let b = match system_book(h, system_tag) {
        Some(b) => b,
        None => return None,
    };
    let root = h.nodes[b].id;
    let nv = chars_of(name);
    let mut i: usize = 0;
    while i < h.nodes.len()
        invariant
            i <= h.nodes@.len(),
            nv@ == name@,
            b < h.nodes@.len(),
            system_book_from(h.nodes@, system_tag@, 0) == Some(b as int),
            root == h.nodes@[b as int].id,
            subtree_node_from(h.nodes@, root, name@, 0) == subtree_node_from(h.nodes@, root, name@, i as int),
        decreases h.nodes@.len() - i,
    {
        if is_in_subtree(h, i, root) && chars_eq_ignore_ascii_case(&chars_of(h.nodes[i].title.as_str()), &nv) {
            return Some(h.nodes[i].title.clone());
        }
        i = i + 1;
    }
    None
}

/// How many of the first `n` nodes are paragraphs in the subtree of `root`.
pub open spec fn paragraphs_under(nodes: Seq<NodeInfo>, root: u64, n: int) -> nat
    decreases n,
{
    if n <= 0 {
        0
    } else {
        paragraphs_under(nodes, root, n - 1) + if nodes[n - 1].kind == NodeKind::Paragraph
            && in_subtree(nodes, n - 1, root) {
            1nat
        } else {
            0nat
        }
    }
}

/// Counts the paragraphs in the subtree of a node.
pub fn count_paragraphs_under(h: &Hierarchy, root: u64) -> (c: usize)
    ensures
        c == paragraphs_under(h.nodes@, root, h.nodes@.len() as int),
{
    let mut c: usize = 0;
    let mut i: usize = 0;
    while i < h.nodes.len()
        invariant
            i <= h.nodes@.len(),
            c == paragraphs_under(h.nodes@, root, i as int),
            c <= i,
        decreases h.nodes@.len() - i,
    {
        if h.nodes[i].kind == NodeKind::Paragraph && is_in_subtree(h, i, root) {
            c = c + 1;
        }
        i = i + 1;
    }
    c
}

/// Whether walking up from `cur` (itself included) meets a system book
/// within `fuel` steps.
pub open spec fn meets_system(nodes: Seq<NodeInfo>, cur: Option<u64>, fuel: nat) -> bool
    decreases fuel,
{
    match cur {
        None => false,
        Some(id) => match position_of(nodes, id, 0) {
            None => false,
            Some(p) => if nodes[p].system_tag is Some {
                true
            } else if fuel == 0 {
                false
            } else {
                meets_system(nodes, nodes[p].parent, (fuel - 1) as nat)
            },
        },
    }
}

/// Whether the node at `i` belongs to a system book (notes, places,
/// characters, the languages themselves, …) rather than the manuscript.
pub fn in_system_book(h: &Hierarchy, i: usize) -> (r: bool)
    requires
        i < h.nodes@.len(),
    ensures
        r == meets_system(h.nodes@, Some(h.nodes@[i as int].id), h.nodes@.len() as nat),
{
    let ghost nodes = h.nodes@;
    let mut cur: Option<u64> = Some(h.nodes[i].id);
    let mut fuel: usize = h.nodes.len();
    loop
        invariant
            nodes == h.nodes@,
            meets_system(nodes, cur, fuel as nat) == meets_system(
                nodes,
                Some(nodes[i as int].id),
                nodes.len() as nat,
            ),
        decreases fuel,
    {
        match cur {
            None => return false,
            Some(id) => match position_exec(h, id) {
                None => return false,
                Some(p) => {
                    if h.nodes[p].system_tag.is_some() {
                        return true;
                    }
                    if fuel == 0 {
                        return false;
                    }
                    cur = h.nodes[p].parent;
                    fuel = fuel - 1;
                },
            },
        }
    }
}

/// The positions, among the first `n` nodes, of the manuscript's paragraphs:
/// the paragraphs that belong to no system book.
pub open spec fn manuscript_positions(nodes: Seq<NodeInfo>, n: int) -> Seq<int>
    decreases n,
{
    if n <= 0 || n > nodes.len() {
        seq![]
    } else {
        manuscript_positions(nodes, n - 1) + if nodes[n - 1].kind == NodeKind::Paragraph
            && !meets_system(nodes, Some(nodes[n - 1].id), nodes.len() as nat) {
            seq![n - 1]
        } else {
            Seq::<int>::empty()
        }
    }
}

/// The paragraphs of the manuscript, in store order: every paragraph
/// outside the system books, which are reference material.
pub fn manuscript_paragraphs(h: &Hierarchy) -> (r: Vec<usize>)
    ensures
        r@.map_values(|x: usize| x as int) == manuscript_positions(h.nodes@, h.nodes@.len() as int),
{
    let mut r: Vec<usize> = Vec::new();
    let mut i: usize = 0;
    while i < h.nodes.len()
        invariant
            i <= h.nodes@.len(),
            r@.map_values(|x: usize| x as int) == manuscript_positions(h.nodes@, i as int),
        decreases h.nodes@.len() - i,
    {
        if h.nodes[i].kind == NodeKind::Paragraph && !in_system_book(h, i) {
            r.push(i);
        }
        assert(r@.map_values(|x: usize| x as int) =~= manuscript_positions(h.nodes@, i + 1));
        i = i + 1;
    }
    r
}

/// The positions, among the first `n` nodes, of the paragraphs in the
/// subtree of `root`.
pub open spec fn paragraphs_in(nodes: Seq<NodeInfo>, root: u64, n: int) -> Seq<int>
    decreases n,
{
    if n <= 0 || n > nodes.len() {
        seq![]
    } else {
        paragraphs_in(nodes, root, n - 1) + if nodes[n - 1].kind == NodeKind::Paragraph && in_subtree(
            nodes,
            n - 1,
            root,
        ) {
            seq![n - 1]
        } else {
            Seq::<int>::empty()
        }
    }
}

/// The paragraphs whose bodies declare a language's phoneme inventory: all
/// the paragraphs under its `Phonology` chapter (title ASCII case ignored),
/// in store order; none without the chapter.
pub fn phonology_paragraphs(h: &Hierarchy, book: usize) -> (r: Vec<usize>)
    requires
        book < h.nodes@.len(),
    ensures
        match named_child_from(h.nodes@, h.nodes@[book as int].id, NodeKind::Chapter, "Phonology"@, 0) {
            None => r@.len() == 0,
            Some(c) => r@.map_values(|x: usize| x as int) == paragraphs_in(
                h.nodes@,
                h.nodes@[c].id,
                h.nodes@.len() as int,
            ),
        },
{
    let c = match named_child(h, h.nodes[book].id, NodeKind::Chapter, "Phonology") {
        Some(c) => c,
        None => return Vec::new(),
    };
    let root = h.nodes[c].id;
    let mut r: Vec<usize> = Vec::new();
    let mut i: usize = 0;
    while i < h.nodes.len()
        invariant
            i <= h.nodes@.len(),
            r@.map_values(|x: usize| x as int) == paragraphs_in(h.nodes@, root, i as int),
        decreases h.nodes@.len() - i,
    {
        if h.nodes[i].kind == NodeKind::Paragraph && is_in_subtree(h, i, root) {
            r.push(i);
        }
        assert(r@.map_values(|x: usize| x as int) =~= paragraphs_in(h.nodes@, root, i + 1));
        i = i + 1;
    }
    r
}

// ───────────────────────── the language listing ───────────────────────────

/// The chapter counts of one language: dictionary entries, grammar rules,
/// phonology rules, samples.
pub struct LanguageCounts {
    pub name: String,
    pub entries: usize,
    pub grammar: usize,
    pub phonology: usize,
    pub samples: usize,
}

/// The counts after the first `n` nodes: for each child of the book whose
/// title names a counted chapter, the paragraphs under it (a later chapter
/// with the same role replacing an earlier one).
pub open spec fn counts_upto(nodes: Seq<NodeInfo>, book: u64, n: int) -> (nat, nat, nat, nat)
    decreases n,
{
    if n <= 0 {
        (0, 0, 0, 0)
    } else {
        let prev = counts_upto(nodes, book, n - 1);
        let c = nodes[n - 1];
        if c.parent == Some(book) {
            let k = paragraphs_under(nodes, c.id, nodes.len() as int);
            match chapter_role_of(c.title@) {
                ChapterRole::Dictionary => (k, prev.1, prev.2, prev.3),
                ChapterRole::Grammar => (prev.0, k, prev.2, prev.3),
                ChapterRole::Phonology => (prev.0, prev.1, k, prev.3),
                ChapterRole::SampleTexts => (prev.0, prev.1, prev.2, k),
                _ => prev,
            }
        } else {
            prev
        }
    }
}

/// The last of the first `n` nodes that is a child of `book` whose
/// lower-cased title is `name`.
pub open spec fn last_chapter_titled(nodes: Seq<NodeInfo>, book: u64, name: Seq<char>, n: int) -> Option<int>
    decreases n,
{
    if n <= 0 {
        None
    } else if nodes[n - 1].parent == Some(book) && unicode_str_lowercase(nodes[n - 1].title@) == name {
        Some(n - 1)
    } else {
        last_chapter_titled(nodes, book, name, n - 1)
    }
}

/// The paragraphs under the book's chapter titled `name` (the last such
/// chapter; none without one).
pub open spec fn paragraphs_in_chapter(nodes: Seq<NodeInfo>, book: u64, name: Seq<char>, n: int) -> nat {
    match last_chapter_titled(nodes, book, name, n) {
        Some(i) => paragraphs_under(nodes, nodes[i].id, nodes.len() as int),
        None => 0,
    }
}

/// Each count of the language listing belongs to its own chapter: the
/// entries are the paragraphs under the chapter titled `dictionary`, the
/// grammar rules those under `grammar`, the phonology rules those under
/// `phonology` and the samples those under `sample texts` (titles compared
/// lower-cased).
pub proof fn lemma_counts_by_chapter(nodes: Seq<NodeInfo>, book: u64, n: int)
    requires
        0 <= n <= nodes.len(),
    ensures
        counts_upto(nodes, book, n).0 == paragraphs_in_chapter(nodes, book, "dictionary"@, n),
        counts_upto(nodes, book, n).1 == paragraphs_in_chapter(nodes, book, "grammar"@, n),
        counts_upto(nodes, book, n).2 == paragraphs_in_chapter(nodes, book, "phonology"@, n),
        counts_upto(nodes, book, n).3 == paragraphs_in_chapter(nodes, book, "sample texts"@, n),
    decreases n,
{
    reveal_strlit("dictionary");
    reveal_strlit("grammar");
    reveal_strlit("phonology");
    reveal_strlit("sample texts");
    reveal_strlit("meta");
    if n > 0 {
        lemma_counts_by_chapter(nodes, book, n - 1);
        let c = nodes[n - 1];
        let t = unicode_str_lowercase(c.title@);
        let d = "dictionary"@;
        let g = "grammar"@;
        let p = "phonology"@;
        let st = "sample texts"@;
        let m = "meta"@;
        assert(d[0] == 'd' && g[0] == 'g' && p[0] == 'p' && st[0] == 's' && m[0] == 'm');
        assert(d != g && d != p && d != st && g != p && g != st && p != st);
        assert(m != d && m != g && m != p && m != st);
    }
}

/// Counts a language's dictionary entries, grammar and phonology rules and
/// samples (paragraphs under its chapters of those names).
pub fn language_counts(h: &Hierarchy, book: usize) -> (r: LanguageCounts)
    requires
        book < h.nodes@.len(),
    ensures
        r.name@ == h.nodes@[book as int].title@,
        (r.entries as nat, r.grammar as nat, r.phonology as nat, r.samples as nat) == counts_upto(
            h.nodes@,
            h.nodes@[book as int].id,
            h.nodes@.len() as int,
        ),
        r.entries as nat == paragraphs_in_chapter(h.nodes@, h.nodes@[book as int].id, "dictionary"@, h.nodes@.len() as int),
        r.grammar as nat == paragraphs_in_chapter(h.nodes@, h.nodes@[book as int].id, "grammar"@, h.nodes@.len() as int),
        r.phonology as nat == paragraphs_in_chapter(h.nodes@, h.nodes@[book as int].id, "phonology"@, h.nodes@.len() as int),
        r.samples as nat == paragraphs_in_chapter(h.nodes@, h.nodes@[book as int].id, "sample texts"@, h.nodes@.len() as int),
{
    proof {
        lemma_counts_by_chapter(h.nodes@, h.nodes@[book as int].id, h.nodes@.len() as int);
    }
    let bid = h.nodes[book].id;
    let mut e: usize = 0;
    let mut g: usize = 0;
    let mut p: usize = 0;
    let mut s: usize = 0;
    let mut i: usize = 0;
    while i < h.nodes.len()
        invariant
            i <= h.nodes@.len(),
            bid == h.nodes@[book as int].id,
            book < h.nodes@.len(),
            (e as nat, g as nat, p as nat, s as nat) == counts_upto(h.nodes@, bid, i as int),
        decreases h.nodes@.len() - i,
    {
        if h.nodes[i].parent == Some(bid) {
            let role = chapter_role(h.nodes[i].title.as_str());
            match role {
                ChapterRole::Dictionary => e = count_paragraphs_under(h, h.nodes[i].id),
                ChapterRole::Grammar => g = count_paragraphs_under(h, h.nodes[i].id),
                ChapterRole::Phonology => p = count_paragraphs_under(h, h.nodes[i].id),
                ChapterRole::SampleTexts => s = count_paragraphs_under(h, h.nodes[i].id),
                _ => {},
            }
        }
        i = i + 1;
    }
    LanguageCounts {
        name: string_of(&chars_of(h.nodes[book].title.as_str())),
        entries: e,
        grammar: g,
        phonology: p,
        samples: s,
    }
}

/// `s` padded with spaces on the left to at least `w` characters (what
/// `{:>w}` formats a number as).
pub open spec fn pad_left(s: Seq<char>, w: nat) -> Seq<char> {
    if s.len() >= w {
        s
    } else {
        spaces((w - s.len()) as nat) + s
    }
}

/// The width of the name column: the longest name, at least 8.
pub open spec fn name_width(rows: Seq<LanguageCounts>) -> nat
    decreases rows.len(),
{
    if rows.len() == 0 {
        8
    } else {
        let w = name_width(rows.drop_last());
        if rows.last().name@.len() > w {
            rows.last().name@.len()
        } else {
            w
        }
    }
}

/// One table row: the name, then the four counts right-aligned.
pub open spec fn table_row(w: nat, name: Seq<char>, a: Seq<char>, b: Seq<char>, c: Seq<char>, d: Seq<char>) -> Seq<char> {
    "  "@ + pad_right(name, w) + "  "@ + pad_left(a, 6) + "  "@ + pad_left(b, 7) + "  "@ + pad_left(c, 9)
        + "  "@ + pad_left(d, 7)
}

/// The dash rule under the heading.
pub open spec fn dashes(n: nat) -> Seq<char> {
    Seq::new(n, |i: int| '-')
}

/// The language listing: a heading, a rule, then one row per language.
pub open spec fn language_table_lines(rows: Seq<LanguageCounts>) -> Seq<Seq<char>> {
    let w = name_width(rows);
    seq![
        table_row(w, "name"@, "words"@, "grammar"@, "phonology"@, "samples"@),
        "  "@ + dashes(w + 36),
    ] + rows.map_values(
        |r: LanguageCounts|
            table_row(
                w,
                r.name@,
                decimal(r.entries as nat),
                decimal(r.grammar as nat),
                decimal(r.phonology as nat),
                decimal(r.samples as nat),
            ),
    )
}

/// Appends `s` padded on the left to `w` characters.
fn push_padded_left(v: &mut Vec<char>, s: &Vec<char>, w: usize)
    ensures
        final(v)@ == old(v)@ + pad_left(s@, w as nat),
{
    let ghost start = v@;
    let mut n: usize = s.len();
    while n < w
        invariant
            s@.len() <= n,
            n <= w || n == s@.len(),
            v@ == start + spaces((n - s@.len()) as nat),
        decreases w - n,
    {
        v.push(' ');
        assert(spaces((n + 1 - s@.len()) as nat) =~= spaces((n - s@.len()) as nat).push(' '));
        n = n + 1;
    }
    assert(spaces(0) =~= Seq::<char>::empty());
    push_all(v, s);
    if s.len() >= w {
        assert(v@ =~= start + s@);
    }
}

/// One table row's characters.
fn table_row_chars(w: usize, name: &Vec<char>, a: &Vec<char>, b: &Vec<char>, c: &Vec<char>, d: &Vec<char>) -> (r: Vec<char>)
    ensures
        r@ == table_row(w as nat, name@, a@, b@, c@, d@),
{
    let mut r = chars_of("  ");
    push_padded(&mut r, name, w);
    push_str(&mut r, "  ");
    push_padded_left(&mut r, a, 6);
    push_str(&mut r, "  ");
    push_padded_left(&mut r, b, 7);
    push_str(&mut r, "  ");
    push_padded_left(&mut r, c, 9);
    push_str(&mut r, "  ");
    push_padded_left(&mut r, d, 7);
    r
}

/// The lines of `language list` (when at least one language exists).
pub fn language_table(rows: &Vec<LanguageCounts>) -> (r: Vec<String>)
    requires
        name_width(rows@) + 36 <= usize::MAX,
    ensures
        strings_view(r@) == language_table_lines(rows@),
{
    let mut w: usize = 8;
    let mut i: usize = 0;
    while i < rows.len()
        invariant
            i <= rows@.len(),
            w == name_width(rows@.take(i as int)),
        decreases rows@.len() - i,
    {
        let n = chars_of(rows[i].name.as_str()).len();
        assert(rows@.take(i + 1).drop_last() =~= rows@.take(i as int));
        assert(rows@.take(i + 1).last() == rows@[i as int]);
        if n > w {
            w = n;
        }
        i = i + 1;
    }
    assert(rows@.take(rows@.len() as int) =~= rows@);
    let mut out: Vec<String> = Vec::new();
    push_line(
        &mut out,
        &table_row_chars(
            w,
            &chars_of("name"),
            &chars_of("words"),
            &chars_of("grammar"),
            &chars_of("phonology"),
            &chars_of("samples"),
        ),
    );
    let mut rule = chars_of("  ");
    let mut k: usize = 0;
    while k < w + 36
        invariant
            k <= w + 36,
            w + 36 <= usize::MAX,
            rule@ == "  "@ + dashes(k as nat),
        decreases w + 36 - k,
    {
        rule.push('-');
        assert(dashes((k + 1) as nat) =~= dashes(k as nat).push('-'));
        k = k + 1;
    }
    push_line(&mut out, &rule);
    let ghost start = strings_view(out@);
    let mut j: usize = 0;
    while j < rows.len()
        invariant
            j <= rows@.len(),
            w == name_width(rows@),
            strings_view(out@) == start + rows@.take(j as int).map_values(
                |r: LanguageCounts|
                    table_row(
                        w as nat,
                        r.name@,
                        decimal(r.entries as nat),
                        decimal(r.grammar as nat),
                        decimal(r.phonology as nat),
                        decimal(r.samples as nat),
                    ),
            ),
        decreases rows@.len() - j,
    {
        let r = &rows[j];
        let line = table_row_chars(
            w,
            &chars_of(r.name.as_str()),
            &decimal_digits(r.entries),
            &decimal_digits(r.grammar),
            &decimal_digits(r.phonology),
            &decimal_digits(r.samples),
        );
        push_line(&mut out, &line);
        assert(rows@.take(j + 1) =~= rows@.take(j as int).push(rows@[j as int]));
        j = j + 1;
    }
    assert(rows@.take(rows@.len() as int) =~= rows@);
    out
}

/// The note printed when no language exists yet.
pub const NO_LANGUAGES: &'static str = "no languages defined — run `inkhaven language init <name>`";

// ───────────────────────── locating a dictionary entry ────────────────────

/// Where `remove-word` finds a word: the language's book, its `Dictionary`
/// chapter, the word's bucket subchapter (the bucket the overview derives,
/// else the word's uppercased first letter), and the entry paragraph; or the
/// refusal text of the first step that fails (`None`: no `Language` book).
pub open spec fn word_location(
    nodes: Seq<NodeInfo>,
    tag: Seq<char>,
    language: Seq<char>,
    word: Seq<char>,
    derived: Option<Seq<char>>,
) -> Result<int, Option<Seq<char>>> {
    match system_book_from(nodes, tag, 0) {
        None => Err(None),
        Some(root) => match named_child_from(nodes, nodes[root].id, NodeKind::Book, language, 0) {
            None => Err(Some("language `"@ + language + "` not found"@)),
            Some(book) => match named_child_from(
                nodes,
                nodes[book].id,
                NodeKind::Chapter,
                "Dictionary"@,
                0,
            ) {
                None => Err(Some("language `"@ + language + "` has no Dictionary chapter"@)),
                Some(dict) => match (match derived {
                    Some(b) => Some(b),
                    None => bucket_of(word),
                }) {
                    None => Err(Some("could not derive alphabet bucket from `"@ + word + "`"@)),
                    Some(b) => match named_child_from(nodes, nodes[dict].id, NodeKind::Subchapter, b, 0) {
                        None => Err(
                            Some(
                                "no bucket subchapter `"@ + b + "` under `"@ + language
                                    + "/Dictionary` — `"@ + word + "` isn't defined"@,
                            ),
                        ),
                        Some(sub) => match named_child_from(
                            nodes,
                            nodes[sub].id,
                            NodeKind::Paragraph,
                            word,
                            0,
                        ) {
                            None => Err(
                                Some(
                                    "word `"@ + word + "` not found under `"@ + language
                                        + "/Dictionary/"@ + b + "`"@,
                                ),
                            ),
                            Some(e) => Ok(e),
                        },
                    },
                },
            },
        },
    }
}

/// A refusal built from pieces.
fn config_error(m: &Vec<char>) -> (e: LanguageError)
    ensures
        e matches LanguageError::Config(t) && t@ == m@,
{
    LanguageError::Config(string_of(m))
}

/// Finds the paragraph a dictionary word is stored in. `derived` is the
/// bucket the language overview assigns the word, if it assigns one.
pub fn locate_word(
    h: &Hierarchy,
    tag: &str,
    language: &str,
    word: &str,
    derived: Option<String>,
) -> (r: Result<usize, LanguageError>)
    ensures
        match word_location(
            h.nodes@,
            tag@,
            language@,
            word@,
            match derived {
                Some(b) => Some(b@),
                None => None,
            },
        ) {
            Ok(i) => r matches Ok(k) && k as int == i,
            Err(None) => r matches Err(LanguageError::Store(m)) && m@ == NO_LANGUAGE_BOOK@,
            Err(Some(msg)) => r matches Err(LanguageError::Config(m)) && m@ == msg,
        },
{
    let root = match system_book(h, tag) {
        Some(i) => i,
        None => return Err(LanguageError::Store(String::from_str(NO_LANGUAGE_BOOK))),
    };
    let book = match named_child(h, h.nodes[root].id, NodeKind::Book, language) {
        Some(i) => i,
        None => return Err(refusal("language `", language, "` not found")),
    };
    let dict = match named_child(h, h.nodes[book].id, NodeKind::Chapter, "Dictionary") {
        Some(i) => i,
        None => return Err(refusal("language `", language, "` has no Dictionary chapter")),
    };
    let bucket = match derived {
        Some(b) => b,
        None => match crate::csv_import::alphabet_bucket(word) {
            Some(b) => b,
            None => return Err(refusal("could not derive alphabet bucket from `", word, "`")),
        },
    };
    let sub = match named_child(h, h.nodes[dict].id, NodeKind::Subchapter, bucket.as_str()) {
        Some(i) => i,
        None => {
            let mut m = chars_of("no bucket subchapter `");
            push_str(&mut m, bucket.as_str());
            push_str(&mut m, "` under `");
            push_str(&mut m, language);
            push_str(&mut m, "/Dictionary` — `");
            push_str(&mut m, word);
            push_str(&mut m, "` isn't defined");
            return Err(config_error(&m));
        },
    };
    match named_child(h, h.nodes[sub].id, NodeKind::Paragraph, word) {
        Some(i) => Ok(i),
        None => {
            let mut m = chars_of("word `");
            push_str(&mut m, word);
            push_str(&mut m, "` not found under `");
            push_str(&mut m, language);
            push_str(&mut m, "/Dictionary/");
            push_str(&mut m, bucket.as_str());
            push_str(&mut m, "`");
            Err(config_error(&m))
        },
    }
}

// ───────────────────────── filing a new entry ─────────────────────────────

/// The first child of `parent` of the given kind titled exactly `name`,
/// from position `from` on.
pub open spec fn exact_child_from(
    nodes: Seq<NodeInfo>,
    parent: u64,
    kind: NodeKind,
    name: Seq<char>,
    from: int,
) -> Option<int>
    decreases nodes.len() - from,
{
    if from < 0 || from >= nodes.len() {
        None
    } else if nodes[from].parent == Some(parent) && nodes[from].kind == kind && nodes[from].title@
        == name {
        Some(from)
    } else {
        exact_child_from(nodes, parent, kind, name, from + 1)
    }
}

/// The position of the first child of `parent` of the given kind titled
/// exactly `name`.
pub fn exact_child(h: &Hierarchy, parent: u64, kind: NodeKind, name: &str) -> (r: Option<usize>)
    ensures
        match r {
            Some(i) => exact_child_from(h.nodes@, parent, kind, name@, 0) == Some(i as int),
            None => exact_child_from(h.nodes@, parent, kind, name@, 0) is None,
        },
        r matches Some(i) ==> i < h.nodes@.len(),
{
    let mut i: usize = 0;
    while i < h.nodes.len()
        invariant
            i <= h.nodes@.len(),
            exact_child_from(h.nodes@, parent, kind, name@, 0) == exact_child_from(
                h.nodes@,
                parent,
                kind,
                name@,
                i as int,
            ),
        decreases h.nodes@.len() - i,
    {
        let n = &h.nodes[i];
        if n.parent == Some(parent) && n.kind == kind && str_eq(n.title.as_str(), name) {
            return Some(i);
        }
        i = i + 1;
    }
    None
}

/// Where the store-side word removal finds an entry of a language's book:
/// its `Dictionary` chapter, the word's bucket subchapter (the bucket the
/// overview derives, else the word's uppercased first letter), and the entry
/// paragraph; or the refusal of the first step that fails.
pub open spec fn entry_location(nodes: Seq<NodeInfo>, book: int, word: Seq<char>, derived: Option<Seq<char>>) -> Result<
    int,
    Seq<char>,
> {
    match named_child_from(nodes, nodes[book].id, NodeKind::Chapter, "Dictionary"@, 0) {
        None => Err("language has no Dictionary chapter"@),
        Some(dict) => match (match derived {
            Some(b) => Some(b),
            None => bucket_of(word),
        }) {
            None => Err("could not derive alphabet bucket from `"@ + word + "`"@),
            Some(b) => match named_child_from(nodes, nodes[dict].id, NodeKind::Subchapter, b, 0) {
                None => Err("`"@ + word + "` isn't defined (no `"@ + b + "` bucket)"@),
                Some(sub) => match named_child_from(nodes, nodes[sub].id, NodeKind::Paragraph, word, 0) {
                    None => Err("word `"@ + word + "` not found"@),
                    Some(e) => Ok(e),
                },
            },
        },
    }
}

/// Finds the entry paragraph of a word in a language's book, for deleting
/// it with its subtree. `derived` is the bucket the language overview
/// assigns the word, if it assigns one.
pub fn locate_entry(h: &Hierarchy, book: usize, word: &str, derived: Option<String>) -> (r: Result<
    usize,
    LanguageError,
>)
    requires
        book < h.nodes@.len(),
    ensures
        match entry_location(
            h.nodes@,
            book as int,
            word@,
            match derived {
                Some(b) => Some(b@),
                None => None,
            },
        ) {
            Ok(i) => r matches Ok(k) && k as int == i,
            Err(msg) => r matches Err(LanguageError::Config(m)) && m@ == msg,
        },
{
    let dict = match named_child(h, h.nodes[book].id, NodeKind::Chapter, "Dictionary") {
        Some(i) => i,
        None => return Err(LanguageError::Config(String::from_str("language has no Dictionary chapter"))),
    };
    let bucket = match derived {
        Some(b) => b,
        None => match crate::csv_import::alphabet_bucket(word) {
            Some(b) => b,
            None => return Err(refusal("could not derive alphabet bucket from `", word, "`")),
        },
    };
    let sub = match named_child(h, h.nodes[dict].id, NodeKind::Subchapter, bucket.as_str()) {
        Some(i) => i,
        None => {
            let mut m = chars_of("`");
            push_str(&mut m, word);
            push_str(&mut m, "` isn't defined (no `");
            push_str(&mut m, bucket.as_str());
            push_str(&mut m, "` bucket)");
            return Err(config_error(&m));
        },
    };
    match named_child(h, h.nodes[sub].id, NodeKind::Paragraph, word) {
        Some(i) => Ok(i),
        None => Err(refusal("word `", word, "` not found")),
    }
}

/// The position of a language's `Meta/overview` paragraph: the book's
/// `Meta` chapter, then its `overview` paragraph (titles ASCII case
/// ignored); none when either is missing.
pub open spec fn overview_position(nodes: Seq<NodeInfo>, book: int) -> Option<int> {
    match named_child_from(nodes, nodes[book].id, NodeKind::Chapter, "Meta"@, 0) {
        None => None,
        Some(meta) => named_child_from(nodes, nodes[meta].id, NodeKind::Paragraph, "overview"@, 0),
    }
}

/// Finds the paragraph holding a language's overview.
pub fn overview_paragraph(h: &Hierarchy, book: usize) -> (r: Option<usize>)
    requires
        book < h.nodes@.len(),
    ensures
        match overview_position(h.nodes@, book as int) {
            Some(i) => r == Some(i as usize),
            None => r is None,
        },
{
    let meta = match named_child(h, h.nodes[book].id, NodeKind::Chapter, "Meta") {
        Some(m) => m,
        None => return None,
    };
    named_child(h, h.nodes[meta].id, NodeKind::Paragraph, "overview")
}

/// The proto-language of a daughter: the book, under the `Language` book,
/// named by the daughter's diachronics block (ASCII case ignored); refused
/// when the block names none or the book does not exist.
pub open spec fn proto_lookup(nodes: Seq<NodeInfo>, tag: Seq<char>, daughter: Seq<char>, proto: Option<Seq<char>>) -> Result<
    int,
    Option<Seq<char>>,
> {
    match proto {
        None => Err(
            Some(
                "language `"@ + daughter
                    + "`'s diachronics block has no `proto` — name the parent language"@,
            ),
        ),
        Some(p) => match system_book_from(nodes, tag, 0) {
            None => Err(None),
            Some(root) => match named_child_from(nodes, nodes[root].id, NodeKind::Book, p, 0) {
                None => Err(
                    Some(
                        "proto-language `"@ + p + "` not found — `inkhaven language init "@ + p
                            + "` first"@,
                    ),
                ),
                Some(b) => Ok(b),
            },
        },
    }
}

/// Finds the book of a daughter language's proto-language. The `Language`
/// book missing is a store error.
pub fn resolve_proto(h: &Hierarchy, tag: &str, daughter: &str, proto: Option<String>) -> (r: Result<
    usize,
    LanguageError,
>)
    ensures
        match proto_lookup(
            h.nodes@,
            tag@,
            daughter@,
            match proto {
                Some(p) => Some(p@),
                None => None,
            },
        ) {
            Ok(i) => r matches Ok(k) && k as int == i,
            Err(None) => r matches Err(LanguageError::Store(m)) && m@ == "Language system book missing"@,
            Err(Some(msg)) => r matches Err(LanguageError::Config(m)) && m@ == msg,
        },
{
    let p = match proto {
        Some(p) => p,
        None => {
            return Err(
                refusal(
                    "language `",
                    daughter,
                    "`'s diachronics block has no `proto` — name the parent language",
                ),
            )
        },
    };
    let root = match system_book(h, tag) {
        Some(i) => i,
        None => return Err(LanguageError::Store(String::from_str("Language system book missing"))),
    };
    match named_child(h, h.nodes[root].id, NodeKind::Book, p.as_str()) {
        Some(b) => Ok(b),
        None => {
            let mut m = chars_of("proto-language `");
            push_str(&mut m, p.as_str());
            push_str(&mut m, "` not found — `inkhaven language init ");
            push_str(&mut m, p.as_str());
            push_str(&mut m, "` first");
            Err(config_error(&m))
        },
    }
}

/// The first child of `parent`, of any kind, from position `from` on,
/// titled like `name` (ASCII case ignored).
pub open spec fn titled_child_from(nodes: Seq<NodeInfo>, parent: u64, name: Seq<char>, from: int) -> Option<int>
    decreases nodes.len() - from,
{
    if from < 0 || from >= nodes.len() {
        None
    } else if nodes[from].parent == Some(parent) && eq_ignore_ascii_case(nodes[from].title@, name) {
        Some(from)
    } else {
        titled_child_from(nodes, parent, name, from + 1)
    }
}

/// The chapter a `define-rule` writes into: the child of the language's
/// book titled like the (lowercased) category; refused when it is missing.
pub fn rule_chapter(h: &Hierarchy, book: usize, language: &str, category: &str) -> (r: Result<
    usize,
    LanguageError,
>)
    requires
        book < h.nodes@.len(),
    ensures
        match titled_child_from(h.nodes@, h.nodes@[book as int].id, category@, 0) {
            Some(i) => r matches Ok(k) && k as int == i,
            None => r matches Err(LanguageError::Config(m)) && m@ == "`"@ + category@
                + "` chapter not found under language `"@ + language@
                + "` — was it scaffolded? Try `inkhaven language init "@ + language@ + "`"@,
        },
{
    let pid = h.nodes[book].id;
    let nv = chars_of(category);
    let mut i: usize = 0;
    while i < h.nodes.len()
        invariant
            i <= h.nodes@.len(),
            nv@ == category@,
            pid == h.nodes@[book as int].id,
            book < h.nodes@.len(),
            titled_child_from(h.nodes@, pid, category@, 0) == titled_child_from(h.nodes@, pid, category@, i as int),
        decreases h.nodes@.len() - i,
    {
        if h.nodes[i].parent == Some(pid) && chars_eq_ignore_ascii_case(&chars_of(h.nodes[i].title.as_str()), &nv) {
            return Ok(i);
        }
        i = i + 1;
    }
    let mut m = chars_of("`");
    push_str(&mut m, category);
    push_str(&mut m, "` chapter not found under language `");
    push_str(&mut m, language);
    push_str(&mut m, "` — was it scaffolded? Try `inkhaven language init ");
    push_str(&mut m, language);
    push_str(&mut m, "`");
    Err(config_error(&m))
}

/// Where a new dictionary entry goes: the dictionary chapter, the bucket,
/// and the bucket's subchapter when it exists already (otherwise it is
/// created).
pub struct EntryPlan {
    pub dictionary: usize,
    pub bucket: String,
    pub subchapter: Option<usize>,
}

/// The refusal of a word already filed under its bucket.
pub open spec fn duplicate_refusal(word: Seq<char>, book: Seq<char>, bucket: Seq<char>) -> Seq<char> {
    "word `"@ + word + "` already defined under `"@ + book + "/Dictionary/"@ + bucket + "`"@
}

/// Decides where a new word is filed in a language's book: under the
/// `Dictionary` chapter, in the bucket the overview derives (else the
/// word's uppercased first letter), in that bucket's subchapter if there is
/// one; refused when the chapter is missing, no bucket can be derived, or
/// the subchapter already holds something titled like the word.
#[verifier::loop_isolation(false)]
pub fn plan_dictionary_entry(h: &Hierarchy, book: usize, word: &str, derived: Option<String>) -> (r: Result<
    EntryPlan,
    LanguageError,
>)
    requires
        book < h.nodes@.len(),
    ensures
        ({
            let nodes = h.nodes@;
            let title = nodes[book as int].title@;
            match named_child_from(nodes, nodes[book as int].id, NodeKind::Chapter, "Dictionary"@, 0) {
                None => r matches Err(LanguageError::Config(m)) && m@ == "language `"@ + title
                    + "` has no `Dictionary` chapter — likely scaffolded with a pre-Phase-A inkhaven"@,
                Some(d) => match (match derived {
                    Some(b) => Some(b@),
                    None => bucket_of(word@),
                }) {
                    None => r matches Err(LanguageError::Config(m)) && m@
                        == "could not derive alphabet bucket from `"@ + word@ + "`"@,
                    Some(b) => match exact_child_from(nodes, nodes[d].id, NodeKind::Subchapter, b, 0) {
                        None => r matches Ok(p) && p.dictionary as int == d && p.bucket@ == b
                            && p.subchapter is None,
                        Some(sub) => if has_child_named(nodes, nodes[sub].id, word@) {
                            r matches Err(LanguageError::Config(m)) && m@ == duplicate_refusal(
                                word@,
                                title,
                                b,
                            )
                        } else {
                            r matches Ok(p) && p.dictionary as int == d && p.bucket@ == b
                                && p.subchapter == Some(sub as usize)
                        },
                    },
                },
            }
        }),
{
    let title = h.nodes[book].title.as_str();
    let dict = match named_child(h, h.nodes[book].id, NodeKind::Chapter, "Dictionary") {
        Some(d) => d,
        None => {
            return Err(
                refusal(
                    "language `",
                    title,
                    "` has no `Dictionary` chapter — likely scaffolded with a pre-Phase-A inkhaven",
                ),
            )
        },
    };
    let bucket = match derived {
        Some(b) => b,
        None => match crate::csv_import::alphabet_bucket(word) {
            Some(b) => b,
            None => return Err(refusal("could not derive alphabet bucket from `", word, "`")),
        },
    };
    let sub = match exact_child(h, h.nodes[dict].id, NodeKind::Subchapter, bucket.as_str()) {
        Some(s) => s,
        None => return Ok(EntryPlan { dictionary: dict, bucket, subchapter: None }),
    };
    let sid = h.nodes[sub].id;
    let wv = chars_of(word);
    let mut i: usize = 0;
    while i < h.nodes.len()
        invariant
            i <= h.nodes@.len(),
            wv@ == word@,
            forall|k: int|
                0 <= k < i ==> !(h.nodes@[k].parent == Some(sid) && eq_ignore_ascii_case(
                    #[trigger] h.nodes@[k].title@,
                    word@,
                )),
        decreases h.nodes@.len() - i,
    {
        if h.nodes[i].parent == Some(sid) && chars_eq_ignore_ascii_case(
            &chars_of(h.nodes[i].title.as_str()),
            &wv,
        ) {
            assert(eq_ignore_ascii_case(h.nodes@[i as int].title@, word@));
            assert(has_child_named(h.nodes@, sid, word@));
            let mut m = chars_of("word `");
            push_str(&mut m, word);
            push_str(&mut m, "` already defined under `");
            push_str(&mut m, title);
            push_str(&mut m, "/Dictionary/");
            push_str(&mut m, bucket.as_str());
            push_str(&mut m, "`");
            return Err(config_error(&m));
        }
        i = i + 1;
    }
    assert(!has_child_named(h.nodes@, sid, word@));
    Ok(EntryPlan { dictionary: dict, bucket, subchapter: Some(sub) })
}

/// The refusal of an already filed word is what the CSV import counts as a
/// skipped duplicate rather than a failure.
pub proof fn lemma_duplicate_counts_as_skip(word: Seq<char>, book: Seq<char>, bucket: Seq<char>)
    ensures
        crate::import_plan::is_duplicate_refusal(duplicate_refusal(word, book, bucket)),
{
    reveal_strlit("word `");
    reveal_strlit("` already defined under `");
    reveal_strlit("already defined");
    let m = duplicate_refusal(word, book, bucket);
    let i: int = 6 + word.len() as int + 2;
    let lit: Seq<char> = "already defined"@;
    assert(m.subrange(i, i + lit.len() as int) =~= lit);
    assert(crate::text::occurs_at(m, lit, i));
}

/// The note printed after a word is added.
pub fn added_word_note(word: &str, language: &str, bucket: &str, pos: &str, translation: &str) -> (r: String)
    ensures
        r@ == "added `"@ + word@ + "` to `"@ + language@ + "/Dictionary/"@ + bucket@ + "` ("@ + pos@
            + " · "@ + translation@ + ")"@,
{
    let mut m = chars_of("added `");
    push_str(&mut m, word);
    push_str(&mut m, "` to `");
    push_str(&mut m, language);
    push_str(&mut m, "/Dictionary/");
    push_str(&mut m, bucket);
    push_str(&mut m, "` (");
    push_str(&mut m, pos);
    push_str(&mut m, " · ");
    push_str(&mut m, translation);
    push_str(&mut m, ")");
    string_of(&m)
}

} // verus!
