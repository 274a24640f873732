//! `language gaps`: the glosses a concept scope is checked against, and the
//! report's listing of the missing concepts.
use vstd::prelude::*;
use crate::entry::{decimal, decimal_digits, DictionaryEntry};
use crate::text::{
    chars_of, join_seqs, join_strings, push_all, push_line, push_str, string_of, strings_view, trim,
    trim_ws,
};

verus! {

/// The translations of the entries that are not blank, in entry order.
pub open spec fn gloss_list(es: Seq<DictionaryEntry>) -> Seq<Seq<char>>
    decreases es.len(),
{
    if es.len() == 0 {
        seq![]
    } else {
        gloss_list(es.drop_last()) + if trim_ws(es.last().translation@).len() > 0 {
            seq![es.last().translation@]
        } else {
            Seq::<Seq<char>>::empty()
        }
    }
}

/// The glosses the scope's concepts are looked up in.
pub fn gap_glosses(entries: &[DictionaryEntry]) -> (r: Vec<String>)
    ensures
        strings_view(r@) == gloss_list(entries@),
{
    let mut r: Vec<String> = Vec::new();
    let mut i: usize = 0;
    while i < entries.len()
        invariant
            i <= entries@.len(),
            strings_view(r@) == gloss_list(entries@.take(i as int)),
        decreases entries@.len() - i,
    {
        assert(entries@.take(i + 1).drop_last() =~= entries@.take(i as int));
        assert(entries@.take(i + 1).last() == entries@[i as int]);
        let t = &entries[i].translation;
        if trim(&chars_of(t.as_str())).len() > 0 {
            let ghost before = strings_view(r@);
            r.push(t.clone());
            assert(strings_view(r@) =~= before.push(t@));
        }
        assert(strings_view(r@) =~= gloss_list(entries@.take(i + 1)));
        i = i + 1;
    }
    assert(entries@.take(entries@.len() as int) =~= entries@);
    r
}

/// The missing concepts six to a line, each line indented.
pub open spec fn chunk_lines(ms: Seq<Seq<char>>) -> Seq<Seq<char>>
    decreases ms.len(),
{
    if ms.len() == 0 {
        seq![]
    } else if ms.len() <= 6 {
        seq!["  "@ + join_seqs(ms, ", "@)]
    } else {
        seq!["  "@ + join_seqs(ms.take(6), ", "@)] + chunk_lines(ms.skip(6))
    }
}

/// The listing of the missing concepts.
pub fn missing_lines(missing: &Vec<String>) -> (r: Vec<String>)
    ensures
        strings_view(r@) == chunk_lines(strings_view(missing@)),
{
    let ghost all = strings_view(missing@);
    let mut lines: Vec<String> = Vec::new();
    assert(all.skip(0) =~= all);
    assert(strings_view(lines@) + all =~= all);
    let mut i: usize = 0;
    while i < missing.len()
        invariant
            i <= missing@.len(),
            all == strings_view(missing@),
            chunk_lines(all) == strings_view(lines@) + chunk_lines(all.skip(i as int)),
        decreases missing@.len() - i,
    {
        let end = if missing.len() - i <= 6 {
            missing.len()
        } else {
            i + 6
        };
        let mut chunk: Vec<String> = Vec::new();
        let mut j: usize = i;
        while j < end
            invariant
                i <= j <= end,
                end <= missing@.len(),
                all == strings_view(missing@),
                strings_view(chunk@) == all.subrange(i as int, j as int),
            decreases end - j,
        {
            let ghost before = strings_view(chunk@);
            assert(all[j as int] == missing@[j as int]@);
            chunk.push(missing[j].clone());
            assert(strings_view(chunk@) =~= before.push(missing@[j as int]@));
            assert(strings_view(chunk@) =~= all.subrange(i as int, j + 1));
            j = j + 1;
        }
        let mut l = chars_of("  ");
        push_all(&mut l, &join_strings(&chunk, ", "));
        let ghost rest = all.skip(i as int);
        proof {
            if rest.len() <= 6 {
                assert(rest =~= all.subrange(i as int, end as int));
                assert(all.skip(end as int) =~= Seq::<Seq<char>>::empty());
            } else {
                assert(rest.take(6) =~= all.subrange(i as int, end as int));
                assert(rest.skip(6) =~= all.skip(end as int));
            }
        }
        let ghost before = strings_view(lines@);
        push_line(&mut lines, &l);
        assert(strings_view(lines@) =~= before.push(l@));
        assert(strings_view(lines@) + chunk_lines(all.skip(end as int)) =~= before + chunk_lines(rest));
        i = end;
    }
    assert(all.skip(missing@.len() as int) =~= Seq::<Seq<char>>::empty());
    assert(strings_view(lines@) + Seq::<Seq<char>>::empty() =~= strings_view(lines@));
    lines
}

/// The heading of the missing concepts.
pub fn missing_heading(count: usize) -> (r: String)
    ensures
        r@ == "\nMissing ("@ + decimal(count as nat) + "), most-core first:"@,
{
    let mut m = chars_of("\nMissing (");
    push_all(&mut m, &decimal_digits(count));
    push_str(&mut m, "), most-core first:");
    string_of(&m)
}

/// What a full coverage prints.
pub const FULL_COVERAGE: &'static str = "\n✓ full coverage — nothing missing in this scope.";

/// The suggestion closing a report with missing concepts: the generator
/// command with the first three as topic and at most twenty as count.
pub fn gap_suggestion(language: &str, missing: &Vec<String>) -> (r: String)
    ensures
        r@ == "\nFeed these to the generator, e.g.:\n  inkhaven language generate-lexicon "@ + language@
            + " --topic \""@ + join_seqs(
            strings_view(missing@).take(
                if missing@.len() < 3 {
                    missing@.len() as int
                } else {
                    3
                },
            ),
            ", "@,
        ) + "\" --count "@ + decimal(
            if missing@.len() < 20 {
                missing@.len() as nat
            } else {
                20
            },
        ),
{
    let k: usize = if missing.len() < 3 {
        missing.len()
    } else {
        3
    };
    let mut first: Vec<String> = Vec::new();
    let mut i: usize = 0;
    while i < k
        invariant
            i <= k,
            k <= missing@.len(),
            strings_view(first@) == strings_view(missing@).take(i as int),
        decreases k - i,
    {
        let ghost before = strings_view(first@);
        assert(strings_view(missing@)[i as int] == missing@[i as int]@);
        first.push(missing[i].clone());
        assert(strings_view(first@) =~= before.push(missing@[i as int]@));
        assert(strings_view(first@) =~= strings_view(missing@).take(i + 1));
        i = i + 1;
    }
    let n: usize = if missing.len() < 20 {
        missing.len()
    } else {
        20
    };
    let mut m = chars_of("\nFeed these to the generator, e.g.:\n  inkhaven language generate-lexicon ");
    push_str(&mut m, language);
    push_str(&mut m, " --topic \"");
    push_all(&mut m, &join_strings(&first, ", "));
    push_str(&mut m, "\" --count ");
    push_all(&mut m, &decimal_digits(n));
    string_of(&m)
}

} // verus!
