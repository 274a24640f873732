//! `language stats`, `metrics` and `pairs`: the integer parts of a
//! language's profile as printed — the counts, the syllable histogram, the
//! ranked frequency lists, and the minimal pairs with their functional load.
use vstd::prelude::*;
use crate::entry::{decimal, decimal_digits};
use crate::text::{
    chars_of, join_seqs, join_strings, pad_right, push_all, push_line, push_padded, push_str, string_of,
    strings_view,
};

verus! {

/// An item of a ranked frequency list as `item×count`.
pub open spec fn ranked_item(p: (String, usize)) -> Seq<char> {
    p.0@ + "×"@ + decimal(p.1 as nat)
}

/// The first `n` items of a ranked list, two spaces apart.
pub open spec fn top_text(freq: Seq<(String, usize)>, n: nat) -> Seq<char> {
    join_seqs(
        freq.take(if n < freq.len() {
            n as int
        } else {
            freq.len() as int
        }).map_values(|p: (String, usize)| ranked_item(p)),
        "  "@,
    )
}

/// The first `n` items of a ranked frequency list.
pub fn top_items(freq: &Vec<(String, usize)>, n: usize) -> (r: String)
    ensures
        r@ == top_text(freq@, n as nat),
{
    let m = if n < freq.len() {
        n
    } else {
        freq.len()
    };
    let mut parts: Vec<String> = Vec::new();
    let mut i: usize = 0;
    while i < m
        invariant
            i <= m,
            m <= freq@.len(),
            m == (if n < freq@.len() {
                n as int
            } else {
                freq@.len() as int
            }),
            strings_view(parts@) == freq@.take(i as int).map_values(|p: (String, usize)| ranked_item(p)),
        decreases m - i,
    {
        let mut t = chars_of(freq[i].0.as_str());
        push_str(&mut t, "×");
        push_all(&mut t, &decimal_digits(freq[i].1));
        push_line(&mut parts, &t);
        assert(freq@.take(i + 1).map_values(|p: (String, usize)| ranked_item(p)) =~= freq@.take(
            i as int,
        ).map_values(|p: (String, usize)| ranked_item(p)).push(t@));
        i = i + 1;
    }
    string_of(&join_strings(&parts, "  "))
}

/// A labelled frequency line: the label, then the first `n` ranked items.
pub fn frequency_line(label: &str, freq: &Vec<(String, usize)>, n: usize) -> (r: String)
    ensures
        r@ == label@ + top_text(freq@, n as nat),
{
    let mut m = chars_of(label);
    push_str(&mut m, top_items(freq, n).as_str());
    string_of(&m)
}

/// The largest count of a histogram, at least one.
pub open spec fn hist_max(hist: Seq<(usize, usize)>) -> nat
    decreases hist.len(),
{
    if hist.len() == 0 {
        1
    } else {
        let m = hist_max(hist.drop_last());
        if hist.last().1 > m {
            hist.last().1 as nat
        } else {
            m
        }
    }
}

/// A bar's length: the count scaled to a longest bar of twenty-four, never
/// shorter than one.
pub open spec fn bar_len(c: nat, max: nat) -> nat {
    let l = (c * 24) / max;
    if l >= 1 {
        l
    } else {
        1
    }
}

/// `n` block characters.
pub open spec fn blocks(n: nat) -> Seq<char> {
    Seq::new(n, |i: int| '█')
}

/// A histogram row: syllable count, bar, number of words.
pub open spec fn hist_row(p: (usize, usize), max: nat) -> Seq<char> {
    "      "@ + decimal(p.0 as nat) + "σ "@ + blocks(bar_len(p.1 as nat, max)) + " "@ + decimal(
        p.1 as nat,
    )
}

/// The largest count is at least one and at least every count.
proof fn lemma_hist_max(hist: Seq<(usize, usize)>)
    ensures
        hist_max(hist) >= 1,
        forall|i: int| 0 <= i < hist.len() ==> hist[i].1 <= hist_max(hist),
        hist_max(hist) <= usize::MAX,
    decreases hist.len(),
{
    if hist.len() > 0 {
        lemma_hist_max(hist.drop_last());
        assert forall|i: int| 0 <= i < hist.len() implies hist[i].1 <= hist_max(hist) by {
            if i < hist.len() - 1 {
                assert(hist.drop_last()[i] == hist[i]);
            }
        }
    }
}

/// The rows of the syllable histogram, each bar scaled against the largest
/// count.
pub fn histogram_lines(hist: &Vec<(usize, usize)>) -> (r: Vec<String>)
    requires
        forall|i: int| 0 <= i < hist@.len() ==> (#[trigger] hist@[i]).1 * 24 <= usize::MAX,
    ensures
        strings_view(r@) == hist@.map_values(|p: (usize, usize)| hist_row(p, hist_max(hist@))),
{
    let mut max: usize = 1;
    let mut k: usize = 0;
    while k < hist.len()
        invariant
            k <= hist@.len(),
            max == hist_max(hist@.take(k as int)),
        decreases hist@.len() - k,
    {
        assert(hist@.take(k + 1).drop_last() =~= hist@.take(k as int));
        if hist[k].1 > max {
            max = hist[k].1;
        }
        k = k + 1;
    }
    assert(hist@.take(hist@.len() as int) =~= hist@);
    proof {
        lemma_hist_max(hist@);
    }
    let mut lines: Vec<String> = Vec::new();
    let mut i: usize = 0;
    while i < hist.len()
        invariant
            i <= hist@.len(),
            max == hist_max(hist@),
            max >= 1,
            forall|j: int| 0 <= j < hist@.len() ==> (#[trigger] hist@[j]).1 * 24 <= usize::MAX,
            strings_view(lines@) == hist@.take(i as int).map_values(
                |p: (usize, usize)| hist_row(p, hist_max(hist@)),
            ),
        decreases hist@.len() - i,
    {
        let c = hist[i].1;
        assert(hist@[i as int].1 * 24 <= usize::MAX);
        let scaled = (c * 24) / max;
        let len = if scaled >= 1 {
            scaled
        } else {
            1
        };
        let mut l = chars_of("      ");
        push_all(&mut l, &decimal_digits(hist[i].0));
        push_str(&mut l, "σ ");
        let ghost before = l@;
        let mut b: usize = 0;
        while b < len
            invariant
                b <= len,
                l@ == before + blocks(b as nat),
            decreases len - b,
        {
            l.push('█');
            assert(blocks((b + 1) as nat) =~= blocks(b as nat).push('█'));
            b = b + 1;
        }
        push_str(&mut l, " ");
        push_all(&mut l, &decimal_digits(c));
        assert(l@ =~= hist_row(hist@[i as int], hist_max(hist@)));
        push_line(&mut lines, &l);
        assert(hist@.take(i + 1).map_values(|p: (usize, usize)| hist_row(p, hist_max(hist@)))
            =~= hist@.take(i as int).map_values(|p: (usize, usize)| hist_row(p, hist_max(hist@))).push(
            l@,
        ));
        i = i + 1;
    }
    assert(hist@.take(hist@.len() as int) =~= hist@);
    lines
}

/// The first lines of the profile: the heading, the phoneme inventory and
/// the lexicon counts.
pub fn profile_heading(
    language: &str,
    phonemes: usize,
    consonants: usize,
    vowels: usize,
    words: usize,
    analyzable: usize,
) -> (r: Vec<String>)
    ensures
        strings_view(r@) == seq![
            "language profile · "@ + language@,
            "  inventory · "@ + decimal(phonemes as nat) + " phonemes ("@ + decimal(consonants as nat)
                + " C / "@ + decimal(vowels as nat) + " V)"@,
            "  lexicon   · "@ + decimal(words as nat) + " entr(y/ies), "@ + decimal(analyzable as nat)
                + " analyzable"@,
        ],
{
    let mut lines: Vec<String> = Vec::new();
    let mut a = chars_of("language profile · ");
    push_str(&mut a, language);
    push_line(&mut lines, &a);
    let mut b = chars_of("  inventory · ");
    push_all(&mut b, &decimal_digits(phonemes));
    push_str(&mut b, " phonemes (");
    push_all(&mut b, &decimal_digits(consonants));
    push_str(&mut b, " C / ");
    push_all(&mut b, &decimal_digits(vowels));
    push_str(&mut b, " V)");
    push_line(&mut lines, &b);
    let mut c = chars_of("  lexicon   · ");
    push_all(&mut c, &decimal_digits(words));
    push_str(&mut c, " entr(y/ies), ");
    push_all(&mut c, &decimal_digits(analyzable));
    push_str(&mut c, " analyzable");
    push_line(&mut lines, &c);
    assert(strings_view(lines@) =~= seq![a@, b@, c@]);
    lines
}

// ───────────────────────── minimal pairs ──────────────────────────────────

/// A minimal pair: the two words, the segments they differ in, and the
/// features that contrast.
pub struct MinimalPair {
    pub a: String,
    pub b: String,
    pub seg_a: String,
    pub seg_b: String,
    pub features: Vec<String>,
}

/// The largest load, at least one.
pub open spec fn load_max(load: Seq<(String, usize)>) -> nat
    decreases load.len(),
{
    if load.len() == 0 {
        1
    } else {
        let m = load_max(load.drop_last());
        if load.last().1 > m {
            load.last().1 as nat
        } else {
            m
        }
    }
}

proof fn lemma_load_max(load: Seq<(String, usize)>)
    ensures
        load_max(load) >= 1,
        load_max(load) <= usize::MAX,
    decreases load.len(),
{
    if load.len() > 0 {
        lemma_load_max(load.drop_last());
    }
}

/// A bar scaled to a longest bar of twenty, never shorter than one.
pub open spec fn load_bar_len(c: nat, max: nat) -> nat {
    let l = (c * 20) / max;
    if l >= 1 {
        l
    } else {
        1
    }
}

/// A feature's functional-load row.
pub open spec fn load_row(p: (String, usize), max: nat) -> Seq<char> {
    "      "@ + pad_right(p.0@, 12) + " "@ + blocks(load_bar_len(p.1 as nat, max)) + " "@ + decimal(
        p.1 as nat,
    )
}

/// A pair's example line.
pub open spec fn pair_line(p: MinimalPair) -> Seq<char> {
    "      "@ + p.a@ + " / "@ + p.b@ + "   "@ + p.seg_a@ + "~"@ + p.seg_b@ + " "@ + if p.features@.len()
        == 0 {
        "(outside the feature matrix)"@
    } else {
        "["@ + join_seqs(strings_view(p.features@), ", "@) + "]"@
    }
}

/// The report of `language pairs`.
pub open spec fn pairs_text(
    language: Seq<char>,
    analyzable: nat,
    pair_count: nat,
    load: Seq<(String, usize)>,
    complex: nat,
    pairs: Seq<MinimalPair>,
) -> Seq<Seq<char>> {
    seq!["minimal pairs · "@ + language] + if analyzable == 0 {
        seq!["  (no analyzable words — define a phoneme inventory and add dictionary entries)"@]
    } else {
        seq!["  "@ + decimal(pair_count) + " minimal pair(s) across "@ + decimal(analyzable) + " analyzable words"@]
            + (if load.len() > 0 {
            seq!["  functional load (single-feature contrasts):"@] + load.map_values(
                |p: (String, usize)| load_row(p, load_max(load)),
            )
        } else {
            Seq::<Seq<char>>::empty()
        }) + (if complex > 0 {
            seq!["  "@ + decimal(complex) + " pair(s) contrast in more than one feature"@]
        } else {
            Seq::<Seq<char>>::empty()
        }) + if pairs.len() > 0 {
            seq!["  examples:"@] + pairs.map_values(|p: MinimalPair| pair_line(p))
        } else {
            Seq::<Seq<char>>::empty()
        }
    }
}

/// The report of the minimal pairs of a lexicon and the functional load
/// of each contrasting feature.
pub fn pairs_report(
    language: &str,
    analyzable: usize,
    pair_count: usize,
    load: &Vec<(String, usize)>,
    complex: usize,
    pairs: &Vec<MinimalPair>,
) -> (r: Vec<String>)
    requires
        forall|i: int| 0 <= i < load@.len() ==> (#[trigger] load@[i]).1 * 20 <= usize::MAX,
    ensures
        strings_view(r@) == pairs_text(
            language@,
            analyzable as nat,
            pair_count as nat,
            load@,
            complex as nat,
            pairs@,
        ),
{
    let mut lines: Vec<String> = Vec::new();
    let mut h = chars_of("minimal pairs · ");
    push_str(&mut h, language);
    push_line(&mut lines, &h);
    if analyzable == 0 {
        crate::text::push_text_line(
            &mut lines,
            "  (no analyzable words — define a phoneme inventory and add dictionary entries)",
        );
        assert(strings_view(lines@) =~= pairs_text(
            language@,
            analyzable as nat,
            pair_count as nat,
            load@,
            complex as nat,
            pairs@,
        ));
        return lines;
    }
    let mut c = chars_of("  ");
    push_all(&mut c, &decimal_digits(pair_count));
    push_str(&mut c, " minimal pair(s) across ");
    push_all(&mut c, &decimal_digits(analyzable));
    push_str(&mut c, " analyzable words");
    push_line(&mut lines, &c);
    let ghost s1 = strings_view(lines@);
    if load.len() > 0 {
        crate::text::push_text_line(&mut lines, "  functional load (single-feature contrasts):");
        let mut max: usize = 1;
        let mut k: usize = 0;
        while k < load.len()
            invariant
                k <= load@.len(),
                max == load_max(load@.take(k as int)),
            decreases load@.len() - k,
        {
            assert(load@.take(k + 1).drop_last() =~= load@.take(k as int));
            if load[k].1 > max {
                max = load[k].1;
            }
            k = k + 1;
        }
        assert(load@.take(load@.len() as int) =~= load@);
        proof {
            lemma_load_max(load@);
        }
        let ghost start = strings_view(lines@);
        let mut i: usize = 0;
        while i < load.len()
            invariant
                i <= load@.len(),
                max == load_max(load@),
                max >= 1,
                forall|j: int| 0 <= j < load@.len() ==> (#[trigger] load@[j]).1 * 20 <= usize::MAX,
                strings_view(lines@) == start + load@.take(i as int).map_values(
                    |p: (String, usize)| load_row(p, load_max(load@)),
                ),
            decreases load@.len() - i,
        {
            let n = load[i].1;
            assert(load@[i as int].1 * 20 <= usize::MAX);
            let scaled = (n * 20) / max;
            let len = if scaled >= 1 {
                scaled
            } else {
                1
            };
            let mut l = chars_of("      ");
            push_padded(&mut l, &chars_of(load[i].0.as_str()), 12);
            push_str(&mut l, " ");
            let ghost before = l@;
            let mut b: usize = 0;
            while b < len
                invariant
                    b <= len,
                    l@ == before + blocks(b as nat),
                decreases len - b,
            {
                l.push('█');
                assert(blocks((b + 1) as nat) =~= blocks(b as nat).push('█'));
                b = b + 1;
            }
            push_str(&mut l, " ");
            push_all(&mut l, &decimal_digits(n));
            assert(l@ =~= load_row(load@[i as int], load_max(load@)));
            push_line(&mut lines, &l);
            assert(load@.take(i + 1).map_values(|p: (String, usize)| load_row(p, load_max(load@)))
                =~= load@.take(i as int).map_values(|p: (String, usize)| load_row(p, load_max(load@))).push(
                l@,
            ));
            i = i + 1;
        }
        assert(load@.take(load@.len() as int) =~= load@);
    }
    let ghost s2 = strings_view(lines@);
    if complex > 0 {
        let mut x = chars_of("  ");
        push_all(&mut x, &decimal_digits(complex));
        push_str(&mut x, " pair(s) contrast in more than one feature");
        push_line(&mut lines, &x);
    }
    let ghost s3 = strings_view(lines@);
    if pairs.len() > 0 {
        crate::text::push_text_line(&mut lines, "  examples:");
        let ghost start = strings_view(lines@);
        let mut i: usize = 0;
        while i < pairs.len()
            invariant
                i <= pairs@.len(),
                strings_view(lines@) == start + pairs@.take(i as int).map_values(|p: MinimalPair| pair_line(p)),
            decreases pairs@.len() - i,
        {
            let p = &pairs[i];
            let mut l = chars_of("      ");
            push_str(&mut l, p.a.as_str());
            push_str(&mut l, " / ");
            push_str(&mut l, p.b.as_str());
            push_str(&mut l, "   ");
            push_str(&mut l, p.seg_a.as_str());
            push_str(&mut l, "~");
            push_str(&mut l, p.seg_b.as_str());
            push_str(&mut l, " ");
            if p.features.len() == 0 {
                push_str(&mut l, "(outside the feature matrix)");
            } else {
                push_str(&mut l, "[");
                push_all(&mut l, &join_strings(&p.features, ", "));
                push_str(&mut l, "]");
            }
            assert(l@ =~= pair_line(*p));
            push_line(&mut lines, &l);
            assert(pairs@.take(i + 1).map_values(|p: MinimalPair| pair_line(p)) =~= pairs@.take(
                i as int,
            ).map_values(|p: MinimalPair| pair_line(p)).push(l@));
            i = i + 1;
        }
        assert(pairs@.take(pairs@.len() as int) =~= pairs@);
    }
    assert(strings_view(lines@) =~= pairs_text(
        language@,
        analyzable as nat,
        pair_count as nat,
        load@,
        complex as nat,
        pairs@,
    ));
    lines
}

/// The first lines of the metrics report: the heading, then either the
/// note that nothing can be measured or the corpus size.
pub fn metrics_heading(language: &str, analyzable: usize, segments: usize) -> (r: Vec<String>)
    ensures
        strings_view(r@) == seq!["language metrics · "@ + language@] + if analyzable == 0 {
            seq!["  (no analyzable words — add dictionary entries that parse as the language's phonemes)"@]
        } else {
            seq![
                "  corpus    · "@ + decimal(analyzable as nat) + " analyzable word(s), "@ + decimal(
                    segments as nat,
                ) + " segments"@,
            ]
        },
{
    let mut lines: Vec<String> = Vec::new();
    let mut h = chars_of("language metrics · ");
    push_str(&mut h, language);
    push_line(&mut lines, &h);
    if analyzable == 0 {
        crate::text::push_text_line(
            &mut lines,
            "  (no analyzable words — add dictionary entries that parse as the language's phonemes)",
        );
    } else {
        let mut c = chars_of("  corpus    · ");
        push_all(&mut c, &decimal_digits(analyzable));
        push_str(&mut c, " analyzable word(s), ");
        push_all(&mut c, &decimal_digits(segments));
        push_str(&mut c, " segments");
        push_line(&mut lines, &c);
    }
    lines
}

} // verus!
