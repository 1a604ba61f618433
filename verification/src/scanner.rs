//! The scanner: applies a matcher to every line of the contents in order,
//! collecting `(line_number, line_text)` pairs for the lines that match.
//! Line numbers are 1-based positions in the original contents.

use vstd::prelude::*;
use crate::lines::{line_views, lines_of, split_lines};
use crate::matcher::{matches_spec, CaseMode};
use crate::pattern::{pattern_valid, pattern_matches, is_valid_pattern, pattern_is_match};

verus! {

/// The `(line_number, line_text)` pairs of the lines satisfying `pred`, in
/// order, the first of `lines` numbered `base`.
pub open spec fn search_spec(
    pred: spec_fn(Seq<char>) -> bool,
    lines: Seq<Seq<char>>,
    base: int,
) -> Seq<(int, Seq<char>)>
    decreases lines.len(),
{
    if lines.len() == 0 {
        Seq::empty()
    } else {
        let rest = search_spec(pred, lines.drop_first(), base + 1);
        if pred(lines.first()) {
            seq![(base, lines.first())] + rest
        } else {
            rest
        }
    }
}

/// The views of a sequence of search results.
pub open spec fn result_views(r: Seq<(usize, &str)>) -> Seq<(int, Seq<char>)> {
    r.map_values(|p: (usize, &str)| (p.0 as int, p.1@))
}

/// Appending a line extends the search results by exactly that line's
/// entry when it matches, and by nothing when it does not.
proof fn lemma_search_spec_push(
    pred: spec_fn(Seq<char>) -> bool,
    lines: Seq<Seq<char>>,
    x: Seq<char>,
    base: int,
)
    ensures
        search_spec(pred, lines.push(x), base) == if pred(x) {
            search_spec(pred, lines, base) + seq![(base + lines.len(), x)]
        } else {
            search_spec(pred, lines, base)
        },
    decreases lines.len(),
{
    let lp = lines.push(x);
    if lines.len() == 0 {
        assert(search_spec(pred, lines, base) == Seq::<(int, Seq<char>)>::empty());
        assert(lp.first() == x);
        assert(lp.drop_first() =~= Seq::<Seq<char>>::empty());
        assert(search_spec(pred, lp.drop_first(), base + 1) == Seq::<(int, Seq<char>)>::empty());
        if pred(x) {
            assert(search_spec(pred, lp, base) == seq![(base, x)] + Seq::<(
                int,
                Seq<char>,
            )>::empty());
            assert(seq![(base, x)] + Seq::<(int, Seq<char>)>::empty() =~= search_spec(
                pred,
                lines,
                base,
            ) + seq![(base + lines.len(), x)]);
        }
    } else {
        assert(lp.first() == lines.first());
        assert(lp.drop_first() =~= lines.drop_first().push(x));
        lemma_search_spec_push(pred, lines.drop_first(), x, base + 1);
        assert(search_spec(pred, lp, base) == if pred(lines.first()) {
            seq![(base, lines.first())] + search_spec(pred, lp.drop_first(), base + 1)
        } else {
            search_spec(pred, lp.drop_first(), base + 1)
        });
        assert(search_spec(pred, lines, base) == if pred(lines.first()) {
            seq![(base, lines.first())] + search_spec(pred, lines.drop_first(), base + 1)
        } else {
            search_spec(pred, lines.drop_first(), base + 1)
        });
        assert(base + 1 + lines.drop_first().len() == base + lines.len());
        if pred(x) {
            assert(search_spec(pred, lp, base) =~= search_spec(pred, lines, base) + seq![
                (base + lines.len(), x),
            ]);
        } else {
            assert(search_spec(pred, lp, base) =~= search_spec(pred, lines, base));
        }
    }
}

/// Law: a search over N lines, the first numbered `base`, yields only line
/// numbers in [base, base + N), strictly increasing — so a search of a file
/// with N lines, numbered from 1, yields only numbers in [1, N], strictly
/// increasing, in file order.
pub proof fn lemma_search_spec_ordered(
    pred: spec_fn(Seq<char>) -> bool,
    lines: Seq<Seq<char>>,
    base: int,
)
    ensures
        forall|k: int|
            0 <= k < search_spec(pred, lines, base).len() ==> base <= #[trigger] search_spec(
                pred,
                lines,
                base,
            )[k].0 < base + lines.len(),
        forall|k1: int, k2: int|
            0 <= k1 < k2 < search_spec(pred, lines, base).len() ==> #[trigger] search_spec(
                pred,
                lines,
                base,
            )[k1].0 < #[trigger] search_spec(pred, lines, base)[k2].0,
    decreases lines.len(),
{
    if lines.len() == 0 {
    } else {
        lemma_search_spec_ordered(pred, lines.drop_first(), base + 1);
        let s = search_spec(pred, lines, base);
        let rest = search_spec(pred, lines.drop_first(), base + 1);
        if pred(lines.first()) {
            assert(s == seq![(base, lines.first())] + rest);
            assert forall|k: int| 0 <= k < s.len() implies base <= #[trigger] s[k].0 < base
                + lines.len() by {
                if k > 0 {
                    assert(s[k] == rest[k - 1]);
                }
            }
            assert forall|k1: int, k2: int| 0 <= k1 < k2 < s.len() implies #[trigger] s[k1].0
                < #[trigger] s[k2].0 by {
                assert(s[k2] == rest[k2 - 1]);
                if k1 > 0 {
                    assert(s[k1] == rest[k1 - 1]);
                }
            }
        } else {
            assert(s == rest);
        }
    }
}

/// Law: the search path does not mutate the text — each entry's line text
/// is, verbatim, the original line that its line number points at.
pub proof fn lemma_search_spec_faithful(
    pred: spec_fn(Seq<char>) -> bool,
    lines: Seq<Seq<char>>,
    base: int,
)
    ensures
        forall|k: int|
            0 <= k < search_spec(pred, lines, base).len() ==> #[trigger] search_spec(
                pred,
                lines,
                base,
            )[k].1 == lines[search_spec(pred, lines, base)[k].0 - base],
    decreases lines.len(),
{
    if lines.len() == 0 {
    } else {
        lemma_search_spec_faithful(pred, lines.drop_first(), base + 1);
        lemma_search_spec_ordered(pred, lines.drop_first(), base + 1);
        let s = search_spec(pred, lines, base);
        let rest = search_spec(pred, lines.drop_first(), base + 1);
        assert forall|k: int| 0 <= k < s.len() implies #[trigger] s[k].1 == lines[s[k].0 - base] by {
            if pred(lines.first()) {
                assert(s == seq![(base, lines.first())] + rest);
                if k > 0 {
                    assert(s[k] == rest[k - 1]);
                    assert(lines.drop_first()[s[k].0 - (base + 1)] == lines[s[k].0 - base]);
                }
            } else {
                assert(s == rest);
                assert(lines.drop_first()[s[k].0 - (base + 1)] == lines[s[k].0 - base]);
            }
        }
    }
}

/// Law: a query that matches every line — such as the empty literal query,
/// by `lemma_empty_query` — returns every line, in order, each under its own
/// number.
pub proof fn lemma_all_lines_match(
    pred: spec_fn(Seq<char>) -> bool,
    lines: Seq<Seq<char>>,
    base: int,
)
    requires
        forall|k: int| 0 <= k < lines.len() ==> pred(#[trigger] lines[k]),
    ensures
        search_spec(pred, lines, base).len() == lines.len(),
        forall|k: int|
            0 <= k < lines.len() ==> #[trigger] search_spec(pred, lines, base)[k] == (
                base + k,
                lines[k],
            ),
    decreases lines.len(),
{
    if lines.len() == 0 {
    } else {
        assert(pred(lines[0]));
        assert forall|k: int| 0 <= k < lines.drop_first().len() implies pred(
            #[trigger] lines.drop_first()[k],
        ) by {
            assert(lines.drop_first()[k] == lines[k + 1]);
        }
        lemma_all_lines_match(pred, lines.drop_first(), base + 1);
        let s = search_spec(pred, lines, base);
        let rest = search_spec(pred, lines.drop_first(), base + 1);
        assert(s == seq![(base, lines.first())] + rest);
        assert forall|k: int| 0 <= k < lines.len() implies #[trigger] s[k] == (base + k, lines[k]) by {
            if k > 0 {
                assert(s[k] == rest[k - 1]);
                assert(lines.drop_first()[k - 1] == lines[k]);
            }
        }
    }
}

/// Law: contents with zero lines give an empty result.
pub proof fn lemma_search_empty_contents(pred: spec_fn(Seq<char>) -> bool)
    ensures
        lines_of(Seq::<char>::empty()) == Seq::<Seq<char>>::empty(),
        search_spec(pred, lines_of(Seq::<char>::empty()), 1) == Seq::<(int, Seq<char>)>::empty(),
{
    assert(lines_of(Seq::<char>::empty()) == Seq::<Seq<char>>::empty());
}

/// Searches the contents for a pattern query, returning the matching lines
/// with their 1-based line numbers, in file order. The pattern must be
/// valid: an invalid one is rejected when the configuration is built.
pub fn search<'a>(query: &str, contents: &'a str) -> (r: Vec<(usize, &'a str)>)
    requires
        pattern_valid(query@),
    ensures
        result_views(r@) == search_spec(
            (|l: Seq<char>| pattern_matches(query@, l)),
            lines_of(contents@),
            1,
        ),
{
    let lines = split_lines(contents);
    let ghost pred = (|l: Seq<char>| pattern_matches(query@, l));
    let n = lines.len();
    let mut out: Vec<(usize, &'a str)> = Vec::new();
    let mut k: usize = 0;
    while k < n
        invariant
            pattern_valid(query@),
            pred == (|l: Seq<char>| pattern_matches(query@, l)),
            n == lines@.len(),
            0 <= k <= n,
            line_views(lines@) == lines_of(contents@),
            result_views(out@) == search_spec(pred, line_views(lines@.take(k as int)), 1),
        decreases n - k,
    {
        let line = lines[k];
        let hit = pattern_is_match(query, line);
        if hit {
            out.push((k + 1, line));
        }
        proof {
            let prefix = line_views(lines@.take(k as int));
            lemma_search_spec_push(pred, prefix, line@, 1);
            assert(prefix.len() == k as int);
            assert(pred(line@) == pattern_matches(query@, line@));
            assert(line_views(lines@.take(k + 1)) =~= prefix.push(line@));
            if hit {
                assert(result_views(out@) =~= search_spec(pred, prefix, 1)
                    + seq![(1 + k as int, line@)]);
            } else {
                assert(result_views(out@) =~= search_spec(pred, prefix, 1));
            }
        }
        k += 1;
    }
    proof {
        assert(lines@.take(n as int) =~= lines@);
    }
    out
}

/// Searches the contents for a pattern query after checking that the
/// pattern is valid; `None` exactly when it is not.
pub fn try_search<'a>(query: &str, contents: &'a str) -> (r: Option<Vec<(usize, &'a str)>>)
    ensures
        r is Some <==> pattern_valid(query@),
        r matches Some(v) ==> result_views(v@) == search_spec(
            (|l: Seq<char>| pattern_matches(query@, l)),
            lines_of(contents@),
            1,
        ),
{
    if is_valid_pattern(query) {
        Some(search(query, contents))
    } else {
        None
    }
}

/// Searches the contents for a literal query under the given case mode,
/// returning the matching lines with their 1-based line numbers, in file
/// order.
pub fn search_literal<'a>(query: &str, case: CaseMode, contents: &'a str) -> (r: Vec<
    (usize, &'a str),
>)
    ensures
        result_views(r@) == search_spec(
            (|l: Seq<char>| matches_spec(l, query@, case)),
            lines_of(contents@),
            1,
        ),
{
    let lines = split_lines(contents);
    let ghost pred = (|l: Seq<char>| matches_spec(l, query@, case));
    let n = lines.len();
    let mut out: Vec<(usize, &'a str)> = Vec::new();
    let mut k: usize = 0;
    while k < n
        invariant
            pred == (|l: Seq<char>| matches_spec(l, query@, case)),
            n == lines@.len(),
            0 <= k <= n,
            line_views(lines@) == lines_of(contents@),
            result_views(out@) == search_spec(pred, line_views(lines@.take(k as int)), 1),
        decreases n - k,
    {
        let line = lines[k];
        let hit = crate::matcher::matches(line, query, case);
        if hit {
            out.push((k + 1, line));
        }
        proof {
            let prefix = line_views(lines@.take(k as int));
            lemma_search_spec_push(pred, prefix, line@, 1);
            assert(prefix.len() == k as int);
            assert(pred(line@) == matches_spec(line@, query@, case));
            assert(line_views(lines@.take(k + 1)) =~= prefix.push(line@));
            if hit {
                assert(result_views(out@) =~= search_spec(pred, prefix, 1)
                    + seq![(1 + k as int, line@)]);
            } else {
                assert(result_views(out@) =~= search_spec(pred, prefix, 1));
            }
        }
        k += 1;
    }
    proof {
        assert(lines@.take(n as int) =~= lines@);
    }
    out
}

} // verus!
