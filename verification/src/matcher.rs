//! Literal-substring matching: containment and match spans, with an
//! optional case-insensitive mode that folds both operands to lowercase.

use vstd::prelude::*;

verus! {

/// Whether comparison folds letter case before matching.
#[derive(Clone, Copy, PartialEq, Eq, Structural, Debug)]
pub enum CaseMode {
    Sensitive,
    Insensitive,
}

/// The query occurs in the line starting exactly at position `i`.
pub open spec fn is_match_at(line: Seq<char>, query: Seq<char>, i: int) -> bool {
    0 <= i && i + query.len() <= line.len() && line.subrange(i, i + query.len()) == query
}

/// The query occurs somewhere in the line.
pub open spec fn contains_query(line: Seq<char>, query: Seq<char>) -> bool {
    exists|i: int| is_match_at(line, query, i)
}

/// Tests whether the query occurs in the line starting exactly at `i`.
fn match_at(line: &str, query: &str, i: usize) -> (b: bool)
    requires
        i + query@.len() <= line@.len(),
    ensures
        b == is_match_at(line@, query@, i as int),
{
    let llen = line.unicode_len();
    let qlen = query.unicode_len();
    let mut j: usize = 0;
    while j < qlen
        invariant
            0 <= j <= qlen,
            llen == line@.len(),
            qlen == query@.len(),
            i + qlen <= llen,
            forall|k: int| 0 <= k < j ==> line@[i + k] == query@[k],
        decreases qlen - j,
    {
        if line.get_char(i + j) != query.get_char(j) {
            assert(line@.subrange(i as int, i + query@.len())[j as int] != query@[j as int]);
            return false;
        }
        j += 1;
    }
    assert(line@.subrange(i as int, i + query@.len()) =~= query@);
    true
}

/// Case-sensitive containment test: does the query occur in the line?
pub fn contains(line: &str, query: &str) -> (b: bool)
    ensures
        b == contains_query(line@, query@),
{
    let llen = line.unicode_len();
    let qlen = query.unicode_len();
    if qlen > llen {
        assert(forall|i: int| !is_match_at(line@, query@, i));
        return false;
    }
    let last: usize = llen - qlen;
    let mut i: usize = 0;
    loop
        invariant
            0 <= i <= last,
            llen == line@.len(),
            qlen == query@.len(),
            qlen <= llen,
            last == llen - qlen,
            forall|k: int| 0 <= k < i ==> !is_match_at(line@, query@, k),
        decreases last - i,
    {
        if match_at(line, query, i) {
            return true;
        }
        if i == last {
            assert(forall|k: int| !is_match_at(line@, query@, k));
            return false;
        }
        i += 1;
    }
}

/// The lowercase folding of a sequence of characters, as Unicode-aware,
/// locale-independent case mapping gives it.
pub uninterp spec fn lower_of(s: Seq<char>) -> Seq<char>;

/// Relies on `str::to_lowercase` (std): the Unicode-aware lowercase form of
/// the string; it depends on the characters alone, and an empty string
/// stays empty.
#[verifier::external_body]
fn lowercase(s: &str) -> (r: String)
    ensures
        r@ == lower_of(s@),
        s@.len() == 0 ==> r@.len() == 0,
{
    s.to_lowercase()
}

/// The operand as the given case mode compares it: itself, or folded to
/// lowercase.
pub open spec fn fold_case(s: Seq<char>, case: CaseMode) -> Seq<char> {
    match case {
        CaseMode::Sensitive => s,
        CaseMode::Insensitive => lower_of(s),
    }
}

/// Folds one operand as the case mode asks.
pub fn fold(s: &str, case: CaseMode) -> (r: String)
    ensures
        r@ == fold_case(s@, case),
{
    match case {
        CaseMode::Sensitive => s.to_owned(),
        CaseMode::Insensitive => lowercase(s),
    }
}

/// The literal query occurs in the line, both folded as the case mode asks.
pub open spec fn matches_spec(line: Seq<char>, query: Seq<char>, case: CaseMode) -> bool {
    contains_query(fold_case(line, case), fold_case(query, case))
}

/// Tests one line against a literal query under the given case mode.
pub fn matches(line: &str, query: &str, case: CaseMode) -> (b: bool)
    ensures
        b == matches_spec(line@, query@, case),
{
    match case {
        CaseMode::Sensitive => contains(line, query),
        CaseMode::Insensitive => {
            let folded_line = lowercase(line);
            let folded_query = lowercase(query);
            contains(folded_line.as_str(), folded_query.as_str())
        },
    }
}

/// The non-overlapping match spans of the query in the line from position
/// `i` on, leftmost first, as `(start, end)` character offsets. After a
/// zero-width match the search advances by one position, so it cannot loop.
pub open spec fn spans_from(line: Seq<char>, query: Seq<char>, i: int) -> Seq<(int, int)>
    decreases line.len() - i + 1,
{
    if i < 0 || i > line.len() {
        Seq::empty()
    } else if is_match_at(line, query, i) {
        let next = if query.len() == 0 {
            i + 1
        } else {
            i + query.len()
        };
        seq![(i, i + query.len())] + spans_from(line, query, next)
    } else if i < line.len() {
        spans_from(line, query, i + 1)
    } else {
        Seq::empty()
    }
}

/// Every span lies within the line, spans come leftmost first, and no two
/// overlap.
pub open spec fn spans_well_formed(spans: Seq<(int, int)>, len: int) -> bool {
    &&& (forall|k: int| 0 <= k < spans.len() ==> 0 <= #[trigger] spans[k].0 <= spans[k].1 <= len)
    &&& (forall|k: int|
        0 <= k < spans.len() - 1 ==> #[trigger] spans[k].1 <= spans[k + 1].0 && spans[k].0 < spans[
            k + 1
        ].0)
}

/// The spans found from position `i` on start no earlier than `i`, lie
/// within the line, come leftmost first, and do not overlap.
pub proof fn lemma_spans_from_well_formed(line: Seq<char>, query: Seq<char>, i: int)
    ensures
        spans_well_formed(spans_from(line, query, i), line.len() as int),
        forall|k: int|
            0 <= k < spans_from(line, query, i).len() ==> #[trigger] spans_from(
                line,
                query,
                i,
            )[k].0 >= i,
    decreases line.len() - i + 1,
{
    if i < 0 || i > line.len() {
    } else if is_match_at(line, query, i) {
        let next = if query.len() == 0 {
            i + 1
        } else {
            i + query.len()
        };
        lemma_spans_from_well_formed(line, query, next);
        let s = spans_from(line, query, i);
        let tail = spans_from(line, query, next);
        assert(s == seq![(i, i + query.len() as int)] + tail);
        assert forall|k: int| 0 <= k < s.len() - 1 implies #[trigger] s[k].1 <= s[k + 1].0 && s[k].0
            < s[k + 1].0 by {
            if k == 0 {
                assert(s[1] == tail[0]);
            } else {
                assert(s[k] == tail[k - 1] && s[k + 1] == tail[k]);
            }
        }
    } else if i < line.len() {
        lemma_spans_from_well_formed(line, query, i + 1);
    } else {
    }
}

/// From any position, an empty query yields one zero-width span at every
/// remaining offset.
proof fn lemma_empty_query_spans_from(line: Seq<char>, i: int)
    requires
        0 <= i <= line.len(),
    ensures
        spans_from(line, Seq::<char>::empty(), i).len() == line.len() - i + 1,
        forall|k: int|
            0 <= k < spans_from(line, Seq::<char>::empty(), i).len() ==> #[trigger] spans_from(
                line,
                Seq::<char>::empty(),
                i,
            )[k] == (i + k, i + k),
    decreases line.len() - i,
{
    let q = Seq::<char>::empty();
    assert(line.subrange(i, i) =~= q);
    assert(is_match_at(line, q, i));
    if i == line.len() {
        assert(spans_from(line, q, i + 1) =~= Seq::<(int, int)>::empty());
        assert(spans_from(line, q, i) == seq![(i, i)] + Seq::<(int, int)>::empty());
    } else {
        lemma_empty_query_spans_from(line, i + 1);
        assert(spans_from(line, q, i) == seq![(i, i)] + spans_from(line, q, i + 1));
    }
}

/// Law: an empty literal query matches every line, and its match spans are
/// one zero-length span at every offset, the first at offset 0.
pub proof fn lemma_empty_query(line: Seq<char>)
    ensures
        contains_query(line, Seq::<char>::empty()),
        spans_from(line, Seq::<char>::empty(), 0).len() == line.len() + 1,
        spans_from(line, Seq::<char>::empty(), 0)[0] == (0int, 0int),
        forall|k: int|
            0 <= k < spans_from(line, Seq::<char>::empty(), 0).len() ==> #[trigger] spans_from(
                line,
                Seq::<char>::empty(),
                0,
            )[k] == (k, k),
{
    assert(line.subrange(0, 0) =~= Seq::<char>::empty());
    assert(is_match_at(line, Seq::<char>::empty(), 0));
    lemma_empty_query_spans_from(line, 0);
}

/// The views of a sequence of spans.
pub open spec fn span_views(r: Seq<(usize, usize)>) -> Seq<(int, int)> {
    r.map_values(|p: (usize, usize)| (p.0 as int, p.1 as int))
}

/// The match spans of `q` in `l`, leftmost first, as character offsets.
fn spans_on(l: &str, q: &str) -> (r: Vec<(usize, usize)>)
    ensures
        span_views(r@) == spans_from(l@, q@, 0),
{
    let llen = l.unicode_len();
    let qlen = q.unicode_len();
    let mut out: Vec<(usize, usize)> = Vec::new();
    let mut i: usize = 0;
    loop
        invariant_except_break
            spans_from(l@, q@, 0) == span_views(out@) + spans_from(l@, q@, i as int),
        invariant
            0 <= i <= llen,
            llen == l@.len(),
            qlen == q@.len(),
        ensures
            span_views(out@) == spans_from(l@, q@, 0),
        decreases llen - i,
    {
        let is_m = qlen <= llen - i && match_at(l, q, i);
        if is_m {
            let ghost old_views = span_views(out@);
            out.push((i, i + qlen));
            let ghost next = if qlen == 0 {
                i + 1
            } else {
                i + qlen
            };
            proof {
                assert(spans_from(l@, q@, i as int) == seq![(i as int, i + qlen)] + spans_from(
                    l@,
                    q@,
                    next as int,
                ));
                assert(span_views(out@) =~= old_views + seq![(i as int, i + qlen)]);
                assert(spans_from(l@, q@, 0) =~= span_views(out@) + spans_from(
                    l@,
                    q@,
                    next as int,
                ));
            }
            if qlen == 0 {
                if i == llen {
                    proof {
                        assert(spans_from(l@, q@, next as int) =~= Seq::<(int, int)>::empty());
                        assert(span_views(out@) =~= span_views(out@) + Seq::<(int, int)>::empty());
                    }
                    break;
                }
                i += 1;
            } else {
                i += qlen;
            }
        } else {
            proof {
                assert(!is_match_at(l@, q@, i as int));
            }
            if i == llen {
                proof {
                    assert(spans_from(l@, q@, i as int) =~= Seq::<(int, int)>::empty());
                    assert(span_views(out@) =~= span_views(out@) + Seq::<(int, int)>::empty());
                }
                break;
            }
            i += 1;
        }
    }
    out
}

/// The match spans of the query in the line under the given case mode,
/// leftmost first, as character offsets — into the folded line when the
/// mode is case-insensitive.
pub fn find_spans(line: &str, query: &str, case: CaseMode) -> (r: Vec<(usize, usize)>)
    ensures
        span_views(r@) == spans_from(fold_case(line@, case), fold_case(query@, case), 0),
{
    match case {
        CaseMode::Sensitive => spans_on(line, query),
        CaseMode::Insensitive => {
            let folded_line = lowercase(line);
            let folded_query = lowercase(query);
            spans_on(folded_line.as_str(), folded_query.as_str())
        },
    }
}

} // verus!
