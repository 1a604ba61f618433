//! Rendering matches: `[<line_number>]: <line>` with every matched span
//! wrapped in caller-chosen emphasis markers (empty markers give plain
//! text), non-matched text passed through unchanged.

use vstd::prelude::*;
use crate::lines::lines_of;
use crate::matcher::{
    span_views,
    spans_well_formed,
    spans_from,
    fold_case,
    fold,
    find_spans,
    lemma_spans_from_well_formed,
    CaseMode,
};
use crate::pattern::{
    pattern_valid,
    pattern_matches,
    pattern_highlighted,
    is_valid_pattern,
    highlight_pattern,
};
use crate::scanner::{search_spec, search, result_views};

verus! {

/// The character for one decimal digit.
pub open spec fn digit_char(d: int) -> char {
    if d == 0 {
        '0'
    } else if d == 1 {
        '1'
    } else if d == 2 {
        '2'
    } else if d == 3 {
        '3'
    } else if d == 4 {
        '4'
    } else if d == 5 {
        '5'
    } else if d == 6 {
        '6'
    } else if d == 7 {
        '7'
    } else if d == 8 {
        '8'
    } else {
        '9'
    }
}

/// The decimal digits of `n`, most significant first.
pub open spec fn dec_digits(n: nat) -> Seq<char>
    decreases n,
{
    if n < 10 {
        seq![digit_char(n as int)]
    } else {
        dec_digits(n / 10).push(digit_char((n % 10) as int))
    }
}

/// Relies on `ToString::to_string` for `usize` (std): the decimal digits of
/// `n`, most significant first, no sign and no leading zero.
#[verifier::external_body]
fn usize_to_string(n: usize) -> (r: String)
    ensures
        r@ == dec_digits(n as nat),
{
    n.to_string()
}

/// The line with the spans from the `k`-th on wrapped in `pre`/`post`, the
/// text from `cur` up to each span passed through unchanged.
pub open spec fn highlighted_from(
    line: Seq<char>,
    spans: Seq<(int, int)>,
    pre: Seq<char>,
    post: Seq<char>,
    k: int,
    cur: int,
) -> Seq<char>
    decreases spans.len() - k,
{
    if k < 0 || k >= spans.len() {
        line.subrange(cur, line.len() as int)
    } else {
        line.subrange(cur, spans[k].0) + pre + line.subrange(spans[k].0, spans[k].1) + post
            + highlighted_from(line, spans, pre, post, k + 1, spans[k].1)
    }
}

/// The line with every span wrapped in `pre`/`post`.
pub open spec fn highlighted(
    line: Seq<char>,
    spans: Seq<(int, int)>,
    pre: Seq<char>,
    post: Seq<char>,
) -> Seq<char> {
    highlighted_from(line, spans, pre, post, 0, 0)
}

/// Wraps each given span of the line in `pre` and `post`, left to right,
/// passing non-matched text through unchanged.
pub fn highlight_line(line: &str, spans: &Vec<(usize, usize)>, pre: &str, post: &str) -> (r:
    String)
    requires
        spans_well_formed(span_views(spans@), line@.len() as int),
    ensures
        r@ == highlighted(line@, span_views(spans@), pre@, post@),
{
    let ghost sv = span_views(spans@);
    let llen = line.unicode_len();
    let mut out = String::new();
    let mut cur: usize = 0;
    let n = spans.len();
    let mut k: usize = 0;
    while k < n
        invariant
            0 <= k <= n,
            n == spans@.len(),
            sv == span_views(spans@),
            spans_well_formed(sv, line@.len() as int),
            llen == line@.len(),
            cur <= llen,
            k < n ==> cur as int <= sv[k as int].0,
            out@ + highlighted_from(line@, sv, pre@, post@, k as int, cur as int) == highlighted(
                line@,
                sv,
                pre@,
                post@,
            ),
        decreases n - k,
    {
        let span = spans[k];
        let s = span.0;
        let e = span.1;
        let ghost out0 = out@;
        let ghost cur0 = cur as int;
        out.append(line.substring_char(cur, s));
        out.append(pre);
        out.append(line.substring_char(s, e));
        out.append(post);
        cur = e;
        proof {
            assert(highlighted_from(line@, sv, pre@, post@, k as int, cur0) == line@.subrange(
                cur0,
                sv[k as int].0,
            ) + pre@ + line@.subrange(sv[k as int].0, sv[k as int].1) + post@ + highlighted_from(
                line@,
                sv,
                pre@,
                post@,
                k + 1,
                sv[k as int].1,
            ));
            assert(out@ + highlighted_from(line@, sv, pre@, post@, k + 1, e as int) =~= out0
                + highlighted_from(line@, sv, pre@, post@, k as int, cur0));
            if k + 1 < n {
                assert(sv[k as int].1 <= sv[k + 1].0);
            }
        }
        k += 1;
    }
    let ghost out0 = out@;
    out.append(line.substring_char(cur, llen));
    proof {
        assert(highlighted_from(line@, sv, pre@, post@, n as int, cur as int) == line@.subrange(
            cur as int,
            line@.len() as int,
        ));
        assert(out@ =~= out0 + highlighted_from(line@, sv, pre@, post@, n as int, cur as int));
    }
    out
}

/// One rendered match: `[`, the line number in decimal, `]: `, the body.
pub open spec fn rendered(n: nat, body: Seq<char>) -> Seq<char> {
    seq!['['] + dec_digits(n) + seq![']', ':', ' '] + body
}

/// Renders one match as `[<line_number>]: <body>`.
pub fn format_line(line_number: usize, body: &str) -> (r: String)
    ensures
        r@ == rendered(line_number as nat, body@),
{
    let mut out = String::new();
    out.append("[");
    let digits = usize_to_string(line_number);
    out.append(digits.as_str());
    out.append("]: ");
    out.append(body);
    proof {
        reveal_strlit("[");
        reveal_strlit("]: ");
        assert(out@ =~= rendered(line_number as nat, body@));
    }
    out
}

/// Renders one line's literal-query matches: `[<line_number>]: ` followed
/// by the line — folded, when the mode is case-insensitive — with every
/// match span wrapped in `pre`/`post`.
pub fn format_literal_match(
    line_number: usize,
    line: &str,
    query: &str,
    case: CaseMode,
    pre: &str,
    post: &str,
) -> (r: String)
    ensures
        r@ == rendered(
            line_number as nat,
            highlighted(
                fold_case(line@, case),
                spans_from(fold_case(line@, case), fold_case(query@, case), 0),
                pre@,
                post@,
            ),
        ),
{
    let folded = fold(line, case);
    let spans = find_spans(line, query, case);
    proof {
        lemma_spans_from_well_formed(fold_case(line@, case), fold_case(query@, case), 0);
    }
    let body = highlight_line(folded.as_str(), &spans, pre, post);
    format_line(line_number, body.as_str())
}

/// Renders every matching line of the contents, in file order: for each
/// line the pattern matches, `[<line_number>]: ` followed by the line with
/// every match wrapped in `pre`/`post`. `None` exactly when the pattern is
/// invalid.
pub fn render_results(query: &str, contents: &str, pre: &str, post: &str) -> (r: Option<
    Vec<String>,
>)
    ensures
        r is Some <==> pattern_valid(query@),
        r matches Some(v) ==> ({
            let res = search_spec(
                (|l: Seq<char>| pattern_matches(query@, l)),
                lines_of(contents@),
                1,
            );
            &&& v@.len() == res.len()
            &&& forall|j: int|
                0 <= j < res.len() ==> v@[j]@ == rendered(
                    res[j].0 as nat,
                    pattern_highlighted(query@, res[j].1, pre@, post@),
                )
        }),
{
    if !is_valid_pattern(query) {
        return None;
    }
    let results = search(query, contents);
    let ghost res = search_spec(
        (|l: Seq<char>| pattern_matches(query@, l)),
        lines_of(contents@),
        1,
    );
    let n = results.len();
    let mut out: Vec<String> = Vec::new();
    let mut k: usize = 0;
    while k < n
        invariant
            pattern_valid(query@),
            n == results@.len(),
            0 <= k <= n,
            result_views(results@) == res,
            out@.len() == k,
            forall|j: int|
                0 <= j < k ==> out@[j]@ == rendered(
                    res[j].0 as nat,
                    pattern_highlighted(query@, res[j].1, pre@, post@),
                ),
        decreases n - k,
    {
        let entry = results[k];
        proof {
            assert(res[k as int] == (entry.0 as int, entry.1@));
        }
        let body = highlight_pattern(query, entry.1, pre, post);
        let formatted = format_line(entry.0, body.as_str());
        out.push(formatted);
        k += 1;
    }
    Some(out)
}

} // verus!
