//! Splitting file contents into lines.
//!
//! A line is a maximal run of characters not containing a line feed. Only
//! `\n` and `\r\n` delimit lines: a carriage return immediately before a
//! line feed is stripped, a lone carriage return is an ordinary character,
//! and a trailing line terminator does not produce a trailing empty line.

use vstd::prelude::*;

verus! {

/// Index of the first line feed in `s`, or `s.len()` if there is none.
pub open spec fn first_newline(s: Seq<char>) -> int
    decreases s.len(),
{
    if s.len() == 0 {
        0
    } else if s[0] == '\n' {
        0
    } else {
        1 + first_newline(s.drop_first())
    }
}

/// A carriage return at the end of a line body is part of the terminator
/// and is stripped.
pub open spec fn strip_cr(l: Seq<char>) -> Seq<char> {
    if l.len() > 0 && l.last() == '\r' {
        l.drop_last()
    } else {
        l
    }
}

/// The lines of `s`, in order, without their terminators.
pub open spec fn lines_of(s: Seq<char>) -> Seq<Seq<char>>
    decreases s.len(),
    via lines_of_decreases
{
    if s.len() == 0 {
        Seq::empty()
    } else if first_newline(s) == s.len() {
        seq![s]
    } else {
        seq![strip_cr(s.take(first_newline(s)))] + lines_of(s.skip(first_newline(s) + 1))
    }
}

#[via_fn]
proof fn lines_of_decreases(s: Seq<char>) {
    lemma_first_newline(s);
}

/// `first_newline` stays in bounds, points at a line feed when one exists,
/// and nothing before it is a line feed.
pub proof fn lemma_first_newline(s: Seq<char>)
    ensures
        0 <= first_newline(s) <= s.len(),
        first_newline(s) < s.len() ==> s[first_newline(s)] == '\n',
        forall|j: int| 0 <= j < first_newline(s) ==> s[j] != '\n',
    decreases s.len(),
{
    if s.len() == 0 {
    } else if s[0] == '\n' {
    } else {
        lemma_first_newline(s.drop_first());
        assert forall|j: int| 0 <= j < first_newline(s) implies s[j] != '\n' by {
            if j > 0 {
                assert(s.drop_first()[j - 1] == s[j]);
            }
        }
    }
}

/// `first_newline` is the only index with its properties.
proof fn lemma_first_newline_at(s: Seq<char>, i: int)
    requires
        0 <= i <= s.len(),
        forall|j: int| 0 <= j < i ==> s[j] != '\n',
        i < s.len() ==> s[i] == '\n',
    ensures
        first_newline(s) == i,
    decreases s.len(),
{
    if s.len() == 0 {
    } else if s[0] == '\n' {
        assert(i == 0);
    } else {
        assert(i > 0);
        let t = s.drop_first();
        assert forall|j: int| 0 <= j < i - 1 implies t[j] != '\n' by {
            assert(t[j] == s[j + 1]);
        }
        assert(i - 1 < t.len() ==> t[i - 1] == s[i]);
        lemma_first_newline_at(t, i - 1);
    }
}

/// Finds the first line feed in `s`, returning `s@.len()` if there is none.
fn find_newline(s: &str) -> (r: usize)
    ensures
        r as int == first_newline(s@),
        r <= s@.len(),
{
    let len = s.unicode_len();
    let mut i: usize = 0;
    while i < len
        invariant
            0 <= i <= len,
            len == s@.len(),
            forall|j: int| 0 <= j < i ==> s@[j] != '\n',
        decreases len - i,
    {
        if s.get_char(i) == '\n' {
            proof {
                lemma_first_newline_at(s@, i as int);
            }
            return i;
        }
        i += 1;
    }
    proof {
        lemma_first_newline_at(s@, len as int);
    }
    len
}

/// The lines joined with a line-feed separator between them.
pub open spec fn join_lines(ls: Seq<Seq<char>>) -> Seq<char>
    decreases ls.len(),
{
    if ls.len() == 0 {
        Seq::empty()
    } else if ls.len() == 1 {
        ls[0]
    } else {
        ls[0] + seq!['\n'] + join_lines(ls.drop_first())
    }
}

/// Law: splitting loses nothing — the lines of a text joined from lines
/// with line-feed separators are, verbatim, those lines. This asks that no
/// line holds a line feed, that no line before the last ends in a carriage
/// return (it would read as part of a `\r\n` terminator), and that the last
/// line is not empty (a trailing terminator produces no empty line).
pub proof fn lemma_lines_round_trip(ls: Seq<Seq<char>>)
    requires
        forall|k: int| 0 <= k < ls.len() ==> !(#[trigger] ls[k]).contains('\n'),
        forall|k: int|
            0 <= k < ls.len() - 1 ==> !((#[trigger] ls[k]).len() > 0 && ls[k].last() == '\r'),
        ls.len() > 0 ==> ls.last().len() > 0,
    ensures
        lines_of(join_lines(ls)) == ls,
    decreases ls.len(),
{
    if ls.len() == 0 {
        assert(lines_of(join_lines(ls)) =~= ls);
    } else if ls.len() == 1 {
        let j = ls[0];
        assert(ls.last() == j);
        assert forall|i: int| 0 <= i < j.len() implies j[i] != '\n' by {
            assert(!ls[0].contains('\n'));
        }
        lemma_first_newline_at(j, j.len() as int);
        assert(lines_of(j) == seq![j]);
        assert(lines_of(join_lines(ls)) =~= ls);
    } else {
        let head = ls[0];
        let rest = ls.drop_first();
        let j = join_lines(ls);
        assert(j == head + seq!['\n'] + join_lines(rest));
        assert forall|i: int| 0 <= i < head.len() implies j[i] != '\n' by {
            assert(j[i] == head[i]);
            assert(!ls[0].contains('\n'));
        }
        assert(j[head.len() as int] == '\n');
        lemma_first_newline_at(j, head.len() as int);
        assert(j.take(head.len() as int) =~= head);
        assert(strip_cr(head) == head);
        assert(j.skip(head.len() as int + 1) =~= join_lines(rest));
        assert forall|k: int| 0 <= k < rest.len() implies !(#[trigger] rest[k]).contains('\n') by {
            assert(rest[k] == ls[k + 1]);
        }
        assert forall|k: int| 0 <= k < rest.len() - 1 implies !((#[trigger] rest[k]).len() > 0
            && rest[k].last() == '\r') by {
            assert(rest[k] == ls[k + 1]);
        }
        assert(rest.last() == ls.last());
        lemma_lines_round_trip(rest);
        assert(j.len() > 0);
        assert(lines_of(j) == seq![strip_cr(j.take(first_newline(j)))] + lines_of(
            j.skip(first_newline(j) + 1),
        ));
        assert(lines_of(join_lines(ls)) =~= ls);
    }
}

/// The views of a sequence of borrowed lines.
pub open spec fn line_views(l: Seq<&str>) -> Seq<Seq<char>> {
    l.map_values(|t: &str| t@)
}

/// Splits `s` into its lines, each borrowed from `s`.
pub fn split_lines<'a>(s: &'a str) -> (r: Vec<&'a str>)
    ensures
        line_views(r@) == lines_of(s@),
    decreases s@.len(),
{
    let len = s.unicode_len();
    if len == 0 {
        let r: Vec<&'a str> = Vec::new();
        assert(line_views(r@) =~= lines_of(s@));
        return r;
    }
    let nl = find_newline(s);
    if nl == len {
        let mut r: Vec<&'a str> = Vec::new();
        r.push(s);
        assert(line_views(r@) =~= lines_of(s@));
        return r;
    }
    let head_end: usize = if nl > 0 && s.get_char(nl - 1) == '\r' {
        nl - 1
    } else {
        nl
    };
    let head = s.substring_char(0, head_end);
    let rest = s.substring_char(nl + 1, len);
    proof {
        assert(head@ =~= strip_cr(s@.take(nl as int)));
        assert(rest@ =~= s@.skip(nl + 1));
    }
    let mut r = split_lines(rest);
    r.insert(0, head);
    proof {
        assert(lines_of(s@) == seq![strip_cr(s@.take(nl as int))] + lines_of(s@.skip(nl + 1)));
        assert(line_views(r@) =~= lines_of(s@));
    }
    r
}

} // verus!
