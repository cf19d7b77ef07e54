//! Splitting a text into lines. The specification `spec_lines` follows the
//! usual rule for line iteration: lines are separated by line feeds, a
//! carriage return directly before a line feed is removed, and a final line
//! needs no terminator to count (so a trailing line feed produces no empty
//! extra line). `split_lines` is the verified executable splitter.

use vstd::prelude::*;

verus! {

/// Index of the first line feed in `s`, or `s.len()` if there is none.
pub open spec fn first_newline(s: Seq<char>) -> nat
    decreases s.len(),
{
    if s.len() == 0 {
        0
    } else if s[0] == '\n' {
        0
    } else {
        first_newline(s.drop_first()) + 1
    }
}

/// `first_newline` points at the first line feed: it stays within the
/// sequence, the character there (if any) is a line feed, and no earlier
/// character is one.
pub proof fn lemma_first_newline(s: Seq<char>)
    ensures
        first_newline(s) <= s.len(),
        first_newline(s) < s.len() ==> s[first_newline(s) as int] == '\n',
        forall|k: int| 0 <= k < first_newline(s) ==> s[k] != '\n',
    decreases s.len(),
{
    if s.len() == 0 {
    } else if s[0] == '\n' {
    } else {
        lemma_first_newline(s.drop_first());
        assert forall|k: int| 0 <= k < first_newline(s) implies s[k] != '\n' by {
            if k > 0 {
                assert(s.drop_first()[k - 1] == s[k]);
            }
        }
    }
}

/// The position of the first line feed is determined: if no character before
/// `m` is a line feed and `m` is either the end or a line feed, then `m` is
/// `first_newline`.
pub proof fn lemma_first_newline_is(s: Seq<char>, m: int)
    requires
        0 <= m <= s.len(),
        forall|k: int| 0 <= k < m ==> s[k] != '\n',
        m < s.len() ==> s[m] == '\n',
    ensures
        first_newline(s) == m,
{
    lemma_first_newline(s);
    let f = first_newline(s) as int;
    if f < m {
        assert(s[f] == '\n');
        assert(s[f] != '\n');
    }
    if f > m {
        assert(s[m] != '\n');
    }
}

/// A terminated line with its trailing carriage return removed.
pub open spec fn strip_carriage_return(line: Seq<char>) -> Seq<char> {
    if line.len() > 0 && line.last() == '\r' {
        line.drop_last()
    } else {
        line
    }
}

/// The lines of `s`, in order: the pieces between line feeds, each with a
/// carriage return before the line feed removed; the piece after the last
/// line feed is a line only if `s` does not end at that line feed.
pub open spec fn spec_lines(s: Seq<char>) -> Seq<Seq<char>>
    decreases s.len(),
    via spec_lines_decreases
{
    if s.len() == 0 {
        Seq::empty()
    } else {
        let nl = first_newline(s) as int;
        if nl == s.len() {
            seq![s]
        } else {
            seq![strip_carriage_return(s.subrange(0, nl))] + spec_lines(
                s.subrange(nl + 1, s.len() as int),
            )
        }
    }
}

#[via_fn]
proof fn spec_lines_decreases(s: Seq<char>) {
    lemma_first_newline(s);
}

/// Splits `contents` into its lines; each element borrows from `contents`.
pub fn split_lines<'a>(contents: &'a str) -> (r: Vec<&'a str>)
    ensures
        r.deep_view() == spec_lines(contents@),
{
    let n: usize = contents.unicode_len();
    let mut r: Vec<&'a str> = Vec::new();
    proof {
        assert(contents@.subrange(0, n as int) =~= contents@);
        assert(r.deep_view() =~= Seq::<Seq<char>>::empty());
    }
    let mut pos: usize = 0;
    while pos < n
        invariant
            n == contents@.len(),
            pos <= n,
            spec_lines(contents@) == r.deep_view() + spec_lines(
                contents@.subrange(pos as int, n as int),
            ),
        decreases n - pos,
    {
        let ghost suffix = contents@.subrange(pos as int, n as int);
        let mut j: usize = pos;
        while j < n && contents.get_char(j) != '\n'
            invariant
                n == contents@.len(),
                pos <= j <= n,
                forall|k: int| pos <= k < j ==> contents@[k] != '\n',
            ensures
                pos <= j <= n,
                forall|k: int| pos <= k < j ==> contents@[k] != '\n',
                j < n ==> contents@[j as int] == '\n',
            decreases n - j,
        {
            j += 1;
        }
        proof {
            assert forall|k: int| 0 <= k < j - pos implies suffix[k] != '\n' by {
                assert(suffix[k] == contents@[pos + k]);
            }
            if (j - pos) < suffix.len() {
                assert(suffix[j - pos] == contents@[j as int]);
            }
            lemma_first_newline_is(suffix, j - pos);
        }
        let ghost old_r = r.deep_view();
        let line: &'a str;
        let next: usize;
        if j < n {
            let end: usize = if j > pos && contents.get_char(j - 1) == '\r' {
                j - 1
            } else {
                j
            };
            line = contents.substring_char(pos, end);
            next = j + 1;
            proof {
                assert(suffix.subrange(0, j - pos) =~= contents@.subrange(pos as int, j as int));
                assert(strip_carriage_return(suffix.subrange(0, j - pos)) =~= line@);
                assert(suffix.subrange(j - pos + 1, suffix.len() as int) =~= contents@.subrange(
                    next as int,
                    n as int,
                ));
                assert(spec_lines(suffix) == seq![line@] + spec_lines(
                    contents@.subrange(next as int, n as int),
                ));
            }
        } else {
            line = contents.substring_char(pos, n);
            next = n;
            proof {
                assert(suffix =~= line@);
                assert(spec_lines(suffix) == seq![line@]);
                assert(contents@.subrange(next as int, n as int) =~= Seq::<char>::empty());
                assert(spec_lines(contents@.subrange(next as int, n as int))
                    =~= Seq::<Seq<char>>::empty());
                assert(spec_lines(suffix) =~= seq![line@] + spec_lines(
                    contents@.subrange(next as int, n as int),
                ));
            }
        }
        r.push(line);
        proof {
            assert(r.deep_view() =~= old_r.push(line@));
            assert(old_r + (seq![line@] + spec_lines(contents@.subrange(next as int, n as int)))
                =~= r.deep_view() + spec_lines(contents@.subrange(next as int, n as int)));
        }
        pos = next;
    }
    proof {
        assert(contents@.subrange(pos as int, n as int) =~= Seq::<char>::empty());
        assert(spec_lines(contents@.subrange(pos as int, n as int)) =~= Seq::<Seq<char>>::empty());
        assert(r.deep_view() + spec_lines(contents@.subrange(pos as int, n as int))
            =~= r.deep_view());
    }
    r
}

} // verus!
