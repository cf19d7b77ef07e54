//! The search engine: the case-sensitive and case-insensitive line searches,
//! their specifications, and the mode selection driven by a `Config`.

use vstd::prelude::*;

use crate::config::Config;
use crate::lines::spec_lines;
use crate::lines::split_lines;
use crate::matching::contains_seq;
use crate::matching::contains_substring;
use crate::matching::lemma_contains_empty;

verus! {

/// What full Unicode lowercasing returns for a sequence of characters. The
/// result depends on the characters alone; no more is assumed of it than the
/// trusted `lowercase` wrapper states.
pub uninterp spec fn lower_of(s: Seq<char>) -> Seq<char>;

/// Relies on str::to_lowercase: full Unicode lowercase conversion (not an
/// ASCII fold), whose result is a function of the input characters alone; an
/// empty input lowercases to the empty string.
#[verifier::external_body]
fn lowercase(s: &str) -> (r: String)
    ensures
        r@ == lower_of(s@),
        s@.len() == 0 ==> r@.len() == 0,
{
    s.to_lowercase()
}

/// Whether `line` matches `query` in the given mode: an exact substring when
/// `ignore_case` is false, a substring after lowercasing both when it is true.
pub open spec fn line_matches(line: Seq<char>, query: Seq<char>, ignore_case: bool) -> bool {
    if ignore_case {
        contains_seq(lower_of(line), lower_of(query))
    } else {
        contains_seq(line, query)
    }
}

/// The subsequence of `lines` whose elements match `query` in the given mode,
/// kept in their original order.
pub open spec fn matching_lines(lines: Seq<Seq<char>>, query: Seq<char>, ignore_case: bool) -> Seq<
    Seq<char>,
>
    decreases lines.len(),
{
    if lines.len() == 0 {
        Seq::<Seq<char>>::empty()
    } else {
        let rest = matching_lines(lines.drop_last(), query, ignore_case);
        if line_matches(lines.last(), query, ignore_case) {
            rest.push(lines.last())
        } else {
            rest
        }
    }
}

/// The lines of `contents` that contain `query` as an exact-case substring,
/// in their original order.
pub open spec fn spec_search(query: Seq<char>, contents: Seq<char>) -> Seq<Seq<char>> {
    matching_lines(spec_lines(contents), query, false)
}

/// The lines of `contents` whose lowercased text contains the lowercased
/// `query`, in their original order.
pub open spec fn spec_search_ci(query: Seq<char>, contents: Seq<char>) -> Seq<Seq<char>> {
    matching_lines(spec_lines(contents), query, true)
}

/// Appending one line to the input either appends it to the matches (when it
/// matches) or leaves them unchanged.
pub proof fn lemma_matching_lines_push(
    lines: Seq<Seq<char>>,
    x: Seq<char>,
    query: Seq<char>,
    ignore_case: bool,
)
    ensures
        matching_lines(lines.push(x), query, ignore_case) == if line_matches(
            x,
            query,
            ignore_case,
        ) {
            matching_lines(lines, query, ignore_case).push(x)
        } else {
            matching_lines(lines, query, ignore_case)
        },
{
    assert(lines.push(x).drop_last() =~= lines);
    assert(lines.push(x).last() == x);
}

/// When every line matches, the matches are the lines themselves.
pub proof fn lemma_matching_lines_all(lines: Seq<Seq<char>>, query: Seq<char>, ignore_case: bool)
    requires
        forall|i: int|
            0 <= i < lines.len() ==> line_matches(#[trigger] lines[i], query, ignore_case),
    ensures
        matching_lines(lines, query, ignore_case) == lines,
    decreases lines.len(),
{
    if lines.len() == 0 {
        assert(matching_lines(lines, query, ignore_case) =~= lines);
    } else {
        lemma_matching_lines_all(lines.drop_last(), query, ignore_case);
        assert(matching_lines(lines, query, ignore_case) =~= lines);
    }
}

/// Case-sensitive search: returns the lines of `contents` that contain
/// `query` as an exact-case substring, in their original order; an empty
/// query matches every line. Each returned line borrows from `contents`.
pub fn search<'a>(query: &str, contents: &'a str) -> (r: Vec<&'a str>)
    ensures
        r.deep_view() == spec_search(query@, contents@),
        query@.len() == 0 ==> r.deep_view() == spec_lines(contents@),
{
    let lines_vec: Vec<&'a str> = split_lines(contents);
    let ghost all = lines_vec.deep_view();
    let mut results: Vec<&'a str> = Vec::new();
    proof {
        assert(all.subrange(0, 0) =~= Seq::<Seq<char>>::empty());
        assert(results.deep_view() =~= Seq::<Seq<char>>::empty());
    }
    let mut idx: usize = 0;
    while idx < lines_vec.len()
        invariant
            all == lines_vec.deep_view(),
            all == spec_lines(contents@),
            idx <= lines_vec.len(),
            all.len() == lines_vec@.len(),
            results.deep_view() == matching_lines(all.subrange(0, idx as int), query@, false),
        decreases lines_vec.len() - idx,
    {
        let line: &'a str = lines_vec[idx];
        proof {
            assert(line@ == all[idx as int]);
        }
        let ghost prefix = all.subrange(0, idx as int);
        let ghost old_results = results.deep_view();
        if contains_substring(line, query) {
            results.push(line);
            proof {
                assert(results.deep_view() =~= old_results.push(line@));
            }
        }
        proof {
            assert(all.subrange(0, idx + 1) =~= prefix.push(all[idx as int]));
            lemma_matching_lines_push(prefix, all[idx as int], query@, false);
        }
        idx += 1;
    }
    proof {
        assert(all.subrange(0, idx as int) =~= all);
        if query@.len() == 0 {
            assert forall|i: int| 0 <= i < all.len() implies line_matches(
                #[trigger] all[i],
                query@,
                false,
            ) by {
                assert(query@ =~= Seq::<char>::empty());
                lemma_contains_empty(all[i]);
            }
            lemma_matching_lines_all(all, query@, false);
        }
    }
    results
}

/// Case-insensitive search: returns the lines of `contents` whose lowercased
/// text contains the lowercased `query`, in their original order; an empty
/// query matches every line. The returned lines are the original lines, not
/// lowercased copies, and borrow from `contents`.
pub fn search_case_insensitive<'a>(query: &str, contents: &'a str) -> (r: Vec<&'a str>)
    ensures
        r.deep_view() == spec_search_ci(query@, contents@),
        query@.len() == 0 ==> r.deep_view() == spec_lines(contents@),
{
    let query_lower: String = lowercase(query);
    let lines_vec: Vec<&'a str> = split_lines(contents);
    let ghost all = lines_vec.deep_view();
    let mut results: Vec<&'a str> = Vec::new();
    proof {
        assert(all.subrange(0, 0) =~= Seq::<Seq<char>>::empty());
        assert(results.deep_view() =~= Seq::<Seq<char>>::empty());
    }
    let mut idx: usize = 0;
    while idx < lines_vec.len()
        invariant
            all == lines_vec.deep_view(),
            all == spec_lines(contents@),
            idx <= lines_vec.len(),
            all.len() == lines_vec@.len(),
            query_lower@ == lower_of(query@),
            results.deep_view() == matching_lines(all.subrange(0, idx as int), query@, true),
        decreases lines_vec.len() - idx,
    {
        let line: &'a str = lines_vec[idx];
        proof {
            assert(line@ == all[idx as int]);
        }
        let line_lower: String = lowercase(line);
        let ghost prefix = all.subrange(0, idx as int);
        let ghost old_results = results.deep_view();
        if contains_substring(line_lower.as_str(), query_lower.as_str()) {
            results.push(line);
            proof {
                assert(results.deep_view() =~= old_results.push(line@));
            }
        }
        proof {
            assert(all.subrange(0, idx + 1) =~= prefix.push(all[idx as int]));
            lemma_matching_lines_push(prefix, all[idx as int], query@, true);
        }
        idx += 1;
    }
    proof {
        assert(all.subrange(0, idx as int) =~= all);
        if query@.len() == 0 {
            assert(lower_of(query@) =~= Seq::<char>::empty());
            assert forall|i: int| 0 <= i < all.len() implies line_matches(
                #[trigger] all[i],
                query@,
                true,
            ) by {
                lemma_contains_empty(lower_of(all[i]));
            }
            lemma_matching_lines_all(all, query@, true);
        }
    }
    results
}

/// Runs the search in the mode the configuration selects: case-insensitive
/// when `ignore_case` is set, case-sensitive otherwise.
pub fn search_with_config<'a>(config: &Config, contents: &'a str) -> (r: Vec<&'a str>)
    ensures
        r.deep_view() == if config.ignore_case {
            spec_search_ci(config.query@, contents@)
        } else {
            spec_search(config.query@, contents@)
        },
{
    if config.ignore_case {
        search_case_insensitive(config.query.as_str(), contents)
    } else {
        search(config.query.as_str(), contents)
    }
}

} // verus!
