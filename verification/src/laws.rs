//! The laws the search engine obeys, stated over the specification functions
//! that the executable functions' contracts use, and proved here.

use vstd::prelude::*;

use crate::lines::spec_lines;
use crate::matching::contains_seq;
use crate::matching::lemma_contains_empty;
use crate::search::line_matches;
use crate::search::lower_of;
use crate::search::matching_lines;
use crate::search::lemma_matching_lines_all;
use crate::search::spec_search;
use crate::search::spec_search_ci;

verus! {

/// `m` maps each position of `sub` to a position of `full` holding the same
/// element, strictly increasing: `sub` occurs in `full` in this order.
pub open spec fn is_index_embedding(m: Seq<int>, sub: Seq<Seq<char>>, full: Seq<Seq<char>>) -> bool {
    &&& m.len() == sub.len()
    &&& (forall|i: int| 0 <= i < m.len() ==> 0 <= #[trigger] m[i] < full.len())
    &&& (forall|i: int| 0 <= i < m.len() ==> full[#[trigger] m[i]] == sub[i])
    &&& (forall|i: int, j: int| 0 <= i < j < m.len() ==> #[trigger] m[i] < #[trigger] m[j])
}

/// Every selected line matches, comes from the input, and every matching
/// input line is selected.
pub proof fn lemma_matching_lines_sound_complete(
    lines: Seq<Seq<char>>,
    query: Seq<char>,
    ignore_case: bool,
)
    ensures
        forall|i: int|
            0 <= i < matching_lines(lines, query, ignore_case).len() ==> line_matches(
                #[trigger] matching_lines(lines, query, ignore_case)[i],
                query,
                ignore_case,
            ),
        forall|i: int|
            0 <= i < matching_lines(lines, query, ignore_case).len() ==> lines.contains(
                #[trigger] matching_lines(lines, query, ignore_case)[i],
            ),
        forall|i: int|
            0 <= i < lines.len() && line_matches(#[trigger] lines[i], query, ignore_case)
                ==> matching_lines(lines, query, ignore_case).contains(lines[i]),
    decreases lines.len(),
{
    let result = matching_lines(lines, query, ignore_case);
    if lines.len() == 0 {
    } else {
        let prefix = lines.drop_last();
        let rest = matching_lines(prefix, query, ignore_case);
        lemma_matching_lines_sound_complete(prefix, query, ignore_case);
        assert forall|i: int| 0 <= i < result.len() implies line_matches(
            #[trigger] result[i],
            query,
            ignore_case,
        ) && lines.contains(result[i]) by {
            if i < rest.len() {
                assert(result[i] == rest[i]);
                let k = choose|k: int| 0 <= k < prefix.len() && prefix[k] == rest[i];
                assert(lines[k] == rest[i]);
            } else {
                assert(result[i] == lines.last());
                assert(lines[lines.len() - 1] == lines.last());
            }
        }
        assert forall|i: int|
            0 <= i < lines.len() && line_matches(
                #[trigger] lines[i],
                query,
                ignore_case,
            ) implies result.contains(lines[i]) by {
            if i < lines.len() - 1 {
                assert(prefix[i] == lines[i]);
                let k = choose|k: int| 0 <= k < rest.len() && rest[k] == lines[i];
                assert(result[k] == lines[i]);
            } else {
                assert(result[result.len() - 1] == lines[i]);
            }
        }
    }
}

/// The selected lines occur in the input in their original order: a strictly
/// increasing index map into the input lines witnesses it.
pub proof fn lemma_matching_lines_embedding(
    lines: Seq<Seq<char>>,
    query: Seq<char>,
    ignore_case: bool,
)
    ensures
        exists|m: Seq<int>|
            is_index_embedding(m, matching_lines(lines, query, ignore_case), lines),
    decreases lines.len(),
{
    let result = matching_lines(lines, query, ignore_case);
    if lines.len() == 0 {
        let m = Seq::<int>::empty();
        assert(is_index_embedding(m, result, lines));
    } else {
        let prefix = lines.drop_last();
        let rest = matching_lines(prefix, query, ignore_case);
        lemma_matching_lines_embedding(prefix, query, ignore_case);
        let m0 = choose|m0: Seq<int>| is_index_embedding(m0, rest, prefix);
        if line_matches(lines.last(), query, ignore_case) {
            let m = m0.push(lines.len() - 1);
            assert(is_index_embedding(m, result, lines)) by {
                assert forall|i: int| 0 <= i < m.len() implies 0 <= #[trigger] m[i] < lines.len()
                    && lines[m[i]] == result[i] by {
                    if i < m0.len() {
                        assert(m[i] == m0[i]);
                        assert(prefix[m0[i]] == lines[m0[i]]);
                        assert(result[i] == rest[i]);
                    } else {
                        assert(m[i] == lines.len() - 1);
                        assert(result[i] == lines.last());
                    }
                }
                assert forall|i: int, j: int| 0 <= i < j < m.len() implies #[trigger] m[i]
                    < #[trigger] m[j] by {
                    if j < m0.len() {
                        assert(m[i] == m0[i] && m[j] == m0[j]);
                    } else {
                        assert(m[i] == m0[i] && 0 <= m0[i] < prefix.len());
                        assert(m[j] == lines.len() - 1);
                    }
                }
            }
        } else {
            assert(is_index_embedding(m0, result, lines)) by {
                assert forall|i: int| 0 <= i < m0.len() implies 0 <= #[trigger] m0[i] < lines.len()
                    && lines[m0[i]] == result[i] by {
                    assert(prefix[m0[i]] == lines[m0[i]]);
                }
            }
        }
    }
}

/// The case-sensitive search is exact: every returned line contains the query
/// as an exact-case substring, every line of `contents` containing the query
/// is returned, and the returned lines keep their original order (they embed
/// into the lines of `contents` by a strictly increasing index map).
pub proof fn lemma_search_exact(query: Seq<char>, contents: Seq<char>)
    ensures
        forall|i: int|
            0 <= i < spec_search(query, contents).len() ==> contains_seq(
                #[trigger] spec_search(query, contents)[i],
                query,
            ),
        forall|i: int|
            0 <= i < spec_lines(contents).len() && contains_seq(
                #[trigger] spec_lines(contents)[i],
                query,
            ) ==> spec_search(query, contents).contains(spec_lines(contents)[i]),
        exists|m: Seq<int>|
            is_index_embedding(m, spec_search(query, contents), spec_lines(contents)),
{
    lemma_matching_lines_sound_complete(spec_lines(contents), query, false);
    lemma_matching_lines_embedding(spec_lines(contents), query, false);
    let m = choose|m: Seq<int>|
        is_index_embedding(m, matching_lines(spec_lines(contents), query, false), spec_lines(contents));
    assert(is_index_embedding(m, spec_search(query, contents), spec_lines(contents)));
}

/// The case-insensitive search finds every line the case-sensitive search
/// finds, on inputs where lowercasing preserves containment of the query in
/// the lines that contain it. (Full Unicode lowercasing is not always
/// substring-monotone — a Greek capital sigma lowercases to a different form
/// at the end of a word than elsewhere — so the hypothesis leaves exactly
/// those inputs out.)
pub proof fn lemma_case_insensitive_superset(query: Seq<char>, contents: Seq<char>)
    requires
        forall|i: int|
            0 <= i < spec_lines(contents).len() && contains_seq(
                #[trigger] spec_lines(contents)[i],
                query,
            ) ==> contains_seq(lower_of(spec_lines(contents)[i]), lower_of(query)),
    ensures
        forall|l: Seq<char>|
            spec_search(query, contents).contains(l) ==> spec_search_ci(query, contents).contains(
                l,
            ),
{
    let lines = spec_lines(contents);
    lemma_matching_lines_sound_complete(lines, query, false);
    lemma_matching_lines_sound_complete(lines, query, true);
    assert forall|l: Seq<char>| spec_search(query, contents).contains(l) implies spec_search_ci(
        query,
        contents,
    ).contains(l) by {
        let k = choose|k: int|
            0 <= k < spec_search(query, contents).len() && spec_search(query, contents)[k] == l;
        let i = choose|i: int| 0 <= i < lines.len() && lines[i] == l;
        assert(contains_seq(lines[i], query));
        assert(line_matches(lines[i], query, true));
    }
}

/// An empty query matches every line: the case-sensitive search returns all
/// lines of `contents`, in order.
pub proof fn lemma_empty_query_matches_all(contents: Seq<char>)
    ensures
        spec_search(Seq::<char>::empty(), contents) == spec_lines(contents),
{
    let lines = spec_lines(contents);
    assert forall|i: int| 0 <= i < lines.len() implies line_matches(
        #[trigger] lines[i],
        Seq::<char>::empty(),
        false,
    ) by {
        lemma_contains_empty(lines[i]);
    }
    lemma_matching_lines_all(lines, Seq::<char>::empty(), false);
}

} // verus!
