//! Substring containment over decoded characters: the specification
//! `contains_seq` and a verified executable test `contains_substring`.

use vstd::prelude::*;

verus! {

/// `needle` occurs somewhere in `hay` as a contiguous run of characters.
pub open spec fn contains_seq(hay: Seq<char>, needle: Seq<char>) -> bool {
    exists|i: int|
        0 <= i && i + needle.len() <= hay.len() && #[trigger] hay.subrange(i, i + needle.len())
            == needle
}

/// The empty sequence occurs in every sequence.
pub proof fn lemma_contains_empty(hay: Seq<char>)
    ensures
        contains_seq(hay, Seq::<char>::empty()),
{
    let needle = Seq::<char>::empty();
    assert(hay.subrange(0, 0 + needle.len() as int) =~= needle);
}

/// Whether `needle` occurs in `hay` as a substring, compared character by
/// character (on decoded codepoints, so multi-byte text is never split
/// mid-character).
pub fn contains_substring(hay: &str, needle: &str) -> (r: bool)
    ensures
        r == contains_seq(hay@, needle@),
{
    let n: usize = hay.unicode_len();
    let m: usize = needle.unicode_len();
    if m > n {
        proof {
            assert(!contains_seq(hay@, needle@)) by {
                assert forall|i: int|
                    !(0 <= i && i + needle@.len() <= hay@.len() && #[trigger] hay@.subrange(
                        i,
                        i + needle@.len(),
                    ) == needle@) by {};
            };
        }
        return false;
    }
    let mut i: usize = 0;
    while i <= n - m
        invariant
            m <= n,
            n == hay@.len(),
            m == needle@.len(),
            i <= n - m + 1,
            forall|k: int| 0 <= k < i ==> #[trigger] hay@.subrange(k, k + needle@.len()) != needle@,
        decreases n - m + 1 - i,
    {
        let mut j: usize = 0;
        let mut mismatch = false;
        while j < m
            invariant
                m <= n,
                n == hay@.len(),
                m == needle@.len(),
                i + m <= n,
                j <= m,
                !mismatch ==> forall|t: int| 0 <= t < j ==> hay@[i + t] == needle@[t],
                mismatch ==> hay@.subrange(i as int, i + m) != needle@,
            ensures
                mismatch || j == m,
                !mismatch ==> forall|t: int| 0 <= t < j ==> hay@[i + t] == needle@[t],
                mismatch ==> hay@.subrange(i as int, i + m) != needle@,
            decreases m - j,
        {
            if hay.get_char(i + j) != needle.get_char(j) {
                proof {
                    assert(hay@.subrange(i as int, i + m)[j as int] == hay@[i + j]);
                }
                mismatch = true;
                break ;
            }
            j += 1;
        }
        if !mismatch {
            proof {
                assert(hay@.subrange(i as int, i + m) =~= needle@);
            }
            return true;
        }
        proof {
            if m == 0 {
                assert(hay@.subrange(i as int, i + m) =~= needle@);
            }
        }
        i += 1;
    }
    proof {
        assert(!contains_seq(hay@, needle@)) by {
            assert forall|k: int|
                !(0 <= k && k + needle@.len() <= hay@.len() && #[trigger] hay@.subrange(
                    k,
                    k + needle@.len(),
                ) == needle@) by {
                if 0 <= k && k + needle@.len() <= hay@.len() {
                    assert(hay@.subrange(k, k + needle@.len()) != needle@);
                }
            };
        };
    }
    false
}

} // verus!
