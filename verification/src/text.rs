//! Text predicates the controllers decide by: substring containment (the
//! authentication check and the disabled-state test) and exact-text cell
//! matching (the search and the completion-marker scan).

use vstd::prelude::*;
use vstd::string::StrSliceExecFns;

verus! {

/// `needle` occurs in `hay` starting at character position `i`.
pub open spec fn is_substring_at(hay: Seq<char>, needle: Seq<char>, i: int) -> bool {
    0 <= i && i + needle.len() <= hay.len() && hay.subrange(i, i + needle.len()) == needle
}

/// `needle` occurs somewhere in `hay`.
pub open spec fn is_substring(hay: Seq<char>, needle: Seq<char>) -> bool {
    exists|i: int| is_substring_at(hay, needle, i)
}

/// Substring containment test over character sequences.
pub fn contains_substr(hay: &str, needle: &str) -> (r: bool)
    ensures
        r == is_substring(hay@, needle@),
{
    let n: usize = hay.unicode_len();
    let m: usize = needle.unicode_len();
    if m == 0 {
        proof {
            assert(hay@.subrange(0, 0) =~= needle@);
            assert(is_substring_at(hay@, needle@, 0));
        }
        return true;
    }
    if m > n {
        proof {
            assert(forall|i: int| !is_substring_at(hay@, needle@, i));
        }
        return false;
    }
    let mut i: usize = 0;
    while i <= n - m
        invariant
            1 <= m <= n,
            n == hay@.len(),
            m == needle@.len(),
            i <= n - m + 1,
            forall|k: int| 0 <= k < i ==> !is_substring_at(hay@, needle@, k),
        decreases n - m + 1 - i,
    {
        let mut j: usize = 0;
        let mut mismatch = false;
        while j < m && !mismatch
            invariant
                1 <= m <= n,
                n == hay@.len(),
                m == needle@.len(),
                i + m <= n,
                j <= m,
                !mismatch ==> forall|l: int| 0 <= l < j ==> hay@[i + l] == needle@[l],
                mismatch ==> !is_substring_at(hay@, needle@, i as int),
            decreases m - j + (if mismatch { 0int } else { 1int }),
        {
            if hay.get_char(i + j) != needle.get_char(j) {
                proof {
                    if is_substring_at(hay@, needle@, i as int) {
                        assert(hay@.subrange(i as int, i + needle@.len())[j as int]
                            == hay@[i + j]);
                    }
                }
                mismatch = true;
            } else {
                j = j + 1;
            }
        }
        if !mismatch {
            proof {
                assert(hay@.subrange(i as int, i + needle@.len()) =~= needle@);
                assert(is_substring_at(hay@, needle@, i as int));
            }
            return true;
        }
        i = i + 1;
    }
    proof {
        assert forall|k: int| !is_substring_at(hay@, needle@, k) by {
            if 0 <= k < i {
            } else if k > n - m {
                assert(k + needle@.len() > hay@.len());
            }
        }
    }
    false
}

/// Index of the first cell whose text equals `needle` exactly; `None` when no
/// cell matches. No partial or fuzzy matching.
pub fn find_exact(cells: &Vec<String>, needle: &String) -> (r: Option<usize>)
    ensures
        match r {
            Some(i) => i < cells@.len() && cells@[i as int]@ == needle@ && forall|j: int|
                0 <= j < i ==> cells@[j]@ != needle@,
            None => forall|j: int| 0 <= j < cells@.len() ==> cells@[j]@ != needle@,
        },
{
    let n: usize = cells.len();
    for i in 0..n
        invariant
            n == cells@.len(),
            forall|j: int| 0 <= j < i ==> cells@[j]@ != needle@,
    {
        if cells[i] == *needle {
            return Some(i);
        }
    }
    None
}

} // verus!
