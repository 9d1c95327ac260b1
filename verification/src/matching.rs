//! Case-sensitive substring containment on filenames, the one matching rule
//! of the whole search: a name matches when the pattern occurs in it as a
//! contiguous run of characters, and the empty pattern matches every name.

use vstd::prelude::*;
use vstd::string::StrSliceExecFns;

verus! {

/// The pattern occurs in `hay` starting at character position `i`.
pub open spec fn contains_at(hay: Seq<char>, pat: Seq<char>, i: int) -> bool {
    0 <= i && i + pat.len() <= hay.len() && hay.subrange(i, i + pat.len() as int) == pat
}

/// The pattern occurs somewhere in `hay`.
pub open spec fn contains_pattern(hay: Seq<char>, pat: Seq<char>) -> bool {
    exists|i: int| contains_at(hay, pat, i)
}

/// An empty pattern matches every name, the empty one included.
pub proof fn lemma_empty_pattern_matches(hay: Seq<char>, pat: Seq<char>)
    requires
        pat.len() == 0,
    ensures
        contains_pattern(hay, pat),
{
    assert(hay.subrange(0, 0) =~= pat);
    assert(contains_at(hay, pat, 0));
}

/// Whether the characters of `pat` all stand in `hay` starting at position `i`.
fn chars_match_at(hay: &str, pat: &str, i: usize) -> (r: bool)
    requires
        i + pat@.len() <= hay@.len(),
        hay@.len() <= usize::MAX,
    ensures
        r == contains_at(hay@, pat@, i as int),
{
    let pat_len = pat.unicode_len();
    let mut j: usize = 0;
    while j < pat_len
        invariant
            pat_len == pat@.len(),
            i + pat_len <= hay@.len(),
            hay@.len() <= usize::MAX,
            0 <= j <= pat_len,
            forall|k: int| 0 <= k < j ==> hay@[i + k] == pat@[k],
        decreases pat_len - j,
    {
        if hay.get_char(i + j) != pat.get_char(j) {
            proof {
                assert(hay@.subrange(i as int, i + pat@.len())[j as int] == hay@[i + j]);
            }
            return false;
        }
        j += 1;
    }
    proof {
        assert(hay@.subrange(i as int, i + pat@.len()) =~= pat@);
    }
    true
}

/// Whether two names are exactly the same sequence of characters.
pub fn str_equal(a: &str, b: &str) -> (r: bool)
    ensures
        r == (a@ == b@),
{
    let a_len = a.unicode_len();
    let b_len = b.unicode_len();
    if a_len != b_len {
        return false;
    }
    let r = chars_match_at(a, b, 0);
    proof {
        assert(a@.subrange(0, a@.len() as int) =~= a@);
    }
    r
}

/// Whether `pat` occurs in `hay` as a contiguous substring, case-sensitive;
/// an empty `pat` always matches.
pub fn name_contains(hay: &str, pat: &str) -> (r: bool)
    ensures
        r == contains_pattern(hay@, pat@),
{
    let hay_len = hay.unicode_len();
    let pat_len = pat.unicode_len();
    if pat_len == 0 {
        proof {
            lemma_empty_pattern_matches(hay@, pat@);
        }
        return true;
    }
    if pat_len > hay_len {
        proof {
            if contains_pattern(hay@, pat@) {
                let i = choose|i: int| contains_at(hay@, pat@, i);
                assert(false);
            }
        }
        return false;
    }
    let last = hay_len - pat_len;
    let mut i: usize = 0;
    while i <= last
        invariant
            hay_len == hay@.len(),
            pat_len == pat@.len(),
            0 < pat_len <= hay_len,
            last == hay_len - pat_len,
            0 <= i <= last + 1,
            forall|k: int| 0 <= k < i ==> !contains_at(hay@, pat@, k),
        decreases last + 1 - i,
    {
        if chars_match_at(hay, pat, i) {
            return true;
        }
        i += 1;
    }
    proof {
        if contains_pattern(hay@, pat@) {
            let k = choose|k: int| contains_at(hay@, pat@, k);
            assert(k <= last);
            assert(false);
        }
    }
    false
}

} // verus!
