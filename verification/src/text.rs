//! Small verified helpers over `String` views.

use vstd::prelude::*;
use vstd::string::StrSliceExecFns;

verus! {

/// True when `suf` is a suffix of `s`.
pub open spec fn spec_ends_with(s: Seq<char>, suf: Seq<char>) -> bool {
    suf.len() <= s.len() && s.subrange(s.len() - suf.len(), s.len() as int) == suf
}

/// True when the character `c` occurs somewhere in `s`.
pub open spec fn spec_contains_char(s: Seq<char>, c: char) -> bool {
    exists|i: int| 0 <= i < s.len() && s[i] == c
}

/// Suffix test on strings, e.g. for directory names such as `*.egg-info`.
pub fn string_ends_with(s: &String, suffix: &String) -> (r: bool)
    ensures
        r == spec_ends_with(s@, suffix@),
{
    let sl = s.as_str().unicode_len();
    let fl = suffix.as_str().unicode_len();
    if fl > sl {
        return false;
    }
    let off = sl - fl;
    let mut j: usize = 0;
    while j < fl
        invariant
            fl <= sl,
            sl == s@.len(),
            fl == suffix@.len(),
            off == sl - fl,
            j <= fl,
            forall|k: int| 0 <= k < j ==> s@[off + k] == suffix@[k],
        decreases fl - j,
    {
        if s.as_str().get_char(off + j) != suffix.as_str().get_char(j) {
            proof {
                assert(s@.subrange(s@.len() - suffix@.len(), s@.len() as int)[j as int]
                    == s@[off + j]);
            }
            return false;
        }
        j = j + 1;
    }
    proof {
        assert(s@.subrange(s@.len() - suffix@.len(), s@.len() as int) =~= suffix@);
    }
    true
}

/// Character membership test, e.g. to see whether a pattern holds a separator.
pub fn string_contains_char(s: &String, c: char) -> (r: bool)
    ensures
        r == spec_contains_char(s@, c),
{
    let n = s.as_str().unicode_len();
    let mut i: usize = 0;
    while i < n
        invariant
            n == s@.len(),
            i <= n,
            forall|k: int| 0 <= k < i ==> s@[k] != c,
        decreases n - i,
    {
        if s.as_str().get_char(i) == c {
            return true;
        }
        i = i + 1;
    }
    false
}

} // verus!
