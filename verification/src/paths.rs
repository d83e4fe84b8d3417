//! Paths as sequences of components.
//!
//! A path string is modelled as the list of its `/`-separated components.
//! An absolute path keeps one empty leading component (so `/a/b` becomes
//! `["", "a", "b"]` and joins back to `/a/b`); empty interior components are
//! dropped. Ancestor relations are then plain sequence prefixes.

use vstd::prelude::*;
use vstd::string::StrSliceExecFns;
use vstd::string::StringExecFns;

verus! {

/// The view of a component list: each component as its character sequence.
pub open spec fn parts_view(v: Vec<String>) -> Seq<Seq<char>> {
    v@.map_values(|s: String| s@)
}

/// The maximal non-empty `/`-free chunks of `s[start..]`, scanning from `i`
/// with `start` marking the beginning of the chunk being read.
pub open spec fn spec_split_chunks(s: Seq<char>, i: int, start: int) -> Seq<Seq<char>>
    decreases s.len() - i when i <= s.len()
{
    if i >= s.len() {
        if start < i {
            seq![s.subrange(start, i)]
        } else {
            seq![]
        }
    } else if s[i] == '/' {
        (if start < i {
            seq![s.subrange(start, i)]
        } else {
            seq![]
        }) + spec_split_chunks(s, i + 1, i + 1)
    } else {
        spec_split_chunks(s, i + 1, start)
    }
}

/// The component list of a path string.
pub open spec fn spec_split_path(s: Seq<char>) -> Seq<Seq<char>> {
    (if s.len() > 0 && s[0] == '/' {
        seq![Seq::<char>::empty()]
    } else {
        seq![]
    }) + spec_split_chunks(s, 0, 0)
}

/// Splits a path string into its components.
pub fn split_path(s: &String) -> (r: Vec<String>)
    ensures
        parts_view(r) == spec_split_path(s@),
{
    let n = s.as_str().unicode_len();
    let mut r: Vec<String> = Vec::new();
    if n > 0 && s.as_str().get_char(0) == '/' {
        r.push(String::new());
    }
    let mut i: usize = 0;
    let mut start: usize = 0;
    while i < n
        invariant
            n == s@.len(),
            start <= i <= n,
            parts_view(r) + spec_split_chunks(s@, i as int, start as int) == spec_split_path(
                s@,
            ),
        decreases n - i,
    {
        if s.as_str().get_char(i) == '/' {
            if start < i {
                let chunk = String::from_str(s.as_str().substring_char(start, i));
                r.push(chunk);
            }
            start = i + 1;
        }
        i = i + 1;
        proof {
            assert(parts_view(r) + spec_split_chunks(s@, i as int, start as int)
                =~= spec_split_path(s@));
        }
    }
    if start < n {
        let chunk = String::from_str(s.as_str().substring_char(start, n));
        r.push(chunk);
    }
    proof {
        assert(parts_view(r) =~= spec_split_path(s@));
    }
    r
}

/// The string a component list joins back to: components separated by `/`,
/// with the lone empty component (the filesystem root) joining to `/`.
pub open spec fn spec_join_tail(ps: Seq<Seq<char>>, i: int) -> Seq<char>
    decreases ps.len() - i when i <= ps.len()
{
    if i >= ps.len() {
        Seq::empty()
    } else {
        seq!['/'] + ps[i] + spec_join_tail(ps, i + 1)
    }
}

/// See `spec_join_tail`; the whole join.
pub open spec fn spec_join_path(ps: Seq<Seq<char>>) -> Seq<char> {
    if ps.len() == 0 {
        Seq::empty()
    } else if ps.len() == 1 && ps[0].len() == 0 {
        seq!['/']
    } else {
        ps[0] + spec_join_tail(ps, 1)
    }
}

/// Joins a component list into a path string.
pub fn join_path(parts: &Vec<String>) -> (r: String)
    ensures
        r@ == spec_join_path(parts_view(*parts)),
{
    if parts.len() == 0 {
        return String::new();
    }
    if parts.len() == 1 && parts[0].as_str().unicode_len() == 0 {
        let slash = String::from_str("/");
        proof {
            reveal_strlit("/");
            assert(slash@ =~= spec_join_path(parts_view(*parts)));
        }
        return slash;
    }
    let mut r = parts[0].clone();
    let mut i: usize = 1;
    while i < parts.len()
        invariant
            1 <= i <= parts.len(),
            parts.len() >= 1,
            r@ + spec_join_tail(parts_view(*parts), i as int) == spec_join_path(
                parts_view(*parts),
            ),
        decreases parts.len() - i,
    {
        r.append("/");
        proof {
            reveal_strlit("/");
        }
        r.append(parts[i].as_str());
        i = i + 1;
        proof {
            assert(r@ + spec_join_tail(parts_view(*parts), i as int) =~= spec_join_path(
                parts_view(*parts),
            ));
        }
    }
    r
}

/// True when `pre` is a (not necessarily strict) component-wise prefix of `p`.
pub open spec fn is_path_prefix(pre: Seq<Seq<char>>, p: Seq<Seq<char>>) -> bool {
    pre.len() <= p.len() && pre == p.subrange(0, pre.len() as int)
}

/// Prefix test on component lists, the ancestor-or-equal relation on paths.
pub fn path_starts_with(path: &Vec<String>, prefix: &Vec<String>) -> (r: bool)
    ensures
        r == is_path_prefix(parts_view(*prefix), parts_view(*path)),
{
    if prefix.len() > path.len() {
        return false;
    }
    let mut i: usize = 0;
    while i < prefix.len()
        invariant
            prefix.len() <= path.len(),
            i <= prefix.len(),
            forall|k: int| 0 <= k < i ==> parts_view(*prefix)[k] == parts_view(*path)[k],
        decreases prefix.len() - i,
    {
        if !(prefix[i] == path[i]) {
            proof {
                assert(parts_view(*path).subrange(0, prefix.len() as int)[i as int]
                    == parts_view(*path)[i as int]);
            }
            return false;
        }
        i = i + 1;
    }
    proof {
        assert(parts_view(*prefix) =~= parts_view(*path).subrange(0, prefix.len() as int));
    }
    true
}

/// Appends two component lists.
pub fn concat_parts(a: &Vec<String>, b: &Vec<String>) -> (r: Vec<String>)
    ensures
        parts_view(r) == parts_view(*a) + parts_view(*b),
{
    let mut r = clone_parts(a);
    proof {
        assert(parts_view(r).len() == r@.len());
        assert(parts_view(*a).len() == a@.len());
        assert forall|k: int| 0 <= k < a@.len() implies r@[k]@ == parts_view(*a)[k] by {
            assert(parts_view(r)[k] == r@[k]@);
        }
    }
    let mut i: usize = 0;
    while i < b.len()
        invariant
            i <= b@.len(),
            r@.len() == a@.len() + i,
            forall|k: int| 0 <= k < a@.len() ==> #[trigger] r@[k]@ == parts_view(*a)[k],
            forall|k: int| 0 <= k < i ==> #[trigger] r@[a@.len() + k]@ == parts_view(*b)[k],
        decreases b@.len() - i,
    {
        let x = b[i].clone();
        proof {
            assert(x@ == parts_view(*b)[i as int]);
        }
        r.push(x);
        i = i + 1;
    }
    proof {
        assert(parts_view(r).len() == r@.len());
        assert forall|k: int| 0 <= k < r@.len() implies parts_view(r)[k] == (parts_view(*a)
            + parts_view(*b))[k] by {
            if k >= a@.len() {
                assert(r@[a@.len() + (k - a@.len())]@ == parts_view(*b)[k - a@.len()]);
            }
        }
        assert(parts_view(r) =~= parts_view(*a) + parts_view(*b));
    }
    r
}

/// The component list from position `n` on.
pub fn skip_parts(v: &Vec<String>, n: usize) -> (r: Vec<String>)
    requires
        n <= v@.len(),
    ensures
        parts_view(r) == parts_view(*v).skip(n as int),
{
    let mut r: Vec<String> = Vec::new();
    let mut i: usize = n;
    while i < v.len()
        invariant
            n <= i <= v@.len(),
            r@.len() == i - n,
            forall|k: int| 0 <= k < i - n ==> #[trigger] r@[k]@ == parts_view(*v)[n + k],
        decreases v@.len() - i,
    {
        r.push(v[i].clone());
        i = i + 1;
    }
    proof {
        assert(parts_view(r) =~= parts_view(*v).skip(n as int));
    }
    r
}

/// Under a common prefix, the ancestor relation cancels: if `r + a` is a
/// prefix of `r + b`, then `a` is a prefix of `b`.
pub proof fn lemma_path_prefix_cancel(r: Seq<Seq<char>>, a: Seq<Seq<char>>, b: Seq<Seq<char>>)
    requires
        is_path_prefix(r + a, r + b),
    ensures
        is_path_prefix(a, b),
{
    assert forall|i: int| 0 <= i < a.len() implies a[i] == b.subrange(0, a.len() as int)[i] by {
        assert((r + a)[r.len() + i] == a[i]);
        assert((r + b).subrange(0, (r + a).len() as int)[r.len() + i] == (r + b)[r.len() + i]);
        assert((r + b)[r.len() + i] == b[i]);
    }
    assert(a =~= b.subrange(0, a.len() as int));
}

/// A path is an ancestor of everything built by appending to it.
pub proof fn lemma_prefix_extend(r: Seq<Seq<char>>, a: Seq<Seq<char>>)
    ensures
        is_path_prefix(r, r + a),
{
    assert(r =~= (r + a).subrange(0, r.len() as int));
}

/// Clones a component list; the views are equal.
pub fn clone_parts(v: &Vec<String>) -> (r: Vec<String>)
    ensures
        parts_view(r) == parts_view(*v),
{
    let mut r: Vec<String> = Vec::new();
    let mut i: usize = 0;
    while i < v.len()
        invariant
            i <= v.len(),
            r@.len() == i,
            forall|k: int| 0 <= k < i ==> r@[k]@ == v@[k]@,
        decreases v.len() - i,
    {
        r.push(v[i].clone());
        i = i + 1;
    }
    proof {
        assert(parts_view(r) =~= parts_view(*v));
    }
    r
}

} // verus!
