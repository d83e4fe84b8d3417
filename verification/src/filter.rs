//! The artifact filter: user-supplied include and exclude glob patterns,
//! applied to each artifact's path relative to the scan root.
//!
//! A bare pattern (one without `/`) is expanded into two globs, one matching
//! it as a leaf path segment anywhere in the tree and one matching it as an
//! ancestor segment. Exclude patterns are judged first and win outright; when
//! include patterns were given, a surviving path must match one of them.

use vstd::prelude::*;
use vstd::string::StringExecFns;

use crate::paths::clone_parts;
use crate::paths::is_path_prefix;
use crate::paths::join_path;
use crate::paths::parts_view;
use crate::paths::path_starts_with;
use crate::paths::skip_parts;
use crate::paths::spec_join_path;
use crate::paths::spec_split_path;
use crate::paths::split_path;
use crate::scanner::Artifact;
use crate::text::spec_contains_char;
use crate::text::string_contains_char;

verus! {

#[verifier::external_type_specification]
#[verifier::external_body]
pub struct ExGlob(globset::Glob);

#[verifier::external_type_specification]
#[verifier::external_body]
pub struct ExGlobSet(globset::GlobSet);

#[verifier::external_type_specification]
#[verifier::external_body]
pub struct ExGlobSetBuilder(globset::GlobSetBuilder);

#[verifier::external_type_specification]
#[verifier::external_body]
pub struct ExGlobError(globset::Error);

/// Whether globset accepts this pattern text; a function of the text alone.
pub uninterp spec fn glob_pattern_valid(pattern: Seq<char>) -> bool;

/// Whether this glob pattern matches this path; a function of the two texts
/// alone.
pub uninterp spec fn glob_matches(pattern: Seq<char>, path: Seq<char>) -> bool;

/// The pattern a compiled glob was built from.
pub uninterp spec fn glob_pattern(g: globset::Glob) -> Seq<char>;

/// The patterns a builder has accumulated, in order.
pub uninterp spec fn builder_patterns(b: globset::GlobSetBuilder) -> Seq<Seq<char>>;

/// The patterns a compiled glob set holds, in order.
pub uninterp spec fn glob_set_patterns(s: globset::GlobSet) -> Seq<Seq<char>>;

/// Whether globset can compile this pattern list into a matcher; compilation
/// is deterministic, a function of the patterns alone.
pub uninterp spec fn glob_set_buildable(pats: Seq<Seq<char>>) -> bool;

/// Whether any of the patterns matches the path.
pub open spec fn spec_set_matches(pats: Seq<Seq<char>>, path: Seq<char>) -> bool {
    exists|i: int| 0 <= i < pats.len() && glob_matches(#[trigger] pats[i], path)
}

/// Relies on globset::Glob::new: parses one glob pattern; whether it succeeds
/// depends on the pattern's syntax alone, and the compiled glob keeps its
/// pattern.
#[verifier::external_body]
fn glob_new(pattern: &String) -> (r: Result<globset::Glob, globset::Error>)
    ensures
        r is Ok <==> glob_pattern_valid(pattern@),
        r matches Ok(g) ==> glob_pattern(g) == pattern@,
{
    globset::Glob::new(pattern.as_str())
}

/// Relies on globset::GlobSetBuilder::new: starts with no patterns.
#[verifier::external_body]
fn glob_builder_new() -> (r: globset::GlobSetBuilder)
    ensures
        builder_patterns(r) == Seq::<Seq<char>>::empty(),
{
    globset::GlobSetBuilder::new()
}

/// Relies on globset::GlobSetBuilder::add: appends one glob to the builder's
/// pattern list.
#[verifier::external_body]
fn glob_builder_add(b: &mut globset::GlobSetBuilder, g: globset::Glob)
    ensures
        builder_patterns(*final(b)) == builder_patterns(*old(b)).push(glob_pattern(g)),
{
    b.add(g);
}

/// Relies on globset::GlobSetBuilder::build: compiles the accumulated globs,
/// deterministically from the pattern list alone; on success the set holds
/// exactly the patterns that were added.
#[verifier::external_body]
fn glob_builder_build(b: &globset::GlobSetBuilder) -> (r: Result<globset::GlobSet, globset::Error>)
    ensures
        r is Ok <==> glob_set_buildable(builder_patterns(*b)),
        r matches Ok(s) ==> glob_set_patterns(s) == builder_patterns(*b),
{
    b.build()
}

/// Relies on globset::GlobSet::is_match: true exactly when some glob in the
/// set matches the path.
#[verifier::external_body]
fn glob_set_is_match(s: &globset::GlobSet, path: &String) -> (r: bool)
    ensures
        r == (exists|i: int|
            0 <= i < glob_set_patterns(*s).len() && glob_matches(
                #[trigger] glob_set_patterns(*s)[i],
                path@,
            )),
{
    s.is_match(std::path::Path::new(path.as_str()))
}

/// Relies on the Display impl of globset::Error: its human-readable message.
#[verifier::external_body]
fn glob_error_message(e: &globset::Error) -> String {
    format!("{}", e)
}

/// Error for a filter pattern that is not valid glob syntax.
#[derive(Debug)]
pub struct PatternError {
    pub message: String,
}

impl PatternError {
    /// The display text: `invalid filter pattern: ` followed by the message.
    pub fn to_string(&self) -> (r: String)
        ensures
            r@ == "invalid filter pattern: "@ + self.message@,
    {
        let mut s = String::from_str("invalid filter pattern: ");
        s.append(self.message.as_str());
        s
    }
}

/// The globs one raw pattern expands to: a pattern with a separator is used
/// verbatim; a bare pattern matches both as a leaf segment and as an ancestor
/// segment anywhere in the tree.
pub open spec fn spec_expand_one(p: Seq<char>) -> Seq<Seq<char>> {
    if spec_contains_char(p, '/') {
        seq![p]
    } else {
        seq![seq!['*', '*', '/'] + p, seq!['*', '*', '/'] + p + seq!['/', '*', '*']]
    }
}

/// The expansion of a whole pattern list, in order.
pub open spec fn spec_expand_all(ps: Seq<Seq<char>>) -> Seq<Seq<char>>
    decreases ps.len(),
{
    if ps.len() == 0 {
        Seq::empty()
    } else {
        spec_expand_all(ps.drop_last()) + spec_expand_one(ps.last())
    }
}

/// Whether globset accepts every pattern in the list.
pub open spec fn spec_all_valid(ps: Seq<Seq<char>>) -> bool {
    forall|i: int| 0 <= i < ps.len() ==> glob_pattern_valid(#[trigger] ps[i])
}

/// Compiles raw patterns into a glob set, expanding bare patterns.
///
/// Succeeds exactly when every expanded pattern is valid glob syntax and
/// globset can compile the list; on success the set holds exactly the
/// expanded patterns, in order.
fn build_glob_set(patterns: &Vec<String>) -> (r: Result<globset::GlobSet, PatternError>)
    ensures
        r matches Ok(s) ==> glob_set_patterns(s) == spec_expand_all(parts_view(*patterns)),
        r is Ok <==> (spec_all_valid(spec_expand_all(parts_view(*patterns)))
            && glob_set_buildable(spec_expand_all(parts_view(*patterns)))),
{
    let mut b = glob_builder_new();
    let mut i: usize = 0;
    proof {
        assert(spec_expand_all(parts_view(*patterns).take(0)) =~= Seq::<Seq<char>>::empty());
    }
    while i < patterns.len()
        invariant
            i <= patterns@.len(),
            builder_patterns(b) == spec_expand_all(parts_view(*patterns).take(i as int)),
            spec_all_valid(builder_patterns(b)),
        decreases patterns@.len() - i,
    {
        let p = &patterns[i];
        let ghost pv = parts_view(*patterns)[i as int];
        proof {
            assert(pv == p@);
        }
        if string_contains_char(p, '/') {
            proof {
                assert(spec_expand_one(pv)[0] == pv);
            }
            match glob_new(p) {
                Ok(g) => glob_builder_add(&mut b, g),
                Err(e) => {
                    proof {
                        lemma_expand_all_invalid(parts_view(*patterns), i as int, pv);
                    }
                    return Err(PatternError { message: glob_error_message(&e) });
                },
            }
        } else {
            let lead = String::from_str("**/").concat(p.as_str());
            let trail = String::from_str("**/").concat(p.as_str()).concat("/**");
            proof {
                reveal_strlit("**/");
                reveal_strlit("/**");
                assert(lead@ =~= seq!['*', '*', '/'] + pv);
                assert(trail@ =~= seq!['*', '*', '/'] + pv + seq!['/', '*', '*']);
                assert(spec_expand_one(pv)[0] == lead@);
                assert(spec_expand_one(pv)[1] == trail@);
            }
            match glob_new(&lead) {
                Ok(g) => glob_builder_add(&mut b, g),
                Err(e) => {
                    proof {
                        lemma_expand_all_invalid(parts_view(*patterns), i as int, lead@);
                    }
                    return Err(PatternError { message: glob_error_message(&e) });
                },
            }
            match glob_new(&trail) {
                Ok(g) => glob_builder_add(&mut b, g),
                Err(e) => {
                    proof {
                        lemma_expand_all_invalid(parts_view(*patterns), i as int, trail@);
                    }
                    return Err(PatternError { message: glob_error_message(&e) });
                },
            }
        }
        i = i + 1;
        proof {
            lemma_expand_all_take_step(parts_view(*patterns), i as int);
        }
    }
    proof {
        assert(parts_view(*patterns).take(patterns@.len() as int) =~= parts_view(*patterns));
    }
    match glob_builder_build(&b) {
        Ok(s) => Ok(s),
        Err(e) => Err(PatternError { message: glob_error_message(&e) }),
    }
}

/// Unfolds one step of the expansion: the expansion of the first `i` patterns
/// is the expansion of the first `i - 1` followed by the expansion of pattern
/// `i - 1`.
proof fn lemma_expand_all_take_step(ps: Seq<Seq<char>>, i: int)
    requires
        0 < i <= ps.len(),
    ensures
        spec_expand_all(ps.take(i)) == spec_expand_all(ps.take(i - 1)) + spec_expand_one(
            ps[i - 1],
        ),
{
    assert(ps.take(i).drop_last() =~= ps.take(i - 1));
    assert(ps.take(i).last() == ps[i - 1]);
}

/// When one expanded pattern is invalid, the whole expansion has an invalid
/// member.
proof fn lemma_expand_all_invalid(ps: Seq<Seq<char>>, i: int, q: Seq<char>)
    requires
        0 <= i < ps.len(),
        spec_expand_one(ps[i]).contains(q),
        !glob_pattern_valid(q),
    ensures
        !spec_all_valid(spec_expand_all(ps)),
{
    lemma_expand_all_contains(ps, i, q);
}

/// Every member of one pattern's expansion is a member of the whole
/// expansion.
proof fn lemma_expand_all_contains(ps: Seq<Seq<char>>, i: int, q: Seq<char>)
    requires
        0 <= i < ps.len(),
        spec_expand_one(ps[i]).contains(q),
    ensures
        spec_expand_all(ps).contains(q),
    decreases ps.len(),
{
    if i == ps.len() - 1 {
        let j = choose|j: int| 0 <= j < spec_expand_one(ps[i]).len() && spec_expand_one(ps[i])[j] == q;
        assert(spec_expand_all(ps)[spec_expand_all(ps.drop_last()).len() + j] == q);
    } else {
        lemma_expand_all_contains(ps.drop_last(), i, q);
        let j = choose|j: int|
            0 <= j < spec_expand_all(ps.drop_last()).len() && spec_expand_all(ps.drop_last())[j]
                == q;
        assert(spec_expand_all(ps)[j] == q);
    }
}

/// Filters artifacts by include and exclude glob patterns.
///
/// Exclude patterns take precedence over include patterns. When no include
/// patterns are given, every non-excluded artifact is kept.
pub struct ArtifactFilter {
    includes: Option<globset::GlobSet>,
    excludes: globset::GlobSet,
}

/// The filter's exclude patterns (after expansion).
pub closed spec fn spec_exclude_pats(f: ArtifactFilter) -> Seq<Seq<char>> {
    glob_set_patterns(f.excludes)
}

/// Whether the filter carries an include list at all.
pub closed spec fn spec_has_includes(f: ArtifactFilter) -> bool {
    f.includes is Some
}

/// The filter's include patterns (after expansion); empty when none were
/// given.
pub closed spec fn spec_include_pats(f: ArtifactFilter) -> Seq<Seq<char>> {
    match f.includes {
        Some(gs) => glob_set_patterns(gs),
        None => Seq::empty(),
    }
}

/// What the filter accepts: a path matching an exclude pattern is rejected
/// outright; otherwise, when include patterns were given, the path must match
/// one of them.
pub open spec fn spec_accepts(f: ArtifactFilter, path: Seq<char>) -> bool {
    &&& !spec_set_matches(spec_exclude_pats(f), path)
    &&& (!spec_has_includes(f) || spec_set_matches(spec_include_pats(f), path))
}

/// Exclude precedence: a path matching any exclude pattern is never accepted,
/// whatever the include patterns say of it.
pub proof fn lemma_exclude_precedence(f: ArtifactFilter, path: Seq<char>)
    requires
        spec_set_matches(spec_exclude_pats(f), path),
    ensures
        !spec_accepts(f, path),
{
}

/// The filter pass never adds artifacts: everything in a filtered sequence
/// (such as what `apply` returns) stood in the sequence it was filtered
/// from.
pub proof fn lemma_filter_only_removes<A>(s: Seq<A>, pred: spec_fn(A) -> bool, x: A)
    requires
        s.filter(pred).contains(x),
    ensures
        s.contains(x),
    decreases s.len(),
{
    reveal(Seq::filter);
    if s.len() > 0 {
        let d = s.drop_last();
        if pred(s.last()) && x == s.last() {
            assert(s[s.len() - 1] == x);
        } else {
            if pred(s.last()) {
                let i = choose|i: int|
                    0 <= i < s.filter(pred).len() && s.filter(pred)[i] == x;
                assert(i < d.filter(pred).len());
                assert(d.filter(pred)[i] == x);
            }
            lemma_filter_only_removes(d, pred, x);
            let j = choose|j: int| 0 <= j < d.len() && d[j] == x;
            assert(s[j] == x);
        }
    }
}

/// The path an artifact is filtered under: its path relative to the scan
/// root, or the full path where the root is not a prefix of it.
pub open spec fn spec_rel_parts(root: Seq<char>, p: Seq<Seq<char>>) -> Seq<Seq<char>> {
    if is_path_prefix(spec_split_path(root), p) {
        p.skip(spec_split_path(root).len() as int)
    } else {
        p
    }
}

/// See `spec_rel_parts`, joined back into a path string.
pub open spec fn spec_rel_string(root: Seq<char>, p: Seq<Seq<char>>) -> Seq<char> {
    spec_join_path(spec_rel_parts(root, p))
}

/// What `apply` keeps: the artifacts whose root-relative path the filter
/// accepts.
pub open spec fn spec_apply_pred(f: ArtifactFilter, root: Seq<char>) -> spec_fn(Artifact) -> bool {
    |a: Artifact| spec_accepts(f, spec_rel_string(root, a@.path))
}

impl ArtifactFilter {
    /// Builds a filter from raw include and exclude pattern strings.
    ///
    /// Fails when a pattern is not valid glob syntax. On success, the
    /// exclude set holds the expanded exclude patterns; the include set
    /// holds the expanded include patterns and is present exactly when any
    /// include pattern was given.
    pub fn new(include_patterns: &Vec<String>, exclude_patterns: &Vec<String>) -> (r: Result<
        ArtifactFilter,
        PatternError,
    >)
        ensures
            r matches Ok(f) ==> {
                &&& spec_exclude_pats(f) == spec_expand_all(parts_view(*exclude_patterns))
                &&& spec_has_includes(f) == (include_patterns@.len() > 0)
                &&& include_patterns@.len() > 0 ==> spec_include_pats(f) == spec_expand_all(
                    parts_view(*include_patterns),
                )
            },
            r is Ok <==> ({
                let ei = spec_expand_all(parts_view(*include_patterns));
                let ee = spec_expand_all(parts_view(*exclude_patterns));
                spec_all_valid(ei) && spec_all_valid(ee) && (include_patterns@.len() == 0
                    || glob_set_buildable(ei)) && glob_set_buildable(ee)
            }),
    {
        let includes: Option<globset::GlobSet> = if include_patterns.len() == 0 {
            None
        } else {
            match build_glob_set(include_patterns) {
                Ok(s) => Some(s),
                Err(e) => {
                    return Err(e);
                },
            }
        };
        proof {
            if include_patterns@.len() == 0 {
                assert(parts_view(*include_patterns) =~= Seq::<Seq<char>>::empty());
                assert(spec_all_valid(spec_expand_all(parts_view(*include_patterns))));
            }
        }
        let excludes = match build_glob_set(exclude_patterns) {
            Ok(s) => s,
            Err(e) => {
                return Err(e);
            },
        };
        Ok(ArtifactFilter { includes, excludes })
    }

    /// Tests one path (relative to the scan root) against the filter.
    pub fn matches(&self, relative_path: &String) -> (r: bool)
        ensures
            r == spec_accepts(*self, relative_path@),
    {
        if glob_set_is_match(&self.excludes, relative_path) {
            return false;
        }
        match &self.includes {
            None => true,
            Some(gs) => glob_set_is_match(gs, relative_path),
        }
    }

    /// Filters a list of artifacts, matching each path relative to `root`.
    ///
    /// Keeps exactly the artifacts whose relative path the filter accepts, in
    /// order; the pass never adds artifacts.
    pub fn apply(&self, root: &String, artifacts: Vec<Artifact>) -> (r: Vec<Artifact>)
        ensures
            r@ == artifacts@.filter(spec_apply_pred(*self, root@)),
    {
        let ghost orig = artifacts@;
        let ghost pr = spec_apply_pred(*self, root@);
        let root_parts = split_path(root);
        let mut rest = artifacts;
        let orig_len = rest.len();
        let mut r: Vec<Artifact> = Vec::new();
        let mut i: usize = 0;
        proof {
            reveal(Seq::filter);
            assert(orig.take(0).filter(pr) =~= Seq::<Artifact>::empty());
            assert(orig.skip(0) =~= orig);
        }
        while rest.len() > 0
            invariant
                i <= orig.len(),
                orig.len() == orig_len,
                parts_view(root_parts) == spec_split_path(root@),
                pr == spec_apply_pred(*self, root@),
                rest@ == orig.skip(i as int),
                r@ == orig.take(i as int).filter(pr),
            decreases rest@.len(),
        {
            let a = rest.remove(0);
            proof {
                assert(orig.skip(i as int)[0] == orig[i as int]);
                assert(rest@ =~= orig.skip(i as int + 1));
            }
            let rel: Vec<String> = if path_starts_with(&a.path, &root_parts) {
                skip_parts(&a.path, root_parts.len())
            } else {
                clone_parts(&a.path)
            };
            proof {
                assert(parts_view(rel) == spec_rel_parts(root@, a@.path));
            }
            let rel_str = join_path(&rel);
            let keep = self.matches(&rel_str);
            proof {
                assert(keep == pr(a));
            }
            if keep {
                r.push(a);
            }
            i = i + 1;
            proof {
                reveal(Seq::filter);
                assert(orig.take(i as int).drop_last() =~= orig.take(i as int - 1));
                assert(orig.take(i as int).last() == orig[i as int - 1]);
                if pr(orig[i as int - 1]) {
                    assert(orig.take(i as int).filter(pr) == orig.take(i as int - 1).filter(
                        pr,
                    ).push(orig[i as int - 1]));
                } else {
                    assert(orig.take(i as int).filter(pr) == orig.take(i as int - 1).filter(pr));
                }
                assert(r@ =~= orig.take(i as int).filter(pr));
            }
        }
        proof {
            assert(i == orig.len());
            assert(orig.take(orig.len() as int) =~= orig);
        }
        r
    }
}

} // verus!
