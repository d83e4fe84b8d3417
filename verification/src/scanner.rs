//! The tree walker and pruner: one depth-first pass over the tree, applying
//! the rule catalog to every directory and never descending into an already
//! claimed artifact, so that nested build output is not double-reported.

use vstd::prelude::*;
use vstd::string::StrSliceExecFns;
use vstd::string::StringExecFns;

use crate::paths::clone_parts;
use crate::paths::concat_parts;
use crate::paths::is_path_prefix;
use crate::paths::join_path;
use crate::paths::lemma_path_prefix_cancel;
use crate::paths::lemma_prefix_extend;
use crate::paths::parts_view;
use crate::paths::path_starts_with;
use crate::paths::spec_join_path;
use crate::paths::spec_split_path;
use crate::paths::split_path;
use crate::rules::all_rules;
use crate::rules::has_marker;
use crate::rules::lemma_resolve_finds;
use crate::rules::lemma_resolve_requires_marker;
use crate::rules::resolve;
use crate::rules::rule_applies;
use crate::rules::spec_catalog;
use crate::rules::spec_marker_verdict;
use crate::rules::spec_name_applies;
use crate::rules::spec_opt_name;
use crate::rules::spec_resolve;
use crate::rules::spec_verdicts;
use crate::rules::DirMatch;
use crate::rules::MarkerObsV;
use crate::rules::MatchableRule;
use crate::rules::MatchableRuleV;
use crate::rules::RuleCheckV;

verus! {

/// A detected build artifact: its absolute path (as components), the label
/// of the build system it was attributed to, the matched directory-name
/// variant, and its size, filled in later by the size computer.
#[derive(Debug, Clone)]
pub struct Artifact {
    pub path: Vec<String>,
    pub build_system: String,
    pub artifact_dir: String,
    pub size_bytes: u64,
}

/// Spec-level mirror of `Artifact`.
pub struct ArtifactV {
    pub path: Seq<Seq<char>>,
    pub build_system: Seq<char>,
    pub artifact_dir: Seq<char>,
    pub size_bytes: u64,
}

impl View for Artifact {
    type V = ArtifactV;

    open spec fn view(&self) -> ArtifactV {
        ArtifactV {
            path: parts_view(self.path),
            build_system: self.build_system@,
            artifact_dir: self.artifact_dir@,
            size_bytes: self.size_bytes,
        }
    }
}

/// One entry of the walk: its path components relative to the scan root, and
/// whether it is a directory.
#[derive(Debug, Clone)]
pub struct WalkEntry {
    pub rel: Vec<String>,
    pub is_dir: bool,
}

/// The fixed always-skip set: version-control metadata is never descended
/// into, independent of the rule catalog.
pub fn keep_entry(name: &String, is_dir: bool) -> (r: bool)
    ensures
        r == (!is_dir || name@ != ".git"@),
{
    if !is_dir {
        return true;
    }
    let git = String::from_str(".git");
    !(*name == git)
}

/// Relies on walkdir::WalkDir: a depth-first walk of the tree at `root` that
/// does not follow symbolic links, yields every directory before anything
/// inside it (so an ancestor always precedes its descendants), and, through
/// `filter_entry` over `keep_entry`, skips `.git` directories together with
/// everything beneath them — so no returned path passes through a `.git`
/// directory, and no returned directory is named `.git` (a plain file may
/// be). Each entry is returned as its components relative to `root`.
/// Unreadable entries are dropped silently, as are entries with a name that
/// is not valid unicode (together with everything beneath such a name), so
/// distinct entries keep distinct component lists and the walk order carries
/// over to them.
#[verifier::external_body]
fn walk_entries(root: &String) -> (r: Vec<WalkEntry>)
    ensures
        forall|p: int, q: int|
            #![trigger r@[p], r@[q]]
            0 <= p < r@.len() && 0 <= q < r@.len() && is_path_prefix(
                parts_view(r@[p].rel),
                parts_view(r@[q].rel),
            ) && parts_view(r@[p].rel).len() < parts_view(r@[q].rel).len() ==> p < q,
        forall|p: int|
            #![trigger r@[p]]
            0 <= p < r@.len() ==> ((forall|j: int|
                0 <= j < parts_view(r@[p].rel).len() - 1 ==> #[trigger] parts_view(r@[p].rel)[j]
                    != ".git"@) && (r@[p].is_dir && parts_view(r@[p].rel).len() > 0
                ==> parts_view(r@[p].rel).last() != ".git"@)),
{
    let mut out: Vec<WalkEntry> = Vec::new();
    let rootp = std::path::Path::new(root.as_str());
    let walker = walkdir::WalkDir::new(rootp).follow_links(false).into_iter();
    for entry in walker.filter_entry(|e| {
        keep_entry(&e.file_name().to_string_lossy().into_owned(), e.file_type().is_dir())
    }) {
        let Ok(e) = entry else { continue };
        let Ok(rel) = e.path().strip_prefix(rootp) else { continue };
        let Some(parts) = rel.iter().map(|c| c.to_str().map(String::from)).collect() else {
            continue
        };
        out.push(WalkEntry { rel: parts, is_dir: e.file_type().is_dir() });
    }
    out
}

/// The candidate's parent directory name, read off its component path: the
/// next-to-last component, where there is one and it is not the filesystem
/// root's empty component.
pub open spec fn spec_parent_name_of(p: Seq<Seq<char>>) -> Option<Seq<char>> {
    if p.len() >= 2 && p[p.len() - 2].len() > 0 {
        Some(p[p.len() - 2])
    } else {
        None
    }
}

/// Whether the candidate's grandparent directory exists: its parent path is
/// neither empty nor the bare filesystem root.
pub open spec fn spec_has_grandparent(p: Seq<Seq<char>>) -> bool {
    p.len() >= 3 || (p.len() == 2 && p[0].len() > 0)
}

/// The artifact's label and directory name come from a rule of `rules` whose
/// name pattern applies to the artifact's own directory name.
pub open spec fn spec_matches_some_rule(rules: Seq<MatchableRuleV>, a: ArtifactV) -> bool {
    &&& a.path.len() > 0
    &&& a.path.last().len() > 0
    &&& exists|k: int|
        0 <= k < rules.len() && #[trigger] spec_name_applies(
            rules[k],
            a.path.last(),
            spec_parent_name_of(a.path),
        ) && a.build_system == rules[k].rule.build_system && a.artifact_dir
            == rules[k].rule.artifact_dir
}

/// The artifact arose from resolving its directory name against the rules:
/// for some vector of marker observations, the resolver picked — first in
/// rule order — the rule the artifact's label and directory name come from,
/// and that rule's own observation was positive. A name-pattern match whose
/// marker observation was negative is never what an artifact is built from.
pub open spec fn spec_artifact_resolved(rules: Seq<MatchableRuleV>, a: ArtifactV) -> bool {
    &&& a.path.len() > 0
    &&& a.path.last().len() > 0
    &&& exists|obs: Seq<bool>, k: int|
        #![trigger spec_resolve(
            rules,
            a.path.last(),
            spec_parent_name_of(a.path),
            spec_has_grandparent(a.path),
            obs,
        ), obs[k]]
        obs.len() == rules.len() && spec_resolve(
            rules,
            a.path.last(),
            spec_parent_name_of(a.path),
            spec_has_grandparent(a.path),
            obs,
        ) == Some(k) && obs[k] && a.build_system == rules[k].rule.build_system && a.artifact_dir
            == rules[k].rule.artifact_dir
}

/// A candidate that some unconditional (marker-less, non-vendoring) rule
/// applies to by name, while no vendoring-convention rule applies; such a
/// candidate needs no filesystem confirmation at all.
pub open spec fn spec_unconditional_candidate(rules: Seq<MatchableRuleV>, p: Seq<Seq<char>>) -> bool {
    &&& p.len() > 0
    &&& p.last().len() > 0
    &&& exists|k: int|
        0 <= k < rules.len() && #[trigger] spec_name_applies(
            rules[k],
            p.last(),
            spec_parent_name_of(p),
        ) && rules[k].rule.marker is Always && !(rules[k].dir_match is ExactUnder)
    &&& forall|j: int|
        0 <= j < rules.len() && rules[j].dir_match is ExactUnder ==> !spec_name_applies(
            #[trigger] rules[j],
            p.last(),
            spec_parent_name_of(p),
        )
}

/// The rule checks made for one candidate path are well-formed: one check
/// per rule; a rule whose name pattern does not apply gets a negative
/// verdict without a probe; an applying plain rule was checked in the
/// candidate's parent directory, an applying vendoring-convention rule
/// (when the grandparent exists) two levels up; and each verdict aggregates
/// its observation as `spec_marker_verdict` says.
pub open spec fn spec_checks_wf(
    rules: Seq<MatchableRuleV>,
    p: Seq<Seq<char>>,
    checks: Seq<RuleCheckV>,
) -> bool {
    &&& checks.len() == rules.len()
    &&& (forall|k: int|
        0 <= k < rules.len() && !spec_name_applies(rules[k], p.last(), spec_parent_name_of(p))
            ==> !(#[trigger] checks[k]).verdict)
    &&& (forall|k: int|
        0 <= k < rules.len() && spec_name_applies(rules[k], p.last(), spec_parent_name_of(p))
            && !(rules[k].dir_match is ExactUnder) ==> (#[trigger] checks[k]).ref_dir
            == spec_join_path(p.take(p.len() - 1)) && spec_marker_verdict(
            rules[k].rule.marker,
            checks[k].obs,
            checks[k].verdict,
        ))
    &&& (forall|k: int|
        0 <= k < rules.len() && spec_name_applies(rules[k], p.last(), spec_parent_name_of(p))
            && rules[k].dir_match is ExactUnder && spec_has_grandparent(p) ==> (
        #[trigger] checks[k]).ref_dir == spec_join_path(p.take(p.len() - 2))
            && spec_marker_verdict(rules[k].rule.marker, checks[k].obs, checks[k].verdict))
}

/// The path lies at or below one of the artifacts' paths.
pub open spec fn spec_covered(arts: Seq<Artifact>, q: Seq<Seq<char>>) -> bool {
    exists|m: int| 0 <= m < arts.len() && is_path_prefix((#[trigger] arts[m])@.path, q)
}

/// Tries to match one candidate directory, given as its absolute component
/// path, against the rules in order: checks each rule's marker (in the
/// candidate's parent directory, or in the grandparent for an applying
/// vendoring-convention rule) and resolves the verdicts, the first rule
/// whose name pattern applies and whose verdict is positive winning.
///
/// The per-rule checks come back as ghost data, well-formed in the sense of
/// `spec_checks_wf` — in particular, they name the reference directory each
/// marker was checked in. The result is pinned to `spec_resolve` over their
/// verdicts: a candidate is matched exactly when the resolver selects a
/// rule, the artifact is built from that selected rule, and an
/// unconditional candidate is always matched.
pub fn try_match(abs: &Vec<String>, rules: &Vec<MatchableRule>) -> (r: (
    Option<Artifact>,
    Ghost<Seq<RuleCheckV>>,
))
    ensures
        ({
            let rv = rules@.map_values(|m: MatchableRule| m@);
            let p = parts_view(*abs);
            let checks = r.1@;
            &&& (!(p.len() > 0 && p.last().len() > 0) ==> r.0 is None)
            &&& (p.len() > 0 && p.last().len() > 0 ==> {
                let s = spec_resolve(
                    rv,
                    p.last(),
                    spec_parent_name_of(p),
                    spec_has_grandparent(p),
                    spec_verdicts(checks),
                );
                &&& spec_checks_wf(rv, p, checks)
                &&& (match r.0 {
                    Some(a) => s matches Some(k) && a@.path == p && a@.size_bytes == 0
                        && a@.build_system == rv[k].rule.build_system && a@.artifact_dir
                        == rv[k].rule.artifact_dir,
                    None => s is None,
                })
            })
            &&& (r.0 matches Some(a) ==> a@.path == p && a@.size_bytes == 0
                && spec_matches_some_rule(rv, a@) && spec_artifact_resolved(rv, a@))
            &&& (spec_unconditional_candidate(rv, p) ==> r.0 is Some)
        }),
{
    let ghost rv = rules@.map_values(|m: MatchableRule| m@);
    let ghost p = parts_view(*abs);
    if abs.len() == 0 {
        return (None, Ghost(Seq::empty()));
    }
    let name = abs[abs.len() - 1].clone();
    if name.as_str().unicode_len() == 0 {
        return (None, Ghost(Seq::empty()));
    }
    let parent_name: Option<String> = if abs.len() >= 2 && abs[abs.len() - 2].as_str().unicode_len()
        > 0 {
        Some(abs[abs.len() - 2].clone())
    } else {
        None
    };
    proof {
        assert(name@ == p.last());
        assert(spec_opt_name(parent_name) == spec_parent_name_of(p));
    }
    // The grandparent directory exists when the parent path is neither empty
    // nor the bare filesystem root.
    let has_grandparent = abs.len() >= 3 || (abs.len() == 2 && abs[0].as_str().unicode_len() > 0);
    proof {
        assert(has_grandparent == spec_has_grandparent(p));
    }
    let mut parent_parts = clone_parts(abs);
    parent_parts.pop();
    proof {
        assert(parts_view(parent_parts) =~= p.take(p.len() - 1));
    }
    let parent_str = join_path(&parent_parts);
    let grandparent_str = if has_grandparent {
        let mut gp = clone_parts(&parent_parts);
        gp.pop();
        proof {
            assert(parts_view(gp) =~= p.take(p.len() - 2));
        }
        join_path(&gp)
    } else {
        String::new()
    };
    proof {
        assert(parent_str@ == spec_join_path(p.take(p.len() - 1)));
        assert(has_grandparent ==> grandparent_str@ == spec_join_path(p.take(p.len() - 2)));
    }

    let mut obs: Vec<bool> = Vec::new();
    let ghost mut checks: Seq<RuleCheckV> = Seq::empty();
    let mut k: usize = 0;
    proof {
        assert(spec_verdicts(checks) =~= obs@);
    }
    while k < rules.len()
        invariant
            k <= rules@.len(),
            obs@.len() == k,
            checks.len() == k,
            spec_verdicts(checks) == obs@,
            rv == rules@.map_values(|m: MatchableRule| m@),
            name@ == p.last(),
            spec_opt_name(parent_name) == spec_parent_name_of(p),
            p.len() > 0,
            has_grandparent == spec_has_grandparent(p),
            parent_str@ == spec_join_path(p.take(p.len() - 1)),
            has_grandparent ==> grandparent_str@ == spec_join_path(p.take(p.len() - 2)),
            forall|m: int|
                0 <= m < k && !spec_name_applies(rv[m], p.last(), spec_parent_name_of(p)) ==> !(
                #[trigger] checks[m]).verdict,
            forall|m: int|
                0 <= m < k && spec_name_applies(rv[m], p.last(), spec_parent_name_of(p)) && !(
                rv[m].dir_match is ExactUnder) ==> (#[trigger] checks[m]).ref_dir
                    == spec_join_path(p.take(p.len() - 1)) && spec_marker_verdict(
                    rv[m].rule.marker,
                    checks[m].obs,
                    checks[m].verdict,
                ),
            forall|m: int|
                0 <= m < k && spec_name_applies(rv[m], p.last(), spec_parent_name_of(p))
                    && rv[m].dir_match is ExactUnder && spec_has_grandparent(p) ==> (
                #[trigger] checks[m]).ref_dir == spec_join_path(p.take(p.len() - 2))
                    && spec_marker_verdict(rv[m].rule.marker, checks[m].obs, checks[m].verdict),
        decreases rules@.len() - k,
    {
        let rule = &rules[k];
        proof {
            assert(rv[k as int] == rules@[k as int]@);
        }
        let applies = rule_applies(rule, &name, &parent_name);
        let is_under = match &rule.dir_match {
            DirMatch::ExactUnder(_, _) => true,
            _ => false,
        };
        proof {
            assert((rv[k as int].dir_match is ExactUnder) == is_under);
        }
        let ghost mut check = RuleCheckV {
            ref_dir: Seq::empty(),
            obs: MarkerObsV::Always,
            verdict: false,
        };
        let o: bool;
        if applies {
            if is_under {
                if has_grandparent {
                    let (hm, hobs) = has_marker(&grandparent_str, &rule.rule.marker);
                    o = hm;
                    proof {
                        check = RuleCheckV { ref_dir: grandparent_str@, obs: hobs@, verdict: hm };
                    }
                } else {
                    o = false;
                }
            } else {
                let (hm, hobs) = has_marker(&parent_str, &rule.rule.marker);
                o = hm;
                proof {
                    check = RuleCheckV { ref_dir: parent_str@, obs: hobs@, verdict: hm };
                }
            }
        } else {
            o = false;
        }
        obs.push(o);
        proof {
            checks = checks.push(check);
            assert(spec_verdicts(checks) =~= obs@);
        }
        k = k + 1;
    }
    proof {
        assert(spec_checks_wf(rv, p, checks));
    }

    let sel = resolve(rules, &name, &parent_name, has_grandparent, &obs);
    match sel {
        None => {
            proof {
                if spec_unconditional_candidate(rv, p) {
                    let kw = choose|k: int|
                        0 <= k < rv.len() && #[trigger] spec_name_applies(
                            rv[k],
                            p.last(),
                            spec_parent_name_of(p),
                        ) && rv[k].rule.marker is Always && !(rv[k].dir_match is ExactUnder);
                    assert(spec_marker_verdict(
                        rv[kw].rule.marker,
                        checks[kw].obs,
                        checks[kw].verdict,
                    ));
                    assert(obs@[kw]);
                    lemma_resolve_finds(
                        rv,
                        name@,
                        spec_opt_name(parent_name),
                        has_grandparent,
                        obs@,
                        0,
                    );
                    assert(false);
                }
            }
            (None, Ghost(checks))
        },
        Some(sel_k) => {
            proof {
                lemma_resolve_requires_marker(
                    rv,
                    name@,
                    spec_opt_name(parent_name),
                    has_grandparent,
                    obs@,
                    sel_k as int,
                );
            }
            let a = Artifact {
                path: clone_parts(abs),
                build_system: rules[sel_k].rule.build_system.clone(),
                artifact_dir: rules[sel_k].rule.artifact_dir.clone(),
                size_bytes: 0,
            };
            proof {
                assert(spec_name_applies(
                    rv[sel_k as int],
                    a@.path.last(),
                    spec_parent_name_of(a@.path),
                ));
                assert(obs@.len() == rv.len() && spec_resolve(
                    rv,
                    a@.path.last(),
                    spec_parent_name_of(a@.path),
                    spec_has_grandparent(a@.path),
                    obs@,
                ) == Some(sel_k as int) && obs@[sel_k as int] && a@.build_system
                    == rv[sel_k as int].rule.build_system && a@.artifact_dir
                    == rv[sel_k as int].rule.artifact_dir);
                assert(spec_artifact_resolved(rv, a@));
            }
            (Some(a), Ghost(checks))
        },
    }
}

/// Whether the candidate lies at or below one of the already claimed paths.
fn is_pruned(pruned: &Vec<Vec<String>>, path: &Vec<String>) -> (r: bool)
    ensures
        r == exists|m: int|
            0 <= m < pruned@.len() && is_path_prefix(
                #[trigger] parts_view(pruned@[m]),
                parts_view(*path),
            ),
{
    let mut m: usize = 0;
    while m < pruned.len()
        invariant
            m <= pruned@.len(),
            forall|j: int|
                0 <= j < m ==> !is_path_prefix(#[trigger] parts_view(pruned@[j]), parts_view(*path)),
        decreases pruned@.len() - m,
    {
        if path_starts_with(path, &pruned[m]) {
            return true;
        }
        m = m + 1;
    }
    false
}

/// The pruning and matching pass over a walked entry list: what the scan
/// makes of the entries, for every value of them.
///
/// The `requires` is the walk order: an ancestor entry precedes its strict
/// descendants. Alongside the artifact list the function returns, as ghost
/// data, the walk index each artifact came from and a log of the rule
/// checks made per entry. The contract ties them together, in both
/// directions. Soundness: the artifacts come from distinct directory
/// entries, in walk order, are prefix-disjoint, lie under the root, arise
/// each from a first-match resolution with a positive marker observation
/// for the selected rule, and have size zero. Completeness: every directory
/// entry that does not lie at or below a reported artifact carries a
/// well-formed check list in the log — markers checked in the parent, or
/// the grandparent for the vendoring convention — under whose verdicts the
/// resolver selects nothing; and every directory entry an unconditional
/// rule applies to (with no vendoring rule in play) is reported itself or
/// lies beneath a reported artifact.
pub fn scan_entries(
    root_parts: &Vec<String>,
    entries: &Vec<WalkEntry>,
    rules: &Vec<MatchableRule>,
) -> (r: (Vec<Artifact>, Ghost<Seq<int>>, Ghost<Map<int, Seq<RuleCheckV>>>))
    requires
        forall|p: int, q: int|
            #![trigger entries@[p], entries@[q]]
            0 <= p < entries@.len() && 0 <= q < entries@.len() && is_path_prefix(
                parts_view(entries@[p].rel),
                parts_view(entries@[q].rel),
            ) && parts_view(entries@[p].rel).len() < parts_view(entries@[q].rel).len() ==> p < q,
    ensures
        ({
            let arts = r.0@;
            let idx = r.1@;
            let log = r.2@;
            let rootv = parts_view(*root_parts);
            let rv = rules@.map_values(|m: MatchableRule| m@);
            &&& idx.len() == arts.len()
            &&& (forall|m: int|
                0 <= m < arts.len() ==> 0 <= #[trigger] idx[m] < entries@.len()
                    && entries@[idx[m]].is_dir && arts[m]@.path == rootv + parts_view(
                    entries@[idx[m]].rel,
                ))
            &&& (forall|m: int, m2: int|
                0 <= m < m2 < arts.len() ==> #[trigger] idx[m] < #[trigger] idx[m2])
            &&& (forall|m: int, m2: int|
                #![trigger arts[m], arts[m2]]
                0 <= m < arts.len() && 0 <= m2 < arts.len() && m != m2 ==> !is_path_prefix(
                    arts[m]@.path,
                    arts[m2]@.path,
                ))
            &&& (forall|m: int|
                0 <= m < arts.len() ==> is_path_prefix(rootv, #[trigger] arts[m]@.path))
            &&& (forall|m: int|
                0 <= m < arts.len() ==> spec_artifact_resolved(rv, #[trigger] arts[m]@))
            &&& (forall|m: int|
                0 <= m < arts.len() ==> spec_matches_some_rule(rv, #[trigger] arts[m]@))
            &&& (forall|m: int| 0 <= m < arts.len() ==> #[trigger] arts[m]@.size_bytes == 0)
            &&& (forall|m: int|
                0 <= m < arts.len() ==> {
                    let e = #[trigger] idx[m];
                    let pe = rootv + parts_view(entries@[e].rel);
                    &&& log.dom().contains(e)
                    &&& spec_checks_wf(rv, pe, log[e])
                    &&& (spec_resolve(
                        rv,
                        pe.last(),
                        spec_parent_name_of(pe),
                        spec_has_grandparent(pe),
                        spec_verdicts(log[e]),
                    ) matches Some(k) && arts[m]@.build_system == rv[k].rule.build_system
                        && arts[m]@.artifact_dir == rv[k].rule.artifact_dir)
                })
            &&& (forall|e: int|
                0 <= e < entries@.len() && (#[trigger] entries@[e]).is_dir
                    && spec_unconditional_candidate(rv, rootv + parts_view(entries@[e].rel))
                    ==> spec_covered(arts, rootv + parts_view(entries@[e].rel)))
            &&& (forall|e: int|
                0 <= e < entries@.len() && (#[trigger] entries@[e]).is_dir && (rootv + parts_view(
                    entries@[e].rel,
                )).len() > 0 && (rootv + parts_view(entries@[e].rel)).last().len() > 0
                    && !spec_covered(arts, rootv + parts_view(entries@[e].rel)) ==> {
                    let pe = rootv + parts_view(entries@[e].rel);
                    &&& log.dom().contains(e)
                    &&& spec_checks_wf(rv, pe, log[e])
                    &&& spec_resolve(
                        rv,
                        pe.last(),
                        spec_parent_name_of(pe),
                        spec_has_grandparent(pe),
                        spec_verdicts(log[e]),
                    ) is None
                })
        }),
{
    let ghost rootv = parts_view(*root_parts);
    let ghost rv = rules@.map_values(|m: MatchableRule| m@);
    let mut artifacts: Vec<Artifact> = Vec::new();
    let mut pruned: Vec<Vec<String>> = Vec::new();
    let ghost mut eidx: Seq<int> = Seq::empty();
    let ghost mut probe_log: Map<int, Seq<RuleCheckV>> = Map::empty();
    let mut i: usize = 0;
    while i < entries.len()
        invariant
            i <= entries@.len(),
            rootv == parts_view(*root_parts),
            rv == rules@.map_values(|m: MatchableRule| m@),
            forall|p: int, q: int|
                #![trigger entries@[p], entries@[q]]
                0 <= p < entries@.len() && 0 <= q < entries@.len() && is_path_prefix(
                    parts_view(entries@[p].rel),
                    parts_view(entries@[q].rel),
                ) && parts_view(entries@[p].rel).len() < parts_view(entries@[q].rel).len() ==> p
                < q,
            pruned@.len() == artifacts@.len(),
            eidx.len() == artifacts@.len(),
            forall|m: int|
                0 <= m < artifacts@.len() ==> #[trigger] parts_view(pruned@[m])
                    == artifacts@[m]@.path,
            forall|m: int|
                0 <= m < artifacts@.len() ==> 0 <= #[trigger] eidx[m] < i && eidx[m]
                    < entries@.len() && entries@[eidx[m]].is_dir && artifacts@[m]@.path == rootv
                    + parts_view(entries@[eidx[m]].rel),
            forall|m: int, m2: int|
                0 <= m < m2 < artifacts@.len() ==> #[trigger] eidx[m] < #[trigger] eidx[m2],
            forall|m: int, m2: int|
                #![trigger artifacts@[m], artifacts@[m2]]
                0 <= m < artifacts@.len() && 0 <= m2 < artifacts@.len() && m != m2
                    ==> !is_path_prefix(artifacts@[m]@.path, artifacts@[m2]@.path),
            forall|m: int|
                0 <= m < artifacts@.len() ==> is_path_prefix(
                    rootv,
                    #[trigger] artifacts@[m]@.path,
                ),
            forall|m: int|
                0 <= m < artifacts@.len() ==> spec_artifact_resolved(
                    rv,
                    #[trigger] artifacts@[m]@,
                ),
            forall|m: int|
                0 <= m < artifacts@.len() ==> spec_matches_some_rule(
                    rv,
                    #[trigger] artifacts@[m]@,
                ),
            forall|m: int| 0 <= m < artifacts@.len() ==> #[trigger] artifacts@[m]@.size_bytes == 0,
            forall|m: int|
                0 <= m < artifacts@.len() ==> {
                    let e = #[trigger] eidx[m];
                    let pe = rootv + parts_view(entries@[e].rel);
                    &&& probe_log.dom().contains(e)
                    &&& spec_checks_wf(rv, pe, probe_log[e])
                    &&& (spec_resolve(
                        rv,
                        pe.last(),
                        spec_parent_name_of(pe),
                        spec_has_grandparent(pe),
                        spec_verdicts(probe_log[e]),
                    ) matches Some(k) && artifacts@[m]@.build_system == rv[k].rule.build_system
                        && artifacts@[m]@.artifact_dir == rv[k].rule.artifact_dir)
                },
            forall|e: int|
                0 <= e < i && (#[trigger] entries@[e]).is_dir && spec_unconditional_candidate(
                    rv,
                    rootv + parts_view(entries@[e].rel),
                ) ==> spec_covered(artifacts@, rootv + parts_view(entries@[e].rel)),
            forall|e: int|
                0 <= e < i && (#[trigger] entries@[e]).is_dir && (rootv + parts_view(
                    entries@[e].rel,
                )).len() > 0 && (rootv + parts_view(entries@[e].rel)).last().len() > 0
                    && !spec_covered(artifacts@, rootv + parts_view(entries@[e].rel)) ==> {
                    let pe = rootv + parts_view(entries@[e].rel);
                    &&& probe_log.dom().contains(e)
                    &&& spec_checks_wf(rv, pe, probe_log[e])
                    &&& spec_resolve(
                        rv,
                        pe.last(),
                        spec_parent_name_of(pe),
                        spec_has_grandparent(pe),
                        spec_verdicts(probe_log[e]),
                    ) is None
                },
        decreases entries@.len() - i,
    {
        let entry = &entries[i];
        if entry.is_dir {
            let abs = concat_parts(&root_parts, &entry.rel);
            if is_pruned(&pruned, &abs) {
                proof {
                    // The candidate lies under a claimed artifact: covered.
                    let mw = choose|m: int|
                        0 <= m < pruned@.len() && is_path_prefix(
                            parts_view(pruned@[m]),
                            parts_view(abs),
                        );
                    assert(is_path_prefix(
                        artifacts@[mw]@.path,
                        rootv + parts_view(entries@[i as int].rel),
                    ));
                    assert(spec_covered(artifacts@, rootv + parts_view(entries@[i as int].rel)));
                }
            } else {
                proof {
                    // Not pruned means not covered: no claimed path is a
                    // prefix of the candidate.
                    assert forall|m: int| 0 <= m < artifacts@.len() implies !is_path_prefix(
                        #[trigger] artifacts@[m]@.path,
                        parts_view(abs),
                    ) by {
                        assert(parts_view(pruned@[m]) == artifacts@[m]@.path);
                        assert(!is_path_prefix(parts_view(pruned@[m]), parts_view(abs)));
                    }
                }
                let (matched, gchecks) = try_match(&abs, &rules);
                if let Some(a) = matched {
                    let ghost old_arts = artifacts@;
                    let ghost old_log = probe_log;
                    proof {
                        // No claimed path is an ancestor of the new one: the
                        // prune check just said so.
                        assert forall|m: int| 0 <= m < old_arts.len() implies !is_path_prefix(
                            #[trigger] old_arts[m]@.path,
                            a@.path,
                        ) by {
                            assert(parts_view(pruned@[m]) == old_arts[m]@.path);
                            assert(!is_path_prefix(parts_view(pruned@[m]), parts_view(abs)));
                        }
                        // The new path is no ancestor of any claimed path: a
                        // strict ancestor would have been walked before its
                        // descendant, and an equal path would have been
                        // caught by the prune check.
                        assert forall|m: int| 0 <= m < old_arts.len() implies !is_path_prefix(
                            a@.path,
                            old_arts[m]@.path,
                        ) by {
                            if is_path_prefix(a@.path, old_arts[m]@.path) {
                                let e = eidx[m];
                                if a@.path.len() == old_arts[m]@.path.len() {
                                    assert(old_arts[m]@.path.subrange(
                                        0,
                                        old_arts[m]@.path.len() as int,
                                    ) =~= old_arts[m]@.path);
                                    assert(a@.path == old_arts[m]@.path);
                                    assert(a@.path.subrange(0, a@.path.len() as int) =~= a@.path);
                                    assert(is_path_prefix(old_arts[m]@.path, a@.path));
                                    assert(parts_view(pruned@[m]) == old_arts[m]@.path);
                                    assert(is_path_prefix(
                                        parts_view(pruned@[m]),
                                        parts_view(abs),
                                    ));
                                } else {
                                    lemma_path_prefix_cancel(
                                        rootv,
                                        parts_view(entry.rel),
                                        parts_view(entries@[e].rel),
                                    );
                                    assert(parts_view(entries@[i as int].rel).len() < parts_view(
                                        entries@[e].rel,
                                    ).len());
                                }
                            }
                        }
                        lemma_prefix_extend(rootv, parts_view(entry.rel));
                        eidx = eidx.push(i as int);
                        probe_log = probe_log.insert(i as int, gchecks@);
                    }
                    pruned.push(clone_parts(&abs));
                    artifacts.push(a);
                    proof {
                        let n = old_arts.len() as int;
                        assert forall|m: int, m2: int|
                            0 <= m < artifacts@.len() && 0 <= m2 < artifacts@.len() && m != m2
                            implies !is_path_prefix(
                            #[trigger] artifacts@[m]@.path,
                            #[trigger] artifacts@[m2]@.path,
                        ) by {
                            if m < n && m2 < n {
                                assert(artifacts@[m] == old_arts[m]);
                                assert(artifacts@[m2] == old_arts[m2]);
                            } else if m2 == n {
                                assert(artifacts@[m] == old_arts[m]);
                                assert(artifacts@[m2] == a);
                            } else {
                                assert(artifacts@[m] == a);
                                assert(artifacts@[m2] == old_arts[m2]);
                            }
                        }
                        // Every artifact's entry is logged with the checks
                        // that selected its rule; older log entries persist.
                        assert forall|m: int| #![trigger eidx[m]] 0 <= m < artifacts@.len() implies {
                            let e = eidx[m];
                            let pe = rootv + parts_view(entries@[e].rel);
                            &&& probe_log.dom().contains(e)
                            &&& spec_checks_wf(rv, pe, probe_log[e])
                            &&& (spec_resolve(
                                rv,
                                pe.last(),
                                spec_parent_name_of(pe),
                                spec_has_grandparent(pe),
                                spec_verdicts(probe_log[e]),
                            ) matches Some(k) && artifacts@[m]@.build_system
                                == rv[k].rule.build_system && artifacts@[m]@.artifact_dir
                                == rv[k].rule.artifact_dir)
                        } by {
                            if m < n {
                                assert(artifacts@[m] == old_arts[m]);
                                assert(eidx[m] != i as int);
                                assert(probe_log[eidx[m]] == old_log[eidx[m]]);
                            } else {
                                assert(eidx[m] == i as int);
                                assert(artifacts@[m] == a);
                                assert(probe_log[i as int] == gchecks@);
                                assert(rootv + parts_view(entries@[i as int].rel) == parts_view(
                                    abs,
                                ));
                            }
                        }
                        // The new artifact covers its own entry, and older
                        // coverage witnesses persist.
                        assert(a@.path.subrange(0, a@.path.len() as int) =~= a@.path);
                        assert(is_path_prefix(
                            artifacts@[n]@.path,
                            rootv + parts_view(entries@[i as int].rel),
                        ));
                        assert(spec_covered(
                            artifacts@,
                            rootv + parts_view(entries@[i as int].rel),
                        ));
                        assert forall|e: int|
                            0 <= e < i && (#[trigger] entries@[e]).is_dir
                                && spec_unconditional_candidate(
                                rv,
                                rootv + parts_view(entries@[e].rel),
                            ) implies spec_covered(
                            artifacts@,
                            rootv + parts_view(entries@[e].rel),
                        ) by {
                            let mw = choose|m: int|
                                0 <= m < old_arts.len() && is_path_prefix(
                                    (#[trigger] old_arts[m])@.path,
                                    rootv + parts_view(entries@[e].rel),
                                );
                            assert(artifacts@[mw] == old_arts[mw]);
                            assert(is_path_prefix(
                                artifacts@[mw]@.path,
                                rootv + parts_view(entries@[e].rel),
                            ));
                        }
                        // Older uncovered entries keep their log entries: a
                        // path uncovered now was uncovered before, since the
                        // artifact list only grew.
                        assert forall|e: int|
                            0 <= e < i + 1 && (#[trigger] entries@[e]).is_dir && (rootv
                                + parts_view(entries@[e].rel)).len() > 0 && (rootv + parts_view(
                                entries@[e].rel,
                            )).last().len() > 0 && !spec_covered(
                            artifacts@,
                            rootv + parts_view(entries@[e].rel),
                        ) implies {
                            let pe = rootv + parts_view(entries@[e].rel);
                            &&& probe_log.dom().contains(e)
                            &&& spec_checks_wf(rv, pe, probe_log[e])
                            &&& spec_resolve(
                                rv,
                                pe.last(),
                                spec_parent_name_of(pe),
                                spec_has_grandparent(pe),
                                spec_verdicts(probe_log[e]),
                            ) is None
                        } by {
                            if e == i {
                                assert(spec_covered(
                                    artifacts@,
                                    rootv + parts_view(entries@[e].rel),
                                ));
                            } else {
                                if spec_covered(old_arts, rootv + parts_view(entries@[e].rel)) {
                                    let mw = choose|m: int|
                                        0 <= m < old_arts.len() && is_path_prefix(
                                            (#[trigger] old_arts[m])@.path,
                                            rootv + parts_view(entries@[e].rel),
                                        );
                                    assert(artifacts@[mw] == old_arts[mw]);
                                    assert(is_path_prefix(
                                        artifacts@[mw]@.path,
                                        rootv + parts_view(entries@[e].rel),
                                    ));
                                }
                            }
                        }
                    }
                } else {
                    proof {
                        // An unconditional candidate would have been matched.
                        if spec_unconditional_candidate(
                            rv,
                            rootv + parts_view(entries@[i as int].rel),
                        ) {
                            assert(parts_view(abs) == rootv + parts_view(entries@[i as int].rel));
                            assert(false);
                        }
                        // Log this entry's checks: the resolver selected
                        // nothing under them.
                        let old_log = probe_log;
                        probe_log = probe_log.insert(i as int, gchecks@);
                        assert(parts_view(abs) == rootv + parts_view(entries@[i as int].rel));
                        // Artifact log entries persist: every artifact's
                        // entry index precedes this one.
                        assert forall|m: int| #![trigger eidx[m]] 0 <= m < artifacts@.len() implies {
                            let e = eidx[m];
                            let pe = rootv + parts_view(entries@[e].rel);
                            &&& probe_log.dom().contains(e)
                            &&& spec_checks_wf(rv, pe, probe_log[e])
                            &&& (spec_resolve(
                                rv,
                                pe.last(),
                                spec_parent_name_of(pe),
                                spec_has_grandparent(pe),
                                spec_verdicts(probe_log[e]),
                            ) matches Some(k) && artifacts@[m]@.build_system
                                == rv[k].rule.build_system && artifacts@[m]@.artifact_dir
                                == rv[k].rule.artifact_dir)
                        } by {
                            assert(eidx[m] != i as int);
                            assert(probe_log[eidx[m]] == old_log[eidx[m]]);
                        }
                    }
                }
            }
        }
        i = i + 1;
    }
    (artifacts, Ghost(eidx), Ghost(probe_log))
}

/// Scans the tree rooted at `root` for build artifacts.
///
/// One depth-first walk; `.git` directories are never entered and no
/// artifact path passes through one; a directory lying under an already
/// claimed artifact is skipped, so the reported artifacts are
/// prefix-disjoint: no reported path is an ancestor or descendant of
/// another. Every artifact lies at or below the root, arises from a
/// first-match resolution of the catalog with a positive marker observation
/// for the rule it is labelled with, and has size zero.
///
/// Alongside the artifacts, the walked entries, each artifact's walk index
/// and the per-entry rule checks come back as ghost data, carrying
/// `scan_entries`' two-sided statement up to this function: the artifacts
/// are matched from distinct walked directory entries in walk order, and a
/// walked directory entry not at or below any reported artifact resolved to
/// nothing under the checks logged for it (markers checked in the parent,
/// or the grandparent for the vendoring convention).
pub fn scan(root: &String) -> (r: (
    Vec<Artifact>,
    Ghost<Seq<WalkEntry>>,
    Ghost<Seq<int>>,
    Ghost<Map<int, Seq<RuleCheckV>>>,
))
    ensures
        forall|i: int, j: int|
            #![trigger r.0@[i], r.0@[j]]
            0 <= i < r.0@.len() && 0 <= j < r.0@.len() && i != j ==> !is_path_prefix(
                r.0@[i]@.path,
                r.0@[j]@.path,
            ),
        forall|i: int|
            0 <= i < r.0@.len() ==> is_path_prefix(
                spec_split_path(root@),
                #[trigger] r.0@[i]@.path,
            ),
        forall|i: int|
            0 <= i < r.0@.len() ==> spec_artifact_resolved(spec_catalog(), #[trigger] r.0@[i]@),
        forall|i: int|
            0 <= i < r.0@.len() ==> spec_matches_some_rule(spec_catalog(), #[trigger] r.0@[i]@),
        forall|i: int| 0 <= i < r.0@.len() ==> #[trigger] r.0@[i]@.size_bytes == 0,
        forall|i: int, j: int|
            #![trigger r.0@[i]@.path[j]]
            0 <= i < r.0@.len() && spec_split_path(root@).len() <= j < r.0@[i]@.path.len()
                ==> r.0@[i]@.path[j] != ".git"@,
        ({
            let arts = r.0@;
            let gentries = r.1@;
            let idx = r.2@;
            let log = r.3@;
            let rootv = spec_split_path(root@);
            &&& idx.len() == arts.len()
            &&& (forall|m: int|
                0 <= m < arts.len() ==> 0 <= #[trigger] idx[m] < gentries.len()
                    && gentries[idx[m]].is_dir && arts[m]@.path == rootv + parts_view(
                    gentries[idx[m]].rel,
                ))
            &&& (forall|m: int, m2: int|
                0 <= m < m2 < arts.len() ==> #[trigger] idx[m] < #[trigger] idx[m2])
            &&& (forall|m: int|
                0 <= m < arts.len() ==> {
                    let e = #[trigger] idx[m];
                    let pe = rootv + parts_view(gentries[e].rel);
                    &&& log.dom().contains(e)
                    &&& spec_checks_wf(spec_catalog(), pe, log[e])
                    &&& (spec_resolve(
                        spec_catalog(),
                        pe.last(),
                        spec_parent_name_of(pe),
                        spec_has_grandparent(pe),
                        spec_verdicts(log[e]),
                    ) matches Some(k) && arts[m]@.build_system
                        == spec_catalog()[k].rule.build_system && arts[m]@.artifact_dir
                        == spec_catalog()[k].rule.artifact_dir)
                })
            &&& (forall|e: int|
                0 <= e < gentries.len() && (#[trigger] gentries[e]).is_dir
                    && spec_unconditional_candidate(
                    spec_catalog(),
                    rootv + parts_view(gentries[e].rel),
                ) ==> spec_covered(arts, rootv + parts_view(gentries[e].rel)))
            &&& (forall|e: int|
                0 <= e < gentries.len() && (#[trigger] gentries[e]).is_dir && (rootv + parts_view(
                    gentries[e].rel,
                )).len() > 0 && (rootv + parts_view(gentries[e].rel)).last().len() > 0
                    && !spec_covered(arts, rootv + parts_view(gentries[e].rel)) ==> {
                    let pe = rootv + parts_view(gentries[e].rel);
                    &&& log.dom().contains(e)
                    &&& spec_checks_wf(spec_catalog(), pe, log[e])
                    &&& spec_resolve(
                        spec_catalog(),
                        pe.last(),
                        spec_parent_name_of(pe),
                        spec_has_grandparent(pe),
                        spec_verdicts(log[e]),
                    ) is None
                })
        }),
{
    let rules = all_rules();
    proof {
        assert(rules@.map_values(|m: MatchableRule| m@) =~= spec_catalog());
    }
    let root_parts = split_path(root);
    let entries = walk_entries(root);
    let (artifacts, gidx, glog) = scan_entries(&root_parts, &entries, &rules);
    proof {
        // No artifact path has a `.git` component beyond the root: each
        // artifact is a walked directory entry, whose relative components
        // the walk keeps clear of `.git`.
        assert forall|i: int, j: int|
            0 <= i < artifacts@.len() && spec_split_path(root@).len() <= j < artifacts@[i]@
                .path.len() implies artifacts@[i]@.path[j] != ".git"@ by {
            let e = gidx@[i];
            let rel = parts_view(entries@[e].rel);
            assert(artifacts@[i]@.path == parts_view(root_parts) + rel);
            let jj = j - parts_view(root_parts).len();
            assert(artifacts@[i]@.path[j] == rel[jj]);
            if jj < rel.len() - 1 {
                assert(rel[jj] != ".git"@);
            } else {
                assert(entries@[e].is_dir);
                assert(rel.last() != ".git"@);
            }
        }
    }
    (artifacts, Ghost(entries@), gidx, glog)
}

} // verus!
