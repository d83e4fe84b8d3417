//! The rule catalog: which directory names are build output, and which
//! marker file confirms each match.
//!
//! The catalog is an ordered list; earlier rules take precedence. Rules with
//! specific markers stand ahead of marker-less catch-all rules so that a
//! generic name such as `build` is never swallowed by the wrong label.

use vstd::prelude::*;
use vstd::string::StringExecFns;

use crate::paths::parts_view;
use crate::text::spec_ends_with;
use crate::text::string_ends_with;

verus! {

/// How to confirm that an artifact directory belongs to a known build system.
#[derive(Debug, Clone)]
pub enum MarkerKind {
    /// The reference directory must contain one of these exact filenames.
    Files(Vec<String>),
    /// The reference directory must contain a file whose name ends with this
    /// suffix (e.g. `.csproj`).
    GlobSuffix(String),
    /// No confirmation needed; the name alone is conclusive.
    Always,
}

/// Spec-level mirror of `MarkerKind`.
pub enum MarkerKindV {
    Files(Seq<Seq<char>>),
    GlobSuffix(Seq<char>),
    Always,
}

impl View for MarkerKind {
    type V = MarkerKindV;

    open spec fn view(&self) -> MarkerKindV {
        match self {
            MarkerKind::Files(names) => MarkerKindV::Files(parts_view(*names)),
            MarkerKind::GlobSuffix(suffix) => MarkerKindV::GlobSuffix(suffix@),
            MarkerKind::Always => MarkerKindV::Always,
        }
    }
}

/// What one marker check observed on the live filesystem: the outcome of
/// each existence probe (for `Files` markers), the directory listing read,
/// or `None` of it for an unreadable directory (for `GlobSuffix` markers),
/// or nothing at all (for `Always` markers).
pub enum MarkerObsV {
    Files(Seq<bool>),
    Listing(Option<Seq<Seq<char>>>),
    Always,
}

/// How a marker verdict aggregates its observation: an `Always` marker holds
/// with nothing observed; a `Files` marker holds exactly when one of its
/// per-filename existence probes succeeded; a `GlobSuffix` marker holds
/// exactly when the directory could be read and some entry name ends with
/// the suffix.
pub open spec fn spec_marker_verdict(marker: MarkerKindV, obs: MarkerObsV, verdict: bool) -> bool {
    match marker {
        MarkerKindV::Always => obs is Always && verdict,
        MarkerKindV::Files(names) => obs matches MarkerObsV::Files(probes) && probes.len()
            == names.len() && verdict == (exists|i: int| 0 <= i < probes.len() && #[trigger] probes[i]),
        MarkerKindV::GlobSuffix(suffix) => obs matches MarkerObsV::Listing(listing) && verdict == (
        listing matches Some(ns) && (exists|i: int|
            0 <= i < ns.len() && spec_ends_with(#[trigger] ns[i], suffix))),
    }
}

/// One rule's marker check during candidate matching: the reference
/// directory that was checked, what the check observed there, and its
/// verdict.
pub struct RuleCheckV {
    pub ref_dir: Seq<char>,
    pub obs: MarkerObsV,
    pub verdict: bool,
}

/// The verdicts of a check list, in rule order: the observation vector the
/// resolver judges.
pub open spec fn spec_verdicts(checks: Seq<RuleCheckV>) -> Seq<bool> {
    checks.map_values(|c: RuleCheckV| c.verdict)
}

/// How a candidate directory's name is matched against a rule.
#[derive(Debug, Clone)]
pub enum DirMatch {
    /// Exact name equality.
    Exact(String),
    /// Name suffix match (for patterns like `*.egg-info`).
    Suffix(String),
    /// Exact name equality, where the candidate must additionally sit under a
    /// parent directory of the given name; the marker is then checked in the
    /// grandparent (the vendoring convention, e.g. `vendor/bundle`).
    ExactUnder(String, String),
}

/// Spec-level mirror of `DirMatch`.
pub enum DirMatchV {
    Exact(Seq<char>),
    Suffix(Seq<char>),
    ExactUnder(Seq<char>, Seq<char>),
}

impl View for DirMatch {
    type V = DirMatchV;

    open spec fn view(&self) -> DirMatchV {
        match self {
            DirMatch::Exact(n) => DirMatchV::Exact(n@),
            DirMatch::Suffix(s) => DirMatchV::Suffix(s@),
            DirMatch::ExactUnder(n, p) => DirMatchV::ExactUnder(n@, p@),
        }
    }
}

/// Describes one kind of build artifact directory.
#[derive(Debug, Clone)]
pub struct ArtifactRule {
    pub build_system: String,
    pub artifact_dir: String,
    pub marker: MarkerKind,
}

/// Spec-level mirror of `ArtifactRule`.
pub struct ArtifactRuleV {
    pub build_system: Seq<char>,
    pub artifact_dir: Seq<char>,
    pub marker: MarkerKindV,
}

impl View for ArtifactRule {
    type V = ArtifactRuleV;

    open spec fn view(&self) -> ArtifactRuleV {
        ArtifactRuleV {
            build_system: self.build_system@,
            artifact_dir: self.artifact_dir@,
            marker: self.marker@,
        }
    }
}

/// A rule together with its name-matching strategy.
#[derive(Debug, Clone)]
pub struct MatchableRule {
    pub rule: ArtifactRule,
    pub dir_match: DirMatch,
}

/// Spec-level mirror of `MatchableRule`.
pub struct MatchableRuleV {
    pub rule: ArtifactRuleV,
    pub dir_match: DirMatchV,
}

impl View for MatchableRule {
    type V = MatchableRuleV;

    open spec fn view(&self) -> MatchableRuleV {
        MatchableRuleV { rule: self.rule@, dir_match: self.dir_match@ }
    }
}

/// Whether a directory name satisfies a name-matching strategy, looking at
/// the name alone (the parent condition of `ExactUnder` is judged elsewhere).
pub open spec fn spec_name_matches(name: Seq<char>, dm: DirMatchV) -> bool {
    match dm {
        DirMatchV::Exact(n) => name == n,
        DirMatchV::Suffix(suf) => spec_ends_with(name, suf),
        DirMatchV::ExactUnder(n, _) => name == n,
    }
}

/// Checks a directory name against a rule's name pattern.
pub fn matches_dir(dir_name: &String, dir_match: &DirMatch) -> (r: bool)
    ensures
        r == spec_name_matches(dir_name@, dir_match@),
{
    match dir_match {
        DirMatch::Exact(n) => *dir_name == *n,
        DirMatch::Suffix(suf) => string_ends_with(dir_name, suf),
        DirMatch::ExactUnder(n, _) => *dir_name == *n,
    }
}

/// A rule confirmed by exact marker filenames, matching its directory name
/// exactly.
pub open spec fn spec_files_rule(bs: Seq<char>, dir: Seq<char>, markers: Seq<Seq<char>>) -> MatchableRuleV {
    MatchableRuleV {
        rule: ArtifactRuleV { build_system: bs, artifact_dir: dir, marker: MarkerKindV::Files(markers) },
        dir_match: DirMatchV::Exact(dir),
    }
}

/// A rule that needs no marker.
pub open spec fn spec_always_rule(bs: Seq<char>, dir: Seq<char>) -> MatchableRuleV {
    MatchableRuleV {
        rule: ArtifactRuleV { build_system: bs, artifact_dir: dir, marker: MarkerKindV::Always },
        dir_match: DirMatchV::Exact(dir),
    }
}

/// A rule confirmed by any file whose name ends with a suffix.
pub open spec fn spec_suffix_marker_rule(bs: Seq<char>, dir: Seq<char>, suffix: Seq<char>) -> MatchableRuleV {
    MatchableRuleV {
        rule: ArtifactRuleV { build_system: bs, artifact_dir: dir, marker: MarkerKindV::GlobSuffix(suffix) },
        dir_match: DirMatchV::Exact(dir),
    }
}

/// A rule whose directory name is itself matched by suffix.
pub open spec fn spec_suffix_dir_rule(
    bs: Seq<char>,
    dir_label: Seq<char>,
    dir_suffix: Seq<char>,
    markers: Seq<Seq<char>>,
) -> MatchableRuleV {
    MatchableRuleV {
        rule: ArtifactRuleV { build_system: bs, artifact_dir: dir_label, marker: MarkerKindV::Files(markers) },
        dir_match: DirMatchV::Suffix(dir_suffix),
    }
}

/// The vendoring-convention rule: the candidate must sit under a parent of
/// the given name, and the marker is checked in the grandparent.
pub open spec fn spec_under_rule(
    bs: Seq<char>,
    dir: Seq<char>,
    parent: Seq<char>,
    markers: Seq<Seq<char>>,
) -> MatchableRuleV {
    MatchableRuleV {
        rule: ArtifactRuleV { build_system: bs, artifact_dir: dir, marker: MarkerKindV::Files(markers) },
        dir_match: DirMatchV::ExactUnder(dir, parent),
    }
}

/// The full catalog, in precedence order.
pub open spec fn spec_catalog() -> Seq<MatchableRuleV> {
    seq![
        spec_files_rule("Java/Maven"@, "target"@, seq!["pom.xml"@]),
        spec_files_rule("Rust/Cargo"@, "target"@, seq!["Cargo.toml"@]),
        spec_files_rule("Scala/SBT"@, "target"@, seq!["build.sbt"@]),
        spec_files_rule("Node.js"@, "node_modules"@, seq!["package.json"@]),
        spec_files_rule("Node.js"@, ".next"@, seq!["package.json"@]),
        spec_files_rule("Node.js"@, ".nuxt"@, seq!["package.json"@]),
        spec_files_rule("Node.js"@, ".output"@, seq!["package.json"@]),
        spec_files_rule("Swift/SPM"@, ".build"@, seq!["Package.swift"@]),
        spec_always_rule("Python"@, "__pycache__"@),
        spec_always_rule("Python"@, ".mypy_cache"@),
        spec_always_rule("Python"@, ".pytest_cache"@),
        spec_files_rule("Python"@, ".venv"@, spec_python_markers()),
        spec_files_rule("Python"@, "venv"@, spec_python_markers()),
        spec_files_rule("Python"@, ".tox"@, spec_python_markers()),
        spec_suffix_dir_rule("Python"@, "*.egg-info"@, ".egg-info"@, spec_python_markers()),
        spec_files_rule("Android/Gradle"@, "build"@, seq!["build.gradle"@, "build.gradle.kts"@]),
        spec_files_rule("Android/Gradle"@, ".gradle"@, seq!["build.gradle"@, "build.gradle.kts"@]),
        spec_files_rule("C/C++/CMake"@, "build"@, seq!["CMakeLists.txt"@]),
        spec_files_rule("C/C++/CMake"@, "CMakeFiles"@, seq!["CMakeLists.txt"@]),
        spec_suffix_marker_rule(".NET/C#"@, "bin"@, ".csproj"@),
        spec_suffix_marker_rule(".NET/C#"@, "obj"@, ".csproj"@),
        spec_suffix_marker_rule(".NET/C#"@, "bin"@, ".sln"@),
        spec_suffix_marker_rule(".NET/C#"@, "obj"@, ".sln"@),
        spec_files_rule("Elixir/Mix"@, "_build"@, seq!["mix.exs"@]),
        spec_files_rule("Elixir/Mix"@, "deps"@, seq!["mix.exs"@]),
        spec_files_rule("Haskell/Stack"@, ".stack-work"@, seq!["stack.yaml"@]),
        spec_suffix_marker_rule("Haskell/Cabal"@, "dist-newstyle"@, ".cabal"@),
        spec_files_rule("Dart/Flutter"@, ".dart_tool"@, seq!["pubspec.yaml"@]),
        spec_files_rule("Dart/Flutter"@, "build"@, seq!["pubspec.yaml"@]),
        spec_files_rule("Zig"@, "zig-out"@, seq!["build.zig"@]),
        spec_files_rule("Zig"@, "zig-cache"@, seq!["build.zig"@]),
        spec_files_rule("PHP/Composer"@, "vendor"@, seq!["composer.json"@]),
        spec_files_rule("CocoaPods"@, "Pods"@, seq!["Podfile"@]),
        spec_under_rule("Ruby/Bundler"@, "bundle"@, "vendor"@, seq!["Gemfile"@]),
    ]
}

/// The marker files shared by the Python rules.
pub open spec fn spec_python_markers() -> Seq<Seq<char>> {
    seq!["pyproject.toml"@, "setup.py"@, "requirements.txt"@]
}

/// Builds an exact-match rule with the given marker file set.
fn mr(build_system: &str, artifact_dir: &str, markers: Vec<String>) -> (r: MatchableRule)
    ensures
        r@ == spec_files_rule(build_system@, artifact_dir@, parts_view(markers)),
{
    MatchableRule {
        rule: ArtifactRule {
            build_system: String::from_str(build_system),
            artifact_dir: String::from_str(artifact_dir),
            marker: MarkerKind::Files(markers),
        },
        dir_match: DirMatch::Exact(String::from_str(artifact_dir)),
    }
}

/// Shorthand for an exact-match rule with several marker files; same as `mr`.
fn mr_multi(build_system: &str, artifact_dir: &str, markers: Vec<String>) -> (r: MatchableRule)
    ensures
        r@ == spec_files_rule(build_system@, artifact_dir@, parts_view(markers)),
{
    mr(build_system, artifact_dir, markers)
}

/// `mr` with a single marker file.
fn mr1(build_system: &str, artifact_dir: &str, m1: &str) -> (r: MatchableRule)
    ensures
        r@ == spec_files_rule(build_system@, artifact_dir@, seq![m1@]),
{
    let mut markers: Vec<String> = Vec::new();
    markers.push(String::from_str(m1));
    proof {
        assert(parts_view(markers) =~= seq![m1@]);
    }
    mr(build_system, artifact_dir, markers)
}

/// `mr_multi` with two marker files.
fn mr2(build_system: &str, artifact_dir: &str, m1: &str, m2: &str) -> (r: MatchableRule)
    ensures
        r@ == spec_files_rule(build_system@, artifact_dir@, seq![m1@, m2@]),
{
    let mut markers: Vec<String> = Vec::new();
    markers.push(String::from_str(m1));
    markers.push(String::from_str(m2));
    proof {
        assert(parts_view(markers) =~= seq![m1@, m2@]);
    }
    mr_multi(build_system, artifact_dir, markers)
}

/// The marker files shared by the Python rules.
fn python_markers() -> (r: Vec<String>)
    ensures
        parts_view(r) == spec_python_markers(),
{
    let mut markers: Vec<String> = Vec::new();
    markers.push(String::from_str("pyproject.toml"));
    markers.push(String::from_str("setup.py"));
    markers.push(String::from_str("requirements.txt"));
    proof {
        assert(parts_view(markers) =~= spec_python_markers());
    }
    markers
}

/// A rule that needs no marker.
fn always_rule(build_system: &str, artifact_dir: &str) -> (r: MatchableRule)
    ensures
        r@ == spec_always_rule(build_system@, artifact_dir@),
{
    MatchableRule {
        rule: ArtifactRule {
            build_system: String::from_str(build_system),
            artifact_dir: String::from_str(artifact_dir),
            marker: MarkerKind::Always,
        },
        dir_match: DirMatch::Exact(String::from_str(artifact_dir)),
    }
}

/// A rule confirmed by any file whose name ends with a suffix.
fn suffix_marker_rule(build_system: &str, artifact_dir: &str, suffix: &str) -> (r: MatchableRule)
    ensures
        r@ == spec_suffix_marker_rule(build_system@, artifact_dir@, suffix@),
{
    MatchableRule {
        rule: ArtifactRule {
            build_system: String::from_str(build_system),
            artifact_dir: String::from_str(artifact_dir),
            marker: MarkerKind::GlobSuffix(String::from_str(suffix)),
        },
        dir_match: DirMatch::Exact(String::from_str(artifact_dir)),
    }
}

/// The Python egg-info rule: directory name matched by suffix.
fn egg_info_rule() -> (r: MatchableRule)
    ensures
        r@ == spec_suffix_dir_rule("Python"@, "*.egg-info"@, ".egg-info"@, spec_python_markers()),
{
    MatchableRule {
        rule: ArtifactRule {
            build_system: String::from_str("Python"),
            artifact_dir: String::from_str("*.egg-info"),
            marker: MarkerKind::Files(python_markers()),
        },
        dir_match: DirMatch::Suffix(String::from_str(".egg-info")),
    }
}

/// The vendoring-convention rule, e.g. `vendor/bundle` confirmed two levels up.
fn under_rule1(build_system: &str, artifact_dir: &str, parent: &str, m1: &str) -> (r: MatchableRule)
    ensures
        r@ == spec_under_rule(build_system@, artifact_dir@, parent@, seq![m1@]),
{
    let mut markers: Vec<String> = Vec::new();
    markers.push(String::from_str(m1));
    proof {
        assert(parts_view(markers) =~= seq![m1@]);
    }
    MatchableRule {
        rule: ArtifactRule {
            build_system: String::from_str(build_system),
            artifact_dir: String::from_str(artifact_dir),
            marker: MarkerKind::Files(markers),
        },
        dir_match: DirMatch::ExactUnder(String::from_str(artifact_dir), String::from_str(parent)),
    }
}

/// The full set of artifact rules, in the catalog's precedence order: rules
/// with specific markers come first, so an ambiguous generic name is not
/// swallowed by a catch-all rule.
pub fn all_rules() -> (r: Vec<MatchableRule>)
    ensures
        r@.len() == spec_catalog().len(),
        forall|i: int| 0 <= i < r@.len() ==> #[trigger] r@[i]@ == spec_catalog()[i],
{
    let mut r: Vec<MatchableRule> = Vec::new();
    r.push(mr1("Java/Maven", "target", "pom.xml"));
    r.push(mr1("Rust/Cargo", "target", "Cargo.toml"));
    r.push(mr1("Scala/SBT", "target", "build.sbt"));
    r.push(mr1("Node.js", "node_modules", "package.json"));
    r.push(mr1("Node.js", ".next", "package.json"));
    r.push(mr1("Node.js", ".nuxt", "package.json"));
    r.push(mr1("Node.js", ".output", "package.json"));
    r.push(mr1("Swift/SPM", ".build", "Package.swift"));
    r.push(always_rule("Python", "__pycache__"));
    r.push(always_rule("Python", ".mypy_cache"));
    r.push(always_rule("Python", ".pytest_cache"));
    r.push(mr_multi("Python", ".venv", python_markers()));
    r.push(mr_multi("Python", "venv", python_markers()));
    r.push(mr_multi("Python", ".tox", python_markers()));
    r.push(egg_info_rule());
    r.push(mr2("Android/Gradle", "build", "build.gradle", "build.gradle.kts"));
    r.push(mr2("Android/Gradle", ".gradle", "build.gradle", "build.gradle.kts"));
    r.push(mr1("C/C++/CMake", "build", "CMakeLists.txt"));
    r.push(mr1("C/C++/CMake", "CMakeFiles", "CMakeLists.txt"));
    r.push(suffix_marker_rule(".NET/C#", "bin", ".csproj"));
    r.push(suffix_marker_rule(".NET/C#", "obj", ".csproj"));
    r.push(suffix_marker_rule(".NET/C#", "bin", ".sln"));
    r.push(suffix_marker_rule(".NET/C#", "obj", ".sln"));
    r.push(mr1("Elixir/Mix", "_build", "mix.exs"));
    r.push(mr1("Elixir/Mix", "deps", "mix.exs"));
    r.push(mr1("Haskell/Stack", ".stack-work", "stack.yaml"));
    r.push(suffix_marker_rule("Haskell/Cabal", "dist-newstyle", ".cabal"));
    r.push(mr1("Dart/Flutter", ".dart_tool", "pubspec.yaml"));
    r.push(mr1("Dart/Flutter", "build", "pubspec.yaml"));
    r.push(mr1("Zig", "zig-out", "build.zig"));
    r.push(mr1("Zig", "zig-cache", "build.zig"));
    r.push(mr1("PHP/Composer", "vendor", "composer.json"));
    r.push(mr1("CocoaPods", "Pods", "Podfile"));
    r.push(under_rule1("Ruby/Bundler", "bundle", "vendor", "Gemfile"));
    r
}

/// The view of an optional directory name.
pub open spec fn spec_opt_name(o: Option<String>) -> Option<Seq<char>> {
    match o {
        Some(s) => Some(s@),
        None => None,
    }
}

/// Whether a rule applies to a candidate by name and position alone: its name
/// pattern matches, and for the vendoring convention the candidate's parent
/// carries the required name.
pub open spec fn spec_name_applies(r: MatchableRuleV, name: Seq<char>, parent_name: Option<Seq<char>>) -> bool {
    match r.dir_match {
        DirMatchV::Exact(n) => name == n,
        DirMatchV::Suffix(suf) => spec_ends_with(name, suf),
        DirMatchV::ExactUnder(n, pn) => name == n && parent_name == Some(pn),
    }
}

/// The resolver's meaning, scanning the catalog from rule `k` on: the first
/// rule that applies by name and whose marker observation is positive wins.
/// A vendoring-convention rule that applies when the candidate has no
/// grandparent directory stops the resolution with no match.
pub open spec fn spec_resolve_from(
    rules: Seq<MatchableRuleV>,
    name: Seq<char>,
    parent_name: Option<Seq<char>>,
    has_grandparent: bool,
    obs: Seq<bool>,
    k: int,
) -> Option<int>
    decreases rules.len() - k when 0 <= k <= rules.len()
{
    if k >= rules.len() {
        None
    } else if !spec_name_applies(rules[k], name, parent_name) {
        spec_resolve_from(rules, name, parent_name, has_grandparent, obs, k + 1)
    } else if rules[k].dir_match is ExactUnder && !has_grandparent {
        None
    } else if obs[k] {
        Some(k)
    } else {
        spec_resolve_from(rules, name, parent_name, has_grandparent, obs, k + 1)
    }
}

/// See `spec_resolve_from`; the whole catalog.
pub open spec fn spec_resolve(
    rules: Seq<MatchableRuleV>,
    name: Seq<char>,
    parent_name: Option<Seq<char>>,
    has_grandparent: bool,
    obs: Seq<bool>,
) -> Option<int> {
    spec_resolve_from(rules, name, parent_name, has_grandparent, obs, 0)
}

/// Whether a rule applies to a candidate by name and position alone.
pub fn rule_applies(rule: &MatchableRule, name: &String, parent_name: &Option<String>) -> (r: bool)
    ensures
        r == spec_name_applies(rule@, name@, spec_opt_name(*parent_name)),
{
    match &rule.dir_match {
        DirMatch::Exact(n) => *name == *n,
        DirMatch::Suffix(suf) => string_ends_with(name, suf),
        DirMatch::ExactUnder(n, pn) => {
            if !(*name == *n) {
                false
            } else {
                match parent_name {
                    Some(p) => *p == *pn,
                    None => false,
                }
            }
        },
    }
}

/// The marker resolver: picks the first rule, in catalog order, that applies
/// to the candidate and whose marker observation `obs[k]` is positive.
pub fn resolve(
    rules: &Vec<MatchableRule>,
    name: &String,
    parent_name: &Option<String>,
    has_grandparent: bool,
    obs: &Vec<bool>,
) -> (r: Option<usize>)
    requires
        obs@.len() == rules@.len(),
    ensures
        ({
            let s = spec_resolve(
                rules@.map_values(|m: MatchableRule| m@),
                name@,
                spec_opt_name(*parent_name),
                has_grandparent,
                obs@,
            );
            &&& (r matches Some(k) ==> s == Some(k as int))
            &&& (r is None ==> s is None)
        }),
{
    let ghost rv = rules@.map_values(|m: MatchableRule| m@);
    let mut k: usize = 0;
    while k < rules.len()
        invariant
            0 <= k <= rules@.len(),
            obs@.len() == rules@.len(),
            rv == rules@.map_values(|m: MatchableRule| m@),
            spec_resolve_from(rv, name@, spec_opt_name(*parent_name), has_grandparent, obs@, 0)
                == spec_resolve_from(
                rv,
                name@,
                spec_opt_name(*parent_name),
                has_grandparent,
                obs@,
                k as int,
            ),
        decreases rules@.len() - k,
    {
        let rule = &rules[k];
        proof {
            assert(rv[k as int] == rules@[k as int]@);
        }
        if rule_applies(rule, name, parent_name) {
            let is_under = match &rule.dir_match {
                DirMatch::ExactUnder(_, _) => true,
                _ => false,
            };
            if is_under && !has_grandparent {
                return None;
            }
            if obs[k] {
                return Some(k);
            }
        }
        k = k + 1;
    }
    None
}

/// Helper induction for the resolver laws.
proof fn lemma_resolve_from_props(
    rules: Seq<MatchableRuleV>,
    name: Seq<char>,
    parent_name: Option<Seq<char>>,
    has_grandparent: bool,
    obs: Seq<bool>,
    k0: int,
    k: int,
)
    requires
        0 <= k0 <= rules.len(),
        obs.len() == rules.len(),
        spec_resolve_from(rules, name, parent_name, has_grandparent, obs, k0) == Some(k),
    ensures
        k0 <= k < rules.len(),
        spec_name_applies(rules[k], name, parent_name),
        obs[k],
        forall|j: int|
            k0 <= j < k && #[trigger] spec_name_applies(rules[j], name, parent_name) ==> !obs[j],
    decreases rules.len() - k0,
{
    if k0 >= rules.len() {
        // cannot happen: the resolution would be None
    } else if !spec_name_applies(rules[k0], name, parent_name) {
        lemma_resolve_from_props(rules, name, parent_name, has_grandparent, obs, k0 + 1, k);
    } else if rules[k0].dir_match is ExactUnder && !has_grandparent {
        // cannot happen: the resolution would be None
    } else if obs[k0] {
        // k == k0
    } else {
        lemma_resolve_from_props(rules, name, parent_name, has_grandparent, obs, k0 + 1, k);
    }
}

/// A rule is selected only with its marker: whenever the resolver picks rule
/// `k`, that rule's name pattern applied to the candidate and its marker
/// observation was positive. A directory matching a rule's name but lacking
/// the required marker is never reported through that rule.
pub proof fn lemma_resolve_requires_marker(
    rules: Seq<MatchableRuleV>,
    name: Seq<char>,
    parent_name: Option<Seq<char>>,
    has_grandparent: bool,
    obs: Seq<bool>,
    k: int,
)
    requires
        obs.len() == rules.len(),
        spec_resolve(rules, name, parent_name, has_grandparent, obs) == Some(k),
    ensures
        0 <= k < rules.len(),
        spec_name_applies(rules[k], name, parent_name),
        obs[k],
{
    lemma_resolve_from_props(rules, name, parent_name, has_grandparent, obs, 0, k);
}

/// Catalog order is a precedence: when rule `k` is selected, every earlier
/// rule whose name pattern applied had been tried and rejected for want of
/// its marker.
pub proof fn lemma_resolve_first_match(
    rules: Seq<MatchableRuleV>,
    name: Seq<char>,
    parent_name: Option<Seq<char>>,
    has_grandparent: bool,
    obs: Seq<bool>,
    k: int,
)
    requires
        obs.len() == rules.len(),
        spec_resolve(rules, name, parent_name, has_grandparent, obs) == Some(k),
    ensures
        forall|j: int|
            0 <= j < k && #[trigger] spec_name_applies(rules[j], name, parent_name) ==> !obs[j],
{
    lemma_resolve_from_props(rules, name, parent_name, has_grandparent, obs, 0, k);
}

/// When some applicable rule has a positive observation and no
/// vendoring-convention rule can stop the scan, the resolver finds a match.
pub proof fn lemma_resolve_finds(
    rules: Seq<MatchableRuleV>,
    name: Seq<char>,
    parent_name: Option<Seq<char>>,
    has_grandparent: bool,
    obs: Seq<bool>,
    k0: int,
)
    requires
        0 <= k0 <= rules.len(),
        obs.len() == rules.len(),
        exists|k: int|
            k0 <= k < rules.len() && #[trigger] spec_name_applies(rules[k], name, parent_name)
                && obs[k],
        forall|j: int|
            k0 <= j < rules.len() && rules[j].dir_match is ExactUnder
                && #[trigger] spec_name_applies(rules[j], name, parent_name) ==> has_grandparent,
    ensures
        spec_resolve_from(rules, name, parent_name, has_grandparent, obs, k0) is Some,
    decreases rules.len() - k0,
{
    let k = choose|k: int|
        k0 <= k < rules.len() && #[trigger] spec_name_applies(rules[k], name, parent_name)
            && obs[k];
    if !spec_name_applies(rules[k0], name, parent_name) {
        assert(k0 < k);
        lemma_resolve_finds(rules, name, parent_name, has_grandparent, obs, k0 + 1);
    } else if rules[k0].dir_match is ExactUnder && !has_grandparent {
        // excluded by the requires
    } else if obs[k0] {
    } else {
        assert(k0 < k);
        lemma_resolve_finds(rules, name, parent_name, has_grandparent, obs, k0 + 1);
    }
}

/// Relies on std::path::Path::exists: whether anything exists at this path on
/// the live filesystem. The result depends on the filesystem and is pinned no
/// further.
#[verifier::external_body]
fn path_exists(p: &String) -> bool {
    std::path::Path::new(p.as_str()).exists()
}

/// Relies on std::path::Path::read_dir: the names of a directory's entries,
/// or `None` when the directory cannot be read. Entries that fail to read are
/// dropped, as the scan tolerates partial inaccessibility.
#[verifier::external_body]
fn read_dir_names(dir: &String) -> Option<Vec<String>> {
    match std::path::Path::new(dir.as_str()).read_dir() {
        Ok(entries) => Some(
            entries.filter_map(|e| e.ok()).map(|e| e.file_name().to_string_lossy().into_owned()).collect(),
        ),
        Err(_) => None,
    }
}

/// True exactly when one of the names ends with the suffix.
pub fn any_name_ends_with(names: &Vec<String>, suffix: &String) -> (r: bool)
    ensures
        r == exists|i: int| 0 <= i < names@.len() && spec_ends_with(names@[i]@, suffix@),
{
    let mut i: usize = 0;
    while i < names.len()
        invariant
            i <= names@.len(),
            forall|j: int| 0 <= j < i ==> !spec_ends_with(names@[j]@, suffix@),
        decreases names@.len() - i,
    {
        if string_ends_with(&names[i], suffix) {
            return true;
        }
        i = i + 1;
    }
    false
}

/// The path probed for a marker file: the directory and the entry name,
/// joined by a single separator.
pub open spec fn spec_join_probe(dir: Seq<char>, name: Seq<char>) -> Seq<char> {
    if dir.len() == 0 {
        name
    } else if dir.last() == '/' {
        dir + name
    } else {
        dir + seq!['/'] + name
    }
}

/// Joins a directory path and an entry name for a filesystem probe.
fn join_probe(dir: &String, name: &String) -> (r: String)
    ensures
        r@ == spec_join_probe(dir@, name@),
{
    let n = dir.as_str().unicode_len();
    if n == 0 {
        return name.clone();
    }
    if dir.as_str().get_char(n - 1) == '/' {
        return dir.clone().concat(name.as_str());
    }
    let r = dir.clone().concat("/").concat(name.as_str());
    proof {
        reveal_strlit("/");
        assert(r@ =~= dir@ + seq!['/'] + name@);
    }
    r
}

/// Whether the marker condition holds in the reference directory.
///
/// `Always` markers hold unconditionally and need no probe. `Files` markers
/// probe each marker filename (joined onto the reference directory by
/// `join_probe`) and hold when any probe succeeds; `GlobSuffix` markers read
/// the reference directory once and hold when some entry name carries the
/// suffix, a directory that cannot be read bearing no marker and raising no
/// error. The probe outcomes come back as ghost data, and the verdict is
/// pinned to them by `spec_marker_verdict`: true exactly when some existence
/// probe succeeded, or some read name has the suffix. The outcomes
/// themselves are the live filesystem's and are pinned no further.
pub fn has_marker(parent: &String, marker: &MarkerKind) -> (r: (bool, Ghost<MarkerObsV>))
    ensures
        spec_marker_verdict(marker@, r.1@, r.0),
{
    match marker {
        MarkerKind::Always => (true, Ghost(MarkerObsV::Always)),
        MarkerKind::Files(names) => {
            let mut probes: Vec<bool> = Vec::new();
            let mut found = false;
            let mut i: usize = 0;
            while i < names.len()
                invariant
                    marker@ == MarkerKindV::Files(parts_view(*names)),
                    i <= names@.len(),
                    probes@.len() == i,
                    found == (exists|j: int| 0 <= j < i && #[trigger] probes@[j]),
                decreases names@.len() - i,
            {
                let probe = join_probe(parent, &names[i]);
                let hit = path_exists(&probe);
                let ghost old_probes = probes@;
                let ghost old_found = found;
                probes.push(hit);
                if hit {
                    found = true;
                }
                i = i + 1;
                proof {
                    if hit {
                        assert(probes@[i as int - 1]);
                    } else if old_found {
                        assert(exists|j: int| 0 <= j < i - 1 && #[trigger] old_probes[j]);
                        let jw = choose|j: int| 0 <= j < i - 1 && #[trigger] old_probes[j];
                        assert(probes@[jw]);
                    } else {
                        assert forall|j: int| 0 <= j < i implies !(#[trigger] probes@[j]) by {
                            if j < i - 1 {
                                assert(probes@[j] == old_probes[j]);
                            }
                        }
                    }
                    assert(found == (exists|j: int| 0 <= j < i && #[trigger] probes@[j]));
                }
            }
            proof {
                assert(parts_view(*names).len() == names@.len());
            }
            (found, Ghost(MarkerObsV::Files(probes@)))
        },
        MarkerKind::GlobSuffix(suffix) => {
            match read_dir_names(parent) {
                Some(names) => {
                    let hit = any_name_ends_with(&names, suffix);
                    proof {
                        assert(parts_view(names).len() == names@.len());
                        if hit {
                            let iw = choose|ii: int|
                                0 <= ii < names@.len() && spec_ends_with(names@[ii]@, suffix@);
                            assert(spec_ends_with(parts_view(names)[iw], suffix@));
                        } else {
                            assert forall|ii: int| 0 <= ii < parts_view(names).len() implies
                                !spec_ends_with(#[trigger] parts_view(names)[ii], suffix@) by {
                                assert(parts_view(names)[ii] == names@[ii]@);
                            }
                        }
                    }
                    (hit, Ghost(MarkerObsV::Listing(Some(parts_view(names)))))
                },
                None => (false, Ghost(MarkerObsV::Listing(None))),
            }
        },
    }
}

} // verus!
