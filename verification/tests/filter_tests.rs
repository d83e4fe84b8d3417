use clean_builds::filter::ArtifactFilter;
use clean_builds::paths::split_path;
use clean_builds::scanner::Artifact;

fn filter(includes: &[&str], excludes: &[&str]) -> ArtifactFilter {
    ArtifactFilter::new(
        &includes.iter().map(|s| s.to_string()).collect::<Vec<_>>(),
        &excludes.iter().map(|s| s.to_string()).collect::<Vec<_>>(),
    )
    .unwrap()
}

fn matches(f: &ArtifactFilter, path: &str) -> bool {
    f.matches(&path.to_string())
}

fn make_artifact(path: &str) -> Artifact {
    Artifact {
        path: split_path(&path.to_string()),
        build_system: "Test".to_string(),
        artifact_dir: "target".to_string(),
        size_bytes: 0,
    }
}

fn joined(a: &Artifact) -> String {
    a.path.join("/")
}

#[test]
fn no_patterns_matches_everything() {
    let f = filter(&[], &[]);
    assert!(matches(&f, "app/node_modules"));
    assert!(matches(&f, "project/target"));
}

#[test]
fn include_only() {
    let f = filter(&["node_modules"], &[]);
    assert!(matches(&f, "app/node_modules"));
    assert!(!matches(&f, "app/target"));
}

#[test]
fn exclude_only() {
    let f = filter(&[], &["node_modules"]);
    assert!(!matches(&f, "app/node_modules"));
    assert!(matches(&f, "app/target"));
}

#[test]
fn exclude_takes_precedence_over_include() {
    let f = filter(&["node_modules"], &["node_modules"]);
    assert!(!matches(&f, "app/node_modules"));
}

#[test]
fn bare_pattern_matches_ancestor_dir() {
    // wxyc* should match wxyc-app/target because **/wxyc*/** expands
    let f = filter(&[], &["wxyc*"]);
    assert!(!matches(&f, "wxyc-app/target"));
    assert!(matches(&f, "other-app/target"));
}

#[test]
fn bare_pattern_matches_leaf() {
    // node_modules should match app/node_modules because **/node_modules expands
    let f = filter(&["node_modules"], &[]);
    assert!(matches(&f, "app/node_modules"));
    assert!(matches(&f, "deep/nested/app/node_modules"));
}

#[test]
fn bare_literal_pattern_matches_deep_ancestor() {
    // a bare pattern without glob characters must exclude artifacts beneath
    // a matching directory at any depth, not just at the top level
    let f = filter(&[], &["proj"]);
    assert!(!matches(&f, "a/proj/b/target"));
    assert!(!matches(&f, "proj/target"));
    assert!(!matches(&f, "a/proj"));
    assert!(matches(&f, "a/project/target"));
}

#[test]
fn pattern_with_slash_used_as_is() {
    let f = filter(&["app/node_modules"], &[]);
    assert!(matches(&f, "app/node_modules"));
    assert!(!matches(&f, "other/node_modules"));
}

#[test]
fn question_mark_glob() {
    let f = filter(&[], &["proj?"]);
    assert!(!matches(&f, "projA/target"));
    assert!(matches(&f, "project/target"));
}

#[test]
fn double_star_glob() {
    let f = filter(&["**/deep/**/target"], &[]);
    assert!(matches(&f, "a/deep/b/target"));
    assert!(!matches(&f, "a/shallow/target"));
}

#[test]
fn invalid_pattern_returns_error() {
    let result = ArtifactFilter::new(&Vec::new(), &vec!["[invalid".to_string()]);
    assert!(result.is_err());
    let err = result.err().unwrap();
    assert!(err.to_string().contains("invalid filter pattern"));
}

#[test]
fn apply_strips_root_prefix() {
    let f = filter(&["node_modules"], &[]);
    let artifacts = vec![
        make_artifact("/home/user/projects/app/node_modules"),
        make_artifact("/home/user/projects/rust-app/target"),
    ];
    let root = "/home/user/projects".to_string();
    let filtered = f.apply(&root, artifacts);
    assert_eq!(filtered.len(), 1);
    assert_eq!(joined(&filtered[0]), "/home/user/projects/app/node_modules");
}

#[test]
fn apply_with_no_filters_keeps_all() {
    let f = filter(&[], &[]);
    let artifacts = vec![
        make_artifact("/root/a/target"),
        make_artifact("/root/b/node_modules"),
    ];
    let filtered = f.apply(&"/root".to_string(), artifacts);
    assert_eq!(filtered.len(), 2);
}

#[test]
fn filter_multiple_include_patterns() {
    let f = filter(&["node_modules", "target"], &[]);
    assert!(matches(&f, "app/node_modules"));
    assert!(matches(&f, "app/target"));
    assert!(!matches(&f, "app/.venv"));
}

#[test]
fn multiple_exclude_patterns() {
    let f = filter(&[], &["wxyc*", "old-*"]);
    assert!(!matches(&f, "wxyc-app/target"));
    assert!(!matches(&f, "old-project/node_modules"));
    assert!(matches(&f, "my-app/target"));
}
