use clean_builds::rules::all_rules;
use clean_builds::rules::has_marker;
use clean_builds::rules::matches_dir;
use clean_builds::rules::DirMatch;
use clean_builds::rules::MarkerKind;

use std::collections::HashSet;
use std::io::Write;

fn path_string(p: &std::path::Path) -> String {
    p.to_str().unwrap().to_string()
}

fn make_file(parent: &std::path::Path, name: &str, content: &[u8]) {
    let mut f = tempfile::Builder::new()
        .prefix(name)
        .rand_bytes(0)
        .disable_cleanup(true)
        .tempfile_in(parent)
        .unwrap();
    f.write_all(content).unwrap();
}

#[test]
fn all_rules_are_non_empty() {
    let rules = all_rules();
    assert!(!rules.is_empty());
    for r in &rules {
        assert!(!r.rule.build_system.is_empty());
        assert!(!r.rule.artifact_dir.is_empty());
    }
}

#[test]
fn matches_dir_exact() {
    assert!(matches_dir(
        &"node_modules".to_string(),
        &DirMatch::Exact("node_modules".to_string())
    ));
    assert!(!matches_dir(
        &"node_module".to_string(),
        &DirMatch::Exact("node_modules".to_string())
    ));
}

#[test]
fn matches_dir_suffix() {
    assert!(matches_dir(
        &"foo.egg-info".to_string(),
        &DirMatch::Suffix(".egg-info".to_string())
    ));
    assert!(!matches_dir(
        &"foo.egg".to_string(),
        &DirMatch::Suffix(".egg-info".to_string())
    ));
}

#[test]
fn has_marker_always() {
    let tmp = tempfile::tempdir().unwrap();
    assert!(has_marker(&path_string(tmp.path()), &MarkerKind::Always).0);
}

#[test]
fn has_marker_files_present() {
    let tmp = tempfile::tempdir().unwrap();
    make_file(tmp.path(), "Cargo.toml", b"");
    assert!(
        has_marker(
            &path_string(tmp.path()),
            &MarkerKind::Files(vec!["Cargo.toml".to_string()])
        )
        .0
    );
}

#[test]
fn has_marker_files_absent() {
    let tmp = tempfile::tempdir().unwrap();
    assert!(
        !has_marker(
            &path_string(tmp.path()),
            &MarkerKind::Files(vec!["Cargo.toml".to_string()])
        )
        .0
    );
}

#[test]
fn has_marker_glob_suffix_present() {
    let tmp = tempfile::tempdir().unwrap();
    make_file(tmp.path(), "MyProject.csproj", b"");
    assert!(
        has_marker(
            &path_string(tmp.path()),
            &MarkerKind::GlobSuffix(".csproj".to_string())
        )
        .0
    );
}

#[test]
fn has_marker_glob_suffix_absent() {
    let tmp = tempfile::tempdir().unwrap();
    make_file(tmp.path(), "MyProject.txt", b"");
    assert!(
        !has_marker(
            &path_string(tmp.path()),
            &MarkerKind::GlobSuffix(".csproj".to_string())
        )
        .0
    );
}

#[test]
fn has_marker_multiple_files_any_match() {
    let tmp = tempfile::tempdir().unwrap();
    make_file(tmp.path(), "setup.py", b"");
    assert!(
        has_marker(
            &path_string(tmp.path()),
            &MarkerKind::Files(vec![
                "pyproject.toml".to_string(),
                "setup.py".to_string(),
                "requirements.txt".to_string(),
            ])
        )
        .0
    );
}

#[test]
fn rule_count_covers_all_build_systems() {
    let rules = all_rules();
    let systems: HashSet<&str> = rules.iter().map(|r| r.rule.build_system.as_str()).collect();
    // Verify we have all expected build systems
    let expected = [
        "Java/Maven",
        "Rust/Cargo",
        "Scala/SBT",
        "Node.js",
        "Swift/SPM",
        "Python",
        "Android/Gradle",
        "C/C++/CMake",
        ".NET/C#",
        "Elixir/Mix",
        "Haskell/Stack",
        "Haskell/Cabal",
        "Dart/Flutter",
        "Zig",
        "PHP/Composer",
        "CocoaPods",
        "Ruby/Bundler",
    ];
    for sys in &expected {
        assert!(systems.contains(sys), "Missing build system: {sys}");
    }
}
