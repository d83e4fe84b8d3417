use clean_builds::scanner::scan;

use std::collections::HashSet;
use std::io::Write;
use std::path::Path;
use std::path::PathBuf;

fn path_string(p: &Path) -> String {
    p.to_str().unwrap().to_string()
}

fn make_dir(parent: &Path, name: &str) -> PathBuf {
    let d = tempfile::Builder::new()
        .prefix(name)
        .rand_bytes(0)
        .disable_cleanup(true)
        .tempdir_in(parent)
        .unwrap();
    d.path().to_path_buf()
}

fn make_file(parent: &Path, name: &str, content: &[u8]) {
    let mut f = tempfile::Builder::new()
        .prefix(name)
        .rand_bytes(0)
        .disable_cleanup(true)
        .tempfile_in(parent)
        .unwrap();
    f.write_all(content).unwrap();
}

fn set_up_project(tmp: &tempfile::TempDir, marker: &str, artifact_dir: &str) -> PathBuf {
    let project = make_dir(tmp.path(), "project");
    make_file(&project, marker, b"");
    let artifact = make_dir(&project, artifact_dir);
    // Put a file inside to make it non-empty
    make_file(&artifact, "some_file", b"data");
    project
}

fn joined(a: &clean_builds::scanner::Artifact) -> String {
    a.path.join("/")
}

#[test]
fn detects_rust_target() {
    let tmp = tempfile::tempdir().unwrap();
    set_up_project(&tmp, "Cargo.toml", "target");
    let artifacts = scan(&path_string(tmp.path())).0;
    assert_eq!(artifacts.len(), 1);
    assert_eq!(artifacts[0].build_system, "Rust/Cargo");
    assert_eq!(artifacts[0].artifact_dir, "target");
}

#[test]
fn detects_node_modules() {
    let tmp = tempfile::tempdir().unwrap();
    set_up_project(&tmp, "package.json", "node_modules");
    let artifacts = scan(&path_string(tmp.path())).0;
    assert_eq!(artifacts.len(), 1);
    assert_eq!(artifacts[0].build_system, "Node.js");
}

#[test]
fn detects_maven_target() {
    let tmp = tempfile::tempdir().unwrap();
    set_up_project(&tmp, "pom.xml", "target");
    let artifacts = scan(&path_string(tmp.path())).0;
    assert_eq!(artifacts.len(), 1);
    assert_eq!(artifacts[0].build_system, "Java/Maven");
}

#[test]
fn detects_python_pycache_without_marker() {
    let tmp = tempfile::tempdir().unwrap();
    let some_dir = make_dir(tmp.path(), "some_dir");
    let pycache = make_dir(&some_dir, "__pycache__");
    make_file(&pycache, "module.pyc", b"");
    let artifacts = scan(&path_string(tmp.path())).0;
    assert_eq!(artifacts.len(), 1);
    assert_eq!(artifacts[0].build_system, "Python");
    assert_eq!(artifacts[0].artifact_dir, "__pycache__");
}

#[test]
fn detects_python_venv_with_marker() {
    let tmp = tempfile::tempdir().unwrap();
    let project = make_dir(tmp.path(), "pyproject");
    make_file(&project, "pyproject.toml", b"");
    make_dir(&project, ".venv");
    let artifacts = scan(&path_string(tmp.path())).0;
    assert_eq!(artifacts.len(), 1);
    assert_eq!(artifacts[0].build_system, "Python");
    assert_eq!(artifacts[0].artifact_dir, ".venv");
}

#[test]
fn ignores_venv_without_marker() {
    let tmp = tempfile::tempdir().unwrap();
    let project = make_dir(tmp.path(), "random");
    make_dir(&project, ".venv");
    let artifacts = scan(&path_string(tmp.path())).0;
    assert!(artifacts.is_empty());
}

#[test]
fn detects_gradle_build() {
    let tmp = tempfile::tempdir().unwrap();
    set_up_project(&tmp, "build.gradle", "build");
    let artifacts = scan(&path_string(tmp.path())).0;
    assert_eq!(artifacts.len(), 1);
    assert_eq!(artifacts[0].build_system, "Android/Gradle");
}

#[test]
fn detects_cmake_build() {
    let tmp = tempfile::tempdir().unwrap();
    set_up_project(&tmp, "CMakeLists.txt", "build");
    let artifacts = scan(&path_string(tmp.path())).0;
    assert_eq!(artifacts.len(), 1);
    assert_eq!(artifacts[0].build_system, "C/C++/CMake");
}

#[test]
fn detects_dotnet_with_csproj() {
    let tmp = tempfile::tempdir().unwrap();
    let project = make_dir(tmp.path(), "myapp");
    make_file(&project, "MyApp.csproj", b"");
    make_dir(&project, "bin");
    make_dir(&project, "obj");
    let artifacts = scan(&path_string(tmp.path())).0;
    assert_eq!(artifacts.len(), 2);
    let systems: Vec<&str> = artifacts.iter().map(|a| a.build_system.as_str()).collect();
    assert!(systems.iter().all(|s| *s == ".NET/C#"));
}

#[test]
fn detects_egg_info_suffix() {
    let tmp = tempfile::tempdir().unwrap();
    let project = make_dir(tmp.path(), "pylib");
    make_file(&project, "setup.py", b"");
    make_dir(&project, "mylib.egg-info");
    let artifacts = scan(&path_string(tmp.path())).0;
    assert_eq!(artifacts.len(), 1);
    assert_eq!(artifacts[0].build_system, "Python");
}

#[test]
fn skips_git_directory() {
    let tmp = tempfile::tempdir().unwrap();
    make_dir(tmp.path(), ".git");
    let artifacts = scan(&path_string(tmp.path())).0;
    assert!(artifacts.is_empty());
}

#[test]
fn no_false_positive_on_generic_build_dir() {
    let tmp = tempfile::tempdir().unwrap();
    // build/ without any marker files should not match
    let project = make_dir(tmp.path(), "generic");
    make_dir(&project, "build");
    let artifacts = scan(&path_string(tmp.path())).0;
    assert!(artifacts.is_empty());
}

#[test]
fn prunes_nested_artifacts() {
    let tmp = tempfile::tempdir().unwrap();
    // A node project with node_modules that contains a nested project
    let project = make_dir(tmp.path(), "app");
    make_file(&project, "package.json", b"");
    let nm = make_dir(&project, "node_modules");
    // Nested package inside node_modules
    let nested = make_dir(&nm, "some-pkg");
    make_file(&nested, "package.json", b"");
    make_dir(&nested, "node_modules");

    let artifacts = scan(&path_string(tmp.path())).0;
    // Should only detect the outer node_modules, not the nested one
    assert_eq!(artifacts.len(), 1);
    assert_eq!(joined(&artifacts[0]), path_string(&nm));
}

#[test]
fn detects_multiple_projects() {
    let tmp = tempfile::tempdir().unwrap();

    // Rust project
    let rust_proj = make_dir(tmp.path(), "rust-proj");
    make_file(&rust_proj, "Cargo.toml", b"");
    make_dir(&rust_proj, "target");

    // Node project
    let node_proj = make_dir(tmp.path(), "node-proj");
    make_file(&node_proj, "package.json", b"");
    make_dir(&node_proj, "node_modules");

    let artifacts = scan(&path_string(tmp.path())).0;
    assert_eq!(artifacts.len(), 2);
    let systems: HashSet<&str> = artifacts.iter().map(|a| a.build_system.as_str()).collect();
    assert!(systems.contains("Rust/Cargo"));
    assert!(systems.contains("Node.js"));
}

#[test]
fn detects_ruby_vendor_bundle() {
    let tmp = tempfile::tempdir().unwrap();
    let project = make_dir(tmp.path(), "rails-app");
    make_file(&project, "Gemfile", b"");
    let vendor = make_dir(&project, "vendor");
    make_dir(&vendor, "bundle");
    let artifacts = scan(&path_string(tmp.path())).0;
    assert_eq!(artifacts.len(), 1);
    assert_eq!(artifacts[0].build_system, "Ruby/Bundler");
}

#[test]
fn ignores_vendor_without_bundle() {
    let tmp = tempfile::tempdir().unwrap();
    let project = make_dir(tmp.path(), "app");
    make_file(&project, "Gemfile", b"");
    // Just vendor/ without bundle/ inside
    make_dir(&project, "vendor");
    let artifacts = scan(&path_string(tmp.path())).0;
    assert!(artifacts.is_empty());
}

#[test]
fn detects_swift_spm_build() {
    let tmp = tempfile::tempdir().unwrap();
    set_up_project(&tmp, "Package.swift", ".build");
    let artifacts = scan(&path_string(tmp.path())).0;
    assert_eq!(artifacts.len(), 1);
    assert_eq!(artifacts[0].build_system, "Swift/SPM");
}

#[test]
fn detects_elixir_mix() {
    let tmp = tempfile::tempdir().unwrap();
    let project = make_dir(tmp.path(), "elixir-app");
    make_file(&project, "mix.exs", b"");
    make_dir(&project, "_build");
    make_dir(&project, "deps");
    let artifacts = scan(&path_string(tmp.path())).0;
    assert_eq!(artifacts.len(), 2);
    assert!(artifacts.iter().all(|a| a.build_system == "Elixir/Mix"));
}

#[test]
fn detects_cocoapods() {
    let tmp = tempfile::tempdir().unwrap();
    set_up_project(&tmp, "Podfile", "Pods");
    let artifacts = scan(&path_string(tmp.path())).0;
    assert_eq!(artifacts.len(), 1);
    assert_eq!(artifacts[0].build_system, "CocoaPods");
}

#[test]
fn vendor_bundle_without_gemfile_yields_none() {
    let tmp = tempfile::tempdir().unwrap();
    let project = make_dir(tmp.path(), "rails-app");
    let vendor = make_dir(&project, "vendor");
    make_dir(&vendor, "bundle");
    let artifacts = scan(&path_string(tmp.path())).0;
    assert!(artifacts.is_empty());
}

#[test]
fn reported_artifacts_are_prefix_disjoint() {
    let tmp = tempfile::tempdir().unwrap();
    // A cargo project whose target directory contains a vendored node project,
    // plus an unrelated python cache next to it.
    let project = make_dir(tmp.path(), "workspace");
    make_file(&project, "Cargo.toml", b"");
    let target = make_dir(&project, "target");
    let vendored = make_dir(&target, "vendored");
    make_file(&vendored, "package.json", b"");
    make_dir(&vendored, "node_modules");
    let src = make_dir(&project, "src");
    make_dir(&src, "__pycache__");

    let artifacts = scan(&path_string(tmp.path())).0;
    assert_eq!(artifacts.len(), 2);
    for a in &artifacts {
        for b in &artifacts {
            if joined(a) != joined(b) {
                assert!(!joined(b).starts_with(&format!("{}/", joined(a))));
            }
        }
    }
}

#[test]
fn scanning_twice_yields_same_artifact_set() {
    let tmp = tempfile::tempdir().unwrap();
    let rust_proj = make_dir(tmp.path(), "rust-proj");
    make_file(&rust_proj, "Cargo.toml", b"");
    make_dir(&rust_proj, "target");
    let node_proj = make_dir(tmp.path(), "node-proj");
    make_file(&node_proj, "package.json", b"");
    make_dir(&node_proj, "node_modules");
    let some_dir = make_dir(tmp.path(), "scripts");
    make_dir(&some_dir, "__pycache__");

    let first = scan(&path_string(tmp.path())).0;
    let second = scan(&path_string(tmp.path())).0;
    let mut first_paths: Vec<String> = first.iter().map(joined).collect();
    let mut second_paths: Vec<String> = second.iter().map(joined).collect();
    first_paths.sort();
    second_paths.sort();
    assert_eq!(first_paths, second_paths);
}
