use clean_builds::output::print_dry_run_footer;
use clean_builds::output::summarize;
use clean_builds::output::total_size;
use clean_builds::paths::split_path;
use clean_builds::scanner::Artifact;

fn make_artifact(system: &str, dir: &str, path: &str, size: u64) -> Artifact {
    Artifact {
        path: split_path(&path.to_string()),
        build_system: system.to_string(),
        artifact_dir: dir.to_string(),
        size_bytes: size,
    }
}

#[test]
fn dry_run_footer() {
    let out = print_dry_run_footer();
    assert!(out.contains("Run with --delete"));
}

#[test]
fn summarize_groups_counts_and_totals() {
    let artifacts = vec![
        make_artifact("Node.js", "node_modules", "/a/node_modules", 3),
        make_artifact("Rust/Cargo", "target", "/c/target", 7),
        make_artifact("Node.js", "node_modules", "/b/node_modules", 5),
    ];
    let groups = summarize(&artifacts);
    assert_eq!(groups.len(), 2);
    // first-seen order
    assert_eq!(groups[0].build_system, "Node.js");
    assert_eq!(groups[0].count, 2);
    assert_eq!(groups[0].total_bytes, 8);
    assert_eq!(groups[1].build_system, "Rust/Cargo");
    assert_eq!(groups[1].count, 1);
    assert_eq!(groups[1].total_bytes, 7);
    assert_eq!(total_size(&artifacts), 15);
}

#[test]
fn summarize_of_nothing_is_empty() {
    let artifacts: Vec<Artifact> = Vec::new();
    assert!(summarize(&artifacts).is_empty());
    assert_eq!(total_size(&artifacts), 0);
}

#[test]
fn total_size_saturates() {
    let artifacts = vec![
        make_artifact("Rust/Cargo", "target", "/a/target", u64::MAX),
        make_artifact("Rust/Cargo", "target", "/b/target", 2),
    ];
    assert_eq!(total_size(&artifacts), u64::MAX);
    let groups = summarize(&artifacts);
    assert_eq!(groups.len(), 1);
    assert_eq!(groups[0].total_bytes, u64::MAX);
}
