use clean_builds::filter::ArtifactFilter;
use clean_builds::paths::split_path;
use clean_builds::scanner::scan;
use clean_builds::scanner::Artifact;
use clean_builds::size::compute_sizes;

use std::io::Write;
use std::path::Path;
use std::path::PathBuf;

fn path_string(p: &Path) -> String {
    p.to_str().unwrap().to_string()
}

fn make_dir(parent: &Path, name: &str) -> PathBuf {
    let d = tempfile::Builder::new()
        .prefix(name)
        .rand_bytes(0)
        .disable_cleanup(true)
        .tempdir_in(parent)
        .unwrap();
    d.path().to_path_buf()
}

fn make_file(parent: &Path, name: &str, content: &[u8]) {
    let mut f = tempfile::Builder::new()
        .prefix(name)
        .rand_bytes(0)
        .disable_cleanup(true)
        .tempfile_in(parent)
        .unwrap();
    f.write_all(content).unwrap();
}

#[test]
fn sum_file_sizes_counts_only_regular_files() {
    let entries = vec![(false, 4096), (true, 5), (false, 7), (true, 6)];
    assert_eq!(clean_builds::size::sum_file_sizes(&entries), 11);
    assert_eq!(clean_builds::size::sum_file_sizes(&Vec::new()), 0);
    let saturating = vec![(true, u64::MAX), (true, 2)];
    assert_eq!(clean_builds::size::sum_file_sizes(&saturating), u64::MAX);
}

#[test]
fn assign_sizes_writes_each_size_in_order() {
    let mut artifacts = vec![
        Artifact {
            path: split_path(&"/a/target".to_string()),
            build_system: "Rust/Cargo".to_string(),
            artifact_dir: "target".to_string(),
            size_bytes: 0,
        },
        Artifact {
            path: split_path(&"/b/node_modules".to_string()),
            build_system: "Node.js".to_string(),
            artifact_dir: "node_modules".to_string(),
            size_bytes: 0,
        },
    ];
    clean_builds::size::assign_sizes(&mut artifacts, &vec![3, 9]);
    assert_eq!(artifacts[0].size_bytes, 3);
    assert_eq!(artifacts[1].size_bytes, 9);
    assert_eq!(artifacts[0].build_system, "Rust/Cargo");
    assert_eq!(artifacts[1].path.join("/"), "/b/node_modules");
}

#[test]
fn compute_sizes_populates_artifacts() {
    let tmp = tempfile::tempdir().unwrap();
    let dir = make_dir(tmp.path(), "target");
    make_file(&dir, "file.o", b"hello world"); // 11 bytes

    let mut artifacts = vec![Artifact {
        path: split_path(&path_string(&dir)),
        build_system: "Rust/Cargo".to_string(),
        artifact_dir: "target".to_string(),
        size_bytes: 0,
    }];

    compute_sizes(&mut artifacts);
    assert_eq!(artifacts[0].size_bytes, 11);
}

/// Exercises thread-pool contention between the outer parallel fan-out and
/// the per-artifact walks. With more artifacts than pool threads, a nested
/// parallel walk could starve and report 0; the serial per-artifact walk
/// must not.
#[test]
fn compute_sizes_many_artifacts_no_zeros() {
    let tmp = tempfile::tempdir().unwrap();
    let num_threads = rayon::current_num_threads();
    // Create more artifacts than rayon threads to trigger contention.
    let count = num_threads * 4;

    let mut artifacts: Vec<Artifact> = (0..count)
        .map(|i| {
            let project = make_dir(tmp.path(), &format!("project-{i}"));
            let dir = make_dir(&project, "node_modules");
            make_file(&dir, "file.js", b"content");
            Artifact {
                path: split_path(&path_string(&dir)),
                build_system: "Node.js".to_string(),
                artifact_dir: "node_modules".to_string(),
                size_bytes: 0,
            }
        })
        .collect();

    compute_sizes(&mut artifacts);

    let zeros: Vec<String> = artifacts
        .iter()
        .filter(|a| a.size_bytes == 0)
        .map(|a| a.path.join("/"))
        .collect();
    assert!(
        zeros.is_empty(),
        "{} of {} artifacts reported 0 bytes: {:?}",
        zeros.len(),
        count,
        &zeros[..zeros.len().min(5)]
    );
}

#[test]
fn scenario_cargo_target_eleven_bytes() {
    let tmp = tempfile::tempdir().unwrap();
    let proj = make_dir(tmp.path(), "proj");
    make_file(&proj, "Cargo.toml", b"");
    let target = make_dir(&proj, "target");
    make_file(&target, "out.bin", b"hello world"); // 11 bytes

    let mut artifacts = scan(&path_string(tmp.path())).0;
    compute_sizes(&mut artifacts);
    assert_eq!(artifacts.len(), 1);
    assert_eq!(artifacts[0].build_system, "Rust/Cargo");
    assert_eq!(artifacts[0].artifact_dir, "target");
    assert_eq!(artifacts[0].size_bytes, 11);
}

#[test]
fn scenario_exclude_prefix_drops_all_projects() {
    let tmp = tempfile::tempdir().unwrap();
    let app = make_dir(tmp.path(), "my-app");
    make_file(&app, "Cargo.toml", b"");
    make_dir(&app, "target");
    let lib = make_dir(tmp.path(), "my-lib");
    make_file(&lib, "package.json", b"");
    make_dir(&lib, "node_modules");

    let root = path_string(tmp.path());
    let unfiltered = scan(&root).0;
    assert_eq!(unfiltered.len(), 2);

    let f = ArtifactFilter::new(&Vec::new(), &vec!["my-*".to_string()]).unwrap();
    let filtered = f.apply(&root, scan(&root).0);
    assert!(filtered.is_empty());
}
