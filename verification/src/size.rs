//! The size computer: the total on-disk size of each artifact's subtree,
//! computed independently per artifact and in parallel across artifacts.
//!
//! The per-artifact traversal is strictly serial: the outer fan-out and an
//! inner parallel walk would share one bounded worker pool, and nesting the
//! two can starve the inner work. Exactly one level of parallelism is used.

use vstd::prelude::*;

use rayon::iter::IntoParallelRefIterator;
use rayon::iter::ParallelIterator;

use crate::paths::clone_parts;
use crate::paths::join_path;
use crate::paths::spec_join_path;
use crate::scanner::Artifact;

verus! {

/// Addition on byte counts, saturating at the top of `u64`.
pub open spec fn spec_sat_add(a: u64, b: u64) -> u64 {
    if a + b > u64::MAX {
        u64::MAX
    } else {
        (a + b) as u64
    }
}

/// The sum of the byte lengths of the regular-file entries, saturating.
pub open spec fn spec_sum_sizes(s: Seq<(bool, u64)>) -> u64
    decreases s.len(),
{
    if s.len() == 0 {
        0
    } else {
        let rest = spec_sum_sizes(s.drop_last());
        if s.last().0 {
            spec_sat_add(rest, s.last().1)
        } else {
            rest
        }
    }
}

/// Relies on jwalk::WalkDir in serial mode: walks the subtree at `path`
/// without following symbolic links and without skipping hidden entries,
/// spawning no walker threads of its own. Each readable entry comes back as
/// (is regular file, byte length), with length 0 where metadata cannot be
/// read; unreadable entries are dropped. What comes back depends on the live
/// filesystem.
#[verifier::external_body]
fn walk_files_serial(path: &String) -> Vec<(bool, u64)> {
    jwalk::WalkDir::new(path.as_str())
        .parallelism(jwalk::Parallelism::Serial)
        .follow_links(false)
        .skip_hidden(false)
        .into_iter()
        .filter_map(|e| e.ok())
        .map(|e| (e.file_type().is_file(), e.metadata().map(|m| m.len()).unwrap_or(0)))
        .collect()
}

/// Sums the byte lengths of the regular-file entries, saturating.
pub fn sum_file_sizes(entries: &Vec<(bool, u64)>) -> (r: u64)
    ensures
        r == spec_sum_sizes(entries@),
{
    let mut total: u64 = 0;
    let mut i: usize = 0;
    while i < entries.len()
        invariant
            i <= entries@.len(),
            total == spec_sum_sizes(entries@.take(i as int)),
        decreases entries@.len() - i,
    {
        let e = entries[i];
        if e.0 {
            if total > u64::MAX - e.1 {
                total = u64::MAX;
            } else {
                total = total + e.1;
            }
        }
        i = i + 1;
        proof {
            assert(entries@.take(i as int).drop_last() =~= entries@.take(i as int - 1));
            assert(entries@.take(i as int).last() == entries@[i as int - 1]);
        }
    }
    proof {
        assert(entries@.take(entries@.len() as int) =~= entries@);
    }
    total
}

/// The total size of one directory subtree: exactly the saturating sum of
/// the regular-file byte lengths that the serial walk of `path` yielded
/// (returned alongside as ghost data).
pub fn dir_size(path: &String) -> (r: (u64, Ghost<Seq<(bool, u64)>>))
    ensures
        r.0 == spec_sum_sizes(r.1@),
{
    let entries = walk_files_serial(path);
    let total = sum_file_sizes(&entries);
    (total, Ghost(entries@))
}

/// Relies on rayon's parallel iterators: computes `dir_size` for each path,
/// fanned out over rayon's shared worker pool; `collect` on an indexed
/// parallel iterator keeps order and length, so the result holds one size
/// per path, in order. The sizes themselves depend on the live filesystem.
#[verifier::external_body]
fn par_dir_sizes(paths: &Vec<String>) -> (r: Vec<u64>)
    ensures
        r@.len() == paths@.len(),
{
    paths.par_iter().map(|p| dir_size(p).0).collect()
}

/// The joined path string of every artifact, in order: what the size pass
/// hands to the traversals.
fn artifact_paths(artifacts: &Vec<Artifact>) -> (r: Vec<String>)
    ensures
        r@.len() == artifacts@.len(),
        forall|i: int|
            0 <= i < artifacts@.len() ==> #[trigger] r@[i]@ == spec_join_path(
                artifacts@[i]@.path,
            ),
{
    let mut r: Vec<String> = Vec::new();
    let mut i: usize = 0;
    while i < artifacts.len()
        invariant
            i <= artifacts@.len(),
            r@.len() == i,
            forall|m: int|
                0 <= m < i ==> #[trigger] r@[m]@ == spec_join_path(artifacts@[m]@.path),
        decreases artifacts@.len() - i,
    {
        r.push(join_path(&artifacts[i].path));
        i = i + 1;
    }
    r
}

/// Writes one computed size into each artifact, in order.
///
/// This is the whole effect of the size pass on the artifact list: the list
/// keeps its length and order, every artifact keeps its path, label and
/// directory name, and artifact `i` receives exactly `sizes[i]`.
pub fn assign_sizes(artifacts: &mut Vec<Artifact>, sizes: &Vec<u64>)
    requires
        sizes@.len() == old(artifacts)@.len(),
    ensures
        final(artifacts)@.len() == old(artifacts)@.len(),
        forall|i: int|
            0 <= i < old(artifacts)@.len() ==> {
                &&& (#[trigger] final(artifacts)@[i])@.path == old(artifacts)@[i]@.path
                &&& final(artifacts)@[i]@.build_system == old(artifacts)@[i]@.build_system
                &&& final(artifacts)@[i]@.artifact_dir == old(artifacts)@[i]@.artifact_dir
                &&& final(artifacts)@[i]@.size_bytes == sizes@[i]
            },
{
    let ghost orig = artifacts@;
    let mut result: Vec<Artifact> = Vec::new();
    let mut j: usize = 0;
    while j < artifacts.len()
        invariant
            artifacts@ == orig,
            sizes@.len() == orig.len(),
            j <= orig.len(),
            result@.len() == j,
            forall|m: int|
                0 <= m < j ==> {
                    &&& (#[trigger] result@[m])@.path == orig[m]@.path
                    &&& result@[m]@.build_system == orig[m]@.build_system
                    &&& result@[m]@.artifact_dir == orig[m]@.artifact_dir
                    &&& result@[m]@.size_bytes == sizes@[m]
                },
        decreases orig.len() - j,
    {
        let a = &artifacts[j];
        result.push(
            Artifact {
                path: clone_parts(&a.path),
                build_system: a.build_system.clone(),
                artifact_dir: a.artifact_dir.clone(),
                size_bytes: sizes[j],
            },
        );
        j = j + 1;
    }
    *artifacts = result;
}

/// Fills in the size of every artifact, in parallel across artifacts.
///
/// Size computation never changes which artifacts exist: the list keeps its
/// length and order, and every artifact keeps its path, label and directory
/// name; only the size fields change, to whatever the traversals measured.
pub fn compute_sizes(artifacts: &mut Vec<Artifact>)
    ensures
        final(artifacts)@.len() == old(artifacts)@.len(),
        forall|i: int|
            0 <= i < old(artifacts)@.len() ==> {
                &&& (#[trigger] final(artifacts)@[i])@.path == old(artifacts)@[i]@.path
                &&& final(artifacts)@[i]@.build_system == old(artifacts)@[i]@.build_system
                &&& final(artifacts)@[i]@.artifact_dir == old(artifacts)@[i]@.artifact_dir
            },
{
    let paths = artifact_paths(artifacts);
    let sizes = par_dir_sizes(&paths);
    assign_sizes(artifacts, &sizes);
}

} // verus!
