//! The data behind the summary table — per-build-system counts and byte
//! totals — and the text the dry-run mode appends after it. Laying the
//! table out (column widths, size units, row order) is the caller's concern.

use vstd::prelude::*;
use vstd::string::StringExecFns;

use crate::scanner::Artifact;
use crate::scanner::ArtifactV;
use crate::size::spec_sat_add;

verus! {

/// One row of the summary: a build system, how many artifacts carry its
/// label, and their total size in bytes.
#[derive(Debug, Clone)]
pub struct GroupSummary {
    pub build_system: String,
    pub count: u64,
    pub total_bytes: u64,
}

/// Spec-level mirror of `GroupSummary`.
pub struct GroupSummaryV {
    pub build_system: Seq<char>,
    pub count: u64,
    pub total_bytes: u64,
}

impl View for GroupSummary {
    type V = GroupSummaryV;

    open spec fn view(&self) -> GroupSummaryV {
        GroupSummaryV {
            build_system: self.build_system@,
            count: self.count,
            total_bytes: self.total_bytes,
        }
    }
}

/// The views of an artifact list.
pub open spec fn spec_artifact_views(v: Vec<Artifact>) -> Seq<ArtifactV> {
    v@.map_values(|a: Artifact| a@)
}

/// Some row carries this label.
pub open spec fn spec_has_row(rows: Seq<GroupSummary>, label: Seq<char>) -> bool {
    exists|g: int| 0 <= g < rows.len() && (#[trigger] rows[g])@.build_system == label
}

/// How many of the artifacts carry this label.
pub open spec fn spec_label_count(s: Seq<ArtifactV>, label: Seq<char>) -> int
    decreases s.len(),
{
    if s.len() == 0 {
        0
    } else {
        spec_label_count(s.drop_last(), label) + if s.last().build_system == label {
            1int
        } else {
            0int
        }
    }
}

/// The saturating sum of the sizes of the artifacts with this label.
pub open spec fn spec_label_total(s: Seq<ArtifactV>, label: Seq<char>) -> u64
    decreases s.len(),
{
    if s.len() == 0 {
        0
    } else {
        let rest = spec_label_total(s.drop_last(), label);
        if s.last().build_system == label {
            spec_sat_add(rest, s.last().size_bytes)
        } else {
            rest
        }
    }
}

/// The saturating sum of all the artifacts' sizes.
pub open spec fn spec_total_size(s: Seq<ArtifactV>) -> u64
    decreases s.len(),
{
    if s.len() == 0 {
        0
    } else {
        spec_sat_add(spec_total_size(s.drop_last()), s.last().size_bytes)
    }
}

/// A label absent from the artifacts counts zero and sums to zero.
proof fn lemma_label_absent(s: Seq<ArtifactV>, label: Seq<char>)
    requires
        forall|i: int| 0 <= i < s.len() ==> (#[trigger] s[i]).build_system != label,
    ensures
        spec_label_count(s, label) == 0,
        spec_label_total(s, label) == 0,
    decreases s.len(),
{
    if s.len() > 0 {
        lemma_label_absent(s.drop_last(), label);
    }
}

/// The index of the row carrying this label, if any.
fn find_group(rows: &Vec<GroupSummary>, label: &String) -> (res: Option<usize>)
    ensures
        match res {
            Some(g) => 0 <= g < rows@.len() && rows@[g as int]@.build_system == label@,
            None => forall|g: int|
                0 <= g < rows@.len() ==> (#[trigger] rows@[g])@.build_system != label@,
        },
{
    let mut g: usize = 0;
    while g < rows.len()
        invariant
            g <= rows@.len(),
            forall|j: int| 0 <= j < g ==> (#[trigger] rows@[j])@.build_system != label@,
        decreases rows@.len() - g,
    {
        if rows[g].build_system == *label {
            return Some(g);
        }
        g = g + 1;
    }
    None
}

/// Groups the artifacts by build system, in first-seen order.
///
/// One row per label that occurs, no duplicates and no others; each row's
/// count and total are exactly the number of artifacts with that label and
/// the saturating sum of their sizes.
pub fn summarize(artifacts: &Vec<Artifact>) -> (r: Vec<GroupSummary>)
    ensures
        ({
            let av = spec_artifact_views(*artifacts);
            &&& (forall|g: int, g2: int|
                #![trigger r@[g], r@[g2]]
                0 <= g < r@.len() && 0 <= g2 < r@.len() && g != g2 ==> r@[g]@.build_system
                    != r@[g2]@.build_system)
            &&& (forall|i: int|
                0 <= i < av.len() ==> spec_has_row(r@, (#[trigger] av[i]).build_system))
            &&& (forall|g: int|
                0 <= g < r@.len() ==> (#[trigger] r@[g])@.count == spec_label_count(
                    av,
                    r@[g]@.build_system,
                ))
            &&& (forall|g: int|
                0 <= g < r@.len() ==> (#[trigger] r@[g])@.total_bytes == spec_label_total(
                    av,
                    r@[g]@.build_system,
                ))
            &&& (forall|g: int| 0 <= g < r@.len() ==> (#[trigger] r@[g])@.count >= 1)
        }),
{
    let ghost av = spec_artifact_views(*artifacts);
    let mut r: Vec<GroupSummary> = Vec::new();
    let mut i: usize = 0;
    proof {
        assert(av.take(0) =~= Seq::<ArtifactV>::empty());
    }
    while i < artifacts.len()
        invariant
            i <= artifacts@.len(),
            av == spec_artifact_views(*artifacts),
            forall|g: int, g2: int|
                #![trigger r@[g], r@[g2]]
                0 <= g < r@.len() && 0 <= g2 < r@.len() && g != g2 ==> r@[g]@.build_system
                    != r@[g2]@.build_system,
            forall|ii: int|
                0 <= ii < i ==> spec_has_row(r@, (#[trigger] av[ii]).build_system),
            forall|g: int|
                0 <= g < r@.len() ==> (#[trigger] r@[g])@.count == spec_label_count(
                    av.take(i as int),
                    r@[g]@.build_system,
                ),
            forall|g: int|
                0 <= g < r@.len() ==> (#[trigger] r@[g])@.total_bytes == spec_label_total(
                    av.take(i as int),
                    r@[g]@.build_system,
                ),
            forall|g: int| 0 <= g < r@.len() ==> 1 <= (#[trigger] r@[g])@.count <= i,
        decreases artifacts@.len() - i,
    {
        let a = &artifacts[i];
        proof {
            assert(av[i as int] == artifacts@[i as int]@);
        }
        let ghost old_rows = r@;
        let ghost mut touched: int = 0;
        match find_group(&r, &a.build_system) {
            Some(g) => {
                let new_count = r[g].count + 1;
                let new_total = if r[g].total_bytes > u64::MAX - a.size_bytes {
                    u64::MAX
                } else {
                    r[g].total_bytes + a.size_bytes
                };
                let entry = GroupSummary {
                    build_system: r[g].build_system.clone(),
                    count: new_count,
                    total_bytes: new_total,
                };
                r[g] = entry;
                proof {
                    touched = g as int;
                    assert(r@[g as int]@.build_system == old_rows[g as int]@.build_system);
                    assert(forall|g2: int|
                        0 <= g2 < r@.len() && g2 != g ==> r@[g2] == old_rows[g2]);
                }
            },
            None => {
                proof {
                    // No earlier artifact carries this label: each of them
                    // has some row's label, and no row carries this one.
                    assert forall|ii: int| 0 <= ii < av.take(i as int).len() implies (
                    #[trigger] av.take(i as int)[ii]).build_system != a@.build_system by {
                        assert(spec_has_row(r@, av[ii].build_system));
                        let gw = choose|g: int|
                            0 <= g < r@.len() && (#[trigger] r@[g])@.build_system
                                == av[ii].build_system;
                        assert(r@[gw]@.build_system != a@.build_system);
                    }
                    lemma_label_absent(av.take(i as int), a@.build_system);
                }
                r.push(
                    GroupSummary {
                        build_system: a.build_system.clone(),
                        count: 1,
                        total_bytes: a.size_bytes,
                    },
                );
                proof {
                    touched = old_rows.len() as int;
                    assert(forall|g2: int| 0 <= g2 < old_rows.len() ==> r@[g2] == old_rows[g2]);
                }
            },
        }
        i = i + 1;
        proof {
            assert(av.take(i as int).drop_last() =~= av.take(i as int - 1));
            assert(av.take(i as int).last() == av[i as int - 1]);
            assert(0 <= touched < r@.len());
            assert(r@[touched]@.build_system == a@.build_system);
            // Only the touched row carries the new artifact's label.
            assert forall|g2: int| 0 <= g2 < r@.len() implies (#[trigger] r@[g2])@.count
                == spec_label_count(av.take(i as int), r@[g2]@.build_system) && r@[g2]@.total_bytes
                == spec_label_total(av.take(i as int), r@[g2]@.build_system) by {
                if g2 == touched {
                    assert(av[i as int - 1].build_system == r@[g2]@.build_system);
                } else {
                    assert(r@[g2] == old_rows[g2]);
                    assert(r@[g2]@.build_system != a@.build_system);
                }
            }
            assert forall|ii: int| 0 <= ii < i implies spec_has_row(
                r@,
                (#[trigger] av[ii]).build_system,
            ) by {
                if ii < i - 1 {
                    assert(spec_has_row(old_rows, av[ii].build_system));
                    let gw = choose|g2: int|
                        0 <= g2 < old_rows.len() && (#[trigger] old_rows[g2])@.build_system
                            == av[ii].build_system;
                    assert(r@[gw]@.build_system == av[ii].build_system);
                } else {
                    assert(r@[touched]@.build_system == av[ii].build_system);
                }
            }
        }
    }
    proof {
        assert(av.len() == artifacts@.len());
        assert(av.take(i as int) =~= av);
        assert forall|idx: int| 0 <= idx < av.len() implies spec_has_row(
            r@,
            (#[trigger] av[idx]).build_system,
        ) by {
            assert(0 <= idx < i);
        }
    }
    r
}

/// The total size of all the artifacts, saturating at the top of `u64`.
pub fn total_size(artifacts: &Vec<Artifact>) -> (r: u64)
    ensures
        r == spec_total_size(spec_artifact_views(*artifacts)),
{
    let ghost av = spec_artifact_views(*artifacts);
    let mut total: u64 = 0;
    let mut i: usize = 0;
    proof {
        assert(av.take(0) =~= Seq::<ArtifactV>::empty());
    }
    while i < artifacts.len()
        invariant
            i <= artifacts@.len(),
            av == spec_artifact_views(*artifacts),
            total == spec_total_size(av.take(i as int)),
        decreases artifacts@.len() - i,
    {
        let s = artifacts[i].size_bytes;
        proof {
            assert(av[i as int] == artifacts@[i as int]@);
        }
        if total > u64::MAX - s {
            total = u64::MAX;
        } else {
            total = total + s;
        }
        i = i + 1;
        proof {
            assert(av.take(i as int).drop_last() =~= av.take(i as int - 1));
            assert(av.take(i as int).last() == av[i as int - 1]);
        }
    }
    proof {
        assert(av.take(av.len() as int) =~= av);
    }
    total
}

/// The dry-run footer, ready to be written out: a blank line, then the hint
/// to re-run with the deletion flag.
pub fn print_dry_run_footer() -> (r: String)
    ensures
        r@ == "\nRun with --delete to remove these artifacts.\n"@,
{
    String::from_str("\nRun with --delete to remove these artifacts.\n")
}

} // verus!
