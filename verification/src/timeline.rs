//! Assembling commit timelines and range comparisons: which recorded build
//! stands for each commit, which older build of the same configuration each
//! is compared with, and the totals of a range of commits.
use vstd::prelude::*;

use crate::text::opt_text;
use crate::git::GitCommit;
use crate::history::{
    built_from, filters_match, latest_build_by_commit, matches_filters, BuildMetricDiff, BuildRecord, CommitTimelineRow,
    WorstCommitSummary,
};
use crate::text::{copy_string, first_match, str_eq};

verus! {

// ---------------------------------------------------------------------------
// Which build stands for each commit
// ---------------------------------------------------------------------------
/// The timeline filters as optional texts: profile, toolchain, target and branch.
pub type FilterText = (Option<Seq<char>>, Option<Seq<char>>, Option<Seq<char>>, Option<Seq<char>>);

/// The text of an optional string slice.
pub open spec fn opt_str(o: Option<&str>) -> Option<Seq<char>> {
    match o {
        Some(s) => Some(s@),
        None => None,
    }
}

/// Whether a build passes the timeline filters.
pub open spec fn build_passes(b: BuildRecord, f: FilterText) -> bool {
    filters_match(
        b.metadata@,
        b.linker_family@,
        match b.git {
            Some(g) => opt_text(g.branch_name),
            None => None,
        },
        f.0,
        f.1,
        f.2,
        f.3,
    )
}

/// The commits that have a recorded build passing the filters, in order,
/// each with the newest such build of the repository.
pub open spec fn timeline_items(
    commits: Seq<GitCommit>,
    builds: Seq<BuildRecord>,
    root: Seq<char>,
    f: FilterText,
) -> Seq<(int, BuildRecord)>
    decreases commits.len(),
{
    if commits.len() == 0 {
        Seq::empty()
    } else {
        let prev = timeline_items(commits.drop_last(), builds, root, f);
        match first_match(builds, built_from(root, commits.last().commit@)) {
            Some(b) => if build_passes(b, f) {
                prev.push((commits.len() - 1, b))
            } else {
                prev
            },
            None => prev,
        }
    }
}

/// Every build's metadata is well formed.
pub open spec fn builds_wf(builds: Seq<BuildRecord>) -> bool {
    forall|i: int| 0 <= i < builds.len() ==> (#[trigger] builds[i]).metadata.wf()
}

/// For each commit (newest first) the newest recorded build of the
/// repository made from it, kept when it passes the filters; the result
/// pairs the position of the commit with the position of the build.
pub fn select_timeline_items(
    commits: &Vec<GitCommit>,
    builds: &Vec<BuildRecord>,
    repo_root: &str,
    profile: Option<&str>,
    toolchain: Option<&str>,
    target: Option<&str>,
    branch: Option<&str>,
) -> (out: Vec<(usize, usize)>)
    requires
        builds_wf(builds@),
    ensures
        out@.len() == timeline_items(
            commits@,
            builds@,
            repo_root@,
            (opt_str(profile), opt_str(toolchain), opt_str(target), opt_str(branch)),
        ).len(),
        forall|k: int|
            0 <= k < out@.len() ==> {
                let want = timeline_items(
                    commits@,
                    builds@,
                    repo_root@,
                    (opt_str(profile), opt_str(toolchain), opt_str(target), opt_str(branch)),
                )[k];
                &&& (#[trigger] out@[k]).0 == want.0
                &&& out@[k].1 < builds@.len()
                &&& builds@[out@[k].1 as int] == want.1
            },
{
    let ghost f = (opt_str(profile), opt_str(toolchain), opt_str(target), opt_str(branch));
    let mut out: Vec<(usize, usize)> = Vec::new();
    let mut i: usize = 0;
    while i < commits.len()
        invariant
            0 <= i <= commits.len(),
            builds_wf(builds@),
            f == (opt_str(profile), opt_str(toolchain), opt_str(target), opt_str(branch)),
            out@.len() == timeline_items(commits@.take(i as int), builds@, repo_root@, f).len(),
            forall|k: int|
                0 <= k < out@.len() ==> {
                    let want = timeline_items(commits@.take(i as int), builds@, repo_root@, f)[k];
                    &&& (#[trigger] out@[k]).0 == want.0
                    &&& out@[k].1 < builds@.len()
                    &&& builds@[out@[k].1 as int] == want.1
                },
        decreases commits.len() - i,
    {
        let ghost prev = timeline_items(commits@.take(i as int), builds@, repo_root@, f);
        assert(commits@.take(i + 1).drop_last() =~= commits@.take(i as int));
        assert(commits@.take(i + 1).last() == commits@[i as int]);
        match latest_build_by_commit(builds, repo_root, commits[i].commit.as_str()) {
            Some(b) => {
                if matches_filters(&builds[b], profile, toolchain, target, branch) {
                    out.push((i, b));
                    assert(timeline_items(commits@.take(i + 1), builds@, repo_root@, f) == prev.push(
                        (i as int, builds@[b as int]),
                    ));
                } else {
                    assert(timeline_items(commits@.take(i + 1), builds@, repo_root@, f) == prev);
                }
            },
            None => {
                assert(timeline_items(commits@.take(i + 1), builds@, repo_root@, f) == prev);
            },
        }
        i += 1;
    }
    assert(commits@.take(commits.len() as int) =~= commits@);
    out
}

/// A timeline keeps the order of the commits it is made of: each entry's
/// commit comes after the previous entry's and is one of the listed commits.
pub proof fn law_timeline_keeps_commit_order(
    commits: Seq<GitCommit>,
    builds: Seq<BuildRecord>,
    root: Seq<char>,
    f: FilterText,
)
    ensures
        forall|k: int|
            0 <= k < timeline_items(commits, builds, root, f).len() ==> 0 <= (#[trigger] timeline_items(
                commits,
                builds,
                root,
                f,
            )[k]).0 < commits.len(),
        forall|k1: int, k2: int|
            0 <= k1 < k2 < timeline_items(commits, builds, root, f).len() ==> (#[trigger] timeline_items(
                commits,
                builds,
                root,
                f,
            )[k1]).0 < (#[trigger] timeline_items(commits, builds, root, f)[k2]).0,
    decreases commits.len(),
{
    if commits.len() > 0 {
        let n = commits.len() - 1;
        law_timeline_keeps_commit_order(commits.drop_last(), builds, root, f);
        let prev = timeline_items(commits.drop_last(), builds, root, f);
        let cur = timeline_items(commits, builds, root, f);
        assert(cur.len() == prev.len() || (cur.len() == prev.len() + 1 && cur[cur.len() - 1].0 == n));
        assert forall|k: int| 0 <= k < prev.len() implies cur[k] == prev[k] by {}
        assert forall|k: int| 0 <= k < cur.len() implies 0 <= (#[trigger] cur[k]).0 < commits.len() by {
            if k < prev.len() {
                assert(cur[k] == prev[k]);
            }
        }
        assert forall|k1: int, k2: int| 0 <= k1 < k2 < cur.len() implies (#[trigger] cur[k1]).0 < (
        #[trigger] cur[k2]).0 by {
            assert(cur[k1] == prev[k1]);
            if k2 < prev.len() {
                assert(cur[k2] == prev[k2]);
            }
        }
    }
}

// ---------------------------------------------------------------------------
// Which older build each is compared with
// ---------------------------------------------------------------------------
/// The position of the next older item (a later position) with the same
/// configuration, if there is one.
pub open spec fn is_next_same(vs: Seq<Seq<char>>, i: int, r: Option<int>) -> bool {
    match r {
        Some(j) => i < j < vs.len() && vs[j] == vs[i] && forall|k: int| i < k < j ==> vs[k] != vs[i],
        None => forall|k: int| i < k < vs.len() ==> vs[k] != vs[i],
    }
}

/// The views of a list of strings.
pub open spec fn texts(v: Seq<String>) -> Seq<Seq<char>> {
    v.map_values(|s: String| s@)
}

/// The optional position as an integer.
pub open spec fn opt_pos(o: Option<usize>) -> Option<int> {
    match o {
        Some(j) => Some(j as int),
        None => None,
    }
}

/// For each timeline item (newest first), given by its configuration key,
/// the position of the next older item with the same key: the build it is
/// compared with.
pub fn older_same_variant(variants: &Vec<String>) -> (out: Vec<Option<usize>>)
    ensures
        out@.len() == variants@.len(),
        forall|i: int| 0 <= i < out@.len() ==> is_next_same(texts(variants@), i, opt_pos(#[trigger] out@[i])),
{
    let ghost vs = texts(variants@);
    let mut out: Vec<Option<usize>> = Vec::new();
    let mut i: usize = 0;
    while i < variants.len()
        invariant
            0 <= i <= variants.len(),
            vs == texts(variants@),
            vs.len() == variants@.len(),
            out@.len() == i,
            forall|a: int| 0 <= a < i ==> is_next_same(vs, a, opt_pos(#[trigger] out@[a])),
        decreases variants.len() - i,
    {
        let mut j: usize = i + 1;
        let mut found: Option<usize> = None;
        while j < variants.len()
            invariant_except_break
                found is None,
            invariant
                i < variants.len(),
                i + 1 <= j <= variants.len(),
                vs == texts(variants@),
                vs.len() == variants@.len(),
                forall|k: int| i < k < j ==> vs[k] != vs[i as int],
            ensures
                is_next_same(vs, i as int, opt_pos(found)),
            decreases variants.len() - j,
        {
            assert(vs[j as int] == variants@[j as int]@);
            assert(vs[i as int] == variants@[i as int]@);
            if str_eq(variants[j].as_str(), variants[i].as_str()) {
                found = Some(j);
                break;
            }
            j += 1;
        }
        out.push(found);
        i += 1;
    }
    out
}

// ---------------------------------------------------------------------------
// Totals of a range
// ---------------------------------------------------------------------------
/// The ROM (`ram == false`) or RAM change of a row against its older build.
pub open spec fn row_delta(r: CommitTimelineRow, ram: bool) -> Option<i64> {
    if ram {
        r.ram_delta_vs_previous
    } else {
        r.rom_delta_vs_previous
    }
}

/// The sum of the known changes of the rows.
pub open spec fn delta_sum(rows: Seq<CommitTimelineRow>, ram: bool) -> int
    decreases rows.len(),
{
    if rows.len() == 0 {
        0
    } else {
        delta_sum(rows.drop_last(), ram) + match row_delta(rows.last(), ram) {
            Some(d) => d as int,
            None => 0,
        }
    }
}

/// The position of the first row with the largest known change.
pub open spec fn worst_row(rows: Seq<CommitTimelineRow>, ram: bool) -> Option<int>
    decreases rows.len(),
{
    if rows.len() == 0 {
        None
    } else {
        let w = worst_row(rows.drop_last(), ram);
        match row_delta(rows.last(), ram) {
            None => w,
            Some(d) => match w {
                None => Some(rows.len() - 1),
                Some(j) => if d > row_delta(rows[j], ram)->0 {
                    Some(rows.len() - 1)
                } else {
                    w
                },
            },
        }
    }
}

/// Every running sum of the changes fits in an `i64`.
pub open spec fn sums_fit(rows: Seq<CommitTimelineRow>, ram: bool) -> bool {
    forall|n: int| 0 <= n <= rows.len() ==> i64::MIN <= #[trigger] delta_sum(rows.take(n), ram) <= i64::MAX
}

/// The totals of a commit range.
#[derive(Debug, Clone, PartialEq, Eq)]
pub struct RangeTotals {
    pub cumulative_rom_delta: i64,
    pub cumulative_ram_delta: i64,
    pub worst_commit_by_rom: Option<WorstCommitSummary>,
    pub worst_commit_by_ram: Option<WorstCommitSummary>,
    pub first_rule_violation_row: Option<usize>,
}

/// The worst commit summary of a row: its short commit, change, subject and time.
pub open spec fn worst_summary_of(r: CommitTimelineRow, d: i64, w: WorstCommitSummary) -> bool {
    w.commit@ == r.short_commit@ && w.delta == d && w.subject@ == r.subject@ && w.date@ == r.commit_time@
}

/// The worst commit of a range matches the worst row.
pub open spec fn worst_is(rows: Seq<CommitTimelineRow>, ram: bool, w: Option<WorstCommitSummary>) -> bool {
    match (worst_row(rows, ram), w) {
        (None, None) => true,
        (Some(j), Some(s)) => 0 <= j < rows.len() && worst_summary_of(rows[j], row_delta(rows[j], ram)->0, s),
        _ => false,
    }
}

proof fn lemma_worst_row_bounds(rows: Seq<CommitTimelineRow>, ram: bool)
    ensures
        match worst_row(rows, ram) {
            Some(j) => 0 <= j < rows.len() && row_delta(rows[j], ram) is Some,
            None => true,
        },
    decreases rows.len(),
{
    if rows.len() > 0 {
        lemma_worst_row_bounds(rows.drop_last(), ram);
    }
}

fn summary_of(r: &CommitTimelineRow, d: i64) -> (w: WorstCommitSummary)
    ensures
        worst_summary_of(*r, d, w),
{
    WorstCommitSummary {
        commit: copy_string(&r.short_commit),
        delta: d,
        subject: copy_string(&r.subject),
        date: copy_string(&r.commit_time),
    }
}

/// The totals of a range of timeline rows: the summed ROM and RAM changes,
/// the first row with the largest ROM and RAM growth, and the first row with
/// rule violations.
pub fn summarize_range_rows(rows: &Vec<CommitTimelineRow>) -> (t: RangeTotals)
    requires
        sums_fit(rows@, false),
        sums_fit(rows@, true),
    ensures
        t.cumulative_rom_delta == delta_sum(rows@, false),
        t.cumulative_ram_delta == delta_sum(rows@, true),
        worst_is(rows@, false, t.worst_commit_by_rom),
        worst_is(rows@, true, t.worst_commit_by_ram),
        match t.first_rule_violation_row {
            Some(i) => i < rows@.len() && rows@[i as int].rule_violations_count > 0 && forall|k: int|
                0 <= k < i ==> (#[trigger] rows@[k]).rule_violations_count == 0,
            None => forall|k: int| 0 <= k < rows@.len() ==> (#[trigger] rows@[k]).rule_violations_count == 0,
        },
{
    let mut rom: i64 = 0;
    let mut ram: i64 = 0;
    let mut worst_rom: Option<WorstCommitSummary> = None;
    let mut worst_ram: Option<WorstCommitSummary> = None;
    let mut first_violation: Option<usize> = None;
    let mut i: usize = 0;
    assert(rows@.take(0) =~= Seq::<CommitTimelineRow>::empty());
    while i < rows.len()
        invariant
            0 <= i <= rows.len(),
            sums_fit(rows@, false),
            sums_fit(rows@, true),
            rom == delta_sum(rows@.take(i as int), false),
            ram == delta_sum(rows@.take(i as int), true),
            worst_is(rows@.take(i as int), false, worst_rom),
            worst_is(rows@.take(i as int), true, worst_ram),
            match first_violation {
                Some(v) => v < i && rows@[v as int].rule_violations_count > 0 && forall|k: int|
                    0 <= k < v ==> (#[trigger] rows@[k]).rule_violations_count == 0,
                None => forall|k: int| 0 <= k < i ==> (#[trigger] rows@[k]).rule_violations_count == 0,
            },
        decreases rows.len() - i,
    {
        let ghost pre = rows@.take(i as int);
        let ghost next = rows@.take(i + 1);
        assert(next.drop_last() =~= pre);
        assert(next.last() == rows@[i as int]);
        proof {
            lemma_worst_row_bounds(pre, false);
            lemma_worst_row_bounds(pre, true);
        }
        let row = &rows[i];
        assert(i64::MIN <= delta_sum(next, false) <= i64::MAX);
        assert(i64::MIN <= delta_sum(next, true) <= i64::MAX);
        if let Some(d) = row.rom_delta_vs_previous {
            rom = rom + d;
            let replace = match &worst_rom {
                Some(w) => d > w.delta,
                None => true,
            };
            if replace {
                worst_rom = Some(summary_of(row, d));
            }
        }
        if let Some(d) = row.ram_delta_vs_previous {
            ram = ram + d;
            let replace = match &worst_ram {
                Some(w) => d > w.delta,
                None => true,
            };
            if replace {
                worst_ram = Some(summary_of(row, d));
            }
        }
        if first_violation.is_none() && row.rule_violations_count > 0 {
            first_violation = Some(i);
        }
        proof {
            match worst_row(pre, false) {
                Some(j) => assert(pre[j] == rows@[j]),
                None => {},
            }
            match worst_row(pre, true) {
                Some(j) => assert(pre[j] == rows@[j]),
                None => {},
            }
            match worst_row(next, false) {
                Some(j) => assert(next[j] == rows@[j]),
                None => {},
            }
            match worst_row(next, true) {
                Some(j) => assert(next[j] == rows@[j]),
                None => {},
            }
        }
        i += 1;
    }
    assert(rows@.take(rows.len() as int) =~= rows@);
    RangeTotals {
        cumulative_rom_delta: rom,
        cumulative_ram_delta: ram,
        worst_commit_by_rom: worst_rom,
        worst_commit_by_ram: worst_ram,
        first_rule_violation_row: first_violation,
    }
}

/// The worst commit of a range grew at least as much as every row with a
/// known change, and strictly more than every earlier such row.
pub proof fn law_worst_commit_is_largest(rows: Seq<CommitTimelineRow>, ram: bool, k: int)
    requires
        0 <= k < rows.len(),
        row_delta(rows[k], ram) is Some,
    ensures
        worst_row(rows, ram) is Some,
        row_delta(rows[k], ram)->0 <= row_delta(rows[worst_row(rows, ram)->0], ram)->0,
        k < worst_row(rows, ram)->0 ==> row_delta(rows[k], ram)->0 < row_delta(rows[worst_row(rows, ram)->0], ram)->0,
    decreases rows.len(),
{
    lemma_worst_row_bounds(rows, ram);
    let n = rows.len() - 1;
    let pre = rows.drop_last();
    lemma_worst_row_bounds(pre, ram);
    if k == n {
        match worst_row(pre, ram) {
            Some(j) => assert(pre[j] == rows[j]),
            None => {},
        }
    } else {
        assert(pre[k] == rows[k]);
        law_worst_commit_is_largest(pre, ram, k);
        let j = worst_row(pre, ram)->0;
        assert(pre[j] == rows[j]);
    }
}

// ---------------------------------------------------------------------------
// Regression searches
// ---------------------------------------------------------------------------
/// Whether the analysed builds of a search were made in more than one
/// configuration (their configuration keys are not all equal).
pub fn has_mixed_configuration(variants: &Vec<String>) -> (r: bool)
    ensures
        r == exists|i: int, j: int|
            0 <= i < variants@.len() && 0 <= j < variants@.len() && (#[trigger] variants@[i])@ != (#[trigger] variants@[j])@,
{
    if variants.len() == 0 {
        return false;
    }
    let mut k: usize = 1;
    while k < variants.len()
        invariant
            1 <= k <= variants.len(),
            forall|a: int| 0 <= a < k ==> (#[trigger] variants@[a])@ == variants@[0]@,
        decreases variants.len() - k,
    {
        if !str_eq(variants[k].as_str(), variants[0].as_str()) {
            assert(variants@[k as int]@ != variants@[0]@);
            return true;
        }
        k += 1;
    }
    assert forall|i: int, j: int|
        0 <= i < variants@.len() && 0 <= j < variants@.len() implies (#[trigger] variants@[i])@ == (
        #[trigger] variants@[j])@ by {
        assert(variants@[i]@ == variants@[0]@);
        assert(variants@[j]@ == variants@[0]@);
    }
    false
}

/// The commits without analysis between the last good and the first bad
/// build of a search (by their positions among all searched commits), or all
/// commits without analysis when the search found no such pair.
pub fn missing_between_boundary(
    commit_indexes: &Vec<usize>,
    last_good: Option<usize>,
    first_bad: Option<usize>,
    missing_total: usize,
) -> (r: usize)
    requires
        last_good matches Some(g) ==> g < commit_indexes@.len() && commit_indexes@[g as int] < usize::MAX,
        first_bad matches Some(b) ==> b < commit_indexes@.len(),
    ensures
        r == match (last_good, first_bad) {
            (Some(g), Some(b)) => if commit_indexes@[b as int] > commit_indexes@[g as int] + 1 {
                commit_indexes@[b as int] - commit_indexes@[g as int] - 1
            } else {
                0
            },
            _ => missing_total as int,
        },
{
    match (last_good, first_bad) {
        (Some(g), Some(b)) => commit_indexes[b].saturating_sub(commit_indexes[g] + 1),
        _ => missing_total,
    }
}


// ---------------------------------------------------------------------------
// What a range compares
// ---------------------------------------------------------------------------
/// The analysed builds (newest first, by id) whose metrics a range compares:
/// the oldest against the newest, when they are different builds; as
/// positions `(compared, against)`.
pub open spec fn range_metric_pair(ids: Seq<i64>) -> Option<(int, int)> {
    if ids.len() > 0 && ids[0] != ids[ids.len() - 1] {
        Some((ids.len() - 1, 0))
    } else {
        None
    }
}

/// The analysed builds a range compares (see `range_metric_pair`).
pub fn range_metric_builds(build_ids: &Vec<i64>) -> (r: Option<(usize, usize)>)
    ensures
        match r {
            Some((a, b)) => range_metric_pair(build_ids@) == Some((a as int, b as int)),
            None => range_metric_pair(build_ids@) is None,
        },
{
    if build_ids.len() > 0 && build_ids[0] != build_ids[build_ids.len() - 1] {
        Some((build_ids.len() - 1, 0))
    } else {
        None
    }
}

/// The source files whose size the range comparison saw change, in the
/// comparison's order; none without a comparison.
pub fn changed_source_names(diff: &Option<BuildMetricDiff>) -> (out: Vec<String>)
    ensures
        match diff {
            Some(d) => out@.len() == d.source_files@.len() && forall|i: int|
                0 <= i < out@.len() ==> #[trigger] out@[i] == d.source_files@[i].name,
            None => out@.len() == 0,
        },
{
    let mut out: Vec<String> = Vec::new();
    if let Some(d) = diff {
        let mut i: usize = 0;
        while i < d.source_files.len()
            invariant
                i <= d.source_files.len(),
                out@.len() == i,
                forall|k: int| 0 <= k < i ==> #[trigger] out@[k] == d.source_files@[k].name,
            decreases d.source_files.len() - i,
        {
            out.push(copy_string(&d.source_files[i].name));
            i += 1;
        }
    }
    out
}

} // verus!
