//! The build history: recorded builds, their grouping into comparable
//! variants, commit timelines and the search for the commit that introduced
//! a regression.  Reading and writing the history database is done by the
//! caller; this module holds the decisions and the texts.
use vstd::prelude::*;

use crate::text::opt_text;
use crate::git::{CommitOrder, GitCommit};
use crate::metadata::Metadata;
use crate::sorting::{sort_by_key, sorted_by_key, SortKey, keep_first};
use crate::diff::first_n;
use crate::dto::DeltaEntryDto;
use crate::model::{GitMetadata, RustContext};
use crate::text::{
    chars_of, chars_replace, chars_split_all, chars_trim, copy_opt_string, copy_string, copy_strings, dec, dec_int,
    push_dec_int, trim, chars_split_once, lex_lt, compare_strings, Precedence, lemma_lex_irreflexive,
    lemma_lex_total, lemma_lex_transitive, lex_le, lemma_lex_le_total, lemma_lex_le_transitive, str_le, split_once_seq, first_match, lemma_first_match_found, lemma_first_match_none,
    dec_signed, join, join_chars, push_dec, push_dec_signed, push_str_chars, replace_char, split_all,
    str_eq, string_from, string_of, views,
};

verus! {

// ---------------------------------------------------------------------------
// Types
// ---------------------------------------------------------------------------
/// One recorded build.
#[derive(Debug, Clone, PartialEq)]
pub struct BuildRecord {
    pub id: i64,
    pub created_at: i64,
    pub elf_path: String,
    pub arch: String,
    pub linker_family: String,
    pub map_format: String,
    pub rom_bytes: u64,
    pub ram_bytes: u64,
    pub warning_count: u64,
    pub error_count: u64,
    pub metadata: Metadata,
    pub git: Option<GitMetadata>,
    pub rust_context: Option<RustContext>,
}

/// Why an object was linked, as recorded with a build.
#[derive(Debug, Clone, PartialEq, Eq)]
pub struct WhyLinkedRecord {
    pub target: String,
    pub kind: String,
    pub confidence: String,
    pub summary: String,
    pub current_size: u64,
}

/// A why-linked record as text: target, kind, confidence, summary and size.
pub type WhyText = (Seq<char>, Seq<char>, Seq<char>, Seq<char>, u64);

impl View for WhyLinkedRecord {
    type V = WhyText;

    open spec fn view(&self) -> WhyText {
        (self.target@, self.kind@, self.confidence@, self.summary@, self.current_size)
    }
}

/// How a trend value is shown.
#[derive(Debug, Clone, Copy, PartialEq, Eq, Structural)]
pub enum TrendFormat {
    Bytes,
    Count,
    Percent,
}

/// One point of a metric trend.
#[derive(Debug, Clone, PartialEq)]
pub struct TrendPoint {
    pub build_id: i64,
    pub created_at: i64,
    pub label: String,
    pub value: i64,
    pub format: TrendFormat,
    pub note: Option<String>,
}

/// A named change.
#[derive(Debug, Clone, PartialEq, Eq)]
pub struct ChangeEntry {
    pub name: String,
    pub delta: i64,
}

/// The largest increases of a commit.
#[derive(Debug, Clone, PartialEq, Eq, Default)]
pub struct TimelineTopIncreases {
    pub sections: Vec<ChangeEntry>,
    pub objects: Vec<ChangeEntry>,
    pub source_files: Vec<ChangeEntry>,
    pub symbols: Vec<ChangeEntry>,
}

/// One commit of a timeline with its build.
#[derive(Debug, Clone, PartialEq, Eq)]
pub struct CommitTimelineRow {
    pub repo_id: String,
    pub commit: String,
    pub short_commit: String,
    pub commit_time: String,
    pub author_name: String,
    pub subject: String,
    pub branch_names: Vec<String>,
    pub tag_names: Vec<String>,
    pub describe: Option<String>,
    pub build_profile: Option<String>,
    pub toolchain_id: Option<String>,
    pub target_id: Option<String>,
    pub configuration_fingerprint: Option<String>,
    pub rom_total: u64,
    pub ram_total: u64,
    pub rom_delta_vs_previous: Option<i64>,
    pub ram_delta_vs_previous: Option<i64>,
    pub rule_violations_count: u64,
    pub top_increases: TimelineTopIncreases,
}

/// Filters of a timeline.
#[derive(Debug, Clone, PartialEq, Eq, Default)]
pub struct TimelineFilters {
    pub branch: Option<String>,
    pub profile: Option<String>,
    pub toolchain: Option<String>,
    pub target: Option<String>,
}

/// A commit timeline.
#[derive(Debug, Clone, PartialEq, Eq)]
pub struct CommitTimelineReport {
    pub repo_id: String,
    pub order: String,
    pub filters: TimelineFilters,
    pub rows: Vec<CommitTimelineRow>,
}

/// Files changed in a range, by git and by the analysis.
#[derive(Debug, Clone, PartialEq, Eq)]
pub struct ChangedFilesSummary {
    pub git_changed_files: Vec<String>,
    pub changed_source_files_in_analysis: Vec<String>,
    pub intersection_files: Vec<String>,
    pub git_only_files_count: usize,
    pub analysis_only_files_count: usize,
    pub intersection_count: usize,
}

/// The commit of a range with the largest growth.
#[derive(Debug, Clone, PartialEq, Eq)]
pub struct WorstCommitSummary {
    pub commit: String,
    pub delta: i64,
    pub subject: String,
    pub date: String,
}

/// The first commit of a range with rule violations.
#[derive(Debug, Clone, PartialEq, Eq)]
pub struct FirstRuleViolationSummary {
    pub commit: String,
    pub rule_ids: Vec<String>,
    pub subject: String,
}

/// The comparison of a commit range.
#[derive(Debug, Clone, PartialEq, Eq)]
pub struct RangeDiffReport {
    pub repo_id: String,
    pub input_range_spec: String,
    pub comparison_mode: String,
    pub resolved_base: String,
    pub resolved_head: String,
    pub resolved_merge_base: Option<String>,
    pub order: String,
    pub total_commits_in_git_range: usize,
    pub analyzed_commits_count: usize,
    pub missing_analysis_commits_count: usize,
    pub first_analyzed_commit: Option<String>,
    pub last_analyzed_commit: Option<String>,
    pub cumulative_rom_delta: i64,
    pub cumulative_ram_delta: i64,
    pub worst_commit_by_rom: Option<WorstCommitSummary>,
    pub worst_commit_by_ram: Option<WorstCommitSummary>,
    pub first_rule_violation: Option<FirstRuleViolationSummary>,
    pub top_changed_sections: Vec<ChangeEntry>,
    pub top_changed_objects: Vec<ChangeEntry>,
    pub top_changed_source_files: Vec<ChangeEntry>,
    pub top_changed_symbols: Vec<ChangeEntry>,
    pub top_changed_rust_dependencies: Vec<ChangeEntry>,
    pub top_changed_rust_families: Vec<ChangeEntry>,
    pub changed_files_summary: Option<ChangedFilesSummary>,
    pub timeline_rows: Vec<CommitTimelineRow>,
}

/// What a regression search looks for.
#[derive(Debug, Clone, Copy, PartialEq, Eq, Structural)]
pub enum RegressionMode {
    FirstCrossing,
    FirstJump,
    FirstPresence,
    FirstViolation,
}

/// How sure a regression search is of its answer.
#[derive(Debug, Clone, Copy, PartialEq, Eq, Structural)]
pub enum RegressionConfidence {
    High,
    Medium,
    Low,
    Unknown,
}

/// What a regression search watches.
#[derive(Debug, Clone, Copy, PartialEq, Eq, Structural)]
pub enum RegressionDetector {
    Metric,
    Rule,
    Entity,
}

/// A commit at a boundary of a regression.
#[derive(Debug, Clone, PartialEq, Eq)]
pub struct RegressionOriginPoint {
    pub commit: String,
    pub short_commit: String,
    pub subject: String,
    pub value: Option<i64>,
}

/// The outcome of a regression search.
#[derive(Debug, Clone, PartialEq, Eq)]
pub struct RegressionSummary {
    pub searched_commit_count: usize,
    pub analyzed_commit_count: usize,
    pub missing_analysis_count: usize,
    pub confidence: RegressionConfidence,
    pub mixed_configuration: bool,
    pub reasoning: String,
}

/// The boundary of a regression.
#[derive(Debug, Clone, PartialEq, Eq)]
pub struct RegressionOrigin {
    pub last_good: Option<RegressionOriginPoint>,
    pub first_observed_bad: Option<RegressionOriginPoint>,
    pub first_bad_candidate: Option<RegressionOriginPoint>,
}

/// A commit of the transition window.
#[derive(Debug, Clone, PartialEq, Eq)]
pub struct RegressionWindowRow {
    pub commit: String,
    pub short_commit: String,
    pub subject: String,
    pub status: String,
    pub value: Option<i64>,
}

/// The evidence gathered for a regression.
#[derive(Debug, Clone, PartialEq, Eq, Default)]
pub struct RegressionEvidence {
    pub transition_window: Vec<RegressionWindowRow>,
    pub top_growth: TimelineTopIncreases,
    pub changed_files: Option<ChangedFilesSummary>,
    pub related_rule_hits: Vec<String>,
    pub narrowed_commits: Vec<String>,
}

/// An analysed commit of a regression search.
#[derive(Debug, Clone)]
pub struct RegressionPoint {
    pub commit_index: usize,
    pub commit: GitCommit,
    pub build: BuildRecord,
}

/// Where a regression search found the change: the watched values per
/// analysed commit, the last good and the first bad index.
#[derive(Debug, Clone, PartialEq, Eq, Default)]
pub struct DetectionResult {
    pub values: Vec<Option<i64>>,
    pub last_good_index: Option<usize>,
    pub first_bad_index: Option<usize>,
}

// ---------------------------------------------------------------------------
// Variants and filters
// ---------------------------------------------------------------------------
/// The value of a metadata key, or `default`.
pub open spec fn meta_or(m: Map<Seq<char>, Seq<char>>, key: Seq<char>, default: Seq<char>) -> Seq<char> {
    if m.contains_key(key) {
        m[key]
    } else {
        default
    }
}

/// The first two `|`-separated fields of a configuration fingerprint.
pub open spec fn fingerprint_text(value: Option<Seq<char>>) -> Seq<char> {
    match value {
        None => Seq::empty(),
        Some(v) => {
            let parts = split_all(v, seq!['|']);
            join(
                if parts.len() <= 2 {
                    parts
                } else {
                    parts.take(2)
                },
                seq!['|'],
            )
        },
    }
}

/// The variant of a build: profile, toolchain (else the linker family),
/// target and the leading fields of the configuration fingerprint, joined by `|`.
pub open spec fn variant_text(m: Map<Seq<char>, Seq<char>>, linker_family: Seq<char>) -> Seq<char> {
    meta_or(m, "build.profile"@, Seq::empty()) + seq!['|'] + meta_or(m, "toolchain.id"@, linker_family)
        + seq!['|'] + meta_or(m, "target.id"@, Seq::empty()) + seq!['|'] + fingerprint_text(
        if m.contains_key("config.fingerprint"@) {
            Some(m["config.fingerprint"@])
        } else {
            None
        },
    )
}

/// The first two `|`-separated fields of a configuration fingerprint, joined by `|`.
pub fn normalized_config_fingerprint(value: Option<&String>) -> (r: String)
    ensures
        r@ == fingerprint_text(
            match value {
                Some(v) => Some(v@),
                None => None,
            },
        ),
{
    match value {
        None => String::new(),
        Some(v) => {
            let c = chars_of(v.as_str());
            let bar: Vec<char> = vec!['|'];
            assert(bar@ =~= seq!['|']);
            let mut parts = chars_split_all(&c, &bar);
            let ghost all = views(parts@);
            if parts.len() > 2 {
                parts.truncate(2);
                assert(views(parts@) =~= all.take(2));
            }
            string_of(&join_chars(&parts, &bar))
        },
    }
}

/// The value of a metadata key, or `default`.
fn meta_or_default(m: &Metadata, key: &str, default: &String) -> (r: String)
    requires
        m.wf(),
    ensures
        r@ == meta_or(m@, key@, default@),
{
    match m.get(key) {
        Some(v) => copy_string(v),
        None => copy_string(default),
    }
}

/// The variant of a build, which groups builds that can be compared: the
/// source-lines part of the configuration fingerprint does not count.
pub fn variant_key(build: &BuildRecord) -> (r: String)
    requires
        build.metadata.wf(),
    ensures
        r@ == variant_text(build.metadata@, build.linker_family@),
{
    let empty = String::new();
    let m = &build.metadata;
    let mut out = chars_of(meta_or_default(m, "build.profile", &empty).as_str());
    out.push('|');
    push_str_chars(&mut out, meta_or_default(m, "toolchain.id", &build.linker_family).as_str());
    out.push('|');
    push_str_chars(&mut out, meta_or_default(m, "target.id", &empty).as_str());
    out.push('|');
    let fp = m.get("config.fingerprint");
    push_str_chars(&mut out, normalized_config_fingerprint(fp).as_str());
    string_of(&out)
}

/// Whether a build matches the timeline filters that are given.
pub open spec fn filters_match(
    m: Map<Seq<char>, Seq<char>>,
    linker_family: Seq<char>,
    branch_name: Option<Seq<char>>,
    profile: Option<Seq<char>>,
    toolchain: Option<Seq<char>>,
    target: Option<Seq<char>>,
    branch: Option<Seq<char>>,
) -> bool {
    &&& profile matches Some(p) ==> m.contains_key("build.profile"@) && m["build.profile"@] == p
    &&& toolchain matches Some(t) ==> meta_or(m, "toolchain.id"@, linker_family) == t
    &&& target matches Some(t) ==> m.contains_key("target.id"@) && m["target.id"@] == t
    &&& branch matches Some(b) ==> branch_name == Some(b)
}

/// Whether a metadata key holds `want`.
fn meta_is(m: &Metadata, key: &str, want: &str) -> (r: bool)
    requires
        m.wf(),
    ensures
        r == (m@.contains_key(key@) && m@[key@] == want@),
{
    match m.get(key) {
        Some(v) => str_eq(v.as_str(), want),
        None => false,
    }
}

/// Whether a build matches the timeline filters that are given.
pub fn matches_filters(
    build: &BuildRecord,
    profile: Option<&str>,
    toolchain: Option<&str>,
    target: Option<&str>,
    branch: Option<&str>,
) -> (r: bool)
    requires
        build.metadata.wf(),
    ensures
        r == filters_match(
            build.metadata@,
            build.linker_family@,
            match build.git {
                Some(g) => opt_text(g.branch_name),
                None => None,
            },
            match profile {
                Some(p) => Some(p@),
                None => None,
            },
            match toolchain {
                Some(p) => Some(p@),
                None => None,
            },
            match target {
                Some(p) => Some(p@),
                None => None,
            },
            match branch {
                Some(p) => Some(p@),
                None => None,
            },
        ),
{
    if let Some(p) = profile {
        if !meta_is(&build.metadata, "build.profile", p) {
            return false;
        }
    }
    if let Some(t) = toolchain {
        let value = meta_or_default(&build.metadata, "toolchain.id", &build.linker_family);
        if !str_eq(value.as_str(), t) {
            return false;
        }
    }
    if let Some(t) = target {
        if !meta_is(&build.metadata, "target.id", t) {
            return false;
        }
    }
    if let Some(b) = branch {
        let ok = match &build.git {
            Some(g) => match &g.branch_name {
                Some(name) => str_eq(name.as_str(), b),
                None => false,
            },
            None => false,
        };
        if !ok {
            return false;
        }
    }
    true
}

// ---------------------------------------------------------------------------
// Regression search
// ---------------------------------------------------------------------------
/// How sure a regression search is: unknown without analysed commits or
/// without a bad commit; low when configurations are mixed or nothing was
/// good before the first commit; high when the boundary is two adjacent
/// analysed commits with nothing missing between them; otherwise medium when
/// some analysis is missing and low when none is.
pub open spec fn confidence_spec(
    no_analyzed: bool,
    last_good: Option<usize>,
    first_bad: Option<usize>,
    missing_between_boundary: usize,
    missing_total: usize,
    mixed_configuration: bool,
) -> RegressionConfidence {
    if no_analyzed {
        RegressionConfidence::Unknown
    } else {
        match first_bad {
            None => RegressionConfidence::Unknown,
            Some(bad) => if mixed_configuration {
                RegressionConfidence::Low
            } else {
                match last_good {
                    None => if bad == 0 {
                        RegressionConfidence::Low
                    } else {
                        RegressionConfidence::Medium
                    },
                    Some(good) => if missing_between_boundary == 0 && bad == good + 1 {
                        RegressionConfidence::High
                    } else if missing_total > 0 {
                        RegressionConfidence::Medium
                    } else {
                        RegressionConfidence::Low
                    },
                }
            },
        }
    }
}

/// How sure a regression search is of the boundary it found.
pub fn classify_regression_confidence(
    no_analyzed: bool,
    last_good_index: Option<usize>,
    first_bad_index: Option<usize>,
    missing_between_boundary: usize,
    missing_total: usize,
    mixed_configuration: bool,
) -> (r: RegressionConfidence)
    ensures
        r == confidence_spec(
            no_analyzed,
            last_good_index,
            first_bad_index,
            missing_between_boundary,
            missing_total,
            mixed_configuration,
        ),
{
    if no_analyzed {
        return RegressionConfidence::Unknown;
    }
    let first_bad = match first_bad_index {
        Some(i) => i,
        None => return RegressionConfidence::Unknown,
    };
    if mixed_configuration {
        return RegressionConfidence::Low;
    }
    let last_good = match last_good_index {
        Some(i) => i,
        None => return if first_bad == 0 {
            RegressionConfidence::Low
        } else {
            RegressionConfidence::Medium
        },
    };
    if missing_between_boundary == 0 && last_good < usize::MAX && first_bad == last_good + 1 {
        return RegressionConfidence::High;
    }
    if missing_total > 0 {
        return RegressionConfidence::Medium;
    }
    RegressionConfidence::Low
}

/// Differences between watched values fit in `i64`.
pub open spec fn differences_fit(values: Seq<Option<i64>>) -> bool {
    forall|i: int, j: int|
        0 <= i < values.len() && 0 <= j < values.len() && values[i] is Some && values[j] is Some
            ==> i64::MIN <= (#[trigger] values[i])->0 - (#[trigger] values[j])->0 <= i64::MAX
}

/// The first-crossing scan from `i`: `(last good, first bad)`.
pub open spec fn crossing_scan(
    values: Seq<Option<i64>>,
    i: int,
    baseline: int,
    threshold: int,
    last_good: int,
) -> (Option<int>, Option<int>)
    decreases values.len() - i,
{
    if i < 0 || i >= values.len() {
        (Some(last_good), None)
    } else {
        match values[i] {
            None => crossing_scan(values, i + 1, baseline, threshold, last_good),
            Some(v) => if v - baseline >= threshold {
                (Some(last_good), Some(i))
            } else {
                crossing_scan(values, i + 1, baseline, threshold, i)
            },
        }
    }
}

/// The first-jump scan from `i`, given the last value seen: `(last good, first bad)`.
pub open spec fn jump_scan(
    values: Seq<Option<i64>>,
    i: int,
    threshold: int,
    seen: Option<(int, int)>,
) -> (Option<int>, Option<int>)
    decreases values.len() - i,
{
    if i < 0 || i >= values.len() {
        (
            match seen {
                Some((k, _)) => Some(k),
                None => None,
            },
            None,
        )
    } else {
        match values[i] {
            None => jump_scan(values, i + 1, threshold, seen),
            Some(v) => match seen {
                Some((k, pv)) => if v - pv >= threshold {
                    (Some(k), Some(i))
                } else {
                    jump_scan(values, i + 1, threshold, Some((i, v as int)))
                },
                None => jump_scan(values, i + 1, threshold, Some((i, v as int))),
            },
        }
    }
}

/// Where a regression starts in the watched values, one per analysed commit:
/// crossing compares every value with the first one (which must be known)
/// against `threshold`; a jump compares each known value with the previous
/// known one against `jump_threshold` (zero when not given); other modes
/// find nothing here.
pub open spec fn detection_spec(
    values: Seq<Option<i64>>,
    mode: RegressionMode,
    threshold: i64,
    jump_threshold: Option<i64>,
) -> (Option<int>, Option<int>) {
    if values.len() == 0 {
        (None, None)
    } else {
        match mode {
            RegressionMode::FirstCrossing => match values[0] {
                None => (None, None),
                Some(b) => crossing_scan(values, 1, b as int, threshold as int, 0),
            },
            RegressionMode::FirstJump => jump_scan(
                values,
                0,
                match jump_threshold {
                    Some(t) => t as int,
                    None => 0,
                },
                None,
            ),
            _ => (None, None),
        }
    }
}

/// Finds where a regression starts in the watched values, one per analysed
/// commit in order.
pub fn detect_regression(
    values: Vec<Option<i64>>,
    mode: RegressionMode,
    threshold: i64,
    jump_threshold: Option<i64>,
) -> (out: DetectionResult)
    requires
        differences_fit(values@),
    ensures
        out.values@ == values@,
        (
            match out.last_good_index {
                Some(i) => Some(i as int),
                None => None,
            },
            match out.first_bad_index {
                Some(i) => Some(i as int),
                None => None,
            },
        ) == detection_spec(values@, mode, threshold, jump_threshold),
{
    let n = values.len();
    if n == 0 {
        return DetectionResult { values, last_good_index: None, first_bad_index: None };
    }
    let ghost vs = values@;
    match mode {
        RegressionMode::FirstCrossing => {
            let baseline = match values[0] {
                Some(b) => b,
                None => return DetectionResult { values, last_good_index: None, first_bad_index: None },
            };
            let mut last_good: usize = 0;
            let mut index: usize = 1;
            while index < n
                invariant
                    1 <= index <= n,
                    n == values@.len(),
                    vs == values@,
                    last_good < index,
                    values@[0] == Some(baseline),
                    differences_fit(values@),
                    detection_spec(vs, mode, threshold, jump_threshold) == crossing_scan(
                        vs,
                        index as int,
                        baseline as int,
                        threshold as int,
                        last_good as int,
                    ),
                decreases n - index,
            {
                match values[index] {
                    None => {},
                    Some(v) => {
                        assert(i64::MIN <= v - baseline <= i64::MAX) by {
                            assert(values@[index as int] is Some && values@[0] is Some);
                        }
                        if v - baseline >= threshold {
                            return DetectionResult {
                                values,
                                last_good_index: Some(last_good),
                                first_bad_index: Some(index),
                            };
                        }
                        last_good = index;
                    },
                }
                index += 1;
            }
            DetectionResult { values, last_good_index: Some(last_good), first_bad_index: None }
        },
        RegressionMode::FirstJump => {
            let jump = match jump_threshold {
                Some(t) => t,
                None => 0,
            };
            let mut seen: Option<(usize, i64)> = None;
            let mut index: usize = 0;
            while index < n
                invariant
                    index <= n,
                    n == values@.len(),
                    vs == values@,
                    differences_fit(values@),
                    match seen {
                        Some((k, pv)) => k < index && values@[k as int] == Some(pv),
                        None => true,
                    },
                    detection_spec(vs, mode, threshold, jump_threshold) == jump_scan(
                        vs,
                        index as int,
                        jump as int,
                        match seen {
                            Some((k, pv)) => Some((k as int, pv as int)),
                            None => None,
                        },
                    ),
                decreases n - index,
            {
                match values[index] {
                    None => {},
                    Some(v) => {
                        match seen {
                            Some((k, pv)) => {
                                assert(i64::MIN <= v - pv <= i64::MAX) by {
                                    assert(values@[index as int] is Some && values@[k as int] is Some);
                                }
                                if v - pv >= jump {
                                    return DetectionResult {
                                        values,
                                        last_good_index: Some(k),
                                        first_bad_index: Some(index),
                                    };
                                }
                            },
                            None => {},
                        }
                        seen = Some((index, v));
                    },
                }
                index += 1;
            }
            let last_good_index = match seen {
                Some((k, _)) => Some(k),
                None => None,
            };
            DetectionResult { values, last_good_index, first_bad_index: None }
        },
        _ => DetectionResult { values, last_good_index: None, first_bad_index: None },
    }
}

/// The transition window: the last good and the first bad commit, each with
/// its watched value.
pub fn build_transition_window(analyzed: &Vec<RegressionPoint>, detection: &DetectionResult) -> (rows: Vec<
    RegressionWindowRow,
>)
    requires
        detection.last_good_index matches Some(i) ==> i < analyzed@.len() && i < detection.values@.len(),
        detection.first_bad_index matches Some(i) ==> i < analyzed@.len() && i < detection.values@.len(),
    ensures
        rows@.len() == (if detection.last_good_index is Some {
            1int
        } else {
            0
        }) + (if detection.first_bad_index is Some {
            1int
        } else {
            0
        }),
        forall|k: int|
            0 <= k < rows@.len() ==> {
                let i = if k == 0 && detection.last_good_index is Some {
                    detection.last_good_index->0
                } else {
                    detection.first_bad_index->0
                };
                &&& (#[trigger] rows@[k]).commit == analyzed@[i as int].commit.commit
                &&& rows@[k].short_commit == analyzed@[i as int].commit.short_commit
                &&& rows@[k].subject == analyzed@[i as int].commit.subject
                &&& rows@[k].value == detection.values@[i as int]
                &&& rows@[k].status@ == if k == 0 && detection.last_good_index is Some {
                    "good"@
                } else {
                    "bad"@
                }
            },
{
    let mut rows: Vec<RegressionWindowRow> = Vec::new();
    if let Some(index) = detection.last_good_index {
        let c = &analyzed[index].commit;
        rows.push(
            RegressionWindowRow {
                commit: copy_string(&c.commit),
                short_commit: copy_string(&c.short_commit),
                subject: copy_string(&c.subject),
                status: string_from("good"),
                value: detection.values[index],
            },
        );
    }
    if let Some(index) = detection.first_bad_index {
        let c = &analyzed[index].commit;
        rows.push(
            RegressionWindowRow {
                commit: copy_string(&c.commit),
                short_commit: copy_string(&c.short_commit),
                subject: copy_string(&c.subject),
                status: string_from("bad"),
                value: detection.values[index],
            },
        );
    }
    rows
}

/// The midpoints a bisection from `left` towards `right` visits in at most `steps` steps.
pub open spec fn bisect_mids(left: int, right: int, steps: int) -> Seq<int>
    decreases steps,
{
    if steps <= 0 || right <= left + 1 {
        Seq::empty()
    } else {
        let mid = left + (right - left) / 2;
        seq![mid] + bisect_mids(mid, right, steps - 1)
    }
}

/// The commits a bisection between the last good and the first bad commit
/// would test, at most `max_steps` of them.
pub fn build_narrowed_commits(analyzed: &Vec<RegressionPoint>, detection: &DetectionResult, max_steps: usize) -> (out: Vec<
    String,
>)
    requires
        detection.first_bad_index matches Some(i) ==> i < analyzed@.len(),
    ensures
        match (detection.last_good_index, detection.first_bad_index) {
            (Some(l), Some(r)) => {
                let m = bisect_mids(l as int, r as int, max_steps as int);
                &&& out@.len() == m.len()
                &&& forall|k: int|
                    0 <= k < out@.len() ==> #[trigger] out@[k] == analyzed@[m[k]].commit.short_commit
            },
            _ => out@.len() == 0,
        },
{
    let mut left = match detection.last_good_index {
        Some(l) => l,
        None => return Vec::new(),
    };
    let right = match detection.first_bad_index {
        Some(r) => r,
        None => return Vec::new(),
    };
    let ghost l0 = left as int;
    let ghost full = bisect_mids(l0, right as int, max_steps as int);
    let ghost mut done: Seq<int> = Seq::empty();
    let mut rows: Vec<String> = Vec::new();
    let mut steps: usize = 0;
    assert(full =~= done + bisect_mids(left as int, right as int, max_steps - steps));
    while right > left && right - left > 1 && steps < max_steps
        invariant
            right < analyzed@.len(),
            steps <= max_steps,
            full == bisect_mids(l0, right as int, max_steps as int),
            full == done + bisect_mids(left as int, right as int, max_steps - steps),
            done.len() == steps,
            rows@.len() == steps,
            forall|k: int| 0 <= k < steps ==> 0 <= #[trigger] done[k] < analyzed@.len(),
            forall|k: int|
                0 <= k < steps ==> #[trigger] rows@[k] == analyzed@[done[k]].commit.short_commit,
        decreases right - left,
    {
        let mid = left + (right - left) / 2;
        proof {
            let rest = bisect_mids(mid as int, right as int, max_steps - steps - 1);
            assert(bisect_mids(left as int, right as int, max_steps - steps) == seq![mid as int] + rest);
            assert(done + (seq![mid as int] + rest) =~= done.push(mid as int) + rest);
            done = done.push(mid as int);
        }
        rows.push(copy_string(&analyzed[mid].commit.short_commit));
        left = mid;
        steps += 1;
    }
    proof {
        assert(bisect_mids(left as int, right as int, max_steps - steps) =~= Seq::<int>::empty());
        assert(full =~= done);
    }
    rows
}

/// Every commit a bisection tests lies strictly between the two it starts
/// from, and each is later than the one before.
pub proof fn law_bisection_stays_inside(left: int, right: int, steps: int)
    ensures
        forall|k: int|
            0 <= k < bisect_mids(left, right, steps).len() ==> left < #[trigger] bisect_mids(left, right, steps)[k]
                < right,
        forall|k: int|
            0 < k < bisect_mids(left, right, steps).len() ==> bisect_mids(left, right, steps)[k - 1]
                < #[trigger] bisect_mids(left, right, steps)[k],
    decreases steps,
{
    if steps > 0 && right > left + 1 {
        let mid = left + (right - left) / 2;
        law_bisection_stays_inside(mid, right, steps - 1);
        let m = bisect_mids(left, right, steps);
        let t = bisect_mids(mid, right, steps - 1);
        assert forall|k: int| 0 <= k < m.len() implies left < #[trigger] m[k] < right by {
            if k > 0 {
                assert(m[k] == t[k - 1]);
            }
        }
        assert forall|k: int| 0 < k < m.len() implies m[k - 1] < #[trigger] m[k] by {
            assert(m[k] == t[k - 1]);
            if k > 1 {
                assert(m[k - 1] == t[k - 2]);
            }
        }
    }
}

// ---------------------------------------------------------------------------
// Texts
// ---------------------------------------------------------------------------
/// A signed number with its sign: `+5`, `-3`, `+0`.
pub fn format_signed(value: i64) -> (r: String)
    ensures
        r@ == dec_signed(value as int),
{
    let mut out: Vec<char> = Vec::new();
    push_dec_signed(&mut out, value);
    assert(out@ =~= dec_signed(value as int));
    string_of(&out)
}

/// The HTML badge of a delta.
pub open spec fn delta_badge(value: Option<i64>) -> Seq<char> {
    match value {
        Some(d) => "<span class=\"delta "@ + (if d > 0 {
            "pos"@
        } else if d < 0 {
            "neg"@
        } else {
            "zero"@
        }) + "\">"@ + dec_signed(d as int) + "</span>"@,
        None => "<span class=\"delta na\">-</span>"@,
    }
}

/// The HTML badge of a delta.
pub fn render_delta_badge(value: Option<i64>) -> (r: String)
    ensures
        r@ == delta_badge(value),
{
    match value {
        Some(d) => {
            let mut out = chars_of("<span class=\"delta ");
            if d > 0 {
                push_str_chars(&mut out, "pos");
            } else if d < 0 {
                push_str_chars(&mut out, "neg");
            } else {
                push_str_chars(&mut out, "zero");
            }
            push_str_chars(&mut out, "\">");
            push_dec_signed(&mut out, d);
            push_str_chars(&mut out, "</span>");
            string_of(&out)
        },
        None => string_from("<span class=\"delta na\">-</span>"),
    }
}

/// Text with `&`, `<` and `>` escaped for HTML.
pub fn escape_html(text: &str) -> (r: String)
    ensures
        r@ == replace_char(
            replace_char(replace_char(text@, '&', "&amp;"@), '<', "&lt;"@),
            '>',
            "&gt;"@,
        ),
{
    let c = chars_of(text);
    let a = chars_replace(&c, '&', &chars_of("&amp;"));
    let b = chars_replace(&a, '<', &chars_of("&lt;"));
    let d = chars_replace(&b, '>', &chars_of("&gt;"));
    string_of(&d)
}

/// `s` without leading `./` components.
pub open spec fn strip_dot_slash(s: Seq<char>) -> Seq<char>
    decreases s.len(),
{
    if s.len() >= 2 && s[0] == '.' && s[1] == '/' {
        strip_dot_slash(s.skip(2))
    } else {
        s
    }
}

/// A repository path with `/` separators and no leading `./`.
pub fn normalize_repo_path(path: &str) -> (r: String)
    ensures
        r@ == strip_dot_slash(replace_char(path@, '\\', seq!['/'])),
{
    let c = chars_of(path);
    let slash: Vec<char> = vec!['/'];
    let s = chars_replace(&c, '\\', &slash);
    assert(slash@ =~= seq!['/']);
    let mut i: usize = 0;
    assert(s@.skip(0) =~= s@);
    while i < s.len() && s.len() - i >= 2 && s[i] == '.' && s[i + 1] == '/'
        invariant
            i <= s.len(),
            strip_dot_slash(s@) == strip_dot_slash(s@.skip(i as int)),
        decreases s.len() - i,
    {
        let ghost t = s@.skip(i as int);
        assert(t[0] == s@[i as int] && t[1] == s@[i + 1]);
        assert(t.skip(2) =~= s@.skip(i + 2));
        i += 2;
    }
    proof {
        let t = s@.skip(i as int);
        if t.len() >= 2 {
            assert(t[0] == s@[i as int] && t[1] == s@[i + 1]);
        }
    }
    string_of(&slice_chars_from(&s, i))
}

/// The characters from `i` on.
fn slice_chars_from(s: &Vec<char>, i: usize) -> (out: Vec<char>)
    requires
        i <= s.len(),
    ensures
        out@ == s@.skip(i as int),
{
    let out = crate::text::slice_chars(s, i, s.len());
    assert(out@ =~= s@.skip(i as int));
    out
}

/// The name of a commit order.
pub fn commit_order_name(order: CommitOrder) -> (r: &'static str)
    ensures
        r@ == match order {
            CommitOrder::Timestamp => "timestamp"@,
            CommitOrder::Ancestry => "ancestry"@,
        },
{
    match order {
        CommitOrder::Timestamp => "timestamp",
        CommitOrder::Ancestry => "ancestry",
    }
}

/// The parts of the git summary of a build: short commit, branch (or
/// `detached`), description, `dirty`.
pub open spec fn git_summary_parts(g: GitMetadata) -> Seq<Seq<char>> {
    let a = seq![g.short_commit_hash@];
    let b = match g.branch_name {
        Some(br) => a.push(br@),
        None => if g.detached_head {
            a.push("detached"@)
        } else {
            a
        },
    };
    let c = match g.describe {
        Some(d) => b.push(d@),
        None => b,
    };
    if g.is_dirty {
        c.push("dirty"@)
    } else {
        c
    }
}

/// The git summary shown with a build: ` | git=` and the parts joined by ` / `.
pub fn format_git_summary(git: Option<&GitMetadata>) -> (r: String)
    ensures
        r@ == match git {
            None => Seq::empty(),
            Some(g) => " | git="@ + join(git_summary_parts(*g), " / "@),
        },
{
    let g = match git {
        None => return String::new(),
        Some(g) => g,
    };
    let mut parts: Vec<Vec<char>> = vec![chars_of(g.short_commit_hash.as_str())];
    let ghost p0 = views(parts@);
    assert(p0 =~= seq![g.short_commit_hash@]);
    if let Some(branch) = &g.branch_name {
        parts.push(chars_of(branch.as_str()));
    } else if g.detached_head {
        parts.push(chars_of("detached"));
    }
    let ghost p1 = views(parts@);
    if let Some(d) = &g.describe {
        parts.push(chars_of(d.as_str()));
    }
    let ghost p2 = views(parts@);
    if g.is_dirty {
        parts.push(chars_of("dirty"));
    }
    proof {
        let a = seq![g.short_commit_hash@];
        assert(views(parts@) =~= git_summary_parts(*g));
    }
    let mut out = chars_of(" | git=");
    let joined = join_chars(&parts, &chars_of(" / "));
    push_all_chars(&mut out, &joined);
    string_of(&out)
}

/// Appends `src` to `out`.
fn push_all_chars(out: &mut Vec<char>, src: &Vec<char>)
    ensures
        final(out)@ == old(out)@ + src@,
{
    crate::text::push_all(out, src);
}

// ---------------------------------------------------------------------------
// Regression queries
// ---------------------------------------------------------------------------
/// Whether a regression query is well formed: a key that is not blank, and
/// the thresholds its detector and mode need.  The error says what is wrong.
pub open spec fn regression_query_check(
    detector: RegressionDetector,
    key: Seq<char>,
    mode: RegressionMode,
    threshold: Option<i64>,
    has_threshold_percent: bool,
    jump_threshold: Option<i64>,
) -> Result<(), Seq<char>> {
    if trim(key).len() == 0 {
        Err("regression detector key must not be empty"@)
    } else {
        match detector {
            RegressionDetector::Metric => match mode {
                RegressionMode::FirstCrossing => if threshold is Some && has_threshold_percent {
                    Err("use either --threshold or --threshold-percent, not both"@)
                } else if threshold is None && !has_threshold_percent {
                    Err("metric first-crossing requires --threshold or --threshold-percent"@)
                } else {
                    Ok(())
                },
                RegressionMode::FirstJump => if jump_threshold is None {
                    Err("metric first-jump requires --jump-threshold"@)
                } else {
                    Ok(())
                },
                _ => Err("metric detector supports only first-crossing or first-jump"@),
            },
            RegressionDetector::Rule => if mode != RegressionMode::FirstViolation {
                Err("rule detector supports only first-violation"@)
            } else {
                Ok(())
            },
            RegressionDetector::Entity => if mode != RegressionMode::FirstPresence {
                Err("entity detector supports only first-presence"@)
            } else {
                Ok(())
            },
        }
    }
}

/// Checks a regression query; whether a threshold in percent was given is all
/// that matters of it here.
pub fn validate_regression_query(
    detector_type: RegressionDetector,
    key: &str,
    mode: RegressionMode,
    threshold: Option<i64>,
    has_threshold_percent: bool,
    jump_threshold: Option<i64>,
) -> (r: Result<(), String>)
    ensures
        match r {
            Ok(()) => regression_query_check(detector_type, key@, mode, threshold, has_threshold_percent, jump_threshold)
                is Ok,
            Err(e) => regression_query_check(detector_type, key@, mode, threshold, has_threshold_percent, jump_threshold)
                == Err::<(), Seq<char>>(e@),
        },
{
    let k = chars_of(key);
    if chars_trim(&k).len() == 0 {
        return Err("regression detector key must not be empty".to_owned());
    }
    match detector_type {
        RegressionDetector::Metric => match mode {
            RegressionMode::FirstCrossing => {
                if threshold.is_some() && has_threshold_percent {
                    return Err("use either --threshold or --threshold-percent, not both".to_owned());
                }
                if threshold.is_none() && !has_threshold_percent {
                    return Err("metric first-crossing requires --threshold or --threshold-percent".to_owned());
                }
            },
            RegressionMode::FirstJump => {
                if jump_threshold.is_none() {
                    return Err("metric first-jump requires --jump-threshold".to_owned());
                }
            },
            _ => {
                return Err("metric detector supports only first-crossing or first-jump".to_owned());
            },
        },
        RegressionDetector::Rule => {
            if mode != RegressionMode::FirstViolation {
                return Err("rule detector supports only first-violation".to_owned());
            }
        },
        RegressionDetector::Entity => {
            if mode != RegressionMode::FirstPresence {
                return Err("entity detector supports only first-presence".to_owned());
            }
        },
    }
    Ok(())
}

/// The name of a detector.
pub open spec fn detector_name(d: RegressionDetector) -> Seq<char> {
    match d {
        RegressionDetector::Metric => "Metric"@,
        RegressionDetector::Rule => "Rule"@,
        RegressionDetector::Entity => "Entity"@,
    }
}

/// The name of a confidence level.
pub open spec fn regression_confidence_name(c: RegressionConfidence) -> Seq<char> {
    match c {
        RegressionConfidence::High => "High"@,
        RegressionConfidence::Medium => "Medium"@,
        RegressionConfidence::Low => "Low"@,
        RegressionConfidence::Unknown => "Unknown"@,
    }
}

/// What a detector found, in words.
pub open spec fn detector_label(d: RegressionDetector, mode: RegressionMode) -> Seq<char> {
    match d {
        RegressionDetector::Metric => match mode {
            RegressionMode::FirstCrossing => "first exceeded threshold"@,
            RegressionMode::FirstJump => "first crossed jump threshold"@,
            _ => "matched"@,
        },
        RegressionDetector::Rule => "first became active"@,
        RegressionDetector::Entity => "was first observed"@,
    }
}

/// Where the boundary of a regression lies, in words.
pub open spec fn boundary_text(last_good: Option<usize>, fb: usize) -> Seq<char> {
    match last_good {
        Some(lg) => "between analyzed commits "@ + dec(lg as nat) + " and "@ + dec(fb as nat),
        None => "at the first analyzed bad commit index "@ + dec(fb as nat),
    }
}

/// The first observed value of a regression, in words (nothing when unknown).
pub open spec fn first_value_text(values: Seq<Option<i64>>, fb: usize) -> Seq<char> {
    if fb < values.len() && values[fb as int] is Some {
        "first observed value is "@ + dec_int(values[fb as int]->0 as int) + ". "@
    } else {
        Seq::empty()
    }
}

/// How sure a regression search is, in words.
pub open spec fn confidence_text(confidence: RegressionConfidence, missing: usize) -> Seq<char> {
    if missing > 0 {
        dec(missing as nat) + " commits in the boundary have no stored analysis, so confidence is "@
            + regression_confidence_name(confidence) + "."@
    } else {
        "No missing analyzed commits around the boundary; confidence is "@ + regression_confidence_name(
            confidence,
        ) + "."@
    }
}

/// The explanation of a regression search.
pub open spec fn regression_reasoning_text(
    d: RegressionDetector,
    key: Seq<char>,
    mode: RegressionMode,
    values: Seq<Option<i64>>,
    last_good: Option<usize>,
    first_bad: Option<usize>,
    confidence: RegressionConfidence,
    missing: usize,
) -> Seq<char> {
    match first_bad {
        None => "No analyzed commit matched detector "@ + detector_name(d) + " for '"@ + key
            + "' in the requested range."@,
        Some(fb) => detector_name(d) + " "@ + detector_label(d, mode) + " for '"@ + key + "' "@
            + boundary_text(last_good, fb) + "; "@ + first_value_text(values, fb) + confidence_text(
            confidence,
            missing,
        ),
    }
}

fn push_boundary(v: &mut Vec<char>, last_good: Option<usize>, fb: usize)
    ensures
        final(v)@ == old(v)@ + boundary_text(last_good, fb),
{
    match last_good {
        Some(lg) => {
            push_str_chars(v, "between analyzed commits ");
            push_dec(v, lg as u64);
            push_str_chars(v, " and ");
            push_dec(v, fb as u64);
        },
        None => {
            push_str_chars(v, "at the first analyzed bad commit index ");
            push_dec(v, fb as u64);
        },
    }
}

fn push_first_value(v: &mut Vec<char>, values: &Vec<Option<i64>>, fb: usize)
    ensures
        final(v)@ == old(v)@ + first_value_text(values@, fb),
{
    if fb < values.len() {
        if let Some(value) = values[fb] {
            push_str_chars(v, "first observed value is ");
            push_dec_int(v, value);
            push_str_chars(v, ". ");
            return;
        }
    }
    assert(v@ =~= old(v)@ + first_value_text(values@, fb));
}

fn push_confidence_text(v: &mut Vec<char>, confidence: RegressionConfidence, missing: usize)
    ensures
        final(v)@ == old(v)@ + confidence_text(confidence, missing),
{
    if missing > 0 {
        push_dec(v, missing as u64);
        push_str_chars(v, " commits in the boundary have no stored analysis, so confidence is ");
        push_confidence_name(v, confidence);
        push_str_chars(v, ".");
    } else {
        push_str_chars(v, "No missing analyzed commits around the boundary; confidence is ");
        push_confidence_name(v, confidence);
        push_str_chars(v, ".");
    }
}

fn push_detector_label(v: &mut Vec<char>, d: RegressionDetector, mode: RegressionMode)
    ensures
        final(v)@ == old(v)@ + detector_label(d, mode),
{
    match d {
        RegressionDetector::Metric => match mode {
            RegressionMode::FirstCrossing => push_str_chars(v, "first exceeded threshold"),
            RegressionMode::FirstJump => push_str_chars(v, "first crossed jump threshold"),
            _ => push_str_chars(v, "matched"),
        },
        RegressionDetector::Rule => push_str_chars(v, "first became active"),
        RegressionDetector::Entity => push_str_chars(v, "was first observed"),
    }
}

fn push_detector_name(v: &mut Vec<char>, d: RegressionDetector)
    ensures
        final(v)@ == old(v)@ + detector_name(d),
{
    match d {
        RegressionDetector::Metric => push_str_chars(v, "Metric"),
        RegressionDetector::Rule => push_str_chars(v, "Rule"),
        RegressionDetector::Entity => push_str_chars(v, "Entity"),
    }
}

fn push_confidence_name(v: &mut Vec<char>, c: RegressionConfidence)
    ensures
        final(v)@ == old(v)@ + regression_confidence_name(c),
{
    match c {
        RegressionConfidence::High => push_str_chars(v, "High"),
        RegressionConfidence::Medium => push_str_chars(v, "Medium"),
        RegressionConfidence::Low => push_str_chars(v, "Low"),
        RegressionConfidence::Unknown => push_str_chars(v, "Unknown"),
    }
}

/// Explains in words where a regression search found the regression and how sure it is.
pub fn build_regression_reasoning(
    detector_type: &RegressionDetector,
    key: &str,
    mode: RegressionMode,
    detection: &DetectionResult,
    confidence: RegressionConfidence,
    missing_between_boundary: usize,
) -> (r: String)
    ensures
        r@ == regression_reasoning_text(
            *detector_type,
            key@,
            mode,
            detection.values@,
            detection.last_good_index,
            detection.first_bad_index,
            confidence,
            missing_between_boundary,
        ),
{
    let mut v: Vec<char> = Vec::new();
    let first_bad_index = match detection.first_bad_index {
        None => {
            push_str_chars(&mut v, "No analyzed commit matched detector ");
            push_detector_name(&mut v, *detector_type);
            push_str_chars(&mut v, " for '");
            push_str_chars(&mut v, key);
            push_str_chars(&mut v, "' in the requested range.");
            return string_of(&v);
        },
        Some(i) => i,
    };
    push_detector_name(&mut v, *detector_type);
    push_str_chars(&mut v, " ");
    push_detector_label(&mut v, *detector_type, mode);
    push_str_chars(&mut v, " for '");
    push_str_chars(&mut v, key);
    push_str_chars(&mut v, "' ");
    push_boundary(&mut v, detection.last_good_index, first_bad_index);
    push_str_chars(&mut v, "; ");
    push_first_value(&mut v, &detection.values, first_bad_index);
    push_confidence_text(&mut v, confidence, missing_between_boundary);
    string_of(&v)
}

/// The first violation search: the first commit whose build has the rule
/// active is the first bad one, every earlier one is good, and no value is kept.
pub fn detect_rule_presence(active: &Vec<bool>) -> (out: DetectionResult)
    ensures
        out.values@.len() == active@.len(),
        forall|k: int| 0 <= k < out.values@.len() ==> out.values@[k] is None,
        match out.first_bad_index {
            Some(b) => b < active@.len() && active@[b as int] && (forall|k: int| 0 <= k < b ==> !active@[k])
                && out.last_good_index == (if b == 0 { None } else { Some((b - 1) as usize) }),
            None => (forall|k: int| 0 <= k < active@.len() ==> !active@[k]) && out.last_good_index == (
            if active@.len() == 0 {
                None
            } else {
                Some((active@.len() - 1) as usize)
            }),
        },
{
    let mut values: Vec<Option<i64>> = Vec::new();
    let mut k: usize = 0;
    while k < active.len()
        invariant
            k <= active.len(),
            values@.len() == k,
            forall|j: int| 0 <= j < k ==> values@[j] is None,
        decreases active.len() - k,
    {
        values.push(None);
        k += 1;
    }
    let mut last_good: Option<usize> = None;
    let mut i: usize = 0;
    while i < active.len()
        invariant
            i <= active.len(),
            values@.len() == active@.len(),
            forall|j: int| 0 <= j < values@.len() ==> values@[j] is None,
            forall|j: int| 0 <= j < i ==> !active@[j],
            last_good == (if i == 0 { None } else { Some((i - 1) as usize) }),
        decreases active.len() - i,
    {
        if active[i] {
            return DetectionResult { values, last_good_index: last_good, first_bad_index: Some(i) };
        }
        last_good = Some(i);
        i += 1;
    }
    DetectionResult { values, last_good_index: last_good, first_bad_index: None }
}

/// A stored size that is there and positive.
pub open spec fn positive(o: Option<i64>) -> bool {
    match o {
        Some(v) => v > 0,
        None => false,
    }
}

/// The first presence search over the stored sizes of an entity: the first
/// commit where it has a positive size is the first bad one; the sizes up to
/// it are kept and the later ones dropped.
pub fn detect_entity_presence(sizes: &Vec<Option<i64>>) -> (out: DetectionResult)
    ensures
        out.values@.len() == sizes@.len(),
        match out.first_bad_index {
            Some(b) => b < sizes@.len() && positive(sizes@[b as int]) && (forall|k: int|
                0 <= k < b ==> !positive(sizes@[k])) && out.last_good_index == (if b == 0 {
                None
            } else {
                Some((b - 1) as usize)
            }) && (forall|k: int| 0 <= k <= b ==> out.values@[k] == sizes@[k]) && (forall|k: int|
                b < k < sizes@.len() ==> out.values@[k] is None),
            None => (forall|k: int| 0 <= k < sizes@.len() ==> !positive(sizes@[k]))
                && out.values@ == sizes@ && out.last_good_index == (if sizes@.len() == 0 {
                None
            } else {
                Some((sizes@.len() - 1) as usize)
            }),
        },
{
    let mut values: Vec<Option<i64>> = Vec::new();
    let mut last_good: Option<usize> = None;
    let mut first_bad: Option<usize> = None;
    let mut i: usize = 0;
    while i < sizes.len() && first_bad.is_none()
        invariant
            i <= sizes.len(),
            values@ == sizes@.take(i as int),
            first_bad is None ==> (forall|j: int| 0 <= j < i ==> !positive(sizes@[j])) && last_good == (if i
                == 0 {
                None
            } else {
                Some((i - 1) as usize)
            }),
            first_bad matches Some(b) ==> b + 1 == i && positive(sizes@[b as int]) && (forall|j: int|
                0 <= j < b ==> !positive(sizes@[j])) && last_good == (if b == 0 {
                None
            } else {
                Some((b - 1) as usize)
            }),
        decreases sizes.len() - i,
    {
        let value = sizes[i];
        values.push(value);
        assert(values@ =~= sizes@.take(i + 1));
        let bad = match value {
            Some(v) => v > 0,
            None => false,
        };
        if bad {
            first_bad = Some(i);
        } else {
            last_good = Some(i);
        }
        i += 1;
    }
    let ghost kept = values@.len();
    while values.len() < sizes.len()
        invariant
            values@.len() <= sizes@.len(),
            kept <= values@.len(),
            forall|j: int| 0 <= j < kept ==> values@[j] == sizes@[j],
            forall|j: int| kept <= j < values@.len() ==> values@[j] is None,
        decreases sizes.len() - values.len(),
    {
        values.push(None);
    }
    DetectionResult { values, last_good_index: last_good, first_bad_index: first_bad }
}

// ---------------------------------------------------------------------------
// Timelines and ranges
// ---------------------------------------------------------------------------
/// How a build differs from the previous one on the timeline.
#[derive(Debug, Clone, PartialEq, Eq)]
pub struct BuildMetricDiff {
    pub rom_delta: i64,
    pub ram_delta: i64,
    pub sections: Vec<ChangeEntry>,
    pub objects: Vec<ChangeEntry>,
    pub source_files: Vec<ChangeEntry>,
    pub symbols: Vec<ChangeEntry>,
    pub rust_dependencies: Vec<ChangeEntry>,
    pub rust_families: Vec<ChangeEntry>,
}

/// The texts of a list of named changes.
pub open spec fn changes_view(v: Seq<ChangeEntry>) -> Seq<(Seq<char>, i64)> {
    v.map_values(|e: ChangeEntry| (e.name@, e.delta))
}

/// The texts of a list of strings.
pub open spec fn strings_view(v: Seq<String>) -> Seq<Seq<char>> {
    v.map_values(|t: String| t@)
}

/// The value of a metadata key, if it is there.
pub open spec fn meta_get(m: Map<Seq<char>, Seq<char>>, key: Seq<char>) -> Option<Seq<char>> {
    if m.contains_key(key) {
        Some(m[key])
    } else {
        None
    }
}

fn copy_changes(v: &Vec<ChangeEntry>) -> (out: Vec<ChangeEntry>)
    ensures
        changes_view(out@) == changes_view(v@),
{
    let mut out: Vec<ChangeEntry> = Vec::new();
    let mut i: usize = 0;
    while i < v.len()
        invariant
            0 <= i <= v.len(),
            changes_view(out@) == changes_view(v@).take(i as int),
        decreases v.len() - i,
    {
        let ghost before = out@;
        out.push(ChangeEntry { name: copy_string(&v[i].name), delta: v[i].delta });
        assert(changes_view(out@) =~= changes_view(before).push((v@[i as int].name@, v@[i as int].delta)));
        assert(changes_view(v@).take(i + 1) =~= changes_view(v@).take(i as int).push(
            (v@[i as int].name@, v@[i as int].delta),
        ));
        i += 1;
    }
    assert(changes_view(v@).take(v.len() as int) =~= changes_view(v@));
    out
}

fn meta_value(m: &Metadata, key: &str) -> (r: Option<String>)
    requires
        m.wf(),
    ensures
        opt_text(r) == meta_get(m@, key@),
{
    match m.get(key) {
        Some(v) => Some(copy_string(v)),
        None => None,
    }
}

/// The timeline row of a commit: the commit, what its build's git state and
/// metadata say, its sizes, and how it differs from the previous build.
pub fn build_timeline_row(
    repo_id: &str,
    commit: &GitCommit,
    build: &BuildRecord,
    diff: Option<&BuildMetricDiff>,
) -> (row: CommitTimelineRow)
    requires
        build.metadata.wf(),
    ensures
        row.repo_id@ == repo_id@,
        row.commit@ == commit.commit@,
        row.short_commit@ == commit.short_commit@,
        row.commit_time@ == commit.commit_time@,
        row.author_name@ == commit.author_name@,
        row.subject@ == commit.subject@,
        strings_view(row.branch_names@) == match build.git {
            Some(g) => match g.branch_name {
                Some(b) => seq![b@],
                None => Seq::empty(),
            },
            None => Seq::empty(),
        },
        strings_view(row.tag_names@) == match build.git {
            Some(g) => strings_view(g.tag_names@),
            None => Seq::empty(),
        },
        opt_text(row.describe) == match build.git {
            Some(g) => opt_text(g.describe),
            None => None,
        },
        opt_text(row.build_profile) == meta_get(build.metadata@, "build.profile"@),
        opt_text(row.toolchain_id) == Some(meta_or(build.metadata@, "toolchain.id"@, build.linker_family@)),
        opt_text(row.target_id) == meta_get(build.metadata@, "target.id"@),
        opt_text(row.configuration_fingerprint) == meta_get(build.metadata@, "config.fingerprint"@),
        row.rom_total == build.rom_bytes,
        row.ram_total == build.ram_bytes,
        row.rom_delta_vs_previous == match diff {
            Some(d) => Some(d.rom_delta),
            None => None,
        },
        row.ram_delta_vs_previous == match diff {
            Some(d) => Some(d.ram_delta),
            None => None,
        },
        row.rule_violations_count == build.warning_count,
        changes_view(row.top_increases.sections@) == match diff {
            Some(d) => changes_view(d.sections@),
            None => Seq::empty(),
        },
        changes_view(row.top_increases.objects@) == match diff {
            Some(d) => changes_view(d.objects@),
            None => Seq::empty(),
        },
        changes_view(row.top_increases.source_files@) == match diff {
            Some(d) => changes_view(d.source_files@),
            None => Seq::empty(),
        },
        changes_view(row.top_increases.symbols@) == match diff {
            Some(d) => changes_view(d.symbols@),
            None => Seq::empty(),
        },
{
    let branch_names: Vec<String> = match &build.git {
        Some(g) => match &g.branch_name {
            Some(b) => {
                let v = vec![copy_string(b)];
                assert(strings_view(v@) =~= seq![b@]);
                v
            },
            None => {
                let v: Vec<String> = Vec::new();
                assert(strings_view(v@) =~= Seq::<Seq<char>>::empty());
                v
            },
        },
        None => {
            let v: Vec<String> = Vec::new();
            assert(strings_view(v@) =~= Seq::<Seq<char>>::empty());
            v
        },
    };
    let tag_names: Vec<String> = match &build.git {
        Some(g) => copy_strings(&g.tag_names),
        None => {
            let v: Vec<String> = Vec::new();
            assert(strings_view(v@) =~= Seq::<Seq<char>>::empty());
            v
        },
    };
    let describe = match &build.git {
        Some(g) => copy_opt_string(&g.describe),
        None => None,
    };
    let toolchain_id = match meta_value(&build.metadata, "toolchain.id") {
        Some(t) => Some(t),
        None => Some(copy_string(&build.linker_family)),
    };
    let top_increases = match diff {
        Some(d) => TimelineTopIncreases {
            sections: copy_changes(&d.sections),
            objects: copy_changes(&d.objects),
            source_files: copy_changes(&d.source_files),
            symbols: copy_changes(&d.symbols),
        },
        None => {
            let t = TimelineTopIncreases {
                sections: Vec::new(),
                objects: Vec::new(),
                source_files: Vec::new(),
                symbols: Vec::new(),
            };
            assert(changes_view(t.sections@) =~= Seq::<(Seq<char>, i64)>::empty());
            assert(changes_view(t.objects@) =~= Seq::<(Seq<char>, i64)>::empty());
            assert(changes_view(t.source_files@) =~= Seq::<(Seq<char>, i64)>::empty());
            assert(changes_view(t.symbols@) =~= Seq::<(Seq<char>, i64)>::empty());
            t
        },
    };
    CommitTimelineRow {
        repo_id: repo_id.to_owned(),
        commit: copy_string(&commit.commit),
        short_commit: copy_string(&commit.short_commit),
        commit_time: copy_string(&commit.commit_time),
        author_name: copy_string(&commit.author_name),
        subject: copy_string(&commit.subject),
        branch_names,
        tag_names,
        describe,
        build_profile: meta_value(&build.metadata, "build.profile"),
        toolchain_id,
        target_id: meta_value(&build.metadata, "target.id"),
        configuration_fingerprint: meta_value(&build.metadata, "config.fingerprint"),
        rom_total: build.rom_bytes,
        ram_total: build.ram_bytes,
        rom_delta_vs_previous: match diff {
            Some(d) => Some(d.rom_delta),
            None => None,
        },
        ram_delta_vs_previous: match diff {
            Some(d) => Some(d.ram_delta),
            None => None,
        },
        rule_violations_count: build.warning_count,
        top_increases,
    }
}

/// Whether a build was made from the given commit of the given repository.
pub open spec fn built_from(repo_root: Seq<char>, commit: Seq<char>) -> spec_fn(BuildRecord) -> bool {
    |b: BuildRecord| b.git is Some && b.git->0.repo_root@ == repo_root && b.git->0.commit_hash@ == commit
}

/// The first of the listed builds (newest first) made from a commit of a repository.
pub fn latest_build_by_commit(items: &Vec<BuildRecord>, repo_root: &str, commit: &str) -> (r: Option<usize>)
    ensures
        match r {
            Some(i) => i < items@.len() && first_match(items@, built_from(repo_root@, commit@)) == Some(
                items@[i as int],
            ),
            None => first_match(items@, built_from(repo_root@, commit@)) is None,
        },
{
    let mut i: usize = 0;
    while i < items.len()
        invariant
            0 <= i <= items.len(),
            forall|k: int| 0 <= k < i ==> !built_from(repo_root@, commit@)(#[trigger] items@[k]),
        decreases items.len() - i,
    {
        let hit = match &items[i].git {
            Some(g) => str_eq(g.repo_root.as_str(), repo_root) && str_eq(g.commit_hash.as_str(), commit),
            None => false,
        };
        if hit {
            assert(built_from(repo_root@, commit@)(items@[i as int]));
            proof {
                lemma_first_match_found(items@, built_from(repo_root@, commit@), i as int);
            }
            return Some(i);
        }
        assert(!built_from(repo_root@, commit@)(items@[i as int]));
        i += 1;
    }
    proof {
        lemma_first_match_none(items@, built_from(repo_root@, commit@));
    }
    None
}

/// A commit range as written: `base..head` or `base...head`.
#[derive(Debug, Clone, PartialEq, Eq)]
pub struct RangeSpec {
    pub triple_dot: bool,
    pub base: String,
    pub head: String,
}

/// How a range is read: `A...B` (split at the first `...`) compares B with
/// the merge base of A and B, else `A..B` (split at the first `..`).
pub open spec fn range_spec_parse(spec: Seq<char>) -> Result<(bool, Seq<char>, Seq<char>), Seq<char>> {
    match split_once_seq(spec, "..."@) {
        Some((b, h)) => Ok((true, b, h)),
        None => match split_once_seq(spec, ".."@) {
            Some((b, h)) => Ok((false, b, h)),
            None => Err("invalid range spec '"@ + spec + "', expected A..B or A...B"@),
        },
    }
}

/// Reads a commit range.
pub fn parse_range_spec(spec: &str) -> (r: Result<RangeSpec, String>)
    ensures
        match r {
            Ok(x) => range_spec_parse(spec@) == Ok::<(bool, Seq<char>, Seq<char>), Seq<char>>(
                (x.triple_dot, x.base@, x.head@),
            ),
            Err(e) => range_spec_parse(spec@) == Err::<(bool, Seq<char>, Seq<char>), Seq<char>>(e@),
        },
{
    let v = chars_of(spec);
    let three = chars_of("...");
    match chars_split_once(&v, &three) {
        Some((b, h)) => {
            return Ok(RangeSpec { triple_dot: true, base: string_of(&b), head: string_of(&h) });
        },
        None => {},
    }
    let two = chars_of("..");
    match chars_split_once(&v, &two) {
        Some((b, h)) => Ok(RangeSpec { triple_dot: false, base: string_of(&b), head: string_of(&h) }),
        None => {
            let mut m: Vec<char> = Vec::new();
            push_str_chars(&mut m, "invalid range spec '");
            push_str_chars(&mut m, spec);
            push_str_chars(&mut m, "', expected A..B or A...B");
            Err(string_of(&m))
        },
    }
}

/// A range with its revisions resolved.
#[derive(Debug, Clone, PartialEq, Eq)]
pub struct ResolvedRange {
    pub mode: String,
    pub git_range: String,
    pub resolved_base: String,
    pub resolved_head: String,
    pub resolved_merge_base: Option<String>,
    pub diff_base: String,
    pub diff_head: String,
}

/// The resolved form of a range: a triple-dot range runs from the merge base
/// to the head, a double-dot one from the base to the head.
pub fn make_resolved_range(
    triple_dot: bool,
    resolved_base: String,
    resolved_head: String,
    merge_base: Option<String>,
) -> (r: ResolvedRange)
    requires
        triple_dot ==> merge_base is Some,
    ensures
        r.mode@ == (if triple_dot { "triple-dot"@ } else { "double-dot"@ }),
        r.git_range@ == (if triple_dot { merge_base->0@ } else { resolved_base@ }) + ".."@ + resolved_head@,
        r.resolved_base@ == resolved_base@,
        r.resolved_head@ == resolved_head@,
        opt_text(r.resolved_merge_base) == (if triple_dot { Some(merge_base->0@) } else { None }),
        r.diff_base@ == (if triple_dot { merge_base->0@ } else { resolved_base@ }),
        r.diff_head@ == resolved_head@,
{
    if triple_dot {
        let merge = merge_base.unwrap();
        let mut g: Vec<char> = Vec::new();
        push_str_chars(&mut g, merge.as_str());
        push_str_chars(&mut g, "..");
        push_str_chars(&mut g, resolved_head.as_str());
        ResolvedRange {
            mode: "triple-dot".to_owned(),
            git_range: string_of(&g),
            resolved_base,
            resolved_head: copy_string(&resolved_head),
            resolved_merge_base: Some(copy_string(&merge)),
            diff_base: merge,
            diff_head: resolved_head,
        }
    } else {
        let mut g: Vec<char> = Vec::new();
        push_str_chars(&mut g, resolved_base.as_str());
        push_str_chars(&mut g, "..");
        push_str_chars(&mut g, resolved_head.as_str());
        ResolvedRange {
            mode: "double-dot".to_owned(),
            git_range: string_of(&g),
            resolved_base: copy_string(&resolved_base),
            resolved_head: copy_string(&resolved_head),
            resolved_merge_base: None,
            diff_base: resolved_base,
            diff_head: resolved_head,
        }
    }
}

// ---------------------------------------------------------------------------
// Metric deltas
// ---------------------------------------------------------------------------
/// The size of a change.
pub open spec fn magnitude(d: i64) -> int {
    if d < 0 {
        -(d as int)
    } else {
        d as int
    }
}

fn magnitude_of(d: i64) -> (r: u64)
    ensures
        r as int == magnitude(d),
{
    if d < 0 {
        ((-(d + 1)) as u64) + 1
    } else {
        d as u64
    }
}

/// Changes are listed largest first, then by name.
impl SortKey for ChangeEntry {
    open spec fn key_le(self, other: Self) -> bool {
        magnitude(self.delta) > magnitude(other.delta) || (magnitude(self.delta) == magnitude(other.delta)
            && lex_le(self.name@, other.name@))
    }

    proof fn lemma_key_total(a: Self, b: Self) {
        lemma_lex_le_total(a.name@, b.name@);
    }

    proof fn lemma_key_transitive(a: Self, b: Self, c: Self) {
        if magnitude(a.delta) == magnitude(b.delta) && magnitude(b.delta) == magnitude(c.delta) {
            lemma_lex_le_transitive(a.name@, b.name@, c.name@);
        }
    }

    fn exec_key_le(&self, other: &Self) -> (r: bool) {
        let a = magnitude_of(self.delta);
        let b = magnitude_of(other.delta);
        if a != b {
            a > b
        } else {
            str_le(&self.name, &other.name)
        }
    }
}

/// Whether a metric list has the name.
pub open spec fn has_metric(m: Seq<(String, i64)>, name: Seq<char>) -> bool {
    exists|k: int| 0 <= k < m.len() && (#[trigger] m[k]).0@ == name
}

/// The value of a named metric, zero when it is not listed.
pub open spec fn metric_value(m: Seq<(String, i64)>, name: Seq<char>) -> int
    decreases m.len(),
{
    if m.len() == 0 {
        0
    } else if m[0].0@ == name {
        m[0].1 as int
    } else {
        metric_value(m.drop_first(), name)
    }
}

/// No name is listed twice.
pub open spec fn distinct_metric_names(m: Seq<(String, i64)>) -> bool {
    forall|i: int, j: int| 0 <= i < j < m.len() ==> (#[trigger] m[i]).0@ != (#[trigger] m[j]).0@
}

/// The changes of the current metrics against the previous ones, in the order
/// of the current list (only those that changed).
pub open spec fn current_changes(cur: Seq<(String, i64)>, prev: Seq<(String, i64)>) -> Seq<ChangeEntry>
    decreases cur.len(),
{
    if cur.len() == 0 {
        Seq::empty()
    } else {
        let (name, value) = cur.last();
        let rest = current_changes(cur.drop_last(), prev);
        if value - metric_value(prev, name@) != 0 {
            rest.push(ChangeEntry { name, delta: (value - metric_value(prev, name@)) as i64 })
        } else {
            rest
        }
    }
}

/// The changes of the metrics only the previous list has: each went to zero.
pub open spec fn vanished_changes(prev: Seq<(String, i64)>, cur: Seq<(String, i64)>) -> Seq<ChangeEntry>
    decreases prev.len(),
{
    if prev.len() == 0 {
        Seq::empty()
    } else {
        let (name, value) = prev.last();
        let rest = vanished_changes(prev.drop_last(), cur);
        if !has_metric(cur, name@) && value != 0 {
            rest.push(ChangeEntry { name, delta: (-value) as i64 })
        } else {
            rest
        }
    }
}

/// Every change fits in `i64`.
pub open spec fn metric_deltas_fit(cur: Seq<(String, i64)>, prev: Seq<(String, i64)>) -> bool {
    &&& forall|k: int|
        0 <= k < cur.len() ==> i64::MIN <= (#[trigger] cur[k]).1 - metric_value(prev, cur[k].0@) <= i64::MAX
    &&& forall|k: int| 0 <= k < prev.len() ==> (#[trigger] prev[k]).1 != i64::MIN
}

fn find_metric(m: &Vec<(String, i64)>, name: &String) -> (r: Option<i64>)
    ensures
        match r {
            Some(v) => has_metric(m@, name@) && v == metric_value(m@, name@),
            None => !has_metric(m@, name@) && metric_value(m@, name@) == 0,
        },
{
    let mut i: usize = 0;
    assert(m@.skip(0) =~= m@);
    while i < m.len()
        invariant
            i <= m.len(),
            metric_value(m@, name@) == metric_value(m@.skip(i as int), name@),
            forall|k: int| 0 <= k < i ==> (#[trigger] m@[k]).0@ != name@,
        decreases m.len() - i,
    {
        assert(m@.skip(i as int)[0] == m@[i as int]);
        assert(m@.skip(i as int).drop_first() =~= m@.skip(i + 1));
        if str_eq(m[i].0.as_str(), name.as_str()) {
            return Some(m[i].1);
        }
        i += 1;
    }
    assert(m@.skip(i as int).len() == 0);
    None
}

/// The largest changes between two lists of named metrics: the names either
/// list has, each with its change (a missing metric counts as zero), the
/// unchanged ones left out, largest change first, then by name, at most `limit`.
pub fn diff_metric_entries(current: &Vec<(String, i64)>, previous: &Vec<(String, i64)>, limit: usize) -> (out: Vec<
    ChangeEntry,
>)
    requires
        metric_deltas_fit(current@, previous@),
    ensures
        out@ == first_n(sorted_by_key(current_changes(current@, previous@) + vanished_changes(previous@, current@)), limit),
{
    let mut changes: Vec<ChangeEntry> = Vec::new();
    let mut i: usize = 0;
    assert(current@.take(0) =~= Seq::<(String, i64)>::empty());
    while i < current.len()
        invariant
            0 <= i <= current.len(),
            metric_deltas_fit(current@, previous@),
            changes@ == current_changes(current@.take(i as int), previous@),
        decreases current.len() - i,
    {
        assert(current@.take(i + 1).drop_last() =~= current@.take(i as int));
        assert(current@.take(i + 1).last() == current@[i as int]);
        let p = match find_metric(previous, &current[i].0) {
            Some(v) => v,
            None => 0,
        };
        assert(i64::MIN <= current@[i as int].1 - metric_value(previous@, current@[i as int].0@) <= i64::MAX);
        let delta = current[i].1 - p;
        if delta != 0 {
            changes.push(ChangeEntry { name: copy_string(&current[i].0), delta });
        }
        i += 1;
    }
    assert(current@.take(current.len() as int) =~= current@);
    let ghost first_part = changes@;
    let mut j: usize = 0;
    assert(previous@.take(0) =~= Seq::<(String, i64)>::empty());
    assert(first_part + vanished_changes(previous@.take(0), current@) =~= first_part);
    while j < previous.len()
        invariant
            0 <= j <= previous.len(),
            metric_deltas_fit(current@, previous@),
            changes@ == first_part + vanished_changes(previous@.take(j as int), current@),
        decreases previous.len() - j,
    {
        assert(previous@.take(j + 1).drop_last() =~= previous@.take(j as int));
        assert(previous@.take(j + 1).last() == previous@[j as int]);
        let found = find_metric(current, &previous[j].0);
        let value = previous[j].1;
        assert(value != i64::MIN);
        if found.is_none() && value != 0 {
            let ghost before = changes@;
            changes.push(ChangeEntry { name: copy_string(&previous[j].0), delta: -value });
            assert(changes@ =~= before.push(ChangeEntry { name: previous@[j as int].0, delta: (-value) as i64 }));
        }
        j += 1;
    }
    assert(previous@.take(previous.len() as int) =~= previous@);
    let mut sorted = sort_by_key(changes);
    keep_first(&mut sorted, limit);
    sorted
}

/// The changes as desktop records.
pub fn diff_metric_maps(current: &Vec<(String, i64)>, previous: &Vec<(String, i64)>, limit: usize) -> (out: Vec<
    DeltaEntryDto,
>)
    requires
        metric_deltas_fit(current@, previous@),
    ensures
        out@.len() == first_n(
            sorted_by_key(current_changes(current@, previous@) + vanished_changes(previous@, current@)),
            limit,
        ).len(),
        forall|k: int|
            0 <= k < out@.len() ==> {
                let e = first_n(
                    sorted_by_key(current_changes(current@, previous@) + vanished_changes(previous@, current@)),
                    limit,
                )[k];
                (#[trigger] out@[k]).name == e.name && out@[k].delta == e.delta
            },
{
    let entries = diff_metric_entries(current, previous, limit);
    let mut out: Vec<DeltaEntryDto> = Vec::new();
    let mut k: usize = 0;
    while k < entries.len()
        invariant
            0 <= k <= entries.len(),
            out@.len() == k,
            forall|m: int| 0 <= m < k ==> (#[trigger] out@[m]).name == entries@[m].name && out@[m].delta == entries@[m].delta,
        decreases entries.len() - k,
    {
        out.push(DeltaEntryDto { name: copy_string(&entries[k].name), delta: entries[k].delta });
        k += 1;
    }
    out
}

// ---------------------------------------------------------------------------
// Changed files of a range
// ---------------------------------------------------------------------------
/// `set` holds each of the texts once, in increasing order.
#[verifier::opaque]
pub open spec fn is_text_set(set: Seq<Seq<char>>, items: Seq<Seq<char>>) -> bool {
    &&& forall|i: int, j: int| 0 <= i < j < set.len() ==> lex_lt(#[trigger] set[i], #[trigger] set[j])
    &&& forall|i: int| 0 <= i < set.len() ==> items.contains(#[trigger] set[i])
    &&& forall|k: int| 0 <= k < items.len() ==> set.contains(#[trigger] items[k])
}

proof fn lemma_text_set_keep(set: Seq<Seq<char>>, items: Seq<Seq<char>>, x: Seq<char>, pos: int)
    requires
        is_text_set(set, items),
        0 <= pos < set.len(),
        set[pos] == x,
    ensures
        is_text_set(set, items.push(x)),
{
    reveal(is_text_set);
    let i2 = items.push(x);
    assert forall|i: int| 0 <= i < set.len() implies i2.contains(#[trigger] set[i]) by {
        assert(items.contains(set[i]));
        let k = choose|k: int| 0 <= k < items.len() && items[k] == set[i];
        assert(i2[k] == items[k]);
    }
    assert forall|k: int| 0 <= k < i2.len() implies set.contains(#[trigger] i2[k]) by {
        if k < items.len() {
            assert(i2[k] == items[k]);
        } else {
            assert(set[pos] == i2[k]);
        }
    }
}

proof fn lemma_text_set_insert(set: Seq<Seq<char>>, items: Seq<Seq<char>>, x: Seq<char>, pos: int)
    requires
        is_text_set(set, items),
        0 <= pos <= set.len(),
        forall|i: int| 0 <= i < pos ==> lex_lt(#[trigger] set[i], x),
        pos == set.len() || lex_lt(x, set[pos]),
    ensures
        is_text_set(set.insert(pos, x), items.push(x)),
{
    reveal(is_text_set);
    let s2 = set.insert(pos, x);
    let i2 = items.push(x);
    assert forall|i: int, j: int| 0 <= i < j < s2.len() implies lex_lt(#[trigger] s2[i], #[trigger] s2[j]) by {
        if j < pos {
            assert(s2[i] == set[i] && s2[j] == set[j]);
        } else if j == pos {
            assert(s2[i] == set[i]);
        } else if i < pos {
            assert(s2[i] == set[i] && s2[j] == set[j - 1]);
            if j - 1 > pos {
                lemma_lex_transitive(x, set[pos], set[j - 1]);
            }
            lemma_lex_transitive(set[i], x, set[j - 1]);
        } else if i == pos {
            assert(s2[j] == set[j - 1]);
            if j - 1 > pos {
                lemma_lex_transitive(x, set[pos], set[j - 1]);
            }
        } else {
            assert(s2[i] == set[i - 1] && s2[j] == set[j - 1]);
        }
    }
    assert forall|i: int| 0 <= i < s2.len() implies i2.contains(#[trigger] s2[i]) by {
        if i == pos {
            assert(i2[items.len() as int] == x);
        } else {
            let b = if i < pos {
                i
            } else {
                i - 1
            };
            assert(s2[i] == set[b]);
            assert(items.contains(set[b]));
            let k = choose|k: int| 0 <= k < items.len() && items[k] == set[b];
            assert(i2[k] == items[k]);
        }
    }
    assert forall|k: int| 0 <= k < i2.len() implies s2.contains(#[trigger] i2[k]) by {
        if k < items.len() {
            assert(i2[k] == items[k]);
            assert(set.contains(items[k]));
            let w = choose|w: int| 0 <= w < set.len() && set[w] == items[k];
            if w < pos {
                assert(s2[w] == set[w]);
            } else {
                assert(s2[w + 1] == set[w]);
            }
        } else {
            assert(s2[pos] == x);
        }
    }
}

fn add_text(set: &mut Vec<String>, x: String, Ghost(items): Ghost<Seq<Seq<char>>>)
    requires
        is_text_set(strings_view(old(set)@), items),
    ensures
        is_text_set(strings_view(final(set)@), items.push(x@)),
{
    let ghost before = strings_view(set@);
    let ghost xv = x@;
    let mut pos: usize = 0;
    while pos < set.len() && compare_strings(&set[pos], &x) == Precedence::Before
        invariant
            0 <= pos <= set.len(),
            strings_view(set@) == before,
            xv == x@,
            forall|i: int| 0 <= i < pos ==> lex_lt(#[trigger] before[i], xv),
        decreases set.len() - pos,
    {
        assert(before[pos as int] == set@[pos as int]@);
        pos += 1;
    }
    if pos < set.len() {
        assert(before[pos as int] == set@[pos as int]@);
        let c = compare_strings(&set[pos], &x);
        if c == Precedence::Same {
            proof {
                lemma_text_set_keep(before, items, xv, pos as int);
            }
            return;
        }
        proof {
            lemma_lex_total(before[pos as int], xv);
        }
    }
    proof {
        lemma_text_set_insert(before, items, xv, pos as int);
    }
    set.insert(pos, x);
    assert(strings_view(set@) =~= before.insert(pos as int, xv));
}

/// The elements of `a` that `b` holds, in order.
pub open spec fn kept_in(a: Seq<Seq<char>>, b: Seq<Seq<char>>) -> Seq<Seq<char>>
    decreases a.len(),
{
    if a.len() == 0 {
        Seq::empty()
    } else if b.contains(a.last()) {
        kept_in(a.drop_last(), b).push(a.last())
    } else {
        kept_in(a.drop_last(), b)
    }
}

/// The normalized forms of repository paths.
pub open spec fn repo_paths_view(v: Seq<String>) -> Seq<Seq<char>> {
    v.map_values(|p: String| strip_dot_slash(replace_char(p@, '\\', seq!['/'])))
}

fn normalized_set(paths: &Vec<String>) -> (set: Vec<String>)
    ensures
        is_text_set(strings_view(set@), repo_paths_view(paths@)),
{
    let ghost all = repo_paths_view(paths@);
    let mut set: Vec<String> = Vec::new();
    proof {
        reveal(is_text_set);
        assert(strings_view(set@) =~= Seq::<Seq<char>>::empty());
        assert(all.take(0) =~= Seq::<Seq<char>>::empty());
    }
    let mut i: usize = 0;
    while i < paths.len()
        invariant
            0 <= i <= paths.len(),
            all == repo_paths_view(paths@),
            is_text_set(strings_view(set@), all.take(i as int)),
        decreases paths.len() - i,
    {
        let n = normalize_repo_path(paths[i].as_str());
        assert(all.take(i + 1) =~= all.take(i as int).push(n@));
        add_text(&mut set, n, Ghost(all.take(i as int)));
        i += 1;
    }
    assert(all.take(paths.len() as int) =~= all);
    set
}

fn set_has(set: &Vec<String>, x: &String) -> (r: bool)
    ensures
        r == strings_view(set@).contains(x@),
{
    let mut i: usize = 0;
    while i < set.len()
        invariant
            0 <= i <= set.len(),
            forall|k: int| 0 <= k < i ==> set@[k]@ != x@,
        decreases set.len() - i,
    {
        if str_eq(set[i].as_str(), x.as_str()) {
            assert(strings_view(set@)[i as int] == x@);
            return true;
        }
        i += 1;
    }
    assert(!strings_view(set@).contains(x@)) by {
        if strings_view(set@).contains(x@) {
            let k = choose|k: int| 0 <= k < strings_view(set@).len() && strings_view(set@)[k] == x@;
            assert(set@[k]@ == x@);
        }
    }
    false
}

/// Compares the files git changed in a range with the source files whose
/// size the analysis saw change, by normalized path: the files both name (in
/// path order) and how many only one side names.
pub fn build_changed_files_summary(git_files: Vec<String>, analysis_changed_files: Vec<String>) -> (r: ChangedFilesSummary)
    ensures
        r.git_changed_files == git_files,
        r.changed_source_files_in_analysis == analysis_changed_files,
        exists|g: Seq<Seq<char>>, a: Seq<Seq<char>>|
            #[trigger] is_text_set(g, repo_paths_view(git_files@)) && #[trigger] is_text_set(
                a,
                repo_paths_view(analysis_changed_files@),
            ) && strings_view(r.intersection_files@) == kept_in(g, a) && r.intersection_count == kept_in(g, a).len()
                && r.git_only_files_count == g.len() - kept_in(g, a).len() && r.analysis_only_files_count == a.len()
                - kept_in(a, g).len(),
{
    let g = normalized_set(&git_files);
    let a = normalized_set(&analysis_changed_files);
    let ghost gv = strings_view(g@);
    let ghost av = strings_view(a@);
    let mut both: Vec<String> = Vec::new();
    let mut i: usize = 0;
    assert(gv.take(0) =~= Seq::<Seq<char>>::empty());
    while i < g.len()
        invariant
            0 <= i <= g.len(),
            gv == strings_view(g@),
            av == strings_view(a@),
            strings_view(both@) == kept_in(gv.take(i as int), av),
            both@.len() <= i,
        decreases g.len() - i,
    {
        assert(gv.take(i + 1).drop_last() =~= gv.take(i as int));
        assert(gv.take(i + 1).last() == g@[i as int]@);
        if set_has(&a, &g[i]) {
            let ghost before = strings_view(both@);
            both.push(copy_string(&g[i]));
            assert(strings_view(both@) =~= before.push(g@[i as int]@));
        }
        i += 1;
    }
    assert(gv.take(g.len() as int) =~= gv);
    let mut a_in_g: usize = 0;
    let mut j: usize = 0;
    assert(av.take(0) =~= Seq::<Seq<char>>::empty());
    while j < a.len()
        invariant
            0 <= j <= a.len(),
            gv == strings_view(g@),
            av == strings_view(a@),
            a_in_g == kept_in(av.take(j as int), gv).len(),
            a_in_g <= j,
        decreases a.len() - j,
    {
        assert(av.take(j + 1).drop_last() =~= av.take(j as int));
        assert(av.take(j + 1).last() == a@[j as int]@);
        if set_has(&g, &a[j]) {
            a_in_g += 1;
        }
        j += 1;
    }
    assert(av.take(a.len() as int) =~= av);
    let count = both.len();
    ChangedFilesSummary {
        git_changed_files: git_files,
        changed_source_files_in_analysis: analysis_changed_files,
        git_only_files_count: g.len() - count,
        analysis_only_files_count: a.len() - a_in_g,
        intersection_count: count,
        intersection_files: both,
    }
}

} // verus!
