//! Plain records exchanged with the desktop front end.
use vstd::prelude::*;

verus! {

/// Names, versions and database paths of the desktop application.
#[derive(Debug, Clone, PartialEq, Eq)]
pub struct DesktopAppInfo {
    pub app_name: String,
    pub app_version: String,
    pub cli_version: String,
    pub history_db_path: String,
    pub app_db_path: String,
}

/// The files an analysis run is asked to read.
#[derive(Debug, Clone, PartialEq, Eq, Default)]
pub struct AnalysisRequestDto {
    pub elf_path: Option<String>,
    pub map_path: Option<String>,
    pub debug_path: Option<String>,
    pub rule_file_path: Option<String>,
    pub git_repo_path: Option<String>,
    pub label: Option<String>,
}

/// Settings of the desktop application.
#[derive(Debug, Clone, PartialEq, Eq)]
pub struct DesktopSettingsDto {
    pub history_db_path: String,
    pub default_rule_file_path: Option<String>,
    pub default_git_repo_path: Option<String>,
    pub last_elf_path: Option<String>,
    pub last_map_path: Option<String>,
}

/// The state of a background job.
#[derive(Debug, Clone, PartialEq, Eq)]
pub struct JobStatusDto {
    pub job_id: String,
    pub status: String,
    pub created_at: String,
    pub updated_at: String,
    pub label: Option<String>,
    pub progress_message: String,
    pub error_message: Option<String>,
    pub run_id: Option<i64>,
}

/// A change of state of a background job.
#[derive(Debug, Clone, PartialEq, Eq)]
pub struct JobEventDto {
    pub job_id: String,
    pub status: String,
    pub message: String,
    pub run_id: Option<i64>,
    pub error_message: Option<String>,
}

/// One stored analysis run.
#[derive(Debug, Clone, PartialEq, Eq)]
pub struct RunSummaryDto {
    pub run_id: i64,
    pub build_id: i64,
    pub created_at: String,
    pub label: Option<String>,
    pub status: String,
    pub git_revision: Option<String>,
    pub profile: Option<String>,
    pub target: Option<String>,
    pub rom_bytes: u64,
    pub ram_bytes: u64,
    pub warning_count: u64,
}

/// One stored analysis run with its largest sections and symbols.
#[derive(Debug, Clone, PartialEq, Eq)]
pub struct RunDetailDto {
    pub run: RunSummaryDto,
    pub elf_path: String,
    pub arch: String,
    pub linker_family: String,
    pub map_format: String,
    pub report_html_path: Option<String>,
    pub report_json_path: Option<String>,
    pub git_branch: Option<String>,
    pub git_describe: Option<String>,
    pub top_sections: Vec<(String, u64)>,
    pub top_symbols: Vec<(String, u64)>,
    pub warnings: Vec<(String, String, Option<String>)>,
}

/// Filters of a history listing.
#[derive(Debug, Clone, PartialEq, Eq, Default)]
pub struct HistoryQueryDto {
    pub repo_path: Option<String>,
    pub branch: Option<String>,
    pub profile: Option<String>,
    pub toolchain: Option<String>,
    pub target: Option<String>,
    pub limit: Option<usize>,
    pub order: Option<String>,
}

/// One recorded build as listed in the history.
#[derive(Debug, Clone, PartialEq, Eq)]
pub struct HistoryItemDto {
    pub build_id: i64,
    pub created_at: String,
    pub elf_path: String,
    pub arch: String,
    pub linker_family: String,
    pub map_format: String,
    pub rom_bytes: u64,
    pub ram_bytes: u64,
    pub warning_count: u64,
    pub error_count: u64,
    pub git_revision: Option<String>,
    pub git_branch: Option<String>,
    pub git_subject: Option<String>,
    pub git_describe: Option<String>,
    pub profile: Option<String>,
    pub target: Option<String>,
    pub toolchain_id: Option<String>,
    pub label: Option<String>,
}

/// A named change in bytes.
#[derive(Debug, Clone, PartialEq, Eq)]
pub struct DeltaEntryDto {
    pub name: String,
    pub delta: i64,
}

/// One commit of a timeline.
#[derive(Debug, Clone, PartialEq, Eq)]
pub struct TimelineEntryDto {
    pub commit: String,
    pub short_commit: String,
    pub commit_time: String,
    pub author_name: String,
    pub subject: String,
    pub branch_names: Vec<String>,
    pub tag_names: Vec<String>,
    pub describe: Option<String>,
    pub build_profile: Option<String>,
    pub toolchain_id: Option<String>,
    pub target_id: Option<String>,
    pub rom_total: u64,
    pub ram_total: u64,
    pub rom_delta_vs_previous: Option<i64>,
    pub ram_delta_vs_previous: Option<i64>,
    pub rule_violations_count: u64,
    pub top_sections: Vec<DeltaEntryDto>,
    pub top_objects: Vec<DeltaEntryDto>,
    pub top_source_files: Vec<DeltaEntryDto>,
    pub top_symbols: Vec<DeltaEntryDto>,
}

/// A commit timeline.
#[derive(Debug, Clone, PartialEq, Eq)]
pub struct TimelineResultDto {
    pub repo_id: String,
    pub order: String,
    pub branch: Option<String>,
    pub profile: Option<String>,
    pub toolchain: Option<String>,
    pub target: Option<String>,
    pub rows: Vec<TimelineEntryDto>,
}

/// The two runs to compare.
#[derive(Debug, Clone, PartialEq, Eq)]
pub struct RunCompareRequestDto {
    pub left_run_id: i64,
    pub right_run_id: i64,
}

/// Differences of the headline numbers of two runs.
#[derive(Debug, Clone, PartialEq, Eq)]
pub struct MetricSummaryDto {
    pub rom_delta: i64,
    pub ram_delta: i64,
    pub warning_delta: i64,
}

/// The comparison of two runs.
#[derive(Debug, Clone, PartialEq, Eq)]
pub struct RunCompareResultDto {
    pub left_run: RunSummaryDto,
    pub right_run: RunSummaryDto,
    pub summary: MetricSummaryDto,
    pub region_deltas: Vec<DeltaEntryDto>,
    pub section_deltas: Vec<DeltaEntryDto>,
    pub object_deltas: Vec<DeltaEntryDto>,
    pub source_file_deltas: Vec<DeltaEntryDto>,
    pub symbol_deltas: Vec<DeltaEntryDto>,
    pub rust_dependency_deltas: Vec<DeltaEntryDto>,
    pub rust_family_deltas: Vec<DeltaEntryDto>,
}

/// A branch or tag.
#[derive(Debug, Clone, PartialEq, Eq)]
pub struct GitRefDto {
    pub name: String,
    pub kind: String,
}

/// Files changed in a range.
#[derive(Debug, Clone, PartialEq, Eq)]
pub struct ChangedFilesSummaryDto {
    pub git_changed_files: Vec<String>,
    pub changed_source_files_in_analysis: Vec<String>,
    pub intersection_files: Vec<String>,
    pub git_only_files_count: usize,
    pub analysis_only_files_count: usize,
    pub intersection_count: usize,
}

/// The commit of a range with the largest growth.
#[derive(Debug, Clone, PartialEq, Eq)]
pub struct WorstCommitSummaryDto {
    pub commit: String,
    pub delta: i64,
    pub subject: String,
    pub date: String,
}

/// The first commit of a range with rule violations.
#[derive(Debug, Clone, PartialEq, Eq)]
pub struct FirstRuleViolationSummaryDto {
    pub commit: String,
    pub rule_ids: Vec<String>,
    pub subject: String,
}

/// The commit range to compare.
#[derive(Debug, Clone, PartialEq, Eq)]
pub struct RangeDiffQueryDto {
    pub repo_path: Option<String>,
    pub spec: String,
    pub include_changed_files: Option<bool>,
    pub order: Option<String>,
    pub profile: Option<String>,
    pub toolchain: Option<String>,
    pub target: Option<String>,
}

/// The comparison of a commit range.
#[derive(Debug, Clone, PartialEq, Eq)]
pub struct RangeDiffResultDto {
    pub repo_id: String,
    pub input_range_spec: String,
    pub comparison_mode: String,
    pub resolved_base: String,
    pub resolved_head: String,
    pub resolved_merge_base: Option<String>,
    pub order: String,
    pub total_commits_in_git_range: usize,
    pub analyzed_commits_count: usize,
    pub missing_analysis_commits_count: usize,
    pub cumulative_rom_delta: i64,
    pub cumulative_ram_delta: i64,
    pub worst_commit_by_rom: Option<WorstCommitSummaryDto>,
    pub worst_commit_by_ram: Option<WorstCommitSummaryDto>,
    pub first_rule_violation: Option<FirstRuleViolationSummaryDto>,
    pub top_changed_sections: Vec<DeltaEntryDto>,
    pub top_changed_objects: Vec<DeltaEntryDto>,
    pub top_changed_source_files: Vec<DeltaEntryDto>,
    pub top_changed_symbols: Vec<DeltaEntryDto>,
    pub top_changed_rust_dependencies: Vec<DeltaEntryDto>,
    pub top_changed_rust_families: Vec<DeltaEntryDto>,
    pub changed_files_summary: Option<ChangedFilesSummaryDto>,
    pub timeline_rows: Vec<TimelineEntryDto>,
}

/// A commit at a boundary of a regression.
#[derive(Debug, Clone, PartialEq, Eq)]
pub struct RegressionOriginPointDto {
    pub commit: String,
    pub short_commit: String,
    pub subject: String,
    pub value: Option<i64>,
}

/// A commit of the transition window of a regression.
#[derive(Debug, Clone, PartialEq, Eq)]
pub struct RegressionWindowRowDto {
    pub commit: String,
    pub short_commit: String,
    pub subject: String,
    pub status: String,
    pub value: Option<i64>,
}

/// The outcome of a regression search.
#[derive(Debug, Clone, PartialEq, Eq)]
pub struct RegressionResultDto {
    pub repo_id: String,
    pub detector_type: String,
    pub key: String,
    pub mode: String,
    pub confidence: String,
    pub reasoning: String,
    pub searched_commit_count: usize,
    pub analyzed_commit_count: usize,
    pub missing_analysis_count: usize,
    pub mixed_configuration: bool,
    pub last_good: Option<RegressionOriginPointDto>,
    pub first_observed_bad: Option<RegressionOriginPointDto>,
    pub first_bad_candidate: Option<RegressionOriginPointDto>,
    pub transition_window: Vec<RegressionWindowRowDto>,
    pub top_growth_sections: Vec<DeltaEntryDto>,
    pub top_growth_objects: Vec<DeltaEntryDto>,
    pub top_growth_source_files: Vec<DeltaEntryDto>,
    pub top_growth_symbols: Vec<DeltaEntryDto>,
    pub changed_files_summary: Option<ChangedFilesSummaryDto>,
    pub related_rule_hits: Vec<String>,
    pub narrowed_commits: Vec<String>,
}

/// Filters of the dashboard.
#[derive(Debug, Clone, PartialEq, Eq, Default)]
pub struct DashboardQueryDto {
    pub repo_path: Option<String>,
    pub branch: Option<String>,
    pub profile: Option<String>,
    pub toolchain: Option<String>,
    pub target: Option<String>,
    pub limit: Option<usize>,
}

/// One card of the dashboard overview.
#[derive(Debug, Clone, PartialEq, Eq)]
pub struct OverviewCardDto {
    pub key: String,
    pub title: String,
    pub value: String,
    pub subtitle: Option<String>,
    pub tone: String,
}

/// One of the largest growths.
#[derive(Debug, Clone, PartialEq, Eq)]
pub struct TopGrowthEntryDto {
    pub scope: String,
    pub name: String,
    pub delta: i64,
    pub detail: Option<String>,
}

/// A regression found recently.
#[derive(Debug, Clone, PartialEq, Eq)]
pub struct RecentRegressionDto {
    pub detector_type: String,
    pub key: String,
    pub confidence: String,
    pub commit: String,
    pub subject: String,
    pub reasoning: String,
}

/// One project as listed.
#[derive(Debug, Clone, PartialEq, Eq)]
pub struct ProjectSummaryDto {
    pub project_id: i64,
    pub name: String,
    pub root_path: String,
    pub git_repo_path: Option<String>,
    pub default_rule_file_path: Option<String>,
    pub default_target: Option<String>,
    pub default_profile: Option<String>,
    pub last_run_at: Option<String>,
    pub last_export_at: Option<String>,
}

/// One project with its defaults.
#[derive(Debug, Clone, PartialEq, Eq)]
pub struct ProjectDetailDto {
    pub project_id: i64,
    pub name: String,
    pub root_path: String,
    pub git_repo_path: Option<String>,
    pub default_elf_path: Option<String>,
    pub default_map_path: Option<String>,
    pub default_debug_path: Option<String>,
    pub default_rule_file_path: Option<String>,
    pub default_target: Option<String>,
    pub default_profile: Option<String>,
    pub default_export_dir: Option<String>,
    pub pinned_report_path: Option<String>,
    pub last_opened_screen: Option<String>,
    pub last_opened_filters_json: Option<String>,
    pub created_at: String,
    pub updated_at: String,
}

/// What a new project is created with.
#[derive(Debug, Clone, PartialEq, Eq, Default)]
pub struct CreateProjectRequestDto {
    pub name: String,
    pub root_path: String,
    pub git_repo_path: Option<String>,
    pub default_elf_path: Option<String>,
    pub default_map_path: Option<String>,
    pub default_debug_path: Option<String>,
    pub default_rule_file_path: Option<String>,
    pub default_target: Option<String>,
    pub default_profile: Option<String>,
    pub default_export_dir: Option<String>,
}

/// The project fields to change.
#[derive(Debug, Clone, PartialEq, Eq, Default)]
pub struct UpdateProjectRequestDto {
    pub name: Option<String>,
    pub root_path: Option<String>,
    pub git_repo_path: Option<String>,
    pub default_elf_path: Option<String>,
    pub default_map_path: Option<String>,
    pub default_debug_path: Option<String>,
    pub default_rule_file_path: Option<String>,
    pub default_target: Option<String>,
    pub default_profile: Option<String>,
    pub default_export_dir: Option<String>,
    pub pinned_report_path: Option<String>,
    pub last_opened_screen: Option<String>,
    pub last_opened_filters_json: Option<String>,
}

/// The project currently open.
#[derive(Debug, Clone, PartialEq, Eq)]
pub struct ActiveProjectStateDto {
    pub active_project_id: Option<i64>,
    pub active_project: Option<ProjectDetailDto>,
}

/// A policy file and its text.
#[derive(Debug, Clone, PartialEq, Eq, Default)]
pub struct PolicyDocumentDto {
    pub path: Option<String>,
    pub format: String,
    pub content: String,
    pub project_id: Option<i64>,
}

/// One problem found in a policy file.
#[derive(Debug, Clone, PartialEq, Eq)]
pub struct PolicyValidationIssueDto {
    pub level: String,
    pub message: String,
    pub line: Option<usize>,
}

/// The outcome of checking a policy file.
#[derive(Debug, Clone, PartialEq, Eq)]
pub struct PolicyValidationResultDto {
    pub ok: bool,
    pub issues: Vec<PolicyValidationIssueDto>,
}

/// One export made recently.
#[derive(Debug, Clone, PartialEq, Eq)]
pub struct RecentExportDto {
    pub export_id: i64,
    pub project_id: Option<i64>,
    pub created_at: String,
    pub export_target: String,
    pub format: String,
    pub destination_path: String,
    pub title: String,
}

/// Where an export was written.
#[derive(Debug, Clone, PartialEq, Eq)]
pub struct ExportResultDto {
    pub destination_path: String,
    pub export_target: String,
    pub format: String,
    pub created_at: String,
}

/// What the inspector is asked to show.
#[derive(Debug, Clone, PartialEq, Eq, Default)]
pub struct InspectorQueryDto {
    pub run_id: Option<i64>,
    pub build_id: Option<i64>,
    pub left_run_id: Option<i64>,
    pub right_run_id: Option<i64>,
    pub view_mode: String,
    pub group_by: String,
    pub metric: String,
    pub search: Option<String>,
    pub top_n: Option<usize>,
    pub threshold_min: Option<i64>,
    pub only_increased: Option<bool>,
    pub only_decreased: Option<bool>,
    pub debug_info_only: Option<bool>,
}

/// The entry selected in the inspector.
#[derive(Debug, Clone, PartialEq, Eq)]
pub struct InspectorSelectionDto {
    pub stable_id: String,
    pub kind: String,
}

/// Summary of the entry shown in the inspector.
#[derive(Debug, Clone, PartialEq, Eq)]
pub struct InspectorSummaryDto {
    pub context_label: String,
    pub source_kind: String,
    pub entity_count: usize,
    pub total_size_bytes: u64,
    pub total_delta_bytes: i64,
    pub debug_info_available: bool,
    pub available_views: Vec<String>,
    pub available_visualizations: Vec<String>,
}

/// Details of the entry shown in the inspector.
#[derive(Debug, Clone, PartialEq, Eq)]
pub struct InspectorDetailDto {
    pub stable_id: String,
    pub label: String,
    pub kind: String,
    pub size_bytes: u64,
    pub delta_bytes: i64,
    pub parent_label: Option<String>,
    pub source_available: bool,
    pub metadata: std::collections::BTreeMap<String, String>,
    pub related_rule_violations: Vec<String>,
    pub related_regression_evidence: Vec<String>,
}

/// Source lines around an entry.
#[derive(Debug, Clone, PartialEq, Eq)]
pub struct SourceContextDto {
    pub path: Option<String>,
    pub function_name: Option<String>,
    pub line_start: Option<u64>,
    pub line_end: Option<u64>,
    pub excerpt: Option<String>,
    pub compile_unit: Option<String>,
    pub crate_name: Option<String>,
    pub related_sections: Vec<String>,
    pub related_regions: Vec<String>,
    pub availability_reason: Option<String>,
}

} // verus!
