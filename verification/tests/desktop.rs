use fwmap::desktop::{
    default_settings, join_path,
    desktop_run_metadata, run_profile, run_target,
    active_project_after_delete, apply_project_update, remember_selected_files, StoredProjectRecord,
    UpdateProjectRecord,
    into_job_status_dto, map_changed_files_summary, map_first_rule_violation, map_regression_origin_point,
    map_regression_window_row, map_timeline_row, map_worst_commit, JobRecord,
    detector_name, git_refs_from_output, run_metric_summary, map_build_to_history_item, map_change_entries, matches_history_filters, parse_commit_order,
    parse_regression_detector, parse_regression_mode, regression_confidence_name, regression_mode_name,
    resolve_repo_path, stored_run_summary, timestamp_text, unix_to_rfc3339, DesktopState, StoredRunRecord,
};
use fwmap::dto::{DesktopSettingsDto, HistoryQueryDto};
use fwmap::git::CommitOrder;
use fwmap::history::{
    BuildRecord, ChangeEntry, ChangedFilesSummary, CommitTimelineRow, FirstRuleViolationSummary, RegressionConfidence,
    RegressionDetector, RegressionMode, RegressionOriginPoint, RegressionWindowRow, TimelineTopIncreases,
    WorstCommitSummary,
};
use fwmap::metadata::Metadata;
use fwmap::model::GitMetadata;

fn build() -> BuildRecord {
    let mut metadata = Metadata::new();
    metadata.insert("build.profile".to_string(), "release".to_string());
    metadata.insert("toolchain.id".to_string(), "gnu".to_string());
    metadata.insert("desktop.label".to_string(), "nightly".to_string());
    BuildRecord {
        id: 7,
        created_at: 0,
        elf_path: "fw.elf".to_string(),
        arch: "ARM".to_string(),
        linker_family: "gnu".to_string(),
        map_format: "gnu".to_string(),
        rom_bytes: 1024,
        ram_bytes: 256,
        warning_count: 2,
        error_count: 0,
        metadata,
        git: Some(GitMetadata {
            repo_root: "/repo".to_string(),
            commit_hash: "abcdef123456".to_string(),
            short_commit_hash: "abcdef1".to_string(),
            branch_name: Some("main".to_string()),
            detached_head: false,
            tag_names: Vec::new(),
            commit_subject: Some("initial".to_string()),
            author_name: None,
            author_email: None,
            commit_timestamp: None,
            describe: None,
            is_dirty: false,
        }),
        rust_context: None,
    }
}

#[test]
fn jobs_are_queued_updated_and_cancelled() {
    let mut state = DesktopState::new();
    let queued = state.start_job(
        "6f1c2a9e-3b7d-4c55-9a10-2f0e8d7b6c41".to_string(),
        Some("first".to_string()),
        "t0".to_string(),
    );
    assert_eq!(queued.job_id, "6f1c2a9e-3b7d-4c55-9a10-2f0e8d7b6c41");
    assert_eq!(queued.status, "queued");
    assert_eq!(queued.progress_message, "Queued");
    assert_eq!(queued.label.as_deref(), Some("first"));
    let id = queued.job_id.clone();

    state.update_job(&id, "running", "Analyzing", None, None, "t1".to_string()).unwrap();
    state.update_job(&id, "finished", "Done", None, Some(42), "t2".to_string()).unwrap();
    let status = state.get_job_status(&id).unwrap();
    assert_eq!(status.status, "finished");
    assert_eq!(status.progress_message, "Done");
    assert_eq!(status.created_at, "t0");
    assert_eq!(status.updated_at, "t2");
    assert_eq!(status.run_id, Some(42));
    assert_eq!(status.error_message, None);

    let cancelled = state.cancel_job(&id, "t3".to_string()).unwrap();
    assert_eq!(cancelled.status, "cancel-requested");
    assert_eq!(cancelled.progress_message, "Cancellation is not implemented in Phase D2");
    assert_eq!(cancelled.run_id, Some(42));
    assert_eq!(state.get_job_status(&id).unwrap().updated_at, "t3");

    assert!(state.get_job_status("missing").is_none());
    assert!(state.cancel_job("missing", "t4".to_string()).is_none());
    assert_eq!(
        state.update_job("missing", "failed", "x", None, None, "t5".to_string()).unwrap_err(),
        "unknown job id 'missing'"
    );
}

#[test]
fn failed_job_keeps_error_until_replaced() {
    let mut state = DesktopState::new();
    let id = state.start_job("job-a".to_string(), None, "t0".to_string()).job_id;
    state
        .update_job(&id, "failed", "Analysis failed", Some("boom".to_string()), None, "t1".to_string())
        .unwrap();
    state.update_job(&id, "failed", "Still failed", None, None, "t2".to_string()).unwrap();
    assert_eq!(state.get_job_status(&id).unwrap().error_message.as_deref(), Some("boom"));
}

#[test]
fn stored_runs_and_builds_are_summarized() {
    let stored = StoredRunRecord {
        run_id: 3,
        project_id: None,
        build_id: 7,
        created_at: "2024-01-01T00:00:00+00:00".to_string(),
        label: Some("nightly".to_string()),
        status: "finished".to_string(),
        git_revision: Some("abcdef1".to_string()),
        profile: Some("release".to_string()),
        target: None,
        rom_bytes: 1024,
        ram_bytes: 256,
        warning_count: 2,
        history_db_path: "h.db".to_string(),
        report_html_path: None,
        report_json_path: None,
    };
    let summary = stored_run_summary(&stored);
    assert_eq!(summary.run_id, 3);
    assert_eq!(summary.build_id, 7);
    assert_eq!(summary.label.as_deref(), Some("nightly"));
    assert_eq!(summary.rom_bytes, 1024);

    let item = map_build_to_history_item(build());
    assert_eq!(item.created_at, "1970-01-01T00:00:00+00:00");
    assert_eq!(item.git_revision.as_deref(), Some("abcdef1"));
    assert_eq!(item.git_branch.as_deref(), Some("main"));
    assert_eq!(item.profile.as_deref(), Some("release"));
    assert_eq!(item.toolchain_id.as_deref(), Some("gnu"));
    assert_eq!(item.target, None);
    assert_eq!(item.label.as_deref(), Some("nightly"));
}

#[test]
fn unix_times_are_formatted() {
    assert_eq!(unix_to_rfc3339(86_400), "1970-01-02T00:00:00+00:00");
    assert_eq!(unix_to_rfc3339(i64::MAX), i64::MAX.to_string());
    assert_eq!(timestamp_text(None, -5), "-5");
    assert_eq!(timestamp_text(Some("x".to_string()), -5), "x");
}

#[test]
fn history_filters_compare_given_fields() {
    let b = build();
    assert!(matches_history_filters(&b, &HistoryQueryDto::default()));
    let mut q = HistoryQueryDto::default();
    q.branch = Some("main".to_string());
    q.profile = Some("release".to_string());
    q.repo_path = Some("/repo".to_string());
    assert!(matches_history_filters(&b, &q));
    q.target = Some("stm32".to_string());
    assert!(!matches_history_filters(&b, &q));
    let mut q = HistoryQueryDto::default();
    q.branch = Some("dev".to_string());
    assert!(!matches_history_filters(&b, &q));
}

#[test]
fn repo_path_falls_back_to_settings() {
    let settings = DesktopSettingsDto {
        history_db_path: "h.db".to_string(),
        default_rule_file_path: None,
        default_git_repo_path: Some("/default".to_string()),
        last_elf_path: None,
        last_map_path: None,
    };
    assert_eq!(resolve_repo_path(Some("/given"), &settings).as_deref(), Some("/given"));
    assert_eq!(resolve_repo_path(Some("  "), &settings).as_deref(), Some("/default"));
    assert_eq!(resolve_repo_path(None, &settings).as_deref(), Some("/default"));
}

#[test]
fn query_names_round_trip() {
    assert_eq!(parse_commit_order(None).unwrap(), CommitOrder::Ancestry);
    assert_eq!(parse_commit_order(Some("timestamp")).unwrap(), CommitOrder::Timestamp);
    assert_eq!(
        parse_commit_order(Some("random")).unwrap_err(),
        "unsupported commit order 'random', expected ancestry or timestamp"
    );
    for d in [RegressionDetector::Metric, RegressionDetector::Rule, RegressionDetector::Entity] {
        assert_eq!(parse_regression_detector(&detector_name(d)).unwrap(), d);
    }
    for m in [
        RegressionMode::FirstCrossing,
        RegressionMode::FirstJump,
        RegressionMode::FirstPresence,
        RegressionMode::FirstViolation,
    ] {
        assert_eq!(parse_regression_mode(&regression_mode_name(m)).unwrap(), m);
    }
    assert_eq!(parse_regression_detector("size").unwrap_err(), "unsupported regression detector 'size'");
    assert_eq!(parse_regression_mode("last").unwrap_err(), "unsupported regression mode 'last'");
    assert_eq!(regression_confidence_name(RegressionConfidence::Medium), "medium");
}

#[test]
fn change_entries_keep_order() {
    let out = map_change_entries(vec![
        ChangeEntry { name: "a".to_string(), delta: 5 },
        ChangeEntry { name: "b".to_string(), delta: -2 },
    ]);
    assert_eq!(out.len(), 2);
    assert_eq!(out[0].name, "a");
    assert_eq!(out[1].delta, -2);
}

#[test]
fn run_summaries_and_refs() {
    let mut left = StoredRunRecord {
        run_id: 1,
        project_id: None,
        build_id: 1,
        created_at: "t0".to_string(),
        label: None,
        status: "finished".to_string(),
        git_revision: None,
        profile: None,
        target: None,
        rom_bytes: 1000,
        ram_bytes: 300,
        warning_count: 4,
        history_db_path: "h.db".to_string(),
        report_html_path: None,
        report_json_path: None,
    };
    let mut right = left.clone();
    right.rom_bytes = 1200;
    right.ram_bytes = 250;
    right.warning_count = 4;
    let m = run_metric_summary(&left, &right);
    assert_eq!((m.rom_delta, m.ram_delta, m.warning_delta), (200, -50, 0));
    left.warning_count = 0;
    assert_eq!(run_metric_summary(&left, &right).warning_delta, 4);

    let refs = git_refs_from_output("main\n  feature/x \n\nrelease\r\n", "branch");
    let names: Vec<&str> = refs.iter().map(|r| r.name.as_str()).collect();
    assert_eq!(names, vec!["main", "feature/x", "release"]);
    assert!(refs.iter().all(|r| r.kind == "branch"));
}

#[test]
fn history_results_are_shown_field_for_field() {
    let job = JobRecord {
        job_id: "j".to_string(),
        status: "queued".to_string(),
        created_at: "t0".to_string(),
        updated_at: "t1".to_string(),
        label: Some("l".to_string()),
        progress_message: "Queued".to_string(),
        error_message: None,
        run_id: Some(3),
    };
    let dto = into_job_status_dto(job);
    assert_eq!((dto.job_id.as_str(), dto.updated_at.as_str(), dto.run_id), ("j", "t1", Some(3)));

    let row = CommitTimelineRow {
        repo_id: "/repo".to_string(),
        commit: "abc000".to_string(),
        short_commit: "abc".to_string(),
        commit_time: "t".to_string(),
        author_name: "dev".to_string(),
        subject: "s".to_string(),
        branch_names: vec!["main".to_string()],
        tag_names: Vec::new(),
        describe: None,
        build_profile: Some("release".to_string()),
        toolchain_id: None,
        target_id: None,
        configuration_fingerprint: None,
        rom_total: 100,
        ram_total: 10,
        rom_delta_vs_previous: Some(4),
        ram_delta_vs_previous: None,
        rule_violations_count: 1,
        top_increases: TimelineTopIncreases {
            sections: vec![ChangeEntry { name: ".text".to_string(), delta: 4 }],
            ..TimelineTopIncreases::default()
        },
    };
    let entry = map_timeline_row(row);
    assert_eq!(entry.short_commit, "abc");
    assert_eq!(entry.branch_names, vec!["main".to_string()]);
    assert_eq!(entry.top_sections[0].name, ".text");
    assert!(entry.top_symbols.is_empty());

    let worst = map_worst_commit(WorstCommitSummary {
        commit: "abc".to_string(),
        delta: 9,
        subject: "s".to_string(),
        date: "d".to_string(),
    });
    assert_eq!((worst.commit.as_str(), worst.delta), ("abc", 9));
    let first = map_first_rule_violation(FirstRuleViolationSummary {
        commit: "abc".to_string(),
        rule_ids: vec!["r".to_string()],
        subject: "s".to_string(),
    });
    assert_eq!(first.rule_ids, vec!["r".to_string()]);
    let files = map_changed_files_summary(ChangedFilesSummary {
        git_changed_files: vec!["a".to_string()],
        changed_source_files_in_analysis: Vec::new(),
        intersection_files: Vec::new(),
        git_only_files_count: 1,
        analysis_only_files_count: 0,
        intersection_count: 0,
    });
    assert_eq!(files.git_only_files_count, 1);
    let point = map_regression_origin_point(RegressionOriginPoint {
        commit: "c".to_string(),
        short_commit: "c".to_string(),
        subject: "s".to_string(),
        value: Some(5),
    });
    assert_eq!(point.value, Some(5));
    let window = map_regression_window_row(RegressionWindowRow {
        commit: "c".to_string(),
        short_commit: "c".to_string(),
        subject: "s".to_string(),
        status: "bad".to_string(),
        value: None,
    });
    assert_eq!(window.status, "bad");
}

fn settings() -> DesktopSettingsDto {
    DesktopSettingsDto {
        history_db_path: "/data/history.db".to_string(),
        default_rule_file_path: Some("rules.toml".to_string()),
        default_git_repo_path: None,
        last_elf_path: Some("old.elf".to_string()),
        last_map_path: Some("old.map".to_string()),
    }
}

#[test]
fn picked_files_replace_only_the_given_paths() {
    let s = remember_selected_files(&settings(), Some("new.elf"), None);
    assert_eq!(s.last_elf_path.as_deref(), Some("new.elf"));
    assert_eq!(s.last_map_path.as_deref(), Some("old.map"));
    assert_eq!(s.history_db_path, "/data/history.db");
    assert_eq!(s.default_rule_file_path.as_deref(), Some("rules.toml"));
    let s = remember_selected_files(&settings(), None, Some("new.map"));
    assert_eq!(s.last_elf_path.as_deref(), Some("old.elf"));
    assert_eq!(s.last_map_path.as_deref(), Some("new.map"));
}

fn project() -> StoredProjectRecord {
    StoredProjectRecord {
        project_id: 3,
        name: "fw".to_string(),
        root_path: "/src/fw".to_string(),
        git_repo_path: Some("/src/fw".to_string()),
        default_elf_path: Some("build/fw.elf".to_string()),
        default_map_path: None,
        default_debug_path: None,
        default_rule_file_path: None,
        default_target: Some("stm32".to_string()),
        default_profile: None,
        default_export_dir: None,
        pinned_report_path: None,
        last_opened_screen: Some("overview".to_string()),
        last_opened_filters_json: None,
        created_at: "t0".to_string(),
        updated_at: "t1".to_string(),
        last_run_at: Some("t1".to_string()),
        last_export_at: None,
    }
}

#[test]
fn project_update_replaces_given_fields_only() {
    let patch = UpdateProjectRecord {
        name: Some("firmware".to_string()),
        root_path: None,
        git_repo_path: None,
        default_elf_path: None,
        default_map_path: Some("build/fw.map".to_string()),
        default_debug_path: None,
        default_rule_file_path: None,
        default_target: None,
        default_profile: Some("release".to_string()),
        default_export_dir: None,
        pinned_report_path: None,
        last_opened_screen: Some("history".to_string()),
        last_opened_filters_json: None,
        updated_at: "t9".to_string(),
    };
    let p = apply_project_update(&project(), &patch);
    assert_eq!(p.project_id, 3);
    assert_eq!(p.name, "firmware");
    assert_eq!(p.root_path, "/src/fw");
    assert_eq!(p.default_elf_path.as_deref(), Some("build/fw.elf"));
    assert_eq!(p.default_map_path.as_deref(), Some("build/fw.map"));
    assert_eq!(p.default_target.as_deref(), Some("stm32"));
    assert_eq!(p.default_profile.as_deref(), Some("release"));
    assert_eq!(p.last_opened_screen.as_deref(), Some("history"));
    assert_eq!(p.created_at, "t0");
    assert_eq!(p.updated_at, "t9");
    assert_eq!(p.last_run_at.as_deref(), Some("t1"));
}

#[test]
fn deleting_the_active_project_clears_it() {
    assert_eq!(active_project_after_delete(Some(3), 3), None);
    assert_eq!(active_project_after_delete(Some(4), 3), Some(4));
    assert_eq!(active_project_after_delete(None, 3), None);
}

#[test]
fn rfc3339_text_has_padded_date_time_and_utc_offset() {
    assert_eq!(unix_to_rfc3339(0), "1970-01-01T00:00:00+00:00");
    assert_eq!(unix_to_rfc3339(86_399), "1970-01-01T23:59:59+00:00");
    assert_eq!(unix_to_rfc3339(951_782_400 + 3_661), "2000-02-29T01:01:01+00:00");
    assert_eq!(unix_to_rfc3339(253_402_300_799), "9999-12-31T23:59:59+00:00");
    assert_eq!(unix_to_rfc3339(-1), "1969-12-31T23:59:59+00:00");
    assert_eq!(unix_to_rfc3339(-62_167_219_200), "0000-01-01T00:00:00+00:00");
}

fn rust_context(profile: Option<&str>, triple: Option<&str>, target: Option<&str>) -> fwmap::model::RustContext {
    fwmap::model::RustContext {
        workspace_root: None,
        manifest_path: None,
        package_name: Some("app".to_string()),
        package_id: None,
        target_name: target.map(str::to_string),
        target_kind: vec![],
        crate_types: vec![],
        edition: None,
        target_triple: triple.map(str::to_string),
        profile: profile.map(str::to_string),
        artifact_path: None,
        metadata_source: "cargo".to_string(),
        workspace_members: vec![],
    }
}

fn toolchain() -> fwmap::model::ToolchainInfo {
    fwmap::model::ToolchainInfo {
        requested: fwmap::model::ToolchainSelection::Auto,
        detected: None,
        resolved: fwmap::model::ToolchainKind::Gnu,
        linker_family: fwmap::model::LinkerFamily::Gnu,
        map_format: fwmap::model::MapFormat::Gnu,
        parser_warnings_count: 0,
    }
}

#[test]
fn desktop_metadata_takes_label_toolchain_and_rust_target() {
    let rust = Some(rust_context(Some("release"), None, Some("fw")));
    let m = desktop_run_metadata(Some("nightly"), &toolchain(), fwmap::model::SourceLinesMode::Off, &rust);
    assert_eq!(m.get("desktop.label").map(String::as_str), Some("nightly"));
    assert_eq!(m.get("toolchain.id").map(String::as_str), Some("gnu"));
    assert_eq!(m.get("config.fingerprint").map(String::as_str), Some("gnu|gnu|off"));
    assert_eq!(m.get("target.id").map(String::as_str), Some("fw"));
    assert_eq!(m.get("build.profile").map(String::as_str), Some("release"));
    assert_eq!(m.len(), 5);

    let rust = Some(rust_context(None, Some("thumbv7em-none-eabihf"), Some("fw")));
    let m = desktop_run_metadata(None, &toolchain(), fwmap::model::SourceLinesMode::Off, &rust);
    assert_eq!(m.get("target.id").map(String::as_str), Some("thumbv7em-none-eabihf"));
    assert_eq!(m.get("build.profile"), None);
    assert_eq!(m.get("desktop.label"), None);
    let m = desktop_run_metadata(None, &toolchain(), fwmap::model::SourceLinesMode::Off, &None);
    assert_eq!(m.len(), 2);
}

#[test]
fn run_profile_and_target_prefer_the_rust_context() {
    let mut b = build();
    assert_eq!(run_profile(&b).as_deref(), Some("release"));
    assert_eq!(run_target(&b), None);
    b.rust_context = Some(rust_context(Some("debug"), None, Some("fw")));
    assert_eq!(run_profile(&b).as_deref(), Some("debug"));
    assert_eq!(run_target(&b).as_deref(), Some("fw"));
    b.rust_context = Some(rust_context(None, Some("riscv32imc"), Some("fw")));
    assert_eq!(run_profile(&b).as_deref(), Some("release"));
    assert_eq!(run_target(&b).as_deref(), Some("riscv32imc"));
}

#[test]
fn default_settings_put_the_history_database_under_the_data_dir() {
    let s = default_settings("/data/fwmap");
    assert_eq!(s.history_db_path, "/data/fwmap/history/history.db");
    assert_eq!(s.default_rule_file_path, None);
    assert_eq!(s.default_git_repo_path, None);
    assert_eq!(s.last_elf_path, None);
    assert_eq!(s.last_map_path, None);
    assert_eq!(default_settings("/data/").history_db_path, "/data/history/history.db");
    assert_eq!(default_settings("").history_db_path, "history/history.db");
}

#[test]
fn paths_join_like_path_join() {
    let cases = [("a", "b"), ("a/", "b"), ("", "b"), ("/", "x.db"), ("/base dir", "history")];
    for (base, part) in cases {
        let expected = std::path::Path::new(base).join(part).to_string_lossy().to_string();
        assert_eq!(join_path(base, part), expected);
    }
}
