use fwmap::history::{normalized_config_fingerprint, variant_key, BuildRecord};
use fwmap::metadata::Metadata;
use fwmap::history::{validate_regression_query, RegressionDetector, RegressionMode};
use fwmap::history::{build_regression_reasoning, DetectionResult, RegressionConfidence};
use fwmap::history::{detect_entity_presence, detect_rule_presence};
use fwmap::history::{make_resolved_range, parse_range_spec};
use fwmap::git::GitCommit;
use fwmap::history::{build_timeline_row, latest_build_by_commit, BuildMetricDiff, ChangeEntry};
use fwmap::model::GitMetadata;
use fwmap::history::{diff_metric_entries, diff_metric_maps};
use fwmap::history::{
    build_changed_files_summary, build_narrowed_commits, build_transition_window, classify_regression_confidence,
    commit_order_name, detect_regression, escape_html, format_git_summary, format_signed, render_delta_badge,
    RegressionPoint,
};
use fwmap::git::CommitOrder;

fn build() -> BuildRecord {
    BuildRecord {
        id: 1,
        created_at: 0,
        elf_path: "a.elf".to_string(),
        arch: "ARM".to_string(),
        linker_family: "gnu".to_string(),
        map_format: "unknown".to_string(),
        rom_bytes: 1,
        ram_bytes: 1,
        warning_count: 0,
        error_count: 0,
        metadata: Metadata::new(),
        git: None,
        rust_context: None,
    }
}

#[test]
fn variant_key_ignores_source_lines_component_in_config_fingerprint() {
    let mut build_off = build();
    build_off.metadata.insert("build.profile".to_string(), "release".to_string());
    build_off.metadata.insert("toolchain.id".to_string(), "gnu".to_string());
    build_off
        .metadata
        .insert("config.fingerprint".to_string(), "gnu|unknown|off".to_string());

    let mut build_lines = build_off.clone();
    build_lines
        .metadata
        .insert("config.fingerprint".to_string(), "gnu|unknown|lines".to_string());

    assert_eq!(variant_key(&build_off), variant_key(&build_lines));
}

#[test]
fn variant_key_text_and_defaults() {
    let mut b = build();
    assert_eq!(variant_key(&b), "|gnu||");
    b.metadata.insert("build.profile".to_string(), "debug".to_string());
    b.metadata.insert("target.id".to_string(), "stm32".to_string());
    b.metadata.insert("config.fingerprint".to_string(), "a|b|c|d".to_string());
    assert_eq!(variant_key(&b), "debug|gnu|stm32|a|b");
    assert_eq!(normalized_config_fingerprint(None), "");
    assert_eq!(normalized_config_fingerprint(Some(&"x".to_string())), "x");
}

#[test]
fn regression_queries_are_checked() {
    assert_eq!(
        validate_regression_query(RegressionDetector::Metric, "  ", RegressionMode::FirstCrossing, Some(1), false, None)
            .unwrap_err(),
        "regression detector key must not be empty"
    );
    assert_eq!(
        validate_regression_query(RegressionDetector::Metric, "rom_total", RegressionMode::FirstCrossing, Some(1), true, None)
            .unwrap_err(),
        "use either --threshold or --threshold-percent, not both"
    );
    assert!(validate_regression_query(RegressionDetector::Metric, "rom_total", RegressionMode::FirstCrossing, None, true, None).is_ok());
    assert_eq!(
        validate_regression_query(RegressionDetector::Metric, "rom_total", RegressionMode::FirstJump, None, false, None)
            .unwrap_err(),
        "metric first-jump requires --jump-threshold"
    );
    assert_eq!(
        validate_regression_query(RegressionDetector::Rule, "R1", RegressionMode::FirstPresence, None, false, None)
            .unwrap_err(),
        "rule detector supports only first-violation"
    );
    assert!(validate_regression_query(RegressionDetector::Entity, "sym:main", RegressionMode::FirstPresence, None, false, None).is_ok());
}

#[test]
fn regression_reasoning_text_is_exact() {
    let detection = DetectionResult { values: vec![Some(100), Some(100), Some(180)], last_good_index: Some(1), first_bad_index: Some(2) };
    let text = build_regression_reasoning(&RegressionDetector::Metric, "rom_total", RegressionMode::FirstCrossing, &detection, RegressionConfidence::High, 0);
    assert_eq!(
        text,
        "Metric first exceeded threshold for 'rom_total' between analyzed commits 1 and 2; first observed value is 180. No missing analyzed commits around the boundary; confidence is High."
    );
    let none = DetectionResult { values: Vec::new(), last_good_index: None, first_bad_index: None };
    assert_eq!(
        build_regression_reasoning(&RegressionDetector::Rule, "R1", RegressionMode::FirstViolation, &none, RegressionConfidence::Unknown, 0),
        "No analyzed commit matched detector Rule for 'R1' in the requested range."
    );
    let entity = DetectionResult { values: vec![None], last_good_index: None, first_bad_index: Some(0) };
    assert_eq!(
        build_regression_reasoning(&RegressionDetector::Entity, "x", RegressionMode::FirstPresence, &entity, RegressionConfidence::Medium, 2),
        "Entity was first observed for 'x' at the first analyzed bad commit index 0; 2 commits in the boundary have no stored analysis, so confidence is Medium."
    );
}

#[test]
fn presence_detectors_find_first_bad_commit() {
    let rule = detect_rule_presence(&vec![false, false, true, true]);
    assert_eq!(rule.first_bad_index, Some(2));
    assert_eq!(rule.last_good_index, Some(1));
    assert_eq!(rule.values, vec![None; 4]);
    let clean = detect_rule_presence(&vec![false, false]);
    assert_eq!(clean.first_bad_index, None);
    assert_eq!(clean.last_good_index, Some(1));
    let entity = detect_entity_presence(&vec![None, Some(0), Some(12), Some(40)]);
    assert_eq!(entity.first_bad_index, Some(2));
    assert_eq!(entity.last_good_index, Some(1));
    assert_eq!(entity.values, vec![None, Some(0), Some(12), None]);
    let first = detect_entity_presence(&vec![Some(3)]);
    assert_eq!(first.first_bad_index, Some(0));
    assert_eq!(first.last_good_index, None);
}

#[test]
fn range_specs_are_read() {
    let triple = parse_range_spec("main...feature").unwrap();
    assert!(triple.triple_dot);
    assert_eq!((triple.base.as_str(), triple.head.as_str()), ("main", "feature"));
    let double = parse_range_spec("v1.0..HEAD").unwrap();
    assert!(!double.triple_dot);
    assert_eq!((double.base.as_str(), double.head.as_str()), ("v1.0", "HEAD"));
    assert_eq!(parse_range_spec("HEAD").unwrap_err(), "invalid range spec 'HEAD', expected A..B or A...B");
    let resolved = make_resolved_range(true, "aaa".to_string(), "ccc".to_string(), Some("bbb".to_string()));
    assert_eq!(resolved.git_range, "bbb..ccc");
    assert_eq!(resolved.mode, "triple-dot");
    assert_eq!(resolved.diff_base, "bbb");
    let plain = make_resolved_range(false, "aaa".to_string(), "ccc".to_string(), None);
    assert_eq!(plain.git_range, "aaa..ccc");
    assert_eq!(plain.resolved_merge_base, None);
}

#[test]
fn timeline_rows_take_build_metadata_and_diff() {
    let mut b = build();
    b.metadata.insert("build.profile".to_string(), "release".to_string());
    b.metadata.insert("target.id".to_string(), "thumbv7em".to_string());
    b.git = Some(GitMetadata {
        repo_root: "/repo".to_string(),
        commit_hash: "abc".to_string(),
        short_commit_hash: "abc".to_string(),
        branch_name: Some("main".to_string()),
        detached_head: false,
        tag_names: vec!["v1".to_string()],
        commit_subject: None,
        author_name: None,
        author_email: None,
        commit_timestamp: None,
        describe: Some("v1-1".to_string()),
        is_dirty: false,
    });
    let commit = GitCommit {
        commit: "abc".to_string(),
        short_commit: "abc".to_string(),
        commit_time: "2024-01-01".to_string(),
        author_name: "dev".to_string(),
        subject: "grow".to_string(),
    };
    let diff = BuildMetricDiff {
        rom_delta: 12,
        ram_delta: -4,
        sections: vec![ChangeEntry { name: ".text".to_string(), delta: 12 }],
        objects: Vec::new(),
        source_files: Vec::new(),
        symbols: Vec::new(),
        rust_dependencies: Vec::new(),
        rust_families: Vec::new(),
    };
    let row = build_timeline_row("repo", &commit, &b, Some(&diff));
    assert_eq!(row.branch_names, vec!["main".to_string()]);
    assert_eq!(row.tag_names, vec!["v1".to_string()]);
    assert_eq!(row.build_profile.as_deref(), Some("release"));
    assert_eq!(row.toolchain_id.as_deref(), Some("gnu"));
    assert_eq!(row.target_id.as_deref(), Some("thumbv7em"));
    assert_eq!(row.rom_delta_vs_previous, Some(12));
    assert_eq!(row.ram_delta_vs_previous, Some(-4));
    assert_eq!(row.top_increases.sections[0].name, ".text");
    let plain = build_timeline_row("repo", &commit, &build(), None);
    assert!(plain.branch_names.is_empty());
    assert_eq!(plain.rom_delta_vs_previous, None);

    let items = vec![build(), b.clone(), b];
    assert_eq!(latest_build_by_commit(&items, "/repo", "abc"), Some(1));
    assert_eq!(latest_build_by_commit(&items, "/other", "abc"), None);
}

#[test]
fn metric_deltas_rank_largest_changes_first() {
    let current = vec![("a".to_string(), 10i64), ("b".to_string(), 5), ("c".to_string(), 7)];
    let previous = vec![("a".to_string(), 4i64), ("c".to_string(), 7), ("d".to_string(), 9)];
    let entries = diff_metric_entries(&current, &previous, 10);
    let got: Vec<(String, i64)> = entries.iter().map(|e| (e.name.clone(), e.delta)).collect();
    assert_eq!(got, vec![("d".to_string(), -9), ("a".to_string(), 6), ("b".to_string(), 5)]);
    let top = diff_metric_entries(&current, &previous, 1);
    assert_eq!(top.len(), 1);
    assert_eq!(top[0].name, "d");
    let dto = diff_metric_maps(&current, &previous, 2);
    assert_eq!(dto.len(), 2);
    assert_eq!((dto[1].name.as_str(), dto[1].delta), ("a", 6));
}

#[test]
fn regression_detection_modes() {
    let crossing = detect_regression(vec![Some(100), Some(112), None, Some(140)], RegressionMode::FirstCrossing, 30, None);
    assert_eq!(crossing.last_good_index, Some(1));
    assert_eq!(crossing.first_bad_index, Some(3));
    assert_eq!(crossing.values, vec![Some(100), Some(112), None, Some(140)]);

    let jump = detect_regression(vec![Some(100), Some(112), Some(140)], RegressionMode::FirstJump, 0, Some(20));
    assert_eq!(jump.last_good_index, Some(1));
    assert_eq!(jump.first_bad_index, Some(2));

    let quiet = detect_regression(vec![Some(100), Some(101)], RegressionMode::FirstCrossing, 30, None);
    assert_eq!(quiet.last_good_index, Some(1));
    assert_eq!(quiet.first_bad_index, None);

    let unknown_base = detect_regression(vec![None, Some(500)], RegressionMode::FirstCrossing, 30, None);
    assert_eq!(unknown_base.first_bad_index, None);
    assert_eq!(unknown_base.last_good_index, None);
}

#[test]
fn regression_confidence_levels() {
    assert_eq!(classify_regression_confidence(true, Some(0), Some(1), 0, 0, false), RegressionConfidence::Unknown);
    assert_eq!(classify_regression_confidence(false, Some(0), None, 0, 0, false), RegressionConfidence::Unknown);
    assert_eq!(classify_regression_confidence(false, Some(0), Some(1), 0, 0, true), RegressionConfidence::Low);
    assert_eq!(classify_regression_confidence(false, Some(0), Some(1), 0, 3, false), RegressionConfidence::High);
    assert_eq!(classify_regression_confidence(false, Some(0), Some(2), 1, 3, false), RegressionConfidence::Medium);
    assert_eq!(classify_regression_confidence(false, Some(0), Some(2), 1, 0, false), RegressionConfidence::Low);
    assert_eq!(classify_regression_confidence(false, None, Some(0), 0, 0, false), RegressionConfidence::Low);
    assert_eq!(classify_regression_confidence(false, None, Some(2), 0, 0, false), RegressionConfidence::Medium);
}

fn point(index: usize, hash: &str) -> RegressionPoint {
    let mut metadata = Metadata::new();
    metadata.insert("build.profile".to_string(), "release".to_string());
    RegressionPoint {
        commit_index: index,
        commit: GitCommit {
            commit: format!("{hash}000"),
            short_commit: hash.to_string(),
            commit_time: "t".to_string(),
            author_name: "dev".to_string(),
            subject: format!("subject {hash}"),
        },
        build: BuildRecord {
            id: index as i64,
            created_at: 0,
            elf_path: "a.elf".to_string(),
            arch: "ARM".to_string(),
            linker_family: "gnu".to_string(),
            map_format: "gnu".to_string(),
            rom_bytes: 0,
            ram_bytes: 0,
            warning_count: 0,
            error_count: 0,
            metadata,
            git: None,
            rust_context: None,
        },
    }
}

#[test]
fn transition_window_and_narrowing() {
    let analyzed: Vec<RegressionPoint> = (0..6).map(|i| point(i, &format!("c{i}"))).collect();
    let detection = DetectionResult {
        values: vec![Some(1), Some(1), Some(1), Some(1), Some(1), Some(9)],
        last_good_index: Some(0),
        first_bad_index: Some(5),
    };
    let window = build_transition_window(&analyzed, &detection);
    assert_eq!(window.len(), 2);
    assert_eq!(window[0].short_commit, "c0");
    assert_eq!(window[1].short_commit, "c5");
    let narrowed = build_narrowed_commits(&analyzed, &detection, 8);
    assert_eq!(narrowed, vec!["c2".to_string(), "c3".to_string(), "c4".to_string()]);
    assert!(build_narrowed_commits(&analyzed, &DetectionResult::default(), 8).is_empty());
}

#[test]
fn report_text_helpers() {
    assert_eq!(format_signed(5), "+5");
    assert_eq!(format_signed(-5), "-5");
    assert_eq!(format_signed(0), "+0");
    assert_eq!(render_delta_badge(Some(3)), "<span class=\"delta pos\">+3</span>");
    assert_eq!(render_delta_badge(Some(-3)), "<span class=\"delta neg\">-3</span>");
    assert_eq!(render_delta_badge(Some(0)), "<span class=\"delta zero\">+0</span>");
    assert_eq!(render_delta_badge(None), "<span class=\"delta na\">-</span>");
    assert_eq!(escape_html("a<b>&c"), "a&lt;b&gt;&amp;c");
    assert_eq!(commit_order_name(CommitOrder::Timestamp), "timestamp");
    assert_eq!(commit_order_name(CommitOrder::Ancestry), "ancestry");
    assert_eq!(format_git_summary(None), "");
    let git = GitMetadata {
        repo_root: "/r".to_string(),
        commit_hash: "abcdef".to_string(),
        short_commit_hash: "abc".to_string(),
        branch_name: None,
        detached_head: true,
        tag_names: Vec::new(),
        commit_subject: None,
        author_name: None,
        author_email: None,
        commit_timestamp: None,
        describe: Some("v1.0".to_string()),
        is_dirty: true,
    };
    assert_eq!(format_git_summary(Some(&git)), " | git=abc / detached / v1.0 / dirty");
}

#[test]
fn changed_files_are_compared_as_sets() {
    let summary = build_changed_files_summary(
        vec!["src/a.c".to_string(), "./src/b.c".to_string(), "docs/x.md".to_string()],
        vec!["src/b.c".to_string(), "src/c.c".to_string()],
    );
    assert_eq!(summary.intersection_files, vec!["src/b.c".to_string()]);
    assert_eq!(summary.intersection_count, 1);
    assert_eq!(summary.git_only_files_count, 2);
    assert_eq!(summary.analysis_only_files_count, 1);
}
