use fwmap::git::GitCommit;
use fwmap::history::{
    BuildRecord, DetectionResult, RegressionConfidence, RegressionDetector, RegressionMode, RegressionPoint,
};
use fwmap::metadata::Metadata;
use fwmap::regression::{
    entity_value_lookup, metric_value_lookup, regression_outcome, rules_include, search_commits, ValueLookup,
};

fn commit(id: &str) -> GitCommit {
    GitCommit {
        commit: format!("{id}000000"),
        short_commit: id.to_string(),
        commit_time: "2024-01-01T00:00:00+00:00".to_string(),
        author_name: "Ada".to_string(),
        subject: format!("change {id}"),
    }
}

fn build(id: i64, profile: &str) -> BuildRecord {
    let mut metadata = Metadata::new();
    metadata.insert("build.profile".to_string(), profile.to_string());
    BuildRecord {
        id,
        created_at: 0,
        elf_path: "fw.elf".to_string(),
        arch: "ARM".to_string(),
        linker_family: "gnu".to_string(),
        map_format: "gnu".to_string(),
        rom_bytes: 0,
        ram_bytes: 0,
        warning_count: 0,
        error_count: 0,
        metadata,
        git: None,
        rust_context: None,
    }
}

fn point(index: usize, id: &str, profile: &str) -> RegressionPoint {
    RegressionPoint { commit_index: index, commit: commit(id), build: build(index as i64, profile) }
}

#[test]
fn search_walks_base_then_range_oldest_first() {
    let out = search_commits(vec![commit("b")], vec![commit("r3"), commit("r2"), commit("r1")], None);
    let ids: Vec<&str> = out.iter().map(|c| c.short_commit.as_str()).collect();
    assert_eq!(ids, vec!["b", "r1", "r2", "r3"]);
    let out = search_commits(vec![commit("b")], vec![commit("r3"), commit("r2"), commit("r1")], Some(2));
    let ids: Vec<&str> = out.iter().map(|c| c.short_commit.as_str()).collect();
    assert_eq!(ids, vec!["b", "r1"]);
}

#[test]
fn metric_keys_name_where_values_are_read() {
    assert_eq!(metric_value_lookup("rom_total").unwrap(), ValueLookup::BuildColumn { column: "rom_bytes".to_string() });
    assert_eq!(
        metric_value_lookup("region:FLASH.used").unwrap(),
        ValueLookup::Named {
            table: "region_metrics".to_string(),
            name_column: "region_name".to_string(),
            value_column: "used_bytes".to_string(),
            name: "FLASH".to_string(),
        }
    );
    assert_eq!(
        metric_value_lookup("section:.text.size").unwrap(),
        ValueLookup::Named {
            table: "section_metrics".to_string(),
            name_column: "section_name".to_string(),
            value_column: "size_bytes".to_string(),
            name: ".text".to_string(),
        }
    );
    assert_eq!(
        metric_value_lookup("rust-family:core.size").unwrap(),
        ValueLookup::RustScopeLike { pattern: "family:%".to_string(), name: "core".to_string() }
    );
    assert_eq!(metric_value_lookup("section:.text").unwrap_err(), "unsupported metric key 'section:.text'");
    assert_eq!(metric_value_lookup("bogus").unwrap_err(), "unsupported metric key 'bogus'");
}

#[test]
fn entity_keys_take_the_whole_name() {
    assert_eq!(
        entity_value_lookup("symbol:main.size").unwrap(),
        ValueLookup::Named {
            table: "symbol_metrics".to_string(),
            name_column: "name".to_string(),
            value_column: "size_bytes".to_string(),
            name: "main.size".to_string(),
        }
    );
    assert_eq!(
        entity_value_lookup("rust-crate:serde").unwrap(),
        ValueLookup::RustScope { scope: "crate".to_string(), name: "serde".to_string() }
    );
    assert_eq!(entity_value_lookup("rom_total").unwrap_err(), "unsupported entity key 'rom_total'");
}

#[test]
fn outcome_counts_gap_and_boundary() {
    let analyzed = vec![point(0, "a", "release"), point(3, "d", "release")];
    let detection = DetectionResult { values: vec![Some(10), Some(50)], last_good_index: Some(0), first_bad_index: Some(1) };
    let (summary, origin) =
        regression_outcome(&analyzed, &detection, 5, &RegressionDetector::Metric, "rom_total", RegressionMode::FirstCrossing);
    assert_eq!(summary.searched_commit_count, 5);
    assert_eq!(summary.analyzed_commit_count, 2);
    assert_eq!(summary.missing_analysis_count, 3);
    assert!(!summary.mixed_configuration);
    let good = origin.last_good.unwrap();
    assert_eq!(good.short_commit, "a");
    assert_eq!(good.value, Some(10));
    let bad = origin.first_observed_bad.unwrap();
    assert_eq!(bad.short_commit, "d");
    assert_eq!(bad.subject, "change d");
    assert_eq!(bad.value, Some(50));
    assert_eq!(origin.first_bad_candidate.unwrap().short_commit, "d");
    assert!(!summary.reasoning.is_empty());
}

#[test]
fn outcome_with_mixed_configurations_is_low_confidence() {
    let analyzed = vec![point(0, "a", "release"), point(1, "b", "debug")];
    let detection = DetectionResult { values: vec![Some(10), Some(50)], last_good_index: Some(0), first_bad_index: Some(1) };
    let (summary, _) =
        regression_outcome(&analyzed, &detection, 2, &RegressionDetector::Metric, "rom_total", RegressionMode::FirstCrossing);
    assert!(summary.mixed_configuration);
    assert_eq!(summary.confidence, RegressionConfidence::Low);
}

#[test]
fn outcome_without_analysed_commits_is_unknown() {
    let (summary, origin) = regression_outcome(
        &vec![],
        &DetectionResult::default(),
        4,
        &RegressionDetector::Rule,
        "RAM_THRESHOLD",
        RegressionMode::FirstViolation,
    );
    assert_eq!(summary.missing_analysis_count, 4);
    assert_eq!(summary.confidence, RegressionConfidence::Unknown);
    assert!(origin.last_good.is_none() && origin.first_observed_bad.is_none());
}

#[test]
fn rule_hits_are_matched_exactly() {
    let ids = vec!["ROM_THRESHOLD".to_string(), "LARGE_SYMBOL".to_string()];
    assert!(rules_include(&ids, "LARGE_SYMBOL"));
    assert!(!rules_include(&ids, "LARGE"));
    assert!(!rules_include(&vec![], "LARGE_SYMBOL"));
}
