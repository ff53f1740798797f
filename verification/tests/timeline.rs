use fwmap::git::GitCommit;
use fwmap::history::{BuildRecord, CommitTimelineRow, TimelineTopIncreases};
use fwmap::metadata::Metadata;
use fwmap::model::GitMetadata;
use fwmap::timeline::{
    has_mixed_configuration, missing_between_boundary, older_same_variant, select_timeline_items, summarize_range_rows,
};

fn commit(hash: &str) -> GitCommit {
    GitCommit {
        commit: hash.to_string(),
        short_commit: hash[..3].to_string(),
        commit_time: "2024-01-01T00:00:00Z".to_string(),
        author_name: "dev".to_string(),
        subject: format!("subject {hash}"),
    }
}

fn build(id: i64, hash: &str, profile: &str) -> BuildRecord {
    let mut metadata = Metadata::new();
    metadata.insert("build.profile".to_string(), profile.to_string());
    BuildRecord {
        id,
        created_at: 0,
        elf_path: "fw.elf".to_string(),
        arch: "ARM".to_string(),
        linker_family: "gnu".to_string(),
        map_format: "gnu".to_string(),
        rom_bytes: 100,
        ram_bytes: 10,
        warning_count: 0,
        error_count: 0,
        metadata,
        git: Some(GitMetadata {
            repo_root: "/repo".to_string(),
            commit_hash: hash.to_string(),
            short_commit_hash: hash[..3].to_string(),
            branch_name: Some("main".to_string()),
            detached_head: false,
            tag_names: Vec::new(),
            commit_subject: None,
            author_name: None,
            author_email: None,
            commit_timestamp: None,
            describe: None,
            is_dirty: false,
        }),
        rust_context: None,
    }
}

fn row(short: &str, rom: Option<i64>, ram: Option<i64>, violations: u64) -> CommitTimelineRow {
    CommitTimelineRow {
        repo_id: "/repo".to_string(),
        commit: format!("{short}0000"),
        short_commit: short.to_string(),
        commit_time: format!("time-{short}"),
        author_name: "dev".to_string(),
        subject: format!("subject {short}"),
        branch_names: Vec::new(),
        tag_names: Vec::new(),
        describe: None,
        build_profile: None,
        toolchain_id: None,
        target_id: None,
        configuration_fingerprint: None,
        rom_total: 0,
        ram_total: 0,
        rom_delta_vs_previous: rom,
        ram_delta_vs_previous: ram,
        rule_violations_count: violations,
        top_increases: TimelineTopIncreases::default(),
    }
}

#[test]
fn timeline_keeps_commits_with_matching_builds() {
    let commits = vec![commit("ccc111"), commit("bbb222"), commit("aaa333")];
    let builds = vec![
        build(9, "ccc111", "debug"),
        build(8, "ccc111", "release"),
        build(7, "aaa333", "release"),
    ];
    let all = select_timeline_items(&commits, &builds, "/repo", None, None, None, None);
    assert_eq!(all, vec![(0, 0), (2, 2)]);
    let release = select_timeline_items(&commits, &builds, "/repo", Some("release"), None, None, None);
    assert_eq!(release, vec![(2, 2)]);
    let other_repo = select_timeline_items(&commits, &builds, "/other", None, None, None, None);
    assert!(other_repo.is_empty());
    let branch = select_timeline_items(&commits, &builds, "/repo", None, None, None, Some("dev"));
    assert!(branch.is_empty());
}

#[test]
fn each_build_is_compared_with_next_older_of_same_variant() {
    let variants: Vec<String> = ["a", "b", "a", "a", "b"].iter().map(|s| s.to_string()).collect();
    assert_eq!(older_same_variant(&variants), vec![Some(2), Some(4), Some(3), None, None]);
    assert!(older_same_variant(&Vec::new()).is_empty());
}

#[test]
fn range_totals_sum_and_pick_first_worst() {
    let rows = vec![
        row("c5", Some(4), Some(-2), 0),
        row("c4", Some(10), None, 0),
        row("c3", None, Some(7), 2),
        row("c2", Some(10), Some(7), 1),
        row("c1", Some(-3), Some(1), 0),
    ];
    let totals = summarize_range_rows(&rows);
    assert_eq!(totals.cumulative_rom_delta, 21);
    assert_eq!(totals.cumulative_ram_delta, 13);
    let rom = totals.worst_commit_by_rom.unwrap();
    assert_eq!(rom.commit, "c4");
    assert_eq!(rom.delta, 10);
    assert_eq!(rom.subject, "subject c4");
    assert_eq!(rom.date, "time-c4");
    let ram = totals.worst_commit_by_ram.unwrap();
    assert_eq!(ram.commit, "c3");
    assert_eq!(totals.first_rule_violation_row, Some(2));

    let empty = summarize_range_rows(&Vec::new());
    assert_eq!(empty.cumulative_rom_delta, 0);
    assert!(empty.worst_commit_by_rom.is_none());
    assert!(empty.first_rule_violation_row.is_none());
}

#[test]
fn mixed_configuration_and_boundary_gap() {
    let same: Vec<String> = vec!["a|gnu".to_string(), "a|gnu".to_string()];
    assert!(!has_mixed_configuration(&same));
    assert!(!has_mixed_configuration(&Vec::new()));
    let mixed: Vec<String> = vec!["a|gnu".to_string(), "b|gnu".to_string()];
    assert!(has_mixed_configuration(&mixed));

    let positions = vec![0, 3, 9];
    assert_eq!(missing_between_boundary(&positions, Some(1), Some(2), 7), 5);
    assert_eq!(missing_between_boundary(&positions, Some(0), Some(1), 7), 2);
    assert_eq!(missing_between_boundary(&positions, Some(2), Some(1), 7), 0);
    assert_eq!(missing_between_boundary(&positions, None, Some(1), 7), 7);
}

#[test]
fn a_range_compares_its_oldest_and_newest_builds() {
    assert_eq!(fwmap::timeline::range_metric_builds(&vec![9, 7, 4]), Some((2, 0)));
    assert_eq!(fwmap::timeline::range_metric_builds(&vec![5, 5]), None);
    assert_eq!(fwmap::timeline::range_metric_builds(&vec![5]), None);
    assert_eq!(fwmap::timeline::range_metric_builds(&vec![]), None);
}

#[test]
fn changed_sources_are_the_comparison_source_names() {
    use_changed_sources();
}

fn use_changed_sources() {
    let diff = fwmap::history::BuildMetricDiff {
        rom_delta: 0,
        ram_delta: 0,
        sections: vec![],
        objects: vec![],
        source_files: vec![
            fwmap::history::ChangeEntry { name: "src/a.c".to_string(), delta: 4 },
            fwmap::history::ChangeEntry { name: "src/b.c".to_string(), delta: -2 },
        ],
        symbols: vec![],
        rust_dependencies: vec![],
        rust_families: vec![],
    };
    assert_eq!(
        fwmap::timeline::changed_source_names(&Some(diff)),
        vec!["src/a.c".to_string(), "src/b.c".to_string()]
    );
    assert!(fwmap::timeline::changed_source_names(&None).is_empty());
}
