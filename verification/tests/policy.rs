use fwmap::cpp::{CppAggregate, CppView};
use fwmap::model::{
    ArchiveContribution, DiffChangeKind, DiffEntry, DiffResult, DiffSummary, ObjectContribution, ObjectSourceKind,
    RegionUsageSummary, SourceFile, WarningLevel,
};
use fwmap::policy::{
    dump_effective_policy, validate_policy_config, evaluate_policy, policy_warnings, PolicyBudget, PolicyBudgets, PolicyConfigFile, PolicyError, PolicyMatchSpec,
    PolicyOwnerRule, PolicyProfile, PolicySubject, PolicyWaiver,
};

fn budget() -> PolicyBudget {
    PolicyBudget { max_bytes: None, warn_bytes: None, max_delta_bytes: None, warn_delta_bytes: None, severity: None }
}

fn aggregate(name: &str, size: u64, count: usize) -> CppAggregate {
    CppAggregate { name: name.to_string(), size, symbol_count: count }
}

fn sample_analysis() -> PolicySubject {
    PolicySubject {
        source_files: vec![SourceFile {
            path: "src/net/socket.cpp".to_string(),
            display_path: "src/net/socket.cpp".to_string(),
            directory: "src/net".to_string(),
            size: 420,
            functions: 2,
            line_ranges: 4,
        }],
        object_contributions: vec![ObjectContribution {
            object_path: "build/net.o".to_string(),
            source_kind: ObjectSourceKind::Object,
            section_name: Some(".text".to_string()),
            size: 420,
        }],
        archive_contributions: vec![ArchiveContribution {
            archive_path: "libcrypto.a".to_string(),
            member_path: Some("aes.o".to_string()),
            section_name: Some(".text".to_string()),
            size: 260,
        }],
        region_summaries: vec![RegionUsageSummary {
            region_name: "FLASH".to_string(),
            origin: 0x0800_0000,
            length: 1024,
            used: 800,
            free: 224,
            sections: Vec::new(),
        }],
        cpp_view: CppView {
            top_namespaces: Vec::new(),
            top_classes: vec![aggregate("net::Socket", 240, 2)],
            top_method_families: Vec::new(),
            top_template_families: vec![aggregate("etl::vector<...>", 180, 1)],
            runtime_overhead: Vec::new(),
            lambda_groups: Vec::new(),
            classified_symbols: Vec::new(),
        },
    }
}

fn entry(name: &str, current: u64, previous: u64, delta: i64) -> DiffEntry {
    DiffEntry { name: name.to_string(), current, previous, delta, change: DiffChangeKind::Increased }
}

fn sample_diff() -> DiffResult {
    DiffResult {
        rom_delta: 300,
        ram_delta: 16,
        unknown_source_delta: 0,
        summary: DiffSummary::default(),
        section_diffs: Vec::new(),
        symbol_diffs: Vec::new(),
        object_diffs: Vec::new(),
        archive_diffs: vec![entry("libcrypto.a", 260, 80, 180)],
        source_file_diffs: vec![entry("src/net/socket.cpp", 420, 80, 340)],
        function_diffs: Vec::new(),
        line_diffs: Vec::new(),
        cpp_template_family_diffs: vec![entry("etl::vector<...>", 180, 60, 120)],
        cpp_class_diffs: vec![entry("net::Socket", 240, 100, 140)],
        cpp_runtime_overhead_diffs: Vec::new(),
        cpp_lambda_group_diffs: Vec::new(),
    }
}

fn spec_paths(paths: &[&str]) -> PolicyMatchSpec {
    PolicyMatchSpec { paths: paths.iter().map(|p| p.to_string()).collect(), ..PolicyMatchSpec::default() }
}

fn spec_libraries(libs: &[&str]) -> PolicyMatchSpec {
    PolicyMatchSpec { libraries: libs.iter().map(|p| p.to_string()).collect(), ..PolicyMatchSpec::default() }
}

fn profile(budgets: PolicyBudgets) -> PolicyProfile {
    PolicyProfile { budgets }
}

fn config(profiles: Vec<(&str, PolicyBudgets)>, owners: Vec<PolicyOwnerRule>, waivers: Vec<PolicyWaiver>, default: Option<&str>) -> PolicyConfigFile {
    PolicyConfigFile {
        version: 2,
        default_profile: default.map(str::to_string),
        profiles: profiles.into_iter().map(|(n, b)| (n.to_string(), profile(b))).collect(),
        owners,
        waivers,
    }
}

fn today() -> String {
    "2030-06-15".to_string()
}

#[test]
fn resolves_owner_by_path_and_library() {
    let current = sample_analysis();
    let budgets = PolicyBudgets {
        paths: vec![("src/net/**".to_string(), PolicyBudget { warn_delta_bytes: Some(128), ..budget() })],
        libraries: vec![("libcrypto.a".to_string(), PolicyBudget { warn_delta_bytes: Some(128), ..budget() })],
        ..PolicyBudgets::default()
    };
    let owners = vec![
        PolicyOwnerRule { owner: "network-team".to_string(), match_spec: spec_paths(&["src/net/**"]) },
        PolicyOwnerRule { owner: "security-team".to_string(), match_spec: spec_libraries(&["libcrypto.a"]) },
    ];
    let config = config(vec![("release", budgets)], owners, Vec::new(), Some("release"));
    let evaluation = evaluate_policy(&current, Some(&sample_diff()), &config, Some("release"), &today()).unwrap();
    assert!(evaluation.owners.iter().any(|item| item.target == "src/net/socket.cpp" && item.owner == "network-team"));
    assert!(evaluation.owners.iter().any(|item| item.target == "libcrypto.a" && item.owner == "security-team"));
    assert_eq!(evaluation.owners[0].target_kind, "library");
    assert_eq!(evaluation.owners[1].target_kind, "path");
    let path_violation = evaluation.violations.iter().find(|v| v.target_kind == "path").unwrap();
    assert_eq!(path_violation.owner.as_deref(), Some("network-team"));
    assert_eq!(path_violation.rule_id, "budget.path.delta.warn");
    assert_eq!(path_violation.delta_bytes, Some(340));
}

#[test]
fn flags_region_and_path_budget_violations() {
    let current = sample_analysis();
    let budgets = PolicyBudgets {
        regions: vec![("FLASH".to_string(), PolicyBudget { max_bytes: Some(700), ..budget() })],
        paths: vec![("src/net/**".to_string(), PolicyBudget { max_delta_bytes: Some(256), ..budget() })],
        ..PolicyBudgets::default()
    };
    let config = config(vec![("release", budgets)], Vec::new(), Vec::new(), Some("release"));
    let evaluation = evaluate_policy(&current, Some(&sample_diff()), &config, None, &today()).unwrap();
    assert!(evaluation.violations.iter().any(|item| item.rule_id == "budget.region.absolute"));
    assert!(evaluation.violations.iter().any(|item| item.rule_id == "budget.path.delta"));
    assert_eq!(evaluation.violations[0].message, "Region FLASH exceeded policy budget");
    assert_eq!(evaluation.violations[0].level, WarningLevel::Error);
    assert_eq!(evaluation.violations[1].message, "Path budget exceeded delta policy budget");
}

#[test]
fn applies_active_waiver_and_reports_expired_waiver() {
    let current = sample_analysis();
    let budgets = PolicyBudgets {
        paths: vec![("src/net/**".to_string(), PolicyBudget { max_delta_bytes: Some(256), ..budget() })],
        libraries: vec![("libcrypto.a".to_string(), PolicyBudget { max_delta_bytes: Some(128), ..budget() })],
        ..PolicyBudgets::default()
    };
    let waivers = vec![
        PolicyWaiver {
            rule: "budget.path.delta".to_string(),
            reason: "migration".to_string(),
            expires: "2099-12-31".to_string(),
            match_spec: spec_paths(&["src/net/**"]),
        },
        PolicyWaiver {
            rule: "budget.library.delta".to_string(),
            reason: "temporary".to_string(),
            expires: "2020-01-01".to_string(),
            match_spec: spec_libraries(&["libcrypto.a"]),
        },
    ];
    let config = config(vec![("release", budgets)], Vec::new(), waivers, Some("release"));
    let evaluation = evaluate_policy(&current, Some(&sample_diff()), &config, None, &today()).unwrap();
    assert!(evaluation.waived.iter().any(|item| item.rule_id == "budget.path.delta"));
    assert!(evaluation.expired_waivers.iter().any(|item| item.rule == "budget.library.delta"));
    let warnings = policy_warnings(&evaluation);
    assert!(warnings.iter().any(|item| item.code == "POLICY_WAIVER_EXPIRED"));
    assert_eq!(evaluation.violations.len(), 1);
    assert_eq!(evaluation.waived[0].waiver.as_ref().unwrap().reason, "migration");
}

#[test]
fn supports_multi_profile_selection() {
    let current = sample_analysis();
    let debug = PolicyBudgets {
        paths: vec![("src/net/**".to_string(), PolicyBudget { warn_delta_bytes: Some(2048), ..budget() })],
        ..PolicyBudgets::default()
    };
    let release = PolicyBudgets {
        paths: vec![("src/net/**".to_string(), PolicyBudget { warn_delta_bytes: Some(128), ..budget() })],
        ..PolicyBudgets::default()
    };
    let config = config(vec![("debug", debug), ("release", release)], Vec::new(), Vec::new(), None);
    let debug_eval = evaluate_policy(&current, Some(&sample_diff()), &config, Some("debug"), &today()).unwrap();
    let release_eval = evaluate_policy(&current, Some(&sample_diff()), &config, Some("release"), &today()).unwrap();
    assert!(debug_eval.violations.is_empty());
    assert!(!release_eval.violations.is_empty());
    assert_eq!(release_eval.profile, "release");
}

#[test]
fn unknown_profile_is_reported() {
    let current = sample_analysis();
    let config = config(vec![("release", PolicyBudgets::default())], Vec::new(), Vec::new(), None);
    match evaluate_policy(&current, None, &config, Some("nightly"), &today()) {
        Err(PolicyError::ProfileNotFound(name)) => assert_eq!(name, "nightly"),
        other => panic!("unexpected {other:?}"),
    }
    let evaluation = evaluate_policy(&current, None, &config, None, &today()).unwrap();
    assert_eq!(evaluation.profile, "release");
    assert!(evaluation.violations.is_empty());
}

#[test]
fn class_and_template_budgets_sum_matching_entries() {
    let current = sample_analysis();
    let budgets = PolicyBudgets {
        cpp_classes: vec![("net::*".to_string(), PolicyBudget { max_bytes: Some(200), ..budget() })],
        cpp_template_families: vec![("etl::*".to_string(), PolicyBudget { warn_bytes: Some(100), ..budget() })],
        ..PolicyBudgets::default()
    };
    let config = config(vec![("release", budgets)], Vec::new(), Vec::new(), None);
    let evaluation = evaluate_policy(&current, None, &config, None, &today()).unwrap();
    assert_eq!(evaluation.violations.len(), 2);
    assert_eq!(evaluation.violations[0].rule_id, "budget.cpp_class.absolute");
    assert_eq!(evaluation.violations[0].current_bytes, Some(240));
    assert_eq!(evaluation.violations[0].delta_bytes, None);
    assert_eq!(evaluation.violations[1].rule_id, "budget.cpp_template_family.warn");
    assert_eq!(evaluation.violations[1].level, WarningLevel::Warn);
}

#[test]
fn policy_files_are_checked_in_order() {
    let mut file = config(vec![("release", PolicyBudgets::default())], Vec::new(), Vec::new(), None);
    assert!(validate_policy_config(&file).is_ok());
    file.version = 1;
    let err = validate_policy_config(&file).unwrap_err();
    assert_eq!(err, PolicyError::UnsupportedVersion(1));
    assert_eq!(err.message(), "unsupported policy version 1, expected 2");
    file.version = 2;
    file.owners = vec![
        PolicyOwnerRule { owner: "team".to_string(), match_spec: spec_paths(&["src/**"]) },
        PolicyOwnerRule { owner: "lonely".to_string(), match_spec: PolicyMatchSpec::default() },
    ];
    file.waivers = vec![PolicyWaiver {
        rule: "budget.path.delta".to_string(),
        reason: " ".to_string(),
        expires: "2030-01-01".to_string(),
        match_spec: spec_paths(&["src/**"]),
    }];
    let err = validate_policy_config(&file).unwrap_err();
    assert_eq!(err.message(), "policy owner match must define at least one selector");
    file.owners.pop();
    let err = validate_policy_config(&file).unwrap_err();
    assert_eq!(err.message(), "policy waiver 'budget.path.delta' requires a reason");
    file.waivers[0].reason = "migration".to_string();
    file.waivers[0].expires = "2030-01".to_string();
    let err = validate_policy_config(&file).unwrap_err();
    assert_eq!(err.message(), "invalid waiver date '2030-01', expected YYYY-MM-DD");
    file.profiles.clear();
    assert_eq!(validate_policy_config(&file).unwrap_err().message(), "policy must define at least one profile");
    assert_eq!(
        PolicyError::DefaultProfileNotFound("ci".to_string()).message(),
        "policy default_profile 'ci' was not found"
    );
}

#[test]
fn effective_policy_dump_counts_everything() {
    let current = sample_analysis();
    let budgets = PolicyBudgets {
        paths: vec![("src/net/**".to_string(), PolicyBudget { warn_delta_bytes: Some(128), ..budget() })],
        ..PolicyBudgets::default()
    };
    let file = config(vec![("release", budgets)], Vec::new(), Vec::new(), None);
    let evaluation = evaluate_policy(&current, Some(&sample_diff()), &file, None, &today()).unwrap();
    assert_eq!(
        dump_effective_policy(&evaluation),
        "Policy profile: release\nBudgets: regions=0 paths=1 libraries=0 cpp_classes=0 cpp_template_families=0\nOwners: 0\nWaivers: 0\nViolations: 1\nWaived: 0\nExpired waivers: 0"
    );
}
