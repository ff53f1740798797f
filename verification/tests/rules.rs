use fwmap::model::{
    LinkerFamily, MapFormat, SourceLinesMode, ToolchainSelection, DiffChangeKind, DiffEntry, DiffResult, DiffSummary, LinkerScriptInfo, MemoryRegion, RegionUsageSummary, RuleKind,
    RuleSeverityConfig, SectionCategory, SectionInfo, SectionPlacement, SymbolInfo, WarningLevel, WarningSource,
};
use fwmap::rules::{
    apply_name_filters, custom_rule_result, evaluate_custom_rule, large_symbols, low_free_regions, memory_capacity,
    section_growth_entry, section_region_mismatch, symbol_spike, to_warning_item, validate_rule, validate_rule_config,
    wildcard_match, CustomRule, RuleContext, RuleSeverity,
};

fn entry(name: &str, current: u64, previous: u64, delta: i64) -> DiffEntry {
    DiffEntry {
        name: name.to_string(),
        current,
        previous,
        delta,
        change: DiffChangeKind::Increased,
    }
}

fn empty_diff() -> DiffResult {
    DiffResult {
        rom_delta: 0,
        ram_delta: 0,
        unknown_source_delta: 0,
        summary: DiffSummary::default(),
        section_diffs: Vec::new(),
        symbol_diffs: Vec::new(),
        object_diffs: Vec::new(),
        archive_diffs: Vec::new(),
        source_file_diffs: Vec::new(),
        function_diffs: Vec::new(),
        line_diffs: Vec::new(),
        cpp_template_family_diffs: Vec::new(),
        cpp_class_diffs: Vec::new(),
        cpp_runtime_overhead_diffs: Vec::new(),
        cpp_lambda_group_diffs: Vec::new(),
    }
}

fn symbol(name: &str, size: u64) -> SymbolInfo {
    SymbolInfo {
        name: name.to_string(),
        demangled_name: None,
        section_name: None,
        object_path: None,
        addr: 0,
        size,
    }
}

fn stub_context() -> RuleContext {
    RuleContext {
        sections: Vec::new(),
        symbols: vec![symbol("blob", 5000)],
        object_contributions: Vec::new(),
        region_summaries: vec![RegionUsageSummary {
            region_name: "RAM".to_string(),
            origin: 0x2000_0000,
            length: 55,
            used: 52,
            free: 3,
            sections: Vec::new(),
        }],
        linker_script: None,
        diff: None,
        symbol_growth_bytes: 4 * 1024,
        region_low_free_bytes: 4 * 1024,
        large_symbol_bytes: 4 * 1024,
    }
}

fn rule(id: &str, kind: RuleKind, severity: RuleSeverityConfig, message: &str) -> CustomRule {
    CustomRule {
        id: id.to_string(),
        kind,
        severity,
        message: message.to_string(),
        enabled: true,
        region: None,
        section: None,
        symbol: None,
        object: None,
        pattern: None,
        has_ratio_threshold: false,
        threshold_bytes: None,
        warn_if_delta_bytes_gt: None,
        allowlist: Vec::new(),
        denylist: Vec::new(),
    }
}

#[test]
fn custom_rules_can_raise_error_severity() {
    let context = stub_context();
    let mut custom = rule("blob-is-forbidden", RuleKind::SymbolMatch, RuleSeverityConfig::Error, "blob symbol must not exist");
    custom.symbol = Some("blob".to_string());
    let warnings: Vec<_> = evaluate_custom_rule(&context, &custom)
        .unwrap()
        .into_iter()
        .map(to_warning_item)
        .collect();
    assert!(warnings.iter().any(|warning| warning.code == "blob-is-forbidden" && warning.level == WarningLevel::Error));
}

#[test]
fn source_and_function_growth_rules_match_patterns() {
    let mut context = stub_context();
    let mut diff = empty_diff();
    diff.source_file_diffs = vec![entry("src/app/main.cpp", 8192, 1024, 7168)];
    diff.function_diffs = vec![entry("src/app/main.cpp::IRQHandler", 2048, 256, 1792)];
    context.diff = Some(diff);
    let mut sources = rule("app_sources_growth", RuleKind::SourcePathGrowth, RuleSeverityConfig::Warn, "app sources grew");
    sources.pattern = Some("src/app/**".to_string());
    sources.threshold_bytes = Some(4096);
    let mut irq = rule("irq_handler_growth", RuleKind::FunctionGrowth, RuleSeverityConfig::Error, "IRQ handler grew");
    irq.pattern = Some("*IRQHandler".to_string());
    irq.threshold_bytes = Some(1024);
    let a = evaluate_custom_rule(&context, &sources).unwrap();
    assert_eq!(a.len(), 1);
    assert_eq!(a[0].code, "app_sources_growth");
    assert_eq!(a[0].related.as_deref(), Some("src/app/main.cpp"));
    let b = evaluate_custom_rule(&context, &irq).unwrap();
    assert_eq!(b.len(), 1);
    assert_eq!(b[0].severity, RuleSeverity::Error);
    assert_eq!(b[0].message, "IRQ handler grew");
    irq.threshold_bytes = Some(1792);
    assert!(evaluate_custom_rule(&context, &irq).unwrap().is_empty());
}

#[test]
fn ratio_rules_are_left_to_the_caller() {
    let context = stub_context();
    let custom = rule("ratio", RuleKind::UnknownSourceRatio, RuleSeverityConfig::Warn, "m");
    assert!(evaluate_custom_rule(&context, &custom).is_none());
    let custom = rule("region", RuleKind::RegionUsage, RuleSeverityConfig::Warn, "m");
    assert!(evaluate_custom_rule(&context, &custom).is_none());
}

#[test]
fn delta_rules_use_names_thresholds_and_lists() {
    let mut context = stub_context();
    let mut diff = empty_diff();
    diff.section_diffs = vec![entry(".data", 42, 20, 22), entry(".bss", 10, 5, 5)];
    diff.symbol_diffs = vec![entry("blob", 5000, 0, 5000)];
    context.diff = Some(diff);
    let mut data = rule("data", RuleKind::SectionDelta, RuleSeverityConfig::Info, "data grew");
    data.section = Some(".data".to_string());
    data.warn_if_delta_bytes_gt = Some(21);
    let r = evaluate_custom_rule(&context, &data).unwrap();
    assert_eq!(r.len(), 1);
    assert_eq!(r[0].severity, RuleSeverity::Info);
    data.warn_if_delta_bytes_gt = Some(22);
    assert!(evaluate_custom_rule(&context, &data).unwrap().is_empty());
    data.warn_if_delta_bytes_gt = Some(0);
    data.denylist = vec![".data".to_string()];
    assert!(evaluate_custom_rule(&context, &data).unwrap().is_empty());
    let mut sym = rule("sym", RuleKind::SymbolDelta, RuleSeverityConfig::Warn, "blob grew");
    sym.symbol = Some("blob".to_string());
    sym.warn_if_delta_bytes_gt = Some(100);
    sym.allowlist = vec!["other".to_string()];
    assert!(evaluate_custom_rule(&context, &sym).unwrap().is_empty());
    sym.allowlist = vec!["blob".to_string()];
    assert_eq!(evaluate_custom_rule(&context, &sym).unwrap().len(), 1);
}

#[test]
fn wildcard_patterns() {
    assert!(wildcard_match("*", "anything"));
    assert!(wildcard_match("src/app/**", "src/app/main.cpp"));
    assert!(!wildcard_match("src/app/**", "src/lib/main.cpp"));
    assert!(wildcard_match("*IRQHandler", "src/app/main.cpp::IRQHandler"));
    assert!(wildcard_match("src/*.c", "src/main.c"));
    assert!(!wildcard_match("src/*.c", "src/main.h"));
    assert!(wildcard_match("exact", "exact"));
    assert!(!wildcard_match("exact", "exactly"));
}

#[test]
fn name_filters() {
    let none: Vec<String> = Vec::new();
    assert!(apply_name_filters("a", &none, &none));
    assert!(!apply_name_filters("a", &vec!["b".to_string()], &none));
    assert!(apply_name_filters("a", &vec!["a".to_string()], &none));
    assert!(!apply_name_filters("a", &vec!["a".to_string()], &vec!["a".to_string()]));
}

#[test]
fn rule_validation_messages() {
    let mut region = rule("r1", RuleKind::RegionUsage, RuleSeverityConfig::Warn, "too full");
    assert_eq!(validate_rule(&region).unwrap_err(), "rule 'r1' requires field 'region'");
    region.region = Some("FLASH".to_string());
    assert_eq!(validate_rule(&region).unwrap_err(), "rule 'r1' requires field 'warn_if_greater_than'");
    region.has_ratio_threshold = true;
    assert!(validate_rule(&region).is_ok());
    let blank = rule("  ", RuleKind::SymbolMatch, RuleSeverityConfig::Warn, "m");
    assert_eq!(validate_rule(&blank).unwrap_err(), "rule id must not be empty");
    let silent = rule("s", RuleKind::SymbolMatch, RuleSeverityConfig::Warn, " ");
    assert_eq!(validate_rule(&silent).unwrap_err(), "rule 's' must have a non-empty message");
    let mut growth = rule("g", RuleKind::FunctionGrowth, RuleSeverityConfig::Warn, "m");
    growth.pattern = Some("*".to_string());
    assert_eq!(validate_rule(&growth).unwrap_err(), "rule 'g' requires field 'threshold_bytes'");
    growth.warn_if_delta_bytes_gt = Some(1);
    assert!(validate_rule(&growth).is_ok());
    assert_eq!(
        validate_rule_config(2, &Vec::new()).unwrap_err(),
        "unsupported rule schema_version 2, expected 1"
    );
    assert_eq!(
        validate_rule_config(1, &vec![growth.clone(), rule("x", RuleKind::ObjectMatch, RuleSeverityConfig::Warn, "m")])
            .unwrap_err(),
        "rule 'x' requires field 'object'"
    );
    assert!(validate_rule_config(1, &vec![growth]).is_ok());
}

#[test]
fn capacity_sums_named_regions_ignoring_case() {
    let regions = vec![
        MemoryRegion { name: "ROM".to_string(), origin: 0, length: 100, attributes: "xr".to_string() },
        MemoryRegion { name: "flash".to_string(), origin: 0x100, length: 28, attributes: "xr".to_string() },
        MemoryRegion { name: "ram".to_string(), origin: 0x2000_0000, length: 55, attributes: "xrw".to_string() },
    ];
    assert_eq!(memory_capacity(&regions, &vec!["rom".to_string(), "flash".to_string()]), Some(128));
    assert_eq!(memory_capacity(&regions, &vec!["ram".to_string()]), Some(55));
    assert_eq!(memory_capacity(&regions, &vec!["ccm".to_string()]), None);
}

#[test]
fn byte_count_default_checks() {
    let mut context = stub_context();
    context.sections = vec![SectionInfo {
        name: ".data".to_string(),
        addr: 0x1000,
        size: 42,
        flags: vec![],
        category: SectionCategory::Ram,
    }];
    context.linker_script = Some(LinkerScriptInfo {
        path: "test.ld".to_string(),
        regions: vec![MemoryRegion {
            name: "RAM".to_string(),
            origin: 0x2000_0000,
            length: 55,
            attributes: "xrw".to_string(),
        }],
        placements: vec![SectionPlacement {
            section_name: ".data".to_string(),
            region_name: "RAM".to_string(),
            load_region_name: None,
            align: None,
            keep: false,
            has_at: false,
        }],
    });
    let mut diff = empty_diff();
    diff.section_diffs = vec![entry(".data", 42, 20, 22)];
    diff.symbol_diffs = vec![entry("blob", 5000, 0, 5000)];
    context.diff = Some(diff);

    let mismatch = section_region_mismatch(&context);
    assert_eq!(mismatch.len(), 1);
    assert_eq!(mismatch[0].code, "SECTION_REGION_MISMATCH");
    assert_eq!(
        mismatch[0].message,
        "Section .data is assigned to region RAM but its address is outside the region range"
    );
    let spike = symbol_spike(&context);
    assert_eq!(spike.len(), 1);
    assert_eq!(spike[0].message, "Symbol growth spike: blob (+5000)");
    assert_eq!(large_symbols(&context), vec![0]);
    assert_eq!(low_free_regions(&context), vec![0]);
    assert_eq!(section_growth_entry(&context, ".data"), Some(0));
    assert_eq!(section_growth_entry(&context, ".bss"), None);

    context.symbol_growth_bytes = 5001;
    assert!(symbol_spike(&context).is_empty());
    context.region_low_free_bytes = 2;
    assert!(low_free_regions(&context).is_empty());
}

#[test]
fn large_symbols_stop_at_five() {
    let mut context = stub_context();
    context.symbols = (0..8).map(|i| symbol(&format!("s{i}"), 5000 + i)).collect();
    context.symbols.insert(2, symbol("small", 1));
    assert_eq!(large_symbols(&context), vec![0, 1, 3, 4, 5]);
}

#[test]
fn warning_items_keep_code_and_level() {
    let r = custom_rule_result(
        &rule("id", RuleKind::SymbolMatch, RuleSeverityConfig::Info, "msg"),
        Some("rel".to_string()),
    );
    let w = to_warning_item(r);
    assert_eq!(w.level, WarningLevel::Info);
    assert_eq!(w.code, "id");
    assert_eq!(w.message, "msg");
    assert_eq!(w.source, WarningSource::Analyze);
    assert_eq!(w.related.as_deref(), Some("rel"));
}

#[test]
fn enum_names_shown_to_users() {
    assert_eq!(WarningLevel::Error.as_text(), "error");
    assert_eq!(WarningSource::MapFile.as_text(), "map");
    assert_eq!(SectionCategory::Rom.as_text(), "ROM");
    assert_eq!(DiffChangeKind::Moved.as_text(), "Moved");
    assert_eq!(ToolchainSelection::Armcc.as_text(), "armcc");
    assert_eq!(MapFormat::LldNative.as_text(), "lld-native");
    assert_eq!(LinkerFamily::Unknown.as_text(), "unknown");
    assert_eq!(SourceLinesMode::Functions.as_text(), "functions");
}
