use fwmap::linkage::{
    build_linkage_graph, explain_object, explain_section, explain_symbol, explain_top_growth, Confidence,
    EvidenceKind, ImageFacts, LinkageEdgeKind, LinkageNodeKind,
};
use fwmap::model::{
    ArchiveContribution, DiffChangeKind, DiffEntry, DiffResult, DiffSummary, LinkerScriptInfo, ObjectContribution,
    ObjectSourceKind, SectionCategory, SectionInfo, SectionPlacement, SymbolInfo,
};

fn sample_analysis() -> ImageFacts {
    ImageFacts {
        sections: vec![
            SectionInfo {
                name: ".text".to_string(),
                addr: 0,
                size: 0x40,
                flags: vec!["ALLOC".to_string()],
                category: SectionCategory::Rom,
            },
            SectionInfo {
                name: ".isr_vector".to_string(),
                addr: 0x40,
                size: 0x10,
                flags: vec!["ALLOC".to_string()],
                category: SectionCategory::Rom,
            },
        ],
        symbols: vec![SymbolInfo {
            name: "main".to_string(),
            demangled_name: None,
            section_name: Some(".text".to_string()),
            object_path: None,
            addr: 0,
            size: 8,
        }],
        object_contributions: vec![ObjectContribution {
            object_path: "build/main.o".to_string(),
            source_kind: ObjectSourceKind::Object,
            section_name: Some(".text".to_string()),
            size: 0x20,
        }],
        archive_contributions: vec![ArchiveContribution {
            archive_path: "libapp.a".to_string(),
            member_path: Some("startup.o".to_string()),
            section_name: Some(".isr_vector".to_string()),
            size: 0x10,
        }],
        linker_script: Some(LinkerScriptInfo {
            path: "sample.ld".to_string(),
            regions: Vec::new(),
            placements: vec![
                SectionPlacement {
                    section_name: ".text".to_string(),
                    region_name: "FLASH".to_string(),
                    load_region_name: None,
                    align: None,
                    keep: false,
                    has_at: false,
                },
                SectionPlacement {
                    section_name: ".isr_vector".to_string(),
                    region_name: "FLASH".to_string(),
                    load_region_name: None,
                    align: None,
                    keep: true,
                    has_at: false,
                },
            ],
        }),
    }
}

fn entry(name: &str, current: u64, delta: i64) -> DiffEntry {
    DiffEntry { name: name.to_string(), current, previous: 0, delta, change: DiffChangeKind::Added }
}

fn diff_with(symbols: Vec<DiffEntry>, objects: Vec<DiffEntry>) -> DiffResult {
    DiffResult {
        rom_delta: 8,
        ram_delta: 0,
        unknown_source_delta: 0,
        summary: DiffSummary::default(),
        section_diffs: Vec::new(),
        symbol_diffs: symbols,
        object_diffs: objects,
        archive_diffs: Vec::new(),
        source_file_diffs: Vec::new(),
        function_diffs: Vec::new(),
        line_diffs: Vec::new(),
        cpp_template_family_diffs: Vec::new(),
        cpp_class_diffs: Vec::new(),
        cpp_runtime_overhead_diffs: Vec::new(),
        cpp_lambda_group_diffs: Vec::new(),
    }
}

#[test]
fn explains_archive_member_with_map_evidence() {
    let analysis = sample_analysis();
    let explain = explain_object(&analysis, "libapp.a(startup.o)").unwrap();
    assert_eq!(explain.confidence, Confidence::Medium);
    assert!(explain.summary.contains("archive member"));
    assert!(explain.evidence.iter().any(|item| item.detail.contains("contributes")));
}

#[test]
fn explains_keep_section_with_high_confidence() {
    let analysis = sample_analysis();
    let explain = explain_section(&analysis, ".isr_vector").unwrap();
    assert_eq!(explain.confidence, Confidence::High);
    assert!(explain.evidence.iter().any(|item| item.detail.contains("KEEP")));
}

#[test]
fn symbol_falls_back_to_candidate_object_when_direct_object_is_missing() {
    let mut analysis = sample_analysis();
    analysis.symbols[0].name = "worker_tick".to_string();
    let explain = explain_symbol(&analysis, "worker_tick").unwrap();
    assert_eq!(explain.confidence, Confidence::Low);
    assert!(explain.summary.contains("Candidate contributing object"));
}

#[test]
fn builds_graph_and_top_growth_explanations() {
    let analysis = sample_analysis();
    let graph = build_linkage_graph(&analysis);
    assert!(graph.nodes.iter().any(|item| item.name == ".text"));
    assert!(graph.edges.iter().any(|item| item.detail.as_deref().unwrap_or("").contains("KEEP")));

    let diff = diff_with(vec![entry("main", 8, 8)], vec![entry("libapp.a:startup.o", 16, 16)]);
    let why = explain_top_growth(&analysis, &diff, 3);
    assert_eq!(why.top_symbols.len(), 1);
    assert_eq!(why.top_objects.len(), 1);
}

#[test]
fn section_explanation_texts_are_exact() {
    let analysis = sample_analysis();
    let explain = explain_section(&analysis, ".isr_vector").unwrap();
    assert_eq!(explain.summary, "Section .isr_vector is placed in FLASH by the linker script");
    assert_eq!(explain.evidence[0].detail, "Section .isr_vector is present at 0x40 with 16 bytes");
    assert_eq!(explain.evidence[1].detail, "Linker script places .isr_vector in FLASH and marks it with KEEP");
    assert_eq!(explain.evidence[1].source, "linker_script");
    let text = explain_section(&analysis, ".text").unwrap();
    assert_eq!(text.confidence, Confidence::Medium);
    assert!(explain_section(&analysis, ".bss").is_none());
}

#[test]
fn entry_symbol_is_explained_with_high_confidence() {
    let analysis = sample_analysis();
    let explain = explain_symbol(&analysis, "main").unwrap();
    assert_eq!(explain.confidence, Confidence::High);
    assert_eq!(
        explain.evidence[0].detail,
        "Symbol main is present in .text at 0x0 (8 bytes)"
    );
    assert_eq!(explain.evidence.last().unwrap().kind, EvidenceKind::EntryRoot);
    assert_eq!(explain.summary, "main resolves into .text. Candidate contributing object: build/main.o");
    assert!(explain_symbol(&analysis, "missing").is_none());
}

#[test]
fn direct_object_explanation_and_normalized_queries() {
    let analysis = sample_analysis();
    let explain = explain_object(&analysis, "build\\main.o").unwrap();
    assert_eq!(explain.confidence, Confidence::Medium);
    assert_eq!(
        explain.summary,
        "build\\main.o is linked because the map records direct contributions into the final image"
    );
    assert_eq!(explain.evidence[0].detail, "build/main.o contributes 32 bytes to .text");
    let archive = explain_object(&analysis, "libapp.a:startup.o").unwrap();
    assert_eq!(
        archive.summary,
        "libapp.a:startup.o is linked because the map records archive member contributions to .isr_vector (16)"
    );
    assert!(explain_object(&analysis, "other.o").is_none());
}

#[test]
fn graph_nodes_are_unique_and_ordered() {
    let mut analysis = sample_analysis();
    analysis.symbols.push(analysis.symbols[0].clone());
    let graph = build_linkage_graph(&analysis);
    let ids: Vec<&str> = graph.nodes.iter().map(|n| n.id.as_str()).collect();
    let mut sorted = ids.clone();
    sorted.sort();
    sorted.dedup();
    assert_eq!(ids, sorted);
    assert!(graph.nodes.iter().any(|n| n.kind == LinkageNodeKind::EntryRoot && n.id == "entry:main"));
    assert!(graph.nodes.iter().any(|n| n.id == "object:object:libapp.a(startup.o)"));
    assert_eq!(graph.edges.iter().filter(|e| e.kind == LinkageEdgeKind::EntryRoot).count(), 1);
    let keys: Vec<_> = graph.edges.iter().map(|e| (e.from.clone(), e.to.clone(), e.kind, e.detail.clone())).collect();
    let mut sorted_keys = keys.clone();
    sorted_keys.sort();
    sorted_keys.dedup();
    assert_eq!(keys, sorted_keys);
}

#[test]
fn top_growth_limit_of_zero_still_explains_one() {
    let analysis = sample_analysis();
    let diff = diff_with(vec![entry("main", 8, 8), entry("missing", 4, 4)], Vec::new());
    let why = explain_top_growth(&analysis, &diff, 0);
    assert_eq!(why.top_symbols.len(), 1);
    assert_eq!(why.top_objects.len(), 0);
}
