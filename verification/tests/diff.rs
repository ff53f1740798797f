use fwmap::cpp::build_cpp_view;
use fwmap::diff::{
    archive_member_key, count_kind, diff_named, diff_results, function_key, line_key, names_for_kind,
    object_key, section_key, source_file_key, symbol_key, top_increases, AnalysisSnapshot,
};
use fwmap::model::{
    ArchiveContribution, DiffChangeKind, FunctionAttribution, LineRangeAttribution, ObjectContribution,
    ObjectSourceKind, SectionCategory, SectionTotal, SourceFile, SourceSpan, SymbolInfo,
};

fn snapshot(
    sections: &[(&str, u64)],
    symbols: &[(&str, u64)],
    objects: &[(&str, u64)],
    archives: &[(&str, Option<&str>, u64)],
) -> AnalysisSnapshot {
    AnalysisSnapshot {
        rom_bytes: sections.iter().map(|s| s.1).sum(),
        ram_bytes: 0,
        section_totals: sections
            .iter()
            .map(|(name, size)| SectionTotal { section_name: name.to_string(), size: *size, category: SectionCategory::Rom })
            .collect(),
        symbols: symbols
            .iter()
            .map(|(name, size)| SymbolInfo {
                name: name.to_string(),
                demangled_name: None,
                section_name: None,
                object_path: None,
                addr: 0,
                size: *size,
            })
            .collect(),
        object_contributions: objects
            .iter()
            .map(|(path, size)| ObjectContribution {
                object_path: path.to_string(),
                source_kind: ObjectSourceKind::Object,
                section_name: None,
                size: *size,
            })
            .collect(),
        archive_contributions: archives
            .iter()
            .map(|(archive, member, size)| ArchiveContribution {
                archive_path: archive.to_string(),
                member_path: member.map(str::to_string),
                section_name: None,
                size: *size,
            })
            .collect(),
        source_files: vec![],
        function_attributions: vec![],
        line_hotspots: vec![],
        cpp_view: build_cpp_view(&vec![]),
        unknown_source_size: 0,
    }
}

#[test]
fn classifies_added_removed_increased_and_decreased() {
    let current = snapshot(
        &[(".text", 120), (".new", 8)],
        &[("grow", 10), ("new_symbol", 4)],
        &[("main.o", 30)],
        &[("lib.a", Some("a.o"), 16)],
    );
    let previous = snapshot(
        &[(".text", 100), (".old", 8)],
        &[("grow", 8), ("gone", 3)],
        &[("main.o", 10), ("old.o", 3)],
        &[("lib.a", Some("gone.o"), 7)],
    );
    let diff = diff_results(&current, &previous);
    assert!(diff.section_diffs.iter().any(|item| item.name == ".new" && item.change == DiffChangeKind::Added));
    assert!(diff.section_diffs.iter().any(|item| item.name == ".old" && item.change == DiffChangeKind::Removed));
    assert!(diff.symbol_diffs.iter().any(|item| item.name == "grow" && item.change == DiffChangeKind::Increased));
    assert!(diff.object_diffs.iter().any(|item| item.name == "old.o" && item.change == DiffChangeKind::Removed));
    assert_eq!(archive_member_key(&current.archive_contributions[0]), "lib.a:a.o");
    assert_eq!(diff.rom_delta, 20);
    assert_eq!(diff.summary.section_added, 1);
    assert_eq!(diff.summary.section_removed, 1);
    assert_eq!(diff.summary.section_increased, 1);
}

#[test]
fn exposes_top_growth_and_kind_lists() {
    let current = snapshot(&[(".text", 12)], &[("a", 10), ("b", 0)], &[("obj.o", 20)], &[]);
    let previous = snapshot(&[(".text", 8)], &[("a", 1), ("c", 5)], &[("obj.o", 2)], &[]);
    let diff = diff_results(&current, &previous);
    assert_eq!(top_increases(&diff.symbol_diffs, 1)[0].name, "a");
    assert!(names_for_kind(&diff.symbol_diffs, DiffChangeKind::Removed, 10).contains(&"c".to_string()));
    assert_eq!(section_key(".text"), ".text");
    assert_eq!(symbol_key("foo"), "foo");
    assert_eq!(object_key(ObjectSourceKind::Object, "bar.o"), "bar.o");
    assert_eq!(object_key(ObjectSourceKind::Internal, "<internal>"), "[internal] <internal>");
    assert_eq!(source_file_key("src/main.c"), "src/main.c");
    assert_eq!(function_key(Some("src/main.c"), "main"), "src/main.c::main");
    assert_eq!(line_key("src/main.c", 10, 12), "src/main.c:10-12");
}

#[test]
fn diff_named_orders_by_change_size_then_kind_then_name() {
    let current = vec![("b".to_string(), 5), ("a".to_string(), 5), ("x".to_string(), 1), ("x".to_string(), 3)];
    let previous = vec![("c".to_string(), 5), ("x".to_string(), 3)];
    let diff = diff_named(&current, &previous);
    let names: Vec<&str> = diff.iter().map(|e| e.name.as_str()).collect();
    assert_eq!(names, vec!["a", "b", "c", "x"]);
    assert_eq!(diff[2].change, DiffChangeKind::Removed);
    assert_eq!(diff[2].delta, -5);
    assert_eq!(diff[3].change, DiffChangeKind::Unchanged);
    assert_eq!(diff[3].current, 3);
    assert_eq!(count_kind(&diff, DiffChangeKind::Added), 2);
}

#[test]
fn diff_of_identical_lists_is_unchanged() {
    let items = vec![("a".to_string(), 5), ("b".to_string(), 0)];
    let diff = diff_named(&items, &items);
    assert!(diff.iter().all(|e| e.change == DiffChangeKind::Unchanged && e.delta == 0));
    assert_eq!(diff.len(), 2);
}

fn sized_snapshot(rom: u64, ram: u64, sections: &[(&str, u64)], symbols: &[(&str, u64)]) -> AnalysisSnapshot {
    let mut s = snapshot(sections, symbols, &[], &[]);
    s.rom_bytes = rom;
    s.ram_bytes = ram;
    s
}

fn check_diffs_by_name() {
    let current = sized_snapshot(120, 45, &[(".text", 120)], &[("main", 80)]);
    let previous = sized_snapshot(100, 40, &[(".text", 100)], &[("main", 60)]);
    let diff = diff_results(&current, &previous);
    assert_eq!(diff.rom_delta, 20);
    assert_eq!(diff.ram_delta, 5);
    assert_eq!(diff.section_diffs[0].name, ".text");
    assert_eq!(diff.symbol_diffs[0].delta, 20);
    assert_eq!(diff.symbol_diffs[0].change, DiffChangeKind::Increased);
}

#[test]
fn computes_diffs_by_name() {
    check_diffs_by_name();
}

#[test]
fn analyze_computes_diffs_by_name() {
    check_diffs_by_name();
}

fn source_file(size: u64, line_ranges: usize) -> SourceFile {
    SourceFile {
        path: "src/main.c".to_string(),
        display_path: "src/main.c".to_string(),
        directory: "src".to_string(),
        size,
        functions: 1,
        line_ranges,
    }
}

fn main_function(size: u64, line_end: u64) -> FunctionAttribution {
    FunctionAttribution {
        raw_name: "main".to_string(),
        demangled_name: None,
        path: Some("src/main.c".to_string()),
        size,
        ranges: vec![SourceSpan { path: "src/main.c".to_string(), line_start: 10, line_end, column: None }],
    }
}

fn hotspot(size: u64, line_end: u64) -> LineRangeAttribution {
    LineRangeAttribution {
        path: "src/main.c".to_string(),
        line_start: 10,
        line_end,
        section_name: Some(".text".to_string()),
        size,
    }
}

#[test]
fn computes_source_level_diffs() {
    let mut current = snapshot(&[], &[], &[], &[]);
    current.source_files = vec![source_file(20, 2)];
    current.function_attributions = vec![main_function(20, 12)];
    current.line_hotspots = vec![hotspot(20, 12)];
    current.unknown_source_size = 4;
    let mut previous = snapshot(&[], &[], &[], &[]);
    previous.source_files = vec![source_file(8, 1)];
    previous.function_attributions = vec![main_function(8, 10)];
    previous.line_hotspots = vec![hotspot(8, 10)];
    previous.unknown_source_size = 1;
    let diff = diff_results(&current, &previous);
    assert_eq!(diff.unknown_source_delta, 3);
    assert!(diff.source_file_diffs.iter().any(|item| item.name == "src/main.c" && item.delta == 12));
    assert!(diff.function_diffs.iter().any(|item| item.name == "src/main.c::main" && item.delta == 12));
    assert!(diff
        .line_diffs
        .iter()
        .any(|item| item.name == "src/main.c:10-12" && item.change == DiffChangeKind::Added));
}

#[test]
fn computes_cpp_group_diffs() {
    let mut current = snapshot(&[], &[("_ZN3app3Foo3barEv", 30), ("_ZTVN3app3FooE", 20)], &[], &[]);
    current.symbols[0].demangled_name = Some("app::Foo::bar()".to_string());
    current.symbols[1].demangled_name = Some("vtable for app::Foo".to_string());
    current.cpp_view = build_cpp_view(&current.symbols);

    let mut previous = snapshot(&[], &[("_ZN3app3Foo3barEv", 10)], &[], &[]);
    previous.symbols[0].demangled_name = Some("app::Foo::bar()".to_string());
    previous.cpp_view = build_cpp_view(&previous.symbols);

    let diff = diff_results(&current, &previous);
    assert!(diff.cpp_class_diffs.iter().any(|item| item.name == "app::Foo" && item.delta == 40));
    assert!(diff.cpp_runtime_overhead_diffs.iter().any(|item| item.name == "vtable" && item.delta == 20));
}
