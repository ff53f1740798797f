use fwmap::analyze::{build_memory_summary, resolve_toolchain_without_map, section_in_region, sorted_symbols};
use fwmap::model::{ToolchainKind, ToolchainSelection};
use fwmap::model::{MemoryRegion, SectionCategory, SectionInfo, SectionPlacement, SymbolInfo};
use fwmap::analyze::{aggregate_archives, aggregate_objects};
use fwmap::model::{ArchiveContribution, ObjectContribution, ObjectSourceKind};

fn symbol(name: &str, size: u64) -> SymbolInfo {
    SymbolInfo {
        name: name.to_string(),
        demangled_name: None,
        section_name: None,
        object_path: None,
        addr: 0,
        size,
    }
}

#[test]
fn sorts_symbols_by_size() {
    let symbols = vec![symbol("small", 1), symbol("big", 10)];
    let sorted = sorted_symbols(symbols);
    assert_eq!(sorted[0].name, "big");
}

#[test]
fn analyze_sorts_symbols_by_size() {
    let symbols = vec![symbol("small", 1), symbol("big", 10)];
    let sorted = sorted_symbols(symbols);
    assert_eq!(sorted[0].name, "big");
}

#[test]
fn sorted_symbols_breaks_ties_by_name_and_keeps_all() {
    let symbols = vec![symbol("b", 5), symbol("a", 5), symbol("c", 9), symbol("d", 1)];
    let sorted = sorted_symbols(symbols);
    let names: Vec<&str> = sorted.iter().map(|s| s.name.as_str()).collect();
    assert_eq!(names, vec!["c", "a", "b", "d"]);
}

#[test]
fn classifies_rom_and_ram_totals() {
    let sections = vec![
        SectionInfo {
            name: ".text".to_string(),
            addr: 0,
            size: 100,
            flags: vec!["ALLOC".to_string(), "EXEC".to_string()],
            category: SectionCategory::Rom,
        },
        SectionInfo {
            name: ".data".to_string(),
            addr: 0,
            size: 32,
            flags: vec!["ALLOC".to_string(), "WRITE".to_string()],
            category: SectionCategory::Ram,
        },
    ];
    let summary = build_memory_summary(&sections, &vec![], &vec![]);
    assert_eq!(summary.rom_bytes, 100);
    assert_eq!(summary.ram_bytes, 32);
    assert_eq!(summary.section_totals[0].section_name, ".text");
    assert_eq!(summary.section_totals[1].size, 32);
}

#[test]
fn builds_region_summary_from_placements() {
    let sections = vec![
        SectionInfo {
            name: ".text".to_string(),
            addr: 0x0800_0000,
            size: 100,
            flags: vec![],
            category: SectionCategory::Rom,
        },
        SectionInfo {
            name: ".data".to_string(),
            addr: 0x2000_0000,
            size: 20,
            flags: vec![],
            category: SectionCategory::Ram,
        },
    ];
    let regions = vec![
        MemoryRegion { name: "FLASH".to_string(), origin: 0x0800_0000, length: 256, attributes: "rx".to_string() },
        MemoryRegion { name: "RAM".to_string(), origin: 0x2000_0000, length: 128, attributes: "rwx".to_string() },
    ];
    let placements = vec![
        SectionPlacement { section_name: ".text".to_string(), region_name: "FLASH".to_string(), load_region_name: None, align: None, keep: false, has_at: false },
        SectionPlacement { section_name: ".data".to_string(), region_name: "RAM".to_string(), load_region_name: Some("FLASH".to_string()), align: None, keep: false, has_at: true },
    ];
    let summary = build_memory_summary(&sections, &regions, &placements);
    assert_eq!(summary.region_summaries.len(), 2);
    assert_eq!(summary.region_summaries[0].used, 100);
    assert_eq!(summary.region_summaries[0].free, 156);
    assert_eq!(summary.region_summaries[1].region_name, "RAM");
    assert_eq!(summary.region_summaries[1].free, 108);
}

#[test]
fn region_membership_by_placement_ignores_case_and_falls_back_to_address() {
    let section = SectionInfo {
        name: ".bss".to_string(),
        addr: 0x9000,
        size: 8,
        flags: vec![],
        category: SectionCategory::Ram,
    };
    let region = MemoryRegion { name: "SRAM".to_string(), origin: 0x1000, length: 0x100, attributes: String::new() };
    let by_name = vec![SectionPlacement { section_name: ".bss".to_string(), region_name: "sram".to_string(), load_region_name: None, align: None, keep: false, has_at: false }];
    assert!(section_in_region(&section, &region, &by_name));
    let other = vec![SectionPlacement { section_name: ".bss".to_string(), region_name: "DTCM".to_string(), load_region_name: None, align: None, keep: false, has_at: false }];
    assert!(!section_in_region(&section, &region, &other));
    let inside = MemoryRegion { name: "X".to_string(), origin: 0x8000, length: 0x1001, attributes: String::new() };
    assert!(section_in_region(&section, &inside, &other));
}

#[test]
fn aggregates_object_and_archive_contributions() {
    let obj = |path: &str, section: Option<&str>, size: u64| ObjectContribution {
        object_path: path.to_string(),
        source_kind: ObjectSourceKind::Object,
        section_name: section.map(str::to_string),
        size,
    };
    let merged = aggregate_objects(&vec![
        obj("b.o", Some(".text"), 10),
        obj("a.o", Some(".text"), 5),
        obj("b.o", Some(".text"), 7),
        obj("a.o", Some(".data"), 17),
        obj("c.o", None, 1),
    ]);
    let got: Vec<(String, Option<String>, u64)> =
        merged.iter().map(|o| (o.object_path.clone(), o.section_name.clone(), o.size)).collect();
    assert_eq!(
        got,
        vec![
            ("a.o".to_string(), Some(".data".to_string()), 17),
            ("b.o".to_string(), Some(".text".to_string()), 17),
            ("a.o".to_string(), Some(".text".to_string()), 5),
            ("c.o".to_string(), None, 1),
        ]
    );
    let arc = |path: &str, member: Option<&str>, size: u64| ArchiveContribution {
        archive_path: path.to_string(),
        member_path: member.map(str::to_string),
        section_name: Some(".text".to_string()),
        size,
    };
    let archives = aggregate_archives(&vec![arc("libm.a", Some("sin.o"), 4), arc("libc.a", Some("printf.o"), 9), arc("libm.a", Some("sin.o"), 6)]);
    assert_eq!(archives.len(), 2);
    assert_eq!((archives[0].archive_path.as_str(), archives[0].size), ("libm.a", 10));
    assert_eq!((archives[1].archive_path.as_str(), archives[1].size), ("libc.a", 9));
}

#[test]
fn toolchain_without_map_defaults_to_gnu() {
    assert_eq!(resolve_toolchain_without_map(ToolchainSelection::Lld), ToolchainKind::Lld);
    assert_eq!(resolve_toolchain_without_map(ToolchainSelection::Auto), ToolchainKind::Gnu);
    assert_eq!(resolve_toolchain_without_map(ToolchainSelection::Iar), ToolchainKind::Gnu);
}
