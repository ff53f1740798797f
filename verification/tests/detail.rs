use fwmap::detail::{build_detail_text, BuildDebugInfo, BuildDetail};
use fwmap::history::{BuildRecord, WhyLinkedRecord};
use fwmap::metadata::Metadata;
use fwmap::model::{GitMetadata, RustContext};

fn record(git: Option<GitMetadata>, rust: Option<RustContext>) -> BuildRecord {
    let mut metadata = Metadata::new();
    metadata.insert("toolchain.id".to_string(), "gnu".to_string());
    metadata.insert("build.profile".to_string(), "release".to_string());
    BuildRecord {
        id: 7,
        created_at: 1700000000,
        elf_path: "fw.elf".to_string(),
        arch: "ARM".to_string(),
        linker_family: "gnu".to_string(),
        map_format: "gnu".to_string(),
        rom_bytes: 4096,
        ram_bytes: 512,
        warning_count: 1,
        error_count: 0,
        metadata,
        git,
        rust_context: rust,
    }
}

fn detail(build: BuildRecord) -> BuildDetail {
    BuildDetail {
        build,
        debug_info: BuildDebugInfo {
            dwarf_used: true,
            unknown_ratio_percent: "12.5".to_string(),
            compilation_units: 3,
            source_file_count: 4,
            function_count: 5,
        },
        top_sections: vec![(".text".to_string(), 4000)],
        regions: vec![("FLASH".to_string(), 4096, 1024, "80.0".to_string())],
        top_source_files: vec![("src/main.c".to_string(), 300, 2, 6)],
        top_functions: vec![("main".to_string(), "src/main.c".to_string(), 120)],
        rust_packages: vec![("app".to_string(), 900, 12)],
        rust_targets: vec![],
        rust_crates: vec![],
        rust_dependencies: vec![],
        rust_source_files: vec![],
        rust_families: vec![],
        why_linked: vec![WhyLinkedRecord {
            target: "main.o".to_string(),
            kind: "object".to_string(),
            confidence: "high".to_string(),
            summary: "main.o contributes .text".to_string(),
            current_size: 800,
        }],
        warnings: vec![
            ("ROM_THRESHOLD".to_string(), "warn".to_string(), None),
            ("LARGE_SYMBOL".to_string(), "info".to_string(), Some("blob".to_string())),
        ],
    }
}

const BODY: &str = "DWARF: used | Unknown ratio: 12.5% | CUs: 3 | Source files: 4 | Functions: 5
Metadata:
  build.profile=release
  toolchain.id=gnu
Top sections:
  .text 4000
Regions:
  FLASH used=4096 free=1024 usage=80.0%
Top source files:
  src/main.c 300 functions=2 line_ranges=6
Top functions:
  main src/main.c 120
";

const TAIL: &str = "Why linked:
  main.o [object high] main.o contributes .text (800)
Warnings:
  ROM_THRESHOLD [warn] -
  LARGE_SYMBOL [info] blob
";

const HEADER: &str = "Build #7 at 1700000000
ELF: fw.elf | Arch: ARM | Linker: gnu | Map: gnu | ROM: 4096 | RAM: 512 | Warnings: 1 | Errors: 0
";

#[test]
fn build_detail_lists_every_non_empty_section() {
    let text = build_detail_text(&detail(record(None, None)), false);
    assert_eq!(text, format!("{HEADER}{BODY}{TAIL}"));
}

#[test]
fn rust_view_adds_the_rust_aggregates() {
    let text = build_detail_text(&detail(record(None, None)), true);
    assert_eq!(text, format!("{HEADER}{BODY}Rust packages:\n  app 900 symbols=12\n{TAIL}"));
}

#[test]
fn git_and_rust_lines_follow_the_header() {
    let git = GitMetadata {
        repo_root: "/repo".to_string(),
        commit_hash: "0123456789".to_string(),
        short_commit_hash: "0123456".to_string(),
        branch_name: None,
        detached_head: true,
        tag_names: vec![],
        commit_subject: Some("Fix boot".to_string()),
        author_name: None,
        author_email: None,
        commit_timestamp: None,
        describe: Some("v1.2-3-g0123456".to_string()),
        is_dirty: true,
    };
    let rust = RustContext {
        workspace_root: None,
        manifest_path: None,
        package_name: None,
        package_id: None,
        target_name: Some("fw".to_string()),
        target_kind: vec!["bin".to_string(), "lib".to_string()],
        crate_types: vec![],
        edition: None,
        target_triple: Some("thumbv7em-none-eabihf".to_string()),
        profile: None,
        artifact_path: None,
        metadata_source: "cargo".to_string(),
        workspace_members: vec![],
    };
    let text = build_detail_text(&detail(record(Some(git), Some(rust))), false);
    let expected = format!(
        "{HEADER}Git: 0123456 | detached | describe=v1.2-3-g0123456 | dirty\nGit subject: Fix boot\nRust: - | target=fw | kind=bin,lib | triple=thumbv7em-none-eabihf\n{BODY}{TAIL}"
    );
    assert_eq!(text, expected);
}

#[test]
fn negative_ids_and_empty_lists_are_shown_plainly() {
    let mut d = detail(record(None, None));
    d.build.id = -1;
    d.build.metadata = Metadata::new();
    d.top_sections.clear();
    d.regions.clear();
    d.top_source_files.clear();
    d.top_functions.clear();
    d.why_linked.clear();
    d.warnings.clear();
    d.debug_info.dwarf_used = false;
    let text = build_detail_text(&d, true);
    assert!(text.starts_with("Build #-1 at 1700000000\n"));
    assert!(text.ends_with(
        "DWARF: not used | Unknown ratio: 12.5% | CUs: 3 | Source files: 4 | Functions: 5\nRust packages:\n  app 900 symbols=12\n"
    ));
}
