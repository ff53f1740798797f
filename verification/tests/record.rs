use fwmap::stored::{build_record_of_row, StoredBuildRow, StoredGitRow, StoredRustRow};
use fwmap::linkage::{explain_object, ImageFacts};
use fwmap::metadata::Metadata;
use fwmap::model::{
    RustContext, FunctionAttribution, GitMetadata, ObjectContribution, ObjectSourceKind, WarningItem, WarningLevel,
    WarningSource,
};
use fwmap::record::{
    count_errors, function_key, history_rows, object_totals, store_metadata, DebugArtifactFacts,
    HistoryAnalysis,
};

fn contribution(path: &str, size: u64) -> ObjectContribution {
    ObjectContribution {
        object_path: path.to_string(),
        source_kind: ObjectSourceKind::Object,
        section_name: Some(".text".to_string()),
        size,
    }
}

fn warning(level: WarningLevel, code: &str) -> WarningItem {
    WarningItem {
        level,
        code: code.to_string(),
        message: format!("{code} fired"),
        source: WarningSource::Analyze,
        related: None,
    }
}

fn function(raw: &str, path: Option<&str>, size: u64) -> FunctionAttribution {
    FunctionAttribution {
        raw_name: raw.to_string(),
        demangled_name: None,
        path: path.map(str::to_string),
        size,
        ranges: vec![],
    }
}

fn git(tags: &[&str]) -> GitMetadata {
    GitMetadata {
        repo_root: "/repo".to_string(),
        commit_hash: "0123456789abcdef".to_string(),
        short_commit_hash: "0123456".to_string(),
        branch_name: Some("main".to_string()),
        detached_head: false,
        tag_names: tags.iter().map(|t| t.to_string()).collect(),
        commit_subject: None,
        author_name: None,
        author_email: None,
        commit_timestamp: None,
        describe: None,
        is_dirty: false,
    }
}

fn analysis() -> HistoryAnalysis {
    HistoryAnalysis {
        warnings: vec![
            warning(WarningLevel::Warn, "ROM_THRESHOLD"),
            warning(WarningLevel::Error, "RAM_THRESHOLD"),
            warning(WarningLevel::Error, "REGION_THRESHOLD"),
            warning(WarningLevel::Info, "NOTE"),
        ],
        debug_artifact: DebugArtifactFacts {
            kind: Some("separate".to_string()),
            source: "debuglink".to_string(),
            path: Some("/out/app.debug".to_string()),
            build_id: None,
        },
        image: ImageFacts {
            sections: vec![],
            symbols: vec![],
            object_contributions: vec![contribution("b.o", 10), contribution("a.o", 5), contribution("b.o", 7)],
            archive_contributions: vec![],
            linker_script: None,
        },
        function_attributions: vec![function("f", Some("src/a.c"), 12), function("g", None, 3)],
        git: Some(git(&["v1", "v2"])),
        rust_context: None,
    }
}

fn base_metadata() -> Metadata {
    let mut m = Metadata::new();
    m.insert("build.profile".to_string(), "release".to_string());
    m
}

#[test]
fn stored_metadata_adds_debug_artifact_facts() {
    let a = analysis();
    let m = store_metadata(&base_metadata(), &a.debug_artifact);
    assert_eq!(m.get("build.profile").map(String::as_str), Some("release"));
    assert_eq!(m.get("debug_artifact.kind").map(String::as_str), Some("separate"));
    assert_eq!(m.get("debug_artifact.source").map(String::as_str), Some("debuglink"));
    assert_eq!(m.get("debug_artifact.path").map(String::as_str), Some("/out/app.debug"));
    assert_eq!(m.get("debug_artifact.build_id"), None);
    assert_eq!(m.len(), 4);
}

#[test]
fn no_debug_artifact_keeps_metadata() {
    let artifact = DebugArtifactFacts {
        kind: None,
        source: "none".to_string(),
        path: Some("/ignored".to_string()),
        build_id: Some("abc".to_string()),
    };
    let m = store_metadata(&base_metadata(), &artifact);
    assert_eq!(m.len(), 1);
    assert_eq!(m.get("debug_artifact.path"), None);
}

#[test]
fn errors_are_counted_among_warnings() {
    assert_eq!(count_errors(&analysis().warnings), 2);
    assert_eq!(count_errors(&vec![]), 0);
}

#[test]
fn object_totals_sum_per_path_in_path_order() {
    let rows = object_totals(&analysis().image.object_contributions);
    assert_eq!(rows, vec![("a.o".to_string(), 5), ("b.o".to_string(), 17)]);
    assert!(object_totals(&vec![]).is_empty());
}

#[test]
fn function_keys_join_path_and_raw_name() {
    assert_eq!(function_key(&function("f", Some("src/a.c"), 1)), "src/a.c::f");
    assert_eq!(function_key(&function("g", None, 1)), "g");
}

#[test]
fn history_rows_hold_what_a_build_stores() {
    let a = analysis();
    let rows = history_rows(&a, &base_metadata());
    assert_eq!(
        rows.metadata_json,
        "{\"build.profile\":\"release\",\"debug_artifact.kind\":\"separate\",\"debug_artifact.path\":\"/out/app.debug\",\"debug_artifact.source\":\"debuglink\"}"
    );
    assert_eq!(rows.tag_names_json.as_deref(), Some("[\"v1\",\"v2\"]"));
    assert_eq!(rows.warning_count, 4);
    assert_eq!(rows.error_count, 2);
    assert_eq!(rows.objects, vec![("a.o".to_string(), 5), ("b.o".to_string(), 17)]);
    assert_eq!(rows.functions.len(), 2);
    assert_eq!(rows.functions[0].function_key, "src/a.c::f");
    assert_eq!(rows.functions[0].size, 12);
    assert_eq!(rows.functions[1].function_key, "g");
    assert_eq!(rows.why_linked.len(), 2);
    assert_eq!(rows.why_linked[0].target, "b.o");
    assert_eq!(rows.why_linked[0].kind, "object");
    assert_eq!(rows.why_linked[0].current_size, 17);
    assert_eq!(rows.why_linked[1].target, "a.o");
    assert_eq!(rows.why_linked[1].current_size, 5);
    let expected = explain_object(&a.image, "b.o").unwrap();
    assert_eq!(rows.why_linked[0].summary, expected.summary);
    assert_eq!(rows.why_linked[0].confidence, expected.confidence.as_text());
}

#[test]
fn history_rows_without_git_store_no_tags() {
    let mut a = analysis();
    a.git = None;
    let rows = history_rows(&a, &Metadata::new());
    assert_eq!(rows.tag_names_json, None);
    assert_eq!(
        rows.metadata_json,
        "{\"debug_artifact.kind\":\"separate\",\"debug_artifact.path\":\"/out/app.debug\",\"debug_artifact.source\":\"debuglink\"}"
    );
}

#[test]
fn why_linked_keeps_the_twenty_largest_objects() {
    let mut a = analysis();
    a.image.object_contributions = (0..25).map(|i| contribution(&format!("o{i:02}.o"), 100 + i)).collect();
    let rows = history_rows(&a, &Metadata::new());
    assert_eq!(rows.objects.len(), 25);
    assert_eq!(rows.why_linked.len(), 20);
    assert_eq!(rows.why_linked[0].target, "o24.o");
    assert_eq!(rows.why_linked[19].target, "o05.o");
}

#[test]
fn rust_lists_are_stored_as_json_arrays() {
    let mut a = analysis();
    a.rust_context = Some(RustContext {
        workspace_root: None,
        manifest_path: None,
        package_name: Some("app".to_string()),
        package_id: None,
        target_name: None,
        target_kind: vec!["bin".to_string()],
        crate_types: vec![],
        edition: None,
        target_triple: None,
        profile: None,
        artifact_path: None,
        metadata_source: "cargo".to_string(),
        workspace_members: vec!["a \"quoted\" name".to_string(), "b".to_string()],
    });
    let rows = history_rows(&a, &Metadata::new());
    let lists = rows.rust_lists_json.unwrap();
    assert_eq!(lists.target_kind_json, "[\"bin\"]");
    assert_eq!(lists.crate_types_json, "[]");
    assert_eq!(lists.workspace_members_json, "[\"a \\\"quoted\\\" name\",\"b\"]");
    assert_eq!(history_rows(&analysis(), &Metadata::new()).rust_lists_json, None);
}

#[test]
fn stored_metadata_reads_back_as_written() {
    let a = analysis();
    let rows = history_rows(&a, &base_metadata());
    let stored = StoredBuildRow {
        id: 1,
        created_at: 0,
        elf_path: "a.elf".to_string(),
        arch: "ARM".to_string(),
        linker_family: "gnu".to_string(),
        map_format: "gnu".to_string(),
        rom_bytes: 0,
        ram_bytes: 0,
        warning_count: rows.warning_count as i64,
        error_count: rows.error_count as i64,
        metadata_json: rows.metadata_json.clone(),
        git: StoredGitRow {
            repo_root: Some("/repo".to_string()),
            commit_hash: None,
            short_commit_hash: None,
            branch_name: None,
            detached_head: None,
            tag_names_json: rows.tag_names_json.clone(),
            commit_subject: None,
            author_name: None,
            author_email: None,
            commit_timestamp: None,
            describe: None,
            is_dirty: None,
        },
        rust: StoredRustRow {
            workspace_root: None,
            manifest_path: None,
            package_name: None,
            package_id: None,
            target_name: None,
            target_kind_json: None,
            crate_types_json: None,
            edition: None,
            target_triple: None,
            profile: None,
            artifact_path: None,
            metadata_source: None,
            workspace_members_json: None,
        },
    };
    let back = build_record_of_row(&stored);
    assert_eq!(back.metadata.len(), rows.metadata.len());
    for (key, value) in rows.metadata.entries() {
        assert_eq!(back.metadata.get(key), Some(value));
    }
    assert_eq!(back.git.unwrap().tag_names, vec!["v1".to_string(), "v2".to_string()]);
}

#[test]
fn metadata_json_escapes_quotes_backslashes_and_controls() {
    let mut a = analysis();
    a.debug_artifact.kind = None;
    a.git = None;
    let mut m = Metadata::new();
    m.insert("z".to_string(), "last".to_string());
    m.insert("k".to_string(), "a\"b\\c\n\u{1}\u{7f}é".to_string());
    let rows = history_rows(&a, &m);
    assert_eq!(rows.metadata_json, "{\"k\":\"a\\\"b\\\\c\\n\\u0001\u{7f}é\",\"z\":\"last\"}");
}
