use fwmap::stored::{
    build_record_of_row, git_metadata_of_row, rust_context_of_row, stored_string_list, StoredBuildRow,
    StoredGitRow, StoredRustRow,
};

fn no_git() -> StoredGitRow {
    StoredGitRow {
        repo_root: None,
        commit_hash: None,
        short_commit_hash: None,
        branch_name: None,
        detached_head: None,
        tag_names_json: None,
        commit_subject: None,
        author_name: None,
        author_email: None,
        commit_timestamp: None,
        describe: None,
        is_dirty: None,
    }
}

fn no_rust() -> StoredRustRow {
    StoredRustRow {
        workspace_root: None,
        manifest_path: None,
        package_name: None,
        package_id: None,
        target_name: None,
        target_kind_json: None,
        crate_types_json: None,
        edition: None,
        target_triple: None,
        profile: None,
        artifact_path: None,
        metadata_source: None,
        workspace_members_json: None,
    }
}

fn row(metadata_json: &str) -> StoredBuildRow {
    StoredBuildRow {
        id: 3,
        created_at: 1_700_000_000,
        elf_path: "fw.elf".to_string(),
        arch: "ARM".to_string(),
        linker_family: "gnu".to_string(),
        map_format: "gnu".to_string(),
        rom_bytes: 4096,
        ram_bytes: 512,
        warning_count: 2,
        error_count: 1,
        metadata_json: metadata_json.to_string(),
        git: no_git(),
        rust: no_rust(),
    }
}

#[test]
fn stored_metadata_json_is_decoded() {
    let b = build_record_of_row(&row("{\"build.profile\":\"release\",\"toolchain.id\":\"gnu\"}"));
    assert_eq!(b.id, 3);
    assert_eq!(b.rom_bytes, 4096);
    assert_eq!(b.error_count, 1);
    assert_eq!(b.metadata.len(), 2);
    assert_eq!(b.metadata.get("build.profile").map(String::as_str), Some("release"));
    assert_eq!(b.metadata.get("toolchain.id").map(String::as_str), Some("gnu"));
    assert!(b.git.is_none());
    assert!(b.rust_context.is_none());
}

#[test]
fn unreadable_metadata_is_empty() {
    let b = build_record_of_row(&row("not json"));
    assert_eq!(b.metadata.len(), 0);
    let b = build_record_of_row(&row("[1, 2]"));
    assert_eq!(b.metadata.len(), 0);
}

#[test]
fn git_row_without_root_is_no_git() {
    let mut g = no_git();
    g.commit_hash = Some("abc".to_string());
    assert!(git_metadata_of_row(&g).is_none());
}

#[test]
fn git_row_decodes_tags_and_flags() {
    let mut g = no_git();
    g.repo_root = Some("/repo".to_string());
    g.short_commit_hash = Some("0123456".to_string());
    g.detached_head = Some(1);
    g.is_dirty = Some(0);
    g.tag_names_json = Some("[\"v1\",\"v2\"]".to_string());
    let m = git_metadata_of_row(&g).unwrap();
    assert_eq!(m.repo_root, "/repo");
    assert_eq!(m.commit_hash, "");
    assert_eq!(m.short_commit_hash, "0123456");
    assert!(m.detached_head);
    assert!(!m.is_dirty);
    assert_eq!(m.tag_names, vec!["v1".to_string(), "v2".to_string()]);
}

#[test]
fn stored_lists_default_to_empty() {
    assert!(stored_string_list(&None).is_empty());
    assert!(stored_string_list(&Some("{\"a\":1}".to_string())).is_empty());
    assert_eq!(stored_string_list(&Some("[\"x\"]".to_string())), vec!["x".to_string()]);
}

#[test]
fn rust_row_is_read_only_when_it_names_something() {
    let mut r = no_rust();
    r.metadata_source = Some(String::new());
    assert!(rust_context_of_row(&r).is_none());
    r.package_name = Some("app".to_string());
    r.target_kind_json = Some("[\"bin\",\"lib\"]".to_string());
    let c = rust_context_of_row(&r).unwrap();
    assert_eq!(c.package_name.as_deref(), Some("app"));
    assert_eq!(c.target_kind, vec!["bin".to_string(), "lib".to_string()]);
    assert!(c.crate_types.is_empty());
    assert_eq!(c.metadata_source, "");
}

#[test]
fn metadata_text_reads_back_as_the_map_it_was_written_for() {
    let m = fwmap::stored::metadata_from_json("{\"a\":\"x\\\"y\",\"b\":\"\\u0001\"}");
    assert_eq!(m.len(), 2);
    assert_eq!(m.get("a").map(String::as_str), Some("x\"y"));
    assert_eq!(m.get("b").map(String::as_str), Some("\u{1}"));
    assert_eq!(fwmap::stored::metadata_from_json("{}").len(), 0);
}
