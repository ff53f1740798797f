use fwmap::rust_ingest::{
    begin_rust_resolution, candidates_from_messages, dedup_candidates, filter_candidates, finish_fallback_resolution,
    infer_target_triple, is_analyzable_artifact, message_lines, normalize_metadata, package_name_from_id,
    profile_name, resolve_candidate_without_explicit, select_artifact_path, select_context_candidate_for_explicit,
    select_fallback_artifact, CargoArtifactProfile, CargoBuildMessage, CargoBuildTarget, CargoMetadata, CargoPackage,
    CargoTarget, ResolutionStep, ResolveRustArtifactMode, RustArtifactCandidate, RustInputs,
};

fn candidate(package_id: &str, target: &str, executable: Option<&str>, files: &[&str]) -> RustArtifactCandidate {
    RustArtifactCandidate {
        package_id: package_id.to_string(),
        target_name: target.to_string(),
        target_kind: vec!["bin".to_string()],
        crate_types: vec!["bin".to_string()],
        profile: Some("release".to_string()),
        target_triple: None,
        executable: executable.map(str::to_string),
        filenames: files.iter().map(|f| f.to_string()).collect(),
        fresh: false,
    }
}

fn auto_inputs() -> RustInputs {
    RustInputs { resolve_artifact: ResolveRustArtifactMode::Auto, ..RustInputs::default() }
}

fn message(reason: &str, package_id: Option<&str>, target: Option<&str>, executable: Option<&str>) -> CargoBuildMessage {
    CargoBuildMessage {
        reason: reason.to_string(),
        package_id: package_id.map(str::to_string),
        target: target.map(|name| CargoBuildTarget {
            name: name.to_string(),
            kind: vec!["bin".to_string()],
            crate_types: vec!["bin".to_string()],
        }),
        executable: executable.map(str::to_string),
        filenames: executable.iter().map(|e| e.to_string()).collect(),
        profile: Some(CargoArtifactProfile { opt_level: "3".to_string(), test: false }),
        fresh: Some(true),
    }
}

fn metadata() -> CargoMetadata {
    CargoMetadata {
        workspace_root: "C:\\work\\fw".to_string(),
        target_directory: "/work/fw/target".to_string(),
        workspace_members: vec!["path+file:///work/fw#app@0.1.0".to_string()],
        packages: vec![CargoPackage {
            id: "path+file:///work/fw#app@0.1.0".to_string(),
            name: "app".to_string(),
            manifest_path: "C:\\work\\fw\\Cargo.toml".to_string(),
            edition: Some("2021".to_string()),
            targets: vec![CargoTarget {
                name: "app".to_string(),
                kind: vec!["bin".to_string()],
                crate_types: vec!["bin".to_string()],
                edition: None,
            }],
        }],
    }
}

#[test]
fn package_names_come_from_ids() {
    assert_eq!(package_name_from_id("path+file:///work/fw#app@0.1.0").unwrap(), "app");
    assert_eq!(package_name_from_id("registry#serde@1.0.0").unwrap(), "serde");
    assert_eq!(package_name_from_id("app 0.1.0 (path+file:///w)").unwrap(), "app 0.1.0 (path+file:///w)");
    assert_eq!(package_name_from_id("file:///w/app#0.2.0").unwrap(), "0.2.0");
}

#[test]
fn recognizes_analyzable_artifacts() {
    assert!(is_analyzable_artifact("target/release/app"));
    assert!(is_analyzable_artifact("target/release/app.ELF"));
    assert!(is_analyzable_artifact("target/release/libapp.so"));
    assert!(!is_analyzable_artifact("target/release/app.d"));
    assert!(!is_analyzable_artifact("target/release/libapp.rlib"));
    assert!(!is_analyzable_artifact("target/release/app.o"));
    assert!(!is_analyzable_artifact("target/release/app.txt"));
    assert!(!is_analyzable_artifact("target/.."));
    assert!(is_analyzable_artifact("target/.hidden"));
}

#[test]
fn profile_names_follow_optimisation_and_tests() {
    assert_eq!(profile_name("3", false), "release");
    assert_eq!(profile_name("0", false), "debug");
    assert_eq!(profile_name("0", true), "test");
}

#[test]
fn infers_target_triple_from_paths() {
    let triple = infer_target_triple(&Some("/w/target/thumbv7em-none-eabihf/release/app".to_string()), &Vec::new());
    assert_eq!(triple.as_deref(), Some("thumbv7em-none-eabihf"));
    let none = infer_target_triple(&Some("/w/target/release/app".to_string()), &Vec::new());
    assert_eq!(none, None);
    let from_files = infer_target_triple(&None, &vec!["C:\\w\\target\\x86_64-pc-windows-msvc\\debug\\a.exe".to_string()]);
    assert_eq!(from_files.as_deref(), Some("x86_64-pc-windows-msvc"));
}

#[test]
fn build_messages_become_deduplicated_candidates() {
    let raw = "{\"reason\":\"compiler-artifact\"}\n\n   \n  tail  \r\n";
    let lines = message_lines(raw);
    assert_eq!(lines, vec![(0, "{\"reason\":\"compiler-artifact\"}".to_string()), (3, "tail".to_string())]);

    let msgs = vec![
        (0, Some(message("compiler-artifact", Some("p#app@0.1.0"), Some("app"), Some("/w/target/release/app")))),
        (1, None),
        (2, Some(message("build-finished", None, None, None))),
        (3, Some(message("compiler-artifact", Some("p#app@0.1.0"), Some("app"), Some("/w/target/release/app")))),
    ];
    let candidates = candidates_from_messages(&msgs).unwrap();
    assert_eq!(candidates.len(), 1);
    assert_eq!(candidates[0].target_name, "app");
    assert_eq!(candidates[0].profile.as_deref(), Some("release"));
    assert!(candidates[0].fresh);

    let missing = vec![(4, Some(message("compiler-artifact", None, Some("app"), None)))];
    assert_eq!(candidates_from_messages(&missing).unwrap_err(), "cargo build JSON line 5 is missing package_id");
    let no_target = vec![(6, Some(message("compiler-artifact", Some("p#a@1"), None, None)))];
    assert_eq!(candidates_from_messages(&no_target).unwrap_err(), "cargo build JSON line 7 is missing target");
}

#[test]
fn dedup_keeps_first_of_each_key() {
    let a = candidate("p#a@1", "a", Some("/t/a"), &[]);
    let mut b = candidate("p#a@1", "a", Some("\\t\\a"), &[]);
    b.fresh = true;
    let c = candidate("p#a@1", "b", Some("/t/b"), &[]);
    let out = dedup_candidates(vec![a.clone(), b, c.clone()]);
    assert_eq!(out, vec![a, c]);
}

#[test]
fn detects_ambiguity_without_filters() {
    let candidates = vec![
        candidate("p#app@1", "app", Some("/w/target/release/app"), &[]),
        candidate("p#app@1", "app-helper", Some("/w/target/release/app-helper"), &[]),
    ];
    let error = resolve_candidate_without_explicit(&candidates, &auto_inputs()).unwrap_err();
    assert!(error.contains("Multiple Rust artifacts matched"));
    assert!(error.ends_with(
        "  - package=app target=app kind=bin artifact=/w/target/release/app\n  - package=app target=app-helper kind=bin artifact=/w/target/release/app-helper"
    ));
}

#[test]
fn resolves_with_target_filter() {
    let candidates = vec![
        candidate("p#app@1", "app", Some("/w/target/release/app"), &[]),
        candidate("p#app@1", "app-helper", Some("/w/target/release/app-helper"), &[]),
    ];
    let inputs = RustInputs { cargo_target_name: Some("app-helper".to_string()), ..auto_inputs() };
    let chosen = resolve_candidate_without_explicit(&candidates, &inputs).unwrap().unwrap();
    assert_eq!(chosen.target_name, "app-helper");
    assert_eq!(filter_candidates(&candidates, &inputs).len(), 1);
    let step = begin_rust_resolution(None, &inputs, Some(&metadata()), &candidates).unwrap();
    match step {
        ResolutionStep::Resolved(res) => {
            assert_eq!(res.resolved_elf.as_deref(), Some("/w/target/release/app-helper"));
            let ctx = res.rust_context.unwrap();
            assert_eq!(ctx.package_name.as_deref(), Some("app"));
            assert_eq!(ctx.target_name.as_deref(), Some("app"));
            assert_eq!(ctx.metadata_source, "explicit-elf");
            assert_eq!(ctx.workspace_members, vec!["app".to_string()]);
        }
        ResolutionStep::ListTargetDirectory(_) => panic!("expected a resolution"),
    }
}

#[test]
fn explicit_elf_preserves_context_without_ambiguity_failure() {
    let candidates = vec![
        candidate("p#app@1", "app", Some("/w/target/release/app"), &[]),
        candidate("p#app@1", "app-helper", Some("/w/target/release/app-helper"), &[]),
    ];
    let chosen = select_context_candidate_for_explicit("\\w\\target\\release\\app", &candidates, &auto_inputs());
    assert_eq!(chosen.unwrap().target_name, "app");
    let step = begin_rust_resolution(Some("custom.elf"), &auto_inputs(), None, &candidates).unwrap();
    match step {
        ResolutionStep::Resolved(res) => {
            assert_eq!(res.resolved_elf.as_deref(), Some("custom.elf"));
            assert_eq!(res.rust_context.unwrap().artifact_path.as_deref(), Some("custom.elf"));
        }
        ResolutionStep::ListTargetDirectory(_) => panic!("expected a resolution"),
    }
}

#[test]
fn metadata_only_requires_explicit_resolution_or_fallback() {
    let md = metadata();
    let error = begin_rust_resolution(None, &auto_inputs(), Some(&md), &Vec::new()).unwrap_err();
    assert!(error.contains("no build artifact could be resolved"));
    let fallback = RustInputs { allow_target_dir_fallback: true, ..auto_inputs() };
    match begin_rust_resolution(None, &fallback, Some(&md), &Vec::new()).unwrap() {
        ResolutionStep::ListTargetDirectory(dir) => assert_eq!(dir, "/work/fw/target"),
        ResolutionStep::Resolved(_) => panic!("expected a listing"),
    }
    let disabled = begin_rust_resolution(None, &fallback, None, &Vec::new()).unwrap_err();
    assert!(disabled.contains("disabled unless Cargo metadata"));
}

#[test]
fn fallback_search_can_resolve_target_dir_artifact() {
    let md = metadata();
    let inputs = RustInputs { allow_target_dir_fallback: true, cargo_target_name: Some("app".to_string()), ..auto_inputs() };
    let files = vec![
        "/work/fw/target/release/app".to_string(),
        "/work/fw/target/release/app.d".to_string(),
        "/work/fw/target/release/other".to_string(),
    ];
    let res = finish_fallback_resolution(&inputs, &md, Some(&files)).unwrap();
    assert_eq!(res.resolved_elf.as_deref(), Some("/work/fw/target/release/app"));
    assert_eq!(res.rust_context.unwrap().metadata_source, "cargo-target-dir-fallback");
    let missing = finish_fallback_resolution(&inputs, &md, None).unwrap_err();
    assert!(missing.ends_with("does not exist: /work/fw/target"));
}

#[test]
fn fallback_lists_candidates_in_descending_order() {
    let inputs = auto_inputs();
    let files = vec!["/t/a".to_string(), "/t/c".to_string(), "\\t\\c".to_string(), "/t/b".to_string()];
    let error = select_fallback_artifact(&files, &inputs).unwrap_err();
    assert!(error.ends_with("\n  - /t/c\n  - /t/b\n  - /t/a"));
    let same = vec!["/t/x".to_string(), "\\t\\x".to_string()];
    assert_eq!(select_fallback_artifact(&same, &inputs).unwrap(), "/t/x");
    assert!(select_fallback_artifact(&Vec::new(), &inputs).unwrap_err().contains("no analyzable target artifact"));
}

#[test]
fn target_triple_filter_keeps_host_target_candidates_when_triple_is_unknown() {
    let mut cross = candidate("p#app@1", "app", Some("/w/target/thumbv7em-none-eabi/release/app"), &[]);
    cross.target_triple = Some("thumbv7em-none-eabi".to_string());
    let host = candidate("p#app@1", "app", Some("/w/target/release/app"), &[]);
    let inputs = RustInputs { cargo_target_triple: Some("x86_64-unknown-linux-gnu".to_string()), ..auto_inputs() };
    let kept = filter_candidates(&vec![cross, host.clone()], &inputs);
    assert_eq!(kept, vec![host]);
}

#[test]
fn artifact_path_prefers_executable_then_files() {
    let c = candidate("p#a@1", "a", Some("/t/a.d"), &["/t/liba.rlib", "/t/a.exe"]);
    assert_eq!(select_artifact_path(&c).as_deref(), Some("/t/a.exe"));
    let none = candidate("p#a@1", "a", None, &["/t/a.o"]);
    assert_eq!(select_artifact_path(&none), None);
}

#[test]
fn metadata_paths_are_normalized() {
    let md = normalize_metadata(metadata());
    assert_eq!(md.workspace_root, "C:/work/fw");
    assert_eq!(md.packages[0].manifest_path, "C:/work/fw/Cargo.toml");
}
