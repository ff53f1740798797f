use fwmap::demangle::demangle_symbol;
use fwmap::model::{DemangleMode, RustContext, SymbolInfo};
use fwmap::rust_view::{
    aggregate_group_sizes, build_rust_view, classify_family, derive_crate_name, top_group_symbols,
    RustFamilyKind, RustGroupBy,
};
use fwmap::rust_ingest::{has_rust_inputs, RustInputs};

fn context() -> RustContext {
    RustContext {
        workspace_root: Some("/workspace/fwmap".to_string()),
        manifest_path: Some("/workspace/fwmap/Cargo.toml".to_string()),
        package_name: Some("fwmap".to_string()),
        package_id: None,
        target_name: Some("fwmap".to_string()),
        target_kind: vec!["bin".to_string()],
        crate_types: vec!["bin".to_string()],
        edition: Some("2024".to_string()),
        target_triple: Some("x86_64-unknown-linux-gnu".to_string()),
        profile: Some("release".to_string()),
        artifact_path: None,
        metadata_source: "test".to_string(),
        workspace_members: vec!["fwmap".to_string()],
    }
}

fn symbols() -> Vec<SymbolInfo> {
    vec![
        SymbolInfo {
            name: "_RNvNtCs3fwmap3app4main".to_string(),
            demangled_name: Some("fwmap::app::main".to_string()),
            section_name: None,
            object_path: Some("target/release/deps/fwmap.o".to_string()),
            addr: 0,
            size: 100,
        },
        SymbolInfo {
            name: "_RNvNtCs5serde4ser9to_string".to_string(),
            demangled_name: Some("serde::ser::to_string".to_string()),
            section_name: None,
            object_path: Some("target/release/deps/libserde.rlib".to_string()),
            addr: 10,
            size: 40,
        },
    ]
}

#[test]
fn demangles_rust_v0_symbol() {
    let value = demangle_symbol("_RNvCs1234_4test4main", DemangleMode::On);
    assert!(value.is_some());
}

#[test]
fn normalizes_generic_closure_async_families() {
    let (kind_generic, key_generic, _) = classify_family("app::foo::<alloc::vec::Vec<u8>>");
    assert_eq!(kind_generic, RustFamilyKind::Generic);
    assert!(key_generic.contains("<...>"));

    let (kind_closure, _, _) = classify_family("app::main::{{closure}}");
    assert_eq!(kind_closure, RustFamilyKind::Closure);

    let (kind_async, _, _) = classify_family("core::future::from_generator::GenFuture<app::run::{{closure}}>");
    assert_eq!(kind_async, RustFamilyKind::Async);
}

#[test]
fn derives_crate_name_from_demangled_path() {
    assert_eq!(
        derive_crate_name("serde_json::ser::to_string", None).as_deref(),
        Some("serde_json")
    );
}

#[test]
fn builds_rust_view_from_symbols() {
    let ctx = context();
    let view = build_rust_view(&symbols(), Some(&ctx), &vec![], &vec![]).unwrap();
    assert_eq!(view.total_rust_size, 140);
    assert_eq!(view.packages[0].name, "fwmap");
    assert_eq!(view.targets[0].name, "fwmap");
    assert_eq!(view.dependency_crates[0].name, "serde");
    assert_eq!(aggregate_group_sizes(&view, RustGroupBy::Crate).len(), 2);
}

#[test]
fn degrades_gracefully_without_rust_symbols() {
    let plain = vec![SymbolInfo {
        name: "main".to_string(),
        demangled_name: None,
        section_name: None,
        object_path: None,
        addr: 0,
        size: 8,
    }];
    assert!(build_rust_view(&plain, None, &vec![], &vec![]).is_none());
}

#[test]
fn rust_family_keys_and_crate_names() {
    let (kind, key, display) = classify_family("app::run::h0123456789abcdef");
    assert_eq!(kind, RustFamilyKind::Function);
    assert_eq!(key, "app::run");
    assert_eq!(display, "app::run");
    let (kind, key, _) = classify_family("<app::Foo as core::fmt::Debug>::fmt");
    assert_eq!(kind, RustFamilyKind::Trait);
    assert_eq!(key, "<...>::fmt");
    assert_eq!(
        derive_crate_name("<alloc::vec::Vec<u8> as core::clone::Clone>::clone", None).as_deref(),
        Some("alloc")
    );
    assert_eq!(derive_crate_name("_", None), None);
}

#[test]
fn rust_group_queries() {
    let ctx = context();
    let view = build_rust_view(&symbols(), Some(&ctx), &vec![], &vec![]).unwrap();
    assert_eq!(
        aggregate_group_sizes(&view, RustGroupBy::Crate),
        vec![("fwmap".to_string(), 100), ("serde".to_string(), 40)]
    );
    assert_eq!(
        top_group_symbols(&view, RustGroupBy::Package, "fwmap", 1),
        vec!["fwmap::app::main".to_string()]
    );
    assert_eq!(view.symbols[0].display_name, "fwmap::app::main");
    assert_eq!(view.grouped_families.len(), 2);
}

#[test]
fn reports_inputs_presence() {
    assert!(!has_rust_inputs(&RustInputs::default()));
    assert!(has_rust_inputs(&RustInputs {
        cargo_workspace: Some(".".into()),
        ..RustInputs::default()
    }));
}
