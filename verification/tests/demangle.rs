use fwmap::demangle::{apply_demangling, demangle_symbol, display_name};
use fwmap::model::{DemangleMode, SymbolInfo};

#[test]
fn demangles_itanium_symbol_when_enabled() {
    let value = demangle_symbol("_ZN3foo3barEv", DemangleMode::On).unwrap();
    assert!(value.contains("foo"));
    assert!(value.contains("bar"));
}

#[test]
fn demangles_nested_templates_and_anonymous_namespace() {
    let value = demangle_symbol(
        "_ZN12_GLOBAL__N_116itanium_demangle22AbstractManglingParserINS0_14ManglingParserINS_16DefaultAllocatorEEES3_E16parseExprPrimaryEv",
        DemangleMode::On,
    )
    .unwrap();
    assert!(value.contains("(anonymous namespace)::itanium_demangle::AbstractManglingParser<"));
    assert!(value.contains("ManglingParser<"));
    assert!(value.contains("DefaultAllocator"));
    assert!(value.contains("parseExprPrimary()"));
}

#[test]
fn demangles_pointer_and_const_arguments() {
    let value = demangle_symbol(
        "_ZN3kmg5solid3elf9ELFObject5CheckEPKcP20_SOLID_LDR_FILEINFO_",
        DemangleMode::On,
    )
    .unwrap();
    assert_eq!(
        value,
        "kmg::solid::elf::ELFObject::Check(const char*, _SOLID_LDR_FILEINFO_*)"
    );
}

#[test]
fn auto_mode_skips_plain_c_symbols() {
    assert_eq!(demangle_symbol("main", DemangleMode::Auto), None);
}

#[test]
fn display_name_prefers_demangled_name() {
    let mut symbols = vec![SymbolInfo {
        name: "_ZN3foo3barEv".to_string(),
        demangled_name: None,
        section_name: None,
        object_path: None,
        addr: 0,
        size: 4,
    }];
    apply_demangling(&mut symbols, DemangleMode::On);
    assert_ne!(display_name(&symbols[0]), symbols[0].name);
}

#[test]
fn demangles_rust_legacy_symbol_with_llvm_suffix() {
    let value = demangle_symbol(
        "_ZN5fwmap6ingest5dwarf19parse_dwarf_enabled17h75e4fa34e7c912e2E.llvm.16657126762338766321",
        DemangleMode::On,
    )
    .unwrap();
    assert_eq!(
        value,
        "fwmap::ingest::dwarf::parse_dwarf_enabled [h75e4fa34e7c912e2]"
    );
}

#[test]
fn demangle_exact_nested_name_with_void_params() {
    assert_eq!(
        demangle_symbol("_ZN3foo3barEv", DemangleMode::On).as_deref(),
        Some("foo::bar()")
    );
}

#[test]
fn demangle_off_mode_yields_nothing() {
    assert_eq!(demangle_symbol("_ZN3foo3barEv", DemangleMode::Off), None);
}

#[test]
fn demangle_auto_mode_handles_itanium() {
    assert_eq!(
        demangle_symbol("_ZN3foo3barEv", DemangleMode::Auto).as_deref(),
        Some("foo::bar()")
    );
}

#[test]
fn demangle_rejects_trailing_garbage() {
    assert_eq!(demangle_symbol("_ZN3fooE@", DemangleMode::On), None);
}

#[test]
fn demangle_substitution_and_reference() {
    assert_eq!(
        demangle_symbol("_ZN3app4copyERKS_", DemangleMode::On).as_deref(),
        Some("app::copy(const app&)")
    );
}

#[test]
fn demangle_builtin_parameter_list() {
    assert_eq!(
        demangle_symbol("_Z3sumijlm", DemangleMode::On).as_deref(),
        Some("sum(int, unsigned int, long, unsigned long)")
    );
}

#[test]
fn demangle_rust_v0_renders_path() {
    assert_eq!(
        demangle_symbol("_RNvCs1234_4test4main", DemangleMode::On).as_deref(),
        Some("test::main")
    );
    assert_eq!(demangle_symbol("_RNvCs1234_4test4main", DemangleMode::Auto), None);
}

#[test]
fn apply_demangling_off_clears_names() {
    let mut symbols = vec![SymbolInfo {
        name: "_ZN3foo3barEv".to_string(),
        demangled_name: Some("stale".to_string()),
        section_name: None,
        object_path: None,
        addr: 0,
        size: 4,
    }];
    apply_demangling(&mut symbols, DemangleMode::Off);
    assert_eq!(symbols[0].demangled_name, None);
    assert_eq!(display_name(&symbols[0]), "_ZN3foo3barEv");
}
