use fwmap::cpp::{
    aggregate_group_sizes, build_cpp_view, classify_symbol, group_symbols, top_group_symbols, CppGroupBy,
    CppSymbolKind,
};
use fwmap::model::SymbolInfo;

fn symbol(name: &str, demangled_name: Option<&str>, size: u64) -> SymbolInfo {
    SymbolInfo {
        name: name.to_string(),
        demangled_name: demangled_name.map(str::to_string),
        section_name: Some(".text".to_string()),
        object_path: Some("main.o".to_string()),
        addr: 0,
        size,
    }
}

fn sample() -> Vec<SymbolInfo> {
    vec![
        symbol("_ZN3app3Foo3barEv", Some("app::Foo::bar()"), 50),
        symbol("_ZN3app3FooC1Ev", Some("app::Foo::Foo()"), 30),
        symbol("_ZTVN3app3FooE", Some("vtable for app::Foo"), 20),
        symbol(
            "_ZNSt6vectorIiE9push_backERKi",
            Some("std::vector<int>::push_back(int const&)"),
            40,
        ),
        symbol(
            "_ZZN3app3Foo3barEvENKUlifE_clEif",
            Some("app::Foo::bar()::{lambda(int, float)#1}::operator()(int, float)"),
            10,
        ),
    ]
}

#[test]
fn classifies_runtime_and_template_related_symbols() {
    let ctor = classify_symbol(&symbol("_ZN3app3FooC1Ev", Some("app::Foo::Foo()"), 24)).unwrap();
    assert_eq!(ctor.kind, CppSymbolKind::Constructor);
    assert_eq!(ctor.class_name.as_deref(), Some("app::Foo"));

    let vtable = classify_symbol(&symbol("_ZTVN3app3FooE", Some("vtable for app::Foo"), 40)).unwrap();
    assert_eq!(vtable.kind, CppSymbolKind::Vtable);
    assert_eq!(vtable.class_name.as_deref(), Some("app::Foo"));

    let templ = classify_symbol(&symbol(
        "_ZNSt6vectorIiE9push_backERKi",
        Some("std::vector<int>::push_back(int const&)"),
        64,
    ))
    .unwrap();
    assert_eq!(templ.kind, CppSymbolKind::Method);
    assert_eq!(templ.template_family.as_deref(), Some("std::vector<...>"));
}

#[test]
fn groups_classes_templates_and_runtime_overhead() {
    let view = build_cpp_view(&sample());

    assert_eq!(view.top_classes.first().map(|item| item.name.as_str()), Some("app::Foo"));
    assert_eq!(
        view.top_template_families.first().map(|item| item.name.as_str()),
        Some("std::vector<...>")
    );
    assert_eq!(view.runtime_overhead.first().map(|item| item.name.as_str()), Some("vtable"));
    assert_eq!(view.lambda_groups.first().map(|item| item.symbol_count), Some(1));
}

#[test]
fn ignores_plain_c_symbols_without_demangled_cpp_context() {
    assert!(classify_symbol(&symbol("main", None, 16)).is_none());
}

#[test]
fn cpp_view_ranks_symbols_and_sums_classes() {
    let view = build_cpp_view(&sample());
    let sizes: Vec<u64> = view.classified_symbols.iter().map(|s| s.size).collect();
    assert_eq!(sizes, vec![50, 40, 30, 20, 10]);
    let foo = view.top_classes.iter().find(|row| row.name == "app::Foo").unwrap();
    assert_eq!(foo.size, 110);
    assert_eq!(foo.symbol_count, 4);
}

#[test]
fn cpp_classifies_destructor_and_namespace() {
    let dtor = classify_symbol(&symbol("_ZN2ns3BarD1Ev", Some("ns::Bar::~Bar()"), 8)).unwrap();
    assert_eq!(dtor.kind, CppSymbolKind::Destructor);
    assert_eq!(dtor.class_name.as_deref(), Some("ns::Bar"));
    assert_eq!(dtor.namespace.as_deref(), Some("ns"));
}

#[test]
fn cpp_classifies_undemangled_itanium_by_forced_demangling() {
    let f = classify_symbol(&symbol("_ZN3foo3barEv", None, 4)).unwrap();
    assert_eq!(f.display_name, "foo::bar()");
    assert_eq!(f.raw_name, "_ZN3foo3barEv");
}

#[test]
fn cpp_group_queries() {
    let view = build_cpp_view(&sample());
    let sizes = aggregate_group_sizes(&view, CppGroupBy::CppClass);
    assert_eq!(sizes, vec![("app::Foo".to_string(), 110), ("std::vector<int>".to_string(), 40)]);
    let top = top_group_symbols(&view, CppGroupBy::CppClass, "app::Foo", 2);
    assert_eq!(top, vec!["app::Foo::bar()".to_string(), "app::Foo::Foo()".to_string()]);
    let members = group_symbols(&view, CppGroupBy::CppRuntimeOverhead, "vtable");
    assert_eq!(members.len(), 1);
    assert_eq!(members[0].raw_name, "_ZTVN3app3FooE");
}

#[test]
fn top_names_are_the_first_group_symbols() {
    let view = build_cpp_view(&sample());
    for limit in 0..4 {
        let top = top_group_symbols(&view, CppGroupBy::CppClass, "app::Foo", limit);
        let listed: Vec<String> = group_symbols(&view, CppGroupBy::CppClass, "app::Foo")
            .into_iter()
            .take(limit)
            .map(|s| s.display_name)
            .collect();
        assert_eq!(top, listed);
    }
}
