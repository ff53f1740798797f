use fwmap::history::TrendFormat;
use fwmap::trend::{classify_trend_metric, TrendQuery};

#[test]
fn simple_metrics_ignore_case() {
    assert_eq!(
        classify_trend_metric("ROM").unwrap(),
        TrendQuery::Simple { column: "rom_bytes".to_string(), label: "rom".to_string(), format: TrendFormat::Bytes }
    );
    assert_eq!(
        classify_trend_metric("warnings").unwrap(),
        TrendQuery::Simple {
            column: "warning_count".to_string(),
            label: "warnings".to_string(),
            format: TrendFormat::Count
        }
    );
    assert_eq!(classify_trend_metric("Unknown_Source_Ratio").unwrap(), TrendQuery::UnknownSource);
}

#[test]
fn prefixed_metrics_name_their_rows() {
    assert_eq!(
        classify_trend_metric("source:src/main.cpp").unwrap(),
        TrendQuery::Named {
            table: "source_file_metrics".to_string(),
            name_column: "path".to_string(),
            value_column: "size_bytes".to_string(),
            name: "src/main.cpp".to_string(),
            format: TrendFormat::Bytes,
            scope: None,
        }
    );
    assert_eq!(
        classify_trend_metric("rust-dependency:tokio").unwrap(),
        TrendQuery::Named {
            table: "rust_aggregate_metrics".to_string(),
            name_column: "name".to_string(),
            value_column: "size_bytes".to_string(),
            name: "tokio".to_string(),
            format: TrendFormat::Bytes,
            scope: Some("dependency".to_string()),
        }
    );
    assert_eq!(
        classify_trend_metric("archive-member:libapp.a(startup.o)").unwrap(),
        TrendQuery::WhyLinked { target: "libapp.a(startup.o)".to_string(), kind: "object".to_string() }
    );
    assert_eq!(
        classify_trend_metric("directory:src").unwrap(),
        TrendQuery::Directory { directory: "src".to_string() }
    );
    assert_eq!(
        classify_trend_metric("rust-family:app::main").unwrap(),
        TrendQuery::NamedLikeScope { name: "app::main".to_string(), scope_pattern: "family:%".to_string() }
    );
}

#[test]
fn unknown_metric_is_rejected() {
    let err = classify_trend_metric("Section:.text").unwrap_err();
    assert!(err.starts_with("unsupported trend metric 'Section:.text', expected rom|ram|warnings"));
    assert!(err.ends_with("rust-family:<name>"));
}
