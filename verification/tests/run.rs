use fwmap::metadata::Metadata;
use fwmap::model::{
    LinkerFamily, MapFormat, SourceLinesMode, ToolchainInfo, ToolchainKind, ToolchainSelection, WarningItem,
    WarningLevel, WarningSource,
};
use fwmap::history::normalized_config_fingerprint;
use fwmap::run::{config_fingerprint, exit_status, history_metadata, merge_warnings};

fn warning(level: WarningLevel, source: WarningSource, code: &str) -> WarningItem {
    WarningItem { level, code: code.to_string(), message: String::new(), source, related: None }
}

fn toolchain(detected: Option<ToolchainKind>) -> ToolchainInfo {
    ToolchainInfo {
        requested: ToolchainSelection::Auto,
        detected,
        resolved: ToolchainKind::Gnu,
        linker_family: LinkerFamily::Lld,
        map_format: MapFormat::LldNative,
        parser_warnings_count: 0,
    }
}

#[test]
fn exit_status_is_two_for_errors_then_one_when_warnings_fail() {
    let warn = warning(WarningLevel::Warn, WarningSource::Analyze, "W");
    let error = warning(WarningLevel::Error, WarningSource::Analyze, "E");
    assert_eq!(exit_status(&vec![], true), 0);
    assert_eq!(exit_status(&vec![warn.clone()], false), 0);
    assert_eq!(exit_status(&vec![warn.clone()], true), 1);
    assert_eq!(exit_status(&vec![warn.clone(), error.clone()], false), 2);
    assert_eq!(exit_status(&vec![error], true), 2);
}

#[test]
fn merged_warnings_drop_analysis_findings_and_append_evaluated() {
    let current = vec![
        warning(WarningLevel::Warn, WarningSource::Analyze, "OLD_RULE"),
        warning(WarningLevel::Warn, WarningSource::Elf, "ELF_NOTE"),
        warning(WarningLevel::Info, WarningSource::MapFile, "MAP_NOTE"),
    ];
    let evaluated = vec![warning(WarningLevel::Error, WarningSource::Analyze, "NEW_RULE")];
    let merged = merge_warnings(&current, evaluated);
    let codes: Vec<&str> = merged.iter().map(|w| w.code.as_str()).collect();
    assert_eq!(codes, vec!["ELF_NOTE", "MAP_NOTE", "NEW_RULE"]);
}

#[test]
fn fingerprint_joins_linker_map_and_source_lines() {
    assert_eq!(config_fingerprint(LinkerFamily::Gnu, MapFormat::Gnu, SourceLinesMode::Off), "gnu|gnu|off");
    assert_eq!(
        config_fingerprint(LinkerFamily::Lld, MapFormat::LldNative, SourceLinesMode::Lines),
        "lld|lld-native|lines"
    );
}

#[test]
fn history_metadata_records_profile_toolchain_and_fingerprint() {
    let mut base = Metadata::new();
    base.insert("ci.job".to_string(), "42".to_string());
    let m = history_metadata(&base, Some("release"), &toolchain(Some(ToolchainKind::Lld)), SourceLinesMode::Files);
    assert_eq!(m.get("ci.job").map(String::as_str), Some("42"));
    assert_eq!(m.get("build.profile").map(String::as_str), Some("release"));
    assert_eq!(m.get("toolchain.id").map(String::as_str), Some("lld"));
    assert_eq!(m.get("config.fingerprint").map(String::as_str), Some("lld|lld-native|files"));

    let m = history_metadata(&Metadata::new(), None, &toolchain(None), SourceLinesMode::Off);
    assert_eq!(m.get("build.profile"), None);
    assert_eq!(m.get("toolchain.id").map(String::as_str), Some("gnu"));
    assert_eq!(m.len(), 2);
}

#[test]
fn recorded_fingerprint_compares_by_linker_and_map() {
    for mode in [SourceLinesMode::Off, SourceLinesMode::Files, SourceLinesMode::Lines, SourceLinesMode::All] {
        let fp = config_fingerprint(LinkerFamily::Lld, MapFormat::LldNative, mode);
        assert_eq!(normalized_config_fingerprint(Some(&fp)), "lld|lld-native");
    }
}
