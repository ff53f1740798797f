use fwmap::args::{
    parse_bool, parse_ci_format, parse_commit_order, parse_cpp_group_by, parse_i64_text, parse_map_format,
    parse_optional_string_arg, parse_optional_usize_arg, parse_path_remap, parse_required_i64_arg,
    parse_required_string_arg, parse_source_lines_mode, parse_toolchain, parse_u64, parse_unsigned_text, parse_usize,
    parse_warning_level,
};
use fwmap::cpp::CppGroupBy;
use fwmap::git::CommitOrder;
use fwmap::model::{CiFormat, MapFormatSelection, SourceLinesMode, ToolchainSelection, WarningLevel};

fn args(items: &[&str]) -> Vec<String> {
    items.iter().map(|s| s.to_string()).collect()
}

#[test]
fn parses_toolchain_option() {
    assert_eq!(parse_toolchain("iar").unwrap(), ToolchainSelection::Iar);
    assert_eq!(parse_toolchain("keil").unwrap(), ToolchainSelection::Keil);
    assert_eq!(
        parse_toolchain("msvc").unwrap_err(),
        "invalid toolchain 'msvc', expected auto|gnu|lld|iar|armcc|keil"
    );
    assert_eq!(parse_map_format("lld-native").unwrap(), MapFormatSelection::LldNative);
    assert!(parse_map_format("iar").is_err());
}

#[test]
fn parses_enumerated_option_values() {
    assert_eq!(parse_ci_format("markdown").unwrap(), CiFormat::Markdown);
    assert_eq!(parse_ci_format("xml").unwrap_err(), "invalid ci format 'xml', expected text|markdown|json");
    assert_eq!(parse_source_lines_mode("functions").unwrap(), SourceLinesMode::Functions);
    assert_eq!(parse_warning_level("note", "--sarif-min-level").unwrap(), WarningLevel::Info);
    assert_eq!(parse_warning_level("warning", "--sarif-min-level").unwrap(), WarningLevel::Warn);
    assert_eq!(
        parse_warning_level("fatal", "--sarif-min-level").unwrap_err(),
        "invalid value for --sarif-min-level: 'fatal', expected info|warn|error"
    );
    assert!(parse_bool("true", "--x").unwrap());
    assert!(!parse_bool("false", "--x").unwrap());
    assert!(parse_bool("yes", "--x").is_err());
    assert_eq!(parse_cpp_group_by("cpp-class").unwrap(), CppGroupBy::CppClass);
    assert!(parse_cpp_group_by("class").is_err());
    assert_eq!(parse_commit_order("ancestry").unwrap(), CommitOrder::Ancestry);
    assert_eq!(
        parse_commit_order("date").unwrap_err(),
        "invalid value for --order: 'date', expected timestamp|ancestry"
    );
}

#[test]
fn parses_numbers_like_std() {
    assert_eq!(parse_u64("42", "--n").unwrap(), 42);
    assert_eq!(parse_u64("+7", "--n").unwrap(), 7);
    assert_eq!(parse_u64("18446744073709551615", "--n").unwrap(), u64::MAX);
    assert_eq!(parse_u64("18446744073709551616", "--n").unwrap_err(), "invalid integer for --n: 18446744073709551616");
    assert!(parse_u64("-1", "--n").is_err());
    assert!(parse_u64("", "--n").is_err());
    assert!(parse_u64("+", "--n").is_err());
    assert!(parse_u64("1 ", "--n").is_err());
    assert_eq!(parse_usize("10", "--limit").unwrap(), 10);
    assert_eq!(parse_unsigned_text("255", 255), Some(255));
    assert_eq!(parse_unsigned_text("256", 255), None);
    assert_eq!(parse_i64_text("-9223372036854775808"), Some(i64::MIN));
    assert_eq!(parse_i64_text("9223372036854775807"), Some(i64::MAX));
    assert_eq!(parse_i64_text("9223372036854775808"), None);
    assert_eq!(parse_i64_text("-12"), Some(-12));
    assert_eq!(parse_i64_text("-"), None);
}

#[test]
fn reads_keyed_arguments() {
    let a = args(&["fwmap", "history", "show", "--db", "h.db", "--build", "12"]);
    assert_eq!(parse_required_string_arg(&a, "--db").unwrap(), "h.db");
    assert_eq!(parse_required_i64_arg(&a, "--build").unwrap(), 12);
    assert_eq!(parse_required_string_arg(&a, "--repo").unwrap_err(), "--repo is required");
    assert_eq!(parse_optional_string_arg(&a, "--repo").unwrap(), None);
    let missing = args(&["fwmap", "--limit"]);
    assert_eq!(parse_optional_usize_arg(&missing, "--limit").unwrap_err(), "missing value for --limit");
    let bad = args(&["fwmap", "--limit", "x"]);
    assert_eq!(parse_optional_usize_arg(&bad, "--limit").unwrap_err(), "invalid integer for --limit");
    let good = args(&["fwmap", "--limit", "5"]);
    assert_eq!(parse_optional_usize_arg(&good, "--limit").unwrap(), Some(5));
    let bad_build = args(&["fwmap", "--build", "abc"]);
    assert_eq!(parse_required_i64_arg(&bad_build, "--build").unwrap_err(), "invalid integer for --build");
}

#[test]
fn parses_path_remaps() {
    assert_eq!(parse_path_remap("/build=/src").unwrap(), ("/build".to_string(), "/src".to_string()));
    assert_eq!(parse_path_remap("a=b=c").unwrap(), ("a".to_string(), "b=c".to_string()));
    assert_eq!(parse_path_remap("nothing").unwrap_err(), "invalid path remap 'nothing', expected <from=to>");
}
