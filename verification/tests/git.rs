use fwmap::git::parse_commit_line;

#[test]
fn commit_lines_have_five_fields() {
    let c = parse_commit_line("0123456789abcdef\u{1f}0123456\u{1f}2024-05-01T10:00:00+02:00\u{1f}Ada\u{1f}Fix boot: keep vectors")
        .unwrap();
    assert_eq!(c.commit, "0123456789abcdef");
    assert_eq!(c.short_commit, "0123456");
    assert_eq!(c.commit_time, "2024-05-01T10:00:00+02:00");
    assert_eq!(c.author_name, "Ada");
    assert_eq!(c.subject, "Fix boot: keep vectors");
    assert_eq!(parse_commit_line("a\u{1f}b\u{1f}c\u{1f}d"), None);
    assert_eq!(parse_commit_line("a\u{1f}b\u{1f}c\u{1f}d\u{1f}e\u{1f}f"), None);
    assert_eq!(parse_commit_line("").map(|c| c.commit), None);
}

#[test]
fn empty_subject_is_kept() {
    let c = parse_commit_line("h\u{1f}s\u{1f}t\u{1f}a\u{1f}").unwrap();
    assert_eq!(c.subject, "");
}
