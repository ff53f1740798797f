//! Reading a trend metric name: which recorded values a trend of it is made
//! of.  The query itself is run on the history database by the caller.
use vstd::prelude::*;

use crate::history::{TrendFormat, TrendPoint};
use crate::text::{copy_opt_string, copy_string, opt_text, string_from, chars_eq_ignore_case, chars_of, eq_ignore_case, is_prefix, push_str_chars, slice_chars, str_starts_with, string_of};

verus! {

/// Which recorded values make up a trend.
#[derive(Debug, Clone, PartialEq, Eq)]
pub enum TrendQuery {
    /// A column of the builds table, shown under a label.
    Simple { column: String, label: String, format: TrendFormat },
    /// The unknown-source ratio of the debug metrics, in thousandths.
    UnknownSource,
    /// The value of one named row of a metrics table, optionally of one scope.
    Named {
        table: String,
        name_column: String,
        value_column: String,
        name: String,
        format: TrendFormat,
        scope: Option<String>,
    },
    /// The recorded linking explanations of an object.
    WhyLinked { target: String, kind: String },
    /// The summed source sizes of a directory.
    Directory { directory: String },
    /// The summed sizes of a name over the scopes matching a pattern.
    NamedLikeScope { name: String, scope_pattern: String },
}

/// A trend query as text.
pub enum TrendQueryText {
    Simple(Seq<char>, Seq<char>, TrendFormat),
    UnknownSource,
    Named(Seq<char>, Seq<char>, Seq<char>, Seq<char>, TrendFormat, Option<Seq<char>>),
    WhyLinked(Seq<char>, Seq<char>),
    Directory(Seq<char>),
    NamedLikeScope(Seq<char>, Seq<char>),
}

impl View for TrendQuery {
    type V = TrendQueryText;

    open spec fn view(&self) -> TrendQueryText {
        match self {
            TrendQuery::Simple { column, label, format } => TrendQueryText::Simple(column@, label@, *format),
            TrendQuery::UnknownSource => TrendQueryText::UnknownSource,
            TrendQuery::Named { table, name_column, value_column, name, format, scope } => TrendQueryText::Named(
                table@,
                name_column@,
                value_column@,
                name@,
                *format,
                match scope {
                    Some(s) => Some(s@),
                    None => None,
                },
            ),
            TrendQuery::WhyLinked { target, kind } => TrendQueryText::WhyLinked(target@, kind@),
            TrendQuery::Directory { directory } => TrendQueryText::Directory(directory@),
            TrendQuery::NamedLikeScope { name, scope_pattern } => TrendQueryText::NamedLikeScope(
                name@,
                scope_pattern@,
            ),
        }
    }
}

/// What follows `prefix` in `metric`, when `metric` starts with it.
pub open spec fn after(metric: Seq<char>, prefix: Seq<char>) -> Option<Seq<char>> {
    if is_prefix(prefix, metric) {
        Some(metric.skip(prefix.len() as int))
    } else {
        None
    }
}

/// A trend over a named metrics row.
pub open spec fn named(table: Seq<char>, name_column: Seq<char>, value_column: Seq<char>, name: Seq<char>) -> TrendQueryText {
    TrendQueryText::Named(table, name_column, value_column, name, TrendFormat::Bytes, None)
}

/// A trend over a named Rust aggregate of one scope.
pub open spec fn rust_scoped(name: Seq<char>, scope: Seq<char>) -> TrendQueryText {
    TrendQueryText::Named("rust_aggregate_metrics"@, "name"@, "size_bytes"@, name, TrendFormat::Bytes, Some(scope))
}

/// The query of a trend metric name: `rom`, `ram`, `warnings` and
/// `unknown_source[_ratio]` (any case), or one of the `<kind>:<name>` forms,
/// tried in a fixed order; `None` for any other name.
pub open spec fn trend_query_of(metric: Seq<char>) -> Option<TrendQueryText> {
    if eq_ignore_case(metric, "rom"@) {
        Some(TrendQueryText::Simple("rom_bytes"@, "rom"@, TrendFormat::Bytes))
    } else if eq_ignore_case(metric, "ram"@) {
        Some(TrendQueryText::Simple("ram_bytes"@, "ram"@, TrendFormat::Bytes))
    } else if eq_ignore_case(metric, "warnings"@) {
        Some(TrendQueryText::Simple("warning_count"@, "warnings"@, TrendFormat::Count))
    } else if eq_ignore_case(metric, "unknown_source"@) || eq_ignore_case(metric, "unknown_source_ratio"@) {
        Some(TrendQueryText::UnknownSource)
    } else if let Some(n) = after(metric, "region:"@) {
        Some(named("region_metrics"@, "region_name"@, "used_bytes"@, n))
    } else if let Some(n) = after(metric, "section:"@) {
        Some(named("section_metrics"@, "section_name"@, "size_bytes"@, n))
    } else if let Some(n) = after(metric, "source:"@) {
        Some(named("source_file_metrics"@, "path"@, "size_bytes"@, n))
    } else if let Some(n) = after(metric, "function:"@) {
        Some(named("function_metrics"@, "function_key"@, "size_bytes"@, n))
    } else if let Some(n) = after(metric, "object:"@) {
        Some(TrendQueryText::WhyLinked(n, "object"@))
    } else if let Some(n) = after(metric, "archive-member:"@) {
        Some(TrendQueryText::WhyLinked(n, "object"@))
    } else if let Some(n) = after(metric, "directory:"@) {
        Some(TrendQueryText::Directory(n))
    } else if let Some(n) = after(metric, "rust-package:"@) {
        Some(rust_scoped(n, "package"@))
    } else if let Some(n) = after(metric, "rust-target:"@) {
        Some(rust_scoped(n, "target"@))
    } else if let Some(n) = after(metric, "rust-crate:"@) {
        Some(rust_scoped(n, "crate"@))
    } else if let Some(n) = after(metric, "rust-dependency:"@) {
        Some(rust_scoped(n, "dependency"@))
    } else if let Some(n) = after(metric, "rust-source:"@) {
        Some(rust_scoped(n, "source"@))
    } else if let Some(n) = after(metric, "rust-family:"@) {
        Some(TrendQueryText::NamedLikeScope(n, "family:%"@))
    } else {
        None
    }
}

/// The message for a metric name that names no trend.
pub open spec fn unsupported_metric_text(metric: Seq<char>) -> Seq<char> {
    "unsupported trend metric '"@ + metric
        + "', expected rom|ram|warnings|unknown_source|region:<name>|section:<name>|source:<path>|function:<key>|object:<path>|archive-member:<archive(member)>|directory:<path>|rust-package:<name>|rust-target:<name>|rust-crate:<name>|rust-dependency:<name>|rust-source:<path>|rust-family:<name>"@
}

fn is_word(m: &Vec<char>, word: &str) -> (r: bool)
    ensures
        r == eq_ignore_case(m@, word@),
{
    let w = chars_of(word);
    chars_eq_ignore_case(m, &w)
}

fn rest_after(metric: &str, m: &Vec<char>, prefix: &str) -> (r: Option<String>)
    requires
        m@ == metric@,
    ensures
        match r {
            Some(s) => after(metric@, prefix@) == Some(s@),
            None => after(metric@, prefix@) is None,
        },
{
    if str_starts_with(metric, prefix) {
        let n = prefix.unicode_len();
        let rest = slice_chars(m, n, m.len());
        assert(rest@ =~= metric@.skip(prefix@.len() as int));
        Some(string_of(&rest))
    } else {
        None
    }
}

fn text(s: &str) -> (r: String)
    ensures
        r@ == s@,
{
    s.to_owned()
}

fn named_query(table: &str, name_column: &str, value_column: &str, name: String) -> (q: TrendQuery)
    ensures
        q@ == named(table@, name_column@, value_column@, name@),
{
    TrendQuery::Named {
        table: text(table),
        name_column: text(name_column),
        value_column: text(value_column),
        name,
        format: TrendFormat::Bytes,
        scope: None,
    }
}

fn rust_query(name: String, scope: &str) -> (q: TrendQuery)
    ensures
        q@ == rust_scoped(name@, scope@),
{
    TrendQuery::Named {
        table: text("rust_aggregate_metrics"),
        name_column: text("name"),
        value_column: text("size_bytes"),
        name,
        format: TrendFormat::Bytes,
        scope: Some(text(scope)),
    }
}

/// Reads a trend metric name; fails for a name that names no trend.
pub fn classify_trend_metric(metric: &str) -> (r: Result<TrendQuery, String>)
    ensures
        match r {
            Ok(q) => trend_query_of(metric@) == Some(q@),
            Err(e) => trend_query_of(metric@) is None && e@ == unsupported_metric_text(metric@),
        },
{
    let m = chars_of(metric);
    if is_word(&m, "rom") {
        return Ok(TrendQuery::Simple { column: text("rom_bytes"), label: text("rom"), format: TrendFormat::Bytes });
    }
    if is_word(&m, "ram") {
        return Ok(TrendQuery::Simple { column: text("ram_bytes"), label: text("ram"), format: TrendFormat::Bytes });
    }
    if is_word(&m, "warnings") {
        return Ok(
            TrendQuery::Simple { column: text("warning_count"), label: text("warnings"), format: TrendFormat::Count },
        );
    }
    if is_word(&m, "unknown_source") || is_word(&m, "unknown_source_ratio") {
        return Ok(TrendQuery::UnknownSource);
    }
    if let Some(n) = rest_after(metric, &m, "region:") {
        return Ok(named_query("region_metrics", "region_name", "used_bytes", n));
    }
    if let Some(n) = rest_after(metric, &m, "section:") {
        return Ok(named_query("section_metrics", "section_name", "size_bytes", n));
    }
    if let Some(n) = rest_after(metric, &m, "source:") {
        return Ok(named_query("source_file_metrics", "path", "size_bytes", n));
    }
    if let Some(n) = rest_after(metric, &m, "function:") {
        return Ok(named_query("function_metrics", "function_key", "size_bytes", n));
    }
    if let Some(n) = rest_after(metric, &m, "object:") {
        return Ok(TrendQuery::WhyLinked { target: n, kind: text("object") });
    }
    if let Some(n) = rest_after(metric, &m, "archive-member:") {
        return Ok(TrendQuery::WhyLinked { target: n, kind: text("object") });
    }
    if let Some(n) = rest_after(metric, &m, "directory:") {
        return Ok(TrendQuery::Directory { directory: n });
    }
    if let Some(n) = rest_after(metric, &m, "rust-package:") {
        return Ok(rust_query(n, "package"));
    }
    if let Some(n) = rest_after(metric, &m, "rust-target:") {
        return Ok(rust_query(n, "target"));
    }
    if let Some(n) = rest_after(metric, &m, "rust-crate:") {
        return Ok(rust_query(n, "crate"));
    }
    if let Some(n) = rest_after(metric, &m, "rust-dependency:") {
        return Ok(rust_query(n, "dependency"));
    }
    if let Some(n) = rest_after(metric, &m, "rust-source:") {
        return Ok(rust_query(n, "source"));
    }
    if let Some(n) = rest_after(metric, &m, "rust-family:") {
        return Ok(TrendQuery::NamedLikeScope { name: n, scope_pattern: text("family:%") });
    }
    let mut v: Vec<char> = Vec::new();
    push_str_chars(&mut v, "unsupported trend metric '");
    push_str_chars(&mut v, metric);
    push_str_chars(
        &mut v,
        "', expected rom|ram|warnings|unknown_source|region:<name>|section:<name>|source:<path>|function:<key>|object:<path>|archive-member:<archive(member)>|directory:<path>|rust-package:<name>|rust-target:<name>|rust-crate:<name>|rust-dependency:<name>|rust-source:<path>|rust-family:<name>",
    );
    Err(string_of(&v))
}


// ---------------------------------------------------------------------------
// The points of a trend
// ---------------------------------------------------------------------------
/// How the points of a trend are shown: their label, value format and note.
/// A column shows under its label; the unknown-source share in per mille as
/// a percentage; a named value under its name, noted with its scope; a
/// directory's sizes under the directory; linking explanations under their
/// target (each point noted with its own explanation); and a Rust family's
/// sizes under its name, noted `family`.
pub open spec fn presentation_of(q: TrendQueryText) -> (Seq<char>, TrendFormat, Option<Seq<char>>) {
    match q {
        TrendQueryText::Simple(_, label, format) => (label, format, None),
        TrendQueryText::UnknownSource => ("unknown_source"@, TrendFormat::Percent, None),
        TrendQueryText::Named(_, _, _, name, format, scope) => (name, format, scope),
        TrendQueryText::WhyLinked(target, _) => (target, TrendFormat::Bytes, None),
        TrendQueryText::Directory(directory) => (directory, TrendFormat::Bytes, None),
        TrendQueryText::NamedLikeScope(name, _) => (name, TrendFormat::Bytes, Some("family"@)),
    }
}

/// How the points of a trend are shown (see `presentation_of`).
pub fn trend_presentation(q: &TrendQuery) -> (r: (String, TrendFormat, Option<String>))
    ensures
        (r.0@, r.1, opt_text(r.2)) == presentation_of(q@),
{
    match q {
        TrendQuery::Simple { column: _, label, format } => (copy_string(label), *format, None),
        TrendQuery::UnknownSource => (string_from("unknown_source"), TrendFormat::Percent, None),
        TrendQuery::Named { table: _, name_column: _, value_column: _, name, format, scope } => (
            copy_string(name),
            *format,
            copy_opt_string(scope),
        ),
        TrendQuery::WhyLinked { target, kind: _ } => (copy_string(target), TrendFormat::Bytes, None),
        TrendQuery::Directory { directory } => (copy_string(directory), TrendFormat::Bytes, None),
        TrendQuery::NamedLikeScope { name, scope_pattern: _ } => (
            copy_string(name),
            TrendFormat::Bytes,
            Some(string_from("family")),
        ),
    }
}

/// The note of a point of a linking-explanation trend: `[confidence] summary`.
pub fn why_linked_note(confidence: &str, summary: &str) -> (n: String)
    ensures
        n@ == "["@ + confidence@ + "] "@ + summary@,
{
    let mut v: Vec<char> = Vec::new();
    push_str_chars(&mut v, "[");
    push_str_chars(&mut v, confidence);
    push_str_chars(&mut v, "] ");
    push_str_chars(&mut v, summary);
    string_of(&v)
}

/// The points of a trend, oldest first, from the rows read newest first:
/// build id, creation time, value and note of each.
pub fn trend_points(rows: Vec<(i64, i64, i64, Option<String>)>, label: &str, format: TrendFormat) -> (out: Vec<
    TrendPoint,
>)
    ensures
        out@.len() == rows@.len(),
        forall|i: int|
            0 <= i < out@.len() ==> {
                let r = rows@[rows@.len() - 1 - i];
                &&& (#[trigger] out@[i]).build_id == r.0
                &&& out@[i].created_at == r.1
                &&& out@[i].value == r.2
                &&& out@[i].note == r.3
                &&& out@[i].label@ == label@
                &&& out@[i].format == format
            },
{
    let ghost all = rows@;
    let mut rest = rows;
    let mut out: Vec<TrendPoint> = Vec::new();
    while rest.len() > 0
        invariant
            rest@.len() <= all.len(),
            rest@ == all.take(rest@.len() as int),
            out@.len() + rest@.len() == all.len(),
            forall|i: int|
                0 <= i < out@.len() ==> {
                    let r = all[all.len() - 1 - i];
                    &&& (#[trigger] out@[i]).build_id == r.0
                    &&& out@[i].created_at == r.1
                    &&& out@[i].value == r.2
                    &&& out@[i].note == r.3
                    &&& out@[i].label@ == label@
                    &&& out@[i].format == format
                },
        decreases rest.len(),
    {
        let ghost n = rest@.len();
        let (build_id, created_at, value, note) = rest.pop().unwrap();
        assert(rest@ =~= all.take(n - 1));
        out.push(TrendPoint { build_id, created_at, label: string_from(label), value, format, note });
    }
    out
}

} // verus!
