//! The decisions an analysis run makes around its analysis: which warnings
//! it reports after a comparison, what metadata it records with a build, and
//! the exit status it ends with.
use vstd::prelude::*;

use crate::metadata::Metadata;
use crate::model::{LinkerFamily, MapFormat, SourceLinesMode, ToolchainInfo, WarningItem, WarningLevel, WarningSource};
use crate::history::fingerprint_text;
use crate::text::{
    copy_opt_string, copy_string, find_from, join, occurs_at, push_str_chars, split_all, string_from, string_of,
};

verus! {

// ---------------------------------------------------------------------------
// Exit status
// ---------------------------------------------------------------------------
/// Some warning is at error level.
pub open spec fn has_error(w: Seq<WarningItem>) -> bool {
    exists|i: int| 0 <= i < w.len() && (#[trigger] w[i]).level == WarningLevel::Error
}

/// The exit status of a run: 2 when a warning is an error, else 1 when
/// warnings fail the run and there is one, else 0.
pub open spec fn exit_code(w: Seq<WarningItem>, fail_on_warning: bool) -> int {
    if has_error(w) {
        2
    } else if fail_on_warning && w.len() > 0 {
        1
    } else {
        0
    }
}

/// The exit status of a run with these final warnings (see `exit_code`).
pub fn exit_status(warnings: &Vec<WarningItem>, fail_on_warning: bool) -> (c: i32)
    ensures
        c == exit_code(warnings@, fail_on_warning),
{
    let mut i: usize = 0;
    while i < warnings.len()
        invariant
            i <= warnings.len(),
            forall|k: int| 0 <= k < i ==> (#[trigger] warnings@[k]).level != WarningLevel::Error,
        decreases warnings.len() - i,
    {
        match warnings[i].level {
            WarningLevel::Error => {
                return 2;
            },
            _ => {},
        }
        i += 1;
    }
    if fail_on_warning && warnings.len() > 0 {
        1
    } else {
        0
    }
}

// ---------------------------------------------------------------------------
// Warnings after a comparison
// ---------------------------------------------------------------------------
/// The warnings that the analysis itself did not raise.
pub open spec fn non_analysis_warnings(w: Seq<WarningItem>) -> Seq<WarningItem> {
    w.filter(|x: WarningItem| x.source != WarningSource::Analyze)
}

/// Copies a warning.
pub fn copy_warning(w: &WarningItem) -> (out: WarningItem)
    ensures
        out == *w,
{
    WarningItem {
        level: w.level,
        code: copy_string(&w.code),
        message: copy_string(&w.message),
        source: w.source,
        related: copy_opt_string(&w.related),
    }
}

/// The warnings of a run compared with a previous build: those of the current
/// analysis not raised by the analysis rules, in order, then the rules'
/// warnings evaluated against the comparison.
pub fn merge_warnings(current: &Vec<WarningItem>, evaluated: Vec<WarningItem>) -> (out: Vec<WarningItem>)
    ensures
        out@ == non_analysis_warnings(current@) + evaluated@,
{
    let mut out: Vec<WarningItem> = Vec::new();
    let mut i: usize = 0;
    while i < current.len()
        invariant
            i <= current.len(),
            out@ == non_analysis_warnings(current@.take(i as int)),
        decreases current.len() - i,
    {
        let ghost pre = current@.take(i as int);
        assert(current@.take(i + 1).drop_last() =~= pre);
        assert(current@.take(i + 1).last() == current@[i as int]);
        reveal_with_fuel(Seq::filter, 1);
        let keep = match current[i].source {
            WarningSource::Analyze => false,
            _ => true,
        };
        if keep {
            out.push(copy_warning(&current[i]));
        }
        assert(out@ =~= non_analysis_warnings(current@.take(i + 1)));
        i += 1;
    }
    assert(current@.take(current.len() as int) =~= current@);
    let mut rest = evaluated;
    out.append(&mut rest);
    out
}

// ---------------------------------------------------------------------------
// Metadata recorded with a build
// ---------------------------------------------------------------------------
/// The configuration fingerprint: linker family, map format and source-lines
/// mode, joined by `|`.
pub open spec fn config_fingerprint_text(l: LinkerFamily, f: MapFormat, s: SourceLinesMode) -> Seq<char> {
    l.text() + "|"@ + f.text() + "|"@ + s.text()
}

/// The toolchain a build is recorded under: the detected one, else the one
/// resolved from the request.
pub open spec fn toolchain_id_text(t: ToolchainInfo) -> Seq<char> {
    match t.detected {
        Some(k) => k.text(),
        None => t.resolved.text(),
    }
}

/// The metadata recorded with a build: the given metadata with the build
/// profile (when one was given), the toolchain id and the configuration
/// fingerprint.
pub open spec fn run_metadata(
    m: Map<Seq<char>, Seq<char>>,
    profile: Option<Seq<char>>,
    t: ToolchainInfo,
    s: SourceLinesMode,
) -> Map<Seq<char>, Seq<char>> {
    let with_profile = match profile {
        Some(p) => m.insert("build.profile"@, p),
        None => m,
    };
    with_profile.insert("toolchain.id"@, toolchain_id_text(t)).insert(
        "config.fingerprint"@,
        config_fingerprint_text(t.linker_family, t.map_format, s),
    )
}

/// The configuration fingerprint (see `config_fingerprint_text`).
pub fn config_fingerprint(l: LinkerFamily, f: MapFormat, s: SourceLinesMode) -> (r: String)
    ensures
        r@ == config_fingerprint_text(l, f, s),
{
    let mut v: Vec<char> = Vec::new();
    push_str_chars(&mut v, l.as_text().as_str());
    push_str_chars(&mut v, "|");
    push_str_chars(&mut v, f.as_text().as_str());
    push_str_chars(&mut v, "|");
    push_str_chars(&mut v, s.as_text().as_str());
    string_of(&v)
}

/// The metadata recorded with a build (see `run_metadata`).
pub fn history_metadata(
    metadata: &Metadata,
    profile: Option<&str>,
    toolchain: &ToolchainInfo,
    source_lines: SourceLinesMode,
) -> (m: Metadata)
    requires
        metadata.wf(),
    ensures
        m.wf(),
        m@ == run_metadata(
            metadata@,
            match profile {
                Some(p) => Some(p@),
                None => None,
            },
            *toolchain,
            source_lines,
        ),
{
    let mut m = metadata.copy();
    if let Some(p) = profile {
        m.insert(string_from("build.profile"), string_from(p));
    }
    let toolchain_id = match &toolchain.detected {
        Some(k) => k.as_text(),
        None => toolchain.resolved.as_text(),
    };
    m.insert(string_from("toolchain.id"), toolchain_id);
    m.insert(
        string_from("config.fingerprint"),
        config_fingerprint(toolchain.linker_family, toolchain.map_format, source_lines),
    );
    m
}


// ---------------------------------------------------------------------------
// The recorded fingerprint and build variants
// ---------------------------------------------------------------------------
/// The text holds no `|`.
pub open spec fn bar_free(a: Seq<char>) -> bool {
    forall|i: int| 0 <= i < a.len() ==> a[i] != '|'
}

proof fn lemma_find_bar(a: Seq<char>, rest: Seq<char>, i: int)
    requires
        bar_free(a),
        0 <= i <= a.len(),
    ensures
        find_from(a + seq!['|'] + rest, seq!['|'], i) == Some(a.len() as int),
    decreases a.len() - i,
{
    let s = a + seq!['|'] + rest;
    if i < a.len() {
        assert(!occurs_at(s, seq!['|'], i)) by {
            assert(s.subrange(i, i + 1)[0] == a[i]);
        }
        lemma_find_bar(a, rest, i + 1);
    } else {
        assert(s.subrange(i, i + 1) =~= seq!['|']);
    }
}

proof fn lemma_no_bar(a: Seq<char>, i: int)
    requires
        bar_free(a),
        0 <= i,
    ensures
        find_from(a, seq!['|'], i) is None,
    decreases a.len() + 1 - i,
{
    if i + 1 <= a.len() {
        assert(!occurs_at(a, seq!['|'], i)) by {
            assert(a.subrange(i, i + 1)[0] == a[i]);
        }
        lemma_no_bar(a, i + 1);
    }
}

proof fn lemma_split_at_bar(a: Seq<char>, rest: Seq<char>)
    requires
        bar_free(a),
    ensures
        split_all(a + seq!['|'] + rest, seq!['|']) == seq![a] + split_all(rest, seq!['|']),
{
    let s = a + seq!['|'] + rest;
    lemma_find_bar(a, rest, 0);
    assert(s.take(a.len() as int) =~= a);
    assert(s.skip(a.len() as int + 1) =~= rest);
}

proof fn lemma_names_bar_free(l: LinkerFamily, f: MapFormat, s: SourceLinesMode)
    ensures
        bar_free(l.text()),
        bar_free(f.text()),
        bar_free(s.text()),
{
    reveal_strlit("unknown");
    reveal_strlit("gnu");
    reveal_strlit("lld");
    reveal_strlit("lld-native");
    reveal_strlit("off");
    reveal_strlit("files");
    reveal_strlit("functions");
    reveal_strlit("lines");
    reveal_strlit("all");
}

/// The fingerprint a run records keeps, for comparing builds, exactly the
/// linker family and the map format: the source-lines mode does not separate
/// build variants.
pub proof fn law_recorded_fingerprint_compares_linker_and_map(l: LinkerFamily, f: MapFormat, s: SourceLinesMode)
    ensures
        fingerprint_text(Some(config_fingerprint_text(l, f, s))) == l.text() + seq!['|'] + f.text(),
{
    reveal_strlit("|");
    lemma_names_bar_free(l, f, s);
    let a = l.text();
    let b = f.text();
    let c = s.text();
    assert(config_fingerprint_text(l, f, s) =~= a + seq!['|'] + (b + seq!['|'] + c));
    lemma_split_at_bar(a, b + seq!['|'] + c);
    lemma_split_at_bar(b, c);
    lemma_no_bar(c, 0);
    assert(split_all(c, seq!['|']) == seq![c]);
    let parts = split_all(config_fingerprint_text(l, f, s), seq!['|']);
    assert(parts =~= seq![a, b, c]);
    assert(parts.take(2) =~= seq![a, b]);
    assert(seq![a, b].drop_last() =~= seq![a]);
    assert(join(seq![a], seq!['|']) == a);
    assert(join(seq![a, b], seq!['|']) == join(seq![a], seq!['|']) + seq!['|'] + b);
}

} // verus!
