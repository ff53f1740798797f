//! Composing a regression search from what was loaded for it.
//!
//! A search walks the commits from the comparison base to the head, keeps
//! those with a recorded build that passes the filters (see
//! `timeline::select_timeline_items`), and watches one value per kept build.
//! Once the watched values have been read and the boundary detected (see
//! `history::detect_regression` and its rule and entity forms), this module
//! gives the summary and the origin of the search: how many commits were
//! searched and analysed, whether the builds mix configurations, how many
//! unanalysed commits lie between the boundary, how sure the result is, the
//! explanation in words and the boundary commits.
use vstd::prelude::*;

use crate::diff::first_n;
use crate::git::GitCommit;
use crate::history::{
    build_regression_reasoning, classify_regression_confidence, confidence_spec, regression_reasoning_text,
    variant_key, variant_text, DetectionResult, RegressionDetector, RegressionMode, RegressionOrigin,
    RegressionOriginPoint, RegressionPoint, RegressionSummary,
};
use crate::sorting::keep_first;
use crate::text::{
    chars_ends_with, chars_of, chars_starts_with, copy_string, is_prefix, is_suffix, push_str_chars, slice_chars, str_eq,
    string_from, string_of,
};
use crate::timeline::{has_mixed_configuration, missing_between_boundary};

verus! {

/// The commits a search walks: the base commit(s), then the range's commits
/// from oldest to newest, at most `limit` of them when a limit is given.
pub open spec fn search_commit_seq(base: Seq<GitCommit>, range_newest_first: Seq<GitCommit>, limit: Option<usize>) -> Seq<
    GitCommit,
> {
    let all = base + range_newest_first.reverse();
    match limit {
        Some(n) => first_n(all, n),
        None => all,
    }
}

/// The commits a search walks (see `search_commit_seq`).
pub fn search_commits(base: Vec<GitCommit>, range_newest_first: Vec<GitCommit>, limit: Option<usize>) -> (out: Vec<
    GitCommit,
>)
    ensures
        out@ == search_commit_seq(base@, range_newest_first@, limit),
{
    let ghost r = range_newest_first@;
    let mut out = base;
    let ghost start = out@;
    let mut rest = range_newest_first;
    while rest.len() > 0
        invariant
            r.len() >= rest@.len(),
            rest@ == r.take(rest@.len() as int),
            out@ == start + r.skip(rest@.len() as int).reverse(),
        decreases rest.len(),
    {
        let ghost n = rest@.len();
        let c = rest.pop().unwrap();
        assert(c == r[n - 1]);
        assert(rest@ =~= r.take(n - 1));
        out.push(c);
        assert(r.skip(n - 1).reverse() =~= r.skip(n as int).reverse().push(r[n - 1]));
    }
    assert(r.skip(0) =~= r);
    match limit {
        Some(n) => {
            keep_first(&mut out, n);
        },
        None => {},
    }
    out
}

/// The configuration keys of the analysed builds.
pub open spec fn point_variants(analyzed: Seq<RegressionPoint>) -> Seq<Seq<char>> {
    analyzed.map_values(|p: RegressionPoint| variant_text(p.build.metadata@, p.build.linker_family@))
}

/// The analysed builds were made in more than one configuration.
pub open spec fn mixed_of(analyzed: Seq<RegressionPoint>) -> bool {
    exists|i: int, j: int|
        0 <= i < analyzed.len() && 0 <= j < analyzed.len() && #[trigger] point_variants(analyzed)[i]
            != #[trigger] point_variants(analyzed)[j]
}

/// The commits of the search without an analysed build.
pub open spec fn missing_of(searched: usize, analyzed: int) -> int {
    if searched >= analyzed {
        searched - analyzed
    } else {
        0
    }
}

/// The unanalysed commits between the last good and first bad commit, or
/// all unanalysed commits when the search found no such pair.
pub open spec fn gap_of(analyzed: Seq<RegressionPoint>, d: DetectionResult, missing_total: int) -> int {
    match (d.last_good_index, d.first_bad_index) {
        (Some(g), Some(b)) => if analyzed[b as int].commit_index > analyzed[g as int].commit_index + 1 {
            analyzed[b as int].commit_index - analyzed[g as int].commit_index - 1
        } else {
            0
        },
        _ => missing_total,
    }
}

/// A boundary commit with its watched value.
pub open spec fn origin_point_of(p: RegressionPoint, value: Option<i64>) -> RegressionOriginPoint {
    RegressionOriginPoint {
        commit: p.commit.commit,
        short_commit: p.commit.short_commit,
        subject: p.commit.subject,
        value,
    }
}

/// The boundary point at an index of the analysed commits, if any.
pub open spec fn origin_at(analyzed: Seq<RegressionPoint>, d: DetectionResult, i: Option<usize>) -> Option<
    RegressionOriginPoint,
> {
    match i {
        Some(k) => Some(origin_point_of(analyzed[k as int], d.values@[k as int])),
        None => None,
    }
}

/// The detection fits the analysed commits: one value per commit, boundary
/// indices among them, and a commit position that can be followed.
pub open spec fn detection_fits(analyzed: Seq<RegressionPoint>, d: DetectionResult) -> bool {
    &&& d.values@.len() == analyzed.len()
    &&& d.last_good_index matches Some(g) ==> g < analyzed.len() && analyzed[g as int].commit_index < usize::MAX
    &&& d.first_bad_index matches Some(b) ==> b < analyzed.len()
}

fn origin_point(p: &RegressionPoint, value: Option<i64>) -> (o: RegressionOriginPoint)
    ensures
        o == origin_point_of(*p, value),
{
    RegressionOriginPoint {
        commit: copy_string(&p.commit.commit),
        short_commit: copy_string(&p.commit.short_commit),
        subject: copy_string(&p.commit.subject),
        value,
    }
}

fn origin_point_at(analyzed: &Vec<RegressionPoint>, d: &DetectionResult, i: Option<usize>) -> (o: Option<
    RegressionOriginPoint,
>)
    requires
        i matches Some(k) ==> k < analyzed@.len() && k < d.values@.len(),
    ensures
        o == origin_at(analyzed@, *d, i),
{
    match i {
        Some(k) => Some(origin_point(&analyzed[k], d.values[k])),
        None => None,
    }
}

/// The summary and the origin of a regression search over `searched_commit_count`
/// commits, given its analysed commits and what the detector found: the
/// counts, whether configurations are mixed, the confidence (from the gap at
/// the boundary, the unanalysed commits and the mix), the explanation and the
/// boundary commits with their values.
pub fn regression_outcome(
    analyzed: &Vec<RegressionPoint>,
    detection: &DetectionResult,
    searched_commit_count: usize,
    detector_type: &RegressionDetector,
    key: &str,
    mode: RegressionMode,
) -> (r: (RegressionSummary, RegressionOrigin))
    requires
        forall|k: int| 0 <= k < analyzed@.len() ==> (#[trigger] analyzed@[k]).build.metadata.wf(),
        detection_fits(analyzed@, *detection),
    ensures
        ({
            let a = analyzed@;
            let missing = missing_of(searched_commit_count, a.len() as int);
            let mixed = mixed_of(a);
            let gap = gap_of(a, *detection, missing);
            let confidence = confidence_spec(
                a.len() == 0,
                detection.last_good_index,
                detection.first_bad_index,
                gap as usize,
                missing as usize,
                mixed,
            );
            &&& r.0.searched_commit_count == searched_commit_count
            &&& r.0.analyzed_commit_count == a.len()
            &&& r.0.missing_analysis_count == missing
            &&& r.0.mixed_configuration == mixed
            &&& r.0.confidence == confidence
            &&& r.0.reasoning@ == regression_reasoning_text(
                *detector_type,
                key@,
                mode,
                detection.values@,
                detection.last_good_index,
                detection.first_bad_index,
                confidence,
                gap as usize,
            )
            &&& r.1.last_good == origin_at(a, *detection, detection.last_good_index)
            &&& r.1.first_observed_bad == origin_at(a, *detection, detection.first_bad_index)
            &&& r.1.first_bad_candidate == origin_at(a, *detection, detection.first_bad_index)
        }),
{
    let mut variants: Vec<String> = Vec::new();
    let mut indexes: Vec<usize> = Vec::new();
    let mut i: usize = 0;
    while i < analyzed.len()
        invariant
            i <= analyzed.len(),
            forall|k: int| 0 <= k < analyzed@.len() ==> (#[trigger] analyzed@[k]).build.metadata.wf(),
            variants@.len() == i,
            indexes@.len() == i,
            forall|k: int| 0 <= k < i ==> (#[trigger] variants@[k])@ == point_variants(analyzed@)[k],
            forall|k: int| 0 <= k < i ==> #[trigger] indexes@[k] == analyzed@[k].commit_index,
        decreases analyzed.len() - i,
    {
        variants.push(variant_key(&analyzed[i].build));
        indexes.push(analyzed[i].commit_index);
        i += 1;
    }
    let mixed = has_mixed_configuration(&variants);
    assert(mixed == mixed_of(analyzed@)) by {
        if mixed {
            let (a, b) = choose|a: int, b: int|
                0 <= a < variants@.len() && 0 <= b < variants@.len() && (#[trigger] variants@[a])@
                    != (#[trigger] variants@[b])@;
            assert(point_variants(analyzed@)[a] != point_variants(analyzed@)[b]);
        }
        if mixed_of(analyzed@) {
            let (a, b) = choose|a: int, b: int|
                0 <= a < analyzed@.len() && 0 <= b < analyzed@.len() && #[trigger] point_variants(analyzed@)[a]
                    != #[trigger] point_variants(analyzed@)[b];
            assert(variants@[a]@ != variants@[b]@);
        }
    }
    let missing = if searched_commit_count >= analyzed.len() {
        searched_commit_count - analyzed.len()
    } else {
        0
    };
    let gap = missing_between_boundary(&indexes, detection.last_good_index, detection.first_bad_index, missing);
    assert(gap == gap_of(analyzed@, *detection, missing as int));
    assert(missing == missing_of(searched_commit_count, analyzed@.len() as int));
    let confidence = classify_regression_confidence(
        analyzed.len() == 0,
        detection.last_good_index,
        detection.first_bad_index,
        gap,
        missing,
        mixed,
    );
    let reasoning = build_regression_reasoning(detector_type, key, mode, detection, confidence, gap);
    let summary = RegressionSummary {
        searched_commit_count,
        analyzed_commit_count: analyzed.len(),
        missing_analysis_count: missing,
        confidence,
        mixed_configuration: mixed,
        reasoning,
    };
    let origin = RegressionOrigin {
        last_good: origin_point_at(analyzed, detection, detection.last_good_index),
        first_observed_bad: origin_point_at(analyzed, detection, detection.first_bad_index),
        first_bad_candidate: origin_point_at(analyzed, detection, detection.first_bad_index),
    };
    (summary, origin)
}


// ---------------------------------------------------------------------------
// Where a watched value is read
// ---------------------------------------------------------------------------
/// Where the value a search watches for a build is read: a column of the
/// build row, the value column of a named row of a metrics table, the size of
/// a named Rust aggregate in one scope, or summed over the scopes matching a
/// pattern.
#[derive(Debug, Clone, PartialEq, Eq)]
pub enum ValueLookup {
    BuildColumn { column: String },
    Named { table: String, name_column: String, value_column: String, name: String },
    RustScope { scope: String, name: String },
    RustScopeLike { pattern: String, name: String },
}

/// A value lookup as text.
pub enum LookupText {
    BuildColumn(Seq<char>),
    Named(Seq<char>, Seq<char>, Seq<char>, Seq<char>),
    RustScope(Seq<char>, Seq<char>),
    RustScopeLike(Seq<char>, Seq<char>),
}

impl View for ValueLookup {
    type V = LookupText;

    open spec fn view(&self) -> LookupText {
        match self {
            ValueLookup::BuildColumn { column } => LookupText::BuildColumn(column@),
            ValueLookup::Named { table, name_column, value_column, name } => LookupText::Named(
                table@,
                name_column@,
                value_column@,
                name@,
            ),
            ValueLookup::RustScope { scope, name } => LookupText::RustScope(scope@, name@),
            ValueLookup::RustScopeLike { pattern, name } => LookupText::RustScopeLike(pattern@, name@),
        }
    }
}

/// What lies between `p` and `s` in `key`, when `key` starts with `p` and
/// the rest ends with `s`.
pub open spec fn affix_middle(key: Seq<char>, p: Seq<char>, s: Seq<char>) -> Option<Seq<char>> {
    let rest = key.skip(p.len() as int);
    if is_prefix(p, key) && is_suffix(s, rest) {
        Some(rest.take(rest.len() - s.len()))
    } else {
        None
    }
}

fn strip_affixes(key: &Vec<char>, p: &str, s: &str) -> (r: Option<Vec<char>>)
    ensures
        match r {
            Some(v) => affix_middle(key@, p@, s@) == Some(v@),
            None => affix_middle(key@, p@, s@) is None,
        },
{
    let pv = chars_of(p);
    if !chars_starts_with(key, &pv) {
        return None;
    }
    let rest = slice_chars(key, pv.len(), key.len());
    assert(rest@ =~= key@.skip(p@.len() as int));
    let sv = chars_of(s);
    if !chars_ends_with(&rest, &sv) {
        return None;
    }
    Some(slice_chars(&rest, 0, rest.len() - sv.len()))
}

/// A named metrics-table lookup.
pub open spec fn named_text(table: Seq<char>, name_column: Seq<char>, value_column: Seq<char>, n: Option<Seq<char>>) -> Option<
    LookupText,
> {
    match n {
        Some(x) => Some(LookupText::Named(table, name_column, value_column, x)),
        None => None,
    }
}

/// The lookup of a key of the form `<kind>:<name><suffix>`: regions by the
/// used bytes (suffix `used`), the other kinds by size (suffix `size`), Rust
/// families summed over their scopes.
pub open spec fn lookup_by_affix(key: Seq<char>, used: Seq<char>, size: Seq<char>) -> Option<LookupText> {
    if affix_middle(key, "region:"@, used) is Some {
        named_text("region_metrics"@, "region_name"@, "used_bytes"@, affix_middle(key, "region:"@, used))
    } else if affix_middle(key, "section:"@, size) is Some {
        named_text("section_metrics"@, "section_name"@, "size_bytes"@, affix_middle(key, "section:"@, size))
    } else if affix_middle(key, "source:"@, size) is Some {
        named_text("source_file_metrics"@, "path"@, "size_bytes"@, affix_middle(key, "source:"@, size))
    } else if affix_middle(key, "object:"@, size) is Some {
        named_text("object_metrics"@, "object_path"@, "size_bytes"@, affix_middle(key, "object:"@, size))
    } else if affix_middle(key, "symbol:"@, size) is Some {
        named_text("symbol_metrics"@, "name"@, "size_bytes"@, affix_middle(key, "symbol:"@, size))
    } else if affix_middle(key, "rust-package:"@, size) is Some {
        Some(LookupText::RustScope("package"@, affix_middle(key, "rust-package:"@, size)->0))
    } else if affix_middle(key, "rust-target:"@, size) is Some {
        Some(LookupText::RustScope("target"@, affix_middle(key, "rust-target:"@, size)->0))
    } else if affix_middle(key, "rust-crate:"@, size) is Some {
        Some(LookupText::RustScope("crate"@, affix_middle(key, "rust-crate:"@, size)->0))
    } else if affix_middle(key, "rust-dependency:"@, size) is Some {
        Some(LookupText::RustScope("dependency"@, affix_middle(key, "rust-dependency:"@, size)->0))
    } else if affix_middle(key, "rust-source:"@, size) is Some {
        Some(LookupText::RustScope("source"@, affix_middle(key, "rust-source:"@, size)->0))
    } else if affix_middle(key, "rust-family:"@, size) is Some {
        Some(LookupText::RustScopeLike("family:%"@, affix_middle(key, "rust-family:"@, size)->0))
    } else {
        None
    }
}

fn named(table: &str, name_column: &str, value_column: &str, name: Vec<char>) -> (l: ValueLookup)
    ensures
        l@ == LookupText::Named(table@, name_column@, value_column@, name@),
{
    ValueLookup::Named {
        table: string_from(table),
        name_column: string_from(name_column),
        value_column: string_from(value_column),
        name: string_of(&name),
    }
}

fn lookup_affixed(key: &Vec<char>, used: &str, size: &str) -> (r: Option<ValueLookup>)
    ensures
        match r {
            Some(l) => lookup_by_affix(key@, used@, size@) == Some(l@),
            None => lookup_by_affix(key@, used@, size@) is None,
        },
{
    if let Some(n) = strip_affixes(key, "region:", used) {
        return Some(named("region_metrics", "region_name", "used_bytes", n));
    }
    if let Some(n) = strip_affixes(key, "section:", size) {
        return Some(named("section_metrics", "section_name", "size_bytes", n));
    }
    if let Some(n) = strip_affixes(key, "source:", size) {
        return Some(named("source_file_metrics", "path", "size_bytes", n));
    }
    if let Some(n) = strip_affixes(key, "object:", size) {
        return Some(named("object_metrics", "object_path", "size_bytes", n));
    }
    if let Some(n) = strip_affixes(key, "symbol:", size) {
        return Some(named("symbol_metrics", "name", "size_bytes", n));
    }
    if let Some(n) = strip_affixes(key, "rust-package:", size) {
        return Some(ValueLookup::RustScope { scope: string_from("package"), name: string_of(&n) });
    }
    if let Some(n) = strip_affixes(key, "rust-target:", size) {
        return Some(ValueLookup::RustScope { scope: string_from("target"), name: string_of(&n) });
    }
    if let Some(n) = strip_affixes(key, "rust-crate:", size) {
        return Some(ValueLookup::RustScope { scope: string_from("crate"), name: string_of(&n) });
    }
    if let Some(n) = strip_affixes(key, "rust-dependency:", size) {
        return Some(ValueLookup::RustScope { scope: string_from("dependency"), name: string_of(&n) });
    }
    if let Some(n) = strip_affixes(key, "rust-source:", size) {
        return Some(ValueLookup::RustScope { scope: string_from("source"), name: string_of(&n) });
    }
    if let Some(n) = strip_affixes(key, "rust-family:", size) {
        return Some(ValueLookup::RustScopeLike { pattern: string_from("family:%"), name: string_of(&n) });
    }
    None
}

/// Where the value of a metric key is read: `rom_total` and `ram_total` from
/// the build row, `region:<name>.used`, `<kind>:<name>.size` for sections,
/// source files, objects, symbols and the Rust aggregates.
pub open spec fn metric_lookup_of(key: Seq<char>) -> Option<LookupText> {
    if key == "rom_total"@ {
        Some(LookupText::BuildColumn("rom_bytes"@))
    } else if key == "ram_total"@ {
        Some(LookupText::BuildColumn("ram_bytes"@))
    } else {
        lookup_by_affix(key, ".used"@, ".size"@)
    }
}

/// Where the value of an entity key `<kind>:<name>` is read.
pub open spec fn entity_lookup_of(key: Seq<char>) -> Option<LookupText> {
    lookup_by_affix(key, Seq::empty(), Seq::empty())
}

fn error_for(prefix: &str, key: &str) -> (e: String)
    ensures
        e@ == prefix@ + key@ + "'"@,
{
    let mut v: Vec<char> = Vec::new();
    push_str_chars(&mut v, prefix);
    push_str_chars(&mut v, key);
    push_str_chars(&mut v, "'");
    string_of(&v)
}

/// Where the value of a metric key is read (see `metric_lookup_of`);
/// `unsupported metric key '<key>'` for any other key.
pub fn metric_value_lookup(key: &str) -> (r: Result<ValueLookup, String>)
    ensures
        match r {
            Ok(l) => metric_lookup_of(key@) == Some(l@),
            Err(e) => metric_lookup_of(key@) is None && e@ == "unsupported metric key '"@ + key@ + "'"@,
        },
{
    if str_eq(key, "rom_total") {
        return Ok(ValueLookup::BuildColumn { column: string_from("rom_bytes") });
    }
    if str_eq(key, "ram_total") {
        return Ok(ValueLookup::BuildColumn { column: string_from("ram_bytes") });
    }
    let k = chars_of(key);
    match lookup_affixed(&k, ".used", ".size") {
        Some(l) => Ok(l),
        None => Err(error_for("unsupported metric key '", key)),
    }
}

/// Where the value of an entity key is read (see `entity_lookup_of`);
/// `unsupported entity key '<key>'` for any other key.
pub fn entity_value_lookup(key: &str) -> (r: Result<ValueLookup, String>)
    ensures
        match r {
            Ok(l) => entity_lookup_of(key@) == Some(l@),
            Err(e) => entity_lookup_of(key@) is None && e@ == "unsupported entity key '"@ + key@ + "'"@,
        },
{
    let k = chars_of(key);
    proof {
        reveal_strlit("");
        assert(""@ =~= Seq::<char>::empty());
    }
    match lookup_affixed(&k, "", "") {
        Some(l) => Ok(l),
        None => Err(error_for("unsupported entity key '", key)),
    }
}


/// Whether a build's recorded rule hits include the watched rule.
pub fn rules_include(rule_ids: &Vec<String>, key: &str) -> (r: bool)
    ensures
        r == exists|i: int| 0 <= i < rule_ids@.len() && (#[trigger] rule_ids@[i])@ == key@,
{
    let mut i: usize = 0;
    while i < rule_ids.len()
        invariant
            i <= rule_ids.len(),
            forall|k: int| 0 <= k < i ==> (#[trigger] rule_ids@[k])@ != key@,
        decreases rule_ids.len() - i,
    {
        if str_eq(rule_ids[i].as_str(), key) {
            return true;
        }
        i += 1;
    }
    false
}

} // verus!
