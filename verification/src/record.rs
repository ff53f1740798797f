//! The rows stored for one recorded build.
//!
//! Recording a build writes its metadata (with the debug artifact's facts
//! added), its warning and error counts, the bytes of each object summed per
//! path, one row per attributed function under its function key, and the
//! why-linked explanations of the largest objects.  `history_rows` computes
//! all of these from an analysis; writing them to the database is left to
//! the caller.
use vstd::prelude::*;

use crate::history::{WhyLinkedRecord, WhyText};
use crate::linkage::{explain_object, explain_object_text, Confidence, ImageFacts};
use crate::metadata::Metadata;
use crate::model::{FunctionAttribution, GitMetadata, ObjectContribution, RustContext, WarningItem, WarningLevel};
use crate::sorting::{sort_by_key, sorted_by_key};
use crate::text::{
    compare_strings, copy_opt_string, copy_string, hex_digit_char, join, lemma_lex_irreflexive, lemma_lex_total, lemma_lex_transitive,
    lex_lt, push_str_chars, string_from, string_of, Precedence,
};
use crate::timeline::texts;

verus! {

/// The debug artifact an analysis read: the name of its kind (`None` when
/// there was no separate artifact), where it was found, its path and its
/// build id.
#[derive(Debug, Clone, PartialEq, Eq)]
pub struct DebugArtifactFacts {
    pub kind: Option<String>,
    pub source: String,
    pub path: Option<String>,
    pub build_id: Option<String>,
}

/// What recording a build reads of its analysis.
#[derive(Debug, Clone, PartialEq, Eq)]
pub struct HistoryAnalysis {
    pub warnings: Vec<WarningItem>,
    pub debug_artifact: DebugArtifactFacts,
    pub image: ImageFacts,
    pub function_attributions: Vec<FunctionAttribution>,
    pub git: Option<GitMetadata>,
    pub rust_context: Option<RustContext>,
}

/// The lists of a Rust context as stored: JSON arrays of texts.
#[derive(Debug, Clone, PartialEq, Eq)]
pub struct RustListsJson {
    pub target_kind_json: String,
    pub crate_types_json: String,
    pub workspace_members_json: String,
}

/// One stored function: its key, names, source path and size.
#[derive(Debug, Clone, PartialEq, Eq)]
pub struct FunctionRow {
    pub function_key: String,
    pub raw_name: String,
    pub demangled_name: Option<String>,
    pub path: Option<String>,
    pub size: u64,
}

/// Everything stored for one build besides what the analysis holds as is.
#[derive(Debug, Clone, PartialEq, Eq)]
pub struct HistoryRows {
    pub metadata: Metadata,
    pub metadata_json: String,
    pub tag_names_json: Option<String>,
    pub rust_lists_json: Option<RustListsJson>,
    pub warning_count: u64,
    pub error_count: u64,
    pub objects: Vec<(String, u64)>,
    pub functions: Vec<FunctionRow>,
    pub why_linked: Vec<WhyLinkedRecord>,
}

// ---------------------------------------------------------------------------
// Metadata
// ---------------------------------------------------------------------------
/// The metadata stored with a build: the given metadata, and when there is a
/// debug artifact, its kind and source, and its path and build id where known.
pub open spec fn stored_metadata(m: Map<Seq<char>, Seq<char>>, d: DebugArtifactFacts) -> Map<Seq<char>, Seq<char>> {
    match d.kind {
        None => m,
        Some(k) => {
            let base = m.insert("debug_artifact.kind"@, k@).insert("debug_artifact.source"@, d.source@);
            let with_path = match d.path {
                Some(p) => base.insert("debug_artifact.path"@, p@),
                None => base,
            };
            match d.build_id {
                Some(b) => with_path.insert("debug_artifact.build_id"@, b@),
                None => with_path,
            }
        },
    }
}

/// The metadata stored with a build (see `stored_metadata`).
pub fn store_metadata(metadata: &Metadata, artifact: &DebugArtifactFacts) -> (m: Metadata)
    requires
        metadata.wf(),
    ensures
        m.wf(),
        m@ == stored_metadata(metadata@, *artifact),
{
    let mut m = metadata.copy();
    if let Some(kind) = &artifact.kind {
        m.insert(string_from("debug_artifact.kind"), copy_string(kind));
        m.insert(string_from("debug_artifact.source"), copy_string(&artifact.source));
        if let Some(path) = &artifact.path {
            m.insert(string_from("debug_artifact.path"), copy_string(path));
        }
        if let Some(build_id) = &artifact.build_id {
            m.insert(string_from("debug_artifact.build_id"), copy_string(build_id));
        }
    }
    m
}

// ---------------------------------------------------------------------------
// Counts
// ---------------------------------------------------------------------------
/// The number of warnings at error level.
pub open spec fn error_count(w: Seq<WarningItem>) -> nat
    decreases w.len(),
{
    if w.len() == 0 {
        0
    } else {
        error_count(w.drop_last()) + if w.last().level == WarningLevel::Error {
            1nat
        } else {
            0nat
        }
    }
}

/// Counts the warnings at error level.
pub fn count_errors(warnings: &Vec<WarningItem>) -> (n: u64)
    ensures
        n == error_count(warnings@),
{
    let mut n: u64 = 0;
    let mut i: usize = 0;
    while i < warnings.len()
        invariant
            i <= warnings.len(),
            n <= i,
            n == error_count(warnings@.take(i as int)),
        decreases warnings.len() - i,
    {
        assert(warnings@.take(i + 1).drop_last() =~= warnings@.take(i as int));
        match warnings[i].level {
            WarningLevel::Error => {
                n = n + 1;
            },
            _ => {},
        }
        i += 1;
    }
    assert(warnings@.take(warnings.len() as int) =~= warnings@);
    n
}

// ---------------------------------------------------------------------------
// Functions
// ---------------------------------------------------------------------------
/// The key a function is stored under: `path::raw_name` where its source
/// path is known, else its raw name.
pub open spec fn function_key_text(f: FunctionAttribution) -> Seq<char> {
    match f.path {
        Some(p) => p@ + "::"@ + f.raw_name@,
        None => f.raw_name@,
    }
}

/// `rows` are the functions, one row each, in order.
pub open spec fn function_rows_match(rows: Seq<FunctionRow>, fs: Seq<FunctionAttribution>) -> bool {
    &&& rows.len() == fs.len()
    &&& forall|i: int|
        0 <= i < fs.len() ==> {
            &&& (#[trigger] rows[i]).function_key@ == function_key_text(fs[i])
            &&& rows[i].raw_name == fs[i].raw_name
            &&& rows[i].demangled_name == fs[i].demangled_name
            &&& rows[i].path == fs[i].path
            &&& rows[i].size == fs[i].size
        }
}

/// The key a function is stored under (see `function_key_text`).
pub fn function_key(f: &FunctionAttribution) -> (k: String)
    ensures
        k@ == function_key_text(*f),
{
    match &f.path {
        Some(p) => {
            let mut v: Vec<char> = Vec::new();
            push_str_chars(&mut v, p.as_str());
            push_str_chars(&mut v, "::");
            push_str_chars(&mut v, f.raw_name.as_str());
            string_of(&v)
        },
        None => copy_string(&f.raw_name),
    }
}

/// One row per function, in order.
pub fn function_rows(functions: &Vec<FunctionAttribution>) -> (rows: Vec<FunctionRow>)
    ensures
        function_rows_match(rows@, functions@),
{
    let mut rows: Vec<FunctionRow> = Vec::new();
    let mut i: usize = 0;
    while i < functions.len()
        invariant
            i <= functions.len(),
            function_rows_match(rows@, functions@.take(i as int)),
        decreases functions.len() - i,
    {
        let f = &functions[i];
        rows.push(
            FunctionRow {
                function_key: function_key(f),
                raw_name: copy_string(&f.raw_name),
                demangled_name: copy_opt_string(&f.demangled_name),
                path: copy_opt_string(&f.path),
                size: f.size,
            },
        );
        i += 1;
    }
    assert(functions@.take(functions.len() as int) =~= functions@);
    rows
}

// ---------------------------------------------------------------------------
// Objects
// ---------------------------------------------------------------------------
/// The bytes contributed under each object path.
pub open spec fn path_totals(c: Seq<ObjectContribution>) -> Map<Seq<char>, int>
    decreases c.len(),
{
    if c.len() == 0 {
        Map::empty()
    } else {
        let m = path_totals(c.drop_last());
        let p = c.last().object_path@;
        let before = if m.contains_key(p) {
            m[p]
        } else {
            0
        };
        m.insert(p, before + c.last().size)
    }
}

/// The bytes of all contributions.
pub open spec fn contribution_sum(c: Seq<ObjectContribution>) -> int
    decreases c.len(),
{
    if c.len() == 0 {
        0
    } else {
        contribution_sum(c.drop_last()) + c.last().size
    }
}

/// `rows` hold each object path of `c` once, in ascending order, with the
/// bytes contributed under it.
pub open spec fn is_object_totals(rows: Seq<(String, u64)>, c: Seq<ObjectContribution>) -> bool {
    &&& forall|i: int, j: int| 0 <= i < j < rows.len() ==> lex_lt(#[trigger] rows[i].0@, #[trigger] rows[j].0@)
    &&& forall|i: int|
        0 <= i < rows.len() ==> path_totals(c).contains_key((#[trigger] rows[i]).0@) && rows[i].1
            == path_totals(c)[rows[i].0@]
    &&& forall|p: Seq<char>|
        #[trigger] path_totals(c).contains_key(p) ==> exists|i: int| 0 <= i < rows.len() && (#[trigger] rows[i]).0@ == p
}

proof fn lemma_path_totals_bounded(c: Seq<ObjectContribution>)
    ensures
        contribution_sum(c) >= 0,
        forall|p: Seq<char>|
            #[trigger] path_totals(c).contains_key(p) ==> 0 <= path_totals(c)[p] <= contribution_sum(c),
    decreases c.len(),
{
    if c.len() > 0 {
        let d = c.drop_last();
        let lp = c.last().object_path@;
        lemma_path_totals_bounded(d);
        assert(contribution_sum(c) == contribution_sum(d) + c.last().size);
        let before = if path_totals(d).contains_key(lp) {
            path_totals(d)[lp]
        } else {
            0
        };
        assert(path_totals(c) == path_totals(d).insert(lp, before + c.last().size));
        assert(0 <= before <= contribution_sum(d));
        assert forall|p: Seq<char>| #[trigger] path_totals(c).contains_key(p) implies 0 <= path_totals(c)[p]
            <= contribution_sum(c) by {
            if path_totals(d).contains_key(p) {
                assert(path_totals(d)[p] <= contribution_sum(d));
            }
        }
    }
}

proof fn lemma_contribution_sum_prefix(c: Seq<ObjectContribution>, k: int)
    requires
        0 <= k <= c.len(),
    ensures
        contribution_sum(c.take(k)) <= contribution_sum(c),
    decreases c.len() - k,
{
    if k < c.len() {
        lemma_contribution_sum_prefix(c, k + 1);
        assert(c.take(k + 1).drop_last() =~= c.take(k));
        assert(c.take(k + 1).last() == c[k]);
    } else {
        assert(c.take(k) =~= c);
    }
}

/// The bytes of each object path, the paths in ascending order.
pub fn object_totals(contributions: &Vec<ObjectContribution>) -> (rows: Vec<(String, u64)>)
    requires
        contribution_sum(contributions@) <= u64::MAX,
    ensures
        is_object_totals(rows@, contributions@),
{
    let ghost c = contributions@;
    let mut rows: Vec<(String, u64)> = Vec::new();
    let mut k: usize = 0;
    while k < contributions.len()
        invariant
            k <= contributions.len(),
            c == contributions@,
            contribution_sum(c) <= u64::MAX,
            is_object_totals(rows@, c.take(k as int)),
        decreases contributions.len() - k,
    {
        let ghost pre = c.take(k as int);
        let ghost next = c.take(k + 1);
        assert(next.drop_last() =~= pre);
        assert(next.last() == c[k as int]);
        proof {
            lemma_path_totals_bounded(next);
            lemma_contribution_sum_prefix(c, k + 1);
        }
        let path = &contributions[k].object_path;
        let size = contributions[k].size;
        let ghost p = path@;
        let ghost before = rows@;
        let mut j: usize = 0;
        let mut same = false;
        loop
            invariant_except_break
                !same,
            invariant
                j <= rows.len(),
                rows@ == before,
                p == path@,
                forall|i: int| 0 <= i < j ==> lex_lt(#[trigger] rows@[i].0@, p),
            ensures
                j <= rows.len(),
                rows@ == before,
                forall|i: int| 0 <= i < j ==> lex_lt(#[trigger] rows@[i].0@, p),
                same ==> j < rows.len() && rows@[j as int].0@ == p,
                !same ==> j < rows.len() ==> lex_lt(p, rows@[j as int].0@),
            decreases rows.len() - j,
        {
            if j >= rows.len() {
                break;
            }
            let ord = compare_strings(&rows[j].0, path);
            match ord {
                Precedence::Same => {
                    same = true;
                    break;
                },
                Precedence::After => {
                    proof {
                        lemma_lex_total(rows@[j as int].0@, p);
                    }
                    break;
                },
                Precedence::Before => {},
            }
            assert(lex_lt(rows@[j as int].0@, p));
            j += 1;
        }
        proof {
            lemma_path_totals_bounded(pre);
        }
        if same {
            assert(rows@[j as int].0@ == p);
            assert(path_totals(next)[p] == rows@[j as int].1 + size);
            let total = rows[j].1 + size;
            let name = copy_string(&rows[j].0);
            rows.set(j, (name, total));
            proof {
                assert forall|i: int| 0 <= i < rows@.len() && i != j implies (#[trigger] rows@[i]).0@ != p by {
                    lemma_lex_irreflexive(p);
                }
                assert(is_object_totals(rows@, next)) by {
                    assert forall|i: int| 0 <= i < rows@.len() implies path_totals(next).contains_key(
                        (#[trigger] rows@[i]).0@,
                    ) && rows@[i].1 == path_totals(next)[rows@[i].0@] by {
                        if i != j {
                            assert(rows@[i] == before[i]);
                        }
                    }
                    assert forall|q: Seq<char>| #[trigger] path_totals(next).contains_key(q) implies exists|i: int|
                        0 <= i < rows@.len() && (#[trigger] rows@[i]).0@ == q by {
                        if q == p {
                            assert(rows@[j as int].0@ == q);
                        } else {
                            let i = choose|i: int| 0 <= i < before.len() && (#[trigger] before[i]).0@ == q;
                            assert(rows@[i].0@ == q);
                        }
                    }
                }
            }
        } else {
            proof {
                assert(!path_totals(pre).contains_key(p)) by {
                    if path_totals(pre).contains_key(p) {
                        let i = choose|i: int| 0 <= i < before.len() && (#[trigger] before[i]).0@ == p;
                        if i > j {
                            lemma_lex_transitive(p, before[j as int].0@, before[i].0@);
                        }
                        lemma_lex_irreflexive(p);
                    }
                }
            }
            rows.insert(j, (copy_string(path), size));
            proof {
                assert(rows@ == before.insert(j as int, (*path, size)));
                assert forall|a: int, b: int| 0 <= a < b < rows@.len() implies lex_lt(
                    #[trigger] rows@[a].0@,
                    #[trigger] rows@[b].0@,
                ) by {
                    if a < j && b == j {
                    } else if a < j && b > j {
                        assert(rows@[b] == before[b - 1]);
                        if j < before.len() {
                            lemma_lex_transitive(rows@[a].0@, p, before[j as int].0@);
                            if b - 1 > j {
                                lemma_lex_transitive(rows@[a].0@, before[j as int].0@, before[b - 1].0@);
                            }
                        }
                    } else if a == j {
                        assert(rows@[b] == before[b - 1]);
                        if b - 1 > j {
                            lemma_lex_transitive(p, before[j as int].0@, before[b - 1].0@);
                        }
                    } else if a > j {
                        assert(rows@[a] == before[a - 1]);
                        assert(rows@[b] == before[b - 1]);
                    } else {
                        assert(rows@[a] == before[a]);
                        assert(rows@[b] == before[b]);
                    }
                }
                assert forall|i: int| 0 <= i < rows@.len() implies path_totals(next).contains_key(
                    (#[trigger] rows@[i]).0@,
                ) && rows@[i].1 == path_totals(next)[rows@[i].0@] by {
                    if i < j {
                        assert(rows@[i] == before[i]);
                        lemma_lex_irreflexive(p);
                    } else if i > j {
                        assert(rows@[i] == before[i - 1]);
                        if i - 1 > j {
                            lemma_lex_transitive(p, before[j as int].0@, before[i - 1].0@);
                        }
                        lemma_lex_irreflexive(p);
                    }
                }
                assert forall|q: Seq<char>| #[trigger] path_totals(next).contains_key(q) implies exists|i: int|
                    0 <= i < rows@.len() && (#[trigger] rows@[i]).0@ == q by {
                    if q == p {
                        assert(rows@[j as int].0@ == q);
                    } else {
                        let i = choose|i: int| 0 <= i < before.len() && (#[trigger] before[i]).0@ == q;
                        if i < j {
                            assert(rows@[i] == before[i]);
                        } else {
                            assert(rows@[i + 1] == before[i]);
                        }
                    }
                }
            }
        }
        k += 1;
    }
    assert(c.take(contributions.len() as int) =~= c);
    rows
}

// ---------------------------------------------------------------------------
// Why-linked records
// ---------------------------------------------------------------------------
/// The name of a confidence level.
pub open spec fn confidence_name(c: Confidence) -> Seq<char> {
    match c {
        Confidence::Low => "low"@,
        Confidence::Medium => "medium"@,
        Confidence::High => "high"@,
    }
}

/// The why-linked records of the ranked objects, in rank order: one for each
/// object that the map's contributions explain.
pub open spec fn why_linked_texts(img: ImageFacts, ranked: Seq<(String, u64)>) -> Seq<WhyText>
    decreases ranked.len(),
{
    if ranked.len() == 0 {
        Seq::empty()
    } else {
        let rest = why_linked_texts(img, ranked.drop_last());
        let (target, size) = ranked.last();
        match explain_object_text(img, target@) {
            Some(x) => rest.push((target@, "object"@, confidence_name(x.3), x.2, size)),
            None => rest,
        }
    }
}

/// The texts of a list of why-linked records.
pub open spec fn why_views(v: Seq<WhyLinkedRecord>) -> Seq<WhyText> {
    v.map_values(|r: WhyLinkedRecord| r@)
}

/// The first `limit` objects ranked by size, largest first, then by path.
pub open spec fn top_ranked(objects: Seq<(String, u64)>, limit: int) -> Seq<(String, u64)> {
    let ranked = sorted_by_key(objects);
    if ranked.len() <= limit {
        ranked
    } else {
        ranked.take(limit)
    }
}

/// Copies a list of named sizes.
fn copy_named_sizes(v: &Vec<(String, u64)>) -> (out: Vec<(String, u64)>)
    ensures
        out@ == v@,
{
    let mut out: Vec<(String, u64)> = Vec::new();
    let mut i: usize = 0;
    while i < v.len()
        invariant
            i <= v.len(),
            out@ == v@.take(i as int),
        decreases v.len() - i,
    {
        out.push((copy_string(&v[i].0), v[i].1));
        assert(out@ =~= v@.take(i + 1));
        i += 1;
    }
    assert(v@.take(v.len() as int) =~= v@);
    out
}

/// The why-linked records of the `limit` largest objects (see
/// `why_linked_texts`).
pub fn why_linked_records(image: &ImageFacts, objects: &Vec<(String, u64)>, limit: usize) -> (r: Vec<
    WhyLinkedRecord,
>)
    ensures
        why_views(r@) == why_linked_texts(*image, top_ranked(objects@, limit as int)),
{
    let ranked = sort_by_key(copy_named_sizes(objects));
    let ghost top = top_ranked(objects@, limit as int);
    let n = if ranked.len() <= limit {
        ranked.len()
    } else {
        limit
    };
    assert(top =~= ranked@.take(n as int));
    let mut out: Vec<WhyLinkedRecord> = Vec::new();
    let mut i: usize = 0;
    while i < n
        invariant
            i <= n <= ranked.len(),
            top == ranked@.take(n as int),
            why_views(out@) == why_linked_texts(*image, ranked@.take(i as int)),
        decreases n - i,
    {
        let ghost pre = ranked@.take(i as int);
        assert(ranked@.take(i + 1).drop_last() =~= pre);
        assert(ranked@.take(i + 1).last() == ranked@[i as int]);
        let target = &ranked[i].0;
        match explain_object(image, target.as_str()) {
            Some(x) => {
                let record = WhyLinkedRecord {
                    target: copy_string(target),
                    kind: string_from("object"),
                    confidence: x.confidence.as_text(),
                    summary: x.summary,
                    current_size: ranked[i].1,
                };
                let ghost before = out@;
                out.push(record);
                assert(why_views(out@) =~= why_views(before).push(record@));
            },
            None => {},
        }
        i += 1;
    }
    out
}

// ---------------------------------------------------------------------------
// Serialized texts
// ---------------------------------------------------------------------------
/// A character as serde_json writes it inside a JSON string: `"` and `\`
/// escaped with a backslash, the control characters with a short escape
/// (`\b`, `\f`, `\n`, `\r`, `\t`) or as `\u00` and two lower-case hex digits,
/// every other character as itself.
pub open spec fn json_char(c: char) -> Seq<char> {
    if c == '"' {
        seq!['\\', '"']
    } else if c == '\\' {
        seq!['\\', '\\']
    } else if c == '\x08' {
        seq!['\\', 'b']
    } else if c == '\x0c' {
        seq!['\\', 'f']
    } else if c == '\n' {
        seq!['\\', 'n']
    } else if c == '\r' {
        seq!['\\', 'r']
    } else if c == '\t' {
        seq!['\\', 't']
    } else if (c as nat) < 0x20 {
        seq!['\\', 'u', '0', '0', hex_digit_char((c as nat) / 16), hex_digit_char((c as nat) % 16)]
    } else {
        seq![c]
    }
}

/// A text with each character escaped (see `json_char`).
pub open spec fn json_escaped(s: Seq<char>) -> Seq<char>
    decreases s.len(),
{
    if s.len() == 0 {
        Seq::empty()
    } else {
        json_escaped(s.drop_last()) + json_char(s.last())
    }
}

/// A JSON string: the escaped text in double quotes.
pub open spec fn json_string(s: Seq<char>) -> Seq<char> {
    seq!['"'] + json_escaped(s) + seq!['"']
}

/// The JSON text that `serde_json::to_string` writes for a list of texts:
/// the JSON strings, separated by commas, in square brackets.
pub open spec fn string_list_json_text(items: Seq<Seq<char>>) -> Seq<char> {
    seq!['['] + join(items.map_values(|t: Seq<char>| json_string(t)), seq![',']) + seq![']']
}

/// The JSON object of the entries of `m` under `keys`, in that order: each
/// key and value as JSON strings joined by `:`, the entries separated by
/// commas, in braces.
pub open spec fn json_object(keys: Seq<Seq<char>>, m: Map<Seq<char>, Seq<char>>) -> Seq<char> {
    seq!['{'] + join(keys.map_values(|k: Seq<char>| json_string(k) + seq![':'] + json_string(m[k])), seq![','])
        + seq!['}']
}

/// The keys of `m`, each once, in ascending order.
pub open spec fn ascending_keys(keys: Seq<Seq<char>>, m: Map<Seq<char>, Seq<char>>) -> bool {
    &&& forall|i: int, j: int| 0 <= i < j < keys.len() ==> lex_lt(#[trigger] keys[i], #[trigger] keys[j])
    &&& forall|k: Seq<char>| #[trigger] m.contains_key(k) <==> keys.contains(k)
}

/// `text` is the JSON text that `serde_json::to_string` writes for the map
/// `m` held as a `BTreeMap`: the object of its entries in ascending key order.
pub open spec fn is_metadata_json(text: Seq<char>, m: Map<Seq<char>, Seq<char>>) -> bool {
    exists|keys: Seq<Seq<char>>| ascending_keys(keys, m) && text == #[trigger] json_object(keys, m)
}

/// `serde_json::to_string` on the metadata held as a `BTreeMap` from key to
/// value: the object of its entries in key order (a `BTreeMap` walks its
/// keys in ascending order; `&str` orders by UTF-8 bytes, which is the order
/// of code points), written by serde_json's compact formatter with its
/// string escapes (its `ESCAPE` table and `write_char_escape`).  serde_json documents
/// that serializing fails only where a `Serialize` impl fails or a map has
/// keys that are not text; neither can happen for a map from text to text,
/// so the contract states the text.
#[verifier::external_body]
fn metadata_json(m: &Metadata) -> (s: String)
    requires
        m.wf(),
    ensures
        is_metadata_json(s@, m@),
{
    let map: std::collections::BTreeMap<&str, &str> = m.entries().iter().map(|e| (e.0.as_str(), e.1.as_str())).collect();
    serde_json::to_string(&map).unwrap_or_default()
}

/// `serde_json::to_string` on a list of texts: the JSON strings in brackets,
/// separated by commas (the compact formatter); as for the metadata,
/// serializing text cannot fail.
#[verifier::external_body]
fn string_list_json(items: &Vec<String>) -> (s: String)
    ensures
        s@ == string_list_json_text(texts(items@)),
{
    serde_json::to_string(items).unwrap_or_default()
}

// ---------------------------------------------------------------------------
// All rows of a build
// ---------------------------------------------------------------------------
/// The number of why-linked records stored with a build.
pub open spec fn why_linked_limit() -> int {
    20
}

/// What is stored for a build: every row is exactly as the spec functions
/// above give it.
pub open spec fn rows_of(rows: HistoryRows, analysis: HistoryAnalysis, metadata: Map<Seq<char>, Seq<char>>) -> bool {
    &&& rows.metadata.wf()
    &&& rows.metadata@ == stored_metadata(metadata, analysis.debug_artifact)
    &&& is_metadata_json(rows.metadata_json@, rows.metadata@)
    &&& match analysis.git {
        Some(g) => rows.tag_names_json matches Some(t) && t@ == string_list_json_text(texts(g.tag_names@)),
        None => rows.tag_names_json is None,
    }
    &&& match analysis.rust_context {
        Some(r) => rows.rust_lists_json matches Some(l) && {
            &&& l.target_kind_json@ == string_list_json_text(texts(r.target_kind@))
            &&& l.crate_types_json@ == string_list_json_text(texts(r.crate_types@))
            &&& l.workspace_members_json@ == string_list_json_text(texts(r.workspace_members@))
        },
        None => rows.rust_lists_json is None,
    }
    &&& rows.warning_count == analysis.warnings@.len()
    &&& rows.error_count == error_count(analysis.warnings@)
    &&& is_object_totals(rows.objects@, analysis.image.object_contributions@)
    &&& function_rows_match(rows.functions@, analysis.function_attributions@)
    &&& why_views(rows.why_linked@) == why_linked_texts(analysis.image, top_ranked(rows.objects@, why_linked_limit()))
}

/// The rows stored for a build: its metadata with the debug artifact's facts
/// and as JSON, the git tags and the Rust context's lists as JSON, its warning and error counts, its
/// object totals, its functions and the why-linked records of its twenty
/// largest objects.
pub fn history_rows(analysis: &HistoryAnalysis, metadata: &Metadata) -> (rows: HistoryRows)
    requires
        metadata.wf(),
        contribution_sum(analysis.image.object_contributions@) <= u64::MAX,
    ensures
        rows_of(rows, *analysis, metadata@),
{
    let stored = store_metadata(metadata, &analysis.debug_artifact);
    let metadata_json = metadata_json(&stored);
    let tag_names_json = match &analysis.git {
        Some(g) => Some(string_list_json(&g.tag_names)),
        None => None,
    };
    let rust_lists_json = match &analysis.rust_context {
        Some(r) => Some(
            RustListsJson {
                target_kind_json: string_list_json(&r.target_kind),
                crate_types_json: string_list_json(&r.crate_types),
                workspace_members_json: string_list_json(&r.workspace_members),
            },
        ),
        None => None,
    };
    let objects = object_totals(&analysis.image.object_contributions);
    let why_linked = why_linked_records(&analysis.image, &objects, 20);
    HistoryRows {
        metadata: stored,
        metadata_json,
        tag_names_json,
        rust_lists_json,
        warning_count: analysis.warnings.len() as u64,
        error_count: count_errors(&analysis.warnings),
        objects,
        functions: function_rows(&analysis.function_attributions),
        why_linked,
    }
}

} // verus!
