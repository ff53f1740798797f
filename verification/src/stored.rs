//! Reading a recorded build back from the values of its stored rows.
//!
//! The history database keeps a build's metadata as a JSON object and its
//! git tags and Rust target lists as JSON arrays.  The caller reads the rows
//! and hands over their plain values; this module decodes the JSON texts and
//! decides what the stored values mean (a missing repository root means no
//! git metadata, a missing list means an empty one).
use vstd::prelude::*;

use crate::history::BuildRecord;
use crate::metadata::{distinct_keys, map_of, Metadata};
use crate::record::{
    error_count, is_metadata_json, rows_of, stored_metadata, string_list_json_text, HistoryAnalysis, HistoryRows,
};
use crate::model::{GitMetadata, RustContext};
use crate::text::{chars_of, copy_opt_string, copy_string, is_prefix, opt_text, string_from};
use crate::timeline::texts;

verus! {

// ---------------------------------------------------------------------------
// Decoding the stored JSON texts
// ---------------------------------------------------------------------------
/// The map that `serde_json::from_str` reads from a stored metadata text as a
/// `BTreeMap` from text to text, or the empty map where the text is not such
/// an object.
pub uninterp spec fn metadata_of_json(raw: Seq<char>) -> Map<Seq<char>, Seq<char>>;

/// The list that `serde_json::from_str` reads from a stored text as a list of
/// texts, `None` where the text is not such a list.
pub uninterp spec fn string_list_of_json(raw: Seq<char>) -> Option<Seq<Seq<char>>>;

/// `serde_json::from_str::<BTreeMap<String, String>>` on the stored text,
/// the empty map where that fails, its entries in the map's (ascending) key
/// order.  What is read is a function of the text alone.  On a text that
/// `serde_json::to_string` wrote for a map from text to text (see
/// `is_metadata_json`) it reads that map back: `from_str` undoes the escapes
/// that `to_string` writes.
#[verifier::external_body]
fn metadata_pairs_from_json(raw: &str) -> (pairs: Vec<(String, String)>)
    ensures
        distinct_keys(pairs@),
        map_of(pairs@) == metadata_of_json(raw@),
        forall|mm: Map<Seq<char>, Seq<char>>| #[trigger] is_metadata_json(raw@, mm) ==> map_of(pairs@) == mm,
{
    let map: std::collections::BTreeMap<String, String> = serde_json::from_str(raw).unwrap_or_default();
    map.into_iter().collect()
}

/// The metadata read from a stored metadata text: the map `metadata_of_json`
/// names, and on a text written for a map, that map.
pub fn metadata_from_json(raw: &str) -> (m: Metadata)
    ensures
        m.wf(),
        m@ == metadata_of_json(raw@),
        forall|mm: Map<Seq<char>, Seq<char>>| #[trigger] is_metadata_json(raw@, mm) ==> m@ == mm,
{
    Metadata::from_distinct(metadata_pairs_from_json(raw))
}

/// The texts of an optional list of strings.
pub open spec fn opt_texts(r: Option<Vec<String>>) -> Option<Seq<Seq<char>>> {
    match r {
        Some(v) => Some(texts(v@)),
        None => None,
    }
}

/// `serde_json::from_str::<Vec<String>>` on a stored text, `None` where that
/// fails.  What is read is a function of the text alone.  On a text that
/// `serde_json::to_string` wrote for a list of texts it reads that list back.
#[verifier::external_body]
fn string_list_from_json(raw: &str) -> (r: Option<Vec<String>>)
    ensures
        opt_texts(r) == string_list_of_json(raw@),
        forall|l: Seq<Seq<char>>| raw@ == #[trigger] string_list_json_text(l) ==> opt_texts(r) == Some(l),
{
    serde_json::from_str::<Vec<String>>(raw).ok()
}

/// A stored list: the decoded list where the column holds one, else empty.
pub open spec fn stored_list_texts(raw: Option<String>) -> Seq<Seq<char>> {
    match raw {
        Some(r) => match string_list_of_json(r@) {
            Some(l) => l,
            None => Seq::empty(),
        },
        None => Seq::empty(),
    }
}

/// A stored list column written for `l` reads back as `l`.
pub open spec fn list_reads_back(raw: Option<String>, got: Seq<Seq<char>>) -> bool {
    forall|l: Seq<Seq<char>>| raw matches Some(r) && r@ == #[trigger] string_list_json_text(l) ==> got == l
}

/// Decodes a stored list (see `stored_list_texts`); a column written for a
/// list reads back as that list.
pub fn stored_string_list(raw: &Option<String>) -> (v: Vec<String>)
    ensures
        texts(v@) == stored_list_texts(*raw),
        list_reads_back(*raw, texts(v@)),
{
    match raw {
        Some(r) => match string_list_from_json(r.as_str()) {
            Some(l) => l,
            None => {
                let v: Vec<String> = Vec::new();
                assert(texts(v@) =~= Seq::<Seq<char>>::empty());
                v
            },
        },
        None => {
            let v: Vec<String> = Vec::new();
            assert(texts(v@) =~= Seq::<Seq<char>>::empty());
            v
        },
    }
}

// ---------------------------------------------------------------------------
// Stored rows
// ---------------------------------------------------------------------------
/// The columns of a build's git row, each `None` where the build has none.
#[derive(Debug, Clone, PartialEq, Eq)]
pub struct StoredGitRow {
    pub repo_root: Option<String>,
    pub commit_hash: Option<String>,
    pub short_commit_hash: Option<String>,
    pub branch_name: Option<String>,
    pub detached_head: Option<i64>,
    pub tag_names_json: Option<String>,
    pub commit_subject: Option<String>,
    pub author_name: Option<String>,
    pub author_email: Option<String>,
    pub commit_timestamp: Option<String>,
    pub describe: Option<String>,
    pub is_dirty: Option<i64>,
}

/// The columns of a build's Rust row, each `None` where the build has none.
#[derive(Debug, Clone, PartialEq, Eq)]
pub struct StoredRustRow {
    pub workspace_root: Option<String>,
    pub manifest_path: Option<String>,
    pub package_name: Option<String>,
    pub package_id: Option<String>,
    pub target_name: Option<String>,
    pub target_kind_json: Option<String>,
    pub crate_types_json: Option<String>,
    pub edition: Option<String>,
    pub target_triple: Option<String>,
    pub profile: Option<String>,
    pub artifact_path: Option<String>,
    pub metadata_source: Option<String>,
    pub workspace_members_json: Option<String>,
}

/// The columns of a stored build.
#[derive(Debug, Clone, PartialEq, Eq)]
pub struct StoredBuildRow {
    pub id: i64,
    pub created_at: i64,
    pub elf_path: String,
    pub arch: String,
    pub linker_family: String,
    pub map_format: String,
    pub rom_bytes: i64,
    pub ram_bytes: i64,
    pub warning_count: i64,
    pub error_count: i64,
    pub metadata_json: String,
    pub git: StoredGitRow,
    pub rust: StoredRustRow,
}

/// The text of an optional column, empty where it is missing.
pub open spec fn text_or_empty(o: Option<String>) -> Seq<char> {
    match o {
        Some(s) => s@,
        None => Seq::empty(),
    }
}

/// A stored flag: set where the column holds a non-zero value.
pub open spec fn flag_of(o: Option<i64>) -> bool {
    match o {
        Some(v) => v != 0,
        None => false,
    }
}

fn string_or_empty(o: &Option<String>) -> (s: String)
    ensures
        s@ == text_or_empty(*o),
{
    match o {
        Some(v) => copy_string(v),
        None => {
            proof {
                reveal_strlit("");
            }
            string_from("")
        },
    }
}

fn flag(o: Option<i64>) -> (b: bool)
    ensures
        b == flag_of(o),
{
    match o {
        Some(v) => v != 0,
        None => false,
    }
}

/// `g` is what a stored git row says: nothing without a repository root,
/// else the row's values, missing hashes empty, missing flags unset and the
/// tags decoded.
pub open spec fn git_of_row(g: Option<GitMetadata>, row: StoredGitRow) -> bool {
    match row.repo_root {
        None => g is None,
        Some(root) => g matches Some(x) && {
            &&& x.repo_root == root
            &&& x.commit_hash@ == text_or_empty(row.commit_hash)
            &&& x.short_commit_hash@ == text_or_empty(row.short_commit_hash)
            &&& x.branch_name == row.branch_name
            &&& x.detached_head == flag_of(row.detached_head)
            &&& texts(x.tag_names@) == stored_list_texts(row.tag_names_json)
            &&& list_reads_back(row.tag_names_json, texts(x.tag_names@))
            &&& x.commit_subject == row.commit_subject
            &&& x.author_name == row.author_name
            &&& x.author_email == row.author_email
            &&& x.commit_timestamp == row.commit_timestamp
            &&& x.describe == row.describe
            &&& x.is_dirty == flag_of(row.is_dirty)
        },
    }
}

/// The git metadata of a stored row (see `git_of_row`).
pub fn git_metadata_of_row(row: &StoredGitRow) -> (g: Option<GitMetadata>)
    ensures
        git_of_row(g, *row),
{
    match &row.repo_root {
        None => None,
        Some(root) => Some(
            GitMetadata {
                repo_root: copy_string(root),
                commit_hash: string_or_empty(&row.commit_hash),
                short_commit_hash: string_or_empty(&row.short_commit_hash),
                branch_name: copy_opt_string(&row.branch_name),
                detached_head: flag(row.detached_head),
                tag_names: stored_string_list(&row.tag_names_json),
                commit_subject: copy_opt_string(&row.commit_subject),
                author_name: copy_opt_string(&row.author_name),
                author_email: copy_opt_string(&row.author_email),
                commit_timestamp: copy_opt_string(&row.commit_timestamp),
                describe: copy_opt_string(&row.describe),
                is_dirty: flag(row.is_dirty),
            },
        ),
    }
}

/// A stored Rust row holds no Rust context: no workspace root, manifest,
/// package name or id, target name, and an empty metadata source.
pub open spec fn rust_row_is_empty(row: StoredRustRow) -> bool {
    &&& row.workspace_root is None
    &&& row.manifest_path is None
    &&& row.package_name is None
    &&& row.package_id is None
    &&& row.target_name is None
    &&& text_or_empty(row.metadata_source).len() == 0
}

/// `r` is what a stored Rust row says: nothing where the row is empty, else
/// the row's values with the lists decoded and a missing source empty.
pub open spec fn rust_of_row(r: Option<RustContext>, row: StoredRustRow) -> bool {
    if rust_row_is_empty(row) {
        r is None
    } else {
        r matches Some(x) && {
            &&& x.workspace_root == row.workspace_root
            &&& x.manifest_path == row.manifest_path
            &&& x.package_name == row.package_name
            &&& x.package_id == row.package_id
            &&& x.target_name == row.target_name
            &&& texts(x.target_kind@) == stored_list_texts(row.target_kind_json)
            &&& list_reads_back(row.target_kind_json, texts(x.target_kind@))
            &&& texts(x.crate_types@) == stored_list_texts(row.crate_types_json)
            &&& list_reads_back(row.crate_types_json, texts(x.crate_types@))
            &&& x.edition == row.edition
            &&& x.target_triple == row.target_triple
            &&& x.profile == row.profile
            &&& x.artifact_path == row.artifact_path
            &&& x.metadata_source@ == text_or_empty(row.metadata_source)
            &&& texts(x.workspace_members@) == stored_list_texts(row.workspace_members_json)
            &&& list_reads_back(row.workspace_members_json, texts(x.workspace_members@))
        }
    }
}

/// The Rust context of a stored row (see `rust_of_row`).
pub fn rust_context_of_row(row: &StoredRustRow) -> (r: Option<RustContext>)
    ensures
        rust_of_row(r, *row),
{
    let source = string_or_empty(&row.metadata_source);
    if row.workspace_root.is_none() && row.manifest_path.is_none() && row.package_name.is_none()
        && row.package_id.is_none() && row.target_name.is_none() && chars_of(source.as_str()).len() == 0 {
        return None;
    }
    Some(
        RustContext {
            workspace_root: copy_opt_string(&row.workspace_root),
            manifest_path: copy_opt_string(&row.manifest_path),
            package_name: copy_opt_string(&row.package_name),
            package_id: copy_opt_string(&row.package_id),
            target_name: copy_opt_string(&row.target_name),
            target_kind: stored_string_list(&row.target_kind_json),
            crate_types: stored_string_list(&row.crate_types_json),
            edition: copy_opt_string(&row.edition),
            target_triple: copy_opt_string(&row.target_triple),
            profile: copy_opt_string(&row.profile),
            artifact_path: copy_opt_string(&row.artifact_path),
            metadata_source: source,
            workspace_members: stored_string_list(&row.workspace_members_json),
        },
    )
}

/// `b` is the recorded build a stored row says: its values, the sizes and
/// counts read back from the signed columns they are stored in, its metadata
/// decoded from the stored JSON (a text written for a map reads back as that
/// map), and its git and Rust rows.
pub open spec fn record_of_row(b: BuildRecord, row: StoredBuildRow) -> bool {
    &&& b.id == row.id
    &&& b.created_at == row.created_at
    &&& b.elf_path == row.elf_path
    &&& b.arch == row.arch
    &&& b.linker_family == row.linker_family
    &&& b.map_format == row.map_format
    &&& b.rom_bytes == row.rom_bytes as u64
    &&& b.ram_bytes == row.ram_bytes as u64
    &&& b.warning_count == row.warning_count as u64
    &&& b.error_count == row.error_count as u64
    &&& b.metadata.wf()
    &&& b.metadata@ == metadata_of_json(row.metadata_json@)
    &&& forall|mm: Map<Seq<char>, Seq<char>>| #[trigger] is_metadata_json(row.metadata_json@, mm) ==> b.metadata@ == mm
    &&& git_of_row(b.git, row.git)
    &&& rust_of_row(b.rust_context, row.rust)
}

/// A recorded build as its stored row says (see `record_of_row`).
pub fn build_record_of_row(row: &StoredBuildRow) -> (b: BuildRecord)
    ensures
        record_of_row(b, *row),
{
    BuildRecord {
        id: row.id,
        created_at: row.created_at,
        elf_path: copy_string(&row.elf_path),
        arch: copy_string(&row.arch),
        linker_family: copy_string(&row.linker_family),
        map_format: copy_string(&row.map_format),
        rom_bytes: row.rom_bytes as u64,
        ram_bytes: row.ram_bytes as u64,
        warning_count: row.warning_count as u64,
        error_count: row.error_count as u64,
        metadata: metadata_from_json(row.metadata_json.as_str()),
        git: git_metadata_of_row(&row.git),
        rust_context: rust_context_of_row(&row.rust),
    }
}


// ---------------------------------------------------------------------------
// What is read back is what was recorded
// ---------------------------------------------------------------------------
/// A stored row holds what `history_rows` wrote for a build: the same
/// metadata text, tag list text and Rust list texts, and the warning and
/// error counts (stored in signed columns).
pub open spec fn row_holds(row: StoredBuildRow, rows: HistoryRows) -> bool {
    &&& row.metadata_json@ == rows.metadata_json@
    &&& opt_text(row.git.tag_names_json) == opt_text(rows.tag_names_json)
    &&& match rows.rust_lists_json {
        Some(l) => {
            &&& opt_text(row.rust.target_kind_json) == Some(l.target_kind_json@)
            &&& opt_text(row.rust.crate_types_json) == Some(l.crate_types_json@)
            &&& opt_text(row.rust.workspace_members_json) == Some(l.workspace_members_json@)
        },
        None => true,
    }
    &&& row.warning_count == rows.warning_count
    &&& row.error_count == rows.error_count
}

proof fn lemma_debug_keys_prefixed()
    ensures
        is_prefix("debug_artifact."@, "debug_artifact.kind"@),
        is_prefix("debug_artifact."@, "debug_artifact.source"@),
        is_prefix("debug_artifact."@, "debug_artifact.path"@),
        is_prefix("debug_artifact."@, "debug_artifact.build_id"@),
{
    reveal_strlit("debug_artifact.");
    reveal_strlit("debug_artifact.kind");
    reveal_strlit("debug_artifact.source");
    reveal_strlit("debug_artifact.path");
    reveal_strlit("debug_artifact.build_id");
    assert("debug_artifact.kind"@.take(15) =~= "debug_artifact."@);
    assert("debug_artifact.source"@.take(15) =~= "debug_artifact."@);
    assert("debug_artifact.path"@.take(15) =~= "debug_artifact."@);
    assert("debug_artifact.build_id"@.take(15) =~= "debug_artifact."@);
}

/// A build read back from the row that holds what was recorded for it gives
/// back what it was recorded with: the stored metadata (the given metadata
/// and the debug artifact's facts), so every key outside `debug_artifact.`
/// with the given metadata's value; the git tags and the Rust context's lists
/// where the row has git and Rust data; and the warning and error counts.
pub proof fn law_recorded_build_reads_back(
    analysis: HistoryAnalysis,
    metadata: Map<Seq<char>, Seq<char>>,
    rows: HistoryRows,
    row: StoredBuildRow,
    b: BuildRecord,
)
    requires
        rows_of(rows, analysis, metadata),
        row_holds(row, rows),
        rows.warning_count <= i64::MAX,
        rows.error_count <= i64::MAX,
        record_of_row(b, row),
    ensures
        b.metadata@ == stored_metadata(metadata, analysis.debug_artifact),
        forall|k: Seq<char>|
            !is_prefix("debug_artifact."@, k) ==> (#[trigger] b.metadata@.contains_key(k) == metadata.contains_key(k)
                && (metadata.contains_key(k) ==> b.metadata@[k] == metadata[k])),
        analysis.git matches Some(g) ==> b.git matches Some(x) ==> texts(x.tag_names@) == texts(g.tag_names@),
        analysis.rust_context matches Some(r) ==> b.rust_context matches Some(x) ==> {
            &&& texts(x.target_kind@) == texts(r.target_kind@)
            &&& texts(x.crate_types@) == texts(r.crate_types@)
            &&& texts(x.workspace_members@) == texts(r.workspace_members@)
        },
        b.warning_count == analysis.warnings@.len(),
        b.error_count == error_count(analysis.warnings@),
{
    assert(is_metadata_json(row.metadata_json@, rows.metadata@));
    lemma_debug_keys_prefixed();
    if let Some(g) = analysis.git {
        let l = texts(g.tag_names@);
        assert(string_list_json_text(l) == string_list_json_text(l));
    }
    if let Some(r) = analysis.rust_context {
        assert(string_list_json_text(texts(r.target_kind@)) == string_list_json_text(texts(r.target_kind@)));
        assert(string_list_json_text(texts(r.crate_types@)) == string_list_json_text(texts(r.crate_types@)));
        assert(string_list_json_text(texts(r.workspace_members@)) == string_list_json_text(
            texts(r.workspace_members@),
        ));
    }
}

} // verus!
