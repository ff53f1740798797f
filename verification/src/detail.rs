//! The text shown for one recorded build.
//!
//! A build's detail is shown as lines: the build and its binary, its git
//! commit and Rust package where known, its debug information, then one
//! titled section per list that is not empty (metadata in key order, top
//! sections, regions, source files, functions, the Rust aggregates when the
//! Rust view is asked for, why-linked records and warnings).
use vstd::prelude::*;

use crate::history::{BuildRecord, WhyLinkedRecord};
use crate::metadata::Metadata;
use crate::model::{GitMetadata, RustContext};
use crate::sorting::{sort_by_key, sorted_by_key, SortKey};
use crate::text::{
    chars_of, copy_string, dec, dec_int, join, join_chars, lemma_lex_le_total, lemma_lex_le_transitive, lex_le,
    push_all, push_dec, push_dec_int, push_str_chars, str_le, string_of, views,
};
use crate::timeline::texts;

verus! {

/// What the detail shows of a build's debug information.  The share of bytes
/// without a known source comes as the percentage text to show (one decimal).
#[derive(Debug, Clone, PartialEq, Eq)]
pub struct BuildDebugInfo {
    pub dwarf_used: bool,
    pub unknown_ratio_percent: String,
    pub compilation_units: usize,
    pub source_file_count: usize,
    pub function_count: usize,
}

/// A recorded build with the lists shown with it.  Each region carries its
/// name, used and free bytes, and its usage as the percentage text to show.
#[derive(Debug, Clone, PartialEq)]
pub struct BuildDetail {
    pub build: BuildRecord,
    pub debug_info: BuildDebugInfo,
    pub top_sections: Vec<(String, u64)>,
    pub regions: Vec<(String, u64, u64, String)>,
    pub top_source_files: Vec<(String, u64, usize, usize)>,
    pub top_functions: Vec<(String, String, u64)>,
    pub rust_packages: Vec<(String, u64, usize)>,
    pub rust_targets: Vec<(String, u64, usize)>,
    pub rust_crates: Vec<(String, u64, usize)>,
    pub rust_dependencies: Vec<(String, u64, usize)>,
    pub rust_source_files: Vec<(String, u64, usize)>,
    pub rust_families: Vec<(String, u64, usize)>,
    pub why_linked: Vec<WhyLinkedRecord>,
    pub warnings: Vec<(String, String, Option<String>)>,
}

/// A line: the text and a line break.
pub open spec fn nl(s: Seq<char>) -> Seq<char> {
    s + seq!['\n']
}

/// Appends `line` and a line break.
fn push_line(out: &mut Vec<char>, line: &Vec<char>)
    ensures
        final(out)@ == old(out)@ + nl(line@),
{
    push_all(out, line);
    out.push('\n');
    assert(out@ =~= old(out)@ + nl(line@));
}

// ---------------------------------------------------------------------------
// Rows of the listed sections
// ---------------------------------------------------------------------------
/// A row of a listed section, shown as one indented line.
pub trait DetailRow: Sized {
    /// The row's line, with its line break.
    spec fn row_text(&self) -> Seq<char>;

    /// Appends the row's line.
    fn push_row(&self, out: &mut Vec<char>)
        ensures
            final(out)@ == old(out)@ + self.row_text(),
    ;
}

/// The lines of the rows, in order.
pub open spec fn rows_text<T: DetailRow>(rows: Seq<T>) -> Seq<char>
    decreases rows.len(),
{
    if rows.len() == 0 {
        Seq::empty()
    } else {
        rows_text(rows.drop_last()) + rows.last().row_text()
    }
}

/// A titled section: nothing when it is not shown or has no rows, else the
/// title line and the rows' lines.
pub open spec fn section_text<T: DetailRow>(show: bool, title: Seq<char>, rows: Seq<T>) -> Seq<char> {
    if show && rows.len() > 0 {
        nl(title) + rows_text(rows)
    } else {
        Seq::empty()
    }
}

/// Appends a titled section (see `section_text`).
fn push_section<T: DetailRow>(out: &mut Vec<char>, show: bool, title: &str, rows: &Vec<T>)
    ensures
        final(out)@ == old(out)@ + section_text(show, title@, rows@),
{
    if !show || rows.len() == 0 {
        assert(out@ =~= old(out)@ + section_text(show, title@, rows@));
        return;
    }
    let t = chars_of(title);
    push_line(out, &t);
    let ghost start = out@;
    let mut i: usize = 0;
    while i < rows.len()
        invariant
            i <= rows.len(),
            out@ == start + rows_text(rows@.take(i as int)),
        decreases rows.len() - i,
    {
        assert(rows@.take(i + 1).drop_last() =~= rows@.take(i as int));
        assert(rows@.take(i + 1).last() == rows@[i as int]);
        rows[i].push_row(out);
        assert(out@ =~= start + rows_text(rows@.take(i + 1)));
        i += 1;
    }
    assert(rows@.take(rows.len() as int) =~= rows@);
    assert(out@ =~= old(out)@ + section_text(show, title@, rows@));
}

/// A metadata entry: `key=value`.
#[derive(Debug, Clone, PartialEq, Eq)]
pub struct MetadataLine {
    pub key: String,
    pub value: String,
}

/// Metadata lines order by key.
impl SortKey for MetadataLine {
    open spec fn key_le(self, other: Self) -> bool {
        lex_le(self.key@, other.key@)
    }

    proof fn lemma_key_total(a: Self, b: Self) {
        lemma_lex_le_total(a.key@, b.key@);
    }

    proof fn lemma_key_transitive(a: Self, b: Self, c: Self) {
        lemma_lex_le_transitive(a.key@, b.key@, c.key@);
    }

    fn exec_key_le(&self, other: &Self) -> (r: bool) {
        str_le(&self.key, &other.key)
    }
}

impl DetailRow for MetadataLine {
    open spec fn row_text(&self) -> Seq<char> {
        nl("  "@ + self.key@ + "="@ + self.value@)
    }

    fn push_row(&self, out: &mut Vec<char>) {
        let mut l = chars_of("  ");
        push_str_chars(&mut l, self.key.as_str());
        push_str_chars(&mut l, "=");
        push_str_chars(&mut l, self.value.as_str());
        push_line(out, &l);
    }
}

/// A named size: `name size`.
impl DetailRow for (String, u64) {
    open spec fn row_text(&self) -> Seq<char> {
        nl("  "@ + self.0@ + " "@ + dec(self.1 as nat))
    }

    fn push_row(&self, out: &mut Vec<char>) {
        let mut l = chars_of("  ");
        push_str_chars(&mut l, self.0.as_str());
        push_str_chars(&mut l, " ");
        push_dec(&mut l, self.1);
        push_line(out, &l);
    }
}

/// A region: `name used=U free=F usage=P%`.
impl DetailRow for (String, u64, u64, String) {
    open spec fn row_text(&self) -> Seq<char> {
        nl(
            "  "@ + self.0@ + " used="@ + dec(self.1 as nat) + " free="@ + dec(self.2 as nat) + " usage="@
                + self.3@ + "%"@,
        )
    }

    fn push_row(&self, out: &mut Vec<char>) {
        let mut l = chars_of("  ");
        push_str_chars(&mut l, self.0.as_str());
        push_str_chars(&mut l, " used=");
        push_dec(&mut l, self.1);
        push_str_chars(&mut l, " free=");
        push_dec(&mut l, self.2);
        push_str_chars(&mut l, " usage=");
        push_str_chars(&mut l, self.3.as_str());
        push_str_chars(&mut l, "%");
        push_line(out, &l);
    }
}

/// A source file: `path size functions=F line_ranges=R`.
impl DetailRow for (String, u64, usize, usize) {
    open spec fn row_text(&self) -> Seq<char> {
        nl(
            "  "@ + self.0@ + " "@ + dec(self.1 as nat) + " functions="@ + dec(self.2 as nat) + " line_ranges="@
                + dec(self.3 as nat),
        )
    }

    fn push_row(&self, out: &mut Vec<char>) {
        let mut l = chars_of("  ");
        push_str_chars(&mut l, self.0.as_str());
        push_str_chars(&mut l, " ");
        push_dec(&mut l, self.1);
        push_str_chars(&mut l, " functions=");
        push_dec(&mut l, self.2 as u64);
        push_str_chars(&mut l, " line_ranges=");
        push_dec(&mut l, self.3 as u64);
        push_line(out, &l);
    }
}

/// A function: `name path size`.
impl DetailRow for (String, String, u64) {
    open spec fn row_text(&self) -> Seq<char> {
        nl("  "@ + self.0@ + " "@ + self.1@ + " "@ + dec(self.2 as nat))
    }

    fn push_row(&self, out: &mut Vec<char>) {
        let mut l = chars_of("  ");
        push_str_chars(&mut l, self.0.as_str());
        push_str_chars(&mut l, " ");
        push_str_chars(&mut l, self.1.as_str());
        push_str_chars(&mut l, " ");
        push_dec(&mut l, self.2);
        push_line(out, &l);
    }
}

/// A Rust aggregate: `name size symbols=N`.
impl DetailRow for (String, u64, usize) {
    open spec fn row_text(&self) -> Seq<char> {
        nl("  "@ + self.0@ + " "@ + dec(self.1 as nat) + " symbols="@ + dec(self.2 as nat))
    }

    fn push_row(&self, out: &mut Vec<char>) {
        let mut l = chars_of("  ");
        push_str_chars(&mut l, self.0.as_str());
        push_str_chars(&mut l, " ");
        push_dec(&mut l, self.1);
        push_str_chars(&mut l, " symbols=");
        push_dec(&mut l, self.2 as u64);
        push_line(out, &l);
    }
}

/// A why-linked record: `target [kind confidence] summary (size)`.
impl DetailRow for WhyLinkedRecord {
    open spec fn row_text(&self) -> Seq<char> {
        nl(
            "  "@ + self.target@ + " ["@ + self.kind@ + " "@ + self.confidence@ + "] "@ + self.summary@ + " ("@
                + dec(self.current_size as nat) + ")"@,
        )
    }

    fn push_row(&self, out: &mut Vec<char>) {
        let mut l = chars_of("  ");
        push_str_chars(&mut l, self.target.as_str());
        push_str_chars(&mut l, " [");
        push_str_chars(&mut l, self.kind.as_str());
        push_str_chars(&mut l, " ");
        push_str_chars(&mut l, self.confidence.as_str());
        push_str_chars(&mut l, "] ");
        push_str_chars(&mut l, self.summary.as_str());
        push_str_chars(&mut l, " (");
        push_dec(&mut l, self.current_size);
        push_str_chars(&mut l, ")");
        push_line(out, &l);
    }
}

/// A warning: `code [level] related`, with `-` where nothing is related.
impl DetailRow for (String, String, Option<String>) {
    open spec fn row_text(&self) -> Seq<char> {
        nl(
            "  "@ + self.0@ + " ["@ + self.1@ + "] "@ + match self.2 {
                Some(r) => r@,
                None => "-"@,
            },
        )
    }

    fn push_row(&self, out: &mut Vec<char>) {
        let mut l = chars_of("  ");
        push_str_chars(&mut l, self.0.as_str());
        push_str_chars(&mut l, " [");
        push_str_chars(&mut l, self.1.as_str());
        push_str_chars(&mut l, "] ");
        match &self.2 {
            Some(r) => push_str_chars(&mut l, r.as_str()),
            None => push_str_chars(&mut l, "-"),
        }
        push_line(out, &l);
    }
}

// ---------------------------------------------------------------------------
// The build, its commit, its package and its debug information
// ---------------------------------------------------------------------------
/// `label` and the value where there is one, else nothing.
pub open spec fn opt_field(label: Seq<char>, o: Option<String>) -> Seq<char> {
    match o {
        Some(v) => label + v@,
        None => Seq::empty(),
    }
}

/// Appends `label` and the value where there is one.
fn push_opt_field(out: &mut Vec<char>, label: &str, o: &Option<String>)
    ensures
        final(out)@ == old(out)@ + opt_field(label@, *o),
{
    match o {
        Some(v) => {
            push_str_chars(out, label);
            push_str_chars(out, v.as_str());
            assert(out@ =~= old(out)@ + opt_field(label@, *o));
        },
        None => {
            assert(out@ =~= old(out)@ + opt_field(label@, *o));
        },
    }
}

/// The build's two lines: its id and time, then its binary and counts.
pub open spec fn header_text(b: BuildRecord) -> Seq<char> {
    nl("Build #"@ + dec_int(b.id as int) + " at "@ + dec_int(b.created_at as int)) + nl(
        "ELF: "@ + b.elf_path@ + " | Arch: "@ + b.arch@ + " | Linker: "@ + b.linker_family@ + " | Map: "@
            + b.map_format@ + " | ROM: "@ + dec(b.rom_bytes as nat) + " | RAM: "@ + dec(b.ram_bytes as nat)
            + " | Warnings: "@ + dec(b.warning_count as nat) + " | Errors: "@ + dec(b.error_count as nat),
    )
}

fn push_header(out: &mut Vec<char>, b: &BuildRecord)
    ensures
        final(out)@ == old(out)@ + header_text(*b),
{
    let mut l = chars_of("Build #");
    push_dec_int(&mut l, b.id);
    push_str_chars(&mut l, " at ");
    push_dec_int(&mut l, b.created_at);
    push_line(out, &l);
    let ghost mid = out@;
    let mut e = chars_of("ELF: ");
    push_str_chars(&mut e, b.elf_path.as_str());
    push_str_chars(&mut e, " | Arch: ");
    push_str_chars(&mut e, b.arch.as_str());
    push_str_chars(&mut e, " | Linker: ");
    push_str_chars(&mut e, b.linker_family.as_str());
    push_str_chars(&mut e, " | Map: ");
    push_str_chars(&mut e, b.map_format.as_str());
    push_str_chars(&mut e, " | ROM: ");
    push_dec(&mut e, b.rom_bytes);
    push_str_chars(&mut e, " | RAM: ");
    push_dec(&mut e, b.ram_bytes);
    push_str_chars(&mut e, " | Warnings: ");
    push_dec(&mut e, b.warning_count);
    push_str_chars(&mut e, " | Errors: ");
    push_dec(&mut e, b.error_count);
    push_line(out, &e);
    assert(out@ =~= old(out)@ + header_text(*b));
}

/// The commit line (short hash, branch or detached, describe, dirty) and
/// the subject line, when the build has git metadata.
pub open spec fn git_text(g: Option<GitMetadata>) -> Seq<char> {
    match g {
        None => Seq::empty(),
        Some(g) => nl(
            "Git: "@ + g.short_commit_hash@ + match g.branch_name {
                Some(b) => " | branch="@ + b@,
                None => " | detached"@,
            } + opt_field(" | describe="@, g.describe) + if g.is_dirty {
                " | dirty"@
            } else {
                Seq::empty()
            },
        ) + match g.commit_subject {
            Some(s) => nl("Git subject: "@ + s@),
            None => Seq::empty(),
        },
    }
}

fn push_git(out: &mut Vec<char>, git: &Option<GitMetadata>)
    ensures
        final(out)@ == old(out)@ + git_text(*git),
{
    match git {
        None => {
            assert(out@ =~= old(out)@ + git_text(*git));
        },
        Some(g) => {
            let mut l = chars_of("Git: ");
            push_str_chars(&mut l, g.short_commit_hash.as_str());
            let ghost base = l@;
            match &g.branch_name {
                Some(b) => {
                    push_str_chars(&mut l, " | branch=");
                    push_str_chars(&mut l, b.as_str());
                },
                None => push_str_chars(&mut l, " | detached"),
            }
            assert(l@ =~= base + match g.branch_name {
                Some(b) => " | branch="@ + b@,
                None => " | detached"@,
            });
            push_opt_field(&mut l, " | describe=", &g.describe);
            let ghost before_dirty = l@;
            if g.is_dirty {
                push_str_chars(&mut l, " | dirty");
            }
            assert(l@ =~= before_dirty + if g.is_dirty {
                " | dirty"@
            } else {
                Seq::<char>::empty()
            });
            push_line(out, &l);
            let ghost mid = out@;
            match &g.commit_subject {
                Some(s) => {
                    let mut t = chars_of("Git subject: ");
                    push_str_chars(&mut t, s.as_str());
                    push_line(out, &t);
                },
                None => {},
            }
            assert(out@ =~= old(out)@ + git_text(*git));
        },
    }
}

/// The package line, when the build has Rust metadata: package, target,
/// target kinds, profile and triple.
pub open spec fn rust_text(r: Option<RustContext>) -> Seq<char> {
    match r {
        None => Seq::empty(),
        Some(r) => nl(
            "Rust: "@ + match r.package_name {
                Some(p) => p@,
                None => "-"@,
            } + opt_field(" | target="@, r.target_name) + if r.target_kind.len() == 0 {
                Seq::empty()
            } else {
                " | kind="@ + join(texts(r.target_kind@), ","@)
            } + opt_field(" | profile="@, r.profile) + opt_field(" | triple="@, r.target_triple),
        ),
    }
}

fn push_rust(out: &mut Vec<char>, rust: &Option<RustContext>)
    ensures
        final(out)@ == old(out)@ + rust_text(*rust),
{
    match rust {
        None => {
            assert(out@ =~= old(out)@ + rust_text(*rust));
        },
        Some(r) => {
            let mut l = chars_of("Rust: ");
            match &r.package_name {
                Some(p) => push_str_chars(&mut l, p.as_str()),
                None => push_str_chars(&mut l, "-"),
            }
            push_opt_field(&mut l, " | target=", &r.target_name);
            let ghost before_kind = l@;
            if r.target_kind.len() > 0 {
                let mut parts: Vec<Vec<char>> = Vec::new();
                let mut i: usize = 0;
                while i < r.target_kind.len()
                    invariant
                        i <= r.target_kind.len(),
                        parts@.len() == i,
                        forall|k: int| 0 <= k < i ==> (#[trigger] parts@[k])@ == r.target_kind@[k]@,
                    decreases r.target_kind.len() - i,
                {
                    parts.push(chars_of(r.target_kind[i].as_str()));
                    i += 1;
                }
                assert(views(parts@) =~= texts(r.target_kind@));
                let sep = chars_of(",");
                let joined = join_chars(&parts, &sep);
                push_str_chars(&mut l, " | kind=");
                push_all(&mut l, &joined);
            }
            assert(l@ =~= before_kind + if r.target_kind.len() == 0 {
                Seq::<char>::empty()
            } else {
                " | kind="@ + join(texts(r.target_kind@), ","@)
            });
            push_opt_field(&mut l, " | profile=", &r.profile);
            push_opt_field(&mut l, " | triple=", &r.target_triple);
            push_line(out, &l);
            assert(out@ =~= old(out)@ + rust_text(*rust));
        },
    }
}

/// The debug-information line.
pub open spec fn dwarf_text(d: BuildDebugInfo) -> Seq<char> {
    nl(
        "DWARF: "@ + if d.dwarf_used {
            "used"@
        } else {
            "not used"@
        } + " | Unknown ratio: "@ + d.unknown_ratio_percent@ + "% | CUs: "@ + dec(d.compilation_units as nat)
            + " | Source files: "@ + dec(d.source_file_count as nat) + " | Functions: "@ + dec(
            d.function_count as nat,
        ),
    )
}

fn push_dwarf(out: &mut Vec<char>, d: &BuildDebugInfo)
    ensures
        final(out)@ == old(out)@ + dwarf_text(*d),
{
    let mut l = chars_of("DWARF: ");
    let ghost base = l@;
    if d.dwarf_used {
        push_str_chars(&mut l, "used");
    } else {
        push_str_chars(&mut l, "not used");
    }
    assert(l@ =~= base + if d.dwarf_used {
        "used"@
    } else {
        "not used"@
    });
    push_str_chars(&mut l, " | Unknown ratio: ");
    push_str_chars(&mut l, d.unknown_ratio_percent.as_str());
    push_str_chars(&mut l, "% | CUs: ");
    push_dec(&mut l, d.compilation_units as u64);
    push_str_chars(&mut l, " | Source files: ");
    push_dec(&mut l, d.source_file_count as u64);
    push_str_chars(&mut l, " | Functions: ");
    push_dec(&mut l, d.function_count as u64);
    push_line(out, &l);
}

// ---------------------------------------------------------------------------
// The whole detail
// ---------------------------------------------------------------------------
/// The metadata entries as lines, in ascending key order.
pub open spec fn metadata_rows(m: Metadata) -> Seq<MetadataLine> {
    sorted_by_key(m.entry_seq().map_values(|e: (String, String)| MetadataLine { key: e.0, value: e.1 }))
}

fn metadata_lines(m: &Metadata) -> (out: Vec<MetadataLine>)
    ensures
        out@ == metadata_rows(*m),
{
    let entries = m.entries();
    let ghost lines = entries@.map_values(|e: (String, String)| MetadataLine { key: e.0, value: e.1 });
    let mut v: Vec<MetadataLine> = Vec::new();
    let mut i: usize = 0;
    while i < entries.len()
        invariant
            i <= entries.len(),
            entries@ == m.entry_seq(),
            lines == entries@.map_values(|e: (String, String)| MetadataLine { key: e.0, value: e.1 }),
            v@ == lines.take(i as int),
        decreases entries.len() - i,
    {
        v.push(MetadataLine { key: copy_string(&entries[i].0), value: copy_string(&entries[i].1) });
        assert(v@ =~= lines.take(i + 1));
        i += 1;
    }
    assert(lines.take(entries.len() as int) =~= lines);
    sort_by_key(v)
}

/// The text shown for a build: its header, commit, package and debug lines,
/// then the sections in order; the Rust aggregates only in the Rust view.
pub open spec fn build_detail_spec(d: BuildDetail, rust_view: bool) -> Seq<char> {
    header_text(d.build) + git_text(d.build.git) + rust_text(d.build.rust_context) + dwarf_text(d.debug_info)
        + section_text(true, "Metadata:"@, metadata_rows(d.build.metadata)) + section_text(
        true,
        "Top sections:"@,
        d.top_sections@,
    ) + section_text(true, "Regions:"@, d.regions@) + section_text(
        true,
        "Top source files:"@,
        d.top_source_files@,
    ) + section_text(true, "Top functions:"@, d.top_functions@) + section_text(
        rust_view,
        "Rust packages:"@,
        d.rust_packages@,
    ) + section_text(rust_view, "Rust targets:"@, d.rust_targets@) + section_text(
        rust_view,
        "Rust crates:"@,
        d.rust_crates@,
    ) + section_text(rust_view, "Rust dependency crates:"@, d.rust_dependencies@) + section_text(
        rust_view,
        "Rust source files:"@,
        d.rust_source_files@,
    ) + section_text(rust_view, "Rust families:"@, d.rust_families@) + section_text(
        true,
        "Why linked:"@,
        d.why_linked@,
    ) + section_text(true, "Warnings:"@, d.warnings@)
}

/// The text shown for a recorded build (see `build_detail_spec`).
pub fn build_detail_text(detail: &BuildDetail, rust_view: bool) -> (r: String)
    ensures
        r@ == build_detail_spec(*detail, rust_view),
{
    let mut out: Vec<char> = Vec::new();
    push_header(&mut out, &detail.build);
    assert(out@ =~= header_text(detail.build));
    push_git(&mut out, &detail.build.git);
    push_rust(&mut out, &detail.build.rust_context);
    push_dwarf(&mut out, &detail.debug_info);
    let meta = metadata_lines(&detail.build.metadata);
    push_section(&mut out, true, "Metadata:", &meta);
    push_section(&mut out, true, "Top sections:", &detail.top_sections);
    push_section(&mut out, true, "Regions:", &detail.regions);
    push_section(&mut out, true, "Top source files:", &detail.top_source_files);
    push_section(&mut out, true, "Top functions:", &detail.top_functions);
    push_section(&mut out, rust_view, "Rust packages:", &detail.rust_packages);
    push_section(&mut out, rust_view, "Rust targets:", &detail.rust_targets);
    push_section(&mut out, rust_view, "Rust crates:", &detail.rust_crates);
    push_section(&mut out, rust_view, "Rust dependency crates:", &detail.rust_dependencies);
    push_section(&mut out, rust_view, "Rust source files:", &detail.rust_source_files);
    push_section(&mut out, rust_view, "Rust families:", &detail.rust_families);
    push_section(&mut out, true, "Why linked:", &detail.why_linked);
    push_section(&mut out, true, "Warnings:", &detail.warnings);
    string_of(&out)
}

} // verus!
