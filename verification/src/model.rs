//! The data model of an analysed firmware image.
//!
//! Sizes are byte counts, addresses are plain integers and every ratio is
//! kept as the two integers it is made of, so that all of it can be reasoned
//! about exactly.
use vstd::prelude::*;

use crate::text::string_from;

verus! {

/// Identity of the analysed binary.
#[derive(Debug, Clone, PartialEq, Eq)]
pub struct BinaryInfo {
    pub path: String,
    pub arch: String,
    pub elf_class: String,
    pub endian: String,
}

/// Where a section's bytes end up.
#[derive(Debug, Clone, Copy, PartialEq, Eq, Structural)]
pub enum SectionCategory {
    Rom,
    Ram,
    Other,
}

/// One ELF section.
#[derive(Debug, Clone, PartialEq, Eq)]
pub struct SectionInfo {
    pub name: String,
    pub addr: u64,
    pub size: u64,
    pub flags: Vec<String>,
    pub category: SectionCategory,
}

/// One ELF symbol.
#[derive(Debug, Clone, PartialEq, Eq)]
pub struct SymbolInfo {
    pub name: String,
    pub demangled_name: Option<String>,
    pub section_name: Option<String>,
    pub object_path: Option<String>,
    pub addr: u64,
    pub size: u64,
}

/// Whether a contribution comes from a real object file or from the linker itself.
#[derive(Debug, Clone, Copy, PartialEq, Eq, Structural)]
pub enum ObjectSourceKind {
    Object,
    Internal,
}

/// Bytes an object file contributes to a section.
#[derive(Debug, Clone, PartialEq, Eq)]
pub struct ObjectContribution {
    pub object_path: String,
    pub source_kind: ObjectSourceKind,
    pub section_name: Option<String>,
    pub size: u64,
}

/// Bytes an archive member contributes to a section.
#[derive(Debug, Clone, PartialEq, Eq)]
pub struct ArchiveContribution {
    pub archive_path: String,
    pub member_path: Option<String>,
    pub section_name: Option<String>,
    pub size: u64,
}

/// Size of one section.
#[derive(Debug, Clone, PartialEq, Eq)]
pub struct SectionTotal {
    pub section_name: String,
    pub size: u64,
    pub category: SectionCategory,
}

/// A `MEMORY` region of a linker script.
#[derive(Debug, Clone, PartialEq, Eq)]
pub struct MemoryRegion {
    pub name: String,
    pub origin: u64,
    pub length: u64,
    pub attributes: String,
}

/// Where a linker script places an output section.
#[derive(Debug, Clone, PartialEq, Eq)]
pub struct SectionPlacement {
    pub section_name: String,
    pub region_name: String,
    pub load_region_name: Option<String>,
    pub align: Option<u64>,
    pub keep: bool,
    pub has_at: bool,
}

/// What a linker script declares.
#[derive(Debug, Clone, PartialEq, Eq)]
pub struct LinkerScriptInfo {
    pub path: String,
    pub regions: Vec<MemoryRegion>,
    pub placements: Vec<SectionPlacement>,
}

/// A section counted against a region.
#[derive(Debug, Clone, PartialEq, Eq)]
pub struct RegionSectionUsage {
    pub section_name: String,
    pub addr: u64,
    pub size: u64,
}

/// How full a memory region is.  The usage ratio is `used / length`.
#[derive(Debug, Clone, PartialEq, Eq)]
pub struct RegionUsageSummary {
    pub region_name: String,
    pub origin: u64,
    pub length: u64,
    pub used: u64,
    pub free: u64,
    pub sections: Vec<RegionSectionUsage>,
}

/// Totals of an image.
#[derive(Debug, Clone, PartialEq, Eq)]
pub struct MemorySummary {
    pub rom_bytes: u64,
    pub ram_bytes: u64,
    pub section_totals: Vec<SectionTotal>,
    pub memory_regions: Vec<MemoryRegion>,
    pub region_summaries: Vec<RegionUsageSummary>,
}

/// Severity of a finding.
#[derive(Debug, Clone, Copy, PartialEq, Eq, Structural)]
pub enum WarningLevel {
    Info,
    Warn,
    Error,
}

/// Which stage produced a finding.
#[derive(Debug, Clone, Copy, PartialEq, Eq, Structural)]
pub enum WarningSource {
    Elf,
    MapFile,
    Analyze,
}

/// One finding of the analysis.
#[derive(Debug, Clone, PartialEq, Eq)]
pub struct WarningItem {
    pub level: WarningLevel,
    pub code: String,
    pub message: String,
    pub source: WarningSource,
    pub related: Option<String>,
}

/// How an entry changed between two analyses.
#[derive(Debug, Clone, Copy, PartialEq, Eq, Structural)]
pub enum DiffChangeKind {
    Added,
    Removed,
    Increased,
    Decreased,
    Unchanged,
    Moved,
}

/// The size of one named entry in two analyses.
#[derive(Debug, Clone, PartialEq, Eq)]
pub struct DiffEntry {
    pub name: String,
    pub current: u64,
    pub previous: u64,
    pub delta: i64,
    pub change: DiffChangeKind,
}

/// Counts of changed entries per kind.
#[derive(Debug, Clone, PartialEq, Eq, Default)]
pub struct DiffSummary {
    pub section_added: usize,
    pub section_removed: usize,
    pub section_increased: usize,
    pub section_decreased: usize,
    pub symbol_added: usize,
    pub symbol_removed: usize,
    pub symbol_increased: usize,
    pub symbol_decreased: usize,
    pub object_added: usize,
    pub object_removed: usize,
    pub object_increased: usize,
    pub object_decreased: usize,
    pub source_file_added: usize,
    pub source_file_removed: usize,
    pub source_file_increased: usize,
    pub source_file_decreased: usize,
    pub function_added: usize,
    pub function_removed: usize,
    pub function_increased: usize,
    pub function_decreased: usize,
    pub line_added: usize,
    pub line_removed: usize,
    pub line_increased: usize,
    pub line_decreased: usize,
}

/// The difference between two analyses.
#[derive(Debug, Clone, PartialEq, Eq)]
pub struct DiffResult {
    pub rom_delta: i64,
    pub ram_delta: i64,
    pub unknown_source_delta: i64,
    pub summary: DiffSummary,
    pub section_diffs: Vec<DiffEntry>,
    pub symbol_diffs: Vec<DiffEntry>,
    pub object_diffs: Vec<DiffEntry>,
    pub archive_diffs: Vec<DiffEntry>,
    pub source_file_diffs: Vec<DiffEntry>,
    pub function_diffs: Vec<DiffEntry>,
    pub line_diffs: Vec<DiffEntry>,
    pub cpp_template_family_diffs: Vec<DiffEntry>,
    pub cpp_class_diffs: Vec<DiffEntry>,
    pub cpp_runtime_overhead_diffs: Vec<DiffEntry>,
    pub cpp_lambda_group_diffs: Vec<DiffEntry>,
}

/// Toolchain requested on the command line.
#[derive(Debug, Clone, Copy, PartialEq, Eq, Structural)]
pub enum ToolchainSelection {
    Auto,
    Gnu,
    Lld,
    Iar,
    Armcc,
    Keil,
}

/// Map file format requested on the command line.
#[derive(Debug, Clone, Copy, PartialEq, Eq, Structural)]
pub enum MapFormatSelection {
    Auto,
    Gnu,
    LldNative,
}

/// Toolchain that produced the image.
#[derive(Debug, Clone, Copy, PartialEq, Eq, Structural)]
pub enum ToolchainKind {
    Gnu,
    Lld,
}

/// Detected map file format.
#[derive(Debug, Clone, Copy, PartialEq, Eq, Structural)]
pub enum MapFormat {
    Unknown,
    Gnu,
    LldNative,
}

/// Detected linker family.
#[derive(Debug, Clone, Copy, PartialEq, Eq, Structural)]
pub enum LinkerFamily {
    Unknown,
    Gnu,
    Lld,
}

/// Toolchain facts of an analysis.
#[derive(Debug, Clone, PartialEq, Eq)]
pub struct ToolchainInfo {
    pub requested: ToolchainSelection,
    pub detected: Option<ToolchainKind>,
    pub resolved: ToolchainKind,
    pub linker_family: LinkerFamily,
    pub map_format: MapFormat,
    pub parser_warnings_count: usize,
}

/// A DWARF compilation unit.
#[derive(Debug, Clone, PartialEq, Eq)]
pub struct CompilationUnit {
    pub name: Option<String>,
    pub comp_dir: Option<String>,
    pub file_count: usize,
}

/// A source position.
#[derive(Debug, Clone, PartialEq, Eq)]
pub struct SourceLocation {
    pub path: String,
    pub line: u64,
    pub column: Option<u64>,
}

/// A range of source lines.
#[derive(Debug, Clone, PartialEq, Eq)]
pub struct SourceSpan {
    pub path: String,
    pub line_start: u64,
    pub line_end: u64,
    pub column: Option<u64>,
}

/// A range of addresses.
#[derive(Debug, Clone, PartialEq, Eq)]
pub struct AddressRange {
    pub start: u64,
    pub end: u64,
    pub section_name: Option<String>,
}

/// Bytes attributed to one source line.
#[derive(Debug, Clone, PartialEq, Eq)]
pub struct LineAttribution {
    pub location: SourceLocation,
    pub span: SourceSpan,
    pub range: AddressRange,
    pub size: u64,
}

/// Bytes attributed to one function.
#[derive(Debug, Clone, PartialEq, Eq)]
pub struct FunctionAttribution {
    pub raw_name: String,
    pub demangled_name: Option<String>,
    pub path: Option<String>,
    pub size: u64,
    pub ranges: Vec<SourceSpan>,
}

/// Bytes attributed to a range of lines.
#[derive(Debug, Clone, PartialEq, Eq)]
pub struct LineRangeAttribution {
    pub path: String,
    pub line_start: u64,
    pub line_end: u64,
    pub section_name: Option<String>,
    pub size: u64,
}

/// Bytes that no source location accounts for.
#[derive(Debug, Clone, PartialEq, Eq, Default)]
pub struct UnknownSourceBucket {
    pub size: u64,
    pub ranges: Vec<AddressRange>,
}

/// Bytes attributed to one source file.
#[derive(Debug, Clone, PartialEq, Eq)]
pub struct SourceFile {
    pub path: String,
    pub display_path: String,
    pub directory: String,
    pub size: u64,
    pub functions: usize,
    pub line_ranges: usize,
}

/// Whether symbol names are demangled.
#[derive(Debug, Clone, Copy, PartialEq, Eq, Structural)]
pub enum DemangleMode {
    Auto,
    On,
    Off,
}

/// Whether DWARF line tables are used.
#[derive(Debug, Clone, Copy, PartialEq, Eq, Structural)]
pub enum DwarfMode {
    Auto,
    On,
    Off,
}

/// Level of source aggregation.
#[derive(Debug, Clone, Copy, PartialEq, Eq, Structural)]
pub enum SourceLinesMode {
    Off,
    Files,
    Functions,
    Lines,
    All,
}

/// Format of the CI summary.
#[derive(Debug, Clone, Copy, PartialEq, Eq, Structural)]
pub enum CiFormat {
    Text,
    Markdown,
    Json,
}

/// Kind of a user-defined rule.
#[derive(Debug, Clone, Copy, PartialEq, Eq, Structural)]
pub enum RuleKind {
    RegionUsage,
    SectionDelta,
    SymbolDelta,
    SymbolMatch,
    ObjectMatch,
    SourcePathGrowth,
    FunctionGrowth,
    UnknownSourceRatio,
}

/// Severity a rule file asks for.
#[derive(Debug, Clone, Copy, PartialEq, Eq, Structural)]
pub enum RuleSeverityConfig {
    Info,
    Warn,
    Error,
}

/// What Cargo says about the package that produced the binary.
#[derive(Debug, Clone, PartialEq, Eq)]
pub struct RustContext {
    pub workspace_root: Option<String>,
    pub manifest_path: Option<String>,
    pub package_name: Option<String>,
    pub package_id: Option<String>,
    pub target_name: Option<String>,
    pub target_kind: Vec<String>,
    pub crate_types: Vec<String>,
    pub edition: Option<String>,
    pub target_triple: Option<String>,
    pub profile: Option<String>,
    pub artifact_path: Option<String>,
    pub metadata_source: String,
    pub workspace_members: Vec<String>,
}

/// The state of the git checkout a binary was built from.
#[derive(Debug, Clone, PartialEq, Eq)]
pub struct GitMetadata {
    pub repo_root: String,
    pub commit_hash: String,
    pub short_commit_hash: String,
    pub branch_name: Option<String>,
    pub detached_head: bool,
    pub tag_names: Vec<String>,
    pub commit_subject: Option<String>,
    pub author_name: Option<String>,
    pub author_email: Option<String>,
    pub commit_timestamp: Option<String>,
    pub describe: Option<String>,
    pub is_dirty: bool,
}

// ---------------------------------------------------------------------------
// Names shown to users
// ---------------------------------------------------------------------------
impl WarningLevel {
    /// The name shown to users.
    pub open spec fn text(self) -> Seq<char> {
        match self {
            WarningLevel::Info => "info"@,
            WarningLevel::Warn => "warn"@,
            WarningLevel::Error => "error"@,
        }
    }

    /// The name shown to users.
    pub fn as_text(&self) -> (r: String)
        ensures
            r@ == self.text(),
    {
        match self {
            WarningLevel::Info => string_from("info"),
            WarningLevel::Warn => string_from("warn"),
            WarningLevel::Error => string_from("error"),
        }
    }
}

impl SectionCategory {
    /// The name shown to users.
    pub open spec fn text(self) -> Seq<char> {
        match self {
            SectionCategory::Rom => "ROM"@,
            SectionCategory::Ram => "RAM"@,
            SectionCategory::Other => "Other"@,
        }
    }

    /// The name shown to users.
    pub fn as_text(&self) -> (r: String)
        ensures
            r@ == self.text(),
    {
        match self {
            SectionCategory::Rom => string_from("ROM"),
            SectionCategory::Ram => string_from("RAM"),
            SectionCategory::Other => string_from("Other"),
        }
    }
}

impl WarningSource {
    /// The name shown to users.
    pub open spec fn text(self) -> Seq<char> {
        match self {
            WarningSource::Elf => "elf"@,
            WarningSource::MapFile => "map"@,
            WarningSource::Analyze => "analyze"@,
        }
    }

    /// The name shown to users.
    pub fn as_text(&self) -> (r: String)
        ensures
            r@ == self.text(),
    {
        match self {
            WarningSource::Elf => string_from("elf"),
            WarningSource::MapFile => string_from("map"),
            WarningSource::Analyze => string_from("analyze"),
        }
    }
}

impl DiffChangeKind {
    /// The name shown to users.
    pub open spec fn text(self) -> Seq<char> {
        match self {
            DiffChangeKind::Added => "Added"@,
            DiffChangeKind::Removed => "Removed"@,
            DiffChangeKind::Increased => "Increased"@,
            DiffChangeKind::Decreased => "Decreased"@,
            DiffChangeKind::Unchanged => "Unchanged"@,
            DiffChangeKind::Moved => "Moved"@,
        }
    }

    /// The name shown to users.
    pub fn as_text(&self) -> (r: String)
        ensures
            r@ == self.text(),
    {
        match self {
            DiffChangeKind::Added => string_from("Added"),
            DiffChangeKind::Removed => string_from("Removed"),
            DiffChangeKind::Increased => string_from("Increased"),
            DiffChangeKind::Decreased => string_from("Decreased"),
            DiffChangeKind::Unchanged => string_from("Unchanged"),
            DiffChangeKind::Moved => string_from("Moved"),
        }
    }
}

impl ToolchainSelection {
    /// The name shown to users.
    pub open spec fn text(self) -> Seq<char> {
        match self {
            ToolchainSelection::Auto => "auto"@,
            ToolchainSelection::Gnu => "gnu"@,
            ToolchainSelection::Lld => "lld"@,
            ToolchainSelection::Iar => "iar"@,
            ToolchainSelection::Armcc => "armcc"@,
            ToolchainSelection::Keil => "keil"@,
        }
    }

    /// The name shown to users.
    pub fn as_text(&self) -> (r: String)
        ensures
            r@ == self.text(),
    {
        match self {
            ToolchainSelection::Auto => string_from("auto"),
            ToolchainSelection::Gnu => string_from("gnu"),
            ToolchainSelection::Lld => string_from("lld"),
            ToolchainSelection::Iar => string_from("iar"),
            ToolchainSelection::Armcc => string_from("armcc"),
            ToolchainSelection::Keil => string_from("keil"),
        }
    }
}

impl ToolchainKind {
    /// The name shown to users.
    pub open spec fn text(self) -> Seq<char> {
        match self {
            ToolchainKind::Gnu => "gnu"@,
            ToolchainKind::Lld => "lld"@,
        }
    }

    /// The name shown to users.
    pub fn as_text(&self) -> (r: String)
        ensures
            r@ == self.text(),
    {
        match self {
            ToolchainKind::Gnu => string_from("gnu"),
            ToolchainKind::Lld => string_from("lld"),
        }
    }
}

impl MapFormatSelection {
    /// The name shown to users.
    pub open spec fn text(self) -> Seq<char> {
        match self {
            MapFormatSelection::Auto => "auto"@,
            MapFormatSelection::Gnu => "gnu"@,
            MapFormatSelection::LldNative => "lld-native"@,
        }
    }

    /// The name shown to users.
    pub fn as_text(&self) -> (r: String)
        ensures
            r@ == self.text(),
    {
        match self {
            MapFormatSelection::Auto => string_from("auto"),
            MapFormatSelection::Gnu => string_from("gnu"),
            MapFormatSelection::LldNative => string_from("lld-native"),
        }
    }
}

impl MapFormat {
    /// The name shown to users.
    pub open spec fn text(self) -> Seq<char> {
        match self {
            MapFormat::Unknown => "unknown"@,
            MapFormat::Gnu => "gnu"@,
            MapFormat::LldNative => "lld-native"@,
        }
    }

    /// The name shown to users.
    pub fn as_text(&self) -> (r: String)
        ensures
            r@ == self.text(),
    {
        match self {
            MapFormat::Unknown => string_from("unknown"),
            MapFormat::Gnu => string_from("gnu"),
            MapFormat::LldNative => string_from("lld-native"),
        }
    }
}

impl LinkerFamily {
    /// The name shown to users.
    pub open spec fn text(self) -> Seq<char> {
        match self {
            LinkerFamily::Unknown => "unknown"@,
            LinkerFamily::Gnu => "gnu"@,
            LinkerFamily::Lld => "lld"@,
        }
    }

    /// The name shown to users.
    pub fn as_text(&self) -> (r: String)
        ensures
            r@ == self.text(),
    {
        match self {
            LinkerFamily::Unknown => string_from("unknown"),
            LinkerFamily::Gnu => string_from("gnu"),
            LinkerFamily::Lld => string_from("lld"),
        }
    }
}

impl DwarfMode {
    /// The name shown to users.
    pub open spec fn text(self) -> Seq<char> {
        match self {
            DwarfMode::Auto => "auto"@,
            DwarfMode::On => "on"@,
            DwarfMode::Off => "off"@,
        }
    }

    /// The name shown to users.
    pub fn as_text(&self) -> (r: String)
        ensures
            r@ == self.text(),
    {
        match self {
            DwarfMode::Auto => string_from("auto"),
            DwarfMode::On => string_from("on"),
            DwarfMode::Off => string_from("off"),
        }
    }
}

impl SourceLinesMode {
    /// The name shown to users.
    pub open spec fn text(self) -> Seq<char> {
        match self {
            SourceLinesMode::Off => "off"@,
            SourceLinesMode::Files => "files"@,
            SourceLinesMode::Functions => "functions"@,
            SourceLinesMode::Lines => "lines"@,
            SourceLinesMode::All => "all"@,
        }
    }

    /// The name shown to users.
    pub fn as_text(&self) -> (r: String)
        ensures
            r@ == self.text(),
    {
        match self {
            SourceLinesMode::Off => string_from("off"),
            SourceLinesMode::Files => string_from("files"),
            SourceLinesMode::Functions => string_from("functions"),
            SourceLinesMode::Lines => string_from("lines"),
            SourceLinesMode::All => string_from("all"),
        }
    }
}

} // verus!
