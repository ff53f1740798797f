//! Orderings and totals of an analysed image: the symbol ranking, section
//! totals and how full each memory region is.
use vstd::prelude::*;

use crate::model::{
    ArchiveContribution, ObjectContribution, ObjectSourceKind, MemoryRegion, MemorySummary, RegionSectionUsage, RegionUsageSummary, SectionCategory, SectionInfo,
    SectionPlacement, SectionTotal, SymbolInfo, ToolchainKind, ToolchainSelection,
};
use crate::sorting::{
    is_sorted, lemma_sorted_by_key_is_sorted, lemma_sorted_by_key_permutes, sort_by_key, sorted_by_key,
    SortKey,
};
use crate::text::{
    opt_text,
    copy_string, copy_opt_string, compare_strings, lex_lt, lemma_lex_irreflexive, lemma_lex_total,
    lemma_lex_transitive, Precedence, eq_ignore_case, lemma_lex_le_total, lemma_lex_le_transitive, lex_le, str_eq,
    str_eq_ignore_case, str_le,
};

verus! {

// ---------------------------------------------------------------------------
// Orders
// ---------------------------------------------------------------------------
/// Symbols rank by size, largest first, then by name.
impl SortKey for SymbolInfo {
    open spec fn key_le(self, other: Self) -> bool {
        self.size > other.size || (self.size == other.size && lex_le(self.name@, other.name@))
    }

    proof fn lemma_key_total(a: Self, b: Self) {
        lemma_lex_le_total(a.name@, b.name@);
    }

    proof fn lemma_key_transitive(a: Self, b: Self, c: Self) {
        if a.size == b.size && b.size == c.size {
            lemma_lex_le_transitive(a.name@, b.name@, c.name@);
        }
    }

    fn exec_key_le(&self, other: &Self) -> (r: bool) {
        if self.size != other.size {
            self.size > other.size
        } else {
            str_le(&self.name, &other.name)
        }
    }
}

/// Section totals rank by size, largest first, then by section name.
impl SortKey for SectionTotal {
    open spec fn key_le(self, other: Self) -> bool {
        self.size > other.size || (self.size == other.size && lex_le(
            self.section_name@,
            other.section_name@,
        ))
    }

    proof fn lemma_key_total(a: Self, b: Self) {
        lemma_lex_le_total(a.section_name@, b.section_name@);
    }

    proof fn lemma_key_transitive(a: Self, b: Self, c: Self) {
        if a.size == b.size && b.size == c.size {
            lemma_lex_le_transitive(a.section_name@, b.section_name@, c.section_name@);
        }
    }

    fn exec_key_le(&self, other: &Self) -> (r: bool) {
        if self.size != other.size {
            self.size > other.size
        } else {
            str_le(&self.section_name, &other.section_name)
        }
    }
}

/// Sections of a region rank by size, largest first, then by section name.
impl SortKey for RegionSectionUsage {
    open spec fn key_le(self, other: Self) -> bool {
        self.size > other.size || (self.size == other.size && lex_le(
            self.section_name@,
            other.section_name@,
        ))
    }

    proof fn lemma_key_total(a: Self, b: Self) {
        lemma_lex_le_total(a.section_name@, b.section_name@);
    }

    proof fn lemma_key_transitive(a: Self, b: Self, c: Self) {
        if a.size == b.size && b.size == c.size {
            lemma_lex_le_transitive(a.section_name@, b.section_name@, c.section_name@);
        }
    }

    fn exec_key_le(&self, other: &Self) -> (r: bool) {
        if self.size != other.size {
            self.size > other.size
        } else {
            str_le(&self.section_name, &other.section_name)
        }
    }
}

/// Regions rank by bytes used, most first, then by region name.
impl SortKey for RegionUsageSummary {
    open spec fn key_le(self, other: Self) -> bool {
        self.used > other.used || (self.used == other.used && lex_le(
            self.region_name@,
            other.region_name@,
        ))
    }

    proof fn lemma_key_total(a: Self, b: Self) {
        lemma_lex_le_total(a.region_name@, b.region_name@);
    }

    proof fn lemma_key_transitive(a: Self, b: Self, c: Self) {
        if a.used == b.used && b.used == c.used {
            lemma_lex_le_transitive(a.region_name@, b.region_name@, c.region_name@);
        }
    }

    fn exec_key_le(&self, other: &Self) -> (r: bool) {
        if self.used != other.used {
            self.used > other.used
        } else {
            str_le(&self.region_name, &other.region_name)
        }
    }
}

// ---------------------------------------------------------------------------
// Specifications
// ---------------------------------------------------------------------------
/// Bytes of the sections of one category.
pub open spec fn category_bytes(s: Seq<SectionInfo>, c: SectionCategory) -> nat
    decreases s.len(),
{
    if s.len() == 0 {
        0
    } else {
        category_bytes(s.drop_last(), c) + if s.last().category == c {
            s.last().size as nat
        } else {
            0
        }
    }
}

/// The total line of a section.
pub open spec fn section_total_of(s: SectionInfo) -> SectionTotal {
    SectionTotal { section_name: s.name, size: s.size, category: s.category }
}

/// The total lines of the sections, in input order.
pub open spec fn section_totals_of(s: Seq<SectionInfo>) -> Seq<SectionTotal> {
    s.map_values(|x: SectionInfo| section_total_of(x))
}

/// The first placement of the named section.
pub open spec fn first_placement(placements: Seq<SectionPlacement>, name: Seq<char>) -> Option<
    SectionPlacement,
>
    decreases placements.len(),
{
    if placements.len() == 0 {
        None
    } else if placements[0].section_name@ == name {
        Some(placements[0])
    } else {
        first_placement(placements.drop_first(), name)
    }
}

/// `a + b`, saturated at `u64::MAX`.
pub open spec fn sat_add(a: u64, b: u64) -> int {
    if a + b > u64::MAX {
        u64::MAX as int
    } else {
        a + b
    }
}

/// A section counts against a region when its first placement names the
/// region (ignoring ASCII case) or its address lies inside the region.
pub open spec fn in_region(
    section: SectionInfo,
    region: MemoryRegion,
    placements: Seq<SectionPlacement>,
) -> bool {
    (match first_placement(placements, section.name@) {
        Some(p) => eq_ignore_case(p.region_name@, region.name@),
        None => false,
    }) || (section.addr >= region.origin && section.addr < sat_add(region.origin, region.length))
}

/// The usage line of a section.
pub open spec fn usage_of(s: SectionInfo) -> RegionSectionUsage {
    RegionSectionUsage { section_name: s.name, addr: s.addr, size: s.size }
}

/// The usage lines of the sections counted against a region, in input order.
pub open spec fn usages_in(
    s: Seq<SectionInfo>,
    region: MemoryRegion,
    placements: Seq<SectionPlacement>,
) -> Seq<RegionSectionUsage>
    decreases s.len(),
{
    if s.len() == 0 {
        Seq::empty()
    } else {
        let rest = usages_in(s.drop_last(), region, placements);
        if in_region(s.last(), region, placements) {
            rest.push(usage_of(s.last()))
        } else {
            rest
        }
    }
}

/// Sum of the sizes of usage lines.
pub open spec fn usage_total(u: Seq<RegionSectionUsage>) -> nat
    decreases u.len(),
{
    if u.len() == 0 {
        0
    } else {
        usage_total(u.drop_last()) + u.last().size as nat
    }
}

/// Bytes of a region used by the sections counted against it.
pub open spec fn region_used(
    sections: Seq<SectionInfo>,
    region: MemoryRegion,
    placements: Seq<SectionPlacement>,
) -> nat {
    usage_total(usages_in(sections, region, placements))
}

/// `out` is the summary of `region`: its sections ranked largest first, the
/// bytes they use, and the bytes left (none when they overflow the region).
pub open spec fn summarizes(
    out: RegionUsageSummary,
    sections: Seq<SectionInfo>,
    region: MemoryRegion,
    placements: Seq<SectionPlacement>,
) -> bool {
    let used = region_used(sections, region, placements);
    &&& out.region_name == region.name
    &&& out.origin == region.origin
    &&& out.length == region.length
    &&& out.used == used
    &&& out.free == if region.length >= used {
        region.length - used
    } else {
        0
    }
    &&& out.sections@ == sorted_by_key(usages_in(sections, region, placements))
}

/// The sums that `build_memory_summary` adds up fit in `u64`.
pub open spec fn summary_fits(
    sections: Seq<SectionInfo>,
    regions: Seq<MemoryRegion>,
    placements: Seq<SectionPlacement>,
) -> bool {
    &&& category_bytes(sections, SectionCategory::Rom) <= u64::MAX
    &&& category_bytes(sections, SectionCategory::Ram) <= u64::MAX
    &&& forall|i: int|
        0 <= i < regions.len() ==> region_used(sections, #[trigger] regions[i], placements)
            <= u64::MAX
}

// ---------------------------------------------------------------------------
// Executable functions
// ---------------------------------------------------------------------------
/// Symbols ranked by size, largest first, ties broken by name.
pub fn sorted_symbols(symbols: Vec<SymbolInfo>) -> (out: Vec<SymbolInfo>)
    ensures
        out@ == sorted_by_key(symbols@),
{
    sort_by_key(symbols)
}

/// The toolchain assumed when no map file says otherwise.
pub fn resolve_toolchain_without_map(selection: ToolchainSelection) -> (r: ToolchainKind)
    ensures
        r == if selection == ToolchainSelection::Lld {
            ToolchainKind::Lld
        } else {
            ToolchainKind::Gnu
        },
{
    match selection {
        ToolchainSelection::Lld => ToolchainKind::Lld,
        _ => ToolchainKind::Gnu,
    }
}

/// Copies a memory region.
fn copy_region(r: &MemoryRegion) -> (out: MemoryRegion)
    ensures
        out == *r,
{
    MemoryRegion {
        name: copy_string(&r.name),
        origin: r.origin,
        length: r.length,
        attributes: copy_string(&r.attributes),
    }
}

/// Whether a section counts against a region.
pub fn section_in_region(
    section: &SectionInfo,
    region: &MemoryRegion,
    placements: &Vec<SectionPlacement>,
) -> (r: bool)
    ensures
        r == in_region(*section, *region, placements@),
{
    let ghost name = section.name@;
    let mut i: usize = 0;
    assert(placements@.skip(0) =~= placements@);
    while i < placements.len()
        invariant
            0 <= i <= placements.len(),
            first_placement(placements@, name) == first_placement(placements@.skip(i as int), name),
            name == section.name@,
        decreases placements.len() - i,
    {
        assert(placements@.skip(i as int)[0] == placements@[i as int]);
        assert(placements@.skip(i as int).drop_first() =~= placements@.skip(i + 1));
        if str_eq(placements[i].section_name.as_str(), section.name.as_str()) {
            if str_eq_ignore_case(placements[i].region_name.as_str(), region.name.as_str()) {
                return true;
            }
            return section.addr >= region.origin && section.addr < region.origin.saturating_add(
                region.length,
            );
        }
        i += 1;
    }
    proof {
        if i == placements.len() {
            assert(placements@.skip(i as int).len() == 0);
        }
    }
    section.addr >= region.origin && section.addr < region.origin.saturating_add(region.length)
}

/// The summary of one region: its sections, largest first, and the bytes used and free.
pub fn build_region_summary(
    sections: &Vec<SectionInfo>,
    region: &MemoryRegion,
    placements: &Vec<SectionPlacement>,
) -> (out: RegionUsageSummary)
    requires
        region_used(sections@, *region, placements@) <= u64::MAX,
    ensures
        summarizes(out, sections@, *region, placements@),
{
    let mut matched: Vec<RegionSectionUsage> = Vec::new();
    let mut used: u64 = 0;
    let mut i: usize = 0;
    while i < sections.len()
        invariant
            0 <= i <= sections.len(),
            matched@ == usages_in(sections@.take(i as int), *region, placements@),
            used == usage_total(matched@),
            region_used(sections@, *region, placements@) <= u64::MAX,
        decreases sections.len() - i,
    {
        assert(sections@.take(i + 1).drop_last() =~= sections@.take(i as int));
        assert(sections@.take(i + 1).last() == sections@[i as int]);
        let s = &sections[i];
        if section_in_region(s, region, placements) {
            proof {
                lemma_usage_prefix(sections@, *region, placements@, i + 1);
            }
            matched.push(
                RegionSectionUsage { section_name: copy_string(&s.name), addr: s.addr, size: s.size },
            );
            assert(matched@.drop_last() =~= usages_in(sections@.take(i as int), *region, placements@));
            used = used + s.size;
        }
        i += 1;
    }
    assert(sections@.take(sections.len() as int) =~= sections@);
    let free = region.length.saturating_sub(used);
    RegionUsageSummary {
        region_name: copy_string(&region.name),
        origin: region.origin,
        length: region.length,
        used,
        free,
        sections: sort_by_key(matched),
    }
}

/// Totals of a prefix never exceed the totals of the whole list.
proof fn lemma_usage_prefix(
    sections: Seq<SectionInfo>,
    region: MemoryRegion,
    placements: Seq<SectionPlacement>,
    k: int,
)
    requires
        0 <= k <= sections.len(),
    ensures
        usage_total(usages_in(sections.take(k), region, placements)) <= region_used(
            sections,
            region,
            placements,
        ),
    decreases sections.len(),
{
    if k < sections.len() {
        assert(sections.drop_last().take(k) =~= sections.take(k));
        lemma_usage_prefix(sections.drop_last(), region, placements, k);
        let rest = usages_in(sections.drop_last(), region, placements);
        if in_region(sections.last(), region, placements) {
            let x = usage_of(sections.last());
            assert(rest.push(x).drop_last() =~= rest);
            assert(usage_total(rest.push(x)) == usage_total(rest) + x.size);
        }
    } else {
        assert(sections.take(k) =~= sections);
    }
}

/// Category totals of a prefix never exceed those of the whole list.
proof fn lemma_category_prefix(s: Seq<SectionInfo>, c: SectionCategory, k: int)
    requires
        0 <= k <= s.len(),
    ensures
        category_bytes(s.take(k), c) <= category_bytes(s, c),
    decreases s.len(),
{
    if k < s.len() {
        assert(s.drop_last().take(k) =~= s.take(k));
        lemma_category_prefix(s.drop_last(), c, k);
    } else {
        assert(s.take(k) =~= s);
    }
}

/// The memory summary of an image: ROM and RAM bytes, section totals and
/// region usage, each list ranked largest first.
pub fn build_memory_summary(
    sections: &Vec<SectionInfo>,
    regions: &Vec<MemoryRegion>,
    placements: &Vec<SectionPlacement>,
) -> (out: MemorySummary)
    requires
        summary_fits(sections@, regions@, placements@),
    ensures
        out.rom_bytes == category_bytes(sections@, SectionCategory::Rom),
        out.ram_bytes == category_bytes(sections@, SectionCategory::Ram),
        out.section_totals@ == sorted_by_key(section_totals_of(sections@)),
        out.memory_regions@ == regions@,
        exists|s: Seq<RegionUsageSummary>|
            {
                &&& s.len() == regions@.len()
                &&& forall|i: int|
                    0 <= i < s.len() ==> summarizes(#[trigger] s[i], sections@, regions@[i], placements@)
                &&& out.region_summaries@ == sorted_by_key(s)
            },
{
    let mut rom: u64 = 0;
    let mut ram: u64 = 0;
    let mut totals: Vec<SectionTotal> = Vec::new();
    let mut i: usize = 0;
    while i < sections.len()
        invariant
            0 <= i <= sections.len(),
            rom == category_bytes(sections@.take(i as int), SectionCategory::Rom),
            ram == category_bytes(sections@.take(i as int), SectionCategory::Ram),
            totals@ == section_totals_of(sections@.take(i as int)),
            summary_fits(sections@, regions@, placements@),
        decreases sections.len() - i,
    {
        assert(sections@.take(i + 1).drop_last() =~= sections@.take(i as int));
        assert(sections@.take(i + 1).last() == sections@[i as int]);
        proof {
            lemma_category_prefix(sections@, SectionCategory::Rom, i + 1);
            lemma_category_prefix(sections@, SectionCategory::Ram, i + 1);
        }
        let s = &sections[i];
        match s.category {
            SectionCategory::Rom => rom = rom + s.size,
            SectionCategory::Ram => ram = ram + s.size,
            SectionCategory::Other => {},
        }
        totals.push(SectionTotal { section_name: copy_string(&s.name), size: s.size, category: s.category });
        assert(totals@ =~= section_totals_of(sections@.take(i + 1)));
        i += 1;
    }
    assert(sections@.take(sections.len() as int) =~= sections@);
    let mut summaries: Vec<RegionUsageSummary> = Vec::new();
    let mut copies: Vec<MemoryRegion> = Vec::new();
    let mut j: usize = 0;
    while j < regions.len()
        invariant
            0 <= j <= regions.len(),
            summaries@.len() == j,
            forall|k: int|
                0 <= k < j ==> summarizes(#[trigger] summaries@[k], sections@, regions@[k], placements@),
            copies@ == regions@.take(j as int),
            summary_fits(sections@, regions@, placements@),
        decreases regions.len() - j,
    {
        assert(region_used(sections@, regions@[j as int], placements@) <= u64::MAX);
        summaries.push(build_region_summary(sections, &regions[j], placements));
        copies.push(copy_region(&regions[j]));
        assert(copies@ =~= regions@.take(j + 1));
        j += 1;
    }
    assert(regions@.take(regions.len() as int) =~= regions@);
    let ghost unsorted = summaries@;
    let out = MemorySummary {
        rom_bytes: rom,
        ram_bytes: ram,
        section_totals: sort_by_key(totals),
        memory_regions: copies,
        region_summaries: sort_by_key(summaries),
    };
    assert(unsorted.len() == regions@.len());
    out
}

// ---------------------------------------------------------------------------
// Laws
// ---------------------------------------------------------------------------
/// The symbol ranking is ordered (larger first, then by name) and holds
/// exactly the symbols it was given.
pub proof fn law_sorted_symbols_rank(symbols: Seq<SymbolInfo>)
    ensures
        is_sorted(sorted_by_key(symbols)),
        sorted_by_key(symbols).to_multiset() == symbols.to_multiset(),
{
    lemma_sorted_by_key_is_sorted(symbols);
    lemma_sorted_by_key_permutes(symbols);
}

/// A region's free bytes and used bytes add up to its length, unless the
/// sections counted against it overflow it, in which case nothing is free.
pub proof fn law_region_free_plus_used(
    out: RegionUsageSummary,
    sections: Seq<SectionInfo>,
    region: MemoryRegion,
    placements: Seq<SectionPlacement>,
)
    requires
        summarizes(out, sections, region, placements),
    ensures
        out.used <= out.length ==> out.free + out.used == out.length,
        out.used > out.length ==> out.free == 0,
{
}

// ---------------------------------------------------------------------------
// Contributions merged by key
// ---------------------------------------------------------------------------
/// What contributions are merged by: path, origin rank, member and section.
pub type GroupKey = (Seq<char>, int, Option<Seq<char>>, Option<Seq<char>>);

/// The order of optional texts: nothing first, then by text.
pub open spec fn opt_text_lt(a: Option<Seq<char>>, b: Option<Seq<char>>) -> bool {
    match (a, b) {
        (None, Some(_)) => true,
        (Some(x), Some(y)) => lex_lt(x, y),
        _ => false,
    }
}

/// The order of group keys: field by field.
pub open spec fn gkey_lt(a: GroupKey, b: GroupKey) -> bool {
    lex_lt(a.0, b.0) || (a.0 == b.0 && (a.1 < b.1 || (a.1 == b.1 && (opt_text_lt(a.2, b.2) || (a.2 == b.2
        && opt_text_lt(a.3, b.3))))))
}

proof fn lemma_opt_text_lt_facts(a: Option<Seq<char>>, b: Option<Seq<char>>, c: Option<Seq<char>>)
    ensures
        !opt_text_lt(a, a),
        a == b || opt_text_lt(a, b) || opt_text_lt(b, a),
        opt_text_lt(a, b) && opt_text_lt(b, c) ==> opt_text_lt(a, c),
{
    if a is Some {
        lemma_lex_irreflexive(a->0);
    }
    if a is Some && b is Some {
        lemma_lex_total(a->0, b->0);
    }
    if a is Some && b is Some && c is Some {
        if lex_lt(a->0, b->0) && lex_lt(b->0, c->0) {
            lemma_lex_transitive(a->0, b->0, c->0);
        }
    }
}

proof fn lemma_gkey_facts(a: GroupKey, b: GroupKey, c: GroupKey)
    ensures
        !gkey_lt(a, a),
        a == b || gkey_lt(a, b) || gkey_lt(b, a),
        gkey_lt(a, b) && gkey_lt(b, c) ==> gkey_lt(a, c),
{
    lemma_lex_irreflexive(a.0);
    lemma_lex_total(a.0, b.0);
    if lex_lt(a.0, b.0) && lex_lt(b.0, c.0) {
        lemma_lex_transitive(a.0, b.0, c.0);
    }
    lemma_opt_text_lt_facts(a.2, b.2, c.2);
    lemma_opt_text_lt_facts(a.3, b.3, c.3);
    if a.0 == b.0 && a.1 == b.1 && a.2 == b.2 && a.3 == b.3 {
        assert(a == b);
    }
}

/// The total size of the items with a key.
pub open spec fn key_total(items: Seq<(GroupKey, u64)>, k: GroupKey) -> int
    decreases items.len(),
{
    if items.len() == 0 {
        0
    } else {
        key_total(items.drop_last(), k) + if items.last().0 == k {
            items.last().1 as int
        } else {
            0
        }
    }
}

/// Some item has the key.
pub open spec fn has_gkey(items: Seq<(GroupKey, u64)>, k: GroupKey) -> bool {
    exists|i: int| 0 <= i < items.len() && (#[trigger] items[i]).0 == k
}

/// `g` holds each key of the items once, in key order, with its total size.
#[verifier::opaque]
pub open spec fn is_group_list(g: Seq<(GroupKey, u64)>, items: Seq<(GroupKey, u64)>) -> bool {
    &&& forall|i: int, j: int| 0 <= i < j < g.len() ==> gkey_lt(#[trigger] g[i].0, #[trigger] g[j].0)
    &&& forall|i: int| 0 <= i < g.len() ==> (#[trigger] g[i]).1 == key_total(items, g[i].0) && has_gkey(items, g[i].0)
    &&& forall|k: int| 0 <= k < items.len() ==> has_gkey(g, (#[trigger] items[k]).0)
}

proof fn lemma_key_total_absent(items: Seq<(GroupKey, u64)>, k: GroupKey)
    requires
        !has_gkey(items, k),
    ensures
        key_total(items, k) == 0,
    decreases items.len(),
{
    if items.len() > 0 {
        assert(!has_gkey(items.drop_last(), k)) by {
            if has_gkey(items.drop_last(), k) {
                let i = choose|i: int| 0 <= i < items.drop_last().len() && (#[trigger] items.drop_last()[i]).0 == k;
                assert(items[i] == items.drop_last()[i]);
            }
        }
        lemma_key_total_absent(items.drop_last(), k);
        assert(items[items.len() - 1].0 != k);
    }
}

proof fn lemma_key_total_prefix(items: Seq<(GroupKey, u64)>, k: GroupKey, n: int)
    requires
        0 <= n <= items.len(),
    ensures
        0 <= key_total(items.take(n), k) <= key_total(items, k),
    decreases items.len(),
{
    if n == items.len() {
        assert(items.take(n) =~= items);
        lemma_key_total_nonneg(items, k);
    } else {
        assert(items.drop_last().take(n) =~= items.take(n));
        lemma_key_total_prefix(items.drop_last(), k, n);
    }
}

proof fn lemma_key_total_nonneg(items: Seq<(GroupKey, u64)>, k: GroupKey)
    ensures
        0 <= key_total(items, k),
    decreases items.len(),
{
    if items.len() > 0 {
        lemma_key_total_nonneg(items.drop_last(), k);
    }
}

proof fn lemma_group_merge(g: Seq<(GroupKey, u64)>, items: Seq<(GroupKey, u64)>, x: (GroupKey, u64), pos: int)
    requires
        is_group_list(g, items),
        0 <= pos < g.len(),
        g[pos].0 == x.0,
        g[pos].1 + x.1 <= u64::MAX,
    ensures
        is_group_list(g.update(pos, (x.0, (g[pos].1 + x.1) as u64)), items.push(x)),
{
    reveal(is_group_list);
    let g2 = g.update(pos, (x.0, (g[pos].1 + x.1) as u64));
    let i2 = items.push(x);
    assert(i2.drop_last() =~= items);
    assert forall|i: int| 0 <= i < g2.len() implies (#[trigger] g2[i]).1 == key_total(i2, g2[i].0) && has_gkey(
        i2,
        g2[i].0,
    ) by {
        assert(g2[i].0 == g[i].0);
        let w = choose|w: int| 0 <= w < items.len() && (#[trigger] items[w]).0 == g[i].0;
        assert(i2[w] == items[w]);
        if i != pos {
            lemma_gkey_facts(g[i].0, g[pos].0, g[pos].0);
            if i < pos {
                assert(gkey_lt(g[i].0, g[pos].0));
            } else {
                assert(gkey_lt(g[pos].0, g[i].0));
            }
            assert(g[i].0 != x.0);
        }
    }
    assert forall|k: int| 0 <= k < i2.len() implies has_gkey(g2, (#[trigger] i2[k]).0) by {
        if k < items.len() {
            assert(i2[k] == items[k]);
            let w = choose|w: int| 0 <= w < g.len() && (#[trigger] g[w]).0 == items[k].0;
            assert(g2[w].0 == g[w].0);
        } else {
            assert(g2[pos].0 == x.0);
        }
    }
    assert forall|i: int, j: int| 0 <= i < j < g2.len() implies gkey_lt(#[trigger] g2[i].0, #[trigger] g2[j].0) by {
        assert(g2[i].0 == g[i].0 && g2[j].0 == g[j].0);
    }
}

proof fn lemma_group_insert(g: Seq<(GroupKey, u64)>, items: Seq<(GroupKey, u64)>, x: (GroupKey, u64), pos: int)
    requires
        is_group_list(g, items),
        0 <= pos <= g.len(),
        forall|i: int| 0 <= i < pos ==> gkey_lt(#[trigger] g[i].0, x.0),
        pos == g.len() || gkey_lt(x.0, g[pos].0),
    ensures
        is_group_list(g.insert(pos, x), items.push(x)),
{
    reveal(is_group_list);
    let g2 = g.insert(pos, x);
    let i2 = items.push(x);
    assert(i2.drop_last() =~= items);
    assert forall|i: int| 0 <= i < g.len() implies (#[trigger] g[i]).0 != x.0 by {
        lemma_gkey_facts(x.0, x.0, x.0);
        if i > pos {
            lemma_gkey_facts(x.0, g[pos].0, g[i].0);
        }
    }
    assert(!has_gkey(items, x.0)) by {
        if has_gkey(items, x.0) {
            let k = choose|k: int| 0 <= k < items.len() && (#[trigger] items[k]).0 == x.0;
            assert(has_gkey(g, items[k].0));
            let w = choose|w: int| 0 <= w < g.len() && (#[trigger] g[w]).0 == items[k].0;
            assert(g[w].0 != x.0);
        }
    }
    lemma_key_total_absent(items, x.0);
    assert forall|i: int, j: int| 0 <= i < j < g2.len() implies gkey_lt(#[trigger] g2[i].0, #[trigger] g2[j].0) by {
        if j < pos {
            assert(g2[i] == g[i] && g2[j] == g[j]);
        } else if j == pos {
            assert(g2[i] == g[i]);
        } else if i < pos {
            assert(g2[i] == g[i] && g2[j] == g[j - 1]);
            if j - 1 > pos {
                lemma_gkey_facts(x.0, g[pos].0, g[j - 1].0);
            }
            lemma_gkey_facts(g[i].0, x.0, g[j - 1].0);
        } else if i == pos {
            assert(g2[j] == g[j - 1]);
            if j - 1 > pos {
                lemma_gkey_facts(x.0, g[pos].0, g[j - 1].0);
            }
        } else {
            assert(g2[i] == g[i - 1] && g2[j] == g[j - 1]);
        }
    }
    assert forall|i: int| 0 <= i < g2.len() implies (#[trigger] g2[i]).1 == key_total(i2, g2[i].0) && has_gkey(
        i2,
        g2[i].0,
    ) by {
        if i == pos {
            assert(i2[items.len() as int] == x);
        } else {
            let b = if i < pos {
                i
            } else {
                i - 1
            };
            assert(g2[i] == g[b]);
            let w = choose|w: int| 0 <= w < items.len() && (#[trigger] items[w]).0 == g[b].0;
            assert(i2[w] == items[w]);
        }
    }
    assert forall|k: int| 0 <= k < i2.len() implies has_gkey(g2, (#[trigger] i2[k]).0) by {
        if k < items.len() {
            assert(i2[k] == items[k]);
            let w = choose|w: int| 0 <= w < g.len() && (#[trigger] g[w]).0 == items[k].0;
            if w < pos {
                assert(g2[w] == g[w]);
            } else {
                assert(g2[w + 1] == g[w]);
            }
        } else {
            assert(g2[pos] == x);
        }
    }
}

/// The rank of an object's origin in the key order.
pub open spec fn origin_rank(k: ObjectSourceKind) -> int {
    match k {
        ObjectSourceKind::Object => 0,
        ObjectSourceKind::Internal => 1,
    }
}

/// The key and size of an object contribution.
pub open spec fn object_entry(o: ObjectContribution) -> (GroupKey, u64) {
    ((o.object_path@, origin_rank(o.source_kind), None, opt_text(o.section_name)), o.size)
}

/// The keys and sizes of object contributions.
pub open spec fn object_entries(v: Seq<ObjectContribution>) -> Seq<(GroupKey, u64)> {
    v.map_values(|o: ObjectContribution| object_entry(o))
}

/// The key and size of an archive contribution.
pub open spec fn archive_entry(a: ArchiveContribution) -> (GroupKey, u64) {
    ((a.archive_path@, 0, opt_text(a.member_path), opt_text(a.section_name)), a.size)
}

/// The keys and sizes of archive contributions.
pub open spec fn archive_entries(v: Seq<ArchiveContribution>) -> Seq<(GroupKey, u64)> {
    v.map_values(|a: ArchiveContribution| archive_entry(a))
}

/// Every merged total fits in `u64`.
pub open spec fn group_totals_fit(items: Seq<(GroupKey, u64)>) -> bool {
    forall|k: int| 0 <= k < items.len() ==> key_total(items, (#[trigger] items[k]).0) <= u64::MAX
}

/// Merged object contributions rank by size, largest first, then by path.
impl SortKey for ObjectContribution {
    open spec fn key_le(self, other: Self) -> bool {
        self.size > other.size || (self.size == other.size && lex_le(self.object_path@, other.object_path@))
    }

    proof fn lemma_key_total(a: Self, b: Self) {
        lemma_lex_le_total(a.object_path@, b.object_path@);
    }

    proof fn lemma_key_transitive(a: Self, b: Self, c: Self) {
        if a.size == b.size && b.size == c.size {
            lemma_lex_le_transitive(a.object_path@, b.object_path@, c.object_path@);
        }
    }

    fn exec_key_le(&self, other: &Self) -> (r: bool) {
        if self.size != other.size {
            self.size > other.size
        } else {
            str_le(&self.object_path, &other.object_path)
        }
    }
}

/// Merged archive contributions rank by size, largest first, then by archive.
impl SortKey for ArchiveContribution {
    open spec fn key_le(self, other: Self) -> bool {
        self.size > other.size || (self.size == other.size && lex_le(self.archive_path@, other.archive_path@))
    }

    proof fn lemma_key_total(a: Self, b: Self) {
        lemma_lex_le_total(a.archive_path@, b.archive_path@);
    }

    proof fn lemma_key_transitive(a: Self, b: Self, c: Self) {
        if a.size == b.size && b.size == c.size {
            lemma_lex_le_transitive(a.archive_path@, b.archive_path@, c.archive_path@);
        }
    }

    fn exec_key_le(&self, other: &Self) -> (r: bool) {
        if self.size != other.size {
            self.size > other.size
        } else {
            str_le(&self.archive_path, &other.archive_path)
        }
    }
}

fn compare_opt_strings(a: &Option<String>, b: &Option<String>) -> (r: Precedence)
    ensures
        r == Precedence::Same <==> opt_text(*a) == opt_text(*b),
        r == Precedence::Before <==> opt_text_lt(opt_text(*a), opt_text(*b)),
        r == Precedence::After <==> opt_text_lt(opt_text(*b), opt_text(*a)),
{
    proof {
        lemma_opt_text_lt_facts(opt_text(*a), opt_text(*b), opt_text(*a));
        lemma_opt_text_lt_facts(opt_text(*b), opt_text(*a), opt_text(*b));
        if a is Some && b is Some {
            if lex_lt(a->0@, b->0@) {
                crate::text::lemma_lex_asymmetric(a->0@, b->0@);
            }
        }
    }
    match (a, b) {
        (None, None) => Precedence::Same,
        (None, Some(_)) => Precedence::Before,
        (Some(_), None) => Precedence::After,
        (Some(x), Some(y)) => compare_strings(x, y),
    }
}

fn compare_keys(
    a_path: &String,
    a_rank: u8,
    a_member: &Option<String>,
    a_section: &Option<String>,
    b_path: &String,
    b_rank: u8,
    b_member: &Option<String>,
    b_section: &Option<String>,
) -> (r: Precedence)
    ensures
        ({
            let ka: GroupKey = (a_path@, a_rank as int, opt_text(*a_member), opt_text(*a_section));
            let kb: GroupKey = (b_path@, b_rank as int, opt_text(*b_member), opt_text(*b_section));
            &&& r == Precedence::Same <==> ka == kb
            &&& r == Precedence::Before <==> gkey_lt(ka, kb)
            &&& r == Precedence::After <==> gkey_lt(kb, ka)
        }),
{
    let ghost ka: GroupKey = (a_path@, a_rank as int, opt_text(*a_member), opt_text(*a_section));
    let ghost kb: GroupKey = (b_path@, b_rank as int, opt_text(*b_member), opt_text(*b_section));
    proof {
        lemma_gkey_facts(ka, kb, ka);
        lemma_gkey_facts(kb, ka, kb);
    }
    match compare_strings(a_path, b_path) {
        Precedence::Before => return Precedence::Before,
        Precedence::After => return Precedence::After,
        Precedence::Same => {},
    }
    if a_rank < b_rank {
        return Precedence::Before;
    }
    if b_rank < a_rank {
        return Precedence::After;
    }
    match compare_opt_strings(a_member, b_member) {
        Precedence::Before => return Precedence::Before,
        Precedence::After => return Precedence::After,
        Precedence::Same => {},
    }
    compare_opt_strings(a_section, b_section)
}

fn rank_of(k: ObjectSourceKind) -> (r: u8)
    ensures
        r as int == origin_rank(k),
{
    match k {
        ObjectSourceKind::Object => 0,
        ObjectSourceKind::Internal => 1,
    }
}

/// Merges the contributions of each object to each section (objects of
/// different origin kept apart), then ranks them by size, largest first, and
/// by path; equal ranks keep the order of the merged keys.
pub fn aggregate_objects(items: &Vec<ObjectContribution>) -> (out: Vec<ObjectContribution>)
    requires
        group_totals_fit(object_entries(items@)),
    ensures
        exists|g: Seq<ObjectContribution>|
            #[trigger] is_group_list(object_entries(g), object_entries(items@)) && out@ == sorted_by_key(g),
{
    let ghost all = object_entries(items@);
    let mut groups: Vec<ObjectContribution> = Vec::new();
    let mut i: usize = 0;
    proof {
        reveal(is_group_list);
        assert(object_entries(groups@) =~= Seq::<(GroupKey, u64)>::empty());
        assert(all.take(0) =~= Seq::<(GroupKey, u64)>::empty());
    }
    while i < items.len()
        invariant
            0 <= i <= items.len(),
            all == object_entries(items@),
            group_totals_fit(all),
            is_group_list(object_entries(groups@), all.take(i as int)),
        decreases items.len() - i,
    {
        let item = &items[i];
        let ghost x = all[i as int];
        let ghost gv = object_entries(groups@);
        assert(all.take(i + 1) =~= all.take(i as int).push(x));
        let item_rank = rank_of(item.source_kind);
        let mut pos: usize = 0;
        while pos < groups.len() && compare_keys(
            &groups[pos].object_path,
            rank_of(groups[pos].source_kind),
            &None,
            &groups[pos].section_name,
            &item.object_path,
            item_rank,
            &None,
            &item.section_name,
        ) == Precedence::Before
            invariant
                0 <= pos <= groups.len(),
                gv == object_entries(groups@),
                x == object_entry(*item),
                item_rank as int == origin_rank(item.source_kind),
                forall|k: int| 0 <= k < pos ==> gkey_lt(#[trigger] gv[k].0, x.0),
            decreases groups.len() - pos,
        {
            assert(gv[pos as int] == object_entry(groups@[pos as int]));
            pos += 1;
        }
        let mut merged = false;
        if pos < groups.len() {
            assert(gv[pos as int] == object_entry(groups@[pos as int]));
            let c = compare_keys(
                &groups[pos].object_path,
                rank_of(groups[pos].source_kind),
                &None,
                &groups[pos].section_name,
                &item.object_path,
                item_rank,
                &None,
                &item.section_name,
            );
            if c == Precedence::Same {
                proof {
                    reveal(is_group_list);
                    lemma_key_total_prefix(all, x.0, i + 1);
                    assert(all[i as int] == x);
                    assert(key_total(all.take(i + 1), x.0) == key_total(all.take(i as int), x.0) + x.1) by {
                        assert(all.take(i + 1).drop_last() =~= all.take(i as int));
                    }
                    assert(key_total(all, all[i as int].0) <= u64::MAX);
                    lemma_group_merge(gv, all.take(i as int), x, pos as int);
                }
                let size = groups[pos].size + item.size;
                let updated = ObjectContribution {
                    object_path: copy_string(&groups[pos].object_path),
                    source_kind: groups[pos].source_kind,
                    section_name: copy_opt_string(&groups[pos].section_name),
                    size,
                };
                groups.set(pos, updated);
                assert(object_entries(groups@) =~= gv.update(pos as int, (x.0, size)));
                merged = true;
            } else {
                proof {
                    lemma_gkey_facts(gv[pos as int].0, x.0, x.0);
                }
            }
        }
        if !merged {
            proof {
                lemma_group_insert(gv, all.take(i as int), x, pos as int);
            }
            let fresh = ObjectContribution {
                object_path: copy_string(&item.object_path),
                source_kind: item.source_kind,
                section_name: copy_opt_string(&item.section_name),
                size: item.size,
            };
            groups.insert(pos, fresh);
            assert(object_entries(groups@) =~= gv.insert(pos as int, x));
        }
        i += 1;
    }
    assert(all.take(items.len() as int) =~= all);
    let out = sort_by_key(groups);
    out
}

/// Merges the contributions of each archive member to each section, then
/// ranks them by size, largest first, and by archive; equal ranks keep the
/// order of the merged keys.
pub fn aggregate_archives(items: &Vec<ArchiveContribution>) -> (out: Vec<ArchiveContribution>)
    requires
        group_totals_fit(archive_entries(items@)),
    ensures
        exists|g: Seq<ArchiveContribution>|
            #[trigger] is_group_list(archive_entries(g), archive_entries(items@)) && out@ == sorted_by_key(g),
{
    let ghost all = archive_entries(items@);
    let mut groups: Vec<ArchiveContribution> = Vec::new();
    let mut i: usize = 0;
    proof {
        reveal(is_group_list);
        assert(archive_entries(groups@) =~= Seq::<(GroupKey, u64)>::empty());
        assert(all.take(0) =~= Seq::<(GroupKey, u64)>::empty());
    }
    while i < items.len()
        invariant
            0 <= i <= items.len(),
            all == archive_entries(items@),
            group_totals_fit(all),
            is_group_list(archive_entries(groups@), all.take(i as int)),
        decreases items.len() - i,
    {
        let item = &items[i];
        let ghost x = all[i as int];
        let ghost gv = archive_entries(groups@);
        assert(all.take(i + 1) =~= all.take(i as int).push(x));
        let mut pos: usize = 0;
        while pos < groups.len() && compare_keys(
            &groups[pos].archive_path,
            0,
            &groups[pos].member_path,
            &groups[pos].section_name,
            &item.archive_path,
            0,
            &item.member_path,
            &item.section_name,
        ) == Precedence::Before
            invariant
                0 <= pos <= groups.len(),
                gv == archive_entries(groups@),
                x == archive_entry(*item),
                forall|k: int| 0 <= k < pos ==> gkey_lt(#[trigger] gv[k].0, x.0),
            decreases groups.len() - pos,
        {
            assert(gv[pos as int] == archive_entry(groups@[pos as int]));
            pos += 1;
        }
        let mut merged = false;
        if pos < groups.len() {
            assert(gv[pos as int] == archive_entry(groups@[pos as int]));
            let c = compare_keys(
                &groups[pos].archive_path,
                0,
                &groups[pos].member_path,
                &groups[pos].section_name,
                &item.archive_path,
                0,
                &item.member_path,
                &item.section_name,
            );
            if c == Precedence::Same {
                proof {
                    reveal(is_group_list);
                    lemma_key_total_prefix(all, x.0, i + 1);
                    assert(all[i as int] == x);
                    assert(key_total(all.take(i + 1), x.0) == key_total(all.take(i as int), x.0) + x.1) by {
                        assert(all.take(i + 1).drop_last() =~= all.take(i as int));
                    }
                    assert(key_total(all, all[i as int].0) <= u64::MAX);
                    lemma_group_merge(gv, all.take(i as int), x, pos as int);
                }
                let size = groups[pos].size + item.size;
                let updated = ArchiveContribution {
                    archive_path: copy_string(&groups[pos].archive_path),
                    member_path: copy_opt_string(&groups[pos].member_path),
                    section_name: copy_opt_string(&groups[pos].section_name),
                    size,
                };
                groups.set(pos, updated);
                assert(archive_entries(groups@) =~= gv.update(pos as int, (x.0, size)));
                merged = true;
            } else {
                proof {
                    lemma_gkey_facts(gv[pos as int].0, x.0, x.0);
                }
            }
        }
        if !merged {
            proof {
                lemma_group_insert(gv, all.take(i as int), x, pos as int);
            }
            let fresh = ArchiveContribution {
                archive_path: copy_string(&item.archive_path),
                member_path: copy_opt_string(&item.member_path),
                section_name: copy_opt_string(&item.section_name),
                size: item.size,
            };
            groups.insert(pos, fresh);
            assert(archive_entries(groups@) =~= gv.insert(pos as int, x));
        }
        i += 1;
    }
    assert(all.take(items.len() as int) =~= all);
    let out = sort_by_key(groups);
    out
}

} // verus!
