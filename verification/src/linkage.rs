//! Why an object, symbol or section ended up in the image: the linkage graph
//! and the evidence that explains an entry.
use vstd::prelude::*;
use crate::diff::{first_n, growth, top_increases};
use crate::model::{
    ArchiveContribution, DiffEntry, DiffResult, LinkerScriptInfo, ObjectContribution, ObjectSourceKind, SectionInfo,
    SectionPlacement, SymbolInfo,
};
use crate::text::{
    opt_text,
    chars_ends_with, chars_of, chars_replace, chars_split_once, dec, first_match, hex, is_suffix,
    lemma_first_match_found, lemma_first_match_none, push_all, push_dec, push_hex, push_str_chars,
    replace_char, slice_chars, lex_lt, lex_precedence, lemma_lex_irreflexive, lemma_lex_total,
    lemma_lex_transitive, lemma_lex_asymmetric, compare_strings, Precedence, split_once_seq, str_eq, string_of, chars_eq, join, join_chars, views,
};

verus! {

/// The linkage graph of an image.
#[derive(Debug, Clone, PartialEq, Eq)]
pub struct LinkageGraph {
    pub nodes: Vec<LinkageNode>,
    pub edges: Vec<LinkageEdge>,
}

/// One node of the linkage graph.
#[derive(Debug, Clone, PartialEq, Eq)]
pub struct LinkageNode {
    pub id: String,
    pub kind: LinkageNodeKind,
    pub name: String,
}

/// What a node of the linkage graph stands for.
#[derive(Debug, Clone, Copy, PartialEq, Eq, PartialOrd, Ord, Structural)]
pub enum LinkageNodeKind {
    Archive,
    Object,
    Section,
    Symbol,
    Region,
    EntryRoot,
}

/// One edge of the linkage graph.
#[derive(Debug, Clone, PartialEq, Eq)]
pub struct LinkageEdge {
    pub from: String,
    pub to: String,
    pub kind: LinkageEdgeKind,
    pub detail: Option<String>,
}

/// Why one node leads to another.
#[derive(Debug, Clone, Copy, PartialEq, Eq, PartialOrd, Ord, Structural)]
pub enum LinkageEdgeKind {
    Reference,
    Resolution,
    ArchivePull,
    ScriptPlacement,
    EntryRoot,
}

/// Why an entry is linked.
#[derive(Debug, Clone, PartialEq, Eq)]
pub struct ExplainResult {
    pub target: String,
    pub kind: ExplainTargetKind,
    pub summary: String,
    pub confidence: Confidence,
    pub evidence: Vec<Evidence>,
}

/// What kind of entry is explained.
#[derive(Debug, Clone, Copy, PartialEq, Eq, PartialOrd, Ord, Structural)]
pub enum ExplainTargetKind {
    Symbol,
    Object,
    Section,
}

/// One piece of evidence for an explanation.
#[derive(Debug, Clone, PartialEq, Eq)]
pub struct Evidence {
    pub kind: EvidenceKind,
    pub detail: String,
    pub source: String,
}

/// Where a piece of evidence comes from.
#[derive(Debug, Clone, Copy, PartialEq, Eq, PartialOrd, Ord, Structural)]
pub enum EvidenceKind {
    MapContribution,
    ArchivePull,
    SymbolPlacement,
    ScriptPlacement,
    EntryRoot,
    CandidateReference,
}

/// How sure an explanation is.
#[derive(Debug, Clone, Copy, PartialEq, Eq, PartialOrd, Ord, Structural)]
pub enum Confidence {
    Low,
    Medium,
    High,
}

impl Confidence {
    /// The name of the confidence level.
    pub fn as_text(&self) -> (r: String)
        ensures
            r@ == match *self {
                Confidence::Low => "low"@,
                Confidence::Medium => "medium"@,
                Confidence::High => "high"@,
            },
    {
        match self {
            Confidence::Low => crate::text::string_from("low"),
            Confidence::Medium => crate::text::string_from("medium"),
            Confidence::High => crate::text::string_from("high"),
        }
    }
}

/// The explanations of the largest symbols and objects.
#[derive(Debug, Clone, PartialEq, Eq, Default)]
pub struct WhyLinkedCollection {
    pub top_symbols: Vec<ExplainResult>,
    pub top_objects: Vec<ExplainResult>,
}


/// What the linkage explanations read of an analysed image.
#[derive(Debug, Clone, PartialEq, Eq)]
pub struct ImageFacts {
    pub sections: Vec<SectionInfo>,
    pub symbols: Vec<SymbolInfo>,
    pub object_contributions: Vec<ObjectContribution>,
    pub archive_contributions: Vec<ArchiveContribution>,
    pub linker_script: Option<LinkerScriptInfo>,
}

/// A piece of evidence as text: its kind, its detail and its source.
pub type EvidenceText = (EvidenceKind, Seq<char>, Seq<char>);

/// An explanation as text: target, kind, summary, confidence and evidence.
pub type ExplainText = (Seq<char>, ExplainTargetKind, Seq<char>, Confidence, Seq<EvidenceText>);

impl View for Evidence {
    type V = EvidenceText;

    open spec fn view(&self) -> EvidenceText {
        (self.kind, self.detail@, self.source@)
    }
}

/// The texts of a list of evidence.
pub open spec fn evidence_texts(v: Seq<Evidence>) -> Seq<EvidenceText> {
    v.map_values(|e: Evidence| e@)
}

impl View for ExplainResult {
    type V = ExplainText;

    open spec fn view(&self) -> ExplainText {
        (self.target@, self.kind, self.summary@, self.confidence, evidence_texts(self.evidence@))
    }
}

/// The rank of a confidence level in its order.
pub open spec fn confidence_rank(c: Confidence) -> int {
    match c {
        Confidence::Low => 0,
        Confidence::Medium => 1,
        Confidence::High => 2,
    }
}

/// The higher of two confidence levels.
pub open spec fn confidence_max(a: Confidence, b: Confidence) -> Confidence {
    if confidence_rank(a) >= confidence_rank(b) {
        a
    } else {
        b
    }
}

fn max_confidence(a: Confidence, b: Confidence) -> (r: Confidence)
    ensures
        r == confidence_max(a, b),
{
    let ra: u8 = match a {
        Confidence::Low => 0,
        Confidence::Medium => 1,
        Confidence::High => 2,
    };
    let rb: u8 = match b {
        Confidence::Low => 0,
        Confidence::Medium => 1,
        Confidence::High => 2,
    };
    if ra >= rb {
        a
    } else {
        b
    }
}

/// The symbols taken for entry points or roots of the image.
pub open spec fn is_entry_name(name: Seq<char>) -> bool {
    name == "_start"@ || name == "__start"@ || name == "Reset_Handler"@ || name == "main"@
}

/// Whether `name` is taken for an entry point or root of the image.
pub fn is_entry_symbol(name: &str) -> (r: bool)
    ensures
        r == is_entry_name(name@),
{
    str_eq(name, "_start") || str_eq(name, "__start") || str_eq(name, "Reset_Handler") || str_eq(
        name,
        "main",
    )
}

/// What a linker-script placement says.
pub open spec fn script_detail_text(p: SectionPlacement) -> Seq<char> {
    if p.keep {
        "Linker script places "@ + p.section_name@ + " in "@ + p.region_name@
            + " and marks it with KEEP"@
    } else {
        "Linker script places "@ + p.section_name@ + " in "@ + p.region_name@
    }
}

/// The evidence of a linker-script placement.
pub open spec fn script_evidence_text(p: SectionPlacement) -> EvidenceText {
    (EvidenceKind::ScriptPlacement, script_detail_text(p), "linker_script"@)
}

fn script_detail(p: &SectionPlacement) -> (r: String)
    ensures
        r@ == script_detail_text(*p),
{
    let mut v: Vec<char> = Vec::new();
    push_str_chars(&mut v, "Linker script places ");
    push_str_chars(&mut v, p.section_name.as_str());
    push_str_chars(&mut v, " in ");
    push_str_chars(&mut v, p.region_name.as_str());
    if p.keep {
        push_str_chars(&mut v, " and marks it with KEEP");
    }
    string_of(&v)
}

fn make_evidence(kind: EvidenceKind, detail: Vec<char>, source: &str) -> (e: Evidence)
    ensures
        e@ == (kind, detail@, source@),
{
    Evidence { kind, detail: string_of(&detail), source: source.to_owned() }
}

fn script_evidence(p: &SectionPlacement) -> (e: Evidence)
    ensures
        e@ == script_evidence_text(*p),
{
    Evidence { kind: EvidenceKind::ScriptPlacement, detail: script_detail(p), source: "linker_script".to_owned() }
}

/// Whether a placement is the one of the named section.
pub open spec fn places(name: Seq<char>) -> spec_fn(SectionPlacement) -> bool {
    |p: SectionPlacement| p.section_name@ == name
}

/// The placement the linker script gives the named section, if any.
pub open spec fn placement_for(lds: Option<LinkerScriptInfo>, name: Seq<char>) -> Option<SectionPlacement> {
    match lds {
        Some(l) => first_match(l.placements@, places(name)),
        None => None,
    }
}

/// Finds the placement of the named section; returns its index in the script's placements.
fn placement_for_section(lds: &Option<LinkerScriptInfo>, name: &str) -> (r: Option<usize>)
    ensures
        match r {
            Some(i) => lds is Some && i < lds->0.placements@.len() && placement_for(*lds, name@)
                == Some(lds->0.placements@[i as int]),
            None => placement_for(*lds, name@) is None,
        },
{
    match lds {
        None => None,
        Some(l) => {
            let mut i: usize = 0;
            while i < l.placements.len()
                invariant
                    0 <= i <= l.placements.len(),
                    *lds == Some(*l),
                    forall|k: int| 0 <= k < i ==> !places(name@)(#[trigger] l.placements@[k]),
                decreases l.placements.len() - i,
            {
                if str_eq(l.placements[i].section_name.as_str(), name) {
                    assert(places(name@)(l.placements@[i as int]));
                    proof {
                        lemma_first_match_found(l.placements@, places(name@), i as int);
                        assert(*lds == Some(*l));
                    }
                    return Some(i);
                }
                i += 1;
            }
            proof {
                lemma_first_match_none(l.placements@, places(name@));
                assert(*lds == Some(*l));
            }
            None
        }
    }
}

// ---------------------------------------------------------------------------
// Sections
// ---------------------------------------------------------------------------
/// Whether a section has the given name.
pub open spec fn section_named(name: Seq<char>) -> spec_fn(SectionInfo) -> bool {
    |s: SectionInfo| s.name@ == name
}

fn find_section(sections: &Vec<SectionInfo>, name: &str) -> (r: Option<usize>)
    ensures
        match r {
            Some(i) => i < sections@.len() && first_match(sections@, section_named(name@)) == Some(
                sections@[i as int],
            ),
            None => first_match(sections@, section_named(name@)) is None,
        },
{
    let mut i: usize = 0;
    while i < sections.len()
        invariant
            0 <= i <= sections.len(),
            forall|k: int| 0 <= k < i ==> !section_named(name@)(#[trigger] sections@[k]),
        decreases sections.len() - i,
    {
        if str_eq(sections[i].name.as_str(), name) {
            assert(section_named(name@)(sections@[i as int]));
            proof {
                lemma_first_match_found(sections@, section_named(name@), i as int);
            }
            return Some(i);
        }
        i += 1;
    }
    proof {
        lemma_first_match_none(sections@, section_named(name@));
    }
    None
}

/// Why the named section is linked, if the image has it.
pub open spec fn explain_section_text(img: ImageFacts, name: Seq<char>) -> Option<ExplainText> {
    match first_match(img.sections@, section_named(name)) {
        None => None,
        Some(sec) => {
            let e0: EvidenceText = (
                EvidenceKind::MapContribution,
                "Section "@ + sec.name@ + " is present at 0x"@ + hex(sec.addr as nat) + " with "@
                    + dec(sec.size as nat) + " bytes"@,
                "elf"@,
            );
            match placement_for(img.linker_script, name) {
                Some(p) => Some(
                    (
                        name,
                        ExplainTargetKind::Section,
                        "Section "@ + name + " is placed in "@ + p.region_name@
                            + " by the linker script"@,
                        if p.keep {
                            Confidence::High
                        } else {
                            Confidence::Medium
                        },
                        seq![e0, script_evidence_text(p)],
                    ),
                ),
                None => Some(
                    (
                        name,
                        ExplainTargetKind::Section,
                        "Section "@ + name + " is linked because it exists in the final image"@,
                        Confidence::Low,
                        seq![e0],
                    ),
                ),
            }
        },
    }
}

/// Explains why the named section is in the image: it is there, and the
/// linker script may place it (with `KEEP`, the explanation is sure).
pub fn explain_section(current: &ImageFacts, section_name: &str) -> (r: Option<ExplainResult>)
    ensures
        match r {
            Some(x) => explain_section_text(*current, section_name@) == Some(x@),
            None => explain_section_text(*current, section_name@) is None,
        },
{
    let i = match find_section(&current.sections, section_name) {
        Some(i) => i,
        None => return None,
    };
    let section = &current.sections[i];
    let mut d: Vec<char> = Vec::new();
    push_str_chars(&mut d, "Section ");
    push_str_chars(&mut d, section.name.as_str());
    push_str_chars(&mut d, " is present at 0x");
    push_hex(&mut d, section.addr);
    push_str_chars(&mut d, " with ");
    push_dec(&mut d, section.size);
    push_str_chars(&mut d, " bytes");
    let mut evidence: Vec<Evidence> = Vec::new();
    evidence.push(make_evidence(EvidenceKind::MapContribution, d, "elf"));
    let mut summary: Vec<char> = Vec::new();
    push_str_chars(&mut summary, "Section ");
    push_str_chars(&mut summary, section_name);
    let confidence;
    match placement_for_section(&current.linker_script, section_name) {
        Some(pi) => {
            let placement = &current.linker_script.as_ref().unwrap().placements[pi];
            evidence.push(script_evidence(placement));
            push_str_chars(&mut summary, " is placed in ");
            push_str_chars(&mut summary, placement.region_name.as_str());
            push_str_chars(&mut summary, " by the linker script");
            confidence = if placement.keep {
                Confidence::High
            } else {
                Confidence::Medium
            };
        },
        None => {
            push_str_chars(&mut summary, " is linked because it exists in the final image");
            confidence = Confidence::Low;
        },
    }
    let r = ExplainResult {
        target: section_name.to_owned(),
        kind: ExplainTargetKind::Section,
        summary: string_of(&summary),
        confidence,
        evidence,
    };
    let ghost expected = explain_section_text(*current, section_name@)->0;
    assert(evidence_texts(r.evidence@) =~= expected.4);
    Some(r)
}

// ---------------------------------------------------------------------------
// Symbols
// ---------------------------------------------------------------------------
/// Whether a symbol is the one asked for, by raw or by demangled name.
pub open spec fn symbol_named(q: Seq<char>) -> spec_fn(SymbolInfo) -> bool {
    |s: SymbolInfo| s.name@ == q || (s.demangled_name is Some && s.demangled_name->0@ == q)
}

/// Whether an object contribution goes to the named section.
pub open spec fn contributes_to(sec: Seq<char>) -> spec_fn(ObjectContribution) -> bool {
    |o: ObjectContribution| o.section_name is Some && o.section_name->0@ == sec
}

/// The name a symbol is shown under.
pub open spec fn shown_name(s: SymbolInfo) -> Seq<char> {
    match s.demangled_name {
        Some(d) => d@,
        None => s.name@,
    }
}

/// An optional text, or a stand-in when it is missing.
pub open spec fn text_or(o: Option<String>, missing: Seq<char>) -> Seq<char> {
    match o {
        Some(t) => t@,
        None => missing,
    }
}

/// The evidence that the symbol is in the ELF symbol table.
pub open spec fn symbol_placement_text(s: SymbolInfo) -> EvidenceText {
    (
        EvidenceKind::SymbolPlacement,
        "Symbol "@ + s.name@ + " is present in "@ + text_or(s.section_name, "<unknown section>"@)
            + " at 0x"@ + hex(s.addr as nat) + " ("@ + dec(s.size as nat) + " bytes)"@,
        "elf"@,
    )
}

/// Evidence, summary and confidence of a symbol once its object is known.
pub open spec fn symbol_object_stage(img: ImageFacts, s: SymbolInfo, sec: Seq<char>) -> (
    Seq<EvidenceText>,
    Seq<char>,
    Confidence,
) {
    let e0 = seq![symbol_placement_text(s)];
    match s.object_path {
        Some(op) => (
            e0.push(
                (EvidenceKind::MapContribution, "ELF symbol metadata points to object "@ + op@, "elf"@),
            ),
            shown_name(s) + " is linked through "@ + op@ + " and resolves into "@ + sec,
            Confidence::High,
        ),
        None => match first_match(img.object_contributions@, contributes_to(sec)) {
            Some(primary) => (
                e0.push(
                    (
                        EvidenceKind::CandidateReference,
                        "Section "@ + sec + " receives "@ + dec(primary.size as nat)
                            + " bytes from candidate object "@ + primary.object_path@,
                        "map"@,
                    ),
                ),
                shown_name(s) + " resolves into "@ + sec + ". Candidate contributing object: "@
                    + primary.object_path@,
                Confidence::Low,
            ),
            None => (
                e0,
                shown_name(s) + " is linked because it appears in the final ELF symbol table"@,
                Confidence::Medium,
            ),
        },
    }
}

/// Evidence, summary and confidence of a symbol before the entry-point check.
pub open spec fn symbol_section_stage(img: ImageFacts, s: SymbolInfo) -> (
    Seq<EvidenceText>,
    Seq<char>,
    Confidence,
) {
    match s.section_name {
        None => (
            seq![symbol_placement_text(s)],
            shown_name(s) + " is linked because it appears in the final ELF symbol table"@,
            Confidence::Medium,
        ),
        Some(sec) => {
            let (e, summary, c) = symbol_object_stage(img, s, sec@);
            match placement_for(img.linker_script, sec@) {
                Some(p) => (
                    e.push(script_evidence_text(p)),
                    summary,
                    if p.keep {
                        confidence_max(c, Confidence::Medium)
                    } else {
                        c
                    },
                ),
                None => (e, summary, c),
            }
        },
    }
}

/// Why the symbol asked for is linked, if the image has it.
pub open spec fn explain_symbol_text(img: ImageFacts, q: Seq<char>) -> Option<ExplainText> {
    match first_match(img.symbols@, symbol_named(q)) {
        None => None,
        Some(s) => {
            let (e, summary, c) = symbol_section_stage(img, s);
            if is_entry_name(s.name@) {
                Some(
                    (
                        q,
                        ExplainTargetKind::Symbol,
                        summary,
                        Confidence::High,
                        e.push(
                            (
                                EvidenceKind::EntryRoot,
                                s.name@ + " matches a common entry/root symbol heuristic"@,
                                "heuristic"@,
                            ),
                        ),
                    ),
                )
            } else {
                Some((q, ExplainTargetKind::Symbol, summary, c, e))
            }
        },
    }
}

fn find_symbol(symbols: &Vec<SymbolInfo>, q: &str) -> (r: Option<usize>)
    ensures
        match r {
            Some(i) => i < symbols@.len() && first_match(symbols@, symbol_named(q@)) == Some(
                symbols@[i as int],
            ),
            None => first_match(symbols@, symbol_named(q@)) is None,
        },
{
    let mut i: usize = 0;
    while i < symbols.len()
        invariant
            0 <= i <= symbols.len(),
            forall|k: int| 0 <= k < i ==> !symbol_named(q@)(#[trigger] symbols@[k]),
        decreases symbols.len() - i,
    {
        let s = &symbols[i];
        let hit = str_eq(s.name.as_str(), q) || match &s.demangled_name {
            Some(d) => str_eq(d.as_str(), q),
            None => false,
        };
        if hit {
            assert(symbol_named(q@)(symbols@[i as int]));
            proof {
                lemma_first_match_found(symbols@, symbol_named(q@), i as int);
            }
            return Some(i);
        }
        assert(!symbol_named(q@)(symbols@[i as int]));
        i += 1;
    }
    proof {
        lemma_first_match_none(symbols@, symbol_named(q@));
    }
    None
}

fn find_contribution(objects: &Vec<ObjectContribution>, sec: &str) -> (r: Option<usize>)
    ensures
        match r {
            Some(i) => i < objects@.len() && first_match(objects@, contributes_to(sec@)) == Some(
                objects@[i as int],
            ),
            None => first_match(objects@, contributes_to(sec@)) is None,
        },
{
    let mut i: usize = 0;
    while i < objects.len()
        invariant
            0 <= i <= objects.len(),
            forall|k: int| 0 <= k < i ==> !contributes_to(sec@)(#[trigger] objects@[k]),
        decreases objects.len() - i,
    {
        let hit = match &objects[i].section_name {
            Some(n) => str_eq(n.as_str(), sec),
            None => false,
        };
        if hit {
            assert(contributes_to(sec@)(objects@[i as int]));
            proof {
                lemma_first_match_found(objects@, contributes_to(sec@), i as int);
            }
            return Some(i);
        }
        assert(!contributes_to(sec@)(objects@[i as int]));
        i += 1;
    }
    proof {
        lemma_first_match_none(objects@, contributes_to(sec@));
    }
    None
}

fn push_shown_name(v: &mut Vec<char>, s: &SymbolInfo)
    ensures
        final(v)@ == old(v)@ + shown_name(*s),
{
    match &s.demangled_name {
        Some(d) => push_str_chars(v, d.as_str()),
        None => push_str_chars(v, s.name.as_str()),
    }
}

fn push_text_or(v: &mut Vec<char>, o: &Option<String>, missing: &str)
    ensures
        final(v)@ == old(v)@ + text_or(*o, missing@),
{
    match o {
        Some(t) => push_str_chars(v, t.as_str()),
        None => push_str_chars(v, missing),
    }
}

/// Explains why a symbol, asked for by raw or demangled name, is in the
/// image: where it lies, which object brings it and how sure that is.
pub fn explain_symbol(current: &ImageFacts, symbol_name: &str) -> (r: Option<ExplainResult>)
    ensures
        match r {
            Some(x) => explain_symbol_text(*current, symbol_name@) == Some(x@),
            None => explain_symbol_text(*current, symbol_name@) is None,
        },
{
    let si = match find_symbol(&current.symbols, symbol_name) {
        Some(i) => i,
        None => return None,
    };
    let symbol = &current.symbols[si];
    let ghost s = current.symbols@[si as int];
    let mut d0: Vec<char> = Vec::new();
    push_str_chars(&mut d0, "Symbol ");
    push_str_chars(&mut d0, symbol.name.as_str());
    push_str_chars(&mut d0, " is present in ");
    push_text_or(&mut d0, &symbol.section_name, "<unknown section>");
    push_str_chars(&mut d0, " at 0x");
    push_hex(&mut d0, symbol.addr);
    push_str_chars(&mut d0, " (");
    push_dec(&mut d0, symbol.size);
    push_str_chars(&mut d0, " bytes)");
    let mut evidence: Vec<Evidence> = Vec::new();
    evidence.push(make_evidence(EvidenceKind::SymbolPlacement, d0, "elf"));
    let mut confidence = Confidence::Medium;
    let mut summary: Vec<char> = Vec::new();
    push_shown_name(&mut summary, symbol);
    push_str_chars(&mut summary, " is linked because it appears in the final ELF symbol table");
    assert(evidence_texts(evidence@) =~= seq![symbol_placement_text(s)]);

    if let Some(section_name) = &symbol.section_name {
        let ghost sec = section_name@;
        if let Some(object_path) = &symbol.object_path {
            let mut d: Vec<char> = Vec::new();
            push_str_chars(&mut d, "ELF symbol metadata points to object ");
            push_str_chars(&mut d, object_path.as_str());
            evidence.push(make_evidence(EvidenceKind::MapContribution, d, "elf"));
            summary = Vec::new();
            push_shown_name(&mut summary, symbol);
            push_str_chars(&mut summary, " is linked through ");
            push_str_chars(&mut summary, object_path.as_str());
            push_str_chars(&mut summary, " and resolves into ");
            push_str_chars(&mut summary, section_name.as_str());
            confidence = Confidence::High;
        } else {
            match find_contribution(&current.object_contributions, section_name.as_str()) {
                Some(pi) => {
                    let primary = &current.object_contributions[pi];
                    let mut d: Vec<char> = Vec::new();
                    push_str_chars(&mut d, "Section ");
                    push_str_chars(&mut d, section_name.as_str());
                    push_str_chars(&mut d, " receives ");
                    push_dec(&mut d, primary.size);
                    push_str_chars(&mut d, " bytes from candidate object ");
                    push_str_chars(&mut d, primary.object_path.as_str());
                    evidence.push(make_evidence(EvidenceKind::CandidateReference, d, "map"));
                    summary = Vec::new();
                    push_shown_name(&mut summary, symbol);
                    push_str_chars(&mut summary, " resolves into ");
                    push_str_chars(&mut summary, section_name.as_str());
                    push_str_chars(&mut summary, ". Candidate contributing object: ");
                    push_str_chars(&mut summary, primary.object_path.as_str());
                    confidence = Confidence::Low;
                },
                None => {},
            }
        }
        assert(evidence_texts(evidence@) =~= symbol_object_stage(*current, s, sec).0);
        assert(summary@ =~= symbol_object_stage(*current, s, sec).1);
        match placement_for_section(&current.linker_script, section_name.as_str()) {
            Some(pi) => {
                let placement = &current.linker_script.as_ref().unwrap().placements[pi];
                evidence.push(script_evidence(placement));
                if placement.keep {
                    confidence = max_confidence(confidence, Confidence::Medium);
                }
            },
            None => {},
        }
    }
    assert(evidence_texts(evidence@) =~= symbol_section_stage(*current, s).0);
    assert(summary@ =~= symbol_section_stage(*current, s).1);
    if is_entry_symbol(symbol.name.as_str()) {
        let mut d: Vec<char> = Vec::new();
        push_str_chars(&mut d, symbol.name.as_str());
        push_str_chars(&mut d, " matches a common entry/root symbol heuristic");
        evidence.push(make_evidence(EvidenceKind::EntryRoot, d, "heuristic"));
        confidence = Confidence::High;
    }
    let r = ExplainResult {
        target: symbol_name.to_owned(),
        kind: ExplainTargetKind::Symbol,
        summary: string_of(&summary),
        confidence,
        evidence,
    };
    let ghost expected = explain_symbol_text(*current, symbol_name@)->0;
    assert(evidence_texts(r.evidence@) =~= expected.4);
    Some(r)
}

// ---------------------------------------------------------------------------
// Objects
// ---------------------------------------------------------------------------
/// The form an object name is compared in: `archive(member)` becomes
/// `archive:member`, and back slashes become slashes otherwise.
pub open spec fn normalize_query(v: Seq<char>) -> Seq<char> {
    match split_once_seq(v, seq!['(']) {
        Some((archive, rest)) => if is_suffix(seq![')'], rest) {
            archive + seq![':'] + rest.take(rest.len() - 1)
        } else {
            replace_char(v, '\\', seq!['/'])
        },
        None => replace_char(v, '\\', seq!['/']),
    }
}

/// The compared form of an object name.
pub fn normalize_object_query(value: &str) -> (r: Vec<char>)
    ensures
        r@ == normalize_query(value@),
{
    let v = chars_of(value);
    let open: Vec<char> = vec!['('];
    let close: Vec<char> = vec![')'];
    assert(open@ =~= seq!['(']);
    assert(close@ =~= seq![')']);
    match chars_split_once(&v, &open) {
        Some((archive, rest)) => {
            if chars_ends_with(&rest, &close) {
                let mut out = archive;
                out.push(':');
                let member = slice_chars(&rest, 0, rest.len() - 1);
                push_all(&mut out, &member);
                assert(member@ =~= rest@.take(rest@.len() - 1));
                return out;
            }
        },
        None => {},
    }
    let slash: Vec<char> = vec!['/'];
    assert(slash@ =~= seq!['/']);
    chars_replace(&v, '\\', &slash)
}

/// The compared form of an archive member's name.
pub open spec fn archive_member_query(item: ArchiveContribution) -> Seq<char> {
    match item.member_path {
        Some(m) => normalize_query(item.archive_path@ + "("@ + m@ + ")"@),
        None => normalize_query(item.archive_path@),
    }
}

fn normalize_archive_member(item: &ArchiveContribution) -> (r: Vec<char>)
    ensures
        r@ == archive_member_query(*item),
{
    match &item.member_path {
        Some(m) => {
            let mut v: Vec<char> = Vec::new();
            push_str_chars(&mut v, item.archive_path.as_str());
            push_str_chars(&mut v, "(");
            push_str_chars(&mut v, m.as_str());
            push_str_chars(&mut v, ")");
            let t = string_of(&v);
            normalize_object_query(t.as_str())
        },
        None => normalize_object_query(item.archive_path.as_str()),
    }
}

/// The archive members whose name matches the compared query, in order.
pub open spec fn archive_hits(s: Seq<ArchiveContribution>, q: Seq<char>) -> Seq<ArchiveContribution>
    decreases s.len(),
{
    if s.len() == 0 {
        s
    } else if archive_member_query(s.last()) == q {
        archive_hits(s.drop_last(), q).push(s.last())
    } else {
        archive_hits(s.drop_last(), q)
    }
}

/// The object contributions whose name matches the compared query, in order.
pub open spec fn object_hits(s: Seq<ObjectContribution>, q: Seq<char>) -> Seq<ObjectContribution>
    decreases s.len(),
{
    if s.len() == 0 {
        s
    } else if normalize_query(s.last().object_path@) == q {
        object_hits(s.drop_last(), q).push(s.last())
    } else {
        object_hits(s.drop_last(), q)
    }
}

/// The placement evidence for an optional section name.
pub open spec fn placement_evidence(sec: Option<String>, lds: Option<LinkerScriptInfo>) -> Seq<EvidenceText> {
    match sec {
        Some(n) => match placement_for(lds, n@) {
            Some(p) => seq![script_evidence_text(p)],
            None => Seq::empty(),
        },
        None => Seq::empty(),
    }
}

/// Whether the section an entry goes to is kept by the linker script.
pub open spec fn kept_section(sec: Option<String>, lds: Option<LinkerScriptInfo>) -> bool {
    match sec {
        Some(n) => match placement_for(lds, n@) {
            Some(p) => p.keep,
            None => false,
        },
        None => false,
    }
}

/// The summary part of one archive member: its section and its size.
pub open spec fn archive_part(h: ArchiveContribution) -> Seq<char> {
    text_or(h.section_name, "<unknown>"@) + " ("@ + dec(h.size as nat) + ")"@
}

/// The evidence of archive members.
pub open spec fn archive_evidence(hits: Seq<ArchiveContribution>, lds: Option<LinkerScriptInfo>) -> Seq<EvidenceText>
    decreases hits.len(),
{
    if hits.len() == 0 {
        Seq::empty()
    } else {
        let h = hits.last();
        archive_evidence(hits.drop_last(), lds) + seq![
            (
                EvidenceKind::ArchivePull,
                "Archive "@ + h.archive_path@ + " member "@ + text_or(h.member_path, "<unknown>"@)
                    + " contributes "@ + dec(h.size as nat) + " bytes to "@ + text_or(
                    h.section_name,
                    "<unknown section>"@,
                ),
                "map"@,
            ),
        ] + placement_evidence(h.section_name, lds)
    }
}

/// The evidence of direct object contributions.
pub open spec fn object_evidence(hits: Seq<ObjectContribution>, lds: Option<LinkerScriptInfo>) -> Seq<EvidenceText>
    decreases hits.len(),
{
    if hits.len() == 0 {
        Seq::empty()
    } else {
        let h = hits.last();
        object_evidence(hits.drop_last(), lds) + seq![
            (
                EvidenceKind::MapContribution,
                h.object_path@ + " contributes "@ + dec(h.size as nat) + " bytes to "@ + text_or(
                    h.section_name,
                    "<unknown section>"@,
                ),
                "map"@,
            ),
        ] + placement_evidence(h.section_name, lds)
    }
}

/// Whether some of the contributions goes to a section the linker script keeps.
pub open spec fn any_kept(hits: Seq<ObjectContribution>, lds: Option<LinkerScriptInfo>) -> bool
    decreases hits.len(),
{
    hits.len() > 0 && (any_kept(hits.drop_last(), lds) || kept_section(hits.last().section_name, lds))
}

/// Whether some of the contributions names its section.
pub open spec fn any_with_section(hits: Seq<ObjectContribution>) -> bool
    decreases hits.len(),
{
    hits.len() > 0 && (any_with_section(hits.drop_last()) || hits.last().section_name is Some)
}

/// Why the object asked for is linked, if the map records it.
pub open spec fn explain_object_text(img: ImageFacts, q: Seq<char>) -> Option<ExplainText> {
    let norm = normalize_query(q);
    let ah = archive_hits(img.archive_contributions@, norm);
    if ah.len() > 0 {
        Some(
            (
                q,
                ExplainTargetKind::Object,
                q + " is linked because the map records archive member contributions to "@ + join(
                    ah.map_values(|h: ArchiveContribution| archive_part(h)),
                    ", "@,
                ),
                Confidence::Medium,
                archive_evidence(ah, img.linker_script),
            ),
        )
    } else {
        let oh = object_hits(img.object_contributions@, norm);
        if oh.len() == 0 {
            None
        } else {
            Some(
                (
                    q,
                    ExplainTargetKind::Object,
                    if any_kept(oh, img.linker_script) {
                        q + " is retained by linker placement and contributes directly to the output image"@
                    } else {
                        q + " is linked because the map records direct contributions into the final image"@
                    },
                    if any_with_section(oh) {
                        Confidence::Medium
                    } else {
                        Confidence::Low
                    },
                    object_evidence(oh, img.linker_script),
                ),
            )
        }
    }
}

fn push_placement_evidence(evidence: &mut Vec<Evidence>, sec: &Option<String>, lds: &Option<LinkerScriptInfo>) -> (kept: bool)
    ensures
        evidence_texts(final(evidence)@) == evidence_texts(old(evidence)@) + placement_evidence(*sec, *lds),
        kept == kept_section(*sec, *lds),
{
    let ghost before = evidence@;
    match sec {
        Some(n) => match placement_for_section(lds, n.as_str()) {
            Some(pi) => {
                let placement = &lds.as_ref().unwrap().placements[pi];
                evidence.push(script_evidence(placement));
                assert(evidence_texts(evidence@) =~= evidence_texts(before) + placement_evidence(*sec, *lds));
                placement.keep
            },
            None => {
                assert(evidence_texts(evidence@) =~= evidence_texts(before) + placement_evidence(*sec, *lds));
                false
            },
        },
        None => {
            assert(evidence_texts(evidence@) =~= evidence_texts(before) + placement_evidence(*sec, *lds));
            false
        },
    }
}

/// Explains why an object file or archive member is in the image, from the
/// map's record of what it contributes and where the linker script puts it.
pub fn explain_object(current: &ImageFacts, query: &str) -> (r: Option<ExplainResult>)
    ensures
        match r {
            Some(x) => explain_object_text(*current, query@) == Some(x@),
            None => explain_object_text(*current, query@) is None,
        },
{
    let normalized = normalize_object_query(query);
    let ghost norm = normalized@;
    let ghost lds = current.linker_script;
    let archives = &current.archive_contributions;
    let mut parts: Vec<Vec<char>> = Vec::new();
    let mut evidence: Vec<Evidence> = Vec::new();
    let mut j: usize = 0;
    assert(archives@.take(0) =~= Seq::<ArchiveContribution>::empty());
    assert(evidence_texts(evidence@) =~= Seq::<EvidenceText>::empty());
    while j < archives.len()
        invariant
            0 <= j <= archives.len(),
            archives == &current.archive_contributions,
            lds == current.linker_script,
            norm == normalized@,
            views(parts@) == archive_hits(archives@.take(j as int), norm).map_values(
                |h: ArchiveContribution| archive_part(h),
            ),
            evidence_texts(evidence@) == archive_evidence(archive_hits(archives@.take(j as int), norm), lds),
        decreases archives.len() - j,
    {
        let item = &archives[j];
        let ghost prev = archive_hits(archives@.take(j as int), norm);
        assert(archives@.take(j + 1).drop_last() =~= archives@.take(j as int));
        assert(archives@.take(j + 1).last() == archives@[j as int]);
        let key = normalize_archive_member(item);
        if chars_eq(&key, &normalized) {
            let mut part: Vec<char> = Vec::new();
            push_text_or(&mut part, &item.section_name, "<unknown>");
            push_str_chars(&mut part, " (");
            push_dec(&mut part, item.size);
            push_str_chars(&mut part, ")");
            let ghost old_parts = parts@;
            let ghost part_text = part@;
            parts.push(part);
            assert(views(parts@) =~= views(old_parts).push(part_text));
            let mut d: Vec<char> = Vec::new();
            push_str_chars(&mut d, "Archive ");
            push_str_chars(&mut d, item.archive_path.as_str());
            push_str_chars(&mut d, " member ");
            push_text_or(&mut d, &item.member_path, "<unknown>");
            push_str_chars(&mut d, " contributes ");
            push_dec(&mut d, item.size);
            push_str_chars(&mut d, " bytes to ");
            push_text_or(&mut d, &item.section_name, "<unknown section>");
            let ghost before = evidence@;
            evidence.push(make_evidence(EvidenceKind::ArchivePull, d, "map"));
            assert(evidence_texts(evidence@) =~= evidence_texts(before).push(evidence@.last()@));
            let _ = push_placement_evidence(&mut evidence, &item.section_name, &current.linker_script);
            proof {
                let now = prev.push(archives@[j as int]);
                assert(archive_hits(archives@.take(j + 1), norm) == now);
                assert(now.drop_last() =~= prev);
                assert(views(parts@) =~= now.map_values(|h: ArchiveContribution| archive_part(h)));
                assert(evidence_texts(evidence@) =~= archive_evidence(now, lds));
            }
        } else {
            assert(archive_hits(archives@.take(j + 1), norm) == prev);
        }
        j += 1;
    }
    assert(archives@.take(archives.len() as int) =~= archives@);
    if parts.len() > 0 {
        let mut summary: Vec<char> = Vec::new();
        push_str_chars(&mut summary, query);
        push_str_chars(&mut summary, " is linked because the map records archive member contributions to ");
        let sep: Vec<char> = vec![',', ' '];
        assert(sep@ =~= ", "@) by {
            reveal_strlit(", ");
        }
        let joined = join_chars(&parts, &sep);
        push_all(&mut summary, &joined);
        let r = ExplainResult {
            target: query.to_owned(),
            kind: ExplainTargetKind::Object,
            summary: string_of(&summary),
            confidence: Confidence::Medium,
            evidence,
        };
        let ghost expected = explain_object_text(*current, query@)->0;
        assert(r@.4 =~= expected.4);
        return Some(r);
    }
    let objects = &current.object_contributions;
    let mut evidence: Vec<Evidence> = Vec::new();
    let mut kept = false;
    let mut with_section = false;
    let mut found = false;
    let mut j: usize = 0;
    assert(objects@.take(0) =~= Seq::<ObjectContribution>::empty());
    assert(evidence_texts(evidence@) =~= Seq::<EvidenceText>::empty());
    while j < objects.len()
        invariant
            0 <= j <= objects.len(),
            objects == &current.object_contributions,
            lds == current.linker_script,
            norm == normalized@,
            found == (object_hits(objects@.take(j as int), norm).len() > 0),
            kept == any_kept(object_hits(objects@.take(j as int), norm), lds),
            with_section == any_with_section(object_hits(objects@.take(j as int), norm)),
            evidence_texts(evidence@) == object_evidence(object_hits(objects@.take(j as int), norm), lds),
        decreases objects.len() - j,
    {
        let item = &objects[j];
        let ghost prev = object_hits(objects@.take(j as int), norm);
        assert(objects@.take(j + 1).drop_last() =~= objects@.take(j as int));
        assert(objects@.take(j + 1).last() == objects@[j as int]);
        let key = normalize_object_query(item.object_path.as_str());
        if chars_eq(&key, &normalized) {
            found = true;
            let mut d: Vec<char> = Vec::new();
            push_str_chars(&mut d, item.object_path.as_str());
            push_str_chars(&mut d, " contributes ");
            push_dec(&mut d, item.size);
            push_str_chars(&mut d, " bytes to ");
            push_text_or(&mut d, &item.section_name, "<unknown section>");
            let ghost before = evidence@;
            evidence.push(make_evidence(EvidenceKind::MapContribution, d, "map"));
            assert(evidence_texts(evidence@) =~= evidence_texts(before).push(evidence@.last()@));
            let k = push_placement_evidence(&mut evidence, &item.section_name, &current.linker_script);
            kept = kept || k;
            with_section = with_section || item.section_name.is_some();
            proof {
                let now = prev.push(objects@[j as int]);
                assert(object_hits(objects@.take(j + 1), norm) == now);
                assert(now.drop_last() =~= prev);
                assert(evidence_texts(evidence@) =~= object_evidence(now, lds));
            }
        } else {
            assert(object_hits(objects@.take(j + 1), norm) == prev);
        }
        j += 1;
    }
    assert(objects@.take(objects.len() as int) =~= objects@);
    if !found {
        return None;
    }
    let mut summary: Vec<char> = Vec::new();
    push_str_chars(&mut summary, query);
    if kept {
        push_str_chars(&mut summary, " is retained by linker placement and contributes directly to the output image");
    } else {
        push_str_chars(&mut summary, " is linked because the map records direct contributions into the final image");
    }
    let r = ExplainResult {
        target: query.to_owned(),
        kind: ExplainTargetKind::Object,
        summary: string_of(&summary),
        confidence: if with_section {
            Confidence::Medium
        } else {
            Confidence::Low
        },
        evidence,
    };
    Some(r)
}

// ---------------------------------------------------------------------------
// The linkage graph
// ---------------------------------------------------------------------------
/// A node as text: id, kind and name.
pub type NodeText = (Seq<char>, LinkageNodeKind, Seq<char>);

/// An edge as text: source id, target id, kind and detail.
pub type EdgeText = (Seq<char>, Seq<char>, LinkageEdgeKind, Option<Seq<char>>);

impl View for LinkageNode {
    type V = NodeText;

    open spec fn view(&self) -> NodeText {
        (self.id@, self.kind, self.name@)
    }
}

impl View for LinkageEdge {
    type V = EdgeText;

    open spec fn view(&self) -> EdgeText {
        (self.from@, self.to@, self.kind, opt_text(self.detail))
    }
}

/// The texts of a list of nodes.
pub open spec fn node_texts(v: Seq<LinkageNode>) -> Seq<NodeText> {
    v.map_values(|n: LinkageNode| n@)
}

/// The texts of a list of edges.
pub open spec fn edge_texts(v: Seq<LinkageEdge>) -> Seq<EdgeText> {
    v.map_values(|e: LinkageEdge| e@)
}

/// The label of an object's origin in node ids.
pub open spec fn kind_label_text(kind: ObjectSourceKind) -> Seq<char> {
    match kind {
        ObjectSourceKind::Object => "object"@,
        ObjectSourceKind::Internal => "internal"@,
    }
}

/// The node id of an object.
pub open spec fn object_id_text(path: Seq<char>, kind: ObjectSourceKind) -> Seq<char> {
    "object:"@ + kind_label_text(kind) + ":"@ + path
}

/// The object name of an archive member: `archive(member)`.
pub open spec fn member_object_name(archive: Seq<char>, member: Seq<char>) -> Seq<char> {
    archive + "("@ + member + ")"@
}

/// The nodes the sections bring, in order.
pub open spec fn section_nodes(s: Seq<SectionInfo>) -> Seq<NodeText>
    decreases s.len(),
{
    if s.len() == 0 {
        Seq::empty()
    } else {
        section_nodes(s.drop_last()).push(("section:"@ + s.last().name@, LinkageNodeKind::Section, s.last().name@))
    }
}

/// The nodes one symbol brings.
pub open spec fn symbol_node_texts(x: SymbolInfo) -> Seq<NodeText> {
    seq![("symbol:"@ + x.name@, LinkageNodeKind::Symbol, x.name@)] + if is_entry_name(x.name@) {
        seq![("entry:"@ + x.name@, LinkageNodeKind::EntryRoot, x.name@)]
    } else {
        Seq::empty()
    }
}

/// The edges one symbol brings.
pub open spec fn symbol_edge_texts(x: SymbolInfo) -> Seq<EdgeText> {
    (match x.section_name {
        Some(sec) => seq![
            (
                "symbol:"@ + x.name@,
                "section:"@ + sec@,
                LinkageEdgeKind::Resolution,
                Some("symbol "@ + x.name@ + " resolves into "@ + sec@),
            ),
        ],
        None => Seq::empty(),
    }) + if is_entry_name(x.name@) {
        seq![
            (
                "entry:"@ + x.name@,
                "symbol:"@ + x.name@,
                LinkageEdgeKind::EntryRoot,
                Some("heuristic entry/root symbol"@),
            ),
        ]
    } else {
        Seq::empty()
    }
}

/// The nodes the symbols bring, in order.
pub open spec fn symbol_nodes(s: Seq<SymbolInfo>) -> Seq<NodeText>
    decreases s.len(),
{
    if s.len() == 0 {
        Seq::empty()
    } else {
        symbol_nodes(s.drop_last()) + symbol_node_texts(s.last())
    }
}

/// The edges the symbols bring, in order.
pub open spec fn symbol_edges(s: Seq<SymbolInfo>) -> Seq<EdgeText>
    decreases s.len(),
{
    if s.len() == 0 {
        Seq::empty()
    } else {
        symbol_edges(s.drop_last()) + symbol_edge_texts(s.last())
    }
}

/// The nodes the object contributions bring, in order.
pub open spec fn object_nodes(s: Seq<ObjectContribution>) -> Seq<NodeText>
    decreases s.len(),
{
    if s.len() == 0 {
        Seq::empty()
    } else {
        let o = s.last();
        object_nodes(s.drop_last()).push(
            (object_id_text(o.object_path@, o.source_kind), LinkageNodeKind::Object, o.object_path@),
        )
    }
}

/// The edges one object contribution brings.
pub open spec fn object_edge_texts(o: ObjectContribution) -> Seq<EdgeText> {
    match o.section_name {
        Some(sec) => seq![
            (
                object_id_text(o.object_path@, o.source_kind),
                "section:"@ + sec@,
                LinkageEdgeKind::Resolution,
                Some(o.object_path@ + " contributes "@ + dec(o.size as nat) + " bytes"@),
            ),
        ],
        None => Seq::empty(),
    }
}

/// The edges the object contributions bring, in order.
pub open spec fn object_edges(s: Seq<ObjectContribution>) -> Seq<EdgeText>
    decreases s.len(),
{
    if s.len() == 0 {
        Seq::empty()
    } else {
        object_edges(s.drop_last()) + object_edge_texts(s.last())
    }
}

/// The nodes one archive contribution brings.
pub open spec fn archive_node_texts(a: ArchiveContribution) -> Seq<NodeText> {
    seq![("archive:"@ + a.archive_path@, LinkageNodeKind::Archive, a.archive_path@)] + match a.member_path {
        Some(m) => {
            let name = member_object_name(a.archive_path@, m@);
            seq![(object_id_text(name, ObjectSourceKind::Object), LinkageNodeKind::Object, name)]
        },
        None => Seq::empty(),
    }
}

/// The edges one archive contribution brings.
pub open spec fn archive_edge_texts(a: ArchiveContribution) -> Seq<EdgeText> {
    match a.member_path {
        Some(m) => {
            let name = member_object_name(a.archive_path@, m@);
            let id = object_id_text(name, ObjectSourceKind::Object);
            seq![
                (
                    "archive:"@ + a.archive_path@,
                    id,
                    LinkageEdgeKind::ArchivePull,
                    Some(m@ + " contributes "@ + dec(a.size as nat) + " bytes"@),
                ),
            ] + match a.section_name {
                Some(sec) => seq![
                    (
                        id,
                        "section:"@ + sec@,
                        LinkageEdgeKind::Resolution,
                        Some(name + " contributes via archive member"@),
                    ),
                ],
                None => Seq::empty(),
            }
        },
        None => Seq::empty(),
    }
}

/// The nodes the archive contributions bring, in order.
pub open spec fn archive_nodes(s: Seq<ArchiveContribution>) -> Seq<NodeText>
    decreases s.len(),
{
    if s.len() == 0 {
        Seq::empty()
    } else {
        archive_nodes(s.drop_last()) + archive_node_texts(s.last())
    }
}

/// The edges the archive contributions bring, in order.
pub open spec fn archive_edges(s: Seq<ArchiveContribution>) -> Seq<EdgeText>
    decreases s.len(),
{
    if s.len() == 0 {
        Seq::empty()
    } else {
        archive_edges(s.drop_last()) + archive_edge_texts(s.last())
    }
}

/// The nodes the linker-script placements bring, in order.
pub open spec fn region_nodes(s: Seq<SectionPlacement>) -> Seq<NodeText>
    decreases s.len(),
{
    if s.len() == 0 {
        Seq::empty()
    } else {
        region_nodes(s.drop_last()).push(
            ("region:"@ + s.last().region_name@, LinkageNodeKind::Region, s.last().region_name@),
        )
    }
}

/// The edges the linker-script placements bring, in order.
pub open spec fn placement_edges(s: Seq<SectionPlacement>) -> Seq<EdgeText>
    decreases s.len(),
{
    if s.len() == 0 {
        Seq::empty()
    } else {
        let p = s.last();
        placement_edges(s.drop_last()).push(
            (
                "section:"@ + p.section_name@,
                "region:"@ + p.region_name@,
                LinkageEdgeKind::ScriptPlacement,
                Some(script_detail_text(p)),
            ),
        )
    }
}

/// The placements of an optional linker script.
pub open spec fn script_placements(lds: Option<LinkerScriptInfo>) -> Seq<SectionPlacement> {
    match lds {
        Some(l) => l.placements@,
        None => Seq::empty(),
    }
}

/// Every node the image brings, in the order they are met.
pub open spec fn node_candidates(img: ImageFacts) -> Seq<NodeText> {
    section_nodes(img.sections@) + symbol_nodes(img.symbols@) + object_nodes(img.object_contributions@)
        + archive_nodes(img.archive_contributions@) + region_nodes(script_placements(img.linker_script))
}

/// Every edge the image brings, in the order they are met.
pub open spec fn edge_candidates(img: ImageFacts) -> Seq<EdgeText> {
    symbol_edges(img.symbols@) + object_edges(img.object_contributions@) + archive_edges(
        img.archive_contributions@,
    ) + placement_edges(script_placements(img.linker_script))
}

/// `cands[k]` is the first candidate with its id.
pub open spec fn first_with_id(cands: Seq<NodeText>, k: int) -> bool {
    0 <= k < cands.len() && forall|m: int| 0 <= m < k ==> (#[trigger] cands[m]).0 != cands[k].0
}

/// `n` is the first candidate with its id.
pub open spec fn is_first_candidate(cands: Seq<NodeText>, n: NodeText) -> bool {
    exists|k: int| #[trigger] first_with_id(cands, k) && cands[k] == n
}

/// Some node has the id.
pub open spec fn has_node_id(nodes: Seq<NodeText>, id: Seq<char>) -> bool {
    exists|i: int| 0 <= i < nodes.len() && (#[trigger] nodes[i]).0 == id
}

/// `nodes` holds one node per id of the candidates, the first candidate with
/// that id, in increasing order of id.
#[verifier::opaque]
pub open spec fn is_node_set(nodes: Seq<NodeText>, cands: Seq<NodeText>) -> bool {
    &&& forall|i: int, j: int| 0 <= i < j < nodes.len() ==> lex_lt(#[trigger] nodes[i].0, #[trigger] nodes[j].0)
    &&& forall|i: int| 0 <= i < nodes.len() ==> is_first_candidate(cands, #[trigger] nodes[i])
    &&& forall|k: int| 0 <= k < cands.len() ==> has_node_id(nodes, (#[trigger] cands[k]).0)
}

/// The rank of an edge kind in its order.
pub open spec fn edge_kind_rank(k: LinkageEdgeKind) -> int {
    match k {
        LinkageEdgeKind::Reference => 0,
        LinkageEdgeKind::Resolution => 1,
        LinkageEdgeKind::ArchivePull => 2,
        LinkageEdgeKind::ScriptPlacement => 3,
        LinkageEdgeKind::EntryRoot => 4,
    }
}

/// The order of optional texts: nothing first, then by text.
pub open spec fn opt_lt(a: Option<Seq<char>>, b: Option<Seq<char>>) -> bool {
    match (a, b) {
        (None, Some(_)) => true,
        (Some(x), Some(y)) => lex_lt(x, y),
        _ => false,
    }
}

/// The order of edges: by source, target, kind and detail.
pub open spec fn edge_lt(a: EdgeText, b: EdgeText) -> bool {
    lex_lt(a.0, b.0) || (a.0 == b.0 && (lex_lt(a.1, b.1) || (a.1 == b.1 && (edge_kind_rank(a.2)
        < edge_kind_rank(b.2) || (a.2 == b.2 && opt_lt(a.3, b.3))))))
}

/// `edges` holds each candidate edge once, in increasing order.
#[verifier::opaque]
pub open spec fn is_edge_set(edges: Seq<EdgeText>, cands: Seq<EdgeText>) -> bool {
    &&& forall|i: int, j: int| 0 <= i < j < edges.len() ==> edge_lt(#[trigger] edges[i], #[trigger] edges[j])
    &&& forall|i: int| 0 <= i < edges.len() ==> cands.contains(#[trigger] edges[i])
    &&& forall|k: int| 0 <= k < cands.len() ==> edges.contains(#[trigger] cands[k])
}

proof fn lemma_edge_lt_irreflexive(a: EdgeText)
    ensures
        !edge_lt(a, a),
{
    lemma_lex_irreflexive(a.0);
    lemma_lex_irreflexive(a.1);
    if a.3 is Some {
        lemma_lex_irreflexive(a.3->0);
    }
}

proof fn lemma_edge_lt_total(a: EdgeText, b: EdgeText)
    ensures
        a == b || edge_lt(a, b) || edge_lt(b, a),
{
    lemma_lex_total(a.0, b.0);
    lemma_lex_total(a.1, b.1);
    if a.3 is Some && b.3 is Some {
        lemma_lex_total(a.3->0, b.3->0);
    }
    if a.0 == b.0 && a.1 == b.1 && a.2 == b.2 && a.3 == b.3 {
        assert(a == b);
    }
}

proof fn lemma_edge_lt_transitive(a: EdgeText, b: EdgeText, c: EdgeText)
    requires
        edge_lt(a, b),
        edge_lt(b, c),
    ensures
        edge_lt(a, c),
{
    if lex_lt(a.0, b.0) && lex_lt(b.0, c.0) {
        lemma_lex_transitive(a.0, b.0, c.0);
    }
    if a.0 == b.0 && b.0 == c.0 {
        if lex_lt(a.1, b.1) && lex_lt(b.1, c.1) {
            lemma_lex_transitive(a.1, b.1, c.1);
        }
        if a.1 == b.1 && b.1 == c.1 && a.2 == b.2 && b.2 == c.2 {
            if a.3 is Some && b.3 is Some && c.3 is Some {
                if lex_lt(a.3->0, b.3->0) && lex_lt(b.3->0, c.3->0) {
                    lemma_lex_transitive(a.3->0, b.3->0, c.3->0);
                }
            }
        }
    }
}

fn edge_kind_rank_of(k: LinkageEdgeKind) -> (r: u8)
    ensures
        r as int == edge_kind_rank(k),
{
    match k {
        LinkageEdgeKind::Reference => 0,
        LinkageEdgeKind::Resolution => 1,
        LinkageEdgeKind::ArchivePull => 2,
        LinkageEdgeKind::ScriptPlacement => 3,
        LinkageEdgeKind::EntryRoot => 4,
    }
}

/// Three-way comparison of two edges in the edge order.
fn compare_edges(a: &LinkageEdge, b: &LinkageEdge) -> (r: Precedence)
    ensures
        r == Precedence::Same <==> a@ == b@,
        r == Precedence::Before <==> edge_lt(a@, b@),
        r == Precedence::After <==> edge_lt(b@, a@),
{
    proof {
        lemma_edge_lt_irreflexive(a@);
        lemma_edge_lt_total(a@, b@);
        if edge_lt(a@, b@) && edge_lt(b@, a@) {
            lemma_edge_lt_transitive(a@, b@, a@);
        }
    }
    match compare_strings(&a.from, &b.from) {
        Precedence::Before => return Precedence::Before,
        Precedence::After => return Precedence::After,
        Precedence::Same => {},
    }
    match compare_strings(&a.to, &b.to) {
        Precedence::Before => return Precedence::Before,
        Precedence::After => return Precedence::After,
        Precedence::Same => {},
    }
    let ra = edge_kind_rank_of(a.kind);
    let rb = edge_kind_rank_of(b.kind);
    if ra < rb {
        return Precedence::Before;
    }
    if rb < ra {
        return Precedence::After;
    }
    assert(a.kind == b.kind);
    match (&a.detail, &b.detail) {
        (None, None) => Precedence::Same,
        (None, Some(_)) => Precedence::Before,
        (Some(_), None) => Precedence::After,
        (Some(x), Some(y)) => compare_strings(x, y),
    }
}

proof fn lemma_first_candidate_push(cands: Seq<NodeText>, x: NodeText, n: NodeText)
    requires
        is_first_candidate(cands, n),
    ensures
        is_first_candidate(cands.push(x), n),
{
    let c2 = cands.push(x);
    let k = choose|k: int| #[trigger] first_with_id(cands, k) && cands[k] == n;
    assert(c2[k] == cands[k]);
    assert forall|m: int| 0 <= m < k implies (#[trigger] c2[m]).0 != c2[k].0 by {
        assert(c2[m] == cands[m]);
    }
    assert(first_with_id(c2, k));
}

proof fn lemma_node_set_keep(before: Seq<NodeText>, cands: Seq<NodeText>, x: NodeText, pos: int)
    requires
        is_node_set(before, cands),
        0 <= pos < before.len(),
        before[pos].0 == x.0,
    ensures
        is_node_set(before, cands.push(x)),
{
    reveal(is_node_set);
    let c2 = cands.push(x);
    assert forall|i: int| 0 <= i < before.len() implies is_first_candidate(c2, #[trigger] before[i]) by {
        lemma_first_candidate_push(cands, x, before[i]);
    }
    assert forall|k: int| 0 <= k < c2.len() implies has_node_id(before, (#[trigger] c2[k]).0) by {
        if k < cands.len() {
            assert(c2[k] == cands[k]);
        } else {
            assert(before[pos].0 == c2[k].0);
        }
    }
}

proof fn lemma_node_set_sorted_insert(before: Seq<NodeText>, x: NodeText, pos: int)
    requires
        forall|i: int, j: int| 0 <= i < j < before.len() ==> lex_lt(#[trigger] before[i].0, #[trigger] before[j].0),
        0 <= pos <= before.len(),
        forall|i: int| 0 <= i < pos ==> lex_lt(#[trigger] before[i].0, x.0),
        pos == before.len() || lex_lt(x.0, before[pos].0),
    ensures
        forall|i: int, j: int|
            0 <= i < j < before.insert(pos, x).len() ==> lex_lt(
                #[trigger] before.insert(pos, x)[i].0,
                #[trigger] before.insert(pos, x)[j].0,
            ),
        forall|i: int| 0 <= i < before.len() ==> (#[trigger] before[i]).0 != x.0,
{
    let after = before.insert(pos, x);
    assert forall|i: int| 0 <= i < before.len() implies (#[trigger] before[i]).0 != x.0 by {
        lemma_lex_irreflexive(x.0);
        if i > pos {
            lemma_lex_transitive(x.0, before[pos].0, before[i].0);
        }
    }
    assert forall|i: int, j: int| 0 <= i < j < after.len() implies lex_lt(#[trigger] after[i].0, #[trigger] after[j].0) by {
        if j < pos {
            assert(after[i] == before[i] && after[j] == before[j]);
        } else if j == pos {
            assert(after[i] == before[i]);
        } else if i < pos {
            assert(after[i] == before[i] && after[j] == before[j - 1]);
            if j - 1 > pos {
                lemma_lex_transitive(x.0, before[pos].0, before[j - 1].0);
            }
            lemma_lex_transitive(before[i].0, x.0, before[j - 1].0);
        } else if i == pos {
            assert(after[j] == before[j - 1]);
            if j - 1 > pos {
                lemma_lex_transitive(x.0, before[pos].0, before[j - 1].0);
            }
        } else {
            assert(after[i] == before[i - 1] && after[j] == before[j - 1]);
        }
    }
}

proof fn lemma_node_set_insert(before: Seq<NodeText>, cands: Seq<NodeText>, x: NodeText, pos: int)
    requires
        is_node_set(before, cands),
        0 <= pos <= before.len(),
        forall|i: int| 0 <= i < pos ==> lex_lt(#[trigger] before[i].0, x.0),
        pos == before.len() || lex_lt(x.0, before[pos].0),
    ensures
        is_node_set(before.insert(pos, x), cands.push(x)),
{
    reveal(is_node_set);
    lemma_node_set_sorted_insert(before, x, pos);
    let after = before.insert(pos, x);
    let c2 = cands.push(x);
    assert forall|i: int| 0 <= i < after.len() implies is_first_candidate(c2, #[trigger] after[i]) by {
        if i == pos {
            let k = cands.len() as int;
            assert(c2[k] == x);
            assert forall|m: int| 0 <= m < k implies (#[trigger] c2[m]).0 != c2[k].0 by {
                assert(c2[m] == cands[m]);
                assert(has_node_id(before, cands[m].0));
                let w = choose|w: int| 0 <= w < before.len() && (#[trigger] before[w]).0 == cands[m].0;
                assert(before[w].0 != x.0);
            }
            assert(first_with_id(c2, k));
        } else {
            let b = if i < pos {
                i
            } else {
                i - 1
            };
            assert(after[i] == before[b]);
            lemma_first_candidate_push(cands, x, before[b]);
        }
    }
    assert forall|k: int| 0 <= k < c2.len() implies has_node_id(after, (#[trigger] c2[k]).0) by {
        if k < cands.len() {
            assert(c2[k] == cands[k]);
            assert(has_node_id(before, cands[k].0));
            let w = choose|w: int| 0 <= w < before.len() && (#[trigger] before[w]).0 == cands[k].0;
            if w < pos {
                assert(after[w] == before[w]);
            } else {
                assert(after[w + 1] == before[w]);
            }
        } else {
            assert(after[pos] == x);
        }
    }
}

/// Adds one node to a set of nodes ordered by id, unless its id is there.
fn add_node(out: &mut Vec<LinkageNode>, x: LinkageNode, Ghost(cands): Ghost<Seq<NodeText>>)
    requires
        is_node_set(node_texts(old(out)@), cands),
    ensures
        is_node_set(node_texts(final(out)@), cands.push(x@)),
{
    let ghost before = node_texts(out@);
    let mut pos: usize = 0;
    while pos < out.len() && compare_strings(&out[pos].id, &x.id) == Precedence::Before
        invariant
            0 <= pos <= out.len(),
            node_texts(out@) == before,
            forall|i: int| 0 <= i < pos ==> lex_lt(#[trigger] before[i].0, x@.0),
        decreases out.len() - pos,
    {
        assert(before[pos as int] == out@[pos as int]@);
        pos += 1;
    }
    if pos < out.len() {
        assert(before[pos as int] == out@[pos as int]@);
        let c = compare_strings(&out[pos].id, &x.id);
        if c == Precedence::Same {
            proof {
                lemma_node_set_keep(before, cands, x@, pos as int);
            }
            return;
        }
        proof {
            lemma_lex_total(before[pos as int].0, x@.0);
        }
    }
    proof {
        lemma_node_set_insert(before, cands, x@, pos as int);
    }
    let ghost xv = x@;
    out.insert(pos, x);
    assert(node_texts(out@) =~= before.insert(pos as int, xv));
}

proof fn lemma_edge_set_keep(before: Seq<EdgeText>, cands: Seq<EdgeText>, x: EdgeText, pos: int)
    requires
        is_edge_set(before, cands),
        0 <= pos < before.len(),
        before[pos] == x,
    ensures
        is_edge_set(before, cands.push(x)),
{
    reveal(is_edge_set);
    let c2 = cands.push(x);
    assert forall|i: int| 0 <= i < before.len() implies c2.contains(#[trigger] before[i]) by {
        assert(cands.contains(before[i]));
        let k = choose|k: int| 0 <= k < cands.len() && cands[k] == before[i];
        assert(c2[k] == cands[k]);
    }
    assert forall|k: int| 0 <= k < c2.len() implies before.contains(#[trigger] c2[k]) by {
        if k < cands.len() {
            assert(c2[k] == cands[k]);
        } else {
            assert(before[pos] == c2[k]);
        }
    }
}

proof fn lemma_edge_set_insert(before: Seq<EdgeText>, cands: Seq<EdgeText>, x: EdgeText, pos: int)
    requires
        is_edge_set(before, cands),
        0 <= pos <= before.len(),
        forall|i: int| 0 <= i < pos ==> edge_lt(#[trigger] before[i], x),
        pos == before.len() || edge_lt(x, before[pos]),
    ensures
        is_edge_set(before.insert(pos, x), cands.push(x)),
{
    reveal(is_edge_set);
    let after = before.insert(pos, x);
    let c2 = cands.push(x);
    assert forall|i: int, j: int| 0 <= i < j < after.len() implies edge_lt(#[trigger] after[i], #[trigger] after[j]) by {
        if j < pos {
            assert(after[i] == before[i] && after[j] == before[j]);
        } else if j == pos {
            assert(after[i] == before[i]);
        } else if i < pos {
            assert(after[i] == before[i] && after[j] == before[j - 1]);
            if j - 1 > pos {
                lemma_edge_lt_transitive(x, before[pos], before[j - 1]);
            }
            lemma_edge_lt_transitive(before[i], x, before[j - 1]);
        } else if i == pos {
            assert(after[j] == before[j - 1]);
            if j - 1 > pos {
                lemma_edge_lt_transitive(x, before[pos], before[j - 1]);
            }
        } else {
            assert(after[i] == before[i - 1] && after[j] == before[j - 1]);
        }
    }
    assert forall|i: int| 0 <= i < after.len() implies c2.contains(#[trigger] after[i]) by {
        if i == pos {
            assert(c2[cands.len() as int] == x);
        } else {
            let b = if i < pos {
                i
            } else {
                i - 1
            };
            assert(after[i] == before[b]);
            assert(cands.contains(before[b]));
            let k = choose|k: int| 0 <= k < cands.len() && cands[k] == before[b];
            assert(c2[k] == cands[k]);
        }
    }
    assert forall|k: int| 0 <= k < c2.len() implies after.contains(#[trigger] c2[k]) by {
        if k < cands.len() {
            assert(c2[k] == cands[k]);
            assert(before.contains(cands[k]));
            let w = choose|w: int| 0 <= w < before.len() && before[w] == cands[k];
            if w < pos {
                assert(after[w] == before[w]);
            } else {
                assert(after[w + 1] == before[w]);
            }
        } else {
            assert(after[pos] == x);
        }
    }
}

/// Adds one edge to an ordered set of edges, unless it is there.
fn add_edge(out: &mut Vec<LinkageEdge>, x: LinkageEdge, Ghost(cands): Ghost<Seq<EdgeText>>)
    requires
        is_edge_set(edge_texts(old(out)@), cands),
    ensures
        is_edge_set(edge_texts(final(out)@), cands.push(x@)),
{
    let ghost before = edge_texts(out@);
    let mut pos: usize = 0;
    while pos < out.len() && compare_edges(&out[pos], &x) == Precedence::Before
        invariant
            0 <= pos <= out.len(),
            edge_texts(out@) == before,
            forall|i: int| 0 <= i < pos ==> edge_lt(#[trigger] before[i], x@),
        decreases out.len() - pos,
    {
        assert(before[pos as int] == out@[pos as int]@);
        pos += 1;
    }
    if pos < out.len() {
        assert(before[pos as int] == out@[pos as int]@);
        let c = compare_edges(&out[pos], &x);
        if c == Precedence::Same {
            proof {
                lemma_edge_set_keep(before, cands, x@, pos as int);
            }
            return;
        }
    }
    proof {
        lemma_edge_set_insert(before, cands, x@, pos as int);
    }
    let ghost xv = x@;
    out.insert(pos, x);
    assert(edge_texts(out@) =~= before.insert(pos as int, xv));
}

fn prefixed(prefix: &str, s: &str) -> (r: String)
    ensures
        r@ == prefix@ + s@,
{
    let mut v: Vec<char> = Vec::new();
    push_str_chars(&mut v, prefix);
    push_str_chars(&mut v, s);
    string_of(&v)
}

fn object_node_id(path: &str, kind: ObjectSourceKind) -> (r: String)
    ensures
        r@ == object_id_text(path@, kind),
{
    let mut v: Vec<char> = Vec::new();
    push_str_chars(&mut v, "object:");
    match kind {
        ObjectSourceKind::Object => push_str_chars(&mut v, "object"),
        ObjectSourceKind::Internal => push_str_chars(&mut v, "internal"),
    }
    push_str_chars(&mut v, ":");
    push_str_chars(&mut v, path);
    string_of(&v)
}

/// Builds the linkage graph of an image: a node per section, symbol, object,
/// archive, region and entry point, and the edges that tie them.  Each id
/// appears once (its first description wins), nodes are ordered by id, and
/// each edge appears once, in the order of its fields.
pub fn build_linkage_graph(current: &ImageFacts) -> (g: LinkageGraph)
    ensures
        is_node_set(node_texts(g.nodes@), node_candidates(*current)),
        is_edge_set(edge_texts(g.edges@), edge_candidates(*current)),
{
    let mut nodes: Vec<LinkageNode> = Vec::new();
    let mut edges: Vec<LinkageEdge> = Vec::new();
    let ghost mut nc: Seq<NodeText> = Seq::empty();
    let ghost mut ec: Seq<EdgeText> = Seq::empty();
    proof {
        reveal(is_node_set);
        reveal(is_edge_set);
        assert(node_texts(nodes@) =~= Seq::<NodeText>::empty());
        assert(edge_texts(edges@) =~= Seq::<EdgeText>::empty());
    }
    let sections = &current.sections;
    let mut j: usize = 0;
    while j < sections.len()
        invariant
            0 <= j <= sections.len(),
            sections == &current.sections,
            nc == section_nodes(sections@.take(j as int)),
            ec == Seq::<EdgeText>::empty(),
            is_node_set(node_texts(nodes@), nc),
            is_edge_set(edge_texts(edges@), ec),
        decreases sections.len() - j,
    {
        let sec = &sections[j];
        let x = LinkageNode {
            id: prefixed("section:", sec.name.as_str()),
            kind: LinkageNodeKind::Section,
            name: sec.name.clone(),
        };
        let ghost xv = x@;
        add_node(&mut nodes, x, Ghost(nc));
        proof {
            nc = nc.push(xv);
            assert(sections@.take(j + 1).drop_last() =~= sections@.take(j as int));
        }
        j += 1;
    }
    assert(sections@.take(sections.len() as int) =~= sections@);
    let ghost n1 = nc;
    let symbols = &current.symbols;
    let mut j: usize = 0;
    assert(symbols@.take(0) =~= Seq::<SymbolInfo>::empty());
    assert(n1 + symbol_nodes(symbols@.take(0)) =~= n1);
    while j < symbols.len()
        invariant
            0 <= j <= symbols.len(),
            symbols == &current.symbols,
            nc == n1 + symbol_nodes(symbols@.take(j as int)),
            ec == symbol_edges(symbols@.take(j as int)),
            is_node_set(node_texts(nodes@), nc),
            is_edge_set(edge_texts(edges@), ec),
        decreases symbols.len() - j,
    {
        let sym = &symbols[j];
        let ghost x_sym = symbols@[j as int];
        assert(symbols@.take(j + 1).drop_last() =~= symbols@.take(j as int));
        assert(symbols@.take(j + 1).last() == x_sym);
        let ghost nc0 = nc;
        let ghost ec0 = ec;
        let x = LinkageNode {
            id: prefixed("symbol:", sym.name.as_str()),
            kind: LinkageNodeKind::Symbol,
            name: sym.name.clone(),
        };
        let ghost xv = x@;
        add_node(&mut nodes, x, Ghost(nc));
        proof {
            nc = nc.push(xv);
        }
        if let Some(section_name) = &sym.section_name {
            let mut d: Vec<char> = Vec::new();
            push_str_chars(&mut d, "symbol ");
            push_str_chars(&mut d, sym.name.as_str());
            push_str_chars(&mut d, " resolves into ");
            push_str_chars(&mut d, section_name.as_str());
            let e = LinkageEdge {
                from: prefixed("symbol:", sym.name.as_str()),
                to: prefixed("section:", section_name.as_str()),
                kind: LinkageEdgeKind::Resolution,
                detail: Some(string_of(&d)),
            };
            let ghost ev = e@;
            add_edge(&mut edges, e, Ghost(ec));
            proof {
                ec = ec.push(ev);
            }
        }
        let ghost ec_mid = ec;
        if is_entry_symbol(sym.name.as_str()) {
            let y = LinkageNode {
                id: prefixed("entry:", sym.name.as_str()),
                kind: LinkageNodeKind::EntryRoot,
                name: sym.name.clone(),
            };
            let ghost yv = y@;
            add_node(&mut nodes, y, Ghost(nc));
            proof {
                nc = nc.push(yv);
            }
            let e = LinkageEdge {
                from: prefixed("entry:", sym.name.as_str()),
                to: prefixed("symbol:", sym.name.as_str()),
                kind: LinkageEdgeKind::EntryRoot,
                detail: Some("heuristic entry/root symbol".to_owned()),
            };
            let ghost ev = e@;
            add_edge(&mut edges, e, Ghost(ec));
            proof {
                ec = ec.push(ev);
            }
        }
        proof {
            assert(nc =~= nc0 + symbol_node_texts(x_sym));
            assert(ec =~= ec0 + symbol_edge_texts(x_sym));
            assert(n1 + symbol_nodes(symbols@.take(j + 1)) =~= nc0 + symbol_node_texts(x_sym));
        }
        j += 1;
    }
    assert(symbols@.take(symbols.len() as int) =~= symbols@);
    let ghost n2 = nc;
    let ghost e2 = ec;
    let objects = &current.object_contributions;
    let mut j: usize = 0;
    assert(objects@.take(0) =~= Seq::<ObjectContribution>::empty());
    assert(n2 + object_nodes(objects@.take(0)) =~= n2);
    assert(e2 + object_edges(objects@.take(0)) =~= e2);
    while j < objects.len()
        invariant
            0 <= j <= objects.len(),
            objects == &current.object_contributions,
            nc == n2 + object_nodes(objects@.take(j as int)),
            ec == e2 + object_edges(objects@.take(j as int)),
            is_node_set(node_texts(nodes@), nc),
            is_edge_set(edge_texts(edges@), ec),
        decreases objects.len() - j,
    {
        let obj = &objects[j];
        let ghost x_obj = objects@[j as int];
        assert(objects@.take(j + 1).drop_last() =~= objects@.take(j as int));
        assert(objects@.take(j + 1).last() == x_obj);
        let ghost nc0 = nc;
        let ghost ec0 = ec;
        let x = LinkageNode {
            id: object_node_id(obj.object_path.as_str(), obj.source_kind),
            kind: LinkageNodeKind::Object,
            name: obj.object_path.clone(),
        };
        let ghost xv = x@;
        add_node(&mut nodes, x, Ghost(nc));
        proof {
            nc = nc.push(xv);
        }
        if let Some(section_name) = &obj.section_name {
            let mut d: Vec<char> = Vec::new();
            push_str_chars(&mut d, obj.object_path.as_str());
            push_str_chars(&mut d, " contributes ");
            push_dec(&mut d, obj.size);
            push_str_chars(&mut d, " bytes");
            let e = LinkageEdge {
                from: object_node_id(obj.object_path.as_str(), obj.source_kind),
                to: prefixed("section:", section_name.as_str()),
                kind: LinkageEdgeKind::Resolution,
                detail: Some(string_of(&d)),
            };
            let ghost ev = e@;
            add_edge(&mut edges, e, Ghost(ec));
            proof {
                ec = ec.push(ev);
            }
        }
        proof {
            assert(nc =~= nc0.push(xv));
            assert(ec =~= ec0 + object_edge_texts(x_obj));
            assert(n2 + object_nodes(objects@.take(j + 1)) =~= nc0.push(xv));
            assert(e2 + object_edges(objects@.take(j + 1)) =~= ec0 + object_edge_texts(x_obj));
        }
        j += 1;
    }
    assert(objects@.take(objects.len() as int) =~= objects@);
    let ghost n3 = nc;
    let ghost e3 = ec;
    let archives = &current.archive_contributions;
    let mut j: usize = 0;
    assert(archives@.take(0) =~= Seq::<ArchiveContribution>::empty());
    assert(n3 + archive_nodes(archives@.take(0)) =~= n3);
    assert(e3 + archive_edges(archives@.take(0)) =~= e3);
    while j < archives.len()
        invariant
            0 <= j <= archives.len(),
            archives == &current.archive_contributions,
            nc == n3 + archive_nodes(archives@.take(j as int)),
            ec == e3 + archive_edges(archives@.take(j as int)),
            is_node_set(node_texts(nodes@), nc),
            is_edge_set(edge_texts(edges@), ec),
        decreases archives.len() - j,
    {
        let arc = &archives[j];
        let ghost x_arc = archives@[j as int];
        assert(archives@.take(j + 1).drop_last() =~= archives@.take(j as int));
        assert(archives@.take(j + 1).last() == x_arc);
        let ghost nc0 = nc;
        let ghost ec0 = ec;
        let x = LinkageNode {
            id: prefixed("archive:", arc.archive_path.as_str()),
            kind: LinkageNodeKind::Archive,
            name: arc.archive_path.clone(),
        };
        let ghost xv = x@;
        add_node(&mut nodes, x, Ghost(nc));
        proof {
            nc = nc.push(xv);
        }
        if let Some(member) = &arc.member_path {
            let mut nm: Vec<char> = Vec::new();
            push_str_chars(&mut nm, arc.archive_path.as_str());
            push_str_chars(&mut nm, "(");
            push_str_chars(&mut nm, member.as_str());
            push_str_chars(&mut nm, ")");
            let object_name = string_of(&nm);
            let object_id = object_node_id(object_name.as_str(), ObjectSourceKind::Object);
            let y = LinkageNode { id: object_id.clone(), kind: LinkageNodeKind::Object, name: object_name.clone() };
            let ghost yv = y@;
            add_node(&mut nodes, y, Ghost(nc));
            proof {
                nc = nc.push(yv);
            }
            let mut d: Vec<char> = Vec::new();
            push_str_chars(&mut d, member.as_str());
            push_str_chars(&mut d, " contributes ");
            push_dec(&mut d, arc.size);
            push_str_chars(&mut d, " bytes");
            let e = LinkageEdge {
                from: prefixed("archive:", arc.archive_path.as_str()),
                to: object_id.clone(),
                kind: LinkageEdgeKind::ArchivePull,
                detail: Some(string_of(&d)),
            };
            let ghost ev = e@;
            add_edge(&mut edges, e, Ghost(ec));
            proof {
                ec = ec.push(ev);
            }
            if let Some(section_name) = &arc.section_name {
                let mut d2: Vec<char> = Vec::new();
                push_str_chars(&mut d2, object_name.as_str());
                push_str_chars(&mut d2, " contributes via archive member");
                let e2 = LinkageEdge {
                    from: object_id,
                    to: prefixed("section:", section_name.as_str()),
                    kind: LinkageEdgeKind::Resolution,
                    detail: Some(string_of(&d2)),
                };
                let ghost ev2 = e2@;
                add_edge(&mut edges, e2, Ghost(ec));
                proof {
                    ec = ec.push(ev2);
                }
            }
        }
        proof {
            assert(nc =~= nc0 + archive_node_texts(x_arc));
            assert(ec =~= ec0 + archive_edge_texts(x_arc));
            assert(n3 + archive_nodes(archives@.take(j + 1)) =~= nc0 + archive_node_texts(x_arc));
            assert(e3 + archive_edges(archives@.take(j + 1)) =~= ec0 + archive_edge_texts(x_arc));
        }
        j += 1;
    }
    assert(archives@.take(archives.len() as int) =~= archives@);
    let ghost n4 = nc;
    let ghost e4 = ec;
    if let Some(lds) = &current.linker_script {
        let placements = &lds.placements;
        let mut j: usize = 0;
        assert(placements@.take(0) =~= Seq::<SectionPlacement>::empty());
        assert(n4 + region_nodes(placements@.take(0)) =~= n4);
        assert(e4 + placement_edges(placements@.take(0)) =~= e4);
        while j < placements.len()
            invariant
                0 <= j <= placements.len(),
                nc == n4 + region_nodes(placements@.take(j as int)),
                ec == e4 + placement_edges(placements@.take(j as int)),
                is_node_set(node_texts(nodes@), nc),
                is_edge_set(edge_texts(edges@), ec),
            decreases placements.len() - j,
        {
            let p = &placements[j];
            assert(placements@.take(j + 1).drop_last() =~= placements@.take(j as int));
            assert(placements@.take(j + 1).last() == placements@[j as int]);
            let ghost nc0 = nc;
            let ghost ec0 = ec;
            let x = LinkageNode {
                id: prefixed("region:", p.region_name.as_str()),
                kind: LinkageNodeKind::Region,
                name: p.region_name.clone(),
            };
            let ghost xv = x@;
            add_node(&mut nodes, x, Ghost(nc));
            proof {
                nc = nc.push(xv);
            }
            let e = LinkageEdge {
                from: prefixed("section:", p.section_name.as_str()),
                to: prefixed("region:", p.region_name.as_str()),
                kind: LinkageEdgeKind::ScriptPlacement,
                detail: Some(script_detail(p)),
            };
            let ghost ev = e@;
            add_edge(&mut edges, e, Ghost(ec));
            proof {
                ec = ec.push(ev);
                assert(n4 + region_nodes(placements@.take(j + 1)) =~= nc0.push(xv));
                assert(e4 + placement_edges(placements@.take(j + 1)) =~= ec0.push(ev));
            }
            j += 1;
        }
        assert(placements@.take(placements.len() as int) =~= placements@);
        assert(script_placements(current.linker_script) == placements@);
    } else {
        assert(n4 + region_nodes(script_placements(current.linker_script)) =~= n4);
        assert(e4 + placement_edges(script_placements(current.linker_script)) =~= e4);
    }
    assert(nc =~= node_candidates(*current));
    assert(ec =~= edge_candidates(*current));
    LinkageGraph { nodes, edges }
}

// ---------------------------------------------------------------------------
// Explaining growth
// ---------------------------------------------------------------------------
/// The texts of a list of explanations.
pub open spec fn explain_texts(v: Seq<ExplainResult>) -> Seq<ExplainText> {
    v.map_values(|x: ExplainResult| x@)
}

/// The explanations of the symbols named by diff entries, skipping those the image lacks.
pub open spec fn explained_symbols(img: ImageFacts, es: Seq<DiffEntry>) -> Seq<ExplainText>
    decreases es.len(),
{
    if es.len() == 0 {
        Seq::empty()
    } else {
        explained_symbols(img, es.drop_last()) + match explain_symbol_text(img, es.last().name@) {
            Some(t) => seq![t],
            None => Seq::empty(),
        }
    }
}

/// The explanations of the objects named by diff entries, skipping those the map lacks.
pub open spec fn explained_objects(img: ImageFacts, es: Seq<DiffEntry>) -> Seq<ExplainText>
    decreases es.len(),
{
    if es.len() == 0 {
        Seq::empty()
    } else {
        explained_objects(img, es.drop_last()) + match explain_object_text(img, es.last().name@) {
            Some(t) => seq![t],
            None => Seq::empty(),
        }
    }
}

/// Explains the first `limit` (at least one) symbols and objects that grew.
pub fn explain_top_growth(current: &ImageFacts, diff: &DiffResult, limit: usize) -> (r: WhyLinkedCollection)
    ensures
        explain_texts(r.top_symbols@) == explained_symbols(
            *current,
            first_n(growth(diff.symbol_diffs@), if limit == 0 { 1 } else { limit }),
        ),
        explain_texts(r.top_objects@) == explained_objects(
            *current,
            first_n(growth(diff.object_diffs@), if limit == 0 { 1 } else { limit }),
        ),
{
    let limit = if limit == 0 {
        1
    } else {
        limit
    };
    let syms = top_increases(&diff.symbol_diffs, limit);
    let mut top_symbols: Vec<ExplainResult> = Vec::new();
    let mut i: usize = 0;
    assert(syms@.take(0) =~= Seq::<DiffEntry>::empty());
    while i < syms.len()
        invariant
            0 <= i <= syms.len(),
            explain_texts(top_symbols@) == explained_symbols(*current, syms@.take(i as int)),
        decreases syms.len() - i,
    {
        assert(syms@.take(i + 1).drop_last() =~= syms@.take(i as int));
        assert(syms@.take(i + 1).last() == syms@[i as int]);
        let ghost before = top_symbols@;
        match explain_symbol(current, syms[i].name.as_str()) {
            Some(x) => {
                top_symbols.push(x);
                assert(explain_texts(top_symbols@) =~= explain_texts(before) + seq![top_symbols@.last()@]);
            },
            None => {},
        }
        i += 1;
    }
    assert(syms@.take(syms.len() as int) =~= syms@);
    let objs = top_increases(&diff.object_diffs, limit);
    let mut top_objects: Vec<ExplainResult> = Vec::new();
    let mut i: usize = 0;
    assert(objs@.take(0) =~= Seq::<DiffEntry>::empty());
    while i < objs.len()
        invariant
            0 <= i <= objs.len(),
            explain_texts(top_objects@) == explained_objects(*current, objs@.take(i as int)),
        decreases objs.len() - i,
    {
        assert(objs@.take(i + 1).drop_last() =~= objs@.take(i as int));
        assert(objs@.take(i + 1).last() == objs@[i as int]);
        let ghost before = top_objects@;
        match explain_object(current, objs[i].name.as_str()) {
            Some(x) => {
                top_objects.push(x);
                assert(explain_texts(top_objects@) =~= explain_texts(before) + seq![top_objects@.last()@]);
            },
            None => {},
        }
        i += 1;
    }
    assert(objs@.take(objs.len() as int) =~= objs@);
    WhyLinkedCollection { top_symbols, top_objects }
}

/// The nodes the symbols bring hold an entry-point node for each entry symbol.
proof fn lemma_symbol_nodes_hold_entry(s: Seq<SymbolInfo>, i: int)
    requires
        0 <= i < s.len(),
        is_entry_name(s[i].name@),
    ensures
        symbol_nodes(s).contains(("entry:"@ + s[i].name@, LinkageNodeKind::EntryRoot, s[i].name@)),
    decreases s.len(),
{
    let e = ("entry:"@ + s[i].name@, LinkageNodeKind::EntryRoot, s[i].name@);
    let prev = symbol_nodes(s.drop_last());
    if i == s.len() - 1 {
        assert(symbol_nodes(s)[prev.len() as int + 1] == e);
    } else {
        assert(s.drop_last()[i] == s[i]);
        lemma_symbol_nodes_hold_entry(s.drop_last(), i);
        let k = choose|k: int| 0 <= k < prev.len() && prev[k] == e;
        assert(symbol_nodes(s)[k] == e);
    }
}

/// Explaining one of the conventional entry or root symbols (`_start`,
/// `__start`, `Reset_Handler`, `main`) that the image holds under that very
/// name gives high confidence, with the entry/root evidence for that name as
/// the last evidence; and the linkage graph of the image has the node
/// `entry:<name>`.
pub proof fn law_entry_symbols_are_roots(img: ImageFacts, q: Seq<char>, i: int, g: LinkageGraph)
    requires
        q == "_start"@ || q == "__start"@ || q == "Reset_Handler"@ || q == "main"@,
        0 <= i < img.symbols@.len(),
        img.symbols@[i].name@ == q,
        forall|k: int|
            0 <= k < img.symbols@.len() && (#[trigger] img.symbols@[k]).demangled_name is Some
                && img.symbols@[k].demangled_name->0@ == q ==> img.symbols@[k].name@ == q,
        is_node_set(node_texts(g.nodes@), node_candidates(img)),
    ensures
        explain_symbol_text(img, q) matches Some(x) && x.0 == q && x.3 == Confidence::High
            && x.4.len() > 0 && x.4.last() == (
            EvidenceKind::EntryRoot,
            q + " matches a common entry/root symbol heuristic"@,
            "heuristic"@,
        ),
        has_node_id(node_texts(g.nodes@), "entry:"@ + q),
{
    let syms = img.symbols@;
    let k = crate::text::lemma_first_match_some(syms, symbol_named(q), i);
    assert(syms[k].name@ == q);
    lemma_symbol_nodes_hold_entry(syms, i);
    let cands = node_candidates(img);
    let e = ("entry:"@ + q, LinkageNodeKind::EntryRoot, q);
    let pre = section_nodes(img.sections@);
    let sn = symbol_nodes(syms);
    let j = choose|j: int| 0 <= j < sn.len() && sn[j] == e;
    assert(cands[pre.len() as int + j] == e);
    reveal(is_node_set);
    assert(has_node_id(node_texts(g.nodes@), cands[pre.len() as int + j].0));
}

} // verus!
