//! The rule engine: the default checks on an analysis and the checks a rule
//! file declares.
//!
//! The checks that compare a percentage against a configured ratio are made by
//! the caller; everything that is decided on byte counts, names and patterns
//! is decided here.
use vstd::prelude::*;
use crate::model::{
    DiffEntry, DiffResult, LinkerScriptInfo, MemoryRegion, ObjectContribution, RegionUsageSummary, RuleKind,
    RuleSeverityConfig, SectionInfo, SymbolInfo, WarningItem, WarningLevel, WarningSource,
};
use crate::text::{
    opt_text,
    str_is_blank,
    chars_ends_with, chars_of, chars_split_once, chars_starts_with, chars_trim, chars_eq_ignore_case, dec,
    eq_ignore_case, first_match, is_prefix, is_suffix, lemma_first_match_found, lemma_first_match_none,
    push_dec, push_dec_signed, push_str_chars, slice_chars, split_once_seq, str_eq, string_from, string_of,
    trim, dec_signed, copy_opt_string, find_seq, lemma_find_from_occurs, occurs_at,
};

verus! {

/// Severity of a rule finding.
#[derive(Debug, Clone, Copy, PartialEq, Eq, Structural)]
pub enum RuleSeverity {
    Info,
    Warn,
    Error,
}

/// One rule finding.
#[derive(Debug, Clone, PartialEq, Eq)]
pub struct RuleResult {
    pub code: String,
    pub severity: RuleSeverity,
    pub message: String,
    pub related: Option<String>,
}

/// The text of a finding: code, severity, message and related item.
pub type RuleText = (Seq<char>, RuleSeverity, Seq<char>, Option<Seq<char>>);

impl View for RuleResult {
    type V = RuleText;

    open spec fn view(&self) -> RuleText {
        (self.code@, self.severity, self.message@, opt_text(self.related))
    }
}

/// The texts of a list of findings.
pub open spec fn rule_texts(v: Seq<RuleResult>) -> Seq<RuleText> {
    v.map_values(|r: RuleResult| r@)
}

/// A check declared in a rule file.  Whether the file gave a ratio threshold
/// (`warn_if_greater_than`) is kept; the ratio itself is compared by the caller.
#[derive(Debug, Clone, PartialEq)]
pub struct CustomRule {
    pub id: String,
    pub kind: RuleKind,
    pub severity: RuleSeverityConfig,
    pub message: String,
    pub enabled: bool,
    pub region: Option<String>,
    pub section: Option<String>,
    pub symbol: Option<String>,
    pub object: Option<String>,
    pub pattern: Option<String>,
    pub has_ratio_threshold: bool,
    pub threshold_bytes: Option<i64>,
    pub warn_if_delta_bytes_gt: Option<i64>,
    pub allowlist: Vec<String>,
    pub denylist: Vec<String>,
}

/// What the byte-count checks look at.
#[derive(Debug, Clone)]
pub struct RuleContext {
    pub sections: Vec<SectionInfo>,
    pub symbols: Vec<SymbolInfo>,
    pub object_contributions: Vec<ObjectContribution>,
    pub region_summaries: Vec<RegionUsageSummary>,
    pub linker_script: Option<LinkerScriptInfo>,
    pub diff: Option<DiffResult>,
    pub symbol_growth_bytes: u64,
    pub region_low_free_bytes: u64,
    pub large_symbol_bytes: u64,
}

// ---------------------------------------------------------------------------
// Patterns and name filters
// ---------------------------------------------------------------------------
/// Whether `value` matches a rule pattern: `*` matches everything, `prefix/**`
/// matches what starts with `prefix`, `a*b` matches what starts with `a` and
/// ends with `b`, and any other pattern matches itself only.
pub open spec fn wildcard_matches(pattern: Seq<char>, value: Seq<char>) -> bool {
    if pattern == seq!['*'] {
        true
    } else if is_suffix(seq!['/', '*', '*'], pattern) {
        is_prefix(pattern.take(pattern.len() - 3), value)
    } else {
        match split_once_seq(pattern, seq!['*']) {
            Some((prefix, suffix)) => is_prefix(prefix, value) && is_suffix(suffix, value),
            None => value == pattern,
        }
    }
}

/// Whether a rule pattern matches a name.
pub fn wildcard_match(pattern: &str, value: &str) -> (r: bool)
    ensures
        r == wildcard_matches(pattern@, value@),
{
    let p = chars_of(pattern);
    let v = chars_of(value);
    if p.len() == 1 && p[0] == '*' {
        assert(p@ =~= seq!['*']);
        return true;
    }
    assert(p@ != seq!['*']) by {
        if p@ == seq!['*'] {
            assert(p@.len() == 1 && p@[0] == '*');
        }
    }
    let tail: Vec<char> = vec!['/', '*', '*'];
    assert(tail@ =~= seq!['/', '*', '*']);
    if chars_ends_with(&p, &tail) {
        let prefix = slice_chars(&p, 0, p.len() - 3);
        assert(prefix@ =~= p@.take(p@.len() - 3));
        return chars_starts_with(&v, &prefix);
    }
    let star: Vec<char> = vec!['*'];
    assert(star@ =~= seq!['*']);
    match chars_split_once(&p, &star) {
        Some((prefix, suffix)) => chars_starts_with(&v, &prefix) && chars_ends_with(&v, &suffix),
        None => {
            let r = chars_starts_with(&v, &p) && v.len() == p.len();
            proof {
                if r {
                    assert(v@ =~= p@);
                }
                if v@ == p@ {
                    assert(v@.take(p@.len() as int) =~= p@);
                }
            }
            r
        },
    }
}

/// Whether `name` is one of the strings of `list`.
pub open spec fn listed(list: Seq<String>, name: Seq<char>) -> bool {
    exists|i: int| 0 <= i < list.len() && (#[trigger] list[i])@ == name
}

/// Whether a name passes an allow list (an empty one allows everything) and
/// is not on a deny list.
pub open spec fn name_allowed(name: Seq<char>, allowlist: Seq<String>, denylist: Seq<String>) -> bool {
    (allowlist.len() == 0 || listed(allowlist, name)) && !listed(denylist, name)
}

fn is_listed(list: &Vec<String>, name: &str) -> (r: bool)
    ensures
        r == listed(list@, name@),
{
    let mut i: usize = 0;
    while i < list.len()
        invariant
            0 <= i <= list.len(),
            forall|k: int| 0 <= k < i ==> (#[trigger] list@[k])@ != name@,
        decreases list.len() - i,
    {
        if str_eq(list[i].as_str(), name) {
            return true;
        }
        i += 1;
    }
    false
}

/// Whether a name passes the allow and deny lists of a rule.
pub fn apply_name_filters(name: &str, allowlist: &Vec<String>, denylist: &Vec<String>) -> (r: bool)
    ensures
        r == name_allowed(name@, allowlist@, denylist@),
{
    let allowed = allowlist.len() == 0 || is_listed(allowlist, name);
    let denied = is_listed(denylist, name);
    allowed && !denied
}

// ---------------------------------------------------------------------------
// Findings
// ---------------------------------------------------------------------------
/// The severity a rule file asks for, as a finding's severity.
pub open spec fn severity_of(s: RuleSeverityConfig) -> RuleSeverity {
    match s {
        RuleSeverityConfig::Info => RuleSeverity::Info,
        RuleSeverityConfig::Warn => RuleSeverity::Warn,
        RuleSeverityConfig::Error => RuleSeverity::Error,
    }
}

/// The finding a custom rule reports for an item.
pub open spec fn custom_text(rule: CustomRule, related: Option<Seq<char>>) -> RuleText {
    (rule.id@, severity_of(rule.severity), rule.message@, related)
}

/// The finding a custom rule reports for an item.
pub fn custom_rule_result(rule: &CustomRule, related: Option<String>) -> (r: RuleResult)
    ensures
        r@ == custom_text(*rule, opt_text(related)),
{
    RuleResult {
        code: rule.id.clone(),
        severity: match rule.severity {
            RuleSeverityConfig::Info => RuleSeverity::Info,
            RuleSeverityConfig::Warn => RuleSeverity::Warn,
            RuleSeverityConfig::Error => RuleSeverity::Error,
        },
        message: rule.message.clone(),
        related,
    }
}

/// The level of a warning raised for a finding.
pub open spec fn level_of(s: RuleSeverity) -> WarningLevel {
    match s {
        RuleSeverity::Info => WarningLevel::Info,
        RuleSeverity::Warn => WarningLevel::Warn,
        RuleSeverity::Error => WarningLevel::Error,
    }
}

/// The warning raised for a finding; it is attributed to the analysis.
pub fn to_warning_item(result: RuleResult) -> (w: WarningItem)
    ensures
        w.level == level_of(result.severity),
        w.code@ == result.code@,
        w.message@ == result.message@,
        w.source == WarningSource::Analyze,
        w.related == result.related,
{
    WarningItem {
        level: match result.severity {
            RuleSeverity::Info => WarningLevel::Info,
            RuleSeverity::Warn => WarningLevel::Warn,
            RuleSeverity::Error => WarningLevel::Error,
        },
        code: result.code,
        message: result.message,
        source: WarningSource::Analyze,
        related: result.related,
    }
}

// ---------------------------------------------------------------------------
// Rule files
// ---------------------------------------------------------------------------
/// The error for a rule that lacks a field its kind needs.
pub open spec fn missing_field_text(id: Seq<char>, field: Seq<char>) -> Seq<char> {
    "rule '"@ + id + "' requires field '"@ + field + "'"@
}

/// The first problem of a custom rule, if it has one.
pub open spec fn rule_problem(rule: CustomRule) -> Option<Seq<char>> {
    let id = rule.id@;
    if trim(id).len() == 0 {
        Some("rule id must not be empty"@)
    } else if trim(rule.message@).len() == 0 {
        Some("rule '"@ + id + "' must have a non-empty message"@)
    } else {
        match rule.kind {
            RuleKind::RegionUsage => if rule.region is None {
                Some(missing_field_text(id, "region"@))
            } else if !rule.has_ratio_threshold {
                Some(missing_field_text(id, "warn_if_greater_than"@))
            } else {
                None
            },
            RuleKind::SectionDelta => if rule.section is None {
                Some(missing_field_text(id, "section"@))
            } else if rule.warn_if_delta_bytes_gt is None {
                Some(missing_field_text(id, "warn_if_delta_bytes_gt"@))
            } else {
                None
            },
            RuleKind::SymbolDelta => if rule.symbol is None {
                Some(missing_field_text(id, "symbol"@))
            } else if rule.warn_if_delta_bytes_gt is None {
                Some(missing_field_text(id, "warn_if_delta_bytes_gt"@))
            } else {
                None
            },
            RuleKind::SymbolMatch => if rule.symbol is None {
                Some(missing_field_text(id, "symbol"@))
            } else {
                None
            },
            RuleKind::ObjectMatch => if rule.object is None {
                Some(missing_field_text(id, "object"@))
            } else {
                None
            },
            RuleKind::SourcePathGrowth | RuleKind::FunctionGrowth => if rule.pattern is None {
                Some(missing_field_text(id, "pattern"@))
            } else if rule.threshold_bytes is None && rule.warn_if_delta_bytes_gt is None {
                Some(missing_field_text(id, "threshold_bytes"@))
            } else {
                None
            },
            RuleKind::UnknownSourceRatio => if !rule.has_ratio_threshold {
                Some(missing_field_text(id, "warn_if_greater_than"@))
            } else {
                None
            },
        }
    }
}

fn missing_field(id: &String, field: &str) -> (out: String)
    ensures
        out@ == missing_field_text(id@, field@),
{
    let mut v: Vec<char> = Vec::new();
    push_str_chars(&mut v, "rule '");
    push_str_chars(&mut v, id.as_str());
    push_str_chars(&mut v, "' requires field '");
    push_str_chars(&mut v, field);
    push_str_chars(&mut v, "'");
    proof {
        reveal_strlit("rule '");
        reveal_strlit("' requires field '");
        reveal_strlit("'");
    }
    assert(v@ =~= missing_field_text(id@, field@));
    string_of(&v)
}

/// Checks that a custom rule has an id, a message and the fields its kind needs.
pub fn validate_rule(rule: &CustomRule) -> (r: Result<(), String>)
    ensures
        match r {
            Ok(()) => rule_problem(*rule) is None,
            Err(e) => rule_problem(*rule) == Some(e@),
        },
{
    if str_is_blank(rule.id.as_str()) {
        return Err(string_from("rule id must not be empty"));
    }
    if str_is_blank(rule.message.as_str()) {
        let mut v: Vec<char> = Vec::new();
        push_str_chars(&mut v, "rule '");
        push_str_chars(&mut v, rule.id.as_str());
        push_str_chars(&mut v, "' must have a non-empty message");
        assert(v@ =~= "rule '"@ + rule.id@ + "' must have a non-empty message"@);
        return Err(string_of(&v));
    }
    match rule.kind {
        RuleKind::RegionUsage => {
            if rule.region.is_none() {
                return Err(missing_field(&rule.id, "region"));
            }
            if !rule.has_ratio_threshold {
                return Err(missing_field(&rule.id, "warn_if_greater_than"));
            }
        },
        RuleKind::SectionDelta => {
            if rule.section.is_none() {
                return Err(missing_field(&rule.id, "section"));
            }
            if rule.warn_if_delta_bytes_gt.is_none() {
                return Err(missing_field(&rule.id, "warn_if_delta_bytes_gt"));
            }
        },
        RuleKind::SymbolDelta => {
            if rule.symbol.is_none() {
                return Err(missing_field(&rule.id, "symbol"));
            }
            if rule.warn_if_delta_bytes_gt.is_none() {
                return Err(missing_field(&rule.id, "warn_if_delta_bytes_gt"));
            }
        },
        RuleKind::SymbolMatch => {
            if rule.symbol.is_none() {
                return Err(missing_field(&rule.id, "symbol"));
            }
        },
        RuleKind::ObjectMatch => {
            if rule.object.is_none() {
                return Err(missing_field(&rule.id, "object"));
            }
        },
        RuleKind::SourcePathGrowth | RuleKind::FunctionGrowth => {
            if rule.pattern.is_none() {
                return Err(missing_field(&rule.id, "pattern"));
            }
            if rule.threshold_bytes.is_none() && rule.warn_if_delta_bytes_gt.is_none() {
                return Err(missing_field(&rule.id, "threshold_bytes"));
            }
        },
        RuleKind::UnknownSourceRatio => {
            if !rule.has_ratio_threshold {
                return Err(missing_field(&rule.id, "warn_if_greater_than"));
            }
        },
    }
    Ok(())
}

/// The first problem of a rule file: an unsupported schema version, or the
/// first problem of its rules in order.
pub open spec fn rule_file_problem(schema_version: u32, rules: Seq<CustomRule>) -> Option<Seq<char>> {
    if schema_version != 1 {
        Some("unsupported rule schema_version "@ + dec(schema_version as nat) + ", expected 1"@)
    } else {
        first_rule_problem(rules)
    }
}

/// The problem of the first rule that has one.
pub open spec fn first_rule_problem(rules: Seq<CustomRule>) -> Option<Seq<char>>
    decreases rules.len(),
{
    if rules.len() == 0 {
        None
    } else {
        match rule_problem(rules[0]) {
            Some(e) => Some(e),
            None => first_rule_problem(rules.drop_first()),
        }
    }
}

proof fn lemma_first_rule_problem_step(rules: Seq<CustomRule>, i: int)
    requires
        0 <= i < rules.len(),
        first_rule_problem(rules.take(i)) is None,
    ensures
        first_rule_problem(rules.take(i + 1)) == (match rule_problem(rules[i]) {
            Some(e) => Some(e),
            None => None::<Seq<char>>,
        }),
    decreases i,
{
    if i > 0 {
        let t = rules.drop_first();
        assert(rules.take(i).drop_first() =~= t.take(i - 1));
        assert(rules.take(i + 1).drop_first() =~= t.take(i));
        assert(rules.take(i)[0] == rules[0]);
        assert(rules.take(i + 1)[0] == rules[0]);
        assert(t[i - 1] == rules[i]);
        lemma_first_rule_problem_step(t, i - 1);
    } else {
        assert(rules.take(1).drop_first() =~= Seq::<CustomRule>::empty());
        assert(rules.take(1)[0] == rules[0]);
        assert(first_rule_problem(rules.take(1).drop_first()) is None);
    }
}

/// Checks the schema version of a rule file and each of its rules.
pub fn validate_rule_config(schema_version: u32, rules: &Vec<CustomRule>) -> (r: Result<(), String>)
    ensures
        match r {
            Ok(()) => rule_file_problem(schema_version, rules@) is None,
            Err(e) => rule_file_problem(schema_version, rules@) == Some(e@),
        },
{
    if schema_version != 1 {
        let mut v: Vec<char> = Vec::new();
        push_str_chars(&mut v, "unsupported rule schema_version ");
        push_dec(&mut v, schema_version as u64);
        push_str_chars(&mut v, ", expected 1");
        return Err(string_of(&v));
    }
    let mut i: usize = 0;
    while i < rules.len()
        invariant
            0 <= i <= rules.len(),
            schema_version == 1,
            first_rule_problem(rules@.take(i as int)) is None,
        decreases rules.len() - i,
    {
        proof {
            lemma_first_rule_problem_step(rules@, i as int);
        }
        match validate_rule(&rules[i]) {
            Ok(()) => {},
            Err(e) => {
                proof {
                    lemma_first_rule_problem_prefix(rules@, i + 1);
                }
                return Err(e);
            },
        }
        i += 1;
    }
    assert(rules@.take(rules.len() as int) =~= rules@);
    Ok(())
}

proof fn lemma_first_rule_problem_prefix(rules: Seq<CustomRule>, n: int)
    requires
        0 <= n <= rules.len(),
        first_rule_problem(rules.take(n)) is Some,
    ensures
        first_rule_problem(rules) == first_rule_problem(rules.take(n)),
    decreases n,
{
    if n > 0 {
        let t = rules.drop_first();
        assert(rules.take(n).drop_first() =~= t.take(n - 1));
        assert(rules.take(n)[0] == rules[0]);
        if rule_problem(rules[0]) is None {
            lemma_first_rule_problem_prefix(t, n - 1);
        }
    } else {
        assert(first_rule_problem(rules.take(0)) is None);
    }
}

// ---------------------------------------------------------------------------
// Capacity
// ---------------------------------------------------------------------------
/// Whether a region's name is one of `names`, ignoring ASCII case.
pub open spec fn region_named_any(r: MemoryRegion, names: Seq<String>) -> bool {
    exists|j: int| 0 <= j < names.len() && eq_ignore_case(r.name@, (#[trigger] names[j])@)
}

/// The summed length of the regions whose name is one of `names`.
pub open spec fn capacity_sum(regions: Seq<MemoryRegion>, names: Seq<String>) -> int
    decreases regions.len(),
{
    if regions.len() == 0 {
        0
    } else {
        capacity_sum(regions.drop_last(), names) + if region_named_any(regions.last(), names) {
            regions.last().length as int
        } else {
            0
        }
    }
}

proof fn lemma_capacity_sum_prefix(regions: Seq<MemoryRegion>, names: Seq<String>, i: int)
    requires
        0 <= i <= regions.len(),
    ensures
        0 <= capacity_sum(regions.take(i), names) <= capacity_sum(regions, names),
    decreases regions.len() - i,
{
    if i < regions.len() {
        lemma_capacity_sum_prefix(regions, names, i + 1);
        assert(regions.take(i + 1).drop_last() =~= regions.take(i));
    } else {
        assert(regions.take(i) =~= regions);
    }
    lemma_capacity_sum_nonneg(regions.take(i), names);
}

proof fn lemma_capacity_sum_nonneg(regions: Seq<MemoryRegion>, names: Seq<String>)
    ensures
        capacity_sum(regions, names) >= 0,
    decreases regions.len(),
{
    if regions.len() > 0 {
        lemma_capacity_sum_nonneg(regions.drop_last(), names);
    }
}

fn named_any(name: &str, names: &Vec<String>) -> (r: bool)
    ensures
        forall|reg: MemoryRegion| reg.name@ == name@ ==> (r == region_named_any(reg, names@)),
{
    let mut j: usize = 0;
    while j < names.len()
        invariant
            0 <= j <= names.len(),
            forall|k: int| 0 <= k < j ==> !eq_ignore_case(name@, (#[trigger] names@[k])@),
        decreases names.len() - j,
    {
        let a = chars_of(name);
        let b = chars_of(names[j].as_str());
        if chars_eq_ignore_case(&a, &b) {
            return true;
        }
        j += 1;
    }
    false
}

/// The summed length of the regions named by `names` (ignoring ASCII case), or
/// `None` when that sum is zero.
pub fn memory_capacity(regions: &Vec<MemoryRegion>, names: &Vec<String>) -> (r: Option<u64>)
    requires
        capacity_sum(regions@, names@) <= u64::MAX,
    ensures
        match r {
            Some(total) => total == capacity_sum(regions@, names@) && total > 0,
            None => capacity_sum(regions@, names@) == 0,
        },
{
    let mut total: u64 = 0;
    let mut i: usize = 0;
    while i < regions.len()
        invariant
            0 <= i <= regions.len(),
            total == capacity_sum(regions@.take(i as int), names@),
            capacity_sum(regions@, names@) <= u64::MAX,
        decreases regions.len() - i,
    {
        proof {
            lemma_capacity_sum_prefix(regions@, names@, i + 1);
            assert(regions@.take(i + 1).drop_last() =~= regions@.take(i as int));
        }
        if named_any(regions[i].name.as_str(), names) {
            total = total + regions[i].length;
        }
        i += 1;
    }
    assert(regions@.take(regions.len() as int) =~= regions@);
    if total > 0 {
        Some(total)
    } else {
        None
    }
}

// ---------------------------------------------------------------------------
// Custom rules
// ---------------------------------------------------------------------------
/// The findings a custom rule reports for the items of `items` that `keep`
/// selects, in order, each related to the item's `label`.
pub open spec fn hits<T>(
    items: Seq<T>,
    keep: spec_fn(T) -> bool,
    label: spec_fn(T) -> Seq<char>,
    rule: CustomRule,
) -> Seq<RuleText>
    decreases items.len(),
{
    if items.len() == 0 {
        Seq::empty()
    } else {
        let prev = hits(items.drop_last(), keep, label, rule);
        if keep(items.last()) {
            prev.push(custom_text(rule, Some(label(items.last()))))
        } else {
            prev
        }
    }
}

proof fn lemma_hits_step<T>(
    items: Seq<T>,
    keep: spec_fn(T) -> bool,
    label: spec_fn(T) -> Seq<char>,
    rule: CustomRule,
    i: int,
)
    requires
        0 <= i < items.len(),
    ensures
        hits(items.take(i + 1), keep, label, rule) == (if keep(items[i]) {
            hits(items.take(i), keep, label, rule).push(custom_text(rule, Some(label(items[i]))))
        } else {
            hits(items.take(i), keep, label, rule)
        }),
{
    assert(items.take(i + 1).drop_last() =~= items.take(i));
}

proof fn lemma_texts_push(v: Seq<RuleResult>, x: RuleResult)
    ensures
        rule_texts(v.push(x)) == rule_texts(v).push(x@),
{
    assert(rule_texts(v.push(x)) =~= rule_texts(v).push(x@));
}

/// The name of a diff entry.
pub open spec fn entry_label() -> spec_fn(DiffEntry) -> Seq<char> {
    |e: DiffEntry| e.name@
}

/// Entries named `name` that grew by more than `threshold` and pass the rule's lists.
pub open spec fn named_delta_keep(name: Seq<char>, threshold: i64, rule: CustomRule) -> spec_fn(DiffEntry) -> bool {
    |e: DiffEntry| e.name@ == name && e.delta > threshold && name_allowed(e.name@, rule.allowlist@, rule.denylist@)
}

/// Entries that grew by more than `threshold` and whose name matches `pattern`.
pub open spec fn pattern_growth_keep(pattern: Seq<char>, threshold: i64) -> spec_fn(DiffEntry) -> bool {
    |e: DiffEntry| e.delta > threshold && wildcard_matches(pattern, e.name@)
}

/// Symbols named `name` that pass the rule's lists.
pub open spec fn symbol_match_keep(name: Seq<char>, rule: CustomRule) -> spec_fn(SymbolInfo) -> bool {
    |s: SymbolInfo| s.name@ == name && name_allowed(s.name@, rule.allowlist@, rule.denylist@)
}

/// Contributions of the object `name` that pass the rule's lists.
pub open spec fn object_match_keep(name: Seq<char>, rule: CustomRule) -> spec_fn(ObjectContribution) -> bool {
    |o: ObjectContribution| o.object_path@ == name && name_allowed(o.object_path@, rule.allowlist@, rule.denylist@)
}

fn named_delta_hits(entries: &Vec<DiffEntry>, name: &str, threshold: i64, rule: &CustomRule) -> (out: Vec<RuleResult>)
    ensures
        rule_texts(out@) == hits(entries@, named_delta_keep(name@, threshold, *rule), entry_label(), *rule),
{
    let mut out: Vec<RuleResult> = Vec::new();
    let mut i: usize = 0;
    while i < entries.len()
        invariant
            0 <= i <= entries.len(),
            rule_texts(out@) == hits(entries@.take(i as int), named_delta_keep(name@, threshold, *rule), entry_label(), *rule),
        decreases entries.len() - i,
    {
        proof {
            lemma_hits_step(entries@, named_delta_keep(name@, threshold, *rule), entry_label(), *rule, i as int);
        }
        let e = &entries[i];
        if str_eq(e.name.as_str(), name) && e.delta > threshold
            && apply_name_filters(e.name.as_str(), &rule.allowlist, &rule.denylist) {
            let r = custom_rule_result(rule, Some(e.name.clone()));
            proof {
                lemma_texts_push(out@, r);
            }
            out.push(r);
        }
        i += 1;
    }
    assert(entries@.take(entries.len() as int) =~= entries@);
    out
}

fn pattern_growth_hits(entries: &Vec<DiffEntry>, pattern: &str, threshold: i64, rule: &CustomRule) -> (out: Vec<RuleResult>)
    ensures
        rule_texts(out@) == hits(entries@, pattern_growth_keep(pattern@, threshold), entry_label(), *rule),
{
    let mut out: Vec<RuleResult> = Vec::new();
    let mut i: usize = 0;
    while i < entries.len()
        invariant
            0 <= i <= entries.len(),
            rule_texts(out@) == hits(entries@.take(i as int), pattern_growth_keep(pattern@, threshold), entry_label(), *rule),
        decreases entries.len() - i,
    {
        proof {
            lemma_hits_step(entries@, pattern_growth_keep(pattern@, threshold), entry_label(), *rule, i as int);
        }
        let e = &entries[i];
        if e.delta > threshold && wildcard_match(pattern, e.name.as_str()) {
            let r = custom_rule_result(rule, Some(e.name.clone()));
            proof {
                lemma_texts_push(out@, r);
            }
            out.push(r);
        }
        i += 1;
    }
    assert(entries@.take(entries.len() as int) =~= entries@);
    out
}

fn symbol_match_hits(symbols: &Vec<SymbolInfo>, name: &str, rule: &CustomRule) -> (out: Vec<RuleResult>)
    ensures
        rule_texts(out@) == hits(symbols@, symbol_match_keep(name@, *rule), |s: SymbolInfo| s.name@, *rule),
{
    let mut out: Vec<RuleResult> = Vec::new();
    let mut i: usize = 0;
    while i < symbols.len()
        invariant
            0 <= i <= symbols.len(),
            rule_texts(out@) == hits(symbols@.take(i as int), symbol_match_keep(name@, *rule), |s: SymbolInfo| s.name@, *rule),
        decreases symbols.len() - i,
    {
        proof {
            lemma_hits_step(symbols@, symbol_match_keep(name@, *rule), |s: SymbolInfo| s.name@, *rule, i as int);
        }
        let e = &symbols[i];
        if str_eq(e.name.as_str(), name) && apply_name_filters(e.name.as_str(), &rule.allowlist, &rule.denylist) {
            let r = custom_rule_result(rule, Some(e.name.clone()));
            proof {
                lemma_texts_push(out@, r);
            }
            out.push(r);
        }
        i += 1;
    }
    assert(symbols@.take(symbols.len() as int) =~= symbols@);
    out
}

fn object_match_hits(objects: &Vec<ObjectContribution>, name: &str, rule: &CustomRule) -> (out: Vec<RuleResult>)
    ensures
        rule_texts(out@) == hits(objects@, object_match_keep(name@, *rule), |o: ObjectContribution| o.object_path@, *rule),
{
    let mut out: Vec<RuleResult> = Vec::new();
    let mut i: usize = 0;
    while i < objects.len()
        invariant
            0 <= i <= objects.len(),
            rule_texts(out@) == hits(
                objects@.take(i as int),
                object_match_keep(name@, *rule),
                |o: ObjectContribution| o.object_path@,
                *rule,
            ),
        decreases objects.len() - i,
    {
        proof {
            lemma_hits_step(objects@, object_match_keep(name@, *rule), |o: ObjectContribution| o.object_path@, *rule, i as int);
        }
        let e = &objects[i];
        if str_eq(e.object_path.as_str(), name) && apply_name_filters(e.object_path.as_str(), &rule.allowlist, &rule.denylist) {
            let r = custom_rule_result(rule, Some(e.object_path.clone()));
            proof {
                lemma_texts_push(out@, r);
            }
            out.push(r);
        }
        i += 1;
    }
    assert(objects@.take(objects.len() as int) =~= objects@);
    out
}

/// The byte threshold of a growth rule: `threshold_bytes`, else
/// `warn_if_delta_bytes_gt`, else zero.
pub open spec fn growth_threshold(rule: CustomRule) -> i64 {
    match rule.threshold_bytes {
        Some(t) => t,
        None => match rule.warn_if_delta_bytes_gt {
            Some(t) => t,
            None => 0,
        },
    }
}

/// What a custom rule reports on the byte counts of an analysis and its diff.
/// The two kinds that compare a ratio (`RegionUsage`, `UnknownSourceRatio`)
/// are not decided here: they give `None`.
pub open spec fn custom_rule_hits(ctx: RuleContext, rule: CustomRule) -> Option<Seq<RuleText>> {
    match rule.kind {
        RuleKind::RegionUsage | RuleKind::UnknownSourceRatio => None,
        RuleKind::SectionDelta => Some(
            match (ctx.diff, rule.section, rule.warn_if_delta_bytes_gt) {
                (Some(d), Some(n), Some(t)) => hits(d.section_diffs@, named_delta_keep(n@, t, rule), entry_label(), rule),
                _ => Seq::empty(),
            },
        ),
        RuleKind::SymbolDelta => Some(
            match (ctx.diff, rule.symbol, rule.warn_if_delta_bytes_gt) {
                (Some(d), Some(n), Some(t)) => hits(d.symbol_diffs@, named_delta_keep(n@, t, rule), entry_label(), rule),
                _ => Seq::empty(),
            },
        ),
        RuleKind::SymbolMatch => Some(
            match rule.symbol {
                Some(n) => hits(ctx.symbols@, symbol_match_keep(n@, rule), |s: SymbolInfo| s.name@, rule),
                None => Seq::empty(),
            },
        ),
        RuleKind::ObjectMatch => Some(
            match rule.object {
                Some(n) => hits(
                    ctx.object_contributions@,
                    object_match_keep(n@, rule),
                    |o: ObjectContribution| o.object_path@,
                    rule,
                ),
                None => Seq::empty(),
            },
        ),
        RuleKind::SourcePathGrowth => Some(
            match (ctx.diff, rule.pattern) {
                (Some(d), Some(p)) => hits(
                    d.source_file_diffs@,
                    pattern_growth_keep(p@, growth_threshold(rule)),
                    entry_label(),
                    rule,
                ),
                _ => Seq::empty(),
            },
        ),
        RuleKind::FunctionGrowth => Some(
            match (ctx.diff, rule.pattern) {
                (Some(d), Some(p)) => hits(
                    d.function_diffs@,
                    pattern_growth_keep(p@, growth_threshold(rule)),
                    entry_label(),
                    rule,
                ),
                _ => Seq::empty(),
            },
        ),
    }
}

/// Evaluates one custom rule on the byte counts of an analysis and its diff;
/// `None` for the kinds that compare a ratio.
pub fn evaluate_custom_rule(ctx: &RuleContext, rule: &CustomRule) -> (r: Option<Vec<RuleResult>>)
    ensures
        match r {
            Some(v) => custom_rule_hits(*ctx, *rule) == Some(rule_texts(v@)),
            None => custom_rule_hits(*ctx, *rule) is None,
        },
{
    let threshold = match rule.threshold_bytes {
        Some(t) => t,
        None => match rule.warn_if_delta_bytes_gt {
            Some(t) => t,
            None => 0,
        },
    };
    match rule.kind {
        RuleKind::RegionUsage | RuleKind::UnknownSourceRatio => None,
        RuleKind::SectionDelta => match (&ctx.diff, &rule.section, rule.warn_if_delta_bytes_gt) {
            (Some(d), Some(n), Some(t)) => Some(named_delta_hits(&d.section_diffs, n.as_str(), t, rule)),
            _ => {
                assert(rule_texts(Seq::<RuleResult>::empty()) =~= Seq::<RuleText>::empty());
                Some(Vec::new())
            },
        },
        RuleKind::SymbolDelta => match (&ctx.diff, &rule.symbol, rule.warn_if_delta_bytes_gt) {
            (Some(d), Some(n), Some(t)) => Some(named_delta_hits(&d.symbol_diffs, n.as_str(), t, rule)),
            _ => {
                assert(rule_texts(Seq::<RuleResult>::empty()) =~= Seq::<RuleText>::empty());
                Some(Vec::new())
            },
        },
        RuleKind::SymbolMatch => match &rule.symbol {
            Some(n) => Some(symbol_match_hits(&ctx.symbols, n.as_str(), rule)),
            None => {
                assert(rule_texts(Seq::<RuleResult>::empty()) =~= Seq::<RuleText>::empty());
                Some(Vec::new())
            },
        },
        RuleKind::ObjectMatch => match &rule.object {
            Some(n) => Some(object_match_hits(&ctx.object_contributions, n.as_str(), rule)),
            None => {
                assert(rule_texts(Seq::<RuleResult>::empty()) =~= Seq::<RuleText>::empty());
                Some(Vec::new())
            },
        },
        RuleKind::SourcePathGrowth => match (&ctx.diff, &rule.pattern) {
            (Some(d), Some(p)) => Some(pattern_growth_hits(&d.source_file_diffs, p.as_str(), threshold, rule)),
            _ => {
                assert(rule_texts(Seq::<RuleResult>::empty()) =~= Seq::<RuleText>::empty());
                Some(Vec::new())
            },
        },
        RuleKind::FunctionGrowth => match (&ctx.diff, &rule.pattern) {
            (Some(d), Some(p)) => Some(pattern_growth_hits(&d.function_diffs, p.as_str(), threshold, rule)),
            _ => {
                assert(rule_texts(Seq::<RuleResult>::empty()) =~= Seq::<RuleText>::empty());
                Some(Vec::new())
            },
        },
    }
}

// ---------------------------------------------------------------------------
// Default checks decided on byte counts
// ---------------------------------------------------------------------------
/// `a + b`, or `u64::MAX` when that overflows.
pub open spec fn sat_add(a: u64, b: u64) -> int {
    if a + b > u64::MAX {
        u64::MAX as int
    } else {
        a + b
    }
}

/// Whether a section has the given name.
pub open spec fn section_called(name: Seq<char>) -> spec_fn(SectionInfo) -> bool {
    |s: SectionInfo| s.name@ == name
}

/// Whether a region has the given name.
pub open spec fn region_called(name: Seq<char>) -> spec_fn(MemoryRegion) -> bool {
    |r: MemoryRegion| r.name@ == name
}

/// The finding for a section placed in a region that does not hold its addresses.
pub open spec fn mismatch_text(sec: SectionInfo, reg: MemoryRegion) -> RuleText {
    (
        "SECTION_REGION_MISMATCH"@,
        RuleSeverity::Warn,
        "Section "@ + sec.name@ + " is assigned to region "@ + reg.name@
            + " but its address is outside the region range"@,
        Some(sec.name@),
    )
}

/// The finding for one placement of a linker script: the first section and the
/// first region of the placed names are looked up, and a section whose
/// `[addr, addr + size)` (saturating) does not lie in the region is reported.
pub open spec fn placement_finding(
    sections: Seq<SectionInfo>,
    regions: Seq<MemoryRegion>,
    p: crate::model::SectionPlacement,
) -> Option<RuleText> {
    match first_match(sections, section_called(p.section_name@)) {
        None => None,
        Some(sec) => match first_match(regions, region_called(p.region_name@)) {
            None => None,
            Some(reg) => if sec.addr >= reg.origin && sat_add(sec.addr, sec.size) <= sat_add(reg.origin, reg.length) {
                None
            } else {
                Some(mismatch_text(sec, reg))
            },
        },
    }
}

/// The findings for the placements of a linker script, in order.
pub open spec fn mismatch_findings(
    sections: Seq<SectionInfo>,
    regions: Seq<MemoryRegion>,
    placements: Seq<crate::model::SectionPlacement>,
) -> Seq<RuleText>
    decreases placements.len(),
{
    if placements.len() == 0 {
        Seq::empty()
    } else {
        let prev = mismatch_findings(sections, regions, placements.drop_last());
        match placement_finding(sections, regions, placements.last()) {
            Some(t) => prev.push(t),
            None => prev,
        }
    }
}

/// The section/region mismatches of an analysis with a linker script.
pub open spec fn section_region_findings(ctx: RuleContext) -> Seq<RuleText> {
    match ctx.linker_script {
        Some(l) => mismatch_findings(ctx.sections@, l.regions@, l.placements@),
        None => Seq::empty(),
    }
}

fn find_section_called(sections: &Vec<SectionInfo>, name: &str) -> (r: Option<usize>)
    ensures
        match r {
            Some(i) => i < sections@.len() && first_match(sections@, section_called(name@)) == Some(sections@[i as int]),
            None => first_match(sections@, section_called(name@)) is None,
        },
{
    let mut i: usize = 0;
    while i < sections.len()
        invariant
            0 <= i <= sections.len(),
            forall|k: int| 0 <= k < i ==> !section_called(name@)(#[trigger] sections@[k]),
        decreases sections.len() - i,
    {
        if str_eq(sections[i].name.as_str(), name) {
            proof {
                lemma_first_match_found(sections@, section_called(name@), i as int);
            }
            return Some(i);
        }
        i += 1;
    }
    proof {
        lemma_first_match_none(sections@, section_called(name@));
    }
    None
}

fn find_region_called(regions: &Vec<MemoryRegion>, name: &str) -> (r: Option<usize>)
    ensures
        match r {
            Some(i) => i < regions@.len() && first_match(regions@, region_called(name@)) == Some(regions@[i as int]),
            None => first_match(regions@, region_called(name@)) is None,
        },
{
    let mut i: usize = 0;
    while i < regions.len()
        invariant
            0 <= i <= regions.len(),
            forall|k: int| 0 <= k < i ==> !region_called(name@)(#[trigger] regions@[k]),
        decreases regions.len() - i,
    {
        if str_eq(regions[i].name.as_str(), name) {
            proof {
                lemma_first_match_found(regions@, region_called(name@), i as int);
            }
            return Some(i);
        }
        i += 1;
    }
    proof {
        lemma_first_match_none(regions@, region_called(name@));
    }
    None
}

fn mismatch_result(sec: &SectionInfo, reg: &MemoryRegion) -> (r: RuleResult)
    ensures
        r@ == mismatch_text(*sec, *reg),
{
    let mut v: Vec<char> = Vec::new();
    push_str_chars(&mut v, "Section ");
    push_str_chars(&mut v, sec.name.as_str());
    push_str_chars(&mut v, " is assigned to region ");
    push_str_chars(&mut v, reg.name.as_str());
    push_str_chars(&mut v, " but its address is outside the region range");
    RuleResult {
        code: string_from("SECTION_REGION_MISMATCH"),
        severity: RuleSeverity::Warn,
        message: string_of(&v),
        related: Some(sec.name.clone()),
    }
}

/// Reports each placement of the linker script whose section lies outside its
/// region.
pub fn section_region_mismatch(ctx: &RuleContext) -> (out: Vec<RuleResult>)
    ensures
        rule_texts(out@) == section_region_findings(*ctx),
{
    let mut out: Vec<RuleResult> = Vec::new();
    match &ctx.linker_script {
        None => {
            assert(rule_texts(out@) =~= Seq::<RuleText>::empty());
        },
        Some(l) => {
            let mut i: usize = 0;
            assert(l.placements@.take(0) =~= Seq::<crate::model::SectionPlacement>::empty());
            assert(rule_texts(out@) =~= Seq::<RuleText>::empty());
            while i < l.placements.len()
                invariant
                    0 <= i <= l.placements.len(),
                    rule_texts(out@) == mismatch_findings(ctx.sections@, l.regions@, l.placements@.take(i as int)),
                decreases l.placements.len() - i,
            {
                let p = &l.placements[i];
                assert(l.placements@.take(i + 1).drop_last() =~= l.placements@.take(i as int));
                assert(l.placements@.take(i + 1).last() == *p);
                match find_section_called(&ctx.sections, p.section_name.as_str()) {
                    None => {},
                    Some(si) => match find_region_called(&l.regions, p.region_name.as_str()) {
                        None => {},
                        Some(ri) => {
                            let sec = &ctx.sections[si];
                            let reg = &l.regions[ri];
                            let in_range = sec.addr >= reg.origin
                                && sec.addr.saturating_add(sec.size) <= reg.origin.saturating_add(reg.length);
                            if !in_range {
                                let r = mismatch_result(sec, reg);
                                proof {
                                    lemma_texts_push(out@, r);
                                }
                                out.push(r);
                            }
                        },
                    },
                }
                i += 1;
            }
            assert(l.placements@.take(l.placements.len() as int) =~= l.placements@);
        },
    }
    out
}

/// `t as i64`: the two's-complement reading of a `u64` threshold.
pub open spec fn as_signed(t: u64) -> int {
    if t <= i64::MAX {
        t as int
    } else {
        t - 0x1_0000_0000_0000_0000
    }
}

/// Symbol diffs that grew by at least the threshold.
pub open spec fn spike_keep(t: u64) -> spec_fn(DiffEntry) -> bool {
    |e: DiffEntry| e.delta >= as_signed(t)
}

/// The finding for the first symbol whose growth reaches the threshold.
pub open spec fn symbol_spike_findings(ctx: RuleContext) -> Seq<RuleText> {
    match ctx.diff {
        None => Seq::empty(),
        Some(d) => match first_match(d.symbol_diffs@, spike_keep(ctx.symbol_growth_bytes)) {
            Some(e) => seq![
                (
                    "SYMBOL_SPIKE"@,
                    RuleSeverity::Warn,
                    "Symbol growth spike: "@ + e.name@ + " ("@ + dec_signed(e.delta as int) + ")"@,
                    Some(e.name@),
                ),
            ],
            None => Seq::empty(),
        },
    }
}

fn signed_threshold(t: u64) -> (r: i64)
    ensures
        r == as_signed(t),
{
    if t <= 0x7fff_ffff_ffff_ffff {
        t as i64
    } else {
        ((t - 0x8000_0000_0000_0000u64) as i64) + i64::MIN
    }
}

/// Reports the first symbol whose growth reaches the growth threshold.
pub fn symbol_spike(ctx: &RuleContext) -> (out: Vec<RuleResult>)
    ensures
        rule_texts(out@) == symbol_spike_findings(*ctx),
{
    let mut out: Vec<RuleResult> = Vec::new();
    match &ctx.diff {
        None => {},
        Some(d) => {
            let t = signed_threshold(ctx.symbol_growth_bytes);
            let mut i: usize = 0;
            while i < d.symbol_diffs.len()
                invariant
                    0 <= i <= d.symbol_diffs.len(),
                    t == as_signed(ctx.symbol_growth_bytes),
                    ctx.diff == Some(*d),
                    out@.len() == 0,
                    forall|k: int| 0 <= k < i ==> !spike_keep(ctx.symbol_growth_bytes)(#[trigger] d.symbol_diffs@[k]),
                decreases d.symbol_diffs.len() - i,
            {
                let e = &d.symbol_diffs[i];
                if e.delta >= t {
                    proof {
                        lemma_first_match_found(d.symbol_diffs@, spike_keep(ctx.symbol_growth_bytes), i as int);
                    }
                    let mut v: Vec<char> = Vec::new();
                    push_str_chars(&mut v, "Symbol growth spike: ");
                    push_str_chars(&mut v, e.name.as_str());
                    push_str_chars(&mut v, " (");
                    push_dec_signed(&mut v, e.delta);
                    push_str_chars(&mut v, ")");
                    assert(v@ =~= "Symbol growth spike: "@ + e.name@ + " ("@ + dec_signed(e.delta as int) + ")"@);
                    let r = RuleResult {
                        code: string_from("SYMBOL_SPIKE"),
                        severity: RuleSeverity::Warn,
                        message: string_of(&v),
                        related: Some(e.name.clone()),
                    };
                    out.push(r);
                    assert(rule_texts(out@) =~= seq![r@]);
                    return out;
                }
                i += 1;
            }
            proof {
                lemma_first_match_none(d.symbol_diffs@, spike_keep(ctx.symbol_growth_bytes));
            }
        },
    }
    assert(rule_texts(out@) =~= Seq::<RuleText>::empty());
    out
}

/// The indices of the items that `keep` selects, in order.
pub open spec fn kept_indices<T>(s: Seq<T>, keep: spec_fn(T) -> bool) -> Seq<int>
    decreases s.len(),
{
    if s.len() == 0 {
        Seq::empty()
    } else {
        let prev = kept_indices(s.drop_last(), keep);
        if keep(s.last()) {
            prev.push(s.len() - 1)
        } else {
            prev
        }
    }
}

/// At most the first `n` elements of `s`.
pub open spec fn at_most(s: Seq<int>, n: nat) -> Seq<int> {
    if s.len() <= n {
        s
    } else {
        s.take(n as int)
    }
}

/// The indices of a list of positions.
pub open spec fn positions(v: Seq<usize>) -> Seq<int> {
    v.map_values(|i: usize| i as int)
}

proof fn lemma_kept_step<T>(s: Seq<T>, keep: spec_fn(T) -> bool, i: int)
    requires
        0 <= i < s.len(),
    ensures
        kept_indices(s.take(i + 1), keep) == (if keep(s[i]) {
            kept_indices(s.take(i), keep).push(i)
        } else {
            kept_indices(s.take(i), keep)
        }),
{
    assert(s.take(i + 1).drop_last() =~= s.take(i));
}

/// Symbols at least as large as the threshold.
pub open spec fn large_keep(t: u64) -> spec_fn(SymbolInfo) -> bool {
    |s: SymbolInfo| s.size >= t
}

/// The positions of the first five symbols that are at least as large as the
/// large-symbol threshold (the caller reports them with their sizes).
pub fn large_symbols(ctx: &RuleContext) -> (out: Vec<usize>)
    ensures
        positions(out@) == at_most(kept_indices(ctx.symbols@, large_keep(ctx.large_symbol_bytes)), 5),
{
    let mut out: Vec<usize> = Vec::new();
    let mut i: usize = 0;
    assert(positions(out@) =~= Seq::<int>::empty());
    while i < ctx.symbols.len()
        invariant
            0 <= i <= ctx.symbols.len(),
            positions(out@) == at_most(kept_indices(ctx.symbols@.take(i as int), large_keep(ctx.large_symbol_bytes)), 5),
        decreases ctx.symbols.len() - i,
    {
        proof {
            lemma_kept_step(ctx.symbols@, large_keep(ctx.large_symbol_bytes), i as int);
        }
        let ghost before = kept_indices(ctx.symbols@.take(i as int), large_keep(ctx.large_symbol_bytes));
        let ghost old_out = out@;
        if ctx.symbols[i].size >= ctx.large_symbol_bytes {
            if out.len() < 5 {
                out.push(i);
                assert(out@ == old_out.push(i));
                assert(positions(old_out).len() == old_out.len());
                assert(before.len() < 5);
                assert(positions(out@) =~= positions(old_out).push(i as int));
                assert(positions(out@) =~= before.push(i as int));
            } else {
                assert(before.push(i as int).take(5) =~= before.take(5));
            }
        }
        i += 1;
    }
    assert(ctx.symbols@.take(ctx.symbols.len() as int) =~= ctx.symbols@);
    out
}

/// Regions whose free space is at most the threshold.
pub open spec fn low_free_keep(t: u64) -> spec_fn(RegionUsageSummary) -> bool {
    |r: RegionUsageSummary| r.free <= t
}

/// The positions of the regions whose free space is at most the low-free
/// threshold (the caller reports them with their free bytes).
pub fn low_free_regions(ctx: &RuleContext) -> (out: Vec<usize>)
    ensures
        positions(out@) == kept_indices(ctx.region_summaries@, low_free_keep(ctx.region_low_free_bytes)),
{
    let mut out: Vec<usize> = Vec::new();
    let mut i: usize = 0;
    assert(positions(out@) =~= Seq::<int>::empty());
    while i < ctx.region_summaries.len()
        invariant
            0 <= i <= ctx.region_summaries.len(),
            positions(out@) == kept_indices(ctx.region_summaries@.take(i as int), low_free_keep(ctx.region_low_free_bytes)),
        decreases ctx.region_summaries.len() - i,
    {
        proof {
            lemma_kept_step(ctx.region_summaries@, low_free_keep(ctx.region_low_free_bytes), i as int);
        }
        let ghost old_out = out@;
        if ctx.region_summaries[i].free <= ctx.region_low_free_bytes {
            out.push(i);
            assert(out@ == old_out.push(i));
            assert(positions(out@) =~= positions(old_out).push(i as int));
        }
        i += 1;
    }
    assert(ctx.region_summaries@.take(ctx.region_summaries.len() as int) =~= ctx.region_summaries@);
    out
}

/// Diff entries of the named section that had a previous size.
pub open spec fn growth_keep(name: Seq<char>) -> spec_fn(DiffEntry) -> bool {
    |e: DiffEntry| e.name@ == name && e.previous > 0
}

/// The position of the first diff entry of the named section that had a
/// previous size (the caller computes its growth rate).
pub fn section_growth_entry(ctx: &RuleContext, section_name: &str) -> (r: Option<usize>)
    ensures
        match (r, ctx.diff) {
            (Some(i), Some(d)) => i < d.section_diffs@.len() && first_match(d.section_diffs@, growth_keep(section_name@))
                == Some(d.section_diffs@[i as int]),
            (Some(_), None) => false,
            (None, Some(d)) => first_match(d.section_diffs@, growth_keep(section_name@)) is None,
            (None, None) => true,
        },
{
    match &ctx.diff {
        None => None,
        Some(d) => {
            let mut i: usize = 0;
            while i < d.section_diffs.len()
                invariant
                    0 <= i <= d.section_diffs.len(),
                    ctx.diff == Some(*d),
                    forall|k: int| 0 <= k < i ==> !growth_keep(section_name@)(#[trigger] d.section_diffs@[k]),
                decreases d.section_diffs.len() - i,
            {
                if str_eq(d.section_diffs[i].name.as_str(), section_name) && d.section_diffs[i].previous > 0 {
                    proof {
                        lemma_first_match_found(d.section_diffs@, growth_keep(section_name@), i as int);
                    }
                    return Some(i);
                }
                i += 1;
            }
            proof {
                lemma_first_match_none(d.section_diffs@, growth_keep(section_name@));
            }
            None
        },
    }
}

// ---------------------------------------------------------------------------
// Laws
// ---------------------------------------------------------------------------
/// Each finding of `hits` is the rule's finding for an item that `keep`
/// selects.
proof fn lemma_hits_from_kept<T>(
    items: Seq<T>,
    keep: spec_fn(T) -> bool,
    label: spec_fn(T) -> Seq<char>,
    rule: CustomRule,
    j: int,
) -> (k: int)
    requires
        0 <= j < hits(items, keep, label, rule).len(),
    ensures
        0 <= k < items.len(),
        keep(items[k]),
        hits(items, keep, label, rule)[j] == custom_text(rule, Some(label(items[k]))),
    decreases items.len(),
{
    let prev = hits(items.drop_last(), keep, label, rule);
    if j < prev.len() {
        let k = lemma_hits_from_kept(items.drop_last(), keep, label, rule, j);
        assert(items.drop_last()[k] == items[k]);
        k
    } else {
        (items.len() - 1) as int
    }
}

/// An item that `keep` selects gives at least one finding.
proof fn lemma_hits_nonempty<T>(
    items: Seq<T>,
    keep: spec_fn(T) -> bool,
    label: spec_fn(T) -> Seq<char>,
    rule: CustomRule,
    i: int,
)
    requires
        0 <= i < items.len(),
        keep(items[i]),
    ensures
        hits(items, keep, label, rule).len() > 0,
    decreases items.len(),
{
    if i < items.len() - 1 {
        assert(items.drop_last()[i] == items[i]);
        lemma_hits_nonempty(items.drop_last(), keep, label, rule, i);
    }
}

/// Every finding of an object-match rule is the rule's finding related to
/// the rule's object: contributions of other objects never give one, and a
/// contribution of that object that the rule's lists let through gives one.
pub proof fn law_object_match_names_its_object(ctx: RuleContext, rule: CustomRule, n: String)
    requires
        rule.kind == RuleKind::ObjectMatch,
        rule.object == Some(n),
    ensures
        custom_rule_hits(ctx, rule) matches Some(t) && (forall|j: int|
            0 <= j < t.len() ==> #[trigger] t[j] == (
                rule.id@,
                severity_of(rule.severity),
                rule.message@,
                Some(n@),
            )) && ((forall|k: int|
            0 <= k < ctx.object_contributions@.len()
                ==> (#[trigger] ctx.object_contributions@[k]).object_path@ != n@) ==> t.len() == 0)
            && ((exists|k: int|
            0 <= k < ctx.object_contributions@.len()
                && (#[trigger] ctx.object_contributions@[k]).object_path@ == n@) && name_allowed(
            n@,
            rule.allowlist@,
            rule.denylist@,
        ) ==> t.len() > 0),
{
    let items = ctx.object_contributions@;
    let keep = object_match_keep(n@, rule);
    let label = |o: ObjectContribution| o.object_path@;
    let t = hits(items, keep, label, rule);
    assert forall|j: int| 0 <= j < t.len() implies #[trigger] t[j] == (
        rule.id@,
        severity_of(rule.severity),
        rule.message@,
        Some(n@),
    ) by {
        let k = lemma_hits_from_kept(items, keep, label, rule, j);
        assert(items[k].object_path@ == n@);
    }
    if t.len() > 0 {
        let k = lemma_hits_from_kept(items, keep, label, rule, 0);
        assert(items[k].object_path@ == n@);
    }
    if (exists|k: int| 0 <= k < items.len() && (#[trigger] items[k]).object_path@ == n@) && name_allowed(
        n@,
        rule.allowlist@,
        rule.denylist@,
    ) {
        let k = choose|k: int| 0 <= k < items.len() && (#[trigger] items[k]).object_path@ == n@;
        assert(keep(items[k]));
        lemma_hits_nonempty(items, keep, label, rule, k);
    }
}

/// Every rule pattern matches the text of the pattern itself.
pub proof fn law_pattern_matches_itself(p: Seq<char>)
    ensures
        wildcard_matches(p, p),
{
    if p == seq!['*'] {
    } else if is_suffix(seq!['/', '*', '*'], p) {
        assert(p.take(p.len() - 3).len() == p.len() - 3);
        assert(p.take(p.len() - 3) =~= p.take(p.len() - 3));
    } else {
        match find_seq(p, seq!['*']) {
            Some(i) => {
                lemma_find_from_occurs(p, seq!['*'], 0);
                assert(occurs_at(p, seq!['*'], i));
                assert(p.skip(p.len() - p.skip(i + 1).len()) =~= p.skip(i + 1));
                assert(p.take(p.take(i).len() as int) =~= p.take(i));
            },
            None => {},
        }
    }
}

/// A rule file of the supported version is accepted exactly when each of
/// its rules is.
pub proof fn law_rule_file_valid_iff_rules_valid(rules: Seq<CustomRule>)
    ensures
        rule_file_problem(1, rules) is None <==> forall|i: int| 0 <= i < rules.len() ==> (#[trigger] rule_problem(
            rules[i],
        )) is None,
    decreases rules.len(),
{
    if rules.len() > 0 {
        let t = rules.drop_first();
        law_rule_file_valid_iff_rules_valid(t);
        assert forall|i: int| 0 <= i < t.len() implies t[i] == rules[i + 1] by {}
        if first_rule_problem(rules) is None {
            assert forall|i: int| 0 <= i < rules.len() implies (#[trigger] rule_problem(rules[i])) is None by {
                if i > 0 {
                    assert(rules[i] == t[i - 1]);
                }
            }
        }
        if forall|i: int| 0 <= i < rules.len() ==> (#[trigger] rule_problem(rules[i])) is None {
            assert(rule_problem(rules[0]) is None);
            assert forall|i: int| 0 <= i < t.len() implies (#[trigger] rule_problem(t[i])) is None by {
                assert(rule_problem(rules[i + 1]) is None);
            }
        }
    }
}

} // verus!
