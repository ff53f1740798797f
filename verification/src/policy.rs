//! Size budgets, owners and waivers: which budgets an analysis breaks, who
//! owns what, and which breaches are waived.
use vstd::prelude::*;

use crate::cpp::{CppAggregate, CppView};
use crate::model::{
    ArchiveContribution, DiffEntry, DiffResult, ObjectContribution, RegionUsageSummary, RuleSeverityConfig,
    SourceFile, WarningItem, WarningLevel, WarningSource,
};
use crate::text::{
    chars_of, chars_split_all, copy_opt_string, copy_string, dec, dec_signed, is_prefix, is_suffix,
    push_dec, push_dec_signed, push_str_chars, split_all, str_ends_with, str_eq, str_starts_with,
    string_from, string_of, trim, views, eq_ignore_case, str_eq_ignore_case, lex_le, lex_lt, str_le,
    lemma_lex_le_total, lemma_lex_le_transitive, lemma_lex_total, lemma_lex_transitive, lemma_lex_irreflexive,
    compare_strings, Precedence,
};
use crate::sorting::{sort_by_key, sorted_by_key, SortKey};

verus! {

// ---------------------------------------------------------------------------
// Types
// ---------------------------------------------------------------------------
/// The byte limits of one budget.
#[derive(Debug, Clone, Copy, PartialEq, Eq, Structural)]
pub struct PolicyBudget {
    pub max_bytes: Option<u64>,
    pub warn_bytes: Option<u64>,
    pub max_delta_bytes: Option<i64>,
    pub warn_delta_bytes: Option<i64>,
    pub severity: Option<RuleSeverityConfig>,
}

/// The limits a violation was measured against.
#[derive(Debug, Clone, Copy, PartialEq, Eq, Structural)]
pub struct PolicyBudgetSnapshot {
    pub max_bytes: Option<u64>,
    pub warn_bytes: Option<u64>,
    pub max_delta_bytes: Option<i64>,
    pub warn_delta_bytes: Option<i64>,
}

/// Patterns that select paths, objects, libraries, C++ classes, template
/// families and namespaces.
#[derive(Debug, Clone, PartialEq, Eq, Default)]
pub struct PolicyMatchSpec {
    pub paths: Vec<String>,
    pub objects: Vec<String>,
    pub libraries: Vec<String>,
    pub cpp_classes: Vec<String>,
    pub cpp_template_families: Vec<String>,
    pub namespaces: Vec<String>,
}

/// An owner and what it owns.
#[derive(Debug, Clone, PartialEq, Eq)]
pub struct PolicyOwnerRule {
    pub owner: String,
    pub match_spec: PolicyMatchSpec,
}

/// A waiver of a rule for what it matches, until a date (`YYYY-MM-DD`).
#[derive(Debug, Clone, PartialEq, Eq)]
pub struct PolicyWaiver {
    pub rule: String,
    pub reason: String,
    pub expires: String,
    pub match_spec: PolicyMatchSpec,
}

/// Where an owner was found.
#[derive(Debug, Clone, Copy, PartialEq, Eq, Structural)]
pub enum PolicyOwnerSource {
    Policy,
}

/// How sure an owner assignment is.
#[derive(Debug, Clone, Copy, PartialEq, Eq, Structural)]
pub enum PolicyOwnerConfidence {
    High,
    Medium,
    Low,
}

/// A waiver applied to a violation.
#[derive(Debug, Clone, PartialEq, Eq)]
pub struct AppliedWaiver {
    pub rule: String,
    pub reason: String,
    pub expires: String,
}

/// A waiver that matched a violation but has expired.
#[derive(Debug, Clone, PartialEq, Eq)]
pub struct ExpiredWaiver {
    pub rule: String,
    pub target: String,
    pub reason: String,
    pub expires: String,
}

/// One broken budget.
#[derive(Debug, Clone, PartialEq, Eq)]
pub struct PolicyViolation {
    pub rule_id: String,
    pub level: WarningLevel,
    pub message: String,
    pub target_kind: String,
    pub target: String,
    pub owner: Option<String>,
    pub owner_source: Option<PolicyOwnerSource>,
    pub owner_confidence: Option<PolicyOwnerConfidence>,
    pub current_bytes: Option<u64>,
    pub delta_bytes: Option<i64>,
    pub budget: PolicyBudgetSnapshot,
    pub waiver: Option<AppliedWaiver>,
}

/// The owner found for a target.
#[derive(Debug, Clone, PartialEq, Eq)]
pub struct PolicyOwnerResolution {
    pub target_kind: String,
    pub target: String,
    pub owner: String,
    pub owner_source: PolicyOwnerSource,
    pub owner_confidence: PolicyOwnerConfidence,
}

/// How many budgets, owners and waivers the selected profile has.
#[derive(Debug, Clone, Copy, PartialEq, Eq, Structural)]
pub struct EffectivePolicySummary {
    pub region_budget_count: usize,
    pub path_budget_count: usize,
    pub library_budget_count: usize,
    pub cpp_class_budget_count: usize,
    pub cpp_template_budget_count: usize,
    pub owner_rule_count: usize,
    pub waiver_count: usize,
}

/// The outcome of checking an analysis against a policy profile.
#[derive(Debug, Clone, PartialEq, Eq)]
pub struct PolicyEvaluation {
    pub profile: String,
    pub effective: EffectivePolicySummary,
    pub owners: Vec<PolicyOwnerResolution>,
    pub violations: Vec<PolicyViolation>,
    pub waived: Vec<PolicyViolation>,
    pub expired_waivers: Vec<ExpiredWaiver>,
}

// ---------------------------------------------------------------------------
// Matching and comparison
// ---------------------------------------------------------------------------
/// A pattern matches a value: `*` matches anything, `prefix/**` every value
/// starting with `prefix`, `a*b` every value starting with `a` and ending with
/// `b` (split at the first `*`), and anything else only itself.
pub open spec fn wildcard(pattern: Seq<char>, value: Seq<char>) -> bool {
    if pattern == seq!['*'] {
        true
    } else if is_suffix("/**"@, pattern) {
        is_prefix(pattern.take(pattern.len() - 3), value)
    } else {
        match crate::text::find_seq(pattern, seq!['*']) {
            Some(i) => is_prefix(pattern.take(i), value) && is_suffix(pattern.skip(i + 1), value),
            None => value == pattern,
        }
    }
}

/// Whether a pattern matches a value (see `wildcard`).
pub fn wildcard_match(pattern: &str, value: &str) -> (r: bool)
    ensures
        r == wildcard(pattern@, value@),
{
    let p = chars_of(pattern);
    let v = chars_of(value);
    let star: Vec<char> = vec!['*'];
    assert(star@ =~= seq!['*']);
    if crate::text::chars_eq(&p, &star) {
        return true;
    }
    let tail = chars_of("/**");
    proof {
        reveal_strlit("/**");
    }
    if crate::text::chars_ends_with(&p, &tail) {
        let prefix = crate::text::slice_chars(&p, 0, p.len() - 3);
        return crate::text::chars_starts_with(&v, &prefix);
    }
    match crate::text::chars_split_once(&p, &star) {
        Some((a, b)) => {
            proof {
                crate::text::lemma_find_from_occurs(p@, star@, 0);
            }
            crate::text::chars_starts_with(&v, &a) && crate::text::chars_ends_with(&v, &b)
        },
        None => crate::text::chars_eq(&v, &p),
    }
}

/// The warning level of a configured severity.
pub open spec fn severity_level(s: RuleSeverityConfig) -> WarningLevel {
    match s {
        RuleSeverityConfig::Info => WarningLevel::Info,
        RuleSeverityConfig::Warn => WarningLevel::Warn,
        RuleSeverityConfig::Error => WarningLevel::Error,
    }
}

/// The level of a warning-threshold breach: the configured severity, else `Warn`.
pub open spec fn warn_level(b: PolicyBudget) -> WarningLevel {
    match b.severity {
        Some(s) => severity_level(s),
        None => WarningLevel::Warn,
    }
}

/// How a size compares with a budget: above the maximum is an error, above
/// the warning threshold is the configured severity.
pub open spec fn absolute_level(current: u64, b: PolicyBudget) -> Option<WarningLevel> {
    if b.max_bytes matches Some(m) && current > m {
        Some(WarningLevel::Error)
    } else if b.warn_bytes matches Some(w) && current > w {
        Some(warn_level(b))
    } else {
        None
    }
}

/// How a growth compares with a budget.
pub open spec fn delta_level(delta: i64, b: PolicyBudget) -> Option<WarningLevel> {
    if b.max_delta_bytes matches Some(m) && delta > m {
        Some(WarningLevel::Error)
    } else if b.warn_delta_bytes matches Some(w) && delta > w {
        Some(warn_level(b))
    } else {
        None
    }
}

/// The warning level of a configured severity.
pub fn map_policy_severity(value: Option<RuleSeverityConfig>) -> (r: Option<WarningLevel>)
    ensures
        r == match value {
            Some(s) => Some(severity_level(s)),
            None => None,
        },
{
    match value {
        Some(RuleSeverityConfig::Info) => Some(WarningLevel::Info),
        Some(RuleSeverityConfig::Warn) => Some(WarningLevel::Warn),
        Some(RuleSeverityConfig::Error) => Some(WarningLevel::Error),
        None => None,
    }
}

/// How a size compares with a budget (see `absolute_level`).
pub fn compare_absolute(current_bytes: u64, budget: &PolicyBudget) -> (r: Option<WarningLevel>)
    ensures
        r == absolute_level(current_bytes, *budget),
{
    if let Some(max_bytes) = budget.max_bytes {
        if current_bytes > max_bytes {
            return Some(WarningLevel::Error);
        }
    }
    if let Some(warn_bytes) = budget.warn_bytes {
        if current_bytes > warn_bytes {
            return Some(
                match map_policy_severity(budget.severity) {
                    Some(l) => l,
                    None => WarningLevel::Warn,
                },
            );
        }
    }
    None
}

/// A size above the warning threshold, and not above the maximum, is reported
/// at the budget's configured severity (`error` as an error, `warn` as a
/// warning, `info` as information), and as a warning only when no severity is
/// configured; a growth above its warning threshold is reported at the same
/// level.
pub proof fn law_warn_breach_takes_configured_severity(current: u64, delta: i64, b: PolicyBudget)
    requires
        b.max_bytes is None || current <= b.max_bytes->0,
        b.warn_bytes is Some && current > b.warn_bytes->0,
    ensures
        b.severity == Some(RuleSeverityConfig::Error) ==> absolute_level(current, b) == Some(
            WarningLevel::Error,
        ),
        b.severity == Some(RuleSeverityConfig::Warn) ==> absolute_level(current, b) == Some(
            WarningLevel::Warn,
        ),
        b.severity == Some(RuleSeverityConfig::Info) ==> absolute_level(current, b) == Some(
            WarningLevel::Info,
        ),
        b.severity is None ==> absolute_level(current, b) == Some(WarningLevel::Warn),
        (b.max_delta_bytes is None || delta <= b.max_delta_bytes->0) && b.warn_delta_bytes is Some
            && delta > b.warn_delta_bytes->0 ==> delta_level(delta, b) == absolute_level(
            current,
            b,
        ),
{
}

/// How a growth compares with a budget (see `delta_level`).
pub fn compare_delta(delta: i64, budget: &PolicyBudget) -> (r: Option<WarningLevel>)
    ensures
        r == delta_level(delta, *budget),
{
    if let Some(max_delta) = budget.max_delta_bytes {
        if delta > max_delta {
            return Some(WarningLevel::Error);
        }
    }
    if let Some(warn_delta) = budget.warn_delta_bytes {
        if delta > warn_delta {
            return Some(
                match map_policy_severity(budget.severity) {
                    Some(l) => l,
                    None => WarningLevel::Warn,
                },
            );
        }
    }
    None
}

/// `budget.<kind>.absolute` for an error, `budget.<kind>.warn` otherwise.
pub fn absolute_rule_id(target_kind: &str, level: WarningLevel) -> (r: String)
    ensures
        r@ == "budget."@ + target_kind@ + (if level == WarningLevel::Error {
            ".absolute"@
        } else {
            ".warn"@
        }),
{
    let mut out = chars_of("budget.");
    push_str_chars(&mut out, target_kind);
    if level == WarningLevel::Error {
        push_str_chars(&mut out, ".absolute");
    } else {
        push_str_chars(&mut out, ".warn");
    }
    string_of(&out)
}

/// `budget.<kind>.delta` for an error, `budget.<kind>.delta.warn` otherwise.
pub fn delta_rule_id(target_kind: &str, level: WarningLevel) -> (r: String)
    ensures
        r@ == "budget."@ + target_kind@ + (if level == WarningLevel::Error {
            ".delta"@
        } else {
            ".delta.warn"@
        }),
{
    let mut out = chars_of("budget.");
    push_str_chars(&mut out, target_kind);
    if level == WarningLevel::Error {
        push_str_chars(&mut out, ".delta");
    } else {
        push_str_chars(&mut out, ".delta.warn");
    }
    string_of(&out)
}

/// Any of the patterns matches the value.
pub open spec fn any_matches(patterns: Seq<String>, value: Seq<char>) -> bool {
    exists|i: int| 0 <= i < patterns.len() && wildcard((#[trigger] patterns[i])@, value)
}

/// Whether any of the patterns matches the value.
fn any_pattern_matches(patterns: &Vec<String>, value: &str) -> (r: bool)
    ensures
        r == any_matches(patterns@, value@),
{
    let mut i: usize = 0;
    while i < patterns.len()
        invariant
            i <= patterns.len(),
            forall|k: int| 0 <= k < i ==> !wildcard((#[trigger] patterns@[k])@, value@),
        decreases patterns.len() - i,
    {
        if wildcard_match(patterns[i].as_str(), value) {
            return true;
        }
        i += 1;
    }
    false
}

/// The patterns of a selector for one kind of target.
pub open spec fn selector(spec: PolicyMatchSpec, kind: Seq<char>) -> Option<Seq<String>> {
    if kind == "path"@ {
        Some(spec.paths@)
    } else if kind == "object"@ {
        Some(spec.objects@)
    } else if kind == "library"@ {
        Some(spec.libraries@)
    } else if kind == "cpp_class"@ {
        Some(spec.cpp_classes@)
    } else if kind == "cpp_template_family"@ {
        Some(spec.cpp_template_families@)
    } else {
        None
    }
}

/// A selector matches a target of a kind.
pub open spec fn spec_selects(spec: PolicyMatchSpec, kind: Seq<char>, target: Seq<char>) -> bool {
    match selector(spec, kind) {
        Some(p) => any_matches(p, target),
        None => false,
    }
}

/// Whether a selector matches a target of a kind.
pub fn selects(spec: &PolicyMatchSpec, target_kind: &str, target: &str) -> (r: bool)
    ensures
        r == spec_selects(*spec, target_kind@, target@),
{
    if str_eq(target_kind, "path") {
        any_pattern_matches(&spec.paths, target)
    } else if str_eq(target_kind, "object") {
        any_pattern_matches(&spec.objects, target)
    } else if str_eq(target_kind, "library") {
        any_pattern_matches(&spec.libraries, target)
    } else if str_eq(target_kind, "cpp_class") {
        any_pattern_matches(&spec.cpp_classes, target)
    } else if str_eq(target_kind, "cpp_template_family") {
        any_pattern_matches(&spec.cpp_template_families, target)
    } else {
        false
    }
}

/// Index of the first owner rule that selects the target.
pub open spec fn first_owner(owners: Seq<PolicyOwnerRule>, kind: Seq<char>, target: Seq<char>) -> Option<int>
    decreases owners.len(),
{
    if owners.len() == 0 {
        None
    } else if spec_selects(owners[0].match_spec, kind, target) {
        Some(0)
    } else {
        match first_owner(owners.drop_first(), kind, target) {
            Some(i) => Some(i + 1),
            None => None,
        }
    }
}

/// The owner of a target: the first owner rule that selects it.
pub fn resolve_owner(target_kind: &str, target: &str, owners: &Vec<PolicyOwnerRule>) -> (r: Option<
    (String, PolicyOwnerSource, PolicyOwnerConfidence),
>)
    ensures
        match first_owner(owners@, target_kind@, target@) {
            Some(i) => r matches Some((o, s, c)) && o == owners@[i].owner && s == PolicyOwnerSource::Policy
                && c == PolicyOwnerConfidence::High,
            None => r is None,
        },
{
    let mut i: usize = 0;
    assert(owners@.skip(0) =~= owners@);
    while i < owners.len()
        invariant
            i <= owners.len(),
            first_owner(owners@, target_kind@, target@) == match first_owner(
                owners@.skip(i as int),
                target_kind@,
                target@,
            ) {
                Some(k) => Some(k + i),
                None => None,
            },
        decreases owners.len() - i,
    {
        assert(owners@.skip(i as int)[0] == owners@[i as int]);
        assert(owners@.skip(i as int).drop_first() =~= owners@.skip(i + 1));
        if selects(&owners[i].match_spec, target_kind, target) {
            return Some((copy_string(&owners[i].owner), PolicyOwnerSource::Policy, PolicyOwnerConfidence::High));
        }
        i += 1;
    }
    None
}

// ---------------------------------------------------------------------------
// Waivers
// ---------------------------------------------------------------------------
/// What a waiver does to a violation.
#[derive(Debug, Clone, PartialEq, Eq)]
pub enum WaiverDecision {
    NoWaiver,
    Applied(AppliedWaiver),
    Expired(ExpiredWaiver),
}

/// A waiver covers a violation: same rule, and its selector matches the target.
pub open spec fn waiver_covers(w: PolicyWaiver, v: PolicyViolation) -> bool {
    w.rule@ == v.rule_id@ && spec_selects(w.match_spec, v.target_kind@, v.target@)
}

/// Index of the first waiver that covers a violation.
pub open spec fn first_waiver(waivers: Seq<PolicyWaiver>, v: PolicyViolation) -> Option<int>
    decreases waivers.len(),
{
    if waivers.len() == 0 {
        None
    } else if waiver_covers(waivers[0], v) {
        Some(0)
    } else {
        match first_waiver(waivers.drop_first(), v) {
            Some(i) => Some(i + 1),
            None => None,
        }
    }
}

/// The first waiver that covers a violation is applied when it expires today
/// or later (dates compare as `YYYY-MM-DD` text), and reported as expired
/// otherwise.
pub fn apply_waiver(violation: &PolicyViolation, waivers: &Vec<PolicyWaiver>, today: &String) -> (r: WaiverDecision)
    ensures
        match first_waiver(waivers@, *violation) {
            None => r == WaiverDecision::NoWaiver,
            Some(i) => {
                let w = waivers@[i];
                if crate::text::lex_le(today@, w.expires@) {
                    r == WaiverDecision::Applied(
                        AppliedWaiver { rule: w.rule, reason: w.reason, expires: w.expires },
                    )
                } else {
                    r == WaiverDecision::Expired(
                        ExpiredWaiver {
                            rule: w.rule,
                            target: violation.target,
                            reason: w.reason,
                            expires: w.expires,
                        },
                    )
                }
            },
        },
{
    let mut i: usize = 0;
    assert(waivers@.skip(0) =~= waivers@);
    while i < waivers.len()
        invariant
            i <= waivers.len(),
            first_waiver(waivers@, *violation) == match first_waiver(waivers@.skip(i as int), *violation) {
                Some(k) => Some(k + i),
                None => None,
            },
        decreases waivers.len() - i,
    {
        assert(waivers@.skip(i as int)[0] == waivers@[i as int]);
        assert(waivers@.skip(i as int).drop_first() =~= waivers@.skip(i + 1));
        let w = &waivers[i];
        if str_eq(w.rule.as_str(), violation.rule_id.as_str()) && selects(
            &w.match_spec,
            violation.target_kind.as_str(),
            violation.target.as_str(),
        ) {
            if crate::text::str_le(today, &w.expires) {
                return WaiverDecision::Applied(
                    AppliedWaiver {
                        rule: copy_string(&w.rule),
                        reason: copy_string(&w.reason),
                        expires: copy_string(&w.expires),
                    },
                );
            }
            return WaiverDecision::Expired(
                ExpiredWaiver {
                    rule: copy_string(&w.rule),
                    target: copy_string(&violation.target),
                    reason: copy_string(&w.reason),
                    expires: copy_string(&w.expires),
                },
            );
        }
        i += 1;
    }
    WaiverDecision::NoWaiver
}

// ---------------------------------------------------------------------------
// Configuration
// ---------------------------------------------------------------------------
/// Budgets of a profile, each list keyed by region name or pattern, in key order.
#[derive(Debug, Clone, PartialEq, Eq, Default)]
pub struct PolicyBudgets {
    pub regions: Vec<(String, PolicyBudget)>,
    pub paths: Vec<(String, PolicyBudget)>,
    pub libraries: Vec<(String, PolicyBudget)>,
    pub cpp_classes: Vec<(String, PolicyBudget)>,
    pub cpp_template_families: Vec<(String, PolicyBudget)>,
}

/// A named set of budgets.
#[derive(Debug, Clone, PartialEq, Eq, Default)]
pub struct PolicyProfile {
    pub budgets: PolicyBudgets,
}

/// A policy file: its version, profiles in name order, owners and waivers.
#[derive(Debug, Clone, PartialEq, Eq)]
pub struct PolicyConfigFile {
    pub version: u32,
    pub default_profile: Option<String>,
    pub profiles: Vec<(String, PolicyProfile)>,
    pub owners: Vec<PolicyOwnerRule>,
    pub waivers: Vec<PolicyWaiver>,
}

/// Why a policy file is refused.
#[derive(Debug, Clone, PartialEq, Eq)]
pub enum PolicyError {
    UnsupportedVersion(u32),
    NoProfiles,
    EmptyOwner,
    EmptyWaiverRule,
    WaiverWithoutReason(String),
    EmptySelector(String),
    InvalidDate(String),
    ProfileNotFound(String),
    DefaultProfileNotFound(String),
}

/// The message of a policy error.
pub open spec fn policy_error_text(e: PolicyError) -> Seq<char> {
    match e {
        PolicyError::UnsupportedVersion(v) => "unsupported policy version "@ + dec(v as nat) + ", expected 2"@,
        PolicyError::NoProfiles => "policy must define at least one profile"@,
        PolicyError::EmptyOwner => "policy owner entry must not be empty"@,
        PolicyError::EmptyWaiverRule => "policy waiver rule must not be empty"@,
        PolicyError::WaiverWithoutReason(r) => "policy waiver '"@ + r@ + "' requires a reason"@,
        PolicyError::EmptySelector(l) => "policy "@ + l@ + " match must define at least one selector"@,
        PolicyError::InvalidDate(v) => "invalid waiver date '"@ + v@ + "', expected YYYY-MM-DD"@,
        PolicyError::ProfileNotFound(n) => "policy profile '"@ + n@ + "' was not found"@,
        PolicyError::DefaultProfileNotFound(n) => "policy default_profile '"@ + n@ + "' was not found"@,
    }
}

impl PolicyError {
    /// The message of the error.
    pub fn message(&self) -> (r: String)
        ensures
            r@ == policy_error_text(*self),
    {
        let mut out: Vec<char> = Vec::new();
        match self {
            PolicyError::UnsupportedVersion(v) => {
                push_str_chars(&mut out, "unsupported policy version ");
                push_dec(&mut out, *v as u64);
                push_str_chars(&mut out, ", expected 2");
            },
            PolicyError::NoProfiles => push_str_chars(&mut out, "policy must define at least one profile"),
            PolicyError::EmptyOwner => push_str_chars(&mut out, "policy owner entry must not be empty"),
            PolicyError::EmptyWaiverRule => push_str_chars(&mut out, "policy waiver rule must not be empty"),
            PolicyError::WaiverWithoutReason(r) => {
                push_str_chars(&mut out, "policy waiver '");
                push_str_chars(&mut out, r.as_str());
                push_str_chars(&mut out, "' requires a reason");
            },
            PolicyError::EmptySelector(l) => {
                push_str_chars(&mut out, "policy ");
                push_str_chars(&mut out, l.as_str());
                push_str_chars(&mut out, " match must define at least one selector");
            },
            PolicyError::InvalidDate(v) => {
                push_str_chars(&mut out, "invalid waiver date '");
                push_str_chars(&mut out, v.as_str());
                push_str_chars(&mut out, "', expected YYYY-MM-DD");
            },
            PolicyError::ProfileNotFound(n) => {
                push_str_chars(&mut out, "policy profile '");
                push_str_chars(&mut out, n.as_str());
                push_str_chars(&mut out, "' was not found");
            },
            PolicyError::DefaultProfileNotFound(n) => {
                push_str_chars(&mut out, "policy default_profile '");
                push_str_chars(&mut out, n.as_str());
                push_str_chars(&mut out, "' was not found");
            },
        }
        assert(out@ =~= policy_error_text(*self));
        string_of(&out)
    }
}

/// A selector selects something.
pub open spec fn has_selector(m: PolicyMatchSpec) -> bool {
    m.paths@.len() > 0 || m.objects@.len() > 0 || m.libraries@.len() > 0 || m.cpp_classes@.len() > 0
        || m.cpp_template_families@.len() > 0 || m.namespaces@.len() > 0
}

/// A date in `YYYY-MM-DD` shape: three non-empty `-`-separated fields.
pub open spec fn date_shaped(value: Seq<char>) -> bool {
    let parts = split_all(value, seq!['-']);
    parts.len() == 3 && forall|i: int| 0 <= i < 3 ==> (#[trigger] parts[i]).len() > 0
}

/// Whether a date has the `YYYY-MM-DD` shape (three non-empty fields).
pub fn validate_date(value: &str) -> (r: Result<(), PolicyError>)
    ensures
        r is Ok <==> date_shaped(value@),
        r matches Err(e) ==> e matches PolicyError::InvalidDate(v) && v@ == value@,
{
    let c = chars_of(value);
    let dash: Vec<char> = vec!['-'];
    assert(dash@ =~= seq!['-']);
    let parts = chars_split_all(&c, &dash);
    if parts.len() != 3 || parts[0].len() == 0 || parts[1].len() == 0 || parts[2].len() == 0 {
        proof {
            let sp = split_all(value@, seq!['-']);
            if sp.len() == 3 {
                assert(sp[0] == parts@[0]@ && sp[1] == parts@[1]@ && sp[2] == parts@[2]@);
            }
        }
        return Err(PolicyError::InvalidDate(string_of(&c)));
    }
    proof {
        assert forall|i: int| 0 <= i < 3 implies (#[trigger] split_all(value@, seq!['-'])[i]).len() > 0 by {
            assert(split_all(value@, seq!['-'])[i] == parts@[i]@);
        }
    }
    Ok(())
}

/// Whether a selector selects something.
fn validate_match_spec(spec: &PolicyMatchSpec, label: &str) -> (r: Result<(), PolicyError>)
    ensures
        r is Ok <==> has_selector(*spec),
        r matches Err(e) ==> e matches PolicyError::EmptySelector(l) && l@ == label@,
{
    let has_any = spec.paths.len() > 0 || spec.objects.len() > 0 || spec.libraries.len() > 0
        || spec.cpp_classes.len() > 0 || spec.cpp_template_families.len() > 0 || spec.namespaces.len() > 0;
    if has_any {
        Ok(())
    } else {
        Err(PolicyError::EmptySelector(string_from(label)))
    }
}

/// A waiver is acceptable: a rule, a reason, a selector and a date.
pub open spec fn waiver_ok(w: PolicyWaiver) -> bool {
    trim(w.rule@).len() > 0 && trim(w.reason@).len() > 0 && has_selector(w.match_spec) && date_shaped(
        w.expires@,
    )
}

/// An owner rule is acceptable: an owner and a selector.
pub open spec fn owner_ok(o: PolicyOwnerRule) -> bool {
    trim(o.owner@).len() > 0 && has_selector(o.match_spec)
}

/// A policy file is acceptable: version 2, a profile, and acceptable owners and waivers.
pub open spec fn config_ok(c: PolicyConfigFile) -> bool {
    &&& c.version == 2
    &&& c.profiles@.len() > 0
    &&& forall|i: int| 0 <= i < c.owners@.len() ==> owner_ok(#[trigger] c.owners@[i])
    &&& forall|i: int| 0 <= i < c.waivers@.len() ==> waiver_ok(#[trigger] c.waivers@[i])
}

/// The error reported for an owner rule that is not acceptable.
pub open spec fn owner_error(o: PolicyOwnerRule, e: PolicyError) -> bool {
    if trim(o.owner@).len() == 0 {
        e == PolicyError::EmptyOwner
    } else {
        e matches PolicyError::EmptySelector(l) && l@ == "owner"@
    }
}

/// The error reported for a waiver that is not acceptable.
pub open spec fn waiver_error(w: PolicyWaiver, e: PolicyError) -> bool {
    if trim(w.rule@).len() == 0 {
        e == PolicyError::EmptyWaiverRule
    } else if trim(w.reason@).len() == 0 {
        e matches PolicyError::WaiverWithoutReason(r) && r@ == w.rule@
    } else if !has_selector(w.match_spec) {
        e matches PolicyError::EmptySelector(l) && l@ == "waiver"@
    } else {
        e matches PolicyError::InvalidDate(v) && v@ == w.expires@
    }
}

/// The error reported for a policy file that is not acceptable: a wrong
/// version, no profile, else the error of the first unacceptable owner rule,
/// else that of the first unacceptable waiver.
pub open spec fn config_error(c: PolicyConfigFile, e: PolicyError) -> bool {
    if c.version != 2 {
        e == PolicyError::UnsupportedVersion(c.version)
    } else if c.profiles@.len() == 0 {
        e == PolicyError::NoProfiles
    } else if exists|i: int| 0 <= i < c.owners@.len() && !owner_ok(#[trigger] c.owners@[i]) {
        exists|i: int|
            0 <= i < c.owners@.len() && !owner_ok(#[trigger] c.owners@[i]) && (forall|k: int|
                0 <= k < i ==> owner_ok(#[trigger] c.owners@[k])) && owner_error(c.owners@[i], e)
    } else {
        exists|j: int|
            0 <= j < c.waivers@.len() && !waiver_ok(#[trigger] c.waivers@[j]) && (forall|k: int|
                0 <= k < j ==> waiver_ok(#[trigger] c.waivers@[k])) && waiver_error(c.waivers@[j], e)
    }
}

/// Checks a policy file.
pub fn validate_policy_config(config: &PolicyConfigFile) -> (r: Result<(), PolicyError>)
    ensures
        match r {
            Ok(()) => config_ok(*config),
            Err(e) => !config_ok(*config) && config_error(*config, e),
        },
{
    if config.version != 2 {
        return Err(PolicyError::UnsupportedVersion(config.version));
    }
    if config.profiles.len() == 0 {
        return Err(PolicyError::NoProfiles);
    }
    let mut i: usize = 0;
    while i < config.owners.len()
        invariant
            i <= config.owners.len(),
            config.version == 2,
            config.profiles@.len() > 0,
            forall|k: int| 0 <= k < i ==> owner_ok(#[trigger] config.owners@[k]),
        decreases config.owners.len() - i,
    {
        let owner = &config.owners[i];
        if crate::text::str_is_blank(owner.owner.as_str()) {
            assert(!owner_ok(config.owners@[i as int]));
            return Err(PolicyError::EmptyOwner);
        }
        match validate_match_spec(&owner.match_spec, "owner") {
            Ok(()) => {},
            Err(e) => {
                assert(!owner_ok(config.owners@[i as int]));
                return Err(e);
            },
        }
        i += 1;
    }
    let mut j: usize = 0;
    while j < config.waivers.len()
        invariant
            j <= config.waivers.len(),
            config.version == 2,
            config.profiles@.len() > 0,
            forall|k: int| 0 <= k < config.owners@.len() ==> owner_ok(#[trigger] config.owners@[k]),
            forall|k: int| 0 <= k < j ==> waiver_ok(#[trigger] config.waivers@[k]),
        decreases config.waivers.len() - j,
    {
        let waiver = &config.waivers[j];
        if crate::text::str_is_blank(waiver.rule.as_str()) {
            assert(!waiver_ok(config.waivers@[j as int]));
            return Err(PolicyError::EmptyWaiverRule);
        }
        if crate::text::str_is_blank(waiver.reason.as_str()) {
            assert(!waiver_ok(config.waivers@[j as int]));
            return Err(PolicyError::WaiverWithoutReason(copy_string(&waiver.rule)));
        }
        match validate_match_spec(&waiver.match_spec, "waiver") {
            Ok(()) => {},
            Err(e) => {
                assert(!waiver_ok(config.waivers@[j as int]));
                return Err(e);
            },
        }
        match validate_date(waiver.expires.as_str()) {
            Ok(()) => {},
            Err(e) => {
                assert(!waiver_ok(config.waivers@[j as int]));
                return Err(e);
            },
        }
        j += 1;
    }
    Ok(())
}

/// Index of the profile named `name`.
pub open spec fn profile_index(profiles: Seq<(String, PolicyProfile)>, name: Seq<char>) -> Option<int>
    decreases profiles.len(),
{
    if profiles.len() == 0 {
        None
    } else if profiles[0].0@ == name {
        Some(0)
    } else {
        match profile_index(profiles.drop_first(), name) {
            Some(i) => Some(i + 1),
            None => None,
        }
    }
}

/// Index of the profile named `name`.
fn find_profile(profiles: &Vec<(String, PolicyProfile)>, name: &str) -> (r: Option<usize>)
    ensures
        match r {
            Some(i) => profile_index(profiles@, name@) == Some(i as int) && i < profiles@.len(),
            None => profile_index(profiles@, name@) is None,
        },
{
    let mut i: usize = 0;
    assert(profiles@.skip(0) =~= profiles@);
    while i < profiles.len()
        invariant
            i <= profiles.len(),
            profile_index(profiles@, name@) == match profile_index(profiles@.skip(i as int), name@) {
                Some(k) => Some(k + i),
                None => None,
            },
        decreases profiles.len() - i,
    {
        assert(profiles@.skip(i as int)[0] == profiles@[i as int]);
        assert(profiles@.skip(i as int).drop_first() =~= profiles@.skip(i + 1));
        if str_eq(profiles[i].0.as_str(), name) {
            return Some(i);
        }
        i += 1;
    }
    None
}

/// The profile a run uses: the requested one, else the file's default, else
/// the one named `default`, else the first; nothing when the named profile is
/// missing or there is none.
pub open spec fn selected_profile(c: PolicyConfigFile, requested: Option<Seq<char>>) -> Option<int> {
    match requested {
        Some(n) => profile_index(c.profiles@, n),
        None => match c.default_profile {
            Some(d) => profile_index(c.profiles@, d@),
            None => match profile_index(c.profiles@, "default"@) {
                Some(i) => Some(i),
                None => if c.profiles@.len() > 0 {
                    Some(0)
                } else {
                    None
                },
            },
        },
    }
}

/// Which profile a run uses (see `selected_profile`): its index, or why none is.
pub fn select_profile(config: &PolicyConfigFile, requested_profile: Option<&str>) -> (r: Result<usize, PolicyError>)
    ensures
        ({
            let req = match requested_profile {
                Some(p) => Some(p@),
                None => None,
            };
            match selected_profile(*config, req) {
                Some(i) => r == Ok::<usize, PolicyError>(i as usize) && 0 <= i < config.profiles@.len(),
                None => match r {
                    Ok(_) => false,
                    Err(PolicyError::ProfileNotFound(n)) => req == Some(n@),
                    Err(PolicyError::DefaultProfileNotFound(d)) => req is None
                        && config.default_profile == Some(d),
                    Err(PolicyError::NoProfiles) => req is None && config.default_profile is None
                        && config.profiles@.len() == 0,
                    Err(_) => false,
                },
            }
        }),
{
    if let Some(name) = requested_profile {
        return match find_profile(&config.profiles, name) {
            Some(i) => Ok(i),
            None => Err(PolicyError::ProfileNotFound(string_from(name))),
        };
    }
    if let Some(name) = &config.default_profile {
        return match find_profile(&config.profiles, name.as_str()) {
            Some(i) => Ok(i),
            None => Err(PolicyError::DefaultProfileNotFound(copy_string(name))),
        };
    }
    match find_profile(&config.profiles, "default") {
        Some(i) => Ok(i),
        None => if config.profiles.len() > 0 {
            Ok(0)
        } else {
            Err(PolicyError::NoProfiles)
        },
    }
}

/// The budget, owner and waiver counts of a profile.
pub fn effective_summary(config: &PolicyConfigFile, profile: &PolicyProfile) -> (r: EffectivePolicySummary)
    ensures
        r.region_budget_count == profile.budgets.regions@.len(),
        r.path_budget_count == profile.budgets.paths@.len(),
        r.library_budget_count == profile.budgets.libraries@.len(),
        r.cpp_class_budget_count == profile.budgets.cpp_classes@.len(),
        r.cpp_template_budget_count == profile.budgets.cpp_template_families@.len(),
        r.owner_rule_count == config.owners@.len(),
        r.waiver_count == config.waivers@.len(),
{
    EffectivePolicySummary {
        region_budget_count: profile.budgets.regions.len(),
        path_budget_count: profile.budgets.paths.len(),
        library_budget_count: profile.budgets.libraries.len(),
        cpp_class_budget_count: profile.budgets.cpp_classes.len(),
        cpp_template_budget_count: profile.budgets.cpp_template_families.len(),
        owner_rule_count: config.owners.len(),
        waiver_count: config.waivers.len(),
    }
}

// ---------------------------------------------------------------------------
// Reports
// ---------------------------------------------------------------------------
/// The message of a violation with its current size, growth and owner.
pub open spec fn policy_message(v: PolicyViolation) -> Seq<char> {
    let a = v.message@;
    let b = match v.current_bytes {
        Some(c) => a + " | current="@ + dec(c as nat) + " bytes"@,
        None => a,
    };
    let c = match v.delta_bytes {
        Some(d) => b + " | delta="@ + dec_signed(d as int) + " bytes"@,
        None => b,
    };
    match v.owner {
        Some(o) => c + " | owner="@ + o@,
        None => c,
    }
}

/// The message of a violation (see `policy_message`).
pub fn format_policy_message(violation: &PolicyViolation) -> (r: String)
    ensures
        r@ == policy_message(*violation),
{
    let mut out = chars_of(violation.message.as_str());
    if let Some(current) = violation.current_bytes {
        push_str_chars(&mut out, " | current=");
        push_dec(&mut out, current);
        push_str_chars(&mut out, " bytes");
    }
    if let Some(delta) = violation.delta_bytes {
        push_str_chars(&mut out, " | delta=");
        push_dec_signed(&mut out, delta);
        push_str_chars(&mut out, " bytes");
    }
    if let Some(owner) = &violation.owner {
        push_str_chars(&mut out, " | owner=");
        push_str_chars(&mut out, owner.as_str());
    }
    string_of(&out)
}

/// The message of an expired waiver.
pub open spec fn expired_message(e: ExpiredWaiver) -> Seq<char> {
    "Expired waiver for "@ + e.rule@ + " on "@ + e.target@ + " (expired "@ + e.expires@ + ", reason: "@
        + e.reason@ + ")"@
}

/// The warnings of a policy evaluation: one per violation, then one per
/// expired waiver.
pub fn policy_warnings(evaluation: &PolicyEvaluation) -> (out: Vec<WarningItem>)
    ensures
        out@.len() == evaluation.violations@.len() + evaluation.expired_waivers@.len(),
        forall|i: int|
            0 <= i < evaluation.violations@.len() ==> {
                let v = evaluation.violations@[i];
                &&& (#[trigger] out@[i]).level == v.level
                &&& out@[i].code == v.rule_id
                &&& out@[i].message@ == policy_message(v)
                &&& out@[i].source == WarningSource::Analyze
                &&& out@[i].related == Some(v.target)
            },
        forall|i: int|
            0 <= i < evaluation.expired_waivers@.len() ==> {
                let e = #[trigger] evaluation.expired_waivers@[i];
                let w = out@[evaluation.violations@.len() + i];
                &&& w.level == WarningLevel::Warn
                &&& w.code@ == "POLICY_WAIVER_EXPIRED"@
                &&& w.message@ == expired_message(e)
                &&& w.source == WarningSource::Analyze
                &&& w.related == Some(e.target)
            },
{
    let mut out: Vec<WarningItem> = Vec::new();
    let mut i: usize = 0;
    while i < evaluation.violations.len()
        invariant
            i <= evaluation.violations.len(),
            out@.len() == i,
            forall|k: int|
                0 <= k < i ==> {
                    let v = evaluation.violations@[k];
                    &&& (#[trigger] out@[k]).level == v.level
                    &&& out@[k].code == v.rule_id
                    &&& out@[k].message@ == policy_message(v)
                    &&& out@[k].source == WarningSource::Analyze
                    &&& out@[k].related == Some(v.target)
                },
        decreases evaluation.violations.len() - i,
    {
        let v = &evaluation.violations[i];
        out.push(
            WarningItem {
                level: v.level,
                code: copy_string(&v.rule_id),
                message: format_policy_message(v),
                source: WarningSource::Analyze,
                related: Some(copy_string(&v.target)),
            },
        );
        i += 1;
    }
    let n = evaluation.violations.len();
    let mut j: usize = 0;
    while j < evaluation.expired_waivers.len()
        invariant
            j <= evaluation.expired_waivers.len(),
            n == evaluation.violations@.len(),
            out@.len() == n + j,
            forall|k: int|
                0 <= k < n ==> {
                    let v = evaluation.violations@[k];
                    &&& (#[trigger] out@[k]).level == v.level
                    &&& out@[k].code == v.rule_id
                    &&& out@[k].message@ == policy_message(v)
                    &&& out@[k].source == WarningSource::Analyze
                    &&& out@[k].related == Some(v.target)
                },
            forall|k: int|
                0 <= k < j ==> {
                    let e = evaluation.expired_waivers@[k];
                    let w = #[trigger] out@[n + k];
                    &&& w.level == WarningLevel::Warn
                    &&& w.code@ == "POLICY_WAIVER_EXPIRED"@
                    &&& w.message@ == expired_message(e)
                    &&& w.source == WarningSource::Analyze
                    &&& w.related == Some(e.target)
                },
        decreases evaluation.expired_waivers.len() - j,
    {
        let e = &evaluation.expired_waivers[j];
        let mut m = chars_of("Expired waiver for ");
        push_str_chars(&mut m, e.rule.as_str());
        push_str_chars(&mut m, " on ");
        push_str_chars(&mut m, e.target.as_str());
        push_str_chars(&mut m, " (expired ");
        push_str_chars(&mut m, e.expires.as_str());
        push_str_chars(&mut m, ", reason: ");
        push_str_chars(&mut m, e.reason.as_str());
        push_str_chars(&mut m, ")");
        out.push(
            WarningItem {
                level: WarningLevel::Warn,
                code: string_from("POLICY_WAIVER_EXPIRED"),
                message: string_of(&m),
                source: WarningSource::Analyze,
                related: Some(copy_string(&e.target)),
            },
        );
        j += 1;
    }
    out
}

/// The text that describes an evaluated policy.
pub open spec fn effective_policy_text(e: PolicyEvaluation) -> Seq<char> {
    "Policy profile: "@ + e.profile@ + "\nBudgets: regions="@ + dec(e.effective.region_budget_count as nat)
        + " paths="@ + dec(e.effective.path_budget_count as nat) + " libraries="@ + dec(
        e.effective.library_budget_count as nat,
    ) + " cpp_classes="@ + dec(e.effective.cpp_class_budget_count as nat) + " cpp_template_families="@
        + dec(e.effective.cpp_template_budget_count as nat) + "\nOwners: "@ + dec(
        e.effective.owner_rule_count as nat,
    ) + "\nWaivers: "@ + dec(e.effective.waiver_count as nat) + "\nViolations: "@ + dec(
        e.violations@.len(),
    ) + "\nWaived: "@ + dec(e.waived@.len()) + "\nExpired waivers: "@ + dec(e.expired_waivers@.len())
}

/// Describes the evaluated policy: profile, budget counts, owners, waivers
/// and the numbers of violations, waived violations and expired waivers.
pub fn dump_effective_policy(evaluation: &PolicyEvaluation) -> (r: String)
    ensures
        r@ == effective_policy_text(*evaluation),
{
    let e = &evaluation.effective;
    let mut out = chars_of("Policy profile: ");
    push_str_chars(&mut out, evaluation.profile.as_str());
    push_str_chars(&mut out, "\nBudgets: regions=");
    push_dec(&mut out, e.region_budget_count as u64);
    push_str_chars(&mut out, " paths=");
    push_dec(&mut out, e.path_budget_count as u64);
    push_str_chars(&mut out, " libraries=");
    push_dec(&mut out, e.library_budget_count as u64);
    push_str_chars(&mut out, " cpp_classes=");
    push_dec(&mut out, e.cpp_class_budget_count as u64);
    push_str_chars(&mut out, " cpp_template_families=");
    push_dec(&mut out, e.cpp_template_budget_count as u64);
    push_str_chars(&mut out, "\nOwners: ");
    push_dec(&mut out, e.owner_rule_count as u64);
    push_str_chars(&mut out, "\nWaivers: ");
    push_dec(&mut out, e.waiver_count as u64);
    push_str_chars(&mut out, "\nViolations: ");
    push_dec(&mut out, evaluation.violations.len() as u64);
    push_str_chars(&mut out, "\nWaived: ");
    push_dec(&mut out, evaluation.waived.len() as u64);
    push_str_chars(&mut out, "\nExpired waivers: ");
    push_dec(&mut out, evaluation.expired_waivers.len() as u64);
    string_of(&out)
}

// ---------------------------------------------------------------------------
// Budgets
// ---------------------------------------------------------------------------
/// What a policy reads of an analysis.
#[derive(Debug, Clone, PartialEq, Eq)]
pub struct PolicySubject {
    pub source_files: Vec<SourceFile>,
    pub object_contributions: Vec<ObjectContribution>,
    pub archive_contributions: Vec<ArchiveContribution>,
    pub region_summaries: Vec<RegionUsageSummary>,
    pub cpp_view: CppView,
}

/// A violation as text.
pub struct ViolationText {
    pub rule_id: Seq<char>,
    pub level: WarningLevel,
    pub message: Seq<char>,
    pub target_kind: Seq<char>,
    pub target: Seq<char>,
    pub owner: Option<Seq<char>>,
    pub owner_source: Option<PolicyOwnerSource>,
    pub owner_confidence: Option<PolicyOwnerConfidence>,
    pub current_bytes: Option<u64>,
    pub delta_bytes: Option<i64>,
    pub budget: PolicyBudgetSnapshot,
    pub waiver: Option<(Seq<char>, Seq<char>, Seq<char>)>,
}

/// The text of a violation.
pub open spec fn violation_text(v: PolicyViolation) -> ViolationText {
    ViolationText {
        rule_id: v.rule_id@,
        level: v.level,
        message: v.message@,
        target_kind: v.target_kind@,
        target: v.target@,
        owner: match v.owner {
            Some(o) => Some(o@),
            None => None,
        },
        owner_source: v.owner_source,
        owner_confidence: v.owner_confidence,
        current_bytes: v.current_bytes,
        delta_bytes: v.delta_bytes,
        budget: v.budget,
        waiver: match v.waiver {
            Some(w) => Some((w.rule@, w.reason@, w.expires@)),
            None => None,
        },
    }
}

/// The texts of a list of violations.
pub open spec fn violation_texts(v: Seq<PolicyViolation>) -> Seq<ViolationText> {
    v.map_values(|x: PolicyViolation| violation_text(x))
}

/// The limits of a budget.
pub open spec fn snapshot_of(b: PolicyBudget) -> PolicyBudgetSnapshot {
    PolicyBudgetSnapshot {
        max_bytes: b.max_bytes,
        warn_bytes: b.warn_bytes,
        max_delta_bytes: b.max_delta_bytes,
        warn_delta_bytes: b.warn_delta_bytes,
    }
}

/// The owner of a target, as text.
pub open spec fn owner_of(owners: Seq<PolicyOwnerRule>, kind: Seq<char>, target: Seq<char>) -> Option<Seq<char>> {
    match first_owner(owners, kind, target) {
        Some(i) => Some(owners[i].owner@),
        None => None,
    }
}

/// A new violation of a budget, not waived, with the owner of its target.
pub open spec fn new_violation(
    rule_id: Seq<char>,
    level: WarningLevel,
    message: Seq<char>,
    kind: Seq<char>,
    target: Seq<char>,
    current: Option<u64>,
    delta: Option<i64>,
    b: PolicyBudget,
    owners: Seq<PolicyOwnerRule>,
) -> ViolationText {
    let owner = owner_of(owners, kind, target);
    ViolationText {
        rule_id,
        level,
        message,
        target_kind: kind,
        target,
        owner,
        owner_source: if owner is Some {
            Some(PolicyOwnerSource::Policy)
        } else {
            None
        },
        owner_confidence: if owner is Some {
            Some(PolicyOwnerConfidence::High)
        } else {
            None
        },
        current_bytes: current,
        delta_bytes: delta,
        budget: snapshot_of(b),
        waiver: None,
    }
}

/// The id of an absolute-budget rule.
pub open spec fn absolute_rule_text(kind: Seq<char>, level: WarningLevel) -> Seq<char> {
    "budget."@ + kind + (if level == WarningLevel::Error {
        ".absolute"@
    } else {
        ".warn"@
    })
}

/// The id of a delta-budget rule.
pub open spec fn delta_rule_text(kind: Seq<char>, level: WarningLevel) -> Seq<char> {
    "budget."@ + kind + (if level == WarningLevel::Error {
        ".delta"@
    } else {
        ".delta.warn"@
    })
}

/// The violations of one budget: the absolute one, then the delta one.
pub open spec fn budget_violations(
    kind: Seq<char>,
    target: Seq<char>,
    label: Seq<char>,
    current: u64,
    delta: Option<i64>,
    b: PolicyBudget,
    owners: Seq<PolicyOwnerRule>,
) -> Seq<ViolationText> {
    (match absolute_level(current, b) {
        Some(l) => seq![
            new_violation(
                absolute_rule_text(kind, l),
                l,
                label + " exceeded absolute policy budget"@,
                kind,
                target,
                Some(current),
                delta,
                b,
                owners,
            ),
        ],
        None => Seq::empty(),
    }) + match delta {
        Some(d) => match delta_level(d, b) {
            Some(l) => seq![
                new_violation(
                    delta_rule_text(kind, l),
                    l,
                    label + " exceeded delta policy budget"@,
                    kind,
                    target,
                    Some(current),
                    Some(d),
                    b,
                    owners,
                ),
            ],
            None => Seq::empty(),
        },
        None => Seq::empty(),
    }
}

/// Builds a violation of a budget.
pub fn make_violation(
    rule_id: String,
    level: WarningLevel,
    message: String,
    target_kind: &str,
    target: &str,
    current_bytes: Option<u64>,
    delta_bytes: Option<i64>,
    budget: &PolicyBudget,
    owners: &Vec<PolicyOwnerRule>,
) -> (v: PolicyViolation)
    ensures
        violation_text(v) == new_violation(
            rule_id@,
            level,
            message@,
            target_kind@,
            target@,
            current_bytes,
            delta_bytes,
            *budget,
            owners@,
        ),
{
    let owner = resolve_owner(target_kind, target, owners);
    let (owner, owner_source, owner_confidence) = match owner {
        Some((o, src, conf)) => (Some(o), Some(src), Some(conf)),
        None => (None, None, None),
    };
    PolicyViolation {
        rule_id,
        level,
        message,
        target_kind: target_kind.to_owned(),
        target: target.to_owned(),
        owner,
        owner_source,
        owner_confidence,
        current_bytes,
        delta_bytes,
        budget: PolicyBudgetSnapshot {
            max_bytes: budget.max_bytes,
            warn_bytes: budget.warn_bytes,
            max_delta_bytes: budget.max_delta_bytes,
            warn_delta_bytes: budget.warn_delta_bytes,
        },
        waiver: None,
    }
}

fn labelled(label: &str, rest: &str) -> (r: String)
    ensures
        r@ == label@ + rest@,
{
    let mut v = chars_of(label);
    push_str_chars(&mut v, rest);
    string_of(&v)
}

/// Adds the violations of one budget: the absolute one, then the delta one.
pub fn push_budget_violations(
    violations: &mut Vec<PolicyViolation>,
    target_kind: &str,
    target: &str,
    current_bytes: u64,
    delta_bytes: Option<i64>,
    budget: &PolicyBudget,
    owners: &Vec<PolicyOwnerRule>,
    label: &str,
)
    ensures
        violation_texts(final(violations)@) == violation_texts(old(violations)@) + budget_violations(
            target_kind@,
            target@,
            label@,
            current_bytes,
            delta_bytes,
            *budget,
            owners@,
        ),
{
    let ghost before = violations@;
    if let Some(level) = compare_absolute(current_bytes, budget) {
        let v = make_violation(
            absolute_rule_id(target_kind, level),
            level,
            labelled(label, " exceeded absolute policy budget"),
            target_kind,
            target,
            Some(current_bytes),
            delta_bytes,
            budget,
            owners,
        );
        let ghost vt = violation_text(v);
        violations.push(v);
        assert(violation_texts(violations@) =~= violation_texts(before).push(vt));
    }
    let ghost mid = violations@;
    if let Some(delta) = delta_bytes {
        if let Some(level) = compare_delta(delta, budget) {
            let v = make_violation(
                delta_rule_id(target_kind, level),
                level,
                labelled(label, " exceeded delta policy budget"),
                target_kind,
                target,
                Some(current_bytes),
                Some(delta),
                budget,
                owners,
            );
            let ghost vt = violation_text(v);
            violations.push(v);
            assert(violation_texts(violations@) =~= violation_texts(mid).push(vt));
        }
    }
    assert(violation_texts(violations@) =~= violation_texts(before) + budget_violations(
        target_kind@,
        target@,
        label@,
        current_bytes,
        delta_bytes,
        *budget,
        owners@,
    ));
}

/// Names with sizes, as text.
pub open spec fn named_view(v: Seq<(String, u64)>) -> Seq<(Seq<char>, u64)> {
    v.map_values(|x: (String, u64)| (x.0@, x.1))
}

/// The total size of the entries whose name the pattern matches.
pub open spec fn matched_total(items: Seq<(Seq<char>, u64)>, pattern: Seq<char>) -> int
    decreases items.len(),
{
    if items.len() == 0 {
        0
    } else {
        matched_total(items.drop_last(), pattern) + if wildcard(pattern, items.last().0) {
            items.last().1 as int
        } else {
            0
        }
    }
}

/// The total growth of the diff entries whose name the pattern matches.
pub open spec fn matched_delta(es: Seq<DiffEntry>, pattern: Seq<char>) -> int
    decreases es.len(),
{
    if es.len() == 0 {
        0
    } else {
        matched_delta(es.drop_last(), pattern) + if wildcard(pattern, es.last().name@) {
            es.last().delta as int
        } else {
            0
        }
    }
}

/// Every running total of matched growth fits in `i64`.
pub open spec fn delta_sums_fit(es: Seq<DiffEntry>, pattern: Seq<char>) -> bool {
    forall|k: int| 0 <= k <= es.len() ==> i64::MIN <= #[trigger] matched_delta(es.take(k), pattern) <= i64::MAX
}

proof fn lemma_matched_total_prefix(items: Seq<(Seq<char>, u64)>, pattern: Seq<char>, k: int)
    requires
        0 <= k <= items.len(),
    ensures
        0 <= matched_total(items.take(k), pattern) <= matched_total(items, pattern),
    decreases items.len(),
{
    if k == items.len() {
        assert(items.take(k) =~= items);
        lemma_matched_total_nonneg(items, pattern);
    } else {
        assert(items.drop_last().take(k) =~= items.take(k));
        lemma_matched_total_prefix(items.drop_last(), pattern, k);
    }
}

proof fn lemma_matched_total_nonneg(items: Seq<(Seq<char>, u64)>, pattern: Seq<char>)
    ensures
        0 <= matched_total(items, pattern),
    decreases items.len(),
{
    if items.len() > 0 {
        lemma_matched_total_nonneg(items.drop_last(), pattern);
    }
}

/// The total size of the entries whose name the pattern matches.
pub fn matched_total_of(items: &Vec<(String, u64)>, pattern: &str) -> (r: u64)
    requires
        matched_total(named_view(items@), pattern@) <= u64::MAX,
    ensures
        r == matched_total(named_view(items@), pattern@),
{
    let ghost all = named_view(items@);
    let mut total: u64 = 0;
    let mut i: usize = 0;
    assert(all.take(0) =~= Seq::<(Seq<char>, u64)>::empty());
    while i < items.len()
        invariant
            0 <= i <= items.len(),
            all == named_view(items@),
            matched_total(all, pattern@) <= u64::MAX,
            total == matched_total(all.take(i as int), pattern@),
        decreases items.len() - i,
    {
        assert(all.take(i + 1).drop_last() =~= all.take(i as int));
        assert(all.take(i + 1).last() == (items@[i as int].0@, items@[i as int].1));
        proof {
            lemma_matched_total_prefix(all, pattern@, i + 1);
        }
        if wildcard_match(pattern, items[i].0.as_str()) {
            total = total + items[i].1;
        }
        i += 1;
    }
    assert(all.take(items.len() as int) =~= all);
    total
}

/// The total growth of the diff entries whose name the pattern matches.
pub fn matched_delta_of(es: &Vec<DiffEntry>, pattern: &str) -> (r: i64)
    requires
        delta_sums_fit(es@, pattern@),
    ensures
        r == matched_delta(es@, pattern@),
{
    let mut total: i64 = 0;
    let mut i: usize = 0;
    assert(es@.take(0) =~= Seq::<DiffEntry>::empty());
    while i < es.len()
        invariant
            0 <= i <= es.len(),
            delta_sums_fit(es@, pattern@),
            total == matched_delta(es@.take(i as int), pattern@),
        decreases es.len() - i,
    {
        assert(es@.take(i + 1).drop_last() =~= es@.take(i as int));
        assert(es@.take(i + 1).last() == es@[i as int]);
        assert(i64::MIN <= matched_delta(es@.take(i + 1), pattern@) <= i64::MAX);
        if wildcard_match(pattern, es[i].name.as_str()) {
            total = total + es[i].delta;
        }
        i += 1;
    }
    assert(es@.take(es.len() as int) =~= es@);
    total
}

/// Whether every budget's totals fit their integer types.
pub open spec fn budget_sums_fit(
    budgets: Seq<(String, PolicyBudget)>,
    items: Seq<(Seq<char>, u64)>,
    diffs: Option<Seq<DiffEntry>>,
) -> bool {
    forall|k: int|
        0 <= k < budgets.len() ==> matched_total(items, (#[trigger] budgets[k]).0@) <= u64::MAX && match diffs {
            Some(es) => delta_sums_fit(es, budgets[k].0@),
            None => true,
        }
}

/// The violations of pattern budgets, in budget order.
pub open spec fn pattern_budget_violations(
    kind: Seq<char>,
    label: Seq<char>,
    budgets: Seq<(String, PolicyBudget)>,
    items: Seq<(Seq<char>, u64)>,
    diffs: Option<Seq<DiffEntry>>,
    owners: Seq<PolicyOwnerRule>,
) -> Seq<ViolationText>
    decreases budgets.len(),
{
    if budgets.len() == 0 {
        Seq::empty()
    } else {
        let (pattern, b) = budgets.last();
        pattern_budget_violations(kind, label, budgets.drop_last(), items, diffs, owners) + budget_violations(
            kind,
            pattern@,
            label,
            matched_total(items, pattern@) as u64,
            match diffs {
                Some(es) => Some(matched_delta(es, pattern@) as i64),
                None => None,
            },
            b,
            owners,
        )
    }
}

/// The diff entries of an optional diff.
pub open spec fn opt_entries(v: Option<&Vec<DiffEntry>>) -> Option<Seq<DiffEntry>> {
    match v {
        Some(x) => Some(x@),
        None => None,
    }
}

/// Adds the violations of pattern budgets over named sizes and diff entries.
pub fn evaluate_pattern_budgets(
    violations: &mut Vec<PolicyViolation>,
    target_kind: &str,
    label: &str,
    budgets: &Vec<(String, PolicyBudget)>,
    items: &Vec<(String, u64)>,
    diffs: Option<&Vec<DiffEntry>>,
    owners: &Vec<PolicyOwnerRule>,
)
    requires
        budget_sums_fit(budgets@, named_view(items@), opt_entries(diffs)),
    ensures
        violation_texts(final(violations)@) == violation_texts(old(violations)@) + pattern_budget_violations(
            target_kind@,
            label@,
            budgets@,
            named_view(items@),
            opt_entries(diffs),
            owners@,
        ),
{
    let ghost start = violation_texts(violations@);
    let mut k: usize = 0;
    assert(budgets@.take(0) =~= Seq::<(String, PolicyBudget)>::empty());
    assert(start + pattern_budget_violations(target_kind@, label@, budgets@.take(0), named_view(items@), opt_entries(diffs), owners@) =~= start);
    while k < budgets.len()
        invariant
            0 <= k <= budgets.len(),
            budget_sums_fit(budgets@, named_view(items@), opt_entries(diffs)),
            violation_texts(violations@) == start + pattern_budget_violations(
                target_kind@,
                label@,
                budgets@.take(k as int),
                named_view(items@),
                opt_entries(diffs),
                owners@,
            ),
        decreases budgets.len() - k,
    {
        assert(budgets@.take(k + 1).drop_last() =~= budgets@.take(k as int));
        assert(budgets@.take(k + 1).last() == budgets@[k as int]);
        let pattern = &budgets[k].0;
        assert(matched_total(named_view(items@), budgets@[k as int].0@) <= u64::MAX);
        let current = matched_total_of(items, pattern.as_str());
        let delta = match diffs {
            Some(es) => Some(matched_delta_of(es, pattern.as_str())),
            None => None,
        };
        let ghost before = violation_texts(violations@);
        push_budget_violations(violations, target_kind, pattern.as_str(), current, delta, &budgets[k].1, owners, label);
        k += 1;
    }
    assert(budgets@.take(budgets.len() as int) =~= budgets@);
}

/// Whether a region summary is for the named region (letter case ignored).
pub open spec fn region_named(name: Seq<char>) -> spec_fn(RegionUsageSummary) -> bool {
    |r: RegionUsageSummary| eq_ignore_case(r.region_name@, name)
}

/// The violations of region budgets, in budget order.
pub open spec fn region_budget_violations(
    budgets: Seq<(String, PolicyBudget)>,
    regions: Seq<RegionUsageSummary>,
    owners: Seq<PolicyOwnerRule>,
) -> Seq<ViolationText>
    decreases budgets.len(),
{
    if budgets.len() == 0 {
        Seq::empty()
    } else {
        let (name, b) = budgets.last();
        region_budget_violations(budgets.drop_last(), regions, owners) + match crate::text::first_match(
            regions,
            region_named(name@),
        ) {
            None => Seq::empty(),
            Some(r) => match absolute_level(r.used, b) {
                Some(l) => seq![
                    new_violation(
                        absolute_rule_text("region"@, l),
                        l,
                        "Region "@ + r.region_name@ + " exceeded policy budget"@,
                        "region"@,
                        r.region_name@,
                        Some(r.used),
                        None,
                        b,
                        owners,
                    ),
                ],
                None => Seq::empty(),
            },
        }
    }
}

fn find_region(regions: &Vec<RegionUsageSummary>, name: &str) -> (r: Option<usize>)
    ensures
        match r {
            Some(i) => i < regions@.len() && crate::text::first_match(regions@, region_named(name@)) == Some(
                regions@[i as int],
            ),
            None => crate::text::first_match(regions@, region_named(name@)) is None,
        },
{
    let mut i: usize = 0;
    while i < regions.len()
        invariant
            0 <= i <= regions.len(),
            forall|k: int| 0 <= k < i ==> !region_named(name@)(#[trigger] regions@[k]),
        decreases regions.len() - i,
    {
        if str_eq_ignore_case(regions[i].region_name.as_str(), name) {
            assert(region_named(name@)(regions@[i as int]));
            proof {
                crate::text::lemma_first_match_found(regions@, region_named(name@), i as int);
            }
            return Some(i);
        }
        assert(!region_named(name@)(regions@[i as int]));
        i += 1;
    }
    proof {
        crate::text::lemma_first_match_none(regions@, region_named(name@));
    }
    None
}

/// Adds the violations of region budgets: a region over its budget breaks it.
pub fn evaluate_region_budgets(
    violations: &mut Vec<PolicyViolation>,
    budgets: &Vec<(String, PolicyBudget)>,
    regions: &Vec<RegionUsageSummary>,
    owners: &Vec<PolicyOwnerRule>,
)
    ensures
        violation_texts(final(violations)@) == violation_texts(old(violations)@) + region_budget_violations(
            budgets@,
            regions@,
            owners@,
        ),
{
    let ghost start = violation_texts(violations@);
    let mut k: usize = 0;
    assert(budgets@.take(0) =~= Seq::<(String, PolicyBudget)>::empty());
    assert(start + region_budget_violations(budgets@.take(0), regions@, owners@) =~= start);
    while k < budgets.len()
        invariant
            0 <= k <= budgets.len(),
            violation_texts(violations@) == start + region_budget_violations(
                budgets@.take(k as int),
                regions@,
                owners@,
            ),
        decreases budgets.len() - k,
    {
        assert(budgets@.take(k + 1).drop_last() =~= budgets@.take(k as int));
        assert(budgets@.take(k + 1).last() == budgets@[k as int]);
        let ghost before = violation_texts(violations@);
        match find_region(regions, budgets[k].0.as_str()) {
            Some(ri) => {
                let region = &regions[ri];
                match compare_absolute(region.used, &budgets[k].1) {
                    Some(level) => {
                        let mut m = chars_of("Region ");
                        push_str_chars(&mut m, region.region_name.as_str());
                        push_str_chars(&mut m, " exceeded policy budget");
                        let v = make_violation(
                            absolute_rule_id("region", level),
                            level,
                            string_of(&m),
                            "region",
                            region.region_name.as_str(),
                            Some(region.used),
                            None,
                            &budgets[k].1,
                            owners,
                        );
                        let ghost vt = violation_text(v);
                        violations.push(v);
                        assert(violation_texts(violations@) =~= before.push(vt));
                    },
                    None => {},
                }
            },
            None => {},
        }
        assert(violation_texts(violations@) =~= start + region_budget_violations(
            budgets@.take(k + 1),
            regions@,
            owners@,
        ));
        k += 1;
    }
    assert(budgets@.take(budgets.len() as int) =~= budgets@);
}

// ---------------------------------------------------------------------------
// Owners of what an analysis holds
// ---------------------------------------------------------------------------
/// Owner resolutions are listed by target kind, then by target.
impl SortKey for PolicyOwnerResolution {
    open spec fn key_le(self, other: Self) -> bool {
        lex_lt(self.target_kind@, other.target_kind@) || (self.target_kind@ == other.target_kind@ && lex_le(
            self.target@,
            other.target@,
        ))
    }

    proof fn lemma_key_total(a: Self, b: Self) {
        lemma_lex_total(a.target_kind@, b.target_kind@);
        lemma_lex_le_total(a.target@, b.target@);
    }

    proof fn lemma_key_transitive(a: Self, b: Self, c: Self) {
        lemma_lex_irreflexive(a.target_kind@);
        lemma_lex_irreflexive(b.target_kind@);
        if lex_lt(a.target_kind@, b.target_kind@) && lex_lt(b.target_kind@, c.target_kind@) {
            lemma_lex_transitive(a.target_kind@, b.target_kind@, c.target_kind@);
        }
        if a.target_kind@ == b.target_kind@ && b.target_kind@ == c.target_kind@ {
            lemma_lex_le_transitive(a.target@, b.target@, c.target@);
        }
    }

    fn exec_key_le(&self, other: &Self) -> (r: bool) {
        proof {
            lemma_lex_irreflexive(self.target_kind@);
        }
        match compare_strings(&self.target_kind, &other.target_kind) {
            Precedence::Before => true,
            Precedence::After => false,
            Precedence::Same => str_le(&self.target, &other.target),
        }
    }
}

/// An owner resolution as text: kind, target and owner.
pub open spec fn resolution_text(r: PolicyOwnerResolution) -> (Seq<char>, Seq<char>, Seq<char>) {
    (r.target_kind@, r.target@, r.owner@)
}

/// The texts of owner resolutions.
pub open spec fn resolution_texts(v: Seq<PolicyOwnerResolution>) -> Seq<(Seq<char>, Seq<char>, Seq<char>)> {
    v.map_values(|r: PolicyOwnerResolution| resolution_text(r))
}

/// The targets whose owner is looked up, in order: source paths, objects,
/// libraries, C++ classes and template families.
pub open spec fn owner_candidates(s: PolicySubject) -> Seq<(Seq<char>, Seq<char>)> {
    s.source_files@.map_values(|f: SourceFile| ("path"@, f.path@)) + s.object_contributions@.map_values(
        |o: ObjectContribution| ("object"@, o.object_path@),
    ) + s.archive_contributions@.map_values(|a: ArchiveContribution| ("library"@, a.archive_path@))
        + s.cpp_view.top_classes@.map_values(|c: CppAggregate| ("cpp_class"@, c.name@))
        + s.cpp_view.top_template_families@.map_values(|c: CppAggregate| ("cpp_template_family"@, c.name@))
}

/// The targets that have an owner, each once, in the order first met.
pub open spec fn owned_targets(cands: Seq<(Seq<char>, Seq<char>)>, owners: Seq<PolicyOwnerRule>) -> Seq<
    (Seq<char>, Seq<char>, Seq<char>),
>
    decreases cands.len(),
{
    if cands.len() == 0 {
        Seq::empty()
    } else {
        let (kind, target) = cands.last();
        let rest = owned_targets(cands.drop_last(), owners);
        match owner_of(owners, kind, target) {
            Some(o) => if exists|k: int| 0 <= k < cands.len() - 1 && #[trigger] cands[k] == cands.last() {
                rest
            } else {
                rest.push((kind, target, o))
            },
            None => rest,
        }
    }
}

fn push_candidates_sources(out: &mut Vec<(String, String)>, files: &Vec<SourceFile>)
    ensures
        views_pairs(final(out)@) == views_pairs(old(out)@) + files@.map_values(|f: SourceFile| ("path"@, f.path@)),
{
    let ghost start = views_pairs(out@);
    let mut i: usize = 0;
    while i < files.len()
        invariant
            0 <= i <= files.len(),
            views_pairs(out@) == start + files@.take(i as int).map_values(|f: SourceFile| ("path"@, f.path@)),
        decreases files.len() - i,
    {
        let ghost before = views_pairs(out@);
        out.push(("path".to_owned(), copy_string(&files[i].path)));
        assert(views_pairs(out@) =~= before.push(("path"@, files@[i as int].path@)));
        assert(files@.take(i + 1).map_values(|f: SourceFile| ("path"@, f.path@)) =~= files@.take(i as int).map_values(
            |f: SourceFile| ("path"@, f.path@),
        ).push(("path"@, files@[i as int].path@)));
        i += 1;
    }
    assert(files@.take(files.len() as int) =~= files@);
}

fn push_candidates_objects(out: &mut Vec<(String, String)>, objects: &Vec<ObjectContribution>)
    ensures
        views_pairs(final(out)@) == views_pairs(old(out)@) + objects@.map_values(
            |o: ObjectContribution| ("object"@, o.object_path@),
        ),
{
    let ghost start = views_pairs(out@);
    let mut i: usize = 0;
    while i < objects.len()
        invariant
            0 <= i <= objects.len(),
            views_pairs(out@) == start + objects@.take(i as int).map_values(
                |o: ObjectContribution| ("object"@, o.object_path@),
            ),
        decreases objects.len() - i,
    {
        let ghost before = views_pairs(out@);
        out.push(("object".to_owned(), copy_string(&objects[i].object_path)));
        assert(views_pairs(out@) =~= before.push(("object"@, objects@[i as int].object_path@)));
        assert(objects@.take(i + 1).map_values(|o: ObjectContribution| ("object"@, o.object_path@))
            =~= objects@.take(i as int).map_values(|o: ObjectContribution| ("object"@, o.object_path@)).push(
            ("object"@, objects@[i as int].object_path@),
        ));
        i += 1;
    }
    assert(objects@.take(objects.len() as int) =~= objects@);
}

fn push_candidates_archives(out: &mut Vec<(String, String)>, archives: &Vec<ArchiveContribution>)
    ensures
        views_pairs(final(out)@) == views_pairs(old(out)@) + archives@.map_values(
            |a: ArchiveContribution| ("library"@, a.archive_path@),
        ),
{
    let ghost start = views_pairs(out@);
    let mut i: usize = 0;
    while i < archives.len()
        invariant
            0 <= i <= archives.len(),
            views_pairs(out@) == start + archives@.take(i as int).map_values(
                |a: ArchiveContribution| ("library"@, a.archive_path@),
            ),
        decreases archives.len() - i,
    {
        let ghost before = views_pairs(out@);
        out.push(("library".to_owned(), copy_string(&archives[i].archive_path)));
        assert(views_pairs(out@) =~= before.push(("library"@, archives@[i as int].archive_path@)));
        assert(archives@.take(i + 1).map_values(|a: ArchiveContribution| ("library"@, a.archive_path@))
            =~= archives@.take(i as int).map_values(|a: ArchiveContribution| ("library"@, a.archive_path@)).push(
            ("library"@, archives@[i as int].archive_path@),
        ));
        i += 1;
    }
    assert(archives@.take(archives.len() as int) =~= archives@);
}

fn push_candidates_aggregates(out: &mut Vec<(String, String)>, kind: &str, aggs: &Vec<CppAggregate>)
    ensures
        views_pairs(final(out)@) == views_pairs(old(out)@) + aggs@.map_values(|c: CppAggregate| (kind@, c.name@)),
{
    let ghost start = views_pairs(out@);
    let mut i: usize = 0;
    while i < aggs.len()
        invariant
            0 <= i <= aggs.len(),
            views_pairs(out@) == start + aggs@.take(i as int).map_values(|c: CppAggregate| (kind@, c.name@)),
        decreases aggs.len() - i,
    {
        let ghost before = views_pairs(out@);
        out.push((kind.to_owned(), copy_string(&aggs[i].name)));
        assert(views_pairs(out@) =~= before.push((kind@, aggs@[i as int].name@)));
        assert(aggs@.take(i + 1).map_values(|c: CppAggregate| (kind@, c.name@)) =~= aggs@.take(i as int).map_values(
            |c: CppAggregate| (kind@, c.name@),
        ).push((kind@, aggs@[i as int].name@)));
        i += 1;
    }
    assert(aggs@.take(aggs.len() as int) =~= aggs@);
}

/// Pairs of strings as text.
pub open spec fn views_pairs(v: Seq<(String, String)>) -> Seq<(Seq<char>, Seq<char>)> {
    v.map_values(|x: (String, String)| (x.0@, x.1@))
}

/// The owners of what an analysis holds: each target with an owner once,
/// listed by kind and target.
pub fn collect_owner_resolutions(subject: &PolicySubject, owners: &Vec<PolicyOwnerRule>) -> (out: Vec<
    PolicyOwnerResolution,
>)
    ensures
        exists|found: Seq<PolicyOwnerResolution>|
            resolution_texts(found) == owned_targets(owner_candidates(*subject), owners@) && #[trigger] sorted_by_key(
                found,
            ) == out@,
        forall|k: int| 0 <= k < out@.len() ==> (#[trigger] out@[k]).owner_source == PolicyOwnerSource::Policy
            && out@[k].owner_confidence == PolicyOwnerConfidence::High,
{
    let mut cands: Vec<(String, String)> = Vec::new();
    assert(views_pairs(cands@) =~= Seq::<(Seq<char>, Seq<char>)>::empty());
    push_candidates_sources(&mut cands, &subject.source_files);
    push_candidates_objects(&mut cands, &subject.object_contributions);
    push_candidates_archives(&mut cands, &subject.archive_contributions);
    push_candidates_aggregates(&mut cands, "cpp_class", &subject.cpp_view.top_classes);
    push_candidates_aggregates(&mut cands, "cpp_template_family", &subject.cpp_view.top_template_families);
    let ghost cv = views_pairs(cands@);
    assert(cv =~= owner_candidates(*subject));
    let mut found: Vec<PolicyOwnerResolution> = Vec::new();
    let mut i: usize = 0;
    assert(cv.take(0) =~= Seq::<(Seq<char>, Seq<char>)>::empty());
    while i < cands.len()
        invariant
            0 <= i <= cands.len(),
            cv == views_pairs(cands@),
            resolution_texts(found@) == owned_targets(cv.take(i as int), owners@),
            forall|k: int| 0 <= k < found@.len() ==> (#[trigger] found@[k]).owner_source == PolicyOwnerSource::Policy
                && found@[k].owner_confidence == PolicyOwnerConfidence::High,
        decreases cands.len() - i,
    {
        let ghost t = cv.take(i + 1);
        assert(t.drop_last() =~= cv.take(i as int));
        assert(t.last() == cv[i as int]);
        let (kind, target) = (&cands[i].0, &cands[i].1);
        assert(kind@ == cv[i as int].0 && target@ == cv[i as int].1);
        match resolve_owner(kind.as_str(), target.as_str(), owners) {
            Some((o, src, conf)) => {
                let mut seen = false;
                let mut j: usize = 0;
                while j < i
                    invariant
                        0 <= j <= i < cands.len(),
                        cv == views_pairs(cands@),
                        kind@ == cv[i as int].0,
                        target@ == cv[i as int].1,
                        seen == exists|k: int| 0 <= k < j && #[trigger] cv[k] == cv[i as int],
                    decreases i - j,
                {
                    if str_eq(cands[j].0.as_str(), kind.as_str()) && str_eq(cands[j].1.as_str(), target.as_str()) {
                        assert(cv[j as int] == cv[i as int]);
                        seen = true;
                    }
                    j += 1;
                }
                assert(seen == exists|k: int| 0 <= k < t.len() - 1 && #[trigger] t[k] == t.last()) by {
                    if seen {
                        let k = choose|k: int| 0 <= k < i && #[trigger] cv[k] == cv[i as int];
                        assert(t[k] == cv[k]);
                    }
                    if exists|k: int| 0 <= k < t.len() - 1 && #[trigger] t[k] == t.last() {
                        let k = choose|k: int| 0 <= k < t.len() - 1 && #[trigger] t[k] == t.last();
                        assert(t[k] == cv[k]);
                    }
                }
                if !seen {
                    let ghost before = found@;
                    let r = PolicyOwnerResolution {
                        target_kind: copy_string(kind),
                        target: copy_string(target),
                        owner: o,
                        owner_source: src,
                        owner_confidence: conf,
                    };
                    let ghost rt = resolution_text(r);
                    found.push(r);
                    assert(resolution_texts(found@) =~= resolution_texts(before).push(rt));
                }
            },
            None => {},
        }
        i += 1;
    }
    assert(cv.take(cands.len() as int) =~= cv);
    let ghost fseq = found@;
    let out = sort_by_key(found);
    proof {
        crate::sorting::lemma_sorted_by_key_permutes(fseq);
        assert forall|k: int| 0 <= k < out@.len() implies (#[trigger] out@[k]).owner_source == PolicyOwnerSource::Policy
            && out@[k].owner_confidence == PolicyOwnerConfidence::High by {
            out@.to_multiset_ensures();
            fseq.to_multiset_ensures();
            assert(out@.contains(out@[k]));
            assert(fseq.to_multiset().count(out@[k]) > 0);
            assert(fseq.contains(out@[k]));
        }
    }
    out
}

// ---------------------------------------------------------------------------
// Evaluation
// ---------------------------------------------------------------------------
/// A waiver covers a violation, as text.
pub open spec fn waiver_covers_text(w: PolicyWaiver, t: ViolationText) -> bool {
    w.rule@ == t.rule_id && spec_selects(w.match_spec, t.target_kind, t.target)
}

/// Index of the first waiver that covers a violation, as text.
pub open spec fn first_waiver_text(waivers: Seq<PolicyWaiver>, t: ViolationText) -> Option<int>
    decreases waivers.len(),
{
    if waivers.len() == 0 {
        None
    } else if waiver_covers_text(waivers[0], t) {
        Some(0)
    } else {
        match first_waiver_text(waivers.drop_first(), t) {
            Some(i) => Some(i + 1),
            None => None,
        }
    }
}

proof fn lemma_first_waiver_text(waivers: Seq<PolicyWaiver>, v: PolicyViolation)
    ensures
        first_waiver(waivers, v) == first_waiver_text(waivers, violation_text(v)),
    decreases waivers.len(),
{
    if waivers.len() > 0 {
        lemma_first_waiver_text(waivers.drop_first(), v);
    }
}

/// An expired waiver as text: rule, target, reason and expiry.
pub open spec fn expired_text(e: ExpiredWaiver) -> (Seq<char>, Seq<char>, Seq<char>, Seq<char>) {
    (e.rule@, e.target@, e.reason@, e.expires@)
}

/// The texts of expired waivers.
pub open spec fn expired_texts(v: Seq<ExpiredWaiver>) -> Seq<(Seq<char>, Seq<char>, Seq<char>, Seq<char>)> {
    v.map_values(|e: ExpiredWaiver| expired_text(e))
}

/// What the waivers do to the violations, in order: the violations that
/// stand, those waived (with their waiver), and the waivers found expired.
pub open spec fn waiver_outcome(vs: Seq<ViolationText>, waivers: Seq<PolicyWaiver>, today: Seq<char>) -> (
    Seq<ViolationText>,
    Seq<ViolationText>,
    Seq<(Seq<char>, Seq<char>, Seq<char>, Seq<char>)>,
)
    decreases vs.len(),
{
    if vs.len() == 0 {
        (Seq::empty(), Seq::empty(), Seq::empty())
    } else {
        let (kept, waived, expired) = waiver_outcome(vs.drop_last(), waivers, today);
        let t = vs.last();
        match first_waiver_text(waivers, t) {
            None => (kept.push(t), waived, expired),
            Some(i) => {
                let w = waivers[i];
                if lex_le(today, w.expires@) {
                    (kept, waived.push(ViolationText { waiver: Some((w.rule@, w.reason@, w.expires@)), ..t }), expired)
                } else {
                    (kept.push(t), waived, expired.push((w.rule@, t.target, w.reason@, w.expires@)))
                }
            },
        }
    }
}

/// Source files as named sizes.
pub open spec fn source_items(s: PolicySubject) -> Seq<(Seq<char>, u64)> {
    s.source_files@.map_values(|f: SourceFile| (f.path@, f.size))
}

/// Archive contributions as named sizes.
pub open spec fn archive_items(s: PolicySubject) -> Seq<(Seq<char>, u64)> {
    s.archive_contributions@.map_values(|a: ArchiveContribution| (a.archive_path@, a.size))
}

/// C++ aggregates as named sizes.
pub open spec fn aggregate_items(v: Seq<CppAggregate>) -> Seq<(Seq<char>, u64)> {
    v.map_values(|c: CppAggregate| (c.name@, c.size))
}

/// The diff entries of one kind of an optional diff.
pub open spec fn diff_part(diff: Option<DiffResult>, kind: int) -> Option<Seq<DiffEntry>> {
    match diff {
        Some(d) => Some(
            if kind == 0 {
                d.source_file_diffs@
            } else if kind == 1 {
                d.archive_diffs@
            } else if kind == 2 {
                d.cpp_class_diffs@
            } else {
                d.cpp_template_family_diffs@
            },
        ),
        None => None,
    }
}

/// Every total that the budgets of every profile need fits its integer type.
pub open spec fn policy_sums_fit(s: PolicySubject, diff: Option<DiffResult>, c: PolicyConfigFile) -> bool {
    forall|k: int|
        0 <= k < c.profiles@.len() ==> {
            let b = (#[trigger] c.profiles@[k]).1.budgets;
            &&& budget_sums_fit(b.paths@, source_items(s), diff_part(diff, 0))
            &&& budget_sums_fit(b.libraries@, archive_items(s), diff_part(diff, 1))
            &&& budget_sums_fit(b.cpp_classes@, aggregate_items(s.cpp_view.top_classes@), diff_part(diff, 2))
            &&& budget_sums_fit(
                b.cpp_template_families@,
                aggregate_items(s.cpp_view.top_template_families@),
                diff_part(diff, 3),
            )
        }
}

/// Every budget violation of an analysis, before waivers: regions, paths,
/// libraries, C++ classes, then C++ template families.
pub open spec fn all_budget_violations(
    s: PolicySubject,
    diff: Option<DiffResult>,
    p: PolicyProfile,
    owners: Seq<PolicyOwnerRule>,
) -> Seq<ViolationText> {
    region_budget_violations(p.budgets.regions@, s.region_summaries@, owners) + pattern_budget_violations(
        "path"@,
        "Path budget"@,
        p.budgets.paths@,
        source_items(s),
        diff_part(diff, 0),
        owners,
    ) + pattern_budget_violations(
        "library"@,
        "Library budget"@,
        p.budgets.libraries@,
        archive_items(s),
        diff_part(diff, 1),
        owners,
    ) + pattern_budget_violations(
        "cpp_class"@,
        "C++ class budget"@,
        p.budgets.cpp_classes@,
        aggregate_items(s.cpp_view.top_classes@),
        diff_part(diff, 2),
        owners,
    ) + pattern_budget_violations(
        "cpp_template_family"@,
        "C++ template family budget"@,
        p.budgets.cpp_template_families@,
        aggregate_items(s.cpp_view.top_template_families@),
        diff_part(diff, 3),
        owners,
    )
}

fn source_sizes(files: &Vec<SourceFile>) -> (out: Vec<(String, u64)>)
    ensures
        named_view(out@) == files@.map_values(|f: SourceFile| (f.path@, f.size)),
{
    let mut out: Vec<(String, u64)> = Vec::new();
    let mut i: usize = 0;
    while i < files.len()
        invariant
            0 <= i <= files.len(),
            named_view(out@) == files@.take(i as int).map_values(|f: SourceFile| (f.path@, f.size)),
        decreases files.len() - i,
    {
        let ghost before = named_view(out@);
        out.push((copy_string(&files[i].path), files[i].size));
        assert(named_view(out@) =~= before.push((files@[i as int].path@, files@[i as int].size)));
        assert(files@.take(i + 1).map_values(|f: SourceFile| (f.path@, f.size)) =~= files@.take(i as int).map_values(
            |f: SourceFile| (f.path@, f.size),
        ).push((files@[i as int].path@, files@[i as int].size)));
        i += 1;
    }
    assert(files@.take(files.len() as int) =~= files@);
    out
}

fn archive_sizes(archives: &Vec<ArchiveContribution>) -> (out: Vec<(String, u64)>)
    ensures
        named_view(out@) == archives@.map_values(|a: ArchiveContribution| (a.archive_path@, a.size)),
{
    let mut out: Vec<(String, u64)> = Vec::new();
    let mut i: usize = 0;
    while i < archives.len()
        invariant
            0 <= i <= archives.len(),
            named_view(out@) == archives@.take(i as int).map_values(
                |a: ArchiveContribution| (a.archive_path@, a.size),
            ),
        decreases archives.len() - i,
    {
        let ghost before = named_view(out@);
        out.push((copy_string(&archives[i].archive_path), archives[i].size));
        assert(named_view(out@) =~= before.push((archives@[i as int].archive_path@, archives@[i as int].size)));
        assert(archives@.take(i + 1).map_values(|a: ArchiveContribution| (a.archive_path@, a.size))
            =~= archives@.take(i as int).map_values(|a: ArchiveContribution| (a.archive_path@, a.size)).push(
            (archives@[i as int].archive_path@, archives@[i as int].size),
        ));
        i += 1;
    }
    assert(archives@.take(archives.len() as int) =~= archives@);
    out
}

fn aggregate_sizes(aggs: &Vec<CppAggregate>) -> (out: Vec<(String, u64)>)
    ensures
        named_view(out@) == aggregate_items(aggs@),
{
    let mut out: Vec<(String, u64)> = Vec::new();
    let mut i: usize = 0;
    while i < aggs.len()
        invariant
            0 <= i <= aggs.len(),
            named_view(out@) == aggregate_items(aggs@.take(i as int)),
        decreases aggs.len() - i,
    {
        let ghost before = named_view(out@);
        out.push((copy_string(&aggs[i].name), aggs[i].size));
        assert(named_view(out@) =~= before.push((aggs@[i as int].name@, aggs@[i as int].size)));
        assert(aggregate_items(aggs@.take(i + 1)) =~= aggregate_items(aggs@.take(i as int)).push(
            (aggs@[i as int].name@, aggs@[i as int].size),
        ));
        i += 1;
    }
    assert(aggs@.take(aggs.len() as int) =~= aggs@);
    out
}

/// The diff of an optional diff, as a value.
pub open spec fn opt_diff(d: Option<&DiffResult>) -> Option<DiffResult> {
    match d {
        Some(x) => Some(*x),
        None => None,
    }
}

/// Checks an analysis against the requested (or default) profile of a
/// policy: every broken budget becomes a violation, with the owner of its
/// target; the first waiver that covers a violation waives it until it
/// expires (`today` is the date, `YYYY-MM-DD`), and an expired waiver is
/// reported while the violation stands.
pub fn evaluate_policy(
    subject: &PolicySubject,
    diff: Option<&DiffResult>,
    config: &PolicyConfigFile,
    requested_profile: Option<&str>,
    today: &String,
) -> (r: Result<PolicyEvaluation, PolicyError>)
    requires
        policy_sums_fit(*subject, opt_diff(diff), *config),
    ensures
        ({
            let req = match requested_profile {
                Some(p) => Some(p@),
                None => None,
            };
            match selected_profile(*config, req) {
                None => match r {
                    Ok(_) => false,
                    Err(PolicyError::ProfileNotFound(n)) => req == Some(n@),
                    Err(PolicyError::DefaultProfileNotFound(d)) => req is None && config.default_profile == Some(d),
                    Err(PolicyError::NoProfiles) => req is None && config.default_profile is None
                        && config.profiles@.len() == 0,
                    Err(_) => false,
                },
                Some(i) => r is Ok && {
                    let ev = r->Ok_0;
                    let (name, profile) = config.profiles@[i];
                    let all = all_budget_violations(*subject, opt_diff(diff), profile, config.owners@);
                    let (kept, waived, expired) = waiver_outcome(all, config.waivers@, today@);
                    &&& ev.profile@ == name@
                    &&& ev.effective.region_budget_count == profile.budgets.regions@.len()
                    &&& ev.effective.path_budget_count == profile.budgets.paths@.len()
                    &&& ev.effective.library_budget_count == profile.budgets.libraries@.len()
                    &&& ev.effective.cpp_class_budget_count == profile.budgets.cpp_classes@.len()
                    &&& ev.effective.cpp_template_budget_count == profile.budgets.cpp_template_families@.len()
                    &&& ev.effective.owner_rule_count == config.owners@.len()
                    &&& ev.effective.waiver_count == config.waivers@.len()
                    &&& exists|found: Seq<PolicyOwnerResolution>|
                        resolution_texts(found) == owned_targets(owner_candidates(*subject), config.owners@)
                            && #[trigger] sorted_by_key(found) == ev.owners@
                    &&& violation_texts(ev.violations@) == kept
                    &&& violation_texts(ev.waived@) == waived
                    &&& expired_texts(ev.expired_waivers@) == expired
                },
            }
        }),
{
    let ghost req = match requested_profile {
        Some(p) => Some(p@),
        None => None,
    };
    let index = match select_profile(config, requested_profile) {
        Ok(i) => {
            proof {
                match selected_profile(*config, req) {
                    Some(k) => {
                        assert(config.profiles@.len() == config.profiles.len());
                        assert(0 <= k < config.profiles@.len());
                        assert(i as int == k);
                    },
                    None => {
                        assert(false);
                    },
                }
            }
            i
        },
        Err(e) => {
            return Err(e);
        },
    };
    assert(index < config.profiles.len());
    let name = copy_string(&config.profiles[index].0);
    let profile = &config.profiles[index].1;
    let effective = effective_summary(config, profile);
    let owners = collect_owner_resolutions(subject, &config.owners);
    let ghost b = profile.budgets;
    assert(config.profiles@[index as int].1.budgets == b);
    let mut pending: Vec<PolicyViolation> = Vec::new();
    assert(violation_texts(pending@) =~= Seq::<ViolationText>::empty());
    evaluate_region_budgets(&mut pending, &profile.budgets.regions, &subject.region_summaries, &config.owners);
    let sources = source_sizes(&subject.source_files);
    let archives = archive_sizes(&subject.archive_contributions);
    let classes = aggregate_sizes(&subject.cpp_view.top_classes);
    let templates = aggregate_sizes(&subject.cpp_view.top_template_families);
    let (d0, d1, d2, d3) = match diff {
        Some(d) => (
            Some(&d.source_file_diffs),
            Some(&d.archive_diffs),
            Some(&d.cpp_class_diffs),
            Some(&d.cpp_template_family_diffs),
        ),
        None => (None, None, None, None),
    };
    assert(opt_entries(d0) == diff_part(opt_diff(diff), 0));
    assert(opt_entries(d1) == diff_part(opt_diff(diff), 1));
    assert(opt_entries(d2) == diff_part(opt_diff(diff), 2));
    assert(opt_entries(d3) == diff_part(opt_diff(diff), 3));
    evaluate_pattern_budgets(&mut pending, "path", "Path budget", &profile.budgets.paths, &sources, d0, &config.owners);
    evaluate_pattern_budgets(
        &mut pending,
        "library",
        "Library budget",
        &profile.budgets.libraries,
        &archives,
        d1,
        &config.owners,
    );
    evaluate_pattern_budgets(
        &mut pending,
        "cpp_class",
        "C++ class budget",
        &profile.budgets.cpp_classes,
        &classes,
        d2,
        &config.owners,
    );
    evaluate_pattern_budgets(
        &mut pending,
        "cpp_template_family",
        "C++ template family budget",
        &profile.budgets.cpp_template_families,
        &templates,
        d3,
        &config.owners,
    );
    let ghost all = violation_texts(pending@);
    assert(all =~= all_budget_violations(*subject, opt_diff(diff), *profile, config.owners@));
    let mut violations: Vec<PolicyViolation> = Vec::new();
    let mut waived: Vec<PolicyViolation> = Vec::new();
    let mut expired_waivers: Vec<ExpiredWaiver> = Vec::new();
    let mut rest = pending;
    let ghost mut done: int = 0;
    proof {
        assert(all.take(0) =~= Seq::<ViolationText>::empty());
        assert(violation_texts(violations@) =~= Seq::<ViolationText>::empty());
        assert(violation_texts(waived@) =~= Seq::<ViolationText>::empty());
        assert(expired_texts(expired_waivers@) =~= Seq::<(Seq<char>, Seq<char>, Seq<char>, Seq<char>)>::empty());
    }
    while rest.len() > 0
        invariant
            0 <= done <= all.len(),
            violation_texts(rest@) == all.skip(done),
            ({
                let (k, w, e) = waiver_outcome(all.take(done), config.waivers@, today@);
                &&& violation_texts(violations@) == k
                &&& violation_texts(waived@) == w
                &&& expired_texts(expired_waivers@) == e
            }),
        decreases rest.len(),
    {
        let ghost old_rest = rest@;
        let violation = rest.remove(0);
        proof {
            assert(rest@ =~= old_rest.drop_first());
            assert(violation_texts(old_rest).len() == old_rest.len());
            assert(done < all.len());
            assert(violation_texts(old_rest)[0] == violation_text(old_rest[0]));
            assert(all.skip(done)[0] == all[done]);
            assert(violation_texts(rest@) =~= violation_texts(old_rest).drop_first());
            assert(all.skip(done).drop_first() =~= all.skip(done + 1));
            assert(violation_texts(rest@) =~= all.skip(done + 1));
            assert(violation_text(violation) == all[done]);
            assert(all.take(done + 1).drop_last() =~= all.take(done));
            assert(all.take(done + 1).last() == all[done]);
            lemma_first_waiver_text(config.waivers@, violation);
        }
        let ghost t = violation_text(violation);
        let ghost kb = violation_texts(violations@);
        let ghost wb = violation_texts(waived@);
        let ghost eb = expired_texts(expired_waivers@);
        match apply_waiver(&violation, &config.waivers, today) {
            WaiverDecision::NoWaiver => {
                violations.push(violation);
                assert(violation_texts(violations@) =~= kb.push(t));
            },
            WaiverDecision::Applied(w) => {
                let mut v = violation;
                v.waiver = Some(w);
                let ghost vt = violation_text(v);
                waived.push(v);
                assert(violation_texts(waived@) =~= wb.push(vt));
            },
            WaiverDecision::Expired(e) => {
                let ghost et = expired_text(e);
                expired_waivers.push(e);
                violations.push(violation);
                assert(expired_texts(expired_waivers@) =~= eb.push(et));
                assert(violation_texts(violations@) =~= kb.push(t));
            },
        }
        proof {
            done = done + 1;
        }
    }
    assert(all.take(done) =~= all);
    Ok(PolicyEvaluation { profile: name, effective, owners, violations, waived, expired_waivers })
}

} // verus!
