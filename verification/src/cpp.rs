//! The C++ view of a symbol table: each C++ symbol classified by kind
//! (constructor, method, vtable, ...) and placed in its namespace, class,
//! method family and template family, with the largest groups of each.
//!
//! Names are read as text.  Template arguments are collapsed to `<...>` so
//! that every instantiation of a template lands in one family.
use vstd::prelude::*;

use crate::demangle::{demangle_spec, demangle_symbol, opt_view};
use crate::text::opt_text;
use crate::grouping::{
    accumulate_groups, group_totals, key_count, key_total, keyed_view, lemma_group_keys_present,
    lemma_group_of_key, rows_match, size_sum, top_names, totals_by_name,
    Group, GroupTotal,
};
use crate::model::{DemangleMode, SymbolInfo};
use crate::sorting::{keep_first, sort_by_key, sorted_by_key, SortKey};
use crate::text::{
    char_is_upper, chars_contains, chars_eq, chars_has, chars_of, chars_split_all, chars_starts_with,
    contains_seq, copy_chars, copy_opt_string, copy_string, has_char, is_prefix, is_upper, join,
    join_chars, lemma_lex_le_total, lemma_lex_le_transitive, lex_le, push_all, slice_chars,
    split_all, str_eq, str_le, string_of, views,
};

verus! {

// ---------------------------------------------------------------------------
// Types
// ---------------------------------------------------------------------------
/// What kind of C++ entity a symbol is.
#[derive(Debug, Clone, Copy, PartialEq, Eq, Structural)]
pub enum CppSymbolKind {
    Function,
    Method,
    Constructor,
    Destructor,
    Vtable,
    Typeinfo,
    GuardVariable,
    Thunk,
    Other,
}

/// How C++ symbols are grouped for a report.
#[derive(Debug, Clone, Copy, PartialEq, Eq, Structural)]
pub enum CppGroupBy {
    Symbol,
    CppTemplateFamily,
    CppClass,
    CppRuntimeOverhead,
    CppLambdaGroup,
}

/// One classified C++ symbol.
#[derive(Debug, Clone, PartialEq, Eq)]
pub struct CppSymbolSummary {
    pub raw_name: String,
    pub display_name: String,
    pub kind: CppSymbolKind,
    pub namespace: Option<String>,
    pub class_name: Option<String>,
    pub method_family: Option<String>,
    pub template_family: Option<String>,
    pub lambda_related: bool,
    pub anonymous_namespace: bool,
    pub template_instantiation: bool,
    pub size: u64,
}

/// One group of a C++ ranking.
#[derive(Debug, Clone, PartialEq, Eq)]
pub struct CppAggregate {
    pub name: String,
    pub size: u64,
    pub symbol_count: usize,
}

/// The C++ view of a symbol table.
#[derive(Debug, Clone, PartialEq, Eq)]
pub struct CppView {
    pub top_namespaces: Vec<CppAggregate>,
    pub top_classes: Vec<CppAggregate>,
    pub top_method_families: Vec<CppAggregate>,
    pub top_template_families: Vec<CppAggregate>,
    pub runtime_overhead: Vec<CppAggregate>,
    pub lambda_groups: Vec<CppAggregate>,
    pub classified_symbols: Vec<CppSymbolSummary>,
}

/// The text of a classified symbol.
pub struct CppSummaryText {
    pub raw_name: Seq<char>,
    pub display_name: Seq<char>,
    pub kind: CppSymbolKind,
    pub namespace: Option<Seq<char>>,
    pub class_name: Option<Seq<char>>,
    pub method_family: Option<Seq<char>>,
    pub template_family: Option<Seq<char>>,
    pub lambda_related: bool,
    pub anonymous_namespace: bool,
    pub template_instantiation: bool,
    pub size: u64,
}

impl View for CppSymbolSummary {
    type V = CppSummaryText;

    open spec fn view(&self) -> CppSummaryText {
        CppSummaryText {
            raw_name: self.raw_name@,
            display_name: self.display_name@,
            kind: self.kind,
            namespace: opt_text(self.namespace),
            class_name: opt_text(self.class_name),
            method_family: opt_text(self.method_family),
            template_family: opt_text(self.template_family),
            lambda_related: self.lambda_related,
            anonymous_namespace: self.anonymous_namespace,
            template_instantiation: self.template_instantiation,
            size: self.size,
        }
    }
}

/// Classified symbols rank by size, largest first, then by display name.
impl SortKey for CppSymbolSummary {
    open spec fn key_le(self, other: Self) -> bool {
        self.size > other.size || (self.size == other.size && lex_le(
            self.display_name@,
            other.display_name@,
        ))
    }

    proof fn lemma_key_total(a: Self, b: Self) {
        lemma_lex_le_total(a.display_name@, b.display_name@);
    }

    proof fn lemma_key_transitive(a: Self, b: Self, c: Self) {
        if a.size == b.size && b.size == c.size {
            lemma_lex_le_transitive(a.display_name@, b.display_name@, c.display_name@);
        }
    }

    fn exec_key_le(&self, other: &Self) -> (r: bool) {
        if self.size != other.size {
            self.size > other.size
        } else {
            str_le(&self.display_name, &other.display_name)
        }
    }
}

/// Groups rank by size, largest first, then by name.
impl SortKey for CppAggregate {
    open spec fn key_le(self, other: Self) -> bool {
        self.size > other.size || (self.size == other.size && lex_le(self.name@, other.name@))
    }

    proof fn lemma_key_total(a: Self, b: Self) {
        lemma_lex_le_total(a.name@, b.name@);
    }

    proof fn lemma_key_transitive(a: Self, b: Self, c: Self) {
        if a.size == b.size && b.size == c.size {
            lemma_lex_le_transitive(a.name@, b.name@, c.name@);
        }
    }

    fn exec_key_le(&self, other: &Self) -> (r: bool) {
        if self.size != other.size {
            self.size > other.size
        } else {
            str_le(&self.name, &other.name)
        }
    }
}

// ---------------------------------------------------------------------------
// Text specifications
// ---------------------------------------------------------------------------
/// `d - 1`, not below zero.
pub open spec fn sat_dec(d: nat) -> nat {
    if d == 0 {
        0
    } else {
        (d - 1) as nat
    }
}

/// Index of the first `(` outside template brackets, from `i` at bracket depth `depth`.
pub open spec fn params_start(s: Seq<char>, i: int, depth: nat) -> int
    decreases s.len() - i,
{
    if i < 0 || i >= s.len() {
        s.len() as int
    } else if s[i] == '<' {
        params_start(s, i + 1, depth + 1)
    } else if s[i] == '>' {
        params_start(s, i + 1, sat_dec(depth))
    } else if s[i] == '(' && depth == 0 {
        i
    } else {
        params_start(s, i + 1, depth)
    }
}

/// A name without its parameter list.
pub open spec fn strip_parameters(s: Seq<char>) -> Seq<char> {
    s.take(params_start(s, 0, 0))
}

/// Scope components: the text split at `::` outside template brackets,
/// empty components dropped.
pub open spec fn scope_scan(
    s: Seq<char>,
    i: int,
    depth: nat,
    cur: Seq<char>,
    parts: Seq<Seq<char>>,
) -> Seq<Seq<char>>
    decreases s.len() - i,
{
    if i < 0 || i >= s.len() {
        if cur.len() > 0 {
            parts.push(cur)
        } else {
            parts
        }
    } else if s[i] == '<' {
        scope_scan(s, i + 1, depth + 1, cur.push('<'), parts)
    } else if s[i] == '>' {
        scope_scan(s, i + 1, sat_dec(depth), cur.push('>'), parts)
    } else if s[i] == ':' && depth == 0 && i + 1 < s.len() && s[i + 1] == ':' {
        scope_scan(
            s,
            i + 2,
            depth,
            Seq::empty(),
            if cur.len() > 0 {
                parts.push(cur)
            } else {
                parts
            },
        )
    } else {
        scope_scan(s, i + 1, depth, cur.push(s[i]), parts)
    }
}

/// Scope components of a name.
pub open spec fn split_scope(s: Seq<char>) -> Seq<Seq<char>> {
    scope_scan(s, 0, 0, Seq::empty(), Seq::empty())
}

/// Index just after the bracket group that is open at `i` with depth `depth`.
pub open spec fn skip_group(s: Seq<char>, i: int, depth: nat) -> int
    decreases s.len() - i,
{
    if i < 0 || i >= s.len() || depth == 0 {
        i
    } else if s[i] == '<' {
        skip_group(s, i + 1, depth + 1)
    } else if s[i] == '>' {
        skip_group(s, i + 1, sat_dec(depth))
    } else {
        skip_group(s, i + 1, depth)
    }
}

pub proof fn lemma_skip_group(s: Seq<char>, i: int, depth: nat)
    requires
        0 <= i <= s.len(),
    ensures
        i <= skip_group(s, i, depth) <= s.len(),
    decreases s.len() - i,
{
    if i < s.len() && depth > 0 {
        if s[i] == '<' {
            lemma_skip_group(s, i + 1, depth + 1);
        } else if s[i] == '>' {
            lemma_skip_group(s, i + 1, sat_dec(depth));
        } else {
            lemma_skip_group(s, i + 1, depth);
        }
    }
}

/// The text with every top-level bracket group replaced by `rep`.
pub open spec fn templ_scan(s: Seq<char>, i: int, rep: Seq<char>, out: Seq<char>) -> Seq<char>
    decreases s.len() - i,
{
    if i < 0 || i >= s.len() {
        out
    } else if s[i] == '<' {
        let j = skip_group(s, i + 1, 1);
        proof {
            lemma_skip_group(s, i + 1, 1);
        }
        templ_scan(s, j, rep, out + rep)
    } else {
        templ_scan(s, i + 1, rep, out.push(s[i]))
    }
}

/// `<...>`
pub open spec fn ellipsis_args() -> Seq<char> {
    seq!['<', '.', '.', '.', '>']
}

/// Template arguments collapsed to `<...>`.
pub open spec fn normalize_templates(s: Seq<char>) -> Seq<char> {
    templ_scan(s, 0, ellipsis_args(), Seq::empty())
}

/// Template arguments removed (the collapsed form with every `<...>` deleted).
pub open spec fn strip_templates(s: Seq<char>) -> Seq<char> {
    templ_scan(s, 0, Seq::empty(), Seq::empty())
}

/// Index of the `>` that closes the first bracket opened at or after `i`.
pub open spec fn close_of(s: Seq<char>, i: int, depth: nat) -> Option<int>
    decreases s.len() - i,
{
    if i < 0 || i >= s.len() {
        None
    } else if s[i] == '<' {
        close_of(s, i + 1, depth + 1)
    } else if s[i] == '>' {
        if sat_dec(depth) == 0 {
            Some(i)
        } else {
            close_of(s, i + 1, sat_dec(depth))
        }
    } else {
        close_of(s, i + 1, depth)
    }
}

/// First index of `c` in `s`.
pub open spec fn first_char(s: Seq<char>, c: char, i: int) -> Option<int>
    decreases s.len() - i,
{
    if i < 0 || i >= s.len() {
        None
    } else if s[i] == c {
        Some(i)
    } else {
        first_char(s, c, i + 1)
    }
}

/// Last index at which `p` occurs in `s`, at or before `i`.
pub open spec fn last_occurrence(s: Seq<char>, p: Seq<char>, i: int) -> Option<int>
    decreases i + 1,
{
    if i < 0 {
        None
    } else if i + p.len() <= s.len() && s.subrange(i, i + p.len()) == p {
        Some(i)
    } else {
        last_occurrence(s, p, i - 1)
    }
}

/// `::`
pub open spec fn scope_sep() -> Seq<char> {
    seq![':', ':']
}

/// The text before the last `::`, if there is one (`rsplit_once("::")`).
pub open spec fn before_last_sep(s: Seq<char>) -> Option<Seq<char>> {
    match last_occurrence(s, scope_sep(), s.len() - 2) {
        Some(i) => Some(s.take(i)),
        None => None,
    }
}

/// The template family named by the first complete bracket group of a name.
pub open spec fn template_family_from_name(bare: Seq<char>) -> Option<Seq<char>> {
    match first_char(bare, '<', 0) {
        None => None,
        Some(start) => match close_of(bare, start, 0) {
            Some(off) => Some(normalize_templates(bare.take(off + 1))),
            None => None,
        },
    }
}

/// The scope prefix up to and including the first templated component.
pub open spec fn template_scope(scope: Seq<Seq<char>>) -> Option<Seq<char>>
    decreases scope.len(),
{
    if scope.len() == 0 {
        None
    } else if has_char(scope[0], '<') {
        Some(normalize_templates(scope[0]))
    } else {
        match template_scope(scope.drop_first()) {
            Some(rest) => Some(normalize_templates(scope[0]) + scope_sep() + rest),
            None => None,
        }
    }
}

/// The template family from the scope, or from the whole name.
pub open spec fn template_family_from_scope(scope: Seq<Seq<char>>, bare: Seq<char>) -> Option<
    Seq<char>,
> {
    match template_scope(scope) {
        Some(t) => Some(t),
        None => if has_char(bare, '<') {
            Some(normalize_templates(bare))
        } else {
            None
        },
    }
}

/// The normalised components up to and including the first templated one
/// (all of them when none is templated).
pub open spec fn templated_prefix(parts: Seq<Seq<char>>) -> Seq<Seq<char>>
    decreases parts.len(),
{
    if parts.len() == 0 {
        Seq::empty()
    } else if has_char(parts[0], '<') {
        seq![normalize_templates(parts[0])]
    } else {
        seq![normalize_templates(parts[0])] + templated_prefix(parts.drop_first())
    }
}

/// Whether a component names a type: capitalised, or templated.
pub open spec fn looks_like_type_component(c: Seq<char>) -> bool {
    let bare = strip_templates(c);
    (bare.len() > 0 && is_upper(bare[0])) || has_char(c, '<')
}

/// `~` followed by `s`.
pub open spec fn tilde(s: Seq<char>) -> Seq<char> {
    seq!['~'] + s
}

/// Kind of a callable from its last two scope components.
pub open spec fn callable_kind(scope: Seq<Seq<char>>) -> CppSymbolKind {
    if scope.len() == 0 {
        CppSymbolKind::Other
    } else if scope.len() == 1 {
        CppSymbolKind::Function
    } else {
        let last = strip_templates(scope.last());
        let prev = strip_templates(scope[scope.len() - 2]);
        if prev.len() > 0 && last == prev {
            CppSymbolKind::Constructor
        } else if prev.len() > 0 && last == tilde(prev) {
            CppSymbolKind::Destructor
        } else if looks_like_type_component(scope[scope.len() - 2]) {
            CppSymbolKind::Method
        } else {
            CppSymbolKind::Function
        }
    }
}

/// Kind of a callable, looking at the plain `::` split of the name when the
/// scope says only "function".
pub open spec fn callable_kind_from_name(bare: Seq<char>, scope: Seq<Seq<char>>) -> CppSymbolKind {
    let by_scope = callable_kind(scope);
    if by_scope != CppSymbolKind::Function {
        by_scope
    } else {
        let parts = split_all(bare, scope_sep());
        if parts.len() >= 2 {
            let last = strip_templates(parts.last());
            let prev = strip_templates(parts[parts.len() - 2]);
            if prev.len() > 0 && last == prev {
                CppSymbolKind::Constructor
            } else if prev.len() > 0 && last == tilde(prev) {
                CppSymbolKind::Destructor
            } else {
                by_scope
            }
        } else {
            by_scope
        }
    }
}

/// Namespace, class and method family of a callable's scope.
pub open spec fn scope_members(scope: Seq<Seq<char>>) -> (
    Option<Seq<char>>,
    Option<Seq<char>>,
    Option<Seq<char>>,
) {
    if scope.len() == 0 {
        (None, None, None)
    } else {
        let k = callable_kind(scope);
        let family = Some(normalize_templates(join(scope, scope_sep())));
        if k == CppSymbolKind::Constructor || k == CppSymbolKind::Destructor || k
            == CppSymbolKind::Method {
            (
                if scope.len() > 2 {
                    Some(join(scope.take(scope.len() - 2), scope_sep()))
                } else {
                    None
                },
                Some(join(scope.drop_last(), scope_sep())),
                family,
            )
        } else if k == CppSymbolKind::Function {
            (
                if scope.len() > 1 {
                    Some(join(scope.drop_last(), scope_sep()))
                } else {
                    None
                },
                None,
                family,
            )
        } else {
            (None, None, None)
        }
    }
}

/// Whether any component holds `<...>`.
pub open spec fn any_collapsed(parts: Seq<Seq<char>>) -> bool {
    exists|k: int| 0 <= k < parts.len() && contains_seq(#[trigger] parts[k], ellipsis_args())
}

/// The template family read from a demangled name.
pub open spec fn family_from_demangled(d: Seq<char>) -> Option<Seq<char>> {
    match template_family_from_name(d) {
        Some(t) => Some(t),
        None => {
            let p = templated_prefix(split_scope(d));
            if p.len() > 0 && any_collapsed(p) {
                Some(join(p, scope_sep()))
            } else {
                None
            }
        },
    }
}

/// Kind from the special prefixes of the readable name and the mangled name.
pub open spec fn cpp_kind(display: Seq<char>, raw: Seq<char>) -> CppSymbolKind {
    if is_prefix("vtable for "@, display) || is_prefix("_ZTV"@, raw) {
        CppSymbolKind::Vtable
    } else if is_prefix("typeinfo for "@, display) || is_prefix("typeinfo name for "@, display)
        || is_prefix("_ZTI"@, raw) || is_prefix("_ZTS"@, raw) {
        CppSymbolKind::Typeinfo
    } else if is_prefix("guard variable for "@, display) || is_prefix("_ZGV"@, raw) {
        CppSymbolKind::GuardVariable
    } else if is_prefix("virtual thunk to "@, display) || is_prefix("non-virtual thunk to "@, display)
        || is_prefix("thunk to "@, display) {
        CppSymbolKind::Thunk
    } else if contains_seq(raw, "C1"@) || contains_seq(raw, "C2"@) || contains_seq(raw, "C3"@) {
        CppSymbolKind::Constructor
    } else if contains_seq(raw, "D0"@) || contains_seq(raw, "D1"@) || contains_seq(raw, "D2"@) {
        CppSymbolKind::Destructor
    } else {
        CppSymbolKind::Other
    }
}

/// The readable name without a known special prefix such as `vtable for `.
pub open spec fn strip_known_prefix(d: Seq<char>) -> Option<Seq<char>> {
    if is_prefix("vtable for "@, d) {
        Some(d.skip(("vtable for "@).len() as int))
    } else if is_prefix("typeinfo for "@, d) {
        Some(d.skip(("typeinfo for "@).len() as int))
    } else if is_prefix("typeinfo name for "@, d) {
        Some(d.skip(("typeinfo name for "@).len() as int))
    } else if is_prefix("guard variable for "@, d) {
        Some(d.skip(("guard variable for "@).len() as int))
    } else if is_prefix("virtual thunk to "@, d) {
        Some(d.skip(("virtual thunk to "@).len() as int))
    } else if is_prefix("non-virtual thunk to "@, d) {
        Some(d.skip(("non-virtual thunk to "@).len() as int))
    } else if is_prefix("thunk to "@, d) {
        Some(d.skip(("thunk to "@).len() as int))
    } else {
        None
    }
}

/// Vtables, typeinfo and guard variables describe a class, not a callable.
pub open spec fn is_class_data(k: CppSymbolKind) -> bool {
    k == CppSymbolKind::Vtable || k == CppSymbolKind::Typeinfo || k == CppSymbolKind::GuardVariable
}

/// Callables that belong to a class.
pub open spec fn is_class_member(k: CppSymbolKind) -> bool {
    k == CppSymbolKind::Constructor || k == CppSymbolKind::Destructor || k == CppSymbolKind::Method
        || k == CppSymbolKind::Thunk
}

/// Kind, namespace, class and method family read from the scope.
pub open spec fn scope_step(
    kind0: CppSymbolKind,
    scope: Seq<Seq<char>>,
    bare: Seq<char>,
    dbare: Option<Seq<char>>,
) -> (CppSymbolKind, Option<Seq<char>>, Option<Seq<char>>, Option<Seq<char>>) {
    if is_class_data(kind0) {
        if scope.len() > 0 {
            (
                kind0,
                if scope.len() > 1 {
                    Some(join(scope.drop_last(), scope_sep()))
                } else {
                    None
                },
                Some(join(scope, scope_sep())),
                None,
            )
        } else {
            (kind0, None, None, None)
        }
    } else {
        let m = scope_members(scope);
        let k = if kind0 == CppSymbolKind::Other {
            let k1 = callable_kind_from_name(bare, scope);
            match dbare {
                Some(d) => {
                    let dk = callable_kind(split_scope(d));
                    if dk != CppSymbolKind::Function || contains_seq(d, scope_sep()) {
                        dk
                    } else {
                        k1
                    }
                },
                None => k1,
            }
        } else {
            kind0
        };
        (k, m.0, m.1, m.2)
    }
}

/// The class named by a demangled name, for kinds that have one.
pub open spec fn class_from_demangled(k: CppSymbolKind, dbare: Option<Seq<char>>) -> Option<Seq<char>> {
    match dbare {
        None => None,
        Some(d) => if is_class_member(k) {
            before_last_sep(d)
        } else if is_class_data(k) {
            Some(d)
        } else {
            None
        },
    }
}

/// The namespace of a class name: what precedes its last `::`.
pub open spec fn namespace_of(c: Option<Seq<char>>) -> Option<Seq<char>> {
    match c {
        Some(x) => before_last_sep(x),
        None => None,
    }
}

/// The class read from the plain `::` split of the name.
pub open spec fn fallback_class(bare: Seq<char>, k: CppSymbolKind) -> Option<Seq<char>> {
    let parts = split_all(bare, scope_sep());
    if is_class_member(k) {
        if parts.len() >= 2 {
            Some(join(parts.drop_last(), scope_sep()))
        } else {
            None
        }
    } else if is_class_data(k) {
        if parts.len() > 0 {
            Some(join(parts, scope_sep()))
        } else {
            None
        }
    } else {
        None
    }
}

/// The readable name of a symbol: its demangled name, else its forced
/// demangling, else the raw name.
pub open spec fn cpp_display(symbol: SymbolInfo) -> Seq<char> {
    match opt_text(symbol.demangled_name) {
        Some(d) => d,
        None => match demangle_spec(symbol.name@, DemangleMode::On) {
            Some(x) => x,
            None => symbol.name@,
        },
    }
}

/// The classification of a symbol, when it is a C++ symbol: it has a
/// demangled name or a mangled name starting with `_Z`.
pub open spec fn classify_spec(symbol: SymbolInfo) -> Option<CppSummaryText> {
    let demangled = opt_text(symbol.demangled_name);
    let raw = symbol.name@;
    if demangled is None && !is_prefix("_Z"@, raw) {
        None
    } else {
        let display = cpp_display(symbol);
        let kind0 = cpp_kind(display, raw);
        let normalized = match strip_known_prefix(display) {
            Some(x) => x,
            None => raw,
        };
        let bare = strip_parameters(normalized);
        let scope = split_scope(bare);
        let dbare = match demangled {
            Some(d) => Some(strip_parameters(d)),
            None => None,
        };
        let tf0 = match template_family_from_name(bare) {
            Some(t) => Some(t),
            None => template_family_from_scope(scope, bare),
        };
        let st = scope_step(kind0, scope, bare, dbare);
        let kind = st.0;
        let cls2 = if st.2 is None {
            class_from_demangled(kind, dbare)
        } else {
            st.2
        };
        let ns2 = if st.2 is None && st.1 is None {
            namespace_of(cls2)
        } else {
            st.1
        };
        let cls3 = if cls2 is None {
            fallback_class(bare, kind)
        } else {
            cls2
        };
        let ns3 = if cls2 is None && ns2 is None {
            namespace_of(cls3)
        } else {
            ns2
        };
        let tf1 = if tf0 is None {
            match dbare {
                Some(d) => family_from_demangled(d),
                None => None,
            }
        } else {
            tf0
        };
        let tf2 = if tf1 is None && has_char(bare, '<') {
            Some(join(templated_prefix(split_scope(bare)), scope_sep()))
        } else {
            tf1
        };
        Some(
            CppSummaryText {
                raw_name: raw,
                display_name: display,
                kind,
                namespace: ns3,
                class_name: cls3,
                method_family: st.3,
                template_family: tf2,
                lambda_related: contains_seq(display, "lambda"@) || contains_seq(raw, "Ul"@)
                    || contains_seq(raw, "MUl"@),
                anonymous_namespace: contains_seq(display, "(anonymous namespace)"@),
                template_instantiation: has_char(normalized, '<'),
                size: symbol.size,
            },
        )
    }
}

// ---------------------------------------------------------------------------
// Executable text helpers
// ---------------------------------------------------------------------------
/// Index of the first `(` outside template brackets (see `params_start`).
fn params_start_at(s: &Vec<char>) -> (r: usize)
    ensures
        r == params_start(s@, 0, 0),
        r <= s.len(),
{
    let mut i: usize = 0;
    let mut depth: usize = 0;
    while i < s.len()
        invariant
            i <= s.len(),
            depth <= i,
            params_start(s@, 0, 0) == params_start(s@, i as int, depth as nat),
        decreases s.len() - i,
    {
        let c = s[i];
        if c == '<' {
            depth += 1;
        } else if c == '>' {
            if depth > 0 {
                depth -= 1;
            }
        } else if c == '(' && depth == 0 {
            return i;
        }
        i += 1;
    }
    i
}

/// A name without its parameter list.
pub fn strip_parameters_chars(s: &Vec<char>) -> (out: Vec<char>)
    ensures
        out@ == strip_parameters(s@),
{
    let e = params_start_at(s);
    slice_chars(s, 0, e)
}

/// Scope components of a name (see `split_scope`).
pub fn split_scope_chars(s: &Vec<char>) -> (out: Vec<Vec<char>>)
    ensures
        views(out@) == split_scope(s@),
{
    let mut parts: Vec<Vec<char>> = Vec::new();
    let mut cur: Vec<char> = Vec::new();
    let mut depth: usize = 0;
    let mut i: usize = 0;
    assert(views(parts@) =~= Seq::<Seq<char>>::empty());
    while i < s.len()
        invariant
            i <= s.len(),
            depth <= i,
            split_scope(s@) == scope_scan(s@, i as int, depth as nat, cur@, views(parts@)),
        decreases s.len() - i,
    {
        let c = s[i];
        if c == '<' {
            depth += 1;
            cur.push('<');
            i += 1;
        } else if c == '>' {
            if depth > 0 {
                depth -= 1;
            }
            cur.push('>');
            i += 1;
        } else if c == ':' && depth == 0 && i + 1 < s.len() && s[i + 1] == ':' {
            if cur.len() > 0 {
                let ghost before = parts@;
                let ghost cv = cur@;
                parts.push(cur);
                assert(views(parts@) =~= views(before).push(cv));
                cur = Vec::new();
            } else {
                cur = Vec::new();
            }
            assert(cur@ =~= Seq::<char>::empty());
            i += 2;
        } else {
            cur.push(c);
            i += 1;
        }
    }
    if cur.len() > 0 {
        let ghost before = parts@;
        let ghost cv = cur@;
        parts.push(cur);
        assert(views(parts@) =~= views(before).push(cv));
    }
    parts
}

/// The text with every top-level bracket group replaced by `rep` (see `templ_scan`).
fn templ_chars(s: &Vec<char>, rep: &Vec<char>) -> (out: Vec<char>)
    ensures
        out@ == templ_scan(s@, 0, rep@, Seq::empty()),
{
    let mut out: Vec<char> = Vec::new();
    let mut i: usize = 0;
    while i < s.len()
        invariant
            i <= s.len(),
            templ_scan(s@, 0, rep@, Seq::empty()) == templ_scan(s@, i as int, rep@, out@),
        decreases s.len() - i,
    {
        if s[i] == '<' {
            push_all(&mut out, rep);
            let mut j: usize = i + 1;
            let mut depth: usize = 1;
            while j < s.len() && depth > 0
                invariant
                    i + 1 <= j <= s.len(),
                    depth <= j,
                    skip_group(s@, i + 1, 1) == skip_group(s@, j as int, depth as nat),
                decreases s.len() - j,
            {
                if s[j] == '<' {
                    depth += 1;
                } else if s[j] == '>' {
                    depth -= 1;
                }
                j += 1;
            }
            i = j;
        } else {
            out.push(s[i]);
            i += 1;
        }
    }
    out
}

/// Template arguments collapsed to `<...>`.
pub fn normalize_templates_chars(s: &Vec<char>) -> (out: Vec<char>)
    ensures
        out@ == normalize_templates(s@),
{
    let rep: Vec<char> = vec!['<', '.', '.', '.', '>'];
    assert(rep@ =~= ellipsis_args());
    templ_chars(s, &rep)
}

/// Template arguments removed.
pub fn strip_templates_chars(s: &Vec<char>) -> (out: Vec<char>)
    ensures
        out@ == strip_templates(s@),
{
    let rep: Vec<char> = Vec::new();
    templ_chars(s, &rep)
}

/// First index of `c` (see `first_char`).
fn first_char_at(s: &Vec<char>, c: char) -> (r: Option<usize>)
    ensures
        match r {
            Some(i) => first_char(s@, c, 0) == Some(i as int) && i < s.len(),
            None => first_char(s@, c, 0) is None,
        },
{
    let mut i: usize = 0;
    while i < s.len()
        invariant
            i <= s.len(),
            first_char(s@, c, 0) == first_char(s@, c, i as int),
        decreases s.len() - i,
    {
        if s[i] == c {
            return Some(i);
        }
        i += 1;
    }
    None
}

/// Index of the closing bracket of the group opened at or after `from` (see `close_of`).
fn close_at(s: &Vec<char>, from: usize) -> (r: Option<usize>)
    requires
        from <= s.len(),
    ensures
        match r {
            Some(i) => close_of(s@, from as int, 0) == Some(i as int) && i < s.len(),
            None => close_of(s@, from as int, 0) is None,
        },
{
    let mut i: usize = from;
    let mut depth: usize = 0;
    while i < s.len()
        invariant
            from <= i <= s.len(),
            depth <= i,
            close_of(s@, from as int, 0) == close_of(s@, i as int, depth as nat),
        decreases s.len() - i,
    {
        if s[i] == '<' {
            depth += 1;
        } else if s[i] == '>' {
            if depth <= 1 {
                return Some(i);
            }
            depth -= 1;
        }
        i += 1;
    }
    None
}

/// The text before the last `::` (see `before_last_sep`).
fn before_last_sep_chars(s: &Vec<char>) -> (r: Option<Vec<char>>)
    ensures
        opt_view(r) == before_last_sep(s@),
{
    if s.len() < 2 {
        assert(last_occurrence(s@, scope_sep(), s@.len() - 2) is None);
        return None;
    }
    let mut i: usize = s.len() - 2;
    loop
        invariant
            i + 2 <= s.len(),
            last_occurrence(s@, scope_sep(), s@.len() - 2) == last_occurrence(s@, scope_sep(), i as int),
        decreases i,
    {
        assert(s@.subrange(i as int, i + 2) =~= seq![s@[i as int], s@[i + 1]]);
        if s[i] == ':' && s[i + 1] == ':' {
            assert(s@.subrange(i as int, i + 2) =~= scope_sep());
            return Some(slice_chars(s, 0, i));
        }
        assert(s@.subrange(i as int, i + 2) != scope_sep()) by {
            if s@.subrange(i as int, i + 2) == scope_sep() {
                assert(s@.subrange(i as int, i + 2)[0] == ':');
                assert(s@.subrange(i as int, i + 2)[1] == ':');
            }
        }
        if i == 0 {
            assert(last_occurrence(s@, scope_sep(), -1) is None);
            return None;
        }
        i -= 1;
    }
}

/// The template family named by the first complete bracket group.
fn find_template_family_from_name(bare: &Vec<char>) -> (r: Option<Vec<char>>)
    ensures
        opt_view(r) == template_family_from_name(bare@),
{
    match first_char_at(bare, '<') {
        None => None,
        Some(start) => match close_at(bare, start) {
            Some(off) => {
                let head = slice_chars(bare, 0, off + 1);
                assert(head@ =~= bare@.take(off + 1));
                Some(normalize_templates_chars(&head))
            },
            None => None,
        },
    }
}

/// `a + "::" + b`.
fn scoped(a: Vec<char>, b: &Vec<char>) -> (out: Vec<char>)
    ensures
        out@ == a@ + scope_sep() + b@,
{
    let mut out = a;
    out.push(':');
    out.push(':');
    push_all(&mut out, b);
    assert(out@ =~= a@ + scope_sep() + b@);
    out
}

/// The scope prefix up to the first templated component, from `start` on.
fn template_scope_from(scope: &Vec<Vec<char>>, start: usize) -> (r: Option<Vec<char>>)
    requires
        start <= scope.len(),
    ensures
        opt_view(r) == template_scope(views(scope@).skip(start as int)),
    decreases scope.len() - start,
{
    if start >= scope.len() {
        return None;
    }
    let ghost v = views(scope@).skip(start as int);
    assert(v[0] == scope@[start as int]@);
    assert(v.drop_first() =~= views(scope@).skip(start + 1));
    let norm = normalize_templates_chars(&scope[start]);
    if chars_has(&scope[start], '<') {
        return Some(norm);
    }
    match template_scope_from(scope, start + 1) {
        Some(rest) => Some(scoped(norm, &rest)),
        None => None,
    }
}

/// The template family from the scope, or from the whole name.
fn find_template_family(scope: &Vec<Vec<char>>, bare: &Vec<char>) -> (r: Option<Vec<char>>)
    ensures
        opt_view(r) == template_family_from_scope(views(scope@), bare@),
{
    assert(views(scope@).skip(0) =~= views(scope@));
    match template_scope_from(scope, 0) {
        Some(t) => Some(t),
        None => if chars_has(bare, '<') {
            Some(normalize_templates_chars(bare))
        } else {
            None
        },
    }
}

/// The normalised components up to the first templated one, from `start` on.
fn templated_prefix_from(parts: &Vec<Vec<char>>, start: usize) -> (out: Vec<Vec<char>>)
    requires
        start <= parts.len(),
    ensures
        views(out@) == templated_prefix(views(parts@).skip(start as int)),
    decreases parts.len() - start,
{
    if start >= parts.len() {
        let out: Vec<Vec<char>> = Vec::new();
        assert(views(out@) =~= Seq::<Seq<char>>::empty());
        return out;
    }
    let ghost v = views(parts@).skip(start as int);
    assert(v[0] == parts@[start as int]@);
    assert(v.drop_first() =~= views(parts@).skip(start + 1));
    let norm = normalize_templates_chars(&parts[start]);
    let mut out: Vec<Vec<char>> = vec![norm];
    if chars_has(&parts[start], '<') {
        assert(views(out@) =~= seq![out@[0]@]);
        return out;
    }
    let ghost head = views(out@);
    assert(head =~= seq![out@[0]@]);
    let mut rest = templated_prefix_from(parts, start + 1);
    let ghost tail = rest@;
    out.append(&mut rest);
    assert(views(out@) =~= head + views(tail));
    out
}

/// Whether any component holds `<...>`.
fn any_collapsed_chars(parts: &Vec<Vec<char>>) -> (r: bool)
    ensures
        r == any_collapsed(views(parts@)),
{
    let ell: Vec<char> = vec!['<', '.', '.', '.', '>'];
    assert(ell@ =~= ellipsis_args());
    let mut i: usize = 0;
    while i < parts.len()
        invariant
            i <= parts.len(),
            ell@ == ellipsis_args(),
            forall|k: int| 0 <= k < i ==> !contains_seq(#[trigger] views(parts@)[k], ellipsis_args()),
        decreases parts.len() - i,
    {
        if chars_contains(&parts[i], &ell) {
            assert(contains_seq(views(parts@)[i as int], ellipsis_args()));
            return true;
        }
        i += 1;
    }
    false
}

/// Whether a component names a type.
fn looks_like_type_component_chars(c: &Vec<char>) -> (r: bool)
    ensures
        r == looks_like_type_component(c@),
{
    let bare = strip_templates_chars(c);
    (bare.len() > 0 && char_is_upper(bare[0])) || chars_has(c, '<')
}

/// `~` followed by `s`.
fn tilde_chars(s: &Vec<char>) -> (out: Vec<char>)
    ensures
        out@ == tilde(s@),
{
    let mut out: Vec<char> = vec!['~'];
    push_all(&mut out, s);
    assert(out@ =~= tilde(s@));
    out
}

/// Kind of a callable from its scope (see `callable_kind`).
fn classify_callable_kind(scope: &Vec<Vec<char>>) -> (k: CppSymbolKind)
    ensures
        k == callable_kind(views(scope@)),
{
    let n = scope.len();
    if n == 0 {
        return CppSymbolKind::Other;
    }
    if n == 1 {
        return CppSymbolKind::Function;
    }
    assert(views(scope@).last() == scope@[n - 1]@);
    let last = strip_templates_chars(&scope[n - 1]);
    let prev = strip_templates_chars(&scope[n - 2]);
    if prev.len() > 0 && chars_eq(&last, &prev) {
        return CppSymbolKind::Constructor;
    }
    if prev.len() > 0 && chars_eq(&last, &tilde_chars(&prev)) {
        return CppSymbolKind::Destructor;
    }
    if looks_like_type_component_chars(&scope[n - 2]) {
        return CppSymbolKind::Method;
    }
    CppSymbolKind::Function
}

/// Kind of a callable, also reading the plain `::` split of the name.
fn classify_callable_kind_from_name(bare: &Vec<char>, scope: &Vec<Vec<char>>) -> (k: CppSymbolKind)
    ensures
        k == callable_kind_from_name(bare@, views(scope@)),
{
    let by_scope = classify_callable_kind(scope);
    if by_scope != CppSymbolKind::Function {
        return by_scope;
    }
    let sep: Vec<char> = vec![':', ':'];
    assert(sep@ =~= scope_sep());
    let parts = chars_split_all(bare, &sep);
    let n = parts.len();
    if n >= 2 {
        assert(views(parts@).last() == parts@[n - 1]@);
        let last = strip_templates_chars(&parts[n - 1]);
        let prev = strip_templates_chars(&parts[n - 2]);
        if prev.len() > 0 && chars_eq(&last, &prev) {
            return CppSymbolKind::Constructor;
        }
        if prev.len() > 0 && chars_eq(&last, &tilde_chars(&prev)) {
            return CppSymbolKind::Destructor;
        }
    }
    by_scope
}

/// The first `k` components.
fn first_components(v: &Vec<Vec<char>>, k: usize) -> (out: Vec<Vec<char>>)
    requires
        k <= v.len(),
    ensures
        views(out@) == views(v@).take(k as int),
{
    let mut out: Vec<Vec<char>> = Vec::new();
    let mut i: usize = 0;
    while i < k
        invariant
            i <= k <= v.len(),
            views(out@) == views(v@).take(i as int),
        decreases k - i,
    {
        let ghost before = out@;
        out.push(copy_chars(&v[i]));
        assert(views(out@) =~= views(before).push(v@[i as int]@));
        assert(views(v@).take(i + 1) =~= views(v@).take(i as int).push(v@[i as int]@));
        i += 1;
    }
    out
}

/// Namespace, class and method family of a callable's scope (see `scope_members`).
fn classify_scope_members(scope: &Vec<Vec<char>>) -> (r: (Option<Vec<char>>, Option<Vec<char>>, Option<Vec<char>>))
    ensures
        (opt_view(r.0), opt_view(r.1), opt_view(r.2)) == scope_members(views(scope@)),
{
    let n = scope.len();
    if n == 0 {
        return (None, None, None);
    }
    let sep: Vec<char> = vec![':', ':'];
    assert(sep@ =~= scope_sep());
    let k = classify_callable_kind(scope);
    let whole = join_chars(scope, &sep);
    let family = normalize_templates_chars(&whole);
    if k == CppSymbolKind::Constructor || k == CppSymbolKind::Destructor || k == CppSymbolKind::Method {
        let ns = if n > 2 {
            let head = first_components(scope, n - 2);
            Some(join_chars(&head, &sep))
        } else {
            None
        };
        let owner = first_components(scope, n - 1);
        assert(views(scope@).take(n - 1) =~= views(scope@).drop_last());
        (ns, Some(join_chars(&owner, &sep)), Some(family))
    } else if k == CppSymbolKind::Function {
        let ns = if n > 1 {
            let owner = first_components(scope, n - 1);
            assert(views(scope@).take(n - 1) =~= views(scope@).drop_last());
            Some(join_chars(&owner, &sep))
        } else {
            None
        };
        (ns, None, Some(family))
    } else {
        (None, None, None)
    }
}

/// The text after prefix `p`, when `d` starts with it.
fn after_prefix(d: &Vec<char>, p: &str) -> (r: Option<Vec<char>>)
    ensures
        match r {
            Some(x) => is_prefix(p@, d@) && x@ == d@.skip(p@.len() as int),
            None => !is_prefix(p@, d@),
        },
{
    let pc = chars_of(p);
    if chars_starts_with(d, &pc) {
        let x = slice_chars(d, pc.len(), d.len());
        assert(x@ =~= d@.skip(p@.len() as int));
        Some(x)
    } else {
        None
    }
}

/// Whether `d` starts with `p`.
fn starts(d: &Vec<char>, p: &str) -> (r: bool)
    ensures
        r == is_prefix(p@, d@),
{
    let pc = chars_of(p);
    chars_starts_with(d, &pc)
}

/// Whether `d` contains `p`.
fn holds(d: &Vec<char>, p: &str) -> (r: bool)
    ensures
        r == contains_seq(d@, p@),
{
    let pc = chars_of(p);
    chars_contains(d, &pc)
}

/// Kind from the special prefixes (see `cpp_kind`).
fn classify_kind(display: &Vec<char>, raw: &Vec<char>) -> (k: CppSymbolKind)
    ensures
        k == cpp_kind(display@, raw@),
{
    if starts(display, "vtable for ") || starts(raw, "_ZTV") {
        CppSymbolKind::Vtable
    } else if starts(display, "typeinfo for ") || starts(display, "typeinfo name for ") || starts(
        raw,
        "_ZTI",
    ) || starts(raw, "_ZTS") {
        CppSymbolKind::Typeinfo
    } else if starts(display, "guard variable for ") || starts(raw, "_ZGV") {
        CppSymbolKind::GuardVariable
    } else if starts(display, "virtual thunk to ") || starts(display, "non-virtual thunk to ")
        || starts(display, "thunk to ") {
        CppSymbolKind::Thunk
    } else if holds(raw, "C1") || holds(raw, "C2") || holds(raw, "C3") {
        CppSymbolKind::Constructor
    } else if holds(raw, "D0") || holds(raw, "D1") || holds(raw, "D2") {
        CppSymbolKind::Destructor
    } else {
        CppSymbolKind::Other
    }
}

/// The readable name without a known special prefix (see `strip_known_prefix`).
fn strip_known_cpp_prefix(d: &Vec<char>) -> (r: Option<Vec<char>>)
    ensures
        opt_view(r) == strip_known_prefix(d@),
{
    if let Some(x) = after_prefix(d, "vtable for ") {
        return Some(x);
    }
    if let Some(x) = after_prefix(d, "typeinfo for ") {
        return Some(x);
    }
    if let Some(x) = after_prefix(d, "typeinfo name for ") {
        return Some(x);
    }
    if let Some(x) = after_prefix(d, "guard variable for ") {
        return Some(x);
    }
    if let Some(x) = after_prefix(d, "virtual thunk to ") {
        return Some(x);
    }
    if let Some(x) = after_prefix(d, "non-virtual thunk to ") {
        return Some(x);
    }
    if let Some(x) = after_prefix(d, "thunk to ") {
        return Some(x);
    }
    None
}

/// The template family read from a demangled name (see `family_from_demangled`).
fn family_from_demangled_of(d: &Vec<char>) -> (r: Option<Vec<char>>)
    ensures
        opt_view(r) == family_from_demangled(d@),
{
    match find_template_family_from_name(d) {
        Some(t) => Some(t),
        None => {
            let scope = split_scope_chars(d);
            let p = templated_prefix_from(&scope, 0);
            assert(views(scope@).skip(0) =~= views(scope@));
            if p.len() > 0 && any_collapsed_chars(&p) {
                let sep: Vec<char> = vec![':', ':'];
                assert(sep@ =~= scope_sep());
                Some(join_chars(&p, &sep))
            } else {
                None
            }
        },
    }
}

/// The class read from the plain `::` split (see `fallback_class`).
fn fallback_class_name(bare: &Vec<char>, k: CppSymbolKind) -> (r: Option<Vec<char>>)
    ensures
        opt_view(r) == fallback_class(bare@, k),
{
    let sep: Vec<char> = vec![':', ':'];
    assert(sep@ =~= scope_sep());
    let parts = chars_split_all(bare, &sep);
    let n = parts.len();
    if k == CppSymbolKind::Constructor || k == CppSymbolKind::Destructor || k == CppSymbolKind::Method
        || k == CppSymbolKind::Thunk {
        if n >= 2 {
            let head = first_components(&parts, n - 1);
            assert(views(parts@).take(n - 1) =~= views(parts@).drop_last());
            Some(join_chars(&head, &sep))
        } else {
            None
        }
    } else if k == CppSymbolKind::Vtable || k == CppSymbolKind::Typeinfo || k
        == CppSymbolKind::GuardVariable {
        if n > 0 {
            Some(join_chars(&parts, &sep))
        } else {
            None
        }
    } else {
        None
    }
}

/// The class named by a demangled name (see `class_from_demangled`).
fn class_from_demangled_of(k: CppSymbolKind, dbare: &Option<Vec<char>>) -> (r: Option<Vec<char>>)
    ensures
        opt_view(r) == class_from_demangled(k, opt_view(*dbare)),
{
    match dbare {
        None => None,
        Some(d) => if k == CppSymbolKind::Constructor || k == CppSymbolKind::Destructor || k
            == CppSymbolKind::Method || k == CppSymbolKind::Thunk {
            before_last_sep_chars(d)
        } else if k == CppSymbolKind::Vtable || k == CppSymbolKind::Typeinfo || k
            == CppSymbolKind::GuardVariable {
            Some(copy_chars(d))
        } else {
            None
        },
    }
}

/// The namespace of a class name (see `namespace_of`).
fn namespace_of_class(c: &Option<Vec<char>>) -> (r: Option<Vec<char>>)
    ensures
        opt_view(r) == namespace_of(opt_view(*c)),
{
    match c {
        Some(x) => before_last_sep_chars(x),
        None => None,
    }
}

/// Kind, namespace, class and method family from the scope (see `scope_step`).
fn scope_step_of(
    kind0: CppSymbolKind,
    scope: &Vec<Vec<char>>,
    bare: &Vec<char>,
    dbare: &Option<Vec<char>>,
) -> (r: (CppSymbolKind, Option<Vec<char>>, Option<Vec<char>>, Option<Vec<char>>))
    ensures
        (r.0, opt_view(r.1), opt_view(r.2), opt_view(r.3)) == scope_step(
            kind0,
            views(scope@),
            bare@,
            opt_view(*dbare),
        ),
{
    let sep: Vec<char> = vec![':', ':'];
    assert(sep@ =~= scope_sep());
    if kind0 == CppSymbolKind::Vtable || kind0 == CppSymbolKind::Typeinfo || kind0
        == CppSymbolKind::GuardVariable {
        let n = scope.len();
        if n > 0 {
            let ns = if n > 1 {
                let owner = first_components(scope, n - 1);
                assert(views(scope@).take(n - 1) =~= views(scope@).drop_last());
                Some(join_chars(&owner, &sep))
            } else {
                None
            };
            (kind0, ns, Some(join_chars(scope, &sep)), None)
        } else {
            (kind0, None, None, None)
        }
    } else {
        let m = classify_scope_members(scope);
        let k = if kind0 == CppSymbolKind::Other {
            let k1 = classify_callable_kind_from_name(bare, scope);
            match dbare {
                Some(d) => {
                    let ds = split_scope_chars(d);
                    let dk = classify_callable_kind(&ds);
                    if dk != CppSymbolKind::Function || chars_contains(d, &sep) {
                        dk
                    } else {
                        k1
                    }
                },
                None => k1,
            }
        } else {
            kind0
        };
        (k, m.0, m.1, m.2)
    }
}

/// Optional buffer as an optional `String`.
fn opt_string(o: Option<Vec<char>>) -> (r: Option<String>)
    ensures
        opt_text(r) == opt_view(o),
{
    match o {
        Some(v) => Some(string_of(&v)),
        None => None,
    }
}

/// Classifies a symbol as a C++ entity, when it is one: a symbol with a
/// demangled name, or a mangled name starting with `_Z`.
pub fn classify_symbol(symbol: &SymbolInfo) -> (r: Option<CppSymbolSummary>)
    ensures
        match r {
            Some(c) => classify_spec(*symbol) == Some(c@),
            None => classify_spec(*symbol) is None,
        },
{
    let demangled: Option<Vec<char>> = match &symbol.demangled_name {
        Some(d) => Some(chars_of(d.as_str())),
        None => None,
    };
    let raw = chars_of(symbol.name.as_str());
    if demangled.is_none() && !starts(&raw, "_Z") {
        return None;
    }
    let display: Vec<char> = match &demangled {
        Some(d) => copy_chars(d),
        None => match demangle_symbol(symbol.name.as_str(), DemangleMode::On) {
            Some(x) => chars_of(x.as_str()),
            None => copy_chars(&raw),
        },
    };
    let kind0 = classify_kind(&display, &raw);
    let normalized = match strip_known_cpp_prefix(&display) {
        Some(x) => x,
        None => copy_chars(&raw),
    };
    let bare = strip_parameters_chars(&normalized);
    let scope = split_scope_chars(&bare);
    let dbare: Option<Vec<char>> = match &demangled {
        Some(d) => Some(strip_parameters_chars(d)),
        None => None,
    };
    let tf0 = match find_template_family_from_name(&bare) {
        Some(t) => Some(t),
        None => find_template_family(&scope, &bare),
    };
    let st = scope_step_of(kind0, &scope, &bare, &dbare);
    let kind = st.0;
    let cls1_none = st.2.is_none();
    let ns1_none = st.1.is_none();
    let cls2 = if cls1_none {
        class_from_demangled_of(kind, &dbare)
    } else {
        st.2
    };
    let ns2 = if cls1_none && ns1_none {
        namespace_of_class(&cls2)
    } else {
        st.1
    };
    let cls2_none = cls2.is_none();
    let ns2_none = ns2.is_none();
    let cls3 = if cls2_none {
        fallback_class_name(&bare, kind)
    } else {
        cls2
    };
    let ns3 = if cls2_none && ns2_none {
        namespace_of_class(&cls3)
    } else {
        ns2
    };
    let tf1 = if tf0.is_none() {
        match &dbare {
            Some(d) => family_from_demangled_of(d),
            None => None,
        }
    } else {
        tf0
    };
    let tf2 = if tf1.is_none() && chars_has(&bare, '<') {
        let parts = split_scope_chars(&bare);
        let p = templated_prefix_from(&parts, 0);
        assert(views(parts@).skip(0) =~= views(parts@));
        let sep: Vec<char> = vec![':', ':'];
        assert(sep@ =~= scope_sep());
        Some(join_chars(&p, &sep))
    } else {
        tf1
    };
    let lambda_related = holds(&display, "lambda") || holds(&raw, "Ul") || holds(&raw, "MUl");
    let anonymous_namespace = holds(&display, "(anonymous namespace)");
    let template_instantiation = chars_has(&normalized, '<');
    Some(
        CppSymbolSummary {
            raw_name: string_of(&raw),
            display_name: string_of(&display),
            kind,
            namespace: opt_string(ns3),
            class_name: opt_string(cls3),
            method_family: opt_string(st.3),
            template_family: opt_string(tf2),
            lambda_related,
            anonymous_namespace,
            template_instantiation,
            size: symbol.size,
        },
    )
}

// ---------------------------------------------------------------------------
// Groups
// ---------------------------------------------------------------------------
/// The facets by which classified symbols are grouped.
#[derive(Debug, Clone, Copy, PartialEq, Eq, Structural)]
pub enum CppFacet {
    Namespace,
    Class,
    MethodFamily,
    TemplateFamily,
    RuntimeOverhead,
    LambdaGroup,
    Symbol,
}

/// The runtime-overhead bucket of a kind.
pub open spec fn runtime_bucket(k: CppSymbolKind) -> Option<Seq<char>> {
    match k {
        CppSymbolKind::Vtable => Some("vtable"@),
        CppSymbolKind::Typeinfo => Some("typeinfo"@),
        CppSymbolKind::GuardVariable => Some("guard_variable"@),
        CppSymbolKind::Thunk => Some("thunk"@),
        _ => None,
    }
}

/// The group of a lambda-related symbol: its class, else its namespace, else
/// the global lambda scope.
pub open spec fn lambda_group(s: CppSummaryText) -> Option<Seq<char>> {
    if s.lambda_related {
        Some(
            match s.class_name {
                Some(c) => c,
                None => match s.namespace {
                    Some(n) => n,
                    None => "(global lambda scope)"@,
                },
            },
        )
    } else {
        None
    }
}

/// The group of a classified symbol under a facet.
pub open spec fn facet_key(s: CppSummaryText, f: CppFacet) -> Option<Seq<char>> {
    match f {
        CppFacet::Namespace => s.namespace,
        CppFacet::Class => s.class_name,
        CppFacet::MethodFamily => s.method_family,
        CppFacet::TemplateFamily => s.template_family,
        CppFacet::RuntimeOverhead => runtime_bucket(s.kind),
        CppFacet::LambdaGroup => lambda_group(s),
        CppFacet::Symbol => Some(s.display_name),
    }
}

/// The facet a report grouping reads.
pub open spec fn facet_of(g: CppGroupBy) -> CppFacet {
    match g {
        CppGroupBy::Symbol => CppFacet::Symbol,
        CppGroupBy::CppTemplateFamily => CppFacet::TemplateFamily,
        CppGroupBy::CppClass => CppFacet::Class,
        CppGroupBy::CppRuntimeOverhead => CppFacet::RuntimeOverhead,
        CppGroupBy::CppLambdaGroup => CppFacet::LambdaGroup,
    }
}

/// Group and size of each classified symbol under a facet.
pub open spec fn facet_items(symbols: Seq<CppSymbolSummary>, f: CppFacet) -> Seq<(Option<Seq<char>>, u64)> {
    symbols.map_values(|s: CppSymbolSummary| (facet_key(s@, f), s.size))
}

/// Sum of the sizes of classified symbols.
pub open spec fn summary_size_sum(symbols: Seq<CppSymbolSummary>) -> int
    decreases symbols.len(),
{
    if symbols.len() == 0 {
        0
    } else {
        summary_size_sum(symbols.drop_last()) + symbols.last().size
    }
}

/// The ranking rows are exactly the groups.
pub open spec fn aggregates_match(rows: Seq<CppAggregate>, g: Seq<Group>) -> bool {
    &&& rows.len() == g.len()
    &&& forall|i: int|
        0 <= i < g.len() ==> (#[trigger] rows[i]).name@ == g[i].0 && rows[i].size == g[i].1
            && rows[i].symbol_count == g[i].2
}

/// At most the first twenty rows.
pub open spec fn top20<T>(s: Seq<T>) -> Seq<T> {
    if s.len() <= 20 {
        s
    } else {
        s.take(20)
    }
}

/// `out` ranks the groups of `symbols` under `f`: the twenty largest, largest first.
pub open spec fn is_ranking(out: Seq<CppAggregate>, symbols: Seq<CppSymbolSummary>, f: CppFacet) -> bool {
    exists|rows: Seq<CppAggregate>|
        aggregates_match(rows, group_totals(facet_items(symbols, f))) && out == top20(
            sorted_by_key(rows),
        )
}

proof fn lemma_facet_sizes(symbols: Seq<CppSymbolSummary>, f: CppFacet)
    ensures
        size_sum(facet_items(symbols, f)) == summary_size_sum(symbols),
    decreases symbols.len(),
{
    if symbols.len() > 0 {
        lemma_facet_sizes(symbols.drop_last(), f);
        assert(facet_items(symbols, f).drop_last() =~= facet_items(symbols.drop_last(), f));
    }
}

/// The group of a classified symbol under a facet.
fn facet_key_of(s: &CppSymbolSummary, f: CppFacet) -> (r: Option<String>)
    ensures
        opt_text(r) == facet_key(s@, f),
{
    match f {
        CppFacet::Namespace => copy_opt_string(&s.namespace),
        CppFacet::Class => copy_opt_string(&s.class_name),
        CppFacet::MethodFamily => copy_opt_string(&s.method_family),
        CppFacet::TemplateFamily => copy_opt_string(&s.template_family),
        CppFacet::RuntimeOverhead => match s.kind {
            CppSymbolKind::Vtable => Some(crate::text::string_from("vtable")),
            CppSymbolKind::Typeinfo => Some(crate::text::string_from("typeinfo")),
            CppSymbolKind::GuardVariable => Some(crate::text::string_from("guard_variable")),
            CppSymbolKind::Thunk => Some(crate::text::string_from("thunk")),
            _ => None,
        },
        CppFacet::LambdaGroup => if s.lambda_related {
            match &s.class_name {
                Some(c) => Some(copy_string(c)),
                None => match &s.namespace {
                    Some(n) => Some(copy_string(n)),
                    None => Some(crate::text::string_from("(global lambda scope)")),
                },
            }
        } else {
            None
        },
        CppFacet::Symbol => Some(copy_string(&s.display_name)),
    }
}

/// Group and size of each classified symbol under a facet.
fn facet_items_of(symbols: &Vec<CppSymbolSummary>, f: CppFacet) -> (out: Vec<(Option<String>, u64)>)
    ensures
        keyed_view(out@) == facet_items(symbols@, f),
{
    let mut out: Vec<(Option<String>, u64)> = Vec::new();
    let mut i: usize = 0;
    while i < symbols.len()
        invariant
            i <= symbols.len(),
            out@.len() == i,
            forall|j: int|
                0 <= j < i ==> opt_text((#[trigger] out@[j]).0) == facet_key(symbols@[j]@, f)
                    && out@[j].1 == symbols@[j].size,
        decreases symbols.len() - i,
    {
        let k = facet_key_of(&symbols[i], f);
        out.push((k, symbols[i].size));
        i += 1;
    }
    assert(keyed_view(out@) =~= facet_items(symbols@, f)) by {
        assert forall|j: int| 0 <= j < out@.len() implies keyed_view(out@)[j] == facet_items(
            symbols@,
            f,
        )[j] by {
            assert(opt_text(out@[j].0) == facet_key(symbols@[j]@, f));
        }
    }
    out
}

/// The twenty largest groups under a facet, largest first.
pub fn aggregate_facet(symbols: &Vec<CppSymbolSummary>, f: CppFacet) -> (out: Vec<CppAggregate>)
    requires
        summary_size_sum(symbols@) <= u64::MAX,
    ensures
        is_ranking(out@, symbols@, f),
{
    proof {
        lemma_facet_sizes(symbols@, f);
    }
    let items = facet_items_of(symbols, f);
    let groups = accumulate_groups(&items);
    let mut rows: Vec<CppAggregate> = Vec::new();
    let mut i: usize = 0;
    while i < groups.len()
        invariant
            i <= groups.len(),
            rows@.len() == i,
            forall|k: int|
                0 <= k < i ==> (#[trigger] rows@[k]).name == groups@[k].name && rows@[k].size
                    == groups@[k].size && rows@[k].symbol_count == groups@[k].count,
        decreases groups.len() - i,
    {
        rows.push(
            CppAggregate {
                name: copy_string(&groups[i].name),
                size: groups[i].size,
                symbol_count: groups[i].count,
            },
        );
        i += 1;
    }
    let ghost unsorted = rows@;
    assert(aggregates_match(unsorted, group_totals(facet_items(symbols@, f))));
    let mut sorted = sort_by_key(rows);
    keep_first(&mut sorted, 20);
    assert(sorted@ == top20(sorted_by_key(unsorted)));
    sorted
}

/// Copies a classified symbol.
fn copy_summary(s: &CppSymbolSummary) -> (out: CppSymbolSummary)
    ensures
        out == *s,
{
    CppSymbolSummary {
        raw_name: copy_string(&s.raw_name),
        display_name: copy_string(&s.display_name),
        kind: s.kind,
        namespace: copy_opt_string(&s.namespace),
        class_name: copy_opt_string(&s.class_name),
        method_family: copy_opt_string(&s.method_family),
        template_family: copy_opt_string(&s.template_family),
        lambda_related: s.lambda_related,
        anonymous_namespace: s.anonymous_namespace,
        template_instantiation: s.template_instantiation,
        size: s.size,
    }
}

/// The classification texts of the C++ symbols among `symbols`, in order.
pub open spec fn classified_texts(symbols: Seq<SymbolInfo>) -> Seq<CppSummaryText>
    decreases symbols.len(),
{
    if symbols.len() == 0 {
        Seq::empty()
    } else {
        let rest = classified_texts(symbols.drop_last());
        match classify_spec(symbols.last()) {
            Some(c) => rest.push(c),
            None => rest,
        }
    }
}

/// Sum of the sizes of symbols.
pub open spec fn symbol_size_sum(symbols: Seq<SymbolInfo>) -> int
    decreases symbols.len(),
{
    if symbols.len() == 0 {
        0
    } else {
        symbol_size_sum(symbols.drop_last()) + symbols.last().size
    }
}

/// The views of classified symbols.
pub open spec fn summary_texts(c: Seq<CppSymbolSummary>) -> Seq<CppSummaryText> {
    c.map_values(|x: CppSymbolSummary| x@)
}

pub proof fn lemma_symbol_sum_prefix(symbols: Seq<SymbolInfo>, k: int)
    requires
        0 <= k <= symbols.len(),
    ensures
        symbol_size_sum(symbols.take(k)) <= symbol_size_sum(symbols),
        symbol_size_sum(symbols.take(k)) >= 0,
    decreases symbols.len(),
{
    if k < symbols.len() {
        assert(symbols.drop_last().take(k) =~= symbols.take(k));
        lemma_symbol_sum_prefix(symbols.drop_last(), k);
    } else {
        assert(symbols.take(k) =~= symbols);
        if symbols.len() > 0 {
            lemma_symbol_sum_prefix(symbols.drop_last(), k - 1);
        }
    }
}

proof fn lemma_sorted_sum(c: Seq<CppSymbolSummary>)
    ensures
        summary_size_sum(sorted_by_key(c)) == summary_size_sum(c),
{
    crate::sorting::lemma_sorted_by_key_permutes(c);
    lemma_sum_by_multiset(sorted_by_key(c), c);
}

proof fn lemma_sum_by_multiset(a: Seq<CppSymbolSummary>, b: Seq<CppSymbolSummary>)
    requires
        a.to_multiset() == b.to_multiset(),
    ensures
        summary_size_sum(a) == summary_size_sum(b),
    decreases a.len(),
{
    broadcast use vstd::seq_lib::group_to_multiset_ensures;

    if a.len() == 0 {
        assert(b.to_multiset().len() == 0);
        assert(b.len() == 0);
    } else {
        let x = a.last();
        assert(a.to_multiset().count(x) > 0) by {
            assert(a.drop_last().push(x) =~= a);
        }
        assert(b.contains(x));
        let j = choose|j: int| 0 <= j < b.len() && b[j] == x;
        let b2 = b.remove(j);
        assert(a.drop_last().push(x) =~= a);
        assert(a.drop_last().to_multiset() =~= a.to_multiset().remove(x));
        assert(b2.to_multiset() =~= b.to_multiset().remove(x));
        lemma_sum_by_multiset(a.drop_last(), b2);
        lemma_sum_remove(b, j);
    }
}

proof fn lemma_sum_remove(b: Seq<CppSymbolSummary>, j: int)
    requires
        0 <= j < b.len(),
    ensures
        summary_size_sum(b) == summary_size_sum(b.remove(j)) + b[j].size,
    decreases b.len(),
{
    if j == b.len() - 1 {
        assert(b.remove(j) =~= b.drop_last());
    } else {
        lemma_sum_remove(b.drop_last(), j);
        assert(b.remove(j).drop_last() =~= b.drop_last().remove(j));
        assert(b.remove(j).last() == b.last());
    }
}

/// The C++ view of a symbol table: the C++ symbols classified and ranked by
/// size, and the twenty largest namespaces, classes, method families,
/// template families, runtime-overhead buckets and lambda groups.
pub fn build_cpp_view(symbols: &Vec<SymbolInfo>) -> (out: CppView)
    requires
        symbol_size_sum(symbols@) <= u64::MAX,
    ensures
        exists|c: Seq<CppSymbolSummary>|
            summary_texts(c) == classified_texts(symbols@) && out.classified_symbols@ == sorted_by_key(c),
        is_ranking(out.top_namespaces@, out.classified_symbols@, CppFacet::Namespace),
        is_ranking(out.top_classes@, out.classified_symbols@, CppFacet::Class),
        is_ranking(out.top_method_families@, out.classified_symbols@, CppFacet::MethodFamily),
        is_ranking(out.top_template_families@, out.classified_symbols@, CppFacet::TemplateFamily),
        is_ranking(out.runtime_overhead@, out.classified_symbols@, CppFacet::RuntimeOverhead),
        is_ranking(out.lambda_groups@, out.classified_symbols@, CppFacet::LambdaGroup),
{
    let mut classified: Vec<CppSymbolSummary> = Vec::new();
    let mut i: usize = 0;
    while i < symbols.len()
        invariant
            i <= symbols.len(),
            summary_texts(classified@) == classified_texts(symbols@.take(i as int)),
            summary_size_sum(classified@) <= symbol_size_sum(symbols@.take(i as int)),
            symbol_size_sum(symbols@) <= u64::MAX,
        decreases symbols.len() - i,
    {
        assert(symbols@.take(i + 1).drop_last() =~= symbols@.take(i as int));
        assert(symbols@.take(i + 1).last() == symbols@[i as int]);
        proof {
            lemma_symbol_sum_prefix(symbols@, i as int);
        }
        match classify_symbol(&symbols[i]) {
            Some(c) => {
                let ghost before = classified@;
                classified.push(c);
                assert(classified@.drop_last() =~= before);
                assert(summary_texts(classified@) =~= summary_texts(before).push(c@));
            },
            None => {},
        }
        i += 1;
    }
    assert(symbols@.take(symbols.len() as int) =~= symbols@);
    let ghost c = classified@;
    let sorted = sort_by_key(classified);
    proof {
        lemma_sorted_sum(c);
    }
    CppView {
        top_namespaces: aggregate_facet(&sorted, CppFacet::Namespace),
        top_classes: aggregate_facet(&sorted, CppFacet::Class),
        top_method_families: aggregate_facet(&sorted, CppFacet::MethodFamily),
        top_template_families: aggregate_facet(&sorted, CppFacet::TemplateFamily),
        runtime_overhead: aggregate_facet(&sorted, CppFacet::RuntimeOverhead),
        lambda_groups: aggregate_facet(&sorted, CppFacet::LambdaGroup),
        classified_symbols: sorted,
    }
}

/// The group of a classified symbol under a report grouping.
fn group_key(symbol: &CppSymbolSummary, group_by: CppGroupBy) -> (r: Option<String>)
    ensures
        opt_text(r) == facet_key(symbol@, facet_of(group_by)),
{
    let f = match group_by {
        CppGroupBy::Symbol => CppFacet::Symbol,
        CppGroupBy::CppTemplateFamily => CppFacet::TemplateFamily,
        CppGroupBy::CppClass => CppFacet::Class,
        CppGroupBy::CppRuntimeOverhead => CppFacet::RuntimeOverhead,
        CppGroupBy::CppLambdaGroup => CppFacet::LambdaGroup,
    };
    facet_key_of(symbol, f)
}

/// Whether a group key names `name`.
fn key_is(k: &Option<String>, name: &str) -> (r: bool)
    ensures
        r == (opt_text(*k) == Some(name@)),
{
    match k {
        Some(x) => str_eq(x.as_str(), name),
        None => false,
    }
}

/// `out` lists the size of every group of `symbols` under a grouping,
/// ordered by group name.
pub open spec fn is_group_sizes(out: Seq<(String, u64)>, symbols: Seq<CppSymbolSummary>, g: CppGroupBy) -> bool {
    exists|rows: Seq<GroupTotal>|
        {
            &&& #[trigger] rows_match(rows, group_totals(facet_items(symbols, facet_of(g))))
            &&& out.len() == rows.len()
            &&& forall|i: int|
                0 <= i < out.len() ==> (#[trigger] out[i]).0 == sorted_by_key(rows)[i].name
                    && out[i].1 == sorted_by_key(rows)[i].size
        }
}

/// Size per group, ordered by group name.
pub fn aggregate_group_sizes(view: &CppView, group_by: CppGroupBy) -> (out: Vec<(String, u64)>)
    requires
        summary_size_sum(view.classified_symbols@) <= u64::MAX,
    ensures
        is_group_sizes(out@, view.classified_symbols@, group_by),
        forall|i: int| 0 <= i < out@.len() ==> (#[trigger] out@[i]).1 <= summary_size_sum(view.classified_symbols@),
{
    let f = match group_by {
        CppGroupBy::Symbol => CppFacet::Symbol,
        CppGroupBy::CppTemplateFamily => CppFacet::TemplateFamily,
        CppGroupBy::CppClass => CppFacet::Class,
        CppGroupBy::CppRuntimeOverhead => CppFacet::RuntimeOverhead,
        CppGroupBy::CppLambdaGroup => CppFacet::LambdaGroup,
    };
    proof {
        lemma_facet_sizes(view.classified_symbols@, f);
        crate::grouping::lemma_group_bounds(facet_items(view.classified_symbols@, f));
    }
    let items = facet_items_of(&view.classified_symbols, f);
    let groups = accumulate_groups(&items);
    let ghost rows = groups@;
    let out = totals_by_name(groups);
    assert(rows_match(rows, group_totals(facet_items(view.classified_symbols@, facet_of(group_by)))));
    assert forall|i: int| 0 <= i < out@.len() implies (#[trigger] out@[i]).1 <= summary_size_sum(
        view.classified_symbols@,
    ) by {
        let j = choose|j: int| 0 <= j < rows.len() && out@[i].1 == rows[j].size;
        assert(rows[j].size == group_totals(facet_items(view.classified_symbols@, f))[j].1);
    }
    out
}

/// The display names and sizes of the members of a group, in input order.
pub open spec fn members_of(symbols: Seq<CppSymbolSummary>, f: CppFacet, name: Seq<char>) -> Seq<
    (String, u64),
>
    decreases symbols.len(),
{
    if symbols.len() == 0 {
        Seq::empty()
    } else {
        let rest = members_of(symbols.drop_last(), f, name);
        if facet_key(symbols.last()@, f) == Some(name) {
            rest.push((symbols.last().display_name, symbols.last().size))
        } else {
            rest
        }
    }
}

/// The members of a group, in input order.
pub open spec fn group_of(symbols: Seq<CppSymbolSummary>, f: CppFacet, name: Seq<char>) -> Seq<
    CppSymbolSummary,
>
    decreases symbols.len(),
{
    if symbols.len() == 0 {
        Seq::empty()
    } else {
        let rest = group_of(symbols.drop_last(), f, name);
        if facet_key(symbols.last()@, f) == Some(name) {
            rest.push(symbols.last())
        } else {
            rest
        }
    }
}

/// The display names of the `limit` largest members of a group, largest first.
pub fn top_group_symbols(view: &CppView, group_by: CppGroupBy, name: &str, limit: usize) -> (out: Vec<
    String,
>)
    ensures
        ({
            let m = sorted_by_key(members_of(view.classified_symbols@, facet_of(group_by), name@));
            &&& out@.len() == if m.len() < limit {
                m.len() as int
            } else {
                limit as int
            }
            &&& forall|i: int| 0 <= i < out@.len() ==> #[trigger] out@[i] == m[i].0
        }),
{
    let symbols = &view.classified_symbols;
    let mut members: Vec<(String, u64)> = Vec::new();
    let mut i: usize = 0;
    while i < symbols.len()
        invariant
            i <= symbols.len(),
            symbols == &view.classified_symbols,
            members@ == members_of(symbols@.take(i as int), facet_of(group_by), name@),
        decreases symbols.len() - i,
    {
        assert(symbols@.take(i + 1).drop_last() =~= symbols@.take(i as int));
        assert(symbols@.take(i + 1).last() == symbols@[i as int]);
        let k = group_key(&symbols[i], group_by);
        if key_is(&k, name) {
            members.push((copy_string(&symbols[i].display_name), symbols[i].size));
        }
        i += 1;
    }
    assert(symbols@.take(symbols.len() as int) =~= symbols@);
    top_names(members, limit)
}

/// The members of a group, largest first, then by display name.
pub fn group_symbols(view: &CppView, group_by: CppGroupBy, name: &str) -> (out: Vec<CppSymbolSummary>)
    ensures
        out@ == sorted_by_key(group_of(view.classified_symbols@, facet_of(group_by), name@)),
{
    let symbols = &view.classified_symbols;
    let mut members: Vec<CppSymbolSummary> = Vec::new();
    let mut i: usize = 0;
    while i < symbols.len()
        invariant
            i <= symbols.len(),
            symbols == &view.classified_symbols,
            members@ == group_of(symbols@.take(i as int), facet_of(group_by), name@),
        decreases symbols.len() - i,
    {
        assert(symbols@.take(i + 1).drop_last() =~= symbols@.take(i as int));
        assert(symbols@.take(i + 1).last() == symbols@[i as int]);
        let k = group_key(&symbols[i], group_by);
        if key_is(&k, name) {
            members.push(copy_summary(&symbols[i]));
        }
        i += 1;
    }
    assert(symbols@.take(symbols.len() as int) =~= symbols@);
    sort_by_key(members)
}


// ---------------------------------------------------------------------------
// Top names and group listings agree
// ---------------------------------------------------------------------------
/// The name and size a summary is ranked by.
pub open spec fn ranked_pair(s: CppSymbolSummary) -> (String, u64) {
    (s.display_name, s.size)
}

proof fn lemma_insert_sorted_pairs(t: Seq<CppSymbolSummary>, x: CppSymbolSummary)
    ensures
        crate::sorting::insert_sorted(t.map_values(|s: CppSymbolSummary| ranked_pair(s)), ranked_pair(x))
            =~= crate::sorting::insert_sorted(t, x).map_values(|s: CppSymbolSummary| ranked_pair(s)),
    decreases t.len(),
{
    let p = t.map_values(|s: CppSymbolSummary| ranked_pair(s));
    if t.len() > 0 {
        assert(p.last() == ranked_pair(t.last()));
        if !t.last().key_le(x) {
            lemma_insert_sorted_pairs(t.drop_last(), x);
            assert(p.drop_last() =~= t.drop_last().map_values(|s: CppSymbolSummary| ranked_pair(s)));
        }
    }
}

proof fn lemma_sorted_pairs(s: Seq<CppSymbolSummary>)
    ensures
        sorted_by_key(s.map_values(|x: CppSymbolSummary| ranked_pair(x)))
            =~= sorted_by_key(s).map_values(|x: CppSymbolSummary| ranked_pair(x)),
    decreases s.len(),
{
    let p = s.map_values(|x: CppSymbolSummary| ranked_pair(x));
    if s.len() > 0 {
        lemma_sorted_pairs(s.drop_last());
        assert(p.drop_last() =~= s.drop_last().map_values(|x: CppSymbolSummary| ranked_pair(x)));
        assert(p.last() == ranked_pair(s.last()));
        lemma_insert_sorted_pairs(sorted_by_key(s.drop_last()), s.last());
    }
}

proof fn lemma_members_are_pairs(symbols: Seq<CppSymbolSummary>, f: CppFacet, name: Seq<char>)
    ensures
        members_of(symbols, f, name) =~= group_of(symbols, f, name).map_values(
            |x: CppSymbolSummary| ranked_pair(x),
        ),
    decreases symbols.len(),
{
    if symbols.len() > 0 {
        lemma_members_are_pairs(symbols.drop_last(), f, name);
    }
}

/// `top_group_symbols(view, group_by, name, limit)` is the display names of
/// the first `limit` symbols that `group_symbols(view, group_by, name)` lists:
/// over the sequences their contracts give, the top list has the length of
/// the group listing cut to `limit`, and position by position the same names
/// (and sizes).
pub proof fn law_top_group_symbols_take_group_symbols(
    view: CppView,
    group_by: CppGroupBy,
    name: Seq<char>,
    limit: usize,
)
    ensures
        ({
            let m = sorted_by_key(members_of(view.classified_symbols@, facet_of(group_by), name));
            let g = sorted_by_key(group_of(view.classified_symbols@, facet_of(group_by), name));
            let n = if g.len() < limit {
                g.len() as int
            } else {
                limit as int
            };
            &&& (if m.len() < limit {
                m.len() as int
            } else {
                limit as int
            }) == n
            &&& forall|i: int| 0 <= i < n ==> #[trigger] m[i].0 == g[i].display_name && m[i].1 == g[i].size
        }),
{
    let s = view.classified_symbols@;
    let f = facet_of(group_by);
    lemma_members_are_pairs(s, f, name);
    lemma_sorted_pairs(group_of(s, f, name));
}

/// Summed size of the classified symbols of a kind.
pub open spec fn kind_size(symbols: Seq<CppSymbolSummary>, k: CppSymbolKind) -> int
    decreases symbols.len(),
{
    if symbols.len() == 0 {
        0
    } else {
        kind_size(symbols.drop_last(), k) + if symbols.last().kind == k {
            symbols.last().size as int
        } else {
            0
        }
    }
}

/// Number of the classified symbols of a kind.
pub open spec fn kind_count(symbols: Seq<CppSymbolSummary>, k: CppSymbolKind) -> int
    decreases symbols.len(),
{
    if symbols.len() == 0 {
        0
    } else {
        kind_count(symbols.drop_last(), k) + if symbols.last().kind == k {
            1int
        } else {
            0
        }
    }
}

proof fn lemma_overhead_key_sums(symbols: Seq<CppSymbolSummary>, kind: CppSymbolKind, name: Seq<char>)
    requires
        forall|x: CppSymbolKind| #[trigger] runtime_bucket(x) == Some(name) <==> x == kind,
    ensures
        key_total(facet_items(symbols, CppFacet::RuntimeOverhead), name) == kind_size(symbols, kind),
        key_count(facet_items(symbols, CppFacet::RuntimeOverhead), name) == kind_count(symbols, kind),
    decreases symbols.len(),
{
    if symbols.len() > 0 {
        lemma_overhead_key_sums(symbols.drop_last(), kind, name);
        let items = facet_items(symbols, CppFacet::RuntimeOverhead);
        assert(items.drop_last() =~= facet_items(symbols.drop_last(), CppFacet::RuntimeOverhead));
        assert(items.last() == (runtime_bucket(symbols.last().kind), symbols.last().size));
    }
}

/// Grouped by runtime overhead, the classified symbols fall into the groups
/// `vtable`, `typeinfo`, `guard_variable` and `thunk` only: each symbol of
/// kind vtable, typeinfo, guard variable or thunk belongs to the group of its
/// kind, which exists exactly when such a symbol does and sums their sizes
/// and counts them; symbols of other kinds belong to no group.
pub proof fn law_runtime_overhead_groups(symbols: Seq<CppSymbolSummary>, kind: CppSymbolKind, name: Seq<char>)
    requires
        (kind == CppSymbolKind::Vtable && name == "vtable"@) || (kind == CppSymbolKind::Typeinfo && name
            == "typeinfo"@) || (kind == CppSymbolKind::GuardVariable && name == "guard_variable"@) || (kind
            == CppSymbolKind::Thunk && name == "thunk"@),
    ensures
        ({
            let g = group_totals(facet_items(symbols, facet_of(CppGroupBy::CppRuntimeOverhead)));
            &&& (exists|i: int| 0 <= i < g.len() && (#[trigger] g[i]).0 == name) <==> kind_count(
                symbols,
                kind,
            ) > 0
            &&& forall|i: int|
                0 <= i < g.len() && (#[trigger] g[i]).0 == name ==> g[i].1 == kind_size(symbols, kind)
                    && g[i].2 == kind_count(symbols, kind)
            &&& forall|i: int|
                0 <= i < g.len() ==> (#[trigger] g[i]).0 == "vtable"@ || g[i].0 == "typeinfo"@ || g[i].0
                    == "guard_variable"@ || g[i].0 == "thunk"@
        }),
{
    reveal_strlit("vtable");
    reveal_strlit("typeinfo");
    reveal_strlit("guard_variable");
    reveal_strlit("thunk");
    assert forall|x: CppSymbolKind| #[trigger] runtime_bucket(x) == Some(name) <==> x == kind by {
        match x {
            CppSymbolKind::Vtable => assert("vtable"@.len() == 6),
            CppSymbolKind::Typeinfo => assert("typeinfo"@.len() == 8),
            CppSymbolKind::GuardVariable => assert("guard_variable"@.len() == 14),
            CppSymbolKind::Thunk => assert("thunk"@.len() == 5),
            _ => {},
        }
    }
    let items = facet_items(symbols, CppFacet::RuntimeOverhead);
    lemma_overhead_key_sums(symbols, kind, name);
    lemma_group_of_key(items, name);
    lemma_group_keys_present(items);
    let g = group_totals(items);
    assert forall|i: int| 0 <= i < g.len() implies (#[trigger] g[i]).0 == "vtable"@ || g[i].0
        == "typeinfo"@ || g[i].0 == "guard_variable"@ || g[i].0 == "thunk"@ by {
        let j = choose|j: int| 0 <= j < items.len() && #[trigger] items[j].0 == Some(g[i].0);
        assert(items[j].0 == runtime_bucket(symbols[j].kind));
    }
}

} // verus!
