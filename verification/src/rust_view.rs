//! The Rust view of a symbol table: each Rust symbol attributed to its
//! crate, package, target and source file, and folded into a family
//! (function, generic, closure, async or trait impl) so that the many
//! instantiations of one item are reported together.
use vstd::prelude::*;

use crate::demangle::opt_view;
use crate::text::opt_text;
use crate::grouping::{
    accumulate_groups, group_totals, keyed_view, lemma_group_keys_present, rows_match, size_sum,
    top_names, totals_by_name, Group, GroupTotal,
};
use crate::model::{FunctionAttribution, LineAttribution, RustContext, SymbolInfo};
use crate::sorting::{keep_first, sort_by_key, sorted_by_key, SortKey};
use crate::text::{
    char_is_hex_digit, chars_contains, chars_eq, chars_find, chars_has, chars_of, chars_starts_with,
    contains_seq, copy_chars, copy_opt_string, copy_string, find_seq, has_char, is_hex_digit,
    is_prefix, lemma_find_from_occurs, lemma_lex_le_total, lemma_lex_le_transitive, lex_le, push_all,
    slice_chars, str_eq, str_le, string_from, string_of,
};

verus! {

// ---------------------------------------------------------------------------
// Types
// ---------------------------------------------------------------------------
/// How Rust symbols are grouped for a report.
#[derive(Debug, Clone, Copy, PartialEq, Eq, Structural)]
pub enum RustGroupBy {
    Package,
    Target,
    Crate,
    Dependency,
    Family,
    Symbol,
    SourceFile,
}

/// The family a Rust symbol belongs to.
#[derive(Debug, Clone, Copy, PartialEq, Eq, Structural)]
pub enum RustFamilyKind {
    Function,
    Generic,
    Closure,
    Async,
    Trait,
}

/// Source language of a symbol.
#[derive(Debug, Clone, Copy, PartialEq, Eq, Structural)]
pub enum SymbolLanguage {
    C,
    Cpp,
    Rust,
    Unknown,
}

/// One attributed Rust symbol.
#[derive(Debug, Clone, PartialEq, Eq)]
pub struct RustSymbolSummary {
    pub raw_name: String,
    pub demangled_name: Option<String>,
    pub display_name: String,
    pub language: SymbolLanguage,
    pub package: Option<String>,
    pub target: Option<String>,
    pub crate_name: Option<String>,
    pub dependency_crate: Option<String>,
    pub source_path: Option<String>,
    pub family_kind: RustFamilyKind,
    pub family_key: String,
    pub size: u64,
}

/// One group of a Rust ranking.
#[derive(Debug, Clone, PartialEq, Eq)]
pub struct RustAggregate {
    pub name: String,
    pub size: u64,
    pub symbol_count: usize,
}

/// One family of a Rust ranking.
#[derive(Debug, Clone, PartialEq, Eq)]
pub struct RustFamilySummary {
    pub kind: RustFamilyKind,
    pub key: String,
    pub display_name: String,
    pub size: u64,
    pub symbol_count: usize,
}

/// The Rust view of a symbol table.
#[derive(Debug, Clone, PartialEq, Eq)]
pub struct RustView {
    pub workspace: Option<String>,
    pub packages: Vec<RustAggregate>,
    pub targets: Vec<RustAggregate>,
    pub crates: Vec<RustAggregate>,
    pub dependency_crates: Vec<RustAggregate>,
    pub source_files: Vec<RustAggregate>,
    pub grouped_families: Vec<RustFamilySummary>,
    pub symbols: Vec<RustSymbolSummary>,
    pub total_rust_size: u64,
}

/// Rust symbols rank by size, largest first, then by display name.
impl SortKey for RustSymbolSummary {
    open spec fn key_le(self, other: Self) -> bool {
        self.size > other.size || (self.size == other.size && lex_le(
            self.display_name@,
            other.display_name@,
        ))
    }

    proof fn lemma_key_total(a: Self, b: Self) {
        lemma_lex_le_total(a.display_name@, b.display_name@);
    }

    proof fn lemma_key_transitive(a: Self, b: Self, c: Self) {
        if a.size == b.size && b.size == c.size {
            lemma_lex_le_transitive(a.display_name@, b.display_name@, c.display_name@);
        }
    }

    fn exec_key_le(&self, other: &Self) -> (r: bool) {
        if self.size != other.size {
            self.size > other.size
        } else {
            str_le(&self.display_name, &other.display_name)
        }
    }
}

/// Groups rank by size, largest first, then by name.
impl SortKey for RustAggregate {
    open spec fn key_le(self, other: Self) -> bool {
        self.size > other.size || (self.size == other.size && lex_le(self.name@, other.name@))
    }

    proof fn lemma_key_total(a: Self, b: Self) {
        lemma_lex_le_total(a.name@, b.name@);
    }

    proof fn lemma_key_transitive(a: Self, b: Self, c: Self) {
        if a.size == b.size && b.size == c.size {
            lemma_lex_le_transitive(a.name@, b.name@, c.name@);
        }
    }

    fn exec_key_le(&self, other: &Self) -> (r: bool) {
        if self.size != other.size {
            self.size > other.size
        } else {
            str_le(&self.name, &other.name)
        }
    }
}

/// Families rank by size, largest first, then by display name.
impl SortKey for RustFamilySummary {
    open spec fn key_le(self, other: Self) -> bool {
        self.size > other.size || (self.size == other.size && lex_le(
            self.display_name@,
            other.display_name@,
        ))
    }

    proof fn lemma_key_total(a: Self, b: Self) {
        lemma_lex_le_total(a.display_name@, b.display_name@);
    }

    proof fn lemma_key_transitive(a: Self, b: Self, c: Self) {
        if a.size == b.size && b.size == c.size {
            lemma_lex_le_transitive(a.display_name@, b.display_name@, c.display_name@);
        }
    }

    fn exec_key_le(&self, other: &Self) -> (r: bool) {
        if self.size != other.size {
            self.size > other.size
        } else {
            str_le(&self.display_name, &other.display_name)
        }
    }
}

// ---------------------------------------------------------------------------
// Name specifications
// ---------------------------------------------------------------------------
/// The text before the first occurrence of `p` (the first piece of `split(p)`).
pub open spec fn first_piece(s: Seq<char>, p: Seq<char>) -> Seq<char> {
    match find_seq(s, p) {
        Some(i) => s.take(i),
        None => s,
    }
}

/// `s` without leading copies of `c`.
pub open spec fn trim_start_char(s: Seq<char>, c: char) -> Seq<char>
    decreases s.len(),
{
    if s.len() > 0 && s[0] == c {
        trim_start_char(s.drop_first(), c)
    } else {
        s
    }
}

/// `s` without trailing copies of `c`.
pub open spec fn trim_end_char(s: Seq<char>, c: char) -> Seq<char>
    decreases s.len(),
{
    if s.len() > 0 && s.last() == c {
        trim_end_char(s.drop_last(), c)
    } else {
        s
    }
}

/// `s` without copies of `c` at either end (`str::trim_matches`).
pub open spec fn trim_char(s: Seq<char>, c: char) -> Seq<char> {
    trim_end_char(trim_start_char(s, c), c)
}

/// A path component cleaned of angle brackets at its ends.
pub open spec fn cleaned(component: Seq<char>) -> Seq<char> {
    trim_char(trim_char(component, '<'), '>')
}

/// The crate a readable Rust name belongs to: for a qualified path
/// `<T as Trait>` the crate of `T`, else the first path component, else the
/// package of the build.
pub open spec fn crate_name_spec(display: Seq<char>, package: Option<Seq<char>>) -> Option<Seq<char>> {
    let from_qualified = if display.len() > 0 && display[0] == '<' {
        let c = cleaned(first_piece(first_piece(display.drop_first(), " as "@), "::"@));
        if c.len() > 0 {
            Some(c)
        } else {
            None
        }
    } else {
        None
    };
    match from_qualified {
        Some(c) => Some(c),
        None => {
            let c = cleaned(first_piece(display, "::"@));
            if c.len() > 0 && c != seq!['_'] {
                Some(c)
            } else {
                package
            }
        },
    }
}

/// Generic arguments collapsed: the outermost `<...>` groups become `<...>`;
/// a name without any `<` is returned unchanged.
pub open spec fn angle_scan(s: Seq<char>, i: int, depth: nat, out: Seq<char>, inserted: bool) -> Seq<
    char,
>
    decreases s.len() - i,
{
    if i < 0 || i >= s.len() {
        if inserted {
            out
        } else {
            s
        }
    } else if s[i] == '<' {
        if depth + 1 == 1 {
            angle_scan(s, i + 1, depth + 1, out + "<..."@, true)
        } else {
            angle_scan(s, i + 1, depth + 1, out, inserted)
        }
    } else if s[i] == '>' {
        angle_scan(
            s,
            i + 1,
            if depth == 0 {
                0
            } else {
                (depth - 1) as nat
            },
            if depth == 1 {
                out.push('>')
            } else {
                out
            },
            inserted,
        )
    } else if depth == 0 {
        angle_scan(s, i + 1, depth, out.push(s[i]), inserted)
    } else {
        angle_scan(s, i + 1, depth, out, inserted)
    }
}

/// Generic arguments collapsed to `<...>`.
pub open spec fn normalize_angle_brackets(s: Seq<char>) -> Seq<char> {
    angle_scan(s, 0, 0, Seq::empty(), false)
}

/// Last index at which `p` occurs in `s`, at or before `i`.
pub open spec fn last_at(s: Seq<char>, p: Seq<char>, i: int) -> Option<int>
    decreases i + 1,
{
    if i < 0 {
        None
    } else if i + p.len() <= s.len() && s.subrange(i, i + p.len()) == p {
        Some(i)
    } else {
        last_at(s, p, i - 1)
    }
}

/// Sixteen hex digits.
pub open spec fn is_hash16(s: Seq<char>) -> bool {
    s.len() == 16 && forall|k: int| 0 <= k < 16 ==> is_hex_digit(#[trigger] s[k])
}

/// A name without a trailing `::h<16 hex digits>` hash.
pub open spec fn strip_hash_suffix(v: Seq<char>) -> Seq<char> {
    match last_at(v, "::h"@, v.len() - 3) {
        Some(i) => if is_hash16(v.skip(i + 3)) {
            v.take(i)
        } else {
            v
        },
        None => v,
    }
}

/// Whether a name belongs to an async family.
pub open spec fn is_async_name(v: Seq<char>) -> bool {
    contains_seq(v, "{{async}}"@) || contains_seq(v, "::poll"@) || contains_seq(v, " from "@)
        || contains_seq(v, "Future"@) || contains_seq(v, "GenFuture"@)
}

/// The family of a readable Rust name: its kind and its key (which is also
/// the name shown for the family).
pub open spec fn family_spec(display: Seq<char>) -> (RustFamilyKind, Seq<char>) {
    let v = strip_hash_suffix(display);
    if is_async_name(v) {
        (RustFamilyKind::Async, normalize_angle_brackets(v))
    } else if contains_seq(v, "{{closure}}"@) {
        (RustFamilyKind::Closure, v)
    } else if v.len() > 0 && v[0] == '<' && contains_seq(v, " as "@) {
        (RustFamilyKind::Trait, normalize_angle_brackets(v))
    } else if has_char(v, '<') {
        (RustFamilyKind::Generic, normalize_angle_brackets(v))
    } else {
        (RustFamilyKind::Function, normalize_angle_brackets(v))
    }
}

// ---------------------------------------------------------------------------
// Executable name helpers
// ---------------------------------------------------------------------------
/// The text before the first occurrence of `p`.
fn first_piece_of(s: &Vec<char>, p: &str) -> (out: Vec<char>)
    ensures
        out@ == first_piece(s@, p@),
{
    let pc = chars_of(p);
    match chars_find(s, &pc) {
        Some(i) => {
            proof {
                lemma_find_from_occurs(s@, p@, 0);
            }
            slice_chars(s, 0, i)
        },
        None => copy_chars(s),
    }
}

/// `s` without copies of `c` at either end.
fn trim_char_of(s: &Vec<char>, c: char) -> (out: Vec<char>)
    ensures
        out@ == trim_char(s@, c),
{
    let mut a: usize = 0;
    assert(s@.skip(0) =~= s@);
    while a < s.len() && s[a] == c
        invariant
            a <= s.len(),
            trim_start_char(s@, c) == trim_start_char(s@.skip(a as int), c),
        decreases s.len() - a,
    {
        assert(s@.skip(a as int).drop_first() =~= s@.skip(a + 1));
        a += 1;
    }
    let mut b: usize = s.len();
    let ghost mid = s@.skip(a as int);
    assert(trim_start_char(s@, c) == mid);
    while b > a && s[b - 1] == c
        invariant
            a <= b <= s.len(),
            mid == s@.skip(a as int),
            trim_end_char(mid, c) == trim_end_char(s@.subrange(a as int, b as int), c),
        decreases b,
    {
        assert(s@.subrange(a as int, b as int).drop_last() =~= s@.subrange(a as int, b - 1));
        b -= 1;
    }
    assert(s@.subrange(a as int, s.len() as int) =~= mid);
    slice_chars(s, a, b)
}

/// The crate of a readable Rust name (see `crate_name_spec`).
pub fn derive_crate_name(display_name: &str, context: Option<&RustContext>) -> (r: Option<String>)
    ensures
        opt_text(r) == crate_name_spec(
            display_name@,
            match context {
                Some(c) => opt_text(c.package_name),
                None => None,
            },
        ),
{
    let d = chars_of(display_name);
    let qualified: Option<Vec<char>> = if d.len() > 0 && d[0] == '<' {
        let rest = slice_chars(&d, 1, d.len());
        assert(rest@ =~= d@.drop_first());
        let a = first_piece_of(&rest, " as ");
        let b = first_piece_of(&a, "::");
        let c1 = trim_char_of(&b, '<');
        let c = trim_char_of(&c1, '>');
        if c.len() > 0 {
            Some(c)
        } else {
            None
        }
    } else {
        None
    };
    if let Some(c) = qualified {
        return Some(string_of(&c));
    }
    let b = first_piece_of(&d, "::");
    let c1 = trim_char_of(&b, '<');
    let c = trim_char_of(&c1, '>');
    let underscore: Vec<char> = vec!['_'];
    assert(underscore@ =~= seq!['_']);
    if c.len() > 0 && !chars_eq(&c, &underscore) {
        return Some(string_of(&c));
    }
    match context {
        Some(ctx) => copy_opt_string(&ctx.package_name),
        None => None,
    }
}

/// Generic arguments collapsed to `<...>` (see `normalize_angle_brackets`).
fn normalize_angle_of(s: &Vec<char>) -> (out: Vec<char>)
    ensures
        out@ == normalize_angle_brackets(s@),
{
    let mut out: Vec<char> = Vec::new();
    let mut depth: usize = 0;
    let mut inserted = false;
    let mut i: usize = 0;
    while i < s.len()
        invariant
            i <= s.len(),
            depth <= i,
            normalize_angle_brackets(s@) == angle_scan(s@, i as int, depth as nat, out@, inserted),
        decreases s.len() - i,
    {
        let c = s[i];
        if c == '<' {
            depth += 1;
            if depth == 1 {
                let ghost before = out@;
                out.push('<');
                out.push('.');
                out.push('.');
                out.push('.');
                proof {
                    reveal_strlit("<...");
                }
                assert(out@ =~= before + "<..."@);
                inserted = true;
            }
        } else if c == '>' {
            if depth == 1 {
                out.push('>');
            }
            if depth > 0 {
                depth -= 1;
            }
        } else if depth == 0 {
            out.push(c);
        }
        i += 1;
    }
    if inserted {
        out
    } else {
        copy_chars(s)
    }
}

/// Whether `d` contains the literal `p`.
fn holds(d: &Vec<char>, p: &str) -> (r: bool)
    ensures
        r == contains_seq(d@, p@),
{
    let pc = chars_of(p);
    chars_contains(d, &pc)
}

/// A name without a trailing hash (see `strip_hash_suffix`).
fn strip_hash_suffix_of(v: &Vec<char>) -> (out: Vec<char>)
    ensures
        out@ == strip_hash_suffix(v@),
{
    proof {
        reveal_strlit("::h");
    }
    if v.len() < 3 {
        assert(last_at(v@, "::h"@, v@.len() - 3) is None);
        return copy_chars(v);
    }
    let mut i: usize = v.len() - 3;
    loop
        invariant
            i + 3 <= v.len(),
            last_at(v@, "::h"@, v@.len() - 3) == last_at(v@, "::h"@, i as int),
        decreases i,
    {
        proof {
            reveal_strlit("::h");
        }
        let hit = v[i] == ':' && v[i + 1] == ':' && v[i + 2] == 'h';
        assert(hit == (v@.subrange(i as int, i + 3) == "::h"@)) by {
            if v@.subrange(i as int, i + 3) == "::h"@ {
                assert(v@.subrange(i as int, i + 3)[0] == ':');
                assert(v@.subrange(i as int, i + 3)[1] == ':');
                assert(v@.subrange(i as int, i + 3)[2] == 'h');
            }
            if hit {
                assert(v@.subrange(i as int, i + 3) =~= "::h"@);
            }
        }
        if hit {
            let tail = slice_chars(v, i + 3, v.len());
            assert(tail@ =~= v@.skip(i + 3));
            let mut ok = tail.len() == 16;
            let mut k: usize = 0;
            while ok && k < tail.len()
                invariant
                    k <= tail.len(),
                    ok ==> tail.len() == 16,
                    ok ==> forall|j: int| 0 <= j < k ==> is_hex_digit(#[trigger] tail@[j]),
                    !ok ==> !is_hash16(tail@),
                decreases tail.len() - k,
            {
                if !char_is_hex_digit(tail[k]) {
                    ok = false;
                }
                k += 1;
            }
            if ok {
                return slice_chars(v, 0, i);
            } else {
                return copy_chars(v);
            }
        }
        if i == 0 {
            assert(last_at(v@, "::h"@, -1) is None);
            return copy_chars(v);
        }
        i -= 1;
    }
}

/// The family of a readable Rust name: kind, key and the name shown for it.
pub fn classify_family(display_name: &str) -> (r: (RustFamilyKind, String, String))
    ensures
        r.0 == family_spec(display_name@).0,
        r.1@ == family_spec(display_name@).1,
        r.2@ == family_spec(display_name@).1,
{
    let d = chars_of(display_name);
    let v = strip_hash_suffix_of(&d);
    let (kind, key) = if holds(&v, "{{async}}") || holds(&v, "::poll") || holds(&v, " from ") || holds(
        &v,
        "Future",
    ) || holds(&v, "GenFuture") {
        (RustFamilyKind::Async, normalize_angle_of(&v))
    } else if holds(&v, "{{closure}}") {
        (RustFamilyKind::Closure, copy_chars(&v))
    } else if v.len() > 0 && v[0] == '<' && holds(&v, " as ") {
        (RustFamilyKind::Trait, normalize_angle_of(&v))
    } else if chars_has(&v, '<') {
        (RustFamilyKind::Generic, normalize_angle_of(&v))
    } else {
        (RustFamilyKind::Function, normalize_angle_of(&v))
    };
    (kind, string_of(&key), string_of(&key))
}

// ---------------------------------------------------------------------------
// Classification
// ---------------------------------------------------------------------------
/// The text of an attributed Rust symbol.
pub struct RustSummaryText {
    pub raw_name: Seq<char>,
    pub demangled_name: Option<Seq<char>>,
    pub display_name: Seq<char>,
    pub language: SymbolLanguage,
    pub package: Option<Seq<char>>,
    pub target: Option<Seq<char>>,
    pub crate_name: Option<Seq<char>>,
    pub dependency_crate: Option<Seq<char>>,
    pub source_path: Option<Seq<char>>,
    pub family_kind: RustFamilyKind,
    pub family_key: Seq<char>,
    pub size: u64,
}

impl View for RustSymbolSummary {
    type V = RustSummaryText;

    open spec fn view(&self) -> RustSummaryText {
        RustSummaryText {
            raw_name: self.raw_name@,
            demangled_name: opt_text(self.demangled_name),
            display_name: self.display_name@,
            language: self.language,
            package: opt_text(self.package),
            target: opt_text(self.target),
            crate_name: opt_text(self.crate_name),
            dependency_crate: opt_text(self.dependency_crate),
            source_path: opt_text(self.source_path),
            family_kind: self.family_kind,
            family_key: self.family_key@,
            size: self.size,
        }
    }
}

/// A symbol is taken for Rust when its demangled name is a path or its
/// mangled name uses a Rust scheme (`_R`, or the legacy `_ZN`).
pub open spec fn looks_like_rust(symbol: SymbolInfo) -> bool {
    (match opt_text(symbol.demangled_name) {
        Some(d) => contains_seq(d, "::"@),
        None => false,
    }) || is_prefix("_R"@, symbol.name@) || is_prefix("_ZN"@, symbol.name@)
}

/// The path of the first function attribution of the named symbol, if it
/// has one.
pub open spec fn function_path(fa: Seq<FunctionAttribution>, name: Seq<char>) -> Option<Option<Seq<char>>>
    decreases fa.len(),
{
    if fa.len() == 0 {
        None
    } else if fa[0].raw_name@ == name {
        Some(opt_text(fa[0].path))
    } else {
        function_path(fa.drop_first(), name)
    }
}

/// The path of the first line attribution whose range holds `addr`.
pub open spec fn line_path(la: Seq<LineAttribution>, addr: u64) -> Option<Seq<char>>
    decreases la.len(),
{
    if la.len() == 0 {
        None
    } else if la[0].range.start <= addr && la[0].range.end >= addr {
        Some(la[0].location.path@)
    } else {
        line_path(la.drop_first(), addr)
    }
}

/// The source file of a symbol: from its function attribution, else from
/// the line attribution that covers its address.
pub open spec fn source_path_spec(
    symbol: SymbolInfo,
    fa: Seq<FunctionAttribution>,
    la: Seq<LineAttribution>,
) -> Option<Seq<char>> {
    match function_path(fa, symbol.name@) {
        Some(Some(p)) => Some(p),
        _ => line_path(la, symbol.addr),
    }
}

/// The package name of the build context.
pub open spec fn context_package(ctx: Option<RustContext>) -> Option<Seq<char>> {
    match ctx {
        Some(c) => opt_text(c.package_name),
        None => None,
    }
}

/// The attribution of a Rust symbol, when it is one.
pub open spec fn classify_rust_spec(
    symbol: SymbolInfo,
    ctx: Option<RustContext>,
    fa: Seq<FunctionAttribution>,
    la: Seq<LineAttribution>,
) -> Option<RustSummaryText> {
    if !looks_like_rust(symbol) {
        None
    } else {
        let demangled = opt_text(symbol.demangled_name);
        let display = match demangled {
            Some(d) => d,
            None => symbol.name@,
        };
        let pkg = context_package(ctx);
        let krate = crate_name_spec(display, pkg);
        let fam = family_spec(display);
        Some(
            RustSummaryText {
                raw_name: symbol.name@,
                demangled_name: demangled,
                display_name: fam.1,
                language: SymbolLanguage::Rust,
                package: match pkg {
                    Some(p) => Some(p),
                    None => krate,
                },
                target: match ctx {
                    Some(c) => opt_text(c.target_name),
                    None => None,
                },
                crate_name: krate,
                dependency_crate: match krate {
                    Some(k) => if Some(k) != pkg {
                        Some(k)
                    } else {
                        None
                    },
                    None => None,
                },
                source_path: source_path_spec(symbol, fa, la),
                family_kind: fam.0,
                family_key: fam.1,
                size: symbol.size,
            },
        )
    }
}

/// The path of the first function attribution of the named symbol (see `function_path`).
fn function_path_of(fa: &Vec<FunctionAttribution>, name: &String) -> (r: Option<Option<String>>)
    ensures
        match r {
            Some(p) => function_path(fa@, name@) == Some(opt_text(p)),
            None => function_path(fa@, name@) is None,
        },
{
    let mut i: usize = 0;
    assert(fa@.skip(0) =~= fa@);
    while i < fa.len()
        invariant
            i <= fa.len(),
            function_path(fa@, name@) == function_path(fa@.skip(i as int), name@),
        decreases fa.len() - i,
    {
        assert(fa@.skip(i as int)[0] == fa@[i as int]);
        assert(fa@.skip(i as int).drop_first() =~= fa@.skip(i + 1));
        if str_eq(fa[i].raw_name.as_str(), name.as_str()) {
            return Some(copy_opt_string(&fa[i].path));
        }
        i += 1;
    }
    None
}

/// The source file of a symbol (see `source_path_spec`).
fn source_path_of(
    symbol: &SymbolInfo,
    fa: &Vec<FunctionAttribution>,
    la: &Vec<LineAttribution>,
) -> (r: Option<String>)
    ensures
        opt_text(r) == source_path_spec(*symbol, fa@, la@),
{
    if let Some(Some(p)) = function_path_of(fa, &symbol.name) {
        return Some(p);
    }
    let mut j: usize = 0;
    assert(la@.skip(0) =~= la@);
    while j < la.len()
        invariant
            j <= la.len(),
            line_path(la@, symbol.addr) == line_path(la@.skip(j as int), symbol.addr),
            source_path_spec(*symbol, fa@, la@) == line_path(la@, symbol.addr),
        decreases la.len() - j,
    {
        assert(la@.skip(j as int)[0] == la@[j as int]);
        assert(la@.skip(j as int).drop_first() =~= la@.skip(j + 1));
        if la[j].range.start <= symbol.addr && la[j].range.end >= symbol.addr {
            return Some(copy_string(&la[j].location.path));
        }
        j += 1;
    }
    None
}

/// Attributes a symbol to its crate, package, target, source file and
/// family, when it is a Rust symbol.
pub fn classify_rust_symbol(
    symbol: &SymbolInfo,
    context: Option<&RustContext>,
    fa: &Vec<FunctionAttribution>,
    la: &Vec<LineAttribution>,
) -> (r: Option<RustSymbolSummary>)
    ensures
        match r {
            Some(x) => classify_rust_spec(
                *symbol,
                match context {
                    Some(c) => Some(*c),
                    None => None,
                },
                fa@,
                la@,
            ) == Some(x@),
            None => classify_rust_spec(
                *symbol,
                match context {
                    Some(c) => Some(*c),
                    None => None,
                },
                fa@,
                la@,
            ) is None,
        },
{
    let name = chars_of(symbol.name.as_str());
    let looks = match &symbol.demangled_name {
        Some(d) => {
            let dc = chars_of(d.as_str());
            holds(&dc, "::")
        },
        None => false,
    } || chars_starts_with(&name, &chars_of("_R")) || chars_starts_with(&name, &chars_of("_ZN"));
    if !looks {
        return None;
    }
    let display: String = match &symbol.demangled_name {
        Some(d) => copy_string(d),
        None => copy_string(&symbol.name),
    };
    let pkg: Option<String> = match context {
        Some(c) => copy_opt_string(&c.package_name),
        None => None,
    };
    let krate = derive_crate_name(display.as_str(), context);
    let package = match &pkg {
        Some(p) => Some(copy_string(p)),
        None => copy_opt_string(&krate),
    };
    let dependency = match &krate {
        Some(k) => match &pkg {
            Some(p) => if str_eq(k.as_str(), p.as_str()) {
                None
            } else {
                Some(copy_string(k))
            },
            None => Some(copy_string(k)),
        },
        None => None,
    };
    let (family_kind, family_key, family_display) = classify_family(display.as_str());
    let target = match context {
        Some(c) => copy_opt_string(&c.target_name),
        None => None,
    };
    Some(
        RustSymbolSummary {
            raw_name: copy_string(&symbol.name),
            demangled_name: copy_opt_string(&symbol.demangled_name),
            display_name: family_display,
            language: SymbolLanguage::Rust,
            package,
            target,
            crate_name: krate,
            dependency_crate: dependency,
            source_path: source_path_of(symbol, fa, la),
            family_kind,
            family_key,
            size: symbol.size,
        },
    )
}

// ---------------------------------------------------------------------------
// Groups
// ---------------------------------------------------------------------------
/// The group of an attributed symbol under a grouping.
pub open spec fn rust_key(s: RustSummaryText, g: RustGroupBy) -> Option<Seq<char>> {
    match g {
        RustGroupBy::Package => s.package,
        RustGroupBy::Target => s.target,
        RustGroupBy::Crate => s.crate_name,
        RustGroupBy::Dependency => s.dependency_crate,
        RustGroupBy::Family => Some(s.family_key),
        RustGroupBy::Symbol => Some(s.display_name),
        RustGroupBy::SourceFile => s.source_path,
    }
}

/// Group and size of each attributed symbol.
pub open spec fn rust_items(symbols: Seq<RustSymbolSummary>, g: RustGroupBy) -> Seq<(Option<Seq<char>>, u64)> {
    symbols.map_values(|s: RustSymbolSummary| (rust_key(s@, g), s.size))
}

/// Sum of the sizes of attributed symbols.
pub open spec fn rust_size_sum(symbols: Seq<RustSymbolSummary>) -> int
    decreases symbols.len(),
{
    if symbols.len() == 0 {
        0
    } else {
        rust_size_sum(symbols.drop_last()) + symbols.last().size
    }
}

/// The ranking rows are exactly the groups.
pub open spec fn rust_rows_match(rows: Seq<RustAggregate>, t: Seq<Group>) -> bool {
    &&& rows.len() == t.len()
    &&& forall|i: int|
        0 <= i < t.len() ==> (#[trigger] rows[i]).name@ == t[i].0 && rows[i].size == t[i].1
            && rows[i].symbol_count == t[i].2
}

/// `out` ranks the groups of `symbols`: the twenty largest, largest first.
pub open spec fn is_rust_ranking(out: Seq<RustAggregate>, symbols: Seq<RustSymbolSummary>, g: RustGroupBy) -> bool {
    exists|rows: Seq<RustAggregate>|
        #[trigger] rust_rows_match(rows, group_totals(rust_items(symbols, g))) && out
            == crate::cpp::top20(sorted_by_key(rows))
}

proof fn lemma_rust_sizes(symbols: Seq<RustSymbolSummary>, g: RustGroupBy)
    ensures
        size_sum(rust_items(symbols, g)) == rust_size_sum(symbols),
    decreases symbols.len(),
{
    if symbols.len() > 0 {
        lemma_rust_sizes(symbols.drop_last(), g);
        assert(rust_items(symbols, g).drop_last() =~= rust_items(symbols.drop_last(), g));
    }
}

/// The group of an attributed symbol under a grouping.
fn group_key(s: &RustSymbolSummary, g: RustGroupBy) -> (r: Option<String>)
    ensures
        opt_text(r) == rust_key(s@, g),
{
    match g {
        RustGroupBy::Package => copy_opt_string(&s.package),
        RustGroupBy::Target => copy_opt_string(&s.target),
        RustGroupBy::Crate => copy_opt_string(&s.crate_name),
        RustGroupBy::Dependency => copy_opt_string(&s.dependency_crate),
        RustGroupBy::Family => Some(copy_string(&s.family_key)),
        RustGroupBy::Symbol => Some(copy_string(&s.display_name)),
        RustGroupBy::SourceFile => copy_opt_string(&s.source_path),
    }
}

/// Group and size of each attributed symbol.
fn rust_items_of(symbols: &Vec<RustSymbolSummary>, g: RustGroupBy) -> (out: Vec<(Option<String>, u64)>)
    ensures
        keyed_view(out@) == rust_items(symbols@, g),
{
    let mut out: Vec<(Option<String>, u64)> = Vec::new();
    let mut i: usize = 0;
    while i < symbols.len()
        invariant
            i <= symbols.len(),
            out@.len() == i,
            forall|j: int|
                0 <= j < i ==> opt_text((#[trigger] out@[j]).0) == rust_key(symbols@[j]@, g)
                    && out@[j].1 == symbols@[j].size,
        decreases symbols.len() - i,
    {
        let k = group_key(&symbols[i], g);
        out.push((k, symbols[i].size));
        i += 1;
    }
    assert(keyed_view(out@) =~= rust_items(symbols@, g)) by {
        assert forall|j: int| 0 <= j < out@.len() implies keyed_view(out@)[j] == rust_items(
            symbols@,
            g,
        )[j] by {
            assert(opt_text(out@[j].0) == rust_key(symbols@[j]@, g));
        }
    }
    out
}

/// The twenty largest groups, largest first.
fn aggregate_rust(symbols: &Vec<RustSymbolSummary>, g: RustGroupBy) -> (out: Vec<RustAggregate>)
    requires
        rust_size_sum(symbols@) <= u64::MAX,
    ensures
        is_rust_ranking(out@, symbols@, g),
{
    proof {
        lemma_rust_sizes(symbols@, g);
    }
    let items = rust_items_of(symbols, g);
    let groups = accumulate_groups(&items);
    let mut rows: Vec<RustAggregate> = Vec::new();
    let mut i: usize = 0;
    while i < groups.len()
        invariant
            i <= groups.len(),
            rows@.len() == i,
            forall|k: int|
                0 <= k < i ==> (#[trigger] rows@[k]).name == groups@[k].name && rows@[k].size
                    == groups@[k].size && rows@[k].symbol_count == groups@[k].count,
        decreases groups.len() - i,
    {
        rows.push(
            RustAggregate {
                name: copy_string(&groups[i].name),
                size: groups[i].size,
                symbol_count: groups[i].count,
            },
        );
        i += 1;
    }
    let ghost unsorted = rows@;
    assert(rust_rows_match(unsorted, group_totals(rust_items(symbols@, g))));
    let mut sorted = sort_by_key(rows);
    keep_first(&mut sorted, 20);
    assert(sorted@ == crate::cpp::top20(sorted_by_key(unsorted)));
    sorted
}

/// Size per group, ordered by group name.
pub fn aggregate_group_sizes(view: &RustView, group_by: RustGroupBy) -> (out: Vec<(String, u64)>)
    requires
        rust_size_sum(view.symbols@) <= u64::MAX,
    ensures
        exists|rows: Seq<GroupTotal>|
            {
                &&& rows_match(rows, group_totals(rust_items(view.symbols@, group_by)))
                &&& out@.len() == rows.len()
                &&& forall|i: int|
                    0 <= i < out@.len() ==> (#[trigger] out@[i]).0 == sorted_by_key(rows)[i].name
                        && out@[i].1 == sorted_by_key(rows)[i].size
            },
{
    proof {
        lemma_rust_sizes(view.symbols@, group_by);
    }
    let items = rust_items_of(&view.symbols, group_by);
    let groups = accumulate_groups(&items);
    let ghost rows = groups@;
    totals_by_name(groups)
}

/// The display names and sizes of the members of a group, in input order.
pub open spec fn rust_members_of(symbols: Seq<RustSymbolSummary>, g: RustGroupBy, name: Seq<char>) -> Seq<
    (String, u64),
>
    decreases symbols.len(),
{
    if symbols.len() == 0 {
        Seq::empty()
    } else {
        let rest = rust_members_of(symbols.drop_last(), g, name);
        if rust_key(symbols.last()@, g) == Some(name) {
            rest.push((symbols.last().display_name, symbols.last().size))
        } else {
            rest
        }
    }
}

/// The display names of the `limit` largest members of a group, largest first.
pub fn top_group_symbols(view: &RustView, group_by: RustGroupBy, name: &str, limit: usize) -> (out: Vec<
    String,
>)
    ensures
        ({
            let m = sorted_by_key(rust_members_of(view.symbols@, group_by, name@));
            &&& out@.len() == if m.len() < limit {
                m.len() as int
            } else {
                limit as int
            }
            &&& forall|i: int| 0 <= i < out@.len() ==> #[trigger] out@[i] == m[i].0
        }),
{
    let symbols = &view.symbols;
    let mut members: Vec<(String, u64)> = Vec::new();
    let mut i: usize = 0;
    while i < symbols.len()
        invariant
            i <= symbols.len(),
            symbols == &view.symbols,
            members@ == rust_members_of(symbols@.take(i as int), group_by, name@),
        decreases symbols.len() - i,
    {
        assert(symbols@.take(i + 1).drop_last() =~= symbols@.take(i as int));
        assert(symbols@.take(i + 1).last() == symbols@[i as int]);
        let k = group_key(&symbols[i], group_by);
        let hit = match &k {
            Some(x) => str_eq(x.as_str(), name),
            None => false,
        };
        if hit {
            members.push((copy_string(&symbols[i].display_name), symbols[i].size));
        }
        i += 1;
    }
    assert(symbols@.take(symbols.len() as int) =~= symbols@);
    top_names(members, limit)
}

// ---------------------------------------------------------------------------
// Families and the view
// ---------------------------------------------------------------------------
/// The first symbol of a family.
pub open spec fn first_of_family(c: Seq<RustSymbolSummary>, key: Seq<char>) -> Option<RustSymbolSummary>
    decreases c.len(),
{
    if c.len() == 0 {
        None
    } else if c[0].family_key@ == key {
        Some(c[0])
    } else {
        first_of_family(c.drop_first(), key)
    }
}

/// The family rows are exactly the families of `c`, each with the kind and
/// name of its first symbol.
pub open spec fn families_match(rows: Seq<RustFamilySummary>, c: Seq<RustSymbolSummary>) -> bool {
    let t = group_totals(rust_items(c, RustGroupBy::Family));
    &&& rows.len() == t.len()
    &&& forall|i: int|
        0 <= i < t.len() ==> {
            &&& (#[trigger] rows[i]).key@ == t[i].0
            &&& rows[i].size == t[i].1
            &&& rows[i].symbol_count == t[i].2
            &&& first_of_family(c, t[i].0) matches Some(f) && rows[i].kind == f.family_kind
                && rows[i].display_name == f.display_name
        }
}

/// `out` ranks the families of `c`: the twenty largest, largest first.
pub open spec fn is_family_ranking(out: Seq<RustFamilySummary>, c: Seq<RustSymbolSummary>) -> bool {
    exists|rows: Seq<RustFamilySummary>|
        #[trigger] families_match(rows, c) && out == crate::cpp::top20(sorted_by_key(rows))
}

/// The first symbol of the family `key`, which some symbol of `c` belongs to.
fn first_of_family_in(c: &Vec<RustSymbolSummary>, key: &String) -> (r: usize)
    requires
        exists|j: int| 0 <= j < c@.len() && #[trigger] c@[j].family_key@ == key@,
    ensures
        r < c@.len(),
        first_of_family(c@, key@) == Some(c@[r as int]),
{
    let mut m: usize = 0;
    assert(c@.skip(0) =~= c@);
    while m < c.len()
        invariant
            m <= c.len(),
            forall|t: int| 0 <= t < m ==> c@[t].family_key@ != key@,
            first_of_family(c@, key@) == first_of_family(c@.skip(m as int), key@),
        decreases c.len() - m,
    {
        assert(c@.skip(m as int)[0] == c@[m as int]);
        assert(c@.skip(m as int).drop_first() =~= c@.skip(m + 1));
        if str_eq(c[m].family_key.as_str(), key.as_str()) {
            return m;
        }
        m += 1;
    }
    let ghost j = choose|j: int| 0 <= j < c@.len() && #[trigger] c@[j].family_key@ == key@;
    assert(c@[j].family_key@ != key@);
    0
}

/// The twenty largest families, largest first.
fn aggregate_families(c: &Vec<RustSymbolSummary>) -> (out: Vec<RustFamilySummary>)
    requires
        rust_size_sum(c@) <= u64::MAX,
    ensures
        is_family_ranking(out@, c@),
{
    proof {
        lemma_rust_sizes(c@, RustGroupBy::Family);
    }
    let items = rust_items_of(c, RustGroupBy::Family);
    let groups = accumulate_groups(&items);
    let ghost t = group_totals(rust_items(c@, RustGroupBy::Family));
    proof {
        lemma_group_keys_present(rust_items(c@, RustGroupBy::Family));
    }
    let mut rows: Vec<RustFamilySummary> = Vec::new();
    let mut i: usize = 0;
    while i < groups.len()
        invariant
            i <= groups.len(),
            t == group_totals(rust_items(c@, RustGroupBy::Family)),
            rows_match(groups@, t),
            forall|k: int|
                #![trigger t[k]]
                0 <= k < t.len() ==> exists|j: int|
                    0 <= j < c@.len() && #[trigger] rust_items(c@, RustGroupBy::Family)[j].0 == Some(
                        t[k].0,
                    ),
            rows@.len() == i,
            forall|k: int|
                0 <= k < i ==> {
                    &&& (#[trigger] rows@[k]).key@ == t[k].0
                    &&& rows@[k].size == t[k].1
                    &&& rows@[k].symbol_count == t[k].2
                    &&& first_of_family(c@, t[k].0) matches Some(f) && rows@[k].kind == f.family_kind
                        && rows@[k].display_name == f.display_name
                },
        decreases groups.len() - i,
    {
        assert(t[i as int].0 == groups@[i as int].name@);
        let ghost j = choose|j: int|
            0 <= j < c@.len() && #[trigger] rust_items(c@, RustGroupBy::Family)[j].0 == Some(
                t[i as int].0,
            );
        assert(c@[j].family_key@ == groups@[i as int].name@);
        let m = first_of_family_in(c, &groups[i].name);
        rows.push(
            RustFamilySummary {
                kind: c[m].family_kind,
                key: copy_string(&groups[i].name),
                display_name: copy_string(&c[m].display_name),
                size: groups[i].size,
                symbol_count: groups[i].count,
            },
        );
        i += 1;
    }
    let ghost unsorted = rows@;
    assert(families_match(unsorted, c@));
    let mut sorted = sort_by_key(rows);
    keep_first(&mut sorted, 20);
    assert(sorted@ == crate::cpp::top20(sorted_by_key(unsorted)));
    sorted
}

/// The attributions of the Rust symbols among `symbols`, in order.
pub open spec fn rust_texts(
    symbols: Seq<SymbolInfo>,
    ctx: Option<RustContext>,
    fa: Seq<FunctionAttribution>,
    la: Seq<LineAttribution>,
) -> Seq<RustSummaryText>
    decreases symbols.len(),
{
    if symbols.len() == 0 {
        Seq::empty()
    } else {
        let rest = rust_texts(symbols.drop_last(), ctx, fa, la);
        match classify_rust_spec(symbols.last(), ctx, fa, la) {
            Some(c) => rest.push(c),
            None => rest,
        }
    }
}

/// The views of attributed symbols.
pub open spec fn rust_summary_texts(c: Seq<RustSymbolSummary>) -> Seq<RustSummaryText> {
    c.map_values(|x: RustSymbolSummary| x@)
}

/// The Rust view of a symbol table, when it has Rust symbols: the symbols
/// attributed and ranked by size, the twenty largest packages, targets,
/// crates, dependency crates, source files and families, and the total size.
pub fn build_rust_view(
    symbols: &Vec<SymbolInfo>,
    context: Option<&RustContext>,
    function_attributions: &Vec<FunctionAttribution>,
    line_attributions: &Vec<LineAttribution>,
) -> (out: Option<RustView>)
    requires
        crate::cpp::symbol_size_sum(symbols@) <= u64::MAX,
    ensures
        ({
            let ctx = match context {
                Some(c) => Some(*c),
                None => None,
            };
            let texts = rust_texts(symbols@, ctx, function_attributions@, line_attributions@);
            match out {
                None => texts.len() == 0,
                Some(v) => exists|c: Seq<RustSymbolSummary>|
                    {
                        &&& #[trigger] rust_summary_texts(c) == texts
                        &&& c.len() > 0
                        &&& v.symbols@ == sorted_by_key(c)
                        &&& v.total_rust_size == rust_size_sum(c)
                        &&& opt_text(v.workspace) == match ctx {
                            Some(x) => opt_text(x.workspace_root),
                            None => None,
                        }
                        &&& is_rust_ranking(v.packages@, c, RustGroupBy::Package)
                        &&& is_rust_ranking(v.targets@, c, RustGroupBy::Target)
                        &&& is_rust_ranking(v.crates@, c, RustGroupBy::Crate)
                        &&& is_rust_ranking(v.dependency_crates@, c, RustGroupBy::Dependency)
                        &&& is_rust_ranking(v.source_files@, c, RustGroupBy::SourceFile)
                        &&& is_family_ranking(v.grouped_families@, c)
                    },
            }
        }),
{
    let ghost ctx = match context {
        Some(c) => Some(*c),
        None => None,
    };
    let mut classified: Vec<RustSymbolSummary> = Vec::new();
    let mut total: u64 = 0;
    let mut i: usize = 0;
    while i < symbols.len()
        invariant
            i <= symbols.len(),
            ctx == match context {
                Some(c) => Some(*c),
                None => None,
            },
            rust_summary_texts(classified@) == rust_texts(
                symbols@.take(i as int),
                ctx,
                function_attributions@,
                line_attributions@,
            ),
            rust_size_sum(classified@) <= crate::cpp::symbol_size_sum(symbols@.take(i as int)),
            total == rust_size_sum(classified@),
            crate::cpp::symbol_size_sum(symbols@) <= u64::MAX,
        decreases symbols.len() - i,
    {
        assert(symbols@.take(i + 1).drop_last() =~= symbols@.take(i as int));
        assert(symbols@.take(i + 1).last() == symbols@[i as int]);
        proof {
            crate::cpp::lemma_symbol_sum_prefix(symbols@, i + 1);
        }
        match classify_rust_symbol(&symbols[i], context, function_attributions, line_attributions) {
            Some(c) => {
                let ghost before = classified@;
                total = total + c.size;
                classified.push(c);
                assert(classified@.drop_last() =~= before);
                assert(rust_summary_texts(classified@) =~= rust_summary_texts(before).push(c@));
            },
            None => {},
        }
        i += 1;
    }
    assert(symbols@.take(symbols.len() as int) =~= symbols@);
    if classified.len() == 0 {
        assert(rust_summary_texts(classified@).len() == 0);
        return None;
    }
    let ghost c = classified@;
    let packages = aggregate_rust(&classified, RustGroupBy::Package);
    let targets = aggregate_rust(&classified, RustGroupBy::Target);
    let crates = aggregate_rust(&classified, RustGroupBy::Crate);
    let dependency_crates = aggregate_rust(&classified, RustGroupBy::Dependency);
    let source_files = aggregate_rust(&classified, RustGroupBy::SourceFile);
    let grouped_families = aggregate_families(&classified);
    let workspace = match context {
        Some(x) => copy_opt_string(&x.workspace_root),
        None => None,
    };
    let view = RustView {
        workspace,
        packages,
        targets,
        crates,
        dependency_crates,
        source_files,
        grouped_families,
        symbols: sort_by_key(classified),
        total_rust_size: total,
    };
    assert(rust_summary_texts(c) == rust_texts(symbols@, ctx, function_attributions@, line_attributions@));
    Some(view)
}

} // verus!
