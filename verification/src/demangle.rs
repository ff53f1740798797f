//! Demangling of symbol names for reports.
//!
//! The Itanium C++ demangler covers the subset that firmware reports need:
//! nested names, template arguments, substitutions, pointer/reference/const
//! qualifiers and the common builtin types.  Rust legacy symbols (which use
//! the Itanium scheme with a trailing hash component) are rendered as
//! `path [hash]`, and Rust v0 symbols made of crate roots and nested paths are
//! rendered as `crate::path`.
//!
//! The specification is a recursive-descent parser over the characters of
//! the name.  Every spec parser takes the position and the substitution table
//! and returns the position and table after the attempt together with the
//! parsed text (or `None`), because a failed attempt may already have
//! consumed input.
use vstd::prelude::*;

use crate::model::{DemangleMode, SymbolInfo};
use crate::text::{
    opt_text,
    char_is_digit, char_is_hex_digit, chars_eq, chars_of, chars_split_all, chars_split_once,
    chars_starts_with, contains_seq, copy_chars, find_from, find_seq, is_digit, occurs_at, is_hex_digit, is_prefix, join, join_chars, push_all,
    slice_chars, split_all, split_once_seq, string_of, views,
};

verus! {

// ---------------------------------------------------------------------------
// Literal texts
// ---------------------------------------------------------------------------
/// `_Z`
pub open spec fn itanium_prefix() -> Seq<char> {
    seq!['_', 'Z']
}

/// `_R`
pub open spec fn rust_v0_prefix() -> Seq<char> {
    seq!['_', 'R']
}

/// `.llvm.`
pub open spec fn llvm_marker() -> Seq<char> {
    seq!['.', 'l', 'l', 'v', 'm', '.']
}

/// `::`
pub open spec fn path_sep() -> Seq<char> {
    seq![':', ':']
}

/// `, `
pub open spec fn arg_sep() -> Seq<char> {
    seq![',', ' ']
}

/// `_GLOBAL__N_1`, the source name of an anonymous namespace.
pub open spec fn anon_ns_tag() -> Seq<char> {
    seq!['_', 'G', 'L', 'O', 'B', 'A', 'L', '_', '_', 'N', '_', '1']
}

/// `(anonymous namespace)`
pub open spec fn anon_ns_text() -> Seq<char> {
    seq![
        '(',
        'a',
        'n',
        'o',
        'n',
        'y',
        'm',
        'o',
        'u',
        's',
        ' ',
        'n',
        'a',
        'm',
        'e',
        's',
        'p',
        'a',
        'c',
        'e',
        ')',
    ]
}

/// `const `
pub open spec fn const_text() -> Seq<char> {
    seq!['c', 'o', 'n', 's', 't', ' ']
}

/// `void`
pub open spec fn void_text() -> Seq<char> {
    seq!['v', 'o', 'i', 'd']
}

/// `()`
pub open spec fn empty_params() -> Seq<char> {
    seq!['(', ')']
}

/// The name of a builtin type code, if `c` is one.
pub open spec fn builtin_type(c: char) -> Option<Seq<char>> {
    if c == 'v' {
        Some(void_text())
    } else if c == 'b' {
        Some(seq!['b', 'o', 'o', 'l'])
    } else if c == 'c' {
        Some(seq!['c', 'h', 'a', 'r'])
    } else if c == 'i' {
        Some(seq!['i', 'n', 't'])
    } else if c == 'j' {
        Some(seq!['u', 'n', 's', 'i', 'g', 'n', 'e', 'd', ' ', 'i', 'n', 't'])
    } else if c == 'l' {
        Some(seq!['l', 'o', 'n', 'g'])
    } else if c == 'm' {
        Some(seq!['u', 'n', 's', 'i', 'g', 'n', 'e', 'd', ' ', 'l', 'o', 'n', 'g'])
    } else {
        None
    }
}

// ---------------------------------------------------------------------------
// Lexical specifications
// ---------------------------------------------------------------------------
/// The character at `pos`, if any.
pub open spec fn peek(inp: Seq<char>, pos: int) -> Option<char> {
    if 0 <= pos < inp.len() {
        Some(inp[pos])
    } else {
        None
    }
}

/// The character at `pos` is `c`.
pub open spec fn peek_is(inp: Seq<char>, pos: int, c: char) -> bool {
    peek(inp, pos) == Some(c)
}

/// Input left from `pos`, used as the termination measure of the parsers.
pub open spec fn rem(inp: Seq<char>, pos: int) -> nat {
    if pos < inp.len() {
        (inp.len() - pos) as nat
    } else {
        0
    }
}

/// End of the run of decimal digits that starts at `pos`.
pub open spec fn digits_end(inp: Seq<char>, pos: int) -> int
    decreases rem(inp, pos),
{
    if 0 <= pos < inp.len() && is_digit(inp[pos]) {
        digits_end(inp, pos + 1)
    } else {
        pos
    }
}

/// Value of a decimal digit character.
pub open spec fn digit_value(c: char) -> nat {
    ((c as int) - ('0' as int)) as nat
}

/// Value of a run of decimal digits.
pub open spec fn dec_value(ds: Seq<char>) -> nat
    decreases ds.len(),
{
    if ds.len() == 0 {
        0
    } else {
        dec_value(ds.drop_last()) * 10 + digit_value(ds.last())
    }
}

/// A decimal number at `pos`: the position after its digits, and its value
/// when there are digits and the value fits in `usize` (`str::parse::<usize>`).
pub open spec fn parse_number(inp: Seq<char>, pos: int) -> (int, Option<nat>) {
    let e = digits_end(inp, pos);
    if e == pos {
        (pos, None)
    } else {
        let v = dec_value(inp.subrange(pos, e));
        (e, if v <= usize::MAX {
            Some(v)
        } else {
            None
        })
    }
}

/// Number of UTF-8 bytes of a character.
pub open spec fn utf8_len(c: char) -> nat {
    if '\u{80}' > c {
        1
    } else if '\u{800}' > c {
        2
    } else if '\u{10000}' > c {
        3
    } else {
        4
    }
}

/// The character index reached after exactly `n` UTF-8 bytes from `pos`,
/// if `n` bytes end on a character boundary inside the input.
pub open spec fn take_bytes(inp: Seq<char>, pos: int, n: nat) -> Option<int>
    decreases n,
{
    if n == 0 {
        Some(pos)
    } else if pos < 0 || pos >= inp.len() {
        None
    } else if utf8_len(inp[pos]) > n {
        None
    } else {
        take_bytes(inp, pos + 1, (n - utf8_len(inp[pos])) as nat)
    }
}

/// An Itanium `<source-name>`: a byte length followed by that many bytes.
pub open spec fn parse_source_name(inp: Seq<char>, pos: int) -> (int, Option<Seq<char>>) {
    let (p1, n) = parse_number(inp, pos);
    match n {
        None => (p1, None),
        Some(len) => if is_prefix(anon_ns_tag(), inp.skip(p1)) && len == 12 {
            (p1 + 12, Some(anon_ns_text()))
        } else {
            match take_bytes(inp, p1, len) {
                None => (p1, None),
                Some(e) => (e, Some(inp.subrange(p1, e))),
            }
        },
    }
}

/// First index `>= i` holding `_`, or the end of the input.
pub open spec fn underscore_from(inp: Seq<char>, i: int) -> int
    decreases rem(inp, i),
{
    if 0 <= i < inp.len() && inp[i] != '_' {
        underscore_from(inp, i + 1)
    } else {
        i
    }
}

/// Value of a base-36 digit (either case).
pub open spec fn base36_digit(c: char) -> Option<nat> {
    if '0' <= c <= '9' {
        Some(((c as int) - ('0' as int)) as nat)
    } else if 'a' <= c <= 'z' {
        Some(((c as int) - ('a' as int) + 10) as nat)
    } else if 'A' <= c <= 'Z' {
        Some(((c as int) - ('A' as int) + 10) as nat)
    } else {
        None
    }
}

/// Value of a run of base-36 digits, if all of them are digits.
pub open spec fn base36_value(ds: Seq<char>) -> Option<nat>
    decreases ds.len(),
{
    if ds.len() == 0 {
        Some(0)
    } else {
        match (base36_value(ds.drop_last()), base36_digit(ds.last())) {
            (Some(v), Some(d)) => Some(v * 36 + d),
            _ => None,
        }
    }
}

/// `usize::from_str_radix(text, 36)`: an optional `+`, at least one digit, no overflow.
pub open spec fn parse_radix36(text: Seq<char>) -> Option<nat> {
    let ds = if text.len() > 0 && text[0] == '+' {
        text.drop_first()
    } else {
        text
    };
    if ds.len() == 0 {
        None
    } else {
        match base36_value(ds) {
            Some(v) => if v <= usize::MAX {
                Some(v)
            } else {
                None
            },
            None => None,
        }
    }
}

/// An Itanium substitution `S_` or `S<seq-id>_`, looked up in the table.
pub open spec fn parse_substitution(inp: Seq<char>, pos: int, subs: Seq<Seq<char>>) -> (
    int,
    Option<Seq<char>>,
) {
    if !peek_is(inp, pos, 'S') {
        (pos, None)
    } else if peek_is(inp, pos + 1, '_') {
        (pos + 2, if subs.len() > 0 {
            Some(subs[0])
        } else {
            None
        })
    } else {
        let q = underscore_from(inp, pos + 1);
        if !peek_is(inp, q, '_') {
            (q, None)
        } else {
            match parse_radix36(inp.subrange(pos + 1, q)) {
                None => (q + 1, None),
                Some(v) => {
                    let index = if v + 1 > usize::MAX {
                        usize::MAX as int
                    } else {
                        (v + 1) as int
                    };
                    (q + 1, if index < subs.len() {
                        Some(subs[index])
                    } else {
                        None
                    })
                },
            }
        }
    }
}

// ---------------------------------------------------------------------------
// Grammar specifications
// ---------------------------------------------------------------------------
/// State after a parse attempt: position, substitution table, parsed text.
pub type Parsed = (int, Seq<Seq<char>>, Option<Seq<char>>);

/// State after a parse of a list.
pub type ParsedList = (int, Seq<Seq<char>>, Option<Seq<Seq<char>>>);

/// An Itanium `<type>`.
pub open spec fn parse_type(inp: Seq<char>, pos: int, subs: Seq<Seq<char>>) -> Parsed
    decreases rem(inp, pos), 1nat,
{
    match peek(inp, pos) {
        None => (pos, subs, None),
        Some(c) => if c == 'P' || c == 'R' || c == 'K' {
            let r = parse_type(inp, pos + 1, subs);
            (
                r.0,
                r.1,
                match r.2 {
                    Some(t) => Some(
                        if c == 'P' {
                            t.push('*')
                        } else if c == 'R' {
                            t.push('&')
                        } else {
                            const_text() + t
                        },
                    ),
                    None => None,
                },
            )
        } else if c == 'S' {
            let r = parse_substitution(inp, pos, subs);
            (r.0, subs, r.1)
        } else if c == 'N' {
            let r = parse_nested(inp, pos + 1, subs, Seq::empty());
            match r.2 {
                None => (r.0, r.1, None),
                Some(parts) => if peek_is(inp, r.0, 'E') {
                    let name = join(parts, path_sep());
                    (r.0 + 1, r.1.push(name), Some(name))
                } else {
                    (r.0, r.1, None)
                },
            }
        } else if is_digit(c) {
            parse_component(inp, pos, subs)
        } else {
            match builtin_type(c) {
                Some(t) => (pos + 1, subs, Some(t)),
                None => (pos, subs, None),
            }
        },
    }
}

/// The leading name of a component: a substitution or a source name.
pub open spec fn parse_component_head(inp: Seq<char>, pos: int, subs: Seq<Seq<char>>) -> (
    int,
    Option<Seq<char>>,
) {
    match peek(inp, pos) {
        Some(c) => if c == 'S' {
            parse_substitution(inp, pos, subs)
        } else if is_digit(c) {
            parse_source_name(inp, pos)
        } else {
            (pos, None)
        },
        None => (pos, None),
    }
}

/// An Itanium name component, with optional template arguments; the
/// component is added to the substitution table.
pub open spec fn parse_component(inp: Seq<char>, pos: int, subs: Seq<Seq<char>>) -> Parsed
    decreases rem(inp, pos), 0nat,
{
    let head = parse_component_head(inp, pos, subs);
    match head.1 {
        None => (head.0, subs, None),
        Some(name) => if peek_is(inp, head.0, 'I') {
            if head.0 < pos {
                (head.0, subs, None)
            } else {
                let r = parse_template_args(inp, head.0 + 1, subs, Seq::empty());
                match r.2 {
                    None => (r.0, r.1, None),
                    Some(args) => if peek_is(inp, r.0, 'E') {
                        let full = name + seq!['<'] + join(args, arg_sep()) + seq!['>'];
                        (r.0 + 1, r.1.push(full), Some(full))
                    } else {
                        (r.0, r.1, None)
                    },
                }
            }
        } else {
            (head.0, subs.push(name), Some(name))
        },
    }
}

/// Template arguments up to (not including) the closing `E`.
pub open spec fn parse_template_args(
    inp: Seq<char>,
    pos: int,
    subs: Seq<Seq<char>>,
    acc: Seq<Seq<char>>,
) -> ParsedList
    decreases rem(inp, pos), 2nat,
{
    if peek_is(inp, pos, 'E') {
        (pos, subs, Some(acc))
    } else {
        let r = parse_type(inp, pos, subs);
        match r.2 {
            None => (r.0, r.1, None),
            Some(t) => if r.0 <= pos || pos >= inp.len() {
                (r.0, r.1, None)
            } else {
                parse_template_args(inp, r.0, r.1, acc.push(t))
            },
        }
    }
}

/// Components of a nested name up to (not including) the closing `E`.
pub open spec fn parse_nested(
    inp: Seq<char>,
    pos: int,
    subs: Seq<Seq<char>>,
    acc: Seq<Seq<char>>,
) -> ParsedList
    decreases rem(inp, pos), 1nat,
{
    if peek_is(inp, pos, 'E') {
        (pos, subs, Some(acc))
    } else {
        let r = parse_component(inp, pos, subs);
        match r.2 {
            None => (r.0, r.1, None),
            Some(n) => if r.0 <= pos || pos >= inp.len() {
                (r.0, r.1, None)
            } else {
                parse_nested(inp, r.0, r.1, acc.push(n))
            },
        }
    }
}

/// Parameter list text of the parsed argument types.
pub open spec fn params_text(args: Seq<Seq<char>>) -> Seq<char> {
    if args.len() == 0 {
        Seq::empty()
    } else {
        seq!['('] + join(args, arg_sep()) + seq![')']
    }
}

/// Parameter types after the name, until input ends or a type does not parse.
pub open spec fn parse_params(
    inp: Seq<char>,
    pos: int,
    subs: Seq<Seq<char>>,
    start: int,
    args: Seq<Seq<char>>,
) -> (int, Seq<Seq<char>>, Seq<char>)
    decreases rem(inp, pos),
{
    if pos >= inp.len() {
        (pos, subs, params_text(args))
    } else {
        let r = parse_type(inp, pos, subs);
        match r.2 {
            None => (r.0, r.1, params_text(args)),
            Some(arg) => if arg == void_text() && r.0 == start + 1 {
                (r.0, r.1, empty_params())
            } else if r.0 <= pos {
                (r.0, r.1, params_text(args.push(arg)))
            } else {
                parse_params(inp, r.0, r.1, start, args.push(arg))
            },
        }
    }
}

/// The function signature suffix: empty, `()` for a lone `v`, or the parameter list.
pub open spec fn parse_function_suffix(inp: Seq<char>, pos: int, subs: Seq<Seq<char>>) -> (
    int,
    Seq<Seq<char>>,
    Seq<char>,
) {
    if pos >= inp.len() {
        (pos, subs, Seq::empty())
    } else if inp.skip(pos) == seq!['v'] {
        (pos + 1, subs, empty_params())
    } else {
        parse_params(inp, pos, subs, pos, Seq::empty())
    }
}

/// The Itanium demangling of `name`, when all of it parses.
pub open spec fn demangle_itanium(name: Seq<char>) -> Option<Seq<char>> {
    if !is_prefix(itanium_prefix(), name) {
        None
    } else {
        let inp = name.skip(2);
        let head: ParsedList = if peek_is(inp, 0, 'N') {
            let r = parse_nested(inp, 1, Seq::empty(), Seq::empty());
            match r.2 {
                Some(parts) => if peek_is(inp, r.0, 'E') {
                    (r.0 + 1, r.1, Some(parts))
                } else {
                    (r.0, r.1, None)
                },
                None => (r.0, r.1, None),
            }
        } else {
            let r = parse_component(inp, 0, Seq::empty());
            (
                r.0,
                r.1,
                match r.2 {
                    Some(n) => Some(seq![n]),
                    None => None,
                },
            )
        };
        match head.2 {
            None => None,
            Some(path) => {
                let f = parse_function_suffix(inp, head.0, head.1);
                if f.0 < inp.len() {
                    None
                } else {
                    Some(join(path, path_sep()) + f.2)
                }
            },
        }
    }
}

// ---------------------------------------------------------------------------
// Rust specifications
// ---------------------------------------------------------------------------
/// Parts of `s` split at every `::`, scanning from the left (`str::split("::")`).
pub open spec fn split_path(s: Seq<char>) -> Seq<Seq<char>> {
    split_all(s, path_sep())
}

/// A Rust legacy hash component: `h` followed by sixteen hex digits.
pub open spec fn is_rust_hash(s: Seq<char>) -> bool {
    s.len() == 17 && s[0] == 'h' && forall|i: int| 1 <= i < 17 ==> is_hex_digit(#[trigger] s[i])
}

/// A trailing Rust legacy hash component rendered as `path [hash]`.
pub open spec fn clean_rust_legacy(value: Seq<char>) -> Seq<char> {
    let parts = split_path(value);
    if parts.len() > 1 && is_rust_hash(parts.last()) {
        join(parts.drop_last(), path_sep()) + seq![' ', '['] + parts.last() + seq![']']
    } else {
        value
    }
}

/// `name` without an LLVM `.llvm.<n>` suffix.
pub open spec fn strip_llvm_suffix(name: Seq<char>) -> Seq<char> {
    match split_once_seq(name, llvm_marker()) {
        Some((base, _)) => base,
        None => name,
    }
}

/// A base-62 digit of the v0 scheme.
pub open spec fn is_base62_digit(c: char) -> bool {
    ('0' <= c <= '9') || ('a' <= c <= 'z') || ('A' <= c <= 'Z')
}

/// End of the run of base-62 digits that starts at `pos`.
pub open spec fn base62_end(inp: Seq<char>, pos: int) -> int
    decreases rem(inp, pos),
{
    if 0 <= pos < inp.len() && is_base62_digit(inp[pos]) {
        base62_end(inp, pos + 1)
    } else {
        pos
    }
}

/// A v0 `<base-62-number>` (base-62 digits closed by `_`): the position after it.
pub open spec fn skip_base62(inp: Seq<char>, pos: int) -> Option<int> {
    let e = base62_end(inp, pos);
    if peek_is(inp, e, '_') {
        Some(e + 1)
    } else {
        None
    }
}

/// A v0 `<identifier>`: optional `s` disambiguator, decimal byte length,
/// optional `_` separator, then the bytes.  Punycode identifiers are not handled.
pub open spec fn parse_v0_ident(inp: Seq<char>, pos: int) -> Option<(int, Seq<char>)> {
    let d = if peek_is(inp, pos, 's') {
        skip_base62(inp, pos + 1)
    } else {
        Some(pos)
    };
    match d {
        None => None,
        Some(p0) => if peek_is(inp, p0, 'u') {
            None
        } else {
            let (p1, n) = parse_number(inp, p0);
            match n {
                None => None,
                Some(len) => {
                    let p2 = if peek_is(inp, p1, '_') {
                        p1 + 1
                    } else {
                        p1
                    };
                    match take_bytes(inp, p2, len) {
                        None => None,
                        Some(e) => Some((e, inp.subrange(p2, e))),
                    }
                },
            }
        },
    }
}

/// Name shown for a special (upper-case) v0 namespace.
pub open spec fn v0_namespace_name(ns: char) -> Seq<char> {
    if ns == 'C' {
        seq!['c', 'l', 'o', 's', 'u', 'r', 'e']
    } else if ns == 'S' {
        seq!['s', 'h', 'i', 'm']
    } else {
        seq![ns]
    }
}

/// Text of a path element in a special namespace: `{closure}`, `{shim:name}`.
pub open spec fn v0_special_text(ns: char, name: Seq<char>) -> Seq<char> {
    seq!['{'] + v0_namespace_name(ns) + (if name.len() > 0 {
        seq![':'] + name
    } else {
        Seq::empty()
    }) + seq!['}']
}

/// An ASCII letter.
pub open spec fn is_alpha(c: char) -> bool {
    ('a' <= c <= 'z') || ('A' <= c <= 'Z')
}

/// A v0 path made of a crate root (`C`) and nested paths (`N`): the position
/// after it and its text.
pub open spec fn parse_v0_path(inp: Seq<char>, pos: int) -> Option<(int, Seq<char>)>
    decreases rem(inp, pos),
{
    match peek(inp, pos) {
        None => None,
        Some(c) => if c == 'C' {
            parse_v0_ident(inp, pos + 1)
        } else if c == 'N' {
            match peek(inp, pos + 1) {
                None => None,
                Some(ns) => if !is_alpha(ns) {
                    None
                } else {
                    match parse_v0_path(inp, pos + 2) {
                        None => None,
                        Some((p, prefix)) => match parse_v0_ident(inp, p) {
                            None => None,
                            Some((e, name)) => Some(
                                (
                                    e,
                                    prefix + path_sep() + if 'a' <= ns <= 'z' {
                                        name
                                    } else {
                                        v0_special_text(ns, name)
                                    },
                                ),
                            ),
                        },
                    }
                },
            }
        } else {
            None
        },
    }
}

/// The Rust v0 demangling of `name`: `_R`, a path, and optionally the
/// instantiating crate's path, with nothing left over.
pub open spec fn demangle_v0(name: Seq<char>) -> Option<Seq<char>> {
    if !is_prefix(rust_v0_prefix(), name) {
        None
    } else {
        let inp = name.skip(2);
        match parse_v0_path(inp, 0) {
            None => None,
            Some((p, path)) => if p == inp.len() {
                Some(path)
            } else {
                match parse_v0_path(inp, p) {
                    Some((q, _)) => if q == inp.len() {
                        Some(path)
                    } else {
                        None
                    },
                    None => None,
                }
            },
        }
    }
}

/// What `demangle_symbol` returns: nothing when demangling is off; in auto
/// mode only names starting with `_Z` are tried; Itanium names are rendered
/// with Rust legacy hashes cleaned up; in forced mode Rust v0 names are tried
/// when the Itanium parse fails.
pub open spec fn demangle_spec(name: Seq<char>, mode: DemangleMode) -> Option<Seq<char>> {
    if mode == DemangleMode::Off {
        None
    } else {
        let normalized = strip_llvm_suffix(name);
        if mode != DemangleMode::On && !is_prefix(itanium_prefix(), normalized) {
            None
        } else {
            match demangle_itanium(normalized) {
                Some(v) => Some(clean_rust_legacy(v)),
                None => if mode == DemangleMode::On {
                    demangle_v0(normalized)
                } else {
                    None
                },
            }
        }
    }
}

// ---------------------------------------------------------------------------
// Lemmas
// ---------------------------------------------------------------------------
/// Digit runs only move forward.
pub proof fn lemma_digits_end(inp: Seq<char>, pos: int)
    requires
        0 <= pos <= inp.len(),
    ensures
        pos <= digits_end(inp, pos) <= inp.len(),
        forall|k: int| pos <= k < digits_end(inp, pos) ==> is_digit(inp[k]),
        digits_end(inp, pos) < inp.len() ==> !is_digit(inp[digits_end(inp, pos)]),
    decreases rem(inp, pos),
{
    if pos < inp.len() && is_digit(inp[pos]) {
        lemma_digits_end(inp, pos + 1);
    }
}

/// Base-62 runs only move forward.
pub proof fn lemma_base62_end(inp: Seq<char>, pos: int)
    requires
        0 <= pos <= inp.len(),
    ensures
        pos <= base62_end(inp, pos) <= inp.len(),
    decreases rem(inp, pos),
{
    if pos < inp.len() && is_base62_digit(inp[pos]) {
        lemma_base62_end(inp, pos + 1);
    }
}

/// Scanning for `_` only moves forward.
pub proof fn lemma_underscore_from(inp: Seq<char>, i: int)
    requires
        0 <= i <= inp.len(),
    ensures
        i <= underscore_from(inp, i) <= inp.len(),
        forall|k: int| i <= k < underscore_from(inp, i) ==> inp[k] != '_',
        underscore_from(inp, i) < inp.len() ==> inp[underscore_from(inp, i)] == '_',
    decreases rem(inp, i),
{
    if i < inp.len() && inp[i] != '_' {
        lemma_underscore_from(inp, i + 1);
    }
}

/// Taking bytes only moves forward and stays inside the input.
pub proof fn lemma_take_bytes(inp: Seq<char>, pos: int, n: nat)
    requires
        0 <= pos <= inp.len(),
    ensures
        take_bytes(inp, pos, n) matches Some(e) ==> pos <= e <= inp.len(),
    decreases n,
{
    if n > 0 && pos < inp.len() && utf8_len(inp[pos]) <= n {
        lemma_take_bytes(inp, pos + 1, (n - utf8_len(inp[pos])) as nat);
    }
}

/// A larger prefix of a digit run has at least the value of a smaller one.
pub proof fn lemma_dec_value_grows(ds: Seq<char>, k: int)
    requires
        0 <= k <= ds.len(),
        forall|i: int| 0 <= i < ds.len() ==> is_digit(#[trigger] ds[i]),
    ensures
        dec_value(ds.take(k)) <= dec_value(ds),
    decreases ds.len(),
{
    if k < ds.len() {
        assert(ds.drop_last().take(k) =~= ds.take(k));
        lemma_dec_value_grows(ds.drop_last(), k);
    } else {
        assert(ds.take(k) =~= ds);
    }
}

/// A larger prefix of a base-36 run has at least the value of a smaller one.
pub proof fn lemma_base36_value_grows(ds: Seq<char>, k: int)
    requires
        0 <= k <= ds.len(),
        base36_value(ds.take(k)) is Some,
    ensures
        base36_value(ds) matches Some(v) ==> base36_value(ds.take(k))->0 <= v,
    decreases ds.len(),
{
    if k < ds.len() {
        assert(ds.drop_last().take(k) =~= ds.take(k));
        lemma_base36_value_grows(ds.drop_last(), k);
    } else {
        assert(ds.take(k) =~= ds);
    }
}

// ---------------------------------------------------------------------------
// Executable parser
// ---------------------------------------------------------------------------
/// Optional text of an optional buffer.
pub open spec fn opt_view(o: Option<Vec<char>>) -> Option<Seq<char>> {
    match o {
        Some(v) => Some(v@),
        None => None,
    }
}

/// Optional texts of an optional list of buffers.
pub open spec fn opt_views(o: Option<Vec<Vec<char>>>) -> Option<Seq<Seq<char>>> {
    match o {
        Some(v) => Some(views(v@)),
        None => None,
    }
}

struct ItaniumParser {
    input: Vec<char>,
    offset: usize,
    substitutions: Vec<Vec<char>>,
}

impl ItaniumParser {
    spec fn inp(&self) -> Seq<char> {
        self.input@
    }

    spec fn subs(&self) -> Seq<Seq<char>> {
        views(self.substitutions@)
    }

    spec fn wf(&self) -> bool {
        self.offset <= self.input.len()
    }

    fn new(input: Vec<char>) -> (p: Self)
        ensures
            p.inp() == input@,
            p.offset == 0,
            p.subs() == Seq::<Seq<char>>::empty(),
            p.wf(),
    {
        let p = ItaniumParser { input, offset: 0, substitutions: Vec::new() };
        assert(p.subs() =~= Seq::<Seq<char>>::empty());
        p
    }

    fn peek_char(&self) -> (r: Option<char>)
        ensures
            r == peek(self.inp(), self.offset as int),
    {
        if self.offset < self.input.len() {
            Some(self.input[self.offset])
        } else {
            None
        }
    }

    fn peek_is(&self, c: char) -> (r: bool)
        ensures
            r == peek_is(self.inp(), self.offset as int, c),
    {
        match self.peek_char() {
            Some(x) => x == c,
            None => false,
        }
    }

    fn consume(&mut self, c: char) -> (r: bool)
        requires
            old(self).wf(),
        ensures
            final(self).wf(),
            final(self).input == old(self).input,
            final(self).substitutions == old(self).substitutions,
            r == peek_is(old(self).inp(), old(self).offset as int, c),
            final(self).offset == if r {
                old(self).offset + 1
            } else {
                old(self).offset as int
            },
    {
        if self.peek_is(c) {
            self.offset += 1;
            true
        } else {
            false
        }
    }

    fn is_done(&self) -> (r: bool)
        ensures
            r == (self.offset >= self.input.len()),
    {
        self.offset >= self.input.len()
    }

    fn parse_source_name(&mut self) -> (r: Option<Vec<char>>)
        requires
            old(self).wf(),
        ensures
            final(self).wf(),
            final(self).input == old(self).input,
            final(self).substitutions == old(self).substitutions,
            (final(self).offset as int, opt_view(r)) == parse_source_name(
                old(self).inp(),
                old(self).offset as int,
            ),
    {
        let (e, r) = source_name_at(&self.input, self.offset);
        self.offset = e;
        r
    }

    fn parse_substitution(&mut self) -> (r: Option<Vec<char>>)
        requires
            old(self).wf(),
        ensures
            final(self).wf(),
            final(self).input == old(self).input,
            final(self).substitutions == old(self).substitutions,
            (final(self).offset as int, opt_view(r)) == parse_substitution(
                old(self).inp(),
                old(self).offset as int,
                old(self).subs(),
            ),
    {
        let ghost inp = self.inp();
        if !self.consume('S') {
            return None;
        }
        if self.consume('_') {
            if self.substitutions.len() > 0 {
                return Some(copy_chars(&self.substitutions[0]));
            }
            return None;
        }
        let from = self.offset;
        let q = underscore_at(&self.input, from);
        self.offset = q;
        if !self.consume('_') {
            return None;
        }
        let digits = slice_chars(&self.input, from, q);
        match radix36(&digits) {
            None => None,
            Some(v) => {
                let index: usize = if v == usize::MAX {
                    usize::MAX
                } else {
                    v + 1
                };
                if index < self.substitutions.len() {
                    Some(copy_chars(&self.substitutions[index]))
                } else {
                    None
                }
            },
        }
    }

    fn parse_component_head(&mut self) -> (r: Option<Vec<char>>)
        requires
            old(self).wf(),
        ensures
            final(self).wf(),
            final(self).input == old(self).input,
            final(self).substitutions == old(self).substitutions,
            (final(self).offset as int, opt_view(r)) == parse_component_head(
                old(self).inp(),
                old(self).offset as int,
                old(self).subs(),
            ),
    {
        match self.peek_char() {
            Some(c) => if c == 'S' {
                self.parse_substitution()
            } else if char_is_digit(c) {
                self.parse_source_name()
            } else {
                None
            },
            None => None,
        }
    }

    fn parse_type(&mut self) -> (r: Option<Vec<char>>)
        requires
            old(self).wf(),
        ensures
            final(self).wf(),
            final(self).input == old(self).input,
            (final(self).offset as int, final(self).subs(), opt_view(r)) == parse_type(
                old(self).inp(),
                old(self).offset as int,
                old(self).subs(),
            ),
        decreases rem(old(self).inp(), old(self).offset as int), 1nat,
    {
        let c = match self.peek_char() {
            Some(c) => c,
            None => return None,
        };
        if c == 'P' || c == 'R' || c == 'K' {
            self.offset += 1;
            let inner = self.parse_type();
            match inner {
                Some(t) => {
                    if c == 'P' {
                        let mut t = t;
                        t.push('*');
                        Some(t)
                    } else if c == 'R' {
                        let mut t = t;
                        t.push('&');
                        Some(t)
                    } else {
                        let mut out: Vec<char> = vec!['c', 'o', 'n', 's', 't', ' '];
                        push_all(&mut out, &t);
                        Some(out)
                    }
                },
                None => None,
            }
        } else if c == 'S' {
            self.parse_substitution()
        } else if c == 'N' {
            self.offset += 1;
            let parts = match self.parse_nested() {
                Some(parts) => parts,
                None => return None,
            };
            if !self.consume('E') {
                return None;
            }
            let sep: Vec<char> = vec![':', ':'];
            assert(sep@ =~= path_sep());
            let name = join_chars(&parts, &sep);
            let ghost before = self.substitutions@;
            self.substitutions.push(copy_chars(&name));
            assert(views(self.substitutions@) =~= views(before).push(name@));
            Some(name)
        } else if char_is_digit(c) {
            self.parse_component()
        } else {
            match builtin_name(c) {
                Some(t) => {
                    self.offset += 1;
                    Some(t)
                },
                None => None,
            }
        }
    }

    fn parse_component(&mut self) -> (r: Option<Vec<char>>)
        requires
            old(self).wf(),
        ensures
            final(self).wf(),
            final(self).input == old(self).input,
            (final(self).offset as int, final(self).subs(), opt_view(r)) == parse_component(
                old(self).inp(),
                old(self).offset as int,
                old(self).subs(),
            ),
        decreases rem(old(self).inp(), old(self).offset as int), 0nat,
    {
        let start = self.offset;
        let name = match self.parse_component_head() {
            Some(n) => n,
            None => return None,
        };
        if self.peek_is('I') {
            if self.offset < start {
                return None;
            }
            self.offset += 1;
            let mut args: Vec<Vec<char>> = Vec::new();
            assert(views(args@) =~= Seq::<Seq<char>>::empty());
            let ok = self.parse_template_args(&mut args);
            if !ok {
                return None;
            }
            if !self.consume('E') {
                return None;
            }
            let sep: Vec<char> = vec![',', ' '];
            assert(sep@ =~= arg_sep());
            let mut full = name;
            full.push('<');
            let joined = join_chars(&args, &sep);
            push_all(&mut full, &joined);
            full.push('>');
            assert(full@ =~= name@ + seq!['<'] + join(views(args@), arg_sep()) + seq!['>']);
            let ghost before = self.substitutions@;
            self.substitutions.push(copy_chars(&full));
            assert(views(self.substitutions@) =~= views(before).push(full@));
            Some(full)
        } else {
            let ghost before = self.substitutions@;
            self.substitutions.push(copy_chars(&name));
            assert(views(self.substitutions@) =~= views(before).push(name@));
            Some(name)
        }
    }

    fn parse_template_args(&mut self, acc: &mut Vec<Vec<char>>) -> (ok: bool)
        requires
            old(self).wf(),
        ensures
            final(self).wf(),
            final(self).input == old(self).input,
            ({
                let s = parse_template_args(
                    old(self).inp(),
                    old(self).offset as int,
                    old(self).subs(),
                    views(old(acc)@),
                );
                &&& final(self).offset == s.0
                &&& final(self).subs() == s.1
                &&& ok == s.2 is Some
                &&& ok ==> s.2 == Some(views(final(acc)@))
            }),
        decreases rem(old(self).inp(), old(self).offset as int), 2nat,
    {
        if self.peek_is('E') {
            return true;
        }
        let pos = self.offset;
        match self.parse_type() {
            None => false,
            Some(t) => {
                if self.offset <= pos || pos >= self.input.len() {
                    return false;
                }
                acc.push(t);
                proof {
                    assert(views(acc@) =~= views(old(acc)@).push(t@));
                }
                self.parse_template_args(acc)
            },
        }
    }

    fn parse_nested(&mut self) -> (r: Option<Vec<Vec<char>>>)
        requires
            old(self).wf(),
        ensures
            final(self).wf(),
            final(self).input == old(self).input,
            (final(self).offset as int, final(self).subs(), opt_views(r)) == parse_nested(
                old(self).inp(),
                old(self).offset as int,
                old(self).subs(),
                Seq::empty(),
            ),
        decreases rem(old(self).inp(), old(self).offset as int), 2nat,
    {
        let mut parts: Vec<Vec<char>> = Vec::new();
        assert(views(parts@) =~= Seq::<Seq<char>>::empty());
        if self.parse_nested_into(&mut parts) {
            Some(parts)
        } else {
            None
        }
    }

    fn parse_nested_into(&mut self, acc: &mut Vec<Vec<char>>) -> (ok: bool)
        requires
            old(self).wf(),
        ensures
            final(self).wf(),
            final(self).input == old(self).input,
            ({
                let s = parse_nested(
                    old(self).inp(),
                    old(self).offset as int,
                    old(self).subs(),
                    views(old(acc)@),
                );
                &&& final(self).offset == s.0
                &&& final(self).subs() == s.1
                &&& ok == s.2 is Some
                &&& ok ==> s.2 == Some(views(final(acc)@))
            }),
        decreases rem(old(self).inp(), old(self).offset as int), 1nat,
    {
        if self.peek_is('E') {
            return true;
        }
        let pos = self.offset;
        match self.parse_component() {
            None => false,
            Some(n) => {
                if self.offset <= pos || pos >= self.input.len() {
                    return false;
                }
                acc.push(n);
                proof {
                    assert(views(acc@) =~= views(old(acc)@).push(n@));
                }
                self.parse_nested_into(acc)
            },
        }
    }

    fn parse_params(&mut self, start: usize, args: &mut Vec<Vec<char>>) -> (r: Vec<char>)
        requires
            old(self).wf(),
        ensures
            final(self).wf(),
            final(self).input == old(self).input,
            (final(self).offset as int, final(self).subs(), r@) == parse_params(
                old(self).inp(),
                old(self).offset as int,
                old(self).subs(),
                start as int,
                views(old(args)@),
            ),
        decreases rem(old(self).inp(), old(self).offset as int),
    {
        if self.offset >= self.input.len() {
            return params_of(args);
        }
        let pos = self.offset;
        match self.parse_type() {
            None => params_of(args),
            Some(arg) => {
                let void: Vec<char> = vec!['v', 'o', 'i', 'd'];
                if chars_eq(&arg, &void) && start < usize::MAX && self.offset == start + 1 {
                    return vec!['(', ')'];
                }
                args.push(arg);
                proof {
                    assert(views(args@) =~= views(old(args)@).push(arg@));
                }
                if self.offset <= pos {
                    return params_of(args);
                }
                self.parse_params(start, args)
            },
        }
    }

    fn parse_function_suffix(&mut self) -> (r: Vec<char>)
        requires
            old(self).wf(),
        ensures
            final(self).wf(),
            final(self).input == old(self).input,
            (final(self).offset as int, final(self).subs(), r@) == parse_function_suffix(
                old(self).inp(),
                old(self).offset as int,
                old(self).subs(),
            ),
    {
        if self.is_done() {
            return Vec::new();
        }
        if self.offset + 1 == self.input.len() && self.input[self.offset] == 'v' {
            assert(self.inp().skip(self.offset as int) =~= seq!['v']);
            self.offset += 1;
            return vec!['(', ')'];
        }
        assert(self.inp().skip(self.offset as int) != seq!['v']) by {
            let rest = self.inp().skip(self.offset as int);
            if rest == seq!['v'] {
                assert(rest.len() == 1);
                assert(rest[0] == self.inp()[self.offset as int]);
                assert(rest[0] == 'v');
            }
        }
        let start = self.offset;
        let mut args: Vec<Vec<char>> = Vec::new();
        assert(views(args@) =~= Seq::<Seq<char>>::empty());
        self.parse_params(start, &mut args)
    }
}

/// A decimal number at `pos` (see `parse_number`).
fn number_at(input: &Vec<char>, pos: usize) -> (r: (usize, Option<usize>))
    requires
        pos <= input.len(),
    ensures
        r.1 is Some ==> pos < r.0,
        pos <= r.0 <= input.len(),
        (r.0 as int, match r.1 {
            Some(v) => Some(v as nat),
            None => None,
        }) == parse_number(input@, pos as int),
{
    let ghost inp = input@;
    proof {
        lemma_digits_end(inp, pos as int);
    }
    let mut end = pos;
    while end < input.len() && char_is_digit(input[end])
        invariant
            inp == input@,
            pos <= end <= input.len(),
            digits_end(inp, pos as int) == digits_end(inp, end as int),
        decreases input.len() - end,
    {
        end += 1;
    }
    if end == pos {
        return (end, None);
    }
    let ghost ds = inp.subrange(pos as int, end as int);
    let mut acc: usize = 0;
    let mut i: usize = pos;
    assert(ds.take(0) =~= Seq::<char>::empty());
    while i < end
        invariant
            inp == input@,
            pos <= i <= end <= input.len(),
            end == digits_end(inp, pos as int),
            ds == inp.subrange(pos as int, end as int),
            forall|k: int| pos <= k < end ==> is_digit(inp[k]),
            acc as nat == dec_value(ds.take(i - pos)),
        decreases end - i,
    {
        let c = input[i];
        assert(is_digit(c));
        let d = (c as u32 - '0' as u32) as usize;
        assert(ds.take(i - pos + 1).drop_last() =~= ds.take(i - pos));
        assert(ds.take(i - pos + 1).last() == c);
        assert(d == digit_value(c));
        if acc > (usize::MAX - d) / 10 {
            proof {
                assert(acc * 10 + d > usize::MAX) by (nonlinear_arith)
                    requires
                        acc > (usize::MAX - d) / 10,
                        d <= usize::MAX,
                ;
                assert forall|k: int| 0 <= k < ds.len() implies is_digit(#[trigger] ds[k]) by {
                    assert(ds[k] == inp[pos + k]);
                }
                lemma_dec_value_grows(ds, i - pos + 1);
            }
            return (end, None);
        }
        acc = acc * 10 + d;
        i += 1;
    }
    assert(ds.take(end - pos) =~= ds);
    (end, Some(acc))
}

/// An Itanium source name at `pos` (see `parse_source_name`).
fn source_name_at(input: &Vec<char>, pos: usize) -> (r: (usize, Option<Vec<char>>))
    requires
        pos <= input.len(),
    ensures
        r.0 <= input.len(),
        r.1 is Some ==> pos < r.0,
        (r.0 as int, opt_view(r.1)) == parse_source_name(input@, pos as int),
{
    let ghost inp = input@;
    let (p1, n) = number_at(input, pos);
    let len = match n {
        Some(n) => n,
        None => return (p1, None),
    };
    let tag: Vec<char> = vec!['_', 'G', 'L', 'O', 'B', 'A', 'L', '_', '_', 'N', '_', '1'];
    assert(tag@ =~= anon_ns_tag());
    let tail = slice_chars(input, p1, input.len());
    assert(tail@ =~= inp.skip(p1 as int));
    if chars_starts_with(&tail, &tag) && len == 12 {
        let text: Vec<char> = vec![
            '(',
            'a',
            'n',
            'o',
            'n',
            'y',
            'm',
            'o',
            'u',
            's',
            ' ',
            'n',
            'a',
            'm',
            'e',
            's',
            'p',
            'a',
            'c',
            'e',
            ')',
        ];
        assert(text@ =~= anon_ns_text());
        return (p1 + 12, Some(text));
    }
    let mut remaining: usize = len;
    let mut e: usize = p1;
    proof {
        lemma_take_bytes(inp, p1 as int, len as nat);
    }
    while remaining > 0
        invariant
            inp == input@,
            pos < p1 <= e <= input.len(),
            parse_number(inp, pos as int) == (p1 as int, Some(len as nat)),
            !(is_prefix(anon_ns_tag(), inp.skip(p1 as int)) && len == 12),
            take_bytes(inp, p1 as int, len as nat) == take_bytes(inp, e as int, remaining as nat),
        decreases remaining,
    {
        if e >= input.len() {
            assert(take_bytes(inp, e as int, remaining as nat) is None);
            return (p1, None);
        }
        let c = input[e];
        let w: usize = if '\u{80}' > c {
            1
        } else if '\u{800}' > c {
            2
        } else if '\u{10000}' > c {
            3
        } else {
            4
        };
        assert(w == utf8_len(c));
        if w > remaining {
            assert(take_bytes(inp, e as int, remaining as nat) is None);
            return (p1, None);
        }
        remaining -= w;
        e += 1;
    }
    let name = slice_chars(input, p1, e);
    (e, Some(name))
}

/// First index `>= from` holding `_`, or the end (see `underscore_from`).
fn underscore_at(input: &Vec<char>, from: usize) -> (q: usize)
    requires
        from <= input.len(),
    ensures
        q == underscore_from(input@, from as int),
        from <= q <= input.len(),
{
    proof {
        lemma_underscore_from(input@, from as int);
    }
    let mut q = from;
    while q < input.len() && input[q] != '_'
        invariant
            from <= q <= input.len(),
            underscore_from(input@, from as int) == underscore_from(input@, q as int),
        decreases input.len() - q,
    {
        q += 1;
    }
    q
}

/// Value of a base-36 digit.
fn base36_digit_of(c: char) -> (r: Option<usize>)
    ensures
        match r {
            Some(d) => base36_digit(c) == Some(d as nat) && d < 36,
            None => base36_digit(c) is None,
        },
{
    if '0' <= c && c <= '9' {
        Some((c as u32 - '0' as u32) as usize)
    } else if 'a' <= c && c <= 'z' {
        Some((c as u32 - 'a' as u32 + 10) as usize)
    } else if 'A' <= c && c <= 'Z' {
        Some((c as u32 - 'A' as u32 + 10) as usize)
    } else {
        None
    }
}

/// The name of a builtin type code.
fn builtin_name(c: char) -> (r: Option<Vec<char>>)
    ensures
        opt_view(r) == builtin_type(c),
{
    let r = if c == 'v' {
        Some(vec!['v', 'o', 'i', 'd'])
    } else if c == 'b' {
        Some(vec!['b', 'o', 'o', 'l'])
    } else if c == 'c' {
        Some(vec!['c', 'h', 'a', 'r'])
    } else if c == 'i' {
        Some(vec!['i', 'n', 't'])
    } else if c == 'j' {
        Some(vec!['u', 'n', 's', 'i', 'g', 'n', 'e', 'd', ' ', 'i', 'n', 't'])
    } else if c == 'l' {
        Some(vec!['l', 'o', 'n', 'g'])
    } else if c == 'm' {
        Some(vec!['u', 'n', 's', 'i', 'g', 'n', 'e', 'd', ' ', 'l', 'o', 'n', 'g'])
    } else {
        None
    };
    r
}

/// The parameter list text of parsed argument types.
fn params_of(args: &Vec<Vec<char>>) -> (r: Vec<char>)
    ensures
        r@ == params_text(views(args@)),
{
    if args.len() == 0 {
        return Vec::new();
    }
    let sep: Vec<char> = vec![',', ' '];
    let mut out: Vec<char> = vec!['('];
    let joined = join_chars(args, &sep);
    push_all(&mut out, &joined);
    out.push(')');
    out
}

/// `usize::from_str_radix(text, 36)`.
fn radix36(text: &Vec<char>) -> (r: Option<usize>)
    ensures
        match r {
            Some(v) => parse_radix36(text@) == Some(v as nat),
            None => parse_radix36(text@) is None,
        },
{
    let start: usize = if text.len() > 0 && text[0] == '+' {
        1
    } else {
        0
    };
    let ghost ds = text@.skip(start as int);
    assert(ds =~= (if text@.len() > 0 && text@[0] == '+' {
        text@.drop_first()
    } else {
        text@
    }));
    if start >= text.len() {
        return None;
    }
    let mut acc: usize = 0;
    let mut i: usize = start;
    assert(ds.take(0) =~= Seq::<char>::empty());
    while i < text.len()
        invariant
            start <= i <= text.len(),
            start < text.len(),
            ds == text@.skip(start as int),
            ds == (if text@.len() > 0 && text@[0] == '+' {
                text@.drop_first()
            } else {
                text@
            }),
            base36_value(ds.take(i - start)) == Some(acc as nat),
        decreases text.len() - i,
    {
        let c = text[i];
        assert(ds.take(i - start + 1).drop_last() =~= ds.take(i - start));
        assert(ds.take(i - start + 1).last() == c);
        assert(ds[i - start] == c);
        let d: usize = match base36_digit_of(c) {
            Some(d) => d,
            None => {
                proof {
                    lemma_base36_none_extends(ds, i - start + 1);
                    assert(ds.len() > 0);
                }
                return None;
            },
        };
        if acc > (usize::MAX - d) / 36 {
            proof {
                assert(acc * 36 + d > usize::MAX) by (nonlinear_arith)
                    requires
                        acc > (usize::MAX - d) / 36,
                        d <= usize::MAX,
                ;
                lemma_base36_value_grows(ds, i - start + 1);
            }
            return None;
        }
        acc = acc * 36 + d;
        i += 1;
    }
    assert(ds.take(text.len() - start) =~= ds);
    Some(acc)
}

/// Once a prefix of a run holds a non-digit, so does the whole run.
proof fn lemma_base36_none_extends(ds: Seq<char>, k: int)
    requires
        0 <= k <= ds.len(),
        base36_value(ds.take(k)) is None,
    ensures
        base36_value(ds) is None,
    decreases ds.len(),
{
    if k < ds.len() {
        assert(ds.drop_last().take(k) =~= ds.take(k));
        lemma_base36_none_extends(ds.drop_last(), k);
    } else {
        assert(ds.take(k) =~= ds);
    }
}

// ---------------------------------------------------------------------------
// Rust legacy, LLVM suffix and v0
// ---------------------------------------------------------------------------
/// Whether `v` is a Rust legacy hash component.
fn looks_like_rust_hash_component(v: &Vec<char>) -> (r: bool)
    ensures
        r == is_rust_hash(v@),
{
    if v.len() != 17 || v[0] != 'h' {
        return false;
    }
    let mut i: usize = 1;
    while i < 17
        invariant
            1 <= i <= 17,
            v.len() == 17,
            forall|k: int| 1 <= k < i ==> is_hex_digit(#[trigger] v@[k]),
        decreases 17 - i,
    {
        if !char_is_hex_digit(v[i]) {
            return false;
        }
        i += 1;
    }
    true
}

/// Renders a trailing Rust legacy hash component as `path [hash]`.
fn clean_rust_legacy_demangle(value: Vec<char>) -> (r: Vec<char>)
    ensures
        r@ == clean_rust_legacy(value@),
{
    let sep: Vec<char> = vec![':', ':'];
    assert(sep@ =~= path_sep());
    let mut parts = chars_split_all(&value, &sep);
    let n = parts.len();
    if n > 1 && looks_like_rust_hash_component(&parts[n - 1]) {
        let ghost all = views(parts@);
        let hash = match parts.pop() {
            Some(h) => h,
            None => return value,
        };
        assert(views(parts@) =~= all.drop_last());
        let mut out = join_chars(&parts, &sep);
        out.push(' ');
        out.push('[');
        push_all(&mut out, &hash);
        out.push(']');
        assert(out@ =~= join(all.drop_last(), path_sep()) + seq![' ', '['] + all.last() + seq![']']);
        out
    } else {
        value
    }
}

/// `name` without an LLVM `.llvm.<n>` suffix.
fn strip_llvm_chars(name: &Vec<char>) -> (r: Vec<char>)
    ensures
        r@ == strip_llvm_suffix(name@),
{
    let marker: Vec<char> = vec!['.', 'l', 'l', 'v', 'm', '.'];
    assert(marker@ =~= llvm_marker());
    match chars_split_once(name, &marker) {
        Some((base, _)) => base,
        None => copy_chars(name),
    }
}

/// End of the base-62 digit run at `pos` (see `base62_end`).
fn base62_end_at(input: &Vec<char>, pos: usize) -> (e: usize)
    requires
        pos <= input.len(),
    ensures
        e == base62_end(input@, pos as int),
        pos <= e <= input.len(),
{
    proof {
        lemma_base62_end(input@, pos as int);
    }
    let mut e = pos;
    while e < input.len() && (('0' <= input[e] && input[e] <= '9') || ('a' <= input[e] && input[e]
        <= 'z') || ('A' <= input[e] && input[e] <= 'Z'))
        invariant
            pos <= e <= input.len(),
            base62_end(input@, pos as int) == base62_end(input@, e as int),
        decreases input.len() - e,
    {
        e += 1;
    }
    e
}

/// A v0 identifier at `pos` (see `parse_v0_ident`).
fn v0_ident_at(input: &Vec<char>, pos: usize) -> (r: Option<(usize, Vec<char>)>)
    requires
        pos <= input.len(),
    ensures
        match r {
            Some((e, name)) => parse_v0_ident(input@, pos as int) == Some((e as int, name@)) && pos
                < e <= input.len(),
            None => parse_v0_ident(input@, pos as int) is None,
        },
{
    let ghost inp = input@;
    let mut p0 = pos;
    if pos < input.len() && input[pos] == 's' {
        let e = base62_end_at(input, pos + 1);
        if !(e < input.len() && input[e] == '_') {
            return None;
        }
        p0 = e + 1;
    }
    if p0 < input.len() && input[p0] == 'u' {
        return None;
    }
    let (p1, n) = number_at(input, p0);
    let len = match n {
        Some(len) => len,
        None => return None,
    };
    let p2 = if p1 < input.len() && input[p1] == '_' {
        p1 + 1
    } else {
        p1
    };
    let mut remaining: usize = len;
    let mut e: usize = p2;
    proof {
        lemma_take_bytes(inp, p2 as int, len as nat);
    }
    while remaining > 0
        invariant
            inp == input@,
            pos < p1 <= p2 <= e <= input.len(),
            take_bytes(inp, p2 as int, len as nat) == take_bytes(inp, e as int, remaining as nat),
            parse_v0_ident(inp, pos as int) == match take_bytes(inp, p2 as int, len as nat) {
                None => None,
                Some(x) => Some((x, inp.subrange(p2 as int, x))),
            },
        decreases remaining,
    {
        if e >= input.len() {
            assert(take_bytes(inp, e as int, remaining as nat) is None);
            return None;
        }
        let c = input[e];
        let w: usize = if '\u{80}' > c {
            1
        } else if '\u{800}' > c {
            2
        } else if '\u{10000}' > c {
            3
        } else {
            4
        };
        assert(w == utf8_len(c));
        if w > remaining {
            assert(take_bytes(inp, e as int, remaining as nat) is None);
            return None;
        }
        remaining -= w;
        e += 1;
    }
    let name = slice_chars(input, p2, e);
    Some((e, name))
}

/// The text shown for a special v0 namespace element.
fn v0_special_chars(ns: char, name: &Vec<char>) -> (r: Vec<char>)
    ensures
        r@ == v0_special_text(ns, name@),
{
    let mut out: Vec<char> = vec!['{'];
    if ns == 'C' {
        push_all(&mut out, &vec!['c', 'l', 'o', 's', 'u', 'r', 'e']);
    } else if ns == 'S' {
        push_all(&mut out, &vec!['s', 'h', 'i', 'm']);
    } else {
        out.push(ns);
    }
    let ghost head = out@;
    assert(head =~= seq!['{'] + v0_namespace_name(ns));
    if name.len() > 0 {
        out.push(':');
        push_all(&mut out, name);
    }
    out.push('}');
    assert(out@ =~= v0_special_text(ns, name@));
    out
}

/// A v0 path at `pos` (see `parse_v0_path`).
fn v0_path_at(input: &Vec<char>, pos: usize) -> (r: Option<(usize, Vec<char>)>)
    requires
        pos <= input.len(),
    ensures
        match r {
            Some((e, text)) => parse_v0_path(input@, pos as int) == Some((e as int, text@)) && e
                <= input.len(),
            None => parse_v0_path(input@, pos as int) is None,
        },
    decreases input.len() - pos,
{
    if pos >= input.len() {
        return None;
    }
    let c = input[pos];
    if c == 'C' {
        v0_ident_at(input, pos + 1)
    } else if c == 'N' {
        if pos + 1 >= input.len() {
            return None;
        }
        let ns = input[pos + 1];
        if !(('a' <= ns && ns <= 'z') || ('A' <= ns && ns <= 'Z')) {
            return None;
        }
        let (p, prefix) = match v0_path_at(input, pos + 2) {
            Some(x) => x,
            None => return None,
        };
        let (e, name) = match v0_ident_at(input, p) {
            Some(x) => x,
            None => return None,
        };
        let mut out = prefix;
        out.push(':');
        out.push(':');
        if 'a' <= ns && ns <= 'z' {
            push_all(&mut out, &name);
        } else {
            let special = v0_special_chars(ns, &name);
            push_all(&mut out, &special);
        }
        Some((e, out))
    } else {
        None
    }
}

/// The Rust v0 demangling of `name` (see `demangle_v0`).
fn v0_of(name: &Vec<char>) -> (r: Option<Vec<char>>)
    ensures
        opt_view(r) == demangle_v0(name@),
{
    let prefix: Vec<char> = vec!['_', 'R'];
    assert(prefix@ =~= rust_v0_prefix());
    if !chars_starts_with(name, &prefix) {
        return None;
    }
    let inp = slice_chars(name, 2, name.len());
    assert(inp@ =~= name@.skip(2));
    let (p, path) = match v0_path_at(&inp, 0) {
        Some(x) => x,
        None => return None,
    };
    if p == inp.len() {
        return Some(path);
    }
    match v0_path_at(&inp, p) {
        Some((q, _)) => if q == inp.len() {
            Some(path)
        } else {
            None
        },
        None => None,
    }
}

/// The Itanium demangling of `name` (see `demangle_itanium`).
fn parse_itanium(name: &Vec<char>) -> (r: Option<Vec<char>>)
    ensures
        opt_view(r) == demangle_itanium(name@),
{
    let prefix: Vec<char> = vec!['_', 'Z'];
    assert(prefix@ =~= itanium_prefix());
    if !chars_starts_with(name, &prefix) {
        return None;
    }
    let inp = slice_chars(name, 2, name.len());
    assert(inp@ =~= name@.skip(2));
    let mut parser = ItaniumParser::new(inp);
    let path: Vec<Vec<char>> = if parser.consume('N') {
        match parser.parse_nested() {
            Some(parts) => if parser.consume('E') {
                parts
            } else {
                return None;
            },
            None => return None,
        }
    } else {
        match parser.parse_component() {
            Some(n) => {
                let v = vec![n];
                assert(views(v@) =~= seq![v@[0]@]);
                v
            },
            None => return None,
        }
    };
    let sig = parser.parse_function_suffix();
    if !parser.is_done() {
        return None;
    }
    let sep: Vec<char> = vec![':', ':'];
    assert(sep@ =~= path_sep());
    let mut out = join_chars(&path, &sep);
    push_all(&mut out, &sig);
    Some(out)
}

// ---------------------------------------------------------------------------
// Public interface
// ---------------------------------------------------------------------------
/// The readable form of a mangled symbol name under `mode`, if it has one.
pub fn demangle_symbol(name: &str, mode: DemangleMode) -> (r: Option<String>)
    ensures
        opt_text(r) == demangle_spec(name@, mode),
{
    if mode == DemangleMode::Off {
        return None;
    }
    let chars = chars_of(name);
    let normalized = strip_llvm_chars(&chars);
    let prefix: Vec<char> = vec!['_', 'Z'];
    assert(prefix@ =~= itanium_prefix());
    if mode != DemangleMode::On && !chars_starts_with(&normalized, &prefix) {
        return None;
    }
    match parse_itanium(&normalized) {
        Some(v) => {
            let cleaned = clean_rust_legacy_demangle(v);
            Some(string_of(&cleaned))
        },
        None => if mode == DemangleMode::On {
            match v0_of(&normalized) {
                Some(v) => Some(string_of(&v)),
                None => None,
            }
        } else {
            None
        },
    }
}

/// The name a report shows for a symbol: its demangled name when it has one.
pub open spec fn display_text(symbol: SymbolInfo) -> Seq<char> {
    match symbol.demangled_name {
        Some(d) => d@,
        None => symbol.name@,
    }
}

/// The name a report shows for a symbol: its demangled name when it has one.
pub fn display_name(symbol: &SymbolInfo) -> (r: &str)
    ensures
        r@ == display_text(*symbol),
{
    match &symbol.demangled_name {
        Some(d) => d.as_str(),
        None => symbol.name.as_str(),
    }
}

/// Fills in (or clears) the demangled name of every symbol.
pub fn apply_demangling(symbols: &mut Vec<SymbolInfo>, mode: DemangleMode)
    ensures
        final(symbols)@.len() == old(symbols)@.len(),
        forall|i: int|
            0 <= i < final(symbols)@.len() ==> {
                let before = #[trigger] old(symbols)@[i];
                let after = final(symbols)@[i];
                &&& opt_text(after.demangled_name) == demangle_spec(before.name@, mode)
                &&& after.name == before.name
                &&& after.section_name == before.section_name
                &&& after.object_path == before.object_path
                &&& after.addr == before.addr
                &&& after.size == before.size
            },
{
    let ghost start = symbols@;
    let mut i: usize = 0;
    while i < symbols.len()
        invariant
            0 <= i <= symbols.len(),
            symbols@.len() == start.len(),
            forall|k: int|
                0 <= k < i ==> {
                    let before = #[trigger] start[k];
                    let after = symbols@[k];
                    &&& opt_text(after.demangled_name) == demangle_spec(before.name@, mode)
                    &&& after.name == before.name
                    &&& after.section_name == before.section_name
                    &&& after.object_path == before.object_path
                    &&& after.addr == before.addr
                    &&& after.size == before.size
                },
            forall|k: int| i <= k < symbols@.len() ==> symbols@[k] == start[k],
        decreases symbols.len() - i,
    {
        let d = if mode == DemangleMode::Off {
            None
        } else {
            demangle_symbol(symbols[i].name.as_str(), mode)
        };
        symbols[i].demangled_name = d;
        i += 1;
    }
}

// ---------------------------------------------------------------------------
// Laws
// ---------------------------------------------------------------------------
/// With demangling off no name has a demangled form.
pub proof fn law_off_never_demangles(name: Seq<char>)
    ensures
        demangle_spec(name, DemangleMode::Off) is None,
{
}

/// In automatic mode a name whose base (without an LLVM suffix) does not
/// start with `_Z`, such as a plain C symbol, is left alone.
pub proof fn law_auto_skips_non_itanium(name: Seq<char>)
    requires
        !is_prefix(itanium_prefix(), strip_llvm_suffix(name)),
    ensures
        demangle_spec(name, DemangleMode::Auto) is None,
{
}

/// Whatever automatic mode demangles, forced mode demangles the same way.
pub proof fn law_auto_agrees_with_on(name: Seq<char>)
    requires
        demangle_spec(name, DemangleMode::Auto) is Some,
    ensures
        demangle_spec(name, DemangleMode::On) == demangle_spec(name, DemangleMode::Auto),
{
}

/// A character of a plain C++ identifier: ASCII letter, digit or `_`.
pub open spec fn is_name_char(c: char) -> bool {
    ('a' <= c <= 'z') || ('A' <= c <= 'Z') || ('0' <= c <= '9') || c == '_'
}

/// A digit run that stops at `stop` ends there.
proof fn lemma_digits_stop(inp: Seq<char>, pos: int, stop: int)
    requires
        0 <= pos <= stop < inp.len(),
        forall|k: int| pos <= k < stop ==> is_digit(#[trigger] inp[k]),
        !is_digit(inp[stop]),
    ensures
        digits_end(inp, pos) == stop,
    decreases stop - pos,
{
    if pos < stop {
        lemma_digits_stop(inp, pos + 1, stop);
    }
}

/// Over ASCII characters, `n` bytes are `n` characters.
proof fn lemma_take_ascii(inp: Seq<char>, pos: int, n: nat)
    requires
        0 <= pos,
        pos + n <= inp.len(),
        forall|k: int| pos <= k < pos + n ==> '\u{80}' > #[trigger] inp[k],
    ensures
        take_bytes(inp, pos, n) == Some(pos + n),
    decreases n,
{
    if n > 0 {
        lemma_take_ascii(inp, pos + 1, (n - 1) as nat);
    }
}

/// The Itanium form of a plain function named `n` with one builtin type
/// code after the name parses to the name and its parameter list.
proof fn lemma_itanium_plain_function(n: Seq<char>, ds: Seq<char>, code: char, t: Seq<char>)
    requires
        ds.len() > 0,
        forall|k: int| 0 <= k < ds.len() ==> is_digit(#[trigger] ds[k]),
        dec_value(ds) == n.len(),
        n.len() <= usize::MAX,
        n.len() > 0,
        !is_digit(n[0]),
        forall|k: int| 0 <= k < n.len() ==> is_name_char(#[trigger] n[k]),
        n != anon_ns_tag(),
        builtin_type(code) == Some(t),
        code == 'v' || t != void_text(),
    ensures
        demangle_itanium(itanium_prefix() + ds + n + seq![code]) == Some(
            n + if code == 'v' {
                empty_params()
            } else {
                params_text(seq![t])
            },
        ),
{
    let name = itanium_prefix() + ds + n + seq![code];
    let inp = name.skip(2);
    assert(inp =~= ds + n + seq![code]);
    assert(name.take(2) =~= itanium_prefix());
    let l = ds.len() as int;
    let m = n.len() as int;
    let e: Seq<Seq<char>> = Seq::empty();
    assert forall|k: int| 0 <= k < l implies is_digit(#[trigger] inp[k]) by {
        assert(inp[k] == ds[k]);
    }
    assert(inp[l] == n[0]);
    lemma_digits_stop(inp, 0, l);
    assert(inp.subrange(0, l) =~= ds);
    assert(parse_number(inp, 0) == (l, Some(m as nat)));
    if m == 12 {
        assert(inp.skip(l).take(12) =~= n);
    }
    assert(!(is_prefix(anon_ns_tag(), inp.skip(l)) && m == 12));
    assert forall|k: int| l <= k < l + m implies '\u{80}' > #[trigger] inp[k] by {
        assert(inp[k] == n[k - l]);
        assert(is_name_char(n[k - l]));
    }
    lemma_take_ascii(inp, l, m as nat);
    assert(inp.subrange(l, l + m) =~= n);
    assert(parse_source_name(inp, 0) == (l + m, Some(n)));
    assert(parse_component_head(inp, 0, e) == (l + m, Some(n)));
    assert(inp[l + m] == code);
    assert(e.push(n) =~= seq![n]);
    assert(parse_component(inp, 0, e) == (l + m, seq![n], Some(n)));
    assert(!peek_is(inp, 0, 'N'));
    assert(join(seq![n], path_sep()) == n);
    let subs = seq![n];
    if code == 'v' {
        assert(inp.skip(l + m) =~= seq!['v']);
        assert(parse_function_suffix(inp, l + m, subs) == (l + m + 1, subs, empty_params()));
    } else {
        assert(inp.skip(l + m) =~= seq![code]);
        assert(inp.skip(l + m) != seq!['v']) by {
            assert(inp.skip(l + m)[0] == code);
        }
        assert(parse_type(inp, l + m, subs) == (l + m + 1, subs, Some(t)));
        let es: Seq<Seq<char>> = Seq::empty();
        assert(es.push(t) =~= seq![t]);
        assert(parse_params(inp, l + m + 1, subs, l + m, seq![t]) == (l + m + 1, subs, params_text(seq![t])));
        assert(parse_params(inp, l + m, subs, l + m, es) == (l + m + 1, subs, params_text(seq![t])));
        assert(parse_function_suffix(inp, l + m, subs) == (l + m + 1, subs, params_text(seq![t])));
    }
}

/// The demangled form of a name that holds no `.` is that of the name
/// itself, with no Rust hash to clean up when it holds no `:`.
proof fn lemma_plain_demangle(name: Seq<char>, v: Seq<char>, mode: DemangleMode)
    requires
        forall|k: int| 0 <= k < name.len() ==> #[trigger] name[k] != '.',
        forall|k: int| 0 <= k < v.len() ==> #[trigger] v[k] != ':',
        is_prefix(itanium_prefix(), name),
        demangle_itanium(name) == Some(v),
        mode != DemangleMode::Off,
    ensures
        demangle_spec(name, mode) == Some(v),
{
    crate::text::lemma_find_absent(name, llvm_marker(), 0);
    assert(strip_llvm_suffix(name) == name);
    crate::text::lemma_find_absent(v, path_sep(), 0);
    assert(split_path(v) == seq![v]);
}

/// The type names of the builtin codes, as the demangler writes them.
proof fn lemma_builtin_code_texts(code: char, t: Seq<char>)
    requires
        (code == 'b' && t == "bool"@) || (code == 'c' && t == "char"@) || (code == 'i' && t == "int"@)
            || (code == 'j' && t == "unsigned int"@) || (code == 'l' && t == "long"@) || (code == 'm'
            && t == "unsigned long"@) || (code == 'v' && t == ""@),
    ensures
        builtin_type(code) is Some,
        code == 'v' || (builtin_type(code) == Some(t) && t != void_text()),
        "("@ + t + ")"@ == if code == 'v' {
            empty_params()
        } else {
            params_text(seq![t])
        },
        forall|k: int| 0 <= k < t.len() ==> #[trigger] t[k] != ':',
{
    reveal_strlit("(");
    reveal_strlit(")");
    reveal_strlit("bool");
    reveal_strlit("char");
    reveal_strlit("int");
    reveal_strlit("unsigned int");
    reveal_strlit("long");
    reveal_strlit("unsigned long");
    reveal_strlit("");
    if code == 'v' {
        assert("("@ + t + ")"@ =~= empty_params());
    } else {
        let bt = builtin_type(code)->0;
        assert(t =~= bt);
        if code == 'b' || code == 'c' || code == 'l' {
            assert(t[0] != void_text()[0]);
        }
        assert(join(seq![t], arg_sep()) == t);
        assert("("@ + t + ")"@ =~= params_text(seq![t]));
    }
}

/// `_Z`, digits, identifier characters and a letter hold no `.`.
proof fn lemma_mangled_has_no_dot(ds: Seq<char>, n: Seq<char>, code: char)
    requires
        forall|k: int| 0 <= k < ds.len() ==> is_digit(#[trigger] ds[k]),
        forall|k: int| 0 <= k < n.len() ==> is_name_char(#[trigger] n[k]),
        code != '.',
    ensures
        forall|k: int|
            0 <= k < (itanium_prefix() + ds + n + seq![code]).len() ==> #[trigger] (itanium_prefix() + ds
                + n + seq![code])[k] != '.',
{
    let name = itanium_prefix() + ds + n + seq![code];
    assert forall|k: int| 0 <= k < name.len() implies #[trigger] name[k] != '.' by {
        if 2 <= k < 2 + ds.len() {
            assert(name[k] == ds[k - 2]);
        } else if 2 + ds.len() <= k < 2 + ds.len() + n.len() {
            assert(name[k] == n[k - 2 - ds.len()]);
            assert(is_name_char(n[k - 2 - ds.len()]));
        }
    }
}

/// Each Itanium builtin type code names its C++ type: for a plain function
/// name `n` of ASCII letters, digits and `_` (not starting with a digit),
/// written after any decimal form `ds` of its length, the mangled name
/// `_Z<ds><n><code>` demangles to `n(bool)` for `b`, `n(char)` for `c`,
/// `n(int)` for `i`, `n(unsigned int)` for `j`, `n(long)` for `l` and
/// `n(unsigned long)` for `m`, and to `n()` for `v` (a lone `void`
/// parameter list), in forced and in automatic mode alike.
pub proof fn law_builtin_codes_name_their_types(
    n: Seq<char>,
    ds: Seq<char>,
    code: char,
    t: Seq<char>,
    mode: DemangleMode,
)
    requires
        ds.len() > 0,
        forall|k: int| 0 <= k < ds.len() ==> is_digit(#[trigger] ds[k]),
        dec_value(ds) == n.len(),
        n.len() <= usize::MAX,
        n.len() > 0,
        !is_digit(n[0]),
        forall|k: int| 0 <= k < n.len() ==> is_name_char(#[trigger] n[k]),
        n != anon_ns_tag(),
        (code == 'b' && t == "bool"@) || (code == 'c' && t == "char"@) || (code == 'i' && t == "int"@)
            || (code == 'j' && t == "unsigned int"@) || (code == 'l' && t == "long"@) || (code == 'm'
            && t == "unsigned long"@) || (code == 'v' && t == ""@),
        mode != DemangleMode::Off,
    ensures
        demangle_spec("_Z"@ + ds + n + seq![code], mode) == Some(n + "("@ + t + ")"@),
{
    reveal_strlit("_Z");
    reveal_strlit("(");
    reveal_strlit(")");
    assert("_Z"@ =~= itanium_prefix());
    lemma_builtin_code_texts(code, t);
    let bt = builtin_type(code)->0;
    lemma_itanium_plain_function(n, ds, code, bt);
    let name = itanium_prefix() + ds + n + seq![code];
    let v = n + ("("@ + t + ")"@);
    assert(n + "("@ + t + ")"@ =~= v);
    assert(name.take(2) =~= itanium_prefix());
    lemma_mangled_has_no_dot(ds, n, code);
    assert forall|k: int| 0 <= k < v.len() implies #[trigger] v[k] != ':' by {
        if k < n.len() {
            assert(v[k] == n[k]);
            assert(is_name_char(n[k]));
        } else if k == n.len() {
        } else if k < n.len() + 1 + t.len() {
            assert(v[k] == t[k - n.len() - 1]);
        }
    }
    lemma_plain_demangle(name, v, mode);
}

/// `.llvm`, the marker without its closing dot.
pub open spec fn llvm_stem() -> Seq<char> {
    seq!['.', 'l', 'l', 'v', 'm']
}

/// An LLVM suffix never changes the demangled form, as long as the marker
/// appended to `base` is the first one (no marker starts inside `base`).
#[verifier::rlimit(40)]
pub proof fn law_llvm_suffix_is_ignored(base: Seq<char>, tail: Seq<char>, mode: DemangleMode)
    requires
        !contains_seq(base + llvm_stem(), llvm_marker()),
    ensures
        demangle_spec(base + llvm_marker() + tail, mode) == demangle_spec(base, mode),
{
    let m = llvm_marker();
    let full = base + m + tail;
    let pre = base + llvm_stem();
    assert(full.subrange(base.len() as int, (base.len() + m.len()) as int) =~= m);
    assert(full.take(pre.len() as int) =~= pre);
    lemma_find_until(base, pre, full, 0);
    assert(full.take(base.len() as int) =~= base);
    assert(full.skip((base.len() + m.len()) as int) =~= tail);
    assert(strip_llvm_suffix(full) =~= base);
    assert(pre.take(base.len() as int) =~= base);
    lemma_no_find_in_prefix(base, pre, 0);
    lemma_demangle_sees_normalized(full, base, mode);
}

/// The demangled form depends on a name only through its normalized base.
proof fn lemma_demangle_sees_normalized(a: Seq<char>, b: Seq<char>, mode: DemangleMode)
    requires
        strip_llvm_suffix(a) == strip_llvm_suffix(b),
    ensures
        demangle_spec(a, mode) == demangle_spec(b, mode),
{
}

/// Scanning `full` from `i` finds the marker at `base.len()` when no marker
/// starts in `base`.
proof fn lemma_find_until(base: Seq<char>, pre: Seq<char>, full: Seq<char>, i: int)
    requires
        0 <= i <= base.len(),
        pre.len() == base.len() + 5,
        full.len() >= base.len() + 6,
        full.take(pre.len() as int) == pre,
        full.subrange(base.len() as int, base.len() + 6int) == llvm_marker(),
        find_from(pre, llvm_marker(), i) is None,
    ensures
        find_from(full, llvm_marker(), i) == Some(base.len() as int),
    decreases base.len() - i,
{
    let m = llvm_marker();
    if i < base.len() {
        assert(i + m.len() <= pre.len());
        if occurs_at(full, m, i) {
            assert(pre.subrange(i, i + m.len()) =~= full.subrange(i, i + m.len()));
            assert(occurs_at(pre, m, i));
        }
        lemma_find_until(base, pre, full, i + 1);
    } else {
        assert(occurs_at(full, m, i));
    }
}

/// No marker in `pre` means none in its prefix `base` either.
proof fn lemma_no_find_in_prefix(base: Seq<char>, pre: Seq<char>, i: int)
    requires
        0 <= i,
        base.len() <= pre.len(),
        pre.take(base.len() as int) == base,
        find_from(pre, llvm_marker(), i) is None,
    ensures
        find_from(base, llvm_marker(), i) is None,
    decreases base.len() + 1 - i,
{
    let m = llvm_marker();
    if i + m.len() <= base.len() {
        if occurs_at(base, m, i) {
            assert(pre.subrange(i, i + m.len()) =~= base.subrange(i, i + m.len()));
            assert(occurs_at(pre, m, i));
        }
        lemma_no_find_in_prefix(base, pre, i + 1);
    }
}

} // verus!
