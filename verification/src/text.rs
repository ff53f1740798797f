//! Character-level helpers used by every text-producing part of the library.
//!
//! Text is modelled as `Seq<char>` (the view of `String` and `&str`).  The
//! helpers here work on `Vec<char>` buffers and convert to `String` at the
//! edges, so that every producer of text in the library can state exactly
//! which characters it returns.
use vstd::prelude::*;

verus! {

// ---------------------------------------------------------------------------
// Specifications
// ---------------------------------------------------------------------------
/// `p` is a prefix of `s`.
pub open spec fn is_prefix(p: Seq<char>, s: Seq<char>) -> bool {
    p.len() <= s.len() && s.take(p.len() as int) == p
}

/// `p` is a suffix of `s`.
pub open spec fn is_suffix(p: Seq<char>, s: Seq<char>) -> bool {
    p.len() <= s.len() && s.skip(s.len() - p.len()) == p
}

/// `p` occurs in `s` starting at index `i`.
pub open spec fn occurs_at(s: Seq<char>, p: Seq<char>, i: int) -> bool {
    0 <= i && i + p.len() <= s.len() && s.subrange(i, i + p.len()) == p
}

/// The first index `>= i` at which `p` occurs in `s`.
pub open spec fn find_from(s: Seq<char>, p: Seq<char>, i: int) -> Option<int>
    decreases s.len() + 1 - i,
{
    if i < 0 || i + p.len() > s.len() {
        None
    } else if occurs_at(s, p, i) {
        Some(i)
    } else {
        find_from(s, p, i + 1)
    }
}

/// A pattern whose first character does not occur in `s` is never found.
pub proof fn lemma_find_absent(s: Seq<char>, p: Seq<char>, i: int)
    requires
        p.len() > 0,
        forall|k: int| 0 <= k < s.len() ==> s[k] != p[0],
    ensures
        find_from(s, p, i) is None,
    decreases s.len() + 1 - i,
{
    if !(i < 0 || i + p.len() > s.len()) {
        if occurs_at(s, p, i) {
            assert(s.subrange(i, i + p.len())[0] == s[i]);
        }
        lemma_find_absent(s, p, i + 1);
    }
}

/// The first index at which `p` occurs in `s` (what `str::find` returns, in characters).
pub open spec fn find_seq(s: Seq<char>, p: Seq<char>) -> Option<int> {
    find_from(s, p, 0)
}

/// `p` occurs somewhere in `s`.
pub open spec fn contains_seq(s: Seq<char>, p: Seq<char>) -> bool {
    find_seq(s, p) is Some
}

/// `c` occurs in `s`.
pub open spec fn has_char(s: Seq<char>, c: char) -> bool {
    exists|i: int| 0 <= i < s.len() && s[i] == c
}

/// The split of `s` around the first occurrence of `p` (what `str::split_once` returns).
pub open spec fn split_once_seq(s: Seq<char>, p: Seq<char>) -> Option<(Seq<char>, Seq<char>)> {
    match find_seq(s, p) {
        Some(i) => Some((s.take(i), s.skip(i + p.len()))),
        None => None,
    }
}

/// The pieces of `s` between the occurrences of a non-empty `p`, scanning from
/// the left (what `str::split` returns).
pub open spec fn split_all(s: Seq<char>, p: Seq<char>) -> Seq<Seq<char>>
    decreases s.len(),
{
    if p.len() == 0 {
        seq![s]
    } else {
        match find_seq(s, p) {
            None => seq![s],
            Some(i) => if 0 <= i && i + p.len() <= s.len() {
                seq![s.take(i)] + split_all(s.skip(i + p.len()), p)
            } else {
                seq![s]
            },
        }
    }
}

/// Every occurrence of `c` in `s` replaced by `r`.
pub open spec fn replace_char(s: Seq<char>, c: char, r: Seq<char>) -> Seq<char>
    decreases s.len(),
{
    if s.len() == 0 {
        s
    } else {
        let tail = if s.last() == c {
            r
        } else {
            seq![s.last()]
        };
        replace_char(s.drop_last(), c, r) + tail
    }
}

/// Replacing a character by another one twice is replacing it once.
pub proof fn lemma_replace_char_idempotent(s: Seq<char>, c: char, d: char)
    requires
        c != d,
    ensures
        replace_char(replace_char(s, c, seq![d]), c, seq![d]) == replace_char(s, c, seq![d]),
    decreases s.len(),
{
    if s.len() > 0 {
        lemma_replace_char_idempotent(s.drop_last(), c, d);
        let t = replace_char(s, c, seq![d]);
        let tail = if s.last() == c {
            seq![d]
        } else {
            seq![s.last()]
        };
        assert(t == replace_char(s.drop_last(), c, seq![d]) + tail);
        assert(t.drop_last() =~= replace_char(s.drop_last(), c, seq![d]));
        assert(t.last() != c);
        assert(replace_char(t, c, seq![d]) =~= replace_char(t.drop_last(), c, seq![d]) + seq![t.last()]);
        assert(t =~= t.drop_last() + seq![t.last()]);
    }
}

/// ASCII decimal digit.
pub open spec fn is_digit(c: char) -> bool {
    '0' <= c <= '9'
}

/// ASCII hexadecimal digit (either case).
pub open spec fn is_hex_digit(c: char) -> bool {
    ('0' <= c <= '9') || ('a' <= c <= 'f') || ('A' <= c <= 'F')
}

/// ASCII upper-case letter.
pub open spec fn is_upper(c: char) -> bool {
    'A' <= c <= 'Z'
}

/// The ASCII lower-case form of `c` (other characters are unchanged).
pub open spec fn ascii_lower(c: char) -> char {
    if 'A' <= c <= 'Z' {
        ((c as u32) + 32) as char
    } else {
        c
    }
}

/// Two texts are equal when ASCII letters are compared without regard to case.
pub open spec fn eq_ignore_case(a: Seq<char>, b: Seq<char>) -> bool {
    a.len() == b.len() && forall|i: int| 0 <= i < a.len() ==> ascii_lower(a[i]) == ascii_lower(b[i])
}

/// Characters with the Unicode `White_Space` property (what `char::is_whitespace` accepts).
pub open spec fn is_space(c: char) -> bool {
    ||| c == ' '
    ||| '\t' <= c <= '\r'
    ||| c == '\u{85}'
    ||| c == '\u{A0}'
    ||| c == '\u{1680}'
    ||| '\u{2000}' <= c <= '\u{200A}'
    ||| c == '\u{2028}'
    ||| c == '\u{2029}'
    ||| c == '\u{202F}'
    ||| c == '\u{205F}'
    ||| c == '\u{3000}'
}

/// `s` without leading white space.
pub open spec fn trim_start(s: Seq<char>) -> Seq<char>
    decreases s.len(),
{
    if s.len() > 0 && is_space(s[0]) {
        trim_start(s.drop_first())
    } else {
        s
    }
}

/// `s` without trailing white space.
pub open spec fn trim_end(s: Seq<char>) -> Seq<char>
    decreases s.len(),
{
    if s.len() > 0 && is_space(s.last()) {
        trim_end(s.drop_last())
    } else {
        s
    }
}

/// `s` without leading or trailing white space (what `str::trim` returns).
pub open spec fn trim(s: Seq<char>) -> Seq<char> {
    trim_end(trim_start(s))
}

/// The character of a decimal digit.
pub open spec fn digit_char(d: nat) -> char {
    if d == 0 {
        '0'
    } else if d == 1 {
        '1'
    } else if d == 2 {
        '2'
    } else if d == 3 {
        '3'
    } else if d == 4 {
        '4'
    } else if d == 5 {
        '5'
    } else if d == 6 {
        '6'
    } else if d == 7 {
        '7'
    } else if d == 8 {
        '8'
    } else {
        '9'
    }
}

/// The decimal representation of `n` (no sign, no leading zeros).
pub open spec fn dec(n: nat) -> Seq<char>
    decreases n,
{
    if n < 10 {
        seq![digit_char(n)]
    } else {
        dec(n / 10).push(digit_char(n % 10))
    }
}

/// The character of a hexadecimal digit (lower case).
pub open spec fn hex_digit_char(d: nat) -> char {
    if d < 10 {
        digit_char(d)
    } else if d == 10 {
        'a'
    } else if d == 11 {
        'b'
    } else if d == 12 {
        'c'
    } else if d == 13 {
        'd'
    } else if d == 14 {
        'e'
    } else {
        'f'
    }
}

/// The lower-case hexadecimal representation of `n` (what `{:x}` prints).
pub open spec fn hex(n: nat) -> Seq<char>
    decreases n,
{
    if n < 16 {
        seq![hex_digit_char(n)]
    } else {
        hex(n / 16).push(hex_digit_char(n % 16))
    }
}

/// The text of an optional string.
pub open spec fn opt_text(o: Option<String>) -> Option<Seq<char>> {
    match o {
        Some(s) => Some(s@),
        None => None,
    }
}

/// The first element of `s` that satisfies `p`.
pub open spec fn first_match<T>(s: Seq<T>, p: spec_fn(T) -> bool) -> Option<T>
    decreases s.len(),
{
    if s.len() == 0 {
        None
    } else if p(s[0]) {
        Some(s[0])
    } else {
        first_match(s.drop_first(), p)
    }
}

/// When no element before `i` satisfies `p` and `s[i]` does, `s[i]` is the first match.
pub proof fn lemma_first_match_found<T>(s: Seq<T>, p: spec_fn(T) -> bool, i: int)
    requires
        0 <= i < s.len(),
        forall|k: int| 0 <= k < i ==> !p(#[trigger] s[k]),
        p(s[i]),
    ensures
        first_match(s, p) == Some(s[i]),
    decreases i,
{
    if i > 0 {
        assert forall|k: int| 0 <= k < i - 1 implies !p(#[trigger] s.drop_first()[k]) by {
            assert(s.drop_first()[k] == s[k + 1]);
        }
        lemma_first_match_found(s.drop_first(), p, i - 1);
        assert(!p(s[0]));
    }
}

/// When some element satisfies `p`, there is a first match, and it is an
/// element that satisfies `p`.
pub proof fn lemma_first_match_some<T>(s: Seq<T>, p: spec_fn(T) -> bool, i: int) -> (k: int)
    requires
        0 <= i < s.len(),
        p(s[i]),
    ensures
        0 <= k <= i,
        first_match(s, p) == Some(s[k]),
        p(s[k]),
    decreases i,
{
    if p(s[0]) {
        0
    } else {
        assert(s.drop_first()[i - 1] == s[i]);
        let k = lemma_first_match_some(s.drop_first(), p, i - 1);
        assert(s.drop_first()[k] == s[k + 1]);
        k + 1
    }
}

/// When no element satisfies `p`, there is no first match.
pub proof fn lemma_first_match_none<T>(s: Seq<T>, p: spec_fn(T) -> bool)
    requires
        forall|k: int| 0 <= k < s.len() ==> !p(#[trigger] s[k]),
    ensures
        first_match(s, p) is None,
    decreases s.len(),
{
    if s.len() > 0 {
        assert forall|k: int| 0 <= k < s.len() - 1 implies !p(#[trigger] s.drop_first()[k]) by {
            assert(s.drop_first()[k] == s[k + 1]);
        }
        lemma_first_match_none(s.drop_first(), p);
        assert(!p(s[0]));
    }
}

/// The decimal representation of a signed number, with `-` for negatives.
pub open spec fn dec_int(n: int) -> Seq<char> {
    if n < 0 {
        seq!['-'] + dec((-n) as nat)
    } else {
        dec(n as nat)
    }
}

/// The decimal representation of a signed number that always carries a sign (`{:+}`).
pub open spec fn dec_signed(n: int) -> Seq<char> {
    if n < 0 {
        seq!['-'] + dec((-n) as nat)
    } else {
        seq!['+'] + dec(n as nat)
    }
}

/// The parts of `s` joined with `sep` between them.
pub open spec fn join(parts: Seq<Seq<char>>, sep: Seq<char>) -> Seq<char>
    decreases parts.len(),
{
    if parts.len() == 0 {
        Seq::empty()
    } else if parts.len() == 1 {
        parts[0]
    } else {
        join(parts.drop_last(), sep) + sep + parts.last()
    }
}

/// Lexicographic order on code points, which is the order of `String` (UTF-8 byte order).
pub open spec fn lex_lt(a: Seq<char>, b: Seq<char>) -> bool
    decreases a.len(),
{
    if a.len() == 0 {
        b.len() > 0
    } else if b.len() == 0 {
        false
    } else if a[0] != b[0] {
        a[0] < b[0]
    } else {
        lex_lt(a.drop_first(), b.drop_first())
    }
}

/// Non-strict lexicographic order.
pub open spec fn lex_le(a: Seq<char>, b: Seq<char>) -> bool {
    a == b || lex_lt(a, b)
}

/// Three-way answer of a comparison.
#[derive(Debug, Clone, Copy, PartialEq, Eq, Structural)]
pub enum Precedence {
    Before,
    Same,
    After,
}

/// The three-way lexicographic comparison of two texts.
pub open spec fn lex_precedence(a: Seq<char>, b: Seq<char>) -> Precedence {
    if a == b {
        Precedence::Same
    } else if lex_lt(a, b) {
        Precedence::Before
    } else {
        Precedence::After
    }
}

// ---------------------------------------------------------------------------
// Lemmas about the order
// ---------------------------------------------------------------------------
/// A text is never before itself.
pub proof fn lemma_lex_irreflexive(a: Seq<char>)
    ensures
        !lex_lt(a, a),
    decreases a.len(),
{
    if a.len() > 0 {
        lemma_lex_irreflexive(a.drop_first());
    }
}

/// Of two different texts, one comes before the other.
pub proof fn lemma_lex_total(a: Seq<char>, b: Seq<char>)
    ensures
        a == b || lex_lt(a, b) || lex_lt(b, a),
    decreases a.len(),
{
    if a.len() > 0 && b.len() > 0 && a[0] == b[0] {
        lemma_lex_total(a.drop_first(), b.drop_first());
        if a.drop_first() == b.drop_first() {
            assert(a =~= seq![a[0]] + a.drop_first());
            assert(b =~= seq![b[0]] + b.drop_first());
            assert(a =~= b);
        }
    } else if a.len() == 0 && b.len() == 0 {
        assert(a =~= b);
    }
}

/// The order is asymmetric.
pub proof fn lemma_lex_asymmetric(a: Seq<char>, b: Seq<char>)
    requires
        lex_lt(a, b),
    ensures
        !lex_lt(b, a),
    decreases a.len(),
{
    if a.len() > 0 && b.len() > 0 && a[0] == b[0] {
        lemma_lex_asymmetric(a.drop_first(), b.drop_first());
    }
}

/// The order is transitive.
pub proof fn lemma_lex_transitive(a: Seq<char>, b: Seq<char>, c: Seq<char>)
    requires
        lex_lt(a, b),
        lex_lt(b, c),
    ensures
        lex_lt(a, c),
    decreases a.len(),
{
    if a.len() > 0 && b.len() > 0 && c.len() > 0 && a[0] == b[0] && b[0] == c[0] {
        lemma_lex_transitive(a.drop_first(), b.drop_first(), c.drop_first());
    }
}

/// Any two texts are ordered one way or the other.
pub proof fn lemma_lex_le_total(a: Seq<char>, b: Seq<char>)
    ensures
        lex_le(a, b) || lex_le(b, a),
{
    lemma_lex_total(a, b);
}

/// The non-strict order is transitive.
pub proof fn lemma_lex_le_transitive(a: Seq<char>, b: Seq<char>, c: Seq<char>)
    requires
        lex_le(a, b),
        lex_le(b, c),
    ensures
        lex_le(a, c),
{
    if a != b && b != c {
        lemma_lex_transitive(a, b, c);
    }
}

/// `find_from` returns an occurrence no earlier than where it starts looking.
pub proof fn lemma_find_from_occurs(s: Seq<char>, p: Seq<char>, i: int)
    requires
        0 <= i,
    ensures
        find_from(s, p, i) matches Some(k) ==> i <= k && occurs_at(s, p, k),
        find_from(s, p, i) is None ==> forall|k: int| i <= k ==> !occurs_at(s, p, k),
    decreases s.len() + 1 - i,
{
    if !(i < 0 || i + p.len() > s.len()) && !occurs_at(s, p, i) {
        lemma_find_from_occurs(s, p, i + 1);
    }
}

// ---------------------------------------------------------------------------
// Conversions
// ---------------------------------------------------------------------------
/// Returns the characters of `s` as a vector.
pub fn chars_of(s: &str) -> (out: Vec<char>)
    ensures
        out@ == s@,
{
    let mut out: Vec<char> = Vec::new();
    for c in it: s.chars()
        invariant
            it.seq() == s@,
            out@ == it.seq().take(it.index() as int),
    {
        out.push(c);
    }
    out
}

/// Appends one character to a `String` (`String::push`).
#[verifier::external_body]
pub fn push_char(s: &mut String, c: char)
    ensures
        final(s)@ == old(s)@.push(c),
{
    s.push(c);
}

/// The `String` made of the given characters.
pub fn string_of(v: &Vec<char>) -> (out: String)
    ensures
        out@ == v@,
{
    let mut out = String::new();
    let mut i: usize = 0;
    while i < v.len()
        invariant
            0 <= i <= v.len(),
            out@ == v@.take(i as int),
        decreases v.len() - i,
    {
        push_char(&mut out, v[i]);
        assert(v@.take(i as int).push(v@[i as int]) =~= v@.take(i + 1));
        i += 1;
    }
    assert(v@.take(v.len() as int) =~= v@);
    out
}

/// The `String` holding the text of `s`.
pub fn string_from(s: &str) -> (out: String)
    ensures
        out@ == s@,
{
    s.to_owned()
}

/// Copies a `String`.
pub fn copy_string(s: &String) -> (out: String)
    ensures
        out@ == s@,
        out == *s,
{
    s.clone()
}

/// Copies an optional `String`.
pub fn copy_opt_string(s: &Option<String>) -> (out: Option<String>)
    ensures
        out == *s,
{
    match s {
        Some(v) => Some(v.clone()),
        None => None,
    }
}

/// Copies a list of strings.
pub fn copy_strings(v: &Vec<String>) -> (out: Vec<String>)
    ensures
        out@ == v@,
{
    let mut out: Vec<String> = Vec::new();
    let mut i: usize = 0;
    while i < v.len()
        invariant
            0 <= i <= v.len(),
            out@ == v@.take(i as int),
        decreases v.len() - i,
    {
        out.push(v[i].clone());
        assert(v@.take(i as int).push(v@[i as int]) =~= v@.take(i + 1));
        i += 1;
    }
    assert(v@.take(v.len() as int) =~= v@);
    out
}

/// Appends the characters of `s` to `out`.
pub fn push_str_chars(out: &mut Vec<char>, s: &str)
    ensures
        final(out)@ == old(out)@ + s@,
{
    let c = chars_of(s);
    push_all(out, &c);
}

/// Appends all of `src` to `out`.
pub fn push_all(out: &mut Vec<char>, src: &Vec<char>)
    ensures
        final(out)@ == old(out)@ + src@,
{
    let ghost start = out@;
    let mut i: usize = 0;
    while i < src.len()
        invariant
            0 <= i <= src.len(),
            out@ == start + src@.take(i as int),
        decreases src.len() - i,
    {
        out.push(src[i]);
        assert(start + src@.take(i as int).push(src@[i as int]) =~= start + src@.take(i + 1));
        i += 1;
    }
    assert(src@.take(src.len() as int) =~= src@);
}

/// Copies a character buffer.
pub fn copy_chars(src: &Vec<char>) -> (out: Vec<char>)
    ensures
        out@ == src@,
{
    let mut out: Vec<char> = Vec::new();
    push_all(&mut out, src);
    assert(Seq::<char>::empty() + src@ =~= src@);
    out
}

/// The characters of `v` from `from` up to (not including) `to`.
pub fn slice_chars(v: &Vec<char>, from: usize, to: usize) -> (out: Vec<char>)
    requires
        from <= to <= v.len(),
    ensures
        out@ == v@.subrange(from as int, to as int),
{
    let mut out: Vec<char> = Vec::new();
    let mut i: usize = from;
    while i < to
        invariant
            from <= i <= to <= v.len(),
            out@ == v@.subrange(from as int, i as int),
        decreases to - i,
    {
        out.push(v[i]);
        assert(v@.subrange(from as int, i as int).push(v@[i as int]) =~= v@.subrange(
            from as int,
            i + 1,
        ));
        i += 1;
    }
    out
}

// ---------------------------------------------------------------------------
// Tests on characters
// ---------------------------------------------------------------------------
/// ASCII decimal digit.
pub fn char_is_digit(c: char) -> (r: bool)
    ensures
        r == is_digit(c),
{
    '0' <= c && c <= '9'
}

/// ASCII hexadecimal digit.
pub fn char_is_hex_digit(c: char) -> (r: bool)
    ensures
        r == is_hex_digit(c),
{
    ('0' <= c && c <= '9') || ('a' <= c && c <= 'f') || ('A' <= c && c <= 'F')
}

/// ASCII upper-case letter.
pub fn char_is_upper(c: char) -> (r: bool)
    ensures
        r == is_upper(c),
{
    'A' <= c && c <= 'Z'
}

/// Unicode white space.
pub fn char_is_space(c: char) -> (r: bool)
    ensures
        r == is_space(c),
{
    c == ' ' || ('\t' <= c && c <= '\r') || c == '\u{85}' || c == '\u{A0}' || c == '\u{1680}' || (
    '\u{2000}' <= c && c <= '\u{200A}') || c == '\u{2028}' || c == '\u{2029}' || c == '\u{202F}'
        || c == '\u{205F}' || c == '\u{3000}'
}

/// The ASCII lower-case form of a character.
pub fn char_lower(c: char) -> (r: char)
    ensures
        r == ascii_lower(c),
{
    if 'A' <= c && c <= 'Z' {
        let v: u32 = (c as u32) + 32;
        assert('a' as u32 <= v <= 'z' as u32);
        char_from_ascii(v)
    } else {
        c
    }
}

/// The character with an ASCII code point.
fn char_from_ascii(v: u32) -> (r: char)
    requires
        v < 128,
    ensures
        r == v as char,
{
    let b: u8 = v as u8;
    b as char
}

// ---------------------------------------------------------------------------
// Comparisons and searches on character buffers
// ---------------------------------------------------------------------------
/// Whether two buffers hold the same text.
pub fn chars_eq(a: &Vec<char>, b: &Vec<char>) -> (r: bool)
    ensures
        r == (a@ == b@),
{
    if a.len() != b.len() {
        return false;
    }
    let mut i: usize = 0;
    while i < a.len()
        invariant
            a.len() == b.len(),
            0 <= i <= a.len(),
            forall|k: int| 0 <= k < i ==> a@[k] == b@[k],
        decreases a.len() - i,
    {
        if a[i] != b[i] {
            return false;
        }
        i += 1;
    }
    assert(a@ =~= b@);
    true
}

/// Whether two string slices hold the same text.
pub fn str_eq(a: &str, b: &str) -> (r: bool)
    ensures
        r == (a@ == b@),
{
    let x = chars_of(a);
    let y = chars_of(b);
    chars_eq(&x, &y)
}

/// Whether `p` occurs in `s` at index `i`.
pub fn chars_occur_at(s: &Vec<char>, p: &Vec<char>, i: usize) -> (r: bool)
    ensures
        r == occurs_at(s@, p@, i as int),
{
    if i > s.len() || p.len() > s.len() - i {
        return false;
    }
    let mut k: usize = 0;
    while k < p.len()
        invariant
            i + p.len() <= s.len(),
            0 <= k <= p.len(),
            forall|j: int| 0 <= j < k ==> s@[i + j] == p@[j],
        decreases p.len() - k,
    {
        if s[i + k] != p[k] {
            assert(s@.subrange(i as int, i + p.len())[k as int] != p@[k as int]);
            return false;
        }
        k += 1;
    }
    assert(s@.subrange(i as int, i + p.len()) =~= p@);
    true
}

/// Whether `p` is a prefix of `s`.
pub fn chars_starts_with(s: &Vec<char>, p: &Vec<char>) -> (r: bool)
    ensures
        r == is_prefix(p@, s@),
{
    let r = chars_occur_at(s, p, 0);
    proof {
        if r {
            assert(s@.take(p@.len() as int) =~= s@.subrange(0, p@.len() as int));
        } else if p@.len() <= s@.len() {
            assert(s@.take(p@.len() as int) =~= s@.subrange(0, p@.len() as int));
        }
    }
    r
}

/// Whether `p` is a suffix of `s`.
pub fn chars_ends_with(s: &Vec<char>, p: &Vec<char>) -> (r: bool)
    ensures
        r == is_suffix(p@, s@),
{
    if p.len() > s.len() {
        return false;
    }
    let start = s.len() - p.len();
    let r = chars_occur_at(s, p, start);
    proof {
        assert(s@.skip(start as int) =~= s@.subrange(start as int, start + p@.len()));
    }
    r
}

/// Whether the text of `s` begins with the text of `p`.
pub fn str_starts_with(s: &str, p: &str) -> (r: bool)
    ensures
        r == is_prefix(p@, s@),
{
    let x = chars_of(s);
    let y = chars_of(p);
    chars_starts_with(&x, &y)
}

/// Whether the text of `s` ends with the text of `p`.
pub fn str_ends_with(s: &str, p: &str) -> (r: bool)
    ensures
        r == is_suffix(p@, s@),
{
    let x = chars_of(s);
    let y = chars_of(p);
    chars_ends_with(&x, &y)
}

/// The first index `>= from` at which `p` occurs in `s`.
pub fn chars_find_from(s: &Vec<char>, p: &Vec<char>, from: usize) -> (r: Option<usize>)
    ensures
        match r {
            Some(k) => find_from(s@, p@, from as int) == Some(k as int),
            None => find_from(s@, p@, from as int) is None,
        },
{
    if p.len() > s.len() || from > s.len() - p.len() {
        return None;
    }
    let last = s.len() - p.len();
    let mut i: usize = from;
    loop
        invariant
            from <= i <= last,
            last == s.len() - p.len(),
            find_from(s@, p@, from as int) == find_from(s@, p@, i as int),
        decreases last - i,
    {
        if chars_occur_at(s, p, i) {
            return Some(i);
        }
        if i >= last {
            assert(find_from(s@, p@, i + 1) is None);
            return None;
        }
        i += 1;
    }
}

/// The first index at which `p` occurs in `s`.
pub fn chars_find(s: &Vec<char>, p: &Vec<char>) -> (r: Option<usize>)
    ensures
        match r {
            Some(k) => find_seq(s@, p@) == Some(k as int),
            None => find_seq(s@, p@) is None,
        },
{
    chars_find_from(s, p, 0)
}

/// Whether `p` occurs in `s`.
pub fn chars_contains(s: &Vec<char>, p: &Vec<char>) -> (r: bool)
    ensures
        r == contains_seq(s@, p@),
{
    chars_find(s, p).is_some()
}

/// Whether the text of `s` contains the text of `p`.
pub fn str_contains(s: &str, p: &str) -> (r: bool)
    ensures
        r == contains_seq(s@, p@),
{
    let x = chars_of(s);
    let y = chars_of(p);
    chars_contains(&x, &y)
}

/// Whether the character `c` occurs in `s`.
pub fn chars_has(s: &Vec<char>, c: char) -> (r: bool)
    ensures
        r == has_char(s@, c),
{
    let mut i: usize = 0;
    while i < s.len()
        invariant
            0 <= i <= s.len(),
            forall|k: int| 0 <= k < i ==> s@[k] != c,
        decreases s.len() - i,
    {
        if s[i] == c {
            return true;
        }
        i += 1;
    }
    false
}

/// Splits `s` around the first occurrence of `p`.
pub fn chars_split_once(s: &Vec<char>, p: &Vec<char>) -> (r: Option<(Vec<char>, Vec<char>)>)
    ensures
        match r {
            Some((a, b)) => split_once_seq(s@, p@) == Some((a@, b@)),
            None => split_once_seq(s@, p@) is None,
        },
{
    match chars_find(s, p) {
        Some(i) => {
            proof {
                lemma_find_from_occurs(s@, p@, 0);
            }
            assert(find_from(s@, p@, 0) == Some(i as int));
            assert(occurs_at(s@, p@, i as int));
            assert(i + p@.len() <= s@.len());
            let plen = p.len();
            let slen = s.len();
            assert(i + plen <= slen);
            let a = slice_chars(s, 0, i);
            let b = slice_chars(s, i + plen, slen);
            assert(a@ =~= s@.take(i as int));
            assert(b@ =~= s@.skip(i + p@.len()));
            Some((a, b))
        },
        None => None,
    }
}

/// The pieces of `s` between the occurrences of `p` (`str::split`).
pub fn chars_split_all(s: &Vec<char>, p: &Vec<char>) -> (out: Vec<Vec<char>>)
    requires
        p.len() > 0,
    ensures
        views(out@) == split_all(s@, p@),
        out@.len() >= 1,
    decreases s.len(),
{
    match chars_find(s, p) {
        None => {
            let out = vec![copy_chars(s)];
            assert(views(out@) =~= seq![s@]);
            out
        },
        Some(i) => {
            proof {
                lemma_find_from_occurs(s@, p@, 0);
            }
            let plen = p.len();
            let slen = s.len();
            assert(i + plen <= slen);
            let head = slice_chars(s, 0, i);
            let tail = slice_chars(s, i + plen, slen);
            assert(head@ =~= s@.take(i as int));
            assert(tail@ =~= s@.skip(i + p@.len()));
            let mut rest = chars_split_all(&tail, p);
            let mut out: Vec<Vec<char>> = vec![head];
            let ghost first = out@;
            let ghost tail_parts = rest@;
            out.append(&mut rest);
            assert(out@ =~= first + tail_parts);
            assert(views(out@) =~= seq![head@] + views(tail_parts));
            out
        },
    }
}

/// `s` with every `c` replaced by the text `r`.
pub fn chars_replace(s: &Vec<char>, c: char, r: &Vec<char>) -> (out: Vec<char>)
    ensures
        out@ == replace_char(s@, c, r@),
{
    let mut out: Vec<char> = Vec::new();
    let mut i: usize = 0;
    while i < s.len()
        invariant
            0 <= i <= s.len(),
            out@ == replace_char(s@.take(i as int), c, r@),
        decreases s.len() - i,
    {
        assert(s@.take(i + 1).drop_last() =~= s@.take(i as int));
        if s[i] == c {
            push_all(&mut out, r);
        } else {
            out.push(s[i]);
            assert(out@ =~= replace_char(s@.take(i as int), c, r@) + seq![s@[i as int]]);
        }
        i += 1;
    }
    assert(s@.take(s.len() as int) =~= s@);
    out
}

/// Whether two buffers are equal ignoring ASCII case.
pub fn chars_eq_ignore_case(a: &Vec<char>, b: &Vec<char>) -> (r: bool)
    ensures
        r == eq_ignore_case(a@, b@),
{
    if a.len() != b.len() {
        return false;
    }
    let mut i: usize = 0;
    while i < a.len()
        invariant
            a.len() == b.len(),
            0 <= i <= a.len(),
            forall|k: int| 0 <= k < i ==> ascii_lower(a@[k]) == ascii_lower(b@[k]),
        decreases a.len() - i,
    {
        if char_lower(a[i]) != char_lower(b[i]) {
            return false;
        }
        i += 1;
    }
    true
}

/// Whether two string slices are equal ignoring ASCII case.
pub fn str_eq_ignore_case(a: &str, b: &str) -> (r: bool)
    ensures
        r == eq_ignore_case(a@, b@),
{
    let x = chars_of(a);
    let y = chars_of(b);
    chars_eq_ignore_case(&x, &y)
}

/// `s` without leading and trailing white space.
pub fn chars_trim(s: &Vec<char>) -> (out: Vec<char>)
    ensures
        out@ == trim(s@),
{
    let mut start: usize = 0;
    assert(s@.skip(0) =~= s@);
    while start < s.len() && char_is_space(s[start])
        invariant
            0 <= start <= s.len(),
            trim_start(s@) == trim_start(s@.skip(start as int)),
        decreases s.len() - start,
    {
        assert(s@.skip(start as int).drop_first() =~= s@.skip(start + 1));
        start += 1;
    }
    let mut end: usize = s.len();
    assert(s@.skip(start as int) =~= s@.subrange(start as int, end as int));
    while end > start && char_is_space(s[end - 1])
        invariant
            start <= end <= s.len(),
            trim_start(s@) == s@.skip(start as int) || trim_start(s@) == trim_start(s@.skip(start as int)),
            trim(s@) == trim_end(s@.subrange(start as int, end as int)),
        decreases end - start,
    {
        assert(s@.subrange(start as int, end as int).drop_last() =~= s@.subrange(
            start as int,
            end - 1,
        ));
        end -= 1;
    }
    slice_chars(s, start, end)
}

/// Whether the text is empty after trimming white space.
pub fn str_is_blank(s: &str) -> (r: bool)
    ensures
        r == (trim(s@).len() == 0),
{
    let c = chars_of(s);
    let t = chars_trim(&c);
    t.len() == 0
}

// ---------------------------------------------------------------------------
// Numbers
// ---------------------------------------------------------------------------
/// The character of a decimal digit.
pub fn digit_of(d: u64) -> (c: char)
    requires
        d < 10,
    ensures
        c == digit_char(d as nat),
{
    if d == 0 {
        '0'
    } else if d == 1 {
        '1'
    } else if d == 2 {
        '2'
    } else if d == 3 {
        '3'
    } else if d == 4 {
        '4'
    } else if d == 5 {
        '5'
    } else if d == 6 {
        '6'
    } else if d == 7 {
        '7'
    } else if d == 8 {
        '8'
    } else {
        '9'
    }
}

/// Appends the decimal representation of `n`.
pub fn push_dec(out: &mut Vec<char>, n: u64)
    ensures
        final(out)@ == old(out)@ + dec(n as nat),
    decreases n,
{
    if n >= 10 {
        push_dec(out, n / 10);
    }
    out.push(digit_of(n % 10));
    proof {
        if n >= 10 {
            assert(dec(n as nat) == dec((n / 10) as nat).push(digit_char((n % 10) as nat)));
        }
    }
}

/// The character of a hexadecimal digit.
pub fn hex_digit_of(d: u64) -> (c: char)
    requires
        d < 16,
    ensures
        c == hex_digit_char(d as nat),
{
    if d < 10 {
        digit_of(d)
    } else if d == 10 {
        'a'
    } else if d == 11 {
        'b'
    } else if d == 12 {
        'c'
    } else if d == 13 {
        'd'
    } else if d == 14 {
        'e'
    } else {
        'f'
    }
}

/// Appends the lower-case hexadecimal representation of `n`.
pub fn push_hex(out: &mut Vec<char>, n: u64)
    ensures
        final(out)@ == old(out)@ + hex(n as nat),
    decreases n,
{
    if n >= 16 {
        push_hex(out, n / 16);
    }
    out.push(hex_digit_of(n % 16));
    proof {
        if n >= 16 {
            assert(hex(n as nat) == hex((n / 16) as nat).push(hex_digit_char((n % 16) as nat)));
        }
    }
}

/// Appends the decimal representation of a signed number.
pub fn push_dec_int(out: &mut Vec<char>, n: i64)
    ensures
        final(out)@ == old(out)@ + dec_int(n as int),
{
    if n < 0 {
        out.push('-');
        let m: u64 = ((-(n + 1)) as u64) + 1;
        push_dec(out, m);
    } else {
        push_dec(out, n as u64);
    }
}

/// Appends the decimal representation of a signed number with a leading sign.
pub fn push_dec_signed(out: &mut Vec<char>, n: i64)
    ensures
        final(out)@ == old(out)@ + dec_signed(n as int),
{
    if n < 0 {
        push_dec_int(out, n);
    } else {
        out.push('+');
        push_dec(out, n as u64);
    }
}



/// Three-way lexicographic comparison of two texts.
pub fn compare_chars(a: &Vec<char>, b: &Vec<char>) -> (r: Precedence)
    ensures
        r == lex_precedence(a@, b@),
{
    let mut i: usize = 0;
    assert(a@.skip(0) =~= a@);
    assert(b@.skip(0) =~= b@);
    while i < a.len() && i < b.len() && a[i] == b[i]
        invariant
            0 <= i <= a.len(),
            i <= b.len(),
            a@.take(i as int) == b@.take(i as int),
            lex_lt(a@, b@) == lex_lt(a@.skip(i as int), b@.skip(i as int)),
            lex_lt(b@, a@) == lex_lt(b@.skip(i as int), a@.skip(i as int)),
        decreases a.len() - i,
    {
        assert(a@.skip(i as int).drop_first() =~= a@.skip(i + 1));
        assert(b@.skip(i as int).drop_first() =~= b@.skip(i + 1));
        assert(a@.take(i + 1) =~= a@.take(i as int).push(a@[i as int]));
        assert(b@.take(i + 1) =~= b@.take(i as int).push(b@[i as int]));
        i += 1;
    }
    proof {
        lemma_lex_irreflexive(a@);
    }
    if i == a.len() && i == b.len() {
        assert(a@ =~= a@.take(i as int));
        assert(b@ =~= b@.take(i as int));
        Precedence::Same
    } else if i == a.len() {
        assert(a@ =~= a@.take(i as int));
        assert(a@.skip(i as int).len() == 0);
        Precedence::Before
    } else if i == b.len() {
        assert(b@ =~= b@.take(i as int));
        assert(b@.skip(i as int).len() == 0);
        assert(a@.len() != b@.len());
        Precedence::After
    } else if a[i] < b[i] {
        assert(a@[i as int] != b@[i as int]);
        assert(a@ != b@) by {
            if a@ == b@ {
                assert(a@[i as int] == b@[i as int]);
            }
        }
        Precedence::Before
    } else {
        assert(a@ != b@) by {
            if a@ == b@ {
                assert(a@[i as int] == b@[i as int]);
            }
        }
        assert(a@.skip(i as int)[0] == a@[i as int]);
        assert(b@.skip(i as int)[0] == b@[i as int]);
        Precedence::After
    }
}

/// Three-way lexicographic comparison of two strings.
pub fn compare_strings(a: &String, b: &String) -> (r: Precedence)
    ensures
        r == lex_precedence(a@, b@),
{
    let x = chars_of(a.as_str());
    let y = chars_of(b.as_str());
    compare_chars(&x, &y)
}

/// Whether `a` sorts no later than `b` (`a <= b` on `String`).
pub fn str_le(a: &String, b: &String) -> (r: bool)
    ensures
        r == lex_le(a@, b@),
{
    match compare_strings(a, b) {
        Precedence::After => false,
        _ => true,
    }
}

/// The texts held by a list of character buffers.
pub open spec fn views(v: Seq<Vec<char>>) -> Seq<Seq<char>> {
    v.map_values(|x: Vec<char>| x@)
}

/// The parts joined with `sep` between them (`[..].join(sep)`).
pub fn join_chars(parts: &Vec<Vec<char>>, sep: &Vec<char>) -> (out: Vec<char>)
    ensures
        out@ == join(views(parts@), sep@),
{
    let mut out: Vec<char> = Vec::new();
    let mut i: usize = 0;
    assert(views(parts@).take(0) =~= Seq::<Seq<char>>::empty());
    while i < parts.len()
        invariant
            0 <= i <= parts.len(),
            out@ == join(views(parts@).take(i as int), sep@),
        decreases parts.len() - i,
    {
        let ghost before = views(parts@).take(i as int);
        assert(views(parts@).take(i + 1).drop_last() =~= before);
        assert(views(parts@).take(i + 1).last() == parts@[i as int]@);
        if i > 0 {
            push_all(&mut out, sep);
        } else {
            assert(views(parts@).take(1) =~= seq![parts@[0]@]);
        }
        push_all(&mut out, &parts[i]);
        proof {
            if i == 0 {
                assert(out@ =~= parts@[0]@);
            }
        }
        i += 1;
    }
    assert(views(parts@).take(parts.len() as int) =~= views(parts@));
    out
}


} // verus!
