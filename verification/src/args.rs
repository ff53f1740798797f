//! Reading the values of command-line options.
use vstd::prelude::*;

use crate::cpp::CppGroupBy;
use crate::git::CommitOrder;
use crate::model::{CiFormat, MapFormatSelection, SourceLinesMode, ToolchainSelection, WarningLevel};
use crate::text::{chars_of, chars_split_once, is_digit, push_str_chars, split_once_seq, str_eq, string_of};

verus! {

/// The value of a decimal digit character.
pub open spec fn digit_value(c: char) -> int {
    (c as int) - ('0' as int)
}

/// The value of a string of decimal digits.
pub open spec fn digits_value(s: Seq<char>) -> int
    decreases s.len(),
{
    if s.len() == 0 {
        0
    } else {
        digits_value(s.drop_last()) * 10 + digit_value(s.last())
    }
}

/// Every character is a decimal digit.
pub open spec fn all_digits(s: Seq<char>) -> bool {
    forall|i: int| 0 <= i < s.len() ==> is_digit(#[trigger] s[i])
}

/// What `str::parse` gives for an unsigned integer type whose largest value
/// is `max`: an optional `+`, then at least one digit, and a value that fits.
pub open spec fn parse_unsigned(s: Seq<char>, max: int) -> Option<int> {
    let body = if s.len() > 0 && s[0] == '+' {
        s.drop_first()
    } else {
        s
    };
    if body.len() > 0 && all_digits(body) && digits_value(body) <= max {
        Some(digits_value(body))
    } else {
        None
    }
}

/// What `str::parse::<i64>` gives: an optional sign, then at least one digit,
/// and a value that fits.
pub open spec fn parse_signed(s: Seq<char>) -> Option<int> {
    if s.len() > 0 && s[0] == '-' {
        let body = s.drop_first();
        if body.len() > 0 && all_digits(body) && digits_value(body) <= i64::MAX + 1 {
            Some(-digits_value(body))
        } else {
            None
        }
    } else {
        parse_unsigned(s, i64::MAX as int)
    }
}

proof fn lemma_digits_value_nonneg(s: Seq<char>)
    requires
        all_digits(s),
    ensures
        digits_value(s) >= 0,
    decreases s.len(),
{
    if s.len() > 0 {
        assert(all_digits(s.drop_last())) by {
            assert forall|i: int| 0 <= i < s.drop_last().len() implies is_digit(#[trigger] s.drop_last()[i]) by {
                assert(s.drop_last()[i] == s[i]);
            }
        }
        lemma_digits_value_nonneg(s.drop_last());
        assert(is_digit(s[s.len() - 1]));
    }
}

proof fn lemma_digits_value_grows(s: Seq<char>, k: int)
    requires
        all_digits(s),
        0 <= k <= s.len(),
    ensures
        digits_value(s.take(k)) <= digits_value(s),
    decreases s.len(),
{
    if k < s.len() {
        assert(all_digits(s.drop_last())) by {
            assert forall|i: int| 0 <= i < s.drop_last().len() implies is_digit(#[trigger] s.drop_last()[i]) by {
                assert(s.drop_last()[i] == s[i]);
            }
        }
        assert(s.drop_last().take(k) =~= s.take(k));
        lemma_digits_value_grows(s.drop_last(), k);
        lemma_digits_value_nonneg(s.drop_last());
        assert(is_digit(s[s.len() - 1]));
    } else {
        assert(s.take(k) =~= s);
    }
}

/// Reads the digits of `v` from `start` as a number no larger than `max`.
fn digits_up_to(v: &Vec<char>, start: usize, max: u64) -> (r: Option<u64>)
    requires
        start <= v.len(),
    ensures
        ({
            let body = v@.skip(start as int);
            match r {
                Some(n) => body.len() > 0 && all_digits(body) && digits_value(body) <= max && n == digits_value(body),
                None => !(body.len() > 0 && all_digits(body) && digits_value(body) <= max),
            }
        }),
{
    let ghost body = v@.skip(start as int);
    if start == v.len() {
        return None;
    }
    let mut value: u64 = 0;
    let mut i: usize = start;
    assert(body.take(0) =~= Seq::<char>::empty());
    while i < v.len()
        invariant
            start <= i <= v.len(),
            body == v@.skip(start as int),
            all_digits(body.take(i - start)),
            value == digits_value(body.take(i - start)),
            value <= max,
        decreases v.len() - i,
    {
        let c = v[i];
        assert(body[i - start] == c);
        assert(body.take(i - start + 1).drop_last() =~= body.take(i - start));
        assert(body.take(i - start + 1).last() == c);
        if !('0' <= c && c <= '9') {
            assert(!all_digits(body)) by {
                assert(!is_digit(body[i - start]));
            }
            return None;
        }
        let d: u64 = (c as u32 - '0' as u32) as u64;
        assert(d as int == digit_value(c));
        assert(all_digits(body.take(i - start + 1))) by {
            assert forall|k: int| 0 <= k < body.take(i - start + 1).len() implies is_digit(
                #[trigger] body.take(i - start + 1)[k],
            ) by {
                if k < i - start {
                    assert(body.take(i - start + 1)[k] == body.take(i - start)[k]);
                }
            }
        }
        if d > max || value > (max - d) / 10 {
            proof {
                assert(value * 10 + d > max) by (nonlinear_arith)
                    requires
                        d > max || value > (max - d) / 10,
                        d < 10,
                        value >= 0,
                ;
                if all_digits(body) {
                    lemma_digits_value_grows(body, i - start + 1);
                }
            }
            return None;
        }
        assert(value * 10 + d <= max) by (nonlinear_arith)
            requires
                value <= (max - d) / 10,
                d <= max,
        ;
        value = value * 10 + d;
        i += 1;
    }
    assert(body.take(i - start) =~= body);
    Some(value)
}

/// Reads an unsigned number no larger than `max` (what `str::parse` does for
/// `u64` and `usize`).
pub fn parse_unsigned_text(value: &str, max: u64) -> (r: Option<u64>)
    ensures
        match r {
            Some(n) => parse_unsigned(value@, max as int) == Some(n as int),
            None => parse_unsigned(value@, max as int) is None,
        },
{
    let v = chars_of(value);
    if v.len() > 0 && v[0] == '+' {
        assert(v@.skip(1) =~= v@.drop_first());
        digits_up_to(&v, 1, max)
    } else {
        assert(v@.skip(0) =~= v@);
        digits_up_to(&v, 0, max)
    }
}

/// Reads a signed 64-bit number (what `str::parse::<i64>` does).
pub fn parse_i64_text(value: &str) -> (r: Option<i64>)
    ensures
        match r {
            Some(n) => parse_signed(value@) == Some(n as int),
            None => parse_signed(value@) is None,
        },
{
    let v = chars_of(value);
    if v.len() > 0 && v[0] == '-' {
        assert(v@.skip(1) =~= v@.drop_first());
        match digits_up_to(&v, 1, 9223372036854775808u64) {
            Some(n) => {
                if n == 9223372036854775808u64 {
                    Some(i64::MIN)
                } else {
                    Some(-(n as i64))
                }
            },
            None => None,
        }
    } else {
        match parse_unsigned_text(value, 9223372036854775807u64) {
            Some(n) => Some(n as i64),
            None => None,
        }
    }
}

fn message(parts: &[&str]) -> (r: String)
    ensures
        parts@.len() == 1 ==> r@ == parts@[0]@,
        parts@.len() == 2 ==> r@ == parts@[0]@ + parts@[1]@,
        parts@.len() == 3 ==> r@ == parts@[0]@ + parts@[1]@ + parts@[2]@,
        parts@.len() == 4 ==> r@ == parts@[0]@ + parts@[1]@ + parts@[2]@ + parts@[3]@,
        parts@.len() == 5 ==> r@ == parts@[0]@ + parts@[1]@ + parts@[2]@ + parts@[3]@ + parts@[4]@,
{
    let mut v: Vec<char> = Vec::new();
    let mut i: usize = 0;
    let ghost mut acc: Seq<Seq<char>> = Seq::empty();
    while i < parts.len()
        invariant
            0 <= i <= parts@.len(),
            i == 0 ==> v@ == Seq::<char>::empty(),
            i == 1 ==> v@ == parts@[0]@,
            i == 2 ==> v@ == parts@[0]@ + parts@[1]@,
            i == 3 ==> v@ == parts@[0]@ + parts@[1]@ + parts@[2]@,
            i == 4 ==> v@ == parts@[0]@ + parts@[1]@ + parts@[2]@ + parts@[3]@,
            i == 5 ==> v@ == parts@[0]@ + parts@[1]@ + parts@[2]@ + parts@[3]@ + parts@[4]@,
        decreases parts@.len() - i,
    {
        push_str_chars(&mut v, parts[i]);
        proof {
            if i == 0 {
                assert(v@ =~= parts@[0]@);
            }
        }
        i += 1;
    }
    string_of(&v)
}

/// Reads an unsigned 64-bit option value.
pub fn parse_u64(value: &str, key: &str) -> (r: Result<u64, String>)
    ensures
        match r {
            Ok(n) => parse_unsigned(value@, u64::MAX as int) == Some(n as int),
            Err(e) => parse_unsigned(value@, u64::MAX as int) is None && e@ == "invalid integer for "@ + key@ + ": "@
                + value@,
        },
{
    match parse_unsigned_text(value, u64::MAX) {
        Some(n) => Ok(n),
        None => Err(message(&["invalid integer for ", key, ": ", value])),
    }
}

/// Reads a count option value.
pub fn parse_usize(value: &str, key: &str) -> (r: Result<usize, String>)
    ensures
        match r {
            Ok(n) => parse_unsigned(value@, usize::MAX as int) == Some(n as int),
            Err(e) => parse_unsigned(value@, usize::MAX as int) is None && e@ == "invalid integer for "@ + key@ + ": "@
                + value@,
        },
{
    match parse_unsigned_text(value, usize::MAX as u64) {
        Some(n) => Ok(n as usize),
        None => Err(message(&["invalid integer for ", key, ": ", value])),
    }
}

/// Reads the `--ci-format` value.
pub fn parse_ci_format(value: &str) -> (r: Result<CiFormat, String>)
    ensures
        if value@ == "text"@ {
            r == Ok::<CiFormat, String>(CiFormat::Text)
        } else if value@ == "markdown"@ {
            r == Ok::<CiFormat, String>(CiFormat::Markdown)
        } else if value@ == "json"@ {
            r == Ok::<CiFormat, String>(CiFormat::Json)
        } else {
            r is Err && r->Err_0@ == "invalid ci format '"@ + value@ + "', expected text|markdown|json"@
        },
{
    if str_eq(value, "text") {
        Ok(CiFormat::Text)
    } else if str_eq(value, "markdown") {
        Ok(CiFormat::Markdown)
    } else if str_eq(value, "json") {
        Ok(CiFormat::Json)
    } else {
        Err(message(&["invalid ci format '", value, "', expected text|markdown|json"]))
    }
}

/// Reads the `--toolchain` value.
pub fn parse_toolchain(value: &str) -> (r: Result<ToolchainSelection, String>)
    ensures
        if value@ == "auto"@ {
            r == Ok::<ToolchainSelection, String>(ToolchainSelection::Auto)
        } else if value@ == "gnu"@ {
            r == Ok::<ToolchainSelection, String>(ToolchainSelection::Gnu)
        } else if value@ == "lld"@ {
            r == Ok::<ToolchainSelection, String>(ToolchainSelection::Lld)
        } else if value@ == "iar"@ {
            r == Ok::<ToolchainSelection, String>(ToolchainSelection::Iar)
        } else if value@ == "armcc"@ {
            r == Ok::<ToolchainSelection, String>(ToolchainSelection::Armcc)
        } else if value@ == "keil"@ {
            r == Ok::<ToolchainSelection, String>(ToolchainSelection::Keil)
        } else {
            r is Err && r->Err_0@ == "invalid toolchain '"@ + value@ + "', expected auto|gnu|lld|iar|armcc|keil"@
        },
{
    if str_eq(value, "auto") {
        Ok(ToolchainSelection::Auto)
    } else if str_eq(value, "gnu") {
        Ok(ToolchainSelection::Gnu)
    } else if str_eq(value, "lld") {
        Ok(ToolchainSelection::Lld)
    } else if str_eq(value, "iar") {
        Ok(ToolchainSelection::Iar)
    } else if str_eq(value, "armcc") {
        Ok(ToolchainSelection::Armcc)
    } else if str_eq(value, "keil") {
        Ok(ToolchainSelection::Keil)
    } else {
        Err(message(&["invalid toolchain '", value, "', expected auto|gnu|lld|iar|armcc|keil"]))
    }
}

/// Reads the `--map-format` value.
pub fn parse_map_format(value: &str) -> (r: Result<MapFormatSelection, String>)
    ensures
        if value@ == "auto"@ {
            r == Ok::<MapFormatSelection, String>(MapFormatSelection::Auto)
        } else if value@ == "gnu"@ {
            r == Ok::<MapFormatSelection, String>(MapFormatSelection::Gnu)
        } else if value@ == "lld-native"@ {
            r == Ok::<MapFormatSelection, String>(MapFormatSelection::LldNative)
        } else {
            r is Err && r->Err_0@ == "invalid map format '"@ + value@ + "', expected auto|gnu|lld-native"@
        },
{
    if str_eq(value, "auto") {
        Ok(MapFormatSelection::Auto)
    } else if str_eq(value, "gnu") {
        Ok(MapFormatSelection::Gnu)
    } else if str_eq(value, "lld-native") {
        Ok(MapFormatSelection::LldNative)
    } else {
        Err(message(&["invalid map format '", value, "', expected auto|gnu|lld-native"]))
    }
}

/// Reads the `--source-lines` value.
pub fn parse_source_lines_mode(value: &str) -> (r: Result<SourceLinesMode, String>)
    ensures
        if value@ == "off"@ {
            r == Ok::<SourceLinesMode, String>(SourceLinesMode::Off)
        } else if value@ == "files"@ {
            r == Ok::<SourceLinesMode, String>(SourceLinesMode::Files)
        } else if value@ == "functions"@ {
            r == Ok::<SourceLinesMode, String>(SourceLinesMode::Functions)
        } else if value@ == "lines"@ {
            r == Ok::<SourceLinesMode, String>(SourceLinesMode::Lines)
        } else if value@ == "all"@ {
            r == Ok::<SourceLinesMode, String>(SourceLinesMode::All)
        } else {
            r is Err && r->Err_0@ == "invalid source-lines mode '"@ + value@ + "', expected off|files|functions|lines|all"@
        },
{
    if str_eq(value, "off") {
        Ok(SourceLinesMode::Off)
    } else if str_eq(value, "files") {
        Ok(SourceLinesMode::Files)
    } else if str_eq(value, "functions") {
        Ok(SourceLinesMode::Functions)
    } else if str_eq(value, "lines") {
        Ok(SourceLinesMode::Lines)
    } else if str_eq(value, "all") {
        Ok(SourceLinesMode::All)
    } else {
        Err(message(&["invalid source-lines mode '", value, "', expected off|files|functions|lines|all"]))
    }
}

/// Reads a warning-level option value.
pub fn parse_warning_level(value: &str, key: &str) -> (r: Result<WarningLevel, String>)
    ensures
        if value@ == "info"@ || value@ == "note"@ {
            r == Ok::<WarningLevel, String>(WarningLevel::Info)
        } else if value@ == "warn"@ || value@ == "warning"@ {
            r == Ok::<WarningLevel, String>(WarningLevel::Warn)
        } else if value@ == "error"@ {
            r == Ok::<WarningLevel, String>(WarningLevel::Error)
        } else {
            r is Err && r->Err_0@ == "invalid value for "@ + key@ + ": '"@ + value@ + "', expected info|warn|error"@
        },
{
    if str_eq(value, "info") || str_eq(value, "note") {
        Ok(WarningLevel::Info)
    } else if str_eq(value, "warn") || str_eq(value, "warning") {
        Ok(WarningLevel::Warn)
    } else if str_eq(value, "error") {
        Ok(WarningLevel::Error)
    } else {
        Err(message(&["invalid value for ", key, ": '", value, "', expected info|warn|error"]))
    }
}

/// Reads a boolean option value.
pub fn parse_bool(value: &str, key: &str) -> (r: Result<bool, String>)
    ensures
        if value@ == "true"@ {
            r == Ok::<bool, String>(true)
        } else if value@ == "false"@ {
            r == Ok::<bool, String>(false)
        } else {
            r is Err && r->Err_0@ == "invalid value for "@ + key@ + ": '"@ + value@ + "', expected true|false"@
        },
{
    if str_eq(value, "true") {
        Ok(true)
    } else if str_eq(value, "false") {
        Ok(false)
    } else {
        Err(message(&["invalid value for ", key, ": '", value, "', expected true|false"]))
    }
}

/// Reads a `--path-remap` value: `from=to`, split at the first `=`.
pub fn parse_path_remap(value: &str) -> (r: Result<(String, String), String>)
    ensures
        match split_once_seq(value@, seq!['=']) {
            Some((a, b)) => r is Ok && r->Ok_0.0@ == a && r->Ok_0.1@ == b,
            None => r is Err && r->Err_0@ == "invalid path remap '"@ + value@ + "', expected <from=to>"@,
        },
{
    let v = chars_of(value);
    let eq: Vec<char> = vec!['='];
    assert(eq@ =~= seq!['=']);
    match chars_split_once(&v, &eq) {
        Some((a, b)) => Ok((string_of(&a), string_of(&b))),
        None => Err(message(&["invalid path remap '", value, "', expected <from=to>"])),
    }
}

/// Reads the `--group-by` value.
pub fn parse_cpp_group_by(value: &str) -> (r: Result<CppGroupBy, String>)
    ensures
        if value@ == "symbol"@ {
            r == Ok::<CppGroupBy, String>(CppGroupBy::Symbol)
        } else if value@ == "cpp-template-family"@ {
            r == Ok::<CppGroupBy, String>(CppGroupBy::CppTemplateFamily)
        } else if value@ == "cpp-class"@ {
            r == Ok::<CppGroupBy, String>(CppGroupBy::CppClass)
        } else if value@ == "cpp-runtime-overhead"@ {
            r == Ok::<CppGroupBy, String>(CppGroupBy::CppRuntimeOverhead)
        } else if value@ == "cpp-lambda-group"@ {
            r == Ok::<CppGroupBy, String>(CppGroupBy::CppLambdaGroup)
        } else {
            r is Err && r->Err_0@ == "invalid value for --group-by: '"@ + value@ + "', expected symbol|cpp-template-family|cpp-class|cpp-runtime-overhead|cpp-lambda-group"@
        },
{
    if str_eq(value, "symbol") {
        Ok(CppGroupBy::Symbol)
    } else if str_eq(value, "cpp-template-family") {
        Ok(CppGroupBy::CppTemplateFamily)
    } else if str_eq(value, "cpp-class") {
        Ok(CppGroupBy::CppClass)
    } else if str_eq(value, "cpp-runtime-overhead") {
        Ok(CppGroupBy::CppRuntimeOverhead)
    } else if str_eq(value, "cpp-lambda-group") {
        Ok(CppGroupBy::CppLambdaGroup)
    } else {
        Err(
            message(
                &[
                    "invalid value for --group-by: '",
                    value,
                    "', expected symbol|cpp-template-family|cpp-class|cpp-runtime-overhead|cpp-lambda-group",
                ],
            ),
        )
    }
}

/// Reads the `--order` value.
pub fn parse_commit_order(value: &str) -> (r: Result<CommitOrder, String>)
    ensures
        if value@ == "timestamp"@ {
            r == Ok::<CommitOrder, String>(CommitOrder::Timestamp)
        } else if value@ == "ancestry"@ {
            r == Ok::<CommitOrder, String>(CommitOrder::Ancestry)
        } else {
            r is Err && r->Err_0@ == "invalid value for --order: '"@ + value@ + "', expected timestamp|ancestry"@
        },
{
    if str_eq(value, "timestamp") {
        Ok(CommitOrder::Timestamp)
    } else if str_eq(value, "ancestry") {
        Ok(CommitOrder::Ancestry)
    } else {
        Err(message(&["invalid value for --order: '", value, "', expected timestamp|ancestry"]))
    }
}

/// The position of the first argument equal to `key`.
pub open spec fn key_position(args: Seq<String>, key: Seq<char>) -> Option<int>
    decreases args.len(),
{
    if args.len() == 0 {
        None
    } else if args[0]@ == key {
        Some(0)
    } else {
        match key_position(args.drop_first(), key) {
            Some(i) => Some(i + 1),
            None => None,
        }
    }
}

fn find_key(args: &Vec<String>, key: &str) -> (r: Option<usize>)
    ensures
        match r {
            Some(i) => key_position(args@, key@) == Some(i as int) && i < args@.len(),
            None => key_position(args@, key@) is None,
        },
{
    let mut i: usize = 0;
    assert(args@.skip(0) =~= args@);
    while i < args.len()
        invariant
            i <= args.len(),
            key_position(args@, key@) == match key_position(args@.skip(i as int), key@) {
                Some(k) => Some(k + i),
                None => None,
            },
        decreases args.len() - i,
    {
        assert(args@.skip(i as int)[0] == args@[i as int]);
        assert(args@.skip(i as int).drop_first() =~= args@.skip(i + 1));
        if str_eq(args[i].as_str(), key) {
            return Some(i);
        }
        i += 1;
    }
    None
}

/// The value after the first `key` among the arguments, when there is one:
/// `None` when the key is absent, an error when it has no value after it.
pub open spec fn optional_value(args: Seq<String>, key: Seq<char>) -> Result<Option<Seq<char>>, Seq<char>> {
    match key_position(args, key) {
        None => Ok(None),
        Some(i) => if i + 1 < args.len() {
            Ok(Some(args[i + 1]@))
        } else {
            Err("missing value for "@ + key)
        },
    }
}

/// Reads the value after the first `key`, if the key is given.
pub fn parse_optional_string_arg(args: &Vec<String>, key: &str) -> (r: Result<Option<String>, String>)
    ensures
        match r {
            Ok(Some(v)) => optional_value(args@, key@) == Ok::<Option<Seq<char>>, Seq<char>>(Some(v@)),
            Ok(None) => optional_value(args@, key@) == Ok::<Option<Seq<char>>, Seq<char>>(None),
            Err(e) => optional_value(args@, key@) == Err::<Option<Seq<char>>, Seq<char>>(e@),
        },
{
    match find_key(args, key) {
        None => Ok(None),
        Some(i) => {
            assert(i < args.len());
            if i + 1 < args.len() {
                Ok(Some(args[i + 1].clone()))
            } else {
                Err(message(&["missing value for ", key]))
            }
        },
    }
}

/// Reads the value after the first `key`, which must be given.
pub fn parse_required_string_arg(args: &Vec<String>, key: &str) -> (r: Result<String, String>)
    ensures
        match r {
            Ok(v) => optional_value(args@, key@) == Ok::<Option<Seq<char>>, Seq<char>>(Some(v@)),
            Err(e) => match optional_value(args@, key@) {
                Ok(None) => e@ == key@ + " is required"@,
                Err(m) => e@ == m,
                Ok(Some(_)) => false,
            },
        },
{
    match parse_optional_string_arg(args, key) {
        Ok(Some(v)) => Ok(v),
        Ok(None) => Err(message(&[key, " is required"])),
        Err(e) => Err(e),
    }
}

/// Reads the signed number after the first `key`, which must be given.
pub fn parse_required_i64_arg(args: &Vec<String>, key: &str) -> (r: Result<i64, String>)
    ensures
        match r {
            Ok(n) => exists|v: Seq<char>|
                optional_value(args@, key@) == Ok::<Option<Seq<char>>, Seq<char>>(Some(v)) && #[trigger] parse_signed(v)
                    == Some(n as int),
            Err(e) => match optional_value(args@, key@) {
                Ok(None) => e@ == key@ + " is required"@,
                Err(m) => e@ == m,
                Ok(Some(v)) => parse_signed(v) is None && e@ == "invalid integer for "@ + key@,
            },
        },
{
    let text = parse_required_string_arg(args, key)?;
    match parse_i64_text(text.as_str()) {
        Some(n) => Ok(n),
        None => Err(message(&["invalid integer for ", key])),
    }
}

/// Reads the count after the first `key`, if the key is given.
pub fn parse_optional_usize_arg(args: &Vec<String>, key: &str) -> (r: Result<Option<usize>, String>)
    ensures
        match r {
            Ok(Some(n)) => exists|v: Seq<char>|
                optional_value(args@, key@) == Ok::<Option<Seq<char>>, Seq<char>>(Some(v)) && #[trigger] parse_unsigned(
                    v,
                    usize::MAX as int,
                ) == Some(n as int),
            Ok(None) => optional_value(args@, key@) == Ok::<Option<Seq<char>>, Seq<char>>(None),
            Err(e) => match optional_value(args@, key@) {
                Ok(None) => false,
                Err(m) => e@ == m,
                Ok(Some(v)) => parse_unsigned(v, usize::MAX as int) is None && e@ == "invalid integer for "@ + key@,
            },
        },
{
    match parse_optional_string_arg(args, key) {
        Ok(None) => Ok(None),
        Ok(Some(text)) => match parse_unsigned_text(text.as_str(), usize::MAX as u64) {
            Some(n) => Ok(Some(n as usize)),
            None => Err(message(&["invalid integer for ", key])),
        },
        Err(e) => Err(e),
    }
}

} // verus!
