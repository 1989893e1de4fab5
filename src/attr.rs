//! Arguments of the function-timing attribute: the log level, the name
//! pattern, and the timer name that the pattern gives a function.

use vstd::prelude::*;
use vstd::string::*;

verus! {

/// Why the attribute's arguments were refused.
#[derive(Debug, Clone, Copy, PartialEq, Eq, Structural)]
pub enum AttrError {
    /// More than two string literals were given.
    TooManyArguments,
    /// Two arguments were given and the first is not a log level.
    LevelExpected,
}

/// `c` is `l` or, where `l` is a lower-case ASCII letter, its upper-case form.
pub open spec fn folds_to(c: char, l: char) -> bool {
    c == l || ('a' <= l <= 'z' && c as u32 + 32 == l as u32)
}

/// `s` reads `lower` when ASCII letters are compared without case.
pub open spec fn same_ignoring_case(s: Seq<char>, lower: Seq<char>) -> bool {
    &&& s.len() == lower.len()
    &&& forall|i: int| 0 <= i < s.len() ==> folds_to(#[trigger] s[i], lower[i])
}

/// The log level that `s` names, in lower case, if it names one.
pub open spec fn level_of(s: Seq<char>) -> Option<Seq<char>> {
    if same_ignoring_case(s, "error"@) {
        Some("error"@)
    } else if same_ignoring_case(s, "warn"@) {
        Some("warn"@)
    } else if same_ignoring_case(s, "info"@) {
        Some("info"@)
    } else if same_ignoring_case(s, "debug"@) {
        Some("debug"@)
    } else if same_ignoring_case(s, "trace"@) {
        Some("trace"@)
    } else if same_ignoring_case(s, "never"@) {
        Some("never"@)
    } else {
        None
    }
}

/// `p` holds `{}` at `k`.
pub open spec fn braces_at(p: Seq<char>, k: int) -> bool {
    0 <= k && k + 1 < p.len() && p[k] == '{' && p[k + 1] == '}'
}

/// The first position at or after `from` where `p` holds `{}`, or -1.
pub open spec fn first_braces(p: Seq<char>, from: int) -> int
    decreases p.len() - from,
{
    if from < 0 || from + 1 >= p.len() {
        -1
    } else if braces_at(p, from) {
        from
    } else {
        first_braces(p, from + 1)
    }
}

proof fn lemma_first_braces(p: Seq<char>, from: int)
    ensures
        first_braces(p, from) == -1 || (from <= first_braces(p, from) && braces_at(p, first_braces(p, from))),
    decreases p.len() - from,
{
    if from >= 0 && from + 1 < p.len() && !braces_at(p, from) {
        lemma_first_braces(p, from + 1);
    }
}

/// The pattern with its first `{}` replaced by the function's name and `()`.
pub open spec fn timer_name(pattern: Seq<char>, function_name: Seq<char>) -> Seq<char> {
    let k = first_braces(pattern, 0);
    if k < 0 {
        pattern
    } else {
        pattern.take(k) + function_name + seq!['(', ')'] + pattern.skip(k + 2)
    }
}

/// The level and name pattern that the attribute's literal arguments `args`
/// select, or why they are refused.
pub open spec fn attr_settings(args: Seq<Seq<char>>) -> Result<(Seq<char>, Seq<char>), AttrError> {
    if args.len() == 0 {
        Ok(("debug"@, "{}"@))
    } else if args.len() > 2 {
        Err(AttrError::TooManyArguments)
    } else if args.len() == 2 && first_braces(args[0], 0) >= 0 {
        Err(AttrError::LevelExpected)
    } else if args.len() == 1 {
        match level_of(args[0]) {
            Some(level) => Ok((level, "{}"@)),
            None => Ok(("debug"@, args[0])),
        }
    } else {
        match level_of(args[0]) {
            Some(level) => Ok((level, if args[1].len() == 0 { "{}"@ } else { args[1] })),
            None => Err(AttrError::LevelExpected),
        }
    }
}

/// What `str::trim` leaves of `s`.
pub uninterp spec fn trimmed(s: Seq<char>) -> Seq<char>;

/// Relies on str::trim: `s` without its leading and trailing whitespace.
#[verifier::external_body]
fn trim(s: &str) -> (r: &str)
    ensures
        r@ == trimmed(s@),
{
    s.trim()
}

/// `s` without its leading and trailing double quotes.
pub open spec fn strip_quotes(s: Seq<char>) -> Seq<char>
    decreases s.len(),
{
    if s.len() > 0 && s[0] == '"' {
        strip_quotes(s.drop_first())
    } else if s.len() > 0 && s.last() == '"' {
        strip_quotes(s.drop_last())
    } else {
        s
    }
}

/// The text of a string literal argument as written in the source: trimmed,
/// without its double quotes, and trimmed again.
pub open spec fn literal_value(raw: Seq<char>) -> Seq<char> {
    trimmed(strip_quotes(trimmed(raw)))
}

/// `s` without its leading and trailing double quotes.
pub fn without_quotes(s: &str) -> (r: &str)
    ensures
        r@ == strip_quotes(s@),
{
    let n = s.unicode_len();
    let mut lo: usize = 0;
    assert(s@.subrange(0, n as int) =~= s@);
    while lo < n && s.get_char(lo) == '"'
        invariant
            n == s@.len(),
            lo <= n,
            strip_quotes(s@.subrange(lo as int, n as int)) == strip_quotes(s@),
        decreases n - lo,
    {
        assert(s@.subrange(lo as int, n as int).drop_first() =~= s@.subrange(lo + 1, n as int));
        lo = lo + 1;
    }
    let mut hi: usize = n;
    while lo < hi && s.get_char(hi - 1) == '"'
        invariant
            n == s@.len(),
            lo <= hi <= n,
            lo == hi || s@[lo as int] != '"',
            strip_quotes(s@.subrange(lo as int, hi as int)) == strip_quotes(s@),
        decreases hi - lo,
    {
        assert(s@.subrange(lo as int, hi as int).drop_last() =~= s@.subrange(lo as int, hi - 1));
        hi = hi - 1;
    }
    s.substring_char(lo, hi)
}

/// The text of a string literal argument as the compiler renders it: the
/// value between the quotes, with surrounding whitespace removed.
pub fn literal_text(raw: &str) -> (r: String)
    ensures
        r@ == literal_value(raw@),
{
    String::from_str(trim(without_quotes(trim(raw))))
}

fn folds(c: char, l: char) -> (r: bool)
    ensures
        r == folds_to(c, l),
{
    c == l || ('a' <= l && l <= 'z' && (c as u32) + 32 == l as u32)
}

fn same_ignoring_case_exec(s: &str, lower: &str) -> (r: bool)
    ensures
        r == same_ignoring_case(s@, lower@),
{
    let n = s.unicode_len();
    if n != lower.unicode_len() {
        return false;
    }
    let mut i: usize = 0;
    while i < n
        invariant
            n == s@.len(),
            n == lower@.len(),
            i <= n,
            forall|j: int| 0 <= j < i ==> folds_to(#[trigger] s@[j], lower@[j]),
        decreases n - i,
    {
        if !folds(s.get_char(i), lower.get_char(i)) {
            return false;
        }
        i = i + 1;
    }
    true
}

/// The log level that `s` names, in lower case, if it names one.
fn level_in(s: &str) -> (r: Option<String>)
    ensures
        match level_of(s@) {
            Some(l) => r is Some && r->0@ == l,
            None => r is None,
        },
{
    if same_ignoring_case_exec(s, "error") {
        Some(String::from_str("error"))
    } else if same_ignoring_case_exec(s, "warn") {
        Some(String::from_str("warn"))
    } else if same_ignoring_case_exec(s, "info") {
        Some(String::from_str("info"))
    } else if same_ignoring_case_exec(s, "debug") {
        Some(String::from_str("debug"))
    } else if same_ignoring_case_exec(s, "trace") {
        Some(String::from_str("trace"))
    } else if same_ignoring_case_exec(s, "never") {
        Some(String::from_str("never"))
    } else {
        None
    }
}

/// The position of the first `{}` in `p`, if any.
fn find_braces(p: &str) -> (r: Option<usize>)
    ensures
        match r {
            Some(k) => k as int == first_braces(p@, 0) && braces_at(p@, k as int),
            None => first_braces(p@, 0) == -1,
        },
{
    let n = p.unicode_len();
    let mut i: usize = 0;
    while i < n && i + 1 < n
        invariant
            n == p@.len(),
            i <= n,
            first_braces(p@, 0) == first_braces(p@, i as int),
        decreases n - i,
    {
        if p.get_char(i) == '{' && p.get_char(i + 1) == '}' {
            assert(braces_at(p@, i as int));
            return Some(i);
        }
        i = i + 1;
    }
    proof {
        lemma_first_braces(p@, i as int);
    }
    None
}

/// The name of the timer for `function_name`: `name_pattern` with its first
/// `{}` replaced by the function's name followed by `()`.
pub fn get_timer_name(name_pattern: &str, function_name: &str) -> (r: String)
    ensures
        r@ == timer_name(name_pattern@, function_name@),
{
    proof {
        reveal_strlit("()");
    }
    match find_braces(name_pattern) {
        None => String::from_str(name_pattern),
        Some(k) => {
            let n = name_pattern.unicode_len();
            let mut out = String::from_str(name_pattern.substring_char(0, k));
            out.append(function_name);
            out.append("()");
            out.append(name_pattern.substring_char(k + 2, n));
            assert(out@ =~= timer_name(name_pattern@, function_name@));
            out
        },
    }
}

/// The log level and the name pattern that the attribute's string literal
/// arguments `args` select. No argument selects `debug` and `{}`. One
/// argument is a level if it names one in any case, else the pattern. Of two,
/// the first must be a level, and an empty second selects `{}`.
pub fn get_log_level_and_name_pattern(args: &Vec<String>) -> (r: Result<(String, String), AttrError>)
    ensures
        match attr_settings(args@.map_values(|a: String| a@)) {
            Ok((level, pattern)) => r is Ok && r->Ok_0.0@ == level && r->Ok_0.1@ == pattern,
            Err(e) => r is Err && r->Err_0 == e,
        },
{
    let ghost views = args@.map_values(|a: String| a@);
    proof {
        reveal_strlit("debug");
        reveal_strlit("{}");
    }
    if args.len() == 0 {
        return Ok((String::from_str("debug"), String::from_str("{}")));
    }
    if args.len() > 2 {
        return Err(AttrError::TooManyArguments);
    }
    let first = args[0].as_str();
    assert(first@ == views[0]);
    if args.len() == 2 && find_braces(first).is_some() {
        return Err(AttrError::LevelExpected);
    }
    let level = level_in(first);
    if args.len() == 1 {
        match level {
            Some(l) => Ok((l, String::from_str("{}"))),
            None => Ok((String::from_str("debug"), String::from_str(first))),
        }
    } else {
        let second = args[1].as_str();
        assert(second@ == views[1]);
        match level {
            Some(l) => {
                if second.unicode_len() == 0 {
                    Ok((l, String::from_str("{}")))
                } else {
                    Ok((l, String::from_str(second)))
                }
            },
            None => Err(AttrError::LevelExpected),
        }
    }
}

} // verus!
