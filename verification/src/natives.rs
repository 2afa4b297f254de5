use vstd::prelude::*;

use crate::value::{Value, ValueModel};
use crate::pattern::{chars_to_string, compile_pattern, regex_compiles, regex_is_match};
use crate::text::{all_digits, append_chars, decimal, decimal_chars, digit_char, digits_value, parse_i64, parse_int};
use crate::lexer::{char_is_whitespace, is_whitespace};
use crate::errors::{lower, to_ascii_lower, to_ascii_upper, upper};

verus! {

/// What stops a running program.
#[derive(Debug, Clone, Copy, PartialEq, Eq, Structural)]
pub enum RuntimeError {
    /// A built-in function got the wrong number of arguments.
    ArgumentCount,
    /// A built-in function that takes no strings got one.
    StringArgument,
    /// A value of a type the operation is not implemented for.
    UnsupportedType,
    /// A string to convert holds a letter.
    NotDigits,
    /// A string to convert passes the letter test but is no number.
    NotANumber,
    /// An integer result does not fit.
    Overflow,
    /// An index past the end (or before the start).
    IndexOutOfRange,
    /// A byte that is not a character of its own.
    NotAscii,
    /// The regex crate refused a pattern.
    PatternRefused,
    /// A square root of a negative number.
    NegativeRoot,
    /// The stack has fewer values than the instruction takes.
    StackUnderflow,
    /// A heap position that holds no object, or not the object expected.
    BadReference,
    /// An instruction position past the end of the code.
    CodeOutOfRange,
    /// Division (or remainder) by zero.
    DivisionByZero,
    /// A list with no element to pop.
    EmptyList,
    /// An instruction that cannot run where it stands.
    BadInstruction,
    /// No function is named `main`.
    NoMain,
}

/// The text a value holds, where it is a string.
pub open spec fn as_string(v: ValueModel) -> Option<Seq<char>> {
    match v {
        ValueModel::String(s) => Some(s),
        _ => None,
    }
}

/// Argument `i` as a string: an argument-count error where there is none, a type error
/// where it is no string.
pub open spec fn string_arg(args: Seq<Value>, i: int) -> Result<Seq<char>, RuntimeError> {
    if i >= args.len() {
        Err(RuntimeError::ArgumentCount)
    } else {
        match as_string(args[i]@) {
            Some(s) => Ok(s),
            None => Err(RuntimeError::UnsupportedType),
        }
    }
}

/// Argument `i` as an integer: an argument-count error where there is none, a type error
/// where it is no integer.
pub open spec fn int_arg(args: Seq<Value>, i: int) -> Result<i64, RuntimeError> {
    if i >= args.len() {
        Err(RuntimeError::ArgumentCount)
    } else {
        match args[i]@ {
            ValueModel::Int(v) => Ok(v),
            _ => Err(RuntimeError::UnsupportedType),
        }
    }
}

fn get_string_arg(args: &Vec<Value>, i: usize) -> (r: Result<Vec<char>, RuntimeError>)
    ensures
        match string_arg(args@, i as int) {
            Ok(s) => r matches Ok(t) && t@ == s,
            Err(e) => r == Err::<Vec<char>, RuntimeError>(e),
        },
{
    if i >= args.len() {
        return Err(RuntimeError::ArgumentCount);
    }
    match &args[i] {
        Value::String(s) => Ok(s.clone()),
        _ => Err(RuntimeError::UnsupportedType),
    }
}

fn get_int_arg(args: &Vec<Value>, i: usize) -> (r: Result<i64, RuntimeError>)
    ensures
        r == int_arg(args@, i as int),
{
    if i >= args.len() {
        return Err(RuntimeError::ArgumentCount);
    }
    match &args[i] {
        Value::Int(v) => Ok(*v),
        _ => Err(RuntimeError::UnsupportedType),
    }
}

/// How many bytes UTF-8 takes for `c`.
pub open spec fn utf8_width(c: char) -> nat {
    if c <= '\u{7f}' {
        1
    } else if c <= '\u{7ff}' {
        2
    } else if c <= '\u{ffff}' {
        3
    } else {
        4
    }
}

/// How many bytes UTF-8 takes for `s`.
pub open spec fn utf8_len(s: Seq<char>) -> nat
    decreases s.len(),
{
    if s.len() == 0 {
        0
    } else {
        utf8_len(s.drop_last()) + utf8_width(s.last())
    }
}

fn char_width(c: char) -> (w: u64)
    ensures
        w == utf8_width(c),
{
    if c <= '\u{7f}' {
        1
    } else if c <= '\u{7ff}' {
        2
    } else if c <= '\u{ffff}' {
        3
    } else {
        4
    }
}

/// The UTF-8 length of the first `upto` characters of `s`; `None` where it passes
/// `i64::MAX`.
fn utf8_length(s: &[char], upto: usize) -> (r: Option<i64>)
    requires
        upto <= s@.len(),
    ensures
        r matches Some(n) ==> n == utf8_len(s@.take(upto as int)),
        r is None <==> utf8_len(s@.take(upto as int)) > i64::MAX,
{
    let mut n: u64 = 0;
    let mut i: usize = 0;
    while i < upto
        invariant
            i <= upto <= s@.len(),
            n == utf8_len(s@.take(i as int)),
            n <= i64::MAX,
        decreases upto - i,
    {
        let w = char_width(s[i]);
        assert(s@.take(i + 1).drop_last() =~= s@.take(i as int));
        if n + w > 9223372036854775807u64 {
            proof {
                assert(utf8_len(s@.take(i + 1)) == n + w);
                lemma_utf8_len_prefix(s@, i + 1, upto as int);
            }
            return None;
        }
        n = n + w;
        i = i + 1;
    }
    Some(n as i64)
}

/// A prefix is no longer in UTF-8 than the whole.
pub proof fn lemma_utf8_len_prefix(s: Seq<char>, i: int, j: int)
    requires
        0 <= i <= j <= s.len(),
    ensures
        utf8_len(s.take(i)) <= utf8_len(s.take(j)),
    decreases j - i,
{
    if i < j {
        lemma_utf8_len_prefix(s, i, j - 1);
        assert(s.take(j).drop_last() =~= s.take(j - 1));
    }
}

/// What `str_len` gives for `args`.
pub open spec fn str_len_gives(args: Seq<Value>, r: Result<Value, RuntimeError>) -> bool {
    &&& (match string_arg(args, 0) {
        Ok(s) => if utf8_len(s) <= i64::MAX {
            r matches Ok(v) && v@ == ValueModel::Int(utf8_len(s) as i64)
        } else {
            r == Err::<Value, RuntimeError>(RuntimeError::Overflow)
        },
        Err(e) => r == Err::<Value, RuntimeError>(e),
    })
}

/// The string method `len`: the UTF-8 length of the string.
pub fn str_len(args: &Vec<Value>) -> (r: Result<Value, RuntimeError>)
    ensures
        str_len_gives(args@, r),
{
    let s = get_string_arg(args, 0)?;
    assert(s@.take(s@.len() as int) =~= s@);
    match utf8_length(s.as_slice(), s.len()) {
        Some(n) => Ok(Value::Int(n)),
        None => Err(RuntimeError::Overflow),
    }
}

/// What `str_to_upper` gives for `args`.
pub open spec fn str_to_upper_gives(args: Seq<Value>, r: Result<Value, RuntimeError>) -> bool {
    &&& (match string_arg(args, 0) {
        Ok(s) => r matches Ok(v) && v@ == ValueModel::String(s.map_values(|c: char| upper(c))),
        Err(e) => r == Err::<Value, RuntimeError>(e),
    })
}

/// The string method `toUpper`: ASCII letters made upper case.
pub fn str_to_upper(args: &Vec<Value>) -> (r: Result<Value, RuntimeError>)
    ensures
        str_to_upper_gives(args@, r),
{
    let s = get_string_arg(args, 0)?;
    Ok(Value::String(to_ascii_upper(s.as_slice())))
}

/// What `str_to_lower` gives for `args`.
pub open spec fn str_to_lower_gives(args: Seq<Value>, r: Result<Value, RuntimeError>) -> bool {
    &&& (match string_arg(args, 0) {
        Ok(s) => r matches Ok(v) && v@ == ValueModel::String(s.map_values(|c: char| lower(c))),
        Err(e) => r == Err::<Value, RuntimeError>(e),
    })
}

/// The string method `toLower`: ASCII letters made lower case.
pub fn str_to_lower(args: &Vec<Value>) -> (r: Result<Value, RuntimeError>)
    ensures
        str_to_lower_gives(args@, r),
{
    let s = get_string_arg(args, 0)?;
    Ok(Value::String(to_ascii_lower(s.as_slice())))
}


/// Splitting off the first character: its width, then the rest.
pub proof fn lemma_utf8_len_first(s: Seq<char>)
    requires
        s.len() > 0,
    ensures
        utf8_len(s) == utf8_width(s[0]) + utf8_len(s.drop_first()),
    decreases s.len(),
{
    let dl = s.drop_last();
    let df = s.drop_first();
    if s.len() > 1 {
        lemma_utf8_len_first(dl);
        assert(dl.drop_first() =~= df.drop_last());
        assert(dl[0] == s[0]);
        assert(df.last() == s.last());
        assert(utf8_len(s) == utf8_len(dl) + utf8_width(s.last()));
        assert(utf8_len(df) == utf8_len(df.drop_last()) + utf8_width(df.last()));
    } else {
        assert(utf8_len(dl) == 0);
        assert(utf8_len(df) == 0);
        assert(s.last() == s[0]);
    }
}

/// The character whose UTF-8 encoding is the one byte at byte offset `i` of `s`; `None`
/// where that byte belongs to a character of several bytes, or lies outside `s`.
pub open spec fn ascii_at_byte(s: Seq<char>, i: int) -> Option<char>
    decreases s.len(),
{
    if s.len() == 0 || i < 0 {
        None
    } else if i == 0 {
        if s[0] <= '\u{7f}' {
            Some(s[0])
        } else {
            None
        }
    } else if i < utf8_width(s[0]) {
        None
    } else {
        ascii_at_byte(s.drop_first(), i - utf8_width(s[0]))
    }
}

/// What `str_get` gives for `args`.
pub open spec fn str_get_gives(args: Seq<Value>, r: Result<Value, RuntimeError>) -> bool {
    &&& (match (int_arg(args, 0), string_arg(args, 1)) {
        (Ok(i), Ok(s)) => if i < 0 || i >= utf8_len(s) {
            r == Err::<Value, RuntimeError>(RuntimeError::IndexOutOfRange)
        } else {
            match ascii_at_byte(s, i as int) {
                Some(c) => r matches Ok(v) && v@ == ValueModel::String(seq![c]),
                None => r == Err::<Value, RuntimeError>(RuntimeError::NotAscii),
            }
        },
        (Err(e), _) => r == Err::<Value, RuntimeError>(e),
        (Ok(_), Err(e)) => r == Err::<Value, RuntimeError>(e),
    })
}

/// The string method `get`: the character whose one-byte encoding stands at byte offset
/// `index` (the first argument) of the string (the second). Fails where the offset lies
/// outside the string's bytes, or where the byte there is part of a longer character.
pub fn str_get(args: &Vec<Value>) -> (r: Result<Value, RuntimeError>)
    ensures
        str_get_gives(args@, r),
{
    let index = get_int_arg(args, 0)?;
    let s = get_string_arg(args, 1)?;
    if index < 0 {
        return Err(RuntimeError::IndexOutOfRange);
    }
    let mut rem: u64 = index as u64;
    let mut k: usize = 0;
    assert(s@.skip(0) =~= s@);
    while k < s.len()
        invariant
            int_arg(args@, 0) == Ok::<i64, RuntimeError>(index),
            string_arg(args@, 1) == Ok::<Seq<char>, RuntimeError>(s@),
            k <= s@.len(),
            0 <= rem <= index,
            ascii_at_byte(s@, index as int) == ascii_at_byte(s@.skip(k as int), rem as int),
            (index < utf8_len(s@)) <==> (rem < utf8_len(s@.skip(k as int))),
        decreases s@.len() - k,
    {
        let c = s[k];
        let w = char_width(c);
        proof {
            lemma_utf8_len_first(s@.skip(k as int));
            assert(s@.skip(k as int)[0] == c);
            assert(s@.skip(k as int).drop_first() =~= s@.skip(k + 1));
        }
        if rem == 0 {
            if c <= '\u{7f}' {
                let mut out: Vec<char> = Vec::new();
                out.push(c);
                assert(out@ =~= seq![c]);
                return Ok(Value::String(out));
            }
            return Err(RuntimeError::NotAscii);
        }
        if rem < w {
            return Err(RuntimeError::NotAscii);
        }
        rem = rem - w;
        k = k + 1;
    }
    assert(s@.skip(k as int).len() == 0);
    Err(RuntimeError::IndexOutOfRange)
}

/// Whether `p` stands in `s` at `i`.
fn matches_at(s: &[char], i: usize, p: &[char]) -> (b: bool)
    requires
        i + p@.len() <= s@.len(),
    ensures
        b == (s@.subrange(i as int, i + p@.len()) == p@),
{
    let sn = s.len();
    let mut j: usize = 0;
    while j < p.len()
        invariant
            sn == s@.len(),
            j <= p@.len(),
            i + p@.len() <= s@.len(),
            forall|m: int| 0 <= m < j ==> s@[i + m] == p@[m],
        decreases p@.len() - j,
    {
        assert(i + j < s@.len());
        if s[i + j] != p[j] {
            assert(s@.subrange(i as int, i + p@.len())[j as int] != p@[j as int]);
            return false;
        }
        j = j + 1;
    }
    assert(s@.subrange(i as int, i + p@.len()) =~= p@);
    true
}

/// How many times `p` occurs in `s`, counting from the left and not letting two
/// occurrences overlap; the empty pattern occurs at each of the `s.len() + 1` places
/// between characters.
pub open spec fn count_matches(s: Seq<char>, p: Seq<char>) -> nat
    decreases s.len(),
{
    if p.len() == 0 {
        s.len() + 1
    } else if s.len() < p.len() {
        0
    } else if s.take(p.len() as int) == p {
        1 + count_matches(s.skip(p.len() as int), p)
    } else {
        count_matches(s.drop_first(), p)
    }
}

/// What `str_count` gives for `args`.
pub open spec fn str_count_gives(args: Seq<Value>, r: Result<Value, RuntimeError>) -> bool {
    &&& (match (string_arg(args, 0), string_arg(args, 1)) {
        (Ok(s), Ok(p)) => if count_matches(s, p) <= i64::MAX {
            r matches Ok(v) && v@ == ValueModel::Int(count_matches(s, p) as i64)
        } else {
            r == Err::<Value, RuntimeError>(RuntimeError::Overflow)
        },
        (Err(e), _) => r == Err::<Value, RuntimeError>(e),
        (Ok(_), Err(e)) => r == Err::<Value, RuntimeError>(e),
    })
}

/// The string method `count`: how many times the pattern (the second argument) occurs in
/// the string (the first), without overlaps.
pub fn str_count(args: &Vec<Value>) -> (r: Result<Value, RuntimeError>)
    ensures
        str_count_gives(args@, r),
{
    let s = get_string_arg(args, 0)?;
    let p = get_string_arg(args, 1)?;
    let n = s.len();
    let m = p.len();
    if m == 0 {
        assert(count_matches(s@, p@) == n + 1);
        if n as u64 >= 9223372036854775807u64 {
            return Err(RuntimeError::Overflow);
        }
        return Ok(Value::Int(n as i64 + 1));
    }
    let mut count: usize = 0;
    let mut i: usize = 0;
    assert(s@.skip(0) =~= s@);
    while m <= n && i <= n - m
        invariant
            n == s@.len(),
            m == p@.len(),
            m > 0,
            i <= n,
            count <= i,
            count + count_matches(s@.skip(i as int), p@) == count_matches(s@, p@),
        decreases n - i,
    {
        let ghost t = s@.skip(i as int);
        assert(t.take(m as int) =~= s@.subrange(i as int, i + m));
        if matches_at(s.as_slice(), i, p.as_slice()) {
            assert(t.skip(m as int) =~= s@.skip(i + m));
            count = count + 1;
            i = i + m;
        } else {
            assert(t.drop_first() =~= s@.skip(i + 1));
            i = i + 1;
        }
    }
    assert(s@.skip(i as int).len() < m);
    assert(count_matches(s@.skip(i as int), p@) == 0);
    if count as u64 > 9223372036854775807u64 {
        return Err(RuntimeError::Overflow);
    }
    Ok(Value::Int(count as i64))
}

/// Where `p` first occurs in `s`, as a character position; the empty pattern occurs at 0.
pub open spec fn first_match(s: Seq<char>, p: Seq<char>) -> Option<nat>
    decreases s.len(),
{
    if s.len() < p.len() {
        None
    } else if s.take(p.len() as int) == p {
        Some(0)
    } else if s.len() == 0 {
        None
    } else {
        match first_match(s.drop_first(), p) {
            Some(k) => Some(k + 1),
            None => None,
        }
    }
}

/// What `str_find` gives for `args`.
pub open spec fn str_find_gives(args: Seq<Value>, r: Result<Value, RuntimeError>) -> bool {
    &&& (match (string_arg(args, 0), string_arg(args, 1)) {
        (Ok(s), Ok(p)) => match first_match(s, p) {
            Some(k) => if utf8_len(s.take(k as int)) <= i64::MAX {
                r matches Ok(v) && v@ == ValueModel::Int(utf8_len(s.take(k as int)) as i64)
            } else {
                r == Err::<Value, RuntimeError>(RuntimeError::Overflow)
            },
            None => r matches Ok(v) && v@ == ValueModel::Int(-1i64),
        },
        (Err(e), _) => r == Err::<Value, RuntimeError>(e),
        (Ok(_), Err(e)) => r == Err::<Value, RuntimeError>(e),
    })
}

/// The string method `find`: the byte offset where the pattern (the second argument) first
/// occurs in the string (the first), or -1 where it does not occur.
pub fn str_find(args: &Vec<Value>) -> (r: Result<Value, RuntimeError>)
    ensures
        str_find_gives(args@, r),
{
    let s = get_string_arg(args, 0)?;
    let p = get_string_arg(args, 1)?;
    let n = s.len();
    let m = p.len();
    if m == 0 {
        assert(s@.take(0) =~= p@);
        assert(first_match(s@, p@) == Some(0nat));
        assert(utf8_len(s@.take(0)) == 0);
        return Ok(Value::Int(0));
    }
    let mut i: usize = 0;
    assert(s@.skip(0) =~= s@);
    while m <= n && i <= n - m
        invariant
            string_arg(args@, 0) == Ok::<Seq<char>, RuntimeError>(s@),
            string_arg(args@, 1) == Ok::<Seq<char>, RuntimeError>(p@),
            n == s@.len(),
            m == p@.len(),
            i <= n,
            m > 0,
            first_match(s@, p@) == (match first_match(s@.skip(i as int), p@) {
                Some(k) => Some((k + i) as nat),
                None => None::<nat>,
            }),
        decreases n - i,
    {
        let ghost t = s@.skip(i as int);
        assert(t.take(m as int) =~= s@.subrange(i as int, i + m));
        if matches_at(s.as_slice(), i, p.as_slice()) {
            assert(first_match(t, p@) == Some(0nat));
            assert(first_match(s@, p@) == Some(i as nat));
            return match utf8_length(s.as_slice(), i) {
                Some(b) => Ok(Value::Int(b)),
                None => Err(RuntimeError::Overflow),
            };
        }
        assert(t.drop_first() =~= s@.skip(i + 1));
        i = i + 1;
    }
    assert(s@.skip(i as int).len() < m);
    Ok(Value::Int(-1))
}

/// `s` without its leading whitespace.
pub open spec fn trim_start_spec(s: Seq<char>) -> Seq<char>
    decreases s.len(),
{
    if s.len() > 0 && is_whitespace(s[0]) {
        trim_start_spec(s.drop_first())
    } else {
        s
    }
}

/// `s` without its trailing whitespace.
pub open spec fn trim_end_spec(s: Seq<char>) -> Seq<char>
    decreases s.len(),
{
    if s.len() > 0 && is_whitespace(s.last()) {
        trim_end_spec(s.drop_last())
    } else {
        s
    }
}

fn trim_start_chars(s: &[char]) -> (v: Vec<char>)
    ensures
        v@ == trim_start_spec(s@),
{
    let mut i: usize = 0;
    assert(s@.skip(0) =~= s@);
    while i < s.len() && char_is_whitespace(s[i])
        invariant
            i <= s@.len(),
            trim_start_spec(s@) == trim_start_spec(s@.skip(i as int)),
        decreases s@.len() - i,
    {
        assert(s@.skip(i as int).drop_first() =~= s@.skip(i + 1));
        i = i + 1;
    }
    let mut v: Vec<char> = Vec::new();
    let mut j: usize = i;
    while j < s.len()
        invariant
            i <= j <= s@.len(),
            v@ == s@.subrange(i as int, j as int),
        decreases s@.len() - j,
    {
        v.push(s[j]);
        j = j + 1;
        assert(v@ =~= s@.subrange(i as int, j as int));
    }
    assert(v@ =~= s@.skip(i as int));
    v
}

fn trim_end_chars(s: &[char]) -> (v: Vec<char>)
    ensures
        v@ == trim_end_spec(s@),
{
    let mut e: usize = s.len();
    assert(s@.take(e as int) =~= s@);
    while e > 0 && char_is_whitespace(s[e - 1])
        invariant
            e <= s@.len(),
            trim_end_spec(s@) == trim_end_spec(s@.take(e as int)),
        decreases e,
    {
        assert(s@.take(e as int).drop_last() =~= s@.take(e - 1));
        e = e - 1;
    }
    let mut v: Vec<char> = Vec::new();
    let mut j: usize = 0;
    while j < e
        invariant
            j <= e <= s@.len(),
            v@ == s@.take(j as int),
        decreases e - j,
    {
        v.push(s[j]);
        j = j + 1;
        assert(v@ =~= s@.take(j as int));
    }
    v
}

/// What `str_trim` gives for `args`.
pub open spec fn str_trim_gives(args: Seq<Value>, r: Result<Value, RuntimeError>) -> bool {
    &&& (match string_arg(args, 0) {
        Ok(s) => r matches Ok(v) && v@ == ValueModel::String(trim_end_spec(trim_start_spec(s))),
        Err(e) => r == Err::<Value, RuntimeError>(e),
    })
}

/// The string method `trim`: the string without whitespace at either end.
pub fn str_trim(args: &Vec<Value>) -> (r: Result<Value, RuntimeError>)
    ensures
        str_trim_gives(args@, r),
{
    let s = get_string_arg(args, 0)?;
    let t = trim_start_chars(s.as_slice());
    Ok(Value::String(trim_end_chars(t.as_slice())))
}

/// What `str_trim_left` gives for `args`.
pub open spec fn str_trim_left_gives(args: Seq<Value>, r: Result<Value, RuntimeError>) -> bool {
    &&& (match string_arg(args, 0) {
        Ok(s) => r matches Ok(v) && v@ == ValueModel::String(trim_start_spec(s)),
        Err(e) => r == Err::<Value, RuntimeError>(e),
    })
}

/// The string method `trimLeft`: the string without leading whitespace.
pub fn str_trim_left(args: &Vec<Value>) -> (r: Result<Value, RuntimeError>)
    ensures
        str_trim_left_gives(args@, r),
{
    let s = get_string_arg(args, 0)?;
    Ok(Value::String(trim_start_chars(s.as_slice())))
}

/// What `str_trim_right` gives for `args`.
pub open spec fn str_trim_right_gives(args: Seq<Value>, r: Result<Value, RuntimeError>) -> bool {
    &&& (match string_arg(args, 0) {
        Ok(s) => r matches Ok(v) && v@ == ValueModel::String(trim_end_spec(s)),
        Err(e) => r == Err::<Value, RuntimeError>(e),
    })
}

/// The string method `trimRight`: the string without trailing whitespace.
pub fn str_trim_right(args: &Vec<Value>) -> (r: Result<Value, RuntimeError>)
    ensures
        str_trim_right_gives(args@, r),
{
    let s = get_string_arg(args, 0)?;
    Ok(Value::String(trim_end_chars(s.as_slice())))
}

/// `s` with `t` after each of its characters.
pub open spec fn interleave(s: Seq<char>, t: Seq<char>) -> Seq<char>
    decreases s.len(),
{
    if s.len() == 0 {
        Seq::empty()
    } else {
        seq![s[0]] + t + interleave(s.drop_first(), t)
    }
}

/// `s` with every occurrence of `f` (from the left, without overlaps) replaced by `t`;
/// the empty `f` occurs between every two characters and at both ends.
pub open spec fn replace_all(s: Seq<char>, f: Seq<char>, t: Seq<char>) -> Seq<char>
    decreases s.len(),
{
    if f.len() == 0 {
        t + interleave(s, t)
    } else if s.len() < f.len() {
        s
    } else if s.take(f.len() as int) == f {
        t + replace_all(s.skip(f.len() as int), f, t)
    } else {
        seq![s[0]] + replace_all(s.drop_first(), f, t)
    }
}

/// What `str_replace` gives for `args`.
pub open spec fn str_replace_gives(args: Seq<Value>, r: Result<Value, RuntimeError>) -> bool {
    &&& (match (string_arg(args, 0), string_arg(args, 1), string_arg(args, 2)) {
        (Ok(s), Ok(f), Ok(t)) => r matches Ok(v) && v@ == ValueModel::String(replace_all(s, f, t)),
        (Err(e), _, _) => r == Err::<Value, RuntimeError>(e),
        (Ok(_), Err(e), _) => r == Err::<Value, RuntimeError>(e),
        (Ok(_), Ok(_), Err(e)) => r == Err::<Value, RuntimeError>(e),
    })
}

/// The string method `replace`: the string (the first argument) with every occurrence of
/// the second argument replaced by the third.
pub fn str_replace(args: &Vec<Value>) -> (r: Result<Value, RuntimeError>)
    ensures
        str_replace_gives(args@, r),
{
    let s = get_string_arg(args, 0)?;
    let f = get_string_arg(args, 1)?;
    let t = get_string_arg(args, 2)?;
    let n = s.len();
    let m = f.len();
    let mut out: Vec<char> = Vec::new();
    let mut i: usize = 0;
    assert(s@.skip(0) =~= s@);
    if m == 0 {
        append_chars(&mut out, t.as_slice());
        while i < n
            invariant
                n == s@.len(),
                i <= n,
                out@ + interleave(s@.skip(i as int), t@) == t@ + interleave(s@, t@),
            decreases n - i,
        {
            let ghost before = out@;
            assert(s@.skip(i as int).drop_first() =~= s@.skip(i + 1));
            assert(s@.skip(i as int)[0] == s@[i as int]);
            out.push(s[i]);
            append_chars(&mut out, t.as_slice());
            assert(out@ + interleave(s@.skip(i + 1), t@) =~= before + interleave(s@.skip(i as int), t@));
            i = i + 1;
        }
        assert(s@.skip(i as int).len() == 0);
        assert(out@ =~= out@ + interleave(s@.skip(i as int), t@));
        return Ok(Value::String(out));
    }
    while i < n
        invariant
            n == s@.len(),
            m == f@.len(),
            m > 0,
            i <= n,
            out@ + replace_all(s@.skip(i as int), f@, t@) == replace_all(s@, f@, t@),
        decreases n - i,
    {
        let ghost rest = s@.skip(i as int);
        let ghost before = out@;
        if m <= n - i && matches_at(s.as_slice(), i, f.as_slice()) {
            assert(rest.take(m as int) =~= s@.subrange(i as int, i + m));
            assert(rest.skip(m as int) =~= s@.skip(i + m));
            append_chars(&mut out, t.as_slice());
            assert(out@ + replace_all(s@.skip(i + m), f@, t@) =~= before + replace_all(rest, f@, t@));
            i = i + m;
        } else {
            proof {
                if m <= n - i {
                    assert(rest.take(m as int) =~= s@.subrange(i as int, i + m));
                }
                assert(rest.drop_first() =~= s@.skip(i + 1));
                assert(rest[0] == s@[i as int]);
                if rest.len() < m {
                    assert(rest =~= seq![rest[0]] + rest.drop_first());
                }
            }
            out.push(s[i]);
            assert(out@ + replace_all(s@.skip(i + 1), f@, t@) =~= before + replace_all(rest, f@, t@));
            i = i + 1;
        }
    }
    assert(s@.skip(i as int).len() == 0);
    assert(replace_all(s@.skip(i as int), f@, t@) =~= Seq::<char>::empty());
    assert(out@ =~= out@ + replace_all(s@.skip(i as int), f@, t@));
    Ok(Value::String(out))
}

/// The pattern of the string method `isChar`: no ASCII digit anywhere.
pub open spec fn no_digit_pattern() -> Seq<char> {
    seq!['^', '[', '^', '0', '-', '9', ']', '*', '$']
}

/// The pattern of the string method `isDigit`: no ASCII letter anywhere.
pub open spec fn no_letter_pattern() -> Seq<char> {
    seq!['^', '[', '^', 'a', '-', 'z', 'A', '-', 'Z', ']', '*', '$']
}

/// Whether the regex compiled from `pattern` matches `text`; `PatternRefused` where the
/// pattern does not compile.
fn full_match(pattern: &str, text: &[char]) -> (r: Result<bool, RuntimeError>)
    ensures
        r == (if regex_compiles(pattern@) {
            Ok::<bool, RuntimeError>(regex_is_match(pattern@, text@))
        } else {
            Err(RuntimeError::PatternRefused)
        }),
{
    match compile_pattern(pattern) {
        Some(p) => {
            let haystack = chars_to_string(text);
            Ok(p.is_match(haystack.as_str()))
        },
        None => Err(RuntimeError::PatternRefused),
    }
}

/// What `str_is_char` gives for `args`.
pub open spec fn str_is_char_gives(args: Seq<Value>, r: Result<Value, RuntimeError>) -> bool {
    &&& (match string_arg(args, 0) {
        Ok(s) => if regex_compiles(no_digit_pattern()) {
            r matches Ok(v) && v@ == ValueModel::Bool(regex_is_match(no_digit_pattern(), s))
        } else {
            r == Err::<Value, RuntimeError>(RuntimeError::PatternRefused)
        },
        Err(e) => r == Err::<Value, RuntimeError>(e),
    })
}

/// The string method `isChar`: whether the string holds no ASCII digit, as the regex
/// `^[^0-9]*$` decides.
pub fn str_is_char(args: &Vec<Value>) -> (r: Result<Value, RuntimeError>)
    ensures
        str_is_char_gives(args@, r),
{
    let s = get_string_arg(args, 0)?;
    let pattern = "^[^0-9]*$";
    proof {
        reveal_strlit("^[^0-9]*$");
        assert(pattern@ =~= no_digit_pattern());
    }
    let b = full_match(pattern, s.as_slice())?;
    Ok(Value::Bool(b))
}

/// What `str_is_digit` gives for `args`.
pub open spec fn str_is_digit_gives(args: Seq<Value>, r: Result<Value, RuntimeError>) -> bool {
    &&& (match string_arg(args, 0) {
        Ok(s) => if regex_compiles(no_letter_pattern()) {
            r matches Ok(v) && v@ == ValueModel::Bool(regex_is_match(no_letter_pattern(), s))
        } else {
            r == Err::<Value, RuntimeError>(RuntimeError::PatternRefused)
        },
        Err(e) => r == Err::<Value, RuntimeError>(e),
    })
}

/// The string method `isDigit`: whether the string holds no ASCII letter, as the regex
/// `^[^a-zA-Z]*$` decides.
pub fn str_is_digit(args: &Vec<Value>) -> (r: Result<Value, RuntimeError>)
    ensures
        str_is_digit_gives(args@, r),
{
    let s = get_string_arg(args, 0)?;
    let pattern = "^[^a-zA-Z]*$";
    proof {
        reveal_strlit("^[^a-zA-Z]*$");
        assert(pattern@ =~= no_letter_pattern());
    }
    let b = full_match(pattern, s.as_slice())?;
    Ok(Value::Bool(b))
}

/// Whether `x` fits in an `i64`.
pub open spec fn fits_i64(x: int) -> bool {
    i64::MIN <= x <= i64::MAX
}

pub open spec fn abs_spec(x: int) -> int {
    if x < 0 {
        -x
    } else {
        x
    }
}

/// A numeric argument of a built-in that takes integers: a string is refused as such,
/// another non-integer as a type it is not implemented for.
pub open spec fn num_arg(v: ValueModel) -> Result<i64, RuntimeError> {
    match v {
        ValueModel::Int(x) => Ok(x),
        ValueModel::String(_) => Err(RuntimeError::StringArgument),
        _ => Err(RuntimeError::UnsupportedType),
    }
}

fn get_num_arg(v: &Value) -> (r: Result<i64, RuntimeError>)
    ensures
        r == num_arg(v@),
{
    match v {
        Value::Int(x) => Ok(*x),
        Value::String(_) => Err(RuntimeError::StringArgument),
        _ => Err(RuntimeError::UnsupportedType),
    }
}

/// A native that ignores its arguments and answers the integer 5.
pub fn test_returning(_args: &Vec<Value>) -> (v: Value)
    ensures
        v == Value::Int(5),
{
    Value::Int(5)
}

/// What `abs_int` gives for `args`.
pub open spec fn abs_int_gives(args: Seq<Value>, r: Result<Value, RuntimeError>) -> bool {
    &&& (args.len() != 1 ==> r == Err::<Value, RuntimeError>(RuntimeError::ArgumentCount))
    &&& (args.len() == 1 ==> match num_arg(args[0]@) {
        Ok(x) => if x == i64::MIN {
            r == Err::<Value, RuntimeError>(RuntimeError::Overflow)
        } else {
            r matches Ok(v) && v@ == ValueModel::Int(abs_spec(x as int) as i64)
        },
        Err(e) => r == Err::<Value, RuntimeError>(e),
    })
}

/// The built-in `abs`: the absolute value of one integer; the smallest integer, whose
/// absolute value does not fit, is an overflow.
pub fn abs_int(args: &Vec<Value>) -> (r: Result<Value, RuntimeError>)
    ensures
        abs_int_gives(args@, r),
{
    if args.len() != 1 {
        return Err(RuntimeError::ArgumentCount);
    }
    let x = get_num_arg(&args[0])?;
    if x == i64::MIN {
        return Err(RuntimeError::Overflow);
    }
    Ok(Value::Int(if x < 0 { -x } else { x }))
}

/// The exponent `pow` uses: the integer taken as a `u32`, that is modulo 2^32.
pub open spec fn exponent_of(b: i64) -> nat {
    ((b as int) % 4294967296) as nat
}

fn exponent(b: i64) -> (e: u64)
    ensures
        e == exponent_of(b),
        e < 4294967296,
{
    if b >= 0 {
        (b as u64) % 4294967296
    } else {
        let nb: u64 = ((-(b + 1)) as u64) + 1;
        assert(nb == -(b as int));
        let r = nb % 4294967296;
        if r == 0 {
            0
        } else {
            4294967296 - r
        }
    }
}

/// `b` to the power `e`.
pub open spec fn power(b: int, e: nat) -> int
    decreases e,
{
    if e == 0 {
        1
    } else {
        b * power(b, (e - 1) as nat)
    }
}

/// Every positive power of 0 is 0, and every power of 1 is 1.
pub proof fn lemma_power_of_zero_one(b: int, e: nat)
    requires
        b == 0 || b == 1,
        e > 0,
    ensures
        power(b, e) == b,
    decreases e,
{
    if e > 1 {
        lemma_power_of_zero_one(b, (e - 1) as nat);
    }
    let prev = power(b, (e - 1) as nat);
    if b == 0 {
        assert(power(b, e) == 0 * prev);
    } else {
        assert(power(b, e) == 1 * prev);
    }
}

/// `|b^j|` is at least twice `|b^k|` for `j > k`, where `|b| >= 2`.
pub proof fn lemma_pow_grows(b: int, k: nat, j: nat)
    requires
        abs_spec(b) >= 2,
        k < j,
    ensures
        abs_spec(power(b, j)) >= 2 * abs_spec(power(b, k)),
    decreases j - k,
{
    let pj = power(b, (j - 1) as nat);
    assert(power(b, j) == b * pj);
    assert(abs_spec(b * pj) == abs_spec(b) * abs_spec(pj)) by (nonlinear_arith);
    assert(abs_spec(b) * abs_spec(pj) >= 2 * abs_spec(pj)) by (nonlinear_arith)
        requires
            abs_spec(b) >= 2,
            abs_spec(pj) >= 0,
    ;
    if k + 1 < j {
        lemma_pow_grows(b, k, (j - 1) as nat);
    }
}

/// What `pow_int` gives for `args`.
pub open spec fn pow_int_gives(args: Seq<Value>, r: Result<Value, RuntimeError>) -> bool {
    &&& (args.len() != 2 ==> r == Err::<Value, RuntimeError>(RuntimeError::ArgumentCount))
    &&& (args.len() == 2 ==> match (num_arg(args[0]@), num_arg(args[1]@)) {
        (Ok(a), Ok(b)) => if fits_i64(power(a as int, exponent_of(b))) {
            r matches Ok(v) && v@ == ValueModel::Int(power(a as int, exponent_of(b)) as i64)
        } else {
            r == Err::<Value, RuntimeError>(RuntimeError::Overflow)
        },
        (Err(e), _) => r == Err::<Value, RuntimeError>(e),
        (Ok(_), Err(e)) => r == Err::<Value, RuntimeError>(e),
    })
}

/// The built-in `pow`: the first integer to the power of the second taken as a `u32`;
/// a result that does not fit is an overflow.
pub fn pow_int(args: &Vec<Value>) -> (r: Result<Value, RuntimeError>)
    ensures
        pow_int_gives(args@, r),
{
    if args.len() != 2 {
        return Err(RuntimeError::ArgumentCount);
    }
    let a = get_num_arg(&args[0])?;
    let b = get_num_arg(&args[1])?;
    let e = exponent(b);
    let ghost ge = e as nat;
    if e == 0 {
        assert(power(a as int, 0) == 1);
        return Ok(Value::Int(1));
    }
    if a == 0 || a == 1 {
        proof {
            lemma_power_of_zero_one(a as int, ge);
        }
        return Ok(Value::Int(a));
    }
    if a == -1 {
        let mut acc: i64 = 1;
        let mut k: u64 = 0;
        while k < e
            invariant
                k <= e,
                acc as int == power(-1, k as nat),
                acc == 1 || acc == -1,
            decreases e - k,
        {
            assert(power(-1, (k + 1) as nat) == -1 * power(-1, k as nat));
            acc = -acc;
            k = k + 1;
        }
        return Ok(Value::Int(acc));
    }
    let mut acc: i64 = 1;
    let mut k: u64 = 0;
    while k < e
        invariant
            args@.len() == 2,
            num_arg(args@[0]@) == Ok::<i64, RuntimeError>(a),
            num_arg(args@[1]@) == Ok::<i64, RuntimeError>(b),
            e == exponent_of(b),
            abs_spec(a as int) >= 2,
            k <= e,
            acc as int == power(a as int, k as nat),
        decreases e - k,
    {
        assert(power(a as int, (k + 1) as nat) == a * power(a as int, k as nat));
        assert(acc * a == a * acc) by (nonlinear_arith);
        match acc.checked_mul(a) {
            Some(next) => {
                acc = next;
                k = k + 1;
            },
            None => {
                proof {
                    let p1 = power(a as int, (k + 1) as nat);
                    assert(abs_spec(p1) >= 9223372036854775808);
                    if (k + 1) < e {
                        lemma_pow_grows(a as int, (k + 1) as nat, e as nat);
                    }
                }
                return Err(RuntimeError::Overflow);
            },
        }
    }
    Ok(Value::Int(acc))
}

/// What `min_int` gives for `args`.
pub open spec fn min_int_gives(args: Seq<Value>, r: Result<Value, RuntimeError>) -> bool {
    &&& (args.len() != 2 ==> r == Err::<Value, RuntimeError>(RuntimeError::ArgumentCount))
    &&& (args.len() == 2 ==> match (num_arg(args[0]@), num_arg(args[1]@)) {
        (Ok(a), Ok(b)) => r matches Ok(v) && v@ == ValueModel::Int(if a <= b { a } else { b }),
        (Err(e), _) => r == Err::<Value, RuntimeError>(e),
        (Ok(_), Err(e)) => r == Err::<Value, RuntimeError>(e),
    })
}

/// The built-in `min` on two integers.
pub fn min_int(args: &Vec<Value>) -> (r: Result<Value, RuntimeError>)
    ensures
        min_int_gives(args@, r),
{
    if args.len() != 2 {
        return Err(RuntimeError::ArgumentCount);
    }
    let a = get_num_arg(&args[0])?;
    let b = get_num_arg(&args[1])?;
    Ok(Value::Int(if a <= b { a } else { b }))
}

/// What `max_int` gives for `args`.
pub open spec fn max_int_gives(args: Seq<Value>, r: Result<Value, RuntimeError>) -> bool {
    &&& (args.len() != 2 ==> r == Err::<Value, RuntimeError>(RuntimeError::ArgumentCount))
    &&& (args.len() == 2 ==> match (num_arg(args[0]@), num_arg(args[1]@)) {
        (Ok(a), Ok(b)) => r matches Ok(v) && v@ == ValueModel::Int(if a >= b { a } else { b }),
        (Err(e), _) => r == Err::<Value, RuntimeError>(e),
        (Ok(_), Err(e)) => r == Err::<Value, RuntimeError>(e),
    })
}

/// The built-in `max` on two integers.
pub fn max_int(args: &Vec<Value>) -> (r: Result<Value, RuntimeError>)
    ensures
        max_int_gives(args@, r),
{
    if args.len() != 2 {
        return Err(RuntimeError::ArgumentCount);
    }
    let a = get_num_arg(&args[0])?;
    let b = get_num_arg(&args[1])?;
    Ok(Value::Int(if a >= b { a } else { b }))
}

/// What `sqrt_int` gives for `args`.
pub open spec fn sqrt_int_gives(args: Seq<Value>, r: Result<Value, RuntimeError>) -> bool {
    &&& (args.len() != 1 ==> r == Err::<Value, RuntimeError>(RuntimeError::ArgumentCount))
    &&& (args.len() == 1 ==> match num_arg(args[0]@) {
        Ok(x) => if x < 0 {
            r == Err::<Value, RuntimeError>(RuntimeError::NegativeRoot)
        } else {
            r matches Ok(v) && v@ matches ValueModel::Int(q) && 0 <= q && q * q <= x && x < (q + 1) * (q + 1)
        },
        Err(e) => r == Err::<Value, RuntimeError>(e),
    })
}

/// The built-in `sqrt` on an integer: the largest integer whose square does not pass it;
/// a negative integer has none.
pub fn sqrt_int(args: &Vec<Value>) -> (r: Result<Value, RuntimeError>)
    ensures
        sqrt_int_gives(args@, r),
{
    if args.len() != 1 {
        return Err(RuntimeError::ArgumentCount);
    }
    let x = get_num_arg(&args[0])?;
    if x < 0 {
        return Err(RuntimeError::NegativeRoot);
    }
    let v: u64 = x as u64;
    let mut lo: u64 = 0;
    let mut hi: u64 = 3037000500;
    assert(3037000500 * 3037000500 > 9223372036854775807) by (nonlinear_arith);
    while hi - lo > 1
        invariant
            lo < hi <= 3037000500,
            lo * lo <= v,
            v < hi * hi,
            v <= 9223372036854775807,
        decreases hi - lo,
    {
        let mid: u64 = lo + (hi - lo) / 2;
        assert(mid * mid < 3037000500 * 3037000500) by (nonlinear_arith)
            requires
                mid < 3037000500,
        ;
        if mid * mid <= v {
            lo = mid;
        } else {
            hi = mid;
        }
    }
    assert(hi == lo + 1);
    Ok(Value::Int(lo as i64))
}

/// The decimal text of an integer, with a leading `-` where it is negative.
pub open spec fn int_text(x: int) -> Seq<char> {
    if x < 0 {
        seq!['-'] + decimal((-x) as nat)
    } else {
        decimal(x as nat)
    }
}

/// The decimal text of `x`.
pub fn int_to_chars(x: i64) -> (v: Vec<char>)
    ensures
        v@ == int_text(x as int),
{
    if x < 0 {
        let u: u64 = ((-(x + 1)) as u64) + 1;
        let digits = decimal_chars(u);
        let mut v: Vec<char> = Vec::new();
        v.push('-');
        append_chars(&mut v, digits.as_slice());
        assert(v@ =~= seq!['-'] + decimal((-x) as nat));
        v
    } else {
        decimal_chars(x as u64)
    }
}

/// What `conv_to_int` gives for `args`.
pub open spec fn conv_to_int_gives(args: Seq<Value>, r: Result<Value, RuntimeError>) -> bool {
    &&& (args.len() != 1 ==> r == Err::<Value, RuntimeError>(RuntimeError::ArgumentCount))
    &&& (args.len() == 1 ==> match as_string(args[0]@) {
        Some(s) => if !regex_compiles(no_letter_pattern()) {
            r == Err::<Value, RuntimeError>(RuntimeError::PatternRefused)
        } else if !regex_is_match(no_letter_pattern(), s) {
            r == Err::<Value, RuntimeError>(RuntimeError::NotDigits)
        } else if s.len() == 0 {
            r matches Ok(v) && v@ == ValueModel::Int(0)
        } else {
            match parse_i64(s) {
                Some(x) => r matches Ok(v) && v@ == ValueModel::Int(x),
                None => r == Err::<Value, RuntimeError>(RuntimeError::NotANumber),
            }
        },
        None => r == Err::<Value, RuntimeError>(RuntimeError::UnsupportedType),
    })
}

/// The built-in `conv` on a string: a string with no ASCII letter (as the regex
/// `^[^a-zA-Z]*$` decides) converts to the integer it spells, the empty string to 0.
/// A float argument is converted outside this library; here it is refused like any other
/// type but a string.
pub fn conv_to_int(args: &Vec<Value>) -> (r: Result<Value, RuntimeError>)
    ensures
        conv_to_int_gives(args@, r),
{
    if args.len() != 1 {
        return Err(RuntimeError::ArgumentCount);
    }
    let s = match &args[0] {
        Value::String(s) => s,
        _ => {
            return Err(RuntimeError::UnsupportedType);
        },
    };
    let pattern = "^[^a-zA-Z]*$";
    proof {
        reveal_strlit("^[^a-zA-Z]*$");
        assert(pattern@ =~= no_letter_pattern());
    }
    let no_letters = full_match(pattern, s.as_slice())?;
    if !no_letters {
        return Err(RuntimeError::NotDigits);
    }
    if s.len() == 0 {
        return Ok(Value::Int(0));
    }
    match parse_int(s.as_slice()) {
        Some(x) => Ok(Value::Int(x)),
        None => Err(RuntimeError::NotANumber),
    }
}

/// What `conv_to_string` gives for `args`.
pub open spec fn conv_to_string_gives(args: Seq<Value>, r: Result<Value, RuntimeError>) -> bool {
    &&& (args.len() != 1 ==> r == Err::<Value, RuntimeError>(RuntimeError::ArgumentCount))
    &&& (args.len() == 1 ==> match args[0]@ {
        ValueModel::Int(x) => r matches Ok(v) && v@ == ValueModel::String(int_text(x as int)),
        _ => r == Err::<Value, RuntimeError>(RuntimeError::UnsupportedType),
    })
}

/// The built-in `convstr` on an integer: its decimal text. A float argument is converted
/// outside this library; here it is refused like any other type but an integer.
pub fn conv_to_string(args: &Vec<Value>) -> (r: Result<Value, RuntimeError>)
    ensures
        conv_to_string_gives(args@, r),
{
    if args.len() != 1 {
        return Err(RuntimeError::ArgumentCount);
    }
    match &args[0] {
        Value::Int(x) => Ok(Value::String(int_to_chars(*x))),
        _ => Err(RuntimeError::UnsupportedType),
    }
}

/// The text `print` writes for a value: an integer's decimal text, `true` or `false`, a
/// string's text, `null`; a float's text is made outside this library (`None`); any other
/// value cannot be written.
pub open spec fn display_spec(v: ValueModel) -> Option<Result<Seq<char>, RuntimeError>> {
    match v {
        ValueModel::Int(x) => Some(Ok(int_text(x as int))),
        ValueModel::Bool(b) => Some(Ok(if b { seq!['t', 'r', 'u', 'e'] } else { seq!['f', 'a', 'l', 's', 'e'] })),
        ValueModel::String(s) => Some(Ok(s)),
        ValueModel::Null => Some(Ok(seq!['n', 'u', 'l', 'l'])),
        ValueModel::Float(_) => None,
        _ => Some(Err(RuntimeError::UnsupportedType)),
    }
}

/// The text `print` writes for a value, as `display_spec` says.
pub fn display_text(v: &Value) -> (r: Option<Result<Vec<char>, RuntimeError>>)
    ensures
        match display_spec(v@) {
            Some(Ok(t)) => r matches Some(Ok(w)) && w@ == t,
            Some(Err(e)) => r == Some(Err::<Vec<char>, RuntimeError>(e)),
            None => r is None,
        },
{
    match v {
        Value::Int(x) => Some(Ok(int_to_chars(*x))),
        Value::Bool(b) => {
            let text = if *b { vec!['t', 'r', 'u', 'e'] } else { vec!['f', 'a', 'l', 's', 'e'] };
            assert(text@ =~= (if *b { seq!['t', 'r', 'u', 'e'] } else { seq!['f', 'a', 'l', 's', 'e'] }));
            Some(Ok(text))
        },
        Value::String(s) => Some(Ok(s.clone())),
        Value::Null => {
            let text = vec!['n', 'u', 'l', 'l'];
            assert(text@ =~= seq!['n', 'u', 'l', 'l']);
            Some(Ok(text))
        },
        Value::Float(_) => None,
        _ => Some(Err(RuntimeError::UnsupportedType)),
    }
}

proof fn lemma_decimal_digits(n: nat)
    ensures
        decimal(n).len() > 0,
        all_digits(decimal(n)),
        digits_value(decimal(n)) == n,
        '0' <= decimal(n)[0] <= '9',
    decreases n,
{
    let d = n % 10;
    assert(digit_char(d) as int == d + 48);
    if n < 10 {
        let t = seq![digit_char(n)];
        assert(t.drop_last() =~= Seq::<char>::empty());
        assert(digits_value(t) == digits_value(Seq::<char>::empty()) * 10 + (digit_char(n) as int - 48));
    }
    if n >= 10 {
        lemma_decimal_digits(n / 10);
        let s = decimal(n / 10);
        let t = s.push(digit_char(d));
        assert(t.drop_last() =~= s);
        assert(t.last() == digit_char(d));
        assert(digits_value(t) == digits_value(s) * 10 + (digit_char(d) as int - 48));
        assert(n == (n / 10) * 10 + d);
        assert(t[0] == s[0]);
        assert forall|i: int| 0 <= i < t.len() implies '0' <= #[trigger] t[i] <= '9' by {
            if i < s.len() {
                assert(t[i] == s[i]);
            }
        }
    }
}

/// Reading back the decimal text of an integer gives the integer: `parse_i64` of
/// `int_text(x)` is `x`, for every `i64` (so `conv` undoes `convstr` on integers).
pub proof fn lemma_parse_int_text(x: i64)
    ensures
        parse_i64(int_text(x as int)) == Some(x),
{
    if x < 0 {
        let m = (-x) as nat;
        lemma_decimal_digits(m);
        let s = int_text(x as int);
        assert(s.drop_first() =~= decimal(m));
        assert(s[0] == '-');
    } else {
        lemma_decimal_digits(x as nat);
    }
}

proof fn lemma_trim_start_shape(s: Seq<char>)
    ensures
        trim_start_spec(s).len() == 0 || !is_whitespace(trim_start_spec(s)[0]),
        trim_start_spec(trim_start_spec(s)) == trim_start_spec(s),
    decreases s.len(),
{
    if s.len() > 0 && is_whitespace(s[0]) {
        lemma_trim_start_shape(s.drop_first());
    }
}

proof fn lemma_trim_end_keeps_front(u: Seq<char>)
    ensures
        trim_end_spec(u).len() <= u.len(),
        trim_end_spec(u) == u.take(trim_end_spec(u).len() as int),
        trim_end_spec(u).len() == 0 || !is_whitespace(trim_end_spec(u).last()),
    decreases u.len(),
{
    if u.len() > 0 && is_whitespace(u.last()) {
        lemma_trim_end_keeps_front(u.drop_last());
        let t = trim_end_spec(u.drop_last());
        assert(u.drop_last().take(t.len() as int) =~= u.take(t.len() as int));
    } else {
        assert(u.take(u.len() as int) =~= u);
    }
}

proof fn lemma_trim_end_of_clean(u: Seq<char>)
    requires
        u.len() == 0 || !is_whitespace(u.last()),
    ensures
        trim_end_spec(u) == u,
{
}

proof fn lemma_trim_start_of_clean(u: Seq<char>)
    requires
        u.len() == 0 || !is_whitespace(u[0]),
    ensures
        trim_start_spec(u) == u,
{
}

/// Trimming twice is trimming once: `trim` of a trimmed string gives it back unchanged.
pub proof fn lemma_trim_idempotent(s: Seq<char>)
    ensures
        trim_end_spec(trim_start_spec(trim_end_spec(trim_start_spec(s)))) == trim_end_spec(trim_start_spec(s)),
{
    let a = trim_start_spec(s);
    lemma_trim_start_shape(s);
    let t = trim_end_spec(a);
    lemma_trim_end_keeps_front(a);
    if t.len() > 0 {
        assert(t[0] == a[0]);
    }
    lemma_trim_start_of_clean(t);
    lemma_trim_end_of_clean(t);
}

/// `find` gives the first place where the pattern occurs: the pattern stands there, and at
/// no earlier place; where it gives nothing, the pattern stands nowhere.
pub proof fn law_first_match(s: Seq<char>, p: Seq<char>)
    ensures
        first_match(s, p) matches Some(k) ==> k + p.len() <= s.len() && s.subrange(k as int, (k + p.len()) as int) == p
            && forall|j: int| 0 <= j < k ==> #[trigger] s.subrange(j, j + p.len()) != p,
        first_match(s, p) is None ==> forall|j: int| 0 <= j && j + p.len() <= s.len() ==> #[trigger] s.subrange(j, j + p.len()) != p,
    decreases s.len(),
{
    if s.len() < p.len() {
    } else if s.take(p.len() as int) == p {
        assert(s.subrange(0, p.len() as int) =~= s.take(p.len() as int));
    } else if s.len() == 0 {
        assert forall|j: int| 0 <= j && j + p.len() <= s.len() implies #[trigger] s.subrange(j, j + p.len()) != p by {
            assert(s.subrange(j, j + p.len()) =~= s.take(p.len() as int));
        }
    } else {
        let t = s.drop_first();
        law_first_match(t, p);
        assert forall|j: int| 1 <= j && j + p.len() <= s.len() implies #[trigger] s.subrange(j, j + p.len()) == t.subrange(j - 1, j - 1 + p.len()) by {
            assert(s.subrange(j, j + p.len()) =~= t.subrange(j - 1, j - 1 + p.len()));
        }
        assert(s.subrange(0, p.len() as int) =~= s.take(p.len() as int));
        if let Some(k) = first_match(s, p) {
            assert(s.subrange(k as int, (k + p.len()) as int) == t.subrange(k - 1, k - 1 + p.len()));
            assert forall|j: int| 0 <= j < k implies #[trigger] s.subrange(j, j + p.len()) != p by {
                if j >= 1 {
                    assert(s.subrange(j, j + p.len()) == t.subrange(j - 1, j - 1 + p.len()));
                }
            }
        } else {
            assert forall|j: int| 0 <= j && j + p.len() <= s.len() implies #[trigger] s.subrange(j, j + p.len()) != p by {
                if j >= 1 {
                    assert(s.subrange(j, j + p.len()) == t.subrange(j - 1, j - 1 + p.len()));
                }
            }
        }
    }
}

/// Trimming the front takes off exactly the leading whitespace: what is left is the end of
/// the string, everything taken off is whitespace, and what is left starts with no
/// whitespace.
pub proof fn law_trim_start(s: Seq<char>)
    ensures
        trim_start_spec(s).len() <= s.len(),
        trim_start_spec(s) == s.skip(s.len() - trim_start_spec(s).len()),
        forall|k: int| 0 <= k < s.len() - trim_start_spec(s).len() ==> is_whitespace(#[trigger] s[k]),
        trim_start_spec(s).len() == 0 || !is_whitespace(trim_start_spec(s)[0]),
    decreases s.len(),
{
    lemma_trim_start_shape(s);
    if s.len() > 0 && is_whitespace(s[0]) {
        let t = s.drop_first();
        law_trim_start(t);
        assert(t.skip(t.len() - trim_start_spec(t).len()) =~= s.skip(s.len() - trim_start_spec(s).len()));
        assert forall|k: int| 0 <= k < s.len() - trim_start_spec(s).len() implies is_whitespace(#[trigger] s[k]) by {
            if k > 0 {
                assert(s[k] == t[k - 1]);
            }
        }
    } else {
        assert(s.skip(0) =~= s);
    }
}

/// `toUpper` and `toLower` change exactly the ASCII letters of the other case, each to the
/// same letter in the wanted case, and leave every other character as it is.
pub proof fn law_case_change(c: char)
    ensures
        'a' <= c <= 'z' ==> 'A' <= crate::errors::upper(c) <= 'Z' && crate::errors::upper(c) as u32 + 32 == c as u32,
        !('a' <= c <= 'z') ==> crate::errors::upper(c) == c,
        'A' <= c <= 'Z' ==> 'a' <= crate::errors::lower(c) <= 'z' && crate::errors::lower(c) as u32 == c as u32 + 32,
        !('A' <= c <= 'Z') ==> crate::errors::lower(c) == c,
{
}

/// For a non-empty pattern, `find` finds nothing exactly where `count` counts nothing.
pub proof fn lemma_find_none_iff_count_zero(s: Seq<char>, p: Seq<char>)
    requires
        p.len() > 0,
    ensures
        first_match(s, p) is None <==> count_matches(s, p) == 0,
    decreases s.len(),
{
    if s.len() >= p.len() && s.take(p.len() as int) != p {
        lemma_find_none_iff_count_zero(s.drop_first(), p);
    }
}

/// Replacing a non-empty pattern that does not occur leaves the string as it is.
pub proof fn lemma_replace_absent(s: Seq<char>, f: Seq<char>, t: Seq<char>)
    requires
        f.len() > 0,
        first_match(s, f) is None,
    ensures
        replace_all(s, f, t) == s,
    decreases s.len(),
{
    if s.len() >= f.len() {
        lemma_replace_absent(s.drop_first(), f, t);
        assert(seq![s[0]] + s.drop_first() =~= s);
    }
}

/// In UTF-8 an ASCII string takes one byte per character: `len` of it is its character
/// count.
pub proof fn lemma_utf8_len_ascii(s: Seq<char>)
    requires
        forall|i: int| 0 <= i < s.len() ==> s[i] <= '\u{7f}',
    ensures
        utf8_len(s) == s.len(),
    decreases s.len(),
{
    if s.len() > 0 {
        lemma_utf8_len_ascii(s.drop_last());
    }
}

} // verus!
