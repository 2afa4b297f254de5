use shlang::natives::{
    abs_int, conv_to_int, conv_to_string, display_text, int_to_chars, max_int, min_int, pow_int, sqrt_int, str_count,
    str_find, str_get, str_is_char, str_is_digit, str_len, str_replace, str_to_lower, str_to_upper, str_trim,
    str_trim_left, str_trim_right, RuntimeError,
};
use shlang::pattern::{chars_to_string, compile_pattern};
use shlang::text::parse_int;
use shlang::value::Value;

fn chars(s: &str) -> Vec<char> {
    s.chars().collect()
}

fn st(s: &str) -> Value {
    Value::String(chars(s))
}

fn ok_str(r: Result<Value, RuntimeError>) -> String {
    match r {
        Ok(Value::String(t)) => t.iter().collect(),
        other => panic!("not a string: {:?}", other),
    }
}

#[test]
fn len_counts_utf8_bytes() {
    assert_eq!(str_len(&vec![st("hello")]), Ok(Value::Int(5)));
    assert_eq!(str_len(&vec![st("héllo")]), Ok(Value::Int(6)));
    assert_eq!(str_len(&vec![st("€")]), Ok(Value::Int(3)));
    assert_eq!(str_len(&vec![st("🙂")]), Ok(Value::Int(4)));
    assert_eq!(str_len(&vec![st("")]), Ok(Value::Int(0)));
    assert_eq!(str_len(&vec![Value::Int(1)]), Err(RuntimeError::UnsupportedType));
    assert_eq!(str_len(&vec![]), Err(RuntimeError::ArgumentCount));
}

#[test]
fn upper_and_lower_touch_ascii_only() {
    assert_eq!(ok_str(str_to_upper(&vec![st("abc-é")])), "ABC-é");
    assert_eq!(ok_str(str_to_lower(&vec![st("ABC-É")])), "abc-É");
}

#[test]
fn get_reads_one_byte() {
    assert_eq!(ok_str(str_get(&vec![Value::Int(0), st("hey")])), "h");
    assert_eq!(ok_str(str_get(&vec![Value::Int(3), st("héy")])), "y");
    assert_eq!(str_get(&vec![Value::Int(1), st("héy")]), Err(RuntimeError::NotAscii));
    assert_eq!(str_get(&vec![Value::Int(2), st("héy")]), Err(RuntimeError::NotAscii));
    assert_eq!(str_get(&vec![Value::Int(4), st("héy")]), Err(RuntimeError::IndexOutOfRange));
    assert_eq!(str_get(&vec![Value::Int(-1), st("hey")]), Err(RuntimeError::IndexOutOfRange));
    assert_eq!(str_get(&vec![st("x"), st("hey")]), Err(RuntimeError::UnsupportedType));
}

#[test]
fn count_without_overlaps() {
    assert_eq!(str_count(&vec![st("aaaa"), st("aa")]), Ok(Value::Int(2)));
    assert_eq!(str_count(&vec![st("banana"), st("an")]), Ok(Value::Int(2)));
    assert_eq!(str_count(&vec![st("abc"), st("")]), Ok(Value::Int(4)));
    assert_eq!(str_count(&vec![st("abc"), st("x")]), Ok(Value::Int(0)));
    assert_eq!(str_count(&vec![st("abc")]), Err(RuntimeError::ArgumentCount));
}

#[test]
fn find_gives_byte_offset() {
    assert_eq!(str_find(&vec![st("banana"), st("na")]), Ok(Value::Int(2)));
    assert_eq!(str_find(&vec![st("ébc"), st("c")]), Ok(Value::Int(3)));
    assert_eq!(str_find(&vec![st("abc"), st("")]), Ok(Value::Int(0)));
    assert_eq!(str_find(&vec![st("abc"), st("z")]), Ok(Value::Int(-1)));
}

#[test]
fn trims_use_unicode_whitespace() {
    assert_eq!(ok_str(str_trim(&vec![st(" \t x y \n")])), "x y");
    assert_eq!(ok_str(str_trim_left(&vec![st("\u{3000} x ")])), "x ");
    assert_eq!(ok_str(str_trim_right(&vec![st(" x\u{a0}")])), " x");
    assert_eq!(ok_str(str_trim(&vec![st("   ")])), "");
}

#[test]
fn replace_all_occurrences() {
    assert_eq!(ok_str(str_replace(&vec![st("a-b-c"), st("-"), st("+")])), "a+b+c");
    assert_eq!(ok_str(str_replace(&vec![st("aaa"), st("aa"), st("b")])), "ba");
    assert_eq!(ok_str(str_replace(&vec![st("ab"), st(""), st("-")])), "-a-b-");
    assert_eq!(ok_str(str_replace(&vec![st("abc"), st("x"), st("y")])), "abc");
}

#[test]
fn is_char_and_is_digit_follow_their_patterns() {
    assert_eq!(str_is_char(&vec![st("abc")]), Ok(Value::Bool(true)));
    assert_eq!(str_is_char(&vec![st("a1c")]), Ok(Value::Bool(false)));
    assert_eq!(str_is_digit(&vec![st("12-3")]), Ok(Value::Bool(true)));
    assert_eq!(str_is_digit(&vec![st("12a")]), Ok(Value::Bool(false)));
    assert_eq!(str_is_digit(&vec![st("")]), Ok(Value::Bool(true)));
}

#[test]
fn compiled_pattern_matches_text() {
    let p = compile_pattern("b+").unwrap();
    assert!(p.is_match("abbc"));
    assert!(!p.is_match("ac"));
    assert!(compile_pattern("(unclosed").is_none());
    assert_eq!(chars_to_string(&chars("xyz")), "xyz".to_string());
}

#[test]
fn abs_cases() {
    assert_eq!(abs_int(&vec![Value::Int(-5)]), Ok(Value::Int(5)));
    assert_eq!(abs_int(&vec![Value::Int(5)]), Ok(Value::Int(5)));
    assert_eq!(abs_int(&vec![Value::Int(i64::MIN)]), Err(RuntimeError::Overflow));
    assert_eq!(abs_int(&vec![st("x")]), Err(RuntimeError::StringArgument));
    assert_eq!(abs_int(&vec![Value::Bool(true)]), Err(RuntimeError::UnsupportedType));
    assert_eq!(abs_int(&vec![Value::Int(1), Value::Int(2)]), Err(RuntimeError::ArgumentCount));
}

#[test]
fn pow_cases() {
    assert_eq!(pow_int(&vec![Value::Int(2), Value::Int(10)]), Ok(Value::Int(1024)));
    assert_eq!(pow_int(&vec![Value::Int(-3), Value::Int(3)]), Ok(Value::Int(-27)));
    assert_eq!(pow_int(&vec![Value::Int(0), Value::Int(0)]), Ok(Value::Int(1)));
    assert_eq!(pow_int(&vec![Value::Int(-1), Value::Int(-1)]), Ok(Value::Int(-1)));
    assert_eq!(pow_int(&vec![Value::Int(-2), Value::Int(63)]), Ok(Value::Int(i64::MIN)));
    assert_eq!(pow_int(&vec![Value::Int(2), Value::Int(63)]), Err(RuntimeError::Overflow));
    assert_eq!(pow_int(&vec![Value::Int(2), Value::Int(-1)]), Err(RuntimeError::Overflow));
    assert_eq!(pow_int(&vec![Value::Int(5), Value::Int(4294967296)]), Ok(Value::Int(1)));
    assert_eq!(pow_int(&vec![Value::Int(2), st("x")]), Err(RuntimeError::StringArgument));
}

#[test]
fn min_max_sqrt_cases() {
    assert_eq!(min_int(&vec![Value::Int(3), Value::Int(-4)]), Ok(Value::Int(-4)));
    assert_eq!(max_int(&vec![Value::Int(3), Value::Int(-4)]), Ok(Value::Int(3)));
    assert_eq!(sqrt_int(&vec![Value::Int(0)]), Ok(Value::Int(0)));
    assert_eq!(sqrt_int(&vec![Value::Int(15)]), Ok(Value::Int(3)));
    assert_eq!(sqrt_int(&vec![Value::Int(16)]), Ok(Value::Int(4)));
    assert_eq!(sqrt_int(&vec![Value::Int(i64::MAX)]), Ok(Value::Int(3037000499)));
    assert_eq!(sqrt_int(&vec![Value::Int(-1)]), Err(RuntimeError::NegativeRoot));
}

#[test]
fn conversions() {
    assert_eq!(conv_to_int(&vec![st("42")]), Ok(Value::Int(42)));
    assert_eq!(conv_to_int(&vec![st("-42")]), Ok(Value::Int(-42)));
    assert_eq!(conv_to_int(&vec![st("")]), Ok(Value::Int(0)));
    assert_eq!(conv_to_int(&vec![st("4a")]), Err(RuntimeError::NotDigits));
    assert_eq!(conv_to_int(&vec![st("4 2")]), Err(RuntimeError::NotANumber));
    assert_eq!(conv_to_int(&vec![Value::Int(3)]), Err(RuntimeError::UnsupportedType));
    assert_eq!(conv_to_string(&vec![Value::Int(-120)]), Ok(st("-120")));
    assert_eq!(conv_to_string(&vec![Value::Int(i64::MIN)]), Ok(st("-9223372036854775808")));
    assert_eq!(conv_to_string(&vec![Value::Bool(true)]), Err(RuntimeError::UnsupportedType));
}

#[test]
fn text_of_an_integer_reads_back() {
    for x in [0i64, 7, -7, 1234567890, i64::MAX, i64::MIN] {
        assert_eq!(parse_int(&int_to_chars(x)), Some(x));
    }
}

#[test]
fn trim_twice_is_trim_once() {
    let once = ok_str(str_trim(&vec![st("  a b  ")]));
    let twice = ok_str(str_trim(&vec![st(&once)]));
    assert_eq!(once, twice);
}

#[test]
fn find_and_count_agree_on_absence() {
    assert_eq!(str_find(&vec![st("abc"), st("d")]), Ok(Value::Int(-1)));
    assert_eq!(str_count(&vec![st("abc"), st("d")]), Ok(Value::Int(0)));
    assert_eq!(ok_str(str_replace(&vec![st("abc"), st("d"), st("e")])), "abc");
}

#[test]
fn display_texts() {
    assert_eq!(display_text(&Value::Int(-3)), Some(Ok(chars("-3"))));
    assert_eq!(display_text(&Value::Bool(false)), Some(Ok(chars("false"))));
    assert_eq!(display_text(&Value::Null), Some(Ok(chars("null"))));
    assert_eq!(display_text(&st("x")), Some(Ok(chars("x"))));
    assert_eq!(display_text(&Value::Float(chars("1.5"))), None);
    assert_eq!(display_text(&Value::InstanceRef(2)), Some(Err(RuntimeError::UnsupportedType)));
}

#[test]
fn test_returning_answers_five() {
    assert_eq!(shlang::natives::test_returning(&vec![]), Value::Int(5));
    assert_eq!(shlang::natives::test_returning(&vec![st("x"), Value::Bool(true)]), Value::Int(5));
}
