use vstd::prelude::*;

use crate::tokens::{Keywords, Token, TokenType};
use crate::text::{append_chars, decimal, decimal_chars, str_to_chars};

verus! {

/// The name of a keyword, as the language's messages print it.
pub open spec fn keyword_name(k: Keywords) -> Seq<char> {
    match k {
        Keywords::VAR => "VAR"@,
        Keywords::INT => "INT"@,
        Keywords::FLOAT => "FLOAT"@,
        Keywords::BOOL => "BOOL"@,
        Keywords::STRING => "STRING"@,
        Keywords::TRUE => "TRUE"@,
        Keywords::FALSE => "FALSE"@,
        Keywords::NULL => "NULL"@,
        Keywords::FN => "FN"@,
        Keywords::RETURN => "RETURN"@,
        Keywords::STRUCT => "STRUCT"@,
        Keywords::INSTANCE(n) => "INSTANCE("@ + decimal(n as nat) + ")"@,
        Keywords::LIST => "LIST"@,
        Keywords::IF => "IF"@,
        Keywords::ELIF => "ELIF"@,
        Keywords::ELSE => "ELSE"@,
        Keywords::WHILE => "WHILE"@,
        Keywords::FOR => "FOR"@,
        Keywords::IN => "IN"@,
        Keywords::BREAK => "BREAK"@,
        Keywords::CONTINUE => "CONTINUE"@,
        Keywords::AND => "AND"@,
        Keywords::OR => "OR"@,
        Keywords::METHODS => "METHODS"@,
    }
}

/// The name of a token type, as the language's messages print it.
pub open spec fn token_type_name(t: TokenType) -> Seq<char> {
    match t {
        TokenType::LEFT_PAREN => "LEFT_PAREN"@,
        TokenType::RIGHT_PAREN => "RIGHT_PAREN"@,
        TokenType::LEFT_BRACE => "LEFT_BRACE"@,
        TokenType::RIGHT_BRACE => "RIGHT_BRACE"@,
        TokenType::LEFT_BRACKET => "LEFT_BRACKET"@,
        TokenType::RIGHT_BRACKET => "RIGHT_BRACKET"@,
        TokenType::COMMA => "COMMA"@,
        TokenType::DOT => "DOT"@,
        TokenType::MINUS => "MINUS"@,
        TokenType::PLUS => "PLUS"@,
        TokenType::STAR => "STAR"@,
        TokenType::COLON => "COLON"@,
        TokenType::SLASH => "SLASH"@,
        TokenType::MOD => "MOD"@,
        TokenType::INTERJ => "INTERJ"@,
        TokenType::INTERJ_EQ => "INTERJ_EQ"@,
        TokenType::EQ => "EQ"@,
        TokenType::EQ_EQ => "EQ_EQ"@,
        TokenType::GREATER => "GREATER"@,
        TokenType::GREATER_EQ => "GREATER_EQ"@,
        TokenType::LESS => "LESS"@,
        TokenType::LESS_EQ => "LESS_EQ"@,
        TokenType::COMMENT => "COMMENT"@,
        TokenType::STRING => "STRING"@,
        TokenType::IDENTIFIER => "IDENTIFIER"@,
        TokenType::KEYWORD(k) => "KEYWORD("@ + keyword_name(k) + ")"@,
        TokenType::INT => "INT"@,
        TokenType::FLOAT => "FLOAT"@,
        TokenType::BOOL => "BOOL"@,
        TokenType::NULL => "NULL"@,
        TokenType::STRUCT(n) => "STRUCT("@ + decimal(n as nat) + ")"@,
        TokenType::LIST => "LIST"@,
        TokenType::LIST_ELEMENT => "LIST_ELEMENT"@,
        TokenType::NATIVE_FN => "NATIVE_FN"@,
        TokenType::ERROR => "ERROR"@,
        TokenType::EOF => "EOF"@,
    }
}

fn wrapped(prefix: &str, inner: Vec<char>) -> (v: Vec<char>)
    ensures
        v@ == prefix@ + inner@ + ")"@,
{
    let mut v = str_to_chars(prefix);
    append_chars(&mut v, inner.as_slice());
    let close = str_to_chars(")");
    append_chars(&mut v, close.as_slice());
    v
}

/// The name of a keyword.
pub fn keyword_name_chars(k: Keywords) -> (v: Vec<char>)
    ensures
        v@ == keyword_name(k),
{
    match k {
        Keywords::VAR => str_to_chars("VAR"),
        Keywords::INT => str_to_chars("INT"),
        Keywords::FLOAT => str_to_chars("FLOAT"),
        Keywords::BOOL => str_to_chars("BOOL"),
        Keywords::STRING => str_to_chars("STRING"),
        Keywords::TRUE => str_to_chars("TRUE"),
        Keywords::FALSE => str_to_chars("FALSE"),
        Keywords::NULL => str_to_chars("NULL"),
        Keywords::FN => str_to_chars("FN"),
        Keywords::RETURN => str_to_chars("RETURN"),
        Keywords::STRUCT => str_to_chars("STRUCT"),
        Keywords::INSTANCE(n) => wrapped("INSTANCE(", decimal_chars(n as u64)),
        Keywords::LIST => str_to_chars("LIST"),
        Keywords::IF => str_to_chars("IF"),
        Keywords::ELIF => str_to_chars("ELIF"),
        Keywords::ELSE => str_to_chars("ELSE"),
        Keywords::WHILE => str_to_chars("WHILE"),
        Keywords::FOR => str_to_chars("FOR"),
        Keywords::IN => str_to_chars("IN"),
        Keywords::BREAK => str_to_chars("BREAK"),
        Keywords::CONTINUE => str_to_chars("CONTINUE"),
        Keywords::AND => str_to_chars("AND"),
        Keywords::OR => str_to_chars("OR"),
        Keywords::METHODS => str_to_chars("METHODS"),
    }
}

/// The name of a token type.
pub fn token_type_name_chars(t: TokenType) -> (v: Vec<char>)
    ensures
        v@ == token_type_name(t),
{
    match t {
        TokenType::LEFT_PAREN => str_to_chars("LEFT_PAREN"),
        TokenType::RIGHT_PAREN => str_to_chars("RIGHT_PAREN"),
        TokenType::LEFT_BRACE => str_to_chars("LEFT_BRACE"),
        TokenType::RIGHT_BRACE => str_to_chars("RIGHT_BRACE"),
        TokenType::LEFT_BRACKET => str_to_chars("LEFT_BRACKET"),
        TokenType::RIGHT_BRACKET => str_to_chars("RIGHT_BRACKET"),
        TokenType::COMMA => str_to_chars("COMMA"),
        TokenType::DOT => str_to_chars("DOT"),
        TokenType::MINUS => str_to_chars("MINUS"),
        TokenType::PLUS => str_to_chars("PLUS"),
        TokenType::STAR => str_to_chars("STAR"),
        TokenType::COLON => str_to_chars("COLON"),
        TokenType::SLASH => str_to_chars("SLASH"),
        TokenType::MOD => str_to_chars("MOD"),
        TokenType::INTERJ => str_to_chars("INTERJ"),
        TokenType::INTERJ_EQ => str_to_chars("INTERJ_EQ"),
        TokenType::EQ => str_to_chars("EQ"),
        TokenType::EQ_EQ => str_to_chars("EQ_EQ"),
        TokenType::GREATER => str_to_chars("GREATER"),
        TokenType::GREATER_EQ => str_to_chars("GREATER_EQ"),
        TokenType::LESS => str_to_chars("LESS"),
        TokenType::LESS_EQ => str_to_chars("LESS_EQ"),
        TokenType::COMMENT => str_to_chars("COMMENT"),
        TokenType::STRING => str_to_chars("STRING"),
        TokenType::IDENTIFIER => str_to_chars("IDENTIFIER"),
        TokenType::KEYWORD(k) => wrapped("KEYWORD(", keyword_name_chars(k)),
        TokenType::INT => str_to_chars("INT"),
        TokenType::FLOAT => str_to_chars("FLOAT"),
        TokenType::BOOL => str_to_chars("BOOL"),
        TokenType::NULL => str_to_chars("NULL"),
        TokenType::STRUCT(n) => wrapped("STRUCT(", decimal_chars(n as u64)),
        TokenType::LIST => str_to_chars("LIST"),
        TokenType::LIST_ELEMENT => str_to_chars("LIST_ELEMENT"),
        TokenType::NATIVE_FN => str_to_chars("NATIVE_FN"),
        TokenType::ERROR => str_to_chars("ERROR"),
        TokenType::EOF => str_to_chars("EOF"),
    }
}

/// ASCII upper case of a character; other characters unchanged.
pub open spec fn upper(c: char) -> char {
    if 'a' <= c <= 'z' {
        ((c as u32) - 32) as char
    } else {
        c
    }
}

/// ASCII lower case of a character; other characters unchanged.
pub open spec fn lower(c: char) -> char {
    if 'A' <= c <= 'Z' {
        ((c as u32) + 32) as char
    } else {
        c
    }
}

pub fn char_upper(c: char) -> (r: char)
    ensures
        r == upper(c),
{
    if 'a' <= c && c <= 'z' {
        let u: u32 = (c as u32) - 32;
        let b: u8 = u as u8;
        b as char
    } else {
        c
    }
}

pub fn char_lower(c: char) -> (r: char)
    ensures
        r == lower(c),
{
    if 'A' <= c && c <= 'Z' {
        let u: u32 = (c as u32) + 32;
        let b: u8 = u as u8;
        b as char
    } else {
        c
    }
}

/// The characters of `s` in ASCII upper case.
pub fn to_ascii_upper(s: &[char]) -> (v: Vec<char>)
    ensures
        v@ == s@.map_values(|c: char| upper(c)),
{
    let mut v: Vec<char> = Vec::new();
    let mut i: usize = 0;
    while i < s.len()
        invariant
            i <= s@.len(),
            v@ == s@.take(i as int).map_values(|c: char| upper(c)),
        decreases s@.len() - i,
    {
        v.push(char_upper(s[i]));
        i = i + 1;
        assert(v@ =~= s@.take(i as int).map_values(|c: char| upper(c)));
    }
    assert(s@.take(i as int) =~= s@);
    v
}

/// The characters of `s` in ASCII lower case.
pub fn to_ascii_lower(s: &[char]) -> (v: Vec<char>)
    ensures
        v@ == s@.map_values(|c: char| lower(c)),
{
    let mut v: Vec<char> = Vec::new();
    let mut i: usize = 0;
    while i < s.len()
        invariant
            i <= s@.len(),
            v@ == s@.take(i as int).map_values(|c: char| lower(c)),
        decreases s@.len() - i,
    {
        v.push(char_lower(s[i]));
        i = i + 1;
        assert(v@ =~= s@.take(i as int).map_values(|c: char| lower(c)));
    }
    assert(s@.take(i as int) =~= s@);
    v
}

/// The message of a failed conversion.
pub fn conversion_error(from: &str, to: &str) -> (v: Vec<char>)
    ensures
        v@ == "ERROR: Unable to convert "@ + from@ + " to "@ + to@ + "; exit code: 1"@,
{
    let mut v = str_to_chars("ERROR: Unable to convert ");
    append_chars(&mut v, str_to_chars(from).as_slice());
    append_chars(&mut v, str_to_chars(" to ").as_slice());
    append_chars(&mut v, str_to_chars(to).as_slice());
    append_chars(&mut v, str_to_chars("; exit code: 1").as_slice());
    v
}

fn unexpected_message(what: &str, name: Vec<char>, place: &str, line: u32) -> (v: Vec<char>)
    ensures
        v@ == what@ + " ("@ + name@ + ") in "@ + place@.map_values(|c: char| upper(c)) + " "@
            + decimal(line as nat) + ":"@,
{
    let mut v = str_to_chars(what);
    append_chars(&mut v, str_to_chars(" (").as_slice());
    append_chars(&mut v, name.as_slice());
    append_chars(&mut v, str_to_chars(") in ").as_slice());
    let p = str_to_chars(place);
    append_chars(&mut v, to_ascii_upper(p.as_slice()).as_slice());
    append_chars(&mut v, str_to_chars(" ").as_slice());
    append_chars(&mut v, decimal_chars(line as u64).as_slice());
    append_chars(&mut v, str_to_chars(":").as_slice());
    v
}

/// The message of a token found where it does not belong.
pub fn error_unexpected(token: &Token, place: &str) -> (v: Vec<char>)
    ensures
        v@ == "Unexpected token"@ + " ("@ + token_type_name(token.token_type) + ") in "@
            + place@.map_values(|c: char| upper(c)) + " "@ + decimal(token.line as nat) + ":"@,
{
    unexpected_message("Unexpected token", token_type_name_chars(token.token_type), place, token.line)
}

/// The message of a type found where it does not belong.
pub fn error_unexpected_token_type(token_type: TokenType, line: u32, place: &str) -> (v: Vec<char>)
    ensures
        v@ == "Unexpected type"@ + " ("@ + token_type_name(token_type) + ") in "@
            + place@.map_values(|c: char| upper(c)) + " "@ + decimal(line as nat) + ":"@,
{
    unexpected_message("Unexpected type", token_type_name_chars(token_type), place, line)
}

/// The message of a keyword found where it does not belong.
pub fn error_unexpected_keyword(keyword: Keywords, line: u32, place: &str) -> (v: Vec<char>)
    ensures
        v@ == "Unexpected keyword"@ + " ("@ + keyword_name(keyword) + ") in "@
            + place@.map_values(|c: char| upper(c)) + " "@ + decimal(line as nat) + ":"@,
{
    unexpected_message("Unexpected keyword", keyword_name_chars(keyword), place, line)
}

} // verus!
