use vstd::prelude::*;

verus! {

/// The kinds of keyword the language knows.
#[derive(Debug, Clone, Copy, PartialEq, Eq, Hash, Structural)]
#[allow(non_camel_case_types)]
pub enum Keywords {
    VAR,
    INT,
    FLOAT,
    BOOL,
    STRING,
    TRUE,
    FALSE,
    NULL,
    FN,
    RETURN,
    STRUCT,
    INSTANCE(usize),
    LIST,
    IF,
    ELIF,
    ELSE,
    WHILE,
    FOR,
    IN,
    BREAK,
    CONTINUE,
    AND,
    OR,
    METHODS,
}

/// The kinds of token the scanner produces, and the static types the compiler tracks.
#[derive(Debug, Clone, Copy, PartialEq, Eq, Hash, Structural)]
#[allow(non_camel_case_types)]
pub enum TokenType {
    LEFT_PAREN,
    RIGHT_PAREN,
    LEFT_BRACE,
    RIGHT_BRACE,
    LEFT_BRACKET,
    RIGHT_BRACKET,
    COMMA,
    DOT,
    MINUS,
    PLUS,
    STAR,
    COLON,
    SLASH,
    MOD,
    INTERJ,
    INTERJ_EQ,
    EQ,
    EQ_EQ,
    GREATER,
    GREATER_EQ,
    LESS,
    LESS_EQ,
    COMMENT,
    STRING,
    IDENTIFIER,
    KEYWORD(Keywords),
    INT,
    FLOAT,
    BOOL,
    NULL,
    STRUCT(usize),
    LIST,
    LIST_ELEMENT,
    NATIVE_FN,
    ERROR,
    EOF,
}

/// One token: its kind, its text and the line on which the scanner finished it.
#[derive(Debug, Clone, PartialEq)]
pub struct Token {
    pub token_type: TokenType,
    pub value: Vec<char>,
    pub line: u32,
}

/// What a token is, as a mathematical value.
pub struct TokenView {
    pub token_type: TokenType,
    pub value: Seq<char>,
    pub line: u32,
}

impl View for Token {
    type V = TokenView;

    open spec fn view(&self) -> TokenView {
        TokenView { token_type: self.token_type, value: self.value@, line: self.line }
    }
}

impl Token {
    /// A copy of the token.
    pub fn duplicate(&self) -> (r: Token)
        ensures
            r@ == self@,
    {
        Token { token_type: self.token_type, value: self.value.clone(), line: self.line }
    }
}

/// Whether `v` holds exactly the characters of `w`.
pub fn chars_equal(v: &[char], w: &[char]) -> (b: bool)
    ensures
        b == (v@ == w@),
{
    if v.len() != w.len() {
        return false;
    }
    let mut i: usize = 0;
    while i < v.len()
        invariant
            v@.len() == w@.len(),
            i <= v@.len(),
            forall|j: int| 0 <= j < i ==> v@[j] == w@[j],
        decreases v@.len() - i,
    {
        if v[i] != w[i] {
            return false;
        }
        i = i + 1;
    }
    assert(v@ =~= w@);
    true
}

/// The keyword spelled by `s`, if it spells one.
pub open spec fn spec_keyword(s: Seq<char>) -> Option<Keywords> {
    if s == seq!['v', 'a', 'r'] {
        Some(Keywords::VAR)
    } else if s == seq!['i', 'n', 't'] {
        Some(Keywords::INT)
    } else if s == seq!['f', 'l', 'o', 'a', 't'] {
        Some(Keywords::FLOAT)
    } else if s == seq!['b', 'o', 'o', 'l'] {
        Some(Keywords::BOOL)
    } else if s == seq!['S', 't', 'r', 'i', 'n', 'g'] {
        Some(Keywords::STRING)
    } else if s == seq!['t', 'r', 'u', 'e'] {
        Some(Keywords::TRUE)
    } else if s == seq!['f', 'a', 'l', 's', 'e'] {
        Some(Keywords::FALSE)
    } else if s == seq!['n', 'u', 'l', 'l'] {
        Some(Keywords::NULL)
    } else if s == seq!['f', 'n'] {
        Some(Keywords::FN)
    } else if s == seq!['r', 'e', 't', 'u', 'r', 'n'] {
        Some(Keywords::RETURN)
    } else if s == seq!['s', 't', 'r', 'u', 'c', 't'] {
        Some(Keywords::STRUCT)
    } else if s == seq!['i', 'f'] {
        Some(Keywords::IF)
    } else if s == seq!['e', 'l', 'i', 'f'] {
        Some(Keywords::ELIF)
    } else if s == seq!['e', 'l', 's', 'e'] {
        Some(Keywords::ELSE)
    } else if s == seq!['w', 'h', 'i', 'l', 'e'] {
        Some(Keywords::WHILE)
    } else if s == seq!['f', 'o', 'r'] {
        Some(Keywords::FOR)
    } else if s == seq!['i', 'n'] {
        Some(Keywords::IN)
    } else if s == seq!['b', 'r', 'e', 'a', 'k'] {
        Some(Keywords::BREAK)
    } else if s == seq!['c', 'o', 'n', 't', 'i', 'n', 'u', 'e'] {
        Some(Keywords::CONTINUE)
    } else if s == seq!['a', 'n', 'd'] {
        Some(Keywords::AND)
    } else if s == seq!['o', 'r'] {
        Some(Keywords::OR)
    } else if s == seq!['m', 'e', 't', 'h', 'o', 'd', 's'] {
        Some(Keywords::METHODS)
    } else {
        None
    }
}

impl Keywords {
    /// The keyword spelled by the characters `s`; `Err(())` where they spell none.
    pub fn from_chars(s: &[char]) -> (r: Result<Keywords, ()>)
        ensures
            r == (match spec_keyword(s@) {
                Some(k) => Ok(k),
                None => Err(()),
            }),
    {
        if chars_equal(s, &['v', 'a', 'r']) {
            Ok(Keywords::VAR)
        } else if chars_equal(s, &['i', 'n', 't']) {
            Ok(Keywords::INT)
        } else if chars_equal(s, &['f', 'l', 'o', 'a', 't']) {
            Ok(Keywords::FLOAT)
        } else if chars_equal(s, &['b', 'o', 'o', 'l']) {
            Ok(Keywords::BOOL)
        } else if chars_equal(s, &['S', 't', 'r', 'i', 'n', 'g']) {
            Ok(Keywords::STRING)
        } else if chars_equal(s, &['t', 'r', 'u', 'e']) {
            Ok(Keywords::TRUE)
        } else if chars_equal(s, &['f', 'a', 'l', 's', 'e']) {
            Ok(Keywords::FALSE)
        } else if chars_equal(s, &['n', 'u', 'l', 'l']) {
            Ok(Keywords::NULL)
        } else if chars_equal(s, &['f', 'n']) {
            Ok(Keywords::FN)
        } else if chars_equal(s, &['r', 'e', 't', 'u', 'r', 'n']) {
            Ok(Keywords::RETURN)
        } else if chars_equal(s, &['s', 't', 'r', 'u', 'c', 't']) {
            Ok(Keywords::STRUCT)
        } else if chars_equal(s, &['i', 'f']) {
            Ok(Keywords::IF)
        } else if chars_equal(s, &['e', 'l', 'i', 'f']) {
            Ok(Keywords::ELIF)
        } else if chars_equal(s, &['e', 'l', 's', 'e']) {
            Ok(Keywords::ELSE)
        } else if chars_equal(s, &['w', 'h', 'i', 'l', 'e']) {
            Ok(Keywords::WHILE)
        } else if chars_equal(s, &['f', 'o', 'r']) {
            Ok(Keywords::FOR)
        } else if chars_equal(s, &['i', 'n']) {
            Ok(Keywords::IN)
        } else if chars_equal(s, &['b', 'r', 'e', 'a', 'k']) {
            Ok(Keywords::BREAK)
        } else if chars_equal(s, &['c', 'o', 'n', 't', 'i', 'n', 'u', 'e']) {
            Ok(Keywords::CONTINUE)
        } else if chars_equal(s, &['a', 'n', 'd']) {
            Ok(Keywords::AND)
        } else if chars_equal(s, &['o', 'r']) {
            Ok(Keywords::OR)
        } else if chars_equal(s, &['m', 'e', 't', 'h', 'o', 'd', 's']) {
            Ok(Keywords::METHODS)
        } else {
            Err(())
        }
    }

    /// The static type that a type keyword names, if it names one.
    pub open spec fn spec_convert(self) -> Option<TokenType> {
        match self {
            Keywords::INT => Some(TokenType::INT),
            Keywords::FLOAT => Some(TokenType::FLOAT),
            Keywords::TRUE | Keywords::FALSE | Keywords::BOOL => Some(TokenType::BOOL),
            Keywords::STRING => Some(TokenType::STRING),
            Keywords::NULL => Some(TokenType::NULL),
            Keywords::LIST => Some(TokenType::LIST),
            _ => None,
        }
    }

    /// The static type that a type keyword names; `None` for a keyword that names no type.
    pub fn convert(&self) -> (r: Option<TokenType>)
        ensures
            r == self.spec_convert(),
    {
        match self {
            Keywords::INT => Some(TokenType::INT),
            Keywords::FLOAT => Some(TokenType::FLOAT),
            Keywords::TRUE | Keywords::FALSE | Keywords::BOOL => Some(TokenType::BOOL),
            Keywords::STRING => Some(TokenType::STRING),
            Keywords::NULL => Some(TokenType::NULL),
            Keywords::LIST => Some(TokenType::LIST),
            _ => None,
        }
    }
}

} // verus!
