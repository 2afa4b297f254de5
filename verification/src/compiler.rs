use vstd::prelude::*;

use crate::tokens::{Keywords, Token, TokenType, TokenView, chars_equal};
use crate::value::{Convert, Value, ValueModel, ValuesArray};
use crate::bytecode::{Chunk, Instruction, OpCode};
use crate::objects::{Function, Local, Method, NativeFn, NativeFunction, SpecialType, Struct, StructInstance};
use crate::lists::ListObj;
use crate::strings::StringObj;
use crate::text::{parse_int, parse_i64, str_to_chars};

verus! {

/// What went wrong while compiling.
#[derive(Debug, Clone, Copy, PartialEq, Eq, Structural)]
pub enum ErrorKind {
    /// The scanner reported an error token.
    ScanError,
    /// A position past the end of a table was asked for.
    IndexOutOfRange,
    /// Another token was expected.
    Expected,
    /// A function's name is already taken.
    FunctionRedefined,
    /// A struct's name is already taken.
    StructRedefined,
    /// A variable's name is already taken.
    SymbolRedefined,
    /// A method's name is already taken in its struct.
    MethodRedefined,
    /// No function is named `main`.
    NoMain,
    /// No struct has that name.
    StructNotDefined,
    /// No function has that name.
    FunctionNotDefined,
    /// No variable has that name.
    VarNotDefined,
    /// A value could not be converted.
    ConversionFailed,
    /// A token where it does not belong.
    UnexpectedToken,
    /// A type where it does not belong.
    UnexpectedType,
    /// A keyword where it does not belong.
    UnexpectedKeyword,
    /// The two sides' types differ.
    MismatchedTypes,
    /// The token has no parse rule.
    NoParseRule,
    /// The token cannot start an expression.
    NoPrefix,
    /// The token cannot continue an expression.
    NoInfix,
    /// Code outside any function.
    OutsideBounds,
    /// A declaration inside a body.
    DeclarationInsideBounds,
    /// A statement without its expression.
    ExpectedExpression,
    /// A declaration without its type.
    ExpectedType,
    /// The wrong number of arguments.
    ArgumentCount,
    /// The wrong number of fields.
    FieldCount,
    /// The struct has no such field.
    FieldNotDeclared,
    /// The struct has no such method.
    MethodNotDeclared,
    /// A struct variable without a value.
    StructLeftUndeclared,
    /// Neither an instance nor a call where one was expected.
    ExpectedInstance,
    /// `self` not first among a method's arguments.
    SelfNotFirst,
    /// `break` outside a loop.
    BreakOutsideLoop,
    /// `continue` outside a loop.
    ContinueOutsideLoop,
    /// `elif` or `else` without a `}` before it.
    ExpectedBraceBefore,
    /// A list of an unsupported element type.
    ListNotImplemented,
    /// A local of an unexpected type.
    UnexpectedLocalType,
    /// A function of an unexpected output type.
    UnexpectedOutputType,
    /// A local of an unexpected special type.
    UnexpectedSpecialType,
    /// A function call as a `for` step.
    FunctionAsStep,
    /// A return type that names no struct.
    UnexpectedReturnType,
    /// A count overflowed.
    Overflow,
    /// The compiler's own bookkeeping disagrees.
    Internal,
}

/// A compile error: what, where, and the names and types involved.
#[derive(Debug, Clone, PartialEq)]
pub struct CompileError {
    pub kind: ErrorKind,
    pub line: u32,
    pub name: Vec<char>,
    pub expected: Option<TokenType>,
    pub found: Option<TokenType>,
    /// For a count that does not match: how many were expected, and how many were found.
    pub counts: Option<(usize, usize)>,
}

fn error(kind: ErrorKind, line: u32) -> (e: CompileError)
    ensures
        e.kind == kind,
        e.line == line,
{
    CompileError { kind, line, name: Vec::new(), expected: None, found: None, counts: None }
}

fn error_counts(kind: ErrorKind, line: u32, expected: usize, found: usize) -> (e: CompileError)
    ensures
        e.kind == kind,
        e.line == line,
        e.counts == Some((expected, found)),
{
    CompileError { kind, line, name: Vec::new(), expected: None, found: None, counts: Some((expected, found)) }
}

fn error_named(kind: ErrorKind, line: u32, name: Vec<char>) -> (e: CompileError)
    ensures
        e.kind == kind,
        e.line == line,
        e.name@ == name@,
{
    CompileError { kind, line, name, expected: None, found: None, counts: None }
}

fn error_types(kind: ErrorKind, line: u32, expected: Option<TokenType>, found: Option<TokenType>) -> (e: CompileError)
    ensures
        e.kind == kind,
        e.line == line,
        e.expected == expected,
        e.found == found,
{
    CompileError { kind, line, name: Vec::new(), expected, found, counts: None }
}

/// Where the compiler is inside a loop.
pub struct LoopInfo {
    pub loop_type: TokenType,
    pub start: usize,
    pub locals_start: usize,
    pub instance_start: usize,
}

impl LoopInfo {
    /// No loop.
    pub fn new() -> (l: Self)
        ensures
            l.loop_type == TokenType::NULL,
            l.start == 0,
            l.locals_start == 0,
            l.instance_start == 0,
    {
        LoopInfo { loop_type: TokenType::NULL, start: 0, locals_start: 0, instance_start: 0 }
    }
}

/// A name the compiler knows before it compiles: a built-in function, a struct, a
/// function, or a placeholder for a built-in method.
#[derive(PartialEq, Debug)]
pub struct Symbol {
    pub name: Vec<char>,
    pub symbol_type: TokenType,
    pub output_type: TokenType,
    pub arg_count: usize,
}

/// How tightly an operator binds, loosest first.
#[derive(PartialEq, Eq, Debug, Clone, Copy, Structural)]
pub enum Precedence {
    NONE,
    ASSIGNMENT,
    OR,
    AND,
    EQUALITY,
    COMPARISON,
    TERM,
    FACTOR,
    UNARY,
    CALL,
    PRIMARY,
}

impl Precedence {
    /// The precedence's place in the order, from 0 (`NONE`) to 10 (`PRIMARY`).
    pub open spec fn level(self) -> nat {
        match self {
            Precedence::NONE => 0,
            Precedence::ASSIGNMENT => 1,
            Precedence::OR => 2,
            Precedence::AND => 3,
            Precedence::EQUALITY => 4,
            Precedence::COMPARISON => 5,
            Precedence::TERM => 6,
            Precedence::FACTOR => 7,
            Precedence::UNARY => 8,
            Precedence::CALL => 9,
            Precedence::PRIMARY => 10,
        }
    }

    /// The precedence's place in the order.
    pub fn to_u32(&self) -> (r: u32)
        ensures
            r == self.level(),
    {
        match self {
            Precedence::NONE => 0,
            Precedence::ASSIGNMENT => 1,
            Precedence::OR => 2,
            Precedence::AND => 3,
            Precedence::EQUALITY => 4,
            Precedence::COMPARISON => 5,
            Precedence::TERM => 6,
            Precedence::FACTOR => 7,
            Precedence::UNARY => 8,
            Precedence::CALL => 9,
            Precedence::PRIMARY => 10,
        }
    }

    /// The precedence at place `value`; `None` past `PRIMARY`.
    pub fn from_u32(value: u32) -> (r: Option<Precedence>)
        ensures
            r matches Some(p) ==> p.level() == value,
            r is None <==> value > 10,
    {
        match value {
            0 => Some(Precedence::NONE),
            1 => Some(Precedence::ASSIGNMENT),
            2 => Some(Precedence::OR),
            3 => Some(Precedence::AND),
            4 => Some(Precedence::EQUALITY),
            5 => Some(Precedence::COMPARISON),
            6 => Some(Precedence::TERM),
            7 => Some(Precedence::FACTOR),
            8 => Some(Precedence::UNARY),
            9 => Some(Precedence::CALL),
            10 => Some(Precedence::PRIMARY),
            _ => None,
        }
    }
}

/// The parsing routines a rule can name.
#[derive(PartialEq, Eq, Debug, Clone, Copy, Structural)]
pub enum ParseFn {
    Number,
    Identifier,
    Bool,
    StringDec,
    Negation,
    FnCall,
    LogicOperator,
    AndOp,
    OrOp,
    Arithmetic,
}

/// How a token starts or continues an expression, and how tightly it binds.
#[derive(PartialEq, Eq, Debug, Clone, Copy, Structural)]
pub struct ParseRule {
    pub prefix: Option<ParseFn>,
    pub infix: Option<ParseFn>,
    pub prec: Precedence,
}

pub open spec fn rule(prefix: Option<ParseFn>, infix: Option<ParseFn>, prec: Precedence) -> Option<ParseRule> {
    Some(ParseRule { prefix, infix, prec })
}

/// The parse rule of each token type that has one.
pub open spec fn spec_rule(t: TokenType) -> Option<ParseRule> {
    match t {
        TokenType::INT | TokenType::FLOAT => rule(Some(ParseFn::Number), None, Precedence::NONE),
        TokenType::IDENTIFIER => rule(Some(ParseFn::Identifier), None, Precedence::NONE),
        TokenType::KEYWORD(Keywords::TRUE) | TokenType::KEYWORD(Keywords::FALSE) | TokenType::KEYWORD(
            Keywords::NULL,
        ) => rule(Some(ParseFn::Bool), None, Precedence::NONE),
        TokenType::KEYWORD(Keywords::FN) | TokenType::KEYWORD(Keywords::VAR) | TokenType::KEYWORD(
            Keywords::RETURN,
        ) | TokenType::KEYWORD(Keywords::IF) | TokenType::KEYWORD(Keywords::WHILE) | TokenType::KEYWORD(
            Keywords::FOR,
        ) | TokenType::KEYWORD(Keywords::BREAK) | TokenType::KEYWORD(Keywords::CONTINUE) => rule(
            None,
            None,
            Precedence::NONE,
        ),
        TokenType::STRING => rule(Some(ParseFn::StringDec), None, Precedence::NONE),
        TokenType::RIGHT_BRACE | TokenType::LEFT_BRACE | TokenType::RIGHT_BRACKET | TokenType::LEFT_BRACKET
        | TokenType::COMMA | TokenType::RIGHT_PAREN | TokenType::EOF => rule(None, None, Precedence::NONE),
        TokenType::LEFT_PAREN => rule(None, Some(ParseFn::FnCall), Precedence::CALL),
        TokenType::INTERJ => rule(Some(ParseFn::Negation), None, Precedence::NONE),
        TokenType::INTERJ_EQ | TokenType::EQ_EQ => rule(None, Some(ParseFn::LogicOperator), Precedence::EQUALITY),
        TokenType::GREATER | TokenType::GREATER_EQ | TokenType::LESS | TokenType::LESS_EQ => rule(
            None,
            Some(ParseFn::LogicOperator),
            Precedence::COMPARISON,
        ),
        TokenType::KEYWORD(Keywords::AND) => rule(None, Some(ParseFn::AndOp), Precedence::AND),
        TokenType::KEYWORD(Keywords::OR) => rule(None, Some(ParseFn::OrOp), Precedence::OR),
        TokenType::PLUS => rule(None, Some(ParseFn::Arithmetic), Precedence::TERM),
        TokenType::MINUS => rule(Some(ParseFn::Negation), Some(ParseFn::Arithmetic), Precedence::TERM),
        TokenType::STAR | TokenType::SLASH | TokenType::MOD => rule(
            None,
            Some(ParseFn::Arithmetic),
            Precedence::FACTOR,
        ),
        _ => None,
    }
}

/// The parse rule of a token type; `None` where it has none.
pub fn init_rule(t: TokenType) -> (r: Option<ParseRule>)
    ensures
        r == spec_rule(t),
{
    let none = Precedence::NONE;
    match t {
        TokenType::INT | TokenType::FLOAT => Some(ParseRule { prefix: Some(ParseFn::Number), infix: None, prec: none }),
        TokenType::IDENTIFIER => Some(ParseRule { prefix: Some(ParseFn::Identifier), infix: None, prec: none }),
        TokenType::KEYWORD(Keywords::TRUE) | TokenType::KEYWORD(Keywords::FALSE) | TokenType::KEYWORD(
            Keywords::NULL,
        ) => Some(ParseRule { prefix: Some(ParseFn::Bool), infix: None, prec: none }),
        TokenType::KEYWORD(Keywords::FN) | TokenType::KEYWORD(Keywords::VAR) | TokenType::KEYWORD(
            Keywords::RETURN,
        ) | TokenType::KEYWORD(Keywords::IF) | TokenType::KEYWORD(Keywords::WHILE) | TokenType::KEYWORD(
            Keywords::FOR,
        ) | TokenType::KEYWORD(Keywords::BREAK) | TokenType::KEYWORD(Keywords::CONTINUE) => Some(
            ParseRule { prefix: None, infix: None, prec: none },
        ),
        TokenType::STRING => Some(ParseRule { prefix: Some(ParseFn::StringDec), infix: None, prec: none }),
        TokenType::RIGHT_BRACE | TokenType::LEFT_BRACE | TokenType::RIGHT_BRACKET | TokenType::LEFT_BRACKET
        | TokenType::COMMA | TokenType::RIGHT_PAREN | TokenType::EOF => Some(
            ParseRule { prefix: None, infix: None, prec: none },
        ),
        TokenType::LEFT_PAREN => Some(ParseRule { prefix: None, infix: Some(ParseFn::FnCall), prec: Precedence::CALL }),
        TokenType::INTERJ => Some(ParseRule { prefix: Some(ParseFn::Negation), infix: None, prec: none }),
        TokenType::INTERJ_EQ | TokenType::EQ_EQ => Some(
            ParseRule { prefix: None, infix: Some(ParseFn::LogicOperator), prec: Precedence::EQUALITY },
        ),
        TokenType::GREATER | TokenType::GREATER_EQ | TokenType::LESS | TokenType::LESS_EQ => Some(
            ParseRule { prefix: None, infix: Some(ParseFn::LogicOperator), prec: Precedence::COMPARISON },
        ),
        TokenType::KEYWORD(Keywords::AND) => Some(ParseRule { prefix: None, infix: Some(ParseFn::AndOp), prec: Precedence::AND }),
        TokenType::KEYWORD(Keywords::OR) => Some(ParseRule { prefix: None, infix: Some(ParseFn::OrOp), prec: Precedence::OR }),
        TokenType::PLUS => Some(ParseRule { prefix: None, infix: Some(ParseFn::Arithmetic), prec: Precedence::TERM }),
        TokenType::MINUS => Some(
            ParseRule { prefix: Some(ParseFn::Negation), infix: Some(ParseFn::Arithmetic), prec: Precedence::TERM },
        ),
        TokenType::STAR | TokenType::SLASH | TokenType::MOD => Some(
            ParseRule { prefix: None, infix: Some(ParseFn::Arithmetic), prec: Precedence::FACTOR },
        ),
        _ => None,
    }
}

/// The token stream, the two tokens around the parser, and the known symbols.
pub struct Parser {
    pub tokens: Vec<Token>,
    pub cur: Token,
    pub prev: Token,
    pub line: u32,
    pub index: usize,
    pub symbols: Vec<Symbol>,
}

/// The placeholder token the parser starts with.
fn blank_token() -> (t: Token)
    ensures
        t.token_type == TokenType::ERROR,
        t.value@.len() == 0,
        t.line == 0,
{
    Token { token_type: TokenType::ERROR, value: Vec::new(), line: 0 }
}

impl Parser {
    /// Moves on by one token: the current token becomes the previous one. Fails where the
    /// tokens have run out or the new current token is a scanner error.
    pub fn advance(&mut self) -> (r: Result<(), CompileError>)
        ensures
            r is Ok <==> (old(self).index < old(self).tokens@.len() && old(self).tokens@[old(self).index as int].token_type
                != TokenType::ERROR),
            r is Ok ==> {
                &&& final(self).prev@ == old(self).cur@
                &&& final(self).cur@ == old(self).tokens@[old(self).index as int]@
                &&& final(self).line == old(self).cur.line
                &&& final(self).index == old(self).index + 1
            },
            r matches Err(e) ==> old(self).index < old(self).tokens@.len() ==> e.kind == ErrorKind::ScanError,
            final(self).tokens == old(self).tokens,
            final(self).symbols == old(self).symbols,
            final(self).index >= old(self).index,
    {
        if self.index >= self.tokens.len() {
            return Err(error(ErrorKind::IndexOutOfRange, self.line));
        }
        let mut next = self.tokens[self.index].duplicate();
        std::mem::swap(&mut self.cur, &mut next);
        self.prev = next;
        self.line = self.prev.line;
        self.index = self.index + 1;
        if self.cur.token_type == TokenType::ERROR {
            return Err(error_named(ErrorKind::ScanError, self.cur.line, self.cur.value.clone()));
        }
        Ok(())
    }

    /// Whether the current token ends the file.
    pub fn check_if_eof(&self) -> (b: bool)
        ensures
            b == (self.cur.token_type == TokenType::EOF),
    {
        self.cur.token_type == TokenType::EOF
    }

    /// Moves on past a current token of type `token_type`; fails where the current token is
    /// of another type.
    pub fn consume(&mut self, token_type: TokenType) -> (r: Result<(), CompileError>)
        ensures
            r is Ok <==> (old(self).cur.token_type == token_type && old(self).index < old(self).tokens@.len()
                && old(self).tokens@[old(self).index as int].token_type != TokenType::ERROR),
            r is Ok ==> {
                &&& final(self).prev@ == old(self).cur@
                &&& final(self).cur@ == old(self).tokens@[old(self).index as int]@
                &&& final(self).index == old(self).index + 1
            },
            old(self).cur.token_type != token_type ==> (r matches Err(e) && e.kind == ErrorKind::Expected && e.expected
                == Some(token_type) && e.found == Some(old(self).cur.token_type)),
            final(self).tokens == old(self).tokens,
            final(self).symbols == old(self).symbols,
            final(self).index >= old(self).index,
    {
        if self.cur.token_type != token_type {
            return Err(error_types(ErrorKind::Expected, self.line, Some(token_type), Some(self.cur.token_type)));
        }
        self.advance()
    }

    /// The parse rule of `token_type`; fails where it has none.
    pub fn get_rule(&self, token_type: &TokenType) -> (r: Result<ParseRule, CompileError>)
        ensures
            r matches Ok(p) ==> spec_rule(*token_type) == Some(p),
            r is Err <==> spec_rule(*token_type) is None,
    {
        match init_rule(*token_type) {
            Some(p) => Ok(p),
            None => Err(error_types(ErrorKind::NoParseRule, self.line, None, Some(*token_type))),
        }
    }
}

} // verus!

verus! {

fn native_symbol(name: &str, output_type: TokenType, arg_count: usize) -> (s: Symbol)
    ensures
        s.name@ == name@,
        s.symbol_type == TokenType::NATIVE_FN,
        s.output_type == output_type,
        s.arg_count == arg_count,
{
    Symbol { name: str_to_chars(name), symbol_type: TokenType::NATIVE_FN, output_type, arg_count }
}

/// The built-in function `i`, as the symbol table lists it: its name, output type and
/// argument count.
pub open spec fn native_entry(i: int) -> (Seq<char>, TokenType, usize) {
    if i == 0 {
        ("print"@, TokenType::KEYWORD(Keywords::NULL), 1usize)
    } else if i == 1 {
        ("println"@, TokenType::KEYWORD(Keywords::NULL), 1usize)
    } else if i == 2 {
        ("input"@, TokenType::STRING, 1usize)
    } else if i == 3 {
        ("conv"@, TokenType::INT, 1usize)
    } else if i == 4 {
        ("convf"@, TokenType::FLOAT, 1usize)
    } else if i == 5 {
        ("convstr"@, TokenType::STRING, 1usize)
    } else if i == 6 {
        ("abs"@, TokenType::INT, 1usize)
    } else if i == 7 {
        ("absf"@, TokenType::FLOAT, 1usize)
    } else if i == 8 {
        ("pow"@, TokenType::INT, 2usize)
    } else if i == 9 {
        ("powf"@, TokenType::FLOAT, 2usize)
    } else if i == 10 {
        ("min"@, TokenType::INT, 2usize)
    } else if i == 11 {
        ("minf"@, TokenType::FLOAT, 2usize)
    } else if i == 12 {
        ("max"@, TokenType::INT, 2usize)
    } else if i == 13 {
        ("maxf"@, TokenType::FLOAT, 2usize)
    } else if i == 14 {
        ("sqrt"@, TokenType::INT, 1usize)
    } else if i == 15 {
        ("sqrtf"@, TokenType::FLOAT, 1usize)
    } else if i == 16 {
        ("roundf"@, TokenType::FLOAT, 2usize)
    } else if i == 17 {
        ("floorf"@, TokenType::FLOAT, 2usize)
    } else {
        ("ceilf"@, TokenType::FLOAT, 2usize)
    }
}

/// `s` is the symbol of built-in function `i`.
pub open spec fn is_native_symbol(s: Symbol, i: int) -> bool {
    let (name, out, argc) = native_entry(i);
    &&& s.name@ == name
    &&& s.symbol_type == TokenType::NATIVE_FN
    &&& s.output_type == out
    &&& s.arg_count == argc
}

/// `s` holds the place of a method of a built-in type: no name, a built-in function
/// returning nothing, with one argument.
pub open spec fn is_method_slot(s: Symbol) -> bool {
    &&& s.name@.len() == 0
    &&& s.symbol_type == TokenType::NATIVE_FN
    &&& s.output_type == TokenType::KEYWORD(Keywords::NULL)
    &&& s.arg_count == 1
}

/// The tokens declare `s`: somewhere `fn` (for a function symbol) or `struct` (for a
/// struct symbol) is followed by a token with the symbol's name.
pub open spec fn declared_in(t: Seq<Token>, s: Symbol) -> bool {
    exists|k: int| #![trigger t[k]] 0 <= k && k + 1 < t.len() && t[k + 1].value@ == s.name@ && ((t[k].token_type
        == TokenType::KEYWORD(Keywords::FN) && s.symbol_type == TokenType::KEYWORD(Keywords::FN)) || (t[k].token_type
        == TokenType::KEYWORD(Keywords::STRUCT) && s.symbol_type == TokenType::KEYWORD(Keywords::STRUCT)))
}

/// Reading a parameter list from token `i` up to the first `)` (or the end of the file):
/// how many `:` it holds, and where the token after it stands.
pub open spec fn params_scan(t: Seq<Token>, i: int) -> (nat, int)
    decreases t.len() - i,
{
    if i < 0 || i >= t.len() {
        (0, t.len() as int)
    } else if t[i].token_type == TokenType::COLON {
        let (c, e) = params_scan(t, i + 1);
        (c + 1, e)
    } else if t[i].token_type == TokenType::RIGHT_PAREN || t[i].token_type == TokenType::EOF {
        (0, i + 1)
    } else {
        params_scan(t, i + 1)
    }
}

/// A parameter list read from token `j` ends no earlier than `j`.
pub proof fn lemma_params_scan_after(t: Seq<Token>, j: int)
    requires
        0 <= j <= t.len(),
    ensures
        params_scan(t, j).1 >= j,
    decreases t.len() - j,
{
    if j < t.len() && t[j].token_type != TokenType::RIGHT_PAREN && t[j].token_type != TokenType::EOF {
        lemma_params_scan_after(t, j + 1);
    }
}

/// The names that the declarations from token `i` on give, in order, as the symbol table
/// is filled: after `fn`, the name, the parameter list and the output type; after
/// `struct`, the name. Reading stops where a declaration runs into the end of the file.
pub open spec fn scan_names(t: Seq<Token>, i: int) -> Seq<Seq<char>>
    decreases t.len() - i,
{
    if i < 0 || i >= t.len() {
        Seq::empty()
    } else if t[i].token_type == TokenType::KEYWORD(Keywords::FN) {
        if i + 1 >= t.len() || t[i + 1].token_type == TokenType::EOF {
            Seq::empty()
        } else {
            let e = params_scan(t, i + 2).1;
            if e >= t.len() || t[e].token_type == TokenType::EOF {
                Seq::empty()
            } else {
                proof {
                    lemma_params_scan_after(t, i + 2);
                }
                seq![t[i + 1].value@] + scan_names(t, e + 1)
            }
        }
    } else if t[i].token_type == TokenType::KEYWORD(Keywords::STRUCT) {
        if i + 1 >= t.len() || t[i + 1].token_type == TokenType::EOF {
            Seq::empty()
        } else {
            seq![t[i + 1].value@] + scan_names(t, i + 2)
        }
    } else {
        scan_names(t, i + 1)
    }
}

/// The names of the symbols from position `p` on, in order.
pub open spec fn names_from(sy: Seq<Symbol>, p: int) -> Seq<Seq<char>> {
    sy.subrange(p, sy.len() as int).map_values(|s: Symbol| s.name@)
}

/// `out` is the output type that token `o` names in the symbol table `sy`, whose first
/// `j` symbols come before: a basic type for its keyword, an earlier struct for a name,
/// and nothing otherwise.
pub open spec fn output_named(o: Token, out: TokenType, sy: Seq<Symbol>, j: int) -> bool {
    match o.token_type {
        TokenType::KEYWORD(Keywords::INT) => out == TokenType::INT,
        TokenType::KEYWORD(Keywords::FLOAT) => out == TokenType::FLOAT,
        TokenType::KEYWORD(Keywords::BOOL) => out == TokenType::BOOL,
        TokenType::KEYWORD(Keywords::STRING) => out == TokenType::STRING,
        TokenType::IDENTIFIER => out matches TokenType::STRUCT(pos) && pos < j && symbol_matches(sy[pos as int], o.value@, true),
        _ => out == TokenType::NULL,
    }
}

/// Symbol `j` of `sy`, where it is a function, is declared by `fn` at some token `k`: its
/// name follows, its argument count is the number of `:` up to the first `)`, and its
/// output type is what the token after that `)` names.
pub open spec fn fn_declared_in(t: Seq<Token>, sy: Seq<Symbol>, j: int) -> bool {
    sy[j].symbol_type == TokenType::KEYWORD(Keywords::FN) ==> exists|k: int| #![trigger t[k]]
        0 <= k && k + 1 < t.len() && t[k].token_type == TokenType::KEYWORD(Keywords::FN) && t[k + 1].value@ == sy[j].name@
        && sy[j].arg_count == params_scan(t, k + 2).0 && params_scan(t, k + 2).1 < t.len() && output_named(
        t[params_scan(t, k + 2).1],
        sy[j].output_type,
        sy,
        j,
    )
}

/// The symbol table starts as `get_symbols` builds it: the built-in functions in order,
/// the `String` struct and `s` method slots, the `List` struct and `l` method slots.
pub open spec fn prelude_ok(sy: Seq<Symbol>, s: int, l: int) -> bool {
    &&& 0 <= s && 0 <= l
    &&& sy.len() >= 21 + s + l
    &&& forall|i: int| 0 <= i < 19 ==> is_native_symbol(#[trigger] sy[i], i)
    &&& sy[19].name@ == "String"@ && sy[19].symbol_type == TokenType::KEYWORD(Keywords::STRUCT)
        && sy[19].output_type == TokenType::STRING && sy[19].arg_count == 1
    &&& forall|j: int| 20 <= j < 20 + s ==> is_method_slot(#[trigger] sy[j])
    &&& sy[20 + s].name@ == "List"@ && sy[20 + s].symbol_type == TokenType::KEYWORD(Keywords::STRUCT)
        && sy[20 + s].output_type == TokenType::INT && sy[20 + s].arg_count == 0
    &&& forall|j: int| 21 + s <= j < 21 + s + l ==> is_method_slot(#[trigger] sy[j])
}

/// The symbols of the built-in functions, in the order of `get_natives_fn`.
pub fn get_natives_symbols() -> (v: Vec<Symbol>)
    ensures
        v@.len() == 19,
        forall|i: int| 0 <= i < 19 ==> (#[trigger] v@[i]).symbol_type == TokenType::NATIVE_FN,
        v@[0].name@ == "print"@ && v@[1].name@ == "println"@ && v@[2].name@ == "input"@,
        v@[3].name@ == "conv"@ && v@[4].name@ == "convf"@ && v@[5].name@ == "convstr"@,
        forall|i: int| 0 <= i < 19 ==> !is_main_name(#[trigger] v@[i].name@),
        forall|i: int| 0 <= i < 19 ==> is_native_symbol(#[trigger] v@[i], i),
{
    let mut v: Vec<Symbol> = Vec::new();
    let null = TokenType::KEYWORD(Keywords::NULL);
    v.push(native_symbol("print", null, 1));
    v.push(native_symbol("println", null, 1));
    v.push(native_symbol("input", TokenType::STRING, 1));
    v.push(native_symbol("conv", TokenType::INT, 1));
    v.push(native_symbol("convf", TokenType::FLOAT, 1));
    v.push(native_symbol("convstr", TokenType::STRING, 1));
    v.push(native_symbol("abs", TokenType::INT, 1));
    v.push(native_symbol("absf", TokenType::FLOAT, 1));
    v.push(native_symbol("pow", TokenType::INT, 2));
    v.push(native_symbol("powf", TokenType::FLOAT, 2));
    v.push(native_symbol("min", TokenType::INT, 2));
    v.push(native_symbol("minf", TokenType::FLOAT, 2));
    v.push(native_symbol("max", TokenType::INT, 2));
    v.push(native_symbol("maxf", TokenType::FLOAT, 2));
    v.push(native_symbol("sqrt", TokenType::INT, 1));
    v.push(native_symbol("sqrtf", TokenType::FLOAT, 1));
    v.push(native_symbol("roundf", TokenType::FLOAT, 2));
    v.push(native_symbol("floorf", TokenType::FLOAT, 2));
    v.push(native_symbol("ceilf", TokenType::FLOAT, 2));
    proof {
        reveal_strlit("print");
        reveal_strlit("println");
        reveal_strlit("input");
        reveal_strlit("conv");
        reveal_strlit("convf");
        reveal_strlit("convstr");
        reveal_strlit("abs");
        reveal_strlit("absf");
        reveal_strlit("pow");
        reveal_strlit("powf");
        reveal_strlit("min");
        reveal_strlit("minf");
        reveal_strlit("max");
        reveal_strlit("maxf");
        reveal_strlit("sqrt");
        reveal_strlit("sqrtf");
        reveal_strlit("roundf");
        reveal_strlit("floorf");
        reveal_strlit("ceilf");
        assert forall|i: int| 0 <= i < 19 implies !is_main_name(#[trigger] v@[i].name@) by {
            if i == 10 {
                assert(v@[i].name@.len() == 3);
            } else if i == 12 {
                assert(v@[i].name@.len() == 3);
            }
        }
    }
    v
}

fn native(function: NativeFunction, arg_count: usize) -> (n: NativeFn)
    ensures
        n.function == function,
        n.arg_count == arg_count,
        n.rc_counter == 1,
{
    NativeFn { function, arg_count, rc_counter: 1 }
}

/// The heap objects of the built-in functions, in the order of `get_natives_symbols`.
/// The heap objects of the built-in functions, in the order of the symbol table, each
/// with one reference.
pub open spec fn native_fns() -> Seq<NativeFn> {
    seq![
        NativeFn { function: NativeFunction::Print, arg_count: 1, rc_counter: 1 },
        NativeFn { function: NativeFunction::Println, arg_count: 1, rc_counter: 1 },
        NativeFn { function: NativeFunction::Input, arg_count: 1, rc_counter: 1 },
        NativeFn { function: NativeFunction::ConvToInt, arg_count: 1, rc_counter: 1 },
        NativeFn { function: NativeFunction::ConvToFloat, arg_count: 1, rc_counter: 1 },
        NativeFn { function: NativeFunction::ConvToString, arg_count: 1, rc_counter: 1 },
        NativeFn { function: NativeFunction::AbsInt, arg_count: 1, rc_counter: 1 },
        NativeFn { function: NativeFunction::AbsFloat, arg_count: 1, rc_counter: 1 },
        NativeFn { function: NativeFunction::PowInt, arg_count: 2, rc_counter: 1 },
        NativeFn { function: NativeFunction::PowFloat, arg_count: 2, rc_counter: 1 },
        NativeFn { function: NativeFunction::MinInt, arg_count: 2, rc_counter: 1 },
        NativeFn { function: NativeFunction::MinFloat, arg_count: 2, rc_counter: 1 },
        NativeFn { function: NativeFunction::MaxInt, arg_count: 2, rc_counter: 1 },
        NativeFn { function: NativeFunction::MaxFloat, arg_count: 2, rc_counter: 1 },
        NativeFn { function: NativeFunction::SqrtInt, arg_count: 1, rc_counter: 1 },
        NativeFn { function: NativeFunction::SqrtFloat, arg_count: 1, rc_counter: 1 },
        NativeFn { function: NativeFunction::Round, arg_count: 2, rc_counter: 1 },
        NativeFn { function: NativeFunction::Floor, arg_count: 2, rc_counter: 1 },
        NativeFn { function: NativeFunction::Ceil, arg_count: 2, rc_counter: 1 },
    ]
}

pub fn get_natives_fn() -> (v: Vec<NativeFn>)
    ensures
        v@.len() == 19,
        forall|i: int| 0 <= i < 19 ==> (#[trigger] v@[i]).rc_counter == 1,
        v@[0].function == NativeFunction::Print && v@[1].function == NativeFunction::Println,
        v@[2].function == NativeFunction::Input,
        v@ == native_fns(),
{
    let mut v: Vec<NativeFn> = Vec::new();
    v.push(native(NativeFunction::Print, 1));
    v.push(native(NativeFunction::Println, 1));
    v.push(native(NativeFunction::Input, 1));
    v.push(native(NativeFunction::ConvToInt, 1));
    v.push(native(NativeFunction::ConvToFloat, 1));
    v.push(native(NativeFunction::ConvToString, 1));
    v.push(native(NativeFunction::AbsInt, 1));
    v.push(native(NativeFunction::AbsFloat, 1));
    v.push(native(NativeFunction::PowInt, 2));
    v.push(native(NativeFunction::PowFloat, 2));
    v.push(native(NativeFunction::MinInt, 2));
    v.push(native(NativeFunction::MinFloat, 2));
    v.push(native(NativeFunction::MaxInt, 2));
    v.push(native(NativeFunction::MaxFloat, 2));
    v.push(native(NativeFunction::SqrtInt, 1));
    v.push(native(NativeFunction::SqrtFloat, 1));
    v.push(native(NativeFunction::Round, 2));
    v.push(native(NativeFunction::Floor, 2));
    v.push(native(NativeFunction::Ceil, 2));
    assert(v@ =~= native_fns());
    v
}

/// Whether a symbol has this name and is (or is not) a struct.
pub open spec fn symbol_matches(s: Symbol, name: Seq<char>, want_struct: bool) -> bool {
    s.name@ == name && (s.symbol_type == TokenType::KEYWORD(Keywords::STRUCT)) == want_struct
}

/// The first symbol with this name that is (or is not) a struct.
pub fn find_symbol(symbols: &Vec<Symbol>, name: &[char], want_struct: bool) -> (r: Option<usize>)
    ensures
        r matches Some(i) ==> i < symbols@.len() && symbol_matches(symbols@[i as int], name@, want_struct)
            && forall|j: int| 0 <= j < i ==> !symbol_matches(#[trigger] symbols@[j], name@, want_struct),
        r is None ==> forall|j: int| 0 <= j < symbols@.len() ==> !symbol_matches(#[trigger] symbols@[j], name@, want_struct),
{
    let mut i: usize = 0;
    while i < symbols.len()
        invariant
            i <= symbols@.len(),
            forall|j: int| 0 <= j < i ==> !symbol_matches(#[trigger] symbols@[j], name@, want_struct),
        decreases symbols@.len() - i,
    {
        if chars_equal(symbols[i].name.as_slice(), name) && ((symbols[i].symbol_type == TokenType::KEYWORD(
            Keywords::STRUCT,
        )) == want_struct) {
            return Some(i);
        }
        i = i + 1;
    }
    None
}

/// Whether some symbol has this name.
pub fn name_taken(symbols: &Vec<Symbol>, name: &[char]) -> (b: bool)
    ensures
        b == exists|j: int| 0 <= j < symbols@.len() && (#[trigger] symbols@[j]).name@ == name@,
{
    let mut i: usize = 0;
    while i < symbols.len()
        invariant
            i <= symbols@.len(),
            forall|j: int| 0 <= j < i ==> (#[trigger] symbols@[j]).name@ != name@,
        decreases symbols@.len() - i,
    {
        if chars_equal(symbols[i].name.as_slice(), name) {
            return true;
        }
        i = i + 1;
    }
    false
}

/// No symbol from `from` on shares its name with an earlier symbol.
pub open spec fn fresh_names_from(symbols: Seq<Symbol>, from: int) -> bool {
    forall|i: int, j: int| 0 <= j < i < symbols.len() && from <= i ==> #[trigger] symbols[i].name@ != #[trigger] symbols[j].name@
}

pub open spec fn is_main_name(name: Seq<char>) -> bool {
    name == seq!['m', 'a', 'i', 'n']
}

/// What reading the declarations needs to know of a symbol: its name, and whether it is
/// a struct.
pub open spec fn symbol_key(s: Symbol) -> (Seq<char>, bool) {
    (s.name@, s.symbol_type == TokenType::KEYWORD(Keywords::STRUCT))
}

pub open spec fn keys_of(sy: Seq<Symbol>) -> Seq<(Seq<char>, bool)> {
    sy.map_values(|s: Symbol| symbol_key(s))
}

/// Some known symbol has this name.
pub open spec fn key_named(keys: Seq<(Seq<char>, bool)>, n: Seq<char>) -> bool {
    exists|j: int| 0 <= j < keys.len() && (#[trigger] keys[j]).0 == n
}

/// Some known struct has this name.
pub open spec fn struct_key(keys: Seq<(Seq<char>, bool)>, n: Seq<char>) -> bool {
    exists|j: int| 0 <= j < keys.len() && (#[trigger] keys[j]).0 == n && keys[j].1
}

/// Some known function is called `main`.
pub open spec fn has_main_fn(keys: Seq<(Seq<char>, bool)>) -> bool {
    exists|j: int| 0 <= j < keys.len() && is_main_name((#[trigger] keys[j]).0) && !keys[j].1
}

/// The names and kinds of the symbols that stand before the program's own: the built-in
/// functions, `String` and its `s` method slots, `List` and its `l` method slots.
pub open spec fn prelude_keys(s: nat, l: nat) -> Seq<(Seq<char>, bool)> {
    Seq::new(19, |i: int| (native_entry(i).0, false)) + seq![("String"@, true)] + Seq::new(
        s,
        |i: int| (Seq::<char>::empty(), false),
    ) + seq![("List"@, true)] + Seq::new(l, |i: int| (Seq::<char>::empty(), false))
}

/// Reads the declarations from token `i` on, with the symbols `keys` already known: gives
/// back the names and kinds of all the symbols at the end, or the first problem met. A
/// function's name must be new (else `FunctionRedefined`), and a name given as its output
/// type must be a struct declared before it (else `StructNotDefined`); a struct's name
/// must be new (else `StructRedefined`). Reading stops where a declaration runs into the
/// end of the file.
pub open spec fn declarations_scan(t: Seq<Token>, i: int, keys: Seq<(Seq<char>, bool)>) -> Result<
    Seq<(Seq<char>, bool)>,
    ErrorKind,
>
    decreases t.len() - i,
{
    if i < 0 || i >= t.len() {
        Ok(keys)
    } else if t[i].token_type == TokenType::KEYWORD(Keywords::FN) {
        if i + 1 >= t.len() || t[i + 1].token_type == TokenType::EOF {
            Ok(keys)
        } else if key_named(keys, t[i + 1].value@) {
            Err(ErrorKind::FunctionRedefined)
        } else {
            let e = params_scan(t, i + 2).1;
            if e >= t.len() || t[e].token_type == TokenType::EOF {
                Ok(keys)
            } else if t[e].token_type == TokenType::IDENTIFIER && !struct_key(keys, t[e].value@) {
                Err(ErrorKind::StructNotDefined)
            } else {
                proof {
                    lemma_params_scan_after(t, i + 2);
                }
                declarations_scan(t, e + 1, keys.push((t[i + 1].value@, false)))
            }
        }
    } else if t[i].token_type == TokenType::KEYWORD(Keywords::STRUCT) {
        if i + 1 >= t.len() || t[i + 1].token_type == TokenType::EOF {
            Ok(keys)
        } else if key_named(keys, t[i + 1].value@) {
            Err(ErrorKind::StructRedefined)
        } else {
            declarations_scan(t, i + 2, keys.push((t[i + 1].value@, true)))
        }
    } else {
        declarations_scan(t, i + 1, keys)
    }
}

/// The symbol table of a program with tokens `t` can be built, with the method slots of
/// the built-in `String` and `List` types: no declaration is refused and some function is
/// called `main`.
pub open spec fn symbol_table_ok(t: Seq<Token>) -> bool {
    declarations_scan(t, 0, prelude_keys(12, 6)) matches Ok(keys) && has_main_fn(keys)
}

/// The error with which building the symbol table from tokens `t` fails: the first
/// problem among the declarations, or else that no function is called `main`.
pub open spec fn symbol_table_error(t: Seq<Token>, s: nat, l: nat) -> ErrorKind {
    match declarations_scan(t, 0, prelude_keys(s, l)) {
        Err(k) => k,
        Ok(_) => ErrorKind::NoMain,
    }
}

/// A name is taken in the keys exactly where some symbol has it, and names a struct
/// there exactly where some struct symbol has it.
proof fn lemma_keys_of(sy: Seq<Symbol>, n: Seq<char>)
    ensures
        key_named(keys_of(sy), n) <==> exists|j: int| 0 <= j < sy.len() && (#[trigger] sy[j]).name@ == n,
        struct_key(keys_of(sy), n) <==> exists|j: int| 0 <= j < sy.len() && symbol_matches(#[trigger] sy[j], n, true),
{
    let k = keys_of(sy);
    if key_named(k, n) {
        let j = choose|j: int| 0 <= j < k.len() && (#[trigger] k[j]).0 == n;
        assert(sy[j].name@ == n);
    }
    if exists|j: int| 0 <= j < sy.len() && (#[trigger] sy[j]).name@ == n {
        let j = choose|j: int| 0 <= j < sy.len() && (#[trigger] sy[j]).name@ == n;
        assert(k[j].0 == n);
    }
    if struct_key(k, n) {
        let j = choose|j: int| 0 <= j < k.len() && (#[trigger] k[j]).0 == n && k[j].1;
        assert(symbol_matches(sy[j], n, true));
    }
    if exists|j: int| 0 <= j < sy.len() && symbol_matches(#[trigger] sy[j], n, true) {
        let j = choose|j: int| 0 <= j < sy.len() && symbol_matches(#[trigger] sy[j], n, true);
        assert(k[j].0 == n && k[j].1);
    }
}

/// The tokens declare `main` with no arguments first, and no other function or struct
/// after it.
pub open spec fn lone_main_program(t: Seq<Token>) -> bool {
    &&& t.len() >= 5
    &&& t[0].token_type == TokenType::KEYWORD(Keywords::FN)
    &&& t[1].token_type != TokenType::EOF
    &&& is_main_name(t[1].value@)
    &&& t[2].token_type == TokenType::LEFT_PAREN
    &&& t[3].token_type == TokenType::RIGHT_PAREN
    &&& t[4].token_type != TokenType::EOF
    &&& t[4].token_type != TokenType::IDENTIFIER
    &&& forall|k: int| 5 <= k < t.len() ==> (#[trigger] t[k]).token_type != TokenType::KEYWORD(Keywords::FN)
        && t[k].token_type != TokenType::KEYWORD(Keywords::STRUCT)
}

impl Parser {
    /// Builds the symbol table: the built-in functions, the `String` struct and its
    /// method slots, the `List` struct and its method slots, then every function and
    /// struct that the tokens declare, in order. Fails where a name is declared twice,
    /// where a function's output type names no struct, or where there is no `main`.
    pub fn get_symbols(&mut self, string_mths_offset: usize, list_mths_offset: usize) -> (r: Result<(), CompileError>)
        requires
            string_mths_offset + list_mths_offset + 21 < usize::MAX,
        ensures
            final(self).tokens == old(self).tokens,
            final(self).index == old(self).index,
            final(self).cur == old(self).cur,
            r is Ok ==> {
                let p = 21 + string_mths_offset + list_mths_offset;
                &&& final(self).symbols@.len() >= p
                &&& final(self).symbols@[19].name@ == "String"@
                &&& final(self).symbols@[19].symbol_type == TokenType::KEYWORD(Keywords::STRUCT)
                &&& final(self).symbols@[20 + string_mths_offset].name@ == "List"@
                &&& final(self).symbols@[20 + string_mths_offset].symbol_type == TokenType::KEYWORD(Keywords::STRUCT)
                &&& fresh_names_from(final(self).symbols@, p)
                &&& forall|i: int| p <= i < final(self).symbols@.len() ==> {
                    ||| (#[trigger] final(self).symbols@[i]).symbol_type == TokenType::KEYWORD(Keywords::FN)
                    ||| final(self).symbols@[i].symbol_type == TokenType::KEYWORD(Keywords::STRUCT)
                }
                &&& exists|i: int| p <= i < final(self).symbols@.len() && is_main_name((#[trigger] final(self).symbols@[i]).name@)
                    && final(self).symbols@[i].symbol_type == TokenType::KEYWORD(Keywords::FN)
            },
            r matches Err(e) ==> e.kind == ErrorKind::FunctionRedefined || e.kind == ErrorKind::StructRedefined
                || e.kind == ErrorKind::StructNotDefined || e.kind == ErrorKind::NoMain,
            lone_main_program(old(self).tokens@) ==> r is Ok,
            r is Ok <==> (declarations_scan(old(self).tokens@, 0, prelude_keys(string_mths_offset as nat, list_mths_offset as nat))
                matches Ok(keys) && has_main_fn(keys)),
            r matches Err(e) ==> e.kind == symbol_table_error(old(self).tokens@, string_mths_offset as nat, list_mths_offset as nat),
            r is Ok ==> declarations_scan(old(self).tokens@, 0, prelude_keys(string_mths_offset as nat, list_mths_offset as nat))
                == Ok::<Seq<(Seq<char>, bool)>, ErrorKind>(keys_of(final(self).symbols@)),
            r is Ok ==> prelude_ok(final(self).symbols@, string_mths_offset as int, list_mths_offset as int),
            r is Ok ==> names_from(final(self).symbols@, 21 + string_mths_offset + list_mths_offset) == scan_names(
                old(self).tokens@,
                0,
            ),
            r is Ok ==> forall|j: int| 21 + string_mths_offset + list_mths_offset <= j < final(self).symbols@.len()
                ==> declared_in(old(self).tokens@, #[trigger] final(self).symbols@[j]),
            r is Ok ==> forall|j: int| 21 + string_mths_offset + list_mths_offset <= j < final(self).symbols@.len()
                ==> #[trigger] fn_declared_in(old(self).tokens@, final(self).symbols@, j),
            lone_main_program(old(self).tokens@) && old(self).tokens@[4].token_type == TokenType::LEFT_BRACE ==> fn_symbol_ok(
                final(self).symbols@,
                old(self).tokens@[1].value@,
            ),
    {
        let mut symbols = get_natives_symbols();
        symbols.push(Symbol {
            name: str_to_chars("String"),
            symbol_type: TokenType::KEYWORD(Keywords::STRUCT),
            output_type: TokenType::STRING,
            arg_count: 1,
        });
        proof {
            reveal_strlit("String");
            reveal_strlit("List");
            assert(!is_main_name(symbols@[19].name@));
        }
        let mut k: usize = 0;
        while k < string_mths_offset
            invariant
                forall|j: int| 0 <= j < symbols@.len() ==> !is_main_name(#[trigger] symbols@[j].name@),
                forall|i: int| 0 <= i < 19 ==> is_native_symbol(#[trigger] symbols@[i], i),
                symbols@[19].output_type == TokenType::STRING && symbols@[19].arg_count == 1,
                forall|j: int| 20 <= j < 20 + k ==> is_method_slot(#[trigger] symbols@[j]),
                k <= string_mths_offset,
                symbols@.len() == 20 + k,
                symbols@[19].name@ == "String"@,
                symbols@[19].symbol_type == TokenType::KEYWORD(Keywords::STRUCT),
            decreases string_mths_offset - k,
        {
            let ghost before = symbols@;
            symbols.push(Symbol {
                name: Vec::new(),
                symbol_type: TokenType::NATIVE_FN,
                output_type: TokenType::KEYWORD(Keywords::NULL),
                arg_count: 1,
            });
            proof {
                assert forall|j: int| 0 <= j < symbols@.len() implies !is_main_name(#[trigger] symbols@[j].name@) by {
                    if j < before.len() {
                        assert(symbols@[j] == before[j]);
                    } else {
                        assert(symbols@[j].name@.len() == 0);
                    }
                }
            }
            k = k + 1;
        }
        symbols.push(Symbol {
            name: str_to_chars("List"),
            symbol_type: TokenType::KEYWORD(Keywords::STRUCT),
            output_type: TokenType::INT,
            arg_count: 0,
        });
        let mut k: usize = 0;
        proof {
            reveal_strlit("List");
        }
        while k < list_mths_offset
            invariant
                forall|j: int| 0 <= j < symbols@.len() ==> !is_main_name(#[trigger] symbols@[j].name@),
                forall|i: int| 0 <= i < 19 ==> is_native_symbol(#[trigger] symbols@[i], i),
                symbols@[19].output_type == TokenType::STRING && symbols@[19].arg_count == 1,
                forall|j: int| 20 <= j < 20 + string_mths_offset ==> is_method_slot(#[trigger] symbols@[j]),
                symbols@[20 + string_mths_offset].output_type == TokenType::INT && symbols@[20 + string_mths_offset].arg_count == 0,
                forall|j: int| 21 + string_mths_offset <= j < 21 + string_mths_offset + k ==> is_method_slot(#[trigger] symbols@[j]),
                k <= list_mths_offset,
                symbols@.len() == 21 + string_mths_offset + k,
                symbols@[19].name@ == "String"@,
                symbols@[19].symbol_type == TokenType::KEYWORD(Keywords::STRUCT),
                symbols@[20 + string_mths_offset].name@ == "List"@,
                symbols@[20 + string_mths_offset].symbol_type == TokenType::KEYWORD(Keywords::STRUCT),
            decreases list_mths_offset - k,
        {
            let ghost before = symbols@;
            symbols.push(Symbol {
                name: Vec::new(),
                symbol_type: TokenType::NATIVE_FN,
                output_type: TokenType::KEYWORD(Keywords::NULL),
                arg_count: 1,
            });
            proof {
                assert forall|j: int| 0 <= j < symbols@.len() implies !is_main_name(#[trigger] symbols@[j].name@) by {
                    if j < before.len() {
                        assert(symbols@[j] == before[j]);
                    } else {
                        assert(symbols@[j].name@.len() == 0);
                    }
                }
            }
            k = k + 1;
        }
        let ghost p: int = 21 + string_mths_offset + list_mths_offset;
        let ghost prelude = symbols@;
        assert(prelude_ok(prelude, string_mths_offset as int, list_mths_offset as int));
        let ghost pk = prelude_keys(string_mths_offset as nat, list_mths_offset as nat);
        proof {
            reveal_strlit("String");
            reveal_strlit("List");
            let s = string_mths_offset as int;
            assert forall|j: int| 0 <= j < p implies #[trigger] keys_of(prelude)[j] == pk[j] by {
                if j < 19 {
                    assert(is_native_symbol(prelude[j], j));
                } else if 20 <= j < 20 + s {
                    assert(is_method_slot(prelude[j]));
                } else if 21 + s <= j {
                    assert(is_method_slot(prelude[j]));
                }
            }
            assert(keys_of(prelude) =~= pk);
            assert(!has_main_fn(pk)) by {
                if has_main_fn(pk) {
                    let j = choose|j: int| 0 <= j < pk.len() && is_main_name((#[trigger] pk[j]).0) && !pk[j].1;
                    assert(keys_of(prelude)[j] == pk[j]);
                    assert(!is_main_name(prelude[j].name@));
                }
            }
        }
        let mut is_main_fn_found = false;
        let ghost mut main_at: int = 0;
        let n = self.tokens.len();
        let mut i: usize = 0;
        while i < n
            invariant_except_break
                names_from(symbols@, p) + scan_names(self.tokens@, i as int) == scan_names(self.tokens@, 0),
                declarations_scan(self.tokens@, i as int, keys_of(symbols@)) == declarations_scan(self.tokens@, 0, pk),
            invariant
                is_main_fn_found <==> has_main_fn(keys_of(symbols@)),
                pk == prelude_keys(string_mths_offset as nat, list_mths_offset as nat),
                i <= n,
                n == self.tokens@.len(),
                self.tokens == old(self).tokens,
                forall|j: int| 0 <= j < prelude.len() ==> !is_main_name(#[trigger] prelude[j].name@),
                lone_main_program(self.tokens@) ==> (i == 0 && symbols@ == prelude) || (i >= 5 && is_main_fn_found),
                lone_main_program(self.tokens@) && self.tokens@[4].token_type == TokenType::LEFT_BRACE && i >= 5 ==> symbols@.len()
                    == p + 1 && symbols@[p].output_type == TokenType::NULL && symbols@[p].name@ == self.tokens@[1].value@
                    && symbols@[p].symbol_type == TokenType::KEYWORD(Keywords::FN),
                self.index == old(self).index,
                self.cur == old(self).cur,
                symbols@.len() >= p,
                p == 21 + string_mths_offset + list_mths_offset,
                prelude.len() == p,
                prelude[19].name@ == "String"@,
                prelude[19].symbol_type == TokenType::KEYWORD(Keywords::STRUCT),
                prelude[20 + string_mths_offset].name@ == "List"@,
                prelude[20 + string_mths_offset].symbol_type == TokenType::KEYWORD(Keywords::STRUCT),
                symbols@.take(p) == prelude,
                prelude_ok(prelude, string_mths_offset as int, list_mths_offset as int),
                forall|j: int| p <= j < symbols@.len() ==> declared_in(self.tokens@, #[trigger] symbols@[j]),
                forall|j: int| p <= j < symbols@.len() ==> #[trigger] fn_declared_in(self.tokens@, symbols@, j),
                fresh_names_from(symbols@, p),
                forall|j: int| p <= j < symbols@.len() ==> {
                    ||| (#[trigger] symbols@[j]).symbol_type == TokenType::KEYWORD(Keywords::FN)
                    ||| symbols@[j].symbol_type == TokenType::KEYWORD(Keywords::STRUCT)
                },
                is_main_fn_found ==> p <= main_at < symbols@.len() && is_main_name(symbols@[main_at].name@)
                    && symbols@[main_at].symbol_type == TokenType::KEYWORD(Keywords::FN),
            ensures
                lone_main_program(self.tokens@) ==> is_main_fn_found,
                names_from(symbols@, p) == scan_names(self.tokens@, 0),
                declarations_scan(self.tokens@, 0, pk) == Ok::<Seq<(Seq<char>, bool)>, ErrorKind>(keys_of(symbols@)),
                is_main_fn_found <==> has_main_fn(keys_of(symbols@)),
            decreases n - i,
        {
            let ghost at = i as int;
            let tt = self.tokens[i].token_type;
            i = i + 1;
            if tt == TokenType::KEYWORD(Keywords::FN) {
                if i >= n {
                    break;
                }
                let name_type = self.tokens[i].token_type;
                let line = self.tokens[i - 1].line;
                i = i + 1;
                if name_type == TokenType::EOF {
                    break;
                }
                let fn_name = self.tokens[i - 1].value.clone();
                proof {
                    lemma_keys_of(symbols@, fn_name@);
                }
                if name_taken(&symbols, fn_name.as_slice()) {
                    return Err(error_named(ErrorKind::FunctionRedefined, line, fn_name));
                }
                let is_main = chars_equal(fn_name.as_slice(), &['m', 'a', 'i', 'n']);
                let mut arg_count: usize = 0;
                let ghost i_start = i;
                while i < n
                    invariant_except_break
                        lone_main_program(self.tokens@) && i_start == 2 ==> (i == 2 || i == 3),
                        arg_count + params_scan(self.tokens@, i as int).0 == params_scan(self.tokens@, i_start as int).0,
                        params_scan(self.tokens@, i as int).1 == params_scan(self.tokens@, i_start as int).1,
                    invariant
                        i_start <= i <= n,
                        n == self.tokens@.len(),
                        arg_count <= i,
                        self.tokens == old(self).tokens,
                    ensures
                        lone_main_program(self.tokens@) && i_start == 2 ==> i == 4,
                        arg_count == params_scan(self.tokens@, i_start as int).0,
                        i == params_scan(self.tokens@, i_start as int).1,
                    decreases n - i,
                {
                    let t = self.tokens[i].token_type;
                    i = i + 1;
                    if t == TokenType::COLON {
                        arg_count = arg_count + 1;
                    } else if t == TokenType::RIGHT_PAREN || t == TokenType::EOF {
                        break;
                    }
                }
                if i >= n {
                    break;
                }
                let out_tt = self.tokens[i].token_type;
                i = i + 1;
                if out_tt == TokenType::EOF {
                    break;
                }
                let out_type = match out_tt {
                    TokenType::KEYWORD(Keywords::INT) => TokenType::INT,
                    TokenType::KEYWORD(Keywords::FLOAT) => TokenType::FLOAT,
                    TokenType::KEYWORD(Keywords::BOOL) => TokenType::BOOL,
                    TokenType::KEYWORD(Keywords::STRING) => TokenType::STRING,
                    TokenType::IDENTIFIER => {
                        proof {
                            lemma_keys_of(symbols@, self.tokens@[i - 1].value@);
                        }
                        match find_symbol(&symbols, self.tokens[i - 1].value.as_slice(), true) {
                            Some(pos) => TokenType::STRUCT(pos),
                            None => {
                                return Err(error_named(ErrorKind::StructNotDefined, self.line, self.tokens[i - 1].value.clone()));
                            },
                        }
                    },
                    _ => TokenType::NULL,
                };
                let ghost before = symbols@;
                let ghost new_name = fn_name@;
                symbols.push(Symbol { name: fn_name, symbol_type: TokenType::KEYWORD(Keywords::FN), output_type: out_type, arg_count });
                proof {
                    let nk = keys_of(before).push((self.tokens@[at + 1].value@, false));
                    assert(keys_of(symbols@) =~= nk);
                    assert(i_start == at + 2);
                    assert(declarations_scan(self.tokens@, at, keys_of(before)) == declarations_scan(self.tokens@, i as int, nk));
                    assert(has_main_fn(nk) <==> (has_main_fn(keys_of(before)) || is_main_name(new_name))) by {
                        if has_main_fn(nk) {
                            let j = choose|j: int| 0 <= j < nk.len() && is_main_name((#[trigger] nk[j]).0) && !nk[j].1;
                            if j < keys_of(before).len() {
                                assert(keys_of(before)[j] == nk[j]);
                            }
                        }
                        if has_main_fn(keys_of(before)) {
                            let j = choose|j: int| 0 <= j < keys_of(before).len() && is_main_name((#[trigger] keys_of(before)[j]).0)
                                && !keys_of(before)[j].1;
                            assert(nk[j] == keys_of(before)[j]);
                        }
                        if is_main_name(new_name) {
                            assert(nk[nk.len() - 1] == (new_name, false));
                        }
                    }
                    assert(['m', 'a', 'i', 'n']@ =~= seq!['m', 'a', 'i', 'n']);
                    assert(self.tokens@[at].token_type == TokenType::KEYWORD(Keywords::FN));
                    assert(declared_in(self.tokens@, symbols@[symbols@.len() - 1]));
                    assert forall|j: int| p <= j < symbols@.len() implies declared_in(self.tokens@, #[trigger] symbols@[j]) by {
                        if j < before.len() {
                            assert(symbols@[j] == before[j]);
                        }
                    }
                    assert(i_start == at + 2);
                    assert(fn_declared_in(self.tokens@, symbols@, symbols@.len() - 1));
                    assert forall|j: int| p <= j < symbols@.len() implies #[trigger] fn_declared_in(self.tokens@, symbols@, j) by {
                        if j < before.len() {
                            assert(symbols@[j] == before[j]);
                            assert(fn_declared_in(self.tokens@, before, j));
                            if symbols@[j].symbol_type == TokenType::KEYWORD(Keywords::FN) {
                                let k = choose|k: int| #![trigger self.tokens@[k]] 0 <= k && k + 1 < self.tokens@.len()
                                    && self.tokens@[k].token_type == TokenType::KEYWORD(Keywords::FN) && self.tokens@[k + 1].value@ == before[j].name@
                                    && before[j].arg_count == params_scan(self.tokens@, k + 2).0 && params_scan(self.tokens@, k + 2).1
                                    < self.tokens@.len() && output_named(self.tokens@[params_scan(self.tokens@, k + 2).1], before[j].output_type, before, j);
                                let o = self.tokens@[params_scan(self.tokens@, k + 2).1];
                                if o.token_type == TokenType::IDENTIFIER {
                                    let pos = before[j].output_type->STRUCT_0;
                                    assert(symbols@[pos as int] == before[pos as int]);
                                }
                                assert(output_named(o, symbols@[j].output_type, symbols@, j));
                            }
                        }
                    }
                    assert(symbols@ == before.push(symbols@.last()));
                    assert forall|a: int, b: int| 0 <= b < a < symbols@.len() && p <= a implies #[trigger] symbols@[a].name@
                        != #[trigger] symbols@[b].name@ by {
                        if a == symbols@.len() - 1 {
                            assert(symbols@[b] == before[b]);
                        } else {
                            assert(symbols@[a] == before[a]);
                            assert(symbols@[b] == before[b]);
                        }
                    }
                    assert(symbols@.take(p) =~= before.take(p));
                    if is_main_fn_found {
                        assert(symbols@[main_at] == before[main_at]);
                    }
                }
                if is_main {
                    proof {
                        main_at = symbols@.len() - 1;
                        assert(is_main_name(symbols@[main_at].name@));
                    }
                    is_main_fn_found = true;
                }
            } else if tt == TokenType::KEYWORD(Keywords::STRUCT) {
                if i >= n {
                    break;
                }
                let name_type = self.tokens[i].token_type;
                let line = self.tokens[i - 1].line;
                i = i + 1;
                if name_type == TokenType::EOF {
                    break;
                }
                let struct_name = self.tokens[i - 1].value.clone();
                proof {
                    lemma_keys_of(symbols@, struct_name@);
                }
                if name_taken(&symbols, struct_name.as_slice()) {
                    return Err(error_named(ErrorKind::StructRedefined, line, struct_name));
                }
                let ghost before = symbols@;
                symbols.push(Symbol {
                    name: struct_name,
                    symbol_type: TokenType::KEYWORD(Keywords::STRUCT),
                    output_type: TokenType::KEYWORD(Keywords::NULL),
                    arg_count: 0,
                });
                proof {
                    let nk = keys_of(before).push((self.tokens@[at + 1].value@, true));
                    assert(keys_of(symbols@) =~= nk);
                    assert(declarations_scan(self.tokens@, at, keys_of(before)) == declarations_scan(self.tokens@, i as int, nk));
                    assert(has_main_fn(nk) <==> has_main_fn(keys_of(before))) by {
                        if has_main_fn(nk) {
                            let j = choose|j: int| 0 <= j < nk.len() && is_main_name((#[trigger] nk[j]).0) && !nk[j].1;
                            if j < keys_of(before).len() {
                                assert(keys_of(before)[j] == nk[j]);
                            }
                        }
                        if has_main_fn(keys_of(before)) {
                            let j = choose|j: int| 0 <= j < keys_of(before).len() && is_main_name((#[trigger] keys_of(before)[j]).0)
                                && !keys_of(before)[j].1;
                            assert(nk[j] == keys_of(before)[j]);
                        }
                    }
                    assert(self.tokens@[at].token_type == TokenType::KEYWORD(Keywords::STRUCT));
                    assert(declared_in(self.tokens@, symbols@[symbols@.len() - 1]));
                    assert forall|j: int| p <= j < symbols@.len() implies declared_in(self.tokens@, #[trigger] symbols@[j]) by {
                        if j < before.len() {
                            assert(symbols@[j] == before[j]);
                        }
                    }
                    assert forall|j: int| p <= j < symbols@.len() implies #[trigger] fn_declared_in(self.tokens@, symbols@, j) by {
                        if j < before.len() {
                            assert(symbols@[j] == before[j]);
                            assert(fn_declared_in(self.tokens@, before, j));
                            if symbols@[j].symbol_type == TokenType::KEYWORD(Keywords::FN) {
                                let k = choose|k: int| #![trigger self.tokens@[k]] 0 <= k && k + 1 < self.tokens@.len()
                                    && self.tokens@[k].token_type == TokenType::KEYWORD(Keywords::FN) && self.tokens@[k + 1].value@ == before[j].name@
                                    && before[j].arg_count == params_scan(self.tokens@, k + 2).0 && params_scan(self.tokens@, k + 2).1
                                    < self.tokens@.len() && output_named(self.tokens@[params_scan(self.tokens@, k + 2).1], before[j].output_type, before, j);
                                let o = self.tokens@[params_scan(self.tokens@, k + 2).1];
                                if o.token_type == TokenType::IDENTIFIER {
                                    let pos = before[j].output_type->STRUCT_0;
                                    assert(symbols@[pos as int] == before[pos as int]);
                                }
                                assert(output_named(o, symbols@[j].output_type, symbols@, j));
                            }
                        }
                    }
                    assert forall|a: int, b: int| 0 <= b < a < symbols@.len() && p <= a implies #[trigger] symbols@[a].name@
                        != #[trigger] symbols@[b].name@ by {
                        if a == symbols@.len() - 1 {
                            assert(symbols@[b] == before[b]);
                        } else {
                            assert(symbols@[a] == before[a]);
                            assert(symbols@[b] == before[b]);
                        }
                    }
                    assert(symbols@.take(p) =~= before.take(p));
                    if is_main_fn_found {
                        assert(symbols@[main_at] == before[main_at]);
                    }
                }
            }
        }
        if !is_main_fn_found {
            return Err(error(ErrorKind::NoMain, self.line));
        }
        assert(is_main_name(symbols@[main_at].name@));
        proof {
            if lone_main_program(self.tokens@) && self.tokens@[4].token_type == TokenType::LEFT_BRACE {
                assert forall|j: int| 0 <= j < symbols@.len() && symbol_matches(#[trigger] symbols@[j], self.tokens@[1].value@, false)
                    implies symbols@[j].output_type == TokenType::NULL by {
                    if j < p {
                        assert(symbols@[j] == symbols@.take(p)[j]);
                        assert(!is_main_name(prelude[j].name@));
                    }
                }
                assert(symbol_matches(symbols@[p], self.tokens@[1].value@, false));
            }
        }
        assert(symbols@[19] == symbols@.take(p)[19]);
        assert forall|j: int| 0 <= j < p implies symbols@[j] == prelude[j] by {
            assert(symbols@.take(p)[j] == symbols@[j]);
        }
        proof {
            let s = string_mths_offset as int;
            let l = list_mths_offset as int;
            assert forall|i: int| 0 <= i < 19 implies is_native_symbol(#[trigger] symbols@[i], i) by {
                assert(symbols@[i] == prelude[i]);
            }
            assert forall|j: int| 20 <= j < 20 + s implies is_method_slot(#[trigger] symbols@[j]) by {
                assert(symbols@[j] == prelude[j]);
            }
            assert forall|j: int| 21 + s <= j < 21 + s + l implies is_method_slot(#[trigger] symbols@[j]) by {
                assert(symbols@[j] == prelude[j]);
            }
            assert(symbols@[20 + s] == prelude[20 + s]);
            assert(prelude_ok(symbols@, s, l));
        }
        assert(symbols@[20 + string_mths_offset] == symbols@.take(p)[20 + string_mths_offset]);
        self.symbols = symbols;
        Ok(())
    }
}

} // verus!

verus! {

/// The compiler: the parser, the function being compiled, and what it knows of scopes,
/// loops and structs.
pub struct Compiler {
    pub parser: Parser,
    pub cur_function: Function,
    pub scope_depth: u32,
    pub symbol_to_hold: usize,
    pub loop_info: LoopInfo,
    pub structs: Vec<Struct>,
    pub changing_fn: bool,
    pub declaring_list: bool,
}

/// `b` holds all of `a` at its start.
pub open spec fn extends(a: Seq<Instruction>, b: Seq<Instruction>) -> bool {
    &&& a.len() <= b.len()
    &&& forall|i: int| 0 <= i < a.len() ==> #[trigger] b[i] == a[i]
}

/// `b`'s parser is `a`'s moved forward: the same tokens, the parser no further back, and
/// still inside the tokens.
pub open spec fn progressed(a: Compiler, b: Compiler) -> bool {
    &&& b.wf()
    &&& b.parser.tokens == a.parser.tokens
    &&& b.parser.index >= a.parser.index
    &&& a.scope_depth > 0 ==> b.scope_depth == a.scope_depth
    &&& a.scope_depth > 0 ==> kept_symbols(a.parser.symbols@, b.parser.symbols@)
    &&& a.scope_depth > 0 ==> b.cur_function.arg_count == a.cur_function.arg_count
    &&& a.scope_depth > 0 ==> b.cur_function.name == a.cur_function.name
}

/// `b` holds every symbol of `a`, unchanged and in place, and perhaps more after them.
pub open spec fn kept_symbols(a: Seq<Symbol>, b: Seq<Symbol>) -> bool {
    &&& a.len() <= b.len()
    &&& forall|i: int| 0 <= i < a.len() ==> #[trigger] b[i] == a[i]
}

/// Whether the jump `op` at position `i` of a code of length `len` lands inside that code
/// (at most just past its end); every other instruction passes.
pub open spec fn jump_ok(op: OpCode, i: int, len: int) -> bool {
    match op {
        OpCode::IF_STMT_OFFSET(o) | OpCode::JUMP(o) => i + 1 + o <= len,
        OpCode::LOOP(o) => o <= i + 1,
        _ => true,
    }
}

/// Local `p` is the first of `locals` named `name`.
pub open spec fn first_local(locals: Seq<Local>, name: Seq<char>, p: int) -> bool {
    &&& 0 <= p < locals.len()
    &&& locals[p].name@ == name
    &&& forall|j: int| 0 <= j < p ==> (#[trigger] locals[j]).name@ != name
}

/// The constant that stands for an element of a list of type `t`, where lists of `t`
/// exist.
pub open spec fn list_placeholder(t: TokenType) -> Option<ValueModel> {
    match t {
        TokenType::INT => Some(ValueModel::Int(0)),
        TokenType::FLOAT => Some(ValueModel::Float("0.0"@)),
        TokenType::STRING => Some(ValueModel::String(Seq::empty())),
        TokenType::BOOL => Some(ValueModel::Bool(false)),
        TokenType::STRUCT(v) => Some(ValueModel::InstanceRef(v)),
        _ => None,
    }
}

/// Whether a token is the literal `true` or `false`.
pub open spec fn bool_literal(t: TokenType) -> bool {
    t == TokenType::KEYWORD(Keywords::TRUE) || t == TokenType::KEYWORD(Keywords::FALSE)
}

/// The expression ahead of `c` is a lone `true` or `false`: the current token is that
/// literal, the token after it can be read, and it continues no expression of precedence
/// `prec`; the literal can be stored and loaded.
pub open spec fn lone_bool(c: Compiler, prec: Precedence) -> bool {
    &&& bool_literal(c.parser.cur.token_type)
    &&& c.parser.index < c.parser.tokens@.len()
    &&& c.parser.tokens@[c.parser.index as int].token_type != TokenType::ERROR
    &&& spec_rule(c.parser.tokens@[c.parser.index as int].token_type) matches Some(rl)
    &&& rl.prec.level() < prec.level()
    &&& c.scope_depth != 0
    &&& c.cur_function.chunk.values@.len() < usize::MAX
}

/// `b` is `a` after loading the literal that is `a`'s current token: one token read, the
/// literal stored as a constant and loaded by one instruction, nothing else changed.
pub open spec fn bool_loaded(a: Compiler, b: Compiler) -> bool {
    &&& b.parser.tokens == a.parser.tokens
    &&& b.parser.index == a.parser.index + 1
    &&& b.parser.cur@ == a.parser.tokens@[a.parser.index as int]@
    &&& b.parser.line == a.parser.cur.line
    &&& b.parser.symbols == a.parser.symbols
    &&& b.cur_function.chunk.values@ == a.cur_function.chunk.values@.push(
        ValueModel::Bool(a.parser.cur.token_type == TokenType::KEYWORD(Keywords::TRUE)),
    )
    &&& b.cur_function.chunk.code@ == a.cur_function.chunk.code@.push(
        Instruction { op: OpCode::CONSTANT_BOOL(a.cur_function.chunk.values@.len() as usize), line: a.parser.cur.line },
    )
    &&& b.cur_function.locals == a.cur_function.locals
    &&& b.cur_function.output_type == a.cur_function.output_type
    &&& b.cur_function.instances == a.cur_function.instances
    &&& b.symbol_to_hold == a.symbol_to_hold
    &&& b.scope_depth == a.scope_depth
    &&& b.structs == a.structs
}

/// Whether the symbol held for a condition, if it is a function, gives a `bool`.
pub open spec fn held_ok(c: Compiler) -> bool {
    c.parser.symbols@.len() <= 1 || (c.symbol_to_hold < c.parser.symbols@.len() && !(
    c.parser.symbols@[c.symbol_to_hold as int].symbol_type == TokenType::KEYWORD(Keywords::FN)
        && c.parser.symbols@[c.symbol_to_hold as int].output_type != TokenType::BOOL))
}

/// Ahead of `c` stand a lone `true` or `false` and an empty block `{ }`, and the token
/// after the block can be read.
pub open spec fn bool_then_empty_block(c: Compiler) -> bool {
    &&& lone_bool(c, Precedence::ASSIGNMENT)
    &&& c.parser.tokens@[c.parser.index as int].token_type == TokenType::LEFT_BRACE
    &&& c.parser.index + 2 < c.parser.tokens@.len()
    &&& c.parser.tokens@[c.parser.index + 1].token_type == TokenType::RIGHT_BRACE
    &&& c.parser.tokens@[c.parser.index + 2].token_type != TokenType::ERROR
    &&& held_ok(c)
}

/// `b` is `a` after reading past the closing brace of an empty block: one token read,
/// nothing compiled.
pub open spec fn empty_block(a: Compiler, b: Compiler) -> bool {
    &&& b.parser.tokens == a.parser.tokens
    &&& b.parser.index == a.parser.index + 1
    &&& b.parser.cur@ == a.parser.tokens@[a.parser.index as int]@
    &&& b.parser.symbols == a.parser.symbols
    &&& b.cur_function == a.cur_function
    &&& b.scope_depth == a.scope_depth
}

/// Ahead of `c` stands the `)` of a call with no arguments of the held symbol, a function
/// declared with no arguments whose result has a static type, and the token after the `)`
/// can be read.
pub open spec fn empty_call_ahead(c: Compiler) -> bool {
    let h = c.symbol_to_hold as int;
    let s = c.parser.symbols@[h];
    &&& 0 <= h < c.parser.symbols@.len()
    &&& c.parser.cur.token_type == TokenType::RIGHT_PAREN
    &&& c.parser.index < c.parser.tokens@.len()
    &&& c.parser.tokens@[c.parser.index as int].token_type != TokenType::ERROR
    &&& !is_io_name(s.name@)
    &&& s.arg_count == 0
    &&& s.symbol_type != TokenType::NATIVE_FN
    &&& (s.output_type is STRUCT || s.output_type == TokenType::INT || s.output_type == TokenType::FLOAT
        || s.output_type == TokenType::BOOL || s.output_type == TokenType::STRING || s.output_type == TokenType::NULL)
    &&& c.scope_depth != 0
    &&& c.cur_function.chunk.values@.len() < usize::MAX
}

/// Reading, from token `j` on, commas each followed by a literal `true` or `false`, up to
/// the token `close`: how many literals there are with the one before `j`; the token after
/// `close` can be read.
pub open spec fn bool_list_count(t: Seq<Token>, j: int, close: TokenType) -> Option<nat>
    decreases t.len() - j,
{
    if j < 0 || j + 1 >= t.len() {
        None
    } else if t[j].token_type == close {
        if t[j + 1].token_type != TokenType::ERROR {
            Some(1)
        } else {
            None
        }
    } else if t[j].token_type == TokenType::COMMA && bool_literal(t[j + 1].token_type) {
        match bool_list_count(t, j + 2, close) {
            Some(m) => Some(m + 1),
            None => None,
        }
    } else {
        None
    }
}

/// Ahead of `c`, inside the parentheses of a call of the held symbol, stand literals
/// `true` or `false` separated by commas, the current token being the first, then `)`;
/// the token after `)` can be read, and the call can be compiled whatever the count.
pub open spec fn bool_args_ahead(c: Compiler) -> bool {
    let h = c.symbol_to_hold as int;
    let s = c.parser.symbols@[h];
    &&& 0 <= h < c.parser.symbols@.len()
    &&& bool_literal(c.parser.cur.token_type)
    &&& bool_list_count(c.parser.tokens@, c.parser.index as int, TokenType::RIGHT_PAREN) matches Some(n)
    &&& c.cur_function.chunk.values@.len() + n + 1 < usize::MAX
    &&& !is_io_name(s.name@)
    &&& (s.symbol_type == TokenType::NATIVE_FN || s.output_type is STRUCT || s.output_type == TokenType::INT
        || s.output_type == TokenType::FLOAT || s.output_type == TokenType::BOOL || s.output_type == TokenType::STRING
        || s.output_type == TokenType::NULL)
    &&& c.scope_depth != 0
}

/// Ahead of `c` stands the `)` of a call with no arguments of the held symbol, which is
/// not an input/output function and takes some arguments; the token after the `)` can be
/// read.
pub open spec fn empty_call_miscounted(c: Compiler) -> bool {
    let h = c.symbol_to_hold as int;
    &&& 0 <= h < c.parser.symbols@.len()
    &&& c.parser.cur.token_type == TokenType::RIGHT_PAREN
    &&& c.parser.index < c.parser.tokens@.len()
    &&& c.parser.tokens@[c.parser.index as int].token_type != TokenType::ERROR
    &&& !is_io_name(c.parser.symbols@[h].name@)
    &&& c.parser.symbols@[h].arg_count != 0
}

/// Whether a name is one of the input/output functions.
pub open spec fn is_io_name(name: Seq<char>) -> bool {
    name == seq!['p', 'r', 'i', 'n', 't'] || name == seq!['p', 'r', 'i', 'n', 't', 'l', 'n'] || name == seq![
        'i',
        'n',
        'p',
        'u',
        't',
    ]
}

/// Whether `op` calls the function of symbol `hold`.
pub open spec fn calls_symbol(op: OpCode, hold: usize) -> bool {
    ||| op == OpCode::FUNCTION_CALL(hold)
    ||| op == OpCode::NATIVE_FN_CALL(hold)
    ||| op matches OpCode::IO_FN_CALL(h, _) && h == hold
}

/// Every jump of `code` lands inside it.
pub open spec fn jumps_inside(code: Seq<Instruction>) -> bool {
    forall|i: int| 0 <= i < code.len() ==> #[trigger] jump_ok(code[i].op, i, code.len() as int)
}

/// `b` is `a` moved forward, with the code of the function being compiled only added to:
/// what was emitted before stays as it was, and where every jump landed inside the code,
/// every jump still does.
pub open spec fn advanced(a: Compiler, b: Compiler) -> bool {
    &&& progressed(a, b)
    &&& extends(a.cur_function.chunk.code@, b.cur_function.chunk.code@)
    &&& jumps_inside(a.cur_function.chunk.code@) ==> jumps_inside(b.cur_function.chunk.code@)
}

/// `b` is `a` moved forward by at least one token.
pub open spec fn strictly_advanced(a: Compiler, b: Compiler) -> bool {
    &&& advanced(a, b)
    &&& b.parser.index > a.parser.index
}

const NAME_LIST: [char; 4] = ['L', 'i', 's', 't'];

const NAME_STRING: [char; 6] = ['S', 't', 'r', 'i', 'n', 'g'];

const NAME_SELF: [char; 4] = ['s', 'e', 'l', 'f'];

const NAME_PRINT: [char; 5] = ['p', 'r', 'i', 'n', 't'];

const NAME_PRINTLN: [char; 7] = ['p', 'r', 'i', 'n', 't', 'l', 'n'];

const NAME_INPUT: [char; 5] = ['i', 'n', 'p', 'u', 't'];

const NAME_CONV: [char; 4] = ['c', 'o', 'n', 'v'];

const NAME_CONVF: [char; 5] = ['c', 'o', 'n', 'v', 'f'];

const NAME_CONVSTR: [char; 7] = ['c', 'o', 'n', 'v', 's', 't', 'r'];

fn new_local(name: Vec<char>, local_type: TokenType, redirect_pos: usize, rf_index: usize, is_special: SpecialType) -> (l: Local)
    ensures
        l.name@ == name@,
        l.local_type == local_type,
        l.redirect_pos == redirect_pos,
        l.rf_index == rf_index,
        l.is_special == is_special,
        !l.is_redirected,
{
    Local { name, local_type, is_redirected: false, redirect_pos, rf_index, is_special }
}

impl Compiler {
    /// The parser stands inside its tokens.
    pub open spec fn wf(&self) -> bool {
        self.parser.index <= self.parser.tokens@.len()
    }

    /// How many tokens are left.
    pub open spec fn fuel(&self) -> int {
        self.parser.tokens@.len() - self.parser.index
    }

    /// A compiler for `tokens`, before the first token, outside any function.
    pub fn new(tokens: Vec<Token>) -> (c: Self)
        ensures
            c.wf(),
            c.parser.tokens == tokens,
            c.parser.index == 0,
            c.parser.symbols@.len() == 0,
            c.scope_depth == 0,
            c.cur_function.chunk.code@.len() == 0,
            c.structs@.len() == 0,
    {
        Compiler {
            parser: Parser {
                tokens,
                cur: blank_token(),
                prev: blank_token(),
                line: 0,
                index: 0,
                symbols: Vec::new(),
            },
            cur_function: Function::new(Vec::new()),
            scope_depth: 0,
            symbol_to_hold: 0,
            loop_info: LoopInfo::new(),
            structs: Vec::new(),
            changing_fn: false,
            declaring_list: false,
        }
    }

    /// The body of the function being compiled, to change.
    pub fn get_cur_chunk(&mut self) -> (c: &mut Chunk)
        ensures
            *c == old(self).cur_function.chunk,
            *final(self) == (Compiler {
                cur_function: Function { chunk: *final(c), ..old(self).cur_function },
                ..*old(self)
            }),
    {
        &mut self.cur_function.chunk
    }

    /// The locals of the function being compiled, to change.
    pub fn get_cur_locals(&mut self) -> (l: &mut Vec<Local>)
        ensures
            *l == old(self).cur_function.locals,
            *final(self) == (Compiler {
                cur_function: Function { locals: *final(l), ..old(self).cur_function },
                ..*old(self)
            }),
    {
        &mut self.cur_function.locals
    }

    /// The instances of the function being compiled, to change.
    pub fn get_cur_instances(&mut self) -> (l: &mut Vec<Local>)
        ensures
            *l == old(self).cur_function.instances,
            *final(self) == (Compiler {
                cur_function: Function { instances: *final(l), ..old(self).cur_function },
                ..*old(self)
            }),
    {
        &mut self.cur_function.instances
    }

    /// Appends an instruction to the function being compiled; fails outside any scope.
    pub fn emit_byte(&mut self, op: OpCode, line: u32) -> (r: Result<(), CompileError>)
        ensures
            r is Ok <==> old(self).scope_depth != 0,
            r is Ok ==> final(self).cur_function.chunk.code@ == old(self).cur_function.chunk.code@.push(
                Instruction { op, line },
            ),
            r matches Err(e) ==> e.kind == ErrorKind::OutsideBounds,
            r is Err ==> final(self).cur_function.chunk.code == old(self).cur_function.chunk.code,
            r is Ok ==> (jumps_inside(old(self).cur_function.chunk.code@) && jump_ok(
                op,
                old(self).cur_function.chunk.code@.len() as int,
                old(self).cur_function.chunk.code@.len() + 1int,
            ) ==> jumps_inside(final(self).cur_function.chunk.code@)),
            final(self).cur_function.chunk.values == old(self).cur_function.chunk.values,
            final(self).cur_function.locals == old(self).cur_function.locals,
            final(self).cur_function.instances == old(self).cur_function.instances,
            final(self).cur_function.output_type == old(self).cur_function.output_type,
            final(self).cur_function.name == old(self).cur_function.name,
            final(self).cur_function.arg_count == old(self).cur_function.arg_count,
            final(self).parser == old(self).parser,
            final(self).scope_depth == old(self).scope_depth,
            final(self).structs == old(self).structs,
            final(self).loop_info == old(self).loop_info,
            final(self).symbol_to_hold == old(self).symbol_to_hold,
    {
        if self.scope_depth == 0 {
            return Err(error(ErrorKind::OutsideBounds, self.parser.line));
        }
        let ghost before = self.cur_function.chunk.code@;
        self.cur_function.chunk.push(Instruction { op, line });
        proof {
            let after = self.cur_function.chunk.code@;
            if jumps_inside(before) && jump_ok(op, before.len() as int, before.len() + 1int) {
                assert forall|i: int| 0 <= i < after.len() implies #[trigger] jump_ok(after[i].op, i, after.len() as int) by {
                    if i < before.len() {
                        assert(after[i] == before[i]);
                        assert(jump_ok(before[i].op, i, before.len() as int));
                    }
                }
            }
        }
        Ok(())
    }

    /// Adds a constant to the function being compiled and gives its index.
    fn add_value(&mut self, v: Value) -> (r: Result<usize, CompileError>)
        ensures
            r matches Ok(i) ==> i == old(self).cur_function.chunk.values@.len()
                && final(self).cur_function.chunk.values@ == old(self).cur_function.chunk.values@.push(v@),
            r is Ok <==> old(self).cur_function.chunk.values@.len() < usize::MAX,
            final(self).cur_function.chunk.code == old(self).cur_function.chunk.code,
            final(self).cur_function.locals == old(self).cur_function.locals,
            final(self).cur_function.instances == old(self).cur_function.instances,
            final(self).cur_function.output_type == old(self).cur_function.output_type,
            final(self).cur_function.name == old(self).cur_function.name,
            final(self).cur_function.arg_count == old(self).cur_function.arg_count,
            final(self).parser == old(self).parser,
            final(self).scope_depth == old(self).scope_depth,
            final(self).structs == old(self).structs,
            final(self).loop_info == old(self).loop_info,
            final(self).symbol_to_hold == old(self).symbol_to_hold,
    {
        if self.cur_function.chunk.values.len() == usize::MAX {
            return Err(error(ErrorKind::Overflow, self.parser.line));
        }
        Ok(self.cur_function.chunk.push_value(v))
    }

    /// The last constant of the function being compiled.
    fn last_value(&self) -> (r: Result<Value, CompileError>)
        ensures
            r matches Ok(v) ==> self.cur_function.chunk.values@.len() > 0 && v@ == self.cur_function.chunk.values@.last(),
            r is Err ==> self.cur_function.chunk.values@.len() == 0,
    {
        if self.cur_function.chunk.values.len() == 0 {
            return Err(error(ErrorKind::IndexOutOfRange, self.parser.line));
        }
        Ok(self.cur_function.chunk.get_last_value())
    }

    /// The static type of the last constant of the function being compiled.
    fn last_value_type(&self) -> (r: Result<TokenType, CompileError>)
        ensures
            r matches Ok(t) ==> self.cur_function.chunk.values@.len() > 0 && self.cur_function.chunk.values@.last().type_of()
                == Some(t),
            r is Ok <==> self.cur_function.chunk.values@.len() > 0 && self.cur_function.chunk.values@.last().type_of() is Some,
    {
        let v = self.last_value()?;
        match v.convert() {
            Some(t) => Ok(t),
            None => Err(error(ErrorKind::ConversionFailed, self.parser.line)),
        }
    }

    /// Whether two static types are the same.
    pub fn check_num_types(&self, a_type: TokenType, b_type: TokenType) -> (b: bool)
        ensures
            b == (a_type == b_type),
    {
        a_type == b_type
    }

    /// `a_token_type` where both sides of `op` have the same type; a mismatch error
    /// otherwise.
    pub fn check_static_types(&self, a_token_type: &TokenType, b_type: TokenType, op: &Token) -> (r: Result<TokenType, CompileError>)
        ensures
            r matches Ok(t) ==> t == *a_token_type && *a_token_type == b_type,
            r matches Err(e) ==> *a_token_type != b_type && e.kind == ErrorKind::MismatchedTypes && e.expected == Some(b_type)
                && e.found == Some(*a_token_type),
    {
        if !self.check_num_types(*a_token_type, b_type) {
            return Err(CompileError {
                kind: ErrorKind::MismatchedTypes,
                line: self.parser.line,
                name: op.value.clone(),
                expected: Some(b_type),
                found: Some(*a_token_type),
                counts: None,
            });
        }
        Ok(*a_token_type)
    }

    /// The position of the first non-struct symbol named `fn_name`.
    pub fn get_fn_symbol_pos(&self, fn_name: &Vec<char>) -> (r: Result<usize, CompileError>)
        ensures
            r matches Ok(i) ==> i < self.parser.symbols@.len() && symbol_matches(self.parser.symbols@[i as int], fn_name@, false)
                && forall|j: int| 0 <= j < i ==> !symbol_matches(#[trigger] self.parser.symbols@[j], fn_name@, false),
            r matches Err(e) ==> e.kind == ErrorKind::FunctionNotDefined && forall|j: int|
                0 <= j < self.parser.symbols@.len() ==> !symbol_matches(#[trigger] self.parser.symbols@[j], fn_name@, false),
    {
        match find_symbol(&self.parser.symbols, fn_name.as_slice(), false) {
            Some(i) => Ok(i),
            None => Err(error_named(ErrorKind::FunctionNotDefined, self.parser.line, fn_name.clone())),
        }
    }

    /// The position of the first struct symbol named `struct_name`.
    pub fn get_struct_symbol_pos(&self, struct_name: &[char]) -> (r: Result<usize, CompileError>)
        ensures
            r matches Ok(i) ==> i < self.parser.symbols@.len() && symbol_matches(self.parser.symbols@[i as int], struct_name@, true)
                && forall|j: int| 0 <= j < i ==> !symbol_matches(#[trigger] self.parser.symbols@[j], struct_name@, true),
            r matches Err(e) ==> e.kind == ErrorKind::StructNotDefined && forall|j: int|
                0 <= j < self.parser.symbols@.len() ==> !symbol_matches(#[trigger] self.parser.symbols@[j], struct_name@, true),
    {
        match find_symbol(&self.parser.symbols, struct_name, true) {
            Some(i) => Ok(i),
            None => {
                let mut name: Vec<char> = Vec::new();
                crate::text::append_chars(&mut name, struct_name);
                Err(error_named(ErrorKind::StructNotDefined, self.parser.line, name))
            },
        }
    }

    /// The position of the first local named `name` in the function being compiled.
    pub fn get_local_pos(&self, name: &Vec<char>) -> (r: Result<usize, CompileError>)
        ensures
            r matches Ok(i) ==> i < self.cur_function.locals@.len() && self.cur_function.locals@[i as int].name@ == name@
                && forall|j: int| 0 <= j < i ==> (#[trigger] self.cur_function.locals@[j]).name@ != name@,
            r matches Err(e) ==> e.kind == ErrorKind::VarNotDefined && forall|j: int|
                0 <= j < self.cur_function.locals@.len() ==> (#[trigger] self.cur_function.locals@[j]).name@ != name@,
    {
        let mut i: usize = 0;
        while i < self.cur_function.locals.len()
            invariant
                i <= self.cur_function.locals@.len(),
                forall|j: int| 0 <= j < i ==> (#[trigger] self.cur_function.locals@[j]).name@ != name@,
            decreases self.cur_function.locals@.len() - i,
        {
            if chars_equal(self.cur_function.locals[i].name.as_slice(), name.as_slice()) {
                return Ok(i);
            }
            i = i + 1;
        }
        Err(error_named(ErrorKind::VarNotDefined, self.parser.line, name.clone()))
    }

    /// The position of the struct named `name` among the compiled structs.
    fn find_struct(&self, name: &[char]) -> (r: Option<usize>)
        ensures
            r matches Some(i) ==> first_struct(self.structs@, name@, i as int),
            r is None ==> forall|j: int| 0 <= j < self.structs@.len() ==> (#[trigger] self.structs@[j]).name@ != name@,
    {
        let mut i: usize = 0;
        while i < self.structs.len()
            invariant
                i <= self.structs@.len(),
                forall|j: int| 0 <= j < i ==> (#[trigger] self.structs@[j]).name@ != name@,
            decreases self.structs@.len() - i,
        {
            if chars_equal(self.structs[i].name.as_slice(), name) {
                return Some(i);
            }
            i = i + 1;
        }
        None
    }

    /// The struct named `name`; an internal error where there is none.
    fn struct_index(&self, name: &[char]) -> (r: Result<usize, CompileError>)
        ensures
            r matches Ok(i) ==> first_struct(self.structs@, name@, i as int),
            r matches Ok(i) ==> i < self.structs@.len() && self.structs@[i as int].name@ == name@,
            r is Err <==> forall|j: int| 0 <= j < self.structs@.len() ==> (#[trigger] self.structs@[j]).name@ != name@,
    {
        match self.find_struct(name) {
            Some(i) => Ok(i),
            None => Err(error(ErrorKind::Internal, self.parser.line)),
        }
    }

    /// The static type of local `pos`; an internal error past the end.
    fn local_type_at(&self, pos: usize) -> (r: Result<TokenType, CompileError>)
        ensures
            r matches Ok(t) ==> pos < self.cur_function.locals@.len() && t == self.cur_function.locals@[pos as int].local_type,
            r is Err ==> pos >= self.cur_function.locals@.len(),
    {
        if pos >= self.cur_function.locals.len() {
            return Err(error(ErrorKind::IndexOutOfRange, self.parser.line));
        }
        Ok(self.cur_function.locals[pos].local_type)
    }

    /// The name of symbol `pos`; an internal error past the end.
    fn symbol_name(&self, pos: usize) -> (r: Result<Vec<char>, CompileError>)
        ensures
            r matches Ok(n) ==> pos < self.parser.symbols@.len() && n@ == self.parser.symbols@[pos as int].name@,
            r is Ok <==> pos < self.parser.symbols@.len(),
    {
        if pos >= self.parser.symbols.len() {
            return Err(error(ErrorKind::IndexOutOfRange, self.parser.line));
        }
        Ok(self.parser.symbols[pos].name.clone())
    }

    /// Compiles a boolean or null literal just consumed.
    pub fn bool(&mut self) -> (r: Result<(), CompileError>)
        ensures
            final(self).parser == old(self).parser,
            final(self).scope_depth == old(self).scope_depth,
            final(self).structs == old(self).structs,
            final(self).cur_function.arg_count == old(self).cur_function.arg_count,
            final(self).cur_function.name == old(self).cur_function.name,
            final(self).cur_function.locals == old(self).cur_function.locals,
            final(self).cur_function.output_type == old(self).cur_function.output_type,
            final(self).cur_function.instances == old(self).cur_function.instances,
            final(self).symbol_to_hold == old(self).symbol_to_hold,
            r is Ok ==> extends(old(self).cur_function.chunk.code@, final(self).cur_function.chunk.code@),
            r is Ok ==> (jumps_inside(old(self).cur_function.chunk.code@) ==> jumps_inside(final(self).cur_function.chunk.code@)),
            r is Ok ==> {
                let v = match old(self).parser.prev.token_type {
                    TokenType::KEYWORD(Keywords::TRUE) => ValueModel::Bool(true),
                    TokenType::KEYWORD(Keywords::FALSE) => ValueModel::Bool(false),
                    _ => ValueModel::Null,
                };
                let pos = old(self).cur_function.chunk.values@.len() as usize;
                let op = match old(self).parser.prev.token_type {
                    TokenType::KEYWORD(Keywords::NULL) => OpCode::CONSTANT_NULL(pos),
                    _ => OpCode::CONSTANT_BOOL(pos),
                };
                &&& final(self).cur_function.chunk.values@ == old(self).cur_function.chunk.values@.push(v)
                &&& final(self).cur_function.chunk.code@ == old(self).cur_function.chunk.code@.push(
                    Instruction { op, line: old(self).parser.line },
                )
            },
            r is Ok <==> (old(self).scope_depth != 0 && old(self).cur_function.chunk.values@.len() < usize::MAX && (
            old(self).parser.prev.token_type == TokenType::KEYWORD(Keywords::TRUE) || old(self).parser.prev.token_type
                == TokenType::KEYWORD(Keywords::FALSE) || old(self).parser.prev.token_type == TokenType::KEYWORD(
                Keywords::NULL,
            ))),
    {
        let line = self.parser.line;
        match self.parser.prev.token_type {
            TokenType::KEYWORD(val) => {
                match val {
                    Keywords::TRUE => {
                        let pos = self.add_value(Value::Bool(true))?;
                        self.emit_byte(OpCode::CONSTANT_BOOL(pos), line)
                    },
                    Keywords::FALSE => {
                        let pos = self.add_value(Value::Bool(false))?;
                        self.emit_byte(OpCode::CONSTANT_BOOL(pos), line)
                    },
                    Keywords::NULL => {
                        let pos = self.add_value(Value::Null)?;
                        self.emit_byte(OpCode::CONSTANT_NULL(pos), line)
                    },
                    _ => Err(CompileError {
                        kind: ErrorKind::UnexpectedKeyword,
                        line,
                        name: Vec::new(),
                        expected: None,
                        found: Some(TokenType::KEYWORD(val)),
                        counts: None,
                    }),
                }
            },
            t => Err(error_types(ErrorKind::UnexpectedToken, self.parser.prev.line, None, Some(t))),
        }
    }

    /// Compiles a number literal just consumed: its value becomes a constant, loaded by a
    /// constant instruction.
    pub fn number(&mut self) -> (r: Result<(), CompileError>)
        ensures
            final(self).parser == old(self).parser,
            final(self).scope_depth == old(self).scope_depth,
            final(self).cur_function.arg_count == old(self).cur_function.arg_count,
            final(self).cur_function.name == old(self).cur_function.name,
            r is Ok ==> {
                let prev = old(self).parser.prev;
                let pos = old(self).cur_function.chunk.values@.len() as usize;
                &&& prev.token_type == TokenType::INT ==> {
                    &&& parse_i64(prev.value@) is Some
                    &&& final(self).cur_function.chunk.values@ == old(self).cur_function.chunk.values@.push(
                        ValueModel::Int(parse_i64(prev.value@).unwrap()),
                    )
                    &&& final(self).cur_function.chunk.code@ == old(self).cur_function.chunk.code@.push(
                        Instruction { op: OpCode::CONSTANT_INT(pos), line: old(self).parser.line },
                    )
                }
                &&& prev.token_type == TokenType::FLOAT ==> {
                    &&& final(self).cur_function.chunk.values@ == old(self).cur_function.chunk.values@.push(
                        ValueModel::Float(prev.value@),
                    )
                    &&& final(self).cur_function.chunk.code@ == old(self).cur_function.chunk.code@.push(
                        Instruction { op: OpCode::CONSTANT_FLOAT(pos), line: old(self).parser.line },
                    )
                }
            },
            (old(self).parser.prev.token_type != TokenType::INT && old(self).parser.prev.token_type != TokenType::FLOAT)
                ==> r is Err,
            (old(self).parser.prev.token_type == TokenType::INT && parse_i64(old(self).parser.prev.value@) is None) ==> (r matches Err(e)
                && e.kind == ErrorKind::ConversionFailed),
            r is Ok ==> extends(old(self).cur_function.chunk.code@, final(self).cur_function.chunk.code@),
            r is Ok ==> (jumps_inside(old(self).cur_function.chunk.code@) ==> jumps_inside(final(self).cur_function.chunk.code@)),
    {
        let line = self.parser.line;
        match self.parser.prev.token_type {
            TokenType::INT => {
                let value = match parse_int(self.parser.prev.value.as_slice()) {
                    Some(v) => v,
                    None => {
                        return Err(error(ErrorKind::ConversionFailed, line));
                    },
                };
                let pos = self.add_value(Value::Int(value))?;
                self.emit_byte(OpCode::CONSTANT_INT(pos), line)
            },
            TokenType::FLOAT => {
                let pos = self.add_value(Value::Float(self.parser.prev.value.clone()))?;
                self.emit_byte(OpCode::CONSTANT_FLOAT(pos), line)
            },
            t => Err(error_types(ErrorKind::UnexpectedToken, self.parser.prev.line, None, Some(t))),
        }
    }

    /// Compiles a string literal just consumed: a string instance holding its text.
    pub fn string_dec(&mut self) -> (r: Result<(), CompileError>)
        ensures
            final(self).parser == old(self).parser,
            final(self).scope_depth == old(self).scope_depth,
            final(self).cur_function.arg_count == old(self).cur_function.arg_count,
            final(self).cur_function.name == old(self).cur_function.name,
            r is Ok ==> extends(old(self).cur_function.chunk.code@, final(self).cur_function.chunk.code@),
            r is Ok ==> (jumps_inside(old(self).cur_function.chunk.code@) ==> jumps_inside(final(self).cur_function.chunk.code@)),
            r is Ok ==> {
                &&& final(self).cur_function.chunk.code@.len() == old(self).cur_function.chunk.code@.len() + 1
                &&& final(self).cur_function.chunk.code@.last().op matches OpCode::STRING_DEC(inst)
                &&& inst.fields_values@.len() == 1
                &&& inst.fields_values@[0]@ == ValueModel::String(old(self).parser.prev.value@)
                &&& final(self).cur_function.chunk.values@ == old(self).cur_function.chunk.values@.push(
                    ValueModel::String(Seq::empty()),
                )
            },
            r is Ok <==> (old(self).scope_depth != 0 && old(self).cur_function.chunk.values@.len() < usize::MAX),
    {
        let mut instance_obj = StructInstance::new();
        instance_obj.fields_values.push(Value::String(self.parser.prev.value.clone()));
        let line = self.parser.line;
        self.emit_byte(OpCode::STRING_DEC(instance_obj), line)?;
        self.add_value(Value::String(Vec::new()))?;
        Ok(())
    }

    /// The placeholder value of the element type of a list, named by `list_token`.
    pub fn get_list_type_value(&self, list_token: &Token) -> (r: Result<Value, CompileError>)
        ensures
            match list_token.token_type {
                TokenType::KEYWORD(k) => match k.spec_convert() {
                    Some(t) => match list_placeholder(t) {
                        Some(m) => r matches Ok(v) && v@ == m,
                        None => r matches Err(e) && e.kind == ErrorKind::ListNotImplemented,
                    },
                    None => r matches Err(e) && e.kind == ErrorKind::ConversionFailed,
                },
                TokenType::IDENTIFIER => match r {
                    Ok(v) => v@ matches ValueModel::InstanceRef(i) && i < self.parser.symbols@.len() && symbol_matches(
                        self.parser.symbols@[i as int],
                        list_token.value@,
                        true,
                    ) && forall|j: int| 0 <= j < i ==> !symbol_matches(#[trigger] self.parser.symbols@[j], list_token.value@, true),
                    Err(e) => e.kind == ErrorKind::StructNotDefined && forall|j: int|
                        0 <= j < self.parser.symbols@.len() ==> !symbol_matches(#[trigger] self.parser.symbols@[j], list_token.value@, true),
                },
                t => match list_placeholder(t) {
                    Some(m) => r matches Ok(v) && v@ == m,
                    None => r matches Err(e) && e.kind == ErrorKind::ListNotImplemented,
                },
            },
    {
        let list_type_token = match list_token.token_type {
            TokenType::KEYWORD(keyword) => match keyword.convert() {
                Some(t) => t,
                None => {
                    return Err(error(ErrorKind::ConversionFailed, self.parser.line));
                },
            },
            TokenType::IDENTIFIER => {
                let pos = self.get_struct_symbol_pos(list_token.value.as_slice())?;
                TokenType::STRUCT(pos)
            },
            t => t,
        };
        match list_type_token {
            TokenType::INT => Ok(Value::Int(0)),
            TokenType::FLOAT => Ok(Value::Float(str_to_chars("0.0"))),
            TokenType::STRING => Ok(Value::String(Vec::new())),
            TokenType::BOOL => Ok(Value::Bool(false)),
            TokenType::STRUCT(val) => Ok(Value::InstanceRef(val)),
            _ => Err(error_types(ErrorKind::ListNotImplemented, self.parser.line, None, Some(list_token.token_type))),
        }
    }

    /// The placeholder constant for a result of static type `t`, where `t` has one.
    fn type_placeholder(t: TokenType) -> (r: Option<Value>)
        ensures
            r matches Some(v) ==> v@.type_of() == Some(t),
            r is Some <==> (t == TokenType::INT || t == TokenType::FLOAT || t == TokenType::BOOL || t
                == TokenType::STRING || t == TokenType::NULL),
    {
        match t {
            TokenType::INT => Some(Value::Int(0)),
            TokenType::FLOAT => Some(Value::Float(str_to_chars("0.0"))),
            TokenType::BOOL => Some(Value::Bool(true)),
            TokenType::STRING => Some(Value::String(Vec::new())),
            TokenType::NULL => Some(Value::Null),
            _ => None,
        }
    }
}

} // verus!

verus! {

/// The instruction an arithmetic operator gives for operands of type `t`.
pub open spec fn arith_op(op: TokenType, t: TokenType) -> Option<OpCode> {
    match (t, op) {
        (TokenType::INT, TokenType::PLUS) => Some(OpCode::ADD_INT),
        (TokenType::INT, TokenType::MINUS) => Some(OpCode::SUB_INT),
        (TokenType::INT, TokenType::STAR) => Some(OpCode::MUL_INT),
        (TokenType::INT, TokenType::SLASH) => Some(OpCode::DIV_INT),
        (TokenType::INT, TokenType::MOD) => Some(OpCode::MOD_INT),
        (TokenType::FLOAT, TokenType::PLUS) => Some(OpCode::ADD_FLOAT),
        (TokenType::FLOAT, TokenType::MINUS) => Some(OpCode::SUB_FLOAT),
        (TokenType::FLOAT, TokenType::STAR) => Some(OpCode::MUL_FLOAT),
        (TokenType::FLOAT, TokenType::SLASH) => Some(OpCode::DIV_FLOAT),
        (TokenType::FLOAT, TokenType::MOD) => Some(OpCode::MOD_FLOAT),
        (TokenType::STRING, TokenType::PLUS) => Some(OpCode::ADD_STRING),
        _ => None,
    }
}

/// The instruction a comparison operator gives for operands of type `t`.
pub open spec fn compare_op(op: TokenType, t: TokenType) -> Option<OpCode> {
    match (t, op) {
        (TokenType::INT, TokenType::EQ_EQ) => Some(OpCode::EQ_INT),
        (TokenType::INT, TokenType::INTERJ_EQ) => Some(OpCode::NEG_EQ_INT),
        (TokenType::INT, TokenType::GREATER) => Some(OpCode::GREATER_INT),
        (TokenType::INT, TokenType::GREATER_EQ) => Some(OpCode::EQ_GREATER_INT),
        (TokenType::INT, TokenType::LESS) => Some(OpCode::LESS_INT),
        (TokenType::INT, TokenType::LESS_EQ) => Some(OpCode::EQ_LESS_INT),
        (TokenType::FLOAT, TokenType::EQ_EQ) => Some(OpCode::EQ_FLOAT),
        (TokenType::FLOAT, TokenType::INTERJ_EQ) => Some(OpCode::NEG_EQ_FLOAT),
        (TokenType::FLOAT, TokenType::GREATER) => Some(OpCode::GREATER_FLOAT),
        (TokenType::FLOAT, TokenType::GREATER_EQ) => Some(OpCode::EQ_GREATER_FLOAT),
        (TokenType::FLOAT, TokenType::LESS) => Some(OpCode::LESS_FLOAT),
        (TokenType::FLOAT, TokenType::LESS_EQ) => Some(OpCode::EQ_LESS_FLOAT),
        (TokenType::BOOL, TokenType::EQ_EQ) => Some(OpCode::EQ_BOOL),
        (TokenType::BOOL, TokenType::INTERJ_EQ) => Some(OpCode::NEG_EQ_BOOL),
        (TokenType::STRING, TokenType::EQ_EQ) => Some(OpCode::EQ_STRING),
        (TokenType::STRING, TokenType::INTERJ_EQ) => Some(OpCode::NEG_EQ_STRING),
        _ => None,
    }
}

/// The static type of the last constant of `c`'s function, where it has one.
pub open spec fn last_constant_type(c: Compiler) -> Option<TokenType> {
    if c.cur_function.chunk.values@.len() > 0 {
        c.cur_function.chunk.values@.last().type_of()
    } else {
        None
    }
}

/// Ahead of `c` stand `=`, a lone `true` or `false`, and the end of the expression, and the
/// variable just named is a `bool`.
pub open spec fn bool_assign_ahead(c: Compiler) -> bool {
    let i = c.parser.index as int;
    let locals = c.cur_function.locals@;
    &&& c.parser.cur.token_type == TokenType::EQ
    &&& i + 1 < c.parser.tokens@.len()
    &&& bool_literal(c.parser.tokens@[i].token_type)
    &&& c.parser.tokens@[i + 1].token_type != TokenType::ERROR
    &&& spec_rule(c.parser.tokens@[i + 1].token_type) matches Some(rl)
    &&& rl.prec.level() < 1
    &&& exists|p: int| first_local(locals, c.parser.prev.value@, p) && (#[trigger] locals[p]).local_type == TokenType::BOOL
    &&& c.scope_depth != 0
    &&& c.cur_function.chunk.values@.len() < usize::MAX
}

/// Ahead of `c` stands the declaration of a new variable of type `int`, `float` or `bool`
/// with no value given: its name, `:`, the type, and a token that is not `=`.
pub open spec fn plain_declaration_ahead(c: Compiler) -> bool {
    let i = c.parser.index as int;
    let t = c.parser.tokens@;
    &&& c.parser.cur.token_type == TokenType::IDENTIFIER
    &&& i + 2 < t.len()
    &&& t[i].token_type == TokenType::COLON
    &&& (t[i + 1].token_type == TokenType::KEYWORD(Keywords::INT) || t[i + 1].token_type == TokenType::KEYWORD(
        Keywords::FLOAT,
    ) || t[i + 1].token_type == TokenType::KEYWORD(Keywords::BOOL))
    &&& t[i + 2].token_type != TokenType::ERROR
    &&& t[i + 2].token_type != TokenType::EQ
    &&& forall|j: int| 0 <= j < c.cur_function.locals@.len() ==> (#[trigger] c.cur_function.locals@[j]).name@
        != c.parser.cur.value@
    &&& c.scope_depth != 0
    &&& c.cur_function.chunk.values@.len() < usize::MAX
}

/// Ahead of `c` stands an empty list of a basic type, `<` already read: the element type,
/// `>`, `=`, `[`, `]`, and a token that can be read; and the list struct is declared.
pub open spec fn empty_list_ahead(c: Compiler) -> bool {
    list_type_keyword(c.parser.cur.token_type) && empty_list_rest(c, c.parser.index as int)
}

/// After the type `List` just read, an empty list of a basic type stands ahead: `<`, the
/// element type, and what `empty_list_rest` asks.
pub open spec fn list_declaration_ahead(c: Compiler) -> bool {
    let i = c.parser.index as int;
    &&& c.parser.prev.value@ == seq!['L', 'i', 's', 't']
    &&& c.parser.cur.token_type == TokenType::LESS
    &&& i < c.parser.tokens@.len()
    &&& list_type_keyword(c.parser.tokens@[i].token_type)
    &&& empty_list_rest(c, i + 1)
}

/// Ahead of `c`, at the top level, stands an empty struct declaration after `struct`: a
/// name declared as a struct, `{`, `}`, and a token that can be read.
pub open spec fn empty_struct_ahead(c: Compiler) -> bool {
    let i = c.parser.index as int;
    let t = c.parser.tokens@;
    &&& c.parser.cur.token_type == TokenType::IDENTIFIER
    &&& i + 2 < t.len()
    &&& t[i].token_type == TokenType::LEFT_BRACE
    &&& t[i + 1].token_type == TokenType::RIGHT_BRACE
    &&& t[i + 2].token_type != TokenType::ERROR
    &&& c.scope_depth == 0
    &&& exists|p: int| 0 <= p < c.parser.symbols@.len() && symbol_matches(#[trigger] c.parser.symbols@[p], c.parser.cur.value@, true)
}

/// Ahead of `c`, inside a struct's methods, stands a method with no arguments and an empty
/// body: its name, `(`, `)`, `{`, `}`, and a token that can be read; one more scope fits.
pub open spec fn empty_method_ahead(c: Compiler) -> bool {
    let i = c.parser.index as int;
    let t = c.parser.tokens@;
    &&& c.parser.cur.token_type == TokenType::IDENTIFIER
    &&& i + 4 < t.len()
    &&& t[i].token_type == TokenType::LEFT_PAREN
    &&& t[i + 1].token_type == TokenType::RIGHT_PAREN
    &&& t[i + 2].token_type == TokenType::LEFT_BRACE
    &&& t[i + 3].token_type == TokenType::RIGHT_BRACE
    &&& t[i + 4].token_type != TokenType::ERROR
    &&& 0 < c.scope_depth < u32::MAX
}

/// Struct `s` is the first of `structs` named `name`.
pub open spec fn first_struct(structs: Seq<Struct>, name: Seq<char>, s: int) -> bool {
    &&& 0 <= s < structs.len()
    &&& structs[s].name@ == name
    &&& forall|j: int| 0 <= j < s ==> (#[trigger] structs[j]).name@ != name
}

/// Local `p` of the function being compiled is an instance of a struct whose first
/// compiled form is struct `s`.
pub open spec fn instance_struct(c: Compiler, p: int, s: int) -> bool {
    &&& 0 <= p < c.cur_function.locals@.len()
    &&& c.cur_function.locals@[p].local_type matches TokenType::KEYWORD(Keywords::INSTANCE(root))
    &&& root < c.parser.symbols@.len()
    &&& first_struct(c.structs@, c.parser.symbols@[root as int].name@, s)
}

/// After an assignment to field `f` of local `p` (an instance, as in `old`), the value
/// just compiled in `fin` has the type of that field in the first compiled form of the
/// struct.
pub open spec fn field_assign_checked(old: Compiler, fin: Compiler, p: int, f: int) -> bool {
    &&& old.cur_function.locals@[p].local_type matches TokenType::KEYWORD(Keywords::INSTANCE(root))
    &&& root < old.parser.symbols@.len()
    &&& exists|s: int| #[trigger] first_struct(fin.structs@, old.parser.symbols@[root as int].name@, s) && 0 <= f
        < fin.structs@[s].locals@.len() && last_constant_type(fin) == Some(fin.structs@[s].locals@[f].local_type)
}

/// Ahead of `c`, after a variable's name, stands `.` and a name that no field of the
/// variable's struct has, then neither `(` nor an unreadable token.
pub open spec fn field_missing_ahead(c: Compiler) -> bool {
    let i = c.parser.index as int;
    let t = c.parser.tokens@;
    &&& c.parser.cur.token_type == TokenType::DOT
    &&& i + 1 < t.len()
    &&& t[i].token_type == TokenType::IDENTIFIER
    &&& t[i + 1].token_type != TokenType::ERROR
    &&& t[i + 1].token_type != TokenType::LEFT_PAREN
    &&& exists|p: int, s: int| first_local(c.cur_function.locals@, c.parser.prev.value@, p) && #[trigger] instance_struct(
        c,
        p,
        s,
    ) && forall|f: int| 0 <= f < c.structs@[s].locals@.len() ==> (#[trigger] c.structs@[s].locals@[f]).name@
        != t[i].value@
}

/// `lt` is the type of an instance of a struct, declared by symbol `root`, each of whose
/// compiled forms has a field named `field`.
pub open spec fn instance_has_field(c: Compiler, lt: TokenType, field: Seq<char>) -> bool {
    &&& lt matches TokenType::KEYWORD(Keywords::INSTANCE(root))
    &&& root < c.parser.symbols@.len()
    &&& exists|s: int| 0 <= s < c.structs@.len() && (#[trigger] c.structs@[s]).name@ == c.parser.symbols@[root as int].name@
    &&& forall|s: int| 0 <= s < c.structs@.len() && (#[trigger] c.structs@[s]).name@ == c.parser.symbols@[root as int].name@
        ==> exists|f: int| 0 <= f < c.structs@[s].locals@.len() && (#[trigger] c.structs@[s].locals@[f]).name@ == field
}

/// Ahead of `c`, after a variable's name, stands the read of one of its fields: `.`, the
/// field's name, and a token that can be read and is neither `(` nor `=`.
pub open spec fn field_read_ahead(c: Compiler) -> bool {
    let i = c.parser.index as int;
    let t = c.parser.tokens@;
    let locals = c.cur_function.locals@;
    &&& c.parser.cur.token_type == TokenType::DOT
    &&& i + 1 < t.len()
    &&& t[i].token_type == TokenType::IDENTIFIER
    &&& t[i + 1].token_type != TokenType::ERROR
    &&& t[i + 1].token_type != TokenType::LEFT_PAREN
    &&& t[i + 1].token_type != TokenType::EQ
    &&& exists|p: int| first_local(locals, c.parser.prev.value@, p) && instance_has_field(
        c,
        (#[trigger] locals[p]).local_type,
        t[i].value@,
    )
    &&& c.scope_depth != 0
    &&& c.cur_function.chunk.values@.len() < usize::MAX
}

/// Ahead of `c`, after `for`, stands a loop over two literal bounds with the default step
/// and an empty body: a name, `in`, `(`, `true` or `false`, `,`, `true` or `false`, `)`,
/// `{`, `}`, and a token that can be read; one more scope and the constants fit.
pub open spec fn literal_for_ahead(c: Compiler) -> bool {
    let i = c.parser.index as int;
    let t = c.parser.tokens@;
    &&& c.parser.cur.token_type == TokenType::IDENTIFIER
    &&& i + 8 < t.len()
    &&& t[i].token_type == TokenType::KEYWORD(Keywords::IN)
    &&& t[i + 1].token_type == TokenType::LEFT_PAREN
    &&& bool_literal(t[i + 2].token_type)
    &&& t[i + 3].token_type == TokenType::COMMA
    &&& bool_literal(t[i + 4].token_type)
    &&& t[i + 5].token_type == TokenType::RIGHT_PAREN
    &&& t[i + 6].token_type == TokenType::LEFT_BRACE
    &&& t[i + 7].token_type == TokenType::RIGHT_BRACE
    &&& t[i + 8].token_type != TokenType::ERROR
    &&& 0 < c.scope_depth < u32::MAX
    &&& c.cur_function.chunk.values@.len() + 3 < usize::MAX
    &&& c.cur_function.chunk.code@.len() + 100 < usize::MAX
}

/// From token `i` on stand `(`, `)`, `{`, `}` and a token that can be read.
pub open spec fn empty_body_at(t: Seq<Token>, i: int) -> bool {
    &&& 0 <= i
    &&& i + 4 < t.len()
    &&& t[i].token_type == TokenType::LEFT_PAREN
    &&& t[i + 1].token_type == TokenType::RIGHT_PAREN
    &&& t[i + 2].token_type == TokenType::LEFT_BRACE
    &&& t[i + 3].token_type == TokenType::RIGHT_BRACE
    &&& t[i + 4].token_type != TokenType::ERROR
}

/// A function named `name` is declared, and every function symbol of that name returns
/// nothing.
pub open spec fn fn_symbol_ok(symbols: Seq<Symbol>, name: Seq<char>) -> bool {
    &&& exists|p: int| 0 <= p < symbols.len() && symbol_matches(#[trigger] symbols[p], name, false)
    &&& forall|j: int| 0 <= j < symbols.len() && symbol_matches(#[trigger] symbols[j], name, false) ==> symbols[j].output_type
        == TokenType::NULL
}

/// Reading a parameter list from token `j` on, each parameter written `name: bool` with or
/// without a comma after it: how many parameters there are and where the `)` stands.
pub open spec fn bool_params_end(t: Seq<Token>, j: int) -> Option<(nat, int)>
    decreases t.len() - j,
{
    if j < 0 || j + 3 >= t.len() {
        None
    } else if t[j].token_type == TokenType::RIGHT_PAREN {
        Some((0, j))
    } else if t[j].token_type == TokenType::IDENTIFIER && t[j + 1].token_type == TokenType::COLON && t[j + 2].token_type
        == TokenType::KEYWORD(Keywords::BOOL) {
        let next = if t[j + 3].token_type == TokenType::COMMA {
            j + 4
        } else {
            j + 3
        };
        match bool_params_end(t, next) {
            Some((m, e)) => Some((m + 1, e)),
            None => None,
        }
    } else {
        None
    }
}

/// The names of the parameters that `bool_params_end` reads from token `j` on, in order.
pub open spec fn bool_param_names(t: Seq<Token>, j: int) -> Seq<Seq<char>>
    decreases t.len() - j,
{
    if j < 0 || j + 3 >= t.len() || t[j].token_type == TokenType::RIGHT_PAREN {
        Seq::empty()
    } else if t[j].token_type == TokenType::IDENTIFIER && t[j + 1].token_type == TokenType::COLON && t[j + 2].token_type
        == TokenType::KEYWORD(Keywords::BOOL) {
        let next = if t[j + 3].token_type == TokenType::COMMA {
            j + 4
        } else {
            j + 3
        };
        seq![t[j].value@] + bool_param_names(t, next)
    } else {
        Seq::empty()
    }
}

pub open spec fn local_names(locals: Seq<Local>) -> Seq<Seq<char>> {
    locals.map_values(|l: Local| l.name@)
}

/// Ahead of `c`, at the top level after `fn`, stands a function whose parameters are all of
/// type `bool`, with no output type and an empty body, and the token after the body can be
/// read.
pub open spec fn bool_params_fn_ahead(c: Compiler) -> bool {
    let t = c.parser.tokens@;
    let i = c.parser.index as int;
    &&& c.parser.cur.token_type == TokenType::IDENTIFIER
    &&& c.scope_depth == 0
    &&& fn_symbol_ok(c.parser.symbols@, c.parser.cur.value@)
    &&& 0 <= i < t.len()
    &&& t[i].token_type == TokenType::LEFT_PAREN
    &&& bool_params_end(t, i + 1) matches Some((k, e))
    &&& e + 3 < t.len()
    &&& t[e + 1].token_type == TokenType::LEFT_BRACE
    &&& t[e + 2].token_type == TokenType::RIGHT_BRACE
    &&& t[e + 3].token_type != TokenType::ERROR
}

/// Ahead of `c`, at the top level, stands a function with no arguments, no output type and
/// an empty body, after `fn`: its name and what `empty_body_at` asks.
pub open spec fn empty_fn_ahead(c: Compiler) -> bool {
    &&& c.parser.cur.token_type == TokenType::IDENTIFIER
    &&& empty_body_at(c.parser.tokens@, c.parser.index as int)
    &&& c.scope_depth == 0
    &&& fn_symbol_ok(c.parser.symbols@, c.parser.cur.value@)
}

/// The whole program, read from its start at the top level, is `fn main() {}` followed by
/// the end of the file.
pub open spec fn lone_empty_main(c: Compiler) -> bool {
    let t = c.parser.tokens@;
    &&& lone_main_program(t)
    &&& t.len() > 6
    &&& t[1].token_type == TokenType::IDENTIFIER
    &&& t[4].token_type == TokenType::LEFT_BRACE
    &&& t[5].token_type == TokenType::RIGHT_BRACE
    &&& t[6].token_type == TokenType::EOF
    &&& c.parser.index == 0
    &&& c.scope_depth == 0
}

/// Ahead of `c`, for a variable of the struct declared by symbol `var_pos`, which has
/// fields, stand `=`, `{`, `}` and a token that can be read.
/// The fields of the first struct named `name`, where there is one.
pub open spec fn first_struct_fields(structs: Seq<Struct>, name: Seq<char>) -> Option<Seq<Local>> {
    if exists|si: int| first_struct(structs, name, si) {
        Some(structs[choose|si: int| first_struct(structs, name, si)].locals@)
    } else {
        None
    }
}

/// Only one struct is the first of its name.
proof fn lemma_first_struct_unique(structs: Seq<Struct>, name: Seq<char>, a: int, b: int)
    requires
        first_struct(structs, name, a),
        first_struct(structs, name, b),
    ensures
        a == b,
{
    if a < b {
        assert(structs[a].name@ == name);
    } else if b < a {
        assert(structs[b].name@ == name);
    }
}

/// Ahead of `c`, after `var x: S`, stand `= {`, literals `true` or `false` separated by
/// commas, and `}`; every field of the first struct named as symbol `var_pos` is a `bool`,
/// and the token after `}` can be read.
pub open spec fn bool_fields_ahead(c: Compiler, var_pos: usize) -> bool {
    let i = c.parser.index as int;
    let t = c.parser.tokens@;
    &&& c.parser.prev.value@ != seq!['L', 'i', 's', 't']
    &&& c.parser.cur.token_type == TokenType::EQ
    &&& 0 <= i && i + 1 < t.len()
    &&& t[i].token_type == TokenType::LEFT_BRACE
    &&& bool_literal(t[i + 1].token_type)
    &&& bool_list_count(t, i + 2, TokenType::RIGHT_BRACE) matches Some(n)
    &&& var_pos < c.parser.symbols@.len()
    &&& first_struct_fields(c.structs@, c.parser.symbols@[var_pos as int].name@) matches Some(fields)
    &&& forall|f: int| 0 <= f < fields.len() ==> (#[trigger] fields[f]).local_type == TokenType::BOOL
    &&& c.scope_depth != 0
    &&& c.cur_function.chunk.values@.len() + n < usize::MAX
}

pub open spec fn empty_fields_miscounted(c: Compiler, var_pos: usize) -> bool {
    let i = c.parser.index as int;
    let t = c.parser.tokens@;
    &&& c.parser.prev.value@ != seq!['L', 'i', 's', 't']
    &&& c.parser.cur.token_type == TokenType::EQ
    &&& i + 2 < t.len()
    &&& t[i].token_type == TokenType::LEFT_BRACE
    &&& t[i + 1].token_type == TokenType::RIGHT_BRACE
    &&& t[i + 2].token_type != TokenType::ERROR
    &&& var_pos < c.parser.symbols@.len()
    &&& c.parser.symbols@[var_pos as int].arg_count != 0
}

/// The operations of a code, without their lines.
/// The code that moves the counter of a `for` loop on by its step: read the counter, read
/// the step, add them, store the sum in the counter.
pub open spec fn counter_step_code(counter: usize, step: usize, line: u32) -> Seq<Instruction> {
    seq![
        Instruction { op: OpCode::VAR_CALL(counter), line },
        Instruction { op: OpCode::VAR_CALL(step), line },
        Instruction { op: OpCode::ADD_INT, line },
        Instruction { op: OpCode::VAR_SET(counter), line },
    ]
}

pub open spec fn code_ops(code: Seq<Instruction>) -> Seq<OpCode> {
    code.map_values(|i: Instruction| i.op)
}

/// A `DEC_RC` for each of the first `n` locals that is an instance, in order.
pub open spec fn instance_drops(locals: Seq<Local>, n: int) -> Seq<OpCode>
    decreases n,
{
    if n <= 0 {
        Seq::empty()
    } else {
        let before = instance_drops(locals, n - 1);
        if locals[n - 1].local_type matches TokenType::KEYWORD(Keywords::INSTANCE(_)) {
            before.push(OpCode::DEC_RC((n - 1) as usize))
        } else {
            before
        }
    }
}

/// The code of `f` ends as a compiled function ends: a `null` constant loaded, `RETURN`,
/// a `DEC_RC` for each local that is an instance, in order, and `END_OF_FN`.
pub open spec fn ends_as_function(f: Function) -> bool {
    let code = f.chunk.code@;
    let tail = seq![OpCode::RETURN] + instance_drops(f.locals@, f.locals@.len() as int) + seq![OpCode::END_OF_FN];
    &&& code.len() >= tail.len() + 1
    &&& code_ops(code).subrange(code.len() - tail.len(), code.len() as int) == tail
    &&& code[code.len() - tail.len() - 1].op matches OpCode::CONSTANT_NULL(k)
    &&& k < f.chunk.values@.len()
    &&& f.chunk.values@[k as int] == ValueModel::Null
}

/// The loop at `s`, `e`, `k` of `code` is a counting loop: it loads the counter and the
/// bound (the local after it) and compares them with `<=` before its exit test, and pops
/// the test's value on both ways out.
/// Before the jump back at `k` of the `for` loop whose test starts at `s` stands, once,
/// the code that moves the tested counter on by the step kept two places after it; after
/// it come only instructions that drop values, references and locals.
pub open spec fn steps_back(code: Seq<Instruction>, s: int, e: int, k: int) -> bool {
    exists|m: int|
        #![trigger code[m]]
        e < m && m + 4 <= k && (code[s].op matches OpCode::VAR_CALL(p) && code.subrange(m, m + 4) == counter_step_code(
            p,
            (p + 2) as usize,
            code[m].line,
        )) && forall|j: int|
            m + 4 <= j < k ==> (#[trigger] code[j].op is POP || code[j].op is DEC_TO || code[j].op is RF_REMOVE)
}

pub open spec fn for_loop_shape(code: Seq<Instruction>, s: int, e: int, k: int) -> bool {
    &&& e == s + 3
    &&& k + 1 < code.len()
    &&& code[s].op matches OpCode::VAR_CALL(p)
    &&& code[s + 1].op == OpCode::VAR_CALL((p + 1) as usize)
    &&& code[s + 2].op == OpCode::EQ_LESS_INT
    &&& code[e + 1].op == OpCode::POP
    &&& code[k + 1].op == OpCode::POP
}

/// `op` declares the function `main`.
pub open spec fn declares_main_fn(op: OpCode) -> bool {
    op matches OpCode::FUNCTION_DEC(g) && is_main_name(g.name@)
}

/// A keyword that names a basic type of which lists can be made.
pub open spec fn list_type_keyword(tt: TokenType) -> bool {
    &&& tt matches TokenType::KEYWORD(k)
    &&& k.spec_convert() matches Some(et)
    &&& list_placeholder(et) is Some
}

/// From token `i` on stand `>`, `=`, `[`, `]` and a token that can be read; the list struct
/// is declared.
pub open spec fn empty_list_rest(c: Compiler, i: int) -> bool {
    let t = c.parser.tokens@;
    &&& 0 <= i
    &&& i + 4 < t.len()
    &&& t[i].token_type == TokenType::GREATER
    &&& t[i + 1].token_type == TokenType::EQ
    &&& t[i + 2].token_type == TokenType::LEFT_BRACKET
    &&& t[i + 3].token_type == TokenType::RIGHT_BRACKET
    &&& t[i + 4].token_type != TokenType::ERROR
    &&& exists|p: int| 0 <= p < c.parser.symbols@.len() && symbol_matches(
        #[trigger] c.parser.symbols@[p],
        seq!['L', 'i', 's', 't'],
        true,
    )
    &&& c.scope_depth != 0
}

/// After `==` or `!=` just consumed, whose left operand is a `bool`, a lone `true` or
/// `false` stands ahead, and both constants can be stored.
pub open spec fn bool_comparison_ahead(c: Compiler) -> bool {
    &&& (c.parser.prev.token_type == TokenType::EQ_EQ || c.parser.prev.token_type == TokenType::INTERJ_EQ)
    &&& last_constant_type(c) == Some(TokenType::BOOL)
    &&& lone_bool(c, Precedence::COMPARISON)
    &&& c.cur_function.chunk.values@.len() + 1 < usize::MAX
}

/// After a comparison operator just consumed, whose left operand has a static type, a lone
/// `true` or `false` stands ahead as the right operand.
pub open spec fn bool_right_comparison_ahead(c: Compiler) -> bool {
    let op = c.parser.prev.token_type;
    &&& (op == TokenType::EQ_EQ || op == TokenType::INTERJ_EQ || op == TokenType::GREATER || op == TokenType::GREATER_EQ
        || op == TokenType::LESS || op == TokenType::LESS_EQ)
    &&& last_constant_type(c) is Some
    &&& lone_bool(c, Precedence::COMPARISON)
    &&& c.cur_function.chunk.values@.len() + 1 < usize::MAX
}

/// After an arithmetic operator just consumed, whose left operand is a `bool`, a lone
/// `true` or `false` stands ahead.
pub open spec fn bool_arithmetic_ahead(c: Compiler) -> bool {
    let t = c.parser.prev.token_type;
    &&& last_constant_type(c) == Some(TokenType::BOOL)
    &&& (((t == TokenType::PLUS || t == TokenType::MINUS) && lone_bool(c, Precedence::FACTOR)) || ((t == TokenType::STAR
        || t == TokenType::SLASH || t == TokenType::MOD) && lone_bool(c, Precedence::UNARY)))
}

impl Compiler {
    /// Compiles an expression.
    pub fn expression(&mut self) -> (r: Result<(), CompileError>)
        requires
            old(self).wf(),
        ensures
            r is Ok ==> strictly_advanced(*old(self), *final(self)),
            lone_bool(*old(self), Precedence::ASSIGNMENT) ==> r is Ok && bool_loaded(*old(self), *final(self)),
        decreases old(self).fuel(), 1int,
    {
        self.parse(Precedence::ASSIGNMENT)
    }

    /// Runs the parsing routine that a rule names.
    fn run_rule(&mut self, f: ParseFn) -> (r: Result<(), CompileError>)
        requires
            old(self).wf(),
        ensures
            r is Ok ==> advanced(*old(self), *final(self)),
            f is Bool && bool_literal(old(self).parser.prev.token_type) && old(self).scope_depth != 0
                && old(self).cur_function.chunk.values@.len() < usize::MAX ==> {
                &&& r is Ok
                &&& final(self).parser == old(self).parser
                &&& final(self).scope_depth == old(self).scope_depth
                &&& final(self).cur_function.locals == old(self).cur_function.locals
                &&& final(self).cur_function.output_type == old(self).cur_function.output_type
                &&& final(self).cur_function.instances == old(self).cur_function.instances
                &&& final(self).symbol_to_hold == old(self).symbol_to_hold
                &&& final(self).structs == old(self).structs
                &&& final(self).cur_function.chunk.values@ == old(self).cur_function.chunk.values@.push(
                    ValueModel::Bool(old(self).parser.prev.token_type == TokenType::KEYWORD(Keywords::TRUE)),
                )
                &&& final(self).cur_function.chunk.code@ == old(self).cur_function.chunk.code@.push(
                    Instruction {
                        op: OpCode::CONSTANT_BOOL(old(self).cur_function.chunk.values@.len() as usize),
                        line: old(self).parser.line,
                    },
                )
            },
        decreases old(self).fuel(), 4int,
    {
        match f {
            ParseFn::Number => self.number(),
            ParseFn::Identifier => self.identifier(),
            ParseFn::Bool => self.bool(),
            ParseFn::StringDec => self.string_dec(),
            ParseFn::Negation => self.negation(),
            ParseFn::FnCall => self.fn_call(),
            ParseFn::LogicOperator => self.logic_operator(),
            ParseFn::AndOp => self.and_op(),
            ParseFn::OrOp => self.or_op(),
            ParseFn::Arithmetic => self.arithmetic(),
        }
    }

    /// Compiles an expression whose operators bind at least as tightly as `prec`: the
    /// next token's prefix routine, then, while the current token binds tightly enough,
    /// its infix routine.
    pub fn parse(&mut self, prec: Precedence) -> (r: Result<(), CompileError>)
        requires
            old(self).wf(),
        ensures
            r is Ok ==> strictly_advanced(*old(self), *final(self)),
            lone_bool(*old(self), prec) ==> r is Ok && bool_loaded(*old(self), *final(self)),
        decreases old(self).fuel(), 0int,
    {
        self.parser.advance()?;
        let prev_type = self.parser.prev.token_type;
        let rule = match init_rule(prev_type) {
            Some(p) => p,
            None => {
                return Err(CompileError {
                    kind: ErrorKind::NoParseRule,
                    line: self.parser.line,
                    name: self.parser.prev.value.clone(),
                    expected: None,
                    found: Some(prev_type),
                    counts: None,
                });
            },
        };
        match rule.prefix {
            Some(f) => {
                self.run_rule(f)?;
            },
            None => {
                return Err(error_types(ErrorKind::NoPrefix, self.parser.line, None, Some(prev_type)));
            },
        }
        assert(lone_bool(*old(self), prec) ==> bool_loaded(*old(self), *self));
        let ghost after_prefix = *self;
        let ghost mut ran = false;
        loop
            invariant_except_break
                advanced(*old(self), *self),
                self.parser.index > old(self).parser.index,
                !ran ==> *self == after_prefix,
                lone_bool(*old(self), prec) ==> bool_loaded(*old(self), after_prefix),
                lone_bool(*old(self), prec) ==> !ran,
            ensures
                strictly_advanced(*old(self), *self),
                !ran ==> *self == after_prefix,
                lone_bool(*old(self), prec) ==> !ran && bool_loaded(*old(self), after_prefix),
            decreases self.fuel(),
        {
            let cur_rule = self.parser.get_rule(&self.parser.cur.token_type)?;
            if !(prec.to_u32() <= cur_rule.prec.to_u32()) {
                break;
            }
            proof {
                ran = true;
            }
            self.parser.advance()?;
            let prev_type = self.parser.prev.token_type;
            let rule = match init_rule(prev_type) {
                Some(p) => p,
                None => {
                    return Err(CompileError {
                        kind: ErrorKind::NoParseRule,
                        line: self.parser.line,
                        name: self.parser.prev.value.clone(),
                        expected: None,
                        found: Some(prev_type),
                        counts: None,
                    });
                },
            };
            match rule.infix {
                Some(f) => {
                    self.run_rule(f)?;
                },
                None => {
                    return Err(error_types(ErrorKind::NoInfix, self.parser.line, None, Some(prev_type)));
                },
            }
        }
        Ok(())
    }

    /// Compiles a negation (`-` or `!`) just consumed and its operand.
    pub fn negation(&mut self) -> (r: Result<(), CompileError>)
        requires
            old(self).wf(),
        ensures
            r is Ok ==> strictly_advanced(*old(self), *final(self)),
            r is Ok ==> final(self).cur_function.chunk.code@.last().op == OpCode::NEGATE,
            (old(self).parser.prev.token_type == TokenType::MINUS || old(self).parser.prev.token_type == TokenType::INTERJ)
                && lone_bool(*old(self), Precedence::UNARY) ==> {
                &&& r is Ok
                &&& final(self).parser.index == old(self).parser.index + 1
                &&& final(self).cur_function.chunk.code@ == old(self).cur_function.chunk.code@.push(
                    Instruction {
                        op: OpCode::CONSTANT_BOOL(old(self).cur_function.chunk.values@.len() as usize),
                        line: old(self).parser.cur.line,
                    },
                ).push(Instruction { op: OpCode::NEGATE, line: old(self).parser.cur.line })
            },
            !(old(self).parser.prev.token_type == TokenType::MINUS || old(self).parser.prev.token_type == TokenType::INTERJ)
                ==> r is Err,
        decreases old(self).fuel(), 2int,
    {
        let negation_type = self.parser.prev.token_type;
        self.parse(Precedence::UNARY)?;
        let line = self.parser.line;
        match negation_type {
            TokenType::MINUS | TokenType::INTERJ => self.emit_byte(OpCode::NEGATE, line),
            _ => Err(error_types(ErrorKind::UnexpectedToken, self.parser.prev.line, None, Some(self.parser.prev.token_type))),
        }
    }

    /// The precedence one step tighter than that of the operator `op`.
    fn next_precedence(&self, op: TokenType) -> (r: Result<Precedence, CompileError>)
        ensures
            r matches Ok(p) ==> spec_rule(op) matches Some(rl) && p.level() == rl.prec.level() + 1,
            r is Ok <==> (spec_rule(op) matches Some(rl) && rl.prec.level() < 10),
    {
        let rule = self.parser.get_rule(&op)?;
        match Precedence::from_u32(rule.prec.to_u32() + 1) {
            Some(p) => Ok(p),
            None => Err(error(ErrorKind::ConversionFailed, self.parser.line)),
        }
    }

    /// Compiles a comparison operator just consumed and its right operand: both sides must
    /// have the same type, and the instruction is chosen by that type.
    pub fn logic_operator(&mut self) -> (r: Result<(), CompileError>)
        requires
            old(self).wf(),
        ensures
            r is Ok ==> strictly_advanced(*old(self), *final(self)),
            r is Ok ==> (last_constant_type(*old(self)) matches Some(t) && compare_op(old(self).parser.prev.token_type, t)
                == Some(final(self).cur_function.chunk.code@.last().op)),
            r is Ok ==> final(self).cur_function.chunk.values@.last() == ValueModel::Bool(false),
            r is Ok ==> final(self).cur_function.chunk.values@.len() >= 2 && final(self).cur_function.chunk.values@[final(self).cur_function.chunk.values@.len() - 2].type_of() == last_constant_type(*old(self)),
            bool_comparison_ahead(*old(self)) ==> r is Ok && final(self).parser.index == old(self).parser.index + 1
                && final(self).cur_function.chunk.code@.len() == old(self).cur_function.chunk.code@.len() + 2,
            bool_right_comparison_ahead(*old(self)) ==> {
                let l = last_constant_type(*old(self)).unwrap();
                &&& r is Ok <==> l == TokenType::BOOL && compare_op(old(self).parser.prev.token_type, TokenType::BOOL) is Some
                &&& r matches Err(e) ==> e.kind == if l != TokenType::BOOL {
                    ErrorKind::MismatchedTypes
                } else {
                    ErrorKind::UnexpectedToken
                }
            },
        decreases old(self).fuel(), 2int,
    {
        let logic_token = self.parser.prev.duplicate();
        let left_side = self.last_value_type()?;
        let next = self.next_precedence(logic_token.token_type)?;
        self.parse(next)?;
        let right_side = self.last_value_type()?;
        let constants_type = self.check_static_types(&right_side, left_side, &logic_token)?;
        self.add_value(Value::Bool(false))?;
        let line = self.parser.line;
        let tt = logic_token.token_type;
        let unexpected = error_types(ErrorKind::UnexpectedToken, logic_token.line, None, Some(tt));
        let op = match constants_type {
            TokenType::INT => match tt {
                TokenType::EQ_EQ => OpCode::EQ_INT,
                TokenType::INTERJ_EQ => OpCode::NEG_EQ_INT,
                TokenType::GREATER => OpCode::GREATER_INT,
                TokenType::GREATER_EQ => OpCode::EQ_GREATER_INT,
                TokenType::LESS => OpCode::LESS_INT,
                TokenType::LESS_EQ => OpCode::EQ_LESS_INT,
                _ => {
                    return Err(unexpected);
                },
            },
            TokenType::FLOAT => match tt {
                TokenType::EQ_EQ => OpCode::EQ_FLOAT,
                TokenType::INTERJ_EQ => OpCode::NEG_EQ_FLOAT,
                TokenType::GREATER => OpCode::GREATER_FLOAT,
                TokenType::GREATER_EQ => OpCode::EQ_GREATER_FLOAT,
                TokenType::LESS => OpCode::LESS_FLOAT,
                TokenType::LESS_EQ => OpCode::EQ_LESS_FLOAT,
                _ => {
                    return Err(unexpected);
                },
            },
            TokenType::BOOL => match tt {
                TokenType::EQ_EQ => OpCode::EQ_BOOL,
                TokenType::INTERJ_EQ => OpCode::NEG_EQ_BOOL,
                _ => {
                    return Err(unexpected);
                },
            },
            TokenType::STRING => match tt {
                TokenType::EQ_EQ => OpCode::EQ_STRING,
                TokenType::INTERJ_EQ => OpCode::NEG_EQ_STRING,
                _ => {
                    return Err(unexpected);
                },
            },
            t => {
                return Err(error_types(ErrorKind::UnexpectedType, line, None, Some(t)));
            },
        };
        self.emit_byte(op, line)
    }

    /// Compiles an arithmetic operator just consumed and its right operand: both sides must
    /// have the same type, and the instruction is chosen by that type.
    pub fn arithmetic(&mut self) -> (r: Result<(), CompileError>)
        requires
            old(self).wf(),
        ensures
            r is Ok ==> strictly_advanced(*old(self), *final(self)),
            r is Ok ==> (last_constant_type(*old(self)) matches Some(t) && arith_op(old(self).parser.prev.token_type, t)
                == Some(final(self).cur_function.chunk.code@.last().op)),
            r is Ok ==> last_constant_type(*final(self)) == last_constant_type(*old(self)),
            bool_arithmetic_ahead(*old(self)) ==> (r matches Err(e) && e.kind == ErrorKind::UnexpectedType
                && final(self).parser.index == old(self).parser.index + 1),
        decreases old(self).fuel(), 2int,
    {
        let arithmetic_token = self.parser.prev.duplicate();
        let left_side = self.last_value_type()?;
        let next = self.next_precedence(arithmetic_token.token_type)?;
        self.parse(next)?;
        let right_side = self.last_value_type()?;
        let constants_type = self.check_static_types(&right_side, left_side, &arithmetic_token)?;
        let line = self.parser.line;
        let tt = arithmetic_token.token_type;
        let unexpected = error_types(ErrorKind::UnexpectedToken, arithmetic_token.line, None, Some(tt));
        let op = match constants_type {
            TokenType::INT => match tt {
                TokenType::PLUS => OpCode::ADD_INT,
                TokenType::MINUS => OpCode::SUB_INT,
                TokenType::STAR => OpCode::MUL_INT,
                TokenType::SLASH => OpCode::DIV_INT,
                TokenType::MOD => OpCode::MOD_INT,
                _ => {
                    return Err(unexpected);
                },
            },
            TokenType::FLOAT => match tt {
                TokenType::PLUS => OpCode::ADD_FLOAT,
                TokenType::MINUS => OpCode::SUB_FLOAT,
                TokenType::STAR => OpCode::MUL_FLOAT,
                TokenType::SLASH => OpCode::DIV_FLOAT,
                TokenType::MOD => OpCode::MOD_FLOAT,
                _ => {
                    return Err(unexpected);
                },
            },
            TokenType::STRING => match tt {
                TokenType::PLUS => OpCode::ADD_STRING,
                _ => {
                    return Err(unexpected);
                },
            },
            t => {
                return Err(error_types(ErrorKind::UnexpectedType, line, None, Some(t)));
            },
        };
        self.emit_byte(op, line)
    }

    /// Replaces the instruction at `index` of the function being compiled.
    fn patch(&mut self, index: usize, op: OpCode) -> (r: Result<(), CompileError>)
        ensures
            final(self).cur_function.arg_count == old(self).cur_function.arg_count,
            final(self).cur_function.name == old(self).cur_function.name,
            r is Ok ==> final(self).cur_function.chunk.code@ == old(self).cur_function.chunk.code@.update(
                index as int,
                Instruction { op, line: old(self).parser.line },
            ),
            r is Ok <==> index < old(self).cur_function.chunk.code@.len(),
            final(self).parser == old(self).parser,
            final(self).scope_depth == old(self).scope_depth,
            final(self).cur_function.chunk.values == old(self).cur_function.chunk.values,
            final(self).cur_function.locals == old(self).cur_function.locals,
            final(self).cur_function.output_type == old(self).cur_function.output_type,
            r is Ok ==> forall|a: Seq<Instruction>|
                extends(a, old(self).cur_function.chunk.code@) && a.len() <= index ==> #[trigger] extends(
                    a,
                    final(self).cur_function.chunk.code@,
                ),
            r is Ok ==> (jumps_inside(old(self).cur_function.chunk.code@) && jump_ok(
                op,
                index as int,
                old(self).cur_function.chunk.code@.len() as int,
            ) ==> jumps_inside(final(self).cur_function.chunk.code@)),
    {
        if index >= self.cur_function.chunk.code.len() {
            return Err(error(ErrorKind::IndexOutOfRange, self.parser.line));
        }
        let line = self.parser.line;
        let ghost before = self.cur_function.chunk.code@;
        self.cur_function.chunk.code.set(index, Instruction { op, line });
        proof {
            let after = self.cur_function.chunk.code@;
            if jumps_inside(before) && jump_ok(op, index as int, before.len() as int) {
                assert forall|i: int| 0 <= i < after.len() implies #[trigger] jump_ok(after[i].op, i, after.len() as int) by {
                    if i != index {
                        assert(after[i] == before[i]);
                        assert(jump_ok(before[i].op, i, before.len() as int));
                    }
                }
            }
        }
        Ok(())
    }

    /// The distance from the instruction at `index` to the last instruction.
    fn offset_from(&self, index: usize) -> (r: Result<usize, CompileError>)
        ensures
            r matches Ok(o) ==> o + index + 1 == self.cur_function.chunk.code@.len(),
            r is Ok <==> index < self.cur_function.chunk.code@.len(),
    {
        let len = self.cur_function.chunk.code.len();
        if index == usize::MAX || len < index + 1 {
            return Err(error(ErrorKind::Internal, self.parser.line));
        }
        Ok(len - index - 1)
    }

    /// The distance back from one past the last instruction to `start`, plus one.
    fn loop_offset(&self, start: usize) -> (r: Result<usize, CompileError>)
        ensures
            r matches Ok(o) ==> o == self.cur_function.chunk.code@.len() - start + 1,
            r is Ok <==> start <= self.cur_function.chunk.code@.len() && self.cur_function.chunk.code@.len() - start
                < usize::MAX,
    {
        let len = self.cur_function.chunk.code.len();
        if len < start || len - start == usize::MAX {
            return Err(error(ErrorKind::Internal, self.parser.line));
        }
        Ok(len - start + 1)
    }

    /// Compiles `and` and its right operand: a jump over the right operand when the left
    /// one is false.
    pub fn and_op(&mut self) -> (r: Result<(), CompileError>)
        requires
            old(self).wf(),
        ensures
            r is Ok ==> strictly_advanced(*old(self), *final(self)),
            r is Ok ==> (final(self).cur_function.chunk.code@[old(self).cur_function.chunk.code@.len() as int].op matches OpCode::IF_STMT_OFFSET(o)
                && old(self).cur_function.chunk.code@.len() + 1 + o == final(self).cur_function.chunk.code@.len()),
            lone_bool(*old(self), Precedence::AND) ==> r is Ok && final(self).parser.index == old(self).parser.index + 1
                && final(self).cur_function.chunk.code@.len() == old(self).cur_function.chunk.code@.len() + 3,
        decreases old(self).fuel(), 2int,
    {
        let index = self.cur_function.chunk.code.len();
        let line = self.parser.line;
        self.emit_byte(OpCode::IF_STMT_OFFSET(0), line)?;
        if self.parser.cur.token_type == TokenType::LEFT_BRACE {
            return Err(error_named(ErrorKind::ExpectedExpression, self.parser.line, self.parser.prev.value.clone()));
        }
        self.emit_byte(OpCode::POP, line)?;
        self.parse(Precedence::AND)?;
        let offset = self.offset_from(index)?;
        self.patch(index, OpCode::IF_STMT_OFFSET(offset))
    }

    /// Compiles `or` and its right operand: a jump over the right operand when the left
    /// one is true.
    pub fn or_op(&mut self) -> (r: Result<(), CompileError>)
        requires
            old(self).wf(),
        ensures
            r is Ok ==> strictly_advanced(*old(self), *final(self)),
            r is Ok ==> branch_at(
                final(self).cur_function.chunk.code@,
                old(self).cur_function.chunk.code@.len() as int,
                old(self).cur_function.chunk.code@.len() + 1int,
                final(self).cur_function.chunk.code@.len() as int,
            ),
            lone_bool(*old(self), Precedence::OR) ==> r is Ok && final(self).parser.index == old(self).parser.index + 1
                && final(self).cur_function.chunk.code@.len() == old(self).cur_function.chunk.code@.len() + 4,
        decreases old(self).fuel(), 2int,
    {
        let index = self.cur_function.chunk.code.len();
        let line = self.parser.line;
        self.emit_byte(OpCode::IF_STMT_OFFSET(0), line)?;
        let index_or = self.cur_function.chunk.code.len();
        self.emit_byte(OpCode::JUMP(0), line)?;
        if self.parser.cur.token_type == TokenType::LEFT_BRACE {
            return Err(error_named(ErrorKind::ExpectedExpression, self.parser.line, self.parser.prev.value.clone()));
        }
        let offset = self.offset_from(index)?;
        self.patch(index, OpCode::IF_STMT_OFFSET(offset))?;
        self.emit_byte(OpCode::POP, line)?;
        self.parse(Precedence::OR)?;
        let offset = self.offset_from(index_or)?;
        self.patch(index_or, OpCode::JUMP(offset))
    }

    /// Whether symbol `pos` is one of the input/output functions.
    fn is_io_symbol(&self, pos: usize) -> (b: bool)
        requires
            pos < self.parser.symbols@.len(),
        ensures
            b == is_io_name(self.parser.symbols@[pos as int].name@),
    {
        let name = self.parser.symbols[pos].name.as_slice();
        chars_equal(name, &NAME_PRINT) || chars_equal(name, &NAME_PRINTLN) || chars_equal(name, &NAME_INPUT)
    }

    /// Compiles the arguments of a call to the held symbol, after its `(`, and the call.
    pub fn fn_call(&mut self) -> (r: Result<(), CompileError>)
        requires
            old(self).wf(),
        ensures
            r is Ok ==> strictly_advanced(*old(self), *final(self)),
            empty_call_ahead(*old(self)) ==> {
                &&& r is Ok
                &&& final(self).parser.index == old(self).parser.index + 1
                &&& final(self).cur_function.chunk.code@ == old(self).cur_function.chunk.code@.push(
                    Instruction { op: OpCode::FUNCTION_CALL(old(self).symbol_to_hold), line: final(self).parser.line },
                )
                &&& final(self).cur_function.chunk.values@.len() == old(self).cur_function.chunk.values@.len() + 1
            },
            empty_call_miscounted(*old(self)) ==> (r matches Err(e) && e.kind == ErrorKind::ArgumentCount),
            bool_args_ahead(*old(self)) ==> {
                let n = bool_list_count(old(self).parser.tokens@, old(self).parser.index as int, TokenType::RIGHT_PAREN).unwrap();
                let s = old(self).parser.symbols@[old(self).symbol_to_hold as int];
                &&& r is Ok <==> n == s.arg_count
                &&& r matches Err(e) ==> e.kind == ErrorKind::ArgumentCount && e.counts == Some((s.arg_count, n as usize))
            },
            r is Ok && old(self).symbol_to_hold < final(self).parser.symbols@.len() && !is_io_name(
                final(self).parser.symbols@[old(self).symbol_to_hold as int].name@,
            ) ==> {
                let s = final(self).parser.symbols@[old(self).symbol_to_hold as int];
                let values = final(self).cur_function.chunk.values@;
                &&& final(self).cur_function.chunk.code@.last().op == if s.symbol_type == TokenType::NATIVE_FN {
                    OpCode::NATIVE_FN_CALL(old(self).symbol_to_hold)
                } else {
                    OpCode::FUNCTION_CALL(old(self).symbol_to_hold)
                }
                &&& s.symbol_type != TokenType::NATIVE_FN ==> values.len() > 0 && match s.output_type {
                    TokenType::STRUCT(v) => values.last() == ValueModel::InstanceRef(v),
                    t => values.last().type_of() == Some(t),
                }
            },
            r is Ok ==> exists|k: int| #![trigger final(self).cur_function.chunk.code@[k]]
                old(self).cur_function.chunk.code@.len() <= k < final(self).cur_function.chunk.code@.len()
                && calls_symbol(final(self).cur_function.chunk.code@[k].op, old(self).symbol_to_hold),
        decreases old(self).fuel(), 2int,
    {
        let mut arg_count: usize = 0;
        self.changing_fn = true;
        let hold = self.symbol_to_hold;
        if hold >= self.parser.symbols.len() {
            return Err(error(ErrorKind::IndexOutOfRange, self.parser.line));
        }
        let is_io = self.is_io_symbol(hold);
        if self.parser.symbols[hold].symbol_type == TokenType::NATIVE_FN && !is_io {
            self.changing_fn = false;
        }
        let ghost before_args = *self;
        while self.parser.cur.token_type != TokenType::RIGHT_PAREN
            invariant
                advanced(*old(self), *self),
                arg_count <= self.parser.index - old(self).parser.index,
                empty_call_ahead(*old(self)) || empty_call_miscounted(*old(self)) ==> *self == before_args && arg_count == 0,
                bool_args_ahead(*old(self)) ==> {
                    let t = self.parser.tokens@;
                    let i = self.parser.index as int;
                    let n = bool_list_count(old(self).parser.tokens@, old(self).parser.index as int, TokenType::RIGHT_PAREN).unwrap();
                    &&& self.parser.tokens == old(self).parser.tokens
                    &&& self.scope_depth == old(self).scope_depth
                    &&& self.parser.symbols == old(self).parser.symbols
                    &&& self.symbol_to_hold == old(self).symbol_to_hold
                    &&& self.cur_function.chunk.values@.len() == old(self).cur_function.chunk.values@.len() + arg_count
                    &&& self.parser.cur.token_type == TokenType::RIGHT_PAREN ==> arg_count == n && i + 1 <= t.len()
                        && i < t.len() && t[i].token_type != TokenType::ERROR
                    &&& self.parser.cur.token_type != TokenType::RIGHT_PAREN ==> bool_literal(self.parser.cur.token_type)
                        && bool_list_count(t, i, TokenType::RIGHT_PAREN) is Some && arg_count + bool_list_count(t, i, TokenType::RIGHT_PAREN).unwrap() == n
                },
                before_args.parser == old(self).parser,
                before_args.cur_function == old(self).cur_function,
                before_args.scope_depth == old(self).scope_depth,
            decreases self.fuel(),
        {
            let ghost i0 = self.parser.index as int;
            let ghost m = bool_list_count(self.parser.tokens@, i0, TokenType::RIGHT_PAREN);
            proof {
                if bool_args_ahead(*old(self)) {
                    assert(m is Some);
                    assert(i0 < self.parser.tokens@.len());
                    assert(spec_rule(self.parser.tokens@[i0].token_type) matches Some(rl) && rl.prec.level() < 1);
                    assert(lone_bool(*self, Precedence::ASSIGNMENT));
                }
            }
            if arg_count == usize::MAX {
                return Err(error(ErrorKind::Overflow, self.parser.line));
            }
            arg_count = arg_count + 1;
            self.expression()?;
            if self.parser.cur.token_type == TokenType::COMMA {
                self.parser.consume(TokenType::COMMA)?;
                proof {
                    if bool_args_ahead(*old(self)) {
                        assert(self.parser.index == i0 + 2);
                        assert(bool_list_count(self.parser.tokens@, i0, TokenType::RIGHT_PAREN) == match bool_list_count(self.parser.tokens@, i0 + 2, TokenType::RIGHT_PAREN) {
                            Some(k) => Some(k + 1),
                            None => None::<nat>,
                        });
                    }
                }
            }
        }
        self.parser.consume(TokenType::RIGHT_PAREN)?;
        self.symbol_to_hold = hold;
        self.changing_fn = false;
        if hold >= self.parser.symbols.len() {
            return Err(error(ErrorKind::IndexOutOfRange, self.parser.line));
        }
        let line = self.parser.line;
        let at = self.cur_function.chunk.code.len();
        if self.is_io_symbol(hold) {
            self.emit_byte(OpCode::IO_FN_CALL(hold, arg_count), line)?;
            assert(calls_symbol(self.cur_function.chunk.code@[at as int].op, hold));
            if chars_equal(self.parser.symbols[hold].name.as_slice(), &NAME_INPUT) {
                self.add_value(Value::String(Vec::new()))?;
            } else {
                let pos = self.add_value(Value::Null)?;
                self.emit_byte(OpCode::CONSTANT_NULL(pos), line)?;
            }
            assert(!empty_call_ahead(*old(self)));
            assert(!empty_call_miscounted(*old(self)));
            let mut k: usize = 0;
            while k < arg_count
                invariant
                    advanced(*old(self), *self),
                    self.parser.index > old(self).parser.index,
                    old(self).cur_function.chunk.code@.len() <= at < self.cur_function.chunk.code@.len(),
                    calls_symbol(self.cur_function.chunk.code@[at as int].op, hold),
                    hold == old(self).symbol_to_hold,
                    !empty_call_ahead(*old(self)),
                    !empty_call_miscounted(*old(self)),
                    hold < self.parser.symbols@.len(),
                    is_io_name(self.parser.symbols@[hold as int].name@),
                decreases arg_count - k,
            {
                self.emit_byte(OpCode::POP, line)?;
                k = k + 1;
            }
            return Ok(());
        }
        if arg_count != self.parser.symbols[hold].arg_count {
            return Err(CompileError {
                kind: ErrorKind::ArgumentCount,
                line,
                name: self.parser.symbols[hold].name.clone(),
                expected: None,
                found: None,
                counts: Some((self.parser.symbols[hold].arg_count, arg_count)),
            });
        }
        if self.parser.symbols[hold].symbol_type == TokenType::NATIVE_FN {
            self.emit_byte(OpCode::NATIVE_FN_CALL(hold), line)?;
            assert(calls_symbol(self.cur_function.chunk.code@[at as int].op, hold));
            let name = self.parser.symbols[hold].name.as_slice();
            if chars_equal(name, &NAME_CONV) {
                self.add_value(Value::Int(0))?;
            } else if chars_equal(name, &NAME_CONVF) {
                self.add_value(Value::Float(str_to_chars("0.0")))?;
            } else if chars_equal(name, &NAME_CONVSTR) {
                self.add_value(Value::String(Vec::new()))?;
            }
        } else {
            self.emit_byte(OpCode::FUNCTION_CALL(hold), line)?;
            assert(calls_symbol(self.cur_function.chunk.code@[at as int].op, hold));
            let output_type = self.parser.symbols[hold].output_type;
            match output_type {
                TokenType::STRUCT(val) => {
                    self.add_value(Value::InstanceRef(val))?;
                },
                t => match Self::type_placeholder(t) {
                    Some(v) => {
                        self.add_value(v)?;
                    },
                    None => {
                        return Err(error_types(ErrorKind::UnexpectedOutputType, line, None, Some(t)));
                    },
                },
            }
        }
        Ok(())
    }

    /// Compiles an identifier just consumed: an assignment, a field or method access, a
    /// variable read, or (before `(`) the function to call.
    pub fn identifier(&mut self) -> (r: Result<(), CompileError>)
        requires
            old(self).wf(),
        ensures
            r is Ok ==> advanced(*old(self), *final(self)),
            old(self).parser.cur.token_type == TokenType::LEFT_PAREN ==> match r {
                Ok(_) => {
                    let i = final(self).symbol_to_hold;
                    &&& i < old(self).parser.symbols@.len()
                    &&& symbol_matches(old(self).parser.symbols@[i as int], old(self).parser.prev.value@, false)
                    &&& forall|j: int| 0 <= j < i ==> !symbol_matches(#[trigger] old(self).parser.symbols@[j], old(self).parser.prev.value@, false)
                    &&& *final(self) == (Compiler { symbol_to_hold: i, ..*old(self) })
                },
                Err(e) => e.kind == ErrorKind::FunctionNotDefined && forall|j: int| 0 <= j < old(self).parser.symbols@.len()
                    ==> !symbol_matches(#[trigger] old(self).parser.symbols@[j], old(self).parser.prev.value@, false),
            },
        decreases old(self).fuel(), 3int,
    {
        if self.parser.cur.token_type == TokenType::EQ {
            return self.var_assign();
        }
        if self.parser.cur.token_type == TokenType::DOT {
            return self.instance_call();
        }
        if self.parser.cur.token_type != TokenType::LEFT_PAREN {
            return self.var_call();
        }
        let name = self.parser.prev.value.clone();
        let pos = self.get_fn_symbol_pos(&name)?;
        self.symbol_to_hold = pos;
        Ok(())
    }

    /// The position of the last local named `name`, if any.
    fn find_local_rev(&self, name: &Vec<char>) -> (r: Option<usize>)
        ensures
            r matches Some(i) ==> i < self.cur_function.locals@.len() && self.cur_function.locals@[i as int].name@ == name@
                && forall|j: int| i < j < self.cur_function.locals@.len() ==> (#[trigger] self.cur_function.locals@[j]).name@ != name@,
            r is None ==> forall|j: int| 0 <= j < self.cur_function.locals@.len() ==> (#[trigger] self.cur_function.locals@[j]).name@ != name@,
    {
        let mut i: usize = self.cur_function.locals.len();
        while i > 0
            invariant
                i <= self.cur_function.locals@.len(),
                forall|j: int| i <= j < self.cur_function.locals@.len() ==> (#[trigger] self.cur_function.locals@[j]).name@ != name@,
            decreases i,
        {
            i = i - 1;
            if chars_equal(self.cur_function.locals[i].name.as_slice(), name.as_slice()) {
                return Some(i);
            }
        }
        None
    }

    /// The name of the struct that an instance type names.
    fn root_struct_name(&self, t: TokenType) -> (r: Result<Vec<char>, CompileError>)
        ensures
            r is Ok <==> (t matches TokenType::KEYWORD(Keywords::INSTANCE(root)) && root < self.parser.symbols@.len()),
            r matches Ok(n) ==> t matches TokenType::KEYWORD(Keywords::INSTANCE(root)) && n@ == self.parser.symbols@[root as int].name@,
    {
        match t {
            TokenType::KEYWORD(Keywords::INSTANCE(root)) => self.symbol_name(root),
            _ => Err(error(ErrorKind::Internal, self.parser.line)),
        }
    }

    /// Compiles an assignment to the variable just consumed.
    pub fn var_assign(&mut self) -> (r: Result<(), CompileError>)
        requires
            old(self).wf(),
        ensures
            r is Ok ==> advanced(*old(self), *final(self)),
            r is Ok ==> final(self).cur_function.chunk.code@.len() > old(self).cur_function.chunk.code@.len()
                && (final(self).cur_function.chunk.code@.last().op matches OpCode::VAR_SET(p) && first_local(
                old(self).cur_function.locals@,
                old(self).parser.prev.value@,
                p as int,
            )),
            r is Ok && old(self).parser.index < old(self).parser.tokens@.len() && old(self).parser.tokens@[old(self).parser.index as int].token_type != TokenType::STRING ==> (final(self).cur_function.chunk.code@.last().op matches OpCode::VAR_SET(p)
                && p < final(self).cur_function.locals@.len() && ((final(self).cur_function.locals@[p as int].local_type matches TokenType::KEYWORD(
                Keywords::INSTANCE(_),
            )) || last_constant_type(*final(self)) == Some(final(self).cur_function.locals@[p as int].local_type))),
            bool_assign_ahead(*old(self)) ==> r is Ok && final(self).parser.index == old(self).parser.index + 2
                && final(self).cur_function.chunk.code@.len() == old(self).cur_function.chunk.code@.len() + 2,
        decreases old(self).fuel(), 2int,
    {
        let var_name = self.parser.prev.value.clone();
        self.parser.consume(TokenType::EQ)?;
        let pos = self.get_local_pos(&var_name)?;
        let line = self.parser.line;
        if self.parser.cur.token_type == TokenType::STRING {
            self.expression()?;
            let line = self.parser.line;
            self.emit_byte(OpCode::DEC_RC(pos), line)?;
            self.emit_byte(OpCode::VAR_SET(pos), line)?;
            let last = self.last_value()?;
            match last {
                Value::String(_) => {},
                v => {
                    return Err(error_types(ErrorKind::MismatchedTypes, line, Some(TokenType::STRING), v.convert()));
                },
            }
            return Ok(());
        }
        let var_type = self.local_type_at(pos)?;
        if let TokenType::KEYWORD(Keywords::INSTANCE(_)) = var_type {
            let value_identifier = self.parser.cur.value.clone();
            self.parser.consume(TokenType::IDENTIFIER)?;
            let value_pos = match self.find_local_rev(&value_identifier) {
                Some(p) => p,
                None => {
                    let root = self.root_struct_name(var_type)?;
                    return Err(error_named(ErrorKind::MismatchedTypes, self.parser.line, root));
                },
            };
            let value_type = self.local_type_at(pos)?;
            if var_type != value_type {
                let root = self.root_struct_name(var_type)?;
                return Err(error_named(ErrorKind::MismatchedTypes, self.parser.line, root));
            }
            let line = self.parser.line;
            self.emit_byte(OpCode::INC_RC(value_pos), line)?;
            self.emit_byte(OpCode::DEC_RC(pos), line)?;
            self.emit_byte(OpCode::GET_INSTANCE_RF(value_pos), line)?;
            self.emit_byte(OpCode::VAR_SET(pos), line)?;
            return Ok(());
        }
        self.expression()?;
        let value_type = self.last_value_type()?;
        let var_type = self.local_type_at(pos)?;
        if value_type != var_type {
            return Err(error_types(ErrorKind::MismatchedTypes, self.parser.line, Some(var_type), Some(value_type)));
        }
        let line = self.parser.line;
        self.emit_byte(OpCode::VAR_SET(pos), line)
    }

    /// Whether local `pos` is a string.
    fn local_is_string(&self, pos: usize) -> (b: bool)
        requires
            pos < self.cur_function.locals@.len(),
        ensures
            b == (self.cur_function.locals@[pos as int].is_special is String),
    {
        match self.cur_function.locals[pos].is_special {
            SpecialType::String => true,
            _ => false,
        }
    }

    /// Whether local `pos` is a list.
    fn local_is_list(&self, pos: usize) -> (b: bool)
        requires
            pos < self.cur_function.locals@.len(),
        ensures
            b == (self.cur_function.locals@[pos as int].is_special is List),
    {
        match self.cur_function.locals[pos].is_special {
            SpecialType::List(_) => true,
            _ => false,
        }
    }

    /// Compiles a read of the variable just consumed (or, for a list, of one of its elements,
    /// or an assignment to one).
    pub fn var_call(&mut self) -> (r: Result<(), CompileError>)
        requires
            old(self).wf(),
        ensures
            r is Ok ==> advanced(*old(self), *final(self)),
            r is Ok ==> exists|p: int| first_local(old(self).cur_function.locals@, old(self).parser.prev.value@, p),
            (forall|j: int| 0 <= j < old(self).cur_function.locals@.len() ==> (#[trigger] old(self).cur_function.locals@[j]).name@
                != old(self).parser.prev.value@) ==> (r matches Err(e) && e.kind == ErrorKind::VarNotDefined),
        decreases old(self).fuel(), 2int,
    {
        let var_name = self.parser.prev.value.clone();
        let pos = self.get_local_pos(&var_name)?;
        assert(first_local(old(self).cur_function.locals@, old(self).parser.prev.value@, pos as int));
        let line = self.parser.line;
        if self.local_is_string(pos) && !self.changing_fn {
            self.add_value(Value::String(Vec::new()))?;
            self.emit_byte(OpCode::GET_INSTANCE_RF(pos), line)?;
            self.emit_byte(OpCode::INC_RC(pos), line)?;
        } else if self.local_is_list(pos) && !self.changing_fn {
            if self.parser.cur.token_type != TokenType::LEFT_BRACKET {
                self.add_value(Value::List)?;
                self.emit_byte(OpCode::GET_LIST(pos), line)?;
            } else {
                if pos >= self.cur_function.instances.len() {
                    return Err(error(ErrorKind::IndexOutOfRange, line));
                }
                let list_type = match &self.cur_function.instances[pos].is_special {
                    SpecialType::List(val) => val.copy(),
                    _ => {
                        return Err(error(ErrorKind::UnexpectedSpecialType, line));
                    },
                };
                let want = match list_type.convert() {
                    Some(t) => t,
                    None => {
                        return Err(error(ErrorKind::ConversionFailed, line));
                    },
                };
                self.parser.consume(TokenType::LEFT_BRACKET)?;
                self.expression()?;
                self.parser.consume(TokenType::RIGHT_BRACKET)?;
                if self.parser.cur.token_type == TokenType::EQ {
                    self.parser.consume(TokenType::EQ)?;
                    self.expression()?;
                    let value_type = self.last_value_type()?;
                    if value_type != want {
                        return Err(error_types(ErrorKind::MismatchedTypes, self.parser.line, Some(want), Some(value_type)));
                    }
                    let line = self.parser.line;
                    self.emit_byte(OpCode::SET_LIST_FIELD(pos), line)?;
                    return Ok(());
                }
                let line = self.parser.line;
                self.emit_byte(OpCode::GET_LIST_FIELD(pos), line)?;
                self.add_value(list_type)?;
            }
        } else if self.declaring_list {
            if pos >= self.cur_function.instances.len() {
                return Err(error(ErrorKind::IndexOutOfRange, line));
            }
            let rf_index = self.cur_function.instances[pos].rf_index;
            self.emit_byte(OpCode::PUSH_STACK(Value::InstanceRef(rf_index)), line)?;
        } else if let TokenType::KEYWORD(Keywords::INSTANCE(_)) = self.local_type_at(pos)? {
            self.emit_byte(OpCode::GET_INSTANCE_RF(pos), line)?;
        }
        let line = self.parser.line;
        let local_type = self.local_type_at(pos)?;
        if self.changing_fn {
            if let TokenType::KEYWORD(Keywords::INSTANCE(_)) = local_type {
                self.emit_byte(OpCode::INC_RC(pos), line)?;
            }
        }
        match local_type {
            TokenType::INT | TokenType::FLOAT | TokenType::BOOL | TokenType::STRING => {
                match Self::type_placeholder(local_type) {
                    Some(v) => {
                        self.add_value(v)?;
                    },
                    None => {
                        return Err(error(ErrorKind::Internal, line));
                    },
                }
            },
            TokenType::KEYWORD(Keywords::INSTANCE(_)) => {
                return Ok(());
            },
            t => {
                return Err(error_types(ErrorKind::UnexpectedLocalType, line, None, Some(t)));
            },
        }
        self.emit_byte(OpCode::VAR_CALL(pos), line)
    }

    /// Compiles a field read, a field assignment or a method call on the instance just
    /// consumed.
    #[verifier::rlimit(60)]
    #[verifier::spinoff_prover]
    pub fn instance_call(&mut self) -> (r: Result<(), CompileError>)
        requires
            old(self).wf(),
        ensures
            r is Ok ==> advanced(*old(self), *final(self)),
            r is Ok ==> final(self).cur_function.chunk.code@.len() > old(self).cur_function.chunk.code@.len() && {
                let op = final(self).cur_function.chunk.code@.last().op;
                let (locals, name) = (old(self).cur_function.locals@, old(self).parser.prev.value@);
                ||| op is METHOD_CALL
                ||| op matches OpCode::GET_INSTANCE_FIELD(p, _) && first_local(locals, name, p as int)
                ||| op matches OpCode::SET_INSTANCE_FIELD(p, _) && first_local(locals, name, p as int)
            },
            field_read_ahead(*old(self)) ==> r is Ok && final(self).parser.index == old(self).parser.index + 2
                && final(self).cur_function.chunk.code@.len() == old(self).cur_function.chunk.code@.len() + 1
                && final(self).cur_function.chunk.code@.last().op is GET_INSTANCE_FIELD,
            r is Ok ==> old(self).parser.index < old(self).parser.tokens@.len(),
            r is Ok ==> ({
                let op = final(self).cur_function.chunk.code@.last().op;
                let field = old(self).parser.tokens@[old(self).parser.index as int].value@;
                op matches OpCode::GET_INSTANCE_FIELD(p, f) ==> exists|s: int| #[trigger] instance_struct(*old(self), p as int, s)
                    && first_local(old(self).structs@[s].locals@, field, f as int)
            }),
            r is Ok ==> {
                let op = final(self).cur_function.chunk.code@.last().op;
                let field = old(self).parser.tokens@[old(self).parser.index as int].value@;
                op matches OpCode::SET_INSTANCE_FIELD(p, f) ==> (exists|s: int| #[trigger] instance_struct(*old(self), p as int, s)
                    && first_local(old(self).structs@[s].locals@, field, f as int)) && field_assign_checked(
                    *old(self),
                    *final(self),
                    p as int,
                    f as int,
                )
            },
            field_missing_ahead(*old(self)) ==> (r matches Err(e) && e.kind == ErrorKind::FieldNotDeclared),
        decreases old(self).fuel(), 2int,
    {
        let name = self.parser.prev.value.clone();
        self.parser.consume(TokenType::DOT)?;
        let instance_pos = self.get_local_pos(&name)?;
        self.parser.consume(TokenType::IDENTIFIER)?;
        let field_name = self.parser.prev.value.clone();
        assert(field_name@ == old(self).parser.tokens@[old(self).parser.index as int].value@);
        let root = match self.local_type_at(instance_pos)? {
            TokenType::KEYWORD(Keywords::INSTANCE(root)) => root,
            _ => {
                return Err(error_named(ErrorKind::ExpectedInstance, self.parser.line, name));
            },
        };
        let root_struct_name = self.symbol_name(root)?;
        let si = self.struct_index(root_struct_name.as_slice())?;
        if self.parser.cur.token_type == TokenType::LEFT_PAREN {
            let mi = match self.structs[si].find_method(&field_name) {
                Some(mi) => mi,
                None => {
                    return Err(error_named(ErrorKind::MethodNotDeclared, self.parser.line, field_name));
                },
            };
            let output_type = self.structs[si].methods[mi].function.output_type;
            let arg_count = self.structs[si].methods[mi].function.arg_count;
            let is_self = self.structs[si].methods[mi].function.is_self_arg;
            self.mth_call(output_type, arg_count, &name, is_self)?;
            let line = self.parser.line;
            return self.emit_byte(OpCode::METHOD_CALL(root, mi), line);
        }
        let mut field_index: usize = 0;
        let mut found = false;
        while field_index < self.structs[si].locals.len()
            invariant_except_break
                !found,
                forall|f: int| 0 <= f < field_index ==> (#[trigger] self.structs@[si as int].locals@[f]).name@ != field_name@,
            invariant
                si < self.structs@.len(),
                field_index <= self.structs@[si as int].locals@.len(),
            ensures
                found ==> field_index < self.structs@[si as int].locals@.len() && self.structs@[si as int].locals@[field_index as int].name@
                    == field_name@,
                forall|f: int| 0 <= f < field_index ==> (#[trigger] self.structs@[si as int].locals@[f]).name@ != field_name@,
                !found ==> forall|f: int| 0 <= f < self.structs@[si as int].locals@.len() ==> (#[trigger] self.structs@[si
                    as int].locals@[f]).name@ != field_name@,
            decreases self.structs@[si as int].locals@.len() - field_index,
        {
            if chars_equal(self.structs[si].locals[field_index].name.as_slice(), field_name.as_slice()) {
                found = true;
                break;
            }
            field_index = field_index + 1;
        }
        proof {
            assert(self.structs == old(self).structs);
            assert(instance_struct(*old(self), instance_pos as int, si as int));
            if field_missing_ahead(*old(self)) {
                let (p, s) = choose|p: int, s: int| first_local(old(self).cur_function.locals@, old(self).parser.prev.value@, p)
                    && #[trigger] instance_struct(*old(self), p, s) && forall|f: int| 0 <= f < old(self).structs@[s].locals@.len()
                    ==> (#[trigger] old(self).structs@[s].locals@[f]).name@ != old(self).parser.tokens@[old(self).parser.index as int].value@;
                assert(p == instance_pos as int);
                assert(s == si as int);
                assert(!found);
            }
        }
        if !found {
            return Err(error_named(ErrorKind::FieldNotDeclared, self.parser.line, field_name));
        }
        assert(first_local(old(self).structs@[si as int].locals@, field_name@, field_index as int));
        if self.parser.cur.token_type == TokenType::EQ {
            self.parser.consume(TokenType::EQ)?;
            self.expression()?;
            let si = self.struct_index(root_struct_name.as_slice())?;
            if field_index >= self.structs[si].locals.len() {
                return Err(error(ErrorKind::IndexOutOfRange, self.parser.line));
            }
            let field_type = self.structs[si].locals[field_index].local_type;
            let value_type = self.last_value_type()?;
            if value_type != field_type {
                return Err(error_types(ErrorKind::MismatchedTypes, self.parser.line, Some(field_type), Some(value_type)));
            }
            let line = self.parser.line;
            let r = self.emit_byte(OpCode::SET_INSTANCE_FIELD(instance_pos, field_index), line);
            proof {
                assert(first_struct(self.structs@, old(self).parser.symbols@[root as int].name@, si as int));
                assert(field_assign_checked(*old(self), *self, instance_pos as int, field_index as int));
            }
            r
        } else {
            if field_index >= self.structs[si].locals.len() {
                return Err(error(ErrorKind::IndexOutOfRange, self.parser.line));
            }
            let field_type = self.structs[si].locals[field_index].local_type;
            if let Some(v) = Self::type_placeholder(field_type) {
                self.add_value(v)?;
            }
            let line = self.parser.line;
            let r = self.emit_byte(OpCode::GET_INSTANCE_FIELD(instance_pos, field_index), line);
            assert(instance_struct(*old(self), instance_pos as int, si as int));
            r
        }
    }

    /// Compiles the arguments of a method call, after the method's name.
    pub fn mth_call(&mut self, output_type: TokenType, mth_arg_count: usize, instance_name: &Vec<char>, is_self: bool) -> (r: Result<(), CompileError>)
        requires
            old(self).wf(),
        ensures
            r is Ok ==> strictly_advanced(*old(self), *final(self)),
            ({
                let i = old(self).parser.index as int;
                let locals = old(self).cur_function.locals@;
                &&& old(self).parser.cur.token_type == TokenType::LEFT_PAREN
                &&& i + 1 < old(self).parser.tokens@.len()
                &&& old(self).parser.tokens@[i].token_type == TokenType::RIGHT_PAREN
                &&& old(self).parser.tokens@[i + 1].token_type != TokenType::ERROR
                &&& mth_arg_count == 0
                &&& (output_type == TokenType::INT || output_type == TokenType::FLOAT || output_type == TokenType::BOOL
                    || output_type == TokenType::STRING || output_type == TokenType::NULL)
                &&& old(self).cur_function.chunk.values@.len() < usize::MAX
                &&& is_self ==> old(self).scope_depth != 0 && exists|j: int| 0 <= j < locals.len() && (#[trigger] locals[j]).name@
                    == instance_name@
            }) ==> {
                &&& r is Ok
                &&& final(self).parser.index == old(self).parser.index + 2
                &&& final(self).cur_function.chunk.code@.len() == old(self).cur_function.chunk.code@.len() + if is_self {
                    2int
                } else {
                    0int
                }
                &&& final(self).cur_function.chunk.values@.len() == old(self).cur_function.chunk.values@.len() + 1
                &&& final(self).cur_function.chunk.values@.last().type_of() == Some(output_type)
            },
        decreases old(self).fuel(), 2int,
    {
        self.parser.consume(TokenType::LEFT_PAREN)?;
        let line = self.parser.line;
        if is_self {
            let pos = self.get_local_pos(instance_name)?;
            self.emit_byte(OpCode::GET_INSTANCE_RF(pos), line)?;
            self.emit_byte(OpCode::INC_RC(pos), line)?;
        }
        let mut arg_count: usize = 0;
        self.changing_fn = true;
        let ghost before_args = *self;
        while self.parser.cur.token_type != TokenType::RIGHT_PAREN
            invariant
                strictly_advanced(*old(self), *self),
                arg_count <= self.parser.index - old(self).parser.index,
                (old(self).parser.cur.token_type == TokenType::LEFT_PAREN && old(self).parser.index < old(self).parser.tokens@.len()
                    && old(self).parser.tokens@[old(self).parser.index as int].token_type == TokenType::RIGHT_PAREN)
                    ==> *self == before_args && arg_count == 0 && before_args.parser.cur.token_type == TokenType::RIGHT_PAREN,
            decreases self.fuel(),
        {
            if arg_count == usize::MAX {
                return Err(error(ErrorKind::Overflow, self.parser.line));
            }
            arg_count = arg_count + 1;
            self.expression()?;
            if self.parser.cur.token_type == TokenType::COMMA {
                self.parser.consume(TokenType::COMMA)?;
            }
        }
        self.parser.consume(TokenType::RIGHT_PAREN)?;
        self.changing_fn = false;
        if arg_count != mth_arg_count {
            return Err(error_counts(ErrorKind::ArgumentCount, self.parser.line, mth_arg_count, arg_count));
        }
        match Self::type_placeholder(output_type) {
            Some(v) => {
                self.add_value(v)?;
                Ok(())
            },
            None => Err(error_types(ErrorKind::UnexpectedOutputType, self.parser.line, None, Some(output_type))),
        }
    }
}

} // verus!

verus! {

/// `code` holds a loop from `start`: a conditional exit at `e`, which lands just past the
/// jump back at `k`, and the jump back at `k`, which lands at `start`.
pub open spec fn loop_at(code: Seq<Instruction>, start: int, e: int, k: int) -> bool {
    &&& 0 <= start <= e < k < code.len()
    &&& code[e].op matches OpCode::IF_STMT_OFFSET(o) && e + 1 + o == k + 1
    &&& code[k].op matches OpCode::LOOP(o) && k + 1 - o == start
}

/// `code` holds a branch: a conditional jump at `j`, which lands just past the jump at
/// `x`, and the jump at `x`, which lands at `end`.
pub open spec fn branch_at(code: Seq<Instruction>, j: int, x: int, end: int) -> bool {
    &&& 0 <= j < x < code.len()
    &&& code[j].op matches OpCode::IF_STMT_OFFSET(o) && j + 1 + o == x + 1
    &&& code[x].op matches OpCode::JUMP(o) && x + 1 + o == end
}

impl Compiler {
    fn set_symbol_arg_count(&mut self, pos: usize, count: usize) -> (r: Result<(), CompileError>)
        ensures
            r is Ok <==> pos < old(self).parser.symbols@.len(),
            r is Ok ==> final(self).parser.symbols@.len() == old(self).parser.symbols@.len() && final(self).parser.symbols@[pos as int].arg_count == count
                && final(self).parser.symbols@[pos as int].name == old(self).parser.symbols@[pos as int].name
                && final(self).parser.symbols@[pos as int].symbol_type == old(self).parser.symbols@[pos as int].symbol_type
                && final(self).parser.symbols@[pos as int].output_type == old(self).parser.symbols@[pos as int].output_type
                && forall|j: int| 0 <= j < old(self).parser.symbols@.len() && j != pos ==> final(self).parser.symbols@[j] == old(self).parser.symbols@[j],
            r is Err ==> final(self).parser.symbols == old(self).parser.symbols,
            final(self).parser.tokens == old(self).parser.tokens,
            final(self).parser.index == old(self).parser.index,
            final(self).cur_function == old(self).cur_function,
            final(self).scope_depth == old(self).scope_depth,
            final(self).structs == old(self).structs,
            final(self).parser.cur == old(self).parser.cur,
            final(self).parser.prev == old(self).parser.prev,
            final(self).parser.line == old(self).parser.line,
    {
        if pos >= self.parser.symbols.len() {
            return Err(error(ErrorKind::IndexOutOfRange, self.parser.line));
        }
        self.parser.symbols[pos].arg_count = count;
        Ok(())
    }

    fn set_symbol_output_type(&mut self, pos: usize, t: TokenType) -> (r: Result<(), CompileError>)
        ensures
            r is Ok <==> pos < old(self).parser.symbols@.len(),
            r is Ok ==> final(self).parser.symbols@.len() == old(self).parser.symbols@.len() && final(self).parser.symbols@[pos as int].output_type == t
                && final(self).parser.symbols@[pos as int].name == old(self).parser.symbols@[pos as int].name
                && final(self).parser.symbols@[pos as int].symbol_type == old(self).parser.symbols@[pos as int].symbol_type
                && final(self).parser.symbols@[pos as int].arg_count == old(self).parser.symbols@[pos as int].arg_count
                && forall|j: int| 0 <= j < old(self).parser.symbols@.len() && j != pos ==> final(self).parser.symbols@[j] == old(self).parser.symbols@[j],
            r is Err ==> final(self).parser.symbols == old(self).parser.symbols,
            final(self).parser.tokens == old(self).parser.tokens,
            final(self).parser.index == old(self).parser.index,
            final(self).cur_function == old(self).cur_function,
            final(self).scope_depth == old(self).scope_depth,
    {
        if pos >= self.parser.symbols.len() {
            return Err(error(ErrorKind::IndexOutOfRange, self.parser.line));
        }
        self.parser.symbols[pos].output_type = t;
        Ok(())
    }

    /// The static type that a type keyword names; a conversion error for another keyword.
    fn keyword_type(&self, k: Keywords) -> (r: Result<TokenType, CompileError>)
        ensures
            r matches Ok(t) ==> k.spec_convert() == Some(t),
            r is Ok <==> k.spec_convert() is Some,
    {
        match k.convert() {
            Some(t) => Ok(t),
            None => Err(error_types(ErrorKind::ConversionFailed, self.parser.line, None, Some(TokenType::KEYWORD(k)))),
        }
    }

    /// Checks that the held symbol, where it is a function, returns a boolean.
    fn check_held_bool(&self) -> (r: Result<(), CompileError>)
        ensures
            r is Ok <==> self.parser.symbols@.len() <= 1 || (self.symbol_to_hold < self.parser.symbols@.len() && !(
            self.parser.symbols@[self.symbol_to_hold as int].symbol_type == TokenType::KEYWORD(Keywords::FN)
                && self.parser.symbols@[self.symbol_to_hold as int].output_type != TokenType::BOOL)),
    {
        if self.parser.symbols.len() > 1 {
            let hold = self.symbol_to_hold;
            if hold >= self.parser.symbols.len() {
                return Err(error(ErrorKind::IndexOutOfRange, self.parser.line));
            }
            if self.parser.symbols[hold].symbol_type == TokenType::KEYWORD(Keywords::FN)
                && self.parser.symbols[hold].output_type != TokenType::BOOL {
                return Err(error_types(
                    ErrorKind::MismatchedTypes,
                    self.parser.line,
                    Some(TokenType::BOOL),
                    Some(self.parser.symbols[hold].output_type),
                ));
            }
        }
        Ok(())
    }

    /// Emits one `POP` and forgets one local, `count` times.
    fn pop_locals(&mut self, count: usize) -> (r: Result<(), CompileError>)
        ensures
            final(self).parser == old(self).parser,
            final(self).cur_function.arg_count == old(self).cur_function.arg_count,
            final(self).cur_function.name == old(self).cur_function.name,
            final(self).scope_depth == old(self).scope_depth,
            final(self).cur_function.instances == old(self).cur_function.instances,
            final(self).cur_function.chunk.values == old(self).cur_function.chunk.values,
            final(self).loop_info == old(self).loop_info,
            r is Ok <==> count == 0 || old(self).scope_depth != 0,
            r is Ok ==> final(self).cur_function.chunk.code@ == old(self).cur_function.chunk.code@ + Seq::new(
                count as nat,
                |i: int| Instruction { op: OpCode::POP, line: old(self).parser.line },
            ),
            r is Ok ==> final(self).cur_function.locals@ == old(self).cur_function.locals@.subrange(
                0,
                if count <= old(self).cur_function.locals@.len() { old(self).cur_function.locals@.len() - count } else { 0 },
            ),
            r is Ok ==> extends(old(self).cur_function.chunk.code@, final(self).cur_function.chunk.code@),
            r is Ok ==> (jumps_inside(old(self).cur_function.chunk.code@) ==> jumps_inside(final(self).cur_function.chunk.code@)),
    {
        let mut k: usize = 0;
        if count > 0 && self.scope_depth == 0 {
            let line = self.parser.line;
            return self.emit_byte(OpCode::POP, line);
        }
        while k < count
            invariant
                self.parser == old(self).parser,
                self.cur_function.arg_count == old(self).cur_function.arg_count,
                self.cur_function.name == old(self).cur_function.name,
                k <= count,
                self.cur_function.instances == old(self).cur_function.instances,
                self.cur_function.chunk.values == old(self).cur_function.chunk.values,
                self.loop_info == old(self).loop_info,
                count > 0 ==> self.scope_depth != 0,
                self.scope_depth == old(self).scope_depth,
                self.cur_function.chunk.code@ == old(self).cur_function.chunk.code@ + Seq::new(
                    k as nat,
                    |i: int| Instruction { op: OpCode::POP, line: old(self).parser.line },
                ),
                self.cur_function.locals@ == old(self).cur_function.locals@.subrange(
                    0,
                    if k <= old(self).cur_function.locals@.len() { old(self).cur_function.locals@.len() - k } else { 0 },
                ),
                extends(old(self).cur_function.chunk.code@, self.cur_function.chunk.code@),
                jumps_inside(old(self).cur_function.chunk.code@) ==> jumps_inside(self.cur_function.chunk.code@),
            decreases count - k,
        {
            let line = self.parser.line;
            let ghost before = self.cur_function.chunk.code@;
            self.emit_byte(OpCode::POP, line)?;
            let ghost locals_before = self.cur_function.locals@;
            self.cur_function.locals.pop();
            proof {
                assert(self.cur_function.chunk.code@ =~= old(self).cur_function.chunk.code@ + Seq::new(
                    (k + 1) as nat,
                    |i: int| Instruction { op: OpCode::POP, line: old(self).parser.line },
                ));
                assert(self.cur_function.locals@ =~= old(self).cur_function.locals@.subrange(
                    0,
                    if k + 1 <= old(self).cur_function.locals@.len() { old(self).cur_function.locals@.len() - (k + 1) } else { 0 },
                ));
            }
            k = k + 1;
        }
        Ok(())
    }

    /// Compiles a list declaration after `List<`: its element type, `>`, `=`, and the
    /// elements between `[` and `]`, each of the element type.
    pub fn list_dec(&mut self, name: Vec<char>) -> (r: Result<(), CompileError>)
        requires
            old(self).wf(),
        ensures
            r is Ok ==> strictly_advanced(*old(self), *final(self)),
            r is Ok ==> final(self).cur_function.instances@.len() > 0 && final(self).cur_function.instances@.last().name@
                == name@,
            empty_list_ahead(*old(self)) ==> {
                &&& r is Ok
                &&& final(self).parser.index == old(self).parser.index + 5
                &&& final(self).cur_function.locals == old(self).cur_function.locals
                &&& final(self).cur_function.chunk.code@.len() == old(self).cur_function.chunk.code@.len() + 1
                &&& final(self).cur_function.chunk.code@.last().op matches OpCode::INSTANCE_DEC(_, n)
                &&& n == 0
                &&& final(self).cur_function.instances@.len() == old(self).cur_function.instances@.len() + 1
                &&& final(self).parser.symbols@.len() == old(self).parser.symbols@.len() + 1
            },
        decreases old(self).fuel(), 2int,
    {
        let list_type_token = self.parser.cur.duplicate();
        let list_type = match self.parser.cur.token_type {
            TokenType::KEYWORD(keyword) => self.keyword_type(keyword)?,
            TokenType::IDENTIFIER => {
                let struct_pos = self.get_struct_symbol_pos(self.parser.cur.value.as_slice())?;
                TokenType::STRUCT(struct_pos)
            },
            t => t,
        };
        self.parser.advance()?;
        self.parser.consume(TokenType::GREATER)?;
        self.parser.consume(TokenType::EQ)?;
        assert(NAME_LIST@ =~= seq!['L', 'i', 's', 't']);
        let pos = self.get_struct_symbol_pos(&NAME_LIST)?;
        let list_obj = StructInstance::new();
        let mut field_count: usize = 0;
        self.declaring_list = true;
        self.parser.consume(TokenType::LEFT_BRACKET)?;
        let ghost before_items = *self;
        while self.parser.cur.token_type != TokenType::RIGHT_BRACKET
            invariant
                strictly_advanced(*old(self), *self),
                empty_list_ahead(*old(self)) ==> *self == before_items && field_count == 0,
                empty_list_ahead(*old(self)) ==> before_items.parser.cur.token_type == TokenType::RIGHT_BRACKET,
            decreases self.fuel(),
        {
            self.expression()?;
            let value_type = self.last_value_type()?;
            if value_type != list_type {
                return Err(error_types(ErrorKind::MismatchedTypes, self.parser.line, Some(list_type), Some(value_type)));
            }
            if self.parser.cur.token_type == TokenType::COMMA {
                self.parser.consume(TokenType::COMMA)?;
            }
            if field_count == usize::MAX {
                return Err(error(ErrorKind::Overflow, self.parser.line));
            }
            field_count = field_count + 1;
        }
        self.parser.consume(TokenType::RIGHT_BRACKET)?;
        self.declaring_list = false;
        let len = self.parser.symbols.len();
        let line = self.parser.line;
        self.emit_byte(OpCode::INSTANCE_DEC(list_obj, field_count), line)?;
        let list_type_value = self.get_list_type_value(&list_type_token)?;
        self.cur_function.instances.push(new_local(
            name,
            TokenType::KEYWORD(Keywords::INSTANCE(pos)),
            0,
            len,
            SpecialType::List(list_type_value),
        ));
        self.parser.symbols.push(Symbol {
            name: Vec::new(),
            symbol_type: TokenType::KEYWORD(Keywords::INSTANCE(pos)),
            output_type: list_type,
            arg_count: 0,
        });
        Ok(())
    }

    /// Compiles the value of a struct variable named `name` of struct symbol `var_pos`:
    /// a list, a string, a call, another instance, or fields between braces.
    pub fn instance_declare(&mut self, var_pos: usize, name: Vec<char>) -> (r: Result<(), CompileError>)
        requires
            old(self).wf(),
        ensures
            r is Ok ==> advanced(*old(self), *final(self)),
            r is Ok ==> (final(self).cur_function.locals@.len() > 0 && final(self).cur_function.locals@.last().name@
                == name@) || (final(self).cur_function.instances@.len() > 0
                && final(self).cur_function.instances@.last().name@ == name@),
            r is Ok && old(self).parser.prev.value@ != seq!['L', 'i', 's', 't'] && old(self).parser.cur.token_type
                == TokenType::EQ && old(self).parser.index < old(self).parser.tokens@.len() && old(self).parser.tokens@[old(self).parser.index as int].token_type
                == TokenType::LEFT_BRACE ==> {
                &&& final(self).cur_function.chunk.code@.last().op matches OpCode::INSTANCE_DEC(_, n)
                &&& var_pos < final(self).parser.symbols@.len()
                &&& n == final(self).parser.symbols@[var_pos as int].arg_count
                &&& final(self).cur_function.locals@.last().name@ == name@
                &&& final(self).cur_function.locals@.last().local_type == TokenType::KEYWORD(Keywords::INSTANCE(var_pos))
            },
            empty_fields_miscounted(*old(self), var_pos) ==> (r matches Err(e) && e.kind == ErrorKind::FieldCount),
            bool_fields_ahead(*old(self), var_pos) ==> {
                let n = bool_list_count(old(self).parser.tokens@, old(self).parser.index + 2, TokenType::RIGHT_BRACE).unwrap();
                let fields = first_struct_fields(old(self).structs@, old(self).parser.symbols@[var_pos as int].name@).unwrap();
                &&& r is Ok <==> n <= fields.len() && n == old(self).parser.symbols@[var_pos as int].arg_count
                &&& r matches Err(e) ==> e.kind == ErrorKind::FieldCount
            },
            list_declaration_ahead(*old(self)) ==> {
                &&& r is Ok
                &&& final(self).parser.index == old(self).parser.index + 6
                &&& final(self).cur_function.chunk.code@.len() == old(self).cur_function.chunk.code@.len() + 1
                &&& final(self).cur_function.locals == old(self).cur_function.locals
                &&& final(self).cur_function.instances@.len() == old(self).cur_function.instances@.len() + 1
                &&& final(self).cur_function.instances@.last().name@ == name@
            },
        decreases old(self).fuel(), 2int,
    {
        assert(NAME_LIST@ =~= seq!['L', 'i', 's', 't']);
        if chars_equal(self.parser.prev.value.as_slice(), &NAME_LIST) {
            self.parser.consume(TokenType::LESS)?;
            return self.list_dec(name);
        }
        if self.parser.cur.token_type != TokenType::EQ {
            return Err(error(ErrorKind::StructLeftUndeclared, self.parser.line));
        }
        self.parser.consume(TokenType::EQ)?;
        if self.parser.cur.token_type != TokenType::LEFT_BRACE {
            if self.parser.cur.token_type == TokenType::STRING {
                self.expression()?;
                let last = self.last_value()?;
                match last {
                    Value::String(_) => {},
                    v => {
                        return Err(error_types(ErrorKind::MismatchedTypes, self.parser.line, Some(TokenType::STRING), v.convert()));
                    },
                }
                self.cur_function.locals.push(new_local(
                    name,
                    TokenType::KEYWORD(Keywords::INSTANCE(var_pos)),
                    0,
                    0,
                    SpecialType::String,
                ));
                return Ok(());
            }
            if self.parser.cur.token_type != TokenType::IDENTIFIER {
                return Err(error(ErrorKind::ExpectedInstance, self.parser.line));
            }
            let value = self.parser.cur.value.clone();
            let found = find_symbol(&self.parser.symbols, value.as_slice(), false);
            self.parser.consume(TokenType::IDENTIFIER)?;
            if let Some(pos) = found {
                let output_symbol_pos = match self.parser.symbols[pos].output_type {
                    TokenType::STRUCT(root_pos) => root_pos,
                    TokenType::STRING => self.get_struct_symbol_pos(&NAME_STRING)?,
                    _ => {
                        return Err(error(ErrorKind::Internal, self.parser.line));
                    },
                };
                self.symbol_to_hold = pos;
                self.parser.consume(TokenType::LEFT_PAREN)?;
                if output_symbol_pos != var_pos {
                    let found_name = self.symbol_name(output_symbol_pos)?;
                    return Err(error_named(ErrorKind::MismatchedTypes, self.parser.line, found_name));
                }
                self.fn_call()?;
                if pos >= self.parser.symbols.len() {
                    return Err(error(ErrorKind::IndexOutOfRange, self.parser.line));
                }
                if chars_equal(value.as_slice(), &NAME_INPUT) || self.parser.symbols[pos].output_type == TokenType::STRING {
                    let spos = self.get_struct_symbol_pos(&NAME_STRING)?;
                    self.cur_function.locals.push(new_local(
                        name,
                        TokenType::KEYWORD(Keywords::INSTANCE(spos)),
                        0,
                        0,
                        SpecialType::String,
                    ));
                    let instance_obj = StructInstance::new();
                    let line = self.parser.line;
                    return self.emit_byte(OpCode::STRING_DEC_VALUE(instance_obj), line);
                }
                self.cur_function.locals.push(new_local(
                    name,
                    TokenType::KEYWORD(Keywords::INSTANCE(output_symbol_pos)),
                    0,
                    0,
                    SpecialType::Null,
                ));
                return Ok(());
            }
            let pos = self.get_local_pos(&value)?;
            let local_type = self.cur_function.locals[pos].local_type;
            let is_special = self.cur_function.locals[pos].is_special.copy();
            self.cur_function.locals.push(new_local(name, local_type, pos, 0, is_special));
            let line = self.parser.line;
            self.emit_byte(OpCode::GET_INSTANCE_RF(pos), line)?;
            return self.emit_byte(OpCode::INC_RC(pos), line);
        }
        self.parser.consume(TokenType::LEFT_BRACE)?;
        let mut field_counts: usize = 0;
        let root_struct_name = self.symbol_name(var_pos)?;
        let ghost before_fields = *self;
        while self.parser.cur.token_type != TokenType::RIGHT_BRACE
            invariant
                advanced(*old(self), *self),
                !list_declaration_ahead(*old(self)),
                empty_fields_miscounted(*old(self), var_pos) ==> *self == before_fields && field_counts == 0
                    && before_fields.parser.cur.token_type == TokenType::RIGHT_BRACE,
                bool_fields_ahead(*old(self), var_pos) ==> {
                    let t = self.parser.tokens@;
                    let i = self.parser.index as int;
                    let n = bool_list_count(old(self).parser.tokens@, old(self).parser.index + 2, TokenType::RIGHT_BRACE).unwrap();
                    let fields = first_struct_fields(old(self).structs@, old(self).parser.symbols@[var_pos as int].name@).unwrap();
                    &&& self.parser.tokens == old(self).parser.tokens
                    &&& self.scope_depth == old(self).scope_depth
                    &&& self.parser.symbols == old(self).parser.symbols
                    &&& self.structs == old(self).structs
                    &&& root_struct_name@ == old(self).parser.symbols@[var_pos as int].name@
                    &&& self.cur_function.chunk.values@.len() == old(self).cur_function.chunk.values@.len() + field_counts
                    &&& field_counts <= fields.len()
                    &&& self.parser.cur.token_type == TokenType::RIGHT_BRACE ==> field_counts == n && i < t.len()
                        && t[i].token_type != TokenType::ERROR
                    &&& self.parser.cur.token_type != TokenType::RIGHT_BRACE ==> bool_literal(self.parser.cur.token_type)
                        && bool_list_count(t, i, TokenType::RIGHT_BRACE) is Some
                        && field_counts + bool_list_count(t, i, TokenType::RIGHT_BRACE).unwrap() == n
                },
                before_fields.parser.symbols == old(self).parser.symbols,
                before_fields.parser.tokens == old(self).parser.tokens,
                before_fields.parser.index == old(self).parser.index + 2,
            decreases self.fuel(),
        {
            let ghost i0 = self.parser.index as int;
            proof {
                if bool_fields_ahead(*old(self), var_pos) {
                    assert(spec_rule(self.parser.tokens@[i0].token_type) matches Some(rl) && rl.prec.level() < 1);
                    assert(lone_bool(*self, Precedence::ASSIGNMENT));
                }
            }
            self.expression()?;
            let si = self.struct_index(root_struct_name.as_slice())?;
            proof {
                if bool_fields_ahead(*old(self), var_pos) {
                    let name = old(self).parser.symbols@[var_pos as int].name@;
                    let c = choose|c: int| first_struct(old(self).structs@, name, c);
                    lemma_first_struct_unique(old(self).structs@, name, si as int, c);
                }
            }
            if field_counts >= self.structs[si].locals.len() {
                let found = if field_counts < usize::MAX {
                    field_counts + 1
                } else {
                    field_counts
                };
                return Err(error_counts(ErrorKind::FieldCount, self.parser.line, self.structs[si].locals.len(), found));
            }
            let field_type = self.structs[si].locals[field_counts].local_type;
            let value_type = self.last_value_type()?;
            if value_type != field_type {
                return Err(error_types(ErrorKind::MismatchedTypes, self.parser.line, Some(field_type), Some(value_type)));
            }
            if self.parser.cur.token_type == TokenType::COMMA {
                self.parser.consume(TokenType::COMMA)?;
                proof {
                    if bool_fields_ahead(*old(self), var_pos) {
                        assert(self.parser.index == i0 + 2);
                        assert(bool_list_count(self.parser.tokens@, i0, TokenType::RIGHT_BRACE) == match bool_list_count(
                            self.parser.tokens@,
                            i0 + 2,
                            TokenType::RIGHT_BRACE,
                        ) {
                            Some(k) => Some(k + 1),
                            None => None::<nat>,
                        });
                    }
                }
            }
            field_counts = field_counts + 1;
        }
        self.parser.consume(TokenType::RIGHT_BRACE)?;
        let instance_obj = StructInstance::new();
        if var_pos >= self.parser.symbols.len() {
            return Err(error(ErrorKind::IndexOutOfRange, self.parser.line));
        }
        if field_counts != self.parser.symbols[var_pos].arg_count {
            return Err(error_counts(ErrorKind::FieldCount, self.parser.line, self.parser.symbols[var_pos].arg_count, field_counts));
        }
        let len = self.parser.symbols.len();
        let line = self.parser.line;
        self.emit_byte(OpCode::INSTANCE_DEC(instance_obj, field_counts), line)?;
        self.cur_function.locals.push(new_local(
            name,
            TokenType::KEYWORD(Keywords::INSTANCE(var_pos)),
            0,
            len,
            SpecialType::Null,
        ));
        Ok(())
    }

    /// Whether some local of the function being compiled is named `name`.
    fn local_exists(&self, name: &Vec<char>) -> (b: bool)
        ensures
            b == exists|j: int| 0 <= j < self.cur_function.locals@.len() && (#[trigger] self.cur_function.locals@[j]).name@
                == name@,
    {
        let mut i: usize = 0;
        while i < self.cur_function.locals.len()
            invariant
                i <= self.cur_function.locals@.len(),
                forall|j: int| 0 <= j < i ==> (#[trigger] self.cur_function.locals@[j]).name@ != name@,
            decreases self.cur_function.locals@.len() - i,
        {
            if chars_equal(self.cur_function.locals[i].name.as_slice(), name.as_slice()) {
                return true;
            }
            i = i + 1;
        }
        false
    }

    /// Compiles a variable declaration after `var`: its name, `:`, its type, and its value.
    pub fn var_declare(&mut self) -> (r: Result<(), CompileError>)
        requires
            old(self).wf(),
        ensures
            r is Ok ==> strictly_advanced(*old(self), *final(self)),
            r is Ok ==> (final(self).cur_function.locals@.len() > 0 && final(self).cur_function.locals@.last().name@
                == old(self).parser.cur.value@) || (final(self).cur_function.instances@.len() > 0
                && final(self).cur_function.instances@.last().name@ == old(self).parser.cur.value@),
            r is Ok ==> !exists|j: int| 0 <= j < old(self).cur_function.locals@.len()
                && (#[trigger] old(self).cur_function.locals@[j]).name@ == old(self).parser.cur.value@,
            plain_declaration_ahead(*old(self)) ==> {
                let t = old(self).parser.tokens@[old(self).parser.index + 1].token_type;
                &&& r is Ok
                &&& final(self).parser.index == old(self).parser.index + 3
                &&& final(self).cur_function.locals@.len() == old(self).cur_function.locals@.len() + 1
                &&& final(self).cur_function.locals@.last().name@ == old(self).parser.cur.value@
                &&& (t matches TokenType::KEYWORD(k) && k.spec_convert() == Some(
                    final(self).cur_function.locals@.last().local_type,
                ))
                &&& final(self).cur_function.chunk.code@.len() == old(self).cur_function.chunk.code@.len() + 1
                &&& final(self).cur_function.chunk.code@.last().op == OpCode::CONSTANT_NULL(
                    old(self).cur_function.chunk.values@.len() as usize,
                )
            },
        decreases old(self).fuel(), 2int,
    {
        self.parser.consume(TokenType::IDENTIFIER)?;
        let var_name = self.parser.prev.value.clone();
        if self.local_exists(&var_name) {
            return Err(error_named(ErrorKind::SymbolRedefined, self.parser.line, var_name));
        }
        self.parser.consume(TokenType::COLON)?;
        let var_type = match self.parser.cur.token_type {
            TokenType::IDENTIFIER | TokenType::KEYWORD(Keywords::STRING) => {
                let pos = self.get_struct_symbol_pos(self.parser.cur.value.as_slice())?;
                TokenType::STRUCT(pos)
            },
            TokenType::KEYWORD(Keywords::INT) | TokenType::KEYWORD(Keywords::FLOAT) | TokenType::KEYWORD(
                Keywords::BOOL,
            ) => match self.parser.cur.token_type {
                TokenType::KEYWORD(k) => self.keyword_type(k)?,
                _ => {
                    return Err(error(ErrorKind::Internal, self.parser.line));
                },
            },
            _ => {
                return Err(error(ErrorKind::ExpectedType, self.parser.line));
            },
        };
        self.parser.advance()?;
        if let TokenType::STRUCT(pos) = var_type {
            return self.instance_declare(pos, var_name);
        }
        if self.parser.cur.token_type == TokenType::EQ {
            self.parser.advance()?;
            self.expression()?;
            let value_type = self.last_value_type()?;
            if value_type != var_type {
                return Err(error_types(ErrorKind::MismatchedTypes, self.parser.line, Some(var_type), Some(value_type)));
            }
        } else {
            let pos = self.add_value(Value::Null)?;
            let line = self.parser.line;
            self.emit_byte(OpCode::CONSTANT_NULL(pos), line)?;
        }
        self.cur_function.locals.push(new_local(var_name, var_type, 0, 0, SpecialType::Null));
        Ok(())
    }

    /// Compiles a struct declaration after `struct`: its name, its fields, and its methods.
    pub fn struct_declare(&mut self) -> (r: Result<(), CompileError>)
        requires
            old(self).wf(),
        ensures
            r is Ok ==> old(self).scope_depth == 0,
            r is Ok ==> strictly_advanced(*old(self), *final(self)),
            empty_struct_ahead(*old(self)) ==> {
                &&& r is Ok
                &&& final(self).parser.index == old(self).parser.index + 3
                &&& final(self).scope_depth == 0
                &&& final(self).cur_function.chunk.code@.len() == old(self).cur_function.chunk.code@.len() + 1
                &&& final(self).cur_function.chunk.code@.last().op is STRUCT_DEC
                &&& exists|k: int| 0 <= k < final(self).structs@.len() && (#[trigger] final(self).structs@[k]).name@
                    == old(self).parser.cur.value@ && final(self).structs@[k].field_count == final(self).structs@[k].locals@.len()
            },
        decreases old(self).fuel(), 2int,
    {
        self.parser.consume(TokenType::IDENTIFIER)?;
        let name = self.parser.prev.value.clone();
        if self.scope_depth != 0 {
            return Err(error_named(ErrorKind::DeclarationInsideBounds, self.parser.line, name));
        }
        let mut struct_obj = Struct::new(name.clone());
        self.scope_depth = 1;
        self.parser.consume(TokenType::LEFT_BRACE)?;
        let ghost before_fields = *self;
        while self.parser.cur.token_type != TokenType::RIGHT_BRACE && self.parser.cur.token_type != TokenType::KEYWORD(
            Keywords::METHODS,
        )
            invariant
                strictly_advanced(*old(self), *self),
                empty_struct_ahead(*old(self)) ==> *self == before_fields,
                empty_struct_ahead(*old(self)) ==> before_fields.parser.cur.token_type == TokenType::RIGHT_BRACE,
                name@ == old(self).parser.cur.value@,
                struct_obj.name@ == name@,
            decreases self.fuel(),
        {
            self.parser.consume(TokenType::IDENTIFIER)?;
            let field_name = self.parser.prev.value.clone();
            self.parser.consume(TokenType::COLON)?;
            let field_type = match self.parser.cur.token_type {
                TokenType::KEYWORD(keyword) => self.keyword_type(keyword)?,
                _ => {
                    return Err(error(ErrorKind::ExpectedType, self.parser.line));
                },
            };
            self.parser.advance()?;
            self.parser.consume(TokenType::COMMA)?;
            struct_obj.locals.push(new_local(field_name, field_type, 0, 0, SpecialType::Null));
        }
        let ghost mut placed: int = 0;
        match self.find_struct(name.as_slice()) {
            Some(i) => {
                self.structs.set(i, struct_obj);
                proof {
                    placed = i as int;
                }
            },
            None => {
                self.structs.push(struct_obj);
                proof {
                    placed = self.structs@.len() - 1;
                }
            },
        }
        assert(0 <= placed < self.structs@.len() && self.structs@[placed].name@ == name@);
        if self.parser.cur.token_type == TokenType::KEYWORD(Keywords::METHODS) {
            self.parser.advance()?;
            self.mth_stmt(&name)?;
        }
        self.parser.consume(TokenType::RIGHT_BRACE)?;
        let si = self.struct_index(name.as_slice())?;
        let locals_len = self.structs[si].locals.len();
        self.structs[si].field_count = locals_len;
        assert(self.structs@[si as int].field_count == self.structs@[si as int].locals@.len()
            && self.structs@[si as int].name@ == name@);
        let pos = self.get_struct_symbol_pos(name.as_slice())?;
        self.set_symbol_arg_count(pos, locals_len)?;
        let line = self.parser.line;
        self.emit_byte(OpCode::STRUCT_DEC(Struct::new(name)), line)?;
        assert(self.structs@[si as int].field_count == self.structs@[si as int].locals@.len());
        assert(si < self.structs@.len() && self.structs@[si as int].name@ == old(self).parser.cur.value@);
        if self.scope_depth == 0 {
            return Err(error(ErrorKind::Internal, self.parser.line));
        }
        self.scope_depth = self.scope_depth - 1;
        assert(exists|k: int| 0 <= k < self.structs@.len() && (#[trigger] self.structs@[k]).name@ == old(self).parser.cur.value@
            && self.structs@[k].field_count == self.structs@[k].locals@.len()) by {
            assert(self.structs@[si as int].name@ == old(self).parser.cur.value@);
        }
        Ok(())
    }

    /// Compiles the methods of the struct named `struct_name`, between braces.
    pub fn mth_stmt(&mut self, struct_name: &Vec<char>) -> (r: Result<(), CompileError>)
        requires
            old(self).wf(),
        ensures
            r is Ok ==> strictly_advanced(*old(self), *final(self)),
            ({
                let i = old(self).parser.index as int;
                &&& old(self).parser.cur.token_type == TokenType::LEFT_BRACE
                &&& i + 1 < old(self).parser.tokens@.len()
                &&& old(self).parser.tokens@[i].token_type == TokenType::RIGHT_BRACE
                &&& old(self).parser.tokens@[i + 1].token_type != TokenType::ERROR
            }) ==> {
                &&& r is Ok
                &&& final(self).parser.index == old(self).parser.index + 2
                &&& final(self).parser.symbols == old(self).parser.symbols
                &&& final(self).structs == old(self).structs
                &&& final(self).cur_function == old(self).cur_function
                &&& final(self).scope_depth == old(self).scope_depth
            },
        decreases old(self).fuel(), 2int,
    {
        self.parser.consume(TokenType::LEFT_BRACE)?;
        let ghost before_methods = *self;
        while self.parser.cur.token_type != TokenType::RIGHT_BRACE
            invariant
                strictly_advanced(*old(self), *self),
                ({
                    let i = old(self).parser.index as int;
                    &&& old(self).parser.cur.token_type == TokenType::LEFT_BRACE
                    &&& i + 1 < old(self).parser.tokens@.len()
                    &&& old(self).parser.tokens@[i].token_type == TokenType::RIGHT_BRACE
                }) ==> *self == before_methods && before_methods.parser.cur.token_type == TokenType::RIGHT_BRACE,
                before_methods.structs == old(self).structs,
                before_methods.cur_function == old(self).cur_function,
                before_methods.scope_depth == old(self).scope_depth,
                before_methods.parser.index == old(self).parser.index + 1,
            decreases self.fuel(),
        {
            let name = self.parser.cur.value.clone();
            let si = self.struct_index(struct_name.as_slice())?;
            if self.structs[si].find_method(&name).is_some() {
                return Err(error_named(ErrorKind::MethodRedefined, self.parser.line, name));
            }
            let root_struct_pos = self.get_struct_symbol_pos(struct_name.as_slice())?;
            let mth = self.fn_declare(true, root_struct_pos)?;
            let si = self.struct_index(struct_name.as_slice())?;
            let err_name = name.clone();
            if !self.structs[si].add_method(Method { name, function: mth }) {
                return Err(error_named(ErrorKind::MethodRedefined, self.parser.line, err_name));
            }
        }
        self.parser.consume(TokenType::RIGHT_BRACE)
    }

    /// Compiles a function (or, where `is_mth`, a method of struct symbol `root_struct_pos`):
    /// its name, arguments, output type and body. A function is emitted as a declaration;
    /// a method is given back.
    pub fn fn_declare(&mut self, is_mth: bool, root_struct_pos: usize) -> (r: Result<Function, CompileError>)
        requires
            old(self).wf(),
        ensures
            r is Ok ==> strictly_advanced(*old(self), *final(self)),
            r matches Ok(f) ==> is_mth ==> f.chunk.code@.len() > 0 && f.chunk.code@.last().op == OpCode::END_OF_FN
                && jumps_inside(f.chunk.code@) && ends_as_function(f) && f.name@ == old(self).parser.cur.value@,
            r is Ok ==> !is_mth ==> (final(self).cur_function.chunk.code@.last().op matches OpCode::FUNCTION_DEC(g)
                && ends_as_function(g)),
            r is Ok ==> !is_mth ==> final(self).cur_function.chunk.code@.len() > 0,
            r is Ok ==> !is_mth ==> old(self).scope_depth == 0,
            r is Ok ==> final(self).scope_depth == old(self).scope_depth,
            r is Ok ==> !is_mth ==> final(self).cur_function.chunk.code@.drop_last() == old(self).cur_function.chunk.code@,
            r is Ok ==> !is_mth ==> final(self).cur_function.chunk.values == old(self).cur_function.chunk.values
                && final(self).cur_function.locals == old(self).cur_function.locals
                && final(self).cur_function.name == old(self).cur_function.name,
            r matches Ok(f) ==> !is_mth ==> f.name@.len() == 0 && f.chunk.code@.len() == 0 && f.locals@.len() == 0,
            r is Ok ==> !is_mth ==> (final(self).cur_function.chunk.code@.last().op matches OpCode::FUNCTION_DEC(g)
                && exists|p: int| 0 <= p < final(self).parser.symbols@.len() && #[trigger] symbol_matches(
                final(self).parser.symbols@[p],
                old(self).parser.cur.value@,
                false,
            ) && final(self).parser.symbols@[p].arg_count == g.arg_count && g.name@ == old(self).parser.cur.value@),
            r is Ok ==> !is_mth ==> (final(self).cur_function.chunk.code@.last().op matches OpCode::FUNCTION_DEC(g)
                && g.chunk.code@.len() > 0 && g.chunk.code@.last().op == OpCode::END_OF_FN && jumps_inside(g.chunk.code@)),
            !is_mth && bool_params_fn_ahead(*old(self)) ==> r is Ok && (final(self).cur_function.chunk.code@.last().op matches OpCode::FUNCTION_DEC(g)
                && g.arg_count == bool_params_end(old(self).parser.tokens@, old(self).parser.index + 1).unwrap().0),
            !is_mth && bool_params_fn_ahead(*old(self)) ==> (final(self).cur_function.chunk.code@.last().op matches OpCode::FUNCTION_DEC(g)
                && local_names(g.locals@) == bool_param_names(old(self).parser.tokens@, old(self).parser.index + 1)
                && forall|v: int| 0 <= v < g.locals@.len() ==> (#[trigger] g.locals@[v]).local_type == TokenType::BOOL),
            !is_mth && empty_fn_ahead(*old(self)) ==> final(self).parser.tokens == old(self).parser.tokens
                && final(self).parser.cur@ == old(self).parser.tokens@[old(self).parser.index + 4]@,
            !is_mth && empty_fn_ahead(*old(self)) ==> r is Ok && final(self).parser.index == old(self).parser.index + 5
                && final(self).scope_depth == 0 && final(self).parser.symbols@.len() == old(self).parser.symbols@.len()
                && final(self).cur_function.chunk.code@.len() == old(self).cur_function.chunk.code@.len() + 1,
            is_mth && empty_method_ahead(*old(self)) ==> (r matches Ok(f) && f.chunk.code@.len() == 3 && f.output_type
                == TokenType::NULL && f.arg_count == 0 && f.locals@.len() == 0 && f.name@ == old(self).parser.cur.value@
                && final(self).parser.index == old(self).parser.index + 5 && final(self).cur_function
                == old(self).cur_function && final(self).scope_depth == old(self).scope_depth),
        decreases old(self).fuel(), 2int,
    {
        let name = self.parser.cur.value.clone();
        if (self.scope_depth != 0 && !is_mth) || (self.scope_depth == 0 && is_mth) {
            return Err(error_named(ErrorKind::DeclarationInsideBounds, self.parser.line, name));
        }
        let mut function = Function::new(name.clone());
        self.parser.advance()?;
        self.parser.consume(TokenType::LEFT_PAREN)?;
        let ghost before_params = *self;
        let ghost fn_before = function;
        while self.parser.cur.token_type != TokenType::RIGHT_PAREN
            invariant
                strictly_advanced(*old(self), *self),
                self.cur_function == old(self).cur_function,
                self.scope_depth == old(self).scope_depth,
                function.chunk.code@.len() == 0,
                function.name@ == old(self).parser.cur.value@,
                is_mth && empty_method_ahead(*old(self)) ==> *self == before_params && function == fn_before
                    && before_params.parser.cur.token_type == TokenType::RIGHT_PAREN,
                !is_mth && empty_fn_ahead(*old(self)) ==> *self == before_params && function == fn_before
                    && before_params.parser.cur.token_type == TokenType::RIGHT_PAREN,
                before_params.parser.symbols == old(self).parser.symbols,
                name@ == old(self).parser.cur.value@,
                before_params.parser.index == old(self).parser.index + 2,
                before_params.parser.tokens == old(self).parser.tokens,
                before_params.cur_function == old(self).cur_function,
                before_params.scope_depth == old(self).scope_depth,
                function.chunk.values@.len() == 0,
                !is_mth && bool_params_fn_ahead(*old(self)) ==> {
                    let t = self.parser.tokens@;
                    let i = self.parser.index as int;
                    let (k, e) = bool_params_end(old(self).parser.tokens@, old(self).parser.index + 1).unwrap();
                    &&& self.parser.tokens == old(self).parser.tokens
                    &&& self.parser.symbols == old(self).parser.symbols
                    &&& 1 <= i <= t.len()
                    &&& self.parser.cur@ == t[i - 1]@
                    &&& function.arg_count < i
                    &&& bool_params_end(t, i - 1) == Some(((k - function.arg_count) as nat, e))
                    &&& function.arg_count <= k
                    &&& local_names(function.locals@) + bool_param_names(t, i - 1) == bool_param_names(
                        old(self).parser.tokens@,
                        old(self).parser.index + 1,
                    )
                    &&& forall|v: int| 0 <= v < function.locals@.len() ==> (#[trigger] function.locals@[v]).local_type
                        == TokenType::BOOL
                },
                fn_before.name@ == name@ && fn_before.output_type == TokenType::KEYWORD(Keywords::NULL)
                    && fn_before.arg_count == 0 && fn_before.locals@.len() == 0 && fn_before.chunk.code@.len() == 0
                    && fn_before.chunk.values@.len() == 0,
            decreases self.fuel(),
        {
            if function.arg_count == usize::MAX {
                return Err(error(ErrorKind::Overflow, self.parser.line));
            }
            proof {
                if !is_mth && bool_params_fn_ahead(*old(self)) {
                    let t = self.parser.tokens@;
                    let j = self.parser.index - 1;
                    let (k, e) = bool_params_end(old(self).parser.tokens@, old(self).parser.index + 1).unwrap();
                    assert(t[j].token_type == TokenType::IDENTIFIER);
                    if t[j + 3].token_type == TokenType::COMMA {
                        assert(bool_params_end(t, j + 4) is Some);
                        assert(t[j + 4].token_type != TokenType::ERROR);
                    } else {
                        assert(bool_params_end(t, j + 3) is Some);
                    }
                    assert(t[j + 3].token_type != TokenType::ERROR);
                    let next = if t[j + 3].token_type == TokenType::COMMA {
                        j + 4
                    } else {
                        j + 3
                    };
                    assert(bool_param_names(t, j) == seq![t[j].value@] + bool_param_names(t, next));
                }
            }
            let ghost names_before = local_names(function.locals@);
            let ghost j0 = self.parser.index - 1;
            function.arg_count = function.arg_count + 1;
            self.parser.consume(TokenType::IDENTIFIER)?;
            let arg_name = self.parser.prev.value.clone();
            if is_mth && chars_equal(arg_name.as_slice(), &NAME_SELF) {
                if function.arg_count != 1 {
                    return Err(error(ErrorKind::SelfNotFirst, self.parser.line));
                }
                function.is_self_arg = true;
                function.arg_count = function.arg_count - 1;
                if self.parser.cur.token_type == TokenType::COMMA {
                    self.parser.consume(TokenType::COMMA)?;
                }
                function.locals.push(new_local(
                    str_to_chars("self"),
                    TokenType::KEYWORD(Keywords::INSTANCE(root_struct_pos)),
                    0,
                    0,
                    SpecialType::Null,
                ));
                continue;
            }
            self.parser.consume(TokenType::COLON)?;
            let arg_type = match self.parser.cur.token_type {
                TokenType::IDENTIFIER | TokenType::KEYWORD(Keywords::STRING) => {
                    let pos = self.get_struct_symbol_pos(self.parser.cur.value.as_slice())?;
                    TokenType::KEYWORD(Keywords::INSTANCE(pos))
                },
                TokenType::KEYWORD(keyword) => self.keyword_type(keyword)?,
                _ => {
                    return Err(error(ErrorKind::ExpectedType, self.parser.line));
                },
            };
            self.parser.advance()?;
            match arg_type {
                TokenType::KEYWORD(Keywords::INSTANCE(pos)) => {
                    let struct_name = self.symbol_name(pos)?;
                    if chars_equal(struct_name.as_slice(), &NAME_STRING) {
                        function.locals.push(new_local(arg_name, arg_type, 0, 0, SpecialType::String));
                    } else if chars_equal(struct_name.as_slice(), &NAME_LIST) {
                        self.parser.consume(TokenType::LESS)?;
                        let element_token = self.parser.cur.duplicate();
                        let list_type_value = self.get_list_type_value(&element_token)?;
                        self.parser.advance()?;
                        self.parser.consume(TokenType::GREATER)?;
                        function.locals.push(new_local(arg_name, arg_type, 0, 0, SpecialType::List(list_type_value)));
                    } else {
                        function.locals.push(new_local(arg_name, arg_type, 0, 0, SpecialType::Null));
                    }
                },
                _ => {
                    function.locals.push(new_local(arg_name, arg_type, 0, 0, SpecialType::Null));
                },
            }
            proof {
                if !is_mth && bool_params_fn_ahead(*old(self)) {
                    assert(local_names(function.locals@) =~= names_before.push(self.parser.tokens@[j0].value@));
                }
            }
            if self.parser.cur.token_type == TokenType::COMMA {
                self.parser.consume(TokenType::COMMA)?;
            }
        }
        let ghost params_locals = function.locals@;
        self.parser.consume(TokenType::RIGHT_PAREN)?;
        let ghost mut sym_pos: int = 0;
        if !is_mth {
            let pos = self.get_fn_symbol_pos(&name)?;
            self.set_symbol_arg_count(pos, function.arg_count)?;
            proof {
                sym_pos = pos as int;
            }
        }
        match self.parser.cur.token_type {
            TokenType::KEYWORD(keyword) => {
                function.output_type = self.keyword_type(keyword)?;
                if !is_mth {
                    let pos = self.get_fn_symbol_pos(&name)?;
                    self.set_symbol_output_type(pos, function.output_type)?;
                }
                self.parser.consume(TokenType::KEYWORD(keyword))?;
            },
            TokenType::IDENTIFIER => {
                let val = self.parser.cur.value.clone();
                if self.find_struct(val.as_slice()).is_none() {
                    return Err(error_types(ErrorKind::UnexpectedReturnType, self.parser.line, None, Some(TokenType::IDENTIFIER)));
                }
                let pos = self.get_struct_symbol_pos(val.as_slice())?;
                function.output_type = TokenType::STRUCT(pos);
                self.parser.consume(TokenType::IDENTIFIER)?;
            },
            _ => {
                function.output_type = TokenType::NULL;
            },
        }
        if !is_mth {
            let fn_pos = self.get_fn_symbol_pos(&name)?;
            if function.output_type != self.parser.symbols[fn_pos].output_type {
                return Err(error(ErrorKind::Internal, self.parser.line));
            }
        }
        self.parser.consume(TokenType::LEFT_BRACE)?;
        if self.scope_depth == u32::MAX {
            return Err(error(ErrorKind::Overflow, self.parser.line));
        }
        self.scope_depth = self.scope_depth + 1;
        let mut enclosing = function;
        std::mem::swap(&mut self.cur_function, &mut enclosing);
        assert(jumps_inside(self.cur_function.chunk.code@));
        assert(!is_mth ==> 0 <= sym_pos < self.parser.symbols@.len() && self.parser.symbols@[sym_pos].arg_count
            == self.cur_function.arg_count && symbol_matches(self.parser.symbols@[sym_pos], old(self).parser.cur.value@, false));
        let ghost pre_block = *self;
        self.block()?;
        assert(kept_symbols(pre_block.parser.symbols@, self.parser.symbols@));
        let pos = self.add_value(Value::Null)?;
        let line = self.parser.line;
        let ghost body_code = self.cur_function.chunk.code@;
        self.emit_byte(OpCode::CONSTANT_NULL(pos), line)?;
        self.emit_byte(OpCode::RETURN, line)?;
        let n = self.cur_function.locals.len();
        let mut index: usize = 0;
        let ghost before_locals = *self;
        assert(code_ops(self.cur_function.chunk.code@) =~= code_ops(body_code).push(OpCode::CONSTANT_NULL(pos)).push(
            OpCode::RETURN,
        ));
        while index < n
            invariant
                n == self.cur_function.locals@.len(),
                index <= n,
                self.cur_function.locals == before_locals.cur_function.locals,
                self.cur_function.chunk.values == before_locals.cur_function.chunk.values,
                self.cur_function.arg_count == before_locals.cur_function.arg_count,
                self.cur_function.name == before_locals.cur_function.name,
                self.parser.symbols == before_locals.parser.symbols,
                code_ops(self.cur_function.chunk.code@) == code_ops(before_locals.cur_function.chunk.code@) + instance_drops(
                    self.cur_function.locals@,
                    index as int,
                ),
                code_ops(before_locals.cur_function.chunk.code@) == code_ops(body_code).push(OpCode::CONSTANT_NULL(pos)).push(
                    OpCode::RETURN,
                ),
                pos < before_locals.cur_function.chunk.values@.len(),
                before_locals.cur_function.chunk.values@[pos as int] == ValueModel::Null,
                is_mth && empty_method_ahead(*old(self)) ==> n == 0 && index == 0 && *self == before_locals
                    && enclosing == old(self).cur_function,
                !is_mth && empty_fn_ahead(*old(self)) ==> n == 0 && index == 0 && *self == before_locals
                    && enclosing == old(self).cur_function,
                self.wf(),
                self.parser.tokens == old(self).parser.tokens,
                old(self).scope_depth > 0 ==> self.scope_depth == old(self).scope_depth + 1 && kept_symbols(
                    old(self).parser.symbols@,
                    self.parser.symbols@,
                ),
                enclosing == old(self).cur_function,
                self.scope_depth == old(self).scope_depth + 1,
                self.parser.index > old(self).parser.index,
                extends(old(self).cur_function.chunk.code@, enclosing.chunk.code@),
                jumps_inside(old(self).cur_function.chunk.code@) ==> jumps_inside(enclosing.chunk.code@),
                jumps_inside(self.cur_function.chunk.code@),
            decreases n - index,
        {
            let ghost code_before = self.cur_function.chunk.code@;
            if index < self.cur_function.locals.len() {
                if let TokenType::KEYWORD(Keywords::INSTANCE(_)) = self.cur_function.locals[index].local_type {
                    self.emit_byte(OpCode::DEC_RC(index), line)?;
                    assert(code_ops(self.cur_function.chunk.code@) =~= code_ops(code_before).push(OpCode::DEC_RC(index)));
                }
            }
            index = index + 1;
        }
        let ghost pre_end = self.cur_function.chunk.code@;
        self.emit_byte(OpCode::END_OF_FN, line)?;
        proof {
            let c = self.cur_function.chunk.code@;
            let drops = instance_drops(self.cur_function.locals@, self.cur_function.locals@.len() as int);
            let tail = seq![OpCode::RETURN] + drops + seq![OpCode::END_OF_FN];
            assert(code_ops(c) =~= code_ops(pre_end).push(OpCode::END_OF_FN));
            assert(code_ops(c) =~= code_ops(body_code) + seq![OpCode::CONSTANT_NULL(pos)] + tail);
            assert(code_ops(c).subrange(c.len() - tail.len(), c.len() as int) =~= tail);
            assert(code_ops(c)[body_code.len() as int] == OpCode::CONSTANT_NULL(pos));
            assert(ends_as_function(self.cur_function));
        }
        let mut compiled = enclosing;
        std::mem::swap(&mut self.cur_function, &mut compiled);
        if is_mth {
            if self.scope_depth == 0 {
                return Err(error(ErrorKind::Internal, self.parser.line));
            }
            self.scope_depth = self.scope_depth - 1;
            return Ok(compiled);
        }
        let ghost g = compiled;
        proof {
            if !is_mth && bool_params_fn_ahead(*old(self)) {
                assert(g.locals@ == params_locals);
                assert(local_names(params_locals) =~= local_names(params_locals) + bool_param_names(old(self).parser.tokens@, bool_params_end(old(self).parser.tokens@, old(self).parser.index + 1).unwrap().1));
            }
        }
        self.emit_byte(OpCode::FUNCTION_DEC(compiled), line)?;
        assert(self.cur_function.chunk.code@.drop_last() =~= old(self).cur_function.chunk.code@);
        assert(symbol_matches(self.parser.symbols@[sym_pos], old(self).parser.cur.value@, false) && self.parser.symbols@[sym_pos].arg_count
            == g.arg_count);
        if self.scope_depth == 0 {
            return Err(error(ErrorKind::Internal, self.parser.line));
        }
        self.scope_depth = self.scope_depth - 1;
        Ok(Function::new(Vec::new()))
    }

    /// Compiles a declaration after `fn` or `var` (another keyword there compiles nothing).
    pub fn declare(&mut self) -> (r: Result<(), CompileError>)
        requires
            old(self).wf(),
        ensures
            r is Ok ==> advanced(*old(self), *final(self)),
            old(self).parser.prev.token_type != TokenType::KEYWORD(Keywords::FN) && old(self).parser.prev.token_type
                != TokenType::KEYWORD(Keywords::VAR) ==> r is Ok && *final(self) == *old(self),
            old(self).parser.prev.token_type == TokenType::KEYWORD(Keywords::FN) && empty_fn_ahead(*old(self)) ==> {
                &&& r is Ok
                &&& final(self).parser.tokens == old(self).parser.tokens
                &&& final(self).parser.index == old(self).parser.index + 5
                &&& final(self).parser.cur@ == old(self).parser.tokens@[old(self).parser.index + 4]@
                &&& final(self).scope_depth == 0
                &&& final(self).cur_function.chunk.code@.len() == old(self).cur_function.chunk.code@.len() + 1
                &&& (final(self).cur_function.chunk.code@.last().op matches OpCode::FUNCTION_DEC(g)
                    && g.name@ == old(self).parser.cur.value@)
            },
        decreases old(self).fuel(), 3int,
    {
        match self.parser.prev.token_type {
            TokenType::KEYWORD(Keywords::FN) => {
                let _ = self.fn_declare(false, 0)?;
                Ok(())
            },
            TokenType::KEYWORD(Keywords::VAR) => self.var_declare(),
            _ => Ok(()),
        }
    }

    /// Compiles a return statement after `return`: its value must have the function's
    /// output type.
    pub fn return_stmt(&mut self) -> (r: Result<(), CompileError>)
        requires
            old(self).wf(),
        ensures
            r is Ok ==> strictly_advanced(*old(self), *final(self)),
            r is Ok ==> final(self).cur_function.chunk.code@.last().op == OpCode::RETURN,
            lone_bool(*old(self), Precedence::ASSIGNMENT) ==> {
                &&& r is Ok <==> old(self).cur_function.output_type == TokenType::BOOL
                &&& r is Ok ==> final(self).cur_function.chunk.code@ == old(self).cur_function.chunk.code@.push(
                    Instruction {
                        op: OpCode::CONSTANT_BOOL(old(self).cur_function.chunk.values@.len() as usize),
                        line: old(self).parser.cur.line,
                    },
                ).push(Instruction { op: OpCode::RETURN, line: old(self).parser.cur.line })
            },
        decreases old(self).fuel(), 2int,
    {
        self.expression()?;
        if self.cur_function.chunk.code.len() == 0 {
            return Err(error(ErrorKind::IndexOutOfRange, self.parser.line));
        }
        let line = self.parser.line;
        let last_op = match self.cur_function.chunk.get_last_instruction().op {
            OpCode::VAR_CALL(index) => (0u8, index),
            OpCode::GET_INSTANCE_RF(index) => (1u8, index),
            _ => (2u8, 0usize),
        };
        let var_type = if last_op.0 == 0 {
            self.local_type_at(last_op.1)?
        } else if last_op.0 == 1 {
            self.emit_byte(OpCode::INC_RC(last_op.1), line)?;
            self.last_value_type()?
        } else {
            self.last_value_type()?
        };
        if var_type != self.cur_function.output_type {
            return Err(error_types(ErrorKind::MismatchedTypes, line, Some(self.cur_function.output_type), Some(var_type)));
        }
        self.emit_byte(OpCode::RETURN, line)
    }

    /// Forgets the instances past `counter`, as the end of a block does.
    fn drop_instances(&mut self, counter: usize, emit_dec: bool) -> (r: Result<(), CompileError>)
        ensures
            final(self).parser == old(self).parser,
            final(self).cur_function.arg_count == old(self).cur_function.arg_count,
            final(self).cur_function.name == old(self).cur_function.name,
            final(self).scope_depth == old(self).scope_depth,
            final(self).cur_function.chunk.values == old(self).cur_function.chunk.values,
            final(self).loop_info == old(self).loop_info,
            old(self).cur_function.instances@.len() < counter ==> (r matches Err(e) && e.kind == ErrorKind::Internal),
            counter <= old(self).cur_function.instances@.len() && (!emit_dec || old(self).scope_depth != 0) ==> r is Ok,
            r is Ok ==> forall|i: int|
                old(self).cur_function.chunk.code@.len() <= i < final(self).cur_function.chunk.code@.len()
                    ==> #[trigger] final(self).cur_function.chunk.code@[i] == (Instruction {
                    op: OpCode::DEC_TO(counter),
                    line: old(self).parser.line,
                }),
            !emit_dec ==> final(self).cur_function.chunk.code@ == old(self).cur_function.chunk.code@,
            final(self).cur_function.instances@.len() <= old(self).cur_function.instances@.len(),
            final(self).cur_function.instances@ == old(self).cur_function.instances@.subrange(
                0,
                final(self).cur_function.instances@.len() as int,
            ),
            r is Ok ==> extends(old(self).cur_function.chunk.code@, final(self).cur_function.chunk.code@),
            r is Ok ==> (jumps_inside(old(self).cur_function.chunk.code@) ==> jumps_inside(final(self).cur_function.chunk.code@)),
    {
        if self.cur_function.instances.len() < counter {
            return Err(error(ErrorKind::Internal, self.parser.line));
        }
        let mut index: usize = self.cur_function.instances.len() - counter;
        while index > 0
            invariant
                self.parser == old(self).parser,
                self.cur_function.arg_count == old(self).cur_function.arg_count,
                self.cur_function.name == old(self).cur_function.name,
                self.scope_depth == old(self).scope_depth,
                self.cur_function.chunk.values == old(self).cur_function.chunk.values,
                self.loop_info == old(self).loop_info,
                counter <= old(self).cur_function.instances@.len(),
                forall|i: int|
                    old(self).cur_function.chunk.code@.len() <= i < self.cur_function.chunk.code@.len()
                        ==> #[trigger] self.cur_function.chunk.code@[i] == (Instruction {
                        op: OpCode::DEC_TO(counter),
                        line: old(self).parser.line,
                    }),
                !emit_dec ==> self.cur_function.chunk.code@ == old(self).cur_function.chunk.code@,
                self.cur_function.instances@.len() <= old(self).cur_function.instances@.len(),
                self.cur_function.instances@ == old(self).cur_function.instances@.subrange(
                    0,
                    self.cur_function.instances@.len() as int,
                ),
                extends(old(self).cur_function.chunk.code@, self.cur_function.chunk.code@),
                jumps_inside(old(self).cur_function.chunk.code@) ==> jumps_inside(self.cur_function.chunk.code@),
            decreases index,
        {
            index = index - 1;
            if index < self.cur_function.instances.len() {
                if let TokenType::KEYWORD(Keywords::INSTANCE(_)) = self.cur_function.instances[index].local_type {
                    if emit_dec {
                        let line = self.parser.line;
                        self.emit_byte(OpCode::DEC_TO(counter), line)?;
                    }
                    let ghost before = self.cur_function.instances@;
                    self.cur_function.instances.pop();
                    proof {
                        assert(self.cur_function.instances@ =~= old(self).cur_function.instances@.subrange(
                            0,
                            self.cur_function.instances@.len() as int,
                        ));
                    }
                }
            }
        }
        Ok(())
    }

    /// Compiles an `if` (or `elif`) statement: its condition, its block, and what follows
    /// it (`elif` or `else`).
    pub fn if_stmt(&mut self) -> (r: Result<(), CompileError>)
        requires
            old(self).wf(),
        ensures
            r is Ok ==> strictly_advanced(*old(self), *final(self)),
            bool_then_empty_block(*old(self)) && old(self).parser.tokens@[old(self).parser.index + 2].token_type
                != TokenType::KEYWORD(Keywords::ELIF) && old(self).parser.tokens@[old(self).parser.index + 2].token_type
                != TokenType::KEYWORD(Keywords::ELSE) ==> r is Ok && final(self).parser.index == old(self).parser.index + 3,
            r is Ok ==> exists|j: int, x: int| #![trigger branch_at(final(self).cur_function.chunk.code@, j, x, final(self).cur_function.chunk.code@.len() as int)]
                old(self).cur_function.chunk.code@.len() <= j && branch_at(
                    final(self).cur_function.chunk.code@,
                    j,
                    x,
                    final(self).cur_function.chunk.code@.len() as int,
                ) && x + 1 < final(self).cur_function.chunk.code@.len() && final(self).cur_function.chunk.code@[j + 1].op
                    == OpCode::POP && final(self).cur_function.chunk.code@[x - 1].op == OpCode::RF_REMOVE
                    && final(self).cur_function.chunk.code@[x + 1].op == OpCode::POP,
        decreases old(self).fuel(), 2int,
    {
        if self.parser.cur.token_type == TokenType::LEFT_BRACE {
            return Err(error_named(ErrorKind::ExpectedExpression, self.parser.line, self.parser.prev.value.clone()));
        }
        self.expression()?;
        self.check_held_bool()?;
        let line = self.parser.line;
        let index_jump_to_stmt = self.cur_function.chunk.code.len();
        self.emit_byte(OpCode::IF_STMT_OFFSET(0), line)?;
        self.emit_byte(OpCode::POP, line)?;
        self.parser.consume(TokenType::LEFT_BRACE)?;
        let local_counter = self.cur_function.locals.len();
        let instance_counter = self.cur_function.instances.len();
        self.block()?;
        if self.cur_function.locals.len() < local_counter {
            return Err(error(ErrorKind::Internal, self.parser.line));
        }
        let extra = self.cur_function.locals.len() - local_counter;
        self.pop_locals(extra)?;
        self.drop_instances(instance_counter, true)?;
        let line = self.parser.line;
        self.emit_byte(OpCode::RF_REMOVE, line)?;
        let index_exit_if = self.cur_function.chunk.code.len();
        self.emit_byte(OpCode::JUMP(0), line)?;
        let offset_stmt = self.offset_from(index_jump_to_stmt)?;
        self.patch(index_jump_to_stmt, OpCode::IF_STMT_OFFSET(offset_stmt))?;
        self.emit_byte(OpCode::POP, line)?;
        if self.parser.cur.token_type == TokenType::KEYWORD(Keywords::ELIF) || self.parser.cur.token_type
            == TokenType::KEYWORD(Keywords::ELSE) {
            self.compile_line()?;
        }
        let ghost after_pop = self.cur_function.chunk.code@;
        assert(after_pop[index_jump_to_stmt + 1].op == OpCode::POP && after_pop[index_exit_if - 1].op == OpCode::RF_REMOVE
            && after_pop[index_exit_if + 1].op == OpCode::POP);
        let offset_exit_if = self.offset_from(index_exit_if)?;
        let r = self.patch(index_exit_if, OpCode::JUMP(offset_exit_if));
        assert(r is Ok ==> branch_at(
            self.cur_function.chunk.code@,
            index_jump_to_stmt as int,
            index_exit_if as int,
            self.cur_function.chunk.code@.len() as int,
        ));
        r
    }

    /// Compiles an `else` block.
    pub fn else_stmt(&mut self) -> (r: Result<(), CompileError>)
        requires
            old(self).wf(),
        ensures
            r is Ok ==> strictly_advanced(*old(self), *final(self)),
            old(self).parser.cur.token_type != TokenType::LEFT_BRACE ==> (r matches Err(e) && e.kind == ErrorKind::Expected),
            old(self).parser.cur.token_type == TokenType::LEFT_BRACE && old(self).parser.index + 1 < old(self).parser.tokens@.len()
                && old(self).parser.tokens@[old(self).parser.index as int].token_type == TokenType::RIGHT_BRACE
                && old(self).parser.tokens@[old(self).parser.index + 1].token_type != TokenType::ERROR ==> {
                &&& r is Ok
                &&& final(self).parser.index == old(self).parser.index + 2
                &&& final(self).cur_function == old(self).cur_function
                &&& final(self).scope_depth == old(self).scope_depth
            },
        decreases old(self).fuel(), 2int,
    {
        self.parser.consume(TokenType::LEFT_BRACE)?;
        self.block()
    }

    fn set_loop_info(&mut self, loop_type: TokenType, start: usize, locals_start: usize, instance_start: usize)
        ensures
            final(self).parser == old(self).parser,
            final(self).loop_info.instance_start == instance_start,
            final(self).loop_info.start == start,
            final(self).cur_function == old(self).cur_function,
            final(self).scope_depth == old(self).scope_depth,
    {
        self.loop_info = LoopInfo { loop_type, start, locals_start, instance_start };
    }

    /// Compiles a `while` loop: its condition, its block, and the jump back.
    pub fn while_stmt(&mut self) -> (r: Result<(), CompileError>)
        requires
            old(self).wf(),
        ensures
            r is Ok ==> strictly_advanced(*old(self), *final(self)),
            bool_then_empty_block(*old(self)) && old(self).scope_depth < u32::MAX && old(self).cur_function.chunk.code@.len()
                + 16 < usize::MAX ==> r is Ok && final(self).parser.index == old(self).parser.index + 3,
            r is Ok ==> exists|e: int, k: int| #![trigger loop_at(final(self).cur_function.chunk.code@, old(self).cur_function.chunk.code@.len() as int, e, k)]
                loop_at(final(self).cur_function.chunk.code@, old(self).cur_function.chunk.code@.len() as int, e, k)
                && k + 2 == final(self).cur_function.chunk.code@.len(),
        decreases old(self).fuel(), 2int,
    {
        let loop_start_index = self.cur_function.chunk.code.len();
        if self.parser.cur.token_type == TokenType::LEFT_BRACE {
            return Err(error_named(ErrorKind::ExpectedExpression, self.parser.line, self.parser.prev.value.clone()));
        }
        self.expression()?;
        self.check_held_bool()?;
        let line = self.parser.line;
        let index_exit_stmt = self.cur_function.chunk.code.len();
        self.emit_byte(OpCode::IF_STMT_OFFSET(0), line)?;
        self.emit_byte(OpCode::POP, line)?;
        self.parser.consume(TokenType::LEFT_BRACE)?;
        let local_counter = self.cur_function.locals.len();
        let instance_counter = self.cur_function.instances.len();
        if self.scope_depth == u32::MAX {
            return Err(error(ErrorKind::Overflow, self.parser.line));
        }
        self.scope_depth = self.scope_depth + 1;
        self.set_loop_info(TokenType::KEYWORD(Keywords::WHILE), loop_start_index, local_counter, instance_counter);
        self.block()?;
        self.set_loop_info(TokenType::KEYWORD(Keywords::WHILE), loop_start_index, local_counter, instance_counter);
        if self.scope_depth == 0 {
            return Err(error(ErrorKind::Internal, self.parser.line));
        }
        self.scope_depth = self.scope_depth - 1;
        if self.cur_function.locals.len() < local_counter {
            return Err(error(ErrorKind::Internal, self.parser.line));
        }
        let extra = self.cur_function.locals.len() - local_counter;
        self.pop_locals(extra)?;
        let instance_start = self.loop_info.instance_start;
        self.drop_instances(instance_start, false)?;
        let line = self.parser.line;
        self.emit_byte(OpCode::DEC_TO(instance_start), line)?;
        self.emit_byte(OpCode::RF_REMOVE, line)?;
        let offset_loop = self.loop_offset(loop_start_index)?;
        let index_loop = self.cur_function.chunk.code.len();
        self.emit_byte(OpCode::LOOP(offset_loop), line)?;
        let offset_stmt = self.offset_from(index_exit_stmt)?;
        self.patch(index_exit_stmt, OpCode::IF_STMT_OFFSET(offset_stmt))?;
        let r = self.emit_byte(OpCode::POP, line);
        assert(r is Ok ==> loop_at(self.cur_function.chunk.code@, loop_start_index as int, index_exit_stmt as int, index_loop as int));
        r
    }

    /// Local `len_locals - back`, checked.
    fn local_back(&self, len_locals: usize, back: usize) -> (r: Result<usize, CompileError>)
        ensures
            r matches Ok(i) ==> i + back == len_locals,
            r is Ok <==> back <= len_locals,
    {
        if len_locals < back {
            return Err(error(ErrorKind::Internal, self.parser.line));
        }
        Ok(len_locals - back)
    }

    /// Compiles a `for` loop: its variable, `in`, the range `(start, end[, step])`, its
    /// block, the step and the jump back.
    #[verifier::rlimit(80)]
    pub fn for_stmt(&mut self) -> (r: Result<(), CompileError>)
        requires
            old(self).wf(),
        ensures
            r is Ok ==> strictly_advanced(*old(self), *final(self)),
            r is Ok ==> exists|s: int, e: int, k: int| #![trigger loop_at(final(self).cur_function.chunk.code@, s, e, k)]
                old(self).cur_function.chunk.code@.len() <= s && loop_at(final(self).cur_function.chunk.code@, s, e, k)
                && for_loop_shape(final(self).cur_function.chunk.code@, s, e, k) && steps_back(final(self).cur_function.chunk.code@, s, e, k),
            literal_for_ahead(*old(self)) ==> r is Ok && final(self).parser.index == old(self).parser.index + 9
                && final(self).scope_depth == old(self).scope_depth,
        decreases old(self).fuel(), 2int,
    {
        self.parser.consume(TokenType::IDENTIFIER)?;
        let identifier = self.parser.prev.value.clone();
        self.cur_function.locals.push(new_local(identifier, TokenType::INT, 0, 0, SpecialType::Null));
        self.parser.consume(TokenType::KEYWORD(Keywords::IN))?;
        self.parser.consume(TokenType::LEFT_PAREN)?;
        self.expression()?;
        self.parser.consume(TokenType::COMMA)?;
        self.expression()?;
        self.cur_function.locals.push(new_local(Vec::new(), TokenType::INT, 0, 0, SpecialType::Null));
        if self.parser.cur.token_type != TokenType::RIGHT_PAREN {
            self.parser.consume(TokenType::COMMA)?;
            self.expression()?;
            if self.cur_function.chunk.code.len() == 0 {
                return Err(error(ErrorKind::IndexOutOfRange, self.parser.line));
            }
            if let OpCode::FUNCTION_CALL(_) = self.cur_function.chunk.get_last_instruction().op {
                return Err(error(ErrorKind::FunctionAsStep, self.parser.line));
            }
        } else {
            let pos = self.add_value(Value::Int(1))?;
            let line = self.parser.line;
            self.emit_byte(OpCode::CONSTANT_INT(pos), line)?;
        }
        self.cur_function.locals.push(new_local(Vec::new(), TokenType::INT, 0, 0, SpecialType::Null));
        self.parser.consume(TokenType::RIGHT_PAREN)?;
        let loop_start_index = self.cur_function.chunk.code.len();
        let len_locals = self.cur_function.locals.len();
        let counter_pos = self.local_back(len_locals, 3)?;
        let end_pos = self.local_back(len_locals, 2)?;
        let step_pos = self.local_back(len_locals, 1)?;
        let line = self.parser.line;
        self.emit_byte(OpCode::VAR_CALL(counter_pos), line)?;
        self.emit_byte(OpCode::VAR_CALL(end_pos), line)?;
        self.emit_byte(OpCode::EQ_LESS_INT, line)?;
        let index_exit_stmt = self.cur_function.chunk.code.len();
        self.emit_byte(OpCode::IF_STMT_OFFSET(0), line)?;
        self.emit_byte(OpCode::POP, line)?;
        let ghost head = self.cur_function.chunk.code@;
        assert(head[loop_start_index as int].op == OpCode::VAR_CALL(counter_pos) && head[loop_start_index + 1].op
            == OpCode::VAR_CALL((counter_pos + 1) as usize) && head[loop_start_index + 2].op == OpCode::EQ_LESS_INT
            && head[index_exit_stmt + 1].op == OpCode::POP);
        self.parser.consume(TokenType::LEFT_BRACE)?;
        let local_counter = self.cur_function.locals.len();
        let instance_counter = self.cur_function.instances.len();
        if self.scope_depth == u32::MAX {
            return Err(error(ErrorKind::Overflow, self.parser.line));
        }
        self.scope_depth = self.scope_depth + 1;
        self.set_loop_info(TokenType::KEYWORD(Keywords::FOR), loop_start_index, local_counter, instance_counter);
        self.block()?;
        self.set_loop_info(TokenType::KEYWORD(Keywords::FOR), loop_start_index, local_counter, instance_counter);
        if self.scope_depth == 0 {
            return Err(error(ErrorKind::Internal, self.parser.line));
        }
        self.scope_depth = self.scope_depth - 1;
        let line = self.parser.line;
        let ghost m = self.cur_function.chunk.code@.len() as int;
        self.emit_byte(OpCode::VAR_CALL(counter_pos), line)?;
        self.emit_byte(OpCode::VAR_CALL(step_pos), line)?;
        self.emit_byte(OpCode::ADD_INT, line)?;
        self.emit_byte(OpCode::VAR_SET(counter_pos), line)?;
        let ghost step_code = self.cur_function.chunk.code@;
        assert(step_code.subrange(m, m + 4) =~= counter_step_code(counter_pos, step_pos, line));
        if self.cur_function.locals.len() < local_counter || self.cur_function.locals.len() - local_counter == usize::MAX {
            return Err(error(ErrorKind::Internal, self.parser.line));
        }
        let extra = self.cur_function.locals.len() - local_counter + 1;
        self.pop_locals(extra)?;
        let instance_start = self.loop_info.instance_start;
        self.drop_instances(instance_start, false)?;
        self.emit_byte(OpCode::DEC_TO(instance_start), line)?;
        self.emit_byte(OpCode::RF_REMOVE, line)?;
        let offset_loop = self.loop_offset(loop_start_index)?;
        let index_loop = self.cur_function.chunk.code.len();
        self.emit_byte(OpCode::LOOP(offset_loop), line)?;
        let offset_stmt = self.offset_from(index_exit_stmt)?;
        self.patch(index_exit_stmt, OpCode::IF_STMT_OFFSET(offset_stmt))?;
        self.emit_byte(OpCode::POP, line)?;
        assert(loop_at(self.cur_function.chunk.code@, loop_start_index as int, index_exit_stmt as int, index_loop as int));
        assert(for_loop_shape(self.cur_function.chunk.code@, loop_start_index as int, index_exit_stmt as int, index_loop as int));
        self.pop_locals(2)?;
        let r = self.emit_byte(OpCode::POP, line);
        proof {
            if r is Ok {
                let c = self.cur_function.chunk.code@;
                assert(c.subrange(m, m + 4) =~= step_code.subrange(m, m + 4));
                assert(c[m].line == line);
                assert(steps_back(c, loop_start_index as int, index_exit_stmt as int, index_loop as int));
            }
        }
        assert(r is Ok ==> loop_at(self.cur_function.chunk.code@, loop_start_index as int, index_exit_stmt as int, index_loop as int));
        assert(r is Ok ==> for_loop_shape(self.cur_function.chunk.code@, loop_start_index as int, index_exit_stmt as int, index_loop as int));
        r
    }

    /// Compiles one statement.
    fn compile_line(&mut self) -> (r: Result<(), CompileError>)
        requires
            old(self).wf(),
        ensures
            r is Ok ==> strictly_advanced(*old(self), *final(self)),
            old(self).parser.cur.token_type == TokenType::KEYWORD(Keywords::BREAK) ==> {
                let code = final(self).cur_function.chunk.code@;
                &&& old(self).scope_depth <= 1 ==> r is Err
                &&& old(self).scope_depth > 1 && old(self).parser.index < old(self).parser.tokens@.len()
                    && old(self).parser.tokens@[old(self).parser.index as int].token_type != TokenType::ERROR
                    && old(self).loop_info.start <= old(self).cur_function.chunk.code@.len()
                    && old(self).cur_function.chunk.code@.len() + 2 < usize::MAX ==> r is Ok
                &&& r is Ok ==> code.len() >= 2 && code[code.len() - 2].op == OpCode::BREAK && (code.last().op matches OpCode::LOOP(o)
                    && code.len() - o == old(self).loop_info.start)
                &&& r is Ok ==> code.len() == old(self).cur_function.chunk.code@.len() + 2 && code.take(
                    old(self).cur_function.chunk.code@.len() as int,
                ) == old(self).cur_function.chunk.code@
            },
            ({
                let i = old(self).parser.index as int;
                let t = old(self).parser.tokens@;
                &&& old(self).parser.cur.token_type == TokenType::KEYWORD(Keywords::FN)
                &&& i < t.len()
                &&& t[i].token_type == TokenType::IDENTIFIER
                &&& empty_body_at(t, i + 1)
                &&& old(self).scope_depth == 0
                &&& fn_symbol_ok(old(self).parser.symbols@, t[i].value@)
            }) ==> {
                &&& r is Ok
                &&& final(self).parser.tokens == old(self).parser.tokens
                &&& final(self).parser.index == old(self).parser.index + 6
                &&& final(self).parser.cur@ == old(self).parser.tokens@[old(self).parser.index + 5]@
                &&& final(self).scope_depth == 0
                &&& final(self).cur_function.chunk.code@.len() > 0
                &&& (final(self).cur_function.chunk.code@.last().op matches OpCode::FUNCTION_DEC(g)
                    && g.name@ == old(self).parser.tokens@[old(self).parser.index as int].value@)
            },
            old(self).parser.cur.token_type == TokenType::KEYWORD(Keywords::CONTINUE) && old(self).loop_info.loop_type
                == TokenType::KEYWORD(Keywords::WHILE) && r is Ok ==> {
                let code = final(self).cur_function.chunk.code@;
                let n = old(self).cur_function.chunk.code@.len() as int;
                &&& code.len() == n + 3
                &&& code.take(n as int) == old(self).cur_function.chunk.code@
                &&& code[n as int].op == OpCode::DEC_TO(old(self).loop_info.instance_start)
                &&& code[n + 1].op == OpCode::RF_REMOVE
                &&& (code[n + 2].op matches OpCode::LOOP(o) && n + 1 - o == old(self).loop_info.start)
            },
            old(self).parser.cur.token_type == TokenType::KEYWORD(Keywords::CONTINUE) && old(self).loop_info.loop_type
                != TokenType::KEYWORD(Keywords::WHILE) && r is Ok ==> {
                let code = final(self).cur_function.chunk.code@;
                let start = old(self).loop_info.locals_start;
                &&& start >= 3
                &&& code.len() == old(self).cur_function.chunk.code@.len() + 5
                &&& code.drop_last() == old(self).cur_function.chunk.code@ + counter_step_code(
                    (start - 3) as usize,
                    (start - 1) as usize,
                    old(self).parser.cur.line,
                )
                &&& (code.last().op matches OpCode::LOOP(o) && code.len() - o == old(self).loop_info.start)
            },
        decreases old(self).fuel(), 4int,
    {
        match self.parser.cur.token_type {
            TokenType::KEYWORD(Keywords::FN) | TokenType::KEYWORD(Keywords::VAR) | TokenType::KEYWORD(Keywords::LIST) => {
                self.parser.advance()?;
                self.declare()
            },
            TokenType::KEYWORD(Keywords::RETURN) => {
                self.parser.advance()?;
                self.return_stmt()
            },
            TokenType::STRING => {
                self.parser.advance()?;
                self.string_dec()
            },
            TokenType::KEYWORD(Keywords::STRUCT) => {
                self.parser.advance()?;
                self.struct_declare()
            },
            TokenType::KEYWORD(Keywords::IF) => {
                self.parser.advance()?;
                self.if_stmt()
            },
            TokenType::KEYWORD(Keywords::ELIF) => {
                if self.parser.prev.token_type != TokenType::RIGHT_BRACE {
                    return Err(error(ErrorKind::ExpectedBraceBefore, self.parser.line));
                }
                self.parser.advance()?;
                self.if_stmt()
            },
            TokenType::KEYWORD(Keywords::ELSE) => {
                if self.parser.prev.token_type != TokenType::RIGHT_BRACE {
                    return Err(error(ErrorKind::ExpectedBraceBefore, self.parser.line));
                }
                self.parser.advance()?;
                self.else_stmt()
            },
            TokenType::KEYWORD(Keywords::WHILE) => {
                self.parser.advance()?;
                self.while_stmt()
            },
            TokenType::KEYWORD(Keywords::FOR) => {
                self.parser.advance()?;
                self.for_stmt()
            },
            TokenType::KEYWORD(Keywords::BREAK) => {
                self.parser.advance()?;
                if self.scope_depth <= 1 {
                    return Err(error(ErrorKind::BreakOutsideLoop, self.parser.line));
                }
                let line = self.parser.line;
                self.emit_byte(OpCode::BREAK, line)?;
                let offset = self.loop_offset(self.loop_info.start)?;
                self.emit_byte(OpCode::LOOP(offset), line)
            },
            TokenType::KEYWORD(Keywords::CONTINUE) => {
                self.parser.advance()?;
                if self.scope_depth <= 1 {
                    return Err(error(ErrorKind::ContinueOutsideLoop, self.parser.line));
                }
                let line = self.parser.line;
                if self.loop_info.loop_type == TokenType::KEYWORD(Keywords::WHILE) {
                    let offset = self.loop_offset(self.loop_info.start)?;
                    let ghost before = self.cur_function.chunk.code@;
                    self.emit_byte(OpCode::DEC_TO(self.loop_info.instance_start), line)?;
                    self.emit_byte(OpCode::RF_REMOVE, line)?;
                    let r = self.emit_byte(OpCode::LOOP(offset), line);
                    assert(r is Ok ==> self.cur_function.chunk.code@.take(before.len() as int) =~= before);
                    return r;
                }
                let counter_pos = self.local_back(self.loop_info.locals_start, 3)?;
                let step_pos = self.local_back(self.loop_info.locals_start, 1)?;
                let ghost before = self.cur_function.chunk.code@;
                self.emit_byte(OpCode::VAR_CALL(counter_pos), line)?;
                self.emit_byte(OpCode::VAR_CALL(step_pos), line)?;
                self.emit_byte(OpCode::ADD_INT, line)?;
                self.emit_byte(OpCode::VAR_SET(counter_pos), line)?;
                assert(self.cur_function.chunk.code@ =~= before + counter_step_code(counter_pos, step_pos, line));
                let offset = self.loop_offset(self.loop_info.start)?;
                let r = self.emit_byte(OpCode::LOOP(offset), line);
                assert(r is Ok ==> self.cur_function.chunk.code@.drop_last() =~= before + counter_step_code(counter_pos, step_pos, line));
                r
            },
            _ => {
                self.expression()?;
                let line = self.parser.line;
                self.emit_byte(OpCode::POP, line)
            },
        }
    }

    /// Compiles statements up to the closing `}` (or the end of the file), then the `}`.
    pub fn block(&mut self) -> (r: Result<(), CompileError>)
        requires
            old(self).wf(),
        ensures
            r is Ok ==> strictly_advanced(*old(self), *final(self)),
            old(self).parser.cur.token_type == TokenType::EOF ==> (r matches Err(e) && e.kind == ErrorKind::Expected),
            old(self).parser.cur.token_type == TokenType::RIGHT_BRACE ==> {
                &&& r is Ok <==> old(self).parser.index < old(self).parser.tokens@.len()
                    && old(self).parser.tokens@[old(self).parser.index as int].token_type != TokenType::ERROR
                &&& r is Ok ==> empty_block(*old(self), *final(self))
            },
        decreases old(self).fuel(), 5int,
    {
        while self.parser.cur.token_type != TokenType::RIGHT_BRACE && !self.parser.check_if_eof()
            invariant
                advanced(*old(self), *self),
                old(self).parser.cur.token_type == TokenType::RIGHT_BRACE || old(self).parser.cur.token_type
                    == TokenType::EOF ==> *self == *old(self),
            decreases self.fuel(),
        {
            self.compile_line()?;
        }
        self.parser.consume(TokenType::RIGHT_BRACE)
    }
}

} // verus!

verus! {

/// The name a declaration instruction carries, where it declares a struct.
/// A struct declaration `orig` came out as `out` carrying one of `given`, or no struct of
/// its name is left in `left`.
pub open spec fn taken_or_absent(orig: Instruction, out: Instruction, given: Seq<Struct>, left: Seq<Struct>) -> bool {
    match orig.op {
        OpCode::STRUCT_DEC(p) => {
            ||| out.op matches OpCode::STRUCT_DEC(s) && given.contains(s)
            ||| forall|j: int| 0 <= j < left.len() ==> (#[trigger] left[j]).name@ != p.name@
        },
        _ => true,
    }
}

/// A struct declaration `out` made from `orig` is `orig` itself or carries one of `structs`.
pub open spec fn taken_from(orig: Instruction, out: Instruction, structs: Seq<Struct>) -> bool {
    match out.op {
        OpCode::STRUCT_DEC(s) => out == orig || structs.contains(s),
        _ => true,
    }
}

pub open spec fn struct_dec_name(i: Instruction) -> Option<Seq<char>> {
    match i.op {
        OpCode::STRUCT_DEC(s) => Some(s.name@),
        _ => None,
    }
}

/// Puts into each struct declaration of `code` the compiled struct of that name, taken
/// from `structs`; the declarations keep their places and names, and every other
/// instruction stays as it is.
pub fn attach_structs(code: Vec<Instruction>, structs: &mut Vec<Struct>) -> (r: Vec<Instruction>)
    ensures
        r@.len() == code@.len(),
        forall|k: int| 0 <= k < code@.len() ==> struct_dec_name(#[trigger] r@[k]) == struct_dec_name(code@[k]),
        forall|k: int| 0 <= k < code@.len() && struct_dec_name(code@[k]) is None ==> #[trigger] r@[k] == code@[k],
        forall|k: int| 0 <= k < code@.len() ==> (#[trigger] r@[k]).line == code@[k].line,
        forall|k: int| 0 <= k < code@.len() ==> taken_or_absent(code@[k], #[trigger] r@[k], old(structs)@, final(structs)@),
        forall|k: int| 0 <= k < code@.len() ==> taken_from(code@[k], #[trigger] r@[k], old(structs)@),
        forall|j: int| 0 <= j < final(structs)@.len() ==> old(structs)@.contains(#[trigger] final(structs)@[j]),
{
    let mut rest = code;
    let ghost input = rest@;
    let mut out: Vec<Instruction> = Vec::new();
    while rest.len() > 0
        invariant
            out@.len() + rest@.len() == input.len(),
            rest@ == input.subrange(out@.len() as int, input.len() as int),
            forall|k: int| 0 <= k < out@.len() ==> struct_dec_name(#[trigger] out@[k]) == struct_dec_name(input[k]),
            forall|k: int| 0 <= k < out@.len() && struct_dec_name(input[k]) is None ==> #[trigger] out@[k] == input[k],
            forall|k: int| 0 <= k < out@.len() ==> (#[trigger] out@[k]).line == input[k].line,
            forall|k: int| 0 <= k < out@.len() ==> taken_or_absent(input[k], #[trigger] out@[k], old(structs)@, structs@),
            forall|k: int| 0 <= k < out@.len() ==> taken_from(input[k], #[trigger] out@[k], old(structs)@),
            forall|j: int| 0 <= j < structs@.len() ==> old(structs)@.contains(#[trigger] structs@[j]),
        decreases rest@.len(),
    {
        let ghost done = out@.len() as int;
        let instruction = rest.remove(0);
        assert(instruction == input[done]);
        let Instruction { op, line } = instruction;
        let new_op = match op {
            OpCode::STRUCT_DEC(placeholder) => {
                let mut found: Option<usize> = None;
                let mut i: usize = 0;
                while i < structs.len()
                    invariant
                        i <= structs@.len(),
                        found matches Some(j) ==> j < structs@.len() && structs@[j as int].name@ == placeholder.name@,
                        found is None ==> forall|j: int| 0 <= j < i ==> (#[trigger] structs@[j]).name@ != placeholder.name@,
                    ensures
                        found is None ==> forall|j: int| 0 <= j < structs@.len() ==> (#[trigger] structs@[j]).name@ != placeholder.name@,
                        found matches Some(j) ==> j < structs@.len() && structs@[j as int].name@ == placeholder.name@,
                    decreases structs@.len() - i,
                {
                    if chars_equal(structs[i].name.as_slice(), placeholder.name.as_slice()) {
                        found = Some(i);
                        break;
                    }
                    i = i + 1;
                }
                match found {
                    Some(j) => {
                        let ghost before = structs@;
                        let s = structs.remove(j);
                        proof {
                            assert(old(structs)@.contains(before[j as int]));
                            assert(old(structs)@.contains(s));
                            assert forall|m: int| 0 <= m < structs@.len() implies before.contains(#[trigger] structs@[m]) by {
                                if m < j {
                                    assert(structs@[m] == before[m]);
                                } else {
                                    assert(structs@[m] == before[m + 1]);
                                }
                            }
                            assert forall|k: int| 0 <= k < done implies taken_or_absent(input[k], #[trigger] out@[k], old(structs)@, structs@) by {
                                assert(taken_or_absent(input[k], out@[k], old(structs)@, before));
                                if let OpCode::STRUCT_DEC(p) = input[k].op {
                                    if !(out@[k].op matches OpCode::STRUCT_DEC(s) && old(structs)@.contains(s)) {
                                        assert forall|m: int| 0 <= m < structs@.len() implies (#[trigger] structs@[m]).name@ != p.name@ by {
                                            if m < j {
                                                assert(structs@[m] == before[m]);
                                            } else {
                                                assert(structs@[m] == before[m + 1]);
                                            }
                                        }
                                    }
                                }
                            }
                        }
                        OpCode::STRUCT_DEC(s)
                    },
                    None => OpCode::STRUCT_DEC(placeholder),
                }
            },
            other => other,
        };
        assert(taken_or_absent(input[done], Instruction { op: new_op, line }, old(structs)@, structs@));
        out.push(Instruction { op: new_op, line });
        proof {
            assert(rest@ =~= input.subrange(out@.len() as int, input.len() as int));
        }
    }
    out
}

impl Compiler {
    /// Adds the built-in `String` and `List` types: builds the symbol table around their
    /// method slots, declares both at the head of the program, and records them as
    /// compiled structs.
    pub fn impl_native_types(&mut self) -> (r: Result<(), CompileError>)
        ensures
            r is Ok <==> symbol_table_ok(old(self).parser.tokens@),
            r matches Err(e) ==> e.kind == symbol_table_error(old(self).parser.tokens@, 12, 6),
            final(self).parser.tokens == old(self).parser.tokens,
            final(self).parser.index == old(self).parser.index,
            final(self).parser.cur == old(self).parser.cur,
            lone_main_program(old(self).parser.tokens@) ==> r is Ok,
            lone_main_program(old(self).parser.tokens@) && old(self).parser.tokens@[4].token_type == TokenType::LEFT_BRACE
                ==> fn_symbol_ok(final(self).parser.symbols@, old(self).parser.tokens@[1].value@),
            final(self).scope_depth == old(self).scope_depth,
            r is Ok ==> {
                &&& final(self).cur_function.chunk.code@.len() == old(self).cur_function.chunk.code@.len() + 2
                &&& final(self).cur_function.chunk.code@.take(old(self).cur_function.chunk.code@.len() as int)
                    == old(self).cur_function.chunk.code@
                &&& struct_dec_name(final(self).cur_function.chunk.code@[old(self).cur_function.chunk.code@.len() as int])
                    == Some("String"@)
                &&& struct_dec_name(final(self).cur_function.chunk.code@[old(self).cur_function.chunk.code@.len() + 1int])
                    == Some("List"@)
                &&& final(self).cur_function.chunk.code@[old(self).cur_function.chunk.code@.len() as int].line == 0
                &&& final(self).cur_function.chunk.code@[old(self).cur_function.chunk.code@.len() + 1int].line == 0
                &&& final(self).parser.symbols@.len() >= 39
                &&& final(self).parser.symbols@[19].name@ == "String"@
                &&& final(self).parser.symbols@[32].name@ == "List"@
                &&& exists|i: int| 39 <= i < final(self).parser.symbols@.len() && is_main_name(
                    (#[trigger] final(self).parser.symbols@[i]).name@,
                )
            },
    {
        let string_type = StringObj::init(19);
        let list_type = ListObj::init(32);
        self.parser.get_symbols(string_type.methods.len(), list_type.methods.len())?;
        let ghost before = self.cur_function.chunk.code@;
        self.cur_function.chunk.push(Instruction { op: OpCode::STRUCT_DEC(string_type), line: 0 });
        self.cur_function.chunk.push(Instruction { op: OpCode::STRUCT_DEC(list_type), line: 0 });
        assert(self.cur_function.chunk.code@.take(before.len() as int) =~= before);
        self.structs.push(StringObj::init(19));
        self.structs.push(ListObj::init(32));
        Ok(())
    }

    /// Compiles the whole program: the built-in types, then one statement after another up
    /// to the end of the file. Gives back the program's top-level code, whose struct
    /// declarations carry the compiled structs. The two built-in declarations are set
    /// aside while the statements compile (top-level code is only ever appended to) and
    /// stand first in the result.
    pub fn compile(&mut self) -> (r: Result<Chunk, CompileError>)
        requires
            old(self).wf(),
            old(self).cur_function.chunk.code@.len() == 0,
        ensures
            r matches Ok(c) ==> {
                &&& c.code@.len() >= 2
                &&& struct_dec_name(c.code@[0]) == Some("String"@)
                &&& struct_dec_name(c.code@[1]) == Some("List"@)
                &&& c.code@[0].line == 0 && c.code@[1].line == 0
                &&& final(self).parser.cur.token_type == TokenType::EOF
                &&& final(self).structs@.len() == 0
                &&& exists|i: int| 2 <= i < c.code@.len() && #[trigger] declares_main_fn(c.code@[i].op)
            },
            lone_empty_main(*old(self)) ==> r is Ok,
            r is Ok ==> symbol_table_ok(old(self).parser.tokens@),
            !symbol_table_ok(old(self).parser.tokens@) ==> (r matches Err(e) && e.kind == symbol_table_error(
                old(self).parser.tokens@,
                12,
                6,
            )),
    {
        self.impl_native_types()?;
        let mut code: Vec<Instruction> = Vec::new();
        std::mem::swap(&mut code, &mut self.cur_function.chunk.code);
        self.parser.advance()?;
        assert(struct_dec_name(code@[0]) == Some("String"@));
        loop
            invariant
                self.wf(),
                symbol_table_ok(old(self).parser.tokens@),
                code@.len() == 2,
                struct_dec_name(code@[0]) == Some("String"@),
                struct_dec_name(code@[1]) == Some("List"@),
                code@[0].line == 0 && code@[1].line == 0,
                lone_empty_main(*old(self)) ==> self.parser.tokens == old(self).parser.tokens && ((self.parser.index == 1
                    && self.parser.cur.token_type == TokenType::KEYWORD(Keywords::FN) && self.scope_depth == 0 && fn_symbol_ok(
                    self.parser.symbols@,
                    old(self).parser.tokens@[1].value@,
                )) || (self.parser.cur.token_type == TokenType::EOF
                    && self.cur_function.chunk.code@.len() > 0
                    && declares_main_fn(self.cur_function.chunk.code@.last().op))),
            ensures
                self.wf(),
                self.parser.cur.token_type == TokenType::EOF,
                lone_empty_main(*old(self)) ==> self.cur_function.chunk.code@.len() > 0
                    && declares_main_fn(self.cur_function.chunk.code@.last().op),
            decreases self.fuel(),
        {
            self.parser.line = self.parser.cur.line;
            if self.parser.check_if_eof() {
                break;
            }
            self.compile_line()?;
            self.loop_info = LoopInfo::new();
        }
        let mut body: Vec<Instruction> = Vec::new();
        std::mem::swap(&mut body, &mut self.cur_function.chunk.code);
        let ghost prelude = code@;
        code.append(&mut body);
        assert(code@[0] == prelude[0] && code@[1] == prelude[1]);
        let mut structs: Vec<Struct> = Vec::new();
        std::mem::swap(&mut structs, &mut self.structs);
        let ghost m: int = code@.len() - 1;
        assert(lone_empty_main(*old(self)) ==> 2 <= m && declares_main_fn(code@[m].op)
            && struct_dec_name(code@[m]) is None);
        let ghost before_attach = code@;
        let code = attach_structs(code, &mut structs);
        assert(lone_empty_main(*old(self)) ==> code@[m] == before_attach[m]);
        let mut k: usize = 2;
        let mut main_found = false;
        while k < code.len()
            invariant
                2 <= k <= code@.len(),
                main_found ==> exists|i: int| 2 <= i < code@.len() && #[trigger] declares_main_fn(code@[i].op),
                lone_empty_main(*old(self)) ==> 2 <= m < code@.len() && declares_main_fn(code@[m].op)
                    && (k > m ==> main_found),
            decreases code@.len() - k,
        {
            if let OpCode::FUNCTION_DEC(f) = &code[k].op {
                let found = chars_equal(f.name.as_slice(), &['m', 'a', 'i', 'n']);
                proof {
                    assert(['m', 'a', 'i', 'n']@ =~= seq!['m', 'a', 'i', 'n']);
                }
                if found {
                    main_found = true;
                    assert(declares_main_fn(code@[k as int].op));
                }
            }
            k = k + 1;
        }
        if !main_found {
            return Err(error(ErrorKind::NoMain, self.parser.line));
        }
        let mut values = ValuesArray::init();
        std::mem::swap(&mut values, &mut self.cur_function.chunk.values);
        Ok(Chunk { code, values })
    }
}

} // verus!

verus! {

/// Each precedence has a place of its own: `from_u32` of `to_u32` gives the precedence
/// back.
pub proof fn lemma_precedence_level_unique(p: Precedence, q: Precedence)
    ensures
        p.level() == q.level() ==> p == q,
        p.level() <= 10,
{
}

} // verus!
