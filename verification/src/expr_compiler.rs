use vstd::prelude::*;

use crate::tokens::{Token, TokenType};
use crate::value::{Value, ValueModel};
use crate::bytecode::{Chunk, Instruction, OpCode};
use crate::compiler::{CompileError, ErrorKind, Precedence};
use crate::text::{parse_i64, parse_int};

verus! {

/// The routines of the arithmetic compiler.
#[derive(PartialEq, Eq, Debug, Clone, Copy, Structural)]
pub enum ExprFn {
    Number,
    Arithmetic,
}

/// How a token starts or continues an arithmetic expression, and how tightly it binds.
#[derive(PartialEq, Eq, Debug, Clone, Copy, Structural)]
pub struct ParseRule {
    pub prefix: Option<ExprFn>,
    pub infix: Option<ExprFn>,
    pub prec: Precedence,
}

/// The rule of each token type the arithmetic compiler knows: numbers, the four
/// operators, and the end of the file.
pub open spec fn expr_rule(t: TokenType) -> Option<ParseRule> {
    match t {
        TokenType::INT | TokenType::FLOAT => Some(
            ParseRule { prefix: Some(ExprFn::Number), infix: None, prec: Precedence::NONE },
        ),
        TokenType::PLUS | TokenType::MINUS => Some(
            ParseRule { prefix: None, infix: Some(ExprFn::Arithmetic), prec: Precedence::TERM },
        ),
        TokenType::STAR | TokenType::SLASH => Some(
            ParseRule { prefix: None, infix: Some(ExprFn::Arithmetic), prec: Precedence::FACTOR },
        ),
        TokenType::EOF => Some(ParseRule { prefix: None, infix: None, prec: Precedence::NONE }),
        _ => None,
    }
}

/// The rule of a token type; `None` for a type the arithmetic compiler does not know.
pub fn init_rules(t: TokenType) -> (r: Option<ParseRule>)
    ensures
        r == expr_rule(t),
{
    match t {
        TokenType::INT | TokenType::FLOAT => Some(
            ParseRule { prefix: Some(ExprFn::Number), infix: None, prec: Precedence::NONE },
        ),
        TokenType::PLUS | TokenType::MINUS => Some(
            ParseRule { prefix: None, infix: Some(ExprFn::Arithmetic), prec: Precedence::TERM },
        ),
        TokenType::STAR | TokenType::SLASH => Some(
            ParseRule { prefix: None, infix: Some(ExprFn::Arithmetic), prec: Precedence::FACTOR },
        ),
        TokenType::EOF => Some(ParseRule { prefix: None, infix: None, prec: Precedence::NONE }),
        _ => None,
    }
}

fn error(kind: ErrorKind, line: u32, found: Option<TokenType>) -> (e: CompileError)
    ensures
        e.kind == kind,
        e.line == line,
        e.found == found,
{
    CompileError { kind, line, name: Vec::new(), expected: None, found, counts: None }
}

/// The tokens of an arithmetic expression and the parser's place among them.
pub struct Parser {
    pub tokens: Vec<Token>,
    pub cur: Token,
    pub prev: Token,
    pub index: usize,
}

impl Parser {
    /// Moves on by one token; fails where the tokens have run out or the new current token
    /// is a scanner error.
    pub fn advance(&mut self) -> (r: Result<(), CompileError>)
        ensures
            r is Ok <==> (old(self).index < old(self).tokens@.len() && old(self).tokens@[old(self).index as int].token_type
                != TokenType::ERROR),
            r is Ok ==> {
                &&& final(self).prev@ == old(self).cur@
                &&& final(self).cur@ == old(self).tokens@[old(self).index as int]@
                &&& final(self).index == old(self).index + 1
            },
            final(self).tokens == old(self).tokens,
            final(self).index >= old(self).index,
    {
        if self.index >= self.tokens.len() {
            return Err(error(ErrorKind::IndexOutOfRange, self.cur.line, None));
        }
        let mut next = self.tokens[self.index].duplicate();
        std::mem::swap(&mut self.cur, &mut next);
        self.prev = next;
        self.index = self.index + 1;
        if self.cur.token_type == TokenType::ERROR {
            return Err(error(ErrorKind::ScanError, self.cur.line, Some(TokenType::ERROR)));
        }
        Ok(())
    }

    /// Whether the current token ends the file.
    pub fn check_if_eof(&self) -> (b: bool)
        ensures
            b == (self.cur.token_type == TokenType::EOF),
    {
        self.cur.token_type == TokenType::EOF
    }

    /// The rule of `token_type`; fails where it has none.
    pub fn get_rule(&self, token_type: &TokenType) -> (r: Result<ParseRule, CompileError>)
        ensures
            r matches Ok(p) ==> expr_rule(*token_type) == Some(p),
            r is Err <==> expr_rule(*token_type) is None,
    {
        match init_rules(*token_type) {
            Some(p) => Ok(p),
            None => Err(error(ErrorKind::NoParseRule, self.cur.line, Some(*token_type))),
        }
    }
}

/// The arithmetic compiler: a parser and the chunk it fills.
pub struct Compiler {
    pub parser: Parser,
    pub chunk: Chunk,
}

/// `b` is `a` moved forward: the same tokens, the parser no further back, and the code
/// grown by at least one instruction, with what was emitted before left as it was.
pub open spec fn advanced(a: Compiler, b: Compiler) -> bool {
    &&& b.parser.tokens == a.parser.tokens
    &&& b.parser.index >= a.parser.index
    &&& b.parser.index <= b.parser.tokens@.len()
    &&& b.chunk.code@.len() > a.chunk.code@.len()
    &&& forall|i: int| 0 <= i < a.chunk.code@.len() ==> #[trigger] b.chunk.code@[i] == a.chunk.code@[i]
}

/// A token that `number` turns into a constant: a float, or an integer that fits.
pub open spec fn number_token(t: Token) -> bool {
    t.token_type == TokenType::FLOAT || (t.token_type == TokenType::INT && parse_i64(t.value@) is Some)
}

/// A token that can be read and that continues no expression binding at least as tightly
/// as `level`.
pub open spec fn ends_before(t: Token, level: nat) -> bool {
    &&& t.token_type != TokenType::ERROR
    &&& expr_rule(t.token_type) matches Some(rl)
    &&& rl.prec.level() < level
}

/// The expression ahead of `c` is a lone number: the current token is a number, the token
/// after it ends an expression of binding `level`, and the constant can be stored.
pub open spec fn lone_number(c: Compiler, level: nat) -> bool {
    &&& number_token(c.parser.cur)
    &&& c.parser.index < c.parser.tokens@.len()
    &&& ends_before(c.parser.tokens@[c.parser.index as int], level)
    &&& c.chunk.values@.len() < usize::MAX
}

/// `b` is `a` after loading the number that is `a`'s current token: one token read, the
/// number stored as a constant and loaded by one instruction.
pub open spec fn number_loaded(a: Compiler, b: Compiler) -> bool {
    let n = a.chunk.values@.len() as usize;
    let t = a.parser.cur;
    &&& b.parser.tokens == a.parser.tokens
    &&& b.parser.index == a.parser.index + 1
    &&& b.parser.cur@ == a.parser.tokens@[a.parser.index as int]@
    &&& b.chunk.code@ == a.chunk.code@.push(
        Instruction {
            op: if t.token_type == TokenType::INT { OpCode::CONSTANT_INT(n) } else { OpCode::CONSTANT_FLOAT(n) },
            line: t.line,
        },
    )
    &&& b.chunk.values@.len() == a.chunk.values@.len() + 1
    &&& (t.token_type == TokenType::INT ==> (parse_i64(t.value@) matches Some(v) && b.chunk.values@.last()
        == ValueModel::Int(v)))
    &&& (t.token_type == TokenType::FLOAT ==> b.chunk.values@.last() == ValueModel::Float(t.value@))
}

/// Ahead of `c`, after the operator just consumed, stands a lone number of the type of the
/// last constant.
pub open spec fn number_operand_ahead(c: Compiler) -> bool {
    let last = c.chunk.values@.last();
    &&& expr_rule(c.parser.prev.token_type) matches Some(orl)
    &&& orl.infix is Some
    &&& c.chunk.values@.len() > 0
    &&& ((last is Int && c.parser.cur.token_type == TokenType::INT) || (last is Float && c.parser.cur.token_type
        == TokenType::FLOAT))
    &&& lone_number(c, orl.prec.level() + 1)
}

/// The tokens from `c`'s place on are a single number and the end of the expression.
pub open spec fn single_number_ahead(c: Compiler) -> bool {
    let i = c.parser.index as int;
    &&& i + 1 < c.parser.tokens@.len()
    &&& c.parser.tokens@[i].token_type != TokenType::ERROR
    &&& number_token(c.parser.tokens@[i])
    &&& ends_before(c.parser.tokens@[i + 1], 1)
    &&& c.chunk.values@.len() < usize::MAX
}

impl Compiler {
    /// How many tokens are left.
    pub open spec fn fuel(&self) -> int {
        self.parser.tokens@.len() - self.parser.index
    }

    /// A compiler for `tokens`, before the first token, with an empty chunk.
    pub fn new(tokens: Vec<Token>) -> (c: Self)
        ensures
            c.parser.tokens == tokens,
            c.parser.index == 0,
            c.chunk.code@.len() == 0,
            c.chunk.values@.len() == 0,
    {
        Compiler {
            parser: Parser {
                tokens,
                cur: Token { token_type: TokenType::ERROR, value: Vec::new(), line: 0 },
                prev: Token { token_type: TokenType::ERROR, value: Vec::new(), line: 0 },
                index: 0,
            },
            chunk: Chunk::new(),
        }
    }

    /// Appends an instruction.
    pub fn emit_byte(&mut self, op: OpCode, line: u32)
        ensures
            final(self).chunk.code@ == old(self).chunk.code@.push(Instruction { op, line }),
            final(self).chunk.values == old(self).chunk.values,
            final(self).parser == old(self).parser,
    {
        self.chunk.push(Instruction { op, line });
    }

    /// Compiles the number just consumed: its value as a constant, and the instruction
    /// that loads it. Fails for an integer that does not fit and for any other token.
    pub fn number(&mut self) -> (r: Result<(), CompileError>)
        ensures
            final(self).parser == old(self).parser,
            r is Ok ==> final(self).chunk.values@.len() == old(self).chunk.values@.len() + 1,
            r is Ok ==> final(self).chunk.code@.len() == old(self).chunk.code@.len() + 1,
            r is Ok ==> final(self).chunk.code@.drop_last() == old(self).chunk.code@,
            r is Ok ==> old(self).parser.prev.token_type == TokenType::INT ==> {
                &&& parse_i64(old(self).parser.prev.value@) matches Some(v)
                &&& final(self).chunk.values@.last() == ValueModel::Int(v)
                &&& final(self).chunk.code@.last() == Instruction {
                    op: OpCode::CONSTANT_INT(old(self).chunk.values@.len() as usize),
                    line: old(self).parser.prev.line,
                }
            },
            r is Ok ==> old(self).parser.prev.token_type == TokenType::FLOAT ==> {
                &&& final(self).chunk.values@.last() == ValueModel::Float(old(self).parser.prev.value@)
                &&& final(self).chunk.code@.last() == Instruction {
                    op: OpCode::CONSTANT_FLOAT(old(self).chunk.values@.len() as usize),
                    line: old(self).parser.prev.line,
                }
            },
            r is Err <==> (old(self).parser.prev.token_type != TokenType::INT && old(self).parser.prev.token_type
                != TokenType::FLOAT) || (old(self).parser.prev.token_type == TokenType::INT && parse_i64(
                old(self).parser.prev.value@,
            ) is None) || old(self).chunk.values@.len() >= usize::MAX,
    {
        if self.chunk.values.len() == usize::MAX {
            return Err(error(ErrorKind::Overflow, self.parser.prev.line, None));
        }
        let line = self.parser.prev.line;
        match self.parser.prev.token_type {
            TokenType::INT => {
                let value = match parse_int(self.parser.prev.value.as_slice()) {
                    Some(v) => v,
                    None => {
                        return Err(error(ErrorKind::ConversionFailed, line, Some(TokenType::INT)));
                    },
                };
                let pos = self.chunk.push_value(Value::Int(value));
                self.emit_byte(OpCode::CONSTANT_INT(pos), line);
                Ok(())
            },
            TokenType::FLOAT => {
                let pos = self.chunk.push_value(Value::Float(self.parser.prev.value.clone()));
                self.emit_byte(OpCode::CONSTANT_FLOAT(pos), line);
                Ok(())
            },
            t => Err(error(ErrorKind::UnexpectedToken, line, Some(t))),
        }
    }

    /// Whether a number token of type `a_type` has the type of the constant `b_type`.
    pub fn check_num_types(&self, a_type: TokenType, b_type: &Value) -> (b: bool)
        ensures
            b == match b_type@ {
                ValueModel::Int(_) => a_type == TokenType::INT,
                ValueModel::Float(_) => a_type == TokenType::FLOAT,
                _ => false,
            },
    {
        match b_type {
            Value::Int(_) => a_type == TokenType::INT,
            Value::Float(_) => a_type == TokenType::FLOAT,
            _ => false,
        }
    }

    /// Compiles an expression.
    pub fn expression(&mut self) -> (r: Result<(), CompileError>)
        requires
            old(self).parser.index <= old(self).parser.tokens@.len(),
        ensures
            r is Ok ==> advanced(*old(self), *final(self)) && final(self).parser.index > old(self).parser.index,
            lone_number(*old(self), 1) ==> r is Ok && number_loaded(*old(self), *final(self)),
        decreases old(self).fuel(), 1int,
    {
        self.parse(Precedence::ASSIGNMENT)
    }

    /// Runs the routine a rule names.
    fn run_rule(&mut self, f: ExprFn) -> (r: Result<(), CompileError>)
        requires
            old(self).parser.index <= old(self).parser.tokens@.len(),
        ensures
            r is Ok ==> advanced(*old(self), *final(self)),
            f == ExprFn::Number && number_token(old(self).parser.prev) && old(self).chunk.values@.len() < usize::MAX
                ==> r is Ok && final(self).parser == old(self).parser,
            f == ExprFn::Number && number_token(old(self).parser.prev) && old(self).chunk.values@.len() < usize::MAX
                ==> final(self).chunk.code@ == old(self).chunk.code@.push(
                Instruction {
                    op: if old(self).parser.prev.token_type == TokenType::INT {
                        OpCode::CONSTANT_INT(old(self).chunk.values@.len() as usize)
                    } else {
                        OpCode::CONSTANT_FLOAT(old(self).chunk.values@.len() as usize)
                    },
                    line: old(self).parser.prev.line,
                },
            ) && final(self).chunk.values@.len() == old(self).chunk.values@.len() + 1 && (old(self).parser.prev.token_type
                == TokenType::INT ==> (parse_i64(old(self).parser.prev.value@) matches Some(v)
                && final(self).chunk.values@.last() == ValueModel::Int(v))) && (old(self).parser.prev.token_type
                == TokenType::FLOAT ==> final(self).chunk.values@.last() == ValueModel::Float(old(self).parser.prev.value@)),
        decreases old(self).fuel(), 2int,
    {
        match f {
            ExprFn::Number => self.number(),
            ExprFn::Arithmetic => self.arithmetic(),
        }
    }

    /// Compiles an expression whose operators bind at least as tightly as `prec`.
    pub fn parse(&mut self, prec: Precedence) -> (r: Result<(), CompileError>)
        requires
            old(self).parser.index <= old(self).parser.tokens@.len(),
        ensures
            r is Ok ==> advanced(*old(self), *final(self)) && final(self).parser.index > old(self).parser.index,
            lone_number(*old(self), prec.level()) ==> r is Ok && number_loaded(*old(self), *final(self)),
        decreases old(self).fuel(), 0int,
    {
        self.parser.advance()?;
        let prev_type = self.parser.prev.token_type;
        let rule = self.parser.get_rule(&prev_type)?;
        match rule.prefix {
            Some(f) => {
                self.run_rule(f)?;
            },
            None => {
                return Err(error(ErrorKind::NoPrefix, self.parser.prev.line, Some(prev_type)));
            },
        }
        loop
            invariant_except_break
                advanced(*old(self), *self),
                self.parser.index > old(self).parser.index,
                lone_number(*old(self), prec.level()) ==> number_loaded(*old(self), *self),
            ensures
                advanced(*old(self), *self),
                self.parser.index > old(self).parser.index,
                lone_number(*old(self), prec.level()) ==> number_loaded(*old(self), *self),
            decreases self.fuel(),
        {
            let cur_rule = self.parser.get_rule(&self.parser.cur.token_type)?;
            if !(prec.to_u32() <= cur_rule.prec.to_u32()) {
                break;
            }
            self.parser.advance()?;
            let prev_type = self.parser.prev.token_type;
            let rule = self.parser.get_rule(&prev_type)?;
            match rule.infix {
                Some(f) => {
                    self.run_rule(f)?;
                },
                None => {
                    return Err(error(ErrorKind::NoInfix, self.parser.prev.line, Some(prev_type)));
                },
            }
        }
        Ok(())
    }

    /// Compiles the operator just consumed and its right operand, whose type must be the
    /// type of the last constant: then the operation for integers or for floats.
    pub fn arithmetic(&mut self) -> (r: Result<(), CompileError>)
        requires
            old(self).parser.index <= old(self).parser.tokens@.len(),
        ensures
            r is Ok ==> advanced(*old(self), *final(self)) && final(self).parser.index > old(self).parser.index,
            r is Ok ==> {
                let int_ops = old(self).parser.cur.token_type == TokenType::INT;
                &&& old(self).parser.cur.token_type == TokenType::INT || old(self).parser.cur.token_type == TokenType::FLOAT
                &&& final(self).chunk.code@.last() == Instruction {
                    op: match old(self).parser.prev.token_type {
                        TokenType::PLUS => if int_ops { OpCode::ADD_INT } else { OpCode::ADD_FLOAT },
                        TokenType::MINUS => if int_ops { OpCode::SUB_INT } else { OpCode::SUB_FLOAT },
                        TokenType::STAR => if int_ops { OpCode::MUL_INT } else { OpCode::MUL_FLOAT },
                        _ => if int_ops { OpCode::DIV_INT } else { OpCode::DIV_FLOAT },
                    },
                    line: old(self).parser.prev.line,
                }
            },
            number_operand_ahead(*old(self)) ==> r is Ok && final(self).parser.index == old(self).parser.index + 1
                && final(self).chunk.code@.len() == old(self).chunk.code@.len() + 2,
        decreases old(self).fuel(), 1int,
    {
        let op_type = self.parser.prev.token_type;
        let line = self.parser.prev.line;
        if self.chunk.values.len() == 0 {
            return Err(error(ErrorKind::IndexOutOfRange, line, None));
        }
        let last = self.chunk.get_last_value();
        if !self.check_num_types(self.parser.cur.token_type, &last) {
            return Err(error(ErrorKind::MismatchedTypes, line, Some(self.parser.cur.token_type)));
        }
        let constants_type = self.parser.cur.token_type;
        let rule = self.parser.get_rule(&op_type)?;
        let next = match Precedence::from_u32(rule.prec.to_u32() + 1) {
            Some(p) => p,
            None => {
                return Err(error(ErrorKind::Internal, line, None));
            },
        };
        self.parse(next)?;
        let int_ops = constants_type == TokenType::INT;
        let op = match op_type {
            TokenType::PLUS => if int_ops { OpCode::ADD_INT } else { OpCode::ADD_FLOAT },
            TokenType::MINUS => if int_ops { OpCode::SUB_INT } else { OpCode::SUB_FLOAT },
            TokenType::STAR => if int_ops { OpCode::MUL_INT } else { OpCode::MUL_FLOAT },
            TokenType::SLASH => if int_ops { OpCode::DIV_INT } else { OpCode::DIV_FLOAT },
            t => {
                return Err(error(ErrorKind::UnexpectedToken, line, Some(t)));
            },
        };
        self.emit_byte(op, line);
        Ok(())
    }

    /// Compiles the tokens as one arithmetic expression, then a `RETURN` on the line of the
    /// last instruction, and gives back the chunk.
    pub fn compile(&mut self) -> (r: Result<Chunk, CompileError>)
        requires
            old(self).parser.index <= old(self).parser.tokens@.len(),
        ensures
            r matches Ok(c) ==> c.code@.len() >= 2 && c.code@.last().op == OpCode::RETURN && c.code@.last().line
                == c.code@[c.code@.len() - 2].line,
            single_number_ahead(*old(self)) ==> (r matches Ok(c) && c.code@.len() == old(self).chunk.code@.len() + 2
                && c.values@.len() == old(self).chunk.values@.len() + 1),
    {
        self.parser.advance()?;
        self.expression()?;
        if self.chunk.code.len() == 0 {
            return Err(error(ErrorKind::ExpectedExpression, self.parser.prev.line, None));
        }
        let line = self.chunk.get_last_instruction().line;
        self.emit_byte(OpCode::RETURN, line);
        let mut chunk = Chunk::new();
        std::mem::swap(&mut chunk, &mut self.chunk);
        Ok(chunk)
    }
}

} // verus!
