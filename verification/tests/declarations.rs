use shlang::bytecode::OpCode;
use shlang::compiler::{CompileError, Compiler, ErrorKind};
use shlang::lexer::Scanner;
use shlang::tokens::{Keywords, TokenType};

fn tokens_of(source: &str) -> Vec<shlang::tokens::Token> {
    let source = source.to_string();
    let mut scanner = Scanner::init(&source);
    scanner.get_tokens()
}

fn symbols_of(source: &str) -> Result<Compiler, ErrorKind> {
    let mut compiler = Compiler::new(tokens_of(source));
    compiler.parser.get_symbols(12, 6).map(|_| compiler).map_err(|e| e.kind)
}

fn compile(source: &str) -> Result<shlang::bytecode::Chunk, CompileError> {
    let mut compiler = Compiler::new(tokens_of(source));
    compiler.compile()
}

fn name(v: &[char]) -> String {
    v.iter().collect()
}

#[test]
fn symbol_table_errors_name_their_problem() {
    let twice = "fn main() {\n}\nfn main() {\n}\n";
    assert_eq!(symbols_of(twice).err(), Some(ErrorKind::FunctionRedefined));
    let native = "fn print() {\n}\nfn main() {\n}\n";
    assert_eq!(symbols_of(native).err(), Some(ErrorKind::FunctionRedefined));
    let structs = "struct A {\n}\nstruct A {\n}\nfn main() {\n}\n";
    assert_eq!(symbols_of(structs).err(), Some(ErrorKind::StructRedefined));
    let builtin = "struct List {\n}\nfn main() {\n}\n";
    assert_eq!(symbols_of(builtin).err(), Some(ErrorKind::StructRedefined));
    let unknown = "fn f() B {\n}\nfn main() {\n}\n";
    assert_eq!(symbols_of(unknown).err(), Some(ErrorKind::StructNotDefined));
    let later = "fn f() B {\n}\nstruct B {\n}\nfn main() {\n}\n";
    assert_eq!(symbols_of(later).err(), Some(ErrorKind::StructNotDefined));
    let no_main = "fn f() {\n}\n";
    assert_eq!(symbols_of(no_main).err(), Some(ErrorKind::NoMain));
    let first_problem = "fn f() {\n}\nfn f() {\n}\n";
    assert_eq!(symbols_of(first_problem).err(), Some(ErrorKind::FunctionRedefined));
}

#[test]
fn symbol_table_of_several_declarations() {
    let src = "struct B {\n}\nfn f(a: int, b: int) B {\n}\nfn main() {\n}\n";
    let compiler = symbols_of(src).ok().unwrap();
    let s = &compiler.parser.symbols;
    assert_eq!(s.len(), 21 + 12 + 6 + 3);
    assert_eq!(name(&s[39].name), "B");
    assert_eq!(s[39].symbol_type, TokenType::KEYWORD(Keywords::STRUCT));
    assert_eq!(name(&s[40].name), "f");
    assert_eq!(s[40].symbol_type, TokenType::KEYWORD(Keywords::FN));
    assert_eq!(s[40].arg_count, 2);
    assert_eq!(s[40].output_type, TokenType::STRUCT(39));
    assert_eq!(name(&s[41].name), "main");
    assert_eq!(s[41].output_type, TokenType::NULL);
}

#[test]
fn program_declarations_stand_in_order() {
    let src = "struct P {\n    x: int,\n}\nfn g(a: int, b: bool) {\n}\nfn main() {\n}\n";
    let chunk = compile(src).ok().unwrap();
    assert_eq!(chunk.code.len(), 5);
    match &chunk.code[2].op {
        OpCode::STRUCT_DEC(s) => assert_eq!(name(&s.name), "P"),
        _ => panic!("struct declaration expected"),
    }
    match &chunk.code[3].op {
        OpCode::FUNCTION_DEC(f) => {
            assert_eq!(name(&f.name), "g");
            assert_eq!(f.arg_count, 2);
            assert_eq!(name(&f.locals[0].name), "a");
            assert_eq!(name(&f.locals[1].name), "b");
            assert_eq!(f.chunk.code.last().unwrap().op, OpCode::END_OF_FN);
        }
        _ => panic!("function declaration expected"),
    }
    match &chunk.code[4].op {
        OpCode::FUNCTION_DEC(f) => assert_eq!(name(&f.name), "main"),
        _ => panic!("function declaration expected"),
    }
}

#[test]
fn a_statement_outside_functions_is_refused() {
    let src = "var x: int = 1\nfn main() {\n}\n";
    assert_eq!(compile(src).err().map(|e| e.kind), Some(ErrorKind::OutsideBounds));
}

#[test]
fn miscounts_carry_both_counts() {
    let src = "struct P {\n    x: int,\n}\nfn main() {\n    var p: P = { 1, 2 }\n}\n";
    let e = compile(src).err().unwrap();
    assert_eq!(e.kind, ErrorKind::FieldCount);
    assert_eq!(e.counts, Some((1, 2)));
    let src = "struct P {\n    x: int,\n}\nfn main() {\n    var p: P = { }\n}\n";
    assert_eq!(compile(src).err().unwrap().counts, Some((1, 0)));
    let src = "fn f(a: int) int {\n    return a\n}\nfn main() {\n    var x: int = f()\n}\n";
    let e = compile(src).err().unwrap();
    assert_eq!(e.kind, ErrorKind::ArgumentCount);
    assert_eq!(e.counts, Some((1, 0)));
}

#[test]
fn a_method_declared_twice_is_refused() {
    let src = "struct S {\n    methods {\n        m() {\n        }\n        m() {\n        }\n    }\n}\nfn main() {\n}\n";
    assert_eq!(compile(src).err().map(|e| e.kind), Some(ErrorKind::MethodRedefined));
}

#[test]
fn built_in_types_have_distinct_method_names() {
    let s = shlang::strings::StringObj::init(19);
    let l = shlang::lists::ListObj::init(32);
    for m in [&s.methods, &l.methods] {
        for i in 0..m.len() {
            for j in 0..i {
                assert_ne!(m[i].name, m[j].name);
            }
        }
    }
}

#[test]
fn calls_with_literal_arguments() {
    let ok = "fn f(a: bool, b: bool) {\n}\nfn main() {\n    f(true, false)\n}\n";
    assert!(compile(ok).is_ok());
    let short = "fn f(a: bool, b: bool) {\n}\nfn main() {\n    f(true)\n}\n";
    let e = compile(short).err().unwrap();
    assert_eq!(e.kind, ErrorKind::ArgumentCount);
    assert_eq!(e.counts, Some((2, 1)));
    let long = "fn f(a: bool) {\n}\nfn main() {\n    f(true, true, false)\n}\n";
    assert_eq!(compile(long).err().unwrap().counts, Some((1, 3)));
}

#[test]
fn instances_with_literal_fields() {
    let ok = "struct P {\n    a: bool,\n    b: bool,\n}\nfn main() {\n    var p: P = { true, false }\n}\n";
    assert!(compile(ok).is_ok());
    let short = "struct P {\n    a: bool,\n    b: bool,\n}\nfn main() {\n    var p: P = { true }\n}\n";
    let e = compile(short).err().unwrap();
    assert_eq!(e.kind, ErrorKind::FieldCount);
    assert_eq!(e.counts, Some((2, 1)));
    let long = "struct P {\n    a: bool,\n    b: bool,\n}\nfn main() {\n    var p: P = { true, true, false }\n}\n";
    let e = compile(long).err().unwrap();
    assert_eq!(e.kind, ErrorKind::FieldCount);
    assert_eq!(e.counts, Some((2, 3)));
}

#[test]
fn comparisons_with_a_literal_on_the_right() {
    let ok = "fn main() {\n    var b: bool = true != false\n}\n";
    assert!(compile(ok).is_ok());
    let ordering = "fn main() {\n    var b: bool = true < false\n}\n";
    assert_eq!(compile(ordering).err().map(|e| e.kind), Some(ErrorKind::UnexpectedToken));
    let mixed = "fn main() {\n    var b: bool = 1 >= true\n}\n";
    assert_eq!(compile(mixed).err().map(|e| e.kind), Some(ErrorKind::MismatchedTypes));
}

#[test]
fn parameters_become_the_first_locals() {
    let src = "fn f(x: bool, y: bool) {\n}\nfn main() {\n}\n";
    let chunk = compile(src).ok().unwrap();
    match &chunk.code[2].op {
        OpCode::FUNCTION_DEC(f) => {
            assert_eq!(f.arg_count, 2);
            assert_eq!(f.locals.len(), 2);
            assert_eq!(name(&f.locals[0].name), "x");
            assert_eq!(name(&f.locals[1].name), "y");
            assert_eq!(f.locals[0].local_type, TokenType::BOOL);
        }
        _ => panic!("function declaration expected"),
    }
}

#[test]
fn compile_reports_the_symbol_table_problem() {
    let no_main = "fn f() {\n}\n";
    assert_eq!(compile(no_main).err().map(|e| e.kind), Some(ErrorKind::NoMain));
    let twice = "struct S {\n}\nfn S() {\n}\nfn main() {\n}\n";
    assert_eq!(compile(twice).err().map(|e| e.kind), Some(ErrorKind::FunctionRedefined));
}
