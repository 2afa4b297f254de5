use shlang::compiler::{Compiler, ErrorKind};
use shlang::expr_compiler;
use shlang::lexer::Scanner;

fn tokens_of(source: &str) -> Vec<shlang::tokens::Token> {
    let source = source.to_string();
    let mut scanner = Scanner::init(&source);
    scanner.get_tokens()
}

fn compile_code_len(source: &str) -> Result<usize, ErrorKind> {
    let mut compiler = Compiler::new(tokens_of(source));
    compiler.compile().map(|chunk| chunk.code.len()).map_err(|e| e.kind)
}

#[test]
fn bool_comparison_compiles() {
    assert!(compile_code_len("fn main() {\n    var b: bool = true == false\n}\n").is_ok());
    assert!(compile_code_len("fn main() {\n    var b: bool = true != false\n}\n").is_ok());
}

#[test]
fn bool_arithmetic_is_refused() {
    assert_eq!(compile_code_len("fn main() {\n    var b: bool = true + false\n}\n"), Err(ErrorKind::UnexpectedType));
    assert_eq!(compile_code_len("fn main() {\n    var b: bool = true * false\n}\n"), Err(ErrorKind::UnexpectedType));
}

#[test]
fn bool_variable_declared_then_assigned() {
    assert!(compile_code_len("fn main() {\n    var b: bool\n    b = true\n}\n").is_ok());
}

#[test]
fn for_over_literal_bounds_with_empty_body() {
    assert!(compile_code_len("fn main() {\n    for i in (true, false) {\n    }\n}\n").is_ok());
}

#[test]
fn empty_struct_and_empty_list() {
    assert!(compile_code_len("struct E {\n}\nfn main() {\n    var l: List<int> = []\n}\n").is_ok());
}

#[test]
fn struct_with_empty_method() {
    assert!(compile_code_len("struct S {\n    methods {\n        m() {\n        }\n    }\n}\nfn main() {\n}\n").is_ok());
}

#[test]
fn lone_main_symbol_table() {
    let mut compiler = Compiler::new(tokens_of("fn main() {\n}\n"));
    assert!(compiler.parser.get_symbols(12, 6).is_ok());
    let last = compiler.parser.symbols.last().unwrap();
    assert_eq!(last.name.iter().collect::<String>(), "main");
    let mut compiler = Compiler::new(tokens_of("fn main() {\n}\n"));
    assert!(compiler.impl_native_types().is_ok());
    assert_eq!(compiler.cur_function.chunk.code.len(), 2);
}

#[test]
fn arithmetic_compiler_single_number() {
    let mut c = expr_compiler::Compiler::new(tokens_of("2.5"));
    let chunk = c.compile().unwrap();
    assert_eq!(chunk.code.len(), 2);
    let mut c = expr_compiler::Compiler::new(tokens_of("7"));
    let chunk = c.compile().unwrap();
    assert_eq!(chunk.code.len(), 2);
}

#[test]
fn lone_empty_main_compiles() {
    let mut compiler = Compiler::new(tokens_of("fn main() {\n}\n"));
    let chunk = compiler.compile().unwrap();
    assert_eq!(chunk.code.len(), 3);
}

#[test]
fn comparison_of_different_types_is_refused() {
    assert_eq!(compile_code_len("fn main() {\n    var b: bool = 1 == true\n}\n"), Err(ErrorKind::MismatchedTypes));
}

#[test]
fn assignment_of_another_type_is_refused() {
    assert_eq!(compile_code_len("fn main() {\n    var x: int = 1\n    x = true\n}\n"), Err(ErrorKind::MismatchedTypes));
}

#[test]
fn unknown_field_is_refused() {
    let src = "struct P {\n    x: int,\n}\nfn main() {\n    var p: P = { 1 }\n    println(p.y)\n}\n";
    assert_eq!(compile_code_len(src), Err(ErrorKind::FieldNotDeclared));
}

#[test]
fn wrong_number_of_fields_is_refused() {
    let src = "struct P {\n    x: int,\n}\nfn main() {\n    var p: P = { 1, 2 }\n}\n";
    assert_eq!(compile_code_len(src), Err(ErrorKind::FieldCount));
    let src = "struct P {\n    x: int,\n}\nfn main() {\n    var p: P = { }\n}\n";
    assert_eq!(compile_code_len(src), Err(ErrorKind::FieldCount));
}

#[test]
fn call_with_missing_arguments_is_refused() {
    let src = "fn f(a: int) int {\n    return a\n}\nfn main() {\n    var x: int = f()\n}\n";
    assert_eq!(compile_code_len(src), Err(ErrorKind::ArgumentCount));
}

#[test]
fn symbol_table_prelude() {
    let mut compiler = Compiler::new(tokens_of("fn main() {\n}\n"));
    assert!(compiler.parser.get_symbols(12, 6).is_ok());
    let s = &compiler.parser.symbols;
    assert_eq!(s[5].name.iter().collect::<String>(), "convstr");
    assert_eq!(s[18].name.iter().collect::<String>(), "ceilf");
    assert_eq!(s[19].arg_count, 1);
    assert!(s[20].name.is_empty());
    assert_eq!(s[20].arg_count, 1);
    assert_eq!(s[32].name.iter().collect::<String>(), "List");
    assert_eq!(s[32].arg_count, 0);
    assert!(s[33].name.is_empty());
}
