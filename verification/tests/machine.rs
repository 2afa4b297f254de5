use shlang::bytecode::{Chunk, Instruction, OpCode};
use shlang::compiler::{
    find_symbol, get_natives_fn, get_natives_symbols, init_rule, name_taken, Compiler, ErrorKind, LoopInfo, ParseFn,
    Parser, Precedence,
};
use shlang::debug::debug_chunk;
use shlang::expr_compiler;
use shlang::lexer::Scanner;
use shlang::lists::{ListMethods, ListObj};
use shlang::natives::RuntimeError;
use shlang::objects::{Function, NativeFunction, Struct, StructInstance};
use shlang::rc::{EmptyObject, HeapObject, ReferenceCounter};
use shlang::strings::{StringMethods, StringObj};
use shlang::tokens::{Keywords, TokenType};
use shlang::value::{Convert, Value, ValuesArray};
use shlang::vm::{call_native, exec_pure, int_op, sort_ints, CodeRef, Frame, VM};

fn chars(s: &str) -> Vec<char> {
    s.chars().collect()
}

fn text(v: &[char]) -> String {
    v.iter().collect()
}

fn tokens_of(source: &str) -> Vec<shlang::tokens::Token> {
    let source = source.to_string();
    let mut scanner = Scanner::init(&source);
    scanner.get_tokens()
}

#[test]
fn value_accessors() {
    assert_eq!(Value::Int(3).get_int(), Some(3));
    assert_eq!(Value::Bool(true).get_int(), None);
    assert_eq!(Value::Bool(true).get_bool(), Some(true));
    assert_eq!(Value::Float(chars("2.5")).get_float(), Some(chars("2.5")));
    assert_eq!(Value::String(chars("s")).get_string(), Some(chars("s")));
    assert_eq!(Value::Null.get_string(), None);
    assert_eq!(Value::Int(4).negate(), Some(Value::Int(-4)));
    assert_eq!(Value::Bool(true).negate(), Some(Value::Bool(false)));
    assert_eq!(Value::Int(i64::MIN).negate(), None);
    assert_eq!(Value::Null.negate(), None);
    assert_eq!(Value::InstanceRef(3).convert(), Some(TokenType::STRUCT(3)));
    assert_eq!(Value::EmptyObj.convert(), None);
    assert_eq!(Value::String(chars("a")).copy(), Value::String(chars("a")));
}

#[test]
fn values_array_and_chunk() {
    let mut values = ValuesArray::init();
    values.push(Value::Int(1));
    values.push(Value::Bool(false));
    assert_eq!(values.len(), 2);
    assert_eq!(values.get(1), Value::Bool(false));
    let mut chunk = Chunk::new();
    let i = chunk.push_value(Value::Int(9));
    assert_eq!(i, 0);
    chunk.push(Instruction { op: OpCode::CONSTANT_INT(0), line: 4 });
    chunk.push(Instruction { op: OpCode::RETURN, line: 5 });
    assert_eq!(chunk.len(), 2);
    assert_eq!(chunk.get_instruction(0).op, OpCode::CONSTANT_INT(0));
    assert_eq!(chunk.get_last_instruction().line, 5);
    assert_eq!(chunk.get_value(0), Value::Int(9));
    assert_eq!(chunk.get_last_value(), Value::Int(9));
}

#[test]
fn objects_start_empty() {
    let f = Function::new(chars("f"));
    assert_eq!(f.arg_count, 0);
    assert_eq!(f.output_type, TokenType::KEYWORD(Keywords::NULL));
    assert_eq!(f.rc_counter, 1);
    let s = Struct::new(chars("S"));
    assert_eq!(s.field_count, 0);
    assert_eq!(s.find_method(&chars("m")), None);
    let i = StructInstance::new();
    assert_eq!(i.fields_values.len(), 0);
    assert_eq!(i.rc_counter, 1);
}

#[test]
fn reference_counter_counts_and_sweeps() {
    let mut rc = ReferenceCounter::init();
    let mut inner = StructInstance::new();
    inner.fields_values.push(Value::String(chars("x")));
    rc.push(HeapObject::Instance(inner));
    let mut outer = StructInstance::new();
    outer.fields_values.push(Value::StringRef(0));
    rc.push(HeapObject::Instance(outer));
    rc.inc_counter(1);
    rc.dec_counter(1);
    rc.dec_counter(1);
    rc.remove();
    assert_eq!(rc.heap.len(), 2);
    assert_eq!(rc.heap[1], HeapObject::Empty(EmptyObject {}));
    assert_eq!(rc.heap[0], HeapObject::Empty(EmptyObject {}));
    rc.remove_all();
    assert_eq!(rc.heap.len(), 0);
}

#[test]
fn reference_counter_checked_operations() {
    let mut rc = ReferenceCounter::init();
    rc.push(HeapObject::Instance(StructInstance::new()));
    assert_eq!(rc.try_inc_counter(5), Err(RuntimeError::BadReference));
    assert_eq!(rc.try_dec_counter(0), Ok(()));
    assert_eq!(rc.try_dec_counter(0), Err(RuntimeError::BadReference));
    let mut holder = StructInstance::new();
    holder.fields_values.push(Value::InstanceRef(7));
    holder.rc_counter = 0;
    rc.push(HeapObject::Instance(holder));
    assert_eq!(rc.try_remove(), Err(RuntimeError::BadReference));
}

#[test]
fn list_type_and_methods() {
    let list = ListObj::init(32);
    assert_eq!(text(&list.name), "List");
    assert_eq!(list.methods.len(), 6);
    let names: Vec<String> = list.methods.iter().map(|m| text(&m.name)).collect();
    assert_eq!(names, vec!["push", "pop", "insert", "remove", "len", "sort"]);
    let len = &list.methods[4].function;
    let ops: Vec<OpCode> = len.chunk.code.iter().map(|i| i.op.clone_op()).collect();
    assert_eq!(ops.len(), 7);
    let mut m = ListMethods { cur_pos: 0 };
    let f = m.generate_method_function(chars("pop"), TokenType::LIST_ELEMENT, 0, Vec::new(), OpCode::LIST_POP);
    assert_eq!(m.cur_pos, 1);
    assert_eq!(f.chunk.code[1].op, OpCode::LIST_POP);
    assert_eq!(f.chunk.code[2].op, OpCode::RETURN);
}

trait CloneOp {
    fn clone_op(&self) -> OpCode;
}

impl CloneOp for OpCode {
    fn clone_op(&self) -> OpCode {
        shlang::vm::copy_op(self).unwrap()
    }
}

#[test]
fn string_type_and_methods() {
    let s = StringObj::init(19);
    assert_eq!(text(&s.name), "String");
    assert_eq!(s.field_count, 1);
    assert_eq!(s.methods.len(), 12);
    assert_eq!(text(&s.methods[11].name), "replace");
    let rc = StringMethods::get_methods_rc();
    assert_eq!(rc.len(), 12);
    assert_eq!(rc[3].function, NativeFunction::StrGet);
    let mut m = StringMethods { cur_pos: 19 };
    let f = m.pack_into_fn(chars("count"), TokenType::INT, 2, TokenType::STRING);
    assert_eq!(m.cur_pos, 20);
    assert_eq!(f.arg_count, 1);
    assert!(f.is_self_arg);
    let ops: Vec<OpCode> = f.chunk.code.iter().map(|i| i.op.clone_op()).collect();
    assert_eq!(
        ops,
        vec![
            OpCode::GET_INSTANCE_FIELD(0, 0),
            OpCode::GET_INSTANCE_RF(1),
            OpCode::INC_RC(1),
            OpCode::NATIVE_FN_CALL(20),
            OpCode::RETURN,
            OpCode::CONSTANT_NULL(1),
            OpCode::RETURN,
            OpCode::DEC_RC(0),
            OpCode::DEC_RC(1),
            OpCode::END_OF_FN,
        ]
    );
}

#[test]
fn precedence_round_trip() {
    for v in 0u32..=10 {
        let p = Precedence::from_u32(v).unwrap();
        assert_eq!(p.to_u32(), v);
    }
    assert_eq!(Precedence::from_u32(11), None);
}

#[test]
fn parse_rules() {
    let r = init_rule(TokenType::STAR).unwrap();
    assert_eq!(r.infix, Some(ParseFn::Arithmetic));
    assert_eq!(r.prec, Precedence::FACTOR);
    assert_eq!(init_rule(TokenType::MINUS).unwrap().prefix, Some(ParseFn::Negation));
    assert_eq!(init_rule(TokenType::COLON), None);
    let _ = LoopInfo::new();
}

#[test]
fn natives_tables_line_up() {
    let symbols = get_natives_symbols();
    let fns = get_natives_fn();
    assert_eq!(symbols.len(), fns.len());
    assert_eq!(text(&symbols[8].name), "pow");
    assert_eq!(fns[8].function, NativeFunction::PowInt);
    assert_eq!(fns[8].arg_count, symbols[8].arg_count);
    assert_eq!(find_symbol(&symbols, &chars("max"), false), Some(12));
    assert_eq!(find_symbol(&symbols, &chars("max"), true), None);
    assert!(name_taken(&symbols, &chars("input")));
    assert!(!name_taken(&symbols, &chars("nothing")));
}

#[test]
fn symbol_table_of_a_program() {
    let tokens = tokens_of("struct P {\n    x: int,\n}\nfn main() {\n}\nfn f(a: int, b: int) int {\n    return a\n}\n");
    let mut compiler = Compiler::new(tokens);
    assert!(compiler.parser.get_symbols(12, 6).is_ok());
    let symbols = &compiler.parser.symbols;
    assert_eq!(symbols.len(), 42);
    assert_eq!(text(&symbols[19].name), "String");
    assert_eq!(text(&symbols[32].name), "List");
    assert_eq!(text(&symbols[39].name), "P");
    assert_eq!(text(&symbols[40].name), "main");
    assert_eq!(text(&symbols[41].name), "f");
    assert_eq!(symbols[41].arg_count, 2);
    assert_eq!(symbols[41].output_type, TokenType::INT);
}

#[test]
fn symbol_table_errors() {
    let mut c = Compiler::new(tokens_of("fn helper() {\n}\n"));
    assert_eq!(c.parser.get_symbols(12, 6).map_err(|e| e.kind), Err(ErrorKind::NoMain));
    let mut c = Compiler::new(tokens_of("struct S {\n}\nstruct S {\n}\nfn main() {\n}\n"));
    assert_eq!(c.parser.get_symbols(12, 6).map_err(|e| e.kind), Err(ErrorKind::StructRedefined));
    let mut c = Compiler::new(tokens_of("fn main() Q {\n}\n"));
    assert_eq!(c.parser.get_symbols(12, 6).map_err(|e| e.kind), Err(ErrorKind::StructNotDefined));
}

#[test]
fn parser_moves_and_checks() {
    let mut p = Parser {
        tokens: tokens_of("a ,"),
        cur: shlang::tokens::Token { token_type: TokenType::ERROR, value: Vec::new(), line: 0 },
        prev: shlang::tokens::Token { token_type: TokenType::ERROR, value: Vec::new(), line: 0 },
        line: 0,
        index: 0,
        symbols: Vec::new(),
    };
    assert!(p.advance().is_ok());
    assert_eq!(p.cur.token_type, TokenType::IDENTIFIER);
    assert_eq!(p.consume(TokenType::COMMA).map_err(|e| e.kind), Err(ErrorKind::Expected));
    assert!(p.consume(TokenType::IDENTIFIER).is_ok());
    assert!(p.consume(TokenType::COMMA).is_ok());
    assert!(p.check_if_eof());
    assert!(p.advance().is_err());
    assert_eq!(p.get_rule(&TokenType::COLON).map_err(|e| e.kind), Err(ErrorKind::NoParseRule));
}

#[test]
fn compiled_program_starts_with_builtin_types() {
    let mut compiler = Compiler::new(tokens_of("fn main() {\n    println(1)\n}\n"));
    let chunk = compiler.compile().unwrap();
    assert_eq!(chunk.code.len(), 3);
    match &chunk.code[0].op {
        OpCode::STRUCT_DEC(s) => assert_eq!(text(&s.name), "String"),
        _ => panic!("expected the String declaration"),
    }
    match &chunk.code[1].op {
        OpCode::STRUCT_DEC(s) => assert_eq!(text(&s.name), "List"),
        _ => panic!("expected the List declaration"),
    }
    match &chunk.code[2].op {
        OpCode::FUNCTION_DEC(f) => assert_eq!(text(&f.name), "main"),
        _ => panic!("expected main"),
    }
}

#[test]
fn compiled_struct_carries_its_fields() {
    let mut compiler = Compiler::new(tokens_of("struct P {\n    x: int,\n    y: bool,\n}\nfn main() {\n}\n"));
    let chunk = compiler.compile().unwrap();
    match &chunk.code[2].op {
        OpCode::STRUCT_DEC(s) => {
            assert_eq!(text(&s.name), "P");
            assert_eq!(s.field_count, 2);
            assert_eq!(s.locals[1].local_type, TokenType::BOOL);
        },
        _ => panic!("expected the struct"),
    }
}

#[test]
fn statement_outside_function_is_refused() {
    let mut compiler = Compiler::new(tokens_of("println(1)\nfn main() {\n}\n"));
    assert_eq!(compiler.compile().map(|_| ()).map_err(|e| e.kind), Err(ErrorKind::OutsideBounds));
}

#[test]
fn integer_operations() {
    assert_eq!(int_op(&OpCode::ADD_INT, 2, 3), Ok(Value::Int(5)));
    assert_eq!(int_op(&OpCode::SUB_INT, 2, 3), Ok(Value::Int(-1)));
    assert_eq!(int_op(&OpCode::MUL_INT, i64::MAX, 2), Err(RuntimeError::Overflow));
    assert_eq!(int_op(&OpCode::DIV_INT, -7, 2), Ok(Value::Int(-3)));
    assert_eq!(int_op(&OpCode::DIV_INT, i64::MIN, -1), Err(RuntimeError::Overflow));
    assert_eq!(int_op(&OpCode::DIV_INT, 1, 0), Err(RuntimeError::DivisionByZero));
    assert_eq!(int_op(&OpCode::MOD_INT, -7, 3), Ok(Value::Int(2)));
    assert_eq!(int_op(&OpCode::MOD_INT, 7, -3), Ok(Value::Int(1)));
    assert_eq!(int_op(&OpCode::MOD_INT, i64::MIN, -1), Err(RuntimeError::Overflow));
    assert_eq!(int_op(&OpCode::MOD_INT, 5, 0), Err(RuntimeError::DivisionByZero));
    assert_eq!(int_op(&OpCode::GREATER_INT, 3, 2), Ok(Value::Bool(true)));
    assert_eq!(int_op(&OpCode::EQ_LESS_INT, 3, 2), Ok(Value::Bool(false)));
    assert_eq!(int_op(&OpCode::NEG_EQ_INT, 3, 2), Ok(Value::Bool(true)));
}

#[test]
fn add_then_sub_gives_back() {
    let c = match int_op(&OpCode::ADD_INT, 40, 2) {
        Ok(Value::Int(c)) => c,
        _ => panic!(),
    };
    assert_eq!(int_op(&OpCode::SUB_INT, c, 2), Ok(Value::Int(40)));
}

#[test]
fn frame_level_instructions() {
    let mut frame = Frame { code: CodeRef::Function(0), stack: vec![Value::Int(1), Value::Int(2)], ip: 5 };
    let mut brk = false;
    assert_eq!(exec_pure(&mut frame, &mut brk, &OpCode::VAR_SET(0), None), Some(Ok(())));
    assert_eq!(frame.stack, vec![Value::Int(2), Value::Int(2)]);
    assert_eq!(exec_pure(&mut frame, &mut brk, &OpCode::VAR_CALL(0), None), Some(Ok(())));
    assert_eq!(frame.stack.last(), Some(&Value::Int(2)));
    assert_eq!(exec_pure(&mut frame, &mut brk, &OpCode::LOOP(3), None), Some(Ok(())));
    assert_eq!(frame.ip, 2);
    assert_eq!(exec_pure(&mut frame, &mut brk, &OpCode::LOOP(3), None), Some(Err(RuntimeError::CodeOutOfRange)));
    assert_eq!(exec_pure(&mut frame, &mut brk, &OpCode::BREAK, None), Some(Ok(())));
    assert!(brk);
    frame.stack.push(Value::Bool(true));
    assert_eq!(exec_pure(&mut frame, &mut brk, &OpCode::IF_STMT_OFFSET(4), None), Some(Ok(())));
    assert_eq!(frame.ip, 6);
    assert!(!brk);
    assert_eq!(exec_pure(&mut frame, &mut brk, &OpCode::CONSTANT_INT(0), Some(Value::Int(8))), Some(Ok(())));
    assert_eq!(frame.stack.last(), Some(&Value::Int(8)));
    assert_eq!(exec_pure(&mut frame, &mut brk, &OpCode::CONSTANT_INT(0), None), Some(Err(RuntimeError::IndexOutOfRange)));
    assert_eq!(exec_pure(&mut frame, &mut brk, &OpCode::LIST_PUSH, None), None);
    frame.stack.push(Value::Float(chars("1.0")));
    assert_eq!(exec_pure(&mut frame, &mut brk, &OpCode::NEGATE, None), None);
}

#[test]
fn sorting_integers() {
    assert_eq!(sort_ints(&vec![3, -1, 2, 2, 0]), vec![-1, 0, 2, 2, 3]);
    assert_eq!(sort_ints(&vec![]), Vec::<i64>::new());
}

#[test]
fn natives_split_between_here_and_outside() {
    assert_eq!(call_native(NativeFunction::AbsInt, &vec![Value::Int(-2)]), Some(Ok(Value::Int(2))));
    assert_eq!(call_native(NativeFunction::Print, &vec![Value::Int(1)]), None);
    assert_eq!(call_native(NativeFunction::ConvToString, &vec![Value::Float(chars("1.5"))]), None);
    assert_eq!(call_native(NativeFunction::SqrtFloat, &vec![Value::Float(chars("4.0"))]), None);
}

#[test]
fn declare_all_finds_main() {
    let mut compiler = Compiler::new(tokens_of("fn other() {\n}\nfn main() {\n}\n"));
    let chunk = compiler.compile().unwrap();
    let mut vm = VM::new();
    let frame = vm.declare_all(chunk).unwrap();
    assert_eq!(vm.rc.heap.len(), 19 + 1 + 12 + 1 + 6 + 2);
    assert_eq!(frame.code, CodeRef::Function(40));
    assert_eq!(frame.ip, 0);
}

#[test]
fn machine_refuses_to_run_without_a_frame() {
    let mut vm = VM::new();
    assert_eq!(vm.run(10).map(|_| ()), Err(RuntimeError::BadInstruction));
    assert_eq!(vm.resume(Value::Null), Err(RuntimeError::BadInstruction));
    assert_eq!(vm.finish_call(Value::Null), Err(RuntimeError::BadInstruction));
}

#[test]
fn listing_shows_constants() {
    let mut chunk = Chunk::new();
    chunk.push_value(Value::Int(4));
    chunk.push(Instruction { op: OpCode::CONSTANT_INT(0), line: 1 });
    chunk.push(Instruction { op: OpCode::CONSTANT_INT(3), line: 1 });
    chunk.push(Instruction { op: OpCode::RETURN, line: 1 });
    let lines = debug_chunk(&chunk);
    assert_eq!(lines.len(), 3);
    assert_eq!(lines[0].offset, 0);
    assert_eq!(lines[0].constant, Some(Value::Int(4)));
    assert_eq!(lines[1].constant, None);
    assert_eq!(lines[2].offset, 2);
}

#[test]
fn arithmetic_compiler_builds_code() {
    let mut c = expr_compiler::Compiler::new(tokens_of("1 + 2 * 3"));
    let chunk = c.compile().unwrap();
    let ops: Vec<OpCode> = chunk.code.iter().map(|i| i.op.clone_op()).collect();
    assert_eq!(
        ops,
        vec![
            OpCode::CONSTANT_INT(0),
            OpCode::CONSTANT_INT(1),
            OpCode::CONSTANT_INT(2),
            OpCode::MUL_INT,
            OpCode::ADD_INT,
            OpCode::RETURN,
        ]
    );
    assert_eq!(chunk.values.get(2), Value::Int(3));
}

#[test]
fn arithmetic_compiler_floats_and_errors() {
    let mut c = expr_compiler::Compiler::new(tokens_of("1.5 - 0.5"));
    let chunk = c.compile().unwrap();
    assert_eq!(chunk.code[2].op, OpCode::SUB_FLOAT);
    let mut c = expr_compiler::Compiler::new(tokens_of("1 + 2.5"));
    assert_eq!(c.compile().map(|_| ()).map_err(|e| e.kind), Err(ErrorKind::MismatchedTypes));
    let mut c = expr_compiler::Compiler::new(tokens_of("+ 1"));
    assert_eq!(c.compile().map(|_| ()).map_err(|e| e.kind), Err(ErrorKind::NoPrefix));
    assert!(expr_compiler::init_rules(TokenType::COMMA).is_none());
}

#[test]
fn current_function_parts_can_be_changed() {
    let mut compiler = Compiler::new(tokens_of("fn main() {\n}\n"));
    compiler.get_cur_chunk().push(Instruction { op: OpCode::RETURN, line: 3 });
    assert_eq!(compiler.cur_function.chunk.code.len(), 1);
    assert_eq!(compiler.cur_function.chunk.code[0].op, OpCode::RETURN);
    assert_eq!(compiler.cur_function.chunk.code[0].line, 3);
    let local = || shlang::objects::Local {
        name: chars("x"),
        local_type: TokenType::INT,
        is_redirected: false,
        redirect_pos: 0,
        rf_index: 0,
        is_special: shlang::objects::SpecialType::Null,
    };
    compiler.get_cur_locals().push(local());
    assert_eq!(compiler.cur_function.locals.len(), 1);
    assert_eq!(text(&compiler.cur_function.locals[0].name), "x");
    assert!(compiler.get_cur_instances().is_empty());
    compiler.get_cur_instances().push(local());
    assert_eq!(compiler.cur_function.instances.len(), 1);
    assert_eq!(compiler.cur_function.locals.len(), 1);
}

#[test]
fn declarations_are_laid_out_on_the_heap() {
    let mut compiler = Compiler::new(tokens_of("fn main() {\n}\n"));
    let chunk = compiler.compile().unwrap();
    let mut vm = VM::new();
    let frame = vm.declare_all(chunk).unwrap();
    assert_eq!(vm.rc.heap.len(), 19 + 1 + 12 + 1 + 6 + 1);
    assert!(matches!(vm.rc.heap[19], HeapObject::Struct(_)));
    assert!(matches!(vm.rc.heap[20], HeapObject::Native(_)));
    assert!(matches!(vm.rc.heap[32], HeapObject::Struct(_)));
    assert!(matches!(vm.rc.heap[33], HeapObject::Empty(_)));
    assert!(matches!(vm.rc.heap[39], HeapObject::Function(_)));
    assert_eq!(frame.code, CodeRef::Function(39));
}
