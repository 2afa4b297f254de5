use shlang::bytecode::{Instruction, OpCode};
use shlang::compiler::Compiler;
use shlang::lexer::Scanner;
use shlang::natives::RuntimeError;
use shlang::objects::{Function, NativeFn, NativeFunction, StructInstance};
use shlang::rc::HeapObject;
use shlang::value::Value;
use shlang::vm::{CodeRef, Frame, Outcome, Pending, VM};

fn chars(s: &str) -> Vec<char> {
    s.chars().collect()
}

fn instance(values: Vec<Value>) -> HeapObject {
    HeapObject::Instance(StructInstance { fields_values: values, rc_counter: 1 })
}

fn string_instance(s: &str) -> HeapObject {
    instance(vec![Value::String(chars(s))])
}

/// A machine running one frame with `stack`, over `heap`.
fn machine(heap: Vec<HeapObject>, stack: Vec<Value>) -> VM {
    let mut vm = VM::new();
    vm.rc.heap = heap;
    vm.frames.push(Frame { code: CodeRef::Function(0), stack, ip: 3 });
    vm
}

fn step(vm: &mut VM, op: OpCode) -> Result<Outcome, RuntimeError> {
    vm.run_instruction(Instruction { op, line: 1 })
}

fn stack(vm: &VM) -> &Vec<Value> {
    &vm.frames[vm.frames.len() - 1].stack
}

fn values_at(vm: &VM, h: usize) -> Vec<Value> {
    match &vm.rc.heap[h] {
        HeapObject::Instance(i) => i.fields_values.iter().map(|v| v.copy()).collect(),
        _ => panic!("no instance at {}", h),
    }
}

fn count_at(vm: &VM, h: usize) -> usize {
    match &vm.rc.heap[h] {
        HeapObject::Instance(i) => i.rc_counter,
        _ => panic!("no instance at {}", h),
    }
}

#[test]
fn list_pop_undoes_list_push() {
    let mut vm = machine(vec![instance(vec![Value::Int(1)])], vec![Value::Int(7), Value::InstanceRef(0)]);
    assert!(matches!(step(&mut vm, OpCode::LIST_PUSH), Ok(Outcome::Running)));
    assert!(stack(&vm).is_empty());
    assert_eq!(values_at(&vm, 0), vec![Value::Int(1), Value::Int(7)]);
    vm.frames[0].stack.push(Value::InstanceRef(0));
    assert!(matches!(step(&mut vm, OpCode::LIST_POP), Ok(Outcome::Running)));
    assert_eq!(stack(&vm), &vec![Value::Int(7)]);
    assert_eq!(values_at(&vm, 0), vec![Value::Int(1)]);
    assert_eq!(vm.frames[0].ip, 3);
}

#[test]
fn popping_an_empty_list_fails() {
    let mut vm = machine(vec![instance(vec![])], vec![Value::InstanceRef(0)]);
    assert_eq!(step(&mut vm, OpCode::LIST_POP).map(|_| ()), Err(RuntimeError::EmptyList));
}

#[test]
fn list_push_needs_an_instance() {
    let mut vm = machine(vec![instance(vec![])], vec![Value::Int(7), Value::Int(0)]);
    assert_eq!(step(&mut vm, OpCode::LIST_PUSH).map(|_| ()), Err(RuntimeError::BadReference));
    let mut vm = machine(vec![instance(vec![])], vec![Value::InstanceRef(0)]);
    assert_eq!(step(&mut vm, OpCode::LIST_PUSH).map(|_| ()), Err(RuntimeError::StackUnderflow));
    let mut vm = machine(vec![instance(vec![])], vec![Value::Int(7), Value::InstanceRef(4)]);
    assert_eq!(step(&mut vm, OpCode::LIST_PUSH).map(|_| ()), Err(RuntimeError::BadReference));
}

#[test]
fn list_insert_and_remove() {
    let mut vm = machine(
        vec![instance(vec![Value::Int(1), Value::Int(3)])],
        vec![Value::Int(2), Value::Int(1), Value::InstanceRef(0)],
    );
    assert!(matches!(step(&mut vm, OpCode::LIST_INSERT), Ok(Outcome::Running)));
    assert_eq!(values_at(&vm, 0), vec![Value::Int(1), Value::Int(2), Value::Int(3)]);
    assert!(stack(&vm).is_empty());
    vm.frames[0].stack.push(Value::Int(0));
    vm.frames[0].stack.push(Value::InstanceRef(0));
    assert!(matches!(step(&mut vm, OpCode::LIST_REMOVE), Ok(Outcome::Running)));
    assert_eq!(values_at(&vm, 0), vec![Value::Int(2), Value::Int(3)]);
}

#[test]
fn list_insert_past_the_end_fails() {
    let mut vm = machine(vec![instance(vec![Value::Int(1)])], vec![Value::Int(2), Value::Int(1), Value::InstanceRef(0)]);
    assert_eq!(step(&mut vm, OpCode::LIST_INSERT).map(|_| ()), Err(RuntimeError::IndexOutOfRange));
    let mut vm = machine(vec![instance(vec![Value::Int(1)])], vec![Value::Int(-1), Value::InstanceRef(0)]);
    assert_eq!(step(&mut vm, OpCode::LIST_REMOVE).map(|_| ()), Err(RuntimeError::IndexOutOfRange));
    let mut vm = machine(vec![instance(vec![Value::Int(1)])], vec![Value::Bool(true), Value::InstanceRef(0)]);
    assert_eq!(step(&mut vm, OpCode::LIST_REMOVE).map(|_| ()), Err(RuntimeError::UnsupportedType));
}

#[test]
fn list_len_and_sort() {
    let mut vm = machine(
        vec![instance(vec![Value::Int(3), Value::Int(-1), Value::Int(2), Value::Int(3)])],
        vec![Value::InstanceRef(0)],
    );
    assert!(matches!(step(&mut vm, OpCode::LIST_LEN), Ok(Outcome::Running)));
    assert_eq!(stack(&vm), &vec![Value::Int(4)]);
    vm.frames[0].stack = vec![Value::InstanceRef(0)];
    assert!(matches!(step(&mut vm, OpCode::LIST_SORT), Ok(Outcome::Running)));
    assert!(stack(&vm).is_empty());
    assert_eq!(values_at(&vm, 0), vec![Value::Int(-1), Value::Int(2), Value::Int(3), Value::Int(3)]);
}

#[test]
fn sorting_a_list_with_a_string_fails() {
    let mut vm = machine(vec![instance(vec![Value::Int(3), Value::String(chars("a"))])], vec![Value::InstanceRef(0)]);
    assert_eq!(step(&mut vm, OpCode::LIST_SORT).map(|_| ()), Err(RuntimeError::UnsupportedType));
    assert_eq!(values_at(&vm, 0), vec![Value::Int(3), Value::String(chars("a"))]);
}

#[test]
fn reading_a_field_gives_what_was_written() {
    let mut vm = machine(
        vec![instance(vec![Value::Int(1), Value::Bool(false)])],
        vec![Value::InstanceRef(0), Value::Int(9)],
    );
    assert!(matches!(step(&mut vm, OpCode::SET_INSTANCE_FIELD(0, 1)), Ok(Outcome::Running)));
    assert_eq!(stack(&vm), &vec![Value::InstanceRef(0), Value::Int(9)]);
    assert_eq!(values_at(&vm, 0), vec![Value::Int(1), Value::Int(9)]);
    assert!(matches!(step(&mut vm, OpCode::GET_INSTANCE_FIELD(0, 1)), Ok(Outcome::Running)));
    assert_eq!(stack(&vm), &vec![Value::InstanceRef(0), Value::Int(9), Value::Int(9)]);
}

#[test]
fn field_access_errors() {
    let mut vm = machine(vec![instance(vec![Value::Int(1)])], vec![Value::InstanceRef(0)]);
    assert_eq!(step(&mut vm, OpCode::GET_INSTANCE_FIELD(0, 1)).map(|_| ()), Err(RuntimeError::IndexOutOfRange));
    let mut vm = machine(vec![instance(vec![Value::Int(1)])], vec![Value::InstanceRef(0)]);
    assert_eq!(step(&mut vm, OpCode::GET_INSTANCE_FIELD(3, 0)).map(|_| ()), Err(RuntimeError::IndexOutOfRange));
    let mut vm = machine(vec![instance(vec![Value::Int(1)])], vec![Value::Int(0)]);
    assert_eq!(step(&mut vm, OpCode::GET_INSTANCE_FIELD(0, 0)).map(|_| ()), Err(RuntimeError::BadReference));
}

#[test]
fn list_field_read_and_write() {
    let mut vm = machine(
        vec![instance(vec![Value::Int(5), Value::Int(6)])],
        vec![Value::InstanceRef(0), Value::Int(1)],
    );
    assert!(matches!(step(&mut vm, OpCode::GET_LIST_FIELD(0)), Ok(Outcome::Running)));
    assert_eq!(stack(&vm), &vec![Value::InstanceRef(0), Value::Int(6)]);
    vm.frames[0].stack = vec![Value::InstanceRef(0), Value::Int(0), Value::Int(8)];
    assert!(matches!(step(&mut vm, OpCode::SET_LIST_FIELD(0)), Ok(Outcome::Running)));
    assert_eq!(values_at(&vm, 0), vec![Value::Int(8), Value::Int(6)]);
    assert_eq!(stack(&vm), &vec![Value::InstanceRef(0), Value::Int(8)]);
}

#[test]
fn reading_a_reference_adds_a_reference() {
    let mut vm = machine(
        vec![instance(vec![Value::InstanceRef(1)]), instance(vec![])],
        vec![Value::InstanceRef(0)],
    );
    assert_eq!(count_at(&vm, 1), 1);
    assert!(matches!(step(&mut vm, OpCode::GET_INSTANCE_FIELD(0, 0)), Ok(Outcome::Running)));
    assert_eq!(count_at(&vm, 1), 2);
    assert!(matches!(step(&mut vm, OpCode::POP_UNUSED), Ok(Outcome::Running)));
    assert_eq!(count_at(&vm, 1), 1);
    assert_eq!(stack(&vm), &vec![Value::InstanceRef(0)]);
}

#[test]
fn reference_counts_go_up_and_down() {
    let mut vm = machine(vec![instance(vec![])], vec![Value::InstanceRef(0)]);
    assert!(matches!(step(&mut vm, OpCode::INC_RC(0)), Ok(Outcome::Running)));
    assert_eq!(count_at(&vm, 0), 2);
    assert!(matches!(step(&mut vm, OpCode::DEC_RC(0)), Ok(Outcome::Running)));
    assert!(matches!(step(&mut vm, OpCode::DEC_RC(0)), Ok(Outcome::Running)));
    assert_eq!(count_at(&vm, 0), 0);
    assert_eq!(step(&mut vm, OpCode::DEC_RC(0)).map(|_| ()), Err(RuntimeError::BadReference));
}

#[test]
fn sweeping_empties_unreferenced_instances() {
    let mut vm = machine(
        vec![HeapObject::Instance(StructInstance { fields_values: vec![], rc_counter: 0 }), instance(vec![])],
        vec![],
    );
    assert!(matches!(step(&mut vm, OpCode::RF_REMOVE), Ok(Outcome::Running)));
    assert!(matches!(vm.rc.heap[0], HeapObject::Empty(_)));
    assert!(matches!(vm.rc.heap[1], HeapObject::Instance(_)));
}

#[test]
fn string_instructions_compare_and_join() {
    let heap = || vec![string_instance("ab"), string_instance("cd"), string_instance("ab")];
    let mut vm = machine(heap(), vec![Value::StringRef(0), Value::StringRef(2)]);
    assert!(matches!(step(&mut vm, OpCode::EQ_STRING), Ok(Outcome::Running)));
    assert_eq!(stack(&vm), &vec![Value::Bool(true)]);
    assert_eq!(count_at(&vm, 0), 0);
    let mut vm = machine(heap(), vec![Value::StringRef(0), Value::StringRef(1)]);
    assert!(matches!(step(&mut vm, OpCode::NEG_EQ_STRING), Ok(Outcome::Running)));
    assert_eq!(stack(&vm), &vec![Value::Bool(true)]);
    let mut vm = machine(heap(), vec![Value::StringRef(0), Value::StringRef(1)]);
    assert!(matches!(step(&mut vm, OpCode::ADD_STRING), Ok(Outcome::Running)));
    assert_eq!(stack(&vm), &vec![Value::StringRef(3)]);
    assert_eq!(values_at(&vm, 3), vec![Value::String(chars("abcd"))]);
}

#[test]
fn declaring_a_string_allocates_it() {
    let mut vm = machine(vec![], vec![Value::String(chars("hi"))]);
    let inst = StructInstance { fields_values: vec![], rc_counter: 1 };
    assert!(matches!(step(&mut vm, OpCode::STRING_DEC_VALUE(inst)), Ok(Outcome::Running)));
    assert_eq!(stack(&vm), &vec![Value::StringRef(0)]);
    assert_eq!(values_at(&vm, 0), vec![Value::String(chars("hi"))]);
    let inst = StructInstance { fields_values: vec![Value::Int(1)], rc_counter: 1 };
    vm.frames[0].stack = vec![Value::Int(8), Value::Int(9)];
    assert!(matches!(step(&mut vm, OpCode::INSTANCE_DEC(inst, 2)), Ok(Outcome::Running)));
    assert_eq!(stack(&vm), &vec![Value::InstanceRef(1)]);
    assert_eq!(values_at(&vm, 1), vec![Value::Int(8), Value::Int(9), Value::Int(1)]);
}

#[test]
fn calling_a_function_enters_its_frame() {
    let mut f = Function::new(chars("f"));
    f.arg_count = 2;
    let mut vm = machine(vec![HeapObject::Function(f)], vec![Value::Int(1), Value::Int(2), Value::Int(3)]);
    assert!(matches!(step(&mut vm, OpCode::FUNCTION_CALL(0)), Ok(Outcome::Running)));
    assert_eq!(vm.frames.len(), 2);
    assert_eq!(vm.ip, 1);
    assert_eq!(vm.frames[0].stack, vec![Value::Int(1)]);
    assert_eq!(vm.frames[1].stack, vec![Value::Int(2), Value::Int(3)]);
    assert_eq!(vm.frames[1].code, CodeRef::Function(0));
    assert_eq!(vm.frames[1].ip, 0);
}

#[test]
fn calling_with_too_few_values_fails() {
    let mut f = Function::new(chars("f"));
    f.arg_count = 2;
    let mut vm = machine(vec![HeapObject::Function(f)], vec![Value::Int(1)]);
    assert_eq!(step(&mut vm, OpCode::FUNCTION_CALL(0)).map(|_| ()), Err(RuntimeError::StackUnderflow));
    let mut vm = machine(vec![instance(vec![])], vec![]);
    assert_eq!(step(&mut vm, OpCode::FUNCTION_CALL(0)).map(|_| ()), Err(RuntimeError::BadReference));
}

#[test]
fn a_built_in_done_here_replaces_its_arguments() {
    let native = HeapObject::Native(NativeFn { function: NativeFunction::AbsInt, arg_count: 1, rc_counter: 1 });
    let mut vm = machine(vec![native], vec![Value::Int(4), Value::Int(-5)]);
    assert!(matches!(step(&mut vm, OpCode::NATIVE_FN_CALL(0)), Ok(Outcome::Running)));
    assert_eq!(stack(&vm), &vec![Value::Int(4), Value::Int(5)]);
    assert_eq!(vm.pending, Pending::Nothing);
}

#[test]
fn a_built_in_error_stops_the_step() {
    let native = HeapObject::Native(NativeFn { function: NativeFunction::AbsInt, arg_count: 1, rc_counter: 1 });
    let mut vm = machine(vec![native], vec![Value::Bool(true)]);
    assert_eq!(step(&mut vm, OpCode::NATIVE_FN_CALL(0)).map(|_| ()), Err(RuntimeError::UnsupportedType));
}

#[test]
fn an_outside_built_in_is_handed_out_and_finished() {
    let native = HeapObject::Native(NativeFn { function: NativeFunction::Println, arg_count: 1, rc_counter: 1 });
    let mut vm = machine(vec![native, string_instance("hey")], vec![Value::Int(1), Value::StringRef(1)]);
    match step(&mut vm, OpCode::IO_FN_CALL(0, 1)) {
        Ok(Outcome::Call(f, args)) => {
            assert_eq!(f, NativeFunction::Println);
            assert_eq!(args, vec![Value::String(chars("hey"))]);
        },
        other => panic!("unexpected {:?}", other),
    }
    assert_eq!(vm.pending, Pending::Call(1, true));
    assert_eq!(stack(&vm), &vec![Value::Int(1), Value::StringRef(1)]);
    assert!(vm.finish_call(Value::Null).is_ok());
    assert_eq!(vm.pending, Pending::Nothing);
    assert_eq!(stack(&vm), &vec![Value::Int(1), Value::Null]);
    assert!(matches!(vm.rc.heap[1], HeapObject::Empty(_)));
}

#[test]
fn input_text_comes_back_as_a_new_string() {
    let native = HeapObject::Native(NativeFn { function: NativeFunction::Input, arg_count: 1, rc_counter: 1 });
    let mut vm = machine(vec![native], vec![Value::String(chars("? "))]);
    assert!(matches!(step(&mut vm, OpCode::IO_FN_CALL(0, 1)), Ok(Outcome::Call(NativeFunction::Input, _))));
    assert!(vm.finish_call(Value::String(chars("typed"))).is_ok());
    assert_eq!(stack(&vm), &vec![Value::StringRef(1)]);
    assert_eq!(values_at(&vm, 1), vec![Value::String(chars("typed"))]);
}

#[test]
fn float_work_is_handed_out() {
    let mut vm = machine(vec![], vec![Value::Float(chars("1.5")), Value::Float(chars("2.0"))]);
    match step(&mut vm, OpCode::ADD_FLOAT) {
        Ok(Outcome::Float(_, b, a)) => {
            assert_eq!(b, chars("1.5"));
            assert_eq!(a, chars("2.0"));
        },
        other => panic!("unexpected {:?}", other),
    }
    assert_eq!(vm.pending, Pending::Value);
    assert!(stack(&vm).is_empty());
    assert!(vm.resume(Value::Float(chars("3.5"))).is_ok());
    assert_eq!(stack(&vm), &vec![Value::Float(chars("3.5"))]);
    let mut vm = machine(vec![], vec![Value::Int(1), Value::Float(chars("2.0"))]);
    assert_eq!(step(&mut vm, OpCode::MUL_FLOAT).map(|_| ()), Err(RuntimeError::UnsupportedType));
}

#[test]
fn declarations_do_nothing_when_run() {
    let mut vm = machine(vec![], vec![Value::Int(1)]);
    assert!(matches!(step(&mut vm, OpCode::END_OF_FN), Ok(Outcome::Running)));
    assert_eq!(stack(&vm), &vec![Value::Int(1)]);
    assert_eq!(vm.frames.len(), 1);
}

#[test]
fn a_run_with_no_budget_changes_nothing() {
    let mut vm = machine(vec![], vec![Value::Int(1)]);
    assert!(matches!(vm.run(0), Ok(Outcome::Running)));
    assert_eq!(stack(&vm), &vec![Value::Int(1)]);
    assert_eq!(vm.frames[0].ip, 3);
}

fn tokens_of(source: &str) -> Vec<shlang::tokens::Token> {
    let source = source.to_string();
    let mut scanner = Scanner::init(&source);
    scanner.get_tokens()
}

fn jumps_land_inside(code: &[Instruction]) -> bool {
    code.iter().enumerate().all(|(i, ins)| match ins.op {
        OpCode::IF_STMT_OFFSET(o) | OpCode::JUMP(o) => i + 1 + o <= code.len(),
        OpCode::LOOP(o) => o <= i + 1,
        _ => true,
    })
}

#[test]
fn every_jump_of_a_compiled_function_lands_inside_it() {
    let source = "fn main() {\n    var x: int = 0\n    while x < 3 {\n        if x == 1 {\n            println(x)\n        } else {\n            println(0)\n        }\n        x = x + 1\n    }\n    for i in (0, 4) {\n        if i == 2 {\n            break\n        }\n    }\n}\n";
    let mut compiler = Compiler::new(tokens_of(source));
    let chunk = compiler.compile().unwrap();
    let mut seen = 0;
    for ins in chunk.code.iter() {
        if let OpCode::FUNCTION_DEC(f) = &ins.op {
            assert!(jumps_land_inside(&f.chunk.code));
            assert!(f.chunk.code.iter().any(|i| matches!(i.op, OpCode::LOOP(_))));
            seen += 1;
        }
    }
    assert_eq!(seen, 1);
}

fn main_body(source: &str) -> Vec<Instruction> {
    let mut compiler = Compiler::new(tokens_of(source));
    let chunk = compiler.compile().unwrap();
    for ins in chunk.code.into_iter() {
        if let OpCode::FUNCTION_DEC(f) = ins.op {
            return f.chunk.code;
        }
    }
    panic!("no function")
}

#[test]
fn a_while_loop_jumps_back_to_its_condition_and_exits_past_the_jump_back() {
    let code = main_body("fn main() {\n    var x: int = 0\n    while x < 3 {\n        x = x + 1\n    }\n}\n");
    let k = code.iter().position(|i| matches!(i.op, OpCode::LOOP(_))).unwrap();
    let e = code.iter().position(|i| matches!(i.op, OpCode::IF_STMT_OFFSET(_))).unwrap();
    let start = match code[k].op {
        OpCode::LOOP(o) => k + 1 - o,
        _ => unreachable!(),
    };
    match code[e].op {
        OpCode::IF_STMT_OFFSET(o) => assert_eq!(e + 1 + o, k + 1),
        _ => unreachable!(),
    }
    assert!(start < e);
    assert!(matches!(code[start].op, OpCode::VAR_CALL(_)));
    assert!(matches!(code[k + 1].op, OpCode::POP));
}

#[test]
fn an_if_skips_its_block_and_the_block_skips_the_else() {
    let code = main_body(
        "fn main() {\n    var x: int = 0\n    if x == 1 {\n        x = 2\n    } else {\n        x = 3\n    }\n    x = 4\n}\n",
    );
    let j = code.iter().position(|i| matches!(i.op, OpCode::IF_STMT_OFFSET(_))).unwrap();
    let x = code.iter().position(|i| matches!(i.op, OpCode::JUMP(_))).unwrap();
    match code[j].op {
        OpCode::IF_STMT_OFFSET(o) => assert_eq!(j + 1 + o, x + 1),
        _ => unreachable!(),
    }
    let end = match code[x].op {
        OpCode::JUMP(o) => x + 1 + o,
        _ => unreachable!(),
    };
    assert!(x < end && end < code.len());
    assert!(code[x + 1..end].iter().any(|i| matches!(i.op, OpCode::VAR_SET(_))));
}

#[test]
fn an_assignment_ends_with_a_store_to_its_variable() {
    let code = main_body("fn main() {\n    var a: int = 1\n    var b: int = 2\n    b = a + 1\n}\n");
    let stores: Vec<usize> = code
        .iter()
        .filter_map(|i| match i.op {
            OpCode::VAR_SET(p) => Some(p),
            _ => None,
        })
        .collect();
    assert_eq!(stores.last(), Some(&1));
}

#[test]
fn a_call_names_its_function() {
    let code = main_body("fn main() {\n    println(abs(-3))\n}\n");
    assert!(code.iter().any(|i| matches!(i.op, OpCode::NATIVE_FN_CALL(_))));
    assert!(code.iter().any(|i| matches!(i.op, OpCode::IO_FN_CALL(_, 1))));
}

#[test]
fn the_machine_starts_at_a_function_named_main_in_any_case() {
    let mut chunk = shlang::bytecode::Chunk::new();
    chunk.push(Instruction { op: OpCode::FUNCTION_DEC(Function::new(chars("helper"))), line: 1 });
    chunk.push(Instruction { op: OpCode::FUNCTION_DEC(Function::new(chars("MaIn"))), line: 2 });
    let mut vm = VM::new();
    let frame = vm.declare_all(chunk).unwrap();
    assert_eq!(frame.code, CodeRef::Function(20));
    let mut chunk = shlang::bytecode::Chunk::new();
    chunk.push(Instruction { op: OpCode::FUNCTION_DEC(Function::new(chars("helper"))), line: 1 });
    let mut vm = VM::new();
    assert_eq!(vm.declare_all(chunk).map(|_| ()), Err(RuntimeError::NoMain));
}
