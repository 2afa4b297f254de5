use shlang::compiler::Compiler;
use shlang::lexer::Scanner;
use shlang::natives::{display_text, RuntimeError};
use shlang::objects::NativeFunction;
use shlang::value::Value;
use shlang::vm::{FloatOp, Outcome, VM};

fn text(v: &[char]) -> String {
    v.iter().collect()
}

fn chars(s: &str) -> Vec<char> {
    s.chars().collect()
}

/// Runs a program, collecting what it prints; input comes from `input_lines`.
fn run_program(source: &str, input_lines: &[&str]) -> Result<String, String> {
    let source = source.to_string();
    let mut scanner = Scanner::init(&source);
    let tokens = scanner.try_get_tokens().ok_or("scan failed".to_string())?;
    let mut compiler = Compiler::new(tokens);
    let chunk = compiler.compile().map_err(|e| format!("compile error {:?}", e.kind))?;
    let mut vm = VM::new();
    let frame = vm.declare_all(chunk).map_err(|e| format!("{:?}", e))?;
    vm.frames.push(frame);
    let mut out = String::new();
    let mut inputs = input_lines.iter();
    loop {
        match vm.run(100_000).map_err(|e| format!("runtime error {:?}", e))? {
            Outcome::Running => {}
            Outcome::Finished => return Ok(out),
            Outcome::Call(f, args) => {
                let result = match f {
                    NativeFunction::Print | NativeFunction::Println | NativeFunction::Input => {
                        for a in &args {
                            match display_text(a) {
                                Some(Ok(t)) => out.push_str(&text(&t)),
                                Some(Err(e)) => return Err(format!("display {:?}", e)),
                                None => out.push_str(&format!("{}", float_of(a))),
                            }
                        }
                        if f == NativeFunction::Println {
                            out.push('\n');
                        }
                        if f == NativeFunction::Input {
                            Value::String(chars(inputs.next().copied().unwrap_or("")))
                        } else {
                            Value::Null
                        }
                    }
                    other => return Err(format!("unexpected call {:?}", other)),
                };
                vm.finish_call(result).map_err(|e| format!("{:?}", e))?;
            }
            Outcome::Float(op, b, a) => {
                let (x, y): (f64, f64) = (text(&b).parse().unwrap(), text(&a).parse().unwrap());
                let v = match op {
                    FloatOp::Add => Value::Float(chars(&format!("{:?}", x + y))),
                    FloatOp::Sub => Value::Float(chars(&format!("{:?}", x - y))),
                    FloatOp::Mul => Value::Float(chars(&format!("{:?}", x * y))),
                    FloatOp::Div => Value::Float(chars(&format!("{:?}", x / y))),
                    FloatOp::Mod => Value::Float(chars(&format!("{:?}", x.rem_euclid(y)))),
                    FloatOp::Eq => Value::Bool(x == y),
                    FloatOp::NegEq => Value::Bool(x != y),
                    FloatOp::Greater => Value::Bool(x > y),
                    FloatOp::EqGreater => Value::Bool(x >= y),
                    FloatOp::Less => Value::Bool(x < y),
                    FloatOp::EqLess => Value::Bool(x <= y),
                };
                vm.resume(v).map_err(|e| format!("{:?}", e))?;
            }
            Outcome::FloatNegate(t) => {
                let x: f64 = text(&t).parse().unwrap();
                vm.resume(Value::Float(chars(&format!("{:?}", -x)))).map_err(|e| format!("{:?}", e))?;
            }
        }
    }
}

fn float_of(v: &Value) -> f64 {
    match v {
        Value::Float(t) => text(t).parse().unwrap(),
        _ => f64::NAN,
    }
}

#[test]
fn hello_world_prints() {
    let out = run_program("fn main() {\n    println(\"Hello\")\n}\n", &[]);
    assert_eq!(out, Ok("Hello\n".to_string()));
}

#[test]
fn integer_arithmetic_prints() {
    let out = run_program("fn main() {\n    var x: int = 2 + 3 * 4\n    println(x)\n}\n", &[]);
    assert_eq!(out, Ok("14\n".to_string()));
}

#[test]
fn division_by_zero_is_an_error() {
    let out = run_program("fn main() {\n    var x: int = 1 / 0\n    println(x)\n}\n", &[]);
    assert_eq!(out, Err(format!("runtime error {:?}", RuntimeError::DivisionByZero)));
}


#[test]
fn if_else_branches() {
    let src = "fn main() {\n    var x: int = 5\n    if x > 3 {\n        println(\"big\")\n    } else {\n        println(\"small\")\n    }\n    if x < 3 {\n        println(\"big\")\n    } else {\n        println(\"small\")\n    }\n}\n";
    assert_eq!(run_program(src, &[]), Ok("big\nsmall\n".to_string()));
}

#[test]
fn elif_chain() {
    let src = "fn main() {\n    var x: int = 2\n    if x == 1 {\n        println(1)\n    } elif x == 2 {\n        println(2)\n    } else {\n        println(3)\n    }\n}\n";
    assert_eq!(run_program(src, &[]), Ok("2\n".to_string()));
}

#[test]
fn while_loop_counts() {
    let src = "fn main() {\n    var i: int = 0\n    while i < 3 {\n        print(i)\n        i = i + 1\n    }\n    println(\"\")\n}\n";
    assert_eq!(run_program(src, &[]), Ok("012\n".to_string()));
}

#[test]
fn for_loop_counts() {
    let src = "fn main() {\n    for i in (1, 4) {\n        print(i)\n    }\n    println(\"\")\n}\n";
    assert_eq!(run_program(src, &[]), Ok("1234\n".to_string()));
}

#[test]
fn for_loop_with_step() {
    let src = "fn main() {\n    for i in (0, 10, 5) {\n        print(i)\n    }\n    println(\"\")\n}\n";
    assert_eq!(run_program(src, &[]), Ok("0510\n".to_string()));
}

#[test]
fn function_call_returns() {
    let src = "fn add(a: int, b: int) int {\n    return a + b\n}\nfn main() {\n    var x: int = add(2, 3)\n    println(x)\n}\n";
    assert_eq!(run_program(src, &[]), Ok("5\n".to_string()));
}

#[test]
fn recursive_fibonacci() {
    let src = "fn fib(n: int) int {\n    if n < 2 {\n        return n\n    }\n    return fib(n - 1) + fib(n - 2)\n}\nfn main() {\n    println(fib(10))\n}\n";
    assert_eq!(run_program(src, &[]), Ok("55\n".to_string()));
}

#[test]
fn struct_fields() {
    let src = "struct Point {\n    x: int,\n    y: int,\n}\nfn main() {\n    var p: Point = { 1, 2 }\n    println(p.x)\n    p.y = 7\n    println(p.y)\n}\n";
    assert_eq!(run_program(src, &[]), Ok("1\n7\n".to_string()));
}

#[test]
fn string_variable_prints() {
    let src = "fn main() {\n    var s: String = \"abc\"\n    println(s)\n}\n";
    assert_eq!(run_program(src, &[]), Ok("abc\n".to_string()));
}

#[test]
fn string_method_len() {
    let src = "fn main() {\n    var s: String = \"hello\"\n    println(s.len())\n}\n";
    assert_eq!(run_program(src, &[]), Ok("5\n".to_string()));
}

#[test]
fn string_concatenation() {
    let src = "fn main() {\n    var s: String = \"ab\" + \"cd\"\n    println(s)\n}\n";
    assert_eq!(run_program(src, &[]), Ok("abcd\n".to_string()));
}

#[test]
fn native_abs_and_pow() {
    let src = "fn main() {\n    println(abs(-5))\n    println(pow(2, 10))\n}\n";
    assert_eq!(run_program(src, &[]), Ok("5\n1024\n".to_string()));
}

#[test]
fn bool_logic() {
    let src = "fn main() {\n    var b: bool = true and false\n    println(b)\n    println(true or false)\n}\n";
    assert_eq!(run_program(src, &[]), Ok("false\ntrue\n".to_string()));
}

#[test]
fn list_declaration_runs() {
    let src = "fn main() {\n    var l: List<int> = [1, 2, 3]\n    println(\"done\")\n}\n";
    assert_eq!(run_program(src, &[]), Ok("done\n".to_string()));
}

#[test]
fn list_name_is_not_a_variable() {
    let src = "fn main() {\n    var l: List<int> = [1, 2, 3]\n    println(l[1])\n}\n";
    assert_eq!(run_program(src, &[]), Err("compile error VarNotDefined".to_string()));
}

#[test]
fn struct_method_with_self() {
    let src = "struct Counter {\n    n: int,\n    methods {\n        get(self) int {\n            return self.n\n        }\n    }\n}\nfn main() {\n    var c: Counter = { 41 }\n    println(c.get())\n}\n";
    assert_eq!(run_program(src, &[]), Ok("41\n".to_string()));
}

#[test]
fn string_methods_upper_lower() {
    let src = "fn main() {\n    var s: String = \"aBc\"\n    println(s.toUpper())\n    println(s.toLower())\n}\n";
    assert_eq!(run_program(src, &[]), Ok("ABC\nabc\n".to_string()));
}

#[test]
fn string_methods_find_count() {
    let src = "fn main() {\n    var s: String = \"banana\"\n    var p: String = \"an\"\n    println(s.find(p))\n    println(s.count(p))\n}\n";
    assert_eq!(run_program(src, &[]), Ok("1\n2\n".to_string()));
}

#[test]
fn string_method_replace() {
    let src = "fn main() {\n    var s: String = \"a-b-c\"\n    var f: String = \"-\"\n    var t: String = \"+\"\n    println(s.replace(f, t))\n}\n";
    assert_eq!(run_program(src, &[]), Ok("a+b+c\n".to_string()));
}

#[test]
fn string_method_trim() {
    let src = "fn main() {\n    var s: String = \"  x  \"\n    print(s.trim())\n    print(\"|\")\n    print(s.trimLeft())\n    print(\"|\")\n    println(s.trimRight())\n}\n";
    assert_eq!(run_program(src, &[]), Ok("x|x  |  x\n".to_string()));
}

#[test]
fn string_method_get() {
    let src = "fn main() {\n    var s: String = \"hello\"\n    println(s.get(1))\n}\n";
    assert_eq!(run_program(src, &[]), Ok("e\n".to_string()));
}

#[test]
fn string_methods_is_digit_is_char() {
    let src = "fn main() {\n    var a: String = \"123\"\n    var b: String = \"abc\"\n    println(a.isDigit())\n    println(b.isDigit())\n    println(a.isChar())\n    println(b.isChar())\n}\n";
    assert_eq!(run_program(src, &[]), Ok("true\nfalse\nfalse\ntrue\n".to_string()));
}

#[test]
fn conversions_between_int_and_string() {
    let src = "fn main() {\n    var s: String = convstr(42)\n    println(s)\n    var n: int = conv(\"17\")\n    println(n + 1)\n}\n";
    assert_eq!(run_program(src, &[]), Ok("42\n18\n".to_string()));
}

#[test]
fn conv_of_letters_is_an_error() {
    let src = "fn main() {\n    var n: int = conv(\"1a\")\n    println(n)\n}\n";
    assert_eq!(run_program(src, &[]), Err(format!("runtime error {:?}", RuntimeError::NotDigits)));
}

#[test]
fn min_max_sqrt() {
    let src = "fn main() {\n    println(min(3, 9))\n    println(max(3, 9))\n    println(sqrt(17))\n}\n";
    assert_eq!(run_program(src, &[]), Ok("3\n9\n4\n".to_string()));
}

#[test]
fn modulo_and_negatives() {
    let src = "fn main() {\n    println(-7 % 3)\n    println(7 / -2)\n    println(-7 / 2)\n}\n";
    assert_eq!(run_program(src, &[]), Ok("2\n-3\n-3\n".to_string()));
}

#[test]
fn parentheses_do_not_group() {
    let src = "fn main() {\n    println(-(3 - 5))\n}\n";
    assert_eq!(run_program(src, &[]), Err("compile error NoPrefix".to_string()));
}

#[test]
fn comparisons() {
    let src = "fn main() {\n    println(1 < 2)\n    println(2 <= 2)\n    println(3 > 4)\n    println(4 >= 5)\n    println(5 == 5)\n    println(5 != 5)\n}\n";
    assert_eq!(run_program(src, &[]), Ok("true\ntrue\nfalse\nfalse\ntrue\nfalse\n".to_string()));
}

#[test]
fn string_equality() {
    let src = "fn main() {\n    var a: String = \"x\"\n    var b: String = \"x\"\n    println(a == b)\n}\n";
    assert_eq!(run_program(src, &[]), Ok("true\n".to_string()));
}

#[test]
fn float_arithmetic_is_handed_out() {
    let src = "fn main() {\n    var x: float = 1.5 + 2.25\n    println(x)\n}\n";
    assert_eq!(run_program(src, &[]), Ok("3.75\n".to_string()));
}

#[test]
fn while_with_break() {
    let src = "fn main() {\n    var i: int = 0\n    while i < 10 {\n        if i == 3 {\n            break\n        }\n        print(i)\n        i = i + 1\n    }\n    println(\"\")\n}\n";
    assert_eq!(run_program(src, &[]), Ok("012\n".to_string()));
}

#[test]
fn input_statement_prompts() {
    let src = "fn main() {\n    input(\"? \")\n    println(\"ok\")\n}\n";
    assert_eq!(run_program(src, &["Ann"]), Ok("? ok\n".to_string()));
}

#[test]
fn input_with_prompt_as_string_value_underflows() {
    let src = "fn main() {\n    var name: String = input(\"? \")\n    println(name)\n}\n";
    assert_eq!(run_program(src, &["Ann"]), Err(format!("runtime error {:?}", RuntimeError::StackUnderflow)));
}

#[test]
fn integer_overflow_is_an_error() {
    let src = "fn main() {\n    var x: int = 9223372036854775807 + 1\n    println(x)\n}\n";
    assert_eq!(run_program(src, &[]), Err(format!("runtime error {:?}", RuntimeError::Overflow)));
}

#[test]
fn missing_main_is_a_compile_error() {
    let src = "fn helper() {\n    println(1)\n}\n";
    assert_eq!(run_program(src, &[]), Err("compile error NoMain".to_string()));
}

#[test]
fn undefined_function_is_a_compile_error() {
    let src = "fn main() {\n    foo(1)\n}\n";
    assert_eq!(run_program(src, &[]), Err("compile error FunctionNotDefined".to_string()));
}

#[test]
fn type_mismatch_is_a_compile_error() {
    let src = "fn main() {\n    var x: int = true\n}\n";
    assert_eq!(run_program(src, &[]), Err("compile error MismatchedTypes".to_string()));
}

#[test]
fn redefined_function_is_a_compile_error() {
    let src = "fn main() {\n}\nfn main() {\n}\n";
    assert_eq!(run_program(src, &[]), Err("compile error FunctionRedefined".to_string()));
}
