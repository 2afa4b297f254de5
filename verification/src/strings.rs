use vstd::prelude::*;

use crate::tokens::{Keywords, TokenType};
use crate::value::{Value, ValueModel};
use crate::bytecode::{Instruction, OpCode};
use crate::objects::{Function, Local, Method, NativeFn, NativeFunction, SpecialType, Struct, StructInstance};
use crate::text::str_to_chars;

verus! {

/// The built-in string type.
pub struct StringObj {}

impl StringObj {
    /// The `String` struct: one string field named `value`, and its methods.
    pub fn init(string_pos: usize) -> (s: Struct)
        requires
            string_pos + 12 <= usize::MAX,
        ensures
            s.name@ == "String"@,
            s.locals@.len() == 1,
            s.locals@[0].name@ == "value"@,
            s.locals@[0].local_type == TokenType::STRING,
            s.locals@[0].is_special == SpecialType::String,
            s.output_type == TokenType::NULL,
            s.field_count == 1,
            s.rc_counter == 1,
            s.index == 0,
            s.methods@.len() == 12,
            s.methods_distinct(),
    {
        let mut mths = StringMethods { cur_pos: string_pos };
        proof {
            reveal_strlit("len");
            reveal_strlit("toLower");
            reveal_strlit("toUpper");
            reveal_strlit("get");
            reveal_strlit("count");
            reveal_strlit("find");
            reveal_strlit("isChar");
            reveal_strlit("isDigit");
            reveal_strlit("trim");
            reveal_strlit("trimLeft");
            reveal_strlit("trimRight");
            reveal_strlit("replace");
        }
        let mut locals: Vec<Local> = Vec::new();
        locals.push(Local {
            name: str_to_chars("value"),
            local_type: TokenType::STRING,
            is_redirected: false,
            redirect_pos: 0,
            rf_index: 0,
            is_special: SpecialType::String,
        });
        let methods = mths.get_methods();
        proof {
            assert forall|i: int, j: int| 0 <= i < j < methods@.len() implies (#[trigger] methods@[i]).name@
                != (#[trigger] methods@[j]).name@ by {
                let a = methods@[i].name@;
                let b = methods@[j].name@;
                assert(a.len() != b.len() || a[0] != b[0] || a[2] != b[2]);
            }
        }
        Struct {
            name: str_to_chars("String"),
            locals,
            output_type: TokenType::NULL,
            field_count: 1,
            methods,
            rc_counter: 1,
            index: 0,
        }
    }
}

/// Builds the methods of the string type.
pub struct StringMethods {
    pub cur_pos: usize,
}

/// Taking and counting the extra string arguments `1..n`.
pub open spec fn ref_pairs(n: nat) -> Seq<Instruction>
    decreases n,
{
    if n <= 1 {
        Seq::empty()
    } else {
        ref_pairs((n - 1) as nat) + seq![
            Instruction { op: OpCode::GET_INSTANCE_RF((n - 1) as usize), line: 1 },
            Instruction { op: OpCode::INC_RC((n - 1) as usize), line: 1 },
        ]
    }
}

/// Dropping the extra string arguments `1..=m`.
pub open spec fn arg_drops(m: nat) -> Seq<Instruction>
    decreases m,
{
    if m == 0 {
        Seq::empty()
    } else {
        arg_drops((m - 1) as nat).push(Instruction { op: OpCode::DEC_RC(m as usize), line: 2 })
    }
}

/// The code of a string method up to its native call: the text of the string itself (the
/// field of local 0), a counted copy of each extra string argument, and the call.
pub open spec fn pack_head(arg_count: nat, string_args: bool, native_pos: usize) -> Seq<Instruction> {
    seq![
        Instruction { op: OpCode::GET_INSTANCE_FIELD(0, 0), line: 1 },
    ] + (if string_args { ref_pairs(arg_count) } else { Seq::empty() }) + seq![
        Instruction { op: OpCode::NATIVE_FN_CALL(native_pos), line: 1 },
    ]
}

/// The code of a string method after its native call (and after wrapping a string result).
pub open spec fn pack_tail(out_type: TokenType, arg_count: nat, string_args: bool) -> Seq<Instruction> {
    (if out_type != TokenType::NULL { seq![Instruction { op: OpCode::RETURN, line: 2 }] } else { Seq::empty() })
        + seq![
        Instruction { op: OpCode::CONSTANT_NULL(1), line: 2 },
        Instruction { op: OpCode::RETURN, line: 2 },
        Instruction { op: OpCode::DEC_RC(0), line: 2 },
    ] + (if string_args { arg_drops((arg_count - 1) as nat) } else { Seq::empty() }) + seq![
        Instruction { op: OpCode::END_OF_FN, line: 2 },
    ]
}

/// The whole code of a string method: its head, a string wrapper where it returns a
/// string, and its tail.
pub open spec fn pack_code_ok(
    code: Seq<Instruction>,
    out_type: TokenType,
    arg_count: nat,
    arg_type: TokenType,
    native_pos: usize,
) -> bool {
    let head = pack_head(arg_count, arg_type == TokenType::STRING, native_pos);
    let tail = pack_tail(out_type, arg_count, arg_type == TokenType::STRING);
    if out_type == TokenType::STRING {
        &&& code.len() == head.len() + 1 + tail.len()
        &&& code.subrange(0, head.len() as int) == head
        &&& code[head.len() as int].line == 2
        &&& code[head.len() as int].op matches OpCode::STRING_DEC_VALUE(inst)
        &&& inst.fields_values@.len() == 0
        &&& inst.rc_counter == 1
        &&& code.subrange(head.len() + 1int, code.len() as int) == tail
    } else {
        code == head + tail
    }
}

proof fn lemma_pack_code(c: Seq<Instruction>, head: Seq<Instruction>, mid: Seq<Instruction>, tail: Seq<Instruction>)
    requires
        c == mid + tail,
        mid.len() >= head.len(),
        mid.subrange(0, head.len() as int) == head,
    ensures
        c.subrange(mid.len() as int, c.len() as int) == tail,
        c.subrange(0, head.len() as int) == head,
        mid.len() == head.len() ==> c == head + tail,
        mid.len() > head.len() ==> c[head.len() as int] == mid[head.len() as int],
{
    assert(c.subrange(mid.len() as int, c.len() as int) =~= tail);
    assert(c.subrange(0, head.len() as int) =~= mid.subrange(0, head.len() as int));
    if mid.len() == head.len() {
        assert(mid =~= head);
    }
}

fn repeat_type(t: TokenType, n: usize) -> (r: Vec<TokenType>)
    ensures
        r@ == Seq::new(n as nat, |i: int| t),
{
    let mut r: Vec<TokenType> = Vec::new();
    let mut k: usize = 0;
    while k < n
        invariant
            k <= n,
            r@ == Seq::new(k as nat, |i: int| t),
        decreases n - k,
    {
        r.push(t);
        k = k + 1;
        assert(r@ =~= Seq::new(k as nat, |i: int| t));
    }
    r
}

/// `n` string locals, the first named `self`.
fn method_locals(n: usize) -> (locals: Vec<Local>)
    requires
        n >= 1,
    ensures
        locals@.len() == n,
        locals@[0].name@ == "self"@,
        forall|j: int| 0 <= j < locals@.len() ==> {
            &&& (#[trigger] locals@[j]).local_type == TokenType::KEYWORD(Keywords::INSTANCE(3))
            &&& locals@[j].is_special == SpecialType::String
        },
{
    let mut locals: Vec<Local> = Vec::new();
    locals.push(Local {
        name: str_to_chars("self"),
        local_type: TokenType::KEYWORD(Keywords::INSTANCE(3)),
        is_redirected: false,
        redirect_pos: 0,
        rf_index: 0,
        is_special: SpecialType::String,
    });
    let mut i: usize = 1;
    while i < n
        invariant
            1 <= i <= n,
            locals@.len() == i,
            locals@[0].name@ == "self"@,
            forall|j: int| 0 <= j < locals@.len() ==> {
                &&& (#[trigger] locals@[j]).local_type == TokenType::KEYWORD(Keywords::INSTANCE(3))
                &&& locals@[j].is_special == SpecialType::String
            },
        decreases n - i,
    {
        locals.push(Local {
            name: Vec::new(),
            local_type: TokenType::KEYWORD(Keywords::INSTANCE(3)),
            is_redirected: false,
            redirect_pos: 0,
            rf_index: 0,
            is_special: SpecialType::String,
        });
        i = i + 1;
    }
    locals
}

fn method_head(arg_count: usize, string_args: bool, native_pos: usize) -> (code: Vec<Instruction>)
    requires
        arg_count >= 1,
    ensures
        code@ == pack_head(arg_count as nat, string_args, native_pos),
{
    let mut code: Vec<Instruction> = Vec::new();
    code.push(Instruction { op: OpCode::GET_INSTANCE_FIELD(0, 0), line: 1 });
    let ghost start = code@;
    if string_args {
        let mut i: usize = 1;
        while i < arg_count
            invariant
                1 <= i <= arg_count,
                code@ == start + ref_pairs(i as nat),
            decreases arg_count - i,
        {
            code.push(Instruction { op: OpCode::GET_INSTANCE_RF(i), line: 1 });
            code.push(Instruction { op: OpCode::INC_RC(i), line: 1 });
            i = i + 1;
            assert(code@ =~= start + ref_pairs(i as nat));
        }
        code.push(Instruction { op: OpCode::NATIVE_FN_CALL(native_pos), line: 1 });
        assert(code@ =~= pack_head(arg_count as nat, string_args, native_pos));
    } else {
        code.push(Instruction { op: OpCode::NATIVE_FN_CALL(native_pos), line: 1 });
        assert(code@ =~= pack_head(arg_count as nat, string_args, native_pos));
    }
    code
}

fn push_method_tail(code: &mut Vec<Instruction>, out_type: TokenType, arg_count: usize, string_args: bool)
    requires
        1 <= arg_count < 1000,
    ensures
        final(code)@ == old(code)@ + pack_tail(out_type, arg_count as nat, string_args),
{
    let ghost start = code@;
    if out_type != TokenType::NULL {
        code.push(Instruction { op: OpCode::RETURN, line: 2 });
    }
    code.push(Instruction { op: OpCode::CONSTANT_NULL(1), line: 2 });
    code.push(Instruction { op: OpCode::RETURN, line: 2 });
    code.push(Instruction { op: OpCode::DEC_RC(0), line: 2 });
    let ghost before_drops = code@;
    let own_args = arg_count - 1;
    if string_args {
        let mut i: usize = 0;
        while i < own_args
            invariant
                i <= own_args,
                own_args < 1000,
                code@ == before_drops + arg_drops(i as nat),
            decreases own_args - i,
        {
            code.push(Instruction { op: OpCode::DEC_RC(i + 1), line: 2 });
            i = i + 1;
            assert(code@ =~= before_drops + arg_drops(i as nat));
        }
    }
    code.push(Instruction { op: OpCode::END_OF_FN, line: 2 });
    assert(code@ =~= start + pack_tail(out_type, arg_count as nat, string_args));
}

/// The heap objects of the twelve string methods, in order, each with one reference.
pub open spec fn string_method_fns() -> Seq<NativeFn> {
    seq![
        NativeFn { function: NativeFunction::StrLen, arg_count: 1, rc_counter: 1 },
        NativeFn { function: NativeFunction::StrToLower, arg_count: 1, rc_counter: 1 },
        NativeFn { function: NativeFunction::StrToUpper, arg_count: 1, rc_counter: 1 },
        NativeFn { function: NativeFunction::StrGet, arg_count: 2, rc_counter: 1 },
        NativeFn { function: NativeFunction::StrCount, arg_count: 2, rc_counter: 1 },
        NativeFn { function: NativeFunction::StrFind, arg_count: 2, rc_counter: 1 },
        NativeFn { function: NativeFunction::StrIsChar, arg_count: 1, rc_counter: 1 },
        NativeFn { function: NativeFunction::StrIsDigit, arg_count: 1, rc_counter: 1 },
        NativeFn { function: NativeFunction::StrTrim, arg_count: 1, rc_counter: 1 },
        NativeFn { function: NativeFunction::StrTrimLeft, arg_count: 1, rc_counter: 1 },
        NativeFn { function: NativeFunction::StrTrimRight, arg_count: 1, rc_counter: 1 },
        NativeFn { function: NativeFunction::StrReplace, arg_count: 3, rc_counter: 1 },
    ]
}

impl StringMethods {
    /// The twelve string methods: len, toLower, toUpper, get, count, find, isChar, isDigit,
    /// trim, trimLeft, trimRight and replace.
    pub fn get_methods(&mut self) -> (m: Vec<Method>)
        requires
            old(self).cur_pos + 12 <= usize::MAX,
        ensures
            m@.len() == 12,
            final(self).cur_pos == old(self).cur_pos + 12,
            m@[0].name@ == "len"@,
            m@[1].name@ == "toLower"@,
            m@[2].name@ == "toUpper"@,
            m@[3].name@ == "get"@,
            m@[4].name@ == "count"@,
            m@[5].name@ == "find"@,
            m@[6].name@ == "isChar"@,
            m@[7].name@ == "isDigit"@,
            m@[8].name@ == "trim"@,
            m@[9].name@ == "trimLeft"@,
            m@[10].name@ == "trimRight"@,
            m@[11].name@ == "replace"@,
    {
        let mut m: Vec<Method> = Vec::new();
        let f = self.pack_into_fn(str_to_chars("len"), TokenType::INT, 1, TokenType::NULL);
        m.push(Method { name: str_to_chars("len"), function: f });
        let f = self.pack_into_fn(str_to_chars("toLower"), TokenType::STRING, 1, TokenType::NULL);
        m.push(Method { name: str_to_chars("toLower"), function: f });
        let f = self.pack_into_fn(str_to_chars("toUpper"), TokenType::STRING, 1, TokenType::NULL);
        m.push(Method { name: str_to_chars("toUpper"), function: f });
        let f = self.pack_into_fn(str_to_chars("get"), TokenType::STRING, 2, TokenType::INT);
        m.push(Method { name: str_to_chars("get"), function: f });
        let f = self.pack_into_fn(str_to_chars("count"), TokenType::INT, 2, TokenType::STRING);
        m.push(Method { name: str_to_chars("count"), function: f });
        let f = self.pack_into_fn(str_to_chars("find"), TokenType::INT, 2, TokenType::STRING);
        m.push(Method { name: str_to_chars("find"), function: f });
        let f = self.pack_into_fn(str_to_chars("isChar"), TokenType::BOOL, 1, TokenType::NULL);
        m.push(Method { name: str_to_chars("isChar"), function: f });
        let f = self.pack_into_fn(str_to_chars("isDigit"), TokenType::BOOL, 1, TokenType::NULL);
        m.push(Method { name: str_to_chars("isDigit"), function: f });
        let f = self.pack_into_fn(str_to_chars("trim"), TokenType::STRING, 1, TokenType::NULL);
        m.push(Method { name: str_to_chars("trim"), function: f });
        let f = self.pack_into_fn(str_to_chars("trimLeft"), TokenType::STRING, 1, TokenType::NULL);
        m.push(Method { name: str_to_chars("trimLeft"), function: f });
        let f = self.pack_into_fn(str_to_chars("trimRight"), TokenType::STRING, 1, TokenType::NULL);
        m.push(Method { name: str_to_chars("trimRight"), function: f });
        let f = self.pack_into_fn(str_to_chars("replace"), TokenType::STRING, 3, TokenType::STRING);
        m.push(Method { name: str_to_chars("replace"), function: f });
        m
    }

    /// The heap objects of the twelve string methods, in the order of `get_methods`.
    pub fn get_methods_rc() -> (r: Vec<NativeFn>)
        ensures
            r@ == string_method_fns(),
            r@.len() == 12,
            r@[0].function == NativeFunction::StrLen && r@[0].arg_count == 1,
            r@[1].function == NativeFunction::StrToLower && r@[1].arg_count == 1,
            r@[2].function == NativeFunction::StrToUpper && r@[2].arg_count == 1,
            r@[3].function == NativeFunction::StrGet && r@[3].arg_count == 2,
            r@[4].function == NativeFunction::StrCount && r@[4].arg_count == 2,
            r@[5].function == NativeFunction::StrFind && r@[5].arg_count == 2,
            r@[6].function == NativeFunction::StrIsChar && r@[6].arg_count == 1,
            r@[7].function == NativeFunction::StrIsDigit && r@[7].arg_count == 1,
            r@[8].function == NativeFunction::StrTrim && r@[8].arg_count == 1,
            r@[9].function == NativeFunction::StrTrimLeft && r@[9].arg_count == 1,
            r@[10].function == NativeFunction::StrTrimRight && r@[10].arg_count == 1,
            r@[11].function == NativeFunction::StrReplace && r@[11].arg_count == 3,
            forall|i: int| 0 <= i < 12 ==> #[trigger] r@[i].rc_counter == 1,
    {
        vec![
            NativeFn { function: NativeFunction::StrLen, arg_count: 1, rc_counter: 1 },
            NativeFn { function: NativeFunction::StrToLower, arg_count: 1, rc_counter: 1 },
            NativeFn { function: NativeFunction::StrToUpper, arg_count: 1, rc_counter: 1 },
            NativeFn { function: NativeFunction::StrGet, arg_count: 2, rc_counter: 1 },
            NativeFn { function: NativeFunction::StrCount, arg_count: 2, rc_counter: 1 },
            NativeFn { function: NativeFunction::StrFind, arg_count: 2, rc_counter: 1 },
            NativeFn { function: NativeFunction::StrIsChar, arg_count: 1, rc_counter: 1 },
            NativeFn { function: NativeFunction::StrIsDigit, arg_count: 1, rc_counter: 1 },
            NativeFn { function: NativeFunction::StrTrim, arg_count: 1, rc_counter: 1 },
            NativeFn { function: NativeFunction::StrTrimLeft, arg_count: 1, rc_counter: 1 },
            NativeFn { function: NativeFunction::StrTrimRight, arg_count: 1, rc_counter: 1 },
            NativeFn { function: NativeFunction::StrReplace, arg_count: 3, rc_counter: 1 },
        ]
    }

    /// A string method named `name`: the string itself is its first argument, the
    /// `arg_count - 1` others are of type `arg_type`; its body takes the string's text,
    /// calls the native function after this method's position, and returns the result.
    pub fn pack_into_fn(&mut self, name: Vec<char>, out_type: TokenType, arg_count: usize, arg_type: TokenType) -> (function: Function)
        requires
            old(self).cur_pos < usize::MAX,
            1 <= arg_count < 1000,
        ensures
            final(self).cur_pos == old(self).cur_pos + 1,
            function.name@ == name@,
            function.output_type == out_type,
            function.is_self_arg,
            function.arg_count == arg_count - 1,
            function.arg_type@ == Seq::new((arg_count - 1) as nat, |i: int| arg_type),
            function.chunk.values@ == seq![ValueModel::String(Seq::empty())],
            function.locals@.len() == if arg_type == TokenType::STRING { arg_count as int } else { 1 },
            forall|i: int| 0 <= i < function.locals@.len() ==> {
                &&& (#[trigger] function.locals@[i]).local_type == TokenType::KEYWORD(Keywords::INSTANCE(3))
                &&& function.locals@[i].is_special == SpecialType::String
            },
            function.locals@[0].name@ == "self"@,
            pack_code_ok(function.chunk.code@, out_type, arg_count as nat, arg_type, final(self).cur_pos),
    {
        self.cur_pos = self.cur_pos + 1;
        let string_args = arg_type == TokenType::STRING;
        let arg_types = repeat_type(arg_type, arg_count - 1);
        let locals = method_locals(if string_args { arg_count } else { 1 });
        let mut code = method_head(arg_count, string_args, self.cur_pos);
        let ghost head = code@;
        if out_type == TokenType::STRING {
            let instance_object = StructInstance::new();
            code.push(Instruction { op: OpCode::STRING_DEC_VALUE(instance_object), line: 2 });
        }
        let ghost mid = code@;
        assert(mid.subrange(0, head.len() as int) =~= head);
        push_method_tail(&mut code, out_type, arg_count, string_args);
        proof {
            lemma_pack_code(code@, head, mid, pack_tail(out_type, arg_count as nat, string_args));
        }
        let mut function = Function::new(name);
        function.output_type = out_type;
        function.is_self_arg = true;
        function.arg_count = arg_count - 1;
        function.arg_type = arg_types;
        function.locals = locals;
        function.chunk.push_value(Value::String(Vec::new()));
        assert(function.chunk.values@ =~= seq![ValueModel::String(Seq::empty())]);
        function.chunk.code = code;
        function
    }
}

} // verus!
