use vstd::prelude::*;

use crate::tokens::TokenType;
use crate::value::{Value, ValueModel};
use crate::bytecode::{Instruction, OpCode};
use crate::objects::{Function, Local, Method, SpecialType, Struct};
use crate::text::str_to_chars;

verus! {

/// The built-in list type.
pub struct ListObj {}

impl ListObj {
    /// The `List` struct, with its methods.
    pub fn init(list_pos: usize) -> (s: Struct)
        requires
            list_pos + 6 <= usize::MAX,
        ensures
            s.name@ == "List"@,
            s.locals@.len() == 0,
            s.output_type == TokenType::NULL,
            s.field_count == 0,
            s.rc_counter == 1,
            s.index == 0,
            s.methods@.len() == 6,
            s.methods_distinct(),
    {
        let mut mths = ListMethods { cur_pos: list_pos };
        proof {
            reveal_strlit("push");
            reveal_strlit("pop");
            reveal_strlit("insert");
            reveal_strlit("remove");
            reveal_strlit("len");
            reveal_strlit("sort");
        }
        let methods = mths.get_methods();
        proof {
            assert forall|i: int, j: int| 0 <= i < j < methods@.len() implies (#[trigger] methods@[i]).name@
                != (#[trigger] methods@[j]).name@ by {
                let a = methods@[i].name@;
                let b = methods@[j].name@;
                assert(a.len() != b.len() || a[0] != b[0] || a[0] != b[0]);
            }
        }
        Struct {
            name: str_to_chars("List"),
            locals: Vec::new(),
            output_type: TokenType::NULL,
            field_count: 0,
            methods,
            rc_counter: 1,
            index: 0,
        }
    }
}

/// Builds the methods of the list type.
pub struct ListMethods {
    pub cur_pos: usize,
}

/// The code of a list method whose work is `op`: take the list, do the work, return
/// (the work's result, where the method has one, else null), then drop the list.
pub open spec fn list_method_code_ok(code: Seq<Instruction>, op: OpCode, output_type: TokenType) -> bool {
    let r = if output_type != TokenType::NULL { 1int } else { 0int };
    &&& code.len() == 6 + r
    &&& code[0] == Instruction { op: OpCode::GET_INSTANCE_RF(0), line: 1 }
    &&& code[1] == Instruction { op, line: 1 }
    &&& (output_type != TokenType::NULL ==> code[2] == Instruction { op: OpCode::RETURN, line: 2 })
    &&& code[2 + r] == Instruction { op: OpCode::CONSTANT_NULL(0), line: 2 }
    &&& code[3 + r] == Instruction { op: OpCode::RETURN, line: 2 }
    &&& code[4 + r] == Instruction { op: OpCode::DEC_RC(0), line: 2 }
    &&& code[5 + r] == Instruction { op: OpCode::END_OF_FN, line: 2 }
}

impl ListMethods {
    /// The six list methods: push, pop, insert, remove, len and sort.
    pub fn get_methods(&mut self) -> (m: Vec<Method>)
        requires
            old(self).cur_pos + 6 <= usize::MAX,
        ensures
            m@.len() == 6,
            final(self).cur_pos == old(self).cur_pos + 6,
            m@[0].name@ == "push"@ && m@[1].name@ == "pop"@ && m@[2].name@ == "insert"@,
            m@[3].name@ == "remove"@ && m@[4].name@ == "len"@ && m@[5].name@ == "sort"@,
    {
        let mut m: Vec<Method> = Vec::new();
        let f = self.generate_method_function(str_to_chars("push"), TokenType::NULL, 1, vec![TokenType::LIST_ELEMENT], OpCode::LIST_PUSH);
        m.push(Method { name: str_to_chars("push"), function: f });
        let f = self.generate_method_function(str_to_chars("pop"), TokenType::LIST_ELEMENT, 0, Vec::new(), OpCode::LIST_POP);
        m.push(Method { name: str_to_chars("pop"), function: f });
        let f = self.generate_method_function(str_to_chars("insert"), TokenType::NULL, 2, vec![TokenType::LIST_ELEMENT, TokenType::INT], OpCode::LIST_INSERT);
        m.push(Method { name: str_to_chars("insert"), function: f });
        let f = self.generate_method_function(str_to_chars("remove"), TokenType::NULL, 1, vec![TokenType::INT], OpCode::LIST_REMOVE);
        m.push(Method { name: str_to_chars("remove"), function: f });
        let f = self.generate_method_function(str_to_chars("len"), TokenType::INT, 0, Vec::new(), OpCode::LIST_LEN);
        m.push(Method { name: str_to_chars("len"), function: f });
        let f = self.generate_method_function(str_to_chars("sort"), TokenType::NULL, 0, Vec::new(), OpCode::LIST_SORT);
        m.push(Method { name: str_to_chars("sort"), function: f });
        m
    }

    /// A method of the list type named `name` whose work is `method_bytecode`.
    pub fn generate_method_function(
        &mut self,
        name: Vec<char>,
        output_type: TokenType,
        arg_count: usize,
        arg_types: Vec<TokenType>,
        method_bytecode: OpCode,
    ) -> (function: Function)
        requires
            old(self).cur_pos < usize::MAX,
        ensures
            final(self).cur_pos == old(self).cur_pos + 1,
            function.name@ == name@,
            function.output_type == output_type,
            function.is_self_arg,
            function.arg_count == arg_count,
            function.arg_type@ == arg_types@,
            function.instances@.len() == 0,
            function.rc_counter == 1,
            function.locals@.len() == 1,
            function.locals@[0].name@ == "self"@,
            function.locals@[0].local_type == TokenType::LIST,
            function.locals@[0].is_special matches SpecialType::List(v) && v@ == ValueModel::List,
            function.chunk.values@ == seq![ValueModel::Null],
            list_method_code_ok(function.chunk.code@, method_bytecode, output_type),
    {
        self.cur_pos = self.cur_pos + 1;
        let mut function = Function::new(name);
        function.output_type = output_type;
        function.is_self_arg = true;
        function.arg_count = arg_count;
        function.arg_type = arg_types;
        function.locals.push(Local {
            name: str_to_chars("self"),
            local_type: TokenType::LIST,
            is_redirected: false,
            redirect_pos: 0,
            rf_index: 0,
            is_special: SpecialType::List(Value::List),
        });
        let ghost op = method_bytecode;
        function.chunk.push(Instruction { op: OpCode::GET_INSTANCE_RF(0), line: 1 });
        function.chunk.push(Instruction { op: method_bytecode, line: 1 });
        if output_type != TokenType::NULL {
            function.chunk.push(Instruction { op: OpCode::RETURN, line: 2 });
        }
        function.chunk.push_value(Value::Null);
        function.chunk.push(Instruction { op: OpCode::CONSTANT_NULL(0), line: 2 });
        function.chunk.push(Instruction { op: OpCode::RETURN, line: 2 });
        function.chunk.push(Instruction { op: OpCode::DEC_RC(0), line: 2 });
        function.chunk.push(Instruction { op: OpCode::END_OF_FN, line: 2 });
        assert(function.chunk.values@ =~= seq![ValueModel::Null]);
        function
    }
}

} // verus!
