use vstd::prelude::*;

use crate::value::{Value, ValueModel, ValuesArray};
use crate::objects::{Function, Struct, StructInstance};

verus! {

/// The machine's instructions.
#[derive(Debug, PartialEq)]
#[allow(non_camel_case_types)]
pub enum OpCode {
    FUNCTION_DEC(Function),
    FUNCTION_CALL(usize),
    NATIVE_FN_CALL(usize),
    IO_FN_CALL(usize, usize),
    STRUCT_DEC(Struct),
    INSTANCE_DEC(StructInstance, usize),
    GET_INSTANCE_FIELD(usize, usize),
    SET_INSTANCE_FIELD(usize, usize),
    GET_INSTANCE_RF(usize),
    METHOD_CALL(usize, usize),
    GET_LIST(usize),
    GET_LIST_FIELD(usize),
    SET_LIST_FIELD(usize),
    LIST_PUSH,
    LIST_POP,
    LIST_INSERT,
    LIST_REMOVE,
    LIST_LEN,
    LIST_SORT,
    PUSH_STACK(Value),
    IF_STMT_OFFSET(usize),
    JUMP(usize),
    LOOP(usize),
    BREAK,
    VAR_CALL(usize),
    VAR_SET(usize),
    POP,
    POP_UNUSED,
    DEC_RC(usize),
    INC_RC(usize),
    DEC_TO(usize),
    RF_REMOVE,
    STRING_DEC(StructInstance),
    STRING_DEC_VALUE(StructInstance),
    CONSTANT_BOOL(usize),
    EQ_BOOL,
    NEG_EQ_BOOL,
    CONSTANT_FLOAT(usize),
    ADD_FLOAT,
    SUB_FLOAT,
    MUL_FLOAT,
    DIV_FLOAT,
    MOD_FLOAT,
    EQ_FLOAT,
    NEG_EQ_FLOAT,
    GREATER_FLOAT,
    EQ_GREATER_FLOAT,
    LESS_FLOAT,
    EQ_LESS_FLOAT,
    CONSTANT_INT(usize),
    ADD_INT,
    SUB_INT,
    MUL_INT,
    DIV_INT,
    MOD_INT,
    EQ_INT,
    NEG_EQ_INT,
    GREATER_INT,
    EQ_GREATER_INT,
    LESS_INT,
    EQ_LESS_INT,
    ADD_STRING,
    EQ_STRING,
    NEG_EQ_STRING,
    CONSTANT_NULL(usize),
    NEGATE,
    RETURN,
    END_OF_FN,
}

/// An instruction and the source line it came from.
#[derive(Debug, PartialEq)]
pub struct Instruction {
    pub op: OpCode,
    pub line: u32,
}

/// A body of code: its instructions and its constants.
#[derive(Debug, PartialEq)]
pub struct Chunk {
    pub code: Vec<Instruction>,
    pub values: ValuesArray,
}

impl Chunk {
    /// An empty chunk.
    pub fn new() -> (c: Self)
        ensures
            c.code@ == Seq::<Instruction>::empty(),
            c.values@ == Seq::<ValueModel>::empty(),
    {
        Chunk { code: Vec::new(), values: ValuesArray::init() }
    }

    /// Appends an instruction.
    pub fn push(&mut self, instruction: Instruction)
        ensures
            final(self).code@ == old(self).code@.push(instruction),
            final(self).values == old(self).values,
    {
        self.code.push(instruction);
    }

    /// Appends a constant and gives its index.
    pub fn push_value(&mut self, value: Value) -> (index: usize)
        requires
            old(self).values@.len() < usize::MAX,
        ensures
            final(self).values@ == old(self).values@.push(value@),
            final(self).code == old(self).code,
            index == old(self).values@.len(),
    {
        self.values.push(value);
        self.values.len() - 1
    }

    /// The instruction at `offset`.
    pub fn get_instruction(&self, offset: usize) -> (r: &Instruction)
        requires
            offset < self.code@.len(),
        ensures
            *r == self.code@[offset as int],
    {
        &self.code[offset]
    }

    /// The last instruction.
    pub fn get_last_instruction(&self) -> (r: &Instruction)
        requires
            self.code@.len() > 0,
        ensures
            *r == self.code@.last(),
    {
        &self.code[self.code.len() - 1]
    }

    /// A copy of the constant at `index`.
    pub fn get_value(&self, index: usize) -> (r: Value)
        requires
            index < self.values@.len(),
        ensures
            r@ == self.values@[index as int],
    {
        self.values.get(index)
    }

    /// A copy of the last constant.
    pub fn get_last_value(&self) -> (r: Value)
        requires
            self.values@.len() > 0,
        ensures
            r@ == self.values@.last(),
    {
        self.values.get(self.values.len() - 1)
    }

    /// How many instructions there are.
    pub fn len(&self) -> (r: usize)
        ensures
            r == self.code@.len(),
    {
        self.code.len()
    }
}

} // verus!
