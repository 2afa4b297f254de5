use vstd::prelude::*;

use crate::tokens::{Keywords, TokenType};
use crate::value::{Value, ValueModel};
use crate::bytecode::Chunk;

verus! {

/// What is special about a local: a string, a list (with a value of its element type), or nothing.
#[derive(Debug, PartialEq)]
pub enum SpecialType {
    String,
    List(Value),
    Null,
}

impl SpecialType {
    /// A copy.
    pub fn copy(&self) -> (r: SpecialType)
        ensures
            match (self, r) {
                (SpecialType::List(a), SpecialType::List(b)) => a@ == b@,
                (SpecialType::String, SpecialType::String) => true,
                (SpecialType::Null, SpecialType::Null) => true,
                _ => false,
            },
    {
        match self {
            SpecialType::String => SpecialType::String,
            SpecialType::List(v) => SpecialType::List(v.copy()),
            SpecialType::Null => SpecialType::Null,
        }
    }
}

/// A local variable, an argument or a struct field.
#[derive(Debug, PartialEq)]
pub struct Local {
    pub name: Vec<char>,
    pub local_type: TokenType,
    pub is_redirected: bool,
    pub redirect_pos: usize,
    pub rf_index: usize,
    pub is_special: SpecialType,
}

/// A compiled function or method.
#[derive(Debug, PartialEq)]
pub struct Function {
    pub name: Vec<char>,
    pub chunk: Chunk,
    pub locals: Vec<Local>,
    pub instances: Vec<Local>,
    pub output_type: TokenType,
    pub arg_count: usize,
    pub arg_type: Vec<TokenType>,
    pub is_self_arg: bool,
    pub rc_counter: usize,
}

impl Function {
    /// A function named `name` with an empty body, no locals, no arguments, returning null,
    /// with one reference.
    pub fn new(name: Vec<char>) -> (f: Self)
        ensures
            f.name@ == name@,
            f.chunk.code@.len() == 0,
            f.chunk.values@.len() == 0,
            f.locals@.len() == 0,
            f.instances@.len() == 0,
            f.output_type == TokenType::KEYWORD(Keywords::NULL),
            f.arg_count == 0,
            f.arg_type@.len() == 0,
            !f.is_self_arg,
            f.rc_counter == 1,
    {
        Function {
            name,
            chunk: Chunk::new(),
            locals: Vec::new(),
            instances: Vec::new(),
            output_type: TokenType::KEYWORD(Keywords::NULL),
            arg_count: 0,
            arg_type: Vec::new(),
            is_self_arg: false,
            rc_counter: 1,
        }
    }

    /// The function's body, to change.
    pub fn get_chunk(&mut self) -> (c: &mut Chunk)
        ensures
            *c == old(self).chunk,
            final(self).chunk == *final(c),
            final(self).name == old(self).name,
            final(self).locals == old(self).locals,
            final(self).instances == old(self).instances,
            final(self).output_type == old(self).output_type,
            final(self).arg_count == old(self).arg_count,
            final(self).is_self_arg == old(self).is_self_arg,
    {
        &mut self.chunk
    }

    /// The function's locals, to change.
    pub fn get_locals(&mut self) -> (l: &mut Vec<Local>)
        ensures
            *l == old(self).locals,
            final(self).locals == *final(l),
            final(self).name == old(self).name,
            final(self).chunk == old(self).chunk,
            final(self).instances == old(self).instances,
            final(self).output_type == old(self).output_type,
            final(self).arg_count == old(self).arg_count,
            final(self).is_self_arg == old(self).is_self_arg,
    {
        &mut self.locals
    }

    /// The function's instances, to change.
    pub fn get_instances(&mut self) -> (l: &mut Vec<Local>)
        ensures
            *l == old(self).instances,
            final(self).instances == *final(l),
            final(self).name == old(self).name,
            final(self).chunk == old(self).chunk,
            final(self).locals == old(self).locals,
            final(self).output_type == old(self).output_type,
            final(self).arg_count == old(self).arg_count,
            final(self).is_self_arg == old(self).is_self_arg,
    {
        &mut self.instances
    }
}

/// A method of a struct.
#[derive(Debug, PartialEq)]
pub struct Method {
    pub name: Vec<char>,
    pub function: Function,
}

/// A struct type: its fields and its methods.
#[derive(Debug, PartialEq)]
pub struct Struct {
    pub name: Vec<char>,
    pub locals: Vec<Local>,
    pub output_type: TokenType,
    pub field_count: usize,
    pub methods: Vec<Method>,
    pub rc_counter: usize,
    pub index: usize,
}

impl Struct {
    /// No two methods of the struct share a name, so that a method is found by its name
    /// alone.
    pub open spec fn methods_distinct(&self) -> bool {
        forall|i: int, j: int|
            0 <= i < j < self.methods@.len() ==> (#[trigger] self.methods@[i]).name@ != (#[trigger] self.methods@[j]).name@
    }

    /// A struct named `name` with no fields and no methods, with one reference.
    pub fn new(name: Vec<char>) -> (s: Self)
        ensures
            s.methods_distinct(),
            s.name@ == name@,
            s.locals@.len() == 0,
            s.output_type == TokenType::KEYWORD(Keywords::NULL),
            s.field_count == 0,
            s.methods@.len() == 0,
            s.rc_counter == 1,
            s.index == 0,
    {
        Struct {
            name,
            locals: Vec::new(),
            output_type: TokenType::KEYWORD(Keywords::NULL),
            field_count: 0,
            methods: Vec::new(),
            rc_counter: 1,
            index: 0,
        }
    }

    /// Adds method `m` unless the struct already has a method of that name; says whether
    /// it was added. Method names stay distinct.
    pub fn add_method(&mut self, m: Method) -> (added: bool)
        ensures
            added <==> forall|i: int| 0 <= i < old(self).methods@.len() ==> (#[trigger] old(self).methods@[i]).name@ != m.name@,
            added ==> final(self).methods@ == old(self).methods@.push(m),
            !added ==> final(self).methods@ == old(self).methods@,
            old(self).methods_distinct() ==> final(self).methods_distinct(),
            final(self).name == old(self).name,
            final(self).locals == old(self).locals,
            final(self).output_type == old(self).output_type,
            final(self).field_count == old(self).field_count,
            final(self).rc_counter == old(self).rc_counter,
            final(self).index == old(self).index,
    {
        if self.find_method(&m.name).is_some() {
            return false;
        }
        self.methods.push(m);
        true
    }

    /// The position of the method named `name`, if there is one.
    pub fn find_method(&self, name: &Vec<char>) -> (r: Option<usize>)
        ensures
            r matches Some(i) ==> i < self.methods@.len() && self.methods@[i as int].name@ == name@,
            r is None ==> forall|i: int| 0 <= i < self.methods@.len() ==> self.methods@[i].name@ != name@,
    {
        let mut i: usize = 0;
        while i < self.methods.len()
            invariant
                i <= self.methods@.len(),
                forall|j: int| 0 <= j < i ==> self.methods@[j].name@ != name@,
            decreases self.methods@.len() - i,
        {
            if crate::tokens::chars_equal(self.methods[i].name.as_slice(), name.as_slice()) {
                return Some(i);
            }
            i = i + 1;
        }
        None
    }
}

/// An instance of a struct (also a string or a list): its field values.
#[derive(Debug, PartialEq)]
pub struct StructInstance {
    pub fields_values: Vec<Value>,
    pub rc_counter: usize,
}

impl StructInstance {
    /// An instance with no field values, with one reference.
    pub fn new() -> (s: Self)
        ensures
            s.fields_values@.len() == 0,
            s.rc_counter == 1,
    {
        StructInstance { fields_values: Vec::new(), rc_counter: 1 }
    }
}

} // verus!

verus! {

/// The built-in functions the machine can call, and the string methods.
#[derive(Debug, Clone, Copy, PartialEq, Eq, Structural)]
pub enum NativeFunction {
    Print,
    Println,
    Input,
    ConvToInt,
    ConvToFloat,
    ConvToString,
    AbsInt,
    AbsFloat,
    PowInt,
    PowFloat,
    MinInt,
    MinFloat,
    MaxInt,
    MaxFloat,
    SqrtInt,
    SqrtFloat,
    Round,
    Floor,
    Ceil,
    StrLen,
    StrToLower,
    StrToUpper,
    StrGet,
    StrCount,
    StrFind,
    StrIsChar,
    StrIsDigit,
    StrTrim,
    StrTrimLeft,
    StrTrimRight,
    StrReplace,
}

/// A built-in function on the heap.
#[derive(Debug, Clone, PartialEq)]
pub struct NativeFn {
    pub function: NativeFunction,
    pub arg_count: usize,
    pub rc_counter: usize,
}

} // verus!
