use vstd::prelude::*;

use crate::tokens::TokenType;

verus! {

/// A value of the language, as the compiler and the machine hold it.
///
/// A float is held as the decimal text that denotes it exactly; the arithmetic on floats
/// is done outside this library.
#[derive(Debug, Clone, PartialEq)]
pub enum Value {
    Float(Vec<char>),
    Int(i64),
    Bool(bool),
    Null,
    String(Vec<char>),
    List,
    InstanceRef(usize),
    StringRef(usize),
    EmptyObj,
}

/// A value, as a mathematical object.
pub enum ValueModel {
    Float(Seq<char>),
    Int(i64),
    Bool(bool),
    Null,
    String(Seq<char>),
    List,
    InstanceRef(usize),
    StringRef(usize),
    EmptyObj,
}

impl View for Value {
    type V = ValueModel;

    open spec fn view(&self) -> ValueModel {
        match self {
            Value::Float(t) => ValueModel::Float(t@),
            Value::Int(v) => ValueModel::Int(*v),
            Value::Bool(b) => ValueModel::Bool(*b),
            Value::Null => ValueModel::Null,
            Value::String(t) => ValueModel::String(t@),
            Value::List => ValueModel::List,
            Value::InstanceRef(i) => ValueModel::InstanceRef(*i),
            Value::StringRef(i) => ValueModel::StringRef(*i),
            Value::EmptyObj => ValueModel::EmptyObj,
        }
    }
}

impl ValueModel {
    /// The static type of a value; `None` for a heap placeholder.
    pub open spec fn type_of(self) -> Option<TokenType> {
        match self {
            ValueModel::Float(_) => Some(TokenType::FLOAT),
            ValueModel::Int(_) => Some(TokenType::INT),
            ValueModel::Bool(_) => Some(TokenType::BOOL),
            ValueModel::Null => Some(TokenType::NULL),
            ValueModel::String(_) => Some(TokenType::STRING),
            ValueModel::InstanceRef(v) => Some(TokenType::STRUCT(v)),
            ValueModel::List => Some(TokenType::LIST),
            _ => None,
        }
    }
}

/// Something with a static type.
pub trait Convert {
    spec fn spec_type_of(&self) -> Option<TokenType>;

    /// The static type of the thing, where it has one.
    fn convert(&self) -> (r: Option<TokenType>)
        ensures
            r == self.spec_type_of(),
    ;
}

impl Value {
    /// The static type of a value; `None` for a heap placeholder.
    pub open spec fn type_of(&self) -> Option<TokenType> {
        self@.type_of()
    }

    /// A copy of the value.
    pub fn copy(&self) -> (r: Value)
        ensures
            r@ == self@,
    {
        match self {
            Value::Float(t) => Value::Float(t.clone()),
            Value::Int(v) => Value::Int(*v),
            Value::Bool(b) => Value::Bool(*b),
            Value::Null => Value::Null,
            Value::String(s) => Value::String(s.clone()),
            Value::List => Value::List,
            Value::InstanceRef(i) => Value::InstanceRef(*i),
            Value::StringRef(i) => Value::StringRef(*i),
            Value::EmptyObj => Value::EmptyObj,
        }
    }

    /// The integer held; `None` for a value of another kind.
    pub fn get_int(&self) -> (r: Option<i64>)
        ensures
            r == (match self {
                Value::Int(v) => Some(*v),
                _ => None,
            }),
    {
        match self {
            Value::Int(v) => Some(*v),
            _ => None,
        }
    }

    /// The boolean held; `None` for a value of another kind.
    pub fn get_bool(&self) -> (r: Option<bool>)
        ensures
            r == (match self {
                Value::Bool(v) => Some(*v),
                _ => None,
            }),
    {
        match self {
            Value::Bool(v) => Some(*v),
            _ => None,
        }
    }

    /// The decimal text of the float held; `None` for a value of another kind.
    pub fn get_float(&self) -> (r: Option<Vec<char>>)
        ensures
            r matches Some(t) ==> self@ == ValueModel::Float(t@),
            r is None <==> !(self is Float),
    {
        match self {
            Value::Float(t) => Some(t.clone()),
            _ => None,
        }
    }

    /// The text of the string held; `None` for a value of another kind.
    pub fn get_string(&self) -> (r: Option<Vec<char>>)
        ensures
            r matches Some(t) ==> self@ == ValueModel::String(t@),
            r is None <==> !(self is String),
    {
        match self {
            Value::String(t) => Some(t.clone()),
            _ => None,
        }
    }

    /// What negation gives: an integer's negation, a boolean's complement; `None` for a
    /// value of another kind and for the smallest integer, whose negation overflows.
    /// (A float's negation is done outside this library.)
    pub fn negate(&self) -> (r: Option<Value>)
        ensures
            r == (match self {
                Value::Int(v) => if *v == i64::MIN { None } else { Some(Value::Int((-*v) as i64)) },
                Value::Bool(b) => Some(Value::Bool(!*b)),
                _ => None,
            }),
    {
        match self {
            Value::Int(v) => if *v == i64::MIN { None } else { Some(Value::Int(-*v)) },
            Value::Bool(b) => Some(Value::Bool(!*b)),
            _ => None,
        }
    }
}

impl Convert for Value {
    open spec fn spec_type_of(&self) -> Option<TokenType> {
        self.type_of()
    }

    fn convert(&self) -> (r: Option<TokenType>) {
        match self {
            Value::Float(_) => Some(TokenType::FLOAT),
            Value::Int(_) => Some(TokenType::INT),
            Value::Bool(_) => Some(TokenType::BOOL),
            Value::Null => Some(TokenType::NULL),
            Value::String(_) => Some(TokenType::STRING),
            Value::InstanceRef(v) => Some(TokenType::STRUCT(*v)),
            Value::List => Some(TokenType::LIST),
            _ => None,
        }
    }
}

/// The constants of a chunk, in the order they were added.
#[derive(Debug, Clone, PartialEq)]
pub struct ValuesArray {
    values: Vec<Value>,
}

impl View for ValuesArray {
    type V = Seq<ValueModel>;

    closed spec fn view(&self) -> Seq<ValueModel> {
        self.values@.map_values(|v: Value| v@)
    }
}

impl ValuesArray {
    /// An empty array.
    pub fn init() -> (r: Self)
        ensures
            r@ == Seq::<ValueModel>::empty(),
    {
        ValuesArray { values: Vec::new() }
    }

    /// Adds `value` at the end.
    pub fn push(&mut self, value: Value)
        ensures
            final(self)@ == old(self)@.push(value@),
    {
        self.values.push(value);
        assert(self.values@.map_values(|v: Value| v@) =~= old(self).values@.map_values(|v: Value| v@).push(value@));
    }

    /// A copy of the value at `index`.
    pub fn get(&self, index: usize) -> (r: Value)
        requires
            index < self@.len(),
        ensures
            r@ == self@[index as int],
    {
        self.values[index].copy()
    }

    /// How many values there are.
    pub fn len(&self) -> (r: usize)
        ensures
            r == self@.len(),
    {
        self.values.len()
    }
}

} // verus!
