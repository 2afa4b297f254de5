use vstd::prelude::*;

pub mod tokens;
pub mod text;
pub mod lexer;
pub mod value;
pub mod bytecode;
pub mod objects;
pub mod rc;
pub mod lists;
pub mod strings;
pub mod errors;
pub mod compiler;
pub mod pattern;
pub mod natives;
pub mod vm;
pub mod debug;
pub mod expr_compiler;
pub mod laws;

verus! {

} // verus!
