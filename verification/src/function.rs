//! Functions of the language.

use vstd::prelude::*;
use crate::bytecodes::Bytecodes;

verus! {

/// What a chunk is the body of.
pub enum FunctionType {
    TypeFunction,
    TypeScript,
}

/// A function: its name, the number of its parameters and its body.
pub struct Function {
    pub arity: i8,
    pub bytecodes: Bytecodes,
    pub name: String,
}

} // verus!
