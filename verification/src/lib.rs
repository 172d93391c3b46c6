//! A single-pass bytecode compiler and a stack machine for a small
//! dynamically typed scripting language.

pub mod balance;
pub mod bytecodes;
pub mod codegen;
pub mod compiler;
pub mod debug;
pub mod expressions;
pub mod function;
pub mod grammar;
pub mod helpers;
pub mod lexer;
pub mod localscope;
pub mod machine;
pub mod number;
pub mod opcode;
pub mod parser;
pub mod parser_rules;
pub mod statements;
pub mod token;
pub mod typing;
pub mod typing_expr;
pub mod typing_stmt;
pub mod value;
pub mod vm;
