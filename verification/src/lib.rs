//! A small statically checked expression language: a lexer, a recursive
//! descent parser, a static type binder, and a tree walking evaluator, all
//! sharing one append-only chain of lexical scopes.

pub mod assignment;
pub mod call;
pub mod closure;
pub mod error;
pub mod interpreter;
pub mod laws;
pub mod lexer;
pub mod library;
pub mod literal;
pub mod name;
pub mod parser;
pub mod scope;
pub mod semantics;
pub mod syntax;
pub mod token;
pub mod type_expression;
pub mod types;
pub mod value;
