//! Core of a small interpreted scripting language: lexing and parsing of
//! source text into an abstract syntax tree, a static pre-execution
//! analysis, and a tree-walking evaluator over a stack of lexical scopes.

pub mod analyzer;
pub mod ast;
pub mod auth;
pub mod ast_clone;
pub mod diagnostics;
pub mod dict;
pub mod errors;
pub mod host;
pub mod input;
pub mod interpreter;
pub mod lexer;
pub mod modules;
pub mod packages;
pub mod parser;
pub mod routing;
pub mod ops;
pub mod render;
pub mod span;
pub mod stdlib;
pub mod symbol_table;
pub mod text;
pub mod types;
pub mod value;
