//! A tree-walking interpreter for a small dynamically typed scripting
//! language: lexer, recursive-descent parser, scope tree and evaluator.
//!
//! `scanner` turns source text into tokens, `parser` turns tokens into
//! statements after the grammar of `grammar`, and `interpreter` runs
//! statements as the machine of `machine` does, one step at a time, on the
//! scopes of `environment`. `progress` shows that the machine does not run
//! on by itself, and `report` lays out diagnostics.
//!
//! The library does no input or output and no floating-point arithmetic. A
//! number is the bit pattern of a double: `number` compares and negates such
//! patterns, and what rounds is asked of the caller, step by step.

pub mod environment;
pub mod expr;
pub mod grammar;
pub mod interpreter;
pub mod lox_callable;
pub mod machine;
pub mod number;
pub mod parser;
pub mod progress;
pub mod report;
pub mod scanner;
pub mod text;
pub mod token;
pub mod token_type;
