//! Contract-level grammar of a Solidity-like language: contract definitions,
//! inheritance lists, events with indexed parameters and state variables,
//! parsed into a span-annotated tree whose lists live in an arena.
pub mod token;
pub mod list;
pub mod ast;
pub mod lexer;
pub mod grammar;
pub mod parser;
pub mod laws;
