//! A minimal interpreter for a line-numbered, BASIC-style scripting language.
//!
//! The crate covers three pieces: a recursive-descent grammar for commands,
//! expressions and values; a jump-addressable program representation; and a
//! sequential execution engine with a mutable variable environment.  Every
//! parser is verified against a mathematical description of the grammar, and
//! the engine's step function is verified against a mathematical transition
//! function over program states.

pub mod basic;
pub mod commands;
pub mod env;
pub mod expressions;
pub mod generic;
pub mod node;
pub mod numbers;
pub mod parse_commands;
pub mod text;
pub mod variables;
