//! Front end and execution core of a small scripting-language runtime: a
//! recursive-descent parser that builds an abstract syntax tree under strict
//! scoping rules, and a tree-walking executor that evaluates the tree against
//! a layered environment, with labelled `break`/`continue` control flow.
//!
//! The declared-names tracker ([`declared_names`]) and the executor
//! ([`exec`], [`context`]) carry exact contracts over mathematical models of
//! the scope stack and the environment chain; the parsers ([`parser`],
//! [`statement`], [`class`]) are proved to keep the scope discipline that the
//! tracker demands, and rendering ([`ast`]) is specified character by
//! character.

pub mod ast;
pub mod class;
pub mod context;
pub mod cursor;
pub mod declared_names;
pub mod error;
pub mod exec;
pub mod grammar;
pub mod lexer;
pub mod parser;
pub mod position;
pub mod statement;
pub mod token;
pub mod value;

pub use position::Position;
