//! Nukleus: a small imperative language. Source text is lexed into tokens,
//! parsed into a tree of statements, and executed by a tree-walking
//! interpreter. Every stage fails on its first error.

pub mod ast;
pub mod interpreter;
pub mod lexer;
pub mod parser;
pub mod semantics;
pub mod text;
pub mod token;
