//! A small embeddable expression language: a lexer, an S-expression parser,
//! and a tree-walking evaluator over a dynamically typed value set carried
//! on a persistent, structurally shared list.
//!
//! The same reference-counted list type serves as the AST representation,
//! as argument lists, as the variable environment, and as first-class list
//! values.  Program text flows through `lexer::lex` into token strings,
//! through `parser::parse` into a nested-list AST, and through `eval::eval`
//! into a result value; `eval::eval_string` composes the three.
//!
//! The crate is verified: every function's behaviour is pinned by a
//! specification over abstract values, from the token grammar to the
//! evaluator's dispatch and error cases.  Machine floating point never
//! enters the verified code; floats are carried as IEEE 754 bit patterns,
//! and the embedding host supplies the few primitive operations on them
//! (see `host`).  The `laws` module, together with lemmas beside the lexer
//! and parser, states and proves the structural laws: tokenizing is
//! idempotent on its own output, serialized programs parse back to the same
//! AST, sibling `let` bindings cannot observe one another, and arity and
//! operand-type violations are errors, never wrong-typed successes.

pub mod list;
pub mod program;
pub mod strings;
pub mod host;
pub mod numbers;
pub mod lexer;
pub mod parser;
pub mod eval;
pub mod render;
pub mod builtins;
pub mod laws;
