//! A small embedded Python-like evaluation engine: a value model, binary
//! operators, built-in callables, an evaluator with suspension for external
//! calls, and the record conversion rules used at the host boundary.
pub mod ast;
pub mod builtins;
pub mod display;
pub mod eval;
pub mod laws;
pub mod ops;
pub mod records;
pub mod run;
pub mod value;
