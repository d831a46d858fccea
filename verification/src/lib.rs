//! A compiler for a small language that mixes deterministic computation
//! with concurrent effects.
//!
//! `parser` reads a text into the tree of `ast`, as `grammar` describes it.
//! `analysis` holds the three checks that every function passes. `codegen`
//! emits the target program that `lowering` describes, and `pipeline` runs
//! all of it in order. `runtime` is what the emitted code computes with.

pub mod analysis;
pub mod ast;
pub mod ast_clone;
pub mod codegen;
pub mod grammar;
pub mod lowering;
pub mod parser;
pub mod pipeline;
pub mod runtime;
pub mod text;
