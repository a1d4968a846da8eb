//! Autarky: a small functional language with a parser, a type checker, an
//! erasure pass to an untyped IR, an evaluator of that IR, a generator of LLVM
//! IR, and the proof that well-typed programs of a large fragment do not go wrong.
pub mod ast;
pub mod bindings;
pub mod ir;
pub mod vm;
pub mod typecheck;
pub mod parser;
pub mod driver;
pub mod llvm;
pub mod codegen;
pub mod soundness;
