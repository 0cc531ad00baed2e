//! Lowering of an elaborated hardware design into a structured intermediate
//! representation.
//!
//! The crate covers two subsystems: the demand-driven fact scheduler, which
//! computes facts about design elements lazily and memoizes them, and the
//! lowering engine, which maps semantic types and constants to IR types and
//! operands and emits IR state and behaviour for declarations and concurrent
//! statements.

pub mod codegen;
pub mod diag;
pub mod hir;
pub mod ir;
pub mod konst;
pub mod lazy;
pub mod make_ctx;
pub mod ty;
