//! The error kinds this stage can report.
//!
//! Errors fall in three groups: constructs that are out of scope of this
//! stage, constant kinds that have no representation in the IR, and
//! internal-consistency violations, which indicate that an upstream stage
//! broke its contract.

use vstd::prelude::*;

verus! {

/// A declaration or concurrent-statement kind that this stage does not lower.
#[derive(Clone, Copy, PartialEq, Eq, Structural, Debug)]
pub enum ConstructKind {
    ConstDecl,
    SharedVarDecl,
    FileDecl,
    BlockStmt,
    ProcCallStmt,
    AssertStmt,
    SigAssignStmt,
    CompInstStmt,
    ForGenStmt,
    IfGenStmt,
    CaseGenStmt,
}

/// A constant kind that cannot be represented in the IR's value model.
#[derive(Clone, Copy, PartialEq, Eq, Structural, Debug)]
pub enum ConstKind {
    Float,
    IntRange,
    FloatRange,
}

/// An internal-consistency violation: an upstream stage handed this stage
/// something its contract rules out. Each variant carries the offending
/// identifier where one is in scope.
#[derive(Clone, Copy, PartialEq, Eq, Structural, Debug)]
pub enum InternalError {
    /// No fact was registered for the identifier.
    MissingFact(u64),
    /// A second callback was registered for the same identifier and fact kind.
    DuplicateFact(u64),
    /// A fact was demanded while its own computation was still running.
    CyclicFact(u64),
    /// An unbounded integer type reached terminal type mapping.
    UnboundedIntType,
    /// A named type was still unresolved after every alias step was spent.
    UnresolvedAlias(u64),
    /// An enum type referenced a declaration that is not an enum declaration.
    NotAnEnumDecl(u64),
    /// An enum constant carried an index outside the declared literal list.
    EnumIndexOutOfRange(u64),
    /// An integer constant whose declared type does not map to an integer
    /// IR type.
    IntConstWithoutIntType,
    /// The lowered form registered for a signal declaration is not a signal
    /// declaration.
    NotASignalDecl(u64),
    /// The lowered form registered for a process statement is not a process
    /// statement.
    NotAProcessStmt(u64),
}

/// An error reported by this stage.
#[derive(Clone, Copy, PartialEq, Eq, Structural, Debug)]
pub enum Error {
    /// The construct is out of scope of this stage and was not lowered.
    Unsupported(ConstructKind),
    /// The constant kind has no IR representation.
    UnsupportedConstant(ConstKind),
    /// An upstream stage broke its contract.
    Internal(InternalError),
}

} // verus!
