//! Semantic constant values, as produced by the excluded evaluation stage.

use vstd::prelude::*;

verus! {

/// A semantic constant value.
///
/// `Float`, `IntRange` and `FloatRange` have no representation in the IR's
/// value model: mapping them is always reported as unsupported.
#[derive(Clone, Copy, PartialEq, Eq, Structural, Debug)]
pub enum Const {
    /// The value of the null type.
    Null,
    /// An integer value.
    Int { value: i64 },
    /// A literal of an enumeration type: the declaring node of the type and
    /// the position of the literal in its literal list.
    Enum { decl: u64, index: usize },
    /// A floating-point value.
    Float,
    /// A range of integer values.
    IntRange,
    /// A range of floating-point values.
    FloatRange,
}

} // verus!
