//! Semantic types, as produced by the excluded type-checking stage.

use vstd::prelude::*;

verus! {

/// The direction of an integer range.
#[derive(Clone, Copy, PartialEq, Eq, Structural, Debug)]
pub enum Dir {
    /// Ascending range: `left to right`.
    To,
    /// Descending range: `left downto right`.
    Downto,
}

/// A semantic type.
///
/// `Named` must be dereferenced before terminal mapping; `UnboundedInt`
/// reaching the mapper is an upstream contract breach, not a user error.
#[derive(Clone, Copy, PartialEq, Eq, Structural, Debug)]
pub enum Ty {
    /// The type that carries no value.
    Null,
    /// A ranged integer scalar with two bounds and a direction.
    Int { dir: Dir, left_bound: i64, right_bound: i64 },
    /// An enumeration type, referring to its declaring node.
    Enum { decl: u64 },
    /// An arbitrary-precision integer, legal at compile time only.
    UnboundedInt,
    /// An alias that refers to the type checked for another node.
    Named { decl: u64 },
}

/// The signed difference that sizes an integer range: `right - left` for an
/// ascending range, `left - right` for a descending one. A negative
/// difference means the range is null and carries no value.
pub open spec fn range_diff(dir: Dir, left_bound: int, right_bound: int) -> int {
    match dir {
        Dir::To => right_bound - left_bound,
        Dir::Downto => left_bound - right_bound,
    }
}

} // verus!
