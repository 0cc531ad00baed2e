//! Lowered structural forms of design elements, as handed over by the
//! excluded elaboration stages.
//!
//! Only the parts that this stage reads are modelled: a signal declaration's
//! name and optional initializer, a process statement's optional label, and
//! a type declaration's payload.

use crate::ty::Dir;
use vstd::prelude::*;

verus! {

/// The payload of a type declaration.
#[derive(Clone, Copy, PartialEq, Eq, Structural, Debug)]
pub enum TypeData {
    /// An enumeration declaration with the count of its literals.
    Enum { num_lits: usize },
    /// An integer range declaration.
    Range { dir: Dir, left_bound: i64, right_bound: i64 },
}

/// The lowered structural form of one design element.
#[derive(PartialEq, Eq, Debug)]
pub enum HirNode {
    /// A signal declaration: its name and, when the source gives one, the
    /// node id of its initializer expression.
    SignalDecl { name: String, init: Option<u64> },
    /// A process statement with its optional label.
    ProcessStmt { label: Option<String> },
    /// A type declaration; `None` when the declaration is incomplete.
    TypeDecl { data: Option<TypeData> },
}

impl HirNode {
    /// An exact copy of the node.
    pub fn duplicate(&self) -> (r: HirNode)
        ensures
            r == *self,
    {
        match self {
            HirNode::SignalDecl { name, init } => HirNode::SignalDecl {
                name: name.clone(),
                init: *init,
            },
            HirNode::ProcessStmt { label } => HirNode::ProcessStmt {
                label: match label {
                    Some(l) => Some(l.clone()),
                    None => None,
                },
            },
            HirNode::TypeDecl { data } => HirNode::TypeDecl { data: *data },
        }
    }
}

} // verus!
