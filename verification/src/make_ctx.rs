//! A context within which the compiler passes of one node are described.
//!
//! Create a `MakeContext` for each freshly created node, declare through it
//! how each compiler pass treats the node, then finish to obtain the node's
//! id.

use crate::codegen::ScoreContext;
use crate::diag::{Error, InternalError};
use crate::hir::HirNode;
use crate::lazy::{LazyNode, Recipe};
use crate::ty::Ty;
use vstd::prelude::*;

verus! {

/// The extent of a node in the source text, as byte offsets.
#[derive(Clone, Copy, PartialEq, Eq, Structural, Debug)]
pub struct Span {
    pub begin: usize,
    pub end: usize,
}

/// A context describing one node under construction: where it stands in
/// the source and which identifier it received.
#[derive(Clone, Copy, PartialEq, Eq, Structural, Debug)]
pub struct MakeContext {
    /// The extent of the node in the source code.
    pub span: Span,
    /// The identifier of the node being constructed.
    pub id: u64,
}

impl MakeContext {
    /// Creates a new context for one node.
    pub fn new(span: Span, id: u64) -> (mc: MakeContext)
        ensures
            mc.span == span,
            mc.id == id,
    {
        MakeContext { span, id }
    }

    /// Finalizes the description and returns the node id. This is the very
    /// last step.
    pub fn finish(self) -> (r: u64)
        ensures
            r == self.id,
    {
        self.id
    }

    /// Schedules the computation that lowers the node to its structural
    /// form. Scheduling a second computation for the same node is an
    /// internal-consistency error and leaves the first in place.
    pub fn lower_to_hir(&self, ctx: &mut ScoreContext, recipe: Recipe<HirNode>) -> (r: Result<
        (),
        Error,
    >)
        ensures
            old(ctx).lazy.hir@.contains_key(self.id) ==> {
                &&& r == Err::<(), Error>(Error::Internal(InternalError::DuplicateFact(self.id)))
                &&& final(ctx).lazy.hir@ == old(ctx).lazy.hir@
            },
            !old(ctx).lazy.hir@.contains_key(self.id) ==> {
                &&& r == Ok::<(), Error>(())
                &&& final(ctx).lazy.hir@ == old(ctx).lazy.hir@.insert(
                    self.id,
                    LazyNode::Pending(recipe),
                )
            },
            final(ctx).lazy.typeck@ == old(ctx).lazy.typeck@,
            final(ctx).lazy.typeval@ == old(ctx).lazy.typeval@,
            final(ctx).lazy.konst@ == old(ctx).lazy.konst@,
            final(ctx).llmod == old(ctx).llmod,
            final(ctx).lowered@ == old(ctx).lowered@,
    {
        ctx.lazy.schedule_hir(self.id, recipe)
    }

    /// Schedules the computation that type checks the node.
    pub fn typeck(&self, ctx: &mut ScoreContext, recipe: Recipe<()>) -> (r: Result<(), Error>)
        ensures
            old(ctx).lazy.typeck@.contains_key(self.id) ==> {
                &&& r == Err::<(), Error>(Error::Internal(InternalError::DuplicateFact(self.id)))
                &&& final(ctx).lazy.typeck@ == old(ctx).lazy.typeck@
            },
            !old(ctx).lazy.typeck@.contains_key(self.id) ==> {
                &&& r == Ok::<(), Error>(())
                &&& final(ctx).lazy.typeck@ == old(ctx).lazy.typeck@.insert(
                    self.id,
                    LazyNode::Pending(recipe),
                )
            },
            final(ctx).lazy.hir@ == old(ctx).lazy.hir@,
            final(ctx).lazy.typeval@ == old(ctx).lazy.typeval@,
            final(ctx).lazy.konst@ == old(ctx).lazy.konst@,
            final(ctx).llmod == old(ctx).llmod,
            final(ctx).lowered@ == old(ctx).lowered@,
    {
        ctx.lazy.schedule_typeck(self.id, recipe)
    }

    /// Schedules the computation that evaluates the type of the node.
    pub fn typeval(&self, ctx: &mut ScoreContext, recipe: Recipe<Ty>) -> (r: Result<(), Error>)
        ensures
            old(ctx).lazy.typeval@.contains_key(self.id) ==> {
                &&& r == Err::<(), Error>(Error::Internal(InternalError::DuplicateFact(self.id)))
                &&& final(ctx).lazy.typeval@ == old(ctx).lazy.typeval@
            },
            !old(ctx).lazy.typeval@.contains_key(self.id) ==> {
                &&& r == Ok::<(), Error>(())
                &&& final(ctx).lazy.typeval@ == old(ctx).lazy.typeval@.insert(
                    self.id,
                    LazyNode::Pending(recipe),
                )
            },
            final(ctx).lazy.hir@ == old(ctx).lazy.hir@,
            final(ctx).lazy.typeck@ == old(ctx).lazy.typeck@,
            final(ctx).lazy.konst@ == old(ctx).lazy.konst@,
            final(ctx).llmod == old(ctx).llmod,
            final(ctx).lowered@ == old(ctx).lowered@,
    {
        ctx.lazy.schedule_typeval(self.id, recipe)
    }
}

} // verus!
