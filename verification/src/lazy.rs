//! The lazy fact scheduler.
//!
//! Any stage may register, for a design-element identifier, a deferred
//! computation of a fact about that element, and any stage may later demand
//! the fact. A demand resolves the deferred computation exactly once and
//! memoizes its outcome; repeated demands observe the memoized outcome.
//! Distinct fact kinds live in independent tables keyed by the same
//! identifier space.

use crate::diag::{Error, InternalError};
use crate::hir::HirNode;
use crate::konst::Const;
use crate::ty::Ty;
use std::collections::HashMap;
use vstd::prelude::*;

verus! {

broadcast use vstd::std_specs::hash::group_hash_axioms;

/// The deferred computation of a fact, handed over by the collaborator
/// stage that will be asked for it: either the value it will produce, or
/// the error it will report.
#[derive(Debug)]
pub enum Recipe<T> {
    Produce(T),
    Fail(Error),
}

/// One entry of a fact table: the state machine of a lazily computed fact.
/// `Pending` holds the deferred computation; `Done` holds its memoized
/// outcome. The transition happens exactly once, on first demand.
#[derive(Debug)]
pub enum LazyNode<T> {
    Pending(Recipe<T>),
    Done(Result<T, Error>),
}

/// The outcome that resolving a deferred computation yields.
pub open spec fn run_recipe<T>(r: Recipe<T>) -> Result<T, Error> {
    match r {
        Recipe::Produce(v) => Ok(v),
        Recipe::Fail(e) => Err(e),
    }
}

/// The fact a table holds for an identifier, whether still pending or
/// already memoized; demanding an identifier with no entry is an
/// internal-consistency error.
pub open spec fn table_fact<T>(m: Map<u64, LazyNode<T>>, id: u64) -> Result<T, Error> {
    if m.contains_key(id) {
        match m[id] {
            LazyNode::Pending(r) => run_recipe(r),
            LazyNode::Done(res) => res,
        }
    } else {
        Err(Error::Internal(InternalError::MissingFact(id)))
    }
}

/// Two table states that hold the same fact for every identifier. Demands
/// only move entries from `Pending` to `Done`, so every operation of the
/// scheduler preserves this relation.
pub open spec fn facts_equal<T>(m1: Map<u64, LazyNode<T>>, m2: Map<u64, LazyNode<T>>) -> bool {
    &&& m1.dom() =~= m2.dom()
    &&& forall|id: u64| table_fact(m1, id) == table_fact(m2, id)
}

/// Memoizing the fact an identifier already holds changes no fact of the
/// table.
pub proof fn lemma_fact_memoized<T>(m: Map<u64, LazyNode<T>>, id: u64)
    requires
        m.contains_key(id),
    ensures
        facts_equal(m, m.insert(id, LazyNode::Done(table_fact(m, id)))),
{
    let m2 = m.insert(id, LazyNode::Done(table_fact(m, id)));
    assert(m.dom() =~= m2.dom());
    assert forall|j: u64| table_fact(m, j) == table_fact(m2, j) by {
        if j != id {
            assert(m2.contains_key(j) == m.contains_key(j));
        }
    }
}

/// The independent fact tables of one compilation unit: the lowered form,
/// the type-check outcome, the evaluated type, and the evaluated constant
/// of each design element.
pub struct LazyTables {
    pub hir: HashMap<u64, LazyNode<HirNode>>,
    pub typeck: HashMap<u64, LazyNode<()>>,
    pub typeval: HashMap<u64, LazyNode<Ty>>,
    pub konst: HashMap<u64, LazyNode<Const>>,
}

impl LazyTables {
    /// Fresh tables with no entries.
    pub fn new() -> (t: LazyTables)
        ensures
            t.hir@ =~= Map::<u64, LazyNode<HirNode>>::empty(),
            t.typeck@ =~= Map::<u64, LazyNode<()>>::empty(),
            t.typeval@ =~= Map::<u64, LazyNode<Ty>>::empty(),
            t.konst@ =~= Map::<u64, LazyNode<Const>>::empty(),
    {
        LazyTables {
            hir: HashMap::new(),
            typeck: HashMap::new(),
            typeval: HashMap::new(),
            konst: HashMap::new(),
        }
    }

    /// Registers the deferred lowering of a node to its structural form.
    /// Registering a second computation for the same identifier and kind is
    /// an internal-consistency error and leaves the first in place.
    pub fn schedule_hir(&mut self, id: u64, recipe: Recipe<HirNode>) -> (r: Result<(), Error>)
        ensures
            old(self).hir@.contains_key(id) ==> {
                &&& r == Err::<(), Error>(Error::Internal(InternalError::DuplicateFact(id)))
                &&& final(self).hir@ == old(self).hir@
            },
            !old(self).hir@.contains_key(id) ==> {
                &&& r == Ok::<(), Error>(())
                &&& final(self).hir@ == old(self).hir@.insert(id, LazyNode::Pending(recipe))
            },
            final(self).typeck@ == old(self).typeck@,
            final(self).typeval@ == old(self).typeval@,
            final(self).konst@ == old(self).konst@,
    {
        if self.hir.contains_key(&id) {
            Err(Error::Internal(InternalError::DuplicateFact(id)))
        } else {
            self.hir.insert(id, LazyNode::Pending(recipe));
            Ok(())
        }
    }

    /// Registers the deferred type check of a node. A duplicate registration
    /// is an internal-consistency error and leaves the first in place.
    pub fn schedule_typeck(&mut self, id: u64, recipe: Recipe<()>) -> (r: Result<(), Error>)
        ensures
            old(self).typeck@.contains_key(id) ==> {
                &&& r == Err::<(), Error>(Error::Internal(InternalError::DuplicateFact(id)))
                &&& final(self).typeck@ == old(self).typeck@
            },
            !old(self).typeck@.contains_key(id) ==> {
                &&& r == Ok::<(), Error>(())
                &&& final(self).typeck@ == old(self).typeck@.insert(id, LazyNode::Pending(recipe))
            },
            final(self).hir@ == old(self).hir@,
            final(self).typeval@ == old(self).typeval@,
            final(self).konst@ == old(self).konst@,
    {
        if self.typeck.contains_key(&id) {
            Err(Error::Internal(InternalError::DuplicateFact(id)))
        } else {
            self.typeck.insert(id, LazyNode::Pending(recipe));
            Ok(())
        }
    }

    /// Registers the deferred evaluation of a node's type. A duplicate
    /// registration is an internal-consistency error and leaves the first
    /// in place.
    pub fn schedule_typeval(&mut self, id: u64, recipe: Recipe<Ty>) -> (r: Result<(), Error>)
        ensures
            old(self).typeval@.contains_key(id) ==> {
                &&& r == Err::<(), Error>(Error::Internal(InternalError::DuplicateFact(id)))
                &&& final(self).typeval@ == old(self).typeval@
            },
            !old(self).typeval@.contains_key(id) ==> {
                &&& r == Ok::<(), Error>(())
                &&& final(self).typeval@ == old(self).typeval@.insert(id, LazyNode::Pending(recipe))
            },
            final(self).hir@ == old(self).hir@,
            final(self).typeck@ == old(self).typeck@,
            final(self).konst@ == old(self).konst@,
    {
        if self.typeval.contains_key(&id) {
            Err(Error::Internal(InternalError::DuplicateFact(id)))
        } else {
            self.typeval.insert(id, LazyNode::Pending(recipe));
            Ok(())
        }
    }

    /// Registers the deferred evaluation of a node's constant value. A
    /// duplicate registration is an internal-consistency error and leaves
    /// the first in place.
    pub fn schedule_const(&mut self, id: u64, recipe: Recipe<Const>) -> (r: Result<(), Error>)
        ensures
            old(self).konst@.contains_key(id) ==> {
                &&& r == Err::<(), Error>(Error::Internal(InternalError::DuplicateFact(id)))
                &&& final(self).konst@ == old(self).konst@
            },
            !old(self).konst@.contains_key(id) ==> {
                &&& r == Ok::<(), Error>(())
                &&& final(self).konst@ == old(self).konst@.insert(id, LazyNode::Pending(recipe))
            },
            final(self).hir@ == old(self).hir@,
            final(self).typeck@ == old(self).typeck@,
            final(self).typeval@ == old(self).typeval@,
    {
        if self.konst.contains_key(&id) {
            Err(Error::Internal(InternalError::DuplicateFact(id)))
        } else {
            self.konst.insert(id, LazyNode::Pending(recipe));
            Ok(())
        }
    }

    /// Demands a node's structural form, resolving and memoizing it on
    /// first demand.
    pub fn demand_hir(&mut self, id: u64) -> (r: Result<HirNode, Error>)
        ensures
            r == table_fact(old(self).hir@, id),
            old(self).hir@.contains_key(id) ==> final(self).hir@ == old(self).hir@.insert(
                id,
                LazyNode::Done(table_fact(old(self).hir@, id)),
            ),
            !old(self).hir@.contains_key(id) ==> final(self).hir@ == old(self).hir@,
            facts_equal(old(self).hir@, final(self).hir@),
            final(self).typeck@ == old(self).typeck@,
            final(self).typeval@ == old(self).typeval@,
            final(self).konst@ == old(self).konst@,
    {
        match self.hir.remove(&id) {
            Some(node) => {
                let res: Result<HirNode, Error> = match node {
                    LazyNode::Pending(rec) => match rec {
                        Recipe::Produce(v) => Ok(v),
                        Recipe::Fail(e) => Err(e),
                    },
                    LazyNode::Done(res0) => res0,
                };
                let dup: Result<HirNode, Error> = match &res {
                    Ok(h) => Ok(h.duplicate()),
                    Err(e) => Err(*e),
                };
                self.hir.insert(id, LazyNode::Done(res));
                proof {
                    assert(final(self).hir@ =~= old(self).hir@.insert(
                        id,
                        LazyNode::Done(table_fact(old(self).hir@, id)),
                    ));
                    lemma_fact_memoized(old(self).hir@, id);
                }
                dup
            },
            None => Err(Error::Internal(InternalError::MissingFact(id))),
        }
    }

    /// Demands a node's type-check outcome, resolving and memoizing it on
    /// first demand.
    pub fn demand_typeck(&mut self, id: u64) -> (r: Result<(), Error>)
        ensures
            r == table_fact(old(self).typeck@, id),
            old(self).typeck@.contains_key(id) ==> final(self).typeck@ == old(
                self,
            ).typeck@.insert(id, LazyNode::Done(table_fact(old(self).typeck@, id))),
            !old(self).typeck@.contains_key(id) ==> final(self).typeck@ == old(self).typeck@,
            facts_equal(old(self).typeck@, final(self).typeck@),
            final(self).hir@ == old(self).hir@,
            final(self).typeval@ == old(self).typeval@,
            final(self).konst@ == old(self).konst@,
    {
        match self.typeck.get(&id) {
            Some(node) => {
                let res: Result<(), Error> = match node {
                    LazyNode::Pending(rec) => match rec {
                        Recipe::Produce(v) => Ok(*v),
                        Recipe::Fail(e) => Err(*e),
                    },
                    LazyNode::Done(res0) => *res0,
                };
                self.typeck.insert(id, LazyNode::Done(res));
                proof {
                    lemma_fact_memoized(old(self).typeck@, id);
                }
                res
            },
            None => Err(Error::Internal(InternalError::MissingFact(id))),
        }
    }

    /// Demands a node's evaluated type, resolving and memoizing it on first
    /// demand.
    pub fn demand_typeval(&mut self, id: u64) -> (r: Result<Ty, Error>)
        ensures
            r == table_fact(old(self).typeval@, id),
            old(self).typeval@.contains_key(id) ==> final(self).typeval@ == old(
                self,
            ).typeval@.insert(id, LazyNode::Done(table_fact(old(self).typeval@, id))),
            !old(self).typeval@.contains_key(id) ==> final(self).typeval@ == old(self).typeval@,
            facts_equal(old(self).typeval@, final(self).typeval@),
            final(self).hir@ == old(self).hir@,
            final(self).typeck@ == old(self).typeck@,
            final(self).konst@ == old(self).konst@,
    {
        match self.typeval.get(&id) {
            Some(node) => {
                let res: Result<Ty, Error> = match node {
                    LazyNode::Pending(rec) => match rec {
                        Recipe::Produce(v) => Ok(*v),
                        Recipe::Fail(e) => Err(*e),
                    },
                    LazyNode::Done(res0) => *res0,
                };
                self.typeval.insert(id, LazyNode::Done(res));
                proof {
                    lemma_fact_memoized(old(self).typeval@, id);
                }
                res
            },
            None => Err(Error::Internal(InternalError::MissingFact(id))),
        }
    }

    /// Demands a node's evaluated constant, resolving and memoizing it on
    /// first demand.
    pub fn demand_const(&mut self, id: u64) -> (r: Result<Const, Error>)
        ensures
            r == table_fact(old(self).konst@, id),
            old(self).konst@.contains_key(id) ==> final(self).konst@ == old(self).konst@.insert(
                id,
                LazyNode::Done(table_fact(old(self).konst@, id)),
            ),
            !old(self).konst@.contains_key(id) ==> final(self).konst@ == old(self).konst@,
            facts_equal(old(self).konst@, final(self).konst@),
            final(self).hir@ == old(self).hir@,
            final(self).typeck@ == old(self).typeck@,
            final(self).typeval@ == old(self).typeval@,
    {
        match self.konst.get(&id) {
            Some(node) => {
                let res: Result<Const, Error> = match node {
                    LazyNode::Pending(rec) => match rec {
                        Recipe::Produce(v) => Ok(*v),
                        Recipe::Fail(e) => Err(*e),
                    },
                    LazyNode::Done(res0) => *res0,
                };
                self.konst.insert(id, LazyNode::Done(res));
                proof {
                    lemma_fact_memoized(old(self).konst@, id);
                }
                res
            },
            None => Err(Error::Internal(InternalError::MissingFact(id))),
        }
    }
}

} // verus!
