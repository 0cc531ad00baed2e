//! The lowering engine: maps semantic types and constants to IR types and
//! operands, and lowers declarations and concurrent statements into a
//! container's instruction sequence.
//!
//! Every mapping function is specified against the facts held by the
//! scheduler tables at the time of the call. Demands only resolve pending
//! facts, never change them, so the facts named in the contracts are stable
//! across the whole lowering of a container.

use crate::diag::{ConstKind, ConstructKind, Error, InternalError};
use crate::hir::{HirNode, TypeData};
use crate::ir::{
    insts_view, lemma_insts_view_push, lemma_proc_names_push, opt_name_view, proc_names, Entity,
    Inst, InstKind, InstKindView, InstPosition, InstView, IrType, IrValue, Module, Process,
};
use vstd::string::StringExecFns;
use crate::konst::Const;
use crate::lazy::{facts_equal, table_fact, LazyNode, LazyTables};
use crate::ty::{range_diff, Dir, Ty};
use std::collections::HashMap;
use vstd::arithmetic::power2::{lemma2_to64, lemma2_to64_rest, lemma_pow2_unfold, pow2};
use vstd::prelude::*;

verus! {

broadcast use vstd::std_specs::hash::group_hash_axioms;

/// The number of bits needed to hold the magnitude `n`: zero for zero, else
/// the position of the highest set bit plus one. The width is the same for
/// the same magnitude, and never decreases as the magnitude grows.
pub open spec fn bit_width(n: nat) -> nat
    decreases n,
{
    if n == 0 {
        0
    } else {
        1 + bit_width(n / 2)
    }
}

/// A magnitude below `pow2(k)` needs at most `k` bits.
pub proof fn lemma_bit_width_le(n: nat, k: nat)
    requires
        n < pow2(k),
    ensures
        bit_width(n) <= k,
    decreases n,
{
    if n > 0 {
        if k == 0 {
            lemma2_to64();
        } else {
            lemma_pow2_unfold(k);
            assert(n / 2 < pow2((k - 1) as nat)) by (nonlinear_arith)
                requires
                    n < 2 * pow2((k - 1) as nat),
            ;
            lemma_bit_width_le(n / 2, (k - 1) as nat);
        }
    }
}

/// The width never decreases as the magnitude grows.
pub proof fn lemma_bit_width_monotone(a: nat, b: nat)
    requires
        a <= b,
    ensures
        bit_width(a) <= bit_width(b),
    decreases b,
{
    if a > 0 {
        lemma_bit_width_monotone(a / 2, b / 2);
    }
}

/// The IR type of an integer range: the empty type when the range is null,
/// else an integer type wide enough for the magnitude of the bound
/// difference.
pub open spec fn map_int_ty(dir: Dir, left_bound: int, right_bound: int) -> IrType {
    let d = range_diff(dir, left_bound, right_bound);
    if d < 0 {
        IrType::Void
    } else {
        IrType::Int { width: bit_width(d as nat) as usize }
    }
}

/// The literal count of the enum declared at `decl`, read from the lowered
/// form registered for it; a declaration that is not an enum declaration is
/// an internal-consistency error.
pub open spec fn enum_size_fact(
    hirs: Map<u64, LazyNode<HirNode>>,
    decl: u64,
) -> Result<usize, Error> {
    match table_fact(hirs, decl) {
        Ok(h) => match h {
            HirNode::TypeDecl { data: Some(TypeData::Enum { num_lits }) } => Ok(num_lits),
            _ => Err(Error::Internal(InternalError::NotAnEnumDecl(decl))),
        },
        Err(e) => Err(e),
    }
}

/// The concrete type behind `ty` after following aliases, spending at most
/// `fuel` alias steps. One step per registered type fact resolves every
/// alias chain that is not cyclic.
pub open spec fn deref_fact(tys: Map<u64, LazyNode<Ty>>, ty: Ty, fuel: nat) -> Result<Ty, Error>
    decreases fuel,
{
    match ty {
        Ty::Named { decl } => {
            if fuel == 0 {
                Err(Error::Internal(InternalError::UnresolvedAlias(decl)))
            } else {
                match table_fact(tys, decl) {
                    Ok(t2) => deref_fact(tys, t2, (fuel - 1) as nat),
                    Err(e) => Err(e),
                }
            }
        },
        _ => Ok(ty),
    }
}

/// Alias resolution reads only facts: table states that hold the same facts
/// resolve every type alike.
pub proof fn lemma_deref_fact_congruent(
    m1: Map<u64, LazyNode<Ty>>,
    m2: Map<u64, LazyNode<Ty>>,
    ty: Ty,
    fuel: nat,
)
    requires
        facts_equal(m1, m2),
    ensures
        deref_fact(m1, ty, fuel) == deref_fact(m2, ty, fuel),
    decreases fuel,
{
    match ty {
        Ty::Named { decl } => {
            if fuel > 0 {
                assert(table_fact(m1, decl) == table_fact(m2, decl));
                match table_fact(m1, decl) {
                    Ok(t2) => lemma_deref_fact_congruent(m1, m2, t2, (fuel - 1) as nat),
                    Err(_) => {},
                }
            }
        },
        _ => {},
    }
}

/// The IR type of a semantic type, as determined by the facts in the given
/// tables: aliases are followed first; the null type maps to the empty
/// type; an integer range maps by `map_int_ty`; an enum maps to an
/// enumerated type of its literal count; an unbounded integer reaching this
/// point is an upstream contract breach.
pub open spec fn map_type_fact(
    hirs: Map<u64, LazyNode<HirNode>>,
    tys: Map<u64, LazyNode<Ty>>,
    ty: Ty,
) -> Result<IrType, Error> {
    match deref_fact(tys, ty, tys.len()) {
        Ok(t) => match t {
            Ty::Null => Ok(IrType::Void),
            Ty::Int { dir, left_bound, right_bound } => Ok(
                map_int_ty(dir, left_bound as int, right_bound as int),
            ),
            Ty::Enum { decl } => match enum_size_fact(hirs, decl) {
                Ok(n) => Ok(IrType::Enum { cardinality: n }),
                Err(e) => Err(e),
            },
            Ty::UnboundedInt => Err(Error::Internal(InternalError::UnboundedIntType)),
            Ty::Named { decl } => Err(Error::Internal(InternalError::UnresolvedAlias(decl))),
        },
        Err(e) => Err(e),
    }
}

/// Type mapping reads only facts.
pub proof fn lemma_map_type_fact_congruent(
    h1: Map<u64, LazyNode<HirNode>>,
    h2: Map<u64, LazyNode<HirNode>>,
    t1: Map<u64, LazyNode<Ty>>,
    t2: Map<u64, LazyNode<Ty>>,
    ty: Ty,
)
    requires
        facts_equal(h1, h2),
        facts_equal(t1, t2),
    ensures
        map_type_fact(h1, t1, ty) == map_type_fact(h2, t2, ty),
{
    assert(t1.dom() =~= t2.dom());
    assert(t1.len() == t2.len());
    lemma_deref_fact_congruent(t1, t2, ty, t1.len());
    match deref_fact(t1, ty, t1.len()) {
        Ok(t) => match t {
            Ty::Enum { decl } => {
                assert(table_fact(h1, decl) == table_fact(h2, decl));
            },
            _ => {},
        },
        Err(_) => {},
    }
}

/// The IR operand of a semantic constant, as determined by the facts in the
/// given tables. `ty` is the constant's declared type: the width of an
/// integer literal is the width that type mapping gives that type, so that
/// a constant and its type always agree on width. The null constant maps to
/// the zero-sized placeholder literal; an enum literal maps to an integer
/// literal of its index, as wide as the enum's cardinality; floats and
/// ranges have no IR representation and are reported as unsupported.
pub open spec fn map_const_fact(
    hirs: Map<u64, LazyNode<HirNode>>,
    tys: Map<u64, LazyNode<Ty>>,
    k: Const,
    ty: Ty,
) -> Result<IrValue, Error> {
    match k {
        Const::Null => Ok(IrValue::ConstInt { width: 0, value: 0 }),
        Const::Int { value } => match map_type_fact(hirs, tys, ty) {
            Ok(IrType::Int { width }) => Ok(IrValue::ConstInt { width, value: value as i128 }),
            Ok(_) => Err(Error::Internal(InternalError::IntConstWithoutIntType)),
            Err(e) => Err(e),
        },
        Const::Enum { decl, index } => match enum_size_fact(hirs, decl) {
            Ok(n) => if index < n {
                Ok(IrValue::ConstInt { width: n, value: index as i128 })
            } else {
                Err(Error::Internal(InternalError::EnumIndexOutOfRange(decl)))
            },
            Err(e) => Err(e),
        },
        Const::Float => Err(Error::UnsupportedConstant(ConstKind::Float)),
        Const::IntRange => Err(Error::UnsupportedConstant(ConstKind::IntRange)),
        Const::FloatRange => Err(Error::UnsupportedConstant(ConstKind::FloatRange)),
    }
}

/// Constant mapping reads only facts.
pub proof fn lemma_map_const_fact_congruent(
    h1: Map<u64, LazyNode<HirNode>>,
    h2: Map<u64, LazyNode<HirNode>>,
    t1: Map<u64, LazyNode<Ty>>,
    t2: Map<u64, LazyNode<Ty>>,
    k: Const,
    ty: Ty,
)
    requires
        facts_equal(h1, h2),
        facts_equal(t1, t2),
    ensures
        map_const_fact(h1, t1, k, ty) == map_const_fact(h2, t2, k, ty),
{
    lemma_map_type_fact_congruent(h1, h2, t1, t2, ty);
    match k {
        Const::Enum { decl, index } => {
            assert(table_fact(h1, decl) == table_fact(h2, decl));
        },
        _ => {},
    }
}

/// The default value of a type, synthesized when a signal has no
/// initializer: the lowest value of an integer range (the left bound of an
/// ascending range, the right bound of a descending one), the first literal
/// of an enum, and the null value for the null type.
pub open spec fn default_value_fact(tys: Map<u64, LazyNode<Ty>>, ty: Ty) -> Result<Const, Error> {
    match deref_fact(tys, ty, tys.len()) {
        Ok(t) => match t {
            Ty::Null => Ok(Const::Null),
            Ty::Int { dir, left_bound, right_bound } => Ok(
                Const::Int {
                    value: match dir {
                        Dir::To => left_bound,
                        Dir::Downto => right_bound,
                    },
                },
            ),
            Ty::Enum { decl } => Ok(Const::Enum { decl, index: 0 }),
            Ty::UnboundedInt => Err(Error::Internal(InternalError::UnboundedIntType)),
            Ty::Named { decl } => Err(Error::Internal(InternalError::UnresolvedAlias(decl))),
        },
        Err(e) => Err(e),
    }
}

/// Default values read only facts.
pub proof fn lemma_default_value_fact_congruent(
    t1: Map<u64, LazyNode<Ty>>,
    t2: Map<u64, LazyNode<Ty>>,
    ty: Ty,
)
    requires
        facts_equal(t1, t2),
    ensures
        default_value_fact(t1, ty) == default_value_fact(t2, ty),
{
    assert(t1.dom() =~= t2.dom());
    assert(t1.len() == t2.len());
    lemma_deref_fact_congruent(t1, t2, ty, t1.len());
}

/// The memoized outcome of lowering one declaration or statement: either
/// its computation is still running (so a demand for it from within itself
/// is a cyclic dependency), or it finished with the recorded outcome.
#[derive(Debug)]
pub enum LowerState {
    InProgress,
    Done(Result<(), Error>),
}

/// The lowering context of one compilation unit: the fact tables, the
/// module-wide process store, and the memo of already-lowered elements.
pub struct ScoreContext {
    pub lazy: LazyTables,
    pub llmod: Module,
    pub lowered: HashMap<u64, LowerState>,
}

/// Two context states that hold the same scheduler facts for every
/// identifier and every fact kind.
pub open spec fn facts_preserved(pre: ScoreContext, post: ScoreContext) -> bool {
    &&& facts_equal(pre.lazy.hir@, post.lazy.hir@)
    &&& facts_equal(pre.lazy.typeck@, post.lazy.typeck@)
    &&& facts_equal(pre.lazy.typeval@, post.lazy.typeval@)
    &&& facts_equal(pre.lazy.konst@, post.lazy.konst@)
}

impl ScoreContext {
    /// A fresh context with no facts, no processes and nothing lowered.
    pub fn new() -> (ctx: ScoreContext)
        ensures
            ctx.lazy.hir@ =~= Map::<u64, LazyNode<HirNode>>::empty(),
            ctx.lazy.typeck@ =~= Map::<u64, LazyNode<()>>::empty(),
            ctx.lazy.typeval@ =~= Map::<u64, LazyNode<Ty>>::empty(),
            ctx.lazy.konst@ =~= Map::<u64, LazyNode<Const>>::empty(),
            ctx.llmod.procs@ =~= Seq::<Process>::empty(),
            ctx.lowered@ =~= Map::<u64, LowerState>::empty(),
    {
        ScoreContext { lazy: LazyTables::new(), llmod: Module::new(), lowered: HashMap::new() }
    }

    /// Follows type aliases until a concrete type remains, demanding the
    /// evaluated type of each alias target in turn. Spending one step per
    /// registered type fact resolves every chain that is not cyclic; a
    /// chain still unresolved after that is reported against the alias it
    /// stopped at.
    pub fn deref_named_type(&mut self, ty: &Ty) -> (r: Result<Ty, Error>)
        ensures
            r == deref_fact(old(self).lazy.typeval@, *ty, old(self).lazy.typeval@.len()),
            facts_preserved(*old(self), *final(self)),
            final(self).lazy.hir@ == old(self).lazy.hir@,
            final(self).lazy.typeck@ == old(self).lazy.typeck@,
            final(self).lazy.konst@ == old(self).lazy.konst@,
            final(self).llmod == old(self).llmod,
            final(self).lowered@ == old(self).lowered@,
    {
        let ghost tys0 = self.lazy.typeval@;
        let mut cur: Ty = *ty;
        let mut fuel: usize = self.lazy.typeval.len();
        loop
            invariant
                facts_equal(tys0, self.lazy.typeval@),
                deref_fact(tys0, *ty, tys0.len()) == deref_fact(
                    self.lazy.typeval@,
                    cur,
                    fuel as nat,
                ),
                self.lazy.hir@ == old(self).lazy.hir@,
                self.lazy.typeck@ == old(self).lazy.typeck@,
                self.lazy.konst@ == old(self).lazy.konst@,
                self.llmod == old(self).llmod,
                self.lowered@ == old(self).lowered@,
                tys0 == old(self).lazy.typeval@,
            decreases fuel,
        {
            match cur {
                Ty::Named { decl } => {
                    if fuel == 0 {
                        return Err(Error::Internal(InternalError::UnresolvedAlias(decl)));
                    }
                    let ghost before = self.lazy.typeval@;
                    match self.lazy.demand_typeval(decl) {
                        Ok(t2) => {
                            proof {
                                lemma_deref_fact_congruent(
                                    before,
                                    self.lazy.typeval@,
                                    t2,
                                    (fuel - 1) as nat,
                                );
                                lemma_facts_equal_trans(tys0, before, self.lazy.typeval@);
                            }
                            cur = t2;
                            fuel = fuel - 1;
                        },
                        Err(e) => {
                            proof {
                                lemma_facts_equal_trans(tys0, before, self.lazy.typeval@);
                            }
                            return Err(e);
                        },
                    }
                },
                _ => {
                    return Ok(cur);
                },
            }
        }
    }
    /// Maps a semantic type to the corresponding IR type.
    pub fn map_type(&mut self, ty: &Ty) -> (r: Result<IrType, Error>)
        ensures
            r == map_type_fact(old(self).lazy.hir@, old(self).lazy.typeval@, *ty),
            facts_preserved(*old(self), *final(self)),
            final(self).lazy.typeck@ == old(self).lazy.typeck@,
            final(self).lazy.konst@ == old(self).lazy.konst@,
            final(self).llmod == old(self).llmod,
            final(self).lowered@ == old(self).lowered@,
    {
        let t = match self.deref_named_type(ty) {
            Ok(t) => t,
            Err(e) => {
                return Err(e);
            },
        };
        match t {
            Ty::Null => Ok(IrType::Void),
            Ty::Int { dir, left_bound, right_bound } => {
                let l = left_bound as i128;
                let rb = right_bound as i128;
                let diff: i128 = match dir {
                    Dir::To => rb - l,
                    Dir::Downto => l - rb,
                };
                if diff < 0 {
                    Ok(IrType::Void)
                } else {
                    assert(diff <= 0xFFFF_FFFF_FFFF_FFFFi128);
                    let mag: u64 = diff as u64;
                    let width = width_of_u64(mag);
                    Ok(IrType::Int { width })
                }
            },
            Ty::Enum { decl } => match self.lazy.demand_hir(decl) {
                Ok(h) => match h {
                    HirNode::TypeDecl { data: Some(TypeData::Enum { num_lits }) } => Ok(
                        IrType::Enum { cardinality: num_lits },
                    ),
                    _ => Err(Error::Internal(InternalError::NotAnEnumDecl(decl))),
                },
                Err(e) => Err(e),
            },
            Ty::UnboundedInt => Err(Error::Internal(InternalError::UnboundedIntType)),
            Ty::Named { decl } => Err(Error::Internal(InternalError::UnresolvedAlias(decl))),
        }
    }

    /// Maps a semantic constant to its IR literal operand. `ty` is the
    /// constant's declared type: the width of an integer literal is derived
    /// from it, so that a constant always agrees on width with its type.
    pub fn map_const(&mut self, konst: &Const, ty: &Ty) -> (r: Result<IrValue, Error>)
        ensures
            r == map_const_fact(old(self).lazy.hir@, old(self).lazy.typeval@, *konst, *ty),
            facts_preserved(*old(self), *final(self)),
            final(self).lazy.typeck@ == old(self).lazy.typeck@,
            final(self).lazy.konst@ == old(self).lazy.konst@,
            final(self).llmod == old(self).llmod,
            final(self).lowered@ == old(self).lowered@,
    {
        match *konst {
            Const::Null => Ok(IrValue::ConstInt { width: 0, value: 0 }),
            Const::Int { value } => match self.map_type(ty) {
                Ok(IrType::Int { width }) => Ok(
                    IrValue::ConstInt { width, value: value as i128 },
                ),
                Ok(_) => Err(Error::Internal(InternalError::IntConstWithoutIntType)),
                Err(e) => Err(e),
            },
            Const::Enum { decl, index } => match self.lazy.demand_hir(decl) {
                Ok(h) => match h {
                    HirNode::TypeDecl { data: Some(TypeData::Enum { num_lits }) } => {
                        if index < num_lits {
                            Ok(IrValue::ConstInt { width: num_lits, value: index as i128 })
                        } else {
                            Err(Error::Internal(InternalError::EnumIndexOutOfRange(decl)))
                        }
                    },
                    _ => Err(Error::Internal(InternalError::NotAnEnumDecl(decl))),
                },
                Err(e) => Err(e),
            },
            Const::Float => Err(Error::UnsupportedConstant(ConstKind::Float)),
            Const::IntRange => Err(Error::UnsupportedConstant(ConstKind::IntRange)),
            Const::FloatRange => Err(Error::UnsupportedConstant(ConstKind::FloatRange)),
        }
    }

    /// Synthesizes the default value of a type, used for a signal without
    /// an initializer.
    pub fn default_value_for_type(&mut self, ty: &Ty) -> (r: Result<Const, Error>)
        ensures
            r == default_value_fact(old(self).lazy.typeval@, *ty),
            facts_preserved(*old(self), *final(self)),
            final(self).lazy.hir@ == old(self).lazy.hir@,
            final(self).lazy.typeck@ == old(self).lazy.typeck@,
            final(self).lazy.konst@ == old(self).lazy.konst@,
            final(self).llmod == old(self).llmod,
            final(self).lowered@ == old(self).lowered@,
    {
        let t = match self.deref_named_type(ty) {
            Ok(t) => t,
            Err(e) => {
                return Err(e);
            },
        };
        match t {
            Ty::Null => Ok(Const::Null),
            Ty::Int { dir, left_bound, right_bound } => Ok(
                Const::Int {
                    value: match dir {
                        Dir::To => left_bound,
                        Dir::Downto => right_bound,
                    },
                },
            ),
            Ty::Enum { decl } => Ok(Const::Enum { decl, index: 0 }),
            Ty::UnboundedInt => Err(Error::Internal(InternalError::UnboundedIntType)),
            Ty::Named { decl } => Err(Error::Internal(InternalError::UnresolvedAlias(decl))),
        }
    }
}

/// The number of bits needed for the magnitude `n`, computed by repeated
/// halving.
fn width_of_u64(n: u64) -> (w: usize)
    ensures
        w == bit_width(n as nat),
{
    proof {
        lemma2_to64();
        lemma2_to64_rest();
        lemma_bit_width_le(n as nat, 64);
    }
    let ghost n0 = n as nat;
    let mut m = n;
    let mut w: usize = 0;
    while m > 0
        invariant
            w + bit_width(m as nat) == bit_width(n0),
            bit_width(n0) <= 64,
        decreases m,
    {
        proof {
            assert(bit_width(m as nat) == 1 + bit_width((m / 2) as nat));
        }
        m = m / 2;
        w = w + 1;
    }
    w
}

/// A reference to one declaration inside a block or entity body, tagged
/// with its kind.
#[derive(Clone, Copy, PartialEq, Eq, Structural, Debug)]
pub enum DeclInBlockRef {
    Pkg(u64),
    PkgInst(u64),
    Type(u64),
    Subtype(u64),
    Const(u64),
    Signal(u64),
    SharedVar(u64),
    File(u64),
}

/// A reference to one concurrent statement, tagged with its kind.
#[derive(Clone, Copy, PartialEq, Eq, Structural, Debug)]
pub enum ConcStmtRef {
    Block(u64),
    Process(u64),
    ConcProcCall(u64),
    ConcAssert(u64),
    ConcSigAssign(u64),
    CompInst(u64),
    ForGen(u64),
    IfGen(u64),
    CaseGen(u64),
}

/// The signal instruction that lowering the signal declaration `id` emits,
/// as determined by the facts in the given tables: the registered lowered
/// form gives the name and the optional initializer; the registered type
/// fact gives the signal's type; the initial value is the evaluated
/// constant of the initializer when there is one, else the type's default
/// value; type and value are then mapped to their IR forms.
pub open spec fn signal_inst_fact(
    hirs: Map<u64, LazyNode<HirNode>>,
    tys: Map<u64, LazyNode<Ty>>,
    konsts: Map<u64, LazyNode<Const>>,
    id: u64,
) -> Result<Inst, Error> {
    match table_fact(hirs, id) {
        Ok(h) => match h {
            HirNode::SignalDecl { name, init } => match table_fact(tys, id) {
                Ok(sig_ty) => {
                    let init_res = match init {
                        Some(eid) => table_fact(konsts, eid),
                        None => default_value_fact(tys, sig_ty),
                    };
                    match init_res {
                        Ok(k) => match map_type_fact(hirs, tys, sig_ty) {
                            Ok(t) => match map_const_fact(hirs, tys, k, sig_ty) {
                                Ok(v) => Ok(
                                    Inst {
                                        name: Some(name),
                                        kind: InstKind::Signal { ty: t, init: v },
                                    },
                                ),
                                Err(e) => Err(e),
                            },
                            Err(e) => Err(e),
                        },
                        Err(e) => Err(e),
                    }
                },
                Err(e) => Err(e),
            },
            _ => Err(Error::Internal(InternalError::NotASignalDecl(id))),
        },
        Err(e) => Err(e),
    }
}

/// Signal lowering reads only facts.
pub proof fn lemma_signal_inst_fact_congruent(
    h1: Map<u64, LazyNode<HirNode>>,
    h2: Map<u64, LazyNode<HirNode>>,
    t1: Map<u64, LazyNode<Ty>>,
    t2: Map<u64, LazyNode<Ty>>,
    k1: Map<u64, LazyNode<Const>>,
    k2: Map<u64, LazyNode<Const>>,
    id: u64,
)
    requires
        facts_equal(h1, h2),
        facts_equal(t1, t2),
        facts_equal(k1, k2),
    ensures
        signal_inst_fact(h1, t1, k1, id) == signal_inst_fact(h2, t2, k2, id),
{
    assert(table_fact(h1, id) == table_fact(h2, id));
    match table_fact(h1, id) {
        Ok(h) => match h {
            HirNode::SignalDecl { name, init } => {
                assert(table_fact(t1, id) == table_fact(t2, id));
                match table_fact(t1, id) {
                    Ok(sig_ty) => {
                        match init {
                            Some(eid) => {
                                assert(table_fact(k1, eid) == table_fact(k2, eid));
                            },
                            None => {
                                lemma_default_value_fact_congruent(t1, t2, sig_ty);
                            },
                        }
                        lemma_map_type_fact_congruent(h1, h2, t1, t2, sig_ty);
                        let init_res = match init {
                            Some(eid) => table_fact(k1, eid),
                            None => default_value_fact(t1, sig_ty),
                        };
                        match init_res {
                            Ok(kv) => {
                                lemma_map_const_fact_congruent(h1, h2, t1, t2, kv, sig_ty);
                            },
                            Err(_) => {},
                        }
                    },
                    Err(_) => {},
                }
            },
            _ => {},
        },
        Err(_) => {},
    }
}

/// The label of the process statement `id`, read from its registered
/// lowered form.
pub open spec fn process_label_fact(
    hirs: Map<u64, LazyNode<HirNode>>,
    id: u64,
) -> Result<Option<String>, Error> {
    match table_fact(hirs, id) {
        Ok(h) => match h {
            HirNode::ProcessStmt { label } => Ok(label),
            _ => Err(Error::Internal(InternalError::NotAProcessStmt(id))),
        },
        Err(e) => Err(e),
    }
}

/// The name a process receives: the container's name joined with the
/// statement's label when it has one, else the container's name with the
/// `_proc` suffix.
pub open spec fn process_name_view(ent_name: Seq<char>, label: Option<String>) -> Seq<char> {
    match label {
        Some(l) => ent_name + "_"@ + l@,
        None => ent_name + "_proc"@,
    }
}

/// The mathematical shadow of everything lowering may change: the memo of
/// lowered elements, the names of the registered processes, and the
/// instructions of the container at hand. The scheduler facts are not part
/// of it: lowering never changes a fact.
#[verifier::ext_equal]
pub ghost struct LowerView {
    pub lowered: Map<u64, LowerState>,
    pub proc_names: Seq<Seq<char>>,
    pub insts: Seq<InstView>,
}

/// The shadow of a context and the container being lowered.
pub open spec fn lower_view(ctx: ScoreContext, ent: Entity) -> LowerView {
    LowerView {
        lowered: ctx.lowered@,
        proc_names: proc_names(ctx.llmod),
        insts: insts_view(ent.insts@),
    }
}

/// What lowering the signal declaration `id` does to the lowering state,
/// and its outcome. An element already lowered (or still being lowered) is
/// not lowered again: the memoized outcome is returned (a demand from
/// within the element's own computation reports a cyclic dependency), and
/// exactly one instruction exists however often the element is demanded.
pub open spec fn signal_step(
    hirs: Map<u64, LazyNode<HirNode>>,
    tys: Map<u64, LazyNode<Ty>>,
    konsts: Map<u64, LazyNode<Const>>,
    s: LowerView,
    id: u64,
) -> (LowerView, Result<(), Error>) {
    if s.lowered.contains_key(id) {
        let r = match s.lowered[id] {
            LowerState::Done(res) => res,
            LowerState::InProgress => Err(Error::Internal(InternalError::CyclicFact(id))),
        };
        (s, r)
    } else {
        match signal_inst_fact(hirs, tys, konsts, id) {
            Ok(inst) => (
                LowerView {
                    lowered: s.lowered.insert(id, LowerState::Done(Ok(()))),
                    proc_names: s.proc_names,
                    insts: s.insts.push(inst@),
                },
                Ok(()),
            ),
            Err(e) => (
                LowerView {
                    lowered: s.lowered.insert(id, LowerState::Done(Err(e))),
                    proc_names: s.proc_names,
                    insts: s.insts,
                },
                Err(e),
            ),
        }
    }
}

/// What lowering the process statement `id` inside a container named
/// `ent_name` does to the lowering state, and its outcome: a fresh process
/// is registered under the derived name, and an instantiation instruction
/// referencing it, named after the label when there is one, is appended
/// with empty actual-port lists.
pub open spec fn process_step(
    hirs: Map<u64, LazyNode<HirNode>>,
    s: LowerView,
    ent_name: Seq<char>,
    id: u64,
) -> (LowerView, Result<(), Error>) {
    if s.lowered.contains_key(id) {
        let r = match s.lowered[id] {
            LowerState::Done(res) => res,
            LowerState::InProgress => Err(Error::Internal(InternalError::CyclicFact(id))),
        };
        (s, r)
    } else {
        match process_label_fact(hirs, id) {
            Ok(label) => (
                LowerView {
                    lowered: s.lowered.insert(id, LowerState::Done(Ok(()))),
                    proc_names: s.proc_names.push(process_name_view(ent_name, label)),
                    insts: s.insts.push(
                        InstView {
                            name: opt_name_view(label),
                            kind: InstKindView::Instance {
                                unit: s.proc_names.len() as int,
                                inputs: Seq::<IrValue>::empty(),
                                outputs: Seq::<IrValue>::empty(),
                            },
                        },
                    ),
                },
                Ok(()),
            ),
            Err(e) => (
                LowerView {
                    lowered: s.lowered.insert(id, LowerState::Done(Err(e))),
                    proc_names: s.proc_names,
                    insts: s.insts,
                },
                Err(e),
            ),
        }
    }
}

/// What lowering one declaration does: packages, package instantiations,
/// types and subtypes are purely compile-time and emit nothing; constant,
/// shared-variable and file declarations are out of scope of this stage;
/// signals are lowered by `signal_step`.
pub open spec fn decl_step(
    hirs: Map<u64, LazyNode<HirNode>>,
    tys: Map<u64, LazyNode<Ty>>,
    konsts: Map<u64, LazyNode<Const>>,
    s: LowerView,
    d: DeclInBlockRef,
) -> (LowerView, Result<(), Error>) {
    match d {
        DeclInBlockRef::Pkg(_) => (s, Ok(())),
        DeclInBlockRef::PkgInst(_) => (s, Ok(())),
        DeclInBlockRef::Type(_) => (s, Ok(())),
        DeclInBlockRef::Subtype(_) => (s, Ok(())),
        DeclInBlockRef::Const(_) => (s, Err(Error::Unsupported(ConstructKind::ConstDecl))),
        DeclInBlockRef::Signal(id) => signal_step(hirs, tys, konsts, s, id),
        DeclInBlockRef::SharedVar(_) => (
            s,
            Err(Error::Unsupported(ConstructKind::SharedVarDecl)),
        ),
        DeclInBlockRef::File(_) => (s, Err(Error::Unsupported(ConstructKind::FileDecl))),
    }
}

/// What lowering one concurrent statement does: only processes are in
/// scope of this stage; every other kind is reported as unsupported, tagged
/// with its kind, and changes nothing.
pub open spec fn stmt_step(
    hirs: Map<u64, LazyNode<HirNode>>,
    s: LowerView,
    ent_name: Seq<char>,
    c: ConcStmtRef,
) -> (LowerView, Result<(), Error>) {
    match c {
        ConcStmtRef::Block(_) => (s, Err(Error::Unsupported(ConstructKind::BlockStmt))),
        ConcStmtRef::Process(id) => process_step(hirs, s, ent_name, id),
        ConcStmtRef::ConcProcCall(_) => (
            s,
            Err(Error::Unsupported(ConstructKind::ProcCallStmt)),
        ),
        ConcStmtRef::ConcAssert(_) => (s, Err(Error::Unsupported(ConstructKind::AssertStmt))),
        ConcStmtRef::ConcSigAssign(_) => (
            s,
            Err(Error::Unsupported(ConstructKind::SigAssignStmt)),
        ),
        ConcStmtRef::CompInst(_) => (s, Err(Error::Unsupported(ConstructKind::CompInstStmt))),
        ConcStmtRef::ForGen(_) => (s, Err(Error::Unsupported(ConstructKind::ForGenStmt))),
        ConcStmtRef::IfGen(_) => (s, Err(Error::Unsupported(ConstructKind::IfGenStmt))),
        ConcStmtRef::CaseGen(_) => (s, Err(Error::Unsupported(ConstructKind::CaseGenStmt))),
    }
}

impl ScoreContext {
    /// Lowers the signal declaration `id` into the container: appends one
    /// signal instruction, named after the declaration, with the mapped
    /// type and initial value. The outcome is memoized: lowering the same
    /// identifier again returns the recorded outcome and appends nothing.
    pub fn codegen_signal(&mut self, id: u64, ent: &mut Entity) -> (r: Result<(), Error>)
        ensures
            ({
                let step = signal_step(
                    old(self).lazy.hir@,
                    old(self).lazy.typeval@,
                    old(self).lazy.konst@,
                    lower_view(*old(self), *old(ent)),
                    id,
                );
                &&& r == step.1
                &&& lower_view(*final(self), *final(ent)) == step.0
            }),
            facts_preserved(*old(self), *final(self)),
            final(self).lazy.typeck@ == old(self).lazy.typeck@,
            final(ent).name == old(ent).name,
    {
        match self.lowered.get(&id) {
            Some(st) => {
                match st {
                    LowerState::Done(res) => *res,
                    LowerState::InProgress => Err(Error::Internal(InternalError::CyclicFact(id))),
                }
            },
            None => {
                self.lowered.insert(id, LowerState::InProgress);
                let res = self.codegen_signal_inner(id, ent);
                self.lowered.insert(id, LowerState::Done(res));
                proof {
                    assert(final(self).lowered@ =~= old(self).lowered@.insert(
                        id,
                        LowerState::Done(res),
                    ));
                    let step = signal_step(
                        old(self).lazy.hir@,
                        old(self).lazy.typeval@,
                        old(self).lazy.konst@,
                        lower_view(*old(self), *old(ent)),
                        id,
                    );
                    match signal_inst_fact(
                        old(self).lazy.hir@,
                        old(self).lazy.typeval@,
                        old(self).lazy.konst@,
                        id,
                    ) {
                        Ok(inst) => {
                            lemma_insts_view_push(old(ent).insts@, inst);
                            assert(lower_view(*final(self), *final(ent)) =~= step.0);
                        },
                        Err(_) => {
                            assert(lower_view(*final(self), *final(ent)) =~= step.0);
                        },
                    }
                }
                res
            },
        }
    }

    /// Lowers one signal declaration afresh; callers go through
    /// `codegen_signal`, which adds the memoization.
    fn codegen_signal_inner(&mut self, id: u64, ent: &mut Entity) -> (r: Result<(), Error>)
        ensures
            ({
                let inst_res = signal_inst_fact(
                    old(self).lazy.hir@,
                    old(self).lazy.typeval@,
                    old(self).lazy.konst@,
                    id,
                );
                match inst_res {
                    Ok(inst) => r == Ok::<(), Error>(()) && final(ent).insts@ == old(
                        ent,
                    ).insts@.push(inst) && final(ent).name == old(ent).name,
                    Err(e) => r == Err::<(), Error>(e) && *final(ent) == *old(ent),
                }
            }),
            facts_preserved(*old(self), *final(self)),
            final(self).lazy.typeck@ == old(self).lazy.typeck@,
            final(self).llmod == old(self).llmod,
            final(self).lowered@ == old(self).lowered@,
    {
        let ghost s0 = *self;
        let h = match self.lazy.demand_hir(id) {
            Ok(h) => h,
            Err(e) => {
                return Err(e);
            },
        };
        let (name, init) = match h {
            HirNode::SignalDecl { name, init } => (name, init),
            _ => {
                return Err(Error::Internal(InternalError::NotASignalDecl(id)));
            },
        };
        let ghost s1 = *self;
        let sig_ty = match self.lazy.demand_typeval(id) {
            Ok(t) => t,
            Err(e) => {
                return Err(e);
            },
        };
        let ghost s2 = *self;
        proof {
            lemma_facts_equal_trans(s0.lazy.hir@, s1.lazy.hir@, s2.lazy.hir@);
            lemma_facts_equal_trans(s0.lazy.typeval@, s1.lazy.typeval@, s2.lazy.typeval@);
            lemma_facts_equal_trans(s0.lazy.konst@, s1.lazy.konst@, s2.lazy.konst@);
        }
        let init_val = match init {
            Some(eid) => match self.lazy.demand_const(eid) {
                Ok(k) => k,
                Err(e) => {
                    proof {
                        lemma_facts_equal_trans(s0.lazy.konst@, s2.lazy.konst@, self.lazy.konst@);
                    }
                    return Err(e);
                },
            },
            None => match self.default_value_for_type(&sig_ty) {
                Ok(k) => {
                    proof {
                        lemma_default_value_fact_congruent(
                            s0.lazy.typeval@,
                            s2.lazy.typeval@,
                            sig_ty,
                        );
                    }
                    k
                },
                Err(e) => {
                    proof {
                        lemma_default_value_fact_congruent(
                            s0.lazy.typeval@,
                            s2.lazy.typeval@,
                            sig_ty,
                        );
                        lemma_facts_equal_trans(
                            s0.lazy.typeval@,
                            s2.lazy.typeval@,
                            self.lazy.typeval@,
                        );
                    }
                    return Err(e);
                },
            },
        };
        let ghost s3 = *self;
        proof {
            lemma_facts_equal_trans(s0.lazy.hir@, s2.lazy.hir@, s3.lazy.hir@);
            lemma_facts_equal_trans(s0.lazy.typeval@, s2.lazy.typeval@, s3.lazy.typeval@);
            lemma_facts_equal_trans(s0.lazy.konst@, s2.lazy.konst@, s3.lazy.konst@);
        }
        let t = match self.map_type(&sig_ty) {
            Ok(t) => {
                proof {
                    lemma_map_type_fact_congruent(
                        s0.lazy.hir@,
                        s3.lazy.hir@,
                        s0.lazy.typeval@,
                        s3.lazy.typeval@,
                        sig_ty,
                    );
                }
                t
            },
            Err(e) => {
                proof {
                    lemma_map_type_fact_congruent(
                        s0.lazy.hir@,
                        s3.lazy.hir@,
                        s0.lazy.typeval@,
                        s3.lazy.typeval@,
                        sig_ty,
                    );
                    lemma_facts_equal_trans(s0.lazy.hir@, s3.lazy.hir@, self.lazy.hir@);
                    lemma_facts_equal_trans(s0.lazy.typeval@, s3.lazy.typeval@, self.lazy.typeval@);
                    lemma_facts_equal_trans(s0.lazy.konst@, s3.lazy.konst@, self.lazy.konst@);
                }
                return Err(e);
            },
        };
        let ghost s4 = *self;
        proof {
            lemma_facts_equal_trans(s0.lazy.hir@, s3.lazy.hir@, s4.lazy.hir@);
            lemma_facts_equal_trans(s0.lazy.typeval@, s3.lazy.typeval@, s4.lazy.typeval@);
            lemma_facts_equal_trans(s0.lazy.konst@, s3.lazy.konst@, s4.lazy.konst@);
        }
        let v = match self.map_const(&init_val, &sig_ty) {
            Ok(v) => {
                proof {
                    lemma_map_const_fact_congruent(
                        s0.lazy.hir@,
                        s4.lazy.hir@,
                        s0.lazy.typeval@,
                        s4.lazy.typeval@,
                        init_val,
                        sig_ty,
                    );
                    lemma_facts_equal_trans(s0.lazy.hir@, s4.lazy.hir@, self.lazy.hir@);
                    lemma_facts_equal_trans(s0.lazy.typeval@, s4.lazy.typeval@, self.lazy.typeval@);
                    lemma_facts_equal_trans(s0.lazy.konst@, s4.lazy.konst@, self.lazy.konst@);
                }
                v
            },
            Err(e) => {
                proof {
                    lemma_map_const_fact_congruent(
                        s0.lazy.hir@,
                        s4.lazy.hir@,
                        s0.lazy.typeval@,
                        s4.lazy.typeval@,
                        init_val,
                        sig_ty,
                    );
                    lemma_facts_equal_trans(s0.lazy.hir@, s4.lazy.hir@, self.lazy.hir@);
                    lemma_facts_equal_trans(s0.lazy.typeval@, s4.lazy.typeval@, self.lazy.typeval@);
                    lemma_facts_equal_trans(s0.lazy.konst@, s4.lazy.konst@, self.lazy.konst@);
                }
                return Err(e);
            },
        };
        let inst = Inst { name: Some(name), kind: InstKind::Signal { ty: t, init: v } };
        ent.add_inst(inst, InstPosition::End);
        Ok(())
    }

    /// Lowers the process statement `id` into the container: registers a
    /// fresh process, named after the container and the statement's label,
    /// in the module-wide store, and appends an instantiation instruction
    /// referencing it with empty actual-port lists. The outcome is
    /// memoized like a signal's.
    pub fn codegen_process(&mut self, id: u64, ent: &mut Entity) -> (r: Result<(), Error>)
        ensures
            ({
                let step = process_step(
                    old(self).lazy.hir@,
                    lower_view(*old(self), *old(ent)),
                    old(ent).name@,
                    id,
                );
                &&& r == step.1
                &&& lower_view(*final(self), *final(ent)) == step.0
            }),
            facts_preserved(*old(self), *final(self)),
            final(self).lazy.typeck@ == old(self).lazy.typeck@,
            final(self).lazy.typeval@ == old(self).lazy.typeval@,
            final(self).lazy.konst@ == old(self).lazy.konst@,
            final(ent).name == old(ent).name,
    {
        match self.lowered.get(&id) {
            Some(st) => {
                match st {
                    LowerState::Done(res) => *res,
                    LowerState::InProgress => Err(Error::Internal(InternalError::CyclicFact(id))),
                }
            },
            None => {
                self.lowered.insert(id, LowerState::InProgress);
                let res = self.codegen_process_inner(id, ent);
                self.lowered.insert(id, LowerState::Done(res));
                proof {
                    assert(final(self).lowered@ =~= old(self).lowered@.insert(
                        id,
                        LowerState::Done(res),
                    ));
                    let step = process_step(
                        old(self).lazy.hir@,
                        lower_view(*old(self), *old(ent)),
                        old(ent).name@,
                        id,
                    );
                    assert(lower_view(*final(self), *final(ent)) =~= step.0);
                }
                res
            },
        }
    }

    /// Lowers one process statement afresh; callers go through
    /// `codegen_process`, which adds the memoization.
    fn codegen_process_inner(&mut self, id: u64, ent: &mut Entity) -> (r: Result<(), Error>)
        ensures
            ({
                let lab_res = process_label_fact(old(self).lazy.hir@, id);
                match lab_res {
                    Ok(label) => {
                        &&& r == Ok::<(), Error>(())
                        &&& proc_names(final(self).llmod) == proc_names(old(self).llmod).push(
                            process_name_view(old(ent).name@, label),
                        )
                        &&& insts_view(final(ent).insts@) == insts_view(old(ent).insts@).push(
                            InstView {
                                name: opt_name_view(label),
                                kind: InstKindView::Instance {
                                    unit: old(self).llmod.procs@.len() as int,
                                    inputs: Seq::<IrValue>::empty(),
                                    outputs: Seq::<IrValue>::empty(),
                                },
                            },
                        )
                        &&& final(ent).name == old(ent).name
                    },
                    Err(e) => {
                        &&& r == Err::<(), Error>(e)
                        &&& *final(ent) == *old(ent)
                        &&& final(self).llmod == old(self).llmod
                    },
                }
            }),
            facts_preserved(*old(self), *final(self)),
            final(self).lazy.typeck@ == old(self).lazy.typeck@,
            final(self).lazy.typeval@ == old(self).lazy.typeval@,
            final(self).lazy.konst@ == old(self).lazy.konst@,
            final(self).lowered@ == old(self).lowered@,
    {
        let h = match self.lazy.demand_hir(id) {
            Ok(h) => h,
            Err(e) => {
                return Err(e);
            },
        };
        let label = match h {
            HirNode::ProcessStmt { label } => label,
            _ => {
                return Err(Error::Internal(InternalError::NotAProcessStmt(id)));
            },
        };
        let name: String = match &label {
            Some(l) => {
                let mut n = ent.name.clone();
                n.append("_");
                n.append(l.as_str());
                n
            },
            None => {
                let mut n = ent.name.clone();
                n.append("_proc");
                n
            },
        };
        let prok = Process { name };
        let ghost prok0 = prok;
        let ghost m0 = self.llmod;
        let handle = self.llmod.add_process(prok);
        let inst = Inst {
            name: label,
            kind: InstKind::Instance { unit: handle, inputs: Vec::new(), outputs: Vec::new() },
        };
        let ghost inst0 = inst;
        ent.add_inst(inst, InstPosition::End);
        proof {
            lemma_proc_names_push(m0, self.llmod, prok0);
            lemma_insts_view_push(old(ent).insts@, inst0);
        }
        Ok(())
    }

    /// Lowers one declaration inside the container, dispatching on its
    /// kind.
    pub fn codegen_decl(&mut self, id: DeclInBlockRef, ent: &mut Entity) -> (r: Result<(), Error>)
        ensures
            ({
                let step = decl_step(
                    old(self).lazy.hir@,
                    old(self).lazy.typeval@,
                    old(self).lazy.konst@,
                    lower_view(*old(self), *old(ent)),
                    id,
                );
                &&& r == step.1
                &&& lower_view(*final(self), *final(ent)) == step.0
            }),
            facts_preserved(*old(self), *final(self)),
            final(self).lazy.typeck@ == old(self).lazy.typeck@,
            final(ent).name == old(ent).name,
    {
        match id {
            DeclInBlockRef::Pkg(_) => Ok(()),
            DeclInBlockRef::PkgInst(_) => Ok(()),
            DeclInBlockRef::Type(_) => Ok(()),
            DeclInBlockRef::Subtype(_) => Ok(()),
            DeclInBlockRef::Const(_) => Err(Error::Unsupported(ConstructKind::ConstDecl)),
            DeclInBlockRef::Signal(sid) => self.codegen_signal(sid, ent),
            DeclInBlockRef::SharedVar(_) => Err(Error::Unsupported(ConstructKind::SharedVarDecl)),
            DeclInBlockRef::File(_) => Err(Error::Unsupported(ConstructKind::FileDecl)),
        }
    }

    /// Lowers one concurrent statement inside the container, dispatching on
    /// its kind.
    pub fn codegen_stmt(&mut self, id: ConcStmtRef, ent: &mut Entity) -> (r: Result<(), Error>)
        ensures
            ({
                let step = stmt_step(
                    old(self).lazy.hir@,
                    lower_view(*old(self), *old(ent)),
                    old(ent).name@,
                    id,
                );
                &&& r == step.1
                &&& lower_view(*final(self), *final(ent)) == step.0
            }),
            facts_preserved(*old(self), *final(self)),
            final(self).lazy.typeck@ == old(self).lazy.typeck@,
            final(self).lazy.typeval@ == old(self).lazy.typeval@,
            final(self).lazy.konst@ == old(self).lazy.konst@,
            final(ent).name == old(ent).name,
    {
        match id {
            ConcStmtRef::Block(_) => Err(Error::Unsupported(ConstructKind::BlockStmt)),
            ConcStmtRef::Process(sid) => self.codegen_process(sid, ent),
            ConcStmtRef::ConcProcCall(_) => Err(Error::Unsupported(ConstructKind::ProcCallStmt)),
            ConcStmtRef::ConcAssert(_) => Err(Error::Unsupported(ConstructKind::AssertStmt)),
            ConcStmtRef::ConcSigAssign(_) => Err(Error::Unsupported(ConstructKind::SigAssignStmt)),
            ConcStmtRef::CompInst(_) => Err(Error::Unsupported(ConstructKind::CompInstStmt)),
            ConcStmtRef::ForGen(_) => Err(Error::Unsupported(ConstructKind::ForGenStmt)),
            ConcStmtRef::IfGen(_) => Err(Error::Unsupported(ConstructKind::IfGenStmt)),
            ConcStmtRef::CaseGen(_) => Err(Error::Unsupported(ConstructKind::CaseGenStmt)),
        }
    }
}

/// Lowering a signal reads only facts besides the lowering state.
pub proof fn lemma_signal_step_congruent(
    h1: Map<u64, LazyNode<HirNode>>,
    h2: Map<u64, LazyNode<HirNode>>,
    t1: Map<u64, LazyNode<Ty>>,
    t2: Map<u64, LazyNode<Ty>>,
    k1: Map<u64, LazyNode<Const>>,
    k2: Map<u64, LazyNode<Const>>,
    s: LowerView,
    id: u64,
)
    requires
        facts_equal(h1, h2),
        facts_equal(t1, t2),
        facts_equal(k1, k2),
    ensures
        signal_step(h1, t1, k1, s, id) == signal_step(h2, t2, k2, s, id),
{
    if !s.lowered.contains_key(id) {
        lemma_signal_inst_fact_congruent(h1, h2, t1, t2, k1, k2, id);
    }
}

/// Lowering a process reads only facts besides the lowering state.
pub proof fn lemma_process_step_congruent(
    h1: Map<u64, LazyNode<HirNode>>,
    h2: Map<u64, LazyNode<HirNode>>,
    s: LowerView,
    ent_name: Seq<char>,
    id: u64,
)
    requires
        facts_equal(h1, h2),
    ensures
        process_step(h1, s, ent_name, id) == process_step(h2, s, ent_name, id),
{
    assert(table_fact(h1, id) == table_fact(h2, id));
}

/// Lowering a declaration reads only facts besides the lowering state.
pub proof fn lemma_decl_step_congruent(
    h1: Map<u64, LazyNode<HirNode>>,
    h2: Map<u64, LazyNode<HirNode>>,
    t1: Map<u64, LazyNode<Ty>>,
    t2: Map<u64, LazyNode<Ty>>,
    k1: Map<u64, LazyNode<Const>>,
    k2: Map<u64, LazyNode<Const>>,
    s: LowerView,
    d: DeclInBlockRef,
)
    requires
        facts_equal(h1, h2),
        facts_equal(t1, t2),
        facts_equal(k1, k2),
    ensures
        decl_step(h1, t1, k1, s, d) == decl_step(h2, t2, k2, s, d),
{
    match d {
        DeclInBlockRef::Signal(id) => {
            lemma_signal_step_congruent(h1, h2, t1, t2, k1, k2, s, id);
        },
        _ => {},
    }
}

/// Lowering a concurrent statement reads only facts besides the lowering
/// state.
pub proof fn lemma_stmt_step_congruent(
    h1: Map<u64, LazyNode<HirNode>>,
    h2: Map<u64, LazyNode<HirNode>>,
    s: LowerView,
    ent_name: Seq<char>,
    c: ConcStmtRef,
)
    requires
        facts_equal(h1, h2),
    ensures
        stmt_step(h1, s, ent_name, c) == stmt_step(h2, s, ent_name, c),
{
    match c {
        ConcStmtRef::Process(id) => {
            lemma_process_step_congruent(h1, h2, s, ent_name, id);
        },
        _ => {},
    }
}

/// What lowering a container's declarations does, in source order: the
/// first failure aborts the remaining declarations and is the outcome;
/// what earlier declarations appended stays.
pub open spec fn run_decls(
    hirs: Map<u64, LazyNode<HirNode>>,
    tys: Map<u64, LazyNode<Ty>>,
    konsts: Map<u64, LazyNode<Const>>,
    s: LowerView,
    decls: Seq<DeclInBlockRef>,
) -> (LowerView, Result<(), Error>)
    decreases decls.len(),
{
    if decls.len() == 0 {
        (s, Ok(()))
    } else {
        let step = decl_step(hirs, tys, konsts, s, decls[0]);
        match step.1 {
            Ok(_) => run_decls(hirs, tys, konsts, step.0, decls.drop_first()),
            Err(_) => step,
        }
    }
}

/// What lowering a container's concurrent statements does, in source
/// order, with the same first-error-wins rule.
pub open spec fn run_stmts(
    hirs: Map<u64, LazyNode<HirNode>>,
    s: LowerView,
    ent_name: Seq<char>,
    stmts: Seq<ConcStmtRef>,
) -> (LowerView, Result<(), Error>)
    decreases stmts.len(),
{
    if stmts.len() == 0 {
        (s, Ok(()))
    } else {
        let step = stmt_step(hirs, s, ent_name, stmts[0]);
        match step.1 {
            Ok(_) => run_stmts(hirs, step.0, ent_name, stmts.drop_first()),
            Err(_) => step,
        }
    }
}

/// What lowering a whole container does: its declarations in source order,
/// then its concurrent statements in source order; the first failure wins
/// and aborts the rest.
pub open spec fn run_container(
    hirs: Map<u64, LazyNode<HirNode>>,
    tys: Map<u64, LazyNode<Ty>>,
    konsts: Map<u64, LazyNode<Const>>,
    s: LowerView,
    ent_name: Seq<char>,
    decls: Seq<DeclInBlockRef>,
    stmts: Seq<ConcStmtRef>,
) -> (LowerView, Result<(), Error>) {
    let d = run_decls(hirs, tys, konsts, s, decls);
    match d.1 {
        Ok(_) => run_stmts(hirs, d.0, ent_name, stmts),
        Err(_) => d,
    }
}

/// `post` keeps every instruction of `pre`, in place, and only appends.
pub open spec fn insts_extended(pre: Seq<InstView>, post: Seq<InstView>) -> bool {
    &&& pre.len() <= post.len()
    &&& forall|q: int| 0 <= q < pre.len() ==> post[q] == pre[q]
}

/// Keeping instructions in place is transitive.
pub proof fn lemma_insts_extended_trans(a: Seq<InstView>, b: Seq<InstView>, c: Seq<InstView>)
    requires
        insts_extended(a, b),
        insts_extended(b, c),
    ensures
        insts_extended(a, c),
{
    assert forall|q: int| 0 <= q < a.len() implies c[q] == a[q] by {
        assert(b[q] == a[q]);
        assert(c[q] == b[q]);
    }
}

/// Lowering declarations only appends instructions: whatever was in the
/// container before stays, whether the run succeeds or fails.
pub proof fn lemma_run_decls_extends(
    hirs: Map<u64, LazyNode<HirNode>>,
    tys: Map<u64, LazyNode<Ty>>,
    konsts: Map<u64, LazyNode<Const>>,
    s: LowerView,
    decls: Seq<DeclInBlockRef>,
)
    ensures
        insts_extended(s.insts, run_decls(hirs, tys, konsts, s, decls).0.insts),
    decreases decls.len(),
{
    if decls.len() > 0 {
        let step = decl_step(hirs, tys, konsts, s, decls[0]);
        assert(insts_extended(s.insts, step.0.insts));
        match step.1 {
            Ok(_) => {
                lemma_run_decls_extends(hirs, tys, konsts, step.0, decls.drop_first());
                lemma_insts_extended_trans(
                    s.insts,
                    step.0.insts,
                    run_decls(hirs, tys, konsts, step.0, decls.drop_first()).0.insts,
                );
            },
            Err(_) => {},
        }
    }
}

/// Lowering statements only appends instructions.
pub proof fn lemma_run_stmts_extends(
    hirs: Map<u64, LazyNode<HirNode>>,
    s: LowerView,
    ent_name: Seq<char>,
    stmts: Seq<ConcStmtRef>,
)
    ensures
        insts_extended(s.insts, run_stmts(hirs, s, ent_name, stmts).0.insts),
    decreases stmts.len(),
{
    if stmts.len() > 0 {
        let step = stmt_step(hirs, s, ent_name, stmts[0]);
        assert(insts_extended(s.insts, step.0.insts));
        match step.1 {
            Ok(_) => {
                lemma_run_stmts_extends(hirs, step.0, ent_name, stmts.drop_first());
                lemma_insts_extended_trans(
                    s.insts,
                    step.0.insts,
                    run_stmts(hirs, step.0, ent_name, stmts.drop_first()).0.insts,
                );
            },
            Err(_) => {},
        }
    }
}

/// Lowering a container only appends instructions: already-lowered earlier
/// siblings stay intact whatever happens later.
pub proof fn lemma_run_container_extends(
    hirs: Map<u64, LazyNode<HirNode>>,
    tys: Map<u64, LazyNode<Ty>>,
    konsts: Map<u64, LazyNode<Const>>,
    s: LowerView,
    ent_name: Seq<char>,
    decls: Seq<DeclInBlockRef>,
    stmts: Seq<ConcStmtRef>,
)
    ensures
        insts_extended(
            s.insts,
            run_container(hirs, tys, konsts, s, ent_name, decls, stmts).0.insts,
        ),
{
    lemma_run_decls_extends(hirs, tys, konsts, s, decls);
    let d = run_decls(hirs, tys, konsts, s, decls);
    match d.1 {
        Ok(_) => {
            lemma_run_stmts_extends(hirs, d.0, ent_name, stmts);
            lemma_insts_extended_trans(
                s.insts,
                d.0.insts,
                run_stmts(hirs, d.0, ent_name, stmts).0.insts,
            );
        },
        Err(_) => {},
    }
}

impl ScoreContext {
    /// The outer driver for one container: lowers its declarations in
    /// source order, then its concurrent statements in source order. The
    /// first failure aborts the remaining work of this container and is
    /// returned; instructions appended by earlier, successfully lowered
    /// siblings remain in place.
    pub fn codegen_container(
        &mut self,
        decls: &Vec<DeclInBlockRef>,
        stmts: &Vec<ConcStmtRef>,
        ent: &mut Entity,
    ) -> (r: Result<(), Error>)
        ensures
            ({
                let run = run_container(
                    old(self).lazy.hir@,
                    old(self).lazy.typeval@,
                    old(self).lazy.konst@,
                    lower_view(*old(self), *old(ent)),
                    old(ent).name@,
                    decls@,
                    stmts@,
                );
                &&& r == run.1
                &&& lower_view(*final(self), *final(ent)) == run.0
            }),
            insts_extended(insts_view(old(ent).insts@), insts_view(final(ent).insts@)),
            facts_preserved(*old(self), *final(self)),
            final(self).lazy.typeck@ == old(self).lazy.typeck@,
            final(ent).name == old(ent).name,
    {
        let ghost h0 = self.lazy.hir@;
        let ghost t0 = self.lazy.typeval@;
        let ghost k0 = self.lazy.konst@;
        let ghost s_init = lower_view(*self, *ent);
        let ghost name0 = ent.name@;
        proof {
            assert(decls@.skip(0) =~= decls@);
            lemma_run_container_extends(h0, t0, k0, s_init, name0, decls@, stmts@);
        }
        let mut i: usize = 0;
        while i < decls.len()
            invariant
                i <= decls@.len(),
                facts_preserved(*old(self), *self),
                self.lazy.typeck@ == old(self).lazy.typeck@,
                ent.name == old(ent).name,
                run_decls(h0, t0, k0, s_init, decls@) == run_decls(
                    h0,
                    t0,
                    k0,
                    lower_view(*self, *ent),
                    decls@.skip(i as int),
                ),
                h0 == old(self).lazy.hir@,
                t0 == old(self).lazy.typeval@,
                k0 == old(self).lazy.konst@,
                s_init == lower_view(*old(self), *old(ent)),
                name0 == old(ent).name@,
            decreases decls@.len() - i,
        {
            let d = decls[i];
            let ghost sp = *self;
            let ghost ep = *ent;
            let res = self.codegen_decl(d, ent);
            proof {
                lemma_facts_equal_trans(h0, sp.lazy.hir@, self.lazy.hir@);
                lemma_facts_equal_trans(t0, sp.lazy.typeval@, self.lazy.typeval@);
                lemma_facts_equal_trans(k0, sp.lazy.konst@, self.lazy.konst@);
                lemma_decl_step_congruent(
                    h0,
                    sp.lazy.hir@,
                    t0,
                    sp.lazy.typeval@,
                    k0,
                    sp.lazy.konst@,
                    lower_view(sp, ep),
                    d,
                );
                assert(decls@.skip(i as int)[0] == decls@[i as int]);
                assert(decls@.skip(i as int).drop_first() =~= decls@.skip(i as int + 1));
            }
            match res {
                Ok(_) => {
                    i = i + 1;
                },
                Err(e) => {
                    proof {
                        lemma_run_container_extends(h0, t0, k0, s_init, name0, decls@, stmts@);
                    }
                    return Err(e);
                },
            }
        }
        proof {
            assert(decls@.skip(decls@.len() as int) =~= Seq::<DeclInBlockRef>::empty());
            assert(stmts@.skip(0) =~= stmts@);
        }
        let mut j: usize = 0;
        while j < stmts.len()
            invariant
                j <= stmts@.len(),
                facts_preserved(*old(self), *self),
                self.lazy.typeck@ == old(self).lazy.typeck@,
                ent.name == old(ent).name,
                run_container(h0, t0, k0, s_init, name0, decls@, stmts@) == run_stmts(
                    h0,
                    lower_view(*self, *ent),
                    name0,
                    stmts@.skip(j as int),
                ),
                h0 == old(self).lazy.hir@,
                t0 == old(self).lazy.typeval@,
                k0 == old(self).lazy.konst@,
                s_init == lower_view(*old(self), *old(ent)),
                name0 == old(ent).name@,
            decreases stmts@.len() - j,
        {
            let c = stmts[j];
            let ghost sp = *self;
            let ghost ep = *ent;
            let res = self.codegen_stmt(c, ent);
            proof {
                lemma_facts_equal_trans(h0, sp.lazy.hir@, self.lazy.hir@);
                lemma_facts_equal_trans(t0, sp.lazy.typeval@, self.lazy.typeval@);
                lemma_facts_equal_trans(k0, sp.lazy.konst@, self.lazy.konst@);
                lemma_stmt_step_congruent(h0, sp.lazy.hir@, lower_view(sp, ep), name0, c);
                assert(stmts@.skip(j as int)[0] == stmts@[j as int]);
                assert(stmts@.skip(j as int).drop_first() =~= stmts@.skip(j as int + 1));
            }
            match res {
                Ok(_) => {
                    j = j + 1;
                },
                Err(e) => {
                    proof {
                        lemma_run_container_extends(h0, t0, k0, s_init, name0, decls@, stmts@);
                    }
                    return Err(e);
                },
            }
        }
        proof {
            assert(stmts@.skip(stmts@.len() as int) =~= Seq::<ConcStmtRef>::empty());
            lemma_run_container_extends(h0, t0, k0, s_init, name0, decls@, stmts@);
        }
        Ok(())
    }
}

/// Law: mapping an integer range depends on its bounds and direction
/// alone. Any two table states map it alike, so the same bounds always
/// yield the same IR type; a range whose difference is negative always
/// maps to the empty type; a range whose difference is not negative always
/// maps to the integer type of the width of that difference. Together with
/// `lemma_bit_width_monotone`, the width never decreases as the magnitude
/// of the difference grows.
pub proof fn lemma_int_type_mapping_deterministic(
    h1: Map<u64, LazyNode<HirNode>>,
    t1: Map<u64, LazyNode<Ty>>,
    h2: Map<u64, LazyNode<HirNode>>,
    t2: Map<u64, LazyNode<Ty>>,
    dir: Dir,
    left_bound: i64,
    right_bound: i64,
)
    ensures
        map_type_fact(h1, t1, Ty::Int { dir, left_bound, right_bound }) == map_type_fact(
            h2,
            t2,
            Ty::Int { dir, left_bound, right_bound },
        ),
        range_diff(dir, left_bound as int, right_bound as int) < 0 ==> map_type_fact(
            h1,
            t1,
            Ty::Int { dir, left_bound, right_bound },
        ) == Ok::<IrType, Error>(IrType::Void),
        range_diff(dir, left_bound as int, right_bound as int) >= 0 ==> map_type_fact(
            h1,
            t1,
            Ty::Int { dir, left_bound, right_bound },
        ) == Ok::<IrType, Error>(
            IrType::Int {
                width: bit_width(
                    range_diff(dir, left_bound as int, right_bound as int) as nat,
                ) as usize,
            },
        ),
{
}

/// Law: for an enum type whose declaration holds `n` literals, type
/// mapping yields the enumerated IR type of cardinality exactly `n`;
/// mapping an enum constant of that declaration with index below `n`
/// yields the integer literal of that index with the same cardinality as
/// width; an index at or above `n` is an internal-consistency violation.
/// The constant's declared type plays no part in an enum constant's
/// mapping.
pub proof fn lemma_enum_mapping_consistent(
    hirs: Map<u64, LazyNode<HirNode>>,
    tys: Map<u64, LazyNode<Ty>>,
    decl: u64,
    index: usize,
    n: usize,
    ty: Ty,
)
    requires
        table_fact(hirs, decl) == Ok::<HirNode, Error>(
            HirNode::TypeDecl { data: Some(TypeData::Enum { num_lits: n }) },
        ),
    ensures
        map_type_fact(hirs, tys, Ty::Enum { decl }) == Ok::<IrType, Error>(
            IrType::Enum { cardinality: n },
        ),
        index < n ==> map_const_fact(hirs, tys, Const::Enum { decl, index }, ty) == Ok::<
            IrValue,
            Error,
        >(IrValue::ConstInt { width: n, value: index as i128 }),
        index >= n ==> map_const_fact(hirs, tys, Const::Enum { decl, index }, ty) == Err::<
            IrValue,
            Error,
        >(Error::Internal(InternalError::EnumIndexOutOfRange(decl))),
{
}

/// Law: a float constant, an integer-range constant and a float-range
/// constant always fail to map, with the unsupported-constant error naming
/// their kind, whatever the tables hold and whatever type stands beside
/// them; no literal is ever produced for them.
pub proof fn lemma_unrepresentable_constants(
    hirs: Map<u64, LazyNode<HirNode>>,
    tys: Map<u64, LazyNode<Ty>>,
    ty: Ty,
)
    ensures
        map_const_fact(hirs, tys, Const::Float, ty) == Err::<IrValue, Error>(
            Error::UnsupportedConstant(ConstKind::Float),
        ),
        map_const_fact(hirs, tys, Const::IntRange, ty) == Err::<IrValue, Error>(
            Error::UnsupportedConstant(ConstKind::IntRange),
        ),
        map_const_fact(hirs, tys, Const::FloatRange, ty) == Err::<IrValue, Error>(
            Error::UnsupportedConstant(ConstKind::FloatRange),
        ),
{
}

/// Law: lowering the same signal declaration a second time produces no
/// second instruction. A first lowering from a state that has not seen the
/// identifier records its outcome and appends at most one instruction; a
/// second lowering returns the recorded outcome and changes nothing.
pub proof fn lemma_signal_lowering_memoized(
    hirs: Map<u64, LazyNode<HirNode>>,
    tys: Map<u64, LazyNode<Ty>>,
    konsts: Map<u64, LazyNode<Const>>,
    s: LowerView,
    id: u64,
)
    requires
        !s.lowered.contains_key(id),
    ensures
        ({
            let first = signal_step(hirs, tys, konsts, s, id);
            let second = signal_step(hirs, tys, konsts, first.0, id);
            &&& second.0 == first.0
            &&& second.1 == first.1
            &&& first.0.insts.len() <= s.insts.len() + 1
        }),
{
}

/// Law: lowering the same process statement a second time registers no
/// second process and appends no second instruction.
pub proof fn lemma_process_lowering_memoized(
    hirs: Map<u64, LazyNode<HirNode>>,
    s: LowerView,
    ent_name: Seq<char>,
    id: u64,
)
    requires
        !s.lowered.contains_key(id),
    ensures
        ({
            let first = process_step(hirs, s, ent_name, id);
            let second = process_step(hirs, first.0, ent_name, id);
            &&& second.0 == first.0
            &&& second.1 == first.1
            &&& first.0.insts.len() <= s.insts.len() + 1
            &&& first.0.proc_names.len() <= s.proc_names.len() + 1
        }),
{
}

/// Holding the same facts is transitive.
pub proof fn lemma_facts_equal_trans<T>(
    m1: Map<u64, LazyNode<T>>,
    m2: Map<u64, LazyNode<T>>,
    m3: Map<u64, LazyNode<T>>,
)
    requires
        facts_equal(m1, m2),
        facts_equal(m2, m3),
    ensures
        facts_equal(m1, m3),
{
    assert(m1.dom() =~= m3.dom());
    assert forall|id: u64| table_fact(m1, id) == table_fact(m3, id) by {
        assert(table_fact(m1, id) == table_fact(m2, id));
    }
}

} // verus!
