//! Declaration and statement lowering, the scheduler, and the per-node
//! construction context.

use hdl_lower::codegen::{ConcStmtRef, DeclInBlockRef, LowerState, ScoreContext};
use hdl_lower::diag::{ConstructKind, Error, InternalError};
use hdl_lower::hir::HirNode;
use hdl_lower::ir::{Entity, Inst, InstKind, InstPosition, IrType, IrValue};
use hdl_lower::konst::Const;
use hdl_lower::lazy::Recipe;
use hdl_lower::make_ctx::{MakeContext, Span};
use hdl_lower::ty::{Dir, Ty};

fn signal_ctx(init: Option<u64>) -> ScoreContext {
    let mut ctx = ScoreContext::new();
    ctx.lazy
        .schedule_hir(
            10,
            Recipe::Produce(HirNode::SignalDecl { name: "s".to_string(), init }),
        )
        .unwrap();
    ctx.lazy
        .schedule_typeval(
            10,
            Recipe::Produce(Ty::Int { dir: Dir::To, left_bound: 0, right_bound: 3 }),
        )
        .unwrap();
    ctx
}

#[test]
fn signal_with_initializer_uses_mapped_initializer() {
    let mut ctx = signal_ctx(Some(77));
    ctx.lazy
        .schedule_const(77, Recipe::Produce(Const::Int { value: 2 }))
        .unwrap();
    let mut ent = Entity::new("top".to_string());
    assert_eq!(ctx.codegen_signal(10, &mut ent), Ok(()));
    assert_eq!(ent.insts.len(), 1);
    assert_eq!(ent.insts[0].name, Some("s".to_string()));
    assert_eq!(
        ent.insts[0].kind,
        InstKind::Signal {
            ty: IrType::Int { width: 2 },
            init: IrValue::ConstInt { width: 2, value: 2 },
        }
    );
}

#[test]
fn signal_without_initializer_uses_default_value() {
    let mut ctx = signal_ctx(None);
    let mut ent = Entity::new("top".to_string());
    assert_eq!(ctx.codegen_signal(10, &mut ent), Ok(()));
    assert_eq!(ent.insts.len(), 1);
    assert_eq!(
        ent.insts[0].kind,
        InstKind::Signal {
            ty: IrType::Int { width: 2 },
            init: IrValue::ConstInt { width: 2, value: 0 },
        }
    );
}

#[test]
fn lowering_the_same_signal_twice_appends_once() {
    let mut ctx = signal_ctx(None);
    let mut ent = Entity::new("top".to_string());
    assert_eq!(ctx.codegen_signal(10, &mut ent), Ok(()));
    assert_eq!(ctx.codegen_signal(10, &mut ent), Ok(()));
    assert_eq!(ent.insts.len(), 1);
}

#[test]
fn lowering_failures_are_memoized_too() {
    let mut ctx = ScoreContext::new();
    let mut ent = Entity::new("top".to_string());
    let missing = Err(Error::Internal(InternalError::MissingFact(10)));
    assert_eq!(ctx.codegen_signal(10, &mut ent), missing);
    // registering the fact afterwards does not revive the recorded outcome
    ctx.lazy
        .schedule_hir(
            10,
            Recipe::Produce(HirNode::SignalDecl { name: "s".to_string(), init: None }),
        )
        .unwrap();
    assert_eq!(ctx.codegen_signal(10, &mut ent), missing);
    assert_eq!(ent.insts.len(), 0);
}

#[test]
fn demanding_an_element_from_its_own_lowering_is_cyclic() {
    let mut ctx = signal_ctx(None);
    ctx.lowered.insert(10, LowerState::InProgress);
    let mut ent = Entity::new("top".to_string());
    assert_eq!(
        ctx.codegen_signal(10, &mut ent),
        Err(Error::Internal(InternalError::CyclicFact(10)))
    );
    assert_eq!(ent.insts.len(), 0);
}

#[test]
fn signal_with_wrong_fact_shape_is_internal_error() {
    let mut ctx = ScoreContext::new();
    ctx.lazy
        .schedule_hir(10, Recipe::Produce(HirNode::ProcessStmt { label: None }))
        .unwrap();
    let mut ent = Entity::new("top".to_string());
    assert_eq!(
        ctx.codegen_signal(10, &mut ent),
        Err(Error::Internal(InternalError::NotASignalDecl(10)))
    );
}

#[test]
fn unlabeled_process_is_named_after_container() {
    let mut ctx = ScoreContext::new();
    ctx.lazy
        .schedule_hir(20, Recipe::Produce(HirNode::ProcessStmt { label: None }))
        .unwrap();
    let mut ent = Entity::new("top".to_string());
    assert_eq!(ctx.codegen_process(20, &mut ent), Ok(()));
    assert_eq!(ctx.llmod.procs.len(), 1);
    assert_eq!(ctx.llmod.procs[0].name, "top_proc".to_string());
    assert_eq!(ent.insts.len(), 1);
    assert_eq!(ent.insts[0].name, None);
    match &ent.insts[0].kind {
        InstKind::Instance { unit, inputs, outputs } => {
            assert_eq!(*unit, 0);
            assert!(inputs.is_empty());
            assert!(outputs.is_empty());
        },
        _ => panic!("expected an instantiation"),
    }
}

#[test]
fn labeled_process_is_named_after_container_and_label() {
    let mut ctx = ScoreContext::new();
    ctx.lazy
        .schedule_hir(
            21,
            Recipe::Produce(HirNode::ProcessStmt { label: Some("p1".to_string()) }),
        )
        .unwrap();
    let mut ent = Entity::new("top".to_string());
    assert_eq!(ctx.codegen_process(21, &mut ent), Ok(()));
    assert_eq!(ctx.llmod.procs[0].name, "top_p1".to_string());
    assert_eq!(ent.insts[0].name, Some("p1".to_string()));
}

#[test]
fn process_with_wrong_fact_shape_is_internal_error() {
    let mut ctx = ScoreContext::new();
    ctx.lazy
        .schedule_hir(
            20,
            Recipe::Produce(HirNode::SignalDecl { name: "s".to_string(), init: None }),
        )
        .unwrap();
    let mut ent = Entity::new("top".to_string());
    assert_eq!(
        ctx.codegen_process(20, &mut ent),
        Err(Error::Internal(InternalError::NotAProcessStmt(20)))
    );
}

#[test]
fn compile_time_declarations_emit_nothing() {
    let mut ctx = ScoreContext::new();
    let mut ent = Entity::new("top".to_string());
    assert_eq!(ctx.codegen_decl(DeclInBlockRef::Pkg(1), &mut ent), Ok(()));
    assert_eq!(ctx.codegen_decl(DeclInBlockRef::PkgInst(2), &mut ent), Ok(()));
    assert_eq!(ctx.codegen_decl(DeclInBlockRef::Type(3), &mut ent), Ok(()));
    assert_eq!(ctx.codegen_decl(DeclInBlockRef::Subtype(4), &mut ent), Ok(()));
    assert_eq!(ent.insts.len(), 0);
}

#[test]
fn out_of_scope_declarations_are_unsupported() {
    let mut ctx = ScoreContext::new();
    let mut ent = Entity::new("top".to_string());
    assert_eq!(
        ctx.codegen_decl(DeclInBlockRef::Const(5), &mut ent),
        Err(Error::Unsupported(ConstructKind::ConstDecl))
    );
    assert_eq!(
        ctx.codegen_decl(DeclInBlockRef::SharedVar(6), &mut ent),
        Err(Error::Unsupported(ConstructKind::SharedVarDecl))
    );
    assert_eq!(
        ctx.codegen_decl(DeclInBlockRef::File(7), &mut ent),
        Err(Error::Unsupported(ConstructKind::FileDecl))
    );
}

#[test]
fn out_of_scope_statements_are_unsupported() {
    let mut ctx = ScoreContext::new();
    let mut ent = Entity::new("top".to_string());
    let cases = vec![
        (ConcStmtRef::Block(1), ConstructKind::BlockStmt),
        (ConcStmtRef::ConcProcCall(2), ConstructKind::ProcCallStmt),
        (ConcStmtRef::ConcAssert(3), ConstructKind::AssertStmt),
        (ConcStmtRef::ConcSigAssign(4), ConstructKind::SigAssignStmt),
        (ConcStmtRef::CompInst(5), ConstructKind::CompInstStmt),
        (ConcStmtRef::ForGen(6), ConstructKind::ForGenStmt),
        (ConcStmtRef::IfGen(7), ConstructKind::IfGenStmt),
        (ConcStmtRef::CaseGen(8), ConstructKind::CaseGenStmt),
    ];
    for (stmt, kind) in cases {
        assert_eq!(ctx.codegen_stmt(stmt, &mut ent), Err(Error::Unsupported(kind)));
    }
    assert_eq!(ent.insts.len(), 0);
}

#[test]
fn unsupported_statement_leaves_earlier_siblings_intact() {
    let mut ctx = signal_ctx(None);
    ctx.lazy
        .schedule_hir(20, Recipe::Produce(HirNode::ProcessStmt { label: None }))
        .unwrap();
    let mut ent = Entity::new("top".to_string());
    let decls = vec![DeclInBlockRef::Type(3), DeclInBlockRef::Signal(10)];
    let stmts = vec![ConcStmtRef::CompInst(30), ConcStmtRef::Process(20)];
    assert_eq!(
        ctx.codegen_container(&decls, &stmts, &mut ent),
        Err(Error::Unsupported(ConstructKind::CompInstStmt))
    );
    // the signal lowered before the failure stays; the process after it was
    // never reached
    assert_eq!(ent.insts.len(), 1);
    assert_eq!(ent.insts[0].name, Some("s".to_string()));
    assert_eq!(ctx.llmod.procs.len(), 0);
}

#[test]
fn container_lowers_declarations_then_statements_in_order() {
    let mut ctx = signal_ctx(None);
    ctx.lazy
        .schedule_hir(20, Recipe::Produce(HirNode::ProcessStmt { label: None }))
        .unwrap();
    let mut ent = Entity::new("top".to_string());
    let decls = vec![DeclInBlockRef::Signal(10)];
    let stmts = vec![ConcStmtRef::Process(20)];
    assert_eq!(ctx.codegen_container(&decls, &stmts, &mut ent), Ok(()));
    assert_eq!(ent.insts.len(), 2);
    assert!(matches!(ent.insts[0].kind, InstKind::Signal { .. }));
    assert!(matches!(ent.insts[1].kind, InstKind::Instance { .. }));
}

#[test]
fn repeated_declaration_in_one_container_appends_once() {
    let mut ctx = signal_ctx(None);
    let mut ent = Entity::new("top".to_string());
    let decls = vec![DeclInBlockRef::Signal(10), DeclInBlockRef::Signal(10)];
    assert_eq!(ctx.codegen_container(&decls, &vec![], &mut ent), Ok(()));
    assert_eq!(ent.insts.len(), 1);
}

#[test]
fn each_process_receives_the_next_handle() {
    let mut ctx = ScoreContext::new();
    ctx.lazy
        .schedule_hir(20, Recipe::Produce(HirNode::ProcessStmt { label: None }))
        .unwrap();
    ctx.lazy
        .schedule_hir(
            21,
            Recipe::Produce(HirNode::ProcessStmt { label: Some("p1".to_string()) }),
        )
        .unwrap();
    let mut ent = Entity::new("top".to_string());
    let stmts = vec![ConcStmtRef::Process(20), ConcStmtRef::Process(21)];
    assert_eq!(ctx.codegen_container(&vec![], &stmts, &mut ent), Ok(()));
    assert_eq!(ctx.llmod.procs.len(), 2);
    assert_eq!(ctx.llmod.procs[0].name, "top_proc".to_string());
    assert_eq!(ctx.llmod.procs[1].name, "top_p1".to_string());
    let units: Vec<usize> = ent
        .insts
        .iter()
        .map(|i| match &i.kind {
            InstKind::Instance { unit, .. } => *unit,
            _ => panic!("expected an instantiation"),
        })
        .collect();
    assert_eq!(units, vec![0, 1]);
}

#[test]
fn demands_are_memoized_and_stable() {
    let mut ctx = ScoreContext::new();
    ctx.lazy
        .schedule_typeval(1, Recipe::Produce(Ty::Null))
        .unwrap();
    assert_eq!(ctx.lazy.demand_typeval(1), Ok(Ty::Null));
    assert_eq!(ctx.lazy.demand_typeval(1), Ok(Ty::Null));
    assert_eq!(
        ctx.lazy.demand_typeval(2),
        Err(Error::Internal(InternalError::MissingFact(2)))
    );
}

#[test]
fn failing_recipes_propagate_their_error() {
    let mut ctx = ScoreContext::new();
    let boom = Error::Internal(InternalError::MissingFact(99));
    ctx.lazy.schedule_const(1, Recipe::Fail(boom)).unwrap();
    assert_eq!(ctx.lazy.demand_const(1), Err(boom));
    assert_eq!(ctx.lazy.demand_const(1), Err(boom));
}

#[test]
fn duplicate_registration_is_internal_error() {
    let mut ctx = ScoreContext::new();
    ctx.lazy
        .schedule_typeck(1, Recipe::Produce(()))
        .unwrap();
    assert_eq!(
        ctx.lazy.schedule_typeck(1, Recipe::Produce(())),
        Err(Error::Internal(InternalError::DuplicateFact(1)))
    );
    assert_eq!(ctx.lazy.demand_typeck(1), Ok(()));
}

#[test]
fn demand_hir_returns_the_registered_form() {
    let mut ctx = ScoreContext::new();
    let node = HirNode::SignalDecl { name: "s".to_string(), init: Some(4) };
    ctx.lazy.schedule_hir(1, Recipe::Produce(node)).unwrap();
    let expected = HirNode::SignalDecl { name: "s".to_string(), init: Some(4) };
    assert_eq!(ctx.lazy.demand_hir(1), Ok(expected));
}

#[test]
fn make_context_registers_passes_for_its_node() {
    let mut ctx = ScoreContext::new();
    let mc = MakeContext::new(Span { begin: 3, end: 9 }, 42);
    assert_eq!(mc.span, Span { begin: 3, end: 9 });
    mc.lower_to_hir(
        &mut ctx,
        Recipe::Produce(HirNode::ProcessStmt { label: None }),
    )
    .unwrap();
    mc.typeck(&mut ctx, Recipe::Produce(())).unwrap();
    mc.typeval(&mut ctx, Recipe::Produce(Ty::Null)).unwrap();
    assert_eq!(
        mc.typeval(&mut ctx, Recipe::Produce(Ty::Null)),
        Err(Error::Internal(InternalError::DuplicateFact(42)))
    );
    assert_eq!(mc.finish(), 42);
    assert_eq!(ctx.lazy.demand_typeck(42), Ok(()));
    assert_eq!(ctx.lazy.demand_typeval(42), Ok(Ty::Null));
}

#[test]
fn add_inst_appends_at_end() {
    let mut ent = Entity::new("e".to_string());
    let a = Inst {
        name: None,
        kind: InstKind::Signal {
            ty: IrType::Void,
            init: IrValue::ConstInt { width: 0, value: 0 },
        },
    };
    let b = Inst {
        name: Some("x".to_string()),
        kind: InstKind::Signal {
            ty: IrType::Int { width: 1 },
            init: IrValue::ConstInt { width: 1, value: 1 },
        },
    };
    ent.add_inst(a, InstPosition::End);
    ent.add_inst(b, InstPosition::End);
    assert_eq!(ent.insts.len(), 2);
    assert_eq!(ent.insts[1].name, Some("x".to_string()));
}
