//! Type and constant mapping.

use hdl_lower::codegen::ScoreContext;
use hdl_lower::diag::{ConstKind, Error, InternalError};
use hdl_lower::hir::{HirNode, TypeData};
use hdl_lower::ir::{IrType, IrValue};
use hdl_lower::konst::Const;
use hdl_lower::lazy::Recipe;
use hdl_lower::ty::{Dir, Ty};

#[test]
fn descending_range_maps_deterministically() {
    let mut ctx = ScoreContext::new();
    let ty = Ty::Int { dir: Dir::Downto, left_bound: 7, right_bound: 0 };
    let a = ctx.map_type(&ty);
    let b = ctx.map_type(&ty);
    assert_eq!(a, Ok(IrType::Int { width: 3 }));
    assert_eq!(a, b);
}

#[test]
fn null_range_maps_to_empty_type() {
    let mut ctx = ScoreContext::new();
    let ty = Ty::Int { dir: Dir::To, left_bound: 5, right_bound: 2 };
    assert_eq!(ctx.map_type(&ty), Ok(IrType::Void));
    let ty2 = Ty::Int { dir: Dir::Downto, left_bound: 2, right_bound: 5 };
    assert_eq!(ctx.map_type(&ty2), Ok(IrType::Void));
}

#[test]
fn single_value_range_maps_to_zero_width() {
    let mut ctx = ScoreContext::new();
    let ty = Ty::Int { dir: Dir::To, left_bound: 4, right_bound: 4 };
    assert_eq!(ctx.map_type(&ty), Ok(IrType::Int { width: 0 }));
}

#[test]
fn widest_range_maps_to_sixty_four_bits() {
    let mut ctx = ScoreContext::new();
    let ty = Ty::Int { dir: Dir::To, left_bound: i64::MIN, right_bound: i64::MAX };
    assert_eq!(ctx.map_type(&ty), Ok(IrType::Int { width: 64 }));
}

#[test]
fn null_type_maps_to_empty_type() {
    let mut ctx = ScoreContext::new();
    assert_eq!(ctx.map_type(&Ty::Null), Ok(IrType::Void));
}

#[test]
fn unbounded_int_is_internal_error() {
    let mut ctx = ScoreContext::new();
    assert_eq!(
        ctx.map_type(&Ty::UnboundedInt),
        Err(Error::Internal(InternalError::UnboundedIntType))
    );
}

#[test]
fn named_type_is_dereferenced_before_mapping() {
    let mut ctx = ScoreContext::new();
    ctx.lazy
        .schedule_typeval(1, Recipe::Produce(Ty::Named { decl: 2 }))
        .unwrap();
    ctx.lazy
        .schedule_typeval(
            2,
            Recipe::Produce(Ty::Int { dir: Dir::To, left_bound: 0, right_bound: 7 }),
        )
        .unwrap();
    assert_eq!(
        ctx.map_type(&Ty::Named { decl: 1 }),
        Ok(IrType::Int { width: 3 })
    );
}

#[test]
fn cyclic_alias_is_reported() {
    let mut ctx = ScoreContext::new();
    ctx.lazy
        .schedule_typeval(1, Recipe::Produce(Ty::Named { decl: 1 }))
        .unwrap();
    assert_eq!(
        ctx.map_type(&Ty::Named { decl: 1 }),
        Err(Error::Internal(InternalError::UnresolvedAlias(1)))
    );
}

#[test]
fn alias_to_unregistered_type_is_missing_fact() {
    let mut ctx = ScoreContext::new();
    ctx.lazy
        .schedule_typeval(1, Recipe::Produce(Ty::Named { decl: 9 }))
        .unwrap();
    ctx.lazy.schedule_typeval(5, Recipe::Produce(Ty::Null)).unwrap();
    assert_eq!(
        ctx.map_type(&Ty::Named { decl: 1 }),
        Err(Error::Internal(InternalError::MissingFact(9)))
    );
}

#[test]
fn enum_type_maps_to_its_cardinality() {
    let mut ctx = ScoreContext::new();
    ctx.lazy
        .schedule_hir(
            1,
            Recipe::Produce(HirNode::TypeDecl { data: Some(TypeData::Enum { num_lits: 4 }) }),
        )
        .unwrap();
    assert_eq!(
        ctx.map_type(&Ty::Enum { decl: 1 }),
        Ok(IrType::Enum { cardinality: 4 })
    );
}

#[test]
fn enum_constant_maps_to_index_and_cardinality() {
    let mut ctx = ScoreContext::new();
    ctx.lazy
        .schedule_hir(
            1,
            Recipe::Produce(HirNode::TypeDecl { data: Some(TypeData::Enum { num_lits: 4 }) }),
        )
        .unwrap();
    let k = Const::Enum { decl: 1, index: 2 };
    assert_eq!(
        ctx.map_const(&k, &Ty::Enum { decl: 1 }),
        Ok(IrValue::ConstInt { width: 4, value: 2 })
    );
}

#[test]
fn enum_constant_index_out_of_range_is_internal_error() {
    let mut ctx = ScoreContext::new();
    ctx.lazy
        .schedule_hir(
            1,
            Recipe::Produce(HirNode::TypeDecl { data: Some(TypeData::Enum { num_lits: 4 }) }),
        )
        .unwrap();
    let k = Const::Enum { decl: 1, index: 4 };
    assert_eq!(
        ctx.map_const(&k, &Ty::Enum { decl: 1 }),
        Err(Error::Internal(InternalError::EnumIndexOutOfRange(1)))
    );
}

#[test]
fn enum_type_with_non_enum_declaration_is_internal_error() {
    let mut ctx = ScoreContext::new();
    ctx.lazy
        .schedule_hir(
            1,
            Recipe::Produce(HirNode::TypeDecl {
                data: Some(TypeData::Range { dir: Dir::To, left_bound: 0, right_bound: 3 }),
            }),
        )
        .unwrap();
    assert_eq!(
        ctx.map_type(&Ty::Enum { decl: 1 }),
        Err(Error::Internal(InternalError::NotAnEnumDecl(1)))
    );
}

#[test]
fn float_constant_fails_as_unsupported() {
    let mut ctx = ScoreContext::new();
    assert_eq!(
        ctx.map_const(&Const::Float, &Ty::Null),
        Err(Error::UnsupportedConstant(ConstKind::Float))
    );
}

#[test]
fn int_range_constant_fails_as_unsupported() {
    let mut ctx = ScoreContext::new();
    assert_eq!(
        ctx.map_const(&Const::IntRange, &Ty::Null),
        Err(Error::UnsupportedConstant(ConstKind::IntRange))
    );
}

#[test]
fn float_range_constant_fails_as_unsupported() {
    let mut ctx = ScoreContext::new();
    assert_eq!(
        ctx.map_const(&Const::FloatRange, &Ty::Null),
        Err(Error::UnsupportedConstant(ConstKind::FloatRange))
    );
}

#[test]
fn null_constant_maps_to_zero_sized_literal() {
    let mut ctx = ScoreContext::new();
    assert_eq!(
        ctx.map_const(&Const::Null, &Ty::Null),
        Ok(IrValue::ConstInt { width: 0, value: 0 })
    );
}

#[test]
fn int_constant_takes_width_of_its_declared_type() {
    let mut ctx = ScoreContext::new();
    let ty = Ty::Int { dir: Dir::To, left_bound: 0, right_bound: 100 };
    assert_eq!(
        ctx.map_const(&Const::Int { value: 42 }, &ty),
        Ok(IrValue::ConstInt { width: 7, value: 42 })
    );
}

#[test]
fn int_constant_with_non_integer_type_is_internal_error() {
    let mut ctx = ScoreContext::new();
    assert_eq!(
        ctx.map_const(&Const::Int { value: 1 }, &Ty::Null),
        Err(Error::Internal(InternalError::IntConstWithoutIntType))
    );
}

#[test]
fn default_value_is_lowest_of_range() {
    let mut ctx = ScoreContext::new();
    let up = Ty::Int { dir: Dir::To, left_bound: 0, right_bound: 3 };
    assert_eq!(
        ctx.default_value_for_type(&up),
        Ok(Const::Int { value: 0 })
    );
    let down = Ty::Int { dir: Dir::Downto, left_bound: 7, right_bound: 2 };
    assert_eq!(
        ctx.default_value_for_type(&down),
        Ok(Const::Int { value: 2 })
    );
}

#[test]
fn default_value_of_enum_is_first_literal() {
    let mut ctx = ScoreContext::new();
    assert_eq!(
        ctx.default_value_for_type(&Ty::Enum { decl: 3 }),
        Ok(Const::Enum { decl: 3, index: 0 })
    );
}
