//! Scenario tests: boundary cases, error conditions, packaging, and the
//! degraded 128-bit multiplication path.

use checked_lowering::consts::{max, min, zero};
use checked_lowering::eval::{eval, CVal};
use checked_lowering::lower::{binop_checked, result_tuple, BinOp};
use checked_lowering::node::{is_well_formed, BinKind, CmpKind, ConstKind, Node};
use checked_lowering::ty::{classify, IntType, LowerError, SemTy, WidthClass};
use std::rc::Rc;

fn lit_u(ty: SemTy, v: u128) -> Node {
    Node::Lit(classify(ty).unwrap(), v)
}

fn lit_i(ty: SemTy, v: i128) -> Node {
    Node::Lit(classify(ty).unwrap(), v as u128)
}

fn lower_u(op: BinOp, a: u128, b: u128, ty: SemTy) -> (u128, bool, bool) {
    let (node, degraded) = binop_checked(op, lit_u(ty, a), lit_u(ty, b), ty).unwrap();
    match eval(&node) {
        CVal::RecUns(v, f) => (v, f, degraded),
        other => panic!("expected an unsigned record, got {:?}", other),
    }
}

fn lower_i(op: BinOp, a: i128, b: i128, ty: SemTy) -> (i128, bool, bool) {
    let (node, degraded) = binop_checked(op, lit_i(ty, a), lit_i(ty, b), ty).unwrap();
    match eval(&node) {
        CVal::RecSgn(v, f) => (v, f, degraded),
        other => panic!("expected a signed record, got {:?}", other),
    }
}

#[test]
fn boundary_add_u8_wraps() {
    assert_eq!(lower_u(BinOp::Add, 255, 1, SemTy::U8), (0, true, false));
}

#[test]
fn boundary_add_u8_small() {
    assert_eq!(lower_u(BinOp::Add, 1, 1, SemTy::U8), (2, false, false));
}

#[test]
fn boundary_sub_i8_min_minus_one() {
    assert_eq!(lower_i(BinOp::Sub, -128, 1, SemTy::I8), (127, true, false));
}

#[test]
fn boundary_mul_u32_wraps_to_zero() {
    assert_eq!(lower_u(BinOp::Mul, 65536, 65536, SemTy::U32), (0, true, false));
}

#[test]
fn boundary_mul_i64_max_times_two() {
    let (v, f, d) = lower_i(BinOp::Mul, i64::MAX as i128, 2, SemTy::I64);
    assert!(f);
    assert!(!d);
    assert_eq!(v, -2);
}

#[test]
fn probe_add_i8_min_min_wraps_to_zero_unflagged() {
    // The strict-sign predicate does not flag the one sum that wraps
    // exactly to zero: the numeric field is 0 and the flag stays false.
    assert_eq!(lower_i(BinOp::Add, -128, -128, SemTy::I8), (0, false, false));
}

#[test]
fn add_u128_wraps() {
    assert_eq!(lower_u(BinOp::Add, u128::MAX, 1, SemTy::U128), (0, true, false));
    assert_eq!(
        lower_u(BinOp::Add, u128::MAX - 7, 5, SemTy::U128),
        (u128::MAX - 2, false, false)
    );
}

#[test]
fn sub_i128_overflows() {
    assert_eq!(
        lower_i(BinOp::Sub, i128::MIN, 1, SemTy::I128),
        (i128::MAX, true, false)
    );
}

#[test]
fn degraded_mul_u128_never_flags() {
    let (v, f, d) = lower_u(BinOp::Mul, u128::MAX, 2, SemTy::U128);
    assert!(d, "128-bit multiplication must report degraded lowering");
    assert!(!f, "the degraded path emits a constant no-overflow flag");
    assert_eq!(v, u128::MAX - 1);
}

#[test]
fn degraded_mul_i128_never_flags() {
    let (v, f, d) = lower_i(BinOp::Mul, i128::MAX, 2, SemTy::I128);
    assert!(d);
    assert!(!f);
    assert_eq!(v, -2);
}

#[test]
fn pointer_sized_add_and_sub() {
    let umax = u64::MAX as u128;
    assert_eq!(lower_u(BinOp::Add, umax, 1, SemTy::Usize), (0, true, false));
    assert_eq!(lower_u(BinOp::Sub, 3, 5, SemTy::Usize), (umax - 1, true, false));
    assert_eq!(
        lower_i(BinOp::Add, i64::MAX as i128, 1, SemTy::Isize),
        (i64::MIN as i128, true, false)
    );
}

#[test]
fn unsupported_operation_is_rejected() {
    for op in [
        BinOp::Div,
        BinOp::Rem,
        BinOp::BitXor,
        BinOp::BitAnd,
        BinOp::BitOr,
        BinOp::Shl,
        BinOp::Shr,
        BinOp::Eq,
        BinOp::Lt,
        BinOp::Le,
        BinOp::Ne,
        BinOp::Ge,
        BinOp::Gt,
        BinOp::Offset,
    ] {
        let r = binop_checked(op, lit_u(SemTy::U8, 1), lit_u(SemTy::U8, 1), SemTy::U8);
        assert_eq!(r, Err(LowerError::UnsupportedOperation));
    }
}

#[test]
fn unsupported_type_is_rejected() {
    for ty in [SemTy::Bool, SemTy::Char, SemTy::Other] {
        for op in [BinOp::Add, BinOp::Sub, BinOp::Mul] {
            let a = Node::Lit(IntType { width: WidthClass::W8, signed: false }, 1);
            let b = Node::Lit(IntType { width: WidthClass::W8, signed: false }, 1);
            assert_eq!(binop_checked(op, a, b, ty), Err(LowerError::UnsupportedType));
        }
    }
}

#[test]
fn classify_maps_every_integer_kind() {
    assert_eq!(
        classify(SemTy::U8),
        Ok(IntType { width: WidthClass::W8, signed: false })
    );
    assert_eq!(
        classify(SemTy::I16),
        Ok(IntType { width: WidthClass::W16, signed: true })
    );
    assert_eq!(
        classify(SemTy::Usize),
        Ok(IntType { width: WidthClass::WPtr, signed: false })
    );
    assert_eq!(
        classify(SemTy::Isize),
        Ok(IntType { width: WidthClass::WPtr, signed: true })
    );
    assert_eq!(
        classify(SemTy::U128),
        Ok(IntType { width: WidthClass::W128, signed: false })
    );
    assert_eq!(classify(SemTy::Bool), Err(LowerError::UnsupportedType));
}

#[test]
fn packaging_is_idempotent() {
    let t = IntType { width: WidthClass::W16, signed: true };
    let flag = Node::BoolLit(true);
    let val = Node::Lit(t, 77);
    let r1 = result_tuple(t, flag.clone(), val.clone());
    let r2 = result_tuple(t, flag, val);
    assert_eq!(r1, r2);
}

#[test]
fn lowering_is_deterministic() {
    let r1 = binop_checked(BinOp::Add, lit_u(SemTy::U32, 9), lit_u(SemTy::U32, 4), SemTy::U32);
    let r2 = binop_checked(BinOp::Add, lit_u(SemTy::U32, 9), lit_u(SemTy::U32, 4), SemTy::U32);
    assert_eq!(r1, r2);
}

#[test]
fn constants_evaluate_to_canonical_values() {
    let u8t = classify(SemTy::U8).unwrap();
    let i8t = classify(SemTy::I8).unwrap();
    let i128t = classify(SemTy::I128).unwrap();
    let u128t = classify(SemTy::U128).unwrap();
    assert_eq!(eval(&zero(u8t)), CVal::Uns(0));
    assert_eq!(eval(&max(u8t)), CVal::Uns(255));
    assert_eq!(eval(&min(u8t)), CVal::Uns(0));
    assert_eq!(eval(&min(i8t)), CVal::Sgn(-128));
    assert_eq!(eval(&max(i8t)), CVal::Sgn(127));
    assert_eq!(eval(&zero(i128t)), CVal::Sgn(0));
    assert_eq!(eval(&min(i128t)), CVal::Sgn(i128::MIN));
    assert_eq!(eval(&max(i128t)), CVal::Sgn(i128::MAX));
    assert_eq!(eval(&max(u128t)), CVal::Uns(u128::MAX));
}

#[test]
fn constants_have_the_prescribed_node_form() {
    // Literal nodes of the requested type up to 64 bits and pointer-sized;
    // extended-precision constructor/accessor calls at 128 bits.
    let u8t = classify(SemTy::U8).unwrap();
    let i8t = classify(SemTy::I8).unwrap();
    let usize_t = classify(SemTy::Usize).unwrap();
    let i128t = classify(SemTy::I128).unwrap();
    assert_eq!(zero(u8t), Node::Lit(u8t, 0));
    assert_eq!(min(i8t), Node::Lit(i8t, 0x80));
    assert_eq!(max(i8t), Node::Lit(i8t, 0x7f));
    assert_eq!(zero(usize_t), Node::Lit(usize_t, 0));
    assert_eq!(min(usize_t), Node::Lit(usize_t, 0));
    assert_eq!(max(usize_t), Node::Lit(usize_t, 0xffff_ffff_ffff_ffff));
    assert_eq!(zero(i128t), Node::ExtConst(i128t, ConstKind::KZero));
    assert_eq!(min(i128t), Node::ExtConst(i128t, ConstKind::KMin));
    assert_eq!(max(i128t), Node::ExtConst(i128t, ConstKind::KMax));
}

#[test]
fn well_formedness_checker_rejects_ill_kinded_trees() {
    let t = IntType { width: WidthClass::W8, signed: false };
    let good = Node::Bin(
        BinKind::Add,
        t,
        Rc::new(Node::Lit(t, 1)),
        Rc::new(Node::Lit(t, 2)),
    );
    assert!(is_well_formed(&good));
    let bad = Node::Bin(
        BinKind::Add,
        t,
        Rc::new(Node::BoolLit(true)),
        Rc::new(Node::Lit(t, 2)),
    );
    assert!(!is_well_formed(&bad));
}

#[test]
fn cast_node_truncates_and_sign_extends() {
    let u8t = classify(SemTy::U8).unwrap();
    let i8t = classify(SemTy::I8).unwrap();
    let u32t = classify(SemTy::U32).unwrap();
    let wide = Node::Lit(u32t, 300);
    assert_eq!(eval(&Node::Conv(u8t, Rc::new(wide.clone()))), CVal::Uns(44));
    assert_eq!(eval(&Node::Conv(i8t, Rc::new(wide))), CVal::Sgn(44));
    let neg = Node::Lit(i8t, (-1i128) as u128);
    assert_eq!(eval(&Node::Conv(u32t, Rc::new(neg))), CVal::Uns(0xffff_ffff));
}

#[test]
fn comparison_nodes_compare_values() {
    let i8t = classify(SemTy::I8).unwrap();
    let u32t = classify(SemTy::U32).unwrap();
    let neg = Node::Lit(i8t, (-5i128) as u128);
    let big = Node::Lit(u32t, 3_000_000_000);
    let lt = Node::Cmp(CmpKind::Lt, u32t, Rc::new(neg.clone()), Rc::new(big.clone()));
    let gt = Node::Cmp(CmpKind::Gt, u32t, Rc::new(neg), Rc::new(big));
    assert_eq!(eval(&lt), CVal::Flag(true));
    assert_eq!(eval(&gt), CVal::Flag(false));
}

#[test]
fn record_tree_shares_structure() {
    // The packaged record holds the flag and value trees unchanged.
    let t = IntType { width: WidthClass::W8, signed: false };
    let flag = Node::BoolLit(false);
    let val = Node::Lit(t, 7);
    let r = result_tuple(t, flag.clone(), val.clone());
    match r {
        Node::Tuple(t2, f, v) => {
            assert_eq!(t2, t);
            assert_eq!(*f, flag);
            assert_eq!(*v, val);
        }
        other => panic!("expected a record node, got {:?}", other),
    }
}
