//! Mathematical evaluation semantics of instruction trees.
//!
//! Integer-kinded nodes denote mathematical integers already reduced into
//! their node type's range; boolean-kinded nodes denote truth values; the
//! packaged record denotes a (wrapped value, overflow flag) pair.

use vstd::prelude::*;
use crate::node::{BinKind, CmpKind, ConstKind, Node};
use crate::ty::{max_int, min_int, wrap, IntType};

verus! {

/// The 128-bit bit pattern of an integer, for the semantics of bitwise
/// operations: the value reduced modulo two to the 128th power.
pub open spec fn to_bits(v: int) -> u128 {
    (v % 0x1_0000_0000_0000_0000_0000_0000_0000_0000int) as u128
}

/// Value of an integer-kinded node. A literal's bit pattern is interpreted
/// at the node's type; arithmetic wraps at the node's type; a cast reduces
/// its operand into the target type, which is exactly two's-complement
/// conversion. Nodes of boolean or record kind have no integer value and
/// denote zero here.
pub open spec fn sem_i(n: Node) -> int
    decreases n,
{
    match n {
        Node::Lit(t, bits) => wrap(t, bits as int),
        Node::ExtConst(t, k) => match k {
            ConstKind::KZero => 0,
            ConstKind::KMin => min_int(t),
            ConstKind::KMax => max_int(t),
        },
        Node::Bin(k, t, x, y) => {
            let a = sem_i(*x);
            let b = sem_i(*y);
            match k {
                BinKind::Add => wrap(t, a + b),
                BinKind::Sub => wrap(t, a - b),
                BinKind::Mul => wrap(t, a * b),
                BinKind::BitOr => wrap(t, (to_bits(a) | to_bits(b)) as int),
            }
        },
        Node::Conv(t, x) => wrap(t, sem_i(*x)),
        _ => 0,
    }
}

/// Truth value of a boolean-kinded node. Nodes of other kinds denote
/// false here.
///
/// A comparison node compares the operands' denoted values directly; its
/// type tag records which comparison instruction is meant (signed,
/// unsigned, or an extended-precision operator call) and does not enter
/// the denotation. On the target the two instructions differ only in how
/// they read a bit pattern, and every node here denotes a value, not a
/// pattern: the engine's emitted comparisons always receive operands
/// whose values are representable at the comparison type, where both
/// instructions agree with the value comparison. Narrowing well-formedness
/// to enforce that would also reject legitimate operand trees, because
/// narrow operands reach the engine represented at the promoted native
/// width.
pub open spec fn sem_b(n: Node) -> bool
    decreases n,
{
    match n {
        Node::Cmp(k, _, x, y) => match k {
            CmpKind::Lt => sem_i(*x) < sem_i(*y),
            CmpKind::Gt => sem_i(*x) > sem_i(*y),
        },
        Node::BoolLit(b) => b,
        Node::LAnd(x, y) => sem_b(*x) && sem_b(*y),
        Node::LOr(x, y) => sem_b(*x) || sem_b(*y),
        _ => false,
    }
}

/// Numeric field of a packaged checked-operation record: the stored value
/// reduced into the record's operand type, mirroring the truncating store
/// into the value-typed field.
pub open spec fn rec_val(n: Node) -> int {
    match n {
        Node::Tuple(t, _f, v) => wrap(t, sem_i(*v)),
        _ => 0,
    }
}

/// Overflow-flag field of a packaged checked-operation record.
pub open spec fn rec_flag(n: Node) -> bool {
    match n {
        Node::Tuple(_t, f, _v) => sem_b(*f),
        _ => false,
    }
}

/// Operand type of a packaged checked-operation record.
pub open spec fn rec_ty(n: Node) -> IntType {
    match n {
        Node::Tuple(t, _f, _v) => t,
        _ => IntType { width: crate::ty::WidthClass::W8, signed: false },
    }
}

} // verus!
