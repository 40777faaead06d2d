//! The instruction-tree node algebra the engine emits into.
//!
//! Nodes are immutable expression trees; subtrees are shared through `Rc`,
//! so duplicating a node is cheap and never copies the tree. The engine
//! treats operand nodes as opaque values and only combines them.

use std::rc::Rc;
use vstd::prelude::*;
use crate::ty::IntType;

verus! {

/// Unchecked binary arithmetic node kinds, evaluated with wraparound at the
/// node's integer type. At the 128-bit width these denote calls into the
/// target's extended-precision multiply/add operators rather than native
/// instructions; their value semantics is the same.
#[derive(Clone, Copy, PartialEq, Eq, Structural, Debug)]
pub enum BinKind {
    Add,
    Sub,
    Mul,
    BitOr,
}

/// Comparison node kinds. The node's integer type records whether the
/// signed or the unsigned comparison instruction is meant; at the 128-bit
/// width these denote the extended-precision comparison operator calls.
#[derive(Clone, Copy, PartialEq, Eq, Structural, Debug)]
pub enum CmpKind {
    Lt,
    Gt,
}

/// Which canonical constant an extended-precision accessor call yields.
#[derive(Clone, Copy, PartialEq, Eq, Structural, Debug)]
pub enum ConstKind {
    KZero,
    KMin,
    KMax,
}

/// An instruction-tree expression node.
///
/// `Lit` is a literal instruction carrying a bit pattern; narrow literals
/// are represented at the native comparison width the target promotes them
/// to, so the pattern is kept in full and interpreted at the node's type.
/// `ExtConst` is a call node invoking the extended-precision type's
/// zero/min/max constructor or property accessor: no native 128-bit literal
/// exists. `Conv` is a cast node between integer widths (a call into the
/// extended type's conversion operator when 128 bits are involved).
/// `Tuple` is the scoped-temporary record of a checked operation: allocate
/// a stack-scoped two-field buffer, store the overflow flag and the wrapped
/// value through its address, and read the whole buffer back as one value.
/// The record's ABI field order is (value, overflow flag).
#[derive(Clone, PartialEq, Eq, Debug)]
pub enum Node {
    Lit(IntType, u128),
    ExtConst(IntType, ConstKind),
    Bin(BinKind, IntType, Rc<Node>, Rc<Node>),
    Cmp(CmpKind, IntType, Rc<Node>, Rc<Node>),
    Conv(IntType, Rc<Node>),
    BoolLit(bool),
    LAnd(Rc<Node>, Rc<Node>),
    LOr(Rc<Node>, Rc<Node>),
    Tuple(IntType, Rc<Node>, Rc<Node>),
}

/// The kind of value a node evaluates to: an integer, a boolean, or the
/// two-field checked-operation record.
#[derive(Clone, Copy, PartialEq, Eq, Structural, Debug)]
pub enum NodeKind {
    KInt,
    KBool,
    KRec,
}

/// Value kind of a node, determined by its head constructor.
pub open spec fn kind_of(n: Node) -> NodeKind {
    match n {
        Node::Lit(_, _) => NodeKind::KInt,
        Node::ExtConst(_, _) => NodeKind::KInt,
        Node::Bin(_, _, _, _) => NodeKind::KInt,
        Node::Cmp(_, _, _, _) => NodeKind::KBool,
        Node::Conv(_, _) => NodeKind::KInt,
        Node::BoolLit(_) => NodeKind::KBool,
        Node::LAnd(_, _) => NodeKind::KBool,
        Node::LOr(_, _) => NodeKind::KBool,
        Node::Tuple(_, _, _) => NodeKind::KRec,
    }
}

/// Well-formedness: every operator is applied to children of the value
/// kind it consumes, and records appear only at the root of a packaged
/// result, never inside an arithmetic or boolean expression.
pub open spec fn wf(n: Node) -> bool
    decreases n,
{
    match n {
        Node::Lit(_, _) => true,
        Node::ExtConst(_, _) => true,
        Node::Bin(_, _, x, y) => wf(*x) && wf(*y) && kind_of(*x) == NodeKind::KInt && kind_of(*y)
            == NodeKind::KInt,
        Node::Cmp(_, _, x, y) => wf(*x) && wf(*y) && kind_of(*x) == NodeKind::KInt && kind_of(*y)
            == NodeKind::KInt,
        Node::Conv(_, x) => wf(*x) && kind_of(*x) == NodeKind::KInt,
        Node::BoolLit(_) => true,
        Node::LAnd(x, y) => wf(*x) && wf(*y) && kind_of(*x) == NodeKind::KBool && kind_of(*y)
            == NodeKind::KBool,
        Node::LOr(x, y) => wf(*x) && wf(*y) && kind_of(*x) == NodeKind::KBool && kind_of(*y)
            == NodeKind::KBool,
        Node::Tuple(_, f, v) => wf(*f) && wf(*v) && kind_of(*f) == NodeKind::KBool && kind_of(*v)
            == NodeKind::KInt,
    }
}

/// Value kind of a node, computed executably.
pub fn node_kind(n: &Node) -> (k: NodeKind)
    ensures
        k == kind_of(*n),
{
    match n {
        Node::Lit(_, _) => NodeKind::KInt,
        Node::ExtConst(_, _) => NodeKind::KInt,
        Node::Bin(_, _, _, _) => NodeKind::KInt,
        Node::Cmp(_, _, _, _) => NodeKind::KBool,
        Node::Conv(_, _) => NodeKind::KInt,
        Node::BoolLit(_) => NodeKind::KBool,
        Node::LAnd(_, _) => NodeKind::KBool,
        Node::LOr(_, _) => NodeKind::KBool,
        Node::Tuple(_, _, _) => NodeKind::KRec,
    }
}

/// Well-formedness, computed executably, so that unverified callers can
/// establish the preconditions of the lowering entry points at run time.
pub fn is_well_formed(n: &Node) -> (b: bool)
    ensures
        b == wf(*n),
    decreases *n,
{
    match n {
        Node::Lit(_, _) => true,
        Node::ExtConst(_, _) => true,
        Node::Bin(_, _, x, y) => is_well_formed(x) && is_well_formed(y) && node_kind(x)
            == NodeKind::KInt && node_kind(y) == NodeKind::KInt,
        Node::Cmp(_, _, x, y) => is_well_formed(x) && is_well_formed(y) && node_kind(x)
            == NodeKind::KInt && node_kind(y) == NodeKind::KInt,
        Node::Conv(_, x) => is_well_formed(x) && node_kind(x) == NodeKind::KInt,
        Node::BoolLit(_) => true,
        Node::LAnd(x, y) => is_well_formed(x) && is_well_formed(y) && node_kind(x)
            == NodeKind::KBool && node_kind(y) == NodeKind::KBool,
        Node::LOr(x, y) => is_well_formed(x) && is_well_formed(y) && node_kind(x)
            == NodeKind::KBool && node_kind(y) == NodeKind::KBool,
        Node::Tuple(_, f, v) => is_well_formed(f) && is_well_formed(v) && node_kind(f)
            == NodeKind::KBool && node_kind(v) == NodeKind::KInt,
    }
}

/// Relies on std's `Rc::clone`: returns a second handle to the same shared
/// node, so the duplicate is equal to the original and cheap to make.
#[verifier::external_body]
pub fn share(n: &Rc<Node>) -> (r: Rc<Node>)
    ensures
        r == *n,
{
    Rc::clone(n)
}

} // verus!
