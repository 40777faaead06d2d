//! Constant provider: the zero, minimum, and maximum representable value
//! instruction for each integer type.
//!
//! Widths up to 64 bits and the pointer-sized types get literal nodes
//! carrying the exact bit pattern; the 128-bit types have no native
//! literal, so their constants are call nodes invoking the
//! extended-precision type's zero constructor or min/max accessor. The
//! contracts pin both the denoted value and that node form.

use vstd::prelude::*;
use crate::node::{kind_of, wf, ConstKind, Node, NodeKind};
use crate::sem::sem_i;
use crate::ty::{card, max_int, min_int, IntType, WidthClass};

verus! {

/// The literal bit pattern of the type's minimum at the widths that have
/// a native literal: the sign bit alone when signed, zero when unsigned.
pub open spec fn min_pattern(t: IntType) -> u128 {
    if t.signed {
        (card(t) / 2) as u128
    } else {
        0
    }
}

/// The literal bit pattern of the type's maximum at the widths that have
/// a native literal: every value bit set, without the sign bit when
/// signed.
pub open spec fn max_pattern(t: IntType) -> u128 {
    if t.signed {
        (card(t) / 2 - 1) as u128
    } else {
        (card(t) - 1) as u128
    }
}

/// Zero of the given integer type: a literal node of that type up to
/// 64 bits and pointer-sized, the extended-precision zero constructor
/// call at 128 bits.
pub fn zero(t: IntType) -> (r: Node)
    ensures
        wf(r),
        kind_of(r) == NodeKind::KInt,
        sem_i(r) == 0,
        t.width == WidthClass::W128 ==> r == Node::ExtConst(t, ConstKind::KZero),
        t.width != WidthClass::W128 ==> r == Node::Lit(t, 0),
{
    match t.width {
        WidthClass::W128 => Node::ExtConst(t, ConstKind::KZero),
        _ => Node::Lit(t, 0),
    }
}

/// Minimum representable value of the given integer type: a literal node
/// of that type carrying the exact bit pattern up to 64 bits and
/// pointer-sized, the extended-precision minimum accessor call at
/// 128 bits.
pub fn min(t: IntType) -> (r: Node)
    ensures
        wf(r),
        kind_of(r) == NodeKind::KInt,
        sem_i(r) == min_int(t),
        t.width == WidthClass::W128 ==> r == Node::ExtConst(t, ConstKind::KMin),
        t.width != WidthClass::W128 ==> r == Node::Lit(t, min_pattern(t)),
{
    if t.signed {
        match t.width {
            WidthClass::W8 => Node::Lit(t, 0x80),
            WidthClass::W16 => Node::Lit(t, 0x8000),
            WidthClass::W32 => Node::Lit(t, 0x8000_0000),
            WidthClass::W64 => Node::Lit(t, 0x8000_0000_0000_0000),
            WidthClass::WPtr => Node::Lit(t, 0x8000_0000_0000_0000),
            WidthClass::W128 => Node::ExtConst(t, ConstKind::KMin),
        }
    } else {
        match t.width {
            WidthClass::W128 => Node::ExtConst(t, ConstKind::KMin),
            _ => Node::Lit(t, 0),
        }
    }
}

/// Maximum representable value of the given integer type: a literal node
/// of that type carrying the exact bit pattern up to 64 bits and
/// pointer-sized, the extended-precision maximum accessor call at
/// 128 bits.
pub fn max(t: IntType) -> (r: Node)
    ensures
        wf(r),
        kind_of(r) == NodeKind::KInt,
        sem_i(r) == max_int(t),
        t.width == WidthClass::W128 ==> r == Node::ExtConst(t, ConstKind::KMax),
        t.width != WidthClass::W128 ==> r == Node::Lit(t, max_pattern(t)),
{
    let r = if t.signed {
        match t.width {
            WidthClass::W8 => Node::Lit(t, 0x7f),
            WidthClass::W16 => Node::Lit(t, 0x7fff),
            WidthClass::W32 => Node::Lit(t, 0x7fff_ffff),
            WidthClass::W64 => Node::Lit(t, 0x7fff_ffff_ffff_ffff),
            WidthClass::WPtr => Node::Lit(t, 0x7fff_ffff_ffff_ffff),
            WidthClass::W128 => Node::ExtConst(t, ConstKind::KMax),
        }
    } else {
        match t.width {
            WidthClass::W8 => Node::Lit(t, 0xff),
            WidthClass::W16 => Node::Lit(t, 0xffff),
            WidthClass::W32 => Node::Lit(t, 0xffff_ffff),
            WidthClass::W64 => Node::Lit(t, 0xffff_ffff_ffff_ffff),
            WidthClass::WPtr => Node::Lit(t, 0xffff_ffff_ffff_ffff),
            WidthClass::W128 => Node::ExtConst(t, ConstKind::KMax),
        }
    };
    proof {
        if t.width != WidthClass::W128 {
            assert(r == Node::Lit(t, max_pattern(t)));
            assert(max_pattern(t) as int == max_int(t));
            crate::ty::lemma_wrap_id(t, max_int(t));
            assert(sem_i(r) == max_int(t));
        }
    }
    r
}

} // verus!
