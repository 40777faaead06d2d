//! Integer types of the engine: width classes, signedness, value ranges,
//! and the two's-complement wrapping function that all contracts speak of.

use vstd::prelude::*;

verus! {

/// Bit-width classes the engine distinguishes. Pointer-sized integers are
/// modeled at the target's 64-bit pointer width.
#[derive(Clone, Copy, PartialEq, Eq, Structural, Debug)]
pub enum WidthClass {
    W8,
    W16,
    W32,
    W64,
    WPtr,
    W128,
}

/// An integer type: a width class together with its signedness.
#[derive(Clone, Copy, PartialEq, Eq, Structural, Debug)]
pub struct IntType {
    pub width: WidthClass,
    pub signed: bool,
}

/// Number of distinct values of the type: two to the power of its bit width.
pub open spec fn card(t: IntType) -> int {
    match t.width {
        WidthClass::W8 => 0x100,
        WidthClass::W16 => 0x1_0000,
        WidthClass::W32 => 0x1_0000_0000,
        WidthClass::W64 => 0x1_0000_0000_0000_0000,
        WidthClass::WPtr => 0x1_0000_0000_0000_0000,
        WidthClass::W128 => 0x1_0000_0000_0000_0000_0000_0000_0000_0000int,
    }
}

/// Smallest representable value of the type.
pub open spec fn min_int(t: IntType) -> int {
    if t.signed {
        -(card(t) / 2)
    } else {
        0
    }
}

/// Largest representable value of the type.
pub open spec fn max_int(t: IntType) -> int {
    if t.signed {
        card(t) / 2 - 1
    } else {
        card(t) - 1
    }
}

/// Whether `v` is representable in `t`.
pub open spec fn in_range(t: IntType, v: int) -> bool {
    min_int(t) <= v <= max_int(t)
}

/// Two's-complement (modular) reduction of `v` into the range of `t`.
pub open spec fn wrap(t: IntType, v: int) -> int {
    let m = v % card(t);
    if t.signed && m >= card(t) / 2 {
        m - card(t)
    } else {
        m
    }
}

/// The wrapped value always lies in the type's range.
pub proof fn lemma_wrap_in_range(t: IntType, v: int)
    ensures
        in_range(t, wrap(t, v)),
{
    let c = card(t);
    assert(c > 0);
    assert(0 <= v % c < c) by {
        vstd::arithmetic::div_mod::lemma_mod_bound(v, c);
    }
}

/// Wrapping a representable value returns it unchanged.
pub proof fn lemma_wrap_id(t: IntType, v: int)
    requires
        in_range(t, v),
    ensures
        wrap(t, v) == v,
{
    let c = card(t);
    if t.signed {
        if v >= 0 {
            vstd::arithmetic::div_mod::lemma_small_mod(v as nat, c as nat);
        } else {
            assert((v + c) % c == v % c) by {
                vstd::arithmetic::div_mod::lemma_mod_add_multiples_vanish(v, c);
            }
            vstd::arithmetic::div_mod::lemma_small_mod((v + c) as nat, c as nat);
        }
    } else {
        vstd::arithmetic::div_mod::lemma_small_mod(v as nat, c as nat);
    }
}

/// Values congruent modulo the type's cardinality wrap to the same value.
pub proof fn lemma_wrap_congruent(t: IntType, v: int, w: int)
    requires
        v % card(t) == w % card(t),
    ensures
        wrap(t, v) == wrap(t, w),
{
}

/// Wrapping twice is the same as wrapping once.
pub proof fn lemma_wrap_twice(t: IntType, v: int)
    ensures
        wrap(t, wrap(t, v)) == wrap(t, v),
{
    lemma_wrap_in_range(t, v);
    lemma_wrap_id(t, wrap(t, v));
}

/// A value one cardinality above the range wraps by subtracting the
/// cardinality.
pub proof fn lemma_wrap_above(t: IntType, v: int)
    requires
        max_int(t) < v <= max_int(t) + card(t),
    ensures
        wrap(t, v) == v - card(t),
{
    let c = card(t);
    assert(in_range(t, v - c));
    assert((v - c) % c == v % c) by {
        vstd::arithmetic::div_mod::lemma_mod_add_multiples_vanish(v - c, c);
    }
    lemma_wrap_id(t, v - c);
}

/// A value one cardinality below the range wraps by adding the
/// cardinality.
pub proof fn lemma_wrap_below(t: IntType, v: int)
    requires
        min_int(t) - card(t) <= v < min_int(t),
    ensures
        wrap(t, v) == v + card(t),
{
    let c = card(t);
    assert(in_range(t, v + c));
    assert((v + c) % c == v % c) by {
        vstd::arithmetic::div_mod::lemma_mod_add_multiples_vanish(v, c);
    }
    lemma_wrap_id(t, v + c);
}

/// Wrapping at a wider type whose cardinality is a multiple of the
/// narrower one's, then at the narrower type, is the same as wrapping at
/// the narrower type directly.
pub proof fn lemma_wrap_nested(t: IntType, w: IntType, v: int)
    requires
        card(w) % card(t) == 0,
    ensures
        wrap(t, wrap(w, v)) == wrap(t, v),
{
    let ct = card(t);
    let cw = card(w);
    let k = cw / ct;
    vstd::arithmetic::div_mod::lemma_fundamental_div_mod(cw, ct);
    assert(cw == ct * k);
    let m = v % cw;
    assert(m % ct == v % ct) by {
        vstd::arithmetic::div_mod::lemma_mod_mod(v, ct, k);
    }
    if w.signed && m >= cw / 2 {
        assert((m - cw) % ct == m % ct) by {
            vstd::arithmetic::div_mod::lemma_mod_multiples_vanish(-k, m, ct);
        }
    }
    lemma_wrap_congruent(t, wrap(w, v), v);
}

/// Semantic types as the surrounding type system presents them to the
/// engine: the recognized integer kinds and the non-integer kinds that
/// the classifier must reject.
#[derive(Clone, Copy, PartialEq, Eq, Structural, Debug)]
pub enum SemTy {
    U8,
    U16,
    U32,
    U64,
    Usize,
    U128,
    I8,
    I16,
    I32,
    I64,
    Isize,
    I128,
    Bool,
    Char,
    Other,
}

/// Failure conditions of the engine. Both are fatal: they signal a caller
/// defect or an engine-coverage gap, never a recoverable runtime state.
#[derive(Clone, Copy, PartialEq, Eq, Structural, Debug)]
pub enum LowerError {
    /// The operand's semantic type is not a recognized integer kind.
    UnsupportedType,
    /// The dispatcher received an operation kind it does not lower.
    UnsupportedOperation,
}

/// Width class and signedness of a recognized integer kind; `None` for
/// every other semantic type.
pub open spec fn classify_spec(t: SemTy) -> Option<IntType> {
    match t {
        SemTy::U8 => Some(IntType { width: WidthClass::W8, signed: false }),
        SemTy::U16 => Some(IntType { width: WidthClass::W16, signed: false }),
        SemTy::U32 => Some(IntType { width: WidthClass::W32, signed: false }),
        SemTy::U64 => Some(IntType { width: WidthClass::W64, signed: false }),
        SemTy::Usize => Some(IntType { width: WidthClass::WPtr, signed: false }),
        SemTy::U128 => Some(IntType { width: WidthClass::W128, signed: false }),
        SemTy::I8 => Some(IntType { width: WidthClass::W8, signed: true }),
        SemTy::I16 => Some(IntType { width: WidthClass::W16, signed: true }),
        SemTy::I32 => Some(IntType { width: WidthClass::W32, signed: true }),
        SemTy::I64 => Some(IntType { width: WidthClass::W64, signed: true }),
        SemTy::Isize => Some(IntType { width: WidthClass::WPtr, signed: true }),
        SemTy::I128 => Some(IntType { width: WidthClass::W128, signed: true }),
        SemTy::Bool => None,
        SemTy::Char => None,
        SemTy::Other => None,
    }
}

/// Type classifier: maps a semantic integer type to its width class and
/// signedness, and rejects every non-integer kind as `UnsupportedType`.
pub fn classify(t: SemTy) -> (r: Result<IntType, LowerError>)
    ensures
        match classify_spec(t) {
            Some(it) => r == Ok::<IntType, LowerError>(it),
            None => r == Err::<IntType, LowerError>(LowerError::UnsupportedType),
        },
{
    match t {
        SemTy::U8 => Ok(IntType { width: WidthClass::W8, signed: false }),
        SemTy::U16 => Ok(IntType { width: WidthClass::W16, signed: false }),
        SemTy::U32 => Ok(IntType { width: WidthClass::W32, signed: false }),
        SemTy::U64 => Ok(IntType { width: WidthClass::W64, signed: false }),
        SemTy::Usize => Ok(IntType { width: WidthClass::WPtr, signed: false }),
        SemTy::U128 => Ok(IntType { width: WidthClass::W128, signed: false }),
        SemTy::I8 => Ok(IntType { width: WidthClass::W8, signed: true }),
        SemTy::I16 => Ok(IntType { width: WidthClass::W16, signed: true }),
        SemTy::I32 => Ok(IntType { width: WidthClass::W32, signed: true }),
        SemTy::I64 => Ok(IntType { width: WidthClass::W64, signed: true }),
        SemTy::Isize => Ok(IntType { width: WidthClass::WPtr, signed: true }),
        SemTy::I128 => Ok(IntType { width: WidthClass::W128, signed: true }),
        SemTy::Bool => Err(LowerError::UnsupportedType),
        SemTy::Char => Err(LowerError::UnsupportedType),
        SemTy::Other => Err(LowerError::UnsupportedType),
    }
}

} // verus!
