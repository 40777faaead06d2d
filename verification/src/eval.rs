//! An executable evaluator for instruction trees, proved to agree with
//! the mathematical semantics. Integer values are carried as `u128` or
//! `i128` machine words, which cover every supported width.

use vstd::prelude::*;
use crate::node::{kind_of, wf, BinKind, CmpKind, ConstKind, Node, NodeKind};
use crate::sem::{rec_flag, rec_ty, rec_val, sem_b, sem_i, to_bits};
use crate::ty::{
    card, lemma_wrap_above, lemma_wrap_below, lemma_wrap_id, lemma_wrap_nested, max_int, min_int,
    wrap, IntType, WidthClass,
};

verus! {

/// A run-time value of an instruction tree: an unsigned or signed
/// integer, a boolean flag, or the packaged (value, flag) record of a
/// checked operation.
#[derive(Clone, Copy, PartialEq, Eq, Debug)]
pub enum CVal {
    Uns(u128),
    Sgn(i128),
    Flag(bool),
    RecUns(u128, bool),
    RecSgn(i128, bool),
}

/// The mathematical integer a run-time integer value denotes.
pub open spec fn cval_int(v: CVal) -> int {
    match v {
        CVal::Uns(u) => u as int,
        CVal::Sgn(i) => i as int,
        _ => 0,
    }
}

/// A run-time record value agrees with the packaged record node `n`:
/// same numeric field, same flag field, and the numeric representation
/// follows the record type's signedness.
pub open spec fn cval_matches_rec(v: CVal, n: Node) -> bool {
    match v {
        CVal::RecUns(u, f) => !rec_ty(n).signed && u as int == rec_val(n) && f == rec_flag(n),
        CVal::RecSgn(i, f) => rec_ty(n).signed && i as int == rec_val(n) && f == rec_flag(n),
        _ => false,
    }
}

/// All-ones bit mask of the type's width: its cardinality less one.
fn mask_of(t: IntType) -> (m: u128)
    ensures
        m as int == card(t) - 1,
{
    match t.width {
        WidthClass::W8 => 0xff,
        WidthClass::W16 => 0xffff,
        WidthClass::W32 => 0xffff_ffff,
        WidthClass::W64 => 0xffff_ffff_ffff_ffff,
        WidthClass::WPtr => 0xffff_ffff_ffff_ffff,
        WidthClass::W128 => u128::MAX,
    }
}

/// Interprets a 128-bit word at the given type: keeps the low bits of the
/// type's width and sign-extends when the type is signed. The result is
/// the word's value wrapped into the type's range.
fn decode(t: IntType, bits: u128) -> (v: CVal)
    ensures
        cval_int(v) == wrap(t, bits as int),
        t.signed ==> v is Sgn,
        !t.signed ==> v is Uns,
{
    let m = mask_of(t);
    let low = bits & m;
    proof {
        match t.width {
            WidthClass::W8 => {
                assert(bits & 0xff == bits % 0x100) by (bit_vector);
            },
            WidthClass::W16 => {
                assert(bits & 0xffff == bits % 0x1_0000) by (bit_vector);
            },
            WidthClass::W32 => {
                assert(bits & 0xffff_ffff == bits % 0x1_0000_0000) by (bit_vector);
            },
            WidthClass::W64 => {
                assert(bits & 0xffff_ffff_ffff_ffff == bits % 0x1_0000_0000_0000_0000)
                    by (bit_vector);
            },
            WidthClass::WPtr => {
                assert(bits & 0xffff_ffff_ffff_ffff == bits % 0x1_0000_0000_0000_0000)
                    by (bit_vector);
            },
            WidthClass::W128 => {
                assert(bits & 0xffff_ffff_ffff_ffff_ffff_ffff_ffff_ffff == bits) by (bit_vector);
                vstd::arithmetic::div_mod::lemma_small_mod(
                    bits as nat,
                    0x1_0000_0000_0000_0000_0000_0000_0000_0000nat,
                );
            },
        }
        assert(low as int == (bits as int) % card(t));
    }
    if !t.signed {
        CVal::Uns(low)
    } else {
        let half = m / 2 + 1;
        assert(2 * (half as int) == card(t));
        if low < half {
            CVal::Sgn(low as i128)
        } else {
            CVal::Sgn(-((m - low) as i128) - 1)
        }
    }
}

/// Encodes a run-time integer value as a 128-bit word: its value reduced
/// modulo two to the 128th power.
fn encode(v: CVal) -> (bits: u128)
    requires
        v is Uns || v is Sgn,
    ensures
        bits == to_bits(cval_int(v)),
        bits as int % 0x1_0000_0000_0000_0000_0000_0000_0000_0000int == cval_int(v)
            % 0x1_0000_0000_0000_0000_0000_0000_0000_0000int,
{
    let two128m1: u128 = u128::MAX;
    match v {
        CVal::Uns(u) => {
            proof {
                vstd::arithmetic::div_mod::lemma_small_mod(
                    u as nat,
                    0x1_0000_0000_0000_0000_0000_0000_0000_0000nat,
                );
            }
            u
        },
        CVal::Sgn(i) => {
            if i >= 0 {
                proof {
                    vstd::arithmetic::div_mod::lemma_small_mod(
                        i as nat,
                        0x1_0000_0000_0000_0000_0000_0000_0000_0000nat,
                    );
                }
                i as u128
            } else {
                let r = two128m1 - ((-(i + 1)) as u128);
                proof {
                    let c = 0x1_0000_0000_0000_0000_0000_0000_0000_0000int;
                    assert(r as int == i + c);
                    assert((i + c) % c == (i as int) % c) by {
                        vstd::arithmetic::div_mod::lemma_mod_add_multiples_vanish(i as int, c);
                    }
                    vstd::arithmetic::div_mod::lemma_small_mod((i + c) as nat, c as nat);
                }
                r
            }
        },
        _ => 0,
    }
}

/// Wrapping a value congruent to `v` modulo two to the 128th power at any
/// supported type gives the same result as wrapping `v` itself, because
/// every supported cardinality divides that modulus.
proof fn lemma_wrap_of_bits(t: IntType, v: int, bits: u128)
    requires
        bits as int % 0x1_0000_0000_0000_0000_0000_0000_0000_0000int == v
            % 0x1_0000_0000_0000_0000_0000_0000_0000_0000int,
    ensures
        wrap(t, bits as int) == wrap(t, v),
{
    let u = IntType { width: WidthClass::W128, signed: false };
    assert(card(u) % card(t) == 0);
    vstd::arithmetic::div_mod::lemma_small_mod(
        bits as nat,
        0x1_0000_0000_0000_0000_0000_0000_0000_0000nat,
    );
    assert(wrap(u, bits as int) == wrap(u, v));
    lemma_wrap_nested(t, u, bits as int);
    lemma_wrap_nested(t, u, v);
}

/// Comparison of two run-time integer values as mathematical integers.
fn cval_lt(x: &CVal, y: &CVal) -> (r: bool)
    requires
        *x is Uns || *x is Sgn,
        *y is Uns || *y is Sgn,
    ensures
        r == (cval_int(*x) < cval_int(*y)),
{
    match (x, y) {
        (CVal::Uns(a), CVal::Uns(b)) => *a < *b,
        (CVal::Sgn(a), CVal::Sgn(b)) => *a < *b,
        (CVal::Uns(a), CVal::Sgn(b)) => if *b < 0 {
            false
        } else {
            *a < (*b as u128)
        },
        (CVal::Sgn(a), CVal::Uns(b)) => if *a < 0 {
            true
        } else {
            (*a as u128) < *b
        },
        _ => false,
    }
}

/// The canonical zero, minimum, or maximum of a type, as a run-time value.
fn const_val(t: IntType, k: ConstKind) -> (v: CVal)
    ensures
        t.signed ==> v is Sgn,
        !t.signed ==> v is Uns,
        cval_int(v) == (match k {
            ConstKind::KZero => 0,
            ConstKind::KMin => min_int(t),
            ConstKind::KMax => max_int(t),
        }),
{
    match k {
        ConstKind::KZero => if t.signed {
            CVal::Sgn(0)
        } else {
            CVal::Uns(0)
        },
        ConstKind::KMin => if t.signed {
            match t.width {
                WidthClass::W8 => CVal::Sgn(-0x80),
                WidthClass::W16 => CVal::Sgn(-0x8000),
                WidthClass::W32 => CVal::Sgn(-0x8000_0000),
                WidthClass::W64 => CVal::Sgn(-0x8000_0000_0000_0000),
                WidthClass::WPtr => CVal::Sgn(-0x8000_0000_0000_0000),
                WidthClass::W128 => CVal::Sgn(i128::MIN),
            }
        } else {
            CVal::Uns(0)
        },
        ConstKind::KMax => if t.signed {
            match t.width {
                WidthClass::W8 => CVal::Sgn(0x7f),
                WidthClass::W16 => CVal::Sgn(0x7fff),
                WidthClass::W32 => CVal::Sgn(0x7fff_ffff),
                WidthClass::W64 => CVal::Sgn(0x7fff_ffff_ffff_ffff),
                WidthClass::WPtr => CVal::Sgn(0x7fff_ffff_ffff_ffff),
                WidthClass::W128 => CVal::Sgn(i128::MAX),
            }
        } else {
            match t.width {
                WidthClass::W8 => CVal::Uns(0xff),
                WidthClass::W16 => CVal::Uns(0xffff),
                WidthClass::W32 => CVal::Uns(0xffff_ffff),
                WidthClass::W64 => CVal::Uns(0xffff_ffff_ffff_ffff),
                WidthClass::WPtr => CVal::Uns(0xffff_ffff_ffff_ffff),
                WidthClass::W128 => CVal::Uns(u128::MAX),
            }
        },
    }
}

/// Modular addition of two 128-bit words.
fn wrap_add128(x: u128, y: u128) -> (r: u128)
    ensures
        r as int == (x + y) % 0x1_0000_0000_0000_0000_0000_0000_0000_0000int,
{
    let r = x.wrapping_add(y);
    proof {
        let u = IntType { width: WidthClass::W128, signed: false };
        if x + y <= u128::MAX {
            lemma_wrap_id(u, x + y);
        } else {
            lemma_wrap_above(u, x + y);
        }
    }
    r
}

/// Modular subtraction of two 128-bit words.
fn wrap_sub128(x: u128, y: u128) -> (r: u128)
    ensures
        r as int == (x - y) % 0x1_0000_0000_0000_0000_0000_0000_0000_0000int,
{
    let r = x.wrapping_sub(y);
    proof {
        let u = IntType { width: WidthClass::W128, signed: false };
        if x >= y {
            lemma_wrap_id(u, x - y);
        } else {
            lemma_wrap_below(u, x - y);
        }
    }
    r
}

/// Modular multiplication of two 128-bit words.
fn wrap_mul128(x: u128, y: u128) -> (r: u128)
    ensures
        r as int == (x * y) % 0x1_0000_0000_0000_0000_0000_0000_0000_0000int,
{
    let r = x.wrapping_mul(y);
    proof {
        let c = 0x1_0000_0000_0000_0000_0000_0000_0000_0000int;
        assert(x * y >= 0) by (nonlinear_arith)
            requires
                x >= 0,
                y >= 0,
        ;
        assert((x as nat * y as nat) % (c as nat) == ((x * y) % c) as nat);
    }
    r
}

/// Evaluates a well-formed instruction tree: integer nodes yield their
/// mathematical value, boolean nodes their truth value, and a packaged
/// record both of its fields, exactly as the semantics prescribes.
#[verifier::rlimit(100)]
pub fn eval(n: &Node) -> (v: CVal)
    requires
        wf(*n),
    ensures
        kind_of(*n) == NodeKind::KInt ==> (v is Uns || v is Sgn) && cval_int(v) == sem_i(*n),
        kind_of(*n) == NodeKind::KBool ==> v == CVal::Flag(sem_b(*n)),
        kind_of(*n) == NodeKind::KRec ==> cval_matches_rec(v, *n),
    decreases *n,
{
    match n {
        Node::Lit(t, bits) => decode(*t, *bits),
        Node::ExtConst(t, k) => const_val(*t, *k),
        Node::Bin(k, t, x, y) => {
            let vx = eval(x);
            let vy = eval(y);
            let bx = encode(vx);
            let by = encode(vy);
            let rbits = match k {
                BinKind::Add => wrap_add128(bx, by),
                BinKind::Sub => wrap_sub128(bx, by),
                BinKind::Mul => wrap_mul128(bx, by),
                BinKind::BitOr => bx | by,
            };
            proof {
                let c = 0x1_0000_0000_0000_0000_0000_0000_0000_0000int;
                let a = cval_int(vx);
                let b = cval_int(vy);
                match k {
                    BinKind::Add => {
                        assert((bx + by) % c == (a + b) % c) by {
                            vstd::arithmetic::div_mod::lemma_add_mod_noop(bx as int, by as int, c);
                            vstd::arithmetic::div_mod::lemma_add_mod_noop(a, b, c);
                            vstd::arithmetic::div_mod::lemma_small_mod(bx as nat, c as nat);
                            vstd::arithmetic::div_mod::lemma_small_mod(by as nat, c as nat);
                        }
                        lemma_wrap_of_bits(*t, a + b, rbits);
                    },
                    BinKind::Sub => {
                        assert((bx - by) % c == (a - b) % c) by {
                            vstd::arithmetic::div_mod::lemma_sub_mod_noop(bx as int, by as int, c);
                            vstd::arithmetic::div_mod::lemma_sub_mod_noop(a, b, c);
                            vstd::arithmetic::div_mod::lemma_small_mod(bx as nat, c as nat);
                            vstd::arithmetic::div_mod::lemma_small_mod(by as nat, c as nat);
                        }
                        lemma_wrap_of_bits(*t, a - b, rbits);
                    },
                    BinKind::Mul => {
                        assert((bx * by) % c == (a * b) % c) by {
                            vstd::arithmetic::div_mod::lemma_mul_mod_noop_general(
                                bx as int,
                                by as int,
                                c,
                            );
                            vstd::arithmetic::div_mod::lemma_mul_mod_noop_general(a, b, c);
                            vstd::arithmetic::div_mod::lemma_small_mod(bx as nat, c as nat);
                            vstd::arithmetic::div_mod::lemma_small_mod(by as nat, c as nat);
                        }
                        lemma_wrap_of_bits(*t, a * b, rbits);
                    },
                    BinKind::BitOr => {
                        assert(rbits == (to_bits(a) | to_bits(b)));
                        vstd::arithmetic::div_mod::lemma_small_mod(rbits as nat, c as nat);
                    },
                }
            }
            decode(*t, rbits)
        },
        Node::Cmp(k, _t, x, y) => {
            let vx = eval(x);
            let vy = eval(y);
            match k {
                CmpKind::Lt => CVal::Flag(cval_lt(&vx, &vy)),
                CmpKind::Gt => CVal::Flag(cval_lt(&vy, &vx)),
            }
        },
        Node::Conv(t, x) => {
            let vx = eval(x);
            let bits = encode(vx);
            proof {
                lemma_wrap_of_bits(*t, cval_int(vx), bits);
            }
            decode(*t, bits)
        },
        Node::BoolLit(b) => CVal::Flag(*b),
        Node::LAnd(x, y) => {
            let vx = eval(x);
            let vy = eval(y);
            let bx = match vx {
                CVal::Flag(b) => b,
                _ => false,
            };
            let by = match vy {
                CVal::Flag(b) => b,
                _ => false,
            };
            CVal::Flag(bx && by)
        },
        Node::LOr(x, y) => {
            let vx = eval(x);
            let vy = eval(y);
            let bx = match vx {
                CVal::Flag(b) => b,
                _ => false,
            };
            let by = match vy {
                CVal::Flag(b) => b,
                _ => false,
            };
            CVal::Flag(bx || by)
        },
        Node::Tuple(t, f, vn) => {
            let vf = eval(f);
            let vv = eval(vn);
            let bits = encode(vv);
            proof {
                lemma_wrap_of_bits(*t, cval_int(vv), bits);
            }
            let w = decode(*t, bits);
            let fb = match vf {
                CVal::Flag(b) => b,
                _ => false,
            };
            match w {
                CVal::Sgn(i) => CVal::RecSgn(i, fb),
                CVal::Uns(u) => CVal::RecUns(u, fb),
                _ => CVal::Flag(false),
            }
        },
    }
}

} // verus!
