//! Exhaustive correctness at the 8-bit widths, dense coverage at 16 bits,
//! and sampled correctness at the 32/64-bit and pointer-sized widths,
//! all against exact big-integer arithmetic.

use checked_lowering::eval::{eval, CVal};
use checked_lowering::lower::{binop_checked, BinOp};
use checked_lowering::node::Node;
use checked_lowering::ty::{classify, SemTy};

const OPS: [BinOp; 3] = [BinOp::Add, BinOp::Sub, BinOp::Mul];

/// Expected (value, flag) of an unsigned checked operation at width `w`,
/// from exact arithmetic.
fn oracle_u(op: BinOp, a: u128, b: u128, w: u32) -> (u128, bool) {
    let card: u128 = 1u128 << w;
    let mask = card - 1;
    match op {
        BinOp::Add => {
            let s = a + b;
            (s & mask, s > mask)
        }
        BinOp::Sub => (a.wrapping_sub(b) & mask, a < b),
        BinOp::Mul => {
            let p = a * b;
            (p & mask, p > mask)
        }
        _ => unreachable!(),
    }
}

/// Expected (value, flag) of a signed checked operation at width `w`.
/// The one documented exception to flag-equals-out-of-range: adding the
/// type minimum to itself wraps exactly to zero and is left unflagged by
/// the strict-sign predicate.
fn oracle_i(op: BinOp, a: i128, b: i128, w: u32) -> (i128, bool) {
    let card: i128 = 1i128 << w;
    let half = card / 2;
    let (min, max) = (-half, half - 1);
    let exact = match op {
        BinOp::Add => a + b,
        BinOp::Sub => a - b,
        BinOp::Mul => a * b,
        _ => unreachable!(),
    };
    let mut v = exact.rem_euclid(card);
    if v >= half {
        v -= card;
    }
    let mut flag = exact < min || exact > max;
    if op == BinOp::Add && a == min && b == min {
        flag = false;
    }
    (v, flag)
}

fn check_u(op: BinOp, a: u128, b: u128, ty: SemTy, w: u32) {
    let t = classify(ty).unwrap();
    let (node, _) = binop_checked(op, Node::Lit(t, a), Node::Lit(t, b), ty).unwrap();
    match eval(&node) {
        CVal::RecUns(v, f) => {
            let (ev, ef) = oracle_u(op, a, b, w);
            assert_eq!(
                (v, f),
                (ev, ef),
                "op {:?} on {} and {} at unsigned width {}",
                op,
                a,
                b,
                w
            );
        }
        other => panic!("expected an unsigned record, got {:?}", other),
    }
}

fn check_i(op: BinOp, a: i128, b: i128, ty: SemTy, w: u32) {
    let t = classify(ty).unwrap();
    let (node, _) = binop_checked(op, Node::Lit(t, a as u128), Node::Lit(t, b as u128), ty)
        .unwrap();
    match eval(&node) {
        CVal::RecSgn(v, f) => {
            let (ev, ef) = oracle_i(op, a, b, w);
            assert_eq!(
                (v, f),
                (ev, ef),
                "op {:?} on {} and {} at signed width {}",
                op,
                a,
                b,
                w
            );
        }
        other => panic!("expected a signed record, got {:?}", other),
    }
}

struct Lcg(u64);

impl Lcg {
    fn next(&mut self) -> u64 {
        self.0 = self
            .0
            .wrapping_mul(6364136223846793005)
            .wrapping_add(1442695040888963407);
        self.0
    }
}

#[test]
fn exhaustive_u8() {
    for a in 0..=255u128 {
        for b in 0..=255u128 {
            for op in OPS {
                check_u(op, a, b, SemTy::U8, 8);
            }
        }
    }
}

#[test]
fn exhaustive_i8() {
    for a in -128..=127i128 {
        for b in -128..=127i128 {
            for op in OPS {
                check_i(op, a, b, SemTy::I8, 8);
            }
        }
    }
}

#[test]
fn dense_u16() {
    let vals: [u128; 14] = [
        0, 1, 2, 3, 127, 128, 255, 256, 257, 32767, 32768, 65534, 65535, 40000,
    ];
    for &a in &vals {
        for &b in &vals {
            for op in OPS {
                check_u(op, a, b, SemTy::U16, 16);
            }
        }
    }
    let mut rng = Lcg(7);
    for _ in 0..4000 {
        let a = (rng.next() & 0xffff) as u128;
        let b = (rng.next() & 0xffff) as u128;
        for op in OPS {
            check_u(op, a, b, SemTy::U16, 16);
        }
    }
}

#[test]
fn dense_i16() {
    let vals: [i128; 14] = [
        -32768, -32767, -16384, -256, -129, -128, -1, 0, 1, 127, 128, 16384, 32766, 32767,
    ];
    for &a in &vals {
        for &b in &vals {
            for op in OPS {
                check_i(op, a, b, SemTy::I16, 16);
            }
        }
    }
    let mut rng = Lcg(11);
    for _ in 0..4000 {
        let a = (rng.next() & 0xffff) as i128 - 32768;
        let b = (rng.next() & 0xffff) as i128 - 32768;
        for op in OPS {
            check_i(op, a, b, SemTy::I16, 16);
        }
    }
}

fn boundary_u(w: u32) -> Vec<u128> {
    let max: u128 = (1u128 << w) - 1;
    vec![
        0,
        1,
        2,
        3,
        max - 1,
        max,
        max / 2,
        max / 2 + 1,
        (1u128 << (w / 2)) - 1,
        1u128 << (w / 2),
        (1u128 << (w / 2)) + 1,
    ]
}

fn boundary_i(w: u32) -> Vec<i128> {
    let half: i128 = 1i128 << (w - 1);
    let (min, max) = (-half, half - 1);
    vec![min, min + 1, min / 2, -2, -1, 0, 1, 2, max / 2, max - 1, max]
}

#[test]
fn sampled_u32() {
    for &a in &boundary_u(32) {
        for &b in &boundary_u(32) {
            for op in OPS {
                check_u(op, a, b, SemTy::U32, 32);
            }
        }
    }
    let mut rng = Lcg(13);
    for _ in 0..3000 {
        let a = (rng.next() & 0xffff_ffff) as u128;
        let b = (rng.next() & 0xffff_ffff) as u128;
        for op in OPS {
            check_u(op, a, b, SemTy::U32, 32);
        }
    }
}

#[test]
fn sampled_i32() {
    for &a in &boundary_i(32) {
        for &b in &boundary_i(32) {
            for op in OPS {
                check_i(op, a, b, SemTy::I32, 32);
            }
        }
    }
    let mut rng = Lcg(17);
    for _ in 0..3000 {
        let a = (rng.next() & 0xffff_ffff) as i128 - (1i128 << 31);
        let b = (rng.next() & 0xffff_ffff) as i128 - (1i128 << 31);
        for op in OPS {
            check_i(op, a, b, SemTy::I32, 32);
        }
    }
}

#[test]
fn sampled_u64_and_usize() {
    for ty in [SemTy::U64, SemTy::Usize] {
        for &a in &boundary_u(64) {
            for &b in &boundary_u(64) {
                for op in OPS {
                    check_u(op, a, b, ty, 64);
                }
            }
        }
        let mut rng = Lcg(19);
        for _ in 0..2000 {
            let a = rng.next() as u128;
            let b = rng.next() as u128;
            for op in OPS {
                check_u(op, a, b, ty, 64);
            }
        }
    }
}

#[test]
fn sampled_i64_and_isize() {
    for ty in [SemTy::I64, SemTy::Isize] {
        for &a in &boundary_i(64) {
            for &b in &boundary_i(64) {
                for op in OPS {
                    check_i(op, a, b, ty, 64);
                }
            }
        }
        let mut rng = Lcg(23);
        for _ in 0..2000 {
            let a = (rng.next() as i64) as i128;
            let b = (rng.next() as i64) as i128;
            for op in OPS {
                check_i(op, a, b, ty, 64);
            }
        }
    }
}
