//! The lowering engine: overflow predicate builders for checked addition,
//! subtraction and multiplication, the result packager, and the dispatcher.

use std::rc::Rc;
use vstd::prelude::*;
use crate::consts::{max, min, zero};
use crate::node::{kind_of, share, wf, BinKind, CmpKind, Node, NodeKind};
use crate::sem::{rec_flag, rec_ty, rec_val, sem_b, sem_i, to_bits};
use crate::ty::{
    card, classify, classify_spec, in_range, lemma_wrap_above, lemma_wrap_below, lemma_wrap_id, lemma_wrap_nested,
    lemma_wrap_twice, max_int, min_int, wrap, IntType, LowerError, SemTy, WidthClass,
};

verus! {

/// Binary operation kinds of the source intermediate representation. The
/// engine lowers the checked forms of `Add`, `Sub` and `Mul`; every other
/// kind reaching the dispatcher is an `UnsupportedOperation` condition.
#[derive(Clone, Copy, PartialEq, Eq, Structural, Debug)]
pub enum BinOp {
    Add,
    Sub,
    Mul,
    Div,
    Rem,
    BitXor,
    BitAnd,
    BitOr,
    Shl,
    Shr,
    Eq,
    Lt,
    Le,
    Ne,
    Ge,
    Gt,
    Offset,
}

/// Exact mathematical result of a checked operation, before wrapping.
pub open spec fn exact_result(op: BinOp, a: int, b: int) -> int {
    match op {
        BinOp::Add => a + b,
        BinOp::Sub => a - b,
        BinOp::Mul => a * b,
        _ => 0,
    }
}

/// The overflow flag the addition predicate computes for representable
/// operands. The signed predicate uses strict sign comparisons, so the one
/// out-of-range sum that wraps exactly to zero — twice the minimum — is
/// not flagged.
pub open spec fn add_overflows(t: IntType, a: int, b: int) -> bool {
    if t.signed {
        !in_range(t, a + b) && a + b != -card(t)
    } else {
        !in_range(t, a + b)
    }
}

/// The overflow flag the subtraction predicate computes for representable
/// operands: exactly whether the difference is unrepresentable.
pub open spec fn sub_overflows(t: IntType, a: int, b: int) -> bool {
    !in_range(t, a - b)
}

/// The overflow flag the multiplication strategies compute for
/// representable operands. The 128-bit width is the degraded path: its
/// flag is the constant false.
pub open spec fn mul_overflows(t: IntType, a: int, b: int) -> bool {
    if t.width == WidthClass::W128 {
        false
    } else {
        !in_range(t, a * b)
    }
}

/// The overflow flag of the checked operation `op` for representable
/// operands; false for operation kinds the engine does not lower.
pub open spec fn overflow_flag(op: BinOp, t: IntType, a: int, b: int) -> bool {
    match op {
        BinOp::Add => add_overflows(t, a, b),
        BinOp::Sub => sub_overflows(t, a, b),
        BinOp::Mul => mul_overflows(t, a, b),
        _ => false,
    }
}

/// `r` is the packaged record built from exactly this type, flag node and
/// value node.
pub open spec fn packaged(tpe: IntType, out_of_range: Node, val: Node, r: Node) -> bool {
    match r {
        Node::Tuple(t2, rf, rv) => t2 == tpe && *rf == out_of_range && *rv == val,
        _ => false,
    }
}

/// Result packager: allocates the scoped two-field record buffer, stores
/// the overflow flag and then the wrapped value through its address, and
/// reads the buffer back as one expression value. The record's ABI field
/// order is (value, overflow flag); the store into the value-typed field
/// truncates to the operand type.
pub fn result_tuple(tpe: IntType, out_of_range: Node, val: Node) -> (r: Node)
    ensures
        packaged(tpe, out_of_range, val, r),
        kind_of(r) == NodeKind::KRec,
        rec_ty(r) == tpe,
        rec_flag(r) == sem_b(out_of_range),
        rec_val(r) == wrap(tpe, sem_i(val)),
        wf(out_of_range) && wf(val) && kind_of(out_of_range) == NodeKind::KBool && kind_of(val)
            == NodeKind::KInt ==> wf(r),
{
    Node::Tuple(tpe, Rc::new(out_of_range), Rc::new(val))
}

/// Packaging is deterministic: two records packaged from the same
/// (type, flag, value) triple are structurally equal. No hidden state
/// affects the output.
pub proof fn lemma_result_tuple_deterministic(
    tpe: IntType,
    out_of_range: Node,
    val: Node,
    r1: Node,
    r2: Node,
)
    requires
        packaged(tpe, out_of_range, val, r1),
        packaged(tpe, out_of_range, val, r2),
    ensures
        r1 == r2,
{
}

/// The unsigned addition flag is correct: for representable operands the
/// wrapped sum is strictly below the operands' bitwise or exactly when the
/// true sum exceeds the type's maximum.
proof fn lemma_add_unsigned_flag(t: IntType, a: int, b: int)
    requires
        !t.signed,
        in_range(t, a),
        in_range(t, b),
    ensures
        (wrap(t, a + b) < wrap(t, (to_bits(a) | to_bits(b)) as int)) == (a + b > max_int(t)),
{
    let c = card(t);
    let m = max_int(t);
    let au = to_bits(a);
    let bu = to_bits(b);
    assert(au == a && bu == b) by {
        vstd::arithmetic::div_mod::lemma_small_mod(a as nat, 0x1_0000_0000_0000_0000_0000_0000_0000_0000nat);
        vstd::arithmetic::div_mod::lemma_small_mod(b as nat, 0x1_0000_0000_0000_0000_0000_0000_0000_0000nat);
    }
    let o = au | bu;
    assert(au <= (au | bu) && bu <= (au | bu) && (au | bu) <= au + bu) by (bit_vector);
    match t.width {
        WidthClass::W8 => {
            assert(au <= 0xff && bu <= 0xff ==> (au | bu) <= 0xff) by (bit_vector);
        },
        WidthClass::W16 => {
            assert(au <= 0xffff && bu <= 0xffff ==> (au | bu) <= 0xffff) by (bit_vector);
        },
        WidthClass::W32 => {
            assert(au <= 0xffff_ffff && bu <= 0xffff_ffff ==> (au | bu) <= 0xffff_ffff)
                by (bit_vector);
        },
        WidthClass::W64 => {
            assert(au <= 0xffff_ffff_ffff_ffff && bu <= 0xffff_ffff_ffff_ffff ==> (au | bu)
                <= 0xffff_ffff_ffff_ffff) by (bit_vector);
        },
        WidthClass::WPtr => {
            assert(au <= 0xffff_ffff_ffff_ffff && bu <= 0xffff_ffff_ffff_ffff ==> (au | bu)
                <= 0xffff_ffff_ffff_ffff) by (bit_vector);
        },
        WidthClass::W128 => {
        },
    }
    assert(o <= m);
    assert(in_range(t, o as int));
    lemma_wrap_id(t, o as int);
    if a + b <= m {
        lemma_wrap_id(t, a + b);
    } else {
        lemma_wrap_above(t, a + b);
        assert(wrap(t, a + b) == a + b - c);
        assert(a + b - c <= a - 1);
    }
}

/// Comparison of an integer node against zero of the same type.
fn cmp_zero(k: CmpKind, t: IntType, x: Rc<Node>) -> (r: Node)
    requires
        wf(*x),
        kind_of(*x) == NodeKind::KInt,
    ensures
        wf(r),
        kind_of(r) == NodeKind::KBool,
        sem_b(r) == (match k {
            CmpKind::Lt => sem_i(*x) < 0,
            CmpKind::Gt => sem_i(*x) > 0,
        }),
{
    let z = zero(t);
    let r = Node::Cmp(k, t, x, Rc::new(z));
    assert(wf(r));
    r
}

/// Logical-and node.
fn land(x: Node, y: Node) -> (r: Node)
    requires
        wf(x),
        wf(y),
        kind_of(x) == NodeKind::KBool,
        kind_of(y) == NodeKind::KBool,
    ensures
        wf(r),
        kind_of(r) == NodeKind::KBool,
        sem_b(r) == (sem_b(x) && sem_b(y)),
{
    let r = Node::LAnd(Rc::new(x), Rc::new(y));
    assert(wf(r));
    r
}

/// Logical-or node.
fn lor(x: Node, y: Node) -> (r: Node)
    requires
        wf(x),
        wf(y),
        kind_of(x) == NodeKind::KBool,
        kind_of(y) == NodeKind::KBool,
    ensures
        wf(r),
        kind_of(r) == NodeKind::KBool,
        sem_b(r) == (sem_b(x) || sem_b(y)),
{
    let r = Node::LOr(Rc::new(x), Rc::new(y));
    assert(wf(r));
    r
}

/// The signed addition flag is as documented: overflow occurs only when
/// both operands share a sign and the wrapped sum's sign strictly differs,
/// which reports every unrepresentable sum except twice the minimum, whose
/// wrapped sum is exactly zero and fails the strict comparison.
proof fn lemma_add_signed_flag(t: IntType, a: int, b: int)
    requires
        t.signed,
        in_range(t, a),
        in_range(t, b),
    ensures
        ({
            let s = wrap(t, a + b);
            ((a < 0 && b < 0 && s > 0) || (a > 0 && b > 0 && s < 0)) == add_overflows(t, a, b)
        }),
{
    let c = card(t);
    let h = c / 2;
    assert(c >= 0x100 && h * 2 == c);
    if in_range(t, a + b) {
        lemma_wrap_id(t, a + b);
    } else if a + b > max_int(t) {
        lemma_wrap_above(t, a + b);
    } else if a + b == -c {
        assert(a == -h && b == -h);
        assert((-c) % c == 0) by {
            vstd::arithmetic::div_mod::lemma_mod_multiples_vanish(-1, 0, c);
            vstd::arithmetic::div_mod::lemma_small_mod(0nat, c as nat);
        }
        assert(wrap(t, a + b) == 0);
    } else {
        lemma_wrap_below(t, a + b);
    }
}

/// The signed subtraction flag is correct: comparing the minuend against
/// the range bounds shifted by the subtrahend reports exactly the
/// unrepresentable differences, with no intermediate overflow in the
/// shifted bounds themselves.
proof fn lemma_sub_signed_flag(t: IntType, a: int, b: int)
    requires
        t.signed,
        in_range(t, a),
        in_range(t, b),
    ensures
        ((b > 0 && a < wrap(t, min_int(t) + b)) || (b < 0 && a > wrap(t, max_int(t) + b)))
            == sub_overflows(t, a, b),
{
    let c = card(t);
    let h = c / 2;
    assert(c >= 0x100 && h * 2 == c);
    if b > 0 {
        lemma_wrap_id(t, min_int(t) + b);
    }
    if b < 0 {
        lemma_wrap_id(t, max_int(t) + b);
    }
}

/// Checked signed addition: the wrapped sum is computed once; the flag
/// tests whether both operands are negative and the sum strictly positive,
/// or both positive and the sum strictly negative.
pub fn add_signed(ops_a: Node, ops_b: Node, t: IntType) -> (r: Node)
    requires
        t.signed,
        wf(ops_a),
        wf(ops_b),
        kind_of(ops_a) == NodeKind::KInt,
        kind_of(ops_b) == NodeKind::KInt,
    ensures
        wf(r),
        kind_of(r) == NodeKind::KRec,
        rec_ty(r) == t,
        rec_val(r) == wrap(t, sem_i(ops_a) + sem_i(ops_b)),
        in_range(t, sem_i(ops_a)) && in_range(t, sem_i(ops_b)) ==> rec_flag(r) == add_overflows(
            t,
            sem_i(ops_a),
            sem_i(ops_b),
        ),
{
    let ra = Rc::new(ops_a);
    let rb = Rc::new(ops_b);
    let res = Node::Bin(BinKind::Add, t, share(&ra), share(&rb));
    assert(wf(res));
    let rres = Rc::new(res);
    let neg = land(
        cmp_zero(CmpKind::Lt, t, share(&ra)),
        land(cmp_zero(CmpKind::Lt, t, share(&rb)), cmp_zero(CmpKind::Gt, t, share(&rres))),
    );
    let pos = land(
        cmp_zero(CmpKind::Gt, t, share(&ra)),
        land(cmp_zero(CmpKind::Gt, t, share(&rb)), cmp_zero(CmpKind::Lt, t, share(&rres))),
    );
    let flag = lor(neg, pos);
    let val = Node::Bin(BinKind::Add, t, ra, rb);
    proof {
        let a = sem_i(ops_a);
        let b = sem_i(ops_b);
        lemma_wrap_twice(t, a + b);
        if in_range(t, a) && in_range(t, b) {
            lemma_add_signed_flag(t, a, b);
        }
    }
    result_tuple(t, flag, val)
}

/// Checked signed subtraction: the flag reformulates the classic overflow
/// test as bound comparisons against `min(T) + b` and `max(T) + b`, which
/// both stay representable, side-stepping intermediate overflow in the
/// check itself.
pub fn sub_signed(ops_a: Node, ops_b: Node, t: IntType) -> (r: Node)
    requires
        t.signed,
        wf(ops_a),
        wf(ops_b),
        kind_of(ops_a) == NodeKind::KInt,
        kind_of(ops_b) == NodeKind::KInt,
    ensures
        wf(r),
        kind_of(r) == NodeKind::KRec,
        rec_ty(r) == t,
        rec_val(r) == wrap(t, sem_i(ops_a) - sem_i(ops_b)),
        in_range(t, sem_i(ops_a)) && in_range(t, sem_i(ops_b)) ==> rec_flag(r) == sub_overflows(
            t,
            sem_i(ops_a),
            sem_i(ops_b),
        ),
{
    let ra = Rc::new(ops_a);
    let rb = Rc::new(ops_b);
    let lim_lo = Node::Bin(BinKind::Add, t, Rc::new(min(t)), share(&rb));
    assert(wf(lim_lo));
    let below = Node::Cmp(CmpKind::Lt, t, share(&ra), Rc::new(lim_lo));
    assert(wf(below));
    let lim_hi = Node::Bin(BinKind::Add, t, Rc::new(max(t)), share(&rb));
    assert(wf(lim_hi));
    let above = Node::Cmp(CmpKind::Gt, t, share(&ra), Rc::new(lim_hi));
    assert(wf(above));
    let flag = lor(
        land(cmp_zero(CmpKind::Gt, t, share(&rb)), below),
        land(cmp_zero(CmpKind::Lt, t, share(&rb)), above),
    );
    let val = Node::Bin(BinKind::Sub, t, ra, rb);
    proof {
        let a = sem_i(ops_a);
        let b = sem_i(ops_b);
        lemma_wrap_twice(t, a - b);
        if in_range(t, a) && in_range(t, b) {
            lemma_sub_signed_flag(t, a, b);
        }
    }
    result_tuple(t, flag, val)
}

/// Checked unsigned subtraction: the difference underflows exactly when
/// the minuend is smaller, so the flag is the comparison `a < b`; the
/// value is the wrapped difference.
pub fn sub_unsigned(ops_a: Node, ops_b: Node, t: IntType) -> (r: Node)
    requires
        !t.signed,
        wf(ops_a),
        wf(ops_b),
        kind_of(ops_a) == NodeKind::KInt,
        kind_of(ops_b) == NodeKind::KInt,
    ensures
        wf(r),
        kind_of(r) == NodeKind::KRec,
        rec_ty(r) == t,
        rec_val(r) == wrap(t, sem_i(ops_a) - sem_i(ops_b)),
        in_range(t, sem_i(ops_a)) && in_range(t, sem_i(ops_b)) ==> rec_flag(r) == sub_overflows(
            t,
            sem_i(ops_a),
            sem_i(ops_b),
        ),
{
    let ra = Rc::new(ops_a);
    let rb = Rc::new(ops_b);
    let flag = Node::Cmp(CmpKind::Lt, t, share(&ra), share(&rb));
    let val = Node::Bin(BinKind::Sub, t, ra, rb);
    proof {
        lemma_wrap_twice(t, sem_i(ops_a) - sem_i(ops_b));
    }
    result_tuple(t, flag, val)
}

/// Checked unsigned addition: the wrapped sum is computed once at the
/// operand width; the flag compares it against the operands' bitwise or,
/// which avoids a second branch and an explicit widened compare.
pub fn add_unsigned(ops_a: Node, ops_b: Node, t: IntType) -> (r: Node)
    requires
        !t.signed,
        wf(ops_a),
        wf(ops_b),
        kind_of(ops_a) == NodeKind::KInt,
        kind_of(ops_b) == NodeKind::KInt,
    ensures
        wf(r),
        kind_of(r) == NodeKind::KRec,
        rec_ty(r) == t,
        rec_val(r) == wrap(t, sem_i(ops_a) + sem_i(ops_b)),
        in_range(t, sem_i(ops_a)) && in_range(t, sem_i(ops_b)) ==> rec_flag(r) == add_overflows(
            t,
            sem_i(ops_a),
            sem_i(ops_b),
        ),
{
    let ra = Rc::new(ops_a);
    let rb = Rc::new(ops_b);
    let res = Node::Bin(BinKind::Add, t, share(&ra), share(&rb));
    assert(wf(res));
    let orv = Node::Bin(BinKind::BitOr, t, share(&ra), share(&rb));
    assert(wf(orv));
    let flag = Node::Cmp(CmpKind::Lt, t, Rc::new(res), Rc::new(orv));
    assert(wf(flag));
    let val = Node::Bin(BinKind::Add, t, ra, rb);
    proof {
        let a = sem_i(ops_a);
        let b = sem_i(ops_b);
        lemma_wrap_twice(t, a + b);
        if in_range(t, a) && in_range(t, b) {
            lemma_add_unsigned_flag(t, a, b);
        }
    }
    result_tuple(t, flag, val)
}

/// The product of two values representable in `t` is representable in a
/// type whose cardinality is at least the square of `t`'s.
proof fn lemma_mul_in_wide_range(t: IntType, w: IntType, a: int, b: int)
    requires
        in_range(t, a),
        in_range(t, b),
        w.signed == t.signed,
        card(t) * card(t) <= card(w),
    ensures
        in_range(w, a * b),
        !t.signed ==> a * b >= 0,
{
    let ct = card(t);
    let cw = card(w);
    if t.signed {
        let h = ct / 2;
        let hw = cw / 2;
        assert(2 * h == ct && 2 * hw == cw && h >= 0x80);
        assert(a * b <= h * h && -(h * h) <= a * b) by (nonlinear_arith)
            requires
                -h <= a,
                a <= h,
                -h <= b,
                b <= h,
        ;
        assert(4 * (h * h) == ct * ct) by (nonlinear_arith)
            requires
                2 * h == ct,
        ;
        assert(h * h >= 1) by (nonlinear_arith)
            requires
                h >= 1,
        ;
        assert(h * h <= hw - 1);
    } else {
        assert(0 <= a * b && a * b <= (ct - 1) * (ct - 1)) by (nonlinear_arith)
            requires
                0 <= a,
                a <= ct - 1,
                0 <= b,
                b <= ct - 1,
        ;
        assert((ct - 1) * (ct - 1) <= ct * ct - 1) by (nonlinear_arith)
            requires
                ct >= 1,
        ;
    }
}

/// Checked multiplication. The strategy depends on the width class:
/// 8/16-bit products rely on the target's implicit promotion of narrow
/// arithmetic to the native 32-bit comparison width and compare the
/// product against the type's bounds there, with no explicit cast;
/// 32-bit operands are explicitly widened to 64 bits before multiplying
/// and comparing; 64-bit and pointer-sized operands are carried into the
/// extended-precision 128-bit type through its constructor, multiply and
/// comparison operator calls; 128-bit multiplication is the degraded
/// path, which emits a constant "no overflow" flag and reports the
/// degradation to the caller in the second component of the result.
#[verifier::rlimit(60)]
pub fn mul(ops_a: Node, ops_b: Node, t: IntType) -> (r: (Node, bool))
    requires
        wf(ops_a),
        wf(ops_b),
        kind_of(ops_a) == NodeKind::KInt,
        kind_of(ops_b) == NodeKind::KInt,
    ensures
        wf(r.0),
        kind_of(r.0) == NodeKind::KRec,
        rec_ty(r.0) == t,
        r.1 == (t.width == WidthClass::W128),
        t.width == WidthClass::W128 ==> !rec_flag(r.0),
        rec_val(r.0) == wrap(t, sem_i(ops_a) * sem_i(ops_b)),
        in_range(t, sem_i(ops_a)) && in_range(t, sem_i(ops_b)) ==> rec_flag(r.0) == mul_overflows(
            t,
            sem_i(ops_a),
            sem_i(ops_b),
        ),
{
    let ra = Rc::new(ops_a);
    let rb = Rc::new(ops_b);
    match t.width {
        WidthClass::W8 | WidthClass::W16 => {
            let pt = IntType { width: WidthClass::W32, signed: t.signed };
            let prod = Node::Bin(BinKind::Mul, pt, share(&ra), share(&rb));
            assert(wf(prod));
            let rprod = Rc::new(prod);
            let flag = if t.signed {
                let gtc = Node::Cmp(CmpKind::Gt, pt, share(&rprod), Rc::new(max(t)));
                assert(wf(gtc));
                let ltc = Node::Cmp(CmpKind::Lt, pt, share(&rprod), Rc::new(min(t)));
                assert(wf(ltc));
                lor(gtc, ltc)
            } else {
                let gtc = Node::Cmp(CmpKind::Gt, pt, share(&rprod), Rc::new(max(t)));
                assert(wf(gtc));
                gtc
            };
            let val = Node::Bin(BinKind::Mul, pt, ra, rb);
            proof {
                let a = sem_i(ops_a);
                let b = sem_i(ops_b);
                lemma_wrap_nested(t, pt, a * b);
                if in_range(t, a) && in_range(t, b) {
                    lemma_mul_in_wide_range(t, pt, a, b);
                    lemma_wrap_id(pt, a * b);
                }
            }
            (result_tuple(t, flag, val), false)
        },
        WidthClass::W32 => {
            let wt = IntType { width: WidthClass::W64, signed: t.signed };
            let ca = Node::Conv(wt, share(&ra));
            assert(wf(ca) && sem_i(ca) == wrap(wt, sem_i(ops_a)));
            let cb = Node::Conv(wt, share(&rb));
            assert(wf(cb) && sem_i(cb) == wrap(wt, sem_i(ops_b)));
            let wprod = Node::Bin(BinKind::Mul, wt, Rc::new(ca), Rc::new(cb));
            assert(wf(wprod));
            let rprod = Rc::new(wprod);
            let wmax = Node::Conv(wt, Rc::new(max(t)));
            assert(wf(wmax));
            let gtc = Node::Cmp(CmpKind::Gt, wt, share(&rprod), Rc::new(wmax));
            assert(wf(gtc));
            let flag = if t.signed {
                let wmin = Node::Conv(wt, Rc::new(min(t)));
                assert(wf(wmin));
                let ltc = Node::Cmp(CmpKind::Lt, wt, share(&rprod), Rc::new(wmin));
                assert(wf(ltc));
                lor(gtc, ltc)
            } else {
                gtc
            };
            let val = Node::Bin(BinKind::Mul, t, ra, rb);
            proof {
                let a = sem_i(ops_a);
                let b = sem_i(ops_b);
                lemma_wrap_twice(t, a * b);
                lemma_wrap_id(wt, max_int(t));
                if t.signed {
                    lemma_wrap_id(wt, min_int(t));
                }
                if in_range(t, a) && in_range(t, b) {
                    lemma_wrap_id(wt, a);
                    lemma_wrap_id(wt, b);
                    lemma_mul_in_wide_range(t, wt, a, b);
                    lemma_wrap_id(wt, a * b);
                    assert(sem_i(wprod) == a * b);
                    if t.signed {
                        assert(sem_b(flag) == ((a * b > max_int(t)) || (a * b < min_int(t))));
                    } else {
                        assert(sem_b(flag) == (a * b > max_int(t)));
                    }
                    assert(sem_b(flag) == mul_overflows(t, a, b));
                }
            }
            (result_tuple(t, flag, val), false)
        },
        WidthClass::W64 | WidthClass::WPtr => {
            let wt = IntType { width: WidthClass::W128, signed: t.signed };
            let ca = Node::Conv(wt, share(&ra));
            assert(wf(ca) && sem_i(ca) == wrap(wt, sem_i(ops_a)));
            let cb = Node::Conv(wt, share(&rb));
            assert(wf(cb) && sem_i(cb) == wrap(wt, sem_i(ops_b)));
            let wprod = Node::Bin(BinKind::Mul, wt, Rc::new(ca), Rc::new(cb));
            assert(wf(wprod));
            let rprod = Rc::new(wprod);
            let wmax = Node::Conv(wt, Rc::new(max(t)));
            assert(wf(wmax));
            let gtc = Node::Cmp(CmpKind::Gt, wt, share(&rprod), Rc::new(wmax));
            assert(wf(gtc));
            let flag = if t.signed {
                let wmin = Node::Conv(wt, Rc::new(min(t)));
                assert(wf(wmin));
                let ltc = Node::Cmp(CmpKind::Lt, wt, share(&rprod), Rc::new(wmin));
                assert(wf(ltc));
                lor(gtc, ltc)
            } else {
                gtc
            };
            let val = Node::Bin(BinKind::Mul, t, ra, rb);
            proof {
                let a = sem_i(ops_a);
                let b = sem_i(ops_b);
                lemma_wrap_twice(t, a * b);
                lemma_wrap_id(wt, max_int(t));
                if t.signed {
                    lemma_wrap_id(wt, min_int(t));
                }
                if in_range(t, a) && in_range(t, b) {
                    lemma_wrap_id(wt, a);
                    lemma_wrap_id(wt, b);
                    lemma_mul_in_wide_range(t, wt, a, b);
                    lemma_wrap_id(wt, a * b);
                    assert(sem_i(wprod) == a * b);
                    if t.signed {
                        assert(sem_b(flag) == ((a * b > max_int(t)) || (a * b < min_int(t))));
                    } else {
                        assert(sem_b(flag) == (a * b > max_int(t)));
                    }
                    assert(sem_b(flag) == mul_overflows(t, a, b));
                }
            }
            (result_tuple(t, flag, val), false)
        },
        WidthClass::W128 => {
            let flag = Node::BoolLit(false);
            assert(!sem_b(flag));
            let val = Node::Bin(BinKind::Mul, t, ra, rb);
            proof {
                lemma_wrap_twice(t, sem_i(ops_a) * sem_i(ops_b));
            }
            (result_tuple(t, flag, val), true)
        },
    }
}

/// Dispatcher: lowers a checked binary arithmetic operation on two
/// already-lowered operand trees whose shared semantic type is `ty`.
/// That both operands have the same type is the caller's obligation in
/// the surrounding system; the engine receives the one shared type.
/// Returns the packaged record tree together with a degraded-lowering
/// marker, which is set exactly on 128-bit multiplication and which the
/// caller should surface as a build warning.
pub fn binop_checked(binop: BinOp, ops_a: Node, ops_b: Node, ty: SemTy) -> (r: Result<
    (Node, bool),
    LowerError,
>)
    requires
        wf(ops_a),
        wf(ops_b),
        kind_of(ops_a) == NodeKind::KInt,
        kind_of(ops_b) == NodeKind::KInt,
    ensures
        r is Ok <==> ((binop == BinOp::Add || binop == BinOp::Sub || binop == BinOp::Mul)
            && classify_spec(ty) is Some),
        match r {
            Ok(p) => classify_spec(ty) matches Some(t) && {
                &&& wf(p.0)
                &&& kind_of(p.0) == NodeKind::KRec
                &&& rec_ty(p.0) == t
                &&& p.1 == (binop == BinOp::Mul && t.width == WidthClass::W128)
                &&& (binop == BinOp::Mul && t.width == WidthClass::W128 ==> !rec_flag(p.0))
                &&& rec_val(p.0) == wrap(t, exact_result(binop, sem_i(ops_a), sem_i(ops_b)))
                &&& (in_range(t, sem_i(ops_a)) && in_range(t, sem_i(ops_b)) ==> rec_flag(p.0)
                    == overflow_flag(binop, t, sem_i(ops_a), sem_i(ops_b)))
            },
            Err(e) => if binop == BinOp::Add || binop == BinOp::Sub || binop == BinOp::Mul {
                e == LowerError::UnsupportedType && classify_spec(ty) is None
            } else {
                e == LowerError::UnsupportedOperation
            },
        },
{
    match binop {
        BinOp::Sub => match classify(ty) {
            Ok(t) => if t.signed {
                Ok((sub_signed(ops_a, ops_b, t), false))
            } else {
                Ok((sub_unsigned(ops_a, ops_b, t), false))
            },
            Err(e) => Err(e),
        },
        BinOp::Add => match classify(ty) {
            Ok(t) => if t.signed {
                Ok((add_signed(ops_a, ops_b, t), false))
            } else {
                Ok((add_unsigned(ops_a, ops_b, t), false))
            },
            Err(e) => Err(e),
        },
        BinOp::Mul => match classify(ty) {
            Ok(t) => Ok(crate::lower::mul(ops_a, ops_b, t)),
            Err(e) => Err(e),
        },
        _ => Err(LowerError::UnsupportedOperation),
    }
}

/// For representable operands the overflow flag of a lowered checked
/// operation equals exactly whether the mathematical result lies outside
/// the operand type's range — exhaustively over the narrow widths and for
/// every wide pair alike. The two exceptions are excluded here: the
/// degraded 128-bit multiplication path, whose flag is constantly false,
/// and the signed addition of twice the type minimum, whose sum wraps
/// exactly to zero and escapes the strict-sign predicate.
pub proof fn lemma_flag_matches_exact(op: BinOp, t: IntType, a: int, b: int)
    requires
        op == BinOp::Add || op == BinOp::Sub || op == BinOp::Mul,
        in_range(t, a),
        in_range(t, b),
        op == BinOp::Mul ==> t.width != WidthClass::W128,
        op == BinOp::Add && t.signed ==> !(a == min_int(t) && b == min_int(t)),
    ensures
        overflow_flag(op, t, a, b) == !in_range(t, exact_result(op, a, b)),
{
    let c = card(t);
    let h = c / 2;
    assert(c >= 0x100 && h * 2 == c);
    if op == BinOp::Add && t.signed && a + b == -c {
        assert(a == -h && b == -h);
    }
}

/// The known boundary probe of the signed addition predicate: adding the
/// type minimum to itself wraps exactly to zero, and the strict-sign
/// predicate reports no overflow for it even though the true sum is
/// unrepresentable.
pub proof fn lemma_add_signed_min_min_unflagged(t: IntType)
    requires
        t.signed,
    ensures
        !add_overflows(t, min_int(t), min_int(t)),
        !in_range(t, min_int(t) + min_int(t)),
        wrap(t, min_int(t) + min_int(t)) == 0,
{
    let c = card(t);
    let h = c / 2;
    assert(c >= 0x100 && h * 2 == c);
    assert((-c) % c == 0) by {
        vstd::arithmetic::div_mod::lemma_mod_multiples_vanish(-1, 0, c);
        vstd::arithmetic::div_mod::lemma_small_mod(0nat, c as nat);
    }
}

} // verus!
