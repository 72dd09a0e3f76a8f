//! Tiny perceptron gates: a weighted sum of the first two inputs against a
//! fixed threshold.

use vstd::prelude::*;

use crate::activation_functions::{sp_step, step};
use crate::scalar::Scalar;

verus! {

/// The running weighted sum of the first `n` inputs, every weight `w`.
pub open spec fn sp_gate_sum<S: Scalar>(x: Seq<S>, w: S, n: int) -> S
    decreases n,
{
    if n <= 0 {
        S::sp_zero()
    } else {
        sp_gate_sum(x, w, n - 1).sp_add(x[n - 1].sp_mul(w))
    }
}

/// The number of inputs a two-weight gate actually reads.
pub open spec fn sp_gate_arity(len: int) -> int {
    if len < 2 {
        len
    } else {
        2
    }
}

/// The weighted sum of at most the first two inputs, plus a bias, through
/// the step function.
fn gate<S: Scalar>(x: &Vec<S>, w: S, b: S) -> (r: S)
    ensures
        r == sp_step(sp_gate_sum(x@, w, sp_gate_arity(x@.len() as int)).sp_add(b)),
{
    let mut tmp: S = S::zero();
    let n: usize = if x.len() < 2 {
        x.len()
    } else {
        2
    };
    let mut i: usize = 0;
    while i < n
        invariant
            n <= x@.len(),
            i <= n,
            tmp == sp_gate_sum(x@, w, i as int),
        decreases n - i,
    {
        tmp = tmp.add(x[i].mul(w));
        i = i + 1;
    }
    step(tmp.add(b))
}

/// Logical and: both of the first two inputs must be high.
pub fn and<S: Scalar>(x: &Vec<S>) -> (r: S)
    ensures
        r == sp_step(
            sp_gate_sum(
                x@,
                S::sp_one().sp_div(S::sp_from_u64(2)),
                sp_gate_arity(x@.len() as int),
            ).sp_add(S::sp_from_u64(7).sp_div(S::sp_from_u64(10)).sp_neg()),
        ),
{
    let half = S::one().div(S::from_u64(2));
    let b = S::from_u64(7).div(S::from_u64(10)).neg();
    gate(x, half, b)
}

/// Logical nand: the complement of `and`.
pub fn nand<S: Scalar>(x: &Vec<S>) -> (r: S)
    ensures
        r == sp_step(
            sp_gate_sum(
                x@,
                S::sp_one().sp_div(S::sp_from_u64(2)).sp_neg(),
                sp_gate_arity(x@.len() as int),
            ).sp_add(S::sp_from_u64(7).sp_div(S::sp_from_u64(10))),
        ),
{
    let half_neg = S::one().div(S::from_u64(2)).neg();
    let b = S::from_u64(7).div(S::from_u64(10));
    gate(x, half_neg, b)
}

/// Logical or: either of the first two inputs high suffices.
pub fn or<S: Scalar>(x: &Vec<S>) -> (r: S)
    ensures
        r == sp_step(
            sp_gate_sum(
                x@,
                S::sp_one().sp_div(S::sp_from_u64(2)),
                sp_gate_arity(x@.len() as int),
            ).sp_add(S::sp_from_u64(2).sp_div(S::sp_from_u64(10)).sp_neg()),
        ),
{
    let half = S::one().div(S::from_u64(2));
    let b = S::from_u64(2).div(S::from_u64(10)).neg();
    gate(x, half, b)
}

} // verus!
