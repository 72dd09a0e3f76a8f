//! Loss functions: sum of squared errors and cross entropy, on single rows
//! and on whole batches.

use vstd::prelude::*;

use crate::activation_functions::{sp_argmax_fold, sp_softmax_term};
use crate::scalar::Scalar;
use crate::tensor::Tensor;

verus! {

/// The running sum-of-squares accumulator over the first `n` entries.
pub open spec fn sp_sse_fold<S: Scalar>(y: Seq<S>, t: Seq<S>, n: int) -> S
    decreases n,
{
    if n <= 0 {
        S::sp_zero()
    } else {
        let d = y[n - 1].sp_sub(t[n - 1]);
        sp_sse_fold(y, t, n - 1).sp_add(d.sp_mul(d))
    }
}

/// Half the sum of squared differences.
pub open spec fn sp_sum_squared_error<S: Scalar>(y: Seq<S>, t: Seq<S>) -> S {
    sp_sse_fold(y, t, y.len() as int).sp_div(S::sp_from_u64(2))
}

/// The running cross-entropy accumulator: each positive target weight
/// subtracts `t * ln(y)`.
pub open spec fn sp_ce_fold<S: Scalar>(y: Seq<S>, t: Seq<S>, n: int) -> S
    decreases n,
{
    if n <= 0 {
        S::sp_zero()
    } else {
        let prev = sp_ce_fold(y, t, n - 1);
        if S::sp_zero().sp_lt(t[n - 1]) {
            prev.sp_sub(t[n - 1].sp_mul(y[n - 1].sp_ln()))
        } else {
            prev
        }
    }
}

/// Half the sum of squared differences between two equally long rows.
pub fn sum_squared_error<S: Scalar>(y: &Vec<S>, t: &Vec<S>) -> (r: S)
    requires
        y@.len() == t@.len(),
    ensures
        r == sp_sum_squared_error(y@, t@),
{
    let mut e: S = S::zero();
    let mut i: usize = 0;
    while i < y.len()
        invariant
            y@.len() == t@.len(),
            i <= y@.len(),
            e == sp_sse_fold(y@, t@, i as int),
        decreases y@.len() - i,
    {
        let d = y[i].sub(t[i]);
        e = e.add(d.mul(d));
        i = i + 1;
    }
    e.div(S::from_u64(2))
}

/// Cross entropy of a row of predictions against a row of target weights:
/// `-sum over positive t of t * ln(y)`.
pub fn crosss_entropy_error<S: Scalar>(y: &Vec<S>, t: &Vec<S>) -> (r: S)
    requires
        y@.len() == t@.len(),
    ensures
        r == sp_ce_fold(y@, t@, y@.len() as int),
{
    let mut e: S = S::zero();
    let mut i: usize = 0;
    while i < y.len()
        invariant
            y@.len() == t@.len(),
            i <= y@.len(),
            e == sp_ce_fold(y@, t@, i as int),
        decreases y@.len() - i,
    {
        if S::zero().lt(t[i]) {
            e = e.sub(t[i].mul(y[i].ln()));
        }
        i = i + 1;
    }
    e
}

/// Entry `(i, j)` of the row-wise softmax of `x`.
pub open spec fn sp_softmax_at<S: Scalar>(x: &Tensor<S>, i: int, j: int) -> S {
    sp_softmax_term(x.sp_at(i, j), x.sp_row(i))
}

/// The per-example cross-entropy loss of a row of probabilities against a
/// one-hot target row: minus the logarithm of the probability at the
/// target's first greatest entry.
pub open spec fn sp_ce_row_loss<S: Scalar>(probs: &Tensor<S>, target: &Tensor<S>, i: int) -> S {
    probs.sp_at(i, sp_argmax_fold(target.sp_row(i))).sp_ln().sp_neg()
}

/// The row-wise softmax of a batch: every row becomes a probability row.
pub fn softmax_batch<S: Scalar>(x: &Tensor<S>) -> (r: Tensor<S>)
    requires
        x.wf(),
        x.sp_cols() > 0,
    ensures
        r.wf(),
        r.sp_same_shape(x),
        forall|i: int, j: int|
            0 <= i < x.sp_rows() && 0 <= j < x.sp_cols() ==> #[trigger] r.sp_at(i, j)
                == sp_softmax_at(x, i, j),
{
    let rows = x.rows();
    let cols = x.cols();
    let mut data: Vec<Vec<S>> = Vec::new();
    let mut i: usize = 0;
    while i < rows
        invariant
            x.wf(),
            x.sp_cols() > 0,
            rows == x.sp_rows(),
            cols == x.sp_cols(),
            i <= rows,
            data@.len() == i,
            forall|k: int| 0 <= k < i ==> (#[trigger] data@[k])@.len() == cols,
            forall|k: int, j: int|
                0 <= k < i && 0 <= j < cols ==> #[trigger] data@[k]@[j] == sp_softmax_at(x, k, j),
        decreases rows - i,
    {
        let row = x.row_vec(i);
        let sm = crate::activation_functions::softmax_array(&row);
        proof {
            assert(forall|j: int|
                0 <= j < cols ==> #[trigger] sm@[j] == sp_softmax_at(x, i as int, j));
        }
        data.push(sm);
        i = i + 1;
    }
    let r = Tensor::new(rows, cols, data);
    match r {
        Some(t) => t,
        None => {
            proof {
                assert(false);
            }
            Tensor::zeros(rows, cols)
        },
    }
}

/// The column of per-example cross-entropy losses of a batch of probability
/// rows against one-hot target rows.
pub fn crosss_entropy_error_batch<S: Scalar>(probs: &Tensor<S>, target: &Tensor<S>) -> (r: Tensor<
    S,
>)
    requires
        probs.wf(),
        target.wf(),
        probs.sp_same_shape(target),
        probs.sp_cols() > 0,
    ensures
        r.wf(),
        r.sp_is_shape(probs.sp_rows(), 1),
        forall|i: int|
            0 <= i < probs.sp_rows() ==> #[trigger] r.sp_at(i, 0) == sp_ce_row_loss(
                probs,
                target,
                i,
            ),
{
    let rows = probs.rows();
    let mut data: Vec<Vec<S>> = Vec::new();
    let mut i: usize = 0;
    while i < rows
        invariant
            probs.wf(),
            target.wf(),
            probs.sp_same_shape(target),
            probs.sp_cols() > 0,
            rows == probs.sp_rows(),
            i <= rows,
            data@.len() == i,
            forall|k: int| 0 <= k < i ==> (#[trigger] data@[k])@.len() == 1,
            forall|k: int|
                0 <= k < i ==> #[trigger] data@[k]@[0] == sp_ce_row_loss(probs, target, k),
        decreases rows - i,
    {
        let t_row = target.row_vec(i);
        let correct = crate::common::max_index_in_arr1(&t_row);
        proof {
            crate::activation_functions::lemma_argmax_in_range(t_row@);
        }
        let mut row: Vec<S> = Vec::new();
        row.push(probs.get(i, correct).ln().neg());
        data.push(row);
        i = i + 1;
    }
    let r = Tensor::new(rows, 1, data);
    match r {
        Some(t) => t,
        None => {
            proof {
                assert(false);
            }
            Tensor::zeros(rows, 1)
        },
    }
}

} // verus!
