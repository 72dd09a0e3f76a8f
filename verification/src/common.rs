//! Small shared helpers: argmax, one-hot encoding, and scalar-generic
//! numeric differentiation.

use vstd::prelude::*;

use crate::activation_functions::sp_argmax_fold;
use crate::scalar::Scalar;
use crate::tensor::Tensor;

verus! {

/// The index of the first greatest element of a non-empty row.
pub fn max_index_in_arr1<S: Scalar>(arr: &Vec<S>) -> (r: usize)
    requires
        arr@.len() > 0,
    ensures
        r as int == sp_argmax_fold(arr@),
        r < arr@.len(),
{
    let mut best: usize = 0;
    let mut i: usize = 1;
    proof {
        crate::activation_functions::lemma_argmax_in_range(arr@.subrange(0, 1));
    }
    while i < arr.len()
        invariant
            1 <= i <= arr@.len(),
            best as int == sp_argmax_fold(arr@.subrange(0, i as int)),
            best < i,
        decreases arr@.len() - i,
    {
        proof {
            assert(arr@.subrange(0, (i + 1) as int).drop_last() =~= arr@.subrange(0, i as int));
            assert(arr@.subrange(0, (i + 1) as int).last() == arr@[i as int]);
            crate::activation_functions::lemma_argmax_in_range(arr@.subrange(0, i as int));
        }
        if arr[best].lt(arr[i]) {
            best = i;
        }
        i = i + 1;
    }
    proof {
        assert(arr@.subrange(0, arr@.len() as int) =~= arr@);
    }
    best
}

/// One-hot rows from class labels: row `i` holds a single one, in the
/// column the label names, and zeros everywhere else.
pub fn one_hot_from_labels<S: Scalar>(labels: &Vec<u8>, classes: usize) -> (r: Tensor<S>)
    requires
        forall|i: int| 0 <= i < labels@.len() ==> (#[trigger] labels@[i]) < classes,
    ensures
        r.wf(),
        r.sp_is_shape(labels@.len() as int, classes as int),
        forall|i: int, j: int|
            0 <= i < labels@.len() && 0 <= j < classes ==> #[trigger] r.sp_at(i, j) == if labels@[
                i
            ] == j {
                S::sp_one()
            } else {
                S::sp_zero()
            },
{
    let n = labels.len();
    let mut data: Vec<Vec<S>> = Vec::new();
    let mut i: usize = 0;
    while i < n
        invariant
            forall|k: int| 0 <= k < labels@.len() ==> (#[trigger] labels@[k]) < classes,
            n == labels@.len(),
            i <= n,
            data@.len() == i,
            forall|k: int| 0 <= k < i ==> (#[trigger] data@[k])@.len() == classes,
            forall|k: int, j: int|
                0 <= k < i && 0 <= j < classes ==> #[trigger] data@[k]@[j] == if labels@[k] == j {
                    S::sp_one()
                } else {
                    S::sp_zero()
                },
        decreases n - i,
    {
        let digit = labels[i];
        let mut row: Vec<S> = Vec::new();
        let mut j: usize = 0;
        while j < classes
            invariant
                digit == labels@[i as int],
                i < labels@.len(),
                j <= classes,
                row@.len() == j,
                forall|m: int|
                    0 <= m < j ==> #[trigger] row@[m] == if labels@[i as int] == m {
                        S::sp_one()
                    } else {
                        S::sp_zero()
                    },
            decreases classes - j,
        {
            if j == digit as usize {
                row.push(S::one());
            } else {
                row.push(S::zero());
            }
            j = j + 1;
        }
        data.push(row);
        i = i + 1;
    }
    match Tensor::new(n, classes, data) {
        Some(t) => t,
        None => {
            proof {
                assert(false);
            }
            Tensor::zeros(n, classes)
        },
    }
}

/// The probe width for numeric differentiation: one ten-thousandth.
pub open spec fn sp_diff_h<S: Scalar>() -> S {
    S::sp_one().sp_div(S::sp_from_u64(10000))
}

/// Executable counterpart of [`sp_diff_h`].
pub fn diff_h<S: Scalar>() -> (r: S)
    ensures
        r == sp_diff_h::<S>(),
{
    S::one().div(S::from_u64(10000))
}

/// The central difference of a scalar function: probes at `x + h` and
/// `x - h` and divides their difference by `2 h`.
pub fn numeric_diff<S: Scalar, F: Fn(S) -> S>(func: F, x: S) -> (r: S)
    requires
        forall|v: S| #[trigger] func.requires((v,)),
    ensures
        exists|y1: S, y2: S|
            #![trigger func.ensures((x.sp_add(sp_diff_h::<S>()),), y1), func.ensures((x.sp_sub(sp_diff_h::<S>()),), y2)]
            {
                &&& func.ensures((x.sp_add(sp_diff_h::<S>()),), y1)
                &&& func.ensures((x.sp_sub(sp_diff_h::<S>()),), y2)
                &&& r == y1.sp_sub(y2).sp_div(sp_diff_h::<S>().sp_mul(S::sp_from_u64(2)))
            },
{
    let h: S = diff_h::<S>();
    let y1 = func(x.add(h));
    let y2 = func(x.sub(h));
    y1.sub(y2).div(h.mul(S::from_u64(2)))
}

/// The gradient of a function of a row, by central differences: entry `i`
/// probes the function at the row with its `i`-th entry shifted up and
/// down by `h` and divides the difference of the two results by `2 h`.
pub fn numeric_gradient<S: Scalar, F: Fn(&Vec<S>) -> S>(func: F, x: &Vec<S>) -> (grad: Vec<S>)
    requires
        forall|v: Vec<S>| v@.len() == x@.len() ==> #[trigger] func.requires((&v,)),
    ensures
        grad@.len() == x@.len(),
        exists|trace: Seq<(Vec<S>, S, Vec<S>, S)>|
            #![trigger trace.len()]
            {
                &&& trace.len() == x@.len()
                &&& forall|i: int|
                    0 <= i < trace.len() ==> {
                        &&& (#[trigger] trace[i]).0@ == x@.update(
                            i,
                            x@[i].sp_add(sp_diff_h::<S>()),
                        )
                        &&& trace[i].2@ == x@.update(i, x@[i].sp_sub(sp_diff_h::<S>()))
                        &&& func.ensures((&trace[i].0,), trace[i].1)
                        &&& func.ensures((&trace[i].2,), trace[i].3)
                        &&& grad@[i] == trace[i].1.sp_sub(trace[i].3).sp_div(
                            S::sp_from_u64(2).sp_mul(sp_diff_h::<S>()),
                        )
                    }
            },
{
    let h: S = diff_h::<S>();
    let two_h: S = S::from_u64(2).mul(h);
    let mut grad: Vec<S> = Vec::new();
    let ghost mut trace: Seq<(Vec<S>, S, Vec<S>, S)> = Seq::empty();
    let mut i: usize = 0;
    while i < x.len()
        invariant
            forall|v: Vec<S>| v@.len() == x@.len() ==> #[trigger] func.requires((&v,)),
            h == sp_diff_h::<S>(),
            two_h == S::sp_from_u64(2).sp_mul(sp_diff_h::<S>()),
            i <= x@.len(),
            grad@.len() == i,
            trace.len() == i,
            forall|k: int|
                0 <= k < i ==> {
                    &&& (#[trigger] trace[k]).0@ == x@.update(k, x@[k].sp_add(sp_diff_h::<S>()))
                    &&& trace[k].2@ == x@.update(k, x@[k].sp_sub(sp_diff_h::<S>()))
                    &&& func.ensures((&trace[k].0,), trace[k].1)
                    &&& func.ensures((&trace[k].2,), trace[k].3)
                    &&& grad@[k] == trace[k].1.sp_sub(trace[k].3).sp_div(
                        S::sp_from_u64(2).sp_mul(sp_diff_h::<S>()),
                    )
                },
        decreases x@.len() - i,
    {
        let probe_up = probe_row(x, i, x[i].add(h));
        let probe_down = probe_row(x, i, x[i].sub(h));
        let fxh1 = func(&probe_up);
        let fxh2 = func(&probe_down);
        grad.push(fxh1.sub(fxh2).div(two_h));
        proof {
            trace = trace.push((probe_up, fxh1, probe_down, fxh2));
        }
        i = i + 1;
    }
    grad
}

/// A copy of the row with one entry replaced.
fn probe_row<S: Scalar>(x: &Vec<S>, i: usize, v: S) -> (r: Vec<S>)
    requires
        i < x@.len(),
    ensures
        r@ == x@.update(i as int, v),
{
    let mut r: Vec<S> = Vec::new();
    let mut k: usize = 0;
    while k < x.len()
        invariant
            i < x@.len(),
            k <= x@.len(),
            r@.len() == k,
            forall|m: int|
                0 <= m < k ==> #[trigger] r@[m] == if m == i {
                    v
                } else {
                    x@[m]
                },
        decreases x@.len() - k,
    {
        if k == i {
            r.push(v);
        } else {
            r.push(x[k]);
        }
        k = k + 1;
    }
    proof {
        assert(r@ =~= x@.update(i as int, v));
    }
    r
}

} // verus!
