//! Per-column batch statistics: the mean and variance maps used by batch
//! normalization's forward pass, and the gradient maps of its broadcast and
//! averaging steps.

use vstd::prelude::*;

use crate::scalar::Scalar;
use crate::tensor::{sp_col_sum, sp_sum, Tensor};

verus! {

/// The mean of column `j`: its sum divided by the number of rows.
pub open spec fn sp_col_mean<S: Scalar>(x: &Tensor<S>, j: int) -> S {
    sp_col_sum(x, j).sp_div(S::sp_from_u64(x.sp_rows() as u64))
}

/// The variance of column `j`: the mean of the squared deviations from the
/// column mean.
pub open spec fn sp_col_var<S: Scalar>(x: &Tensor<S>, j: int) -> S {
    sp_sum(
        Seq::new(
            x.sp_rows() as nat,
            |i: int|
                {
                    let d = x.sp_at(i, j).sp_sub(sp_col_mean(x, j));
                    d.sp_mul(d)
                },
        ),
    ).sp_div(S::sp_from_u64(x.sp_rows() as u64))
}

/// Column statistics only depend on the entries.
pub proof fn lemma_col_stats_congr<S: Scalar>(a: &Tensor<S>, b: &Tensor<S>, j: int)
    requires
        crate::tensor::sp_t_eq(*a, *b),
        0 <= j < a.sp_cols(),
    ensures
        sp_col_mean(a, j) == sp_col_mean(b, j),
        sp_col_var(a, j) == sp_col_var(b, j),
{
    a.lemma_shape_bounds();
    b.lemma_shape_bounds();
    let s1 = Seq::new(a.sp_rows() as nat, |i: int| a.sp_at(i, j));
    let s2 = Seq::new(b.sp_rows() as nat, |i: int| b.sp_at(i, j));
    assert forall|i: int| 0 <= i < s1.len() implies s1[i] == s2[i] by {
        assert(a.sp_at(i, j) == b.sp_at(i, j));
    }
    assert(s1 =~= s2);
    let q1 = Seq::new(a.sp_rows() as nat, |i: int|
        {
            let d = a.sp_at(i, j).sp_sub(sp_col_mean(a, j));
            d.sp_mul(d)
        });
    let q2 = Seq::new(b.sp_rows() as nat, |i: int|
        {
            let d = b.sp_at(i, j).sp_sub(sp_col_mean(b, j));
            d.sp_mul(d)
        });
    assert forall|i: int| 0 <= i < q1.len() implies q1[i] == q2[i] by {
        assert(a.sp_at(i, j) == b.sp_at(i, j));
    }
    assert(q1 =~= q2);
}

/// A normalized entry: the deviation from the column mean, divided by the
/// root of the column variance plus the small constant.
pub open spec fn sp_bn_normalized<S: Scalar>(xv: S, avg: S, var: S) -> S {
    xv.sp_sub(avg).sp_div(var.sp_add(crate::optimizer::sp_epsilon::<S>()).sp_sqrt())
}

/// The gradient column that flows to the scale parameter: the column sums
/// of `normalized * dout`.
#[verifier::opaque]
pub open spec fn sp_bn_dw_col<S: Scalar>(norm: &Tensor<S>, dout: &Tensor<S>, j: int) -> S {
    sp_sum(
        Seq::new(norm.sp_rows() as nat, |i: int| norm.sp_at(i, j).sp_mul(dout.sp_at(i, j))),
    )
}

/// One column of the summed product `w * dout * (x - avg)`: the gradient
/// that flows back through the variance branch.
#[verifier::opaque]
pub open spec fn sp_bn_d8<S: Scalar>(
    xc: &Tensor<S>,
    wc: &Tensor<S>,
    dout: &Tensor<S>,
    avg: &Tensor<S>,
    j: int,
) -> S {
    sp_sum(
        Seq::new(
            xc.sp_rows() as nat,
            |i: int| wc.sp_at(i, j).sp_mul(dout.sp_at(i, j)).sp_mul(
                xc.sp_at(i, j).sp_sub(avg.sp_at(i, j)),
            ),
        ),
    )
}

/// Entry `(i, j)` of the direct branch of the input gradient: the local
/// normalization gradient plus the variance branch folded back in.
#[verifier::opaque]
pub open spec fn sp_bn_d3a<S: Scalar>(
    xc: &Tensor<S>,
    wc: &Tensor<S>,
    dout: &Tensor<S>,
    avg: &Tensor<S>,
    var: &Tensor<S>,
    i: int,
    j: int,
) -> S {
    let eps = crate::optimizer::sp_epsilon::<S>();
    let d12a = wc.sp_at(i, j).sp_mul(dout.sp_at(i, j));
    let d9a = d12a.sp_div(var.sp_at(i, j).sp_add(eps).sp_sqrt());
    let d8 = sp_bn_d8(xc, wc, dout, avg, j);
    let d7 = d8.sp_mul(S::sp_one().sp_neg().sp_div(var.sp_at(0, j).sp_add(eps)));
    let d6 = d7.sp_div(S::sp_from_u64(2).sp_mul(var.sp_at(0, j).sp_add(eps).sp_sqrt()));
    let d5 = d6.sp_div(S::sp_from_u64(xc.sp_rows() as u64));
    let d4 = d5.sp_mul(xc.sp_at(i, j).sp_sub(avg.sp_at(i, j)));
    d9a.sp_add(d4)
}

/// One column of the summed, negated direct branch: the mean-branch
/// correction.
#[verifier::opaque]
pub open spec fn sp_bn_d2<S: Scalar>(
    xc: &Tensor<S>,
    wc: &Tensor<S>,
    dout: &Tensor<S>,
    avg: &Tensor<S>,
    var: &Tensor<S>,
    j: int,
) -> S {
    sp_sum(
        Seq::new(
            xc.sp_rows() as nat,
            |i: int| sp_bn_d3a(xc, wc, dout, avg, var, i, j).sp_neg(),
        ),
    )
}

/// Entry `(i, j)` of the gradient batch normalization pushes to its
/// upstream node: the direct branch plus the spread mean-branch
/// correction.
#[verifier::opaque]
pub open spec fn sp_bn_dx<S: Scalar>(
    xc: &Tensor<S>,
    wc: &Tensor<S>,
    dout: &Tensor<S>,
    avg: &Tensor<S>,
    var: &Tensor<S>,
    i: int,
    j: int,
) -> S {
    sp_bn_d3a(xc, wc, dout, avg, var, i, j).sp_add(
        sp_bn_d2(xc, wc, dout, avg, var, j).sp_div(S::sp_from_u64(xc.sp_rows() as u64)),
    )
}

/// A column sum of the pointwise product `normalized * dout` is the scale
/// gradient column.
pub proof fn lemma_bn_dw_col_eq<S: Scalar>(
    d12b: Tensor<S>,
    norm: Tensor<S>,
    dout: Tensor<S>,
    j: int,
)
    requires
        d12b.sp_rows() == norm.sp_rows(),
        d12b.sp_cols() == norm.sp_cols(),
        0 <= j < d12b.sp_cols(),
        forall|i: int, j2: int|
            0 <= i < d12b.sp_rows() && 0 <= j2 < d12b.sp_cols() ==> #[trigger] d12b.sp_at(i, j2)
                == norm.sp_at(i, j2).sp_mul(dout.sp_at(i, j2)),
    ensures
        sp_col_sum(&d12b, j) == sp_bn_dw_col(&norm, &dout, j),
{
    reveal(sp_bn_dw_col);
    d12b.lemma_shape_bounds();
    norm.lemma_shape_bounds();
    let s1 = Seq::new(d12b.sp_rows() as nat, |i: int| d12b.sp_at(i, j));
    let s2 = Seq::new(norm.sp_rows() as nat, |i: int| norm.sp_at(i, j).sp_mul(dout.sp_at(i, j)));
    assert forall|i: int| 0 <= i < s1.len() implies s1[i] == s2[i] by {
        assert(d12b.sp_at(i, j) == norm.sp_at(i, j).sp_mul(dout.sp_at(i, j)));
    }
    assert(s1 =~= s2);
}

/// A column sum of the pointwise product `w * dout * (x - avg)` is the
/// variance-branch column.
pub proof fn lemma_bn_d8_eq<S: Scalar>(
    d9b: Tensor<S>,
    xc: Tensor<S>,
    wc: Tensor<S>,
    dout: Tensor<S>,
    avg: Tensor<S>,
    j: int,
)
    requires
        d9b.sp_rows() == xc.sp_rows(),
        d9b.sp_cols() == xc.sp_cols(),
        0 <= j < d9b.sp_cols(),
        forall|i: int, j2: int|
            0 <= i < d9b.sp_rows() && 0 <= j2 < d9b.sp_cols() ==> #[trigger] d9b.sp_at(i, j2)
                == wc.sp_at(i, j2).sp_mul(dout.sp_at(i, j2)).sp_mul(
                xc.sp_at(i, j2).sp_sub(avg.sp_at(i, j2)),
            ),
    ensures
        sp_col_sum(&d9b, j) == sp_bn_d8(&xc, &wc, &dout, &avg, j),
{
    reveal(sp_bn_d8);
    d9b.lemma_shape_bounds();
    xc.lemma_shape_bounds();
    let s1 = Seq::new(d9b.sp_rows() as nat, |i: int| d9b.sp_at(i, j));
    let s2 = Seq::new(
        xc.sp_rows() as nat,
        |i: int| wc.sp_at(i, j).sp_mul(dout.sp_at(i, j)).sp_mul(
            xc.sp_at(i, j).sp_sub(avg.sp_at(i, j)),
        ),
    );
    assert forall|i: int| 0 <= i < s1.len() implies s1[i] == s2[i] by {
        assert(d9b.sp_at(i, j) == wc.sp_at(i, j).sp_mul(dout.sp_at(i, j)).sp_mul(
            xc.sp_at(i, j).sp_sub(avg.sp_at(i, j)),
        ));
    }
    assert(s1 =~= s2);
}

/// A column sum of the negated direct branch is the mean-branch column.
pub proof fn lemma_bn_d2_eq<S: Scalar>(
    d3b: Tensor<S>,
    xc: Tensor<S>,
    wc: Tensor<S>,
    dout: Tensor<S>,
    avg: Tensor<S>,
    var: Tensor<S>,
    j: int,
)
    requires
        d3b.sp_rows() == xc.sp_rows(),
        d3b.sp_cols() == xc.sp_cols(),
        0 <= j < d3b.sp_cols(),
        forall|i: int, j2: int|
            0 <= i < d3b.sp_rows() && 0 <= j2 < d3b.sp_cols() ==> #[trigger] d3b.sp_at(i, j2)
                == sp_bn_d3a(&xc, &wc, &dout, &avg, &var, i, j2).sp_neg(),
    ensures
        sp_col_sum(&d3b, j) == sp_bn_d2(&xc, &wc, &dout, &avg, &var, j),
{
    reveal(sp_bn_d2);
    d3b.lemma_shape_bounds();
    xc.lemma_shape_bounds();
    let s1 = Seq::new(d3b.sp_rows() as nat, |i: int| d3b.sp_at(i, j));
    let s2 = Seq::new(
        xc.sp_rows() as nat,
        |i: int| sp_bn_d3a(&xc, &wc, &dout, &avg, &var, i, j).sp_neg(),
    );
    assert forall|i: int| 0 <= i < s1.len() implies s1[i] == s2[i] by {
        assert(d3b.sp_at(i, j) == sp_bn_d3a(&xc, &wc, &dout, &avg, &var, i, j).sp_neg());
    }
    assert(s1 =~= s2);
}

/// Each column's mean, broadcast back over the batch axis.
pub fn calc_average_and_broadcast<S: Scalar>(x: &Tensor<S>) -> (r: Tensor<S>)
    requires
        x.wf(),
    ensures
        r.wf(),
        r.sp_same_shape(x),
        forall|i: int, j: int|
            0 <= i < x.sp_rows() && 0 <= j < x.sp_cols() ==> #[trigger] r.sp_at(i, j)
                == sp_col_mean(x, j),
{
    let means = x.col_mean();
    let rows = x.rows();
    let cols = x.cols();
    let mut data: Vec<Vec<S>> = Vec::new();
    let mut i: usize = 0;
    while i < rows
        invariant
            x.wf(),
            means.wf(),
            means.sp_is_shape(1, x.sp_cols()),
            forall|m: int|
                0 <= m < x.sp_cols() ==> #[trigger] means.sp_at(0, m) == sp_col_mean(x, m),
            rows == x.sp_rows(),
            cols == x.sp_cols(),
            i <= rows,
            data@.len() == i,
            forall|k: int| 0 <= k < i ==> (#[trigger] data@[k])@.len() == cols,
            forall|k: int, j: int|
                0 <= k < i && 0 <= j < cols ==> #[trigger] data@[k]@[j] == sp_col_mean(x, j),
        decreases rows - i,
    {
        let row = means.row_vec(0);
        proof {
            assert(forall|m: int| 0 <= m < cols ==> #[trigger] row@[m] == means.sp_at(0, m));
        }
        data.push(row);
        i = i + 1;
    }
    match Tensor::new(rows, cols, data) {
        Some(t) => t,
        None => {
            proof {
                assert(false);
            }
            Tensor::zeros(rows, cols)
        },
    }
}

/// Each column's mean and variance, both broadcast back over the batch
/// axis.
pub fn calc_distribute_and_broadcast<S: Scalar>(x: &Tensor<S>) -> (r: (Tensor<S>, Tensor<S>))
    requires
        x.wf(),
    ensures
        r.0.wf(),
        r.0.sp_same_shape(x),
        forall|i: int, j: int|
            0 <= i < x.sp_rows() && 0 <= j < x.sp_cols() ==> #[trigger] r.0.sp_at(i, j)
                == sp_col_mean(x, j),
        r.1.wf(),
        r.1.sp_same_shape(x),
        forall|i: int, j: int|
            0 <= i < x.sp_rows() && 0 <= j < x.sp_cols() ==> #[trigger] r.1.sp_at(i, j)
                == sp_col_var(x, j),
{
    let average = calc_average_and_broadcast(x);
    let rows = x.rows();
    let cols = x.cols();
    let means = x.col_mean();
    let mut vars: Vec<S> = Vec::new();
    let mut j: usize = 0;
    while j < cols
        invariant
            x.wf(),
            means.wf(),
            means.sp_is_shape(1, x.sp_cols()),
            forall|m: int|
                0 <= m < x.sp_cols() ==> #[trigger] means.sp_at(0, m) == sp_col_mean(x, m),
            rows == x.sp_rows(),
            cols == x.sp_cols(),
            j <= cols,
            vars@.len() == j,
            forall|m: int| 0 <= m < j ==> #[trigger] vars@[m] == sp_col_var(x, m),
        decreases cols - j,
    {
        let mean_j = means.get(0, j);
        let mut acc: S = S::zero();
        let mut i: usize = 0;
        while i < rows
            invariant
                x.wf(),
                rows == x.sp_rows(),
                cols == x.sp_cols(),
                j < cols,
                mean_j == sp_col_mean(x, j as int),
                i <= rows,
                acc == sp_sum(
                    Seq::new(
                        i as nat,
                        |ii: int|
                            {
                                let d = x.sp_at(ii, j as int).sp_sub(sp_col_mean(x, j as int));
                                d.sp_mul(d)
                            },
                    ),
                ),
            decreases rows - i,
        {
            proof {
                let f = |ii: int|
                    {
                        let d = x.sp_at(ii, j as int).sp_sub(sp_col_mean(x, j as int));
                        d.sp_mul(d)
                    };
                assert(Seq::new((i + 1) as nat, f) =~= Seq::new(i as nat, f).push(f(i as int)));
                crate::tensor::lemma_sp_sum_push(Seq::new(i as nat, f), f(i as int));
            }
            let d = x.get(i, j).sub(mean_j);
            acc = acc.add(d.mul(d));
            i = i + 1;
        }
        proof {
            assert(Seq::new(x.sp_rows() as nat, |ii: int|
                {
                    let d = x.sp_at(ii, j as int).sp_sub(sp_col_mean(x, j as int));
                    d.sp_mul(d)
                }) =~= Seq::new(i as nat, |ii: int|
                {
                    let d = x.sp_at(ii, j as int).sp_sub(sp_col_mean(x, j as int));
                    d.sp_mul(d)
                }));
        }
        vars.push(acc.div(S::from_u64(rows as u64)));
        j = j + 1;
    }
    let mut dist_data: Vec<Vec<S>> = Vec::new();
    let mut i: usize = 0;
    while i < rows
        invariant
            x.wf(),
            rows == x.sp_rows(),
            cols == x.sp_cols(),
            vars@.len() == cols,
            forall|m: int| 0 <= m < cols ==> #[trigger] vars@[m] == sp_col_var(x, m),
            i <= rows,
            dist_data@.len() == i,
            forall|k: int| 0 <= k < i ==> (#[trigger] dist_data@[k])@.len() == cols,
            forall|k: int, j2: int|
                0 <= k < i && 0 <= j2 < cols ==> #[trigger] dist_data@[k]@[j2] == sp_col_var(x, j2),
        decreases rows - i,
    {
        let mut row: Vec<S> = Vec::new();
        let mut j2: usize = 0;
        while j2 < cols
            invariant
                vars@.len() == cols,
                forall|m: int| 0 <= m < cols ==> #[trigger] vars@[m] == sp_col_var(x, m),
                j2 <= cols,
                row@.len() == j2,
                forall|m: int| 0 <= m < j2 ==> #[trigger] row@[m] == sp_col_var(x, m),
            decreases cols - j2,
        {
            row.push(vars[j2]);
            j2 = j2 + 1;
        }
        dist_data.push(row);
        i = i + 1;
    }
    let dist = match Tensor::new(rows, cols, dist_data) {
        Some(t) => t,
        None => {
            proof {
                assert(false);
            }
            Tensor::zeros(rows, cols)
        },
    };
    (average, dist)
}

/// The gradient of broadcasting one row over the batch: spread the single
/// row evenly over `row_len` rows.
pub fn backword_average<S: Scalar>(x: &Tensor<S>, row_len: usize) -> (r: Tensor<S>)
    requires
        x.wf(),
        x.sp_rows() == 1,
        row_len > 0,
    ensures
        r.wf(),
        r.sp_is_shape(row_len as int, x.sp_cols()),
        forall|i: int, j: int|
            0 <= i < row_len && 0 <= j < x.sp_cols() ==> #[trigger] r.sp_at(i, j) == x.sp_at(
                0,
                j,
            ).sp_div(S::sp_from_u64(row_len as u64)),
{
    let cols = x.cols();
    let n: S = S::from_u64(row_len as u64);
    let mut data: Vec<Vec<S>> = Vec::new();
    let mut i: usize = 0;
    while i < row_len
        invariant
            x.wf(),
            x.sp_rows() == 1,
            cols == x.sp_cols(),
            n == S::sp_from_u64(row_len as u64),
            i <= row_len,
            data@.len() == i,
            forall|k: int| 0 <= k < i ==> (#[trigger] data@[k])@.len() == cols,
            forall|k: int, j: int|
                0 <= k < i && 0 <= j < cols ==> #[trigger] data@[k]@[j] == x.sp_at(0, j).sp_div(
                    S::sp_from_u64(row_len as u64),
                ),
        decreases row_len - i,
    {
        let mut row: Vec<S> = Vec::new();
        let mut j: usize = 0;
        while j < cols
            invariant
                x.wf(),
                x.sp_rows() == 1,
                cols == x.sp_cols(),
                n == S::sp_from_u64(row_len as u64),
                j <= cols,
                row@.len() == j,
                forall|m: int|
                    0 <= m < j ==> #[trigger] row@[m] == x.sp_at(0, m).sp_div(
                        S::sp_from_u64(row_len as u64),
                    ),
            decreases cols - j,
        {
            row.push(x.get(0, j).div(n));
            j = j + 1;
        }
        data.push(row);
        i = i + 1;
    }
    match Tensor::new(row_len, cols, data) {
        Some(t) => t,
        None => {
            proof {
                assert(false);
            }
            Tensor::zeros(row_len, cols)
        },
    }
}

/// The gradient of a row broadcast: collapse the batch axis by summing
/// each column.
pub fn backword_broadcast<S: Scalar>(x: &Tensor<S>) -> (r: Tensor<S>)
    requires
        x.wf(),
    ensures
        r.wf(),
        r.sp_is_shape(1, x.sp_cols()),
        forall|j: int|
            0 <= j < x.sp_cols() ==> #[trigger] r.sp_at(0, j) == sp_col_sum(x, j),
{
    x.col_sum()
}

} // verus!
