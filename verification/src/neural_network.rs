//! The training orchestrator: drives minibatch sampling, forward and
//! backward passes over a layer graph, and periodic evaluation of loss and
//! accuracy on held-out data.

use vstd::prelude::*;

use crate::activation_functions::sp_argmax_fold;
use crate::layer::{Layer, Sampler};
use crate::scalar::Scalar;
use crate::tensor::{sp_sum, Tensor};

verus! {

/// Training hyperparameters.
pub struct LearningParameter {
    pub batch_size: usize,
    pub iterations_num: u32,
}

/// The data a training run consumes: training and test batches with their
/// one-hot labels.
pub struct LearningResource<S: Scalar> {
    pub trn_data: Tensor<S>,
    pub trn_lbl_onehot: Tensor<S>,
    pub tst_data: Tensor<S>,
    pub tst_lbl_onehot: Tensor<S>,
}

/// The sum of every entry of a tensor, scanned row-major.
pub open spec fn sp_sum_all<S: Scalar>(t: &Tensor<S>) -> S {
    sp_sum(
        Seq::new(
            (t.sp_rows() * t.sp_cols()) as nat,
            |k: int| t.sp_at(k / t.sp_cols(), k % t.sp_cols()),
        ),
    )
}

/// Executable counterpart of [`sp_sum_all`].
pub fn sum_all<S: Scalar>(t: &Tensor<S>) -> (r: S)
    requires
        t.wf(),
        t.sp_rows() * t.sp_cols() <= usize::MAX,
    ensures
        r == sp_sum_all(t),
{
    let rows = t.rows();
    let cols = t.cols();
    let mut acc: S = S::zero();
    proof {
        assert((0int) * (cols as int) == 0) by (nonlinear_arith);
    }
    let ghost mut gk2: int = 0;
    let mut ii: usize = 0;
    while ii < rows
        invariant
            t.wf(),
            rows == t.sp_rows(),
            cols == t.sp_cols(),
            ii <= rows,
            gk2 == ii * (cols as int),
            acc == sp_sum(
                Seq::new(gk2 as nat, |k2: int| t.sp_at(k2 / t.sp_cols(), k2 % t.sp_cols())),
            ),
            gk2 >= 0,
        decreases rows - ii,
    {
        let mut j: usize = 0;
        while j < cols
            invariant
                t.wf(),
                rows == t.sp_rows(),
                cols == t.sp_cols(),
                ii < rows,
                j <= cols,
                gk2 == ii * (cols as int) + j,
                acc == sp_sum(
                    Seq::new(gk2 as nat, |k2: int| t.sp_at(k2 / t.sp_cols(), k2 % t.sp_cols())),
                ),
                gk2 >= 0,
            decreases cols - j,
        {
            proof {
                vstd::arithmetic::div_mod::lemma_fundamental_div_mod_converse(
                    gk2,
                    cols as int,
                    ii as int,
                    j as int,
                );
                let f = |k2: int| t.sp_at(k2 / t.sp_cols(), k2 % t.sp_cols());
                assert(Seq::new((gk2 + 1) as nat, f) =~= Seq::new(gk2 as nat, f).push(f(gk2)));
                crate::tensor::lemma_sp_sum_push(Seq::new(gk2 as nat, f), f(gk2));
            }
            acc = acc.add(t.get(ii, j));
            proof {
                gk2 = gk2 + 1;
            }
            j = j + 1;
        }
        proof {
            assert(ii * (cols as int) + cols == (ii + 1) * (cols as int)) by (nonlinear_arith);
        }
        ii = ii + 1;
    }
    proof {
        assert(Seq::new((t.sp_rows() * t.sp_cols()) as nat, |k2: int|
            t.sp_at(k2 / t.sp_cols(), k2 % t.sp_cols())) =~= Seq::new(gk2 as nat, |k2: int|
            t.sp_at(k2 / t.sp_cols(), k2 % t.sp_cols())));
    }
    acc
}

/// How many rows of `result` put their greatest value in the same column as
/// the corresponding row of `lbl`, among the first `n` rows.
pub open spec fn sp_correct_count<S: Scalar>(result: &Tensor<S>, lbl: &Tensor<S>, n: int) -> int
    decreases n,
{
    if n <= 0 {
        0
    } else {
        sp_correct_count(result, lbl, n - 1) + if sp_argmax_fold(result.sp_row(n - 1))
            == sp_argmax_fold(lbl.sp_row(n - 1)) {
            1int
        } else {
            0int
        }
    }
}

/// The fraction of rows whose predicted class (the first greatest column)
/// matches the label's class.
pub fn calc_correct_rate<S: Scalar>(result: &Tensor<S>, lbl: &Tensor<S>) -> (r: S)
    requires
        result.wf(),
        lbl.wf(),
        result.sp_same_shape(lbl),
        result.sp_rows() > 0,
        result.sp_cols() > 0,
    ensures
        r == S::sp_from_u64(sp_correct_count(result, lbl, result.sp_rows()) as u64).sp_div(
            S::sp_from_u64(result.sp_rows() as u64),
        ),
{
    let rows = result.rows();
    let mut count: usize = 0;
    let mut i: usize = 0;
    while i < rows
        invariant
            result.wf(),
            lbl.wf(),
            result.sp_same_shape(lbl),
            result.sp_cols() > 0,
            rows == result.sp_rows(),
            i <= rows,
            count <= i,
            count as int == sp_correct_count(result, lbl, i as int),
        decreases rows - i,
    {
        let r_row = result.row_vec(i);
        let l_row = lbl.row_vec(i);
        let ri = crate::common::max_index_in_arr1(&r_row);
        let li = crate::common::max_index_in_arr1(&l_row);
        if ri == li {
            count = count + 1;
        }
        i = i + 1;
    }
    S::from_u64(count as u64).div(S::from_u64(rows as u64))
}

/// The drawn batches select their rows through one sequence of source
/// indices: row `i` of the data batch and row `i` of the label batch are
/// row `sources[i]` of the dataset.
pub open spec fn sp_minibatch_from<S: Scalar>(
    md: Tensor<S>,
    ml: Tensor<S>,
    data: &Tensor<S>,
    lbl_onehot: &Tensor<S>,
    sources: Seq<int>,
) -> bool {
    &&& sources.len() == md.sp_rows()
    &&& forall|i: int| 0 <= i < sources.len() ==> 0 <= #[trigger] sources[i] < data.sp_rows()
    &&& forall|i: int|
        0 <= i < sources.len() ==> #[trigger] md.sp_row(i) == data.sp_row(sources[i])
    &&& forall|i: int|
        0 <= i < sources.len() ==> #[trigger] ml.sp_row(i) == lbl_onehot.sp_row(sources[i])
}

/// A minibatch: rows drawn independently and uniformly with replacement
/// from the dataset, each data row paired with its own label row.
pub fn make_minibatch_data<S: Scalar, R: Sampler<S>>(
    minibatch_size: usize,
    data: &Tensor<S>,
    lbl_onehot: &Tensor<S>,
    rng: &mut R,
) -> (r: (Tensor<S>, Tensor<S>))
    requires
        data.wf(),
        lbl_onehot.wf(),
        data.sp_rows() == lbl_onehot.sp_rows(),
        data.sp_rows() > 0,
    ensures
        r.0.wf(),
        r.0.sp_is_shape(minibatch_size as int, data.sp_cols()),
        r.1.wf(),
        r.1.sp_is_shape(minibatch_size as int, lbl_onehot.sp_cols()),
        exists|sources: Seq<int>|
            #![trigger sources.len()]
            sp_minibatch_from(r.0, r.1, data, lbl_onehot, sources),
{
    let mut d_rows: Vec<Vec<S>> = Vec::new();
    let mut l_rows: Vec<Vec<S>> = Vec::new();
    let ghost mut srcs: Seq<int> = Seq::empty();
    let mut i: usize = 0;
    while i < minibatch_size
        invariant
            data.wf(),
            lbl_onehot.wf(),
            data.sp_rows() == lbl_onehot.sp_rows(),
            data.sp_rows() > 0,
            i <= minibatch_size,
            d_rows@.len() == i,
            l_rows@.len() == i,
            srcs.len() == i,
            forall|i2: int|
                0 <= i2 < i ==> 0 <= #[trigger] srcs[i2] < data.sp_rows(),
            forall|i2: int|
                0 <= i2 < i ==> (#[trigger] d_rows@[i2])@ == data.sp_row(srcs[i2]),
            forall|i2: int|
                0 <= i2 < i ==> (#[trigger] l_rows@[i2])@ == lbl_onehot.sp_row(srcs[i2]),
        decreases minibatch_size - i,
    {
        let src = rng.sample_index(data.rows());
        let d_row = data.row_vec(src);
        let l_row = lbl_onehot.row_vec(src);
        d_rows.push(d_row);
        l_rows.push(l_row);
        proof {
            srcs = srcs.push(src as int);
        }
        i = i + 1;
    }
    proof {
        data.lemma_shape_bounds();
        lbl_onehot.lemma_shape_bounds();
        assert forall|i2: int|
            0 <= i2 < minibatch_size implies (#[trigger] d_rows@[i2])@.len()
            == data.sp_cols() by {
            assert(d_rows@[i2]@ == data.sp_row(srcs[i2]));
        }
        assert forall|i2: int|
            0 <= i2 < minibatch_size implies (#[trigger] l_rows@[i2])@.len()
            == lbl_onehot.sp_cols() by {
            assert(l_rows@[i2]@ == lbl_onehot.sp_row(srcs[i2]));
        }
    }
    let md = match Tensor::new(minibatch_size, data.cols(), d_rows) {
        Some(t) => t,
        None => {
            proof {
                assert(false);
            }
            Tensor::zeros(minibatch_size, data.cols())
        },
    };
    let ml = match Tensor::new(minibatch_size, lbl_onehot.cols(), l_rows) {
        Some(t) => t,
        None => {
            proof {
                assert(false);
            }
            Tensor::zeros(minibatch_size, lbl_onehot.cols())
        },
    };
    proof {
        assert forall|i2: int| 0 <= i2 < srcs.len() implies #[trigger] md.sp_row(i2)
            == data.sp_row(srcs[i2]) by {
            assert(md.sp_row(i2) =~= d_rows@[i2]@);
            assert(md.sp_row(i2) == data.sp_row(srcs[i2]));
        }
        assert forall|i2: int| 0 <= i2 < srcs.len() implies #[trigger] ml.sp_row(i2)
            == lbl_onehot.sp_row(srcs[i2]) by {
            assert(ml.sp_row(i2) =~= l_rows@[i2]@);
            assert(ml.sp_row(i2) == lbl_onehot.sp_row(srcs[i2]));
        }
        assert(sp_minibatch_from(md, ml, data, lbl_onehot, srcs));
    }
    (md, ml)
}

/// Matching argmax counts only depend on the entries.
pub proof fn lemma_correct_count_congr<S: Scalar>(
    a: &Tensor<S>,
    a2: &Tensor<S>,
    b: &Tensor<S>,
    n: int,
)
    requires
        crate::tensor::sp_t_eq(*a, *a2),
        0 <= n <= a.sp_rows(),
    ensures
        sp_correct_count(a, b, n) == sp_correct_count(a2, b, n),
    decreases n,
{
    if n > 0 {
        lemma_correct_count_congr(a, a2, b, n - 1);
        a.lemma_shape_bounds();
        a2.lemma_shape_bounds();
        assert(a.sp_row(n - 1) =~= a2.sp_row(n - 1));
    }
}

/// The row-major total only depends on the entries.
pub proof fn lemma_sum_all_congr<S: Scalar>(a: &Tensor<S>, a2: &Tensor<S>)
    requires
        crate::tensor::sp_t_eq(*a, *a2),
    ensures
        sp_sum_all(a) == sp_sum_all(a2),
{
    a.lemma_shape_bounds();
    a2.lemma_shape_bounds();
    let s1 = Seq::new(
        (a.sp_rows() * a.sp_cols()) as nat,
        |k: int| a.sp_at(k / a.sp_cols(), k % a.sp_cols()),
    );
    let s2 = Seq::new(
        (a2.sp_rows() * a2.sp_cols()) as nat,
        |k: int| a2.sp_at(k / a2.sp_cols(), k % a2.sp_cols()),
    );
    a.lemma_grid_size();
    assert forall|k: int| 0 <= k < s1.len() implies s1[k] == s2[k] by {
        assert(a.sp_cols() > 0) by (nonlinear_arith)
            requires
                0 <= k < a.sp_rows() * a.sp_cols(),
                a.sp_cols() >= 0;
        assert(0 <= k / a.sp_cols() < a.sp_rows()) by (nonlinear_arith)
            requires
                0 <= k < a.sp_rows() * a.sp_cols(),
                a.sp_cols() > 0;
        assert(a.sp_at(k / a.sp_cols(), k % a.sp_cols()) == a2.sp_at(
            k / a.sp_cols(),
            k % a.sp_cols(),
        ));
    }
    assert(s1 =~= s2);
}

/// One evaluation round, with every intermediate pinned: `w.0`/`w.1` are a
/// minibatch drawn from the dataset; `w.2` and `w.3` are the graph after
/// the batch and its labels are set; `w.4` is the evaluated graph, coherent
/// and inference-fresh, reached from `w.3` without touching anything but
/// caches; `w.5` is the argmax accuracy of its scores against the batch
/// labels and `w.6` the mean of its loss column.
pub open spec fn sp_test_round<S: Scalar>(
    pre: Layer<S>,
    w: (Tensor<S>, Tensor<S>, Layer<S>, Layer<S>, Layer<S>, S, S),
    data: Tensor<S>,
    lbl: Tensor<S>,
    batch: int,
) -> bool {
    let scores = w.4.sp_skip_out();
    let losses = w.4.sp_cached_out();
    &&& w.0.wf()
    &&& w.0.sp_is_shape(batch, data.sp_cols())
    &&& w.1.wf()
    &&& w.1.sp_is_shape(batch, lbl.sp_cols())
    &&& exists|sources: Seq<int>|
        #![trigger sources.len()]
        sp_minibatch_from(w.0, w.1, &data, &lbl, sources)
    &&& pre.sp_set_value_rel(w.2, w.0)
    &&& w.2.sp_set_lbl_rel(w.3, w.1)
    &&& w.3.sp_same_core(w.4)
    &&& w.4.wf()
    &&& w.4.sp_coherent()
    &&& w.4.sp_fresh_for(false)
    &&& scores.sp_rows() > 0
    &&& scores.sp_cols() > 0
    &&& scores.sp_rows() == w.1.sp_rows()
    &&& scores.sp_cols() == w.1.sp_cols()
    &&& w.5 == S::sp_from_u64(
        sp_correct_count(&scores, &w.1, scores.sp_rows()) as u64,
    ).sp_div(S::sp_from_u64(scores.sp_rows() as u64))
    &&& w.6 == sp_sum_all(&losses).sp_div(
        S::sp_from_u64((losses.sp_rows() * losses.sp_cols()) as u64),
    )
}

/// The graph each evaluation round starts from: the caller's graph for the
/// first round, the previous round's evaluated graph after that.
pub open spec fn sp_round_pre<S: Scalar>(
    g0: Layer<S>,
    rounds: Seq<(Tensor<S>, Tensor<S>, Layer<S>, Layer<S>, Layer<S>, S, S)>,
    k: int,
) -> Layer<S> {
    if k == 0 {
        g0
    } else {
        rounds[k - 1].4
    }
}

/// The running averages over the first `n` evaluation rounds: each round
/// contributes a tenth of its mean loss and of its accuracy.
pub open spec fn sp_test_acc<S: Scalar>(
    rounds: Seq<(Tensor<S>, Tensor<S>, Layer<S>, Layer<S>, Layer<S>, S, S)>,
    n: int,
) -> (S, S)
    decreases n,
{
    if n <= 0 {
        (S::sp_zero(), S::sp_zero())
    } else {
        let prev = sp_test_acc(rounds, n - 1);
        (
            prev.0.sp_add(rounds[n - 1].6.sp_div(S::sp_from_u64(10))),
            prev.1.sp_add(rounds[n - 1].5.sp_div(S::sp_from_u64(10))),
        )
    }
}

/// Appending a round does not change earlier running averages.
proof fn lemma_test_acc_push<S: Scalar>(
    rounds: Seq<(Tensor<S>, Tensor<S>, Layer<S>, Layer<S>, Layer<S>, S, S)>,
    w: (Tensor<S>, Tensor<S>, Layer<S>, Layer<S>, Layer<S>, S, S),
    n: int,
)
    requires
        0 <= n <= rounds.len(),
    ensures
        sp_test_acc(rounds.push(w), n) == sp_test_acc(rounds, n),
    decreases n,
{
    if n > 0 {
        lemma_test_acc_push(rounds, w, n - 1);
    }
}

/// One whole evaluation: ten chained rounds from `pre` to `post`, with
/// `loss` and `rate` the running averages they produce.
pub open spec fn sp_test_eval<S: Scalar>(
    pre: Layer<S>,
    post: Layer<S>,
    data: Tensor<S>,
    lbl: Tensor<S>,
    batch: int,
    loss: S,
    rate: S,
) -> bool {
    exists|rounds: Seq<(Tensor<S>, Tensor<S>, Layer<S>, Layer<S>, Layer<S>, S, S)>|
        #![trigger rounds.len()]
        {
            &&& rounds.len() == 10
            &&& forall|k: int|
                0 <= k < 10 ==> #[trigger] sp_test_round(
                    sp_round_pre(pre, rounds, k),
                    rounds[k],
                    data,
                    lbl,
                    batch,
                )
            &&& post == rounds[9].4
            &&& loss == sp_test_acc(rounds, 10).0
            &&& rate == sp_test_acc(rounds, 10).1
        }
}

/// One training iteration, with every intermediate pinned: a minibatch
/// drawn from the training rows (`w.0`, `w.1`) is set as input (`w.2`) and
/// target (`w.3`); a training forward pass reaches the fresh, coherent
/// graph `w.4` without touching anything but caches; the ones seed `w.5`
/// of the output's shape is pushed backward, relating `w.4` to `w.6` by the
/// exact gradient-and-update relation; and the two evaluations that follow
/// (`w.7`, `w.8`) produce the recorded history entries.
pub open spec fn sp_train_step<S: Scalar>(
    pre: Layer<S>,
    w: (
        Tensor<S>,
        Tensor<S>,
        Layer<S>,
        Layer<S>,
        Layer<S>,
        Tensor<S>,
        Layer<S>,
        Layer<S>,
        Layer<S>,
    ),
    trn_data: Tensor<S>,
    trn_lbl: Tensor<S>,
    tst_data: Tensor<S>,
    tst_lbl: Tensor<S>,
    batch: int,
    loss_t: S,
    rate_t: S,
    loss_o: S,
    rate_o: S,
) -> bool {
    &&& w.0.wf()
    &&& w.0.sp_is_shape(batch, trn_data.sp_cols())
    &&& w.1.wf()
    &&& w.1.sp_is_shape(batch, trn_lbl.sp_cols())
    &&& exists|sources: Seq<int>|
        #![trigger sources.len()]
        sp_minibatch_from(w.0, w.1, &trn_data, &trn_lbl, sources)
    &&& pre.sp_set_value_rel(w.2, w.0)
    &&& w.2.sp_set_lbl_rel(w.3, w.1)
    &&& w.3.sp_same_core(w.4)
    &&& w.4.wf()
    &&& w.4.sp_coherent()
    &&& w.4.sp_fresh_for(true)
    &&& w.5.wf()
    &&& w.5.sp_is_shape(w.4.sp_out_rows(), w.4.sp_out_cols())
    &&& forall|i: int, j: int|
        0 <= i < w.5.sp_rows() && 0 <= j < w.5.sp_cols() ==> #[trigger] w.5.sp_at(i, j)
            == S::sp_one()
    &&& w.4.sp_backward_rel(w.5, w.6)
    &&& sp_test_eval(w.6, w.7, tst_data, tst_lbl, batch, loss_t, rate_t)
    &&& sp_test_eval(w.7, w.8, trn_data, trn_lbl, batch, loss_o, rate_o)
}

/// The graph each training iteration starts from: the boot graph for the
/// first iteration, the previous iteration's final graph after that.
pub open spec fn sp_step_pre<S: Scalar>(
    g0: Layer<S>,
    steps: Seq<
        (
            Tensor<S>,
            Tensor<S>,
            Layer<S>,
            Layer<S>,
            Layer<S>,
            Tensor<S>,
            Layer<S>,
            Layer<S>,
            Layer<S>,
        ),
    >,
    k: int,
) -> Layer<S> {
    if k == 0 {
        g0
    } else {
        steps[k - 1].8
    }
}

/// The whole training run after the initial evaluations: `n` chained
/// training iterations from `g0` to `gend`, each one writing its pair of
/// history entries at position `k + 1`.
pub open spec fn sp_train_chain<S: Scalar>(
    g0: Layer<S>,
    gend: Layer<S>,
    steps: Seq<
        (
            Tensor<S>,
            Tensor<S>,
            Layer<S>,
            Layer<S>,
            Layer<S>,
            Tensor<S>,
            Layer<S>,
            Layer<S>,
            Layer<S>,
        ),
    >,
    n: int,
    trn_data: Tensor<S>,
    trn_lbl: Tensor<S>,
    tst_data: Tensor<S>,
    tst_lbl: Tensor<S>,
    batch: int,
    rates: Seq<S>,
    losses: Seq<S>,
    rates_o: Seq<S>,
    losses_o: Seq<S>,
) -> bool {
    &&& steps.len() == n
    &&& forall|k: int|
        0 <= k < n ==> #[trigger] sp_train_step(
            sp_step_pre(g0, steps, k),
            steps[k],
            trn_data,
            trn_lbl,
            tst_data,
            tst_lbl,
            batch,
            losses[k + 1],
            rates[k + 1],
            losses_o[k + 1],
            rates_o[k + 1],
        )
    &&& gend == sp_step_pre(g0, steps, n)
}

/// A layer graph together with the operations a training run needs.
pub struct NeuralNetwork<S: Scalar> {
    last_layer: Layer<S>,
}

impl<S: Scalar> NeuralNetwork<S> {
    /// The owned graph, terminal node first.
    pub closed spec fn sp_layer(&self) -> Layer<S> {
        self.last_layer
    }

    /// The graph is well-formed.
    pub open spec fn wf(&self) -> bool {
        self.sp_layer().wf()
    }

    pub fn new(last_layer: Layer<S>) -> (r: NeuralNetwork<S>)
        requires
            last_layer.wf(),
        ensures
            r.sp_layer() == last_layer,
            r.wf(),
    {
        NeuralNetwork { last_layer }
    }

    /// Gives the graph back.
    pub fn get_layers(self) -> (r: Layer<S>)
        ensures
            r == self.sp_layer(),
    {
        self.last_layer
    }

    /// Replaces the input batch at the bottom of the graph and invalidates
    /// the caches on the path.
    pub fn set_input(&mut self, input: &Tensor<S>)
        requires
            old(self).wf(),
            input.wf(),
            input.sp_is_shape(old(self).sp_layer().sp_in_rows(), old(self).sp_layer().sp_in_cols()),
        ensures
            final(self).wf(),
            final(self).sp_layer().sp_coherent(),
            final(self).sp_layer().sp_recomputable(true),
            final(self).sp_layer().sp_recomputable(false),
            old(self).sp_layer().sp_set_value_rel(final(self).sp_layer(), *input),
            final(self).sp_layer().sp_out_rows() == old(self).sp_layer().sp_out_rows(),
            final(self).sp_layer().sp_out_cols() == old(self).sp_layer().sp_out_cols(),
            final(self).sp_layer().sp_in_rows() == old(self).sp_layer().sp_in_rows(),
            final(self).sp_layer().sp_in_cols() == old(self).sp_layer().sp_in_cols(),
            final(self).sp_layer().sp_skip_rows() == old(self).sp_layer().sp_skip_rows(),
            final(self).sp_layer().sp_skip_cols() == old(self).sp_layer().sp_skip_cols(),
            old(self).sp_layer().sp_fits_like(final(self).sp_layer()),
    {
        self.last_layer.set_value(input);
    }

    /// Replaces the one-hot target at the loss node and invalidates the
    /// caches on the path.
    pub fn set_lbl(&mut self, lbl_onehot: &Tensor<S>)
        requires
            old(self).wf(),
            lbl_onehot.wf(),
            old(self).sp_layer().sp_lbl_ok(*lbl_onehot),
        ensures
            final(self).wf(),
            final(self).sp_layer().sp_coherent(),
            final(self).sp_layer().sp_recomputable(true),
            final(self).sp_layer().sp_recomputable(false),
            old(self).sp_layer().sp_set_lbl_rel(final(self).sp_layer(), *lbl_onehot),
            final(self).sp_layer().sp_out_rows() == old(self).sp_layer().sp_out_rows(),
            final(self).sp_layer().sp_out_cols() == old(self).sp_layer().sp_out_cols(),
            final(self).sp_layer().sp_in_rows() == old(self).sp_layer().sp_in_rows(),
            final(self).sp_layer().sp_in_cols() == old(self).sp_layer().sp_in_cols(),
            final(self).sp_layer().sp_skip_rows() == old(self).sp_layer().sp_skip_rows(),
            final(self).sp_layer().sp_skip_cols() == old(self).sp_layer().sp_skip_cols(),
            old(self).sp_layer().sp_fits_like(final(self).sp_layer()),
    {
        self.last_layer.set_lbl(lbl_onehot);
    }

    /// Forward pass: compute-or-return-cached, recursively.
    pub fn forward<R: Sampler<S>>(&mut self, is_learning: bool, rng: &mut R) -> (y: Tensor<S>)
        requires
            old(self).wf(),
            old(self).sp_layer().sp_coherent(),
            old(self).sp_layer().sp_recomputable(is_learning),
        ensures
            final(self).wf(),
            final(self).sp_layer().sp_coherent(),
            final(self).sp_layer().sp_fresh_for(is_learning),
            old(self).sp_layer().sp_same_core(final(self).sp_layer()),
            final(self).sp_layer().sp_out_rows() == old(self).sp_layer().sp_out_rows(),
            final(self).sp_layer().sp_out_cols() == old(self).sp_layer().sp_out_cols(),
            final(self).sp_layer().sp_in_rows() == old(self).sp_layer().sp_in_rows(),
            final(self).sp_layer().sp_in_cols() == old(self).sp_layer().sp_in_cols(),
            final(self).sp_layer().sp_skip_rows() == old(self).sp_layer().sp_skip_rows(),
            final(self).sp_layer().sp_skip_cols() == old(self).sp_layer().sp_skip_cols(),
            old(self).sp_layer().sp_fits_like(final(self).sp_layer()),
            y.wf(),
            y.sp_is_shape(old(self).sp_layer().sp_out_rows(), old(self).sp_layer().sp_out_cols()),
            crate::tensor::sp_t_eq(y, final(self).sp_layer().sp_cached_out()),
            old(self).sp_layer().sp_fresh_for(is_learning) ==> *final(self) == *old(self),
    {
        self.last_layer.forward(is_learning, rng)
    }

    /// One evaluation: ten random minibatches from the given data, average
    /// argmax accuracy and average loss.  The graph's parameters are left
    /// untouched; only caches and the input and target leaves change.
    pub fn test<R: Sampler<S>>(
        &mut self,
        batch_size: usize,
        tst_data: &Tensor<S>,
        tst_lbl_onehot: &Tensor<S>,
        rng: &mut R,
    ) -> (r: (S, S))
        requires
            old(self).wf(),
            batch_size > 0,
            batch_size == old(self).sp_layer().sp_in_rows(),
            tst_data.wf(),
            tst_lbl_onehot.wf(),
            tst_data.sp_rows() > 0,
            tst_data.sp_rows() == tst_lbl_onehot.sp_rows(),
            tst_data.sp_cols() == old(self).sp_layer().sp_in_cols(),
            old(self).sp_layer().sp_lbl_fits(batch_size as int, tst_lbl_onehot.sp_cols()),
            tst_lbl_onehot.sp_cols() == old(self).sp_layer().sp_skip_cols(),
            old(self).sp_layer().sp_skip_cols() > 0,
            old(self).sp_layer().sp_out_rows() * old(self).sp_layer().sp_out_cols() <= usize::MAX,
        ensures
            final(self).wf(),
            final(self).sp_layer().sp_coherent(),
            final(self).sp_layer().sp_out_rows() == old(self).sp_layer().sp_out_rows(),
            final(self).sp_layer().sp_out_cols() == old(self).sp_layer().sp_out_cols(),
            final(self).sp_layer().sp_in_rows() == old(self).sp_layer().sp_in_rows(),
            final(self).sp_layer().sp_in_cols() == old(self).sp_layer().sp_in_cols(),
            final(self).sp_layer().sp_skip_rows() == old(self).sp_layer().sp_skip_rows(),
            final(self).sp_layer().sp_skip_cols() == old(self).sp_layer().sp_skip_cols(),
            old(self).sp_layer().sp_fits_like(final(self).sp_layer()),
            old(self).sp_layer().sp_same_core_mod_io(final(self).sp_layer()),
            sp_test_eval(
                old(self).sp_layer(),
                final(self).sp_layer(),
                *tst_data,
                *tst_lbl_onehot,
                batch_size as int,
                r.0,
                r.1,
            ),
    {
        let ghost l0 = old(self).sp_layer();
        proof {
            crate::layer::lemma_fits_like_refl(l0);
            crate::layer::lemma_rows_preserved(l0);
            crate::layer::lemma_mod_io_refl(l0);
        }
        let ten: S = S::from_u64(10);
        let mut correct_rate: S = S::zero();
        let mut loss: S = S::zero();
        let ghost mut rounds: Seq<(Tensor<S>, Tensor<S>, Layer<S>, Layer<S>, Layer<S>, S, S)> =
            Seq::empty();
        let mut round: usize = 0;
        while round < 10
            invariant
                self.wf(),
                batch_size > 0,
                tst_data.wf(),
                tst_lbl_onehot.wf(),
                tst_data.sp_rows() > 0,
                tst_data.sp_rows() == tst_lbl_onehot.sp_rows(),
                ten == S::sp_from_u64(10),
                round > 0 ==> self.sp_layer().sp_coherent(),
                l0.sp_skip_rows() == l0.sp_in_rows(),
                self.sp_layer().sp_out_rows() == l0.sp_out_rows(),
                self.sp_layer().sp_out_cols() == l0.sp_out_cols(),
                self.sp_layer().sp_in_rows() == l0.sp_in_rows(),
                self.sp_layer().sp_in_cols() == l0.sp_in_cols(),
                self.sp_layer().sp_skip_rows() == l0.sp_skip_rows(),
                self.sp_layer().sp_skip_cols() == l0.sp_skip_cols(),
                l0.sp_fits_like(self.sp_layer()),
                l0.sp_same_core_mod_io(self.sp_layer()),
                batch_size == l0.sp_in_rows(),
                tst_data.sp_cols() == l0.sp_in_cols(),
                l0.sp_lbl_fits(batch_size as int, tst_lbl_onehot.sp_cols()),
                tst_lbl_onehot.sp_cols() == l0.sp_skip_cols(),
                l0.sp_skip_cols() > 0,
                l0.sp_out_rows() * l0.sp_out_cols() <= usize::MAX,
                round <= 10,
                rounds.len() == round,
                forall|k: int|
                    0 <= k < round ==> #[trigger] sp_test_round(
                        sp_round_pre(l0, rounds, k),
                        rounds[k],
                        *tst_data,
                        *tst_lbl_onehot,
                        batch_size as int,
                    ),
                round > 0 ==> self.sp_layer() == rounds[round - 1].4,
                round == 0 ==> self.sp_layer() == l0,
                loss == sp_test_acc(rounds, round as int).0,
                correct_rate == sp_test_acc(rounds, round as int).1,
            decreases 10 - round,
        {
            let (batch_data, batch_lbl_onehot) = make_minibatch_data(
                batch_size,
                tst_data,
                tst_lbl_onehot,
                rng,
            );
            let ghost l_pre = self.sp_layer();
            self.set_input(&batch_data);
            proof {
                crate::layer::lemma_fits_like_fits(
                    l0,
                    l_pre,
                    batch_size as int,
                    tst_lbl_onehot.sp_cols(),
                );
                crate::layer::lemma_fits_like_fits(
                    l_pre,
                    self.sp_layer(),
                    batch_size as int,
                    tst_lbl_onehot.sp_cols(),
                );
                crate::layer::lemma_fits_like_trans(l0, l_pre, self.sp_layer());
                crate::layer::lemma_set_value_rel_mod_io(l_pre, self.sp_layer(), batch_data);
                crate::layer::lemma_mod_io_trans(l0, l_pre, self.sp_layer());
            }
            let ghost l_in = self.sp_layer();
            self.set_lbl(&batch_lbl_onehot);
            proof {
                crate::layer::lemma_fits_like_trans(l0, l_in, self.sp_layer());
                crate::layer::lemma_set_lbl_rel_mod_io(l_in, self.sp_layer(), batch_lbl_onehot);
                crate::layer::lemma_mod_io_trans(l0, l_in, self.sp_layer());
            }
            let ghost l_lbl = self.sp_layer();
            let batch_loss = self.forward(false, rng);
            proof {
                crate::layer::lemma_fits_like_trans(l0, l_lbl, self.sp_layer());
                crate::layer::lemma_same_core_mod_io(l_lbl, self.sp_layer());
                crate::layer::lemma_mod_io_trans(l0, l_lbl, self.sp_layer());
            }
            let ghost l_fwd = self.sp_layer();
            proof {
                crate::layer::lemma_fresh_implies_recomputable(l_fwd, false);
                crate::layer::lemma_fresh_skip_fresh(l_fwd, false);
            }
            let test_res = self.last_layer.forward_skip_loss(false, rng);
            proof {
                assert(l_fwd.sp_skip_fresh_for(false));
                assert(self.sp_layer() == l_fwd);
                assert(crate::tensor::sp_t_eq(test_res, l_fwd.sp_skip_out()));
            }
            let rate = calc_correct_rate(&test_res, &batch_lbl_onehot);
            correct_rate = correct_rate.add(rate.div(ten));
            let loss_sum = sum_all(&batch_loss);
            let n = batch_loss.rows() * batch_loss.cols();
            let loss_mean = loss_sum.div(S::from_u64(n as u64));
            loss = loss.add(loss_mean.div(ten));
            proof {
                let w = (batch_data, batch_lbl_onehot, l_in, l_lbl, l_fwd, rate, loss_mean);
                lemma_correct_count_congr(
                    &test_res,
                    &l_fwd.sp_skip_out(),
                    &batch_lbl_onehot,
                    test_res.sp_rows(),
                );
                lemma_sum_all_congr(&batch_loss, &l_fwd.sp_cached_out());
                assert(sp_test_round(
                    l_pre,
                    w,
                    *tst_data,
                    *tst_lbl_onehot,
                    batch_size as int,
                ));
                lemma_test_acc_push(rounds, w, round as int);
                let rounds0 = rounds;
                rounds = rounds.push(w);
                assert forall|k: int| 0 <= k < round + 1 implies #[trigger] sp_test_round(
                    sp_round_pre(l0, rounds, k),
                    rounds[k],
                    *tst_data,
                    *tst_lbl_onehot,
                    batch_size as int,
                ) by {
                    if k < round {
                        assert(rounds[k] == rounds0[k]);
                        assert(sp_round_pre(l0, rounds, k) == sp_round_pre(l0, rounds0, k));
                        assert(sp_test_round(
                            sp_round_pre(l0, rounds0, k),
                            rounds0[k],
                            *tst_data,
                            *tst_lbl_onehot,
                            batch_size as int,
                        ));
                    } else {
                        assert(rounds[k] == w);
                        assert(sp_round_pre(l0, rounds, k) == l_pre);
                    }
                }
            }
            round = round + 1;
        }
        proof {
            assert(rounds.len() == 10);
            assert(self.sp_layer() == rounds[9].4);
            assert(loss == sp_test_acc(rounds, 10).0);
            assert(correct_rate == sp_test_acc(rounds, 10).1);
            assert(sp_test_eval(
                l0,
                self.sp_layer(),
                *tst_data,
                *tst_lbl_onehot,
                batch_size as int,
                loss,
                correct_rate,
            ));
        }
        (loss, correct_rate)
    }

    /// The training loop: for each iteration, sample a minibatch, set input
    /// and target, run a forward pass in training mode, push a ones seed
    /// gradient backward (updating every parameter through its optimizer),
    /// and record test- and training-set metrics.  Returns the histories:
    /// test accuracy, test loss, training accuracy, training loss, each one
    /// entry per iteration plus the initial evaluation.
    pub fn learn<R: Sampler<S>>(
        &mut self,
        parameter: LearningParameter,
        resource: LearningResource<S>,
        rng: &mut R,
    ) -> (r: (Vec<S>, Vec<S>, Vec<S>, Vec<S>))
        requires
            old(self).wf(),
            old(self).sp_layer().sp_coherent(),
            old(self).sp_layer().sp_recomputable(true),
            old(self).sp_layer().sp_recomputable(false),
            parameter.batch_size > 0,
            parameter.batch_size == old(self).sp_layer().sp_in_rows(),
            resource.trn_data.wf(),
            resource.trn_lbl_onehot.wf(),
            resource.tst_data.wf(),
            resource.tst_lbl_onehot.wf(),
            resource.trn_data.sp_rows() > 0,
            resource.trn_data.sp_rows() == resource.trn_lbl_onehot.sp_rows(),
            resource.trn_data.sp_cols() == old(self).sp_layer().sp_in_cols(),
            old(self).sp_layer().sp_lbl_fits(
                parameter.batch_size as int,
                resource.trn_lbl_onehot.sp_cols(),
            ),
            resource.trn_lbl_onehot.sp_cols() == old(self).sp_layer().sp_skip_cols(),
            resource.tst_data.sp_rows() > 0,
            resource.tst_data.sp_rows() == resource.tst_lbl_onehot.sp_rows(),
            resource.tst_data.sp_cols() == old(self).sp_layer().sp_in_cols(),
            old(self).sp_layer().sp_lbl_fits(
                parameter.batch_size as int,
                resource.tst_lbl_onehot.sp_cols(),
            ),
            resource.tst_lbl_onehot.sp_cols() == old(self).sp_layer().sp_skip_cols(),
            old(self).sp_layer().sp_skip_cols() > 0,
            old(self).sp_layer().sp_out_rows() * old(self).sp_layer().sp_out_cols() <= usize::MAX,
        ensures
            final(self).wf(),
            r.0@.len() == parameter.iterations_num + 1,
            r.1@.len() == parameter.iterations_num + 1,
            r.2@.len() == parameter.iterations_num + 1,
            r.3@.len() == parameter.iterations_num + 1,
            old(self).sp_layer().sp_fits_like(final(self).sp_layer()),
            exists|boot: (Layer<S>, Layer<S>)|
                #![trigger boot.0.sp_coherent()]
                {
                    &&& sp_test_eval(
                        old(self).sp_layer(),
                        boot.0,
                        resource.tst_data,
                        resource.tst_lbl_onehot,
                        parameter.batch_size as int,
                        r.1@[0],
                        r.0@[0],
                    )
                    &&& sp_test_eval(
                        boot.0,
                        boot.1,
                        resource.trn_data,
                        resource.trn_lbl_onehot,
                        parameter.batch_size as int,
                        r.3@[0],
                        r.2@[0],
                    )
                    &&& exists|
                        steps: Seq<
                            (
                                Tensor<S>,
                                Tensor<S>,
                                Layer<S>,
                                Layer<S>,
                                Layer<S>,
                                Tensor<S>,
                                Layer<S>,
                                Layer<S>,
                                Layer<S>,
                            ),
                        >|
                        #![trigger steps.len()]
                        sp_train_chain(
                            boot.1,
                            final(self).sp_layer(),
                            steps,
                            parameter.iterations_num as int,
                            resource.trn_data,
                            resource.trn_lbl_onehot,
                            resource.tst_data,
                            resource.tst_lbl_onehot,
                            parameter.batch_size as int,
                            r.0@,
                            r.1@,
                            r.2@,
                            r.3@,
                        )
                },
    {
        let ghost l0 = old(self).sp_layer();
        proof {
            crate::layer::lemma_fits_like_refl(l0);
            crate::layer::lemma_rows_preserved(l0);
        }
        let mut correct_rates: Vec<S> = Vec::new();
        let mut losses: Vec<S> = Vec::new();
        let mut correct_rates_o: Vec<S> = Vec::new();
        let mut losses_o: Vec<S> = Vec::new();
        let ghost l_a = self.sp_layer();
        let (loss, rate) = self.test(
            parameter.batch_size,
            &resource.tst_data,
            &resource.tst_lbl_onehot,
            rng,
        );
        proof {
            crate::layer::lemma_fits_like_trans(l0, l_a, self.sp_layer());
        }
        let ghost boot0 = self.sp_layer();
        let ghost loss_init_t = loss;
        let ghost rate_init_t = rate;
        correct_rates.push(rate);
        losses.push(loss);
        let ghost l_b = self.sp_layer();
        proof {
            crate::layer::lemma_fits_like_fits(
                l0,
                l_b,
                parameter.batch_size as int,
                resource.trn_lbl_onehot.sp_cols(),
            );
        }
        let (loss, rate) = self.test(
            parameter.batch_size,
            &resource.trn_data,
            &resource.trn_lbl_onehot,
            rng,
        );
        proof {
            crate::layer::lemma_fits_like_trans(l0, l_b, self.sp_layer());
        }
        let ghost boot1 = self.sp_layer();
        let ghost loss_init_o = loss;
        let ghost rate_init_o = rate;
        correct_rates_o.push(rate);
        losses_o.push(loss);
        let ghost mut steps: Seq<
            (
                Tensor<S>,
                Tensor<S>,
                Layer<S>,
                Layer<S>,
                Layer<S>,
                Tensor<S>,
                Layer<S>,
                Layer<S>,
                Layer<S>,
            ),
        > = Seq::empty();
        let mut iteration: u32 = 0;
        while iteration < parameter.iterations_num
            invariant
                self.wf(),
                parameter.batch_size > 0,
                resource.trn_data.wf(),
                resource.trn_lbl_onehot.wf(),
                resource.tst_data.wf(),
                resource.tst_lbl_onehot.wf(),
                resource.trn_data.sp_rows() > 0,
                resource.trn_data.sp_rows() == resource.trn_lbl_onehot.sp_rows(),
                resource.tst_data.sp_rows() > 0,
                resource.tst_data.sp_rows() == resource.tst_lbl_onehot.sp_rows(),
                iteration <= parameter.iterations_num,
                correct_rates@.len() == iteration + 1,
                losses@.len() == iteration + 1,
                correct_rates_o@.len() == iteration + 1,
                losses_o@.len() == iteration + 1,
                correct_rates@[0] == rate_init_t,
                losses@[0] == loss_init_t,
                correct_rates_o@[0] == rate_init_o,
                losses_o@[0] == loss_init_o,
                sp_test_eval(
                    l0,
                    boot0,
                    resource.tst_data,
                    resource.tst_lbl_onehot,
                    parameter.batch_size as int,
                    loss_init_t,
                    rate_init_t,
                ),
                sp_test_eval(
                    boot0,
                    boot1,
                    resource.trn_data,
                    resource.trn_lbl_onehot,
                    parameter.batch_size as int,
                    loss_init_o,
                    rate_init_o,
                ),
                boot0.sp_coherent(),
                steps.len() == iteration,
                forall|k: int|
                    0 <= k < iteration ==> #[trigger] sp_train_step(
                        sp_step_pre(boot1, steps, k),
                        steps[k],
                        resource.trn_data,
                        resource.trn_lbl_onehot,
                        resource.tst_data,
                        resource.tst_lbl_onehot,
                        parameter.batch_size as int,
                        losses@[k + 1],
                        correct_rates@[k + 1],
                        losses_o@[k + 1],
                        correct_rates_o@[k + 1],
                    ),
                iteration > 0 ==> self.sp_layer() == steps[iteration - 1].8,
                iteration == 0 ==> self.sp_layer() == boot1,
                self.sp_layer().sp_out_rows() == l0.sp_out_rows(),
                self.sp_layer().sp_out_cols() == l0.sp_out_cols(),
                self.sp_layer().sp_in_rows() == l0.sp_in_rows(),
                self.sp_layer().sp_in_cols() == l0.sp_in_cols(),
                self.sp_layer().sp_skip_rows() == l0.sp_skip_rows(),
                self.sp_layer().sp_skip_cols() == l0.sp_skip_cols(),
                l0.sp_fits_like(self.sp_layer()),
                parameter.batch_size == l0.sp_in_rows(),
                resource.trn_data.sp_cols() == l0.sp_in_cols(),
                l0.sp_lbl_fits(parameter.batch_size as int, resource.trn_lbl_onehot.sp_cols()),
                resource.trn_lbl_onehot.sp_cols() == l0.sp_skip_cols(),
                resource.tst_data.sp_cols() == l0.sp_in_cols(),
                l0.sp_lbl_fits(parameter.batch_size as int, resource.tst_lbl_onehot.sp_cols()),
                resource.tst_lbl_onehot.sp_cols() == l0.sp_skip_cols(),
                l0.sp_skip_cols() > 0,
                l0.sp_out_rows() * l0.sp_out_cols() <= usize::MAX,
            decreases parameter.iterations_num - iteration,
        {
            let (batch_data, batch_lbl_onehot) = make_minibatch_data(
                parameter.batch_size,
                &resource.trn_data,
                &resource.trn_lbl_onehot,
                rng,
            );
            let ghost l_pre = self.sp_layer();
            self.set_input(&batch_data);
            proof {
                crate::layer::lemma_fits_like_fits(
                    l0,
                    l_pre,
                    parameter.batch_size as int,
                    resource.trn_lbl_onehot.sp_cols(),
                );
                crate::layer::lemma_fits_like_fits(
                    l_pre,
                    self.sp_layer(),
                    parameter.batch_size as int,
                    resource.trn_lbl_onehot.sp_cols(),
                );
                crate::layer::lemma_fits_like_trans(l0, l_pre, self.sp_layer());
            }
            let ghost l_set = self.sp_layer();
            self.set_lbl(&batch_lbl_onehot);
            proof {
                crate::layer::lemma_fits_like_trans(l0, l_set, self.sp_layer());
            }
            let ghost l_lbl = self.sp_layer();
            let y = self.forward(true, rng);
            proof {
                crate::layer::lemma_fits_like_trans(l0, l_lbl, self.sp_layer());
                crate::layer::lemma_fresh_implies_recomputable(self.sp_layer(), true);
            }
            let init_dout = Tensor::ones(y.rows(), y.cols());
            let ghost l_fwd = self.sp_layer();
            self.last_layer.backward(&init_dout, rng);
            proof {
                crate::layer::lemma_fits_like_trans(l0, l_fwd, self.sp_layer());
            }
            let ghost l_bwd = self.sp_layer();
            proof {
                crate::layer::lemma_fits_like_fits(
                    l0,
                    l_bwd,
                    parameter.batch_size as int,
                    resource.tst_lbl_onehot.sp_cols(),
                );
            }
            let (loss, rate) = self.test(
                parameter.batch_size,
                &resource.tst_data,
                &resource.tst_lbl_onehot,
                rng,
            );
            proof {
                crate::layer::lemma_fits_like_trans(l0, l_bwd, self.sp_layer());
            }
            let ghost loss_t = loss;
            let ghost rate_t = rate;
            correct_rates.push(rate);
            losses.push(loss);
            let ghost l_t1 = self.sp_layer();
            proof {
                crate::layer::lemma_fits_like_fits(
                    l0,
                    l_t1,
                    parameter.batch_size as int,
                    resource.trn_lbl_onehot.sp_cols(),
                );
            }
            let (loss, rate) = self.test(
                parameter.batch_size,
                &resource.trn_data,
                &resource.trn_lbl_onehot,
                rng,
            );
            proof {
                crate::layer::lemma_fits_like_trans(l0, l_t1, self.sp_layer());
            }
            let ghost loss_o = loss;
            let ghost rate_o = rate;
            correct_rates_o.push(rate);
            losses_o.push(loss);
            proof {
                let l_t2 = self.sp_layer();
                let w = (
                    batch_data,
                    batch_lbl_onehot,
                    l_set,
                    l_lbl,
                    l_fwd,
                    init_dout,
                    l_bwd,
                    l_t1,
                    l_t2,
                );
                assert(sp_train_step(
                    l_pre,
                    w,
                    resource.trn_data,
                    resource.trn_lbl_onehot,
                    resource.tst_data,
                    resource.tst_lbl_onehot,
                    parameter.batch_size as int,
                    loss_t,
                    rate_t,
                    loss_o,
                    rate_o,
                ));
                let steps0 = steps;
                steps = steps.push(w);
                assert forall|k: int| 0 <= k < iteration + 1 implies #[trigger] sp_train_step(
                    sp_step_pre(boot1, steps, k),
                    steps[k],
                    resource.trn_data,
                    resource.trn_lbl_onehot,
                    resource.tst_data,
                    resource.tst_lbl_onehot,
                    parameter.batch_size as int,
                    losses@[k + 1],
                    correct_rates@[k + 1],
                    losses_o@[k + 1],
                    correct_rates_o@[k + 1],
                ) by {
                    if k < iteration {
                        assert(steps[k] == steps0[k]);
                        assert(sp_step_pre(boot1, steps, k) == sp_step_pre(boot1, steps0, k));
                        assert(sp_train_step(
                            sp_step_pre(boot1, steps0, k),
                            steps0[k],
                            resource.trn_data,
                            resource.trn_lbl_onehot,
                            resource.tst_data,
                            resource.tst_lbl_onehot,
                            parameter.batch_size as int,
                            losses@[k + 1],
                            correct_rates@[k + 1],
                            losses_o@[k + 1],
                            correct_rates_o@[k + 1],
                        ));
                    } else {
                        assert(steps[k] == w);
                        assert(sp_step_pre(boot1, steps, k) == l_pre);
                    }
                }
            }
            iteration = iteration + 1;
        }
        proof {
            assert(sp_train_chain(
                boot1,
                self.sp_layer(),
                steps,
                parameter.iterations_num as int,
                resource.trn_data,
                resource.trn_lbl_onehot,
                resource.tst_data,
                resource.tst_lbl_onehot,
                parameter.batch_size as int,
                correct_rates@,
                losses@,
                correct_rates_o@,
                losses_o@,
            ));
            let bw = (boot0, boot1);
            assert(bw.0.sp_coherent());
            assert(sp_test_eval(
                l0,
                bw.0,
                resource.tst_data,
                resource.tst_lbl_onehot,
                parameter.batch_size as int,
                losses@[0],
                correct_rates@[0],
            ));
            assert(sp_test_eval(
                bw.0,
                bw.1,
                resource.trn_data,
                resource.trn_lbl_onehot,
                parameter.batch_size as int,
                losses_o@[0],
                correct_rates_o@[0],
            ));
        }
        (correct_rates, losses, correct_rates_o, losses_o)
    }
}

/// Evaluates an already assembled network on held-out data: the compute
/// part of a guessing run over a stored model.
pub fn guess_main<S: Scalar, R: Sampler<S>>(
    nn: &mut NeuralNetwork<S>,
    batch_size: usize,
    tst_data: &Tensor<S>,
    tst_lbl_onehot: &Tensor<S>,
    rng: &mut R,
) -> (r: (S, S))
    requires
        old(nn).wf(),
        batch_size > 0,
        batch_size == old(nn).sp_layer().sp_in_rows(),
        tst_data.wf(),
        tst_lbl_onehot.wf(),
        tst_data.sp_rows() > 0,
        tst_data.sp_rows() == tst_lbl_onehot.sp_rows(),
        tst_data.sp_cols() == old(nn).sp_layer().sp_in_cols(),
        old(nn).sp_layer().sp_lbl_fits(batch_size as int, tst_lbl_onehot.sp_cols()),
        tst_lbl_onehot.sp_cols() == old(nn).sp_layer().sp_skip_cols(),
        old(nn).sp_layer().sp_skip_cols() > 0,
        old(nn).sp_layer().sp_out_rows() * old(nn).sp_layer().sp_out_cols() <= usize::MAX,
    ensures
        final(nn).wf(),
        final(nn).sp_layer().sp_coherent(),
        old(nn).sp_layer().sp_same_core_mod_io(final(nn).sp_layer()),
        sp_test_eval(
            old(nn).sp_layer(),
            final(nn).sp_layer(),
            *tst_data,
            *tst_lbl_onehot,
            batch_size as int,
            r.0,
            r.1,
        ),
    {
    nn.test(batch_size, tst_data, tst_lbl_onehot, rng)
}

} // verus!
