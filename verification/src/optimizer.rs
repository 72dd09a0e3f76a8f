//! Parameter-update strategies.
//!
//! Every optimizer consumes `(parameter, gradient)` and produces the updated
//! parameter, keeping whatever per-parameter accumulators it needs across
//! calls.  Each `update` contract pins every entry of the result and of the
//! new accumulator state down exactly.

use vstd::prelude::*;

use crate::scalar::Scalar;
use crate::tensor::Tensor;

verus! {

/// The small constant added under square roots to avoid dividing by zero:
/// one millionth.
pub open spec fn sp_epsilon<S: Scalar>() -> S {
    S::sp_one().sp_div(S::sp_from_u64(1000000))
}

/// Executable counterpart of [`sp_epsilon`].
pub fn epsilon<S: Scalar>() -> (r: S)
    ensures
        r == sp_epsilon::<S>(),
{
    S::one().div(S::from_u64(1000000))
}

/// `base` raised to the power `n` by repeated multiplication from one.
pub open spec fn sp_powi<S: Scalar>(base: S, n: nat) -> S
    decreases n,
{
    if n == 0 {
        S::sp_one()
    } else {
        sp_powi(base, (n - 1) as nat).sp_mul(base)
    }
}

/// Executable counterpart of [`sp_powi`].
pub fn scalar_powi<S: Scalar>(base: S, n: u64) -> (r: S)
    ensures
        r == sp_powi(base, n as nat),
{
    let mut acc: S = S::one();
    let mut i: u64 = 0;
    while i < n
        invariant
            i <= n,
            acc == sp_powi(base, i as nat),
        decreases n - i,
    {
        acc = acc.mul(base);
        i = i + 1;
    }
    acc
}

/// Plain stochastic gradient descent: `target - lr * grad`.
pub struct Sgd<S: Scalar> {
    pub learning_rate: S,
}

/// Entry of an SGD update.
pub open spec fn sp_sgd_step<S: Scalar>(lr: S, t: S, g: S) -> S {
    t.sp_sub(g.sp_mul(lr))
}

impl<S: Scalar> Sgd<S> {
    pub fn new(learning_rate: S) -> (r: Sgd<S>)
        ensures
            r.learning_rate == learning_rate,
    {
        Sgd { learning_rate }
    }

    /// `target - lr * grad`, elementwise.
    pub fn update(&mut self, target: &Tensor<S>, gradient: &Tensor<S>) -> (r: Tensor<S>)
        requires
            target.wf(),
            gradient.wf(),
            target.sp_same_shape(gradient),
        ensures
            *final(self) == *old(self),
            r.wf(),
            r.sp_same_shape(target),
            forall|i: int, j: int|
                0 <= i < target.sp_rows() && 0 <= j < target.sp_cols() ==> #[trigger] r.sp_at(i, j)
                    == sp_sgd_step(old(self).learning_rate, target.sp_at(i, j), gradient.sp_at(i, j)),
    {
        let scaled = gradient.scale(self.learning_rate);
        target.ew_sub(&scaled)
    }
}

/// Momentum: a velocity accumulator dragged by friction.
pub struct Momentum<S: Scalar> {
    pub learning_rate: S,
    pub friction: S,
    pub velocity: Option<Tensor<S>>,
}

/// Entry of the new momentum velocity: `friction * v - lr * grad`.
pub open spec fn sp_momentum_vel<S: Scalar>(lr: S, friction: S, v: S, g: S) -> S {
    v.sp_mul(friction).sp_sub(g.sp_mul(lr))
}

/// The accumulator entry before an update: zero until the first call.
pub open spec fn sp_acc_at<S: Scalar>(acc: Option<Tensor<S>>, i: int, j: int) -> S {
    match acc {
        Some(t) => t.sp_at(i, j),
        None => S::sp_zero(),
    }
}

/// The accumulator is absent or a well-formed tensor of the given shape.
pub open spec fn sp_acc_ok<S: Scalar>(acc: Option<Tensor<S>>, rows: int, cols: int) -> bool {
    match acc {
        Some(t) => t.wf() && t.sp_is_shape(rows, cols),
        None => true,
    }
}

impl<S: Scalar> Momentum<S> {
    pub fn new(learning_rate: S, friction: S) -> (r: Momentum<S>)
        ensures
            r.learning_rate == learning_rate,
            r.friction == friction,
            r.velocity is None,
    {
        Momentum { learning_rate, friction, velocity: None }
    }

    /// `v = friction * v - lr * grad; target + v`, elementwise; the velocity
    /// starts from zero on the first call.
    pub fn update(&mut self, target: &Tensor<S>, gradient: &Tensor<S>) -> (r: Tensor<S>)
        requires
            target.wf(),
            gradient.wf(),
            target.sp_same_shape(gradient),
            sp_acc_ok(old(self).velocity, target.sp_rows(), target.sp_cols()),
        ensures
            final(self).learning_rate == old(self).learning_rate,
            final(self).friction == old(self).friction,
            r.wf(),
            r.sp_same_shape(target),
            final(self).velocity is Some,
            sp_acc_ok(final(self).velocity, target.sp_rows(), target.sp_cols()),
            forall|i: int, j: int|
                0 <= i < target.sp_rows() && 0 <= j < target.sp_cols()
                    ==> #[trigger] sp_acc_at(final(self).velocity, i, j) == sp_momentum_vel(
                    old(self).learning_rate,
                    old(self).friction,
                    sp_acc_at(old(self).velocity, i, j),
                    gradient.sp_at(i, j),
                ),
            forall|i: int, j: int|
                0 <= i < target.sp_rows() && 0 <= j < target.sp_cols() ==> #[trigger] r.sp_at(i, j)
                    == target.sp_at(i, j).sp_add(sp_acc_at(final(self).velocity, i, j)),
    {
        let rows = target.rows();
        let cols = target.cols();
        let old_vel = match &self.velocity {
            Some(v) => v.duplicate(),
            None => Tensor::zeros(rows, cols),
        };
        proof {
            assert(forall|i: int, j: int|
                0 <= i < target.sp_rows() && 0 <= j < target.sp_cols()
                    ==> #[trigger] old_vel.sp_at(i, j) == sp_acc_at(old(self).velocity, i, j));
        }
        let scaled_grad = gradient.scale(self.learning_rate);
        let vel = old_vel.scale(self.friction).ew_sub(&scaled_grad);
        let r = target.ew_add(&vel);
        self.velocity = Some(vel);
        r
    }
}

/// Entry of the shared adaptive step used by RMSProp and AdaGrad:
/// `t - lr / sqrt(acc + epsilon) * g`.
pub open spec fn sp_adaptive_step<S: Scalar>(lr: S, acc: S, t: S, g: S) -> S {
    t.sp_sub(lr.sp_div(acc.sp_add(sp_epsilon::<S>()).sp_sqrt()).sp_mul(g))
}

/// RMSProp: a running, friction-weighted average of squared gradients.
pub struct Rmsprop<S: Scalar> {
    pub learning_rate: S,
    pub friction: S,
    pub velocity: Option<Tensor<S>>,
}

/// Entry of the new RMSProp accumulator:
/// `friction * s + grad * grad * (1 - friction)`.
pub open spec fn sp_rmsprop_acc<S: Scalar>(friction: S, s: S, g: S) -> S {
    s.sp_mul(friction).sp_add(g.sp_mul(g).sp_mul(S::sp_one().sp_sub(friction)))
}

impl<S: Scalar> Rmsprop<S> {
    pub fn new(learning_rate: S, friction: S) -> (r: Rmsprop<S>)
        ensures
            r.learning_rate == learning_rate,
            r.friction == friction,
            r.velocity is None,
    {
        Rmsprop { learning_rate, friction, velocity: None }
    }

    /// `s = friction * s + (1 - friction) * grad^2;
    /// target - lr / sqrt(s + epsilon) * grad`, elementwise.
    pub fn update(&mut self, target: &Tensor<S>, gradient: &Tensor<S>) -> (r: Tensor<S>)
        requires
            target.wf(),
            gradient.wf(),
            target.sp_same_shape(gradient),
            sp_acc_ok(old(self).velocity, target.sp_rows(), target.sp_cols()),
        ensures
            final(self).learning_rate == old(self).learning_rate,
            final(self).friction == old(self).friction,
            r.wf(),
            r.sp_same_shape(target),
            final(self).velocity is Some,
            sp_acc_ok(final(self).velocity, target.sp_rows(), target.sp_cols()),
            forall|i: int, j: int|
                0 <= i < target.sp_rows() && 0 <= j < target.sp_cols()
                    ==> #[trigger] sp_acc_at(final(self).velocity, i, j) == sp_rmsprop_acc(
                    old(self).friction,
                    sp_acc_at(old(self).velocity, i, j),
                    gradient.sp_at(i, j),
                ),
            forall|i: int, j: int|
                0 <= i < target.sp_rows() && 0 <= j < target.sp_cols() ==> #[trigger] r.sp_at(i, j)
                    == sp_adaptive_step(
                    old(self).learning_rate,
                    sp_acc_at(final(self).velocity, i, j),
                    target.sp_at(i, j),
                    gradient.sp_at(i, j),
                ),
    {
        let rows = target.rows();
        let cols = target.cols();
        let old_vel = match &self.velocity {
            Some(v) => v.duplicate(),
            None => Tensor::zeros(rows, cols),
        };
        proof {
            assert(forall|i: int, j: int|
                0 <= i < target.sp_rows() && 0 <= j < target.sp_cols()
                    ==> #[trigger] old_vel.sp_at(i, j) == sp_acc_at(old(self).velocity, i, j));
        }
        let one_minus = S::one().sub(self.friction);
        let gg = gradient.ew_mul(gradient).scale(one_minus);
        let vel = old_vel.scale(self.friction).ew_add(&gg);
        let r = adaptive_result(self.learning_rate, &vel, target, gradient);
        self.velocity = Some(vel);
        r
    }
}

/// AdaGrad: a running sum of squared gradients.
pub struct AdaGrad<S: Scalar> {
    pub learning_rate: S,
    pub grad_squared_sum: Option<Tensor<S>>,
}

impl<S: Scalar> AdaGrad<S> {
    pub fn new(learning_rate: S) -> (r: AdaGrad<S>)
        ensures
            r.learning_rate == learning_rate,
            r.grad_squared_sum is None,
    {
        AdaGrad { learning_rate, grad_squared_sum: None }
    }

    /// `s += grad^2; target - lr / sqrt(s + epsilon) * grad`, elementwise.
    pub fn update(&mut self, target: &Tensor<S>, gradient: &Tensor<S>) -> (r: Tensor<S>)
        requires
            target.wf(),
            gradient.wf(),
            target.sp_same_shape(gradient),
            sp_acc_ok(old(self).grad_squared_sum, target.sp_rows(), target.sp_cols()),
        ensures
            final(self).learning_rate == old(self).learning_rate,
            r.wf(),
            r.sp_same_shape(target),
            final(self).grad_squared_sum is Some,
            sp_acc_ok(final(self).grad_squared_sum, target.sp_rows(), target.sp_cols()),
            forall|i: int, j: int|
                0 <= i < target.sp_rows() && 0 <= j < target.sp_cols()
                    ==> #[trigger] sp_acc_at(final(self).grad_squared_sum, i, j) == sp_acc_at(
                    old(self).grad_squared_sum,
                    i,
                    j,
                ).sp_add(gradient.sp_at(i, j).sp_mul(gradient.sp_at(i, j))),
            forall|i: int, j: int|
                0 <= i < target.sp_rows() && 0 <= j < target.sp_cols() ==> #[trigger] r.sp_at(i, j)
                    == sp_adaptive_step(
                    old(self).learning_rate,
                    sp_acc_at(final(self).grad_squared_sum, i, j),
                    target.sp_at(i, j),
                    gradient.sp_at(i, j),
                ),
    {
        let rows = target.rows();
        let cols = target.cols();
        let old_acc = match &self.grad_squared_sum {
            Some(v) => v.duplicate(),
            None => Tensor::zeros(rows, cols),
        };
        proof {
            assert(forall|i: int, j: int|
                0 <= i < target.sp_rows() && 0 <= j < target.sp_cols()
                    ==> #[trigger] old_acc.sp_at(i, j) == sp_acc_at(
                    old(self).grad_squared_sum,
                    i,
                    j,
                ));
        }
        let gg = gradient.ew_mul(gradient);
        let acc = old_acc.ew_add(&gg);
        let r = adaptive_result(self.learning_rate, &acc, target, gradient);
        self.grad_squared_sum = Some(acc);
        r
    }
}

/// `target - lr / sqrt(acc + epsilon) * grad`, elementwise.
fn adaptive_result<S: Scalar>(lr: S, acc: &Tensor<S>, target: &Tensor<S>, gradient: &Tensor<S>) -> (r:
    Tensor<S>)
    requires
        acc.wf(),
        target.wf(),
        gradient.wf(),
        target.sp_same_shape(gradient),
        target.sp_same_shape(acc),
    ensures
        r.wf(),
        r.sp_same_shape(target),
        forall|i: int, j: int|
            0 <= i < target.sp_rows() && 0 <= j < target.sp_cols() ==> #[trigger] r.sp_at(i, j)
                == sp_adaptive_step(lr, acc.sp_at(i, j), target.sp_at(i, j), gradient.sp_at(i, j)),
{
    let eps: S = epsilon::<S>();
    let rows = target.rows();
    let cols = target.cols();
    let mut data: Vec<Vec<S>> = Vec::new();
    let mut i: usize = 0;
    while i < rows
        invariant
            acc.wf(),
            target.wf(),
            gradient.wf(),
            target.sp_same_shape(gradient),
            target.sp_same_shape(acc),
            rows == target.sp_rows(),
            cols == target.sp_cols(),
            eps == sp_epsilon::<S>(),
            i <= rows,
            data@.len() == i,
            forall|k: int| 0 <= k < i ==> (#[trigger] data@[k])@.len() == cols,
            forall|k: int, j: int|
                0 <= k < i && 0 <= j < cols ==> #[trigger] data@[k]@[j] == sp_adaptive_step(
                    lr,
                    acc.sp_at(k, j),
                    target.sp_at(k, j),
                    gradient.sp_at(k, j),
                ),
        decreases rows - i,
    {
        let mut row: Vec<S> = Vec::new();
        let mut j: usize = 0;
        while j < cols
            invariant
                acc.wf(),
                target.wf(),
                gradient.wf(),
                target.sp_same_shape(gradient),
                target.sp_same_shape(acc),
                rows == target.sp_rows(),
                cols == target.sp_cols(),
                eps == sp_epsilon::<S>(),
                i < rows,
                j <= cols,
                row@.len() == j,
                forall|m: int|
                    0 <= m < j ==> #[trigger] row@[m] == sp_adaptive_step(
                        lr,
                        acc.sp_at(i as int, m),
                        target.sp_at(i as int, m),
                        gradient.sp_at(i as int, m),
                    ),
            decreases cols - j,
        {
            let a = acc.get(i, j);
            let t = target.get(i, j);
            let g = gradient.get(i, j);
            let step = lr.div(a.add(eps).sqrt()).mul(g);
            row.push(t.sub(step));
            j = j + 1;
        }
        data.push(row);
        i = i + 1;
    }
    let r = Tensor::new(rows, cols, data);
    match r {
        Some(t) => t,
        None => {
            proof {
                assert(false);
            }
            Tensor::zeros(rows, cols)
        },
    }
}

/// Adam: first and second moment estimates with bias correction.
pub struct Adam<S: Scalar> {
    pub learning_rate: S,
    pub m: Option<Tensor<S>>,
    pub v: Option<Tensor<S>>,
    pub friction_m: S,
    pub friction_v: S,
    pub update_count: u64,
}

/// Entry of the new Adam first moment: `fm * m + (1 - fm) * g`.
pub open spec fn sp_adam_m<S: Scalar>(fm: S, m: S, g: S) -> S {
    fm.sp_mul(m).sp_add(S::sp_one().sp_sub(fm).sp_mul(g))
}

/// Entry of the new Adam second moment: `fv * v + (1 - fv) * g * g`.
pub open spec fn sp_adam_v<S: Scalar>(fv: S, v: S, g: S) -> S {
    fv.sp_mul(v).sp_add(S::sp_one().sp_sub(fv).sp_mul(g).sp_mul(g))
}

/// Entry of the Adam result: bias-corrected moments fed into the adaptive
/// step `t - lr * m_hat / sqrt(v_hat + epsilon)`.
pub open spec fn sp_adam_step<S: Scalar>(lr: S, fm: S, fv: S, count: nat, m: S, v: S, t: S) -> S {
    let m_hat = m.sp_div(S::sp_one().sp_sub(sp_powi(fm, count)));
    let v_hat = v.sp_div(S::sp_one().sp_sub(sp_powi(fv, count)));
    t.sp_sub(lr.sp_mul(m_hat).sp_div(v_hat.sp_add(sp_epsilon::<S>()).sp_sqrt()))
}

impl<S: Scalar> Adam<S> {
    pub fn new(learning_rate: S, friction_m: S, friction_v: S) -> (r: Adam<S>)
        ensures
            r.learning_rate == learning_rate,
            r.friction_m == friction_m,
            r.friction_v == friction_v,
            r.m is None,
            r.v is None,
            r.update_count == 0,
    {
        Adam { learning_rate, m: None, v: None, friction_m, friction_v, update_count: 0 }
    }

    /// One Adam step; the step counter saturates instead of overflowing.
    pub fn update(&mut self, target: &Tensor<S>, gradient: &Tensor<S>) -> (r: Tensor<S>)
        requires
            target.wf(),
            gradient.wf(),
            target.sp_same_shape(gradient),
            sp_acc_ok(old(self).m, target.sp_rows(), target.sp_cols()),
            sp_acc_ok(old(self).v, target.sp_rows(), target.sp_cols()),
        ensures
            final(self).learning_rate == old(self).learning_rate,
            final(self).friction_m == old(self).friction_m,
            final(self).friction_v == old(self).friction_v,
            final(self).update_count == if old(self).update_count < u64::MAX {
                old(self).update_count + 1
            } else {
                u64::MAX as int
            },
            r.wf(),
            r.sp_same_shape(target),
            final(self).m is Some,
            final(self).v is Some,
            sp_acc_ok(final(self).m, target.sp_rows(), target.sp_cols()),
            sp_acc_ok(final(self).v, target.sp_rows(), target.sp_cols()),
            forall|i: int, j: int|
                0 <= i < target.sp_rows() && 0 <= j < target.sp_cols()
                    ==> #[trigger] sp_acc_at(final(self).m, i, j) == sp_adam_m(
                    old(self).friction_m,
                    sp_acc_at(old(self).m, i, j),
                    gradient.sp_at(i, j),
                ),
            forall|i: int, j: int|
                0 <= i < target.sp_rows() && 0 <= j < target.sp_cols()
                    ==> #[trigger] sp_acc_at(final(self).v, i, j) == sp_adam_v(
                    old(self).friction_v,
                    sp_acc_at(old(self).v, i, j),
                    gradient.sp_at(i, j),
                ),
            forall|i: int, j: int|
                0 <= i < target.sp_rows() && 0 <= j < target.sp_cols() ==> #[trigger] r.sp_at(i, j)
                    == sp_adam_step(
                    old(self).learning_rate,
                    old(self).friction_m,
                    old(self).friction_v,
                    final(self).update_count as nat,
                    sp_acc_at(final(self).m, i, j),
                    sp_acc_at(final(self).v, i, j),
                    target.sp_at(i, j),
                ),
    {
        if self.update_count < u64::MAX {
            self.update_count = self.update_count + 1;
        }
        let rows = target.rows();
        let cols = target.cols();
        let old_m = match &self.m {
            Some(t) => t.duplicate(),
            None => Tensor::zeros(rows, cols),
        };
        let old_v = match &self.v {
            Some(t) => t.duplicate(),
            None => Tensor::zeros(rows, cols),
        };
        proof {
            assert(forall|i: int, j: int|
                0 <= i < target.sp_rows() && 0 <= j < target.sp_cols()
                    ==> #[trigger] old_m.sp_at(i, j) == sp_acc_at(old(self).m, i, j));
            assert(forall|i: int, j: int|
                0 <= i < target.sp_rows() && 0 <= j < target.sp_cols()
                    ==> #[trigger] old_v.sp_at(i, j) == sp_acc_at(old(self).v, i, j));
        }
        let one_minus_fm = S::one().sub(self.friction_m);
        let one_minus_fv = S::one().sub(self.friction_v);
        let eps: S = epsilon::<S>();
        let m_corr = S::one().sub(scalar_powi(self.friction_m, self.update_count));
        let v_corr = S::one().sub(scalar_powi(self.friction_v, self.update_count));
        let mut new_m_data: Vec<Vec<S>> = Vec::new();
        let mut new_v_data: Vec<Vec<S>> = Vec::new();
        let mut out_data: Vec<Vec<S>> = Vec::new();
        let mut i: usize = 0;
        while i < rows
            invariant
                target.wf(),
                gradient.wf(),
                old_m.wf(),
                old_v.wf(),
                target.sp_same_shape(gradient),
                old_m.sp_is_shape(rows as int, cols as int),
                old_v.sp_is_shape(rows as int, cols as int),
                rows == target.sp_rows(),
                cols == target.sp_cols(),
                eps == sp_epsilon::<S>(),
                one_minus_fm == S::sp_one().sp_sub(self.friction_m),
                one_minus_fv == S::sp_one().sp_sub(self.friction_v),
                m_corr == S::sp_one().sp_sub(sp_powi(self.friction_m, self.update_count as nat)),
                v_corr == S::sp_one().sp_sub(sp_powi(self.friction_v, self.update_count as nat)),
                i <= rows,
                new_m_data@.len() == i,
                new_v_data@.len() == i,
                out_data@.len() == i,
                forall|k: int| 0 <= k < i ==> (#[trigger] new_m_data@[k])@.len() == cols,
                forall|k: int| 0 <= k < i ==> (#[trigger] new_v_data@[k])@.len() == cols,
                forall|k: int| 0 <= k < i ==> (#[trigger] out_data@[k])@.len() == cols,
                forall|k: int, j: int|
                    0 <= k < i && 0 <= j < cols ==> #[trigger] new_m_data@[k]@[j] == sp_adam_m(
                        self.friction_m,
                        old_m.sp_at(k, j),
                        gradient.sp_at(k, j),
                    ),
                forall|k: int, j: int|
                    0 <= k < i && 0 <= j < cols ==> #[trigger] new_v_data@[k]@[j] == sp_adam_v(
                        self.friction_v,
                        old_v.sp_at(k, j),
                        gradient.sp_at(k, j),
                    ),
                forall|k: int, j: int|
                    0 <= k < i && 0 <= j < cols ==> #[trigger] out_data@[k]@[j] == sp_adam_step(
                        self.learning_rate,
                        self.friction_m,
                        self.friction_v,
                        self.update_count as nat,
                        sp_adam_m(self.friction_m, old_m.sp_at(k, j), gradient.sp_at(k, j)),
                        sp_adam_v(self.friction_v, old_v.sp_at(k, j), gradient.sp_at(k, j)),
                        target.sp_at(k, j),
                    ),
            decreases rows - i,
        {
            let mut m_row: Vec<S> = Vec::new();
            let mut v_row: Vec<S> = Vec::new();
            let mut out_row: Vec<S> = Vec::new();
            let mut j: usize = 0;
            while j < cols
                invariant
                    target.wf(),
                    gradient.wf(),
                    old_m.wf(),
                    old_v.wf(),
                    target.sp_same_shape(gradient),
                    old_m.sp_is_shape(rows as int, cols as int),
                    old_v.sp_is_shape(rows as int, cols as int),
                    rows == target.sp_rows(),
                    cols == target.sp_cols(),
                    eps == sp_epsilon::<S>(),
                    one_minus_fm == S::sp_one().sp_sub(self.friction_m),
                    one_minus_fv == S::sp_one().sp_sub(self.friction_v),
                    m_corr == S::sp_one().sp_sub(
                        sp_powi(self.friction_m, self.update_count as nat),
                    ),
                    v_corr == S::sp_one().sp_sub(
                        sp_powi(self.friction_v, self.update_count as nat),
                    ),
                    i < rows,
                    j <= cols,
                    m_row@.len() == j,
                    v_row@.len() == j,
                    out_row@.len() == j,
                    forall|m: int|
                        0 <= m < j ==> #[trigger] m_row@[m] == sp_adam_m(
                            self.friction_m,
                            old_m.sp_at(i as int, m),
                            gradient.sp_at(i as int, m),
                        ),
                    forall|m: int|
                        0 <= m < j ==> #[trigger] v_row@[m] == sp_adam_v(
                            self.friction_v,
                            old_v.sp_at(i as int, m),
                            gradient.sp_at(i as int, m),
                        ),
                    forall|m: int|
                        0 <= m < j ==> #[trigger] out_row@[m] == sp_adam_step(
                            self.learning_rate,
                            self.friction_m,
                            self.friction_v,
                            self.update_count as nat,
                            sp_adam_m(
                                self.friction_m,
                                old_m.sp_at(i as int, m),
                                gradient.sp_at(i as int, m),
                            ),
                            sp_adam_v(
                                self.friction_v,
                                old_v.sp_at(i as int, m),
                                gradient.sp_at(i as int, m),
                            ),
                            target.sp_at(i as int, m),
                        ),
                decreases cols - j,
            {
                let g = gradient.get(i, j);
                let t = target.get(i, j);
                let m_new = self.friction_m.mul(old_m.get(i, j)).add(one_minus_fm.mul(g));
                let v_new = self.friction_v.mul(old_v.get(i, j)).add(
                    one_minus_fv.mul(g).mul(g),
                );
                let m_hat = m_new.div(m_corr);
                let v_hat = v_new.div(v_corr);
                let out = t.sub(self.learning_rate.mul(m_hat).div(v_hat.add(eps).sqrt()));
                m_row.push(m_new);
                v_row.push(v_new);
                out_row.push(out);
                j = j + 1;
            }
            new_m_data.push(m_row);
            new_v_data.push(v_row);
            out_data.push(out_row);
            i = i + 1;
        }
        let new_m = match Tensor::new(rows, cols, new_m_data) {
            Some(t) => t,
            None => {
                proof {
                    assert(false);
                }
                Tensor::zeros(rows, cols)
            },
        };
        let new_v = match Tensor::new(rows, cols, new_v_data) {
            Some(t) => t,
            None => {
                proof {
                    assert(false);
                }
                Tensor::zeros(rows, cols)
            },
        };
        let out = match Tensor::new(rows, cols, out_data) {
            Some(t) => t,
            None => {
                proof {
                    assert(false);
                }
                Tensor::zeros(rows, cols)
            },
        };
        self.m = Some(new_m);
        self.v = Some(new_v);
        out
    }
}

/// One of the update strategies, as owned by a trainable parameter node.
pub enum OptimizerKind<S: Scalar> {
    Sgd(Sgd<S>),
    Momentum(Momentum<S>),
    Rmsprop(Rmsprop<S>),
    AdaGrad(AdaGrad<S>),
    Adam(Adam<S>),
}

/// The optimizer's accumulators are absent or shaped like the parameter.
pub open spec fn sp_opt_ok<S: Scalar>(o: OptimizerKind<S>, rows: int, cols: int) -> bool {
    match o {
        OptimizerKind::Sgd(_) => true,
        OptimizerKind::Momentum(m) => sp_acc_ok(m.velocity, rows, cols),
        OptimizerKind::Rmsprop(m) => sp_acc_ok(m.velocity, rows, cols),
        OptimizerKind::AdaGrad(m) => sp_acc_ok(m.grad_squared_sum, rows, cols),
        OptimizerKind::Adam(m) => sp_acc_ok(m.m, rows, cols) && sp_acc_ok(m.v, rows, cols),
    }
}

/// How one `update` call relates the optimizer state before and after, the
/// parameter, the gradient, and the produced value: exactly the contract of
/// the corresponding strategy's `update`.
pub open spec fn sp_opt_update_rel<S: Scalar>(
    pre: OptimizerKind<S>,
    target: Tensor<S>,
    grad: Tensor<S>,
    post: OptimizerKind<S>,
    r: Tensor<S>,
) -> bool {
    r.wf() && r.sp_same_shape(&target) && match (pre, post) {
        (OptimizerKind::Sgd(a), OptimizerKind::Sgd(b)) => {
            &&& a == b
            &&& forall|i: int, j: int|
                0 <= i < target.sp_rows() && 0 <= j < target.sp_cols() ==> #[trigger] r.sp_at(i, j)
                    == sp_sgd_step(a.learning_rate, target.sp_at(i, j), grad.sp_at(i, j))
        },
        (OptimizerKind::Momentum(a), OptimizerKind::Momentum(b)) => {
            &&& b.learning_rate == a.learning_rate
            &&& b.friction == a.friction
            &&& b.velocity is Some
            &&& sp_acc_ok(b.velocity, target.sp_rows(), target.sp_cols())
            &&& forall|i: int, j: int|
                0 <= i < target.sp_rows() && 0 <= j < target.sp_cols()
                    ==> #[trigger] sp_acc_at(b.velocity, i, j) == sp_momentum_vel(
                    a.learning_rate,
                    a.friction,
                    sp_acc_at(a.velocity, i, j),
                    grad.sp_at(i, j),
                )
            &&& forall|i: int, j: int|
                0 <= i < target.sp_rows() && 0 <= j < target.sp_cols() ==> #[trigger] r.sp_at(i, j)
                    == target.sp_at(i, j).sp_add(sp_acc_at(b.velocity, i, j))
        },
        (OptimizerKind::Rmsprop(a), OptimizerKind::Rmsprop(b)) => {
            &&& b.learning_rate == a.learning_rate
            &&& b.friction == a.friction
            &&& b.velocity is Some
            &&& sp_acc_ok(b.velocity, target.sp_rows(), target.sp_cols())
            &&& forall|i: int, j: int|
                0 <= i < target.sp_rows() && 0 <= j < target.sp_cols()
                    ==> #[trigger] sp_acc_at(b.velocity, i, j) == sp_rmsprop_acc(
                    a.friction,
                    sp_acc_at(a.velocity, i, j),
                    grad.sp_at(i, j),
                )
            &&& forall|i: int, j: int|
                0 <= i < target.sp_rows() && 0 <= j < target.sp_cols() ==> #[trigger] r.sp_at(i, j)
                    == sp_adaptive_step(
                    a.learning_rate,
                    sp_acc_at(b.velocity, i, j),
                    target.sp_at(i, j),
                    grad.sp_at(i, j),
                )
        },
        (OptimizerKind::AdaGrad(a), OptimizerKind::AdaGrad(b)) => {
            &&& b.learning_rate == a.learning_rate
            &&& b.grad_squared_sum is Some
            &&& sp_acc_ok(b.grad_squared_sum, target.sp_rows(), target.sp_cols())
            &&& forall|i: int, j: int|
                0 <= i < target.sp_rows() && 0 <= j < target.sp_cols()
                    ==> #[trigger] sp_acc_at(b.grad_squared_sum, i, j) == sp_acc_at(
                    a.grad_squared_sum,
                    i,
                    j,
                ).sp_add(grad.sp_at(i, j).sp_mul(grad.sp_at(i, j)))
            &&& forall|i: int, j: int|
                0 <= i < target.sp_rows() && 0 <= j < target.sp_cols() ==> #[trigger] r.sp_at(i, j)
                    == sp_adaptive_step(
                    a.learning_rate,
                    sp_acc_at(b.grad_squared_sum, i, j),
                    target.sp_at(i, j),
                    grad.sp_at(i, j),
                )
        },
        (OptimizerKind::Adam(a), OptimizerKind::Adam(b)) => {
            &&& b.learning_rate == a.learning_rate
            &&& b.friction_m == a.friction_m
            &&& b.friction_v == a.friction_v
            &&& b.update_count == if a.update_count < u64::MAX {
                a.update_count + 1
            } else {
                u64::MAX as int
            }
            &&& b.m is Some
            &&& b.v is Some
            &&& sp_acc_ok(b.m, target.sp_rows(), target.sp_cols())
            &&& sp_acc_ok(b.v, target.sp_rows(), target.sp_cols())
            &&& forall|i: int, j: int|
                0 <= i < target.sp_rows() && 0 <= j < target.sp_cols()
                    ==> #[trigger] sp_acc_at(b.m, i, j) == sp_adam_m(
                    a.friction_m,
                    sp_acc_at(a.m, i, j),
                    grad.sp_at(i, j),
                )
            &&& forall|i: int, j: int|
                0 <= i < target.sp_rows() && 0 <= j < target.sp_cols()
                    ==> #[trigger] sp_acc_at(b.v, i, j) == sp_adam_v(
                    a.friction_v,
                    sp_acc_at(a.v, i, j),
                    grad.sp_at(i, j),
                )
            &&& forall|i: int, j: int|
                0 <= i < target.sp_rows() && 0 <= j < target.sp_cols() ==> #[trigger] r.sp_at(i, j)
                    == sp_adam_step(
                    a.learning_rate,
                    a.friction_m,
                    a.friction_v,
                    b.update_count as nat,
                    sp_acc_at(b.m, i, j),
                    sp_acc_at(b.v, i, j),
                    target.sp_at(i, j),
                )
        },
        _ => false,
    }
}

impl<S: Scalar> OptimizerKind<S> {
    /// Applies whichever strategy this is.
    pub fn update(&mut self, target: &Tensor<S>, gradient: &Tensor<S>) -> (r: Tensor<S>)
        requires
            target.wf(),
            gradient.wf(),
            target.sp_same_shape(gradient),
            sp_opt_ok(*old(self), target.sp_rows(), target.sp_cols()),
        ensures
            r.wf(),
            r.sp_same_shape(target),
            sp_opt_ok(*final(self), target.sp_rows(), target.sp_cols()),
            sp_opt_update_rel(*old(self), *target, *gradient, *final(self), r),
    {
        match self {
            OptimizerKind::Sgd(o) => o.update(target, gradient),
            OptimizerKind::Momentum(o) => o.update(target, gradient),
            OptimizerKind::Rmsprop(o) => o.update(target, gradient),
            OptimizerKind::AdaGrad(o) => o.update(target, gradient),
            OptimizerKind::Adam(o) => o.update(target, gradient),
        }
    }
}

} // verus!
