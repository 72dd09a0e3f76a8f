//! The layer graph: an explicit computation graph of tensor-valued nodes.
//!
//! A node either holds raw data (`Value`), holds a trainable tensor together
//! with its optimizer (`Param`), or transforms the output of an upstream
//! node.  Every non-leaf node memoizes its output: the cache is filled by
//! `forward`, dropped by `set_value` / `set_lbl` / `clean`, and `backward`
//! pushes gradients upstream, updating every parameter node through its
//! optimizer.
//!
//! The state of the graph is governed by three specification predicates:
//! `wf` (shapes line up), `sp_coherent` (every filled cache equals the
//! mathematical function of the upstream caches), and `sp_fresh_for` (every
//! cache on the input spine is filled, in the given training mode).  A
//! `set_value` leaves the graph coherent and recomputable; a `forward`
//! leaves it fresh and coherent and returns exactly the cached output; a
//! second `forward` without an intervening mutation returns the same output
//! and leaves the graph untouched.

use vstd::prelude::*;

use crate::batch_norm::{sp_bn_d3a, sp_bn_dw_col, sp_bn_dx, sp_bn_normalized, sp_col_mean, sp_col_var};
use crate::loss_functions::{sp_ce_row_loss, sp_softmax_at};
use crate::activation_functions::{sp_relu, sp_sigmoid};
use crate::optimizer::{sp_opt_ok, sp_opt_update_rel, OptimizerKind};
use crate::scalar::Scalar;
use crate::tensor::{sp_col_sum, sp_dot_entry, sp_t_eq, Tensor};
use crate::convolution::{
    sp_conv_entry, sp_geom_ok, sp_out_count, sp_pool_entry, sp_t4_eq, Tensor4,
};

verus! {

/// The layer graph's source of randomness: dropout masks and random
/// initialization draw from it, and minibatch sampling asks it for indices.
/// Nothing is assumed about the drawn values beyond an index being in
/// bounds.
pub trait Sampler<S: Scalar> {
    /// A raw sample, used for random parameter initialization.
    fn sample(&mut self) -> S;

    /// Whether to keep an activation under the given dropout rate.
    fn sample_keep(&mut self, rate: S) -> bool;

    /// A drawn index below `bound`.
    fn sample_index(&mut self, bound: usize) -> (r: usize)
        requires
            bound > 0,
        ensures
            r < bound,
    ;
}

/// A node of the computation graph.
pub enum Layer<S: Scalar> {
    /// A leaf holding raw data; the graph's input enters here.
    Value { value: Tensor<S> },
    /// A leaf holding a trainable tensor and its optimizer.
    Param { value: Tensor<S>, optimizer: OptimizerKind<S> },
    /// `x . w + b`, the bias row broadcast over the batch.
    Affine { x: Box<Layer<S>>, w: Box<Layer<S>>, b: Box<Layer<S>>, cache: Option<Tensor<S>> },
    /// Elementwise rectifier.
    Relu { x: Box<Layer<S>>, cache: Option<Tensor<S>> },
    /// Elementwise logistic sigmoid.
    Sigmoid { x: Box<Layer<S>>, cache: Option<Tensor<S>> },
    /// Per-column batch normalization, with trainable full-shape scale and
    /// shift leaves.
    BatchNorm {
        x: Box<Layer<S>>,
        w: Box<Layer<S>>,
        b: Box<Layer<S>>,
        cache: Option<Tensor<S>>,
        normalized: Option<Tensor<S>>,
        variance: Option<Tensor<S>>,
        average: Option<Tensor<S>>,
    },
    /// Random masking while training, deterministic scaling at inference.
    Dropout {
        x: Box<Layer<S>>,
        rate: S,
        cache: Option<Tensor<S>>,
        mask: Option<Tensor<S>>,
        training: bool,
    },
    /// Convolution over the four-axis reading of the upstream output, with a
    /// trainable filter and bias; forward-only, as in the trained
    /// configurations that use it: `backward` passes nothing upstream.
    Convolution {
        x: Box<Layer<S>>,
        filter: Box<Layer<S>>,
        bias: Box<Layer<S>>,
        channel: usize,
        height: usize,
        width: usize,
        filter_h: usize,
        filter_w: usize,
        stride: usize,
        pad: usize,
        cache: Option<Tensor<S>>,
    },
    /// Max pooling over the four-axis reading of the upstream output;
    /// forward-only: `backward` passes nothing upstream.
    Pooling {
        x: Box<Layer<S>>,
        channel: usize,
        height: usize,
        width: usize,
        filter_h: usize,
        filter_w: usize,
        stride: usize,
        pad: usize,
        cache: Option<Tensor<S>>,
    },
    /// Row-wise softmax followed by cross entropy against a one-hot target;
    /// the only node where error originates.
    SoftmaxLoss {
        x: Box<Layer<S>>,
        target: Tensor<S>,
        cache: Option<Tensor<S>>,
        probs: Option<Tensor<S>>,
    },
}

impl<S: Scalar> Layer<S> {
    /// A data or parameter leaf.
    pub open spec fn sp_is_leaf(self) -> bool {
        match self {
            Layer::Value { .. } => true,
            Layer::Param { .. } => true,
            _ => false,
        }
    }

    /// The loss node.
    pub open spec fn sp_is_loss(self) -> bool {
        match self {
            Layer::SoftmaxLoss { .. } => true,
            _ => false,
        }
    }

    /// Rows of this node's output.
    pub open spec fn sp_out_rows(self) -> int
        decreases self,
    {
        match self {
            Layer::Value { value } => value.sp_rows(),
            Layer::Param { value, .. } => value.sp_rows(),
            Layer::Affine { x, .. } => x.sp_out_rows(),
            Layer::Relu { x, .. } => x.sp_out_rows(),
            Layer::Sigmoid { x, .. } => x.sp_out_rows(),
            Layer::BatchNorm { x, .. } => x.sp_out_rows(),
            Layer::Dropout { x, .. } => x.sp_out_rows(),
            Layer::Convolution { x, .. } => x.sp_out_rows(),
            Layer::Pooling { x, .. } => x.sp_out_rows(),
            Layer::SoftmaxLoss { x, .. } => x.sp_out_rows(),
        }
    }

    /// Columns of this node's output.
    pub open spec fn sp_out_cols(self) -> int
        decreases self,
    {
        match self {
            Layer::Value { value } => value.sp_cols(),
            Layer::Param { value, .. } => value.sp_cols(),
            Layer::Affine { w, .. } => w.sp_out_cols(),
            Layer::Relu { x, .. } => x.sp_out_cols(),
            Layer::Sigmoid { x, .. } => x.sp_out_cols(),
            Layer::BatchNorm { x, .. } => x.sp_out_cols(),
            Layer::Dropout { x, .. } => x.sp_out_cols(),
            Layer::Convolution { filter, height, width, filter_h, filter_w, stride, pad, .. } => {
                filter.sp_out_rows() * (sp_out_count(
                    height as int,
                    filter_h as int,
                    stride as int,
                    pad as int,
                ) * sp_out_count(width as int, filter_w as int, stride as int, pad as int))
            },
            Layer::Pooling { channel, height, width, filter_h, filter_w, stride, pad, .. } => {
                channel * (sp_out_count(height as int, filter_h as int, stride as int, pad as int)
                    * sp_out_count(width as int, filter_w as int, stride as int, pad as int))
            },
            Layer::SoftmaxLoss { .. } => 1,
        }
    }

    /// Rows of what `forward_skip_loss` returns: the upstream output for a
    /// loss node at the root, this node's own output otherwise.
    pub open spec fn sp_skip_rows(self) -> int {
        match self {
            Layer::SoftmaxLoss { x, .. } => x.sp_out_rows(),
            _ => self.sp_out_rows(),
        }
    }

    /// Columns of what `forward_skip_loss` returns.
    pub open spec fn sp_skip_cols(self) -> int {
        match self {
            Layer::SoftmaxLoss { x, .. } => x.sp_out_cols(),
            _ => self.sp_out_cols(),
        }
    }

    /// What `forward_skip_loss` returns: the upstream memoized output for a
    /// loss node at the root, this node's own memoized output otherwise.
    pub open spec fn sp_skip_out(self) -> Tensor<S> {
        match self {
            Layer::SoftmaxLoss { x, .. } => x.sp_cached_out(),
            _ => self.sp_cached_out(),
        }
    }

    /// Freshness of what `forward_skip_loss` reads: for a loss root, the
    /// upstream spine; otherwise the whole spine.
    pub open spec fn sp_skip_fresh_for(self, training: bool) -> bool {
        match self {
            Layer::SoftmaxLoss { x, .. } => x.sp_fresh_for(training),
            _ => self.sp_fresh_for(training),
        }
    }

    /// Rows of the input leaf at the bottom of the spine.
    pub open spec fn sp_in_rows(self) -> int
        decreases self,
    {
        match self {
            Layer::Value { value } => value.sp_rows(),
            Layer::Param { value, .. } => value.sp_rows(),
            Layer::Affine { x, .. } => x.sp_in_rows(),
            Layer::Relu { x, .. } => x.sp_in_rows(),
            Layer::Sigmoid { x, .. } => x.sp_in_rows(),
            Layer::BatchNorm { x, .. } => x.sp_in_rows(),
            Layer::Dropout { x, .. } => x.sp_in_rows(),
            Layer::Convolution { x, .. } => x.sp_in_rows(),
            Layer::Pooling { x, .. } => x.sp_in_rows(),
            Layer::SoftmaxLoss { x, .. } => x.sp_in_rows(),
        }
    }

    /// Columns of the input leaf at the bottom of the spine.
    pub open spec fn sp_in_cols(self) -> int
        decreases self,
    {
        match self {
            Layer::Value { value } => value.sp_cols(),
            Layer::Param { value, .. } => value.sp_cols(),
            Layer::Affine { x, .. } => x.sp_in_cols(),
            Layer::Relu { x, .. } => x.sp_in_cols(),
            Layer::Sigmoid { x, .. } => x.sp_in_cols(),
            Layer::BatchNorm { x, .. } => x.sp_in_cols(),
            Layer::Dropout { x, .. } => x.sp_in_cols(),
            Layer::Convolution { x, .. } => x.sp_in_cols(),
            Layer::Pooling { x, .. } => x.sp_in_cols(),
            Layer::SoftmaxLoss { x, .. } => x.sp_in_cols(),
        }
    }

    /// The memoized output: a leaf's stored tensor, otherwise the cache's
    /// content (meaningful only when the cache is filled).
    pub open spec fn sp_cached_out(self) -> Tensor<S> {
        match self {
            Layer::Value { value } => value,
            Layer::Param { value, .. } => value,
            Layer::Affine { cache, .. } => cache->Some_0,
            Layer::Relu { cache, .. } => cache->Some_0,
            Layer::Sigmoid { cache, .. } => cache->Some_0,
            Layer::BatchNorm { cache, .. } => cache->Some_0,
            Layer::Dropout { cache, .. } => cache->Some_0,
            Layer::Convolution { cache, .. } => cache->Some_0,
            Layer::Pooling { cache, .. } => cache->Some_0,
            Layer::SoftmaxLoss { cache, .. } => cache->Some_0,
        }
    }

    /// Whether this node's own output is available without recomputation.
    pub open spec fn sp_has_out(self) -> bool {
        match self {
            Layer::Value { .. } => true,
            Layer::Param { .. } => true,
            Layer::Affine { cache, .. } => cache is Some,
            Layer::Relu { cache, .. } => cache is Some,
            Layer::Sigmoid { cache, .. } => cache is Some,
            Layer::BatchNorm { cache, .. } => cache is Some,
            Layer::Dropout { cache, .. } => cache is Some,
            Layer::Convolution { cache, .. } => cache is Some,
            Layer::Pooling { cache, .. } => cache is Some,
            Layer::SoftmaxLoss { cache, .. } => cache is Some,
        }
    }

    /// Shapes line up: upstream widths match weight heights, biases are
    /// single rows, caches (when filled) have the node's output shape, and
    /// weight and bias children are leaves.
    pub open spec fn wf(self) -> bool
        decreases self,
    {
        match self {
            Layer::Value { value } => value.wf(),
            Layer::Param { value, optimizer } => value.wf() && sp_opt_ok(
                optimizer,
                value.sp_rows(),
                value.sp_cols(),
            ),
            Layer::Affine { x, w, b, cache } => {
                &&& x.wf()
                &&& w.wf()
                &&& b.wf()
                &&& w.sp_is_leaf()
                &&& b.sp_is_leaf()
                &&& w.sp_out_rows() == x.sp_out_cols()
                &&& b.sp_out_rows() == 1
                &&& b.sp_out_cols() == w.sp_out_cols()
                &&& match cache {
                    Some(z) => z.wf() && z.sp_is_shape(x.sp_out_rows(), w.sp_out_cols()),
                    None => true,
                }
            },
            Layer::Relu { x, cache } => {
                &&& x.wf()
                &&& match cache {
                    Some(z) => z.wf() && z.sp_is_shape(x.sp_out_rows(), x.sp_out_cols()),
                    None => true,
                }
            },
            Layer::Sigmoid { x, cache } => {
                &&& x.wf()
                &&& match cache {
                    Some(z) => z.wf() && z.sp_is_shape(x.sp_out_rows(), x.sp_out_cols()),
                    None => true,
                }
            },
            Layer::BatchNorm { x, w, b, cache, normalized, variance, average } => {
                &&& x.wf()
                &&& w.wf()
                &&& b.wf()
                &&& w.sp_is_leaf()
                &&& b.sp_is_leaf()
                &&& w.sp_out_rows() == x.sp_out_rows()
                &&& w.sp_out_cols() == x.sp_out_cols()
                &&& b.sp_out_rows() == x.sp_out_rows()
                &&& b.sp_out_cols() == x.sp_out_cols()
                &&& match cache {
                    Some(z) => z.wf() && z.sp_is_shape(x.sp_out_rows(), x.sp_out_cols()),
                    None => true,
                }
                &&& match normalized {
                    Some(n) => n.wf() && n.sp_is_shape(x.sp_out_rows(), x.sp_out_cols()),
                    None => true,
                }
                &&& match variance {
                    Some(v) => v.wf() && v.sp_is_shape(x.sp_out_rows(), x.sp_out_cols()),
                    None => true,
                }
                &&& match average {
                    Some(a) => a.wf() && a.sp_is_shape(x.sp_out_rows(), x.sp_out_cols()),
                    None => true,
                }
            },
            Layer::Dropout { x, rate, cache, mask, training } => {
                &&& x.wf()
                &&& match cache {
                    Some(z) => z.wf() && z.sp_is_shape(x.sp_out_rows(), x.sp_out_cols()),
                    None => true,
                }
                &&& match mask {
                    Some(m) => m.wf() && m.sp_is_shape(x.sp_out_rows(), x.sp_out_cols()),
                    None => true,
                }
            },
            Layer::Convolution {
                x,
                filter,
                bias,
                channel,
                height,
                width,
                filter_h,
                filter_w,
                stride,
                pad,
                cache,
            } => {
                let oh = sp_out_count(height as int, filter_h as int, stride as int, pad as int);
                let ow = sp_out_count(width as int, filter_w as int, stride as int, pad as int);
                &&& x.wf()
                &&& filter.wf()
                &&& bias.wf()
                &&& filter.sp_is_leaf()
                &&& bias.sp_is_leaf()
                &&& x.sp_out_cols() == channel * height * width
                &&& sp_geom_ok(
                    x.sp_out_rows(),
                    channel as int,
                    height as int,
                    width as int,
                    filter_h as int,
                    filter_w as int,
                    stride as int,
                    pad as int,
                )
                &&& filter.sp_out_cols() == channel * filter_h * filter_w
                &&& bias.sp_out_rows() == filter.sp_out_rows()
                &&& bias.sp_out_cols() == 1
                &&& filter.sp_out_rows() * (oh * ow) <= usize::MAX
                &&& match cache {
                    Some(z) => z.wf() && z.sp_is_shape(
                        x.sp_out_rows(),
                        filter.sp_out_rows() * (oh * ow),
                    ),
                    None => true,
                }
            },
            Layer::Pooling { x, channel, height, width, filter_h, filter_w, stride, pad, cache } => {
                let oh = sp_out_count(height as int, filter_h as int, stride as int, pad as int);
                let ow = sp_out_count(width as int, filter_w as int, stride as int, pad as int);
                &&& x.wf()
                &&& x.sp_out_cols() == channel * height * width
                &&& sp_geom_ok(
                    x.sp_out_rows(),
                    channel as int,
                    height as int,
                    width as int,
                    filter_h as int,
                    filter_w as int,
                    stride as int,
                    pad as int,
                )
                &&& channel * (oh * ow) <= usize::MAX
                &&& match cache {
                    Some(z) => z.wf() && z.sp_is_shape(x.sp_out_rows(), channel * (oh * ow)),
                    None => true,
                }
            },
            Layer::SoftmaxLoss { x, target, cache, probs } => {
                &&& x.wf()
                &&& target.wf()
                &&& target.sp_is_shape(x.sp_out_rows(), x.sp_out_cols())
                &&& x.sp_out_cols() > 0
                &&& match cache {
                    Some(z) => z.wf() && z.sp_is_shape(x.sp_out_rows(), 1),
                    None => true,
                }
                &&& match probs {
                    Some(p) => p.wf() && p.sp_is_shape(x.sp_out_rows(), x.sp_out_cols()),
                    None => true,
                }
            },
        }
    }

    /// Every entry of the mask is zero or one.
    pub open spec fn sp_mask01(m: Tensor<S>) -> bool {
        forall|i: int, j: int|
            0 <= i < m.sp_rows() && 0 <= j < m.sp_cols() ==> #[trigger] m.sp_at(i, j)
                == S::sp_zero() || m.sp_at(i, j) == S::sp_one()
    }

    /// Every cache on the input spine is filled, with dropout caches
    /// belonging to the given training mode.
    pub open spec fn sp_fresh_for(self, training: bool) -> bool
        decreases self,
    {
        match self {
            Layer::Value { .. } => true,
            Layer::Param { .. } => true,
            Layer::Affine { x, cache, .. } => cache is Some && x.sp_fresh_for(training),
            Layer::Relu { x, cache } => cache is Some && x.sp_fresh_for(training),
            Layer::Sigmoid { x, cache } => cache is Some && x.sp_fresh_for(training),
            Layer::BatchNorm { x, cache, normalized, variance, average, .. } => {
                &&& cache is Some
                &&& normalized is Some
                &&& variance is Some
                &&& average is Some
                &&& x.sp_fresh_for(training)
            },
            Layer::Dropout { x, cache, mask, training: flag, .. } => {
                &&& cache is Some
                &&& flag == training
                &&& (training ==> mask is Some)
                &&& x.sp_fresh_for(training)
            },
            Layer::Convolution { x, cache, .. } => cache is Some && x.sp_fresh_for(training),
            Layer::Pooling { x, cache, .. } => cache is Some && x.sp_fresh_for(training),
            Layer::SoftmaxLoss { x, cache, probs, .. } => cache is Some && probs is Some
                && x.sp_fresh_for(training),
        }
    }

    /// A `forward` in the given mode will leave every value it returns
    /// freshly computed or validly cached: the unfilled caches form a prefix
    /// of the spine, and whatever is cached below is fresh for this mode.
    pub open spec fn sp_recomputable(self, training: bool) -> bool
        decreases self,
    {
        match self {
            Layer::Value { .. } => true,
            Layer::Param { .. } => true,
            Layer::Affine { x, cache, .. } => if cache is Some {
                self.sp_fresh_for(training)
            } else {
                x.sp_recomputable(training)
            },
            Layer::Relu { x, cache } => if cache is Some {
                self.sp_fresh_for(training)
            } else {
                x.sp_recomputable(training)
            },
            Layer::Sigmoid { x, cache } => if cache is Some {
                self.sp_fresh_for(training)
            } else {
                x.sp_recomputable(training)
            },
            Layer::BatchNorm { x, cache, .. } => if cache is Some {
                self.sp_fresh_for(training)
            } else {
                x.sp_recomputable(training)
            },
            Layer::Dropout { x, cache, training: flag, .. } => if cache is Some && flag
                == training {
                self.sp_fresh_for(training)
            } else {
                x.sp_recomputable(training)
            },
            Layer::Convolution { x, cache, .. } => if cache is Some {
                self.sp_fresh_for(training)
            } else {
                x.sp_recomputable(training)
            },
            Layer::Pooling { x, cache, .. } => if cache is Some {
                self.sp_fresh_for(training)
            } else {
                x.sp_recomputable(training)
            },
            Layer::SoftmaxLoss { x, cache, .. } => if cache is Some {
                self.sp_fresh_for(training)
            } else {
                x.sp_recomputable(training)
            },
        }
    }

    /// Every filled cache holds exactly the mathematical function of the
    /// upstream memoized outputs.
    pub open spec fn sp_coherent(self) -> bool
        decreases self,
    {
        match self {
            Layer::Value { .. } => true,
            Layer::Param { .. } => true,
            Layer::Affine { x, w, b, cache } => {
                &&& x.sp_coherent()
                &&& match cache {
                    Some(z) => x.sp_has_out() && {
                        let xc = x.sp_cached_out();
                        let wc = w.sp_cached_out();
                        let bc = b.sp_cached_out();
                        forall|i: int, j: int|
                            0 <= i < z.sp_rows() && 0 <= j < z.sp_cols() ==> #[trigger] z.sp_at(
                                i,
                                j,
                            ) == sp_dot_entry(&xc, &wc, i, j).sp_add(bc.sp_at(0, j))
                    },
                    None => true,
                }
            },
            Layer::Relu { x, cache } => {
                &&& x.sp_coherent()
                &&& match cache {
                    Some(z) => x.sp_has_out() && {
                        let xc = x.sp_cached_out();
                        forall|i: int, j: int|
                            0 <= i < z.sp_rows() && 0 <= j < z.sp_cols() ==> #[trigger] z.sp_at(
                                i,
                                j,
                            ) == sp_relu(xc.sp_at(i, j))
                    },
                    None => true,
                }
            },
            Layer::Sigmoid { x, cache } => {
                &&& x.sp_coherent()
                &&& match cache {
                    Some(z) => x.sp_has_out() && {
                        let xc = x.sp_cached_out();
                        forall|i: int, j: int|
                            0 <= i < z.sp_rows() && 0 <= j < z.sp_cols() ==> #[trigger] z.sp_at(
                                i,
                                j,
                            ) == sp_sigmoid(xc.sp_at(i, j))
                    },
                    None => true,
                }
            },
            Layer::BatchNorm { x, w, b, cache, normalized, variance, average } => {
                &&& x.sp_coherent()
                &&& match cache {
                    Some(z) => x.sp_has_out() && normalized is Some && variance is Some
                        && average is Some && {
                        let xc = x.sp_cached_out();
                        let wc = w.sp_cached_out();
                        let bc = b.sp_cached_out();
                        let n = normalized->Some_0;
                        let v = variance->Some_0;
                        let a = average->Some_0;
                        &&& forall|i: int, j: int|
                            0 <= i < a.sp_rows() && 0 <= j < a.sp_cols() ==> #[trigger] a.sp_at(
                                i,
                                j,
                            ) == sp_col_mean(&xc, j)
                        &&& forall|i: int, j: int|
                            0 <= i < v.sp_rows() && 0 <= j < v.sp_cols() ==> #[trigger] v.sp_at(
                                i,
                                j,
                            ) == sp_col_var(&xc, j)
                        &&& forall|i: int, j: int|
                            0 <= i < n.sp_rows() && 0 <= j < n.sp_cols() ==> #[trigger] n.sp_at(
                                i,
                                j,
                            ) == sp_bn_normalized(xc.sp_at(i, j), a.sp_at(i, j), v.sp_at(i, j))
                        &&& forall|i: int, j: int|
                            0 <= i < z.sp_rows() && 0 <= j < z.sp_cols() ==> #[trigger] z.sp_at(
                                i,
                                j,
                            ) == n.sp_at(i, j).sp_mul(wc.sp_at(i, j)).sp_add(bc.sp_at(i, j))
                    },
                    None => true,
                }
            },
            Layer::Dropout { x, rate, cache, mask, training } => {
                &&& x.sp_coherent()
                &&& match cache {
                    Some(z) => x.sp_has_out() && {
                        let xc = x.sp_cached_out();
                        if training {
                            &&& mask is Some
                            &&& Layer::<S>::sp_mask01(mask->Some_0)
                            &&& forall|i: int, j: int|
                                0 <= i < z.sp_rows() && 0 <= j < z.sp_cols() ==> #[trigger] z.sp_at(
                                    i,
                                    j,
                                ) == xc.sp_at(i, j).sp_mul(mask->Some_0.sp_at(i, j))
                        } else {
                            forall|i: int, j: int|
                                0 <= i < z.sp_rows() && 0 <= j < z.sp_cols() ==> #[trigger] z.sp_at(
                                    i,
                                    j,
                                ) == xc.sp_at(i, j).sp_mul(S::sp_one().sp_sub(rate))
                        }
                    },
                    None => true,
                }
            },
            Layer::Convolution {
                x,
                filter,
                bias,
                channel,
                height,
                width,
                filter_h,
                filter_w,
                stride,
                pad,
                cache,
            } => {
                &&& x.sp_coherent()
                &&& match cache {
                    Some(z) => x.sp_has_out() && {
                        let xc = x.sp_cached_out();
                        let fc = filter.sp_cached_out();
                        let bc = bias.sp_cached_out();
                        exists|t4: Tensor4<S>|
                            {
                                &&& #[trigger] t4.wf()
                                &&& t4.sp_is_shape4(
                                    xc.sp_rows(),
                                    channel as int,
                                    height as int,
                                    width as int,
                                )
                                &&& forall|b: int, c: int, y: int, xx: int|
                                    0 <= b < t4.sp_b() && 0 <= c < channel && 0 <= y < height && 0
                                        <= xx < width ==> #[trigger] t4.sp_at4(b, c, y, xx)
                                        == xc.sp_at(b, (c * height + y) * width + xx)
                                &&& forall|i: int, j: int|
                                    0 <= i < z.sp_rows() && 0 <= j < z.sp_cols()
                                        ==> #[trigger] z.sp_at(i, j) == sp_conv_entry(
                                        &t4,
                                        &fc,
                                        &bc,
                                        filter_h as int,
                                        filter_w as int,
                                        stride as int,
                                        pad as int,
                                        i,
                                        j,
                                    )
                            }
                    },
                    None => true,
                }
            },
            Layer::Pooling { x, channel, height, width, filter_h, filter_w, stride, pad, cache } => {
                &&& x.sp_coherent()
                &&& match cache {
                    Some(z) => x.sp_has_out() && {
                        let xc = x.sp_cached_out();
                        exists|t4: Tensor4<S>|
                            {
                                &&& #[trigger] t4.wf()
                                &&& t4.sp_is_shape4(
                                    xc.sp_rows(),
                                    channel as int,
                                    height as int,
                                    width as int,
                                )
                                &&& forall|b: int, c: int, y: int, xx: int|
                                    0 <= b < t4.sp_b() && 0 <= c < channel && 0 <= y < height && 0
                                        <= xx < width ==> #[trigger] t4.sp_at4(b, c, y, xx)
                                        == xc.sp_at(b, (c * height + y) * width + xx)
                                &&& forall|i: int, j: int|
                                    0 <= i < z.sp_rows() && 0 <= j < z.sp_cols()
                                        ==> #[trigger] z.sp_at(i, j) == sp_pool_entry(
                                        &t4,
                                        filter_h as int,
                                        filter_w as int,
                                        stride as int,
                                        pad as int,
                                        i,
                                        j,
                                    )
                            }
                    },
                    None => true,
                }
            },
            Layer::SoftmaxLoss { x, target, cache, probs } => {
                &&& x.sp_coherent()
                &&& match cache {
                    Some(z) => x.sp_has_out() && probs is Some && {
                        let xc = x.sp_cached_out();
                        let p = probs->Some_0;
                        &&& forall|i: int, j: int|
                            0 <= i < p.sp_rows() && 0 <= j < p.sp_cols() ==> #[trigger] p.sp_at(
                                i,
                                j,
                            ) == sp_softmax_at(&xc, i, j)
                        &&& forall|i: int|
                            0 <= i < z.sp_rows() ==> #[trigger] z.sp_at(i, 0) == sp_ce_row_loss(
                                &p,
                                &target,
                                i,
                            )
                    },
                    None => true,
                }
            },
        }
    }

    /// How `set_value` relates the graph before and after: the new input
    /// sits in the leaf at the bottom of the spine, every cache on the spine
    /// is dropped, and everything else is untouched.
    pub open spec fn sp_set_value_rel(self, post: Layer<S>, v: Tensor<S>) -> bool
        decreases self,
    {
        match (self, post) {
            (Layer::Value { .. }, Layer::Value { value: nv }) => sp_t_eq(nv, v),
            (
                Layer::Param { optimizer: oa, .. },
                Layer::Param { value: nv, optimizer: ob },
            ) => ob == oa && sp_t_eq(nv, v),
            (
                Layer::Affine { x, w, b, .. },
                Layer::Affine { x: x2, w: w2, b: b2, cache: c2 },
            ) => c2 is None && *w2 == *w && *b2 == *b && x.sp_set_value_rel(*x2, v),
            (Layer::Relu { x, .. }, Layer::Relu { x: x2, cache: c2 }) => c2 is None
                && x.sp_set_value_rel(*x2, v),
            (Layer::Sigmoid { x, .. }, Layer::Sigmoid { x: x2, cache: c2 }) => c2 is None
                && x.sp_set_value_rel(*x2, v),
            (
                Layer::BatchNorm { x, w, b, .. },
                Layer::BatchNorm {
                    x: x2,
                    w: w2,
                    b: b2,
                    cache: c2,
                    normalized: n2,
                    variance: v2,
                    average: a2,
                },
            ) => c2 is None && n2 is None && v2 is None && a2 is None && *w2 == *w && *b2 == *b
                && x.sp_set_value_rel(*x2, v),
            (
                Layer::Dropout { x, rate, training, .. },
                Layer::Dropout { x: x2, rate: r2, cache: c2, mask: m2, training: tr2 },
            ) => c2 is None && m2 is None && r2 == rate && tr2 == training && x.sp_set_value_rel(
                *x2,
                v,
            ),
            (
                Layer::Convolution {
                    x,
                    filter,
                    bias,
                    channel,
                    height,
                    width,
                    filter_h,
                    filter_w,
                    stride,
                    pad,
                    ..
                },
                Layer::Convolution {
                    x: x2,
                    filter: f2,
                    bias: b2,
                    channel: c2f,
                    height: h2,
                    width: w2,
                    filter_h: fh2,
                    filter_w: fw2,
                    stride: s2,
                    pad: p2f,
                    cache: c2,
                },
            ) => c2 is None && *f2 == *filter && *b2 == *bias && c2f == channel && h2 == height
                && w2 == width && fh2 == filter_h && fw2 == filter_w && s2 == stride && p2f == pad
                && x.sp_set_value_rel(*x2, v),
            (
                Layer::Pooling { x, channel, height, width, filter_h, filter_w, stride, pad, .. },
                Layer::Pooling {
                    x: x2,
                    channel: c2f,
                    height: h2,
                    width: w2,
                    filter_h: fh2,
                    filter_w: fw2,
                    stride: s2,
                    pad: p2f,
                    cache: c2,
                },
            ) => c2 is None && c2f == channel && h2 == height && w2 == width && fh2 == filter_h
                && fw2 == filter_w && s2 == stride && p2f == pad && x.sp_set_value_rel(*x2, v),
            (
                Layer::SoftmaxLoss { x, target, .. },
                Layer::SoftmaxLoss { x: x2, target: t2, cache: c2, probs: p2 },
            ) => c2 is None && p2 is None && t2 == target && x.sp_set_value_rel(*x2, v),
            _ => false,
        }
    }

    /// A target of the given shape fits the loss node, if the spine has
    /// one.
    pub open spec fn sp_lbl_fits(self, rows: int, cols: int) -> bool
        decreases self,
    {
        match self {
            Layer::Value { .. } => true,
            Layer::Param { .. } => true,
            Layer::Affine { x, .. } => x.sp_lbl_fits(rows, cols),
            Layer::Relu { x, .. } => x.sp_lbl_fits(rows, cols),
            Layer::Sigmoid { x, .. } => x.sp_lbl_fits(rows, cols),
            Layer::BatchNorm { x, .. } => x.sp_lbl_fits(rows, cols),
            Layer::Dropout { x, .. } => x.sp_lbl_fits(rows, cols),
            Layer::Convolution { x, .. } => x.sp_lbl_fits(rows, cols),
            Layer::Pooling { x, .. } => x.sp_lbl_fits(rows, cols),
            Layer::SoftmaxLoss { x, .. } => rows == x.sp_out_rows() && cols == x.sp_out_cols(),
        }
    }

    /// The target tensor fits the loss node.
    pub open spec fn sp_lbl_ok(self, v: Tensor<S>) -> bool {
        self.sp_lbl_fits(v.sp_rows(), v.sp_cols())
    }

    /// The two graphs accept the same target shapes: same node kinds along
    /// the input spine, with equally shaped upstream outputs at the loss
    /// node.
    pub open spec fn sp_fits_like(self, other: Layer<S>) -> bool
        decreases self,
    {
        match (self, other) {
            (Layer::Value { .. }, Layer::Value { .. }) => true,
            (Layer::Param { .. }, Layer::Param { .. }) => true,
            (Layer::Affine { x: x1, .. }, Layer::Affine { x: x2, .. }) => x1.sp_fits_like(*x2),
            (Layer::Relu { x: x1, .. }, Layer::Relu { x: x2, .. }) => x1.sp_fits_like(*x2),
            (Layer::Sigmoid { x: x1, .. }, Layer::Sigmoid { x: x2, .. }) => x1.sp_fits_like(*x2),
            (
                Layer::BatchNorm { x: x1, .. },
                Layer::BatchNorm { x: x2, .. },
            ) => x1.sp_fits_like(*x2),
            (Layer::Dropout { x: x1, .. }, Layer::Dropout { x: x2, .. }) => x1.sp_fits_like(*x2),
            (
                Layer::Convolution { x: x1, .. },
                Layer::Convolution { x: x2, .. },
            ) => x1.sp_fits_like(*x2),
            (Layer::Pooling { x: x1, .. }, Layer::Pooling { x: x2, .. }) => x1.sp_fits_like(*x2),
            (
                Layer::SoftmaxLoss { x: x1, .. },
                Layer::SoftmaxLoss { x: x2, .. },
            ) => x1.sp_out_rows() == x2.sp_out_rows() && x1.sp_out_cols() == x2.sp_out_cols(),
            _ => false,
        }
    }

    /// How `set_lbl` relates the graph before and after: the loss node's
    /// target becomes the given tensor, every cache on the spine is dropped,
    /// and everything else is untouched.
    pub open spec fn sp_set_lbl_rel(self, post: Layer<S>, v: Tensor<S>) -> bool
        decreases self,
    {
        match (self, post) {
            (Layer::Value { value: a }, Layer::Value { value: b }) => b == a,
            (
                Layer::Param { value: a, optimizer: oa },
                Layer::Param { value: b, optimizer: ob },
            ) => b == a && ob == oa,
            (
                Layer::Affine { x, w, b, .. },
                Layer::Affine { x: x2, w: w2, b: b2, cache: c2 },
            ) => c2 is None && *w2 == *w && *b2 == *b && x.sp_set_lbl_rel(*x2, v),
            (Layer::Relu { x, .. }, Layer::Relu { x: x2, cache: c2 }) => c2 is None
                && x.sp_set_lbl_rel(*x2, v),
            (Layer::Sigmoid { x, .. }, Layer::Sigmoid { x: x2, cache: c2 }) => c2 is None
                && x.sp_set_lbl_rel(*x2, v),
            (
                Layer::BatchNorm { x, w, b, .. },
                Layer::BatchNorm {
                    x: x2,
                    w: w2,
                    b: b2,
                    cache: c2,
                    normalized: n2,
                    variance: v2,
                    average: a2,
                },
            ) => c2 is None && n2 is None && v2 is None && a2 is None && *w2 == *w && *b2 == *b
                && x.sp_set_lbl_rel(*x2, v),
            (
                Layer::Dropout { x, rate, training, .. },
                Layer::Dropout { x: x2, rate: r2, cache: c2, mask: m2, training: tr2 },
            ) => c2 is None && m2 is None && r2 == rate && tr2 == training && x.sp_set_lbl_rel(
                *x2,
                v,
            ),
            (
                Layer::Convolution {
                    x,
                    filter,
                    bias,
                    channel,
                    height,
                    width,
                    filter_h,
                    filter_w,
                    stride,
                    pad,
                    ..
                },
                Layer::Convolution {
                    x: x2,
                    filter: f2,
                    bias: b2,
                    channel: c2f,
                    height: h2,
                    width: w2,
                    filter_h: fh2,
                    filter_w: fw2,
                    stride: s2,
                    pad: p2f,
                    cache: c2,
                },
            ) => c2 is None && *f2 == *filter && *b2 == *bias && c2f == channel && h2 == height
                && w2 == width && fh2 == filter_h && fw2 == filter_w && s2 == stride && p2f == pad
                && x.sp_set_lbl_rel(*x2, v),
            (
                Layer::Pooling { x, channel, height, width, filter_h, filter_w, stride, pad, .. },
                Layer::Pooling {
                    x: x2,
                    channel: c2f,
                    height: h2,
                    width: w2,
                    filter_h: fh2,
                    filter_w: fw2,
                    stride: s2,
                    pad: p2f,
                    cache: c2,
                },
            ) => c2 is None && c2f == channel && h2 == height && w2 == width && fh2 == filter_h
                && fw2 == filter_w && s2 == stride && p2f == pad && x.sp_set_lbl_rel(*x2, v),
            (
                Layer::SoftmaxLoss { x, .. },
                Layer::SoftmaxLoss { x: x2, target: t2, cache: c2, probs: p2 },
            ) => c2 is None && p2 is None && sp_t_eq(t2, v) && x.sp_same_core(*x2)
                && x2.sp_all_clear(),
            _ => false,
        }
    }

    /// No cache anywhere on the input spine.
    pub open spec fn sp_all_clear(self) -> bool
        decreases self,
    {
        match self {
            Layer::Value { .. } => true,
            Layer::Param { .. } => true,
            Layer::Affine { x, cache, .. } => cache is None && x.sp_all_clear(),
            Layer::Relu { x, cache } => cache is None && x.sp_all_clear(),
            Layer::Sigmoid { x, cache } => cache is None && x.sp_all_clear(),
            Layer::BatchNorm { x, cache, normalized, variance, average, .. } => cache is None
                && normalized is None && variance is None && average is None && x.sp_all_clear(),
            Layer::Dropout { x, cache, mask, .. } => cache is None && mask is None
                && x.sp_all_clear(),
            Layer::Convolution { x, cache, .. } => cache is None && x.sp_all_clear(),
            Layer::Pooling { x, cache, .. } => cache is None && x.sp_all_clear(),
            Layer::SoftmaxLoss { x, cache, probs, .. } => cache is None && probs is None
                && x.sp_all_clear(),
        }
    }

    /// Structure, leaf values, optimizer states, targets and rates agree;
    /// caches and masks are left free.
    pub open spec fn sp_same_core(self, other: Layer<S>) -> bool
        decreases self,
    {
        match (self, other) {
            (Layer::Value { value: a }, Layer::Value { value: b }) => a == b,
            (
                Layer::Param { value: a, optimizer: oa },
                Layer::Param { value: b, optimizer: ob },
            ) => a == b && oa == ob,
            (
                Layer::Affine { x: x1, w: w1, b: b1, .. },
                Layer::Affine { x: x2, w: w2, b: b2, .. },
            ) => x1.sp_same_core(*x2) && w1.sp_same_core(*w2) && b1.sp_same_core(*b2),
            (Layer::Relu { x: x1, .. }, Layer::Relu { x: x2, .. }) => x1.sp_same_core(*x2),
            (Layer::Sigmoid { x: x1, .. }, Layer::Sigmoid { x: x2, .. }) => x1.sp_same_core(*x2),
            (
                Layer::BatchNorm { x: x1, w: w1, b: b1, .. },
                Layer::BatchNorm { x: x2, w: w2, b: b2, .. },
            ) => x1.sp_same_core(*x2) && w1.sp_same_core(*w2) && b1.sp_same_core(*b2),
            (
                Layer::Dropout { x: x1, rate: r1, .. },
                Layer::Dropout { x: x2, rate: r2, .. },
            ) => r1 == r2 && x1.sp_same_core(*x2),
            (
                Layer::Convolution {
                    x: x1,
                    filter: f1,
                    bias: b1,
                    channel: ca,
                    height: ha,
                    width: wa,
                    filter_h: fha,
                    filter_w: fwa,
                    stride: sa,
                    pad: pa,
                    ..
                },
                Layer::Convolution {
                    x: x2,
                    filter: f2,
                    bias: b2,
                    channel: cb,
                    height: hb,
                    width: wb,
                    filter_h: fhb,
                    filter_w: fwb,
                    stride: sb,
                    pad: pb,
                    ..
                },
            ) => ca == cb && ha == hb && wa == wb && fha == fhb && fwa == fwb && sa == sb && pa
                == pb && x1.sp_same_core(*x2) && f1.sp_same_core(*f2) && b1.sp_same_core(*b2),
            (
                Layer::Pooling {
                    x: x1,
                    channel: ca,
                    height: ha,
                    width: wa,
                    filter_h: fha,
                    filter_w: fwa,
                    stride: sa,
                    pad: pa,
                    ..
                },
                Layer::Pooling {
                    x: x2,
                    channel: cb,
                    height: hb,
                    width: wb,
                    filter_h: fhb,
                    filter_w: fwb,
                    stride: sb,
                    pad: pb,
                    ..
                },
            ) => ca == cb && ha == hb && wa == wb && fha == fhb && fwa == fwb && sa == sb && pa
                == pb && x1.sp_same_core(*x2),
            (
                Layer::SoftmaxLoss { x: x1, target: t1, .. },
                Layer::SoftmaxLoss { x: x2, target: t2, .. },
            ) => t1 == t2 && x1.sp_same_core(*x2),
            _ => false,
        }
    }

    /// Same structure with the same trainable state: every off-spine
    /// parameter leaf (weights, biases, filters), every optimizer state and
    /// every geometry or rate field agrees; only the input leaf's data, the
    /// loss target and the memo caches are left free.
    pub open spec fn sp_same_core_mod_io(self, other: Layer<S>) -> bool
        decreases self,
    {
        match (self, other) {
            (Layer::Value { .. }, Layer::Value { .. }) => true,
            (
                Layer::Param { optimizer: oa, .. },
                Layer::Param { optimizer: ob, .. },
            ) => oa == ob,
            (
                Layer::Affine { x: x1, w: w1, b: b1, .. },
                Layer::Affine { x: x2, w: w2, b: b2, .. },
            ) => *w2 == *w1 && *b2 == *b1 && x1.sp_same_core_mod_io(*x2),
            (Layer::Relu { x: x1, .. }, Layer::Relu { x: x2, .. }) => x1.sp_same_core_mod_io(*x2),
            (
                Layer::Sigmoid { x: x1, .. },
                Layer::Sigmoid { x: x2, .. },
            ) => x1.sp_same_core_mod_io(*x2),
            (
                Layer::BatchNorm { x: x1, w: w1, b: b1, .. },
                Layer::BatchNorm { x: x2, w: w2, b: b2, .. },
            ) => *w2 == *w1 && *b2 == *b1 && x1.sp_same_core_mod_io(*x2),
            (
                Layer::Dropout { x: x1, rate: r1, .. },
                Layer::Dropout { x: x2, rate: r2, .. },
            ) => r2 == r1 && x1.sp_same_core_mod_io(*x2),
            (
                Layer::Convolution {
                    x: x1,
                    filter: f1,
                    bias: b1,
                    channel: ca,
                    height: ha,
                    width: wa,
                    filter_h: fha,
                    filter_w: fwa,
                    stride: sa,
                    pad: pa,
                    ..
                },
                Layer::Convolution {
                    x: x2,
                    filter: f2,
                    bias: b2,
                    channel: cb,
                    height: hb,
                    width: wb,
                    filter_h: fhb,
                    filter_w: fwb,
                    stride: sb,
                    pad: pb,
                    ..
                },
            ) => *f2 == *f1 && *b2 == *b1 && ca == cb && ha == hb && wa == wb && fha == fhb && fwa
                == fwb && sa == sb && pa == pb && x1.sp_same_core_mod_io(*x2),
            (
                Layer::Pooling {
                    x: x1,
                    channel: ca,
                    height: ha,
                    width: wa,
                    filter_h: fha,
                    filter_w: fwa,
                    stride: sa,
                    pad: pa,
                    ..
                },
                Layer::Pooling {
                    x: x2,
                    channel: cb,
                    height: hb,
                    width: wb,
                    filter_h: fhb,
                    filter_w: fwb,
                    stride: sb,
                    pad: pb,
                    ..
                },
            ) => ca == cb && ha == hb && wa == wb && fha == fhb && fwa == fwb && sa == sb && pa
                == pb && x1.sp_same_core_mod_io(*x2),
            (
                Layer::SoftmaxLoss { x: x1, .. },
                Layer::SoftmaxLoss { x: x2, .. },
            ) => x1.sp_same_core_mod_io(*x2),
            _ => false,
        }
    }

    /// How `backward` relates a fresh, coherent graph to the graph after the
    /// gradient `dout` has been pushed through it: every node passes the
    /// analytic gradient of its own transform to its upstream node, caches
    /// stay as they are, and every parameter leaf is replaced by its
    /// optimizer's update.
    pub open spec fn sp_backward_rel(self, dout: Tensor<S>, post: Layer<S>) -> bool
        decreases self,
    {
        match (self, post) {
            (Layer::Value { value: a }, Layer::Value { value: b }) => b == a,
            (
                Layer::Param { value: a, optimizer: oa },
                Layer::Param { value: b, optimizer: ob },
            ) => sp_opt_update_rel(oa, a, dout, ob, b),
            (
                Layer::Affine { x: x1, w: w1, b: b1, cache: c1 },
                Layer::Affine { x: x2, w: w2, b: b2, cache: c2 },
            ) => {
                let xc = x1.sp_cached_out();
                let wc = w1.sp_cached_out();
                &&& c2 == c1
                &&& exists|dx: Tensor<S>|
                    {
                        &&& #[trigger] dx.wf()
                        &&& dx.sp_is_shape(x1.sp_out_rows(), x1.sp_out_cols())
                        &&& forall|i: int, j: int|
                            0 <= i < dx.sp_rows() && 0 <= j < dx.sp_cols() ==> #[trigger] dx.sp_at(
                                i,
                                j,
                            ) == crate::tensor::sp_dot_entry_rt(&dout, &wc, i, j)
                        &&& x1.sp_backward_rel(dx, *x2)
                    }
                &&& exists|dw: Tensor<S>|
                    {
                        &&& #[trigger] dw.wf()
                        &&& dw.sp_is_shape(w1.sp_out_rows(), w1.sp_out_cols())
                        &&& forall|i: int, j: int|
                            0 <= i < dw.sp_rows() && 0 <= j < dw.sp_cols() ==> #[trigger] dw.sp_at(
                                i,
                                j,
                            ) == crate::tensor::sp_dot_entry_lt(&xc, &dout, i, j)
                        &&& w1.sp_backward_rel(dw, *w2)
                    }
                &&& exists|db: Tensor<S>|
                    {
                        &&& #[trigger] db.wf()
                        &&& db.sp_is_shape(1, dout.sp_cols())
                        &&& forall|j: int|
                            0 <= j < db.sp_cols() ==> #[trigger] db.sp_at(0, j) == sp_col_sum(
                                &dout,
                                j,
                            ).sp_div(S::sp_from_u64(dout.sp_rows() as u64))
                        &&& b1.sp_backward_rel(db, *b2)
                    }
            },
            (Layer::Relu { x: x1, cache: c1 }, Layer::Relu { x: x2, cache: c2 }) => {
                let xc = x1.sp_cached_out();
                &&& c2 == c1
                &&& exists|dx: Tensor<S>|
                    {
                        &&& #[trigger] dx.wf()
                        &&& dx.sp_is_shape(dout.sp_rows(), dout.sp_cols())
                        &&& forall|i: int, j: int|
                            0 <= i < dx.sp_rows() && 0 <= j < dx.sp_cols() ==> #[trigger] dx.sp_at(
                                i,
                                j,
                            ) == if S::sp_zero().sp_lt(xc.sp_at(i, j)) {
                                dout.sp_at(i, j)
                            } else {
                                S::sp_zero()
                            }
                        &&& x1.sp_backward_rel(dx, *x2)
                    }
            },
            (Layer::Sigmoid { x: x1, cache: c1 }, Layer::Sigmoid { x: x2, cache: c2 }) => {
                let y = c1->Some_0;
                &&& c2 == c1
                &&& exists|dx: Tensor<S>|
                    {
                        &&& #[trigger] dx.wf()
                        &&& dx.sp_is_shape(dout.sp_rows(), dout.sp_cols())
                        &&& forall|i: int, j: int|
                            0 <= i < dx.sp_rows() && 0 <= j < dx.sp_cols() ==> #[trigger] dx.sp_at(
                                i,
                                j,
                            ) == dout.sp_at(i, j).sp_mul(S::sp_one().sp_sub(y.sp_at(i, j))).sp_mul(
                                y.sp_at(i, j),
                            )
                        &&& x1.sp_backward_rel(dx, *x2)
                    }
            },
            (
                Layer::BatchNorm {
                    x: x1,
                    w: w1,
                    b: b1,
                    cache: c1,
                    normalized: n1,
                    variance: v1,
                    average: a1,
                },
                Layer::BatchNorm {
                    x: x2,
                    w: w2,
                    b: b2,
                    cache: c2,
                    normalized: n2,
                    variance: v2,
                    average: a2,
                },
            ) => {
                let xc = x1.sp_cached_out();
                let wc = w1.sp_cached_out();
                let norm = n1->Some_0;
                let var = v1->Some_0;
                let avg = a1->Some_0;
                &&& c2 == c1
                &&& n2 == n1
                &&& v2 == v1
                &&& a2 == a1
                &&& exists|db: Tensor<S>|
                    {
                        &&& #[trigger] db.wf()
                        &&& db.sp_is_shape(dout.sp_rows(), dout.sp_cols())
                        &&& forall|i: int, j: int|
                            0 <= i < db.sp_rows() && 0 <= j < db.sp_cols() ==> #[trigger] db.sp_at(
                                i,
                                j,
                            ) == sp_col_sum(&dout, j)
                        &&& b1.sp_backward_rel(db, *b2)
                    }
                &&& exists|dw: Tensor<S>|
                    {
                        &&& #[trigger] dw.wf()
                        &&& dw.sp_is_shape(dout.sp_rows(), dout.sp_cols())
                        &&& forall|i: int, j: int|
                            0 <= i < dw.sp_rows() && 0 <= j < dw.sp_cols() ==> #[trigger] dw.sp_at(
                                i,
                                j,
                            ) == sp_bn_dw_col(&norm, &dout, j)
                        &&& w1.sp_backward_rel(dw, *w2)
                    }
                &&& exists|dx: Tensor<S>|
                    {
                        &&& #[trigger] dx.wf()
                        &&& dx.sp_is_shape(dout.sp_rows(), dout.sp_cols())
                        &&& forall|i: int, j: int|
                            0 <= i < dx.sp_rows() && 0 <= j < dx.sp_cols() ==> #[trigger] dx.sp_at(
                                i,
                                j,
                            ) == sp_bn_dx(&xc, &wc, &dout, &avg, &var, i, j)
                        &&& x1.sp_backward_rel(dx, *x2)
                    }
            },
            (
                Layer::Dropout { x: x1, rate: r1, cache: c1, mask: m1, training: tr1 },
                Layer::Dropout { x: x2, rate: r2, cache: c2, mask: m2, training: tr2 },
            ) => {
                let m = m1->Some_0;
                &&& r2 == r1
                &&& c2 == c1
                &&& m2 == m1
                &&& tr2 == tr1
                &&& exists|dx: Tensor<S>|
                    {
                        &&& #[trigger] dx.wf()
                        &&& dx.sp_is_shape(dout.sp_rows(), dout.sp_cols())
                        &&& forall|i: int, j: int|
                            0 <= i < dx.sp_rows() && 0 <= j < dx.sp_cols() ==> #[trigger] dx.sp_at(
                                i,
                                j,
                            ) == dout.sp_at(i, j).sp_mul(m.sp_at(i, j))
                        &&& x1.sp_backward_rel(dx, *x2)
                    }
            },
            (Layer::Convolution { .. }, Layer::Convolution { .. }) => post == self,
            (Layer::Pooling { .. }, Layer::Pooling { .. }) => post == self,
            (
                Layer::SoftmaxLoss { x: x1, target: t1, cache: c1, probs: p1 },
                Layer::SoftmaxLoss { x: x2, target: t2, cache: c2, probs: p2 },
            ) => {
                let p = p1->Some_0;
                &&& t2 == t1
                &&& c2 == c1
                &&& p2 == p1
                &&& exists|dx: Tensor<S>|
                    {
                        &&& #[trigger] dx.wf()
                        &&& dx.sp_is_shape(x1.sp_out_rows(), x1.sp_out_cols())
                        &&& forall|i: int, j: int|
                            0 <= i < dx.sp_rows() && 0 <= j < dx.sp_cols() ==> #[trigger] dx.sp_at(
                                i,
                                j,
                            ) == dout.sp_at(i, 0).sp_mul(p.sp_at(i, j).sp_sub(t1.sp_at(i, j)))
                        &&& x1.sp_backward_rel(dx, *x2)
                    }
            },
            _ => false,
        }
    }
}

impl<S: Scalar> Layer<S> {
    /// A data leaf.
    pub fn value(v: Tensor<S>) -> (r: Layer<S>)
        requires
            v.wf(),
        ensures
            r == (Layer::Value { value: v }),
            r.wf(),
            r.sp_coherent(),
            r.sp_recomputable(true),
            r.sp_recomputable(false),
    {
        Layer::Value { value: v }
    }

    /// A trainable parameter leaf owning its optimizer.
    pub fn param(v: Tensor<S>, optimizer: OptimizerKind<S>) -> (r: Layer<S>)
        requires
            v.wf(),
            sp_opt_ok(optimizer, v.sp_rows(), v.sp_cols()),
        ensures
            r == (Layer::Param { value: v, optimizer }),
            r.wf(),
            r.sp_coherent(),
            r.sp_recomputable(true),
            r.sp_recomputable(false),
    {
        Layer::Param { value: v, optimizer }
    }

    /// An affine node `x . w + b` over an upstream node and two parameter
    /// leaves.
    pub fn affine(x: Layer<S>, w: Layer<S>, b: Layer<S>) -> (r: Layer<S>)
        requires
            x.wf(),
            w.wf(),
            b.wf(),
            w.sp_is_leaf(),
            b.sp_is_leaf(),
            w.sp_out_rows() == x.sp_out_cols(),
            b.sp_out_rows() == 1,
            b.sp_out_cols() == w.sp_out_cols(),
        ensures
            r == (Layer::Affine {
                x: Box::new(x),
                w: Box::new(w),
                b: Box::new(b),
                cache: None::<Tensor<S>>,
            }),
            r.wf(),
    {
        Layer::Affine { x: Box::new(x), w: Box::new(w), b: Box::new(b), cache: None }
    }

    /// A rectifier node.
    pub fn relu(x: Layer<S>) -> (r: Layer<S>)
        requires
            x.wf(),
        ensures
            r == (Layer::Relu { x: Box::new(x), cache: None::<Tensor<S>> }),
            r.wf(),
    {
        Layer::Relu { x: Box::new(x), cache: None }
    }

    /// A sigmoid node.
    pub fn sigmoid(x: Layer<S>) -> (r: Layer<S>)
        requires
            x.wf(),
        ensures
            r == (Layer::Sigmoid { x: Box::new(x), cache: None::<Tensor<S>> }),
            r.wf(),
    {
        Layer::Sigmoid { x: Box::new(x), cache: None }
    }

    /// A batch-normalization node over two full-shape parameter leaves: the
    /// per-entry scale and shift.
    pub fn batch_norm(x: Layer<S>, w: Layer<S>, b: Layer<S>) -> (r: Layer<S>)
        requires
            x.wf(),
            w.wf(),
            b.wf(),
            w.sp_is_leaf(),
            b.sp_is_leaf(),
            w.sp_out_rows() == x.sp_out_rows(),
            w.sp_out_cols() == x.sp_out_cols(),
            b.sp_out_rows() == x.sp_out_rows(),
            b.sp_out_cols() == x.sp_out_cols(),
        ensures
            r == (Layer::BatchNorm {
                x: Box::new(x),
                w: Box::new(w),
                b: Box::new(b),
                cache: None::<Tensor<S>>,
                normalized: None::<Tensor<S>>,
                variance: None::<Tensor<S>>,
                average: None::<Tensor<S>>,
            }),
            r.wf(),
    {
        Layer::BatchNorm {
            x: Box::new(x),
            w: Box::new(w),
            b: Box::new(b),
            cache: None,
            normalized: None,
            variance: None,
            average: None,
        }
    }

    /// A dropout node with the given drop rate.
    pub fn dropout(x: Layer<S>, rate: S) -> (r: Layer<S>)
        requires
            x.wf(),
        ensures
            r == (Layer::Dropout {
                x: Box::new(x),
                rate,
                cache: None::<Tensor<S>>,
                mask: None::<Tensor<S>>,
                training: false,
            }),
            r.wf(),
    {
        Layer::Dropout { x: Box::new(x), rate, cache: None, mask: None, training: false }
    }

    /// A convolution node: the upstream output read as
    /// `(batch, channel, height, width)`, swept by the filters of a
    /// parameter leaf, with a bias leaf of one column per filter.
    pub fn convolution(
        x: Layer<S>,
        filter: Layer<S>,
        bias: Layer<S>,
        channel: usize,
        height: usize,
        width: usize,
        filter_h: usize,
        filter_w: usize,
        stride: usize,
        pad: usize,
    ) -> (r: Layer<S>)
        requires
            x.wf(),
            filter.wf(),
            bias.wf(),
            filter.sp_is_leaf(),
            bias.sp_is_leaf(),
            x.sp_out_cols() == channel * height * width,
            sp_geom_ok(
                x.sp_out_rows(),
                channel as int,
                height as int,
                width as int,
                filter_h as int,
                filter_w as int,
                stride as int,
                pad as int,
            ),
            filter.sp_out_cols() == channel * filter_h * filter_w,
            bias.sp_out_rows() == filter.sp_out_rows(),
            bias.sp_out_cols() == 1,
            filter.sp_out_rows() * (sp_out_count(
                height as int,
                filter_h as int,
                stride as int,
                pad as int,
            ) * sp_out_count(width as int, filter_w as int, stride as int, pad as int))
                <= usize::MAX,
        ensures
            r == (Layer::Convolution {
                x: Box::new(x),
                filter: Box::new(filter),
                bias: Box::new(bias),
                channel,
                height,
                width,
                filter_h,
                filter_w,
                stride,
                pad,
                cache: None::<Tensor<S>>,
            }),
            r.wf(),
    {
        Layer::Convolution {
            x: Box::new(x),
            filter: Box::new(filter),
            bias: Box::new(bias),
            channel,
            height,
            width,
            filter_h,
            filter_w,
            stride,
            pad,
            cache: None,
        }
    }

    /// A max-pooling node: the upstream output read as
    /// `(batch, channel, height, width)`, each window replaced by its
    /// greatest value.
    pub fn pooling(
        x: Layer<S>,
        channel: usize,
        height: usize,
        width: usize,
        filter_h: usize,
        filter_w: usize,
        stride: usize,
        pad: usize,
    ) -> (r: Layer<S>)
        requires
            x.wf(),
            x.sp_out_cols() == channel * height * width,
            sp_geom_ok(
                x.sp_out_rows(),
                channel as int,
                height as int,
                width as int,
                filter_h as int,
                filter_w as int,
                stride as int,
                pad as int,
            ),
            channel * (sp_out_count(height as int, filter_h as int, stride as int, pad as int)
                * sp_out_count(width as int, filter_w as int, stride as int, pad as int))
                <= usize::MAX,
        ensures
            r == (Layer::Pooling {
                x: Box::new(x),
                channel,
                height,
                width,
                filter_h,
                filter_w,
                stride,
                pad,
                cache: None::<Tensor<S>>,
            }),
            r.wf(),
    {
        Layer::Pooling {
            x: Box::new(x),
            channel,
            height,
            width,
            filter_h,
            filter_w,
            stride,
            pad,
            cache: None,
        }
    }

    /// An affine node over randomly initialized parameter leaves: the
    /// weight entries are drawn from the sampler, the bias entries drawn
    /// and scaled down a hundredfold.
    pub fn affine_random<R: Sampler<S>>(
        x: Layer<S>,
        input_len: usize,
        neuron_len: usize,
        optimizer_w: OptimizerKind<S>,
        optimizer_b: OptimizerKind<S>,
        rng: &mut R,
    ) -> (r: Layer<S>)
        requires
            x.wf(),
            x.sp_out_cols() == input_len,
            sp_opt_ok(optimizer_w, input_len as int, neuron_len as int),
            sp_opt_ok(optimizer_b, 1, neuron_len as int),
            input_len * neuron_len <= usize::MAX,
        ensures
            r.wf(),
            r is Affine,
            r.sp_out_rows() == x.sp_out_rows(),
            r.sp_out_cols() == neuron_len,
            r.sp_in_rows() == x.sp_in_rows(),
            r.sp_in_cols() == x.sp_in_cols(),
            x.sp_coherent() ==> r.sp_coherent(),
            forall|m: bool| x.sp_recomputable(m) ==> #[trigger] r.sp_recomputable(m),
            r matches Layer::Affine { x: rx, w: rw, b: rb, cache: rc } && *rx == x && rc is None
                && (*rw matches Layer::Param { value: wv, optimizer: wo } && wo == optimizer_w
                && wv.wf() && wv.sp_is_shape(input_len as int, neuron_len as int)) && (
            *rb matches Layer::Param { value: bv, optimizer: bo } && bo == optimizer_b && bv.wf()
                && bv.sp_is_shape(1, neuron_len as int) && (exists|d: Tensor<S>|
                #![trigger d.sp_same_shape(&bv)]
                d.wf() && d.sp_same_shape(&bv) && forall|i: int, j: int|
                    0 <= i < bv.sp_rows() && 0 <= j < bv.sp_cols() ==> #[trigger] bv.sp_at(i, j)
                        == d.sp_at(i, j).sp_mul(S::sp_one().sp_div(S::sp_from_u64(100))))),
    {
        let w_value = sample_tensor(input_len, neuron_len, rng);
        let draw = sample_tensor(1, neuron_len, rng);
        let b_value = draw.scale(S::one().div(S::from_u64(100)));
        let ghost gd = draw;
        let w = Layer::param(w_value, optimizer_w);
        let b = Layer::param(b_value, optimizer_b);
        let r = Layer::affine(x, w, b);
        proof {
            assert(gd.wf() && gd.sp_same_shape(&b_value));
        }
        r
    }

    /// A convolution node over randomly initialized filter and bias leaves,
    /// the bias entries scaled down a hundredfold.
    pub fn convolution_random<R: Sampler<S>>(
        x: Layer<S>,
        optimizer_f: OptimizerKind<S>,
        optimizer_b: OptimizerKind<S>,
        filter_num: usize,
        channel: usize,
        height: usize,
        width: usize,
        filter_h: usize,
        filter_w: usize,
        stride: usize,
        pad: usize,
        rng: &mut R,
    ) -> (r: Layer<S>)
        requires
            x.wf(),
            x.sp_out_cols() == channel * height * width,
            sp_geom_ok(
                x.sp_out_rows(),
                channel as int,
                height as int,
                width as int,
                filter_h as int,
                filter_w as int,
                stride as int,
                pad as int,
            ),
            channel * filter_h * filter_w <= usize::MAX,
            sp_opt_ok(optimizer_f, filter_num as int, channel * filter_h * filter_w),
            sp_opt_ok(optimizer_b, filter_num as int, 1),
            filter_num * (sp_out_count(height as int, filter_h as int, stride as int, pad as int)
                * sp_out_count(width as int, filter_w as int, stride as int, pad as int))
                <= usize::MAX,
        ensures
            r.wf(),
            r is Convolution,
            r.sp_out_rows() == x.sp_out_rows(),
            r.sp_out_cols() == filter_num * (sp_out_count(
                height as int,
                filter_h as int,
                stride as int,
                pad as int,
            ) * sp_out_count(width as int, filter_w as int, stride as int, pad as int)),
            r.sp_in_rows() == x.sp_in_rows(),
            r.sp_in_cols() == x.sp_in_cols(),
            x.sp_coherent() ==> r.sp_coherent(),
            forall|m: bool| x.sp_recomputable(m) ==> #[trigger] r.sp_recomputable(m),
            r matches Layer::Convolution { x: rx, filter: rf, bias: rb, cache: rc, .. } && *rx == x
                && rc is None && (*rf matches Layer::Param { value: fv, optimizer: fo } && fo
                == optimizer_f && fv.wf() && fv.sp_is_shape(
                filter_num as int,
                channel * filter_h * filter_w,
            )) && (*rb matches Layer::Param { value: bv, optimizer: bo } && bo == optimizer_b
                && bv.wf() && bv.sp_is_shape(filter_num as int, 1) && (exists|d: Tensor<S>|
                #![trigger d.sp_same_shape(&bv)]
                d.wf() && d.sp_same_shape(&bv) && forall|i: int, j: int|
                    0 <= i < bv.sp_rows() && 0 <= j < bv.sp_cols() ==> #[trigger] bv.sp_at(i, j)
                        == d.sp_at(i, j).sp_mul(S::sp_one().sp_div(S::sp_from_u64(100))))),
    {
        proof {
            assert(channel * (filter_h as int) * (filter_w as int) == channel * ((filter_h as int)
                * (filter_w as int))) by (nonlinear_arith);
        }
        let filter_value = sample_tensor(filter_num, channel * (filter_h * filter_w), rng);
        let draw = sample_tensor(filter_num, 1, rng);
        let bias_value = draw.scale(S::one().div(S::from_u64(100)));
        let ghost gd = draw;
        let filter = Layer::param(filter_value, optimizer_f);
        let bias = Layer::param(bias_value, optimizer_b);
        let r = Layer::convolution(
            x,
            filter,
            bias,
            channel,
            height,
            width,
            filter_h,
            filter_w,
            stride,
            pad,
        );
        proof {
            assert(gd.wf() && gd.sp_same_shape(&bias_value));
        }
        r
    }

    /// The loss node: row-wise softmax plus cross entropy against a one-hot
    /// target.
    pub fn softmax_with_loss(x: Layer<S>, target: Tensor<S>) -> (r: Layer<S>)
        requires
            x.wf(),
            target.wf(),
            target.sp_is_shape(x.sp_out_rows(), x.sp_out_cols()),
            x.sp_out_cols() > 0,
        ensures
            r == (Layer::SoftmaxLoss {
                x: Box::new(x),
                target,
                cache: None::<Tensor<S>>,
                probs: None::<Tensor<S>>,
            }),
            r.wf(),
    {
        Layer::SoftmaxLoss { x: Box::new(x), target, cache: None, probs: None }
    }

    /// Whether this node is the loss node.
    pub fn is_loss_layer(&self) -> (r: bool)
        ensures
            r == self.sp_is_loss(),
    {
        match self {
            Layer::SoftmaxLoss { .. } => true,
            _ => false,
        }
    }

    /// Compute-or-return-cached: recursively pulls values upstream, memoizes
    /// every output on the way, and returns this node's output.  On a graph
    /// already fresh for this mode, it is the identity and returns the
    /// cache.
    pub fn forward_owned<R: Sampler<S>>(self, is_training: bool, rng: &mut R) -> (res: (
        Layer<S>,
        Tensor<S>,
    ))
        requires
            self.wf(),
            self.sp_coherent(),
            self.sp_recomputable(is_training),
        ensures
            res.0.wf(),
            res.0.sp_coherent(),
            res.0.sp_fresh_for(is_training),
            self.sp_same_core(res.0),
            res.0.sp_out_rows() == self.sp_out_rows(),
            res.0.sp_out_cols() == self.sp_out_cols(),
            res.0.sp_in_rows() == self.sp_in_rows(),
            res.0.sp_in_cols() == self.sp_in_cols(),
            res.0.sp_skip_rows() == self.sp_skip_rows(),
            res.0.sp_skip_cols() == self.sp_skip_cols(),
            self.sp_fits_like(res.0),
            res.1.wf(),
            res.1.sp_is_shape(self.sp_out_rows(), self.sp_out_cols()),
            sp_t_eq(res.1, res.0.sp_cached_out()),
            self.sp_fresh_for(is_training) ==> res.0 == self,
        decreases self,
    {
        match self {
            Layer::Value { value } => {
                let y = value.duplicate();
                (Layer::Value { value }, y)
            },
            Layer::Param { value, optimizer } => {
                let y = value.duplicate();
                (Layer::Param { value, optimizer }, y)
            },
            Layer::Affine { x, w, b, cache } => {
                match cache {
                    Some(z) => {
                        proof {
                            lemma_same_core_refl(*x);
                            lemma_same_core_refl(*w);
                            lemma_same_core_refl(*b);
                            lemma_fits_like_refl(*x);
                        }
                        let y = z.duplicate();
                        (Layer::Affine { x, w, b, cache: Some(z) }, y)
                    },
                    None => {
                        let (nx, xv) = (*x).forward_owned(is_training, rng);
                        let (nw, wv) = (*w).forward_owned(is_training, rng);
                        let (nb, bv) = (*b).forward_owned(is_training, rng);
                        let z = xv.matmul(&wv).add_row_bias(&bv);
                        proof {
                            let xc = nx.sp_cached_out();
                            let wc = nw.sp_cached_out();
                            assert forall|i: int, j: int|
                                0 <= i < z.sp_rows() && 0 <= j < z.sp_cols() implies #[trigger] z.sp_at(
                                i,
                                j,
                            ) == sp_dot_entry(&xc, &wc, i, j).sp_add(
                                nb.sp_cached_out().sp_at(0, j),
                            ) by {
                                crate::tensor::lemma_dot_entry_congr(xv, xc, wv, wc, i, j);
                            }
                        }
                        let y = z.duplicate();
                        (
                            Layer::Affine {
                                x: Box::new(nx),
                                w: Box::new(nw),
                                b: Box::new(nb),
                                cache: Some(z),
                            },
                            y,
                        )
                    },
                }
            },
            Layer::Relu { x, cache } => {
                match cache {
                    Some(z) => {
                        proof {
                            lemma_same_core_refl(*x);
                            lemma_fits_like_refl(*x);
                        }
                        let y = z.duplicate();
                        (Layer::Relu { x, cache: Some(z) }, y)
                    },
                    None => {
                        let (nx, xv) = (*x).forward_owned(is_training, rng);
                        let z = relu_map(&xv);
                        let y = z.duplicate();
                        (Layer::Relu { x: Box::new(nx), cache: Some(z) }, y)
                    },
                }
            },
            Layer::Sigmoid { x, cache } => {
                match cache {
                    Some(z) => {
                        proof {
                            lemma_same_core_refl(*x);
                            lemma_fits_like_refl(*x);
                        }
                        let y = z.duplicate();
                        (Layer::Sigmoid { x, cache: Some(z) }, y)
                    },
                    None => {
                        let (nx, xv) = (*x).forward_owned(is_training, rng);
                        let z = sigmoid_map(&xv);
                        let y = z.duplicate();
                        (Layer::Sigmoid { x: Box::new(nx), cache: Some(z) }, y)
                    },
                }
            },
            Layer::BatchNorm { x, w, b, cache, normalized, variance, average } => {
                match cache {
                    Some(z) => {
                        proof {
                            lemma_same_core_refl(*x);
                            lemma_same_core_refl(*w);
                            lemma_same_core_refl(*b);
                            lemma_fits_like_refl(*x);
                        }
                        let y = z.duplicate();
                        (
                            Layer::BatchNorm {
                                x,
                                w,
                                b,
                                cache: Some(z),
                                normalized,
                                variance,
                                average,
                            },
                            y,
                        )
                    },
                    None => {
                        let (nx, xv) = (*x).forward_owned(is_training, rng);
                        let (nw, wv) = (*w).forward_owned(is_training, rng);
                        let (nb2, bv) = (*b).forward_owned(is_training, rng);
                        let (avg, var) = crate::batch_norm::calc_distribute_and_broadcast(&xv);
                        let n = bn_normalize_map(&xv, &avg, &var);
                        let z = n.ew_mul(&wv).ew_add(&bv);
                        proof {
                            let xc = nx.sp_cached_out();
                            assert forall|j: int| 0 <= j < xv.sp_cols() implies sp_col_mean(
                                &xv,
                                j,
                            ) == sp_col_mean(&xc, j) && sp_col_var(&xv, j) == sp_col_var(
                                &xc,
                                j,
                            ) by {
                                crate::batch_norm::lemma_col_stats_congr(&xv, &xc, j);
                            }
                        }
                        let y = z.duplicate();
                        (
                            Layer::BatchNorm {
                                x: Box::new(nx),
                                w: Box::new(nw),
                                b: Box::new(nb2),
                                cache: Some(z),
                                normalized: Some(n),
                                variance: Some(var),
                                average: Some(avg),
                            },
                            y,
                        )
                    },
                }
            },
            Layer::Dropout { x, rate, cache, mask, training } => {
                if cache.is_some() && training == is_training {
                    proof {
                        lemma_same_core_refl(*x);
                        lemma_fits_like_refl(*x);
                    }
                    let z = match &cache {
                        Some(z) => z.duplicate(),
                        None => Tensor::zeros(0, 0),
                    };
                    (Layer::Dropout { x, rate, cache, mask, training }, z)
                } else {
                    let (nx, xv) = (*x).forward_owned(is_training, rng);
                    if is_training {
                        let m = draw_mask(xv.rows(), xv.cols(), rate, rng);
                        let z = xv.ew_mul(&m);
                        let y = z.duplicate();
                        (
                            Layer::Dropout {
                                x: Box::new(nx),
                                rate,
                                cache: Some(z),
                                mask: Some(m),
                                training: true,
                            },
                            y,
                        )
                    } else {
                        let z = xv.scale(S::one().sub(rate));
                        let y = z.duplicate();
                        (
                            Layer::Dropout {
                                x: Box::new(nx),
                                rate,
                                cache: Some(z),
                                mask,
                                training: false,
                            },
                            y,
                        )
                    }
                }
            },
            Layer::Convolution {
                x,
                filter,
                bias,
                channel,
                height,
                width,
                filter_h,
                filter_w,
                stride,
                pad,
                cache,
            } => {
                match cache {
                    Some(z) => {
                        proof {
                            lemma_same_core_refl(*x);
                            lemma_same_core_refl(*filter);
                            lemma_same_core_refl(*bias);
                            lemma_fits_like_refl(*x);
                        }
                        let y = z.duplicate();
                        (
                            Layer::Convolution {
                                x,
                                filter,
                                bias,
                                channel,
                                height,
                                width,
                                filter_h,
                                filter_w,
                                stride,
                                pad,
                                cache: Some(z),
                            },
                            y,
                        )
                    },
                    None => {
                        let (nx, xv) = (*x).forward_owned(is_training, rng);
                        let (nf, fv) = (*filter).forward_owned(is_training, rng);
                        let (nb2, bv) = (*bias).forward_owned(is_training, rng);
                        let t4 = match Tensor4::from_matrix(&xv, channel, height, width) {
                            Some(t4) => t4,
                            None => unreached(),
                        };
                        let z = crate::convolution::convolution_forward(
                            &t4,
                            &fv,
                            &bv,
                            filter_h,
                            filter_w,
                            stride,
                            pad,
                        );
                        proof {
                            let xc = nx.sp_cached_out();
                            assert forall|b: int, c: int, y: int, xx: int|
                                0 <= b < t4.sp_b() && 0 <= c < channel && 0 <= y < height && 0 <= xx
                                    < width implies #[trigger] t4.sp_at4(b, c, y, xx) == xc.sp_at(
                                b,
                                (c * height + y) * width + xx,
                            ) by {
                                crate::convolution::lemma_flat_bound(
                                    c,
                                    y,
                                    xx,
                                    channel as int,
                                    height as int,
                                    width as int,
                                );
                            }
                            let fc = nf.sp_cached_out();
                            let bc = nb2.sp_cached_out();
                            assert forall|i: int, j: int|
                                0 <= i < z.sp_rows() && 0 <= j < z.sp_cols() implies #[trigger] z.sp_at(
                                i,
                                j,
                            ) == sp_conv_entry(
                                &t4,
                                &fc,
                                &bc,
                                filter_h as int,
                                filter_w as int,
                                stride as int,
                                pad as int,
                                i,
                                j,
                            ) by {
                                crate::convolution::lemma_conv_entry_congr(
                                    &t4,
                                    &t4,
                                    &fv,
                                    &fc,
                                    &bv,
                                    &bc,
                                    filter_h as int,
                                    filter_w as int,
                                    stride as int,
                                    pad as int,
                                    i,
                                    j,
                                );
                            }
                        }
                        let y = z.duplicate();
                        (
                            Layer::Convolution {
                                x: Box::new(nx),
                                filter: Box::new(nf),
                                bias: Box::new(nb2),
                                channel,
                                height,
                                width,
                                filter_h,
                                filter_w,
                                stride,
                                pad,
                                cache: Some(z),
                            },
                            y,
                        )
                    },
                }
            },
            Layer::Pooling { x, channel, height, width, filter_h, filter_w, stride, pad, cache } => {
                match cache {
                    Some(z) => {
                        proof {
                            lemma_same_core_refl(*x);
                            lemma_fits_like_refl(*x);
                        }
                        let y = z.duplicate();
                        (
                            Layer::Pooling {
                                x,
                                channel,
                                height,
                                width,
                                filter_h,
                                filter_w,
                                stride,
                                pad,
                                cache: Some(z),
                            },
                            y,
                        )
                    },
                    None => {
                        let (nx, xv) = (*x).forward_owned(is_training, rng);
                        let t4 = match Tensor4::from_matrix(&xv, channel, height, width) {
                            Some(t4) => t4,
                            None => unreached(),
                        };
                        let z = crate::convolution::pooling_forward(
                            &t4,
                            filter_h,
                            filter_w,
                            stride,
                            pad,
                        );
                        proof {
                            let xc = nx.sp_cached_out();
                            assert forall|b: int, c: int, y: int, xx: int|
                                0 <= b < t4.sp_b() && 0 <= c < channel && 0 <= y < height && 0 <= xx
                                    < width implies #[trigger] t4.sp_at4(b, c, y, xx) == xc.sp_at(
                                b,
                                (c * height + y) * width + xx,
                            ) by {
                                crate::convolution::lemma_flat_bound(
                                    c,
                                    y,
                                    xx,
                                    channel as int,
                                    height as int,
                                    width as int,
                                );
                            }
                        }
                        let y = z.duplicate();
                        (
                            Layer::Pooling {
                                x: Box::new(nx),
                                channel,
                                height,
                                width,
                                filter_h,
                                filter_w,
                                stride,
                                pad,
                                cache: Some(z),
                            },
                            y,
                        )
                    },
                }
            },
            Layer::SoftmaxLoss { x, target, cache, probs } => {
                match cache {
                    Some(z) => {
                        proof {
                            lemma_same_core_refl(*x);
                            lemma_fits_like_refl(*x);
                        }
                        let y = z.duplicate();
                        (Layer::SoftmaxLoss { x, target, cache: Some(z), probs }, y)
                    },
                    None => {
                        let (nx, xv) = (*x).forward_owned(is_training, rng);
                        let p = crate::loss_functions::softmax_batch(&xv);
                        let z = crate::loss_functions::crosss_entropy_error_batch(&p, &target);
                        proof {
                            let xc = nx.sp_cached_out();
                            assert forall|i: int, j: int|
                                0 <= i < p.sp_rows() && 0 <= j < p.sp_cols() implies #[trigger] p.sp_at(
                                i,
                                j,
                            ) == sp_softmax_at(&xc, i, j) by {
                                assert(xv.sp_row(i) =~= xc.sp_row(i));
                            }
                        }
                        let y = z.duplicate();
                        (
                            Layer::SoftmaxLoss {
                                x: Box::new(nx),
                                target,
                                cache: Some(z),
                                probs: Some(p),
                            },
                            y,
                        )
                    },
                }
            },
        }
    }

    /// In-place `forward`.
    pub fn forward<R: Sampler<S>>(&mut self, is_training: bool, rng: &mut R) -> (y: Tensor<S>)
        requires
            old(self).wf(),
            old(self).sp_coherent(),
            old(self).sp_recomputable(is_training),
        ensures
            final(self).wf(),
            final(self).sp_coherent(),
            final(self).sp_fresh_for(is_training),
            old(self).sp_same_core(*final(self)),
            final(self).sp_out_rows() == old(self).sp_out_rows(),
            final(self).sp_out_cols() == old(self).sp_out_cols(),
            final(self).sp_in_rows() == old(self).sp_in_rows(),
            final(self).sp_in_cols() == old(self).sp_in_cols(),
            final(self).sp_skip_rows() == old(self).sp_skip_rows(),
            final(self).sp_skip_cols() == old(self).sp_skip_cols(),
            old(self).sp_fits_like(*final(self)),
            y.wf(),
            y.sp_is_shape(old(self).sp_out_rows(), old(self).sp_out_cols()),
            sp_t_eq(y, final(self).sp_cached_out()),
            old(self).sp_fresh_for(is_training) ==> *final(self) == *old(self),
    {
        let mut this = Layer::Value { value: Tensor::zeros(0, 0) };
        core::mem::swap(self, &mut this);
        let (nl, y) = this.forward_owned(is_training, rng);
        *self = nl;
        y
    }

    /// `forward`, except that a loss node at the root is skipped and its
    /// upstream output returned instead: the network's raw scores.
    pub fn forward_skip_loss<R: Sampler<S>>(&mut self, is_training: bool, rng: &mut R) -> (y:
        Tensor<S>)
        requires
            old(self).wf(),
            old(self).sp_coherent(),
            old(self).sp_recomputable(is_training),
        ensures
            final(self).wf(),
            final(self).sp_coherent(),
            final(self).sp_recomputable(is_training),
            old(self).sp_same_core(*final(self)),
            final(self).sp_out_rows() == old(self).sp_out_rows(),
            final(self).sp_out_cols() == old(self).sp_out_cols(),
            final(self).sp_in_rows() == old(self).sp_in_rows(),
            final(self).sp_in_cols() == old(self).sp_in_cols(),
            final(self).sp_skip_rows() == old(self).sp_skip_rows(),
            final(self).sp_skip_cols() == old(self).sp_skip_cols(),
            old(self).sp_fits_like(*final(self)),
            final(self).sp_skip_fresh_for(is_training),
            y.wf(),
            y.sp_is_shape(old(self).sp_skip_rows(), old(self).sp_skip_cols()),
            sp_t_eq(y, final(self).sp_skip_out()),
            old(self).sp_skip_fresh_for(is_training) ==> *final(self) == *old(self),
    {
        let mut this = Layer::Value { value: Tensor::zeros(0, 0) };
        core::mem::swap(self, &mut this);
        match this {
            Layer::SoftmaxLoss { x, target, cache, probs } => {
                proof {
                    if cache is Some {
                        lemma_fresh_implies_recomputable(*x, is_training);
                    }
                }
                let (nx, y) = (*x).forward_owned(is_training, rng);
                proof {
                    lemma_fresh_implies_recomputable(nx, is_training);
                }
                *self = Layer::SoftmaxLoss { x: Box::new(nx), target, cache, probs };
                y
            },
            other => {
                let (nl, y) = other.forward_owned(is_training, rng);
                proof {
                    lemma_fresh_implies_recomputable(nl, is_training);
                }
                *self = nl;
                y
            },
        }
    }

    /// Replaces the input leaf's data and invalidates every cache on the
    /// path from the leaf to this node.
    pub fn set_value_owned(self, v: &Tensor<S>) -> (post: Layer<S>)
        requires
            self.wf(),
            v.wf(),
            v.sp_is_shape(self.sp_in_rows(), self.sp_in_cols()),
        ensures
            post.wf(),
            post.sp_coherent(),
            post.sp_recomputable(true),
            post.sp_recomputable(false),
            self.sp_set_value_rel(post, *v),
            post.sp_out_rows() == self.sp_out_rows(),
            post.sp_out_cols() == self.sp_out_cols(),
            post.sp_in_rows() == self.sp_in_rows(),
            post.sp_in_cols() == self.sp_in_cols(),
            post.sp_skip_rows() == self.sp_skip_rows(),
            post.sp_skip_cols() == self.sp_skip_cols(),
            self.sp_fits_like(post),
        decreases self,
    {
        match self {
            Layer::Value { .. } => Layer::Value { value: v.duplicate() },
            Layer::Param { optimizer, .. } => Layer::Param { value: v.duplicate(), optimizer },
            Layer::Affine { x, w, b, .. } => {
                let nx = (*x).set_value_owned(v);
                Layer::Affine { x: Box::new(nx), w, b, cache: None }
            },
            Layer::Relu { x, .. } => {
                let nx = (*x).set_value_owned(v);
                Layer::Relu { x: Box::new(nx), cache: None }
            },
            Layer::Sigmoid { x, .. } => {
                let nx = (*x).set_value_owned(v);
                Layer::Sigmoid { x: Box::new(nx), cache: None }
            },
            Layer::BatchNorm { x, w, b, .. } => {
                let nx = (*x).set_value_owned(v);
                Layer::BatchNorm {
                    x: Box::new(nx),
                    w,
                    b,
                    cache: None,
                    normalized: None,
                    variance: None,
                    average: None,
                }
            },
            Layer::Dropout { x, rate, training, .. } => {
                let nx = (*x).set_value_owned(v);
                Layer::Dropout { x: Box::new(nx), rate, cache: None, mask: None, training }
            },
            Layer::Convolution {
                x,
                filter,
                bias,
                channel,
                height,
                width,
                filter_h,
                filter_w,
                stride,
                pad,
                ..
            } => {
                let nx = (*x).set_value_owned(v);
                Layer::Convolution {
                    x: Box::new(nx),
                    filter,
                    bias,
                    channel,
                    height,
                    width,
                    filter_h,
                    filter_w,
                    stride,
                    pad,
                    cache: None,
                }
            },
            Layer::Pooling { x, channel, height, width, filter_h, filter_w, stride, pad, .. } => {
                let nx = (*x).set_value_owned(v);
                Layer::Pooling {
                    x: Box::new(nx),
                    channel,
                    height,
                    width,
                    filter_h,
                    filter_w,
                    stride,
                    pad,
                    cache: None,
                }
            },
            Layer::SoftmaxLoss { x, target, .. } => {
                let nx = (*x).set_value_owned(v);
                Layer::SoftmaxLoss { x: Box::new(nx), target, cache: None, probs: None }
            },
        }
    }

    /// In-place `set_value`.
    pub fn set_value(&mut self, v: &Tensor<S>)
        requires
            old(self).wf(),
            v.wf(),
            v.sp_is_shape(old(self).sp_in_rows(), old(self).sp_in_cols()),
        ensures
            final(self).wf(),
            final(self).sp_coherent(),
            final(self).sp_recomputable(true),
            final(self).sp_recomputable(false),
            old(self).sp_set_value_rel(*final(self), *v),
            final(self).sp_out_rows() == old(self).sp_out_rows(),
            final(self).sp_out_cols() == old(self).sp_out_cols(),
            final(self).sp_in_rows() == old(self).sp_in_rows(),
            final(self).sp_in_cols() == old(self).sp_in_cols(),
            final(self).sp_skip_rows() == old(self).sp_skip_rows(),
            final(self).sp_skip_cols() == old(self).sp_skip_cols(),
            old(self).sp_fits_like(*final(self)),
    {
        let mut this = Layer::Value { value: Tensor::zeros(0, 0) };
        core::mem::swap(self, &mut this);
        *self = this.set_value_owned(v);
    }

    /// Replaces the loss node's target and invalidates every cache on the
    /// path.
    pub fn set_lbl_owned(self, v: &Tensor<S>) -> (post: Layer<S>)
        requires
            self.wf(),
            v.wf(),
            self.sp_lbl_ok(*v),
        ensures
            post.wf(),
            post.sp_coherent(),
            post.sp_recomputable(true),
            post.sp_recomputable(false),
            self.sp_set_lbl_rel(post, *v),
            post.sp_out_rows() == self.sp_out_rows(),
            post.sp_out_cols() == self.sp_out_cols(),
            post.sp_in_rows() == self.sp_in_rows(),
            post.sp_in_cols() == self.sp_in_cols(),
            post.sp_skip_rows() == self.sp_skip_rows(),
            post.sp_skip_cols() == self.sp_skip_cols(),
            self.sp_fits_like(post),
        decreases self,
    {
        match self {
            Layer::Value { value } => Layer::Value { value },
            Layer::Param { value, optimizer } => Layer::Param { value, optimizer },
            Layer::Affine { x, w, b, .. } => {
                let nx = (*x).set_lbl_owned(v);
                Layer::Affine { x: Box::new(nx), w, b, cache: None }
            },
            Layer::Relu { x, .. } => {
                let nx = (*x).set_lbl_owned(v);
                Layer::Relu { x: Box::new(nx), cache: None }
            },
            Layer::Sigmoid { x, .. } => {
                let nx = (*x).set_lbl_owned(v);
                Layer::Sigmoid { x: Box::new(nx), cache: None }
            },
            Layer::BatchNorm { x, w, b, .. } => {
                let nx = (*x).set_lbl_owned(v);
                Layer::BatchNorm {
                    x: Box::new(nx),
                    w,
                    b,
                    cache: None,
                    normalized: None,
                    variance: None,
                    average: None,
                }
            },
            Layer::Dropout { x, rate, training, .. } => {
                let nx = (*x).set_lbl_owned(v);
                Layer::Dropout { x: Box::new(nx), rate, cache: None, mask: None, training }
            },
            Layer::Convolution {
                x,
                filter,
                bias,
                channel,
                height,
                width,
                filter_h,
                filter_w,
                stride,
                pad,
                ..
            } => {
                let nx = (*x).set_lbl_owned(v);
                Layer::Convolution {
                    x: Box::new(nx),
                    filter,
                    bias,
                    channel,
                    height,
                    width,
                    filter_h,
                    filter_w,
                    stride,
                    pad,
                    cache: None,
                }
            },
            Layer::Pooling { x, channel, height, width, filter_h, filter_w, stride, pad, .. } => {
                let nx = (*x).set_lbl_owned(v);
                Layer::Pooling {
                    x: Box::new(nx),
                    channel,
                    height,
                    width,
                    filter_h,
                    filter_w,
                    stride,
                    pad,
                    cache: None,
                }
            },
            Layer::SoftmaxLoss { x, .. } => {
                let nx = (*x).clean_spine_owned();
                proof {
                    lemma_all_clear_ok(nx);
                }
                Layer::SoftmaxLoss {
                    x: Box::new(nx),
                    target: v.duplicate(),
                    cache: None,
                    probs: None,
                }
            },
        }
    }

    /// Drops every cache on the input spine, touching nothing else.
    pub fn clean_spine_owned(self) -> (post: Layer<S>)
        requires
            self.wf(),
        ensures
            post.wf(),
            self.sp_same_core(post),
            post.sp_all_clear(),
            post.sp_out_rows() == self.sp_out_rows(),
            post.sp_out_cols() == self.sp_out_cols(),
            post.sp_in_rows() == self.sp_in_rows(),
            post.sp_in_cols() == self.sp_in_cols(),
        decreases self,
    {
        match self {
            Layer::Value { value } => Layer::Value { value },
            Layer::Param { value, optimizer } => Layer::Param { value, optimizer },
            Layer::Affine { x, w, b, .. } => {
                proof {
                    lemma_same_core_refl(*w);
                    lemma_same_core_refl(*b);
                }
                let nx = (*x).clean_spine_owned();
                Layer::Affine { x: Box::new(nx), w, b, cache: None }
            },
            Layer::Relu { x, .. } => {
                let nx = (*x).clean_spine_owned();
                Layer::Relu { x: Box::new(nx), cache: None }
            },
            Layer::Sigmoid { x, .. } => {
                let nx = (*x).clean_spine_owned();
                Layer::Sigmoid { x: Box::new(nx), cache: None }
            },
            Layer::BatchNorm { x, w, b, .. } => {
                proof {
                    lemma_same_core_refl(*w);
                    lemma_same_core_refl(*b);
                }
                let nx = (*x).clean_spine_owned();
                Layer::BatchNorm {
                    x: Box::new(nx),
                    w,
                    b,
                    cache: None,
                    normalized: None,
                    variance: None,
                    average: None,
                }
            },
            Layer::Dropout { x, rate, training, .. } => {
                let nx = (*x).clean_spine_owned();
                Layer::Dropout { x: Box::new(nx), rate, cache: None, mask: None, training }
            },
            Layer::Convolution {
                x,
                filter,
                bias,
                channel,
                height,
                width,
                filter_h,
                filter_w,
                stride,
                pad,
                ..
            } => {
                proof {
                    lemma_same_core_refl(*filter);
                    lemma_same_core_refl(*bias);
                }
                let nx = (*x).clean_spine_owned();
                Layer::Convolution {
                    x: Box::new(nx),
                    filter,
                    bias,
                    channel,
                    height,
                    width,
                    filter_h,
                    filter_w,
                    stride,
                    pad,
                    cache: None,
                }
            },
            Layer::Pooling { x, channel, height, width, filter_h, filter_w, stride, pad, .. } => {
                let nx = (*x).clean_spine_owned();
                Layer::Pooling {
                    x: Box::new(nx),
                    channel,
                    height,
                    width,
                    filter_h,
                    filter_w,
                    stride,
                    pad,
                    cache: None,
                }
            },
            Layer::SoftmaxLoss { x, target, .. } => {
                let nx = (*x).clean_spine_owned();
                Layer::SoftmaxLoss { x: Box::new(nx), target, cache: None, probs: None }
            },
        }
    }

    /// In-place `set_lbl`.
    pub fn set_lbl(&mut self, v: &Tensor<S>)
        requires
            old(self).wf(),
            v.wf(),
            old(self).sp_lbl_ok(*v),
        ensures
            final(self).wf(),
            final(self).sp_coherent(),
            final(self).sp_recomputable(true),
            final(self).sp_recomputable(false),
            old(self).sp_set_lbl_rel(*final(self), *v),
            final(self).sp_out_rows() == old(self).sp_out_rows(),
            final(self).sp_out_cols() == old(self).sp_out_cols(),
            final(self).sp_in_rows() == old(self).sp_in_rows(),
            final(self).sp_in_cols() == old(self).sp_in_cols(),
            final(self).sp_skip_rows() == old(self).sp_skip_rows(),
            final(self).sp_skip_cols() == old(self).sp_skip_cols(),
            old(self).sp_fits_like(*final(self)),
    {
        let mut this = Layer::Value { value: Tensor::zeros(0, 0) };
        core::mem::swap(self, &mut this);
        *self = this.set_lbl_owned(v);
    }

    /// Drops this node's own cache.
    pub fn clean(&mut self)
        requires
            old(self).wf(),
        ensures
            final(self).wf(),
            old(self).sp_same_core(*final(self)),
            final(self).sp_out_rows() == old(self).sp_out_rows(),
            final(self).sp_out_cols() == old(self).sp_out_cols(),
            old(self).sp_coherent() ==> final(self).sp_coherent(),
            !final(self).sp_is_leaf() ==> !final(self).sp_has_out(),
    {
        let mut this = Layer::Value { value: Tensor::zeros(0, 0) };
        core::mem::swap(self, &mut this);
        *self = match this {
            Layer::Value { value } => Layer::Value { value },
            Layer::Param { value, optimizer } => Layer::Param { value, optimizer },
            Layer::Affine { x, w, b, .. } => {
                proof {
                    lemma_same_core_refl(*x);
                    lemma_same_core_refl(*w);
                    lemma_same_core_refl(*b);
                }
                Layer::Affine { x, w, b, cache: None }
            },
            Layer::Relu { x, .. } => {
                proof {
                    lemma_same_core_refl(*x);
                }
                Layer::Relu { x, cache: None }
            },
            Layer::Sigmoid { x, .. } => {
                proof {
                    lemma_same_core_refl(*x);
                }
                Layer::Sigmoid { x, cache: None }
            },
            Layer::BatchNorm { x, w, b, .. } => {
                proof {
                    lemma_same_core_refl(*x);
                    lemma_same_core_refl(*w);
                    lemma_same_core_refl(*b);
                }
                Layer::BatchNorm {
                    x,
                    w,
                    b,
                    cache: None,
                    normalized: None,
                    variance: None,
                    average: None,
                }
            },
            Layer::Dropout { x, rate, training, .. } => {
                proof {
                    lemma_same_core_refl(*x);
                }
                Layer::Dropout { x, rate, cache: None, mask: None, training }
            },
            Layer::Convolution {
                x,
                filter,
                bias,
                channel,
                height,
                width,
                filter_h,
                filter_w,
                stride,
                pad,
                ..
            } => {
                proof {
                    lemma_same_core_refl(*x);
                    lemma_same_core_refl(*filter);
                    lemma_same_core_refl(*bias);
                }
                Layer::Convolution {
                    x,
                    filter,
                    bias,
                    channel,
                    height,
                    width,
                    filter_h,
                    filter_w,
                    stride,
                    pad,
                    cache: None,
                }
            },
            Layer::Pooling { x, channel, height, width, filter_h, filter_w, stride, pad, .. } => {
                proof {
                    lemma_same_core_refl(*x);
                }
                Layer::Pooling {
                    x,
                    channel,
                    height,
                    width,
                    filter_h,
                    filter_w,
                    stride,
                    pad,
                    cache: None,
                }
            },
            Layer::SoftmaxLoss { x, target, .. } => {
                proof {
                    lemma_same_core_refl(*x);
                }
                Layer::SoftmaxLoss { x, target, cache: None, probs: None }
            },
        };
    }

    /// The memoized output of a node that has one.
    fn cached_out(&self) -> (r: &Tensor<S>)
        requires
            self.sp_has_out(),
        ensures
            *r == self.sp_cached_out(),
            self.wf() ==> r.wf(),
    {
        match self {
            Layer::Value { value } => value,
            Layer::Param { value, .. } => value,
            Layer::Affine { cache, .. } => match cache {
                Some(z) => z,
                None => unreached(),
            },
            Layer::Relu { cache, .. } => match cache {
                Some(z) => z,
                None => unreached(),
            },
            Layer::Sigmoid { cache, .. } => match cache {
                Some(z) => z,
                None => unreached(),
            },
            Layer::BatchNorm { cache, .. } => match cache {
                Some(z) => z,
                None => unreached(),
            },
            Layer::Dropout { cache, .. } => match cache {
                Some(z) => z,
                None => unreached(),
            },
            Layer::Convolution { cache, .. } => match cache {
                Some(z) => z,
                None => unreached(),
            },
            Layer::Pooling { cache, .. } => match cache {
                Some(z) => z,
                None => unreached(),
            },
            Layer::SoftmaxLoss { cache, .. } => match cache {
                Some(z) => z,
                None => unreached(),
            },
        }
    }

    /// Pushes the gradient through a graph whose caches were just filled by
    /// a training-mode `forward`, updating every parameter leaf through its
    /// optimizer.
    pub fn backward_fresh_owned(self, dout: &Tensor<S>) -> (post: Layer<S>)
        requires
            self.wf(),
            self.sp_coherent(),
            self.sp_fresh_for(true),
            dout.wf(),
            dout.sp_is_shape(self.sp_out_rows(), self.sp_out_cols()),
        ensures
            post.wf(),
            self.sp_backward_rel(*dout, post),
            post.sp_out_rows() == self.sp_out_rows(),
            post.sp_out_cols() == self.sp_out_cols(),
            post.sp_in_rows() == self.sp_in_rows(),
            post.sp_in_cols() == self.sp_in_cols(),
            post.sp_skip_rows() == self.sp_skip_rows(),
            post.sp_skip_cols() == self.sp_skip_cols(),
            self.sp_fits_like(post),
        decreases self,
    {
        match self {
            Layer::Value { value } => Layer::Value { value },
            Layer::Param { value, optimizer } => {
                let mut opt = optimizer;
                let nv = opt.update(&value, dout);
                Layer::Param { value: nv, optimizer: opt }
            },
            Layer::Affine { x, w, b, cache } => {
                proof {
                    lemma_cached_out_shape(*x);
                }
                let wt = w.cached_out().transpose();
                let dx = dout.matmul(&wt);
                proof {
                    let wc = w.sp_cached_out();
                    assert forall|i: int, j: int|
                        0 <= i < dx.sp_rows() && 0 <= j < dx.sp_cols() implies #[trigger] dx.sp_at(
                        i,
                        j,
                    ) == crate::tensor::sp_dot_entry_rt(&*dout, &wc, i, j) by {
                        crate::tensor::lemma_dot_rt(*dout, wt, wc, i, j);
                    }
                }
                let xt = x.cached_out().transpose();
                let ghost xc = x.sp_cached_out();
                let nx = Box::new((*x).backward_fresh_owned(&dx));
                let dw = xt.matmul(dout);
                proof {
                    assert forall|i: int, j: int|
                        0 <= i < dw.sp_rows() && 0 <= j < dw.sp_cols() implies #[trigger] dw.sp_at(
                        i,
                        j,
                    ) == crate::tensor::sp_dot_entry_lt(&xc, &*dout, i, j) by {
                        crate::tensor::lemma_dot_lt(xt, xc, *dout, i, j);
                    }
                }
                let nw = Box::new((*w).backward_fresh_owned(&dw));
                let db = dout.col_mean();
                let nb = Box::new((*b).backward_fresh_owned(&db));
                (Layer::Affine { x: nx, w: nw, b: nb, cache })
            },
            Layer::Relu { x, cache } => {
                proof {
                    lemma_cached_out_shape(*x);
                }
                let dx = relu_grad(x.cached_out(), dout);
                let nx = Box::new((*x).backward_fresh_owned(&dx));
                Layer::Relu { x: nx, cache }
            },
            Layer::Sigmoid { x, cache } => {
                let y = match &cache {
                    Some(z) => z,
                    None => unreached(),
                };
                let dx = sigmoid_grad(y, dout);
                let nx = Box::new((*x).backward_fresh_owned(&dx));
                Layer::Sigmoid { x: nx, cache }
            },
            Layer::BatchNorm { x, w, b, cache, normalized, variance, average } => {
                proof {
                    lemma_cached_out_shape(*x);
                    lemma_cached_out_shape(*w);
                }
                let norm = match &normalized {
                    Some(n) => n,
                    None => unreached(),
                };
                let var = match &variance {
                    Some(v) => v,
                    None => unreached(),
                };
                let avg = match &average {
                    Some(a) => a,
                    None => unreached(),
                };
                let db = bn_colsum_broadcast(dout);
                let d12b = norm.ew_mul(dout);
                let dw = bn_colsum_broadcast(&d12b);
                proof {
                    assert forall|i: int, j: int|
                        0 <= i < dw.sp_rows() && 0 <= j < dw.sp_cols() implies #[trigger] dw.sp_at(
                        i,
                        j,
                    ) == sp_bn_dw_col(norm, &*dout, j) by {
                        crate::batch_norm::lemma_bn_dw_col_eq(d12b, *norm, *dout, j);
                    }
                }
                let xc = x.cached_out();
                let wc = w.cached_out();
                let d12a = wc.ew_mul(dout);
                let diff = xc.ew_sub(avg);
                let d9b = d12a.ew_mul(&diff);
                let d8row = d9b.col_sum();
                proof {
                    let xcg = x.sp_cached_out();
                    let wcg = w.sp_cached_out();
                    assert forall|j: int| 0 <= j < d8row.sp_cols() implies #[trigger] d8row.sp_at(
                        0,
                        j,
                    ) == crate::batch_norm::sp_bn_d8(&xcg, &wcg, &*dout, avg, j) by {
                        crate::batch_norm::lemma_bn_d8_eq(d9b, xcg, wcg, *dout, *avg, j);
                    }
                }
                let d3a = bn_d3a_map(xc, wc, dout, avg, var, &d8row);
                let d3b = bn_neg_map(&d3a);
                let d2row = d3b.col_sum();
                proof {
                    let xcg = x.sp_cached_out();
                    let wcg = w.sp_cached_out();
                    assert forall|j: int| 0 <= j < d2row.sp_cols() implies #[trigger] d2row.sp_at(
                        0,
                        j,
                    ) == crate::batch_norm::sp_bn_d2(&xcg, &wcg, &*dout, avg, var, j) by {
                        crate::batch_norm::lemma_bn_d2_eq(d3b, xcg, wcg, *dout, *avg, *var, j);
                    }
                }
                let dx = bn_dx_map(&d3a, &d2row);
                proof {
                    reveal(crate::batch_norm::sp_bn_dx);
                }
                let nb2 = Box::new((*b).backward_fresh_owned(&db));
                let nw = Box::new((*w).backward_fresh_owned(&dw));
                let nx = Box::new((*x).backward_fresh_owned(&dx));
                Layer::BatchNorm {
                    x: nx,
                    w: nw,
                    b: nb2,
                    cache,
                    normalized,
                    variance,
                    average,
                }
            },
            Layer::Dropout { x, rate, cache, mask, training } => {
                let m = match &mask {
                    Some(m) => m,
                    None => unreached(),
                };
                let dx = dout.ew_mul(m);
                let nx = Box::new((*x).backward_fresh_owned(&dx));
                Layer::Dropout { x: nx, rate, cache, mask, training }
            },
            Layer::Convolution {
                x,
                filter,
                bias,
                channel,
                height,
                width,
                filter_h,
                filter_w,
                stride,
                pad,
                cache,
            } => {
                proof {
                    lemma_fits_like_refl(*x);
                }
                Layer::Convolution {
                    x,
                    filter,
                    bias,
                    channel,
                    height,
                    width,
                    filter_h,
                    filter_w,
                    stride,
                    pad,
                    cache,
                }
            },
            Layer::Pooling { x, channel, height, width, filter_h, filter_w, stride, pad, cache } => {
                proof {
                    lemma_fits_like_refl(*x);
                }
                Layer::Pooling {
                    x,
                    channel,
                    height,
                    width,
                    filter_h,
                    filter_w,
                    stride,
                    pad,
                    cache,
                }
            },
            Layer::SoftmaxLoss { x, target, cache, probs } => {
                let p = match &probs {
                    Some(p) => p,
                    None => unreached(),
                };
                let dx = softmax_loss_grad(p, &target, dout);
                let nx = Box::new((*x).backward_fresh_owned(&dx));
                Layer::SoftmaxLoss { x: nx, target, cache, probs }
            },
        }
    }

    /// In-place `backward`: re-establishes training-mode freshness by a
    /// `forward` (a no-op on a fresh graph), then pushes the gradient
    /// upstream and updates the parameters.
    pub fn backward<R: Sampler<S>>(&mut self, dout: &Tensor<S>, rng: &mut R)
        requires
            old(self).wf(),
            old(self).sp_coherent(),
            old(self).sp_recomputable(true),
            dout.wf(),
            dout.sp_is_shape(old(self).sp_out_rows(), old(self).sp_out_cols()),
        ensures
            final(self).wf(),
            final(self).sp_out_rows() == old(self).sp_out_rows(),
            final(self).sp_out_cols() == old(self).sp_out_cols(),
            final(self).sp_in_rows() == old(self).sp_in_rows(),
            final(self).sp_in_cols() == old(self).sp_in_cols(),
            final(self).sp_skip_rows() == old(self).sp_skip_rows(),
            final(self).sp_skip_cols() == old(self).sp_skip_cols(),
            old(self).sp_fits_like(*final(self)),
            old(self).sp_fresh_for(true) ==> old(self).sp_backward_rel(*dout, *final(self)),
            exists|mid: Layer<S>|
                #![trigger mid.sp_backward_rel(*dout, *final(self))]
                {
                    &&& old(self).sp_same_core(mid)
                    &&& mid.wf()
                    &&& mid.sp_coherent()
                    &&& mid.sp_fresh_for(true)
                    &&& mid.sp_backward_rel(*dout, *final(self))
                },
    {
        let mut this = Layer::Value { value: Tensor::zeros(0, 0) };
        core::mem::swap(self, &mut this);
        let ghost pre = this;
        let (mid, _y) = this.forward_owned(true, rng);
        let ghost m = mid;
        *self = mid.backward_fresh_owned(dout);
        proof {
            lemma_fits_like_trans(pre, m, *self);
            assert(pre.sp_same_core(m) && m.wf() && m.sp_coherent() && m.sp_fresh_for(true)
                && m.sp_backward_rel(*dout, *self));
        }
    }
}

/// The rectifier's gradient: passes `dout` through where the input was
/// positive, zero elsewhere.
fn relu_grad<S: Scalar>(xc: &Tensor<S>, dout: &Tensor<S>) -> (r: Tensor<S>)
    requires
        xc.wf(),
        dout.wf(),
        dout.sp_same_shape(xc),
    ensures
        r.wf(),
        r.sp_same_shape(dout),
        forall|i: int, j: int|
            0 <= i < r.sp_rows() && 0 <= j < r.sp_cols() ==> #[trigger] r.sp_at(i, j)
                == if S::sp_zero().sp_lt(xc.sp_at(i, j)) {
                dout.sp_at(i, j)
            } else {
                S::sp_zero()
            },
{
    let rows = dout.rows();
    let cols = dout.cols();
    let mut data: Vec<Vec<S>> = Vec::new();
    let mut i: usize = 0;
    while i < rows
        invariant
            xc.wf(),
            dout.wf(),
            dout.sp_same_shape(xc),
            rows == dout.sp_rows(),
            cols == dout.sp_cols(),
            i <= rows,
            data@.len() == i,
            forall|k: int| 0 <= k < i ==> (#[trigger] data@[k])@.len() == cols,
            forall|k: int, j: int|
                0 <= k < i && 0 <= j < cols ==> #[trigger] data@[k]@[j] == if S::sp_zero().sp_lt(
                    xc.sp_at(k, j),
                ) {
                    dout.sp_at(k, j)
                } else {
                    S::sp_zero()
                },
        decreases rows - i,
    {
        let mut row: Vec<S> = Vec::new();
        let mut j: usize = 0;
        while j < cols
            invariant
                xc.wf(),
                dout.wf(),
                dout.sp_same_shape(xc),
                rows == dout.sp_rows(),
                cols == dout.sp_cols(),
                i < rows,
                j <= cols,
                row@.len() == j,
                forall|m: int|
                    0 <= m < j ==> #[trigger] row@[m] == if S::sp_zero().sp_lt(
                        xc.sp_at(i as int, m),
                    ) {
                        dout.sp_at(i as int, m)
                    } else {
                        S::sp_zero()
                    },
            decreases cols - j,
        {
            if S::zero().lt(xc.get(i, j)) {
                row.push(dout.get(i, j));
            } else {
                row.push(S::zero());
            }
            j = j + 1;
        }
        data.push(row);
        i = i + 1;
    }
    match Tensor::new(rows, cols, data) {
        Some(t) => t,
        None => {
            proof {
                assert(false);
            }
            Tensor::zeros(rows, cols)
        },
    }
}

/// The sigmoid's gradient: `dout * (1 - y) * y` on the cached output `y`.
fn sigmoid_grad<S: Scalar>(y: &Tensor<S>, dout: &Tensor<S>) -> (r: Tensor<S>)
    requires
        y.wf(),
        dout.wf(),
        dout.sp_same_shape(y),
    ensures
        r.wf(),
        r.sp_same_shape(dout),
        forall|i: int, j: int|
            0 <= i < r.sp_rows() && 0 <= j < r.sp_cols() ==> #[trigger] r.sp_at(i, j)
                == dout.sp_at(i, j).sp_mul(S::sp_one().sp_sub(y.sp_at(i, j))).sp_mul(
                y.sp_at(i, j),
            ),
{
    let rows = dout.rows();
    let cols = dout.cols();
    let mut data: Vec<Vec<S>> = Vec::new();
    let mut i: usize = 0;
    while i < rows
        invariant
            y.wf(),
            dout.wf(),
            dout.sp_same_shape(y),
            rows == dout.sp_rows(),
            cols == dout.sp_cols(),
            i <= rows,
            data@.len() == i,
            forall|k: int| 0 <= k < i ==> (#[trigger] data@[k])@.len() == cols,
            forall|k: int, j: int|
                0 <= k < i && 0 <= j < cols ==> #[trigger] data@[k]@[j] == dout.sp_at(k, j).sp_mul(
                    S::sp_one().sp_sub(y.sp_at(k, j)),
                ).sp_mul(y.sp_at(k, j)),
        decreases rows - i,
    {
        let mut row: Vec<S> = Vec::new();
        let mut j: usize = 0;
        while j < cols
            invariant
                y.wf(),
                dout.wf(),
                dout.sp_same_shape(y),
                rows == dout.sp_rows(),
                cols == dout.sp_cols(),
                i < rows,
                j <= cols,
                row@.len() == j,
                forall|m: int|
                    0 <= m < j ==> #[trigger] row@[m] == dout.sp_at(i as int, m).sp_mul(
                        S::sp_one().sp_sub(y.sp_at(i as int, m)),
                    ).sp_mul(y.sp_at(i as int, m)),
            decreases cols - j,
        {
            let yv = y.get(i, j);
            row.push(dout.get(i, j).mul(S::one().sub(yv)).mul(yv));
            j = j + 1;
        }
        data.push(row);
        i = i + 1;
    }
    match Tensor::new(rows, cols, data) {
        Some(t) => t,
        None => {
            proof {
                assert(false);
            }
            Tensor::zeros(rows, cols)
        },
    }
}

/// The combined softmax-plus-cross-entropy gradient:
/// `dout * (probabilities - target)`, the seed column broadcast over the
/// class columns.
fn softmax_loss_grad<S: Scalar>(p: &Tensor<S>, target: &Tensor<S>, dout: &Tensor<S>) -> (r: Tensor<
    S,
>)
    requires
        p.wf(),
        target.wf(),
        dout.wf(),
        p.sp_same_shape(target),
        dout.sp_is_shape(p.sp_rows(), 1),
    ensures
        r.wf(),
        r.sp_same_shape(p),
        forall|i: int, j: int|
            0 <= i < r.sp_rows() && 0 <= j < r.sp_cols() ==> #[trigger] r.sp_at(i, j) == dout.sp_at(
                i,
                0,
            ).sp_mul(p.sp_at(i, j).sp_sub(target.sp_at(i, j))),
{
    let rows = p.rows();
    let cols = p.cols();
    let mut data: Vec<Vec<S>> = Vec::new();
    let mut i: usize = 0;
    while i < rows
        invariant
            p.wf(),
            target.wf(),
            dout.wf(),
            p.sp_same_shape(target),
            dout.sp_is_shape(p.sp_rows(), 1),
            rows == p.sp_rows(),
            cols == p.sp_cols(),
            i <= rows,
            data@.len() == i,
            forall|k: int| 0 <= k < i ==> (#[trigger] data@[k])@.len() == cols,
            forall|k: int, j: int|
                0 <= k < i && 0 <= j < cols ==> #[trigger] data@[k]@[j] == dout.sp_at(k, 0).sp_mul(
                    p.sp_at(k, j).sp_sub(target.sp_at(k, j)),
                ),
        decreases rows - i,
    {
        let d = dout.get(i, 0);
        let mut row: Vec<S> = Vec::new();
        let mut j: usize = 0;
        while j < cols
            invariant
                p.wf(),
                target.wf(),
                dout.wf(),
                p.sp_same_shape(target),
                dout.sp_is_shape(p.sp_rows(), 1),
                rows == p.sp_rows(),
                cols == p.sp_cols(),
                i < rows,
                d == dout.sp_at(i as int, 0),
                j <= cols,
                row@.len() == j,
                forall|m: int|
                    0 <= m < j ==> #[trigger] row@[m] == dout.sp_at(i as int, 0).sp_mul(
                        p.sp_at(i as int, m).sp_sub(target.sp_at(i as int, m)),
                    ),
            decreases cols - j,
        {
            row.push(d.mul(p.get(i, j).sub(target.get(i, j))));
            j = j + 1;
        }
        data.push(row);
        i = i + 1;
    }
    match Tensor::new(rows, cols, data) {
        Some(t) => t,
        None => {
            proof {
                assert(false);
            }
            Tensor::zeros(rows, cols)
        },
    }
}

/// A memoized output has the node's output shape.
pub proof fn lemma_cached_out_shape<S: Scalar>(l: Layer<S>)
    requires
        l.wf(),
        l.sp_has_out(),
    ensures
        l.sp_cached_out().wf(),
        l.sp_cached_out().sp_is_shape(l.sp_out_rows(), l.sp_out_cols()),
{
}

/// `sp_same_core` is reflexive.
pub proof fn lemma_same_core_refl<S: Scalar>(l: Layer<S>)
    ensures
        l.sp_same_core(l),
    decreases l,
{
    match l {
        Layer::Affine { x, w, b, .. } => {
            lemma_same_core_refl(*x);
            lemma_same_core_refl(*w);
            lemma_same_core_refl(*b);
        },
        Layer::Relu { x, .. } => lemma_same_core_refl(*x),
        Layer::Sigmoid { x, .. } => lemma_same_core_refl(*x),
        Layer::BatchNorm { x, w, b, .. } => {
            lemma_same_core_refl(*x);
            lemma_same_core_refl(*w);
            lemma_same_core_refl(*b);
        },
        Layer::Dropout { x, .. } => lemma_same_core_refl(*x),
        Layer::Convolution { x, filter, bias, .. } => {
            lemma_same_core_refl(*x);
            lemma_same_core_refl(*filter);
            lemma_same_core_refl(*bias);
        },
        Layer::Pooling { x, .. } => lemma_same_core_refl(*x),
        Layer::SoftmaxLoss { x, .. } => lemma_same_core_refl(*x),
        _ => {},
    }
}

/// A well-formed graph whose spine holds no cache is coherent and can be
/// recomputed in either mode.
pub proof fn lemma_all_clear_ok<S: Scalar>(l: Layer<S>)
    requires
        l.wf(),
        l.sp_all_clear(),
    ensures
        l.sp_coherent(),
        l.sp_recomputable(true),
        l.sp_recomputable(false),
    decreases l,
{
    match l {
        Layer::Affine { x, .. } => lemma_all_clear_ok(*x),
        Layer::Relu { x, .. } => lemma_all_clear_ok(*x),
        Layer::Sigmoid { x, .. } => lemma_all_clear_ok(*x),
        Layer::BatchNorm { x, .. } => lemma_all_clear_ok(*x),
        Layer::Dropout { x, .. } => lemma_all_clear_ok(*x),
        Layer::Convolution { x, .. } => lemma_all_clear_ok(*x),
        Layer::Pooling { x, .. } => lemma_all_clear_ok(*x),
        Layer::SoftmaxLoss { x, .. } => lemma_all_clear_ok(*x),
        _ => {},
    }
}

/// Replacing the input leaves no cache anywhere on the spine, so the next
/// `forward` cannot reuse any previously memoized output: it must recompute
/// from the new input.
pub proof fn lemma_set_value_clears<S: Scalar>(pre: Layer<S>, post: Layer<S>, v: Tensor<S>)
    requires
        pre.sp_set_value_rel(post, v),
    ensures
        post.sp_all_clear(),
    decreases pre,
{
    match (pre, post) {
        (Layer::Affine { x: x1, .. }, Layer::Affine { x: x2, .. }) => {
            lemma_set_value_clears(*x1, *x2, v);
        },
        (Layer::Relu { x: x1, .. }, Layer::Relu { x: x2, .. }) => {
            lemma_set_value_clears(*x1, *x2, v);
        },
        (Layer::Sigmoid { x: x1, .. }, Layer::Sigmoid { x: x2, .. }) => {
            lemma_set_value_clears(*x1, *x2, v);
        },
        (Layer::BatchNorm { x: x1, .. }, Layer::BatchNorm { x: x2, .. }) => {
            lemma_set_value_clears(*x1, *x2, v);
        },
        (Layer::Dropout { x: x1, .. }, Layer::Dropout { x: x2, .. }) => {
            lemma_set_value_clears(*x1, *x2, v);
        },
        (Layer::Convolution { x: x1, .. }, Layer::Convolution { x: x2, .. }) => {
            lemma_set_value_clears(*x1, *x2, v);
        },
        (Layer::Pooling { x: x1, .. }, Layer::Pooling { x: x2, .. }) => {
            lemma_set_value_clears(*x1, *x2, v);
        },
        (Layer::SoftmaxLoss { x: x1, .. }, Layer::SoftmaxLoss { x: x2, .. }) => {
            lemma_set_value_clears(*x1, *x2, v);
        },
        _ => {},
    }
}

/// Two leaves with the same core hold the same tensor.
proof fn lemma_leaf_same_core_eq<S: Scalar>(a: Layer<S>, b: Layer<S>)
    requires
        a.sp_is_leaf(),
        a.sp_same_core(b),
    ensures
        b.sp_is_leaf(),
        a.sp_cached_out() == b.sp_cached_out(),
{
}

/// Two leaves with the same core are the same value.
proof fn lemma_leaf_same_core_full_eq<S: Scalar>(a: Layer<S>, b: Layer<S>)
    requires
        a.sp_is_leaf(),
        a.sp_same_core(b),
    ensures
        a == b,
{
}

/// `sp_same_core_mod_io` is reflexive.
pub proof fn lemma_mod_io_refl<S: Scalar>(l: Layer<S>)
    ensures
        l.sp_same_core_mod_io(l),
    decreases l,
{
    match l {
        Layer::Affine { x, .. } => lemma_mod_io_refl(*x),
        Layer::Relu { x, .. } => lemma_mod_io_refl(*x),
        Layer::Sigmoid { x, .. } => lemma_mod_io_refl(*x),
        Layer::BatchNorm { x, .. } => lemma_mod_io_refl(*x),
        Layer::Dropout { x, .. } => lemma_mod_io_refl(*x),
        Layer::Convolution { x, .. } => lemma_mod_io_refl(*x),
        Layer::Pooling { x, .. } => lemma_mod_io_refl(*x),
        Layer::SoftmaxLoss { x, .. } => lemma_mod_io_refl(*x),
        _ => {},
    }
}

/// `sp_same_core_mod_io` is transitive.
pub proof fn lemma_mod_io_trans<S: Scalar>(a: Layer<S>, b: Layer<S>, c: Layer<S>)
    requires
        a.sp_same_core_mod_io(b),
        b.sp_same_core_mod_io(c),
    ensures
        a.sp_same_core_mod_io(c),
    decreases a,
{
    match (a, b, c) {
        (
            Layer::Affine { x: x1, .. },
            Layer::Affine { x: x2, .. },
            Layer::Affine { x: x3, .. },
        ) => lemma_mod_io_trans(*x1, *x2, *x3),
        (
            Layer::Relu { x: x1, .. },
            Layer::Relu { x: x2, .. },
            Layer::Relu { x: x3, .. },
        ) => lemma_mod_io_trans(*x1, *x2, *x3),
        (
            Layer::Sigmoid { x: x1, .. },
            Layer::Sigmoid { x: x2, .. },
            Layer::Sigmoid { x: x3, .. },
        ) => lemma_mod_io_trans(*x1, *x2, *x3),
        (
            Layer::BatchNorm { x: x1, .. },
            Layer::BatchNorm { x: x2, .. },
            Layer::BatchNorm { x: x3, .. },
        ) => lemma_mod_io_trans(*x1, *x2, *x3),
        (
            Layer::Dropout { x: x1, .. },
            Layer::Dropout { x: x2, .. },
            Layer::Dropout { x: x3, .. },
        ) => lemma_mod_io_trans(*x1, *x2, *x3),
        (
            Layer::Convolution { x: x1, .. },
            Layer::Convolution { x: x2, .. },
            Layer::Convolution { x: x3, .. },
        ) => lemma_mod_io_trans(*x1, *x2, *x3),
        (
            Layer::Pooling { x: x1, .. },
            Layer::Pooling { x: x2, .. },
            Layer::Pooling { x: x3, .. },
        ) => lemma_mod_io_trans(*x1, *x2, *x3),
        (
            Layer::SoftmaxLoss { x: x1, .. },
            Layer::SoftmaxLoss { x: x2, .. },
            Layer::SoftmaxLoss { x: x3, .. },
        ) => lemma_mod_io_trans(*x1, *x2, *x3),
        _ => {},
    }
}

/// Graphs with the same core in particular share their trainable state.
pub proof fn lemma_same_core_mod_io<S: Scalar>(a: Layer<S>, b: Layer<S>)
    requires
        a.wf(),
        a.sp_same_core(b),
    ensures
        a.sp_same_core_mod_io(b),
    decreases a,
{
    match (a, b) {
        (
            Layer::Affine { x: x1, w: w1, b: b1, .. },
            Layer::Affine { x: x2, w: w2, b: b2, .. },
        ) => {
            lemma_same_core_mod_io(*x1, *x2);
            lemma_leaf_same_core_full_eq(*w1, *w2);
            lemma_leaf_same_core_full_eq(*b1, *b2);
        },
        (Layer::Relu { x: x1, .. }, Layer::Relu { x: x2, .. }) => {
            lemma_same_core_mod_io(*x1, *x2);
        },
        (Layer::Sigmoid { x: x1, .. }, Layer::Sigmoid { x: x2, .. }) => {
            lemma_same_core_mod_io(*x1, *x2);
        },
        (
            Layer::BatchNorm { x: x1, w: w1, b: b1, .. },
            Layer::BatchNorm { x: x2, w: w2, b: b2, .. },
        ) => {
            lemma_same_core_mod_io(*x1, *x2);
            lemma_leaf_same_core_full_eq(*w1, *w2);
            lemma_leaf_same_core_full_eq(*b1, *b2);
        },
        (Layer::Dropout { x: x1, .. }, Layer::Dropout { x: x2, .. }) => {
            lemma_same_core_mod_io(*x1, *x2);
        },
        (
            Layer::Convolution { x: x1, filter: f1, bias: b1, .. },
            Layer::Convolution { x: x2, filter: f2, bias: b2, .. },
        ) => {
            lemma_same_core_mod_io(*x1, *x2);
            lemma_leaf_same_core_full_eq(*f1, *f2);
            lemma_leaf_same_core_full_eq(*b1, *b2);
        },
        (Layer::Pooling { x: x1, .. }, Layer::Pooling { x: x2, .. }) => {
            lemma_same_core_mod_io(*x1, *x2);
        },
        (Layer::SoftmaxLoss { x: x1, .. }, Layer::SoftmaxLoss { x: x2, .. }) => {
            lemma_same_core_mod_io(*x1, *x2);
        },
        _ => {},
    }
}

/// Replacing the input touches no trainable state.
pub proof fn lemma_set_value_rel_mod_io<S: Scalar>(pre: Layer<S>, post: Layer<S>, v: Tensor<S>)
    requires
        pre.sp_set_value_rel(post, v),
    ensures
        pre.sp_same_core_mod_io(post),
    decreases pre,
{
    match (pre, post) {
        (Layer::Affine { x: x1, .. }, Layer::Affine { x: x2, .. }) => {
            lemma_set_value_rel_mod_io(*x1, *x2, v);
        },
        (Layer::Relu { x: x1, .. }, Layer::Relu { x: x2, .. }) => {
            lemma_set_value_rel_mod_io(*x1, *x2, v);
        },
        (Layer::Sigmoid { x: x1, .. }, Layer::Sigmoid { x: x2, .. }) => {
            lemma_set_value_rel_mod_io(*x1, *x2, v);
        },
        (Layer::BatchNorm { x: x1, .. }, Layer::BatchNorm { x: x2, .. }) => {
            lemma_set_value_rel_mod_io(*x1, *x2, v);
        },
        (Layer::Dropout { x: x1, .. }, Layer::Dropout { x: x2, .. }) => {
            lemma_set_value_rel_mod_io(*x1, *x2, v);
        },
        (Layer::Convolution { x: x1, .. }, Layer::Convolution { x: x2, .. }) => {
            lemma_set_value_rel_mod_io(*x1, *x2, v);
        },
        (Layer::Pooling { x: x1, .. }, Layer::Pooling { x: x2, .. }) => {
            lemma_set_value_rel_mod_io(*x1, *x2, v);
        },
        (Layer::SoftmaxLoss { x: x1, .. }, Layer::SoftmaxLoss { x: x2, .. }) => {
            lemma_set_value_rel_mod_io(*x1, *x2, v);
        },
        _ => {},
    }
}

/// Replacing the target touches no trainable state.
pub proof fn lemma_set_lbl_rel_mod_io<S: Scalar>(pre: Layer<S>, post: Layer<S>, v: Tensor<S>)
    requires
        pre.wf(),
        pre.sp_set_lbl_rel(post, v),
    ensures
        pre.sp_same_core_mod_io(post),
    decreases pre,
{
    match (pre, post) {
        (Layer::Affine { x: x1, .. }, Layer::Affine { x: x2, .. }) => {
            lemma_set_lbl_rel_mod_io(*x1, *x2, v);
        },
        (Layer::Relu { x: x1, .. }, Layer::Relu { x: x2, .. }) => {
            lemma_set_lbl_rel_mod_io(*x1, *x2, v);
        },
        (Layer::Sigmoid { x: x1, .. }, Layer::Sigmoid { x: x2, .. }) => {
            lemma_set_lbl_rel_mod_io(*x1, *x2, v);
        },
        (Layer::BatchNorm { x: x1, .. }, Layer::BatchNorm { x: x2, .. }) => {
            lemma_set_lbl_rel_mod_io(*x1, *x2, v);
        },
        (Layer::Dropout { x: x1, .. }, Layer::Dropout { x: x2, .. }) => {
            lemma_set_lbl_rel_mod_io(*x1, *x2, v);
        },
        (Layer::Convolution { x: x1, .. }, Layer::Convolution { x: x2, .. }) => {
            lemma_set_lbl_rel_mod_io(*x1, *x2, v);
        },
        (Layer::Pooling { x: x1, .. }, Layer::Pooling { x: x2, .. }) => {
            lemma_set_lbl_rel_mod_io(*x1, *x2, v);
        },
        (
            Layer::SoftmaxLoss { x: x1, .. },
            Layer::SoftmaxLoss { x: x2, .. },
        ) => {
            lemma_same_core_mod_io(*x1, *x2);
        },
        _ => {},
    }
}

/// Dimensions only depend on the core.
pub proof fn lemma_same_core_dims<S: Scalar>(a: Layer<S>, b: Layer<S>)
    requires
        a.sp_same_core(b),
    ensures
        a.sp_out_rows() == b.sp_out_rows(),
        a.sp_out_cols() == b.sp_out_cols(),
        a.sp_in_rows() == b.sp_in_rows(),
        a.sp_in_cols() == b.sp_in_cols(),
    decreases a,
{
    match (a, b) {
        (Layer::Affine { x: x1, w: w1, b: b1, .. }, Layer::Affine { x: x2, w: w2, b: b2, .. }) => {
            lemma_same_core_dims(*x1, *x2);
            lemma_same_core_dims(*w1, *w2);
            lemma_same_core_dims(*b1, *b2);
        },
        (Layer::Relu { x: x1, .. }, Layer::Relu { x: x2, .. }) => {
            lemma_same_core_dims(*x1, *x2);
        },
        (Layer::Sigmoid { x: x1, .. }, Layer::Sigmoid { x: x2, .. }) => {
            lemma_same_core_dims(*x1, *x2);
        },
        (Layer::BatchNorm { x: x1, .. }, Layer::BatchNorm { x: x2, .. }) => {
            lemma_same_core_dims(*x1, *x2);
        },
        (Layer::Dropout { x: x1, .. }, Layer::Dropout { x: x2, .. }) => {
            lemma_same_core_dims(*x1, *x2);
        },
        (
            Layer::Convolution { x: x1, filter: f1, .. },
            Layer::Convolution { x: x2, filter: f2, .. },
        ) => {
            lemma_same_core_dims(*x1, *x2);
            lemma_same_core_dims(*f1, *f2);
        },
        (Layer::Pooling { x: x1, .. }, Layer::Pooling { x: x2, .. }) => {
            lemma_same_core_dims(*x1, *x2);
        },
        (Layer::SoftmaxLoss { x: x1, .. }, Layer::SoftmaxLoss { x: x2, .. }) => {
            lemma_same_core_dims(*x1, *x2);
        },
        _ => {},
    }
}

/// Inference is deterministic: two coherent graphs with the same structure,
/// leaf values, parameters, targets and rates that are both fresh for
/// inference hold entrywise identical memoized outputs.  Together with
/// `forward`'s contract this says that repeated inference passes over the
/// same input return identical results, with no randomness involved.
pub proof fn lemma_infer_deterministic<S: Scalar>(a: Layer<S>, b: Layer<S>)
    requires
        a.wf(),
        b.wf(),
        a.sp_coherent(),
        b.sp_coherent(),
        a.sp_fresh_for(false),
        b.sp_fresh_for(false),
        a.sp_same_core(b),
    ensures
        sp_t_eq(a.sp_cached_out(), b.sp_cached_out()),
    decreases a,
{
    lemma_same_core_dims(a, b);
    match (a, b) {
        (
            Layer::Affine { x: x1, w: w1, b: b1, cache: c1 },
            Layer::Affine { x: x2, w: w2, b: b2, cache: c2 },
        ) => {
            lemma_infer_deterministic(*x1, *x2);
            lemma_same_core_dims(*x1, *x2);
            lemma_cached_out_shape(*x1);
            lemma_cached_out_shape(*x2);
            lemma_leaf_same_core_eq(*w1, *w2);
            lemma_leaf_same_core_eq(*b1, *b2);
            let z1 = c1->Some_0;
            let z2 = c2->Some_0;
            let xc1 = x1.sp_cached_out();
            let xc2 = x2.sp_cached_out();
            let wc = w1.sp_cached_out();
            assert forall|i: int, j: int|
                0 <= i < z1.sp_rows() && 0 <= j < z1.sp_cols() implies #[trigger] z1.sp_at(i, j)
                == z2.sp_at(i, j) by {
                crate::tensor::lemma_dot_entry_congr(xc1, xc2, wc, wc, i, j);
            }
        },
        (Layer::Relu { x: x1, cache: c1 }, Layer::Relu { x: x2, cache: c2 }) => {
            lemma_infer_deterministic(*x1, *x2);
            lemma_cached_out_shape(*x1);
            lemma_cached_out_shape(*x2);
        },
        (Layer::Sigmoid { x: x1, cache: c1 }, Layer::Sigmoid { x: x2, cache: c2 }) => {
            lemma_infer_deterministic(*x1, *x2);
            lemma_cached_out_shape(*x1);
            lemma_cached_out_shape(*x2);
        },
        (
            Layer::BatchNorm { x: x1, w: w1, b: b1, cache: c1, .. },
            Layer::BatchNorm { x: x2, w: w2, b: b2, cache: c2, .. },
        ) => {
            lemma_infer_deterministic(*x1, *x2);
            lemma_same_core_dims(*x1, *x2);
            lemma_cached_out_shape(*x1);
            lemma_cached_out_shape(*x2);
            lemma_leaf_same_core_eq(*w1, *w2);
            lemma_leaf_same_core_eq(*b1, *b2);
            let xc1 = x1.sp_cached_out();
            let xc2 = x2.sp_cached_out();
            assert forall|j: int| 0 <= j < xc1.sp_cols() implies sp_col_mean(&xc1, j)
                == sp_col_mean(&xc2, j) && sp_col_var(&xc1, j) == sp_col_var(&xc2, j) by {
                crate::batch_norm::lemma_col_stats_congr(&xc1, &xc2, j);
            }
        },
        (
            Layer::Dropout { x: x1, cache: c1, .. },
            Layer::Dropout { x: x2, cache: c2, .. },
        ) => {
            lemma_infer_deterministic(*x1, *x2);
            lemma_cached_out_shape(*x1);
            lemma_cached_out_shape(*x2);
        },
        (
            Layer::Convolution {
                x: x1,
                filter: f1,
                bias: bi1,
                channel,
                height,
                width,
                filter_h,
                filter_w,
                stride,
                pad,
                cache: c1,
            },
            Layer::Convolution { x: x2, filter: f2, bias: bi2, cache: c2, .. },
        ) => {
            lemma_infer_deterministic(*x1, *x2);
            lemma_same_core_dims(*x1, *x2);
            lemma_same_core_dims(*f1, *f2);
            lemma_cached_out_shape(*x1);
            lemma_cached_out_shape(*x2);
            lemma_leaf_same_core_eq(*f1, *f2);
            lemma_leaf_same_core_eq(*bi1, *bi2);
            let xc1 = x1.sp_cached_out();
            let xc2 = x2.sp_cached_out();
            let fc = f1.sp_cached_out();
            let bc = bi1.sp_cached_out();
            let t4a = choose|t4: Tensor4<S>|
                {
                    &&& #[trigger] t4.wf()
                    &&& t4.sp_is_shape4(xc1.sp_rows(), channel as int, height as int, width as int)
                    &&& forall|b: int, c: int, y: int, xx: int|
                        0 <= b < t4.sp_b() && 0 <= c < channel && 0 <= y < height && 0 <= xx
                            < width ==> #[trigger] t4.sp_at4(b, c, y, xx) == xc1.sp_at(
                            b,
                            (c * height + y) * width + xx,
                        )
                    &&& forall|i: int, j: int|
                        0 <= i < c1->Some_0.sp_rows() && 0 <= j < c1->Some_0.sp_cols()
                            ==> #[trigger] c1->Some_0.sp_at(i, j) == sp_conv_entry(
                            &t4,
                            &fc,
                            &bc,
                            filter_h as int,
                            filter_w as int,
                            stride as int,
                            pad as int,
                            i,
                            j,
                        )
                };
            let t4b = choose|t4: Tensor4<S>|
                {
                    &&& #[trigger] t4.wf()
                    &&& t4.sp_is_shape4(xc2.sp_rows(), channel as int, height as int, width as int)
                    &&& forall|b: int, c: int, y: int, xx: int|
                        0 <= b < t4.sp_b() && 0 <= c < channel && 0 <= y < height && 0 <= xx
                            < width ==> #[trigger] t4.sp_at4(b, c, y, xx) == xc2.sp_at(
                            b,
                            (c * height + y) * width + xx,
                        )
                    &&& forall|i: int, j: int|
                        0 <= i < c2->Some_0.sp_rows() && 0 <= j < c2->Some_0.sp_cols()
                            ==> #[trigger] c2->Some_0.sp_at(i, j) == sp_conv_entry(
                            &t4,
                            &f2.sp_cached_out(),
                            &bi2.sp_cached_out(),
                            filter_h as int,
                            filter_w as int,
                            stride as int,
                            pad as int,
                            i,
                            j,
                        )
                };
            assert forall|b: int, c: int, y: int, xx: int|
                0 <= b < t4a.sp_b() && 0 <= c < channel && 0 <= y < height && 0 <= xx
                    < width implies #[trigger] t4a.sp_at4(b, c, y, xx) == t4b.sp_at4(b, c, y, xx) by {
                crate::convolution::lemma_flat_bound(
                    c,
                    y,
                    xx,
                    channel as int,
                    height as int,
                    width as int,
                );
            }
            let z1 = c1->Some_0;
            let z2 = c2->Some_0;
            assert forall|i: int, j: int|
                0 <= i < z1.sp_rows() && 0 <= j < z1.sp_cols() implies #[trigger] z1.sp_at(i, j)
                == z2.sp_at(i, j) by {
                crate::convolution::lemma_conv_entry_congr(
                    &t4a,
                    &t4b,
                    &fc,
                    &fc,
                    &bc,
                    &bc,
                    filter_h as int,
                    filter_w as int,
                    stride as int,
                    pad as int,
                    i,
                    j,
                );
            }
        },
        (
            Layer::Pooling {
                x: x1,
                channel,
                height,
                width,
                filter_h,
                filter_w,
                stride,
                pad,
                cache: c1,
            },
            Layer::Pooling { x: x2, cache: c2, .. },
        ) => {
            lemma_infer_deterministic(*x1, *x2);
            lemma_same_core_dims(*x1, *x2);
            lemma_cached_out_shape(*x1);
            lemma_cached_out_shape(*x2);
            let xc1 = x1.sp_cached_out();
            let xc2 = x2.sp_cached_out();
            let t4a = choose|t4: Tensor4<S>|
                {
                    &&& #[trigger] t4.wf()
                    &&& t4.sp_is_shape4(xc1.sp_rows(), channel as int, height as int, width as int)
                    &&& forall|b: int, c: int, y: int, xx: int|
                        0 <= b < t4.sp_b() && 0 <= c < channel && 0 <= y < height && 0 <= xx
                            < width ==> #[trigger] t4.sp_at4(b, c, y, xx) == xc1.sp_at(
                            b,
                            (c * height + y) * width + xx,
                        )
                    &&& forall|i: int, j: int|
                        0 <= i < c1->Some_0.sp_rows() && 0 <= j < c1->Some_0.sp_cols()
                            ==> #[trigger] c1->Some_0.sp_at(i, j) == sp_pool_entry(
                            &t4,
                            filter_h as int,
                            filter_w as int,
                            stride as int,
                            pad as int,
                            i,
                            j,
                        )
                };
            let t4b = choose|t4: Tensor4<S>|
                {
                    &&& #[trigger] t4.wf()
                    &&& t4.sp_is_shape4(xc2.sp_rows(), channel as int, height as int, width as int)
                    &&& forall|b: int, c: int, y: int, xx: int|
                        0 <= b < t4.sp_b() && 0 <= c < channel && 0 <= y < height && 0 <= xx
                            < width ==> #[trigger] t4.sp_at4(b, c, y, xx) == xc2.sp_at(
                            b,
                            (c * height + y) * width + xx,
                        )
                    &&& forall|i: int, j: int|
                        0 <= i < c2->Some_0.sp_rows() && 0 <= j < c2->Some_0.sp_cols()
                            ==> #[trigger] c2->Some_0.sp_at(i, j) == sp_pool_entry(
                            &t4,
                            filter_h as int,
                            filter_w as int,
                            stride as int,
                            pad as int,
                            i,
                            j,
                        )
                };
            assert forall|b: int, c: int, y: int, xx: int|
                0 <= b < t4a.sp_b() && 0 <= c < channel && 0 <= y < height && 0 <= xx
                    < width implies #[trigger] t4a.sp_at4(b, c, y, xx) == t4b.sp_at4(b, c, y, xx) by {
                crate::convolution::lemma_flat_bound(
                    c,
                    y,
                    xx,
                    channel as int,
                    height as int,
                    width as int,
                );
            }
            let z1 = c1->Some_0;
            let z2 = c2->Some_0;
            assert forall|i: int, j: int|
                0 <= i < z1.sp_rows() && 0 <= j < z1.sp_cols() implies #[trigger] z1.sp_at(i, j)
                == z2.sp_at(i, j) by {
                crate::convolution::lemma_pool_entry_congr(
                    &t4a,
                    &t4b,
                    filter_h as int,
                    filter_w as int,
                    stride as int,
                    pad as int,
                    i,
                    j,
                );
            }
        },
        (
            Layer::SoftmaxLoss { x: x1, target: t1, cache: c1, probs: p1 },
            Layer::SoftmaxLoss { x: x2, target: t2, cache: c2, probs: p2 },
        ) => {
            lemma_infer_deterministic(*x1, *x2);
            lemma_same_core_dims(*x1, *x2);
            lemma_cached_out_shape(*x1);
            lemma_cached_out_shape(*x2);
            let xc1 = x1.sp_cached_out();
            let xc2 = x2.sp_cached_out();
            let pa = p1->Some_0;
            let pb = p2->Some_0;
            assert forall|i: int, j: int|
                0 <= i < pa.sp_rows() && 0 <= j < pa.sp_cols() implies #[trigger] pa.sp_at(i, j)
                == pb.sp_at(i, j) by {
                assert(xc1.sp_row(i) =~= xc2.sp_row(i));
            }
            let za = c1->Some_0;
            let zb = c2->Some_0;
            assert forall|i: int| 0 <= i < za.sp_rows() implies #[trigger] za.sp_at(i, 0)
                == zb.sp_at(i, 0) by {
                crate::activation_functions::lemma_argmax_in_range(t1.sp_row(i));
            }
            assert forall|i: int, j: int|
                0 <= i < za.sp_rows() && 0 <= j < za.sp_cols() implies #[trigger] za.sp_at(i, j)
                == zb.sp_at(i, j) by {
                assert(j == 0);
            }
        },
        _ => {},
    }
}

/// Every node kind keeps the batch axis: a graph's output has as many rows
/// as the input leaf at the bottom of its spine.
pub proof fn lemma_rows_preserved<S: Scalar>(l: Layer<S>)
    requires
        l.wf(),
    ensures
        l.sp_out_rows() == l.sp_in_rows(),
        l.sp_skip_rows() == l.sp_in_rows(),
    decreases l,
{
    match l {
        Layer::Affine { x, .. } => lemma_rows_preserved(*x),
        Layer::Relu { x, .. } => lemma_rows_preserved(*x),
        Layer::Sigmoid { x, .. } => lemma_rows_preserved(*x),
        Layer::BatchNorm { x, .. } => lemma_rows_preserved(*x),
        Layer::Dropout { x, .. } => lemma_rows_preserved(*x),
        Layer::Convolution { x, .. } => lemma_rows_preserved(*x),
        Layer::Pooling { x, .. } => lemma_rows_preserved(*x),
        Layer::SoftmaxLoss { x, .. } => lemma_rows_preserved(*x),
        _ => {},
    }
}

/// `sp_fits_like` is reflexive.
pub proof fn lemma_fits_like_refl<S: Scalar>(l: Layer<S>)
    ensures
        l.sp_fits_like(l),
    decreases l,
{
    match l {
        Layer::Affine { x, .. } => lemma_fits_like_refl(*x),
        Layer::Relu { x, .. } => lemma_fits_like_refl(*x),
        Layer::Sigmoid { x, .. } => lemma_fits_like_refl(*x),
        Layer::BatchNorm { x, .. } => lemma_fits_like_refl(*x),
        Layer::Dropout { x, .. } => lemma_fits_like_refl(*x),
        Layer::Convolution { x, .. } => lemma_fits_like_refl(*x),
        Layer::Pooling { x, .. } => lemma_fits_like_refl(*x),
        _ => {},
    }
}

/// Two graphs that fit alike accept exactly the same target shapes.
pub proof fn lemma_fits_like_fits<S: Scalar>(a: Layer<S>, b: Layer<S>, r: int, c: int)
    requires
        a.sp_fits_like(b),
    ensures
        a.sp_lbl_fits(r, c) == b.sp_lbl_fits(r, c),
    decreases a,
{
    match (a, b) {
        (Layer::Affine { x: x1, .. }, Layer::Affine { x: x2, .. }) => {
            lemma_fits_like_fits(*x1, *x2, r, c);
        },
        (Layer::Relu { x: x1, .. }, Layer::Relu { x: x2, .. }) => {
            lemma_fits_like_fits(*x1, *x2, r, c);
        },
        (Layer::Sigmoid { x: x1, .. }, Layer::Sigmoid { x: x2, .. }) => {
            lemma_fits_like_fits(*x1, *x2, r, c);
        },
        (Layer::BatchNorm { x: x1, .. }, Layer::BatchNorm { x: x2, .. }) => {
            lemma_fits_like_fits(*x1, *x2, r, c);
        },
        (Layer::Dropout { x: x1, .. }, Layer::Dropout { x: x2, .. }) => {
            lemma_fits_like_fits(*x1, *x2, r, c);
        },
        (Layer::Convolution { x: x1, .. }, Layer::Convolution { x: x2, .. }) => {
            lemma_fits_like_fits(*x1, *x2, r, c);
        },
        (Layer::Pooling { x: x1, .. }, Layer::Pooling { x: x2, .. }) => {
            lemma_fits_like_fits(*x1, *x2, r, c);
        },
        _ => {},
    }
}

/// `sp_fits_like` is transitive.
pub proof fn lemma_fits_like_trans<S: Scalar>(a: Layer<S>, b: Layer<S>, c: Layer<S>)
    requires
        a.sp_fits_like(b),
        b.sp_fits_like(c),
    ensures
        a.sp_fits_like(c),
    decreases a,
{
    match (a, b, c) {
        (
            Layer::Affine { x: x1, .. },
            Layer::Affine { x: x2, .. },
            Layer::Affine { x: x3, .. },
        ) => lemma_fits_like_trans(*x1, *x2, *x3),
        (Layer::Relu { x: x1, .. }, Layer::Relu { x: x2, .. }, Layer::Relu { x: x3, .. }) => {
            lemma_fits_like_trans(*x1, *x2, *x3);
        },
        (
            Layer::Sigmoid { x: x1, .. },
            Layer::Sigmoid { x: x2, .. },
            Layer::Sigmoid { x: x3, .. },
        ) => lemma_fits_like_trans(*x1, *x2, *x3),
        (
            Layer::BatchNorm { x: x1, .. },
            Layer::BatchNorm { x: x2, .. },
            Layer::BatchNorm { x: x3, .. },
        ) => lemma_fits_like_trans(*x1, *x2, *x3),
        (
            Layer::Dropout { x: x1, .. },
            Layer::Dropout { x: x2, .. },
            Layer::Dropout { x: x3, .. },
        ) => lemma_fits_like_trans(*x1, *x2, *x3),
        (
            Layer::Convolution { x: x1, .. },
            Layer::Convolution { x: x2, .. },
            Layer::Convolution { x: x3, .. },
        ) => lemma_fits_like_trans(*x1, *x2, *x3),
        (
            Layer::Pooling { x: x1, .. },
            Layer::Pooling { x: x2, .. },
            Layer::Pooling { x: x3, .. },
        ) => lemma_fits_like_trans(*x1, *x2, *x3),
        _ => {},
    }
}

/// A fresh graph is in particular fresh for the skip-loss reading.
pub proof fn lemma_fresh_skip_fresh<S: Scalar>(l: Layer<S>, training: bool)
    requires
        l.sp_fresh_for(training),
    ensures
        l.sp_skip_fresh_for(training),
{
}

/// A graph fresh for a mode needs no recomputation in that mode.
pub proof fn lemma_fresh_implies_recomputable<S: Scalar>(l: Layer<S>, training: bool)
    requires
        l.sp_fresh_for(training),
    ensures
        l.sp_recomputable(training),
    decreases l,
{
    match l {
        Layer::Affine { x, .. } => lemma_fresh_implies_recomputable(*x, training),
        Layer::Relu { x, .. } => lemma_fresh_implies_recomputable(*x, training),
        Layer::Sigmoid { x, .. } => lemma_fresh_implies_recomputable(*x, training),
        Layer::BatchNorm { x, .. } => lemma_fresh_implies_recomputable(*x, training),
        Layer::Dropout { x, .. } => lemma_fresh_implies_recomputable(*x, training),
        Layer::Convolution { x, .. } => lemma_fresh_implies_recomputable(*x, training),
        Layer::Pooling { x, .. } => lemma_fresh_implies_recomputable(*x, training),
        Layer::SoftmaxLoss { x, .. } => lemma_fresh_implies_recomputable(*x, training),
        _ => {},
    }
}

/// A tensor of freshly drawn samples.
pub fn sample_tensor<S: Scalar, R: Sampler<S>>(rows: usize, cols: usize, rng: &mut R) -> (t:
    Tensor<S>)
    ensures
        t.wf(),
        t.sp_is_shape(rows as int, cols as int),
{
    let mut data: Vec<Vec<S>> = Vec::new();
    let mut i: usize = 0;
    while i < rows
        invariant
            i <= rows,
            data@.len() == i,
            forall|k: int| 0 <= k < i ==> (#[trigger] data@[k])@.len() == cols,
        decreases rows - i,
    {
        let mut row: Vec<S> = Vec::new();
        let mut j: usize = 0;
        while j < cols
            invariant
                j <= cols,
                row@.len() == j,
            decreases cols - j,
        {
            row.push(rng.sample());
            j = j + 1;
        }
        data.push(row);
        i = i + 1;
    }
    match Tensor::new(rows, cols, data) {
        Some(t) => t,
        None => {
            proof {
                assert(false);
            }
            Tensor::zeros(rows, cols)
        },
    }
}

/// Every column's sum, spread over a full-shape tensor.
fn bn_colsum_broadcast<S: Scalar>(t: &Tensor<S>) -> (r: Tensor<S>)
    requires
        t.wf(),
    ensures
        r.wf(),
        r.sp_same_shape(t),
        forall|i: int, j: int|
            0 <= i < t.sp_rows() && 0 <= j < t.sp_cols() ==> #[trigger] r.sp_at(i, j)
                == sp_col_sum(t, j),
{
    let cs = t.col_sum();
    let rows = t.rows();
    let cols = t.cols();
    let mut data: Vec<Vec<S>> = Vec::new();
    let mut i: usize = 0;
    while i < rows
        invariant
            t.wf(),
            cs.wf(),
            cs.sp_is_shape(1, t.sp_cols()),
            forall|m: int| 0 <= m < t.sp_cols() ==> #[trigger] cs.sp_at(0, m) == sp_col_sum(t, m),
            rows == t.sp_rows(),
            cols == t.sp_cols(),
            i <= rows,
            data@.len() == i,
            forall|k: int| 0 <= k < i ==> (#[trigger] data@[k])@.len() == cols,
            forall|k: int, j: int|
                0 <= k < i && 0 <= j < cols ==> #[trigger] data@[k]@[j] == sp_col_sum(t, j),
        decreases rows - i,
    {
        let row = cs.row_vec(0);
        proof {
            assert(forall|m: int| 0 <= m < cols ==> #[trigger] row@[m] == cs.sp_at(0, m));
        }
        data.push(row);
        i = i + 1;
    }
    match Tensor::new(rows, cols, data) {
        Some(r) => r,
        None => {
            proof {
                assert(false);
            }
            Tensor::zeros(rows, cols)
        },
    }
}

/// Normalizes every entry against its column's broadcast statistics.
fn bn_normalize_map<S: Scalar>(xv: &Tensor<S>, avg: &Tensor<S>, var: &Tensor<S>) -> (r: Tensor<S>)
    requires
        xv.wf(),
        avg.wf(),
        var.wf(),
        avg.sp_same_shape(xv),
        var.sp_same_shape(xv),
    ensures
        r.wf(),
        r.sp_same_shape(xv),
        forall|i: int, j: int|
            0 <= i < xv.sp_rows() && 0 <= j < xv.sp_cols() ==> #[trigger] r.sp_at(i, j)
                == sp_bn_normalized(xv.sp_at(i, j), avg.sp_at(i, j), var.sp_at(i, j)),
{
    let eps: S = crate::optimizer::epsilon::<S>();
    let rows = xv.rows();
    let cols = xv.cols();
    let mut data: Vec<Vec<S>> = Vec::new();
    let mut i: usize = 0;
    while i < rows
        invariant
            xv.wf(),
            avg.wf(),
            var.wf(),
            avg.sp_same_shape(xv),
            var.sp_same_shape(xv),
            eps == crate::optimizer::sp_epsilon::<S>(),
            rows == xv.sp_rows(),
            cols == xv.sp_cols(),
            i <= rows,
            data@.len() == i,
            forall|k: int| 0 <= k < i ==> (#[trigger] data@[k])@.len() == cols,
            forall|k: int, j: int|
                0 <= k < i && 0 <= j < cols ==> #[trigger] data@[k]@[j] == sp_bn_normalized(
                    xv.sp_at(k, j),
                    avg.sp_at(k, j),
                    var.sp_at(k, j),
                ),
        decreases rows - i,
    {
        let mut row: Vec<S> = Vec::new();
        let mut j: usize = 0;
        while j < cols
            invariant
                xv.wf(),
                avg.wf(),
                var.wf(),
                avg.sp_same_shape(xv),
                var.sp_same_shape(xv),
                eps == crate::optimizer::sp_epsilon::<S>(),
                rows == xv.sp_rows(),
                cols == xv.sp_cols(),
                i < rows,
                j <= cols,
                row@.len() == j,
                forall|m: int|
                    0 <= m < j ==> #[trigger] row@[m] == sp_bn_normalized(
                        xv.sp_at(i as int, m),
                        avg.sp_at(i as int, m),
                        var.sp_at(i as int, m),
                    ),
            decreases cols - j,
        {
            row.push(xv.get(i, j).sub(avg.get(i, j)).div(var.get(i, j).add(eps).sqrt()));
            j = j + 1;
        }
        data.push(row);
        i = i + 1;
    }
    match Tensor::new(rows, cols, data) {
        Some(r) => r,
        None => {
            proof {
                assert(false);
            }
            Tensor::zeros(rows, cols)
        },
    }
}

/// The direct branch of the batch-normalization input gradient.
fn bn_d3a_map<S: Scalar>(
    xc: &Tensor<S>,
    wc: &Tensor<S>,
    dout: &Tensor<S>,
    avg: &Tensor<S>,
    var: &Tensor<S>,
    d8row: &Tensor<S>,
) -> (r: Tensor<S>)
    requires
        xc.wf(),
        wc.wf(),
        dout.wf(),
        avg.wf(),
        var.wf(),
        d8row.wf(),
        wc.sp_same_shape(xc),
        dout.sp_same_shape(xc),
        avg.sp_same_shape(xc),
        var.sp_same_shape(xc),
        d8row.sp_is_shape(1, xc.sp_cols()),
        forall|j: int|
            0 <= j < xc.sp_cols() ==> #[trigger] d8row.sp_at(0, j) == crate::batch_norm::sp_bn_d8(
                xc,
                wc,
                dout,
                avg,
                j,
            ),
    ensures
        r.wf(),
        r.sp_same_shape(xc),
        forall|i: int, j: int|
            0 <= i < xc.sp_rows() && 0 <= j < xc.sp_cols() ==> #[trigger] r.sp_at(i, j)
                == sp_bn_d3a(xc, wc, dout, avg, var, i, j),
{
    let eps: S = crate::optimizer::epsilon::<S>();
    let two: S = S::from_u64(2);
    let rows = xc.rows();
    let cols = xc.cols();
    let n_scalar: S = S::from_u64(rows as u64);
    let mut data: Vec<Vec<S>> = Vec::new();
    let mut i: usize = 0;
    while i < rows
        invariant
            xc.wf(),
            wc.wf(),
            dout.wf(),
            avg.wf(),
            var.wf(),
            d8row.wf(),
            wc.sp_same_shape(xc),
            dout.sp_same_shape(xc),
            avg.sp_same_shape(xc),
            var.sp_same_shape(xc),
            d8row.sp_is_shape(1, xc.sp_cols()),
            forall|j: int|
                0 <= j < xc.sp_cols() ==> #[trigger] d8row.sp_at(0, j)
                    == crate::batch_norm::sp_bn_d8(xc, wc, dout, avg, j),
            eps == crate::optimizer::sp_epsilon::<S>(),
            two == S::sp_from_u64(2),
            n_scalar == S::sp_from_u64(xc.sp_rows() as u64),
            rows == xc.sp_rows(),
            cols == xc.sp_cols(),
            i <= rows,
            data@.len() == i,
            forall|k: int| 0 <= k < i ==> (#[trigger] data@[k])@.len() == cols,
            forall|k: int, j: int|
                0 <= k < i && 0 <= j < cols ==> #[trigger] data@[k]@[j] == sp_bn_d3a(
                    xc,
                    wc,
                    dout,
                    avg,
                    var,
                    k,
                    j,
                ),
        decreases rows - i,
    {
        let mut row: Vec<S> = Vec::new();
        let mut j: usize = 0;
        while j < cols
            invariant
                xc.wf(),
                wc.wf(),
                dout.wf(),
                avg.wf(),
                var.wf(),
                d8row.wf(),
                wc.sp_same_shape(xc),
                dout.sp_same_shape(xc),
                avg.sp_same_shape(xc),
                var.sp_same_shape(xc),
                d8row.sp_is_shape(1, xc.sp_cols()),
                forall|j2: int|
                    0 <= j2 < xc.sp_cols() ==> #[trigger] d8row.sp_at(0, j2)
                        == crate::batch_norm::sp_bn_d8(xc, wc, dout, avg, j2),
                eps == crate::optimizer::sp_epsilon::<S>(),
                two == S::sp_from_u64(2),
                n_scalar == S::sp_from_u64(xc.sp_rows() as u64),
                rows == xc.sp_rows(),
                cols == xc.sp_cols(),
                i < rows,
                j <= cols,
                row@.len() == j,
                forall|m: int|
                    0 <= m < j ==> #[trigger] row@[m] == sp_bn_d3a(
                        xc,
                        wc,
                        dout,
                        avg,
                        var,
                        i as int,
                        m,
                    ),
            decreases cols - j,
        {
            proof {
                reveal(crate::batch_norm::sp_bn_d3a);
            }
            let d12a = wc.get(i, j).mul(dout.get(i, j));
            let d9a = d12a.div(var.get(i, j).add(eps).sqrt());
            let var0 = var.get(0, j);
            let d7 = d8row.get(0, j).mul(S::one().neg().div(var0.add(eps)));
            let d6 = d7.div(two.mul(var0.add(eps).sqrt()));
            let d5 = d6.div(n_scalar);
            let d4 = d5.mul(xc.get(i, j).sub(avg.get(i, j)));
            row.push(d9a.add(d4));
            j = j + 1;
        }
        data.push(row);
        i = i + 1;
    }
    match Tensor::new(rows, cols, data) {
        Some(r) => r,
        None => {
            proof {
                assert(false);
            }
            Tensor::zeros(rows, cols)
        },
    }
}

/// Every entry negated.
fn bn_neg_map<S: Scalar>(t: &Tensor<S>) -> (r: Tensor<S>)
    requires
        t.wf(),
    ensures
        r.wf(),
        r.sp_same_shape(t),
        forall|i: int, j: int|
            0 <= i < t.sp_rows() && 0 <= j < t.sp_cols() ==> #[trigger] r.sp_at(i, j) == t.sp_at(
                i,
                j,
            ).sp_neg(),
{
    let rows = t.rows();
    let cols = t.cols();
    let mut data: Vec<Vec<S>> = Vec::new();
    let mut i: usize = 0;
    while i < rows
        invariant
            t.wf(),
            rows == t.sp_rows(),
            cols == t.sp_cols(),
            i <= rows,
            data@.len() == i,
            forall|k: int| 0 <= k < i ==> (#[trigger] data@[k])@.len() == cols,
            forall|k: int, j: int|
                0 <= k < i && 0 <= j < cols ==> #[trigger] data@[k]@[j] == t.sp_at(k, j).sp_neg(),
        decreases rows - i,
    {
        let mut row: Vec<S> = Vec::new();
        let mut j: usize = 0;
        while j < cols
            invariant
                t.wf(),
                rows == t.sp_rows(),
                cols == t.sp_cols(),
                i < rows,
                j <= cols,
                row@.len() == j,
                forall|m: int| 0 <= m < j ==> #[trigger] row@[m] == t.sp_at(i as int, m).sp_neg(),
            decreases cols - j,
        {
            row.push(t.get(i, j).neg());
            j = j + 1;
        }
        data.push(row);
        i = i + 1;
    }
    match Tensor::new(rows, cols, data) {
        Some(r) => r,
        None => {
            proof {
                assert(false);
            }
            Tensor::zeros(rows, cols)
        },
    }
}

/// The direct branch plus the spread mean-branch correction.
fn bn_dx_map<S: Scalar>(d3a: &Tensor<S>, d2row: &Tensor<S>) -> (r: Tensor<S>)
    requires
        d3a.wf(),
        d2row.wf(),
        d2row.sp_is_shape(1, d3a.sp_cols()),
    ensures
        r.wf(),
        r.sp_same_shape(d3a),
        forall|i: int, j: int|
            0 <= i < d3a.sp_rows() && 0 <= j < d3a.sp_cols() ==> #[trigger] r.sp_at(i, j)
                == d3a.sp_at(i, j).sp_add(
                d2row.sp_at(0, j).sp_div(S::sp_from_u64(d3a.sp_rows() as u64)),
            ),
{
    let rows = d3a.rows();
    let cols = d3a.cols();
    let n_scalar: S = S::from_u64(rows as u64);
    let mut data: Vec<Vec<S>> = Vec::new();
    let mut i: usize = 0;
    while i < rows
        invariant
            d3a.wf(),
            d2row.wf(),
            d2row.sp_is_shape(1, d3a.sp_cols()),
            n_scalar == S::sp_from_u64(d3a.sp_rows() as u64),
            rows == d3a.sp_rows(),
            cols == d3a.sp_cols(),
            i <= rows,
            data@.len() == i,
            forall|k: int| 0 <= k < i ==> (#[trigger] data@[k])@.len() == cols,
            forall|k: int, j: int|
                0 <= k < i && 0 <= j < cols ==> #[trigger] data@[k]@[j] == d3a.sp_at(k, j).sp_add(
                    d2row.sp_at(0, j).sp_div(S::sp_from_u64(d3a.sp_rows() as u64)),
                ),
        decreases rows - i,
    {
        let mut row: Vec<S> = Vec::new();
        let mut j: usize = 0;
        while j < cols
            invariant
                d3a.wf(),
                d2row.wf(),
                d2row.sp_is_shape(1, d3a.sp_cols()),
                n_scalar == S::sp_from_u64(d3a.sp_rows() as u64),
                rows == d3a.sp_rows(),
                cols == d3a.sp_cols(),
                i < rows,
                j <= cols,
                row@.len() == j,
                forall|m: int|
                    0 <= m < j ==> #[trigger] row@[m] == d3a.sp_at(i as int, m).sp_add(
                        d2row.sp_at(0, m).sp_div(S::sp_from_u64(d3a.sp_rows() as u64)),
                    ),
            decreases cols - j,
        {
            row.push(d3a.get(i, j).add(d2row.get(0, j).div(n_scalar)));
            j = j + 1;
        }
        data.push(row);
        i = i + 1;
    }
    match Tensor::new(rows, cols, data) {
        Some(r) => r,
        None => {
            proof {
                assert(false);
            }
            Tensor::zeros(rows, cols)
        },
    }
}

/// The rectifier applied to every entry.
fn relu_map<S: Scalar>(x: &Tensor<S>) -> (r: Tensor<S>)
    requires
        x.wf(),
    ensures
        r.wf(),
        r.sp_same_shape(x),
        forall|i: int, j: int|
            0 <= i < x.sp_rows() && 0 <= j < x.sp_cols() ==> #[trigger] r.sp_at(i, j) == sp_relu(
                x.sp_at(i, j),
            ),
{
    let rows = x.rows();
    let cols = x.cols();
    let mut data: Vec<Vec<S>> = Vec::new();
    let mut i: usize = 0;
    while i < rows
        invariant
            x.wf(),
            rows == x.sp_rows(),
            cols == x.sp_cols(),
            i <= rows,
            data@.len() == i,
            forall|k: int| 0 <= k < i ==> (#[trigger] data@[k])@.len() == cols,
            forall|k: int, j: int|
                0 <= k < i && 0 <= j < cols ==> #[trigger] data@[k]@[j] == sp_relu(x.sp_at(k, j)),
        decreases rows - i,
    {
        let row = x.row_vec(i);
        let mapped = crate::activation_functions::relu_array(&row);
        data.push(mapped);
        i = i + 1;
    }
    match Tensor::new(rows, cols, data) {
        Some(t) => t,
        None => {
            proof {
                assert(false);
            }
            Tensor::zeros(rows, cols)
        },
    }
}

/// The sigmoid applied to every entry.
fn sigmoid_map<S: Scalar>(x: &Tensor<S>) -> (r: Tensor<S>)
    requires
        x.wf(),
    ensures
        r.wf(),
        r.sp_same_shape(x),
        forall|i: int, j: int|
            0 <= i < x.sp_rows() && 0 <= j < x.sp_cols() ==> #[trigger] r.sp_at(i, j) == sp_sigmoid(
                x.sp_at(i, j),
            ),
{
    let rows = x.rows();
    let cols = x.cols();
    let mut data: Vec<Vec<S>> = Vec::new();
    let mut i: usize = 0;
    while i < rows
        invariant
            x.wf(),
            rows == x.sp_rows(),
            cols == x.sp_cols(),
            i <= rows,
            data@.len() == i,
            forall|k: int| 0 <= k < i ==> (#[trigger] data@[k])@.len() == cols,
            forall|k: int, j: int|
                0 <= k < i && 0 <= j < cols ==> #[trigger] data@[k]@[j] == sp_sigmoid(
                    x.sp_at(k, j),
                ),
        decreases rows - i,
    {
        let row = x.row_vec(i);
        let mapped = crate::activation_functions::sigmoid_array(&row);
        data.push(mapped);
        i = i + 1;
    }
    match Tensor::new(rows, cols, data) {
        Some(t) => t,
        None => {
            proof {
                assert(false);
            }
            Tensor::zeros(rows, cols)
        },
    }
}

/// A fresh dropout mask: each entry is one with probability `1 - rate`,
/// zero otherwise.
fn draw_mask<S: Scalar, R: Sampler<S>>(rows: usize, cols: usize, rate: S, rng: &mut R) -> (m:
    Tensor<S>)
    ensures
        m.wf(),
        m.sp_is_shape(rows as int, cols as int),
        Layer::<S>::sp_mask01(m),
{
    let mut data: Vec<Vec<S>> = Vec::new();
    let mut i: usize = 0;
    while i < rows
        invariant
            i <= rows,
            data@.len() == i,
            forall|k: int| 0 <= k < i ==> (#[trigger] data@[k])@.len() == cols,
            forall|k: int, j: int|
                0 <= k < i && 0 <= j < cols ==> #[trigger] data@[k]@[j] == S::sp_zero()
                    || data@[k]@[j] == S::sp_one(),
        decreases rows - i,
    {
        let mut row: Vec<S> = Vec::new();
        let mut j: usize = 0;
        while j < cols
            invariant
                j <= cols,
                row@.len() == j,
                forall|m2: int|
                    0 <= m2 < j ==> #[trigger] row@[m2] == S::sp_zero() || row@[m2] == S::sp_one(),
            decreases cols - j,
        {
            if rng.sample_keep(rate) {
                row.push(S::one());
            } else {
                row.push(S::zero());
            }
            j = j + 1;
        }
        data.push(row);
        i = i + 1;
    }
    match Tensor::new(rows, cols, data) {
        Some(t) => t,
        None => {
            proof {
                assert(false);
            }
            Tensor::zeros(rows, cols)
        },
    }
}

} // verus!
