//! A plain feed-forward network over single-example row vectors: a stack
//! of randomly initialized dense layers, each applying a fixed activation
//! map, with helpers to read and shift all parameters at once.

use vstd::prelude::*;

use crate::activation_functions::{sp_sigmoid, sp_softmax_term};
use crate::layer::Sampler;
use crate::scalar::Scalar;
use crate::tensor::{sp_sum, Tensor};

verus! {

/// The activation a dense layer applies to its whole output row.
#[derive(Clone, Copy, PartialEq, Eq, Debug, Structural)]
pub enum Activation {
    Identity,
    Sigmoid,
    Softmax,
}

/// The pre-activation entry `j`: the dot product of the input row with
/// weight column `j`, plus the bias entry.
pub open spec fn sp_pre<S: Scalar>(w: &Tensor<S>, b: Seq<S>, x: Seq<S>, j: int) -> S {
    sp_sum(Seq::new(w.sp_rows() as nat, |k: int| x[k].sp_mul(w.sp_at(k, j)))).sp_add(b[j])
}

/// The pre-activation entry `j` under a parameter perturbation: the weight
/// matrix shifted by `wh`, the bias row shifted by `bh`.
pub open spec fn sp_pre_diff<S: Scalar>(
    w: &Tensor<S>,
    wh: &Tensor<S>,
    b: Seq<S>,
    bh: Seq<S>,
    x: Seq<S>,
    j: int,
) -> S {
    sp_sum(
        Seq::new(w.sp_rows() as nat, |k: int| x[k].sp_mul(w.sp_at(k, j).sp_add(wh.sp_at(k, j)))),
    ).sp_add(b[j]).sp_add(bh[j])
}

/// The activation applied to entry `j` of a pre-activation row.
pub open spec fn sp_activated<S: Scalar>(a: Activation, pre: Seq<S>, j: int) -> S {
    match a {
        Activation::Identity => pre[j],
        Activation::Sigmoid => sp_sigmoid(pre[j]),
        Activation::Softmax => sp_softmax_term(pre[j], pre),
    }
}

/// One dense layer's whole output row for the given input row.
pub open spec fn sp_layer_out<S: Scalar>(l: &NeuralNetworkLayer<S>, x: Seq<S>) -> Seq<S> {
    let pre = Seq::new(
        l.weight.sp_cols() as nat,
        |j: int| sp_pre(&l.weight, l.bias@, x, j),
    );
    Seq::new(pre.len(), |j: int| sp_activated(l.activation_function, pre, j))
}

/// One dense layer's output row under a parameter perturbation.
pub open spec fn sp_layer_out_diff<S: Scalar>(
    l: &NeuralNetworkLayer<S>,
    wh: &Tensor<S>,
    bh: Seq<S>,
    x: Seq<S>,
) -> Seq<S> {
    let pre = Seq::new(
        l.weight.sp_cols() as nat,
        |j: int| sp_pre_diff(&l.weight, wh, l.bias@, bh, x, j),
    );
    Seq::new(pre.len(), |j: int| sp_activated(l.activation_function, pre, j))
}

/// One dense layer.
pub struct NeuralNetworkLayer<S: Scalar> {
    pub weight: Tensor<S>,
    pub bias: Vec<S>,
    pub activation_function: Activation,
}

impl<S: Scalar> NeuralNetworkLayer<S> {
    /// The weight grid is sound and the bias covers every neuron.
    pub open spec fn wf(&self) -> bool {
        &&& self.weight.wf()
        &&& self.bias@.len() == self.weight.sp_cols()
        &&& self.weight.sp_cols() > 0
    }

    /// A randomly initialized layer, the bias entries scaled down a
    /// hundredfold.
    pub fn new<R: Sampler<S>>(
        input_len: usize,
        neuron_len: usize,
        activation_function: Activation,
        rng: &mut R,
    ) -> (r: NeuralNetworkLayer<S>)
        requires
            neuron_len > 0,
        ensures
            r.wf(),
            r.weight.sp_is_shape(input_len as int, neuron_len as int),
            r.activation_function == activation_function,
    {
        let weight = crate::layer::sample_tensor(input_len, neuron_len, rng);
        let scale = S::one().div(S::from_u64(100));
        let mut bias: Vec<S> = Vec::new();
        let mut j: usize = 0;
        while j < neuron_len
            invariant
                bias@.len() == j,
                j <= neuron_len,
            decreases neuron_len - j,
        {
            bias.push(rng.sample().mul(scale));
            j = j + 1;
        }
        NeuralNetworkLayer { weight, bias, activation_function }
    }

    fn pre_plain(&self, x: &Vec<S>) -> (pre: Vec<S>)
        requires
            self.wf(),
            x@.len() == self.weight.sp_rows(),
        ensures
            pre@.len() == self.weight.sp_cols(),
            forall|j: int|
                0 <= j < pre@.len() ==> #[trigger] pre@[j] == sp_pre(
                    &self.weight,
                    self.bias@,
                    x@,
                    j,
                ),
    {
        let rows = self.weight.rows();
        let cols = self.weight.cols();
        let mut pre: Vec<S> = Vec::new();
        let mut j: usize = 0;
        while j < cols
            invariant
                self.wf(),
                x@.len() == self.weight.sp_rows(),
                rows == self.weight.sp_rows(),
                cols == self.weight.sp_cols(),
                j <= cols,
                pre@.len() == j,
                forall|m: int|
                    0 <= m < j ==> #[trigger] pre@[m] == sp_pre(&self.weight, self.bias@, x@, m),
            decreases cols - j,
        {
            let mut acc: S = S::zero();
            let mut k: usize = 0;
            while k < rows
                invariant
                    self.wf(),
                    x@.len() == self.weight.sp_rows(),
                    rows == self.weight.sp_rows(),
                    cols == self.weight.sp_cols(),
                    j < cols,
                    k <= rows,
                    acc == sp_sum(
                        Seq::new(
                            k as nat,
                            |kk: int| x@[kk].sp_mul(self.weight.sp_at(kk, j as int)),
                        ),
                    ),
                decreases rows - k,
            {
                proof {
                    let f = |kk: int| x@[kk].sp_mul(self.weight.sp_at(kk, j as int));
                    assert(Seq::new((k + 1) as nat, f) =~= Seq::new(k as nat, f).push(f(k as int)));
                    crate::tensor::lemma_sp_sum_push(Seq::new(k as nat, f), f(k as int));
                }
                acc = acc.add(x[k].mul(self.weight.get(k, j)));
                k = k + 1;
            }
            proof {
                assert(Seq::new(self.weight.sp_rows() as nat, |kk: int|
                    x@[kk].sp_mul(self.weight.sp_at(kk, j as int))) =~= Seq::new(k as nat, |kk: int|
                    x@[kk].sp_mul(self.weight.sp_at(kk, j as int))));
            }
            pre.push(acc.add(self.bias[j]));
            j = j + 1;
        }
        pre
    }

    fn pre_diff(&self, x: &Vec<S>, wh: &Tensor<S>, bh: &Vec<S>) -> (pre: Vec<S>)
        requires
            self.wf(),
            x@.len() == self.weight.sp_rows(),
            wh.wf(),
            wh.sp_is_shape(self.weight.sp_rows(), self.weight.sp_cols()),
            bh@.len() == self.weight.sp_cols(),
        ensures
            pre@.len() == self.weight.sp_cols(),
            forall|j: int|
                0 <= j < pre@.len() ==> #[trigger] pre@[j] == sp_pre_diff(
                    &self.weight,
                    wh,
                    self.bias@,
                    bh@,
                    x@,
                    j,
                ),
    {
        let rows = self.weight.rows();
        let cols = self.weight.cols();
        let mut pre: Vec<S> = Vec::new();
        let mut j: usize = 0;
        while j < cols
            invariant
                self.wf(),
                x@.len() == self.weight.sp_rows(),
                wh.wf(),
                wh.sp_is_shape(self.weight.sp_rows(), self.weight.sp_cols()),
                bh@.len() == self.weight.sp_cols(),
                rows == self.weight.sp_rows(),
                cols == self.weight.sp_cols(),
                j <= cols,
                pre@.len() == j,
                forall|m: int|
                    0 <= m < j ==> #[trigger] pre@[m] == sp_pre_diff(
                        &self.weight,
                        wh,
                        self.bias@,
                        bh@,
                        x@,
                        m,
                    ),
            decreases cols - j,
        {
            let mut acc: S = S::zero();
            let mut k: usize = 0;
            while k < rows
                invariant
                    self.wf(),
                    x@.len() == self.weight.sp_rows(),
                    wh.wf(),
                    wh.sp_is_shape(self.weight.sp_rows(), self.weight.sp_cols()),
                    rows == self.weight.sp_rows(),
                    cols == self.weight.sp_cols(),
                    j < cols,
                    k <= rows,
                    acc == sp_sum(
                        Seq::new(
                            k as nat,
                            |kk: int| x@[kk].sp_mul(
                                self.weight.sp_at(kk, j as int).sp_add(wh.sp_at(kk, j as int)),
                            ),
                        ),
                    ),
                decreases rows - k,
            {
                proof {
                    let f = |kk: int| x@[kk].sp_mul(
                        self.weight.sp_at(kk, j as int).sp_add(wh.sp_at(kk, j as int)),
                    );
                    assert(Seq::new((k + 1) as nat, f) =~= Seq::new(k as nat, f).push(f(k as int)));
                    crate::tensor::lemma_sp_sum_push(Seq::new(k as nat, f), f(k as int));
                }
                acc = acc.add(x[k].mul(self.weight.get(k, j).add(wh.get(k, j))));
                k = k + 1;
            }
            proof {
                assert(Seq::new(self.weight.sp_rows() as nat, |kk: int|
                    x@[kk].sp_mul(self.weight.sp_at(kk, j as int).sp_add(wh.sp_at(kk, j as int))))
                    =~= Seq::new(k as nat, |kk: int|
                    x@[kk].sp_mul(self.weight.sp_at(kk, j as int).sp_add(wh.sp_at(kk, j as int)))));
            }
            pre.push(acc.add(self.bias[j]).add(bh[j]));
            j = j + 1;
        }
        pre
    }

    fn activate(&self, pre: Vec<S>) -> (r: Vec<S>)
        requires
            self.wf(),
            pre@.len() > 0,
        ensures
            r@.len() == pre@.len(),
            forall|j: int|
                0 <= j < r@.len() ==> #[trigger] r@[j] == sp_activated(
                    self.activation_function,
                    pre@,
                    j,
                ),
    {
        match self.activation_function {
            Activation::Identity => crate::activation_functions::identity_array(&pre),
            Activation::Sigmoid => crate::activation_functions::sigmoid_array(&pre),
            Activation::Softmax => crate::activation_functions::softmax_array(&pre),
        }
    }

    /// `activation(x . W + b)`.
    pub fn forward(&self, x: &Vec<S>) -> (r: Vec<S>)
        requires
            self.wf(),
            x@.len() == self.weight.sp_rows(),
        ensures
            r@.len() == self.weight.sp_cols(),
            r@ == sp_layer_out(self, x@),
    {
        let pre = self.pre_plain(x);
        let r = self.activate(pre);
        proof {
            let ps = Seq::new(
                self.weight.sp_cols() as nat,
                |j: int| sp_pre(&self.weight, self.bias@, x@, j),
            );
            assert(ps =~= pre@);
            assert(r@ =~= sp_layer_out(self, x@));
        }
        r
    }

    /// `activation(x . (W + wh) + b + bh)`: the forward pass under a
    /// parameter perturbation, as numeric differentiation probes it.
    pub fn forward_diff(&self, x: &Vec<S>, wh: &Tensor<S>, bh: &Vec<S>) -> (r: Vec<S>)
        requires
            self.wf(),
            x@.len() == self.weight.sp_rows(),
            wh.wf(),
            wh.sp_is_shape(self.weight.sp_rows(), self.weight.sp_cols()),
            bh@.len() == self.weight.sp_cols(),
        ensures
            r@.len() == self.weight.sp_cols(),
            r@ == sp_layer_out_diff(self, wh, bh@, x@),
    {
        let pre = self.pre_diff(x, wh, bh);
        let r = self.activate(pre);
        proof {
            let ps = Seq::new(
                self.weight.sp_cols() as nat,
                |j: int| sp_pre_diff(&self.weight, wh, self.bias@, bh@, x@, j),
            );
            assert(ps =~= pre@);
            assert(r@ =~= sp_layer_out_diff(self, wh, bh@, x@));
        }
        r
    }

    /// The weight dimensions and the bias length.
    pub fn get_layer_size(&self) -> (r: ((usize, usize), usize))
        ensures
            r.0.0 as int == self.weight.sp_rows(),
            r.0.1 as int == self.weight.sp_cols(),
            r.1 as int == self.bias@.len(),
    {
        ((self.weight.rows(), self.weight.cols()), self.bias.len())
    }

    /// Shifts both parameters by the given amounts.
    pub fn update_parameters_add(&mut self, weight: &Tensor<S>, bias: &Vec<S>)
        requires
            old(self).wf(),
            weight.wf(),
            weight.sp_is_shape(old(self).weight.sp_rows(), old(self).weight.sp_cols()),
            bias@.len() == old(self).bias@.len(),
        ensures
            final(self).wf(),
            final(self).weight.sp_same_shape(&old(self).weight),
            final(self).bias@.len() == old(self).bias@.len(),
            final(self).activation_function == old(self).activation_function,
            forall|i: int, j: int|
                0 <= i < old(self).weight.sp_rows() && 0 <= j < old(self).weight.sp_cols()
                    ==> #[trigger] final(self).weight.sp_at(i, j) == old(self).weight.sp_at(
                    i,
                    j,
                ).sp_add(weight.sp_at(i, j)),
            forall|j: int|
                0 <= j < old(self).bias@.len() ==> #[trigger] final(self).bias@[j] == old(
                    self,
                ).bias@[j].sp_add(bias@[j]),
    {
        let new_weight = self.weight.ew_add(weight);
        let mut new_bias: Vec<S> = Vec::new();
        let mut j: usize = 0;
        let n = self.bias.len();
        while j < n
            invariant
                self.wf(),
                bias@.len() == self.bias@.len(),
                n == self.bias@.len(),
                j <= n,
                new_bias@.len() == j,
                forall|m: int|
                    0 <= m < j ==> #[trigger] new_bias@[m] == self.bias@[m].sp_add(bias@[m]),
            decreases n - j,
        {
            new_bias.push(self.bias[j].add(bias[j]));
            j = j + 1;
        }
        self.weight = new_weight;
        self.bias = new_bias;
    }
}

/// Collects the settings of one dense layer before the stack is assembled;
/// the input width is filled in when the network wires consecutive layers
/// together.
pub struct NeuralNetworkLayerBuilder {
    pub input_len: u32,
    pub neuron_len: u32,
    pub activation_function: Activation,
}

impl NeuralNetworkLayerBuilder {
    pub fn new(neuron_len: u32, activation_function: Activation) -> (r: NeuralNetworkLayerBuilder)
        ensures
            r.input_len == 0,
            r.neuron_len == neuron_len,
            r.activation_function == activation_function,
    {
        NeuralNetworkLayerBuilder { input_len: 0, neuron_len, activation_function }
    }

    pub fn set_input_len(&mut self, input_len: u32)
        ensures
            final(self).input_len == input_len,
            final(self).neuron_len == old(self).neuron_len,
            final(self).activation_function == old(self).activation_function,
    {
        self.input_len = input_len;
    }

    pub fn set_neuron_len(&mut self, neuron_len: u32)
        ensures
            final(self).input_len == old(self).input_len,
            final(self).neuron_len == neuron_len,
            final(self).activation_function == old(self).activation_function,
    {
        self.neuron_len = neuron_len;
    }

    pub fn get_neuron_len(&self) -> (r: u32)
        ensures
            r == self.neuron_len,
    {
        self.neuron_len
    }

    pub fn set_activation_function(&mut self, activation_function: Activation)
        ensures
            final(self).input_len == old(self).input_len,
            final(self).neuron_len == old(self).neuron_len,
            final(self).activation_function == activation_function,
    {
        self.activation_function = activation_function;
    }

    /// A randomly initialized layer with these settings.
    pub fn build<S: Scalar, R: Sampler<S>>(self, rng: &mut R) -> (r: NeuralNetworkLayer<S>)
        requires
            self.neuron_len > 0,
        ensures
            r.wf(),
            r.weight.sp_is_shape(self.input_len as int, self.neuron_len as int),
            r.activation_function == self.activation_function,
    {
        NeuralNetworkLayer::new(
            self.input_len as usize,
            self.neuron_len as usize,
            self.activation_function,
            rng,
        )
    }
}

/// The whole network output: the input row folded through the first `n`
/// layers.
pub open spec fn sp_net_out<S: Scalar>(layers: Seq<NeuralNetworkLayer<S>>, x: Seq<S>, n: int) -> Seq<
    S,
>
    decreases n,
{
    if n <= 0 {
        x
    } else {
        sp_layer_out(&layers[n - 1], sp_net_out(layers, x, n - 1))
    }
}

/// The whole network output under per-layer parameter perturbations.
pub open spec fn sp_net_out_diff<S: Scalar>(
    layers: Seq<NeuralNetworkLayer<S>>,
    wh: Seq<Tensor<S>>,
    bh: Seq<Vec<S>>,
    x: Seq<S>,
    n: int,
) -> Seq<S>
    decreases n,
{
    if n <= 0 {
        x
    } else {
        sp_layer_out_diff(&layers[n - 1], &wh[n - 1], bh[n - 1]@, sp_net_out_diff(layers, wh, bh, x, n - 1))
    }
}

/// The parameter count of the first `n` layers: weights plus biases.
pub open spec fn sp_total_size<S: Scalar>(layers: Seq<NeuralNetworkLayer<S>>, n: int) -> int
    decreases n,
{
    if n <= 0 {
        0
    } else {
        sp_total_size(layers, n - 1) + layers[n - 1].weight.sp_rows() * layers[
            n - 1
        ].weight.sp_cols() + layers[n - 1].bias@.len()
    }
}

/// A stack of dense layers, first layer first.
pub struct NeuralNetwork<S: Scalar> {
    pub layers: Vec<NeuralNetworkLayer<S>>,
}

impl<S: Scalar> NeuralNetwork<S> {
    /// Every layer is sound and consecutive layers fit together.
    pub open spec fn wf(&self) -> bool {
        &&& forall|i: int| 0 <= i < self.layers@.len() ==> (#[trigger] self.layers@[i]).wf()
        &&& forall|i: int|
            1 <= i < self.layers@.len() ==> (#[trigger] self.layers@[i]).weight.sp_rows()
                == self.layers@[i - 1].weight.sp_cols()
    }

    /// Assembles the stack: each builder receives the previous layer's
    /// width as its input width.
    #[verifier::rlimit(60)]
    pub fn new<R: Sampler<S>>(
        input_len: u32,
        layer_builders: Vec<NeuralNetworkLayerBuilder>,
        rng: &mut R,
    ) -> (r: NeuralNetwork<S>)
        requires
            forall|i: int|
                0 <= i < layer_builders@.len() ==> (#[trigger] layer_builders@[i]).neuron_len > 0,
        ensures
            r.wf(),
            r.layers@.len() == layer_builders@.len(),
            forall|i: int|
                0 <= i < layer_builders@.len() ==> (#[trigger] r.layers@[i]).weight.sp_cols()
                    == layer_builders@[i].neuron_len,
            layer_builders@.len() > 0 ==> r.layers@[0].weight.sp_rows() == input_len,
            forall|i: int|
                0 <= i < layer_builders@.len() ==> (#[trigger] r.layers@[i]).activation_function
                    == layer_builders@[i].activation_function,
    {
        let mut layers: Vec<NeuralNetworkLayer<S>> = Vec::new();
        let mut before_out_len: u32 = input_len;
        let n = layer_builders.len();
        let mut i: usize = 0;
        while i < n
            invariant
                forall|k: int|
                    0 <= k < layer_builders@.len() ==> (#[trigger] layer_builders@[k]).neuron_len
                        > 0,
                n == layer_builders@.len(),
                i <= n,
                layers@.len() == i,
                forall|k: int| 0 <= k < i ==> (#[trigger] layers@[k]).wf(),
                forall|k: int|
                    0 <= k < i ==> (#[trigger] layers@[k]).weight.sp_cols() == layer_builders@[
                        k
                    ].neuron_len,
                forall|k: int|
                    0 <= k < i ==> (#[trigger] layers@[k]).activation_function == layer_builders@[
                        k
                    ].activation_function,
                i > 0 ==> before_out_len == layer_builders@[i - 1].neuron_len,
                i == 0 ==> before_out_len == input_len,
                n > 0 && i > 0 ==> layers@[0].weight.sp_rows() == input_len,
                forall|k: int|
                    1 <= k < i ==> (#[trigger] layers@[k]).weight.sp_rows() == layers@[
                        k - 1
                    ].weight.sp_cols(),
            decreases n - i,
        {
            let mut builder = NeuralNetworkLayerBuilder {
                input_len: layer_builders[i].input_len,
                neuron_len: layer_builders[i].neuron_len,
                activation_function: layer_builders[i].activation_function,
            };
            builder.set_input_len(before_out_len);
            before_out_len = builder.get_neuron_len();
            layers.push(builder.build(rng));
            i = i + 1;
        }
        NeuralNetwork { layers }
    }

    /// The input row folded through every layer.
    pub fn forward(&self, input: &Vec<S>) -> (r: Vec<S>)
        requires
            self.wf(),
            self.layers@.len() > 0 ==> input@.len() == self.layers@[0].weight.sp_rows(),
        ensures
            r@ == sp_net_out(self.layers@, input@, self.layers@.len() as int),
    {
        let mut x: Vec<S> = Vec::new();
        let mut k: usize = 0;
        while k < input.len()
            invariant
                k <= input@.len(),
                x@ == input@.subrange(0, k as int),
            decreases input@.len() - k,
        {
            x.push(input[k]);
            k = k + 1;
        }
        proof {
            assert(input@.subrange(0, input@.len() as int) =~= input@);
        }
        let n = self.layers.len();
        let mut i: usize = 0;
        while i < n
            invariant
                self.wf(),
                n == self.layers@.len(),
                i <= n,
                x@ == sp_net_out(self.layers@, input@, i as int),
                i < n ==> x@.len() == self.layers@[i as int].weight.sp_rows(),
            decreases n - i,
        {
            x = self.layers[i].forward(&x);
            i = i + 1;
        }
        x
    }

    /// The input row folded through every layer under per-layer parameter
    /// perturbations.
    pub fn forward_diff(&self, input: &Vec<S>, wh: &Vec<Tensor<S>>, bh: &Vec<Vec<S>>) -> (r: Vec<S>)
        requires
            self.wf(),
            self.layers@.len() > 0 ==> input@.len() == self.layers@[0].weight.sp_rows(),
            wh@.len() == self.layers@.len(),
            bh@.len() == self.layers@.len(),
            forall|i: int|
                0 <= i < self.layers@.len() ==> (#[trigger] wh@[i]).wf() && wh@[i].sp_is_shape(
                    self.layers@[i].weight.sp_rows(),
                    self.layers@[i].weight.sp_cols(),
                ),
            forall|i: int|
                0 <= i < self.layers@.len() ==> (#[trigger] bh@[i])@.len()
                    == self.layers@[i].weight.sp_cols(),
        ensures
            r@ == sp_net_out_diff(
                self.layers@,
                wh@,
                bh@,
                input@,
                self.layers@.len() as int,
            ),
    {
        let mut x: Vec<S> = Vec::new();
        let mut k: usize = 0;
        while k < input.len()
            invariant
                k <= input@.len(),
                x@ == input@.subrange(0, k as int),
            decreases input@.len() - k,
        {
            x.push(input[k]);
            k = k + 1;
        }
        proof {
            assert(input@.subrange(0, input@.len() as int) =~= input@);
        }
        let n = self.layers.len();
        let mut i: usize = 0;
        while i < n
            invariant
                self.wf(),
                n == self.layers@.len(),
                wh@.len() == self.layers@.len(),
                bh@.len() == self.layers@.len(),
                forall|k2: int|
                    0 <= k2 < self.layers@.len() ==> (#[trigger] wh@[k2]).wf() && wh@[
                        k2
                    ].sp_is_shape(
                        self.layers@[k2].weight.sp_rows(),
                        self.layers@[k2].weight.sp_cols(),
                    ),
                forall|k2: int|
                    0 <= k2 < self.layers@.len() ==> (#[trigger] bh@[k2])@.len()
                        == self.layers@[k2].weight.sp_cols(),
                i <= n,
                x@ == sp_net_out_diff(self.layers@, wh@, bh@, input@, i as int),
                i < n ==> x@.len() == self.layers@[i as int].weight.sp_rows(),
            decreases n - i,
        {
            x = self.layers[i].forward_diff(&x, &wh[i], &bh[i]);
            i = i + 1;
        }
        x
    }

    /// Every layer's dimensions.
    pub fn get_network_size(&self) -> (r: Vec<((usize, usize), usize)>)
        requires
            self.wf(),
        ensures
            r@.len() == self.layers@.len(),
            forall|i: int|
                0 <= i < r@.len() ==> (#[trigger] r@[i]).0.0 as int == self.layers@[
                    i
                ].weight.sp_rows() && r@[i].0.1 as int == self.layers@[i].weight.sp_cols() && r@[
                    i
                ].1 as int == self.layers@[i].bias@.len(),
    {
        let mut r: Vec<((usize, usize), usize)> = Vec::new();
        let n = self.layers.len();
        let mut i: usize = 0;
        while i < n
            invariant
                self.wf(),
                n == self.layers@.len(),
                i <= n,
                r@.len() == i,
                forall|k: int|
                    0 <= k < i ==> (#[trigger] r@[k]).0.0 as int == self.layers@[
                        k
                    ].weight.sp_rows() && r@[k].0.1 as int == self.layers@[k].weight.sp_cols()
                        && r@[k].1 as int == self.layers@[k].bias@.len(),
            decreases n - i,
        {
            r.push(self.layers[i].get_layer_size());
            i = i + 1;
        }
        r
    }

    /// The total number of trainable values in the network.
    pub fn get_network_total_tize(&self) -> (r: usize)
        requires
            self.wf(),
            sp_total_size(self.layers@, self.layers@.len() as int) <= usize::MAX,
        ensures
            r as int == sp_total_size(self.layers@, self.layers@.len() as int),
    {
        proof {
            lemma_total_size_monotone(self.layers@, self.layers@.len() as int);
        }
        let n = self.layers.len();
        let mut total: usize = 0;
        let mut i: usize = 0;
        while i < n
            invariant
                self.wf(),
                n == self.layers@.len(),
                sp_total_size(self.layers@, n as int) <= usize::MAX,
                i <= n,
                total as int == sp_total_size(self.layers@, i as int),
            decreases n - i,
        {
            proof {
                lemma_total_size_monotone(self.layers@, n as int);
                lemma_total_size_step_bound(self.layers@, i as int, n as int);
                self.layers@[i as int].weight.lemma_grid_size();
            }
            let ((rows, cols), blen) = self.layers[i].get_layer_size();
            total = total + rows * cols + blen;
            i = i + 1;
        }
        total
    }

    /// Shifts every layer's parameters by the given amounts.
    #[verifier::rlimit(60)]
    pub fn update_parameters_add(&mut self, weight: &Vec<Tensor<S>>, bias: &Vec<Vec<S>>)
        requires
            old(self).wf(),
            weight@.len() == old(self).layers@.len(),
            bias@.len() == old(self).layers@.len(),
            forall|i: int|
                0 <= i < old(self).layers@.len() ==> (#[trigger] weight@[i]).wf() && weight@[
                    i
                ].sp_is_shape(
                    old(self).layers@[i].weight.sp_rows(),
                    old(self).layers@[i].weight.sp_cols(),
                ),
            forall|i: int|
                0 <= i < old(self).layers@.len() ==> (#[trigger] bias@[i])@.len() == old(
                    self,
                ).layers@[i].bias@.len(),
        ensures
            final(self).wf(),
            final(self).layers@.len() == old(self).layers@.len(),
            forall|k: int, i: int, j: int|
                0 <= k < old(self).layers@.len() && 0 <= i < old(self).layers@[
                    k
                ].weight.sp_rows() && 0 <= j < old(self).layers@[k].weight.sp_cols()
                    ==> #[trigger] final(self).layers@[k].weight.sp_at(i, j) == old(self).layers@[
                    k
                ].weight.sp_at(i, j).sp_add(weight@[k].sp_at(i, j)),
            forall|k: int, j: int|
                0 <= k < old(self).layers@.len() && 0 <= j < old(self).layers@[k].bias@.len()
                    ==> #[trigger] final(self).layers@[k].bias@[j] == old(self).layers@[k].bias@[
                    j
                ].sp_add(bias@[k]@[j]),
    {
        let n = self.layers.len();
        let mut i: usize = 0;
        while i < n
            invariant
                n == self.layers@.len(),
                n == old(self).layers@.len(),
                weight@.len() == n,
                bias@.len() == n,
                forall|k: int|
                    0 <= k < n ==> (#[trigger] weight@[k]).wf() && weight@[k].sp_is_shape(
                        old(self).layers@[k].weight.sp_rows(),
                        old(self).layers@[k].weight.sp_cols(),
                    ),
                forall|k: int|
                    0 <= k < n ==> (#[trigger] bias@[k])@.len() == old(self).layers@[
                        k
                    ].bias@.len(),
                i <= n,
                forall|k: int| 0 <= k < n ==> (#[trigger] old(self).layers@[k]).wf(),
                forall|k: int| i <= k < n ==> self.layers@[k] == old(self).layers@[k],
                forall|k: int| 0 <= k < i ==> (#[trigger] self.layers@[k]).wf(),
                forall|k: int|
                    0 <= k < n ==> (#[trigger] self.layers@[k]).weight.sp_rows() == old(
                        self,
                    ).layers@[k].weight.sp_rows() && self.layers@[k].weight.sp_cols() == old(
                        self,
                    ).layers@[k].weight.sp_cols() && self.layers@[k].bias@.len() == old(
                        self,
                    ).layers@[k].bias@.len(),
                forall|k: int, i2: int, j: int|
                    0 <= k < i && 0 <= i2 < old(self).layers@[k].weight.sp_rows() && 0 <= j < old(
                        self,
                    ).layers@[k].weight.sp_cols() ==> #[trigger] self.layers@[k].weight.sp_at(
                        i2,
                        j,
                    ) == old(self).layers@[k].weight.sp_at(i2, j).sp_add(weight@[k].sp_at(i2, j)),
                forall|k: int, j: int|
                    0 <= k < i && 0 <= j < old(self).layers@[k].bias@.len()
                        ==> #[trigger] self.layers@[k].bias@[j] == old(self).layers@[k].bias@[
                        j
                    ].sp_add(bias@[k]@[j]),
            decreases n - i,
        {
            let layer = &self.layers[i];
            let new_weight = layer.weight.ew_add(&weight[i]);
            let mut new_bias: Vec<S> = Vec::new();
            let blen = layer.bias.len();
            let mut j: usize = 0;
            while j < blen
                invariant
                    i < self.layers@.len(),
                    bias@.len() == self.layers@.len(),
                    (#[trigger] bias@[i as int])@.len() == self.layers@[i as int].bias@.len(),
                    blen == self.layers@[i as int].bias@.len(),
                    j <= blen,
                    new_bias@.len() == j,
                    forall|m: int|
                        0 <= m < j ==> #[trigger] new_bias@[m] == self.layers@[i as int].bias@[
                            m
                        ].sp_add(bias@[i as int]@[m]),
                decreases blen - j,
            {
                new_bias.push(self.layers[i].bias[j].add(bias[i][j]));
                j = j + 1;
            }
            let updated = NeuralNetworkLayer {
                weight: new_weight,
                bias: new_bias,
                activation_function: self.layers[i].activation_function,
            };
            self.layers[i] = updated;
            i = i + 1;
        }
    }
}

/// Prefixes of the parameter count never exceed the whole.
proof fn lemma_total_size_monotone<S: Scalar>(layers: Seq<NeuralNetworkLayer<S>>, n: int)
    ensures
        forall|m: int| 0 <= m <= n ==> #[trigger] sp_total_size(layers, m) <= sp_total_size(
            layers,
            n,
        ),
        n >= 0 ==> sp_total_size(layers, n) >= 0,
    decreases n,
{
    if n > 0 {
        lemma_total_size_monotone(layers, n - 1);
        layers[n - 1].weight.lemma_grid_size();
    }
}

/// One step of the parameter count stays under the whole.
proof fn lemma_total_size_step_bound<S: Scalar>(layers: Seq<NeuralNetworkLayer<S>>, i: int, n: int)
    requires
        0 <= i < n,
    ensures
        sp_total_size(layers, i) + layers[i].weight.sp_rows() * layers[i].weight.sp_cols()
            + layers[i].bias@.len() <= sp_total_size(layers, n),
    decreases n,
{
    if i + 1 == n {
    } else {
        lemma_total_size_step_bound(layers, i, n - 1);
        layers[n - 1].weight.lemma_grid_size();
    }
}

} // verus!
