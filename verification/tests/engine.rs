//! Engine tests over double-precision scalars.

use deep_learning::activation_functions::{max, softmax_array};
use deep_learning::batch_norm::{
    backword_average, backword_broadcast, calc_average_and_broadcast,
    calc_distribute_and_broadcast,
};
use deep_learning::common::{max_index_in_arr1, numeric_diff, numeric_gradient};
use deep_learning::layer::{Layer, Sampler};
use deep_learning::layers::{AddLayer, Layer as ScalarLayer, MulLayer, ValueLayer};
use deep_learning::logical_operators::{and, nand, or};
use deep_learning::loss_functions::{
    crosss_entropy_error, crosss_entropy_error_batch, softmax_batch,
};
use deep_learning::network::{
    Activation, NeuralNetwork as MlpNetwork, NeuralNetworkLayer, NeuralNetworkLayerBuilder,
};
use deep_learning::neural_network::{
    calc_correct_rate, guess_main, LearningParameter, LearningResource, NeuralNetwork,
};
use deep_learning::optimizer::{AdaGrad, Adam, Momentum, OptimizerKind, Rmsprop, Sgd};
use deep_learning::persist::{export_records, import_parameters, LayerTag};
use deep_learning::scalar::Scalar;
use deep_learning::tensor::Tensor;

#[derive(Clone, Copy, PartialEq, Debug)]
struct R64(f64);

impl Scalar for R64 {
    fn sp_zero() -> R64 {
        R64(0.0)
    }
    fn sp_one() -> R64 {
        R64(1.0)
    }
    fn sp_from_u64(n: u64) -> R64 {
        R64(n as f64)
    }
    fn sp_add(self, rhs: R64) -> R64 {
        R64(self.0 + rhs.0)
    }
    fn sp_sub(self, rhs: R64) -> R64 {
        R64(self.0 - rhs.0)
    }
    fn sp_mul(self, rhs: R64) -> R64 {
        R64(self.0 * rhs.0)
    }
    fn sp_div(self, rhs: R64) -> R64 {
        R64(self.0 / rhs.0)
    }
    fn sp_neg(self) -> R64 {
        R64(-self.0)
    }
    fn sp_exp(self) -> R64 {
        R64(std::f64::consts::E.powf(self.0))
    }
    fn sp_ln(self) -> R64 {
        R64(self.0.log(std::f64::consts::E))
    }
    fn sp_sqrt(self) -> R64 {
        R64(self.0.sqrt())
    }
    fn sp_lt(self, rhs: R64) -> bool {
        self.0 < rhs.0
    }
    fn zero() -> R64 {
        R64(0.0)
    }
    fn one() -> R64 {
        R64(1.0)
    }
    fn from_u64(n: u64) -> R64 {
        R64(n as f64)
    }
    fn add(self, rhs: R64) -> R64 {
        R64(self.0 + rhs.0)
    }
    fn sub(self, rhs: R64) -> R64 {
        R64(self.0 - rhs.0)
    }
    fn mul(self, rhs: R64) -> R64 {
        R64(self.0 * rhs.0)
    }
    fn div(self, rhs: R64) -> R64 {
        R64(self.0 / rhs.0)
    }
    fn neg(self) -> R64 {
        R64(-self.0)
    }
    fn exp(self) -> R64 {
        R64(std::f64::consts::E.powf(self.0))
    }
    fn ln(self) -> R64 {
        R64(self.0.log(std::f64::consts::E))
    }
    fn sqrt(self) -> R64 {
        R64(self.0.sqrt())
    }
    fn lt(self, rhs: R64) -> bool {
        self.0 < rhs.0
    }
}

/// A small deterministic generator: uniform draws by a linear congruence,
/// normal draws by the Box-Muller map.
struct TestRng {
    state: u64,
}

impl TestRng {
    fn new(seed: u64) -> TestRng {
        TestRng { state: seed }
    }
    fn next_u64(&mut self) -> u64 {
        self.state = self
            .state
            .wrapping_mul(6364136223846793005)
            .wrapping_add(1442695040888963407);
        self.state
    }
    fn uniform(&mut self) -> f64 {
        (self.next_u64() >> 11) as f64 / (1u64 << 53) as f64
    }
    fn normal(&mut self) -> f64 {
        let mut u1 = self.uniform();
        if u1 <= 0.0 {
            u1 = 1e-12;
        }
        let u2 = self.uniform();
        (-2.0 * u1.ln()).sqrt() * (2.0 * std::f64::consts::PI * u2).cos()
    }
}

impl Sampler<R64> for TestRng {
    fn sample(&mut self) -> R64 {
        R64(self.normal())
    }
    fn sample_keep(&mut self, rate: R64) -> bool {
        self.uniform() > rate.0
    }
    fn sample_index(&mut self, bound: usize) -> usize {
        (self.next_u64() % bound as u64) as usize
    }
}

fn round_digit(num: f64, digit: i32) -> f64 {
    if digit == 0 {
        num.round()
    } else {
        (num * 10.0_f64.powi(-digit)).round() * 10.0_f64.powi(digit)
    }
}

fn t(rows: usize, cols: usize, vals: &[f64]) -> Tensor<R64> {
    assert_eq!(vals.len(), rows * cols);
    let mut data: Vec<Vec<R64>> = Vec::new();
    for i in 0..rows {
        let mut row: Vec<R64> = Vec::new();
        for j in 0..cols {
            row.push(R64(vals[i * cols + j]));
        }
        data.push(row);
    }
    Tensor::new(rows, cols, data).unwrap()
}

fn v(vals: &[f64]) -> Vec<R64> {
    let mut r: Vec<R64> = Vec::new();
    for x in vals {
        r.push(R64(*x));
    }
    r
}

fn flat(t: &Tensor<R64>) -> Vec<f64> {
    let mut r: Vec<f64> = Vec::new();
    for i in 0..t.rows() {
        for j in 0..t.cols() {
            r.push(t.get(i, j).0);
        }
    }
    r
}

fn assert_tensor_rounded(a: &Tensor<R64>, expect: &[f64], digit: i32) {
    let got = flat(a);
    assert_eq!(got.len(), expect.len());
    for k in 0..got.len() {
        assert_eq!(round_digit(got[k], digit), round_digit(expect[k], digit));
    }
}

#[test]
fn test_max() {
    let arr = v(&[0.1, -8.0, 5.0, 10.0]);
    assert_eq!(max(&arr), R64(10.0));
    let arr = v(&[-0.1, -8.0, -2.0]);
    assert_eq!(max(&arr), R64(-0.1));
}

#[test]
fn test_softmax_array_max() {
    let arr = v(&[0.1, -8.0, 5.0, 10.0, 2.0]);
    let a = softmax_array(&arr);
    assert_eq!(max_index_in_arr1(&a), 3);
    let arr = v(&[-0.1, -8.0, -5.0, -10.0, -2.0]);
    let a = softmax_array(&arr);
    assert_eq!(max_index_in_arr1(&a), 0);
}

#[test]
fn test_softmax_array_total() {
    let arr = v(&[0.1, -8.0, 5.0, 10.0, 2.0]);
    let a = softmax_array(&arr);
    let mut sub = 0.0;
    for x in &a {
        sub += x.0;
    }
    assert_eq!(round_digit(sub, -3), 1.0);
    let arr = v(&[-0.1, -8.0, -5.0, -10.0, -2.0]);
    let a = softmax_array(&arr);
    let mut sub = 0.0;
    for x in &a {
        sub += x.0;
    }
    assert_eq!(round_digit(sub, -3), 1.0);
}

#[test]
fn activation_layers_test_forward() {
    let mut rng = TestRng::new(1);
    let value = Layer::value(t(2, 3, &[2.0, -3.0, 0.0, 1.0, 0.1, -0.12345]));
    let mut relu = Layer::relu(value);
    let relu_res = relu.forward(false, &mut rng);
    assert_eq!(flat(&relu_res), vec![2.0, 0.0, 0.0, 1.0, 0.1, 0.0]);
}

#[test]
fn activation_layers_test_backward() {
    let mut rng = TestRng::new(1);
    let value = Layer::value(t(2, 3, &[2.0, -3.0, 0.0, 1.0, 0.1, -0.12345]));
    let mut relu = Layer::relu(value);
    let dout = t(2, 3, &[1.0, 2.0, 3.0, 4.0, 5.0, 6.0]);
    relu.backward(&dout, &mut rng);
}

#[test]
fn activation_layers_test_forward_sigmoid() {
    let mut rng = TestRng::new(1);
    let value = Layer::value(t(2, 3, &[2.0, -3.0, 0.0, 1.0, 0.1, -0.1]));
    let mut sigmoid = Layer::sigmoid(value);
    let sigmoid_res = sigmoid.forward(false, &mut rng);
    assert_tensor_rounded(
        &sigmoid_res,
        &[
            0.88077077,
            0.04742587317,
            0.5,
            0.73105857863,
            0.52497918747,
            0.4750201252,
        ],
        -4,
    );
}

#[test]
fn activation_layers_test_backward_sigmoid() {
    let mut rng = TestRng::new(1);
    let arr2_value = [2.0, -3.0, 0.0, 1.0, 0.1, -0.1];
    let value = Layer::param(
        t(2, 3, &arr2_value),
        OptimizerKind::Sgd(Sgd::new(R64(0.01))),
    );
    let mut sigmoid = Layer::sigmoid(value);
    let dout = t(2, 3, &[1.0, 2.0, 3.0, 4.0, 5.0, 6.0]);
    sigmoid.backward(&dout, &mut rng);
    let x_after = match &sigmoid {
        Layer::Sigmoid { x, .. } => match x.as_ref() {
            Layer::Param { value, .. } => flat(value),
            _ => panic!("unexpected node"),
        },
        _ => panic!("unexpected node"),
    };
    // x - ((1 - f(x)) * f(x) * dout) * learning rate
    let douts = [1.0, 2.0, 3.0, 4.0, 5.0, 6.0];
    for k in 0..6 {
        let fx = 1.0 / (1.0 + std::f64::consts::E.powf(-arr2_value[k]));
        let expect = arr2_value[k] - (1.0 - fx) * fx * douts[k] * 0.01;
        assert_eq!(round_digit(x_after[k], -4), round_digit(expect, -4));
    }
}

#[test]
fn test_new_random() {
    let mut rng = TestRng::new(7);
    let x = Layer::value(t(2, 2, &[1.0, 2.0, 1.0, -2.0]));
    let affine = Layer::affine_random(
        x,
        2,
        10,
        OptimizerKind::Sgd(Sgd::new(R64(0.01))),
        OptimizerKind::Sgd(Sgd::new(R64(0.01))),
        &mut rng,
    );
    match affine {
        Layer::Affine {
            mut x,
            mut w,
            mut b,
            ..
        } => {
            let xv = x.forward(true, &mut rng);
            let wv = w.forward(true, &mut rng);
            let bv = b.forward(true, &mut rng);
            assert_eq!((xv.rows(), xv.cols()), (2, 2));
            assert_eq!((wv.rows(), wv.cols()), (2, 10));
            assert_eq!((bv.rows(), bv.cols()), (1, 10));
        }
        _ => panic!("unexpected node"),
    }
}

#[test]
fn affine_layer_test_forward() {
    let mut rng = TestRng::new(1);
    let x = Layer::value(t(2, 2, &[1.0, 2.0, 1.0, -2.0]));
    let w = Layer::value(t(2, 3, &[0.5, 0.2, 1.5, -1.0, -0.5, 2.0]));
    let b = Layer::value(t(1, 3, &[1.0, 2.0, 1.0]));
    let mut affine = Layer::affine(x, w, b);
    let y = affine.forward(false, &mut rng);
    assert_eq!(flat(&y), vec![-0.5, 1.2, 6.5, 3.5, 3.2, -1.5]);
}

#[test]
fn affine_layer_test_backward() {
    let mut rng = TestRng::new(1);
    let x = Layer::value(t(2, 2, &[1.0, 2.0, 1.0, -2.0]));
    let w = Layer::value(t(2, 3, &[0.5, 0.2, 1.5, -1.0, -0.5, 2.0]));
    let b = Layer::value(t(1, 3, &[1.0, 2.0, 1.0]));
    let mut affine = Layer::affine(x, w, b);
    let dout = t(2, 3, &[1.0, 2.0, -1.0, 10.0, -20.0, 5.0]);
    affine.backward(&dout, &mut rng);
}

#[test]
fn optimizer_update() {
    let mut sgd = Sgd::new(R64(0.1));
    let target = t(2, 3, &[1.0, 2.0, 3.0, 4.0, 5.0, 6.0]);
    let gradient = t(2, 3, &[1.0, 3.0, 5.0, 2.0, 4.0, 6.0]);
    let updated = sgd.update(&target, &gradient);
    assert_eq!(flat(&updated), vec![0.9, 1.7, 2.5, 3.8, 4.6, 5.4]);
}

#[test]
fn optimizer_update_momentum() {
    let mut momentum = Momentum::new(R64(0.1), R64(0.9));
    let target = [1.0, 2.0, 3.0, 4.0, 5.0, 6.0];
    let gradient = [1.0, 3.0, 5.0, 2.0, 4.0, 6.0];
    let updated = momentum.update(&t(2, 3, &target), &t(2, 3, &gradient));
    let mut expect: Vec<f64> = Vec::new();
    for k in 0..6 {
        expect.push(target[k] + gradient[k] * 0.1 * -1.0);
    }
    assert_eq!(flat(&updated), expect);
}

#[test]
fn optimizer_update_rmsprop() {
    let mut rmsprop = Rmsprop::new(R64(0.1), R64(0.9));
    let target = [1.0, 2.0, 3.0, 4.0, 5.0, 6.0];
    let gradient = [1.0, 3.0, 5.0, 2.0, 4.0, 6.0];
    let updated = rmsprop.update(&t(2, 3, &target), &t(2, 3, &gradient));
    let mut velocity = [0.0; 6];
    for k in 0..6 {
        velocity[k] = gradient[k] * gradient[k] * 0.1;
    }
    for k in 0..6 {
        let expect = target[k] - 0.1 / (velocity[k] + 10.0_f64.powi(-6)).sqrt() * gradient[k];
        assert_eq!(
            round_digit(updated.get(k / 3, k % 3).0, -6),
            round_digit(expect, -6)
        );
    }
    let updated = rmsprop.update(&t(2, 3, &target), &t(2, 3, &gradient));
    for k in 0..6 {
        let vel = velocity[k] * 0.9 + gradient[k] * gradient[k] * 0.1;
        let expect = target[k] - 0.1 / (vel + 10.0_f64.powi(-6)).sqrt() * gradient[k];
        assert_eq!(
            round_digit(updated.get(k / 3, k % 3).0, -6),
            round_digit(expect, -6)
        );
    }
}

#[test]
fn optimizer_update_adagrad() {
    let mut adagrad = AdaGrad::new(R64(0.1));
    let target = [1.0, 2.0, 3.0, 4.0, 5.0, 6.0];
    let gradient = [1.0, 3.0, 5.0, 2.0, 4.0, 6.0];
    let updated = adagrad.update(&t(2, 3, &target), &t(2, 3, &gradient));
    let mut sum = [0.0; 6];
    for k in 0..6 {
        sum[k] = gradient[k] * gradient[k];
        let expect = target[k] - 0.1 / (sum[k] + 10.0_f64.powi(-6)).sqrt() * gradient[k];
        assert_eq!(updated.get(k / 3, k % 3).0, expect);
    }
    let updated = adagrad.update(&t(2, 3, &target), &t(2, 3, &gradient));
    for k in 0..6 {
        let s = sum[k] + gradient[k] * gradient[k];
        let expect = target[k] - 0.1 / (s + 10.0_f64.powi(-6)).sqrt() * gradient[k];
        assert_eq!(updated.get(k / 3, k % 3).0, expect);
    }
}

#[test]
fn optimizer_update_adam() {
    let mut adam = Adam::new(R64(0.1), R64(0.9), R64(0.99));
    let target = [1.0, 2.0, 3.0, 4.0, 5.0, 6.0];
    let gradient = [1.0, 3.0, 5.0, 2.0, 4.0, 6.0];
    let updated = adam.update(&t(2, 3, &target), &t(2, 3, &gradient));
    let mut m = [0.0; 6];
    let mut vv = [0.0; 6];
    for k in 0..6 {
        m[k] = 0.1 * gradient[k];
        vv[k] = 0.01 * gradient[k] * gradient[k];
        let m_d = m[k] / (1.0 - 0.9_f64.powf(1.0));
        let v_d = vv[k] / (1.0 - 0.99_f64.powf(1.0));
        let expect = target[k] - 0.1 / (v_d + 10.0_f64.powi(-6)).sqrt() * m_d;
        assert_eq!(
            round_digit(updated.get(k / 3, k % 3).0, -6),
            round_digit(expect, -6)
        );
    }
    let updated = adam.update(&t(2, 3, &target), &t(2, 3, &gradient));
    for k in 0..6 {
        m[k] = m[k] * 0.9 + 0.1 * gradient[k];
        vv[k] = vv[k] * 0.99 + 0.01 * gradient[k] * gradient[k];
        let m_d = m[k] / (1.0 - 0.9_f64.powf(2.0));
        let v_d = vv[k] / (1.0 - 0.99_f64.powf(2.0));
        let expect = target[k] - 0.1 / (v_d + 10.0_f64.powi(-6)).sqrt() * m_d;
        assert_eq!(
            round_digit(updated.get(k / 3, k % 3).0, -6),
            round_digit(expect, -6)
        );
    }
}

#[test]
fn loss_functions_test_crosss_entropy_error() {
    let y1 = v(&[0.1, 0.6, 0.2, 0.1]);
    let y2 = v(&[0.0, 1.0, 0.0, 0.0]);
    let tt = v(&[0.0, 1.0, 0.0, 0.0]);
    let a = crosss_entropy_error(&y1, &tt);
    assert_eq!((a.0 * 1000.0).floor() / 1000.0, 0.51);
    let a = crosss_entropy_error(&y2, &tt);
    assert_eq!((a.0 * 1000.0).floor() / 1000.0, 0.0);
}

#[test]
fn test_softmax() {
    let x = t(2, 4, &[2.0, 5.0, 3.0, 3.0, 0.0, -10.0, 7.0, 12.0]);
    let softmax_res = softmax_batch(&x);
    let all = flat(&softmax_res);
    let row0 = v(&all[0..4]);
    let row1 = v(&all[4..8]);
    assert_eq!(max_index_in_arr1(&row0), 1);
    let sum0: f64 = row0.iter().map(|x| x.0).sum();
    assert_eq!(round_digit(sum0, -4), 1.0);
    assert_eq!(max_index_in_arr1(&row1), 3);
    let sum1: f64 = row1.iter().map(|x| x.0).sum();
    assert_eq!(round_digit(sum1, -4), 1.0);
}

#[test]
fn softmax_with_loss_test_crosss_entropy_error() {
    let x = t(2, 4, &[0.3, 0.1, 0.5, 0.1, 0.0, 0.0, 0.0, 1.0]);
    let tt = t(2, 4, &[0.0, 0.0, 1.0, 0.0, 0.0, 0.0, 0.0, 1.0]);
    let cee_res = crosss_entropy_error_batch(&x, &tt);
    assert_eq!((cee_res.rows(), cee_res.cols()), (2, 1));
    assert_eq!(cee_res.get(0, 0).0, 0.5_f64.log(std::f64::consts::E) * -1.0);
    assert_eq!(cee_res.get(1, 0).0, 1.0_f64.log(std::f64::consts::E) * -1.0);
}

#[test]
fn softmax_with_loss_test_backward() {
    // The upstream node is trainable with a unit learning rate, so the
    // gradient the loss node pushes is readable as old value minus new.
    let mut rng = TestRng::new(1);
    let x_vals = [2.0, 5.0, 3.0, 3.0, 0.0, -10.0, 7.0, 12.0];
    let x = Layer::param(t(2, 4, &x_vals), OptimizerKind::Sgd(Sgd::new(R64(1.0))));
    let tt = [0.0, 0.0, 1.0, 0.0, 0.0, 0.0, 0.0, 1.0];
    let mut loss = Layer::softmax_with_loss(x, t(2, 4, &tt));
    let probs = softmax_batch(&t(2, 4, &x_vals));
    let dout = t(2, 1, &[1.0, -1.0]);
    let _y = loss.forward(true, &mut rng);
    loss.backward(&dout, &mut rng);
    let x_after = match &loss {
        Layer::SoftmaxLoss { x, .. } => match x.as_ref() {
            Layer::Param { value, .. } => flat(value),
            _ => panic!("unexpected node"),
        },
        _ => panic!("unexpected node"),
    };
    let douts = [1.0, -1.0];
    for k in 0..8 {
        let dx = douts[k / 4] * (probs.get(k / 4, k % 4).0 - tt[k]);
        let expect = x_vals[k] - dx;
        assert_eq!(x_after[k], expect);
    }
}

#[test]
fn batch_norm_test_forward() {
    let mut rng = TestRng::new(17);
    let ones = vec![1.0; 100 * 100];
    let zeros_v = vec![0.0; 100 * 100];
    let x = Layer::param(
        t(100, 100, &zeros_v),
        OptimizerKind::Sgd(Sgd::new(R64(0.01))),
    );
    let w = Layer::param(t(100, 100, &ones), OptimizerKind::Sgd(Sgd::new(R64(0.01))));
    let b = Layer::param(
        t(100, 100, &zeros_v),
        OptimizerKind::Sgd(Sgd::new(R64(0.01))),
    );
    let mut batch_norm = Layer::batch_norm(x, w, b);
    let mut batch_vals = Vec::with_capacity(100 * 100);
    for _ in 0..100 * 100 {
        batch_vals.push(rng.uniform() * 2.0 + 1.0);
    }
    batch_norm.set_value(&t(100, 100, &batch_vals));
    let y = batch_norm.forward(false, &mut rng);
    let (average, distribute) = calc_distribute_and_broadcast(&y);
    for j in 0..100 {
        assert_eq!(round_digit(average.get(0, j).0, -5), 0.0);
        assert_eq!(round_digit(distribute.get(0, j).0, -5), 1.0);
    }
}

#[test]
fn test_calc_average_and_broadcast() {
    let x = t(2, 3, &[1.0, 2.0, 3.0, 4.0, 5.0, 6.0]);
    let average = calc_average_and_broadcast(&x);
    assert_eq!(flat(&average), vec![2.5, 3.5, 4.5, 2.5, 3.5, 4.5]);
}

#[test]
fn test_calc_distribute_and_broadcast() {
    let x = t(2, 3, &[1.0, 2.0, 3.0, 5.0, 6.0, 7.0]);
    let (average, distribute) = calc_distribute_and_broadcast(&x);
    assert_eq!(flat(&average), vec![3.0, 4.0, 5.0, 3.0, 4.0, 5.0]);
    assert_eq!(flat(&distribute), vec![4.0, 4.0, 4.0, 4.0, 4.0, 4.0]);
}

#[test]
fn test_backword_average() {
    let x = t(1, 3, &[3.0, 6.0, 9.0]);
    let y = backword_average(&x, 3);
    assert_eq!(flat(&y), vec![1.0, 2.0, 3.0, 1.0, 2.0, 3.0, 1.0, 2.0, 3.0]);
}

#[test]
fn test_backword_broadcast() {
    let x = t(3, 3, &[1.0, 2.0, 3.0, 4.0, 5.0, 6.0, 7.0, 8.0, 9.0]);
    let y = backword_broadcast(&x);
    assert_eq!(flat(&y), vec![12.0, 15.0, 18.0]);
}

#[test]
fn layers_test_forward() {
    let mut value: ValueLayer<R64, _, _> = ValueLayer::new(R64(0.6));
    assert_eq!(value.forward(), R64(0.6));
    assert_eq!(value.z, R64(0.6));
}

#[test]
fn layers_test_backward() {
    let mut value: ValueLayer<R64, _, _> = ValueLayer::new(R64(0.6));
    let diffs = value.backward(R64(3.0), Vec::new());
    assert_eq!(diffs.len(), 1);
    assert_eq!(diffs[0], R64(3.0));
}

#[test]
fn layers_test_forward_mul() {
    let v1: ValueLayer<R64, _, _> = ValueLayer::new(R64(2.0));
    let v2: ValueLayer<R64, _, _> = ValueLayer::new(R64(5.0));
    let m1 = MulLayer::new(v1, v2);
    let v3: ValueLayer<R64, _, _> = ValueLayer::new(R64(3.0));
    let v4: ValueLayer<R64, _, _> = ValueLayer::new(R64(4.0));
    let m2 = MulLayer::new(v3, v4);
    let mut m3 = MulLayer::new(m1, m2);
    assert_eq!(m3.forward(), R64(120.0));
    assert_eq!(m3.z.unwrap(), R64(120.0));
}

#[test]
fn layers_test_backward_mul() {
    let v1: ValueLayer<R64, _, _> = ValueLayer::new(R64(2.0));
    let v2: ValueLayer<R64, _, _> = ValueLayer::new(R64(5.0));
    let m1 = MulLayer::new(v1, v2);
    let v3: ValueLayer<R64, _, _> = ValueLayer::new(R64(3.0));
    let v4: ValueLayer<R64, _, _> = ValueLayer::new(R64(4.0));
    let m2 = MulLayer::new(v3, v4);
    let mut m3 = MulLayer::new(m1, m2);
    let diffs = m3.backward(R64(3.0), Vec::new());
    assert_eq!(diffs.len(), 4);
    assert_eq!(diffs[0], R64(60.0 * 3.0));
    assert_eq!(diffs[1], R64(24.0 * 3.0));
    assert_eq!(diffs[2], R64(40.0 * 3.0));
    assert_eq!(diffs[3], R64(30.0 * 3.0));
}

#[test]
fn layers_test_forward_add() {
    let v1: ValueLayer<R64, _, _> = ValueLayer::new(R64(2.0));
    let v2: ValueLayer<R64, _, _> = ValueLayer::new(R64(5.0));
    let m1 = AddLayer::new(v1, v2);
    let v3: ValueLayer<R64, _, _> = ValueLayer::new(R64(3.0));
    let v4: ValueLayer<R64, _, _> = ValueLayer::new(R64(4.0));
    let m2 = AddLayer::new(v3, v4);
    let mut m3 = AddLayer::new(m1, m2);
    assert_eq!(m3.forward(), R64(14.0));
    assert_eq!(m3.z.unwrap(), R64(14.0));
}

#[test]
fn layers_test_backward_add() {
    let v1: ValueLayer<R64, _, _> = ValueLayer::new(R64(2.0));
    let v2: ValueLayer<R64, _, _> = ValueLayer::new(R64(5.0));
    let m1 = AddLayer::new(v1, v2);
    let v3: ValueLayer<R64, _, _> = ValueLayer::new(R64(3.0));
    let v4: ValueLayer<R64, _, _> = ValueLayer::new(R64(4.0));
    let m2 = AddLayer::new(v3, v4);
    let mut m3 = AddLayer::new(m1, m2);
    let diffs = m3.backward(R64(3.0), Vec::new());
    assert_eq!(diffs.len(), 4);
    for k in 0..4 {
        assert_eq!(diffs[k], R64(3.0));
    }
}

fn zeros(rows: usize, cols: usize) -> Tensor<R64> {
    let vals = vec![0.0; rows * cols];
    t(rows, cols, &vals)
}

#[test]
fn test_set_input() {
    let mut rng = TestRng::new(3);
    let x = Layer::value(zeros(200, 28 * 28));
    let affine = Layer::affine_random(
        x,
        28 * 28,
        10,
        OptimizerKind::Sgd(Sgd::new(R64(0.01))),
        OptimizerKind::Sgd(Sgd::new(R64(0.01))),
        &mut rng,
    );
    let loss = Layer::softmax_with_loss(affine, zeros(200, 10));
    let mut nn = NeuralNetwork::new(loss);
    nn.set_input(&zeros(200, 28 * 28));
}

#[test]
fn test_set_lbl() {
    let mut rng = TestRng::new(3);
    let x = Layer::value(zeros(200, 28 * 28));
    let affine = Layer::affine_random(
        x,
        28 * 28,
        10,
        OptimizerKind::Sgd(Sgd::new(R64(0.01))),
        OptimizerKind::Sgd(Sgd::new(R64(0.01))),
        &mut rng,
    );
    let loss = Layer::softmax_with_loss(affine, zeros(200, 10));
    let mut nn = NeuralNetwork::new(loss);
    nn.set_lbl(&zeros(200, 10));
}

#[test]
fn dropout_inference_determinism() {
    // At inference time the dropout node scales deterministically: repeated
    // forward passes give bit-identical results with no randomness.
    let mut rng = TestRng::new(99);
    let x_vals = [2.0, -3.0, 0.5, 1.0, 0.25, -0.125];
    let value = Layer::value(t(2, 3, &x_vals));
    let mut drop = Layer::dropout(value, R64(0.25));
    let y1 = drop.forward(false, &mut rng);
    let y2 = drop.forward(false, &mut rng);
    let y3 = drop.forward(false, &mut rng);
    for k in 0..6 {
        let expect = x_vals[k] * (1.0 - 0.25);
        assert_eq!(y1.get(k / 3, k % 3).0, expect);
        assert_eq!(y2.get(k / 3, k % 3).0, y1.get(k / 3, k % 3).0);
        assert_eq!(y3.get(k / 3, k % 3).0, y1.get(k / 3, k % 3).0);
    }
}

#[test]
fn cache_invalidation_recomputes() {
    // After set_value, a forward pass must reflect the new input, not a
    // stale cache; without a mutation, a second forward returns the cache.
    let mut rng = TestRng::new(5);
    let value = Layer::value(t(2, 2, &[1.0, -1.0, 2.0, -2.0]));
    let mut relu = Layer::relu(value);
    let y1 = relu.forward(false, &mut rng);
    assert_eq!(flat(&y1), vec![1.0, 0.0, 2.0, 0.0]);
    relu.set_value(&t(2, 2, &[-5.0, 6.0, -7.0, 8.0]));
    let y2 = relu.forward(false, &mut rng);
    assert_eq!(flat(&y2), vec![0.0, 6.0, 0.0, 8.0]);
    let y3 = relu.forward(false, &mut rng);
    assert_eq!(flat(&y3), flat(&y2));
}

#[test]
fn logical_gates_truth_table() {
    for (a, b) in [(0.0, 0.0), (0.0, 1.0), (1.0, 0.0), (1.0, 1.0)] {
        let x = v(&[a, b]);
        let and_expect = if a == 1.0 && b == 1.0 { 1.0 } else { 0.0 };
        let or_expect = if a == 1.0 || b == 1.0 { 1.0 } else { 0.0 };
        assert_eq!(and(&x).0, and_expect);
        assert_eq!(nand(&x).0, 1.0 - and_expect);
        assert_eq!(or(&x).0, or_expect);
    }
}

#[test]
fn learn_histories() {
    // A tiny end-to-end run: the histories hold one entry per iteration
    // plus the initial evaluation, and training moves the parameters.
    let mut rng = TestRng::new(11);
    let batch = 4;
    let x = Layer::value(zeros(batch, 3));
    let affine = Layer::affine_random(
        x,
        3,
        2,
        OptimizerKind::Sgd(Sgd::new(R64(0.1))),
        OptimizerKind::Sgd(Sgd::new(R64(0.1))),
        &mut rng,
    );
    let loss = Layer::softmax_with_loss(affine, zeros(batch, 2));
    let mut nn = NeuralNetwork::new(loss);
    let trn_vals = [
        0.0, 0.1, 0.9, 0.8, 0.1, 0.0, 0.1, 0.0, 0.7, 0.9, 0.2, 0.1, 0.2, 0.1, 0.8, 0.7, 0.3, 0.1,
    ];
    let trn_lbl = [1.0, 0.0, 0.0, 1.0, 1.0, 0.0, 0.0, 1.0, 1.0, 0.0, 0.0, 1.0];
    let resource = LearningResource {
        trn_data: t(6, 3, &trn_vals),
        trn_lbl_onehot: t(6, 2, &trn_lbl),
        tst_data: t(6, 3, &trn_vals),
        tst_lbl_onehot: t(6, 2, &trn_lbl),
    };
    let parameter = LearningParameter {
        batch_size: batch,
        iterations_num: 3,
    };
    let (rates, losses, rates_o, losses_o) = nn.learn(parameter, resource, &mut rng);
    assert_eq!(rates.len(), 4);
    assert_eq!(losses.len(), 4);
    assert_eq!(rates_o.len(), 4);
    assert_eq!(losses_o.len(), 4);
}

#[test]
fn guess_main_evaluates() {
    let mut rng = TestRng::new(13);
    let batch = 4;
    let x = Layer::value(zeros(batch, 3));
    let affine = Layer::affine_random(
        x,
        3,
        2,
        OptimizerKind::Sgd(Sgd::new(R64(0.1))),
        OptimizerKind::Sgd(Sgd::new(R64(0.1))),
        &mut rng,
    );
    let loss = Layer::softmax_with_loss(affine, zeros(batch, 2));
    let mut nn = NeuralNetwork::new(loss);
    let data = [
        0.0, 0.1, 0.9, 0.8, 0.1, 0.0, 0.1, 0.0, 0.7, 0.9, 0.2, 0.1, 0.2, 0.1, 0.8, 0.7, 0.3, 0.1,
    ];
    let lbl = [1.0, 0.0, 0.0, 1.0, 1.0, 0.0, 0.0, 1.0, 1.0, 0.0, 0.0, 1.0];
    let (loss_v, rate) = guess_main(&mut nn, batch, &t(6, 3, &data), &t(6, 2, &lbl), &mut rng);
    assert!(loss_v.0.is_finite());
    assert!(rate.0 >= 0.0 && rate.0 <= 1.0);
}

#[test]
fn test_convolution_new_random() {
    let mut rng = TestRng::new(1);
    let x = Layer::value(t(1, 3, &[1.0, 2.0, 3.0]));
    // 28x28 image, 3x3 filter, stride 3, one pixel of padding: a hundred
    // window positions, and as many filters.
    let conv = Layer::convolution_random(
        x,
        OptimizerKind::Sgd(Sgd::new(R64(0.01))),
        OptimizerKind::Sgd(Sgd::new(R64(0.01))),
        100,
        3,
        28,
        28,
        3,
        3,
        3,
        1,
        &mut rng,
    );
    match conv {
        Layer::Convolution {
            mut filter,
            mut bias,
            ..
        } => {
            let filter_value = filter.forward(true, &mut rng);
            let bias_value = bias.forward(true, &mut rng);
            assert_eq!((filter_value.rows(), filter_value.cols()), (100, 27));
            assert_eq!((bias_value.rows(), bias_value.cols()), (100, 1));
            let (f_avg, f_std) = standard_deviation(&flat(&filter_value));
            let (b_avg, b_std) = standard_deviation(&flat(&bias_value));
            assert_eq!(round_digit(f_avg, -1), 0.0);
            assert_eq!(round_digit(f_std, -1), 1.0);
            assert_eq!(round_digit(b_avg, -1), 0.0);
            assert_eq!(round_digit(b_std, -3), 0.01);
        }
        _ => panic!("unexpected node"),
    }
}

fn standard_deviation(vals: &[f64]) -> (f64, f64) {
    let n = vals.len() as f64;
    let avg: f64 = vals.iter().sum::<f64>() / n;
    let var: f64 = vals.iter().map(|x| (x - avg) * (x - avg)).sum::<f64>() / n;
    (avg, var.sqrt())
}

#[test]
fn calc_correct_rate_exact() {
    let result = t(2, 3, &[0.9, 0.1, 0.0, 0.2, 0.3, 0.5]);
    let lbl = t(2, 3, &[1.0, 0.0, 0.0, 0.0, 1.0, 0.0]);
    let rate = calc_correct_rate(&result, &lbl);
    assert_eq!(rate.0, 0.5);
}

fn mlp_layer(
    rows: usize,
    cols: usize,
    w: &[f64],
    b: &[f64],
    activation: Activation,
) -> NeuralNetworkLayer<R64> {
    NeuralNetworkLayer {
        weight: t(rows, cols, w),
        bias: v(b),
        activation_function: activation,
    }
}

fn unwrap_f64(xs: &[R64]) -> Vec<f64> {
    xs.iter().map(|x| x.0).collect()
}

#[test]
#[allow(non_snake_case)]
fn NeuralNetwork_new() {
    let mut rng = TestRng::new(2);
    let a: MlpNetwork<R64> = MlpNetwork::new(
        10,
        vec![
            NeuralNetworkLayerBuilder::new(80, Activation::Identity),
            NeuralNetworkLayerBuilder::new(40, Activation::Identity),
            NeuralNetworkLayerBuilder::new(20, Activation::Identity),
        ],
        &mut rng,
    );
    assert_eq!((a.layers[0].weight.rows(), a.layers[0].weight.cols()), (10, 80));
    assert_eq!(a.layers[0].bias.len(), 80);
    assert_eq!(a.layers[0].activation_function, Activation::Identity);
    assert_eq!((a.layers[1].weight.rows(), a.layers[1].weight.cols()), (80, 40));
    assert_eq!(a.layers[1].bias.len(), 40);
    assert_eq!(a.layers[1].activation_function, Activation::Identity);
    assert_eq!((a.layers[2].weight.rows(), a.layers[2].weight.cols()), (40, 20));
    assert_eq!(a.layers[2].bias.len(), 20);
    assert_eq!(a.layers[2].activation_function, Activation::Identity);
}

#[test]
#[allow(non_snake_case)]
fn NeuralNetwork_forward() {
    let a = MlpNetwork {
        layers: vec![
            mlp_layer(2, 3, &[1.0, 2.0, 3.0, 4.0, 5.0, 6.0], &[2.0, 2.0, 2.0], Activation::Identity),
            mlp_layer(3, 2, &[1.0, 2.0, 3.0, 4.0, 5.0, 6.0], &[1.0, 1.0], Activation::Identity),
            mlp_layer(2, 3, &[1.0, 3.0, 5.0, 2.0, 4.0, 6.0], &[1.0, 1.0, 1.0], Activation::Identity),
        ],
    };
    let a = a.forward(&v(&[1.0, 2.0]));
    assert_eq!(unwrap_f64(&a), vec![502.0, 1142.0, 1782.0]);
}

#[test]
#[allow(non_snake_case)]
fn NeuralNetwork_forward_diff() {
    let a = MlpNetwork {
        layers: vec![
            mlp_layer(2, 3, &[0.0, 1.0, 2.0, 3.0, 4.0, 5.0], &[0.0, 0.0, 0.0], Activation::Identity),
            mlp_layer(3, 2, &[0.0, 1.0, 2.0, 3.0, 4.0, 5.0], &[-1.0, -1.0], Activation::Identity),
            mlp_layer(2, 3, &[0.0, 2.0, 4.0, 1.0, 3.0, 5.0], &[-1.0, -1.0, -1.0], Activation::Identity),
        ],
    };
    let ones23 = vec![1.0; 6];
    let ones32 = vec![1.0; 6];
    let a = a.forward_diff(
        &v(&[1.0, 2.0]),
        &vec![t(2, 3, &ones23), t(3, 2, &ones32), t(2, 3, &ones23)],
        &vec![v(&[2.0, 2.0, 2.0]), v(&[2.0, 2.0]), v(&[2.0, 2.0, 2.0])],
    );
    assert_eq!(unwrap_f64(&a), vec![502.0, 1142.0, 1782.0]);
}

#[test]
#[allow(non_snake_case)]
fn NeuralNetwork_get_network_size() {
    let mut rng = TestRng::new(2);
    let a: MlpNetwork<R64> = MlpNetwork::new(
        10,
        vec![
            NeuralNetworkLayerBuilder::new(80, Activation::Identity),
            NeuralNetworkLayerBuilder::new(40, Activation::Identity),
            NeuralNetworkLayerBuilder::new(20, Activation::Identity),
        ],
        &mut rng,
    );
    let a = a.get_network_size();
    assert_eq!(a, vec![((10, 80), 80), ((80, 40), 40), ((40, 20), 20)]);
}

#[test]
#[allow(non_snake_case)]
fn NeuralNetwork_get_network_total_size() {
    let mut rng = TestRng::new(2);
    let a: MlpNetwork<R64> = MlpNetwork::new(
        10,
        vec![
            NeuralNetworkLayerBuilder::new(80, Activation::Identity),
            NeuralNetworkLayerBuilder::new(40, Activation::Identity),
            NeuralNetworkLayerBuilder::new(20, Activation::Identity),
        ],
        &mut rng,
    );
    let a = a.get_network_total_tize();
    assert_eq!(a, ((10 * 80) + 80) + ((80 * 40) + 40) + ((40 * 20) + 20));
}

#[test]
#[allow(non_snake_case)]
fn NeuralNetworkLayerBuilder_new() {
    let mut rng = TestRng::new(2);
    let mut a = NeuralNetworkLayerBuilder::new(10, Activation::Identity);
    a.set_input_len(5);
    let a: NeuralNetworkLayer<R64> = a.build(&mut rng);
    assert_eq!((a.weight.rows(), a.weight.cols()), (5, 10));
    assert_eq!(a.bias.len(), 10);
    assert_eq!(a.activation_function, Activation::Identity);
}

#[test]
#[allow(non_snake_case)]
fn NeuralNetworkLayer_new() {
    let mut rng = TestRng::new(2);
    let a: NeuralNetworkLayer<R64> =
        NeuralNetworkLayer::new(10, 20, Activation::Identity, &mut rng);
    assert_eq!((a.weight.rows(), a.weight.cols()), (10, 20));
    assert_eq!(a.bias.len(), 20);
    assert_eq!(a.activation_function, Activation::Identity);
}

#[test]
#[allow(non_snake_case)]
fn NeuralNetworkLayer_forward() {
    let nnl = mlp_layer(
        2,
        3,
        &[1.0, 2.0, 3.0, 4.0, 5.0, 6.0],
        &[7.0, 8.0, 9.0],
        Activation::Identity,
    );
    let a = nnl.forward(&v(&[2.0, 4.0]));
    assert_eq!(unwrap_f64(&a), vec![25.0, 32.0, 39.0]);
}

#[test]
#[allow(non_snake_case)]
fn NeuralNetworkLayer_forward_diff() {
    let nnl = mlp_layer(
        2,
        3,
        &[0.0, 1.0, 2.0, 3.0, 4.0, 5.0],
        &[6.0, 7.0, 8.0],
        Activation::Identity,
    );
    let a = nnl.forward_diff(
        &v(&[2.0, 4.0]),
        &t(2, 3, &[1.0, 1.0, 1.0, 1.0, 1.0, 1.0]),
        &v(&[1.0, 1.0, 1.0]),
    );
    assert_eq!(unwrap_f64(&a), vec![25.0, 32.0, 39.0]);
}

#[test]
#[allow(non_snake_case)]
fn NeuralNetworkLayer_get_layer_size() {
    let nnl = mlp_layer(
        2,
        3,
        &[0.0, 1.0, 2.0, 3.0, 4.0, 5.0],
        &[6.0, 7.0, 8.0],
        Activation::Identity,
    );
    assert_eq!(nnl.get_layer_size(), ((2, 3), 3));
}

#[test]
#[allow(non_snake_case)]
fn NeuralNetworkLayer_update_parameters_add() {
    let mut nnl = mlp_layer(
        2,
        3,
        &[0.0, 1.0, 2.0, 3.0, 4.0, 5.0],
        &[6.0, 7.0, 8.0],
        Activation::Identity,
    );
    nnl.update_parameters_add(
        &t(2, 3, &[1.0, 1.0, 1.0, 1.0, 1.0, 1.0]),
        &v(&[1.0, 1.0, 1.0]),
    );
    assert_eq!(flat(&nnl.weight), vec![1.0, 2.0, 3.0, 4.0, 5.0, 6.0]);
    assert_eq!(unwrap_f64(&nnl.bias), vec![7.0, 8.0, 9.0]);
}

#[test]
fn dropout_training_applies_mask() {
    // With a keep-everything rate the training mask is all ones; with a
    // drop-everything rate it is all zeros.
    let mut rng = TestRng::new(31);
    let x_vals = [1.5, -2.5, 3.5, -4.5];
    let value = Layer::value(t(2, 2, &x_vals));
    let mut keep_all = Layer::dropout(value, R64(-1.0));
    let y = keep_all.forward(true, &mut rng);
    assert_eq!(flat(&y), x_vals.to_vec());
    let value = Layer::value(t(2, 2, &x_vals));
    let mut drop_all = Layer::dropout(value, R64(2.0));
    let y = drop_all.forward(true, &mut rng);
    assert_eq!(flat(&y), vec![0.0, 0.0, 0.0, 0.0]);
}

#[test]
fn test_numeric_gradient() {
    let x = v(&[0.0, 1.0, 2.0, 3.0, 4.0]);
    let f = |x: &Vec<R64>| -> R64 {
        let mut y = 0.0;
        for i in 0..x.len() {
            y += x[i].0 * x[i].0;
        }
        R64(y)
    };
    let grad = numeric_gradient(f, &x);
    let rounded: Vec<f64> = grad.iter().map(|g| (g.0 * 1000.0).round() / 1000.0).collect();
    assert_eq!(rounded, vec![0.0, 2.0, 4.0, 6.0, 8.0]);
}

#[test]
fn test_numeric_gradient2() {
    // Find the minimum of y = x[0]^2 + x[1]^2 by descending the numeric
    // gradient.
    let mut x = [3.0, 4.0];
    for _ in 0..100 {
        let xc = x;
        let f = move |diff: &Vec<R64>| -> R64 {
            let a0 = xc[0] + diff[0].0;
            let a1 = xc[1] + diff[1].0;
            R64(a0 * a0 + a1 * a1)
        };
        println!("Y {}", f(&v(&[0.0, 0.0])).0);
        let grad = numeric_gradient(f, &v(&[0.0, 0.0]));
        x[0] -= grad[0].0 * 0.05;
        x[1] -= grad[1].0 * 0.05;
        println!("Grad {:?}", grad);
        println!("X {:?}", x);
    }
}

#[test]
fn numeric_diff_exact() {
    // The central difference of a linear map recovers its slope exactly.
    let f = |x: R64| -> R64 { R64(3.0 * x.0 + 1.0) };
    let d = numeric_diff(f, R64(2.0));
    assert_eq!((d.0 * 1000.0).round() / 1000.0, 3.0);
}

#[test]
fn persist_round_trip() {
    // Exporting a graph and importing its leaf tensors into a freshly
    // built graph of the same architecture reproduces its forward output.
    let mut rng = TestRng::new(41);
    let build = |rng: &mut TestRng| -> Layer<R64> {
        let x = Layer::value(t(2, 2, &[1.0, 2.0, 1.0, -2.0]));
        Layer::affine_random(
            x,
            2,
            3,
            OptimizerKind::Sgd(Sgd::new(R64(0.1))),
            OptimizerKind::Sgd(Sgd::new(R64(0.1))),
            rng,
        )
    };
    let mut original = build(&mut rng);
    let y_before = original.forward(false, &mut rng);
    let records = export_records(original);
    assert_eq!(records.len(), 4);
    assert_eq!(records[0].tag, LayerTag::Affine);
    let mut values = Vec::new();
    for record in records {
        if let Some(v) = record.value {
            values.push(v);
        }
    }
    assert_eq!(values.len(), 3);
    let fresh = build(&mut rng);
    let mut reloaded = import_parameters(fresh, &values).expect("matching architecture");
    let y_after = reloaded.forward(false, &mut rng);
    assert_eq!(flat(&y_before), flat(&y_after));
}

#[test]
fn persist_rejects_misshapen_values() {
    let mut rng = TestRng::new(43);
    let x = Layer::value(t(2, 2, &[1.0, 2.0, 1.0, -2.0]));
    let graph = Layer::affine_random(
        x,
        2,
        3,
        OptimizerKind::Sgd(Sgd::new(R64(0.1))),
        OptimizerKind::Sgd(Sgd::new(R64(0.1))),
        &mut rng,
    );
    // Too few values for the three leaves.
    let values = vec![t(2, 3, &[0.0; 6])];
    assert!(import_parameters(graph, &values).is_none());
}
