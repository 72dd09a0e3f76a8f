//! Window-geometry tests over exact integer scalars.

use deep_learning::convolution::{broadcast_rows, im2col, pad_array4, Tensor4};
use deep_learning::layer::{Layer, Sampler};
use deep_learning::neural_network::make_minibatch_data;
use deep_learning::scalar::Scalar;
use deep_learning::tensor::Tensor;

struct FixedSampler {
    state: u64,
}

impl Sampler<i64> for FixedSampler {
    fn sample(&mut self) -> i64 {
        self.state = self
            .state
            .wrapping_mul(6364136223846793005)
            .wrapping_add(1442695040888963407);
        (self.state >> 33) as i64 % 7
    }
    fn sample_keep(&mut self, _rate: i64) -> bool {
        true
    }
    fn sample_index(&mut self, bound: usize) -> usize {
        self.state = self
            .state
            .wrapping_mul(6364136223846793005)
            .wrapping_add(1442695040888963407);
        (self.state % bound as u64) as usize
    }
}

fn ti(rows: usize, cols: usize, vals: &[i64]) -> Tensor<i64> {
    assert_eq!(vals.len(), rows * cols);
    let mut data: Vec<Vec<i64>> = Vec::new();
    for i in 0..rows {
        let mut row: Vec<i64> = Vec::new();
        for j in 0..cols {
            row.push(vals[i * cols + j]);
        }
        data.push(row);
    }
    Tensor::new(rows, cols, data).unwrap()
}

fn flati(t: &Tensor<i64>) -> Vec<i64> {
    let mut r: Vec<i64> = Vec::new();
    for i in 0..t.rows() {
        for j in 0..t.cols() {
            r.push(t.get(i, j));
        }
    }
    r
}

#[test]
fn test_convolution_im2col() {
    // A 2-batch, 2-channel 7x7 input whose value at (b, c, y, x) reads
    // (2b + c) * 100 + 10y + x + 1, matching digits to coordinates.
    let mut vals: Vec<i64> = Vec::new();
    for b in 0..2i64 {
        for c in 0..2i64 {
            for y in 0..7i64 {
                for x in 0..7i64 {
                    vals.push((b * 2 + c) * 100 + y * 10 + x + 1);
                }
            }
        }
    }
    let data = ti(2, 98, &vals);
    let t4 = Tensor4::from_matrix(&data, 2, 7, 7).unwrap();
    let col = im2col(&t4, 3, 3, 2, 0);
    assert_eq!((col.rows(), col.cols()), (18, 18));
    // First row: the window at the origin of batch 0, channel-major.
    let mut first: Vec<i64> = Vec::new();
    for j in 0..18 {
        first.push(col.get(0, j));
    }
    assert_eq!(
        first,
        vec![1, 2, 3, 11, 12, 13, 21, 22, 23, 101, 102, 103, 111, 112, 113, 121, 122, 123]
    );
    // Every row (b, sh, sw): filter cell (c, fy, fx) sees the pixel at
    // (2 sh + fy, 2 sw + fx) of channel c.
    for b in 0..2i64 {
        for sh in 0..3i64 {
            for sw in 0..3i64 {
                for c in 0..2i64 {
                    for fy in 0..3i64 {
                        for fx in 0..3i64 {
                            let row = ((b * 3 + sh) * 3 + sw) as usize;
                            let coli = ((c * 3 + fy) * 3 + fx) as usize;
                            let expect = (b * 2 + c) * 100 + (sh * 2 + fy) * 10 + (sw * 2 + fx)
                                + 1;
                            assert_eq!(col.get(row, coli), expect);
                        }
                    }
                }
            }
        }
    }
}

#[test]
fn test_convolution_pad_array4() {
    let vals: Vec<i64> = vec![
        1, 2, 3, 4, 5, 6, 7, 8, 9, //
        9, 8, 7, 6, 5, 4, 3, 2, 1, //
        11, 12, 13, 14, 15, 16, 17, 18, 19, //
        19, 18, 17, 16, 15, 14, 13, 12, 11,
    ];
    let data2 = ti(2, 18, &vals);
    let data = Tensor4::from_matrix(&data2, 2, 3, 3).unwrap();
    let padded = pad_array4(&data, 1, 2, 2, 1, 1, 2, 2, 1);
    // Shape grows to (5, 5, 6, 6); the original block sits at offsets
    // (1, 2, 1, 2) and everything else is zero.
    for i in 0..5usize {
        for j in 0..5usize {
            for k in 0..6usize {
                for l in 0..6usize {
                    let inside = (1..3).contains(&i)
                        && (2..4).contains(&j)
                        && (1..4).contains(&k)
                        && (2..5).contains(&l);
                    let expect = if inside {
                        data.get4(i - 1, j - 2, k - 1, l - 2)
                    } else {
                        0
                    };
                    assert_eq!(padded.get4(i, j, k, l), expect);
                }
            }
        }
    }
}

#[test]
fn test_convolution_broadcast_rows() {
    let data = ti(3, 2, &[1, 2, 2, 3, 3, 4]);
    let b = broadcast_rows(&data, 6);
    assert_eq!(flati(&b), vec![1, 2, 2, 3, 3, 4, 1, 2, 2, 3, 3, 4]);
}

#[test]
fn test_pooling_forward() {
    let mut rng = FixedSampler { state: 1 };
    let vals: Vec<i64> = vec![
        1, 2, 3, 4, 5, 6, //
        11, 12, 13, 14, 15, 16, //
        21, 22, 23, 24, 25, 26, //
        31, 32, 33, 34, 35, 36, //
        41, 42, 43, 44, 45, 46, //
        51, 52, 53, 54, 55, 56, //
        101, 102, 103, 104, 105, 106, //
        111, 112, 113, 114, 115, 116, //
        121, 122, 123, 124, 125, 126, //
        131, 132, 133, 134, 135, 136, //
        141, 142, 143, 144, 145, 146, //
        151, 152, 153, 154, 155, 156, //
        201, 202, 203, 204, 205, 306, //
        211, 212, 213, 214, 215, 316, //
        221, 222, 223, 224, 225, 326, //
        231, 232, 233, 234, 235, 336, //
        241, 242, 243, 244, 245, 346, //
        251, 252, 253, 254, 255, 356, //
        401, 402, 403, 404, 405, 406, //
        411, 412, 413, 414, 415, 416, //
        421, 422, 423, 424, 425, 426, //
        431, 432, 433, 434, 435, 436, //
        441, 442, 443, 444, 445, 446, //
        451, 452, 453, 454, 455, 456,
    ];
    let value = Layer::value(ti(2, 72, &vals));
    let mut pool = Layer::pooling(value, 2, 6, 6, 2, 2, 2, 0);
    let y = pool.forward(false, &mut rng);
    assert_eq!(
        flati(&y),
        vec![
            12, 14, 16, //
            32, 34, 36, //
            52, 54, 56, //
            112, 114, 116, //
            132, 134, 136, //
            152, 154, 156, //
            212, 214, 316, //
            232, 234, 336, //
            252, 254, 356, //
            412, 414, 416, //
            432, 434, 436, //
            452, 454, 456,
        ]
    );
}

/// The convolution semantics spelled out window by window: for each batch
/// element, filter and window position, multiply the filter block with the
/// padded image block, sum, and add the filter's bias.
fn verification_forward(
    x: &[i64],
    filter: &[i64],
    bias: &[i64],
    x_shape: (usize, usize, usize, usize),
    filter_shape: (usize, usize, usize, usize),
    stride: usize,
    pad: usize,
) -> Vec<i64> {
    let (x_b, x_c, x_h, x_w) = x_shape;
    let (f_n, f_c, f_h, f_w) = filter_shape;
    let oh = (x_h + 2 * pad - f_h) / stride + 1;
    let ow = (x_w + 2 * pad - f_w) / stride + 1;
    let read = |b: usize, c: usize, y: isize, xx: isize| -> i64 {
        if y < pad as isize
            || y >= (pad + x_h) as isize
            || xx < pad as isize
            || xx >= (pad + x_w) as isize
        {
            0
        } else {
            let yy = y as usize - pad;
            let xw = xx as usize - pad;
            x[((b * x_c + c) * x_h + yy) * x_w + xw]
        }
    };
    let mut out: Vec<i64> = Vec::new();
    for b in 0..x_b {
        for f in 0..f_n {
            for sh in 0..oh {
                for sw in 0..ow {
                    let mut acc: i64 = 0;
                    for c in 0..f_c {
                        for fy in 0..f_h {
                            for fx in 0..f_w {
                                let weight = filter[(f * f_c + c) * f_h * f_w + fy * f_w + fx];
                                let pix =
                                    read(b, c, (sh * stride + fy) as isize, (sw * stride + fx)
                                        as isize);
                                acc += weight * pix;
                            }
                        }
                    }
                    out.push(acc + bias[f]);
                }
            }
        }
    }
    out
}

#[test]
fn test_convolution_forward() {
    let mut rng = FixedSampler { state: 1 };
    let x_vals: Vec<i64> = vec![
        1, 2, 3, 4, 5, 6, 7, //
        11, 12, 13, 14, 15, 16, 17, //
        21, 22, 23, 24, 25, 26, 27, //
        31, 32, 33, 34, 35, 36, 37, //
        41, 42, 43, 44, 45, 46, 47, //
        51, 52, 53, 54, 55, 56, 57, //
        61, 62, 63, 64, 65, 66, 67, //
        101, 102, 103, 104, 105, 106, 107, //
        111, 112, 113, 114, 115, 116, 117, //
        121, 122, 123, 124, 125, 126, 127, //
        131, 132, 133, 134, 135, 136, 137, //
        141, 142, 143, 144, 145, 146, 147, //
        151, 152, 153, 154, 155, 156, 157, //
        161, 162, 163, 164, 165, 166, 167, //
        201, 202, 203, 204, 205, 306, 307, //
        211, 212, 213, 214, 215, 316, 317, //
        221, 222, 223, 224, 225, 326, 327, //
        231, 232, 233, 234, 235, 336, 337, //
        241, 242, 243, 244, 245, 346, 347, //
        251, 252, 253, 254, 255, 356, 357, //
        261, 262, 263, 264, 265, 366, 367, //
        401, 402, 403, 404, 405, 406, 407, //
        411, 412, 413, 414, 415, 416, 417, //
        421, 422, 423, 424, 425, 426, 427, //
        431, 432, 433, 434, 435, 436, 437, //
        441, 442, 443, 444, 445, 446, 447, //
        451, 452, 453, 454, 455, 456, 457, //
        461, 462, 463, 464, 465, 466, 467,
    ];
    let mut filter_vals: Vec<i64> = Vec::new();
    for f in 0..9i64 {
        for k in 0..18i64 {
            filter_vals.push(1 + f + k);
        }
    }
    let bias_vals: Vec<i64> = vec![1, 2, 3, 4, 5, 6, 7, 8, 9];
    let x = Layer::value(ti(2, 98, &x_vals));
    let filter = Layer::value(ti(9, 18, &filter_vals));
    let bias = Layer::value(ti(9, 1, &bias_vals));
    let mut conv = Layer::convolution(x, filter, bias, 2, 7, 7, 3, 3, 2, 0);
    let y = conv.forward(false, &mut rng);
    let expect = verification_forward(
        &x_vals,
        &filter_vals,
        &bias_vals,
        (2, 2, 7, 7),
        (9, 2, 3, 3),
        2,
        0,
    );
    assert_eq!((y.rows(), y.cols()), (2, 81));
    assert_eq!(flati(&y), expect);
}

#[test]
fn scalar_integer_maps() {
    // The integer scalar's exponential is the saturating base-two power,
    // its logarithm the floor base-two logarithm, its root the floor
    // square root.
    assert_eq!(0i64.exp(), 1);
    assert_eq!(10i64.exp(), 1024);
    assert_eq!((-3i64).exp(), 0);
    assert_eq!(1023i64.ln(), 9);
    assert_eq!(1024i64.ln(), 10);
    assert_eq!(0i64.ln(), 0);
    assert_eq!(99i64.sqrt(), 9);
    assert_eq!(100i64.sqrt(), 10);
    assert_eq!((-5i64).sqrt(), 0);
    assert_eq!(7i64.div(0), 0);
    assert_eq!(7i64.div(2), 3);
    assert_eq!((-7i64).div(2), -3);
}

#[test]
fn minibatch_rows_come_from_dataset() {
    let mut rng = FixedSampler { state: 42 };
    let data = ti(4, 2, &[10, 11, 20, 21, 30, 31, 40, 41]);
    let lbl = ti(4, 1, &[1, 2, 3, 4]);
    let (md, ml) = make_minibatch_data(6, &data, &lbl, &mut rng);
    assert_eq!((md.rows(), md.cols()), (6, 2));
    assert_eq!((ml.rows(), ml.cols()), (6, 1));
    for i in 0..6 {
        let first = md.get(i, 0);
        let second = md.get(i, 1);
        let label = ml.get(i, 0);
        // Each drawn row is one of the dataset rows, label paired.
        assert_eq!(second, first + 1);
        assert_eq!(label, first / 10);
    }
}

#[test]
fn tensor_new_rejects_ragged_grids() {
    let data: Vec<Vec<i64>> = vec![vec![1, 2], vec![3]];
    assert!(Tensor::<i64>::new(2, 2, data).is_none());
    let data: Vec<Vec<i64>> = vec![vec![1, 2], vec![3, 4]];
    assert!(Tensor::<i64>::new(3, 2, data).is_none());
}

#[test]
fn from_matrix_rejects_wrong_geometry() {
    let data = ti(2, 18, &[0; 36]);
    assert!(Tensor4::from_matrix(&data, 2, 3, 3).is_some());
    assert!(Tensor4::from_matrix(&data, 2, 3, 4).is_none());
    assert!(Tensor4::from_matrix(&data, 1, 3, 3).is_none());
}
