//! The sliding-window engine: a four-axis view of batched image tensors,
//! zero padding, the `im2col` patch-matrix transform, and the forward passes
//! of convolution and max pooling built on the same window geometry.
//!
//! A batch flows through the graph flattened to two axes
//! `(batch, channel * height * width)`; these functions give it its logical
//! four-axis reading `(batch, channel, height, width)`.

use vstd::prelude::*;

use crate::scalar::Scalar;
use crate::tensor::{sp_sum, Tensor};

verus! {

/// A dense four-axis tensor `(batch, channel, height, width)`.
pub struct Tensor4<S: Scalar> {
    batch: usize,
    channel: usize,
    height: usize,
    width: usize,
    data: Vec<Vec<Vec<Vec<S>>>>,
}

/// `(a*m + b)*n + c` enumerates `[0, q*m*n)` when `a < q`, `b < m`, `c < n`.
pub proof fn lemma_flat_bound(a: int, b: int, c: int, q: int, m: int, n: int)
    by (nonlinear_arith)
    requires
        0 <= a < q,
        0 <= b < m,
        0 <= c < n,
    ensures
        0 <= (a * m + b) * n + c < q * m * n,
        0 <= a * m + b,
        a * m + b <= (a * m + b) * n + c,
{
}

/// A product with a zero factor is zero.
pub proof fn lemma_zero_product(c: int, h: int, w: int)
    by (nonlinear_arith)
    requires
        c == 0 || h == 0 || w == 0,
    ensures
        c * h * w == 0,
{
}

impl<S: Scalar> Tensor4<S> {
    pub closed spec fn sp_b(&self) -> int {
        self.batch as int
    }

    pub closed spec fn sp_c(&self) -> int {
        self.channel as int
    }

    pub closed spec fn sp_h(&self) -> int {
        self.height as int
    }

    pub closed spec fn sp_w(&self) -> int {
        self.width as int
    }

    /// The entry at `(batch, channel, row, column)`.
    pub closed spec fn sp_at4(&self, b: int, c: int, y: int, x: int) -> S {
        self.data@[b]@[c]@[y]@[x]
    }

    /// The storage really is a `batch x channel x height x width` grid.
    pub closed spec fn wf(&self) -> bool {
        &&& self.data@.len() == self.batch
        &&& forall|b: int| 0 <= b < self.batch ==> (#[trigger] self.data@[b])@.len() == self.channel
        &&& forall|b: int, c: int|
            0 <= b < self.batch && 0 <= c < self.channel ==> (#[trigger] self.data@[b]@[c])@.len()
                == self.height
        &&& forall|b: int, c: int, y: int|
            0 <= b < self.batch && 0 <= c < self.channel && 0 <= y < self.height ==> (
            #[trigger] self.data@[b]@[c]@[y])@.len() == self.width
    }

    pub open spec fn sp_is_shape4(&self, b: int, c: int, y: int, x: int) -> bool {
        self.sp_b() == b && self.sp_c() == c && self.sp_h() == y && self.sp_w() == x
    }

    /// All four dimensions are machine-sized.
    pub proof fn lemma_dims_bounds(&self)
        ensures
            0 <= self.sp_b() <= usize::MAX as int,
            0 <= self.sp_c() <= usize::MAX as int,
            0 <= self.sp_h() <= usize::MAX as int,
            0 <= self.sp_w() <= usize::MAX as int,
    {
    }

    pub fn get4(&self, b: usize, c: usize, y: usize, x: usize) -> (r: S)
        requires
            self.wf(),
            b < self.sp_b(),
            c < self.sp_c(),
            y < self.sp_h(),
            x < self.sp_w(),
        ensures
            r == self.sp_at4(b as int, c as int, y as int, x as int),
    {
        self.data[b][c][y][x]
    }

    /// Reads a two-axis batch `(batch, channel * height * width)` as a
    /// four-axis tensor; fails exactly when the channel geometry does not
    /// account for the column count.
    pub fn from_matrix(t: &Tensor<S>, channel: usize, height: usize, width: usize) -> (r: Option<
        Tensor4<S>,
    >)
        requires
            t.wf(),
        ensures
            r is Some <==> t.sp_cols() == channel * height * width,
            r is Some ==> {
                let t4 = r->Some_0;
                &&& t4.wf()
                &&& t4.sp_is_shape4(t.sp_rows(), channel as int, height as int, width as int)
                &&& forall|b: int, c: int, y: int, x: int|
                    0 <= b < t.sp_rows() && 0 <= c < channel && 0 <= y < height && 0 <= x < width
                        ==> #[trigger] t4.sp_at4(b, c, y, x) == t.sp_at(
                        b,
                        (c * height + y) * width + x,
                    )
            },
    {
        proof {
            t.lemma_shape_bounds();
        }
        let total: usize = if channel == 0 || height == 0 || width == 0 {
            proof {
                lemma_zero_product(channel as int, height as int, width as int);
            }
            0
        } else {
            match channel.checked_mul(height) {
                Some(ch) => match ch.checked_mul(width) {
                    Some(chw) => chw,
                    None => {
                        proof {
                            lemma_mul_monotone_bound(
                                channel as int,
                                height as int,
                                width as int,
                                t.sp_cols(),
                            );
                        }
                        return None;
                    },
                },
                None => {
                    proof {
                        lemma_mul_monotone_bound(
                            channel as int,
                            height as int,
                            width as int,
                            t.sp_cols(),
                        );
                    }
                    return None;
                },
            }
        };
        if t.cols() != total {
            return None;
        }
        let rows = t.rows();
        let mut data: Vec<Vec<Vec<Vec<S>>>> = Vec::new();
        let mut b: usize = 0;
        while b < rows
            invariant
                t.wf(),
                rows == t.sp_rows(),
                t.sp_cols() == channel * height * width,
                b <= rows,
                data@.len() == b,
                forall|b2: int| 0 <= b2 < b ==> (#[trigger] data@[b2])@.len() == channel,
                forall|b2: int, c2: int|
                    0 <= b2 < b && 0 <= c2 < channel ==> (#[trigger] data@[b2]@[c2])@.len()
                        == height,
                forall|b2: int, c2: int, y2: int|
                    0 <= b2 < b && 0 <= c2 < channel && 0 <= y2 < height ==> (
                    #[trigger] data@[b2]@[c2]@[y2])@.len() == width,
                forall|b2: int, c2: int, y2: int, x2: int|
                    0 <= b2 < b && 0 <= c2 < channel && 0 <= y2 < height && 0 <= x2 < width
                        ==> #[trigger] data@[b2]@[c2]@[y2]@[x2] == t.sp_at(
                        b2,
                        (c2 * height + y2) * width + x2,
                    ),
            decreases rows - b,
        {
            let mut chans: Vec<Vec<Vec<S>>> = Vec::new();
            let mut c: usize = 0;
            while c < channel
                invariant
                    t.wf(),
                    rows == t.sp_rows(),
                    t.sp_cols() == channel * height * width,
                    b < rows,
                    c <= channel,
                    chans@.len() == c,
                    forall|c2: int| 0 <= c2 < c ==> (#[trigger] chans@[c2])@.len() == height,
                    forall|c2: int, y2: int|
                        0 <= c2 < c && 0 <= y2 < height ==> (#[trigger] chans@[c2]@[y2])@.len()
                            == width,
                    forall|c2: int, y2: int, x2: int|
                        0 <= c2 < c && 0 <= y2 < height && 0 <= x2 < width
                            ==> #[trigger] chans@[c2]@[y2]@[x2] == t.sp_at(
                            b as int,
                            (c2 * height + y2) * width + x2,
                        ),
                decreases channel - c,
            {
                let mut plane: Vec<Vec<S>> = Vec::new();
                let mut y: usize = 0;
                while y < height
                    invariant
                        t.wf(),
                        rows == t.sp_rows(),
                        t.sp_cols() == channel * height * width,
                        b < rows,
                        c < channel,
                        y <= height,
                        plane@.len() == y,
                        forall|y2: int| 0 <= y2 < y ==> (#[trigger] plane@[y2])@.len() == width,
                        forall|y2: int, x2: int|
                            0 <= y2 < y && 0 <= x2 < width ==> #[trigger] plane@[y2]@[x2]
                                == t.sp_at(b as int, (c * height + y2) * width + x2),
                    decreases height - y,
                {
                    let mut line: Vec<S> = Vec::new();
                    let mut x: usize = 0;
                    while x < width
                        invariant
                            t.wf(),
                            rows == t.sp_rows(),
                            t.sp_cols() == channel * height * width,
                            b < rows,
                            c < channel,
                            y < height,
                            x <= width,
                            line@.len() == x,
                            forall|x2: int|
                                0 <= x2 < x ==> #[trigger] line@[x2] == t.sp_at(
                                    b as int,
                                    (c * height + y) * width + x2,
                                ),
                        decreases width - x,
                    {
                        proof {
                            t.lemma_shape_bounds();
                            lemma_flat_bound(
                                c as int,
                                y as int,
                                x as int,
                                channel as int,
                                height as int,
                                width as int,
                            );
                        }
                        let idx = (c * height + y) * width + x;
                        line.push(t.get(b, idx));
                        x = x + 1;
                    }
                    plane.push(line);
                    y = y + 1;
                }
                chans.push(plane);
                c = c + 1;
            }
            data.push(chans);
            b = b + 1;
        }
        Some(Tensor4 { batch: rows, channel, height, width, data })
    }
}

/// A product of positive factors that overflows cannot equal a value that
/// fits.
pub proof fn lemma_mul_monotone_bound(c: int, h: int, w: int, cols: int)
    by (nonlinear_arith)
    requires
        c >= 1,
        h >= 1,
        w >= 1,
        cols <= usize::MAX as int,
        c * h > usize::MAX as int || c * h * w > usize::MAX as int,
    ensures
        cols != c * h * w,
{
}

/// The entry of a tensor padded with zeros on all four axes: the original
/// entry inside the shifted block, zero in the border.
pub open spec fn sp_pad4_at<S: Scalar>(
    t4: &Tensor4<S>,
    p0: int,
    p1: int,
    p2: int,
    p3: int,
    i: int,
    j: int,
    k: int,
    l: int,
) -> S {
    if p0 <= i < p0 + t4.sp_b() && p1 <= j < p1 + t4.sp_c() && p2 <= k < p2 + t4.sp_h() && p3 <= l
        < p3 + t4.sp_w() {
        t4.sp_at4(i - p0, j - p1, k - p2, l - p3)
    } else {
        S::sp_zero()
    }
}

/// Zero padding on every axis: each axis gains the given leading and
/// trailing amounts, with the original block in the middle.
pub fn pad_array4<S: Scalar>(
    data: &Tensor4<S>,
    p0a: usize,
    p0b: usize,
    p1a: usize,
    p1b: usize,
    p2a: usize,
    p2b: usize,
    p3a: usize,
    p3b: usize,
) -> (r: Tensor4<S>)
    requires
        data.wf(),
        data.sp_b() + p0a + p0b <= usize::MAX,
        data.sp_c() + p1a + p1b <= usize::MAX,
        data.sp_h() + p2a + p2b <= usize::MAX,
        data.sp_w() + p3a + p3b <= usize::MAX,
    ensures
        r.wf(),
        r.sp_is_shape4(
            data.sp_b() + p0a + p0b,
            data.sp_c() + p1a + p1b,
            data.sp_h() + p2a + p2b,
            data.sp_w() + p3a + p3b,
        ),
        forall|i: int, j: int, k: int, l: int|
            0 <= i < r.sp_b() && 0 <= j < r.sp_c() && 0 <= k < r.sp_h() && 0 <= l < r.sp_w()
                ==> #[trigger] r.sp_at4(i, j, k, l) == sp_pad4_at(
                data,
                p0a as int,
                p1a as int,
                p2a as int,
                p3a as int,
                i,
                j,
                k,
                l,
            ),
{
    let nb = data.batch + p0a + p0b;
    let nc = data.channel + p1a + p1b;
    let nh = data.height + p2a + p2b;
    let nw = data.width + p3a + p3b;
    let mut out: Vec<Vec<Vec<Vec<S>>>> = Vec::new();
    let mut i: usize = 0;
    while i < nb
        invariant
            data.wf(),
            nb == data.sp_b() + p0a + p0b,
            nc == data.sp_c() + p1a + p1b,
            nh == data.sp_h() + p2a + p2b,
            nw == data.sp_w() + p3a + p3b,
            i <= nb,
            out@.len() == i,
            forall|i2: int| 0 <= i2 < i ==> (#[trigger] out@[i2])@.len() == nc,
            forall|i2: int, j2: int|
                0 <= i2 < i && 0 <= j2 < nc ==> (#[trigger] out@[i2]@[j2])@.len() == nh,
            forall|i2: int, j2: int, k2: int|
                0 <= i2 < i && 0 <= j2 < nc && 0 <= k2 < nh ==> (
                #[trigger] out@[i2]@[j2]@[k2])@.len() == nw,
            forall|i2: int, j2: int, k2: int, l2: int|
                0 <= i2 < i && 0 <= j2 < nc && 0 <= k2 < nh && 0 <= l2 < nw
                    ==> #[trigger] out@[i2]@[j2]@[k2]@[l2] == sp_pad4_at(
                    data,
                    p0a as int,
                    p1a as int,
                    p2a as int,
                    p3a as int,
                    i2,
                    j2,
                    k2,
                    l2,
                ),
        decreases nb - i,
    {
        let mut chans: Vec<Vec<Vec<S>>> = Vec::new();
        let mut j: usize = 0;
        while j < nc
            invariant
                data.wf(),
                nb == data.sp_b() + p0a + p0b,
                nc == data.sp_c() + p1a + p1b,
                nh == data.sp_h() + p2a + p2b,
                nw == data.sp_w() + p3a + p3b,
                i < nb,
                j <= nc,
                chans@.len() == j,
                forall|j2: int| 0 <= j2 < j ==> (#[trigger] chans@[j2])@.len() == nh,
                forall|j2: int, k2: int|
                    0 <= j2 < j && 0 <= k2 < nh ==> (#[trigger] chans@[j2]@[k2])@.len() == nw,
                forall|j2: int, k2: int, l2: int|
                    0 <= j2 < j && 0 <= k2 < nh && 0 <= l2 < nw
                        ==> #[trigger] chans@[j2]@[k2]@[l2] == sp_pad4_at(
                        data,
                        p0a as int,
                        p1a as int,
                        p2a as int,
                        p3a as int,
                        i as int,
                        j2,
                        k2,
                        l2,
                    ),
            decreases nc - j,
        {
            let mut plane: Vec<Vec<S>> = Vec::new();
            let mut k: usize = 0;
            while k < nh
                invariant
                    data.wf(),
                    nb == data.sp_b() + p0a + p0b,
                    nc == data.sp_c() + p1a + p1b,
                    nh == data.sp_h() + p2a + p2b,
                    nw == data.sp_w() + p3a + p3b,
                    i < nb,
                    j < nc,
                    k <= nh,
                    plane@.len() == k,
                    forall|k2: int| 0 <= k2 < k ==> (#[trigger] plane@[k2])@.len() == nw,
                    forall|k2: int, l2: int|
                        0 <= k2 < k && 0 <= l2 < nw ==> #[trigger] plane@[k2]@[l2] == sp_pad4_at(
                            data,
                            p0a as int,
                            p1a as int,
                            p2a as int,
                            p3a as int,
                            i as int,
                            j as int,
                            k2,
                            l2,
                        ),
                decreases nh - k,
            {
                let mut line: Vec<S> = Vec::new();
                let mut l: usize = 0;
                while l < nw
                    invariant
                        data.wf(),
                        nb == data.sp_b() + p0a + p0b,
                        nc == data.sp_c() + p1a + p1b,
                        nh == data.sp_h() + p2a + p2b,
                        nw == data.sp_w() + p3a + p3b,
                        i < nb,
                        j < nc,
                        k < nh,
                        l <= nw,
                        line@.len() == l,
                        forall|l2: int|
                            0 <= l2 < l ==> #[trigger] line@[l2] == sp_pad4_at(
                                data,
                                p0a as int,
                                p1a as int,
                                p2a as int,
                                p3a as int,
                                i as int,
                                j as int,
                                k as int,
                                l2,
                            ),
                    decreases nw - l,
                {
                    let inside = i >= p0a && i < p0a + data.batch && j >= p1a && j < p1a
                        + data.channel && k >= p2a && k < p2a + data.height && l >= p3a && l < p3a
                        + data.width;
                    if inside {
                        line.push(data.get4(i - p0a, j - p1a, k - p2a, l - p3a));
                    } else {
                        line.push(S::zero());
                    }
                    l = l + 1;
                }
                plane.push(line);
                k = k + 1;
            }
            chans.push(plane);
            j = j + 1;
        }
        out.push(chans);
        i = i + 1;
    }
    Tensor4 { batch: nb, channel: nc, height: nh, width: nw, data: out }
}

/// Stacks whole copies of a matrix until it has `row_num` rows: row `i` of
/// the result is row `i mod rows` of the source.
pub fn broadcast_rows<S: Scalar>(data: &Tensor<S>, row_num: usize) -> (r: Tensor<S>)
    requires
        data.wf(),
        data.sp_rows() > 0,
        row_num as int % data.sp_rows() == 0,
    ensures
        r.wf(),
        r.sp_is_shape(row_num as int, data.sp_cols()),
        forall|i: int, j: int|
            0 <= i < row_num && 0 <= j < data.sp_cols() ==> #[trigger] r.sp_at(i, j) == data.sp_at(
                i % data.sp_rows(),
                j,
            ),
{
    let origin = data.rows();
    let mut out: Vec<Vec<S>> = Vec::new();
    let mut i: usize = 0;
    while i < row_num
        invariant
            data.wf(),
            origin == data.sp_rows(),
            origin > 0,
            i <= row_num,
            out@.len() == i,
            forall|i2: int| 0 <= i2 < i ==> (#[trigger] out@[i2])@.len() == data.sp_cols(),
            forall|i2: int, j2: int|
                0 <= i2 < i && 0 <= j2 < data.sp_cols() ==> #[trigger] out@[i2]@[j2] == data.sp_at(
                    i2 % data.sp_rows(),
                    j2,
                ),
        decreases row_num - i,
    {
        let src = i % origin;
        let row = data.row_vec(src);
        proof {
            data.lemma_shape_bounds();
            assert(row@ =~= data.sp_row(src as int));
        }
        out.push(row);
        i = i + 1;
    }
    let cols = data.cols();
    match Tensor::new(row_num, cols, out) {
        Some(t) => t,
        None => {
            proof {
                assert(false);
            }
            Tensor::zeros(row_num, cols)
        },
    }
}

/// The value of the zero-padded image at `(batch, channel, yy, xx)`, where
/// the spatial axes are padded by `pad` on each side: the original entry
/// inside the window, zero in the border.
pub open spec fn sp_padded_at<S: Scalar>(t4: &Tensor4<S>, pad: int, b: int, c: int, yy: int, xx: int) -> S {
    if pad <= yy < pad + t4.sp_h() && pad <= xx < pad + t4.sp_w() {
        t4.sp_at4(b, c, yy - pad, xx - pad)
    } else {
        S::sp_zero()
    }
}

/// The number of window positions along one spatial axis:
/// `(size + 2*pad - filter) / stride + 1`.
pub open spec fn sp_out_count(size: int, filter: int, stride: int, pad: int) -> int {
    (size + 2 * pad - filter) / stride + 1
}

/// Executable counterpart of [`sp_out_count`].
pub fn out_count(size: usize, filter: usize, stride: usize, pad: usize) -> (r: usize)
    requires
        stride > 0,
        filter <= size + 2 * pad,
        size + 2 * pad < usize::MAX,
    ensures
        r == sp_out_count(size as int, filter as int, stride as int, pad as int),
{
    (size + 2 * pad - filter) / stride + 1
}

/// Splitting a flat index `(a*m + b)*n + c` back into its three digits.
pub proof fn lemma_flat3_decompose(a: int, b: int, c: int, q: int, m: int, n: int)
    requires
        0 <= a < q,
        0 <= b < m,
        0 <= c < n,
    ensures
        ((a * m + b) * n + c) / (m * n) == a,
        (((a * m + b) * n + c) % (m * n)) / n == b,
        (((a * m + b) * n + c) % (m * n)) % n == c,
{
    let idx = (a * m + b) * n + c;
    assert((a * m + b) * n + c == a * (m * n) + (b * n + c)) by (nonlinear_arith);
    assert(0 <= b * n + c < m * n) by (nonlinear_arith)
        requires
            0 <= b < m,
            0 <= c < n;
    assert(m * n != 0) by (nonlinear_arith)
        requires
            m >= 1,
            n >= 1;
    vstd::arithmetic::div_mod::lemma_fundamental_div_mod_converse(idx, m * n, a, b * n + c);
    vstd::arithmetic::div_mod::lemma_fundamental_div_mod_converse(b * n + c, n, b, c);
}

/// Entry `(r, c)` of the `im2col` matrix: decompose the row index into
/// `(batch, window row, window column)` and the column index into
/// `(channel, filter row, filter column)`, and read the padded input at the
/// pixel that filter cell would multiply.
pub open spec fn sp_im2col_entry<S: Scalar>(
    t4: &Tensor4<S>,
    fh: int,
    fw: int,
    stride: int,
    pad: int,
    r: int,
    c: int,
) -> S {
    let oh = sp_out_count(t4.sp_h(), fh, stride, pad);
    let ow = sp_out_count(t4.sp_w(), fw, stride, pad);
    let bi = r / (oh * ow);
    let sh = (r % (oh * ow)) / ow;
    let sw = (r % (oh * ow)) % ow;
    let ci = c / (fh * fw);
    let fy = (c % (fh * fw)) / fw;
    let fx = (c % (fh * fw)) % fw;
    sp_padded_at(t4, pad, bi, ci, sh * stride + fy, sw * stride + fx)
}

/// The geometry under which a window sweep is meaningful: positive stride
/// and filter sizes, windows that fit in the padded image, an even division
/// of the sweep by the stride, and machine-sized index spaces.
pub open spec fn sp_geom_ok(b: int, c: int, h: int, w: int, fh: int, fw: int, stride: int, pad: int) -> bool {
    let oh = sp_out_count(h, fh, stride, pad);
    let ow = sp_out_count(w, fw, stride, pad);
    &&& stride > 0
    &&& 1 <= fh <= h + 2 * pad
    &&& 1 <= fw <= w + 2 * pad
    &&& (h + 2 * pad - fh) % stride == 0
    &&& (w + 2 * pad - fw) % stride == 0
    &&& h + 2 * pad < usize::MAX
    &&& w + 2 * pad < usize::MAX
    &&& oh * ow <= usize::MAX
    &&& fh * fw <= usize::MAX
    &&& b * oh * ow <= usize::MAX
    &&& c * fh * fw <= usize::MAX
}

/// [`sp_geom_ok`] applied to a tensor's own dimensions.
pub open spec fn sp_window_ok<S: Scalar>(t4: &Tensor4<S>, fh: int, fw: int, stride: int, pad: int) -> bool {
    sp_geom_ok(t4.sp_b(), t4.sp_c(), t4.sp_h(), t4.sp_w(), fh, fw, stride, pad)
}

/// Window counts are positive under a meaningful geometry.
pub proof fn lemma_out_count_pos(size: int, filter: int, stride: int, pad: int)
    requires
        stride > 0,
        1 <= filter <= size + 2 * pad,
    ensures
        sp_out_count(size, filter, stride, pad) >= 1,
        size + 2 * pad - filter >= 0,
{
    assert((size + 2 * pad - filter) / stride >= 0) by (nonlinear_arith)
        requires
            stride > 0,
            size + 2 * pad - filter >= 0;
}

/// A window position times the stride stays inside the padded image.
pub proof fn lemma_window_fit(s: int, f: int, size: int, filter: int, stride: int, pad: int)
    requires
        stride >= 1,
        1 <= filter <= size + 2 * pad,
        (size + 2 * pad - filter) % stride == 0,
        0 <= s < sp_out_count(size, filter, stride, pad),
        0 <= f < filter,
    ensures
        0 <= s * stride + f < size + 2 * pad,
{
    let d = size + 2 * pad - filter;
    assert(s * stride <= d) by (nonlinear_arith)
        requires
            s <= d / stride,
            stride >= 1,
            d % stride == 0,
            d >= 0;
}

/// The `im2col` transform: one row for every window position of every batch
/// element, one column for every filter cell of every channel, padding
/// read as zero.
pub fn im2col<S: Scalar>(t4: &Tensor4<S>, fh: usize, fw: usize, stride: usize, pad: usize) -> (r:
    Tensor<S>)
    requires
        t4.wf(),
        sp_window_ok(t4, fh as int, fw as int, stride as int, pad as int),
    ensures
        r.wf(),
        r.sp_is_shape(
            t4.sp_b() * sp_out_count(t4.sp_h(), fh as int, stride as int, pad as int)
                * sp_out_count(t4.sp_w(), fw as int, stride as int, pad as int),
            t4.sp_c() * fh * fw,
        ),
        forall|ri: int, ci: int|
            0 <= ri < r.sp_rows() && 0 <= ci < r.sp_cols() ==> #[trigger] r.sp_at(ri, ci)
                == sp_im2col_entry(t4, fh as int, fw as int, stride as int, pad as int, ri, ci),
{
    let oh = out_count(t4.height, fh, stride, pad);
    let ow = out_count(t4.width, fw, stride, pad);
    proof {
        lemma_out_count_pos(t4.sp_h(), fh as int, stride as int, pad as int);
        lemma_out_count_pos(t4.sp_w(), fw as int, stride as int, pad as int);
    }
    let ghost gfh = fh as int;
    let ghost gfw = fw as int;
    let ghost gst = stride as int;
    let ghost gpad = pad as int;
    let mut data: Vec<Vec<S>> = Vec::new();
    proof {
        assert((0int) * ((oh as int) * (ow as int)) == 0) by (nonlinear_arith);
    }
    let mut bi: usize = 0;
    while bi < t4.batch
        invariant
            t4.wf(),
            sp_window_ok(t4, gfh, gfw, gst, gpad),
            gfh == fh,
            gfw == fw,
            gst == stride,
            gpad == pad,
            oh == sp_out_count(t4.sp_h(), gfh, gst, gpad),
            ow == sp_out_count(t4.sp_w(), gfw, gst, gpad),
            oh >= 1,
            ow >= 1,
            bi <= t4.sp_b(),
            data@.len() == bi * (oh * ow),
            forall|r2: int| 0 <= r2 < data@.len() ==> (#[trigger] data@[r2])@.len() == t4.sp_c()
                * gfh * gfw,
            forall|r2: int, c2: int|
                0 <= r2 < data@.len() && 0 <= c2 < t4.sp_c() * gfh * gfw
                    ==> #[trigger] data@[r2]@[c2] == sp_im2col_entry(t4, gfh, gfw, gst, gpad, r2, c2),
        decreases t4.sp_b() - bi,
    {
        proof {
            assert((0int) * (ow as int) == 0) by (nonlinear_arith);
        }
        let mut sh: usize = 0;
        while sh < oh
            invariant
                t4.wf(),
                sp_window_ok(t4, gfh, gfw, gst, gpad),
                gfh == fh,
                gfw == fw,
                gst == stride,
                gpad == pad,
                oh == sp_out_count(t4.sp_h(), gfh, gst, gpad),
                ow == sp_out_count(t4.sp_w(), gfw, gst, gpad),
                oh >= 1,
                ow >= 1,
                bi < t4.sp_b(),
                sh <= oh,
                data@.len() == bi * (oh * ow) + sh * ow,
                forall|r2: int| 0 <= r2 < data@.len() ==> (#[trigger] data@[r2])@.len() == t4.sp_c()
                    * gfh * gfw,
                forall|r2: int, c2: int|
                    0 <= r2 < data@.len() && 0 <= c2 < t4.sp_c() * gfh * gfw
                        ==> #[trigger] data@[r2]@[c2] == sp_im2col_entry(
                        t4,
                        gfh,
                        gfw,
                        gst,
                        gpad,
                        r2,
                        c2,
                    ),
            decreases oh - sh,
        {
            let mut sw: usize = 0;
            while sw < ow
                invariant
                    t4.wf(),
                    sp_window_ok(t4, gfh, gfw, gst, gpad),
                    gfh == fh,
                    gfw == fw,
                    gst == stride,
                    gpad == pad,
                    oh == sp_out_count(t4.sp_h(), gfh, gst, gpad),
                    ow == sp_out_count(t4.sp_w(), gfw, gst, gpad),
                    oh >= 1,
                    ow >= 1,
                    bi < t4.sp_b(),
                    sh < oh,
                    sw <= ow,
                    data@.len() == bi * (oh * ow) + sh * ow + sw,
                    forall|r2: int| 0 <= r2 < data@.len() ==> (#[trigger] data@[r2])@.len()
                        == t4.sp_c() * gfh * gfw,
                    forall|r2: int, c2: int|
                        0 <= r2 < data@.len() && 0 <= c2 < t4.sp_c() * gfh * gfw
                            ==> #[trigger] data@[r2]@[c2] == sp_im2col_entry(
                            t4,
                            gfh,
                            gfw,
                            gst,
                            gpad,
                            r2,
                            c2,
                        ),
                decreases ow - sw,
            {
                proof {
                    lemma_flat_bound(bi as int, sh as int, sw as int, t4.sp_b(), oh as int, ow as int);
                    assert(bi * (oh * ow) + sh * ow + sw == (bi * (oh as int) + sh) * (ow as int)
                        + sw) by (nonlinear_arith);
                }
                let row = im2col_row(t4, fh, fw, stride, pad, bi, sh, sw, oh, ow);
                data.push(row);
                sw = sw + 1;
            }
            proof {
                assert(bi * (oh * ow) + sh * ow + ow == bi * (oh * ow) + (sh + 1) * ow)
                    by (nonlinear_arith);
            }
            sh = sh + 1;
        }
        proof {
            assert(bi * (oh * ow) + oh * ow == (bi + 1) * (oh * ow)) by (nonlinear_arith);
        }
        bi = bi + 1;
    }
    proof {
        assert(t4.sp_b() * ((oh as int) * (ow as int)) == t4.sp_b() * (oh as int) * (ow as int))
            by (nonlinear_arith);
        assert(t4.sp_c() * ((fh as int) * (fw as int)) == t4.sp_c() * (fh as int) * (fw as int))
            by (nonlinear_arith);
    }
    let rows = t4.batch * (oh * ow);
    let cols = t4.channel * (fh * fw);
    match Tensor::new(rows, cols, data) {
        Some(t) => t,
        None => {
            proof {
                assert(false);
            }
            Tensor::zeros(rows, cols)
        },
    }
}

/// One `im2col` row: the window at `(bi, sh, sw)`, channel-major, scanned
/// cell by cell.
fn im2col_row<S: Scalar>(
    t4: &Tensor4<S>,
    fh: usize,
    fw: usize,
    stride: usize,
    pad: usize,
    bi: usize,
    sh: usize,
    sw: usize,
    oh: usize,
    ow: usize,
) -> (row: Vec<S>)
    requires
        t4.wf(),
        sp_window_ok(t4, fh as int, fw as int, stride as int, pad as int),
        oh == sp_out_count(t4.sp_h(), fh as int, stride as int, pad as int),
        ow == sp_out_count(t4.sp_w(), fw as int, stride as int, pad as int),
        bi < t4.sp_b(),
        sh < oh,
        sw < ow,
    ensures
        row@.len() == t4.sp_c() * fh * fw,
        forall|c2: int|
            0 <= c2 < row@.len() ==> #[trigger] row@[c2] == sp_im2col_entry(
                t4,
                fh as int,
                fw as int,
                stride as int,
                pad as int,
                (bi * oh + sh) * ow + sw,
                c2,
            ),
{
    let ghost gr = (bi * (oh as int) + sh) * (ow as int) + sw;
    proof {
        lemma_flat3_decompose(bi as int, sh as int, sw as int, t4.sp_b(), oh as int, ow as int);
        lemma_flat_bound(bi as int, sh as int, sw as int, t4.sp_b(), oh as int, ow as int);
    }
    let mut row: Vec<S> = Vec::new();
    proof {
        assert((0int) * (fh as int) * (fw as int) == 0) by (nonlinear_arith);
    }
    let mut ci: usize = 0;
    while ci < t4.channel
        invariant
            t4.wf(),
            sp_window_ok(t4, fh as int, fw as int, stride as int, pad as int),
            oh == sp_out_count(t4.sp_h(), fh as int, stride as int, pad as int),
            ow == sp_out_count(t4.sp_w(), fw as int, stride as int, pad as int),
            bi < t4.sp_b(),
            sh < oh,
            sw < ow,
            gr == (bi * (oh as int) + sh) * (ow as int) + sw,
            gr / ((oh as int) * (ow as int)) == bi,
            (gr % ((oh as int) * (ow as int))) / (ow as int) == sh,
            (gr % ((oh as int) * (ow as int))) % (ow as int) == sw,
            ci <= t4.sp_c(),
            row@.len() == ci * fh * fw,
            forall|c2: int|
                0 <= c2 < row@.len() ==> #[trigger] row@[c2] == sp_im2col_entry(
                    t4,
                    fh as int,
                    fw as int,
                    stride as int,
                    pad as int,
                    gr,
                    c2,
                ),
        decreases t4.sp_c() - ci,
    {
        proof {
            assert((0int) * (fw as int) == 0) by (nonlinear_arith);
        }
        let mut fy: usize = 0;
        while fy < fh
            invariant
                t4.wf(),
                sp_window_ok(t4, fh as int, fw as int, stride as int, pad as int),
                oh == sp_out_count(t4.sp_h(), fh as int, stride as int, pad as int),
                ow == sp_out_count(t4.sp_w(), fw as int, stride as int, pad as int),
                bi < t4.sp_b(),
                sh < oh,
                sw < ow,
                gr == (bi * (oh as int) + sh) * (ow as int) + sw,
                gr / ((oh as int) * (ow as int)) == bi,
                (gr % ((oh as int) * (ow as int))) / (ow as int) == sh,
                (gr % ((oh as int) * (ow as int))) % (ow as int) == sw,
                ci < t4.sp_c(),
                fy <= fh,
                row@.len() == ci * fh * fw + fy * fw,
                forall|c2: int|
                    0 <= c2 < row@.len() ==> #[trigger] row@[c2] == sp_im2col_entry(
                        t4,
                        fh as int,
                        fw as int,
                        stride as int,
                        pad as int,
                        gr,
                        c2,
                    ),
            decreases fh - fy,
        {
            let mut fx: usize = 0;
            while fx < fw
                invariant
                    t4.wf(),
                    sp_window_ok(t4, fh as int, fw as int, stride as int, pad as int),
                    oh == sp_out_count(t4.sp_h(), fh as int, stride as int, pad as int),
                    ow == sp_out_count(t4.sp_w(), fw as int, stride as int, pad as int),
                    bi < t4.sp_b(),
                    sh < oh,
                    sw < ow,
                    gr == (bi * (oh as int) + sh) * (ow as int) + sw,
                    gr / ((oh as int) * (ow as int)) == bi,
                    (gr % ((oh as int) * (ow as int))) / (ow as int) == sh,
                    (gr % ((oh as int) * (ow as int))) % (ow as int) == sw,
                    ci < t4.sp_c(),
                    fy < fh,
                    fx <= fw,
                    row@.len() == ci * fh * fw + fy * fw + fx,
                    forall|c2: int|
                        0 <= c2 < row@.len() ==> #[trigger] row@[c2] == sp_im2col_entry(
                            t4,
                            fh as int,
                            fw as int,
                            stride as int,
                            pad as int,
                            gr,
                            c2,
                        ),
                decreases fw - fx,
            {
                proof {
                    lemma_flat_bound(ci as int, fy as int, fx as int, t4.sp_c(), fh as int, fw as int);
                    assert(ci * (fh as int) * fw + fy * fw + fx == (ci * (fh as int) + fy) * (
                    fw as int) + fx) by (nonlinear_arith);
                    lemma_flat3_decompose(ci as int, fy as int, fx as int, t4.sp_c(), fh as int, fw as int);
                    lemma_window_fit(sh as int, fy as int, t4.sp_h(), fh as int, stride as int, pad as int);
                    lemma_window_fit(sw as int, fx as int, t4.sp_w(), fw as int, stride as int, pad as int);
                }
                let yy = sh * stride + fy;
                let xx = sw * stride + fx;
                let v: S = if yy >= pad && yy < pad + t4.height && xx >= pad && xx < pad
                    + t4.width {
                    t4.get4(bi, ci, yy - pad, xx - pad)
                } else {
                    S::zero()
                };
                row.push(v);
                fx = fx + 1;
            }
            proof {
                assert(ci * (fh as int) * fw + fy * fw + fw == ci * (fh as int) * fw + (fy + 1) * fw)
                    by (nonlinear_arith);
            }
            fy = fy + 1;
        }
        proof {
            assert(ci * (fh as int) * fw + fh * fw == (ci + 1) * (fh as int) * fw)
                by (nonlinear_arith);
        }
        ci = ci + 1;
    }
    row
}

/// Entry `(b, c)` of the pooling output: decompose the column into
/// `(channel, window row, window column)` and take the greatest value of
/// that window, padding read as zero.
pub open spec fn sp_pool_entry<S: Scalar>(
    t4: &Tensor4<S>,
    fh: int,
    fw: int,
    stride: int,
    pad: int,
    b: int,
    c: int,
) -> S {
    let oh = sp_out_count(t4.sp_h(), fh, stride, pad);
    let ow = sp_out_count(t4.sp_w(), fw, stride, pad);
    let ci = c / (oh * ow);
    let sh = (c % (oh * ow)) / ow;
    let sw = (c % (oh * ow)) % ow;
    crate::activation_functions::sp_max_fold(
        Seq::new(
            (fh * fw) as nat,
            |k: int| sp_padded_at(t4, pad, b, ci, sh * stride + k / fw, sw * stride + k % fw),
        ),
    )
}

/// Max pooling: each output cell is the greatest value of its window, the
/// channels of each batch element laid out channel-major.
pub fn pooling_forward<S: Scalar>(
    t4: &Tensor4<S>,
    fh: usize,
    fw: usize,
    stride: usize,
    pad: usize,
) -> (r: Tensor<S>)
    requires
        t4.wf(),
        sp_window_ok(t4, fh as int, fw as int, stride as int, pad as int),
        t4.sp_c() * (sp_out_count(t4.sp_h(), fh as int, stride as int, pad as int) * sp_out_count(
            t4.sp_w(),
            fw as int,
            stride as int,
            pad as int,
        )) <= usize::MAX,
    ensures
        r.wf(),
        r.sp_is_shape(
            t4.sp_b(),
            t4.sp_c() * (sp_out_count(t4.sp_h(), fh as int, stride as int, pad as int)
                * sp_out_count(t4.sp_w(), fw as int, stride as int, pad as int)),
        ),
        forall|bi: int, ci: int|
            0 <= bi < r.sp_rows() && 0 <= ci < r.sp_cols() ==> #[trigger] r.sp_at(bi, ci)
                == sp_pool_entry(t4, fh as int, fw as int, stride as int, pad as int, bi, ci),
{
    let oh = out_count(t4.height, fh, stride, pad);
    let ow = out_count(t4.width, fw, stride, pad);
    proof {
        lemma_out_count_pos(t4.sp_h(), fh as int, stride as int, pad as int);
        lemma_out_count_pos(t4.sp_w(), fw as int, stride as int, pad as int);
    }
    let cols = t4.channel * (oh * ow);
    let mut data: Vec<Vec<S>> = Vec::new();
    let mut bi: usize = 0;
    while bi < t4.batch
        invariant
            t4.wf(),
            sp_window_ok(t4, fh as int, fw as int, stride as int, pad as int),
            oh == sp_out_count(t4.sp_h(), fh as int, stride as int, pad as int),
            ow == sp_out_count(t4.sp_w(), fw as int, stride as int, pad as int),
            oh >= 1,
            ow >= 1,
            cols == t4.sp_c() * ((oh as int) * (ow as int)),
            bi <= t4.sp_b(),
            data@.len() == bi,
            forall|b2: int| 0 <= b2 < bi ==> (#[trigger] data@[b2])@.len() == cols,
            forall|b2: int, c2: int|
                0 <= b2 < bi && 0 <= c2 < cols ==> #[trigger] data@[b2]@[c2] == sp_pool_entry(
                    t4,
                    fh as int,
                    fw as int,
                    stride as int,
                    pad as int,
                    b2,
                    c2,
                ),
        decreases t4.sp_b() - bi,
    {
        let mut row: Vec<S> = Vec::new();
        proof {
            assert((0int) * ((oh as int) * (ow as int)) == 0) by (nonlinear_arith);
        }
        let mut ci: usize = 0;
        while ci < t4.channel
            invariant
                t4.wf(),
                sp_window_ok(t4, fh as int, fw as int, stride as int, pad as int),
                oh == sp_out_count(t4.sp_h(), fh as int, stride as int, pad as int),
                ow == sp_out_count(t4.sp_w(), fw as int, stride as int, pad as int),
                oh >= 1,
                ow >= 1,
                cols == t4.sp_c() * ((oh as int) * (ow as int)),
                bi < t4.sp_b(),
                ci <= t4.sp_c(),
                row@.len() == ci * ((oh as int) * (ow as int)),
                forall|c2: int|
                    0 <= c2 < row@.len() ==> #[trigger] row@[c2] == sp_pool_entry(
                        t4,
                        fh as int,
                        fw as int,
                        stride as int,
                        pad as int,
                        bi as int,
                        c2,
                    ),
            decreases t4.sp_c() - ci,
        {
            proof {
                assert((0int) * (ow as int) == 0) by (nonlinear_arith);
            }
            let mut sh: usize = 0;
            while sh < oh
                invariant
                    t4.wf(),
                    sp_window_ok(t4, fh as int, fw as int, stride as int, pad as int),
                    oh == sp_out_count(t4.sp_h(), fh as int, stride as int, pad as int),
                    ow == sp_out_count(t4.sp_w(), fw as int, stride as int, pad as int),
                    oh >= 1,
                    ow >= 1,
                    cols == t4.sp_c() * ((oh as int) * (ow as int)),
                    bi < t4.sp_b(),
                    ci < t4.sp_c(),
                    sh <= oh,
                    row@.len() == ci * ((oh as int) * (ow as int)) + sh * ow,
                    forall|c2: int|
                        0 <= c2 < row@.len() ==> #[trigger] row@[c2] == sp_pool_entry(
                            t4,
                            fh as int,
                            fw as int,
                            stride as int,
                            pad as int,
                            bi as int,
                            c2,
                        ),
                decreases oh - sh,
            {
                let mut sw: usize = 0;
                while sw < ow
                    invariant
                        t4.wf(),
                        sp_window_ok(t4, fh as int, fw as int, stride as int, pad as int),
                        oh == sp_out_count(t4.sp_h(), fh as int, stride as int, pad as int),
                        ow == sp_out_count(t4.sp_w(), fw as int, stride as int, pad as int),
                        oh >= 1,
                        ow >= 1,
                        cols == t4.sp_c() * ((oh as int) * (ow as int)),
                        bi < t4.sp_b(),
                        ci < t4.sp_c(),
                        sh < oh,
                        sw <= ow,
                        row@.len() == ci * ((oh as int) * (ow as int)) + sh * ow + sw,
                        forall|c2: int|
                            0 <= c2 < row@.len() ==> #[trigger] row@[c2] == sp_pool_entry(
                                t4,
                                fh as int,
                                fw as int,
                                stride as int,
                                pad as int,
                                bi as int,
                                c2,
                            ),
                    decreases ow - sw,
                {
                    proof {
                        lemma_flat_bound(
                            ci as int,
                            sh as int,
                            sw as int,
                            t4.sp_c(),
                            oh as int,
                            ow as int,
                        );
                        assert(ci * ((oh as int) * (ow as int)) + sh * ow + sw == (ci * (oh as int)
                            + sh) * (ow as int) + sw) by (nonlinear_arith);
                        lemma_flat3_decompose(
                            ci as int,
                            sh as int,
                            sw as int,
                            t4.sp_c(),
                            oh as int,
                            ow as int,
                        );
                    }
                    let v = window_max(t4, fh, fw, stride, pad, bi, ci, sh, sw, oh, ow);
                    row.push(v);
                    sw = sw + 1;
                }
                proof {
                    assert(ci * ((oh as int) * (ow as int)) + sh * ow + ow == ci * ((oh as int) * (
                    ow as int)) + (sh + 1) * ow) by (nonlinear_arith);
                }
                sh = sh + 1;
            }
            proof {
                assert(ci * ((oh as int) * (ow as int)) + oh * ow == (ci + 1) * ((oh as int) * (
                ow as int))) by (nonlinear_arith);
            }
            ci = ci + 1;
        }
        data.push(row);
        bi = bi + 1;
    }
    match Tensor::new(t4.batch, cols, data) {
        Some(t) => t,
        None => {
            proof {
                assert(false);
            }
            Tensor::zeros(t4.batch, cols)
        },
    }
}

/// The greatest value of one pooling window.
fn window_max<S: Scalar>(
    t4: &Tensor4<S>,
    fh: usize,
    fw: usize,
    stride: usize,
    pad: usize,
    bi: usize,
    ci: usize,
    sh: usize,
    sw: usize,
    oh: usize,
    ow: usize,
) -> (m: S)
    requires
        t4.wf(),
        sp_window_ok(t4, fh as int, fw as int, stride as int, pad as int),
        oh == sp_out_count(t4.sp_h(), fh as int, stride as int, pad as int),
        ow == sp_out_count(t4.sp_w(), fw as int, stride as int, pad as int),
        bi < t4.sp_b(),
        ci < t4.sp_c(),
        sh < oh,
        sw < ow,
    ensures
        m == crate::activation_functions::sp_max_fold(
            Seq::new(
                (fh * fw) as nat,
                |k: int| sp_padded_at(
                    t4,
                    pad as int,
                    bi as int,
                    ci as int,
                    sh * stride + k / (fw as int),
                    sw * stride + k % (fw as int),
                ),
            ),
        ),
{
    proof {
        assert((fh as int) * (fw as int) >= 1) by (nonlinear_arith)
            requires
                fh as int >= 1,
                fw as int >= 1;
    }
    let total = fh * fw;
    let mut m: S = window_value(t4, fh, fw, stride, pad, bi, ci, sh, sw, 0);
    let mut k: usize = 1;
    proof {
        assert(Seq::new(
            1nat,
            |k2: int| sp_padded_at(
                t4,
                pad as int,
                bi as int,
                ci as int,
                sh * stride + k2 / (fw as int),
                sw * stride + k2 % (fw as int),
            ),
        )[0] == sp_padded_at(
            t4,
            pad as int,
            bi as int,
            ci as int,
            sh * stride + 0int,
            sw * stride + 0int,
        ));
    }
    while k < total
        invariant
            t4.wf(),
            sp_window_ok(t4, fh as int, fw as int, stride as int, pad as int),
            oh == sp_out_count(t4.sp_h(), fh as int, stride as int, pad as int),
            ow == sp_out_count(t4.sp_w(), fw as int, stride as int, pad as int),
            bi < t4.sp_b(),
            ci < t4.sp_c(),
            sh < oh,
            sw < ow,
            total == fh * fw,
            1 <= k <= total,
            m == crate::activation_functions::sp_max_fold(
                Seq::new(
                    k as nat,
                    |k2: int| sp_padded_at(
                        t4,
                        pad as int,
                        bi as int,
                        ci as int,
                        sh * stride + k2 / (fw as int),
                        sw * stride + k2 % (fw as int),
                    ),
                ),
            ),
        decreases total - k,
    {
        let v = window_value(t4, fh, fw, stride, pad, bi, ci, sh, sw, k);
        proof {
            let f = |k2: int| sp_padded_at(
                t4,
                pad as int,
                bi as int,
                ci as int,
                sh * stride + k2 / (fw as int),
                sw * stride + k2 % (fw as int),
            );
            assert(Seq::new((k + 1) as nat, f).drop_last() =~= Seq::new(k as nat, f));
            assert(Seq::new((k + 1) as nat, f).last() == f(k as int));
        }
        if m.lt(v) {
            m = v;
        }
        k = k + 1;
    }
    m
}

/// One summand of a convolution cell: filter weight `k` of filter `f` times
/// the padded input value its cell covers, the flat weight index read
/// channel-major as `(channel, filter row, filter column)`.
pub open spec fn sp_conv_term<S: Scalar>(
    t4: &Tensor4<S>,
    filter: &Tensor<S>,
    fh: int,
    fw: int,
    stride: int,
    pad: int,
    b: int,
    f: int,
    sh: int,
    sw: int,
    k: int,
) -> S {
    let ci = k / (fh * fw);
    let fy = (k % (fh * fw)) / fw;
    let fx = (k % (fh * fw)) % fw;
    filter.sp_at(f, k).sp_mul(
        sp_padded_at(t4, pad, b, ci, sh * stride + fy, sw * stride + fx),
    )
}

/// Entry `(b, c)` of the convolution output: decompose the column into
/// `(filter, window row, window column)`, take the dot product of that
/// filter's flattened weights with the window patch, and add the filter's
/// bias.
pub open spec fn sp_conv_entry<S: Scalar>(
    t4: &Tensor4<S>,
    filter: &Tensor<S>,
    bias: &Tensor<S>,
    fh: int,
    fw: int,
    stride: int,
    pad: int,
    b: int,
    c: int,
) -> S {
    let oh = sp_out_count(t4.sp_h(), fh, stride, pad);
    let ow = sp_out_count(t4.sp_w(), fw, stride, pad);
    let f = c / (oh * ow);
    let sh = (c % (oh * ow)) / ow;
    let sw = (c % (oh * ow)) % ow;
    sp_sum(
        Seq::new(
            (t4.sp_c() * fh * fw) as nat,
            |k: int| sp_conv_term(t4, filter, fh, fw, stride, pad, b, f, sh, sw, k),
        ),
    ).sp_add(bias.sp_at(f, 0))
}

/// The convolution forward pass: every filter swept over every window of
/// every batch element, bias added, filters laid out filter-major.
pub fn convolution_forward<S: Scalar>(
    t4: &Tensor4<S>,
    filter: &Tensor<S>,
    bias: &Tensor<S>,
    fh: usize,
    fw: usize,
    stride: usize,
    pad: usize,
) -> (r: Tensor<S>)
    requires
        t4.wf(),
        filter.wf(),
        bias.wf(),
        sp_window_ok(t4, fh as int, fw as int, stride as int, pad as int),
        filter.sp_cols() == t4.sp_c() * fh * fw,
        bias.sp_is_shape(filter.sp_rows(), 1),
        filter.sp_rows() * (sp_out_count(t4.sp_h(), fh as int, stride as int, pad as int)
            * sp_out_count(t4.sp_w(), fw as int, stride as int, pad as int)) <= usize::MAX,
    ensures
        r.wf(),
        r.sp_is_shape(
            t4.sp_b(),
            filter.sp_rows() * (sp_out_count(t4.sp_h(), fh as int, stride as int, pad as int)
                * sp_out_count(t4.sp_w(), fw as int, stride as int, pad as int)),
        ),
        forall|bi: int, ci: int|
            0 <= bi < r.sp_rows() && 0 <= ci < r.sp_cols() ==> #[trigger] r.sp_at(bi, ci)
                == sp_conv_entry(
                t4,
                filter,
                bias,
                fh as int,
                fw as int,
                stride as int,
                pad as int,
                bi,
                ci,
            ),
{
    let oh = out_count(t4.height, fh, stride, pad);
    let ow = out_count(t4.width, fw, stride, pad);
    proof {
        lemma_out_count_pos(t4.sp_h(), fh as int, stride as int, pad as int);
        lemma_out_count_pos(t4.sp_w(), fw as int, stride as int, pad as int);
        filter.lemma_shape_bounds();
    }
    let fnum = filter.rows();
    let cols = fnum * (oh * ow);
    let mut data: Vec<Vec<S>> = Vec::new();
    let mut bi: usize = 0;
    while bi < t4.batch
        invariant
            t4.wf(),
            filter.wf(),
            bias.wf(),
            sp_window_ok(t4, fh as int, fw as int, stride as int, pad as int),
            filter.sp_cols() == t4.sp_c() * fh * fw,
            bias.sp_is_shape(filter.sp_rows(), 1),
            oh == sp_out_count(t4.sp_h(), fh as int, stride as int, pad as int),
            ow == sp_out_count(t4.sp_w(), fw as int, stride as int, pad as int),
            oh >= 1,
            ow >= 1,
            fnum == filter.sp_rows(),
            cols == fnum * ((oh as int) * (ow as int)),
            bi <= t4.sp_b(),
            data@.len() == bi,
            forall|b2: int| 0 <= b2 < bi ==> (#[trigger] data@[b2])@.len() == cols,
            forall|b2: int, c2: int|
                0 <= b2 < bi && 0 <= c2 < cols ==> #[trigger] data@[b2]@[c2] == sp_conv_entry(
                    t4,
                    filter,
                    bias,
                    fh as int,
                    fw as int,
                    stride as int,
                    pad as int,
                    b2,
                    c2,
                ),
        decreases t4.sp_b() - bi,
    {
        let mut row: Vec<S> = Vec::new();
        proof {
            assert((0int) * ((oh as int) * (ow as int)) == 0) by (nonlinear_arith);
        }
        let mut f: usize = 0;
        while f < fnum
            invariant
                t4.wf(),
                filter.wf(),
                bias.wf(),
                sp_window_ok(t4, fh as int, fw as int, stride as int, pad as int),
                filter.sp_cols() == t4.sp_c() * fh * fw,
                bias.sp_is_shape(filter.sp_rows(), 1),
                oh == sp_out_count(t4.sp_h(), fh as int, stride as int, pad as int),
                ow == sp_out_count(t4.sp_w(), fw as int, stride as int, pad as int),
                oh >= 1,
                ow >= 1,
                fnum == filter.sp_rows(),
                cols == fnum * ((oh as int) * (ow as int)),
                bi < t4.sp_b(),
                f <= fnum,
                row@.len() == f * ((oh as int) * (ow as int)),
                forall|c2: int|
                    0 <= c2 < row@.len() ==> #[trigger] row@[c2] == sp_conv_entry(
                        t4,
                        filter,
                        bias,
                        fh as int,
                        fw as int,
                        stride as int,
                        pad as int,
                        bi as int,
                        c2,
                    ),
            decreases fnum - f,
        {
            proof {
                assert((0int) * (ow as int) == 0) by (nonlinear_arith);
            }
            let mut sh: usize = 0;
            while sh < oh
                invariant
                    t4.wf(),
                    filter.wf(),
                    bias.wf(),
                    sp_window_ok(t4, fh as int, fw as int, stride as int, pad as int),
                    filter.sp_cols() == t4.sp_c() * fh * fw,
                    bias.sp_is_shape(filter.sp_rows(), 1),
                    oh == sp_out_count(t4.sp_h(), fh as int, stride as int, pad as int),
                    ow == sp_out_count(t4.sp_w(), fw as int, stride as int, pad as int),
                    oh >= 1,
                    ow >= 1,
                    fnum == filter.sp_rows(),
                    cols == fnum * ((oh as int) * (ow as int)),
                    bi < t4.sp_b(),
                    f < fnum,
                    sh <= oh,
                    row@.len() == f * ((oh as int) * (ow as int)) + sh * ow,
                    forall|c2: int|
                        0 <= c2 < row@.len() ==> #[trigger] row@[c2] == sp_conv_entry(
                            t4,
                            filter,
                            bias,
                            fh as int,
                            fw as int,
                            stride as int,
                            pad as int,
                            bi as int,
                            c2,
                        ),
                decreases oh - sh,
            {
                let mut sw: usize = 0;
                while sw < ow
                    invariant
                        t4.wf(),
                        filter.wf(),
                        bias.wf(),
                        sp_window_ok(t4, fh as int, fw as int, stride as int, pad as int),
                        filter.sp_cols() == t4.sp_c() * fh * fw,
                        bias.sp_is_shape(filter.sp_rows(), 1),
                        oh == sp_out_count(t4.sp_h(), fh as int, stride as int, pad as int),
                        ow == sp_out_count(t4.sp_w(), fw as int, stride as int, pad as int),
                        oh >= 1,
                        ow >= 1,
                        fnum == filter.sp_rows(),
                        cols == fnum * ((oh as int) * (ow as int)),
                        bi < t4.sp_b(),
                        f < fnum,
                        sh < oh,
                        sw <= ow,
                        row@.len() == f * ((oh as int) * (ow as int)) + sh * ow + sw,
                        forall|c2: int|
                            0 <= c2 < row@.len() ==> #[trigger] row@[c2] == sp_conv_entry(
                                t4,
                                filter,
                                bias,
                                fh as int,
                                fw as int,
                                stride as int,
                                pad as int,
                                bi as int,
                                c2,
                            ),
                    decreases ow - sw,
                {
                    proof {
                        lemma_flat_bound(
                            f as int,
                            sh as int,
                            sw as int,
                            fnum as int,
                            oh as int,
                            ow as int,
                        );
                        assert(f * ((oh as int) * (ow as int)) + sh * ow + sw == (f * (oh as int)
                            + sh) * (ow as int) + sw) by (nonlinear_arith);
                        lemma_flat3_decompose(
                            f as int,
                            sh as int,
                            sw as int,
                            fnum as int,
                            oh as int,
                            ow as int,
                        );
                    }
                    let v = conv_cell(t4, filter, bias, fh, fw, stride, pad, bi, f, sh, sw, oh, ow);
                    row.push(v);
                    sw = sw + 1;
                }
                proof {
                    assert(f * ((oh as int) * (ow as int)) + sh * ow + ow == f * ((oh as int) * (
                    ow as int)) + (sh + 1) * ow) by (nonlinear_arith);
                }
                sh = sh + 1;
            }
            proof {
                assert(f * ((oh as int) * (ow as int)) + oh * ow == (f + 1) * ((oh as int) * (
                ow as int))) by (nonlinear_arith);
            }
            f = f + 1;
        }
        data.push(row);
        bi = bi + 1;
    }
    match Tensor::new(t4.batch, cols, data) {
        Some(t) => t,
        None => {
            proof {
                assert(false);
            }
            Tensor::zeros(t4.batch, cols)
        },
    }
}

/// One convolution cell: the weighted sum over the window plus the bias.
fn conv_cell<S: Scalar>(
    t4: &Tensor4<S>,
    filter: &Tensor<S>,
    bias: &Tensor<S>,
    fh: usize,
    fw: usize,
    stride: usize,
    pad: usize,
    bi: usize,
    f: usize,
    sh: usize,
    sw: usize,
    oh: usize,
    ow: usize,
) -> (v: S)
    requires
        t4.wf(),
        filter.wf(),
        bias.wf(),
        sp_window_ok(t4, fh as int, fw as int, stride as int, pad as int),
        filter.sp_cols() == t4.sp_c() * fh * fw,
        bias.sp_is_shape(filter.sp_rows(), 1),
        oh == sp_out_count(t4.sp_h(), fh as int, stride as int, pad as int),
        ow == sp_out_count(t4.sp_w(), fw as int, stride as int, pad as int),
        bi < t4.sp_b(),
        f < filter.sp_rows(),
        sh < oh,
        sw < ow,
    ensures
        v == sp_sum(
            Seq::new(
                (t4.sp_c() * fh * fw) as nat,
                |k: int| sp_conv_term(
                    t4,
                    filter,
                    fh as int,
                    fw as int,
                    stride as int,
                    pad as int,
                    bi as int,
                    f as int,
                    sh as int,
                    sw as int,
                    k,
                ),
            ),
        ).sp_add(bias.sp_at(f as int, 0)),
{
    proof {
        t4.lemma_dims_bounds();
        assert((t4.sp_c() * (fh as int)) * (fw as int) == t4.sp_c() * (fh as int) * (fw as int))
            by (nonlinear_arith);
        assert(t4.sp_c() * (fh as int) <= t4.sp_c() * (fh as int) * (fw as int))
            by (nonlinear_arith)
            requires
                fw as int >= 1,
                t4.sp_c() >= 0,
                fh as int >= 0;
        assert(t4.sp_c() * (fh as int) >= 0) by (nonlinear_arith)
            requires
                t4.sp_c() >= 0,
                fh as int >= 0;
    }
    let total = t4.channel * fh * fw;
    let mut acc: S = S::zero();
    let mut k: usize = 0;
    while k < total
        invariant
            t4.wf(),
            filter.wf(),
            bias.wf(),
            sp_window_ok(t4, fh as int, fw as int, stride as int, pad as int),
            filter.sp_cols() == t4.sp_c() * fh * fw,
            oh == sp_out_count(t4.sp_h(), fh as int, stride as int, pad as int),
            ow == sp_out_count(t4.sp_w(), fw as int, stride as int, pad as int),
            bi < t4.sp_b(),
            f < filter.sp_rows(),
            sh < oh,
            sw < ow,
            total == t4.sp_c() * fh * fw,
            k <= total,
            acc == sp_sum(
                Seq::new(
                    k as nat,
                    |k2: int| sp_conv_term(
                        t4,
                        filter,
                        fh as int,
                        fw as int,
                        stride as int,
                        pad as int,
                        bi as int,
                        f as int,
                        sh as int,
                        sw as int,
                        k2,
                    ),
                ),
            ),
        decreases total - k,
    {
        proof {
            assert((fh as int) * (fw as int) >= 1) by (nonlinear_arith)
                requires
                    fh as int >= 1,
                    fw as int >= 1;
            assert((k as int) / ((fh as int) * (fw as int)) < t4.sp_c()) by (nonlinear_arith)
                requires
                    0 <= k as int,
                    (k as int) < t4.sp_c() * (fh as int) * (fw as int),
                    (fh as int) * (fw as int) >= 1;
            assert(((k as int) % ((fh as int) * (fw as int))) / (fw as int) < fh as int)
                by (nonlinear_arith)
                requires
                    0 <= (k as int) % ((fh as int) * (fw as int)) < (fh as int) * (fw as int),
                    fw as int >= 1;
            lemma_window_fit(
                sh as int,
                ((k as int) % ((fh as int) * (fw as int))) / (fw as int),
                t4.sp_h(),
                fh as int,
                stride as int,
                pad as int,
            );
            lemma_window_fit(
                sw as int,
                ((k as int) % ((fh as int) * (fw as int))) % (fw as int),
                t4.sp_w(),
                fw as int,
                stride as int,
                pad as int,
            );
            let fgh = |k2: int| sp_conv_term(
                t4,
                filter,
                fh as int,
                fw as int,
                stride as int,
                pad as int,
                bi as int,
                f as int,
                sh as int,
                sw as int,
                k2,
            );
            assert(Seq::new((k + 1) as nat, fgh) =~= Seq::new(k as nat, fgh).push(fgh(k as int)));
            crate::tensor::lemma_sp_sum_push(Seq::new(k as nat, fgh), fgh(k as int));
        }
        let fhfw = fh * fw;
        let ci = k / fhfw;
        let rem = k % fhfw;
        let fy = rem / fw;
        let fx = rem % fw;
        let yy = sh * stride + fy;
        let xx = sw * stride + fx;
        let pv: S = if yy >= pad && yy < pad + t4.height && xx >= pad && xx < pad + t4.width {
            t4.get4(bi, ci, yy - pad, xx - pad)
        } else {
            S::zero()
        };
        acc = acc.add(filter.get(f, k).mul(pv));
        k = k + 1;
    }
    proof {
        let fgh = |k2: int| sp_conv_term(
            t4,
            filter,
            fh as int,
            fw as int,
            stride as int,
            pad as int,
            bi as int,
            f as int,
            sh as int,
            sw as int,
            k2,
        );
        assert(Seq::new((t4.sp_c() * fh * fw) as nat, fgh) =~= Seq::new(k as nat, fgh));
    }
    acc.add(bias.get(f, 0))
}

/// Two four-axis tensors of the same shape with equal entries.
pub open spec fn sp_t4_eq<S: Scalar>(a: &Tensor4<S>, b: &Tensor4<S>) -> bool {
    &&& a.sp_b() == b.sp_b()
    &&& a.sp_c() == b.sp_c()
    &&& a.sp_h() == b.sp_h()
    &&& a.sp_w() == b.sp_w()
    &&& forall|i: int, j: int, k: int, l: int|
        0 <= i < a.sp_b() && 0 <= j < a.sp_c() && 0 <= k < a.sp_h() && 0 <= l < a.sp_w()
            ==> #[trigger] a.sp_at4(i, j, k, l) == b.sp_at4(i, j, k, l)
}

/// A convolution entry only depends on the entries of the input, the filter
/// and the bias.
pub proof fn lemma_conv_entry_congr<S: Scalar>(
    t4a: &Tensor4<S>,
    t4b: &Tensor4<S>,
    fa: &Tensor<S>,
    fb: &Tensor<S>,
    ba: &Tensor<S>,
    bb: &Tensor<S>,
    fh: int,
    fw: int,
    stride: int,
    pad: int,
    i: int,
    j: int,
)
    requires
        sp_t4_eq(t4a, t4b),
        crate::tensor::sp_t_eq(*fa, *fb),
        crate::tensor::sp_t_eq(*ba, *bb),
        sp_window_ok(t4a, fh, fw, stride, pad),
        fa.sp_cols() == t4a.sp_c() * fh * fw,
        ba.sp_is_shape(fa.sp_rows(), 1),
        0 <= i < t4a.sp_b(),
        0 <= j < fa.sp_rows() * (sp_out_count(t4a.sp_h(), fh, stride, pad) * sp_out_count(
            t4a.sp_w(),
            fw,
            stride,
            pad,
        )),
    ensures
        sp_conv_entry(t4a, fa, ba, fh, fw, stride, pad, i, j) == sp_conv_entry(
            t4b,
            fb,
            bb,
            fh,
            fw,
            stride,
            pad,
            i,
            j,
        ),
{
    let oh = sp_out_count(t4a.sp_h(), fh, stride, pad);
    let ow = sp_out_count(t4a.sp_w(), fw, stride, pad);
    lemma_out_count_pos(t4a.sp_h(), fh, stride, pad);
    lemma_out_count_pos(t4a.sp_w(), fw, stride, pad);
    let f = j / (oh * ow);
    let sh = (j % (oh * ow)) / ow;
    let sw = (j % (oh * ow)) % ow;
    assert(oh * ow >= 1) by (nonlinear_arith)
        requires
            oh >= 1,
            ow >= 1;
    assert(0 <= f < fa.sp_rows()) by (nonlinear_arith)
        requires
            0 <= j < fa.sp_rows() * (oh * ow),
            oh * ow >= 1,
            f == j / (oh * ow);
    let s1 = Seq::new(
        (t4a.sp_c() * fh * fw) as nat,
        |k: int| sp_conv_term(t4a, fa, fh, fw, stride, pad, i, f, sh, sw, k),
    );
    let s2 = Seq::new(
        (t4a.sp_c() * fh * fw) as nat,
        |k: int| sp_conv_term(t4b, fb, fh, fw, stride, pad, i, f, sh, sw, k),
    );
    assert forall|k: int| 0 <= k < s1.len() implies s1[k] == s2[k] by {
        assert(fa.sp_at(f, k) == fb.sp_at(f, k));
        assert((fh) * (fw) >= 1) by (nonlinear_arith)
            requires
                fh >= 1,
                fw >= 1;
        assert(0 <= k / (fh * fw) < t4a.sp_c()) by (nonlinear_arith)
            requires
                0 <= k < t4a.sp_c() * fh * fw,
                fh * fw >= 1;
        assert(0 <= (k % (fh * fw)) / fw) by (nonlinear_arith)
            requires
                0 <= k % (fh * fw),
                fw >= 1;
    }
    assert(s1 =~= s2);
    assert(ba.sp_at(f, 0) == bb.sp_at(f, 0));
}

/// A pooling entry only depends on the entries of the input.
pub proof fn lemma_pool_entry_congr<S: Scalar>(
    t4a: &Tensor4<S>,
    t4b: &Tensor4<S>,
    fh: int,
    fw: int,
    stride: int,
    pad: int,
    i: int,
    j: int,
)
    requires
        sp_t4_eq(t4a, t4b),
        sp_window_ok(t4a, fh, fw, stride, pad),
        0 <= i < t4a.sp_b(),
        0 <= j < t4a.sp_c() * (sp_out_count(t4a.sp_h(), fh, stride, pad) * sp_out_count(
            t4a.sp_w(),
            fw,
            stride,
            pad,
        )),
    ensures
        sp_pool_entry(t4a, fh, fw, stride, pad, i, j) == sp_pool_entry(
            t4b,
            fh,
            fw,
            stride,
            pad,
            i,
            j,
        ),
{
    let oh = sp_out_count(t4a.sp_h(), fh, stride, pad);
    let ow = sp_out_count(t4a.sp_w(), fw, stride, pad);
    let ci = j / (oh * ow);
    let sh = (j % (oh * ow)) / ow;
    let sw = (j % (oh * ow)) % ow;
    let s1 = Seq::new(
        (fh * fw) as nat,
        |k: int| sp_padded_at(t4a, pad, i, ci, sh * stride + k / fw, sw * stride + k % fw),
    );
    let s2 = Seq::new(
        (fh * fw) as nat,
        |k: int| sp_padded_at(t4b, pad, i, ci, sh * stride + k / fw, sw * stride + k % fw),
    );
    lemma_out_count_pos(t4a.sp_h(), fh, stride, pad);
    lemma_out_count_pos(t4a.sp_w(), fw, stride, pad);
    assert(oh * ow >= 1) by (nonlinear_arith)
        requires
            oh >= 1,
            ow >= 1;
    assert(0 <= ci < t4a.sp_c()) by (nonlinear_arith)
        requires
            0 <= j < t4a.sp_c() * (oh * ow),
            oh * ow >= 1,
            ci == j / (oh * ow);
    assert forall|k: int| 0 <= k < s1.len() implies s1[k] == s2[k] by {
        assert(0 <= k / fw) by (nonlinear_arith)
            requires
                0 <= k,
                fw >= 1;
    }
    assert(s1 =~= s2);
}

/// The padded input value that window cell `k` of the window at
/// `(bi, ci, sh, sw)` covers.
fn window_value<S: Scalar>(
    t4: &Tensor4<S>,
    fh: usize,
    fw: usize,
    stride: usize,
    pad: usize,
    bi: usize,
    ci: usize,
    sh: usize,
    sw: usize,
    k: usize,
) -> (v: S)
    requires
        t4.wf(),
        sp_window_ok(t4, fh as int, fw as int, stride as int, pad as int),
        bi < t4.sp_b(),
        ci < t4.sp_c(),
        sh < sp_out_count(t4.sp_h(), fh as int, stride as int, pad as int),
        sw < sp_out_count(t4.sp_w(), fw as int, stride as int, pad as int),
        k < fh * fw,
    ensures
        v == sp_padded_at(
            t4,
            pad as int,
            bi as int,
            ci as int,
            sh * stride + (k as int) / (fw as int),
            sw * stride + (k as int) % (fw as int),
        ),
{
    proof {
        assert((k as int) / (fw as int) < fh) by (nonlinear_arith)
            requires
                0 <= k as int,
                (k as int) < (fh as int) * (fw as int),
                fw as int >= 1;
        lemma_window_fit(
            sh as int,
            (k as int) / (fw as int),
            t4.sp_h(),
            fh as int,
            stride as int,
            pad as int,
        );
        lemma_window_fit(
            sw as int,
            (k as int) % (fw as int),
            t4.sp_w(),
            fw as int,
            stride as int,
            pad as int,
        );
    }
    let fy = k / fw;
    let fx = k % fw;
    let yy = sh * stride + fy;
    let xx = sw * stride + fx;
    if yy >= pad && yy < pad + t4.height && xx >= pad && xx < pad + t4.width {
        t4.get4(bi, ci, yy - pad, xx - pad)
    } else {
        S::zero()
    }
}

} // verus!
