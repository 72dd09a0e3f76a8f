//! Dense two-dimensional tensors over an arbitrary [`Scalar`].
//!
//! Every value and gradient in the layer graph is such a tensor; the batch
//! axis is the row axis.  Each operation's contract pins every entry of the
//! result down through the scalar's specification functions.

use vstd::prelude::*;

use crate::scalar::Scalar;

verus! {

/// A dense matrix of scalars, stored as rows.
pub struct Tensor<S: Scalar> {
    rows: usize,
    cols: usize,
    data: Vec<Vec<S>>,
}

/// The sum of a sequence of scalars, accumulated left to right from zero.
pub open spec fn sp_sum<S: Scalar>(s: Seq<S>) -> S
    decreases s.len(),
{
    if s.len() == 0 {
        S::sp_zero()
    } else {
        sp_sum(s.drop_last()).sp_add(s.last())
    }
}

/// Two tensors of the same shape with equal entries.
pub open spec fn sp_t_eq<S: Scalar>(a: Tensor<S>, b: Tensor<S>) -> bool {
    &&& a.sp_rows() == b.sp_rows()
    &&& a.sp_cols() == b.sp_cols()
    &&& forall|i: int, j: int|
        0 <= i < a.sp_rows() && 0 <= j < a.sp_cols() ==> #[trigger] a.sp_at(i, j) == b.sp_at(i, j)
}

/// Appending one element adds it to the sum.
pub proof fn lemma_sp_sum_push<S: Scalar>(s: Seq<S>, x: S)
    ensures
        sp_sum(s.push(x)) == sp_sum(s).sp_add(x),
{
    assert(s.push(x).drop_last() =~= s);
}

impl<S: Scalar> Tensor<S> {
    /// The number of rows.
    pub closed spec fn sp_rows(&self) -> int {
        self.rows as int
    }

    /// The number of columns.
    pub closed spec fn sp_cols(&self) -> int {
        self.cols as int
    }

    /// The entry in row `i`, column `j`.
    pub closed spec fn sp_at(&self, i: int, j: int) -> S {
        self.data@[i]@[j]
    }

    /// Well-formed: the storage really is an `rows x cols` grid.
    pub closed spec fn wf(&self) -> bool {
        &&& self.data@.len() == self.rows
        &&& forall|i: int|
            0 <= i < self.rows ==> (#[trigger] self.data@[i])@.len() == self.cols
    }

    /// Both dimensions agree with the given ones.
    pub open spec fn sp_is_shape(&self, rows: int, cols: int) -> bool {
        self.sp_rows() == rows && self.sp_cols() == cols
    }

    /// Same dimensions as another tensor.
    pub open spec fn sp_same_shape(&self, other: &Tensor<S>) -> bool {
        self.sp_rows() == other.sp_rows() && self.sp_cols() == other.sp_cols()
    }

    /// The grid holds a non-negative number of entries.
    pub proof fn lemma_grid_size(&self)
        ensures
            self.sp_rows() * self.sp_cols() >= 0,
    {
        assert(self.sp_rows() * self.sp_cols() >= 0) by (nonlinear_arith)
            requires
                self.sp_rows() >= 0,
                self.sp_cols() >= 0;
    }

    /// Both dimensions are machine-sized.
    pub proof fn lemma_shape_bounds(&self)
        ensures
            0 <= self.sp_rows() <= usize::MAX as int,
            0 <= self.sp_cols() <= usize::MAX as int,
    {
    }

    pub fn rows(&self) -> (r: usize)
        ensures
            r as int == self.sp_rows(),
    {
        self.rows
    }

    pub fn cols(&self) -> (r: usize)
        ensures
            r as int == self.sp_cols(),
    {
        self.cols
    }

    /// Builds a tensor from rows; fails exactly when the grid is ragged or
    /// has the wrong dimensions.
    pub fn new(rows: usize, cols: usize, data: Vec<Vec<S>>) -> (r: Option<Tensor<S>>)
        ensures
            r is Some <==> (data@.len() == rows && forall|i: int|
                0 <= i < data@.len() ==> (#[trigger] data@[i])@.len() == cols),
            r is Some ==> {
                let t = r->Some_0;
                &&& t.wf()
                &&& t.sp_is_shape(rows as int, cols as int)
                &&& forall|i: int, j: int|
                    0 <= i < rows && 0 <= j < cols ==> #[trigger] t.sp_at(i, j) == data@[i]@[j]
            },
    {
        if data.len() != rows {
            return None;
        }
        let mut i: usize = 0;
        while i < rows
            invariant
                i <= rows,
                data@.len() == rows,
                forall|k: int| 0 <= k < i ==> (#[trigger] data@[k])@.len() == cols,
            decreases rows - i,
        {
            if data[i].len() != cols {
                return None;
            }
            i = i + 1;
        }
        Some(Tensor { rows, cols, data })
    }

    /// A `rows x cols` tensor with every entry equal to `v`.
    pub fn filled(rows: usize, cols: usize, v: S) -> (t: Tensor<S>)
        ensures
            t.wf(),
            t.sp_is_shape(rows as int, cols as int),
            forall|i: int, j: int|
                0 <= i < rows && 0 <= j < cols ==> #[trigger] t.sp_at(i, j) == v,
    {
        let mut data: Vec<Vec<S>> = Vec::new();
        let mut i: usize = 0;
        while i < rows
            invariant
                i <= rows,
                data@.len() == i,
                forall|k: int|
                    0 <= k < i ==> (#[trigger] data@[k])@.len() == cols,
                forall|k: int, j: int|
                    0 <= k < i && 0 <= j < cols ==> #[trigger] data@[k]@[j] == v,
            decreases rows - i,
        {
            let mut row: Vec<S> = Vec::new();
            let mut j: usize = 0;
            while j < cols
                invariant
                    j <= cols,
                    row@.len() == j,
                    forall|m: int| 0 <= m < j ==> #[trigger] row@[m] == v,
                decreases cols - j,
            {
                row.push(v);
                j = j + 1;
            }
            data.push(row);
            i = i + 1;
        }
        Tensor { rows, cols, data }
    }

    /// An all-zero tensor.
    pub fn zeros(rows: usize, cols: usize) -> (t: Tensor<S>)
        ensures
            t.wf(),
            t.sp_is_shape(rows as int, cols as int),
            forall|i: int, j: int|
                0 <= i < rows && 0 <= j < cols ==> #[trigger] t.sp_at(i, j) == S::sp_zero(),
    {
        Tensor::filled(rows, cols, S::zero())
    }

    /// An all-one tensor.
    pub fn ones(rows: usize, cols: usize) -> (t: Tensor<S>)
        ensures
            t.wf(),
            t.sp_is_shape(rows as int, cols as int),
            forall|i: int, j: int|
                0 <= i < rows && 0 <= j < cols ==> #[trigger] t.sp_at(i, j) == S::sp_one(),
    {
        Tensor::filled(rows, cols, S::one())
    }

    /// Row `i` as a sequence.
    pub open spec fn sp_row(&self, i: int) -> Seq<S> {
        Seq::new(self.sp_cols() as nat, |j: int| self.sp_at(i, j))
    }

    /// Row `i` as a vector of scalars.
    pub fn row_vec(&self, i: usize) -> (r: Vec<S>)
        requires
            self.wf(),
            i < self.sp_rows(),
        ensures
            r@ == self.sp_row(i as int),
    {
        let mut r: Vec<S> = Vec::new();
        let mut j: usize = 0;
        while j < self.cols
            invariant
                self.wf(),
                i < self.sp_rows(),
                j <= self.cols,
                r@.len() == j,
                forall|m: int| 0 <= m < j ==> #[trigger] r@[m] == self.sp_at(i as int, m),
            decreases self.cols - j,
        {
            r.push(self.data[i][j]);
            j = j + 1;
        }
        proof {
            assert(r@ =~= self.sp_row(i as int));
        }
        r
    }

    pub fn get(&self, i: usize, j: usize) -> (r: S)
        requires
            self.wf(),
            i < self.sp_rows(),
            j < self.sp_cols(),
        ensures
            r == self.sp_at(i as int, j as int),
    {
        self.data[i][j]
    }

    /// An equal copy.
    pub fn duplicate(&self) -> (t: Tensor<S>)
        requires
            self.wf(),
        ensures
            t.wf(),
            t.sp_same_shape(self),
            forall|i: int, j: int|
                0 <= i < self.sp_rows() && 0 <= j < self.sp_cols() ==> #[trigger] t.sp_at(i, j)
                    == self.sp_at(i, j),
    {
        let mut data: Vec<Vec<S>> = Vec::new();
        let mut i: usize = 0;
        while i < self.rows
            invariant
                self.wf(),
                i <= self.rows,
                data@.len() == i,
                forall|k: int| 0 <= k < i ==> (#[trigger] data@[k])@.len() == self.cols,
                forall|k: int, j: int|
                    0 <= k < i && 0 <= j < self.sp_cols() ==> #[trigger] data@[k]@[j]
                        == self.sp_at(k, j),
            decreases self.rows - i,
        {
            let mut row: Vec<S> = Vec::new();
            let mut j: usize = 0;
            while j < self.cols
                invariant
                    self.wf(),
                    i < self.rows,
                    j <= self.cols,
                    row@.len() == j,
                    forall|m: int| 0 <= m < j ==> #[trigger] row@[m] == self.sp_at(i as int, m),
                decreases self.cols - j,
            {
                row.push(self.data[i][j]);
                j = j + 1;
            }
            data.push(row);
            i = i + 1;
        }
        Tensor { rows: self.rows, cols: self.cols, data }
    }

    /// Elementwise sum.
    pub fn ew_add(&self, other: &Tensor<S>) -> (r: Tensor<S>)
        requires
            self.wf(),
            other.wf(),
            self.sp_same_shape(other),
        ensures
            r.wf(),
            r.sp_same_shape(self),
            forall|i: int, j: int|
                0 <= i < self.sp_rows() && 0 <= j < self.sp_cols() ==> #[trigger] r.sp_at(i, j)
                    == self.sp_at(i, j).sp_add(other.sp_at(i, j)),
    {
        let mut data: Vec<Vec<S>> = Vec::new();
        let mut i: usize = 0;
        while i < self.rows
            invariant
                self.wf(),
                other.wf(),
                self.sp_same_shape(other),
                i <= self.rows,
                data@.len() == i,
                forall|k: int| 0 <= k < i ==> (#[trigger] data@[k])@.len() == self.cols,
                forall|k: int, j: int|
                    0 <= k < i && 0 <= j < self.sp_cols() ==> #[trigger] data@[k]@[j]
                        == self.sp_at(k, j).sp_add(other.sp_at(k, j)),
            decreases self.rows - i,
        {
            let mut row: Vec<S> = Vec::new();
            let mut j: usize = 0;
            while j < self.cols
                invariant
                    self.wf(),
                    other.wf(),
                    self.sp_same_shape(other),
                    i < self.rows,
                    j <= self.cols,
                    row@.len() == j,
                    forall|m: int|
                        0 <= m < j ==> #[trigger] row@[m] == self.sp_at(i as int, m).sp_add(
                            other.sp_at(i as int, m),
                        ),
                decreases self.cols - j,
            {
                row.push(self.data[i][j].add(other.data[i][j]));
                j = j + 1;
            }
            data.push(row);
            i = i + 1;
        }
        Tensor { rows: self.rows, cols: self.cols, data }
    }

    /// Elementwise difference.
    pub fn ew_sub(&self, other: &Tensor<S>) -> (r: Tensor<S>)
        requires
            self.wf(),
            other.wf(),
            self.sp_same_shape(other),
        ensures
            r.wf(),
            r.sp_same_shape(self),
            forall|i: int, j: int|
                0 <= i < self.sp_rows() && 0 <= j < self.sp_cols() ==> #[trigger] r.sp_at(i, j)
                    == self.sp_at(i, j).sp_sub(other.sp_at(i, j)),
    {
        let mut data: Vec<Vec<S>> = Vec::new();
        let mut i: usize = 0;
        while i < self.rows
            invariant
                self.wf(),
                other.wf(),
                self.sp_same_shape(other),
                i <= self.rows,
                data@.len() == i,
                forall|k: int| 0 <= k < i ==> (#[trigger] data@[k])@.len() == self.cols,
                forall|k: int, j: int|
                    0 <= k < i && 0 <= j < self.sp_cols() ==> #[trigger] data@[k]@[j]
                        == self.sp_at(k, j).sp_sub(other.sp_at(k, j)),
            decreases self.rows - i,
        {
            let mut row: Vec<S> = Vec::new();
            let mut j: usize = 0;
            while j < self.cols
                invariant
                    self.wf(),
                    other.wf(),
                    self.sp_same_shape(other),
                    i < self.rows,
                    j <= self.cols,
                    row@.len() == j,
                    forall|m: int|
                        0 <= m < j ==> #[trigger] row@[m] == self.sp_at(i as int, m).sp_sub(
                            other.sp_at(i as int, m),
                        ),
                decreases self.cols - j,
            {
                row.push(self.data[i][j].sub(other.data[i][j]));
                j = j + 1;
            }
            data.push(row);
            i = i + 1;
        }
        Tensor { rows: self.rows, cols: self.cols, data }
    }

    /// Elementwise product.
    pub fn ew_mul(&self, other: &Tensor<S>) -> (r: Tensor<S>)
        requires
            self.wf(),
            other.wf(),
            self.sp_same_shape(other),
        ensures
            r.wf(),
            r.sp_same_shape(self),
            forall|i: int, j: int|
                0 <= i < self.sp_rows() && 0 <= j < self.sp_cols() ==> #[trigger] r.sp_at(i, j)
                    == self.sp_at(i, j).sp_mul(other.sp_at(i, j)),
    {
        let mut data: Vec<Vec<S>> = Vec::new();
        let mut i: usize = 0;
        while i < self.rows
            invariant
                self.wf(),
                other.wf(),
                self.sp_same_shape(other),
                i <= self.rows,
                data@.len() == i,
                forall|k: int| 0 <= k < i ==> (#[trigger] data@[k])@.len() == self.cols,
                forall|k: int, j: int|
                    0 <= k < i && 0 <= j < self.sp_cols() ==> #[trigger] data@[k]@[j]
                        == self.sp_at(k, j).sp_mul(other.sp_at(k, j)),
            decreases self.rows - i,
        {
            let mut row: Vec<S> = Vec::new();
            let mut j: usize = 0;
            while j < self.cols
                invariant
                    self.wf(),
                    other.wf(),
                    self.sp_same_shape(other),
                    i < self.rows,
                    j <= self.cols,
                    row@.len() == j,
                    forall|m: int|
                        0 <= m < j ==> #[trigger] row@[m] == self.sp_at(i as int, m).sp_mul(
                            other.sp_at(i as int, m),
                        ),
                decreases self.cols - j,
            {
                row.push(self.data[i][j].mul(other.data[i][j]));
                j = j + 1;
            }
            data.push(row);
            i = i + 1;
        }
        Tensor { rows: self.rows, cols: self.cols, data }
    }

    /// Every entry multiplied by `s` (entry on the left, `s` on the right).
    pub fn scale(&self, s: S) -> (r: Tensor<S>)
        requires
            self.wf(),
        ensures
            r.wf(),
            r.sp_same_shape(self),
            forall|i: int, j: int|
                0 <= i < self.sp_rows() && 0 <= j < self.sp_cols() ==> #[trigger] r.sp_at(i, j)
                    == self.sp_at(i, j).sp_mul(s),
    {
        let mut data: Vec<Vec<S>> = Vec::new();
        let mut i: usize = 0;
        while i < self.rows
            invariant
                self.wf(),
                i <= self.rows,
                data@.len() == i,
                forall|k: int| 0 <= k < i ==> (#[trigger] data@[k])@.len() == self.cols,
                forall|k: int, j: int|
                    0 <= k < i && 0 <= j < self.sp_cols() ==> #[trigger] data@[k]@[j]
                        == self.sp_at(k, j).sp_mul(s),
            decreases self.rows - i,
        {
            let mut row: Vec<S> = Vec::new();
            let mut j: usize = 0;
            while j < self.cols
                invariant
                    self.wf(),
                    i < self.rows,
                    j <= self.cols,
                    row@.len() == j,
                    forall|m: int|
                        0 <= m < j ==> #[trigger] row@[m] == self.sp_at(i as int, m).sp_mul(s),
                decreases self.cols - j,
            {
                row.push(self.data[i][j].mul(s));
                j = j + 1;
            }
            data.push(row);
            i = i + 1;
        }
        Tensor { rows: self.rows, cols: self.cols, data }
    }

    /// The transpose.
    pub fn transpose(&self) -> (r: Tensor<S>)
        requires
            self.wf(),
        ensures
            r.wf(),
            r.sp_is_shape(self.sp_cols(), self.sp_rows()),
            forall|i: int, j: int|
                0 <= i < self.sp_cols() && 0 <= j < self.sp_rows() ==> #[trigger] r.sp_at(i, j)
                    == self.sp_at(j, i),
    {
        let mut data: Vec<Vec<S>> = Vec::new();
        let mut i: usize = 0;
        while i < self.cols
            invariant
                self.wf(),
                i <= self.cols,
                data@.len() == i,
                forall|k: int| 0 <= k < i ==> (#[trigger] data@[k])@.len() == self.rows,
                forall|k: int, j: int|
                    0 <= k < i && 0 <= j < self.sp_rows() ==> #[trigger] data@[k]@[j]
                        == self.sp_at(j, k),
            decreases self.cols - i,
        {
            let mut row: Vec<S> = Vec::new();
            let mut j: usize = 0;
            while j < self.rows
                invariant
                    self.wf(),
                    i < self.cols,
                    j <= self.rows,
                    row@.len() == j,
                    forall|m: int| 0 <= m < j ==> #[trigger] row@[m] == self.sp_at(m, i as int),
                decreases self.rows - j,
            {
                row.push(self.data[j][i]);
                j = j + 1;
            }
            data.push(row);
            i = i + 1;
        }
        Tensor { rows: self.cols, cols: self.rows, data }
    }
}

/// Entry `(i, j)` of the matrix product of `a` and `b`: the dot product of
/// row `i` of `a` with column `j` of `b`.
pub open spec fn sp_dot_entry<S: Scalar>(a: &Tensor<S>, b: &Tensor<S>, i: int, j: int) -> S {
    sp_sum(Seq::new(a.sp_cols() as nat, |k: int| a.sp_at(i, k).sp_mul(b.sp_at(k, j))))
}

/// The sum of column `j` over the first `n` rows of `t`.
pub open spec fn sp_col_sum<S: Scalar>(t: &Tensor<S>, j: int) -> S {
    sp_sum(Seq::new(t.sp_rows() as nat, |i: int| t.sp_at(i, j)))
}

/// Entry `(i, j)` of `a . transpose(b)`: the dot product of row `i` of `a`
/// with row `j` of `b`.
pub open spec fn sp_dot_entry_rt<S: Scalar>(a: &Tensor<S>, b: &Tensor<S>, i: int, j: int) -> S {
    sp_sum(Seq::new(a.sp_cols() as nat, |k: int| a.sp_at(i, k).sp_mul(b.sp_at(j, k))))
}

/// Entry `(i, j)` of `transpose(a) . b`: the dot product of column `i` of
/// `a` with column `j` of `b`.
pub open spec fn sp_dot_entry_lt<S: Scalar>(a: &Tensor<S>, b: &Tensor<S>, i: int, j: int) -> S {
    sp_sum(Seq::new(a.sp_rows() as nat, |k: int| a.sp_at(k, i).sp_mul(b.sp_at(k, j))))
}

/// Multiplying by a transposed right operand is a dot product of rows.
pub proof fn lemma_dot_rt<S: Scalar>(a: Tensor<S>, bt: Tensor<S>, b: Tensor<S>, i: int, j: int)
    requires
        bt.sp_is_shape(b.sp_cols(), b.sp_rows()),
        forall|u: int, v: int|
            0 <= u < bt.sp_rows() && 0 <= v < bt.sp_cols() ==> #[trigger] bt.sp_at(u, v)
                == b.sp_at(v, u),
        a.sp_cols() == bt.sp_rows(),
        0 <= i < a.sp_rows(),
        0 <= j < bt.sp_cols(),
    ensures
        sp_dot_entry(&a, &bt, i, j) == sp_dot_entry_rt(&a, &b, i, j),
{
    let s1 = Seq::new(a.sp_cols() as nat, |k: int| a.sp_at(i, k).sp_mul(bt.sp_at(k, j)));
    let s2 = Seq::new(a.sp_cols() as nat, |k: int| a.sp_at(i, k).sp_mul(b.sp_at(j, k)));
    assert forall|k: int| 0 <= k < s1.len() implies s1[k] == s2[k] by {
        assert(bt.sp_at(k, j) == b.sp_at(j, k));
    }
    assert(s1 =~= s2);
}

/// Multiplying with a transposed left operand is a dot product of columns.
pub proof fn lemma_dot_lt<S: Scalar>(at: Tensor<S>, a: Tensor<S>, b: Tensor<S>, i: int, j: int)
    requires
        at.sp_is_shape(a.sp_cols(), a.sp_rows()),
        forall|u: int, v: int|
            0 <= u < at.sp_rows() && 0 <= v < at.sp_cols() ==> #[trigger] at.sp_at(u, v)
                == a.sp_at(v, u),
        at.sp_cols() == b.sp_rows(),
        0 <= i < at.sp_rows(),
        0 <= j < b.sp_cols(),
    ensures
        sp_dot_entry(&at, &b, i, j) == sp_dot_entry_lt(&a, &b, i, j),
{
    let s1 = Seq::new(at.sp_cols() as nat, |k: int| at.sp_at(i, k).sp_mul(b.sp_at(k, j)));
    let s2 = Seq::new(a.sp_rows() as nat, |k: int| a.sp_at(k, i).sp_mul(b.sp_at(k, j)));
    assert forall|k: int| 0 <= k < s1.len() implies s1[k] == s2[k] by {
        assert(at.sp_at(i, k) == a.sp_at(k, i));
    }
    assert(s1 =~= s2);
}

/// A product entry only depends on the entries of its operands.
pub proof fn lemma_dot_entry_congr<S: Scalar>(
    a: Tensor<S>,
    a2: Tensor<S>,
    b: Tensor<S>,
    b2: Tensor<S>,
    i: int,
    j: int,
)
    requires
        sp_t_eq(a, a2),
        sp_t_eq(b, b2),
        0 <= i < a.sp_rows(),
        0 <= j < b.sp_cols(),
        a.sp_cols() == b.sp_rows(),
    ensures
        sp_dot_entry(&a, &b, i, j) == sp_dot_entry(&a2, &b2, i, j),
{
    let s1 = Seq::new(a.sp_cols() as nat, |k: int| a.sp_at(i, k).sp_mul(b.sp_at(k, j)));
    let s2 = Seq::new(a2.sp_cols() as nat, |k: int| a2.sp_at(i, k).sp_mul(b2.sp_at(k, j)));
    assert forall|k: int| 0 <= k < s1.len() implies s1[k] == s2[k] by {
        assert(a.sp_at(i, k) == a2.sp_at(i, k));
        assert(b.sp_at(k, j) == b2.sp_at(k, j));
    }
    assert(s1 =~= s2);
}

impl<S: Scalar> Tensor<S> {
    /// The matrix product `self . other`.
    pub fn matmul(&self, other: &Tensor<S>) -> (r: Tensor<S>)
        requires
            self.wf(),
            other.wf(),
            self.sp_cols() == other.sp_rows(),
        ensures
            r.wf(),
            r.sp_is_shape(self.sp_rows(), other.sp_cols()),
            forall|i: int, j: int|
                0 <= i < self.sp_rows() && 0 <= j < other.sp_cols() ==> #[trigger] r.sp_at(i, j)
                    == sp_dot_entry(self, other, i, j),
    {
        let n = self.rows;
        let p = other.cols;
        let mut data: Vec<Vec<S>> = Vec::new();
        let mut i: usize = 0;
        while i < n
            invariant
                self.wf(),
                other.wf(),
                self.sp_cols() == other.sp_rows(),
                n == self.sp_rows(),
                p == other.sp_cols(),
                i <= n,
                data@.len() == i,
                forall|k: int| 0 <= k < i ==> (#[trigger] data@[k])@.len() == p,
                forall|k: int, j: int|
                    0 <= k < i && 0 <= j < p ==> #[trigger] data@[k]@[j] == sp_dot_entry(
                        self,
                        other,
                        k,
                        j,
                    ),
            decreases n - i,
        {
            let mut row: Vec<S> = Vec::new();
            let mut j: usize = 0;
            while j < p
                invariant
                    self.wf(),
                    other.wf(),
                    self.sp_cols() == other.sp_rows(),
                    n == self.sp_rows(),
                    p == other.sp_cols(),
                    i < n,
                    j <= p,
                    row@.len() == j,
                    forall|m: int|
                        0 <= m < j ==> #[trigger] row@[m] == sp_dot_entry(
                            self,
                            other,
                            i as int,
                            m,
                        ),
                decreases p - j,
            {
                let mut acc: S = S::zero();
                let mut k: usize = 0;
                while k < self.cols
                    invariant
                        self.wf(),
                        other.wf(),
                        self.sp_cols() == other.sp_rows(),
                        i < self.sp_rows(),
                        j < other.sp_cols(),
                        k <= self.cols,
                        acc == sp_sum(
                            Seq::new(
                                k as nat,
                                |kk: int| self.sp_at(i as int, kk).sp_mul(
                                    other.sp_at(kk, j as int),
                                ),
                            ),
                        ),
                    decreases self.cols - k,
                {
                    let term = self.data[i][k].mul(other.data[k][j]);
                    proof {
                        let f = |kk: int| self.sp_at(i as int, kk).sp_mul(
                            other.sp_at(kk, j as int),
                        );
                        assert(Seq::new((k + 1) as nat, f) =~= Seq::new(k as nat, f).push(
                            f(k as int),
                        ));
                        lemma_sp_sum_push(Seq::new(k as nat, f), f(k as int));
                    }
                    acc = acc.add(term);
                    k = k + 1;
                }
                proof {
                    assert(Seq::new(self.sp_cols() as nat, |kk: int|
                        self.sp_at(i as int, kk).sp_mul(other.sp_at(kk, j as int))) =~= Seq::new(
                        k as nat,
                        |kk: int| self.sp_at(i as int, kk).sp_mul(other.sp_at(kk, j as int)),
                    ));
                }
                row.push(acc);
                j = j + 1;
            }
            data.push(row);
            i = i + 1;
        }
        Tensor { rows: n, cols: p, data }
    }

    /// Adds a `1 x C` bias row to every row of an `N x C` tensor.
    pub fn add_row_bias(&self, bias: &Tensor<S>) -> (r: Tensor<S>)
        requires
            self.wf(),
            bias.wf(),
            bias.sp_rows() == 1,
            bias.sp_cols() == self.sp_cols(),
        ensures
            r.wf(),
            r.sp_same_shape(self),
            forall|i: int, j: int|
                0 <= i < self.sp_rows() && 0 <= j < self.sp_cols() ==> #[trigger] r.sp_at(i, j)
                    == self.sp_at(i, j).sp_add(bias.sp_at(0, j)),
    {
        let mut data: Vec<Vec<S>> = Vec::new();
        let mut i: usize = 0;
        while i < self.rows
            invariant
                self.wf(),
                bias.wf(),
                bias.sp_rows() == 1,
                bias.sp_cols() == self.sp_cols(),
                i <= self.rows,
                data@.len() == i,
                forall|k: int| 0 <= k < i ==> (#[trigger] data@[k])@.len() == self.cols,
                forall|k: int, j: int|
                    0 <= k < i && 0 <= j < self.sp_cols() ==> #[trigger] data@[k]@[j]
                        == self.sp_at(k, j).sp_add(bias.sp_at(0, j)),
            decreases self.rows - i,
        {
            let mut row: Vec<S> = Vec::new();
            let mut j: usize = 0;
            while j < self.cols
                invariant
                    self.wf(),
                    bias.wf(),
                    bias.sp_rows() == 1,
                    bias.sp_cols() == self.sp_cols(),
                    i < self.rows,
                    j <= self.cols,
                    row@.len() == j,
                    forall|m: int|
                        0 <= m < j ==> #[trigger] row@[m] == self.sp_at(i as int, m).sp_add(
                            bias.sp_at(0, m),
                        ),
                decreases self.cols - j,
            {
                row.push(self.data[i][j].add(bias.data[0][j]));
                j = j + 1;
            }
            data.push(row);
            i = i + 1;
        }
        Tensor { rows: self.rows, cols: self.cols, data }
    }

    /// The `1 x C` row of column sums.
    pub fn col_sum(&self) -> (r: Tensor<S>)
        requires
            self.wf(),
        ensures
            r.wf(),
            r.sp_is_shape(1, self.sp_cols()),
            forall|j: int|
                0 <= j < self.sp_cols() ==> #[trigger] r.sp_at(0, j) == sp_col_sum(self, j),
    {
        let mut row: Vec<S> = Vec::new();
        let mut j: usize = 0;
        while j < self.cols
            invariant
                self.wf(),
                j <= self.cols,
                row@.len() == j,
                forall|m: int| 0 <= m < j ==> #[trigger] row@[m] == sp_col_sum(self, m),
            decreases self.cols - j,
        {
            let mut acc: S = S::zero();
            let mut i: usize = 0;
            while i < self.rows
                invariant
                    self.wf(),
                    j < self.cols,
                    i <= self.rows,
                    acc == sp_sum(Seq::new(i as nat, |ii: int| self.sp_at(ii, j as int))),
                decreases self.rows - i,
            {
                proof {
                    let f = |ii: int| self.sp_at(ii, j as int);
                    assert(Seq::new((i + 1) as nat, f) =~= Seq::new(i as nat, f).push(f(i as int)));
                    lemma_sp_sum_push(Seq::new(i as nat, f), f(i as int));
                }
                acc = acc.add(self.data[i][j]);
                i = i + 1;
            }
            proof {
                assert(Seq::new(self.sp_rows() as nat, |ii: int| self.sp_at(ii, j as int))
                    =~= Seq::new(i as nat, |ii: int| self.sp_at(ii, j as int)));
            }
            row.push(acc);
            j = j + 1;
        }
        let mut data: Vec<Vec<S>> = Vec::new();
        data.push(row);
        Tensor { rows: 1, cols: self.cols, data }
    }

    /// The `1 x C` row of column means: each column sum divided by the
    /// number of rows.
    pub fn col_mean(&self) -> (r: Tensor<S>)
        requires
            self.wf(),
        ensures
            r.wf(),
            r.sp_is_shape(1, self.sp_cols()),
            forall|j: int|
                0 <= j < self.sp_cols() ==> #[trigger] r.sp_at(0, j) == sp_col_sum(
                    self,
                    j,
                ).sp_div(S::sp_from_u64(self.sp_rows() as u64)),
    {
        let sums = self.col_sum();
        let n: S = S::from_u64(self.rows as u64);
        let mut row: Vec<S> = Vec::new();
        let mut j: usize = 0;
        while j < self.cols
            invariant
                self.wf(),
                sums.wf(),
                sums.sp_is_shape(1, self.sp_cols()),
                forall|m: int|
                    0 <= m < self.sp_cols() ==> #[trigger] sums.sp_at(0, m) == sp_col_sum(self, m),
                n == S::sp_from_u64(self.sp_rows() as u64),
                j <= self.cols,
                row@.len() == j,
                forall|m: int|
                    0 <= m < j ==> #[trigger] row@[m] == sp_col_sum(self, m).sp_div(
                        S::sp_from_u64(self.sp_rows() as u64),
                    ),
            decreases self.cols - j,
        {
            row.push(sums.get(0, j).div(n));
            j = j + 1;
        }
        let mut data: Vec<Vec<S>> = Vec::new();
        data.push(row);
        Tensor { rows: 1, cols: self.cols, data }
    }
}

} // verus!
