//! Pointwise activation functions and their array forms.

use vstd::prelude::*;

use crate::scalar::Scalar;

verus! {

/// One where the argument is positive, zero elsewhere.
pub open spec fn sp_step<S: Scalar>(x: S) -> S {
    if S::sp_zero().sp_lt(x) {
        S::sp_one()
    } else {
        S::sp_zero()
    }
}

/// `1 / (1 + exp(-x))`.
pub open spec fn sp_sigmoid<S: Scalar>(x: S) -> S {
    S::sp_one().sp_div(x.sp_neg().sp_exp().sp_add(S::sp_one()))
}

/// The argument where it is positive, zero elsewhere.
pub open spec fn sp_relu<S: Scalar>(x: S) -> S {
    if S::sp_zero().sp_lt(x) {
        x
    } else {
        S::sp_zero()
    }
}

/// The greatest element of a non-empty sequence, scanned left to right and
/// replaced whenever a strictly greater element appears.
pub open spec fn sp_max_fold<S: Scalar>(s: Seq<S>) -> S
    decreases s.len(),
{
    if s.len() <= 1 {
        s[0]
    } else {
        let m = sp_max_fold(s.drop_last());
        if m.sp_lt(s.last()) {
            s.last()
        } else {
            m
        }
    }
}

/// The index of the first greatest element of a non-empty sequence: scanning
/// left to right, the index moves only to a strictly greater element.
pub open spec fn sp_argmax_fold<S: Scalar>(s: Seq<S>) -> int
    decreases s.len(),
{
    if s.len() <= 1 {
        0
    } else {
        let a = sp_argmax_fold(s.drop_last());
        if s[a].sp_lt(s.last()) {
            s.len() - 1
        } else {
            a
        }
    }
}

/// The argmax index is in range.
pub proof fn lemma_argmax_in_range<S: Scalar>(s: Seq<S>)
    requires
        s.len() > 0,
    ensures
        0 <= sp_argmax_fold(s) < s.len(),
    decreases s.len(),
{
    if s.len() > 1 {
        lemma_argmax_in_range(s.drop_last());
    }
}

/// One term of a softmax over a sequence with maximum `m`:
/// `exp(x - m) / sum_i exp(x_i - m)`.
pub open spec fn sp_softmax_term<S: Scalar>(x: S, s: Seq<S>) -> S {
    let m = sp_max_fold(s);
    x.sp_sub(m).sp_exp().sp_div(
        crate::tensor::sp_sum(Seq::new(s.len(), |i: int| s[i].sp_sub(m).sp_exp())),
    )
}

/// The step function.
pub fn step<S: Scalar>(x: S) -> (r: S)
    ensures
        r == sp_step(x),
{
    if S::zero().lt(x) {
        S::one()
    } else {
        S::zero()
    }
}

/// The step function applied to every element.
pub fn step_array<S: Scalar>(x: &Vec<S>) -> (r: Vec<S>)
    ensures
        r@.len() == x@.len(),
        forall|i: int| 0 <= i < x@.len() ==> #[trigger] r@[i] == sp_step(x@[i]),
{
    let mut r: Vec<S> = Vec::new();
    let mut n: usize = 0;
    while n < x.len()
        invariant
            n <= x@.len(),
            r@.len() == n,
            forall|i: int| 0 <= i < n ==> #[trigger] r@[i] == sp_step(x@[i]),
        decreases x@.len() - n,
    {
        r.push(step(x[n]));
        n = n + 1;
    }
    r
}

/// The logistic sigmoid.
pub fn sigmoid<S: Scalar>(x: S) -> (r: S)
    ensures
        r == sp_sigmoid(x),
{
    S::one().div(x.neg().exp().add(S::one()))
}

/// The sigmoid applied to every element.
pub fn sigmoid_array<S: Scalar>(x: &Vec<S>) -> (r: Vec<S>)
    ensures
        r@.len() == x@.len(),
        forall|i: int| 0 <= i < x@.len() ==> #[trigger] r@[i] == sp_sigmoid(x@[i]),
{
    let mut r: Vec<S> = Vec::new();
    let mut n: usize = 0;
    while n < x.len()
        invariant
            n <= x@.len(),
            r@.len() == n,
            forall|i: int| 0 <= i < n ==> #[trigger] r@[i] == sp_sigmoid(x@[i]),
        decreases x@.len() - n,
    {
        r.push(sigmoid(x[n]));
        n = n + 1;
    }
    r
}

/// The rectifier.
pub fn relu<S: Scalar>(x: S) -> (r: S)
    ensures
        r == sp_relu(x),
{
    if S::zero().lt(x) {
        x
    } else {
        S::zero()
    }
}

/// The rectifier applied to every element.
pub fn relu_array<S: Scalar>(x: &Vec<S>) -> (r: Vec<S>)
    ensures
        r@.len() == x@.len(),
        forall|i: int| 0 <= i < x@.len() ==> #[trigger] r@[i] == sp_relu(x@[i]),
{
    let mut r: Vec<S> = Vec::new();
    let mut n: usize = 0;
    while n < x.len()
        invariant
            n <= x@.len(),
            r@.len() == n,
            forall|i: int| 0 <= i < n ==> #[trigger] r@[i] == sp_relu(x@[i]),
        decreases x@.len() - n,
    {
        r.push(relu(x[n]));
        n = n + 1;
    }
    r
}

/// The identity.
pub fn identity<S: Scalar>(x: S) -> (r: S)
    ensures
        r == x,
{
    x
}

/// The identity applied to every element.
pub fn identity_array<S: Scalar>(x: &Vec<S>) -> (r: Vec<S>)
    ensures
        r@ == x@,
{
    let mut r: Vec<S> = Vec::new();
    let mut n: usize = 0;
    while n < x.len()
        invariant
            n <= x@.len(),
            r@ == x@.subrange(0, n as int),
        decreases x@.len() - n,
    {
        r.push(identity(x[n]));
        n = n + 1;
    }
    proof {
        assert(x@.subrange(0, x@.len() as int) =~= x@);
    }
    r
}

/// The greatest element.
pub fn max<S: Scalar>(x: &Vec<S>) -> (r: S)
    requires
        x@.len() > 0,
    ensures
        r == sp_max_fold(x@),
{
    let mut m: S = x[0];
    let mut n: usize = 1;
    while n < x.len()
        invariant
            1 <= n <= x@.len(),
            m == sp_max_fold(x@.subrange(0, n as int)),
        decreases x@.len() - n,
    {
        proof {
            assert(x@.subrange(0, (n + 1) as int).drop_last() =~= x@.subrange(0, n as int));
            assert(x@.subrange(0, (n + 1) as int).last() == x@[n as int]);
        }
        if m.lt(x[n]) {
            m = x[n];
        }
        n = n + 1;
    }
    proof {
        assert(x@.subrange(0, x@.len() as int) =~= x@);
    }
    m
}

/// One softmax probability, stabilized by shifting the whole row by its
/// maximum before exponentiating.
pub fn softmax<S: Scalar>(x: S, x_array: &Vec<S>) -> (r: S)
    requires
        x_array@.len() > 0,
    ensures
        r == sp_softmax_term(x, x_array@),
{
    let c = max(x_array);
    let mut sum: S = S::zero();
    let mut n: usize = 0;
    while n < x_array.len()
        invariant
            n <= x_array@.len(),
            c == sp_max_fold(x_array@),
            sum == crate::tensor::sp_sum(
                Seq::new(n as nat, |i: int| x_array@[i].sp_sub(c).sp_exp()),
            ),
        decreases x_array@.len() - n,
    {
        proof {
            let f = |i: int| x_array@[i].sp_sub(c).sp_exp();
            assert(Seq::new((n + 1) as nat, f) =~= Seq::new(n as nat, f).push(f(n as int)));
            crate::tensor::lemma_sp_sum_push(Seq::new(n as nat, f), f(n as int));
        }
        sum = sum.add(x_array[n].sub(c).exp());
        n = n + 1;
    }
    proof {
        assert(Seq::new(x_array@.len(), |i: int| x_array@[i].sp_sub(c).sp_exp()) =~= Seq::new(
            n as nat,
            |i: int| x_array@[i].sp_sub(c).sp_exp(),
        ));
    }
    x.sub(c).exp().div(sum)
}

/// The softmax of every element against the whole array.
pub fn softmax_array<S: Scalar>(x: &Vec<S>) -> (r: Vec<S>)
    requires
        x@.len() > 0,
    ensures
        r@.len() == x@.len(),
        forall|i: int| 0 <= i < x@.len() ==> #[trigger] r@[i] == sp_softmax_term(x@[i], x@),
{
    let mut r: Vec<S> = Vec::new();
    let mut n: usize = 0;
    while n < x.len()
        invariant
            n <= x@.len(),
            x@.len() > 0,
            r@.len() == n,
            forall|i: int| 0 <= i < n ==> #[trigger] r@[i] == sp_softmax_term(x@[i], x@),
        decreases x@.len() - n,
    {
        r.push(softmax(x[n], x));
        n = n + 1;
    }
    r
}

} // verus!
