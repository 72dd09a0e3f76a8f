//! A miniature scalar computation graph: single-value nodes with memoized
//! forward passes and a backward pass that collects the gradient of every
//! value leaf into one vector.  It is the smallest shape of the engine's
//! compute-or-return-cached discipline.

use vstd::prelude::*;

use crate::scalar::Scalar;

verus! {

/// A node of the scalar graph.  `sp_value` is the node's mathematical
/// value; `forward` returns it, memoizing on the way, and `backward`
/// appends the gradient of every value leaf below to the carried vector.
pub trait Layer<S: Scalar>: Sized {
    /// The node's mathematical value.
    spec fn sp_value(&self) -> S;

    /// The memoized state is consistent with the children.
    spec fn sp_wf(&self) -> bool;

    /// What `backward` turns the carried gradient vector into.
    spec fn sp_backward(&self, dout: S, diffs: Seq<S>) -> Seq<S>;

    /// The node's own memo is filled.
    spec fn sp_ready(&self) -> bool;

    fn forward(&mut self) -> (r: S)
        requires
            old(self).sp_wf(),
        ensures
            final(self).sp_wf(),
            final(self).sp_ready(),
            r == old(self).sp_value(),
            final(self).sp_value() == old(self).sp_value(),
            forall|d: S, df: Seq<S>|
                #![trigger final(self).sp_backward(d, df)]
                final(self).sp_backward(d, df) == old(self).sp_backward(d, df),
    ;

    fn backward(&mut self, dout: S, diffs: Vec<S>) -> (r: Vec<S>)
        requires
            old(self).sp_wf(),
        ensures
            final(self).sp_wf(),
            r@ == old(self).sp_backward(dout, diffs@),
            final(self).sp_value() == old(self).sp_value(),
    ;
}

/// The placeholder child of a leaf: worth zero, transparent to gradients.
pub struct NoneValue {}

impl<S: Scalar> Layer<S> for NoneValue {
    open spec fn sp_value(&self) -> S {
        S::sp_zero()
    }

    open spec fn sp_wf(&self) -> bool {
        true
    }

    open spec fn sp_backward(&self, dout: S, diffs: Seq<S>) -> Seq<S> {
        diffs
    }

    open spec fn sp_ready(&self) -> bool {
        true
    }

    fn forward(&mut self) -> (r: S) {
        S::zero()
    }

    fn backward(&mut self, dout: S, diffs: Vec<S>) -> (r: Vec<S>) {
        diffs
    }
}

/// A leaf holding one value; its backward appends the incoming gradient.
pub struct ValueLayer<S: Scalar, T: Layer<S>, U: Layer<S>> {
    pub x: Option<T>,
    pub y: Option<U>,
    pub z: S,
}

impl<S: Scalar> ValueLayer<S, NoneValue, NoneValue> {
    pub fn new(z: S) -> (r: ValueLayer<S, NoneValue, NoneValue>)
        ensures
            r.sp_wf(),
            r.sp_value() == z,
    {
        ValueLayer { x: None, y: None, z }
    }
}

impl<S: Scalar, T: Layer<S>, U: Layer<S>> Layer<S> for ValueLayer<S, T, U> {
    open spec fn sp_value(&self) -> S {
        self.z
    }

    open spec fn sp_wf(&self) -> bool {
        true
    }

    open spec fn sp_backward(&self, dout: S, diffs: Seq<S>) -> Seq<S> {
        diffs.push(dout)
    }

    open spec fn sp_ready(&self) -> bool {
        true
    }

    fn forward(&mut self) -> (r: S) {
        self.z
    }

    fn backward(&mut self, dout: S, diffs: Vec<S>) -> (r: Vec<S>) {
        let mut mut_diffs = diffs;
        mut_diffs.push(dout);
        mut_diffs
    }
}

/// The product of two nodes, memoized.
pub struct MulLayer<S: Scalar, T: Layer<S>, U: Layer<S>> {
    pub x: T,
    pub y: U,
    pub z: Option<S>,
}

impl<S: Scalar, T: Layer<S>, U: Layer<S>> MulLayer<S, T, U> {
    pub fn new(x: T, y: U) -> (r: MulLayer<S, T, U>)
        requires
            x.sp_wf(),
            y.sp_wf(),
        ensures
            r.sp_wf(),
            r.sp_value() == x.sp_value().sp_mul(y.sp_value()),
            forall|dout: S, diffs: Seq<S>|
                #![trigger r.sp_backward(dout, diffs)]
                r.sp_backward(dout, diffs) == y.sp_backward(
                    dout.sp_mul(x.sp_value()),
                    x.sp_backward(dout.sp_mul(y.sp_value()), diffs),
                ),
    {
        MulLayer { x, y, z: None }
    }
}

impl<S: Scalar, T: Layer<S>, U: Layer<S>> Layer<S> for MulLayer<S, T, U> {
    open spec fn sp_value(&self) -> S {
        self.x.sp_value().sp_mul(self.y.sp_value())
    }

    open spec fn sp_wf(&self) -> bool {
        &&& self.x.sp_wf()
        &&& self.y.sp_wf()
        &&& match self.z {
            Some(v) => v == self.sp_value(),
            None => true,
        }
    }

    open spec fn sp_backward(&self, dout: S, diffs: Seq<S>) -> Seq<S> {
        self.y.sp_backward(
            dout.sp_mul(self.x.sp_value()),
            self.x.sp_backward(dout.sp_mul(self.y.sp_value()), diffs),
        )
    }

    open spec fn sp_ready(&self) -> bool {
        self.z is Some
    }

    fn forward(&mut self) -> (r: S) {
        match self.z {
            Some(n) => n,
            None => {
                let vx = self.x.forward();
                let vy = self.y.forward();
                let v = vx.mul(vy);
                self.z = Some(v);
                v
            },
        }
    }

    fn backward(&mut self, dout: S, diffs: Vec<S>) -> (r: Vec<S>) {
        let vy = self.y.forward();
        let dout_x = dout.mul(vy);
        let diffs = self.x.backward(dout_x, diffs);
        let vx = self.x.forward();
        let dout_y = dout.mul(vx);
        let diffs = self.y.backward(dout_y, diffs);
        diffs
    }
}

/// The sum of two nodes, memoized.
pub struct AddLayer<S: Scalar, T: Layer<S>, U: Layer<S>> {
    pub x: T,
    pub y: U,
    pub z: Option<S>,
}

impl<S: Scalar, T: Layer<S>, U: Layer<S>> AddLayer<S, T, U> {
    pub fn new(x: T, y: U) -> (r: AddLayer<S, T, U>)
        requires
            x.sp_wf(),
            y.sp_wf(),
        ensures
            r.sp_wf(),
            r.sp_value() == x.sp_value().sp_add(y.sp_value()),
            forall|dout: S, diffs: Seq<S>|
                #![trigger r.sp_backward(dout, diffs)]
                r.sp_backward(dout, diffs) == y.sp_backward(dout, x.sp_backward(dout, diffs)),
    {
        AddLayer { x, y, z: None }
    }
}

impl<S: Scalar, T: Layer<S>, U: Layer<S>> Layer<S> for AddLayer<S, T, U> {
    open spec fn sp_value(&self) -> S {
        self.x.sp_value().sp_add(self.y.sp_value())
    }

    open spec fn sp_wf(&self) -> bool {
        &&& self.x.sp_wf()
        &&& self.y.sp_wf()
        &&& match self.z {
            Some(v) => v == self.sp_value(),
            None => true,
        }
    }

    open spec fn sp_backward(&self, dout: S, diffs: Seq<S>) -> Seq<S> {
        self.y.sp_backward(dout, self.x.sp_backward(dout, diffs))
    }

    open spec fn sp_ready(&self) -> bool {
        self.z is Some
    }

    fn forward(&mut self) -> (r: S) {
        match self.z {
            Some(n) => n,
            None => {
                let vx = self.x.forward();
                let vy = self.y.forward();
                let v = vx.add(vy);
                self.z = Some(v);
                v
            },
        }
    }

    fn backward(&mut self, dout: S, diffs: Vec<S>) -> (r: Vec<S>) {
        let diffs = self.x.backward(dout, diffs);
        let diffs = self.y.backward(dout, diffs);
        diffs
    }
}

} // verus!
