//! The persisted-model schema, on its structured side: a graph serializes
//! to a sequence of records, one per node in a fixed walk order (weights,
//! then biases, then the upstream node), each data-bearing leaf carrying
//! its tensor.  Reloading replaces every leaf tensor of an already
//! assembled graph of the same architecture from such a value list, shape
//! by shape.  Rendering records as text, and reading the decimal numbers
//! back, is the embedding program's side of the boundary.

use vstd::prelude::*;

use crate::layer::Layer;
use crate::scalar::Scalar;
use crate::tensor::{sp_t_eq, Tensor};

verus! {

/// The node kinds of the schema, one label per graph node kind.
#[derive(Clone, Copy, PartialEq, Eq, Debug, Structural)]
pub enum LayerTag {
    Value,
    Param,
    Affine,
    Relu,
    Sigmoid,
    BatchNorm,
    Dropout,
    Convolution,
    Pooling,
    SoftmaxLoss,
}

/// One record of the dump: a node's kind, and its tensor if it is a
/// data-bearing leaf.
pub struct ModelRecord<S: Scalar> {
    pub tag: LayerTag,
    pub value: Option<Tensor<S>>,
}

/// The record sequence of a graph: the node's own record, then for nodes
/// with parameter children those children's records, then the upstream
/// node's records.
pub open spec fn sp_export_records<S: Scalar>(l: Layer<S>) -> Seq<ModelRecord<S>>
    decreases l,
{
    match l {
        Layer::Value { value } => seq![
            ModelRecord { tag: LayerTag::Value, value: Some(value) },
        ],
        Layer::Param { value, .. } => seq![
            ModelRecord { tag: LayerTag::Param, value: Some(value) },
        ],
        Layer::Affine { x, w, b, .. } => seq![
            ModelRecord { tag: LayerTag::Affine, value: None },
        ] + sp_export_records(*w) + sp_export_records(*b) + sp_export_records(*x),
        Layer::Relu { x, .. } => seq![ModelRecord { tag: LayerTag::Relu, value: None }]
            + sp_export_records(*x),
        Layer::Sigmoid { x, .. } => seq![ModelRecord { tag: LayerTag::Sigmoid, value: None }]
            + sp_export_records(*x),
        Layer::BatchNorm { x, w, b, .. } => seq![
            ModelRecord { tag: LayerTag::BatchNorm, value: None },
        ] + sp_export_records(*w) + sp_export_records(*b) + sp_export_records(*x),
        Layer::Dropout { x, .. } => seq![ModelRecord { tag: LayerTag::Dropout, value: None }]
            + sp_export_records(*x),
        Layer::Convolution { x, filter, bias, .. } => seq![
            ModelRecord { tag: LayerTag::Convolution, value: None },
        ] + sp_export_records(*filter) + sp_export_records(*bias) + sp_export_records(*x),
        Layer::Pooling { x, .. } => seq![ModelRecord { tag: LayerTag::Pooling, value: None }]
            + sp_export_records(*x),
        Layer::SoftmaxLoss { x, .. } => seq![
            ModelRecord { tag: LayerTag::SoftmaxLoss, value: None },
        ] + sp_export_records(*x),
    }
}

/// Serializes a graph to its record sequence.
pub fn export_records<S: Scalar>(l: Layer<S>) -> (r: Vec<ModelRecord<S>>)
    ensures
        r@ == sp_export_records(l),
    decreases l,
{
    let mut r: Vec<ModelRecord<S>> = Vec::new();
    match l {
        Layer::Value { value } => {
            r.push(ModelRecord { tag: LayerTag::Value, value: Some(value) });
        },
        Layer::Param { value, .. } => {
            r.push(ModelRecord { tag: LayerTag::Param, value: Some(value) });
        },
        Layer::Affine { x, w, b, .. } => {
            r.push(ModelRecord { tag: LayerTag::Affine, value: None });
            let mut rw = export_records(*w);
            r.append(&mut rw);
            let mut rb = export_records(*b);
            r.append(&mut rb);
            let mut rx = export_records(*x);
            r.append(&mut rx);
        },
        Layer::Relu { x, .. } => {
            r.push(ModelRecord { tag: LayerTag::Relu, value: None });
            let mut rx = export_records(*x);
            r.append(&mut rx);
        },
        Layer::Sigmoid { x, .. } => {
            r.push(ModelRecord { tag: LayerTag::Sigmoid, value: None });
            let mut rx = export_records(*x);
            r.append(&mut rx);
        },
        Layer::BatchNorm { x, w, b, .. } => {
            r.push(ModelRecord { tag: LayerTag::BatchNorm, value: None });
            let mut rw = export_records(*w);
            r.append(&mut rw);
            let mut rb = export_records(*b);
            r.append(&mut rb);
            let mut rx = export_records(*x);
            r.append(&mut rx);
        },
        Layer::Dropout { x, .. } => {
            r.push(ModelRecord { tag: LayerTag::Dropout, value: None });
            let mut rx = export_records(*x);
            r.append(&mut rx);
        },
        Layer::Convolution { x, filter, bias, .. } => {
            r.push(ModelRecord { tag: LayerTag::Convolution, value: None });
            let mut rf = export_records(*filter);
            r.append(&mut rf);
            let mut rb = export_records(*bias);
            r.append(&mut rb);
            let mut rx = export_records(*x);
            r.append(&mut rx);
        },
        Layer::Pooling { x, .. } => {
            r.push(ModelRecord { tag: LayerTag::Pooling, value: None });
            let mut rx = export_records(*x);
            r.append(&mut rx);
        },
        Layer::SoftmaxLoss { x, .. } => {
            r.push(ModelRecord { tag: LayerTag::SoftmaxLoss, value: None });
            let mut rx = export_records(*x);
            r.append(&mut rx);
        },
    }
    r
}

/// Where loading a graph's leaves from the value list starting at `from`
/// ends up: the next unread index, or nothing if a value is missing or has
/// the wrong shape.  Leaves are consumed in the export walk order.
pub open spec fn sp_load_next<S: Scalar>(l: Layer<S>, values: Seq<Tensor<S>>, from: int) -> Option<
    int,
>
    decreases l,
{
    match l {
        Layer::Value { value } => sp_load_leaf(value, values, from),
        Layer::Param { value, .. } => sp_load_leaf(value, values, from),
        Layer::Affine { x, w, b, .. } => match sp_load_next(*w, values, from) {
            Some(n1) => match sp_load_next(*b, values, n1) {
                Some(n2) => sp_load_next(*x, values, n2),
                None => None,
            },
            None => None,
        },
        Layer::Relu { x, .. } => sp_load_next(*x, values, from),
        Layer::Sigmoid { x, .. } => sp_load_next(*x, values, from),
        Layer::BatchNorm { x, w, b, .. } => match sp_load_next(*w, values, from) {
            Some(n1) => match sp_load_next(*b, values, n1) {
                Some(n2) => sp_load_next(*x, values, n2),
                None => None,
            },
            None => None,
        },
        Layer::Dropout { x, .. } => sp_load_next(*x, values, from),
        Layer::Convolution { x, filter, bias, .. } => match sp_load_next(*filter, values, from) {
            Some(n1) => match sp_load_next(*bias, values, n1) {
                Some(n2) => sp_load_next(*x, values, n2),
                None => None,
            },
            None => None,
        },
        Layer::Pooling { x, .. } => sp_load_next(*x, values, from),
        Layer::SoftmaxLoss { x, .. } => sp_load_next(*x, values, from),
    }
}

/// A leaf consumes one value of its own shape.
pub open spec fn sp_load_leaf<S: Scalar>(
    value: Tensor<S>,
    values: Seq<Tensor<S>>,
    from: int,
) -> Option<int> {
    if 0 <= from < values.len() && values[from].wf() && values[from].sp_is_shape(
        value.sp_rows(),
        value.sp_cols(),
    ) {
        Some(from + 1)
    } else {
        None
    }
}

/// How loading relates the graph before and after: same structure,
/// optimizer states, geometry, rates and targets; every cache dropped; and
/// every leaf tensor replaced, entry for entry, by its value from the
/// list, in the export walk order.
pub open spec fn sp_loaded<S: Scalar>(
    pre: Layer<S>,
    values: Seq<Tensor<S>>,
    from: int,
    post: Layer<S>,
) -> bool
    decreases pre,
{
    match (pre, post) {
        (Layer::Value { .. }, Layer::Value { value: nv }) => 0 <= from < values.len() && sp_t_eq(
            nv,
            values[from],
        ),
        (
            Layer::Param { optimizer: oa, .. },
            Layer::Param { value: nv, optimizer: ob },
        ) => ob == oa && 0 <= from < values.len() && sp_t_eq(nv, values[from]),
        (
            Layer::Affine { x: x1, w: w1, b: b1, .. },
            Layer::Affine { x: x2, w: w2, b: b2, cache: c2 },
        ) => {
            &&& c2 is None
            &&& match sp_load_next(*w1, values, from) {
                Some(n1) => sp_loaded(*w1, values, from, *w2) && match sp_load_next(
                    *b1,
                    values,
                    n1,
                ) {
                    Some(n2) => sp_loaded(*b1, values, n1, *b2) && sp_loaded(
                        *x1,
                        values,
                        n2,
                        *x2,
                    ),
                    None => false,
                },
                None => false,
            }
        },
        (Layer::Relu { x: x1, .. }, Layer::Relu { x: x2, cache: c2 }) => c2 is None && sp_loaded(
            *x1,
            values,
            from,
            *x2,
        ),
        (
            Layer::Sigmoid { x: x1, .. },
            Layer::Sigmoid { x: x2, cache: c2 },
        ) => c2 is None && sp_loaded(*x1, values, from, *x2),
        (
            Layer::BatchNorm { x: x1, w: w1, b: b1, .. },
            Layer::BatchNorm {
                x: x2,
                w: w2,
                b: b2,
                cache: c2,
                normalized: n2,
                variance: v2,
                average: a2,
            },
        ) => {
            &&& c2 is None
            &&& n2 is None
            &&& v2 is None
            &&& a2 is None
            &&& match sp_load_next(*w1, values, from) {
                Some(n1) => sp_loaded(*w1, values, from, *w2) && match sp_load_next(
                    *b1,
                    values,
                    n1,
                ) {
                    Some(n2) => sp_loaded(*b1, values, n1, *b2) && sp_loaded(
                        *x1,
                        values,
                        n2,
                        *x2,
                    ),
                    None => false,
                },
                None => false,
            }
        },
        (
            Layer::Dropout { x: x1, rate: r1, training: t1, .. },
            Layer::Dropout { x: x2, rate: r2, cache: c2, mask: m2, training: t2 },
        ) => c2 is None && m2 is None && r2 == r1 && t2 == t1 && sp_loaded(*x1, values, from, *x2),
        (
            Layer::Convolution {
                x: x1,
                filter: f1,
                bias: b1,
                channel: ca,
                height: ha,
                width: wa,
                filter_h: fha,
                filter_w: fwa,
                stride: sa,
                pad: pa,
                ..
            },
            Layer::Convolution {
                x: x2,
                filter: f2,
                bias: b2,
                channel: cb,
                height: hb,
                width: wb,
                filter_h: fhb,
                filter_w: fwb,
                stride: sb,
                pad: pb,
                cache: c2,
            },
        ) => {
            &&& c2 is None
            &&& ca == cb && ha == hb && wa == wb && fha == fhb && fwa == fwb && sa == sb && pa
                == pb
            &&& match sp_load_next(*f1, values, from) {
                Some(n1) => sp_loaded(*f1, values, from, *f2) && match sp_load_next(
                    *b1,
                    values,
                    n1,
                ) {
                    Some(n2) => sp_loaded(*b1, values, n1, *b2) && sp_loaded(
                        *x1,
                        values,
                        n2,
                        *x2,
                    ),
                    None => false,
                },
                None => false,
            }
        },
        (
            Layer::Pooling {
                x: x1,
                channel: ca,
                height: ha,
                width: wa,
                filter_h: fha,
                filter_w: fwa,
                stride: sa,
                pad: pa,
                ..
            },
            Layer::Pooling {
                x: x2,
                channel: cb,
                height: hb,
                width: wb,
                filter_h: fhb,
                filter_w: fwb,
                stride: sb,
                pad: pb,
                cache: c2,
            },
        ) => {
            &&& c2 is None
            &&& ca == cb && ha == hb && wa == wb && fha == fhb && fwa == fwb && sa == sb && pa
                == pb
            &&& sp_loaded(*x1, values, from, *x2)
        },
        (
            Layer::SoftmaxLoss { x: x1, target: t1, .. },
            Layer::SoftmaxLoss { x: x2, target: t2, cache: c2, probs: p2 },
        ) => c2 is None && p2 is None && t2 == t1 && sp_loaded(*x1, values, from, *x2),
        _ => false,
    }
}

/// Loads the leaf tensors of a graph from a value list, in the export walk
/// order, starting at index `from`: the reloaded graph and the next unread
/// index, or nothing exactly when the next value is missing or misshapen.
pub fn load_parameters<S: Scalar>(l: Layer<S>, values: &Vec<Tensor<S>>, from: usize) -> (res:
    Option<(Layer<S>, usize)>)
    requires
        l.wf(),
        forall|i: int| 0 <= i < values@.len() ==> (#[trigger] values@[i]).wf(),
    ensures
        res is Some <==> sp_load_next(l, values@, from as int) is Some,
        res matches Some(p) ==> {
            &&& sp_load_next(l, values@, from as int) == Some(p.1 as int)
            &&& sp_loaded(l, values@, from as int, p.0)
            &&& p.0.wf()
            &&& p.0.sp_all_clear()
            &&& p.0.sp_out_rows() == l.sp_out_rows()
            &&& p.0.sp_out_cols() == l.sp_out_cols()
            &&& p.0.sp_in_rows() == l.sp_in_rows()
            &&& p.0.sp_in_cols() == l.sp_in_cols()
            &&& from <= p.1 <= values@.len()
        },
    decreases l,
{
    match l {
        Layer::Value { value } => {
            if from < values.len() {
                let v = &values[from];
                if v.rows() == value.rows() && v.cols() == value.cols() {
                    Some((Layer::Value { value: v.duplicate() }, from + 1))
                } else {
                    None
                }
            } else {
                None
            }
        },
        Layer::Param { value, optimizer } => {
            if from < values.len() {
                let v = &values[from];
                if v.rows() == value.rows() && v.cols() == value.cols() {
                    Some((Layer::Param { value: v.duplicate(), optimizer }, from + 1))
                } else {
                    None
                }
            } else {
                None
            }
        },
        Layer::Affine { x, w, b, .. } => {
            match load_parameters(*w, values, from) {
                Some((nw, n1)) => match load_parameters(*b, values, n1) {
                    Some((nb, n2)) => match load_parameters(*x, values, n2) {
                        Some((nx, n3)) => Some((
                            Layer::Affine {
                                x: Box::new(nx),
                                w: Box::new(nw),
                                b: Box::new(nb),
                                cache: None,
                            },
                            n3,
                        )),
                        None => None,
                    },
                    None => None,
                },
                None => None,
            }
        },
        Layer::Relu { x, .. } => {
            match load_parameters(*x, values, from) {
                Some((nx, n1)) => Some((Layer::Relu { x: Box::new(nx), cache: None }, n1)),
                None => None,
            }
        },
        Layer::Sigmoid { x, .. } => {
            match load_parameters(*x, values, from) {
                Some((nx, n1)) => Some((Layer::Sigmoid { x: Box::new(nx), cache: None }, n1)),
                None => None,
            }
        },
        Layer::BatchNorm { x, w, b, .. } => {
            match load_parameters(*w, values, from) {
                Some((nw, n1)) => match load_parameters(*b, values, n1) {
                    Some((nb, n2)) => match load_parameters(*x, values, n2) {
                        Some((nx, n3)) => Some((
                            Layer::BatchNorm {
                                x: Box::new(nx),
                                w: Box::new(nw),
                                b: Box::new(nb),
                                cache: None,
                                normalized: None,
                                variance: None,
                                average: None,
                            },
                            n3,
                        )),
                        None => None,
                    },
                    None => None,
                },
                None => None,
            }
        },
        Layer::Dropout { x, rate, training, .. } => {
            match load_parameters(*x, values, from) {
                Some((nx, n1)) => Some((
                    Layer::Dropout {
                        x: Box::new(nx),
                        rate,
                        cache: None,
                        mask: None,
                        training,
                    },
                    n1,
                )),
                None => None,
            }
        },
        Layer::Convolution {
            x,
            filter,
            bias,
            channel,
            height,
            width,
            filter_h,
            filter_w,
            stride,
            pad,
            ..
        } => {
            match load_parameters(*filter, values, from) {
                Some((nf, n1)) => match load_parameters(*bias, values, n1) {
                    Some((nb, n2)) => match load_parameters(*x, values, n2) {
                        Some((nx, n3)) => Some((
                            Layer::Convolution {
                                x: Box::new(nx),
                                filter: Box::new(nf),
                                bias: Box::new(nb),
                                channel,
                                height,
                                width,
                                filter_h,
                                filter_w,
                                stride,
                                pad,
                                cache: None,
                            },
                            n3,
                        )),
                        None => None,
                    },
                    None => None,
                },
                None => None,
            }
        },
        Layer::Pooling { x, channel, height, width, filter_h, filter_w, stride, pad, .. } => {
            match load_parameters(*x, values, from) {
                Some((nx, n1)) => Some((
                    Layer::Pooling {
                        x: Box::new(nx),
                        channel,
                        height,
                        width,
                        filter_h,
                        filter_w,
                        stride,
                        pad,
                        cache: None,
                    },
                    n1,
                )),
                None => None,
            }
        },
        Layer::SoftmaxLoss { x, target, .. } => {
            match load_parameters(*x, values, from) {
                Some((nx, n1)) => Some((
                    Layer::SoftmaxLoss {
                        x: Box::new(nx),
                        target,
                        cache: None,
                        probs: None,
                    },
                    n1,
                )),
                None => None,
            }
        },
    }
}

/// Reloads a whole graph from a value list: succeeds exactly when the list
/// holds one rightly shaped tensor per leaf, in the export walk order, and
/// nothing more.
pub fn import_parameters<S: Scalar>(l: Layer<S>, values: &Vec<Tensor<S>>) -> (res: Option<
    Layer<S>,
>)
    requires
        l.wf(),
        forall|i: int| 0 <= i < values@.len() ==> (#[trigger] values@[i]).wf(),
    ensures
        res is Some <==> sp_load_next(l, values@, 0) == Some(values@.len() as int),
        res matches Some(post) ==> {
            &&& sp_loaded(l, values@, 0, post)
            &&& post.wf()
            &&& post.sp_all_clear()
            &&& post.sp_out_rows() == l.sp_out_rows()
            &&& post.sp_out_cols() == l.sp_out_cols()
            &&& post.sp_in_rows() == l.sp_in_rows()
            &&& post.sp_in_cols() == l.sp_in_cols()
        },
{
    match load_parameters(l, values, 0) {
        Some((post, next)) => {
            if next == values.len() {
                Some(post)
            } else {
                None
            }
        },
        None => None,
    }
}

} // verus!
