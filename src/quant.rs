//! The per-layer quantization plan of a model load.
use vstd::prelude::*;

verus! {

/// Numeric representation of one layer's weights.
#[derive(PartialEq, Eq, Structural, Debug, Clone, Copy)]
pub enum Quant {
    /// Full precision.
    Full,
    /// 8-bit integers.
    Int8,
    /// 4-bit normal-float.
    NF4,
}

/// The representation of layer `layer` when the first `q8` layers are 8-bit
/// and the next `q_nf4` layers are 4-bit.
pub open spec fn layer_quant(layer: int, q8: int, q_nf4: int) -> Quant {
    if layer < q8 {
        Quant::Int8
    } else if layer < q8 + q_nf4 {
        Quant::NF4
    } else {
        Quant::Full
    }
}

/// The representation of layer `layer` when the first `q8` layers are 8-bit
/// and the next `q_nf4` layers are 4-bit; every later layer stays at full
/// precision.
pub fn quant_of_layer(layer: usize, q8: usize, q_nf4: usize) -> (r: Quant)
    ensures
        r == layer_quant(layer as int, q8 as int, q_nf4 as int),
{
    if layer < q8 {
        Quant::Int8
    } else if layer - q8 < q_nf4 {
        Quant::NF4
    } else {
        Quant::Full
    }
}

/// The quantized layers as `(layer, representation)` pairs in layer order:
/// layers `0..q8` at 8 bits, then layers `q8..q8 + q_nf4` at 4 bits. Layers
/// that are not listed stay at full precision.
pub fn quant_plan(q8: usize, q_nf4: usize) -> (r: Vec<(usize, Quant)>)
    requires
        q8 + q_nf4 <= usize::MAX,
    ensures
        r@.len() == q8 + q_nf4,
        forall|i: int|
            0 <= i < r@.len() ==> (#[trigger] r@[i]).0 as int == i && r@[i].1 == layer_quant(
                i,
                q8 as int,
                q_nf4 as int,
            ),
{
    let total = q8 + q_nf4;
    let mut r: Vec<(usize, Quant)> = Vec::new();
    let mut layer: usize = 0;
    while layer < total
        invariant
            total == q8 + q_nf4,
            layer <= total,
            r@.len() == layer,
            forall|i: int|
                0 <= i < layer ==> (#[trigger] r@[i]).0 as int == i && r@[i].1 == layer_quant(
                    i,
                    q8 as int,
                    q_nf4 as int,
                ),
        decreases total - layer,
    {
        r.push((layer, quant_of_layer(layer, q8, q_nf4)));
        layer += 1;
    }
    r
}

/// What a model load is built with: the quantization plan and the optional
/// rescale interval.
pub struct LoadPlan {
    pub quant: Vec<(usize, Quant)>,
    pub rescale: Option<usize>,
}

impl LoadPlan {
    /// The plan for `q8` 8-bit layers followed by `q_nf4` 4-bit layers.
    pub fn new(q8: usize, q_nf4: usize, rescale: Option<usize>) -> (r: LoadPlan)
        requires
            q8 + q_nf4 <= usize::MAX,
        ensures
            r.rescale == rescale,
            r.quant@.len() == q8 + q_nf4,
            forall|i: int|
                0 <= i < r.quant@.len() ==> (#[trigger] r.quant@[i]).0 as int == i
                    && r.quant@[i].1 == layer_quant(i, q8 as int, q_nf4 as int),
    {
        LoadPlan { quant: quant_plan(q8, q_nf4), rescale }
    }
}

} // verus!
