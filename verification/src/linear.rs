//! Linear layers: in which format a weight is read, what a rank reads of it,
//! and how inputs are shaped for it.

use crate::checkpoint::{dims1, dims2, dims3, DType, Fetch, ScaleSource, TensorRead, VarBuilderX};
use crate::config::QuantConfig;
use crate::distributed::{shard, Shard, Span};
use crate::ggml::QuantType;
use crate::math::{ceil_div, div_ceil};
use crate::merged::{find_scale_block, scale_block};
use crate::parallel::product;
use crate::text::same;
use vstd::arithmetic::div_mod::*;
use vstd::arithmetic::mul::*;
use vstd::prelude::*;

verus! {

/// Restores the prefill flag that was in force before.
pub struct LinearPrefillGuard {
    pub prev: bool,
}

/// Sets the flag and hands out what restores it.
pub fn set_linear_is_prefill(flag: &mut bool, is_prefill: bool) -> (r: LinearPrefillGuard)
    ensures
        *final(flag) == is_prefill,
        r.prev == *old(flag),
{
    let prev = *flag;
    *flag = is_prefill;
    LinearPrefillGuard { prev }
}

/// The flag as linear layers see it.
pub fn linear_is_prefill(flag: &bool) -> (r: bool)
    ensures
        r == *flag,
{
    *flag
}

impl LinearPrefillGuard {
    /// Puts the earlier flag back.
    pub fn restore(self, flag: &mut bool)
        ensures
            *final(flag) == self.prev,
    {
        *flag = self.prev;
    }
}

/// A part of a dense weight that may be missing: read whole, then cut.
#[derive(Clone)]
pub struct BiasRead {
    pub read: TensorRead,
    /// The elements that a rank keeps; all without a span.
    pub keep: Option<Span>,
}

/// The elements of a bias of `len` that a rank keeps.
pub open spec fn bias_span(len: usize, s: Shard) -> Option<Span> {
    if s.world_size > 1 {
        Some(Span { start: (s.rank * (len as int / s.world_size as int)) as usize, len: (len as int / s.world_size as int) as usize })
    } else {
        None
    }
}

impl Shard {
    /// The rank belongs to the group.
    pub open spec fn wf(&self) -> bool {
        self.rank < self.world_size
    }
}

pub fn cut_bias(len: usize, s: Shard) -> (r: Option<Span>)
    requires
        s.wf(),
    ensures
        r == bias_span(len, s),
{
    if s.world_size > 1 {
        let local: usize = len / s.world_size;
        proof {
            lemma_fundamental_div_mod(len as int, s.world_size as int);
            lemma_mul_inequality(s.rank as int, s.world_size as int, local as int);
        }
        Some(Span { start: s.rank * local, len: local })
    } else {
        None
    }
}

/// A dense layer: the weight is read as the type of the checkpoint and cast
/// to `dtype`, and so is the bias, where one can be read.
#[derive(Clone)]
pub struct Linear {
    pub weight: TensorRead,
    pub bias: Option<BiasRead>,
    pub dtype: DType,
}

impl Linear {
    /// Whether this is the dense layer of that size.
    pub open spec fn is_dense(
        &self,
        vb: &VarBuilderX,
        in_dim: usize,
        out_dim: usize,
        s: Shard,
        bias: bool,
        dtype: DType,
    ) -> bool {
        &&& self.weight.reads(vb.spec_path("weight"@), seq![out_dim, in_dim], s, vb.checkpoint.dtype)
        &&& self.dtype == dtype
        &&& self.bias is Some <==> bias
        &&& self.bias matches Some(b) ==> b.keep == bias_span(out_dim, s)
            && b.read.reads(vb.spec_path("bias"@), seq![out_dim], Shard::whole(), vb.checkpoint.dtype)
    }

    /// How an input of shape `dims` is multiplied by a weight with `out_dim`
    /// rows.
    pub fn forward(dims: &Vec<usize>, out_dim: usize) -> (r: MatmulPlan)
        requires
            dims@.len() >= 2 ==> dims@[0] * dims@[1] <= usize::MAX,
        ensures
            r.computes(dims@, out_dim),
    {
        if dims.len() == 4 {
            if dims[1] > 1 {
                assert(dims@.take(2) =~= seq![dims@[0], dims@[1]]);
                MatmulPlan::Broadcast(dims2(dims[0], dims[1]))
            } else {
                let mut back = dims3(dims[0], dims[1], dims[2]);
                back.push(out_dim);
                let rows: usize = dims[0] * dims[1];
                assert(back@ =~= dims@.drop_last().push(out_dim));
                assert(seq![rows, dims@[2], dims@[3]] =~= seq![rows] + dims@.skip(2));
                MatmulPlan::Flatten { to: dims3(rows, dims[2], dims[3]), back }
            }
        } else if dims.len() == 3 {
            if dims[1] > 1 {
                assert(dims@.take(1) =~= seq![dims@[0]]);
                MatmulPlan::Broadcast(dims1(dims[0]))
            } else {
                let rows: usize = dims[0] * dims[1];
                assert(seq![rows, dims@[2]] =~= seq![rows] + dims@.skip(2));
                assert(seq![dims@[0], dims@[1], out_dim] =~= dims@.drop_last().push(out_dim));
                MatmulPlan::Flatten { to: dims2(rows, dims[2]), back: dims3(dims[0], dims[1], out_dim) }
            }
        } else {
            MatmulPlan::Direct
        }
    }
}

/// How an input meets a transposed weight.
pub enum MatmulPlan {
    /// The weight is repeated over these leading dimensions.
    Broadcast(Vec<usize>),
    /// The input is reshaped, multiplied, and the product reshaped back.
    Flatten { to: Vec<usize>, back: Vec<usize> },
    /// The input is multiplied as it is.
    Direct,
}

impl MatmulPlan {
    /// Whether this is the plan for an input of shape `dims`: sequences of
    /// one token are flattened, longer ones share a repeated weight.
    pub open spec fn computes(&self, dims: Seq<usize>, out_dim: usize) -> bool {
        if dims.len() == 4 && dims[1] > 1 {
            self matches MatmulPlan::Broadcast(left) && left@ == dims.take(2)
        } else if dims.len() == 3 && dims[1] > 1 {
            self matches MatmulPlan::Broadcast(left) && left@ == dims.take(1)
        } else if dims.len() == 3 || dims.len() == 4 {
            self matches MatmulPlan::Flatten { to, back }
                && to@ == seq![(dims[0] * dims[1]) as usize] + dims.skip(2)
                && back@ == dims.drop_last().push(out_dim)
        } else {
            *self is Direct
        }
    }
}

pub fn linear_no_bias(in_dim: usize, out_dim: usize, vb: &VarBuilderX, s: Shard, dtype: DType) -> (r: Linear)
    ensures
        r.is_dense(vb, in_dim, out_dim, s, false, dtype),
{
    Linear { weight: vb.get_with_hints("weight", dims2(out_dim, in_dim), s), bias: None, dtype }
}

/// The weights of all experts in one tensor, cut inside each expert.
pub fn linear_no_bias_merged(
    num_experts: usize,
    in_dim: usize,
    out_dim: usize,
    vb: &VarBuilderX,
    s: Shard,
    dtype: DType,
) -> (r: Linear)
    requires
        s.dim < usize::MAX,
    ensures
        r.bias is None,
        r.dtype == dtype,
        r.weight.reads(
            vb.spec_path("weight"@),
            seq![num_experts, out_dim, in_dim],
            (Shard { dim: (s.dim + 1) as usize, rank: s.rank, world_size: s.world_size }),
            vb.checkpoint.dtype,
        ),
{
    let sd = shard(s.dim + 1, s.rank, s.world_size);
    Linear { weight: vb.get_with_hints("weight", dims3(num_experts, out_dim, in_dim), sd), bias: None, dtype }
}

pub fn linear(in_dim: usize, out_dim: usize, vb: &VarBuilderX, s: Shard, dtype: DType) -> (r: Linear)
    requires
        s.wf(),
    ensures
        r.is_dense(vb, in_dim, out_dim, s, true, dtype),
{
    let bias = BiasRead { read: vb.get("bias", dims1(out_dim)), keep: cut_bias(out_dim, s) };
    Linear { weight: vb.get_with_hints("weight", dims2(out_dim, in_dim), s), bias: Some(bias), dtype }
}

pub fn linear_b(in_dim: usize, out_dim: usize, bias: bool, vb: &VarBuilderX, s: Shard, dtype: DType) -> (r: Linear)
    requires
        s.wf(),
    ensures
        r.is_dense(vb, in_dim, out_dim, s, bias, dtype),
{
    if bias {
        linear(in_dim, out_dim, vb, s, dtype)
    } else {
        linear_no_bias(in_dim, out_dim, vb, s, dtype)
    }
}

/// A block-quantized layer of a GGUF file.
#[derive(Clone)]
pub struct QLinear {
    pub weight: TensorRead,
    /// Dimension that is cut over the ranks, and the group.
    pub shard: Shard,
    pub bias: BiasRead,
    pub dtype: DType,
}

/// What a rank does with a block-quantized weight.
#[derive(Debug, Clone, Copy, PartialEq, Eq, Structural)]
pub enum QuantPart {
    /// The stored blocks are used as they are.
    Stored,
    /// The weight is dequantized, cut along `dim`, and quantized again.
    Cut { dim: usize, span: Span, to: QuantType },
}

/// The part of a block-quantized weight of type `stored` with `extent`
/// elements along the dimension of the shard. Where the part is not made of
/// whole blocks, it becomes [`QuantType::Q8_0`].
pub open spec fn quant_part(stored: QuantType, extent: usize, s: Shard) -> QuantPart {
    if s.world_size > 1 {
        let chunk = extent as int / s.world_size as int;
        QuantPart::Cut {
            dim: s.dim,
            span: Span { start: (s.rank * chunk) as usize, len: chunk as usize },
            to: stored.fitting(chunk),
        }
    } else {
        QuantPart::Stored
    }
}

impl QLinear {
    /// Whether this is the block-quantized layer of that size.
    pub open spec fn is_stored(&self, vb: &VarBuilderX, in_dim: usize, out_dim: usize, s: Shard, dtype: DType) -> bool {
        &&& self.weight.reads(vb.spec_path("weight"@), seq![out_dim, in_dim], Shard::whole(), vb.checkpoint.dtype)
        &&& self.shard == s
        &&& self.bias.keep == bias_span(out_dim, s)
        &&& self.bias.read.reads(vb.spec_path("bias"@), seq![out_dim], Shard::whole(), vb.checkpoint.dtype)
        &&& self.dtype == dtype
    }

    pub fn new(in_dim: usize, out_dim: usize, vb: &VarBuilderX, s: Shard, dtype: DType) -> (r: Self)
        requires
            s.wf(),
        ensures
            r.is_stored(vb, in_dim, out_dim, s, dtype),
    {
        QLinear {
            weight: vb.get("weight", dims2(out_dim, in_dim)),
            shard: s,
            bias: BiasRead { read: vb.get("bias", dims1(out_dim)), keep: cut_bias(out_dim, s) },
            dtype,
        }
    }

    /// What this rank does with the weight, once its stored type is known.
    pub fn part(stored: QuantType, extent: usize, s: Shard) -> (r: QuantPart)
        requires
            s.wf(),
        ensures
            r == quant_part(stored, extent, s),
    {
        match cut_bias(extent, s) {
            Some(span) => QuantPart::Cut { dim: s.dim, span, to: stored.fit(span.len) },
            None => QuantPart::Stored,
        }
    }

    /// As [`QLinear::part`] for the weights of all experts in one tensor,
    /// whose dimensions come one later. `None` where the part is not made of
    /// whole blocks, for which there is no substitute.
    pub fn new_fused(stored: QuantType, extent: usize, s: Shard) -> (r: Option<QuantPart>)
        requires
            s.wf(),
            s.dim < usize::MAX,
        ensures
            r == (match quant_part(stored, extent, s) {
                QuantPart::Cut { dim, span, to } => if span.len as int % stored.block_elems() as int == 0 {
                    Some(QuantPart::Cut { dim: (dim + 1) as usize, span, to: stored })
                } else {
                    None
                },
                QuantPart::Stored => Some(QuantPart::Stored),
            }),
    {
        match cut_bias(extent, s) {
            Some(span) => if span.len % stored.block_size() == 0 {
                Some(QuantPart::Cut { dim: s.dim + 1, span, to: stored })
            } else {
                None
            },
            None => Some(QuantPart::Stored),
        }
    }

    /// The type that a weight with rows of `last_dim` elements is quantized
    /// to at load time when `quant` is asked for, `None` to keep it as it is.
    pub fn from_linear_x(quant: &str, last_dim: usize) -> (r: Option<QuantType>)
        requires
            QuantType::of_name(quant@) is Some,
        ensures
            r == QuantType::of_name(quant@)->0.in_situ(last_dim as int),
    {
        match QuantType::from_name(quant) {
            Some(t) => t.choose_in_situ(last_dim),
            None => None,
        }
    }
}

/// Whether the scope holds scales of FP4 weights.
pub open spec fn fp4_scales_exist(vb: &VarBuilderX, mlx: bool) -> bool {
    if mlx {
        vb.has("weight"@) && vb.has("scales"@)
    } else {
        vb.has("weight_scale"@) || vb.has("weight_scale_2"@) || vb.has("weight_global_scale"@) || vb.has("weight_packed"@)
            || vb.has("blocks"@)
    }
}

pub fn has_fp4_scale_tensors(vb: &VarBuilderX, is_mlx_nvfp4: bool) -> (r: bool)
    ensures
        r == fp4_scales_exist(vb, is_mlx_nvfp4),
{
    if is_mlx_nvfp4 {
        vb.has_key("weight") && vb.has_key("scales")
    } else {
        vb.has_key("weight_scale") || vb.has_key("weight_scale_2") || vb.has_key("weight_global_scale")
            || vb.has_key("weight_packed") || vb.has_key("blocks")
    }
}

/// Whether the scope holds tensors that only NVFP4 weights have.
pub open spec fn nvfp4_tensors_exist(vb: &VarBuilderX, mlx: bool) -> bool {
    if mlx {
        vb.has("weight"@) && vb.has("scales"@)
    } else {
        vb.has("weight_packed"@) || vb.has("blocks"@) || vb.has("weight_scale_2"@) || vb.has("weight_global_scale"@)
    }
}

pub fn has_nvfp4_specific_tensors(vb: &VarBuilderX, is_mlx_nvfp4: bool) -> (r: bool)
    ensures
        r == nvfp4_tensors_exist(vb, is_mlx_nvfp4),
{
    if is_mlx_nvfp4 {
        vb.has_key("weight") && vb.has_key("scales")
    } else {
        vb.has_key("weight_packed") || vb.has_key("blocks") || vb.has_key("weight_scale_2")
            || vb.has_key("weight_global_scale")
    }
}

/// Whether the scope holds scales of FP8 weights.
pub open spec fn fp8_scales_exist(vb: &VarBuilderX) -> bool {
    vb.has("weight_scale"@) || vb.has("weight_scale_inv"@)
}

pub fn has_fp8_tensors(vb: &VarBuilderX) -> (r: bool)
    ensures
        r == fp8_scales_exist(vb),
{
    vb.has_key("weight_scale") || vb.has_key("weight_scale_inv")
}

/// An FP8 layer with a scale for each block.
#[derive(Clone)]
pub struct LnFp8 {
    pub weight: TensorRead,
    pub weight_scale: Fetch,
    /// Read where it exists.
    pub bias: Option<TensorRead>,
    pub by: usize,
    pub bx: usize,
}

/// Why an FP8 layer cannot be planned or its tensors cut.
#[derive(Debug, Clone, Copy, PartialEq, Eq, Structural)]
pub enum Fp8Error {
    /// The block size has not two elements.
    BlockSizeLen { len: usize },
    /// Cutting along this dimension is not supported.
    ShardDim { dim: usize },
    /// The tensor has neither the size of a part nor that of the whole.
    Shape { got: usize, local: usize, global: usize },
    /// An input has neither two nor three dimensions.
    InputDims { dims: usize },
}

/// Shape of the scales of an FP8 weight.
pub open spec fn fp8_scale_shape(out_dim: usize, in_dim: usize, by: usize, bx: usize) -> Seq<usize> {
    seq![ceil_div(out_dim as int, by as int) as usize, ceil_div(in_dim as int, bx as int) as usize]
}

/// Blocks that scales can be counted for: two positive sizes, small enough.
pub open spec fn countable_blocks(cfg: QuantConfig, out_dim: usize, in_dim: usize) -> bool {
    let block = scale_block(Some(cfg));
    block.len() == 2 ==> 0 < block[0] && 0 < block[1] && out_dim + block[0] <= usize::MAX && in_dim + block[1] <= usize::MAX
}

impl LnFp8 {
    /// Whether this is the FP8 layer of that size.
    pub open spec fn is_fp8(
        &self,
        vb: &VarBuilderX,
        in_dim: usize,
        out_dim: usize,
        s: Shard,
        cfg: QuantConfig,
        load_bias: bool,
    ) -> bool {
        let block = scale_block(Some(cfg));
        let scales = fp8_scale_shape(out_dim, in_dim, self.by, self.bx);
        &&& block.len() == 2 && self.by == block[0] && self.bx == block[1]
        &&& self.weight.reads(vb.spec_path("weight"@), seq![out_dim, in_dim], s, DType::U8)
        &&& self.weight_scale.tries@.len() == 2
        &&& self.weight_scale.tries@[0].reads(vb.spec_path("weight_scale"@), scales, s, DType::F32)
        &&& self.weight_scale.tries@[1].reads(vb.spec_path("weight_scale_inv"@), scales, s, DType::F32)
        &&& self.bias is Some <==> load_bias
        &&& self.bias matches Some(b) ==> b.reads(vb.spec_path("bias"@), seq![out_dim], s, DType::F32)
    }
}

/// An FP8 layer that is read as the type of the checkpoint and cast: the
/// weight to bytes, the scales to single precision.
pub struct CastFp8 {
    pub weight: TensorRead,
    pub weight_scale: Fetch,
    /// Kept where it can be read.
    pub bias: BiasRead,
    pub by: usize,
    pub bx: usize,
}

/// How an input meets an FP8 weight.
#[derive(Debug, Clone, Copy, PartialEq, Eq)]
pub struct Fp8Pass {
    /// Rows and columns of the input.
    pub flat: (usize, usize),
    /// The shape that the product is brought into, where it changes.
    pub back: Option<(usize, usize, usize)>,
}

/// How an input of shape `dims` meets an FP8 weight with `out_dim` rows.
pub open spec fn fp8_pass(dims: Seq<usize>, out_dim: usize) -> Result<Fp8Pass, Fp8Error> {
    if dims.len() == 3 {
        Ok(Fp8Pass {
            flat: ((dims[0] * dims[1]) as usize, dims[2]),
            back: if dims[1] > 1 { Some((dims[0], dims[1], out_dim)) } else { None },
        })
    } else if dims.len() == 2 {
        Ok(Fp8Pass { flat: (dims[0], dims[1]), back: None })
    } else {
        Err(Fp8Error::InputDims { dims: dims.len() as usize })
    }
}

impl LnFp8 {
    /// Whether `ln` is the layer of that size, read as it is stored.
    pub open spec fn is_cast(ln: CastFp8, vb: &VarBuilderX, in_dim: usize, out_dim: usize, s: Shard, cfg: QuantConfig) -> bool {
        let block = scale_block(Some(cfg));
        let scales = fp8_scale_shape(out_dim, in_dim, ln.by, ln.bx);
        let ck = vb.checkpoint.dtype;
        &&& block.len() == 2 && ln.by == block[0] && ln.bx == block[1]
        &&& ln.weight.reads(vb.spec_path("weight"@), seq![out_dim, in_dim], s, ck)
        &&& ln.weight_scale.tries@.len() == 2
        &&& ln.weight_scale.tries@[0].reads(vb.spec_path("weight_scale"@), scales, s, ck)
        &&& ln.weight_scale.tries@[1].reads(vb.spec_path("weight_scale_inv"@), scales, s, ck)
        &&& ln.bias.keep == bias_span(out_dim, s)
        &&& ln.bias.read.reads(vb.spec_path("bias"@), seq![out_dim], Shard::whole(), ck)
    }

    pub fn new(in_dim: usize, out_dim: usize, vb: &VarBuilderX, s: Shard, cfg: &QuantConfig) -> (r: Result<CastFp8, Fp8Error>)
        requires
            s.wf(),
            countable_blocks(*cfg, out_dim, in_dim),
        ensures
            match r {
                Ok(ln) => Self::is_cast(ln, vb, in_dim, out_dim, s, *cfg),
                Err(e) => scale_block(Some(*cfg)).len() != 2
                    && e == (Fp8Error::BlockSizeLen { len: scale_block(Some(*cfg)).len() as usize }),
            },
    {
        let block = match &cfg.weight_block_size {
            Some(b) => b.clone(),
            None => dims2(128, 128),
        };
        assert(block@ == scale_block(Some(*cfg)));
        if block.len() != 2 {
            return Err(Fp8Error::BlockSizeLen { len: block.len() });
        }
        let (by, bx) = (block[0], block[1]);
        let rows: usize = div_ceil(out_dim, by);
        let cols: usize = div_ceil(in_dim, bx);
        Ok(
            CastFp8 {
                weight: vb.get_with_hints("weight", dims2(out_dim, in_dim), s),
                weight_scale: Fetch::two(
                    vb.get_with_hints("weight_scale", dims2(rows, cols), s),
                    vb.get_with_hints("weight_scale_inv", dims2(rows, cols), s),
                ),
                bias: BiasRead { read: vb.get("bias", dims1(out_dim)), keep: cut_bias(out_dim, s) },
                by,
                bx,
            },
        )
    }

    /// How an input of shape `dims` meets a weight with `out_dim` rows.
    pub fn forward(dims: &Vec<usize>, out_dim: usize) -> (r: Result<Fp8Pass, Fp8Error>)
        requires
            dims@.len() == 3 ==> dims@[0] * dims@[1] <= usize::MAX,
        ensures
            r == fp8_pass(dims@, out_dim),
    {
        if dims.len() == 3 {
            let (b, s, d) = (dims[0], dims[1], dims[2]);
            Ok(Fp8Pass { flat: (b * s, d), back: if s > 1 { Some((b, s, out_dim)) } else { None } })
        } else if dims.len() == 2 {
            Ok(Fp8Pass { flat: (dims[0], dims[1]), back: None })
        } else {
            Err(Fp8Error::InputDims { dims: dims.len() })
        }
    }
}

/// The shape of an input without its last dimension, and the rows of the
/// input in all.
pub fn leading_rows(dims: &Vec<usize>) -> (r: (Vec<usize>, usize))
    requires
        dims@.len() >= 1,
        forall|i: int| 0 <= i < dims@.len() ==> #[trigger] product(dims@.take(i)) <= usize::MAX,
    ensures
        r.0@ == dims@.drop_last(),
        r.1 == product(dims@.drop_last()),
{
    let mut shape: Vec<usize> = Vec::new();
    let mut rows: usize = 1;
    let mut i: usize = 0;
    assert(dims@.take(0) =~= Seq::<usize>::empty());
    while i < dims.len() - 1
        invariant
            0 < dims@.len(),
            i <= dims@.len() - 1,
            shape@ == dims@.take(i as int),
            rows == product(dims@.take(i as int)),
            forall|j: int| 0 <= j < dims@.len() ==> #[trigger] product(dims@.take(j)) <= usize::MAX,
        decreases dims@.len() - i,
    {
        assert(dims@.take(i + 1).drop_last() =~= dims@.take(i as int));
        assert(product(dims@.take(i + 1)) <= usize::MAX);
        rows = rows * dims[i];
        shape.push(dims[i]);
        i = i + 1;
        assert(shape@ =~= dims@.take(i as int));
    }
    assert(dims@.take(dims@.len() - 1) =~= dims@.drop_last());
    (shape, rows)
}

/// How an input meets a packed FP4 weight: rows and columns of the input and
/// the shape that the product is brought into, where they change.
pub struct Fp4Pass {
    pub flat: Option<(usize, usize)>,
    pub back: Option<Vec<usize>>,
}

impl Fp4Pass {
    /// Whether this is how an input of shape `dims` meets a weight with
    /// `out_dim` rows: inputs of more than two dimensions are flattened.
    pub open spec fn computes(&self, dims: Seq<usize>, out_dim: usize) -> bool {
        if dims.len() > 2 {
            &&& self.flat == Some((product(dims.drop_last()) as usize, dims.last()))
            &&& self.back matches Some(b) && b@ == dims.drop_last().push(out_dim)
        } else {
            self.flat is None && self.back is None
        }
    }

    fn of(dims: &Vec<usize>, out_dim: usize) -> (r: Self)
        requires
            forall|i: int| 0 <= i < dims@.len() ==> #[trigger] product(dims@.take(i)) <= usize::MAX,
        ensures
            r.computes(dims@, out_dim),
    {
        if dims.len() <= 2 {
            return Fp4Pass { flat: None, back: None };
        }
        let (mut back, rows) = leading_rows(dims);
        back.push(out_dim);
        Fp4Pass { flat: Some((rows, dims[dims.len() - 1])), back: Some(back) }
    }
}

/// Plans an FP8 layer. The tensors that are read may be parts or wholes:
/// [`normalize_sharded_2d`] and [`normalize_sharded_1d`] say what is cut.
pub fn load_ln_fp8_with_hints(
    in_dim: usize,
    out_dim: usize,
    vb: &VarBuilderX,
    s: Shard,
    cfg: &QuantConfig,
    load_bias: bool,
) -> (r: Result<LnFp8, Fp8Error>)
    requires
        countable_blocks(*cfg, out_dim, in_dim),
    ensures
        match r {
            Ok(ln) => ln.is_fp8(vb, in_dim, out_dim, s, *cfg, load_bias),
            Err(e) => scale_block(Some(*cfg)).len() != 2
                && e == (Fp8Error::BlockSizeLen { len: scale_block(Some(*cfg)).len() as usize }),
        },
{
    let block = match &cfg.weight_block_size {
        Some(b) => b.clone(),
        None => dims2(128, 128),
    };
    assert(block@ == scale_block(Some(*cfg)));
    if block.len() != 2 {
        return Err(Fp8Error::BlockSizeLen { len: block.len() });
    }
    let by: usize = block[0];
    let bx: usize = block[1];
    let rows: usize = div_ceil(out_dim, by);
    let cols: usize = div_ceil(in_dim, bx);
    let weight = vb.read("weight", dims2(out_dim, in_dim), s, DType::U8);
    let weight_scale = Fetch::two(
        vb.read("weight_scale", dims2(rows, cols), s, DType::F32),
        vb.read("weight_scale_inv", dims2(rows, cols), s, DType::F32),
    );
    let bias = if load_bias {
        Some(vb.read("bias", dims1(out_dim), s, DType::F32))
    } else {
        None
    };
    Ok(LnFp8 { weight, weight_scale, bias, by, bx })
}

/// What is left to cut of a tensor of which `got` elements were read along
/// the dimension of the shard: nothing where that is the part already.
pub open spec fn left_to_cut(got: usize, global: usize, s: Shard) -> Result<Option<Span>, Fp8Error> {
    let local = global as int / s.world_size as int;
    if s.world_size <= 1 || got == local {
        Ok(None)
    } else if got == global {
        Ok(Some(Span { start: (s.rank * local) as usize, len: local as usize }))
    } else {
        Err(Fp8Error::Shape { got, local: local as usize, global })
    }
}

/// What is left to cut of a one-dimensional tensor of `got` elements, whose
/// whole has `global`.
pub fn normalize_sharded_1d(got: usize, s: Shard, global: usize) -> (r: Result<Option<Span>, Fp8Error>)
    requires
        s.world_size > 1 ==> s.wf(),
    ensures
        r == left_to_cut(got, global, s),
{
    if s.world_size <= 1 {
        return Ok(None);
    }
    let local: usize = global / s.world_size;
    if got == local {
        return Ok(None);
    }
    if got == global {
        return Ok(cut_bias(global, s));
    }
    Err(Fp8Error::Shape { got, local, global })
}

/// What is left to cut of a tensor of shape `got`, whose whole has shape
/// `global`, along the dimension of the shard.
pub fn normalize_sharded_2d(got: (usize, usize), s: Shard, global: (usize, usize)) -> (r: Result<Option<Span>, Fp8Error>)
    requires
        s.world_size > 1 ==> s.wf(),
    ensures
        r == (if s.world_size <= 1 {
            Ok::<Option<Span>, Fp8Error>(None)
        } else if s.dim > 1 {
            Err(Fp8Error::ShardDim { dim: s.dim })
        } else if s.dim == 0 {
            left_to_cut(got.0, global.0, s)
        } else {
            left_to_cut(got.1, global.1, s)
        }),
{
    if s.world_size <= 1 {
        return Ok(None);
    }
    if s.dim > 1 {
        return Err(Fp8Error::ShardDim { dim: s.dim });
    }
    if s.dim == 0 {
        normalize_sharded_1d(got.0, s, global.0)
    } else {
        normalize_sharded_1d(got.1, s, global.1)
    }
}

/// Whatever was read, what remains after the cut is one part of the whole.
pub proof fn law_normalized_is_a_part(got: usize, global: usize, s: Shard)
    requires
        s.world_size > 1,
        s.wf(),
    ensures
        left_to_cut(got, global, s) matches Ok(None) ==> got == global as int / s.world_size as int,
        left_to_cut(got, global, s) matches Ok(Some(span)) ==> span.len == global as int / s.world_size as int
            && span.start == s.rank * span.len && span.start + span.len <= got,
{
    let local = global as int / s.world_size as int;
    lemma_fundamental_div_mod(global as int, s.world_size as int);
    lemma_mul_inequality(s.rank as int + 1, s.world_size as int, local);
    lemma_mul_is_distributive_add_other_way(local, s.rank as int, 1);
    lemma_mul_nonnegative(s.rank as int, local);
}

/// How scales are laid out for the matrix kernels of a device generation.
#[derive(Debug, Clone, Copy, PartialEq, Eq, Structural)]
pub enum ScaleLayout {
    /// No second layout.
    Plain,
    /// A transposed copy in memory order.
    TransposedCopy,
    /// A transposed view.
    TransposedView,
}

/// The second layout of FP8 scales, by compute capability.
pub open spec fn scale_layout(sm_version: usize) -> ScaleLayout {
    if sm_version >= 100 {
        ScaleLayout::TransposedView
    } else if sm_version >= 90 {
        ScaleLayout::TransposedCopy
    } else {
        ScaleLayout::Plain
    }
}

pub fn cutlass_scale_layout(sm_version: usize) -> (r: ScaleLayout)
    ensures
        r == scale_layout(sm_version),
{
    if sm_version >= 100 {
        ScaleLayout::TransposedView
    } else if sm_version >= 90 {
        ScaleLayout::TransposedCopy
    } else {
        ScaleLayout::Plain
    }
}

/// Whether the scales of NVFP4 weights get a second, swizzled layout, by
/// compute capability.
pub fn swizzles_scales(sm_version: usize) -> (r: bool)
    ensures
        r == (sm_version >= 100),
{
    sm_version >= 100
}

/// An MXFP4 layer: packed bytes with a scale for each group of 32 columns.
#[derive(Clone)]
pub struct LnMxfp4 {
    pub blocks: TensorRead,
    pub scales: TensorRead,
    pub bias: Option<TensorRead>,
}

impl LnMxfp4 {
    /// How an input of shape `dims` meets a weight with `out_dim` rows.
    pub fn forward(dims: &Vec<usize>, out_dim: usize) -> (r: Fp4Pass)
        requires
            forall|i: int| 0 <= i < dims@.len() ==> #[trigger] product(dims@.take(i)) <= usize::MAX,
        ensures
            r.computes(dims@, out_dim),
    {
        Fp4Pass::of(dims, out_dim)
    }

    pub open spec fn is_mxfp4(&self, vb: &VarBuilderX, in_dim: usize, out_dim: usize, s: Shard, load_bias: bool) -> bool {
        let packed = if vb.has("weight_packed"@) { "weight_packed"@ } else { "blocks"@ };
        let scale = if vb.has("weight_scale"@) { "weight_scale"@ } else { "scales"@ };
        &&& self.blocks.reads(vb.spec_path(packed), seq![out_dim, in_dim / 2], s, DType::U8)
        &&& self.scales.reads(vb.spec_path(scale), seq![out_dim, in_dim / 32], s, DType::U8)
        &&& self.bias is Some <==> load_bias && vb.has("bias"@)
        &&& self.bias matches Some(b) ==> b.reads(vb.spec_path("bias"@), seq![out_dim], Shard::whole(), vb.checkpoint.dtype)
    }

    pub fn load(in_dim: usize, out_dim: usize, vb: &VarBuilderX, s: Shard, load_bias: bool) -> (r: Self)
        ensures
            r.is_mxfp4(vb, in_dim, out_dim, s, load_bias),
    {
        let packed = if vb.has_key("weight_packed") { "weight_packed" } else { "blocks" };
        let scale = if vb.has_key("weight_scale") { "weight_scale" } else { "scales" };
        LnMxfp4 {
            blocks: vb.read(packed, dims2(out_dim, in_dim / 2), s, DType::U8),
            scales: vb.read(scale, dims2(out_dim, in_dim / 32), s, DType::U8),
            bias: if load_bias && vb.has_key("bias") { Some(vb.get("bias", dims1(out_dim))) } else { None },
        }
    }
}

/// An NVFP4 layer: packed FP4 values with a scale for each group of 16
/// columns, a scale for the whole weight and one for its inputs.
#[derive(Clone)]
pub struct LnNvfp4 {
    pub blocks: TensorRead,
    /// Whether 32-bit words are repacked to bytes first.
    pub repack: bool,
    pub scales: TensorRead,
    pub global_scale: ScaleSource,
    pub input_scale: ScaleSource,
    pub bias: Option<TensorRead>,
}

impl LnNvfp4 {
    /// How an input of shape `dims` meets a weight with `out_dim` rows.
    pub fn forward(dims: &Vec<usize>, out_dim: usize) -> (r: Fp4Pass)
        requires
            forall|i: int| 0 <= i < dims@.len() ==> #[trigger] product(dims@.take(i)) <= usize::MAX,
        ensures
            r.computes(dims@, out_dim),
    {
        Fp4Pass::of(dims, out_dim)
    }

    pub open spec fn is_nvfp4(&self, vb: &VarBuilderX, in_dim: usize, out_dim: usize, s: Shard, load_bias: bool, mlx: bool) -> bool {
        let packed = if vb.has("weight_packed"@) { "weight_packed"@ } else if vb.has("weight"@) { "weight"@ } else { "blocks"@ };
        let scale = if vb.has("weight_scale"@) { "weight_scale"@ } else { "scales"@ };
        &&& self.repack == mlx
        &&& if mlx {
            &&& self.blocks.reads(vb.spec_path("weight"@), seq![out_dim, in_dim / 8], s, DType::U32)
            &&& self.global_scale is One
            &&& self.input_scale is One
        } else {
            &&& self.blocks.reads(vb.spec_path(packed), seq![out_dim, in_dim / 2], s, DType::U8)
            &&& vb.is_global_scale(self.global_scale)
            &&& vb.is_input_scale(self.input_scale)
        }
        &&& self.scales.reads(vb.spec_path(scale), seq![out_dim, in_dim / 16], s, DType::U8)
        &&& self.bias is Some <==> load_bias && vb.has("bias"@)
        &&& self.bias matches Some(b) ==> b.reads(vb.spec_path("bias"@), seq![out_dim], Shard::whole(), vb.checkpoint.dtype)
    }

    pub fn load(in_dim: usize, out_dim: usize, vb: &VarBuilderX, s: Shard, load_bias: bool) -> (r: Self)
        ensures
            r.is_nvfp4(vb, in_dim, out_dim, s, load_bias, false),
    {
        Self::load_inner(in_dim, out_dim, vb, s, load_bias, false)
    }

    /// As [`LnNvfp4::load`], with weights in the MLX layout.
    pub fn load_mlx(in_dim: usize, out_dim: usize, vb: &VarBuilderX, s: Shard, load_bias: bool) -> (r: Self)
        ensures
            r.is_nvfp4(vb, in_dim, out_dim, s, load_bias, true),
    {
        Self::load_inner(in_dim, out_dim, vb, s, load_bias, true)
    }

    fn load_inner(in_dim: usize, out_dim: usize, vb: &VarBuilderX, s: Shard, load_bias: bool, is_mlx: bool) -> (r: Self)
        ensures
            r.is_nvfp4(vb, in_dim, out_dim, s, load_bias, is_mlx),
    {
        let blocks = if is_mlx {
            vb.read("weight", dims2(out_dim, in_dim / 8), s, DType::U32)
        } else if vb.has_key("weight_packed") {
            vb.read("weight_packed", dims2(out_dim, in_dim / 2), s, DType::U8)
        } else if vb.has_key("weight") {
            vb.read("weight", dims2(out_dim, in_dim / 2), s, DType::U8)
        } else {
            vb.read("blocks", dims2(out_dim, in_dim / 2), s, DType::U8)
        };
        let scale = if vb.has_key("weight_scale") { "weight_scale" } else { "scales" };
        let scales = vb.read(scale, dims2(out_dim, in_dim / 16), s, DType::U8);
        let global_scale = if is_mlx { ScaleSource::One } else { vb.global_scale() };
        let input_scale = if is_mlx { ScaleSource::One } else { vb.input_scale() };
        let bias = if load_bias && vb.has_key("bias") { Some(vb.get("bias", dims1(out_dim))) } else { None };
        LnNvfp4 { blocks, repack: is_mlx, scales, global_scale, input_scale, bias }
    }
}

/// A linear layer in the format that the checkpoint and the configuration
/// ask for.
#[derive(Clone)]
pub enum LinearX {
    Linear(Linear),
    /// A dense layer that is quantized at load time to the named type.
    InSitu { linear: Linear, quant: String },
    /// A layer of a block-quantized file.
    QLinear(QLinear),
    LnFp8(LnFp8),
    /// An FP8 layer, or the dense one where its tensors cannot be read.
    LnFp8OrLinear { fp8: LnFp8, linear: Linear },
    LnMxfp4(LnMxfp4),
    LnNvfp4(LnNvfp4),
    /// A layer of that size with packed low-bit integer weights in the scope.
    Wna16 { scope: String, size: LinearSize },
}

/// What a linear layer is asked to be.
#[derive(Clone, Copy)]
pub struct LinearSize {
    pub in_dim: usize,
    pub out_dim: usize,
    pub shard: Shard,
    pub bias: bool,
    pub dtype: DType,
}

impl LinearX {
    /// Whether this is the dense layer, quantized at load time where `quant`
    /// says so.
    pub open spec fn is_unquantized(&self, vb: &VarBuilderX, size: LinearSize, quant: Option<String>) -> bool {
        match quant {
            None => self matches LinearX::Linear(ln)
                && ln.is_dense(vb, size.in_dim, size.out_dim, size.shard, size.bias, size.dtype),
            Some(q) => self matches LinearX::InSitu { linear, quant }
                && linear.is_dense(vb, size.in_dim, size.out_dim, size.shard, size.bias, size.dtype) && quant@ == q@,
        }
    }

    /// Whether this is the layer of a checkpoint that is quantized as `cfg`
    /// says, unless the module is left alone or has no scales.
    pub open spec fn is_quantized(&self, vb: &VarBuilderX, size: LinearSize, cfg: QuantConfig) -> bool {
        let mlx = cfg.is_mlx_nvfp4;
        if cfg.quant_method@ == "fp8"@ {
            if cfg.skips_fp8(vb.prefix@) || (!fp8_scales_exist(vb) && is_float(vb.checkpoint.dtype)) {
                self.is_unquantized(vb, size, None)
            } else {
                self matches LinearX::LnFp8(ln) && ln.is_fp8(vb, size.in_dim, size.out_dim, size.shard, cfg, size.bias)
            }
        } else if cfg.quant_method@ == "mxfp4"@ {
            if cfg.skips_fp4(vb.prefix@) || !fp4_scales_exist(vb, false) {
                self.is_unquantized(vb, size, None)
            } else {
                self matches LinearX::LnMxfp4(ln) && ln.is_mxfp4(vb, size.in_dim, size.out_dim, size.shard, size.bias)
            }
        } else if cfg.quant_method@ == "nvfp4"@ {
            if cfg.skips_fp4(vb.prefix@) || !fp4_scales_exist(vb, mlx) {
                self.is_unquantized(vb, size, None)
            } else if !mlx && !nvfp4_tensors_exist(vb, false) && fp8_scales_exist(vb) {
                if scale_block(Some(cfg)).len() == 2 {
                    self matches LinearX::LnFp8OrLinear { fp8, linear }
                        && fp8.is_fp8(vb, size.in_dim, size.out_dim, size.shard, cfg, size.bias)
                        && linear.is_dense(vb, size.in_dim, size.out_dim, size.shard, size.bias, size.dtype)
                } else {
                    self.is_unquantized(vb, size, None)
                }
            } else {
                self matches LinearX::LnNvfp4(ln)
                    && ln.is_nvfp4(vb, size.in_dim, size.out_dim, size.shard, size.bias, mlx)
            }
        } else {
            self matches LinearX::Wna16 { scope, size: asked } && scope@ == vb.prefix@ && asked == size
        }
    }

    /// Whether this is the layer that the checkpoint and the configuration
    /// ask for.
    pub open spec fn is_layer(&self, vb: &VarBuilderX, size: LinearSize, cfg: Option<QuantConfig>, quant: Option<String>) -> bool {
        if vb.checkpoint.gguf {
            self matches LinearX::QLinear(ln) && ln.is_stored(vb, size.in_dim, size.out_dim, size.shard, size.dtype)
        } else {
            match cfg {
                Some(c) => self.is_quantized(vb, size, c),
                None => self.is_unquantized(vb, size, quant),
            }
        }
    }
}

impl LinearX {
    /// A dense layer, quantized at load time where `quant` names a type.
    pub fn new(linear: Linear, quant: &Option<String>) -> (r: Self)
        ensures
            match *quant {
                Some(q) => r matches LinearX::InSitu { linear: l, quant: name } && l == linear && name@ == q@,
                None => r == LinearX::Linear(linear),
            },
    {
        match quant {
            Some(q) => LinearX::InSitu { linear, quant: q.clone() },
            None => LinearX::Linear(linear),
        }
    }
}

/// Whether `t` is a floating-point type of at least 16 bits.
pub open spec fn is_float(t: DType) -> bool {
    t == DType::BF16 || t == DType::F16 || t == DType::F32 || t == DType::F64
}

fn unquantized(vb: &VarBuilderX, size: LinearSize, quant: &Option<String>) -> (r: LinearX)
    requires
        size.shard.wf(),
    ensures
        r.is_unquantized(vb, size, *quant),
{
    LinearX::new(linear_b(size.in_dim, size.out_dim, size.bias, vb, size.shard, size.dtype), quant)
}

/// Plans a layer that the configuration says nothing of.
pub(crate) fn plain_layer(vb: &VarBuilderX, size: LinearSize) -> (r: LinearX)
    requires
        size.shard.wf(),
    ensures
        r.is_layer(vb, size, None, None),
{
    if vb.is_qvar_builder() {
        LinearX::QLinear(QLinear::new(size.in_dim, size.out_dim, vb, size.shard, size.dtype))
    } else {
        unquantized(vb, size, &None)
    }
}

/// Whether an FP8 plan of that size is possible where one is asked for.
pub open spec fn plannable(size: LinearSize, gguf: bool, cfg: Option<QuantConfig>) -> bool {
    &&& size.shard.wf()
    &&& cfg matches Some(c) ==> gguf || (c.quant_method@ != "fp8"@ && c.quant_method@ != "nvfp4"@)
        || countable_blocks(c, size.out_dim, size.in_dim)
}

/// Whether a layer of that size can be planned.
pub fn can_plan(size: LinearSize, gguf: bool, cfg: &Option<QuantConfig>) -> (r: bool)
    ensures
        r == plannable(size, gguf, *cfg),
{
    if size.shard.rank >= size.shard.world_size {
        return false;
    }
    let c = match cfg {
        Some(c) => c,
        None => return true,
    };
    let scaled = same(c.quant_method.as_str(), "fp8") || same(c.quant_method.as_str(), "nvfp4");
    if gguf || !scaled {
        return true;
    }
    let block = find_scale_block(cfg);
    if block.len() != 2 {
        return true;
    }
    block[0] > 0 && block[1] > 0 && block[0] <= usize::MAX - size.out_dim && block[1] <= usize::MAX - size.in_dim
}

/// Plans a linear layer. Fails only for an FP8 checkpoint whose block size is
/// not a pair.
pub fn linear_b_x(vb: &VarBuilderX, size: LinearSize, quant_cfg: &Option<QuantConfig>, quant: &Option<String>) -> (r: Result<LinearX, Fp8Error>)
    requires
        plannable(size, vb.checkpoint.gguf, *quant_cfg),
    ensures
        match r {
            Ok(ln) => ln.is_layer(vb, size, *quant_cfg, *quant),
            Err(e) => e == (Fp8Error::BlockSizeLen { len: scale_block(*quant_cfg).len() as usize }),
        },
        r is Err <==> fp8_unplannable(vb, *quant_cfg),
{
    if vb.is_qvar_builder() {
        return Ok(LinearX::QLinear(QLinear::new(size.in_dim, size.out_dim, vb, size.shard, size.dtype)));
    }
    let cfg = match quant_cfg {
        Some(c) => c,
        None => return Ok(unquantized(vb, size, quant)),
    };
    let module = vb.prefix.as_str();
    if same(cfg.quant_method.as_str(), "fp8") {
        if cfg.leaves_fp8(module) {
            return Ok(unquantized(vb, size, &None));
        }
        let dtype = vb.checkpoint.dtype;
        let float = dtype == DType::BF16 || dtype == DType::F16 || dtype == DType::F32 || dtype == DType::F64;
        if !has_fp8_tensors(vb) && float {
            return Ok(unquantized(vb, size, &None));
        }
        return match load_ln_fp8_with_hints(size.in_dim, size.out_dim, vb, size.shard, cfg, size.bias) {
            Ok(ln) => Ok(LinearX::LnFp8(ln)),
            Err(e) => Err(e),
        };
    }
    if same(cfg.quant_method.as_str(), "mxfp4") {
        if cfg.leaves_fp4(module) || !has_fp4_scale_tensors(vb, false) {
            return Ok(unquantized(vb, size, &None));
        }
        return Ok(LinearX::LnMxfp4(LnMxfp4::load(size.in_dim, size.out_dim, vb, size.shard, size.bias)));
    }
    if same(cfg.quant_method.as_str(), "nvfp4") {
        let mlx = cfg.is_mlx_nvfp4;
        if cfg.leaves_fp4(module) || !has_fp4_scale_tensors(vb, mlx) {
            return Ok(unquantized(vb, size, &None));
        }
        if !mlx && !has_nvfp4_specific_tensors(vb, false) && has_fp8_tensors(vb) {
            return match load_ln_fp8_with_hints(size.in_dim, size.out_dim, vb, size.shard, cfg, size.bias) {
                Ok(fp8) => {
                    let ln = linear_b(size.in_dim, size.out_dim, size.bias, vb, size.shard, size.dtype);
                    Ok(LinearX::LnFp8OrLinear { fp8, linear: ln })
                },
                Err(_) => Ok(unquantized(vb, size, &None)),
            };
        }
        let ln = if mlx {
            LnNvfp4::load_mlx(size.in_dim, size.out_dim, vb, size.shard, size.bias)
        } else {
            LnNvfp4::load(size.in_dim, size.out_dim, vb, size.shard, size.bias)
        };
        return Ok(LinearX::LnNvfp4(ln));
    }
    Ok(LinearX::Wna16 { scope: vb.prefix.clone(), size })
}

/// Plans a linear layer with a bias, where the checkpoint has one.
pub fn linear_x(
    in_dim: usize,
    out_dim: usize,
    vb: &VarBuilderX,
    s: Shard,
    quant_cfg: &Option<QuantConfig>,
    quant: &Option<String>,
    dtype: DType,
) -> (r: Result<LinearX, Fp8Error>)
    requires
        plannable((LinearSize { in_dim, out_dim, shard: s, bias: true, dtype }), vb.checkpoint.gguf, *quant_cfg),
    ensures
        match r {
            Ok(ln) => ln.is_layer(vb, (LinearSize { in_dim, out_dim, shard: s, bias: true, dtype }), *quant_cfg, *quant),
            Err(e) => e == (Fp8Error::BlockSizeLen { len: scale_block(*quant_cfg).len() as usize }),
        },
        r is Err <==> fp8_unplannable(vb, *quant_cfg),
{
    linear_b_x(vb, LinearSize { in_dim, out_dim, shard: s, bias: true, dtype }, quant_cfg, quant)
}

/// Plans a linear layer without a bias.
pub fn linear_no_bias_x(
    in_dim: usize,
    out_dim: usize,
    vb: &VarBuilderX,
    s: Shard,
    quant_cfg: &Option<QuantConfig>,
    quant: &Option<String>,
    dtype: DType,
) -> (r: Result<LinearX, Fp8Error>)
    requires
        plannable((LinearSize { in_dim, out_dim, shard: s, bias: false, dtype }), vb.checkpoint.gguf, *quant_cfg),
    ensures
        match r {
            Ok(ln) => ln.is_layer(vb, (LinearSize { in_dim, out_dim, shard: s, bias: false, dtype }), *quant_cfg, *quant),
            Err(e) => e == (Fp8Error::BlockSizeLen { len: scale_block(*quant_cfg).len() as usize }),
        },
        r is Err <==> fp8_unplannable(vb, *quant_cfg),
{
    linear_b_x(vb, LinearSize { in_dim, out_dim, shard: s, bias: false, dtype }, quant_cfg, quant)
}

/// The weights of all experts in one tensor, in the format of the file.
pub enum MergedLinear {
    Linear(Linear),
    /// Quantized at load time to the named type.
    InSitu { linear: Linear, quant: String },
    /// Stored in blocks; [`QLinear::new_fused`] says what a rank keeps of the
    /// weight. The bias is left out where it cannot be read.
    Stored { weight: TensorRead, bias: BiasRead, dtype: DType },
}

/// Whether `m` are the weights of `num_experts` experts of that size.
pub open spec fn merged_layer(
    m: MergedLinear,
    num_experts: usize,
    size: LinearSize,
    vb: &VarBuilderX,
    quant: Option<String>,
) -> bool {
    let shape = seq![num_experts, size.out_dim, size.in_dim];
    let s = Shard { dim: (size.shard.dim + 1) as usize, rank: size.shard.rank, world_size: size.shard.world_size };
    let ck = vb.checkpoint.dtype;
    let path = vb.spec_path("weight"@);
    if vb.checkpoint.gguf {
        m matches MergedLinear::Stored { weight, bias, dtype } && {
            &&& weight.reads(path, shape, Shard::whole(), ck)
            &&& bias.read.reads(vb.spec_path("bias"@), seq![size.out_dim], Shard::whole(), ck)
            &&& bias.keep == bias_span(size.out_dim, size.shard)
            &&& dtype == size.dtype
        }
    } else {
        match quant {
            Some(q) => m matches MergedLinear::InSitu { linear, quant } && quant@ == q@
                && linear.bias is None && linear.dtype == size.dtype && linear.weight.reads(path, shape, s, ck),
            None => m matches MergedLinear::Linear(linear)
                && linear.bias is None && linear.dtype == size.dtype && linear.weight.reads(path, shape, s, ck),
        }
    }
}

pub fn linear_no_bias_merged_x(num_experts: usize, size: LinearSize, vb: &VarBuilderX, quant: &Option<String>) -> (r: MergedLinear)
    requires
        size.shard.dim < usize::MAX,
        size.shard.wf(),
    ensures
        merged_layer(r, num_experts, size, vb, *quant),
{
    if vb.is_qvar_builder() {
        return MergedLinear::Stored {
            weight: vb.get("weight", dims3(num_experts, size.out_dim, size.in_dim)),
            bias: BiasRead { read: vb.get("bias", dims1(size.out_dim)), keep: cut_bias(size.out_dim, size.shard) },
            dtype: size.dtype,
        };
    }
    let linear = linear_no_bias_merged(num_experts, size.in_dim, size.out_dim, vb, size.shard, size.dtype);
    match quant {
        Some(q) => MergedLinear::InSitu { linear, quant: q.clone() },
        None => MergedLinear::Linear(linear),
    }
}

/// Whether the scope asks for an FP8 layer whose block size is not a pair.
pub open spec fn fp8_unplannable(vb: &VarBuilderX, cfg: Option<QuantConfig>) -> bool {
    &&& !vb.checkpoint.gguf
    &&& cfg matches Some(c)
    &&& c.quant_method@ == "fp8"@
    &&& !c.skips_fp8(vb.prefix@)
    &&& fp8_scales_exist(vb) || !is_float(vb.checkpoint.dtype)
    &&& scale_block(cfg).len() != 2
}

/// A flag that is set and then restored is as it was before.
pub proof fn law_prefill_flags_are_restored(before: bool, is_prefill: bool, seen: bool)
    requires
        call_ensures(linear_is_prefill, (&before,), seen),
    ensures
        seen == before,
        forall|f: &mut bool, g: LinearPrefillGuard| *f == before && #[trigger] call_ensures(set_linear_is_prefill, (f, is_prefill), g)
            ==> *final(f) == is_prefill && g.prev == before,
        forall|f: &mut bool, u: ()| #[trigger] call_ensures(LinearPrefillGuard::restore, (LinearPrefillGuard { prev: before }, f), u)
            ==> *final(f) == before,
{
}

/// Ranks keep parts of a bias that follow each other without gaps, all of one
/// length, no longer in all than the bias and short of it by less than one
/// element a rank. A single rank keeps all.
pub proof fn law_bias_parts_follow_each_other(len: usize, a: Shard, b: Shard, first: Option<Span>, next: Option<Span>)
    requires
        a.wf(),
        b.wf(),
        a.world_size == b.world_size,
        b.rank == a.rank + 1,
        call_ensures(cut_bias, (len, a), first),
        call_ensures(cut_bias, (len, b), next),
    ensures
        first matches Some(p) && next matches Some(q) && p.start + p.len == q.start && p.len == q.len,
        first matches Some(p) && p.len * a.world_size <= len < (p.len + 1) * a.world_size,
        a.rank == 0 ==> (first matches Some(p) && p.start == 0),
{
    let (w, n) = (a.world_size as int, len as int / a.world_size as int);
    lemma_fundamental_div_mod(len as int, w);
    lemma_mul_is_commutative(w, n);
    lemma_div_pos_is_pos(len as int, w);
    assert((n + 1) * w == n * w + w) by (nonlinear_arith);
    assert(b.rank * n == a.rank * n + n) by (nonlinear_arith)
        requires
            b.rank == a.rank + 1,
    ;
    lemma_mul_inequality(b.rank as int, w, n);
    lemma_mul_inequality(a.rank as int, w, n);
    lemma_mul_is_commutative(w, n);
    lemma_mul_nonnegative(a.rank as int, n);
    lemma_mul_nonnegative(b.rank as int, n);
    lemma_mul_basics(n);
}

/// Alone, a rank keeps biases whole and stored blocks as they are.
pub proof fn law_alone_nothing_is_cut(len: usize, s: Shard, span: Option<Span>, stored: QuantType, part: QuantPart, fused: Option<QuantPart>)
    requires
        s.wf(),
        s.dim < usize::MAX,
        s.world_size == 1,
        call_ensures(cut_bias, (len, s), span),
        call_ensures(QLinear::part, (stored, len, s), part),
        call_ensures(QLinear::new_fused, (stored, len, s), fused),
    ensures
        span is None,
        part == QuantPart::Stored,
        fused == Some(QuantPart::Stored),
{
}

/// Block-quantized weights are cut like biases along the dimension of the
/// shard, one later for the weights of all experts; they keep their type where
/// parts are whole blocks, and else become eight-bit blocks, for which all
/// experts together have no substitute.
pub proof fn law_blocks_are_cut_like_biases(
    stored: QuantType,
    extent: usize,
    s: Shard,
    span: Option<Span>,
    part: QuantPart,
    fused: Option<QuantPart>,
)
    requires
        s.wf(),
        s.dim < usize::MAX,
        s.world_size > 1,
        call_ensures(cut_bias, (extent, s), span),
        call_ensures(QLinear::part, (stored, extent, s), part),
        call_ensures(QLinear::new_fused, (stored, extent, s), fused),
    ensures
        span is Some,
        part matches QuantPart::Cut { dim, span: cut, to } && dim == s.dim && cut == span->0 && (cut.len as int % stored.block_elems() as int
            == 0 ==> to == stored) && (cut.len as int % stored.block_elems() as int != 0 ==> to == QuantType::Q8_0),
        fused is Some <==> span->0.len as int % stored.block_elems() as int == 0,
        fused matches Some(f) ==> (f matches QuantPart::Cut { dim, span: cut, to } && dim == s.dim + 1 && cut == span->0 && to == stored),
{
    let (w, n) = (s.world_size as int, extent as int / s.world_size as int);
    lemma_fundamental_div_mod(extent as int, w);
    lemma_mul_inequality(s.rank as int, w, n);
    lemma_div_pos_is_pos(extent as int, w);
    lemma_mul_nonnegative(w - 1, n);
    assert(w * n == (w - 1) * n + n) by (nonlinear_arith);
}

/// Inputs keep their elements: sequences of one token are flattened to one row
/// each and the product is shaped back with the rows of the weight last; longer
/// ones share the weight over all dimensions but the last two; all other inputs
/// are multiplied as they are.
pub proof fn law_inputs_keep_their_elements(dims: Vec<usize>, out_dim: usize, r: MatmulPlan, i: int)
    requires
        dims@.len() >= 2 ==> dims@[0] * dims@[1] <= usize::MAX,
        call_ensures(Linear::forward, (&dims, out_dim), r),
    ensures
        r is Direct <==> dims@.len() != 3 && dims@.len() != 4,
        r is Broadcast <==> (dims@.len() == 3 || dims@.len() == 4) && dims@[1] > 1,
        r matches MatmulPlan::Broadcast(left) ==> left@.len() + 2 == dims@.len() && (0 <= i < left@.len() ==> left@[i] == dims@[i]),
        r matches MatmulPlan::Flatten { to, back } ==> {
            &&& to@.len() + 1 == dims@.len() && to@[0] == dims@[0] * dims@[1]
            &&& 1 <= i < to@.len() ==> to@[i] == dims@[i + 1]
            &&& back@.len() == dims@.len() && back@[dims@.len() - 1] == out_dim
            &&& 0 <= i < dims@.len() - 1 ==> back@[i] == dims@[i]
        },
{
}

/// FP8 weights take rows and columns: of three dimensions the first two are
/// taken together, and the product is shaped back where sequences have more
/// than one token. Other inputs are refused.
pub proof fn law_fp8_inputs_are_flattened(dims: Vec<usize>, out_dim: usize, r: Result<Fp8Pass, Fp8Error>)
    requires
        dims@.len() == 3 ==> dims@[0] * dims@[1] <= usize::MAX,
        call_ensures(LnFp8::forward, (&dims, out_dim), r),
    ensures
        r is Ok <==> dims@.len() == 2 || dims@.len() == 3,
        dims@.len() == 2 ==> (r matches Ok(p) && p.flat.0 == dims@[0] && p.flat.1 == dims@[1] && p.back is None),
        dims@.len() == 3 ==> (r matches Ok(p) && p.flat.0 == dims@[0] * dims@[1] && p.flat.1 == dims@[2] && (p.back is Some <==> dims@[1]
            > 1) && (p.back matches Some(b) ==> b.0 == dims@[0] && b.1 == dims@[1] && b.2 == out_dim)),
{
}

/// FP4 weights take rows and columns: inputs of more dimensions are flattened,
/// and the product has the rows of the weight last.
pub proof fn law_fp4_inputs_are_flattened(dims: Vec<usize>, out_dim: usize, mx: Fp4Pass, nv: Fp4Pass, i: int)
    requires
        forall|i: int| 0 <= i < dims@.len() ==> #[trigger] product(dims@.take(i)) <= usize::MAX,
        call_ensures(LnMxfp4::forward, (&dims, out_dim), mx),
        call_ensures(LnNvfp4::forward, (&dims, out_dim), nv),
    ensures
        mx.flat is Some <==> dims@.len() > 2,
        mx.back is Some <==> dims@.len() > 2,
        mx.flat == nv.flat && (mx.back is Some <==> nv.back is Some),
        dims@.len() == 3 ==> (mx.flat->0).0 == dims@[0] * dims@[1] && (mx.flat->0).1 == dims@[2],
        dims@.len() == 4 ==> (mx.flat->0).0 == dims@[0] * dims@[1] * dims@[2] && (mx.flat->0).1 == dims@[3],
        dims@.len() > 2 ==> (mx.flat->0).1 == dims@.last(),
        mx.back matches Some(b) ==> b@.len() == dims@.len() && b@.last() == out_dim && (0 <= i < dims@.len() - 1 ==> b@[i] == dims@[i]),
        nv.back matches Some(b) ==> b@.len() == dims@.len() && b@.last() == out_dim && (0 <= i < dims@.len() - 1 ==> b@[i] == dims@[i]),
{
    reveal_with_fuel(product, 5);
    if dims@.len() > 2 {
        let lead = dims@.drop_last();
        assert(dims@.take(dims@.len() - 1) =~= lead);
        if dims@.len() == 3 {
            assert(lead.drop_last().drop_last() =~= Seq::<usize>::empty());
            assert(lead.drop_last()[0] == dims@[0]);
            lemma_mul_basics(dims@[0] as int);
        }
        if dims@.len() == 4 {
            assert(lead.drop_last().drop_last().drop_last() =~= Seq::<usize>::empty());
            assert(lead.drop_last()[1] == dims@[1]);
            assert(lead.drop_last().drop_last()[0] == dims@[0]);
            lemma_mul_basics(dims@[0] as int);
        }
    }
}

/// Which tensors of a scope tell FP4 and FP8 weights apart.
pub proof fn law_scales_tell_formats_apart(vb: VarBuilderX, mlx: bool, fp4: bool, nvfp4: bool, fp8: bool)
    requires
        call_ensures(has_fp4_scale_tensors, (&vb, mlx), fp4),
        call_ensures(has_nvfp4_specific_tensors, (&vb, mlx), nvfp4),
        call_ensures(has_fp8_tensors, (&vb,), fp8),
    ensures
        mlx ==> (fp4 <==> vb.has("weight"@) && vb.has("scales"@)) && (nvfp4 <==> vb.has("weight"@) && vb.has("scales"@)),
        !mlx && (vb.has("weight_packed"@) || vb.has("blocks"@) || vb.has("weight_scale_2"@) || vb.has("weight_global_scale"@)) ==> fp4
            && nvfp4,
        !mlx && !vb.has("weight_packed"@) && !vb.has("blocks"@) && !vb.has("weight_scale_2"@) && !vb.has("weight_global_scale"@) ==> !nvfp4
            && (fp4 <==> vb.has("weight_scale"@)),
        fp8 <==> vb.has("weight_scale"@) || vb.has("weight_scale_inv"@),
{
}

/// FP8 scales cover their weight, block by block, with none to spare; blocks
/// are of 128 by 128 where the configuration names none. Two names are tried.
/// A block size that is not a pair is refused.
pub proof fn law_fp8_scales_cover_their_weight(
    in_dim: usize,
    out_dim: usize,
    vb: VarBuilderX,
    s: Shard,
    cfg: QuantConfig,
    load_bias: bool,
    r: Result<LnFp8, Fp8Error>,
    c: Result<CastFp8, Fp8Error>,
)
    requires
        s.wf(),
        countable_blocks(cfg, out_dim, in_dim),
        call_ensures(load_ln_fp8_with_hints, (in_dim, out_dim, &vb, s, &cfg, load_bias), r),
        call_ensures(LnFp8::new, (in_dim, out_dim, &vb, s, &cfg), c),
    ensures
        r is Ok <==> cfg.weight_block_size is None || cfg.weight_block_size->0@.len() == 2,
        c is Ok <==> cfg.weight_block_size is None || cfg.weight_block_size->0@.len() == 2,
        r matches Ok(l) ==> {
            &&& cfg.weight_block_size is None ==> l.by == 128 && l.bx == 128
            &&& cfg.weight_block_size matches Some(b) ==> l.by == b@[0] && l.bx == b@[1]
            &&& l.weight.shape@ == seq![out_dim, in_dim] && l.weight.shard == s && l.weight.dtype == DType::U8
            &&& l.weight_scale.tries@.len() == 2
            &&& l.weight_scale.tries@[0].shape@.len() == 2 && l.weight_scale.tries@[0].dtype == DType::F32
            &&& l.weight_scale.tries@[1].shape@ == l.weight_scale.tries@[0].shape@
            &&& covers_once(l.weight_scale.tries@[0].shape@[0] as int, l.by as int, out_dim as int)
            &&& covers_once(l.weight_scale.tries@[0].shape@[1] as int, l.bx as int, in_dim as int)
            &&& l.bias is Some <==> load_bias
            &&& l.bias matches Some(b) ==> b.shape@ == seq![out_dim]
        },
        r matches Ok(l) ==> (c matches Ok(k) ==> k.by == l.by && k.bx == l.bx && k.weight.shape@ == l.weight.shape@
            && k.weight_scale.tries@[0].shape@ == l.weight_scale.tries@[0].shape@ && k.weight.dtype == vb.checkpoint.dtype),
{
    if r is Ok {
        let l = r->Ok_0;
        lemma_covers_once(l.by as int, out_dim as int);
        lemma_covers_once(l.bx as int, in_dim as int);
    }
}

/// Whether `n` blocks of `size` cover `len` elements and one block fewer does
/// not.
pub open spec fn covers_once(n: int, size: int, len: int) -> bool {
    &&& n * size >= len
    &&& (n - 1) * size < len || n == 0
}

proof fn lemma_covers_once(size: int, len: int)
    requires
        size > 0,
        len >= 0,
    ensures
        covers_once(ceil_div(len, size), size, len),
        0 <= ceil_div(len, size) <= len,
{
    let n = ceil_div(len, size);
    lemma_fundamental_div_mod(len + size - 1, size);
    assert(n * size >= len && ((n - 1) * size < len || n == 0) && 0 <= n <= len) by (nonlinear_arith)
        requires
            len + size - 1 == size * n + (len + size - 1) % size,
            0 <= (len + size - 1) % size < size,
            size > 0,
            len >= 0,
    ;
}

/// What was read along a dimension is a part already, or is cut to one; with a
/// single rank nothing is cut. Anything else is refused, as is a third
/// dimension.
pub proof fn law_reads_are_cut_to_parts(
    got: usize,
    s: Shard,
    global: usize,
    r: Result<Option<Span>, Fp8Error>,
    other: usize,
    rows: Result<Option<Span>, Fp8Error>,
    cols: Result<Option<Span>, Fp8Error>,
    far: Result<Option<Span>, Fp8Error>,
    n: int,
)
    requires
        s.wf(),
        call_ensures(normalize_sharded_1d, (got, s, global), r),
        call_ensures(normalize_sharded_2d, ((got, other), (Shard { dim: 0, rank: s.rank, world_size: s.world_size }), (global, other)), rows),
        call_ensures(normalize_sharded_2d, ((other, got), (Shard { dim: 1, rank: s.rank, world_size: s.world_size }), (other, global)), cols),
        call_ensures(normalize_sharded_2d, ((got, got), (Shard { dim: 2, rank: s.rank, world_size: s.world_size }), (global, global)), far),
        n * s.world_size <= global < (n + 1) * s.world_size,
    ensures
        s.world_size == 1 ==> r == Ok::<Option<Span>, Fp8Error>(None),
        s.world_size > 1 && got == n ==> r == Ok::<Option<Span>, Fp8Error>(None),
        s.world_size > 1 && got == global && got != n ==> (r matches Ok(Some(span)) && span.len == n && span.start == s.rank * n
            && span.start + span.len <= got),
        s.world_size > 1 && got != global && got != n ==> r is Err,
        rows == r && cols == r,
        s.world_size > 1 ==> far == Err::<Option<Span>, Fp8Error>(Fp8Error::ShardDim { dim: 2 }),
{
    let w = s.world_size as int;
    assert((n + 1) * w == n * w + w) by (nonlinear_arith);
    lemma_fundamental_div_mod_converse(global as int, w, n, global - n * w);
    lemma_div_pos_is_pos(global as int, w);
    if w > 1 {
        law_normalized_is_a_part(got, global, s);
        lemma_mul_inequality(s.rank as int + 1, w, n);
        lemma_mul_is_commutative(n, w);
        assert((s.rank + 1) * n == s.rank * n + n) by (nonlinear_arith);
        lemma_mul_nonnegative(s.rank as int, n);
    }
}

/// Second layouts of scales begin with the device generation that needs them:
/// a transposed copy with 90, a transposed view and swizzled FP4 scales with
/// 100.
pub proof fn law_scale_layouts_by_generation(sm_version: usize, r: ScaleLayout, swizzles: bool)
    requires
        call_ensures(cutlass_scale_layout, (sm_version,), r),
        call_ensures(swizzles_scales, (sm_version,), swizzles),
    ensures
        r == ScaleLayout::Plain <==> sm_version < 90,
        r == ScaleLayout::TransposedView <==> sm_version >= 100,
        r == ScaleLayout::TransposedCopy <==> 90 <= sm_version < 100,
        swizzles <==> sm_version >= 100,
{
}

/// FP4 weights hold two values a byte, eight a word; MXFP4 scales stand for 32
/// columns, NVFP4 scales for 16. Which tensor holds them depends on which
/// exists, and a bias is read where it is asked for and exists.
pub proof fn law_fp4_weights_and_scales(
    in_dim: usize,
    out_dim: usize,
    vb: VarBuilderX,
    s: Shard,
    load_bias: bool,
    mx: LnMxfp4,
    nv: LnNvfp4,
    mlx: LnNvfp4,
)
    requires
        call_ensures(LnMxfp4::load, (in_dim, out_dim, &vb, s, load_bias), mx),
        call_ensures(LnNvfp4::load, (in_dim, out_dim, &vb, s, load_bias), nv),
        call_ensures(LnNvfp4::load_mlx, (in_dim, out_dim, &vb, s, load_bias), mlx),
    ensures
        mx.blocks.shape@.len() == 2 && mx.blocks.shape@[0] == out_dim && 2 * mx.blocks.shape@[1] <= in_dim < 2 * mx.blocks.shape@[1] + 2,
        mx.scales.shape@.len() == 2 && mx.scales.shape@[0] == out_dim && 32 * mx.scales.shape@[1] <= in_dim < 32 * mx.scales.shape@[1] + 32,
        nv.blocks.shape@ == mx.blocks.shape@ && !nv.repack,
        mlx.blocks.shape@.len() == 2 && mlx.blocks.shape@[0] == out_dim && 8 * mlx.blocks.shape@[1] <= in_dim < 8 * mlx.blocks.shape@[1] + 8,
        mlx.repack && mlx.blocks.dtype == DType::U32 && nv.blocks.dtype == DType::U8 && mx.blocks.dtype == DType::U8,
        nv.scales.shape@.len() == 2 && nv.scales.shape@[0] == out_dim && 16 * nv.scales.shape@[1] <= in_dim < 16 * nv.scales.shape@[1] + 16,
        mlx.scales.shape@ == nv.scales.shape@,
        vb.has("weight_packed"@) ==> mx.blocks.path@ == vb.spec_path("weight_packed"@) && nv.blocks.path@ == vb.spec_path(
            "weight_packed"@,
        ),
        !vb.has("weight_packed"@) ==> mx.blocks.path@ == vb.spec_path("blocks"@),
        !vb.has("weight_packed"@) && vb.has("weight"@) ==> nv.blocks.path@ == vb.spec_path("weight"@),
        !vb.has("weight_packed"@) && !vb.has("weight"@) ==> nv.blocks.path@ == vb.spec_path("blocks"@),
        mlx.blocks.path@ == vb.spec_path("weight"@),
        vb.has("weight_scale"@) ==> mx.scales.path@ == vb.spec_path("weight_scale"@) && nv.scales.path@ == vb.spec_path("weight_scale"@),
        !vb.has("weight_scale"@) ==> mx.scales.path@ == vb.spec_path("scales"@) && nv.scales.path@ == vb.spec_path("scales"@),
        mlx.global_scale is One && mlx.input_scale is One,
        mx.bias is Some <==> load_bias && vb.has("bias"@),
        nv.bias is Some <==> load_bias && vb.has("bias"@),
        mx.blocks.shard == s && nv.blocks.shard == s && mx.scales.shard == s && nv.scales.shard == s,
{
}

/// Which kind a layer is of: stored blocks in block-quantized files; without a
/// configuration of its own dense, or quantized at load time where that is
/// asked for; FP8 unless the module is left alone or a float checkpoint has no
/// scales; FP4 unless left alone or without scales, with FP8 where NVFP4 has
/// only the scales of FP8; packed integers for every other method.
pub proof fn law_format_follows_file_and_configuration(
    vb: VarBuilderX,
    size: LinearSize,
    cfg: Option<QuantConfig>,
    quant: Option<String>,
    r: Result<LinearX, Fp8Error>,
)
    requires
        plannable(size, vb.checkpoint.gguf, cfg),
        call_ensures(linear_b_x, (&vb, size, &cfg, &quant), r),
        r is Ok,
    ensures
        ({
            let ln = r->Ok_0;
            let t = vb.checkpoint.dtype;
            let floats = t == DType::BF16 || t == DType::F16 || t == DType::F32 || t == DType::F64;
            let fp8 = vb.has("weight_scale"@) || vb.has("weight_scale_inv"@);
            let special = vb.has("weight_packed"@) || vb.has("blocks"@) || vb.has("weight_scale_2"@) || vb.has("weight_global_scale"@);
            &&& ln is QLinear <==> vb.checkpoint.gguf
            &&& !vb.checkpoint.gguf && cfg is None ==> (ln is Linear <==> quant is None) && (ln is InSitu <==> quant is Some)
            &&& !vb.checkpoint.gguf ==> (cfg matches Some(c) ==> {
                let method = c.quant_method@;
                &&& method == "fp8"@ ==> (ln is LnFp8 <==> !c.skips_fp8(vb.prefix@) && (fp8 || !floats)) && (ln is LnFp8 || ln is Linear)
                &&& method == "mxfp4"@ ==> (ln is LnMxfp4 <==> !c.skips_fp4(vb.prefix@) && (special || vb.has("weight_scale"@))) && (ln is LnMxfp4
                    || ln is Linear)
                &&& method == "nvfp4"@ && c.is_mlx_nvfp4 ==> (ln is LnNvfp4 <==> !c.skips_fp4(vb.prefix@) && vb.has("weight"@) && vb.has(
                    "scales"@,
                )) && (ln is LnNvfp4 || ln is Linear)
                &&& method == "nvfp4"@ && !c.is_mlx_nvfp4 ==> (ln is LnNvfp4 <==> !c.skips_fp4(vb.prefix@) && special) && (ln is LnNvfp4
                    || ln is Linear || ln is LnFp8OrLinear) && (ln is LnFp8OrLinear ==> !special && vb.has("weight_scale"@))
                &&& method != "fp8"@ && method != "mxfp4"@ && method != "nvfp4"@ ==> (ln matches LinearX::Wna16 { scope, size: asked }
                    && scope@ == vb.prefix@ && asked == size)
            })
        }),
{
    reveal_strlit("fp8");
    reveal_strlit("mxfp4");
    reveal_strlit("nvfp4");
    assert("mxfp4"@[0] != "nvfp4"@[0]);
    assert("fp8"@.len() == 3 && "mxfp4"@.len() == 5 && "nvfp4"@.len() == 5);
}

/// What a dense layer reads: rows of the outputs, columns of the inputs, cut as
/// the shard says; the bias whole, of which a rank keeps what it keeps of the
/// outputs.
pub proof fn law_dense_layers_read_rows_of_outputs(vb: VarBuilderX, size: LinearSize, r: Linear, keep: Option<Span>)
    requires
        size.shard.wf(),
        call_ensures(linear_b, (size.in_dim, size.out_dim, size.bias, &vb, size.shard, size.dtype), r),
        call_ensures(cut_bias, (size.out_dim, size.shard), keep),
    ensures
        r.weight.path@ == vb.spec_path("weight"@) && r.weight.shape@ == seq![size.out_dim, size.in_dim] && r.weight.shard == size.shard,
        r.weight.dtype == vb.checkpoint.dtype && r.dtype == size.dtype,
        r.bias is Some <==> size.bias,
        r.bias matches Some(b) ==> b.read.path@ == vb.spec_path("bias"@) && b.read.shape@ == seq![size.out_dim] && b.keep == keep
            && b.read.shard == Shard::whole(),
{
}

/// The weights of all experts are one tensor, cut one dimension later; quantized
/// at load time where that is asked for, whole where the file stores blocks.
pub proof fn law_experts_in_one_tensor_are_cut_one_dimension_later(
    num_experts: usize,
    size: LinearSize,
    vb: VarBuilderX,
    quant: Option<String>,
    r: MergedLinear,
)
    requires
        size.shard.dim < usize::MAX,
        size.shard.wf(),
        call_ensures(linear_no_bias_merged_x, (num_experts, size, &vb, &quant), r),
    ensures
        r is Stored <==> vb.checkpoint.gguf,
        !vb.checkpoint.gguf ==> (r is InSitu <==> quant is Some),
        r matches MergedLinear::Linear(l) ==> l.weight.shape@ == seq![num_experts, size.out_dim, size.in_dim] && l.weight.shard.dim
            == size.shard.dim + 1 && l.weight.shard.rank == size.shard.rank && l.weight.shard.world_size == size.shard.world_size && l.bias is None,
        r matches MergedLinear::InSitu { linear: l, quant: q } ==> l.weight.shape@ == seq![num_experts, size.out_dim, size.in_dim]
            && l.weight.shard.dim == size.shard.dim + 1 && l.weight.shard.rank == size.shard.rank && q@ == quant->0@,
        r matches MergedLinear::Stored { weight, .. } ==> weight.shape@ == seq![num_experts, size.out_dim, size.in_dim] && weight.shard
            == Shard::whole(),
{
}

} // verus!
