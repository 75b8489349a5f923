//! Norms, embeddings, pooling and convolutions: what they read.

use crate::checkpoint::{dims1, dims2, DType, Fetch, TensorRead, VarBuilderX};
use crate::distributed::Shard;
use crate::text::join;
use vstd::prelude::*;

verus! {

/// A norm over the last dimension.
#[derive(Clone)]
pub struct NormX {
    pub weight: TensorRead,
    /// Shift of a layer norm that has one.
    pub bias: Option<TensorRead>,
    /// Whether the mean is taken out first.
    pub centred: bool,
    /// Whether 1 is added to the weight.
    pub plus_one: bool,
    /// Type that the norm is computed in.
    pub dtype: DType,
}

impl NormX {
    /// Whether this is a root-mean-square norm of `size` elements in the scope.
    pub open spec fn is_rms(&self, vb: &VarBuilderX, size: usize, dtype: DType, is_gemma: bool, s: Shard) -> bool {
        &&& self.weight.reads(
            vb.spec_path("weight"@), seq![size], if vb.checkpoint.gguf { Shard::whole() } else { s }, vb.checkpoint.dtype)
        &&& self.bias is None
        &&& !self.centred
        &&& self.plus_one == is_gemma
        &&& self.dtype == if vb.checkpoint.gguf { DType::F32 } else { dtype }
    }

    /// Whether this is a layer norm of `size` elements in the scope.
    pub open spec fn is_layer_norm(&self, vb: &VarBuilderX, size: usize, affine: bool, dtype: DType) -> bool {
        &&& self.weight.reads(vb.spec_path("weight"@), seq![size], Shard::whole(), vb.checkpoint.dtype)
        &&& self.bias is Some <==> affine
        &&& affine ==> self.bias->0.reads(vb.spec_path("bias"@), seq![size], Shard::whole(), vb.checkpoint.dtype)
        &&& self.centred
        &&& !self.plus_one
        &&& self.dtype == if vb.checkpoint.gguf { DType::F32 } else { dtype }
    }

    /// The type that an input is converted to before the norm, and the output
    /// back from after it.
    pub fn forward(&self, input: DType) -> (r: Option<DType>)
        ensures
            r == if input == self.dtype { None } else { Some(self.dtype) },
    {
        if input != self.dtype { Some(self.dtype) } else { None }
    }
}

pub fn rms_norm(size: usize, vb: &VarBuilderX, dtype: DType, is_gemma: bool) -> (r: NormX)
    ensures
        r.is_rms(vb, size, dtype, is_gemma, Shard::whole()),
{
    rms_norm_sharded(size, vb, dtype, is_gemma, Shard::default())
}

pub fn rms_norm_sharded(size: usize, vb: &VarBuilderX, dtype: DType, is_gemma: bool, shard: Shard) -> (r: NormX)
    ensures
        r.is_rms(vb, size, dtype, is_gemma, shard),
{
    if vb.is_qvar_builder() {
        NormX {
            weight: vb.get("weight", dims1(size)),
            bias: None,
            centred: false,
            plus_one: is_gemma,
            dtype: DType::F32,
        }
    } else {
        NormX {
            weight: vb.get_with_hints("weight", dims1(size), shard),
            bias: None,
            centred: false,
            plus_one: is_gemma,
            dtype,
        }
    }
}

pub fn layer_norm(size: usize, affine: bool, vb: &VarBuilderX, dtype: DType) -> (r: NormX)
    ensures
        r.is_layer_norm(vb, size, affine, dtype),
{
    NormX {
        weight: vb.get("weight", dims1(size)),
        bias: if affine { Some(vb.get("bias", dims1(size))) } else { None },
        centred: true,
        plus_one: false,
        dtype: if vb.is_qvar_builder() { DType::F32 } else { dtype },
    }
}

/// A table of token embeddings.
pub enum Embedding {
    /// Stored as it is used, converted to `dtype`.
    Plain { weight: TensorRead, dtype: DType },
    /// Packed NVFP4 with a scale for each 16 columns, unpacked to `dtype`.
    Packed { weight: TensorRead, scales: TensorRead, dtype: DType },
    /// Block-quantized, unpacked in single precision.
    Stored { weight: TensorRead },
    /// Block-quantized, with as many rows as the file has.
    Unsized { path: String },
}

impl Embedding {
    /// Whether this is the table of `hidden_size` columns in the scope.
    pub open spec fn is_table(&self, vb: &VarBuilderX, vocab_size: Option<usize>, hidden_size: usize, dtype: DType) -> bool {
        if vb.checkpoint.gguf {
            match vocab_size {
                Some(n) => self matches Embedding::Stored { weight }
                    && weight.reads(vb.spec_path("weight"@), seq![n, hidden_size], Shard::whole(), vb.checkpoint.dtype),
                None => self matches Embedding::Unsized { path } && path@ == vb.spec_path("weight"@),
            }
        } else if vb.has("scales"@) {
            self matches Embedding::Packed { weight, scales, dtype: out } && {
                &&& weight.reads(vb.spec_path("weight"@), seq![vocab_size->0, hidden_size / 8], Shard::whole(), DType::U32)
                &&& scales.reads(vb.spec_path("scales"@), seq![vocab_size->0, hidden_size / 16], Shard::whole(), DType::U8)
                &&& out == if dtype == DType::F16 { DType::F16 } else { DType::BF16 }
            }
        } else {
            self matches Embedding::Plain { weight, dtype: out } && {
                &&& weight.reads(vb.spec_path("weight"@), seq![vocab_size->0, hidden_size], Shard::whole(), vb.checkpoint.dtype)
                &&& out == dtype
            }
        }
    }

    /// The number of tokens, from the configuration or the rows of the table.
    pub fn vocab_size(declared: Option<usize>, rows: usize) -> (r: usize)
        ensures
            r == match declared {
                Some(n) => n,
                None => rows,
            },
    {
        match declared {
            Some(n) => n,
            None => rows,
        }
    }
}

pub fn embedding(vocab_size: Option<usize>, hidden_size: usize, vb: &VarBuilderX, dtype: DType) -> (r: Embedding)
    requires
        !vb.checkpoint.gguf ==> vocab_size is Some,
    ensures
        r.is_table(vb, vocab_size, hidden_size, dtype),
{
    match vocab_size {
        Some(n) => if vb.is_qvar_builder() {
            Embedding::Stored { weight: vb.get("weight", dims2(n, hidden_size)) }
        } else if vb.has_key("scales") {
            dequantize_mlx_nvfp4_embedding(vb, n, hidden_size, dtype)
        } else {
            Embedding::Plain { weight: vb.get("weight", dims2(n, hidden_size)), dtype }
        },
        None => Embedding::Unsized { path: join(vb.prefix.as_str(), "weight") },
    }
}

fn dequantize_mlx_nvfp4_embedding(vb: &VarBuilderX, vocab_size: usize, hidden_size: usize, dtype: DType) -> (r: Embedding)
    requires
        !vb.checkpoint.gguf,
        vb.has("scales"@),
    ensures
        r.is_table(vb, Some(vocab_size), hidden_size, dtype),
{
    Embedding::Packed {
        weight: vb.read("weight", dims2(vocab_size, hidden_size / 8), Shard::default(), DType::U32),
        scales: vb.read("scales", dims2(vocab_size, hidden_size / 16), Shard::default(), DType::U8),
        dtype: if dtype == DType::F16 { DType::F16 } else { DType::BF16 },
    }
}

/// How a two-dimensional convolution moves over its input.
#[derive(Clone, Copy, Debug, PartialEq, Eq, Structural)]
pub struct Conv2dConfig {
    pub padding: usize,
    pub stride: usize,
    pub dilation: usize,
    pub groups: usize,
}

/// A two-dimensional convolution.
pub struct Conv2d {
    pub weight: TensorRead,
    pub bias: Option<TensorRead>,
    pub cfg: Conv2dConfig,
}

fn dims4(a: usize, b: usize, c: usize, d: usize) -> (r: Vec<usize>)
    ensures
        r@ == seq![a, b, c, d],
{
    let mut v = dims2(a, b);
    v.push(c);
    v.push(d);
    assert(v@ =~= seq![a, b, c, d]);
    v
}

/// The shape with these five dimensions.
pub open spec fn shape5(a: usize, b: usize, c: usize, d: usize, e: usize) -> Seq<usize> {
    Seq::empty().push(a).push(b).push(c).push(d).push(e)
}

fn dims5(a: usize, b: usize, c: usize, d: usize, e: usize) -> (r: Vec<usize>)
    ensures
        r@ == shape5(a, b, c, d, e),
{
    let mut v: Vec<usize> = Vec::new();
    v.push(a);
    v.push(b);
    v.push(c);
    v.push(d);
    v.push(e);
    v
}

pub fn conv2d(
    in_channels: usize,
    out_channels: usize,
    kernel_size: usize,
    cfg: Conv2dConfig,
    vb: &VarBuilderX,
    bias: bool,
) -> (r: Conv2d)
    requires
        cfg.groups > 0,
        !vb.checkpoint.gguf,
    ensures
        r.weight.reads(
            vb.spec_path("weight"@),
            seq![out_channels, (in_channels / cfg.groups), kernel_size, kernel_size],
            Shard::whole(),
            vb.checkpoint.dtype,
        ),
        r.bias is Some <==> bias,
        bias ==> r.bias->0.reads(vb.spec_path("bias"@), seq![out_channels], Shard::whole(), vb.checkpoint.dtype),
        r.cfg == cfg,
{
    Conv2d {
        weight: vb.get("weight", dims4(out_channels, in_channels / cfg.groups, kernel_size, kernel_size)),
        bias: if bias { Some(vb.get("bias", dims1(out_channels))) } else { None },
        cfg,
    }
}

/// Averages over squares of the input.
pub struct AvgPool2d {
    pub kernel_size: usize,
    pub stride: usize,
}

impl AvgPool2d {
    pub fn new(kernel_size: usize, stride: usize) -> (r: Self)
        ensures
            r.kernel_size == kernel_size,
            r.stride == stride,
    {
        AvgPool2d { kernel_size, stride }
    }
}

/// How a three-dimensional convolution moves over its input.
#[derive(Clone, Copy, Debug, PartialEq, Eq, Structural)]
pub struct Conv3dConfig {
    pub padding: usize,
    pub stride: usize,
    pub dilation: usize,
    pub groups: usize,
}

impl Default for Conv3dConfig {
    fn default() -> (r: Self)
        ensures
            r.padding == 0,
            r.stride == 1,
            r.dilation == 1,
            r.groups == 1,
    {
        Conv3dConfig { padding: 0, stride: 1, dilation: 1, groups: 1 }
    }
}

/// A convolution over two frames, done as one convolution for each frame.
pub struct Conv3dNoBias {
    /// The weight, channels before or, in the second try, after the kernel.
    pub weight: Fetch,
    /// Order of the dimensions of what the second try reads.
    pub second_order: [usize; 5],
    pub cfg: Conv2dConfig,
}

impl Conv3dNoBias {
    pub fn new(
        in_channels: usize,
        out_channels: usize,
        kernel_sizes: [usize; 3],
        cfg: Conv3dConfig,
        vb: &VarBuilderX,
    ) -> (r: Self)
        requires
            cfg.groups > 0,
            !vb.checkpoint.gguf,
        ensures
            r.weight.tries@.len() == 2,
            r.weight.tries@[0].reads(
                vb.spec_path("weight"@),
                shape5(out_channels, in_channels / cfg.groups, kernel_sizes@[0], kernel_sizes@[1], kernel_sizes@[2]),
                Shard::whole(),
                vb.checkpoint.dtype,
            ),
            r.weight.tries@[1].reads(
                vb.spec_path("weight"@),
                shape5(out_channels, kernel_sizes@[0], kernel_sizes@[1], kernel_sizes@[2], in_channels / cfg.groups),
                Shard::whole(),
                vb.checkpoint.dtype,
            ),
            r.second_order@ == shape5(0, 4, 1, 2, 3),
            r.cfg == (Conv2dConfig {
                padding: cfg.padding,
                stride: cfg.stride,
                dilation: cfg.dilation,
                groups: cfg.groups,
            }),
    {
        let (t, h, w) = (kernel_sizes[0], kernel_sizes[1], kernel_sizes[2]);
        let c: usize = in_channels / cfg.groups;
        let second_order: [usize; 5] = [0, 4, 1, 2, 3];
        assert(second_order@ =~= shape5(0, 4, 1, 2, 3));
        Conv3dNoBias {
            weight: Fetch::two(
                vb.get("weight", dims5(out_channels, c, t, h, w)),
                vb.get("weight", dims5(out_channels, t, h, w, c)),
            ),
            second_order,
            cfg: Conv2dConfig { padding: cfg.padding, stride: cfg.stride, dilation: cfg.dilation, groups: cfg.groups },
        }
    }
}

/// The shape of `dims` with its dimensions in the order `order`.
pub open spec fn permuted(dims: Seq<usize>, order: Seq<usize>) -> Seq<usize> {
    Seq::new(order.len(), |i: int| dims[order[i] as int])
}

/// Whichever try of a two-frame convolution succeeds, the weight ends up with
/// the same shape.
pub proof fn law_conv3d_layouts_agree(
    c: Conv3dNoBias,
    in_channels: usize,
    out_channels: usize,
    kernel_sizes: [usize; 3],
    cfg: Conv3dConfig,
)
    requires
        cfg.groups > 0,
        c.weight.tries@.len() == 2,
        c.weight.tries@[0].shape@ == shape5(out_channels, in_channels / cfg.groups, kernel_sizes@[0], kernel_sizes@[1], kernel_sizes@[2]),
        c.weight.tries@[1].shape@ == shape5(out_channels, kernel_sizes@[0], kernel_sizes@[1], kernel_sizes@[2], in_channels / cfg.groups),
        c.second_order@ == shape5(0, 4, 1, 2, 3),
    ensures
        permuted(c.weight.tries@[1].shape@, c.second_order@) == c.weight.tries@[0].shape@,
{
    let (o, dims) = (c.second_order@, c.weight.tries@[1].shape@);
    assert(o[0] == 0 && o[1] == 4 && o[2] == 1 && o[3] == 2 && o[4] == 3);
    assert forall|i: int| 0 <= i < 5 implies permuted(dims, o)[i] == c.weight.tries@[0].shape@[i] by {
        assert(i == 0 || i == 1 || i == 2 || i == 3 || i == 4);
    }
    assert(permuted(dims, o) =~= c.weight.tries@[0].shape@);
}

/// Norms read one value for each element, whole in block-quantized files and
/// else as the shard says, and are computed in single precision in the former;
/// only layer norms take the mean out and may have a shift.
pub proof fn law_norms_read_their_weights(
    size: usize,
    vb: VarBuilderX,
    dtype: DType,
    gemma: bool,
    affine: bool,
    s: Shard,
    a: NormX,
    b: NormX,
    l: NormX,
    t: DType,
    cast: Option<DType>,
)
    requires
        call_ensures(rms_norm, (size, &vb, dtype, gemma), a),
        call_ensures(rms_norm_sharded, (size, &vb, dtype, gemma, s), b),
        call_ensures(layer_norm, (size, affine, &vb, dtype), l),
        call_ensures(NormX::forward, (&a, t), cast),
    ensures
        a.weight.path@ == vb.spec_path("weight"@) && b.weight.path@ == a.weight.path@ && l.weight.path@ == a.weight.path@,
        a.weight.shape@ == seq![size] && b.weight.shape@ == seq![size] && l.weight.shape@ == seq![size],
        a.weight.shard == Shard::whole(),
        vb.checkpoint.gguf ==> b.weight.shard == Shard::whole() && a.dtype == DType::F32 && b.dtype == DType::F32 && l.dtype == DType::F32,
        !vb.checkpoint.gguf ==> b.weight.shard == s && a.dtype == dtype && b.dtype == dtype && l.dtype == dtype,
        a.plus_one == gemma && b.plus_one == gemma && !l.plus_one,
        !a.centred && !b.centred && l.centred,
        a.bias is None && b.bias is None && (l.bias is Some <==> affine),
        l.bias matches Some(x) ==> x.path@ == vb.spec_path("bias"@) && x.shape@ == seq![size],
        cast is Some <==> t != a.dtype,
        cast matches Some(x) ==> x == a.dtype,
{
}

/// A table of embeddings: stored blocks in block-quantized files, with as many
/// rows as asked for or as the file has; packed words with a scale for 16
/// columns where the scope has scales, unpacked to half precision; else plain.
pub proof fn law_tables_of_embeddings(vocab: Option<usize>, hidden: usize, vb: VarBuilderX, dtype: DType, r: Embedding, rows: usize, n: usize)
    requires
        !vb.checkpoint.gguf ==> vocab is Some,
        call_ensures(embedding, (vocab, hidden, &vb, dtype), r),
        call_ensures(Embedding::vocab_size, (vocab, rows), n),
    ensures
        vocab matches Some(v) ==> n == v,
        vocab is None ==> n == rows,
        r is Stored <==> vb.checkpoint.gguf && vocab is Some,
        r is Unsized <==> vb.checkpoint.gguf && vocab is None,
        r is Packed <==> !vb.checkpoint.gguf && vb.has("scales"@),
        r is Plain <==> !vb.checkpoint.gguf && !vb.has("scales"@),
        r matches Embedding::Stored { weight } ==> weight.shape@ == seq![vocab->0, hidden],
        r matches Embedding::Unsized { path } ==> path@ == vb.spec_path("weight"@),
        r matches Embedding::Plain { weight, dtype: t } ==> weight.shape@ == seq![vocab->0, hidden] && t == dtype,
        r matches Embedding::Packed { weight, scales, dtype: t } ==> {
            &&& weight.shape@.len() == 2 && weight.shape@[0] == vocab->0 && 8 * weight.shape@[1] <= hidden < 8 * weight.shape@[1] + 8
            &&& scales.shape@.len() == 2 && scales.shape@[0] == vocab->0 && 16 * scales.shape@[1] <= hidden < 16 * scales.shape@[1] + 16
            &&& weight.dtype == DType::U32 && scales.dtype == DType::U8
            &&& dtype == DType::F16 ==> t == DType::F16
            &&& dtype != DType::F16 ==> t == DType::BF16
        },
{
}

/// Convolutions over images: square kernels over the channels of a group.
pub proof fn law_image_convolutions(
    channels: usize,
    out: usize,
    kernel: usize,
    cfg: Conv2dConfig,
    vb: VarBuilderX,
    bias: bool,
    r: Conv2d,
    k: usize,
    s: usize,
    pool: AvgPool2d,
)
    requires
        cfg.groups > 0,
        !vb.checkpoint.gguf,
        call_ensures(conv2d, (channels, out, kernel, cfg, &vb, bias), r),
        call_ensures(AvgPool2d::new, (k, s), pool),
    ensures
        r.weight.shape@.len() == 4 && r.weight.shape@[0] == out && r.weight.shape@[2] == kernel && r.weight.shape@[3] == kernel,
        r.weight.shape@[1] * cfg.groups <= channels < (r.weight.shape@[1] + 1) * cfg.groups,
        r.bias is Some <==> bias,
        r.bias matches Some(b) ==> b.shape@ == seq![out],
        r.cfg == cfg,
        pool.kernel_size == k && pool.stride == s,
{
    let (c, g) = (channels as int, cfg.groups as int);
    let q = c / g;
    vstd::arithmetic::div_mod::lemma_fundamental_div_mod(c, g);
    vstd::arithmetic::mul::lemma_mul_is_commutative(g, q);
    assert((q + 1) * g == q * g + g) by (nonlinear_arith);
}

/// Convolutions over two frames try channels before the kernel, then after it;
/// reordered, what the second try reads has the shape of the first.
pub proof fn law_frame_convolutions(channels: usize, out: usize, k: [usize; 3], cfg: Conv3dConfig, vb: VarBuilderX, r: Conv3dNoBias, i: int)
    requires
        cfg.groups > 0,
        !vb.checkpoint.gguf,
        call_ensures(Conv3dNoBias::new, (channels, out, k, cfg, &vb), r),
        0 <= i < 5,
    ensures
        r.weight.tries@.len() == 2,
        r.weight.tries@[0].shape@.len() == 5 && r.weight.tries@[1].shape@.len() == 5 && r.second_order@.len() == 5,
        r.weight.tries@[0].shape@[0] == out && r.weight.tries@[0].shape@[2] == k@[0] && r.weight.tries@[0].shape@[3] == k@[1]
            && r.weight.tries@[0].shape@[4] == k@[2],
        r.weight.tries@[0].shape@[1] == channels / cfg.groups,
        r.weight.tries@[1].shape@[r.second_order@[i] as int] == r.weight.tries@[0].shape@[i],
        r.weight.tries@[1].shape@[4] == channels / cfg.groups,
        r.cfg.padding == cfg.padding && r.cfg.stride == cfg.stride && r.cfg.dilation == cfg.dilation && r.cfg.groups == cfg.groups,
{
    assert(i == 0 || i == 1 || i == 2 || i == 3 || i == 4);
}

} // verus!
