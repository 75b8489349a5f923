//! Attention layers: which projections and norms are read, and how a forward
//! pass is laid out.

use crate::checkpoint::{dims1, dims2, DType, Fetch, TensorRead, VarBuilderX};
use crate::config::{method_is, Config, HeadSize, QuantConfig};
use crate::distributed::{kv_head_shard, kv_head_shard_of, shard, Comm, KvShardError, Shard, Span};
use crate::json::text_view;
use crate::linear::{can_plan, fp8_scale_shape, fp8_scales_exist, fp8_unplannable, has_fp8_tensors, plannable, Fp8Error, LinearSize};
use crate::math::div_ceil;
use crate::others::{rms_norm, rms_norm_sharded, NormX};
use crate::parallel::{
    fp8_refusal, full_size, row_size, ReplicatedLinear, TensorParallelColumnLinear, TensorParallelRowLinear,
};
use crate::text::same;
use vstd::arithmetic::div_mod::*;
use vstd::arithmetic::mul::*;
use vstd::prelude::*;

verus! {

/// Why an attention layer cannot be planned or run.
#[derive(Debug, Clone, Copy, PartialEq, Eq, Structural)]
pub enum AttentionError {
    KvHeads(KvShardError),
    /// An FP8 checkpoint gives no block size.
    NoBlockSize,
    Fp8(Fp8Error),
    /// A dense weight cannot be read.
    Unread,
    /// A packed projection has not three outputs.
    Outputs { got: usize },
    /// The query projection of a gated layer has the wrong width.
    QueryWidth { expected: usize, got: usize },
}

/// The projections and norms of an attention layer.
#[derive(Debug, Clone, Copy, PartialEq, Eq, Structural)]
pub enum AttnPart {
    Q,
    K,
    V,
    O,
    QNorm,
    KNorm,
}

/// The name of a part in a checkpoint.
pub open spec fn part_name(gguf: bool, part: AttnPart) -> Seq<char> {
    match part {
        AttnPart::Q => if gguf { "attn_q"@ } else { "q_proj"@ },
        AttnPart::K => if gguf { "attn_k"@ } else { "k_proj"@ },
        AttnPart::V => if gguf { "attn_v"@ } else { "v_proj"@ },
        AttnPart::O => if gguf { "attn_output"@ } else { "o_proj"@ },
        AttnPart::QNorm => if gguf { "attn_q_norm"@ } else { "q_norm"@ },
        AttnPart::KNorm => if gguf { "attn_k_norm"@ } else { "k_norm"@ },
    }
}

pub fn name_of_part(gguf: bool, part: AttnPart) -> (r: &'static str)
    ensures
        r@ == part_name(gguf, part),
{
    match part {
        AttnPart::Q => if gguf { "attn_q" } else { "q_proj" },
        AttnPart::K => if gguf { "attn_k" } else { "k_proj" },
        AttnPart::V => if gguf { "attn_v" } else { "v_proj" },
        AttnPart::O => if gguf { "attn_output" } else { "o_proj" },
        AttnPart::QNorm => if gguf { "attn_q_norm" } else { "q_norm" },
        AttnPart::KNorm => if gguf { "attn_k_norm" } else { "k_norm" },
    }
}

/// Whether the architecture is of the Qwen 3.5 or Qwen 3 Next family.
pub open spec fn is_qwen35_or_next(arch: Seq<char>) -> bool {
    arch == "Qwen3_5ForCausalLM"@ || arch == "Qwen3_5ForConditionalGeneration"@ || arch == "Qwen3_5MoeForCausalLM"@
        || arch == "Qwen3_5MoeForConditionalGeneration"@ || arch == "Qwen3NextForCausalLM"@
        || arch == "Qwen3NextForConditionalGeneration"@
}

fn qwen35_or_next(arch: &str) -> (r: bool)
    ensures
        r == is_qwen35_or_next(arch@),
{
    same(arch, "Qwen3_5ForCausalLM") || same(arch, "Qwen3_5ForConditionalGeneration") || same(arch, "Qwen3_5MoeForCausalLM")
        || same(arch, "Qwen3_5MoeForConditionalGeneration") || same(arch, "Qwen3NextForCausalLM")
        || same(arch, "Qwen3NextForConditionalGeneration")
}

/// Whether the architecture is of the Gemma 3 family.
pub open spec fn is_gemma3(arch: Seq<char>) -> bool {
    arch == "Gemma3ForConditionalGeneration"@ || arch == "Gemma3ForCausalLM"@
}

/// Whether the architecture is of the Gemma 4 family.
pub open spec fn is_gemma4(arch: Seq<char>) -> bool {
    arch == "Gemma4ForConditionalGeneration"@ || arch == "Gemma4ForCausalLM"@
}

/// Whether norms of queries and keys see all heads at once.
pub open spec fn norms_whole_heads(arch: Seq<char>) -> bool {
    is_gemma3(arch) || is_gemma4(arch) || is_qwen35_or_next(arch) || arch == "Qwen3VLForConditionalGeneration"@
        || arch == "Qwen3VLMoeForConditionalGeneration"@ || arch == "MiniMaxM2ForCausalLM"@
}

/// What a configuration says of its attention layers.
#[derive(Debug, Clone, Copy, PartialEq, Eq, Structural)]
pub struct AttnShape {
    pub head_dim: usize,
    pub bias: bool,
    pub output_gate: bool,
    /// Width of the query projection, twice as wide with an output gate.
    pub q_out_dim: usize,
    pub kv_out_dim: usize,
    /// Width of all heads together.
    pub width: usize,
    /// Whether 1 is added to the weights of the query and key norms.
    pub norm_plus_one: bool,
    pub no_per_head_norm: bool,
    pub norm_values: bool,
}

/// An optional truth value, or a second one, or a default.
pub open spec fn flag(first: Option<bool>, second: Option<bool>, default: bool) -> bool {
    match first {
        Some(b) => b,
        None => match second {
            Some(b) => b,
            None => default,
        },
    }
}

fn pick_flag(first: Option<bool>, second: Option<bool>, default: bool) -> (r: bool)
    ensures
        r == flag(first, second, default),
{
    match first {
        Some(b) => b,
        None => match second {
            Some(b) => b,
            None => default,
        },
    }
}

impl AttnShape {
    /// The width of a head: as configured, else an equal part of the hidden
    /// size.
    pub open spec fn head_dim_of(cfg: Config, hs: HeadSize) -> int {
        match hs.head_dim {
            Some(d) => d as int,
            None => cfg.hidden_size as int / cfg.num_attention_heads as int,
        }
    }

    /// Sizes that fit the machine.
    pub open spec fn fits(cfg: Config, hs: HeadSize) -> bool {
        &&& hs.head_dim is Some || cfg.num_attention_heads > 0
        &&& 2 * (cfg.num_attention_heads * Self::head_dim_of(cfg, hs)) + 2 * (hs.num_kv_heads * Self::head_dim_of(cfg, hs))
            <= usize::MAX
    }

    /// What `cfg` says of its attention layers, for a file of that format.
    pub open spec fn of(cfg: Config, hs: HeadSize, gguf: bool) -> Self {
        let next = is_qwen35_or_next(cfg.arch());
        let head_dim = Self::head_dim_of(cfg, hs);
        let width = cfg.num_attention_heads * head_dim;
        let gate = flag(cfg.attn_output_gate, None, next);
        AttnShape {
            head_dim: head_dim as usize,
            bias: flag(cfg.qkv_bias, cfg.attention_bias, !next),
            output_gate: gate,
            q_out_dim: if gate { (2 * width) as usize } else { width as usize },
            kv_out_dim: (hs.num_kv_heads * head_dim) as usize,
            width: width as usize,
            norm_plus_one: is_gemma3(cfg.arch()) || (next && !gguf && !crate::config::mlx_layout(cfg.quantization_config)),
            no_per_head_norm: norms_whole_heads(cfg.arch()),
            norm_values: is_gemma4(cfg.arch()),
        }
    }

    /// Whether the sizes fit the machine.
    pub fn sizes_fit(cfg: &Config, hs: HeadSize) -> (r: bool)
        ensures
            r == Self::fits(*cfg, hs),
    {
        let head_dim: usize = match hs.head_dim {
            Some(d) => d,
            None => {
                if cfg.num_attention_heads == 0 {
                    return false;
                }
                cfg.hidden_size / cfg.num_attention_heads
            },
        };
        proof {
            assert(0 <= cfg.num_attention_heads * head_dim) by (nonlinear_arith);
            assert(0 <= hs.num_kv_heads * head_dim) by (nonlinear_arith);
        }
        match (cfg.num_attention_heads.checked_mul(head_dim), hs.num_kv_heads.checked_mul(head_dim)) {
            (Some(a), Some(b)) => match a.checked_add(b) {
                Some(sum) => sum <= usize::MAX / 2,
                None => false,
            },
            _ => false,
        }
    }

    pub fn of_config(cfg: &Config, hs: HeadSize, gguf: bool) -> (r: Self)
        requires
            Self::fits(*cfg, hs),
        ensures
            r == Self::of(*cfg, hs, gguf),
    {
        let arch = cfg.first_arch();
        let a = arch.as_str();
        let next = qwen35_or_next(a);
        let gemma3 = same(a, "Gemma3ForConditionalGeneration") || same(a, "Gemma3ForCausalLM");
        let gemma4 = same(a, "Gemma4ForConditionalGeneration") || same(a, "Gemma4ForCausalLM");
        let whole = gemma3 || gemma4 || next || same(a, "Qwen3VLForConditionalGeneration")
            || same(a, "Qwen3VLMoeForConditionalGeneration") || same(a, "MiniMaxM2ForCausalLM");
        let head_dim: usize = match hs.head_dim {
            Some(d) => d,
            None => cfg.hidden_size / cfg.num_attention_heads,
        };
        proof {
            assert(0 <= cfg.num_attention_heads * Self::head_dim_of(*cfg, hs)) by (nonlinear_arith)
                requires
                    head_dim == Self::head_dim_of(*cfg, hs),
            ;
            assert(0 <= hs.num_kv_heads * Self::head_dim_of(*cfg, hs)) by (nonlinear_arith)
                requires
                    head_dim == Self::head_dim_of(*cfg, hs),
            ;
        }
        let width: usize = cfg.num_attention_heads * head_dim;
        let gate = pick_flag(cfg.attn_output_gate, None, next);
        let mlx = crate::config::uses_mlx_layout(&cfg.quantization_config);
        AttnShape {
            head_dim,
            bias: pick_flag(cfg.qkv_bias, cfg.attention_bias, !next),
            output_gate: gate,
            q_out_dim: if gate { 2 * width } else { width },
            kv_out_dim: hs.num_kv_heads * head_dim,
            width,
            norm_plus_one: gemma3 || (next && !gguf && !mlx),
            no_per_head_norm: whole,
            norm_values: gemma4,
        }
    }
}

/// One of the projections that are packed together.
#[derive(Clone)]
pub struct PackedPart {
    pub weight: TensorRead,
    /// Scales of an FP8 weight.
    pub scale: Option<Fetch>,
    /// A bias that is looked for.
    pub bias: Option<TensorRead>,
    /// Element type that the bias is brought to.
    pub bias_dtype: DType,
    /// Outputs that the rank holds.
    pub rows: usize,
}

/// Queries, keys and values in one matrix.
#[derive(Clone)]
pub struct PackedQkv {
    pub q: PackedPart,
    pub k: PackedPart,
    pub v: PackedPart,
    /// Rows and columns that share an FP8 scale.
    pub block: Option<(usize, usize)>,
    /// Whether every part starts at a block of the packed matrix.
    pub aligned: bool,
}

/// The part of `out_dim` outputs that a shard is.
pub open spec fn part_rows(out_dim: usize, s: Shard) -> int {
    out_dim as int / s.world_size as int
}

impl PackedPart {
    /// Whether this reads the projection in the scope.
    pub open spec fn is_part(
        &self,
        vb: &VarBuilderX,
        out_dim: usize,
        in_dim: usize,
        s: Shard,
        block: Option<(usize, usize)>,
        bias: bool,
        dtype: DType,
    ) -> bool {
        &&& match block {
            Some(b) => {
                let scales = fp8_scale_shape(out_dim, in_dim, b.0, b.1);
                &&& self.weight.reads(vb.spec_path("weight"@), seq![out_dim, in_dim], s, DType::U8)
                &&& self.scale matches Some(f)
                &&& f.tries@.len() == 2
                &&& f.tries@[0].reads(vb.spec_path("weight_scale"@), scales, s, DType::F32)
                &&& f.tries@[1].reads(vb.spec_path("weight_scale_inv"@), scales, s, DType::F32)
            },
            None => {
                &&& self.weight.reads(vb.spec_path("weight"@), seq![out_dim, in_dim], s, dtype)
                &&& self.scale is None
            },
        }
        &&& self.bias is Some <==> bias
        &&& bias ==> self.bias->0.reads(vb.spec_path("bias"@), seq![out_dim], s, DType::F32)
        &&& self.bias_dtype == dtype
        &&& self.rows == part_rows(out_dim, s)
    }

    pub(crate) fn read(
        vb: &VarBuilderX,
        name: &str,
        out_dim: usize,
        in_dim: usize,
        s: Shard,
        block: Option<(usize, usize)>,
        bias: bool,
        dtype: DType,
    ) -> (r: Self)
        requires
            s.world_size > 0,
            block matches Some(b) ==> 0 < b.0 && 0 < b.1 && out_dim + b.0 <= usize::MAX && in_dim + b.1 <= usize::MAX,
        ensures
            r.is_part(&vb.child(name@), out_dim, in_dim, s, block, bias, dtype),
    {
        let p = vb.pp(name);
        let (weight, scale) = match block {
            Some(b) => {
                let (rows, cols) = (div_ceil(out_dim, b.0), div_ceil(in_dim, b.1));
                let scale = Fetch::two(
                    p.read("weight_scale", dims2(rows, cols), s, DType::F32),
                    p.read("weight_scale_inv", dims2(rows, cols), s, DType::F32),
                );
                (p.read("weight", dims2(out_dim, in_dim), s, DType::U8), Some(scale))
            },
            None => (p.read("weight", dims2(out_dim, in_dim), s, dtype), None),
        };
        PackedPart {
            weight,
            scale,
            bias: if bias { Some(p.read("bias", dims1(out_dim), s, DType::F32)) } else { None },
            bias_dtype: dtype,
            rows: out_dim / s.world_size,
        }
    }
}

/// The sizes of the projections of one rank.
#[derive(Clone, Copy)]
pub struct QkvSize {
    pub hidden_size: usize,
    pub q_out_dim: usize,
    pub kv_out_dim: usize,
    pub q_shard: Shard,
    pub kv_shard: Shard,
    pub bias: bool,
    pub dtype: DType,
}

impl QkvSize {
    pub open spec fn q(self) -> LinearSize {
        LinearSize {
            in_dim: self.hidden_size,
            out_dim: self.q_out_dim,
            shard: self.q_shard,
            bias: self.bias,
            dtype: self.dtype,
        }
    }

    pub open spec fn kv(self) -> LinearSize {
        LinearSize {
            in_dim: self.hidden_size,
            out_dim: self.kv_out_dim,
            shard: self.kv_shard,
            bias: self.bias,
            dtype: self.dtype,
        }
    }

    /// Sizes and shards that can be planned.
    pub open spec fn wf(self, gguf: bool, cfg: Option<QuantConfig>) -> bool {
        &&& self.q_out_dim + 2 * self.kv_out_dim <= usize::MAX
        &&& self.q_shard.rank < self.q_shard.world_size
        &&& self.kv_shard.rank < self.kv_shard.world_size
        &&& plannable(self.q(), gguf, cfg)
        &&& plannable(self.kv(), gguf, cfg)
    }

    /// Where the parts of the rank start in the packed matrix.
    pub open spec fn starts(self) -> (int, int, int) {
        (
            self.q_shard.rank * part_rows(self.q_out_dim, self.q_shard),
            self.q_out_dim + self.kv_shard.rank * part_rows(self.kv_out_dim, self.kv_shard),
            self.q_out_dim + self.kv_out_dim + self.kv_shard.rank * part_rows(self.kv_out_dim, self.kv_shard),
        )
    }
}

/// The name of the projection that gives the values.
pub open spec fn value_name(gguf: bool, k_eq_v: bool) -> Seq<char> {
    part_name(gguf, if k_eq_v { AttnPart::K } else { AttnPart::V })
}

/// The block size of an FP8 checkpoint as a pair.
pub open spec fn block_pair(cfg: Option<QuantConfig>) -> (usize, usize) {
    let b = cfg->0.weight_block_size->0@;
    (b[0], b[1])
}

impl PackedQkv {
    /// Whether packing is considered at all: plain or FP8 weights that are
    /// not quantized at load time, with scales for FP8.
    pub open spec fn considered(vb: &VarBuilderX, cfg: Option<QuantConfig>, quant: Option<String>, k_eq_v: bool) -> bool {
        &&& !vb.checkpoint.gguf && quant is None
        &&& cfg is None || method_is(cfg, "fp8"@)
    }

    /// Whether all three projections of an FP8 checkpoint have scales.
    pub open spec fn scaled(vb: &VarBuilderX, k_eq_v: bool) -> bool {
        fp8_scales_exist(&vb.child("q_proj"@)) && fp8_scales_exist(&vb.child("k_proj"@))
            && fp8_scales_exist(&vb.child(value_name(false, k_eq_v)))
    }

    /// Whether this reads the three projections in the scope.
    pub open spec fn is_packed(&self, vb: &VarBuilderX, size: QkvSize, block: Option<(usize, usize)>, k_eq_v: bool) -> bool {
        &&& self.q.is_part(&vb.child("q_proj"@), size.q_out_dim, size.hidden_size, size.q_shard, block, size.bias, size.dtype)
        &&& self.k.is_part(&vb.child("k_proj"@), size.kv_out_dim, size.hidden_size, size.kv_shard, block, size.bias, size.dtype)
        &&& self.v.is_part(
            &vb.child(value_name(false, k_eq_v)), size.kv_out_dim, size.hidden_size, size.kv_shard, block, size.bias, size.dtype)
        &&& self.block == block
        &&& self.aligned == match block {
            Some(b) => size.starts().0 % (b.0 as int) == 0 && size.starts().1 % (b.0 as int) == 0
                && size.starts().2 % (b.0 as int) == 0,
            None => true,
        }
    }

    /// Whether `r` is what packing comes to: an error for an FP8 checkpoint
    /// without a pair of block sizes, nothing where packing is not
    /// considered, else the reads.
    pub open spec fn planned(
        r: Result<Option<Self>, AttentionError>,
        vb: &VarBuilderX,
        size: QkvSize,
        cfg: Option<QuantConfig>,
        quant: Option<String>,
        k_eq_v: bool,
    ) -> bool {
        if !Self::considered(vb, cfg, quant, k_eq_v) {
            r == Ok::<Option<Self>, AttentionError>(None)
        } else if cfg is None {
            r matches Ok(Some(p)) && p.is_packed(vb, size, None, k_eq_v)
        } else if cfg->0.weight_block_size is None {
            r == Err::<Option<Self>, AttentionError>(AttentionError::NoBlockSize)
        } else if cfg->0.weight_block_size->0@.len() != 2 {
            r == Err::<Option<Self>, AttentionError>(AttentionError::Fp8(fp8_refusal(cfg)))
        } else if !Self::scaled(vb, k_eq_v) {
            r == Ok::<Option<Self>, AttentionError>(None)
        } else {
            r matches Ok(Some(p)) && p.is_packed(vb, size, Some(block_pair(cfg)), k_eq_v)
        }
    }

    pub fn try_load_packed_qkv(
        vb: &VarBuilderX,
        size: QkvSize,
        quant_cfg: &Option<QuantConfig>,
        quant: &Option<String>,
        k_eq_v: bool,
    ) -> (r: Result<Option<Self>, AttentionError>)
        requires
            size.wf(vb.checkpoint.gguf, *quant_cfg),
        ensures
            Self::planned(r, vb, size, *quant_cfg, *quant, k_eq_v),
    {
        if vb.is_qvar_builder() || quant.is_some() {
            return Ok(None);
        }
        let v_name = name_of_part(false, if k_eq_v { AttnPart::K } else { AttnPart::V });
        let block: Option<(usize, usize)> = match quant_cfg {
            None => None,
            Some(cfg) => {
                if !same(cfg.quant_method.as_str(), "fp8") {
                    return Ok(None);
                }
                let b = match &cfg.weight_block_size {
                    Some(b) => b,
                    None => return Err(AttentionError::NoBlockSize),
                };
                if b.len() != 2 {
                    return Err(AttentionError::Fp8(Fp8Error::BlockSizeLen { len: b.len() }));
                }
                let (q, k, v) = (vb.pp("q_proj"), vb.pp("k_proj"), vb.pp(v_name));
                if !has_fp8_tensors(&q) || !has_fp8_tensors(&k) || !has_fp8_tensors(&v) {
                    return Ok(None);
                }
                Some((b[0], b[1]))
            },
        };
        let q = PackedPart::read(vb, "q_proj", size.q_out_dim, size.hidden_size, size.q_shard, block, size.bias, size.dtype);
        let k = PackedPart::read(vb, "k_proj", size.kv_out_dim, size.hidden_size, size.kv_shard, block, size.bias, size.dtype);
        let v = PackedPart::read(vb, v_name, size.kv_out_dim, size.hidden_size, size.kv_shard, block, size.bias, size.dtype);
        proof {
            lemma_part_inside(size.q_out_dim, size.q_shard);
            lemma_part_inside(size.kv_out_dim, size.kv_shard);
        }
        let aligned = match block {
            Some(b) => {
                let q_start: usize = size.q_shard.rank * q.rows;
                let k_start: usize = size.q_out_dim + size.kv_shard.rank * k.rows;
                let v_start: usize = size.q_out_dim + size.kv_out_dim + size.kv_shard.rank * v.rows;
                q_start % b.0 == 0 && k_start % b.0 == 0 && v_start % b.0 == 0
            },
            None => true,
        };
        Ok(Some(PackedQkv { q, k, v, block, aligned }))
    }

    /// Whether the packed form is used, once it is known which reads
    /// succeeded: every FP8 part must be there and aligned, and biases must
    /// be there for all three projections or for none. A dense weight that
    /// cannot be read is an error.
    pub fn settles(&self, weights_read: bool, biases_read: (bool, bool, bool)) -> (r: Result<bool, AttentionError>)
        ensures
            r == if !weights_read && self.block is None {
                Err::<bool, AttentionError>(AttentionError::Unread)
            } else {
                Ok(weights_read && self.aligned && (self.q.bias is None || biases_agree(biases_read)))
            },
    {
        if !weights_read {
            return if self.block.is_none() { Err(AttentionError::Unread) } else { Ok(false) };
        }
        if !self.aligned {
            return Ok(false);
        }
        let (q, k, v) = biases_read;
        Ok(self.q.bias.is_none() || (q == k && k == v))
    }

    /// The rows of the packed matrix, of its scales and of its bias come in
    /// this order.
    pub fn parts(&self) -> (r: [&PackedPart; 3])
        ensures
            r@.len() == 3,
            *r@[0] == self.q,
            *r@[1] == self.k,
            *r@[2] == self.v,
    {
        [&self.q, &self.k, &self.v]
    }

    /// The widths of the outputs.
    pub fn output_splits(&self) -> (r: [usize; 3])
        ensures
            r@ == seq![self.q.rows, self.k.rows, self.v.rows],
    {
        let r: [usize; 3] = [self.q.rows, self.k.rows, self.v.rows];
        assert(r@ =~= seq![self.q.rows, self.k.rows, self.v.rows]);
        r
    }
}

/// Whether biases were found for all three projections or for none.
pub open spec fn biases_agree(read: (bool, bool, bool)) -> bool {
    (read.0 && read.1 && read.2) || (!read.0 && !read.1 && !read.2)
}

proof fn lemma_part_inside(out_dim: usize, s: Shard)
    requires
        s.rank < s.world_size,
    ensures
        0 <= s.rank * part_rows(out_dim, s) <= out_dim,
        0 <= part_rows(out_dim, s) <= out_dim,
        s.rank * part_rows(out_dim, s) + part_rows(out_dim, s) <= out_dim,
{
    let n = part_rows(out_dim, s);
    lemma_fundamental_div_mod(out_dim as int, s.world_size as int);
    lemma_mod_bound(out_dim as int, s.world_size as int);
    lemma_div_pos_is_pos(out_dim as int, s.world_size as int);
    assert(s.rank * n + n <= s.world_size * n) by (nonlinear_arith)
        requires
            s.rank < s.world_size,
            n >= 0,
    ;
    assert(0 <= s.rank * n) by (nonlinear_arith)
        requires
            n >= 0,
    ;
}

/// Queries, keys and values in three matrices.
#[derive(Clone)]
pub struct SeparateQkv {
    pub q_proj: TensorParallelColumnLinear,
    pub k_proj: TensorParallelColumnLinear,
    pub v_proj: TensorParallelColumnLinear,
}

/// Whether `q` is the type that values are quantized to at load time: 8 bits,
/// whatever the other weights are quantized to.
pub open spec fn value_quant(q: Option<String>, cfg: Option<QuantConfig>, quant: Option<String>) -> bool {
    text_view(q) == if quant is Some && cfg is None { Some("q8_0"@) } else { None }
}

impl SeparateQkv {
    /// Whether `r` is the plan for three projections in the scope.
    pub open spec fn planned(
        r: Result<Self, Fp8Error>,
        vb: &VarBuilderX,
        size: QkvSize,
        cfg: Option<QuantConfig>,
        quant: Option<String>,
        k_eq_v: bool,
    ) -> bool {
        let gguf = vb.checkpoint.gguf;
        let q = vb.child(part_name(gguf, AttnPart::Q));
        let k = vb.child(part_name(gguf, AttnPart::K));
        let v = vb.child(value_name(gguf, k_eq_v));
        if fp8_unplannable(&q, cfg) || fp8_unplannable(&k, cfg) || fp8_unplannable(&v, cfg) {
            r == Err::<Self, Fp8Error>(fp8_refusal(cfg))
        } else {
            &&& r matches Ok(l)
            &&& l.q_proj.linear.is_layer(&q, size.q(), cfg, quant)
            &&& l.k_proj.linear.is_layer(&k, size.kv(), cfg, quant)
            &&& forall|o: Option<String>| #[trigger] value_quant(o, cfg, quant)
                ==> l.v_proj.linear.is_layer(&v, size.kv(), cfg, o)
        }
    }

    pub fn load(
        vb: &VarBuilderX,
        size: QkvSize,
        quant_cfg: &Option<QuantConfig>,
        quant: &Option<String>,
        k_eq_v: bool,
    ) -> (r: Result<Self, Fp8Error>)
        requires
            size.wf(vb.checkpoint.gguf, *quant_cfg),
        ensures
            Self::planned(r, vb, size, *quant_cfg, *quant, k_eq_v),
    {
        let gguf = vb.is_qvar_builder();
        let q_size = LinearSize {
            in_dim: size.hidden_size,
            out_dim: size.q_out_dim,
            shard: size.q_shard,
            bias: size.bias,
            dtype: size.dtype,
        };
        let kv_size = LinearSize {
            in_dim: size.hidden_size,
            out_dim: size.kv_out_dim,
            shard: size.kv_shard,
            bias: size.bias,
            dtype: size.dtype,
        };
        let q_proj = match TensorParallelColumnLinear::load_below(vb, name_of_part(gguf, AttnPart::Q), q_size, quant_cfg, quant) {
            Ok(l) => l,
            Err(e) => return Err(e),
        };
        let k_proj = match TensorParallelColumnLinear::load_below(vb, name_of_part(gguf, AttnPart::K), kv_size, quant_cfg, quant) {
            Ok(l) => l,
            Err(e) => return Err(e),
        };
        let v_quant: Option<String> = if quant.is_some() && quant_cfg.is_none() { Some("q8_0".to_owned()) } else { None };
        let v_name = name_of_part(gguf, if k_eq_v { AttnPart::K } else { AttnPart::V });
        let v_proj = match TensorParallelColumnLinear::load_below(vb, v_name, kv_size, quant_cfg, &v_quant) {
            Ok(l) => l,
            Err(e) => return Err(e),
        };
        Ok(SeparateQkv { q_proj, k_proj, v_proj })
    }
}

/// How queries, keys and values are projected.
#[derive(Clone)]
pub enum QkvProjection {
    Separate(SeparateQkv),
    /// The packed form where it settles, else the other one.
    Packed { packed: PackedQkv, otherwise: SeparateQkv },
}

/// Norms of queries and keys: of each head, or else of all heads together, or
/// else none.
#[derive(Clone)]
pub struct QkNorms {
    pub q: NormX,
    pub k: NormX,
    pub q_full: NormX,
    pub k_full: NormX,
}

/// Which norms of queries and keys are used.
#[derive(Debug, Clone, Copy, PartialEq, Eq, Structural)]
pub enum QkNormUse {
    Heads,
    FullDim,
    Unused,
}

impl QkNorms {
    /// Whether these are the norms in the scope.
    pub open spec fn is_norms(&self, vb: &VarBuilderX, cfg: Config, s: AttnShape, comm: Comm, kv_shard: Shard, dtype: DType) -> bool {
        let gguf = vb.checkpoint.gguf;
        let q = vb.child(part_name(gguf, AttnPart::QNorm));
        let k = vb.child(part_name(gguf, AttnPart::KNorm));
        let q_shard = Shard { dim: 0, rank: comm.rank, world_size: comm.world_size };
        &&& self.q.is_rms(&q, s.head_dim, dtype, s.norm_plus_one, Shard::whole())
        &&& self.k.is_rms(&k, s.head_dim, dtype, s.norm_plus_one, Shard::whole())
        &&& self.q_full.is_rms(&q, s.width, dtype, s.norm_plus_one, q_shard)
        &&& self.k_full.is_rms(&k, s.kv_out_dim, dtype, s.norm_plus_one, kv_shard)
    }

    /// Which norms are used, once it is known which of the four can be read.
    pub fn settle(q: bool, k: bool, q_full: bool, k_full: bool) -> (r: QkNormUse)
        ensures
            r == if q && k {
                QkNormUse::Heads
            } else if q_full && k_full {
                QkNormUse::FullDim
            } else {
                QkNormUse::Unused
            },
    {
        if q && k {
            QkNormUse::Heads
        } else if q_full && k_full {
            QkNormUse::FullDim
        } else {
            QkNormUse::Unused
        }
    }
}

/// The type that norms of an attention layer are computed in.
pub open spec fn norm_dtype(cfg: Config, gguf: bool, dtype: DType) -> DType {
    if gguf || cfg.quant is Some || cfg.quantization_config is Some || cfg.is_f16_mode { DType::F32 } else { dtype }
}

/// An attention layer of one rank.
#[derive(Clone)]
pub struct Attention {
    pub qkv_proj: QkvProjection,
    pub o_proj: TensorParallelRowLinear,
    pub norms: QkNorms,
    pub num_heads: usize,
    pub num_kv_heads: usize,
    pub shape: AttnShape,
    pub sliding_window: Option<usize>,
    pub dtype: DType,
    pub is_qvar_builder: bool,
    pub qk_l2_norm: bool,
    pub promote_qk_to_f32: bool,
    /// Whether cached keys are kept in FP8.
    pub fp8_keys: bool,
}

/// How one head's share of a gated query projection is split.
#[derive(Debug, Clone, Copy, PartialEq, Eq, Structural)]
pub struct GateSplit {
    pub query: Span,
    pub gate: Span,
}

/// The shapes in which queries and keys are normalized.
#[derive(Debug, Clone, Copy, PartialEq, Eq)]
pub enum NormShapes {
    /// Token by token, all heads in one row.
    FullDim { q: (usize, usize), k: (usize, usize) },
    /// As they are.
    Whole,
    /// One row for each head of each token.
    Rows { q: (usize, usize), k: (usize, usize) },
}

/// How a forward pass of an attention layer is laid out.
pub struct AttnPass {
    pub gate: Option<GateSplit>,
    pub q_shape: (usize, usize, usize),
    pub kv_shape: (usize, usize, usize),
    /// Whether queries and keys are converted to single precision.
    pub promote: bool,
    pub norm: Option<NormShapes>,
    /// Whether queries and keys are divided by their root mean square once
    /// they are rotated.
    pub l2_norm: bool,
    /// Element type that queries, keys and values are brought to after that.
    pub attend_as: DType,
    /// Whether values are normalized without a weight.
    pub norm_values: bool,
    /// Tokens that a query looks back to, all without one.
    pub sliding_window: Option<usize>,
    /// Whether cached keys are kept in FP8.
    pub fp8_keys: bool,
    /// Whether the output is converted to the type of the input.
    pub cast_output: bool,
}

impl Attention {
    /// The sizes of the projections of `cfg` for one rank.
    pub open spec fn sizes(cfg: Config, hs: HeadSize, gguf: bool, comm: Comm, dtype: DType) -> QkvSize {
        let s = AttnShape::of(cfg, hs, gguf);
        QkvSize {
            hidden_size: cfg.hidden_size,
            q_out_dim: s.q_out_dim,
            kv_out_dim: s.kv_out_dim,
            q_shard: Shard { dim: 0, rank: comm.rank, world_size: comm.world_size },
            kv_shard: kv_head_shard_of(hs.num_kv_heads, comm.rank, comm.world_size)->Ok_0.1,
            bias: s.bias,
            dtype,
        }
    }

    /// Whether an attention layer of `cfg` can be planned.
    pub open spec fn wf(cfg: Config, hs: HeadSize, gguf: bool, comm: Comm, dtype: DType) -> bool {
        let s = AttnShape::of(cfg, hs, gguf);
        &&& comm.wf()
        &&& cfg.has_arch()
        &&& AttnShape::fits(cfg, hs)
        &&& kv_head_shard_of(hs.num_kv_heads, comm.rank, comm.world_size) is Ok ==> {
            let size = Self::sizes(cfg, hs, gguf, comm, dtype);
            &&& plannable(size.q(), gguf, cfg.quantization_config)
            &&& plannable(size.kv(), gguf, cfg.quantization_config)
        }
        &&& plannable(row_size(s.width, cfg.hidden_size, comm, dtype), gguf, cfg.quantization_config)
    }

    /// Whether an attention layer of `cfg` can be planned.
    pub fn can_plan(cfg: &Config, hs: HeadSize, gguf: bool, comm: &Comm, dtype: DType) -> (r: bool)
        ensures
            r == Self::wf(*cfg, hs, gguf, *comm, dtype),
    {
        let named = match &cfg.architectures {
            Some(a) => a.len() > 0,
            None => false,
        };
        if comm.rank() >= comm.world_size() || !named || !AttnShape::sizes_fit(cfg, hs) {
            return false;
        }
        let s = AttnShape::of_config(cfg, hs, gguf);
        let q = &cfg.quantization_config;
        let q_shard = shard(0, comm.rank(), comm.world_size());
        match kv_head_shard(hs.num_kv_heads, comm.rank(), comm.world_size()) {
            Ok(kv) => {
                let q_size = LinearSize {
                    in_dim: cfg.hidden_size, out_dim: s.q_out_dim, shard: q_shard, bias: s.bias, dtype,
                };
                let kv_size = LinearSize { in_dim: cfg.hidden_size, out_dim: s.kv_out_dim, shard: kv.1, bias: s.bias, dtype };
                assert(q_size == Self::sizes(*cfg, hs, gguf, *comm, dtype).q());
                assert(kv_size == Self::sizes(*cfg, hs, gguf, *comm, dtype).kv());
                if !can_plan(q_size, gguf, q) || !can_plan(kv_size, gguf, q) {
                    return false;
                }
            },
            Err(_) => {},
        }
        let o_shard = shard(1, comm.rank(), comm.world_size());
        can_plan(LinearSize { in_dim: s.width, out_dim: cfg.hidden_size, shard: o_shard, bias: false, dtype }, gguf, q)
    }

    /// Whether the projections are planned as packing decides.
    pub open spec fn projects(p: QkvProjection, vb: &VarBuilderX, size: QkvSize, cfg: Config, k_eq_v: bool) -> bool {
        match p {
            QkvProjection::Separate(s) => {
                &&& PackedQkv::planned(Ok(None), vb, size, cfg.quantization_config, cfg.quant, k_eq_v)
                &&& SeparateQkv::planned(Ok(s), vb, size, cfg.quantization_config, cfg.quant, k_eq_v)
            },
            QkvProjection::Packed { packed, otherwise } => {
                &&& PackedQkv::planned(Ok(Some(packed)), vb, size, cfg.quantization_config, cfg.quant, k_eq_v)
                &&& SeparateQkv::planned(Ok(otherwise), vb, size, cfg.quantization_config, cfg.quant, k_eq_v)
            },
        }
    }

    /// Whether this is the layer that `cfg` asks for in the scope.
    pub open spec fn is_planned(
        &self,
        vb: &VarBuilderX,
        comm: Comm,
        cfg: Config,
        hs: HeadSize,
        sliding_window: Option<usize>,
        dtype: DType,
        k_eq_v: bool,
        qk_l2_norm: bool,
    ) -> bool {
        let gguf = vb.checkpoint.gguf;
        let s = AttnShape::of(cfg, hs, gguf);
        let heads = kv_head_shard_of(hs.num_kv_heads, comm.rank, comm.world_size)->Ok_0;
        &&& Self::projects(self.qkv_proj, vb, Self::sizes(cfg, hs, gguf, comm, dtype), cfg, k_eq_v)
        &&& TensorParallelRowLinear::planned(
            Ok(self.o_proj), &vb.child(part_name(gguf, AttnPart::O)), row_size(s.width, cfg.hidden_size, comm, dtype), comm,
            cfg.quantization_config, cfg.quant)
        &&& self.norms.is_norms(vb, cfg, s, comm, heads.1, norm_dtype(cfg, gguf, dtype))
        &&& self.num_heads == cfg.num_attention_heads as int / comm.world_size as int
        &&& self.num_kv_heads == heads.0
        &&& self.shape == s
        &&& self.sliding_window == sliding_window
        &&& self.dtype == dtype
        &&& self.is_qvar_builder == gguf
        &&& self.qk_l2_norm == qk_l2_norm
        &&& self.promote_qk_to_f32 == (gguf || cfg.higher_precision_required || qk_l2_norm)
        &&& self.fp8_keys == cfg.fp8_keys
    }

    /// Why the layer cannot be planned, if so: key-value heads that do not
    /// spread over the group, then the block size of an FP8 checkpoint.
    pub open spec fn refusal(vb: &VarBuilderX, comm: Comm, cfg: Config, hs: HeadSize, k_eq_v: bool) -> Option<AttentionError> {
        let gguf = vb.checkpoint.gguf;
        let q = cfg.quantization_config;
        match kv_head_shard_of(hs.num_kv_heads, comm.rank, comm.world_size) {
            Err(e) => Some(AttentionError::KvHeads(e)),
            Ok(_) => if PackedQkv::considered(vb, q, cfg.quant, k_eq_v) && q is Some && q->0.weight_block_size is None {
                Some(AttentionError::NoBlockSize)
            } else if PackedQkv::considered(vb, q, cfg.quant, k_eq_v) && q is Some && q->0.weight_block_size->0@.len() != 2 {
                Some(AttentionError::Fp8(fp8_refusal(q)))
            } else if fp8_unplannable(&vb.child(part_name(gguf, AttnPart::Q)), q)
                || fp8_unplannable(&vb.child(part_name(gguf, AttnPart::K)), q)
                || fp8_unplannable(&vb.child(value_name(gguf, k_eq_v)), q)
                || fp8_unplannable(&vb.child(part_name(gguf, AttnPart::O)), q) {
                Some(AttentionError::Fp8(fp8_refusal(q)))
            } else {
                None
            },
        }
    }

    /// Whether `r` is the plan of the layer that `cfg` asks for.
    pub open spec fn planned(
        r: Result<Self, AttentionError>,
        vb: &VarBuilderX,
        comm: Comm,
        cfg: Config,
        hs: HeadSize,
        sliding_window: Option<usize>,
        dtype: DType,
        k_eq_v: bool,
        qk_l2_norm: bool,
    ) -> bool {
        match Self::refusal(vb, comm, cfg, hs, k_eq_v) {
            Some(e) => r == Err::<Self, AttentionError>(e),
            None => r matches Ok(a) && a.is_planned(vb, comm, cfg, hs, sliding_window, dtype, k_eq_v, qk_l2_norm),
        }
    }

    pub fn new(vb: &VarBuilderX, comm: &Comm, config: &Config, sliding_window: Option<usize>, dtype: DType) -> (r: Result<Self, AttentionError>)
        requires
            Self::wf(*config, config.head_size(), vb.checkpoint.gguf, *comm, dtype),
        ensures
            Self::planned(r, vb, *comm, *config, config.head_size(), sliding_window, dtype, false, false),
    {
        Self::new_with_options(vb, comm, config, config.heads(), sliding_window, dtype, false, false)
    }

    #[verifier::rlimit(60)]
    #[verifier::spinoff_prover]
    pub fn new_with_options(
        vb: &VarBuilderX,
        comm: &Comm,
        config: &Config,
        hs: HeadSize,
        sliding_window: Option<usize>,
        dtype: DType,
        k_eq_v: bool,
        qk_l2_norm: bool,
    ) -> (r: Result<Self, AttentionError>)
        requires
            Self::wf(*config, hs, vb.checkpoint.gguf, *comm, dtype),
        ensures
            Self::planned(r, vb, *comm, *config, hs, sliding_window, dtype, k_eq_v, qk_l2_norm),
    {
        let gguf = vb.is_qvar_builder();
        let shape = AttnShape::of_config(config, hs, gguf);
        let (num_kv_heads, kv_shard) = match kv_head_shard(hs.num_kv_heads, comm.rank(), comm.world_size()) {
            Ok(h) => h,
            Err(e) => return Err(AttentionError::KvHeads(e)),
        };
        let q_shard = shard(0, comm.rank(), comm.world_size());
        let size = QkvSize {
            hidden_size: config.hidden_size,
            q_out_dim: shape.q_out_dim,
            kv_out_dim: shape.kv_out_dim,
            q_shard,
            kv_shard,
            bias: shape.bias,
            dtype,
        };
        assert(size == Self::sizes(*config, hs, gguf, *comm, dtype));
        proof {
            let d = AttnShape::head_dim_of(*config, hs);
            assert(0 <= config.num_attention_heads * d) by (nonlinear_arith)
                requires
                    d >= 0,
            ;
            assert(0 <= hs.num_kv_heads * d) by (nonlinear_arith)
                requires
                    d >= 0,
            ;
            lemma_kv_shard_in_range(hs.num_kv_heads, *comm);
        }
        let packed = match PackedQkv::try_load_packed_qkv(vb, size, &config.quantization_config, &config.quant, k_eq_v) {
            Ok(p) => p,
            Err(e) => return Err(e),
        };
        let separate = match SeparateQkv::load(vb, size, &config.quantization_config, &config.quant, k_eq_v) {
            Ok(s) => s,
            Err(e) => return Err(AttentionError::Fp8(e)),
        };
        let qkv_proj = match packed {
            Some(packed) => QkvProjection::Packed { packed, otherwise: separate },
            None => QkvProjection::Separate(separate),
        };
        let o_proj = match TensorParallelRowLinear::load_below(
            vb, name_of_part(gguf, AttnPart::O), shape.width, config.hidden_size, comm, &config.quantization_config, &config.quant, dtype,
        ) {
            Ok(l) => l,
            Err(e) => return Err(AttentionError::Fp8(e)),
        };
        let norm_type = if gguf || config.quant.is_some() || config.quantization_config.is_some() || config.is_f16_mode {
            DType::F32
        } else {
            dtype
        };
        let q_norm_vb = vb.pp(name_of_part(gguf, AttnPart::QNorm));
        let k_norm_vb = vb.pp(name_of_part(gguf, AttnPart::KNorm));
        let norms = QkNorms {
            q: rms_norm(shape.head_dim, &q_norm_vb, norm_type, shape.norm_plus_one),
            k: rms_norm(shape.head_dim, &k_norm_vb, norm_type, shape.norm_plus_one),
            q_full: rms_norm_sharded(shape.width, &q_norm_vb, norm_type, shape.norm_plus_one, q_shard),
            k_full: rms_norm_sharded(shape.kv_out_dim, &k_norm_vb, norm_type, shape.norm_plus_one, kv_shard),
        };
        Ok(
            Attention {
                qkv_proj,
                o_proj,
                norms,
                num_heads: config.num_attention_heads / comm.world_size(),
                num_kv_heads,
                shape,
                sliding_window,
                dtype,
                is_qvar_builder: gguf,
                qk_l2_norm,
                promote_qk_to_f32: gguf || config.higher_precision_required || qk_l2_norm,
                fp8_keys: config.fp8_keys,
            },
        )
    }

    /// Sizes of a forward pass that fit the machine.
    pub open spec fn pass_fits(&self, seq_len: usize) -> bool {
        &&& 2 * (self.num_heads * self.shape.head_dim) <= usize::MAX
        &&& self.num_kv_heads * self.shape.head_dim <= usize::MAX
        &&& seq_len * self.num_heads <= usize::MAX
        &&& seq_len * self.num_kv_heads <= usize::MAX
        &&& 2 * self.shape.head_dim <= usize::MAX
    }

    /// Lays out a forward pass over `seq_len` tokens. `outputs` is the number
    /// of matrices that a packed projection gave, `q_dim` the width of the
    /// queries, `norms` the norms in use.
    pub fn forward_ext(&self, seq_len: usize, outputs: Option<usize>, q_dim: usize, q_dtype: DType, norms: QkNormUse) -> (r: Result<AttnPass, AttentionError>)
        requires
            self.pass_fits(seq_len),
        ensures
            match self.pass_refusal(outputs, q_dim) {
                Some(e) => r == Err::<AttnPass, AttentionError>(e),
                None => r matches Ok(p) && self.is_pass(p, seq_len, q_dtype, norms),
            },
    {
        match outputs {
            Some(n) => if n != 3 {
                return Err(AttentionError::Outputs { got: n });
            },
            None => {},
        }
        let d: usize = self.shape.head_dim;
        let width: usize = self.num_heads * d;
        let gate = if self.shape.output_gate {
            if q_dim != 2 * width {
                return Err(AttentionError::QueryWidth { expected: 2 * width, got: q_dim });
            }
            Some(GateSplit { query: Span { start: 0, len: d }, gate: Span { start: d, len: d } })
        } else {
            None
        };
        let norm = match norms {
            QkNormUse::Unused => None,
            QkNormUse::FullDim => Some(
                NormShapes::FullDim { q: (seq_len, width), k: (seq_len, self.num_kv_heads * d) },
            ),
            QkNormUse::Heads => if self.shape.no_per_head_norm {
                Some(NormShapes::Whole)
            } else {
                Some(NormShapes::Rows { q: (seq_len * self.num_heads, d), k: (seq_len * self.num_kv_heads, d) })
            },
        };
        Ok(
            AttnPass {
                gate,
                q_shape: (seq_len, self.num_heads, d),
                kv_shape: (seq_len, self.num_kv_heads, d),
                promote: self.promote_qk_to_f32 && q_dtype != DType::F32,
                norm,
                l2_norm: self.qk_l2_norm,
                attend_as: self.dtype,
                norm_values: self.shape.norm_values,
                sliding_window: self.sliding_window,
                fp8_keys: self.fp8_keys,
                cast_output: !self.is_qvar_builder,
            },
        )
    }

    /// Why a forward pass is refused, if so.
    pub open spec fn pass_refusal(&self, outputs: Option<usize>, q_dim: usize) -> Option<AttentionError> {
        let gated = 2 * (self.num_heads * self.shape.head_dim);
        match outputs {
            Some(n) if n != 3 => Some(AttentionError::Outputs { got: n }),
            _ => if self.shape.output_gate && q_dim != gated {
                Some(AttentionError::QueryWidth { expected: gated as usize, got: q_dim })
            } else {
                None
            },
        }
    }

    /// Whether `p` lays out a forward pass over `seq_len` tokens.
    pub open spec fn is_pass(&self, p: AttnPass, seq_len: usize, q_dtype: DType, norms: QkNormUse) -> bool {
        let d = self.shape.head_dim;
        &&& p.gate == if self.shape.output_gate {
            Some(GateSplit { query: Span { start: 0, len: d }, gate: Span { start: d, len: d } })
        } else {
            None
        }
        &&& p.q_shape == (seq_len, self.num_heads, d)
        &&& p.kv_shape == (seq_len, self.num_kv_heads, d)
        &&& p.promote == (self.promote_qk_to_f32 && q_dtype != DType::F32)
        &&& p.norm == match norms {
            QkNormUse::Unused => None,
            QkNormUse::FullDim => Some(
                NormShapes::FullDim {
                    q: (seq_len, (self.num_heads * d) as usize),
                    k: (seq_len, (self.num_kv_heads * d) as usize),
                },
            ),
            QkNormUse::Heads => if self.shape.no_per_head_norm {
                Some(NormShapes::Whole)
            } else {
                Some(
                    NormShapes::Rows {
                        q: ((seq_len * self.num_heads) as usize, d),
                        k: ((seq_len * self.num_kv_heads) as usize, d),
                    },
                )
            },
        }
        &&& p.l2_norm == self.qk_l2_norm
        &&& p.attend_as == self.dtype
        &&& p.norm_values == self.shape.norm_values
        &&& p.sliding_window == self.sliding_window
        &&& p.fp8_keys == self.fp8_keys
        &&& p.cast_output == !self.is_qvar_builder
    }
}

proof fn lemma_kv_shard_in_range(kv: usize, comm: Comm)
    requires
        comm.wf(),
        kv_head_shard_of(kv, comm.rank, comm.world_size) is Ok,
    ensures
        kv_head_shard_of(kv, comm.rank, comm.world_size)->Ok_0.1.rank
            < kv_head_shard_of(kv, comm.rank, comm.world_size)->Ok_0.1.world_size,
{
    if kv < comm.world_size {
        let per = comm.world_size as int / kv as int;
        crate::math::lemma_div_exact(comm.world_size as int, kv as int);
        assert(per > 0) by (nonlinear_arith)
            requires
                per * kv == comm.world_size,
                comm.world_size > 0,
                kv > 0,
        ;
        lemma_fundamental_div_mod(comm.rank as int, per);
        lemma_mod_bound(comm.rank as int, per);
        lemma_div_pos_is_pos(comm.rank as int, per);
        let q = comm.rank as int / per;
        assert(q < kv) by (nonlinear_arith)
            requires
                per * q <= comm.rank,
                comm.rank < comm.world_size,
                per * kv == comm.world_size,
                per > 0,
        ;
    }
}

/// Every element of a gated query projection is a query or a gate of exactly
/// one head: of the `2 * head_dim` elements of head `h`, the first half are
/// its queries and the second half its gates.
pub proof fn law_gate_split_covers(heads: int, head_dim: int, i: int)
    requires
        0 < head_dim,
        0 <= i < heads * (2 * head_dim),
    ensures
        ({
            let h = i / (2 * head_dim);
            let d = i % (2 * head_dim);
            &&& 0 <= h < heads
            &&& d < head_dim ==> i == h * (2 * head_dim) + d
            &&& d >= head_dim ==> i == h * (2 * head_dim) + head_dim + (d - head_dim) && d - head_dim < head_dim
        }),
{
    let w = 2 * head_dim;
    lemma_fundamental_div_mod(i, w);
    lemma_mod_bound(i, w);
    lemma_div_pos_is_pos(i, w);
    let h = i / w;
    lemma_mul_is_commutative(w, h);
    assert(h < heads) by (nonlinear_arith)
        requires
            w * h <= i,
            i < heads * w,
            w > 0,
    ;
}

/// Attention over whole sequences, without a cache.
#[derive(Clone)]
pub struct NaiveAttention {
    pub q_proj: ReplicatedLinear,
    pub k_proj: ReplicatedLinear,
    pub v_proj: ReplicatedLinear,
    pub o_proj: ReplicatedLinear,
    pub num_heads: usize,
    pub head_dim: usize,
}

/// How a pass without a cache is laid out.
pub struct NaivePass {
    /// Sequences, tokens, heads and their width: queries, keys and values are
    /// brought into this shape, and heads before tokens after that.
    pub heads: (usize, usize, usize, usize),
    /// The queries that are scored together, each chunk against all keys; the
    /// results are put behind each other.
    pub chunks: Vec<Span>,
}

/// Queries that are scored at a time.
pub const QUERY_CHUNK: usize = 1024;

impl NaiveAttention {
    /// Whether the layers are those in the scope; `o_name` is the name of the
    /// output projection outside block-quantized files.
    pub open spec fn is_planned(&self, vb: &VarBuilderX, hidden_size: usize, o_name: Option<Seq<char>>, dtype: DType) -> bool {
        let gguf = vb.checkpoint.gguf;
        let size = full_size(hidden_size, hidden_size, true, dtype);
        let o = if !gguf && o_name is Some { o_name->0 } else { part_name(gguf, AttnPart::O) };
        &&& self.q_proj.linear.is_layer(&vb.child(part_name(gguf, AttnPart::Q)), size, None, None)
        &&& self.k_proj.linear.is_layer(&vb.child(part_name(gguf, AttnPart::K)), size, None, None)
        &&& self.v_proj.linear.is_layer(&vb.child(part_name(gguf, AttnPart::V)), size, None, None)
        &&& self.o_proj.linear.is_layer(&vb.child(o), size, None, None)
    }

    pub fn new(vb: &VarBuilderX, num_heads: usize, hidden_size: usize, head_dim: usize, dtype: DType, o_name: Option<&str>) -> (r: Self)
        ensures
            r.is_planned(vb, hidden_size, match o_name { Some(n) => Some(n@), None => None }, dtype),
            r.num_heads == num_heads,
            r.head_dim == head_dim,
    {
        let gguf = vb.is_qvar_builder();
        let o = match o_name {
            Some(n) => if gguf { name_of_part(gguf, AttnPart::O) } else { n },
            None => name_of_part(gguf, AttnPart::O),
        };
        NaiveAttention {
            q_proj: ReplicatedLinear::plain_below(vb, name_of_part(gguf, AttnPart::Q), hidden_size, hidden_size, true, dtype),
            k_proj: ReplicatedLinear::plain_below(vb, name_of_part(gguf, AttnPart::K), hidden_size, hidden_size, true, dtype),
            v_proj: ReplicatedLinear::plain_below(vb, name_of_part(gguf, AttnPart::V), hidden_size, hidden_size, true, dtype),
            o_proj: ReplicatedLinear::plain_below(vb, o, hidden_size, hidden_size, true, dtype),
            num_heads,
            head_dim,
        }
    }

    /// Lays out a pass over `batch` sequences of `seq_len` tokens.
    pub fn forward(&self, batch: usize, seq_len: usize) -> (r: NaivePass)
        requires
            seq_len + QUERY_CHUNK <= usize::MAX,
        ensures
            r.heads == (batch, seq_len, self.num_heads, self.head_dim),
            r.chunks@.len() == crate::math::ceil_div(seq_len as int, QUERY_CHUNK as int),
            forall|c: int| 0 <= c < r.chunks@.len() ==> #[trigger] r.chunks@[c] == query_chunk(seq_len, c),
    {
        let chunks: usize = div_ceil(seq_len, QUERY_CHUNK);
        let mut v: Vec<Span> = Vec::new();
        let mut c: usize = 0;
        while c < chunks
            invariant
                c <= chunks,
                chunks == crate::math::ceil_div(seq_len as int, QUERY_CHUNK as int),
                seq_len + QUERY_CHUNK <= usize::MAX,
                v@.len() == c,
                forall|j: int| 0 <= j < c ==> #[trigger] v@[j] == query_chunk(seq_len, j),
            decreases chunks - c,
        {
            assert(chunks == (seq_len + 1023) / 1024);
            assert(c * 1024 < seq_len);
            let start: usize = c * QUERY_CHUNK;
            let left: usize = seq_len - start;
            let len: usize = if left < QUERY_CHUNK { left } else { QUERY_CHUNK };
            v.push(Span { start, len });
            c = c + 1;
        }
        NaivePass { heads: (batch, seq_len, self.num_heads, self.head_dim), chunks: v }
    }
}

/// Chunk `c` of the queries.
pub open spec fn query_chunk(seq_len: usize, c: int) -> Span {
    let start = c * QUERY_CHUNK;
    Span {
        start: start as usize,
        len: if seq_len - start < QUERY_CHUNK { (seq_len - start) as usize } else { QUERY_CHUNK },
    }
}

/// Every query is scored in exactly one chunk.
pub proof fn law_query_chunks_partition(seq_len: usize, i: int)
    requires
        seq_len + QUERY_CHUNK <= usize::MAX,
        0 <= i < seq_len,
    ensures
        ({
            let n = crate::math::ceil_div(seq_len as int, QUERY_CHUNK as int);
            let c = i / (QUERY_CHUNK as int);
            &&& 0 <= c < n
            &&& query_chunk(seq_len, c).start <= i < query_chunk(seq_len, c).start + query_chunk(seq_len, c).len
            &&& forall|o: int| 0 <= o < n && (#[trigger] query_chunk(seq_len, o)).start <= i
                < query_chunk(seq_len, o).start + query_chunk(seq_len, o).len ==> o == c
        }),
{
}

/// Parts have one name in block-quantized files and another elsewhere.
pub proof fn law_names_of_parts(part: AttnPart, stored: &'static str, plain: &'static str)
    requires
        call_ensures(name_of_part, (true, part), stored),
        call_ensures(name_of_part, (false, part), plain),
    ensures
        part == AttnPart::Q ==> stored@ == "attn_q"@ && plain@ == "q_proj"@,
        part == AttnPart::K ==> stored@ == "attn_k"@ && plain@ == "k_proj"@,
        part == AttnPart::V ==> stored@ == "attn_v"@ && plain@ == "v_proj"@,
        part == AttnPart::O ==> stored@ == "attn_output"@ && plain@ == "o_proj"@,
        part == AttnPart::QNorm ==> stored@ == "attn_q_norm"@ && plain@ == "q_norm"@,
        part == AttnPart::KNorm ==> stored@ == "attn_k_norm"@ && plain@ == "k_norm"@,
{
}

/// Heads share the hidden size evenly where their width is not given; queries
/// have the width of all heads, twice that with a gate, keys and values that of
/// their own heads. Qwen 3.5 and Qwen 3 Next are gated and have no biases unless
/// the configuration says otherwise.
pub proof fn law_widths_of_projections(cfg: Config, hs: HeadSize, gguf: bool, s: AttnShape)
    requires
        AttnShape::fits(cfg, hs),
        call_ensures(AttnShape::of_config, (&cfg, hs, gguf), s),
    ensures
        hs.head_dim matches Some(d) ==> s.head_dim == d,
        hs.head_dim is None ==> s.head_dim * cfg.num_attention_heads <= cfg.hidden_size < (s.head_dim + 1) * cfg.num_attention_heads,
        s.width == cfg.num_attention_heads * s.head_dim,
        s.kv_out_dim == hs.num_kv_heads * s.head_dim,
        s.output_gate ==> s.q_out_dim == s.width + s.width,
        !s.output_gate ==> s.q_out_dim == s.width,
        cfg.attn_output_gate matches Some(b) ==> s.output_gate == b,
        cfg.qkv_bias matches Some(b) ==> s.bias == b,
        cfg.qkv_bias is None ==> (cfg.attention_bias matches Some(b) ==> s.bias == b),
        ({
            let a = cfg.arch();
            let next = a == "Qwen3_5ForCausalLM"@ || a == "Qwen3_5ForConditionalGeneration"@ || a == "Qwen3_5MoeForCausalLM"@ || a
                == "Qwen3_5MoeForConditionalGeneration"@ || a == "Qwen3NextForCausalLM"@ || a == "Qwen3NextForConditionalGeneration"@;
            &&& cfg.attn_output_gate is None ==> (s.output_gate <==> next)
            &&& cfg.qkv_bias is None && cfg.attention_bias is None ==> (s.bias <==> !next)
        }),
{
    let d = AttnShape::head_dim_of(cfg, hs);
    let n = cfg.num_attention_heads as int;
    if hs.head_dim is None {
        lemma_fundamental_div_mod(cfg.hidden_size as int, n);
        lemma_mul_is_commutative(n, d);
        lemma_div_pos_is_pos(cfg.hidden_size as int, n);
        lemma_div_nonincreasing(cfg.hidden_size as int, n);
        assert((d + 1) * n == d * n + n) by (nonlinear_arith);
    }
    assert(0 <= n * d && 0 <= hs.num_kv_heads * d) by (nonlinear_arith)
        requires
            0 <= d,
            0 <= n,
    ;
}

/// Which architectures add one to the weights of their norms, normalize all
/// heads at once, and normalize values.
pub proof fn law_norms_by_architecture(cfg: Config, hs: HeadSize, gguf: bool, s: AttnShape)
    requires
        AttnShape::fits(cfg, hs),
        call_ensures(AttnShape::of_config, (&cfg, hs, gguf), s),
    ensures
        ({
            let a = cfg.arch();
            let gemma3 = a == "Gemma3ForConditionalGeneration"@ || a == "Gemma3ForCausalLM"@;
            let gemma4 = a == "Gemma4ForConditionalGeneration"@ || a == "Gemma4ForCausalLM"@;
            let next = a == "Qwen3_5ForCausalLM"@ || a == "Qwen3_5ForConditionalGeneration"@ || a == "Qwen3_5MoeForCausalLM"@ || a
                == "Qwen3_5MoeForConditionalGeneration"@ || a == "Qwen3NextForCausalLM"@ || a == "Qwen3NextForConditionalGeneration"@;
            let mlx = cfg.quantization_config is Some && cfg.quantization_config->0.is_mlx_nvfp4;
            &&& gemma3 ==> s.norm_plus_one
            &&& next && !gemma3 ==> (s.norm_plus_one <==> !gguf && !mlx)
            &&& !next && !gemma3 ==> !s.norm_plus_one
            &&& s.norm_values <==> gemma4
            &&& s.no_per_head_norm <==> gemma3 || gemma4 || next || a == "Qwen3VLForConditionalGeneration"@ || a
                == "Qwen3VLMoeForConditionalGeneration"@ || a == "MiniMaxM2ForCausalLM"@
        }),
{
}

/// Packing: never in block-quantized files, at load-time quantization or for
/// methods other than FP8; always for plain weights; for FP8 with a pair of
/// block sizes where all projections have scales.
pub proof fn law_projections_are_packed(
    vb: VarBuilderX,
    size: QkvSize,
    cfg: Option<QuantConfig>,
    quant: Option<String>,
    k_eq_v: bool,
    r: Result<Option<PackedQkv>, AttentionError>,
)
    requires
        size.wf(vb.checkpoint.gguf, cfg),
        call_ensures(PackedQkv::try_load_packed_qkv, (&vb, size, &cfg, &quant, k_eq_v), r),
    ensures
        vb.checkpoint.gguf || quant is Some ==> r == Ok::<Option<PackedQkv>, AttentionError>(None),
        (cfg matches Some(c) && c.quant_method@ != "fp8"@) ==> r == Ok::<Option<PackedQkv>, AttentionError>(None),
        !vb.checkpoint.gguf && quant is None && cfg is None ==> (r matches Ok(Some(p)) && p.block is None && p.aligned),
        !vb.checkpoint.gguf && quant is None && (cfg matches Some(c) && c.quant_method@ == "fp8"@ && c.weight_block_size is None) ==> r == Err::<
            Option<PackedQkv>,
            AttentionError,
        >(AttentionError::NoBlockSize),
        r matches Ok(Some(p)) ==> {
            &&& p.q.weight.shape@ == seq![size.q_out_dim, size.hidden_size] && p.q.weight.shard == size.q_shard
            &&& p.k.weight.shape@ == seq![size.kv_out_dim, size.hidden_size] && p.k.weight.shard == size.kv_shard
            &&& p.v.weight.shape@ == seq![size.kv_out_dim, size.hidden_size] && p.v.weight.shard == size.kv_shard
            &&& p.q.rows * size.q_shard.world_size <= size.q_out_dim < (p.q.rows + 1) * size.q_shard.world_size
            &&& p.k.rows * size.kv_shard.world_size <= size.kv_out_dim < (p.k.rows + 1) * size.kv_shard.world_size
            &&& p.v.rows == p.k.rows
            &&& p.q.bias is Some <==> size.bias
            &&& p.k.bias is Some <==> size.bias
            &&& p.v.bias is Some <==> size.bias
            &&& k_eq_v ==> p.v.weight.path@ == p.k.weight.path@
            &&& p.block matches Some(b) ==> {
                &&& cfg matches Some(c) && c.weight_block_size matches Some(w) && w@.len() == 2 && w@[0] == b.0 && w@[1] == b.1
                &&& p.aligned <==> (size.q_shard.rank * p.q.rows) % (b.0 as int) == 0 && (size.q_out_dim + size.kv_shard.rank * p.k.rows) % (
                b.0 as int) == 0 && (size.q_out_dim + size.kv_out_dim + size.kv_shard.rank * p.v.rows) % (b.0 as int) == 0
                &&& p.q.scale is Some && p.k.scale is Some && p.v.scale is Some
            }
        },
{
    lemma_equal_parts(size.q_out_dim, size.q_shard);
    lemma_equal_parts(size.kv_out_dim, size.kv_shard);
}

proof fn lemma_equal_parts(out_dim: usize, s: Shard)
    requires
        s.rank < s.world_size,
    ensures
        part_rows(out_dim, s) * s.world_size <= out_dim < (part_rows(out_dim, s) + 1) * s.world_size,
        0 <= part_rows(out_dim, s) <= out_dim,
{
    let (n, w) = (part_rows(out_dim, s), s.world_size as int);
    lemma_fundamental_div_mod(out_dim as int, w);
    lemma_mul_is_commutative(w, n);
    assert((n + 1) * w == n * w + w) by (nonlinear_arith);
    lemma_part_inside(out_dim, s);
}

/// The packed form is used where its weights were read, every part starts at a
/// block, and biases were found for all projections or for none; its outputs
/// are queries, keys and values, in that order.
pub proof fn law_packed_projections_settle(
    p: PackedQkv,
    weights: bool,
    biases: (bool, bool, bool),
    r: Result<bool, AttentionError>,
    w: [usize; 3],
)
    requires
        call_ensures(PackedQkv::settles, (&p, weights, biases), r),
        call_ensures(PackedQkv::output_splits, (&p,), w),
    ensures
        r is Err <==> !weights && p.block is None,
        r matches Ok(b) ==> (b <==> weights && p.aligned && (p.q.bias is None || (biases.0 == biases.1 && biases.1 == biases.2))),
        w@.len() == 3 && w@[0] == p.q.rows && w@[1] == p.k.rows && w@[2] == p.v.rows,
{
}

/// Three projections: queries and keys quantized at load time as asked for,
/// values always to eight bits; each cut over the ranks as its heads are.
pub proof fn law_separate_projections(
    vb: VarBuilderX,
    size: QkvSize,
    cfg: Option<QuantConfig>,
    quant: Option<String>,
    k_eq_v: bool,
    r: Result<SeparateQkv, Fp8Error>,
    eight: String,
)
    requires
        size.wf(vb.checkpoint.gguf, cfg),
        call_ensures(SeparateQkv::load, (&vb, size, &cfg, &quant, k_eq_v), r),
        r is Ok,
        eight@ == "q8_0"@,
    ensures
        ({
            let l = r->Ok_0;
            &&& crate::parallel::cut_of(l.q_proj.linear) == Some(size.q_shard)
            &&& crate::parallel::cut_of(l.k_proj.linear) == Some(size.kv_shard)
            &&& crate::parallel::cut_of(l.v_proj.linear) == Some(size.kv_shard)
            &&& !vb.checkpoint.gguf && cfg is None && quant is Some ==> {
                &&& l.q_proj.linear matches crate::linear::LinearX::InSitu { linear, quant: q } && q@ == quant->0@ && linear.weight.shape@
                    == seq![size.q_out_dim, size.hidden_size]
                &&& l.k_proj.linear matches crate::linear::LinearX::InSitu { linear, quant: q } && q@ == quant->0@ && linear.weight.shape@
                    == seq![size.kv_out_dim, size.hidden_size]
                &&& l.v_proj.linear matches crate::linear::LinearX::InSitu { linear, quant: q } && q@ == "q8_0"@ && linear.weight.shape@
                    == seq![size.kv_out_dim, size.hidden_size]
            }
        }),
{
    let l = r->Ok_0;
    if quant is Some && cfg is None {
        assert(value_quant(Some(eight), cfg, quant));
    } else {
        assert(value_quant(None, cfg, quant));
    }
}

/// Norms of each head come before norms of all heads together, and both need
/// queries and keys.
pub proof fn law_norms_come_in_pairs(q: bool, k: bool, q_full: bool, k_full: bool, r: QkNormUse)
    requires
        call_ensures(QkNorms::settle, (q, k, q_full, k_full), r),
    ensures
        r == QkNormUse::Heads <==> q && k,
        r == QkNormUse::FullDim <==> !(q && k) && q_full && k_full,
        r == QkNormUse::Unused <==> !(q && k) && !(q_full && k_full),
{
}

/// What a planned layer is: queries of the rank's share of all heads, keys and
/// values of its share of theirs, an output projection from all heads to the
/// hidden size, norms of a head's width or of all heads, the window that it is
/// given, and single precision queries and keys where something asks for them.
pub proof fn law_planned_attention(
    vb: VarBuilderX,
    comm: Comm,
    cfg: Config,
    hs: HeadSize,
    window: Option<usize>,
    dtype: DType,
    k_eq_v: bool,
    l2: bool,
    r: Result<Attention, AttentionError>,
    shape: AttnShape,
    heads: Result<(usize, Shard), KvShardError>,
)
    requires
        Attention::wf(cfg, hs, vb.checkpoint.gguf, comm, dtype),
        call_ensures(Attention::new_with_options, (&vb, &comm, &cfg, hs, window, dtype, k_eq_v, l2), r),
        call_ensures(AttnShape::of_config, (&cfg, hs, vb.checkpoint.gguf), shape),
        call_ensures(kv_head_shard, (hs.num_kv_heads, comm.rank, comm.world_size), heads),
    ensures
        heads matches Err(e) ==> r == Err::<Attention, AttentionError>(AttentionError::KvHeads(e)),
        r matches Ok(a) ==> {
            &&& a.shape == shape
            &&& a.num_heads * comm.world_size <= cfg.num_attention_heads < (a.num_heads + 1) * comm.world_size
            &&& a.num_kv_heads == heads->Ok_0.0
            &&& a.sliding_window == window
            &&& a.dtype == dtype
            &&& a.is_qvar_builder == vb.checkpoint.gguf
            &&& a.qk_l2_norm == l2
            &&& a.promote_qk_to_f32 <==> vb.checkpoint.gguf || cfg.higher_precision_required || l2
            &&& a.fp8_keys == cfg.fp8_keys
            &&& crate::parallel::cut_of(a.o_proj.linear) matches Some(s) ==> s.dim == 1 && s.rank == comm.rank && s.world_size == comm.world_size
            &&& a.o_proj.linear matches crate::linear::LinearX::Linear(o) ==> o.weight.shape@ == seq![cfg.hidden_size, shape.width]
            &&& a.o_proj.all_reduce <==> comm.world_size > 1
            &&& a.qkv_proj matches QkvProjection::Packed { packed, .. } ==> {
                &&& packed.q.weight.shape@ == seq![shape.q_out_dim, cfg.hidden_size]
                &&& packed.k.weight.shape@ == seq![shape.kv_out_dim, cfg.hidden_size]
                &&& packed.v.weight.shape@ == seq![shape.kv_out_dim, cfg.hidden_size]
                &&& packed.q.weight.shard == (Shard { dim: 0, rank: comm.rank, world_size: comm.world_size })
                &&& packed.k.weight.shard == heads->Ok_0.1
            }
            &&& a.qkv_proj is Packed ==> !vb.checkpoint.gguf && cfg.quant is None
            &&& !vb.checkpoint.gguf && cfg.quant is None && cfg.quantization_config is None ==> a.qkv_proj is Packed
        },
{
    if r is Ok {
        lemma_equal_parts(cfg.num_attention_heads, Shard { dim: 0, rank: comm.rank, world_size: comm.world_size });
    }
}

/// A pass: queries and keys of the rank's heads, gates behind queries in each
/// head, single precision where asked for and not there already, norms in the
/// shape that the norms in use need, output in the type of the input unless the
/// file is block-quantized. Packed projections must give three matrices, and
/// gated ones twice the width.
pub proof fn law_attention_passes(
    a: Attention,
    seq_len: usize,
    outputs: Option<usize>,
    q_dim: usize,
    t: DType,
    norms: QkNormUse,
    r: Result<AttnPass, AttentionError>,
)
    requires
        a.pass_fits(seq_len),
        call_ensures(Attention::forward_ext, (&a, seq_len, outputs, q_dim, t, norms), r),
    ensures
        r is Err <==> (outputs matches Some(n) && n != 3) || (a.shape.output_gate && q_dim != 2 * (a.num_heads * a.shape.head_dim)),
        r matches Ok(p) ==> {
            let d = a.shape.head_dim;
            &&& p.q_shape.0 == seq_len && p.q_shape.1 == a.num_heads && p.q_shape.2 == d
            &&& p.kv_shape.0 == seq_len && p.kv_shape.1 == a.num_kv_heads && p.kv_shape.2 == d
            &&& p.gate is Some <==> a.shape.output_gate
            &&& p.gate matches Some(g) ==> g.query.start == 0 && g.query.len == d && g.gate.start == d && g.gate.len == d
            &&& p.promote <==> a.promote_qk_to_f32 && t != DType::F32
            &&& p.norm is None <==> norms == QkNormUse::Unused
            &&& norms == QkNormUse::FullDim ==> (p.norm matches Some(NormShapes::FullDim { q, k }) && q.0 == seq_len && q.1 == a.num_heads * d
                && k.0 == seq_len && k.1 == a.num_kv_heads * d)
            &&& norms == QkNormUse::Heads && a.shape.no_per_head_norm ==> p.norm == Some(NormShapes::Whole)
            &&& norms == QkNormUse::Heads && !a.shape.no_per_head_norm ==> (p.norm matches Some(NormShapes::Rows { q, k }) && q.0 == seq_len
                * a.num_heads && q.1 == d && k.0 == seq_len * a.num_kv_heads && k.1 == d)
            &&& p.sliding_window == a.sliding_window && p.fp8_keys == a.fp8_keys && p.l2_norm == a.qk_l2_norm && p.attend_as == a.dtype
            &&& p.norm_values == a.shape.norm_values
            &&& p.cast_output <==> !a.is_qvar_builder
        },
{
    assert(0 <= a.num_heads * a.shape.head_dim && 0 <= a.num_kv_heads * a.shape.head_dim && 0 <= seq_len * a.num_heads && 0 <= seq_len
        * a.num_kv_heads) by (nonlinear_arith);
}

/// Queries without a cache are scored 1024 at a time: chunks follow each other
/// from the first query to the last, all full but the last.
pub proof fn law_queries_are_scored_in_chunks(a: NaiveAttention, batch: usize, seq_len: usize, r: NaivePass, c: int)
    requires
        seq_len + 1024 <= usize::MAX,
        call_ensures(NaiveAttention::forward, (&a, batch, seq_len), r),
    ensures
        r.heads.0 == batch && r.heads.1 == seq_len && r.heads.2 == a.num_heads && r.heads.3 == a.head_dim,
        r.chunks@.len() == 0 <==> seq_len == 0,
        0 <= c < r.chunks@.len() ==> 0 < r.chunks@[c].len <= 1024,
        r.chunks@.len() > 0 ==> r.chunks@[0].start == 0,
        0 <= c && c + 1 < r.chunks@.len() ==> r.chunks@[c].len == 1024 && r.chunks@[c + 1].start == r.chunks@[c].start + 1024,
        r.chunks@.len() > 0 ==> r.chunks@.last().start + r.chunks@.last().len == seq_len,
{
    let n = r.chunks@.len() as int;
    assert(n == (seq_len + 1023) / 1024);
    if n > 0 {
        assert(r.chunks@[n - 1] == query_chunk(seq_len, n - 1));
        assert(r.chunks@[0] == query_chunk(seq_len, 0));
    }
}

/// Without a cache all four projections are square, of the hidden size, with
/// biases; a name for the last one counts only outside block-quantized files.
pub proof fn law_plain_attention_is_square(
    vb: VarBuilderX,
    num_heads: usize,
    hidden: usize,
    head_dim: usize,
    dtype: DType,
    o_name: Option<&str>,
    r: NaiveAttention,
)
    requires
        !vb.checkpoint.gguf,
        call_ensures(NaiveAttention::new, (&vb, num_heads, hidden, head_dim, dtype, o_name), r),
    ensures
        r.num_heads == num_heads && r.head_dim == head_dim,
        r.q_proj.linear matches crate::linear::LinearX::Linear(l) && l.weight.shape@ == seq![hidden, hidden] && l.bias is Some && l.weight.path@
            == vb.child("q_proj"@).spec_path("weight"@),
        r.k_proj.linear matches crate::linear::LinearX::Linear(l) && l.weight.shape@ == seq![hidden, hidden] && l.bias is Some && l.weight.path@
            == vb.child("k_proj"@).spec_path("weight"@),
        r.v_proj.linear matches crate::linear::LinearX::Linear(l) && l.weight.shape@ == seq![hidden, hidden] && l.bias is Some && l.weight.path@
            == vb.child("v_proj"@).spec_path("weight"@),
        r.o_proj.linear matches crate::linear::LinearX::Linear(l) && l.weight.shape@ == seq![hidden, hidden] && l.bias is Some,
        o_name is None ==> (r.o_proj.linear matches crate::linear::LinearX::Linear(l) && l.weight.path@ == vb.child("o_proj"@).spec_path(
            "weight"@,
        )),
        o_name matches Some(n) ==> (r.o_proj.linear matches crate::linear::LinearX::Linear(l) && l.weight.path@ == vb.child(n@).spec_path(
            "weight"@,
        )),
{
}

} // verus!
