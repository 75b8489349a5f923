//! The attention of DeepSeek V4: one key-value head, and an output projection
//! in groups.

use crate::checkpoint::{dims1, DType, TensorRead, VarBuilderX};
use crate::config::{Config, QuantConfig};
use crate::distributed::{shard, Comm, Shard, Span};
use crate::json::{as_size, find, kind_at, size_in, JsonKind};
use crate::linear::{
    can_plan, fp8_scales_exist, fp8_unplannable, is_float, linear_b_x, plannable, Fp8Error, LinearSize, LinearX,
};
use crate::math::mul_fits;
use crate::merged::scale_block;
use crate::others::{rms_norm, NormX};
use crate::parallel::{
    column_size, fp8_refusal, full_size, row_size, ReplicatedLinear, TensorParallelColumnLinear, TensorParallelRowLinear,
};
use vstd::arithmetic::div_mod::*;
use vstd::arithmetic::mul::*;
use vstd::prelude::*;

verus! {

/// An attention layer.
#[derive(Debug, Clone, Copy, PartialEq, Eq, Structural)]
pub struct MlaV4Config {
    pub hidden_size: usize,
    pub num_attention_heads: usize,
    pub num_key_value_heads: usize,
    pub head_dim: usize,
    pub q_lora_rank: usize,
    pub qk_rope_head_dim: usize,
    pub o_groups: usize,
    pub o_lora_rank: usize,
    pub attention_bias: bool,
}

/// What a configuration file holds under the keys of the layer.
#[derive(Debug, Clone, Copy)]
pub struct MlaV4Keys {
    pub head_dim: Option<JsonKind>,
    pub q_lora_rank: Option<JsonKind>,
    pub qk_rope_head_dim: Option<JsonKind>,
    pub o_groups: Option<JsonKind>,
    pub o_lora_rank: Option<JsonKind>,
}

impl MlaV4Keys {
    /// The keys of an optional configuration file.
    pub open spec fn of(text: Option<String>) -> Self {
        MlaV4Keys {
            head_dim: kind_at(text, "/head_dim"@),
            q_lora_rank: kind_at(text, "/q_lora_rank"@),
            qk_rope_head_dim: kind_at(text, "/qk_rope_head_dim"@),
            o_groups: kind_at(text, "/o_groups"@),
            o_lora_rank: kind_at(text, "/o_lora_rank"@),
        }
    }

    pub fn read(text: &Option<String>) -> (r: Self)
        ensures
            r == Self::of(*text),
    {
        MlaV4Keys {
            head_dim: find(text, "/head_dim"),
            q_lora_rank: find(text, "/q_lora_rank"),
            qk_rope_head_dim: find(text, "/qk_rope_head_dim"),
            o_groups: find(text, "/o_groups"),
            o_lora_rank: find(text, "/o_lora_rank"),
        }
    }
}

impl MlaV4Config {
    /// The layer of a configuration with these keys.
    pub open spec fn of(cfg: Config, k: MlaV4Keys) -> Self {
        MlaV4Config {
            hidden_size: cfg.hidden_size,
            num_attention_heads: cfg.num_attention_heads,
            num_key_value_heads: cfg.num_key_value_heads,
            head_dim: size_in(k.head_dim, 512),
            q_lora_rank: size_in(k.q_lora_rank, 1024),
            qk_rope_head_dim: size_in(k.qk_rope_head_dim, 64),
            o_groups: size_in(k.o_groups, 8),
            o_lora_rank: size_in(k.o_lora_rank, 1024),
            attention_bias: cfg.attention_bias == Some(true),
        }
    }

    pub fn from_keys(cfg: &Config, k: &MlaV4Keys) -> (r: Self)
        ensures
            r == Self::of(*cfg, *k),
    {
        MlaV4Config {
            hidden_size: cfg.hidden_size,
            num_attention_heads: cfg.num_attention_heads,
            num_key_value_heads: cfg.num_key_value_heads,
            head_dim: as_size(k.head_dim, 512),
            q_lora_rank: as_size(k.q_lora_rank, 1024),
            qk_rope_head_dim: as_size(k.qk_rope_head_dim, 64),
            o_groups: as_size(k.o_groups, 8),
            o_lora_rank: as_size(k.o_lora_rank, 1024),
            attention_bias: match cfg.attention_bias { Some(b) => b, None => false },
        }
    }

    pub fn from_config(config: &Config) -> (r: Self)
        ensures
            r == Self::of(*config, MlaV4Keys::of(config.extra_config_json)),
    {
        let keys = MlaV4Keys::read(&config.extra_config_json);
        Self::from_keys(config, &keys)
    }

    /// Inputs of one output group.
    pub open spec fn group_dim(self) -> int {
        (self.num_attention_heads * self.head_dim) / self.o_groups as int
    }

    pub open spec fn wo_a_size(self, comm: Comm, dtype: DType) -> LinearSize {
        column_size(self.group_dim() as usize, (self.o_groups * self.o_lora_rank) as usize, false, comm, dtype)
    }

    /// Whether a layer of this size can be planned.
    pub open spec fn wf(self, comm: Comm, gguf: bool, q: Option<QuantConfig>, dtype: DType) -> bool {
        let h = self.hidden_size;
        &&& comm.wf()
        &&& self.o_groups > 0
        &&& self.qk_rope_head_dim <= self.head_dim
        &&& self.num_attention_heads * self.head_dim <= usize::MAX
        &&& self.o_groups * self.o_lora_rank <= usize::MAX
        &&& plannable(full_size(h, self.q_lora_rank, self.attention_bias, dtype), gguf, q)
        &&& plannable(column_size(self.q_lora_rank, (self.num_attention_heads * self.head_dim) as usize, false, comm, dtype), gguf, q)
        &&& plannable(full_size(h, self.head_dim, false, dtype), gguf, q)
        &&& plannable(self.wo_a_size(comm, dtype), gguf, q)
        &&& plannable(row_size((self.o_groups * self.o_lora_rank) as usize, h, comm, dtype), gguf, q)
    }
}

impl MlaV4Config {
    /// Whether a layer of this size can be planned.
    pub fn can_plan(&self, comm: &Comm, gguf: bool, q: &Option<QuantConfig>, dtype: DType) -> (r: bool)
        ensures
            r == self.wf(*comm, gguf, *q, dtype),
    {
        let ws: usize = comm.world_size();
        if comm.rank() >= ws || self.o_groups == 0 || self.qk_rope_head_dim > self.head_dim
            || !mul_fits(self.num_attention_heads, self.head_dim) || !mul_fits(self.o_groups, self.o_lora_rank) {
            return false;
        }
        let h: usize = self.hidden_size;
        let width: usize = self.num_attention_heads * self.head_dim;
        let out: usize = self.o_groups * self.o_lora_rank;
        let (rows, cols) = (shard(0, comm.rank(), ws), shard(1, comm.rank(), ws));
        let whole = Shard::default();
        let wq_a = LinearSize { in_dim: h, out_dim: self.q_lora_rank, shard: whole, bias: self.attention_bias, dtype };
        let wq_b = LinearSize { in_dim: self.q_lora_rank, out_dim: width, shard: rows, bias: false, dtype };
        let wkv = LinearSize { in_dim: h, out_dim: self.head_dim, shard: whole, bias: false, dtype };
        let wo_a = LinearSize { in_dim: width / self.o_groups, out_dim: out, shard: rows, bias: false, dtype };
        let wo_b = LinearSize { in_dim: out, out_dim: h, shard: cols, bias: false, dtype };
        can_plan(wq_a, gguf, q) && can_plan(wq_b, gguf, q) && can_plan(wkv, gguf, q) && can_plan(wo_a, gguf, q)
            && can_plan(wo_b, gguf, q)
    }
}

/// Why a layer cannot be planned or run.
#[derive(Debug, Clone, Copy, PartialEq, Eq, Structural)]
pub enum V4AttnError {
    Heads { heads: usize, world_size: usize },
    Groups { groups: usize, world_size: usize },
    Fp8(Fp8Error),
    /// FP8 output weights are not whole 128 by 128 blocks.
    Unaligned { out_dim: usize, in_dim: usize },
    /// The output projection cannot be done in groups in its format.
    UnsupportedOutput,
    NoAttnSink,
}

/// Blocks of an FP8 weight that is unpacked: rows and columns of blocks.
pub open spec fn wo_a_blocks(out_dim: usize, in_dim: usize, by: usize, bx: usize) -> Result<(usize, usize), V4AttnError> {
    if by != 128 || bx != 128 || out_dim % 128 != 0 || in_dim % 128 != 0 {
        Err(V4AttnError::Unaligned { out_dim, in_dim })
    } else {
        Ok((out_dim / 128, in_dim / 128))
    }
}

/// Whether the scope asks for an FP8 layer.
pub open spec fn asks_fp8(vb: &VarBuilderX, cfg: Option<QuantConfig>) -> bool {
    &&& !vb.checkpoint.gguf
    &&& cfg matches Some(c)
    &&& c.quant_method@ == "fp8"@
    &&& !c.skips_fp8(vb.prefix@)
    &&& fp8_scales_exist(vb) || !is_float(vb.checkpoint.dtype)
}

/// The attention layer of one rank.
pub struct MlaV4Attention {
    pub wq_a: ReplicatedLinear,
    pub q_norm: NormX,
    pub wq_b: TensorParallelColumnLinear,
    pub wkv: ReplicatedLinear,
    pub kv_norm: NormX,
    pub wo_a: LinearX,
    pub wo_b: TensorParallelRowLinear,
    /// Read where it exists.
    pub attn_sink: TensorRead,
    pub num_heads: usize,
    pub head_dim: usize,
    pub qk_rope_head_dim: usize,
    pub qk_nope_head_dim: usize,
    pub o_groups: usize,
    pub o_lora_rank: usize,
    pub per_group_dim: usize,
    pub dtype: DType,
}

/// Shapes of a grouped output projection.
#[derive(Debug, Clone, Copy, PartialEq, Eq)]
pub struct GroupedOutput {
    /// Tokens, groups, inputs of a group; the first two are swapped.
    pub grouped: (usize, usize, usize),
    /// Groups, outputs of a group, inputs of a group.
    pub weight: (usize, usize, usize),
    pub output: (usize, usize),
}

/// How sparse attention is laid out.
#[derive(Debug, Clone, Copy, PartialEq, Eq)]
pub struct SparsePass {
    pub q_shape: (usize, usize, usize),
    /// Elements of a head that are not rotated, and those that are.
    pub nope: Span,
    pub rope: Span,
}

impl MlaV4Attention {
    /// Blocks of rows and columns in which an FP8 weight is unpacked.
    pub fn materialize_wo_a_bf16(out_dim: usize, in_dim: usize, by: usize, bx: usize) -> (r: Result<(usize, usize), V4AttnError>)
        ensures
            r == wo_a_blocks(out_dim, in_dim, by, bx),
    {
        if by != 128 || bx != 128 || out_dim % 128 != 0 || in_dim % 128 != 0 {
            return Err(V4AttnError::Unaligned { out_dim, in_dim });
        }
        Ok((out_dim / 128, in_dim / 128))
    }

    /// Outputs of the grouped projection that a rank holds.
    pub open spec fn local_out(cfg: MlaV4Config, comm: Comm) -> usize {
        ((cfg.o_groups * cfg.o_lora_rank) as usize) / comm.world_size
    }

    /// Whether the output weight in the scope is FP8 and cannot be unpacked.
    pub open spec fn unaligned(vb: &VarBuilderX, cfg: MlaV4Config, comm: Comm, q: Option<QuantConfig>) -> bool {
        let block = scale_block(q);
        asks_fp8(vb, q) && wo_a_blocks(Self::local_out(cfg, comm), cfg.group_dim() as usize, block[0], block[1]) is Err
    }

    /// Why the layer cannot be planned, if so.
    pub open spec fn refusal(vb: &VarBuilderX, comm: Comm, cfg: MlaV4Config, config: Config) -> Option<V4AttnError> {
        let q = config.quantization_config;
        let ws = comm.world_size;
        if cfg.num_attention_heads % ws != 0 {
            Some(V4AttnError::Heads { heads: cfg.num_attention_heads, world_size: ws })
        } else if cfg.o_groups % ws != 0 {
            Some(V4AttnError::Groups { groups: cfg.o_groups, world_size: ws })
        } else if fp8_unplannable(&vb.child("wq_a"@), q) || fp8_unplannable(&vb.child("wq_b"@), q)
            || fp8_unplannable(&vb.child("wkv"@), q) || fp8_unplannable(&vb.child("wo_a"@), q) {
            Some(V4AttnError::Fp8(fp8_refusal(q)))
        } else if Self::unaligned(&vb.child("wo_a"@), cfg, comm, q) {
            Some(V4AttnError::Unaligned { out_dim: Self::local_out(cfg, comm), in_dim: cfg.group_dim() as usize })
        } else if fp8_unplannable(&vb.child("wo_b"@), q) {
            Some(V4AttnError::Fp8(fp8_refusal(q)))
        } else {
            None
        }
    }

    /// Whether this is the layer in the scope.
    pub open spec fn is_planned(&self, vb: &VarBuilderX, comm: Comm, cfg: MlaV4Config, config: Config, dtype: DType) -> bool {
        let q = config.quantization_config;
        let ws = comm.world_size;
        let norm = if vb.checkpoint.gguf || config.higher_precision_required { DType::F32 } else { dtype };
        let h = cfg.hidden_size;
        let width = (cfg.num_attention_heads * cfg.head_dim) as usize;
        &&& self.wq_a.linear.is_layer(&vb.child("wq_a"@), full_size(h, cfg.q_lora_rank, cfg.attention_bias, dtype), q, config.quant)
        &&& self.q_norm.is_rms(&vb.child("q_norm"@), cfg.q_lora_rank, norm, false, Shard::whole())
        &&& self.wq_b.linear.is_layer(&vb.child("wq_b"@), column_size(cfg.q_lora_rank, width, false, comm, dtype), q, config.quant)
        &&& self.wkv.linear.is_layer(&vb.child("wkv"@), full_size(h, cfg.head_dim, false, dtype), q, config.quant)
        &&& self.kv_norm.is_rms(&vb.child("kv_norm"@), cfg.head_dim, norm, false, Shard::whole())
        &&& self.wo_a.is_layer(&vb.child("wo_a"@), cfg.wo_a_size(comm, dtype), q, config.quant)
        &&& TensorParallelRowLinear::planned(
            Ok(self.wo_b), &vb.child("wo_b"@), row_size((cfg.o_groups * cfg.o_lora_rank) as usize, h, comm, dtype), comm, q,
            config.quant)
        &&& self.attn_sink.reads(
            vb.spec_path("attn_sink"@), seq![cfg.num_attention_heads], Shard { dim: 0, rank: comm.rank, world_size: ws },
            DType::F32)
        &&& self.num_heads == cfg.num_attention_heads / ws
        &&& self.head_dim == cfg.head_dim
        &&& self.qk_rope_head_dim == cfg.qk_rope_head_dim
        &&& self.qk_nope_head_dim == cfg.head_dim - cfg.qk_rope_head_dim
        &&& self.o_groups == cfg.o_groups / ws
        &&& self.o_lora_rank == cfg.o_lora_rank
        &&& self.per_group_dim == cfg.group_dim()
        &&& self.dtype == dtype
    }

    pub fn new(vb: &VarBuilderX, comm: &Comm, mla_cfg: &MlaV4Config, config: &Config, dtype: DType) -> (r: Result<Self, V4AttnError>)
        requires
            mla_cfg.wf(*comm, vb.checkpoint.gguf, config.quantization_config, dtype),
        ensures
            match Self::refusal(vb, *comm, *mla_cfg, *config) {
                Some(e) => r == Err::<Self, V4AttnError>(e),
                None => r matches Ok(a) && a.is_planned(vb, *comm, *mla_cfg, *config, dtype),
            },
    {
        let ws: usize = comm.world_size();
        let heads: usize = mla_cfg.num_attention_heads;
        if heads % ws != 0 {
            return Err(V4AttnError::Heads { heads, world_size: ws });
        }
        if mla_cfg.o_groups % ws != 0 {
            return Err(V4AttnError::Groups { groups: mla_cfg.o_groups, world_size: ws });
        }
        let q = &config.quantization_config;
        let h: usize = mla_cfg.hidden_size;
        let norm = if vb.is_qvar_builder() || config.higher_precision_required { DType::F32 } else { dtype };
        let part = shard(0, comm.rank(), ws);
        let wq_a = match ReplicatedLinear::load_below(
            vb, "wq_a", h, mla_cfg.q_lora_rank, mla_cfg.attention_bias, q, &config.quant, dtype,
        ) {
            Ok(l) => l,
            Err(e) => return Err(V4AttnError::Fp8(e)),
        };
        let width: usize = heads * mla_cfg.head_dim;
        let qb_size = LinearSize { in_dim: mla_cfg.q_lora_rank, out_dim: width, shard: part, bias: false, dtype };
        let wq_b = match TensorParallelColumnLinear::load_below(vb, "wq_b", qb_size, q, &config.quant) {
            Ok(l) => l,
            Err(e) => return Err(V4AttnError::Fp8(e)),
        };
        let wkv = match ReplicatedLinear::load_below(vb, "wkv", h, mla_cfg.head_dim, false, q, &config.quant, dtype) {
            Ok(l) => l,
            Err(e) => return Err(V4AttnError::Fp8(e)),
        };
        let (qn, kvn, oa) = (vb.pp("q_norm"), vb.pp("kv_norm"), vb.pp("wo_a"));
        let per_group_dim: usize = width / mla_cfg.o_groups;
        let out: usize = mla_cfg.o_groups * mla_cfg.o_lora_rank;
        let oa_size = LinearSize { in_dim: per_group_dim, out_dim: out, shard: part, bias: false, dtype };
        let wo_a = match linear_b_x(&oa, oa_size, q, &config.quant) {
            Ok(l) => l,
            Err(e) => return Err(V4AttnError::Fp8(e)),
        };
        assert(wo_a.is_layer(&vb.child("wo_a"@), mla_cfg.wo_a_size(*comm, dtype), *q, config.quant));
        match &wo_a {
            LinearX::LnFp8(ln) => match Self::materialize_wo_a_bf16(out / ws, per_group_dim, ln.by, ln.bx) {
                Ok(_) => {},
                Err(e) => return Err(e),
            },
            _ => {},
        }
        let wo_b = match TensorParallelRowLinear::load_below(vb, "wo_b", out, h, comm, q, &config.quant, dtype) {
            Ok(l) => l,
            Err(e) => return Err(V4AttnError::Fp8(e)),
        };
        Ok(
            MlaV4Attention {
                wq_a,
                q_norm: rms_norm(mla_cfg.q_lora_rank, &qn, norm, false),
                wq_b,
                wkv,
                kv_norm: rms_norm(mla_cfg.head_dim, &kvn, norm, false),
                wo_a,
                wo_b,
                attn_sink: vb.read("attn_sink", dims1(heads), part, DType::F32),
                num_heads: heads / ws,
                head_dim: mla_cfg.head_dim,
                qk_rope_head_dim: mla_cfg.qk_rope_head_dim,
                qk_nope_head_dim: mla_cfg.head_dim - mla_cfg.qk_rope_head_dim,
                o_groups: mla_cfg.o_groups / ws,
                o_lora_rank: mla_cfg.o_lora_rank,
                per_group_dim,
                dtype,
            },
        )
    }

    /// Whether the output projection is a plain matrix once FP8 weights are
    /// unpacked.
    pub open spec fn groupable(&self) -> bool {
        self.wo_a is Linear || self.wo_a is LnFp8 || self.wo_a is LnFp8OrLinear
    }

    /// Whether the output can be projected by groups.
    pub fn can_group(&self) -> (r: bool)
        ensures
            r == self.groupable(),
    {
        match &self.wo_a {
            LinearX::Linear(_) => true,
            LinearX::LnFp8(_) => true,
            LinearX::LnFp8OrLinear { .. } => true,
            _ => false,
        }
    }

    /// The shapes of the output projection of `seq_len` tokens.
    pub fn project_output(&self, seq_len: usize) -> (r: Result<GroupedOutput, V4AttnError>)
        requires
            self.o_groups * self.o_lora_rank <= usize::MAX,
        ensures
            self.groupable() ==> r == Ok::<GroupedOutput, V4AttnError>(GroupedOutput {
                grouped: (seq_len, self.o_groups, self.per_group_dim),
                weight: (self.o_groups, self.o_lora_rank, self.per_group_dim),
                output: (seq_len, (self.o_groups * self.o_lora_rank) as usize),
            }),
            !self.groupable() ==> r == Err::<GroupedOutput, V4AttnError>(V4AttnError::UnsupportedOutput),
    {
        if !self.can_group() {
            return Err(V4AttnError::UnsupportedOutput);
        }
        Ok(
            GroupedOutput {
                grouped: (seq_len, self.o_groups, self.per_group_dim),
                weight: (self.o_groups, self.o_lora_rank, self.per_group_dim),
                output: (seq_len, self.o_groups * self.o_lora_rank),
            },
        )
    }

    /// Lays out sparse attention of `seq_len` queries; the sink must have
    /// been read.
    pub fn sparse_attn(&self, seq_len: usize, sink_read: bool) -> (r: Result<SparsePass, V4AttnError>)
        ensures
            sink_read ==> r == Ok::<SparsePass, V4AttnError>(SparsePass {
                q_shape: (seq_len, self.num_heads, self.head_dim),
                nope: Span { start: 0, len: self.qk_nope_head_dim },
                rope: Span { start: self.qk_nope_head_dim, len: self.qk_rope_head_dim },
            }),
            !sink_read ==> r == Err::<SparsePass, V4AttnError>(V4AttnError::NoAttnSink),
    {
        if !sink_read {
            return Err(V4AttnError::NoAttnSink);
        }
        Ok(
            SparsePass {
                q_shape: (seq_len, self.num_heads, self.head_dim),
                nope: Span { start: 0, len: self.qk_nope_head_dim },
                rope: Span { start: self.qk_nope_head_dim, len: self.qk_rope_head_dim },
            },
        )
    }

    /// The parts of a key row that are cached: not rotated and rotated.
    pub fn cache_prefill_kv(&self) -> (r: (Span, Span))
        ensures
            r.0 == (Span { start: 0, len: self.qk_nope_head_dim }),
            r.1 == (Span { start: self.qk_nope_head_dim, len: self.qk_rope_head_dim }),
    {
        (Span { start: 0, len: self.qk_nope_head_dim }, Span { start: self.qk_nope_head_dim, len: self.qk_rope_head_dim })
    }

    pub fn get_num_heads(&self) -> (r: usize)
        ensures
            r == self.num_heads,
    {
        self.num_heads
    }

    pub fn get_head_dim(&self) -> (r: usize)
        ensures
            r == self.head_dim,
    {
        self.head_dim
    }

    pub fn get_qk_rope_head_dim(&self) -> (r: usize)
        ensures
            r == self.qk_rope_head_dim,
    {
        self.qk_rope_head_dim
    }
}

/// The groups of a rank take the whole output of its heads, where the groups
/// divide all heads.
pub proof fn law_groups_cover_local_heads(cfg: MlaV4Config, comm: Comm)
    requires
        comm.wf(),
        cfg.o_groups > 0,
        cfg.num_attention_heads % comm.world_size == 0,
        cfg.o_groups % comm.world_size == 0,
        (cfg.num_attention_heads * cfg.head_dim) % (cfg.o_groups as int) == 0,
    ensures
        (cfg.o_groups / comm.world_size) * cfg.group_dim() == (cfg.num_attention_heads / comm.world_size) * cfg.head_dim,
{
    let (ws, g, n, d) = (comm.world_size as int, cfg.o_groups as int, cfg.num_attention_heads as int, cfg.head_dim as int);
    let (gl, nl, dim) = (g / ws, n / ws, cfg.group_dim());
    crate::math::lemma_div_exact(g, ws);
    crate::math::lemma_div_exact(n, ws);
    crate::math::lemma_div_exact(n * d, g);
    assert(ws * (gl * dim) == ws * (nl * d)) by (nonlinear_arith)
        requires
            gl * ws == g,
            nl * ws == n,
            dim * g == n * d,
    ;
    lemma_mul_equality_converse(ws, gl * dim, nl * d);
}

/// Sizes are what a file says under their own keys, or the defaults.
pub proof fn law_sizes_have_defaults(cfg: Config, r: MlaV4Config)
    requires
        call_ensures(MlaV4Config::from_config, (&cfg,), r),
    ensures
        ({
            let text = cfg.extra_config_json;
            &&& r.hidden_size == cfg.hidden_size && r.num_attention_heads == cfg.num_attention_heads && r.num_key_value_heads
                == cfg.num_key_value_heads
            &&& r.attention_bias <==> cfg.attention_bias is Some && cfg.attention_bias->0
            &&& kind_at(text, "/head_dim"@) matches Some(JsonKind::Number(Some(n))) ==> (n <= usize::MAX ==> r.head_dim == n)
            &&& !(kind_at(text, "/head_dim"@) matches Some(JsonKind::Number(Some(_)))) ==> r.head_dim == 512
            &&& kind_at(text, "/q_lora_rank"@) matches Some(JsonKind::Number(Some(n))) ==> (n <= usize::MAX ==> r.q_lora_rank == n)
            &&& !(kind_at(text, "/q_lora_rank"@) matches Some(JsonKind::Number(Some(_)))) ==> r.q_lora_rank == 1024
            &&& kind_at(text, "/qk_rope_head_dim"@) matches Some(JsonKind::Number(Some(n))) ==> (n <= usize::MAX ==> r.qk_rope_head_dim == n)
            &&& !(kind_at(text, "/qk_rope_head_dim"@) matches Some(JsonKind::Number(Some(_)))) ==> r.qk_rope_head_dim == 64
            &&& kind_at(text, "/o_groups"@) matches Some(JsonKind::Number(Some(n))) ==> (n <= usize::MAX ==> r.o_groups == n)
            &&& !(kind_at(text, "/o_groups"@) matches Some(JsonKind::Number(Some(_)))) ==> r.o_groups == 8
            &&& kind_at(text, "/o_lora_rank"@) matches Some(JsonKind::Number(Some(n))) ==> (n <= usize::MAX ==> r.o_lora_rank == n)
            &&& !(kind_at(text, "/o_lora_rank"@) matches Some(JsonKind::Number(Some(_)))) ==> r.o_lora_rank == 1024
        }),
{
}

/// FP8 weights are unpacked in blocks of 128 rows and columns that make up the
/// whole weight, and in no other way.
pub proof fn law_blocks_make_up_the_weight(
    out_dim: usize,
    in_dim: usize,
    by: usize,
    bx: usize,
    r: Result<(usize, usize), V4AttnError>,
    rows: int,
    cols: int,
)
    requires
        call_ensures(MlaV4Attention::materialize_wo_a_bf16, (out_dim, in_dim, by, bx), r),
    ensures
        r matches Ok((y, x)) ==> by == 128 && bx == 128 && y * by == out_dim && x * bx == in_dim,
        by == 128 && bx == 128 && rows * by == out_dim && cols * bx == in_dim ==> (r matches Ok((y, x)) && y == rows && x == cols),
        r matches Err(e) ==> e == (V4AttnError::Unaligned { out_dim, in_dim }),
{
}

/// Of all ranks each has the same number of heads and of groups, none is left
/// over, and a layer is refused where that cannot be.
pub proof fn law_heads_and_groups_are_shared_out(
    vb: VarBuilderX,
    comm: Comm,
    cfg: MlaV4Config,
    config: Config,
    dtype: DType,
    r: Result<MlaV4Attention, V4AttnError>,
    heads: int,
    groups: int,
)
    requires
        cfg.wf(comm, vb.checkpoint.gguf, config.quantization_config, dtype),
        call_ensures(MlaV4Attention::new, (&vb, &comm, &cfg, &config, dtype), r),
    ensures
        r matches Ok(a) ==> {
            &&& a.num_heads * comm.world_size == cfg.num_attention_heads
            &&& a.o_groups * comm.world_size == cfg.o_groups
            &&& a.qk_nope_head_dim + a.qk_rope_head_dim == cfg.head_dim && a.qk_rope_head_dim == cfg.qk_rope_head_dim
            &&& a.head_dim == cfg.head_dim && a.o_lora_rank == cfg.o_lora_rank && a.dtype == dtype
            &&& a.per_group_dim * cfg.o_groups <= cfg.num_attention_heads * cfg.head_dim < (a.per_group_dim + 1) * cfg.o_groups
        },
        heads * comm.world_size < cfg.num_attention_heads < (heads + 1) * comm.world_size ==> r == Err::<MlaV4Attention, V4AttnError>(
            V4AttnError::Heads { heads: cfg.num_attention_heads, world_size: comm.world_size },
        ),
        heads * comm.world_size == cfg.num_attention_heads && groups * comm.world_size < cfg.o_groups < (groups + 1) * comm.world_size ==> r
            == Err::<MlaV4Attention, V4AttnError>(V4AttnError::Groups { groups: cfg.o_groups, world_size: comm.world_size }),
        heads * comm.world_size == cfg.num_attention_heads && groups * comm.world_size == cfg.o_groups && config.quantization_config is None
            ==> r is Ok,
{
    let (ws, n, g) = (comm.world_size as int, cfg.num_attention_heads as int, cfg.o_groups as int);
    lemma_fundamental_div_mod(n, ws);
    lemma_fundamental_div_mod(g, ws);
    lemma_mul_is_commutative(ws, n / ws);
    lemma_mul_is_commutative(ws, g / ws);
    if heads * ws == n {
        lemma_mod_multiples_basic(heads, ws);
    }
    if heads * ws < n < (heads + 1) * ws && n % ws == 0 {
        lemma_between(heads, n / ws, ws);
    }
    if groups * ws == g {
        lemma_mod_multiples_basic(groups, ws);
    }
    if groups * ws < g < (groups + 1) * ws && g % ws == 0 {
        lemma_between(groups, g / ws, ws);
    }
    let width = n * cfg.head_dim;
    lemma_mul_nonnegative(n, cfg.head_dim as int);
    lemma_fundamental_div_mod(width, g);
    lemma_mod_bound(width, g);
    lemma_div_pos_is_pos(width, g);
    lemma_div_is_ordered_by_denominator(width, 1, g);
    lemma_div_basics(width);
    lemma_mul_is_commutative(g, width / g);
    lemma_mul_is_distributive_add_other_way(g, width / g, 1);
}

proof fn lemma_between(a: int, b: int, ws: int)
    requires
        ws > 0,
        a * ws < b * ws,
    ensures
        (a + 1) * ws <= b * ws,
{
    assert((a + 1) * ws <= b * ws) by (nonlinear_arith)
        requires
            ws > 0,
            a * ws < b * ws,
    ;
}

/// A planned layer of one rank: queries through a low rank, one key head, an
/// output from all heads of a group, and a sink for each head of the rank.
pub proof fn law_planned_attention(
    vb: VarBuilderX,
    comm: Comm,
    cfg: MlaV4Config,
    config: Config,
    dtype: DType,
    r: Result<MlaV4Attention, V4AttnError>,
)
    requires
        cfg.wf(comm, vb.checkpoint.gguf, config.quantization_config, dtype),
        call_ensures(MlaV4Attention::new, (&vb, &comm, &cfg, &config, dtype), r),
        r is Ok,
    ensures
        ({
            let a = r->Ok_0;
            let out = cfg.o_groups * cfg.o_lora_rank;
            &&& a.wq_a.linear matches LinearX::Linear(l) ==> l.weight.shape@ == seq![cfg.q_lora_rank, cfg.hidden_size] && (l.bias is Some
                <==> cfg.attention_bias)
            &&& a.wq_b.linear matches LinearX::Linear(l) ==> l.weight.shape@[0] == cfg.num_attention_heads * cfg.head_dim && l.weight.shape@[1]
                == cfg.q_lora_rank && l.bias is None && l.weight.shard.dim == 0 && l.weight.shard.rank == comm.rank
            &&& a.wkv.linear matches LinearX::Linear(l) ==> l.weight.shape@ == seq![cfg.head_dim, cfg.hidden_size] && l.bias is None
            &&& a.wo_a matches LinearX::Linear(l) ==> l.weight.shape@[0] == out && l.weight.shape@[1] == a.per_group_dim && l.bias is None
                && l.weight.shard.dim == 0 && l.weight.shard.rank == comm.rank
            &&& a.wo_b.linear matches LinearX::Linear(l) ==> l.weight.shape@[0] == cfg.hidden_size && l.weight.shape@[1] == out
                && l.weight.shard.dim == 1 && l.weight.shard.rank == comm.rank
            &&& a.q_norm.weight.shape@ == seq![cfg.q_lora_rank] && a.kv_norm.weight.shape@ == seq![cfg.head_dim]
            &&& a.q_norm.weight.path@ == vb.child("q_norm"@).spec_path("weight"@)
            &&& a.kv_norm.weight.path@ == vb.child("kv_norm"@).spec_path("weight"@)
            &&& vb.checkpoint.gguf || config.higher_precision_required ==> a.q_norm.dtype == DType::F32 && a.kv_norm.dtype == DType::F32
            &&& !vb.checkpoint.gguf && !config.higher_precision_required ==> a.q_norm.dtype == dtype && a.kv_norm.dtype == dtype
            &&& !a.q_norm.plus_one && !a.kv_norm.plus_one && !a.q_norm.centred && !a.kv_norm.centred
            &&& a.attn_sink.path@ == vb.spec_path("attn_sink"@) && a.attn_sink.shape@ == seq![cfg.num_attention_heads]
            &&& a.attn_sink.shard.dim == 0 && a.attn_sink.shard.rank == comm.rank && a.attn_sink.shard.world_size == comm.world_size
            &&& a.attn_sink.dtype == DType::F32
        }),
{
    lemma_mul_nonnegative(cfg.num_attention_heads as int, cfg.head_dim as int);
    lemma_mul_nonnegative(cfg.o_groups as int, cfg.o_lora_rank as int);
}

/// Grouped outputs: every token has each group once, with inputs that fit the
/// weight, and the outputs of all groups side by side. Sparse attention needs
/// the sink, and cuts a head in two parts that cover it, the rotated one last;
/// keys are cached in the same parts.
pub proof fn law_attention_passes(
    a: MlaV4Attention,
    seq_len: usize,
    sink_read: bool,
    out: Result<GroupedOutput, V4AttnError>,
    pass: Result<SparsePass, V4AttnError>,
    parts: (Span, Span),
    at: int,
)
    requires
        a.o_groups * a.o_lora_rank <= usize::MAX,
        a.qk_nope_head_dim + a.qk_rope_head_dim == a.head_dim,
        call_ensures(MlaV4Attention::project_output, (&a, seq_len), out),
        call_ensures(MlaV4Attention::sparse_attn, (&a, seq_len, sink_read), pass),
        call_ensures(MlaV4Attention::cache_prefill_kv, (&a,), parts),
    ensures
        a.wo_a is Linear || a.wo_a is LnFp8 || a.wo_a is LnFp8OrLinear ==> out is Ok,
        a.wo_a is QLinear || a.wo_a is InSitu ==> out == Err::<GroupedOutput, V4AttnError>(V4AttnError::UnsupportedOutput),
        out matches Ok(o) ==> {
            &&& o.grouped.0 == seq_len && o.output.0 == seq_len && o.grouped.1 == a.o_groups
            &&& o.weight.0 == o.grouped.1 && o.weight.2 == o.grouped.2 && o.weight.2 == a.per_group_dim
            &&& o.weight.1 == a.o_lora_rank && o.output.1 == o.weight.0 * o.weight.1
        },
        pass is Ok <==> sink_read,
        !sink_read ==> pass == Err::<SparsePass, V4AttnError>(V4AttnError::NoAttnSink),
        pass matches Ok(p) ==> {
            &&& p.q_shape.0 == seq_len && p.q_shape.1 == a.num_heads && p.q_shape.2 == a.head_dim
            &&& p.nope == parts.0 && p.rope == parts.1
        },
        0 <= at < a.qk_nope_head_dim <==> parts.0.start <= at < parts.0.start + parts.0.len,
        a.qk_nope_head_dim <= at < a.head_dim <==> parts.1.start <= at < parts.1.start + parts.1.len,
        parts.1.len == a.qk_rope_head_dim,
{
    lemma_mul_nonnegative(a.o_groups as int, a.o_lora_rank as int);
}

/// Heads, their widths and the rotated part are those of the layer.
pub proof fn law_attention_sizes(a: MlaV4Attention, heads: usize, width: usize, rotated: usize)
    requires
        call_ensures(MlaV4Attention::get_num_heads, (&a,), heads),
        call_ensures(MlaV4Attention::get_head_dim, (&a,), width),
        call_ensures(MlaV4Attention::get_qk_rope_head_dim, (&a,), rotated),
    ensures
        heads == a.num_heads,
        width == a.head_dim,
        rotated == a.qk_rope_head_dim,
{
}

} // verus!
