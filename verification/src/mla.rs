//! Latent attention: keys and values are kept compressed, and a sparse
//! indexer may choose the tokens of a prefill.

use crate::checkpoint::{dims2, dims3, DType, TensorRead, VarBuilderX};
use crate::config::{method_is, uses_method, Config, QuantConfig};
use crate::distributed::{shard, Shard, Span};
use crate::json::{as_size, as_u64, find, kind_at, size_in, u64_in, JsonKind};
use crate::linear::{fp8_unplannable, plannable, Fp8Error};
use crate::others::{layer_norm, permuted, rms_norm, NormX};
use crate::parallel::{fp8_refusal, full_size, ReplicatedLinear};
use vstd::prelude::*;

verus! {

/// A sparse indexer.
#[derive(Debug, Clone, Copy, PartialEq, Eq, Structural)]
pub struct IndexerConfig {
    pub index_head_dim: usize,
    pub index_n_heads: usize,
    pub index_topk: usize,
    pub index_skip_topk_offset: usize,
    pub qk_rope_head_dim: usize,
    pub q_lora_rank: usize,
    pub hidden_size: usize,
}

/// Chooses the tokens that the queries of a prefill attend to.
pub struct DsaIndexer {
    pub wq_b: ReplicatedLinear,
    pub wk: ReplicatedLinear,
    pub k_norm: NormX,
    pub weights_proj: ReplicatedLinear,
    pub cfg: IndexerConfig,
}

/// How the indexer lays out a prefill.
#[derive(Debug, Clone, Copy, PartialEq, Eq, Structural)]
pub struct IndexPass {
    /// Elements of a head that are rotated, and those that are not.
    pub rope: Span,
    pub pass: Span,
    /// Element type that queries and keys are scored in.
    pub score_as: DType,
    /// Element type of the weights of the heads.
    pub weights_as: DType,
    /// Tokens that are chosen for each query.
    pub topk: usize,
}

impl IndexerConfig {
    /// Whether an indexer of this size can be planned.
    pub open spec fn wf(self, gguf: bool, cfg: Option<QuantConfig>, dtype: DType) -> bool {
        &&& self.index_n_heads * self.index_head_dim <= usize::MAX
        &&& plannable(full_size(self.q_lora_rank, (self.index_n_heads * self.index_head_dim) as usize, false, dtype), gguf, cfg)
        &&& plannable(full_size(self.hidden_size, self.index_head_dim, false, dtype), gguf, cfg)
    }
}

/// The name of a tensor of the indexer.
pub open spec fn indexer_name(gguf: bool, stored: Seq<char>, name: Seq<char>) -> Seq<char> {
    if gguf { stored } else { name }
}

impl DsaIndexer {
    /// Whether `r` is the plan of the indexer in the scope.
    pub open spec fn planned(r: Result<Self, Fp8Error>, vb: &VarBuilderX, config: Config, cfg: IndexerConfig, dtype: DType) -> bool {
        let gguf = vb.checkpoint.gguf;
        let q = config.quantization_config;
        let wq_b = vb.child(indexer_name(gguf, "attn_q_b"@, "wq_b"@));
        let wk = vb.child(indexer_name(gguf, "attn_k"@, "wk"@));
        let proj = vb.child(indexer_name(gguf, "proj"@, "weights_proj"@));
        if fp8_unplannable(&wq_b, q) || fp8_unplannable(&wk, q) {
            r == Err::<Self, Fp8Error>(fp8_refusal(q))
        } else {
            let width = (cfg.index_n_heads * cfg.index_head_dim) as usize;
            &&& r matches Ok(x)
            &&& x.wq_b.linear.is_layer(&wq_b, full_size(cfg.q_lora_rank, width, false, dtype), q, config.quant)
            &&& x.wk.linear.is_layer(&wk, full_size(cfg.hidden_size, cfg.index_head_dim, false, dtype), q, config.quant)
            &&& x.k_norm.is_layer_norm(&vb.child("k_norm"@), cfg.index_head_dim, true, dtype)
            &&& x.weights_proj.linear.is_layer(
                &proj, full_size(cfg.hidden_size, cfg.index_n_heads, false, dtype), None, config.quant)
            &&& x.cfg == cfg
        }
    }

    pub fn new(vb: &VarBuilderX, config: &Config, cfg: IndexerConfig, dtype: DType) -> (r: Result<Self, Fp8Error>)
        requires
            cfg.wf(vb.checkpoint.gguf, config.quantization_config, dtype),
        ensures
            Self::planned(r, vb, *config, cfg, dtype),
    {
        let gguf = vb.is_qvar_builder();
        let q = &config.quantization_config;
        let wq_b = match ReplicatedLinear::load_below(
            vb, if gguf { "attn_q_b" } else { "wq_b" }, cfg.q_lora_rank, cfg.index_n_heads * cfg.index_head_dim, false, q,
            &config.quant, dtype,
        ) {
            Ok(l) => l,
            Err(e) => return Err(e),
        };
        let wk = match ReplicatedLinear::load_below(
            vb, if gguf { "attn_k" } else { "wk" }, cfg.hidden_size, cfg.index_head_dim, false, q, &config.quant, dtype,
        ) {
            Ok(l) => l,
            Err(e) => return Err(e),
        };
        let norm_vb = vb.pp("k_norm");
        let k_norm = layer_norm(cfg.index_head_dim, true, &norm_vb, dtype);
        let weights_proj = match ReplicatedLinear::load_below(
            vb, if gguf { "proj" } else { "weights_proj" }, cfg.hidden_size, cfg.index_n_heads, false, &None, &config.quant, dtype,
        ) {
            Ok(l) => l,
            Err(e) => return Err(e),
        };
        Ok(DsaIndexer { wq_b, wk, k_norm, weights_proj, cfg })
    }

    pub fn index_topk(&self) -> (r: usize)
        ensures
            r == self.cfg.index_topk,
    {
        self.cfg.index_topk
    }

    /// Lays out a prefill of `seq_len` tokens; `None` where the choice would
    /// take them all.
    pub fn forward(&self, seq_len: usize) -> (r: Option<IndexPass>)
        requires
            self.cfg.qk_rope_head_dim <= self.cfg.index_head_dim,
        ensures
            r == if seq_len <= self.cfg.index_topk {
                None
            } else {
                Some(
                    IndexPass {
                        rope: Span { start: 0, len: self.cfg.qk_rope_head_dim },
                        pass: Span {
                            start: self.cfg.qk_rope_head_dim,
                            len: (self.cfg.index_head_dim - self.cfg.qk_rope_head_dim) as usize,
                        },
                        score_as: DType::BF16,
                        weights_as: DType::F32,
                        topk: self.cfg.index_topk,
                    },
                )
            },
    {
        if seq_len <= self.cfg.index_topk {
            return None;
        }
        let rope: usize = self.cfg.qk_rope_head_dim;
        Some(
            IndexPass {
                rope: Span { start: 0, len: rope },
                pass: Span { start: rope, len: self.cfg.index_head_dim - rope },
                score_as: DType::BF16,
                weights_as: DType::F32,
                topk: self.cfg.index_topk,
            },
        )
    }
}

/// A latent attention layer.
#[derive(Debug, Clone, Copy, PartialEq, Eq)]
pub struct MlaConfig {
    pub hidden_size: usize,
    pub num_attention_heads: usize,
    pub q_lora_rank: Option<usize>,
    pub kv_lora_rank: usize,
    pub qk_nope_head_dim: usize,
    pub qk_rope_head_dim: usize,
    pub v_head_dim: usize,
    pub attention_bias: bool,
    pub index_head_dim: Option<usize>,
    pub index_n_heads: Option<usize>,
    pub index_topk: Option<usize>,
    pub index_skip_topk_offset: Option<usize>,
}

/// What a configuration file holds under the keys of latent attention.
#[derive(Debug, Clone, Copy)]
pub struct MlaKeys {
    pub q_lora_rank: Option<JsonKind>,
    pub kv_lora_rank: Option<JsonKind>,
    pub qk_nope_head_dim: Option<JsonKind>,
    pub qk_rope_head_dim: Option<JsonKind>,
    pub v_head_dim: Option<JsonKind>,
    pub index_head_dim: Option<JsonKind>,
    pub index_n_heads: Option<JsonKind>,
    pub index_topk: Option<JsonKind>,
    pub index_skip_topk_offset: Option<JsonKind>,
}

/// The value of an integer as a size.
pub open spec fn opt_size_in(k: Option<JsonKind>) -> Option<usize> {
    match u64_in(k) {
        Some(n) => Some(n as usize),
        None => None,
    }
}

pub fn as_opt_size(k: Option<JsonKind>) -> (r: Option<usize>)
    ensures
        r == opt_size_in(k),
{
    match as_u64(k) {
        Some(n) => Some(#[verifier::truncate] (n as usize)),
        None => None,
    }
}

impl MlaKeys {
    /// The keys of an optional configuration file.
    pub open spec fn of(text: Option<String>) -> Self {
        MlaKeys {
            q_lora_rank: kind_at(text, "/q_lora_rank"@),
            kv_lora_rank: kind_at(text, "/kv_lora_rank"@),
            qk_nope_head_dim: kind_at(text, "/qk_nope_head_dim"@),
            qk_rope_head_dim: kind_at(text, "/qk_rope_head_dim"@),
            v_head_dim: kind_at(text, "/v_head_dim"@),
            index_head_dim: kind_at(text, "/index_head_dim"@),
            index_n_heads: kind_at(text, "/index_n_heads"@),
            index_topk: kind_at(text, "/index_topk"@),
            index_skip_topk_offset: kind_at(text, "/index_skip_topk_offset"@),
        }
    }

    pub fn read(text: &Option<String>) -> (r: Self)
        ensures
            r == Self::of(*text),
    {
        MlaKeys {
            q_lora_rank: find(text, "/q_lora_rank"),
            kv_lora_rank: find(text, "/kv_lora_rank"),
            qk_nope_head_dim: find(text, "/qk_nope_head_dim"),
            qk_rope_head_dim: find(text, "/qk_rope_head_dim"),
            v_head_dim: find(text, "/v_head_dim"),
            index_head_dim: find(text, "/index_head_dim"),
            index_n_heads: find(text, "/index_n_heads"),
            index_topk: find(text, "/index_topk"),
            index_skip_topk_offset: find(text, "/index_skip_topk_offset"),
        }
    }
}

impl MlaConfig {
    /// The layer of a model with these keys.
    pub open spec fn of(hidden_size: usize, heads: usize, attention_bias: Option<bool>, k: MlaKeys) -> Self {
        MlaConfig {
            hidden_size,
            num_attention_heads: heads,
            q_lora_rank: opt_size_in(k.q_lora_rank),
            kv_lora_rank: size_in(k.kv_lora_rank, 512),
            qk_nope_head_dim: size_in(k.qk_nope_head_dim, 128),
            qk_rope_head_dim: size_in(k.qk_rope_head_dim, 64),
            v_head_dim: size_in(k.v_head_dim, 128),
            attention_bias: match attention_bias {
                Some(b) => b,
                None => false,
            },
            index_head_dim: opt_size_in(k.index_head_dim),
            index_n_heads: opt_size_in(k.index_n_heads),
            index_topk: opt_size_in(k.index_topk),
            index_skip_topk_offset: opt_size_in(k.index_skip_topk_offset),
        }
    }

    pub fn from_keys(hidden_size: usize, heads: usize, attention_bias: Option<bool>, k: &MlaKeys) -> (r: Self)
        ensures
            r == Self::of(hidden_size, heads, attention_bias, *k),
    {
        MlaConfig {
            hidden_size,
            num_attention_heads: heads,
            q_lora_rank: as_opt_size(k.q_lora_rank),
            kv_lora_rank: as_size(k.kv_lora_rank, 512),
            qk_nope_head_dim: as_size(k.qk_nope_head_dim, 128),
            qk_rope_head_dim: as_size(k.qk_rope_head_dim, 64),
            v_head_dim: as_size(k.v_head_dim, 128),
            attention_bias: match attention_bias {
                Some(b) => b,
                None => false,
            },
            index_head_dim: as_opt_size(k.index_head_dim),
            index_n_heads: as_opt_size(k.index_n_heads),
            index_topk: as_opt_size(k.index_topk),
            index_skip_topk_offset: as_opt_size(k.index_skip_topk_offset),
        }
    }

    pub fn from_config(config: &Config) -> (r: Self)
        ensures
            r == Self::of(
                config.hidden_size, config.num_attention_heads, config.attention_bias, MlaKeys::of(config.extra_config_json)),
    {
        let keys = MlaKeys::read(&config.extra_config_json);
        Self::from_keys(config.hidden_size, config.num_attention_heads, config.attention_bias, &keys)
    }

    pub open spec fn q_head_dim(self) -> int {
        self.qk_nope_head_dim + self.qk_rope_head_dim
    }

    /// Outputs of the joint up-projection of keys and values.
    pub open spec fn kv_b_out(self) -> int {
        self.num_attention_heads * (self.qk_nope_head_dim + self.v_head_dim)
    }

    /// The indexer, where the layer has one.
    pub open spec fn indexer(self) -> IndexerConfig {
        IndexerConfig {
            index_head_dim: self.index_head_dim->0,
            index_n_heads: match self.index_n_heads {
                Some(n) => n,
                None => 4,
            },
            index_topk: match self.index_topk {
                Some(n) => n,
                None => 2048,
            },
            index_skip_topk_offset: self.skip_offset(),
            qk_rope_head_dim: self.qk_rope_head_dim,
            q_lora_rank: match self.q_lora_rank {
                Some(n) => n,
                None => 256,
            },
            hidden_size: self.hidden_size,
        }
    }

    /// The first layer that may have an indexer.
    pub open spec fn skip_offset(self) -> usize {
        match self.index_skip_topk_offset {
            Some(n) => n,
            None => 1,
        }
    }

    /// Whether a layer of this size can be planned.
    pub open spec fn wf(self, gguf: bool, cfg: Option<QuantConfig>, dtype: DType) -> bool {
        let h = self.hidden_size;
        &&& self.q_head_dim() <= usize::MAX
        &&& self.num_attention_heads * self.q_head_dim() <= usize::MAX
        &&& self.kv_lora_rank + self.qk_rope_head_dim <= usize::MAX
        &&& self.qk_nope_head_dim + self.v_head_dim <= usize::MAX
        &&& self.kv_b_out() <= usize::MAX
        &&& self.num_attention_heads * self.v_head_dim <= usize::MAX
        &&& self.q_lora_rank matches Some(rank) ==> {
            &&& plannable(full_size(h, rank, self.attention_bias, dtype), gguf, cfg)
            &&& plannable(full_size(rank, (self.num_attention_heads * self.q_head_dim()) as usize, false, dtype), gguf, cfg)
        }
        &&& self.q_lora_rank is None ==> plannable(
            full_size(h, (self.num_attention_heads * self.q_head_dim()) as usize, self.attention_bias, dtype), gguf, cfg)
        &&& plannable(full_size(h, (self.kv_lora_rank + self.qk_rope_head_dim) as usize, self.attention_bias, dtype), gguf, cfg)
        &&& plannable(full_size(self.kv_lora_rank, self.kv_b_out() as usize, false, dtype), gguf, cfg)
        &&& plannable(full_size((self.num_attention_heads * self.v_head_dim) as usize, h, false, dtype), gguf, cfg)
        &&& self.index_head_dim is Some ==> self.indexer().wf(gguf, cfg, dtype)
    }
}

/// The tensors of a latent attention layer.
#[derive(Debug, Clone, Copy, PartialEq, Eq, Structural)]
pub enum MlaPart {
    QA,
    QANorm,
    QB,
    KvA,
    KvANorm,
    KvB,
    O,
}

/// The name of a tensor in a checkpoint.
pub open spec fn mla_name(gguf: bool, part: MlaPart) -> Seq<char> {
    match part {
        MlaPart::QA => if gguf { "attn_q_a"@ } else { "q_a_proj"@ },
        MlaPart::QANorm => if gguf { "attn_q_a_norm"@ } else { "q_a_layernorm"@ },
        MlaPart::QB => if gguf { "attn_q_b"@ } else { "q_b_proj"@ },
        MlaPart::KvA => if gguf { "attn_kv_a_mqa"@ } else { "kv_a_proj_with_mqa"@ },
        MlaPart::KvANorm => if gguf { "attn_kv_a_norm"@ } else { "kv_a_layernorm"@ },
        MlaPart::KvB => if gguf { "attn_k_b"@ } else { "kv_b_proj"@ },
        MlaPart::O => if gguf { "attn_output"@ } else { "o_proj"@ },
    }
}

pub fn name_of_mla(gguf: bool, part: MlaPart) -> (r: &'static str)
    ensures
        r@ == mla_name(gguf, part),
{
    match part {
        MlaPart::QA => if gguf { "attn_q_a" } else { "q_a_proj" },
        MlaPart::QANorm => if gguf { "attn_q_a_norm" } else { "q_a_layernorm" },
        MlaPart::QB => if gguf { "attn_q_b" } else { "q_b_proj" },
        MlaPart::KvA => if gguf { "attn_kv_a_mqa" } else { "kv_a_proj_with_mqa" },
        MlaPart::KvANorm => if gguf { "attn_kv_a_norm" } else { "kv_a_layernorm" },
        MlaPart::KvB => if gguf { "attn_k_b" } else { "kv_b_proj" },
        MlaPart::O => if gguf { "attn_output" } else { "o_proj" },
    }
}

/// How queries are projected.
pub enum QueryProjection {
    /// Through a low rank.
    Low { q_a_proj: ReplicatedLinear, q_a_layernorm: NormX, q_b_proj: ReplicatedLinear },
    Direct { q_proj: ReplicatedLinear },
}

/// A tensor whose dimensions are put in another order after the read.
pub struct OrderedRead {
    pub read: TensorRead,
    pub order: [usize; 3],
}

/// Where the up-projections of keys and values come from.
pub enum UpProjection {
    /// Two tensors of a block-quantized file.
    Split { k_b: OrderedRead, v_b: OrderedRead },
    /// The joint layer is applied to the identity.
    Applied { kv_b_proj: ReplicatedLinear, rows: HeadRows },
    /// The weight of the joint layer.
    Joint { kv_b_proj: ReplicatedLinear, weight: TensorRead, rows: HeadRows },
}

/// The rows of a joint up-projection: those of one head after the other, and
/// of each head the rows that keys have and the rows that values have.
#[derive(Debug, Clone, Copy, PartialEq, Eq, Structural)]
pub struct HeadRows {
    pub heads: usize,
    pub keys: Span,
    pub values: Span,
}

impl HeadRows {
    pub open spec fn of(cfg: MlaConfig) -> Self {
        HeadRows {
            heads: cfg.num_attention_heads,
            keys: Span { start: 0, len: cfg.qk_nope_head_dim },
            values: Span { start: cfg.qk_nope_head_dim, len: cfg.v_head_dim },
        }
    }

    /// Rows of each head.
    pub open spec fn per_head(self) -> int {
        self.keys.len + self.values.len
    }

    /// The rows of head `h` of a joint weight.
    pub open spec fn head<A>(self, w: Seq<A>, h: int) -> Seq<A> {
        w.subrange(h * self.per_head(), (h + 1) * self.per_head())
    }

    /// The up-projections of keys: for each head its rows for keys.
    pub open spec fn key_up<A>(self, w: Seq<Seq<A>>) -> Seq<Seq<Seq<A>>> {
        Seq::new(self.heads as nat, |h: int| self.head(w, h).subrange(self.keys.start as int, self.keys.start + self.keys.len))
    }

    /// The up-projections of values: for each head its rows for values, as
    /// columns of `latent` elements.
    pub open spec fn value_up<A>(self, w: Seq<Seq<A>>, latent: nat) -> Seq<Seq<Seq<A>>> {
        Seq::new(
            self.heads as nat,
            |h: int| as_columns(self.head(w, h).subrange(self.values.start as int, self.values.start + self.values.len), latent),
        )
    }
}

/// A matrix whose columns are `rows`, each of `n` elements.
pub open spec fn as_columns<A>(rows: Seq<Seq<A>>, n: nat) -> Seq<Seq<A>> {
    Seq::new(n, |k: int| Seq::new(rows.len(), |j: int| rows[j][k]))
}

/// The rows of a joint weight are interleaved by heads: of each head first
/// those of keys, then those of values. Up-projections of keys have heads by
/// key width by latent width, those of values heads by latent width by value
/// width.
pub proof fn law_joint_rows_are_interleaved<A>(cfg: MlaConfig, w: Seq<Seq<A>>, h: int)
    requires
        cfg.kv_b_out() <= usize::MAX,
        w.len() == cfg.kv_b_out(),
        0 <= h < cfg.num_attention_heads,
    ensures
        ({
            let rows = HeadRows::of(cfg);
            let (a, v, r) = (cfg.qk_nope_head_dim as int, cfg.v_head_dim as int, cfg.kv_lora_rank as int);
            let (keys, values) = (rows.key_up(w), rows.value_up(w, r as nat));
            &&& keys.len() == cfg.num_attention_heads && values.len() == cfg.num_attention_heads
            &&& keys[h].len() == a && values[h].len() == r
            &&& forall|i: int| 0 <= i < a ==> #[trigger] keys[h][i] == w[h * (a + v) + i]
            &&& forall|k: int| 0 <= k < r ==> (#[trigger] values[h][k]).len() == v
            &&& forall|k: int, j: int| 0 <= k < r && 0 <= j < v ==> #[trigger] values[h][k][j] == w[h * (a + v) + a + j][k]
        }),
{
    let rows = HeadRows::of(cfg);
    let per = rows.per_head();
    let n = cfg.num_attention_heads as int;
    assert(0 <= h * per && (h + 1) * per == h * per + per && (h + 1) * per <= n * per) by (nonlinear_arith)
        requires
            0 <= h,
            h + 1 <= n,
            0 <= per,
    ;
    assert(rows.head(w, h).len() == per);
}

/// Three dimensions.
pub open spec fn shape3(a: usize, b: usize, c: usize) -> Seq<usize> {
    Seq::empty().push(a).push(b).push(c)
}

fn three(a: usize, b: usize, c: usize) -> (r: [usize; 3])
    ensures
        r@ == shape3(a, b, c),
{
    let r: [usize; 3] = [a, b, c];
    assert(r@ =~= shape3(a, b, c));
    r
}

impl OrderedRead {
    /// Whether this reads `name` in the scope with that shape and order.
    pub open spec fn is_read(&self, vb: &VarBuilderX, shape: Seq<usize>, order: Seq<usize>, dtype: DType) -> bool {
        self.read.reads(vb.spec_path("weight"@), shape, Shard::whole(), dtype) && self.order@ == order
    }
}

/// Whether stored key up-projections have the heads first.
pub open spec fn heads_first(shape: Option<Seq<usize>>, heads: usize) -> bool {
    shape matches Some(s) && s.len() == 3 && s[0] == heads && s[2] != heads
}

/// Whether stored value up-projections have the latent dimension last.
pub open spec fn latent_last(shape: Option<Seq<usize>>, kv_lora_rank: usize) -> bool {
    shape matches Some(s) && s.len() == 3 && s[2] == kv_lora_rank && s[1] != kv_lora_rank
}

/// The dimensions of a tensor, where it exists.
pub open spec fn dims_view(v: Option<Vec<usize>>) -> Option<Seq<usize>> {
    match v {
        Some(d) => Some(d@),
        None => None,
    }
}

/// The shape and order of stored key up-projections.
pub open spec fn key_layout(cfg: MlaConfig, shape: Option<Seq<usize>>) -> (Seq<usize>, Seq<usize>) {
    if heads_first(shape, cfg.num_attention_heads) {
        (shape3(cfg.num_attention_heads, cfg.kv_lora_rank, cfg.qk_nope_head_dim), shape3(0, 2, 1))
    } else {
        (shape3(cfg.qk_nope_head_dim, cfg.kv_lora_rank, cfg.num_attention_heads), shape3(2, 0, 1))
    }
}

/// The shape and order of stored value up-projections.
pub open spec fn value_layout(cfg: MlaConfig, shape: Option<Seq<usize>>) -> (Seq<usize>, Seq<usize>) {
    if latent_last(shape, cfg.kv_lora_rank) {
        (shape3(cfg.num_attention_heads, cfg.v_head_dim, cfg.kv_lora_rank), shape3(0, 2, 1))
    } else {
        (shape3(cfg.v_head_dim, cfg.kv_lora_rank, cfg.num_attention_heads), shape3(2, 1, 0))
    }
}

/// However they are stored, key up-projections end up as heads by key width
/// by latent width, and value up-projections as heads by latent width by
/// value width.
pub proof fn law_up_projection_layouts(cfg: MlaConfig, k: Option<Seq<usize>>, v: Option<Seq<usize>>)
    ensures
        permuted(key_layout(cfg, k).0, key_layout(cfg, k).1)
            == shape3(cfg.num_attention_heads, cfg.qk_nope_head_dim, cfg.kv_lora_rank),
        permuted(value_layout(cfg, v).0, value_layout(cfg, v).1)
            == shape3(cfg.num_attention_heads, cfg.kv_lora_rank, cfg.v_head_dim),
{
    let (ks, ko) = key_layout(cfg, k);
    let (vs, vo) = value_layout(cfg, v);
    let want_k = shape3(cfg.num_attention_heads, cfg.qk_nope_head_dim, cfg.kv_lora_rank);
    let want_v = shape3(cfg.num_attention_heads, cfg.kv_lora_rank, cfg.v_head_dim);
    assert forall|i: int| 0 <= i < 3 implies permuted(ks, ko)[i] == want_k[i] && permuted(vs, vo)[i] == want_v[i] by {
        assert(i == 0 || i == 1 || i == 2);
    }
    assert(permuted(ks, ko) =~= want_k);
    assert(permuted(vs, vo) =~= want_v);
}

/// A latent attention layer.
pub struct MlaAttention {
    pub query: QueryProjection,
    pub kv_a_proj_with_mqa: ReplicatedLinear,
    pub kv_a_layernorm: NormX,
    pub up: UpProjection,
    pub o_proj: ReplicatedLinear,
    pub cfg: MlaConfig,
    /// Scores are divided by the root of this width.
    pub scale_width: usize,
    pub promote_qk_to_f32: bool,
    pub dtype: DType,
    pub indexer: Option<DsaIndexer>,
}

/// Shapes that a block-quantized file gives for the stored up-projections.
pub struct StoredUp {
    pub k_b: Option<Vec<usize>>,
    pub v_b: Option<Vec<usize>>,
}

/// Which kernel runs an attention pass.
#[derive(Debug, Clone, Copy, PartialEq, Eq, Structural)]
pub enum MlaPath {
    SparsePrefill,
    PlannedPrefill,
    PlannedDecode,
    PagedPrefill,
    PagedDecode,
}

/// How the projections of an attention pass are cut.
#[derive(Debug, Clone, Copy, PartialEq, Eq, Structural)]
pub struct MlaCuts {
    /// The elements of each query head that are not rotated.
    pub q_nope: Span,
    /// Those that are.
    pub q_pe: Span,
    /// The elements of each row of keys and values that make the latent.
    pub latent: Span,
    /// Those that are rotated.
    pub k_pe: Span,
    /// What is rotated is converted to this type before.
    pub rotate_as: Option<DType>,
    /// All parts are converted to this type in the end.
    pub attend_as: DType,
}

/// An attention pass.
#[derive(Debug, Clone, Copy, PartialEq, Eq, Structural)]
pub struct MlaPass {
    pub path: MlaPath,
    pub cuts: MlaCuts,
}

/// Each element of a query head, and each element of a row of keys and
/// values, is in exactly one of the two parts.
pub proof fn law_cuts_cover(a: &MlaAttention, i: int)
    ensures
        ({
            let c = a.cuts_of();
            &&& 0 <= i < a.cfg.q_head_dim() ==> (c.q_nope.start <= i < c.q_nope.start + c.q_nope.len)
                != (c.q_pe.start <= i < c.q_pe.start + c.q_pe.len)
            &&& 0 <= i < a.cfg.kv_lora_rank + a.cfg.qk_rope_head_dim ==> (c.latent.start <= i < c.latent.start + c.latent.len)
                != (c.k_pe.start <= i < c.k_pe.start + c.k_pe.len)
        }),
{
}

/// Why an attention pass cannot run.
#[derive(Debug, Clone, Copy, PartialEq, Eq, Structural)]
pub enum MlaError {
    /// A prefill needs the places where sequences start.
    NoCuSeqlens,
    NoPrefillPlan,
    NoDecodePlan,
    Unsupported,
}

/// What the caller of an attention pass provides.
#[derive(Debug, Clone, Copy, PartialEq, Eq, Structural)]
pub struct MlaInputs {
    pub is_prefill: bool,
    pub cache: bool,
    /// Whether plans for the fused library were made.
    pub planned: bool,
    pub prefill_plan: bool,
    pub decode_plan: bool,
    pub block_tables: bool,
    pub context_lens: bool,
    pub cu_seqlens: bool,
    /// Whether the indexer chose tokens.
    pub chosen: bool,
}

impl MlaAttention {
    /// Whether keys and values have stored up-projections of their own.
    pub open spec fn has_split_up(vb: &VarBuilderX) -> bool {
        vb.checkpoint.gguf && vb.child("attn_k_b"@).has("weight"@)
    }

    /// Whether layer `layer_idx` has an indexer.
    pub open spec fn has_indexer(vb: &VarBuilderX, cfg: MlaConfig, layer_idx: usize) -> bool {
        let idx = vb.child("indexer"@);
        cfg.index_head_dim is Some && layer_idx >= cfg.skip_offset() && (idx.has("wq_b.weight"@) || idx.has("attn_q_b.weight"@))
    }

    /// Whether the block size of an FP8 checkpoint stops the layer.
    pub open spec fn refused(vb: &VarBuilderX, cfg: MlaConfig, config: Config, layer_idx: usize) -> bool {
        let gguf = vb.checkpoint.gguf;
        let q = config.quantization_config;
        let idx = vb.child("indexer"@);
        ||| cfg.q_lora_rank is Some && (fp8_unplannable(&vb.child(mla_name(gguf, MlaPart::QA)), q)
            || fp8_unplannable(&vb.child(mla_name(gguf, MlaPart::QB)), q))
        ||| cfg.q_lora_rank is None && fp8_unplannable(&vb.child("q_proj"@), q)
        ||| fp8_unplannable(&vb.child(mla_name(gguf, MlaPart::KvA)), q)
        ||| !Self::has_split_up(vb) && fp8_unplannable(&vb.child(mla_name(gguf, MlaPart::KvB)), q)
        ||| fp8_unplannable(&vb.child(mla_name(gguf, MlaPart::O)), q)
        ||| Self::has_indexer(vb, cfg, layer_idx) && (
            fp8_unplannable(&idx.child(indexer_name(gguf, "attn_q_b"@, "wq_b"@)), q)
            || fp8_unplannable(&idx.child(indexer_name(gguf, "attn_k"@, "wk"@)), q))
    }

    /// Whether queries are projected as the configuration says.
    pub open spec fn is_query(p: QueryProjection, vb: &VarBuilderX, cfg: MlaConfig, config: Config, norm: DType, dtype: DType) -> bool {
        let gguf = vb.checkpoint.gguf;
        let q = config.quantization_config;
        let width = (cfg.num_attention_heads * cfg.q_head_dim()) as usize;
        match cfg.q_lora_rank {
            Some(rank) => p matches QueryProjection::Low { q_a_proj, q_a_layernorm, q_b_proj } && {
                &&& q_a_proj.linear.is_layer(
                    &vb.child(mla_name(gguf, MlaPart::QA)), full_size(cfg.hidden_size, rank, cfg.attention_bias, dtype), q, config.quant)
                &&& q_a_layernorm.is_rms(&vb.child(mla_name(gguf, MlaPart::QANorm)), rank, norm, false, Shard::whole())
                &&& q_b_proj.linear.is_layer(
                    &vb.child(mla_name(gguf, MlaPart::QB)), full_size(rank, width, false, dtype), q, config.quant)
            },
            None => p matches QueryProjection::Direct { q_proj } && q_proj.linear.is_layer(
                &vb.child("q_proj"@), full_size(cfg.hidden_size, width, cfg.attention_bias, dtype), q, config.quant),
        }
    }

    /// Whether the up-projections come from where the checkpoint has them.
    pub open spec fn is_up(u: UpProjection, vb: &VarBuilderX, cfg: MlaConfig, config: Config, stored: StoredUp, dtype: DType) -> bool {
        let gguf = vb.checkpoint.gguf;
        let q = config.quantization_config;
        let kv_b = vb.child(mla_name(gguf, MlaPart::KvB));
        let size = full_size(cfg.kv_lora_rank, cfg.kv_b_out() as usize, false, dtype);
        if Self::has_split_up(vb) {
            u matches UpProjection::Split { k_b, v_b } && {
                let (ks, ko) = key_layout(cfg, dims_view(stored.k_b));
                let (vs, vo) = value_layout(cfg, dims_view(stored.v_b));
                &&& k_b.is_read(&vb.child("attn_k_b"@), ks, ko, dtype)
                &&& v_b.is_read(&vb.child("attn_v_b"@), vs, vo, dtype)
            }
        } else if method_is(q, "fp8"@) {
            u matches UpProjection::Applied { kv_b_proj, rows } && {
                &&& kv_b_proj.linear.is_layer(&kv_b, size, q, config.quant)
                &&& rows == HeadRows::of(cfg)
            }
        } else {
            u matches UpProjection::Joint { kv_b_proj, weight, rows } && {
                &&& rows == HeadRows::of(cfg)
                &&& kv_b_proj.linear.is_layer(&kv_b, size, q, config.quant)
                &&& weight.reads(
                    vb.child("kv_b_proj"@).spec_path("weight"@), seq![(cfg.kv_b_out() as usize), cfg.kv_lora_rank],
                    Shard::whole(), dtype)
            }
        }
    }

    /// Whether `r` is the plan of layer `layer_idx` in the scope.
    pub open spec fn planned(
        r: Result<Self, Fp8Error>,
        vb: &VarBuilderX,
        cfg: MlaConfig,
        config: Config,
        stored: StoredUp,
        dtype: DType,
        layer_idx: usize,
    ) -> bool {
        let gguf = vb.checkpoint.gguf;
        let q = config.quantization_config;
        let norm = if gguf || config.higher_precision_required { DType::F32 } else { dtype };
        if Self::refused(vb, cfg, config, layer_idx) {
            r == Err::<Self, Fp8Error>(fp8_refusal(q))
        } else {
            &&& r matches Ok(a)
            &&& Self::is_query(a.query, vb, cfg, config, norm, dtype)
            &&& a.kv_a_proj_with_mqa.linear.is_layer(
                &vb.child(mla_name(gguf, MlaPart::KvA)),
                full_size(cfg.hidden_size, (cfg.kv_lora_rank + cfg.qk_rope_head_dim) as usize, cfg.attention_bias, dtype),
                q, config.quant)
            &&& a.kv_a_layernorm.is_rms(
                &vb.child(mla_name(gguf, MlaPart::KvANorm)), cfg.kv_lora_rank, norm, false, Shard::whole())
            &&& Self::is_up(a.up, vb, cfg, config, stored, dtype)
            &&& a.o_proj.linear.is_layer(
                &vb.child(mla_name(gguf, MlaPart::O)),
                full_size((cfg.num_attention_heads * cfg.v_head_dim) as usize, cfg.hidden_size, false, dtype), q, config.quant)
            &&& a.cfg == cfg
            &&& a.scale_width == cfg.q_head_dim()
            &&& a.promote_qk_to_f32 == (gguf || config.higher_precision_required)
            &&& a.dtype == dtype
            &&& a.indexer is Some <==> Self::has_indexer(vb, cfg, layer_idx)
            &&& a.indexer matches Some(x) ==> DsaIndexer::planned(Ok(x), &vb.child("indexer"@), config, cfg.indexer(), dtype)
        }
    }

    fn load_query(vb: &VarBuilderX, cfg: &MlaConfig, config: &Config, norm: DType, dtype: DType) -> (r: Result<QueryProjection, Fp8Error>)
        requires
            cfg.wf(vb.checkpoint.gguf, config.quantization_config, dtype),
        ensures
            match r {
                Ok(p) => Self::is_query(p, vb, *cfg, *config, norm, dtype),
                Err(e) => e == fp8_refusal(config.quantization_config),
            },
            r is Err <==> if cfg.q_lora_rank is Some {
                fp8_unplannable(&vb.child(mla_name(vb.checkpoint.gguf, MlaPart::QA)), config.quantization_config)
                    || fp8_unplannable(&vb.child(mla_name(vb.checkpoint.gguf, MlaPart::QB)), config.quantization_config)
            } else {
                fp8_unplannable(&vb.child("q_proj"@), config.quantization_config)
            },
    {
        let gguf = vb.is_qvar_builder();
        let q = &config.quantization_config;
        let width: usize = cfg.num_attention_heads * (cfg.qk_nope_head_dim + cfg.qk_rope_head_dim);
        match cfg.q_lora_rank {
            Some(rank) => {
                let q_a_proj = match ReplicatedLinear::load_below(
                    vb, name_of_mla(gguf, MlaPart::QA), cfg.hidden_size, rank, cfg.attention_bias, q, &config.quant, dtype,
                ) {
                    Ok(l) => l,
                    Err(e) => return Err(e),
                };
                let norm_vb = vb.pp(name_of_mla(gguf, MlaPart::QANorm));
                let q_a_layernorm = rms_norm(rank, &norm_vb, norm, false);
                let q_b_proj = match ReplicatedLinear::load_below(
                    vb, name_of_mla(gguf, MlaPart::QB), rank, width, false, q, &config.quant, dtype,
                ) {
                    Ok(l) => l,
                    Err(e) => return Err(e),
                };
                Ok(QueryProjection::Low { q_a_proj, q_a_layernorm, q_b_proj })
            },
            None => match ReplicatedLinear::load_below(
                vb, "q_proj", cfg.hidden_size, width, cfg.attention_bias, q, &config.quant, dtype,
            ) {
                Ok(q_proj) => Ok(QueryProjection::Direct { q_proj }),
                Err(e) => Err(e),
            },
        }
    }

    fn split_up(vb: &VarBuilderX, cfg: &MlaConfig, config: &Config, stored: &StoredUp, dtype: DType) -> (r: UpProjection)
        requires
            Self::has_split_up(vb),
        ensures
            Self::is_up(r, vb, *cfg, *config, *stored, dtype),
    {
        let (heads, latent) = (cfg.num_attention_heads, cfg.kv_lora_rank);
        let k_first = match &stored.k_b {
            Some(s) => s.len() == 3 && s[0] == heads && s[2] != heads,
            None => false,
        };
        let v_last = match &stored.v_b {
            Some(s) => s.len() == 3 && s[2] == latent && s[1] != latent,
            None => false,
        };
        let k_vb = vb.pp("attn_k_b");
        let v_vb = vb.pp("attn_v_b");
        let (k_shape, k_order) = if k_first {
            (dims3(heads, latent, cfg.qk_nope_head_dim), three(0, 2, 1))
        } else {
            (dims3(cfg.qk_nope_head_dim, latent, heads), three(2, 0, 1))
        };
        let (v_shape, v_order) = if v_last {
            (dims3(heads, cfg.v_head_dim, latent), three(0, 2, 1))
        } else {
            (dims3(cfg.v_head_dim, latent, heads), three(2, 1, 0))
        };
        assert(k_shape@ =~= key_layout(*cfg, dims_view(stored.k_b)).0);
        assert(v_shape@ =~= value_layout(*cfg, dims_view(stored.v_b)).0);
        UpProjection::Split {
            k_b: OrderedRead { read: k_vb.read("weight", k_shape, shard(0, 0, 1), dtype), order: k_order },
            v_b: OrderedRead { read: v_vb.read("weight", v_shape, shard(0, 0, 1), dtype), order: v_order },
        }
    }

    /// Plans layer `layer_idx`. `stored` are the shapes of the stored
    /// up-projections, where a block-quantized file has them.
    pub fn new(
        vb: &VarBuilderX,
        mla_cfg: &MlaConfig,
        config: &Config,
        stored: &StoredUp,
        dtype: DType,
        layer_idx: usize,
    ) -> (r: Result<Self, Fp8Error>)
        requires
            mla_cfg.wf(vb.checkpoint.gguf, config.quantization_config, dtype),
        ensures
            Self::planned(r, vb, *mla_cfg, *config, *stored, dtype, layer_idx),
    {
        let gguf = vb.is_qvar_builder();
        let q = &config.quantization_config;
        let norm = if gguf || config.higher_precision_required { DType::F32 } else { dtype };
        let query = match Self::load_query(vb, mla_cfg, config, norm, dtype) {
            Ok(p) => p,
            Err(e) => return Err(e),
        };
        let kv_a_proj_with_mqa = match ReplicatedLinear::load_below(
            vb, name_of_mla(gguf, MlaPart::KvA), mla_cfg.hidden_size, mla_cfg.kv_lora_rank + mla_cfg.qk_rope_head_dim,
            mla_cfg.attention_bias, q, &config.quant, dtype,
        ) {
            Ok(l) => l,
            Err(e) => return Err(e),
        };
        let norm_vb = vb.pp(name_of_mla(gguf, MlaPart::KvANorm));
        let kv_a_layernorm = rms_norm(mla_cfg.kv_lora_rank, &norm_vb, norm, false);
        let k_b_vb = vb.pp("attn_k_b");
        let up = if gguf && k_b_vb.has_key("weight") {
            Self::split_up(vb, mla_cfg, config, stored, dtype)
        } else {
            let out: usize = mla_cfg.num_attention_heads * (mla_cfg.qk_nope_head_dim + mla_cfg.v_head_dim);
            let kv_b_proj = match ReplicatedLinear::load_below(
                vb, name_of_mla(gguf, MlaPart::KvB), mla_cfg.kv_lora_rank, out, false, q, &config.quant, dtype,
            ) {
                Ok(l) => l,
                Err(e) => return Err(e),
            };
            let rows = HeadRows {
                heads: mla_cfg.num_attention_heads,
                keys: Span { start: 0, len: mla_cfg.qk_nope_head_dim },
                values: Span { start: mla_cfg.qk_nope_head_dim, len: mla_cfg.v_head_dim },
            };
            if uses_method(q, "fp8") {
                UpProjection::Applied { kv_b_proj, rows }
            } else {
                let joint = vb.pp("kv_b_proj");
                let weight = joint.read("weight", dims2(out, mla_cfg.kv_lora_rank), shard(0, 0, 1), dtype);
                UpProjection::Joint { kv_b_proj, weight, rows }
            }
        };
        let o_proj = match ReplicatedLinear::load_below(
            vb, name_of_mla(gguf, MlaPart::O), mla_cfg.num_attention_heads * mla_cfg.v_head_dim, mla_cfg.hidden_size, false, q,
            &config.quant, dtype,
        ) {
            Ok(l) => l,
            Err(e) => return Err(e),
        };
        let skip: usize = match mla_cfg.index_skip_topk_offset {
            Some(n) => n,
            None => 1,
        };
        let idx_vb = vb.pp("indexer");
        let indexer = match mla_cfg.index_head_dim {
            Some(index_head_dim) => if layer_idx >= skip && (idx_vb.has_key("wq_b.weight") || idx_vb.has_key("attn_q_b.weight")) {
                let idx_cfg = IndexerConfig {
                    index_head_dim,
                    index_n_heads: match mla_cfg.index_n_heads { Some(n) => n, None => 4 },
                    index_topk: match mla_cfg.index_topk { Some(n) => n, None => 2048 },
                    index_skip_topk_offset: skip,
                    qk_rope_head_dim: mla_cfg.qk_rope_head_dim,
                    q_lora_rank: match mla_cfg.q_lora_rank { Some(n) => n, None => 256 },
                    hidden_size: mla_cfg.hidden_size,
                };
                match DsaIndexer::new(&idx_vb, config, idx_cfg, dtype) {
                    Ok(x) => Some(x),
                    Err(e) => return Err(e),
                }
            } else {
                None
            },
            None => None,
        };
        Ok(
            MlaAttention {
                query,
                kv_a_proj_with_mqa,
                kv_a_layernorm,
                up,
                o_proj,
                cfg: *mla_cfg,
                scale_width: mla_cfg.qk_nope_head_dim + mla_cfg.qk_rope_head_dim,
                promote_qk_to_f32: gguf || config.higher_precision_required,
                dtype,
                indexer,
            },
        )
    }

    /// Whether a prefill asks the indexer for tokens: the queries must have
    /// gone through a low rank and the pages must be known.
    pub fn asks_indexer(&self, x: &MlaInputs) -> (r: bool)
        ensures
            r == (x.is_prefill && x.cache && x.block_tables && x.context_lens && self.indexer is Some
                && self.query is Low && (x.planned || x.cu_seqlens)),
    {
        let low = match &self.query {
            QueryProjection::Low { .. } => true,
            QueryProjection::Direct { .. } => false,
        };
        x.is_prefill && x.cache && x.block_tables && x.context_lens && self.indexer.is_some() && low && (x.planned || x.cu_seqlens)
    }

    /// How projections are cut.
    pub open spec fn cuts_of(&self) -> MlaCuts {
        MlaCuts {
            q_nope: Span { start: 0, len: self.cfg.qk_nope_head_dim },
            q_pe: Span { start: self.cfg.qk_nope_head_dim, len: self.cfg.qk_rope_head_dim },
            latent: Span { start: 0, len: self.cfg.kv_lora_rank },
            k_pe: Span { start: self.cfg.kv_lora_rank, len: self.cfg.qk_rope_head_dim },
            rotate_as: if self.promote_qk_to_f32 { Some(DType::F32) } else { None },
            attend_as: self.dtype,
        }
    }

    pub fn cuts(&self) -> (r: MlaCuts)
        ensures
            r == self.cuts_of(),
    {
        MlaCuts {
            q_nope: Span { start: 0, len: self.cfg.qk_nope_head_dim },
            q_pe: Span { start: self.cfg.qk_nope_head_dim, len: self.cfg.qk_rope_head_dim },
            latent: Span { start: 0, len: self.cfg.kv_lora_rank },
            k_pe: Span { start: self.cfg.kv_lora_rank, len: self.cfg.qk_rope_head_dim },
            rotate_as: if self.promote_qk_to_f32 { Some(DType::F32) } else { None },
            attend_as: self.dtype,
        }
    }

    /// The shape in which the values of `seq_len` tokens meet the output
    /// projection: all heads of a token in one row.
    pub fn project_mla_output(&self, seq_len: usize) -> (r: (usize, usize))
        requires
            self.cfg.num_attention_heads * self.cfg.v_head_dim <= usize::MAX,
        ensures
            r == (seq_len, (self.cfg.num_attention_heads * self.cfg.v_head_dim) as usize),
    {
        (seq_len, self.cfg.num_attention_heads * self.cfg.v_head_dim)
    }

    /// Which kernel runs a pass and on which parts, or why none can. Sparse
    /// attention is for prefills only.
    pub fn forward(&self, x: &MlaInputs) -> (r: Result<MlaPass, MlaError>)
        requires
            x.chosen ==> x.is_prefill && x.cache && x.block_tables && x.context_lens && self.indexer is Some
                && self.query is Low && (x.planned || x.cu_seqlens),
        ensures
            r == (if !x.cache {
                Err(MlaError::Unsupported)
            } else if x.planned {
                if x.chosen {
                    if x.cu_seqlens { Ok(MlaPass { path: MlaPath::SparsePrefill, cuts: self.cuts_of() }) } else { Err(MlaError::NoCuSeqlens) }
                } else if x.is_prefill {
                    if x.prefill_plan { Ok(MlaPass { path: MlaPath::PlannedPrefill, cuts: self.cuts_of() }) } else { Err(MlaError::NoPrefillPlan) }
                } else {
                    if x.decode_plan { Ok(MlaPass { path: MlaPath::PlannedDecode, cuts: self.cuts_of() }) } else { Err(MlaError::NoDecodePlan) }
                }
            } else if !x.block_tables || !x.context_lens {
                Err(MlaError::Unsupported)
            } else if x.is_prefill {
                if !x.cu_seqlens {
                    Err(MlaError::NoCuSeqlens)
                } else if x.chosen {
                    Ok(MlaPass { path: MlaPath::SparsePrefill, cuts: self.cuts_of() })
                } else {
                    Ok(MlaPass { path: MlaPath::PagedPrefill, cuts: self.cuts_of() })
                }
            } else {
                Ok(MlaPass { path: MlaPath::PagedDecode, cuts: self.cuts_of() })
            }),
    {
        let cuts = self.cuts();
        if !x.cache {
            return Err(MlaError::Unsupported);
        }
        if x.planned {
            if x.chosen {
                return if x.cu_seqlens { Ok(MlaPass { path: MlaPath::SparsePrefill, cuts }) } else { Err(MlaError::NoCuSeqlens) };
            }
            if x.is_prefill {
                return if x.prefill_plan { Ok(MlaPass { path: MlaPath::PlannedPrefill, cuts }) } else { Err(MlaError::NoPrefillPlan) };
            }
            return if x.decode_plan { Ok(MlaPass { path: MlaPath::PlannedDecode, cuts }) } else { Err(MlaError::NoDecodePlan) };
        }
        if !x.block_tables || !x.context_lens {
            return Err(MlaError::Unsupported);
        }
        if x.is_prefill {
            if !x.cu_seqlens {
                return Err(MlaError::NoCuSeqlens);
            }
            return Ok(MlaPass { path: if x.chosen { MlaPath::SparsePrefill } else { MlaPath::PagedPrefill }, cuts });
        }
        Ok(MlaPass { path: MlaPath::PagedDecode, cuts })
    }
}

/// Tensors have one name in block-quantized files and another elsewhere.
pub proof fn law_names_of_latent_tensors(part: MlaPart, stored: &'static str, plain: &'static str)
    requires
        call_ensures(name_of_mla, (true, part), stored),
        call_ensures(name_of_mla, (false, part), plain),
    ensures
        part == MlaPart::QA ==> stored@ == "attn_q_a"@ && plain@ == "q_a_proj"@,
        part == MlaPart::QANorm ==> stored@ == "attn_q_a_norm"@ && plain@ == "q_a_layernorm"@,
        part == MlaPart::QB ==> stored@ == "attn_q_b"@ && plain@ == "q_b_proj"@,
        part == MlaPart::KvA ==> stored@ == "attn_kv_a_mqa"@ && plain@ == "kv_a_proj_with_mqa"@,
        part == MlaPart::KvANorm ==> stored@ == "attn_kv_a_norm"@ && plain@ == "kv_a_layernorm"@,
        part == MlaPart::KvB ==> stored@ == "attn_k_b"@ && plain@ == "kv_b_proj"@,
        part == MlaPart::O ==> stored@ == "attn_output"@ && plain@ == "o_proj"@,
{
}

/// What a file says under each key, or its default; what has none is left out.
pub proof fn law_latent_sizes_have_defaults(cfg: Config, r: MlaConfig)
    requires
        call_ensures(MlaConfig::from_config, (&cfg,), r),
    ensures
        ({
            let text = cfg.extra_config_json;
            &&& r.hidden_size == cfg.hidden_size && r.num_attention_heads == cfg.num_attention_heads
            &&& r.attention_bias <==> cfg.attention_bias is Some && cfg.attention_bias->0
            &&& kind_at(text, "/kv_lora_rank"@) matches Some(JsonKind::Number(Some(n))) ==> (n <= usize::MAX ==> r.kv_lora_rank == n)
            &&& !(kind_at(text, "/kv_lora_rank"@) matches Some(JsonKind::Number(Some(_)))) ==> r.kv_lora_rank == 512
            &&& kind_at(text, "/qk_nope_head_dim"@) matches Some(JsonKind::Number(Some(n))) ==> (n <= usize::MAX ==> r.qk_nope_head_dim == n)
            &&& !(kind_at(text, "/qk_nope_head_dim"@) matches Some(JsonKind::Number(Some(_)))) ==> r.qk_nope_head_dim == 128
            &&& kind_at(text, "/qk_rope_head_dim"@) matches Some(JsonKind::Number(Some(n))) ==> (n <= usize::MAX ==> r.qk_rope_head_dim == n)
            &&& !(kind_at(text, "/qk_rope_head_dim"@) matches Some(JsonKind::Number(Some(_)))) ==> r.qk_rope_head_dim == 64
            &&& kind_at(text, "/v_head_dim"@) matches Some(JsonKind::Number(Some(n))) ==> (n <= usize::MAX ==> r.v_head_dim == n)
            &&& !(kind_at(text, "/v_head_dim"@) matches Some(JsonKind::Number(Some(_)))) ==> r.v_head_dim == 128
            &&& kind_at(text, "/q_lora_rank"@) matches Some(JsonKind::Number(Some(n))) ==> (n <= usize::MAX ==> (r.q_lora_rank matches Some(k)
                && k == n))
            &&& !(kind_at(text, "/q_lora_rank"@) matches Some(JsonKind::Number(Some(_)))) ==> r.q_lora_rank is None
            &&& kind_at(text, "/index_head_dim"@) matches Some(JsonKind::Number(Some(n))) ==> (n <= usize::MAX ==> (r.index_head_dim matches Some(
                k,
            ) && k == n))
            &&& !(kind_at(text, "/index_head_dim"@) matches Some(JsonKind::Number(Some(_)))) ==> r.index_head_dim is None
            &&& kind_at(text, "/index_topk"@) matches Some(JsonKind::Number(Some(n))) ==> (n <= usize::MAX ==> (r.index_topk matches Some(k)
                && k == n))
            &&& kind_at(text, "/index_n_heads"@) matches Some(JsonKind::Number(Some(n))) ==> (n <= usize::MAX ==> (r.index_n_heads matches Some(k)
                && k == n))
            &&& kind_at(text, "/index_skip_topk_offset"@) matches Some(JsonKind::Number(Some(n))) ==> (n <= usize::MAX
                ==> (r.index_skip_topk_offset matches Some(k) && k == n))
        }),
{
}

/// A prefill is thinned out only where it has more tokens than are chosen; of a
/// head the first elements are rotated and all others are not.
pub proof fn law_indexers_choose_of_long_prefills(x: DsaIndexer, seq_len: usize, r: Option<IndexPass>, k: usize)
    requires
        x.cfg.qk_rope_head_dim <= x.cfg.index_head_dim,
        call_ensures(DsaIndexer::forward, (&x, seq_len), r),
        call_ensures(DsaIndexer::index_topk, (&x,), k),
    ensures
        k == x.cfg.index_topk,
        r is Some <==> seq_len > x.cfg.index_topk,
        r matches Some(p) ==> p.topk == x.cfg.index_topk && p.rope.start == 0 && p.rope.len == x.cfg.qk_rope_head_dim && p.pass.start
            == p.rope.len && p.rope.len + p.pass.len == x.cfg.index_head_dim && p.score_as == DType::BF16 && p.weights_as == DType::F32,
{
}

/// An indexer reads queries of all its heads from the low rank, one key head and
/// a weight for each head from the hidden states; the weights are never
/// quantized as the checkpoint is.
pub proof fn law_planned_indexers(vb: VarBuilderX, config: Config, cfg: IndexerConfig, dtype: DType, r: Result<DsaIndexer, Fp8Error>)
    requires
        cfg.wf(vb.checkpoint.gguf, config.quantization_config, dtype),
        call_ensures(DsaIndexer::new, (&vb, &config, cfg, dtype), r),
        r is Ok,
    ensures
        r->Ok_0.cfg == cfg,
        r->Ok_0.wq_b.linear matches crate::linear::LinearX::Linear(l) ==> l.weight.shape@[0] == cfg.index_n_heads * cfg.index_head_dim
            && l.weight.shape@[1] == cfg.q_lora_rank && l.bias is None,
        r->Ok_0.wk.linear matches crate::linear::LinearX::Linear(l) ==> l.weight.shape@ == seq![cfg.index_head_dim, cfg.hidden_size],
        !vb.checkpoint.gguf && config.quant is None ==> (r->Ok_0.weights_proj.linear matches crate::linear::LinearX::Linear(l)
            && l.weight.shape@ == seq![cfg.index_n_heads, cfg.hidden_size]),
{
    assert(0 <= cfg.index_n_heads * cfg.index_head_dim) by (nonlinear_arith);
}

/// A planned layer: queries through a low rank where there is one; latent and
/// rotated keys in one projection; keys and values of each head, keys first, in
/// one up-projection, or two stored ones that end up with heads first; an output
/// projection from the values of all heads.
pub proof fn law_planned_latent_attention(
    vb: VarBuilderX,
    cfg: MlaConfig,
    config: Config,
    stored: StoredUp,
    dtype: DType,
    layer_idx: usize,
    r: Result<MlaAttention, Fp8Error>,
)
    requires
        cfg.wf(vb.checkpoint.gguf, config.quantization_config, dtype),
        call_ensures(MlaAttention::new, (&vb, &cfg, &config, &stored, dtype, layer_idx), r),
        r is Ok,
    ensures
        ({
            let a = r->Ok_0;
            let heads = cfg.num_attention_heads;
            let fp8 = config.quantization_config is Some && config.quantization_config->0.quant_method@ == "fp8"@;
            let split = vb.checkpoint.gguf && vb.child("attn_k_b"@).has("weight"@);
            &&& a.query is Low <==> cfg.q_lora_rank is Some
            &&& a.query matches QueryProjection::Low { q_a_proj, q_b_proj, .. } ==> {
                &&& q_a_proj.linear matches crate::linear::LinearX::Linear(l) ==> l.weight.shape@ == seq![cfg.q_lora_rank->0, cfg.hidden_size]
                &&& q_b_proj.linear matches crate::linear::LinearX::Linear(l) ==> l.weight.shape@[0] == heads * (cfg.qk_nope_head_dim
                    + cfg.qk_rope_head_dim) && l.weight.shape@[1] == cfg.q_lora_rank->0 && l.bias is None
            }
            &&& a.query matches QueryProjection::Direct { q_proj } ==> (q_proj.linear matches crate::linear::LinearX::Linear(l)
                ==> l.weight.shape@[0] == heads * (cfg.qk_nope_head_dim + cfg.qk_rope_head_dim) && l.weight.shape@[1] == cfg.hidden_size)
            &&& a.kv_a_proj_with_mqa.linear matches crate::linear::LinearX::Linear(l) ==> l.weight.shape@[0] == cfg.kv_lora_rank
                + cfg.qk_rope_head_dim && l.weight.shape@[1] == cfg.hidden_size && (l.bias is Some <==> cfg.attention_bias)
            &&& a.up is Split <==> split
            &&& a.up is Applied <==> !split && fp8
            &&& a.up matches UpProjection::Joint { weight, rows, .. } ==> weight.shape@[0] == heads * (cfg.qk_nope_head_dim + cfg.v_head_dim)
                && weight.shape@[1] == cfg.kv_lora_rank && rows.heads == heads && rows.keys.start == 0 && rows.keys.len == cfg.qk_nope_head_dim
                && rows.values.start == rows.keys.len && rows.values.len == cfg.v_head_dim
            &&& a.o_proj.linear matches crate::linear::LinearX::Linear(l) ==> l.weight.shape@[0] == cfg.hidden_size && l.weight.shape@[1] == heads
                * cfg.v_head_dim
            &&& a.scale_width == cfg.qk_nope_head_dim + cfg.qk_rope_head_dim
            &&& a.promote_qk_to_f32 <==> vb.checkpoint.gguf || config.higher_precision_required
            &&& a.cfg == cfg && a.dtype == dtype
        }),
{
    assert(0 <= cfg.num_attention_heads * cfg.q_head_dim() && 0 <= cfg.kv_b_out() && 0 <= cfg.num_attention_heads * cfg.v_head_dim) by {
        vstd::arithmetic::mul::lemma_mul_nonnegative(cfg.num_attention_heads as int, cfg.q_head_dim());
        vstd::arithmetic::mul::lemma_mul_nonnegative(cfg.num_attention_heads as int, cfg.qk_nope_head_dim + cfg.v_head_dim);
        vstd::arithmetic::mul::lemma_mul_nonnegative(cfg.num_attention_heads as int, cfg.v_head_dim as int);
    }
}

/// A layer has an indexer where the configuration gives its width, the layer is
/// not among the first, one by default, and its tensors exist; its other sizes
/// have defaults.
pub proof fn law_layers_with_indexers(
    vb: VarBuilderX,
    cfg: MlaConfig,
    config: Config,
    stored: StoredUp,
    dtype: DType,
    layer_idx: usize,
    r: Result<MlaAttention, Fp8Error>,
)
    requires
        cfg.wf(vb.checkpoint.gguf, config.quantization_config, dtype),
        call_ensures(MlaAttention::new, (&vb, &cfg, &config, &stored, dtype, layer_idx), r),
        r is Ok,
    ensures
        ({
            let a = r->Ok_0;
            let there = vb.child("indexer"@).has("wq_b.weight"@) || vb.child("indexer"@).has("attn_q_b.weight"@);
            &&& cfg.index_head_dim is None || !there ==> a.indexer is None
            &&& cfg.index_skip_topk_offset matches Some(n) ==> (cfg.index_head_dim is Some && there ==> (a.indexer is Some <==> layer_idx >= n))
            &&& cfg.index_skip_topk_offset is None && cfg.index_head_dim is Some && there ==> (a.indexer is Some <==> layer_idx >= 1)
            &&& a.indexer matches Some(x) ==> {
                &&& x.cfg.index_head_dim == cfg.index_head_dim->0 && x.cfg.qk_rope_head_dim == cfg.qk_rope_head_dim && x.cfg.hidden_size
                    == cfg.hidden_size
                &&& cfg.index_n_heads matches Some(n) ==> x.cfg.index_n_heads == n
                &&& cfg.index_n_heads is None ==> x.cfg.index_n_heads == 4
                &&& cfg.index_topk matches Some(n) ==> x.cfg.index_topk == n
                &&& cfg.index_topk is None ==> x.cfg.index_topk == 2048
                &&& cfg.q_lora_rank matches Some(n) ==> x.cfg.q_lora_rank == n
                &&& cfg.q_lora_rank is None ==> x.cfg.q_lora_rank == 256
            }
        }),
{
}

/// Stored up-projections end up with heads first: keys as heads, key width,
/// latent width; values as heads, latent width, value width. Dimension `i` of
/// the result is the one that the order names.
pub proof fn law_stored_up_projections_are_reordered(
    vb: VarBuilderX,
    cfg: MlaConfig,
    config: Config,
    stored: StoredUp,
    dtype: DType,
    layer_idx: usize,
    r: Result<MlaAttention, Fp8Error>,
)
    requires
        cfg.wf(vb.checkpoint.gguf, config.quantization_config, dtype),
        call_ensures(MlaAttention::new, (&vb, &cfg, &config, &stored, dtype, layer_idx), r),
        r is Ok,
        r->Ok_0.up is Split,
    ensures
        r->Ok_0.up matches UpProjection::Split { k_b, v_b } && {
            let (ks, ko, vs, vo) = (k_b.read.shape@, k_b.order@, v_b.read.shape@, v_b.order@);
            &&& ks.len() == 3 && vs.len() == 3 && ko.len() == 3 && vo.len() == 3
            &&& ks[ko[0] as int] == cfg.num_attention_heads && ks[ko[1] as int] == cfg.qk_nope_head_dim && ks[ko[2] as int] == cfg.kv_lora_rank
            &&& vs[vo[0] as int] == cfg.num_attention_heads && vs[vo[1] as int] == cfg.kv_lora_rank && vs[vo[2] as int] == cfg.v_head_dim
            &&& (stored.k_b matches Some(s) && s@.len() == 3 && s@[0] == cfg.num_attention_heads && s@[2] != cfg.num_attention_heads)
                <==> ko[0] == 0
            &&& (stored.v_b matches Some(s) && s@.len() == 3 && s@[2] == cfg.kv_lora_rank && s@[1] != cfg.kv_lora_rank) <==> vo[0] == 0
        },
{
}

/// Queries are cut into what is not rotated and what is, rows of keys and values
/// into the latent and what is rotated, in that order and without a rest.
pub proof fn law_projections_are_cut_in_two(a: MlaAttention, r: MlaCuts, seq_len: usize, out: (usize, usize))
    requires
        a.cfg.num_attention_heads * a.cfg.v_head_dim <= usize::MAX,
        call_ensures(MlaAttention::cuts, (&a,), r),
        call_ensures(MlaAttention::project_mla_output, (&a, seq_len), out),
    ensures
        r.q_nope.start == 0 && r.q_nope.len == a.cfg.qk_nope_head_dim && r.q_pe.start == r.q_nope.len && r.q_pe.len == a.cfg.qk_rope_head_dim,
        r.latent.start == 0 && r.latent.len == a.cfg.kv_lora_rank && r.k_pe.start == r.latent.len && r.k_pe.len == a.cfg.qk_rope_head_dim,
        a.promote_qk_to_f32 ==> r.rotate_as == Some(DType::F32),
        !a.promote_qk_to_f32 ==> r.rotate_as is None,
        r.attend_as == a.dtype,
        out.0 == seq_len && out.1 == a.cfg.num_attention_heads * a.cfg.v_head_dim,
{
    assert(0 <= a.cfg.num_attention_heads * a.cfg.v_head_dim) by (nonlinear_arith);
}

/// Which kernel runs: none without a cache; with plans the planned kernels, and
/// without them the paged ones; sparse attention exactly where tokens were
/// chosen, and only in a prefill. What is missing is named.
pub proof fn law_kernels_follow_what_is_at_hand(a: MlaAttention, x: MlaInputs, r: Result<MlaPass, MlaError>, asks: bool)
    requires
        x.chosen ==> x.is_prefill && x.cache && x.block_tables && x.context_lens && a.indexer is Some && a.query is Low && (x.planned
            || x.cu_seqlens),
        call_ensures(MlaAttention::forward, (&a, &x), r),
        call_ensures(MlaAttention::asks_indexer, (&a, &x), asks),
    ensures
        asks ==> x.is_prefill && x.cache && x.block_tables && x.context_lens && a.indexer is Some && a.query is Low && (x.planned
            || x.cu_seqlens),
        x.is_prefill && x.cache && x.block_tables && x.context_lens && a.indexer is Some && a.query is Low && (x.planned || x.cu_seqlens)
            ==> asks,
        !x.cache ==> r == Err::<MlaPass, MlaError>(MlaError::Unsupported),
        !x.planned && (!x.block_tables || !x.context_lens) ==> r == Err::<MlaPass, MlaError>(MlaError::Unsupported),
        r matches Ok(p) ==> {
            &&& p.path == MlaPath::SparsePrefill <==> x.chosen
            &&& p.path == MlaPath::SparsePrefill || p.path == MlaPath::PlannedPrefill || p.path == MlaPath::PagedPrefill <==> x.is_prefill
            &&& p.path == MlaPath::PlannedPrefill ==> x.planned && x.prefill_plan
            &&& p.path == MlaPath::PlannedDecode ==> x.planned && x.decode_plan
            &&& p.path == MlaPath::PagedPrefill || p.path == MlaPath::PagedDecode ==> !x.planned
            &&& p.path == MlaPath::SparsePrefill || p.path == MlaPath::PagedPrefill ==> x.cu_seqlens
            &&& p.cuts.q_pe.start == a.cfg.qk_nope_head_dim && p.cuts.k_pe.start == a.cfg.kv_lora_rank
        },
        x.cache && x.planned && !x.chosen && x.is_prefill && !x.prefill_plan ==> r == Err::<MlaPass, MlaError>(MlaError::NoPrefillPlan),
        x.cache && x.planned && !x.is_prefill && !x.decode_plan ==> r == Err::<MlaPass, MlaError>(MlaError::NoDecodePlan),
        x.cache && x.block_tables && x.context_lens && x.cu_seqlens && x.prefill_plan && x.decode_plan ==> r is Ok,
{
}

} // verus!
