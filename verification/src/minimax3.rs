//! Attention whose prefills look at chosen blocks of tokens only.

use crate::checkpoint::{DType, VarBuilderX};
use crate::config::Config;
use crate::distributed::{kv_head_shard, kv_head_shard_of, Comm, KvShardError, Shard};
use crate::linear::{fp8_unplannable, plannable, Fp8Error, LinearSize};
use crate::others::{rms_norm, NormX};
use crate::parallel::{
    column_size, fp8_refusal, full_size, row_size, ReplicatedLinear, TensorParallelColumnLinear, TensorParallelRowLinear,
};
use vstd::prelude::*;

verus! {

/// Sparse attention with an index branch beside queries and keys.
pub struct MiniMax3SparseAttention {
    pub q_proj: TensorParallelColumnLinear,
    pub k_proj: TensorParallelColumnLinear,
    pub v_proj: TensorParallelColumnLinear,
    pub index_q_proj: TensorParallelColumnLinear,
    pub index_k_proj: ReplicatedLinear,
    pub q_norm: NormX,
    pub k_norm: NormX,
    pub index_q_norm: NormX,
    pub index_k_norm: NormX,
    pub o_proj: TensorParallelRowLinear,
    pub num_heads: usize,
    pub num_kv_heads: usize,
    pub index_heads: usize,
    pub head_dim: usize,
    pub index: SparseIndex,
    pub sliding_window: Option<usize>,
    /// Whether cached keys are kept in FP8.
    pub fp8_keys: bool,
    pub dtype: DType,
}

/// How a pass attends.
#[derive(Debug, Clone, Copy, PartialEq, Eq, Structural)]
pub enum SparsePass {
    /// Keys and values are cached, blocks are chosen, and queries look at the
    /// chosen blocks.
    Blocks,
    /// Queries look at all cached tokens within the window.
    Paged { sliding_window: Option<usize>, fp8_keys: bool },
}

/// What choosing blocks takes.
#[derive(Debug, Clone, Copy, PartialEq, Eq, Structural)]
pub struct BlockChoice {
    pub topk_blocks: usize,
    pub block_size: usize,
}

/// The index branch.
#[derive(Debug, Clone, Copy, PartialEq, Eq, Structural)]
pub struct SparseIndex {
    pub index_dim: usize,
    pub index_heads: usize,
    pub topk_blocks: usize,
    pub block_size: usize,
    /// Whether 1 is added to the weights of norms.
    pub use_gemma_norm: bool,
}

/// Shapes of the projections of a pass.
#[derive(Debug, Clone, Copy, PartialEq, Eq)]
pub struct SparseShapes {
    pub q: (usize, usize, usize),
    pub kv: (usize, usize, usize),
    pub index_q: (usize, usize, usize),
    pub index_k: (usize, usize),
    pub rotated_k: Option<(usize, usize, usize)>,
    /// Element type that all are brought into.
    pub dtype: DType,
}

/// Why the layer cannot be planned.
#[derive(Debug, Clone, Copy, PartialEq, Eq, Structural)]
pub enum SparseError {
    KvHeads(KvShardError),
    /// Index heads and key-value heads differ in number.
    IndexHeads { index_heads: usize, kv_heads: usize },
    Fp8(Fp8Error),
    /// Blocks cannot be chosen without the offsets of the sequences.
    NoOffsets,
}

/// The width of a head.
pub open spec fn sparse_head_dim(cfg: Config) -> usize {
    match cfg.head_dim {
        Some(d) => d,
        None => 128,
    }
}

/// A projection spread as the key-value heads are.
pub open spec fn kv_size(hidden: usize, out_dim: usize, kv_shard: Shard, dtype: DType) -> LinearSize {
    LinearSize { in_dim: hidden, out_dim, shard: kv_shard, bias: false, dtype }
}

fn same_ends(a: &Vec<u32>, b: &Vec<u32>) -> (r: bool)
    ensures
        r == (b@ == a@),
{
    if a.len() != b.len() {
        return false;
    }
    let mut i: usize = 0;
    while i < a.len()
        invariant
            i <= a@.len(),
            a@.len() == b@.len(),
            forall|j: int| 0 <= j < i ==> a@[j] == b@[j],
        decreases a@.len() - i,
    {
        if a[i] != b[i] {
            return false;
        }
        i = i + 1;
    }
    assert(b@ =~= a@);
    true
}

impl MiniMax3SparseAttention {
    /// Whether the layer can be planned.
    pub open spec fn wf(cfg: Config, gguf: bool, comm: Comm, x: SparseIndex, dtype: DType) -> bool {
        let d = sparse_head_dim(cfg);
        let q = cfg.quantization_config;
        let h = cfg.hidden_size;
        &&& comm.wf()
        &&& cfg.num_attention_heads * d <= usize::MAX
        &&& cfg.num_key_value_heads * d <= usize::MAX
        &&& x.index_heads * x.index_dim <= usize::MAX
        &&& plannable(column_size(h, (cfg.num_attention_heads * d) as usize, false, comm, dtype), gguf, q)
        &&& kv_head_shard_of(cfg.num_key_value_heads, comm.rank, comm.world_size) matches Ok(kv) ==> {
            &&& plannable(kv_size(h, (cfg.num_key_value_heads * d) as usize, kv.1, dtype), gguf, q)
            &&& plannable(kv_size(h, (x.index_heads * x.index_dim) as usize, kv.1, dtype), gguf, q)
        }
        &&& plannable(full_size(h, x.index_dim, false, dtype), gguf, q)
        &&& plannable(row_size(Self::out_width(cfg, comm) as usize, h, comm, dtype), gguf, q)
    }

    /// Width of the heads of one rank.
    pub open spec fn out_width(cfg: Config, comm: Comm) -> int {
        (cfg.num_attention_heads / comm.world_size) * sparse_head_dim(cfg)
    }

    /// Why the layer cannot be planned, if so.
    pub open spec fn refusal(vb: &VarBuilderX, comm: Comm, cfg: Config, x: SparseIndex) -> Option<SparseError> {
        let q = cfg.quantization_config;
        match kv_head_shard_of(cfg.num_key_value_heads, comm.rank, comm.world_size) {
            Err(e) => Some(SparseError::KvHeads(e)),
            Ok(_) => if x.index_heads != cfg.num_key_value_heads {
                Some(SparseError::IndexHeads { index_heads: x.index_heads, kv_heads: cfg.num_key_value_heads })
            } else if fp8_unplannable(&vb.child("q_proj"@), q) || fp8_unplannable(&vb.child("k_proj"@), q)
                || fp8_unplannable(&vb.child("v_proj"@), q) || fp8_unplannable(&vb.child("index_q_proj"@), q)
                || fp8_unplannable(&vb.child("index_k_proj"@), q) || fp8_unplannable(&vb.child("o_proj"@), q) {
                Some(SparseError::Fp8(fp8_refusal(q)))
            } else {
                None
            },
        }
    }

    /// Whether this is the layer that `cfg` asks for in the scope. The output
    /// projection is cut from the width of one rank.
    pub open spec fn is_planned(&self, vb: &VarBuilderX, comm: Comm, cfg: Config, x: SparseIndex, dtype: DType) -> bool {
        let q = cfg.quantization_config;
        let d = sparse_head_dim(cfg);
        let h = cfg.hidden_size;
        let kv = kv_head_shard_of(cfg.num_key_value_heads, comm.rank, comm.world_size)->Ok_0;
        let kv_out = (cfg.num_key_value_heads * d) as usize;
        &&& self.q_proj.linear.is_layer(
            &vb.child("q_proj"@), column_size(h, (cfg.num_attention_heads * d) as usize, false, comm, dtype), q, cfg.quant)
        &&& self.k_proj.linear.is_layer(&vb.child("k_proj"@), kv_size(h, kv_out, kv.1, dtype), q, cfg.quant)
        &&& self.v_proj.linear.is_layer(&vb.child("v_proj"@), kv_size(h, kv_out, kv.1, dtype), q, cfg.quant)
        &&& self.index_q_proj.linear.is_layer(
            &vb.child("index_q_proj"@), kv_size(h, (x.index_heads * x.index_dim) as usize, kv.1, dtype), q, cfg.quant)
        &&& self.index_k_proj.linear.is_layer(&vb.child("index_k_proj"@), full_size(h, x.index_dim, false, dtype), q, cfg.quant)
        &&& self.q_norm.is_rms(&vb.child("q_norm"@), d, DType::F32, x.use_gemma_norm, Shard::whole())
        &&& self.k_norm.is_rms(&vb.child("k_norm"@), d, DType::F32, x.use_gemma_norm, Shard::whole())
        &&& self.index_q_norm.is_rms(&vb.child("index_q_norm"@), x.index_dim, DType::F32, x.use_gemma_norm, Shard::whole())
        &&& self.index_k_norm.is_rms(&vb.child("index_k_norm"@), x.index_dim, DType::F32, x.use_gemma_norm, Shard::whole())
        &&& TensorParallelRowLinear::planned(
            Ok(self.o_proj), &vb.child("o_proj"@), row_size(Self::out_width(cfg, comm) as usize, h, comm, dtype), comm, q, cfg.quant)
        &&& self.num_heads == cfg.num_attention_heads / comm.world_size
        &&& self.num_kv_heads == kv.0
        &&& self.index_heads == kv.0
        &&& self.head_dim == d
        &&& self.index == x
        &&& self.sliding_window == cfg.sliding_window
        &&& self.fp8_keys == cfg.fp8_keys
        &&& self.dtype == dtype
    }

    pub fn new(vb: &VarBuilderX, comm: &Comm, config: &Config, index: SparseIndex, dtype: DType) -> (r: Result<Self, SparseError>)
        requires
            Self::wf(*config, vb.checkpoint.gguf, *comm, index, dtype),
        ensures
            match Self::refusal(vb, *comm, *config, index) {
                Some(e) => r == Err::<Self, SparseError>(e),
                None => r matches Ok(a) && a.is_planned(vb, *comm, *config, index, dtype),
            },
    {
        let hidden: usize = config.hidden_size;
        let head_dim: usize = match config.head_dim {
            Some(d) => d,
            None => 128,
        };
        let num_heads: usize = config.num_attention_heads / comm.world_size();
        let (num_kv_heads, kv_shard) = match kv_head_shard(config.num_key_value_heads, comm.rank(), comm.world_size()) {
            Ok(h) => h,
            Err(e) => return Err(SparseError::KvHeads(e)),
        };
        if index.index_heads != config.num_key_value_heads {
            return Err(SparseError::IndexHeads { index_heads: index.index_heads, kv_heads: config.num_key_value_heads });
        }
        let q = &config.quantization_config;
        let q_size = LinearSize {
            in_dim: hidden,
            out_dim: config.num_attention_heads * head_dim,
            shard: crate::distributed::shard(0, comm.rank(), comm.world_size()),
            bias: false,
            dtype,
        };
        let kv_size = LinearSize {
            in_dim: hidden,
            out_dim: config.num_key_value_heads * head_dim,
            shard: kv_shard,
            bias: false,
            dtype,
        };
        let iq_size = LinearSize {
            in_dim: hidden,
            out_dim: index.index_heads * index.index_dim,
            shard: kv_shard,
            bias: false,
            dtype,
        };
        let q_proj = match TensorParallelColumnLinear::load_below(vb, "q_proj", q_size, q, &config.quant) {
            Ok(l) => l,
            Err(e) => return Err(SparseError::Fp8(e)),
        };
        let k_proj = match TensorParallelColumnLinear::load_below(vb, "k_proj", kv_size, q, &config.quant) {
            Ok(l) => l,
            Err(e) => return Err(SparseError::Fp8(e)),
        };
        let v_proj = match TensorParallelColumnLinear::load_below(vb, "v_proj", kv_size, q, &config.quant) {
            Ok(l) => l,
            Err(e) => return Err(SparseError::Fp8(e)),
        };
        let index_q_proj = match TensorParallelColumnLinear::load_below(vb, "index_q_proj", iq_size, q, &config.quant) {
            Ok(l) => l,
            Err(e) => return Err(SparseError::Fp8(e)),
        };
        let index_k_proj = match ReplicatedLinear::load_below(
            vb, "index_k_proj", hidden, index.index_dim, false, q, &config.quant, dtype,
        ) {
            Ok(l) => l,
            Err(e) => return Err(SparseError::Fp8(e)),
        };
        let (qn, kn, iqn, ikn) = (vb.pp("q_norm"), vb.pp("k_norm"), vb.pp("index_q_norm"), vb.pp("index_k_norm"));
        let q_norm = rms_norm(head_dim, &qn, DType::F32, index.use_gemma_norm);
        let k_norm = rms_norm(head_dim, &kn, DType::F32, index.use_gemma_norm);
        let index_q_norm = rms_norm(index.index_dim, &iqn, DType::F32, index.use_gemma_norm);
        let index_k_norm = rms_norm(index.index_dim, &ikn, DType::F32, index.use_gemma_norm);
        proof {
            vstd::arithmetic::div_mod::lemma_div_is_ordered_by_denominator(
                config.num_attention_heads as int, 1, comm.world_size as int);
            vstd::arithmetic::div_mod::lemma_div_basics(config.num_attention_heads as int);
            vstd::arithmetic::mul::lemma_mul_inequality(num_heads as int, config.num_attention_heads as int, head_dim as int);
        }
        let o_proj = match TensorParallelRowLinear::load_below(
            vb, "o_proj", num_heads * head_dim, hidden, comm, q, &config.quant, dtype,
        ) {
            Ok(l) => l,
            Err(e) => return Err(SparseError::Fp8(e)),
        };
        Ok(
            MiniMax3SparseAttention {
                q_proj,
                k_proj,
                v_proj,
                index_q_proj,
                index_k_proj,
                q_norm,
                k_norm,
                index_q_norm,
                index_k_norm,
                o_proj,
                num_heads,
                num_kv_heads,
                index_heads: num_kv_heads,
                head_dim,
                index,
                sliding_window: config.sliding_window,
                fp8_keys: config.fp8_keys,
                dtype,
            },
        )
    }

    /// The shapes of queries, keys and values of `tokens` tokens, of index
    /// queries, and of index keys: these have a head of their own while they
    /// are rotated.
    pub fn project_and_rotate(&self, tokens: usize, rotates: bool) -> (r: SparseShapes)
        ensures
            r == (SparseShapes {
                q: (tokens, self.num_heads, self.head_dim),
                kv: (tokens, self.num_kv_heads, self.head_dim),
                index_q: (tokens, self.index_heads, self.index.index_dim),
                index_k: (tokens, self.index.index_dim),
                rotated_k: if rotates { Some((tokens, 1, self.index.index_dim)) } else { None },
                dtype: self.dtype,
            }),
    {
        SparseShapes {
            q: (tokens, self.num_heads, self.head_dim),
            kv: (tokens, self.num_kv_heads, self.head_dim),
            index_q: (tokens, self.index_heads, self.index.index_dim),
            index_k: (tokens, self.index.index_dim),
            rotated_k: if rotates { Some((tokens, 1, self.index.index_dim)) } else { None },
            dtype: self.dtype,
        }
    }

    /// Whether blocks are chosen for a pass over `tokens` tokens: a prefill
    /// whose sequences end with the tokens at hand and have nothing cached.
    pub open spec fn chooses(is_prefill: bool, tokens: usize, seqlens: Option<Vec<u32>>, kv_seqlens: Option<Vec<u32>>) -> bool {
        is_prefill && seqlens is Some && seqlens->0@.len() > 0 && seqlens->0@.last() == tokens
            && kv_seqlens is Some && kv_seqlens->0@ == seqlens->0@
    }

    /// How a pass over `tokens` tokens attends. `seqlens` are the ends of the
    /// query sequences, `kv_seqlens` those of the key sequences.
    pub fn forward(&self, is_prefill: bool, tokens: usize, seqlens: &Option<Vec<u32>>, kv_seqlens: &Option<Vec<u32>>) -> (r: SparsePass)
        ensures
            r == if Self::chooses(is_prefill, tokens, *seqlens, *kv_seqlens) {
                SparsePass::Blocks
            } else {
                SparsePass::Paged { sliding_window: self.sliding_window, fp8_keys: self.fp8_keys }
            },
    {
        let paged = SparsePass::Paged { sliding_window: self.sliding_window, fp8_keys: self.fp8_keys };
        if !is_prefill {
            return paged;
        }
        let (q, k) = match (seqlens, kv_seqlens) {
            (Some(q), Some(k)) => (q, k),
            _ => return paged,
        };
        if q.len() > 0 && q[q.len() - 1] as u64 == tokens as u64 && same_ends(q, k) {
            SparsePass::Blocks
        } else {
            paged
        }
    }

    /// What choosing blocks takes, once keys and values are cached;
    /// `has_offsets` says whether the offsets of the sequences are at hand.
    pub fn choice(&self, has_offsets: bool) -> (r: Result<BlockChoice, SparseError>)
        ensures
            r == if has_offsets {
                Ok(BlockChoice { topk_blocks: self.index.topk_blocks, block_size: self.index.block_size })
            } else {
                Err::<BlockChoice, SparseError>(SparseError::NoOffsets)
            },
    {
        if !has_offsets {
            return Err(SparseError::NoOffsets);
        }
        Ok(BlockChoice { topk_blocks: self.index.topk_blocks, block_size: self.index.block_size })
    }
}

/// A planned layer: queries of the rank's share of all heads; keys, values and
/// index queries as key-value heads are shared; one index key for all. Index
/// heads must be as many as key-value heads. Heads are 128 wide by default.
pub proof fn law_planned_sparse_attention(
    vb: VarBuilderX,
    comm: Comm,
    cfg: Config,
    x: SparseIndex,
    dtype: DType,
    r: Result<MiniMax3SparseAttention, SparseError>,
    heads: Result<(usize, Shard), KvShardError>,
)
    requires
        MiniMax3SparseAttention::wf(cfg, vb.checkpoint.gguf, comm, x, dtype),
        call_ensures(MiniMax3SparseAttention::new, (&vb, &comm, &cfg, x, dtype), r),
        call_ensures(kv_head_shard, (cfg.num_key_value_heads, comm.rank, comm.world_size), heads),
    ensures
        heads matches Err(e) ==> r == Err::<MiniMax3SparseAttention, SparseError>(SparseError::KvHeads(e)),
        heads is Ok && x.index_heads != cfg.num_key_value_heads ==> (r matches Err(SparseError::IndexHeads { index_heads, kv_heads })
            && index_heads == x.index_heads && kv_heads == cfg.num_key_value_heads),
        r matches Ok(a) ==> {
            let kv = heads->Ok_0;
            &&& x.index_heads == cfg.num_key_value_heads
            &&& cfg.head_dim matches Some(d) ==> a.head_dim == d
            &&& cfg.head_dim is None ==> a.head_dim == 128
            &&& a.num_heads * comm.world_size <= cfg.num_attention_heads < (a.num_heads + 1) * comm.world_size
            &&& a.num_kv_heads == kv.0 && a.index_heads == kv.0 && a.index == x
            &&& a.sliding_window == cfg.sliding_window && a.fp8_keys == cfg.fp8_keys && a.dtype == dtype
            &&& crate::parallel::cut_of(a.q_proj.linear) == Some(Shard { dim: 0, rank: comm.rank, world_size: comm.world_size })
            &&& crate::parallel::cut_of(a.k_proj.linear) == Some(kv.1) && crate::parallel::cut_of(a.v_proj.linear) == Some(kv.1)
            &&& crate::parallel::cut_of(a.index_q_proj.linear) == Some(kv.1)
            &&& crate::parallel::cut_of(a.index_k_proj.linear) == Some(Shard::whole())
            &&& a.q_proj.linear matches crate::linear::LinearX::Linear(l) ==> l.weight.shape@[0] == cfg.num_attention_heads * a.head_dim
            &&& a.k_proj.linear matches crate::linear::LinearX::Linear(l) ==> l.weight.shape@[0] == cfg.num_key_value_heads * a.head_dim
            &&& a.index_q_proj.linear matches crate::linear::LinearX::Linear(l) ==> l.weight.shape@[0] == x.index_heads * x.index_dim
            &&& a.index_k_proj.linear matches crate::linear::LinearX::Linear(l) ==> l.weight.shape@[0] == x.index_dim
            &&& a.q_norm.weight.shape@ == seq![a.head_dim] && a.index_q_norm.weight.shape@ == seq![x.index_dim]
            &&& a.q_norm.plus_one == x.use_gemma_norm && a.index_k_norm.plus_one == x.use_gemma_norm
        },
{
    let (n, w, d) = (cfg.num_attention_heads as int, comm.world_size as int, sparse_head_dim(cfg) as int);
    let k = n / w;
    vstd::arithmetic::div_mod::lemma_fundamental_div_mod(n, w);
    vstd::arithmetic::mul::lemma_mul_is_commutative(w, k);
    assert((k + 1) * w == k * w + w) by (nonlinear_arith);
    assert(0 <= n * d && 0 <= cfg.num_key_value_heads * d && 0 <= x.index_heads * x.index_dim) by (nonlinear_arith)
        requires
            0 <= n,
            0 <= d,
    ;
}

/// Blocks are chosen exactly in a prefill whose sequences end with the tokens at
/// hand and have nothing cached before; else queries look at all cached tokens
/// in the window.
pub proof fn law_blocks_are_chosen_in_fresh_prefills(
    a: MiniMax3SparseAttention,
    is_prefill: bool,
    tokens: usize,
    q: Option<Vec<u32>>,
    k: Option<Vec<u32>>,
    r: SparsePass,
    offsets: bool,
    c: Result<BlockChoice, SparseError>,
)
    requires
        call_ensures(MiniMax3SparseAttention::forward, (&a, is_prefill, tokens, &q, &k), r),
        call_ensures(MiniMax3SparseAttention::choice, (&a, offsets), c),
    ensures
        r == SparsePass::Blocks <==> is_prefill && q is Some && k is Some && q->0@.len() > 0 && q->0@.len() == k->0@.len() && q->0@[q->0@.len()
            - 1] == tokens && (forall|i: int| 0 <= i < q->0@.len() ==> #[trigger] q->0@[i] == k->0@[i]),
        r matches SparsePass::Paged { sliding_window, fp8_keys } ==> sliding_window == a.sliding_window && fp8_keys == a.fp8_keys,
        c is Ok <==> offsets,
        c matches Ok(x) ==> x.topk_blocks == a.index.topk_blocks && x.block_size == a.index.block_size,
{
    if q is Some && k is Some && q->0@.len() == k->0@.len() && (forall|i: int| 0 <= i < q->0@.len() ==> #[trigger] q->0@[i] == k->0@[i]) {
        assert(k->0@ =~= q->0@);
    }
}

/// Shapes of a pass: one row for each token; index keys get a head of their own
/// only while they are rotated.
pub proof fn law_shapes_of_sparse_passes(a: MiniMax3SparseAttention, tokens: usize, rotates: bool, r: SparseShapes)
    requires
        call_ensures(MiniMax3SparseAttention::project_and_rotate, (&a, tokens, rotates), r),
    ensures
        r.q.0 == tokens && r.q.1 == a.num_heads && r.q.2 == a.head_dim,
        r.kv.0 == tokens && r.kv.1 == a.num_kv_heads && r.kv.2 == a.head_dim,
        r.index_q.0 == tokens && r.index_q.1 == a.index_heads && r.index_q.2 == a.index.index_dim,
        r.index_k.0 == tokens && r.index_k.1 == a.index.index_dim,
        r.rotated_k is Some <==> rotates,
        r.rotated_k matches Some(k) ==> k.0 == tokens && k.1 == 1 && k.2 == a.index.index_dim,
        r.dtype == a.dtype,
{
}

} // verus!
