//! The DeepSeek V4 model: sparse attention over a window and compressed rows,
//! hyper-connections and routed experts.

use crate::attention::AttentionError;
use crate::checkpoint::{DType, VarBuilderX};
use crate::config::Config;
use crate::distributed::{Comm, Shard, VOCAB_PADDING_SIZE};
use crate::ds_v4::compressor::{
    law_seeding_leaves_nothing_behind, seeded_slot, CompressorDecodeState, CompressorWeights, LayerCompressionType, SlotHolds,
    StateClear, StateSeed,
};
use crate::ds_v4::decode_buffers::{positive, Clear, LayerDecodeBuffers};
use crate::ds_v4::hyper_connection::{hc_fits, HcBlockWeights, HcHeadWeights};
use crate::ds_v4::indexer::{smaller, IndexHeadsError, IndexerClear, IndexerDecodeState, IndexerSize, IndexerWeights};
use crate::ds_v4::mla_attention::{MlaV4Attention, MlaV4Config, MlaV4Keys, V4AttnError};
use crate::ds_v4::moe_v4::{ExpertBuffers, FusedMoeMxfp4, V4MoeError, V4Route};
use crate::ds_v4::rope_cache::{one_puts, CacheError, LayerSparseKvCache, RopeError, RowCopy, V4RopeTables};
use crate::json::{as_size, as_u64, find, find_items, kind_at, kinds_of_items, size_in, u64_in, JsonKind};
use crate::batch::last_rows;
use crate::math::{div_ceil, mul_fits, sum_fits};
use crate::mlp::{MlpSize, MLP};
use crate::others::{embedding, rms_norm, Embedding, NormX};
use crate::parallel::VocabParallelLinear;
use crate::text::{ascii_lower_char, decimal, decimal_of, lowercase, lowercase_of, same, same_in_small};
use vstd::arithmetic::div_mod::*;
use vstd::arithmetic::mul::*;
use vstd::prelude::*;

verus! {

/// What a configuration file holds under the keys of the model.
pub struct DeepSeekV4Keys {
    pub hc_mult: Option<JsonKind>,
    pub hc_sinkhorn_iters: Option<JsonKind>,
    pub num_hash_layers: Option<JsonKind>,
    pub index_head_dim: Option<JsonKind>,
    pub index_n_heads: Option<JsonKind>,
    pub index_topk: Option<JsonKind>,
    /// The items of `compress_ratios`, where it is an array.
    pub compress_ratios: Option<Vec<Option<JsonKind>>>,
}

impl DeepSeekV4Keys {
    /// Whether these are the keys of an optional configuration file.
    pub open spec fn are_of(&self, text: Option<String>) -> bool {
        &&& self.hc_mult == kind_at(text, "/hc_mult"@)
        &&& self.hc_sinkhorn_iters == kind_at(text, "/hc_sinkhorn_iters"@)
        &&& self.num_hash_layers == kind_at(text, "/num_hash_layers"@)
        &&& self.index_head_dim == kind_at(text, "/index_head_dim"@)
        &&& self.index_n_heads == kind_at(text, "/index_n_heads"@)
        &&& self.index_topk == kind_at(text, "/index_topk"@)
        &&& kinds_of_items(self.compress_ratios, text, "/compress_ratios"@)
    }

    pub fn read(text: &Option<String>) -> (r: Self)
        ensures
            r.are_of(*text),
    {
        DeepSeekV4Keys {
            hc_mult: find(text, "/hc_mult"),
            hc_sinkhorn_iters: find(text, "/hc_sinkhorn_iters"),
            num_hash_layers: find(text, "/num_hash_layers"),
            index_head_dim: find(text, "/index_head_dim"),
            index_n_heads: find(text, "/index_n_heads"),
            index_topk: find(text, "/index_topk"),
            compress_ratios: find_items(text, "/compress_ratios"),
        }
    }
}

/// The integers among some values, in their order.
pub open spec fn sizes_among(items: Seq<Option<JsonKind>>) -> Seq<usize>
    decreases items.len(),
{
    if items.len() == 0 {
        Seq::empty()
    } else {
        let rest = sizes_among(items.drop_last());
        match u64_in(items.last()) {
            Some(n) => rest.push(n as usize),
            None => rest,
        }
    }
}

fn pick_sizes(items: &Vec<Option<JsonKind>>) -> (r: Vec<usize>)
    ensures
        r@ == sizes_among(items@),
{
    let mut v: Vec<usize> = Vec::new();
    let mut i: usize = 0;
    while i < items.len()
        invariant
            i <= items@.len(),
            v@ == sizes_among(items@.take(i as int)),
        decreases items@.len() - i,
    {
        assert(items@.take(i + 1).drop_last() =~= items@.take(i as int));
        match as_u64(items[i]) {
            Some(n) => v.push(#[verifier::truncate] (n as usize)),
            None => {},
        }
        i = i + 1;
    }
    assert(items@.take(i as int) =~= items@);
    v
}

/// What the model asks for beyond the common configuration.
pub struct DeepSeekV4Config {
    pub hc_mult: usize,
    pub hc_sinkhorn_iters: usize,
    pub n_hash_layers: usize,
    pub compress_ratios: Vec<usize>,
    pub index_head_dim: usize,
    pub index_n_heads: usize,
    pub index_topk: usize,
    pub sliding_window: usize,
}

impl DeepSeekV4Config {
    /// Whether this is what the keys ask for.
    pub open spec fn is_of(&self, config: Config, k: DeepSeekV4Keys) -> bool {
        &&& self.hc_mult == size_in(k.hc_mult, 4)
        &&& self.hc_sinkhorn_iters == size_in(k.hc_sinkhorn_iters, 20)
        &&& self.n_hash_layers == size_in(k.num_hash_layers, 3)
        &&& self.compress_ratios@ == (match k.compress_ratios {
            Some(items) => sizes_among(items@),
            None => Seq::empty(),
        })
        &&& self.index_head_dim == size_in(k.index_head_dim, 128)
        &&& self.index_n_heads == size_in(k.index_n_heads, 64)
        &&& self.index_topk == size_in(k.index_topk, 512)
        &&& self.sliding_window == (match config.sliding_window { Some(w) => w, None => 128 })
    }

    pub fn from_keys(config: &Config, k: &DeepSeekV4Keys) -> (r: Self)
        ensures
            r.is_of(*config, *k),
    {
        DeepSeekV4Config {
            hc_mult: as_size(k.hc_mult, 4),
            hc_sinkhorn_iters: as_size(k.hc_sinkhorn_iters, 20),
            n_hash_layers: as_size(k.num_hash_layers, 3),
            compress_ratios: match &k.compress_ratios { Some(items) => pick_sizes(items), None => Vec::new() },
            index_head_dim: as_size(k.index_head_dim, 128),
            index_n_heads: as_size(k.index_n_heads, 64),
            index_topk: as_size(k.index_topk, 512),
            sliding_window: match config.sliding_window { Some(w) => w, None => 128 },
        }
    }

    pub fn from_config(config: &Config) -> (r: Self)
        ensures
            exists|k: DeepSeekV4Keys| #[trigger] k.are_of(config.extra_config_json) && r.is_of(*config, k),
    {
        let keys = DeepSeekV4Keys::read(&config.extra_config_json);
        let r = Self::from_keys(config, &keys);
        assert(keys.are_of(config.extra_config_json) && r.is_of(*config, keys));
        r
    }

    /// How a layer compresses; layers that no ratio is given for do not.
    pub open spec fn compression(&self, layer_idx: int) -> LayerCompressionType {
        if 0 <= layer_idx < self.compress_ratios@.len() {
            LayerCompressionType::of_ratio(self.compress_ratios@[layer_idx])
        } else {
            LayerCompressionType::Swa
        }
    }

    pub fn layer_compression(&self, layer_idx: usize) -> (r: LayerCompressionType)
        ensures
            r == self.compression(layer_idx as int),
    {
        if layer_idx < self.compress_ratios.len() {
            LayerCompressionType::from_ratio(self.compress_ratios[layer_idx])
        } else {
            LayerCompressionType::Swa
        }
    }

    pub open spec fn indexer_size(&self, config: Config, mla: MlaV4Config) -> IndexerSize {
        IndexerSize {
            hidden_dim: config.hidden_size,
            index_head_dim: self.index_head_dim,
            index_n_heads: self.index_n_heads,
            index_topk: self.index_topk,
            q_lora_rank: mla.q_lora_rank,
        }
    }
}

/// Whether routed experts are repacked to two bits.
pub open spec fn asks_w2(quant: Option<String>) -> bool {
    quant matches Some(q) && (lowercase_of(q@) == "w2"@ || lowercase_of(q@) == "moe_w2"@)
}

pub fn uses_w2(quant: &Option<String>) -> (r: bool)
    ensures
        r == asks_w2(*quant),
{
    match quant {
        Some(q) => {
            let small = lowercase(q.as_str());
            same(small.as_str(), "w2") || same(small.as_str(), "moe_w2")
        },
        None => false,
    }
}

/// Whether routed experts are stored in four bits, as they are where nothing
/// is said.
pub open spec fn fp4_experts(dtype: Option<String>) -> bool {
    dtype matches Some(d) ==> {
        let small = d@.map_values(|c: char| ascii_lower_char(c));
        small == "fp4"@ || small == "mxfp4"@
    }
}

pub fn experts_are_fp4(dtype: &Option<String>) -> (r: bool)
    ensures
        r == fp4_experts(*dtype),
{
    match dtype {
        Some(d) => same_in_small(d.as_str(), "fp4") || same_in_small(d.as_str(), "mxfp4"),
        None => true,
    }
}

/// Experts that are repacked to two bits once they are read.
pub struct V4MoeW2 {
    pub experts: FusedMoeMxfp4,
}

/// The routed experts of a layer.
pub enum MoeOrMlp {
    FusedMoeMxfp4(FusedMoeMxfp4),
    FusedMoeW2(V4MoeW2),
}

impl MoeOrMlp {
    /// The experts as they are stored.
    pub open spec fn stored(self) -> FusedMoeMxfp4 {
        match self {
            MoeOrMlp::FusedMoeMxfp4(m) => m,
            MoeOrMlp::FusedMoeW2(m) => m.experts,
        }
    }

    /// How tokens are routed; `has_ids` says whether they are known.
    pub fn forward_with_ids(&self, has_ids: bool) -> (r: Result<V4Route, V4MoeError>)
        ensures
            self.stored().router is Score ==> r == Ok::<V4Route, V4MoeError>(V4Route::Score { input: DType::F32 }),
            self.stored().router is Hash && has_ids ==> r == Ok::<V4Route, V4MoeError>(V4Route::Hash { input: DType::BF16 }),
            self.stored().router is Hash && !has_ids ==> r == Err::<V4Route, V4MoeError>(V4MoeError::NoInputIds),
    {
        match self {
            MoeOrMlp::FusedMoeMxfp4(m) => m.router.route(has_ids),
            MoeOrMlp::FusedMoeW2(m) => m.experts.router.route(has_ids),
        }
    }
}

/// Why a layer or the model cannot be planned.
#[derive(Debug, Clone, Copy, PartialEq, Eq, Structural)]
pub enum V4Error {
    Attention(V4AttnError),
    /// Routed experts have no block-quantized form.
    GgufExperts,
    /// Experts are quantized at load time to two bits only.
    Quant,
    /// Routed experts are not stored in four bits.
    ExpertDtype,
    Shared(AttentionError),
    IndexHeads(IndexHeadsError),
    Rope(RopeError),
}

/// A layer of the model, with what it keeps between passes.
pub struct DeepSeekV4DecoderLayer {
    pub self_attn: MlaV4Attention,
    pub mlp: MoeOrMlp,
    pub shared_expert: Option<MLP>,
    pub attn_norm: NormX,
    pub ffn_norm: NormX,
    pub hc_attn: HcBlockWeights,
    pub hc_ffn: HcBlockWeights,
    pub rope: V4RopeTables,
    pub sparse_kv: Option<LayerSparseKvCache>,
    pub compressor_state: Option<CompressorDecodeState>,
    pub indexer_state: Option<IndexerDecodeState>,
    pub decode_buffers: Option<LayerDecodeBuffers>,
    pub max_seq_len: usize,
    pub compression: LayerCompressionType,
    pub compressor: Option<CompressorWeights>,
    pub indexer: Option<IndexerWeights>,
    pub sliding_window: usize,
}

/// The scope of the shared experts of a layer.
pub open spec fn shared_scope(vb: &VarBuilderX) -> Seq<char> {
    let many = vb.child("ffn.shared_experts"@);
    if many.has("gate_proj.weight"@) || many.has("gate_proj.weight_packed"@) || vb.child("ffn.shared_experts.w1"@).has("weight"@) {
        "ffn.shared_experts"@
    } else {
        "ffn.shared_expert"@
    }
}

/// Width of the shared experts together; 0 where there are none.
pub open spec fn shared_width(config: Config) -> int {
    match config.moe_cfg {
        Some(m) => match m.shared_expert_intermediate_size {
            Some(n) => n * (match m.n_shared_experts { Some(k) => k as int, None => 1 }),
            None => 0,
        },
        None => 0,
    }
}

/// Whether the layer has shared experts.
pub open spec fn has_shared(config: Config) -> bool {
    config.moe_cfg matches Some(m) && (m.shared_expert_intermediate_size matches Some(n) && n > 0)
}

pub open spec fn shared_size(config: Config, dtype: DType) -> MlpSize {
    MlpSize {
        hidden_size: config.hidden_size,
        intermediate_size: shared_width(config) as usize,
        gate_up_merged: false,
        dtype,
    }
}

impl DeepSeekV4DecoderLayer {
    /// Whether a layer can be planned.
    pub open spec fn fits(
        config: Config,
        mla: MlaV4Config,
        v4: DeepSeekV4Config,
        kind: LayerCompressionType,
        gguf: bool,
        comm: Comm,
        max_seq_len: usize,
        dtype: DType,
    ) -> bool {
        &&& mla.wf(comm, gguf, config.quantization_config, dtype)
        &&& config.has_experts()
        &&& ExpertBuffers::of(config, comm).wf()
        &&& has_shared(config) ==> shared_width(config) <= usize::MAX
            && shared_size(config, dtype).wf(comm, gguf, config.quantization_config)
        &&& hc_fits(v4.hc_mult, config.hidden_size)
        &&& buffers_fit(mla.head_dim, v4.sliding_window, max_seq_len, kind)
        &&& kind is Overlap ==> index_fits(v4, max_seq_len)
    }

    /// Whether a layer can be planned.
    pub fn can_plan(
        config: &Config,
        mla: &MlaV4Config,
        v4: &DeepSeekV4Config,
        kind: LayerCompressionType,
        gguf: bool,
        comm: &Comm,
        max_seq_len: usize,
        dtype: DType,
    ) -> (r: bool)
        ensures
            r == Self::fits(*config, *mla, *v4, kind, gguf, *comm, max_seq_len, dtype),
    {
        let q = &config.quantization_config;
        if !mla.can_plan(comm, gguf, q, dtype) {
            return false;
        }
        let m = match &config.moe_cfg {
            Some(m) => m,
            None => return false,
        };
        let experts: usize = match m.num_experts {
            Some(e) => e,
            None => return false,
        };
        let b = ExpertBuffers {
            experts,
            hidden: config.hidden_size,
            local: m.moe_intermediate_size / comm.world_size(),
        };
        if !b.can_plan() {
            return false;
        }
        let width: usize = match m.shared_expert_intermediate_size { Some(n) => n, None => 0 };
        if width > 0 {
            let copies: usize = match m.n_shared_experts { Some(k) => k, None => 1 };
            if !mul_fits(width, copies) {
                return false;
            }
            let size = MlpSize {
                hidden_size: config.hidden_size,
                intermediate_size: width * copies,
                gate_up_merged: false,
                dtype,
            };
            if !size.can_plan(comm, gguf, q) {
                return false;
            }
        }
        copies_fit(v4.hc_mult, config.hidden_size) && can_buffer(mla.head_dim, v4.sliding_window, max_seq_len, kind)
            && (!kind.has_indexer() || can_index(v4, max_seq_len))
    }

    /// Why the layer cannot be planned, if so.
    pub open spec fn refusal(
        vb: &VarBuilderX,
        comm: Comm,
        config: Config,
        mla: MlaV4Config,
        v4: DeepSeekV4Config,
        kind: LayerCompressionType,
        dtype: DType,
    ) -> Option<V4Error> {
        let attn = MlaV4Attention::refusal(&Self::attn_scope(vb), comm, mla, config);
        let shared = MLP::refusal(&vb.child(shared_scope(vb)), shared_size(config, dtype), config.quantization_config, None, ""@);
        if attn is Some {
            Some(V4Error::Attention(attn->0))
        } else if vb.checkpoint.gguf {
            Some(V4Error::GgufExperts)
        } else if !asks_w2(config.quant) && config.quant is Some {
            Some(V4Error::Quant)
        } else if !asks_w2(config.quant) && !fp4_experts(config.expert_dtype) {
            Some(V4Error::ExpertDtype)
        } else if has_shared(config) && shared is Some {
            Some(V4Error::Shared(shared->0))
        } else if kind is Overlap && v4.index_n_heads % comm.world_size != 0 {
            Some(V4Error::IndexHeads(IndexHeadsError { index_n_heads: v4.index_n_heads, world_size: comm.world_size }))
        } else {
            None
        }
    }

    /// The scope of the attention of a layer.
    pub open spec fn attn_scope<'a>(vb: &VarBuilderX<'a>) -> VarBuilderX<'a> {
        if vb.checkpoint.gguf { *vb } else { vb.child("attn"@) }
    }

    /// Whether this is the layer in the scope, with nothing kept yet.
    pub open spec fn is_planned(
        &self,
        vb: &VarBuilderX,
        comm: Comm,
        rope: V4RopeTables,
        max_seq_len: usize,
        config: Config,
        mla: MlaV4Config,
        v4: DeepSeekV4Config,
        kind: LayerCompressionType,
        dtype: DType,
    ) -> bool {
        let h = config.hidden_size;
        let attn_vb = vb.child("attn"@);
        let ffn_vb = vb.child("ffn"@);
        &&& self.self_attn.is_planned(&attn_vb, comm, mla, config, dtype)
        &&& self.mlp is FusedMoeW2 <==> asks_w2(config.quant)
        &&& self.mlp.stored().is_planned(config, &ffn_vb.child("gate"@), &ffn_vb.child("experts"@), &ffn_vb, comm, dtype)
        &&& self.shared_expert is Some <==> has_shared(config)
        &&& self.shared_expert matches Some(m) ==> m.is_planned(
            &vb.child(shared_scope(vb)), comm, shared_size(config, dtype), config.quantization_config, None, ""@)
        &&& self.attn_norm.is_rms(&vb.child("attn_norm"@), h, DType::F32, false, Shard::whole())
        &&& self.ffn_norm.is_rms(&vb.child("ffn_norm"@), h, DType::F32, false, Shard::whole())
        &&& self.hc_attn.is_planned(vb, "hc_attn"@, v4.hc_mult, h)
        &&& self.hc_ffn.is_planned(vb, "hc_ffn"@, v4.hc_mult, h)
        &&& self.rope == rope
        &&& self.sparse_kv is None && self.compressor_state is None && self.indexer_state is None && self.decode_buffers is None
        &&& self.max_seq_len == max_seq_len
        &&& self.compression == kind
        &&& self.compressor is Some <==> kind !is Swa
        &&& self.compressor matches Some(c) ==> c.is_planned(&attn_vb, "compressor"@, kind.tokens_per_row(), mla.head_dim, h)
        &&& self.indexer is Some <==> kind is Overlap
        &&& self.indexer matches Some(x) ==> x.is_planned(&attn_vb, ""@, v4.indexer_size(config, mla), comm)
        &&& self.sliding_window == v4.sliding_window
    }

    fn load_experts(vb: &VarBuilderX, comm: &Comm, config: &Config, dtype: DType) -> (r: Result<MoeOrMlp, V4Error>)
        requires
            config.has_experts(),
            comm.wf(),
            ExpertBuffers::of(*config, *comm).wf(),
        ensures
            ({
                let ffn_vb = vb.child("ffn"@);
                let w2 = asks_w2(config.quant);
                if vb.checkpoint.gguf {
                    r == Err::<MoeOrMlp, V4Error>(V4Error::GgufExperts)
                } else if !w2 && config.quant is Some {
                    r == Err::<MoeOrMlp, V4Error>(V4Error::Quant)
                } else if !w2 && !fp4_experts(config.expert_dtype) {
                    r == Err::<MoeOrMlp, V4Error>(V4Error::ExpertDtype)
                } else {
                    &&& r matches Ok(m)
                    &&& m is FusedMoeW2 <==> w2
                    &&& m.stored().is_planned(*config, &ffn_vb.child("gate"@), &ffn_vb.child("experts"@), &ffn_vb, *comm, dtype)
                }
            }),
    {
        let w2 = uses_w2(&config.quant);
        if vb.is_qvar_builder() {
            return Err(V4Error::GgufExperts);
        }
        if !w2 && config.quant.is_some() {
            return Err(V4Error::Quant);
        }
        if !w2 && !experts_are_fp4(&config.expert_dtype) {
            return Err(V4Error::ExpertDtype);
        }
        let ffn_vb = vb.pp("ffn");
        match FusedMoeMxfp4::new(config, &ffn_vb, comm, dtype) {
            Ok(experts) => {
                proof {
                    lemma_experts_scope(experts, &ffn_vb, &vb.child("ffn"@), *config, *comm, dtype);
                }
                if w2 {
                    Ok(MoeOrMlp::FusedMoeW2(V4MoeW2 { experts }))
                } else {
                    Ok(MoeOrMlp::FusedMoeMxfp4(experts))
                }
            },
            Err(_) => Err(V4Error::GgufExperts),
        }
    }

    fn load_shared(vb: &VarBuilderX, comm: &Comm, config: &Config, dtype: DType) -> (r: Result<Option<MLP>, V4Error>)
        requires
            !vb.checkpoint.gguf,
            has_shared(*config) ==> shared_width(*config) <= usize::MAX
                && shared_size(*config, dtype).wf(*comm, vb.checkpoint.gguf, config.quantization_config),
        ensures
            ({
                let scope = vb.child(shared_scope(vb));
                let (size, q) = (shared_size(*config, dtype), config.quantization_config);
                let refusal = MLP::refusal(&scope, size, q, None, ""@);
                if !has_shared(*config) {
                    r == Ok::<Option<MLP>, V4Error>(None)
                } else if refusal is Some {
                    r == Err::<Option<MLP>, V4Error>(V4Error::Shared(refusal->0))
                } else {
                    r matches Ok(Some(m)) && m.is_planned(&scope, *comm, size, q, None, ""@)
                }
            }),
    {
        let (width, copies) = match &config.moe_cfg {
            Some(m) => (
                match m.shared_expert_intermediate_size { Some(n) => n, None => 0 },
                match m.n_shared_experts { Some(k) => k, None => 1 },
            ),
            None => (0, 0),
        };
        if width == 0 {
            return Ok(None);
        }
        let many = vb.pp("ffn.shared_experts");
        let w1 = vb.pp("ffn.shared_experts.w1");
        let name = if many.has_key("gate_proj.weight") || many.has_key("gate_proj.weight_packed") || w1.has_key("weight") {
            "ffn.shared_experts"
        } else {
            "ffn.shared_expert"
        };
        let scope = vb.pp(name);
        let size = MlpSize {
            hidden_size: config.hidden_size,
            intermediate_size: width * copies,
            gate_up_merged: false,
            dtype,
        };
        match MLP::new(&scope, comm, size, &config.quantization_config, &None, "") {
            Ok(m) => Ok(Some(m)),
            Err(e) => Err(V4Error::Shared(e)),
        }
    }

    pub fn new(
        vb: &VarBuilderX,
        comm: &Comm,
        rope: V4RopeTables,
        max_seq_len: usize,
        config: &Config,
        mla_cfg: &MlaV4Config,
        v4_cfg: &DeepSeekV4Config,
        layer_idx: usize,
        dtype: DType,
    ) -> (r: Result<Self, V4Error>)
        requires
            Self::fits(
                *config, *mla_cfg, *v4_cfg, v4_cfg.compression(layer_idx as int), vb.checkpoint.gguf, *comm, max_seq_len, dtype),
        ensures
            ({
                let kind = v4_cfg.compression(layer_idx as int);
                match Self::refusal(vb, *comm, *config, *mla_cfg, *v4_cfg, kind, dtype) {
                    Some(e) => r == Err::<Self, V4Error>(e),
                    None => r matches Ok(l) && l.wf()
                        && l.is_planned(vb, *comm, rope, max_seq_len, *config, *mla_cfg, *v4_cfg, kind, dtype),
                }
            }),
    {
        let gguf = vb.is_qvar_builder();
        let attn_vb = if gguf { vb.dup() } else { vb.pp("attn") };
        let self_attn = match MlaV4Attention::new(&attn_vb, comm, mla_cfg, config, dtype) {
            Ok(a) => a,
            Err(e) => return Err(V4Error::Attention(e)),
        };
        let mlp = match Self::load_experts(vb, comm, config, dtype) {
            Ok(m) => m,
            Err(e) => return Err(e),
        };
        let shared_expert = match Self::load_shared(vb, comm, config, dtype) {
            Ok(m) => m,
            Err(e) => return Err(e),
        };
        let h: usize = config.hidden_size;
        let (attn_norm_vb, ffn_norm_vb) = (vb.pp("attn_norm"), vb.pp("ffn_norm"));
        let compression = v4_cfg.layer_compression(layer_idx);
        let compressor = if compression.has_compressor() {
            CompressorWeights::load(&attn_vb, "compressor", compression.ratio(), mla_cfg.head_dim, h)
        } else {
            None
        };
        let indexer = if compression.has_indexer() {
            let size = IndexerSize {
                hidden_dim: h,
                index_head_dim: v4_cfg.index_head_dim,
                index_n_heads: v4_cfg.index_n_heads,
                index_topk: v4_cfg.index_topk,
                q_lora_rank: mla_cfg.q_lora_rank,
            };
            match IndexerWeights::load(&attn_vb, "", size, comm) {
                Ok(x) => Some(x),
                Err(e) => return Err(V4Error::IndexHeads(e)),
            }
        } else {
            None
        };
        Ok(
            DeepSeekV4DecoderLayer {
                self_attn,
                mlp,
                shared_expert,
                attn_norm: rms_norm(h, &attn_norm_vb, DType::F32, false),
                ffn_norm: rms_norm(h, &ffn_norm_vb, DType::F32, false),
                hc_attn: HcBlockWeights::load(vb, "hc_attn", v4_cfg.hc_mult, h),
                hc_ffn: HcBlockWeights::load(vb, "hc_ffn", v4_cfg.hc_mult, h),
                rope,
                sparse_kv: None,
                compressor_state: None,
                indexer_state: None,
                decode_buffers: None,
                max_seq_len,
                compression,
                compressor,
                indexer,
                sliding_window: v4_cfg.sliding_window,
            },
        )
    }
}

proof fn lemma_experts_scope(m: FusedMoeMxfp4, a: &VarBuilderX, b: &VarBuilderX, config: Config, comm: Comm, dtype: DType)
    requires
        a.checkpoint == b.checkpoint,
        a.prefix@ == b.prefix@,
        m.is_planned(config, &a.child("gate"@), &a.child("experts"@), a, comm, dtype),
    ensures
        m.is_planned(config, &b.child("gate"@), &b.child("experts"@), b, comm, dtype),
{
}

/// Whether the caches of a layer have sizes that can be counted.
pub open spec fn buffers_fit(head_dim: usize, window: usize, max_seq_len: usize, kind: LayerCompressionType) -> bool {
    let ratio = kind.tokens_per_row();
    &&& window + max_seq_len <= usize::MAX
    &&& (window + max_seq_len) * head_dim <= usize::MAX
    &&& max_seq_len + ratio <= usize::MAX
    &&& max_seq_len + 4 <= usize::MAX
    &&& CompressorWeights::out_dim(ratio, head_dim) <= usize::MAX
    &&& ratio * CompressorWeights::out_dim(ratio, head_dim) <= usize::MAX
}

fn can_buffer(head_dim: usize, window: usize, max_seq_len: usize, kind: LayerCompressionType) -> (r: bool)
    ensures
        r == buffers_fit(head_dim, window, max_seq_len, kind),
{
    let ratio: usize = kind.ratio();
    if !sum_fits(window, max_seq_len) || !sum_fits(max_seq_len, ratio) || !sum_fits(max_seq_len, 4) {
        return false;
    }
    let times: usize = if ratio == 4 { 2 } else { 1 };
    if !mul_fits(window + max_seq_len, head_dim) || !mul_fits(times, head_dim) {
        return false;
    }
    mul_fits(ratio, times * head_dim)
}

fn copies_fit(hc: usize, hidden_dim: usize) -> (r: bool)
    ensures
        r == hc_fits(hc, hidden_dim),
{
    if !sum_fits(2, hc) {
        return false;
    }
    mul_fits(2 + hc, hc) && mul_fits(hc, hidden_dim)
}

fn can_index(v4: &DeepSeekV4Config, max_seq_len: usize) -> (r: bool)
    requires
        max_seq_len + 4 <= usize::MAX,
    ensures
        r == index_fits(*v4, max_seq_len),
{
    let n: usize = div_ceil(max_seq_len, 4);
    let capacity: usize = if n > 1 { n } else { 1 };
    mul_fits(v4.index_n_heads, v4.index_head_dim) && mul_fits(8, v4.index_head_dim) && mul_fits(capacity, v4.index_head_dim)
        && sum_fits(v4.sliding_window, v4.index_topk)
}

/// Whether the indexer of a layer has sizes that can be counted.
pub open spec fn index_fits(v4: DeepSeekV4Config, max_seq_len: usize) -> bool {
    &&& v4.index_n_heads * v4.index_head_dim <= usize::MAX
    &&& 8 * v4.index_head_dim <= usize::MAX
    &&& IndexerDecodeState::capacity(max_seq_len) * v4.index_head_dim <= usize::MAX
    &&& v4.sliding_window + v4.index_topk <= usize::MAX
}

/// What one pass of a layer is given.
#[derive(Debug, Clone, Copy, PartialEq, Eq, Structural)]
pub struct V4LayerInput {
    pub seq_len: usize,
    pub is_prefill: bool,
    pub max_context_len: usize,
    /// Whether the sink of the attention could be read.
    pub sink_read: bool,
    /// Whether the tokens are known.
    pub has_ids: bool,
    /// Columns of the table of compressed rows that a prefill attends to
    /// where no indexer chooses them.
    pub index_cols: usize,
}

/// Why a pass cannot be done.
#[derive(Debug, Clone, Copy, PartialEq, Eq, Structural)]
pub enum V4PassError {
    /// More than one token is decoded.
    ManySequences { seq_len: usize },
    /// A position behind the end of the cache.
    Position { start_pos: usize, capacity: usize },
    Attention(V4AttnError),
    Cache(CacheError),
    Moe(V4MoeError),
}

/// How a layer attends to prefilled tokens and what it keeps of them.
pub struct PrefillPass {
    pub window_topk: usize,
    /// Compressed rows, where there are any.
    pub compressed_len: Option<usize>,
    pub compress_topk: usize,
    pub total_topk: usize,
    /// Rows that are attended to: tokens, then compressed rows.
    pub kv_len: usize,
    /// The sparse cache is cleared before rows are copied.
    pub sparse_clear: Clear,
    pub window: Vec<RowCopy>,
    pub compressed: Option<RowCopy>,
    pub compressor_seed: Option<StateSeed>,
    /// The indexer is cleared before rows are copied.
    pub indexer_clear: Option<IndexerClear>,
    /// Rows of the indexer, where there are any.
    pub indexer_rows: Option<RowCopy>,
    pub indexer_seed: Option<StateSeed>,
}

/// What of a layer is cleared; buffers stay where they are.
#[derive(Debug, Clone, Copy, PartialEq, Eq, Structural)]
pub struct LayerClear {
    pub sparse: Option<Clear>,
    pub compressor: Option<StateClear>,
    pub indexer: Option<IndexerClear>,
}

/// How a layer attends to the cache for one more token.
#[derive(Debug, Clone, Copy, PartialEq, Eq)]
pub struct DecodePass {
    pub start_pos: usize,
    /// The compressed row that the token completes, if it does. It is written
    /// and counted before rows are scored.
    pub completed_row: Option<usize>,
    pub window_topk: usize,
    pub compress_topk: usize,
    pub total_topk: usize,
    /// Rows that the indexer looks at and rows that it chooses.
    pub scores: Option<(usize, usize)>,
    /// Tokens per compressed row, at least 1.
    pub ratio: usize,
    pub kv_len: usize,
}

pub enum V4AttnPass {
    Prefill(PrefillPass),
    Decode(DecodePass),
}

/// One pass of a layer.
pub struct V4LayerPass {
    pub attn: V4AttnPass,
    pub route: V4Route,
    /// Whether the output of shared experts is added.
    pub adds_shared: bool,
    /// Element type in which shared experts are added, and that the outputs of
    /// attention and experts have when they are mixed into the copies.
    pub branch: DType,
}

/// The position of the token that is decoded.
pub open spec fn decode_pos(max_context_len: usize) -> usize {
    if max_context_len == 0 { 0 } else { (max_context_len - 1) as usize }
}

impl DeepSeekV4DecoderLayer {
    pub open spec fn ratio(self) -> usize {
        self.compression.tokens_per_row()
    }

    /// Compressed rows that the layer attends to.
    pub open spec fn compress_topk(self) -> usize {
        match self.indexer {
            Some(x) => x.index_topk,
            None => if self.compressor is Some { (self.max_seq_len as int / positive(self.ratio() as int)) as usize } else { 0 },
        }
    }

    pub open spec fn fresh_sparse(self) -> LayerSparseKvCache {
        LayerSparseKvCache {
            sliding_window: self.sliding_window,
            compress_ratio: self.ratio(),
            compressed_slots: if self.ratio() > 0 { self.max_seq_len / self.ratio() } else { 0 },
            head_dim: self.self_attn.head_dim,
            compressed_len: 0,
        }
    }

    pub open spec fn fresh_compressor(self) -> CompressorDecodeState {
        let c = self.compressor->0;
        CompressorDecodeState {
            state_dim: CompressorWeights::out_dim(c.ratio, c.head_dim) as usize,
            slots: if c.ratio == 4 { 8 } else { c.ratio },
        }
    }

    pub open spec fn fresh_indexer(self) -> IndexerDecodeState {
        let d = self.indexer->0.index_head_dim;
        IndexerDecodeState {
            compressor_state: CompressorDecodeState { state_dim: (2 * d) as usize, slots: 8 },
            index_head_dim: d,
            compressed_len: 0,
            max_compressed_len: IndexerDecodeState::capacity(self.max_seq_len) as usize,
        }
    }

    pub open spec fn fresh_buffers(self) -> LayerDecodeBuffers {
        LayerDecodeBuffers::sized(
            self.self_attn.num_heads,
            self.self_attn.head_dim,
            self.sliding_window,
            self.compress_topk(),
            crate::math::ceil_div(self.max_seq_len as int, positive(self.ratio() as int)) as usize,
            match self.compressor { Some(c) => Some(c.head_dim), None => None },
            match self.indexer { Some(x) => Some(x.compressor.head_dim), None => None },
        )
    }

    /// The layer with everything that passes need allocated.
    pub open spec fn ensured(self) -> Self {
        DeepSeekV4DecoderLayer {
            sparse_kv: if self.sparse_kv is None { Some(self.fresh_sparse()) } else { self.sparse_kv },
            compressor_state: if self.compressor is Some && self.compressor_state is None {
                Some(self.fresh_compressor())
            } else {
                self.compressor_state
            },
            indexer_state: if self.indexer is Some && self.indexer_state is None {
                Some(self.fresh_indexer())
            } else {
                self.indexer_state
            },
            decode_buffers: if self.decode_buffers is None { Some(self.fresh_buffers()) } else { self.decode_buffers },
            ..self
        }
    }

    /// The parts fit together, and what is kept fits its buffers.
    pub open spec fn wf(self) -> bool {
        &&& self.compression == LayerCompressionType::of_ratio(self.ratio())
        &&& buffers_fit(self.self_attn.head_dim, self.sliding_window, self.max_seq_len, self.compression)
        &&& self.compressor is Some <==> self.compression !is Swa
        &&& self.compressor matches Some(c) ==> c.ratio == self.ratio() && c.head_dim == self.self_attn.head_dim
        &&& self.indexer is Some <==> self.compression is Overlap
        &&& self.indexer matches Some(x) ==> {
            &&& x.compressor.ratio == 4
            &&& x.compressor.head_dim == x.index_head_dim
            &&& 8 * x.index_head_dim <= usize::MAX
            &&& IndexerDecodeState::capacity(self.max_seq_len) * x.index_head_dim <= usize::MAX
            &&& self.sliding_window + x.index_topk <= usize::MAX
        }
        &&& self.sparse_kv matches Some(s) ==> {
            &&& s == LayerSparseKvCache { compressed_len: s.compressed_len, ..self.fresh_sparse() }
            &&& s.compressed_len <= s.compressed_slots
        }
        &&& self.compressor_state matches Some(s) ==> self.compressor is Some && s == self.fresh_compressor()
        &&& self.indexer_state matches Some(s) ==> {
            &&& self.indexer is Some
            &&& s == IndexerDecodeState { compressed_len: s.compressed_len, ..self.fresh_indexer() }
            &&& s.compressed_len <= s.max_compressed_len
        }
    }

    /// Allocates what passes need, each part once.
    pub fn ensure_decode_buffers(&mut self)
        requires
            old(self).wf(),
        ensures
            *final(self) == old(self).ensured(),
            final(self).wf(),
    {
        let ratio: usize = self.compression.ratio();
        let head_dim: usize = self.self_attn.get_head_dim();
        proof {
            lemma_slots(*self);
        }
        if self.sparse_kv.is_none() {
            self.sparse_kv = Some(LayerSparseKvCache::new(self.sliding_window, ratio, self.max_seq_len, head_dim));
        }
        if self.compressor_state.is_none() {
            let made = match &self.compressor {
                Some(c) => Some(CompressorDecodeState::new(c.ratio, c.head_dim)),
                None => None,
            };
            self.compressor_state = made;
        }
        if self.indexer_state.is_none() {
            let made = match &self.indexer {
                Some(x) => Some(IndexerDecodeState::new(x.index_head_dim, self.max_seq_len)),
                None => None,
            };
            self.indexer_state = made;
        }
        if self.decode_buffers.is_none() {
            let step: usize = if ratio > 1 { ratio } else { 1 };
            let compress_topk: usize = match &self.indexer {
                Some(x) => x.index_topk,
                None => if self.compressor.is_some() { self.max_seq_len / step } else { 0 },
            };
            let compressor_head_dim = match &self.compressor { Some(c) => Some(c.head_dim), None => None };
            let indexer_head_dim = match &self.indexer { Some(x) => Some(x.compressor.head_dim), None => None };
            let made = LayerDecodeBuffers::new(
                self.self_attn.get_num_heads(),
                head_dim,
                self.sliding_window,
                compress_topk,
                div_ceil(self.max_seq_len, step),
                compressor_head_dim,
                indexer_head_dim,
            );
            self.decode_buffers = Some(made);
        }
    }

    /// The layer with its caches emptied; buffers stay.
    pub open spec fn emptied(self) -> Self {
        DeepSeekV4DecoderLayer {
            sparse_kv: match self.sparse_kv {
                Some(s) => Some(LayerSparseKvCache { compressed_len: 0, ..s }),
                None => None,
            },
            indexer_state: match self.indexer_state {
                Some(s) => Some(IndexerDecodeState { compressed_len: 0, ..s }),
                None => None,
            },
            ..self
        }
    }

    /// The clearing of all that is allocated.
    pub open spec fn clears(self) -> LayerClear {
        LayerClear {
            sparse: match self.sparse_kv { Some(s) => Some(s.cleared()), None => None },
            compressor: match self.compressor_state { Some(s) => Some(s.cleared()), None => None },
            indexer: match self.indexer_state { Some(s) => Some(s.cleared()), None => None },
        }
    }

    /// Clears the caches and running states; buffers stay.
    pub fn reset_decode_state(&mut self) -> (r: LayerClear)
        requires
            old(self).wf(),
        ensures
            *final(self) == old(self).emptied(),
            final(self).wf(),
            r == old(self).clears(),
    {
        proof {
            lemma_slots(*self);
        }
        let mut r = LayerClear { sparse: None, compressor: None, indexer: None };
        if let Some(s) = self.sparse_kv {
            let mut sparse = s;
            r.sparse = Some(sparse.reset());
            self.sparse_kv = Some(sparse);
        }
        if let Some(s) = &self.compressor_state {
            r.compressor = Some(s.reset());
        }
        if let Some(s) = self.indexer_state {
            let mut state = s;
            r.indexer = Some(state.reset());
            self.indexer_state = Some(state);
        }
        r
    }

    /// Compressed rows that `seq_len` tokens give, where they give any.
    pub open spec fn rows_of(self, seq_len: usize) -> Option<usize> {
        if self.compressor is Some && seq_len >= self.ratio() {
            Some(seq_len / self.ratio())
        } else {
            None
        }
    }

    /// Compressed rows of a prefill that are attended to.
    pub open spec fn prefill_topk(self, p: V4LayerInput) -> usize {
        match self.rows_of(p.seq_len) {
            Some(n) => match self.indexer {
                Some(x) => smaller(x.index_topk, n),
                None => p.index_cols,
            },
            None => 0,
        }
    }

    /// Whether prefilled tokens give more compressed rows than fit.
    pub open spec fn overflows(self, seq_len: usize) -> bool {
        self.rows_of(seq_len) matches Some(n) && n > self.fresh_sparse().compressed_slots
    }

    /// Why a pass cannot be done, if so.
    pub open spec fn pass_refusal(self, p: V4LayerInput) -> Option<V4PassError> {
        let pos = decode_pos(p.max_context_len);
        if !p.is_prefill && p.seq_len != 1 {
            Some(V4PassError::ManySequences { seq_len: p.seq_len })
        } else if !p.is_prefill && pos >= self.max_seq_len {
            Some(V4PassError::Position { start_pos: pos, capacity: self.max_seq_len })
        } else if !p.sink_read {
            Some(V4PassError::Attention(V4AttnError::NoAttnSink))
        } else if !self.self_attn.groupable() {
            Some(V4PassError::Attention(V4AttnError::UnsupportedOutput))
        } else if p.is_prefill && self.overflows(p.seq_len) {
            Some(V4PassError::Cache(
                CacheError::TooMany { len: self.rows_of(p.seq_len)->0, capacity: self.fresh_sparse().compressed_slots }))
        } else if self.mlp.stored().router is Hash && !p.has_ids {
            Some(V4PassError::Moe(V4MoeError::NoInputIds))
        } else {
            None
        }
    }

    /// The compressed row that a decoded token completes, if it does.
    pub open spec fn completed_row(self, pos: usize) -> Option<usize> {
        if self.compressor is Some && (pos + 1) % (self.ratio() as int) == 0 {
            Some(((pos + 1) / (self.ratio() as int) - 1) as usize)
        } else {
            None
        }
    }

    /// Compressed rows that are written once the token at `pos` is decoded,
    /// where there were `len` before.
    pub open spec fn counted(self, len: usize, pos: usize) -> usize {
        match self.completed_row(pos) {
            Some(row) => if len > row { len } else { (row + 1) as usize },
            None => len,
        }
    }

    /// The layer after a pass.
    pub open spec fn after(self, p: V4LayerInput) -> Self {
        let e = self.ensured();
        let rows = match self.rows_of(p.seq_len) { Some(n) => n, None => 0 };
        let pos = decode_pos(p.max_context_len);
        if !p.is_prefill {
            if p.seq_len != 1 || pos >= self.max_seq_len {
                self
            } else {
                DeepSeekV4DecoderLayer {
                    sparse_kv: Some(LayerSparseKvCache {
                        compressed_len: self.counted(e.sparse_kv->0.compressed_len, pos),
                        ..e.sparse_kv->0
                    }),
                    indexer_state: if self.indexer is Some {
                        Some(IndexerDecodeState {
                            compressed_len: self.counted(e.indexer_state->0.compressed_len, pos),
                            ..e.indexer_state->0
                        })
                    } else {
                        e.indexer_state
                    },
                    ..e
                }
            }
        } else if !p.sink_read || !self.self_attn.groupable() {
            self
        } else if self.overflows(p.seq_len) {
            DeepSeekV4DecoderLayer { sparse_kv: Some(LayerSparseKvCache { compressed_len: 0, ..e.sparse_kv->0 }), ..e }
        } else {
            DeepSeekV4DecoderLayer {
                sparse_kv: Some(LayerSparseKvCache { compressed_len: rows, ..e.sparse_kv->0 }),
                indexer_state: if self.indexer is Some {
                    Some(IndexerDecodeState { compressed_len: rows, ..e.indexer_state->0 })
                } else {
                    e.indexer_state
                },
                ..e
            }
        }
    }

    /// Whether `x` is the prefill of this layer.
    pub open spec fn prefills(self, x: PrefillPass, p: V4LayerInput) -> bool {
        let n = p.seq_len;
        let rows = self.rows_of(n);
        let e = self.ensured();
        &&& x.window_topk == smaller(self.sliding_window, n)
        &&& x.compressed_len == rows
        &&& x.compress_topk == self.prefill_topk(p)
        &&& x.total_topk == x.window_topk + x.compress_topk
        &&& x.kv_len == n + (match rows { Some(k) => k as int, None => 0 })
        &&& x.sparse_clear == e.sparse_kv->0.cleared()
        &&& e.sparse_kv->0.seeds_window(n as int, x.window@)
        &&& x.compressed is Some <==> rows is Some
        &&& x.compressed matches Some(c) ==> {
            &&& c.from.start == 0 && c.from.len == rows->0
            &&& c.row == self.sliding_window
            &&& c.offset == c.row * self.self_attn.head_dim
        }
        &&& x.compressor_seed is Some <==> self.compressor is Some
        &&& x.compressor_seed matches Some(v) ==> v.clear == e.compressor_state->0.cleared()
            && self.compressor->0.seeds(n as int, v.copies@)
        &&& x.indexer_clear == (if self.indexer is Some { Some(e.indexer_state->0.cleared()) } else { None })
        &&& x.indexer_rows is Some <==> self.indexer is Some && rows is Some
        &&& x.indexer_rows matches Some(c) ==> c.from.start == 0 && c.from.len == rows->0 && c.row == 0 && c.offset == 0
        &&& x.indexer_seed is Some <==> self.indexer is Some
        &&& x.indexer_seed matches Some(v) ==> v.clear == e.indexer_state->0.compressor_state.cleared()
            && self.indexer->0.compressor.seeds(n as int, v.copies@)
    }

    /// The decode step of this layer.
    pub open spec fn decodes(self, p: V4LayerInput) -> DecodePass {
        let pos = decode_pos(p.max_context_len);
        let state = self.ensured().indexer_state->0;
        let live = self.counted(state.compressed_len, pos);
        let looked = smaller(positive(live as int) as usize, state.max_compressed_len);
        let topk = self.compress_topk();
        DecodePass {
            start_pos: pos,
            completed_row: self.completed_row(pos),
            window_topk: self.sliding_window,
            compress_topk: topk,
            total_topk: (self.sliding_window + topk) as usize,
            scores: match self.indexer {
                Some(x) => Some((looked, smaller(x.index_topk, looked))),
                None => None,
            },
            ratio: positive(self.ratio() as int) as usize,
            kv_len: positive(self.sliding_window + self.fresh_sparse().compressed_slots) as usize,
        }
    }

    /// Whether `x` is the pass of this layer.
    pub open spec fn is_pass(self, x: V4LayerPass, p: V4LayerInput) -> bool {
        &&& match x.attn {
            V4AttnPass::Prefill(a) => p.is_prefill && self.prefills(a, p),
            V4AttnPass::Decode(a) => !p.is_prefill && a == self.decodes(p),
        }
        &&& x.route == (if self.mlp.stored().router is Hash {
            V4Route::Hash { input: DType::BF16 }
        } else {
            V4Route::Score { input: DType::F32 }
        })
        &&& x.adds_shared == (self.shared_expert is Some)
        &&& x.branch == DType::F32
    }

    /// Whether a prefill has sizes that can be counted.
    pub open spec fn countable(self, p: V4LayerInput) -> bool {
        p.is_prefill ==> {
            &&& self.sliding_window > 0
            &&& 2 * p.seq_len <= usize::MAX
            &&& p.seq_len + p.index_cols <= usize::MAX
        }
    }

    fn prefill(&mut self, p: V4LayerInput) -> (r: Result<PrefillPass, V4PassError>)
        requires
            old(self).wf(),
            old(self).countable(p),
            p.is_prefill,
        ensures
            final(self).wf(),
            *final(self) == old(self).after(p),
            match r {
                Ok(x) => p.sink_read && old(self).self_attn.groupable() && !old(self).overflows(p.seq_len) && old(self).prefills(x, p),
                Err(e) => (!p.sink_read || !old(self).self_attn.groupable() || old(self).overflows(p.seq_len))
                    && old(self).pass_refusal(p) == Some(e),
            },
    {
        let n: usize = p.seq_len;
        let window_topk: usize = if self.sliding_window < n { self.sliding_window } else { n };
        let ratio: usize = self.compression.ratio();
        proof {
            lemma_slots(*self);
            lemma_rows_fit(*self, n);
        }
        let compressed_len = if self.compressor.is_some() && n >= ratio { Some(n / ratio) } else { None };
        let compress_topk: usize = match compressed_len {
            Some(rows) => match &self.indexer {
                Some(x) => x.topk_prefill(rows),
                None => p.index_cols,
            },
            None => 0,
        };
        let kv_len: usize = match compressed_len { Some(rows) => n + rows, None => n };
        match self.self_attn.sparse_attn(n, p.sink_read) {
            Ok(_) => {},
            Err(e) => return Err(V4PassError::Attention(e)),
        }
        if !self.self_attn.can_group() {
            return Err(V4PassError::Attention(V4AttnError::UnsupportedOutput));
        }
        let ghost before = *self;
        self.ensure_decode_buffers();
        let mut sparse = match self.sparse_kv {
            Some(s) => s,
            None => LayerSparseKvCache::new(self.sliding_window, ratio, self.max_seq_len, self.self_attn.get_head_dim()),
        };
        let sparse_clear = sparse.reset();
        let window = sparse.seed_window_from_prefill(n);
        proof {
            lemma_same_window(sparse, before.ensured().sparse_kv->0, n as int, window@);
        }
        let compressed = match compressed_len {
            Some(rows) => match sparse.seed_compressed_from_prefill(rows) {
                Ok(c) => Some(c),
                Err(e) => {
                    self.sparse_kv = Some(sparse);
                    return Err(V4PassError::Cache(e));
                },
            },
            None => None,
        };
        self.sparse_kv = Some(sparse);
        let compressor_seed = match (&self.compressor, &self.compressor_state) {
            (Some(c), Some(state)) => Some(c.seed_decode_state_after_prefill(state, n)),
            _ => None,
        };
        let mut indexer_clear: Option<IndexerClear> = None;
        let mut indexer_rows: Option<RowCopy> = None;
        let mut indexer_seed: Option<StateSeed> = None;
        if let Some(x) = &self.indexer {
            if let Some(s) = self.indexer_state {
                let mut state = s;
                indexer_clear = Some(state.reset());
                if let Some(rows) = compressed_len {
                    match state.seed_from_prefill(rows) {
                        Ok(c) => {
                            indexer_rows = c;
                        },
                        Err(e) => return Err(V4PassError::Cache(e)),
                    }
                }
                indexer_seed = Some(x.compressor.seed_decode_state_after_prefill(&state.compressor_state, n));
                self.indexer_state = Some(state);
            }
        }
        Ok(
            PrefillPass {
                window_topk,
                compressed_len,
                compress_topk,
                total_topk: window_topk + compress_topk,
                kv_len,
                sparse_clear,
                window,
                compressed,
                compressor_seed,
                indexer_clear,
                indexer_rows,
                indexer_seed,
            },
        )
    }

    fn decode(&mut self, p: V4LayerInput) -> (r: Result<DecodePass, V4PassError>)
        requires
            old(self).wf(),
            !p.is_prefill,
        ensures
            final(self).wf(),
            *final(self) == old(self).after(p),
            ({
                let pos = decode_pos(p.max_context_len);
                let bad = p.seq_len != 1 || pos >= old(self).max_seq_len || !p.sink_read
                    || !old(self).self_attn.groupable();
                match r {
                    Ok(x) => !bad && x == old(self).decodes(p),
                    Err(e) => bad && old(self).pass_refusal(p) == Some(e),
                }
            }),
    {
        if p.seq_len != 1 {
            return Err(V4PassError::ManySequences { seq_len: p.seq_len });
        }
        let start_pos: usize = if p.max_context_len == 0 { 0 } else { p.max_context_len - 1 };
        if start_pos >= self.max_seq_len {
            return Err(V4PassError::Position { start_pos, capacity: self.max_seq_len });
        }
        self.ensure_decode_buffers();
        let ratio: usize = self.compression.ratio();
        proof {
            lemma_slots(*self);
            lemma_completed_row_fits(*self, start_pos);
        }
        let completed_row = if self.compressor.is_some() && (start_pos + 1) % ratio == 0 {
            Some((start_pos + 1) / ratio - 1)
        } else {
            None
        };
        if let Some(row) = completed_row {
            if let Some(s) = self.sparse_kv {
                let mut sparse = s;
                match sparse.write_compressed_row(row) {
                    Ok(_) => self.sparse_kv = Some(sparse),
                    Err(e) => return Err(V4PassError::Cache(e)),
                }
            }
            if self.indexer.is_some() {
                if let Some(s) = self.indexer_state {
                    let mut state = s;
                    match state.write_compressed_at(row) {
                        Ok(_) => self.indexer_state = Some(state),
                        Err(e) => return Err(V4PassError::Cache(e)),
                    }
                }
            }
        }
        let slots: usize = match &self.sparse_kv { Some(s) => s.compressed_slots, None => 0 };
        let total: usize = self.sliding_window + slots;
        let compress_topk: usize = match &self.indexer {
            Some(x) => x.index_topk,
            None => if self.compressor.is_some() { slots } else { 0 },
        };
        let scores = match &self.indexer {
            Some(x) => {
                let (len, cap) = match &self.indexer_state {
                    Some(s) => (s.compressed_len, s.max_compressed_len),
                    None => (0, 0),
                };
                let at_least: usize = if len > 1 { len } else { 1 };
                let looked: usize = if at_least < cap { at_least } else { cap };
                Some((looked, x.topk_decode(looked)))
            },
            None => None,
        };
        match self.self_attn.sparse_attn(1, p.sink_read) {
            Ok(_) => {},
            Err(e) => return Err(V4PassError::Attention(e)),
        }
        if !self.self_attn.can_group() {
            return Err(V4PassError::Attention(V4AttnError::UnsupportedOutput));
        }
        Ok(
            DecodePass {
                start_pos,
                completed_row,
                window_topk: self.sliding_window,
                compress_topk,
                total_topk: self.sliding_window + compress_topk,
                scores,
                ratio: if ratio > 1 { ratio } else { 1 },
                kv_len: if total > 1 { total } else { 1 },
            },
        )
    }

    /// One pass: a prefill from the first position on, or one decoded token.
    pub fn forward(&mut self, p: V4LayerInput) -> (r: Result<V4LayerPass, V4PassError>)
        requires
            old(self).wf(),
            old(self).countable(p),
        ensures
            final(self).wf(),
            *final(self) == old(self).after(p),
            match old(self).pass_refusal(p) {
                Some(e) => r == Err::<V4LayerPass, V4PassError>(e),
                None => r matches Ok(x) && old(self).is_pass(x, p),
            },
    {
        let attn = if p.is_prefill {
            match self.prefill(p) {
                Ok(x) => V4AttnPass::Prefill(x),
                Err(e) => return Err(e),
            }
        } else {
            match self.decode(p) {
                Ok(x) => V4AttnPass::Decode(x),
                Err(e) => return Err(e),
            }
        };
        match self.mlp.forward_with_ids(p.has_ids) {
            Ok(route) => Ok(V4LayerPass { attn, route, adds_shared: self.shared_expert.is_some(), branch: DType::F32 }),
            Err(e) => Err(V4PassError::Moe(e)),
        }
    }
}

proof fn lemma_slots(l: DeepSeekV4DecoderLayer)
    requires
        l.wf(),
    ensures
        l.fresh_sparse().wf(),
        l.fresh_sparse().compressed_slots <= l.max_seq_len,
        l.sliding_window + l.compress_topk() <= usize::MAX,
        l.indexer is None && l.compressor is Some ==> l.compress_topk() == l.fresh_sparse().compressed_slots,
        l.sparse_kv matches Some(s) ==> s.wf(),
        l.indexer is Some ==> l.fresh_indexer().wf(),
        l.indexer is Some && l.indexer_state is Some ==> l.indexer_state->0.wf(),
{
    let f = l.fresh_sparse();
    let (max, ratio) = (l.max_seq_len as int, l.ratio() as int);
    if ratio > 0 {
        lemma_div_is_ordered_by_denominator(max, 1, ratio);
        lemma_div_basics(max);
    }
    lemma_mul_inequality(l.sliding_window + f.compressed_slots, l.sliding_window + max, l.self_attn.head_dim as int);
}

/// A row that is completed before the last position has a place in the caches.
proof fn lemma_completed_row_fits(l: DeepSeekV4DecoderLayer, pos: usize)
    requires
        l.wf(),
        pos < l.max_seq_len,
    ensures
        l.compressor is Some ==> l.ratio() > 0,
        l.completed_row(pos) matches Some(row) ==> {
            &&& (pos + 1) / (l.ratio() as int) == row + 1
            &&& row < l.fresh_sparse().compressed_slots
            &&& l.indexer is Some ==> row < l.fresh_indexer().max_compressed_len
        },
{
    if l.completed_row(pos) is Some {
        let ratio = l.ratio() as int;
        lemma_div_is_ordered(pos + 1, l.max_seq_len as int, ratio);
        lemma_fundamental_div_mod(pos + 1, ratio);
        assert((pos + 1) / ratio > 0) by (nonlinear_arith)
            requires
                pos + 1 == ratio * ((pos + 1) / ratio),
                pos + 1 > 0,
                ratio > 0,
        ;
        lemma_div_is_ordered_by_denominator(pos + 1, 1, ratio);
        lemma_div_basics(pos + 1);
    }
}

/// Seeding does not depend on what was written before.
proof fn lemma_same_window(a: LayerSparseKvCache, b: LayerSparseKvCache, seq_len: int, copies: Seq<RowCopy>)
    requires
        a.sliding_window == b.sliding_window,
        a.head_dim == b.head_dim,
        a.seeds_window(seq_len, copies),
    ensures
        b.seeds_window(seq_len, copies),
{
    assert forall|pos: int| 0 <= pos && seq_len - b.sliding_window <= pos < seq_len implies
        #[trigger] one_puts(copies, pos, b.ring_row(pos)) by {
        assert(one_puts(copies, pos, a.ring_row(pos)));
    }
}

/// Rows that fit the sparse cache fit the cache of the indexer.
proof fn lemma_rows_fit(l: DeepSeekV4DecoderLayer, n: usize)
    requires
        l.wf(),
    ensures
        l.rows_of(n) matches Some(k) ==> k <= n && k > 0,
        l.rows_of(n) is Some && l.indexer is Some && !l.overflows(n) ==> l.rows_of(n)->0 <= l.fresh_indexer().max_compressed_len,
{
    let ratio = l.ratio() as int;
    if l.rows_of(n) is Some {
        lemma_div_is_ordered_by_denominator(n as int, 1, ratio);
        lemma_div_basics(n as int);
        lemma_div_is_ordered(ratio, n as int, ratio);
    }
}

/// What a prefill keeps, the indexer can hold: where the sparse cache has room
/// for the compressed rows, so has the cache of the indexer.
pub proof fn law_indexer_holds_what_the_cache_holds(l: DeepSeekV4DecoderLayer, p: V4LayerInput)
    requires
        l.wf(),
        p.is_prefill,
        p.sink_read,
        l.self_attn.groupable(),
        !l.overflows(p.seq_len),
        l.indexer is Some,
    ensures
        l.after(p).indexer_state->0.compressed_len == l.after(p).sparse_kv->0.compressed_len,
        l.after(p).indexer_state->0.compressed_len <= l.after(p).indexer_state->0.max_compressed_len,
{
    lemma_rows_fit(l, p.seq_len);
}

/// After a prefill a running state holds the tokens that seeding keeps and
/// nothing else, whatever it held before.
pub proof fn law_prefill_leaves_nothing_behind(
    l: DeepSeekV4DecoderLayer,
    x: PrefillPass,
    p: V4LayerInput,
    before: Seq<SlotHolds>,
    slot: int,
)
    requires
        l.wf(),
        l.prefills(x, p),
        x.compressor_seed is Some,
        before.len() == l.fresh_compressor().slots,
        0 <= slot < before.len(),
    ensures
        ({
            let after = x.compressor_seed->0.applied(before);
            let ratio = l.ratio() as int;
            &&& forall|pos: int| 0 <= pos && #[trigger] seeded_slot(ratio, p.seq_len as int, pos) == Some(slot)
                ==> after[slot] == (SlotHolds::Token { pos, ape_row: pos % ratio })
            &&& (forall|pos: int| 0 <= pos ==> #[trigger] seeded_slot(ratio, p.seq_len as int, pos) != Some(slot))
                ==> after[slot] is Nothing
        }),
{
    law_seeding_leaves_nothing_behind(
        l.compressor->0, l.ensured().compressor_state->0, x.compressor_seed->0, before, p.seq_len as int, slot);
}

/// Clearing covers everything that passes keep: all rows of the sparse cache,
/// all slots of the running states and all rows of the indexer; and it leaves
/// every buffer in place.
pub proof fn law_reset_covers_every_buffer(l: DeepSeekV4DecoderLayer)
    requires
        l.wf(),
    ensures
        ({
            let (e, c) = (l.ensured(), l.ensured().clears());
            &&& c.sparse == Some(l.fresh_sparse().cleared())
            &&& c.compressor == (if l.compressor is Some { Some(l.fresh_compressor().cleared()) } else { None })
            &&& c.indexer == (if l.indexer is Some { Some(l.fresh_indexer().cleared()) } else { None })
            &&& e.emptied().ensured() == e.emptied()
            &&& e.emptied().decode_buffers == e.decode_buffers
            &&& e.emptied().sparse_kv->0 == l.fresh_sparse()
        }),
{
}

/// Allocating again changes nothing, so that buffers stay where they are.
pub proof fn law_buffers_are_made_once(l: DeepSeekV4DecoderLayer)
    requires
        l.wf(),
    ensures
        l.ensured().ensured() == l.ensured(),
{
}

/// Both counts follow the tokens: a prefill of `n` tokens leaves one row for
/// each whole run of them, and a decoded token that completes a run adds its
/// row, so that the count is always that of the whole runs so far.
pub proof fn law_counts_follow_the_tokens(l: DeepSeekV4DecoderLayer, p: V4LayerInput, q: V4LayerInput)
    requires
        l.wf(),
        l.compressor is Some,
        p.is_prefill,
        p.sink_read,
        l.self_attn.groupable(),
        !l.overflows(p.seq_len),
        !q.is_prefill,
        q.seq_len == 1,
        decode_pos(q.max_context_len) < l.max_seq_len,
    ensures
        ({
            let ratio = l.ratio() as int;
            let pos = decode_pos(q.max_context_len) as int;
            &&& l.after(p).sparse_kv->0.compressed_len == p.seq_len as int / ratio
            &&& l.sparse_kv is Some && l.sparse_kv->0.compressed_len == pos / ratio
                ==> l.after(q).sparse_kv->0.compressed_len == (pos + 1) / ratio
            &&& l.indexer is Some ==> {
                &&& l.after(p).indexer_state->0.compressed_len == p.seq_len as int / ratio
                &&& l.indexer_state is Some && l.indexer_state->0.compressed_len == pos / ratio
                    ==> l.after(q).indexer_state->0.compressed_len == (pos + 1) / ratio
            }
        }),
{
    let ratio = l.ratio() as int;
    let pos = decode_pos(q.max_context_len);
    lemma_completed_row_fits(l, pos);
    lemma_slots(l);
    if p.seq_len < ratio {
        lemma_basic_div(p.seq_len as int, ratio);
    }
    lemma_fundamental_div_mod(pos as int, ratio);
    lemma_mod_bound(pos as int, ratio);
    let (k, r) = (pos as int / ratio, pos as int % ratio);
    lemma_mul_is_commutative(ratio, k);
    if r + 1 == ratio {
        assert(pos + 1 == (k + 1) * ratio + 0) by (nonlinear_arith)
            requires
                pos == ratio * k + r,
                r + 1 == ratio,
        ;
        lemma_fundamental_div_mod_converse(pos + 1, ratio, k + 1, 0);
    } else {
        lemma_fundamental_div_mod_converse(pos + 1, ratio, k, r + 1);
    }
}

/// A decoded token only adds to the counts: a row that was written stays
/// counted, and nothing else of an allocated layer changes.
pub proof fn law_decode_only_counts_rows(l: DeepSeekV4DecoderLayer, q: V4LayerInput)
    requires
        l.wf(),
        l.ensured() == l,
        !q.is_prefill,
    ensures
        ({
            let after = l.after(q);
            &&& after == (DeepSeekV4DecoderLayer { sparse_kv: after.sparse_kv, indexer_state: after.indexer_state, ..l })
            &&& after.sparse_kv == Some(LayerSparseKvCache { compressed_len: after.sparse_kv->0.compressed_len, ..l.sparse_kv->0 })
            &&& l.sparse_kv->0.compressed_len <= after.sparse_kv->0.compressed_len
            &&& l.indexer is Some ==> l.indexer_state->0.compressed_len <= after.indexer_state->0.compressed_len
        }),
{
    assert(l.ensured().sparse_kv is Some);
    let pos = decode_pos(q.max_context_len);
    if pos < l.max_seq_len {
        lemma_completed_row_fits(l, pos);
    }
}

/// A decoded token attends to the whole window and, in a layer that compresses
/// without an indexer, to every compressed row that its cache can hold, so that
/// no row written so far is lost. An indexer looks at every row written so far
/// and chooses as many as it is made for, or all where there are fewer. Layers
/// without a compressor attend to the window alone.
pub proof fn law_decode_attends_to_every_compressed_row(l: DeepSeekV4DecoderLayer, q: V4LayerInput, x: V4LayerPass)
    requires
        l.wf(),
        !q.is_prefill,
        l.pass_refusal(q) is None,
        l.is_pass(x, q),
    ensures
        x.attn is Decode,
        ({
            let d = x.attn->Decode_0;
            let cache = l.after(q).sparse_kv->0;
            &&& d.window_topk == l.sliding_window
            &&& d.total_topk == d.window_topk + d.compress_topk
            &&& d.kv_len >= l.sliding_window + cache.compressed_slots
            &&& l.sliding_window > 0 ==> d.kv_len == l.sliding_window + cache.compressed_slots
            &&& cache.compressed_len <= cache.compressed_slots
            &&& l.compressor is None ==> d.compress_topk == 0 && d.scores is None && d.completed_row is None
            &&& l.compressor is Some && l.indexer is None ==> {
                &&& d.compress_topk == cache.compressed_slots
                &&& d.compress_topk * l.compressor->0.ratio <= l.max_seq_len < (d.compress_topk + 1) * l.compressor->0.ratio
                &&& cache.compressed_len <= d.compress_topk
                &&& d.scores is None
            }
            &&& l.indexer is Some ==> {
                let written = l.after(q).indexer_state->0.compressed_len;
                &&& d.compress_topk == l.indexer->0.index_topk
                &&& d.scores matches Some((looked, chosen)) && {
                    &&& l.max_seq_len >= 4 ==> looked == if written == 0 { 1 } else { written as int }
                    &&& chosen <= looked && chosen <= l.indexer->0.index_topk
                    &&& chosen == looked || chosen == l.indexer->0.index_topk
                }
            }
        }),
{
    lemma_slots(l);
    let pos = decode_pos(q.max_context_len);
    lemma_completed_row_fits(l, pos);
    if l.compressor is Some {
        let (max, ratio) = (l.max_seq_len as int, l.ratio() as int);
        lemma_fundamental_div_mod(max, ratio);
        lemma_mod_bound(max, ratio);
        let k = max / ratio;
        assert(k * ratio <= max < (k + 1) * ratio) by (nonlinear_arith)
            requires
                max == ratio * k + max % ratio,
                0 <= max % ratio < ratio,
        ;
    }
}

/// A token is decoded at the last position of its context, and it completes a
/// compressed row exactly where the tokens so far are whole runs: row `k` with
/// the last token of run `k`.
pub proof fn law_decode_completes_a_row_with_its_last_token(l: DeepSeekV4DecoderLayer, q: V4LayerInput, x: V4LayerPass, row: usize)
    requires
        l.wf(),
        !q.is_prefill,
        l.pass_refusal(q) is None,
        l.is_pass(x, q),
        l.compressor is Some,
    ensures
        ({
            let d = x.attn->Decode_0;
            &&& q.max_context_len > 0 ==> d.start_pos + 1 == q.max_context_len
            &&& q.max_context_len == 0 ==> d.start_pos == 0
            &&& d.start_pos < l.max_seq_len
            &&& d.ratio == l.compressor->0.ratio
            &&& d.completed_row == Some(row) <==> (row + 1) * l.compressor->0.ratio == d.start_pos + 1
            &&& d.completed_row == Some(row) ==> row < l.after(q).sparse_kv->0.compressed_len
        }),
{
    let pos = decode_pos(q.max_context_len);
    let ratio = l.ratio() as int;
    lemma_completed_row_fits(l, pos);
    lemma_fundamental_div_mod(pos + 1, ratio);
    if (row + 1) * ratio == pos + 1 {
        lemma_fundamental_div_mod_converse(pos + 1, ratio, row + 1, 0);
    }
    if l.completed_row(pos) == Some(row) {
        lemma_mul_is_commutative(ratio, row + 1);
    }
}

/// A prefill attends to the last tokens of each window, never to more than
/// there are, and behind the tokens to one compressed row for each whole run of
/// them; the indexer chooses as many rows as it is made for, or all where there
/// are fewer. The rows are kept behind the window.
pub proof fn law_prefill_attends_to_window_and_rows(l: DeepSeekV4DecoderLayer, p: V4LayerInput, x: V4LayerPass)
    requires
        l.wf(),
        l.countable(p),
        p.is_prefill,
        l.pass_refusal(p) is None,
        l.is_pass(x, p),
    ensures
        x.attn is Prefill,
        ({
            let d = x.attn->Prefill_0;
            let n = p.seq_len as int;
            &&& d.window_topk <= n && d.window_topk <= l.sliding_window
            &&& d.window_topk == n || d.window_topk == l.sliding_window
            &&& d.total_topk == d.window_topk + d.compress_topk
            &&& match d.compressed_len {
                Some(rows) => {
                    &&& l.compressor is Some && rows > 0
                    &&& rows * l.compressor->0.ratio <= n < (rows + 1) * l.compressor->0.ratio
                    &&& d.kv_len == n + rows
                    &&& d.compressed matches Some(c) && c.from.start == 0 && c.from.len == rows
                        && c.row == l.sliding_window && c.offset == l.sliding_window * l.self_attn.head_dim
                    &&& l.after(p).sparse_kv->0.compressed_len == rows
                    &&& l.indexer is None ==> d.compress_topk == p.index_cols
                    &&& l.indexer matches Some(i) ==> {
                        &&& d.compress_topk <= rows && d.compress_topk <= i.index_topk
                        &&& d.compress_topk == rows || d.compress_topk == i.index_topk
                        &&& d.indexer_rows matches Some(c) && c.from.start == 0 && c.from.len == rows && c.row == 0 && c.offset == 0
                        &&& l.after(p).indexer_state->0.compressed_len == rows
                    }
                },
                None => {
                    &&& l.compressor matches Some(c) ==> n < c.ratio
                    &&& d.compress_topk == 0 && d.kv_len == n
                    &&& d.compressed is None && d.indexer_rows is None
                    &&& l.after(p).sparse_kv->0.compressed_len == 0
                },
            }
        }),
{
    lemma_slots(l);
    lemma_rows_fit(l, p.seq_len);
    if l.rows_of(p.seq_len) is Some {
        let (n, ratio) = (p.seq_len as int, l.ratio() as int);
        lemma_fundamental_div_mod(n, ratio);
        lemma_mod_bound(n, ratio);
        let k = n / ratio;
        assert(k * ratio <= n < (k + 1) * ratio) by (nonlinear_arith)
            requires
                n == ratio * k + n % ratio,
                0 <= n % ratio < ratio,
        ;
    }
}

/// A prefill and the tokens decoded after it keep the same rows as a longer
/// prefill: where `n` tokens were prefilled and the next one is decoded, the
/// counts are those of a prefill of `n + 1` tokens.
pub proof fn law_decoding_continues_a_prefill(l: DeepSeekV4DecoderLayer, p: V4LayerInput, q: V4LayerInput, longer: V4LayerInput)
    requires
        l.wf(),
        p.is_prefill,
        l.pass_refusal(p) is None,
        !q.is_prefill,
        q.seq_len == 1,
        q.max_context_len == p.seq_len + 1,
        l.pass_refusal(q) is None,
        longer == (V4LayerInput { seq_len: (p.seq_len + 1) as usize, ..p }),
        l.pass_refusal(longer) is None,
    ensures
        l.after(p).after(q).sparse_kv == l.after(longer).sparse_kv,
        l.after(p).after(q).indexer_state == l.after(longer).indexer_state,
{
    lemma_slots(l);
    let m = l.after(p);
    let pos = decode_pos(q.max_context_len) as int;
    lemma_completed_row_fits(l, pos as usize);
    assert(m.completed_row(pos as usize) == l.completed_row(pos as usize));
    if l.compressor is Some {
        let ratio = l.ratio() as int;
        let n = p.seq_len as int;
        lemma_fundamental_div_mod(n, ratio);
        lemma_mod_bound(n, ratio);
        let (k, r) = (n / ratio, n % ratio);
        lemma_mul_is_commutative(ratio, k);
        if n < ratio {
            lemma_basic_div(n, ratio);
        }
        if n + 1 < ratio {
            lemma_basic_div(n + 1, ratio);
        }
        if r + 1 == ratio {
            assert(n + 1 == (k + 1) * ratio + 0) by (nonlinear_arith)
                requires
                    n == ratio * k + r,
                    r + 1 == ratio,
            ;
            lemma_fundamental_div_mod_converse(n + 1, ratio, k + 1, 0);
        } else {
            lemma_fundamental_div_mod_converse(n + 1, ratio, k, r + 1);
        }
    }
}

/// When a pass is refused, and why: more than one token to decode, a position
/// behind the last, no sink, an output that cannot be grouped, more compressed
/// rows than fit, or tokens that a router needs and does not get.
pub proof fn law_passes_are_refused_for_a_reason(l: DeepSeekV4DecoderLayer, p: V4LayerInput)
    requires
        l.wf(),
    ensures
        l.pass_refusal(p) is None ==> {
            &&& p.sink_read
            &&& l.self_attn.wo_a is Linear || l.self_attn.wo_a is LnFp8 || l.self_attn.wo_a is LnFp8OrLinear
            &&& !p.is_prefill ==> p.seq_len == 1 && p.max_context_len <= l.max_seq_len && l.max_seq_len > 0
            &&& p.is_prefill && l.compressor is Some && p.seq_len >= l.compressor->0.ratio
                ==> p.seq_len as int / l.compressor->0.ratio as int <= l.max_seq_len as int / l.compressor->0.ratio as int
            &&& l.mlp.stored().router is Hash ==> p.has_ids
        },
        match l.pass_refusal(p) {
            Some(V4PassError::ManySequences { seq_len }) => !p.is_prefill && seq_len == p.seq_len && seq_len != 1,
            Some(V4PassError::Position { start_pos, capacity }) => {
                &&& !p.is_prefill && capacity == l.max_seq_len && start_pos >= capacity
                &&& p.max_context_len > 0 ==> start_pos + 1 == p.max_context_len
            },
            Some(V4PassError::Attention(V4AttnError::NoAttnSink)) => !p.sink_read,
            Some(V4PassError::Attention(e)) => e == V4AttnError::UnsupportedOutput && p.sink_read,
            Some(V4PassError::Cache(CacheError::TooMany { len, capacity })) => p.is_prefill && len > capacity,
            Some(V4PassError::Cache(_)) => false,
            Some(V4PassError::Moe(e)) => e == V4MoeError::NoInputIds && !p.has_ids && l.mlp.stored().router is Hash,
            None => true,
        },
{
}

/// The model of one rank.
pub struct DeepSeekV4ForCausalLM {
    pub embed_tokens: Embedding,
    /// Read where the table cannot be.
    pub embed_fallback: Option<Embedding>,
    pub layers: Vec<DeepSeekV4DecoderLayer>,
    pub norm: NormX,
    pub lm_head: VocabParallelLinear,
    /// Left out where it cannot be read.
    pub hc_head: Option<HcHeadWeights>,
    pub v4_cfg: DeepSeekV4Config,
    pub hidden_size: usize,
    pub vocab_size: usize,
    pub is_qvar_builder: bool,
    pub quantized_at_load: bool,
    pub is_w2: bool,
    pub dtype: DType,
}

/// Whether the parts of the model stand at the root of the checkpoint.
pub open spec fn is_flat(vb: &VarBuilderX) -> bool {
    !vb.checkpoint.gguf && !vb.has("model.layers.0.attn_norm.weight"@)
}

/// The name of a part of the model.
pub open spec fn v4_name(vb: &VarBuilderX, name: Seq<char>) -> Seq<char> {
    if is_flat(vb) { name } else { "model."@ + name }
}

fn part_name(vb: &VarBuilderX, name: &str) -> (r: String)
    ensures
        r@ == v4_name(vb, name@),
{
    if !vb.is_qvar_builder() && !vb.has_key("model.layers.0.attn_norm.weight") {
        name.to_owned()
    } else {
        "model.".to_owned().concat(name)
    }
}

/// The name of layer `i`.
pub open spec fn v4_layer(vb: &VarBuilderX, i: int) -> Seq<char> {
    if vb.checkpoint.gguf { "blk."@ + decimal_of(i as nat) } else { v4_name(vb, "layers."@ + decimal_of(i as nat)) }
}

fn layer_name(vb: &VarBuilderX, i: usize) -> (r: String)
    ensures
        r@ == v4_layer(vb, i as int),
{
    let index = decimal(i);
    if vb.is_qvar_builder() {
        "blk.".to_owned().concat(index.as_str())
    } else {
        part_name(vb, "layers.".to_owned().concat(index.as_str()).as_str())
    }
}

impl DeepSeekV4ForCausalLM {
    /// The number of tokens.
    pub open spec fn vocab(config: Config, table_rows: usize) -> usize {
        match config.vocab_size {
            Some(n) => n,
            None => table_rows,
        }
    }

    /// Positions that caches are sized for.
    pub open spec fn max_seq_len(config: Config) -> usize {
        positive(config.max_position_embeddings as int) as usize
    }

    /// The scope of the output layer.
    pub open spec fn head_name(vb: &VarBuilderX, config: Config) -> Seq<char> {
        if config.tie_word_embeddings == Some(true) {
            if vb.checkpoint.gguf {
                "token_embd"@
            } else if vb.has(v4_name(vb, "embed_tokens.weight"@)) {
                v4_name(vb, "embed_tokens"@)
            } else {
                "embed"@
            }
        } else if vb.checkpoint.gguf {
            "output"@
        } else if vb.has("lm_head.weight"@) {
            "lm_head"@
        } else {
            "head"@
        }
    }

    /// The scope of the weights that bring the copies together.
    pub open spec fn hc_scope<'a>(vb: &VarBuilderX<'a>) -> VarBuilderX<'a> {
        if vb.checkpoint.gguf || is_flat(vb) { *vb } else { vb.child("model."@) }
    }

    /// The rotation of a layer.
    pub open spec fn rope(config: Config, mla: MlaV4Config, kind: LayerCompressionType, original_seq_len: usize) -> Result<V4RopeTables, RopeError> {
        V4RopeTables::tables(
            Self::max_seq_len(config), mla.qk_rope_head_dim, kind !is Swa, if kind is Swa { 0 } else { original_seq_len })
    }

    /// Whether a model can be planned.
    pub open spec fn fits(config: Config, mla: MlaV4Config, v4: DeepSeekV4Config, table_rows: usize, gguf: bool, comm: Comm, dtype: DType) -> bool {
        &&& comm.wf()
        &&& !gguf ==> config.vocab_size is Some
        &&& Self::vocab(config, table_rows) + comm.world_size + (2 * VOCAB_PADDING_SIZE - 2) <= usize::MAX
        &&& v4.hc_mult * config.hidden_size <= usize::MAX
        &&& forall|i: int| 0 <= i < config.num_hidden_layers ==> DeepSeekV4DecoderLayer::fits(
            config, mla, v4, #[trigger] v4.compression(i), gguf, comm, Self::max_seq_len(config), dtype)
    }

    /// Why layer `i` or a later one cannot be planned, if so.
    pub open spec fn first_refusal(vb: &VarBuilderX, comm: Comm, config: Config, mla: MlaV4Config, v4: DeepSeekV4Config, dtype: DType, i: int) -> Option<V4Error>
        decreases config.num_hidden_layers - i,
    {
        if i < 0 || i >= config.num_hidden_layers {
            None
        } else {
            match DeepSeekV4DecoderLayer::refusal(&vb.child(v4_layer(vb, i)), comm, config, mla, v4, v4.compression(i), dtype) {
                Some(e) => Some(e),
                None => Self::first_refusal(vb, comm, config, mla, v4, dtype, i + 1),
            }
        }
    }

    /// Why the model cannot be planned, if so.
    pub open spec fn refusal(vb: &VarBuilderX, comm: Comm, config: Config, mla: MlaV4Config, v4: DeepSeekV4Config, dtype: DType) -> Option<V4Error> {
        match Self::rope(config, mla, LayerCompressionType::Swa, 0) {
            Err(e) => Some(V4Error::Rope(e)),
            Ok(_) => Self::first_refusal(vb, comm, config, mla, v4, dtype, 0),
        }
    }

    /// Whether `l` is layer `i`, with its buffers allocated.
    pub open spec fn is_layer(
        l: DeepSeekV4DecoderLayer,
        vb: &VarBuilderX,
        comm: Comm,
        config: Config,
        mla: MlaV4Config,
        v4: DeepSeekV4Config,
        original_seq_len: usize,
        dtype: DType,
        i: int,
    ) -> bool {
        let kind = v4.compression(i);
        exists|x: DeepSeekV4DecoderLayer| {
            &&& l == #[trigger] x.ensured()
            &&& x.wf()
            &&& x.is_planned(
                &vb.child(v4_layer(vb, i)), comm, Self::rope(config, mla, kind, original_seq_len)->Ok_0, Self::max_seq_len(config),
                config, mla, v4, kind, dtype)
        }
    }

    /// Whether this is the model in the scope.
    pub open spec fn is_planned(
        &self,
        vb: &VarBuilderX,
        comm: Comm,
        config: Config,
        mla: MlaV4Config,
        v4: DeepSeekV4Config,
        original_seq_len: usize,
        table_rows: usize,
        dtype: DType,
    ) -> bool {
        let gguf = vb.checkpoint.gguf;
        let (h, vocab) = (config.hidden_size, Self::vocab(config, table_rows));
        &&& self.embed_tokens.is_table(
            &vb.child(if gguf { "token_embd"@ } else { v4_name(vb, "embed_tokens"@) }), config.vocab_size, h, dtype)
        &&& self.embed_fallback is None <==> gguf
        &&& self.embed_fallback matches Some(t) ==> t.is_table(&vb.child("embed"@), config.vocab_size, h, dtype)
        &&& self.layers@.len() == config.num_hidden_layers
        &&& forall|i: int| 0 <= i < self.layers@.len() ==> Self::is_layer(
            #[trigger] self.layers@[i], vb, comm, config, mla, v4, original_seq_len, dtype, i)
        &&& self.norm.is_rms(
            &vb.child(if gguf { "output_norm"@ } else { v4_name(vb, "norm"@) }), h, DType::F32, false, Shard::whole())
        &&& VocabParallelLinear::planned(
            Ok(self.lm_head), &vb.child(Self::head_name(vb, config)), h, vocab, comm, None, None, dtype)
        &&& self.hc_head is Some <==> v4.hc_mult > 1
        &&& self.hc_head matches Some(w) ==> w.is_planned(&Self::hc_scope(vb), v4.hc_mult, h)
        &&& self.v4_cfg == v4
        &&& self.hidden_size == h
        &&& self.vocab_size == vocab
        &&& self.is_qvar_builder == gguf
        &&& self.quantized_at_load == (config.quant is Some)
        &&& self.is_w2 == asks_w2(config.quant)
        &&& self.dtype == dtype
    }

    /// The layers stand in a usable state.
    pub open spec fn wf(&self) -> bool {
        forall|i: int| 0 <= i < self.layers@.len() ==> (#[trigger] self.layers@[i]).wf()
    }

    fn load_layers(
        vb: &VarBuilderX,
        comm: &Comm,
        config: &Config,
        mla_cfg: &MlaV4Config,
        v4_cfg: &DeepSeekV4Config,
        original_seq_len: usize,
        dtype: DType,
    ) -> (r: Result<Vec<DeepSeekV4DecoderLayer>, V4Error>)
        requires
            forall|i: int| 0 <= i < config.num_hidden_layers ==> DeepSeekV4DecoderLayer::fits(
                *config, *mla_cfg, *v4_cfg, #[trigger] v4_cfg.compression(i), vb.checkpoint.gguf, *comm,
                Self::max_seq_len(*config), dtype),
        ensures
            match Self::refusal(vb, *comm, *config, *mla_cfg, *v4_cfg, dtype) {
                Some(e) => r == Err::<Vec<DeepSeekV4DecoderLayer>, V4Error>(e),
                None => r matches Ok(v) && v@.len() == config.num_hidden_layers && forall|i: int| 0 <= i < v@.len()
                    ==> (#[trigger] v@[i]).wf() && Self::is_layer(
                        v@[i], vb, *comm, *config, *mla_cfg, *v4_cfg, original_seq_len, dtype, i),
            },
    {
        let max_seq_len: usize = if config.max_position_embeddings > 1 { config.max_position_embeddings } else { 1 };
        let compressed = match V4RopeTables::for_layer_kind(max_seq_len, mla_cfg.qk_rope_head_dim, true, original_seq_len) {
            Ok(t) => t,
            Err(e) => return Err(V4Error::Rope(e)),
        };
        let plain = match V4RopeTables::for_layer_kind(max_seq_len, mla_cfg.qk_rope_head_dim, false, original_seq_len) {
            Ok(t) => t,
            Err(e) => return Err(V4Error::Rope(e)),
        };
        let mut layers: Vec<DeepSeekV4DecoderLayer> = Vec::new();
        let mut i: usize = 0;
        while i < config.num_hidden_layers
            invariant
                i <= config.num_hidden_layers,
                max_seq_len == Self::max_seq_len(*config),
                forall|i: int| 0 <= i < config.num_hidden_layers ==> DeepSeekV4DecoderLayer::fits(
                    *config, *mla_cfg, *v4_cfg, #[trigger] v4_cfg.compression(i), vb.checkpoint.gguf, *comm, max_seq_len, dtype),
                forall|k: LayerCompressionType| k !is Swa
                    ==> #[trigger] Self::rope(*config, *mla_cfg, k, original_seq_len) == Ok::<V4RopeTables, RopeError>(compressed),
                Self::rope(*config, *mla_cfg, LayerCompressionType::Swa, original_seq_len) == Ok::<V4RopeTables, RopeError>(plain),
                layers@.len() == i,
                Self::refusal(vb, *comm, *config, *mla_cfg, *v4_cfg, dtype)
                    == Self::first_refusal(vb, *comm, *config, *mla_cfg, *v4_cfg, dtype, i as int),
                forall|j: int| 0 <= j < i ==> (#[trigger] layers@[j]).wf() && Self::is_layer(
                    layers@[j], vb, *comm, *config, *mla_cfg, *v4_cfg, original_seq_len, dtype, j),
            decreases config.num_hidden_layers - i,
        {
            let scope = vb.pp(layer_name(vb, i).as_str());
            let rope = if v4_cfg.layer_compression(i).has_compressor() { compressed } else { plain };
            match DeepSeekV4DecoderLayer::new(&scope, comm, rope, max_seq_len, config, mla_cfg, v4_cfg, i, dtype) {
                Ok(l) => {
                    let mut layer = l;
                    proof {
                        lemma_layer_scope(
                            l, &scope, &vb.child(v4_layer(vb, i as int)), *comm, rope, max_seq_len, *config, *mla_cfg, *v4_cfg,
                            v4_cfg.compression(i as int), dtype);
                    }
                    layer.ensure_decode_buffers();
                    assert(layer == l.ensured());
                    layers.push(layer);
                },
                Err(e) => return Err(e),
            }
            i = i + 1;
        }
        Ok(layers)
    }

    /// Plans a model with these settings. `original_seq_len` is the length
    /// that frequencies are stretched from; `table_rows` is the number of rows
    /// of the embeddings of a block-quantized file, which counts where the
    /// configuration gives no vocabulary.
    pub fn from_settings(
        vb: &VarBuilderX,
        comm: &Comm,
        config: &Config,
        mla_cfg: &MlaV4Config,
        v4_cfg: DeepSeekV4Config,
        original_seq_len: usize,
        table_rows: usize,
        dtype: DType,
    ) -> (r: Result<Self, V4Error>)
        requires
            Self::fits(*config, *mla_cfg, v4_cfg, table_rows, vb.checkpoint.gguf, *comm, dtype),
        ensures
            match Self::refusal(vb, *comm, *config, *mla_cfg, v4_cfg, dtype) {
                Some(e) => r == Err::<Self, V4Error>(e),
                None => r matches Ok(m) && m.wf()
                    && m.is_planned(vb, *comm, *config, *mla_cfg, v4_cfg, original_seq_len, table_rows, dtype),
            },
    {
        let gguf = vb.is_qvar_builder();
        let h: usize = config.hidden_size;
        let embed_name = if gguf { "token_embd".to_owned() } else { part_name(vb, "embed_tokens") };
        let embed_vb = vb.pp(embed_name.as_str());
        let embed_tokens = embedding(config.vocab_size, h, &embed_vb, dtype);
        let embed_fallback = if gguf {
            None
        } else {
            let fallback_vb = vb.pp("embed");
            Some(embedding(config.vocab_size, h, &fallback_vb, dtype))
        };
        let vocab_size: usize = Embedding::vocab_size(config.vocab_size, table_rows);
        let layers = match Self::load_layers(vb, comm, config, mla_cfg, &v4_cfg, original_seq_len, dtype) {
            Ok(v) => v,
            Err(e) => return Err(e),
        };
        let norm_name = if gguf { "output_norm".to_owned() } else { part_name(vb, "norm") };
        let norm_vb = vb.pp(norm_name.as_str());
        let tied = match config.tie_word_embeddings {
            Some(t) => t,
            None => false,
        };
        let head_name = if tied {
            if gguf {
                "token_embd".to_owned()
            } else if vb.has_key(part_name(vb, "embed_tokens.weight").as_str()) {
                part_name(vb, "embed_tokens")
            } else {
                "embed".to_owned()
            }
        } else if gguf {
            "output".to_owned()
        } else if vb.has_key("lm_head.weight") {
            "lm_head".to_owned()
        } else {
            "head".to_owned()
        };
        let head_vb = vb.pp(head_name.as_str());
        let lm_head = match VocabParallelLinear::load_no_bias(h, vocab_size, &head_vb, comm, &None, &None, dtype) {
            Ok(l) => l,
            Err(e) => return Err(V4Error::Attention(V4AttnError::Fp8(e))),
        };
        let hc_head = if v4_cfg.hc_mult > 1 {
            let flat = gguf || !vb.has_key("model.layers.0.attn_norm.weight");
            let hc_vb = if flat { vb.dup() } else { vb.pp("model.") };
            Some(HcHeadWeights::load(&hc_vb, v4_cfg.hc_mult, h))
        } else {
            None
        };
        Ok(
            DeepSeekV4ForCausalLM {
                embed_tokens,
                embed_fallback,
                layers,
                norm: rms_norm(h, &norm_vb, DType::F32, false),
                lm_head,
                hc_head,
                v4_cfg,
                hidden_size: h,
                vocab_size,
                is_qvar_builder: gguf,
                quantized_at_load: config.quant.is_some(),
                is_w2: uses_w2(&config.quant),
                dtype,
            },
        )
    }
}

/// What is known of a layer before a pass.
#[derive(Debug, Clone, Copy, PartialEq, Eq, Structural)]
pub struct V4LayerFacts {
    pub sink_read: bool,
    /// Columns of the indices of compressed rows, where no indexer chooses.
    pub index_cols: usize,
}

/// What one pass of the model is given.
pub struct V4ModelInput {
    pub seq_len: usize,
    pub is_prefill: bool,
    pub max_context_len: usize,
    /// Layers that there are caches for; only those are run.
    pub caches: Option<usize>,
    pub facts: Vec<V4LayerFacts>,
}

/// How the output of the last layer becomes scores.
pub struct V4Head {
    /// Rows that are kept for the output, where some are chosen.
    pub last_rows: Option<Vec<u32>>,
    /// Whether the copies are brought together by weights, not by taking the
    /// first one.
    pub weighted: bool,
    /// Element type that the last norm takes.
    pub norm_input: DType,
}

/// One pass of the model.
pub struct V4ModelPass {
    pub layers: Vec<V4LayerPass>,
    pub head: V4Head,
}

impl DeepSeekV4ForCausalLM {
    /// Whether a model can be planned.
    pub fn can_plan(config: &Config, mla: &MlaV4Config, v4: &DeepSeekV4Config, table_rows: usize, gguf: bool, comm: &Comm, dtype: DType) -> (r: bool)
        ensures
            r == Self::fits(*config, *mla, *v4, table_rows, gguf, *comm, dtype),
    {
        if comm.rank() >= comm.world_size() || (!gguf && config.vocab_size.is_none()) || !mul_fits(v4.hc_mult, config.hidden_size) {
            return false;
        }
        let vocab: usize = Embedding::vocab_size(config.vocab_size, table_rows);
        if !sum_fits(vocab, comm.world_size()) || !sum_fits(vocab + comm.world_size(), (2 * VOCAB_PADDING_SIZE - 2)) {
            return false;
        }
        let max_seq_len: usize = if config.max_position_embeddings > 1 { config.max_position_embeddings } else { 1 };
        let mut i: usize = 0;
        while i < config.num_hidden_layers
            invariant
                i <= config.num_hidden_layers,
                max_seq_len == Self::max_seq_len(*config),
                forall|j: int| 0 <= j < i ==> DeepSeekV4DecoderLayer::fits(
                    *config, *mla, *v4, #[trigger] v4.compression(j), gguf, *comm, max_seq_len, dtype),
            decreases config.num_hidden_layers - i,
        {
            let kind = v4.layer_compression(i);
            if !DeepSeekV4DecoderLayer::can_plan(config, mla, v4, kind, gguf, comm, max_seq_len, dtype) {
                return false;
            }
            i = i + 1;
        }
        true
    }

    /// Whether `r` is the plan of a model with these settings, `None` where
    /// it cannot be planned.
    pub open spec fn planned(
        r: Option<Result<Self, V4Error>>,
        vb: &VarBuilderX,
        comm: Comm,
        config: Config,
        mla: MlaV4Config,
        v4: DeepSeekV4Config,
        original_seq_len: usize,
        table_rows: usize,
        dtype: DType,
    ) -> bool {
        &&& r is Some <==> Self::fits(config, mla, v4, table_rows, vb.checkpoint.gguf, comm, dtype)
        &&& r matches Some(x) ==> match Self::refusal(vb, comm, config, mla, v4, dtype) {
            Some(e) => x == Err::<Self, V4Error>(e),
            None => x matches Ok(m) && m.wf() && m.is_planned(vb, comm, config, mla, v4, original_seq_len, table_rows, dtype),
        }
    }

    /// Plans the model of a configuration with its file; `None` where the
    /// file asks for sizes that cannot be planned.
    pub fn new(vb: &VarBuilderX, comm: &Comm, config: &Config, original_seq_len: usize, table_rows: usize, dtype: DType) -> (r: Option<Result<Self, V4Error>>)
        ensures
            exists|keys: DeepSeekV4Keys, v4: DeepSeekV4Config| {
                &&& #[trigger] keys.are_of(config.extra_config_json)
                &&& #[trigger] v4.is_of(*config, keys)
                &&& Self::planned(
                    r, vb, *comm, *config, MlaV4Config::of(*config, MlaV4Keys::of(config.extra_config_json)), v4,
                    original_seq_len, table_rows, dtype)
            },
    {
        let mla = MlaV4Config::from_config(config);
        let keys = DeepSeekV4Keys::read(&config.extra_config_json);
        let v4 = DeepSeekV4Config::from_keys(config, &keys);
        let ghost settings = v4;
        let r = if Self::can_plan(config, &mla, &v4, table_rows, vb.is_qvar_builder(), comm, dtype) {
            Some(Self::from_settings(vb, comm, config, &mla, v4, original_seq_len, table_rows, dtype))
        } else {
            None
        };
        assert(keys.are_of(config.extra_config_json) && settings.is_of(*config, keys));
        r
    }

    /// Whether embeddings of type `t` are converted to single precision.
    pub fn embed_forward(&self, t: DType) -> (r: bool)
        ensures
            r == (!self.is_w2 && (self.is_qvar_builder || self.quantized_at_load) && t != DType::F32),
    {
        !self.is_w2 && (self.is_qvar_builder || self.quantized_at_load) && t != DType::F32
    }

    /// What layer `i` is given: the tokens only where it looks its experts up.
    pub open spec fn input_of(&self, p: V4ModelInput, i: int) -> V4LayerInput {
        V4LayerInput {
            seq_len: p.seq_len,
            is_prefill: p.is_prefill,
            max_context_len: p.max_context_len,
            sink_read: p.facts@[i].sink_read,
            has_ids: i < self.v4_cfg.n_hash_layers,
            index_cols: p.facts@[i].index_cols,
        }
    }

    /// Layers that are run.
    pub open spec fn run_count(&self, p: V4ModelInput) -> int {
        match p.caches {
            Some(n) => if n < self.layers@.len() { n as int } else { self.layers@.len() as int },
            None => 0,
        }
    }

    /// The first layer from `i` on that fails, or the number of layers that
    /// are run.
    pub open spec fn first_failure(&self, p: V4ModelInput, i: int) -> int
        decreases self.run_count(p) - i,
    {
        if i >= self.run_count(p) || self.layers@[i].pass_refusal(self.input_of(p, i)) is Some {
            i
        } else {
            self.first_failure(p, i + 1)
        }
    }

    /// Whether a pass led from `before` to `after`: every layer that was
    /// reached has done its pass.
    pub open spec fn passed(before: Self, after: Self, p: V4ModelInput) -> bool {
        let stop = before.first_failure(p, 0);
        &&& after == (DeepSeekV4ForCausalLM { layers: after.layers, ..before })
        &&& after.layers@.len() == before.layers@.len()
        &&& forall|i: int| 0 <= i < before.layers@.len() ==> #[trigger] after.layers@[i] == if i <= stop && i < before.run_count(p) {
            before.layers@[i].after(before.input_of(p, i))
        } else {
            before.layers@[i]
        }
    }

    /// Whether `x` is how the output becomes scores, for packed sequences with
    /// these ends.
    pub open spec fn is_head(&self, x: V4Head, ends: Seq<u32>) -> bool {
        &&& x.last_rows is Some <==> ends.len() > 0
        &&& x.last_rows matches Some(v) ==> v@.len() == ends.len() && forall|i: int| 0 <= i < v@.len()
            ==> #[trigger] v@[i] == ends[i] - 1
        &&& x.weighted == (self.hc_head is Some)
        &&& x.norm_input == DType::BF16
    }

    /// Layers that are run.
    pub fn layers_run(&self, p: &V4ModelInput) -> (r: usize)
        ensures
            r == self.run_count(*p),
    {
        match p.caches {
            Some(n) => if n < self.layers.len() { n } else { self.layers.len() },
            None => 0,
        }
    }

    /// The pass of layer `i`.
    pub fn forward_layer(&mut self, p: &V4ModelInput, i: usize) -> (r: Result<V4LayerPass, V4PassError>)
        requires
            old(self).wf(),
            i < old(self).layers@.len(),
            p.facts@.len() == old(self).layers@.len(),
            old(self).layers@[i as int].countable(old(self).input_of(*p, i as int)),
        ensures
            final(self).wf(),
            *final(self) == (DeepSeekV4ForCausalLM { layers: final(self).layers, ..*old(self) }),
            final(self).layers@ == old(self).layers@.update(
                i as int, old(self).layers@[i as int].after(old(self).input_of(*p, i as int))),
            match old(self).layers@[i as int].pass_refusal(old(self).input_of(*p, i as int)) {
                Some(e) => r == Err::<V4LayerPass, V4PassError>(e),
                None => r matches Ok(x) && old(self).layers@[i as int].is_pass(x, old(self).input_of(*p, i as int)),
            },
    {
        let input = V4LayerInput {
            seq_len: p.seq_len,
            is_prefill: p.is_prefill,
            max_context_len: p.max_context_len,
            sink_read: p.facts[i].sink_read,
            has_ids: i < self.v4_cfg.n_hash_layers,
            index_cols: p.facts[i].index_cols,
        };
        self.layers[i].forward(input)
    }

    /// How the output of the last layer becomes scores, for packed sequences
    /// with these ends.
    pub fn head(&self, ends: &Vec<u32>) -> (r: V4Head)
        requires
            forall|i: int| 0 <= i < ends@.len() ==> #[trigger] ends@[i] > 0,
        ensures
            self.is_head(r, ends@),
    {
        let rows = if ends.len() > 0 { Some(last_rows(ends)) } else { None };
        V4Head { last_rows: rows, weighted: self.hc_head.is_some(), norm_input: DType::BF16 }
    }

    /// One pass over packed sequences with these ends.
    pub fn forward(&mut self, p: &V4ModelInput, ends: &Vec<u32>) -> (r: Result<V4ModelPass, V4PassError>)
        requires
            old(self).wf(),
            p.facts@.len() == old(self).layers@.len(),
            forall|i: int| 0 <= i < old(self).layers@.len() ==> (#[trigger] old(self).layers@[i]).countable(
                old(self).input_of(*p, i)),
            forall|i: int| 0 <= i < ends@.len() ==> #[trigger] ends@[i] > 0,
        ensures
            final(self).wf(),
            Self::passed(*old(self), *final(self), *p),
            ({
                let (m, stop) = (*old(self), old(self).first_failure(*p, 0));
                if stop < m.run_count(*p) {
                    r == Err::<V4ModelPass, V4PassError>(m.layers@[stop].pass_refusal(m.input_of(*p, stop))->0)
                } else {
                    &&& r matches Ok(x)
                    &&& x.layers@.len() == m.run_count(*p)
                    &&& forall|i: int| 0 <= i < x.layers@.len() ==> m.layers@[i].is_pass(#[trigger] x.layers@[i], m.input_of(*p, i))
                    &&& m.is_head(x.head, ends@)
                }
            }),
    {
        let count: usize = self.layers_run(p);
        let ghost before = *self;
        let mut passes: Vec<V4LayerPass> = Vec::new();
        let mut i: usize = 0;
        while i < count
            invariant
                i <= count,
                before == *old(self),
                count == before.run_count(*p),
                count <= before.layers@.len(),
                before.wf(),
                p.facts@.len() == before.layers@.len(),
                forall|j: int| 0 <= j < before.layers@.len() ==> (#[trigger] before.layers@[j]).countable(before.input_of(*p, j)),
                *self == (DeepSeekV4ForCausalLM { layers: self.layers, ..before }),
                self.layers@.len() == before.layers@.len(),
                self.wf(),
                before.first_failure(*p, 0) == before.first_failure(*p, i as int),
                forall|j: int| 0 <= j < i ==> #[trigger] self.layers@[j] == before.layers@[j].after(before.input_of(*p, j)),
                forall|j: int| i <= j < before.layers@.len() ==> #[trigger] self.layers@[j] == before.layers@[j],
                passes@.len() == i,
                forall|j: int| 0 <= j < i ==> before.layers@[j].is_pass(#[trigger] passes@[j], before.input_of(*p, j)),
            decreases count - i,
        {
            assert(before.layers@[i as int].countable(before.input_of(*p, i as int)));
            match self.forward_layer(p, i) {
                Ok(x) => passes.push(x),
                Err(e) => return Err(e),
            }
            i = i + 1;
        }
        Ok(V4ModelPass { layers: passes, head: self.head(ends) })
    }

    /// Allocates the buffers of all layers, and the sizes of the scratch
    /// space: copies of a hidden state, and queries of the indexer.
    pub fn prewarm_cuda_graph_scratch(&mut self) -> (r: (usize, usize))
        requires
            old(self).wf(),
            old(self).v4_cfg.hc_mult * old(self).hidden_size <= usize::MAX,
            old(self).v4_cfg.index_n_heads * old(self).v4_cfg.index_head_dim <= usize::MAX,
            old(self).v4_cfg.index_n_heads * 128 <= usize::MAX,
        ensures
            final(self).wf(),
            *final(self) == (DeepSeekV4ForCausalLM { layers: final(self).layers, ..*old(self) }),
            final(self).layers@ == old(self).layers@.map_values(|l: DeepSeekV4DecoderLayer| l.ensured()),
            r.0 == old(self).v4_cfg.hc_mult * old(self).hidden_size,
            r.1 == old(self).v4_cfg.index_n_heads * (if old(self).v4_cfg.index_head_dim > 128 {
                old(self).v4_cfg.index_head_dim
            } else {
                128
            }),
    {
        let ghost before = *self;
        let mut i: usize = 0;
        while i < self.layers.len()
            invariant
                i <= self.layers@.len(),
                before.wf(),
                self.wf(),
                *self == (DeepSeekV4ForCausalLM { layers: self.layers, ..before }),
                self.layers@.len() == before.layers@.len(),
                forall|j: int| 0 <= j < i ==> #[trigger] self.layers@[j] == before.layers@[j].ensured(),
                forall|j: int| i <= j < before.layers@.len() ==> #[trigger] self.layers@[j] == before.layers@[j],
            decreases self.layers@.len() - i,
        {
            self.layers[i].ensure_decode_buffers();
            i = i + 1;
        }
        let width: usize = if self.v4_cfg.index_head_dim > 128 { self.v4_cfg.index_head_dim } else { 128 };
        (self.v4_cfg.hc_mult * self.hidden_size, self.v4_cfg.index_n_heads * width)
    }

    /// Clears the caches and running states of all layers; buffers stay.
    pub fn reset_decode_state_for_graph(&mut self) -> (r: Vec<LayerClear>)
        requires
            old(self).wf(),
        ensures
            final(self).wf(),
            *final(self) == (DeepSeekV4ForCausalLM { layers: final(self).layers, ..*old(self) }),
            final(self).layers@ == old(self).layers@.map_values(|l: DeepSeekV4DecoderLayer| l.emptied()),
            r@ == old(self).layers@.map_values(|l: DeepSeekV4DecoderLayer| l.clears()),
    {
        let ghost before = *self;
        let mut cleared: Vec<LayerClear> = Vec::new();
        let mut i: usize = 0;
        while i < self.layers.len()
            invariant
                i <= self.layers@.len(),
                before.wf(),
                self.wf(),
                *self == (DeepSeekV4ForCausalLM { layers: self.layers, ..before }),
                self.layers@.len() == before.layers@.len(),
                forall|j: int| 0 <= j < i ==> #[trigger] self.layers@[j] == before.layers@[j].emptied(),
                forall|j: int| i <= j < before.layers@.len() ==> #[trigger] self.layers@[j] == before.layers@[j],
                cleared@.len() == i,
                forall|j: int| 0 <= j < i ==> #[trigger] cleared@[j] == before.layers@[j].clears(),
            decreases self.layers@.len() - i,
        {
            cleared.push(self.layers[i].reset_decode_state());
            i = i + 1;
        }
        assert(cleared@ =~= before.layers@.map_values(|l: DeepSeekV4DecoderLayer| l.clears()));
        cleared
    }

    pub fn get_vocab_size(&self) -> (r: usize)
        ensures
            r == self.vocab_size,
    {
        self.vocab_size
    }

    pub fn dtype(&self) -> (r: DType)
        ensures
            r == self.dtype,
    {
        self.dtype
    }
}

proof fn lemma_layer_scope(
    l: DeepSeekV4DecoderLayer,
    a: &VarBuilderX,
    b: &VarBuilderX,
    comm: Comm,
    rope: V4RopeTables,
    max_seq_len: usize,
    config: Config,
    mla: MlaV4Config,
    v4: DeepSeekV4Config,
    kind: LayerCompressionType,
    dtype: DType,
)
    requires
        a.checkpoint == b.checkpoint,
        a.prefix@ == b.prefix@,
        l.is_planned(a, comm, rope, max_seq_len, config, mla, v4, kind, dtype),
    ensures
        l.is_planned(b, comm, rope, max_seq_len, config, mla, v4, kind, dtype),
{
}

/// Settings are what a file says under their own keys, or the defaults; where it
/// lists no ratios there are none.
pub proof fn law_settings_have_defaults(config: Config, text: Option<String>, k: DeepSeekV4Keys, r: DeepSeekV4Config)
    requires
        call_ensures(DeepSeekV4Keys::read, (&text,), k),
        call_ensures(DeepSeekV4Config::from_keys, (&config, &k), r),
    ensures
        kind_at(text, "/hc_mult"@) matches Some(JsonKind::Number(Some(n))) ==> (n <= usize::MAX ==> r.hc_mult == n),
        !(kind_at(text, "/hc_mult"@) matches Some(JsonKind::Number(Some(_)))) ==> r.hc_mult == 4,
        kind_at(text, "/hc_sinkhorn_iters"@) matches Some(JsonKind::Number(Some(n))) ==> (n <= usize::MAX ==> r.hc_sinkhorn_iters == n),
        !(kind_at(text, "/hc_sinkhorn_iters"@) matches Some(JsonKind::Number(Some(_)))) ==> r.hc_sinkhorn_iters == 20,
        kind_at(text, "/num_hash_layers"@) matches Some(JsonKind::Number(Some(n))) ==> (n <= usize::MAX ==> r.n_hash_layers == n),
        !(kind_at(text, "/num_hash_layers"@) matches Some(JsonKind::Number(Some(_)))) ==> r.n_hash_layers == 3,
        kind_at(text, "/index_head_dim"@) matches Some(JsonKind::Number(Some(n))) ==> (n <= usize::MAX ==> r.index_head_dim == n),
        !(kind_at(text, "/index_head_dim"@) matches Some(JsonKind::Number(Some(_)))) ==> r.index_head_dim == 128,
        kind_at(text, "/index_n_heads"@) matches Some(JsonKind::Number(Some(n))) ==> (n <= usize::MAX ==> r.index_n_heads == n),
        !(kind_at(text, "/index_n_heads"@) matches Some(JsonKind::Number(Some(_)))) ==> r.index_n_heads == 64,
        kind_at(text, "/index_topk"@) matches Some(JsonKind::Number(Some(n))) ==> (n <= usize::MAX ==> r.index_topk == n),
        !(kind_at(text, "/index_topk"@) matches Some(JsonKind::Number(Some(_)))) ==> r.index_topk == 512,
        !(kind_at(text, "/compress_ratios"@) matches Some(JsonKind::Array(_))) ==> r.compress_ratios@.len() == 0,
        config.sliding_window matches Some(w) ==> r.sliding_window == w,
        config.sliding_window is None ==> r.sliding_window == 128,
{
}

/// Where all listed ratios are integers that fit, each is kept in its place.
pub proof fn law_ratios_keep_their_places(config: Config, k: DeepSeekV4Keys, r: DeepSeekV4Config)
    requires
        call_ensures(DeepSeekV4Config::from_keys, (&config, &k), r),
        k.compress_ratios is Some,
        forall|i: int| 0 <= i < k.compress_ratios->0@.len() ==> ((#[trigger] k.compress_ratios->0@[i]) matches Some(JsonKind::Number(Some(n)))
            && n <= usize::MAX),
    ensures
        r.compress_ratios@.len() == k.compress_ratios->0@.len(),
        forall|i: int| 0 <= i < r.compress_ratios@.len() ==> (k.compress_ratios->0@[i] matches Some(JsonKind::Number(Some(n)))
            && n == #[trigger] r.compress_ratios@[i]),
{
    lemma_sizes_in_place(k.compress_ratios->0@);
}

proof fn lemma_sizes_in_place(items: Seq<Option<JsonKind>>)
    requires
        forall|i: int| 0 <= i < items.len() ==> ((#[trigger] items[i]) matches Some(JsonKind::Number(Some(n))) && n <= usize::MAX),
    ensures
        sizes_among(items).len() == items.len(),
        forall|i: int| 0 <= i < items.len() ==> (items[i] matches Some(JsonKind::Number(Some(n))) && n == #[trigger] sizes_among(items)[i]),
    decreases items.len(),
{
    if items.len() > 0 {
        let rest = items.drop_last();
        assert forall|i: int| 0 <= i < rest.len() implies ((#[trigger] rest[i]) matches Some(JsonKind::Number(Some(n))) && n <= usize::MAX) by {
            assert(rest[i] == items[i]);
        }
        lemma_sizes_in_place(rest);
        assert(items.last() == items[items.len() - 1]);
        assert forall|i: int| 0 <= i < items.len() implies (items[i] matches Some(JsonKind::Number(Some(n))) && n == #[trigger] sizes_among(
            items,
        )[i]) by {
            if i < rest.len() {
                assert(rest[i] == items[i]);
                assert(sizes_among(items)[i] == sizes_among(rest)[i]);
            }
        }
    }
}

/// A listed value that is no integer is passed over; an integer comes after all
/// before it.
pub proof fn law_other_values_give_no_ratio(
    config: Config,
    a: DeepSeekV4Keys,
    b: DeepSeekV4Keys,
    x: DeepSeekV4Config,
    y: DeepSeekV4Config,
    item: Option<JsonKind>,
)
    requires
        call_ensures(DeepSeekV4Config::from_keys, (&config, &a), x),
        call_ensures(DeepSeekV4Config::from_keys, (&config, &b), y),
        a.compress_ratios is Some,
        b.compress_ratios is Some,
        b.compress_ratios->0@ == a.compress_ratios->0@.push(item),
    ensures
        item matches Some(JsonKind::Number(Some(n))) ==> (n <= usize::MAX ==> y.compress_ratios@ == x.compress_ratios@.push(n as usize)),
        !(item matches Some(JsonKind::Number(Some(_)))) ==> y.compress_ratios@ == x.compress_ratios@,
{
    let (s, t) = (a.compress_ratios->0@, b.compress_ratios->0@);
    assert(t.drop_last() =~= s);
    assert(t.last() == item);
}

/// A layer compresses by the ratio in its place: none or 0 leaves the window
/// alone, 4 overlaps and has an indexer, and any other ratio does not overlap.
pub proof fn law_layers_compress_by_their_ratio(v4: DeepSeekV4Config, layer_idx: usize, r: LayerCompressionType)
    requires
        call_ensures(DeepSeekV4Config::layer_compression, (&v4, layer_idx), r),
    ensures
        layer_idx >= v4.compress_ratios@.len() ==> r is Swa,
        layer_idx < v4.compress_ratios@.len() ==> {
            let ratio = v4.compress_ratios@[layer_idx as int];
            &&& r is Swa <==> ratio == 0
            &&& r is Overlap <==> ratio == 4
            &&& r matches LayerCompressionType::NonOverlap(n) ==> n == ratio
        },
{
}

/// Two bits are asked for by two names, written large or small; experts have
/// four bits by two names, or where nothing is said.
pub proof fn law_names_of_expert_formats(quant: Option<String>, w2: bool, dtype: Option<String>, fp4: bool)
    requires
        call_ensures(uses_w2, (&quant,), w2),
        call_ensures(experts_are_fp4, (&dtype,), fp4),
    ensures
        quant is None ==> !w2,
        quant matches Some(q) ==> (w2 <==> lowercase_of(q@) == "w2"@ || lowercase_of(q@) == "moe_w2"@),
        dtype is None ==> fp4,
        dtype matches Some(d) ==> (fp4 <==> d@.map_values(|c: char| ascii_lower_char(c)) == "fp4"@ || d@.map_values(
            |c: char| ascii_lower_char(c),
        ) == "mxfp4"@),
{
}

/// Experts are routed as they are stored, repacked or not.
pub proof fn law_repacked_experts_are_routed_alike(
    m: FusedMoeMxfp4,
    has_ids: bool,
    a: Result<V4Route, V4MoeError>,
    b: Result<V4Route, V4MoeError>,
    c: Result<V4Route, V4MoeError>,
)
    requires
        call_ensures(MoeOrMlp::forward_with_ids, (&MoeOrMlp::FusedMoeMxfp4(m), has_ids), a),
        call_ensures(MoeOrMlp::forward_with_ids, (&MoeOrMlp::FusedMoeW2(V4MoeW2 { experts: m }), has_ids), b),
        call_ensures(crate::ds_v4::moe_v4::V4Router::route, (&m.router, has_ids), c),
    ensures
        a == c,
        b == c,
        a is Err <==> m.router is Hash && !has_ids,
{
}

/// A planned layer has a compressor where its ratio is not 0 and an indexer where
/// it is 4, keeps nothing yet, and has routed experts, repacked on request, and
/// shared experts where they have a width: that of one times their number.
pub proof fn law_planned_layers(
    vb: VarBuilderX,
    comm: Comm,
    rope: V4RopeTables,
    max_seq_len: usize,
    config: Config,
    mla: MlaV4Config,
    v4: DeepSeekV4Config,
    layer_idx: usize,
    dtype: DType,
    kind: LayerCompressionType,
    w2: bool,
    r: Result<DeepSeekV4DecoderLayer, V4Error>,
)
    requires
        call_ensures(DeepSeekV4Config::layer_compression, (&v4, layer_idx), kind),
        call_ensures(uses_w2, (&config.quant,), w2),
        DeepSeekV4DecoderLayer::fits(config, mla, v4, kind, vb.checkpoint.gguf, comm, max_seq_len, dtype),
        call_ensures(
            DeepSeekV4DecoderLayer::new,
            (&vb, &comm, rope, max_seq_len, &config, &mla, &v4, layer_idx, dtype),
            r,
        ),
        r is Ok,
    ensures
        ({
            let l = r->Ok_0;
            let h = config.hidden_size;
            &&& l.compression == kind && l.sliding_window == v4.sliding_window && l.max_seq_len == max_seq_len && l.rope == rope
            &&& l.compressor is None <==> kind is Swa
            &&& l.indexer is Some <==> kind is Overlap
            &&& l.compressor matches Some(c) ==> {
                &&& c.head_dim == mla.head_dim && c.hidden_dim == h
                &&& kind is Overlap ==> c.ratio == 4
                &&& kind matches LayerCompressionType::NonOverlap(n) ==> c.ratio == n
                &&& c.ape.path@ == vb.child("attn"@).spec_path("compressor"@ + ".ape"@)
            }
            &&& l.indexer matches Some(x) ==> {
                &&& x.index_head_dim == v4.index_head_dim && x.index_topk == v4.index_topk
                &&& x.global_index_n_heads == v4.index_n_heads && x.index_n_heads * comm.world_size == v4.index_n_heads
                &&& x.compressor.ratio == 4 && x.compressor.head_dim == v4.index_head_dim && x.compressor.hidden_dim == h
            }
            &&& l.sparse_kv is None && l.compressor_state is None && l.indexer_state is None && l.decode_buffers is None
            &&& l.attn_norm.weight.path@ == vb.child("attn_norm"@).spec_path("weight"@) && l.attn_norm.weight.shape@ == seq![h]
            &&& l.ffn_norm.weight.path@ == vb.child("ffn_norm"@).spec_path("weight"@) && l.ffn_norm.weight.shape@ == seq![h]
            &&& l.attn_norm.dtype == DType::F32 && l.ffn_norm.dtype == DType::F32
            &&& l.hc_attn.hc_base.path@ == vb.spec_path("hc_attn"@ + "_base"@) && l.hc_ffn.hc_base.path@ == vb.spec_path("hc_ffn"@ + "_base"@)
            &&& l.mlp is FusedMoeW2 <==> w2
            &&& l.mlp.stored().buffers.experts == config.experts() && l.mlp.stored().dtype == dtype
            &&& l.self_attn.num_heads * comm.world_size == mla.num_attention_heads && l.self_attn.head_dim == mla.head_dim
            &&& l.self_attn.attn_sink.path@ == vb.child("attn"@).spec_path("attn_sink"@)
            &&& l.shared_expert is Some <==> config.moe_cfg->0.shared_expert_intermediate_size is Some
                && config.moe_cfg->0.shared_expert_intermediate_size->0 > 0
        }),
{
    let ws = comm.world_size as int;
    lemma_fundamental_div_mod(mla.num_attention_heads as int, ws);
    lemma_fundamental_div_mod(v4.index_n_heads as int, ws);
    lemma_mul_is_commutative(ws, mla.num_attention_heads as int / ws);
    lemma_mul_is_commutative(ws, v4.index_n_heads as int / ws);
}

/// Shared experts together have the width of one times their number, one where
/// none is given, in the first of two scopes where it holds their tensors and in
/// the second where not.
pub proof fn law_planned_shared_experts(
    vb: VarBuilderX,
    comm: Comm,
    rope: V4RopeTables,
    max_seq_len: usize,
    config: Config,
    mla: MlaV4Config,
    v4: DeepSeekV4Config,
    layer_idx: usize,
    dtype: DType,
    r: Result<DeepSeekV4DecoderLayer, V4Error>,
    size: MlpSize,
)
    requires
        DeepSeekV4DecoderLayer::fits(
            config, mla, v4, v4.compression(layer_idx as int), vb.checkpoint.gguf, comm, max_seq_len, dtype),
        call_ensures(
            DeepSeekV4DecoderLayer::new,
            (&vb, &comm, rope, max_seq_len, &config, &mla, &v4, layer_idx, dtype),
            r,
        ),
        r is Ok,
        r->Ok_0.shared_expert is Some,
        size.hidden_size == config.hidden_size,
        !size.gate_up_merged,
        size.dtype == dtype,
        config.moe_cfg->0.n_shared_experts matches Some(k) ==> size.intermediate_size == config.moe_cfg->0.shared_expert_intermediate_size->0
            * k,
        config.moe_cfg->0.n_shared_experts is None ==> size.intermediate_size == config.moe_cfg->0.shared_expert_intermediate_size->0,
    ensures
        ({
            let m = r->Ok_0.shared_expert->0;
            let many = vb.child("ffn.shared_experts"@);
            let there = many.has("gate_proj.weight"@) || many.has("gate_proj.weight_packed"@) || vb.child("ffn.shared_experts.w1"@).has(
                "weight"@,
            );
            &&& there ==> m.is_planned(&many, comm, size, config.quantization_config, None, ""@)
            &&& !there ==> m.is_planned(&vb.child("ffn.shared_expert"@), comm, size, config.quantization_config, None, ""@)
        }),
{
    assert(size == shared_size(config, dtype));
}

/// A layer that is refused has heads or groups that cannot be shared out, FP8
/// weights that cannot be read, experts that are stored in a format that is not
/// known, or index heads that cannot be shared out. Whatever the experts were
/// stored in, a request for two bits is followed; no other request is.
pub proof fn law_layers_are_refused_for_a_reason(
    vb: VarBuilderX,
    comm: Comm,
    rope: V4RopeTables,
    max_seq_len: usize,
    config: Config,
    mla: MlaV4Config,
    v4: DeepSeekV4Config,
    layer_idx: usize,
    dtype: DType,
    kind: LayerCompressionType,
    w2: bool,
    fp4: bool,
    heads: int,
    groups: int,
    index_heads: int,
    r: Result<DeepSeekV4DecoderLayer, V4Error>,
)
    requires
        call_ensures(DeepSeekV4Config::layer_compression, (&v4, layer_idx), kind),
        call_ensures(uses_w2, (&config.quant,), w2),
        call_ensures(experts_are_fp4, (&config.expert_dtype,), fp4),
        DeepSeekV4DecoderLayer::fits(config, mla, v4, kind, vb.checkpoint.gguf, comm, max_seq_len, dtype),
        call_ensures(
            DeepSeekV4DecoderLayer::new,
            (&vb, &comm, rope, max_seq_len, &config, &mla, &v4, layer_idx, dtype),
            r,
        ),
    ensures
        vb.checkpoint.gguf ==> r is Err,
        config.quant is Some && !w2 ==> r is Err,
        !fp4 && !w2 ==> r is Err,
        kind is Overlap && index_heads * comm.world_size < v4.index_n_heads < (index_heads + 1) * comm.world_size ==> r is Err,
        heads * comm.world_size < mla.num_attention_heads < (heads + 1) * comm.world_size ==> (r matches Err(e)
            && e == V4Error::Attention(V4AttnError::Heads { heads: mla.num_attention_heads, world_size: comm.world_size })),
        r matches Err(V4Error::GgufExperts) ==> vb.checkpoint.gguf,
        r matches Err(V4Error::Quant) ==> config.quant is Some && !w2,
        r matches Err(V4Error::ExpertDtype) ==> config.quant is None && !fp4,
        r matches Err(V4Error::Shared(_)) ==> config.moe_cfg->0.shared_expert_intermediate_size is Some
            && config.moe_cfg->0.shared_expert_intermediate_size->0 > 0,
        r matches Err(V4Error::IndexHeads(e)) ==> kind is Overlap && e.index_n_heads == v4.index_n_heads && e.world_size == comm.world_size,
        !(r matches Err(V4Error::Rope(_))),
        heads * comm.world_size == mla.num_attention_heads && groups * comm.world_size == mla.o_groups && index_heads * comm.world_size
            == v4.index_n_heads && !vb.checkpoint.gguf && (w2 || (config.quant is None && fp4)) && config.quantization_config is None
            && config.moe_cfg->0.shared_expert_intermediate_size is None ==> r is Ok,
{
    let ws = comm.world_size as int;
    lemma_multiple_or_between(mla.num_attention_heads as int, ws, heads);
    lemma_multiple_or_between(mla.o_groups as int, ws, groups);
    lemma_multiple_or_between(v4.index_n_heads as int, ws, index_heads);
}

proof fn lemma_multiple_or_between(n: int, ws: int, k: int)
    requires
        ws > 0,
    ensures
        k * ws == n ==> n % ws == 0,
        k * ws < n < (k + 1) * ws ==> n % ws != 0,
{
    if k * ws == n {
        lemma_mod_multiples_basic(k, ws);
    }
    if k * ws < n < (k + 1) * ws && n % ws == 0 {
        lemma_fundamental_div_mod(n, ws);
        let q = n / ws;
        assert(ws * q >= (k + 1) * ws) by (nonlinear_arith)
            requires
                ws > 0,
                ws * q > k * ws,
        ;
    }
}

/// A planned model: as many layers as the configuration says, each compressing by
/// its own ratio and with its buffers allocated, where only layers that compress
/// have stretched frequencies; weights for the copies where there are several.
pub proof fn law_planned_model(
    vb: VarBuilderX,
    comm: Comm,
    config: Config,
    mla: MlaV4Config,
    v4: DeepSeekV4Config,
    original_seq_len: usize,
    table_rows: usize,
    dtype: DType,
    r: Result<DeepSeekV4ForCausalLM, V4Error>,
    w2: bool,
    i: usize,
    kind: LayerCompressionType,
)
    requires
        DeepSeekV4ForCausalLM::fits(config, mla, v4, table_rows, vb.checkpoint.gguf, comm, dtype),
        call_ensures(
            DeepSeekV4ForCausalLM::from_settings,
            (&vb, &comm, &config, &mla, v4, original_seq_len, table_rows, dtype),
            r,
        ),
        r is Ok,
        call_ensures(uses_w2, (&config.quant,), w2),
        call_ensures(DeepSeekV4Config::layer_compression, (&v4, i), kind),
    ensures
        ({
            let m = r->Ok_0;
            let l = m.layers@[i as int];
            &&& m.layers@.len() == config.num_hidden_layers
            &&& i < config.num_hidden_layers ==> {
                &&& l.compression == kind && l.sliding_window == v4.sliding_window
                &&& l.rope.compressed_base <==> !(kind is Swa)
                &&& kind is Swa ==> l.rope.original_seq_len == 0
                &&& !(kind is Swa) ==> l.rope.original_seq_len == original_seq_len
                &&& l.rope.rotary_dim == mla.qk_rope_head_dim && l.rope.max_seq_len == l.max_seq_len
                &&& config.max_position_embeddings > 0 ==> l.max_seq_len == config.max_position_embeddings
                &&& config.max_position_embeddings == 0 ==> l.max_seq_len == 1
                &&& l.sparse_kv is Some && l.decode_buffers is Some
                &&& l.sparse_kv->0.compressed_len == 0
                &&& l.compressor_state is None <==> kind is Swa
                &&& l.indexer_state is Some <==> kind is Overlap
                &&& l.mlp is FusedMoeW2 <==> w2
                &&& l.attn_norm.weight.path@ == vb.child(v4_layer(&vb, i as int)).child("attn_norm"@).spec_path("weight"@)
            }
            &&& m.hc_head is Some <==> v4.hc_mult > 1
            &&& m.v4_cfg == v4 && m.hidden_size == config.hidden_size && m.dtype == dtype
            &&& config.vocab_size matches Some(n) ==> m.vocab_size == n
            &&& config.vocab_size is None ==> m.vocab_size == table_rows
            &&& m.lm_head.org_vocab_size == m.vocab_size
            &&& m.is_w2 == w2
            &&& m.quantized_at_load <==> config.quant is Some
            &&& m.is_qvar_builder <==> vb.checkpoint.gguf
            &&& m.norm.dtype == DType::F32 && m.norm.weight.shape@ == seq![config.hidden_size]
        }),
{
    let m = r->Ok_0;
    if i < config.num_hidden_layers {
        assert(DeepSeekV4ForCausalLM::is_layer(m.layers@[i as int], &vb, comm, config, mla, v4, original_seq_len, dtype, i as int));
    }
}

/// Names of parts: below one scope where the first layer is found in it, and at
/// the root where not; block-quantized files have names of their own. A tied
/// output layer is the table of embeddings.
pub proof fn law_names_of_model_parts(
    vb: VarBuilderX,
    comm: Comm,
    config: Config,
    mla: MlaV4Config,
    v4: DeepSeekV4Config,
    original_seq_len: usize,
    table_rows: usize,
    dtype: DType,
    r: Result<DeepSeekV4ForCausalLM, V4Error>,
)
    requires
        DeepSeekV4ForCausalLM::fits(config, mla, v4, table_rows, vb.checkpoint.gguf, comm, dtype),
        call_ensures(
            DeepSeekV4ForCausalLM::from_settings,
            (&vb, &comm, &config, &mla, v4, original_seq_len, table_rows, dtype),
            r,
        ),
        r is Ok,
    ensures
        ({
            let m = r->Ok_0;
            let gguf = vb.checkpoint.gguf;
            let nested = vb.has("model.layers.0.attn_norm.weight"@);
            let tied = config.tie_word_embeddings is Some && config.tie_word_embeddings->0;
            let (h, vocab) = (config.hidden_size, config.vocab_size);
            let table = vb.child(
                if gguf {
                    "token_embd"@
                } else if nested {
                    "model."@ + "embed_tokens"@
                } else {
                    "embed_tokens"@
                },
            );
            let stored = vb.has(if nested { "model."@ + "embed_tokens.weight"@ } else { "embed_tokens.weight"@ });
            let plain = m.lm_head.linear matches crate::linear::LinearX::Linear(_);
            let path = m.lm_head.linear->Linear_0.weight.path@;
            &&& m.embed_tokens.is_table(&table, vocab, h, dtype)
            &&& gguf ==> m.embed_fallback is None
            &&& !gguf ==> (m.embed_fallback matches Some(t) && t.is_table(&vb.child("embed"@), vocab, h, dtype))
            &&& gguf ==> m.norm.weight.path@ == vb.child("output_norm"@).spec_path("weight"@)
            &&& !gguf && nested ==> m.norm.weight.path@ == vb.child("model."@ + "norm"@).spec_path("weight"@)
            &&& !gguf && !nested ==> m.norm.weight.path@ == vb.child("norm"@).spec_path("weight"@)
            &&& !gguf ==> plain
            &&& !gguf && tied && stored ==> path == table.spec_path("weight"@)
            &&& !gguf && tied && !stored ==> path == vb.child("embed"@).spec_path("weight"@)
            &&& !gguf && !tied && vb.has("lm_head.weight"@) ==> path == vb.child("lm_head"@).spec_path("weight"@)
            &&& !gguf && !tied && !vb.has("lm_head.weight"@) ==> path == vb.child("head"@).spec_path("weight"@)
        }),
{
}

/// A layer is named by its index, below the same scope as the other parts.
pub proof fn law_names_of_layers(vb: VarBuilderX, i: int)
    ensures
        vb.checkpoint.gguf ==> v4_layer(&vb, i) == "blk."@ + decimal_of(i as nat),
        !vb.checkpoint.gguf && vb.has("model.layers.0.attn_norm.weight"@) ==> v4_layer(&vb, i) == "model."@ + ("layers."@ + decimal_of(
            i as nat,
        )),
        !vb.checkpoint.gguf && !vb.has("model.layers.0.attn_norm.weight"@) ==> v4_layer(&vb, i) == "layers."@ + decimal_of(i as nat),
{
}

/// The model is refused where its rotation is or one of its layers, and then for
/// that reason; the rotation needs a width that is even and not 0.
pub proof fn law_model_is_refused_with_its_parts(
    vb: VarBuilderX,
    comm: Comm,
    config: Config,
    mla: MlaV4Config,
    v4: DeepSeekV4Config,
    original_seq_len: usize,
    table_rows: usize,
    dtype: DType,
    r: Result<DeepSeekV4ForCausalLM, V4Error>,
    k: int,
)
    requires
        DeepSeekV4ForCausalLM::fits(config, mla, v4, table_rows, vb.checkpoint.gguf, comm, dtype),
        call_ensures(
            DeepSeekV4ForCausalLM::from_settings,
            (&vb, &comm, &config, &mla, v4, original_seq_len, table_rows, dtype),
            r,
        ),
    ensures
        2 * k + 1 == mla.qk_rope_head_dim || mla.qk_rope_head_dim == 0 ==> (r matches Err(e) && e == V4Error::Rope(
            RopeError::RotaryDim { rotary_dim: mla.qk_rope_head_dim },
        )),
        vb.checkpoint.gguf && config.num_hidden_layers > 0 ==> r is Err,
        config.num_hidden_layers == 0 && 2 * k == mla.qk_rope_head_dim && k > 0 ==> r is Ok,
        r matches Err(V4Error::Rope(_)) ==> mla.qk_rope_head_dim == 0 || mla.qk_rope_head_dim % 2 == 1,
{
    lemma_first_refusal_is_of_a_layer(&vb, comm, config, mla, v4, dtype, 0);
    reveal_with_fuel(DeepSeekV4ForCausalLM::first_refusal, 2);
}

proof fn lemma_first_refusal_is_of_a_layer(
    vb: &VarBuilderX,
    comm: Comm,
    config: Config,
    mla: MlaV4Config,
    v4: DeepSeekV4Config,
    dtype: DType,
    i: int,
)
    requires
        i >= 0,
    ensures
        DeepSeekV4ForCausalLM::first_refusal(vb, comm, config, mla, v4, dtype, i) matches Some(e) ==> !(e is Rope),
    decreases config.num_hidden_layers - i,
{
    if i < config.num_hidden_layers {
        lemma_first_refusal_is_of_a_layer(vb, comm, config, mla, v4, dtype, i + 1);
    }
}

/// Embeddings are converted where weights were quantized, unless to two bits, and
/// where they are not in single precision already.
pub proof fn law_embeddings_are_converted(m: DeepSeekV4ForCausalLM, t: DType, r: bool, vocab: usize, dtype: DType)
    requires
        call_ensures(DeepSeekV4ForCausalLM::embed_forward, (&m, t), r),
        call_ensures(DeepSeekV4ForCausalLM::get_vocab_size, (&m,), vocab),
        call_ensures(DeepSeekV4ForCausalLM::dtype, (&m,), dtype),
    ensures
        t == DType::F32 ==> !r,
        m.is_w2 ==> !r,
        !m.is_qvar_builder && !m.quantized_at_load ==> !r,
        !m.is_w2 && t != DType::F32 && m.is_qvar_builder ==> r,
        !m.is_w2 && t != DType::F32 && m.quantized_at_load ==> r,
        vocab == m.vocab_size && dtype == m.dtype,
{
}

/// Layers are run from the first on as long as there are caches for them, and
/// none without caches.
pub proof fn law_layers_with_caches_are_run(m: DeepSeekV4ForCausalLM, p: V4ModelInput, r: usize)
    requires
        call_ensures(DeepSeekV4ForCausalLM::layers_run, (&m, &p), r),
    ensures
        r <= m.layers@.len(),
        p.caches is None ==> r == 0,
        p.caches matches Some(n) ==> r <= n && (r == n || r == m.layers@.len()),
{
}

/// Each sequence keeps its last row, which stands before its end; without
/// sequences all rows are kept.
pub proof fn law_last_rows_are_kept(m: DeepSeekV4ForCausalLM, ends: Vec<u32>, r: V4Head, i: int)
    requires
        forall|i: int| 0 <= i < ends@.len() ==> #[trigger] ends@[i] > 0,
        call_ensures(DeepSeekV4ForCausalLM::head, (&m, &ends), r),
    ensures
        r.last_rows is None <==> ends@.len() == 0,
        r.last_rows matches Some(v) ==> v@.len() == ends@.len() && (0 <= i < ends@.len() ==> v@[i] + 1 == ends@[i]),
        r.weighted <==> m.hc_head is Some,
        r.norm_input == DType::BF16,
{
}

/// A pass of the model is a pass of each layer with caches, in order, up to the
/// first that fails: layer `i` ends up as its own pass leaves it and later layers
/// stay as they are. Tokens are known to the first layers alone. The model fails
/// where a layer that is run does, and with the error of the first of them.
pub proof fn law_passes_go_through_the_layers(
    before: DeepSeekV4ForCausalLM,
    p: V4ModelInput,
    ends: Vec<u32>,
    count: usize,
    i: int,
    input: V4LayerInput,
    j: int,
)
    requires
        before.wf(),
        p.facts@.len() == before.layers@.len(),
        forall|i: int| 0 <= i < before.layers@.len() ==> (#[trigger] before.layers@[i]).countable(before.input_of(p, i)),
        forall|i: int| 0 <= i < ends@.len() ==> #[trigger] ends@[i] > 0,
        call_ensures(DeepSeekV4ForCausalLM::layers_run, (&before, &p), count),
        0 <= i < before.layers@.len(),
        input.seq_len == p.seq_len && input.is_prefill == p.is_prefill && input.max_context_len == p.max_context_len,
        input.sink_read == p.facts@[i].sink_read && input.index_cols == p.facts@[i].index_cols,
        input.has_ids <==> i < before.v4_cfg.n_hash_layers,
    ensures
        forall|m: &mut DeepSeekV4ForCausalLM, r: Result<V4ModelPass, V4PassError>|
            *m == before && #[trigger] call_ensures(DeepSeekV4ForCausalLM::forward, (m, &p, &ends), r) ==> {
                let after = *final(m);
                &&& after.layers@.len() == before.layers@.len()
                &&& after.v4_cfg == before.v4_cfg && after.vocab_size == before.vocab_size && after.norm == before.norm && after.lm_head
                    == before.lm_head && after.hc_head == before.hc_head && after.embed_tokens == before.embed_tokens
                &&& i >= count ==> after.layers@[i] == before.layers@[i]
                &&& r matches Ok(x) ==> x.layers@.len() == count && (x.head.last_rows is None <==> ends@.len() == 0)
                &&& forall|l: &mut DeepSeekV4DecoderLayer, y: Result<V4LayerPass, V4PassError>|
                    *l == before.layers@[i] && i < count && #[trigger] call_ensures(DeepSeekV4DecoderLayer::forward, (l, input), y) ==> {
                        &&& y is Err ==> r is Err
                        &&& r is Ok ==> after.layers@[i] == *final(l)
                        &&& i == 0 ==> after.layers@[i] == *final(l)
                        &&& i == 0 && y is Err ==> (r matches Err(e) && y == Err::<V4LayerPass, V4PassError>(e))
                        &&& i == 0 && count == 1 ==> (r is Ok <==> y is Ok)
                        &&& y is Err && i < j < before.layers@.len() ==> after.layers@[j] == before.layers@[j]
                    }
            },
{
    assert(input == before.input_of(p, i));
    lemma_failures_stop(before, p, 0);
    assert(before.layers@[i].countable(input));
    assert(before.layers@[i].wf());
}

/// The first layer that fails is one that is run, and none before it fails.
proof fn lemma_failures_stop(m: DeepSeekV4ForCausalLM, p: V4ModelInput, i: int)
    requires
        0 <= i <= m.run_count(p),
    ensures
        i <= m.first_failure(p, i) <= m.run_count(p),
        forall|k: int| i <= k < m.first_failure(p, i) ==> (#[trigger] m.layers@[k]).pass_refusal(m.input_of(p, k)) is None,
        m.first_failure(p, i) < m.run_count(p) ==> m.layers@[m.first_failure(p, i)].pass_refusal(m.input_of(p, m.first_failure(p, i))) is Some,
    decreases m.run_count(p) - i,
{
    if i < m.run_count(p) && m.layers@[i].pass_refusal(m.input_of(p, i)) is None {
        lemma_failures_stop(m, p, i + 1);
    }
}

/// Where a layer fails and none before it does, the model fails with its error.
pub proof fn law_the_first_failure_counts(before: DeepSeekV4ForCausalLM, p: V4ModelInput, ends: Vec<u32>, count: usize, i: int)
    requires
        before.wf(),
        p.facts@.len() == before.layers@.len(),
        forall|i: int| 0 <= i < before.layers@.len() ==> (#[trigger] before.layers@[i]).countable(before.input_of(p, i)),
        forall|i: int| 0 <= i < ends@.len() ==> #[trigger] ends@[i] > 0,
        call_ensures(DeepSeekV4ForCausalLM::layers_run, (&before, &p), count),
        0 <= i < count,
        forall|k: int| 0 <= k < i ==> (#[trigger] before.layers@[k]).pass_refusal(before.input_of(p, k)) is None,
    ensures
        forall|m: &mut DeepSeekV4ForCausalLM, r: Result<V4ModelPass, V4PassError>|
            *m == before && #[trigger] call_ensures(DeepSeekV4ForCausalLM::forward, (m, &p, &ends), r) ==> forall|
                l: &mut DeepSeekV4DecoderLayer,
                y: Result<V4LayerPass, V4PassError>,
            |
                *l == before.layers@[i] && #[trigger] call_ensures(DeepSeekV4DecoderLayer::forward, (l, before.input_of(p, i)), y) ==> (y matches Err(e) ==> r
                    == Err::<V4ModelPass, V4PassError>(e)),
{
    lemma_failures_stop(before, p, 0);
    let stop = before.first_failure(p, 0);
    if stop < i {
        assert(before.layers@[stop].pass_refusal(before.input_of(p, stop)) is None);
    }
    if i < stop {
        assert(before.layers@[i].pass_refusal(before.input_of(p, i)) is None);
    }
    assert(before.layers@[i].countable(before.input_of(p, i)));
    assert(before.layers@[i].wf());
}

/// Preparing and clearing the model is preparing and clearing each layer, and
/// nothing else. Scratch space has room for all copies of a hidden state, and
/// for a query of each index head of at least 128 elements.
pub proof fn law_layers_are_prepared_and_cleared(before: DeepSeekV4ForCausalLM, i: int)
    requires
        before.wf(),
        before.v4_cfg.hc_mult * before.hidden_size <= usize::MAX,
        before.v4_cfg.index_n_heads * before.v4_cfg.index_head_dim <= usize::MAX,
        before.v4_cfg.index_n_heads * 128 <= usize::MAX,
        0 <= i < before.layers@.len(),
    ensures
        forall|m: &mut DeepSeekV4ForCausalLM, r: (usize, usize)|
            *m == before && #[trigger] call_ensures(DeepSeekV4ForCausalLM::prewarm_cuda_graph_scratch, (m,), r) ==> {
                let after = *final(m);
                &&& after.layers@.len() == before.layers@.len() && after.v4_cfg == before.v4_cfg && after.hc_head == before.hc_head
                &&& r.0 == before.v4_cfg.hc_mult * before.hidden_size
                &&& before.v4_cfg.index_head_dim >= 128 ==> r.1 == before.v4_cfg.index_n_heads * before.v4_cfg.index_head_dim
                &&& before.v4_cfg.index_head_dim < 128 ==> r.1 == before.v4_cfg.index_n_heads * 128
                &&& forall|l: &mut DeepSeekV4DecoderLayer, u: ()|
                    *l == before.layers@[i] && #[trigger] call_ensures(DeepSeekV4DecoderLayer::ensure_decode_buffers, (l,), u) ==> after.layers@[i]
                        == *final(l)
            },
        forall|m: &mut DeepSeekV4ForCausalLM, r: Vec<LayerClear>|
            *m == before && #[trigger] call_ensures(DeepSeekV4ForCausalLM::reset_decode_state_for_graph, (m,), r) ==> {
                let after = *final(m);
                &&& after.layers@.len() == before.layers@.len() && r@.len() == before.layers@.len() && after.v4_cfg == before.v4_cfg
                &&& forall|l: &mut DeepSeekV4DecoderLayer, c: LayerClear|
                    *l == before.layers@[i] && #[trigger] call_ensures(DeepSeekV4DecoderLayer::reset_decode_state, (l,), c) ==> after.layers@[i]
                        == *final(l) && r@[i] == c
            },
{
}

/// A pass that succeeds routes tokens as the experts do, adds shared experts where
/// the layer has them, and mixes in full width. A prefill attends as a prefill.
pub proof fn law_passes_route_and_add(before: DeepSeekV4DecoderLayer, p: V4LayerInput, route: Result<V4Route, V4MoeError>)
    requires
        before.wf(),
        before.countable(p),
        call_ensures(MoeOrMlp::forward_with_ids, (&before.mlp, p.has_ids), route),
    ensures
        forall|l: &mut DeepSeekV4DecoderLayer, y: Result<V4LayerPass, V4PassError>|
            *l == before && #[trigger] call_ensures(DeepSeekV4DecoderLayer::forward, (l, p), y) ==> {
                &&& route is Err ==> y is Err
                &&& y matches Ok(x) ==> {
                    &&& route == Ok::<V4Route, V4MoeError>(x.route)
                    &&& x.adds_shared <==> before.shared_expert is Some
                    &&& x.branch == DType::F32
                    &&& x.attn is Prefill <==> p.is_prefill
                }
                &&& final(l).self_attn == before.self_attn && final(l).mlp == before.mlp && final(l).compressor == before.compressor
                &&& final(l).indexer == before.indexer && final(l).sliding_window == before.sliding_window && final(l).rope == before.rope
            },
{
}

/// What a layer allocates is what it lacks, as its parts make it: a cache for the
/// window and every run of tokens that a row stands for, a state for its
/// compressor, and one for its indexer.
pub proof fn law_allocated_parts_fit_the_layer(
    before: DeepSeekV4DecoderLayer,
    ratio: usize,
    sparse: LayerSparseKvCache,
    state: CompressorDecodeState,
    index: IndexerDecodeState,
)
    requires
        before.wf(),
        call_ensures(LayerCompressionType::ratio, (&before.compression,), ratio),
        call_ensures(LayerSparseKvCache::new, (before.sliding_window, ratio, before.max_seq_len, before.self_attn.head_dim), sparse),
        before.compressor matches Some(c) ==> call_ensures(CompressorDecodeState::new, (c.ratio, c.head_dim), state),
        before.indexer matches Some(x) ==> call_ensures(IndexerDecodeState::new, (x.index_head_dim, before.max_seq_len), index),
    ensures
        forall|l: &mut DeepSeekV4DecoderLayer, u: ()|
            *l == before && #[trigger] call_ensures(DeepSeekV4DecoderLayer::ensure_decode_buffers, (l,), u) ==> {
                let after = *final(l);
                &&& before.sparse_kv is None ==> after.sparse_kv == Some(sparse)
                &&& before.sparse_kv is Some ==> after.sparse_kv == before.sparse_kv
                &&& before.compressor_state is None && before.compressor is Some ==> after.compressor_state == Some(state)
                &&& before.compressor is None ==> after.compressor_state is None
                &&& before.compressor_state is Some ==> after.compressor_state == before.compressor_state
                &&& before.indexer_state is None && before.indexer is Some ==> after.indexer_state == Some(index)
                &&& before.indexer is None ==> after.indexer_state is None
                &&& before.indexer_state is Some ==> after.indexer_state == before.indexer_state
                &&& after.decode_buffers is Some
                &&& before.decode_buffers is Some ==> after.decode_buffers == before.decode_buffers
                &&& after.self_attn == before.self_attn && after.mlp == before.mlp && after.rope == before.rope
            },
{
    lemma_slots(before);
}

/// The pass of one layer changes that layer alone, as its own pass does, and gives
/// its result; tokens are known to the first layers alone.
pub proof fn law_one_layer_at_a_time(before: DeepSeekV4ForCausalLM, p: V4ModelInput, i: usize, j: int, input: V4LayerInput)
    requires
        before.wf(),
        i < before.layers@.len(),
        p.facts@.len() == before.layers@.len(),
        input.seq_len == p.seq_len && input.is_prefill == p.is_prefill && input.max_context_len == p.max_context_len,
        input.sink_read == p.facts@[i as int].sink_read && input.index_cols == p.facts@[i as int].index_cols,
        input.has_ids <==> i < before.v4_cfg.n_hash_layers,
        before.layers@[i as int].countable(input),
    ensures
        forall|m: &mut DeepSeekV4ForCausalLM, r: Result<V4LayerPass, V4PassError>|
            *m == before && #[trigger] call_ensures(DeepSeekV4ForCausalLM::forward_layer, (m, &p, i), r) ==> {
                let after = *final(m);
                &&& after.layers@.len() == before.layers@.len() && after.v4_cfg == before.v4_cfg
                &&& 0 <= j < before.layers@.len() && j != i ==> after.layers@[j] == before.layers@[j]
                &&& forall|l: &mut DeepSeekV4DecoderLayer, y: Result<V4LayerPass, V4PassError>|
                    *l == before.layers@[i as int] && #[trigger] call_ensures(DeepSeekV4DecoderLayer::forward, (l, input), y) ==> {
                        &&& after.layers@[i as int] == *final(l)
                        &&& r is Ok <==> y is Ok
                        &&& r matches Err(e) ==> y == Err::<V4LayerPass, V4PassError>(e)
                    }
            },
{
    assert(input == before.input_of(p, i as int));
    assert(before.layers@[i as int].wf());
}

/// A model is planned only where the rank is one of the world, a vocabulary is given
/// or read, the copies of a hidden state can be counted, and each layer can be
/// planned. With one layer or none that is enough, if the padded vocabulary can be
/// counted too.
pub proof fn law_models_that_can_be_planned(
    config: Config,
    mla: MlaV4Config,
    v4: DeepSeekV4Config,
    table_rows: usize,
    gguf: bool,
    comm: Comm,
    dtype: DType,
    r: bool,
    i: usize,
    kind: LayerCompressionType,
    layer: bool,
)
    requires
        call_ensures(DeepSeekV4ForCausalLM::can_plan, (&config, &mla, &v4, table_rows, gguf, &comm, dtype), r),
        call_ensures(DeepSeekV4Config::layer_compression, (&v4, i), kind),
        call_ensures(
            DeepSeekV4DecoderLayer::can_plan,
            (
                &config,
                &mla,
                &v4,
                kind,
                gguf,
                &comm,
                if config.max_position_embeddings == 0 {
                    1
                } else {
                    config.max_position_embeddings
                },
                dtype,
            ),
            layer,
        ),
    ensures
        r ==> comm.rank < comm.world_size,
        r && !gguf ==> config.vocab_size is Some,
        r ==> v4.hc_mult * config.hidden_size <= usize::MAX,
        r && i < config.num_hidden_layers ==> layer,
        comm.rank < comm.world_size && config.num_hidden_layers == 0 && v4.hc_mult * config.hidden_size <= usize::MAX
            && config.vocab_size is Some && config.vocab_size->0 + comm.world_size + 126 <= usize::MAX ==> r,
        comm.rank < comm.world_size && config.num_hidden_layers == 1 && i == 0 && layer && v4.hc_mult * config.hidden_size <= usize::MAX
            && config.vocab_size is Some && config.vocab_size->0 + comm.world_size + 126 <= usize::MAX ==> r,
{
}

} // verus!
