//! Models of the Gemma 4 family: layers with a sliding window between layers
//! that see everything.

use crate::attention::{Attention, AttentionError};
use crate::batch::{are_ends, causal_mask_sides, last_rows, start_of};
use crate::checkpoint::{dims1, dims2, DType, Fetch, TensorRead, VarBuilderX};
use crate::config::{method_is, uses_method, Config, HeadSize};
use crate::distributed::{Comm, Shard, VOCAB_PADDING_SIZE};
use crate::ggml::QuantType;
use crate::json::{
    as_bool, as_size, as_u64, bool_in, find_either, find_text_items, kind_at, kind_at_either, size_in, text_view, texts_of_items,
    u64_in, JsonKind,
};
use crate::linear::{can_plan, fp8_unplannable, plannable, Fp8Error, LinearSize};
use crate::mla::{as_opt_size, opt_size_in};
use crate::mlp::{MlpSize, MLP};
use crate::moe::blocks::{block_part, FusedMoeGGUF, FusedMoeISQ};
use crate::moe::experts::{experts_refused, router_dtype, router_size, FusedMoe, MoeError};
use crate::moe::fp4::{FusedMoeMxfp4, FusedMoeNvfp4};
use crate::moe::routing::{is_top, select_refused, select_topk_indices, RouteError};
use crate::others::{embedding, rms_norm, Embedding, NormX};
use crate::parallel::{fp8_refusal, full_size, ReplicatedLinear, VocabParallelLinear};
use crate::text::{decimal, decimal_of, join, path_of, same};
use vstd::prelude::*;

verus! {

/// What a configuration file holds under the keys of the family. Each key may
/// stand in the text part of the file instead.
pub struct Gemma4Keys {
    pub layer_types: Option<Vec<Option<String>>>,
    pub swa_head_dim: Option<JsonKind>,
    pub num_global_key_value_heads: Option<JsonKind>,
    pub attention_k_eq_v: Option<JsonKind>,
    pub enable_moe_block: Option<JsonKind>,
    pub global_head_dim: Option<JsonKind>,
    pub hidden_size_per_layer_input: Option<JsonKind>,
    pub num_kv_shared_layers: Option<JsonKind>,
    pub use_double_wide_mlp: Option<JsonKind>,
}

/// Where the types of the layers stand.
pub open spec fn layer_types_pointer(text: Option<String>) -> Seq<char> {
    if kind_at(text, "/layer_types"@) is Some { "/layer_types"@ } else { "/text_config/layer_types"@ }
}

impl Gemma4Keys {
    /// Whether these are the keys of an optional configuration file.
    pub open spec fn are_of(&self, text: Option<String>) -> bool {
        &&& texts_of_items(self.layer_types, text, layer_types_pointer(text))
        &&& self.swa_head_dim == kind_at_either(text, "/swa_head_dim"@, "/text_config/head_dim"@)
        &&& self.num_global_key_value_heads
            == kind_at_either(text, "/num_global_key_value_heads"@, "/text_config/num_global_key_value_heads"@)
        &&& self.attention_k_eq_v == kind_at_either(text, "/attention_k_eq_v"@, "/text_config/attention_k_eq_v"@)
        &&& self.enable_moe_block == kind_at_either(text, "/enable_moe_block"@, "/text_config/enable_moe_block"@)
        &&& self.global_head_dim == kind_at_either(text, "/global_head_dim"@, "/text_config/global_head_dim"@)
        &&& self.hidden_size_per_layer_input
            == kind_at_either(text, "/hidden_size_per_layer_input"@, "/text_config/hidden_size_per_layer_input"@)
        &&& self.num_kv_shared_layers == kind_at_either(text, "/num_kv_shared_layers"@, "/text_config/num_kv_shared_layers"@)
        &&& self.use_double_wide_mlp == kind_at_either(text, "/use_double_wide_mlp"@, "/text_config/use_double_wide_mlp"@)
    }

    pub fn read(text: &Option<String>) -> (r: Self)
        ensures
            r.are_of(*text),
    {
        let pointer = if crate::json::find(text, "/layer_types").is_some() { "/layer_types" } else { "/text_config/layer_types" };
        Gemma4Keys {
            layer_types: find_text_items(text, pointer),
            swa_head_dim: find_either(text, "/swa_head_dim", "/text_config/head_dim"),
            num_global_key_value_heads: find_either(
                text, "/num_global_key_value_heads", "/text_config/num_global_key_value_heads"),
            attention_k_eq_v: find_either(text, "/attention_k_eq_v", "/text_config/attention_k_eq_v"),
            enable_moe_block: find_either(text, "/enable_moe_block", "/text_config/enable_moe_block"),
            global_head_dim: find_either(text, "/global_head_dim", "/text_config/global_head_dim"),
            hidden_size_per_layer_input: find_either(
                text, "/hidden_size_per_layer_input", "/text_config/hidden_size_per_layer_input"),
            num_kv_shared_layers: find_either(text, "/num_kv_shared_layers", "/text_config/num_kv_shared_layers"),
            use_double_wide_mlp: find_either(text, "/use_double_wide_mlp", "/text_config/use_double_wide_mlp"),
        }
    }

    /// Whether layer `i` has a sliding window: as its type says, where an
    /// unreadable or missing type counts as one; without types, every sixth
    /// layer sees everything.
    pub open spec fn slides(&self, i: int) -> bool {
        match self.layer_types {
            Some(t) => if i < t@.len() {
                match text_view(t@[i]) {
                    Some(s) => s == "sliding_attention"@,
                    None => true,
                }
            } else {
                true
            },
            None => (i + 1) % 6 != 0,
        }
    }

    pub fn is_sliding(&self, i: usize) -> (r: bool)
        requires
            i < usize::MAX,
        ensures
            r == self.slides(i as int),
    {
        match &self.layer_types {
            Some(t) => if i < t.len() {
                match &t[i] {
                    Some(s) => same(s.as_str(), "sliding_attention"),
                    None => true,
                }
            } else {
                true
            },
            None => (i + 1) % 6 != 0,
        }
    }
}

/// What the keys mean for a configuration.
#[derive(Debug, Clone, Copy, PartialEq, Eq)]
pub struct Gemma4Settings {
    pub swa_head_dim: usize,
    pub global_head_dim: usize,
    pub global_kv_heads: Option<usize>,
    pub k_eq_v: bool,
    pub enable_moe: bool,
    pub per_layer_input: Option<usize>,
    pub kv_shared_layers: usize,
    pub double_wide_mlp: bool,
}

impl Gemma4Settings {
    /// What the keys mean for `cfg`.
    pub open spec fn of(k: Gemma4Keys, cfg: Config) -> Self {
        Gemma4Settings {
            swa_head_dim: size_in(k.swa_head_dim, 256),
            global_head_dim: size_in(k.global_head_dim, match cfg.head_dim { Some(d) => d, None => 256 }),
            global_kv_heads: opt_size_in(k.num_global_key_value_heads),
            k_eq_v: bool_in(k.attention_k_eq_v, false),
            enable_moe: bool_in(k.enable_moe_block, cfg.moe_cfg is Some),
            per_layer_input: match u64_in(k.hidden_size_per_layer_input) {
                Some(n) => if n > 0 { Some(n as usize) } else { None },
                None => None,
            },
            kv_shared_layers: size_in(k.num_kv_shared_layers, 0),
            double_wide_mlp: bool_in(k.use_double_wide_mlp, false),
        }
    }

    pub fn from_keys(k: &Gemma4Keys, cfg: &Config) -> (r: Self)
        ensures
            r == Self::of(*k, *cfg),
    {
        Gemma4Settings {
            swa_head_dim: as_size(k.swa_head_dim, 256),
            global_head_dim: as_size(k.global_head_dim, match cfg.head_dim { Some(d) => d, None => 256 }),
            global_kv_heads: as_opt_size(k.num_global_key_value_heads),
            k_eq_v: as_bool(k.attention_k_eq_v, false),
            enable_moe: as_bool(k.enable_moe_block, cfg.moe_cfg.is_some()),
            per_layer_input: match as_u64(k.hidden_size_per_layer_input) {
                Some(n) => if n > 0 { Some(#[verifier::truncate] (n as usize)) } else { None },
                None => None,
            },
            kv_shared_layers: as_size(k.num_kv_shared_layers, 0),
            double_wide_mlp: as_bool(k.use_double_wide_mlp, false),
        }
    }

    /// The heads of a layer.
    pub open spec fn head_size(self, cfg: Config, sliding: bool) -> HeadSize {
        if sliding {
            HeadSize { head_dim: Some(self.swa_head_dim), num_kv_heads: cfg.num_key_value_heads }
        } else {
            HeadSize {
                head_dim: Some(self.global_head_dim),
                num_kv_heads: match self.global_kv_heads {
                    Some(n) => n,
                    None => cfg.num_key_value_heads,
                },
            }
        }
    }

    pub fn heads(&self, cfg: &Config, sliding: bool) -> (r: HeadSize)
        ensures
            r == self.head_size(*cfg, sliding),
    {
        if sliding {
            HeadSize { head_dim: Some(self.swa_head_dim), num_kv_heads: cfg.num_key_value_heads }
        } else {
            HeadSize {
                head_dim: Some(self.global_head_dim),
                num_kv_heads: match self.global_kv_heads {
                    Some(n) => n,
                    None => cfg.num_key_value_heads,
                },
            }
        }
    }

    /// Width of the feed-forward layer of layer `i`: twice as wide in the
    /// last layers, where they share keys and values.
    pub open spec fn layer_width(self, cfg: Config, i: int) -> int {
        if self.double_wide_mlp && self.kv_shared_layers > 0 && i >= cfg.num_hidden_layers - self.kv_shared_layers {
            cfg.intermediate_size * 2
        } else {
            cfg.intermediate_size as int
        }
    }

    pub fn intermediate_size(&self, cfg: &Config, i: usize) -> (r: usize)
        requires
            cfg.intermediate_size * 2 <= usize::MAX,
        ensures
            r == self.layer_width(*cfg, i as int),
    {
        let first: usize = if cfg.num_hidden_layers >= self.kv_shared_layers {
            cfg.num_hidden_layers - self.kv_shared_layers
        } else {
            0
        };
        if self.double_wide_mlp && self.kv_shared_layers > 0 && i >= first {
            cfg.intermediate_size * 2
        } else {
            cfg.intermediate_size
        }
    }
}

/// The router of a layer with experts.
#[derive(Clone)]
pub struct Gemma4Router {
    pub scale: TensorRead,
    pub proj: TensorRead,
    pub per_expert_scale: TensorRead,
    pub hidden_size: usize,
    pub top_k: usize,
}

impl Gemma4Router {
    /// Whether this is the router in the scope.
    pub open spec fn is_planned(&self, vb: &VarBuilderX, hidden_size: usize, num_experts: usize, top_k: usize) -> bool {
        &&& self.scale.reads(vb.spec_path("scale"@), seq![hidden_size], Shard::whole(), vb.checkpoint.dtype)
        &&& self.proj.reads(
            vb.child("proj"@).spec_path("weight"@), seq![num_experts, hidden_size], Shard::whole(), vb.checkpoint.dtype)
        &&& self.per_expert_scale.reads(
            vb.spec_path("per_expert_scale"@), seq![num_experts], Shard::whole(), vb.checkpoint.dtype)
        &&& self.hidden_size == hidden_size
        &&& self.top_k == top_k
    }

    pub fn new(hidden_size: usize, num_experts: usize, top_k: usize, vb: &VarBuilderX) -> (r: Self)
        ensures
            r.is_planned(vb, hidden_size, num_experts, top_k),
    {
        let proj_vb = vb.pp("proj");
        Gemma4Router {
            scale: vb.get("scale", dims1(hidden_size)),
            proj: proj_vb.get("weight", dims2(num_experts, hidden_size)),
            per_expert_scale: vb.get("per_expert_scale", dims1(num_experts)),
            hidden_size,
            top_k,
        }
    }

    /// The experts of one token, best first, from sort keys of their
    /// probabilities.
    pub fn forward(&self, keys: &Vec<i64>) -> (r: Result<Vec<u32>, RouteError>)
        ensures
            match select_refused(keys@.len() as int, self.top_k as int) {
                Some(e) => r == Err::<Vec<u32>, RouteError>(e),
                None => r matches Ok(idx) && is_top(idx@, keys@, self.top_k as int),
            },
    {
        select_topk_indices(keys, self.top_k)
    }
}

/// Experts in one of the stored formats.
pub enum Gemma4MoE {
    FusedMoe(FusedMoe),
    FusedMoeGGUF(FusedMoeGGUF),
    FusedMoeISQ(FusedMoeISQ),
    FusedMoeMxfp4(FusedMoeMxfp4),
    FusedMoeNvfp4(FusedMoeNvfp4),
}

impl Gemma4MoE {
    /// Whether experts take the choice of the layer's own router; the others
    /// route themselves.
    pub fn forward_with_routing(&self) -> (r: bool)
        ensures
            r == (self is FusedMoe || self is FusedMoeNvfp4),
    {
        match self {
            Gemma4MoE::FusedMoe(_) => true,
            Gemma4MoE::FusedMoeNvfp4(_) => true,
            _ => false,
        }
    }

    /// The kinds of quantization that have experts.
    pub open spec fn supported(cfg: Config, gguf: bool) -> bool {
        !gguf && cfg.quantization_config is Some
            ==> method_is(cfg.quantization_config, "mxfp4"@) || method_is(cfg.quantization_config, "nvfp4"@)
    }

    /// Whether experts can be planned.
    pub open spec fn wf(cfg: Config, gguf: bool, comm: Comm, dtype: DType) -> bool {
        &&& cfg.has_experts()
        &&& Self::supported(cfg, gguf)
        &&& comm.wf()
        &&& comm.world_size * 2 <= usize::MAX
        &&& cfg.expert_width() * 2 <= usize::MAX
        &&& cfg.expert_width() + 256 <= usize::MAX
        &&& plannable(router_size(cfg, router_dtype(cfg, dtype)), gguf, cfg.quantization_config)
        &&& !gguf && cfg.quantization_config is None && cfg.quant is Some ==> QuantType::of_name(cfg.quant->0@) is Some
    }

    /// Whether experts can be planned.
    pub fn can_plan(cfg: &Config, gguf: bool, comm: &Comm, dtype: DType) -> (r: bool)
        ensures
            r == Self::wf(*cfg, gguf, *comm, dtype),
    {
        let (experts, width) = match &cfg.moe_cfg {
            Some(m) => match m.num_experts {
                Some(n) => (n, m.moe_intermediate_size),
                None => return false,
            },
            None => return false,
        };
        let known = gguf || cfg.quantization_config.is_none() || uses_method(&cfg.quantization_config, "mxfp4")
            || uses_method(&cfg.quantization_config, "nvfp4");
        if !known || comm.rank() >= comm.world_size() || comm.world_size() > usize::MAX / 2 || width > usize::MAX / 2
            || width > usize::MAX - 256 {
            return false;
        }
        let gate_dtype = if cfg.higher_precision_required { DType::F32 } else { dtype };
        let router = LinearSize {
            in_dim: cfg.hidden_size, out_dim: experts, shard: Shard::default(), bias: false, dtype: gate_dtype,
        };
        if !can_plan(router, gguf, &cfg.quantization_config) {
            return false;
        }
        match &cfg.quant {
            Some(q) => gguf || cfg.quantization_config.is_some() || QuantType::from_name(q.as_str()).is_some(),
            None => true,
        }
    }

    /// Why experts cannot be planned, if so.
    pub open spec fn refusal(vb: &VarBuilderX, cfg: Config, comm: Comm) -> Option<MoeError> {
        if vb.checkpoint.gguf {
            if comm.world_size > 1
                && block_part(cfg.expert_width() as int, comm.rank as int, comm.world_size as int, 256) is None {
                Some(MoeError::Unsplittable { width: cfg.expert_width(), world_size: comm.world_size, block: 256 })
            } else {
                None
            }
        } else if method_is(cfg.quantization_config, "mxfp4"@) {
            if fp8_unplannable(&vb.child("mlp"@).child("gate"@), cfg.quantization_config) {
                Some(MoeError::Router)
            } else if cfg.experts() == 0 {
                Some(MoeError::NoExperts)
            } else {
                None
            }
        } else if cfg.quantization_config is Some {
            if cfg.experts() == 0 { Some(MoeError::NoExperts) } else { None }
        } else {
            experts_refused(cfg, &vb.child("experts"@))
        }
    }

    /// Whether these are the experts below the scope of a layer.
    pub open spec fn is_planned(&self, vb: &VarBuilderX, cfg: Config, comm: Comm, dtype: DType) -> bool {
        let gate = vb.child("router"@).child("proj"@);
        let experts = vb.child("experts"@);
        if vb.checkpoint.gguf {
            self matches Gemma4MoE::FusedMoeGGUF(m) && FusedMoeGGUF::planned(Ok(*m), cfg, vb, comm)
        } else if method_is(cfg.quantization_config, "mxfp4"@) {
            let mlp = vb.child("mlp"@);
            self matches Gemma4MoE::FusedMoeMxfp4(m)
                && FusedMoeMxfp4::planned(Ok(*m), cfg, &mlp.child("gate"@), &mlp.child("experts"@), &mlp, comm, dtype)
        } else if cfg.quantization_config is Some {
            self matches Gemma4MoE::FusedMoeNvfp4(m) && FusedMoeNvfp4::planned(Ok(*m), cfg, &gate, &experts, None, comm, dtype)
        } else if cfg.quant is Some {
            self matches Gemma4MoE::FusedMoeISQ(m) && FusedMoeISQ::planned_with_gate(Ok(*m), cfg, &gate, &experts, vb, comm)
        } else {
            self matches Gemma4MoE::FusedMoe(m) && FusedMoe::planned(Ok(*m), cfg, &gate, &experts, vb, comm, dtype)
        }
    }

    pub fn new(cfg: &Config, vb: &VarBuilderX, comm: &Comm, dtype: DType) -> (r: Result<Self, MoeError>)
        requires
            Self::wf(*cfg, vb.checkpoint.gguf, *comm, dtype),
        ensures
            match Self::refusal(vb, *cfg, *comm) {
                Some(e) => r == Err::<Self, MoeError>(e),
                None => r matches Ok(m) && m.is_planned(vb, *cfg, *comm, dtype),
            },
    {
        if vb.is_qvar_builder() {
            return match FusedMoeGGUF::new(cfg, vb, comm) {
                Ok(m) => Ok(Gemma4MoE::FusedMoeGGUF(m)),
                Err(e) => Err(e),
            };
        }
        if uses_method(&cfg.quantization_config, "mxfp4") {
            let mlp = vb.pp("mlp");
            return match FusedMoeMxfp4::new(cfg, &mlp, comm, dtype) {
                Ok(m) => Ok(Gemma4MoE::FusedMoeMxfp4(m)),
                Err(e) => Err(e),
            };
        }
        let router = vb.pp("router");
        let gate = router.pp("proj");
        let experts = vb.pp("experts");
        if cfg.quantization_config.is_some() {
            return match FusedMoeNvfp4::new_with_gate(cfg, &gate, &experts, comm, dtype) {
                Ok(m) => Ok(Gemma4MoE::FusedMoeNvfp4(m)),
                Err(e) => Err(e),
            };
        }
        if cfg.quant.is_some() {
            return match FusedMoeISQ::new_with_gate(cfg, &gate, &experts, vb, comm) {
                Ok(m) => Ok(Gemma4MoE::FusedMoeISQ(m)),
                Err(e) => Err(e),
            };
        }
        match FusedMoe::new_with_gate(cfg, &gate, &experts, vb, comm, dtype) {
            Ok(m) => Ok(Gemma4MoE::FusedMoe(m)),
            Err(e) => Err(e),
        }
    }
}

/// Why a model cannot be planned.
#[derive(Debug, Clone, Copy, PartialEq, Eq)]
pub enum Gemma4Error {
    Attention(AttentionError),
    Mlp(AttentionError),
    Moe(MoeError),
    Fp8(Fp8Error),
}

/// Experts and what stands around them.
pub struct Gemma4Experts {
    pub moe: Gemma4MoE,
    pub router: Gemma4Router,
    pub post_feedforward_layernorm_1: NormX,
    pub post_feedforward_layernorm_2: NormX,
    pub pre_feedforward_layernorm_2: NormX,
}

/// What adds the input of a layer of its own.
pub struct PerLayerInput {
    pub post_per_layer_input_norm: NormX,
    pub per_layer_input_gate: ReplicatedLinear,
    pub per_layer_projection: ReplicatedLinear,
}

/// A layer.
pub struct Gemma4DecoderLayer {
    pub self_attn: Attention,
    pub mlp: MLP,
    pub experts: Option<Gemma4Experts>,
    pub input_layernorm: NormX,
    pub post_attention_layernorm: NormX,
    pub pre_feedforward_layernorm: NormX,
    pub post_feedforward_layernorm: NormX,
    pub per_layer: Option<PerLayerInput>,
    pub layer_scalar: TensorRead,
    pub is_sliding: bool,
}

/// The norm `name` below `vb`.
pub open spec fn norm_below(n: NormX, vb: &VarBuilderX, name: Seq<char>, size: usize) -> bool {
    n.is_rms(&vb.child(name), size, DType::F32, false, Shard::whole())
}

fn load_norm(vb: &VarBuilderX, name: &str, size: usize) -> (r: NormX)
    ensures
        norm_below(r, vb, name@, size),
{
    let scope = vb.pp(name);
    rms_norm(size, &scope, DType::F32, false)
}

/// Which layer of a model is planned.
#[derive(Debug, Clone, Copy, PartialEq, Eq, Structural)]
pub struct LayerKind {
    pub is_sliding: bool,
    pub intermediate_size: usize,
}

impl Gemma4DecoderLayer {
    /// Whether the layer has experts.
    pub open spec fn has_moe(cfg: Config, st: Gemma4Settings) -> bool {
        st.enable_moe && cfg.moe_cfg is Some
    }

    pub open spec fn mlp_size(cfg: Config, kind: LayerKind, dtype: DType) -> MlpSize {
        MlpSize { hidden_size: cfg.hidden_size, intermediate_size: kind.intermediate_size, gate_up_merged: false, dtype }
    }

    /// The scope of the attention of a layer, and of its feed-forward layer.
    pub open spec fn part<'a>(vb: &VarBuilderX<'a>, name: Seq<char>) -> VarBuilderX<'a> {
        if vb.checkpoint.gguf { *vb } else { vb.child(name) }
    }

    /// Whether a layer can be planned.
    pub open spec fn wf(cfg: Config, st: Gemma4Settings, kind: LayerKind, gguf: bool, comm: Comm, dtype: DType) -> bool {
        let q = cfg.quantization_config;
        &&& Attention::wf(cfg, st.head_size(cfg, kind.is_sliding), gguf, comm, dtype)
        &&& Self::mlp_size(cfg, kind, dtype).wf(comm, gguf, q)
        &&& Self::has_moe(cfg, st) ==> Gemma4MoE::wf(cfg, gguf, comm, dtype)
        &&& st.per_layer_input matches Some(dim) ==> {
            &&& plannable(full_size(cfg.hidden_size, dim, false, dtype), gguf, q)
            &&& plannable(full_size(dim, cfg.hidden_size, false, dtype), gguf, q)
        }
    }

    /// Whether a layer can be planned.
    pub fn can_plan(cfg: &Config, st: &Gemma4Settings, kind: LayerKind, gguf: bool, comm: &Comm, dtype: DType) -> (r: bool)
        ensures
            r == Self::wf(*cfg, *st, kind, gguf, *comm, dtype),
    {
        let q = &cfg.quantization_config;
        let size = MlpSize {
            hidden_size: cfg.hidden_size,
            intermediate_size: kind.intermediate_size,
            gate_up_merged: false,
            dtype,
        };
        if !Attention::can_plan(cfg, st.heads(cfg, kind.is_sliding), gguf, comm, dtype) || !size.can_plan(comm, gguf, q) {
            return false;
        }
        if st.enable_moe && cfg.moe_cfg.is_some() && !Gemma4MoE::can_plan(cfg, gguf, comm, dtype) {
            return false;
        }
        match st.per_layer_input {
            Some(dim) => {
                let down = LinearSize { in_dim: cfg.hidden_size, out_dim: dim, shard: Shard::default(), bias: false, dtype };
                let up = LinearSize { in_dim: dim, out_dim: cfg.hidden_size, shard: Shard::default(), bias: false, dtype };
                can_plan(down, gguf, q) && can_plan(up, gguf, q)
            },
            None => true,
        }
    }

    /// Whether keys serve as values.
    pub open spec fn k_eq_v(st: Gemma4Settings, kind: LayerKind) -> bool {
        !kind.is_sliding && st.k_eq_v
    }

    /// Why a layer cannot be planned, if so.
    pub open spec fn refusal(vb: &VarBuilderX, comm: Comm, cfg: Config, st: Gemma4Settings, kind: LayerKind, dtype: DType) -> Option<Gemma4Error> {
        let q = cfg.quantization_config;
        let attn = Attention::refusal(
            &Self::part(vb, "self_attn"@), comm, cfg, st.head_size(cfg, kind.is_sliding), Self::k_eq_v(st, kind));
        let mlp = MLP::refusal(&Self::part(vb, "mlp"@), Self::mlp_size(cfg, kind, dtype), q, cfg.quant, ""@);
        let moe = Gemma4MoE::refusal(vb, cfg, comm);
        if attn is Some {
            Some(Gemma4Error::Attention(attn->0))
        } else if mlp is Some {
            Some(Gemma4Error::Mlp(mlp->0))
        } else if Self::has_moe(cfg, st) && moe is Some {
            Some(Gemma4Error::Moe(moe->0))
        } else if st.per_layer_input is Some && (fp8_unplannable(&vb.child("per_layer_input_gate"@), q)
            || fp8_unplannable(&vb.child("per_layer_projection"@), q)) {
            Some(Gemma4Error::Fp8(fp8_refusal(q)))
        } else {
            None
        }
    }

    /// Whether `x` are the experts of a layer in the scope.
    pub open spec fn are_experts(x: Gemma4Experts, vb: &VarBuilderX, comm: Comm, cfg: Config, dtype: DType) -> bool {
        let h = cfg.hidden_size;
        &&& x.moe.is_planned(vb, cfg, comm, dtype)
        &&& x.router.is_planned(&vb.child("router"@), h, cfg.experts(), cfg.moe_cfg->0.num_experts_per_tok)
        &&& norm_below(x.post_feedforward_layernorm_1, vb, "post_feedforward_layernorm_1"@, h)
        &&& norm_below(x.post_feedforward_layernorm_2, vb, "post_feedforward_layernorm_2"@, h)
        &&& norm_below(x.pre_feedforward_layernorm_2, vb, "pre_feedforward_layernorm_2"@, h)
    }

    /// Whether `x` adds inputs of `dim` elements.
    pub open spec fn adds_input(x: PerLayerInput, vb: &VarBuilderX, cfg: Config, dim: usize, dtype: DType) -> bool {
        let h = cfg.hidden_size;
        let q = cfg.quantization_config;
        &&& norm_below(x.post_per_layer_input_norm, vb, "post_per_layer_input_norm"@, h)
        &&& x.per_layer_input_gate.linear.is_layer(
            &vb.child("per_layer_input_gate"@), full_size(h, dim, false, dtype), q, cfg.quant)
        &&& x.per_layer_projection.linear.is_layer(
            &vb.child("per_layer_projection"@), full_size(dim, h, false, dtype), q, cfg.quant)
    }

    /// Whether this is the layer in the scope.
    pub open spec fn is_planned(&self, vb: &VarBuilderX, comm: Comm, cfg: Config, st: Gemma4Settings, kind: LayerKind, dtype: DType) -> bool {
        let h = cfg.hidden_size;
        let window = if kind.is_sliding { cfg.sliding_window } else { None };
        &&& self.self_attn.is_planned(
            &Self::part(vb, "self_attn"@), comm, cfg, st.head_size(cfg, kind.is_sliding), window, dtype, Self::k_eq_v(st, kind), false)
        &&& self.mlp.is_planned(&Self::part(vb, "mlp"@), comm, Self::mlp_size(cfg, kind, dtype), cfg.quantization_config, cfg.quant, ""@)
        &&& self.experts is Some <==> Self::has_moe(cfg, st)
        &&& self.experts matches Some(x) ==> Self::are_experts(x, vb, comm, cfg, dtype)
        &&& norm_below(self.input_layernorm, vb, "input_layernorm"@, h)
        &&& norm_below(self.post_attention_layernorm, vb, "post_attention_layernorm"@, h)
        &&& norm_below(self.pre_feedforward_layernorm, vb, "pre_feedforward_layernorm"@, h)
        &&& norm_below(self.post_feedforward_layernorm, vb, "post_feedforward_layernorm"@, h)
        &&& self.per_layer is Some <==> st.per_layer_input is Some
        &&& self.per_layer matches Some(x) ==> Self::adds_input(x, vb, cfg, st.per_layer_input->0, dtype)
        &&& self.layer_scalar.reads(
            if vb.checkpoint.gguf { vb.child("layer_output_scale"@).spec_path("weight"@) } else { vb.spec_path("layer_scalar"@) },
            seq![1usize], Shard::whole(), vb.checkpoint.dtype)
        &&& self.is_sliding == kind.is_sliding
    }

    fn load_experts(vb: &VarBuilderX, comm: &Comm, config: &Config, dtype: DType) -> (r: Result<Gemma4Experts, MoeError>)
        requires
            Gemma4MoE::wf(*config, vb.checkpoint.gguf, *comm, dtype),
        ensures
            match Gemma4MoE::refusal(vb, *config, *comm) {
                Some(e) => r == Err::<Gemma4Experts, MoeError>(e),
                None => r matches Ok(x) && Self::are_experts(x, vb, *comm, *config, dtype),
            },
    {
        let moe = match Gemma4MoE::new(config, vb, comm, dtype) {
            Ok(m) => m,
            Err(e) => return Err(e),
        };
        let (num_experts, _n) = crate::moe::experts::expert_sizes(config);
        let top_k: usize = match &config.moe_cfg {
            Some(m) => m.num_experts_per_tok,
            None => 0,
        };
        let h: usize = config.hidden_size;
        let router_vb = vb.pp("router");
        Ok(
            Gemma4Experts {
                moe,
                router: Gemma4Router::new(h, num_experts, top_k, &router_vb),
                post_feedforward_layernorm_1: load_norm(vb, "post_feedforward_layernorm_1", h),
                post_feedforward_layernorm_2: load_norm(vb, "post_feedforward_layernorm_2", h),
                pre_feedforward_layernorm_2: load_norm(vb, "pre_feedforward_layernorm_2", h),
            },
        )
    }

    fn load_per_layer(vb: &VarBuilderX, config: &Config, dim: usize, dtype: DType) -> (r: Result<PerLayerInput, Fp8Error>)
        requires
            plannable(full_size(config.hidden_size, dim, false, dtype), vb.checkpoint.gguf, config.quantization_config),
            plannable(full_size(dim, config.hidden_size, false, dtype), vb.checkpoint.gguf, config.quantization_config),
        ensures
            ({
                let q = config.quantization_config;
                if fp8_unplannable(&vb.child("per_layer_input_gate"@), q) || fp8_unplannable(&vb.child("per_layer_projection"@), q) {
                    r == Err::<PerLayerInput, Fp8Error>(fp8_refusal(q))
                } else {
                    r matches Ok(x) && Self::adds_input(x, vb, *config, dim, dtype)
                }
            }),
    {
        let h: usize = config.hidden_size;
        let q = &config.quantization_config;
        let gate = match ReplicatedLinear::load_below(vb, "per_layer_input_gate", h, dim, false, q, &config.quant, dtype) {
            Ok(l) => l,
            Err(e) => return Err(e),
        };
        let proj = match ReplicatedLinear::load_below(vb, "per_layer_projection", dim, h, false, q, &config.quant, dtype) {
            Ok(l) => l,
            Err(e) => return Err(e),
        };
        Ok(
            PerLayerInput {
                post_per_layer_input_norm: load_norm(vb, "post_per_layer_input_norm", h),
                per_layer_input_gate: gate,
                per_layer_projection: proj,
            },
        )
    }

    #[verifier::rlimit(40)]
    pub fn new(vb: &VarBuilderX, comm: &Comm, config: &Config, st: &Gemma4Settings, kind: LayerKind, dtype: DType) -> (r: Result<Self, Gemma4Error>)
        requires
            Self::wf(*config, *st, kind, vb.checkpoint.gguf, *comm, dtype),
        ensures
            match Self::refusal(vb, *comm, *config, *st, kind, dtype) {
                Some(e) => r == Err::<Self, Gemma4Error>(e),
                None => r matches Ok(l) && l.is_planned(vb, *comm, *config, *st, kind, dtype),
            },
    {
        let gguf = vb.is_qvar_builder();
        let attn_vb = if gguf { vb.dup() } else { vb.pp("self_attn") };
        let mlp_vb = if gguf { vb.dup() } else { vb.pp("mlp") };
        let window = if kind.is_sliding { config.sliding_window } else { None };
        let hs = st.heads(config, kind.is_sliding);
        let k_eq_v = !kind.is_sliding && st.k_eq_v;
        let self_attn = match Attention::new_with_options(&attn_vb, comm, config, hs, window, dtype, k_eq_v, false) {
            Ok(a) => a,
            Err(e) => return Err(Gemma4Error::Attention(e)),
        };
        let size = MlpSize {
            hidden_size: config.hidden_size,
            intermediate_size: kind.intermediate_size,
            gate_up_merged: false,
            dtype,
        };
        let mlp = match MLP::new(&mlp_vb, comm, size, &config.quantization_config, &config.quant, "") {
            Ok(m) => m,
            Err(e) => return Err(Gemma4Error::Mlp(e)),
        };
        let experts = if st.enable_moe && config.moe_cfg.is_some() {
            match Self::load_experts(vb, comm, config, dtype) {
                Ok(x) => Some(x),
                Err(e) => return Err(Gemma4Error::Moe(e)),
            }
        } else {
            None
        };
        let h: usize = config.hidden_size;
        let per_layer = match st.per_layer_input {
            Some(dim) => match Self::load_per_layer(vb, config, dim, dtype) {
                Ok(x) => Some(x),
                Err(e) => return Err(Gemma4Error::Fp8(e)),
            },
            None => None,
        };
        let layer_scalar = if gguf {
            let scale_vb = vb.pp("layer_output_scale");
            scale_vb.get("weight", dims1(1))
        } else {
            vb.get("layer_scalar", dims1(1))
        };
        Ok(
            Gemma4DecoderLayer {
                self_attn,
                mlp,
                experts,
                input_layernorm: load_norm(vb, "input_layernorm", h),
                post_attention_layernorm: load_norm(vb, "post_attention_layernorm", h),
                pre_feedforward_layernorm: load_norm(vb, "pre_feedforward_layernorm", h),
                post_feedforward_layernorm: load_norm(vb, "post_feedforward_layernorm", h),
                per_layer,
                layer_scalar,
                is_sliding: kind.is_sliding,
            },
        )
    }

    /// Whether a pass uses the rotation and the masks of the sliding window,
    /// and whether it adds an input of its own.
    pub fn forward(&self, per_layer_input: bool) -> (r: (bool, bool))
        ensures
            r.0 == self.is_sliding,
            r.1 == (self.per_layer is Some && per_layer_input),
    {
        (self.is_sliding, self.per_layer.is_some() && per_layer_input)
    }
}

/// Inputs that every layer gets of its own.
pub struct PerLayerEmbeddings {
    pub embed_tokens_per_layer: Embedding,
    pub projection: TensorRead,
    /// Scales of the rows of the projection, where they can be read.
    pub projection_scale: Option<Fetch>,
    pub norm: NormX,
}

/// A model.
pub struct Gemma4ForCausalLM {
    pub embed_tokens: Embedding,
    pub per_layer: Option<PerLayerEmbeddings>,
    pub layers: Vec<Gemma4DecoderLayer>,
    pub norm: NormX,
    pub lm_head: VocabParallelLinear,
    pub vocab_size: usize,
    pub settings: Gemma4Settings,
    pub rope_dtype: DType,
    pub is_qvar_builder: bool,
    pub quantized_at_load: bool,
    pub dtype: DType,
}

/// What comes out of a pass.
#[derive(Debug, Clone, Copy, PartialEq, Eq)]
pub enum Gemma4Head {
    /// Hidden states in single precision.
    Hidden,
    /// Logits. Hidden states are brought into that type before, and the
    /// logits into single precision after, where there is one.
    Logits { cast: Option<DType> },
}

/// One pass of the model.
pub struct Gemma4Pass {
    /// Layers that are run.
    pub layers: usize,
    /// Sides of the masks of layers without a window.
    pub mask_sides: Option<Vec<u32>>,
    /// Rows that are kept for the output, where some are chosen.
    pub last_rows: Option<Vec<u32>>,
    pub head: Gemma4Head,
}

/// The scope that the text model is stored in.
pub open spec fn lm_prefix(gguf: bool) -> Seq<char> {
    if gguf { "model"@ } else { "model.language_model"@ }
}

/// The name of a part of the text model.
pub open spec fn lm_part(gguf: bool, name: Seq<char>) -> Seq<char> {
    path_of(lm_prefix(gguf), name)
}

/// The name of layer `i` of the text model.
pub open spec fn lm_layer(gguf: bool, i: int) -> Seq<char> {
    path_of(lm_part(gguf, "layers"@), decimal_of(i as nat))
}

impl Gemma4ForCausalLM {
    pub open spec fn kind(keys: Gemma4Keys, cfg: Config, i: int) -> LayerKind {
        LayerKind {
            is_sliding: keys.slides(i),
            intermediate_size: Gemma4Settings::of(keys, cfg).layer_width(cfg, i) as usize,
        }
    }

    /// The number of tokens.
    pub open spec fn vocab(cfg: Config, table_rows: usize) -> usize {
        match cfg.vocab_size {
            Some(n) => n,
            None => table_rows,
        }
    }

    /// The scope of the output layer.
    pub open spec fn head_name(cfg: Config, gguf: bool) -> Seq<char> {
        if cfg.tie_word_embeddings != Some(false) {
            lm_part(gguf, "embed_tokens"@)
        } else if gguf {
            "model.output"@
        } else {
            "lm_head"@
        }
    }

    /// Whether a model can be planned.
    pub open spec fn wf(keys: Gemma4Keys, cfg: Config, table_rows: usize, gguf: bool, comm: Comm, dtype: DType) -> bool {
        let st = Gemma4Settings::of(keys, cfg);
        &&& comm.wf()
        &&& !gguf ==> cfg.vocab_size is Some
        &&& cfg.intermediate_size * 2 <= usize::MAX
        &&& st.per_layer_input matches Some(dim) ==> dim * cfg.num_hidden_layers <= usize::MAX
        &&& Self::vocab(cfg, table_rows) + comm.world_size + (2 * VOCAB_PADDING_SIZE - 2) <= usize::MAX
        &&& forall|i: int| 0 <= i < cfg.num_hidden_layers
            ==> Gemma4DecoderLayer::wf(cfg, st, #[trigger] Self::kind(keys, cfg, i), gguf, comm, dtype)
    }

    /// Whether a model can be planned.
    pub fn can_plan(keys: &Gemma4Keys, cfg: &Config, table_rows: usize, gguf: bool, comm: &Comm, dtype: DType) -> (r: bool)
        ensures
            r == Self::wf(*keys, *cfg, table_rows, gguf, *comm, dtype),
    {
        let st = Gemma4Settings::from_keys(keys, cfg);
        if comm.rank() >= comm.world_size() || (!gguf && cfg.vocab_size.is_none()) || cfg.intermediate_size > usize::MAX / 2 {
            return false;
        }
        match st.per_layer_input {
            Some(dim) => if dim.checked_mul(cfg.num_hidden_layers).is_none() {
                return false;
            },
            None => {},
        }
        let vocab: usize = Embedding::vocab_size(cfg.vocab_size, table_rows);
        match vocab.checked_add(comm.world_size()) {
            Some(n) => if n > usize::MAX - (2 * VOCAB_PADDING_SIZE - 2) {
                return false;
            },
            None => return false,
        }
        let mut i: usize = 0;
        while i < cfg.num_hidden_layers
            invariant
                i <= cfg.num_hidden_layers,
                st == Gemma4Settings::of(*keys, *cfg),
                cfg.intermediate_size * 2 <= usize::MAX,
                forall|j: int| 0 <= j < i
                    ==> Gemma4DecoderLayer::wf(*cfg, st, #[trigger] Self::kind(*keys, *cfg, j), gguf, *comm, dtype),
            decreases cfg.num_hidden_layers - i,
        {
            let kind = LayerKind { is_sliding: keys.is_sliding(i), intermediate_size: st.intermediate_size(cfg, i) };
            assert(kind == Self::kind(*keys, *cfg, i as int));
            if !Gemma4DecoderLayer::can_plan(cfg, &st, kind, gguf, comm, dtype) {
                return false;
            }
            i = i + 1;
        }
        true
    }

    /// Why layer `i` or a later one cannot be planned, if so.
    pub open spec fn first_refusal(vb: &VarBuilderX, comm: Comm, keys: Gemma4Keys, cfg: Config, dtype: DType, i: int) -> Option<Gemma4Error>
        decreases cfg.num_hidden_layers - i,
    {
        if i < 0 || i >= cfg.num_hidden_layers {
            None
        } else {
            match Gemma4DecoderLayer::refusal(
                &vb.child(lm_layer(vb.checkpoint.gguf, i)), comm, cfg, Gemma4Settings::of(keys, cfg), Self::kind(keys, cfg, i), dtype) {
                Some(e) => Some(e),
                None => Self::first_refusal(vb, comm, keys, cfg, dtype, i + 1),
            }
        }
    }

    /// Whether `x` gives every layer an input of `dim` elements.
    pub open spec fn are_inputs(x: PerLayerEmbeddings, vb: &VarBuilderX, cfg: Config, dim: usize, dtype: DType) -> bool {
        let gguf = vb.checkpoint.gguf;
        let total = (dim * cfg.num_hidden_layers) as usize;
        let proj = vb.child(lm_part(gguf, "per_layer_model_projection"@));
        let ck = vb.checkpoint.dtype;
        &&& x.embed_tokens_per_layer.is_table(&vb.child(lm_part(gguf, "embed_tokens_per_layer"@)), cfg.vocab_size, total, dtype)
        &&& x.projection.reads(proj.spec_path("weight"@), seq![total, cfg.hidden_size], Shard::whole(), ck)
        &&& x.projection_scale is None <==> gguf
        &&& x.projection_scale matches Some(f) ==> {
            &&& f.tries@.len() == 2
            &&& f.tries@[0].reads(proj.spec_path("weight_scale"@), seq![total, 1usize], Shard::whole(), ck)
            &&& f.tries@[1].reads(proj.spec_path("weight_scale_inv"@), seq![total, 1usize], Shard::whole(), ck)
        }
        &&& norm_below(x.norm, vb, lm_part(gguf, "per_layer_projection_norm"@), dim)
    }

    /// Whether this is the model in the scope.
    pub open spec fn is_planned(&self, vb: &VarBuilderX, comm: Comm, keys: Gemma4Keys, cfg: Config, table_rows: usize, dtype: DType) -> bool {
        let gguf = vb.checkpoint.gguf;
        let st = Gemma4Settings::of(keys, cfg);
        let vocab = Self::vocab(cfg, table_rows);
        &&& self.embed_tokens.is_table(&vb.child(lm_part(gguf, "embed_tokens"@)), cfg.vocab_size, cfg.hidden_size, dtype)
        &&& self.per_layer is Some <==> st.per_layer_input is Some
        &&& self.per_layer matches Some(x) ==> Self::are_inputs(x, vb, cfg, st.per_layer_input->0, dtype)
        &&& self.layers@.len() == cfg.num_hidden_layers
        &&& forall|i: int| 0 <= i < self.layers@.len() ==> (#[trigger] self.layers@[i]).is_planned(
            &vb.child(lm_layer(gguf, i)), comm, cfg, st, Self::kind(keys, cfg, i), dtype)
        &&& norm_below(self.norm, vb, lm_part(gguf, "norm"@), cfg.hidden_size)
        &&& VocabParallelLinear::planned(
            Ok(self.lm_head), &vb.child(Self::head_name(cfg, gguf)), cfg.hidden_size, vocab, comm, None, None, dtype)
        &&& self.vocab_size == vocab
        &&& self.settings == st
        &&& self.rope_dtype == if gguf || cfg.higher_precision_required { DType::F32 } else { dtype }
        &&& self.is_qvar_builder == gguf
        &&& self.quantized_at_load == (cfg.quant is Some)
        &&& self.dtype == dtype
    }

    fn load_inputs(vb: &VarBuilderX, config: &Config, dim: usize, dtype: DType) -> (r: PerLayerEmbeddings)
        requires
            dim * config.num_hidden_layers <= usize::MAX,
            !vb.checkpoint.gguf ==> config.vocab_size is Some,
        ensures
            Self::are_inputs(r, vb, *config, dim, dtype),
    {
        let gguf = vb.is_qvar_builder();
        let prefix = if gguf { "model" } else { "model.language_model" };
        let total: usize = dim * config.num_hidden_layers;
        let embed_vb = vb.pp(join(prefix, "embed_tokens_per_layer").as_str());
        let proj_vb = vb.pp(join(prefix, "per_layer_model_projection").as_str());
        let projection_scale = if gguf {
            None
        } else {
            Some(Fetch::two(proj_vb.get("weight_scale", dims2(total, 1)), proj_vb.get("weight_scale_inv", dims2(total, 1))))
        };
        PerLayerEmbeddings {
            embed_tokens_per_layer: embedding(config.vocab_size, total, &embed_vb, dtype),
            projection: proj_vb.get("weight", dims2(total, config.hidden_size)),
            projection_scale,
            norm: load_norm(vb, join(prefix, "per_layer_projection_norm").as_str(), dim),
        }
    }

    /// Plans a model whose file has these keys. `table_rows` is the number of
    /// rows of the embeddings of a block-quantized file, which counts where
    /// the configuration gives no vocabulary.
    pub fn from_keys(
        vb: &VarBuilderX,
        comm: &Comm,
        config: &Config,
        keys: &Gemma4Keys,
        table_rows: usize,
        dtype: DType,
    ) -> (r: Result<Self, Gemma4Error>)
        requires
            Self::wf(*keys, *config, table_rows, vb.checkpoint.gguf, *comm, dtype),
        ensures
            match Self::first_refusal(vb, *comm, *keys, *config, dtype, 0) {
                Some(e) => r == Err::<Self, Gemma4Error>(e),
                None => r matches Ok(m) && m.is_planned(vb, *comm, *keys, *config, table_rows, dtype),
            },
    {
        let gguf = vb.is_qvar_builder();
        let settings = Gemma4Settings::from_keys(keys, config);
        let prefix = if gguf { "model" } else { "model.language_model" };
        let embed_vb = vb.pp(join(prefix, "embed_tokens").as_str());
        let embed_tokens = embedding(config.vocab_size, config.hidden_size, &embed_vb, dtype);
        let vocab_size: usize = Embedding::vocab_size(config.vocab_size, table_rows);
        let per_layer = match settings.per_layer_input {
            Some(dim) => Some(Self::load_inputs(vb, config, dim, dtype)),
            None => None,
        };
        let layers_name = join(prefix, "layers");
        let mut layers: Vec<Gemma4DecoderLayer> = Vec::new();
        let mut i: usize = 0;
        while i < config.num_hidden_layers
            invariant
                i <= config.num_hidden_layers,
                gguf == vb.checkpoint.gguf,
                settings == Gemma4Settings::of(*keys, *config),
                layers_name@ == lm_part(gguf, "layers"@),
                Self::wf(*keys, *config, table_rows, vb.checkpoint.gguf, *comm, dtype),
                layers@.len() == i,
                Self::first_refusal(vb, *comm, *keys, *config, dtype, 0)
                    == Self::first_refusal(vb, *comm, *keys, *config, dtype, i as int),
                forall|j: int| 0 <= j < i ==> (#[trigger] layers@[j]).is_planned(
                    &vb.child(lm_layer(gguf, j)), *comm, *config, settings, Self::kind(*keys, *config, j), dtype),
            decreases config.num_hidden_layers - i,
        {
            let kind = LayerKind {
                is_sliding: keys.is_sliding(i),
                intermediate_size: settings.intermediate_size(config, i),
            };
            assert(kind == Self::kind(*keys, *config, i as int));
            let name = join(layers_name.as_str(), decimal(i).as_str());
            let scope = vb.pp(name.as_str());
            match Gemma4DecoderLayer::new(&scope, comm, config, &settings, kind, dtype) {
                Ok(l) => {
                    proof {
                        lemma_layer_scope(l, &scope, &vb.child(lm_layer(gguf, i as int)), *comm, *config, settings, kind, dtype);
                    }
                    layers.push(l);
                },
                Err(e) => return Err(e),
            }
            i = i + 1;
        }
        let tied = match config.tie_word_embeddings {
            Some(t) => t,
            None => true,
        };
        let head_vb = if tied {
            vb.pp(join(prefix, "embed_tokens").as_str())
        } else if gguf {
            vb.pp("model.output")
        } else {
            vb.pp("lm_head")
        };
        let lm_head = match VocabParallelLinear::load_no_bias(config.hidden_size, vocab_size, &head_vb, comm, &None, &None, dtype) {
            Ok(l) => l,
            Err(e) => return Err(Gemma4Error::Fp8(e)),
        };
        Ok(
            Gemma4ForCausalLM {
                embed_tokens,
                per_layer,
                layers,
                norm: load_norm(vb, join(prefix, "norm").as_str(), config.hidden_size),
                lm_head,
                vocab_size,
                settings,
                rope_dtype: if gguf || config.higher_precision_required { DType::F32 } else { dtype },
                is_qvar_builder: gguf,
                quantized_at_load: config.quant.is_some(),
                dtype,
            },
        )
    }

    /// Whether `r` is the plan of a model whose file has these keys, `None`
    /// where it cannot be planned.
    pub open spec fn planned(
        r: Option<Result<Self, Gemma4Error>>,
        vb: &VarBuilderX,
        comm: Comm,
        keys: Gemma4Keys,
        cfg: Config,
        table_rows: usize,
        dtype: DType,
    ) -> bool {
        &&& r is Some <==> Self::wf(keys, cfg, table_rows, vb.checkpoint.gguf, comm, dtype)
        &&& r matches Some(x) ==> match Self::first_refusal(vb, comm, keys, cfg, dtype, 0) {
            Some(e) => x == Err::<Self, Gemma4Error>(e),
            None => x matches Ok(m) && m.is_planned(vb, comm, keys, cfg, table_rows, dtype),
        }
    }

    /// Plans the model of a configuration with its file; `None` where the
    /// file asks for sizes or formats that cannot be planned.
    pub fn new(vb: &VarBuilderX, comm: &Comm, config: &Config, table_rows: usize, dtype: DType) -> (r: Option<Result<Self, Gemma4Error>>)
        ensures
            exists|keys: Gemma4Keys| #[trigger] keys.are_of(config.extra_config_json)
                && Self::planned(r, vb, *comm, keys, *config, table_rows, dtype),
    {
        let keys = Gemma4Keys::read(&config.extra_config_json);
        let r = if Self::can_plan(&keys, config, table_rows, vb.is_qvar_builder(), comm, dtype) {
            Some(Self::from_keys(vb, comm, config, &keys, table_rows, dtype))
        } else {
            None
        };
        assert(keys.are_of(config.extra_config_json) && Self::planned(r, vb, *comm, keys, *config, table_rows, dtype));
        r
    }

    /// The shape of the inputs that every layer gets of its own, for
    /// `seq_len` tokens.
    pub fn get_per_layer_embeddings(&self, seq_len: usize) -> (r: Option<(usize, usize, usize)>)
        ensures
            r == match (self.per_layer, self.settings.per_layer_input) {
                (Some(_), Some(dim)) => Some((seq_len, self.layers@.len() as usize, dim)),
                _ => None,
            },
    {
        match (&self.per_layer, self.settings.per_layer_input) {
            (Some(_), Some(dim)) => Some((seq_len, self.layers.len(), dim)),
            _ => None,
        }
    }

    /// One pass over packed sequences with these ends, with caches for so
    /// many layers.
    pub fn forward_inner(&self, caches: Option<usize>, is_prefill: bool, ends: &Vec<u32>, return_hidden: bool) -> (r: Gemma4Pass)
        requires
            are_ends(ends@),
            forall|i: int| 0 <= i < ends@.len() ==> #[trigger] ends@[i] > 0,
        ensures
            r.layers == (match caches {
                Some(n) => if n < self.layers@.len() { n as int } else { self.layers@.len() as int },
                None => 0,
            }),
            r.mask_sides is Some <==> is_prefill && ends@.len() > 0,
            r.mask_sides matches Some(v) ==> v@.len() == ends@.len() && forall|i: int| 0 <= i < v@.len()
                ==> #[trigger] v@[i] == if ends@[i] - start_of(ends@, i) > 1 { ends@[i] - start_of(ends@, i) } else { 1 },
            r.last_rows is Some <==> ends@.len() > 0 && !return_hidden,
            r.last_rows matches Some(v) ==> v@.len() == ends@.len() && forall|i: int| 0 <= i < v@.len()
                ==> #[trigger] v@[i] == ends@[i] - 1,
            r.head == (if return_hidden {
                Gemma4Head::Hidden
            } else if self.is_qvar_builder {
                Gemma4Head::Logits { cast: None }
            } else {
                Gemma4Head::Logits { cast: Some(self.dtype) }
            }),
    {
        let layers: usize = match caches {
            Some(n) => if n < self.layers.len() { n } else { self.layers.len() },
            None => 0,
        };
        let rows = if ends.len() > 0 && !return_hidden { Some(last_rows(ends)) } else { None };
        let head = if return_hidden {
            Gemma4Head::Hidden
        } else if self.is_qvar_builder {
            Gemma4Head::Logits { cast: None }
        } else {
            Gemma4Head::Logits { cast: Some(self.dtype) }
        };
        Gemma4Pass { layers, mask_sides: causal_mask_sides(is_prefill, ends), last_rows: rows, head }
    }

    pub fn get_vocab_size(&self) -> (r: usize)
        ensures
            r == self.vocab_size,
    {
        self.vocab_size
    }

    /// Whether embeddings of type `t` are converted to single precision.
    pub fn embed_forward(&self, t: DType) -> (r: bool)
        ensures
            r == ((self.is_qvar_builder || self.quantized_at_load) && t != DType::F32),
    {
        (self.is_qvar_builder || self.quantized_at_load) && t != DType::F32
    }
}

proof fn lemma_layer_scope(
    l: Gemma4DecoderLayer,
    a: &VarBuilderX,
    b: &VarBuilderX,
    comm: Comm,
    cfg: Config,
    st: Gemma4Settings,
    kind: LayerKind,
    dtype: DType,
)
    requires
        a.checkpoint == b.checkpoint,
        a.prefix@ == b.prefix@,
        l.is_planned(a, comm, cfg, st, kind, dtype),
    ensures
        l.is_planned(b, comm, cfg, st, kind, dtype),
{
}

/// Rows that a rank's query projection is cut from, where they can be read off
/// its plan.
pub open spec fn planned_q_shape(a: Attention) -> Option<Seq<usize>> {
    match a.qkv_proj {
        crate::attention::QkvProjection::Packed { packed, .. } => Some(packed.q.weight.shape@),
        crate::attention::QkvProjection::Separate(s) => match s.q_proj.linear {
            crate::linear::LinearX::QLinear(q) => Some(q.weight.shape@),
            crate::linear::LinearX::Linear(q) => Some(q.weight.shape@),
            _ => None,
        },
    }
}

/// The heads of a layer with a window are as wide as the file says under
/// `swa_head_dim`, else under the `head_dim` of its text part, else 256; those
/// of the other layers as it says under `global_head_dim`, else as the
/// configuration says. Query projections have all heads of that width, and key
/// projections as many as the layer has of keys: those of the configuration, or
/// of a number of their own in layers that see everything. Only layers with a
/// window have one.
pub proof fn law_layers_have_heads_of_their_own(
    vb: VarBuilderX,
    comm: Comm,
    cfg: Config,
    table_rows: usize,
    dtype: DType,
    r: Option<Result<Gemma4ForCausalLM, Gemma4Error>>,
    i: int,
)
    requires
        call_ensures(Gemma4ForCausalLM::new, (&vb, &comm, &cfg, table_rows, dtype), r),
        r matches Some(Ok(_)),
        0 <= i < cfg.num_hidden_layers,
    ensures
        ({
            let m = r->0->Ok_0;
            let l = m.layers@[i];
            let a = l.self_attn;
            let text = cfg.extra_config_json;
            let swa = if kind_at(text, "/swa_head_dim"@) is Some {
                kind_at(text, "/swa_head_dim"@)
            } else {
                kind_at(text, "/text_config/head_dim"@)
            };
            let global = if kind_at(text, "/global_head_dim"@) is Some {
                kind_at(text, "/global_head_dim"@)
            } else {
                kind_at(text, "/text_config/global_head_dim"@)
            };
            let kv = if kind_at(text, "/num_global_key_value_heads"@) is Some {
                kind_at(text, "/num_global_key_value_heads"@)
            } else {
                kind_at(text, "/text_config/num_global_key_value_heads"@)
            };
            &&& m.layers@.len() == cfg.num_hidden_layers
            &&& l.is_sliding ==> {
                &&& swa matches Some(JsonKind::Number(Some(n))) ==> (n <= usize::MAX ==> a.shape.head_dim == n)
                &&& !(swa matches Some(JsonKind::Number(Some(_)))) ==> a.shape.head_dim == 256
                &&& a.shape.kv_out_dim == cfg.num_key_value_heads * a.shape.head_dim
                &&& a.sliding_window == cfg.sliding_window
            }
            &&& !l.is_sliding ==> {
                &&& global matches Some(JsonKind::Number(Some(n))) ==> (n <= usize::MAX ==> a.shape.head_dim == n)
                &&& !(global matches Some(JsonKind::Number(Some(_)))) ==> (cfg.head_dim matches Some(d) ==> a.shape.head_dim == d)
                    && (cfg.head_dim is None ==> a.shape.head_dim == 256)
                &&& kv matches Some(JsonKind::Number(Some(n))) ==> (n <= usize::MAX ==> a.shape.kv_out_dim == n * a.shape.head_dim)
                &&& !(kv matches Some(JsonKind::Number(Some(_)))) ==> a.shape.kv_out_dim == cfg.num_key_value_heads * a.shape.head_dim
                &&& a.sliding_window is None
            }
            &&& a.shape.width == cfg.num_attention_heads * a.shape.head_dim
            &&& cfg.attn_output_gate == Some(false) ==> (planned_q_shape(a) matches Some(s)
                ==> s == seq![a.shape.width, cfg.hidden_size])
        }),
{
    let keys = choose|keys: Gemma4Keys| #[trigger] keys.are_of(cfg.extra_config_json)
        && Gemma4ForCausalLM::planned(r, &vb, comm, keys, cfg, table_rows, dtype);
    let m = r->0->Ok_0;
    let l = m.layers@[i];
    let kind = Gemma4ForCausalLM::kind(keys, cfg, i);
    assert(l.is_planned(
        &vb.child(lm_layer(vb.checkpoint.gguf, i)), comm, cfg, m.settings, kind, dtype));
    assert(Gemma4DecoderLayer::wf(cfg, m.settings, kind, vb.checkpoint.gguf, comm, dtype));
    let hs = m.settings.head_size(cfg, l.is_sliding);
    let d = hs.head_dim->0 as int;
    assert(0 <= cfg.num_attention_heads * d && 0 <= hs.num_kv_heads * d) by (nonlinear_arith)
        requires
            0 <= d,
    ;
}

/// Layer `i` has a window where its type is `sliding_attention` or cannot be
/// read; without a list of types all layers have one but each sixth. The list
/// of the text part counts only where the file has none of its own.
pub proof fn law_layer_types_say_which_layers_slide(text: Option<String>, keys: Gemma4Keys, i: usize, r: bool)
    requires
        i < usize::MAX,
        call_ensures(Gemma4Keys::read, (&text,), keys),
        call_ensures(Gemma4Keys::is_sliding, (&keys, i), r),
    ensures
        ({
            let own = kind_at(text, "/layer_types"@);
            let at = if own is Some { "/layer_types"@ } else { "/text_config/layer_types"@ };
            match kind_at(text, at) {
                Some(JsonKind::Array(n)) => {
                    let named = crate::json::text_at(text, at + seq!['/'] + decimal_of(i as nat));
                    &&& i >= n ==> r
                    &&& i < n && named is None ==> r
                    &&& i < n && named is Some ==> (r <==> named->0 == "sliding_attention"@)
                },
                _ => r <==> (i + 1) % 6 != 0,
            }
        }),
{
}

/// The values of layers that see everything are their keys where the file says
/// so; layers with a window always have values of their own.
pub proof fn law_keys_serve_as_values_in_global_layers(
    vb: VarBuilderX,
    comm: Comm,
    cfg: Config,
    table_rows: usize,
    dtype: DType,
    r: Option<Result<Gemma4ForCausalLM, Gemma4Error>>,
    i: int,
)
    requires
        call_ensures(Gemma4ForCausalLM::new, (&vb, &comm, &cfg, table_rows, dtype), r),
        r matches Some(Ok(_)),
        0 <= i < cfg.num_hidden_layers,
        r->0->Ok_0.layers@[i].self_attn.qkv_proj is Packed,
    ensures
        ({
            let l = r->0->Ok_0.layers@[i];
            let packed = l.self_attn.qkv_proj->packed;
            let text = cfg.extra_config_json;
            let flag = if kind_at(text, "/attention_k_eq_v"@) is Some {
                kind_at(text, "/attention_k_eq_v"@)
            } else {
                kind_at(text, "/text_config/attention_k_eq_v"@)
            };
            let layer = vb.child(lm_layer(vb.checkpoint.gguf, i));
            let attn = if vb.checkpoint.gguf { layer } else { layer.child("self_attn"@) };
            &&& packed.k.weight.path@ == attn.child("k_proj"@).spec_path("weight"@)
            &&& !l.is_sliding && flag == Some(JsonKind::Bool(true)) ==> packed.v.weight.path@ == packed.k.weight.path@
            &&& l.is_sliding || flag != Some(JsonKind::Bool(true))
                ==> packed.v.weight.path@ == attn.child("v_proj"@).spec_path("weight"@)
        }),
{
    let keys = choose|keys: Gemma4Keys| #[trigger] keys.are_of(cfg.extra_config_json)
        && Gemma4ForCausalLM::planned(r, &vb, comm, keys, cfg, table_rows, dtype);
    let m = r->0->Ok_0;
    let l = m.layers@[i];
    let kind = Gemma4ForCausalLM::kind(keys, cfg, i);
    let scope = vb.child(lm_layer(vb.checkpoint.gguf, i));
    assert(l.is_planned(&scope, comm, cfg, m.settings, kind, dtype));
}

/// Feed-forward layers are twice as wide in the last layers that share keys and
/// values, where the file asks for that, and as the configuration says
/// everywhere else.
pub proof fn law_shared_layers_may_be_twice_as_wide(st: Gemma4Settings, cfg: Config, i: usize, r: usize)
    requires
        cfg.intermediate_size * 2 <= usize::MAX,
        call_ensures(Gemma4Settings::intermediate_size, (&st, &cfg, i), r),
    ensures
        st.double_wide_mlp && st.kv_shared_layers > 0 && i + st.kv_shared_layers >= cfg.num_hidden_layers
            ==> r == cfg.intermediate_size + cfg.intermediate_size,
        !st.double_wide_mlp || i + st.kv_shared_layers < cfg.num_hidden_layers || st.kv_shared_layers == 0
            ==> r == cfg.intermediate_size,
{
}

/// What the file leaves out: no inputs of a layer's own, no shared layers, no
/// double width, values of their own, and experts exactly where the
/// configuration has them.
pub proof fn law_settings_and_their_defaults(keys: Gemma4Keys, cfg: Config, st: Gemma4Settings)
    requires
        call_ensures(Gemma4Settings::from_keys, (&keys, &cfg), st),
    ensures
        keys.attention_k_eq_v matches Some(JsonKind::Bool(b)) ==> st.k_eq_v == b,
        !(keys.attention_k_eq_v matches Some(JsonKind::Bool(_))) ==> !st.k_eq_v,
        keys.enable_moe_block matches Some(JsonKind::Bool(b)) ==> st.enable_moe == b,
        !(keys.enable_moe_block matches Some(JsonKind::Bool(_))) ==> (st.enable_moe <==> cfg.moe_cfg is Some),
        keys.use_double_wide_mlp matches Some(JsonKind::Bool(b)) ==> st.double_wide_mlp == b,
        !(keys.use_double_wide_mlp matches Some(JsonKind::Bool(_))) ==> !st.double_wide_mlp,
        keys.num_kv_shared_layers matches Some(JsonKind::Number(Some(n))) ==> (n <= usize::MAX ==> st.kv_shared_layers == n),
        !(keys.num_kv_shared_layers matches Some(JsonKind::Number(Some(_)))) ==> st.kv_shared_layers == 0,
        keys.hidden_size_per_layer_input matches Some(JsonKind::Number(Some(n))) ==> (0 < n <= usize::MAX ==> (st.per_layer_input matches Some(d) && d == n)),
        keys.hidden_size_per_layer_input == Some(JsonKind::Number(Some(0))) ==> st.per_layer_input is None,
        !(keys.hidden_size_per_layer_input matches Some(JsonKind::Number(Some(_)))) ==> st.per_layer_input is None,
        keys.num_global_key_value_heads matches Some(JsonKind::Number(Some(n))) ==> (n <= usize::MAX ==> (st.global_kv_heads matches Some(h) && h == n)),
{
}

/// The keys of the family stand at the root of the file, or in its text part.
pub proof fn law_keys_stand_at_the_root_or_in_the_text_part(text: Option<String>, keys: Gemma4Keys)
    requires
        call_ensures(Gemma4Keys::read, (&text,), keys),
    ensures
        keys.attention_k_eq_v == (if kind_at(text, "/attention_k_eq_v"@) is Some {
            kind_at(text, "/attention_k_eq_v"@)
        } else {
            kind_at(text, "/text_config/attention_k_eq_v"@)
        }),
        keys.enable_moe_block == (if kind_at(text, "/enable_moe_block"@) is Some {
            kind_at(text, "/enable_moe_block"@)
        } else {
            kind_at(text, "/text_config/enable_moe_block"@)
        }),
        keys.hidden_size_per_layer_input == (if kind_at(text, "/hidden_size_per_layer_input"@) is Some {
            kind_at(text, "/hidden_size_per_layer_input"@)
        } else {
            kind_at(text, "/text_config/hidden_size_per_layer_input"@)
        }),
        keys.num_kv_shared_layers == (if kind_at(text, "/num_kv_shared_layers"@) is Some {
            kind_at(text, "/num_kv_shared_layers"@)
        } else {
            kind_at(text, "/text_config/num_kv_shared_layers"@)
        }),
        keys.use_double_wide_mlp == (if kind_at(text, "/use_double_wide_mlp"@) is Some {
            kind_at(text, "/use_double_wide_mlp"@)
        } else {
            kind_at(text, "/text_config/use_double_wide_mlp"@)
        }),
        text is None ==> keys.layer_types is None && keys.swa_head_dim is None && keys.global_head_dim is None,
{
}

/// What a planned model is made of: a layer for each of the configuration, with
/// experts where both the file and the configuration have them and inputs of
/// its own where the file asks for them; an output layer tied to the embeddings
/// unless the configuration says not; single precision rotations for
/// block-quantized files and where higher precision is asked for.
pub proof fn law_planned_model_has_what_it_is_asked_for(
    vb: VarBuilderX,
    comm: Comm,
    cfg: Config,
    table_rows: usize,
    dtype: DType,
    r: Option<Result<Gemma4ForCausalLM, Gemma4Error>>,
    i: int,
)
    requires
        call_ensures(Gemma4ForCausalLM::new, (&vb, &comm, &cfg, table_rows, dtype), r),
        r matches Some(Ok(_)),
        0 <= i < cfg.num_hidden_layers,
    ensures
        ({
            let m = r->0->Ok_0;
            let l = m.layers@[i];
            &&& m.layers@.len() == cfg.num_hidden_layers
            &&& l.experts is Some <==> m.settings.enable_moe && cfg.moe_cfg is Some
            &&& l.experts matches Some(x) ==> {
                &&& x.router.top_k == cfg.moe_cfg->0.num_experts_per_tok
                &&& x.router.proj.shape@ == seq![cfg.moe_cfg->0.num_experts->0, cfg.hidden_size]
                &&& x.router.scale.shape@ == seq![cfg.hidden_size]
                &&& x.router.per_expert_scale.shape@ == seq![cfg.moe_cfg->0.num_experts->0]
                &&& x.moe is FusedMoeGGUF <==> vb.checkpoint.gguf
                &&& !vb.checkpoint.gguf && cfg.quantization_config is None ==> (x.moe is FusedMoe <==> cfg.quant is None)
                    && (x.moe is FusedMoeISQ <==> cfg.quant is Some)
                &&& !vb.checkpoint.gguf && cfg.quantization_config is Some ==> {
                    &&& x.moe is FusedMoeMxfp4 <==> cfg.quantization_config->0.quant_method@ == "mxfp4"@
                    &&& x.moe is FusedMoeNvfp4 <==> cfg.quantization_config->0.quant_method@ != "mxfp4"@
                }
            }
            &&& l.per_layer is Some <==> m.settings.per_layer_input is Some
            &&& m.per_layer is Some <==> m.settings.per_layer_input is Some
            &&& cfg.vocab_size matches Some(n) ==> m.vocab_size == n
            &&& cfg.vocab_size is None ==> m.vocab_size == table_rows
            &&& vb.checkpoint.gguf || cfg.higher_precision_required ==> m.rope_dtype == DType::F32
            &&& !vb.checkpoint.gguf && !cfg.higher_precision_required ==> m.rope_dtype == dtype
            &&& m.is_qvar_builder == vb.checkpoint.gguf && m.quantized_at_load == (cfg.quant is Some) && m.dtype == dtype
        }),
{
    let keys = choose|keys: Gemma4Keys| #[trigger] keys.are_of(cfg.extra_config_json)
        && Gemma4ForCausalLM::planned(r, &vb, comm, keys, cfg, table_rows, dtype);
    let m = r->0->Ok_0;
    let l = m.layers@[i];
    let kind = Gemma4ForCausalLM::kind(keys, cfg, i);
    let scope = vb.child(lm_layer(vb.checkpoint.gguf, i));
    assert(l.is_planned(&scope, comm, cfg, m.settings, kind, dtype));
    assert(Gemma4DecoderLayer::wf(cfg, m.settings, kind, vb.checkpoint.gguf, comm, dtype));
}

/// A pass runs a layer for each cache, never more than there are, and none
/// without caches. Logits come from the last row of each sequence, hidden
/// states from all rows; a prefill has masks.
pub proof fn law_pass_runs_the_cached_layers(
    m: Gemma4ForCausalLM,
    caches: Option<usize>,
    is_prefill: bool,
    ends: Vec<u32>,
    return_hidden: bool,
    r: Gemma4Pass,
    i: int,
)
    requires
        are_ends(ends@),
        forall|j: int| 0 <= j < ends@.len() ==> #[trigger] ends@[j] > 0,
        call_ensures(Gemma4ForCausalLM::forward_inner, (&m, caches, is_prefill, &ends, return_hidden), r),
        0 <= i < ends@.len(),
    ensures
        caches is None ==> r.layers == 0,
        caches matches Some(n) ==> r.layers <= n && r.layers <= m.layers@.len() && (r.layers == n || r.layers == m.layers@.len()),
        r.head is Hidden <==> return_hidden,
        r.last_rows is None <==> return_hidden,
        r.last_rows matches Some(v) ==> v@.len() == ends@.len() && v@[i] + 1 == ends@[i],
        r.mask_sides is Some <==> is_prefill,
        r.mask_sides matches Some(v) ==> v@.len() == ends@.len() && v@[i] >= 1
            && (i == 0 ==> v@[i] == ends@[i]) && (i > 0 && ends@[i] > ends@[i - 1] ==> v@[i] + ends@[i - 1] == ends@[i]),
        r.head matches Gemma4Head::Logits { cast } ==> (m.is_qvar_builder ==> cast is None)
            && (!m.is_qvar_builder ==> cast == Some(m.dtype)),
{
}

/// Inputs of the layers have a row for each token and each layer; a layer adds
/// its own where it has a gate for one and gets one. Embeddings are converted
/// where weights are quantized and not in single precision already. The
/// layer's own router chooses for plain and NVFP4 experts; the others choose
/// themselves.
pub proof fn law_layers_add_their_own_inputs(
    m: Gemma4ForCausalLM,
    seq_len: usize,
    shape: Option<(usize, usize, usize)>,
    l: Gemma4DecoderLayer,
    given: bool,
    pass: (bool, bool),
    t: DType,
    converts: bool,
    x: Gemma4MoE,
    routed: bool,
)
    requires
        call_ensures(Gemma4ForCausalLM::get_per_layer_embeddings, (&m, seq_len), shape),
        call_ensures(Gemma4DecoderLayer::forward, (&l, given), pass),
        call_ensures(Gemma4ForCausalLM::embed_forward, (&m, t), converts),
        call_ensures(Gemma4MoE::forward_with_routing, (&x,), routed),
    ensures
        shape is Some <==> m.per_layer is Some && m.settings.per_layer_input is Some,
        shape matches Some(s) ==> s.0 == seq_len && s.1 == m.layers@.len() && s.2 == m.settings.per_layer_input->0,
        pass.0 <==> l.is_sliding,
        pass.1 <==> l.per_layer is Some && given,
        t == DType::F32 ==> !converts,
        t != DType::F32 ==> (converts <==> m.is_qvar_builder || m.quantized_at_load),
        routed <==> x is FusedMoe || x is FusedMoeNvfp4,
{
    assert(m.layers.len() == m.layers@.len());
}

/// The router of a layer chooses as many experts as it is made for, no expert
/// twice, best first, and none that is left out is better.
pub proof fn law_router_chooses_the_best(r: Gemma4Router, keys: Vec<i64>, chosen: Result<Vec<u32>, RouteError>, i: int, j: int, e: int)
    requires
        call_ensures(Gemma4Router::forward, (&r, &keys), chosen),
        0 < keys@.len() <= u32::MAX,
    ensures
        chosen is Ok <==> r.top_k <= keys@.len(),
        chosen matches Ok(c) ==> {
            &&& c@.len() == r.top_k
            &&& 0 <= i < j < c@.len() ==> c@[i] != c@[j] && keys@[c@[i] as int] >= keys@[c@[j] as int]
            &&& 0 <= i < c@.len() ==> c@[i] < keys@.len()
            &&& 0 <= i < c@.len() && 0 <= e < keys@.len() && (forall|k: int| 0 <= k < c@.len() ==> #[trigger] c@[k] != e)
                ==> keys@[c@[i] as int] >= keys@[e]
        },
{
    if chosen is Ok && 0 <= i < chosen->Ok_0@.len() && 0 <= e < keys@.len() {
        let c = chosen->Ok_0@;
        if forall|k: int| 0 <= k < c.len() ==> #[trigger] c[k] != e {
            assert(!c.contains(e as u32));
        }
    }
}

/// Sliding layers have the heads of the configuration, in a width of their own;
/// the others have a width and, where it is given, a number of their own.
pub proof fn law_heads_of_sliding_and_global_layers(st: Gemma4Settings, cfg: Config, near: HeadSize, far: HeadSize)
    requires
        call_ensures(Gemma4Settings::heads, (&st, &cfg, true), near),
        call_ensures(Gemma4Settings::heads, (&st, &cfg, false), far),
    ensures
        near.head_dim == Some(st.swa_head_dim),
        far.head_dim == Some(st.global_head_dim),
        near.num_kv_heads == cfg.num_key_value_heads,
        st.global_kv_heads matches Some(n) ==> far.num_kv_heads == n,
        st.global_kv_heads is None ==> far.num_kv_heads == near.num_kv_heads,
{
}

/// A router reads a scale for each hidden element and one for each expert, and a
/// row of weights for each expert, all in full.
pub proof fn law_planned_router(hidden: usize, experts: usize, top_k: usize, vb: VarBuilderX, r: Gemma4Router)
    requires
        call_ensures(Gemma4Router::new, (hidden, experts, top_k, &vb), r),
    ensures
        r.scale.path@ == vb.spec_path("scale"@) && r.scale.shape@ == seq![hidden] && r.scale.shard.world_size == 1,
        r.proj.path@ == vb.child("proj"@).spec_path("weight"@) && r.proj.shape@ == seq![experts, hidden] && r.proj.shard.world_size == 1,
        r.per_expert_scale.path@ == vb.spec_path("per_expert_scale"@) && r.per_expert_scale.shape@ == seq![experts],
        r.per_expert_scale.shard.world_size == 1,
        r.top_k == top_k && r.hidden_size == hidden,
{
}

/// The parts of a layer: attention with the window only where the layer slides,
/// and keys for values only where it does not; norms of the hidden size that add
/// nothing to their weights; and an own input that goes down to its width and up
/// again. Block-quantized files hold all parts in one scope.
pub proof fn law_planned_layer_parts(
    vb: VarBuilderX,
    comm: Comm,
    cfg: Config,
    st: Gemma4Settings,
    kind: LayerKind,
    dtype: DType,
    hs: HeadSize,
    r: Result<Gemma4DecoderLayer, Gemma4Error>,
)
    requires
        Gemma4DecoderLayer::wf(cfg, st, kind, vb.checkpoint.gguf, comm, dtype),
        call_ensures(Gemma4Settings::heads, (&st, &cfg, kind.is_sliding), hs),
        call_ensures(Gemma4DecoderLayer::new, (&vb, &comm, &cfg, &st, kind, dtype), r),
        r is Ok,
    ensures
        ({
            let l = r->Ok_0;
            let h = cfg.hidden_size;
            let gguf = vb.checkpoint.gguf;
            let attn = if gguf { vb } else { vb.child("self_attn"@) };
            let mlp = if gguf { vb } else { vb.child("mlp"@) };
            let size = MlpSize { hidden_size: h, intermediate_size: kind.intermediate_size, gate_up_merged: false, dtype };
            &&& kind.is_sliding ==> l.self_attn.is_planned(&attn, comm, cfg, hs, cfg.sliding_window, dtype, false, false)
            &&& !kind.is_sliding ==> l.self_attn.is_planned(&attn, comm, cfg, hs, None, dtype, st.k_eq_v, false)
            &&& l.mlp.is_planned(&mlp, comm, size, cfg.quantization_config, cfg.quant, ""@)
            &&& l.is_sliding == kind.is_sliding
            &&& l.input_layernorm.weight.path@ == vb.child("input_layernorm"@).spec_path("weight"@)
            &&& l.post_attention_layernorm.weight.path@ == vb.child("post_attention_layernorm"@).spec_path("weight"@)
            &&& l.pre_feedforward_layernorm.weight.path@ == vb.child("pre_feedforward_layernorm"@).spec_path("weight"@)
            &&& l.post_feedforward_layernorm.weight.path@ == vb.child("post_feedforward_layernorm"@).spec_path("weight"@)
            &&& is_plain_norm(l.input_layernorm, h) && is_plain_norm(l.post_attention_layernorm, h)
            &&& is_plain_norm(l.pre_feedforward_layernorm, h) && is_plain_norm(l.post_feedforward_layernorm, h)
            &&& gguf ==> l.layer_scalar.path@ == vb.child("layer_output_scale"@).spec_path("weight"@)
            &&& !gguf ==> l.layer_scalar.path@ == vb.spec_path("layer_scalar"@)
            &&& l.layer_scalar.shape@ == seq![1usize]
            &&& l.experts is Some <==> st.enable_moe && cfg.moe_cfg is Some
            &&& l.experts matches Some(x) ==> {
                &&& x.post_feedforward_layernorm_1.weight.path@ == vb.child("post_feedforward_layernorm_1"@).spec_path("weight"@)
                &&& x.post_feedforward_layernorm_2.weight.path@ == vb.child("post_feedforward_layernorm_2"@).spec_path("weight"@)
                &&& x.pre_feedforward_layernorm_2.weight.path@ == vb.child("pre_feedforward_layernorm_2"@).spec_path("weight"@)
                &&& is_plain_norm(x.post_feedforward_layernorm_1, h) && is_plain_norm(x.post_feedforward_layernorm_2, h)
                &&& is_plain_norm(x.pre_feedforward_layernorm_2, h)
                &&& x.router.proj.path@ == vb.child("router"@).child("proj"@).spec_path("weight"@)
            }
            &&& l.per_layer is Some <==> st.per_layer_input is Some
            &&& l.per_layer matches Some(x) ==> {
                &&& is_plain_norm(x.post_per_layer_input_norm, h)
                &&& x.per_layer_input_gate.linear matches crate::linear::LinearX::Linear(w) ==> w.weight.shape@ == seq![st.per_layer_input->0, h]
                &&& x.per_layer_projection.linear matches crate::linear::LinearX::Linear(w) ==> w.weight.shape@ == seq![h, st.per_layer_input->0]
            }
        }),
{
}

/// Whether a norm takes `size` elements, in single precision, and multiplies by
/// its weights alone.
pub open spec fn is_plain_norm(n: NormX, size: usize) -> bool {
    n.weight.shape@ == seq![size] && n.dtype == DType::F32 && !n.plus_one && !n.centred && n.bias is None
}

/// Parts of the model stand in the scope of the text model, where all layers
/// together have one table of own inputs; a tied output layer, which is the
/// default, is the table of embeddings.
pub proof fn law_names_of_text_parts(
    vb: VarBuilderX,
    comm: Comm,
    cfg: Config,
    keys: Gemma4Keys,
    st: Gemma4Settings,
    table_rows: usize,
    dtype: DType,
    r: Result<Gemma4ForCausalLM, Gemma4Error>,
)
    requires
        Gemma4ForCausalLM::wf(keys, cfg, table_rows, vb.checkpoint.gguf, comm, dtype),
        call_ensures(Gemma4Settings::from_keys, (&keys, &cfg), st),
        call_ensures(Gemma4ForCausalLM::from_keys, (&vb, &comm, &cfg, &keys, table_rows, dtype), r),
        r is Ok,
    ensures
        ({
            let m = r->Ok_0;
            let gguf = vb.checkpoint.gguf;
            let root = if gguf { "model"@ } else { "model.language_model"@ };
            let table = vb.child(path_of(root, "embed_tokens"@));
            let proj = vb.child(path_of(root, "per_layer_model_projection"@));
            let tied = cfg.tie_word_embeddings is None || cfg.tie_word_embeddings->0;
            let path = m.lm_head.linear->Linear_0.weight.path@;
            &&& m.embed_tokens.is_table(&table, cfg.vocab_size, cfg.hidden_size, dtype)
            &&& m.norm.weight.path@ == vb.child(path_of(root, "norm"@)).spec_path("weight"@) && is_plain_norm(m.norm, cfg.hidden_size)
            &&& !gguf ==> m.lm_head.linear is Linear
            &&& !gguf && tied ==> path == table.spec_path("weight"@)
            &&& !gguf && !tied ==> path == vb.child("lm_head"@).spec_path("weight"@)
            &&& m.lm_head.org_vocab_size == m.vocab_size
            &&& m.settings == st
            &&& m.per_layer matches Some(x) ==> {
                let dim = st.per_layer_input->0;
                &&& x.projection.path@ == proj.spec_path("weight"@)
                &&& x.projection.shape@[0] == dim * cfg.num_hidden_layers && x.projection.shape@[1] == cfg.hidden_size
                &&& is_plain_norm(x.norm, dim)
                &&& x.projection_scale is None <==> gguf
                &&& x.projection_scale matches Some(f) ==> f.tries@.len() == 2 && f.tries@[0].path@ == proj.spec_path("weight_scale"@)
                    && f.tries@[1].path@ == proj.spec_path("weight_scale_inv"@)
            }
        }),
{
    if st.per_layer_input is Some {
        assert(0 <= st.per_layer_input->0 * cfg.num_hidden_layers) by (nonlinear_arith);
    }
}

} // verus!
