//! Models of the Gemma 3 family: a text model, and a vision tower whose
//! pooled features replace image tokens.

use crate::attention::{Attention, AttentionError, NaiveAttention};
use crate::checkpoint::{dims2, DType, TensorRead, VarBuilderX};
use crate::config::Config;
use crate::distributed::{Comm, Shard, Span, VOCAB_PADDING_SIZE};
use crate::math::{is_sqrt, isqrt, mul_fits, sum_fits};
use crate::mlp::{MlpSize, NaiveMLP, MLP};
use crate::others::{conv2d, embedding, layer_norm, rms_norm, AvgPool2d, Conv2d, Conv2dConfig, Embedding, NormX};
use crate::parallel::{full_size, VocabParallelLinear};
use crate::text::{decimal, decimal_of, join, path_of};
use vstd::arithmetic::div_mod::*;
use vstd::arithmetic::mul::*;
use vstd::prelude::*;

verus! {

/// The text model.
#[derive(Debug, Clone, Copy, PartialEq, Eq, Structural)]
pub struct TextConfig {
    pub attention_bias: bool,
    pub head_dim: usize,
    pub hidden_size: usize,
    pub intermediate_size: usize,
    pub num_attention_heads: usize,
    pub num_hidden_layers: usize,
    pub num_key_value_heads: usize,
    pub vocab_size: usize,
    pub sliding_window: usize,
    pub query_pre_attn_scalar: usize,
    pub max_position_embeddings: usize,
    pub tie_word_embeddings: bool,
    /// Every so many layers one sees everything.
    pub sliding_window_pattern: usize,
}

/// The vision tower.
#[derive(Debug, Clone, Copy, PartialEq, Eq, Structural)]
pub struct VisionConfig {
    pub hidden_size: usize,
    pub intermediate_size: usize,
    pub num_hidden_layers: usize,
    pub num_attention_heads: usize,
    pub num_channels: usize,
    pub image_size: usize,
    pub patch_size: usize,
}

/// A model of the family.
#[derive(Debug, Clone, Copy, PartialEq, Eq, Structural)]
pub struct Gemma3Config {
    pub text_config: TextConfig,
    pub vision_config: VisionConfig,
    pub image_token_index: usize,
    pub mm_tokens_per_image: usize,
    pub has_vision: bool,
}

/// An optional size, or a default.
pub open spec fn size_or(n: Option<usize>, default: usize) -> usize {
    match n {
        Some(x) => x,
        None => default,
    }
}

fn or_size(n: Option<usize>, default: usize) -> (r: usize)
    ensures
        r == size_or(n, default),
{
    match n {
        Some(x) => x,
        None => default,
    }
}

/// Patches of a square image: how many, each `patch_size` wide.
#[derive(Debug, Clone, Copy, PartialEq, Eq, Structural)]
pub struct PatchGrid {
    pub side: usize,
    pub count: usize,
}

impl VisionConfig {
    /// Whether the tower can be planned.
    pub open spec fn wf(self) -> bool {
        &&& self.patch_size > 0
        &&& self.num_attention_heads > 0
        &&& (self.image_size / self.patch_size) * (self.image_size / self.patch_size) <= usize::MAX
    }

    pub open spec fn grid(self) -> PatchGrid {
        let side = self.image_size / self.patch_size;
        PatchGrid { side, count: (side * side) as usize }
    }
}

/// Patches of an image with a position each.
pub struct Gemma3VisionEmbeddings {
    pub patch_embedding: Conv2d,
    pub position_embedding: Embedding,
    pub num_patches: usize,
}

impl Gemma3VisionEmbeddings {
    /// Whether these are the embeddings in the scope.
    pub open spec fn is_planned(&self, vb: &VarBuilderX, cfg: VisionConfig, dtype: DType) -> bool {
        let conv = vb.child("patch_embedding"@);
        let ck = vb.checkpoint.dtype;
        &&& self.patch_embedding.weight.reads(
            conv.spec_path("weight"@), seq![cfg.hidden_size, cfg.num_channels, cfg.patch_size, cfg.patch_size], Shard::whole(), ck)
        &&& self.patch_embedding.bias matches Some(b)
        &&& b.reads(conv.spec_path("bias"@), seq![cfg.hidden_size], Shard::whole(), ck)
        &&& self.patch_embedding.cfg == (Conv2dConfig { padding: 0, stride: cfg.patch_size, dilation: 1, groups: 1 })
        &&& self.position_embedding.is_table(&vb.child("position_embedding"@), Some(cfg.grid().count), cfg.hidden_size, dtype)
        &&& self.num_patches == cfg.grid().count
    }

    pub fn new(vb: &VarBuilderX, cfg: &VisionConfig, dtype: DType) -> (r: Self)
        requires
            cfg.wf(),
            !vb.checkpoint.gguf,
        ensures
            r.is_planned(vb, *cfg, dtype),
    {
        let conv_vb = vb.pp("patch_embedding");
        let pos_vb = vb.pp("position_embedding");
        let side: usize = cfg.image_size / cfg.patch_size;
        let num_patches: usize = side * side;
        let conv_cfg = Conv2dConfig { padding: 0, stride: cfg.patch_size, dilation: 1, groups: 1 };
        proof {
            lemma_div_basics(cfg.num_channels as int);
        }
        Gemma3VisionEmbeddings {
            patch_embedding: conv2d(cfg.num_channels, cfg.hidden_size, cfg.patch_size, conv_cfg, &conv_vb, true),
            position_embedding: embedding(Some(num_patches), cfg.hidden_size, &pos_vb, dtype),
            num_patches,
        }
    }
}

/// A layer of the vision tower.
pub struct Gemma3VisionEncoderLayer {
    pub self_attn: NaiveAttention,
    pub mlp: NaiveMLP,
    pub input_layernorm: NormX,
    pub post_attention_layernorm: NormX,
}

impl Gemma3VisionEncoderLayer {
    /// Whether this is the layer in the scope.
    pub open spec fn is_planned(&self, vb: &VarBuilderX, cfg: VisionConfig, dtype: DType) -> bool {
        let h = cfg.hidden_size;
        let attn = if vb.checkpoint.gguf { *vb } else { vb.child("self_attn"@) };
        let mlp = vb.child("mlp"@);
        &&& self.self_attn.is_planned(&attn, h, Some("out_proj"@), dtype)
        &&& self.self_attn.num_heads == cfg.num_attention_heads
        &&& self.self_attn.head_dim == h / cfg.num_attention_heads
        &&& self.mlp.fc1.linear.is_layer(&mlp.child("fc1"@), full_size(h, cfg.intermediate_size, true, dtype), None, None)
        &&& self.mlp.fc2.linear.is_layer(&mlp.child("fc2"@), full_size(cfg.intermediate_size, h, true, dtype), None, None)
        &&& self.input_layernorm.is_layer_norm(&vb.child("layer_norm1"@), h, true, dtype)
        &&& self.post_attention_layernorm.is_layer_norm(&vb.child("layer_norm2"@), h, true, dtype)
    }

    pub fn new(vb: &VarBuilderX, cfg: &VisionConfig, dtype: DType) -> (r: Self)
        requires
            cfg.num_attention_heads > 0,
        ensures
            r.is_planned(vb, *cfg, dtype),
    {
        let h: usize = cfg.hidden_size;
        let attn_vb = if vb.is_qvar_builder() { vb.dup() } else { vb.pp("self_attn") };
        let (mlp_vb, n1, n2) = (vb.pp("mlp"), vb.pp("layer_norm1"), vb.pp("layer_norm2"));
        Gemma3VisionEncoderLayer {
            self_attn: NaiveAttention::new(
                &attn_vb, cfg.num_attention_heads, h, h / cfg.num_attention_heads, dtype, Some("out_proj")),
            mlp: NaiveMLP::new(&mlp_vb, h, cfg.intermediate_size, true, "fc1", "fc2", dtype),
            input_layernorm: layer_norm(h, true, &n1, dtype),
            post_attention_layernorm: layer_norm(h, true, &n2, dtype),
        }
    }
}

/// The vision tower.
pub struct Gemma3VisionTransformer {
    pub embeddings: Gemma3VisionEmbeddings,
    pub layers: Vec<Gemma3VisionEncoderLayer>,
    pub norm: NormX,
}

/// The scope of layer `i` below `layers`.
pub open spec fn numbered(layers: Seq<char>, i: int) -> Seq<char> {
    path_of(layers, decimal_of(i as nat))
}

impl Gemma3VisionTransformer {
    /// Whether this is the tower in the scope.
    pub open spec fn is_planned(&self, vb: &VarBuilderX, cfg: VisionConfig, dtype: DType) -> bool {
        &&& self.embeddings.is_planned(&vb.child("embeddings"@), cfg, dtype)
        &&& self.layers@.len() == cfg.num_hidden_layers
        &&& forall|i: int| 0 <= i < self.layers@.len()
            ==> (#[trigger] self.layers@[i]).is_planned(&vb.child(numbered("encoder.layers"@, i)), cfg, dtype)
        &&& self.norm.is_layer_norm(&vb.child("post_layernorm"@), cfg.hidden_size, true, dtype)
    }

    pub fn new(vb: &VarBuilderX, cfg: &VisionConfig, dtype: DType) -> (r: Self)
        requires
            cfg.wf(),
            !vb.checkpoint.gguf,
        ensures
            r.is_planned(vb, *cfg, dtype),
    {
        let (embed_vb, norm_vb) = (vb.pp("embeddings"), vb.pp("post_layernorm"));
        let embeddings = Gemma3VisionEmbeddings::new(&embed_vb, cfg, dtype);
        let mut layers: Vec<Gemma3VisionEncoderLayer> = Vec::new();
        let mut i: usize = 0;
        while i < cfg.num_hidden_layers
            invariant
                i <= cfg.num_hidden_layers,
                cfg.wf(),
                layers@.len() == i,
                forall|j: int| 0 <= j < i
                    ==> (#[trigger] layers@[j]).is_planned(&vb.child(numbered("encoder.layers"@, j)), *cfg, dtype),
            decreases cfg.num_hidden_layers - i,
        {
            let name = join("encoder.layers", decimal(i).as_str());
            let scope = vb.pp(name.as_str());
            let l = Gemma3VisionEncoderLayer::new(&scope, cfg, dtype);
            proof {
                lemma_vision_scope(l, &scope, &vb.child(numbered("encoder.layers"@, i as int)), *cfg, dtype);
            }
            layers.push(l);
            i = i + 1;
        }
        Gemma3VisionTransformer { embeddings, layers, norm: layer_norm(cfg.hidden_size, true, &norm_vb, dtype) }
    }
}

proof fn lemma_vision_scope(l: Gemma3VisionEncoderLayer, a: &VarBuilderX, b: &VarBuilderX, cfg: VisionConfig, dtype: DType)
    requires
        a.checkpoint == b.checkpoint,
        a.prefix@ == b.prefix@,
        l.is_planned(a, cfg, dtype),
    ensures
        l.is_planned(b, cfg, dtype),
{
}

/// Pools the patches of an image into tokens and projects them.
pub struct Gemma3MultiModalProjector {
    /// Transposed after the read.
    pub weight: TensorRead,
    pub norm: NormX,
    pub avg_pool: AvgPool2d,
    pub patches: usize,
}

impl Gemma3MultiModalProjector {
    /// Whether this is the projector in the scope.
    pub open spec fn is_planned(&self, vb: &VarBuilderX, cfg: Gemma3Config, dtype: DType) -> bool {
        let v = cfg.vision_config;
        &&& self.weight.reads(
            vb.spec_path("mm_input_projection_weight"@), seq![v.hidden_size, cfg.text_config.hidden_size], Shard::whole(),
            vb.checkpoint.dtype)
        &&& self.norm.is_rms(&vb.child("mm_soft_emb_norm"@), v.hidden_size, dtype, true, Shard::whole())
        &&& self.patches == v.grid().side
        &&& forall|root: int| #[trigger] is_sqrt(root, cfg.mm_tokens_per_image as int)
            ==> self.avg_pool.kernel_size == v.grid().side as int / root
        &&& self.avg_pool.stride == self.avg_pool.kernel_size
    }

    pub fn new(vb: &VarBuilderX, config: &Gemma3Config, dtype: DType) -> (r: Self)
        requires
            config.vision_config.patch_size > 0,
            config.mm_tokens_per_image > 0,
            !vb.checkpoint.gguf,
        ensures
            r.is_planned(vb, *config, dtype),
    {
        let v = &config.vision_config;
        let norm_vb = vb.pp("mm_soft_emb_norm");
        let patches: usize = v.image_size / v.patch_size;
        let root: usize = isqrt(config.mm_tokens_per_image);
        assert(root > 0) by (nonlinear_arith)
            requires
                is_sqrt(root as int, config.mm_tokens_per_image as int),
                config.mm_tokens_per_image > 0,
        ;
        let kernel_size: usize = patches / root;
        proof {
            assert forall|other: int| #[trigger] is_sqrt(other, config.mm_tokens_per_image as int) implies other == root by {
                crate::math::lemma_sqrt_unique(other, root as int, config.mm_tokens_per_image as int);
            }
        }
        Gemma3MultiModalProjector {
            weight: vb.get("mm_input_projection_weight", dims2(v.hidden_size, config.text_config.hidden_size)),
            norm: rms_norm(v.hidden_size, &norm_vb, dtype, true),
            avg_pool: AvgPool2d::new(kernel_size, kernel_size),
            patches,
        }
    }
}

/// Windows of `kernel` that fit side by side into `side`.
pub open spec fn pooled_side(side: int, kernel: int) -> int {
    (side - kernel) / kernel + 1
}

/// Pooling makes exactly the configured number of tokens of an image, where
/// that number is a square whose root divides the grid.
pub proof fn law_pooling_makes_the_tokens(side: nat, root: nat)
    requires
        root > 0,
        side > 0,
        side % root == 0,
    ensures
        side / root > 0,
        pooled_side(side as int, side as int / root as int) == root,
        pooled_side(side as int, side as int / root as int) * pooled_side(side as int, side as int / root as int) == root * root,
{
    let k = side as int / root as int;
    crate::math::lemma_div_exact(side as int, root as int);
    assert(k > 0) by (nonlinear_arith)
        requires
            k * root == side,
            side > 0,
            root > 0,
    ;
    assert(side - k == k * (root - 1)) by (nonlinear_arith)
        requires
            k * root == side,
    ;
    lemma_div_multiples_vanish(root - 1, k);
}

/// A layer of the text model.
pub struct Gemma3DecoderLayer {
    pub self_attn: Attention,
    pub mlp: MLP,
    pub input_layernorm: NormX,
    pub post_attention_layernorm: NormX,
    pub pre_feedforward_layernorm: NormX,
    pub post_feedforward_layernorm: NormX,
    pub sliding_window: Option<usize>,
}

/// Why a model cannot be planned, or images not be used.
#[derive(Debug, Clone, Copy, PartialEq, Eq, Structural)]
pub enum Gemma3Error {
    Attention(AttentionError),
    Mlp(AttentionError),
    /// Places of image tokens do not come in whole rows.
    UnevenImageTokens { places: usize, hidden: usize },
    /// More image tokens than features are left.
    ImageTokens { start: usize, len: usize, total: usize },
}

impl TextConfig {
    /// The window of layer `i`.
    pub open spec fn window(self, i: int) -> Option<usize> {
        if (i + 1) % (self.sliding_window_pattern as int) != 0 { Some(self.sliding_window) } else { None }
    }

    pub open spec fn mlp_size(self, dtype: DType) -> MlpSize {
        MlpSize { hidden_size: self.hidden_size, intermediate_size: self.intermediate_size, gate_up_merged: false, dtype }
    }
}

impl Gemma3DecoderLayer {
    /// Whether layers can be planned.
    pub open spec fn wf(text: TextConfig, g_cfg: Config, gguf: bool, comm: Comm, dtype: DType) -> bool {
        &&& text.sliding_window_pattern > 0
        &&& Attention::wf(g_cfg, g_cfg.head_size(), gguf, comm, dtype)
        &&& text.mlp_size(dtype).wf(comm, gguf, g_cfg.quantization_config)
    }

    /// The scope of the attention of a layer, and of its feed-forward layer.
    pub open spec fn part<'a>(vb: &VarBuilderX<'a>, name: Seq<char>) -> VarBuilderX<'a> {
        if vb.checkpoint.gguf { *vb } else { vb.child(name) }
    }

    /// The type that norms are computed in.
    pub open spec fn norm_type(g_cfg: Config, gguf: bool, dtype: DType) -> DType {
        if gguf || g_cfg.higher_precision_required { DType::F32 } else { dtype }
    }

    /// Why a layer cannot be planned, if so.
    pub open spec fn refusal(vb: &VarBuilderX, comm: Comm, text: TextConfig, g_cfg: Config, dtype: DType) -> Option<Gemma3Error> {
        let attn = Attention::refusal(&Self::part(vb, "self_attn"@), comm, g_cfg, g_cfg.head_size(), false);
        let mlp = MLP::refusal(&Self::part(vb, "mlp"@), text.mlp_size(dtype), g_cfg.quantization_config, g_cfg.quant, ""@);
        if attn is Some {
            Some(Gemma3Error::Attention(attn->0))
        } else if mlp is Some {
            Some(Gemma3Error::Mlp(mlp->0))
        } else {
            None
        }
    }

    /// Whether this is layer `i` in the scope.
    pub open spec fn is_planned(&self, vb: &VarBuilderX, comm: Comm, text: TextConfig, g_cfg: Config, i: int, dtype: DType) -> bool {
        let h = text.hidden_size;
        let t = Self::norm_type(g_cfg, vb.checkpoint.gguf, dtype);
        &&& self.self_attn.is_planned(
            &Self::part(vb, "self_attn"@), comm, g_cfg, g_cfg.head_size(), text.window(i), dtype, false, false)
        &&& self.mlp.is_planned(&Self::part(vb, "mlp"@), comm, text.mlp_size(dtype), g_cfg.quantization_config, g_cfg.quant, ""@)
        &&& self.input_layernorm.is_rms(&vb.child("input_layernorm"@), h, t, true, Shard::whole())
        &&& self.post_attention_layernorm.is_rms(&vb.child("post_attention_layernorm"@), h, t, true, Shard::whole())
        &&& self.pre_feedforward_layernorm.is_rms(&vb.child("pre_feedforward_layernorm"@), h, t, true, Shard::whole())
        &&& self.post_feedforward_layernorm.is_rms(&vb.child("post_feedforward_layernorm"@), h, t, true, Shard::whole())
        &&& self.sliding_window == text.window(i)
    }

    #[verifier::rlimit(60)]
    #[verifier::spinoff_prover]
    pub fn new(vb: &VarBuilderX, comm: &Comm, text: &TextConfig, g_cfg: &Config, layer_idx: usize, dtype: DType) -> (r: Result<Self, Gemma3Error>)
        requires
            Self::wf(*text, *g_cfg, vb.checkpoint.gguf, *comm, dtype),
            layer_idx < usize::MAX,
        ensures
            match Self::refusal(vb, *comm, *text, *g_cfg, dtype) {
                Some(e) => r == Err::<Self, Gemma3Error>(e),
                None => r matches Ok(l) && l.is_planned(vb, *comm, *text, *g_cfg, layer_idx as int, dtype),
            },
    {
        let gguf = vb.is_qvar_builder();
        let sliding_window = if (layer_idx + 1) % text.sliding_window_pattern != 0 { Some(text.sliding_window) } else { None };
        let attn_vb = if gguf { vb.dup() } else { vb.pp("self_attn") };
        let mlp_vb = if gguf { vb.dup() } else { vb.pp("mlp") };
        let self_attn = match Attention::new(&attn_vb, comm, g_cfg, sliding_window, dtype) {
            Ok(a) => a,
            Err(e) => return Err(Gemma3Error::Attention(e)),
        };
        let h: usize = text.hidden_size;
        let size = MlpSize { hidden_size: h, intermediate_size: text.intermediate_size, gate_up_merged: false, dtype };
        let mlp = match MLP::new(&mlp_vb, comm, size, &g_cfg.quantization_config, &g_cfg.quant, "") {
            Ok(m) => m,
            Err(e) => return Err(Gemma3Error::Mlp(e)),
        };
        let t = if gguf || g_cfg.higher_precision_required { DType::F32 } else { dtype };
        let (n1, n2) = (vb.pp("input_layernorm"), vb.pp("post_attention_layernorm"));
        let (n3, n4) = (vb.pp("pre_feedforward_layernorm"), vb.pp("post_feedforward_layernorm"));
        Ok(
            Gemma3DecoderLayer {
                self_attn,
                mlp,
                input_layernorm: rms_norm(h, &n1, t, true),
                post_attention_layernorm: rms_norm(h, &n2, t, true),
                pre_feedforward_layernorm: rms_norm(h, &n3, t, true),
                post_feedforward_layernorm: rms_norm(h, &n4, t, true),
                sliding_window,
            },
        )
    }

    /// Whether a pass uses the mask of the window, where there is one, and
    /// whether it uses the local rotation.
    pub fn forward(&self, sliding_mask: bool) -> (r: (bool, bool))
        ensures
            r == (sliding_mask, self.sliding_window is Some),
    {
        (sliding_mask, self.sliding_window.is_some())
    }
}

/// The elements of flattened rows of `hidden` that belong to `token`, in order.
pub open spec fn places_of(ids: Seq<u32>, token: u32, hidden: nat) -> Seq<u32>
    decreases ids.len(),
{
    if ids.len() == 0 {
        Seq::empty()
    } else {
        let (first, row) = (ids.drop_last(), ids.len() - 1);
        places_of(first, token, hidden) + (if ids.last() == token {
            Seq::new(hidden, |k: int| (row * hidden + k) as u32)
        } else {
            Seq::empty()
        })
    }
}

proof fn lemma_row_inside(i: int, n: int, hidden: int)
    requires
        0 <= i < n,
        0 <= hidden,
    ensures
        0 <= i * hidden,
        i * hidden + hidden <= n * hidden,
{
    assert(0 <= i * hidden && i * hidden + hidden == (i + 1) * hidden && (i + 1) * hidden <= n * hidden) by (nonlinear_arith)
        requires
            0 <= i,
            i + 1 <= n,
            0 <= hidden,
    ;
}

/// Places of image tokens always come in whole rows, one for each token.
pub proof fn law_image_places_are_whole_rows(ids: Seq<u32>, token: u32, hidden: nat)
    requires
        hidden > 0,
    ensures
        places_of(ids, token, hidden).len() == hidden * ids.filter(|id: u32| id == token).len(),
        places_of(ids, token, hidden).len() % hidden == 0,
    decreases ids.len(),
{
    let is = |id: u32| id == token;
    reveal(Seq::filter);
    if ids.len() > 0 {
        law_image_places_are_whole_rows(ids.drop_last(), token, hidden);
        let n = ids.drop_last().filter(is).len();
        assert(hidden * (n + 1) == hidden * n + hidden) by (nonlinear_arith);
    } else {
        assert(hidden * 0 == 0) by (nonlinear_arith);
    }
    lemma_mod_multiples_basic(ids.filter(is).len() as int, hidden as int);
    lemma_mul_is_commutative(hidden as int, ids.filter(is).len() as int);
}

/// A model.
pub struct Gemma3ForConditionalGeneration {
    pub vision_tower: Option<Gemma3VisionTransformer>,
    pub multi_modal_projector: Option<Gemma3MultiModalProjector>,
    pub embed_tokens: Embedding,
    pub layers: Vec<Gemma3DecoderLayer>,
    pub norm: NormX,
    pub lm_head: VocabParallelLinear,
    pub config: Gemma3Config,
    pub quantized_at_load: bool,
    pub is_qvar_builder: bool,
    pub dtype: DType,
}

/// Where image features go in a chunk of tokens.
#[derive(Debug, Clone, Copy, PartialEq, Eq, Structural)]
pub struct ImageSlice {
    /// Features of the tokens of this chunk, where not all are used.
    pub features: Option<Span>,
}

/// The scope of the text layers.
pub open spec fn text_layer(i: int) -> Seq<char> {
    numbered("language_model.model.layers"@, i)
}

impl Gemma3ForConditionalGeneration {
    /// The configuration of a file without a vision tower.
    pub fn synthesize_text_only_config(g_cfg: &Config) -> (r: Gemma3Config)
        ensures
            r.text_config == (TextConfig {
                attention_bias: g_cfg.attention_bias == Some(true),
                head_dim: size_or(g_cfg.head_dim, 256),
                hidden_size: g_cfg.hidden_size,
                intermediate_size: g_cfg.intermediate_size,
                num_attention_heads: g_cfg.num_attention_heads,
                num_hidden_layers: g_cfg.num_hidden_layers,
                num_key_value_heads: g_cfg.num_key_value_heads,
                vocab_size: size_or(g_cfg.vocab_size, 262_208),
                sliding_window: size_or(g_cfg.sliding_window, g_cfg.max_position_embeddings),
                query_pre_attn_scalar: size_or(g_cfg.head_dim, 256),
                max_position_embeddings: g_cfg.max_position_embeddings,
                tie_word_embeddings: g_cfg.tie_word_embeddings != Some(false),
                sliding_window_pattern: 6,
            }),
            r.vision_config == (VisionConfig {
                hidden_size: 768,
                intermediate_size: 3072,
                num_hidden_layers: 12,
                num_attention_heads: 12,
                num_channels: 3,
                image_size: 224,
                patch_size: 16,
            }),
            r.image_token_index == 0 && r.mm_tokens_per_image == 0 && !r.has_vision,
    {
        Gemma3Config {
            text_config: TextConfig {
                attention_bias: match g_cfg.attention_bias { Some(b) => b, None => false },
                head_dim: or_size(g_cfg.head_dim, 256),
                hidden_size: g_cfg.hidden_size,
                intermediate_size: g_cfg.intermediate_size,
                num_attention_heads: g_cfg.num_attention_heads,
                num_hidden_layers: g_cfg.num_hidden_layers,
                num_key_value_heads: g_cfg.num_key_value_heads,
                vocab_size: or_size(g_cfg.vocab_size, 262_208),
                sliding_window: or_size(g_cfg.sliding_window, g_cfg.max_position_embeddings),
                query_pre_attn_scalar: or_size(g_cfg.head_dim, 256),
                max_position_embeddings: g_cfg.max_position_embeddings,
                tie_word_embeddings: match g_cfg.tie_word_embeddings { Some(b) => b, None => true },
                sliding_window_pattern: 6,
            },
            vision_config: VisionConfig {
                hidden_size: 768,
                intermediate_size: 3072,
                num_hidden_layers: 12,
                num_attention_heads: 12,
                num_channels: 3,
                image_size: 224,
                patch_size: 16,
            },
            image_token_index: 0,
            mm_tokens_per_image: 0,
            has_vision: false,
        }
    }

    /// Whether the model can be planned.
    pub open spec fn wf(cfg: Gemma3Config, g_cfg: Config, gguf: bool, comm: Comm, dtype: DType) -> bool {
        let text = cfg.text_config;
        &&& comm.wf()
        &&& text.vocab_size + comm.world_size + (2 * VOCAB_PADDING_SIZE - 2) <= usize::MAX
        &&& text.num_hidden_layers > 0 ==> Gemma3DecoderLayer::wf(text, g_cfg, gguf, comm, dtype)
        &&& cfg.has_vision ==> !gguf && cfg.vision_config.wf() && cfg.mm_tokens_per_image > 0
    }

    /// Whether the model can be planned.
    pub fn can_plan(cfg: &Gemma3Config, g_cfg: &Config, gguf: bool, comm: &Comm, dtype: DType) -> (r: bool)
        ensures
            r == Self::wf(*cfg, *g_cfg, gguf, *comm, dtype),
    {
        let text = &cfg.text_config;
        if comm.rank() >= comm.world_size() || !sum_fits(text.vocab_size, comm.world_size())
            || !sum_fits(text.vocab_size + comm.world_size(), (2 * VOCAB_PADDING_SIZE - 2)) {
            return false;
        }
        let vision = &cfg.vision_config;
        let sees = if !cfg.has_vision {
            true
        } else if gguf || vision.patch_size == 0 || vision.num_attention_heads == 0 || cfg.mm_tokens_per_image == 0 {
            false
        } else {
            let side: usize = vision.image_size / vision.patch_size;
            mul_fits(side, side)
        };
        if !sees {
            return false;
        }
        let size = MlpSize {
            hidden_size: text.hidden_size, intermediate_size: text.intermediate_size, gate_up_merged: false, dtype,
        };
        text.num_hidden_layers == 0 || (text.sliding_window_pattern > 0
            && Attention::can_plan(g_cfg, g_cfg.heads(), gguf, comm, dtype)
            && size.can_plan(comm, gguf, &g_cfg.quantization_config))
    }

    /// Why layer `i` or a later one cannot be planned, if so.
    pub open spec fn first_refusal(vb: &VarBuilderX, comm: Comm, text: TextConfig, g_cfg: Config, dtype: DType, i: int) -> Option<Gemma3Error>
        decreases text.num_hidden_layers - i,
    {
        if i < 0 || i >= text.num_hidden_layers {
            None
        } else {
            match Gemma3DecoderLayer::refusal(&vb.child(text_layer(i)), comm, text, g_cfg, dtype) {
                Some(e) => Some(e),
                None => Self::first_refusal(vb, comm, text, g_cfg, dtype, i + 1),
            }
        }
    }

    /// Whether this is the model in the scope.
    pub open spec fn is_planned(&self, vb: &VarBuilderX, comm: Comm, cfg: Gemma3Config, g_cfg: Config, dtype: DType) -> bool {
        let gguf = vb.checkpoint.gguf;
        let text = cfg.text_config;
        let table = "language_model.model.embed_tokens"@;
        &&& self.vision_tower is Some <==> cfg.has_vision
        &&& self.vision_tower matches Some(t) ==> t.is_planned(&vb.child("vision_tower.vision_model"@), cfg.vision_config, dtype)
        &&& self.multi_modal_projector is Some <==> cfg.has_vision
        &&& self.multi_modal_projector matches Some(p) ==> p.is_planned(&vb.child("multi_modal_projector"@), cfg, dtype)
        &&& self.embed_tokens.is_table(
            &vb.child(if gguf { "model.embed_tokens"@ } else { table }), Some(text.vocab_size), text.hidden_size, dtype)
        &&& self.layers@.len() == text.num_hidden_layers
        &&& forall|i: int| 0 <= i < self.layers@.len()
            ==> (#[trigger] self.layers@[i]).is_planned(&vb.child(text_layer(i)), comm, text, g_cfg, i, dtype)
        &&& self.norm.is_rms(
            &vb.child("language_model.model.norm"@), text.hidden_size, Gemma3DecoderLayer::norm_type(g_cfg, gguf, dtype), true,
            Shard::whole())
        &&& VocabParallelLinear::planned(
            Ok(self.lm_head), &vb.child(if text.tie_word_embeddings { table } else { "lm_head"@ }), text.hidden_size, text.vocab_size,
            comm, None, None, dtype)
        &&& self.config == cfg
        &&& self.quantized_at_load == (g_cfg.quant is Some)
        &&& self.is_qvar_builder == gguf
        &&& self.dtype == dtype
    }

    pub fn new(vb: &VarBuilderX, comm: &Comm, config: &Gemma3Config, g_cfg: &Config, dtype: DType) -> (r: Result<Self, Gemma3Error>)
        requires
            Self::wf(*config, *g_cfg, vb.checkpoint.gguf, *comm, dtype),
        ensures
            match Self::first_refusal(vb, *comm, config.text_config, *g_cfg, dtype, 0) {
                Some(e) => r == Err::<Self, Gemma3Error>(e),
                None => r matches Ok(m) && m.is_planned(vb, *comm, *config, *g_cfg, dtype),
            },
    {
        let gguf = vb.is_qvar_builder();
        let text = &config.text_config;
        let embed_vb = if gguf { vb.pp("model.embed_tokens") } else { vb.pp("language_model.model.embed_tokens") };
        let embed_tokens = embedding(Some(text.vocab_size), text.hidden_size, &embed_vb, dtype);
        let tower_vb = vb.pp("vision_tower.vision_model");
        let proj_vb = vb.pp("multi_modal_projector");
        let vision_tower = if config.has_vision {
            Some(Gemma3VisionTransformer::new(&tower_vb, &config.vision_config, dtype))
        } else {
            None
        };
        let multi_modal_projector = if config.has_vision {
            Some(Gemma3MultiModalProjector::new(&proj_vb, config, dtype))
        } else {
            None
        };
        let mut layers: Vec<Gemma3DecoderLayer> = Vec::new();
        let mut i: usize = 0;
        while i < text.num_hidden_layers
            invariant
                i <= text.num_hidden_layers,
                *text == config.text_config,
                Self::wf(*config, *g_cfg, vb.checkpoint.gguf, *comm, dtype),
                layers@.len() == i,
                Self::first_refusal(vb, *comm, *text, *g_cfg, dtype, 0)
                    == Self::first_refusal(vb, *comm, *text, *g_cfg, dtype, i as int),
                forall|j: int| 0 <= j < i
                    ==> (#[trigger] layers@[j]).is_planned(&vb.child(text_layer(j)), *comm, *text, *g_cfg, j, dtype),
            decreases text.num_hidden_layers - i,
        {
            let name = join("language_model.model.layers", decimal(i).as_str());
            let scope = vb.pp(name.as_str());
            match Gemma3DecoderLayer::new(&scope, comm, text, g_cfg, i, dtype) {
                Ok(l) => {
                    proof {
                        lemma_text_scope(l, &scope, &vb.child(text_layer(i as int)), *comm, *text, *g_cfg, i as int, dtype);
                    }
                    layers.push(l);
                },
                Err(e) => return Err(e),
            }
            i = i + 1;
        }
        let norm_vb = vb.pp("language_model.model.norm");
        let t = if gguf || g_cfg.higher_precision_required { DType::F32 } else { dtype };
        let head_vb = if text.tie_word_embeddings { vb.pp("language_model.model.embed_tokens") } else { vb.pp("lm_head") };
        let lm_head = match VocabParallelLinear::load_no_bias(text.hidden_size, text.vocab_size, &head_vb, comm, &None, &None, dtype) {
            Ok(l) => l,
            Err(e) => return Err(Gemma3Error::Mlp(AttentionError::Fp8(e))),
        };
        Ok(
            Gemma3ForConditionalGeneration {
                vision_tower,
                multi_modal_projector,
                embed_tokens,
                layers,
                norm: rms_norm(text.hidden_size, &norm_vb, t, true),
                lm_head,
                config: *config,
                quantized_at_load: g_cfg.quant.is_some(),
                is_qvar_builder: gguf,
                dtype,
            },
        )
    }

    /// Whether embeddings of type `t` are converted to single precision.
    pub fn embed_forward(&self, t: DType) -> (r: bool)
        ensures
            r == ((self.is_qvar_builder || self.quantized_at_load) && t != DType::F32),
    {
        (self.is_qvar_builder || self.quantized_at_load) && t != DType::F32
    }

    /// Whether layer `i` attends under the mask of the window. Every
    /// `sliding_window_pattern`-th layer is global and attends under the full
    /// mask.
    pub fn hands_sliding_mask(&self, i: usize) -> (r: bool)
        requires
            self.config.text_config.sliding_window_pattern > 0,
        ensures
            r == ((i + 1) % (self.config.text_config.sliding_window_pattern as int) != 0),
            r == (self.config.text_config.window(i as int) is Some),
    {
        let pattern: usize = self.config.text_config.sliding_window_pattern;
        let rest: usize = i % pattern;
        proof {
            lemma_fundamental_div_mod(i as int, pattern as int);
            let (n, p, q) = (i as int, pattern as int, i as int / pattern as int);
            if rest + 1 == pattern {
                assert(n + 1 == (q + 1) * p + 0) by (nonlinear_arith)
                    requires
                        n == p * q + rest,
                        rest + 1 == p,
                ;
                lemma_fundamental_div_mod_converse(n + 1, p, q + 1, 0);
            } else {
                lemma_mul_is_commutative(p, q);
                lemma_fundamental_div_mod_converse(n + 1, p, q, rest + 1);
            }
        }
        rest != pattern - 1
    }

    /// How layer `i` attends: whether under the mask of the window, where there
    /// are masks at all, and whether with the local rotation.
    pub fn layer_pass(&self, i: usize, has_masks: bool) -> (r: (bool, bool))
        requires
            i < self.layers@.len(),
            self.config.text_config.sliding_window_pattern > 0,
        ensures
            r.0 == (has_masks && (i + 1) % (self.config.text_config.sliding_window_pattern as int) != 0),
            r.1 == (self.layers@[i as int].sliding_window is Some),
    {
        let handed = self.hands_sliding_mask(i) && has_masks;
        self.layers[i].forward(handed)
    }

    /// The elements of the flattened embeddings that belong to image tokens.
    pub fn image_places(ids: &Vec<u32>, token: u32, hidden: usize) -> (r: Vec<u32>)
        requires
            ids@.len() * hidden <= u32::MAX,
        ensures
            r@ == places_of(ids@, token, hidden as nat),
    {
        let mut places: Vec<u32> = Vec::new();
        let mut i: usize = 0;
        assert(ids@.take(0) =~= Seq::<u32>::empty());
        while i < ids.len()
            invariant
                i <= ids@.len(),
                ids@.len() * hidden <= u32::MAX,
                places@ == places_of(ids@.take(i as int), token, hidden as nat),
            decreases ids@.len() - i,
        {
            assert(ids@.take(i + 1).drop_last() =~= ids@.take(i as int));
            if ids[i] == token {
                let ghost before = places@;
                let mut d: usize = 0;
                proof {
                    lemma_row_inside(i as int, ids@.len() as int, hidden as int);
                }
                while d < hidden
                    invariant
                        d <= hidden,
                        i * hidden + hidden <= u32::MAX,
                        places@ == before + Seq::new(d as nat, |k: int| (i * hidden + k) as u32),
                    decreases hidden - d,
                {
                    places.push((i * hidden + d) as u32);
                    d = d + 1;
                    assert(places@ =~= before + Seq::new(d as nat, |k: int| (i * hidden + k) as u32));
                }
            } else {
                assert(places@ =~= places_of(ids@.take(i + 1), token, hidden as nat));
            }
            i = i + 1;
        }
        assert(ids@.take(i as int) =~= ids@);
        places
    }

    /// Which of `num_images` images are used when the first `image_idx` were
    /// used before; `None` for all.
    pub fn image_slice(num_images: usize, image_idx: usize) -> (r: Option<Span>)
        ensures
            r == if 0 < image_idx < num_images {
                Some(Span { start: image_idx, len: (num_images - image_idx) as usize })
            } else {
                None
            },
    {
        if image_idx > 0 && image_idx < num_images {
            Some(Span { start: image_idx, len: num_images - image_idx })
        } else {
            None
        }
    }

    /// Which of `total` feature rows replace the image tokens of a chunk:
    /// `places` elements of rows of `hidden`, after `offset` rows were used
    /// before. Nothing is replaced where there are no places.
    pub fn forward_inner(places: usize, hidden: usize, total: usize, offset: usize) -> (r: Result<Option<ImageSlice>, Gemma3Error>)
        requires
            hidden > 0,
        ensures
            ({
                let start = if offset < total { offset } else { total };
                let len = places / hidden;
                if places == 0 {
                    r == Ok::<Option<ImageSlice>, Gemma3Error>(None)
                } else if places % hidden != 0 {
                    r == Err::<Option<ImageSlice>, Gemma3Error>(Gemma3Error::UnevenImageTokens { places, hidden })
                } else if start + len > total {
                    r == Err::<Option<ImageSlice>, Gemma3Error>(Gemma3Error::ImageTokens { start, len, total })
                } else {
                    r == Ok::<Option<ImageSlice>, Gemma3Error>(Some(ImageSlice {
                        features: if start > 0 || start + len < total { Some(Span { start, len }) } else { None },
                    }))
                }
            }),
    {
        if places == 0 {
            return Ok(None);
        }
        if places % hidden != 0 {
            return Err(Gemma3Error::UnevenImageTokens { places, hidden });
        }
        let len: usize = places / hidden;
        let start: usize = if offset < total { offset } else { total };
        if len > total - start {
            return Err(Gemma3Error::ImageTokens { start, len, total });
        }
        Ok(Some(ImageSlice { features: if start > 0 || start + len < total { Some(Span { start, len }) } else { None } }))
    }

    /// The number of tokens.
    pub fn get_vocab_size(&self) -> (r: usize)
        ensures
            r == self.config.text_config.vocab_size,
    {
        self.config.text_config.vocab_size
    }
}

proof fn lemma_text_scope(
    l: Gemma3DecoderLayer,
    a: &VarBuilderX,
    b: &VarBuilderX,
    comm: Comm,
    text: TextConfig,
    g_cfg: Config,
    i: int,
    dtype: DType,
)
    requires
        a.checkpoint == b.checkpoint,
        a.prefix@ == b.prefix@,
        l.is_planned(a, comm, text, g_cfg, i, dtype),
    ensures
        l.is_planned(b, comm, text, g_cfg, i, dtype),
{
}

proof fn lemma_places(ids: Seq<u32>, token: u32, hidden: nat)
    requires
        ids.len() * hidden <= u32::MAX,
        hidden > 0,
    ensures
        ({
            let places = places_of(ids, token, hidden);
            &&& forall|j: int, k: int| 0 <= j < k < places.len() ==> #[trigger] places[j] < #[trigger] places[k]
            &&& forall|j: int| 0 <= j < places.len() ==> {
                &&& (#[trigger] places[j]) < ids.len() * hidden
                &&& ids[places[j] as int / hidden as int] == token
            }
            &&& forall|row: int, d: int| 0 <= row < ids.len() && 0 <= d < hidden && ids[row] == token
                ==> places.contains(#[trigger] (row * hidden + d) as u32)
        }),
    decreases ids.len(),
{
    let places = places_of(ids, token, hidden);
    if ids.len() > 0 {
        let first = ids.drop_last();
        let n = first.len() as int;
        let before = places_of(first, token, hidden);
        lemma_row_inside(n, ids.len() as int, hidden as int);
        assert(ids.len() * hidden == n * hidden + hidden) by (nonlinear_arith)
            requires
                ids.len() == n + 1,
        ;
        lemma_places(first, token, hidden);
        let added = Seq::new(hidden, |k: int| (n * hidden + k) as u32);
        if ids.last() == token {
            assert(places == before + added);
        } else {
            assert(places =~= before);
        }
        assert forall|j: int| 0 <= j < places.len() implies (#[trigger] places[j]) < ids.len() * hidden
            && ids[places[j] as int / hidden as int] == token by {
            if j < before.len() {
                assert(places[j] == before[j]);
                let row = before[j] as int / hidden as int;
                assert(0 <= row < n) by (nonlinear_arith)
                    requires
                        row == before[j] as int / hidden as int,
                        before[j] < n * hidden,
                        hidden > 0,
                ;
            } else {
                assert(places[j] == n * hidden + (j - before.len()));
                lemma_fundamental_div_mod_converse(places[j] as int, hidden as int, n, j - before.len());
            }
        }
        assert forall|j: int, k: int| 0 <= j < k < places.len() implies #[trigger] places[j] < #[trigger] places[k] by {
            if k < before.len() {
                assert(places[j] == before[j] && places[k] == before[k]);
            } else {
                assert(places[k] == n * hidden + (k - before.len()));
                if j < before.len() {
                    assert(places[j] == before[j]);
                } else {
                    assert(places[j] == n * hidden + (j - before.len()));
                }
            }
        }
        assert forall|row: int, d: int| 0 <= row < ids.len() && 0 <= d < hidden && ids[row] == token implies places.contains(
            #[trigger] (row * hidden + d) as u32,
        ) by {
            let p = (row * hidden + d) as u32;
            if row < n {
                assert(first[row] == token);
                assert(before.contains(p));
                let j = choose|j: int| 0 <= j < before.len() && before[j] == p;
                assert(places[j] == p);
            } else {
                assert(places[before.len() + d] == p);
            }
        }
    }
}

/// The places of image tokens are strictly increasing, and a place is listed
/// exactly where its row is one of a token of the flattened rows and that token
/// is the image token.
pub proof fn law_image_places_are_those_of_image_tokens(ids: Vec<u32>, token: u32, hidden: usize, r: Vec<u32>, j: int, k: int, p: u32)
    requires
        hidden > 0,
        ids@.len() * hidden <= u32::MAX,
        call_ensures(Gemma3ForConditionalGeneration::image_places, (&ids, token, hidden), r),
    ensures
        0 <= j < k < r@.len() ==> r@[j] < r@[k],
        r@.contains(p) <==> p < ids@.len() * hidden && ids@[p as int / hidden as int] == token,
{
    lemma_places(ids@, token, hidden as nat);
    if r@.contains(p) {
        let m = choose|m: int| 0 <= m < r@.len() && r@[m] == p;
        assert(r@[m] == p);
    }
    if p < ids@.len() * hidden {
        let (row, d) = (p as int / hidden as int, p as int % hidden as int);
        lemma_fundamental_div_mod(p as int, hidden as int);
        lemma_mul_is_commutative(hidden as int, row);
        assert(0 <= row < ids@.len()) by (nonlinear_arith)
            requires
                row == p as int / hidden as int,
                p < ids@.len() * hidden,
                hidden > 0,
        ;
        assert((row * hidden + d) as u32 == p);
    }
}

/// No place is listed where tokens have no elements.
pub proof fn law_no_places_without_elements(ids: Vec<u32>, token: u32, r: Vec<u32>)
    requires
        call_ensures(Gemma3ForConditionalGeneration::image_places, (&ids, token, 0usize), r),
    ensures
        r@.len() == 0,
{
    lemma_no_places(ids@, token);
}

proof fn lemma_no_places(ids: Seq<u32>, token: u32)
    ensures
        places_of(ids, token, 0).len() == 0,
    decreases ids.len(),
{
    if ids.len() > 0 {
        lemma_no_places(ids.drop_last(), token);
    }
}

/// Layers count from one: those whose number is a multiple of the pattern see
/// everything, with neither window nor local rotation nor the mask of the
/// window; all others have the configured window, and that mask where there are
/// masks.
pub proof fn law_every_nth_layer_sees_everything(
    m: Gemma3ForConditionalGeneration,
    i: usize,
    has_masks: bool,
    handed: bool,
    pass: (bool, bool),
    n: int,
)
    requires
        m.config.text_config.sliding_window_pattern > 0,
        call_ensures(Gemma3ForConditionalGeneration::hands_sliding_mask, (&m, i), handed),
        call_ensures(Gemma3ForConditionalGeneration::layer_pass, (&m, i, has_masks), pass),
    ensures
        i + 1 == n * m.config.text_config.sliding_window_pattern ==> !handed && !pass.0,
        n * m.config.text_config.sliding_window_pattern < i + 1 < (n + 1) * m.config.text_config.sliding_window_pattern
            ==> handed && pass.0 == has_masks,
        pass.1 == (m.layers@[i as int].sliding_window is Some),
{
    let p = m.config.text_config.sliding_window_pattern as int;
    if i + 1 == n * p {
        lemma_mod_multiples_basic(n, p);
    } else if n * p < i + 1 < (n + 1) * p {
        assert((n + 1) * p == n * p + p) by (nonlinear_arith);
        lemma_fundamental_div_mod_converse(i + 1, p, n, i + 1 - n * p);
    }
}

/// What a planned model is made of: as many layers as the text part says, each
/// but every so many with the configured window, and a tower with as many
/// layers as the vision part says exactly where there is vision; positions for
/// each patch of a square image; windows of pooling that do not overlap and
/// leave no more tokens a side than the root of what an image has; an output
/// layer of the embeddings' rows where they are tied.
pub proof fn law_planned_models_follow_their_parts(
    vb: VarBuilderX,
    comm: Comm,
    cfg: Gemma3Config,
    g_cfg: Config,
    dtype: DType,
    r: Result<Gemma3ForConditionalGeneration, Gemma3Error>,
    i: int,
    n: int,
    root: int,
)
    requires
        Gemma3ForConditionalGeneration::wf(cfg, g_cfg, vb.checkpoint.gguf, comm, dtype),
        call_ensures(Gemma3ForConditionalGeneration::new, (&vb, &comm, &cfg, &g_cfg, dtype), r),
        r is Ok,
        0 <= i < cfg.text_config.num_hidden_layers,
        0 <= root,
        root * root <= cfg.mm_tokens_per_image < (root + 1) * (root + 1),
    ensures
        ({
            let m = r->Ok_0;
            let text = cfg.text_config;
            let l = m.layers@[i];
            &&& m.layers@.len() == text.num_hidden_layers
            &&& i + 1 == n * text.sliding_window_pattern ==> l.sliding_window is None && l.self_attn.sliding_window is None
            &&& n * text.sliding_window_pattern < i + 1 < (n + 1) * text.sliding_window_pattern
                ==> l.sliding_window == Some(text.sliding_window) && l.self_attn.sliding_window == Some(text.sliding_window)
            &&& m.vision_tower is Some <==> cfg.has_vision
            &&& m.multi_modal_projector is Some <==> cfg.has_vision
            &&& m.vision_tower matches Some(t) ==> {
                let v = cfg.vision_config;
                &&& t.layers@.len() == v.num_hidden_layers
                &&& t.embeddings.patch_embedding.cfg.stride == v.patch_size && t.embeddings.patch_embedding.cfg.padding == 0
                &&& t.embeddings.patch_embedding.weight.shape@ == seq![v.hidden_size, v.num_channels, v.patch_size, v.patch_size]
            }
            &&& m.multi_modal_projector matches Some(p) ==> {
                let v = cfg.vision_config;
                &&& p.patches * v.patch_size <= v.image_size < (p.patches + 1) * v.patch_size
                &&& p.avg_pool.stride == p.avg_pool.kernel_size
                &&& p.avg_pool.kernel_size * root <= p.patches < (p.avg_pool.kernel_size + 1) * root
                &&& p.weight.shape@ == seq![v.hidden_size, text.hidden_size]
                &&& m.vision_tower->0.embeddings.num_patches == p.patches * p.patches
            }
            &&& m.quantized_at_load <==> g_cfg.quant is Some
            &&& m.is_qvar_builder <==> vb.checkpoint.gguf
        }),
{
    let m = r->Ok_0;
    let text = cfg.text_config;
    let p = text.sliding_window_pattern as int;
    assert(m.layers@[i].is_planned(&vb.child(text_layer(i)), comm, text, g_cfg, i, dtype));
    if i + 1 == n * p {
        lemma_mod_multiples_basic(n, p);
    } else if n * p < i + 1 < (n + 1) * p {
        assert((n + 1) * p == n * p + p) by (nonlinear_arith);
        lemma_fundamental_div_mod_converse(i + 1, p, n, i + 1 - n * p);
    }
    if cfg.has_vision {
        let v = cfg.vision_config;
        let side = v.image_size as int / v.patch_size as int;
        lemma_fundamental_div_mod(v.image_size as int, v.patch_size as int);
        assert(side * v.patch_size <= v.image_size < (side + 1) * v.patch_size) by (nonlinear_arith)
            requires
                v.image_size == v.patch_size * side + v.image_size as int % v.patch_size as int,
                0 <= v.image_size as int % v.patch_size as int,
                (v.image_size as int % v.patch_size as int) < v.patch_size,
        ;
        assert(is_sqrt(root, cfg.mm_tokens_per_image as int));
        assert(root > 0) by (nonlinear_arith)
            requires
                0 <= root,
                1 <= cfg.mm_tokens_per_image < (root + 1) * (root + 1),
        ;
        let k = side / root;
        lemma_fundamental_div_mod(side, root);
        assert(k * root <= side < (k + 1) * root) by (nonlinear_arith)
            requires
                side == root * k + side % root,
                0 <= side % root < root,
        ;
    }
}

/// Features of the images follow those that were used before and never run past
/// the last: a chunk of places takes as many rows as it has, of the rows left.
pub proof fn law_image_rows_follow_those_used(
    places: usize,
    hidden: usize,
    total: usize,
    offset: usize,
    r: Result<Option<ImageSlice>, Gemma3Error>,
    rows: int,
)
    requires
        hidden > 0,
        call_ensures(Gemma3ForConditionalGeneration::forward_inner, (places, hidden, total, offset), r),
    ensures
        places == 0 ==> r == Ok::<Option<ImageSlice>, Gemma3Error>(None),
        rows > 0 && places == rows * hidden && offset + rows <= total ==> {
            &&& r matches Ok(Some(s))
            &&& s.features matches Some(f) ==> f.start == offset && f.len == rows
            &&& s.features is None <==> offset == 0 && rows == total
        },
        rows > 0 && places == rows * hidden && offset + rows > total ==> {
            &&& r matches Err(Gemma3Error::ImageTokens { start, len, total: of })
            &&& start <= offset && start <= total && (start == offset || start == total)
            &&& len == rows
            &&& of == total
        },
        (rows * hidden < places < (rows + 1) * hidden) ==> r == Err::<Option<ImageSlice>, Gemma3Error>(
            Gemma3Error::UnevenImageTokens { places, hidden },
        ),
{
    let h = hidden as int;
    if places == rows * h {
        lemma_div_multiples_vanish(rows, h);
        lemma_mod_multiples_basic(rows, h);
        lemma_mul_is_commutative(rows, h);
        assert(rows > 0 ==> places > 0) by (nonlinear_arith)
            requires
                places == rows * h,
                h > 0,
        ;
    } else if rows * h < places < (rows + 1) * h {
        assert((rows + 1) * h == rows * h + h) by (nonlinear_arith);
        lemma_fundamental_div_mod_converse(places as int, h, rows, places - rows * h);
        assert(places > 0) by (nonlinear_arith)
            requires
                places >= 0,
                rows * h < places < rows * h + h,
                places == 0 ==> rows * h < 0 < (rows + 1) * h,
                h > 0,
        ;
    }
}

/// Images after those used before: none is used twice and none is left out.
pub proof fn law_images_follow_those_used(num_images: usize, image_idx: usize, r: Option<Span>)
    requires
        call_ensures(Gemma3ForConditionalGeneration::image_slice, (num_images, image_idx), r),
    ensures
        r matches Some(s) ==> s.start == image_idx && s.start + s.len == num_images && s.len > 0 && s.start > 0,
        r is None ==> image_idx == 0 || image_idx >= num_images,
{
}

/// What a file without a vision part is read as: no vision, a window of six
/// layers, and the sizes of the configuration.
pub proof fn law_text_files_have_no_vision(g_cfg: Config, r: Gemma3Config)
    requires
        call_ensures(Gemma3ForConditionalGeneration::synthesize_text_only_config, (&g_cfg,), r),
    ensures
        !r.has_vision,
        r.text_config.sliding_window_pattern == 6,
        r.text_config.hidden_size == g_cfg.hidden_size,
        r.text_config.intermediate_size == g_cfg.intermediate_size,
        r.text_config.num_hidden_layers == g_cfg.num_hidden_layers,
        r.text_config.num_attention_heads == g_cfg.num_attention_heads,
        r.text_config.num_key_value_heads == g_cfg.num_key_value_heads,
        g_cfg.sliding_window matches Some(w) ==> r.text_config.sliding_window == w,
        g_cfg.sliding_window is None ==> r.text_config.sliding_window == g_cfg.max_position_embeddings,
        g_cfg.head_dim matches Some(d) ==> r.text_config.head_dim == d && r.text_config.query_pre_attn_scalar == d,
        g_cfg.head_dim is None ==> r.text_config.head_dim == 256 && r.text_config.query_pre_attn_scalar == 256,
        g_cfg.vocab_size matches Some(v) ==> r.text_config.vocab_size == v,
        g_cfg.vocab_size is None ==> r.text_config.vocab_size == 262_208,
        r.text_config.tie_word_embeddings <==> g_cfg.tie_word_embeddings is None || g_cfg.tie_word_embeddings->0,
        r.text_config.attention_bias <==> g_cfg.attention_bias is Some && g_cfg.attention_bias->0,
{
}

/// Embeddings are converted exactly where weights are quantized and they are
/// not in single precision already.
pub proof fn law_embeddings_of_quantized_models_are_converted(m: Gemma3ForConditionalGeneration, t: DType, r: bool, v: usize)
    requires
        call_ensures(Gemma3ForConditionalGeneration::embed_forward, (&m, t), r),
        call_ensures(Gemma3ForConditionalGeneration::get_vocab_size, (&m,), v),
    ensures
        t == DType::F32 ==> !r,
        t != DType::F32 ==> (r <==> m.is_qvar_builder || m.quantized_at_load),
        v == m.config.text_config.vocab_size,
{
}

/// An image is cut into as many whole patches as fit beside each other, each way;
/// patches do not overlap and each has a position of its own.
pub proof fn law_planned_patches(vb: VarBuilderX, cfg: VisionConfig, dtype: DType, r: Gemma3VisionEmbeddings, side: int)
    requires
        cfg.wf(),
        !vb.checkpoint.gguf,
        call_ensures(Gemma3VisionEmbeddings::new, (&vb, &cfg, dtype), r),
        side * cfg.patch_size <= cfg.image_size < (side + 1) * cfg.patch_size,
    ensures
        r.num_patches == side * side,
        r.patch_embedding.cfg.stride == cfg.patch_size && r.patch_embedding.cfg.padding == 0 && r.patch_embedding.cfg.groups == 1
            && r.patch_embedding.cfg.dilation == 1,
        r.patch_embedding.weight.shape@ == seq![cfg.hidden_size, cfg.num_channels, cfg.patch_size, cfg.patch_size],
        r.patch_embedding.weight.path@ == vb.child("patch_embedding"@).spec_path("weight"@),
        r.patch_embedding.bias is Some && r.patch_embedding.bias->0.shape@ == seq![cfg.hidden_size],
        r.position_embedding.is_table(&vb.child("position_embedding"@), Some(r.num_patches), cfg.hidden_size, dtype),
{
    let (n, d) = (cfg.image_size as int, cfg.patch_size as int);
    let rest = n - side * d;
    lemma_mul_is_distributive_add_other_way(d, side, 1);
    lemma_mul_is_commutative(side, d);
    lemma_fundamental_div_mod_converse(n, d, side, rest);
    assert(0 <= side * side) by (nonlinear_arith);
}

/// A layer of the tower: heads that share the hidden size, a feed-forward layer to
/// its width and back, both with a bias, and centred norms with one.
pub proof fn law_planned_vision_layers(vb: VarBuilderX, cfg: VisionConfig, dtype: DType, r: Gemma3VisionTransformer, i: int, head: int)
    requires
        cfg.wf(),
        !vb.checkpoint.gguf,
        call_ensures(Gemma3VisionTransformer::new, (&vb, &cfg, dtype), r),
        0 <= i < cfg.num_hidden_layers,
        head * cfg.num_attention_heads == cfg.hidden_size,
    ensures
        ({
            let l = r.layers@[i];
            let scope = vb.child(path_of("encoder.layers"@, decimal_of(i as nat)));
            let (h, n) = (cfg.hidden_size, cfg.intermediate_size);
            &&& r.layers@.len() == cfg.num_hidden_layers
            &&& l.self_attn.num_heads == cfg.num_attention_heads && l.self_attn.head_dim == head
            &&& l.self_attn.is_planned(&scope.child("self_attn"@), h, Some("out_proj"@), dtype)
            &&& l.mlp.fc1.linear matches crate::linear::LinearX::Linear(w) && w.weight.shape@ == seq![n, h] && w.bias is Some
                && w.weight.path@ == scope.child("mlp"@).child("fc1"@).spec_path("weight"@)
            &&& l.mlp.fc2.linear matches crate::linear::LinearX::Linear(w) && w.weight.shape@ == seq![h, n] && w.bias is Some
                && w.weight.path@ == scope.child("mlp"@).child("fc2"@).spec_path("weight"@)
            &&& l.input_layernorm.centred && l.post_attention_layernorm.centred && r.norm.centred
            &&& l.input_layernorm.bias is Some && l.post_attention_layernorm.bias is Some && r.norm.bias is Some
            &&& l.input_layernorm.weight.path@ == scope.child("layer_norm1"@).spec_path("weight"@)
            &&& l.post_attention_layernorm.weight.path@ == scope.child("layer_norm2"@).spec_path("weight"@)
            &&& r.norm.weight.path@ == vb.child("post_layernorm"@).spec_path("weight"@) && r.norm.weight.shape@ == seq![h]
            &&& r.embeddings.patch_embedding.weight.path@ == vb.child("embeddings"@).child("patch_embedding"@).spec_path("weight"@)
        }),
{
    assert(r.layers@[i].is_planned(&vb.child(numbered("encoder.layers"@, i)), cfg, dtype));
    lemma_div_multiples_vanish(head, cfg.num_attention_heads as int);
    lemma_mul_is_commutative(head, cfg.num_attention_heads as int);
}

/// One layer alone: the width of a head is the hidden size shared out evenly.
pub proof fn law_vision_heads_share_the_hidden_size(vb: VarBuilderX, cfg: VisionConfig, dtype: DType, r: Gemma3VisionEncoderLayer)
    requires
        cfg.num_attention_heads > 0,
        call_ensures(Gemma3VisionEncoderLayer::new, (&vb, &cfg, dtype), r),
    ensures
        r.self_attn.num_heads == cfg.num_attention_heads,
        r.self_attn.head_dim * cfg.num_attention_heads <= cfg.hidden_size < (r.self_attn.head_dim + 1) * cfg.num_attention_heads,
{
    let (h, n) = (cfg.hidden_size as int, cfg.num_attention_heads as int);
    lemma_fundamental_div_mod(h, n);
    lemma_mod_bound(h, n);
    lemma_mul_is_commutative(n, h / n);
    lemma_mul_is_distributive_add_other_way(n, h / n, 1);
}

/// Pooling takes squares of patches, side by side, as large as the root of the
/// number of tokens asks for; what is pooled is projected to the text model.
pub proof fn law_planned_projector(
    vb: VarBuilderX,
    cfg: Gemma3Config,
    dtype: DType,
    r: Gemma3MultiModalProjector,
    side: int,
    root: int,
    kernel: int,
)
    requires
        cfg.vision_config.patch_size > 0,
        cfg.mm_tokens_per_image > 0,
        !vb.checkpoint.gguf,
        call_ensures(Gemma3MultiModalProjector::new, (&vb, &cfg, dtype), r),
        side * cfg.vision_config.patch_size <= cfg.vision_config.image_size < (side + 1) * cfg.vision_config.patch_size,
        root > 0,
        root * root <= cfg.mm_tokens_per_image < (root + 1) * (root + 1),
        kernel * root <= side < (kernel + 1) * root,
    ensures
        r.patches == side,
        r.avg_pool.kernel_size == kernel && r.avg_pool.stride == kernel,
        r.weight.shape@ == seq![cfg.vision_config.hidden_size, cfg.text_config.hidden_size],
        r.weight.path@ == vb.spec_path("mm_input_projection_weight"@),
        r.norm.weight.path@ == vb.child("mm_soft_emb_norm"@).spec_path("weight"@) && r.norm.plus_one && !r.norm.centred,
        r.norm.weight.shape@ == seq![cfg.vision_config.hidden_size],
{
    let (n, d) = (cfg.vision_config.image_size as int, cfg.vision_config.patch_size as int);
    lemma_mul_is_distributive_add_other_way(d, side, 1);
    lemma_mul_is_commutative(side, d);
    lemma_fundamental_div_mod_converse(n, d, side, n - side * d);
    lemma_mul_is_distributive_add_other_way(root, kernel, 1);
    lemma_mul_is_commutative(kernel, root);
    lemma_fundamental_div_mod_converse(side, root, kernel, side - kernel * root);
    assert(is_sqrt(root, cfg.mm_tokens_per_image as int));
}

/// The parts of a text layer. Its window is missing in each layer whose number,
/// counted from 1, the pattern divides; norms add one to their weights. Layers with
/// a window use the local rotation.
pub proof fn law_planned_text_layers(
    vb: VarBuilderX,
    comm: Comm,
    text: TextConfig,
    g_cfg: Config,
    layer_idx: usize,
    dtype: DType,
    r: Result<Gemma3DecoderLayer, Gemma3Error>,
    k: int,
    mask: bool,
    pass: (bool, bool),
)
    requires
        Gemma3DecoderLayer::wf(text, g_cfg, vb.checkpoint.gguf, comm, dtype),
        layer_idx < usize::MAX,
        call_ensures(Gemma3DecoderLayer::new, (&vb, &comm, &text, &g_cfg, layer_idx, dtype), r),
        r is Ok,
        call_ensures(Gemma3DecoderLayer::forward, (&r->Ok_0, mask), pass),
    ensures
        ({
            let l = r->Ok_0;
            let h = text.hidden_size;
            let gguf = vb.checkpoint.gguf;
            let attn = if gguf { vb } else { vb.child("self_attn"@) };
            let mlp = if gguf { vb } else { vb.child("mlp"@) };
            let size = MlpSize { hidden_size: h, intermediate_size: text.intermediate_size, gate_up_merged: false, dtype };
            let single = gguf || g_cfg.higher_precision_required;
            &&& k * text.sliding_window_pattern == layer_idx + 1 ==> l.sliding_window is None
            &&& k * text.sliding_window_pattern < layer_idx + 1 < (k + 1) * text.sliding_window_pattern ==> l.sliding_window
                == Some(text.sliding_window)
            &&& l.self_attn.is_planned(&attn, comm, g_cfg, g_cfg.head_size(), l.sliding_window, dtype, false, false)
            &&& l.mlp.is_planned(&mlp, comm, size, g_cfg.quantization_config, g_cfg.quant, ""@)
            &&& l.input_layernorm.weight.path@ == vb.child("input_layernorm"@).spec_path("weight"@)
            &&& l.post_attention_layernorm.weight.path@ == vb.child("post_attention_layernorm"@).spec_path("weight"@)
            &&& l.pre_feedforward_layernorm.weight.path@ == vb.child("pre_feedforward_layernorm"@).spec_path("weight"@)
            &&& l.post_feedforward_layernorm.weight.path@ == vb.child("post_feedforward_layernorm"@).spec_path("weight"@)
            &&& l.input_layernorm.plus_one && l.post_attention_layernorm.plus_one && l.pre_feedforward_layernorm.plus_one
                && l.post_feedforward_layernorm.plus_one
            &&& l.input_layernorm.weight.shape@ == seq![h] && l.post_feedforward_layernorm.weight.shape@ == seq![h]
            &&& single ==> l.input_layernorm.dtype == DType::F32 && l.post_feedforward_layernorm.dtype == DType::F32
            &&& !single ==> l.input_layernorm.dtype == dtype && l.post_feedforward_layernorm.dtype == dtype
            &&& pass.0 == mask && (pass.1 <==> l.sliding_window is Some)
        }),
{
    let (n, p) = (layer_idx + 1, text.sliding_window_pattern as int);
    if k * p == n {
        lemma_mod_multiples_basic(k, p);
    }
    if k * p < n < (k + 1) * p {
        lemma_mul_is_distributive_add_other_way(p, k, 1);
        lemma_mul_is_commutative(k, p);
        lemma_fundamental_div_mod_converse(n, p, k, n - k * p);
    }
}

} // verus!
