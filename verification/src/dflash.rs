//! A draft model that fills a block of tokens from hidden states of chosen
//! layers of its target.

use crate::checkpoint::{dims2, dims3, DType, TensorRead, VarBuilderX};
use crate::config::Config;
use crate::distributed::{Comm, Shard, Span};
use crate::math::mul_fits;
use crate::mlp::{MlpSize, MLP};
use crate::others::{rms_norm, NormX};
use crate::parallel::{full_size, ReplicatedLinear};
use crate::text::{contains_part, decimal, decimal_of, has_part, join, path_of};
use vstd::arithmetic::div_mod::*;
use vstd::arithmetic::mul::*;
use vstd::prelude::*;

verus! {

/// What a configuration says of drafting.
#[derive(Debug, Clone)]
pub struct DFlashConfig {
    pub block_size: Option<usize>,
    pub mask_token_id: Option<u32>,
    pub target_layer_ids: Option<Vec<usize>>,
    pub conv_group_size: Option<usize>,
    pub conv_kernel_size: Option<usize>,
    pub selector_rank: Option<usize>,
    pub selector_top_k: Option<usize>,
}

/// A draft model.
#[derive(Debug, Clone)]
pub struct DFlashModelConfig {
    pub architectures: Option<Vec<String>>,
    pub hidden_size: usize,
    pub num_hidden_layers: usize,
    pub num_attention_heads: usize,
    pub num_key_value_heads: usize,
    pub intermediate_size: usize,
    pub head_dim: Option<usize>,
    pub vocab_size: usize,
    pub max_position_embeddings: usize,
    pub attention_bias: Option<bool>,
    pub block_size: Option<usize>,
    pub num_target_layers: usize,
    pub dflash_config: Option<DFlashConfig>,
    pub sliding_window: Option<usize>,
    pub is_causal: Option<bool>,
}

/// Why a draft model cannot be planned or run.
#[derive(Debug, Clone, Copy, PartialEq, Eq, Structural)]
pub enum DFlashError {
    MissingConfig,
    MissingConvGroupSize,
    MissingConvKernelSize,
    MissingSelectorRank,
    MissingSelectorTopK,
    /// Convolution groups do not divide the hidden size.
    GroupSize { group_size: usize, hidden_size: usize },
    /// The feed-forward layer cannot be planned.
    Mlp,
    LayerHiddens { expected: usize, got: usize },
    NoSelector,
}

/// The place of draft layer `i` of `draft` among `target` layers: the middle
/// for a single one, else evenly from layer 1 to the fourth layer from the end.
pub open spec fn target_layer(target: int, draft: int, i: int) -> int {
    if draft == 1 { target / 2 } else { 1 + (i * (target - 4)) / (draft - 1) }
}

/// Which target layers feed the draft model.
pub fn build_target_layer_ids(num_target_layers: usize, num_draft_layers: usize) -> (r: Vec<usize>)
    requires
        num_draft_layers != 1 ==> num_target_layers >= 4,
        num_draft_layers > 1 ==> (num_draft_layers - 1) * (num_target_layers - 4) <= usize::MAX,
    ensures
        r@.len() == num_draft_layers,
        forall|i: int| 0 <= i < num_draft_layers
            ==> #[trigger] r@[i] == target_layer(num_target_layers as int, num_draft_layers as int, i),
{
    let mut v: Vec<usize> = Vec::new();
    if num_draft_layers == 1 {
        v.push(num_target_layers / 2);
        return v;
    }
    let start: usize = 1;
    let end: usize = num_target_layers - 3;
    let span: usize = end - start;
    let mut i: usize = 0;
    while i < num_draft_layers
        invariant
            num_draft_layers != 1,
            num_target_layers >= 4,
            num_draft_layers > 1 ==> (num_draft_layers - 1) * (num_target_layers - 4) <= usize::MAX,
            span == num_target_layers - 4,
            start == 1,
            i <= num_draft_layers,
            v@.len() == i,
            forall|j: int| 0 <= j < i ==> #[trigger] v@[j] == target_layer(num_target_layers as int, num_draft_layers as int, j),
        decreases num_draft_layers - i,
    {
        proof {
            lemma_place(num_target_layers as int, num_draft_layers as int, i as int);
            assert(i * span <= (num_draft_layers - 1) * span) by (nonlinear_arith)
                requires
                    i <= num_draft_layers - 1,
                    span >= 0,
            ;
        }
        v.push(start + (i * span) / (num_draft_layers - 1));
        i = i + 1;
    }
    v
}

proof fn lemma_place(target: int, draft: int, i: int)
    requires
        target >= 4,
        draft >= 2,
        0 <= i < draft,
    ensures
        1 <= target_layer(target, draft, i) <= target - 3,
        i == 0 ==> target_layer(target, draft, i) == 1,
        i == draft - 1 ==> target_layer(target, draft, i) == target - 3,
{
    let span = target - 4;
    assert(0 <= i * span <= (draft - 1) * span) by (nonlinear_arith)
        requires
            0 <= i <= draft - 1,
            span >= 0,
    ;
    lemma_div_is_ordered(i * span, (draft - 1) * span, draft - 1);
    lemma_div_pos_is_pos(i * span, draft - 1);
    lemma_div_multiples_vanish(span, draft - 1);
    lemma_mul_is_commutative(draft - 1, span);
    if i == 0 {
        lemma_mul_basics(span);
        lemma_basic_div(0, draft - 1);
    }
}

/// Several draft layers look at target layers in order, from the first to the
/// fourth from the end.
pub proof fn law_target_layers_span_the_target(target: nat, draft: nat, i: nat, j: nat)
    requires
        target >= 4,
        draft >= 2,
        i <= j < draft,
    ensures
        target_layer(target as int, draft as int, 0) == 1,
        target_layer(target as int, draft as int, draft - 1) == target - 3,
        1 <= target_layer(target as int, draft as int, i as int) <= target_layer(target as int, draft as int, j as int),
        target_layer(target as int, draft as int, j as int) <= target - 3,
{
    lemma_place(target as int, draft as int, 0);
    lemma_place(target as int, draft as int, draft - 1);
    lemma_place(target as int, draft as int, i as int);
    lemma_place(target as int, draft as int, j as int);
    let span = target - 4;
    assert(i * span <= j * span) by (nonlinear_arith)
        requires
            i <= j,
            span >= 0,
    ;
    lemma_div_is_ordered(i * span, j * span, draft - 1);
}

impl DFlashModelConfig {
    /// Whether the model has convolutions and a candidate selector.
    pub open spec fn second(self) -> bool {
        ||| self.architectures matches Some(a) && a@.len() > 0 && has_part(a@[0]@, "DFlash2"@)
        ||| self.dflash_config matches Some(c) && c.selector_top_k is Some
    }

    pub fn is_dflash2(&self) -> (r: bool)
        ensures
            r == self.second(),
    {
        let named = match &self.architectures {
            Some(a) => a.len() > 0 && contains_part(a[0].as_str(), "DFlash2"),
            None => false,
        };
        let selects = match &self.dflash_config {
            Some(c) => c.selector_top_k.is_some(),
            None => false,
        };
        named || selects
    }

    pub open spec fn head_width(self) -> int {
        match self.head_dim {
            Some(d) => d as int,
            None => self.hidden_size as int / self.num_attention_heads as int,
        }
    }

    pub fn head_dim(&self) -> (r: usize)
        requires
            self.head_dim is Some || self.num_attention_heads > 0,
        ensures
            r == self.head_width(),
    {
        match self.head_dim {
            Some(d) => d,
            None => self.hidden_size / self.num_attention_heads,
        }
    }

    /// Tokens that are filled at a time.
    pub open spec fn block(self) -> usize {
        match self.block_size {
            Some(n) => n,
            None => match self.dflash_config {
                Some(c) => match c.block_size {
                    Some(n) => n,
                    None => 1,
                },
                None => 1,
            },
        }
    }

    pub fn block_size(&self) -> (r: usize)
        ensures
            r == self.block(),
    {
        match self.block_size {
            Some(n) => n,
            None => match &self.dflash_config {
                Some(c) => match c.block_size {
                    Some(n) => n,
                    None => 1,
                },
                None => 1,
            },
        }
    }

    /// Whether the configuration names the target layers itself.
    pub open spec fn names_layers(self) -> bool {
        self.dflash_config matches Some(c) && c.target_layer_ids is Some
    }

    /// Whether the target layers are named or can be computed.
    pub open spec fn layers_known(self) -> bool {
        ||| self.names_layers()
        ||| (self.num_hidden_layers != 1 ==> self.num_target_layers >= 4)
            && (self.num_hidden_layers > 1 ==> (self.num_hidden_layers - 1) * (self.num_target_layers - 4) <= usize::MAX)
    }

    /// Number of target layers.
    pub open spec fn target_count(self) -> nat {
        if self.names_layers() { self.dflash_config->0.target_layer_ids->0@.len() } else { self.num_hidden_layers as nat }
    }

    /// Whether `ids` are the target layers.
    pub open spec fn are_targets(self, ids: Seq<usize>) -> bool {
        if self.names_layers() {
            ids == self.dflash_config->0.target_layer_ids->0@
        } else {
            &&& ids.len() == self.num_hidden_layers
            &&& forall|i: int| 0 <= i < ids.len()
                ==> #[trigger] ids[i] == target_layer(self.num_target_layers as int, self.num_hidden_layers as int, i)
        }
    }

    pub fn target_layer_ids(&self) -> (r: Vec<usize>)
        requires
            self.layers_known(),
        ensures
            self.are_targets(r@),
    {
        match &self.dflash_config {
            Some(c) => match &c.target_layer_ids {
                Some(ids) => return ids.clone(),
                None => {},
            },
            None => {},
        }
        build_target_layer_ids(self.num_target_layers, self.num_hidden_layers)
    }

    pub fn mask_token_id(&self) -> (r: Option<u32>)
        ensures
            r == match self.dflash_config {
                Some(c) => c.mask_token_id,
                None => None,
            },
    {
        match &self.dflash_config {
            Some(c) => c.mask_token_id,
            None => None,
        }
    }

    /// The general configuration of the model: plain, unquantized, without
    /// experts. The caller says whether the device needs single precision.
    pub fn to_config(&self, higher_precision_required: bool) -> (r: Config)
        ensures
            r.architectures is None,
            r.head_dim == self.head_dim,
            r.num_attention_heads == self.num_attention_heads,
            r.num_key_value_heads == self.num_key_value_heads,
            r.max_position_embeddings == self.max_position_embeddings,
            r.hidden_size == self.hidden_size,
            r.num_hidden_layers == self.num_hidden_layers,
            r.intermediate_size == self.intermediate_size,
            r.vocab_size == Some(self.vocab_size),
            r.attention_bias == self.attention_bias,
            r.qkv_bias is None && r.attn_output_gate is None && r.tie_word_embeddings is None,
            r.sliding_window is None && r.quant is None && r.moe_cfg is None && r.quantization_config is None,
            r.extra_config_json is None && r.expert_dtype is None,
            !r.is_f16_mode,
            r.higher_precision_required == higher_precision_required,
            !r.fp8_keys,
    {
        Config {
            architectures: None,
            head_dim: self.head_dim,
            num_attention_heads: self.num_attention_heads,
            num_key_value_heads: self.num_key_value_heads,
            max_position_embeddings: self.max_position_embeddings,
            hidden_size: self.hidden_size,
            num_hidden_layers: self.num_hidden_layers,
            intermediate_size: self.intermediate_size,
            vocab_size: Some(self.vocab_size),
            attention_bias: self.attention_bias,
            qkv_bias: None,
            attn_output_gate: None,
            tie_word_embeddings: None,
            sliding_window: None,
            quant: None,
            moe_cfg: None,
            quantization_config: None,
            extra_config_json: None,
            expert_dtype: None,
            is_f16_mode: false,
            higher_precision_required,
            fp8_keys: false,
        }
    }
}

/// Whether key `j` is hidden from the query at position `at`: outside the
/// window around it, or later in a causal model.
pub open spec fn hidden(at: int, j: int, window: Option<usize>, is_causal: bool) -> bool {
    ||| is_causal && j > at
    ||| window matches Some(w) && (at - j >= w || j - at >= w)
}

/// Which keys are hidden from which of `q_len` queries behind a context of
/// `ctx_len`, row by row; `None` where no key is hidden.
pub fn build_dflash_attn_bias(ctx_len: usize, q_len: usize, sliding_window: Option<usize>, is_causal: bool) -> (r: Option<Vec<bool>>)
    requires
        2 * (ctx_len + q_len) <= usize::MAX,
        q_len * (ctx_len + q_len) <= usize::MAX,
    ensures
        r is None <==> !is_causal && (sliding_window matches Some(w) ==> ctx_len + q_len <= w),
        r matches Some(b) ==> {
            let kv_len = ctx_len + q_len;
            &&& b@.len() == q_len * kv_len
            &&& forall|i: int, j: int| 0 <= i < q_len && 0 <= j < kv_len
                ==> #[trigger] b@[crate::parallel::row_major(kv_len, i, j)] == hidden(ctx_len + i, j, sliding_window, is_causal)
        },
{
    let kv_len: usize = ctx_len + q_len;
    let window: usize = match sliding_window {
        Some(w) => w,
        None => usize::MAX,
    };
    if !is_causal && kv_len <= window {
        return None;
    }
    let mut bias: Vec<bool> = Vec::new();
    let mut i: usize = 0;
    proof {
        lemma_mul_basics(kv_len as int);
    }
    while i < q_len
        invariant
            i <= q_len,
            kv_len == ctx_len + q_len,
            2 * kv_len <= usize::MAX,
            q_len * kv_len <= usize::MAX,
            window == match sliding_window { Some(w) => w, None => usize::MAX },
            is_causal || window < kv_len,
            bias@.len() == i * kv_len,
            forall|a: int, j: int| 0 <= a < i && 0 <= j < kv_len
                ==> #[trigger] bias@[crate::parallel::row_major(kv_len as int, a, j)] == hidden(ctx_len + a, j, sliding_window, is_causal),
        decreases q_len - i,
    {
        let at: usize = ctx_len + i;
        let oldest: usize = if at + 1 > window { at + 1 - window } else { 0 };
        let newest: usize = if is_causal {
            at
        } else {
            let far: usize = at + if window > 0 { window - 1 } else { 0 };
            if far < kv_len - 1 { far } else { kv_len - 1 }
        };
        let ghost before = bias@;
        let mut j: usize = 0;
        while j < kv_len
            invariant
                i < q_len,
                j <= kv_len,
                kv_len == ctx_len + q_len,
                at == ctx_len + i,
                2 * kv_len <= usize::MAX,
                window == match sliding_window { Some(w) => w, None => usize::MAX },
                is_causal || window < kv_len,
                oldest == if at + 1 > window { at + 1 - window } else { 0 },
                newest == if is_causal { at as int } else {
                    let far = at + if window > 0 { window - 1 } else { 0 };
                    if far < kv_len - 1 { far as int } else { kv_len - 1 }
                },
                before.len() == i * kv_len,
                bias@.len() == before.len() + j,
                forall|k: int| 0 <= k < before.len() ==> bias@[k] == before[k],
                forall|k: int| 0 <= k < j ==> #[trigger] bias@[before.len() + k] == hidden(at as int, k, sliding_window, is_causal),
            decreases kv_len - j,
        {
            let hide = j < oldest || j > newest || (is_causal && j > at);
            assert(hide == hidden(at as int, j as int, sliding_window, is_causal));
            bias.push(hide);
            j = j + 1;
        }
        proof {
            assert(i * kv_len + kv_len == (i + 1) * kv_len) by (nonlinear_arith);
            assert forall|a: int, k: int| 0 <= a < i + 1 && 0 <= k < kv_len implies
                #[trigger] bias@[crate::parallel::row_major(kv_len as int, a, k)] == hidden(ctx_len + a, k, sliding_window, is_causal) by {
                if a < i {
                    assert(0 <= a * kv_len + k < i * kv_len) by (nonlinear_arith)
                        requires
                            0 <= a < i,
                            0 <= k < kv_len,
                    ;
                    assert(before[crate::parallel::row_major(kv_len as int, a, k)] == hidden(ctx_len + a, k, sliding_window, is_causal));
                } else {
                    assert(crate::parallel::row_major(kv_len as int, a, k) == before.len() + k);
                }
            }
        }
        i = i + 1;
    }
    Some(bias)
}

/// Without causality, hiding is mutual between positions, and a query sees
/// itself in every window that is not empty.
pub proof fn law_window_is_symmetric(a: int, b: int, window: Option<usize>)
    ensures
        hidden(a, b, window, false) == hidden(b, a, window, false),
        hidden(a, a, window, false) == (window == Some(0usize)),
        hidden(a, b, window, false) ==> hidden(a, b, window, true),
{
}

/// A convolution over the tokens of a block whose kernel depends on the
/// tokens.
pub struct DFlashGroupedConv {
    pub base_kernel: TensorRead,
    pub kernel_projection: ReplicatedLinear,
    pub block_size: usize,
    pub taps: usize,
    pub num_groups: usize,
}

impl DFlashGroupedConv {
    /// Whether this is the convolution in the scope.
    pub open spec fn is_planned(&self, vb: &VarBuilderX, hidden_size: usize, group_size: usize, taps: usize, block_size: usize, dtype: DType) -> bool {
        let groups = hidden_size / group_size;
        &&& self.base_kernel.reads(vb.spec_path("base_kernel"@), seq![2usize, taps, hidden_size], Shard::whole(), vb.checkpoint.dtype)
        &&& self.kernel_projection.linear.is_layer(
            &vb.child("kernel_projection"@), full_size(hidden_size, (2 * taps * groups) as usize, false, dtype), None, None)
        &&& self.block_size == block_size
        &&& self.taps == taps
        &&& self.num_groups == groups
    }

    /// Why the convolution cannot be planned, if so.
    pub open spec fn refusal(hidden_size: usize, group_size: usize) -> Option<DFlashError> {
        if group_size == 0 || hidden_size % group_size != 0 {
            Some(DFlashError::GroupSize { group_size, hidden_size })
        } else {
            None
        }
    }

    pub fn new(vb: &VarBuilderX, hidden_size: usize, group_size: usize, taps: usize, block_size: usize, dtype: DType) -> (r: Result<Self, DFlashError>)
        requires
            2 * taps * hidden_size <= usize::MAX,
            2 * taps <= usize::MAX,
        ensures
            match Self::refusal(hidden_size, group_size) {
                Some(e) => r == Err::<Self, DFlashError>(e),
                None => r matches Ok(c) && c.is_planned(vb, hidden_size, group_size, taps, block_size, dtype),
            },
    {
        if group_size == 0 || hidden_size % group_size != 0 {
            return Err(DFlashError::GroupSize { group_size, hidden_size });
        }
        let num_groups: usize = hidden_size / group_size;
        proof {
            lemma_div_is_ordered_by_denominator(hidden_size as int, 1, group_size as int);
            lemma_div_basics(hidden_size as int);
            assert(2 * taps * num_groups <= 2 * taps * hidden_size) by (nonlinear_arith)
                requires
                    num_groups <= hidden_size,
            ;
        }
        let base_kernel = vb.get("base_kernel", dims3(2, taps, hidden_size));
        let kernel_projection = ReplicatedLinear::plain_below(
            vb, "kernel_projection", hidden_size, 2 * taps * num_groups, false, dtype);
        Ok(DFlashGroupedConv { base_kernel, kernel_projection, block_size, taps, num_groups })
    }

    /// The shape of the projected coefficients of `rows` tokens: the first
    /// half is for the side before the layer, the second for the one after.
    pub fn prepare(&self, rows: usize) -> (r: [usize; 4])
        ensures
            r@ =~= seq![rows, 2usize, self.taps, self.num_groups],
    {
        [rows, 2, self.taps, self.num_groups]
    }
}

/// Chooses among the best candidates of each position.
pub struct DFlashCandidateSelector {
    pub predecessor_codebook: TensorRead,
    pub successor_codebook: TensorRead,
    pub hidden_projection: ReplicatedLinear,
    pub top_k: usize,
}

impl DFlashCandidateSelector {
    /// Whether this is the selector in the scope.
    pub open spec fn is_planned(&self, vb: &VarBuilderX, hidden_size: usize, vocab_size: usize, rank: usize, top_k: usize, dtype: DType) -> bool {
        &&& self.predecessor_codebook.reads(
            vb.spec_path("predecessor_codebook"@), seq![vocab_size, rank], Shard::whole(), vb.checkpoint.dtype)
        &&& self.successor_codebook.reads(
            vb.spec_path("successor_codebook"@), seq![vocab_size, rank], Shard::whole(), vb.checkpoint.dtype)
        &&& self.hidden_projection.linear.is_layer(
            &vb.child("hidden_projection"@), full_size(hidden_size, rank, false, dtype), None, None)
        &&& self.top_k == top_k
    }

    pub fn new(vb: &VarBuilderX, hidden_size: usize, vocab_size: usize, rank: usize, top_k: usize, dtype: DType) -> (r: Self)
        ensures
            r.is_planned(vb, hidden_size, vocab_size, rank, top_k, dtype),
    {
        DFlashCandidateSelector {
            predecessor_codebook: vb.get("predecessor_codebook", dims2(vocab_size, rank)),
            successor_codebook: vb.get("successor_codebook", dims2(vocab_size, rank)),
            hidden_projection: ReplicatedLinear::plain_below(vb, "hidden_projection", hidden_size, rank, false, dtype),
            top_k,
        }
    }
}

/// Attention of draft tokens over context and each other.
pub struct DFlashAttention {
    pub q_proj: ReplicatedLinear,
    pub k_proj: ReplicatedLinear,
    pub v_proj: ReplicatedLinear,
    pub o_proj: ReplicatedLinear,
    pub q_norm: NormX,
    pub k_norm: NormX,
    pub num_heads: usize,
    pub num_kv_heads: usize,
    pub head_dim: usize,
    pub sliding_window: Option<usize>,
    pub is_causal: bool,
}

/// How a pass of draft attention is laid out.
pub struct DraftPass {
    pub q_shape: [usize; 4],
    pub kv_shape: [usize; 4],
    /// How often each key-value head is repeated, where it is.
    pub repeat: Option<usize>,
    /// The last rotations, for the queries, where there are more of them.
    pub q_rotations: Option<Span>,
    /// Which keys are hidden, where any is.
    pub hidden: Option<Vec<bool>>,
}

impl DFlashAttention {
    /// Sizes that fit the machine.
    pub open spec fn fits(cfg: DFlashModelConfig) -> bool {
        &&& cfg.head_dim is Some || cfg.num_attention_heads > 0
        &&& cfg.num_attention_heads * cfg.head_width() <= usize::MAX
        &&& cfg.num_key_value_heads * cfg.head_width() <= usize::MAX
    }

    /// Whether this is the layer in the scope.
    pub open spec fn is_planned(&self, vb: &VarBuilderX, cfg: DFlashModelConfig, dtype: DType) -> bool {
        let d = cfg.head_width() as usize;
        let h = cfg.hidden_size;
        let q = (cfg.num_attention_heads * cfg.head_width()) as usize;
        let kv = (cfg.num_key_value_heads * cfg.head_width()) as usize;
        &&& self.q_proj.linear.is_layer(&vb.child("q_proj"@), full_size(h, q, false, dtype), None, None)
        &&& self.k_proj.linear.is_layer(&vb.child("k_proj"@), full_size(h, kv, false, dtype), None, None)
        &&& self.v_proj.linear.is_layer(&vb.child("v_proj"@), full_size(h, kv, false, dtype), None, None)
        &&& self.o_proj.linear.is_layer(&vb.child("o_proj"@), full_size(q, h, false, dtype), None, None)
        &&& self.q_norm.is_rms(&vb.child("q_norm"@), d, DType::F32, false, Shard::whole())
        &&& self.k_norm.is_rms(&vb.child("k_norm"@), d, DType::F32, false, Shard::whole())
        &&& self.num_heads == cfg.num_attention_heads
        &&& self.num_kv_heads == cfg.num_key_value_heads
        &&& self.head_dim == d
        &&& self.sliding_window == cfg.sliding_window
        &&& self.is_causal == (cfg.is_causal == Some(true))
    }

    pub fn new(vb: &VarBuilderX, config: &DFlashModelConfig, dtype: DType) -> (r: Self)
        requires
            Self::fits(*config),
        ensures
            r.is_planned(vb, *config, dtype),
    {
        let d: usize = config.head_dim();
        let h: usize = config.hidden_size;
        let q: usize = config.num_attention_heads * d;
        let kv: usize = config.num_key_value_heads * d;
        let (qn, kn) = (vb.pp("q_norm"), vb.pp("k_norm"));
        DFlashAttention {
            q_proj: ReplicatedLinear::plain_below(vb, "q_proj", h, q, false, dtype),
            k_proj: ReplicatedLinear::plain_below(vb, "k_proj", h, kv, false, dtype),
            v_proj: ReplicatedLinear::plain_below(vb, "v_proj", h, kv, false, dtype),
            o_proj: ReplicatedLinear::plain_below(vb, "o_proj", q, h, false, dtype),
            q_norm: rms_norm(d, &qn, DType::F32, false),
            k_norm: rms_norm(d, &kn, DType::F32, false),
            num_heads: config.num_attention_heads,
            num_kv_heads: config.num_key_value_heads,
            head_dim: d,
            sliding_window: config.sliding_window,
            is_causal: match config.is_causal {
                Some(b) => b,
                None => false,
            },
        }
    }

    /// Lays out a pass of `q_len` tokens behind a context of `ctx_len`, with
    /// `rotations` rotations at hand.
    pub fn forward(&self, ctx_len: usize, q_len: usize, rotations: usize) -> (r: DraftPass)
        requires
            self.num_kv_heads > 0,
            2 * (ctx_len + q_len) <= usize::MAX,
            q_len * (ctx_len + q_len) <= usize::MAX,
        ensures
            r.q_shape@ =~= seq![1usize, q_len, self.num_heads, self.head_dim],
            r.kv_shape@ =~= seq![1usize, (ctx_len + q_len) as usize, self.num_kv_heads, self.head_dim],
            r.repeat == if self.num_heads / self.num_kv_heads > 1 { Some(self.num_heads / self.num_kv_heads) } else { None },
            r.q_rotations == if rotations > q_len {
                Some(Span { start: (rotations - q_len) as usize, len: q_len })
            } else {
                None
            },
            r.hidden is None <==> !self.is_causal && (self.sliding_window matches Some(w) ==> ctx_len + q_len <= w),
            r.hidden matches Some(b) ==> b@.len() == q_len * (ctx_len + q_len) && forall|i: int, j: int|
                0 <= i < q_len && 0 <= j < ctx_len + q_len
                    ==> #[trigger] b@[crate::parallel::row_major(ctx_len + q_len, i, j)]
                    == hidden(ctx_len + i, j, self.sliding_window, self.is_causal),
    {
        let groups: usize = self.num_heads / self.num_kv_heads;
        DraftPass {
            q_shape: [1, q_len, self.num_heads, self.head_dim],
            kv_shape: [1, ctx_len + q_len, self.num_kv_heads, self.head_dim],
            repeat: if groups > 1 { Some(groups) } else { None },
            q_rotations: if rotations > q_len { Some(Span { start: rotations - q_len, len: q_len }) } else { None },
            hidden: build_dflash_attn_bias(ctx_len, q_len, self.sliding_window, self.is_causal),
        }
    }
}

/// A layer of the draft model.
pub struct DFlashDecoderLayer {
    pub self_attn: DFlashAttention,
    pub mlp: MLP,
    pub input_layernorm: NormX,
    pub post_attention_layernorm: NormX,
    pub attention_conv: Option<DFlashGroupedConv>,
    pub mlp_conv: Option<DFlashGroupedConv>,
}

impl DFlashModelConfig {
    pub open spec fn mlp_size(self, dtype: DType) -> MlpSize {
        MlpSize { hidden_size: self.hidden_size, intermediate_size: self.intermediate_size, gate_up_merged: false, dtype }
    }

    /// Whether layers of this model can be planned.
    pub open spec fn wf(self, comm: Comm, gguf: bool, dtype: DType) -> bool {
        &&& DFlashAttention::fits(self)
        &&& self.mlp_size(dtype).wf(comm, gguf, None)
        &&& self.dflash_config matches Some(c) ==> (c.conv_kernel_size matches Some(taps)
            ==> 2 * taps * self.hidden_size <= usize::MAX && 2 * taps <= usize::MAX)
    }

    /// Why layers cannot be planned, if so.
    pub open spec fn layer_refusal(self) -> Option<DFlashError> {
        if !self.second() {
            None
        } else {
            match self.dflash_config {
                None => Some(DFlashError::MissingConfig),
                Some(c) => if c.conv_group_size is None {
                    Some(DFlashError::MissingConvGroupSize)
                } else if c.conv_kernel_size is None {
                    Some(DFlashError::MissingConvKernelSize)
                } else {
                    DFlashGroupedConv::refusal(self.hidden_size, c.conv_group_size->0)
                },
            }
        }
    }

    /// Why the candidate selector cannot be planned, if so.
    pub open spec fn selector_refusal(self) -> Option<DFlashError> {
        if !self.second() {
            None
        } else {
            match self.dflash_config {
                None => Some(DFlashError::MissingConfig),
                Some(c) => if c.selector_rank is None {
                    Some(DFlashError::MissingSelectorRank)
                } else if c.selector_top_k is None {
                    Some(DFlashError::MissingSelectorTopK)
                } else {
                    None
                },
            }
        }
    }
}

impl DFlashDecoderLayer {
    /// Whether this is the layer in the scope.
    pub open spec fn is_planned(&self, vb: &VarBuilderX, comm: Comm, cfg: DFlashModelConfig, dtype: DType) -> bool {
        let h = cfg.hidden_size;
        let c = cfg.dflash_config->0;
        &&& self.self_attn.is_planned(&vb.child("self_attn"@), cfg, dtype)
        &&& MLP::planned(Ok(self.mlp), &vb.child("mlp"@), comm, cfg.mlp_size(dtype), None, None, ""@)
        &&& self.input_layernorm.is_rms(&vb.child("input_layernorm"@), h, DType::F32, false, Shard::whole())
        &&& self.post_attention_layernorm.is_rms(&vb.child("post_attention_layernorm"@), h, DType::F32, false, Shard::whole())
        &&& self.attention_conv is Some <==> cfg.second()
        &&& self.mlp_conv is Some <==> cfg.second()
        &&& cfg.second() ==> {
            &&& self.attention_conv->0.is_planned(
                &vb.child("attention_conv"@), h, c.conv_group_size->0, c.conv_kernel_size->0, cfg.block(), dtype)
            &&& self.mlp_conv->0.is_planned(
                &vb.child("mlp_conv"@), h, c.conv_group_size->0, c.conv_kernel_size->0, cfg.block(), dtype)
        }
    }

    pub fn new(vb: &VarBuilderX, comm: &Comm, config: &DFlashModelConfig, dtype: DType) -> (r: Result<Self, DFlashError>)
        requires
            config.wf(*comm, vb.checkpoint.gguf, dtype),
        ensures
            match config.layer_refusal() {
                Some(e) => r == Err::<Self, DFlashError>(e),
                None => r matches Ok(l) && l.is_planned(vb, *comm, *config, dtype),
            },
    {
        let (attn_vb, mlp_vb) = (vb.pp("self_attn"), vb.pp("mlp"));
        let self_attn = DFlashAttention::new(&attn_vb, config, dtype);
        let size = MlpSize {
            hidden_size: config.hidden_size,
            intermediate_size: config.intermediate_size,
            gate_up_merged: false,
            dtype,
        };
        let mlp = match MLP::new(&mlp_vb, comm, size, &None, &None, "") {
            Ok(m) => m,
            Err(_) => return Err(DFlashError::Mlp),
        };
        let (in_vb, post_vb) = (vb.pp("input_layernorm"), vb.pp("post_attention_layernorm"));
        let input_layernorm = rms_norm(config.hidden_size, &in_vb, DType::F32, false);
        let post_attention_layernorm = rms_norm(config.hidden_size, &post_vb, DType::F32, false);
        if !config.is_dflash2() {
            return Ok(
                DFlashDecoderLayer {
                    self_attn,
                    mlp,
                    input_layernorm,
                    post_attention_layernorm,
                    attention_conv: None,
                    mlp_conv: None,
                },
            );
        }
        let c = match &config.dflash_config {
            Some(c) => c,
            None => return Err(DFlashError::MissingConfig),
        };
        let group_size: usize = match c.conv_group_size {
            Some(n) => n,
            None => return Err(DFlashError::MissingConvGroupSize),
        };
        let taps: usize = match c.conv_kernel_size {
            Some(n) => n,
            None => return Err(DFlashError::MissingConvKernelSize),
        };
        let block: usize = config.block_size();
        let (ac_vb, mc_vb) = (vb.pp("attention_conv"), vb.pp("mlp_conv"));
        let attention_conv = match DFlashGroupedConv::new(&ac_vb, config.hidden_size, group_size, taps, block, dtype) {
            Ok(c) => c,
            Err(e) => return Err(e),
        };
        let mlp_conv = match DFlashGroupedConv::new(&mc_vb, config.hidden_size, group_size, taps, block, dtype) {
            Ok(c) => c,
            Err(e) => return Err(e),
        };
        Ok(
            DFlashDecoderLayer {
                self_attn,
                mlp,
                input_layernorm,
                post_attention_layernorm,
                attention_conv: Some(attention_conv),
                mlp_conv: Some(mlp_conv),
            },
        )
    }
}

/// The scope of layer `i`.
pub open spec fn layer_name(i: int) -> Seq<char> {
    path_of("layers"@, decimal_of(i as nat))
}

/// A draft model.
pub struct DFlashDraftModel {
    pub fc: ReplicatedLinear,
    pub hidden_norm: NormX,
    pub layers: Vec<DFlashDecoderLayer>,
    pub norm: NormX,
    pub target_layer_ids: Vec<usize>,
    pub block_size: usize,
    pub mask_token_id: Option<u32>,
    pub dtype: DType,
    pub candidate_selector: Option<DFlashCandidateSelector>,
}

impl DFlashDraftModel {
    /// Why the model cannot be planned, if so.
    pub open spec fn refusal(cfg: DFlashModelConfig) -> Option<DFlashError> {
        if cfg.num_hidden_layers > 0 && cfg.layer_refusal() is Some {
            cfg.layer_refusal()
        } else {
            cfg.selector_refusal()
        }
    }

    /// Whether this is the model in the scope.
    pub open spec fn is_planned(&self, vb: &VarBuilderX, comm: Comm, cfg: DFlashModelConfig, dtype: DType) -> bool {
        let h = cfg.hidden_size;
        let c = cfg.dflash_config->0;
        &&& cfg.are_targets(self.target_layer_ids@)
        &&& self.fc.linear.is_layer(
            &vb.child("fc"@), full_size((self.target_layer_ids@.len() * h) as usize, h, false, dtype), None, None)
        &&& self.hidden_norm.is_rms(&vb.child("hidden_norm"@), h, DType::F32, false, Shard::whole())
        &&& self.layers@.len() == cfg.num_hidden_layers
        &&& forall|i: int| 0 <= i < self.layers@.len()
            ==> (#[trigger] self.layers@[i]).is_planned(&vb.child(layer_name(i)), comm, cfg, dtype)
        &&& self.norm.is_rms(&vb.child("norm"@), h, DType::F32, false, Shard::whole())
        &&& self.block_size == cfg.block()
        &&& self.mask_token_id == match cfg.dflash_config {
            Some(c) => c.mask_token_id,
            None => None,
        }
        &&& self.dtype == dtype
        &&& self.candidate_selector is Some <==> cfg.second()
        &&& cfg.second() ==> self.candidate_selector->0.is_planned(
            &vb.child("candidate_selector"@), h, cfg.vocab_size, c.selector_rank->0, c.selector_top_k->0, dtype)
    }

    /// Whether a model can be planned.
    pub fn can_plan(config: &DFlashModelConfig, comm: &Comm, gguf: bool, dtype: DType) -> (r: bool)
        ensures
            r == {
                &&& config.wf(*comm, gguf, dtype)
                &&& config.layers_known()
                &&& config.target_count() * config.hidden_size <= usize::MAX
            },
    {
        let named: Option<usize> = match &config.dflash_config {
            Some(c) => match &c.target_layer_ids {
                Some(ids) => Some(ids.len()),
                None => None,
            },
            None => None,
        };
        let known = match named {
            Some(_) => true,
            None => (config.num_hidden_layers == 1 || config.num_target_layers >= 4)
                && (config.num_hidden_layers <= 1 || mul_fits(config.num_hidden_layers - 1, config.num_target_layers - 4)),
        };
        let targets: usize = match named {
            Some(n) => n,
            None => config.num_hidden_layers,
        };
        if !known || !mul_fits(targets, config.hidden_size) || (config.head_dim.is_none() && config.num_attention_heads == 0) {
            return false;
        }
        let width: usize = config.head_dim();
        let taps_fit = match &config.dflash_config {
            Some(c) => match c.conv_kernel_size {
                Some(taps) => mul_fits(2, taps) && mul_fits(2 * taps, config.hidden_size),
                None => true,
            },
            None => true,
        };
        let size = MlpSize {
            hidden_size: config.hidden_size, intermediate_size: config.intermediate_size, gate_up_merged: false, dtype,
        };
        mul_fits(config.num_attention_heads, width) && mul_fits(config.num_key_value_heads, width) && taps_fit
            && size.can_plan(comm, gguf, &None)
    }

    pub fn new(vb: &VarBuilderX, comm: &Comm, config: &DFlashModelConfig, dtype: DType) -> (r: Result<Self, DFlashError>)
        requires
            config.wf(*comm, vb.checkpoint.gguf, dtype),
            config.layers_known(),
            config.target_count() * config.hidden_size <= usize::MAX,
        ensures
            match Self::refusal(*config) {
                Some(e) => r == Err::<Self, DFlashError>(e),
                None => r matches Ok(m) && m.is_planned(vb, *comm, *config, dtype),
            },
    {
        let target_layer_ids = config.target_layer_ids();
        let h: usize = config.hidden_size;
        assert(config.are_targets(target_layer_ids@));
        let fc = ReplicatedLinear::plain_below(vb, "fc", target_layer_ids.len() * h, h, false, dtype);
        let (hn_vb, n_vb) = (vb.pp("hidden_norm"), vb.pp("norm"));
        let hidden_norm = rms_norm(h, &hn_vb, DType::F32, false);
        let mut layers: Vec<DFlashDecoderLayer> = Vec::new();
        let mut i: usize = 0;
        while i < config.num_hidden_layers
            invariant
                i <= config.num_hidden_layers,
                config.wf(*comm, vb.checkpoint.gguf, dtype),
                i > 0 ==> config.layer_refusal() is None,
                layers@.len() == i,
                forall|j: int| 0 <= j < i ==> (#[trigger] layers@[j]).is_planned(&vb.child(layer_name(j)), *comm, *config, dtype),
            decreases config.num_hidden_layers - i,
        {
            let name = join("layers", decimal(i).as_str());
            let scope = vb.pp(name.as_str());
            match DFlashDecoderLayer::new(&scope, comm, config, dtype) {
                Ok(l) => {
                    proof {
                        lemma_layer_scope(l, &scope, &vb.child(layer_name(i as int)), *comm, *config, dtype);
                    }
                    layers.push(l);
                },
                Err(e) => return Err(e),
            }
            i = i + 1;
        }
        let norm = rms_norm(h, &n_vb, DType::F32, false);
        let candidate_selector = if config.is_dflash2() {
            let c = match &config.dflash_config {
                Some(c) => c,
                None => return Err(DFlashError::MissingConfig),
            };
            let rank: usize = match c.selector_rank {
                Some(n) => n,
                None => return Err(DFlashError::MissingSelectorRank),
            };
            let top_k: usize = match c.selector_top_k {
                Some(n) => n,
                None => return Err(DFlashError::MissingSelectorTopK),
            };
            let scope = vb.pp("candidate_selector");
            Some(DFlashCandidateSelector::new(&scope, h, config.vocab_size, rank, top_k, dtype))
        } else {
            None
        };
        Ok(
            DFlashDraftModel {
                fc,
                hidden_norm,
                layers,
                norm,
                block_size: config.block_size(),
                mask_token_id: config.mask_token_id(),
                target_layer_ids,
                dtype,
                candidate_selector,
            },
        )
    }

    /// Which of the hidden states of the target, the embeddings first, feed
    /// the draft model.
    pub fn extract_and_project_hidden(&self) -> (r: Vec<usize>)
        requires
            self.target_layer_ids@.len() < usize::MAX,
        ensures
            r@.len() == self.target_layer_ids@.len(),
            forall|i: int| 0 <= i < r@.len() ==> #[trigger] r@[i] == i + 1,
    {
        let mut v: Vec<usize> = Vec::new();
        let mut i: usize = 0;
        while i < self.target_layer_ids.len()
            invariant
                i <= self.target_layer_ids@.len(),
                self.target_layer_ids@.len() < usize::MAX,
                v@.len() == i,
                forall|j: int| 0 <= j < i ==> #[trigger] v@[j] == j + 1,
            decreases self.target_layer_ids@.len() - i,
        {
            v.push(i + 1);
            i = i + 1;
        }
        v
    }

    /// Whether that many hidden states can be projected.
    pub fn project_layer_hiddens(&self, got: usize) -> (r: Result<(), DFlashError>)
        ensures
            r == if got == self.target_layer_ids@.len() {
                Ok::<(), DFlashError>(())
            } else {
                Err(DFlashError::LayerHiddens { expected: self.target_layer_ids@.len() as usize, got })
            },
    {
        if got != self.target_layer_ids.len() {
            Err(DFlashError::LayerHiddens { expected: self.target_layer_ids.len(), got })
        } else {
            Ok(())
        }
    }

    pub fn is_dflash2(&self) -> (r: bool)
        ensures
            r == (self.candidate_selector is Some),
    {
        self.candidate_selector.is_some()
    }

    /// How many candidates are looked at for each position.
    pub fn select_candidates(&self) -> (r: Result<usize, DFlashError>)
        ensures
            r == match self.candidate_selector {
                Some(s) => Ok::<usize, DFlashError>(s.top_k),
                None => Err(DFlashError::NoSelector),
            },
    {
        match &self.candidate_selector {
            Some(s) => Ok(s.top_k),
            None => Err(DFlashError::NoSelector),
        }
    }

    pub fn dtype(&self) -> (r: DType)
        ensures
            r == self.dtype,
    {
        self.dtype
    }
}

proof fn lemma_layer_scope(l: DFlashDecoderLayer, a: &VarBuilderX, b: &VarBuilderX, comm: Comm, cfg: DFlashModelConfig, dtype: DType)
    requires
        l.is_planned(a, comm, cfg, dtype),
        a.checkpoint == b.checkpoint,
        a.prefix@ == b.prefix@,
    ensures
        l.is_planned(b, comm, cfg, dtype),
{
}

/// A single draft layer looks at the middle of the target. Several are spread
/// evenly from layer 1 to the fourth from the end: the place of draft layer `i`
/// is no further than its share of the way, and less than one layer short of it.
pub proof fn law_draft_layers_are_spread_evenly(target: usize, draft: usize, r: Vec<usize>, i: int)
    requires
        draft != 1 ==> target >= 4,
        call_ensures(build_target_layer_ids, (target, draft), r),
        0 <= i < draft,
    ensures
        r@.len() == draft,
        draft == 1 ==> 2 * r@[0] <= target < 2 * r@[0] + 2,
        draft > 1 ==> (r@[i] - 1) * (draft - 1) <= i * (target - 4) < r@[i] * (draft - 1),
        draft > 1 ==> r@[0] == 1 && r@[draft - 1] == target - 3,
{
    if draft > 1 {
        let (t, n) = (target as int, draft as int);
        lemma_place(t, n, 0);
        lemma_place(t, n, n - 1);
        let (x, d) = (i * (t - 4), n - 1);
        assert(r@[i] == target_layer(t, n, i));
        let q = x / d;
        lemma_fundamental_div_mod(x, d);
        lemma_mul_is_commutative(d, q);
        assert((q + 1) * d == q * d + d) by (nonlinear_arith);
    }
}

/// Named target layers count before computed ones; a block holds what the model
/// says, else what its draft part says, else one token; heads share the hidden
/// size evenly where their width is not given.
pub proof fn law_draft_configurations(
    cfg: DFlashModelConfig,
    ids: Vec<usize>,
    built: Vec<usize>,
    block: usize,
    width: usize,
    second: bool,
    mask: Option<u32>,
    i: int,
)
    requires
        cfg.layers_known(),
        call_ensures(DFlashModelConfig::target_layer_ids, (&cfg,), ids),
        call_ensures(build_target_layer_ids, (cfg.num_target_layers, cfg.num_hidden_layers), built),
        call_ensures(DFlashModelConfig::block_size, (&cfg,), block),
        cfg.head_dim is Some || cfg.num_attention_heads > 0,
        call_ensures(DFlashModelConfig::head_dim, (&cfg,), width),
        call_ensures(DFlashModelConfig::is_dflash2, (&cfg,), second),
        call_ensures(DFlashModelConfig::mask_token_id, (&cfg,), mask),
    ensures
        (cfg.dflash_config matches Some(c) && c.target_layer_ids is Some) ==> ids@ == cfg.dflash_config->0.target_layer_ids->0@,
        !(cfg.dflash_config matches Some(c) && c.target_layer_ids is Some) ==> ids@.len() == cfg.num_hidden_layers && (0 <= i < ids@.len()
            ==> ids@[i] == built@[i]),
        cfg.block_size matches Some(n) ==> block == n,
        cfg.block_size is None ==> (cfg.dflash_config matches Some(c) ==> (c.block_size matches Some(n) ==> block == n)),
        cfg.block_size is None && !(cfg.dflash_config matches Some(c) && c.block_size is Some) ==> block == 1,
        cfg.head_dim matches Some(d) ==> width == d,
        cfg.head_dim is None ==> width * cfg.num_attention_heads <= cfg.hidden_size < (width + 1) * cfg.num_attention_heads,
        (cfg.dflash_config matches Some(c) && c.selector_top_k is Some) ==> second,
        (cfg.architectures matches Some(a) && a@.len() > 0 && has_part(a@[0]@, "DFlash2"@)) ==> second,
        cfg.architectures is None && cfg.dflash_config is None ==> !second,
        cfg.dflash_config matches Some(c) ==> mask == c.mask_token_id,
        cfg.dflash_config is None ==> mask is None,
{
    if cfg.head_dim is None {
        let (h, n) = (cfg.hidden_size as int, cfg.num_attention_heads as int);
        let q = h / n;
        lemma_fundamental_div_mod(h, n);
        lemma_mul_is_commutative(n, q);
        assert((q + 1) * n == q * n + n) by (nonlinear_arith);
    }
}

/// Which keys a query sees: in a causal model none that comes later; with a
/// window none that is as far away as the window is wide, on either side; all
/// others. Nothing is listed where every query sees every key for sure.
pub proof fn law_queries_see_their_window(ctx: usize, q_len: usize, window: Option<usize>, causal: bool, r: Option<Vec<bool>>, i: int, j: int)
    requires
        2 * (ctx + q_len) <= usize::MAX,
        q_len * (ctx + q_len) <= usize::MAX,
        call_ensures(build_dflash_attn_bias, (ctx, q_len, window, causal), r),
        0 <= i < q_len,
        0 <= j < ctx + q_len,
    ensures
        causal ==> r is Some,
        !causal && window is None ==> r is None,
        !causal ==> (window matches Some(w) ==> (r is Some <==> w < ctx + q_len)),
        r matches Some(b) ==> {
            let (at, hide) = (ctx + i, b@[i * (ctx + q_len) + j]);
            &&& b@.len() == q_len * (ctx + q_len)
            &&& causal && at < j ==> hide
            &&& window matches Some(w) ==> (j + w <= at || at + w <= j ==> hide)
            &&& (!causal || j <= at) && (window matches Some(w) ==> at < j + w && j < at + w) ==> !hide
        },
{
    if r is Some {
        let k = crate::parallel::row_major(ctx + q_len, i, j);
        assert(k == i * (ctx + q_len) + j);
        assert(r->0@[k] == hidden(ctx + i, j, window, causal));
    }
}

/// Groups of a convolution divide the hidden size; its kernel has two sides, and
/// a coefficient for each tap and group of each side.
pub proof fn law_convolutions_have_two_sides(
    vb: VarBuilderX,
    hidden_size: usize,
    group: usize,
    taps: usize,
    block: usize,
    dtype: DType,
    r: Result<DFlashGroupedConv, DFlashError>,
    rows: usize,
    shape: [usize; 4],
)
    requires
        2 * taps * hidden_size <= usize::MAX,
        2 * taps <= usize::MAX,
        call_ensures(DFlashGroupedConv::new, (&vb, hidden_size, group, taps, block, dtype), r),
        r matches Ok(c) ==> call_ensures(DFlashGroupedConv::prepare, (&c, rows), shape),
    ensures
        r is Ok <==> group > 0 && hidden_size % group == 0,
        r matches Ok(c) ==> {
            &&& c.num_groups * group == hidden_size && c.taps == taps && c.block_size == block
            &&& c.base_kernel.shape@ == seq![2usize, taps, hidden_size]
            &&& shape@[0] == rows && shape@[1] == 2 && shape@[2] == taps && shape@[3] == c.num_groups
            &&& !vb.checkpoint.gguf ==> (c.kernel_projection.linear matches crate::linear::LinearX::Linear(l) && l.weight.shape@.len() == 2
                && l.weight.shape@[0] == 2 * taps * c.num_groups && l.weight.shape@[1] == hidden_size)
        },
{
    if group > 0 && hidden_size % group == 0 {
        crate::math::lemma_div_exact(hidden_size as int, group as int);
        let g = hidden_size as int / group as int;
        lemma_div_pos_is_pos(hidden_size as int, group as int);
        lemma_div_nonincreasing(hidden_size as int, group as int);
        assert(0 <= 2 * taps * g <= 2 * taps * hidden_size) by (nonlinear_arith)
            requires
                0 <= g <= hidden_size,
                0 <= taps,
        ;
    }
}

/// Attention of draft tokens: queries of all heads, keys and values of theirs,
/// no biases; a window and causality as configured, not causal by default.
pub proof fn law_planned_draft_attention(vb: VarBuilderX, cfg: DFlashModelConfig, dtype: DType, r: DFlashAttention, width: usize)
    requires
        DFlashAttention::fits(cfg),
        !vb.checkpoint.gguf,
        call_ensures(DFlashAttention::new, (&vb, &cfg, dtype), r),
        call_ensures(DFlashModelConfig::head_dim, (&cfg,), width),
    ensures
        r.head_dim == width && r.num_heads == cfg.num_attention_heads && r.num_kv_heads == cfg.num_key_value_heads,
        r.sliding_window == cfg.sliding_window,
        r.is_causal <==> cfg.is_causal is Some && cfg.is_causal->0,
        r.q_proj.linear matches crate::linear::LinearX::Linear(l) && l.bias is None && l.weight.shape@[0] == cfg.num_attention_heads * width
            && l.weight.shape@[1] == cfg.hidden_size,
        r.k_proj.linear matches crate::linear::LinearX::Linear(l) && l.bias is None && l.weight.shape@[0] == cfg.num_key_value_heads * width
            && l.weight.shape@[1] == cfg.hidden_size,
        r.v_proj.linear matches crate::linear::LinearX::Linear(l) && l.bias is None && l.weight.shape@[0] == cfg.num_key_value_heads * width,
        r.o_proj.linear matches crate::linear::LinearX::Linear(l) && l.bias is None && l.weight.shape@[1] == cfg.num_attention_heads * width
            && l.weight.shape@[0] == cfg.hidden_size,
{
    let d = cfg.head_width();
    assert(0 <= cfg.num_attention_heads * d && 0 <= cfg.num_key_value_heads * d) by (nonlinear_arith)
        requires
            d >= 0,
    ;
}

/// A draft pass: keys of context and draft tokens, repeated so that each query
/// head has one; the last rotations for the queries.
pub proof fn law_draft_passes(a: DFlashAttention, ctx: usize, q_len: usize, rotations: usize, r: DraftPass, hides: Option<Vec<bool>>, i: int, j: int)
    requires
        a.num_kv_heads > 0,
        2 * (ctx + q_len) <= usize::MAX,
        q_len * (ctx + q_len) <= usize::MAX,
        call_ensures(DFlashAttention::forward, (&a, ctx, q_len, rotations), r),
        call_ensures(build_dflash_attn_bias, (ctx, q_len, a.sliding_window, a.is_causal), hides),
        0 <= i < q_len,
        0 <= j < ctx + q_len,
    ensures
        r.q_shape@[0] == 1 && r.q_shape@[1] == q_len && r.q_shape@[2] == a.num_heads && r.q_shape@[3] == a.head_dim,
        r.kv_shape@[0] == 1 && r.kv_shape@[1] == ctx + q_len && r.kv_shape@[2] == a.num_kv_heads && r.kv_shape@[3] == a.head_dim,
        r.repeat is Some <==> a.num_heads >= 2 * a.num_kv_heads,
        r.repeat matches Some(n) ==> n * a.num_kv_heads <= a.num_heads < (n + 1) * a.num_kv_heads,
        r.q_rotations is Some <==> rotations > q_len,
        r.q_rotations matches Some(s) ==> s.len == q_len && s.start + s.len == rotations,
        r.hidden is Some <==> hides is Some,
        r.hidden matches Some(b) ==> b@.len() == hides->0@.len() && b@[i * (ctx + q_len) + j] == hides->0@[i * (ctx + q_len) + j],
{
    let (h, k) = (a.num_heads as int, a.num_kv_heads as int);
    let n = h / k;
    lemma_fundamental_div_mod(h, k);
    lemma_mul_is_commutative(k, n);
    assert((n + 1) * k == n * k + k) by (nonlinear_arith);
    assert(n > 1 <==> h >= 2 * k) by (nonlinear_arith)
        requires
            n * k <= h,
            h < n * k + k,
            k > 0,
    ;
    let at = crate::parallel::row_major(ctx + q_len, i, j);
    assert(at == i * (ctx + q_len) + j);
    if r.hidden is Some {
        assert(r.hidden->0@[at] == hidden(ctx + i, j, a.sliding_window, a.is_causal));
        assert(hides->0@[at] == hidden(ctx + i, j, a.sliding_window, a.is_causal));
    }
}

/// A planned draft model: a projection from all target layers together to the
/// hidden size, a layer for each that is asked for, convolutions in each and a
/// selector exactly in models of the second kind. What these lack is named.
pub proof fn law_planned_draft_models(
    vb: VarBuilderX,
    comm: Comm,
    cfg: DFlashModelConfig,
    dtype: DType,
    r: Result<DFlashDraftModel, DFlashError>,
    second: bool,
    ids: Vec<usize>,
    block: usize,
    i: int,
)
    requires
        cfg.wf(comm, vb.checkpoint.gguf, dtype),
        cfg.layers_known(),
        cfg.target_count() * cfg.hidden_size <= usize::MAX,
        call_ensures(DFlashDraftModel::new, (&vb, &comm, &cfg, dtype), r),
        call_ensures(DFlashModelConfig::is_dflash2, (&cfg,), second),
        call_ensures(DFlashModelConfig::target_layer_ids, (&cfg,), ids),
        call_ensures(DFlashModelConfig::block_size, (&cfg,), block),
    ensures
        !second ==> r is Ok,
        second && cfg.dflash_config is None ==> r == Err::<DFlashDraftModel, DFlashError>(DFlashError::MissingConfig),
        second && cfg.num_hidden_layers > 0 ==> (cfg.dflash_config matches Some(c) ==> {
            &&& c.conv_group_size is None ==> r == Err::<DFlashDraftModel, DFlashError>(DFlashError::MissingConvGroupSize)
            &&& c.conv_group_size is Some && c.conv_kernel_size is None ==> r == Err::<DFlashDraftModel, DFlashError>(
                DFlashError::MissingConvKernelSize,
            )
            &&& c.conv_kernel_size is Some && c.conv_group_size == Some(1usize) && c.selector_rank is None ==> r == Err::<
                DFlashDraftModel,
                DFlashError,
            >(DFlashError::MissingSelectorRank)
        }),
        r matches Ok(m) ==> {
            &&& m.layers@.len() == cfg.num_hidden_layers
            &&& m.target_layer_ids@.len() == ids@.len() && (0 <= i < ids@.len() ==> m.target_layer_ids@[i] == ids@[i])
            &&& m.block_size == block && m.dtype == dtype
            &&& m.candidate_selector is Some <==> second
            &&& m.candidate_selector matches Some(s) ==> (cfg.dflash_config matches Some(c) && c.selector_top_k == Some(s.top_k)
                && c.selector_rank is Some && s.predecessor_codebook.shape@ == seq![cfg.vocab_size, c.selector_rank->0]
                && s.successor_codebook.shape@ == seq![cfg.vocab_size, c.selector_rank->0])
            &&& 0 <= i < cfg.num_hidden_layers ==> (m.layers@[i].attention_conv is Some <==> second) && (m.layers@[i].mlp_conv is Some
                <==> second)
            &&& !vb.checkpoint.gguf ==> (m.fc.linear matches crate::linear::LinearX::Linear(l) && l.weight.shape@[0] == cfg.hidden_size
                && l.weight.shape@[1] == ids@.len() * cfg.hidden_size)
        },
{
    if cfg.num_hidden_layers > 0 && r is Ok && 0 <= i < cfg.num_hidden_layers {
        let m = r->Ok_0;
        assert(m.layers@[i].is_planned(&vb.child(layer_name(i)), comm, cfg, dtype));
    }
    assert(0 <= cfg.target_count() * cfg.hidden_size) by (nonlinear_arith);
}

/// The draft model is fed by the outputs of target layers, behind their
/// embeddings, as many as it has target layers; candidates are as many as the
/// selector is made for.
pub proof fn law_draft_models_are_fed(m: DFlashDraftModel, r: Vec<usize>, i: int, got: usize, ok: Result<(), DFlashError>, k: Result<usize, DFlashError>)
    requires
        m.target_layer_ids@.len() < usize::MAX,
        call_ensures(DFlashDraftModel::extract_and_project_hidden, (&m,), r),
        call_ensures(DFlashDraftModel::project_layer_hiddens, (&m, got), ok),
        call_ensures(DFlashDraftModel::select_candidates, (&m,), k),
    ensures
        r@.len() == m.target_layer_ids@.len(),
        0 <= i < r@.len() ==> r@[i] == i + 1,
        ok is Ok <==> got == m.target_layer_ids@.len(),
        k is Ok <==> m.candidate_selector is Some,
        k matches Ok(n) ==> n == m.candidate_selector->0.top_k,
{
}

/// The general configuration of a draft model: its own sizes, unquantized, and
/// without experts.
pub proof fn law_draft_models_are_plain(cfg: DFlashModelConfig, high: bool, r: Config)
    requires
        call_ensures(DFlashModelConfig::to_config, (&cfg, high), r),
    ensures
        r.hidden_size == cfg.hidden_size && r.intermediate_size == cfg.intermediate_size && r.num_hidden_layers == cfg.num_hidden_layers,
        r.num_attention_heads == cfg.num_attention_heads && r.num_key_value_heads == cfg.num_key_value_heads && r.head_dim == cfg.head_dim,
        r.vocab_size == Some(cfg.vocab_size) && r.max_position_embeddings == cfg.max_position_embeddings,
        r.quant is None && r.quantization_config is None && r.moe_cfg is None && r.sliding_window is None,
        r.higher_precision_required == high && !r.fp8_keys && !r.is_f16_mode,
{
}

/// A selector has a row of its rank for each token in either codebook, and brings
/// hidden states to that rank.
pub proof fn law_planned_selector(
    vb: VarBuilderX,
    hidden: usize,
    vocab: usize,
    rank: usize,
    top_k: usize,
    dtype: DType,
    r: DFlashCandidateSelector,
)
    requires
        call_ensures(DFlashCandidateSelector::new, (&vb, hidden, vocab, rank, top_k, dtype), r),
    ensures
        r.predecessor_codebook.path@ == vb.spec_path("predecessor_codebook"@) && r.predecessor_codebook.shape@ == seq![vocab, rank],
        r.successor_codebook.path@ == vb.spec_path("successor_codebook"@) && r.successor_codebook.shape@ == seq![vocab, rank],
        !vb.checkpoint.gguf ==> (r.hidden_projection.linear matches crate::linear::LinearX::Linear(w) && w.weight.shape@ == seq![rank, hidden]
            && w.bias is None && w.weight.path@ == vb.child("hidden_projection"@).spec_path("weight"@)),
        r.top_k == top_k,
{
}

/// A draft layer: plain norms in single precision, and convolutions in front of
/// attention and feed-forward layer in the second form alone, which needs a group
/// size and a number of taps.
pub proof fn law_planned_draft_layers(vb: VarBuilderX, comm: Comm, cfg: DFlashModelConfig, dtype: DType, second: bool, r: Result<DFlashDecoderLayer, DFlashError>)
    requires
        cfg.wf(comm, vb.checkpoint.gguf, dtype),
        call_ensures(DFlashModelConfig::is_dflash2, (&cfg,), second),
        call_ensures(DFlashDecoderLayer::new, (&vb, &comm, &cfg, dtype), r),
    ensures
        !second ==> r is Ok,
        second && cfg.dflash_config is None ==> r == Err::<DFlashDecoderLayer, DFlashError>(DFlashError::MissingConfig),
        second && cfg.dflash_config is Some && cfg.dflash_config->0.conv_group_size is None ==> r == Err::<DFlashDecoderLayer, DFlashError>(
            DFlashError::MissingConvGroupSize,
        ),
        second && cfg.dflash_config is Some && cfg.dflash_config->0.conv_group_size is Some && cfg.dflash_config->0.conv_kernel_size is None ==> r
            == Err::<DFlashDecoderLayer, DFlashError>(DFlashError::MissingConvKernelSize),
        r matches Ok(l) ==> {
            let h = cfg.hidden_size;
            let size = MlpSize { hidden_size: h, intermediate_size: cfg.intermediate_size, gate_up_merged: false, dtype };
            &&& l.attention_conv is Some <==> second
            &&& l.mlp_conv is Some <==> second
            &&& l.input_layernorm.weight.path@ == vb.child("input_layernorm"@).spec_path("weight"@)
            &&& l.post_attention_layernorm.weight.path@ == vb.child("post_attention_layernorm"@).spec_path("weight"@)
            &&& l.input_layernorm.weight.shape@ == seq![h] && l.post_attention_layernorm.weight.shape@ == seq![h]
            &&& l.input_layernorm.dtype == DType::F32 && l.post_attention_layernorm.dtype == DType::F32
            &&& !l.input_layernorm.plus_one && !l.post_attention_layernorm.plus_one && !l.input_layernorm.centred
            &&& MLP::planned(Ok(l.mlp), &vb.child("mlp"@), comm, size, None, None, ""@)
            &&& l.self_attn.is_planned(&vb.child("self_attn"@), cfg, dtype)
        },
{
}

/// A draft model is of the second form where it has a selector.
pub proof fn law_draft_models_with_a_selector(m: DFlashDraftModel, r: bool, k: Result<usize, DFlashError>, t: DType)
    requires
        call_ensures(DFlashDraftModel::is_dflash2, (&m,), r),
        call_ensures(DFlashDraftModel::select_candidates, (&m,), k),
        call_ensures(DFlashDraftModel::dtype, (&m,), t),
    ensures
        r <==> k is Ok,
        r <==> m.candidate_selector is Some,
        t == m.dtype,
{
}

} // verus!
