//! Model configuration as plain values.

use crate::text::{contains, same};
use vstd::prelude::*;

verus! {

/// How the weights of a checkpoint are quantized.
pub struct QuantConfig {
    pub quant_method: String,
    /// Rows and columns that share one scale.
    pub weight_block_size: Option<Vec<usize>>,
    /// Whether packed weights follow the MLX layout.
    pub is_mlx_nvfp4: bool,
    /// Modules that FP8 quantization leaves alone.
    pub skipped_fp8: Vec<String>,
    /// Modules that FP4 quantization leaves alone.
    pub skipped_fp4: Vec<String>,
}

impl QuantConfig {
    /// Whether FP8 quantization leaves the module alone.
    pub open spec fn skips_fp8(&self, module: Seq<char>) -> bool {
        exists|i: int| 0 <= i < self.skipped_fp8@.len() && (#[trigger] self.skipped_fp8@[i])@ == module
    }

    /// Whether FP4 quantization leaves the module alone.
    pub open spec fn skips_fp4(&self, module: Seq<char>) -> bool {
        exists|i: int| 0 <= i < self.skipped_fp4@.len() && (#[trigger] self.skipped_fp4@[i])@ == module
    }

    pub fn leaves_fp8(&self, module: &str) -> (r: bool)
        ensures
            r == self.skips_fp8(module@),
    {
        contains(&self.skipped_fp8, module)
    }

    pub fn leaves_fp4(&self, module: &str) -> (r: bool)
        ensures
            r == self.skips_fp4(module@),
    {
        contains(&self.skipped_fp4, module)
    }
}

/// Whether `cfg` names `method`.
pub open spec fn method_is(cfg: Option<QuantConfig>, method: Seq<char>) -> bool {
    cfg matches Some(c) && c.quant_method@ == method
}

pub fn uses_method(cfg: &Option<QuantConfig>, method: &str) -> (r: bool)
    ensures
        r == method_is(*cfg, method@),
{
    match cfg {
        Some(c) => same(c.quant_method.as_str(), method),
        None => false,
    }
}

/// Whether `cfg` asks for the MLX layout.
pub open spec fn mlx_layout(cfg: Option<QuantConfig>) -> bool {
    cfg matches Some(c) && c.is_mlx_nvfp4
}

pub fn uses_mlx_layout(cfg: &Option<QuantConfig>) -> (r: bool)
    ensures
        r == mlx_layout(*cfg),
{
    match cfg {
        Some(c) => c.is_mlx_nvfp4,
        None => false,
    }
}

/// Experts of a mixture-of-experts model.
pub struct MoEConfig {
    pub moe_intermediate_size: usize,
    pub num_experts: Option<usize>,
    pub num_experts_per_tok: usize,
    pub norm_topk_prob: bool,
    pub n_group: Option<usize>,
    pub topk_group: Option<usize>,
    pub topk_method: Option<String>,
    pub scoring_func: Option<String>,
    pub shared_expert_intermediate_size: Option<usize>,
    pub n_shared_experts: Option<usize>,
}

/// A model configuration, as far as planning needs it.
pub struct Config {
    pub architectures: Option<Vec<String>>,
    pub head_dim: Option<usize>,
    pub num_attention_heads: usize,
    pub num_key_value_heads: usize,
    pub max_position_embeddings: usize,
    pub hidden_size: usize,
    pub num_hidden_layers: usize,
    pub intermediate_size: usize,
    pub vocab_size: Option<usize>,
    pub attention_bias: Option<bool>,
    pub qkv_bias: Option<bool>,
    pub attn_output_gate: Option<bool>,
    pub tie_word_embeddings: Option<bool>,
    pub sliding_window: Option<usize>,
    /// Type that weights are quantized to at load time.
    pub quant: Option<String>,
    pub moe_cfg: Option<MoEConfig>,
    pub quantization_config: Option<QuantConfig>,
    /// The configuration file itself.
    pub extra_config_json: Option<String>,
    pub expert_dtype: Option<String>,
    pub is_f16_mode: bool,
    /// Whether norms and gates are computed in single precision.
    pub higher_precision_required: bool,
    /// Whether cached keys are kept in FP8.
    pub fp8_keys: bool,
}

/// The width of a head and the number of key-value heads.
#[derive(Debug, Clone, Copy, PartialEq, Eq)]
pub struct HeadSize {
    pub head_dim: Option<usize>,
    pub num_kv_heads: usize,
}

impl Config {
    /// The heads that the configuration asks for in every layer.
    pub open spec fn head_size(&self) -> HeadSize {
        HeadSize { head_dim: self.head_dim, num_kv_heads: self.num_key_value_heads }
    }

    pub fn heads(&self) -> (r: HeadSize)
        ensures
            r == self.head_size(),
    {
        HeadSize { head_dim: self.head_dim, num_kv_heads: self.num_key_value_heads }
    }

    /// Whether the configuration names an architecture.
    pub open spec fn has_arch(&self) -> bool {
        self.architectures matches Some(a) && a@.len() > 0
    }

    /// The first architecture, or the empty name.
    pub open spec fn arch(&self) -> Seq<char> {
        match self.architectures {
            Some(a) => if a@.len() > 0 { a@[0]@ } else { Seq::empty() },
            None => Seq::empty(),
        }
    }

    pub fn first_arch(&self) -> (r: String)
        ensures
            r@ == self.arch(),
    {
        match &self.architectures {
            Some(a) => if a.len() > 0 { a[0].clone() } else { String::new() },
            None => String::new(),
        }
    }

    /// Whether the model has a known number of experts.
    pub open spec fn has_experts(&self) -> bool {
        self.moe_cfg matches Some(m) && m.num_experts is Some
    }

    /// The number of experts, where it is known.
    pub open spec fn experts(&self) -> usize {
        self.moe_cfg->0.num_experts->0
    }

    /// Width of an expert, where there are any.
    pub open spec fn expert_width(&self) -> usize {
        self.moe_cfg->0.moe_intermediate_size
    }
}

/// A module is left alone by a quantization exactly where its list names it.
pub proof fn law_modules_left_alone(cfg: QuantConfig, module: &str, a: bool, b: bool, i: int)
    requires
        call_ensures(QuantConfig::leaves_fp8, (&cfg, module), a),
        call_ensures(QuantConfig::leaves_fp4, (&cfg, module), b),
    ensures
        0 <= i < cfg.skipped_fp8@.len() && cfg.skipped_fp8@[i]@ == module@ ==> a,
        0 <= i < cfg.skipped_fp4@.len() && cfg.skipped_fp4@[i]@ == module@ ==> b,
        a ==> exists|j: int| 0 <= j < cfg.skipped_fp8@.len() && (#[trigger] cfg.skipped_fp8@[j])@ == module@,
        b ==> exists|j: int| 0 <= j < cfg.skipped_fp4@.len() && (#[trigger] cfg.skipped_fp4@[j])@ == module@,
{
}

/// Methods and layouts are those of the quantization, where there is one; heads
/// and architecture are those that the configuration names first.
pub proof fn law_configurations_name_methods(
    quant: Option<QuantConfig>,
    method: &str,
    uses: bool,
    mlx: bool,
    cfg: Config,
    arch: String,
    heads: HeadSize,
)
    requires
        call_ensures(uses_method, (&quant, method), uses),
        call_ensures(uses_mlx_layout, (&quant,), mlx),
        call_ensures(Config::first_arch, (&cfg,), arch),
        call_ensures(Config::heads, (&cfg,), heads),
    ensures
        quant is None ==> !uses && !mlx,
        quant matches Some(c) ==> (uses <==> c.quant_method@ == method@) && mlx == c.is_mlx_nvfp4,
        (cfg.architectures matches Some(a) && a@.len() > 0) ==> arch@ == cfg.architectures->0@[0]@,
        !(cfg.architectures matches Some(a) && a@.len() > 0) ==> arch@.len() == 0,
        heads.head_dim == cfg.head_dim && heads.num_kv_heads == cfg.num_key_value_heads,
{
}

} // verus!
