//! Passes of tokens through experts: element types and shapes.

use crate::checkpoint::DType;
use crate::distributed::Span;
use vstd::prelude::*;

verus! {

/// The format of the experts.
#[derive(Debug, Clone, Copy, PartialEq, Eq, Structural)]
pub enum ExpertFormat {
    Plain,
    /// Blocks of quantized values, stored or made at load time.
    Blocks,
    Fp8,
    Mxfp4,
    /// `weight_on_input` where the router weights multiply the inputs.
    Nvfp4 { weight_on_input: bool },
}

/// What a pass is asked to do.
#[derive(Debug, Clone, Copy, PartialEq, Eq, Structural)]
pub struct MoeInput {
    pub tokens: usize,
    pub hidden: usize,
    pub topk: usize,
    /// Element type of the hidden states.
    pub input: DType,
    /// Element types of the router and of the layer.
    pub gate_dtype: DType,
    pub dtype: DType,
    pub is_prefill: bool,
    pub world_size: usize,
}

/// Where the weights of the router go.
#[derive(Debug, Clone, Copy, PartialEq, Eq, Structural)]
pub enum RouterWeights {
    Inputs,
    Outputs,
}

/// One pass of tokens through experts.
#[derive(Debug, Clone, Copy, PartialEq, Eq)]
pub struct MoePass {
    /// Element type that the router takes.
    pub router: DType,
    /// Element type that the experts take.
    pub experts: DType,
    /// Whether assignments are sorted by expert before.
    pub sorts: bool,
    pub weights: RouterWeights,
    /// Outputs before those of a token are added up.
    pub outputs: (usize, usize, usize),
    /// Element type that the sums are brought to before those of the ranks
    /// are added up.
    pub sums: Option<DType>,
    pub all_reduce: bool,
    /// Element type of the result, `None` where it is left as it is.
    pub result: Option<DType>,
}

/// Element type that the experts take.
pub open spec fn expert_input(format: ExpertFormat, p: MoeInput) -> DType {
    match format {
        ExpertFormat::Plain => p.input,
        ExpertFormat::Blocks => DType::F32,
        ExpertFormat::Fp8 => if p.input == DType::F32 { p.dtype } else { p.input },
        ExpertFormat::Nvfp4 { .. } => if p.input == DType::F32 { p.dtype } else { p.input },
        ExpertFormat::Mxfp4 => if p.dtype == DType::F32 { DType::BF16 } else { p.dtype },
    }
}

/// The pass that a format asks for.
pub open spec fn moe_pass_of(format: ExpertFormat, p: MoeInput) -> MoePass {
    MoePass {
        router: if format is Blocks { DType::F32 } else { p.gate_dtype },
        experts: expert_input(format, p),
        sorts: match format {
            ExpertFormat::Mxfp4 => false,
            ExpertFormat::Nvfp4 { .. } => p.is_prefill,
            _ => true,
        },
        weights: if format == (ExpertFormat::Nvfp4 { weight_on_input: true }) {
            RouterWeights::Inputs
        } else {
            RouterWeights::Outputs
        },
        outputs: (p.tokens, p.topk, p.hidden),
        sums: match format { ExpertFormat::Blocks => Some(p.dtype), _ => None },
        all_reduce: p.world_size > 1,
        result: match format {
            ExpertFormat::Plain => None,
            ExpertFormat::Blocks => Some(p.input),
            _ => Some(p.dtype),
        },
    }
}

/// Lays out a pass of tokens through experts.
pub fn moe_pass(format: ExpertFormat, p: MoeInput) -> (r: MoePass)
    ensures
        r == moe_pass_of(format, p),
{
    let narrow = if p.dtype == DType::F32 { DType::BF16 } else { p.dtype };
    let wide = if p.input == DType::F32 { p.dtype } else { p.input };
    let experts = match format {
        ExpertFormat::Plain => p.input,
        ExpertFormat::Blocks => DType::F32,
        ExpertFormat::Fp8 => wide,
        ExpertFormat::Nvfp4 { .. } => wide,
        ExpertFormat::Mxfp4 => narrow,
    };
    MoePass {
        router: match format { ExpertFormat::Blocks => DType::F32, _ => p.gate_dtype },
        experts,
        sorts: match format {
            ExpertFormat::Mxfp4 => false,
            ExpertFormat::Nvfp4 { .. } => p.is_prefill,
            _ => true,
        },
        weights: match format {
            ExpertFormat::Nvfp4 { weight_on_input } => if weight_on_input { RouterWeights::Inputs } else { RouterWeights::Outputs },
            _ => RouterWeights::Outputs,
        },
        outputs: (p.tokens, p.topk, p.hidden),
        sums: match format { ExpertFormat::Blocks => Some(p.dtype), _ => None },
        all_reduce: p.world_size > 1,
        result: match format {
            ExpertFormat::Plain => None,
            ExpertFormat::Blocks => Some(p.input),
            _ => Some(p.dtype),
        },
    }
}

/// How gate and up outputs in one row are activated.
#[derive(Debug, Clone, Copy, PartialEq, Eq)]
pub enum GatedPass {
    /// One kernel takes both halves.
    Fused { half: usize },
    Halves { gate: Span, up: Span },
}

/// The activation of rows with `half_dim` gate and as many up outputs.
pub open spec fn gated_pass(half_dim: usize, is_silu: bool) -> GatedPass {
    if is_silu {
        GatedPass::Fused { half: half_dim }
    } else {
        GatedPass::Halves { gate: Span { start: 0, len: half_dim }, up: Span { start: half_dim, len: half_dim } }
    }
}

pub fn gated_activation(half_dim: usize, is_silu: bool) -> (r: GatedPass)
    ensures
        r == gated_pass(half_dim, is_silu),
{
    if is_silu {
        GatedPass::Fused { half: half_dim }
    } else {
        GatedPass::Halves { gate: Span { start: 0, len: half_dim }, up: Span { start: half_dim, len: half_dim } }
    }
}

/// Router weights multiply the inputs exactly where experts are in NVFP4 and
/// ask for it; for NVFP4 without that, and for every other format, they
/// multiply the outputs.
pub proof fn law_router_weights_go_to_inputs_only_on_request(format: ExpertFormat, p: MoeInput, r: MoePass)
    requires
        call_ensures(moe_pass, (format, p), r),
    ensures
        r.weights == RouterWeights::Inputs <==> (format matches ExpertFormat::Nvfp4 { weight_on_input } && weight_on_input),
        format == (ExpertFormat::Nvfp4 { weight_on_input: false }) ==> r.weights == RouterWeights::Outputs,
        !(format is Nvfp4) ==> r.weights == RouterWeights::Outputs,
{
}

/// Quantized blocks take single precision, router and experts alike, and bring
/// their sums to the type of the layer before ranks add up and the result back
/// to that of the input. Plain experts keep the type of the input. All others
/// give the type of the layer and never take single precision from a layer that
/// is not in it.
pub proof fn law_element_types_of_a_pass(format: ExpertFormat, p: MoeInput, r: MoePass)
    requires
        call_ensures(moe_pass, (format, p), r),
    ensures
        format is Blocks ==> r.router == DType::F32 && r.experts == DType::F32 && r.sums == Some(p.dtype)
            && r.result == Some(p.input),
        !(format is Blocks) ==> r.router == p.gate_dtype && r.sums is None,
        format is Plain ==> r.experts == p.input && r.result is None,
        format is Fp8 || format is Mxfp4 || format is Nvfp4 ==> r.result == Some(p.dtype),
        (format is Fp8 || format is Nvfp4) && p.input != DType::F32 ==> r.experts == p.input,
        (format is Fp8 || format is Nvfp4) && p.input == DType::F32 ==> r.experts == p.dtype,
        format is Mxfp4 && p.dtype != DType::F32 ==> r.experts == p.dtype,
        format is Mxfp4 && p.dtype == DType::F32 ==> r.experts == DType::BF16,
{
}

/// Assignments are sorted by expert but for MXFP4, and for NVFP4 only in a
/// prefill; ranks add up where there is more than one, in every format. Each
/// token has an output of the hidden size for each of its experts.
pub proof fn law_order_and_shape_of_a_pass(format: ExpertFormat, p: MoeInput, r: MoePass)
    requires
        call_ensures(moe_pass, (format, p), r),
    ensures
        format is Mxfp4 ==> !r.sorts,
        format is Nvfp4 ==> (r.sorts <==> p.is_prefill),
        format is Plain || format is Blocks || format is Fp8 ==> r.sorts,
        r.all_reduce <==> p.world_size > 1,
        r.outputs.0 == p.tokens && r.outputs.1 == p.topk && r.outputs.2 == p.hidden,
{
}

/// Gate outputs stand before up outputs, as many of each, side by side.
pub proof fn law_gate_stands_before_up(half_dim: usize, is_silu: bool, r: GatedPass)
    requires
        call_ensures(gated_activation, (half_dim, is_silu), r),
    ensures
        r is Fused <==> is_silu,
        r matches GatedPass::Fused { half } ==> half == half_dim,
        r matches GatedPass::Halves { gate, up } ==> gate.start == 0 && gate.len == half_dim && up.start == gate.len
            && up.len == gate.len,
{
}

} // verus!
