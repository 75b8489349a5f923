//! FP4 experts: packed values with scales for groups of columns.

use crate::checkpoint::{dims0, dims1, dims2, dims3, Checkpoint, DType, Fetch, ScaleSource, TensorRead, VarBuilderX};
use crate::config::Config;
use crate::distributed::{shard, Comm, Shard};
use crate::linear::{fp8_unplannable, linear_no_bias_x, plannable, LinearX};
use crate::mlp::JoinedRows;
use crate::moe::experts::{
    bias_fetch, expert_proj, expert_sizes, plain_router, proj_scope, router_dtype, router_size,
    try_load_e_score_correction_bias, MoeError, Proj,
};
use crate::moe::routing::MoeRouting;
use vstd::prelude::*;

verus! {

/// One projection of one expert. A factor that cannot be read counts as 1.
pub struct Fp4Expert {
    pub blocks: TensorRead,
    pub scales: TensorRead,
    pub global_scale: ScaleSource,
    pub input_scale: ScaleSource,
}

/// The tensor with packed values in the scope.
pub open spec fn packed_name(vb: &VarBuilderX, nvfp4: bool) -> Seq<char> {
    if vb.has("weight_packed"@) {
        "weight_packed"@
    } else if nvfp4 && vb.has("weight"@) {
        "weight"@
    } else {
        "blocks"@
    }
}

/// The tensor with scales in the scope.
pub open spec fn scale_name(vb: &VarBuilderX) -> Seq<char> {
    if vb.has("weight_scale"@) { "weight_scale"@ } else { "scales"@ }
}

pub fn tensor_name_packed(vb: &VarBuilderX, nvfp4: bool) -> (r: &'static str)
    ensures
        r@ == packed_name(vb, nvfp4),
{
    if vb.has_key("weight_packed") {
        "weight_packed"
    } else if nvfp4 && vb.has_key("weight") {
        "weight"
    } else {
        "blocks"
    }
}

pub fn tensor_name_scale(vb: &VarBuilderX) -> (r: &'static str)
    ensures
        r@ == scale_name(vb),
{
    if vb.has_key("weight_scale") { "weight_scale" } else { "scales" }
}

/// Whether `x` reads a projection from the scope: NVFP4 with groups of 16
/// columns and two factors, else MXFP4 with groups of 32.
pub open spec fn fp4_expert(x: Fp4Expert, vb: &VarBuilderX, nvfp4: bool, rows: usize, cols: usize, s: Shard) -> bool {
    &&& x.blocks.reads(vb.spec_path(packed_name(vb, nvfp4)), seq![rows, cols / 2], s, DType::U8)
    &&& x.scales.reads(
        vb.spec_path(scale_name(vb)), seq![rows, if nvfp4 { cols / 16 } else { cols / 32 }], s, DType::U8)
    &&& if nvfp4 {
        vb.is_global_scale(x.global_scale) && vb.is_input_scale(x.input_scale)
    } else {
        x.global_scale is One && x.input_scale is One
    }
}

/// Whether `v` reads one projection of each expert.
pub open spec fn each_fp4(
    v: Seq<Fp4Expert>,
    vb: &VarBuilderX,
    proj: Proj,
    nvfp4: bool,
    experts: int,
    rows: usize,
    cols: usize,
    s: Shard,
) -> bool {
    &&& v.len() == experts
    &&& forall|i: int, p: VarBuilderX| 0 <= i < experts && #[trigger] at_proj(&p, vb.checkpoint, vb.prefix@, i, proj)
        ==> fp4_expert(#[trigger] v[i], &p, nvfp4, rows, cols, s)
}

/// Whether `p` is the scope of a projection of expert `i` below `scope`.
pub open spec fn at_proj(p: &VarBuilderX, ck: &Checkpoint, scope: Seq<char>, i: int, proj: Proj) -> bool {
    p.checkpoint == ck && p.prefix@ == proj_scope(ck, scope, i, proj)
}

fn read_each_fp4(
    vb: &VarBuilderX,
    proj: Proj,
    nvfp4: bool,
    experts: usize,
    rows: usize,
    cols: usize,
    s: Shard,
) -> (r: Vec<Fp4Expert>)
    ensures
        each_fp4(r@, vb, proj, nvfp4, experts as int, rows, cols, s),
{
    let group: usize = if nvfp4 { 16 } else { 32 };
    let mut v: Vec<Fp4Expert> = Vec::new();
    let mut i: usize = 0;
    while i < experts
        invariant
            i <= experts,
            group == (if nvfp4 { 16usize } else { 32 }),
            v@.len() == i,
            forall|j: int, p: VarBuilderX| 0 <= j < i && #[trigger] at_proj(&p, vb.checkpoint, vb.prefix@, j, proj)
                ==> fp4_expert(#[trigger] v@[j], &p, nvfp4, rows, cols, s),
        decreases experts - i,
    {
        let p = expert_proj(vb, i, proj);
        let x = Fp4Expert {
            blocks: p.read(tensor_name_packed(&p, nvfp4), dims2(rows, cols / 2), s, DType::U8),
            scales: p.read(tensor_name_scale(&p), dims2(rows, cols / group), s, DType::U8),
            global_scale: if nvfp4 { p.global_scale() } else { ScaleSource::One },
            input_scale: if nvfp4 { p.input_scale() } else { ScaleSource::One },
        };
        assert(fp4_expert(x, &p, nvfp4, rows, cols, s));
        v.push(x);
        i = i + 1;
    }
    v
}

/// Whether `v` holds one factor of gate for each expert, or 1 where the format
/// has none: the global one, or that of the inputs.
pub open spec fn each_gate_factor(v: Seq<ScaleSource>, vb: &VarBuilderX, nvfp4: bool, experts: int, global: bool) -> bool {
    &&& v.len() == experts
    &&& forall|i: int, p: VarBuilderX| 0 <= i < experts && #[trigger] at_proj(&p, vb.checkpoint, vb.prefix@, i, Proj::Gate)
        ==> gate_factor(#[trigger] v[i], &p, nvfp4, global)
}

pub open spec fn gate_factor(s: ScaleSource, gate_vb: &VarBuilderX, nvfp4: bool, global: bool) -> bool {
    if !nvfp4 {
        s is One
    } else if global {
        gate_vb.is_global_scale(s)
    } else {
        gate_vb.is_input_scale(s)
    }
}

fn read_each_gate_factor(vb: &VarBuilderX, nvfp4: bool, experts: usize, global: bool) -> (r: Vec<ScaleSource>)
    ensures
        each_gate_factor(r@, vb, nvfp4, experts as int, global),
{
    let mut v: Vec<ScaleSource> = Vec::new();
    let mut i: usize = 0;
    while i < experts
        invariant
            i <= experts,
            v@.len() == i,
            forall|j: int, p: VarBuilderX| 0 <= j < i && #[trigger] at_proj(&p, vb.checkpoint, vb.prefix@, j, Proj::Gate)
                ==> gate_factor(#[trigger] v@[j], &p, nvfp4, global),
        decreases experts - i,
    {
        let p = expert_proj(vb, i, Proj::Gate);
        let s = if !nvfp4 {
            ScaleSource::One
        } else if global {
            p.global_scale()
        } else {
            p.input_scale()
        };
        assert(gate_factor(s, &p, nvfp4, global));
        v.push(s);
        i = i + 1;
    }
    v
}

/// Experts one by one. Blocks and scales of gate and up are joined, and the
/// factors of gate count for both, whatever those of up are.
pub struct EachFp4 {
    pub gate: Vec<Fp4Expert>,
    pub up: Vec<Fp4Expert>,
    pub down: Vec<Fp4Expert>,
    /// Rows of the joined blocks and of the joined scales.
    pub joined: JoinedRows,
    pub gate_up_global: Vec<ScaleSource>,
    pub gate_up_input: Vec<ScaleSource>,
}

impl EachFp4 {
    pub open spec fn is_read(&self, cfg: Config, vb: &VarBuilderX, comm: Comm, nvfp4: bool) -> bool {
        let (e, h, n) = (cfg.experts() as int, cfg.hidden_size, cfg.expert_width());
        let rows = Shard { dim: 0, rank: comm.rank, world_size: comm.world_size };
        let cols = Shard { dim: 1, rank: comm.rank, world_size: comm.world_size };
        &&& each_fp4(self.gate@, vb, Proj::Gate, nvfp4, e, n, h, rows)
        &&& each_fp4(self.up@, vb, Proj::Up, nvfp4, e, n, h, rows)
        &&& each_fp4(self.down@, vb, Proj::Down, nvfp4, e, h, n, cols)
        &&& self.joined == JoinedRows::halves(n as int / comm.world_size as int)
        &&& each_gate_factor(self.gate_up_global@, vb, nvfp4, e, true)
        &&& each_gate_factor(self.gate_up_input@, vb, nvfp4, e, false)
    }

    fn read(cfg: &Config, vb: &VarBuilderX, comm: &Comm, nvfp4: bool) -> (r: Self)
        requires
            cfg.has_experts(),
            comm.wf(),
        ensures
            r.is_read(*cfg, vb, *comm, nvfp4),
    {
        let (e, n) = expert_sizes(cfg);
        let h: usize = cfg.hidden_size;
        let rows = shard(0, comm.rank(), comm.world_size());
        let cols = shard(1, comm.rank(), comm.world_size());
        EachFp4 {
            gate: read_each_fp4(vb, Proj::Gate, nvfp4, e, n, h, rows),
            up: read_each_fp4(vb, Proj::Up, nvfp4, e, n, h, rows),
            down: read_each_fp4(vb, Proj::Down, nvfp4, e, h, n, cols),
            joined: JoinedRows::of(n / comm.world_size()),
            gate_up_global: read_each_gate_factor(vb, nvfp4, e, true),
            gate_up_input: read_each_gate_factor(vb, nvfp4, e, false),
        }
    }
}

/// The router, quantized as the checkpoint is.
pub fn quantized_router(cfg: &Config, gate_vb: &VarBuilderX, dtype: DType) -> (r: Result<LinearX, MoeError>)
    requires
        cfg.has_experts(),
        plannable(router_size(*cfg, dtype), gate_vb.checkpoint.gguf, cfg.quantization_config),
    ensures
        fp8_unplannable(gate_vb, cfg.quantization_config) ==> r == Err::<LinearX, MoeError>(MoeError::Router),
        !fp8_unplannable(gate_vb, cfg.quantization_config) ==> (r matches Ok(gate)
            && gate.is_layer(gate_vb, router_size(*cfg, dtype), cfg.quantization_config, None)),
{
    let (e, _n) = expert_sizes(cfg);
    match linear_no_bias_x(cfg.hidden_size, e, gate_vb, Shard::default(), &cfg.quantization_config, &None, dtype) {
        Ok(gate) => Ok(gate),
        Err(_) => Err(MoeError::Router),
    }
}

/// MXFP4 experts.
pub struct FusedMoeMxfp4 {
    pub gate: LinearX,
    pub experts: EachFp4,
    pub bias: Fetch,
    pub routing: MoeRouting,
    pub gate_dtype: DType,
}

impl FusedMoeMxfp4 {
    /// Whether `r` is the plan for a router, experts and selection bias in
    /// these scopes.
    pub open spec fn planned(
        r: Result<Self, MoeError>,
        cfg: Config,
        gate_vb: &VarBuilderX,
        experts_vb: &VarBuilderX,
        bias_vb: &VarBuilderX,
        comm: Comm,
        dtype: DType,
    ) -> bool {
        let gate_dtype = router_dtype(cfg, dtype);
        if fp8_unplannable(gate_vb, cfg.quantization_config) {
            r == Err::<Self, MoeError>(MoeError::Router)
        } else if experts_vb.checkpoint.gguf {
            r == Err::<Self, MoeError>(MoeError::Gguf)
        } else if cfg.experts() == 0 {
            r == Err::<Self, MoeError>(MoeError::NoExperts)
        } else {
            r matches Ok(m) && {
                &&& m.gate.is_layer(gate_vb, router_size(cfg, gate_dtype), cfg.quantization_config, None)
                &&& m.experts.is_read(cfg, experts_vb, comm, false)
                &&& bias_fetch(m.bias, bias_vb, cfg.experts())
                &&& m.routing.of(cfg)
                &&& m.gate_dtype == gate_dtype
            }
        }
    }

    pub fn new_with_gate(
        cfg: &Config,
        gate_vb: &VarBuilderX,
        experts_vb: &VarBuilderX,
        bias_vb: &VarBuilderX,
        comm: &Comm,
        dtype: DType,
    ) -> (r: Result<Self, MoeError>)
        requires
            cfg.has_experts(),
            comm.wf(),
            plannable(router_size(*cfg, router_dtype(*cfg, dtype)), gate_vb.checkpoint.gguf, cfg.quantization_config),
        ensures
            Self::planned(r, *cfg, gate_vb, experts_vb, bias_vb, *comm, dtype),
    {
        let gate_dtype = if cfg.higher_precision_required { DType::F32 } else { dtype };
        let gate = match quantized_router(cfg, gate_vb, gate_dtype) {
            Ok(g) => g,
            Err(e) => return Err(e),
        };
        if experts_vb.is_qvar_builder() {
            return Err(MoeError::Gguf);
        }
        let (e, _n) = expert_sizes(cfg);
        if e == 0 {
            return Err(MoeError::NoExperts);
        }
        Ok(
            FusedMoeMxfp4 {
                gate,
                experts: EachFp4::read(cfg, experts_vb, comm, false),
                bias: try_load_e_score_correction_bias(bias_vb, e),
                routing: MoeRouting::of_config(cfg),
                gate_dtype,
            },
        )
    }

    pub fn new(cfg: &Config, vb: &VarBuilderX, comm: &Comm, dtype: DType) -> (r: Result<Self, MoeError>)
        requires
            cfg.has_experts(),
            comm.wf(),
            plannable(router_size(*cfg, router_dtype(*cfg, dtype)), vb.checkpoint.gguf, cfg.quantization_config),
        ensures
            Self::planned(r, *cfg, &vb.child("gate"@), &vb.child("experts"@), vb, *comm, dtype),
    {
        let gate_vb = vb.pp("gate");
        let experts_vb = vb.pp("experts");
        Self::new_with_gate(cfg, &gate_vb, &experts_vb, vb, comm, dtype)
    }
}

/// NVFP4 experts packed in two tensors, inputs before outputs.
pub struct PackedNvfp4 {
    pub gate_up: TensorRead,
    pub gate_up_scale: TensorRead,
    pub gate_up_global: ScaleSource,
    pub gate_up_input: ScaleSource,
    /// Rows of gate and of up in each expert, once it is transposed.
    pub joined: JoinedRows,
    pub down: TensorRead,
    pub down_scale: TensorRead,
    pub down_global: ScaleSource,
    pub down_input: ScaleSource,
}

/// Whether `s` is a factor under one of two names: `direct` as it is, else
/// `inverse` inverted, else 1.
pub open spec fn packed_factor(vb: &VarBuilderX, s: ScaleSource, direct: Seq<char>, inverse: Seq<char>) -> bool {
    if vb.has(direct) {
        s matches ScaleSource::Direct(f) && bare_fetch(vb, f, direct)
    } else if vb.has(inverse) {
        s matches ScaleSource::Inverse(f) && bare_fetch(vb, f, inverse)
    } else {
        s is One
    }
}

/// Whether `f` reads the single value `name`, stored with no dimension or
/// with one.
pub open spec fn bare_fetch(vb: &VarBuilderX, f: Fetch, name: Seq<char>) -> bool {
    &&& f.tries@.len() == 2
    &&& f.tries@[0].reads(vb.spec_path(name), Seq::<usize>::empty(), Shard::whole(), DType::F32)
    &&& f.tries@[1].reads(vb.spec_path(name), seq![1usize], Shard::whole(), DType::F32)
}

fn read_bare(vb: &VarBuilderX, name: &str) -> (r: Fetch)
    ensures
        bare_fetch(vb, r, name@),
{
    Fetch::two(
        vb.read(name, dims0(), Shard::default(), DType::F32),
        vb.read(name, dims1(1), Shard::default(), DType::F32),
    )
}

fn read_factor(vb: &VarBuilderX, direct: &str, inverse: &str) -> (r: ScaleSource)
    ensures
        packed_factor(vb, r, direct@, inverse@),
{
    if vb.has_key(direct) {
        ScaleSource::Direct(read_bare(vb, direct))
    } else if vb.has_key(inverse) {
        ScaleSource::Inverse(read_bare(vb, inverse))
    } else {
        ScaleSource::One
    }
}

impl PackedNvfp4 {
    pub open spec fn is_read(&self, cfg: Config, vb: &VarBuilderX, comm: Comm) -> bool {
        let (e, h, n) = (cfg.experts(), cfg.hidden_size, cfg.expert_width());
        let n2 = (2 * n) as usize;
        let s0 = Shard { dim: 0, rank: comm.rank, world_size: comm.world_size };
        let s1 = Shard { dim: 1, rank: comm.rank, world_size: comm.world_size };
        &&& self.gate_up.reads(vb.spec_path("gate_up_proj"@), seq![e, h / 2, n2], s0, DType::U8)
        &&& self.gate_up_scale.reads(vb.spec_path("gate_up_proj_weight_scale"@), seq![e, h / 16, n2], s0, DType::U8)
        &&& packed_factor(
            vb, self.gate_up_global, "gate_up_proj_weight_scale_2"@, "gate_up_proj_weight_global_scale"@)
        &&& packed_factor(vb, self.gate_up_input, "gate_up_proj_input_scale"@, "gate_up_proj_input_global_scale"@)
        &&& self.joined == JoinedRows::halves(n as int)
        &&& self.down.reads(vb.spec_path("down_proj"@), seq![e, n / 2, h], s1, DType::U8)
        &&& self.down_scale.reads(vb.spec_path("down_proj_weight_scale"@), seq![e, n / 16, h], s1, DType::U8)
        &&& packed_factor(vb, self.down_global, "down_proj_weight_scale_2"@, "down_proj_weight_global_scale"@)
        &&& packed_factor(vb, self.down_input, "down_proj_input_scale"@, "down_proj_input_global_scale"@)
    }

    fn read(cfg: &Config, vb: &VarBuilderX, comm: &Comm) -> (r: Self)
        requires
            cfg.has_experts(),
            2 * cfg.expert_width() <= usize::MAX,
        ensures
            r.is_read(*cfg, vb, *comm),
    {
        let (e, n) = expert_sizes(cfg);
        let h: usize = cfg.hidden_size;
        let s0 = shard(0, comm.rank(), comm.world_size());
        let s1 = shard(1, comm.rank(), comm.world_size());
        PackedNvfp4 {
            gate_up: vb.read("gate_up_proj", dims3(e, h / 2, 2 * n), s0, DType::U8),
            gate_up_scale: vb.read("gate_up_proj_weight_scale", dims3(e, h / 16, 2 * n), s0, DType::U8),
            gate_up_global: read_factor(vb, "gate_up_proj_weight_scale_2", "gate_up_proj_weight_global_scale"),
            gate_up_input: read_factor(vb, "gate_up_proj_input_scale", "gate_up_proj_input_global_scale"),
            joined: JoinedRows::of(n),
            down: vb.read("down_proj", dims3(e, n / 2, h), s1, DType::U8),
            down_scale: vb.read("down_proj_weight_scale", dims3(e, n / 16, h), s1, DType::U8),
            down_global: read_factor(vb, "down_proj_weight_scale_2", "down_proj_weight_global_scale"),
            down_input: read_factor(vb, "down_proj_input_scale", "down_proj_input_global_scale"),
        }
    }
}

/// Where NVFP4 experts come from.
pub enum Nvfp4Experts {
    Packed(PackedNvfp4),
    Each(EachFp4),
}

/// NVFP4 experts.
pub struct FusedMoeNvfp4 {
    pub gate: LinearX,
    pub experts: Nvfp4Experts,
    /// Reads of the selection bias, where one is asked for.
    pub bias: Option<Fetch>,
    pub routing: MoeRouting,
    pub gate_dtype: DType,
    /// Whether weights of the router scale the inputs of the experts.
    pub apply_router_weight_on_input: bool,
}

impl FusedMoeNvfp4 {
    /// Whether `r` are the experts below `vb`: packed where a packed tensor or
    /// its factor exists.
    pub open spec fn loaded(r: Result<Nvfp4Experts, MoeError>, cfg: Config, vb: &VarBuilderX, comm: Comm) -> bool {
        if vb.checkpoint.gguf {
            r == Err::<Nvfp4Experts, MoeError>(MoeError::Gguf)
        } else if cfg.experts() == 0 {
            r == Err::<Nvfp4Experts, MoeError>(MoeError::NoExperts)
        } else if vb.has("gate_up_proj"@) || vb.has("gate_up_proj_weight_scale_2"@) {
            r matches Ok(Nvfp4Experts::Packed(p)) && p.is_read(cfg, vb, comm)
        } else {
            r matches Ok(Nvfp4Experts::Each(x)) && x.is_read(cfg, vb, comm, true)
        }
    }

    fn load_experts(cfg: &Config, vb: &VarBuilderX, comm: &Comm) -> (r: Result<Nvfp4Experts, MoeError>)
        requires
            cfg.has_experts(),
            comm.wf(),
            2 * cfg.expert_width() <= usize::MAX,
        ensures
            Self::loaded(r, *cfg, vb, *comm),
    {
        if vb.is_qvar_builder() {
            return Err(MoeError::Gguf);
        }
        let (e, _n) = expert_sizes(cfg);
        if e == 0 {
            return Err(MoeError::NoExperts);
        }
        if vb.has_key("gate_up_proj") || vb.has_key("gate_up_proj_weight_scale_2") {
            Ok(Nvfp4Experts::Packed(PackedNvfp4::read(cfg, vb, comm)))
        } else {
            Ok(Nvfp4Experts::Each(EachFp4::read(cfg, vb, comm, true)))
        }
    }

    /// The experts of a plan.
    pub open spec fn experts_of(r: Result<Self, MoeError>) -> Result<Nvfp4Experts, MoeError> {
        match r {
            Ok(m) => Ok(m.experts),
            Err(e) => Err(e),
        }
    }

    /// Whether `r` is the plan for a router that is quantized as the
    /// checkpoint is, without a selection bias.
    pub open spec fn planned_quantized(
        r: Result<Self, MoeError>,
        cfg: Config,
        gate_vb: &VarBuilderX,
        experts_vb: &VarBuilderX,
        comm: Comm,
        dtype: DType,
    ) -> bool {
        let gate_dtype = router_dtype(cfg, dtype);
        if fp8_unplannable(gate_vb, cfg.quantization_config) {
            r == Err::<Self, MoeError>(MoeError::Router)
        } else {
            &&& Self::loaded(Self::experts_of(r), cfg, experts_vb, comm)
            &&& r matches Ok(m) ==> {
                &&& m.gate.is_layer(gate_vb, router_size(cfg, gate_dtype), cfg.quantization_config, None)
                &&& m.bias is None
                &&& m.routing.of(cfg)
                &&& m.gate_dtype == gate_dtype
                &&& !m.apply_router_weight_on_input
            }
        }
    }

    /// Plans a router that is quantized as the checkpoint is, without a
    /// selection bias.
    pub fn new(cfg: &Config, vb: &VarBuilderX, comm: &Comm, dtype: DType) -> (r: Result<Self, MoeError>)
        requires
            cfg.has_experts(),
            comm.wf(),
            2 * cfg.expert_width() <= usize::MAX,
            plannable(router_size(*cfg, router_dtype(*cfg, dtype)), vb.checkpoint.gguf, cfg.quantization_config),
        ensures
            Self::planned_quantized(r, *cfg, &vb.child("gate"@), &vb.child("experts"@), *comm, dtype),
    {
        let gate_dtype = if cfg.higher_precision_required { DType::F32 } else { dtype };
        let gate_vb = vb.pp("gate");
        let experts_vb = vb.pp("experts");
        let gate = match quantized_router(cfg, &gate_vb, gate_dtype) {
            Ok(g) => g,
            Err(e) => return Err(e),
        };
        match Self::load_experts(cfg, &experts_vb, comm) {
            Ok(experts) => Ok(
                FusedMoeNvfp4 {
                    gate,
                    experts,
                    bias: None,
                    routing: MoeRouting::of_config(cfg),
                    gate_dtype,
                    apply_router_weight_on_input: false,
                },
            ),
            Err(e) => Err(e),
        }
    }

    /// Whether `r` is the plan for an unquantized router and experts in these
    /// scopes, with a selection bias where a scope for it is given.
    pub open spec fn planned(
        r: Result<Self, MoeError>,
        cfg: Config,
        gate_vb: &VarBuilderX,
        experts_vb: &VarBuilderX,
        bias_vb: Option<&VarBuilderX>,
        comm: Comm,
        dtype: DType,
    ) -> bool {
        &&& Self::loaded(Self::experts_of(r), cfg, experts_vb, comm)
        &&& r matches Ok(m) ==> {
            &&& m.gate.is_layer(gate_vb, router_size(cfg, router_dtype(cfg, dtype)), None, None)
            &&& m.bias is Some <==> bias_vb is Some
            &&& bias_vb matches Some(b) ==> bias_fetch(m.bias->0, b, cfg.experts())
            &&& m.routing.of(cfg)
            &&& m.gate_dtype == router_dtype(cfg, dtype)
            &&& !m.apply_router_weight_on_input
        }
    }

    pub fn new_with_gate_and_bias(
        cfg: &Config,
        gate_vb: &VarBuilderX,
        experts_vb: &VarBuilderX,
        bias_vb: Option<&VarBuilderX>,
        comm: &Comm,
        dtype: DType,
    ) -> (r: Result<Self, MoeError>)
        requires
            cfg.has_experts(),
            comm.wf(),
            2 * cfg.expert_width() <= usize::MAX,
        ensures
            Self::planned(r, *cfg, gate_vb, experts_vb, bias_vb, *comm, dtype),
    {
        let gate_dtype = if cfg.higher_precision_required { DType::F32 } else { dtype };
        let (e, _n) = expert_sizes(cfg);
        let experts = match Self::load_experts(cfg, experts_vb, comm) {
            Ok(x) => x,
            Err(e) => return Err(e),
        };
        let bias = match bias_vb {
            Some(b) => Some(try_load_e_score_correction_bias(b, e)),
            None => None,
        };
        match plain_router(cfg, gate_vb, gate_dtype) {
            Ok(gate) => Ok(
                FusedMoeNvfp4 {
                    gate,
                    experts,
                    bias,
                    routing: MoeRouting::of_config(cfg),
                    gate_dtype,
                    apply_router_weight_on_input: false,
                },
            ),
            Err(e) => Err(e),
        }
    }

    pub fn new_with_gate(cfg: &Config, gate_vb: &VarBuilderX, experts_vb: &VarBuilderX, comm: &Comm, dtype: DType) -> (r: Result<Self, MoeError>)
        requires
            cfg.has_experts(),
            comm.wf(),
            2 * cfg.expert_width() <= usize::MAX,
        ensures
            Self::planned(r, *cfg, gate_vb, experts_vb, None, *comm, dtype),
    {
        Self::new_with_gate_and_bias(cfg, gate_vb, experts_vb, None, comm, dtype)
    }

    /// Scores experts independently from now on.
    pub fn set_sigmoid_routing(&mut self)
        ensures
            *final(self) == (FusedMoeNvfp4 {
                routing: MoeRouting { use_sigmoid_scoring: true, ..old(self).routing },
                ..*old(self)
            }),
    {
        self.routing.use_sigmoid_scoring = true;
    }

    pub fn set_apply_router_weight_on_input(&mut self, v: bool)
        ensures
            *final(self) == (FusedMoeNvfp4 { apply_router_weight_on_input: v, ..*old(self) }),
    {
        self.apply_router_weight_on_input = v;
    }
}

/// Which tensor of a scope holds packed values, and which their scales: the
/// first that exists. A plain weight counts for NVFP4 only.
pub proof fn law_names_of_fp4_tensors(vb: VarBuilderX, nvfp4: bool, packed: &'static str, scale: &'static str)
    requires
        call_ensures(tensor_name_packed, (&vb, nvfp4), packed),
        call_ensures(tensor_name_scale, (&vb,), scale),
    ensures
        vb.has("weight_packed"@) ==> packed@ == "weight_packed"@,
        !vb.has("weight_packed"@) && nvfp4 && vb.has("weight"@) ==> packed@ == "weight"@,
        !vb.has("weight_packed"@) && (!nvfp4 || !vb.has("weight"@)) ==> packed@ == "blocks"@,
        vb.has("weight_scale"@) ==> scale@ == "weight_scale"@,
        !vb.has("weight_scale"@) ==> scale@ == "scales"@,
{
}

/// Expert `i` of an MXFP4 mixture: two values a byte, a scale for 32 columns, no
/// factors; gate and up cut along outputs, down along inputs. Block-quantized
/// files are refused, and so is an empty set of experts.
pub proof fn law_mxfp4_experts(
    cfg: Config,
    gate_vb: VarBuilderX,
    vb: VarBuilderX,
    bias_vb: VarBuilderX,
    comm: Comm,
    dtype: DType,
    r: Result<FusedMoeMxfp4, MoeError>,
    i: int,
    gate: VarBuilderX,
    up: VarBuilderX,
    down: VarBuilderX,
)
    requires
        cfg.has_experts(),
        comm.wf(),
        plannable(router_size(cfg, router_dtype(cfg, dtype)), gate_vb.checkpoint.gguf, cfg.quantization_config),
        call_ensures(FusedMoeMxfp4::new_with_gate, (&cfg, &gate_vb, &vb, &bias_vb, &comm, dtype), r),
        0 <= i < cfg.experts(),
        call_ensures(expert_proj, (&vb, i as usize, Proj::Gate), gate),
        call_ensures(expert_proj, (&vb, i as usize, Proj::Up), up),
        call_ensures(expert_proj, (&vb, i as usize, Proj::Down), down),
    ensures
        vb.checkpoint.gguf ==> r is Err,
        r matches Ok(m) ==> {
            let (n, h) = (cfg.expert_width(), cfg.hidden_size);
            let rows = Shard { dim: 0, rank: comm.rank, world_size: comm.world_size };
            let cols = Shard { dim: 1, rank: comm.rank, world_size: comm.world_size };
            let x = m.experts;
            &&& x.gate@.len() == cfg.experts() && x.up@.len() == cfg.experts() && x.down@.len() == cfg.experts()
            &&& x.gate@[i].blocks.shape@ == seq![n, h / 2] && x.up@[i].blocks.shape@ == seq![n, h / 2] && x.down@[i].blocks.shape@ == seq![
                h,
                n / 2,
            ]
            &&& x.gate@[i].scales.shape@ == seq![n, h / 32] && x.up@[i].scales.shape@ == seq![n, h / 32] && x.down@[i].scales.shape@ == seq![
                h,
                n / 32,
            ]
            &&& x.gate@[i].blocks.shard == rows && x.up@[i].blocks.shard == rows && x.down@[i].blocks.shard == cols
            &&& x.gate@[i].global_scale is One && x.up@[i].global_scale is One && x.down@[i].input_scale is One
            &&& x.gate_up_global@[i] is One && x.gate_up_input@[i] is One
            &&& x.joined.gate.start == 0 && x.joined.up.start == x.joined.gate.len && x.joined.up.len == x.joined.gate.len
        },
{
    if r is Ok {
        assert(at_proj(&gate, vb.checkpoint, vb.prefix@, i, Proj::Gate));
        assert(at_proj(&up, vb.checkpoint, vb.prefix@, i, Proj::Up));
        assert(at_proj(&down, vb.checkpoint, vb.prefix@, i, Proj::Down));
    }
}

/// NVFP4 experts are packed where the packed tensor or its factor exists. One by
/// one they have two values a byte, a scale for 16 columns and two factors, of
/// which those of gate count for up too. Router weights go to the outputs until
/// set otherwise, and a selection bias is read where a scope for it is given.
pub proof fn law_nvfp4_experts(
    cfg: Config,
    gate_vb: VarBuilderX,
    vb: VarBuilderX,
    bias_vb: Option<&VarBuilderX>,
    comm: Comm,
    dtype: DType,
    r: Result<FusedMoeNvfp4, MoeError>,
    i: int,
    gate: VarBuilderX,
    down: VarBuilderX,
)
    requires
        cfg.has_experts(),
        comm.wf(),
        2 * cfg.expert_width() <= usize::MAX,
        call_ensures(FusedMoeNvfp4::new_with_gate_and_bias, (&cfg, &gate_vb, &vb, bias_vb, &comm, dtype), r),
        0 <= i < cfg.experts(),
        call_ensures(expert_proj, (&vb, i as usize, Proj::Gate), gate),
        call_ensures(expert_proj, (&vb, i as usize, Proj::Down), down),
    ensures
        r is Err <==> vb.checkpoint.gguf,
        r matches Ok(m) ==> {
            let (e, n, h) = (cfg.experts(), cfg.expert_width(), cfg.hidden_size);
            &&& m.experts is Packed <==> vb.has("gate_up_proj"@) || vb.has("gate_up_proj_weight_scale_2"@)
            &&& m.bias is Some <==> bias_vb is Some
            &&& !m.apply_router_weight_on_input
            &&& cfg.higher_precision_required ==> m.gate_dtype == DType::F32
            &&& !cfg.higher_precision_required ==> m.gate_dtype == dtype
            &&& m.experts matches Nvfp4Experts::Packed(p) ==> {
                &&& p.gate_up.shape@ == seq![e, h / 2, (2 * n) as usize] && p.gate_up_scale.shape@ == seq![e, h / 16, (2 * n) as usize]
                &&& p.down.shape@ == seq![e, n / 2, h] && p.down_scale.shape@ == seq![e, n / 16, h]
                &&& p.gate_up.shard.dim == 0 && p.down.shard.dim == 1 && p.gate_up.shard.rank == comm.rank && p.down.shard.rank == comm.rank
                &&& p.joined.gate.len == n && p.joined.up.start == n
                &&& vb.has("gate_up_proj_weight_scale_2"@) ==> p.gate_up_global is Direct
                &&& !vb.has("gate_up_proj_weight_scale_2"@) && vb.has("gate_up_proj_weight_global_scale"@) ==> p.gate_up_global is Inverse
                &&& !vb.has("gate_up_proj_weight_scale_2"@) && !vb.has("gate_up_proj_weight_global_scale"@) ==> p.gate_up_global is One
                &&& vb.has("down_proj_input_scale"@) ==> p.down_input is Direct
                &&& !vb.has("down_proj_input_scale"@) && vb.has("down_proj_input_global_scale"@) ==> p.down_input is Inverse
            }
            &&& m.experts matches Nvfp4Experts::Each(x) ==> {
                &&& x.gate@[i].blocks.shape@ == seq![n, h / 2] && x.gate@[i].scales.shape@ == seq![n, h / 16]
                &&& x.down@[i].blocks.shape@ == seq![h, n / 2] && x.down@[i].scales.shape@ == seq![h, n / 16]
                &&& gate.is_global_scale(x.gate_up_global@[i]) && gate.is_input_scale(x.gate_up_input@[i])
                &&& down.is_global_scale(x.down@[i].global_scale) && down.is_input_scale(x.down@[i].input_scale)
                &&& x.gate@[i].blocks.shard.dim == 0 && x.down@[i].blocks.shard.dim == 1
            }
        },
{
    if r is Ok {
        assert(at_proj(&gate, vb.checkpoint, vb.prefix@, i, Proj::Gate));
        assert(at_proj(&down, vb.checkpoint, vb.prefix@, i, Proj::Down));
    }
}

/// The two switches change what they are named after and nothing else.
pub proof fn law_switches_of_nvfp4_experts(before: FusedMoeNvfp4, v: bool)
    ensures
        forall|m: &mut FusedMoeNvfp4, u: ()| *m == before && #[trigger] call_ensures(FusedMoeNvfp4::set_sigmoid_routing, (m,), u) ==> {
            &&& final(m).routing.use_sigmoid_scoring
            &&& final(m).routing.n_group == before.routing.n_group && final(m).routing.topk_group == before.routing.topk_group
            &&& final(m).apply_router_weight_on_input == before.apply_router_weight_on_input && final(m).experts == before.experts
        },
        forall|m: &mut FusedMoeNvfp4, u: ()| *m == before && #[trigger] call_ensures(
            FusedMoeNvfp4::set_apply_router_weight_on_input,
            (m, v),
            u,
        ) ==> {
            &&& final(m).apply_router_weight_on_input == v
            &&& final(m).routing == before.routing && final(m).experts == before.experts
        },
{
}

} // verus!
