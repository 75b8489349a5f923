//! Reads of expert weights: packed in one tensor, or expert by expert.

use crate::checkpoint::{dims1, dims2, dims3, Checkpoint, DType, Fetch, TensorRead, VarBuilderX};
use crate::config::Config;
use crate::distributed::{shard, Comm, Shard};
use crate::linear::{linear_no_bias_x, LinearSize, LinearX};
use crate::mlp::JoinedRows;
use crate::moe::routing::MoeRouting;
use crate::text::{decimal, decimal_of, path_of, same};
use vstd::arithmetic::div_mod::*;
use vstd::arithmetic::mul::*;
use vstd::prelude::*;

verus! {

/// Layout of the packed gate and up projections.
#[derive(Clone, Copy, Debug, PartialEq, Eq, Structural)]
pub enum PackedGateUpLayout {
    /// Experts, inputs, outputs.
    HiddenPacked,
    /// Experts, outputs, inputs.
    InterPacked,
}

/// Layout of the packed down projection.
#[derive(Clone, Copy, Debug, PartialEq, Eq, Structural)]
pub enum PackedDownLayout {
    /// Experts, inputs, outputs.
    InterHidden,
    /// Experts, outputs, inputs.
    HiddenInter,
}

/// Why experts cannot be read.
#[derive(Clone, Copy, Debug, PartialEq, Eq, Structural)]
pub enum MoeError {
    /// The format has no block-quantized form.
    Gguf,
    /// The layout of packed projections cannot be told from their shape.
    AmbiguousLayout { hidden_size: usize, intermediate_size: usize },
    /// There is no expert.
    NoExperts,
    /// The block size has not two elements.
    BlockSizeLen { len: usize },
    /// The router weight cannot be planned.
    Router,
    /// The width of the experts cannot be cut into whole blocks.
    Unsplittable { width: usize, world_size: usize, block: usize },
    /// The parts that were read do not fit together.
    PackedShapes,
    /// A scale slice lies outside of the scales.
    ScaleRange { start: usize, len: usize, total: usize },
}

/// Whether the architecture stores packed experts with outputs before inputs.
pub open spec fn outputs_first(arch: Seq<char>) -> bool {
    arch == "Qwen3_5MoeForCausalLM"@ || arch == "Qwen3_5MoeForConditionalGeneration"@ || arch == "Qwen3NextForCausalLM"@
        || arch == "Qwen3NextForConditionalGeneration"@ || arch == "Gemma4ForConditionalGeneration"@
        || arch == "Gemma4ForCausalLM"@
}

fn is_outputs_first(arch: &str) -> (r: bool)
    ensures
        r == outputs_first(arch@),
{
    same(arch, "Qwen3_5MoeForCausalLM") || same(arch, "Qwen3_5MoeForConditionalGeneration")
        || same(arch, "Qwen3NextForCausalLM") || same(arch, "Qwen3NextForConditionalGeneration")
        || same(arch, "Gemma4ForConditionalGeneration") || same(arch, "Gemma4ForCausalLM")
}

/// The layout of packed gate and up projections: by architecture, else inputs
/// first, unless both layouts have the same shape.
pub open spec fn gate_up_layout(cfg: Config) -> Result<PackedGateUpLayout, MoeError> {
    if outputs_first(cfg.arch()) {
        Ok(PackedGateUpLayout::InterPacked)
    } else if cfg.hidden_size == cfg.expert_width() * 2 {
        Err(MoeError::AmbiguousLayout { hidden_size: cfg.hidden_size, intermediate_size: cfg.expert_width() })
    } else {
        Ok(PackedGateUpLayout::HiddenPacked)
    }
}

pub fn resolve_packed_gate_up_layout(cfg: &Config) -> (r: Result<PackedGateUpLayout, MoeError>)
    requires
        !outputs_first(cfg.arch()) ==> cfg.moe_cfg is Some && cfg.expert_width() * 2 <= usize::MAX,
    ensures
        r == gate_up_layout(*cfg),
{
    let arch = cfg.first_arch();
    if is_outputs_first(arch.as_str()) {
        return Ok(PackedGateUpLayout::InterPacked);
    }
    match &cfg.moe_cfg {
        Some(m) => if cfg.hidden_size == m.moe_intermediate_size * 2 {
            Err(MoeError::AmbiguousLayout { hidden_size: cfg.hidden_size, intermediate_size: m.moe_intermediate_size })
        } else {
            Ok(PackedGateUpLayout::HiddenPacked)
        },
        None => Ok(PackedGateUpLayout::HiddenPacked),
    }
}

/// The layout of the packed down projection, by architecture.
pub open spec fn down_layout(cfg: Config) -> PackedDownLayout {
    if outputs_first(cfg.arch()) { PackedDownLayout::HiddenInter } else { PackedDownLayout::InterHidden }
}

pub fn resolve_packed_down_layout(cfg: &Config) -> (r: PackedDownLayout)
    ensures
        r == down_layout(*cfg),
{
    let arch = cfg.first_arch();
    if is_outputs_first(arch.as_str()) {
        PackedDownLayout::HiddenInter
    } else {
        PackedDownLayout::InterHidden
    }
}

/// Whether the expert at `scope` names its projections in full.
pub open spec fn full_names(ck: &Checkpoint, scope: Seq<char>) -> bool {
    ck.has(path_of(scope, "gate_proj.weight"@)) || ck.has(path_of(scope, "gate_proj.weight_packed"@))
        || ck.has(path_of(scope, "gate_proj.blocks"@))
}

/// The three projections of an expert.
#[derive(Clone, Copy, Debug, PartialEq, Eq, Structural)]
pub enum Proj {
    Gate,
    Up,
    Down,
}

/// The name of a projection of the expert at `scope`.
pub open spec fn proj_name(ck: &Checkpoint, scope: Seq<char>, proj: Proj) -> Seq<char> {
    if full_names(ck, scope) {
        match proj {
            Proj::Gate => "gate_proj"@,
            Proj::Up => "up_proj"@,
            Proj::Down => "down_proj"@,
        }
    } else {
        match proj {
            Proj::Gate => "w1"@,
            Proj::Up => "w3"@,
            Proj::Down => "w2"@,
        }
    }
}

/// The names of gate, up and down projections of an expert.
pub fn resolve_expert_proj_prefix_x(expert_vb: &VarBuilderX) -> (r: (&'static str, &'static str, &'static str))
    ensures
        r.0@ == proj_name(expert_vb.checkpoint, expert_vb.prefix@, Proj::Gate),
        r.1@ == proj_name(expert_vb.checkpoint, expert_vb.prefix@, Proj::Up),
        r.2@ == proj_name(expert_vb.checkpoint, expert_vb.prefix@, Proj::Down),
{
    if expert_vb.has_key("gate_proj.weight") || expert_vb.has_key("gate_proj.weight_packed")
        || expert_vb.has_key("gate_proj.blocks") {
        ("gate_proj", "up_proj", "down_proj")
    } else {
        ("w1", "w3", "w2")
    }
}

/// The scope of expert `i` below `scope`.
pub open spec fn expert_scope(scope: Seq<char>, i: int) -> Seq<char> {
    path_of(scope, decimal_of(i as nat))
}

/// The scope of a projection of expert `i` below `scope`.
pub open spec fn proj_scope(ck: &Checkpoint, scope: Seq<char>, i: int, proj: Proj) -> Seq<char> {
    path_of(expert_scope(scope, i), proj_name(ck, expert_scope(scope, i), proj))
}

/// A packed tensor, transposed after the read where inputs come first.
pub struct PackedRead {
    pub read: TensorRead,
    pub transpose: bool,
}

/// One projection of all experts.
pub enum ExpertSource {
    Packed(PackedRead),
    /// One tensor for each expert, stacked.
    Each(Vec<TensorRead>),
}

/// The projections of all experts, outputs before inputs once they are read.
pub struct ExpertTensors {
    pub gate: ExpertSource,
    pub up: ExpertSource,
    pub down: ExpertSource,
}

/// Half `half` (gate: 0, up: 1) of a dimension that a rank cuts after it was
/// cut in two.
pub open spec fn half_shard(dim: usize, half: int, rank: int, world_size: int) -> Shard {
    Shard { dim, rank: (rank + half * world_size) as usize, world_size: (world_size * 2) as usize }
}

/// Whether `src` is one packed read.
pub open spec fn packed_is(
    src: ExpertSource,
    path: Seq<char>,
    shape: Seq<usize>,
    s: Shard,
    dtype: DType,
    transpose: bool,
) -> bool {
    src matches ExpertSource::Packed(p) && p.transpose == transpose && p.read.reads(path, shape, s, dtype)
}

/// Whether `src` reads the weight of one projection of each expert.
pub open spec fn each_is(
    src: ExpertSource,
    vb: &VarBuilderX,
    proj: Proj,
    experts: int,
    rows: usize,
    cols: usize,
    s: Shard,
) -> bool {
    &&& src matches ExpertSource::Each(reads)
    &&& reads@.len() == experts
    &&& forall|i: int| 0 <= i < experts ==> (#[trigger] reads@[i]).reads(
        path_of(proj_scope(vb.checkpoint, vb.prefix@, i, proj), "weight"@), seq![rows, cols], s, vb.checkpoint.dtype)
}

impl ExpertTensors {
    /// Whether these are packed experts, cut for one rank of a group; the
    /// group of one rank reads the two halves whole.
    pub open spec fn is_packed(&self, cfg: Config, vb: &VarBuilderX, rank: int, world_size: int, layout: PackedGateUpLayout) -> bool {
        let e = cfg.experts();
        let h = cfg.hidden_size;
        let n = cfg.expert_width();
        let n2 = (n * 2) as usize;
        let dtype = vb.checkpoint.dtype;
        let gate_up = vb.spec_path("gate_up_proj"@);
        let down = vb.spec_path("down_proj"@);
        &&& match layout {
            PackedGateUpLayout::HiddenPacked => {
                &&& packed_is(self.gate, gate_up, seq![e, h, n2], half_shard(2, 0, rank, world_size), dtype, true)
                &&& packed_is(self.up, gate_up, seq![e, h, n2], half_shard(2, 1, rank, world_size), dtype, true)
            },
            PackedGateUpLayout::InterPacked => {
                &&& packed_is(self.gate, gate_up, seq![e, n2, h], half_shard(1, 0, rank, world_size), dtype, false)
                &&& packed_is(self.up, gate_up, seq![e, n2, h], half_shard(1, 1, rank, world_size), dtype, false)
            },
        }
        &&& match down_layout(cfg) {
            PackedDownLayout::InterHidden => packed_is(
                self.down, down, seq![e, n, h],
                (Shard { dim: 1, rank: rank as usize, world_size: world_size as usize }), dtype, true),
            PackedDownLayout::HiddenInter => packed_is(
                self.down, down, seq![e, h, n],
                (Shard { dim: 2, rank: rank as usize, world_size: world_size as usize }), dtype, false),
        }
    }

    /// Whether these are the experts one by one, cut for one rank.
    pub open spec fn is_each(&self, cfg: Config, vb: &VarBuilderX, rank: int, world_size: int) -> bool {
        let e = cfg.experts() as int;
        let h = cfg.hidden_size;
        let n = cfg.expert_width();
        let rows = Shard { dim: 0, rank: rank as usize, world_size: world_size as usize };
        let cols = Shard { dim: 1, rank: rank as usize, world_size: world_size as usize };
        &&& each_is(self.gate, vb, Proj::Gate, e, n, h, rows)
        &&& each_is(self.up, vb, Proj::Up, e, n, h, rows)
        &&& each_is(self.down, vb, Proj::Down, e, h, n, cols)
    }
}

/// Reads of one projection of each expert.
fn each_expert(vb: &VarBuilderX, proj: Proj, experts: usize, rows: usize, cols: usize, s: Shard) -> (r: ExpertSource)
    ensures
        each_is(r, vb, proj, experts as int, rows, cols, s),
{
    let mut reads: Vec<TensorRead> = Vec::new();
    let mut i: usize = 0;
    while i < experts
        invariant
            i <= experts,
            reads@.len() == i,
            forall|j: int| 0 <= j < i ==> (#[trigger] reads@[j]).reads(
                path_of(proj_scope(vb.checkpoint, vb.prefix@, j, proj), "weight"@), seq![rows, cols], s, vb.checkpoint.dtype),
        decreases experts - i,
    {
        let proj_vb = expert_proj(vb, i, proj);
        reads.push(proj_vb.get_with_hints("weight", dims2(rows, cols), s));
        i = i + 1;
    }
    ExpertSource::Each(reads)
}

/// The scope of a projection of expert `i`.
pub fn expert_proj<'a>(vb: &VarBuilderX<'a>, i: usize, proj: Proj) -> (r: VarBuilderX<'a>)
    ensures
        r.checkpoint == vb.checkpoint,
        r.prefix@ == proj_scope(vb.checkpoint, vb.prefix@, i as int, proj),
{
    let index = decimal(i);
    let expert_vb = vb.pp(index.as_str());
    let names = resolve_expert_proj_prefix_x(&expert_vb);
    match proj {
        Proj::Gate => expert_vb.pp(names.0),
        Proj::Up => expert_vb.pp(names.1),
        Proj::Down => expert_vb.pp(names.2),
    }
}

/// Packed reads for one rank.
pub fn packed_experts(cfg: &Config, vb: &VarBuilderX, rank: usize, world_size: usize, layout: PackedGateUpLayout) -> (r: ExpertTensors)
    requires
        cfg.has_experts(),
        cfg.expert_width() * 2 <= usize::MAX,
        rank < world_size,
        world_size * 2 <= usize::MAX,
    ensures
        r.is_packed(*cfg, vb, rank as int, world_size as int, layout),
{
    let (e, n) = expert_sizes(cfg);
    let h: usize = cfg.hidden_size;
    let ws2: usize = world_size * 2;
    let (gate, up) = match layout {
        PackedGateUpLayout::HiddenPacked => (
            PackedRead { read: vb.get_with_hints("gate_up_proj", dims3(e, h, n * 2), shard(2, rank, ws2)), transpose: true },
            PackedRead { read: vb.get_with_hints("gate_up_proj", dims3(e, h, n * 2), shard(2, rank + world_size, ws2)), transpose: true },
        ),
        PackedGateUpLayout::InterPacked => (
            PackedRead { read: vb.get_with_hints("gate_up_proj", dims3(e, n * 2, h), shard(1, rank, ws2)), transpose: false },
            PackedRead { read: vb.get_with_hints("gate_up_proj", dims3(e, n * 2, h), shard(1, rank + world_size, ws2)), transpose: false },
        ),
    };
    let down = match resolve_packed_down_layout(cfg) {
        PackedDownLayout::InterHidden => PackedRead {
            read: vb.get_with_hints("down_proj", dims3(e, n, h), shard(1, rank, world_size)),
            transpose: true,
        },
        PackedDownLayout::HiddenInter => PackedRead {
            read: vb.get_with_hints("down_proj", dims3(e, h, n), shard(2, rank, world_size)),
            transpose: false,
        },
    };
    ExpertTensors { gate: ExpertSource::Packed(gate), up: ExpertSource::Packed(up), down: ExpertSource::Packed(down) }
}

/// Number and width of the experts.
pub fn expert_sizes(cfg: &Config) -> (r: (usize, usize))
    requires
        cfg.has_experts(),
    ensures
        r == (cfg.experts(), cfg.expert_width()),
{
    match &cfg.moe_cfg {
        Some(m) => match m.num_experts {
            Some(e) => (e, m.moe_intermediate_size),
            None => (0, 0),
        },
        None => (0, 0),
    }
}

/// An unquantized mixture of experts.
pub struct FusedMoe {
    pub gate: LinearX,
    pub experts: ExpertTensors,
    /// Rows of the joined gate and up.
    pub joined: JoinedRows,
    /// Reads of the selection bias; it is left out where neither succeeds.
    pub bias: Fetch,
    pub routing: MoeRouting,
    pub gate_dtype: DType,
}

/// Whether `f` reads the selection bias below `gate`, else beside it.
pub open spec fn bias_fetch(f: Fetch, vb: &VarBuilderX, experts: usize) -> bool {
    &&& f.tries@.len() == 2
    &&& f.tries@[0].reads(
        path_of(vb.spec_path("gate"@), "e_score_correction_bias"@), seq![experts], Shard::whole(), DType::F32)
    &&& f.tries@[1].reads(vb.spec_path("e_score_correction_bias"@), seq![experts], Shard::whole(), DType::F32)
}

pub fn try_load_e_score_correction_bias(vb: &VarBuilderX, num_experts: usize) -> (r: Fetch)
    ensures
        bias_fetch(r, vb, num_experts),
{
    let gate = vb.pp("gate");
    Fetch::two(
        gate.read("e_score_correction_bias", dims1(num_experts), shard(0, 0, 1), DType::F32),
        vb.read("e_score_correction_bias", dims1(num_experts), shard(0, 0, 1), DType::F32),
    )
}

/// Element type of the router.
pub open spec fn router_dtype(cfg: Config, dtype: DType) -> DType {
    if cfg.higher_precision_required { DType::F32 } else { dtype }
}

/// Size of the router.
pub open spec fn router_size(cfg: Config, dtype: DType) -> LinearSize {
    LinearSize { in_dim: cfg.hidden_size, out_dim: cfg.experts(), shard: Shard::whole(), bias: false, dtype }
}

/// The router, read as it stands in the checkpoint.
pub fn plain_router(cfg: &Config, gate_vb: &VarBuilderX, dtype: DType) -> (r: Result<LinearX, MoeError>)
    requires
        cfg.has_experts(),
    ensures
        r matches Ok(gate) && gate.is_layer(gate_vb, router_size(*cfg, dtype), None, None),
{
    let (e, _n) = expert_sizes(cfg);
    match linear_no_bias_x(cfg.hidden_size, e, gate_vb, Shard::default(), &None, &None, dtype) {
        Ok(gate) => Ok(gate),
        Err(_) => Err(MoeError::Router),
    }
}

/// Why experts cannot be read, before any size is looked at.
pub open spec fn experts_refused(cfg: Config, vb: &VarBuilderX) -> Option<MoeError> {
    if vb.has("gate_up_proj"@) {
        if vb.checkpoint.gguf {
            Some(MoeError::Gguf)
        } else {
            match gate_up_layout(cfg) {
                Err(e) => Some(e),
                Ok(_) => None,
            }
        }
    } else if cfg.experts() == 0 {
        Some(MoeError::NoExperts)
    } else if vb.checkpoint.gguf {
        Some(MoeError::Gguf)
    } else {
        None
    }
}

impl FusedMoe {
    /// The reads of one rank: packed where the checkpoint packs, else expert
    /// by expert.
    pub open spec fn is_loaded(t: ExpertTensors, cfg: Config, vb: &VarBuilderX, rank: int, world_size: int) -> bool {
        if vb.has("gate_up_proj"@) {
            t.is_packed(cfg, vb, rank, world_size, gate_up_layout(cfg)->Ok_0)
        } else {
            t.is_each(cfg, vb, rank, world_size)
        }
    }

    pub fn load_packed(cfg: &Config, experts_vb: &VarBuilderX, comm: &Comm) -> (r: Result<ExpertTensors, MoeError>)
        requires
            cfg.has_experts(),
            cfg.expert_width() * 2 <= usize::MAX,
            comm.wf(),
            comm.world_size * 2 <= usize::MAX,
        ensures
            match experts_refused(*cfg, experts_vb) {
                Some(e) => r == Err::<ExpertTensors, MoeError>(e),
                None => r matches Ok(t) && Self::is_loaded(t, *cfg, experts_vb, comm.rank as int, comm.world_size as int),
            },
    {
        let (e, n) = expert_sizes(cfg);
        let h: usize = cfg.hidden_size;
        if experts_vb.has_key("gate_up_proj") {
            if experts_vb.is_qvar_builder() {
                return Err(MoeError::Gguf);
            }
            return match resolve_packed_gate_up_layout(cfg) {
                Ok(layout) => Ok(packed_experts(cfg, experts_vb, comm.rank(), comm.world_size(), layout)),
                Err(e) => Err(e),
            };
        }
        if e == 0 {
            return Err(MoeError::NoExperts);
        }
        if experts_vb.is_qvar_builder() {
            return Err(MoeError::Gguf);
        }
        let rows = shard(0, comm.rank(), comm.world_size());
        let cols = shard(1, comm.rank(), comm.world_size());
        Ok(
            ExpertTensors {
                gate: each_expert(experts_vb, Proj::Gate, e, n, h, rows),
                up: each_expert(experts_vb, Proj::Up, e, n, h, rows),
                down: each_expert(experts_vb, Proj::Down, e, h, n, cols),
            },
        )
    }

    /// Whether parts of packed tensors, as outputs by inputs, fit together.
    pub fn packed_shapes_agree(gate: (usize, usize), up: (usize, usize), down: (usize, usize), hidden_size: usize) -> (r: bool)
        ensures
            r == parts_agree(gate, up, down, hidden_size),
    {
        gate.0 == up.0 && gate.1 == up.1 && gate.1 == hidden_size && down.0 == hidden_size && down.1 == gate.0
    }

    /// Whether `r` is the plan for a router, experts and selection bias in
    /// these scopes.
    pub open spec fn planned(
        r: Result<Self, MoeError>,
        cfg: Config,
        gate_vb: &VarBuilderX,
        experts_vb: &VarBuilderX,
        bias_vb: &VarBuilderX,
        comm: Comm,
        dtype: DType,
    ) -> bool {
        match experts_refused(cfg, experts_vb) {
            Some(e) => r == Err::<Self, MoeError>(e),
            None => r matches Ok(m) && {
                &&& m.gate.is_layer(gate_vb, router_size(cfg, router_dtype(cfg, dtype)), None, None)
                &&& Self::is_loaded(m.experts, cfg, experts_vb, comm.rank as int, comm.world_size as int)
                &&& m.joined == JoinedRows::halves(cfg.expert_width() as int / comm.world_size as int)
                &&& bias_fetch(m.bias, bias_vb, cfg.experts())
                &&& m.routing.of(cfg)
                &&& m.gate_dtype == router_dtype(cfg, dtype)
            },
        }
    }

    pub fn new_with_gate(
        cfg: &Config,
        gate_vb: &VarBuilderX,
        experts_vb: &VarBuilderX,
        bias_vb: &VarBuilderX,
        comm: &Comm,
        dtype: DType,
    ) -> (r: Result<Self, MoeError>)
        requires
            cfg.has_experts(),
            cfg.quantization_config is None,
            cfg.expert_width() * 2 <= usize::MAX,
            comm.wf(),
            comm.world_size * 2 <= usize::MAX,
        ensures
            Self::planned(r, *cfg, gate_vb, experts_vb, bias_vb, *comm, dtype),
    {
        let gate_dtype = if cfg.higher_precision_required { DType::F32 } else { dtype };
        let (e, n) = expert_sizes(cfg);
        let gate = match plain_router(cfg, gate_vb, gate_dtype) {
            Ok(g) => g,
            Err(e) => return Err(e),
        };
        match Self::load_packed(cfg, experts_vb, comm) {
            Ok(experts) => Ok(
                FusedMoe {
                    gate,
                    experts,
                    joined: JoinedRows::of(n / comm.world_size()),
                    bias: try_load_e_score_correction_bias(bias_vb, e),
                    routing: MoeRouting::of_config(cfg),
                    gate_dtype,
                },
            ),
            Err(e) => Err(e),
        }
    }

    pub fn new(cfg: &Config, vb: &VarBuilderX, comm: &Comm, dtype: DType) -> (r: Result<Self, MoeError>)
        requires
            cfg.has_experts(),
            cfg.quantization_config is None,
            cfg.expert_width() * 2 <= usize::MAX,
            comm.wf(),
            comm.world_size * 2 <= usize::MAX,
        ensures
            Self::planned(r, *cfg, &vb.child("gate"@), &vb.child("experts"@), vb, *comm, dtype),
    {
        let gate_vb = vb.pp("gate");
        let experts_vb = vb.pp("experts");
        Self::new_with_gate(cfg, &gate_vb, &experts_vb, vb, comm, dtype)
    }
}

/// Whether parts of gate, up and down, as outputs by inputs, fit together.
pub open spec fn parts_agree(gate: (usize, usize), up: (usize, usize), down: (usize, usize), hidden_size: usize) -> bool {
    gate == up && gate.1 == hidden_size && down.0 == hidden_size && down.1 == gate.0
}

impl MoeRouting {
    /// Whether this is the routing that the configuration asks for.
    pub open spec fn of(self, cfg: Config) -> bool {
        cfg.moe_cfg matches Some(m) && self == (MoeRouting {
            use_sigmoid_scoring: crate::moe::routing::sigmoid_scoring(m),
            n_group: match m.n_group { Some(n) => n, None => 1 },
            topk_group: match m.topk_group { Some(n) => n, None => 1 },
            norm_topk_prob: m.norm_topk_prob,
            num_experts_per_tok: m.num_experts_per_tok,
        })
    }

    pub fn of_config(cfg: &Config) -> (r: Self)
        requires
            cfg.moe_cfg is Some,
        ensures
            r.of(*cfg),
    {
        match &cfg.moe_cfg {
            Some(m) => MoeRouting::from_moe_cfg(m),
            None => MoeRouting {
                use_sigmoid_scoring: false, n_group: 1, topk_group: 1, norm_topk_prob: false, num_experts_per_tok: 0,
            },
        }
    }
}

/// Outputs and inputs of a part of a packed tensor, once it is transposed
/// where it has to be.
pub open spec fn part_shape(shape: Seq<usize>, s: Shard, transpose: bool) -> (int, int) {
    let cut = |d: int| if s.dim == d { shape[d] as int / s.world_size as int } else { shape[d] as int };
    if transpose { (cut(2), cut(1)) } else { (cut(1), cut(2)) }
}

/// The parts that a rank reads of packed experts always fit together, where
/// the ranks divide the width.
pub proof fn law_packed_parts_agree(t: ExpertTensors, cfg: Config, vb: &VarBuilderX, comm: Comm, layout: PackedGateUpLayout)
    requires
        cfg.has_experts(),
        cfg.expert_width() * 2 <= usize::MAX,
        comm.wf(),
        comm.world_size * 2 <= usize::MAX,
        cfg.expert_width() % comm.world_size == 0,
        t.is_packed(cfg, vb, comm.rank as int, comm.world_size as int, layout),
    ensures
        ({
            let (g, u, d) = (t.gate->Packed_0, t.up->Packed_0, t.down->Packed_0);
            let gate = part_shape(g.read.shape@, g.read.shard, g.transpose);
            let up = part_shape(u.read.shape@, u.read.shard, u.transpose);
            let down = part_shape(d.read.shape@, d.read.shard, d.transpose);
            &&& gate == (cfg.expert_width() as int / comm.world_size as int, cfg.hidden_size as int)
            &&& up == gate
            &&& down == (cfg.hidden_size as int, cfg.expert_width() as int / comm.world_size as int)
        }),
{
    let n = cfg.expert_width() as int;
    let w = comm.world_size as int;
    lemma_div_denominator(n * 2, 2, w);
    lemma_div_multiples_vanish(n, 2);
    lemma_mul_is_commutative(2, w);
    lemma_mul_is_commutative(n, 2);
    assert((n * 2) / (w * 2) == n / w);
}

/// Packed experts have outputs before inputs exactly in the architectures that
/// store them so; for others a shape that fits both layouts is refused.
pub proof fn law_layouts_by_architecture(cfg: Config, gate_up: Result<PackedGateUpLayout, MoeError>, down: PackedDownLayout)
    requires
        call_ensures(resolve_packed_gate_up_layout, (&cfg,), gate_up),
        call_ensures(resolve_packed_down_layout, (&cfg,), down),
    ensures
        ({
            let a = cfg.arch();
            let outputs = a == "Qwen3_5MoeForCausalLM"@ || a == "Qwen3_5MoeForConditionalGeneration"@ || a == "Qwen3NextForCausalLM"@ || a
                == "Qwen3NextForConditionalGeneration"@ || a == "Gemma4ForConditionalGeneration"@ || a == "Gemma4ForCausalLM"@;
            &&& down == PackedDownLayout::HiddenInter <==> outputs
            &&& gate_up == Ok::<PackedGateUpLayout, MoeError>(PackedGateUpLayout::InterPacked) <==> outputs
            &&& gate_up is Err <==> !outputs && cfg.hidden_size == cfg.expert_width() + cfg.expert_width()
        }),
{
}

/// The projections of an expert have long names where one of them exists, else
/// short ones: gate, up, down are the first, third and second.
pub proof fn law_names_of_expert_projections(vb: VarBuilderX, r: (&'static str, &'static str, &'static str))
    requires
        call_ensures(resolve_expert_proj_prefix_x, (&vb,), r),
    ensures
        vb.has("gate_proj.weight"@) || vb.has("gate_proj.weight_packed"@) || vb.has("gate_proj.blocks"@) ==> r.0@ == "gate_proj"@ && r.1@
            == "up_proj"@ && r.2@ == "down_proj"@,
        !vb.has("gate_proj.weight"@) && !vb.has("gate_proj.weight_packed"@) && !vb.has("gate_proj.blocks"@) ==> r.0@ == "w1"@ && r.1@
            == "w3"@ && r.2@ == "w2"@,
{
}

/// What a rank reads of packed experts: of gate and up, in one tensor, its
/// share of each half, along the outputs; of down its share of the inputs.
/// Tensors with inputs first are transposed.
pub proof fn law_packed_experts_are_cut_in_halves(
    cfg: Config,
    vb: VarBuilderX,
    rank: usize,
    world_size: usize,
    layout: PackedGateUpLayout,
    r: ExpertTensors,
    down: PackedDownLayout,
)
    requires
        cfg.has_experts(),
        cfg.expert_width() * 2 <= usize::MAX,
        rank < world_size,
        world_size * 2 <= usize::MAX,
        call_ensures(packed_experts, (&cfg, &vb, rank, world_size, layout), r),
        call_ensures(resolve_packed_down_layout, (&cfg,), down),
    ensures
        ({
            let (e, n, h) = (cfg.experts(), cfg.expert_width(), cfg.hidden_size);
            let both = (n + n) as usize;
            &&& r.gate matches ExpertSource::Packed(g) && r.up matches ExpertSource::Packed(u) && {
                &&& g.read.shard.rank == rank && u.read.shard.rank == rank + world_size
                &&& g.read.shard.world_size == world_size + world_size && u.read.shard.world_size == world_size + world_size
                &&& g.read.path@ == u.read.path@ && g.read.shape@ == u.read.shape@ && g.transpose == u.transpose
                &&& layout == PackedGateUpLayout::HiddenPacked ==> g.read.shape@ == seq![e, h, both] && g.read.shard.dim == 2 && u.read.shard.dim
                    == 2 && g.transpose
                &&& layout == PackedGateUpLayout::InterPacked ==> g.read.shape@ == seq![e, both, h] && g.read.shard.dim == 1 && u.read.shard.dim
                    == 1 && !g.transpose
            }
            &&& r.down matches ExpertSource::Packed(d) && {
                &&& d.read.shard.rank == rank && d.read.shard.world_size == world_size
                &&& down == PackedDownLayout::InterHidden ==> d.read.shape@ == seq![e, n, h] && d.read.shard.dim == 1 && d.transpose
                &&& down == PackedDownLayout::HiddenInter ==> d.read.shape@ == seq![e, h, n] && d.read.shard.dim == 2 && !d.transpose
            }
        }),
{
}

/// Experts are packed exactly where the checkpoint has the packed tensor; one by
/// one, gate and up are cut along their outputs and down along its inputs.
/// Block-quantized files and an empty set of experts are refused.
pub proof fn law_experts_are_read_as_they_are_stored(cfg: Config, vb: VarBuilderX, comm: Comm, r: Result<ExpertTensors, MoeError>, i: int)
    requires
        cfg.has_experts(),
        cfg.expert_width() * 2 <= usize::MAX,
        comm.wf(),
        comm.world_size * 2 <= usize::MAX,
        call_ensures(FusedMoe::load_packed, (&cfg, &vb, &comm), r),
        0 <= i < cfg.experts(),
    ensures
        vb.checkpoint.gguf ==> r == Err::<ExpertTensors, MoeError>(MoeError::Gguf),
        !vb.checkpoint.gguf && !vb.has("gate_up_proj"@) ==> (r matches Ok(t) && {
            let (n, h) = (cfg.expert_width(), cfg.hidden_size);
            &&& t.gate matches ExpertSource::Each(g) && g@.len() == cfg.experts() && g@[i].shape@ == seq![n, h] && g@[i].shard == (Shard {
                dim: 0,
                rank: comm.rank,
                world_size: comm.world_size,
            })
            &&& t.up matches ExpertSource::Each(g) && g@.len() == cfg.experts() && g@[i].shape@ == seq![n, h] && g@[i].shard == (Shard {
                dim: 0,
                rank: comm.rank,
                world_size: comm.world_size,
            })
            &&& t.down matches ExpertSource::Each(g) && g@.len() == cfg.experts() && g@[i].shape@ == seq![h, n] && g@[i].shard == (Shard {
                dim: 1,
                rank: comm.rank,
                world_size: comm.world_size,
            })
        }),
        vb.has("gate_up_proj"@) ==> (r matches Ok(t) ==> t.gate is Packed && t.up is Packed && t.down is Packed),
{
}

/// The selection bias is looked for below the router, then beside it, one value
/// for each expert, in single precision.
pub proof fn law_selection_bias_has_two_places(vb: VarBuilderX, experts: usize, r: Fetch)
    requires
        call_ensures(try_load_e_score_correction_bias, (&vb, experts), r),
    ensures
        r.tries@.len() == 2,
        r.tries@[0].path@ == path_of(vb.spec_path("gate"@), "e_score_correction_bias"@),
        r.tries@[1].path@ == vb.spec_path("e_score_correction_bias"@),
        r.tries@[0].shape@ == seq![experts] && r.tries@[1].shape@ == seq![experts],
        r.tries@[0].dtype == DType::F32 && r.tries@[1].dtype == DType::F32,
{
}

/// Parts of gate, up and down fit together where gate and up are of one shape,
/// from the hidden size, and down goes back to it.
pub proof fn law_parts_fit_together(gate: (usize, usize), up: (usize, usize), down: (usize, usize), hidden: usize, r: bool)
    requires
        call_ensures(FusedMoe::packed_shapes_agree, (gate, up, down, hidden), r),
    ensures
        r <==> gate.0 == up.0 && gate.1 == up.1 && gate.1 == hidden && down.0 == hidden && down.1 == gate.0,
{
}

/// A planned mixture: a router from the hidden size to the experts, in single
/// precision where higher precision is needed; gate rows, then as many up rows,
/// of the rank's share; routing as the configuration says.
pub proof fn law_planned_mixtures(
    cfg: Config,
    gate_vb: VarBuilderX,
    experts_vb: VarBuilderX,
    bias_vb: VarBuilderX,
    comm: Comm,
    dtype: DType,
    r: Result<FusedMoe, MoeError>,
    routing: MoeRouting,
)
    requires
        cfg.has_experts(),
        cfg.expert_width() * 2 <= usize::MAX,
        comm.wf(),
        call_ensures(FusedMoe::new_with_gate, (&cfg, &gate_vb, &experts_vb, &bias_vb, &comm, dtype), r),
        call_ensures(MoeRouting::of_config, (&cfg,), routing),
        r is Ok,
    ensures
        ({
            let m = r->Ok_0;
            &&& m.routing == routing
            &&& cfg.higher_precision_required ==> m.gate_dtype == DType::F32
            &&& !cfg.higher_precision_required ==> m.gate_dtype == dtype
            &&& m.gate matches LinearX::Linear(l) ==> l.weight.shape@ == seq![cfg.experts(), cfg.hidden_size] && l.bias is None && l.dtype
                == m.gate_dtype && l.weight.shard == Shard::whole()
            &&& m.joined.gate.start == 0 && m.joined.up.start == m.joined.gate.len && m.joined.up.len == m.joined.gate.len
            &&& m.joined.gate.len * comm.world_size <= cfg.expert_width() < (m.joined.gate.len + 1) * comm.world_size
        }),
{
    let (n, w) = (cfg.expert_width() as int, comm.world_size as int);
    let k = n / w;
    lemma_fundamental_div_mod(n, w);
    lemma_mul_is_commutative(w, k);
    lemma_div_pos_is_pos(n, w);
    lemma_div_nonincreasing(n, w);
    assert((k + 1) * w == k * w + w) by (nonlinear_arith);
}

/// Experts have the number and width of the configuration; an unquantized router
/// has a row of the hidden size for each of them, in full on every rank.
pub proof fn law_routers_have_a_row_for_each_expert(cfg: Config, gate_vb: VarBuilderX, dtype: DType, n: (usize, usize), r: Result<LinearX, MoeError>)
    requires
        cfg.has_experts(),
        call_ensures(expert_sizes, (&cfg,), n),
        call_ensures(plain_router, (&cfg, &gate_vb, dtype), r),
    ensures
        n.0 == cfg.moe_cfg->0.num_experts->0,
        n.1 == cfg.moe_cfg->0.moe_intermediate_size,
        r is Ok,
        !gate_vb.checkpoint.gguf ==> (r->Ok_0 matches LinearX::Linear(w) && w.weight.shape@ == seq![n.0, cfg.hidden_size] && w.bias is None
            && w.dtype == dtype && w.weight.shard.world_size == 1 && w.weight.path@ == gate_vb.spec_path("weight"@)),
{
}

} // verus!
