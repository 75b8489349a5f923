//! Experts in block-quantized types: from block-quantized files, or quantized
//! at load time. Parts of experts must be made of whole blocks, so the ranks
//! may get parts of different width.

use crate::checkpoint::{dims2, dims3, DType, Fetch, TensorRead, VarBuilderX};
use crate::config::Config;
use crate::distributed::{Comm, Shard, Span};
use crate::ggml::QuantType;
use crate::linear::LinearX;
use crate::mlp::JoinedRows;
use crate::moe::experts::{bias_fetch, expert_scope, expert_sizes, experts_refused, gate_up_layout, half_shard, packed_experts, packed_is, plain_router, resolve_packed_gate_up_layout, router_size, try_load_e_score_correction_bias, ExpertSource, ExpertTensors, FusedMoe, MoeError, PackedGateUpLayout};
use crate::moe::routing::MoeRouting;
use crate::text::{decimal, path_of};
use vstd::arithmetic::div_mod::*;
use vstd::arithmetic::mul::*;
use vstd::prelude::*;

verus! {

/// Width of the part of each rank but the last: an equal share, rounded up to
/// whole blocks.
pub open spec fn block_chunk(width: int, world_size: int, block: int) -> int {
    let base = width / world_size;
    if base % block != 0 { (base + block - 1) / block * block } else { base }
}

/// The part of a rank: its share, or what is left of the width. `None` where
/// that is nothing, or not made of whole blocks.
pub open spec fn block_part(width: int, rank: int, world_size: int, block: int) -> Option<Span> {
    let chunk = block_chunk(width, world_size, block);
    let start = rank * chunk;
    let len = if start + chunk < width { chunk } else { width - start };
    if len > 0 && len % block == 0 {
        Some(Span { start: start as usize, len: len as usize })
    } else {
        None
    }
}

proof fn lemma_block_chunk(width: int, world_size: int, block: int)
    requires
        width >= 0,
        world_size > 0,
        block > 0,
    ensures
        0 <= width / world_size <= block_chunk(width, world_size, block) < width / world_size + block,
        block_chunk(width, world_size, block) % block == 0,
        width / world_size <= width,
{
    let base = width / world_size;
    lemma_div_pos_is_pos(width, world_size);
    lemma_div_nonincreasing(width, world_size);
    let q = (base + block - 1) / block;
    lemma_fundamental_div_mod(base + block - 1, block);
    lemma_mod_bound(base + block - 1, block);
    lemma_mul_is_commutative(q, block);
    lemma_mod_multiples_basic(q, block);
}

fn share(width: usize, world_size: usize, block: usize) -> (r: usize)
    requires
        world_size > 0,
        block > 0,
        width + block <= usize::MAX,
    ensures
        r == block_chunk(width as int, world_size as int, block as int),
{
    proof {
        lemma_block_chunk(width as int, world_size as int, block as int);
    }
    let base: usize = width / world_size;
    if base % block != 0 {
        (base + block - 1) / block * block
    } else {
        base
    }
}

/// The part of a rank of experts of that width.
pub fn split_blocks(width: usize, comm: &Comm, block: usize) -> (r: Option<Span>)
    requires
        comm.wf(),
        block > 0,
        width + block <= usize::MAX,
    ensures
        r == block_part(width as int, comm.rank as int, comm.world_size as int, block as int),
{
    let chunk: usize = share(width, comm.world_size(), block);
    proof {
        lemma_mul_nonnegative(comm.rank as int, chunk as int);
        assert(comm.rank * chunk <= u64::MAX as int * u64::MAX as int) by (nonlinear_arith)
            requires
                0 <= comm.rank <= u64::MAX,
                0 <= chunk <= u64::MAX,
        ;
    }
    let start: u128 = comm.rank() as u128 * chunk as u128;
    if start >= width as u128 {
        return None;
    }
    let first: usize = start as usize;
    let len: usize = if chunk < width - first { chunk } else { width - first };
    if len > 0 && len % block == 0 {
        Some(Span { start: first, len })
    } else {
        None
    }
}

/// The parts of the ranks never overlap.
pub proof fn law_block_parts_disjoint(width: nat, world_size: nat, block: nat, a: nat, b: nat)
    requires
        world_size > 0,
        block > 0,
        a < b,
        width + block <= usize::MAX,
        block_part(width as int, a as int, world_size as int, block as int) is Some,
        block_part(width as int, b as int, world_size as int, block as int) is Some,
    ensures
        ({
            let pa = block_part(width as int, a as int, world_size as int, block as int)->0;
            let pb = block_part(width as int, b as int, world_size as int, block as int)->0;
            pa.start + pa.len <= pb.start
        }),
{
    let chunk = block_chunk(width as int, world_size as int, block as int);
    lemma_block_chunk(width as int, world_size as int, block as int);
    lemma_mul_inequality(a as int + 1, b as int, chunk);
    lemma_mul_is_distributive_add_other_way(chunk, a as int, 1);
    lemma_mul_nonnegative(a as int, chunk);
    lemma_mul_nonnegative(b as int, chunk);
}

/// Where the width is made of whole blocks, and the ranks divide it or an
/// equal share is not made of whole blocks, every column is in the part of
/// some rank.
pub proof fn law_block_parts_cover(width: nat, world_size: nat, block: nat, column: nat) -> (rank: nat)
    requires
        world_size > 0,
        block > 0,
        width % block == 0,
        width % world_size == 0 || (width / world_size) % block != 0,
        column < width,
        width + block <= usize::MAX,
    ensures
        rank < world_size,
        block_part(width as int, rank as int, world_size as int, block as int) matches Some(p)
            && p.start <= column < p.start + p.len,
{
    let w = world_size as int;
    let b = block as int;
    let chunk = block_chunk(width as int, w, b);
    let base = width as int / w;
    lemma_block_chunk(width as int, w, b);
    lemma_fundamental_div_mod(width as int, w);
    lemma_mod_bound(width as int, w);
    assert(w * chunk >= width) by (nonlinear_arith)
        requires
            width as int == w * base + width as int % w,
            width as int % w < w,
            w > 0,
            chunk >= base,
            (width as int % w == 0) || chunk >= base + 1,
    ;
    assert(chunk > 0) by (nonlinear_arith)
        requires
            w * chunk >= width,
            width > 0,
            w > 0,
    ;
    let rank = (column as int / chunk) as nat;
    lemma_fundamental_div_mod(column as int, chunk);
    lemma_mod_bound(column as int, chunk);
    lemma_div_pos_is_pos(column as int, chunk);
    lemma_mul_is_commutative(chunk, rank as int);
    lemma_mul_is_commutative(chunk, w);
    lemma_multiply_divide_lt(column as int, chunk, w);
    let start = rank as int * chunk;
    // Start and width are both whole blocks, so what is between them is too.
    lemma_mul_mod_noop_right(rank as int, chunk, b);
    assert(rank as int * 0 == 0);
    lemma_small_mod(0, block);
    lemma_sub_mod_noop(width as int, start, b);
    rank
}

/// A part of the tensors of all experts.
#[derive(Debug, Clone, Copy, PartialEq, Eq, Structural)]
pub struct ExpertCut {
    pub dim: usize,
    pub span: Span,
}

/// What becomes of tensors of experts, outputs before inputs, once they are
/// read: they are cut, where a cut is given, and then quantized, where a type
/// is given; else stored blocks stay as they are.
#[derive(Debug, Clone, Copy, PartialEq, Eq, Structural)]
pub struct BlockForm {
    pub gate_up_cut: Option<ExpertCut>,
    pub gate_up: Option<QuantType>,
    pub down_cut: Option<ExpertCut>,
    pub down: Option<QuantType>,
}

impl BlockForm {
    /// The cuts that keep `part` of the width: outputs of gate and up, inputs
    /// of down.
    pub open spec fn keeps(part: Option<Span>, gate_up: Option<QuantType>, down: Option<QuantType>) -> Self {
        BlockForm {
            gate_up_cut: match part { Some(span) => Some(ExpertCut { dim: 1, span }), None => None },
            gate_up,
            down_cut: match part { Some(span) => Some(ExpertCut { dim: 2, span }), None => None },
            down,
        }
    }

    fn keep(part: Option<Span>, gate_up: Option<QuantType>, down: Option<QuantType>) -> (r: Self)
        ensures
            r == Self::keeps(part, gate_up, down),
    {
        match part {
            Some(span) => BlockForm {
                gate_up_cut: Some(ExpertCut { dim: 1, span }),
                gate_up,
                down_cut: Some(ExpertCut { dim: 2, span }),
                down,
            },
            None => BlockForm { gate_up_cut: None, gate_up, down_cut: None, down },
        }
    }
}

/// Experts of a block-quantized file.
pub struct FusedMoeGGUF {
    /// Weight of the router.
    pub gate: TensorRead,
    /// Gate and up in one tensor, used where it can be read.
    pub gate_up: TensorRead,
    /// Rows of that tensor.
    pub joined: JoinedRows,
    /// Used where the packed tensor cannot be read.
    pub gate_experts: TensorRead,
    pub up_experts: TensorRead,
    pub down_experts: TensorRead,
    /// The part of this rank, nothing for a single rank.
    pub part: Option<Span>,
    pub routing: MoeRouting,
}

impl FusedMoeGGUF {
    /// What becomes of the tensors; `packed` is the stored type of gate and up
    /// in one tensor, where that could be read. Parts of a rank are quantized
    /// again; halves of the one tensor get its type back.
    pub fn form(&self, packed: Option<QuantType>) -> (r: BlockForm)
        ensures
            r == (match self.part {
                Some(part) => BlockForm::keeps(Some(part), Some(QuantType::Q4K), Some(QuantType::Q8_0)),
                None => BlockForm::keeps(None, packed, None),
            }),
    {
        match self.part {
            Some(part) => BlockForm::keep(Some(part), Some(QuantType::Q4K), Some(QuantType::Q8_0)),
            None => BlockForm::keep(None, packed, None),
        }
    }

    pub open spec fn is_read(&self, cfg: Config, vb: &VarBuilderX) -> bool {
        let e = cfg.experts();
        let n = cfg.expert_width();
        let h = cfg.hidden_size;
        let dtype = vb.checkpoint.dtype;
        let at = |name: Seq<char>| path_of(vb.spec_path(name), "weight"@);
        &&& self.gate.reads(at("ffn_gate_inp"@), seq![e, h], Shard::whole(), dtype)
        &&& self.gate_up.reads(at("ffn_gate_up_exps"@), seq![e, (n * 2) as usize, h], Shard::whole(), dtype)
        &&& self.joined == JoinedRows::halves(n as int)
        &&& self.gate_experts.reads(at("ffn_gate_exps"@), seq![e, n, h], Shard::whole(), dtype)
        &&& self.up_experts.reads(at("ffn_up_exps"@), seq![e, n, h], Shard::whole(), dtype)
        &&& self.down_experts.reads(at("ffn_down_exps"@), seq![e, h, n], Shard::whole(), dtype)
        &&& self.routing.of(cfg)
    }

    fn read(cfg: &Config, vb: &VarBuilderX, part: Option<Span>) -> (r: Self)
        requires
            cfg.has_experts(),
            cfg.expert_width() * 2 <= usize::MAX,
        ensures
            r.is_read(*cfg, vb),
            r.part == part,
    {
        let (e, n) = expert_sizes(cfg);
        let h: usize = cfg.hidden_size;
        let gate_vb = vb.pp("ffn_gate_inp");
        let packed_vb = vb.pp("ffn_gate_up_exps");
        let gate_exps = vb.pp("ffn_gate_exps");
        let up_exps = vb.pp("ffn_up_exps");
        let down_exps = vb.pp("ffn_down_exps");
        FusedMoeGGUF {
            gate: gate_vb.get("weight", dims2(e, h)),
            gate_up: packed_vb.get("weight", dims3(e, n * 2, h)),
            joined: JoinedRows::of(n),
            gate_experts: gate_exps.get("weight", dims3(e, n, h)),
            up_experts: up_exps.get("weight", dims3(e, n, h)),
            down_experts: down_exps.get("weight", dims3(e, h, n)),
            part,
            routing: MoeRouting::of_config(cfg),
        }
    }

    /// Whether `r` is the plan of the experts in the scope: read in full by a
    /// single rank, else cut into parts of whole blocks.
    pub open spec fn planned(r: Result<Self, MoeError>, cfg: Config, vb: &VarBuilderX, comm: Comm) -> bool {
        if comm.world_size <= 1 {
            r matches Ok(m) && m.is_read(cfg, vb) && m.part is None
        } else {
            match block_part(cfg.expert_width() as int, comm.rank as int, comm.world_size as int, 256) {
                Some(part) => r matches Ok(m) && m.is_read(cfg, vb) && m.part == Some(part),
                None => r == Err::<Self, MoeError>(
                    MoeError::Unsplittable { width: cfg.expert_width(), world_size: comm.world_size, block: 256 }),
            }
        }
    }

    /// Experts that are cut and quantized again for one rank of a group.
    pub fn new_repack(cfg: &Config, vb: &VarBuilderX, comm: &Comm) -> (r: Result<Self, MoeError>)
        requires
            cfg.has_experts(),
            cfg.expert_width() * 2 <= usize::MAX,
            cfg.expert_width() + 256 <= usize::MAX,
            vb.checkpoint.gguf,
            comm.wf(),
        ensures
            match block_part(cfg.expert_width() as int, comm.rank as int, comm.world_size as int, 256) {
                Some(part) => r matches Ok(m) && m.is_read(*cfg, vb) && m.part == Some(part),
                None => r == Err::<Self, MoeError>(
                    MoeError::Unsplittable { width: cfg.expert_width(), world_size: comm.world_size, block: 256 }),
            },
    {
        let (_e, n) = expert_sizes(cfg);
        let block: usize = QuantType::Q4K.block_size();
        match split_blocks(n, comm, block) {
            Some(part) => Ok(Self::read(cfg, vb, Some(part))),
            None => Err(MoeError::Unsplittable { width: n, world_size: comm.world_size(), block }),
        }
    }

    pub fn new(cfg: &Config, vb: &VarBuilderX, comm: &Comm) -> (r: Result<Self, MoeError>)
        requires
            cfg.has_experts(),
            cfg.expert_width() * 2 <= usize::MAX,
            cfg.expert_width() + 256 <= usize::MAX,
            vb.checkpoint.gguf,
            comm.wf(),
        ensures
            Self::planned(r, *cfg, vb, *comm),
    {
        if comm.world_size() > 1 {
            Self::new_repack(cfg, vb, comm)
        } else {
            Ok(Self::read(cfg, vb, None))
        }
    }
}

/// Where experts that are quantized at load time come from.
pub enum IsqExperts {
    /// Each rank reads its own part.
    Parts(ExpertTensors),
    /// Each rank reads all and keeps `part` of the width.
    Whole { gate: ExpertSource, up: ExpertSource, down: DownSource, part: Span },
}

/// The down projection of all experts, whole.
pub enum DownSource {
    /// Packed: the first read that succeeds counts.
    Packed { inputs_first: TensorRead, outputs_first: TensorRead },
    Each(Vec<TensorRead>),
}

/// Experts that are quantized at load time, gate and up to `quant_type`, down
/// to [`QuantType::Q8_0`].
pub struct FusedMoeISQ {
    pub gate: LinearX,
    pub experts: IsqExperts,
    pub quant_type: QuantType,
    pub bias: Fetch,
    pub routing: MoeRouting,
}

/// The type that gate and up become when `asked` is asked for and experts may
/// be cut unevenly: `asked`, where an even or an uneven cut can be made of its
/// blocks, else [`QuantType::Q8_0`].
pub open spec fn uneven_type(asked: QuantType, width: int, world_size: int) -> QuantType {
    let block = asked.block_elems() as int;
    if world_size > 1 && (width / world_size) % block != 0
        && (width - block_chunk(width, world_size, block)) % (world_size - 1) != 0 {
        QuantType::Q8_0
    } else {
        asked
    }
}

/// Whether `src` reads one named projection of each expert whole.
pub open spec fn each_whole(reads: Seq<TensorRead>, vb: &VarBuilderX, name: Seq<char>, experts: int, rows: usize, cols: usize) -> bool {
    &&& reads.len() == experts
    &&& forall|i: int| 0 <= i < experts ==> (#[trigger] reads[i]).reads(
        path_of(path_of(expert_scope(vb.prefix@, i), name), "weight"@), seq![rows, cols], Shard::whole(), vb.checkpoint.dtype)
}

fn read_each_whole(vb: &VarBuilderX, name: &str, experts: usize, rows: usize, cols: usize) -> (r: Vec<TensorRead>)
    ensures
        each_whole(r@, vb, name@, experts as int, rows, cols),
{
    let mut reads: Vec<TensorRead> = Vec::new();
    let mut i: usize = 0;
    while i < experts
        invariant
            i <= experts,
            reads@.len() == i,
            forall|j: int| 0 <= j < i ==> (#[trigger] reads@[j]).reads(
                path_of(path_of(expert_scope(vb.prefix@, j), name@), "weight"@), seq![rows, cols], Shard::whole(), vb.checkpoint.dtype),
        decreases experts - i,
    {
        let index = decimal(i);
        let expert_vb = vb.pp(index.as_str());
        let proj_vb = expert_vb.pp(name);
        reads.push(proj_vb.get_with_hints("weight", dims2(rows, cols), Shard::default()));
        i = i + 1;
    }
    reads
}

impl FusedMoeISQ {
    /// What becomes of the tensors.
    pub fn form(&self) -> (r: BlockForm)
        ensures
            r == BlockForm::keeps(
                (match self.experts { IsqExperts::Whole { part, .. } => Some(part), IsqExperts::Parts(_) => None }),
                Some(self.quant_type),
                Some(QuantType::Q8_0),
            ),
    {
        let part: Option<Span> = match &self.experts {
            IsqExperts::Whole { part, .. } => Some(*part),
            IsqExperts::Parts(_) => None,
        };
        BlockForm::keep(part, Some(self.quant_type), Some(QuantType::Q8_0))
    }

    /// Whether `experts` are read whole.
    pub open spec fn is_whole(experts: IsqExperts, cfg: Config, vb: &VarBuilderX, part: Span) -> bool {
        let e = cfg.experts();
        let n = cfg.expert_width();
        let n2 = (n * 2) as usize;
        let h = cfg.hidden_size;
        let dtype = vb.checkpoint.dtype;
        &&& experts matches IsqExperts::Whole { gate, up, down, part: p }
        &&& p == part
        &&& if vb.has("gate_up_proj"@) {
            let path = vb.spec_path("gate_up_proj"@);
            &&& match gate_up_layout(cfg)->Ok_0 {
                PackedGateUpLayout::HiddenPacked => {
                    &&& packed_is(gate, path, seq![e, h, n2], half_shard(2, 0, 0, 1), dtype, true)
                    &&& packed_is(up, path, seq![e, h, n2], half_shard(2, 1, 0, 1), dtype, true)
                },
                PackedGateUpLayout::InterPacked => {
                    &&& packed_is(gate, path, seq![e, n2, h], half_shard(1, 0, 0, 1), dtype, false)
                    &&& packed_is(up, path, seq![e, n2, h], half_shard(1, 1, 0, 1), dtype, false)
                },
            }
            &&& down matches DownSource::Packed { inputs_first, outputs_first }
            &&& inputs_first.reads(vb.spec_path("down_proj"@), seq![e, n, h], Shard::whole(), dtype)
            &&& outputs_first.reads(vb.spec_path("down_proj"@), seq![e, h, n], Shard::whole(), dtype)
        } else {
            &&& gate matches ExpertSource::Each(g) && each_whole(g@, vb, "gate_proj"@, e as int, n, h)
            &&& up matches ExpertSource::Each(u) && each_whole(u@, vb, "up_proj"@, e as int, n, h)
            &&& down matches DownSource::Each(d) && each_whole(d@, vb, "down_proj"@, e as int, h, n)
        }
    }

    /// Whether `r` is the plan of experts that become `quant`: each rank
    /// reads its part where the parts are whole blocks, else it reads all and
    /// keeps a part of whole blocks.
    pub open spec fn planned_experts(r: Result<IsqExperts, MoeError>, cfg: Config, vb: &VarBuilderX, comm: Comm, quant: QuantType) -> bool {
        let width = cfg.expert_width() as int;
        let block = quant.block_elems() as int;
        if experts_refused(cfg, vb) is Some {
            r == Err::<IsqExperts, MoeError>(experts_refused(cfg, vb)->0)
        } else if (width / comm.world_size as int) % block == 0 {
            r matches Ok(IsqExperts::Parts(t)) && FusedMoe::is_loaded(t, cfg, vb, comm.rank as int, comm.world_size as int)
        } else {
            match block_part(width, comm.rank as int, comm.world_size as int, block) {
                Some(part) => r matches Ok(x) && Self::is_whole(x, cfg, vb, part),
                None => r == Err::<IsqExperts, MoeError>(MoeError::Unsplittable {
                    width: cfg.expert_width(),
                    world_size: comm.world_size,
                    block: quant.block_elems(),
                }),
            }
        }
    }

    fn plan_experts(cfg: &Config, vb: &VarBuilderX, comm: &Comm, quant: QuantType) -> (r: Result<IsqExperts, MoeError>)
        requires
            cfg.has_experts(),
            cfg.expert_width() * 2 <= usize::MAX,
            cfg.expert_width() + 256 <= usize::MAX,
            comm.wf(),
            comm.world_size * 2 <= usize::MAX,
        ensures
            Self::planned_experts(r, *cfg, vb, *comm, quant),
    {
        let (e, n) = expert_sizes(cfg);
        let h: usize = cfg.hidden_size;
        let block: usize = quant.block_size();
        let parts = match FusedMoe::load_packed(cfg, vb, comm) {
            Ok(t) => t,
            Err(e) => return Err(e),
        };
        if n / comm.world_size() % block == 0 {
            return Ok(IsqExperts::Parts(parts));
        }
        let part = match split_blocks(n, comm, block) {
            Some(p) => p,
            None => return Err(MoeError::Unsplittable { width: n, world_size: comm.world_size(), block }),
        };
        if vb.has_key("gate_up_proj") {
            match resolve_packed_gate_up_layout(cfg) {
                Ok(layout) => {
                    let whole = packed_experts(cfg, vb, 0, 1, layout);
                    let down = DownSource::Packed {
                        inputs_first: vb.get_with_hints("down_proj", dims3(e, n, h), Shard::default()),
                        outputs_first: vb.get_with_hints("down_proj", dims3(e, h, n), Shard::default()),
                    };
                    Ok(IsqExperts::Whole { gate: whole.gate, up: whole.up, down, part })
                },
                Err(e) => Err(e),
            }
        } else {
            let gate = ExpertSource::Each(read_each_whole(vb, "gate_proj", e, n, h));
            let up = ExpertSource::Each(read_each_whole(vb, "up_proj", e, n, h));
            let down = DownSource::Each(read_each_whole(vb, "down_proj", e, h, n));
            Ok(IsqExperts::Whole { gate, up, down, part })
        }
    }

    /// The type that gate and up become when experts may be cut unevenly.
    pub fn choose_type(asked: QuantType, width: usize, comm: &Comm) -> (r: QuantType)
        requires
            comm.wf(),
            width + 256 <= usize::MAX,
        ensures
            r == uneven_type(asked, width as int, comm.world_size as int),
    {
        let ws: usize = comm.world_size();
        let block: usize = asked.block_size();
        if ws > 1 && width / ws % block != 0 {
            let chunk: usize = share(width, ws, block);
            let even = if chunk <= width {
                (width - chunk) % (ws - 1) == 0
            } else {
                proof {
                    // A negative remainder is zero for the same divisors.
                    let d = (chunk - width) as int;
                    let m = (ws - 1) as int;
                    lemma_negated_mod(d, m);
                }
                (chunk - width) % (ws - 1) == 0
            };
            if !even {
                return QuantType::Q8_0;
            }
        }
        asked
    }

    /// Whether router, selection bias, routing and type are those asked for.
    pub open spec fn is_around(&self, cfg: Config, gate_vb: &VarBuilderX, bias_vb: &VarBuilderX, quant: QuantType) -> bool {
        &&& self.gate.is_layer(gate_vb, router_size(cfg, DType::F32), None, None)
        &&& self.quant_type == quant
        &&& bias_fetch(self.bias, bias_vb, cfg.experts())
        &&& self.routing.of(cfg)
    }

    /// The experts of a plan.
    pub open spec fn experts_of(r: Result<Self, MoeError>) -> Result<IsqExperts, MoeError> {
        match r {
            Ok(m) => Ok(m.experts),
            Err(e) => Err(e),
        }
    }

    fn assemble(
        cfg: &Config,
        gate_vb: &VarBuilderX,
        bias_vb: &VarBuilderX,
        experts: Result<IsqExperts, MoeError>,
        quant_type: QuantType,
    ) -> (r: Result<Self, MoeError>)
        requires
            cfg.has_experts(),
        ensures
            Self::experts_of(r) == experts,
            r matches Ok(m) ==> m.is_around(*cfg, gate_vb, bias_vb, quant_type),
    {
        let (e, _n) = expert_sizes(cfg);
        match experts {
            Ok(experts) => match plain_router(cfg, gate_vb, DType::F32) {
                Ok(gate) => Ok(
                    FusedMoeISQ {
                        gate,
                        experts,
                        quant_type,
                        bias: try_load_e_score_correction_bias(bias_vb, e),
                        routing: MoeRouting::of_config(cfg),
                    },
                ),
                Err(e) => Err(e),
            },
            Err(e) => Err(e),
        }
    }

    /// Plans experts that become the type that the configuration names, or
    /// [`QuantType::Q8_0`] where that cannot be cut.
    pub fn new(cfg: &Config, vb: &VarBuilderX, comm: &Comm) -> (r: Result<Self, MoeError>)
        requires
            cfg.has_experts(),
            cfg.quant matches Some(q) && QuantType::of_name(q@) is Some,
            cfg.expert_width() * 2 <= usize::MAX,
            cfg.expert_width() + 256 <= usize::MAX,
            comm.wf(),
            comm.world_size * 2 <= usize::MAX,
        ensures
            ({
                let quant = uneven_type(QuantType::of_name(cfg.quant->0@)->0, cfg.expert_width() as int, comm.world_size as int);
                &&& Self::planned_experts(Self::experts_of(r), *cfg, &vb.child("experts"@), *comm, quant)
                &&& r matches Ok(m) ==> m.is_around(*cfg, &vb.child("gate"@), vb, quant)
            }),
    {
        let (_e, n) = expert_sizes(cfg);
        let asked = match &cfg.quant {
            Some(q) => match QuantType::from_name(q.as_str()) { Some(t) => t, None => QuantType::Q8_0 },
            None => QuantType::Q8_0,
        };
        let quant = Self::choose_type(asked, n, comm);
        let gate_vb = vb.pp("gate");
        let experts_vb = vb.pp("experts");
        let experts = Self::plan_experts(cfg, &experts_vb, comm, quant);
        Self::assemble(cfg, &gate_vb, vb, experts, quant)
    }

    /// Whether `r` is the plan of experts in given scopes.
    pub open spec fn planned_with_gate(
        r: Result<Self, MoeError>,
        cfg: Config,
        gate_vb: &VarBuilderX,
        experts_vb: &VarBuilderX,
        bias_vb: &VarBuilderX,
        comm: Comm,
    ) -> bool {
        let asked = QuantType::of_name(cfg.quant->0@)->0;
        let quant = if comm.world_size > 1 {
            asked.fitting(cfg.expert_width() as int / comm.world_size as int)
        } else {
            asked
        };
        match experts_refused(cfg, experts_vb) {
            Some(e) => r == Err::<Self, MoeError>(e),
            None => r matches Ok(m) && {
                &&& m.experts matches IsqExperts::Parts(t)
                    && FusedMoe::is_loaded(t, cfg, experts_vb, comm.rank as int, comm.world_size as int)
                &&& m.is_around(cfg, gate_vb, bias_vb, quant)
            },
        }
    }

    /// Plans experts in given scopes; parts that are not whole blocks become
    /// [`QuantType::Q8_0`].
    pub fn new_with_gate(
        cfg: &Config,
        gate_vb: &VarBuilderX,
        experts_vb: &VarBuilderX,
        bias_vb: &VarBuilderX,
        comm: &Comm,
    ) -> (r: Result<Self, MoeError>)
        requires
            cfg.has_experts(),
            cfg.quant matches Some(q) && QuantType::of_name(q@) is Some,
            cfg.expert_width() * 2 <= usize::MAX,
            comm.wf(),
            comm.world_size * 2 <= usize::MAX,
        ensures
            Self::planned_with_gate(r, *cfg, gate_vb, experts_vb, bias_vb, *comm),
    {
        let (_e, n) = expert_sizes(cfg);
        let asked = match &cfg.quant {
            Some(q) => match QuantType::from_name(q.as_str()) { Some(t) => t, None => QuantType::Q8_0 },
            None => QuantType::Q8_0,
        };
        let quant = if comm.world_size() > 1 { asked.fit(n / comm.world_size()) } else { asked };
        let experts = match FusedMoe::load_packed(cfg, experts_vb, comm) {
            Ok(t) => t,
            Err(e) => return Err(e),
        };
        Self::assemble(cfg, gate_vb, bias_vb, Ok(IsqExperts::Parts(experts)), quant)
    }
}

proof fn lemma_negated_mod(d: int, m: int)
    requires
        m > 0,
    ensures
        (d % m == 0) <==> ((-d) % m == 0),
{
    lemma_fundamental_div_mod(d, m);
    lemma_fundamental_div_mod(-d, m);
    if d % m == 0 {
        lemma_mul_unary_negation(m, d / m);
        lemma_mul_is_commutative(m, -(d / m));
        lemma_mod_multiples_basic(-(d / m), m);
    }
    if (-d) % m == 0 {
        lemma_mul_unary_negation(m, (-d) / m);
        lemma_mul_is_commutative(m, -((-d) / m));
        lemma_mod_multiples_basic(-((-d) / m), m);
    }
}

/// The part of a rank is made of whole blocks, starts where those of lower ranks
/// end, and never runs past the width; where it is cut short it ends with the
/// width.
pub proof fn law_parts_are_whole_blocks(width: usize, comm: Comm, block: usize, r: Option<Span>, base: int)
    requires
        comm.wf(),
        block > 0,
        width + block <= usize::MAX,
        call_ensures(split_blocks, (width, &comm, block), r),
        base * comm.world_size <= width < (base + 1) * comm.world_size,
    ensures
        r matches Some(p) ==> {
            &&& p.len > 0 && p.len as int % block as int == 0 && p.start as int % block as int == 0
            &&& p.start + p.len <= width
            &&& p.len < base + block
            &&& p.start + p.len < width ==> p.len >= base && p.start == comm.rank * p.len
            &&& base % (block as int) == 0 && comm.rank * base + base <= width ==> p.start == comm.rank * base
        },
        base > 0 && base % (block as int) == 0 && width == base * comm.world_size ==> (r matches Some(p) && p.len == base),
{
    let (n, w, b) = (width as int, comm.world_size as int, block as int);
    assert((base + 1) * w == base * w + w) by (nonlinear_arith);
    lemma_fundamental_div_mod_converse(n, w, base, n - base * w);
    lemma_block_chunk(n, w, b);
    let chunk = block_chunk(n, w, b);
    let start = comm.rank * chunk;
    lemma_mul_nonnegative(comm.rank as int, chunk);
    lemma_fundamental_div_mod(chunk, b);
    assert(start == (comm.rank * (chunk / b)) * b) by (nonlinear_arith)
        requires
            start == comm.rank * chunk,
            chunk == b * (chunk / b),
    ;
    lemma_mod_multiples_basic(comm.rank * (chunk / b), b);
    if base > 0 && base % b == 0 && n == base * w {
        assert(comm.rank * base + base <= n) by (nonlinear_arith)
            requires
                n == base * w,
                comm.rank + 1 <= w,
                base > 0,
        ;
    }
}

/// Tensors of a rank's part are cut along the outputs of gate and up and the
/// inputs of down, at the same place, and quantized again; whole ones keep
/// their type. Down has eight bits wherever it is quantized.
pub proof fn law_cut_experts_are_quantized_again(m: FusedMoeGGUF, packed: Option<QuantType>, r: BlockForm, q: FusedMoeISQ, f: BlockForm)
    requires
        call_ensures(FusedMoeGGUF::form, (&m, packed), r),
        call_ensures(FusedMoeISQ::form, (&q,), f),
    ensures
        r.gate_up_cut is Some <==> m.part is Some,
        r.down_cut is Some <==> m.part is Some,
        m.part matches Some(p) ==> r.gate_up_cut->0.dim == 1 && r.gate_up_cut->0.span == p && r.down_cut->0.dim == 2 && r.down_cut->0.span
            == p && r.gate_up == Some(QuantType::Q4K) && r.down == Some(QuantType::Q8_0),
        m.part is None ==> r.gate_up == packed && r.down is None,
        f.gate_up_cut is Some <==> q.experts is Whole,
        f.gate_up_cut matches Some(c) ==> c.dim == 1 && c.span == q.experts->part && f.down_cut == Some(ExpertCut { dim: 2, span: c.span }),
        f.gate_up == Some(q.quant_type) && f.down == Some(QuantType::Q8_0),
{
}

/// Experts of a block-quantized file: one rank reads them whole; in a group each
/// keeps its part of whole blocks of 256, or there is none to keep.
pub proof fn law_stored_experts_are_cut_by_blocks(cfg: Config, vb: VarBuilderX, comm: Comm, r: Result<FusedMoeGGUF, MoeError>, part: Option<Span>)
    requires
        cfg.has_experts(),
        cfg.expert_width() * 2 <= usize::MAX,
        cfg.expert_width() + 256 <= usize::MAX,
        vb.checkpoint.gguf,
        comm.wf(),
        call_ensures(FusedMoeGGUF::new, (&cfg, &vb, &comm), r),
        call_ensures(split_blocks, (cfg.expert_width(), &comm, 256usize), part),
    ensures
        comm.world_size == 1 ==> (r matches Ok(m) && m.part is None),
        comm.world_size > 1 ==> (r is Ok <==> part is Some),
        comm.world_size > 1 ==> (r matches Ok(m) ==> m.part == part),
        r matches Ok(m) ==> {
            let (e, n, h) = (cfg.experts(), cfg.expert_width(), cfg.hidden_size);
            &&& m.gate.shape@ == seq![e, h] && m.gate_up.shape@ == seq![e, (n + n) as usize, h]
            &&& m.gate_experts.shape@ == seq![e, n, h] && m.up_experts.shape@ == seq![e, n, h] && m.down_experts.shape@ == seq![e, h, n]
            &&& m.gate_experts.path@ == path_of(vb.spec_path("ffn_gate_exps"@), "weight"@)
            &&& m.up_experts.path@ == path_of(vb.spec_path("ffn_up_exps"@), "weight"@)
            &&& m.down_experts.path@ == path_of(vb.spec_path("ffn_down_exps"@), "weight"@)
            &&& m.gate.path@ == path_of(vb.spec_path("ffn_gate_inp"@), "weight"@)
            &&& m.joined.gate.start == 0 && m.joined.gate.len == n && m.joined.up.start == n && m.joined.up.len == n
        },
{
}

/// A type that is asked for is kept by a single rank and where equal shares are
/// whole blocks; else it is kept or becomes eight bits.
pub proof fn law_types_that_cannot_be_cut(asked: QuantType, width: usize, comm: Comm, r: QuantType, base: int)
    requires
        comm.wf(),
        width + 256 <= usize::MAX,
        call_ensures(FusedMoeISQ::choose_type, (asked, width, &comm), r),
        base * comm.world_size <= width < (base + 1) * comm.world_size,
    ensures
        r == asked || r == QuantType::Q8_0,
        comm.world_size == 1 ==> r == asked,
        base % (asked.block_elems() as int) == 0 ==> r == asked,
        comm.world_size == 2 ==> r == asked,
{
    let (n, w) = (width as int, comm.world_size as int);
    assert((base + 1) * w == base * w + w) by (nonlinear_arith);
    lemma_fundamental_div_mod_converse(n, w, base, n - base * w);
}

/// Experts that are quantized at load time: parts where equal shares are whole
/// blocks, else all of them, of which a rank keeps a part of whole blocks.
pub proof fn law_experts_quantized_at_load(
    cfg: Config,
    vb: VarBuilderX,
    comm: Comm,
    r: Result<FusedMoeISQ, MoeError>,
    asked: QuantType,
    quant: QuantType,
    part: Option<Span>,
    base: int,
)
    requires
        cfg.has_experts(),
        cfg.quant matches Some(q) && QuantType::of_name(q@) == Some(asked),
        cfg.expert_width() * 2 <= usize::MAX,
        cfg.expert_width() + 256 <= usize::MAX,
        comm.wf(),
        comm.world_size * 2 <= usize::MAX,
        call_ensures(FusedMoeISQ::new, (&cfg, &vb, &comm), r),
        call_ensures(FusedMoeISQ::choose_type, (asked, cfg.expert_width(), &comm), quant),
        call_ensures(split_blocks, (cfg.expert_width(), &comm, quant.block_elems()), part),
        base * comm.world_size <= cfg.expert_width() < (base + 1) * comm.world_size,
        r is Ok,
    ensures
        ({
            let m = r->Ok_0;
            &&& m.quant_type == quant
            &&& base % (quant.block_elems() as int) == 0 <==> m.experts is Parts
            &&& m.experts matches IsqExperts::Whole { part: p, .. } ==> part == Some(p)
            &&& m.gate matches LinearX::Linear(l) ==> l.weight.shape@ == seq![cfg.experts(), cfg.hidden_size] && l.dtype == DType::F32
        }),
{
    let (n, w) = (cfg.expert_width() as int, comm.world_size as int);
    assert((base + 1) * w == base * w + w) by (nonlinear_arith);
    lemma_fundamental_div_mod_converse(n, w, base, n - base * w);
}

} // verus!
