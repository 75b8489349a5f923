//! FP8 experts with a scale for each block.

use crate::checkpoint::{dims2, dims3, DType, Fetch, TensorRead, VarBuilderX};
use crate::config::{Config, QuantConfig};
use crate::distributed::{shard, Comm, Shard, Span};
use crate::linear::LinearX;
use crate::math::{ceil_div, div_ceil};
use crate::merged::scale_block;
use crate::mlp::JoinedRows;
use crate::moe::experts::{
    bias_fetch, expert_proj, expert_sizes, half_shard, plain_router, proj_scope, router_dtype, router_size,
    try_load_e_score_correction_bias, MoeError, PackedRead, Proj,
};
use crate::moe::routing::MoeRouting;
use crate::text::path_of;
use vstd::arithmetic::div_mod::*;
use vstd::arithmetic::mul::*;
use vstd::prelude::*;

verus! {

/// One projection of one expert.
pub struct Fp8Expert {
    pub weight: TensorRead,
    pub scale: Fetch,
}

/// Where FP8 experts come from.
pub enum Fp8Experts {
    Packed {
        gate: PackedRead,
        up: PackedRead,
        /// Scales of gate and up, inputs before outputs.
        gate_up_scale: TensorRead,
        /// Columns of the scales that belong to this rank's part of gate.
        gate_scale: Span,
        /// The same of up.
        up_scale: Span,
        down: PackedRead,
        down_scale: PackedRead,
    },
    Each { gate: Vec<Fp8Expert>, up: Vec<Fp8Expert>, down: Vec<Fp8Expert> },
}

pub struct FusedMoeFp8 {
    pub gate: LinearX,
    pub experts: Fp8Experts,
    /// Rows of the joined gate and up, and of their scales.
    pub joined: JoinedRows,
    pub joined_scales: JoinedRows,
    pub by: usize,
    pub bx: usize,
    pub bias: Fetch,
    pub routing: MoeRouting,
    pub gate_dtype: DType,
}

/// Scale columns of a rank's part of gate (`half` 0) or up (`half` 1).
pub open spec fn scale_columns(width: usize, bx: usize, half: int, rank: int, world_size: int) -> Span {
    let blocks = width as int / bx as int;
    let local = blocks / world_size;
    Span { start: (half * blocks + rank * local) as usize, len: local as usize }
}

/// Whether `p` reads that tensor and transposes it.
pub open spec fn transposed(p: PackedRead, path: Seq<char>, shape: Seq<usize>, s: Shard, dtype: DType) -> bool {
    p.transpose && p.read.reads(path, shape, s, dtype)
}

/// Sizes of scales can be counted.
pub open spec fn countable(cfg: Config, quant: QuantConfig) -> bool {
    let b = scale_block(Some(quant));
    b.len() == 2 ==> {
        &&& 0 < b[0] && 0 < b[1]
        &&& cfg.hidden_size + b[0] <= usize::MAX && cfg.hidden_size + b[1] <= usize::MAX
        &&& cfg.expert_width() * 2 + b[1] <= usize::MAX && cfg.expert_width() + b[0] <= usize::MAX
    }
}

/// Whether `v` reads one projection of each expert with its scales.
pub open spec fn each_fp8(
    v: Seq<Fp8Expert>,
    vb: &VarBuilderX,
    proj: Proj,
    experts: int,
    rows: usize,
    cols: usize,
    by: usize,
    bx: usize,
    s: Shard,
) -> bool {
    &&& v.len() == experts
    &&& forall|i: int| 0 <= i < experts ==> fp8_expert(
        #[trigger] v[i], proj_scope(vb.checkpoint, vb.prefix@, i, proj), rows, cols, by, bx, s)
}

/// Whether `x` reads a projection with its scales from `scope`.
pub open spec fn fp8_expert(x: Fp8Expert, scope: Seq<char>, rows: usize, cols: usize, by: usize, bx: usize, s: Shard) -> bool {
    let scales = seq![ceil_div(rows as int, by as int) as usize, ceil_div(cols as int, bx as int) as usize];
    &&& x.weight.reads(path_of(scope, "weight"@), seq![rows, cols], s, DType::U8)
    &&& x.scale.tries@.len() == 2
    &&& x.scale.tries@[0].reads(path_of(scope, "weight_scale"@), scales, s, DType::F32)
    &&& x.scale.tries@[1].reads(path_of(scope, "weight_scale_inv"@), scales, s, DType::F32)
}

fn read_each_fp8(
    vb: &VarBuilderX,
    proj: Proj,
    experts: usize,
    rows: usize,
    cols: usize,
    by: usize,
    bx: usize,
    s: Shard,
) -> (r: Vec<Fp8Expert>)
    requires
        by > 0,
        bx > 0,
        rows + by <= usize::MAX,
        cols + bx <= usize::MAX,
    ensures
        each_fp8(r@, vb, proj, experts as int, rows, cols, by, bx, s),
{
    let sn: usize = div_ceil(rows, by);
    let sk: usize = div_ceil(cols, bx);
    let mut v: Vec<Fp8Expert> = Vec::new();
    let mut i: usize = 0;
    while i < experts
        invariant
            i <= experts,
            sn == ceil_div(rows as int, by as int),
            sk == ceil_div(cols as int, bx as int),
            v@.len() == i,
            forall|j: int| 0 <= j < i ==> fp8_expert(
                #[trigger] v@[j], proj_scope(vb.checkpoint, vb.prefix@, j, proj), rows, cols, by, bx, s),
        decreases experts - i,
    {
        let p = expert_proj(vb, i, proj);
        let weight = p.read("weight", dims2(rows, cols), s, DType::U8);
        let scale = Fetch::two(
            p.read("weight_scale", dims2(sn, sk), s, DType::F32),
            p.read("weight_scale_inv", dims2(sn, sk), s, DType::F32),
        );
        v.push(Fp8Expert { weight, scale });
        i = i + 1;
    }
    v
}

impl FusedMoeFp8 {
    /// Whether these are packed experts, cut for one rank.
    pub open spec fn is_packed(&self, cfg: Config, vb: &VarBuilderX, comm: Comm) -> bool {
        let (e, h, n) = (cfg.experts(), cfg.hidden_size, cfg.expert_width());
        let (rank, ws) = (comm.rank as int, comm.world_size as int);
        let n2 = (n * 2) as usize;
        let scale_n = ceil_div(h as int, self.by as int) as usize;
        let scale_k = ceil_div(n * 2, self.bx as int) as usize;
        let rows = Shard { dim: 1, rank: comm.rank, world_size: comm.world_size };
        &&& self.experts matches Fp8Experts::Packed { gate, up, gate_up_scale, gate_scale, up_scale, down, down_scale }
        &&& transposed(gate, vb.spec_path("gate_up_proj"@), seq![e, h, n2], half_shard(2, 0, rank, ws), DType::U8)
        &&& transposed(up, vb.spec_path("gate_up_proj"@), seq![e, h, n2], half_shard(2, 1, rank, ws), DType::U8)
        &&& gate_up_scale.reads(
            vb.spec_path("gate_up_proj_scale_inv"@), seq![e, scale_n, scale_k], Shard::whole(), DType::F32)
        &&& gate_scale == scale_columns(n, self.bx, 0, rank, ws)
        &&& up_scale == scale_columns(n, self.bx, 1, rank, ws)
        &&& transposed(down, vb.spec_path("down_proj"@), seq![e, n, h], rows, DType::U8)
        &&& transposed(down_scale, vb.spec_path("down_proj_scale_inv"@), seq![e, scale_k / 2, scale_n], rows, DType::F32)
    }

    /// Whether these are the experts one by one, cut for one rank.
    pub open spec fn is_each(&self, cfg: Config, vb: &VarBuilderX, comm: Comm) -> bool {
        let (e, h, n) = (cfg.experts() as int, cfg.hidden_size, cfg.expert_width());
        let rows = Shard { dim: 0, rank: comm.rank, world_size: comm.world_size };
        let cols = Shard { dim: 1, rank: comm.rank, world_size: comm.world_size };
        &&& self.experts matches Fp8Experts::Each { gate, up, down }
        &&& each_fp8(gate@, vb, Proj::Gate, e, n, h, self.by, self.bx, rows)
        &&& each_fp8(up@, vb, Proj::Up, e, n, h, self.by, self.bx, rows)
        &&& each_fp8(down@, vb, Proj::Down, e, h, n, self.by, self.bx, cols)
    }

    /// Scale rows of this rank's part of gate, and of up: blocks of `bx` where
    /// experts are packed, else of `by`.
    pub open spec fn local_scale_rows(cfg: Config, packed: bool, by: usize, bx: usize, comm: Comm) -> int {
        let n = cfg.expert_width() as int;
        (if packed { n / bx as int } else { ceil_div(n, by as int) }) / comm.world_size as int
    }

    /// Why FP8 experts cannot be read.
    pub open spec fn refused(cfg: Config, vb: &VarBuilderX, quant: QuantConfig) -> Option<MoeError> {
        let b = scale_block(Some(quant));
        if b.len() != 2 {
            Some(MoeError::BlockSizeLen { len: b.len() as usize })
        } else if vb.has("gate_up_proj"@) {
            if vb.checkpoint.gguf { Some(MoeError::Gguf) } else { None }
        } else if cfg.experts() == 0 {
            Some(MoeError::NoExperts)
        } else {
            None
        }
    }

    /// Whether `r` is the plan for a router, experts and selection bias in
    /// these scopes.
    pub open spec fn planned(
        r: Result<Self, MoeError>,
        cfg: Config,
        gate_vb: &VarBuilderX,
        experts_vb: &VarBuilderX,
        bias_vb: &VarBuilderX,
        comm: Comm,
        dtype: DType,
        quant: QuantConfig,
    ) -> bool {
        match Self::refused(cfg, experts_vb, quant) {
            Some(e) => r == Err::<Self, MoeError>(e),
            None => r matches Ok(m) && {
                &&& m.by == scale_block(Some(quant))[0]
                &&& m.bx == scale_block(Some(quant))[1]
                &&& m.gate.is_layer(gate_vb, router_size(cfg, router_dtype(cfg, dtype)), None, None)
                &&& if experts_vb.has("gate_up_proj"@) {
                    m.is_packed(cfg, experts_vb, comm)
                } else {
                    m.is_each(cfg, experts_vb, comm)
                }
                &&& m.joined == JoinedRows::halves(cfg.expert_width() as int / comm.world_size as int)
                &&& m.joined_scales == JoinedRows::halves(
                    Self::local_scale_rows(cfg, experts_vb.has("gate_up_proj"@), m.by, m.bx, comm))
                &&& bias_fetch(m.bias, bias_vb, cfg.experts())
                &&& m.routing.of(cfg)
                &&& m.gate_dtype == router_dtype(cfg, dtype)
            },
        }
    }

    pub fn new_with_gate(
        cfg: &Config,
        gate_vb: &VarBuilderX,
        experts_vb: &VarBuilderX,
        bias_vb: &VarBuilderX,
        comm: &Comm,
        dtype: DType,
        quant_cfg: &QuantConfig,
    ) -> (r: Result<Self, MoeError>)
        requires
            cfg.has_experts(),
            cfg.expert_width() * 2 <= usize::MAX,
            comm.wf(),
            comm.world_size * 2 <= usize::MAX,
            countable(*cfg, *quant_cfg),
        ensures
            Self::planned(r, *cfg, gate_vb, experts_vb, bias_vb, *comm, dtype, *quant_cfg),
    {
        let block = match &quant_cfg.weight_block_size {
            Some(b) => b.clone(),
            None => dims2(128, 128),
        };
        assert(block@ == scale_block(Some(*quant_cfg)));
        if block.len() != 2 {
            return Err(MoeError::BlockSizeLen { len: block.len() });
        }
        let by: usize = block[0];
        let bx: usize = block[1];
        let (e, n) = expert_sizes(cfg);
        let h: usize = cfg.hidden_size;
        let (rank, ws) = (comm.rank(), comm.world_size());
        let packed = experts_vb.has_key("gate_up_proj");
        let experts = if packed {
            if experts_vb.is_qvar_builder() {
                return Err(MoeError::Gguf);
            }
            let scale_n: usize = div_ceil(h, by);
            let scale_k: usize = div_ceil(n * 2, bx);
            let blocks: usize = n / bx;
            let local: usize = blocks / ws;
            proof {
                lemma_fundamental_div_mod(blocks as int, ws as int);
                lemma_mul_inequality(rank as int, ws as int, local as int);
                lemma_mul_is_commutative(ws as int, local as int);
                lemma_div_nonincreasing(n as int, bx as int);
                lemma_mul_basics(blocks as int);
            }
            let gate = experts_vb.read("gate_up_proj", dims3(e, h, n * 2), shard(2, rank, ws * 2), DType::U8);
            let up = experts_vb.read("gate_up_proj", dims3(e, h, n * 2), shard(2, rank + ws, ws * 2), DType::U8);
            let down = experts_vb.read("down_proj", dims3(e, n, h), shard(1, rank, ws), DType::U8);
            let down_scale = experts_vb.read("down_proj_scale_inv", dims3(e, scale_k / 2, scale_n), shard(1, rank, ws), DType::F32);
            Fp8Experts::Packed {
                gate: PackedRead { read: gate, transpose: true },
                up: PackedRead { read: up, transpose: true },
                gate_up_scale: experts_vb.read(
                    "gate_up_proj_scale_inv", dims3(e, scale_n, scale_k), Shard::default(), DType::F32),
                gate_scale: Span { start: rank * local, len: local },
                up_scale: Span { start: blocks + rank * local, len: local },
                down: PackedRead { read: down, transpose: true },
                down_scale: PackedRead { read: down_scale, transpose: true },
            }
        } else {
            if e == 0 {
                return Err(MoeError::NoExperts);
            }
            let rows = shard(0, rank, ws);
            let cols = shard(1, rank, ws);
            Fp8Experts::Each {
                gate: read_each_fp8(experts_vb, Proj::Gate, e, n, h, by, bx, rows),
                up: read_each_fp8(experts_vb, Proj::Up, e, n, h, by, bx, rows),
                down: read_each_fp8(experts_vb, Proj::Down, e, h, n, by, bx, cols),
            }
        };
        let scale_rows: usize = if packed { n / bx } else { div_ceil(n, by) };
        let gate_dtype = if cfg.higher_precision_required { DType::F32 } else { dtype };
        let gate = match plain_router(cfg, gate_vb, gate_dtype) {
            Ok(g) => g,
            Err(e) => return Err(e),
        };
        Ok(
            FusedMoeFp8 {
                gate,
                experts,
                joined: JoinedRows::of(n / ws),
                joined_scales: JoinedRows::of(scale_rows / ws),
                by,
                bx,
                bias: try_load_e_score_correction_bias(bias_vb, e),
                routing: MoeRouting::of_config(cfg),
                gate_dtype,
            },
        )
    }

    pub fn new(cfg: &Config, vb: &VarBuilderX, comm: &Comm, dtype: DType, quant_cfg: &QuantConfig) -> (r: Result<Self, MoeError>)
        requires
            cfg.has_experts(),
            cfg.expert_width() * 2 <= usize::MAX,
            comm.wf(),
            comm.world_size * 2 <= usize::MAX,
            countable(*cfg, *quant_cfg),
        ensures
            Self::planned(r, *cfg, &vb.child("gate"@), &vb.child("experts"@), vb, *comm, dtype, *quant_cfg),
    {
        let gate_vb = vb.pp("gate");
        let experts_vb = vb.pp("experts");
        Self::new_with_gate(cfg, &gate_vb, &experts_vb, vb, comm, dtype, quant_cfg)
    }
}

/// Where the parts of packed experts are whole scale blocks, each column of a
/// rank's part of gate or up has its scale in the scale columns of the rank.
pub proof fn law_expert_scales_follow_columns(width: usize, bx: usize, half: int, rank: nat, world_size: nat, column: nat)
    requires
        bx > 0,
        world_size > 0,
        rank < world_size,
        half == 0 || half == 1,
        2 * width <= usize::MAX,
        (width as int / world_size as int) % (bx as int) == 0,
        width as int % (world_size as int) == 0,
        column < width as int / world_size as int,
    ensures
        ({
            let span = scale_columns(width, bx, half, rank as int, world_size as int);
            let first = half * width + rank * (width as int / world_size as int);
            &&& (first + column) / (bx as int) == span.start + column as int / bx as int
            &&& column as int / (bx as int) < span.len
        }),
{
    let b = bx as int;
    let w = world_size as int;
    let local = width as int / w;
    let q = local / b;
    lemma_fundamental_div_mod(local, b);
    lemma_fundamental_div_mod(width as int, w);
    // width = w * b * q
    assert(width as int == (w * q) * b) by (nonlinear_arith)
        requires
            width as int == w * local,
            local == b * q,
    ;
    lemma_div_multiples_vanish(w * q, b);
    lemma_mul_is_commutative(w * q, b);
    assert(width as int / b == w * q);
    lemma_mul_is_commutative(w, q);
    lemma_div_multiples_vanish(q, w);
    assert((width as int / b) / w == q);
    let k = half * (w * q) + rank as int * q;
    assert(half * width + rank as int * local == k * b) by (nonlinear_arith)
        requires
            width as int == (w * q) * b,
            local == b * q,
            k == half * (w * q) + rank as int * q,
    ;
    lemma_hoist_over_denominator(column as int, k, bx as nat);
    lemma_multiply_divide_lt(column as int, b, q);
    lemma_div_pos_is_pos(local, b);
    lemma_mul_inequality(rank as int, w, q);
    lemma_div_nonincreasing(width as int, b);
    lemma_mul_nonnegative(rank as int, q);
    lemma_mul_nonnegative(w, q);
    assert(0 <= k <= 2 * width) by (nonlinear_arith)
        requires
            k == half * (w * q) + rank as int * q,
            0 <= half <= 1,
            0 <= rank as int * q <= w * q,
            0 <= w * q <= width,
    ;
    assert(q <= w * q) by (nonlinear_arith)
        requires
            q >= 0,
            w >= 1,
    ;
}

/// What a rank reads of packed FP8 experts: its share of each half of gate and
/// up, with as many columns of scales as it has whole blocks, up behind all of
/// gate; its share of the inputs of down. All are transposed.
pub proof fn law_packed_fp8_experts(
    cfg: Config,
    gate_vb: VarBuilderX,
    vb: VarBuilderX,
    bias_vb: VarBuilderX,
    comm: Comm,
    dtype: DType,
    quant: QuantConfig,
    r: Result<FusedMoeFp8, MoeError>,
    blocks: int,
    local: int,
)
    requires
        cfg.has_experts(),
        cfg.expert_width() * 2 <= usize::MAX,
        comm.wf(),
        comm.world_size * 2 <= usize::MAX,
        countable(cfg, quant),
        call_ensures(FusedMoeFp8::new_with_gate, (&cfg, &gate_vb, &vb, &bias_vb, &comm, dtype, &quant), r),
        r is Ok,
        vb.has("gate_up_proj"@),
        blocks * r->Ok_0.bx <= cfg.expert_width() < (blocks + 1) * r->Ok_0.bx,
        local * comm.world_size <= blocks < (local + 1) * comm.world_size,
    ensures
        r->Ok_0.experts matches Fp8Experts::Packed { gate, up, gate_up_scale, gate_scale, up_scale, down, down_scale } && {
            let (e, n, h) = (cfg.experts(), cfg.expert_width(), cfg.hidden_size);
            let (rank, w) = (comm.rank as int, comm.world_size as int);
            &&& !vb.checkpoint.gguf
            &&& gate.read.shape@ == seq![e, h, (n + n) as usize] && up.read.shape@ == gate.read.shape@ && gate.transpose && up.transpose
            &&& gate.read.shard.dim == 2 && gate.read.shard.rank == rank && gate.read.shard.world_size == 2 * w
            &&& up.read.shard.dim == 2 && up.read.shard.rank == rank + w && up.read.shard.world_size == 2 * w
            &&& gate_scale.len == local && gate_scale.start == rank * local
            &&& up_scale.len == local && up_scale.start == blocks + rank * local
            &&& down.read.shape@ == seq![e, n, h] && down.transpose && down.read.shard == (Shard {
                dim: 1,
                rank: comm.rank,
                world_size: comm.world_size,
            })
            &&& down_scale.transpose && down_scale.read.shard == down.read.shard
            &&& gate_up_scale.shard == Shard::whole() && gate_up_scale.dtype == DType::F32 && gate.read.dtype == DType::U8
            &&& r->Ok_0.joined_scales.gate.len == local
        },
{
    let (n, b, w) = (cfg.expert_width() as int, r->Ok_0.bx as int, comm.world_size as int);
    assert((blocks + 1) * b == blocks * b + b && (local + 1) * w == local * w + w) by (nonlinear_arith);
    lemma_fundamental_div_mod_converse(n, b, blocks, n - blocks * b);
    lemma_fundamental_div_mod_converse(blocks, w, local, blocks - local * w);
    lemma_div_pos_is_pos(n, b);
    lemma_div_nonincreasing(n, b);
    lemma_div_pos_is_pos(blocks, w);
    lemma_div_nonincreasing(blocks, w);
    assert(0 <= comm.rank * local <= blocks) by (nonlinear_arith)
        requires
            local * w <= blocks,
            comm.rank < w,
            0 <= local,
    ;
    lemma_mul_basics(blocks);
}

/// One by one, FP8 experts are cut along the outputs of gate and up and the
/// inputs of down, weights and scales alike, and two names are tried for the
/// scales.
pub proof fn law_fp8_experts_one_by_one(
    cfg: Config,
    gate_vb: VarBuilderX,
    vb: VarBuilderX,
    bias_vb: VarBuilderX,
    comm: Comm,
    dtype: DType,
    quant: QuantConfig,
    r: Result<FusedMoeFp8, MoeError>,
    i: int,
)
    requires
        cfg.has_experts(),
        cfg.expert_width() * 2 <= usize::MAX,
        comm.wf(),
        comm.world_size * 2 <= usize::MAX,
        countable(cfg, quant),
        call_ensures(FusedMoeFp8::new_with_gate, (&cfg, &gate_vb, &vb, &bias_vb, &comm, dtype, &quant), r),
        !vb.has("gate_up_proj"@),
        0 <= i < cfg.experts(),
    ensures
        r is Ok <==> quant.weight_block_size is None || quant.weight_block_size->0@.len() == 2,
        r matches Ok(m) ==> {
            &&& quant.weight_block_size is None ==> m.by == 128 && m.bx == 128
            &&& quant.weight_block_size matches Some(b) ==> m.by == b@[0] && m.bx == b@[1]
            &&& m.experts matches Fp8Experts::Each { gate, up, down } && {
                let (n, h) = (cfg.expert_width(), cfg.hidden_size);
                let rows = Shard { dim: 0, rank: comm.rank, world_size: comm.world_size };
                let cols = Shard { dim: 1, rank: comm.rank, world_size: comm.world_size };
                &&& gate@.len() == cfg.experts() && up@.len() == cfg.experts() && down@.len() == cfg.experts()
                &&& gate@[i].weight.shape@ == seq![n, h] && up@[i].weight.shape@ == seq![n, h] && down@[i].weight.shape@ == seq![h, n]
                &&& gate@[i].weight.shard == rows && up@[i].weight.shard == rows && down@[i].weight.shard == cols
                &&& gate@[i].scale.tries@.len() == 2 && gate@[i].scale.tries@[0].shard == rows && down@[i].scale.tries@[0].shard == cols
                &&& crate::linear::covers_once(gate@[i].scale.tries@[0].shape@[0] as int, m.by as int, n as int)
                &&& crate::linear::covers_once(gate@[i].scale.tries@[0].shape@[1] as int, m.bx as int, h as int)
                &&& crate::linear::covers_once(down@[i].scale.tries@[0].shape@[0] as int, m.by as int, h as int)
                &&& crate::linear::covers_once(down@[i].scale.tries@[0].shape@[1] as int, m.bx as int, n as int)
            }
        },
{
    if r is Ok {
        let m = r->Ok_0;
        let (n, h) = (cfg.expert_width() as int, cfg.hidden_size as int);
        lemma_ceil_covers(m.by as int, n);
        lemma_ceil_covers(m.bx as int, n);
        lemma_ceil_covers(m.by as int, h);
        lemma_ceil_covers(m.bx as int, h);
    }
}

proof fn lemma_ceil_covers(size: int, len: int)
    requires
        size > 0,
        len >= 0,
    ensures
        crate::linear::covers_once(ceil_div(len, size), size, len),
        0 <= ceil_div(len, size) <= len,
{
    let n = ceil_div(len, size);
    lemma_fundamental_div_mod(len + size - 1, size);
    assert(n * size >= len && ((n - 1) * size < len || n == 0) && 0 <= n <= len) by (nonlinear_arith)
        requires
            len + size - 1 == size * n + (len + size - 1) % size,
            0 <= (len + size - 1) % size < size,
            size > 0,
            len >= 0,
    ;
}

/// Router, selection bias and routing of FP8 experts are those of other experts;
/// gate rows come before as many up rows, of the rank's share.
pub proof fn law_around_fp8_experts(
    cfg: Config,
    gate_vb: VarBuilderX,
    vb: VarBuilderX,
    bias_vb: VarBuilderX,
    comm: Comm,
    dtype: DType,
    quant: QuantConfig,
    r: Result<FusedMoeFp8, MoeError>,
    routing: MoeRouting,
    share: int,
)
    requires
        cfg.has_experts(),
        comm.wf(),
        call_ensures(FusedMoeFp8::new_with_gate, (&cfg, &gate_vb, &vb, &bias_vb, &comm, dtype, &quant), r),
        call_ensures(MoeRouting::of_config, (&cfg,), routing),
        share * comm.world_size <= cfg.expert_width() < (share + 1) * comm.world_size,
        r is Ok,
    ensures
        ({
            let m = r->Ok_0;
            &&& m.routing == routing
            &&& cfg.higher_precision_required ==> m.gate_dtype == DType::F32
            &&& !cfg.higher_precision_required ==> m.gate_dtype == dtype
            &&& m.gate matches LinearX::Linear(l) ==> l.weight.shape@ == seq![cfg.experts(), cfg.hidden_size] && l.bias is None
            &&& m.joined.gate.start == 0 && m.joined.gate.len == share && m.joined.up.start == share && m.joined.up.len == share
            &&& m.joined_scales.gate.start == 0 && m.joined_scales.up.start == m.joined_scales.gate.len && m.joined_scales.up.len
                == m.joined_scales.gate.len
        }),
{
    let (n, w) = (cfg.expert_width() as int, comm.world_size as int);
    assert((share + 1) * w == share * w + w) by (nonlinear_arith);
    lemma_fundamental_div_mod_converse(n, w, share, n - share * w);
    lemma_div_pos_is_pos(n, w);
    lemma_div_nonincreasing(n, w);
}

} // verus!
