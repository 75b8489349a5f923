//! The experts of DeepSeek V4: MXFP4 tensors packed into one buffer, routed by
//! token or by score, and a two-bit form of them.

use crate::checkpoint::{dims2, DType, Fetch, TensorRead, VarBuilderX};
use crate::config::Config;
use crate::distributed::{shard, Comm, Shard, Span};
use crate::linear::{plain_layer, LinearSize, LinearX};
use crate::math::mul_fits;
use crate::moe::experts::{bias_fetch, expert_proj, expert_sizes, router_size, try_load_e_score_correction_bias, MoeError, Proj};
use crate::moe::fp4::{at_proj, packed_name, tensor_name_packed};
use crate::moe::routing::{are_sorted_slots, is_top, select_refused, select_topk_indices, sort_expert_assignments, RouteError};
use vstd::arithmetic::div_mod::*;
use vstd::arithmetic::mul::*;
use vstd::prelude::*;

verus! {

/// How tokens find their experts.
#[derive(Clone)]
pub enum V4Router {
    /// A table holds the experts of every token of the vocabulary.
    Hash { gate_weight: TensorRead, tid2eid: TensorRead, n_experts: usize, topk: usize },
    /// Experts are chosen by score; the bias counts for the choice alone.
    Score { gate: LinearX, bias: Fetch, topk: usize },
}

/// Element type that the router takes.
#[derive(Debug, Clone, Copy, PartialEq, Eq, Structural)]
pub enum V4Route {
    /// Look the experts up.
    Hash { input: DType },
    /// Compute scores.
    Score { input: DType },
}

#[derive(Debug, Clone, Copy, PartialEq, Eq, Structural)]
pub enum V4MoeError {
    /// A table lookup needs the tokens.
    NoInputIds,
    /// Scales have neither two nor three dimensions.
    ScaleDims { dims: usize },
}

impl V4Router {
    /// How many experts a token goes to.
    pub open spec fn per_token(&self) -> usize {
        match *self {
            V4Router::Hash { topk, .. } => topk,
            V4Router::Score { topk, .. } => topk,
        }
    }

    pub fn num_experts_per_tok(&self) -> (r: usize)
        ensures
            r == self.per_token(),
    {
        match self {
            V4Router::Hash { topk, .. } => *topk,
            V4Router::Score { topk, .. } => *topk,
        }
    }

    /// What is done to route tokens; `has_ids` says whether they are known.
    pub fn route(&self, has_ids: bool) -> (r: Result<V4Route, V4MoeError>)
        ensures
            self is Score ==> r == Ok::<V4Route, V4MoeError>(V4Route::Score { input: DType::F32 }),
            self is Hash && has_ids ==> r == Ok::<V4Route, V4MoeError>(V4Route::Hash { input: DType::BF16 }),
            self is Hash && !has_ids ==> r == Err::<V4Route, V4MoeError>(V4MoeError::NoInputIds),
    {
        match self {
            V4Router::Hash { .. } => if has_ids {
                Ok(V4Route::Hash { input: DType::BF16 })
            } else {
                Err(V4MoeError::NoInputIds)
            },
            V4Router::Score { .. } => Ok(V4Route::Score { input: DType::F32 }),
        }
    }

    /// The experts of one token, best first, from sort keys of its biased
    /// scores.
    pub fn score_route(&self, keys: &Vec<i64>) -> (r: Result<Vec<u32>, RouteError>)
        ensures
            match select_refused(keys@.len() as int, self.per_token() as int) {
                Some(e) => r == Err::<Vec<u32>, RouteError>(e),
                None => r matches Ok(idx) && is_top(idx@, keys@, self.per_token() as int),
            },
    {
        select_topk_indices(keys, self.num_experts_per_tok())
    }
}

/// The tensor with scales in the scope.
pub open spec fn mxfp4_scale_name(vb: &VarBuilderX) -> Seq<char> {
    if vb.has("weight_scale"@) {
        "weight_scale"@
    } else if vb.has("scale"@) {
        "scale"@
    } else {
        "scales"@
    }
}

fn mxfp4_tensor_name_scale(vb: &VarBuilderX) -> (r: &'static str)
    ensures
        r@ == mxfp4_scale_name(vb),
{
    if vb.has_key("weight_scale") {
        "weight_scale"
    } else if vb.has_key("scale") {
        "scale"
    } else {
        "scales"
    }
}

/// Whether `f` reads scales: first as exponents, so that their bytes stay as
/// they are, then as the floats of older files, then as bytes.
pub open spec fn scale_fetch(f: Fetch, path: Seq<char>, shape: Seq<usize>, s: Shard) -> bool {
    &&& f.tries@.len() == 3
    &&& f.tries@[0].reads(path, shape, s, DType::F8E8M0)
    &&& f.tries@[1].reads(path, shape, s, DType::F8E4M3)
    &&& f.tries@[2].reads(path, shape, s, DType::U8)
}

fn load_mxfp4_scale(vb: &VarBuilderX, rows: usize, cols: usize, name: &str, s: Shard) -> (r: Fetch)
    ensures
        scale_fetch(r, vb.spec_path(name@), seq![rows, cols], s),
{
    Fetch::three(
        vb.read(name, dims2(rows, cols), s, DType::F8E8M0),
        vb.read(name, dims2(rows, cols), s, DType::F8E4M3),
        vb.read(name, dims2(rows, cols), s, DType::U8),
    )
}

/// One projection of one expert, and the elements of the buffers at which its
/// parts are put.
pub struct PlacedExpert {
    pub blocks: TensorRead,
    pub scales: Fetch,
    pub block_offset: usize,
    pub scale_offset: usize,
}

/// The buffers of one rank.
#[derive(Debug, Clone, Copy, PartialEq, Eq, Structural)]
pub struct ExpertBuffers {
    pub experts: usize,
    pub hidden: usize,
    /// Width of an expert on this rank.
    pub local: usize,
}

impl ExpertBuffers {
    pub open spec fn of(cfg: Config, comm: Comm) -> Self {
        ExpertBuffers { experts: cfg.experts(), hidden: cfg.hidden_size, local: cfg.expert_width() / comm.world_size }
    }

    /// Whether every buffer has a size that can be counted.
    pub open spec fn wf(self) -> bool {
        let (e, h, l) = (self.experts as int, self.hidden as int, self.local as int);
        &&& 2 * l <= usize::MAX
        &&& e * (2 * l * (h / 2)) <= usize::MAX
        &&& e * (2 * l * (h / 32)) <= usize::MAX
        &&& e * (h * (l / 2)) <= usize::MAX
        &&& e * (h * (l / 32)) <= usize::MAX
        &&& 2 * l * (h / 2) <= usize::MAX
        &&& 2 * l * (h / 32) <= usize::MAX
        &&& h * (l / 2) <= usize::MAX
        &&& h * (l / 32) <= usize::MAX
    }

    /// Whether every buffer has a size that can be counted.
    pub fn can_plan(&self) -> (r: bool)
        ensures
            r == self.wf(),
    {
        if !mul_fits(2, self.local) {
            return false;
        }
        let rows: usize = 2 * self.local;
        if !mul_fits(rows, self.hidden / 2) || !mul_fits(rows, self.hidden / 32) || !mul_fits(self.hidden, self.local / 2)
            || !mul_fits(self.hidden, self.local / 32) {
            return false;
        }
        mul_fits(self.experts, rows * (self.hidden / 2)) && mul_fits(self.experts, rows * (self.hidden / 32))
            && mul_fits(self.experts, self.hidden * (self.local / 2)) && mul_fits(self.experts, self.hidden * (self.local / 32))
    }

    /// Elements of one expert, for gate and up together or for down, where
    /// `per` values share an element.
    pub open spec fn expert_len(self, proj: Proj, per: int) -> int {
        match proj {
            Proj::Down => self.hidden * (self.local as int / per),
            _ => 2 * self.local * (self.hidden as int / per),
        }
    }

    /// The element at which a projection of expert `i` is put.
    pub open spec fn offset(self, proj: Proj, per: int, i: int) -> int {
        match proj {
            Proj::Up => i * self.expert_len(proj, per) + self.local * (self.hidden as int / per),
            _ => i * self.expert_len(proj, per),
        }
    }

    /// Elements that a projection of an expert takes.
    pub open spec fn proj_len(self, proj: Proj, per: int) -> int {
        match proj {
            Proj::Down => self.expert_len(proj, per),
            _ => self.local * (self.hidden as int / per),
        }
    }

    /// Shapes of the packed values and scales of gate and up.
    pub fn gate_up_shapes(&self) -> (r: ((usize, usize, usize), (usize, usize, usize)))
        requires
            2 * self.local <= usize::MAX,
        ensures
            r == (
                (self.experts, (2 * self.local) as usize, self.hidden / 2),
                (self.experts, (2 * self.local) as usize, self.hidden / 32),
            ),
    {
        let rows: usize = 2 * self.local;
        ((self.experts, rows, self.hidden / 2), (self.experts, rows, self.hidden / 32))
    }

    /// Shapes of the packed values and scales of down.
    pub fn down_shapes(&self) -> (r: ((usize, usize, usize), (usize, usize, usize)))
        ensures
            r == ((self.experts, self.hidden, self.local / 2), (self.experts, self.hidden, self.local / 32)),
    {
        ((self.experts, self.hidden, self.local / 2), (self.experts, self.hidden, self.local / 32))
    }

    /// The element at which a projection of expert `i` is put, where two
    /// packed values or the 32 values of a scale share it.
    fn place(&self, proj: Proj, scales: bool, i: usize) -> (r: usize)
        requires
            self.wf(),
            i < self.experts,
        ensures
            r == self.offset(proj, if scales { 32 } else { 2 }, i as int),
    {
        let per: usize = if scales { 32 } else { 2 };
        proof {
            lemma_place_fits(*self, proj, per as int, i as int);
        }
        match proj {
            Proj::Gate => {
                let each: usize = 2 * self.local * (self.hidden / per);
                i * each
            },
            Proj::Up => {
                let each: usize = 2 * self.local * (self.hidden / per);
                let half: usize = self.local * (self.hidden / per);
                i * each + half
            },
            Proj::Down => {
                let each: usize = self.hidden * (self.local / per);
                i * each
            },
        }
    }
}

proof fn lemma_place_fits(b: ExpertBuffers, proj: Proj, per: int, i: int)
    requires
        b.wf(),
        0 <= i < b.experts,
        per == 2 || per == 32,
    ensures
        0 <= b.expert_len(proj, per) <= usize::MAX,
        0 <= i * b.expert_len(proj, per) <= usize::MAX,
        0 <= b.local * (b.hidden as int / per) <= usize::MAX,
        0 <= b.offset(proj, per, i),
        b.offset(proj, per, i) + b.proj_len(proj, per) <= b.experts * b.expert_len(proj, per) <= usize::MAX,
{
    let (e, h, l) = (b.experts as int, b.hidden as int, b.local as int);
    let cols = h / per;
    let each = b.expert_len(proj, per);
    lemma_div_pos_is_pos(h, per);
    lemma_div_pos_is_pos(l, per);
    lemma_mul_nonnegative(l, cols);
    lemma_mul_nonnegative(h, l / per);
    lemma_mul_is_associative(2, l, cols);
    assert(0 <= each);
    assert(i * each + each <= e * each) by (nonlinear_arith)
        requires
            0 <= i < e,
            0 <= each,
    ;
    lemma_mul_nonnegative(i, each);
}

/// Whether `x` is expert `i` read from the scope of one of its projections.
pub open spec fn placed(x: PlacedExpert, vb: &VarBuilderX, b: ExpertBuffers, proj: Proj, rows: usize, cols: usize, s: Shard, i: int) -> bool {
    &&& x.blocks.reads(vb.spec_path(packed_name(vb, true)), seq![rows, cols / 2], s, DType::U8)
    &&& scale_fetch(x.scales, vb.spec_path(mxfp4_scale_name(vb)), seq![rows, cols / 32], s)
    &&& x.block_offset == b.offset(proj, 2, i)
    &&& x.scale_offset == b.offset(proj, 32, i)
}

/// Whether `v` puts one projection of each expert.
pub open spec fn each_placed(v: Seq<PlacedExpert>, vb: &VarBuilderX, b: ExpertBuffers, proj: Proj, rows: usize, cols: usize, s: Shard) -> bool {
    &&& v.len() == b.experts
    &&& forall|i: int, p: VarBuilderX| 0 <= i < v.len() && #[trigger] at_proj(&p, vb.checkpoint, vb.prefix@, i, proj)
        ==> placed(#[trigger] v[i], &p, b, proj, rows, cols, s, i)
}

fn place_each(vb: &VarBuilderX, b: ExpertBuffers, proj: Proj, rows: usize, cols: usize, s: Shard) -> (r: Vec<PlacedExpert>)
    requires
        b.wf(),
    ensures
        each_placed(r@, vb, b, proj, rows, cols, s),
{
    let mut v: Vec<PlacedExpert> = Vec::new();
    let mut i: usize = 0;
    while i < b.experts
        invariant
            i <= b.experts,
            b.wf(),
            v@.len() == i,
            forall|j: int, p: VarBuilderX| 0 <= j < i && #[trigger] at_proj(&p, vb.checkpoint, vb.prefix@, j, proj)
                ==> placed(#[trigger] v@[j], &p, b, proj, rows, cols, s, j),
        decreases b.experts - i,
    {
        let p = expert_proj(vb, i, proj);
        let x = PlacedExpert {
            blocks: p.read(tensor_name_packed(&p, true), dims2(rows, cols / 2), s, DType::U8),
            scales: load_mxfp4_scale(&p, rows, cols / 32, mxfp4_tensor_name_scale(&p), s),
            block_offset: b.place(proj, false, i),
            scale_offset: b.place(proj, true, i),
        };
        assert(placed(x, &p, b, proj, rows, cols, s, i as int));
        v.push(x);
        i = i + 1;
    }
    v
}

/// MXFP4 experts of one rank.
pub struct FusedMoeMxfp4 {
    pub router: V4Router,
    pub buffers: ExpertBuffers,
    pub gate: Vec<PlacedExpert>,
    pub up: Vec<PlacedExpert>,
    pub down: Vec<PlacedExpert>,
    pub world_size: usize,
    pub dtype: DType,
}

/// One pass of tokens through the experts.
#[derive(Debug, Clone, Copy, PartialEq, Eq)]
pub struct V4MoePass {
    /// Element type that the experts compute in.
    pub dtype: DType,
    /// Whether activations go through the FP8 quantizer.
    pub quantize: bool,
    /// Gate and up outputs, one row for each token and expert.
    pub flat: (usize, usize),
    pub gate: Span,
    pub up: Span,
    pub down_inputs: (usize, usize, usize),
    /// Outputs, which are multiplied with the weights of the router in
    /// `sum_as` before those of one token are summed up.
    pub output: (usize, usize, usize),
    pub sum_as: DType,
    pub all_reduce: bool,
}

/// Element type that the experts compute in.
pub open spec fn expert_dtype(dtype: DType) -> DType {
    if dtype == DType::F32 { DType::BF16 } else { dtype }
}

impl FusedMoeMxfp4 {
    /// Whether experts are looked up by token.
    pub open spec fn hashed(cfg: Config, gate_vb: &VarBuilderX) -> bool {
        gate_vb.has("tid2eid"@) && (cfg.vocab_size matches Some(v) && v != 0)
    }

    pub open spec fn is_router(router: V4Router, cfg: Config, gate_vb: &VarBuilderX, bias_vb: &VarBuilderX) -> bool {
        let k = cfg.moe_cfg->0.num_experts_per_tok;
        if Self::hashed(cfg, gate_vb) {
            router matches V4Router::Hash { gate_weight, tid2eid, n_experts, topk } && {
                &&& tid2eid.reads(gate_vb.spec_path("tid2eid"@), seq![cfg.vocab_size->0, k], Shard::whole(), DType::I64)
                &&& gate_weight.reads(
                    gate_vb.spec_path("weight"@), seq![cfg.experts(), cfg.hidden_size], Shard::whole(), DType::BF16)
                &&& n_experts == cfg.experts() && topk == k
            }
        } else {
            router matches V4Router::Score { gate, bias, topk } && {
                &&& gate.is_layer(gate_vb, router_size(cfg, DType::F32), None, None)
                &&& bias_fetch(bias, bias_vb, cfg.experts())
                &&& topk == k
            }
        }
    }

    /// Whether this is the plan for a router, experts and bias in these
    /// scopes.
    pub open spec fn is_planned(
        &self,
        cfg: Config,
        gate_vb: &VarBuilderX,
        experts_vb: &VarBuilderX,
        bias_vb: &VarBuilderX,
        comm: Comm,
        dtype: DType,
    ) -> bool {
        let b = ExpertBuffers::of(cfg, comm);
        let (n, h) = (cfg.expert_width(), cfg.hidden_size);
        let rows = Shard { dim: 0, rank: comm.rank, world_size: comm.world_size };
        let cols = Shard { dim: 1, rank: comm.rank, world_size: comm.world_size };
        &&& Self::is_router(self.router, cfg, gate_vb, bias_vb)
        &&& self.buffers == b
        &&& each_placed(self.gate@, experts_vb, b, Proj::Gate, n, h, rows)
        &&& each_placed(self.up@, experts_vb, b, Proj::Up, n, h, rows)
        &&& each_placed(self.down@, experts_vb, b, Proj::Down, h, n, cols)
        &&& self.world_size == comm.world_size
        &&& self.dtype == dtype
    }

    /// Whether `r` is the plan, which block-quantized files do not have.
    pub open spec fn planned(
        r: Result<Self, MoeError>,
        cfg: Config,
        gate_vb: &VarBuilderX,
        experts_vb: &VarBuilderX,
        bias_vb: &VarBuilderX,
        comm: Comm,
        dtype: DType,
    ) -> bool {
        if experts_vb.checkpoint.gguf || (gate_vb.checkpoint.gguf && !Self::hashed(cfg, gate_vb)) {
            r == Err::<Self, MoeError>(MoeError::Gguf)
        } else {
            r matches Ok(m) && m.is_planned(cfg, gate_vb, experts_vb, bias_vb, comm, dtype)
        }
    }

    fn read_router(cfg: &Config, gate_vb: &VarBuilderX, bias_vb: &VarBuilderX) -> (r: Result<V4Router, MoeError>)
        requires
            cfg.has_experts(),
        ensures
            gate_vb.checkpoint.gguf && !Self::hashed(*cfg, gate_vb) ==> r == Err::<V4Router, MoeError>(MoeError::Gguf),
            !gate_vb.checkpoint.gguf || Self::hashed(*cfg, gate_vb)
                ==> (r matches Ok(router) && Self::is_router(router, *cfg, gate_vb, bias_vb)),
    {
        let (e, _n) = expert_sizes(cfg);
        let topk: usize = match &cfg.moe_cfg { Some(m) => m.num_experts_per_tok, None => 0 };
        let vocab: usize = match cfg.vocab_size { Some(v) => v, None => 0 };
        if gate_vb.has_key("tid2eid") && vocab != 0 {
            return Ok(
                V4Router::Hash {
                    gate_weight: gate_vb.read("weight", dims2(e, cfg.hidden_size), Shard::default(), DType::BF16),
                    tid2eid: gate_vb.read("tid2eid", dims2(vocab, topk), Shard::default(), DType::I64),
                    n_experts: e,
                    topk,
                },
            );
        }
        if gate_vb.is_qvar_builder() {
            return Err(MoeError::Gguf);
        }
        let size = LinearSize { in_dim: cfg.hidden_size, out_dim: e, shard: Shard::default(), bias: false, dtype: DType::F32 };
        Ok(
            V4Router::Score {
                gate: plain_layer(gate_vb, size),
                bias: try_load_e_score_correction_bias(bias_vb, e),
                topk,
            },
        )
    }

    pub fn new_with_gate(
        cfg: &Config,
        gate_vb: &VarBuilderX,
        experts_vb: &VarBuilderX,
        bias_vb: &VarBuilderX,
        comm: &Comm,
        dtype: DType,
    ) -> (r: Result<Self, MoeError>)
        requires
            cfg.has_experts(),
            comm.wf(),
            ExpertBuffers::of(*cfg, *comm).wf(),
        ensures
            Self::planned(r, *cfg, gate_vb, experts_vb, bias_vb, *comm, dtype),
    {
        let router = match Self::read_router(cfg, gate_vb, bias_vb) {
            Ok(x) => x,
            Err(e) => return Err(e),
        };
        if experts_vb.is_qvar_builder() {
            return Err(MoeError::Gguf);
        }
        let (e, n) = expert_sizes(cfg);
        let h: usize = cfg.hidden_size;
        let ws: usize = comm.world_size();
        let b = ExpertBuffers { experts: e, hidden: h, local: n / ws };
        let rows = shard(0, comm.rank(), ws);
        let cols = shard(1, comm.rank(), ws);
        Ok(
            FusedMoeMxfp4 {
                router,
                buffers: b,
                gate: place_each(experts_vb, b, Proj::Gate, n, h, rows),
                up: place_each(experts_vb, b, Proj::Up, n, h, rows),
                down: place_each(experts_vb, b, Proj::Down, h, n, cols),
                world_size: ws,
                dtype,
            },
        )
    }

    pub fn new(cfg: &Config, vb: &VarBuilderX, comm: &Comm, dtype: DType) -> (r: Result<Self, MoeError>)
        requires
            cfg.has_experts(),
            comm.wf(),
            ExpertBuffers::of(*cfg, *comm).wf(),
        ensures
            Self::planned(r, *cfg, &vb.child("gate"@), &vb.child("experts"@), vb, *comm, dtype),
    {
        let gate_vb = vb.pp("gate");
        let experts_vb = vb.pp("experts");
        Self::new_with_gate(cfg, &gate_vb, &experts_vb, vb, comm, dtype)
    }

    /// The pass of `tokens` tokens of width `hidden`.
    pub fn forward_with_ids_f32(&self, tokens: usize, hidden: usize) -> (r: V4MoePass)
        requires
            tokens * self.router.per_token() <= usize::MAX,
            2 * self.buffers.local <= usize::MAX,
        ensures
            r == (V4MoePass {
                dtype: expert_dtype(self.dtype),
                quantize: expert_dtype(self.dtype) == DType::BF16,
                flat: ((tokens * self.router.per_token()) as usize, (2 * self.buffers.local) as usize),
                gate: Span { start: 0, len: self.buffers.local },
                up: Span { start: self.buffers.local, len: self.buffers.local },
                down_inputs: (tokens, self.router.per_token(), self.buffers.local),
                output: (tokens, self.router.per_token(), hidden),
                sum_as: DType::F32,
                all_reduce: self.world_size > 1,
            }),
    {
        let topk: usize = self.router.num_experts_per_tok();
        let n: usize = self.buffers.local;
        let dtype = if self.dtype == DType::F32 { DType::BF16 } else { self.dtype };
        V4MoePass {
            dtype,
            quantize: dtype == DType::BF16,
            flat: (tokens * topk, 2 * n),
            gate: Span { start: 0, len: n },
            up: Span { start: n, len: n },
            down_inputs: (tokens, topk, n),
            output: (tokens, topk, hidden),
            sum_as: DType::F32,
            all_reduce: self.world_size > 1,
        }
    }
}

/// The projection, of two in a buffer or of one, that holds an element.
pub open spec fn holder(b: ExpertBuffers, proj: Proj, per: int, at: int) -> (int, Proj) {
    let each = b.expert_len(proj, per);
    let i = at / each;
    match proj {
        Proj::Down => (i, Proj::Down),
        _ => (i, if at % each < b.proj_len(proj, per) { Proj::Gate } else { Proj::Up }),
    }
}

/// Every element of a buffer lies in the part of exactly one projection of
/// one expert: parts neither overlap nor leave anything out.
pub proof fn law_experts_tile_the_buffer(b: ExpertBuffers, proj: Proj, scales: bool, at: int, i: int, part: Proj)
    requires
        b.wf(),
        0 <= at < b.experts * b.expert_len(proj, if scales { 32 } else { 2 }),
        part == Proj::Down <==> proj == Proj::Down,
        0 <= i < b.experts,
    ensures
        ({
            let per = if scales { 32int } else { 2 };
            let (e, p) = holder(b, proj, per, at);
            &&& 0 <= e < b.experts
            &&& b.offset(p, per, e) <= at < b.offset(p, per, e) + b.proj_len(p, per)
            &&& b.offset(part, per, i) <= at < b.offset(part, per, i) + b.proj_len(part, per) <==> (i, part) == (e, p)
        }),
{
    let per = if scales { 32int } else { 2 };
    let each = b.expert_len(proj, per);
    let half = b.local * (b.hidden as int / per);
    let n = b.experts as int;
    lemma_place_fits(b, proj, per, i);
    lemma_mul_is_associative(2, b.local as int, b.hidden as int / per);
    if each == 0 {
        assert(n * each == 0) by (nonlinear_arith)
            requires
                each == 0,
        ;
    }
    lemma_fundamental_div_mod(at, each);
    lemma_mod_bound(at, each);
    lemma_div_pos_is_pos(at, each);
    let e = at / each;
    assert(each * e == e * each) by (nonlinear_arith);
    assert(e < n) by (nonlinear_arith)
        requires
            e * each <= at < n * each,
            each > 0,
    ;
    if i < e {
        assert((i + 1) * each <= e * each) by (nonlinear_arith)
            requires
                i + 1 <= e,
                each > 0,
        ;
        assert((i + 1) * each == i * each + each) by (nonlinear_arith);
    } else if i > e {
        assert((e + 1) * each <= i * each) by (nonlinear_arith)
            requires
                e + 1 <= i,
                each > 0,
        ;
        assert((e + 1) * each == e * each + each) by (nonlinear_arith);
    }
}

/// Experts in two bits, and where they are kept the tensors that restore
/// them.
pub struct FusedMoeW2 {
    /// Rows and inputs of gate and up together, and of down.
    pub gate_up_n: usize,
    pub gate_up_k: usize,
    pub down_n: usize,
    pub down_k: usize,
    /// The shapes that scales are brought into before they are packed, where
    /// they are flat.
    pub gate_up_reshape: Option<(usize, usize, usize)>,
    pub down_reshape: Option<(usize, usize, usize)>,
    /// The shapes of the packed scales.
    pub gate_up_scales: (usize, usize),
    pub down_scales: (usize, usize),
    /// Whether the tensors that were packed are kept.
    pub keeps_restore: bool,
    pub restore_gate_enabled: bool,
    /// Experts of each token.
    pub topk: usize,
    pub world_size: usize,
    pub dtype: DType,
}

/// A pass through two-bit experts.
pub struct W2Pass {
    /// Element type of the inputs of both products.
    pub dtype: DType,
    /// Slots in the order of their experts, and those experts: both products
    /// take and give rows in this order.
    pub slots: Vec<u32>,
    pub experts: Vec<u32>,
    /// Rows and inputs of the first product, whose outputs are not weighted.
    pub gate_up: (usize, usize),
    /// Columns of its outputs that gate has, and those of up.
    pub gate: Span,
    pub up: Span,
    /// Rows and inputs of the second product, whose outputs are multiplied
    /// with the weights of the router.
    pub down: (usize, usize),
    /// Shape of the outputs before those of one token are summed up.
    pub output: (usize, usize, usize),
    /// Whether results are summed over the ranks.
    pub all_reduce: bool,
    /// Element type of the result.
    pub result: DType,
}

/// How a pass through two-bit experts is done.
#[derive(Debug, Clone, Copy, PartialEq, Eq, Structural)]
pub enum W2Path {
    TwoBit,
    Restore,
}

/// Whether scales with `dims` dimensions are brought into `shape`.
pub open spec fn scale_reshape(dims: usize, shape: (usize, usize, usize)) -> Result<Option<(usize, usize, usize)>, V4MoeError> {
    if dims == 3 {
        Ok(None)
    } else if dims == 2 {
        Ok(Some(shape))
    } else {
        Err(V4MoeError::ScaleDims { dims })
    }
}

fn reshape_of(dims: usize, shape: (usize, usize, usize)) -> (r: Result<Option<(usize, usize, usize)>, V4MoeError>)
    ensures
        r == scale_reshape(dims, shape),
{
    if dims == 3 {
        Ok(None)
    } else if dims == 2 {
        Ok(Some(shape))
    } else {
        Err(V4MoeError::ScaleDims { dims })
    }
}

impl FusedMoeW2 {
    /// Whether this packs tensors of these shapes.
    pub open spec fn packs(
        &self,
        gate_up: (usize, usize, usize),
        gate_up_dims: usize,
        down: (usize, usize, usize),
        down_dims: usize,
        gate_enabled: bool,
        mx: FusedMoeMxfp4,
    ) -> bool {
        let (e, n, k) = (gate_up.0, gate_up.1, gate_up.2 * 2);
        let (dn, dk) = (down.1, down.2 * 2);
        &&& self.gate_up_n == n && self.gate_up_k == k
        &&& self.down_n == dn && self.down_k == dk
        &&& scale_reshape(gate_up_dims, (e, n, (k / 32) as usize)) matches Ok(s) && s == self.gate_up_reshape
        &&& scale_reshape(down_dims, (e, dn, (dk / 32) as usize)) matches Ok(s) && s == self.down_reshape
        &&& self.gate_up_scales == (e, (n * (k / 32)) as usize)
        &&& self.down_scales == (e, (dn * (dk / 32)) as usize)
        &&& self.keeps_restore == gate_enabled
        &&& self.restore_gate_enabled == gate_enabled
        &&& self.topk == mx.router.per_token()
        &&& self.world_size == mx.world_size
        &&& self.dtype == mx.dtype
    }

    /// Packs the experts `mx` with packed values of shapes `gate_up` and `down`, and
    /// scales with so many dimensions.
    pub fn from_mxfp4(
        mx: &FusedMoeMxfp4,
        gate_up: (usize, usize, usize),
        gate_up_dims: usize,
        down: (usize, usize, usize),
        down_dims: usize,
        gate_enabled: bool,
    ) -> (r: Result<Self, V4MoeError>)
        requires
            gate_up.2 * 2 <= usize::MAX,
            down.2 * 2 <= usize::MAX,
            gate_up.1 * (gate_up.2 * 2 / 32) <= usize::MAX,
            down.1 * (down.2 * 2 / 32) <= usize::MAX,
        ensures
            gate_up_dims != 2 && gate_up_dims != 3
                ==> r == Err::<Self, V4MoeError>(V4MoeError::ScaleDims { dims: gate_up_dims }),
            (gate_up_dims == 2 || gate_up_dims == 3) && down_dims != 2 && down_dims != 3
                ==> r == Err::<Self, V4MoeError>(V4MoeError::ScaleDims { dims: down_dims }),
            (gate_up_dims == 2 || gate_up_dims == 3) && (down_dims == 2 || down_dims == 3)
                ==> (r matches Ok(m) && m.packs(gate_up, gate_up_dims, down, down_dims, gate_enabled, *mx)),
    {
        let (e, n) = (gate_up.0, gate_up.1);
        let k: usize = gate_up.2 * 2;
        let gate_up_reshape = match reshape_of(gate_up_dims, (e, n, k / 32)) {
            Ok(s) => s,
            Err(x) => return Err(x),
        };
        let dn: usize = down.1;
        let dk: usize = down.2 * 2;
        let down_reshape = match reshape_of(down_dims, (e, dn, dk / 32)) {
            Ok(s) => s,
            Err(x) => return Err(x),
        };
        Ok(
            FusedMoeW2 {
                gate_up_n: n,
                gate_up_k: k,
                down_n: dn,
                down_k: dk,
                gate_up_reshape,
                down_reshape,
                gate_up_scales: (e, n * (k / 32)),
                down_scales: (e, dn * (dk / 32)),
                keeps_restore: gate_enabled,
                restore_gate_enabled: gate_enabled,
                topk: mx.router.num_experts_per_tok(),
                world_size: mx.world_size,
                dtype: mx.dtype,
            },
        )
    }

    /// Whether a pass asks the router how sure it is.
    pub open spec fn asks(&self, is_prefill: bool) -> bool {
        self.restore_gate_enabled && !is_prefill && self.keeps_restore
    }

    pub fn asks_router(&self, is_prefill: bool) -> (r: bool)
        ensures
            r == self.asks(is_prefill),
    {
        self.restore_gate_enabled && !is_prefill && self.keeps_restore
    }

    /// How a pass is done; `unsure` says whether the router's best weight does
    /// not exceed the threshold.
    pub fn forward_with_ids(&self, is_prefill: bool, unsure: bool) -> (r: W2Path)
        ensures
            r == (if self.asks(is_prefill) && unsure { W2Path::Restore } else { W2Path::TwoBit }),
    {
        if self.asks_router(is_prefill) && unsure { W2Path::Restore } else { W2Path::TwoBit }
    }

    /// Whether `x` is the pass of `tokens` tokens of width `hidden` that were
    /// routed to `topk_ids`.
    pub open spec fn is_pass(&self, x: W2Pass, tokens: usize, hidden: usize, topk_ids: Seq<u32>) -> bool {
        let half = self.gate_up_n / 2;
        &&& x.dtype == expert_dtype(self.dtype)
        &&& are_sorted_slots(x.experts@, x.slots@, topk_ids)
        &&& x.gate_up == (self.gate_up_n, self.gate_up_k)
        &&& x.gate == (Span { start: 0, len: half })
        &&& x.up == (Span { start: half, len: half })
        &&& x.down == (self.down_n, self.down_k)
        &&& x.output == (tokens, self.topk, hidden)
        &&& x.all_reduce == (self.world_size > 1)
        &&& x.result == self.dtype
    }

    /// The pass of `tokens` tokens of width `hidden` through two-bit experts.
    pub fn forward_with_ids_2bit(&self, tokens: usize, hidden: usize, topk_ids: &Vec<u32>) -> (r: Result<W2Pass, RouteError>)
        ensures
            topk_ids@.len() == 0 || topk_ids@.len() > u32::MAX
                ==> r == Err::<W2Pass, RouteError>(RouteError::Keys { len: topk_ids@.len() as usize }),
            0 < topk_ids@.len() <= u32::MAX ==> (r matches Ok(x) && self.is_pass(x, tokens, hidden, topk_ids@)),
    {
        let (experts, slots) = match sort_expert_assignments(topk_ids) {
            Ok(sorted) => sorted,
            Err(e) => return Err(e),
        };
        let half: usize = self.gate_up_n / 2;
        Ok(
            W2Pass {
                dtype: if self.dtype == DType::F32 { DType::BF16 } else { self.dtype },
                slots,
                experts,
                gate_up: (self.gate_up_n, self.gate_up_k),
                gate: Span { start: 0, len: half },
                up: Span { start: half, len: half },
                down: (self.down_n, self.down_k),
                output: (tokens, self.topk, hidden),
                all_reduce: self.world_size > 1,
                result: self.dtype,
            },
        )
    }
}

/// A table lookup needs the tokens and takes half-width inputs; scores need
/// no tokens and are computed in full width. Either gives every token as many
/// experts as the router says.
pub proof fn law_routes(router: V4Router, has_ids: bool, r: Result<V4Route, V4MoeError>, k: usize)
    requires
        call_ensures(V4Router::route, (&router, has_ids), r),
        call_ensures(V4Router::num_experts_per_tok, (&router,), k),
    ensures
        r is Err <==> router is Hash && !has_ids,
        r matches Err(e) ==> e == V4MoeError::NoInputIds,
        r matches Ok(V4Route::Hash { input }) ==> router is Hash && input == DType::BF16,
        r matches Ok(V4Route::Score { input }) ==> router is Score && input == DType::F32,
        router matches V4Router::Hash { topk, .. } ==> k == topk,
        router matches V4Router::Score { topk, .. } ==> k == topk,
{
}

/// The experts of a token are distinct, best first, and none that was left out
/// is better than one of them.
pub proof fn law_scores_choose_the_best(
    router: V4Router,
    keys: Vec<i64>,
    r: Result<Vec<u32>, RouteError>,
    k: usize,
    i: int,
    j: int,
    e: u32,
)
    requires
        call_ensures(V4Router::score_route, (&router, &keys), r),
        call_ensures(V4Router::num_experts_per_tok, (&router,), k),
    ensures
        r is Ok <==> 0 < keys@.len() <= u32::MAX && k <= keys@.len(),
        r matches Ok(v) ==> {
            &&& v@.len() == k
            &&& 0 <= i < k ==> v@[i] < keys@.len()
            &&& 0 <= i < j < k ==> v@[i] != v@[j] && keys@[v@[i] as int] >= keys@[v@[j] as int]
            &&& 0 <= i < k && e < keys@.len() && !v@.contains(e) ==> keys@[v@[i] as int] >= keys@[e as int]
        },
{
    if r is Ok && 0 <= i < k && e < keys@.len() && !r->Ok_0@.contains(e) {
        let v = r->Ok_0@;
        assert(keys@[v[i] as int] >= keys@[e as int]);
    }
}

/// Buffers: an expert has gate and up rows for its width on this rank, over the
/// hidden size, and down rows for the hidden size, over that width; two values
/// share a byte and 32 share a scale.
pub proof fn law_shapes_of_buffers(
    b: ExpertBuffers,
    gu: ((usize, usize, usize), (usize, usize, usize)),
    d: ((usize, usize, usize), (usize, usize, usize)),
)
    requires
        2 * b.local <= usize::MAX,
        call_ensures(ExpertBuffers::gate_up_shapes, (&b,), gu),
        call_ensures(ExpertBuffers::down_shapes, (&b,), d),
    ensures
        gu.0.0 == b.experts && gu.1.0 == b.experts && d.0.0 == b.experts && d.1.0 == b.experts,
        gu.0.1 == b.local + b.local && gu.1.1 == b.local + b.local,
        d.0.1 == b.hidden && d.1.1 == b.hidden,
        2 * gu.0.2 <= b.hidden < 2 * gu.0.2 + 2,
        32 * gu.1.2 <= b.hidden < 32 * gu.1.2 + 32,
        2 * d.0.2 <= b.local < 2 * d.0.2 + 2,
        32 * d.1.2 <= b.local < 32 * d.1.2 + 32,
{
}

/// Buffers can be planned exactly where each has a size that can be counted:
/// that of all experts together and that of one.
pub proof fn law_buffers_that_fit(
    b: ExpertBuffers,
    r: bool,
    gu: ((usize, usize, usize), (usize, usize, usize)),
    d: ((usize, usize, usize), (usize, usize, usize)),
)
    requires
        call_ensures(ExpertBuffers::can_plan, (&b,), r),
        2 * b.local <= usize::MAX,
        call_ensures(ExpertBuffers::gate_up_shapes, (&b,), gu),
        call_ensures(ExpertBuffers::down_shapes, (&b,), d),
        b.experts > 0,
    ensures
        r <==> {
            &&& gu.0.0 * (gu.0.1 * gu.0.2) <= usize::MAX
            &&& gu.1.0 * (gu.1.1 * gu.1.2) <= usize::MAX
            &&& d.0.0 * (d.0.1 * d.0.2) <= usize::MAX
            &&& d.1.0 * (d.1.1 * d.1.2) <= usize::MAX
        },
{
    lemma_at_least_once(b.experts as int, gu.0.1 * gu.0.2);
    lemma_at_least_once(b.experts as int, gu.1.1 * gu.1.2);
    lemma_at_least_once(b.experts as int, d.0.1 * d.0.2);
    lemma_at_least_once(b.experts as int, d.1.1 * d.1.2);
}

proof fn lemma_at_least_once(e: int, x: int)
    requires
        e > 0,
    ensures
        x > 0 ==> x <= e * x,
{
    if x > 0 {
        assert(x <= e * x) by (nonlinear_arith)
            requires
                e > 0,
                x > 0,
        ;
    }
}

/// Tokens are looked up where the table exists and the vocabulary has a size;
/// else they are scored by a full-width gate.
pub proof fn law_routers_follow_the_table(
    cfg: Config,
    gate_vb: VarBuilderX,
    vb: VarBuilderX,
    bias_vb: VarBuilderX,
    comm: Comm,
    dtype: DType,
    r: Result<FusedMoeMxfp4, MoeError>,
)
    requires
        cfg.has_experts(),
        comm.wf(),
        ExpertBuffers::of(cfg, comm).wf(),
        call_ensures(FusedMoeMxfp4::new_with_gate, (&cfg, &gate_vb, &vb, &bias_vb, &comm, dtype), r),
    ensures
        ({
            let hashed = gate_vb.has("tid2eid"@) && cfg.vocab_size is Some && cfg.vocab_size->0 > 0;
            &&& vb.checkpoint.gguf ==> r == Err::<FusedMoeMxfp4, MoeError>(MoeError::Gguf)
            &&& gate_vb.checkpoint.gguf && !hashed ==> r == Err::<FusedMoeMxfp4, MoeError>(MoeError::Gguf)
            &&& !vb.checkpoint.gguf && (hashed || !gate_vb.checkpoint.gguf) ==> r is Ok
            &&& r matches Ok(m) ==> {
                &&& m.router is Hash <==> hashed
                &&& m.router matches V4Router::Hash { gate_weight, tid2eid, n_experts, topk } ==> {
                    &&& tid2eid.path@ == gate_vb.spec_path("tid2eid"@) && tid2eid.dtype == DType::I64
                    &&& tid2eid.shape@ == seq![cfg.vocab_size->0, topk]
                    &&& gate_weight.path@ == gate_vb.spec_path("weight"@) && gate_weight.shape@ == seq![n_experts, cfg.hidden_size]
                    &&& gate_weight.dtype == DType::BF16
                    &&& n_experts == cfg.experts() && topk == cfg.moe_cfg->0.num_experts_per_tok
                    &&& gate_weight.shard.world_size == 1 && tid2eid.shard.world_size == 1
                }
                &&& m.router matches V4Router::Score { gate, bias, topk } ==> {
                    &&& gate matches LinearX::Linear(l) ==> l.weight.shape@ == seq![cfg.experts(), cfg.hidden_size] && l.bias is None
                        && l.dtype == DType::F32 && l.weight.path@ == gate_vb.spec_path("weight"@)
                    &&& gate is Linear
                    &&& topk == cfg.moe_cfg->0.num_experts_per_tok
                }
                &&& m.buffers.experts == cfg.experts() && m.buffers.hidden == cfg.hidden_size
                &&& m.buffers.local * comm.world_size <= cfg.expert_width() < (m.buffers.local + 1) * comm.world_size
                &&& m.world_size == comm.world_size && m.dtype == dtype
            }
        }),
{
    let (n, ws) = (cfg.expert_width() as int, comm.world_size as int);
    lemma_fundamental_div_mod(n, ws);
    lemma_mod_bound(n, ws);
    lemma_mul_is_commutative(ws, n / ws);
    lemma_mul_is_distributive_add_other_way(ws, n / ws, 1);
}

/// Each expert is put where the one before it ends. In the first buffer the rows
/// of up come right behind those of gate. Gate and up are cut by rows and down
/// by columns; scales are tried as exponents, then as floats, then as bytes.
pub proof fn law_experts_are_put_one_behind_the_other(
    cfg: Config,
    gate_vb: VarBuilderX,
    vb: VarBuilderX,
    bias_vb: VarBuilderX,
    comm: Comm,
    dtype: DType,
    r: Result<FusedMoeMxfp4, MoeError>,
    i: int,
    gate: VarBuilderX,
    up: VarBuilderX,
    down: VarBuilderX,
)
    requires
        cfg.has_experts(),
        comm.wf(),
        ExpertBuffers::of(cfg, comm).wf(),
        call_ensures(FusedMoeMxfp4::new_with_gate, (&cfg, &gate_vb, &vb, &bias_vb, &comm, dtype), r),
        r is Ok,
        0 <= i < cfg.experts(),
        call_ensures(expert_proj, (&vb, i as usize, Proj::Gate), gate),
        call_ensures(expert_proj, (&vb, i as usize, Proj::Up), up),
        call_ensures(expert_proj, (&vb, i as usize, Proj::Down), down),
    ensures
        ({
            let m = r->Ok_0;
            let (n, h, l) = (cfg.expert_width(), cfg.hidden_size, m.buffers.local);
            let (g, u, d) = (m.gate@[i], m.up@[i], m.down@[i]);
            &&& m.gate@.len() == cfg.experts() && m.up@.len() == cfg.experts() && m.down@.len() == cfg.experts()
            &&& g.block_offset == i * (2 * l * (h / 2)) && g.scale_offset == i * (2 * l * (h / 32))
            &&& u.block_offset == g.block_offset + l * (h / 2) && u.scale_offset == g.scale_offset + l * (h / 32)
            &&& d.block_offset == i * (h * (l / 2)) && d.scale_offset == i * (h * (l / 32))
            &&& g.blocks.shape@ == seq![n, h / 2] && u.blocks.shape@ == seq![n, h / 2] && d.blocks.shape@ == seq![h, n / 2]
            &&& g.blocks.dtype == DType::U8 && u.blocks.dtype == DType::U8 && d.blocks.dtype == DType::U8
            &&& g.blocks.shard.dim == 0 && u.blocks.shard.dim == 0 && d.blocks.shard.dim == 1
            &&& g.blocks.shard.rank == comm.rank && u.blocks.shard.rank == comm.rank && d.blocks.shard.rank == comm.rank
            &&& g.blocks.shard.world_size == comm.world_size && d.blocks.shard.world_size == comm.world_size
            &&& are_scales(g.scales, gate, n, h / 32, g.blocks.shard)
            &&& are_scales(u.scales, up, n, h / 32, u.blocks.shard)
            &&& are_scales(d.scales, down, h, n / 32, d.blocks.shard)
        }),
{
    assert(at_proj(&gate, vb.checkpoint, vb.prefix@, i, Proj::Gate));
    assert(at_proj(&up, vb.checkpoint, vb.prefix@, i, Proj::Up));
    assert(at_proj(&down, vb.checkpoint, vb.prefix@, i, Proj::Down));
    let m = r->Ok_0;
    assert(placed(m.gate@[i], &gate, m.buffers, Proj::Gate, cfg.expert_width(), cfg.hidden_size, m.gate@[i].blocks.shard, i));
    assert(placed(m.up@[i], &up, m.buffers, Proj::Up, cfg.expert_width(), cfg.hidden_size, m.up@[i].blocks.shard, i));
    assert(placed(m.down@[i], &down, m.buffers, Proj::Down, cfg.hidden_size, cfg.expert_width(), m.down@[i].blocks.shard, i));
}

/// Whether a fetch tries the first scales that a scope has, in three types.
pub open spec fn are_scales(f: Fetch, vb: VarBuilderX, rows: usize, cols: usize, s: Shard) -> bool {
    &&& f.tries@.len() == 3
    &&& f.tries@[0].dtype == DType::F8E8M0 && f.tries@[1].dtype == DType::F8E4M3 && f.tries@[2].dtype == DType::U8
    &&& forall|t: int| 0 <= t < 3 ==> (#[trigger] f.tries@[t]).shape@ == seq![rows, cols] && f.tries@[t].shard == s
    &&& vb.has("weight_scale"@) ==> (forall|t: int| 0 <= t < 3 ==> (#[trigger] f.tries@[t]).path@ == vb.spec_path("weight_scale"@))
    &&& !vb.has("weight_scale"@) && vb.has("scale"@) ==> (forall|t: int|
        0 <= t < 3 ==> (#[trigger] f.tries@[t]).path@ == vb.spec_path("scale"@))
    &&& !vb.has("weight_scale"@) && !vb.has("scale"@) ==> (forall|t: int|
        0 <= t < 3 ==> (#[trigger] f.tries@[t]).path@ == vb.spec_path("scales"@))
}

/// A scope with a router and experts in it is read as those two scopes are.
pub proof fn law_experts_below_one_scope(cfg: Config, vb: VarBuilderX, comm: Comm, dtype: DType, r: Result<FusedMoeMxfp4, MoeError>)
    requires
        cfg.has_experts(),
        comm.wf(),
        ExpertBuffers::of(cfg, comm).wf(),
        call_ensures(FusedMoeMxfp4::new, (&cfg, &vb, &comm, dtype), r),
    ensures
        r is Err <==> vb.checkpoint.gguf,
        r matches Ok(m) ==> {
            &&& m.router is Hash <==> vb.child("gate"@).has("tid2eid"@) && cfg.vocab_size is Some && cfg.vocab_size->0 > 0
            &&& m.router matches V4Router::Hash { gate_weight, tid2eid, .. } ==> gate_weight.path@ == vb.child("gate"@).spec_path("weight"@)
                && tid2eid.path@ == vb.child("gate"@).spec_path("tid2eid"@)
            &&& m.gate@.len() == cfg.experts() && m.up@.len() == cfg.experts() && m.down@.len() == cfg.experts()
            &&& m.world_size == comm.world_size && m.dtype == dtype
        },
{
}

/// A pass: one row for each token and expert, with gate and up halves side by
/// side; experts compute in half width where the model is in full width; sums
/// are made in full width, and over the ranks where there are several.
pub proof fn law_expert_passes(m: FusedMoeMxfp4, tokens: usize, hidden: usize, k: usize, r: V4MoePass, at: int)
    requires
        call_ensures(V4Router::num_experts_per_tok, (&m.router,), k),
        tokens * k <= usize::MAX,
        2 * m.buffers.local <= usize::MAX,
        call_ensures(FusedMoeMxfp4::forward_with_ids_f32, (&m, tokens, hidden), r),
    ensures
        m.dtype == DType::F32 ==> r.dtype == DType::BF16,
        m.dtype != DType::F32 ==> r.dtype == m.dtype,
        r.quantize <==> r.dtype == DType::BF16,
        r.flat.0 == tokens * k && r.flat.1 == m.buffers.local + m.buffers.local,
        0 <= at < m.buffers.local <==> r.gate.start <= at < r.gate.start + r.gate.len,
        m.buffers.local <= at < r.flat.1 <==> r.up.start <= at < r.up.start + r.up.len,
        r.down_inputs.0 == tokens && r.down_inputs.1 == k && r.down_inputs.2 == m.buffers.local,
        r.output.0 == tokens && r.output.1 == k && r.output.2 == hidden,
        r.sum_as == DType::F32,
        r.all_reduce <==> m.world_size > 1,
{
    lemma_mul_nonnegative(tokens as int, k as int);
}

/// Two-bit experts keep the sizes of the tensors that they are packed from: as
/// many rows, twice the bytes as inputs, and a scale for 32 of them. Scales of two
/// dimensions are brought into three, those of three are left, and others are
/// refused, gate and up first.
pub proof fn law_two_bit_experts(
    mx: FusedMoeMxfp4,
    gate_up: (usize, usize, usize),
    gate_up_dims: usize,
    down: (usize, usize, usize),
    down_dims: usize,
    enabled: bool,
    r: Result<FusedMoeW2, V4MoeError>,
    k: usize,
)
    requires
        gate_up.2 * 2 <= usize::MAX,
        down.2 * 2 <= usize::MAX,
        gate_up.1 * (gate_up.2 * 2 / 32) <= usize::MAX,
        down.1 * (down.2 * 2 / 32) <= usize::MAX,
        call_ensures(FusedMoeW2::from_mxfp4, (&mx, gate_up, gate_up_dims, down, down_dims, enabled), r),
        call_ensures(V4Router::num_experts_per_tok, (&mx.router,), k),
    ensures
        r is Ok <==> 2 <= gate_up_dims <= 3 && 2 <= down_dims <= 3,
        !(2 <= gate_up_dims <= 3) ==> r == Err::<FusedMoeW2, V4MoeError>(V4MoeError::ScaleDims { dims: gate_up_dims }),
        2 <= gate_up_dims <= 3 && !(2 <= down_dims <= 3) ==> r == Err::<FusedMoeW2, V4MoeError>(
            V4MoeError::ScaleDims { dims: down_dims },
        ),
        r matches Ok(m) ==> {
            &&& m.gate_up_n == gate_up.1 && m.gate_up_k == gate_up.2 + gate_up.2
            &&& m.down_n == down.1 && m.down_k == down.2 + down.2
            &&& m.gate_up_reshape is Some <==> gate_up_dims == 2
            &&& m.down_reshape is Some <==> down_dims == 2
            &&& m.gate_up_reshape matches Some(s) ==> s.0 == gate_up.0 && s.1 == gate_up.1 && s.2 == gate_up.2 / 16
            &&& m.down_reshape matches Some(s) ==> s.0 == gate_up.0 && s.1 == down.1 && s.2 == down.2 / 16
            &&& m.gate_up_scales.0 == gate_up.0 && m.gate_up_scales.1 == gate_up.1 * (gate_up.2 / 16)
            &&& m.down_scales.0 == gate_up.0 && m.down_scales.1 == down.1 * (down.2 / 16)
            &&& m.keeps_restore == enabled && m.restore_gate_enabled == enabled
            &&& m.topk == k && m.world_size == mx.world_size && m.dtype == mx.dtype
        },
{
    assert(gate_up.2 * 2 / 32 == gate_up.2 / 16 && down.2 * 2 / 32 == down.2 / 16);
    lemma_mul_nonnegative(gate_up.1 as int, (gate_up.2 / 16) as int);
    lemma_mul_nonnegative(down.1 as int, (down.2 / 16) as int);
}

/// Experts are restored only in a decode step in which the router is unsure,
/// and only where the tensors were kept and the check is on.
pub proof fn law_experts_are_restored_when_unsure(m: FusedMoeW2, is_prefill: bool, unsure: bool, asks: bool, r: W2Path)
    requires
        call_ensures(FusedMoeW2::asks_router, (&m, is_prefill), asks),
        call_ensures(FusedMoeW2::forward_with_ids, (&m, is_prefill, unsure), r),
    ensures
        is_prefill ==> !asks && r == W2Path::TwoBit,
        !m.keeps_restore || !m.restore_gate_enabled ==> !asks && r == W2Path::TwoBit,
        !unsure ==> r == W2Path::TwoBit,
        !is_prefill && m.keeps_restore && m.restore_gate_enabled ==> asks && (unsure ==> r == W2Path::Restore),
{
}

/// A pass through two-bit experts takes each slot once, beside its own expert
/// and in the order of experts, and cuts the outputs of the first product into
/// halves.
pub proof fn law_two_bit_passes(
    m: FusedMoeW2,
    tokens: usize,
    hidden: usize,
    topk_ids: Vec<u32>,
    r: Result<W2Pass, RouteError>,
    i: int,
    j: int,
)
    requires
        call_ensures(FusedMoeW2::forward_with_ids_2bit, (&m, tokens, hidden, &topk_ids), r),
    ensures
        r is Ok <==> 0 < topk_ids@.len() <= u32::MAX,
        r matches Ok(x) ==> {
            &&& x.slots@.len() == topk_ids@.len() && x.experts@.len() == topk_ids@.len()
            &&& 0 <= i < x.slots@.len() ==> x.slots@[i] < topk_ids@.len() && x.experts@[i] == topk_ids@[x.slots@[i] as int]
            &&& 0 <= i < j < x.slots@.len() ==> x.slots@[i] != x.slots@[j] && x.experts@[i] <= x.experts@[j]
            &&& x.gate_up.0 == m.gate_up_n && x.gate_up.1 == m.gate_up_k && x.down.0 == m.down_n && x.down.1 == m.down_k
            &&& x.gate.start == 0 && x.up.start == x.gate.len && x.up.len == x.gate.len
            &&& x.up.start + x.up.len <= m.gate_up_n <= x.up.start + x.up.len + 1
            &&& x.output.0 == tokens && x.output.1 == m.topk && x.output.2 == hidden
            &&& m.dtype == DType::F32 ==> x.dtype == DType::BF16
            &&& m.dtype != DType::F32 ==> x.dtype == m.dtype
            &&& x.result == m.dtype
            &&& x.all_reduce <==> m.world_size > 1
        },
{
}

} // verus!
