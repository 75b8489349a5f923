//! Feed-forward layers with a gate.

use crate::attention::{part_rows, AttentionError};
use crate::checkpoint::{dims2, DType, Fetch, VarBuilderX};
use crate::config::{method_is, QuantConfig};
use crate::distributed::{shard, Comm, Shard, Span};
use crate::linear::{
    can_plan, fp8_scale_shape, fp8_scales_exist, fp8_unplannable, has_fp8_tensors, leading_rows, plannable, Fp8Error, LinearSize,
    LinearX,
};
use crate::math::{ceil_div, div_ceil};
use crate::parallel::{
    fp8_refusal, full_size, product, row_size, ReplicatedLinear, TensorParallelColumnLinear, TensorParallelRowLinear,
};
use crate::text::same;
use vstd::arithmetic::div_mod::*;
use vstd::prelude::*;

verus! {

/// The rows of gate and of up in the tensor that joins them.
#[derive(Clone, Copy, Debug, PartialEq, Eq, Structural)]
pub struct JoinedRows {
    pub gate: Span,
    pub up: Span,
}

impl JoinedRows {
    /// `rows` rows of gate, followed by as many of up.
    pub open spec fn halves(rows: int) -> Self {
        JoinedRows { gate: Span { start: 0, len: rows as usize }, up: Span { start: rows as usize, len: rows as usize } }
    }

    pub fn of(rows: usize) -> (r: Self)
        ensures
            r == Self::halves(rows as int),
    {
        JoinedRows { gate: Span { start: 0, len: rows }, up: Span { start: rows, len: rows } }
    }
}

/// Each row of the joined tensor belongs to gate or to up, never to both, and
/// the rows of gate come first.
pub proof fn law_gate_rows_come_first(rows: usize, row: int)
    requires
        0 <= row < 2 * rows,
    ensures
        ({
            let j = JoinedRows::halves(rows as int);
            let in_gate = j.gate.start <= row < j.gate.start + j.gate.len;
            let in_up = j.up.start <= row < j.up.start + j.up.len;
            &&& in_gate != in_up
            &&& in_gate == (row < rows)
            &&& j.gate.start == 0 && j.up.start == j.gate.len
        }),
{
}

/// Gate or up rows of a packed matrix.
pub struct GatePart {
    pub weight: Fetch,
    /// Scales of an FP8 weight.
    pub scale: Option<Fetch>,
    /// Outputs that the rank holds.
    pub rows: usize,
}

impl GatePart {
    /// Whether this reads a part of the weight in the scope.
    pub open spec fn is_part(
        &self,
        vb: &VarBuilderX,
        out_dim: usize,
        in_dim: usize,
        s: Shard,
        block: Option<(usize, usize)>,
        dtype: DType,
    ) -> bool {
        &&& match block {
            Some(b) => {
                let scales = fp8_scale_shape(out_dim, in_dim, b.0, b.1);
                &&& self.weight.tries@.len() == 2
                &&& self.weight.tries@[0].reads(vb.spec_path("weight"@), seq![out_dim, in_dim], s, DType::F8E4M3)
                &&& self.weight.tries@[1].reads(vb.spec_path("weight"@), seq![out_dim, in_dim], s, DType::U8)
                &&& self.scale matches Some(f)
                &&& f.tries@.len() == 2
                &&& f.tries@[0].reads(vb.spec_path("weight_scale"@), scales, s, DType::F32)
                &&& f.tries@[1].reads(vb.spec_path("weight_scale_inv"@), scales, s, DType::F32)
            },
            None => {
                &&& self.weight.once(vb.spec_path("weight"@), seq![out_dim, in_dim], s, dtype)
                &&& self.scale is None
            },
        }
        &&& self.rows == part_rows(out_dim, s)
    }

    fn read(
        vb: &VarBuilderX,
        name: &str,
        out_dim: usize,
        in_dim: usize,
        s: Shard,
        block: Option<(usize, usize)>,
        dtype: DType,
    ) -> (r: Self)
        requires
            s.world_size > 0,
            block matches Some(b) ==> 0 < b.0 && 0 < b.1 && out_dim + b.0 <= usize::MAX && in_dim + b.1 <= usize::MAX,
        ensures
            r.is_part(&vb.child(name@), out_dim, in_dim, s, block, dtype),
    {
        let p = vb.pp(name);
        let (weight, scale) = match block {
            Some(b) => {
                let (rows, cols) = (div_ceil(out_dim, b.0), div_ceil(in_dim, b.1));
                let weight = Fetch::two(
                    p.read("weight", dims2(out_dim, in_dim), s, DType::F8E4M3),
                    p.read("weight", dims2(out_dim, in_dim), s, DType::U8),
                );
                let scale = Fetch::two(
                    p.read("weight_scale", dims2(rows, cols), s, DType::F32),
                    p.read("weight_scale_inv", dims2(rows, cols), s, DType::F32),
                );
                (weight, Some(scale))
            },
            None => (Fetch::one(p.read("weight", dims2(out_dim, in_dim), s, dtype)), None),
        };
        GatePart { weight, scale, rows: out_dim / s.world_size }
    }
}

/// The size of a feed-forward layer and how its gate and up weights are
/// stored.
#[derive(Clone, Copy)]
pub struct MlpSize {
    pub hidden_size: usize,
    pub intermediate_size: usize,
    /// Whether gate and up are one tensor, gate first.
    pub gate_up_merged: bool,
    pub dtype: DType,
}

impl MlpSize {
    /// Outputs of the tensor that holds gate rows.
    pub open spec fn out_dim(self) -> int {
        if self.gate_up_merged { self.intermediate_size * 2 } else { self.intermediate_size as int }
    }

    /// The part of that tensor with gate rows of a rank.
    pub open spec fn gate_shard(self, comm: Comm) -> Shard {
        Shard {
            dim: 0,
            rank: comm.rank,
            world_size: if self.gate_up_merged { (comm.world_size * 2) as usize } else { comm.world_size },
        }
    }

    /// The part of that tensor with the up rows of a rank.
    pub open spec fn up_shard(self, comm: Comm) -> Shard {
        Shard {
            dim: 0,
            rank: if self.gate_up_merged { (comm.world_size + comm.rank) as usize } else { comm.rank },
            world_size: if self.gate_up_merged { (comm.world_size * 2) as usize } else { comm.world_size },
        }
    }

    /// The sizes of gate and up projections of a rank.
    pub open spec fn gate(self, comm: Comm) -> LinearSize {
        LinearSize {
            in_dim: self.hidden_size,
            out_dim: self.out_dim() as usize,
            shard: self.gate_shard(comm),
            bias: false,
            dtype: self.dtype,
        }
    }

    pub open spec fn up(self, comm: Comm) -> LinearSize {
        LinearSize { shard: self.up_shard(comm), ..self.gate(comm) }
    }

    /// Whether a layer of this size can be planned.
    pub open spec fn wf(self, comm: Comm, gguf: bool, cfg: Option<QuantConfig>) -> bool {
        &&& comm.wf()
        &&& self.intermediate_size * 2 <= usize::MAX
        &&& comm.world_size * 2 <= usize::MAX
        &&& plannable(self.gate(comm), gguf, cfg)
        &&& plannable(self.up(comm), gguf, cfg)
        &&& plannable(row_size(self.intermediate_size, self.hidden_size, comm, self.dtype), gguf, cfg)
    }

    /// Whether a layer of this size can be planned.
    pub fn can_plan(self, comm: &Comm, gguf: bool, cfg: &Option<QuantConfig>) -> (r: bool)
        ensures
            r == self.wf(*comm, gguf, *cfg),
    {
        if comm.rank() >= comm.world_size() || self.intermediate_size > usize::MAX / 2 || comm.world_size() > usize::MAX / 2 {
            return false;
        }
        let (g, u) = self.shards(comm);
        let out_dim: usize = if self.gate_up_merged { self.intermediate_size * 2 } else { self.intermediate_size };
        let gate = LinearSize { in_dim: self.hidden_size, out_dim, shard: g, bias: false, dtype: self.dtype };
        let up = LinearSize { in_dim: self.hidden_size, out_dim, shard: u, bias: false, dtype: self.dtype };
        let part = shard(1, comm.rank(), comm.world_size());
        let down = LinearSize {
            in_dim: self.intermediate_size, out_dim: self.hidden_size, shard: part, bias: false, dtype: self.dtype,
        };
        can_plan(gate, gguf, cfg) && can_plan(up, gguf, cfg) && can_plan(down, gguf, cfg)
    }

    fn shards(self, comm: &Comm) -> (r: (Shard, Shard))
        requires
            comm.wf(),
            comm.world_size * 2 <= usize::MAX,
        ensures
            r.0 == self.gate_shard(*comm),
            r.1 == self.up_shard(*comm),
    {
        let ws: usize = comm.world_size();
        if self.gate_up_merged {
            (shard(0, comm.rank(), ws * 2), shard(0, ws + comm.rank(), ws * 2))
        } else {
            (shard(0, comm.rank(), ws), shard(0, comm.rank(), ws))
        }
    }
}

/// Gate and up in one matrix.
pub struct PackedGateUp {
    pub gate: GatePart,
    pub up: GatePart,
    pub block: Option<(usize, usize)>,
    /// Whether both parts start at a block.
    pub aligned: bool,
    /// Rows of the matrix, and of its scales where it has any.
    pub joined: JoinedRows,
    pub joined_scales: Option<JoinedRows>,
}

/// Names of the tensors that hold gate and up.
pub open spec fn packed_names(merged: bool) -> (Seq<char>, Seq<char>) {
    if merged { ("gate_up_proj"@, "gate_up_proj"@) } else { ("gate_proj"@, "up_proj"@) }
}

impl PackedGateUp {
    /// Whether this reads gate and up in the scope.
    pub open spec fn is_packed(&self, vb: &VarBuilderX, size: MlpSize, comm: Comm, block: Option<(usize, usize)>) -> bool {
        let (gate, up) = packed_names(size.gate_up_merged);
        let out_dim = size.out_dim() as usize;
        let (g, u) = (size.gate_shard(comm), size.up_shard(comm));
        &&& self.gate.is_part(&vb.child(gate), out_dim, size.hidden_size, g, block, size.dtype)
        &&& self.up.is_part(&vb.child(up), out_dim, size.hidden_size, u, block, size.dtype)
        &&& self.block == block
        &&& self.aligned == match block {
            Some(b) => (g.rank * part_rows(out_dim, g)) % (b.0 as int) == 0 && (u.rank * part_rows(out_dim, u)) % (b.0 as int) == 0,
            None => true,
        }
        &&& self.joined == JoinedRows::halves(part_rows(out_dim, g))
        &&& self.joined_scales == match block {
            Some(b) => Some(JoinedRows::halves(ceil_div(out_dim as int, b.0 as int) / g.world_size as int)),
            None => None,
        }
    }

    /// Whether `r` is what packing comes to.
    pub open spec fn planned(
        r: Result<Option<Self>, AttentionError>,
        vb: &VarBuilderX,
        size: MlpSize,
        comm: Comm,
        cfg: Option<QuantConfig>,
        quant: Option<String>,
    ) -> bool {
        let (gate, up) = packed_names(size.gate_up_merged);
        if vb.checkpoint.gguf || quant is Some || (cfg is Some && !method_is(cfg, "fp8"@)) {
            r == Ok::<Option<Self>, AttentionError>(None)
        } else if cfg is None {
            r matches Ok(Some(p)) && p.is_packed(vb, size, comm, None)
        } else if cfg->0.weight_block_size is None {
            r == Err::<Option<Self>, AttentionError>(AttentionError::NoBlockSize)
        } else if cfg->0.weight_block_size->0@.len() != 2 {
            r == Err::<Option<Self>, AttentionError>(AttentionError::Fp8(fp8_refusal(cfg)))
        } else if !fp8_scales_exist(&vb.child(gate)) || !fp8_scales_exist(&vb.child(up)) {
            r == Ok::<Option<Self>, AttentionError>(None)
        } else {
            r matches Ok(Some(p)) && p.is_packed(vb, size, comm, Some(crate::attention::block_pair(cfg)))
        }
    }

    pub fn try_load_packed_gate_up(
        vb: &VarBuilderX,
        comm: &Comm,
        size: MlpSize,
        quant_cfg: &Option<QuantConfig>,
        quant: &Option<String>,
    ) -> (r: Result<Option<Self>, AttentionError>)
        requires
            size.wf(*comm, vb.checkpoint.gguf, *quant_cfg),
        ensures
            Self::planned(r, vb, size, *comm, *quant_cfg, *quant),
    {
        if vb.is_qvar_builder() || quant.is_some() {
            return Ok(None);
        }
        let gate_name = if size.gate_up_merged { "gate_up_proj" } else { "gate_proj" };
        let up_name = if size.gate_up_merged { "gate_up_proj" } else { "up_proj" };
        let block: Option<(usize, usize)> = match quant_cfg {
            None => None,
            Some(cfg) => {
                if !same(cfg.quant_method.as_str(), "fp8") {
                    return Ok(None);
                }
                let b = match &cfg.weight_block_size {
                    Some(b) => b,
                    None => return Err(AttentionError::NoBlockSize),
                };
                if b.len() != 2 {
                    return Err(AttentionError::Fp8(Fp8Error::BlockSizeLen { len: b.len() }));
                }
                let (g, u) = (vb.pp(gate_name), vb.pp(up_name));
                if !has_fp8_tensors(&g) || !has_fp8_tensors(&u) {
                    return Ok(None);
                }
                Some((b[0], b[1]))
            },
        };
        let (g, u) = size.shards(comm);
        let out_dim: usize = if size.gate_up_merged { size.intermediate_size * 2 } else { size.intermediate_size };
        let gate = GatePart::read(vb, gate_name, out_dim, size.hidden_size, g, block, size.dtype);
        let up = GatePart::read(vb, up_name, out_dim, size.hidden_size, u, block, size.dtype);
        proof {
            lemma_part_starts_inside(out_dim, g);
            lemma_part_starts_inside(out_dim, u);
        }
        let aligned = match block {
            Some(b) => {
                let gate_start: usize = g.rank * gate.rows;
                let up_start: usize = u.rank * up.rows;
                gate_start % b.0 == 0 && up_start % b.0 == 0
            },
            None => true,
        };
        let joined = JoinedRows::of(gate.rows);
        let joined_scales = match block {
            Some(b) => Some(JoinedRows::of(div_ceil(out_dim, b.0) / g.world_size)),
            None => None,
        };
        Ok(Some(PackedGateUp { gate, up, block, aligned, joined, joined_scales }))
    }

    /// The widths of the outputs: those of gate, then those of up.
    pub fn output_splits(&self) -> (r: [usize; 2])
        ensures
            r@ == seq![self.joined.gate.len, self.joined.up.len],
    {
        let r: [usize; 2] = [self.joined.gate.len, self.joined.up.len];
        assert(r@ =~= seq![self.joined.gate.len, self.joined.up.len]);
        r
    }

    /// Whether the packed form is used, once it is known whether weights and
    /// scales could be read under its names; else each projection is read by
    /// itself, under the short names where it has those.
    pub fn settles(&self, weights_read: bool) -> (r: bool)
        ensures
            r == (weights_read && self.aligned),
    {
        weights_read && self.aligned
    }
}

proof fn lemma_part_starts_inside(out_dim: usize, s: Shard)
    requires
        s.rank < s.world_size,
    ensures
        0 <= s.rank * part_rows(out_dim, s) <= out_dim,
{
    let n = part_rows(out_dim, s);
    lemma_fundamental_div_mod(out_dim as int, s.world_size as int);
    lemma_mod_bound(out_dim as int, s.world_size as int);
    lemma_div_pos_is_pos(out_dim as int, s.world_size as int);
    assert(0 <= s.rank * n <= s.world_size * n) by (nonlinear_arith)
        requires
            0 <= s.rank < s.world_size,
            n >= 0,
    ;
}

/// In a merged tensor whose halves spread evenly, gate rows of a rank
/// lie in the first half and its up rows at the same place in the second.
pub proof fn law_merged_gate_up_halves(size: MlpSize, comm: Comm)
    requires
        comm.wf(),
        comm.world_size * 2 <= usize::MAX,
        size.gate_up_merged,
        size.intermediate_size * 2 <= usize::MAX,
        size.intermediate_size as int % comm.world_size as int == 0,
    ensures
        ({
            let out_dim = size.out_dim() as usize;
            let (g, u) = (size.gate_shard(comm), size.up_shard(comm));
            let rows = size.intermediate_size as int / comm.world_size as int;
            &&& part_rows(out_dim, g) == rows
            &&& part_rows(out_dim, u) == rows
            &&& g.rank * rows == comm.rank * rows
            &&& 0 <= comm.rank * rows
            &&& comm.rank * rows + rows <= size.intermediate_size
            &&& u.rank * rows == size.intermediate_size + comm.rank * rows
        }),
{
    let ws = comm.world_size as int;
    let n = size.intermediate_size as int;
    let rows = n / ws;
    crate::math::lemma_div_exact(n, ws);
    assert(n * 2 == rows * (ws * 2)) by (nonlinear_arith)
        requires
            rows * ws == n,
    ;
    lemma_div_by_multiple(rows, ws * 2);
    assert((ws + comm.rank) * rows == n + comm.rank * rows) by (nonlinear_arith)
        requires
            rows * ws == n,
    ;
    lemma_div_pos_is_pos(n, ws);
    assert(0 <= comm.rank * rows && comm.rank * rows + rows <= rows * ws) by (nonlinear_arith)
        requires
            0 <= comm.rank < ws,
            rows >= 0,
    ;
}

/// How gate and up are projected.
pub enum GateUpProjection {
    Separate { gate_proj: TensorParallelColumnLinear, up_proj: TensorParallelColumnLinear },
    /// The packed form where it settles, else the other one.
    Packed { packed: PackedGateUp, gate_proj: TensorParallelColumnLinear, up_proj: TensorParallelColumnLinear },
}

/// A packed projection has not two outputs.
#[derive(Debug, Clone, Copy, PartialEq, Eq, Structural)]
pub struct GateUpOutputs {
    pub got: usize,
}

/// A feed-forward layer of one rank.
pub struct MLP {
    pub gate_up_proj: GateUpProjection,
    pub down_proj: TensorParallelRowLinear,
}

/// Whether the scope `name` holds a plain weight or a scale.
pub open spec fn numbered(vb: &VarBuilderX, name: Seq<char>) -> bool {
    vb.child(name).has("weight"@) || vb.child(name).has("scale"@)
}

fn has_numbered(vb: &VarBuilderX, name: &str) -> (r: bool)
    ensures
        r == numbered(vb, name@),
{
    let p = vb.pp(name);
    p.has_key("weight") || p.has_key("scale")
}

/// Names of gate, up and down projections in the scope.
pub open spec fn mlp_names(vb: &VarBuilderX, merged: bool, suffix: Seq<char>) -> (Seq<char>, Seq<char>, Seq<char>) {
    if vb.checkpoint.gguf {
        (if merged { "ffn_up"@ + suffix } else { "ffn_gate"@ + suffix }, "ffn_up"@ + suffix, "ffn_down"@ + suffix)
    } else {
        (
            if merged { "gate_up_proj"@ } else if numbered(vb, "w1"@) { "w1"@ } else { "gate_proj"@ },
            if merged { "gate_up_proj"@ } else if numbered(vb, "w3"@) { "w3"@ } else { "up_proj"@ },
            if numbered(vb, "w2"@) { "w2"@ } else { "down_proj"@ },
        )
    }
}

/// The names of the projections in the scope.
pub fn resolve_names(vb: &VarBuilderX, merged: bool, suffix: &str) -> (r: (String, String, String))
    ensures
        (r.0@, r.1@, r.2@) == mlp_names(vb, merged, suffix@),
{
    if vb.is_qvar_builder() {
        let gate = if merged { "ffn_up" } else { "ffn_gate" };
        (gate.to_owned().concat(suffix), "ffn_up".to_owned().concat(suffix), "ffn_down".to_owned().concat(suffix))
    } else {
        let gate = if merged { "gate_up_proj" } else if has_numbered(vb, "w1") { "w1" } else { "gate_proj" };
        let up = if merged { "gate_up_proj" } else if has_numbered(vb, "w3") { "w3" } else { "up_proj" };
        let down = if has_numbered(vb, "w2") { "w2" } else { "down_proj" };
        (gate.to_owned(), up.to_owned(), down.to_owned())
    }
}

/// One of two projections.
#[derive(Debug, Clone, Copy, PartialEq, Eq, Structural)]
pub enum Half {
    Gate,
    Up,
}

/// Two NVFP4 projections as one, whose bytes are kept as they are.
#[derive(Debug, Clone, Copy, PartialEq, Eq, Structural)]
pub struct MergedGateUp {
    /// Rows of each half.
    pub rows: usize,
    /// Rows of the joined blocks, of the joined scales and of the factors,
    /// one for each row.
    pub joined: JoinedRows,
    /// Whose global factor the whole matrix has beside those of its rows.
    pub global_from: Half,
    /// Whose input factor counts: the larger.
    pub input_from: Half,
}

impl MergedGateUp {
    /// Whose global factor a row has.
    pub open spec fn factor_of(self, row: int) -> Half {
        if self.joined.gate.start <= row < self.joined.gate.start + self.joined.gate.len { Half::Gate } else { Half::Up }
    }

    pub fn row_factor(&self, row: usize) -> (r: Half)
        ensures
            r == self.factor_of(row as int),
    {
        if self.joined.gate.start <= row && row - self.joined.gate.start < self.joined.gate.len { Half::Gate } else { Half::Up }
    }
}

/// Each half of a merged matrix keeps the global factor that it had alone.
pub proof fn law_merged_rows_keep_their_factor(m: MergedGateUp, row: int)
    requires
        m.joined == JoinedRows::halves(m.rows as int),
        0 <= row < 2 * m.rows,
    ensures
        m.factor_of(row) == (if row < m.rows { Half::Gate } else { Half::Up }),
{
}

/// How a fused pass over merged NVFP4 weights is laid out.
pub struct MergedPass {
    /// Shape of the input as a matrix, where it is not one.
    pub flat: Option<(usize, usize)>,
    /// Columns of gate and up outputs.
    pub gate: Span,
    pub up: Span,
    /// Shape of each output.
    pub shape: Vec<usize>,
}

impl MLP {
    /// Why the layer cannot be planned, if so.
    pub open spec fn refusal(vb: &VarBuilderX, size: MlpSize, cfg: Option<QuantConfig>, quant: Option<String>, suffix: Seq<char>) -> Option<AttentionError> {
        let names = mlp_names(vb, size.gate_up_merged, suffix);
        let packing = !vb.checkpoint.gguf && quant is None && method_is(cfg, "fp8"@);
        if packing && cfg->0.weight_block_size is None {
            Some(AttentionError::NoBlockSize)
        } else if packing && cfg->0.weight_block_size->0@.len() != 2 {
            Some(AttentionError::Fp8(fp8_refusal(cfg)))
        } else if fp8_unplannable(&vb.child(names.0), cfg) || fp8_unplannable(&vb.child(names.1), cfg)
            || fp8_unplannable(&vb.child(names.2), cfg) {
            Some(AttentionError::Fp8(fp8_refusal(cfg)))
        } else {
            None
        }
    }

    /// Whether this is the layer of that size in the scope.
    pub open spec fn is_planned(
        &self,
        vb: &VarBuilderX,
        comm: Comm,
        size: MlpSize,
        cfg: Option<QuantConfig>,
        quant: Option<String>,
        suffix: Seq<char>,
    ) -> bool {
        let names = mlp_names(vb, size.gate_up_merged, suffix);
        let (g, u) = (vb.child(names.0), vb.child(names.1));
        &&& match self.gate_up_proj {
            GateUpProjection::Separate { gate_proj, up_proj } => {
                &&& PackedGateUp::planned(Ok(None), vb, size, comm, cfg, quant)
                &&& gate_proj.linear.is_layer(&g, size.gate(comm), cfg, quant)
                &&& up_proj.linear.is_layer(&u, size.up(comm), cfg, quant)
            },
            GateUpProjection::Packed { packed, gate_proj, up_proj } => {
                &&& PackedGateUp::planned(Ok(Some(packed)), vb, size, comm, cfg, quant)
                &&& gate_proj.linear.is_layer(&g, size.gate(comm), cfg, quant)
                &&& up_proj.linear.is_layer(&u, size.up(comm), cfg, quant)
            },
        }
        &&& TensorParallelRowLinear::planned(
            Ok(self.down_proj), &vb.child(names.2), row_size(size.intermediate_size, size.hidden_size, comm, size.dtype), comm,
            cfg, quant)
    }

    /// Whether `r` is the plan of the layer of that size in the scope.
    pub open spec fn planned(
        r: Result<Self, AttentionError>,
        vb: &VarBuilderX,
        comm: Comm,
        size: MlpSize,
        cfg: Option<QuantConfig>,
        quant: Option<String>,
        suffix: Seq<char>,
    ) -> bool {
        match Self::refusal(vb, size, cfg, quant, suffix) {
            Some(e) => r == Err::<Self, AttentionError>(e),
            None => r matches Ok(m) && m.is_planned(vb, comm, size, cfg, quant, suffix),
        }
    }

    pub fn new(
        vb: &VarBuilderX,
        comm: &Comm,
        size: MlpSize,
        quant_cfg: &Option<QuantConfig>,
        quant: &Option<String>,
        suffix: &str,
    ) -> (r: Result<Self, AttentionError>)
        requires
            size.wf(*comm, vb.checkpoint.gguf, *quant_cfg),
        ensures
            Self::planned(r, vb, *comm, size, *quant_cfg, *quant, suffix@),
    {
        let (gate_name, up_name, down_name) = resolve_names(vb, size.gate_up_merged, suffix);
        let packed = match PackedGateUp::try_load_packed_gate_up(vb, comm, size, quant_cfg, quant) {
            Ok(p) => p,
            Err(e) => return Err(e),
        };
        let (g, u) = size.shards(comm);
        let out_dim: usize = if size.gate_up_merged { size.intermediate_size * 2 } else { size.intermediate_size };
        let gate_size = LinearSize { in_dim: size.hidden_size, out_dim, shard: g, bias: false, dtype: size.dtype };
        let up_size = LinearSize { in_dim: size.hidden_size, out_dim, shard: u, bias: false, dtype: size.dtype };
        let gate_proj = match TensorParallelColumnLinear::load_below(vb, gate_name.as_str(), gate_size, quant_cfg, quant) {
            Ok(l) => l,
            Err(e) => return Err(AttentionError::Fp8(e)),
        };
        let up_proj = match TensorParallelColumnLinear::load_below(vb, up_name.as_str(), up_size, quant_cfg, quant) {
            Ok(l) => l,
            Err(e) => return Err(AttentionError::Fp8(e)),
        };
        let down_proj = match TensorParallelRowLinear::load_below(
            vb, down_name.as_str(), size.intermediate_size, size.hidden_size, comm, quant_cfg, quant, size.dtype,
        ) {
            Ok(l) => l,
            Err(e) => return Err(AttentionError::Fp8(e)),
        };
        let gate_up_proj = match packed {
            Some(packed) => GateUpProjection::Packed { packed, gate_proj, up_proj },
            None => GateUpProjection::Separate { gate_proj, up_proj },
        };
        Ok(MLP { gate_up_proj, down_proj })
    }

    /// How gate and up are merged into one NVFP4 matrix, if they are: both
    /// must be NVFP4 layers of their own with packed values of the same shape.
    /// `disabled` turns merging off; `up_input_larger` says whether the input
    /// factor of up is larger than that of gate.
    pub fn merge_nvfp4_gate_up(
        gate_proj: &TensorParallelColumnLinear,
        up_proj: &TensorParallelColumnLinear,
        gate_up_merged: bool,
        disabled: bool,
        gate_dims: &Vec<usize>,
        up_dims: &Vec<usize>,
        up_input_larger: bool,
    ) -> (r: Option<MergedGateUp>)
        ensures
            r == if !gate_up_merged && !disabled && gate_proj.linear is LnNvfp4 && up_proj.linear is LnNvfp4
                && gate_dims@.len() == 2 && gate_dims@ == up_dims@ && gate_dims@[0] > 0 {
                Some(MergedGateUp {
                    rows: gate_dims@[0],
                    joined: JoinedRows::halves(gate_dims@[0] as int),
                    global_from: Half::Gate,
                    input_from: if up_input_larger { Half::Up } else { Half::Gate },
                })
            } else {
                None
            },
    {
        if gate_up_merged || disabled {
            return None;
        }
        let both = match (&gate_proj.linear, &up_proj.linear) {
            (LinearX::LnNvfp4(_), LinearX::LnNvfp4(_)) => true,
            _ => false,
        };
        if !both || gate_dims.len() != 2 || up_dims.len() != 2 {
            return None;
        }
        if gate_dims[0] == up_dims[0] && gate_dims[1] == up_dims[1] && gate_dims[0] > 0 {
            assert(gate_dims@ =~= up_dims@);
            Some(
                MergedGateUp {
                    rows: gate_dims[0],
                    joined: JoinedRows::of(gate_dims[0]),
                    global_from: Half::Gate,
                    input_from: if up_input_larger { Half::Up } else { Half::Gate },
                },
            )
        } else {
            None
        }
    }

    /// Checks that the first projection gave two tensors: gates and values.
    pub fn forward(outputs: usize) -> (r: Result<(), GateUpOutputs>)
        ensures
            r == if outputs == 2 { Ok::<(), GateUpOutputs>(()) } else { Err(GateUpOutputs { got: outputs }) },
    {
        if outputs == 2 {
            Ok(())
        } else {
            Err(GateUpOutputs { got: outputs })
        }
    }

    /// Lays out a fused pass over merged weights of `n` rows each for an
    /// input of shape `dims`.
    pub fn merged_pass(dims: &Vec<usize>, n: usize) -> (r: MergedPass)
        requires
            dims@.len() >= 2,
            2 * n <= usize::MAX,
            forall|i: int| 0 <= i < dims@.len() ==> #[trigger] product(dims@.take(i)) <= usize::MAX,
        ensures
            r.flat == if dims@.len() > 2 {
                Some((product(dims@.drop_last()) as usize, dims@.last()))
            } else {
                None
            },
            r.gate == (Span { start: 0, len: n }),
            r.up == (Span { start: n, len: n }),
            r.shape@ == dims@.drop_last().push(n),
    {
        let last: usize = dims[dims.len() - 1];
        let (mut shape, batch) = leading_rows(dims);
        shape.push(n);
        MergedPass {
            flat: if dims.len() > 2 { Some((batch, last)) } else { None },
            gate: Span { start: 0, len: n },
            up: Span { start: n, len: n },
            shape,
        }
    }
}

/// A feed-forward layer without a gate, held in full.
pub struct NaiveMLP {
    pub fc1: ReplicatedLinear,
    pub fc2: ReplicatedLinear,
}

impl NaiveMLP {
    pub fn new(
        vb: &VarBuilderX,
        hidden_size: usize,
        intermediate_size: usize,
        bias: bool,
        first: &str,
        second: &str,
        dtype: DType,
    ) -> (r: Self)
        ensures
            r.fc1.linear.is_layer(&vb.child(first@), full_size(hidden_size, intermediate_size, bias, dtype), None, None),
            r.fc2.linear.is_layer(&vb.child(second@), full_size(intermediate_size, hidden_size, bias, dtype), None, None),
    {
        NaiveMLP {
            fc1: ReplicatedLinear::plain_below(vb, first, hidden_size, intermediate_size, bias, dtype),
            fc2: ReplicatedLinear::plain_below(vb, second, intermediate_size, hidden_size, bias, dtype),
        }
    }
}

/// A projection of gate and of up: one tensor of both, gate first, of which a
/// rank reads two parts half the tensor apart; or two tensors, of which it reads
/// the same part. Packing is decided as for attention.
pub proof fn law_gate_and_up_are_packed(
    vb: VarBuilderX,
    comm: Comm,
    size: MlpSize,
    cfg: Option<QuantConfig>,
    quant: Option<String>,
    r: Result<Option<PackedGateUp>, AttentionError>,
)
    requires
        size.wf(comm, vb.checkpoint.gguf, cfg),
        call_ensures(PackedGateUp::try_load_packed_gate_up, (&vb, &comm, size, &cfg, &quant), r),
    ensures
        vb.checkpoint.gguf || quant is Some ==> r == Ok::<Option<PackedGateUp>, AttentionError>(None),
        (cfg matches Some(c) && c.quant_method@ != "fp8"@) ==> r == Ok::<Option<PackedGateUp>, AttentionError>(None),
        !vb.checkpoint.gguf && quant is None && cfg is None ==> (r matches Ok(Some(p)) && p.block is None && p.aligned
            && p.joined_scales is None),
        !vb.checkpoint.gguf && quant is None && (cfg matches Some(c) && c.quant_method@ == "fp8"@ && c.weight_block_size is None) ==> r == Err::<
            Option<PackedGateUp>,
            AttentionError,
        >(AttentionError::NoBlockSize),
        r matches Ok(Some(p)) ==> {
            let (g, u) = (p.gate.weight.tries@[0], p.up.weight.tries@[0]);
            let w = comm.world_size as int;
            &&& size.gate_up_merged ==> {
                &&& g.shape@ == seq![(2 * size.intermediate_size) as usize, size.hidden_size] && u.shape@ == g.shape@ && g.path@ == u.path@
                &&& g.shard.world_size == 2 * w && u.shard.world_size == 2 * w
                &&& g.shard.rank == comm.rank && u.shard.rank == w + comm.rank
            }
            &&& !size.gate_up_merged ==> {
                &&& g.shape@ == seq![size.intermediate_size, size.hidden_size] && u.shape@ == g.shape@
                &&& g.shard.world_size == w && u.shard.world_size == w && g.shard.rank == comm.rank && u.shard.rank == comm.rank
            }
            &&& g.shard.dim == 0 && u.shard.dim == 0
            &&& p.gate.rows * w <= size.intermediate_size < (p.gate.rows + 1) * w
            &&& p.up.rows == p.gate.rows
            &&& p.joined.gate.start == 0 && p.joined.gate.len == p.gate.rows && p.joined.up.start == p.gate.rows && p.joined.up.len
                == p.gate.rows
            &&& p.block matches Some(b) ==> (p.aligned <==> (g.shard.rank * p.gate.rows) % (b.0 as int) == 0 && (u.shard.rank * p.up.rows) % (
            b.0 as int) == 0)
            &&& p.joined_scales matches Some(s) ==> s.gate.start == 0 && s.up.start == s.gate.len && s.up.len == s.gate.len
            &&& p.joined_scales is Some <==> p.block is Some
        },
{
    let w = comm.world_size as int;
    let n = size.intermediate_size as int;
    if size.gate_up_merged {
        let rows = (2 * n) / (2 * w);
        lemma_fundamental_div_mod(2 * n, 2 * w);
        assert(rows * w <= n < (rows + 1) * w && 0 <= rows) by (nonlinear_arith)
            requires
                2 * n == (2 * w) * rows + (2 * n) % (2 * w),
                0 <= (2 * n) % (2 * w) < 2 * w,
                w > 0,
                n >= 0,
        ;
        assert(rows <= n) by (nonlinear_arith)
            requires
                rows * w <= n,
                w >= 1,
                rows >= 0,
        ;
    } else {
        let rows = n / w;
        lemma_fundamental_div_mod(n, w);
        assert(rows * w <= n < (rows + 1) * w && 0 <= rows) by (nonlinear_arith)
            requires
                n == w * rows + n % w,
                0 <= n % w < w,
                w > 0,
                n >= 0,
        ;
        assert(rows <= n) by (nonlinear_arith)
            requires
                rows * w <= n,
                w >= 1,
                rows >= 0,
        ;
    }
}

/// The packed form is used where it was read and is aligned; its outputs are
/// those of gate, then as many of up.
pub proof fn law_packed_gate_and_up_settle(p: PackedGateUp, read: bool, r: bool, w: [usize; 2])
    requires
        call_ensures(PackedGateUp::settles, (&p, read), r),
        call_ensures(PackedGateUp::output_splits, (&p,), w),
    ensures
        r <==> read && p.aligned,
        w@.len() == 2 && w@[0] == p.joined.gate.len && w@[1] == p.joined.up.len,
{
}

/// Names of the projections: with the suffix in block-quantized files, where a
/// merged tensor is named like up; elsewhere by the long names, or by the short
/// ones where those hold a weight or a scale.
pub proof fn law_names_of_projections(vb: VarBuilderX, merged: bool, suffix: &str, r: (String, String, String))
    requires
        call_ensures(resolve_names, (&vb, merged, suffix), r),
    ensures
        vb.checkpoint.gguf ==> r.1@ == "ffn_up"@ + suffix@ && r.2@ == "ffn_down"@ + suffix@,
        vb.checkpoint.gguf && !merged ==> r.0@ == "ffn_gate"@ + suffix@,
        vb.checkpoint.gguf && merged ==> r.0@ == r.1@,
        !vb.checkpoint.gguf && merged ==> r.0@ == "gate_up_proj"@ && r.1@ == "gate_up_proj"@,
        !vb.checkpoint.gguf && !merged ==> {
            let (w1, w3) = (vb.child("w1"@), vb.child("w3"@));
            &&& w1.has("weight"@) || w1.has("scale"@) ==> r.0@ == "w1"@
            &&& !w1.has("weight"@) && !w1.has("scale"@) ==> r.0@ == "gate_proj"@
            &&& w3.has("weight"@) || w3.has("scale"@) ==> r.1@ == "w3"@
            &&& !w3.has("weight"@) && !w3.has("scale"@) ==> r.1@ == "up_proj"@
        },
        !vb.checkpoint.gguf ==> {
            let w2 = vb.child("w2"@);
            &&& w2.has("weight"@) || w2.has("scale"@) ==> r.2@ == "w2"@
            &&& !w2.has("weight"@) && !w2.has("scale"@) ==> r.2@ == "down_proj"@
        },
{
}

/// A planned layer goes from the hidden size to the intermediate one, twice, and
/// back; ranks cut the intermediate size and add up their outputs.
pub proof fn law_planned_feed_forward(
    vb: VarBuilderX,
    comm: Comm,
    size: MlpSize,
    cfg: Option<QuantConfig>,
    quant: Option<String>,
    suffix: &str,
    r: Result<MLP, AttentionError>,
)
    requires
        size.wf(comm, vb.checkpoint.gguf, cfg),
        call_ensures(MLP::new, (&vb, &comm, size, &cfg, &quant, suffix), r),
        r is Ok,
    ensures
        ({
            let m = r->Ok_0;
            let (gate, up) = match m.gate_up_proj {
                GateUpProjection::Separate { gate_proj, up_proj } => (gate_proj, up_proj),
                GateUpProjection::Packed { gate_proj, up_proj, .. } => (gate_proj, up_proj),
            };
            let w = comm.world_size as int;
            &&& m.down_proj.all_reduce <==> comm.world_size > 1
            &&& crate::parallel::cut_of(m.down_proj.linear) == Some(Shard { dim: 1, rank: comm.rank, world_size: comm.world_size })
            &&& m.down_proj.linear matches LinearX::Linear(l) ==> l.weight.shape@ == seq![size.hidden_size, size.intermediate_size]
            &&& crate::parallel::cut_of(gate.linear) matches Some(s) && s.dim == 0 && s.rank == comm.rank && (size.gate_up_merged
                ==> s.world_size == 2 * w) && (!size.gate_up_merged ==> s.world_size == w)
            &&& crate::parallel::cut_of(up.linear) matches Some(s) && s.dim == 0 && (size.gate_up_merged ==> s.rank == w + comm.rank
                && s.world_size == 2 * w) && (!size.gate_up_merged ==> s.rank == comm.rank && s.world_size == w)
            &&& gate.linear matches LinearX::Linear(l) ==> l.bias is None && l.weight.shape@[1] == size.hidden_size && l.weight.shape@.len() == 2
            &&& m.gate_up_proj is Packed ==> !vb.checkpoint.gguf && quant is None
        }),
{
}

/// Two NVFP4 projections become one where both are NVFP4, of one shape with two
/// dimensions and rows, stored apart, and merging is not turned off. Gate rows
/// come first and keep their own factor; the larger input factor counts.
pub proof fn law_nvfp4_projections_are_merged(
    gate: TensorParallelColumnLinear,
    up: TensorParallelColumnLinear,
    merged: bool,
    disabled: bool,
    a: Vec<usize>,
    b: Vec<usize>,
    up_larger: bool,
    r: Option<MergedGateUp>,
    row: usize,
    half: Half,
)
    requires
        call_ensures(MLP::merge_nvfp4_gate_up, (&gate, &up, merged, disabled, &a, &b, up_larger), r),
        r matches Some(m) ==> call_ensures(MergedGateUp::row_factor, (&m, row), half),
    ensures
        r is Some <==> !merged && !disabled && gate.linear is LnNvfp4 && up.linear is LnNvfp4 && a@.len() == 2 && b@.len() == 2 && a@[0]
            == b@[0] && a@[1] == b@[1] && a@[0] > 0,
        r matches Some(m) ==> {
            &&& m.rows == a@[0]
            &&& row < m.rows ==> half == Half::Gate
            &&& m.rows <= row < 2 * m.rows ==> half == Half::Up
            &&& m.joined.gate.start == 0 && m.joined.gate.len == m.rows && m.joined.up.start == m.rows && m.joined.up.len == m.rows
            &&& m.global_from == Half::Gate
            &&& m.input_from == Half::Up <==> up_larger
        },
{
    if a@.len() == 2 && b@.len() == 2 && a@[0] == b@[0] && a@[1] == b@[1] {
        assert(a@ =~= b@);
    }
}

/// A fused pass flattens inputs of more than two dimensions and gives the
/// columns of gate, then as many of up, each shaped like the input.
pub proof fn law_fused_passes_are_shaped_like_the_input(dims: Vec<usize>, n: usize, r: MergedPass, i: int, outputs: usize, ok: Result<(), GateUpOutputs>)
    requires
        dims@.len() >= 2,
        2 * n <= usize::MAX,
        forall|i: int| 0 <= i < dims@.len() ==> #[trigger] product(dims@.take(i)) <= usize::MAX,
        call_ensures(MLP::merged_pass, (&dims, n), r),
        call_ensures(MLP::forward, (outputs,), ok),
    ensures
        r.flat is Some <==> dims@.len() > 2,
        dims@.len() == 3 ==> (r.flat matches Some(f) && f.0 == dims@[0] * dims@[1] && f.1 == dims@[2]),
        r.gate.start == 0 && r.gate.len == n && r.up.start == n && r.up.len == n,
        r.shape@.len() == dims@.len() && r.shape@.last() == n,
        0 <= i < dims@.len() - 1 ==> r.shape@[i] == dims@[i],
        ok is Ok <==> outputs == 2,
{
    reveal_with_fuel(product, 4);
    if dims@.len() == 3 {
        let lead = dims@.drop_last();
        assert(dims@.take(2) =~= lead);
        assert(lead.drop_last().drop_last() =~= Seq::<usize>::empty());
        assert(lead.drop_last()[0] == dims@[0]);
        vstd::arithmetic::mul::lemma_mul_basics(dims@[0] as int);
    }
}

/// Without a gate: one layer to the intermediate size, one back.
pub proof fn law_plain_feed_forward(
    vb: VarBuilderX,
    hidden: usize,
    inner: usize,
    bias: bool,
    first: &str,
    second: &str,
    dtype: DType,
    r: NaiveMLP,
)
    requires
        !vb.checkpoint.gguf,
        call_ensures(NaiveMLP::new, (&vb, hidden, inner, bias, first, second, dtype), r),
    ensures
        r.fc1.linear matches LinearX::Linear(l) && l.weight.shape@ == seq![inner, hidden] && l.weight.path@ == vb.child(first@).spec_path(
            "weight"@,
        ) && (l.bias is Some <==> bias),
        r.fc2.linear matches LinearX::Linear(l) && l.weight.shape@ == seq![hidden, inner] && l.weight.path@ == vb.child(second@).spec_path(
            "weight"@,
        ) && (l.bias is Some <==> bias),
{
}

} // verus!
