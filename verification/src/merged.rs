//! Column-parallel layers that hold several projections in one weight.
//!
//! A merged weight is cut along its rows into chunks, one for each
//! projection, and each chunk is cut over the ranks on its own. The plan says
//! what is read and which rows a rank keeps.

use crate::checkpoint::{dims2, DType, Fetch, ScaleSource, TensorRead, VarBuilderX};
use crate::config::{method_is, mlx_layout, uses_method, uses_mlx_layout, QuantConfig};
use crate::distributed::{shard, Comm, Shard, Span};
use crate::linear::{
    cutlass_scale_layout, fp8_unplannable, linear_no_bias_x, plannable, scale_layout, LinearSize, LinearX, ScaleLayout,
};
use crate::math::{ceil_div, div_ceil, lemma_sum_prefix, lemma_sum_step, sum};
use vstd::arithmetic::div_mod::*;
use vstd::arithmetic::mul::*;
use vstd::prelude::*;

verus! {

/// Why a merged weight cannot be planned.
#[derive(Debug, Clone, Copy, PartialEq, Eq, Structural)]
pub enum MergeError {
    /// Block-quantized files hold no merged weights.
    Gguf,
    /// The quantization method has no merged form.
    UnsupportedMethod,
    /// Weights that are quantized at load time have no merged form.
    QuantizedAtLoad,
    /// The number of shards is not the number of chunks.
    ShardCount { expected: usize, got: usize },
    /// Chunks along this dimension are not supported.
    ChunkDim { dim: usize },
    /// The block size has not two elements.
    BlockSizeLen { len: usize },
    /// The block size has a zero.
    BlockSizeZero,
    /// A chunk reaches beyond the weight.
    ChunkOutOfRange { chunk: usize },
    /// A chunk is cut along a dimension that is not supported.
    ShardDim { chunk: usize, dim: usize },
    /// A chunk cannot be cut into equal parts.
    NotDivisible { chunk: usize, size: usize, world_size: usize },
    /// A chunk leaves nothing to the rank.
    EmptyShard { chunk: usize },
    /// The rows of the rank do not start at a scale block.
    Unaligned { chunk: usize, start: usize, block: usize },
    /// A quantized weight without chunks.
    NoChunks,
    /// The rows of the rank reach beyond the chunk or the weight.
    PartOutOfRange { chunk: usize },
}

/// Rows of one chunk that a rank keeps, and the rows of their scales.
#[derive(Debug, Clone, Copy, PartialEq, Eq, Structural)]
pub struct ScaledPart {
    pub rows: Span,
    pub scales: Span,
}

/// One chunk of an unquantized weight: the chunk, and the rows of it that a
/// rank keeps.
#[derive(Debug, Clone, Copy, PartialEq, Eq, Structural)]
pub struct PlainPart {
    pub chunk: Span,
    pub rows: Span,
}

/// The rows before chunk `i`.
pub open spec fn chunk_start(chunks: Seq<usize>, i: int) -> int {
    sum(chunks.map_values(|c: usize| c as nat).take(i)) as int
}

/// The shard of chunk `i`: given, or the place in the group.
pub open spec fn chunk_shard(shards: Option<Vec<Shard>>, comm: Comm, i: int) -> Shard {
    match shards {
        Some(s) => s@[i],
        None => Shard { dim: 0, rank: comm.rank, world_size: comm.world_size },
    }
}

/// The rows that a rank keeps of a chunk of `size` rows, counted from the
/// start of the chunk.
pub open spec fn kept_start(size: usize, s: Shard) -> int {
    s.rank * (size as int / s.world_size as int)
}

/// Part of an FP8 chunk. The rows must start at a scale block.
pub open spec fn fp8_part(i: int, start: int, size: usize, s: Shard, by: usize, out_dim: usize) -> Result<ScaledPart, MergeError> {
    let local = size as int / s.world_size as int;
    let first = start + kept_start(size, s);
    if start + size > out_dim {
        Err(MergeError::ChunkOutOfRange { chunk: i as usize })
    } else if s.dim != 0 {
        Err(MergeError::ShardDim { chunk: i as usize, dim: s.dim })
    } else if size % s.world_size != 0 {
        Err(MergeError::NotDivisible { chunk: i as usize, size, world_size: s.world_size })
    } else if local == 0 {
        Err(MergeError::EmptyShard { chunk: i as usize })
    } else if kept_start(size, s) + local > size {
        Err(MergeError::PartOutOfRange { chunk: i as usize })
    } else if first % (by as int) != 0 {
        Err(MergeError::Unaligned { chunk: i as usize, start: first as usize, block: by })
    } else {
        Ok(ScaledPart {
            rows: Span { start: first as usize, len: local as usize },
            scales: Span { start: (first / by as int) as usize, len: ceil_div(local, by as int) as usize },
        })
    }
}

/// Part of an FP4 chunk. Every row has its own scales.
pub open spec fn fp4_part(i: int, start: int, size: usize, s: Shard, out_dim: usize) -> Result<ScaledPart, MergeError> {
    let local = size as int / s.world_size as int;
    let first = start + kept_start(size, s);
    if size % s.world_size != 0 {
        Err(MergeError::NotDivisible { chunk: i as usize, size, world_size: s.world_size })
    } else if first + local > out_dim {
        Err(MergeError::PartOutOfRange { chunk: i as usize })
    } else {
        let rows = Span { start: first as usize, len: local as usize };
        Ok(ScaledPart { rows, scales: rows })
    }
}

/// Part of an unquantized chunk, which may also lie along the columns. The
/// rows of the rank are counted inside the chunk.
pub open spec fn plain_part(
    i: int,
    start: int,
    size: usize,
    s: Shard,
    chunk_dim: usize,
    out_dim: usize,
    in_dim: usize,
) -> Result<PlainPart, MergeError> {
    let extent = if chunk_dim == 0 { out_dim } else { in_dim };
    let rows = if chunk_dim == 0 { size } else { out_dim };
    let local = rows as int / s.world_size as int;
    if chunk_dim > 1 {
        Err(MergeError::ChunkDim { dim: chunk_dim })
    } else if start + size > extent {
        Err(MergeError::ChunkOutOfRange { chunk: i as usize })
    } else if rows % s.world_size != 0 {
        Err(MergeError::NotDivisible { chunk: i as usize, size: rows, world_size: s.world_size })
    } else if kept_start(rows, s) + local > rows {
        Err(MergeError::PartOutOfRange { chunk: i as usize })
    } else {
        Ok(PlainPart {
            chunk: Span { start: start as usize, len: size },
            rows: Span { start: kept_start(rows, s) as usize, len: local as usize },
        })
    }
}

/// Whether `r` collects the parts of all chunks, or is the error of the
/// first chunk that has none.
pub open spec fn collects<T>(r: Result<Vec<T>, MergeError>, n: nat, part: spec_fn(int) -> Result<T, MergeError>) -> bool {
    match r {
        Ok(v) => v@.len() == n && forall|i: int| 0 <= i < n ==> #[trigger] part(i) == Ok::<T, MergeError>(v@[i]),
        Err(e) => exists|i: int| 0 <= i < n && #[trigger] part(i) == Err::<T, MergeError>(e)
            && forall|j: int| 0 <= j < i ==> (#[trigger] part(j)) is Ok,
    }
}

proof fn lemma_chunk_start_step(chunks: Seq<usize>, i: int)
    requires
        0 <= i < chunks.len(),
    ensures
        chunk_start(chunks, i + 1) == chunk_start(chunks, i) + chunks[i],
        chunk_start(chunks, i + 1) <= sum(chunks.map_values(|c: usize| c as nat)),
{
    let s = chunks.map_values(|c: usize| c as nat);
    lemma_sum_step(s, i);
    lemma_sum_prefix(s, i + 1);
}

/// `a * b` in 128 bits.
fn wide_product(a: usize, b: usize) -> (r: u128)
    ensures
        r == a * b,
        r <= u64::MAX as int * u64::MAX as int,
{
    assert(a * b <= u64::MAX as int * u64::MAX as int) by (nonlinear_arith)
        requires
            0 <= a <= u64::MAX,
            0 <= b <= u64::MAX,
    ;
    a as u128 * b as u128
}

fn find_shard(shards: &Option<Vec<Shard>>, comm: &Comm, i: usize) -> (r: Shard)
    requires
        shards matches Some(s) ==> i < s@.len(),
    ensures
        r == chunk_shard(*shards, *comm, i as int),
{
    match shards {
        Some(s) => s[i],
        None => shard(0, comm.rank(), comm.world_size()),
    }
}

fn one_fp8_part(i: usize, start: usize, size: usize, s: Shard, by: usize, out_dim: usize) -> (r: Result<ScaledPart, MergeError>)
    requires
        s.world_size > 0,
        by > 0,
        start + size <= usize::MAX,
        out_dim + by <= usize::MAX,
    ensures
        r == fp8_part(i as int, start as int, size, s, by, out_dim),
{
    if start + size > out_dim {
        return Err(MergeError::ChunkOutOfRange { chunk: i });
    }
    if s.dim != 0 {
        return Err(MergeError::ShardDim { chunk: i, dim: s.dim });
    }
    if size % s.world_size != 0 {
        return Err(MergeError::NotDivisible { chunk: i, size, world_size: s.world_size });
    }
    let local: usize = size / s.world_size;
    if local == 0 {
        return Err(MergeError::EmptyShard { chunk: i });
    }
    let kept: u128 = wide_product(s.rank, local);
    proof {
        lemma_div_is_ordered_by_denominator(size as int, 1, s.world_size as int);
    }
    if kept + local as u128 > size as u128 {
        return Err(MergeError::PartOutOfRange { chunk: i });
    }
    let first: usize = start + kept as usize;
    if first % by != 0 {
        return Err(MergeError::Unaligned { chunk: i, start: first, block: by });
    }
    Ok(
        ScaledPart {
            rows: Span { start: first, len: local },
            scales: Span { start: first / by, len: div_ceil(local, by) },
        },
    )
}

fn one_fp4_part(i: usize, start: usize, size: usize, s: Shard, out_dim: usize) -> (r: Result<ScaledPart, MergeError>)
    requires
        s.world_size > 0,
    ensures
        r == fp4_part(i as int, start as int, size, s, out_dim),
{
    if size % s.world_size != 0 {
        return Err(MergeError::NotDivisible { chunk: i, size, world_size: s.world_size });
    }
    let local: usize = size / s.world_size;
    let first: u128 = start as u128 + wide_product(s.rank, local);
    if first + local as u128 > out_dim as u128 {
        return Err(MergeError::PartOutOfRange { chunk: i });
    }
    let rows = Span { start: first as usize, len: local };
    Ok(ScaledPart { rows, scales: rows })
}

fn one_plain_part(
    i: usize,
    start: usize,
    size: usize,
    s: Shard,
    chunk_dim: usize,
    out_dim: usize,
    in_dim: usize,
) -> (r: Result<PlainPart, MergeError>)
    requires
        s.world_size > 0,
        start + size <= usize::MAX,
    ensures
        r == plain_part(i as int, start as int, size, s, chunk_dim, out_dim, in_dim),
{
    if chunk_dim > 1 {
        return Err(MergeError::ChunkDim { dim: chunk_dim });
    }
    let extent: usize = if chunk_dim == 0 { out_dim } else { in_dim };
    let rows: usize = if chunk_dim == 0 { size } else { out_dim };
    if start + size > extent {
        return Err(MergeError::ChunkOutOfRange { chunk: i });
    }
    if rows % s.world_size != 0 {
        return Err(MergeError::NotDivisible { chunk: i, size: rows, world_size: s.world_size });
    }
    let local: usize = rows / s.world_size;
    let kept: u128 = wide_product(s.rank, local);
    if kept + local as u128 > rows as u128 {
        return Err(MergeError::PartOutOfRange { chunk: i });
    }
    Ok(
        PlainPart {
            chunk: Span { start, len: size },
            rows: Span { start: kept as usize, len: local },
        },
    )
}

/// What a merged layer reads, and what a rank keeps of it.
pub enum MergedSource {
    /// FP8 rows with a scale for each block of `by` rows and `bx` columns.
    Fp8 { weight: TensorRead, scale: Fetch, by: usize, bx: usize, parts: Vec<ScaledPart> },
    /// Packed FP4 rows with a scale for each group of columns.
    Fp4 {
        nvfp4: bool,
        /// Whether 32-bit words are repacked to bytes first.
        repack: bool,
        blocks: TensorRead,
        scales: TensorRead,
        global_scale: ScaleSource,
        input_scale: ScaleSource,
        parts: Vec<ScaledPart>,
    },
    /// Unquantized rows, brought to `dtype` before they are cut: one layer for
    /// each chunk, each requantized to the named type where there is one.
    Plain { weight: TensorRead, dtype: DType, chunk_dim: usize, chunks: Vec<PlainPart>, requant: Vec<Option<String>> },
    /// A layer for each chunk, which reads its own shard of the weight.
    Layers(Vec<LinearX>),
    /// Weights that are in memory already; FP8 ones with this second layout
    /// of their scales, dense ones requantized to the named type where there
    /// is one.
    Local { scales: Option<ScaleLayout>, requant: Option<String> },
}

/// A column-parallel layer with several outputs.
pub struct MergedParallelColumnLinear {
    /// Layers that are run.
    pub linears: usize,
    /// Widths into which the output of the only layer is cut.
    pub output_splits: Option<Vec<usize>>,
    /// Whether a bias is added to that output before it is cut.
    pub bias: bool,
    pub source: MergedSource,
}

/// Why the output of a merged layer cannot be cut.
#[derive(Debug, Clone, Copy, PartialEq, Eq, Structural)]
pub enum SplitError {
    /// Cutting needs exactly one layer.
    LinearCount { got: usize },
    /// The widths do not add up to the output.
    SplitMismatch { got: usize, expected: usize },
}

/// Consecutive spans of the given widths.
pub open spec fn consecutive(widths: Seq<usize>, i: int) -> Span {
    Span { start: chunk_start(widths, i) as usize, len: widths[i] }
}

impl MergedParallelColumnLinear {
    /// Layers that each give one output.
    pub fn new(linears: usize) -> (r: Self)
        ensures
            r == (MergedParallelColumnLinear {
                linears,
                output_splits: None,
                bias: false,
                source: MergedSource::Local { scales: None, requant: None },
            }),
    {
        MergedParallelColumnLinear {
            linears,
            output_splits: None,
            bias: false,
            source: MergedSource::Local { scales: None, requant: None },
        }
    }

    /// One layer, requantized to the named type where there is one, whose
    /// output is cut into these widths.
    pub fn from_packed_local(bias: bool, output_splits: Vec<usize>, quant: Option<String>) -> (r: Self)
        ensures
            r == (MergedParallelColumnLinear {
                linears: 1,
                output_splits: Some(output_splits),
                bias,
                source: MergedSource::Local { scales: None, requant: quant },
            }),
    {
        MergedParallelColumnLinear {
            linears: 1,
            output_splits: Some(output_splits),
            bias,
            source: MergedSource::Local { scales: None, requant: quant },
        }
    }

    /// One block-quantized layer whose output is cut into these widths.
    pub fn from_packed_local_qlinear(bias: bool, output_splits: Vec<usize>) -> (r: Self)
        ensures
            r == (MergedParallelColumnLinear {
                linears: 1,
                output_splits: Some(output_splits),
                bias,
                source: MergedSource::Local { scales: None, requant: None },
            }),
    {
        Self::from_packed_local(bias, output_splits, None)
    }

    /// One FP8 layer whose output is cut into these widths, on a device of
    /// that compute capability.
    pub fn from_packed_local_fp8(bias: bool, sm_version: usize, output_splits: Vec<usize>) -> (r: Self)
        ensures
            r == (MergedParallelColumnLinear {
                linears: 1,
                output_splits: Some(output_splits),
                bias,
                source: MergedSource::Local { scales: Some(scale_layout(sm_version)), requant: None },
            }),
    {
        MergedParallelColumnLinear {
            linears: 1,
            output_splits: Some(output_splits),
            bias,
            source: MergedSource::Local { scales: Some(cutlass_scale_layout(sm_version)), requant: None },
        }
    }

    /// Where the outputs of a forward pass of width `total_dim` lie. `None`
    /// where every layer gives one output.
    pub fn forward(&self, total_dim: usize) -> (r: Result<Option<Vec<Span>>, SplitError>)
        requires
            self.output_splits matches Some(w) ==> sum(w@.map_values(|c: usize| c as nat)) <= usize::MAX,
        ensures
            match self.output_splits {
                None => r == Ok::<Option<Vec<Span>>, SplitError>(None),
                Some(w) => {
                    let expected = sum(w@.map_values(|c: usize| c as nat));
                    if self.linears != 1 {
                        r == Err::<Option<Vec<Span>>, SplitError>(SplitError::LinearCount { got: self.linears })
                    } else if total_dim != expected {
                        r == Err::<Option<Vec<Span>>, SplitError>(
                            SplitError::SplitMismatch { got: total_dim, expected: expected as usize })
                    } else {
                        r matches Ok(Some(spans)) && spans@ == Seq::new(w@.len(), |i: int| consecutive(w@, i))
                    }
                },
            },
    {
        match &self.output_splits {
            None => Ok(None),
            Some(w) => {
                if self.linears != 1 {
                    return Err(SplitError::LinearCount { got: self.linears });
                }
                let mut spans: Vec<Span> = Vec::new();
                let mut start: usize = 0;
                let mut i: usize = 0;
                while i < w.len()
                    invariant
                        i <= w@.len(),
                        start == chunk_start(w@, i as int),
                        sum(w@.map_values(|c: usize| c as nat)) <= usize::MAX,
                        spans@.len() == i,
                        forall|j: int| 0 <= j < i ==> #[trigger] spans@[j] == consecutive(w@, j),
                    decreases w@.len() - i,
                {
                    proof {
                        lemma_chunk_start_step(w@, i as int);
                    }
                    spans.push(Span { start, len: w[i] });
                    start = start + w[i];
                    i = i + 1;
                }
                assert(w@.map_values(|c: usize| c as nat).take(i as int) =~= w@.map_values(|c: usize| c as nat));
                if total_dim != start {
                    return Err(SplitError::SplitMismatch { got: total_dim, expected: start });
                }
                assert(spans@ =~= Seq::new(w@.len(), |i: int| consecutive(w@, i)));
                Ok(Some(spans))
            },
        }
    }

    /// The part of chunk `i` of `chunks` equal parts of the weight that a rank
    /// holds.
    pub open spec fn chunk_shard(chunk_dim: usize, chunks: usize, comm: Comm, i: int) -> Shard {
        Shard {
            dim: chunk_dim,
            rank: (i * comm.world_size + comm.rank) as usize,
            world_size: (comm.world_size * chunks) as usize,
        }
    }

    /// The layer of chunk `i`.
    pub open spec fn chunk_size(in_dim: usize, out_dim: usize, chunk_dim: usize, chunks: usize, comm: Comm, dtype: DType, i: int) -> LinearSize {
        LinearSize { in_dim, out_dim, shard: Self::chunk_shard(chunk_dim, chunks, comm, i), bias: false, dtype }
    }

    /// One layer for each of `chunks` equal parts of the weight, which every
    /// rank cuts once more. Weights that are quantized at load time have no
    /// merged form.
    pub fn load_merged_with_hints(
        in_dim: usize,
        out_dim: usize,
        chunk_dim: usize,
        chunks: usize,
        vb: &VarBuilderX,
        comm: &Comm,
        quant_cfg: &Option<QuantConfig>,
        quant: &Option<String>,
        dtype: DType,
    ) -> (r: Result<Self, MergeError>)
        requires
            comm.wf(),
            chunks * comm.world_size <= usize::MAX,
            plannable((LinearSize { in_dim, out_dim, shard: Shard::whole(), bias: false, dtype }), vb.checkpoint.gguf, *quant_cfg),
        ensures
            if quant is Some {
                r == Err::<Self, MergeError>(MergeError::QuantizedAtLoad)
            } else if chunks > 0 && fp8_unplannable(vb, *quant_cfg) {
                r == Err::<Self, MergeError>(MergeError::BlockSizeLen { len: scale_block(*quant_cfg).len() as usize })
            } else {
                &&& r matches Ok(m)
                &&& m.linears == chunks
                &&& m.output_splits is None
                &&& !m.bias
                &&& m.source matches MergedSource::Layers(layers)
                &&& layers@.len() == chunks
                &&& forall|i: int| 0 <= i < chunks ==> (#[trigger] layers@[i]).is_layer(
                    vb, Self::chunk_size(in_dim, out_dim, chunk_dim, chunks, *comm, dtype, i), *quant_cfg, None)
            },
    {
        if quant.is_some() {
            return Err(MergeError::QuantizedAtLoad);
        }
        let ws: usize = comm.world_size();
        proof {
            lemma_mul_is_commutative(chunks as int, ws as int);
        }
        let total: usize = ws * chunks;
        let mut layers: Vec<LinearX> = Vec::new();
        let mut i: usize = 0;
        while i < chunks
            invariant
                i <= chunks,
                comm.wf(),
                ws == comm.world_size,
                total == ws * chunks,
                chunks * ws <= usize::MAX,
                plannable((LinearSize { in_dim, out_dim, shard: Shard::whole(), bias: false, dtype }), vb.checkpoint.gguf, *quant_cfg),
                quant is None,
                i > 0 ==> !fp8_unplannable(vb, *quant_cfg),
                layers@.len() == i,
                forall|j: int| 0 <= j < i ==> (#[trigger] layers@[j]).is_layer(
                    vb, Self::chunk_size(in_dim, out_dim, chunk_dim, chunks, *comm, dtype, j), *quant_cfg, None),
            decreases chunks - i,
        {
            proof {
                lemma_mul_inequality(i + 1, chunks as int, ws as int);
                lemma_mul_is_distributive_add_other_way(ws as int, i as int, 1);
            }
            let part = shard(chunk_dim, i * ws + comm.rank(), total);
            assert(part == Self::chunk_shard(chunk_dim, chunks, *comm, i as int));
            match linear_no_bias_x(in_dim, out_dim, vb, part, quant_cfg, &None, dtype) {
                Ok(l) => layers.push(l),
                Err(_) => return Err(MergeError::BlockSizeLen { len: find_scale_block(quant_cfg).len() }),
            }
            i = i + 1;
        }
        Ok(MergedParallelColumnLinear { linears: chunks, output_splits: None, bias: false, source: MergedSource::Layers(layers) })
    }
}

/// Row block of the FP8 scales.
pub open spec fn scale_block(cfg: Option<QuantConfig>) -> Seq<usize> {
    match cfg {
        Some(c) => match c.weight_block_size {
            Some(b) => b@,
            None => seq![128, 128],
        },
        None => seq![128, 128],
    }
}

pub fn find_scale_block(cfg: &Option<QuantConfig>) -> (r: Vec<usize>)
    ensures
        r@ == scale_block(*cfg),
{
    match cfg {
        Some(c) => match &c.weight_block_size {
            Some(b) => b.clone(),
            None => dims2(128, 128),
        },
        None => dims2(128, 128),
    }
}

/// What a merged layer is asked to be.
pub struct MergedRequest {
    pub in_dim: usize,
    pub out_dim: usize,
    pub chunk_dim: usize,
    pub chunks: Vec<usize>,
    pub chunk_shards: Option<Vec<Shard>>,
    pub quant: Option<String>,
    pub dtype: DType,
}

impl MergedRequest {
    /// Sizes can be counted in `usize`, and no shard belongs to an empty group.
    pub open spec fn wf(&self, comm: Comm, cfg: Option<QuantConfig>) -> bool {
        &&& sum(self.chunks@.map_values(|c: usize| c as nat)) <= usize::MAX
        &&& self.chunk_shards matches Some(s) ==> forall|i: int| 0 <= i < s@.len() ==> (#[trigger] s@[i]).world_size > 0
        &&& self.chunk_shards is None ==> comm.world_size > 0
        &&& method_is(cfg, "fp8"@) && scale_block(cfg).len() == 2
            ==> self.out_dim + scale_block(cfg)[0] <= usize::MAX && self.in_dim + scale_block(cfg)[1] <= usize::MAX
    }

    /// What is wrong with the request, before any chunk is looked at.
    pub open spec fn refused(&self, gguf: bool, cfg: Option<QuantConfig>) -> Option<MergeError> {
        let fp8 = method_is(cfg, "fp8"@);
        let fp4 = method_is(cfg, "nvfp4"@) || method_is(cfg, "mxfp4"@);
        if gguf {
            Some(MergeError::Gguf)
        } else if cfg is Some && !fp8 && !fp4 {
            Some(MergeError::UnsupportedMethod)
        } else if self.chunk_shards is Some && self.chunk_shards->0@.len() != self.chunks@.len() {
            Some(MergeError::ShardCount {
                expected: self.chunks@.len() as usize,
                got: self.chunk_shards->0@.len() as usize,
            })
        } else if (fp8 || fp4) && self.chunk_dim != 0 {
            Some(MergeError::ChunkDim { dim: self.chunk_dim })
        } else if fp8 && scale_block(cfg).len() != 2 {
            Some(MergeError::BlockSizeLen { len: scale_block(cfg).len() as usize })
        } else if fp8 && (scale_block(cfg)[0] == 0 || scale_block(cfg)[1] == 0) {
            Some(MergeError::BlockSizeZero)
        } else if (fp8 || fp4) && self.chunks@.len() == 0 {
            Some(MergeError::NoChunks)
        } else {
            None
        }
    }

    fn find_refusal(&self, gguf: bool, cfg: &Option<QuantConfig>) -> (r: Option<MergeError>)
        ensures
            r == self.refused(gguf, *cfg),
    {
        let fp8 = uses_method(cfg, "fp8");
        let fp4 = uses_method(cfg, "nvfp4") || uses_method(cfg, "mxfp4");
        if gguf {
            return Some(MergeError::Gguf);
        }
        if cfg.is_some() && !fp8 && !fp4 {
            return Some(MergeError::UnsupportedMethod);
        }
        if let Some(s) = &self.chunk_shards {
            if s.len() != self.chunks.len() {
                return Some(MergeError::ShardCount { expected: self.chunks.len(), got: s.len() });
            }
        }
        if (fp8 || fp4) && self.chunk_dim != 0 {
            return Some(MergeError::ChunkDim { dim: self.chunk_dim });
        }
        if fp8 {
            let block = find_scale_block(cfg);
            if block.len() != 2 {
                return Some(MergeError::BlockSizeLen { len: block.len() });
            }
            if block[0] == 0 || block[1] == 0 {
                return Some(MergeError::BlockSizeZero);
            }
        }
        if (fp8 || fp4) && self.chunks.len() == 0 {
            return Some(MergeError::NoChunks);
        }
        None
    }

    pub open spec fn fp8_chunk(&self, comm: Comm, by: usize) -> spec_fn(int) -> Result<ScaledPart, MergeError> {
        |i: int| fp8_part(
            i, chunk_start(self.chunks@, i), self.chunks@[i], chunk_shard(self.chunk_shards, comm, i), by, self.out_dim)
    }

    pub open spec fn fp4_chunk(&self, comm: Comm) -> spec_fn(int) -> Result<ScaledPart, MergeError> {
        |i: int| fp4_part(i, chunk_start(self.chunks@, i), self.chunks@[i], chunk_shard(self.chunk_shards, comm, i), self.out_dim)
    }

    pub open spec fn plain_chunk(&self, comm: Comm) -> spec_fn(int) -> Result<PlainPart, MergeError> {
        |i: int| plain_part(
            i, chunk_start(self.chunks@, i), self.chunks@[i], chunk_shard(self.chunk_shards, comm, i),
            self.chunk_dim, self.out_dim, self.in_dim)
    }

    fn fp8_parts(&self, comm: &Comm, by: usize) -> (r: Result<Vec<ScaledPart>, MergeError>)
        requires
            sum(self.chunks@.map_values(|c: usize| c as nat)) <= usize::MAX,
            self.chunk_shards matches Some(s) ==> s@.len() == self.chunks@.len()
                && forall|i: int| 0 <= i < s@.len() ==> (#[trigger] s@[i]).world_size > 0,
            self.chunk_shards is None ==> comm.world_size > 0,
            by > 0,
            self.out_dim + by <= usize::MAX,
        ensures
            collects(r, self.chunks@.len(), self.fp8_chunk(*comm, by)),
    {
        let mut parts: Vec<ScaledPart> = Vec::new();
        let mut start: usize = 0;
        let mut i: usize = 0;
        let ghost part = self.fp8_chunk(*comm, by);
        while i < self.chunks.len()
            invariant
                i <= self.chunks@.len(),
                start == chunk_start(self.chunks@, i as int),
                sum(self.chunks@.map_values(|c: usize| c as nat)) <= usize::MAX,
                self.chunk_shards matches Some(s) ==> s@.len() == self.chunks@.len()
                    && forall|i: int| 0 <= i < s@.len() ==> (#[trigger] s@[i]).world_size > 0,
                self.chunk_shards is None ==> comm.world_size > 0,
                by > 0,
                self.out_dim + by <= usize::MAX,
                part == self.fp8_chunk(*comm, by),
                parts@.len() == i,
                forall|j: int| 0 <= j < i ==> #[trigger] part(j) == Ok::<ScaledPart, MergeError>(parts@[j]),
            decreases self.chunks@.len() - i,
        {
            proof {
                lemma_chunk_start_step(self.chunks@, i as int);
            }
            let s = find_shard(&self.chunk_shards, comm, i);
            match one_fp8_part(i, start, self.chunks[i], s, by, self.out_dim) {
                Ok(p) => {
                    assert(part(i as int) == Ok::<ScaledPart, MergeError>(p));
                    parts.push(p);
                },
                Err(e) => {
                    assert(part(i as int) == Err::<ScaledPart, MergeError>(e));
                    return Err(e);
                },
            }
            start = start + self.chunks[i];
            i = i + 1;
        }
        Ok(parts)
    }

    fn fp4_parts(&self, comm: &Comm) -> (r: Result<Vec<ScaledPart>, MergeError>)
        requires
            sum(self.chunks@.map_values(|c: usize| c as nat)) <= usize::MAX,
            self.chunk_shards matches Some(s) ==> s@.len() == self.chunks@.len()
                && forall|i: int| 0 <= i < s@.len() ==> (#[trigger] s@[i]).world_size > 0,
            self.chunk_shards is None ==> comm.world_size > 0,
        ensures
            collects(r, self.chunks@.len(), self.fp4_chunk(*comm)),
    {
        let mut parts: Vec<ScaledPart> = Vec::new();
        let mut start: usize = 0;
        let mut i: usize = 0;
        let ghost part = self.fp4_chunk(*comm);
        while i < self.chunks.len()
            invariant
                i <= self.chunks@.len(),
                start == chunk_start(self.chunks@, i as int),
                sum(self.chunks@.map_values(|c: usize| c as nat)) <= usize::MAX,
                self.chunk_shards matches Some(s) ==> s@.len() == self.chunks@.len()
                    && forall|i: int| 0 <= i < s@.len() ==> (#[trigger] s@[i]).world_size > 0,
                self.chunk_shards is None ==> comm.world_size > 0,
                part == self.fp4_chunk(*comm),
                parts@.len() == i,
                forall|j: int| 0 <= j < i ==> #[trigger] part(j) == Ok::<ScaledPart, MergeError>(parts@[j]),
            decreases self.chunks@.len() - i,
        {
            proof {
                lemma_chunk_start_step(self.chunks@, i as int);
            }
            let s = find_shard(&self.chunk_shards, comm, i);
            match one_fp4_part(i, start, self.chunks[i], s, self.out_dim) {
                Ok(p) => {
                    assert(part(i as int) == Ok::<ScaledPart, MergeError>(p));
                    parts.push(p);
                },
                Err(e) => {
                    assert(part(i as int) == Err::<ScaledPart, MergeError>(e));
                    return Err(e);
                },
            }
            start = start + self.chunks[i];
            i = i + 1;
        }
        Ok(parts)
    }

    fn plain_parts(&self, comm: &Comm) -> (r: Result<Vec<PlainPart>, MergeError>)
        requires
            sum(self.chunks@.map_values(|c: usize| c as nat)) <= usize::MAX,
            self.chunk_shards matches Some(s) ==> s@.len() == self.chunks@.len()
                && forall|i: int| 0 <= i < s@.len() ==> (#[trigger] s@[i]).world_size > 0,
            self.chunk_shards is None ==> comm.world_size > 0,
        ensures
            collects(r, self.chunks@.len(), self.plain_chunk(*comm)),
    {
        let mut parts: Vec<PlainPart> = Vec::new();
        let mut start: usize = 0;
        let mut i: usize = 0;
        let ghost part = self.plain_chunk(*comm);
        while i < self.chunks.len()
            invariant
                i <= self.chunks@.len(),
                start == chunk_start(self.chunks@, i as int),
                sum(self.chunks@.map_values(|c: usize| c as nat)) <= usize::MAX,
                self.chunk_shards matches Some(s) ==> s@.len() == self.chunks@.len()
                    && forall|i: int| 0 <= i < s@.len() ==> (#[trigger] s@[i]).world_size > 0,
                self.chunk_shards is None ==> comm.world_size > 0,
                part == self.plain_chunk(*comm),
                parts@.len() == i,
                forall|j: int| 0 <= j < i ==> #[trigger] part(j) == Ok::<PlainPart, MergeError>(parts@[j]),
            decreases self.chunks@.len() - i,
        {
            proof {
                lemma_chunk_start_step(self.chunks@, i as int);
            }
            let s = find_shard(&self.chunk_shards, comm, i);
            match one_plain_part(i, start, self.chunks[i], s, self.chunk_dim, self.out_dim, self.in_dim) {
                Ok(p) => {
                    assert(part(i as int) == Ok::<PlainPart, MergeError>(p));
                    parts.push(p);
                },
                Err(e) => {
                    assert(part(i as int) == Err::<PlainPart, MergeError>(e));
                    return Err(e);
                },
            }
            start = start + self.chunks[i];
            i = i + 1;
        }
        Ok(parts)
    }
}

/// Widths of the parts.
pub open spec fn part_widths(parts: Seq<ScaledPart>) -> Seq<usize> {
    parts.map_values(|p: ScaledPart| p.rows.len)
}

fn widths_of(parts: &Vec<ScaledPart>) -> (r: Vec<usize>)
    ensures
        r@ == part_widths(parts@),
{
    let mut widths: Vec<usize> = Vec::new();
    let mut i: usize = 0;
    while i < parts.len()
        invariant
            i <= parts@.len(),
            widths@.len() == i,
            forall|j: int| 0 <= j < i ==> #[trigger] widths@[j] == parts@[j].rows.len,
        decreases parts@.len() - i,
    {
        widths.push(parts[i].rows.len);
        i = i + 1;
    }
    assert(widths@ =~= part_widths(parts@));
    widths
}

/// Whether chunk `i` of `n` is requantized as `requant` says: to the
/// requested type, the last chunk always to `q8_0`.
pub open spec fn requant_is(requant: Option<String>, quant: Option<String>, i: int, n: int) -> bool {
    match quant {
        None => requant is None,
        Some(q) => requant matches Some(t) && t@ == (if i == n - 1 { "q8_0"@ } else { q@ }),
    }
}

fn requants(quant: &Option<String>, n: usize) -> (r: Vec<Option<String>>)
    ensures
        r@.len() == n,
        forall|i: int| 0 <= i < n ==> requant_is(#[trigger] r@[i], *quant, i, n as int),
{
    let mut out: Vec<Option<String>> = Vec::new();
    let mut i: usize = 0;
    while i < n
        invariant
            i <= n,
            out@.len() == i,
            forall|j: int| 0 <= j < i ==> requant_is(#[trigger] out@[j], *quant, j, n as int),
        decreases n - i,
    {
        let t = match quant {
            None => None,
            Some(q) => if i == n - 1 { Some("q8_0".to_owned()) } else { Some(q.clone()) },
        };
        out.push(t);
        i = i + 1;
    }
    out
}

/// Whether `t` reads packed FP4 rows: words in the MLX layout, else bytes
/// under the first name that exists.
pub open spec fn fp4_blocks(vb: &VarBuilderX, t: TensorRead, mlx: bool, out_dim: usize, in_dim: usize) -> bool {
    if mlx {
        t.reads(vb.spec_path("weight"@), seq![out_dim, in_dim / 8], Shard::whole(), DType::U32)
    } else {
        let name = if vb.has("weight_packed"@) { "weight_packed"@ } else if vb.has("weight"@) { "weight"@ } else { "blocks"@ };
        t.reads(vb.spec_path(name), seq![out_dim, in_dim / 2], Shard::whole(), DType::U8)
    }
}

/// Whether `t` reads FP4 scales, one for each group of 16 (NVFP4) or 32
/// columns.
pub open spec fn fp4_scales(vb: &VarBuilderX, t: TensorRead, nvfp4: bool, out_dim: usize, in_dim: usize) -> bool {
    let name = if vb.has("weight_scale"@) { "weight_scale"@ } else { "scales"@ };
    t.reads(
        vb.spec_path(name),
        seq![out_dim, if nvfp4 { in_dim / 16 } else { in_dim / 32 }],
        Shard::whole(),
        DType::U8,
    )
}

impl MergedParallelColumnLinear {
    /// Whether this is the plan of `req` for FP8 weights.
    pub open spec fn is_fp8_plan(&self, req: MergedRequest, vb: &VarBuilderX, comm: Comm, cfg: Option<QuantConfig>) -> bool {
        let by = scale_block(cfg)[0];
        let bx = scale_block(cfg)[1];
        let scale_shape = seq![ceil_div(req.out_dim as int, by as int) as usize, ceil_div(req.in_dim as int, bx as int) as usize];
        &&& self.linears == 1 && !self.bias
        &&& self.source matches MergedSource::Fp8 { weight, scale, by: y, bx: x, parts }
        &&& y == by && x == bx
        &&& weight.reads(vb.spec_path("weight"@), seq![req.out_dim, req.in_dim], Shard::whole(), DType::U8)
        &&& scale.tries@.len() == 2
        &&& scale.tries@[0].reads(vb.spec_path("weight_scale"@), scale_shape, Shard::whole(), DType::F32)
        &&& scale.tries@[1].reads(vb.spec_path("weight_scale_inv"@), scale_shape, Shard::whole(), DType::F32)
        &&& collects(Ok(parts), req.chunks@.len(), req.fp8_chunk(comm, by))
        &&& self.output_splits matches Some(w) && w@ == part_widths(parts@)
    }

    /// Whether this is the plan of `req` for FP4 weights.
    pub open spec fn is_fp4_plan(&self, req: MergedRequest, vb: &VarBuilderX, comm: Comm, cfg: Option<QuantConfig>) -> bool {
        let is_nv = method_is(cfg, "nvfp4"@);
        let mlx = mlx_layout(cfg);
        &&& self.linears == 1 && !self.bias
        &&& self.source matches MergedSource::Fp4 { nvfp4, repack, blocks, scales, global_scale, input_scale, parts }
        &&& nvfp4 == is_nv && repack == mlx
        &&& fp4_blocks(vb, blocks, mlx, req.out_dim, req.in_dim)
        &&& fp4_scales(vb, scales, is_nv, req.out_dim, req.in_dim)
        &&& if is_nv && !mlx {
            vb.is_global_scale(global_scale) && vb.is_input_scale(input_scale)
        } else {
            global_scale is One && input_scale is One
        }
        &&& collects(Ok(parts), req.chunks@.len(), req.fp4_chunk(comm))
        &&& self.output_splits matches Some(w) && w@ == part_widths(parts@)
    }

    /// Whether this is the plan of `req` for unquantized weights.
    pub open spec fn is_plain_plan(&self, req: MergedRequest, vb: &VarBuilderX, comm: Comm) -> bool {
        &&& self.linears == req.chunks@.len() && !self.bias
        &&& self.output_splits is None
        &&& self.source matches MergedSource::Plain { weight, dtype, chunk_dim, chunks, requant }
        &&& weight.reads(vb.spec_path("weight"@), seq![req.out_dim, req.in_dim], Shard::whole(), vb.checkpoint.dtype)
        &&& dtype == req.dtype
        &&& chunk_dim == req.chunk_dim
        &&& collects(Ok(chunks), req.chunks@.len(), req.plain_chunk(comm))
        &&& requant@.len() == req.chunks@.len()
        &&& forall|i: int| 0 <= i < requant@.len() ==> requant_is(#[trigger] requant@[i], req.quant, i, requant@.len() as int)
    }

    /// Plans a merged weight whose projections have `req.chunks` rows each.
    pub fn load_merged_chunks(req: &MergedRequest, vb: &VarBuilderX, comm: &Comm, cfg: &Option<QuantConfig>) -> (r: Result<Self, MergeError>)
        requires
            req.wf(*comm, *cfg),
        ensures
            match (req.refused(vb.checkpoint.gguf, *cfg), r) {
                (Some(e), _) => r == Err::<Self, MergeError>(e),
                (None, Ok(plan)) => if method_is(*cfg, "fp8"@) {
                    plan.is_fp8_plan(*req, vb, *comm, *cfg)
                } else if cfg is Some {
                    plan.is_fp4_plan(*req, vb, *comm, *cfg)
                } else {
                    plan.is_plain_plan(*req, vb, *comm)
                },
                (None, Err(e)) => if method_is(*cfg, "fp8"@) {
                    collects(Err::<Vec<ScaledPart>, MergeError>(e), req.chunks@.len(), req.fp8_chunk(*comm, scale_block(*cfg)[0]))
                } else if cfg is Some {
                    collects(Err::<Vec<ScaledPart>, MergeError>(e), req.chunks@.len(), req.fp4_chunk(*comm))
                } else {
                    collects(Err::<Vec<PlainPart>, MergeError>(e), req.chunks@.len(), req.plain_chunk(*comm))
                },
            },
    {
        if let Some(e) = req.find_refusal(vb.is_qvar_builder(), cfg) {
            return Err(e);
        }
        if uses_method(cfg, "fp8") {
            let block = find_scale_block(cfg);
            let by: usize = block[0];
            let bx: usize = block[1];
            let parts = match req.fp8_parts(comm, by) {
                Ok(p) => p,
                Err(e) => return Err(e),
            };
            let rows: usize = div_ceil(req.out_dim, by);
            let cols: usize = div_ceil(req.in_dim, bx);
            let weight = vb.read("weight", dims2(req.out_dim, req.in_dim), Shard::default(), DType::U8);
            let scale = Fetch::two(
                vb.read("weight_scale", dims2(rows, cols), Shard::default(), DType::F32),
                vb.read("weight_scale_inv", dims2(rows, cols), Shard::default(), DType::F32),
            );
            let widths = widths_of(&parts);
            Ok(
                MergedParallelColumnLinear {
                    linears: 1,
                    output_splits: Some(widths),
                    bias: false,
                    source: MergedSource::Fp8 { weight, scale, by, bx, parts },
                },
            )
        } else if cfg.is_some() {
            let nvfp4 = uses_method(cfg, "nvfp4");
            let repack = uses_mlx_layout(cfg);
            let parts = match req.fp4_parts(comm) {
                Ok(p) => p,
                Err(e) => return Err(e),
            };
            let blocks = if repack {
                vb.read("weight", dims2(req.out_dim, req.in_dim / 8), Shard::default(), DType::U32)
            } else {
                let name = if vb.has_key("weight_packed") { "weight_packed" } else if vb.has_key("weight") { "weight" } else { "blocks" };
                vb.read(name, dims2(req.out_dim, req.in_dim / 2), Shard::default(), DType::U8)
            };
            let group: usize = if nvfp4 { 16 } else { 32 };
            let scale_name = if vb.has_key("weight_scale") { "weight_scale" } else { "scales" };
            let scales = vb.read(scale_name, dims2(req.out_dim, req.in_dim / group), Shard::default(), DType::U8);
            let (global_scale, input_scale) = if nvfp4 && !repack {
                (vb.global_scale(), vb.input_scale())
            } else {
                (ScaleSource::One, ScaleSource::One)
            };
            let widths = widths_of(&parts);
            Ok(
                MergedParallelColumnLinear {
                    linears: 1,
                    output_splits: Some(widths),
                    bias: false,
                    source: MergedSource::Fp4 { nvfp4, repack, blocks, scales, global_scale, input_scale, parts },
                },
            )
        } else {
            let parts = match req.plain_parts(comm) {
                Ok(p) => p,
                Err(e) => return Err(e),
            };
            let weight = vb.get("weight", dims2(req.out_dim, req.in_dim));
            let requant = requants(&req.quant, req.chunks.len());
            Ok(
                MergedParallelColumnLinear {
                    linears: req.chunks.len(),
                    output_splits: None,
                    bias: false,
                    source: MergedSource::Plain { weight, dtype: req.dtype, chunk_dim: req.chunk_dim, chunks: parts, requant },
                },
            )
        }
    }
}

/// The rows of a part of an FP8 chunk lie in the weight, and their scales in
/// the scale tensor: each row finds the scale of its own block.
pub proof fn law_fp8_scales_follow_rows(i: int, start: int, size: usize, s: Shard, by: usize, out_dim: usize, row: int)
    requires
        s.world_size > 0,
        by > 0,
        0 <= start,
        out_dim + by <= usize::MAX,
        fp8_part(i, start, size, s, by, out_dim) is Ok,
        ({
            let p = fp8_part(i, start, size, s, by, out_dim)->Ok_0;
            0 <= row < p.rows.len
        }),
    ensures
        ({
            let p = fp8_part(i, start, size, s, by, out_dim)->Ok_0;
            &&& p.rows.start + p.rows.len <= out_dim
            &&& p.scales.start + p.scales.len <= ceil_div(out_dim as int, by as int)
            &&& (p.rows.start + row) / (by as int) == p.scales.start + row / (by as int)
            &&& row / (by as int) < p.scales.len
        }),
{
    let b = by as int;
    let local = size as int / s.world_size as int;
    let first = start + kept_start(size, s);
    lemma_div_is_ordered_by_denominator(size as int, 1, s.world_size as int);
    assert(kept_start(size, s) >= 0) by {
        lemma_mul_nonnegative(s.rank as int, local);
    }
    let q = first / b;
    lemma_fundamental_div_mod(first, b);
    assert(first == b * q);
    lemma_mul_is_commutative(b, q);
    // The quotient splits off the aligned start.
    lemma_div_shift(row, q, b);
    lemma_div_shift(local + b - 1, q, b);
    lemma_div_is_ordered(first + local + b - 1, out_dim + b - 1, b);
    lemma_div_is_ordered(row + b, local + b - 1, b);
    lemma_add_one_div(row, b);
    lemma_div_pos_is_pos(row, b);
    lemma_div_pos_is_pos(local + b - 1, b);
    lemma_div_nonincreasing(local + b - 1, b);
    assert(ceil_div(local, b) <= usize::MAX);
    assert(q <= usize::MAX) by {
        lemma_div_nonincreasing(first, b);
    }
}

/// `(q * b + x) / b == q + x / b`.
proof fn lemma_div_shift(x: int, q: int, b: int)
    requires
        b > 0,
    ensures
        (q * b + x) / b == q + x / b,
        (b * q + x) / b == q + x / b,
{
    lemma_hoist_over_denominator(x, q, b as nat);
    lemma_mul_is_commutative(q, b);
}

proof fn lemma_add_one_div(x: int, b: int)
    requires
        b > 0,
    ensures
        (x + b) / b == x / b + 1,
{
    lemma_div_shift(x, 1, b);
}

/// Cut by the ranks of a group, every row of a chunk is kept by exactly one
/// of them.
pub proof fn law_every_row_kept_once(size: usize, world_size: usize, row: nat)
    requires
        world_size > 0,
        size % world_size == 0,
        row < size,
    ensures
        exists|rank: usize| rank < world_size && keeps(size, rank, world_size, row as int),
        forall|a: usize, b: usize| keeps(size, a, world_size, row as int) && keeps(size, b, world_size, row as int) ==> a == b,
{
    crate::distributed::law_chunks_partition(size as nat, world_size as nat, row);
    let local = size as nat / world_size as nat;
    let owner = (row / local) as usize;
    assert(keeps(size, owner, world_size, row as int));
    assert forall|a: usize, b: usize| keeps(size, a, world_size, row as int) && keeps(size, b, world_size, row as int) implies a == b by {
        assert(a as nat * local <= row < a as nat * local + local);
        assert(b as nat * local <= row < b as nat * local + local);
    }
}

/// Whether `rank` keeps row `row` of a chunk of `size` rows.
pub open spec fn keeps(size: usize, rank: usize, world_size: usize, row: int) -> bool {
    let s = Shard { dim: 0, rank, world_size };
    kept_start(size, s) <= row < kept_start(size, s) + size as int / world_size as int
}

/// The outputs of a merged layer lie one after the other, as wide as asked for,
/// and together make up what comes out. A layer that gives one output each is
/// not cut.
pub proof fn law_outputs_follow_each_other(m: MergedParallelColumnLinear, total: usize, r: Result<Option<Vec<Span>>, SplitError>, i: int)
    requires
        m.output_splits matches Some(w) ==> sum(w@.map_values(|c: usize| c as nat)) <= usize::MAX,
        call_ensures(MergedParallelColumnLinear::forward, (&m, total), r),
    ensures
        m.output_splits is None ==> r == Ok::<Option<Vec<Span>>, SplitError>(None),
        m.output_splits is Some && m.linears != 1 ==> r == Err::<Option<Vec<Span>>, SplitError>(
            SplitError::LinearCount { got: m.linears },
        ),
        r matches Ok(Some(s)) ==> {
            let w = m.output_splits->0@;
            &&& s@.len() == w.len()
            &&& 0 <= i < w.len() ==> s@[i].len == w[i]
            &&& w.len() > 0 ==> s@[0].start == 0
            &&& 0 <= i && i + 1 < w.len() ==> s@[i + 1].start == s@[i].start + s@[i].len
            &&& w.len() > 0 ==> s@[w.len() - 1].start + s@[w.len() - 1].len == total
        },
        m.output_splits matches Some(w) ==> (m.linears == 1 && w@.len() == 1 ==> (r is Ok <==> total == w@[0])),
        m.output_splits matches Some(w) ==> (m.linears == 1 && w@.len() == 2 ==> (r is Ok <==> total == w@[0] + w@[1])),
        m.output_splits matches Some(w) ==> (m.linears == 1 && w@.len() == 3 ==> (r is Ok <==> total == w@[0] + w@[1] + w@[2])),
{
    if let Some(v) = m.output_splits {
        let w = v@;
        let s = w.map_values(|c: usize| c as nat);
        assert(s.take(0) =~= Seq::<nat>::empty());
        assert(s.take(w.len() as int) =~= s);
        if 0 <= i && i + 1 < w.len() {
            lemma_chunk_start_step(w, i);
        }
        if w.len() > 0 {
            lemma_chunk_start_step(w, w.len() - 1);
        }
        reveal_with_fuel(sum, 4);
        if w.len() == 1 {
            assert(sum(s) == s[0]);
        } else if w.len() == 2 {
            assert(sum(s) == s[0] + s[1]);
        } else if w.len() == 3 {
            assert(sum(s) == s[0] + s[1] + s[2]);
        }
        assert forall|k: int| 0 <= k < w.len() implies 0 <= #[trigger] chunk_start(w, k) <= usize::MAX by {
            lemma_chunk_start_step(w, k);
        }
    }
}

/// Of a weight of equal chunks, each rank reads its part of every chunk: the
/// place of chunk and rank, chunks first, among all parts.
pub proof fn law_equal_chunks_are_cut_once_more(
    in_dim: usize,
    out_dim: usize,
    chunk_dim: usize,
    chunks: usize,
    vb: VarBuilderX,
    comm: Comm,
    cfg: Option<QuantConfig>,
    quant: Option<String>,
    dtype: DType,
    r: Result<MergedParallelColumnLinear, MergeError>,
    i: int,
)
    requires
        comm.wf(),
        chunks * comm.world_size <= usize::MAX,
        call_ensures(
            MergedParallelColumnLinear::load_merged_with_hints,
            (in_dim, out_dim, chunk_dim, chunks, &vb, &comm, &cfg, &quant, dtype),
            r,
        ),
        0 <= i < chunks,
    ensures
        quant is Some ==> r == Err::<MergedParallelColumnLinear, MergeError>(MergeError::QuantizedAtLoad),
        r matches Ok(m) ==> {
            &&& m.linears == chunks && m.output_splits is None && !m.bias
            &&& m.source matches MergedSource::Layers(l) && l@.len() == chunks && (crate::parallel::cut_of(l@[i]) matches Some(s) ==> s.dim
                == chunk_dim && s.rank == i * comm.world_size + comm.rank && s.world_size == chunks * comm.world_size)
        },
{
    if r is Ok {
        lemma_mul_is_commutative(chunks as int, comm.world_size as int);
        let m = r->Ok_0;
        let l = m.source->Layers_0;
        assert(l@[i].is_layer(
            &vb, MergedParallelColumnLinear::chunk_size(in_dim, out_dim, chunk_dim, chunks, comm, dtype, i), cfg, None));
        assert(0 <= i * comm.world_size + comm.rank < chunks * comm.world_size) by (nonlinear_arith)
            requires
                0 <= i,
                i + 1 <= chunks,
                comm.rank < comm.world_size,
        ;
    }
}

/// What is refused before any chunk is looked at.
pub proof fn law_requests_are_refused_for_a_reason(
    req: MergedRequest,
    vb: VarBuilderX,
    comm: Comm,
    cfg: Option<QuantConfig>,
    r: Result<MergedParallelColumnLinear, MergeError>,
)
    requires
        req.wf(comm, cfg),
        call_ensures(MergedParallelColumnLinear::load_merged_chunks, (&req, &vb, &comm, &cfg), r),
    ensures
        vb.checkpoint.gguf ==> r == Err::<MergedParallelColumnLinear, MergeError>(MergeError::Gguf),
        !vb.checkpoint.gguf && (cfg matches Some(c) && c.quant_method@ != "fp8"@ && c.quant_method@ != "nvfp4"@ && c.quant_method@ != "mxfp4"@)
            ==> r == Err::<MergedParallelColumnLinear, MergeError>(MergeError::UnsupportedMethod),
        r matches Ok(_) ==> !vb.checkpoint.gguf && (req.chunk_shards matches Some(s) ==> s@.len() == req.chunks@.len()),
        r is Ok && cfg is Some ==> req.chunk_dim == 0 && req.chunks@.len() > 0,
        r matches Ok(m) ==> {
            &&& m.source is Fp8 <==> (cfg matches Some(c) && c.quant_method@ == "fp8"@)
            &&& m.source is Fp4 <==> (cfg matches Some(c) && (c.quant_method@ == "nvfp4"@ || c.quant_method@ == "mxfp4"@))
            &&& m.source is Plain <==> cfg is None
            &&& cfg is None ==> m.linears == req.chunks@.len() && m.output_splits is None
            &&& cfg is Some ==> m.linears == 1 && m.output_splits is Some
            &&& !m.bias
        },
{
    reveal_strlit("fp8");
    reveal_strlit("nvfp4");
    reveal_strlit("mxfp4");
    assert("fp8"@.len() == 3 && "nvfp4"@.len() == 5 && "mxfp4"@.len() == 5);
}

/// Rows that a rank keeps of quantized chunks: an equal share of each, behind
/// all chunks before it and the shares of lower ranks; FP8 rows start at a
/// block whose scales they take, as many as they need; FP4 rows have scales of
/// their own. Outputs are as wide as these shares.
pub proof fn law_ranks_keep_shares_of_quantized_chunks(
    req: MergedRequest,
    vb: VarBuilderX,
    comm: Comm,
    cfg: Option<QuantConfig>,
    r: Result<MergedParallelColumnLinear, MergeError>,
    i: int,
)
    requires
        req.wf(comm, cfg),
        req.chunk_shards is None,
        comm.wf(),
        call_ensures(MergedParallelColumnLinear::load_merged_chunks, (&req, &vb, &comm, &cfg), r),
        r is Ok,
        cfg is Some,
        0 <= i < req.chunks@.len(),
    ensures
        ({
            let m = r->Ok_0;
            let parts = match m.source {
                MergedSource::Fp8 { parts, .. } => parts@,
                MergedSource::Fp4 { parts, .. } => parts@,
                _ => Seq::empty(),
            };
            let (p, w) = (parts[i], comm.world_size as int);
            &&& parts.len() == req.chunks@.len() && m.output_splits->0@.len() == parts.len()
            &&& m.output_splits->0@[i] == p.rows.len
            &&& p.rows.len * w == req.chunks@[i]
            &&& p.rows.start + p.rows.len <= req.out_dim
            &&& i == 0 ==> p.rows.start == comm.rank * p.rows.len
            &&& i + 1 < parts.len() ==> parts[i + 1].rows.start - comm.rank * parts[i + 1].rows.len == p.rows.start - comm.rank * p.rows.len
                + req.chunks@[i]
            &&& m.source is Fp4 ==> p.scales == p.rows
            &&& m.source matches MergedSource::Fp8 { by, .. } ==> p.scales.start * by == p.rows.start && p.scales.len * by >= p.rows.len
                && (p.scales.len - 1) * by < p.rows.len
        }),
{
    let m = r->Ok_0;
    let chunks = req.chunks@;
    let w = comm.world_size as int;
    let s = chunks.map_values(|c: usize| c as nat);
    assert(s.take(0) =~= Seq::<nat>::empty());
    lemma_chunk_start_step(chunks, i);
    let by = scale_block(cfg)[0];
    lemma_share(chunks[i], comm);
    if i + 1 < chunks.len() {
        lemma_chunk_start_step(chunks, i + 1);
        lemma_share(chunks[i + 1], comm);
    }
    if m.source is Fp8 {
        let parts = m.source->Fp8_parts@;
        assert(req.fp8_chunk(comm, by)(i) == Ok::<ScaledPart, MergeError>(parts[i]));
        if i + 1 < chunks.len() {
            assert(req.fp8_chunk(comm, by)(i + 1) == Ok::<ScaledPart, MergeError>(parts[i + 1]));
        }
        let first = chunk_start(chunks, i) + kept_start(chunks[i], chunk_shard(req.chunk_shards, comm, i));
        let local = chunks[i] as int / w;
        let b = by as int;
        lemma_fundamental_div_mod(first, b);
        lemma_mul_is_commutative(b, first / b);
        lemma_div_pos_is_pos(first, b);
        lemma_div_nonincreasing(first, b);
        lemma_fundamental_div_mod(local + b - 1, b);
        let n = ceil_div(local, b);
        assert(n * b >= local && (n - 1) * b < local && 0 <= n <= local) by (nonlinear_arith)
            requires
                local + b - 1 == b * n + (local + b - 1) % b,
                0 <= (local + b - 1) % b < b,
                b > 0,
                local > 0,
        ;
    } else {
        let parts = m.source->Fp4_parts@;
        assert(req.fp4_chunk(comm)(i) == Ok::<ScaledPart, MergeError>(parts[i]));
        if i + 1 < chunks.len() {
            assert(req.fp4_chunk(comm)(i + 1) == Ok::<ScaledPart, MergeError>(parts[i + 1]));
        }
    }
}

/// The share of a rank of a chunk that can be cut into equal parts.
proof fn lemma_share(size: usize, comm: Comm)
    requires
        comm.wf(),
    ensures
        ({
            let local = size as int / comm.world_size as int;
            &&& size % comm.world_size == 0 ==> local * comm.world_size == size
            &&& 0 <= local <= size
            &&& 0 <= comm.rank * local
            &&& comm.rank * local + local <= size
        }),
{
    let (w, local) = (comm.world_size as int, size as int / comm.world_size as int);
    lemma_fundamental_div_mod(size as int, w);
    lemma_mul_is_commutative(w, local);
    lemma_div_pos_is_pos(size as int, w);
    assert(0 <= comm.rank * local && comm.rank * local + local <= size && local <= size) by (nonlinear_arith)
        requires
            size >= w * local,
            comm.rank + 1 <= w,
            0 <= local,
    ;
}

/// Chunks of unquantized weights lie one after the other along their dimension,
/// and a rank keeps an equal share of the rows of each. All but the last are
/// requantized to the type that is asked for, the last to eight bits; without
/// one, none is.
pub proof fn law_ranks_keep_shares_of_plain_chunks(
    req: MergedRequest,
    vb: VarBuilderX,
    comm: Comm,
    r: Result<MergedParallelColumnLinear, MergeError>,
    i: int,
)
    requires
        req.wf(comm, None),
        req.chunk_shards is None,
        comm.wf(),
        call_ensures(MergedParallelColumnLinear::load_merged_chunks, (&req, &vb, &comm, &None::<QuantConfig>), r),
        r is Ok,
        0 <= i < req.chunks@.len(),
    ensures
        r->Ok_0.source matches MergedSource::Plain { weight, dtype, chunk_dim, chunks, requant } && {
            let (p, w) = (chunks@[i], comm.world_size as int);
            &&& weight.shape@ == seq![req.out_dim, req.in_dim] && dtype == req.dtype && chunk_dim == req.chunk_dim && chunk_dim <= 1
            &&& chunks@.len() == req.chunks@.len() && requant@.len() == req.chunks@.len()
            &&& p.chunk.len == req.chunks@[i]
            &&& i == 0 ==> p.chunk.start == 0
            &&& i + 1 < chunks@.len() ==> chunks@[i + 1].chunk.start == p.chunk.start + p.chunk.len
            &&& req.chunk_dim == 0 ==> p.rows.len * w == req.chunks@[i] && p.chunk.start + p.chunk.len <= req.out_dim
            &&& req.chunk_dim == 1 ==> p.rows.len * w == req.out_dim && p.chunk.start + p.chunk.len <= req.in_dim
            &&& p.rows.start == comm.rank * p.rows.len
            &&& req.quant is None ==> requant@[i] is None
            &&& req.quant matches Some(q) ==> (requant@[i] matches Some(t) && (i + 1 == chunks@.len() ==> t@ == "q8_0"@) && (i + 1
                < chunks@.len() ==> t@ == q@))
        },
{
    let m = r->Ok_0;
    let chunks = req.chunks@;
    let s = chunks.map_values(|c: usize| c as nat);
    assert(s.take(0) =~= Seq::<nat>::empty());
    lemma_chunk_start_step(chunks, i);
    lemma_share(chunks[i], comm);
    lemma_share(req.out_dim, comm);
    let parts = m.source->Plain_chunks@;
    assert(req.plain_chunk(comm)(i) == Ok::<PlainPart, MergeError>(parts[i]));
    if i + 1 < chunks.len() {
        lemma_chunk_start_step(chunks, i + 1);
        assert(req.plain_chunk(comm)(i + 1) == Ok::<PlainPart, MergeError>(parts[i + 1]));
    }
    assert(requant_is(m.source->Plain_requant@[i], req.quant, i, chunks.len() as int));
}

/// Weights in memory: one layer whose output is cut as asked for, with the
/// second layout of FP8 scales that its device needs.
pub proof fn law_packed_layers_in_memory(
    bias: bool,
    w: Vec<usize>,
    quant: Option<String>,
    sm_version: usize,
    a: MergedParallelColumnLinear,
    b: MergedParallelColumnLinear,
    c: MergedParallelColumnLinear,
    layout: ScaleLayout,
)
    requires
        call_ensures(MergedParallelColumnLinear::from_packed_local, (bias, w, quant), a),
        call_ensures(MergedParallelColumnLinear::from_packed_local_qlinear, (bias, w), b),
        call_ensures(MergedParallelColumnLinear::from_packed_local_fp8, (bias, sm_version, w), c),
        call_ensures(cutlass_scale_layout, (sm_version,), layout),
    ensures
        a.linears == 1 && b.linears == 1 && c.linears == 1,
        a.output_splits == Some(w) && b.output_splits == Some(w) && c.output_splits == Some(w),
        a.bias == bias && b.bias == bias && c.bias == bias,
        a.source matches MergedSource::Local { scales, requant } && scales is None && requant == quant,
        b.source matches MergedSource::Local { scales, requant } && scales is None && requant is None,
        c.source matches MergedSource::Local { scales, requant } && scales == Some(layout) && requant is None,
{
}

/// Blocks of scales are those of the configuration, or 128 by 128.
pub proof fn law_scale_blocks_have_a_default(cfg: Option<QuantConfig>, r: Vec<usize>)
    requires
        call_ensures(find_scale_block, (&cfg,), r),
    ensures
        (cfg matches Some(c) && c.weight_block_size is Some) ==> r@ == cfg->0.weight_block_size->0@,
        !(cfg matches Some(c) && c.weight_block_size is Some) ==> r@.len() == 2 && r@[0] == 128 && r@[1] == 128,
{
}

} // verus!
