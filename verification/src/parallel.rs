//! Layers that are spread over a tensor-parallel group.

use crate::checkpoint::{dims2, DType, TensorRead, VarBuilderX};
use crate::config::QuantConfig;
use crate::distributed::{
    chunk_of, pad_vocab_size, padded_vocab, shard, tensor_parallel_chunk, ChunkError, Comm, Shard, Span,
    VOCAB_PADDING_SIZE,
};
use crate::ggml::QuantType;
use crate::linear::{fp8_unplannable, linear_b_x, plain_layer, plannable, Fp8Error, LinearSize, LinearX};
use crate::merged::scale_block;
use vstd::arithmetic::div_mod::*;
use vstd::arithmetic::mul::*;
use vstd::prelude::*;

verus! {

/// The error of an FP8 layer whose block size is not a pair.
pub open spec fn fp8_refusal(cfg: Option<QuantConfig>) -> Fp8Error {
    Fp8Error::BlockSizeLen { len: scale_block(cfg).len() as usize }
}

/// A layer that every rank holds in full.
#[derive(Clone)]
pub struct ReplicatedLinear {
    pub linear: LinearX,
}

/// The size of a layer that is held in full.
pub open spec fn full_size(in_dim: usize, out_dim: usize, bias: bool, dtype: DType) -> LinearSize {
    LinearSize { in_dim, out_dim, shard: Shard::whole(), bias, dtype }
}

impl ReplicatedLinear {
    /// Whether `r` is the plan of the layer of that size in the scope.
    pub open spec fn planned(
        r: Result<Self, Fp8Error>,
        vb: &VarBuilderX,
        size: LinearSize,
        cfg: Option<QuantConfig>,
        quant: Option<String>,
    ) -> bool {
        if fp8_unplannable(vb, cfg) {
            r == Err::<Self, Fp8Error>(fp8_refusal(cfg))
        } else {
            r matches Ok(l) && l.linear.is_layer(vb, size, cfg, quant)
        }
    }

    /// Plans the layer `name` below `vb`.
    pub(crate) fn load_below(
        vb: &VarBuilderX,
        name: &str,
        in_dim: usize,
        out_dim: usize,
        bias: bool,
        quant_cfg: &Option<QuantConfig>,
        quant: &Option<String>,
        dtype: DType,
    ) -> (r: Result<Self, Fp8Error>)
        requires
            plannable(full_size(in_dim, out_dim, bias, dtype), vb.checkpoint.gguf, *quant_cfg),
        ensures
            Self::planned(r, &vb.child(name@), full_size(in_dim, out_dim, bias, dtype), *quant_cfg, *quant),
    {
        let scope = vb.pp(name);
        Self::load_b(in_dim, out_dim, bias, &scope, quant_cfg, quant, dtype)
    }

    /// Plans the unquantized layer `name` below `vb`.
    pub(crate) fn plain_below(vb: &VarBuilderX, name: &str, in_dim: usize, out_dim: usize, bias: bool, dtype: DType) -> (r: Self)
        ensures
            r.linear.is_layer(&vb.child(name@), full_size(in_dim, out_dim, bias, dtype), None, None),
    {
        let scope = vb.pp(name);
        let size = LinearSize { in_dim, out_dim, shard: shard(0, 0, 1), bias, dtype };
        ReplicatedLinear { linear: plain_layer(&scope, size) }
    }

    pub fn from(linear: LinearX) -> (r: Self)
        ensures
            r.linear == linear,
    {
        ReplicatedLinear { linear }
    }

    pub fn load_no_bias(
        in_dim: usize,
        out_dim: usize,
        vb: &VarBuilderX,
        quant_cfg: &Option<QuantConfig>,
        quant: &Option<String>,
        dtype: DType,
    ) -> (r: Result<Self, Fp8Error>)
        requires
            plannable(full_size(in_dim, out_dim, false, dtype), vb.checkpoint.gguf, *quant_cfg),
        ensures
            Self::planned(r, vb, full_size(in_dim, out_dim, false, dtype), *quant_cfg, *quant),
    {
        Self::load_b(in_dim, out_dim, false, vb, quant_cfg, quant, dtype)
    }

    pub fn load_b(
        in_dim: usize,
        out_dim: usize,
        bias: bool,
        vb: &VarBuilderX,
        quant_cfg: &Option<QuantConfig>,
        quant: &Option<String>,
        dtype: DType,
    ) -> (r: Result<Self, Fp8Error>)
        requires
            plannable(full_size(in_dim, out_dim, bias, dtype), vb.checkpoint.gguf, *quant_cfg),
        ensures
            Self::planned(r, vb, full_size(in_dim, out_dim, bias, dtype), *quant_cfg, *quant),
    {
        let size = LinearSize { in_dim, out_dim, shard: shard(0, 0, 1), bias, dtype };
        match linear_b_x(vb, size, quant_cfg, quant) {
            Ok(linear) => Ok(ReplicatedLinear { linear }),
            Err(e) => Err(e),
        }
    }
}

/// A layer of which each rank holds some outputs.
#[derive(Clone)]
pub struct TensorParallelColumnLinear {
    pub linear: LinearX,
}

/// The size of a layer whose outputs are spread over the group.
pub open spec fn column_size(in_dim: usize, out_dim: usize, bias: bool, comm: Comm, dtype: DType) -> LinearSize {
    LinearSize {
        in_dim,
        out_dim,
        shard: Shard { dim: 0, rank: comm.rank, world_size: comm.world_size },
        bias,
        dtype,
    }
}

impl TensorParallelColumnLinear {
    /// Whether `r` is the plan of the layer of that size in the scope.
    pub open spec fn planned(
        r: Result<Self, Fp8Error>,
        vb: &VarBuilderX,
        size: LinearSize,
        cfg: Option<QuantConfig>,
        quant: Option<String>,
    ) -> bool {
        if fp8_unplannable(vb, cfg) {
            r == Err::<Self, Fp8Error>(fp8_refusal(cfg))
        } else {
            r matches Ok(l) && l.linear.is_layer(vb, size, cfg, quant)
        }
    }

    pub fn new(linear: LinearX) -> (r: Self)
        ensures
            r.linear == linear,
    {
        TensorParallelColumnLinear { linear }
    }

    /// Plans the layer `name` below `vb`.
    pub(crate) fn load_below(
        vb: &VarBuilderX,
        name: &str,
        size: LinearSize,
        quant_cfg: &Option<QuantConfig>,
        quant: &Option<String>,
    ) -> (r: Result<Self, Fp8Error>)
        requires
            plannable(size, vb.checkpoint.gguf, *quant_cfg),
        ensures
            Self::planned(r, &vb.child(name@), size, *quant_cfg, *quant),
    {
        let scope = vb.pp(name);
        Self::load_with_shard(size, &scope, quant_cfg, quant)
    }

    pub fn load_with_hints(
        in_dim: usize,
        out_dim: usize,
        bias: bool,
        vb: &VarBuilderX,
        comm: &Comm,
        quant_cfg: &Option<QuantConfig>,
        quant: &Option<String>,
        dtype: DType,
    ) -> (r: Result<Self, Fp8Error>)
        requires
            plannable(column_size(in_dim, out_dim, bias, *comm, dtype), vb.checkpoint.gguf, *quant_cfg),
        ensures
            Self::planned(r, vb, column_size(in_dim, out_dim, bias, *comm, dtype), *quant_cfg, *quant),
    {
        let part = shard(0, comm.rank(), comm.world_size());
        Self::load_with_shard(LinearSize { in_dim, out_dim, shard: part, bias, dtype }, vb, quant_cfg, quant)
    }

    pub fn load_with_shard(
        size: LinearSize,
        vb: &VarBuilderX,
        quant_cfg: &Option<QuantConfig>,
        quant: &Option<String>,
    ) -> (r: Result<Self, Fp8Error>)
        requires
            plannable(size, vb.checkpoint.gguf, *quant_cfg),
        ensures
            Self::planned(r, vb, size, *quant_cfg, *quant),
    {
        match linear_b_x(vb, size, quant_cfg, quant) {
            Ok(linear) => Ok(TensorParallelColumnLinear { linear }),
            Err(e) => Err(e),
        }
    }
}

/// A layer of which each rank holds some inputs: the outputs of the ranks are
/// added up.
#[derive(Clone)]
pub struct TensorParallelRowLinear {
    pub linear: LinearX,
    /// Whether there are other ranks to add up.
    pub all_reduce: bool,
    /// Whether a bias is added once the ranks are added up.
    pub bias: bool,
    pub dtype: DType,
}

/// The size of a layer whose inputs are spread over the group.
pub open spec fn row_size(in_dim: usize, out_dim: usize, comm: Comm, dtype: DType) -> LinearSize {
    LinearSize {
        in_dim,
        out_dim,
        shard: Shard { dim: 1, rank: comm.rank, world_size: comm.world_size },
        bias: false,
        dtype,
    }
}

/// How the outputs of the ranks are added up.
#[derive(Debug, Clone, Copy, PartialEq, Eq, Structural)]
pub enum ReducePlan {
    /// The output is complete.
    Keep,
    Reduce,
    /// Convert to this type, reduce, convert back.
    ReduceAs(DType),
}

/// What becomes of the output of a layer whose inputs are spread over the
/// group.
#[derive(Debug, Clone, Copy, PartialEq, Eq, Structural)]
pub struct RowPass {
    pub reduce: ReducePlan,
    /// Whether the bias is added after that.
    pub adds_bias: bool,
}

impl TensorParallelRowLinear {
    /// Whether `r` is the plan of the layer of that size in the scope.
    pub open spec fn planned(
        r: Result<Self, Fp8Error>,
        vb: &VarBuilderX,
        size: LinearSize,
        comm: Comm,
        cfg: Option<QuantConfig>,
        quant: Option<String>,
    ) -> bool {
        if fp8_unplannable(vb, cfg) {
            r == Err::<Self, Fp8Error>(fp8_refusal(cfg))
        } else {
            &&& r matches Ok(l)
            &&& l.linear.is_layer(vb, size, cfg, quant)
            &&& l.all_reduce == (comm.world_size > 1)
            &&& !l.bias
            &&& l.dtype == size.dtype
        }
    }

    pub fn new(linear: LinearX, comm: &Comm, dtype: DType) -> (r: Self)
        ensures
            r == (TensorParallelRowLinear { linear, all_reduce: comm.world_size > 1, bias: false, dtype }),
    {
        Self::new_with_bias(linear, false, comm, dtype)
    }

    /// A layer with a bias that belongs to the whole output, where `bias` says
    /// so: it is added once, not by every rank.
    pub fn new_with_bias(linear: LinearX, bias: bool, comm: &Comm, dtype: DType) -> (r: Self)
        ensures
            r == (TensorParallelRowLinear { linear, all_reduce: comm.world_size > 1, bias, dtype }),
    {
        TensorParallelRowLinear { linear, all_reduce: comm.world_size() > 1, bias, dtype }
    }

    pub fn load_with_hints(
        in_dim: usize,
        out_dim: usize,
        vb: &VarBuilderX,
        comm: &Comm,
        quant_cfg: &Option<QuantConfig>,
        quant: &Option<String>,
        dtype: DType,
    ) -> (r: Result<Self, Fp8Error>)
        requires
            plannable(row_size(in_dim, out_dim, *comm, dtype), vb.checkpoint.gguf, *quant_cfg),
        ensures
            Self::planned(r, vb, row_size(in_dim, out_dim, *comm, dtype), *comm, *quant_cfg, *quant),
    {
        let part = shard(1, comm.rank(), comm.world_size());
        let size = LinearSize { in_dim, out_dim, shard: part, bias: false, dtype };
        match linear_b_x(vb, size, quant_cfg, quant) {
            Ok(linear) => Ok(Self::new(linear, comm, dtype)),
            Err(e) => Err(e),
        }
    }

    /// Plans the layer `name` below `vb`.
    pub(crate) fn load_below(
        vb: &VarBuilderX,
        name: &str,
        in_dim: usize,
        out_dim: usize,
        comm: &Comm,
        quant_cfg: &Option<QuantConfig>,
        quant: &Option<String>,
        dtype: DType,
    ) -> (r: Result<Self, Fp8Error>)
        requires
            plannable(row_size(in_dim, out_dim, *comm, dtype), vb.checkpoint.gguf, *quant_cfg),
        ensures
            Self::planned(r, &vb.child(name@), row_size(in_dim, out_dim, *comm, dtype), *comm, *quant_cfg, *quant),
    {
        let scope = vb.pp(name);
        Self::load_with_hints(in_dim, out_dim, &scope, comm, quant_cfg, quant, dtype)
    }

    /// What becomes of an output of type `output`: it is added up in the type
    /// of the layer, and the bias comes after that.
    pub fn forward(&self, output: DType) -> (r: RowPass)
        ensures
            r.reduce == if !self.all_reduce {
                ReducePlan::Keep
            } else if output == self.dtype {
                ReducePlan::Reduce
            } else {
                ReducePlan::ReduceAs(self.dtype)
            },
            r.adds_bias == self.bias,
    {
        let reduce = if !self.all_reduce {
            ReducePlan::Keep
        } else if output != self.dtype {
            ReducePlan::ReduceAs(self.dtype)
        } else {
            ReducePlan::Reduce
        };
        RowPass { reduce, adds_bias: self.bias }
    }
}

/// Why elements cannot be handed to the other ranks.
#[derive(Debug, Clone, Copy, PartialEq, Eq, Structural)]
pub enum CollectiveError {
    OutOfBounds { start: usize, count: usize, len: usize },
    UnsupportedType(DType),
}

/// The elements of a buffer that a view covers, if they are inside it.
pub open spec fn view_of(start: usize, count: usize, len: usize) -> Result<Span, CollectiveError> {
    if start + count > len {
        Err(CollectiveError::OutOfBounds { start, count, len })
    } else {
        Ok(Span { start, len: count })
    }
}

fn view_span(start: usize, count: usize, len: usize) -> (r: Result<Span, CollectiveError>)
    ensures
        r == view_of(start, count, len),
{
    match start.checked_add(count) {
        Some(end) => if end > len {
            Err(CollectiveError::OutOfBounds { start, count, len })
        } else {
            Ok(Span { start, len: count })
        },
        None => Err(CollectiveError::OutOfBounds { start, count, len }),
    }
}

/// Adds up the tensors of all ranks.
pub struct AllReduce {
    pub comm: Comm,
}

impl AllReduce {
    pub fn new(comm: Comm) -> (r: Self)
        ensures
            r.comm == comm,
    {
        AllReduce { comm }
    }

    /// The elements of a buffer of `len` that are added up for a view of
    /// `count` elements.
    pub fn source(dtype: DType, start: usize, count: usize, len: usize) -> (r: Result<Span, CollectiveError>)
        ensures
            dtype == DType::BF16 || dtype == DType::F16 ==> r == view_of(start, count, len),
            dtype != DType::BF16 && dtype != DType::F16
                ==> r == Err::<Span, CollectiveError>(CollectiveError::UnsupportedType(dtype)),
    {
        if dtype == DType::BF16 || dtype == DType::F16 {
            view_span(start, count, len)
        } else {
            Err(CollectiveError::UnsupportedType(dtype))
        }
    }
}

/// Puts the tensors of all ranks one after the other.
#[derive(Clone)]
pub struct AllGather {
    pub comm: Comm,
}

impl AllGather {
    pub fn new(comm: Comm) -> (r: Self)
        ensures
            r.comm == comm,
    {
        AllGather { comm }
    }

    /// The elements of a buffer of `len` that are gathered for a view of
    /// `count` elements.
    pub fn source(dtype: DType, start: usize, count: usize, len: usize) -> (r: Result<Span, CollectiveError>)
        ensures
            dtype == DType::BF16 || dtype == DType::F16 || dtype == DType::F32 ==> r == view_of(start, count, len),
            dtype != DType::BF16 && dtype != DType::F16 && dtype != DType::F32
                ==> r == Err::<Span, CollectiveError>(CollectiveError::UnsupportedType(dtype)),
    {
        if dtype == DType::BF16 || dtype == DType::F16 || dtype == DType::F32 {
            view_span(start, count, len)
        } else {
            Err(CollectiveError::UnsupportedType(dtype))
        }
    }

    /// The shape of what is gathered: all ranks along the first dimension.
    pub fn gathered_shape(&self, dims: &Vec<usize>) -> (r: Vec<usize>)
        requires
            dims@.len() > 0,
            dims@[0] * self.comm.world_size <= usize::MAX,
        ensures
            r@ == dims@.update(0, (dims@[0] * self.comm.world_size) as usize),
    {
        let mut out = dims.clone();
        let first: usize = out[0] * self.comm.world_size;
        out.set(0, first);
        out
    }
}

/// The output layer: each rank holds some tokens of the vocabulary.
#[derive(Clone)]
pub struct VocabParallelLinear {
    pub linear: LinearX,
    pub all_gather: Option<AllGather>,
    pub org_vocab_size: usize,
    pub dtype: DType,
}

/// The rows of an output layer that a rank holds, and how many rows of zeros
/// the table lacks.
#[derive(Debug, Clone, Copy, PartialEq, Eq, Structural)]
pub struct VocabRows {
    pub pad_rows: usize,
    pub rows: Span,
}

/// An output layer whose weight is in memory already.
#[derive(Clone)]
pub struct VocabLocal {
    pub rows: VocabRows,
    /// Whether a bias is added to the scores of the rank.
    pub bias: bool,
    pub all_gather: Option<AllGather>,
    pub org_vocab_size: usize,
    pub dtype: DType,
}

/// How gathered scores become rows over the whole vocabulary.
pub struct GatherPlan {
    /// Type that scores are gathered in, where they have another.
    pub cast: Option<DType>,
    /// Shape of what is gathered: ranks, batch rows, local vocabulary. The
    /// first two are swapped and the last two joined.
    pub gathered: (usize, usize, usize),
    pub full_vocab: usize,
    /// Shape of the scores, where it is not batch rows by vocabulary.
    pub shape: Option<Vec<usize>>,
    /// How many tokens are kept, where padding is cut off.
    pub keep: Option<usize>,
}

/// The product of the terms of `s`.
pub open spec fn product(s: Seq<usize>) -> int
    decreases s.len(),
{
    if s.len() == 0 {
        1
    } else {
        product(s.drop_last()) * s.last()
    }
}

impl VocabParallelLinear {
    /// The size of the part of an output layer that a rank loads.
    pub open spec fn part_size(in_dim: usize, out_dim: usize, comm: Comm, dtype: DType) -> LinearSize {
        if comm.world_size <= 1 {
            full_size(in_dim, out_dim, false, dtype)
        } else {
            column_size(in_dim, padded_vocab(out_dim as int, comm.world_size as int) as usize, false, comm, dtype)
        }
    }

    /// Whether `r` is the plan of the output layer for `out_dim` tokens.
    pub open spec fn planned(
        r: Result<Self, Fp8Error>,
        vb: &VarBuilderX,
        in_dim: usize,
        out_dim: usize,
        comm: Comm,
        cfg: Option<QuantConfig>,
        quant: Option<String>,
        dtype: DType,
    ) -> bool {
        if fp8_unplannable(vb, cfg) {
            r == Err::<Self, Fp8Error>(fp8_refusal(cfg))
        } else {
            &&& r matches Ok(l)
            &&& l.linear.is_layer(vb, Self::part_size(in_dim, out_dim, comm, dtype), cfg, quant)
            &&& l.all_gather is Some <==> comm.world_size > 1
            &&& comm.world_size > 1 ==> l.all_gather->0.comm == comm
            &&& l.org_vocab_size == out_dim
            &&& l.dtype == dtype
        }
    }

    pub fn load_no_bias(
        in_dim: usize,
        out_dim: usize,
        vb: &VarBuilderX,
        comm: &Comm,
        quant_cfg: &Option<QuantConfig>,
        quant: &Option<String>,
        dtype: DType,
    ) -> (r: Result<Self, Fp8Error>)
        requires
            out_dim + comm.world_size + (2 * VOCAB_PADDING_SIZE - 2) <= usize::MAX,
            plannable(Self::part_size(in_dim, out_dim, *comm, dtype), vb.checkpoint.gguf, *quant_cfg),
        ensures
            Self::planned(r, vb, in_dim, out_dim, *comm, *quant_cfg, *quant, dtype),
    {
        let world_size: usize = comm.world_size();
        let (rows, part) = if world_size <= 1 {
            (out_dim, shard(0, 0, 1))
        } else {
            (pad_vocab_size(out_dim, world_size), shard(0, comm.rank(), world_size))
        };
        proof {
            crate::distributed::law_padded_vocab(out_dim as nat, 1);
            if world_size > 0 {
                crate::distributed::law_padded_vocab(out_dim as nat, world_size as nat);
            }
        }
        let size = LinearSize { in_dim, out_dim: rows, shard: part, bias: false, dtype };
        match linear_b_x(vb, size, quant_cfg, quant) {
            Ok(linear) => Ok(
                VocabParallelLinear {
                    linear,
                    all_gather: if world_size > 1 { Some(AllGather::new(*comm)) } else { None },
                    org_vocab_size: out_dim,
                    dtype,
                },
            ),
            Err(e) => Err(e),
        }
    }

    /// The rows that a rank takes of a table of `table_rows`, padded with
    /// zeros to the padded vocabulary: all of them in a group of one.
    fn vocab_rows(table_rows: usize, org_vocab_size: usize, comm: &Comm) -> (r: VocabRows)
        requires
            comm.wf(),
            org_vocab_size + comm.world_size + (2 * VOCAB_PADDING_SIZE - 2) <= usize::MAX,
        ensures
            comm.world_size == 1 ==> r == (VocabRows { pad_rows: 0, rows: Span { start: 0, len: table_rows } }),
            comm.world_size > 1 ==> {
                let padded = padded_vocab(org_vocab_size as int, comm.world_size as int);
                let local = padded / (comm.world_size as int);
                &&& r.pad_rows == if table_rows < padded { padded - table_rows } else { 0 }
                &&& r.rows.start == comm.rank * local
                &&& r.rows.len == local
            },
    {
        let world_size: usize = comm.world_size();
        if world_size <= 1 {
            return VocabRows { pad_rows: 0, rows: Span { start: 0, len: table_rows } };
        }
        let padded: usize = pad_vocab_size(org_vocab_size, world_size);
        let local: usize = padded / world_size;
        proof {
            lemma_fundamental_div_mod(padded as int, world_size as int);
            lemma_mod_bound(padded as int, world_size as int);
            lemma_mul_inequality(comm.rank as int, world_size as int, local as int);
            lemma_mul_is_commutative(local as int, world_size as int);
        }
        let pad_rows: usize = if table_rows < padded { padded - table_rows } else { 0 };
        VocabRows { pad_rows, rows: Span { start: comm.rank() * local, len: local } }
    }

    /// The output layer for a table of `table_rows` in memory, with a bias
    /// where `bias` says so.
    pub fn from_weight_bias(table_rows: usize, bias: bool, comm: &Comm, org_vocab_size: usize, dtype: DType) -> (r: VocabLocal)
        requires
            comm.wf(),
            org_vocab_size + comm.world_size + (2 * VOCAB_PADDING_SIZE - 2) <= usize::MAX,
        ensures
            comm.world_size == 1 ==> r.rows == (VocabRows { pad_rows: 0, rows: Span { start: 0, len: table_rows } }),
            comm.world_size > 1 ==> {
                let padded = padded_vocab(org_vocab_size as int, comm.world_size as int);
                let local = padded / (comm.world_size as int);
                &&& r.rows.pad_rows == if table_rows < padded { padded - table_rows } else { 0 }
                &&& r.rows.rows.start == comm.rank * local
                &&& r.rows.rows.len == local
            },
            r.bias == bias,
            r.all_gather is Some <==> comm.world_size > 1,
            comm.world_size > 1 ==> r.all_gather->0.comm == *comm,
            r.org_vocab_size == org_vocab_size,
            r.dtype == dtype,
    {
        VocabLocal {
            rows: Self::vocab_rows(table_rows, org_vocab_size, comm),
            bias,
            all_gather: if comm.world_size() > 1 { Some(AllGather::new(*comm)) } else { None },
            org_vocab_size,
            dtype,
        }
    }

    /// What becomes of local scores of shape `logits` for an input of shape
    /// `input`; `None` where they are complete.
    pub fn forward(&self, logits: &Vec<usize>, output: DType, input: &Vec<usize>) -> (r: Option<GatherPlan>)
        requires
            logits@.len() > 0,
            input@.len() > 0,
            forall|n: int| 0 <= n < logits@.len() ==> #[trigger] product(logits@.take(n)) <= usize::MAX,
            self.all_gather matches Some(g) ==> logits@.last() * g.comm.world_size <= usize::MAX,
        ensures
            r is None <==> self.all_gather is None,
            r matches Some(p) ==> {
                let ws = self.all_gather->0.comm.world_size;
                let lead = input@.drop_last();
                &&& p.cast == if output == self.dtype { None } else { Some(self.dtype) }
                &&& p.gathered.0 == ws
                &&& p.gathered.1 == product(logits@.drop_last())
                &&& p.gathered.2 == logits@.last()
                &&& p.full_vocab == ws * logits@.last()
                &&& p.shape is Some <==> lead.len() > 1
                &&& lead.len() > 1 ==> p.shape->0@ == lead.push(p.full_vocab)
                &&& p.keep == if p.full_vocab > self.org_vocab_size { Some(self.org_vocab_size) } else { None }
            },
    {
        let ws: usize = match &self.all_gather {
            Some(g) => g.comm.world_size,
            None => return None,
        };
        let local: usize = logits[logits.len() - 1];
        let mut batch: usize = 1;
        let mut i: usize = 0;
        assert(logits@.take(0) =~= Seq::<usize>::empty());
        while i < logits.len() - 1
            invariant
                0 < logits@.len(),
                i <= logits@.len() - 1,
                batch == product(logits@.take(i as int)),
                forall|n: int| 0 <= n < logits@.len() ==> #[trigger] product(logits@.take(n)) <= usize::MAX,
            decreases logits@.len() - i,
        {
            assert(logits@.take(i + 1).drop_last() =~= logits@.take(i as int));
            assert(product(logits@.take(i + 1)) <= usize::MAX);
            batch = batch * logits[i];
            i = i + 1;
        }
        assert(logits@.take(logits@.len() - 1) =~= logits@.drop_last());
        assert(ws * local == local * ws) by (nonlinear_arith);
        let full_vocab: usize = ws * local;
        let shape = if input.len() > 2 {
            let mut v: Vec<usize> = Vec::new();
            let mut j: usize = 0;
            while j < input.len() - 1
                invariant
                    0 < input@.len(),
                    j <= input@.len() - 1,
                    v@ == input@.take(j as int),
                decreases input@.len() - j,
            {
                v.push(input[j]);
                j = j + 1;
                assert(v@ =~= input@.take(j as int));
            }
            v.push(full_vocab);
            assert(v@ =~= input@.drop_last().push(full_vocab));
            Some(v)
        } else {
            None
        };
        Some(
            GatherPlan {
                cast: if output != self.dtype { Some(self.dtype) } else { None },
                gathered: (ws, batch, local),
                full_vocab,
                shape,
                keep: if full_vocab > self.org_vocab_size { Some(self.org_vocab_size) } else { None },
            },
        )
    }
}

/// Where element (`i`, `j`) of an array of `rows` rows and `cols` columns,
/// stored row by row, lies.
pub open spec fn row_major(cols: int, i: int, j: int) -> int {
    i * cols + j
}

/// Where the score of token `v` for batch row `b` lies in the gathered
/// buffer: the scores of the ranks follow each other, each stored row by row.
pub open spec fn gathered_at(batch: int, local: int, b: int, v: int) -> int {
    row_major(batch * local, v / local, row_major(local, b, v % local))
}

/// After swapping the ranks and the batch rows of what was gathered and
/// joining ranks and local vocabulary, the score of token `v` is the one that
/// the rank with row `v` of the padded table computed for that row.
pub proof fn law_gather_restores_vocab_order(world_size: int, batch: int, local: int, b: int, v: int)
    requires
        0 < local,
        0 <= b < batch,
        0 <= v < world_size * local,
    ensures
        0 <= v / local < world_size,
        (v / local) * local + v % local == v,
        gathered_at(batch, local, b, v) == row_major(local, row_major(batch, v / local, b), v % local),
        0 <= gathered_at(batch, local, b, v) < world_size * batch * local,
{
    let (r, c) = (v / local, v % local);
    lemma_fundamental_div_mod(v, local);
    lemma_mod_bound(v, local);
    lemma_div_pos_is_pos(v, local);
    lemma_mul_is_commutative(local, r);
    assert(r < world_size) by (nonlinear_arith)
        requires
            r * local <= v,
            v < world_size * local,
            local > 0,
    ;
    assert(r * (batch * local) + (b * local + c) == (r * batch + b) * local + c) by (nonlinear_arith);
    assert(0 <= (r * batch + b) * local + c < world_size * batch * local) by (nonlinear_arith)
        requires
            0 <= r < world_size,
            0 <= b < batch,
            0 <= c < local,
    ;
}

/// Why a rearranged layer of a block-quantized file cannot be loaded.
#[derive(Debug, Clone, Copy, PartialEq, Eq, Structural)]
pub enum RestoreError {
    /// The checkpoint is not block-quantized.
    NotGguf,
    Chunk(ChunkError),
}

/// A layer that is unpacked, rearranged, cut and quantized again.
pub struct RestoredLinear {
    pub weight: TensorRead,
    /// The dimension along which it is cut, and the part that is kept.
    pub dim: usize,
    pub part: Span,
    /// The type it is quantized to.
    pub requant: QuantType,
    /// Whether there are other ranks to add up.
    pub all_reduce: bool,
    pub dtype: DType,
}

impl RestoredLinear {
    /// Whether `r` is the plan for the layer below `vb`, cut along a
    /// rearranged dimension of `extent`.
    pub open spec fn planned(
        r: Result<Self, RestoreError>,
        vb: &VarBuilderX,
        out_dim: usize,
        in_dim: usize,
        name: Seq<char>,
        dim: usize,
        extent: usize,
        stored: QuantType,
        comm: Comm,
        dtype: DType,
    ) -> bool {
        if !vb.checkpoint.gguf {
            r == Err::<Self, RestoreError>(RestoreError::NotGguf)
        } else {
            match chunk_of(extent, dim, comm.rank, comm.world_size) {
                Err(e) => r == Err::<Self, RestoreError>(RestoreError::Chunk(e)),
                Ok(part) => {
                    &&& r matches Ok(l)
                    &&& l.weight.reads(
                        crate::text::path_of(vb.spec_path(name), "weight"@),
                        seq![out_dim, in_dim], Shard::whole(), vb.checkpoint.dtype)
                    &&& l.dim == dim
                    &&& l.part == part
                    &&& l.requant == stored.fitting(part.len as int)
                    &&& l.all_reduce == (dim == 1 && comm.world_size > 1)
                    &&& l.dtype == dtype
                },
            }
        }
    }

    fn plan(
        vb: &VarBuilderX,
        out_dim: usize,
        in_dim: usize,
        name: &str,
        dim: usize,
        extent: usize,
        stored: QuantType,
        comm: &Comm,
        dtype: DType,
    ) -> (r: Result<Self, RestoreError>)
        ensures
            Self::planned(r, vb, out_dim, in_dim, name@, dim, extent, stored, *comm, dtype),
    {
        if !vb.is_qvar_builder() {
            return Err(RestoreError::NotGguf);
        }
        let weight = vb.pp(name).get("weight", dims2(out_dim, in_dim));
        match tensor_parallel_chunk(extent, dim, comm.rank(), comm.world_size()) {
            Ok(part) => Ok(
                RestoredLinear {
                    weight,
                    dim,
                    part,
                    requant: stored.fit(part.len),
                    all_reduce: dim == 1 && comm.world_size() > 1,
                    dtype,
                },
            ),
            Err(e) => Err(RestoreError::Chunk(e)),
        }
    }
}

/// Plans a rearranged layer whose outputs are spread over the group.
/// `extent` is the number of rows after rearranging, `stored` the type found
/// in the file.
pub fn load_restored_gguf_column_linear(
    vb: &VarBuilderX,
    in_dim: usize,
    out_dim: usize,
    name: &str,
    extent: usize,
    stored: QuantType,
    comm: &Comm,
    dtype: DType,
) -> (r: Result<RestoredLinear, RestoreError>)
    ensures
        RestoredLinear::planned(r, vb, out_dim, in_dim, name@, 0, extent, stored, *comm, dtype),
{
    RestoredLinear::plan(vb, out_dim, in_dim, name, 0, extent, stored, comm, dtype)
}

/// Plans a rearranged layer whose inputs are spread over the group.
/// `extent` is the number of columns after rearranging.
pub fn load_restored_gguf_row_linear(
    vb: &VarBuilderX,
    in_dim: usize,
    out_dim: usize,
    name: &str,
    extent: usize,
    stored: QuantType,
    comm: &Comm,
    dtype: DType,
) -> (r: Result<RestoredLinear, RestoreError>)
    ensures
        RestoredLinear::planned(r, vb, out_dim, in_dim, name@, 1, extent, stored, *comm, dtype),
{
    RestoredLinear::plan(vb, out_dim, in_dim, name, 1, extent, stored, comm, dtype)
}

/// What the rows of a query-key-value layer are rearranged by.
#[derive(Debug, Clone, Copy, PartialEq, Eq, Structural)]
pub struct QkvHeads {
    pub key_dim: usize,
    pub k_heads: usize,
    pub v_heads: usize,
    pub head_v_dim: usize,
}

/// A rearranged query-key-value layer: three groups of rows, each cut over
/// the group and put together again.
pub struct RestoredQkv {
    pub weight: TensorRead,
    /// How the whole layer is rearranged before it is cut.
    pub heads: QkvHeads,
    /// The rows of the whole layer that are kept of each group.
    pub parts: [Span; 3],
    pub output_splits: [usize; 3],
    pub requant: QuantType,
    pub dtype: DType,
}

/// The part of rows `offset..offset + size` that a rank keeps.
pub open spec fn group_part(offset: int, size: usize, comm: Comm) -> Result<Span, ChunkError> {
    match chunk_of(size, 0, comm.rank, comm.world_size) {
        Ok(s) => Ok(Span { start: (offset + s.start) as usize, len: s.len }),
        Err(e) => Err(e),
    }
}

fn cut_group(offset: usize, size: usize, comm: &Comm) -> (r: Result<Span, ChunkError>)
    requires
        comm.wf(),
        offset + size <= usize::MAX,
    ensures
        r == group_part(offset as int, size, *comm),
        r matches Ok(s) ==> s.len <= size,
{
    match tensor_parallel_chunk(size, 0, comm.rank(), comm.world_size()) {
        Ok(s) => {
            proof {
                if comm.world_size > 1 {
                    crate::math::lemma_div_exact(size as int, comm.world_size as int);
                    lemma_mul_inequality(comm.rank as int, comm.world_size - 1, s.len as int);
                    assert((comm.world_size - 1) * s.len + s.len == s.len * comm.world_size) by (nonlinear_arith);
                    assert(comm.rank * s.len + s.len <= size);
                    assert(0 <= comm.rank * s.len) by (nonlinear_arith);
                }
            }
            Ok(Span { start: offset + s.start, len: s.len })
        },
        Err(e) => Err(e),
    }
}

impl RestoredQkv {
    /// Whether `r` is the plan for keys, keys and values of those sizes. Once
    /// a group has no whole blocks, all are quantized to [`QuantType::Q8_0`]
    /// as long as its blocks fit.
    pub open spec fn planned(
        r: Result<Self, RestoreError>,
        vb: &VarBuilderX,
        hidden_size: usize,
        heads: QkvHeads,
        value_dim: usize,
        name: Seq<char>,
        stored: QuantType,
        comm: Comm,
        dtype: DType,
    ) -> bool {
        let key_dim = heads.key_dim;
        let out_dim = (key_dim * 2 + value_dim) as usize;
        let first = group_part(0, key_dim, comm);
        let second = group_part(key_dim as int, key_dim, comm);
        let third = group_part(key_dim * 2, value_dim, comm);
        if !vb.checkpoint.gguf {
            r == Err::<Self, RestoreError>(RestoreError::NotGguf)
        } else if first is Err {
            r == Err::<Self, RestoreError>(RestoreError::Chunk(first->Err_0))
        } else if third is Err {
            r == Err::<Self, RestoreError>(RestoreError::Chunk(third->Err_0))
        } else {
            let (a, b, c) = (first->Ok_0, second->Ok_0, third->Ok_0);
            &&& r matches Ok(l)
            &&& l.weight.reads(
                crate::text::path_of(vb.spec_path(name), "weight"@),
                seq![out_dim, hidden_size], Shard::whole(), vb.checkpoint.dtype)
            &&& l.heads == heads
            &&& l.dtype == dtype
            &&& l.parts@ == seq![a, b, c]
            &&& l.output_splits@ == seq![a.len, b.len, c.len]
            &&& l.requant == stored.fitting(a.len as int).fitting(b.len as int).fitting(c.len as int)
        }
    }
}

pub fn load_restored_gguf_merged_qkv_linear(
    vb: &VarBuilderX,
    hidden_size: usize,
    key_dim_global: usize,
    value_dim_global: usize,
    num_k_heads_global: usize,
    num_v_heads_global: usize,
    head_v_dim: usize,
    name: &str,
    stored: QuantType,
    comm: &Comm,
    dtype: DType,
) -> (r: Result<RestoredQkv, RestoreError>)
    requires
        comm.wf(),
        key_dim_global * 2 + value_dim_global <= usize::MAX,
    ensures
        RestoredQkv::planned(
            r,
            vb,
            hidden_size,
            (QkvHeads { key_dim: key_dim_global, k_heads: num_k_heads_global, v_heads: num_v_heads_global, head_v_dim }),
            value_dim_global,
            name@,
            stored,
            *comm,
            dtype,
        ),
{
    if !vb.is_qvar_builder() {
        return Err(RestoreError::NotGguf);
    }
    let weight = vb.pp(name).get("weight", dims2(key_dim_global * 2 + value_dim_global, hidden_size));
    let a = match cut_group(0, key_dim_global, comm) {
        Ok(s) => s,
        Err(e) => return Err(RestoreError::Chunk(e)),
    };
    let b = match cut_group(key_dim_global, key_dim_global, comm) {
        Ok(s) => s,
        Err(e) => return Err(RestoreError::Chunk(e)),
    };
    let c = match cut_group(key_dim_global * 2, value_dim_global, comm) {
        Ok(s) => s,
        Err(e) => return Err(RestoreError::Chunk(e)),
    };
    let parts: [Span; 3] = [a, b, c];
    let output_splits: [usize; 3] = [a.len, b.len, c.len];
    assert(parts@ =~= seq![a, b, c]);
    assert(output_splits@ =~= seq![a.len, b.len, c.len]);
    let requant = stored.fit(a.len).fit(b.len).fit(c.len);
    let heads = QkvHeads { key_dim: key_dim_global, k_heads: num_k_heads_global, v_heads: num_v_heads_global, head_v_dim };
    Ok(RestoredQkv { weight, heads, parts, output_splits, requant, dtype })
}

/// Outputs are cut along rows of the weight, inputs along its columns, each for
/// the place of the rank in its group; a replicated layer is cut by nobody. No
/// rank has a bias of its own where inputs are cut.
pub proof fn law_layers_are_cut_along_their_own_dimension(
    in_dim: usize,
    out_dim: usize,
    bias: bool,
    vb: VarBuilderX,
    comm: Comm,
    cfg: Option<QuantConfig>,
    quant: Option<String>,
    dtype: DType,
    c: Result<TensorParallelColumnLinear, Fp8Error>,
    r: Result<TensorParallelRowLinear, Fp8Error>,
    f: Result<ReplicatedLinear, Fp8Error>,
)
    requires
        call_ensures(TensorParallelColumnLinear::load_with_hints, (in_dim, out_dim, bias, &vb, &comm, &cfg, &quant, dtype), c),
        call_ensures(TensorParallelRowLinear::load_with_hints, (in_dim, out_dim, &vb, &comm, &cfg, &quant, dtype), r),
        call_ensures(ReplicatedLinear::load_b, (in_dim, out_dim, bias, &vb, &cfg, &quant, dtype), f),
    ensures
        c matches Ok(l) ==> (cut_of(l.linear) matches Some(s) ==> s.dim == 0 && s.rank == comm.rank && s.world_size == comm.world_size),
        r matches Ok(l) ==> (cut_of(l.linear) matches Some(s) ==> s.dim == 1 && s.rank == comm.rank && s.world_size == comm.world_size),
        f matches Ok(l) ==> (cut_of(l.linear) matches Some(s) ==> s.rank == 0 && s.world_size == 1),
        c matches Ok(l) ==> (l.linear matches LinearX::Linear(d) ==> d.weight.shape@ == seq![out_dim, in_dim] && (d.bias is Some <==> bias)),
        r matches Ok(l) ==> (l.linear matches LinearX::Linear(d) ==> d.weight.shape@ == seq![out_dim, in_dim] && d.bias is None),
        f matches Ok(l) ==> (l.linear matches LinearX::Linear(d) ==> d.weight.shape@ == seq![out_dim, in_dim] && (d.bias is Some <==> bias)),
        r matches Ok(l) ==> (l.all_reduce <==> comm.world_size > 1) && !l.bias && l.dtype == dtype,
        c is Ok <==> r is Ok,
        c is Ok <==> f is Ok,
{
}

/// How the weight of a layer is cut over the ranks, where its plan says so.
pub open spec fn cut_of(l: LinearX) -> Option<Shard> {
    match l {
        LinearX::Linear(d) => Some(d.weight.shard),
        LinearX::InSitu { linear, .. } => Some(linear.weight.shard),
        LinearX::QLinear(q) => Some(q.shard),
        LinearX::LnFp8(q) => Some(q.weight.shard),
        LinearX::LnFp8OrLinear { fp8, .. } => Some(fp8.weight.shard),
        LinearX::LnMxfp4(q) => Some(q.blocks.shard),
        LinearX::LnNvfp4(q) => Some(q.blocks.shard),
        LinearX::Wna16 { size, .. } => Some(size.shard),
    }
}

/// Outputs of ranks are added up where there are others, in the type of the
/// layer, and a bias is added once, after that.
pub proof fn law_biases_are_added_once(linear: LinearX, bias: bool, comm: Comm, dtype: DType, l: TensorParallelRowLinear, t: DType, r: RowPass)
    requires
        call_ensures(TensorParallelRowLinear::new_with_bias, (linear, bias, &comm, dtype), l),
        call_ensures(TensorParallelRowLinear::forward, (&l, t), r),
    ensures
        r.adds_bias <==> bias,
        r.reduce == ReducePlan::Keep <==> comm.world_size <= 1,
        comm.world_size > 1 && t == dtype ==> r.reduce == ReducePlan::Reduce,
        comm.world_size > 1 && t != dtype ==> r.reduce == ReducePlan::ReduceAs(dtype),
        l.linear == linear,
{
}

/// A view is handed out whole where it lies in its buffer and its type can be
/// sent: half precision to be added up, single precision too to be gathered.
pub proof fn law_views_lie_in_their_buffers(
    dtype: DType,
    start: usize,
    count: usize,
    len: usize,
    sums: Result<Span, CollectiveError>,
    all: Result<Span, CollectiveError>,
)
    requires
        call_ensures(AllReduce::source, (dtype, start, count, len), sums),
        call_ensures(AllGather::source, (dtype, start, count, len), all),
    ensures
        sums is Ok <==> (dtype == DType::BF16 || dtype == DType::F16) && start + count <= len,
        all is Ok <==> (dtype == DType::BF16 || dtype == DType::F16 || dtype == DType::F32) && start + count <= len,
        sums matches Ok(s) ==> s.start == start && s.len == count,
        all matches Ok(s) ==> s.start == start && s.len == count,
        all == Err::<Span, CollectiveError>(CollectiveError::UnsupportedType(dtype)) <==> dtype != DType::BF16 && dtype != DType::F16
            && dtype != DType::F32,
{
}

/// What is gathered has all ranks along the first dimension and all other
/// dimensions as they are.
pub proof fn law_gathering_multiplies_the_first_dimension(g: AllGather, dims: Vec<usize>, r: Vec<usize>, i: int)
    requires
        dims@.len() > 0,
        dims@[0] * g.comm.world_size <= usize::MAX,
        call_ensures(AllGather::gathered_shape, (&g, &dims), r),
    ensures
        r@.len() == dims@.len(),
        r@[0] == dims@[0] * g.comm.world_size,
        1 <= i < dims@.len() ==> r@[i] == dims@[i],
{
}

/// The output layer has a row for each token, in a group for each of the padded
/// vocabulary, of which ranks hold equal parts in order; scores are gathered
/// where there is more than one rank.
pub proof fn law_vocabulary_is_spread_over_the_ranks(
    in_dim: usize,
    out_dim: usize,
    vb: VarBuilderX,
    comm: Comm,
    cfg: Option<QuantConfig>,
    quant: Option<String>,
    dtype: DType,
    r: Result<VocabParallelLinear, Fp8Error>,
    padded: usize,
)
    requires
        comm.wf(),
        out_dim + comm.world_size + (2 * VOCAB_PADDING_SIZE - 2) <= usize::MAX,
        call_ensures(VocabParallelLinear::load_no_bias, (in_dim, out_dim, &vb, &comm, &cfg, &quant, dtype), r),
        call_ensures(pad_vocab_size, (out_dim, comm.world_size), padded),
        r is Ok,
    ensures
        ({
            let l = r->Ok_0;
            &&& l.all_gather is Some <==> comm.world_size > 1
            &&& l.org_vocab_size == out_dim && l.dtype == dtype
            &&& l.linear matches LinearX::Linear(d) ==> d.bias is None && d.weight.shape@.len() == 2 && d.weight.shape@[1] == in_dim
            &&& comm.world_size == 1 ==> (l.linear matches LinearX::Linear(d) ==> d.weight.shape@[0] == out_dim)
            &&& comm.world_size > 1 ==> (l.linear matches LinearX::Linear(d) ==> d.weight.shape@[0] == padded)
            &&& cut_of(l.linear) matches Some(s) ==> s.world_size == comm.world_size && s.rank == comm.rank && s.dim == 0
        }),
{
    crate::distributed::law_padded_vocab(out_dim as nat, comm.world_size as nat);
}

/// Of a table in memory, ranks take equal rows of the padded vocabulary that
/// follow each other; as many rows of zeros are added as the table lacks.
pub proof fn law_tables_in_memory_are_cut_in_order(
    table_rows: usize,
    bias: bool,
    a: Comm,
    b: Comm,
    vocab: usize,
    dtype: DType,
    here: VocabLocal,
    next: VocabLocal,
    padded: usize,
)
    requires
        a.wf(),
        b.wf(),
        a.world_size == b.world_size,
        b.rank == a.rank + 1,
        vocab + a.world_size + (2 * VOCAB_PADDING_SIZE - 2) <= usize::MAX,
        call_ensures(VocabParallelLinear::from_weight_bias, (table_rows, bias, &a, vocab, dtype), here),
        call_ensures(VocabParallelLinear::from_weight_bias, (table_rows, bias, &b, vocab, dtype), next),
        call_ensures(pad_vocab_size, (vocab, a.world_size), padded),
    ensures
        here.rows.rows.start + here.rows.rows.len == next.rows.rows.start,
        here.rows.rows.len == next.rows.rows.len,
        here.rows.rows.len * a.world_size <= padded < (here.rows.rows.len + 1) * a.world_size,
        a.rank == 0 ==> here.rows.rows.start == 0,
        table_rows >= padded ==> here.rows.pad_rows == 0,
        table_rows < padded ==> table_rows + here.rows.pad_rows == padded,
        here.bias == bias && here.org_vocab_size == vocab && here.all_gather is Some,
{
    crate::distributed::law_padded_vocab(vocab as nat, a.world_size as nat);
    let (w, n) = (a.world_size as int, padded as int / a.world_size as int);
    lemma_fundamental_div_mod(padded as int, w);
    lemma_mul_is_commutative(w, n);
    assert((n + 1) * w == n * w + w) by (nonlinear_arith);
    assert(b.rank * n == a.rank * n + n) by (nonlinear_arith)
        requires
            b.rank == a.rank + 1,
    ;
    lemma_mul_basics(n);
}

/// Gathered scores: ranks, batch rows, local vocabulary; cast to the type of the
/// layer where they have another; shaped like the input with the vocabulary
/// last where it has more than one leading dimension; cut to the tokens that
/// exist where the padded vocabulary is larger.
pub proof fn law_gathered_scores_are_shaped_like_the_input(
    l: VocabParallelLinear,
    logits: Vec<usize>,
    t: DType,
    input: Vec<usize>,
    r: Option<GatherPlan>,
    i: int,
)
    requires
        logits@.len() > 0,
        input@.len() > 0,
        call_ensures(VocabParallelLinear::forward, (&l, &logits, t, &input), r),
    ensures
        r is Some <==> l.all_gather is Some,
        r matches Some(p) ==> {
            &&& t == l.dtype ==> p.cast is None
            &&& t != l.dtype ==> p.cast == Some(l.dtype)
            &&& p.gathered.0 == l.all_gather->0.comm.world_size && p.gathered.2 == logits@.last()
            &&& logits@.len() == 2 ==> p.gathered.1 == logits@[0]
            &&& logits@.len() == 3 ==> p.gathered.1 == logits@[0] * logits@[1]
            &&& p.full_vocab == p.gathered.0 * p.gathered.2
            &&& p.shape is Some <==> input@.len() > 2
            &&& p.shape matches Some(s) ==> s@.len() == input@.len() && s@.last() == p.full_vocab && (0 <= i < input@.len() - 1 ==> s@[i]
                == input@[i])
            &&& p.keep is Some <==> p.full_vocab > l.org_vocab_size
            &&& p.keep matches Some(k) ==> k == l.org_vocab_size
        },
{
    reveal_with_fuel(product, 3);
    let lead = logits@.drop_last();
    if lead.len() == 1 {
        assert(lead.drop_last() =~= Seq::<usize>::empty());
        lemma_mul_basics(lead[0] as int);
    }
    if lead.len() == 2 {
        assert(lead.drop_last().drop_last() =~= Seq::<usize>::empty());
        assert(lead.drop_last()[0] == logits@[0]);
        lemma_mul_basics(lead[0] as int);
    }
}

/// Rearranged layers come from block-quantized files only. Where outputs are
/// cut nothing is added up; where inputs are, ranks are. Parts of one layer
/// that is cut keep its type where they are whole blocks.
pub proof fn law_rearranged_layers(
    vb: VarBuilderX,
    in_dim: usize,
    out_dim: usize,
    name: &str,
    extent: usize,
    stored: QuantType,
    comm: Comm,
    dtype: DType,
    c: Result<RestoredLinear, RestoreError>,
    r: Result<RestoredLinear, RestoreError>,
    part: Result<Span, ChunkError>,
)
    requires
        comm.wf(),
        call_ensures(load_restored_gguf_column_linear, (&vb, in_dim, out_dim, name, extent, stored, &comm, dtype), c),
        call_ensures(load_restored_gguf_row_linear, (&vb, in_dim, out_dim, name, extent, stored, &comm, dtype), r),
        call_ensures(tensor_parallel_chunk, (extent, 0, comm.rank, comm.world_size), part),
    ensures
        !vb.checkpoint.gguf ==> c == Err::<RestoredLinear, RestoreError>(RestoreError::NotGguf) && r == Err::<RestoredLinear, RestoreError>(
            RestoreError::NotGguf,
        ),
        vb.checkpoint.gguf ==> (c is Ok <==> part is Ok),
        c matches Ok(l) ==> l.dim == 0 && !l.all_reduce && l.part == part->Ok_0 && l.weight.shape@ == seq![out_dim, in_dim],
        r matches Ok(l) ==> l.dim == 1 && (l.all_reduce <==> comm.world_size > 1) && l.weight.shape@ == seq![out_dim, in_dim],
        c matches Ok(l) ==> (l.part.len as int % stored.block_elems() as int == 0 ==> l.requant == stored),
        c matches Ok(l) ==> (l.part.len as int % stored.block_elems() as int != 0 ==> l.requant == QuantType::Q8_0),
{
}

/// Of a rearranged layer with queries, keys and values, a rank keeps its part of
/// each group of rows, where that group lies: the second behind the first, the
/// third behind both.
pub proof fn law_groups_of_rows_are_cut_where_they_lie(
    vb: VarBuilderX,
    hidden: usize,
    key_dim: usize,
    value_dim: usize,
    k_heads: usize,
    v_heads: usize,
    head_v: usize,
    name: &str,
    stored: QuantType,
    comm: Comm,
    dtype: DType,
    r: Result<RestoredQkv, RestoreError>,
)
    requires
        comm.wf(),
        key_dim * 2 + value_dim <= usize::MAX,
        call_ensures(
            load_restored_gguf_merged_qkv_linear,
            (&vb, hidden, key_dim, value_dim, k_heads, v_heads, head_v, name, stored, &comm, dtype),
            r,
        ),
        r is Ok,
    ensures
        ({
            let l = r->Ok_0;
            let (a, b, c) = (l.parts@[0], l.parts@[1], l.parts@[2]);
            &&& vb.checkpoint.gguf
            &&& a.len * comm.world_size == key_dim && b.len == a.len && c.len * comm.world_size == value_dim
            &&& a.start == comm.rank * a.len && b.start == key_dim + a.start && c.start == 2 * key_dim + comm.rank * c.len
            &&& l.output_splits@[0] == a.len && l.output_splits@[1] == b.len && l.output_splits@[2] == c.len
            &&& l.weight.shape@ == seq![(2 * key_dim + value_dim) as usize, hidden]
            &&& l.heads.key_dim == key_dim && l.heads.k_heads == k_heads && l.heads.v_heads == v_heads && l.heads.head_v_dim == head_v
        }),
{
    let w = comm.world_size as int;
    if w > 1 {
        crate::math::lemma_div_exact(key_dim as int, w);
        crate::math::lemma_div_exact(value_dim as int, w);
        let (k, v) = (key_dim as int / w, value_dim as int / w);
        assert(0 <= comm.rank * k && comm.rank * k + k <= key_dim && 0 <= comm.rank * v && comm.rank * v + v <= value_dim) by (nonlinear_arith)
            requires
                k * w == key_dim,
                v * w == value_dim,
                0 <= k,
                0 <= v,
                comm.rank + 1 <= w,
        ;
    } else {
        lemma_mul_basics(key_dim as int);
        lemma_mul_basics(value_dim as int);
    }
}

} // verus!
