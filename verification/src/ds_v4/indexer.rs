//! The indexer: learned choice of compressed rows.

use super::compressor::{CompressorDecodeState, CompressorWeights, StateClear};
use super::decode_buffers::{Clear, Fill};
use super::rope_cache::{CacheError, RowCopy};
use crate::checkpoint::{dims2, DType, TensorRead, VarBuilderX};
use crate::distributed::{shard, Comm, Shard, Span};
use crate::math::{ceil_div, div_ceil};
use crate::text::{join, path_of};
use vstd::arithmetic::mul::*;
use vstd::prelude::*;

verus! {

/// The weights of the indexer of one rank: some of the heads each.
#[derive(Clone)]
pub struct IndexerWeights {
    pub wq_b: TensorRead,
    /// Scales of FP8 weights.
    pub wq_b_scale: Option<TensorRead>,
    pub weights_proj: TensorRead,
    pub compressor: CompressorWeights,
    pub index_head_dim: usize,
    pub global_index_n_heads: usize,
    pub index_n_heads: usize,
    pub index_topk: usize,
    /// Whether scores of the ranks are added up.
    pub score_all_reduce: bool,
}

/// How queries are scored.
#[derive(Debug, Clone, Copy, PartialEq, Eq)]
pub struct ScorePass {
    /// The shape of the queries while they are rotated, and when they are
    /// scored.
    pub heads: (usize, usize, usize),
    pub flat: (usize, usize),
    /// Compressed rows that are looked at.
    pub rows: usize,
    pub all_reduce: bool,
}

/// Index heads do not spread over the group.
#[derive(Debug, Clone, Copy, PartialEq, Eq, Structural)]
pub struct IndexHeadsError {
    pub index_n_heads: usize,
    pub world_size: usize,
}

/// The sizes of an indexer.
#[derive(Debug, Clone, Copy, PartialEq, Eq, Structural)]
pub struct IndexerSize {
    pub hidden_dim: usize,
    pub index_head_dim: usize,
    pub index_n_heads: usize,
    pub index_topk: usize,
    pub q_lora_rank: usize,
}

/// The name of an indexer below `prefix`.
pub open spec fn indexer_scope(prefix: Seq<char>) -> Seq<char> {
    path_of(prefix, "indexer"@)
}

/// The smaller of two numbers.
pub open spec fn smaller(a: usize, b: usize) -> usize {
    if a < b { a } else { b }
}

fn min(a: usize, b: usize) -> (r: usize)
    ensures
        r == smaller(a, b),
{
    if a < b { a } else { b }
}

impl IndexerWeights {
    /// Whether `w` are the weights of an indexer below `prefix`.
    pub open spec fn is_planned(&self, vb: &VarBuilderX, prefix: Seq<char>, size: IndexerSize, comm: Comm) -> bool {
        let scope = indexer_scope(prefix);
        let out = (size.index_n_heads * size.index_head_dim) as usize;
        let part = Shard { dim: 0, rank: comm.rank, world_size: comm.world_size };
        let scaled = vb.has(scope + ".wq_b.scale"@);
        &&& self.wq_b.reads(
            vb.spec_path(scope + ".wq_b.weight"@), seq![out, size.q_lora_rank], part, if scaled { DType::U8 } else { DType::BF16 })
        &&& self.wq_b_scale is Some <==> scaled
        &&& self.wq_b_scale matches Some(s) ==> s.reads(
            vb.spec_path(scope + ".wq_b.scale"@), seq![(out / 128), (size.q_lora_rank / 128)], part, DType::F32)
        &&& self.weights_proj.reads(
            vb.spec_path(scope + ".weights_proj.weight"@), seq![size.index_n_heads, size.hidden_dim], part, DType::BF16)
        &&& self.compressor.is_planned(vb, scope + ".compressor"@, 4, size.index_head_dim, size.hidden_dim)
        &&& self.index_head_dim == size.index_head_dim
        &&& self.global_index_n_heads == size.index_n_heads
        &&& self.index_n_heads == size.index_n_heads / comm.world_size
        &&& self.index_topk == size.index_topk
        &&& self.score_all_reduce == (comm.world_size > 1)
    }

    pub fn load(vb: &VarBuilderX, prefix: &str, size: IndexerSize, comm: &Comm) -> (r: Result<Self, IndexHeadsError>)
        requires
            comm.wf(),
            size.index_n_heads * size.index_head_dim <= usize::MAX,
            2 * size.index_head_dim <= usize::MAX,
        ensures
            if size.index_n_heads % comm.world_size != 0 {
                r == Err::<Self, IndexHeadsError>(
                    IndexHeadsError { index_n_heads: size.index_n_heads, world_size: comm.world_size })
            } else {
                r matches Ok(w) && w.is_planned(vb, prefix@, size, *comm)
            },
    {
        let ws: usize = comm.world_size();
        if size.index_n_heads % ws != 0 {
            return Err(IndexHeadsError { index_n_heads: size.index_n_heads, world_size: ws });
        }
        let out: usize = size.index_n_heads * size.index_head_dim;
        let scope = join(prefix, "indexer");
        let part = shard(0, comm.rank(), ws);
        let scale_name = scope.clone().concat(".wq_b.scale");
        let scaled = vb.has_key(scale_name.as_str());
        let wq_b = vb.read(
            scope.clone().concat(".wq_b.weight").as_str(), dims2(out, size.q_lora_rank), part,
            if scaled { DType::U8 } else { DType::BF16 });
        let wq_b_scale = if scaled {
            Some(vb.read(scale_name.as_str(), dims2(out / 128, size.q_lora_rank / 128), part, DType::F32))
        } else {
            None
        };
        let weights_proj = vb.read(
            scope.clone().concat(".weights_proj.weight").as_str(), dims2(size.index_n_heads, size.hidden_dim), part, DType::BF16);
        let c_scope = scope.concat(".compressor");
        match CompressorWeights::load(vb, c_scope.as_str(), 4, size.index_head_dim, size.hidden_dim) {
            Some(compressor) => Ok(
                IndexerWeights {
                    wq_b,
                    wq_b_scale,
                    weights_proj,
                    compressor,
                    index_head_dim: size.index_head_dim,
                    global_index_n_heads: size.index_n_heads,
                    index_n_heads: size.index_n_heads / ws,
                    index_topk: size.index_topk,
                    score_all_reduce: ws > 1,
                },
            ),
            None => Err(IndexHeadsError { index_n_heads: size.index_n_heads, world_size: ws }),
        }
    }

    /// How `seq_len` queries are scored against `rows` compressed rows.
    pub open spec fn scored(&self, seq_len: usize, rows: usize) -> ScorePass {
        ScorePass {
            heads: (seq_len, self.index_n_heads, self.index_head_dim),
            flat: (seq_len, (self.index_n_heads * self.index_head_dim) as usize),
            rows,
            all_reduce: self.score_all_reduce,
        }
    }

    fn score(&self, seq_len: usize, rows: usize) -> (r: ScorePass)
        requires
            self.index_n_heads * self.index_head_dim <= usize::MAX,
        ensures
            r == self.scored(seq_len, rows),
    {
        ScorePass {
            heads: (seq_len, self.index_n_heads, self.index_head_dim),
            flat: (seq_len, self.index_n_heads * self.index_head_dim),
            rows,
            all_reduce: self.score_all_reduce,
        }
    }

    /// Scores of a prefill against its own compressed rows.
    pub fn scores_prefill(&self, seq_len: usize, compressed_len: usize) -> (r: ScorePass)
        requires
            self.index_n_heads * self.index_head_dim <= usize::MAX,
        ensures
            r == self.scored(seq_len, compressed_len),
    {
        self.score(seq_len, compressed_len)
    }

    /// Scores of a prefill against cached rows, at least one.
    pub fn scores_prefill_against_cache(&self, seq_len: usize, compressed_len: usize) -> (r: ScorePass)
        requires
            self.index_n_heads * self.index_head_dim <= usize::MAX,
        ensures
            r == self.scored(seq_len, if compressed_len > 1 { compressed_len } else { 1 }),
    {
        self.score(seq_len, if compressed_len > 1 { compressed_len } else { 1 })
    }

    /// Scores of one decoded token.
    pub fn scores_decode(&self, compressed_len: usize) -> (r: ScorePass)
        requires
            self.index_n_heads * self.index_head_dim <= usize::MAX,
        ensures
            r == self.scored(1, compressed_len),
    {
        self.score(1, compressed_len)
    }

    /// Rows that are chosen of `compressed_len`.
    pub fn topk_prefill(&self, compressed_len: usize) -> (r: usize)
        ensures
            r == smaller(self.index_topk, compressed_len),
            r <= compressed_len,
    {
        min(self.index_topk, compressed_len)
    }

    /// Rows that are looked at, at least one, and rows that are chosen.
    pub fn topk_prefill_from_pos(&self, compressed_len: usize) -> (r: (usize, usize))
        ensures
            r.0 == if compressed_len > 1 { compressed_len } else { 1 },
            r.1 == smaller(self.index_topk, r.0),
    {
        let len: usize = if compressed_len > 1 { compressed_len } else { 1 };
        (len, min(self.index_topk, len))
    }

    /// Rows that are chosen of `compressed_len` in a decode step.
    pub fn topk_decode(&self, compressed_len: usize) -> (r: usize)
        ensures
            r == smaller(self.index_topk, compressed_len),
    {
        min(self.index_topk, compressed_len)
    }
}

/// The clearing of the running state of an indexer.
#[derive(Debug, Clone, Copy, PartialEq, Eq, Structural)]
pub struct IndexerClear {
    pub state: StateClear,
    pub rows: Clear,
}

/// The running state of an indexer.
#[derive(Debug, Clone, Copy, PartialEq, Eq, Structural)]
pub struct IndexerDecodeState {
    pub compressor_state: CompressorDecodeState,
    pub index_head_dim: usize,
    pub compressed_len: usize,
    pub max_compressed_len: usize,
}

impl IndexerDecodeState {
    /// All rows fit the machine and what was written fits the cache.
    pub open spec fn wf(&self) -> bool {
        self.max_compressed_len * self.index_head_dim <= usize::MAX && self.compressed_len <= self.max_compressed_len
    }

    /// Rows for `max_seq_len` tokens, four each.
    pub open spec fn capacity(max_seq_len: usize) -> int {
        let n = ceil_div(max_seq_len as int, 4);
        if n > 1 { n } else { 1 }
    }

    pub fn new(index_head_dim: usize, max_seq_len: usize) -> (r: Self)
        requires
            2 * index_head_dim <= usize::MAX,
            max_seq_len + 4 <= usize::MAX,
            Self::capacity(max_seq_len) * index_head_dim <= usize::MAX,
        ensures
            r.wf(),
            r.max_compressed_len == Self::capacity(max_seq_len),
            r.compressed_len == 0,
            r.index_head_dim == index_head_dim,
            r.compressor_state.slots == 8,
            r.compressor_state.state_dim == 2 * index_head_dim,
    {
        let n: usize = div_ceil(max_seq_len, 4);
        IndexerDecodeState {
            compressor_state: CompressorDecodeState::new(4, index_head_dim),
            index_head_dim,
            compressed_len: 0,
            max_compressed_len: if n > 1 { n } else { 1 },
        }
    }

    /// Rows 0 and the compressor cleared, as a new state has them.
    pub open spec fn cleared(self) -> IndexerClear {
        IndexerClear {
            state: self.compressor_state.cleared(),
            rows: Clear { rows: self.max_compressed_len, cols: self.index_head_dim, with: Fill::Zero },
        }
    }

    /// Clears the state; its buffers stay.
    pub fn reset(&mut self) -> (r: IndexerClear)
        requires
            old(self).wf(),
        ensures
            final(self).wf(),
            *final(self) == (IndexerDecodeState { compressed_len: 0, ..*old(self) }),
            r == old(self).cleared(),
    {
        self.compressed_len = 0;
        IndexerClear {
            state: self.compressor_state.reset(),
            rows: Clear { rows: self.max_compressed_len, cols: self.index_head_dim, with: Fill::Zero },
        }
    }

    fn copy(&self, len: usize, row: usize) -> (r: RowCopy)
        requires
            self.wf(),
            row <= self.max_compressed_len,
        ensures
            r == (RowCopy { from: Span { start: 0, len }, row, offset: (row * self.index_head_dim) as usize }),
            r.offset == row * self.index_head_dim,
    {
        proof {
            lemma_mul_inequality(row as int, self.max_compressed_len as int, self.index_head_dim as int);
        }
        RowCopy { from: Span { start: 0, len }, row, offset: row * self.index_head_dim }
    }

    /// The copy of `n` rows of a prefill; `None` where there are none.
    pub fn seed_from_prefill(&mut self, n: usize) -> (r: Result<Option<RowCopy>, CacheError>)
        requires
            old(self).wf(),
        ensures
            final(self).wf(),
            n > old(self).max_compressed_len ==> *final(self) == *old(self) && r
                == Err::<Option<RowCopy>, CacheError>(CacheError::TooMany { len: n, capacity: old(self).max_compressed_len }),
            n <= old(self).max_compressed_len ==> {
                &&& *final(self) == (IndexerDecodeState { compressed_len: n, ..*old(self) })
                &&& r == Ok::<Option<RowCopy>, CacheError>(
                    if n > 0 { Some(RowCopy { from: Span { start: 0, len: n }, row: 0, offset: 0 }) } else { None })
            },
    {
        if n > self.max_compressed_len {
            return Err(CacheError::TooMany { len: n, capacity: self.max_compressed_len });
        }
        self.compressed_len = n;
        Ok(if n > 0 { Some(RowCopy { from: Span { start: 0, len: n }, row: 0, offset: 0 }) } else { None })
    }

    /// The copy of the next row.
    pub fn append_compressed(&mut self) -> (r: Result<RowCopy, CacheError>)
        requires
            old(self).wf(),
        ensures
            final(self).wf(),
            Self::written(*old(self), *final(self), r, old(self).compressed_len),
    {
        let i: usize = self.compressed_len;
        self.write_compressed_at(i)
    }

    /// Whether a write of one row at `index` led from `before` to `after`.
    pub open spec fn written(before: Self, after: Self, r: Result<RowCopy, CacheError>, index: usize) -> bool {
        if index >= before.max_compressed_len {
            after == before && r
                == Err::<RowCopy, CacheError>(CacheError::Row { row: index, capacity: before.max_compressed_len })
        } else {
            &&& after == (IndexerDecodeState {
                compressed_len: if before.compressed_len > index { before.compressed_len } else { (index + 1) as usize },
                ..before
            })
            &&& r == Ok::<RowCopy, CacheError>(
                RowCopy { from: Span { start: 0, len: 1 }, row: index, offset: (index * before.index_head_dim) as usize })
        }
    }

    /// The copy of one row to a given place.
    pub fn write_compressed_at(&mut self, index: usize) -> (r: Result<RowCopy, CacheError>)
        requires
            old(self).wf(),
        ensures
            final(self).wf(),
            Self::written(*old(self), *final(self), r, index),
    {
        if index >= self.max_compressed_len {
            return Err(CacheError::Row { row: index, capacity: self.max_compressed_len });
        }
        let c = self.copy(1, index);
        if index + 1 > self.compressed_len {
            self.compressed_len = index + 1;
        }
        Ok(c)
    }

    /// The copy of `n` rows from `start_row` on; `None` where there are none.
    pub fn append_compressed_rows_at(&mut self, n: usize, start_row: usize) -> (r: Result<Option<RowCopy>, CacheError>)
        requires
            old(self).wf(),
            start_row + n <= usize::MAX,
        ensures
            final(self).wf(),
            start_row + n > old(self).max_compressed_len ==> *final(self) == *old(self) && r
                == Err::<Option<RowCopy>, CacheError>(
                    CacheError::TooMany { len: (start_row + n) as usize, capacity: old(self).max_compressed_len }),
            start_row + n <= old(self).max_compressed_len ==> {
                &&& *final(self) == (IndexerDecodeState {
                    compressed_len: if old(self).compressed_len > start_row + n {
                        old(self).compressed_len
                    } else {
                        (start_row + n) as usize
                    },
                    ..*old(self)
                })
                &&& r == Ok::<Option<RowCopy>, CacheError>(
                    if n > 0 {
                        Some(RowCopy {
                            from: Span { start: 0, len: n },
                            row: start_row,
                            offset: (start_row * old(self).index_head_dim) as usize,
                        })
                    } else {
                        None
                    })
            },
    {
        let end: usize = start_row + n;
        if end > self.max_compressed_len {
            return Err(CacheError::TooMany { len: end, capacity: self.max_compressed_len });
        }
        let c = if n > 0 { Some(self.copy(n, start_row)) } else { None };
        if end > self.compressed_len {
            self.compressed_len = end;
        }
        Ok(c)
    }
}

/// Appending row after row and writing each at its own index come to the same.
pub proof fn law_append_is_write_at_end(before: IndexerDecodeState, after: IndexerDecodeState, r: Result<RowCopy, CacheError>)
    requires
        before.wf(),
        before.compressed_len < before.max_compressed_len,
        IndexerDecodeState::written(before, after, r, before.compressed_len),
    ensures
        after.compressed_len == before.compressed_len + 1,
        r is Ok && r->Ok_0.row == before.compressed_len,
{
}

/// Every token of a sequence that fits has a compressed row inside the cache.
pub proof fn law_capacity_covers_the_sequence(max_seq_len: usize, pos: int)
    requires
        0 <= pos < max_seq_len,
    ensures
        0 <= pos / 4 < IndexerDecodeState::capacity(max_seq_len),
{
}

/// The heads of all ranks are the heads of the indexer, the same number on
/// each; scores are added up where there is more than one rank. FP8 queries
/// come with a scale for each block of 128 by 128.
pub proof fn law_index_heads_spread_evenly(
    vb: VarBuilderX,
    prefix: &str,
    size: IndexerSize,
    comm: Comm,
    r: Result<IndexerWeights, IndexHeadsError>,
)
    requires
        comm.wf(),
        call_ensures(IndexerWeights::load, (&vb, prefix, size, &comm), r),
    ensures
        r is Err <==> size.index_n_heads as int % comm.world_size as int != 0,
        r matches Ok(w) ==> {
            let scope = path_of(prefix@, "indexer"@);
            let part = Shard { dim: 0, rank: comm.rank, world_size: comm.world_size };
            &&& w.index_n_heads * comm.world_size == size.index_n_heads
            &&& w.index_head_dim == size.index_head_dim && w.index_topk == size.index_topk
            &&& w.score_all_reduce <==> comm.world_size != 1
            &&& w.wq_b.path@ == vb.spec_path(scope + ".wq_b.weight"@)
            &&& w.wq_b.shape@ == seq![(size.index_n_heads * size.index_head_dim) as usize, size.q_lora_rank]
            &&& w.wq_b.shard == part && w.weights_proj.shard == part
            &&& w.weights_proj.path@ == vb.spec_path(scope + ".weights_proj.weight"@)
            &&& w.weights_proj.shape@ == seq![size.index_n_heads, size.hidden_dim]
            &&& w.weights_proj.dtype == DType::BF16
            &&& w.wq_b_scale is Some <==> vb.has(scope + ".wq_b.scale"@)
            &&& w.wq_b_scale is None ==> w.wq_b.dtype == DType::BF16
            &&& w.wq_b_scale matches Some(s) ==> w.wq_b.dtype == DType::U8 && s.dtype == DType::F32 && s.shard == part
            &&& w.compressor.ratio == 4 && w.compressor.head_dim == size.index_head_dim
        },
{
    if size.index_n_heads % comm.world_size == 0 {
        crate::math::lemma_div_exact(size.index_n_heads as int, comm.world_size as int);
    }
}

/// As many rows are chosen as the indexer is made for, or all where there are
/// fewer; passes over cached rows look at one row at least.
pub proof fn law_chosen_rows_are_among_those_looked_at(
    w: IndexerWeights,
    n: usize,
    prefill: usize,
    decode: usize,
    cached: (usize, usize),
)
    requires
        call_ensures(IndexerWeights::topk_prefill, (&w, n), prefill),
        call_ensures(IndexerWeights::topk_decode, (&w, n), decode),
        call_ensures(IndexerWeights::topk_prefill_from_pos, (&w, n), cached),
    ensures
        prefill <= n && prefill <= w.index_topk && (prefill == n || prefill == w.index_topk),
        decode == prefill,
        n > 0 ==> cached == (n, prefill),
        n == 0 ==> cached.0 == 1 && cached.1 <= 1 && (cached.1 == 0 <==> w.index_topk == 0),
{
}

/// Queries are scored head by head against the rows that are asked for, the
/// heads of a token side by side.
pub proof fn law_scores_cover_the_rows(
    w: IndexerWeights,
    seq_len: usize,
    rows: usize,
    own: ScorePass,
    cached: ScorePass,
    one: ScorePass,
)
    requires
        w.index_n_heads * w.index_head_dim <= usize::MAX,
        call_ensures(IndexerWeights::scores_prefill, (&w, seq_len, rows), own),
        call_ensures(IndexerWeights::scores_prefill_against_cache, (&w, seq_len, rows), cached),
        call_ensures(IndexerWeights::scores_decode, (&w, rows), one),
    ensures
        own.heads.0 == seq_len && own.flat.0 == seq_len,
        own.heads.1 == w.index_n_heads && own.heads.2 == w.index_head_dim,
        own.flat.1 == own.heads.1 * own.heads.2,
        own.rows == rows && own.all_reduce == w.score_all_reduce,
        rows > 0 ==> cached == own,
        rows == 0 ==> cached.rows == 1 && cached.heads == own.heads && cached.flat == own.flat,
        one.heads == (1usize, own.heads.1, own.heads.2) && one.flat == (1usize, own.flat.1) && one.rows == rows,
        one.all_reduce == own.all_reduce,
{
}

/// The cache of an indexer has a row for each four tokens, and none to spare.
pub proof fn law_indexer_has_a_row_for_each_block(index_head_dim: usize, max_seq_len: usize, r: IndexerDecodeState)
    requires
        call_ensures(IndexerDecodeState::new, (index_head_dim, max_seq_len), r),
        max_seq_len > 0,
    ensures
        4 * (r.max_compressed_len - 1) < max_seq_len <= 4 * r.max_compressed_len,
        r.compressed_len == 0,
        r.index_head_dim == index_head_dim,
        r.compressor_state.slots == 8 && r.compressor_state.state_dim == 2 * index_head_dim,
{
}

/// Writing rows puts them where they belong, counts them, never forgets one
/// that was written before, and changes nothing where there is no room.
pub proof fn law_indexer_writes_are_counted(before: IndexerDecodeState, n: usize, at: usize)
    requires
        before.wf(),
        n + at <= usize::MAX,
    ensures
        forall|s: &mut IndexerDecodeState, r: Result<Option<RowCopy>, CacheError>| *s == before
            && #[trigger] call_ensures(IndexerDecodeState::seed_from_prefill, (s, n), r) ==> {
            &&& r is Ok <==> n <= before.max_compressed_len
            &&& r is Ok ==> final(s).compressed_len == n && final(s).max_compressed_len == before.max_compressed_len
            &&& r is Err ==> *final(s) == before
            &&& r matches Ok(c) ==> (c is Some <==> n > 0)
            &&& r matches Ok(Some(c)) ==> c.row == 0 && c.offset == 0 && c.from.start == 0 && c.from.len == n
        },
        forall|s: &mut IndexerDecodeState, r: Result<RowCopy, CacheError>| *s == before
            && #[trigger] call_ensures(IndexerDecodeState::write_compressed_at, (s, at), r) ==> {
            &&& r is Ok <==> at < before.max_compressed_len
            &&& r is Err ==> *final(s) == before
            &&& r matches Ok(c) ==> {
                &&& c.row == at && c.offset == at * before.index_head_dim && c.from.start == 0 && c.from.len == 1
                &&& final(s).compressed_len >= before.compressed_len && final(s).compressed_len > at
                &&& final(s).compressed_len == before.compressed_len || final(s).compressed_len == at + 1
            }
        },
        forall|s: &mut IndexerDecodeState, r: Result<Option<RowCopy>, CacheError>| *s == before
            && #[trigger] call_ensures(IndexerDecodeState::append_compressed_rows_at, (s, n, at), r) ==> {
            &&& r is Ok <==> at + n <= before.max_compressed_len
            &&& r is Err ==> *final(s) == before
            &&& r is Ok ==> final(s).compressed_len >= before.compressed_len && final(s).compressed_len >= at + n
            &&& r is Ok ==> final(s).compressed_len == before.compressed_len || final(s).compressed_len == at + n
            &&& r matches Ok(c) ==> (c is Some <==> n > 0)
            &&& r matches Ok(Some(c)) ==> c.row == at && c.offset == at * before.index_head_dim && c.from.start == 0 && c.from.len == n
        },
{
    assert(at < before.max_compressed_len ==> at * before.index_head_dim <= usize::MAX) by {
        if at < before.max_compressed_len {
            lemma_mul_inequality(at as int, before.max_compressed_len as int, before.index_head_dim as int);
        }
    }
    assert(at + n <= before.max_compressed_len ==> at * before.index_head_dim <= usize::MAX) by {
        if at + n <= before.max_compressed_len {
            lemma_mul_inequality(at as int, before.max_compressed_len as int, before.index_head_dim as int);
        }
    }
}

/// A row that is appended goes behind those that are kept, at its own offset, and
/// is counted; where there is no room nothing changes. Clearing keeps the buffers
/// and covers them in full.
pub proof fn law_rows_are_appended_behind_the_others(before: IndexerDecodeState)
    requires
        before.wf(),
    ensures
        forall|s: &mut IndexerDecodeState, r: Result<RowCopy, CacheError>|
            *s == before && #[trigger] call_ensures(IndexerDecodeState::append_compressed, (s,), r) ==> {
                &&& before.compressed_len < before.max_compressed_len ==> final(s).compressed_len == before.compressed_len + 1
                &&& before.compressed_len < before.max_compressed_len ==> (r matches Ok(c) && c.row == before.compressed_len && c.from.len == 1
                    && c.from.start == 0 && c.offset == c.row * before.index_head_dim)
                &&& before.compressed_len >= before.max_compressed_len ==> r is Err && *final(s) == before
                &&& final(s).index_head_dim == before.index_head_dim && final(s).max_compressed_len == before.max_compressed_len
                &&& final(s).compressor_state == before.compressor_state
            },
        forall|s: &mut IndexerDecodeState, r: IndexerClear|
            *s == before && #[trigger] call_ensures(IndexerDecodeState::reset, (s,), r) ==> {
                &&& final(s).compressed_len == 0
                &&& final(s).index_head_dim == before.index_head_dim && final(s).max_compressed_len == before.max_compressed_len
                &&& r.rows.rows == before.max_compressed_len && r.rows.cols == before.index_head_dim && r.rows.with == Fill::Zero
                &&& r.state.values.with == Fill::Zero && r.state.scores.with == Fill::MinusInfinity
                &&& r.state.values.rows == before.compressor_state.slots && r.state.scores.rows == before.compressor_state.slots
                &&& r.state.values.cols == before.compressor_state.state_dim && r.state.scores.cols == before.compressor_state.state_dim
            },
{
    if before.compressed_len < before.max_compressed_len {
        lemma_mul_inequality(before.compressed_len as int, before.max_compressed_len as int, before.index_head_dim as int);
        lemma_mul_nonnegative(before.compressed_len as int, before.index_head_dim as int);
    }
}

} // verus!
