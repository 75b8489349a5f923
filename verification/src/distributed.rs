//! Tensor-parallel groups: who holds which part of a weight.

use crate::math::lemma_div_exact;
use vstd::arithmetic::div_mod::*;
use vstd::arithmetic::mul::*;
use vstd::prelude::*;

verus! {

/// A place in a tensor-parallel group.
#[derive(Debug, Clone, Copy, PartialEq, Eq, Structural)]
pub struct Comm {
    pub rank: usize,
    pub world_size: usize,
}

impl Comm {
    /// The rank is one of the group.
    pub open spec fn wf(&self) -> bool {
        self.rank < self.world_size
    }

    /// The group of a single rank.
    pub fn default() -> (r: Self)
        ensures
            r.wf(),
            r.rank == 0,
            r.world_size == 1,
    {
        Comm { rank: 0, world_size: 1 }
    }

    pub fn dim(&self) -> (r: usize)
        ensures
            r == 0,
    {
        0
    }

    pub fn rank(&self) -> (r: usize)
        ensures
            r == self.rank,
    {
        self.rank
    }

    pub fn world_size(&self) -> (r: usize)
        ensures
            r == self.world_size,
    {
        self.world_size
    }
}

/// The identifier that the ranks of a group share.
#[derive(Debug, Clone, Copy)]
pub struct Id {
    pub internal: [i8; 128],
}

impl Id {
    /// The identifier as bytes: each character kept bit for bit.
    pub fn as_bytes(&self) -> (r: Vec<u8>)
        ensures
            r@.len() == 128,
            forall|i: int| 0 <= i < 128 ==> #[trigger] r@[i] == self.internal@[i] as u8,
    {
        let mut out: Vec<u8> = Vec::new();
        let mut i: usize = 0;
        while i < 128
            invariant
                i <= 128,
                out@.len() == i,
                forall|j: int| 0 <= j < i ==> #[trigger] out@[j] == self.internal@[j] as u8,
            decreases 128 - i,
        {
            out.push(self.internal[i] as u8);
            i = i + 1;
        }
        out
    }
}

/// One part of a tensor that is cut into `world_size` equal parts along `dim`.
#[derive(Debug, Clone, Copy, PartialEq, Eq, Structural)]
pub struct Shard {
    pub dim: usize,
    pub rank: usize,
    pub world_size: usize,
}

impl Shard {
    /// The part that is the whole tensor.
    pub open spec fn whole() -> Self {
        Shard { dim: 0, rank: 0, world_size: 1 }
    }
}

impl Default for Shard {
    fn default() -> (r: Self)
        ensures
            r == Shard::whole(),
    {
        Shard { dim: 0, rank: 0, world_size: 1 }
    }
}

pub fn shard(dim: usize, rank: usize, world_size: usize) -> (r: Shard)
    ensures
        r == (Shard { dim, rank, world_size }),
{
    Shard { dim, rank, world_size }
}

/// Consecutive indices along one dimension.
#[derive(Debug, Clone, Copy, PartialEq, Eq, Structural)]
pub struct Span {
    pub start: usize,
    pub len: usize,
}

/// Why a tensor cannot be cut into equal parts.
#[derive(Debug, Clone, Copy, PartialEq, Eq, Structural)]
pub enum ChunkError {
    NotDivisible { dim: usize, size: usize, world_size: usize },
    RankOutOfRange { rank: usize, world_size: usize },
}

/// The indices along a dimension of `dim_size` that `rank` of `world_size`
/// holds: all of them in a group of one, else one of the equal parts.
pub open spec fn chunk_of(dim_size: usize, dim: usize, rank: usize, world_size: usize) -> Result<Span, ChunkError> {
    if world_size <= 1 {
        Ok(Span { start: 0, len: dim_size })
    } else if dim_size % world_size != 0 {
        Err(ChunkError::NotDivisible { dim, size: dim_size, world_size })
    } else if dim_size > 0 && rank >= world_size {
        Err(ChunkError::RankOutOfRange { rank, world_size })
    } else {
        Ok(Span { start: (rank * (dim_size / world_size)) as usize, len: dim_size / world_size })
    }
}

/// The indices along a dimension of `dim_size` that `rank` of `world_size` holds.
pub fn tensor_parallel_chunk(
    dim_size: usize,
    dim: usize,
    rank: usize,
    world_size: usize,
) -> (r: Result<Span, ChunkError>)
    ensures
        r == chunk_of(dim_size, dim, rank, world_size),
{
    if world_size <= 1 {
        return Ok(Span { start: 0, len: dim_size });
    }
    if dim_size % world_size != 0 {
        return Err(ChunkError::NotDivisible { dim, size: dim_size, world_size });
    }
    if dim_size == 0 {
        proof {
            lemma_basic_div(0, world_size as int);
            assert(rank * 0 == 0);
        }
        return Ok(Span { start: 0, len: 0 });
    }
    if rank >= world_size {
        return Err(ChunkError::RankOutOfRange { rank, world_size });
    }
    let chunk: usize = dim_size / world_size;
    proof {
        lemma_div_exact(dim_size as int, world_size as int);
        lemma_mul_inequality(rank as int, world_size as int, chunk as int);
        lemma_mul_is_commutative(chunk as int, world_size as int);
    }
    Ok(Span { start: rank * chunk, len: chunk })
}

/// The parts of all ranks cover a divisible dimension, each index once.
pub proof fn law_chunks_partition(dim_size: nat, world_size: nat, index: nat)
    requires
        world_size > 0,
        dim_size % world_size == 0,
        index < dim_size,
    ensures
        ({
            let chunk = dim_size / world_size;
            let owner = index / chunk;
            &&& owner < world_size
            &&& owner * chunk <= index < owner * chunk + chunk
            &&& forall|r: nat| #[trigger] (r * chunk) <= index < r * chunk + chunk ==> r == owner
        }),
{
    let chunk = (dim_size / world_size) as int;
    lemma_div_exact(dim_size as int, world_size as int);
    assert(chunk > 0) by (nonlinear_arith)
        requires
            chunk * world_size == dim_size,
            dim_size > 0,
            world_size > 0,
            chunk >= 0,
    ;
    lemma_fundamental_div_mod(index as int, chunk);
    let owner = index as int / chunk;
    assert(owner * chunk <= index < owner * chunk + chunk) by {
        lemma_mul_is_commutative(chunk, owner);
        lemma_mod_bound(index as int, chunk);
    }
    assert(owner < world_size) by (nonlinear_arith)
        requires
            owner * chunk <= index,
            index < dim_size,
            chunk * world_size == dim_size,
            chunk > 0,
    ;
    assert forall|r: nat| #[trigger] (r * (dim_size / world_size)) <= index < r * (dim_size / world_size) + (dim_size / world_size) implies r == owner by {
        assert(r * chunk <= index < r * chunk + chunk);
        lemma_fundamental_div_mod_converse(index as int, chunk, r as int, index - r * chunk);
    }
}

/// Why key-value heads cannot be spread over a group.
#[derive(Debug, Clone, Copy, PartialEq, Eq, Structural)]
pub enum KvShardError {
    NoHeads,
    EmptyGroup,
    RankOutOfRange { rank: usize, world_size: usize },
    /// More heads than ranks, not divisible.
    NotPartitioned { heads: usize, world_size: usize },
    /// Fewer heads than ranks, not divisible.
    NotReplicated { heads: usize, world_size: usize },
}

/// The local head count and the part of the key-value weights that a rank
/// holds.
pub open spec fn kv_head_shard_of(total: usize, rank: usize, world_size: usize) -> Result<(usize, Shard), KvShardError> {
    if total == 0 {
        Err(KvShardError::NoHeads)
    } else if world_size == 0 {
        Err(KvShardError::EmptyGroup)
    } else if rank >= world_size {
        Err(KvShardError::RankOutOfRange { rank, world_size })
    } else if total >= world_size {
        if total % world_size != 0 {
            Err(KvShardError::NotPartitioned { heads: total, world_size })
        } else {
            Ok((total / world_size, Shard { dim: 0, rank, world_size }))
        }
    } else if world_size % total != 0 {
        Err(KvShardError::NotReplicated { heads: total, world_size })
    } else {
        Ok((1, Shard { dim: 0, rank: rank / (world_size / total), world_size: total }))
    }
}

/// Local key-value heads of a rank, and the part of the weights that holds
/// them.
///
/// With fewer heads than ranks each head is held by consecutive ranks, as the
/// query heads are.
pub fn kv_head_shard(total_num_kv_heads: usize, rank: usize, world_size: usize) -> (r: Result<(usize, Shard), KvShardError>)
    ensures
        r == kv_head_shard_of(total_num_kv_heads, rank, world_size),
{
    if total_num_kv_heads == 0 {
        return Err(KvShardError::NoHeads);
    }
    if world_size == 0 {
        return Err(KvShardError::EmptyGroup);
    }
    if rank >= world_size {
        return Err(KvShardError::RankOutOfRange { rank, world_size });
    }
    if total_num_kv_heads >= world_size {
        if total_num_kv_heads % world_size != 0 {
            return Err(KvShardError::NotPartitioned { heads: total_num_kv_heads, world_size });
        }
        Ok((total_num_kv_heads / world_size, shard(0, rank, world_size)))
    } else {
        if world_size % total_num_kv_heads != 0 {
            return Err(KvShardError::NotReplicated { heads: total_num_kv_heads, world_size });
        }
        let ranks_per_kv_head: usize = world_size / total_num_kv_heads;
        proof {
            lemma_div_exact(world_size as int, total_num_kv_heads as int);
            assert(ranks_per_kv_head > 0) by (nonlinear_arith)
                requires
                    ranks_per_kv_head * total_num_kv_heads == world_size,
                    world_size > 0,
            ;
        }
        Ok((1, shard(0, rank / ranks_per_kv_head, total_num_kv_heads)))
    }
}

/// The key-value head that a rank's query heads attend with is one of the
/// heads that the rank holds.
///
/// Query heads are cut into consecutive ranges over the ranks, and
/// `queries / kv` consecutive query heads share a key-value head.
pub proof fn law_query_heads_find_their_kv_head(queries: usize, kv: usize, rank: usize, world_size: usize, head: usize)
    requires
        kv_head_shard_of(kv, rank, world_size) is Ok,
        queries > 0,
        queries % world_size == 0,
        queries % kv == 0,
        head as int / (queries as int / world_size as int) == rank,
    ensures
        ({
            let (local, part) = kv_head_shard_of(kv, rank, world_size)->Ok_0;
            let kv_head = head as int / (queries as int / kv as int);
            &&& part.rank * local <= kv_head < part.rank * local + local
            &&& part.world_size * local == kv
        }),
{
    let (local, part) = kv_head_shard_of(kv, rank, world_size)->Ok_0;
    let per_rank = queries as int / world_size as int;
    let per_head = queries as int / kv as int;
    lemma_div_exact(queries as int, world_size as int);
    lemma_div_exact(queries as int, kv as int);
    assert(per_rank > 0 && per_head > 0) by (nonlinear_arith)
        requires
            per_rank * world_size == queries,
            per_head * kv == queries,
            queries > 0,
            world_size > 0,
            kv > 0,
    ;
    let kv_head = head as int / per_head;
    if kv >= world_size {
        let n = kv as int / world_size as int;
        lemma_div_exact(kv as int, world_size as int);
        assert(n > 0) by (nonlinear_arith)
            requires
                n * world_size == kv,
                kv > 0,
                world_size > 0,
        ;
        assert(per_rank == per_head * n) by (nonlinear_arith)
            requires
                per_rank * world_size == queries,
                per_head * kv == queries,
                n * world_size == kv,
                world_size > 0,
        ;
        lemma_div_denominator(head as int, per_head, n);
        assert(kv_head / n == rank);
        lemma_fundamental_div_mod(kv_head, n);
        lemma_mod_bound(kv_head, n);
        lemma_mul_is_commutative(n, rank as int);
        assert(world_size * n == kv) by {
            lemma_mul_is_commutative(n, world_size as int);
        }
    } else {
        let n = world_size as int / kv as int;
        lemma_div_exact(world_size as int, kv as int);
        assert(n > 0) by (nonlinear_arith)
            requires
                n * kv == world_size,
                world_size > 0,
        ;
        assert(per_head == per_rank * n) by (nonlinear_arith)
            requires
                per_rank * world_size == queries,
                per_head * kv == queries,
                n * kv == world_size,
                kv > 0,
        ;
        lemma_div_denominator(head as int, per_rank, n);
        assert(kv_head == rank as int / n);
    }
}

/// Padding unit of the vocabulary.
pub const VOCAB_PADDING_SIZE: usize = 64;

/// `n` rounded up to a multiple of `unit`.
pub open spec fn round_up(n: int, unit: int) -> int {
    (n + unit - 1) / unit * unit
}

/// The vocabulary padded to whole units, then to a multiple of the group,
/// then to whole units again.
pub open spec fn padded_vocab(vocab_size: int, world_size: int) -> int {
    round_up(round_up(round_up(vocab_size, VOCAB_PADDING_SIZE as int), world_size), VOCAB_PADDING_SIZE as int)
}

proof fn lemma_round_up(n: int, unit: int)
    requires
        unit > 0,
        n >= 0,
    ensures
        n <= round_up(n, unit) < n + unit,
        round_up(n, unit) % unit == 0,
        (n + unit - 1) / unit >= 0,
{
    let q = (n + unit - 1) / unit;
    lemma_fundamental_div_mod(n + unit - 1, unit);
    lemma_mod_bound(n + unit - 1, unit);
    lemma_mul_is_commutative(q, unit);
    lemma_mod_multiples_basic(q, unit);
    lemma_div_pos_is_pos(n + unit - 1, unit);
}

/// Vocabulary rows after padding.
pub fn pad_vocab_size(vocab_size: usize, world_size: usize) -> (r: usize)
    requires
        world_size > 0,
        vocab_size + world_size + (2 * VOCAB_PADDING_SIZE - 2) <= usize::MAX,
    ensures
        r == padded_vocab(vocab_size as int, world_size as int),
{
    proof {
        lemma_round_up(vocab_size as int, VOCAB_PADDING_SIZE as int);
        let a = round_up(vocab_size as int, VOCAB_PADDING_SIZE as int);
        lemma_round_up(a, world_size as int);
        lemma_round_up(round_up(a, world_size as int), VOCAB_PADDING_SIZE as int);
    }
    let padded: usize = ((vocab_size + VOCAB_PADDING_SIZE - 1) / VOCAB_PADDING_SIZE) * VOCAB_PADDING_SIZE;
    let per_rank: usize = ((padded + world_size - 1) / world_size) * world_size;
    ((per_rank + VOCAB_PADDING_SIZE - 1) / VOCAB_PADDING_SIZE) * VOCAB_PADDING_SIZE
}

/// Padding only adds rows, comes in whole units, and stops short of two units
/// and a group. Where the group size divides the padding unit, every rank
/// gets the same number of rows.
pub proof fn law_padded_vocab(vocab_size: nat, world_size: nat)
    requires
        world_size > 0,
    ensures
        vocab_size <= padded_vocab(vocab_size as int, world_size as int),
        padded_vocab(vocab_size as int, world_size as int) < vocab_size + world_size + 2 * VOCAB_PADDING_SIZE,
        padded_vocab(vocab_size as int, world_size as int) % (VOCAB_PADDING_SIZE as int) == 0,
        VOCAB_PADDING_SIZE as int % (world_size as int) == 0
            ==> padded_vocab(vocab_size as int, world_size as int) % (world_size as int) == 0,
{
    lemma_round_up(vocab_size as int, VOCAB_PADDING_SIZE as int);
    let a = round_up(vocab_size as int, VOCAB_PADDING_SIZE as int);
    lemma_round_up(a, world_size as int);
    let b = round_up(a, world_size as int);
    lemma_round_up(b, VOCAB_PADDING_SIZE as int);
    let c = round_up(b, VOCAB_PADDING_SIZE as int);
    if VOCAB_PADDING_SIZE as int % (world_size as int) == 0 {
        let q = (b + VOCAB_PADDING_SIZE - 1) / (VOCAB_PADDING_SIZE as int);
        lemma_mul_mod_noop_right(q, VOCAB_PADDING_SIZE as int, world_size as int);
        assert(q * 0 == 0);
        lemma_small_mod(0, world_size);
    }
}

/// The parts of the ranks follow each other without a gap: the first starts at
/// 0, each starts where the one before ends, the last ends with the dimension,
/// and all have the same length. A dimension that does not divide is refused,
/// and so is a rank outside the group; a group of one holds all.
pub proof fn law_chunks_follow_each_other(
    dim_size: usize,
    dim: usize,
    rank: usize,
    world_size: usize,
    here: Result<Span, ChunkError>,
    next: Result<Span, ChunkError>,
)
    requires
        rank < usize::MAX,
        call_ensures(tensor_parallel_chunk, (dim_size, dim, rank, world_size), here),
        call_ensures(tensor_parallel_chunk, (dim_size, dim, (rank + 1) as usize, world_size), next),
    ensures
        world_size <= 1 ==> here == Ok::<Span, ChunkError>(Span { start: 0, len: dim_size }),
        world_size > 1 && rank < world_size ==> (here is Ok <==> dim_size as int % world_size as int == 0),
        world_size > 1 && here is Ok && dim_size > 0 ==> {
            let h = here->Ok_0;
            &&& rank < world_size
            &&& h.len * world_size == dim_size
            &&& rank == 0 ==> h.start == 0
            &&& rank + 1 == world_size ==> h.start + h.len == dim_size
            &&& rank + 1 < world_size ==> next is Ok && next->Ok_0.start == h.start + h.len && next->Ok_0.len == h.len
        },
        here matches Err(e) ==> {
            &&& e is NotDivisible <==> dim_size as int % world_size as int != 0
            &&& e is RankOutOfRange ==> rank >= world_size
        },
{
    if world_size > 1 && dim_size as int % world_size as int == 0 && rank < world_size {
        let chunk = dim_size as int / world_size as int;
        lemma_div_exact(dim_size as int, world_size as int);
        lemma_mul_inequality(rank as int, world_size as int, chunk);
        lemma_mul_inequality(rank + 1, world_size as int, chunk);
        assert((rank + 1) * chunk == rank * chunk + chunk) by (nonlinear_arith);
        lemma_mul_is_commutative(chunk, world_size as int);
        lemma_mul_nonnegative(rank as int, chunk);
        lemma_mul_basics(chunk);
        assert((dim_size / world_size) as int == chunk);
        assert(here->Ok_0.start == rank * chunk);
        if rank + 1 == world_size {
            assert((rank + 1) * chunk == world_size * chunk);
        } else {
            assert(next->Ok_0.start == (rank + 1) * chunk);
        }
    }
}

/// Key-value heads spread where one of heads and ranks divides the other: with
/// at least as many heads as ranks each rank has a part of its own, else each
/// head is held by the same number of neighbouring ranks.
pub proof fn law_kv_heads_spread(kv: usize, rank: usize, world_size: usize, r: Result<(usize, Shard), KvShardError>)
    requires
        call_ensures(kv_head_shard, (kv, rank, world_size), r),
    ensures
        kv > 0 && rank < world_size ==> (r is Ok <==> kv as int % world_size as int == 0 || world_size as int % kv as int == 0),
        r matches Ok((local, part)) ==> {
            &&& kv > 0 && rank < world_size
            &&& local * part.world_size == kv
            &&& part.dim == 0 && part.rank < part.world_size
            &&& kv >= world_size ==> part.rank == rank && part.world_size == world_size
            &&& kv < world_size ==> local == 1
                && part.rank * (world_size as int / kv as int) <= rank < (part.rank + 1) * (world_size as int / kv as int)
        },
        kv == 0 ==> r == Err::<(usize, Shard), KvShardError>(KvShardError::NoHeads),
        kv > 0 && world_size == 0 ==> r == Err::<(usize, Shard), KvShardError>(KvShardError::EmptyGroup),
        kv > 0 && world_size > 0 && rank >= world_size
            ==> r == Err::<(usize, Shard), KvShardError>(KvShardError::RankOutOfRange { rank, world_size }),
{
    if kv > 0 && rank < world_size {
        if kv >= world_size {
            if kv % world_size == 0 {
                lemma_div_exact(kv as int, world_size as int);
            } else if world_size as int % kv as int == 0 {
                if kv > world_size {
                    lemma_small_mod(world_size as nat, kv as nat);
                } else {
                    lemma_mod_self_0(kv as int);
                }
            }
        } else {
            lemma_small_mod(kv as nat, world_size as nat);
            if world_size % kv == 0 {
                let n = world_size as int / kv as int;
                lemma_div_exact(world_size as int, kv as int);
                assert(n > 0) by (nonlinear_arith)
                    requires
                        n * kv == world_size,
                        world_size > 0,
                ;
                let q = rank as int / n;
                lemma_fundamental_div_mod(rank as int, n);
                lemma_mod_bound(rank as int, n);
                assert(q * n <= rank < (q + 1) * n) by (nonlinear_arith)
                    requires
                        rank == n * q + rank as int % n,
                        0 <= rank as int % n < n,
                ;
                assert(q < kv) by (nonlinear_arith)
                    requires
                        q * n <= rank,
                        rank < world_size,
                        n * kv == world_size,
                        n > 0,
                ;
            }
        }
    }
}

/// A vocabulary is padded three times, each time as little as possible: to
/// whole units of 64 rows, then to the same number of rows on each rank, then
/// to whole units again.
pub proof fn law_vocab_is_padded_as_little_as_possible(vocab: usize, world_size: usize, r: usize, units: int, even: int)
    requires
        world_size > 0,
        vocab + world_size + 126 <= usize::MAX,
        call_ensures(pad_vocab_size, (vocab, world_size), r),
        units % 64 == 0,
        vocab <= units < vocab + 64,
        even % (world_size as int) == 0,
        units <= even < units + world_size,
    ensures
        r % 64 == 0,
        even <= r < even + 64,
{
    lemma_round_up(vocab as int, 64);
    lemma_round_up(units, world_size as int);
    lemma_round_up(even, 64);
    let (a, b) = (round_up(vocab as int, 64), round_up(units, world_size as int));
    assert(a == units);
    lemma_one_multiple(b, even, world_size as int);
}

proof fn lemma_one_multiple(a: int, b: int, unit: int)
    requires
        unit > 0,
        a % unit == 0,
        b % unit == 0,
        -unit < a - b < unit,
    ensures
        a == b,
{
    lemma_fundamental_div_mod(a, unit);
    lemma_fundamental_div_mod(b, unit);
    assert(a == b) by (nonlinear_arith)
        requires
            a == unit * (a / unit),
            b == unit * (b / unit),
            -unit < a - b < unit,
            unit > 0,
    ;
}

} // verus!
