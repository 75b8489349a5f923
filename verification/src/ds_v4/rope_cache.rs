//! Rotation tables and the sparse cache of a layer: a ring of window rows,
//! then compressed rows.

use crate::distributed::Span;
use crate::ds_v4::decode_buffers::{Clear, Fill};
use vstd::arithmetic::div_mod::*;
use vstd::arithmetic::mul::*;
use vstd::prelude::*;

verus! {

/// Why rotation tables cannot be made.
#[derive(Debug, Clone, Copy, PartialEq, Eq, Structural)]
pub enum RopeError {
    /// The rotated width must be positive and even.
    RotaryDim { rotary_dim: usize },
    EmptySequence,
}

/// What rotation tables are made from.
#[derive(Debug, Clone, Copy, PartialEq, Eq, Structural)]
pub struct V4RopeTables {
    pub max_seq_len: usize,
    pub rotary_dim: usize,
    /// Columns of the tables.
    pub pairs: usize,
    /// Whether the base of compressed layers is used.
    pub compressed_base: bool,
    /// Length that frequencies are stretched from, 0 for none.
    pub original_seq_len: usize,
}

impl V4RopeTables {
    /// The tables of that size, or why there are none.
    pub open spec fn tables(max_seq_len: usize, rotary_dim: usize, compressed_base: bool, original_seq_len: usize) -> Result<Self, RopeError> {
        if rotary_dim == 0 || rotary_dim % 2 != 0 {
            Err(RopeError::RotaryDim { rotary_dim })
        } else if max_seq_len == 0 {
            Err(RopeError::EmptySequence)
        } else {
            Ok(V4RopeTables { max_seq_len, rotary_dim, pairs: rotary_dim / 2, compressed_base, original_seq_len })
        }
    }

    pub fn precompute(max_seq_len: usize, rotary_dim: usize, compressed_base: bool, original_seq_len: usize) -> (r: Result<Self, RopeError>)
        ensures
            r == Self::tables(max_seq_len, rotary_dim, compressed_base, original_seq_len),
    {
        if rotary_dim == 0 || rotary_dim % 2 != 0 {
            return Err(RopeError::RotaryDim { rotary_dim });
        }
        if max_seq_len == 0 {
            return Err(RopeError::EmptySequence);
        }
        Ok(V4RopeTables { max_seq_len, rotary_dim, pairs: rotary_dim / 2, compressed_base, original_seq_len })
    }

    /// Layers with compression use their own base and stretched frequencies;
    /// the others use the plain base.
    pub fn for_layer_kind(max_seq_len: usize, rotary_dim: usize, is_compress_layer: bool, original_seq_len: usize) -> (r: Result<Self, RopeError>)
        ensures
            r == Self::tables(
                max_seq_len, rotary_dim, is_compress_layer, if is_compress_layer { original_seq_len } else { 0 }),
    {
        if is_compress_layer {
            Self::precompute(max_seq_len, rotary_dim, true, original_seq_len)
        } else {
            Self::precompute(max_seq_len, rotary_dim, false, 0)
        }
    }
}

/// Rows that are copied into a buffer of rows.
#[derive(Debug, Clone, Copy, PartialEq, Eq, Structural)]
pub struct RowCopy {
    /// Rows of the source.
    pub from: Span,
    /// First row of the buffer.
    pub row: usize,
    /// That row in elements.
    pub offset: usize,
}

impl RowCopy {
    /// Whether row `source` ends up in row `target`.
    pub open spec fn puts(self, source: int, target: int) -> bool {
        self.from.start <= source < self.from.start + self.from.len && target - self.row == source - self.from.start
    }
}

/// Whether one of `copies` puts row `source` into row `target`.
pub open spec fn one_puts(copies: Seq<RowCopy>, source: int, target: int) -> bool {
    exists|i: int| 0 <= i < copies.len() && #[trigger] copies[i].puts(source, target)
}

/// What the rows of a buffer hold after `copies`, in order: the source row,
/// or `None` for 0.
pub open spec fn all_put(before: Seq<Option<int>>, copies: Seq<RowCopy>) -> Seq<Option<int>>
    decreases copies.len(),
{
    if copies.len() == 0 {
        before
    } else {
        let c = copies.last();
        let rows = all_put(before, copies.drop_last());
        Seq::new(
            rows.len(),
            |row: int| if c.row <= row < c.row + c.from.len { Some(c.from.start + row - c.row) } else { rows[row] },
        )
    }
}

/// A row holds what one of the copies put there, or what it held before.
proof fn lemma_all_put(before: Seq<Option<int>>, copies: Seq<RowCopy>, row: int)
    requires
        0 <= row < before.len(),
    ensures
        all_put(before, copies).len() == before.len(),
        (exists|source: int| #[trigger] one_puts(copies, source, row)) ==> (all_put(before, copies)[row] matches Some(source)
            && one_puts(copies, source, row)),
        (forall|source: int| !(#[trigger] one_puts(copies, source, row))) ==> all_put(before, copies)[row] == before[row],
    decreases copies.len(),
{
    if copies.len() > 0 {
        let first = copies.drop_last();
        let n = first.len() as int;
        let c = copies[n];
        lemma_all_put(before, first, row);
        assert forall|source: int| #[trigger] one_puts(first, source, row) implies one_puts(copies, source, row) by {
            let i = choose|i: int| 0 <= i < first.len() && #[trigger] first[i].puts(source, row);
            assert(copies[i].puts(source, row));
        }
        if c.row <= row < c.row + c.from.len {
            assert(copies[n].puts(c.from.start + row - c.row, row));
            assert(one_puts(copies, c.from.start + row - c.row, row));
        } else if exists|source: int| #[trigger] one_puts(copies, source, row) {
            let source = choose|source: int| #[trigger] one_puts(copies, source, row);
            let i = choose|i: int| 0 <= i < copies.len() && #[trigger] copies[i].puts(source, row);
            assert(first[i].puts(source, row));
            assert(one_puts(first, source, row));
        }
    }
}

/// Why rows cannot be cached.
#[derive(Debug, Clone, Copy, PartialEq, Eq, Structural)]
pub enum CacheError {
    /// More compressed rows than fit.
    TooMany { len: usize, capacity: usize },
    /// A compressed row outside the cache.
    Row { row: usize, capacity: usize },
}

/// The sparse cache of a layer.
#[derive(Debug, Clone, Copy, PartialEq, Eq, Structural)]
pub struct LayerSparseKvCache {
    pub sliding_window: usize,
    pub compress_ratio: usize,
    pub compressed_slots: usize,
    pub head_dim: usize,
    /// Compressed rows up to the last one written.
    pub compressed_len: usize,
}

impl LayerSparseKvCache {
    /// All rows fit the machine and what was written fits the cache.
    pub open spec fn wf(&self) -> bool {
        &&& (self.sliding_window + self.compressed_slots) * self.head_dim <= usize::MAX
        &&& self.sliding_window + self.compressed_slots <= usize::MAX
        &&& self.compressed_len <= self.compressed_slots
    }

    pub fn new(sliding_window: usize, compress_ratio: usize, max_seq_len: usize, head_dim: usize) -> (r: Self)
        requires
            sliding_window + max_seq_len <= usize::MAX,
            (sliding_window + max_seq_len) * head_dim <= usize::MAX,
        ensures
            r.wf(),
            r.sliding_window == sliding_window,
            r.compress_ratio == compress_ratio,
            r.compressed_slots == if compress_ratio > 0 { max_seq_len / compress_ratio } else { 0 },
            r.head_dim == head_dim,
            r.compressed_len == 0,
    {
        let compressed_slots: usize = if compress_ratio > 0 { max_seq_len / compress_ratio } else { 0 };
        proof {
            if compress_ratio > 0 {
                lemma_div_is_ordered_by_denominator(max_seq_len as int, 1, compress_ratio as int);
                lemma_div_basics(max_seq_len as int);
            }
            lemma_mul_inequality(sliding_window + compressed_slots, sliding_window + max_seq_len, head_dim as int);
        }
        LayerSparseKvCache { sliding_window, compress_ratio, compressed_slots, head_dim, compressed_len: 0 }
    }

    pub fn total_slots(&self) -> (r: usize)
        requires
            self.wf(),
        ensures
            r == self.sliding_window + self.compressed_slots,
    {
        self.sliding_window + self.compressed_slots
    }

    /// All rows 0, as a new cache has them.
    pub open spec fn cleared(self) -> Clear {
        Clear { rows: (self.sliding_window + self.compressed_slots) as usize, cols: self.head_dim, with: Fill::Zero }
    }

    /// Clears all rows; the buffer stays.
    pub fn reset(&mut self) -> (r: Clear)
        requires
            old(self).wf(),
        ensures
            final(self).wf(),
            *final(self) == (LayerSparseKvCache { compressed_len: 0, ..*old(self) }),
            r == old(self).cleared(),
    {
        self.compressed_len = 0;
        Clear { rows: self.sliding_window + self.compressed_slots, cols: self.head_dim, with: Fill::Zero }
    }

    /// The ring row of token `pos`.
    pub open spec fn ring_row(&self, pos: int) -> int {
        pos % (self.sliding_window as int)
    }

    fn copy(&self, start: usize, len: usize, row: usize) -> (r: RowCopy)
        requires
            self.wf(),
            row <= self.sliding_window + self.compressed_slots,
        ensures
            r.from == (Span { start, len }),
            r.row == row,
            r.offset == row * self.head_dim,
    {
        proof {
            lemma_mul_inequality(row as int, self.sliding_window + self.compressed_slots, self.head_dim as int);
        }
        RowCopy { from: Span { start, len }, row, offset: row * self.head_dim }
    }

    /// Whether `copies` put the last of `seq_len` tokens, each into its ring
    /// row, and no other.
    pub open spec fn seeds_window(&self, seq_len: int, copies: Seq<RowCopy>) -> bool {
        &&& forall|i: int| 0 <= i < copies.len() ==> {
            let c = #[trigger] copies[i];
            &&& c.offset == c.row * self.head_dim
            &&& c.from.start + c.from.len <= seq_len
            &&& c.row + c.from.len <= self.sliding_window
        }
        &&& forall|i: int, pos: int, row: int| 0 <= i < copies.len() && #[trigger] copies[i].puts(pos, row)
            ==> row == self.ring_row(pos) && seq_len - self.sliding_window <= pos < seq_len
        &&& forall|pos: int| 0 <= pos && seq_len - self.sliding_window <= pos < seq_len
            ==> #[trigger] one_puts(copies, pos, self.ring_row(pos))
    }

    /// The copies that fill the ring from `seq_len` prefilled tokens: the
    /// last ones, each in its ring row.
    pub fn seed_window_from_prefill(&self, seq_len: usize) -> (r: Vec<RowCopy>)
        requires
            self.wf(),
            self.sliding_window > 0,
        ensures
            self.seeds_window(seq_len as int, r@),
    {
        let win: usize = self.sliding_window;
        let mut v: Vec<RowCopy> = Vec::new();
        if seq_len <= win {
            v.push(self.copy(0, seq_len, 0));
            proof {
                let c = v@[0];
                assert forall|pos: int, row: int| #[trigger] c.puts(pos, row) implies row == self.ring_row(pos)
                    && seq_len - win <= pos < seq_len by {
                    lemma_small_mod(pos as nat, win as nat);
                }
                assert forall|pos: int| 0 <= pos < seq_len implies #[trigger] c.puts(pos, self.ring_row(pos)) by {
                    lemma_small_mod(pos as nat, win as nat);
                }
                assert forall|pos: int| 0 <= pos && seq_len - win <= pos < seq_len implies
                #[trigger] one_puts(v@, pos, self.ring_row(pos)) by {
                    assert(v@[0].puts(pos, self.ring_row(pos)));
                }
            }
            return v;
        }
        let cutoff: usize = seq_len % win;
        let first: usize = seq_len - win;
        let ghost q = seq_len as int / win as int;
        proof {
            lemma_fundamental_div_mod(seq_len as int, win as int);
            lemma_mod_bound(seq_len as int, win as int);
            assert forall|pos: int| first <= pos < seq_len implies #[trigger] self.ring_row(pos)
                == (if pos < seq_len - cutoff { pos - first + cutoff } else { pos - (seq_len - cutoff) }) by {
                if pos < seq_len - cutoff {
                    assert(win * (q - 1) == win * q - win) by (nonlinear_arith);
                    lemma_fundamental_div_mod_converse(pos, win as int, q - 1, pos - win * (q - 1));
                } else {
                    lemma_fundamental_div_mod_converse(pos, win as int, q, pos - win * q);
                }
            }
        }
        if cutoff == 0 {
            v.push(self.copy(first, win, 0));
        } else {
            v.push(self.copy(first, win - cutoff, cutoff));
            v.push(self.copy(seq_len - cutoff, cutoff, 0));
        }
        proof {
            assert forall|pos: int| 0 <= pos && seq_len - win <= pos < seq_len implies
                #[trigger] one_puts(v@, pos, self.ring_row(pos)) by {
                if cutoff == 0 || pos < seq_len - cutoff {
                    assert(v@[0].puts(pos, self.ring_row(pos)));
                } else {
                    assert(v@[1].puts(pos, self.ring_row(pos)));
                }
            }
        }
        v
    }

    /// The copy of `n` compressed rows of a prefill behind the ring.
    pub fn seed_compressed_from_prefill(&mut self, n: usize) -> (r: Result<RowCopy, CacheError>)
        requires
            old(self).wf(),
        ensures
            final(self).wf(),
            n > old(self).compressed_slots ==> *final(self) == *old(self)
                && r == Err::<RowCopy, CacheError>(CacheError::TooMany { len: n, capacity: old(self).compressed_slots }),
            n <= old(self).compressed_slots ==> {
                &&& *final(self) == (LayerSparseKvCache { compressed_len: n, ..*old(self) })
                &&& r matches Ok(c)
                &&& c.from == (Span { start: 0, len: n })
                &&& c.row == old(self).sliding_window
                &&& c.offset == c.row * old(self).head_dim
            },
    {
        if n > self.compressed_slots {
            return Err(CacheError::TooMany { len: n, capacity: self.compressed_slots });
        }
        let c = self.copy(0, n, self.sliding_window);
        self.compressed_len = n;
        Ok(c)
    }

    /// The copy of the row of token `start_pos` into the ring.
    pub fn write_window_token(&self, start_pos: usize) -> (r: RowCopy)
        requires
            self.wf(),
            self.sliding_window > 0,
        ensures
            r.from == (Span { start: 0, len: 1 }),
            r.row == self.ring_row(start_pos as int),
            r.offset == r.row * self.head_dim,
    {
        proof {
            lemma_mod_bound(start_pos as int, self.sliding_window as int);
        }
        self.copy(0, 1, start_pos % self.sliding_window)
    }

    /// The copy of one compressed row.
    pub fn write_compressed_row(&mut self, row: usize) -> (r: Result<RowCopy, CacheError>)
        requires
            old(self).wf(),
        ensures
            final(self).wf(),
            row >= old(self).compressed_slots ==> *final(self) == *old(self)
                && r == Err::<RowCopy, CacheError>(CacheError::Row { row, capacity: old(self).compressed_slots }),
            row < old(self).compressed_slots ==> {
                &&& *final(self) == (LayerSparseKvCache {
                    compressed_len: if old(self).compressed_len > row { old(self).compressed_len } else { (row + 1) as usize },
                    ..*old(self)
                })
                &&& r matches Ok(c)
                &&& c.from == (Span { start: 0, len: 1 })
                &&& c.row == old(self).sliding_window + row
                &&& c.offset == c.row * old(self).head_dim
            },
    {
        if row >= self.compressed_slots {
            return Err(CacheError::Row { row, capacity: self.compressed_slots });
        }
        let c = self.copy(0, 1, self.sliding_window + row);
        if row + 1 > self.compressed_len {
            self.compressed_len = row + 1;
        }
        Ok(c)
    }
}

/// After a prefill each row of the ring holds the one of the last tokens that
/// belongs there, or 0 where there is none, and the rows behind the ring hold
/// 0 until compressed rows come, whatever was there before.
pub proof fn law_cleared_ring_holds_the_last_tokens(cache: LayerSparseKvCache, seq_len: int, copies: Seq<RowCopy>, row: int)
    requires
        cache.wf(),
        cache.sliding_window > 0,
        0 <= seq_len,
        cache.seeds_window(seq_len, copies),
        0 <= row < cache.cleared().rows,
    ensures
        ({
            let after = all_put(Seq::new(cache.cleared().rows as nat, |i: int| None::<int>), copies);
            &&& after.len() == cache.cleared().rows
            &&& after[row] matches Some(pos) ==> 0 <= pos && seq_len - cache.sliding_window <= pos < seq_len && cache.ring_row(pos) == row
            &&& forall|pos: int| 0 <= pos && seq_len - cache.sliding_window <= pos < seq_len && #[trigger] cache.ring_row(pos) == row
                ==> after[row] == Some(pos)
            &&& row >= cache.sliding_window ==> after[row] is None
        }),
{
    let zeros = Seq::new(cache.cleared().rows as nat, |i: int| None::<int>);
    let after = all_put(zeros, copies);
    lemma_all_put(zeros, copies, row);
    if after[row] is Some {
        let pos = after[row]->0;
        assert(one_puts(copies, pos, row)) by {
            if forall|source: int| !(#[trigger] one_puts(copies, source, row)) {
                assert(after[row] == zeros[row]);
            }
        }
        let i = choose|i: int| 0 <= i < copies.len() && #[trigger] copies[i].puts(pos, row);
        assert(copies[i].puts(pos, row));
        lemma_mod_bound(pos, cache.sliding_window as int);
    }
    assert forall|pos: int| 0 <= pos && seq_len - cache.sliding_window <= pos < seq_len && #[trigger] cache.ring_row(pos) == row
        implies after[row] == Some(pos) by {
        assert(one_puts(copies, pos, row));
        let held = after[row]->0;
        let i = choose|i: int| 0 <= i < copies.len() && #[trigger] copies[i].puts(held, row);
        assert(copies[i].puts(held, row));
        if held < pos {
            law_ring_rows_distinct(cache, held, pos);
        } else if pos < held {
            law_ring_rows_distinct(cache, pos, held);
        }
    }
}

/// Any `window` tokens in a row have ring rows of their own, so that seeding
/// and then writing token after token always leaves the last tokens cached.
pub proof fn law_ring_rows_distinct(c: LayerSparseKvCache, a: int, b: int)
    requires
        c.sliding_window > 0,
        0 <= a < b < a + c.sliding_window,
    ensures
        c.ring_row(a) != c.ring_row(b),
        0 <= c.ring_row(a) < c.sliding_window,
{
    let w = c.sliding_window as int;
    lemma_mod_bound(a, w);
    if a % w == b % w {
        lemma_fundamental_div_mod(a, w);
        lemma_fundamental_div_mod(b, w);
        assert(false) by (nonlinear_arith)
            requires
                a == w * (a / w) + a % w,
                b == w * (b / w) + b % w,
                a % w == b % w,
                0 < b - a < w,
        ;
    }
}

/// A token that follows a prefill overwrites the oldest one of the window.
pub proof fn law_next_token_replaces_the_oldest(c: LayerSparseKvCache, seq_len: int)
    requires
        c.sliding_window > 0,
        seq_len >= c.sliding_window,
    ensures
        c.ring_row(seq_len) == c.ring_row(seq_len - c.sliding_window),
{
    let w = c.sliding_window as int;
    lemma_mod_add_multiples_vanish(seq_len - w, w);
}

/// After a prefill row `row` of the ring holds the last token whose position
/// leaves the remainder `row`, and 0 where there is no such token yet; the rows
/// behind the ring hold 0.
pub proof fn law_ring_holds_tokens_by_remainder(cache: LayerSparseKvCache, n: usize, copies: Vec<RowCopy>, row: int)
    requires
        cache.wf(),
        cache.sliding_window > 0,
        call_ensures(LayerSparseKvCache::seed_window_from_prefill, (&cache, n), copies),
        0 <= row < cache.sliding_window + cache.compressed_slots,
    ensures
        ({
            let rows = (cache.sliding_window + cache.compressed_slots) as nat;
            let after = all_put(Seq::new(rows, |i: int| None::<int>), copies@);
            let w = cache.sliding_window as int;
            &&& after.len() == rows
            &&& row >= w || row >= n ==> after[row] is None
            &&& row < w && row < n ==> {
                &&& after[row] matches Some(pos)
                &&& 0 <= pos < n && n <= pos + w
                &&& pos % w == row
            }
        }),
        forall|i: int| 0 <= i < copies@.len() ==> (#[trigger] copies@[i]).offset == copies@[i].row * cache.head_dim,
{
    let w = cache.sliding_window as int;
    law_cleared_ring_holds_the_last_tokens(cache, n as int, copies@, row);
    let rows = (cache.sliding_window + cache.compressed_slots) as nat;
    let after = all_put(Seq::new(rows, |i: int| None::<int>), copies@);
    if row < w && row < n {
        // the last position below n with that remainder
        let pos = row + w * ((n - 1 - row) / w);
        lemma_fundamental_div_mod(n - 1 - row, w);
        lemma_mod_bound(n - 1 - row, w);
        lemma_div_pos_is_pos(n - 1 - row, w);
        lemma_mul_nonnegative(w, (n - 1 - row) / w);
        lemma_mul_is_commutative(w, (n - 1 - row) / w);
        lemma_fundamental_div_mod_converse(pos, w, (n - 1 - row) / w, row);
        assert(cache.ring_row(pos) == row);
    } else if row < w {
        if after[row] is Some {
            let pos = after[row]->0;
            lemma_small_mod(pos as nat, w as nat);
        }
    }
}

/// Writing the token that follows a prefill leaves the ring as a prefill with
/// that token would have left it.
pub proof fn law_ring_write_continues_a_prefill(
    cache: LayerSparseKvCache,
    n: usize,
    copies: Vec<RowCopy>,
    longer: Vec<RowCopy>,
    write: RowCopy,
    row: int,
)
    requires
        cache.wf(),
        cache.sliding_window > 0,
        n < usize::MAX,
        call_ensures(LayerSparseKvCache::seed_window_from_prefill, (&cache, n), copies),
        call_ensures(LayerSparseKvCache::seed_window_from_prefill, (&cache, (n + 1) as usize), longer),
        call_ensures(LayerSparseKvCache::write_window_token, (&cache, n), write),
        0 <= row < cache.sliding_window,
    ensures
        ({
            let rows = (cache.sliding_window + cache.compressed_slots) as nat;
            let zeros = Seq::new(rows, |i: int| None::<int>);
            all_put(zeros, longer@)[row] == if row == write.row { Some(n as int) } else { all_put(zeros, copies@)[row] }
        }),
        write.from.start == 0 && write.from.len == 1,
        write.row < cache.sliding_window && n as int % cache.sliding_window as int == write.row,
        write.offset == write.row * cache.head_dim,
{
    let w = cache.sliding_window as int;
    let rows = (cache.sliding_window + cache.compressed_slots) as nat;
    let zeros = Seq::new(rows, |i: int| None::<int>);
    law_ring_holds_tokens_by_remainder(cache, n, copies, row);
    law_ring_holds_tokens_by_remainder(cache, (n + 1) as usize, longer, row);
    let (a, b) = (all_put(zeros, copies@)[row], all_put(zeros, longer@)[row]);
    lemma_mod_bound(n as int, w);
    if row == n as int % w {
        if n < w {
            lemma_small_mod(n as nat, w as nat);
        }
        if row < n + 1 {
            lemma_same_remainder(b->0, n as int, w);
        } else {
            lemma_mod_decreases(n as nat, w as nat);
        }
    } else {
        if row == n {
            lemma_small_mod(n as nat, w as nat);
        }
        if row < n {
            if b->0 == n {
                assert(false);
            }
            lemma_same_remainder(a->0, b->0, w);
        }
    }
}

proof fn lemma_same_remainder(a: int, b: int, w: int)
    requires
        w > 0,
        0 <= a,
        0 <= b,
        a % w == b % w,
        -w < a - b < w,
    ensures
        a == b,
{
    lemma_fundamental_div_mod(a, w);
    lemma_fundamental_div_mod(b, w);
    assert(a == b) by (nonlinear_arith)
        requires
            a == w * (a / w) + a % w,
            b == w * (b / w) + b % w,
            a % w == b % w,
            -w < a - b < w,
            w > 0,
    ;
}

/// Compressed rows stand behind the ring, row `k` at place `k`; each is
/// counted, none is forgotten, and nothing changes where there is no room.
pub proof fn law_compressed_rows_stand_behind_the_ring(before: LayerSparseKvCache, n: usize)
    requires
        before.wf(),
    ensures
        forall|s: &mut LayerSparseKvCache, r: Result<RowCopy, CacheError>| *s == before
            && #[trigger] call_ensures(LayerSparseKvCache::seed_compressed_from_prefill, (s, n), r) ==> {
            &&& r is Ok <==> n <= before.compressed_slots
            &&& r is Err ==> *final(s) == before && r->Err_0 == (CacheError::TooMany { len: n, capacity: before.compressed_slots })
            &&& r matches Ok(c) ==> {
                &&& c.from.start == 0 && c.from.len == n
                &&& c.row == before.sliding_window && c.offset == before.sliding_window * before.head_dim
                &&& final(s).compressed_len == n && final(s).compressed_slots == before.compressed_slots
            }
        },
        forall|s: &mut LayerSparseKvCache, r: Result<RowCopy, CacheError>| *s == before
            && #[trigger] call_ensures(LayerSparseKvCache::write_compressed_row, (s, n), r) ==> {
            &&& r is Ok <==> n < before.compressed_slots
            &&& r is Err ==> *final(s) == before && r->Err_0 == (CacheError::Row { row: n, capacity: before.compressed_slots })
            &&& r matches Ok(c) ==> {
                &&& c.from.start == 0 && c.from.len == 1
                &&& c.row == before.sliding_window + n && c.offset == (before.sliding_window + n) * before.head_dim
                &&& final(s).compressed_len >= before.compressed_len && final(s).compressed_len > n
                &&& final(s).compressed_len == before.compressed_len || final(s).compressed_len == n + 1
            }
        },
        forall|s: &mut LayerSparseKvCache, r: Clear| *s == before && #[trigger] call_ensures(LayerSparseKvCache::reset, (s,), r) ==> {
            &&& r.rows == before.sliding_window + before.compressed_slots && r.cols == before.head_dim && r.with is Zero
            &&& final(s).compressed_len == 0 && final(s).compressed_slots == before.compressed_slots
            &&& final(s).sliding_window == before.sliding_window
        },
{
}

/// A new cache has room for the whole window and for a row of each whole run
/// of tokens, and holds nothing.
pub proof fn law_new_cache_has_room_for_all_runs(window: usize, ratio: usize, max_seq_len: usize, head_dim: usize, r: LayerSparseKvCache, total: usize)
    requires
        call_ensures(LayerSparseKvCache::new, (window, ratio, max_seq_len, head_dim), r),
        call_ensures(LayerSparseKvCache::total_slots, (&r,), total),
    ensures
        r.sliding_window == window && r.head_dim == head_dim && r.compress_ratio == ratio,
        r.compressed_len == 0,
        ratio == 0 ==> r.compressed_slots == 0,
        ratio > 0 ==> r.compressed_slots * ratio <= max_seq_len < (r.compressed_slots + 1) * ratio,
        total == window + r.compressed_slots,
{
    if ratio > 0 {
        let k = max_seq_len as int / ratio as int;
        lemma_fundamental_div_mod(max_seq_len as int, ratio as int);
        lemma_mod_bound(max_seq_len as int, ratio as int);
        lemma_mul_is_commutative(ratio as int, k);
        assert((k + 1) * ratio == k * ratio + ratio) by (nonlinear_arith);
    }
}

/// Tables are made for positive even widths and sequences that are not empty,
/// with a column for each pair. Only layers with compression have their own
/// base and stretched frequencies.
pub proof fn law_rope_tables_follow_the_layer(
    max_seq_len: usize,
    rotary_dim: usize,
    compresses: bool,
    original: usize,
    r: Result<V4RopeTables, RopeError>,
)
    requires
        call_ensures(V4RopeTables::for_layer_kind, (max_seq_len, rotary_dim, compresses, original), r),
    ensures
        r is Ok <==> rotary_dim > 0 && rotary_dim % 2 == 0 && max_seq_len > 0,
        r matches Ok(t) ==> {
            &&& 2 * t.pairs == rotary_dim && t.rotary_dim == rotary_dim && t.max_seq_len == max_seq_len
            &&& t.compressed_base <==> compresses
            &&& compresses ==> t.original_seq_len == original
            &&& !compresses ==> t.original_seq_len == 0
        },
        r matches Err(e) ==> (e is RotaryDim <==> rotary_dim == 0 || rotary_dim % 2 != 0),
{
}

} // verus!
